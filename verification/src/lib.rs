//! Dotfile tracking in a bare repository rooted at the home directory:
//! path normalization, ignore filtering and index reconciliation.

pub mod cli;
pub mod commands;
pub mod commit;
pub mod commit_laws;
pub mod error;
pub mod expand;
pub mod ignore;
pub mod normalize;
pub mod normalize_laws;
pub mod path_laws;
pub mod paths;
pub mod text;
pub mod vcs;
