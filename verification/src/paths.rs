//! Paths as character sequences: joining, prefixes, components and the
//! rewriting of an absolute path relative to the home directory.

use vstd::prelude::*;
use vstd::string::*;
use crate::error::ErrorKind;
use crate::text::{chars_of, str_eq, views, lemma_views_push, lemma_views_empty};

verus! {

/// Whether `path` starts at the filesystem root.
pub open spec fn spec_is_absolute(path: Seq<char>) -> bool {
    path.len() > 0 && path[0] == '/'
}

/// Whether `path` starts at the filesystem root.
pub fn is_absolute(path: &str) -> (b: bool)
    ensures
        b == spec_is_absolute(path@),
{
    path.unicode_len() > 0 && path.get_char(0) == '/'
}

/// `path` as seen from `base`: an absolute path stands for itself, a
/// relative one is appended to `base` with exactly one separator between.
pub open spec fn spec_resolve(base: Seq<char>, path: Seq<char>) -> Seq<char> {
    if spec_is_absolute(path) || base.len() == 0 {
        path
    } else if base.last() == '/' {
        base + path
    } else {
        base + seq!['/'] + path
    }
}

/// `path` as seen from the directory `base`.
pub fn resolve_against(base: &str, path: &str) -> (full: String)
    ensures
        full@ == spec_resolve(base@, path@),
{
    let n = base.unicode_len();
    if is_absolute(path) || n == 0 {
        String::from_str(path)
    } else if base.get_char(n - 1) == '/' {
        String::from_str(base).concat(path)
    } else {
        proof {
            reveal_strlit("/");
            assert("/"@ =~= seq!['/']);
        }
        String::from_str(base).concat("/").concat(path)
    }
}

/// Whether a non-empty segment of `path` ends just before position `k`.
pub open spec fn spec_is_cut(path: Seq<char>, k: int) -> bool {
    0 < k <= path.len() && path[k - 1] != '/' && (k == path.len() || path[k] == '/')
}

fn is_cut(chars: &Vec<char>, k: usize) -> (b: bool)
    ensures
        b == spec_is_cut(chars@, k as int),
{
    0 < k && k <= chars.len() && chars[k - 1] != '/' && (k == chars.len() || chars[k] == '/')
}

/// The name of the directory in which the version-control system keeps
/// its own files.
pub open spec fn spec_vcs_dir() -> Seq<char> {
    seq!['.', 'g', 'i', 't']
}

/// Whether a whole segment of `path` that starts at `i` is the
/// version-control directory's name.
pub open spec fn spec_vcs_component_at(path: Seq<char>, i: int) -> bool {
    &&& 0 <= i
    &&& i + 4 <= path.len()
    &&& path.subrange(i, i + 4) == spec_vcs_dir()
    &&& (i == 0 || path[i - 1] == '/')
    &&& (i + 4 == path.len() || path[i + 4] == '/')
}

/// Whether some segment of `path` is the version-control directory's name.
pub open spec fn spec_has_vcs_component(path: Seq<char>) -> bool {
    exists|i: int| spec_vcs_component_at(path, i)
}

fn vcs_component_at(chars: &Vec<char>, i: usize) -> (b: bool)
    ensures
        b == spec_vcs_component_at(chars@, i as int),
{
    let n = chars.len();
    if n < 4 || i > n - 4 {
        return false;
    }
    let named = chars[i] == '.' && chars[i + 1] == 'g' && chars[i + 2] == 'i' && chars[i + 3]
        == 't';
    proof {
        let piece = chars@.subrange(i as int, i + 4);
        assert(piece[0] == chars@[i as int]);
        assert(piece[1] == chars@[i + 1]);
        assert(piece[2] == chars@[i + 2]);
        assert(piece[3] == chars@[i + 3]);
        if named {
            assert(piece =~= spec_vcs_dir());
        }
    }
    named && (i == 0 || chars[i - 1] == '/') && (i + 4 == n || chars[i + 4] == '/')
}

/// Whether `path` runs through the version-control system's own directory.
pub fn has_vcs_component(path: &str) -> (b: bool)
    ensures
        b == spec_has_vcs_component(path@),
{
    let chars = chars_of(path);
    let mut i: usize = 0;
    while i < chars.len()
        invariant
            i <= chars.len(),
            chars@ == path@,
            forall|j: int| 0 <= j < i ==> !spec_vcs_component_at(path@, j),
        decreases chars.len() - i,
    {
        if vcs_component_at(&chars, i) {
            return true;
        }
        i += 1;
    }
    false
}

/// Where the segment begins that holds the character before position `k`:
/// behind the last separator before `k`, or at the start of the path.
pub open spec fn spec_segment_start(path: Seq<char>, k: int) -> int
    decreases k,
{
    if k <= 0 {
        0
    } else if path[k - 1] == '/' {
        k
    } else {
        spec_segment_start(path, k - 1)
    }
}

/// The segment that stands for the directory itself.
pub open spec fn spec_dot() -> Seq<char> {
    seq!['.']
}

/// Whether a component of `path` ends just before position `k`: a
/// non-empty segment ends there, and it is not a `.`, which counts only at
/// the very start of a path.
pub open spec fn spec_is_component_end(path: Seq<char>, k: int) -> bool {
    spec_is_cut(path, k) && (path.subrange(spec_segment_start(path, k), k) != spec_dot()
        || spec_segment_start(path, k) == 0)
}

/// The components that end within the first `k` characters of `path`.
pub open spec fn spec_components_upto(path: Seq<char>, k: int) -> Seq<Seq<char>>
    decreases k,
{
    if k <= 0 {
        Seq::empty()
    } else if spec_is_component_end(path, k) {
        spec_components_upto(path, k - 1).push(path.subrange(spec_segment_start(path, k), k))
    } else {
        spec_components_upto(path, k - 1)
    }
}

/// The components of `path`, in order: its segments between separators,
/// without the empty ones that repeated or trailing separators leave and
/// without `.` segments, except a `.` that the path starts with.
pub open spec fn spec_components(path: Seq<char>) -> Seq<Seq<char>> {
    spec_components_upto(path, path.len() as int)
}

/// A segment that ends at a cut starts before it, holds no separator and
/// follows a separator or the start of the path.
pub proof fn lemma_segment(path: Seq<char>, k: int)
    requires
        0 < k <= path.len(),
        path[k - 1] != '/',
    ensures
        0 <= spec_segment_start(path, k) < k,
        forall|j: int| spec_segment_start(path, k) <= j < k ==> path[j] != '/',
        spec_segment_start(path, k) == 0 || path[spec_segment_start(path, k) - 1] == '/',
    decreases k,
{
    assert(spec_segment_start(path, k) == spec_segment_start(path, k - 1));
    if k == 1 {
        assert(spec_segment_start(path, 0) == 0);
    } else if path[k - 2] == '/' {
        assert(spec_segment_start(path, k - 1) == k - 1);
    } else {
        lemma_segment(path, k - 1);
    }
}

/// The components of `path`, in order.
pub fn components(path: &str) -> (parts: Vec<String>)
    ensures
        views(parts@) == spec_components(path@),
{
    let chars = chars_of(path);
    let n = chars.len();
    let mut out: Vec<String> = Vec::new();
    let mut start: usize = 0;
    let mut k: usize = 0;
    proof {
        lemma_views_empty();
    }
    while k < n
        invariant
            k <= n,
            n == chars@.len(),
            chars@ == path@,
            start <= k,
            start == spec_segment_start(path@, k as int),
            views(out@) == spec_components_upto(path@, k as int),
        decreases n - k,
    {
        if chars[k] == '/' {
            start = k + 1;
        }
        k += 1;
        if is_cut(&chars, k) {
            let dot = k - start == 1 && chars[start] == '.';
            proof {
                let segment = path@.subrange(start as int, k as int);
                assert(spec_dot().len() == 1 && spec_dot()[0] == '.');
                if k - start == 1 {
                    assert(segment[0] == chars@[start as int]);
                }
                if dot {
                    assert(segment =~= spec_dot());
                }
            }
            if !dot || start == 0 {
                let piece = String::from_str(path.substring_char(start, k));
                proof {
                    lemma_views_push(out@, piece);
                }
                out.push(piece);
            }
        }
    }
    out
}

/// The components joined into one path, with one separator between each
/// two.
pub open spec fn spec_join(parts: Seq<Seq<char>>) -> Seq<char>
    decreases parts.len(),
{
    if parts.len() == 0 {
        Seq::empty()
    } else if parts.len() == 1 {
        parts[0]
    } else {
        spec_join(parts.drop_last()) + seq!['/'] + parts.last()
    }
}

/// The components of `parts` from position `from` on, joined into one path.
fn join_from(parts: &Vec<String>, from: usize) -> (joined: String)
    requires
        from <= parts.len(),
    ensures
        joined@ == spec_join(views(parts@).skip(from as int)),
{
    let ghost rest = views(parts@).skip(from as int);
    let mut out = String::new();
    let mut i: usize = from;
    proof {
        assert(rest.take(0) =~= Seq::<Seq<char>>::empty());
        reveal_strlit("/");
        assert("/"@ =~= seq!['/']);
    }
    while i < parts.len()
        invariant
            from <= i <= parts.len(),
            rest == views(parts@).skip(from as int),
            out@ == spec_join(rest.take(i - from)),
            "/"@ == seq!['/'],
        decreases parts.len() - i,
    {
        proof {
            assert(rest.take(i - from + 1).drop_last() =~= rest.take(i - from));
            assert(rest.take(i - from + 1).last() == parts@[i as int]@);
            assert(rest.take(i - from + 1)[0] == rest[0]);
        }
        if i > from {
            out.append("/");
        } else {
            proof {
                assert(out@ + parts@[i as int]@ =~= parts@[i as int]@);
            }
        }
        out.append(parts[i].as_str());
        i += 1;
    }
    proof {
        assert(rest.take(parts@.len() - from) =~= rest);
    }
    out
}

/// `path` relative to the directory `home`, if `path` lies strictly
/// beneath it: both start at the root or neither does, the components of
/// `home` are the first components of `path`, and at least one more
/// follows. What follows, joined, is the relative path.
pub open spec fn spec_relative_to(path: Seq<char>, home: Seq<char>) -> Option<Seq<char>> {
    let whole = spec_components(path);
    let above = spec_components(home);
    if spec_is_absolute(path) == spec_is_absolute(home) && above.len() < whole.len() && whole.take(
        above.len() as int,
    ) == above {
        Some(spec_join(whole.skip(above.len() as int)))
    } else {
        None
    }
}

/// Whether `path` is written relative to some directory: it is not empty
/// and does not start at the root.
pub open spec fn spec_is_relative(path: Seq<char>) -> bool {
    path.len() > 0 && path[0] != '/'
}

/// Every component is a segment of the path: not empty and free of
/// separators.
pub proof fn lemma_components_shape(path: Seq<char>, k: int)
    requires
        0 <= k <= path.len(),
    ensures
        forall|i: int|
            0 <= i < spec_components_upto(path, k).len() ==> {
                let part = #[trigger] spec_components_upto(path, k)[i];
                part.len() > 0 && forall|j: int| 0 <= j < part.len() ==> part[j] != '/'
            },
    decreases k,
{
    if k > 0 {
        lemma_components_shape(path, k - 1);
        let before = spec_components_upto(path, k - 1);
        let all = spec_components_upto(path, k);
        assert forall|i: int| 0 <= i < all.len() implies {
            let part = #[trigger] all[i];
            part.len() > 0 && forall|j: int| 0 <= j < part.len() ==> part[j] != '/'
        } by {
            if i < before.len() {
                assert(all[i] == before[i]);
            } else {
                lemma_segment(path, k);
            }
        }
    }
}

/// A joined path begins as its first component does.
pub proof fn lemma_join_begins(parts: Seq<Seq<char>>)
    requires
        parts.len() > 0,
        parts[0].len() > 0,
    ensures
        spec_join(parts).len() > 0,
        spec_join(parts)[0] == parts[0][0],
    decreases parts.len(),
{
    if parts.len() > 1 {
        assert(parts.drop_last()[0] == parts[0]);
        lemma_join_begins(parts.drop_last());
    }
}

/// Nothing of a path is lost or reread when it is rewritten relative to
/// `home`: the components of `home`, followed by the components that the
/// relative path is joined from, are the components of the path; and the
/// relative path is not empty and does not start at the root.
pub proof fn lemma_relative_to_reconstructs(path: Seq<char>, home: Seq<char>)
    requires
        spec_relative_to(path, home) is Some,
    ensures
        spec_is_relative(spec_relative_to(path, home)->0),
        spec_is_absolute(path) == spec_is_absolute(home),
        spec_components(home).len() < spec_components(path).len(),
        spec_components(home) + spec_components(path).skip(spec_components(home).len() as int)
            == spec_components(path),
        spec_relative_to(path, home)->0 == spec_join(
            spec_components(path).skip(spec_components(home).len() as int),
        ),
{
    let whole = spec_components(path);
    let above = spec_components(home);
    let rest = whole.skip(above.len() as int);
    lemma_components_shape(path, path.len() as int);
    assert(rest[0] == whole[above.len() as int]);
    lemma_join_begins(rest);
    assert(above + rest =~= whole);
}

/// Rewrites `path` relative to `homedir`, component by component, so that
/// repeated separators and `.` segments in either make no difference. A
/// path that is not strictly beneath `homedir` is refused.
pub fn convert_to_relative_path(path: &str, homedir: &str) -> (rel: Result<String, ErrorKind>)
    ensures
        match rel {
            Ok(r) => spec_relative_to(path@, homedir@) == Some(r@),
            Err(k) => k == ErrorKind::OutsideHome && spec_relative_to(path@, homedir@) is None,
        },
{
    let whole = components(path);
    let above = components(homedir);
    if is_absolute(path) != is_absolute(homedir) || above.len() >= whole.len() {
        return Err(ErrorKind::OutsideHome);
    }
    let mut i: usize = 0;
    while i < above.len()
        invariant
            i <= above.len() < whole.len(),
            views(whole@) == spec_components(path@),
            views(above@) == spec_components(homedir@),
            spec_is_absolute(path@) == spec_is_absolute(homedir@),
            forall|j: int| 0 <= j < i ==> views(whole@)[j] == views(above@)[j],
        decreases above.len() - i,
    {
        if !str_eq(whole[i].as_str(), above[i].as_str()) {
            proof {
                assert(views(whole@).take(above@.len() as int)[i as int] == views(whole@)[i as int]);
            }
            return Err(ErrorKind::OutsideHome);
        }
        i += 1;
    }
    proof {
        assert(views(whole@).take(above@.len() as int) =~= views(above@));
    }
    Ok(join_from(&whole, above.len()))
}

/// The root, if `path` starts there, and nothing otherwise.
pub open spec fn spec_root(path: Seq<char>) -> Seq<char> {
    if spec_is_absolute(path) {
        seq!['/']
    } else {
        Seq::empty()
    }
}

/// The beginning of `path` that holds its first `k` components: the root,
/// if the path starts there, and the components joined.
pub open spec fn spec_prefix(path: Seq<char>, k: int) -> Seq<char> {
    spec_root(path) + spec_join(spec_components(path).take(k))
}

/// The beginnings of `path`, component by component from the root to the
/// whole path: for a path that starts at the root the root itself comes
/// first; then one beginning for each component.
pub open spec fn spec_prefixes(path: Seq<char>) -> Seq<Seq<char>> {
    let n = spec_components(path).len() as int;
    if spec_is_absolute(path) {
        Seq::new((n + 1) as nat, |k: int| spec_prefix(path, k))
    } else {
        Seq::new(n as nat, |k: int| spec_prefix(path, k + 1))
    }
}

/// Each beginning of a path is the one before it, a separator where
/// components meet, and the next component.
pub proof fn lemma_prefix_extends(path: Seq<char>, k: int)
    requires
        0 <= k < spec_components(path).len(),
    ensures
        spec_prefix(path, k + 1) == if k == 0 {
            spec_prefix(path, 0) + spec_components(path)[0]
        } else {
            spec_prefix(path, k) + seq!['/'] + spec_components(path)[k]
        },
        spec_prefix(path, 0) == spec_root(path),
{
    let parts = spec_components(path);
    assert(parts.take(k + 1).drop_last() =~= parts.take(k));
    assert(parts.take(k + 1).last() == parts[k]);
    assert(parts.take(0) =~= Seq::<Seq<char>>::empty());
    assert(spec_root(path) + Seq::<char>::empty() =~= spec_root(path));
    if k == 0 {
        assert(parts.take(1)[0] == parts[0]);
    } else {
        assert(spec_root(path) + (spec_join(parts.take(k)) + seq!['/'] + parts[k]) =~= spec_root(path)
            + spec_join(parts.take(k)) + seq!['/'] + parts[k]);
    }
}

/// The successively longer beginnings of `path`, one per component, root
/// to leaf.
pub fn path_prefixes(path: &str) -> (prefixes: Vec<String>)
    ensures
        views(prefixes@) == spec_prefixes(path@),
{
    let parts = components(path);
    let rooted = is_absolute(path);
    let mut out: Vec<String> = Vec::new();
    let mut current = String::new();
    proof {
        lemma_views_empty();
        reveal_strlit("/");
        assert("/"@ =~= seq!['/']);
        assert(spec_components(path@).take(0) =~= Seq::<Seq<char>>::empty());
        assert(spec_root(path@) + Seq::<char>::empty() =~= spec_root(path@));
    }
    if rooted {
        current.append("/");
        let root = current.clone();
        proof {
            assert(current@ =~= spec_root(path@));
            lemma_views_push(out@, root);
        }
        out.push(root);
    }
    let ghost shift: int = if rooted { 1 } else { 0 };
    let mut k: usize = 0;
    while k < parts.len()
        invariant
            k <= parts.len(),
            views(parts@) == spec_components(path@),
            rooted == spec_is_absolute(path@),
            shift == if rooted { 1int } else { 0int },
            "/"@ == seq!['/'],
            current@ == spec_prefix(path@, k as int),
            views(out@).len() == k + shift,
            forall|i: int|
                0 <= i < k + shift ==> #[trigger] views(out@)[i] == spec_prefix(
                    path@,
                    i + 1 - shift,
                ),
        decreases parts.len() - k,
    {
        proof {
            lemma_prefix_extends(path@, k as int);
            assert(views(parts@)[k as int] == parts@[k as int]@);
        }
        if k > 0 {
            current.append("/");
        }
        current.append(parts[k].as_str());
        let next = current.clone();
        proof {
            lemma_views_push(out@, next);
        }
        out.push(next);
        k += 1;
    }
    proof {
        assert(views(out@) =~= spec_prefixes(path@));
    }
    out
}

} // verus!
