//! What holds of every reconciliation: refreshing removes nothing from
//! the index, and the timestamp can be read back from a commit message.

use vstd::prelude::*;
use crate::commit::{spec_commit_message, spec_decimal_nat, spec_digit, spec_select_present};

verus! {

/// A model of staging, not a statement about the repository library: the
/// paths that an index records after `staged` was staged into one that
/// recorded `index_paths`, if staging a path adds it or renews its entry
/// and touches no other.
pub open spec fn spec_index_after_staging(index_paths: Set<Seq<char>>, staged: Seq<Seq<char>>) -> Set<
    Seq<char>,
> {
    index_paths.union(staged.to_set())
}

/// Refreshing stages only what the index already records.
pub proof fn lemma_restaged_are_recorded(recorded: Seq<Seq<char>>, present: Seq<bool>, x: Seq<char>)
    requires
        spec_select_present(recorded, present).contains(x),
    ensures
        recorded.contains(x),
    decreases recorded.len(),
{
    if recorded.len() > 0 {
        let front = recorded.drop_last();
        let chosen = spec_select_present(front, present);
        let at = choose|at: int|
            0 <= at < spec_select_present(recorded, present).len() && spec_select_present(
                recorded,
                present,
            )[at] == x;
        if at < chosen.len() {
            assert(chosen[at] == x);
            lemma_restaged_are_recorded(front, present, x);
            let i = choose|i: int| 0 <= i < front.len() && front[i] == x;
            assert(recorded[i] == x);
        } else {
            assert(recorded[recorded.len() - 1] == x);
        }
    }
}

/// A path whose file is on disk is staged again.
pub proof fn lemma_present_restaged(recorded: Seq<Seq<char>>, present: Seq<bool>, i: int)
    requires
        0 <= i < recorded.len(),
        i < present.len(),
        present[i],
    ensures
        spec_select_present(recorded, present).contains(recorded[i]),
    decreases recorded.len(),
{
    let front = recorded.drop_last();
    let whole = spec_select_present(recorded, present);
    let chosen = spec_select_present(front, present);
    if i < recorded.len() - 1 {
        assert(front[i] == recorded[i]);
        lemma_present_restaged(front, present, i);
        let at = choose|at: int| 0 <= at < chosen.len() && chosen[at] == recorded[i];
        assert(whole[at] == recorded[i]);
    } else {
        assert(whole[chosen.len() as int] == recorded[i]);
    }
}

/// A path whose file is gone from disk is not staged again.
pub proof fn lemma_missing_not_restaged(recorded: Seq<Seq<char>>, present: Seq<bool>, x: Seq<char>)
    requires
        forall|i: int|
            0 <= i < recorded.len() && i < present.len() && #[trigger] recorded[i] == x
                ==> !present[i],
    ensures
        !spec_select_present(recorded, present).contains(x),
    decreases recorded.len(),
{
    if recorded.len() > 0 {
        let front = recorded.drop_last();
        let whole = spec_select_present(recorded, present);
        let chosen = spec_select_present(front, present);
        assert forall|i: int|
            0 <= i < front.len() && i < present.len() && #[trigger] front[i] == x implies !present[i] by {
            assert(recorded[i] == front[i]);
        }
        lemma_missing_not_restaged(front, present, x);
        if whole.contains(x) {
            let at = choose|at: int| 0 <= at < whole.len() && whole[at] == x;
            if at < chosen.len() {
                assert(chosen[at] == x);
            } else {
                assert(recorded[recorded.len() - 1] == x);
            }
        }
    }
}

/// A law of the model of staging: after the paths whose files are on disk
/// were staged again, the modelled index records exactly the paths it
/// recorded before, those whose files are gone among them. Nothing here
/// speaks of what the repository library does to its index.
pub proof fn lemma_sync_preserves_entries(recorded: Seq<Seq<char>>, present: Seq<bool>)
    ensures
        spec_index_after_staging(recorded.to_set(), spec_select_present(recorded, present))
            == recorded.to_set(),
{
    let restaged = spec_select_present(recorded, present);
    assert forall|x: Seq<char>| restaged.to_set().contains(x) implies recorded.to_set().contains(
        x,
    ) by {
        lemma_restaged_are_recorded(recorded, present, x);
    }
    assert(spec_index_after_staging(recorded.to_set(), restaged) =~= recorded.to_set());
}

/// The number that a decimal digit stands for.
pub open spec fn spec_digit_value(c: char) -> int {
    if c == '0' {
        0
    } else if c == '1' {
        1
    } else if c == '2' {
        2
    } else if c == '3' {
        3
    } else if c == '4' {
        4
    } else if c == '5' {
        5
    } else if c == '6' {
        6
    } else if c == '7' {
        7
    } else if c == '8' {
        8
    } else {
        9
    }
}

/// The number that a decimal numeral stands for.
pub open spec fn spec_numeral_value(s: Seq<char>) -> int
    decreases s.len(),
{
    if s.len() == 0 {
        0
    } else {
        spec_numeral_value(s.drop_last()) * 10 + spec_digit_value(s.last())
    }
}

/// Whether the first space of `message` is at position `i`.
pub open spec fn spec_is_first_space(message: Seq<char>, i: int) -> bool {
    0 <= i < message.len() && message[i] == ' ' && forall|j: int| 0 <= j < i ==> message[j] != ' '
}

/// The timestamp that a commit message carries: the number written
/// before its first space.
pub open spec fn spec_embedded_timestamp(message: Seq<char>) -> int {
    spec_numeral_value(message.take(choose|i: int| spec_is_first_space(message, i)))
}

/// A decimal numeral holds no space and stands for its number.
pub proof fn lemma_decimal_reads_back(n: nat)
    ensures
        spec_numeral_value(spec_decimal_nat(n)) == n,
        forall|i: int| 0 <= i < spec_decimal_nat(n).len() ==> spec_decimal_nat(n)[i] != ' ',
    decreases n,
{
    if n < 10 {
        let numeral = spec_decimal_nat(n);
        assert(numeral.drop_last() =~= Seq::<char>::empty());
        assert(spec_numeral_value(numeral.drop_last()) == 0);
        assert(numeral.last() == spec_digit(n as int));
        assert(spec_digit_value(spec_digit(n as int)) == n);
    } else {
        lemma_decimal_reads_back(n / 10);
        let front = spec_decimal_nat(n / 10);
        let digit = spec_digit((n % 10) as int);
        assert(front.push(digit).drop_last() =~= front);
        assert(front.push(digit).last() == digit);
        assert(spec_digit_value(digit) == n % 10);
        assert(spec_numeral_value(front.push(digit)) == spec_numeral_value(front) * 10
            + spec_digit_value(digit));
    }
}

/// The timestamp of a commit can be read back from its message.
pub proof fn lemma_embedded_timestamp(timestamp_millis: int, description: Seq<char>)
    requires
        timestamp_millis >= 0,
    ensures
        spec_embedded_timestamp(spec_commit_message(timestamp_millis, description))
            == timestamp_millis,
{
    let numeral = spec_decimal_nat(timestamp_millis as nat);
    let message = spec_commit_message(timestamp_millis, description);
    let end = numeral.len() as int;
    lemma_decimal_reads_back(timestamp_millis as nat);
    assert(message[end] == ' ');
    assert forall|j: int| 0 <= j < end implies message[j] != ' ' by {
        assert(message[j] == numeral[j]);
    }
    assert(spec_is_first_space(message, end));
    let k = choose|k: int| spec_is_first_space(message, k);
    if k < end {
        assert(message[k] != ' ');
    } else if k > end {
        assert(message[end] == ' ');
    }
    assert(message.take(end) =~= numeral);
}

/// Commit ordering: of two commits made at different readings of the
/// clock, the later one carries the greater timestamp in its message,
/// whatever the operations were.
pub proof fn lemma_commit_order(earlier: int, d1: Seq<char>, later: int, d2: Seq<char>)
    requires
        0 <= earlier < later,
    ensures
        spec_embedded_timestamp(spec_commit_message(earlier, d1)) < spec_embedded_timestamp(
            spec_commit_message(later, d2),
        ),
{
    lemma_embedded_timestamp(earlier, d1);
    lemma_embedded_timestamp(later, d2);
}

} // verus!
