//! What joining and taking apart do to each other: appending a component
//! to a path appends it to the path's components, and a path rewritten
//! relative to the home directory, joined to the home directory again,
//! is the path it was.

use vstd::prelude::*;
use crate::paths::{lemma_components_shape, lemma_join_begins, lemma_segment, spec_components, spec_components_upto, spec_dot, spec_is_absolute, spec_is_component_end, spec_is_cut, spec_join, spec_relative_to, spec_resolve, spec_segment_start};

verus! {

/// Whether `part` can stand as a component behind others: it is not
/// empty, holds no separator and is not a `.`.
pub open spec fn spec_is_plain_component(part: Seq<char>) -> bool {
    &&& part.len() > 0
    &&& forall|j: int| 0 <= j < part.len() ==> part[j] != '/'
    &&& part != spec_dot()
}

/// Up to the end of a path, a longer path that continues it behind a
/// separator has the same components.
pub proof fn lemma_components_agree(s: Seq<char>, t: Seq<char>, k: int)
    requires
        0 <= k <= s.len() <= t.len(),
        forall|j: int| 0 <= j < s.len() ==> t[j] == s[j],
        s.len() == 0 || s.last() == '/' || s.len() == t.len() || t[s.len() as int] == '/',
    ensures
        spec_segment_start(t, k) == spec_segment_start(s, k),
        spec_components_upto(t, k) == spec_components_upto(s, k),
    decreases k,
{
    if k > 0 {
        lemma_components_agree(s, t, k - 1);
        assert(spec_is_cut(t, k) == spec_is_cut(s, k));
        let start = spec_segment_start(s, k);
        if spec_is_cut(s, k) {
            lemma_segment(s, k);
            assert(t.subrange(start, k) =~= s.subrange(start, k));
        }
    }
}

/// Where no segment ends, no component is added.
pub proof fn lemma_components_flat(t: Seq<char>, lo: int, hi: int)
    requires
        0 <= lo <= hi <= t.len(),
        forall|j: int| lo < j <= hi ==> !spec_is_cut(t, j),
    ensures
        spec_components_upto(t, hi) == spec_components_upto(t, lo),
    decreases hi - lo,
{
    if hi > lo {
        lemma_components_flat(t, lo, hi - 1);
    }
}

/// Appending a component to a path appends it to the path's components.
pub proof fn lemma_append_component(s: Seq<char>, part: Seq<char>)
    requires
        spec_is_plain_component(part),
    ensures
        spec_components(spec_resolve(s, part)) == spec_components(s).push(part),
        spec_resolve(s, part).len() > 0,
        spec_resolve(s, part).last() == part.last(),
        s.len() > 0 ==> spec_is_absolute(spec_resolve(s, part)) == spec_is_absolute(s),
{
    let t = spec_resolve(s, part);
    let n = t.len() as int;
    let off = n - part.len();
    assert(!spec_is_absolute(part));
    assert forall|j: int| off <= j < n implies t[j] == part[j - off] by {}
    assert forall|j: int| 0 <= j < s.len() implies t[j] == s[j] by {}
    assert(off == 0 || t[off - 1] == '/');
    lemma_components_agree(s, t, s.len() as int);
    assert forall|j: int| s.len() < j <= n - 1 implies !spec_is_cut(t, j) by {
        if j > off {
            assert(t[j] == part[j - off]);
        }
    }
    lemma_components_flat(t, s.len() as int, n - 1);
    lemma_segment(t, n);
    let start = spec_segment_start(t, n);
    if start < off {
        assert(t[off - 1] == '/');
    } else if start > off {
        assert(t[start - 1] == part[start - 1 - off]);
    }
    assert(t.subrange(off, n) =~= part);
    assert(spec_is_cut(t, n));
    assert(spec_is_component_end(t, n));
}

/// A joined path ends as its last component does.
pub proof fn lemma_join_ends(parts: Seq<Seq<char>>)
    requires
        parts.len() > 0,
        parts.last().len() > 0,
    ensures
        spec_join(parts).len() > 0,
        spec_join(parts).last() == parts.last().last(),
{
}

/// Joining components and appending the joined path to a directory gives
/// a path whose components are those of the directory and then the
/// joined ones.
pub proof fn lemma_resolve_join(home: Seq<char>, parts: Seq<Seq<char>>)
    requires
        home.len() > 0,
        parts.len() > 0,
        forall|i: int| 0 <= i < parts.len() ==> spec_is_plain_component(#[trigger] parts[i]),
    ensures
        spec_components(spec_resolve(home, spec_join(parts))) == spec_components(home) + parts,
        spec_is_absolute(spec_resolve(home, spec_join(parts))) == spec_is_absolute(home),
        spec_resolve(home, spec_join(parts)).len() > 0,
        spec_resolve(home, spec_join(parts)).last() != '/',
    decreases parts.len(),
{
    let last = parts.last();
    assert(spec_is_plain_component(last));
    if parts.len() == 1 {
        lemma_append_component(home, parts[0]);
        assert(spec_components(home).push(parts[0]) =~= spec_components(home) + parts);
    } else {
        let front = parts.drop_last();
        assert forall|i: int| 0 <= i < front.len() implies spec_is_plain_component(
            #[trigger] front[i],
        ) by {
            assert(front[i] == parts[i]);
        }
        lemma_resolve_join(home, front);
        let reached = spec_resolve(home, spec_join(front));
        assert(parts[0].len() > 0);
        assert(front[0] == parts[0]);
        lemma_join_begins(front);
        lemma_join_begins(parts);
        assert(spec_join(parts) == spec_join(front) + seq!['/'] + last);
        assert(spec_resolve(home, spec_join(parts)) =~= spec_resolve(reached, last));
        lemma_append_component(reached, last);
        assert((spec_components(home) + front).push(last) =~= spec_components(home) + parts);
    }
}

/// A path that starts at the root has no `.` among its components.
pub proof fn lemma_rooted_components(path: Seq<char>, k: int)
    requires
        spec_is_absolute(path),
        0 <= k <= path.len(),
    ensures
        forall|i: int|
            0 <= i < spec_components_upto(path, k).len() ==> spec_is_plain_component(
                #[trigger] spec_components_upto(path, k)[i],
            ),
    decreases k,
{
    if k > 0 {
        lemma_rooted_components(path, k - 1);
        lemma_components_shape(path, k);
        let before = spec_components_upto(path, k - 1);
        let all = spec_components_upto(path, k);
        assert forall|i: int| 0 <= i < all.len() implies spec_is_plain_component(
            #[trigger] all[i],
        ) by {
            if i < before.len() {
                assert(all[i] == before[i]);
            } else {
                lemma_segment(path, k);
                if spec_segment_start(path, k) == 0 {
                    assert(path[0] != '/');
                }
            }
        }
    }
}

/// Joining back: a path from the root, rewritten relative to `home` and
/// joined to `home` again, has the components it had, and starts at the
/// root as it did.
pub proof fn lemma_join_back(path: Seq<char>, home: Seq<char>)
    requires
        spec_is_absolute(path),
        spec_relative_to(path, home) is Some,
    ensures
        spec_components(spec_resolve(home, spec_relative_to(path, home)->0)) == spec_components(
            path,
        ),
        spec_is_absolute(spec_resolve(home, spec_relative_to(path, home)->0)),
{
    let whole = spec_components(path);
    let above = spec_components(home);
    let rest = whole.skip(above.len() as int);
    lemma_rooted_components(path, path.len() as int);
    assert forall|i: int| 0 <= i < rest.len() implies spec_is_plain_component(
        #[trigger] rest[i],
    ) by {
        assert(rest[i] == whole[i + above.len()]);
    }
    lemma_resolve_join(home, rest);
    assert(above + rest =~= whole);
}

} // verus!
