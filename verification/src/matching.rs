//! Literal, non-overlapping substring matching over bytes.

use vstd::prelude::*;

verus! {

/// `needle` stands in `hay` at offset `at`.
pub open spec fn occurs_at(hay: Seq<u8>, needle: Seq<u8>, at: int) -> bool {
    &&& 0 <= at
    &&& at + needle.len() <= hay.len()
    &&& hay.subrange(at, at + needle.len()) == needle
}

/// The offsets found by scanning `hay` from `from` to the right: an occurrence
/// at the scan position is taken and the scan resumes behind it, otherwise
/// the scan moves on by one byte. An empty needle is found nowhere.
pub open spec fn matches_from(hay: Seq<u8>, needle: Seq<u8>, from: int) -> Seq<int>
    decreases hay.len() - from,
{
    if needle.len() == 0 || from < 0 || from + needle.len() > hay.len() {
        Seq::empty()
    } else if occurs_at(hay, needle, from) {
        seq![from] + matches_from(hay, needle, from + needle.len())
    } else {
        matches_from(hay, needle, from + 1)
    }
}

/// All non-overlapping occurrences of `needle` in `hay`, leftmost first.
pub open spec fn all_matches(hay: Seq<u8>, needle: Seq<u8>) -> Seq<int> {
    matches_from(hay, needle, 0)
}

/// Some offset of `ms` starts an occurrence of width `width` that holds
/// position `p`.
pub open spec fn covered(ms: Seq<int>, width: nat, p: int) -> bool {
    exists|i: int| 0 <= i < ms.len() && #[trigger] ms[i] <= p < ms[i] + width
}

/// What it means for `ms` to list the non-overlapping occurrences of `needle`
/// in `hay` at or behind `from`, leftmost first: every entry is an
/// occurrence, later entries start behind the end of earlier ones, and no
/// occurrence starts outside every listed one. For an empty needle the list
/// is empty.
pub open spec fn is_match_list_from(hay: Seq<u8>, needle: Seq<u8>, from: int, ms: Seq<int>) -> bool {
    if needle.len() == 0 {
        ms.len() == 0
    } else {
        &&& forall|i: int|
            0 <= i < ms.len() ==> from <= #[trigger] ms[i] && occurs_at(hay, needle, ms[i])
        &&& forall|i: int, j: int|
            0 <= i < j < ms.len() ==> #[trigger] ms[i] + needle.len() <= #[trigger] ms[j]
        &&& forall|p: int|
            from <= p && occurs_at(hay, needle, p) ==> #[trigger] covered(ms, needle.len(), p)
    }
}

/// Searching for the empty needle finds nothing, whatever the haystack.
pub proof fn lemma_empty_needle_matches_nothing(hay: Seq<u8>)
    ensures
        all_matches(hay, Seq::<u8>::empty()) == Seq::<int>::empty(),
{
}

/// A needle longer than the rest of the haystack is found nowhere in it.
pub proof fn lemma_long_needle_matches_nothing(hay: Seq<u8>, needle: Seq<u8>, from: int)
    requires
        from + needle.len() > hay.len(),
    ensures
        matches_from(hay, needle, from) == Seq::<int>::empty(),
{
}

/// The scan yields a list of non-overlapping occurrences that leaves no
/// occurrence uncovered.
pub proof fn lemma_scan_is_match_list(hay: Seq<u8>, needle: Seq<u8>, from: int)
    requires
        0 <= from,
    ensures
        is_match_list_from(hay, needle, from, matches_from(hay, needle, from)),
    decreases hay.len() - from,
{
    let ms = matches_from(hay, needle, from);
    let width = needle.len();
    if width == 0 || from + width > hay.len() {
    } else if occurs_at(hay, needle, from) {
        let rest = matches_from(hay, needle, from + width);
        lemma_scan_is_match_list(hay, needle, from + width);
        assert(ms == seq![from] + rest);
        assert(ms[0] == from);
        assert forall|i: int| 0 < i < ms.len() implies ms[i] == rest[i - 1] by {}
        assert forall|i: int| 0 <= i < ms.len() implies from <= #[trigger] ms[i] && occurs_at(
            hay,
            needle,
            ms[i],
        ) by {
            if i > 0 {
                assert(ms[i] == rest[i - 1]);
            }
        }
        assert forall|i: int, j: int| 0 <= i < j < ms.len() implies #[trigger] ms[i] + width
            <= #[trigger] ms[j] by {
            assert(ms[j] == rest[j - 1]);
            if i > 0 {
                assert(ms[i] == rest[i - 1]);
            }
        }
        assert forall|p: int| from <= p && occurs_at(hay, needle, p) implies #[trigger] covered(
            ms,
            width,
            p,
        ) by {
            if p < from + width {
                assert(ms[0] <= p < ms[0] + width);
            } else {
                assert(covered(rest, width, p));
                let i = choose|i: int| 0 <= i < rest.len() && #[trigger] rest[i] <= p < rest[i] + width;
                assert(ms[i + 1] == rest[i]);
                assert(ms[i + 1] <= p < ms[i + 1] + width);
            }
        }
    } else {
        lemma_scan_is_match_list(hay, needle, from + 1);
    }
}

/// A match list whose scan position holds an occurrence begins with that
/// position, and what follows is a match list behind the occurrence.
proof fn lemma_match_list_head(hay: Seq<u8>, needle: Seq<u8>, from: int, ms: Seq<int>)
    requires
        needle.len() > 0,
        is_match_list_from(hay, needle, from, ms),
        occurs_at(hay, needle, from),
    ensures
        ms.len() > 0,
        ms[0] == from,
        is_match_list_from(hay, needle, from + needle.len(), ms.drop_first()),
{
    let width = needle.len();
    assert(covered(ms, width, from));
    let i = choose|i: int| 0 <= i < ms.len() && #[trigger] ms[i] <= from < ms[i] + width;
    assert(from <= ms[0]);
    if i > 0 {
        assert(ms[0] + width <= ms[i]);
    }
    assert(ms[0] == from);
    let rest = ms.drop_first();
    assert forall|k: int| 0 <= k < rest.len() implies from + width <= #[trigger] rest[k]
        && occurs_at(hay, needle, rest[k]) by {
        assert(rest[k] == ms[k + 1]);
        assert(ms[0] + width <= ms[k + 1]);
    }
    assert forall|k: int, j: int| 0 <= k < j < rest.len() implies #[trigger] rest[k] + width
        <= #[trigger] rest[j] by {
        assert(rest[k] == ms[k + 1]);
        assert(rest[j] == ms[j + 1]);
    }
    assert forall|p: int| from + width <= p && occurs_at(hay, needle, p) implies #[trigger] covered(
        rest,
        width,
        p,
    ) by {
        assert(covered(ms, width, p));
        let j = choose|j: int| 0 <= j < ms.len() && #[trigger] ms[j] <= p < ms[j] + width;
        assert(j > 0);
        assert(rest[j - 1] == ms[j]);
        assert(rest[j - 1] <= p < rest[j - 1] + width);
    }
}

/// A match list whose scan position holds no occurrence is a match list
/// from the next position.
proof fn lemma_match_list_skip(hay: Seq<u8>, needle: Seq<u8>, from: int, ms: Seq<int>)
    requires
        needle.len() > 0,
        is_match_list_from(hay, needle, from, ms),
        !occurs_at(hay, needle, from),
    ensures
        is_match_list_from(hay, needle, from + 1, ms),
{
    assert forall|k: int| 0 <= k < ms.len() implies from + 1 <= #[trigger] ms[k] by {
        assert(occurs_at(hay, needle, ms[k]));
    }
}

/// The list of non-overlapping, leftmost occurrences is unique: whatever
/// meets `is_match_list_from` is what the scan yields.
pub proof fn lemma_match_list_unique(hay: Seq<u8>, needle: Seq<u8>, from: int, ms: Seq<int>)
    requires
        0 <= from,
        is_match_list_from(hay, needle, from, ms),
    ensures
        ms == matches_from(hay, needle, from),
    decreases hay.len() - from,
{
    let width = needle.len();
    if width == 0 {
        assert(ms =~= Seq::<int>::empty());
    } else if from + width > hay.len() {
        if ms.len() > 0 {
            assert(occurs_at(hay, needle, ms[0]));
        }
        assert(ms =~= Seq::<int>::empty());
    } else if occurs_at(hay, needle, from) {
        lemma_match_list_head(hay, needle, from, ms);
        lemma_match_list_unique(hay, needle, from + width, ms.drop_first());
        assert(ms =~= seq![from] + ms.drop_first());
    } else {
        lemma_match_list_skip(hay, needle, from, ms);
        lemma_match_list_unique(hay, needle, from + 1, ms);
    }
}

/// Whether `needle` stands in `hay` at byte offset `at`.
pub fn is_match_at(hay: &[u8], needle: &[u8], at: usize) -> (found: bool)
    ensures
        found == occurs_at(hay@, needle@, at as int),
{
    if needle.len() > hay.len() || at > hay.len() - needle.len() {
        return false;
    }
    let mut k: usize = 0;
    while k < needle.len()
        invariant
            k <= needle.len(),
            at + needle.len() <= hay.len(),
            forall|j: int| 0 <= j < k ==> hay@[at + j] == needle@[j],
        decreases needle.len() - k,
    {
        if hay[at + k] != needle[k] {
            assert(hay@.subrange(at as int, at + needle@.len())[k as int] != needle@[k as int]);
            return false;
        }
        k += 1;
    }
    assert(hay@.subrange(at as int, at + needle@.len()) =~= needle@);
    true
}

/// The offsets in `found`, as mathematical integers.
pub open spec fn offsets(found: Seq<usize>) -> Seq<int> {
    found.map_values(|at: usize| at as int)
}

/// Scans `hay` from left to right for the non-overlapping occurrences of
/// `needle` and returns their byte offsets in ascending order.
pub fn find_all(hay: &[u8], needle: &[u8]) -> (found: Vec<usize>)
    ensures
        offsets(found@) == all_matches(hay@, needle@),
{
    let mut found: Vec<usize> = Vec::new();
    let n: usize = hay.len();
    let m: usize = needle.len();
    if m == 0 || m > n {
        assert(offsets(found@) =~= all_matches(hay@, needle@));
        return found;
    }
    let last: usize = n - m;
    let mut at: usize = 0;
    while at <= last
        invariant
            n == hay@.len(),
            m == needle@.len(),
            0 < m <= n,
            last == n - m,
            at <= n,
            offsets(found@) + matches_from(hay@, needle@, at as int) == all_matches(
                hay@,
                needle@,
            ),
        decreases n - at,
    {
        let ghost before = found@;
        if is_match_at(hay, needle, at) {
            found.push(at);
            assert(offsets(found@) =~= offsets(before) + seq![at as int]);
            assert(offsets(found@) + matches_from(hay@, needle@, at + m) =~= offsets(before) + (
            seq![at as int] + matches_from(hay@, needle@, at + m)));
            at += m;
        } else {
            at += 1;
        }
    }
    assert(matches_from(hay@, needle@, at as int) =~= Seq::<int>::empty());
    assert(offsets(found@) =~= offsets(found@) + Seq::<int>::empty());
    found
}

} // verus!
