//! Grapheme cluster boundaries, found by the `unicode-segmentation` crate,
//! and the cursor steps that they allow.

use crate::utf::{is_boundary, utf8_len};
use unicode_segmentation::UnicodeSegmentation;
use vstd::prelude::*;

verus! {

/// The byte offsets at which the extended grapheme clusters of a text begin,
/// in order.
pub uninterp spec fn grapheme_starts(text: Seq<char>) -> Seq<usize>;

/// Calls `UnicodeSegmentation::grapheme_indices(text, true)` and keeps the
/// offsets. The offsets are those that the crate computes from the text
/// alone; each one is the start of a non-empty `&str` slice of the text, so
/// it is a character boundary before the end of the text.
#[verifier::external_body]
pub(crate) fn grapheme_offsets(text: &str) -> (r: Vec<usize>)
    ensures
        r@ == grapheme_starts(text@),
        forall|k: int| 0 <= k < r@.len() ==> is_boundary(text@, #[trigger] r@[k] as int),
        forall|k: int| 0 <= k < r@.len() ==> (#[trigger] r@[k]) < utf8_len(text@),
{
    text.grapheme_indices(true).map(|(i, _)| i).collect()
}

/// The last offset of `starts` below `offset`, or 0 when none is.
pub open spec fn last_below(starts: Seq<usize>, offset: usize) -> usize
    decreases starts.len(),
{
    if starts.len() == 0 {
        0
    } else if starts.last() < offset {
        starts.last()
    } else {
        last_below(starts.drop_last(), offset)
    }
}

/// The first offset of `starts` above `offset`, or `end` when none is.
pub open spec fn first_above(starts: Seq<usize>, offset: usize, end: usize) -> usize
    decreases starts.len(),
{
    if starts.len() == 0 {
        end
    } else if starts[0] > offset {
        starts[0]
    } else {
        first_above(starts.drop_first(), offset, end)
    }
}

/// The cluster start before `offset`: the last of `starts` below it, or 0.
pub fn previous_boundary_in(starts: &Vec<usize>, offset: usize) -> (r: usize)
    ensures
        r == last_below(starts@, offset),
{
    let mut k = starts.len();
    assert(starts@.take(k as int) =~= starts@);
    while k > 0
        invariant
            k <= starts@.len(),
            last_below(starts@, offset) == last_below(starts@.take(k as int), offset),
        decreases k,
    {
        let ghost t = starts@.take(k as int);
        assert(t.drop_last() =~= starts@.take(k - 1));
        if starts[k - 1] < offset {
            return starts[k - 1];
        }
        k -= 1;
    }
    0
}

/// The cluster start after `offset`: the first of `starts` above it, or `end`.
pub fn next_boundary_in(starts: &Vec<usize>, offset: usize, end: usize) -> (r: usize)
    ensures
        r == first_above(starts@, offset, end),
{
    let mut k: usize = 0;
    assert(starts@.skip(0) =~= starts@);
    while k < starts.len()
        invariant
            k <= starts@.len(),
            first_above(starts@, offset, end) == first_above(starts@.skip(k as int), offset, end),
        decreases starts.len() - k,
    {
        let ghost t = starts@.skip(k as int);
        assert(t.drop_first() =~= starts@.skip(k + 1));
        if starts[k] > offset {
            return starts[k];
        }
        k += 1;
    }
    end
}

/// Every cluster start below an offset that `last_below` can return is a
/// boundary, as is 0.
pub proof fn lemma_last_below_boundary(text: Seq<char>, starts: Seq<usize>, offset: usize)
    requires
        forall|k: int| 0 <= k < starts.len() ==> is_boundary(text, #[trigger] starts[k] as int),
    ensures
        is_boundary(text, last_below(starts, offset) as int),
        last_below(starts, offset) == 0 || last_below(starts, offset) < offset,
    decreases starts.len(),
{
    if starts.len() == 0 {
        assert(text.take(0) =~= Seq::<char>::empty());
        assert(utf8_len(text.take(0)) == 0);
    } else if starts.last() < offset {
        assert(is_boundary(text, starts[starts.len() - 1] as int));
    } else {
        assert forall|k: int| 0 <= k < starts.drop_last().len() implies is_boundary(
            text,
            #[trigger] starts.drop_last()[k] as int,
        ) by {
            assert(starts.drop_last()[k] == starts[k]);
        }
        lemma_last_below_boundary(text, starts.drop_last(), offset);
    }
}

/// What `first_above` returns is a cluster start above the offset, or `end`.
pub proof fn lemma_first_above_boundary(text: Seq<char>, starts: Seq<usize>, offset: usize, end: usize)
    requires
        forall|k: int| 0 <= k < starts.len() ==> is_boundary(text, #[trigger] starts[k] as int),
        forall|k: int| 0 <= k < starts.len() ==> (#[trigger] starts[k]) < end,
    ensures
        first_above(starts, offset, end) == end || (is_boundary(text, first_above(starts, offset, end) as int)
            && offset < first_above(starts, offset, end) < end),
    decreases starts.len(),
{
    if starts.len() > 0 && !(starts[0] > offset) {
        assert forall|k: int| 0 <= k < starts.drop_first().len() implies is_boundary(
            text,
            #[trigger] starts.drop_first()[k] as int,
        ) by {
            assert(starts.drop_first()[k] == starts[k + 1]);
        }
        assert forall|k: int| 0 <= k < starts.drop_first().len() implies (#[trigger] starts.drop_first()[k]) < end by {
            assert(starts.drop_first()[k] == starts[k + 1]);
        }
        lemma_first_above_boundary(text, starts.drop_first(), offset, end);
    }
}

} // verus!
