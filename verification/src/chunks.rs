//! Cutting a video into chunks at chosen start times.

use vstd::prelude::*;

verus! {

/// The chunks that start at `starts` (in order): each runs to the next
/// start, and the last runs to `end`.
pub open spec fn bounds_of<T>(starts: Seq<T>, end: T) -> Seq<(T, T)> {
    Seq::new(
        starts.len(),
        |i: int|
            (
                starts[i],
                if i + 1 < starts.len() {
                    starts[i + 1]
                } else {
                    end
                },
            ),
    )
}

/// The chunks that start at `starts`, in order: each runs to the next
/// start, and the last one runs to `end`.
pub fn chunk_bounds<T: Copy>(starts: &Vec<T>, end: T) -> (chunks: Vec<(T, T)>)
    requires
        starts.len() > 0,
    ensures
        chunks@ == bounds_of(starts@, end),
{
    let mut chunks: Vec<(T, T)> = Vec::new();
    let last = starts.len() - 1;
    for i in 0..last
        invariant
            last == starts.len() - 1,
            chunks@ == bounds_of(starts@, end).take(i as int),
    {
        chunks.push((starts[i], starts[i + 1]));
        assert(chunks@ =~= bounds_of(starts@, end).take(i + 1));
    }
    chunks.push((starts[last], end));
    assert(chunks@ =~= bounds_of(starts@, end));
    chunks
}

/// Consecutive chunks meet: each chunk ends where the next one starts, the
/// first starts at the first start and the last ends at `end`.
pub proof fn law_chunks_are_contiguous<T>(starts: Seq<T>, end: T)
    requires
        starts.len() > 0,
    ensures
        bounds_of(starts, end).len() == starts.len(),
        bounds_of(starts, end)[0].0 == starts[0],
        bounds_of(starts, end).last().1 == end,
        forall|i: int|
            0 <= i < starts.len() - 1 ==> #[trigger] bounds_of(starts, end)[i].1 == bounds_of(
                starts,
                end,
            )[i + 1].0,
{
}

} // verus!
