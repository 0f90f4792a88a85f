use vstd::prelude::*;

verus! {

/// The length of a mix of tracks of the given lengths: shorter tracks are
/// padded with silence up to the longest, so the mix is as long as the
/// longest track, and empty when there are no tracks.
pub fn mixed_length(track_lens: &[usize]) -> (len: usize)
    ensures
        forall|i: int| 0 <= i < track_lens@.len() ==> track_lens@[i] <= len,
        track_lens@.len() == 0 ==> len == 0,
        track_lens@.len() > 0 ==> exists|i: int| 0 <= i < track_lens@.len() && track_lens@[i] == len,
{
    let mut max_len: usize = 0;
    let mut i: usize = 0;
    while i < track_lens.len()
        invariant
            i <= track_lens@.len(),
            forall|j: int| 0 <= j < i ==> track_lens@[j] <= max_len,
            i == 0 ==> max_len == 0,
            i > 0 ==> exists|j: int| 0 <= j < i && track_lens@[j] == max_len,
        decreases track_lens@.len() - i,
    {
        if i == 0 || track_lens[i] > max_len {
            max_len = track_lens[i];
        }
        i = i + 1;
    }
    max_len
}

} // verus!
