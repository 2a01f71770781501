//! Byte copies between buffers.
use vstd::prelude::*;

use crate::editor::overwrite;

verus! {

/// Copies all of `src` to the start of `dst`.
pub fn copy(src: &[u8], dst: &mut Vec<u8>)
    requires
        src@.len() <= old(dst)@.len(),
    ensures
        final(dst)@ == overwrite(old(dst)@, 0, src@),
{
    let ghost orig = dst@;
    let mut i: usize = 0;
    while i < src.len()
        invariant
            i <= src@.len(),
            src@.len() <= orig.len(),
            dst@.len() == orig.len(),
            forall|j: int| 0 <= j < dst@.len() ==> #[trigger] dst@[j] == if j < i {
                src@[j]
            } else {
                orig[j]
            },
        decreases src@.len() - i,
    {
        dst.set(i, src[i]);
        i = i + 1;
    }
    assert(dst@ =~= overwrite(orig, 0, src@));
}

} // verus!
