//! Layout of a tar archive: every header and every file's data start on a block
//! boundary.
use vstd::prelude::*;

verus! {

/// The size of a tar block.
pub const BLOCK_LEN: usize = 512;

/// `size` rounded up to a whole number of blocks.
pub open spec fn padded_len(size: int) -> int {
    if size % (BLOCK_LEN as int) == 0 {
        size
    } else {
        size + (BLOCK_LEN - size % (BLOCK_LEN as int))
    }
}

/// Round `size` up to the next block boundary, where the next archive member starts.
pub fn pad_to_block_multiple(size: usize) -> (r: usize)
    requires
        padded_len(size as int) <= usize::MAX,
    ensures
        r == padded_len(size as int),
        r % BLOCK_LEN == 0,
        size <= r < size + BLOCK_LEN,
{
    let rem = size % BLOCK_LEN;
    if rem == 0 {
        size
    } else {
        size + (BLOCK_LEN - rem)
    }
}

} // verus!
