//! Executable formats: recognising a file from its first bytes and preparing its load.
use vstd::prelude::*;

pub mod elf64;
pub mod script;

verus! {

/// The first bytes of an executable file; shorter files are padded with zeros.
#[derive(Debug, Clone, Copy)]
pub struct FileHeader {
    pub bytes: [u8; 256],
}

impl FileHeader {
    /// A header from the bytes read at offset zero: copied, and zero-filled past the end.
    pub fn from_prefix(data: &[u8]) -> (r: Self)
        ensures
            forall|i: int|
                0 <= i < 256 ==> r.bytes@[i] == (if i < data@.len() {
                    data@[i]
                } else {
                    0u8
                }),
    {
        let mut bytes = [0u8; 256];
        let mut i: usize = 0;
        while i < 256 && i < data.len()
            invariant
                i <= 256,
                forall|k: int|
                    0 <= k < 256 ==> bytes@[k] == (if k < i && k < data@.len() {
                        data@[k]
                    } else {
                        0u8
                    }),
            decreases 256 - i,
        {
            bytes[i] = data[i];
            i = i + 1;
        }
        FileHeader { bytes }
    }
}

} // verus!
