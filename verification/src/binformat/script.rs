//! Interpreter scripts (`#!`), not supported yet.
use vstd::prelude::*;
use crate::binformat::FileHeader;

verus! {

/// No file is recognised as a script yet.
pub fn detect(_header: &FileHeader) -> (r: bool)
    ensures
        !r,
{
    false
}

} // verus!
