//! The auxiliary vector handed to a new process.
use vstd::prelude::*;

verus! {

/// One entry of the auxiliary vector: a type and its value.
#[derive(Clone, Copy, Debug)]
pub struct AuxiliaryVector {
    pub aux_type: usize,
    pub value: usize,
}

pub const AT_NULL: usize = 0;

pub const AT_IGNORE: usize = 1;

} // verus!
