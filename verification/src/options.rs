//! The configurable width of one tape cell.

use vstd::prelude::*;

verus! {

/// The width of one tape cell: an 8, 16, 32 or 64-bit unsigned integer.
#[derive(PartialEq, Eq, Structural, Debug, Clone, Copy)]
pub enum CellSize {
    I8,
    I16,
    I32,
    I64,
}

/// The number of bytes a cell of the given size occupies on the tape.
pub open spec fn spec_bytes(s: CellSize) -> u64 {
    match s {
        CellSize::I8 => 1,
        CellSize::I16 => 2,
        CellSize::I32 => 4,
        CellSize::I64 => 8,
    }
}

impl CellSize {
    /// The size of one cell in bytes.
    pub fn bytes(&self) -> (r: usize)
        ensures
            r == spec_bytes(*self),
    {
        match self {
            CellSize::I8 => 1,
            CellSize::I16 => 2,
            CellSize::I32 => 4,
            CellSize::I64 => 8,
        }
    }
}

} // verus!
