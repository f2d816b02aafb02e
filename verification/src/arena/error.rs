use vstd::prelude::*;
use crate::decimal::{decimal_chars, push_decimal_chars};

verus! {

/// Why an arena operation failed.
#[derive(Debug, Clone, Copy, PartialEq, Eq, Structural)]
pub enum TempArenaError {
    /// Not enough space in the arena for the requested allocation.
    OutOfSpace { requested: usize, available: usize },
    /// An offset or length does not fit the arena's index type.
    IndexConversion,
    /// Invalid bounds or range.
    InvalidBounds,
    /// The buffer is at full capacity.
    BufferFull,
}

impl TempArenaError {
    /// The message of the error.
    pub open spec fn text(self) -> Seq<char> {
        match self {
            TempArenaError::OutOfSpace { requested, available } => "Arena out of space: requested "@
                + decimal_chars(requested as nat) + " bytes, "@ + decimal_chars(available as nat)
                + " available"@,
            TempArenaError::IndexConversion => "Index type conversion failed"@,
            TempArenaError::InvalidBounds => "Invalid bounds or range"@,
            TempArenaError::BufferFull => "Buffer is at full capacity"@,
        }
    }

    /// Writes the message of the error.
    pub fn to_string(&self) -> (r: String)
        ensures
            r@ == self.text(),
    {
        match self {
            TempArenaError::OutOfSpace { requested, available } => {
                let mut out = String::new();
                out.append("Arena out of space: requested ");
                push_decimal_chars(&mut out, *requested as u64);
                out.append(" bytes, ");
                push_decimal_chars(&mut out, *available as u64);
                out.append(" available");
                assert(out@ =~= self.text());
                out
            },
            TempArenaError::IndexConversion => "Index type conversion failed".to_owned(),
            TempArenaError::InvalidBounds => "Invalid bounds or range".to_owned(),
            TempArenaError::BufferFull => "Buffer is at full capacity".to_owned(),
        }
    }
}

/// Result of an arena operation that can fail.
pub type TempArenaResult<T> = Result<T, TempArenaError>;

} // verus!
