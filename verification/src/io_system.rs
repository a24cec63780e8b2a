//! Input and output of the Brainfuck state machine.

use vstd::prelude::*;

verus! {

/// The error type of `std::io`, which an [`IOSystem`] reports and the
/// interpreter hands on as it is. Nothing is assumed of its contents.
#[verifier::external_type_specification]
#[verifier::external_body]
pub struct ExIoError(std::io::Error);

/// Result of an input or output operation.
pub type IOResult<T> = Result<T, std::io::Error>;

/// Represents Input/Output operations for the Brainfuck state machine.
///
/// To abstract any IO operation, this trait is used. Nothing is promised of
/// an implementation: either call may fail, and `read` may return any value.
pub trait IOSystem {
    /// Reads one element from the stream.
    fn read(&mut self) -> IOResult<i64>;

    /// Writes one element to the stream.
    fn write(&mut self, value: i64) -> IOResult<()>;
}

/// The byte that a byte stream carries for a cell: the low eight bits of the
/// cell.
pub open spec fn spec_cell_to_byte(value: i64) -> u8 {
    (value as int % 256) as u8
}

/// Returns the byte that a byte stream carries for a cell: its low eight
/// bits.
pub fn cell_to_byte(value: i64) -> (byte: u8)
    ensures
        byte == spec_cell_to_byte(value),
{
    let low = value & 0xff;
    assert(0 <= low < 256 && low == value as int % 256) by (bit_vector)
        requires
            low == value & 0xff,
    ;
    low as u8
}

/// Returns the cell that holds a byte read from a byte stream: the same
/// number.
pub fn byte_to_cell(byte: u8) -> (value: i64)
    ensures
        value == byte,
{
    byte as i64
}

} // verus!
