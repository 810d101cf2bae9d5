//! # Serial port output
//!
//! What goes out on the wire for each byte written to the serial port, and
//! how its line status is read.
use vstd::prelude::*;

verus! {

/// Bit of the line status register set when the transmitter can take a byte.
pub const LINE_STATUS_OUTPUT_EMPTY: u8 = 0x20;

/// The bytes sent for `byte`: backspace and delete erase the character
/// before the cursor (back, space, back), a line feed becomes carriage return
/// and line feed, and any other byte goes out as it is.
pub open spec fn wire_bytes(byte: u8) -> Seq<u8> {
    if byte == 0x08 || byte == 0x7f {
        seq![0x08u8, 0x20u8, 0x08u8]
    } else if byte == 0x0a {
        seq![0x0du8, 0x0au8]
    } else {
        seq![byte]
    }
}

/// A serial port, by the I/O port of its data register.
pub struct SerialPort(pub u16);

impl SerialPort {
    /// The bytes to send for `byte` (see [`wire_bytes`]).
    pub fn write(&self, byte: u8) -> (bytes: Vec<u8>)
        ensures
            bytes@ == wire_bytes(byte),
    {
        let mut bytes: Vec<u8> = Vec::new();
        if byte == 0x08 || byte == 0x7f {
            bytes.push(0x08);
            bytes.push(0x20);
            bytes.push(0x08);
        } else if byte == 0x0a {
            bytes.push(0x0d);
            bytes.push(0x0a);
        } else {
            bytes.push(byte);
        }
        assert(bytes@ =~= wire_bytes(byte));
        bytes
    }

    /// Whether the transmitter can take a byte, given the line status
    /// register.
    pub fn line_output_empty(&self, line_status: u8) -> (b: bool)
        ensures
            b == ((line_status / 0x20) % 2 == 1),
    {
        assert((line_status & 0x20u8 != 0u8) == ((line_status / 0x20) % 2 == 1)) by (bit_vector);
        line_status & LINE_STATUS_OUTPUT_EMPTY != 0
    }
}

} // verus!
