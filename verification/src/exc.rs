//! Modbus exception codes.
use vstd::prelude::*;

verus! {

/// The function code is not supported.
pub const ILLEGAL_FUNCTION: u8 = 0x01;

/// The addressed range lies outside the data store.
pub const ILLEGAL_DATA_ADDRESS: u8 = 0x02;

/// A field of the request holds a value that is not allowed (also answered
/// to a frame whose CRC does not match or whose length is wrong).
pub const ILLEGAL_DATA_VALUE: u8 = 0x03;

} // verus!
