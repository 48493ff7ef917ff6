//! Modbus RTU server-side helpers: CRC16, response framing, request dispatch
//! over user-supplied register and bit stores, and frame assembly from a byte
//! stream.
#![allow(non_snake_case)]

pub mod crc;
pub mod exc;
pub mod store;
pub mod frame;
pub mod ctx;
pub mod rng;
pub mod laws;
pub mod request_laws;
pub mod rtu;

pub use crate::crc::crc16_modbus;
pub use crate::ctx::{FrameLen4Func, ModbusCtx};
pub use crate::frame::{build_exception_resp, build_resp_bit_reads};
pub use crate::rng::{Random, SEED_INIT};
pub use crate::rtu::{FrameAssembler, RxStep};
pub use crate::store::{
    BitRead, BitWrite, Coil, Hreg, Ireg, Ists, RegisterRead, RegisterWrite,
};
