//! Serving requests: what each request does to the data stores and what
//! is answered.
use vstd::prelude::*;
use crate::crc::{crc16, crc16_modbus};
use crate::exc;
use crate::frame::{
    addr_at, append_crc, be16, bit_of, bit_read_frame, build_exception_resp_fixed,
    build_resp_bit_reads, build_resp_regs, exception_frame, hi_byte, lo_byte, packed_len,
    read_bits, read_regs, reg_read_frame, u16_from_bytes, with_crc, written,
};
use crate::store::{BitRead, BitWrite, RegisterRead, RegisterWrite};

verus! {

/// The start address field of a request (bytes 2 and 3, big-endian).
pub open spec fn req_start(req: Seq<u8>) -> u16 {
    be16(req[2], req[3])
}

/// The quantity (or value) field of a request (bytes 4 and 5, big-endian).
pub open spec fn req_qty(req: Seq<u8>) -> u16 {
    be16(req[4], req[5])
}

/// Whether the last two bytes of `req` are the CRC of the bytes before them,
/// low byte first.
pub open spec fn crc_ok(req: Seq<u8>) -> bool {
    be16(req[req.len() - 1], req[req.len() - 2]) == crc16(req.take(req.len() - 2))
}

/// The last address of a range of `qty` entries starting at `start`.
pub open spec fn last_addr(start: u16, qty: u16) -> u16 {
    addr_at(start, qty - 1)
}

/// Response to a single or multiple write: unit, function, address, value, CRC.
pub open spec fn echo_frame(unit_id: u8, func: u8, addr: u16, val: u16) -> Seq<u8> {
    with_crc(seq![unit_id, func, hi_byte(addr), lo_byte(addr), hi_byte(val), lo_byte(val)])
}

/// An exception answer to function `func`: the flag `true` and the frame.
pub open spec fn exc_reply(unit_id: u8, func: u8, code: u8) -> (bool, Seq<u8>) {
    (true, exception_frame(unit_id, func | 0x80u8, code))
}

/// The answer to a bit read (function codes 01, 02) from `bits`: whether it is
/// an exception, and the frame.
pub open spec fn bit_read_reply<B: BitRead>(
    bits: &B,
    unit_id: u8,
    func: u8,
    start: u16,
    qty: u16,
    max_qty: int,
) -> (bool, Seq<u8>) {
    if qty == 0 || qty > max_qty {
        exc_reply(unit_id, func, exc::ILLEGAL_DATA_VALUE)
    } else if !bits.bit_valid(start) || !bits.bit_valid(last_addr(start, qty)) {
        exc_reply(unit_id, func, exc::ILLEGAL_DATA_ADDRESS)
    } else {
        (false, bit_read_frame(unit_id, func, read_bits(bits, start, qty)))
    }
}

/// The answer to a register read (function codes 03, 04) from `regs`.
pub open spec fn reg_read_reply<R: RegisterRead>(
    regs: &R,
    unit_id: u8,
    func: u8,
    start: u16,
    qty: u16,
    max_qty: int,
) -> (bool, Seq<u8>) {
    if qty == 0 || qty > max_qty {
        exc_reply(unit_id, func, exc::ILLEGAL_DATA_VALUE)
    } else if !regs.reg_valid(start) || !regs.reg_valid(last_addr(start, qty)) {
        exc_reply(unit_id, func, exc::ILLEGAL_DATA_ADDRESS)
    } else {
        (false, reg_read_frame(unit_id, func, read_regs(regs, start, qty)))
    }
}

/// What serving an eight-byte request does: whether the answer is an
/// exception, the answer frame, and the holding registers and coils after it
/// (input registers and discrete inputs never change).
pub open spec fn on_pdu<H: RegisterRead + RegisterWrite, I: RegisterRead, C: BitRead + BitWrite, D: BitRead>(
    h: H,
    i: I,
    c: C,
    d: D,
    req: Seq<u8>,
    max_qty: int,
) -> (bool, Seq<u8>, H, C) {
    let unit_id = req[0];
    let func = req[1];
    let start = req_start(req);
    let qty = req_qty(req);
    if !crc_ok(req) {
        let r = exc_reply(unit_id, func, exc::ILLEGAL_DATA_VALUE);
        (r.0, r.1, h, c)
    } else if func == 0x01 {
        let r = bit_read_reply(&c, unit_id, func, start, qty, max_qty);
        (r.0, r.1, h, c)
    } else if func == 0x02 {
        let r = bit_read_reply(&d, unit_id, func, start, qty, max_qty);
        (r.0, r.1, h, c)
    } else if func == 0x03 {
        let r = reg_read_reply(&h, unit_id, func, start, qty, max_qty);
        (r.0, r.1, h, c)
    } else if func == 0x04 {
        let r = reg_read_reply(&i, unit_id, func, start, qty, max_qty);
        (r.0, r.1, h, c)
    } else if func == 0x05 {
        if qty != 0xFF00 && qty != 0 {
            let r = exc_reply(unit_id, func, exc::ILLEGAL_DATA_VALUE);
            (r.0, r.1, h, c)
        } else if !c.bit_valid(start) {
            let r = exc_reply(unit_id, func, exc::ILLEGAL_DATA_ADDRESS);
            (r.0, r.1, h, c)
        } else {
            (false, echo_frame(unit_id, func, start, qty), h, c.with_bit(start, qty == 0xFF00))
        }
    } else if func == 0x06 {
        if !h.reg_valid(start) {
            let r = exc_reply(unit_id, func, exc::ILLEGAL_DATA_ADDRESS);
            (r.0, r.1, h, c)
        } else {
            (false, echo_frame(unit_id, func, start, qty), h.with_reg(start, qty), c)
        }
    } else {
        let r = exc_reply(unit_id, func, exc::ILLEGAL_FUNCTION);
        (r.0, r.1, h, c)
    }
}

/// The first `n` bits packed LSB-first in `bytes`.
pub open spec fn unpack_bits(bytes: Seq<u8>, n: int) -> Seq<bool> {
    Seq::new(n as nat, |j: int| bit_of(bytes[j / 8], (j % 8) as u8))
}

/// The first `n` big-endian 16-bit values in `bytes`.
pub open spec fn decode_regs(bytes: Seq<u8>, n: int) -> Seq<u16> {
    Seq::new(n as nat, |j: int| be16(bytes[2 * j], bytes[2 * j + 1]))
}

/// `c` after writing `vals[j]` to the coil `j` places after `start`, for
/// each `j` in order.
pub open spec fn write_bits<C: BitWrite>(c: C, start: u16, vals: Seq<bool>) -> C
    decreases vals.len(),
{
    if vals.len() == 0 {
        c
    } else {
        write_bits(c, start, vals.drop_last()).with_bit(
            addr_at(start, vals.len() - 1),
            vals.last(),
        )
    }
}

/// `h` after writing `vals[j]` to the register `j` places after `start`, for
/// each `j` in order.
pub open spec fn write_regs<H: RegisterWrite>(h: H, start: u16, vals: Seq<u16>) -> H
    decreases vals.len(),
{
    if vals.len() == 0 {
        h
    } else {
        write_regs(h, start, vals.drop_last()).with_reg(
            addr_at(start, vals.len() - 1),
            vals.last(),
        )
    }
}

/// What serving a Write Multiple Coils request (function code 15) does to
/// `c`: whether the answer is an exception, the answer, and the coils after it.
pub open spec fn on_write_coils<C: BitRead + BitWrite>(c: C, req: Seq<u8>, max_qty: int) -> (
    bool,
    Seq<u8>,
    C,
) {
    let unit_id = req[0];
    let func = req[1];
    let start = req_start(req);
    let qty = req_qty(req);
    if req.len() < 9 {
        let r = exc_reply(unit_id, func, exc::ILLEGAL_DATA_VALUE);
        (r.0, r.1, c)
    } else if req.len() != 9 + req[6] {
        let r = exc_reply(unit_id, func, exc::ILLEGAL_DATA_VALUE);
        (r.0, r.1, c)
    } else if qty == 0 || qty > max_qty {
        let r = exc_reply(unit_id, func, exc::ILLEGAL_DATA_VALUE);
        (r.0, r.1, c)
    } else if !c.bit_valid(start) || !c.bit_valid(last_addr(start, qty)) {
        let r = exc_reply(unit_id, func, exc::ILLEGAL_DATA_ADDRESS);
        (r.0, r.1, c)
    } else if req[6] != packed_len(qty as int) {
        let r = exc_reply(unit_id, func, exc::ILLEGAL_DATA_VALUE);
        (r.0, r.1, c)
    } else {
        (
            false,
            echo_frame(unit_id, func, start, qty),
            write_bits(
                c.with_qty(qty),
                start,
                unpack_bits(req.subrange(7, 7 + req[6]), qty as int),
            ),
        )
    }
}

/// What serving a Write Multiple Registers request (function code 16) does to
/// `h`: whether the answer is an exception, the answer, and the registers
/// after it.
pub open spec fn on_write_regs<H: RegisterRead + RegisterWrite>(h: H, req: Seq<u8>, max_qty: int) -> (
    bool,
    Seq<u8>,
    H,
) {
    let unit_id = req[0];
    let func = req[1];
    let start = req_start(req);
    let qty = req_qty(req);
    if req.len() < 9 {
        let r = exc_reply(unit_id, func, exc::ILLEGAL_DATA_VALUE);
        (r.0, r.1, h)
    } else if req.len() != 9 + req[6] {
        let r = exc_reply(unit_id, func, exc::ILLEGAL_DATA_VALUE);
        (r.0, r.1, h)
    } else if qty == 0 || qty > max_qty {
        let r = exc_reply(unit_id, func, exc::ILLEGAL_DATA_VALUE);
        (r.0, r.1, h)
    } else if !h.reg_valid(start) || !h.reg_valid(last_addr(start, qty)) {
        let r = exc_reply(unit_id, func, exc::ILLEGAL_DATA_ADDRESS);
        (r.0, r.1, h)
    } else if req[6] != 2 * qty {
        let r = exc_reply(unit_id, func, exc::ILLEGAL_DATA_VALUE);
        (r.0, r.1, h)
    } else {
        (
            false,
            echo_frame(unit_id, func, start, qty),
            write_regs(
                h.with_qty(qty),
                start,
                decode_regs(req.subrange(7, 7 + req[6]), qty as int),
            ),
        )
    }
}

/// What serving a request frame of any length does: whether the answer is an
/// exception, the answer frame, and the holding registers and coils after it.
pub open spec fn on_frame<H: RegisterRead + RegisterWrite, I: RegisterRead, C: BitRead + BitWrite, D: BitRead>(
    h: H,
    i: I,
    c: C,
    d: D,
    req: Seq<u8>,
    max_qty: int,
) -> (bool, Seq<u8>, H, C) {
    if req.len() < 8 {
        (
            true,
            exception_frame(if req.len() > 0 { req[0] } else { 0 }, 0x80, exc::ILLEGAL_DATA_VALUE),
            h,
            c,
        )
    } else if !crc_ok(req) {
        let r = exc_reply(req[0], req[1], exc::ILLEGAL_DATA_VALUE);
        (r.0, r.1, h, c)
    } else if 0x01 <= req[1] <= 0x06 {
        if req.len() != 8 {
            let r = exc_reply(req[0], req[1], exc::ILLEGAL_DATA_VALUE);
            (r.0, r.1, h, c)
        } else {
            on_pdu(h, i, c, d, req, max_qty)
        }
    } else if req[1] == 0x0F {
        let r = on_write_coils(c, req, max_qty);
        (r.0, r.1, h, r.2)
    } else if req[1] == 0x10 {
        let r = on_write_regs(h, req, max_qty);
        (r.0, r.1, r.2, c)
    } else {
        let r = exc_reply(req[0], req[1], exc::ILLEGAL_FUNCTION);
        (r.0, r.1, h, c)
    }
}

/// Whether a register read (function codes 03, 04) of `qty` registers from
/// `start` gets past its checks with a quantity whose low byte is 128 or more:
/// doubling that byte for the byte-count field overflows, so such a read
/// cannot be answered.
pub open spec fn reg_count_overflows<R: RegisterRead>(regs: &R, start: u16, qty: u16, max_qty: int) -> bool {
    &&& 1 <= qty <= max_qty
    &&& regs.reg_valid(start)
    &&& regs.reg_valid(last_addr(start, qty))
    &&& qty % 256 >= 128
}

/// Whether the eight-byte request `req` is a register read whose byte count
/// overflows (see `reg_count_overflows`).
pub open spec fn pdu_overflows<H: RegisterRead, I: RegisterRead>(h: &H, i: &I, req: Seq<u8>, max_qty: int) -> bool {
    &&& crc_ok(req)
    &&& {
        ||| req[1] == 0x03 && reg_count_overflows(h, req_start(req), req_qty(req), max_qty)
        ||| req[1] == 0x04 && reg_count_overflows(i, req_start(req), req_qty(req), max_qty)
    }
}

/// Whether the request frame `req` is a register read whose byte count
/// overflows (see `reg_count_overflows`).
pub open spec fn frame_overflows<H: RegisterRead, I: RegisterRead>(h: &H, i: &I, req: Seq<u8>, max_qty: int) -> bool {
    req.len() == 8 && pdu_overflows(h, i, req, max_qty)
}

/// Multi-entry writes may record their quantity in any store that has a valid
/// address.
pub open spec fn stores_ready<H: RegisterRead + RegisterWrite, C: BitRead + BitWrite>(h: H, c: C) -> bool {
    &&& forall|a: u16| #[trigger] c.bit_valid(a) ==> c.qty_settable()
    &&& forall|a: u16| #[trigger] h.reg_valid(a) ==> h.qty_settable()
}

/// How the output buffers look after answering `reply`: a normal frame goes to
/// the start of `out_tx` and leaves `out_exc` alone; an exception frame fills
/// `out_exc` and leaves `out_tx` alone.
pub open spec fn answered(
    reply: (bool, Seq<u8>),
    n: usize,
    tx_before: Seq<u8>,
    tx_after: Seq<u8>,
    exc_before: Seq<u8>,
    exc_after: Seq<u8>,
) -> bool {
    &&& n == reply.1.len()
    &&& (n == 5) == reply.0
    &&& reply.0 ==> exc_after == reply.1 && tx_after == tx_before
    &&& !reply.0 ==> tx_after == written(tx_before, reply.1) && exc_after == exc_before
}

/// Answers with an exception frame in `out_exc`.
fn reply_exception(
    out_tx: &mut [u8],
    out_exc: &mut [u8; 5],
    unit_id: u8,
    func: u8,
    code: u8,
) -> (n: usize)
    ensures
        answered(exc_reply(unit_id, func, code), n, old(out_tx)@, final(out_tx)@, old(out_exc)@, final(out_exc)@),
{
    build_exception_resp_fixed::<5>(out_exc, unit_id, func | 0x80, code)
}

/// Serves a bit read (function codes 01, 02) from `bits`.
fn serve_bit_read<const MAX_QTY: usize, B: BitRead>(
    bits: &B,
    out_tx: &mut [u8],
    out_exc: &mut [u8; 5],
    unit_id: u8,
    func: u8,
    start_addr: u16,
    quantity: u16,
) -> (n: usize)
    requires
        old(out_tx)@.len() >= 5 + 2 * MAX_QTY,
    ensures
        answered(
            bit_read_reply(bits, unit_id, func, start_addr, quantity, MAX_QTY as int),
            n,
            old(out_tx)@,
            final(out_tx)@,
            old(out_exc)@,
            final(out_exc)@,
        ),
{
    if quantity == 0 || (quantity as usize) > MAX_QTY {
        return reply_exception(out_tx, out_exc, unit_id, func, exc::ILLEGAL_DATA_VALUE);
    }
    let end = start_addr.wrapping_add(quantity.saturating_sub(1));
    if !bits.is_valid(start_addr) || !bits.is_valid(end) {
        return reply_exception(out_tx, out_exc, unit_id, func, exc::ILLEGAL_DATA_ADDRESS);
    }
    build_resp_bit_reads::<MAX_QTY, B>(out_tx, unit_id, func, start_addr, quantity, bits)
}

/// Serves a register read (function codes 03, 04) from `regs`.
fn serve_reg_read<const MAX_QTY: usize, R: RegisterRead>(
    regs: &R,
    out_tx: &mut [u8],
    out_exc: &mut [u8; 5],
    unit_id: u8,
    func: u8,
    start_addr: u16,
    quantity: u16,
) -> (n: usize)
    requires
        !reg_count_overflows(regs, start_addr, quantity, MAX_QTY as int),
        old(out_tx)@.len() >= 5 + 2 * MAX_QTY,
    ensures
        answered(
            reg_read_reply(regs, unit_id, func, start_addr, quantity, MAX_QTY as int),
            n,
            old(out_tx)@,
            final(out_tx)@,
            old(out_exc)@,
            final(out_exc)@,
        ),
{
    if quantity == 0 || (quantity as usize) > MAX_QTY {
        return reply_exception(out_tx, out_exc, unit_id, func, exc::ILLEGAL_DATA_VALUE);
    }
    let end = start_addr.wrapping_add(quantity.saturating_sub(1));
    if !regs.is_valid(start_addr) || !regs.is_valid(end) {
        return reply_exception(out_tx, out_exc, unit_id, func, exc::ILLEGAL_DATA_ADDRESS);
    }
    build_resp_regs::<MAX_QTY, R>(out_tx, unit_id, func, start_addr, quantity, regs)
}

/// Writes the echo response of a write request into `out_tx`.
fn reply_echo(out_tx: &mut [u8], unit_id: u8, func: u8, addr: u16, val: u16) -> (n: usize)
    requires
        old(out_tx)@.len() >= 8,
    ensures
        n == 8,
        final(out_tx)@ == written(old(out_tx)@, echo_frame(unit_id, func, addr, val)),
{
    out_tx[0] = unit_id;
    out_tx[1] = func;
    out_tx[2] = (addr >> 8) as u8;
    out_tx[3] = (addr & 0xFF) as u8;
    out_tx[4] = (val >> 8) as u8;
    out_tx[5] = (val & 0xFF) as u8;
    assert(out_tx@.take(6) =~= seq![unit_id, func, hi_byte(addr), lo_byte(addr), hi_byte(val), lo_byte(val)]);
    append_crc(out_tx, 6)
}

/// Writes `quantity` coils from `start_addr` on, taken LSB-first from
/// `coils_bytes`, after recording the quantity.
fn write_multiple_coils<C: BitRead + BitWrite>(
    coils: &mut C,
    start_addr: u16,
    quantity: u16,
    coils_bytes: &[u8],
)
    requires
        old(coils).qty_settable(),
        coils_bytes@.len() >= packed_len(quantity as int),
    ensures
        *final(coils) == write_bits(
            old(coils).with_qty(quantity),
            start_addr,
            unpack_bits(coils_bytes@, quantity as int),
        ),
{
    let ghost vals = unpack_bits(coils_bytes@, quantity as int);
    coils.set_qty(quantity);
    let ghost c1 = *coils;
    for j in 0..quantity as usize
        invariant
            vals == unpack_bits(coils_bytes@, quantity as int),
            coils_bytes@.len() >= packed_len(quantity as int),
            *coils == write_bits(c1, start_addr, vals.take(j as int)),
    {
        let addr = start_addr.wrapping_add(j as u16);
        let byte_i = j / 8;
        let bit_i = (j % 8) as u8;
        let byte = coils_bytes[byte_i];
        let bit = ((byte >> bit_i) & 0x01) != 0;
        assert(bit == bit_of(byte, bit_i)) by (bit_vector)
            requires
                bit == (((byte >> bit_i) & 0x01) != 0),
        ;
        assert(vals.take(j + 1).drop_last() =~= vals.take(j as int));
        coils.set_bit(addr, bit);
    }
    assert(vals.take(quantity as int) =~= vals);
}

/// Writes `quantity` registers from `start_addr` on, taken big-endian from
/// `reg_bytes`, after recording the quantity.
fn write_multiple_regs<H: RegisterRead + RegisterWrite>(
    holdings: &mut H,
    start_addr: u16,
    quantity: u16,
    reg_bytes: &[u8],
)
    requires
        old(holdings).qty_settable(),
        reg_bytes@.len() >= 2 * quantity,
    ensures
        *final(holdings) == write_regs(
            old(holdings).with_qty(quantity),
            start_addr,
            decode_regs(reg_bytes@, quantity as int),
        ),
{
    let ghost vals = decode_regs(reg_bytes@, quantity as int);
    holdings.set_qty(quantity);
    let ghost h1 = *holdings;
    for j in 0..quantity as usize
        invariant
            vals == decode_regs(reg_bytes@, quantity as int),
            reg_bytes@.len() >= 2 * quantity,
            *holdings == write_regs(h1, start_addr, vals.take(j as int)),
    {
        let addr = start_addr.wrapping_add(j as u16);
        let base = j * 2;
        let v = u16_from_bytes(reg_bytes[base], reg_bytes[base + 1]);
        assert(vals.take(j + 1).drop_last() =~= vals.take(j as int));
        holdings.set_reg(addr, v);
    }
    assert(vals.take(quantity as int) =~= vals);
}

/// The length of a request frame with function code `func`, once it can be
/// known from the first `cur_len` bytes of `buf`: 8 for function codes 01 to
/// 06; `9 + buf[6]` for 15 and 16 once seven bytes are there; otherwise
/// unknown.
pub open spec fn frame_len(func: u8, buf: Seq<u8>, cur_len: int) -> Option<usize> {
    if 0x01 <= func <= 0x06 {
        Some(8)
    } else if func == 0x0F || func == 0x10 {
        if cur_len < 7 {
            None
        } else {
            Some((9 + buf[6]) as usize)
        }
    } else {
        None
    }
}

/// The length of the request frame with function code `func` whose first
/// `cur_len` bytes are in `buf`, or `None` while it cannot be known yet or
/// the function code is not supported.
pub fn FrameLen4Func(func: u8, buf: &[u8], cur_len: usize) -> (len: Option<usize>)
    requires
        (func == 0x0F || func == 0x10) && cur_len >= 7 ==> buf@.len() > 6,
    ensures
        len == frame_len(func, buf@, cur_len as int),
{
    match func {
        0x01 | 0x02 | 0x03 | 0x04 | 0x05 | 0x06 => return Some(8),
        0x0F | 0x10 => {
            if cur_len < 7 {
                return None;
            }
            let byte_count = buf[6] as usize;
            return Some(9 + byte_count);
        },
        _ => return None,
    }
}

/// The four data stores a Modbus server answers from.
pub struct ModbusCtx<'a, H, I, C, D> {
    /// Holding registers (function codes 03, 06, 16).
    pub holdings: &'a mut H,
    /// Input registers (function code 04).
    pub inputs: &'a mut I,
    /// Coils (function codes 01, 05, 15).
    pub coils: &'a mut C,
    /// Discrete inputs (function code 02).
    pub ists: &'a mut D,
}

impl<'a, H, I, C, D> ModbusCtx<'a, H, I, C, D> where
    H: RegisterRead + RegisterWrite,
    I: RegisterRead,
    C: BitRead + BitWrite,
    D: BitRead,
 {
    /// Answers one eight-byte request `req8` (function codes 01 to 06).
    ///
    /// A normal response goes to the start of `out_tx` and its length is
    /// returned; an exception response (wrong CRC, quantity 0 or above
    /// `MAX_QTY`, address out of range, bad coil value, unknown function) goes
    /// to `out_exc` and 5 is returned. No normal response is 5 bytes long.
    ///
    /// A register read that passes its checks with a quantity whose low byte
    /// is 128 or more cannot be answered: its byte count overflows.
    pub fn pharse_pdu<const MAX_QTY: usize>(
        &mut self,
        req8: &[u8; 8],
        out_tx: &mut [u8],
        out_exc: &mut [u8; 5],
    ) -> (n: usize)
        requires
            !pdu_overflows(&*old(self).holdings, &*old(self).inputs, req8@, MAX_QTY as int),
            old(out_tx)@.len() >= 8,
            old(out_tx)@.len() >= 5 + 2 * MAX_QTY,
        ensures
            ({
                let o = on_pdu(
                    *old(self).holdings,
                    *old(self).inputs,
                    *old(self).coils,
                    *old(self).ists,
                    req8@,
                    MAX_QTY as int,
                );
                &&& answered((o.0, o.1), n, old(out_tx)@, final(out_tx)@, old(out_exc)@, final(out_exc)@)
                &&& *final(self).holdings == o.2
                &&& *final(self).coils == o.3
            }),
            *final(self).inputs == *old(self).inputs,
            *final(self).ists == *old(self).ists,
            *final(final(self).holdings) == *final(old(self).holdings),
            *final(final(self).inputs) == *final(old(self).inputs),
            *final(final(self).coils) == *final(old(self).coils),
            *final(final(self).ists) == *final(old(self).ists),
    {
        let unit_id = req8[0];
        let func = req8[1];

        // CRC check
        let expected_crc = u16_from_bytes(req8[7], req8[6]);
        let calc_crc = crc16_modbus(&req8.as_slice()[0..6]);
        assert(req8@.take(6) =~= req8@.subrange(0, 6));
        if expected_crc != calc_crc {
            return reply_exception(out_tx, out_exc, unit_id, func, exc::ILLEGAL_DATA_VALUE);
        }

        let start_addr = u16_from_bytes(req8[2], req8[3]);
        let quantity = u16_from_bytes(req8[4], req8[5]);

        match func {
            0x01 => serve_bit_read::<MAX_QTY, C>(
                self.coils,
                out_tx,
                out_exc,
                unit_id,
                func,
                start_addr,
                quantity,
            ),
            0x02 => serve_bit_read::<MAX_QTY, D>(
                self.ists,
                out_tx,
                out_exc,
                unit_id,
                func,
                start_addr,
                quantity,
            ),
            0x03 => serve_reg_read::<MAX_QTY, H>(
                self.holdings,
                out_tx,
                out_exc,
                unit_id,
                func,
                start_addr,
                quantity,
            ),
            0x04 => serve_reg_read::<MAX_QTY, I>(
                self.inputs,
                out_tx,
                out_exc,
                unit_id,
                func,
                start_addr,
                quantity,
            ),
            0x05 => {
                // FC05: the value field must be 0xFF00 (on) or 0x0000 (off)
                let coil_value = quantity;
                let bit = if coil_value == 0xFF00 {
                    true
                } else if coil_value == 0x0000 {
                    false
                } else {
                    return reply_exception(out_tx, out_exc, unit_id, 0x05, exc::ILLEGAL_DATA_VALUE);
                };
                if !self.coils.is_valid(start_addr) {
                    return reply_exception(out_tx, out_exc, unit_id, 0x05, exc::ILLEGAL_DATA_ADDRESS);
                }
                self.coils.set_bit(start_addr, bit);
                reply_echo(out_tx, unit_id, 0x05, start_addr, coil_value)
            },
            0x06 => {
                // FC06: write a single holding register
                let reg_value = quantity;
                if !self.holdings.is_valid(start_addr) {
                    return reply_exception(out_tx, out_exc, unit_id, 0x06, exc::ILLEGAL_DATA_ADDRESS);
                }
                self.holdings.set_reg(start_addr, reg_value);
                reply_echo(out_tx, unit_id, 0x06, start_addr, reg_value)
            },
            _ => reply_exception(out_tx, out_exc, unit_id, func, exc::ILLEGAL_FUNCTION),
        }
    }

    /// Answers one request frame of any length (function codes 01 to 06 in
    /// eight bytes, 15 and 16 in `9 + byte count` bytes).
    ///
    /// A frame shorter than eight bytes, one whose last two bytes are not its
    /// CRC, or one whose length does not fit its function code is answered
    /// with ILLEGAL_DATA_VALUE. A normal response goes to the start of
    /// `out_tx` and its length is returned; an exception goes to `out_exc` and
    /// 5 is returned. As in `pharse_pdu`, a register read whose quantity has a
    /// low byte of 128 or more cannot be answered.
    pub fn pharse_frame<const MAX_QTY: usize>(
        &mut self,
        req: &[u8],
        out_tx: &mut [u8],
        out_exc: &mut [u8; 5],
    ) -> (n: usize)
        requires
            !frame_overflows(&*old(self).holdings, &*old(self).inputs, req@, MAX_QTY as int),
            old(out_tx)@.len() >= 8,
            old(out_tx)@.len() >= 5 + 2 * MAX_QTY,
            stores_ready(*old(self).holdings, *old(self).coils),
        ensures
            ({
                let o = on_frame(
                    *old(self).holdings,
                    *old(self).inputs,
                    *old(self).coils,
                    *old(self).ists,
                    req@,
                    MAX_QTY as int,
                );
                &&& answered((o.0, o.1), n, old(out_tx)@, final(out_tx)@, old(out_exc)@, final(out_exc)@)
                &&& *final(self).holdings == o.2
                &&& *final(self).coils == o.3
            }),
            *final(self).inputs == *old(self).inputs,
            *final(self).ists == *old(self).ists,
            *final(final(self).holdings) == *final(old(self).holdings),
            *final(final(self).inputs) == *final(old(self).inputs),
            *final(final(self).coils) == *final(old(self).coils),
            *final(final(self).ists) == *final(old(self).ists),
    {
        if req.len() < 8 {
            let unit0 = if req.len() > 0 {
                req[0]
            } else {
                0
            };
            return build_exception_resp_fixed::<5>(out_exc, unit0, 0x80, exc::ILLEGAL_DATA_VALUE);
        }

        let unit_id = req[0];
        let func = req[1];

        // the last two bytes are the CRC, low byte first
        let expected_crc = u16_from_bytes(req[req.len() - 1], req[req.len() - 2]);
        let calc_crc = crc16_modbus(&req[0..req.len() - 2]);
        assert(req@.take(req@.len() - 2) =~= req@.subrange(0, req@.len() - 2));
        if expected_crc != calc_crc {
            return reply_exception(out_tx, out_exc, unit_id, func, exc::ILLEGAL_DATA_VALUE);
        }

        let start_addr = u16_from_bytes(req[2], req[3]);
        let quantity = u16_from_bytes(req[4], req[5]);

        match func {
            0x01 | 0x02 | 0x03 | 0x04 | 0x05 | 0x06 => {
                if req.len() != 8 {
                    return reply_exception(out_tx, out_exc, unit_id, func, exc::ILLEGAL_DATA_VALUE);
                }
                let req8: [u8; 8] = [req[0], req[1], req[2], req[3], req[4], req[5], req[6], req[7]];
                assert(req8@ =~= req@);
                self.pharse_pdu::<MAX_QTY>(&req8, out_tx, out_exc)
            },
            0x0F => {
                // FC15 Write Multiple Coils:
                // unit, func, start(2), quantity(2), byte count, coil bytes, CRC(2)
                if req.len() < 9 {
                    return reply_exception(out_tx, out_exc, unit_id, func, exc::ILLEGAL_DATA_VALUE);
                }
                let byte_count = req[6] as usize;
                let expected_len = 9 + byte_count;
                if req.len() != expected_len {
                    return reply_exception(out_tx, out_exc, unit_id, func, exc::ILLEGAL_DATA_VALUE);
                }
                if quantity == 0 || (quantity as usize) > MAX_QTY {
                    return reply_exception(out_tx, out_exc, unit_id, func, exc::ILLEGAL_DATA_VALUE);
                }
                let end_addr = start_addr.wrapping_add(quantity.saturating_sub(1));
                if !self.coils.is_valid(start_addr) || !self.coils.is_valid(end_addr) {
                    return reply_exception(out_tx, out_exc, unit_id, func, exc::ILLEGAL_DATA_ADDRESS);
                }
                // the byte count must be ceil(quantity / 8)
                let min_byte_cnt = (quantity as usize + 7) / 8;
                if byte_count != min_byte_cnt {
                    return reply_exception(out_tx, out_exc, unit_id, func, exc::ILLEGAL_DATA_VALUE);
                }
                let coils_bytes = &req[7..7 + byte_count];
                write_multiple_coils(self.coils, start_addr, quantity, coils_bytes);
                reply_echo(out_tx, unit_id, 0x0F, start_addr, quantity)
            },
            0x10 => {
                // FC16 Write Multiple Registers:
                // unit, func, start(2), quantity(2), byte count, register bytes, CRC(2)
                if req.len() < 9 {
                    return reply_exception(out_tx, out_exc, unit_id, func, exc::ILLEGAL_DATA_VALUE);
                }
                let byte_count = req[6] as usize;
                let expected_len = 9 + byte_count;
                if req.len() != expected_len {
                    return reply_exception(out_tx, out_exc, unit_id, func, exc::ILLEGAL_DATA_VALUE);
                }
                if quantity == 0 || (quantity as usize) > MAX_QTY {
                    return reply_exception(out_tx, out_exc, unit_id, func, exc::ILLEGAL_DATA_VALUE);
                }
                let end_addr = start_addr.wrapping_add(quantity.saturating_sub(1));
                if !self.holdings.is_valid(start_addr) || !self.holdings.is_valid(end_addr) {
                    return reply_exception(out_tx, out_exc, unit_id, func, exc::ILLEGAL_DATA_ADDRESS);
                }
                // the byte count must be twice the quantity
                if byte_count != (quantity as usize) * 2 {
                    return reply_exception(out_tx, out_exc, unit_id, func, exc::ILLEGAL_DATA_VALUE);
                }
                let reg_bytes = &req[7..7 + byte_count];
                write_multiple_regs(self.holdings, start_addr, quantity, reg_bytes);
                reply_echo(out_tx, unit_id, 0x10, start_addr, quantity)
            },
            _ => reply_exception(out_tx, out_exc, unit_id, func, exc::ILLEGAL_FUNCTION),
        }
    }
}

} // verus!
