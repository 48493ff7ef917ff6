//! What each kind of request does, stated over the bytes of the request and
//! of the answer: which requests are answered normally, what the answer
//! holds, and what the stores hold afterwards.
use vstd::prelude::*;
use crate::crc::crc16;
use crate::ctx::{
    bit_read_reply, crc_ok, decode_regs, on_frame, on_pdu, reg_read_reply, req_qty, req_start,
    unpack_bits, write_bits, write_regs,
};
use crate::frame::{
    addr_at, be16, bit_of, flag_bit, hi_byte, lemma_pack_byte_bit, lo_byte, pack_bits, read_bits,
    read_regs, reg_bytes, with_crc,
};
use crate::laws::{lemma_coil_write_bits, lemma_hreg_write_regs, lemma_range_inside};
use crate::store::{BitRead, BitWrite, Coil, Hreg, RegisterRead, RegisterWrite};

verus! {

/// `frame` is `body` followed by the CRC16 of `body`, low byte first.
pub open spec fn crc_framed(frame: Seq<u8>, body: Seq<u8>) -> bool {
    &&& frame.len() == body.len() + 2
    &&& frame.take(body.len() as int) == body
    &&& frame[body.len() as int] as int == crc16(body) % 256
    &&& frame[body.len() + 1int] as int == crc16(body) / 256
}

/// The last two bytes of `req` are the CRC16 of the bytes before them, low
/// byte first.
pub open spec fn crc_right(req: Seq<u8>) -> bool {
    req.len() >= 2 && crc_framed(req, req.take(req.len() - 2))
}

/// The 16-bit number whose high byte is `hi` and low byte `lo`.
pub open spec fn word(hi: u8, lo: u8) -> int {
    hi * 256 + lo
}

/// The address `j` places after `start`, modulo 0x10000.
pub open spec fn wrap(start: int, j: int) -> int {
    (start + j) % 0x10000
}

/// The bytes of a 16-bit value and the value of two bytes.
proof fn lemma_bytes(v: u16, a: u8, b: u8)
    ensures
        hi_byte(v) as int == v / 256,
        lo_byte(v) as int == v % 256,
        be16(a, b) as int == word(a, b),
        hi_byte(be16(a, b)) == a,
        lo_byte(be16(a, b)) == b,
{
    let hi = hi_byte(v);
    let lo = lo_byte(v);
    assert(hi as int == (v as int) / 256 && lo as int == (v as int) % 256) by (bit_vector)
        requires
            hi == (v >> 8u16) as u8,
            lo == (v & 0xFFu16) as u8,
    ;
    let w = be16(a, b);
    assert(w as int == a * 256 + b);
    let hw = hi_byte(w);
    let lw = lo_byte(w);
    assert(hw as int == (w as int) / 256 && lw as int == (w as int) % 256) by (bit_vector)
        requires
            hw == (w >> 8u16) as u8,
            lw == (w & 0xFFu16) as u8,
    ;
}

/// `addr_at` is addition modulo 0x10000.
proof fn lemma_addr(start: u16, j: int)
    requires
        0 <= j < 0x10000,
    ensures
        addr_at(start, j) as int == wrap(start as int, j),
{
}

/// A frame built by `with_crc` is CRC-framed.
proof fn lemma_framed(body: Seq<u8>)
    ensures
        crc_framed(with_crc(body), body),
{
    lemma_bytes(crc16(body), 0, 0);
    assert(with_crc(body).take(body.len() as int) =~= body);
}

/// The two CRC checks agree.
proof fn lemma_crc_right(req: Seq<u8>)
    requires
        req.len() >= 2,
    ensures
        crc_right(req) <==> crc_ok(req),
{
    let n = req.len() as int;
    lemma_bytes(crc16(req.take(n - 2)), req[n - 1], req[n - 2]);
    assert(req.take(n).take(n - 2) =~= req.take(n - 2));
    assert(req.take(n - 2).len() == n - 2);
}

/// Writing bits leaves every address outside the written range as it was.
proof fn lemma_write_bits_rest<const N: usize>(c: Coil<N>, start: u16, vals: Seq<bool>, a: u16)
    requires
        forall|k: int| 0 <= k < vals.len() ==> #[trigger] addr_at(start, k) != a,
    ensures
        write_bits(c, start, vals).bit_value(a) == c.bit_value(a),
    decreases vals.len(),
{
    if vals.len() > 0 {
        let n = vals.len() as int;
        let prev = write_bits(c, start, vals.drop_last());
        prev.lemma_with_bit(addr_at(start, n - 1), vals.last());
        prev.lemma_len();
        assert(addr_at(start, n - 1) != a);
        lemma_write_bits_rest(c, start, vals.drop_last(), a);
    }
}

/// Writing registers leaves every address outside the written range as it
/// was.
proof fn lemma_write_regs_rest<const N: usize>(h: Hreg<N>, start: u16, vals: Seq<u16>, a: u16)
    requires
        forall|k: int| 0 <= k < vals.len() ==> #[trigger] addr_at(start, k) != a,
    ensures
        write_regs(h, start, vals).reg_value(a) == h.reg_value(a),
    decreases vals.len(),
{
    if vals.len() > 0 {
        let n = vals.len() as int;
        let prev = write_regs(h, start, vals.drop_last());
        prev.lemma_with_reg(addr_at(start, n - 1), vals.last());
        prev.lemma_len();
        assert(addr_at(start, n - 1) != a);
        lemma_write_regs_rest(h, start, vals.drop_last(), a);
    }
}

/// Writing bits leaves the recorded quantity as it was.
proof fn lemma_write_bits_qty<const N: usize>(c: Coil<N>, start: u16, vals: Seq<bool>)
    ensures
        write_bits(c, start, vals).qty() == c.qty(),
    decreases vals.len(),
{
    if vals.len() > 0 {
        let n = vals.len() as int;
        let prev = write_bits(c, start, vals.drop_last());
        prev.lemma_with_bit(addr_at(start, n - 1), vals.last());
        lemma_write_bits_qty(c, start, vals.drop_last());
    }
}

/// Writing regs leaves the recorded quantity as it was.
proof fn lemma_write_regs_qty<const N: usize>(h: Hreg<N>, start: u16, vals: Seq<u16>)
    ensures
        write_regs(h, start, vals).qty() == h.qty(),
    decreases vals.len(),
{
    if vals.len() > 0 {
        let n = vals.len() as int;
        let prev = write_regs(h, start, vals.drop_last());
        prev.lemma_with_reg(addr_at(start, n - 1), vals.last());
        lemma_write_regs_qty(h, start, vals.drop_last());
    }
}

/// An address outside the range of `qty` addresses from `start` (modulo
/// 0x10000) is none of them.
proof fn lemma_outside_range(start: u16, qty: int, a: u16)
    requires
        0 <= qty <= 0x10000,
        (a - start) % 0x10000 >= qty,
    ensures
        forall|k: int| 0 <= k < qty ==> #[trigger] addr_at(start, k) != a,
{
    assert forall|k: int| 0 <= k < qty implies #[trigger] addr_at(start, k) != a by {
        lemma_addr(start, k);
    }
}

/// A Write Multiple Coils request (function code 15) with the right CRC and
/// length, a quantity from 1 to `max_qty`, first and last address inside the
/// coils and the byte count `ceil(quantity / 8)` is answered normally: the
/// answer echoes the first six request bytes and carries their CRC. The coil
/// `j` places after the start address then holds bit `j % 8` of coil byte
/// `j / 8` (when the range does not wrap past 0xFFFF into addresses outside
/// the store), every coil outside the range keeps its state, the quantity is
/// recorded, and the holding registers are untouched.
#[verifier::spinoff_prover]
#[verifier::rlimit(40)]
pub proof fn law_write_coils_answer<const N: usize, H: RegisterRead + RegisterWrite, I: RegisterRead, D: BitRead>(
    h: H,
    i: I,
    c: Coil<N>,
    d: D,
    req: Seq<u8>,
    max_qty: int,
)
    requires
        req.len() >= 9,
        crc_right(req),
        req[1] == 0x0F,
        req.len() == 9 + req[6],
        1 <= word(req[4], req[5]) <= max_qty,
        word(req[2], req[3]) < N,
        wrap(word(req[2], req[3]), word(req[4], req[5]) - 1) < N,
        req[6] == (word(req[4], req[5]) + 7) / 8,
    ensures
        ({
            let o = on_frame(h, i, c, d, req, max_qty);
            let s = word(req[2], req[3]);
            let q = word(req[4], req[5]);
            &&& !o.0
            &&& crc_framed(o.1, req.take(6))
            &&& o.2 == h
            &&& o.3.qty() == (if q < N { q } else { N - 1 })
            &&& forall|j: int|
                #![trigger wrap(s, j)]
                0 <= j < q && (N > 0xFFFF || s + q <= 0x10000) ==> o.3.bit_value(wrap(s, j) as u16)
                    == ((req[7 + j / 8] >> ((j % 8) as u8)) & 1u8 == 1u8)
            &&& forall|a: u16| (a - s) % 0x10000 >= q ==> #[trigger] o.3.bit_value(a) == c.bit_value(a)
        }),
{
    let s16 = req_start(req);
    let q16 = req_qty(req);
    lemma_bytes(0, req[2], req[3]);
    lemma_bytes(0, req[4], req[5]);
    lemma_crc_right(req);
    lemma_addr(s16, q16 - 1);
    let s = word(req[2], req[3]);
    let q = word(req[4], req[5]);
    let o = on_frame(h, i, c, d, req, max_qty);
    assert(seq![req[0], 0x0Fu8, hi_byte(s16), lo_byte(s16), hi_byte(q16), lo_byte(q16)] =~= req.take(6));
    lemma_framed(req.take(6));
    let c1 = BitWrite::with_qty(c, q16);
    c.lemma_with_qty(q16);
    let vals = unpack_bits(req.subrange(7, 7 + req[6]), q);
    assert(o.3 == write_bits(c1, s16, vals));
    assert forall|j: int|
        #![trigger wrap(s, j)]
        0 <= j < q && (N > 0xFFFF || s + q <= 0x10000) implies o.3.bit_value(wrap(s, j) as u16)
            == ((req[7 + j / 8] >> ((j % 8) as u8)) & 1u8 == 1u8) by {
        lemma_range_inside(s16, q16, N);
        lemma_addr(s16, j);
        lemma_coil_write_bits(c1, s16, vals, j);
    }
    assert forall|a: u16| (a - s) % 0x10000 >= q implies #[trigger] o.3.bit_value(a) == c.bit_value(a) by {
        lemma_outside_range(s16, q, a);
        lemma_write_bits_rest(c1, s16, vals, a);
    }
    lemma_write_bits_qty(c1, s16, vals);
}

/// A Write Multiple Registers request (function code 16) with the right CRC
/// and length, a quantity from 1 to `max_qty`, first and last address inside
/// the holding registers and the byte count `2 * quantity` is answered
/// normally: the answer echoes the first six request bytes and carries their
/// CRC. The register `j` places after the start address then holds the
/// big-endian value of data bytes `2j` and `2j + 1` (when the range does not
/// wrap past 0xFFFF into addresses outside the store), every register outside
/// the range keeps its value, the quantity is recorded, and the coils are
/// untouched.
#[verifier::spinoff_prover]
#[verifier::rlimit(40)]
pub proof fn law_write_regs_answer<const N: usize, I: RegisterRead, C: BitRead + BitWrite, D: BitRead>(
    h: Hreg<N>,
    i: I,
    c: C,
    d: D,
    req: Seq<u8>,
    max_qty: int,
)
    requires
        req.len() >= 9,
        crc_right(req),
        req[1] == 0x10,
        req.len() == 9 + req[6],
        1 <= word(req[4], req[5]) <= max_qty,
        word(req[2], req[3]) < N,
        wrap(word(req[2], req[3]), word(req[4], req[5]) - 1) < N,
        req[6] == 2 * word(req[4], req[5]),
    ensures
        ({
            let o = on_frame(h, i, c, d, req, max_qty);
            let s = word(req[2], req[3]);
            let q = word(req[4], req[5]);
            &&& !o.0
            &&& crc_framed(o.1, req.take(6))
            &&& o.3 == c
            &&& o.2.qty() == (if q < N { q } else { N - 1 })
            &&& forall|j: int|
                #![trigger wrap(s, j)]
                0 <= j < q && (N > 0xFFFF || s + q <= 0x10000) ==> o.2.reg_value(wrap(s, j) as u16)
                    == word(req[7 + 2 * j], req[8 + 2 * j])
            &&& forall|a: u16| (a - s) % 0x10000 >= q ==> #[trigger] o.2.reg_value(a) == h.reg_value(a)
        }),
{
    let s16 = req_start(req);
    let q16 = req_qty(req);
    lemma_bytes(0, req[2], req[3]);
    lemma_bytes(0, req[4], req[5]);
    lemma_crc_right(req);
    lemma_addr(s16, q16 - 1);
    let s = word(req[2], req[3]);
    let q = word(req[4], req[5]);
    let o = on_frame(h, i, c, d, req, max_qty);
    assert(seq![req[0], 0x10u8, hi_byte(s16), lo_byte(s16), hi_byte(q16), lo_byte(q16)] =~= req.take(6));
    lemma_framed(req.take(6));
    let h1 = RegisterWrite::with_qty(h, q16);
    h.lemma_with_qty(q16);
    let sub = req.subrange(7, 7 + req[6]);
    let vals = decode_regs(sub, q);
    assert(o.2 == write_regs(h1, s16, vals));
    assert forall|j: int|
        #![trigger wrap(s, j)]
        0 <= j < q && (N > 0xFFFF || s + q <= 0x10000) implies o.2.reg_value(wrap(s, j) as u16)
            == word(req[7 + 2 * j], req[8 + 2 * j]) by {
        lemma_range_inside(s16, q16, N);
        lemma_addr(s16, j);
        lemma_hreg_write_regs(h1, s16, vals, j);
        assert(sub[2 * j] == req[7 + 2 * j]);
        assert(sub[2 * j + 1] == req[8 + 2 * j]);
        lemma_bytes(0, req[7 + 2 * j], req[8 + 2 * j]);
    }
    assert forall|a: u16| (a - s) % 0x10000 >= q implies #[trigger] o.2.reg_value(a) == h.reg_value(a) by {
        lemma_outside_range(s16, q, a);
        lemma_write_regs_rest(h1, s16, vals, a);
    }
    lemma_write_regs_qty(h1, s16, vals);
}

/// Whether `resp` is the normal answer to a bit read of `qty` bits from
/// `start` out of `bits` for unit `unit_id` and function `func`: unit,
/// function, byte count `ceil(qty / 8)`, then bit `j % 8` of data byte
/// `j / 8` holds the bit `j` places after `start` (0 past `qty`), then the CRC.
pub open spec fn is_bit_answer<B: BitRead>(resp: Seq<u8>, bits: &B, unit_id: u8, func: u8, start: int, qty: int) -> bool {
    let n = (qty + 7) / 8;
    &&& crc_framed(resp, resp.take(3 + n))
    &&& resp[0] == unit_id
    &&& resp[1] == func
    &&& resp[2] == n as u8
    &&& forall|j: int|
        #![trigger resp[3 + j / 8], wrap(start, j)]
        0 <= j < 8 * n ==> ((resp[3 + j / 8] >> ((j % 8) as u8)) & 1u8 == 1u8) == (j < qty
            && bits.bit_value(wrap(start, j) as u16))
}

/// Whether `resp` is the normal answer to a register read of `qty` registers
/// from `start` out of `regs`: unit, function, byte count `2 * qty` (modulo
/// 256), then each
/// register high byte first, then the CRC.
pub open spec fn is_reg_answer<R: RegisterRead>(resp: Seq<u8>, regs: &R, unit_id: u8, func: u8, start: int, qty: int) -> bool {
    &&& crc_framed(resp, resp.take(3 + 2 * qty))
    &&& resp[0] == unit_id
    &&& resp[1] == func
    &&& resp[2] as int == (2 * qty) % 256
    &&& forall|j: int|
        #![trigger wrap(start, j)]
        0 <= j < qty ==> word(resp[3 + 2 * j], resp[4 + 2 * j]) == regs.reg_value(wrap(start, j) as u16)
}

/// A bit read whose quantity and range pass the checks is answered normally.
#[verifier::spinoff_prover]
#[verifier::rlimit(40)]
proof fn lemma_bit_read_answer<B: BitRead>(bits: &B, req: Seq<u8>, max_qty: int)
    requires
        req.len() == 8,
        1 <= word(req[4], req[5]) <= max_qty,
        bits.bit_valid(word(req[2], req[3]) as u16),
        bits.bit_valid(wrap(word(req[2], req[3]), word(req[4], req[5]) - 1) as u16),
    ensures
        ({
            let r = bit_read_reply(bits, req[0], req[1], req_start(req), req_qty(req), max_qty);
            &&& !r.0
            &&& is_bit_answer(r.1, bits, req[0], req[1], word(req[2], req[3]), word(req[4], req[5]))
        }),
{
    let s16 = req_start(req);
    let q16 = req_qty(req);
    lemma_bytes(0, req[2], req[3]);
    lemma_bytes(0, req[4], req[5]);
    lemma_addr(s16, q16 - 1);
    let s = word(req[2], req[3]);
    let q = word(req[4], req[5]);
    let n = (q + 7) / 8;
    let fl = read_bits(bits, s16, q16);
    let body = seq![req[0], req[1], n as u8] + pack_bits(fl);
    lemma_framed(body);
    let r = bit_read_reply(bits, req[0], req[1], s16, q16, max_qty);
    assert(!r.0 && r.1 == with_crc(body));
    assert(pack_bits(fl).len() == n);
    assert(body.len() == 3 + n);
    assert(r.1.take(3 + n) =~= body);
    assert(crc_framed(r.1, r.1.take(3 + n)));
    assert(r.1[0] == req[0] && r.1[1] == req[1] && r.1[2] == n as u8);
    assert forall|j: int|
        #![trigger r.1[3 + j / 8], wrap(s, j)]
        0 <= j < 8 * n implies ((r.1[3 + j / 8] >> ((j % 8) as u8)) & 1u8 == 1u8) == (j < q
            && bits.bit_value(wrap(s, j) as u16)) by {
        let k = j / 8;
        let m = j % 8;
        assert(r.1[3 + k] == body[3 + k]);
        assert(body[3 + k] == pack_bits(fl)[k]);
        lemma_pack_byte_bit(fl, k, m as u8);
        assert(8 * k + m == j);
        if j < q {
            lemma_addr(s16, j);
        }
    }
}

/// A register read whose quantity and range pass the checks, with a quantity
/// whose low byte is below 128, is answered normally.
#[verifier::spinoff_prover]
#[verifier::rlimit(40)]
proof fn lemma_reg_read_answer<R: RegisterRead>(regs: &R, req: Seq<u8>, max_qty: int)
    requires
        req.len() == 8,
        1 <= word(req[4], req[5]) <= max_qty,
        word(req[4], req[5]) % 256 < 128,
        regs.reg_valid(word(req[2], req[3]) as u16),
        regs.reg_valid(wrap(word(req[2], req[3]), word(req[4], req[5]) - 1) as u16),
    ensures
        ({
            let r = reg_read_reply(regs, req[0], req[1], req_start(req), req_qty(req), max_qty);
            let q = word(req[4], req[5]);
            &&& !r.0
            &&& is_reg_answer(r.1, regs, req[0], req[1], word(req[2], req[3]), q)
        }),
{
    let s16 = req_start(req);
    let q16 = req_qty(req);
    lemma_bytes(0, req[2], req[3]);
    lemma_bytes(0, req[4], req[5]);
    lemma_addr(s16, q16 - 1);
    let s = word(req[2], req[3]);
    let q = word(req[4], req[5]);
    let vals = read_regs(regs, s16, q16);
    let body = seq![req[0], req[1], crate::frame::reg_count_byte(q)] + reg_bytes(vals);
    lemma_framed(body);
    let r = reg_read_reply(regs, req[0], req[1], s16, q16, max_qty);
    assert(r.1 == with_crc(body));
    assert forall|j: int|
        #![trigger wrap(s, j)]
        0 <= j < q implies word(r.1[3 + 2 * j], r.1[4 + 2 * j]) == regs.reg_value(wrap(s, j) as u16) by {
        assert(r.1[3 + 2 * j] == body[3 + 2 * j]);
        assert(r.1[4 + 2 * j] == body[4 + 2 * j]);
        assert(body[3 + 2 * j] == reg_bytes(vals)[2 * j]);
        assert(body[4 + 2 * j] == reg_bytes(vals)[2 * j + 1]);
        assert((2 * j) / 2 == j && (2 * j + 1) / 2 == j && (2 * j) % 2 == 0 && (2 * j + 1) % 2 == 1);
        lemma_bytes(vals[j], 0, 0);
        lemma_addr(s16, j);
    }
    assert(r.1.take(3 + 2 * q) =~= body);
    assert(2 * (q % 256) == (2 * q) % 256);
}

/// Read requests (function codes 01 to 04) with the right CRC and a
/// quantity from 1 to `max_qty` whose first and last address lie in the store
/// that the function code names (coils, discrete inputs, holding registers,
/// input registers) are answered normally with that store's values, and
/// change no store. A register read needs a quantity whose low byte is below
/// 128 to be answerable at all.
#[verifier::spinoff_prover]
#[verifier::rlimit(40)]
pub proof fn law_read_answer<H: RegisterRead + RegisterWrite, I: RegisterRead, C: BitRead + BitWrite, D: BitRead>(
    h: H,
    i: I,
    c: C,
    d: D,
    req: Seq<u8>,
    max_qty: int,
)
    requires
        req.len() == 8,
        crc_right(req),
        1 <= word(req[4], req[5]) <= max_qty,
    ensures
        ({
            let o = on_pdu(h, i, c, d, req, max_qty);
            let s = word(req[2], req[3]);
            let q = word(req[4], req[5]);
            let last = wrap(s, q - 1) as u16;
            &&& req[1] == 0x01 && c.bit_valid(s as u16) && c.bit_valid(last) ==> !o.0
                && is_bit_answer(o.1, &c, req[0], 0x01, s, q) && o.2 == h && o.3 == c
            &&& req[1] == 0x02 && d.bit_valid(s as u16) && d.bit_valid(last) ==> !o.0
                && is_bit_answer(o.1, &d, req[0], 0x02, s, q) && o.2 == h && o.3 == c
            &&& req[1] == 0x03 && q % 256 < 128 && h.reg_valid(s as u16) && h.reg_valid(last) ==> !o.0
                && is_reg_answer(o.1, &h, req[0], 0x03, s, q) && o.2 == h && o.3 == c
            &&& req[1] == 0x04 && q % 256 < 128 && i.reg_valid(s as u16) && i.reg_valid(last) ==> !o.0
                && is_reg_answer(o.1, &i, req[0], 0x04, s, q) && o.2 == h && o.3 == c
        }),
{
    lemma_crc_right(req);
    lemma_bytes(0, req[2], req[3]);
    lemma_bytes(0, req[4], req[5]);
    lemma_addr(req_start(req), req_qty(req) - 1);
    if req[1] == 0x01 && c.bit_valid(req_start(req)) && c.bit_valid(wrap(word(req[2], req[3]), word(req[4], req[5]) - 1) as u16) {
        lemma_bit_read_answer(&c, req, max_qty);
    }
    if req[1] == 0x02 && d.bit_valid(req_start(req)) && d.bit_valid(wrap(word(req[2], req[3]), word(req[4], req[5]) - 1) as u16) {
        lemma_bit_read_answer(&d, req, max_qty);
    }
    if req[1] == 0x03 && word(req[4], req[5]) % 256 < 128 && h.reg_valid(req_start(req)) && h.reg_valid(wrap(word(req[2], req[3]), word(req[4], req[5]) - 1) as u16) {
        lemma_reg_read_answer(&h, req, max_qty);
    }
    if req[1] == 0x04 && word(req[4], req[5]) % 256 < 128 && i.reg_valid(req_start(req)) && i.reg_valid(wrap(word(req[2], req[3]), word(req[4], req[5]) - 1) as u16) {
        lemma_reg_read_answer(&i, req, max_qty);
    }
}

/// The answer to a read request depends only on the store that its function
/// code names: coils for 01, discrete inputs for 02, holding registers for
/// 03, input registers for 04.
pub proof fn law_read_uses_own_store<H: RegisterRead + RegisterWrite, I: RegisterRead, C: BitRead + BitWrite, D: BitRead>(
    h: H,
    i: I,
    c: C,
    d: D,
    h2: H,
    i2: I,
    c2: C,
    d2: D,
    req: Seq<u8>,
    max_qty: int,
)
    requires
        req.len() == 8,
    ensures
        req[1] == 0x01 ==> on_pdu(h, i, c, d, req, max_qty).1 == on_pdu(h2, i2, c, d2, req, max_qty).1,
        req[1] == 0x02 ==> on_pdu(h, i, c, d, req, max_qty).1 == on_pdu(h2, i2, c2, d, req, max_qty).1,
        req[1] == 0x03 ==> on_pdu(h, i, c, d, req, max_qty).1 == on_pdu(h, i2, c2, d2, req, max_qty).1,
        req[1] == 0x04 ==> on_pdu(h, i, c, d, req, max_qty).1 == on_pdu(h2, i, c2, d2, req, max_qty).1,
{
}

/// A read request (function codes 01 to 04) with the right CRC is refused with
/// ILLEGAL_DATA_VALUE when its quantity is 0 or above `max_qty`, and otherwise
/// with ILLEGAL_DATA_ADDRESS when its first or last address lies outside the
/// store that the function code names; a refusal is the unit id, the function
/// code with bit 0x80 set and the exception code, then their CRC.
pub proof fn law_read_refusals<H: RegisterRead + RegisterWrite, I: RegisterRead, C: BitRead + BitWrite, D: BitRead>(
    h: H,
    i: I,
    c: C,
    d: D,
    req: Seq<u8>,
    max_qty: int,
)
    requires
        req.len() == 8,
        crc_right(req),
        0x01 <= req[1] <= 0x04,
    ensures
        ({
            let o = on_pdu(h, i, c, d, req, max_qty);
            let s = word(req[2], req[3]);
            let q = word(req[4], req[5]);
            let last = wrap(s, q - 1) as u16;
            let in_range = if req[1] == 0x01 {
                c.bit_valid(s as u16) && c.bit_valid(last)
            } else if req[1] == 0x02 {
                d.bit_valid(s as u16) && d.bit_valid(last)
            } else if req[1] == 0x03 {
                h.reg_valid(s as u16) && h.reg_valid(last)
            } else {
                i.reg_valid(s as u16) && i.reg_valid(last)
            };
            &&& (q == 0 || q > max_qty) ==> o.0 && crc_framed(o.1, seq![req[0], req[1] | 0x80, 0x03])
            &&& (1 <= q <= max_qty && !in_range) ==> o.0 && crc_framed(o.1, seq![req[0], req[1] | 0x80, 0x02])
            &&& o.2 == h && o.3 == c
        }),
{
    lemma_crc_right(req);
    lemma_bytes(0, req[2], req[3]);
    lemma_bytes(0, req[4], req[5]);
    let q = word(req[4], req[5]);
    if q >= 1 {
        lemma_addr(req_start(req), req_qty(req) - 1);
    }
    lemma_framed(seq![req[0], req[1] | 0x80, 0x03]);
    lemma_framed(seq![req[0], req[1] | 0x80, 0x02]);
}

/// A Write Single Coil request (function code 05) with the right CRC, the
/// value 0xFF00 (on) or 0x0000 (off) and an address inside the coils is
/// answered normally with an echo of the request; that coil then holds the
/// value, every other coil and the recorded quantity are as before, and the
/// holding registers are untouched.
#[verifier::spinoff_prover]
pub proof fn law_write_coil_answer<const N: usize, H: RegisterRead + RegisterWrite, I: RegisterRead, D: BitRead>(
    h: H,
    i: I,
    c: Coil<N>,
    d: D,
    req: Seq<u8>,
    max_qty: int,
)
    requires
        req.len() == 8,
        crc_right(req),
        req[1] == 0x05,
        word(req[4], req[5]) == 0xFF00 || word(req[4], req[5]) == 0,
        word(req[2], req[3]) < N,
    ensures
        ({
            let o = on_pdu(h, i, c, d, req, max_qty);
            let s = word(req[2], req[3]) as u16;
            &&& !o.0
            &&& crc_framed(o.1, req.take(6))
            &&& o.2 == h
            &&& o.3.bit_value(s) == (word(req[4], req[5]) == 0xFF00)
            &&& forall|a: u16| a != s ==> #[trigger] o.3.bit_value(a) == c.bit_value(a)
            &&& o.3.qty() == c.qty()
        }),
{
    let s16 = req_start(req);
    let q16 = req_qty(req);
    lemma_bytes(0, req[2], req[3]);
    lemma_bytes(0, req[4], req[5]);
    lemma_crc_right(req);
    assert(seq![req[0], 0x05u8, hi_byte(s16), lo_byte(s16), hi_byte(q16), lo_byte(q16)] =~= req.take(6));
    lemma_framed(req.take(6));
    c.lemma_with_bit(s16, q16 == 0xFF00);
    c.lemma_len();
}

/// A Write Single Register request (function code 06) with the right CRC and
/// an address inside the holding registers is answered normally with an echo
/// of the request; that register then holds the value, every other register
/// and the recorded quantity are as before, and the coils are untouched.
#[verifier::spinoff_prover]
pub proof fn law_write_reg_answer<const N: usize, I: RegisterRead, C: BitRead + BitWrite, D: BitRead>(
    h: Hreg<N>,
    i: I,
    c: C,
    d: D,
    req: Seq<u8>,
    max_qty: int,
)
    requires
        req.len() == 8,
        crc_right(req),
        req[1] == 0x06,
        word(req[2], req[3]) < N,
    ensures
        ({
            let o = on_pdu(h, i, c, d, req, max_qty);
            let s = word(req[2], req[3]) as u16;
            &&& !o.0
            &&& crc_framed(o.1, req.take(6))
            &&& o.3 == c
            &&& o.2.reg_value(s) == word(req[4], req[5])
            &&& forall|a: u16| a != s ==> #[trigger] o.2.reg_value(a) == h.reg_value(a)
            &&& o.2.qty() == h.qty()
        }),
{
    let s16 = req_start(req);
    let q16 = req_qty(req);
    lemma_bytes(0, req[2], req[3]);
    lemma_bytes(0, req[4], req[5]);
    lemma_crc_right(req);
    assert(seq![req[0], 0x06u8, hi_byte(s16), lo_byte(s16), hi_byte(q16), lo_byte(q16)] =~= req.take(6));
    lemma_framed(req.take(6));
    h.lemma_with_reg(s16, q16);
    h.lemma_len();
}

/// Single writes (function codes 05, 06) with the right CRC are refused: a
/// coil value other than 0xFF00 and 0x0000 with ILLEGAL_DATA_VALUE, an address
/// outside the store with ILLEGAL_DATA_ADDRESS; a refusal changes no store.
#[verifier::spinoff_prover]
pub proof fn law_single_write_refusals<H: RegisterRead + RegisterWrite, I: RegisterRead, C: BitRead + BitWrite, D: BitRead>(
    h: H,
    i: I,
    c: C,
    d: D,
    req: Seq<u8>,
    max_qty: int,
)
    requires
        req.len() == 8,
        crc_right(req),
    ensures
        ({
            let o = on_pdu(h, i, c, d, req, max_qty);
            let s = word(req[2], req[3]) as u16;
            let v = word(req[4], req[5]);
            &&& req[1] == 0x05 && v != 0xFF00 && v != 0 ==> o.0 && crc_framed(o.1, seq![req[0], 0x85u8, 0x03u8])
            &&& req[1] == 0x05 && (v == 0xFF00 || v == 0) && !c.bit_valid(s) ==> o.0 && crc_framed(
                o.1,
                seq![req[0], 0x85u8, 0x02u8],
            )
            &&& req[1] == 0x06 && !h.reg_valid(s) ==> o.0 && crc_framed(o.1, seq![req[0], 0x86u8, 0x02u8])
            &&& o.0 ==> o.2 == h && o.3 == c
        }),
{
    lemma_bytes(0, req[2], req[3]);
    lemma_bytes(0, req[4], req[5]);
    lemma_crc_right(req);
    lemma_framed(seq![req[0], 0x85u8, 0x03u8]);
    lemma_framed(seq![req[0], 0x85u8, 0x02u8]);
    lemma_framed(seq![req[0], 0x86u8, 0x02u8]);
    assert(0x05u8 | 0x80u8 == 0x85u8) by (bit_vector);
    assert(0x06u8 | 0x80u8 == 0x86u8) by (bit_vector);
}

/// Frames that cannot be served are refused with an exception and change no
/// store: a frame shorter than eight bytes with function byte 0x80 and
/// ILLEGAL_DATA_VALUE (unit id 0 when the frame is empty); a longer frame with
/// a wrong CRC, or whose length does not fit its function code, with
/// ILLEGAL_DATA_VALUE; a function code other than 01 to 06, 15 and 16 with
/// ILLEGAL_FUNCTION. The eight-byte handler refuses a wrong CRC and any
/// function code other than 01 to 06 alike.
#[verifier::spinoff_prover]
pub proof fn law_frame_refusals<H: RegisterRead + RegisterWrite, I: RegisterRead, C: BitRead + BitWrite, D: BitRead>(
    h: H,
    i: I,
    c: C,
    d: D,
    req: Seq<u8>,
    max_qty: int,
)
    ensures
        ({
            let o = on_frame(h, i, c, d, req, max_qty);
            &&& req.len() < 8 ==> o.0 && crc_framed(
                o.1,
                seq![if req.len() > 0 { req[0] } else { 0u8 }, 0x80u8, 0x03u8],
            )
            &&& req.len() >= 8 && !crc_right(req) ==> o.0 && crc_framed(
                o.1,
                seq![req[0], req[1] | 0x80u8, 0x03u8],
            )
            &&& req.len() >= 8 && crc_right(req) && 0x01 <= req[1] <= 0x06 && req.len() != 8 ==> o.0
                && crc_framed(o.1, seq![req[0], req[1] | 0x80u8, 0x03u8])
            &&& req.len() >= 8 && crc_right(req) && (req[1] == 0x0F || req[1] == 0x10) && req.len()
                != 9 + req[6] ==> o.0 && crc_framed(o.1, seq![req[0], req[1] | 0x80u8, 0x03u8])
            &&& req.len() >= 8 && crc_right(req) && !(0x01 <= req[1] <= 0x06 || req[1] == 0x0F
                || req[1] == 0x10) ==> o.0 && crc_framed(o.1, seq![req[0], req[1] | 0x80u8, 0x01u8])
            &&& o.0 ==> o.2 == h && o.3 == c
        }),
        ({
            let o = on_pdu(h, i, c, d, req, max_qty);
            &&& req.len() == 8 && !crc_right(req) ==> o.0 && crc_framed(
                o.1,
                seq![req[0], req[1] | 0x80u8, 0x03u8],
            )
            &&& req.len() == 8 && crc_right(req) && !(0x01 <= req[1] <= 0x06) ==> o.0 && crc_framed(
                o.1,
                seq![req[0], req[1] | 0x80u8, 0x01u8],
            )
            &&& o.0 ==> o.2 == h && o.3 == c
        }),
{
    if req.len() >= 2 {
        lemma_crc_right(req);
    }
    if req.len() >= 2 {
        lemma_framed(seq![req[0], req[1] | 0x80u8, 0x03u8]);
        lemma_framed(seq![req[0], req[1] | 0x80u8, 0x01u8]);
    }
    lemma_framed(seq![if req.len() > 0 { req[0] } else { 0u8 }, 0x80u8, 0x03u8]);
}

/// Multiple writes (function codes 15, 16) with the right CRC and length are
/// refused with ILLEGAL_DATA_VALUE when the quantity is 0 or above `max_qty`,
/// else with ILLEGAL_DATA_ADDRESS when the first or last address lies outside
/// the store, else with ILLEGAL_DATA_VALUE when the byte count is not
/// `ceil(quantity / 8)` (coils) or `2 * quantity` (registers); a refusal
/// changes no store.
#[verifier::spinoff_prover]
pub proof fn law_multi_write_refusals<H: RegisterRead + RegisterWrite, I: RegisterRead, C: BitRead + BitWrite, D: BitRead>(
    h: H,
    i: I,
    c: C,
    d: D,
    req: Seq<u8>,
    max_qty: int,
)
    requires
        req.len() >= 9,
        crc_right(req),
        req[1] == 0x0F || req[1] == 0x10,
        req.len() == 9 + req[6],
    ensures
        ({
            let o = on_frame(h, i, c, d, req, max_qty);
            let s = word(req[2], req[3]);
            let q = word(req[4], req[5]);
            let last = wrap(s, q - 1) as u16;
            let in_range = if req[1] == 0x0F {
                c.bit_valid(s as u16) && c.bit_valid(last)
            } else {
                h.reg_valid(s as u16) && h.reg_valid(last)
            };
            let count_ok = if req[1] == 0x0F {
                req[6] == (q + 7) / 8
            } else {
                req[6] == 2 * q
            };
            &&& (q == 0 || q > max_qty) ==> o.0 && crc_framed(o.1, seq![req[0], req[1] | 0x80u8, 0x03u8])
            &&& 1 <= q <= max_qty && !in_range ==> o.0 && crc_framed(
                o.1,
                seq![req[0], req[1] | 0x80u8, 0x02u8],
            )
            &&& 1 <= q <= max_qty && in_range && !count_ok ==> o.0 && crc_framed(
                o.1,
                seq![req[0], req[1] | 0x80u8, 0x03u8],
            )
            &&& o.0 ==> o.2 == h && o.3 == c
        }),
{
    lemma_crc_right(req);
    lemma_bytes(0, req[2], req[3]);
    lemma_bytes(0, req[4], req[5]);
    if word(req[4], req[5]) >= 1 {
        lemma_addr(req_start(req), req_qty(req) - 1);
    }
    lemma_framed(seq![req[0], req[1] | 0x80u8, 0x03u8]);
    lemma_framed(seq![req[0], req[1] | 0x80u8, 0x02u8]);
}

} // verus!
