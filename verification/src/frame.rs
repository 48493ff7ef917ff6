//! Building response frames: byte layouts, bit packing and the CRC trailer.
use vstd::prelude::*;
use crate::crc::{crc16, crc16_modbus};
use crate::store::{BitRead, RegisterRead};

verus! {

/// The high byte of a 16-bit value.
pub open spec fn hi_byte(v: u16) -> u8 {
    (v >> 8u16) as u8
}

/// The low byte of a 16-bit value.
pub open spec fn lo_byte(v: u16) -> u8 {
    (v & 0xFFu16) as u8
}

/// The 16-bit value whose high byte is `hi` and low byte is `lo`.
pub open spec fn be16(hi: u8, lo: u8) -> u16 {
    (hi * 256 + lo) as u16
}

/// `body` followed by its CRC16, low byte first.
pub open spec fn with_crc(body: Seq<u8>) -> Seq<u8> {
    body.push(lo_byte(crc16(body))).push(hi_byte(crc16(body)))
}

/// Exception response: unit id, function code with the error bit, exception code, CRC.
pub open spec fn exception_frame(unit_id: u8, function_exception: u8, exception_code: u8) -> Seq<u8> {
    with_crc(seq![unit_id, function_exception, exception_code])
}

/// The address `j` places after `start`, wrapping around at 0x10000.
pub open spec fn addr_at(start: u16, j: int) -> u16 {
    if start + j > u16::MAX {
        (start + j - 0x10000) as u16
    } else {
        (start + j) as u16
    }
}

/// 1 when bit `p` of `f` exists and is set, else 0.
pub open spec fn flag_bit(f: Seq<bool>, p: int) -> u8 {
    if 0 <= p < f.len() && f[p] {
        1
    } else {
        0
    }
}

/// Byte `k` of the LSB-first packing of `f`: bit `i` holds `f[8k + i]`,
/// and bits past the end of `f` are 0.
pub open spec fn pack_byte(f: Seq<bool>, k: int) -> u8 {
    (flag_bit(f, 8 * k) + 2 * flag_bit(f, 8 * k + 1) + 4 * flag_bit(f, 8 * k + 2) + 8 * flag_bit(
        f,
        8 * k + 3,
    ) + 16 * flag_bit(f, 8 * k + 4) + 32 * flag_bit(f, 8 * k + 5) + 64 * flag_bit(f, 8 * k + 6)
        + 128 * flag_bit(f, 8 * k + 7)) as u8
}

/// Number of bytes needed to pack `n` bits.
pub open spec fn packed_len(n: int) -> int {
    (n + 7) / 8
}

/// The LSB-first packing of `f` into bytes.
pub open spec fn pack_bits(f: Seq<bool>) -> Seq<u8> {
    Seq::new(packed_len(f.len() as int) as nat, |k: int| pack_byte(f, k))
}

/// Whether bit `i` of `x` is set.
pub open spec fn bit_of(x: u8, i: u8) -> bool {
    (x >> i) & 1u8 == 1u8
}

/// Each register as two bytes, high byte first.
pub open spec fn reg_bytes(vals: Seq<u16>) -> Seq<u8> {
    Seq::new(
        2 * vals.len(),
        |p: int|
            if p % 2 == 0 {
                hi_byte(vals[p / 2])
            } else {
                lo_byte(vals[p / 2])
            },
    )
}

/// The bits that `bits` holds from `start` on, `qty` of them.
pub open spec fn read_bits<B: BitRead>(bits: &B, start: u16, qty: u16) -> Seq<bool> {
    Seq::new(qty as nat, |j: int| bits.bit_value(addr_at(start, j)))
}

/// The registers that `regs` holds from `start` on, `qty` of them.
pub open spec fn read_regs<R: RegisterRead>(regs: &R, start: u16, qty: u16) -> Seq<u16> {
    Seq::new(qty as nat, |j: int| regs.reg_value(addr_at(start, j)))
}

/// Response to a bit read (function codes 01, 02): unit, function, byte count,
/// packed bits, CRC.
pub open spec fn bit_read_frame(unit_id: u8, func: u8, f: Seq<bool>) -> Seq<u8> {
    with_crc(seq![unit_id, func, packed_len(f.len() as int) as u8] + pack_bits(f))
}

/// The byte-count field of a register read response for `n` registers: twice
/// the low byte of `n`.
pub open spec fn reg_count_byte(n: int) -> u8 {
    (2 * (n % 256)) as u8
}

/// Response to a register read (function codes 03, 04): unit, function, byte
/// count, registers high byte first, CRC.
pub open spec fn reg_read_frame(unit_id: u8, func: u8, vals: Seq<u16>) -> Seq<u8> {
    with_crc(seq![unit_id, func, reg_count_byte(vals.len() as int)] + reg_bytes(vals))
}

/// `frame` written at the start of `buf`, the rest of `buf` kept.
pub open spec fn written(buf: Seq<u8>, frame: Seq<u8>) -> Seq<u8> {
    frame + buf.skip(frame.len() as int)
}

/// Builds the 16-bit value whose high byte is `hi` and low byte is `lo`.
pub fn u16_from_bytes(hi: u8, lo: u8) -> (v: u16)
    ensures
        v == be16(hi, lo),
{
    (hi as u16) * 256 + (lo as u16)
}

/// Writes the CRC of `out[..body_len]` behind it, low byte first.
pub(crate) fn append_crc(out: &mut [u8], body_len: usize) -> (n: usize)
    requires
        body_len + 2 <= old(out)@.len(),
    ensures
        n == body_len + 2,
        final(out)@ == written(old(out)@, with_crc(old(out)@.take(body_len as int))),
{
    let crc = crc16_modbus(&out[0..body_len]);
    out[body_len] = (crc & 0xFF) as u8;
    out[body_len + 1] = (crc >> 8) as u8;
    assert(out@ =~= written(old(out)@, with_crc(old(out)@.take(body_len as int))));
    body_len + 2
}

/// Builds an exception response into `out`: unit id, `function_exception`
/// (the function code with 0x80 set), `exception_code`, CRC. Returns its
/// length, 5.
pub fn build_exception_resp<const BUF: usize>(
    out: &mut [u8; BUF],
    unit_id: u8,
    function_exception: u8,
    exception_code: u8,
) -> (n: usize)
    requires
        BUF >= 5,
    ensures
        n == 5,
        final(out)@ == written(old(out)@, exception_frame(unit_id, function_exception, exception_code)),
{
    out[0] = unit_id;
    out[1] = function_exception;
    out[2] = exception_code;
    let crc = crc16_modbus(&out.as_slice()[0..3]);
    assert(out@.subrange(0, 3) =~= seq![unit_id, function_exception, exception_code]);
    out[3] = (crc & 0xFF) as u8;
    out[4] = (crc >> 8) as u8;
    assert(out@ =~= written(old(out)@, exception_frame(unit_id, function_exception, exception_code)));
    5
}

/// Builds the response to a bit read (function codes 01, 02) into `out`:
/// unit id, `func`, byte count, the `quantity` bits of `bits` from
/// `start_addr` on (addresses wrap at 0x10000) packed LSB-first, CRC.
/// Returns the length of the response.
pub fn build_resp_bit_reads<const MAX_QTY: usize, B: BitRead>(
    out: &mut [u8],
    unit_id: u8,
    func: u8,
    start_addr: u16,
    quantity: u16,
    bits: &B,
) -> (n: usize)
    requires
        old(out)@.len() >= 5 + packed_len(quantity as int),
    ensures
        n == 5 + packed_len(quantity as int),
        final(out)@ == written(
            old(out)@,
            bit_read_frame(unit_id, func, read_bits(bits, start_addr, quantity)),
        ),
{
    let ghost f = read_bits(bits, start_addr, quantity);
    let qty = quantity as usize;
    let byte_cnt = (qty + 7) / 8;

    out[0] = unit_id;
    out[1] = func;
    out[2] = byte_cnt as u8;

    for i in 0..byte_cnt
        invariant
            byte_cnt == packed_len(qty as int),
            qty == quantity,
            out@.len() == old(out)@.len(),
            old(out)@.len() >= 5 + byte_cnt,
            out@.subrange(0, 3) == seq![unit_id, func, byte_cnt as u8],
            forall|p: int| 3 <= p < 3 + i ==> out@[p] == 0,
            forall|p: int| 3 + byte_cnt <= p < out@.len() ==> out@[p] == old(out)@[p],
    {
        out[3 + i] = 0;
    }

    for j in 0..qty
        invariant
            byte_cnt == packed_len(qty as int),
            qty == quantity,
            f == read_bits(bits, start_addr, quantity),
            out@.len() == old(out)@.len(),
            old(out)@.len() >= 5 + byte_cnt,
            out@.subrange(0, 3) == seq![unit_id, func, byte_cnt as u8],
            forall|p: int| 3 <= p < 3 + byte_cnt ==> out@[p] == pack_byte(f.take(j as int), p - 3),
            forall|p: int| 3 + byte_cnt <= p < out@.len() ==> out@[p] == old(out)@[p],
    {
        let addr = start_addr.wrapping_add(j as u16);
        let bit = bits.get(addr);
        proof {
            lemma_pack_step(f, j as int);
        }
        if bit {
            let byte_i = j / 8;
            let bit_i = (j % 8) as u8;
            out[3 + byte_i] = out[3 + byte_i] | (1u8 << bit_i);
        }
    }

    let body_len = 3 + byte_cnt;
    proof {
        assert(f.take(qty as int) =~= f);
        assert(out@.take(body_len as int) =~= seq![unit_id, func, packed_len(f.len() as int) as u8]
            + pack_bits(f));
    }
    append_crc(out, body_len)
}

/// Builds an exception response into the five-byte buffer `out_exc`.
pub(crate) fn build_exception_resp_fixed<const BUF: usize>(
    out_exc: &mut [u8; 5],
    unit_id: u8,
    function_exception: u8,
    exception_code: u8,
) -> (n: usize)
    ensures
        n == 5,
        final(out_exc)@ == exception_frame(unit_id, function_exception, exception_code),
{
    out_exc[0] = unit_id;
    out_exc[1] = function_exception;
    out_exc[2] = exception_code;
    let crc = crc16_modbus(&out_exc.as_slice()[0..3]);
    assert(out_exc@.subrange(0, 3) =~= seq![unit_id, function_exception, exception_code]);
    out_exc[3] = (crc & 0xFF) as u8;
    out_exc[4] = (crc >> 8) as u8;
    assert(out_exc@ =~= exception_frame(unit_id, function_exception, exception_code));
    5
}

/// Builds the response to a register read (function codes 03, 04) into
/// `out_tx`: unit id, `func`, byte count, the `quantity` registers of `regs`
/// from `start_addr` on (addresses wrap at 0x10000) high byte first, CRC.
/// Returns the length of the response.
pub(crate) fn build_resp_regs<const MAX_QTY: usize, R: RegisterRead>(
    out_tx: &mut [u8],
    unit_id: u8,
    func: u8,
    start_addr: u16,
    quantity: u16,
    regs: &R,
) -> (n: usize)
    requires
        quantity % 256 < 128,
        old(out_tx)@.len() >= 5 + 2 * quantity,
    ensures
        n == 5 + 2 * quantity,
        final(out_tx)@ == written(
            old(out_tx)@,
            reg_read_frame(unit_id, func, read_regs(regs, start_addr, quantity)),
        ),
{
    let ghost vals = read_regs(regs, start_addr, quantity);
    let qty = quantity as usize;

    out_tx[0] = unit_id;
    out_tx[1] = func;
    assert((qty as u8) == quantity % 256) by (bit_vector)
        requires
            qty == quantity,
    ;
    out_tx[2] = (qty as u8) * 2;

    for i in 0..qty
        invariant
            qty == quantity,
            vals == read_regs(regs, start_addr, quantity),
            out_tx@.len() == old(out_tx)@.len(),
            old(out_tx)@.len() >= 5 + 2 * qty,
            out_tx@.subrange(0, 3) == seq![unit_id, func, reg_count_byte(qty as int)],
            forall|p: int| 3 <= p < 3 + 2 * i ==> out_tx@[p] == reg_bytes(vals)[p - 3],
            forall|p: int| 3 + 2 * i <= p < out_tx@.len() ==> out_tx@[p] == old(out_tx)@[p],
    {
        let addr = start_addr.wrapping_add(i as u16);
        let v = regs.get(addr);
        let base = 3 + i * 2;
        out_tx[base] = (v >> 8) as u8;
        out_tx[base + 1] = (v & 0xFF) as u8;
        assert(reg_bytes(vals)[2 * i] == hi_byte(v));
        assert(reg_bytes(vals)[2 * i + 1] == lo_byte(v));
    }

    let body_len = 3 + qty * 2;
    proof {
        assert(out_tx@.take(body_len as int) =~= seq![unit_id, func, reg_count_byte(vals.len() as int)]
            + reg_bytes(vals));
    }
    append_crc(out_tx, body_len)
}

/// Splitting a 16-bit value into its bytes and joining them gives it back.
pub proof fn lemma_be16_split(v: u16)
    ensures
        be16(hi_byte(v), lo_byte(v)) == v,
{
    let hi = hi_byte(v);
    let lo = lo_byte(v);
    assert(hi as int == (v as int) / 256 && lo as int == (v as int) % 256) by (bit_vector)
        requires
            hi == (v >> 8u16) as u8,
            lo == (v & 0xFFu16) as u8,
    ;
}

/// A frame built by `with_crc` ends with the CRC of what precedes it.
pub proof fn lemma_with_crc_parts(body: Seq<u8>)
    ensures
        with_crc(body).len() == body.len() + 2,
        with_crc(body).take(body.len() as int) == body,
        be16(with_crc(body)[body.len() + 1int], with_crc(body)[body.len() as int]) == crc16(body),
{
    lemma_be16_split(crc16(body));
    assert(with_crc(body).take(body.len() as int) =~= body);
}

/// Bit `i` of a packed byte is the flag it packs.
pub proof fn lemma_pack_byte_bit(f: Seq<bool>, k: int, i: u8)
    requires
        i < 8,
    ensures
        bit_of(pack_byte(f, k), i) == (flag_bit(f, 8 * k + i) == 1),
{
    let b0 = flag_bit(f, 8 * k);
    let b1 = flag_bit(f, 8 * k + 1);
    let b2 = flag_bit(f, 8 * k + 2);
    let b3 = flag_bit(f, 8 * k + 3);
    let b4 = flag_bit(f, 8 * k + 4);
    let b5 = flag_bit(f, 8 * k + 5);
    let b6 = flag_bit(f, 8 * k + 6);
    let b7 = flag_bit(f, 8 * k + 7);
    let x = pack_byte(f, k);
    assert(x == b0 + 2 * b1 + 4 * b2 + 8 * b3 + 16 * b4 + 32 * b5 + 64 * b6 + 128 * b7);
    assert({
        &&& bit_of(x, 0) == (b0 == 1)
        &&& bit_of(x, 1) == (b1 == 1)
        &&& bit_of(x, 2) == (b2 == 1)
        &&& bit_of(x, 3) == (b3 == 1)
        &&& bit_of(x, 4) == (b4 == 1)
        &&& bit_of(x, 5) == (b5 == 1)
        &&& bit_of(x, 6) == (b6 == 1)
        &&& bit_of(x, 7) == (b7 == 1)
    }) by (bit_vector)
        requires
            b0 <= 1 && b1 <= 1 && b2 <= 1 && b3 <= 1 && b4 <= 1 && b5 <= 1 && b6 <= 1 && b7 <= 1,
            x == b0 + 2 * b1 + 4 * b2 + 8 * b3 + 16 * b4 + 32 * b5 + 64 * b6 + 128 * b7,
    ;
}

/// Values of `1u8 << m`.
proof fn lemma_shl_values(m: u8)
    requires
        m < 8,
    ensures
        m == 0 ==> 1u8 << m == 1,
        m == 1 ==> 1u8 << m == 2,
        m == 2 ==> 1u8 << m == 4,
        m == 3 ==> 1u8 << m == 8,
        m == 4 ==> 1u8 << m == 16,
        m == 5 ==> 1u8 << m == 32,
        m == 6 ==> 1u8 << m == 64,
        m == 7 ==> 1u8 << m == 128,
{
    assert(m == 0 ==> 1u8 << m == 1) by (bit_vector);
    assert(m == 1 ==> 1u8 << m == 2) by (bit_vector);
    assert(m == 2 ==> 1u8 << m == 4) by (bit_vector);
    assert(m == 3 ==> 1u8 << m == 8) by (bit_vector);
    assert(m == 4 ==> 1u8 << m == 16) by (bit_vector);
    assert(m == 5 ==> 1u8 << m == 32) by (bit_vector);
    assert(m == 6 ==> 1u8 << m == 64) by (bit_vector);
    assert(m == 7 ==> 1u8 << m == 128) by (bit_vector);
}

/// Setting a bit above all set bits adds it.
proof fn lemma_or_high_bit(x: u8, m: u8)
    requires
        m < 8,
        x < (1u8 << m),
    ensures
        x | (1u8 << m) == x + (1u8 << m),
{
    assert(m < 8 && x < (1u8 << m) ==> x | (1u8 << m) == x + (1u8 << m)) by (bit_vector);
}

/// Two flag sequences that agree on the eight flags of byte `k` pack that
/// byte alike.
proof fn lemma_pack_byte_same_flags(g: Seq<bool>, h: Seq<bool>, k: int)
    requires
        forall|p: int| 8 * k <= p < 8 * k + 8 ==> #[trigger] flag_bit(h, p) == flag_bit(g, p),
    ensures
        pack_byte(h, k) == pack_byte(g, k),
{
}

/// Packing a prefix that is one bit longer changes only the byte holding that
/// bit, and sets the bit there when it is set.
proof fn lemma_pack_step(f: Seq<bool>, j: int)
    requires
        0 <= j < f.len(),
    ensures
        pack_byte(f.take(j + 1), j / 8) == (if f[j] {
            pack_byte(f.take(j), j / 8) | (1u8 << ((j % 8) as u8))
        } else {
            pack_byte(f.take(j), j / 8)
        }),
        forall|k: int| k != j / 8 ==> pack_byte(#[trigger] f.take(j + 1), k) == pack_byte(f.take(j), k),
{
    let g = f.take(j);
    let h = f.take(j + 1);
    let k = j / 8;
    let m = j % 8;
    assert forall|p: int| p != j implies flag_bit(h, p) == flag_bit(g, p) by {}
    assert(flag_bit(g, j) == 0);
    assert(flag_bit(h, j) == flag_bit(f, j));
    assert forall|p: int| p > j implies flag_bit(h, p) == 0 && flag_bit(g, p) == 0 by {}
    assert forall|k2: int| k2 != k implies pack_byte(#[trigger] f.take(j + 1), k2) == pack_byte(f.take(j), k2) by {
        lemma_pack_byte_same_flags(g, h, k2);
    }
    if f[j] {
        let mu = m as u8;
        lemma_shl_values(mu);
        assert(j == 8 * k + m);
        assert(flag_bit(g, 8 * k) <= 1);
        assert((pack_byte(g, k) as int) < (1u8 << mu) as int) by {
            assert(flag_bit(g, 8 * k + 1) <= 1 && flag_bit(g, 8 * k + 2) <= 1 && flag_bit(g, 8 * k + 3) <= 1);
            assert(flag_bit(g, 8 * k + 4) <= 1 && flag_bit(g, 8 * k + 5) <= 1 && flag_bit(g, 8 * k + 6) <= 1);
            assert(flag_bit(g, 8 * k + 7) <= 1);
        }
        lemma_or_high_bit(pack_byte(g, k), mu);
    } else {
        lemma_pack_byte_same_flags(g, h, k);
    }
}

} // verus!
