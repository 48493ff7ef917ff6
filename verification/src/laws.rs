//! Properties of the library as a whole, stated over the specifications that
//! the functions' contracts use.
use vstd::prelude::*;
use crate::crc::{crc16, law_crc_residue};
use crate::ctx::{
    crc_ok, decode_regs, frame_len, on_frame, on_pdu, req_qty, req_start, unpack_bits, write_bits,
    write_regs,
};
use crate::frame::{
    addr_at, bit_read_frame, lemma_be16_split, lemma_pack_byte_bit, lemma_with_crc_parts,
    pack_bits, read_bits, read_regs, reg_bytes, reg_read_frame, with_crc,
};
use crate::store::{BitRead, BitWrite, Coil, Hreg, RegisterRead, RegisterWrite};
use crate::rtu::{drain, drain_pdus, rx_step, RxStep};

verus! {

/// Unpacking the LSB-first packing of a bit sequence gives the sequence back:
/// what a coil read (function code 01) encodes, a multiple coil write
/// (function code 15) decodes.
pub proof fn law_unpack_pack(f: Seq<bool>)
    ensures
        unpack_bits(pack_bits(f), f.len() as int) == f,
{
    assert forall|j: int| 0 <= j < f.len() implies #[trigger] unpack_bits(pack_bits(f), f.len() as int)[j] == f[j] by {
        lemma_pack_byte_bit(f, j / 8, (j % 8) as u8);
        assert(8 * (j / 8) + (j % 8) == j);
    }
    assert(unpack_bits(pack_bits(f), f.len() as int) =~= f);
}

/// Decoding the big-endian encoding of registers gives the registers back:
/// what a register read (function code 03) encodes, a multiple register
/// write (function code 16) decodes.
pub proof fn law_decode_encode_regs(vals: Seq<u16>)
    ensures
        decode_regs(reg_bytes(vals), vals.len() as int) == vals,
{
    assert forall|j: int| 0 <= j < vals.len() implies #[trigger] decode_regs(reg_bytes(vals), vals.len() as int)[j] == vals[j] by {
        lemma_be16_split(vals[j]);
        assert((2 * j) / 2 == j);
        assert((2 * j + 1) / 2 == j);
    }
    assert(decode_regs(reg_bytes(vals), vals.len() as int) =~= vals);
}

/// Every frame built by appending a CRC passes the CRC check that requests
/// undergo.
pub proof fn law_crc_frame_checks(body: Seq<u8>)
    ensures
        crc_ok(with_crc(body)),
{
    lemma_with_crc_parts(body);
}

/// An eight-byte request of function codes 01 to 06 is answered by
/// `pharse_frame` exactly as by `pharse_pdu`.
pub proof fn law_frame_agrees_with_pdu<H: RegisterRead + RegisterWrite, I: RegisterRead, C: BitRead + BitWrite, D: BitRead>(
    h: H,
    i: I,
    c: C,
    d: D,
    req: Seq<u8>,
    max_qty: int,
)
    requires
        req.len() == 8,
        0x01 <= req[1] <= 0x06,
    ensures
        on_frame(h, i, c, d, req, max_qty) == on_pdu(h, i, c, d, req, max_qty),
{
}

/// Every answer, normal or exception, ends with the CRC of what precedes it,
/// so the CRC of the whole answer is 0.
pub proof fn law_answers_carry_crc<H: RegisterRead + RegisterWrite, I: RegisterRead, C: BitRead + BitWrite, D: BitRead>(
    h: H,
    i: I,
    c: C,
    d: D,
    req: Seq<u8>,
    max_qty: int,
)
    ensures
        crc_ok(on_frame(h, i, c, d, req, max_qty).1),
        crc16(on_frame(h, i, c, d, req, max_qty).1) == 0,
{
    assert forall|b: Seq<u8>| crc_ok(#[trigger] with_crc(b)) && crc16(with_crc(b)) == 0 by {
        lemma_with_crc_parts(b);
        law_crc_residue(b);
    }
}

/// A request refused with an exception changes no store.
pub proof fn law_exceptions_keep_stores<H: RegisterRead + RegisterWrite, I: RegisterRead, C: BitRead + BitWrite, D: BitRead>(
    h: H,
    i: I,
    c: C,
    d: D,
    req: Seq<u8>,
    max_qty: int,
)
    ensures
        on_frame(h, i, c, d, req, max_qty).0 ==> on_frame(h, i, c, d, req, max_qty).2 == h
            && on_frame(h, i, c, d, req, max_qty).3 == c,
{
}

/// Read requests (function codes 01 to 04) change no store.
pub proof fn law_reads_keep_stores<H: RegisterRead + RegisterWrite, I: RegisterRead, C: BitRead + BitWrite, D: BitRead>(
    h: H,
    i: I,
    c: C,
    d: D,
    req: Seq<u8>,
    max_qty: int,
)
    requires
        req.len() >= 2,
        0x01 <= req[1] <= 0x04,
    ensures
        on_frame(h, i, c, d, req, max_qty).2 == h,
        on_frame(h, i, c, d, req, max_qty).3 == c,
{
}

/// A frame of at least eight bytes whose last two bytes are not its CRC is
/// answered with ILLEGAL_DATA_VALUE for its function code, and changes
/// nothing.
pub proof fn law_bad_crc_refused<H: RegisterRead + RegisterWrite, I: RegisterRead, C: BitRead + BitWrite, D: BitRead>(
    h: H,
    i: I,
    c: C,
    d: D,
    req: Seq<u8>,
    max_qty: int,
)
    requires
        req.len() >= 8,
        !crc_ok(req),
    ensures
        on_frame(h, i, c, d, req, max_qty) == (
            true,
            crate::frame::exception_frame(req[0], req[1] | 0x80u8, crate::exc::ILLEGAL_DATA_VALUE),
            h,
            c,
        ),
{
}

/// A request that is answered normally is exactly as long as the frame length
/// that `FrameLen4Func` announces for its function code.
pub proof fn law_frame_len_agrees<H: RegisterRead + RegisterWrite, I: RegisterRead, C: BitRead + BitWrite, D: BitRead>(
    h: H,
    i: I,
    c: C,
    d: D,
    req: Seq<u8>,
    max_qty: int,
)
    requires
        !on_frame(h, i, c, d, req, max_qty).0,
    ensures
        frame_len(req[1], req, req.len() as int) == Some(req.len() as usize),
{
}

/// After writing `vals` from `start` on, each written register holds its value,
/// provided all the addresses lie in the store.
pub(crate) proof fn lemma_hreg_write_regs<const N: usize>(h: Hreg<N>, start: u16, vals: Seq<u16>, j: int)
    requires
        0 <= j < vals.len(),
        vals.len() <= 0x10000,
        forall|k: int| 0 <= k < vals.len() ==> (#[trigger] addr_at(start, k) as int) < N,
    ensures
        write_regs(h, start, vals).reg_value(addr_at(start, j)) == vals[j],
    decreases vals.len(),
{
    let n = vals.len() as int;
    let prev = write_regs(h, start, vals.drop_last());
    prev.lemma_with_reg(addr_at(start, n - 1), vals.last());
    prev.lemma_len();
    if j < n - 1 {
        assert(addr_at(start, j) != addr_at(start, n - 1));
        assert((addr_at(start, j) as int) < N);
        lemma_hreg_write_regs(h, start, vals.drop_last(), j);
    } else {
        assert((addr_at(start, n - 1) as int) < N);
    }
}

/// After writing `vals` from `start` on, each written coil holds its value,
/// provided all the addresses lie in the store.
pub(crate) proof fn lemma_coil_write_bits<const N: usize>(c: Coil<N>, start: u16, vals: Seq<bool>, j: int)
    requires
        0 <= j < vals.len(),
        vals.len() <= 0x10000,
        forall|k: int| 0 <= k < vals.len() ==> (#[trigger] addr_at(start, k) as int) < N,
    ensures
        write_bits(c, start, vals).bit_value(addr_at(start, j)) == vals[j],
    decreases vals.len(),
{
    let n = vals.len() as int;
    let prev = write_bits(c, start, vals.drop_last());
    prev.lemma_with_bit(addr_at(start, n - 1), vals.last());
    prev.lemma_len();
    if j < n - 1 {
        assert(addr_at(start, j) != addr_at(start, n - 1));
        assert((addr_at(start, j) as int) < N);
        lemma_coil_write_bits(c, start, vals.drop_last(), j);
    } else {
        assert((addr_at(start, n - 1) as int) < N);
    }
}

/// Every address of a range whose first and last addresses lie in a store of
/// `N` entries lies in it too, unless the range wraps past 0xFFFF in a store
/// that does not cover all addresses.
pub(crate) proof fn lemma_range_inside(start: u16, qty: u16, n: usize)
    requires
        qty >= 1,
        (start as int) < n,
        (addr_at(start, qty - 1) as int) < n,
        n > 0xFFFF || start + qty <= 0x10000,
    ensures
        forall|k: int| 0 <= k < qty ==> (#[trigger] addr_at(start, k) as int) < n,
{
}

/// Writing a holding register (function code 06) and then reading it (function
/// code 03, quantity 1) gives back the written value.
pub proof fn law_register_write_then_read<const N: usize, I: RegisterRead, C: BitRead + BitWrite, D: BitRead>(
    h: Hreg<N>,
    i: I,
    c: C,
    d: D,
    write: Seq<u8>,
    read: Seq<u8>,
    max_qty: int,
)
    requires
        !on_frame(h, i, c, d, write, max_qty).0,
        write[1] == 0x06,
        read.len() == 8,
        crc_ok(read),
        read[1] == 0x03,
        req_start(read) == req_start(write),
        req_qty(read) == 1,
        max_qty >= 1,
    ensures
        ({
            let w = on_frame(h, i, c, d, write, max_qty);
            on_frame(w.2, i, w.3, d, read, max_qty) == (
                false,
                reg_read_frame(read[0], 0x03, seq![req_qty(write)]),
                w.2,
                w.3,
            )
        }),
{
    let w = on_frame(h, i, c, d, write, max_qty);
    let a = req_start(write);
    h.lemma_with_reg(a, req_qty(write));
    h.lemma_len();
    assert(read_regs(&w.2, a, 1) =~= seq![req_qty(write)]);
}

/// Writing a coil (function code 05) and then reading it (function code 01,
/// quantity 1) gives back the written state.
pub proof fn law_coil_write_then_read<const N: usize, H: RegisterRead + RegisterWrite, I: RegisterRead, D: BitRead>(
    h: H,
    i: I,
    c: Coil<N>,
    d: D,
    write: Seq<u8>,
    read: Seq<u8>,
    max_qty: int,
)
    requires
        !on_frame(h, i, c, d, write, max_qty).0,
        write[1] == 0x05,
        read.len() == 8,
        crc_ok(read),
        read[1] == 0x01,
        req_start(read) == req_start(write),
        req_qty(read) == 1,
        max_qty >= 1,
    ensures
        ({
            let w = on_frame(h, i, c, d, write, max_qty);
            on_frame(w.2, i, w.3, d, read, max_qty) == (
                false,
                bit_read_frame(read[0], 0x01, seq![req_qty(write) == 0xFF00]),
                w.2,
                w.3,
            )
        }),
{
    let w = on_frame(h, i, c, d, write, max_qty);
    let a = req_start(write);
    c.lemma_with_bit(a, req_qty(write) == 0xFF00);
    c.lemma_len();
    assert(read_bits(&w.3, a, 1) =~= seq![req_qty(write) == 0xFF00]);
}

/// Writing holding registers (function code 16) and then reading the same
/// range (function code 03) gives back the written values, unless the range
/// wraps past address 0xFFFF in a store that does not cover all addresses.
pub proof fn law_registers_write_then_read<const N: usize, I: RegisterRead, C: BitRead + BitWrite, D: BitRead>(
    h: Hreg<N>,
    i: I,
    c: C,
    d: D,
    write: Seq<u8>,
    read: Seq<u8>,
    max_qty: int,
)
    requires
        !on_frame(h, i, c, d, write, max_qty).0,
        write[1] == 0x10,
        read.len() == 8,
        crc_ok(read),
        read[1] == 0x03,
        req_start(read) == req_start(write),
        req_qty(read) == req_qty(write),
        N > 0xFFFF || req_start(write) + req_qty(write) <= 0x10000,
    ensures
        ({
            let w = on_frame(h, i, c, d, write, max_qty);
            on_frame(w.2, i, w.3, d, read, max_qty) == (
                false,
                reg_read_frame(
                    read[0],
                    0x03,
                    decode_regs(write.subrange(7, 7 + write[6]), req_qty(write) as int),
                ),
                w.2,
                w.3,
            )
        }),
{
    let w = on_frame(h, i, c, d, write, max_qty);
    let a = req_start(write);
    let q = req_qty(write);
    let vals = decode_regs(write.subrange(7, 7 + write[6]), q as int);
    let h1 = RegisterWrite::with_qty(h, q);
    h.lemma_with_qty(q);
    h.lemma_len();
    lemma_range_inside(a, q, N);
    assert forall|j: int| 0 <= j < q implies #[trigger] read_regs(&w.2, a, q)[j] == vals[j] by {
        lemma_hreg_write_regs(h1, a, vals, j);
    }
    assert(read_regs(&w.2, a, q) =~= vals);
}

/// Writing coils (function code 15) and then reading the same range
/// (function code 01) gives back the written states, unless the range wraps
/// past address 0xFFFF in a store that does not cover all addresses.
pub proof fn law_coils_write_then_read<const N: usize, H: RegisterRead + RegisterWrite, I: RegisterRead, D: BitRead>(
    h: H,
    i: I,
    c: Coil<N>,
    d: D,
    write: Seq<u8>,
    read: Seq<u8>,
    max_qty: int,
)
    requires
        !on_frame(h, i, c, d, write, max_qty).0,
        write[1] == 0x0F,
        read.len() == 8,
        crc_ok(read),
        read[1] == 0x01,
        req_start(read) == req_start(write),
        req_qty(read) == req_qty(write),
        N > 0xFFFF || req_start(write) + req_qty(write) <= 0x10000,
    ensures
        ({
            let w = on_frame(h, i, c, d, write, max_qty);
            on_frame(w.2, i, w.3, d, read, max_qty) == (
                false,
                bit_read_frame(
                    read[0],
                    0x01,
                    unpack_bits(write.subrange(7, 7 + write[6]), req_qty(write) as int),
                ),
                w.2,
                w.3,
            )
        }),
{
    let w = on_frame(h, i, c, d, write, max_qty);
    let a = req_start(write);
    let q = req_qty(write);
    let vals = unpack_bits(write.subrange(7, 7 + write[6]), q as int);
    let c1 = BitWrite::with_qty(c, q);
    c.lemma_with_qty(q);
    c.lemma_len();
    lemma_range_inside(a, q, N);
    assert forall|j: int| 0 <= j < q implies #[trigger] read_bits(&w.3, a, q)[j] == vals[j] by {
        lemma_coil_write_bits(c1, a, vals, j);
    }
    assert(read_bits(&w.3, a, q) =~= vals);
}

/// A request frame received into an empty buffer is waited for while it is
/// incomplete and answered exactly once, as `pharse_frame` answers it, when
/// its last byte arrives; nothing stays pending.
pub proof fn law_assembler_answers_whole_frame<H: RegisterRead + RegisterWrite, I: RegisterRead, C: BitRead + BitWrite, D: BitRead>(
    h: H,
    i: I,
    c: C,
    d: D,
    f: Seq<u8>,
    max_qty: int,
)
    requires
        f.len() >= 8,
        frame_len(f[1], f, f.len() as int) is Some,
        frame_len(f[1], f, f.len() as int).unwrap() == f.len(),
    ensures
        forall|k: int| 0 <= k < f.len() ==> #[trigger] rx_step(f.take(k)) is Wait,
        ({
            let o = on_frame(h, i, c, d, f, max_qty);
            drain(h, i, c, d, f, max_qty) == (seq![o.1], o.2, o.3, Seq::<u8>::empty())
        }),
{
    assert forall|k: int| 0 <= k < f.len() implies #[trigger] rx_step(f.take(k)) is Wait by {
        let p = f.take(k);
        if k >= 2 {
            assert(p[1] == f[1]);
            if 0x01 <= f[1] <= 0x06 {
                assert(frame_len(p[1], p, p.len() as int) == Some(8usize));
            } else if f[1] == 0x0F || f[1] == 0x10 {
                if k >= 7 {
                    assert(p[6] == f[6]);
                    assert(frame_len(p[1], p, p.len() as int) == frame_len(f[1], f, f.len() as int));
                } else {
                    assert(frame_len(p[1], p, p.len() as int) is None);
                }
            }
        }
    }
    assert(rx_step(f) == RxStep::Frame(frame_len(f[1], f, f.len() as int).unwrap()));
    let o = on_frame(h, i, c, d, f, max_qty);
    assert(f.take(f.len() as int) =~= f);
    assert(f.skip(f.len() as int) =~= Seq::<u8>::empty());
    assert(rx_step(Seq::<u8>::empty()) is Wait);
    assert(drain(o.2, i, o.3, d, Seq::<u8>::empty(), max_qty).0 =~= Seq::<Seq<u8>>::empty());
    assert(seq![o.1] + Seq::<Seq<u8>>::empty() =~= seq![o.1]);
}

/// Whether `f` is a complete request frame of a supported function code:
/// eight bytes for 01 to 06, `9 + byte count` bytes for 15 and 16.
pub open spec fn complete_frame(f: Seq<u8>) -> bool {
    &&& f.len() >= 8
    &&& {
        ||| 0x01 <= f[1] <= 0x06 && f.len() == 8
        ||| (f[1] == 0x0F || f[1] == 0x10) && f.len() == 9 + f[6]
    }
}

/// Whether `func` is a supported function code.
pub open spec fn supported(func: u8) -> bool {
    0x01 <= func <= 0x06 || func == 0x0F || func == 0x10
}

/// What the receive buffer does with its pending bytes `p`: it drops the
/// first byte exactly when at least two bytes are there and the second is not
/// a supported function code; it takes a frame of 8 bytes for function codes
/// 01 to 06 once eight bytes are there, and of `9 + byte count` bytes for 15
/// and 16 once that many are there; otherwise it waits.
pub proof fn law_rx_step(p: Seq<u8>)
    ensures
        (rx_step(p) is Skip) <==> (p.len() >= 2 && !supported(p[1])),
        (rx_step(p) == RxStep::Frame(8)) <==> (p.len() >= 8 && 0x01 <= p[1] <= 0x06),
        (p.len() >= 7 && (p[1] == 0x0F || p[1] == 0x10) && p.len() >= 9 + p[6]) ==> rx_step(p)
            == RxStep::Frame((9 + p[6]) as usize),
        (rx_step(p) is Wait) <==> (p.len() < 2 || (0x01 <= p[1] <= 0x06 && p.len() < 8) || ((p[1]
            == 0x0F || p[1] == 0x10) && (p.len() < 7 || p.len() < 9 + p[6]))),
{
}

/// Dropping a byte where no supported request starts drops that byte alone:
/// what follows is answered as if it had been received on its own.
pub proof fn law_skip_drops_one_byte<H: RegisterRead + RegisterWrite, I: RegisterRead, C: BitRead + BitWrite, D: BitRead>(
    h: H,
    i: I,
    c: C,
    d: D,
    p: Seq<u8>,
    max_qty: int,
)
    requires
        p.len() >= 2,
        !supported(p[1]),
    ensures
        drain(h, i, c, d, p, max_qty) == drain(h, i, c, d, p.drop_first(), max_qty),
{
}

/// A stray byte in front of a complete request frame whose unit id is not a
/// supported function code is dropped, and the frame is answered once, as
/// `pharse_frame` answers it; nothing stays pending.
pub proof fn law_stray_byte_then_frame<H: RegisterRead + RegisterWrite, I: RegisterRead, C: BitRead + BitWrite, D: BitRead>(
    h: H,
    i: I,
    c: C,
    d: D,
    b: u8,
    f: Seq<u8>,
    max_qty: int,
)
    requires
        complete_frame(f),
        !supported(f[0]),
    ensures
        ({
            let o = on_frame(h, i, c, d, f, max_qty);
            drain(h, i, c, d, seq![b] + f, max_qty) == (seq![o.1], o.2, o.3, Seq::<u8>::empty())
        }),
{
    let p = seq![b] + f;
    assert(p[1] == f[0]);
    assert(p.drop_first() =~= f);
    law_assembler_answers_whole_frame(h, i, c, d, f, max_qty);
}

/// The frame length announced for a function code: 8 bytes for 01 to 06,
/// `9 + byte count` (the seventh byte) for 15 and 16 once seven bytes are
/// there, and nothing for other function codes or before that.
pub proof fn law_frame_len(func: u8, buf: Seq<u8>, cur_len: int)
    ensures
        0x01 <= func <= 0x06 ==> frame_len(func, buf, cur_len) == Some(8usize),
        (func == 0x0F || func == 0x10) && cur_len >= 7 ==> frame_len(func, buf, cur_len) is Some
            && frame_len(func, buf, cur_len).unwrap() == 9 + buf[6],
        (func == 0x0F || func == 0x10) && cur_len < 7 ==> frame_len(func, buf, cur_len) is None,
        !supported(func) ==> frame_len(func, buf, cur_len) is None,
{
}

/// In eight-byte mode, fewer than eight pending bytes wait, and eight
/// pending bytes are answered once, as `pharse_pdu` answers them, leaving
/// nothing pending.
pub proof fn law_pdu_chunks<H: RegisterRead + RegisterWrite, I: RegisterRead, C: BitRead + BitWrite, D: BitRead>(
    h: H,
    i: I,
    c: C,
    d: D,
    p: Seq<u8>,
    max_qty: int,
)
    ensures
        p.len() < 8 ==> drain_pdus(h, i, c, d, p, max_qty) == (Seq::<Seq<u8>>::empty(), h, c, p),
        p.len() == 8 ==> ({
            let o = on_pdu(h, i, c, d, p, max_qty);
            drain_pdus(h, i, c, d, p, max_qty) == (seq![o.1], o.2, o.3, Seq::<u8>::empty())
        }),
{
    if p.len() == 8 {
        let o = on_pdu(h, i, c, d, p, max_qty);
        assert(p.take(8) =~= p);
        assert(p.skip(8) =~= Seq::<u8>::empty());
        let r = drain_pdus(o.2, i, o.3, d, p.skip(8), max_qty);
        assert(r == (Seq::<Seq<u8>>::empty(), o.2, o.3, Seq::<u8>::empty()));
        assert(seq![o.1] + r.0 =~= seq![o.1]);
    }
}

} // verus!
