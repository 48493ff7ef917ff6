//! Splitting a received byte stream into request frames and answering them.
use vstd::prelude::*;
use crate::ctx::{
    frame_len, frame_overflows, on_frame, on_pdu, pdu_overflows, stores_ready, FrameLen4Func,
    ModbusCtx,
};
use crate::store::{BitRead, BitWrite, RegisterRead, RegisterWrite};

verus! {

/// What to do next with the bytes received so far.
pub enum RxStep {
    /// Wait for more bytes.
    Wait,
    /// Drop the first byte: no supported request starts there.
    Skip,
    /// The first `n` bytes form a request frame.
    Frame(usize),
}

/// What to do next with the pending bytes `p`: with fewer than two bytes,
/// wait; if the function code (second byte) gives the frame length, wait
/// until that many bytes are there and then take them as a frame; for
/// function codes 15 and 16 wait until the byte count (seventh byte) is
/// there; drop the first byte when the function code is not supported.
pub open spec fn rx_step(p: Seq<u8>) -> RxStep {
    if p.len() < 2 {
        RxStep::Wait
    } else {
        match frame_len(p[1], p, p.len() as int) {
            None => if (p[1] == 0x0F || p[1] == 0x10) && p.len() < 7 {
                RxStep::Wait
            } else {
                RxStep::Skip
            },
            Some(n) => if p.len() < n {
                RxStep::Wait
            } else {
                RxStep::Frame(n)
            },
        }
    }
}

/// Answering every complete frame among the pending bytes `p`, in order: the
/// answers, the holding registers and coils after them, and the bytes left
/// pending.
pub open spec fn drain<H: RegisterRead + RegisterWrite, I: RegisterRead, C: BitRead + BitWrite, D: BitRead>(
    h: H,
    i: I,
    c: C,
    d: D,
    p: Seq<u8>,
    max_qty: int,
) -> (Seq<Seq<u8>>, H, C, Seq<u8>)
    decreases p.len(),
{
    match rx_step(p) {
        RxStep::Wait => (Seq::empty(), h, c, p),
        RxStep::Skip => drain(h, i, c, d, p.drop_first(), max_qty),
        RxStep::Frame(n) => {
            // a frame is never empty nor longer than what is pending
            if 0 < n <= p.len() {
                let o = on_frame(h, i, c, d, p.take(n as int), max_qty);
                let r = drain(o.2, i, o.3, d, p.skip(n as int), max_qty);
                (seq![o.1] + r.0, r.1, r.2, r.3)
            } else {
                (Seq::empty(), h, c, p)
            }
        },
    }
}

/// Whether every frame that `drain` answers among the pending bytes `p` can
/// be answered: none is a register read whose byte count overflows, and the
/// stores are ready for multi-entry writes when it comes.
pub open spec fn drain_safe<H: RegisterRead + RegisterWrite, I: RegisterRead, C: BitRead + BitWrite, D: BitRead>(
    h: H,
    i: I,
    c: C,
    d: D,
    p: Seq<u8>,
    max_qty: int,
) -> bool
    decreases p.len(),
{
    match rx_step(p) {
        RxStep::Wait => true,
        RxStep::Skip => drain_safe(h, i, c, d, p.drop_first(), max_qty),
        RxStep::Frame(n) => {
            if 0 < n <= p.len() {
                let f = p.take(n as int);
                let o = on_frame(h, i, c, d, f, max_qty);
                &&& !frame_overflows(&h, &i, f, max_qty)
                &&& stores_ready(h, c)
                &&& drain_safe(o.2, i, o.3, d, p.skip(n as int), max_qty)
            } else {
                true
            }
        },
    }
}

/// Whether every request that `drain_pdus` answers among the pending bytes
/// `p` can be answered: none is a register read whose byte count overflows.
pub open spec fn drain_pdus_safe<H: RegisterRead + RegisterWrite, I: RegisterRead, C: BitRead + BitWrite, D: BitRead>(
    h: H,
    i: I,
    c: C,
    d: D,
    p: Seq<u8>,
    max_qty: int,
) -> bool
    decreases p.len(),
{
    if p.len() < 8 {
        true
    } else {
        let o = on_pdu(h, i, c, d, p.take(8), max_qty);
        &&& !pdu_overflows(&h, &i, p.take(8), max_qty)
        &&& drain_pdus_safe(o.2, i, o.3, d, p.skip(8), max_qty)
    }
}

/// Answering the pending bytes `p` eight at a time, as requests of function
/// codes 01 to 06: the answers, the holding registers and coils after them,
/// and the bytes left pending (fewer than eight).
pub open spec fn drain_pdus<H: RegisterRead + RegisterWrite, I: RegisterRead, C: BitRead + BitWrite, D: BitRead>(
    h: H,
    i: I,
    c: C,
    d: D,
    p: Seq<u8>,
    max_qty: int,
) -> (Seq<Seq<u8>>, H, C, Seq<u8>)
    decreases p.len(),
{
    if p.len() < 8 {
        (Seq::empty(), h, c, p)
    } else {
        let o = on_pdu(h, i, c, d, p.take(8), max_qty);
        let r = drain_pdus(o.2, i, o.3, d, p.skip(8), max_qty);
        (seq![o.1] + r.0, r.1, r.2, r.3)
    }
}

/// The pending bytes after receiving `b`: appended when there is room,
/// otherwise everything is dropped, `b` included, to resynchronise.
pub open spec fn after_byte(p: Seq<u8>, cap: int, b: u8) -> Seq<u8> {
    if p.len() < cap {
        p.push(b)
    } else {
        Seq::empty()
    }
}

/// The contents of each of `v`.
pub open spec fn contents(v: Seq<Vec<u8>>) -> Seq<Seq<u8>> {
    v.map_values(|x: Vec<u8>| x@)
}

/// A receive buffer of `CAP` bytes that collects request frames from a byte
/// stream.
pub struct FrameAssembler<const CAP: usize> {
    buf: [u8; CAP],
    len: usize,
}

impl<const CAP: usize> FrameAssembler<CAP> {
    /// The bytes received and not yet consumed.
    pub closed spec fn pending(&self) -> Seq<u8> {
        self.buf@.take(self.len as int)
    }

    /// The buffer's internal invariant.
    pub closed spec fn wf(&self) -> bool {
        self.len <= CAP
    }

    /// An empty buffer.
    pub fn new() -> (a: Self)
        ensures
            a.wf(),
            a.pending() == Seq::<u8>::empty(),
    {
        let a = FrameAssembler { buf: [0u8; CAP], len: 0 };
        assert(a.pending() =~= Seq::<u8>::empty());
        a
    }

    /// The number of pending bytes.
    pub fn len(&self) -> (n: usize)
        requires
            self.wf(),
        ensures
            n == self.pending().len(),
    {
        self.len
    }

    /// Receives one byte; when the buffer is full, all pending bytes and `b`
    /// are dropped.
    pub fn push_byte(&mut self, b: u8)
        requires
            old(self).wf(),
        ensures
            final(self).wf(),
            final(self).pending() == after_byte(old(self).pending(), CAP as int, b),
    {
        if self.len < CAP {
            self.buf[self.len] = b;
            self.len = self.len + 1;
            assert(self.pending() =~= old(self).pending().push(b));
        } else {
            self.len = 0;
            assert(self.pending() =~= Seq::<u8>::empty());
        }
    }

    /// Drops the first `n` pending bytes.
    pub fn drop_front(&mut self, n: usize)
        requires
            old(self).wf(),
            n <= old(self).pending().len(),
        ensures
            final(self).wf(),
            final(self).pending() == old(self).pending().skip(n as int),
    {
        let remaining = self.len - n;
        let ghost p = self.pending();
        for k in 0..remaining
            invariant
                self.len == old(self).len,
                self.len <= CAP,
                remaining == self.len - n,
                p == old(self).pending(),
                forall|q: int| 0 <= q < k ==> self.buf@[q] == p[q + n],
                forall|q: int| k <= q < CAP ==> self.buf@[q] == old(self).buf@[q],
        {
            self.buf[k] = self.buf[k + n];
        }
        self.len = remaining;
        assert(self.pending() =~= p.skip(n as int));
    }

    /// The first `n` pending bytes.
    pub fn front(&self, n: usize) -> (s: &[u8])
        requires
            self.wf(),
            n <= self.pending().len(),
        ensures
            s@ == self.pending().take(n as int),
    {
        let s = &self.buf.as_slice()[0..n];
        assert(s@ =~= self.pending().take(n as int));
        s
    }

    /// What to do next with the pending bytes.
    pub fn step(&self) -> (r: RxStep)
        requires
            self.wf(),
        ensures
            r == rx_step(self.pending()),
    {
        if self.len < 2 {
            return RxStep::Wait;
        }
        let func = self.buf[1];
        let buf = self.buf.as_slice();
        assert(frame_len(func, buf@, self.len as int) == frame_len(func, self.pending(), self.len as int));
        match FrameLen4Func(func, buf, self.len) {
            None => {
                if (func == 0x0F || func == 0x10) && self.len < 7 {
                    RxStep::Wait
                } else {
                    RxStep::Skip
                }
            },
            Some(needed) => {
                if self.len < needed {
                    RxStep::Wait
                } else {
                    RxStep::Frame(needed)
                }
            },
        }
    }

    /// Receives one byte and answers every request frame that is complete
    /// afterwards, in order, dropping bytes where no supported request
    /// starts. Returns the answers, each one to be sent back whole;
    /// `out_tx` and `out_exc` are working space. Every frame answered must be
    /// answerable (`drain_safe`).
    pub fn receive<const MAX_QTY: usize, H, I, C, D>(
        &mut self,
        ctx: &mut ModbusCtx<'_, H, I, C, D>,
        b: u8,
        out_tx: &mut [u8],
        out_exc: &mut [u8; 5],
    ) -> (replies: Vec<Vec<u8>>) where
        H: RegisterRead + RegisterWrite,
        I: RegisterRead,
        C: BitRead + BitWrite,
        D: BitRead,

        requires
            old(self).wf(),
            old(out_tx)@.len() >= 8,
            old(out_tx)@.len() >= 5 + 2 * MAX_QTY,
            drain_safe(
                *old(ctx).holdings,
                *old(ctx).inputs,
                *old(ctx).coils,
                *old(ctx).ists,
                after_byte(old(self).pending(), CAP as int, b),
                MAX_QTY as int,
            ),
        ensures
            final(self).wf(),
            final(out_tx)@.len() == old(out_tx)@.len(),
            ({
                let r = drain(
                    *old(ctx).holdings,
                    *old(ctx).inputs,
                    *old(ctx).coils,
                    *old(ctx).ists,
                    after_byte(old(self).pending(), CAP as int, b),
                    MAX_QTY as int,
                );
                &&& contents(replies@) == r.0
                &&& *final(ctx).holdings == r.1
                &&& *final(ctx).coils == r.2
                &&& final(self).pending() == r.3
            }),
            *final(ctx).inputs == *old(ctx).inputs,
            *final(ctx).ists == *old(ctx).ists,
            *final(final(ctx).holdings) == *final(old(ctx).holdings),
            *final(final(ctx).inputs) == *final(old(ctx).inputs),
            *final(final(ctx).coils) == *final(old(ctx).coils),
            *final(final(ctx).ists) == *final(old(ctx).ists),
    {
        self.push_byte(b);
        let ghost target = drain(
            *ctx.holdings,
            *ctx.inputs,
            *ctx.coils,
            *ctx.ists,
            self.pending(),
            MAX_QTY as int,
        );
        let mut replies: Vec<Vec<u8>> = Vec::new();
        assert(contents(replies@) =~= Seq::<Seq<u8>>::empty());
        loop
            invariant
                self.wf(),
                out_tx@.len() == old(out_tx)@.len(),
                old(out_tx)@.len() >= 8,
                old(out_tx)@.len() >= 5 + 2 * MAX_QTY,
                drain_safe(*ctx.holdings, *ctx.inputs, *ctx.coils, *ctx.ists, self.pending(), MAX_QTY as int),
                ({
                    let r = drain(
                        *ctx.holdings,
                        *ctx.inputs,
                        *ctx.coils,
                        *ctx.ists,
                        self.pending(),
                        MAX_QTY as int,
                    );
                    &&& contents(replies@) + r.0 == target.0
                    &&& r.1 == target.1
                    &&& r.2 == target.2
                    &&& r.3 == target.3
                }),
                *ctx.inputs == *old(ctx).inputs,
                *ctx.ists == *old(ctx).ists,
                *final(ctx.holdings) == *final(old(ctx).holdings),
                *final(ctx.inputs) == *final(old(ctx).inputs),
                *final(ctx.coils) == *final(old(ctx).coils),
                *final(ctx.ists) == *final(old(ctx).ists),
            ensures
                rx_step(self.pending()) is Wait,
            decreases self.pending().len(),
        {
            match self.step() {
                RxStep::Wait => {
                    assert(contents(replies@) + Seq::<Seq<u8>>::empty() =~= contents(replies@));
                    break;
                },
                RxStep::Skip => {
                    let ghost p = self.pending();
                    self.drop_front(1);
                    assert(p.skip(1) =~= p.drop_first());
                },
                RxStep::Frame(needed) => {
                    let ghost before = contents(replies@);
                    let ghost p = self.pending();
                    let ghost o = on_frame(*ctx.holdings, *ctx.inputs, *ctx.coils, *ctx.ists, p.take(needed as int), MAX_QTY as int);
                    let n = ctx.pharse_frame::<MAX_QTY>(self.front(needed), out_tx, out_exc);
                    let reply = if n == 5 {
                        vstd::slice::slice_to_vec(out_exc.as_slice())
                    } else {
                        vstd::slice::slice_to_vec(&out_tx[0..n])
                    };
                    replies.push(reply);
                    assert(reply@ =~= o.1);
                    assert(contents(replies@) =~= before.push(reply@));
                    self.drop_front(needed);
                    proof {
                        let r2 = drain(o.2, *ctx.inputs, o.3, *ctx.ists, p.skip(needed as int), MAX_QTY as int);
                        assert(before.push(o.1) + r2.0 =~= before + (seq![o.1] + r2.0));
                    }
                },
            }
        }
        replies
    }

    /// Receives one byte and answers the pending bytes eight at a time, as
    /// requests of function codes 01 to 06, while at least eight are there.
    /// Returns the answers, each one to be sent back whole; `out_tx` and
    /// `out_exc` are working space. Every request answered must be
    /// answerable (`drain_pdus_safe`).
    pub fn receive_pdu<const MAX_QTY: usize, H, I, C, D>(
        &mut self,
        ctx: &mut ModbusCtx<'_, H, I, C, D>,
        b: u8,
        out_tx: &mut [u8],
        out_exc: &mut [u8; 5],
    ) -> (replies: Vec<Vec<u8>>) where
        H: RegisterRead + RegisterWrite,
        I: RegisterRead,
        C: BitRead + BitWrite,
        D: BitRead,

        requires
            old(self).wf(),
            old(out_tx)@.len() >= 8,
            old(out_tx)@.len() >= 5 + 2 * MAX_QTY,
            drain_pdus_safe(
                *old(ctx).holdings,
                *old(ctx).inputs,
                *old(ctx).coils,
                *old(ctx).ists,
                after_byte(old(self).pending(), CAP as int, b),
                MAX_QTY as int,
            ),
        ensures
            final(self).wf(),
            final(out_tx)@.len() == old(out_tx)@.len(),
            ({
                let r = drain_pdus(
                    *old(ctx).holdings,
                    *old(ctx).inputs,
                    *old(ctx).coils,
                    *old(ctx).ists,
                    after_byte(old(self).pending(), CAP as int, b),
                    MAX_QTY as int,
                );
                &&& contents(replies@) == r.0
                &&& *final(ctx).holdings == r.1
                &&& *final(ctx).coils == r.2
                &&& final(self).pending() == r.3
            }),
            *final(ctx).inputs == *old(ctx).inputs,
            *final(ctx).ists == *old(ctx).ists,
            *final(final(ctx).holdings) == *final(old(ctx).holdings),
            *final(final(ctx).inputs) == *final(old(ctx).inputs),
            *final(final(ctx).coils) == *final(old(ctx).coils),
            *final(final(ctx).ists) == *final(old(ctx).ists),
    {
        self.push_byte(b);
        let ghost target = drain_pdus(
            *ctx.holdings,
            *ctx.inputs,
            *ctx.coils,
            *ctx.ists,
            self.pending(),
            MAX_QTY as int,
        );
        let mut replies: Vec<Vec<u8>> = Vec::new();
        assert(contents(replies@) =~= Seq::<Seq<u8>>::empty());
        while self.len >= 8
            invariant
                self.wf(),
                out_tx@.len() == old(out_tx)@.len(),
                old(out_tx)@.len() >= 8,
                old(out_tx)@.len() >= 5 + 2 * MAX_QTY,
                drain_pdus_safe(*ctx.holdings, *ctx.inputs, *ctx.coils, *ctx.ists, self.pending(), MAX_QTY as int),
                ({
                    let r = drain_pdus(
                        *ctx.holdings,
                        *ctx.inputs,
                        *ctx.coils,
                        *ctx.ists,
                        self.pending(),
                        MAX_QTY as int,
                    );
                    &&& contents(replies@) + r.0 == target.0
                    &&& r.1 == target.1
                    &&& r.2 == target.2
                    &&& r.3 == target.3
                }),
                *ctx.inputs == *old(ctx).inputs,
                *ctx.ists == *old(ctx).ists,
                *final(ctx.holdings) == *final(old(ctx).holdings),
                *final(ctx.inputs) == *final(old(ctx).inputs),
                *final(ctx.coils) == *final(old(ctx).coils),
                *final(ctx.ists) == *final(old(ctx).ists),
            decreases self.pending().len(),
        {
            let ghost before = contents(replies@);
            let ghost p = self.pending();
            let ghost o = on_pdu(*ctx.holdings, *ctx.inputs, *ctx.coils, *ctx.ists, p.take(8), MAX_QTY as int);
            let mut req8 = [0u8; 8];
            for k in 0..8
                invariant
                    self.wf(),
                    self.len >= 8,
                    p == self.pending(),
                    forall|q: int| 0 <= q < k ==> req8@[q] == p[q],
            {
                req8[k] = self.buf[k];
            }
            assert(req8@ =~= p.take(8));
            let n = ctx.pharse_pdu::<MAX_QTY>(&req8, out_tx, out_exc);
            let reply = if n == 5 {
                vstd::slice::slice_to_vec(out_exc.as_slice())
            } else {
                vstd::slice::slice_to_vec(&out_tx[0..n])
            };
            replies.push(reply);
            assert(reply@ =~= o.1);
            assert(contents(replies@) =~= before.push(reply@));
            self.drop_front(8);
            proof {
                let r2 = drain_pdus(o.2, *ctx.inputs, o.3, *ctx.ists, p.skip(8), MAX_QTY as int);
                assert(before.push(o.1) + r2.0 =~= before + (seq![o.1] + r2.0));
            }
        }
        assert(contents(replies@) + Seq::<Seq<u8>>::empty() =~= contents(replies@));
        replies
    }
}

} // verus!
