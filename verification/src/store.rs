//! Data stores: the traits through which requests read and write them, and
//! fixed-size stores for coils, discrete inputs, input and holding registers.
use vstd::prelude::*;
use vstd::array::spec_array_update;

verus! {

/// Read access to 16-bit registers (holding registers, input registers).
pub trait RegisterRead {
    /// The value that `get` returns for `addr`.
    spec fn reg_value(&self, addr: u16) -> u16;

    /// Whether `addr` lies inside the register map.
    spec fn reg_valid(&self, addr: u16) -> bool;

    /// The value of register `addr`.
    fn get(&self, addr: u16) -> (v: u16)
        ensures
            v == self.reg_value(addr),
    ;

    /// Whether `addr` lies inside the register map.
    fn is_valid(&self, addr: u16) -> (b: bool)
        ensures
            b == self.reg_valid(addr),
    ;
}

/// Write access to 16-bit registers.
pub trait RegisterWrite: Sized {
    /// The store after writing `val` to `addr`.
    spec fn with_reg(self, addr: u16, val: u16) -> Self;

    /// The store after recording the quantity of a multi-register write.
    spec fn with_qty(self, qty: u16) -> Self;

    /// The recorded quantity.
    spec fn qty_value(&self) -> usize;

    /// Whether `set_qty` may be called on this store.
    spec fn qty_settable(&self) -> bool;

    /// Writes `val` to register `addr`.
    fn set_reg(&mut self, addr: u16, val: u16)
        ensures
            *final(self) == old(self).with_reg(addr, val),
    ;

    /// Records the quantity of a multi-entry write.
    fn set_qty(&mut self, qty: u16)
        requires
            old(self).qty_settable(),
        ensures
            *final(self) == old(self).with_qty(qty),
    ;

    /// The quantity recorded by the last `set_qty`.
    fn get_qty(&mut self) -> (q: usize)
        ensures
            q == old(self).qty_value(),
            *final(self) == *old(self),
    ;
}

/// Read access to single bits (coils, discrete inputs).
pub trait BitRead {
    /// The value that `get` returns for `addr`.
    spec fn bit_value(&self, addr: u16) -> bool;

    /// Whether `addr` lies inside the bit map.
    spec fn bit_valid(&self, addr: u16) -> bool;

    /// The value of bit `addr`.
    fn get(&self, addr: u16) -> (v: bool)
        ensures
            v == self.bit_value(addr),
    ;

    /// Whether `addr` lies inside the bit map.
    fn is_valid(&self, addr: u16) -> (b: bool)
        ensures
            b == self.bit_valid(addr),
    ;
}

/// Write access to single bits.
pub trait BitWrite: Sized {
    /// The store after writing `val` to `addr`.
    spec fn with_bit(self, addr: u16, val: bool) -> Self;

    /// The store after recording the quantity of a multi-coil write.
    spec fn with_qty(self, qty: u16) -> Self;

    /// The recorded quantity.
    spec fn qty_value(&self) -> usize;

    /// Whether `set_qty` may be called on this store.
    spec fn qty_settable(&self) -> bool;

    /// Writes `val` to bit `addr`.
    fn set_bit(&mut self, addr: u16, val: bool)
        ensures
            *final(self) == old(self).with_bit(addr, val),
    ;

    /// Records the quantity of a multi-entry write.
    fn set_qty(&mut self, qty: u16)
        requires
            old(self).qty_settable(),
        ensures
            *final(self) == old(self).with_qty(qty),
    ;

    /// The quantity recorded by the last `set_qty`.
    fn get_qty(&mut self) -> (q: usize)
        ensures
            q == old(self).qty_value(),
            *final(self) == *old(self),
    ;
}

/// The quantity that a store of `n` entries records for a write of `qty` entries:
/// `qty` itself when it fits, else the last index.
pub open spec fn clamp_qty(qty: u16, n: usize) -> usize {
    if (qty as int) < n {
        qty as usize
    } else {
        (n - 1) as usize
    }
}

/// Coils (function codes 01, 05, 15).
pub struct Coil<const N: usize> {
    regs: [bool; N],
    qty: usize,
}

impl<const N: usize> Coil<N> {
    /// The coil values, one per address.
    pub closed spec fn bits(&self) -> Seq<bool> {
        self.regs@
    }

    /// The quantity recorded by the last `set_qty`.
    pub closed spec fn qty(&self) -> usize {
        self.qty
    }

    /// There are exactly `N` coils.
    pub broadcast proof fn lemma_len(&self)
        ensures
            #[trigger] self.bits().len() == N,
    {
    }

    /// A store of `N` coils, all off, with quantity 0.
    pub fn new() -> (c: Self)
        ensures
            c.bits() == Seq::new(N as nat, |i: int| false),
            c.qty() == 0,
    {
        let c = Coil { regs: [false; N], qty: 0 };
        assert(c.bits() =~= Seq::new(N as nat, |i: int| false));
        c
    }

    /// Sets coil `addr`; an address outside the store is ignored.
    pub fn set_bit(&mut self, addr: u16, val: bool)
        ensures
            *final(self) == old(self).with_bit(addr, val),
            forall|b: u16|
                #[trigger] final(self).bit_value(b) == if b == addr && (addr as int) < N {
                    val
                } else {
                    old(self).bit_value(b)
                },
    {
        let i = addr as usize;
        if i < N {
            self.regs[i] = val;
        }
    }

    /// Records the quantity of a multi-coil write: `qty` when it is below `N`,
    /// else `N - 1`.
    pub fn set_qty(&mut self, qty: u16)
        requires
            N > 0,
        ensures
            *final(self) == BitWrite::with_qty(*old(self), qty),
    {
        let i = qty as usize;
        if i < N {
            self.qty = i;
        } else {
            self.qty = N - 1;
        }
    }

    /// The quantity recorded by the last `set_qty`.
    pub fn get_qty(&mut self) -> (q: usize)
        ensures
            q == old(self).qty(),
            *final(self) == *old(self),
    {
        self.qty
    }

    /// The coil values as a slice.
    pub fn as_bits(&self) -> (s: &[bool])
        ensures
            s@ == self.bits(),
    {
        self.regs.as_slice()
    }

    /// What a bit write does to the coils.
    pub broadcast proof fn lemma_with_bit(self, addr: u16, val: bool)
        ensures
            #[trigger] self.with_bit(addr, val).bits() == (if (addr as int) < N {
                self.bits().update(addr as int, val)
            } else {
                self.bits()
            }),
            self.with_bit(addr, val).qty() == self.qty(),
    {
    }

    /// What recording a quantity does to the coils.
    pub broadcast proof fn lemma_with_qty(self, qty: u16)
        ensures
            #[trigger] BitWrite::with_qty(self, qty).bits() == self.bits(),
            BitWrite::with_qty(self, qty).qty() == clamp_qty(qty, N),
    {
    }
}

impl<const N: usize> BitRead for Coil<N> {
    open spec fn bit_value(&self, addr: u16) -> bool {
        if (addr as int) < N {
            self.bits()[addr as int]
        } else {
            false
        }
    }

    open spec fn bit_valid(&self, addr: u16) -> bool {
        (addr as int) < N
    }

    fn get(&self, addr: u16) -> (v: bool) {
        let i = addr as usize;
        if i < N {
            self.regs[i]
        } else {
            false
        }
    }

    fn is_valid(&self, addr: u16) -> (b: bool) {
        (addr as usize) < N
    }
}

impl<const N: usize> BitWrite for Coil<N> {
    closed spec fn with_bit(self, addr: u16, val: bool) -> Self {
        if (addr as int) < N {
            Coil { regs: spec_array_update(self.regs, addr as int, val), qty: self.qty }
        } else {
            self
        }
    }

    closed spec fn with_qty(self, qty: u16) -> Self {
        Coil { regs: self.regs, qty: clamp_qty(qty, N) }
    }

    open spec fn qty_value(&self) -> usize {
        self.qty()
    }

    open spec fn qty_settable(&self) -> bool {
        N > 0
    }

    fn set_bit(&mut self, addr: u16, val: bool) {
        Coil::set_bit(self, addr, val)
    }

    fn set_qty(&mut self, qty: u16) {
        Coil::set_qty(self, qty)
    }

    fn get_qty(&mut self) -> (q: usize) {
        Coil::get_qty(self)
    }
}

/// Discrete inputs (function code 02).
pub struct Ists<const N: usize> {
    regs: [bool; N],
}

impl<const N: usize> Ists<N> {
    /// The input values, one per address.
    pub closed spec fn bits(&self) -> Seq<bool> {
        self.regs@
    }

    /// There are exactly `N` inputs.
    pub broadcast proof fn lemma_len(&self)
        ensures
            #[trigger] self.bits().len() == N,
    {
    }

    /// A store of `N` inputs, all off.
    pub fn new() -> (d: Self)
        ensures
            d.bits() == Seq::new(N as nat, |i: int| false),
    {
        let d = Ists { regs: [false; N] };
        assert(d.bits() =~= Seq::new(N as nat, |i: int| false));
        d
    }

    /// Sets input `addr`; an address outside the store is ignored.
    pub fn set_bit(&mut self, addr: u16, val: bool)
        ensures
            final(self).bits() == (if (addr as int) < N {
                old(self).bits().update(addr as int, val)
            } else {
                old(self).bits()
            }),
            forall|b: u16|
                #[trigger] final(self).bit_value(b) == if b == addr && (addr as int) < N {
                    val
                } else {
                    old(self).bit_value(b)
                },
    {
        let i = addr as usize;
        if i < N {
            self.regs[i] = val;
        }
    }
}

impl<const N: usize> BitRead for Ists<N> {
    open spec fn bit_value(&self, addr: u16) -> bool {
        if (addr as int) < N {
            self.bits()[addr as int]
        } else {
            false
        }
    }

    open spec fn bit_valid(&self, addr: u16) -> bool {
        (addr as int) < N
    }

    fn get(&self, addr: u16) -> (v: bool) {
        let i = addr as usize;
        if i < N {
            self.regs[i]
        } else {
            false
        }
    }

    fn is_valid(&self, addr: u16) -> (b: bool) {
        (addr as usize) < N
    }
}

/// Input registers (function code 04).
pub struct Ireg<const N: usize> {
    regs: [u16; N],
}

impl<const N: usize> Ireg<N> {
    /// The register values, one per address.
    pub closed spec fn values(&self) -> Seq<u16> {
        self.regs@
    }

    /// There are exactly `N` registers.
    pub broadcast proof fn lemma_len(&self)
        ensures
            #[trigger] self.values().len() == N,
    {
    }

    /// A store of `N` registers, all 0.
    pub fn new() -> (r: Self)
        ensures
            r.values() == Seq::new(N as nat, |i: int| 0u16),
    {
        let r = Ireg { regs: [0u16; N] };
        assert(r.values() =~= Seq::new(N as nat, |i: int| 0u16));
        r
    }

    /// Sets register `addr`; an address outside the store is ignored.
    pub fn set(&mut self, addr: u16, val: u16)
        ensures
            final(self).values() == (if (addr as int) < N {
                old(self).values().update(addr as int, val)
            } else {
                old(self).values()
            }),
            forall|b: u16|
                #[trigger] final(self).reg_value(b) == if b == addr && (addr as int) < N {
                    val
                } else {
                    old(self).reg_value(b)
                },
    {
        let i = addr as usize;
        if i < N {
            self.regs[i] = val;
        }
    }
}

impl<const N: usize> RegisterRead for Ireg<N> {
    open spec fn reg_value(&self, addr: u16) -> u16 {
        if (addr as int) < N {
            self.values()[addr as int]
        } else {
            0
        }
    }

    open spec fn reg_valid(&self, addr: u16) -> bool {
        (addr as int) < N
    }

    fn get(&self, addr: u16) -> (v: u16) {
        let i = addr as usize;
        if i < N {
            self.regs[i]
        } else {
            0
        }
    }

    fn is_valid(&self, addr: u16) -> (b: bool) {
        (addr as usize) < N
    }
}

/// Holding registers (function codes 03, 06, 16).
pub struct Hreg<const N: usize> {
    regs: [u16; N],
    qty: usize,
}

impl<const N: usize> Hreg<N> {
    /// The register values, one per address.
    pub closed spec fn values(&self) -> Seq<u16> {
        self.regs@
    }

    /// The quantity recorded by the last `set_qty`.
    pub closed spec fn qty(&self) -> usize {
        self.qty
    }

    /// There are exactly `N` registers.
    pub broadcast proof fn lemma_len(&self)
        ensures
            #[trigger] self.values().len() == N,
    {
    }

    /// A store of `N` registers, all 0, with quantity 0.
    pub fn new() -> (h: Self)
        ensures
            h.values() == Seq::new(N as nat, |i: int| 0u16),
            h.qty() == 0,
    {
        let h = Hreg { regs: [0u16; N], qty: 0 };
        assert(h.values() =~= Seq::new(N as nat, |i: int| 0u16));
        h
    }

    /// Sets register `addr`; an address outside the store is ignored.
    pub fn set(&mut self, addr: u16, val: u16)
        ensures
            *final(self) == old(self).with_reg(addr, val),
            forall|b: u16|
                #[trigger] final(self).reg_value(b) == if b == addr && (addr as int) < N {
                    val
                } else {
                    old(self).reg_value(b)
                },
    {
        let i = addr as usize;
        if i < N {
            self.regs[i] = val;
        }
    }

    /// Records the quantity of a multi-register write: `qty` when it is below
    /// `N`, else `N - 1`.
    pub fn set_qty(&mut self, qty: u16)
        requires
            N > 0,
        ensures
            *final(self) == RegisterWrite::with_qty(*old(self), qty),
    {
        let i = qty as usize;
        if i < N {
            self.qty = i;
        } else {
            self.qty = N - 1;
        }
    }

    /// The quantity recorded by the last `set_qty`.
    pub fn get_qty(&mut self) -> (q: usize)
        ensures
            q == old(self).qty(),
            *final(self) == *old(self),
    {
        self.qty
    }

    /// The register values as a slice.
    pub fn as_slice(&self) -> (s: &[u16])
        ensures
            s@ == self.values(),
    {
        self.regs.as_slice()
    }

    /// What a register write does to the store.
    pub broadcast proof fn lemma_with_reg(self, addr: u16, val: u16)
        ensures
            #[trigger] self.with_reg(addr, val).values() == (if (addr as int) < N {
                self.values().update(addr as int, val)
            } else {
                self.values()
            }),
            self.with_reg(addr, val).qty() == self.qty(),
    {
    }

    /// What recording a quantity does to the store.
    pub broadcast proof fn lemma_with_qty(self, qty: u16)
        ensures
            #[trigger] RegisterWrite::with_qty(self, qty).values() == self.values(),
            RegisterWrite::with_qty(self, qty).qty() == clamp_qty(qty, N),
    {
    }
}

impl<const N: usize> RegisterRead for Hreg<N> {
    open spec fn reg_value(&self, addr: u16) -> u16 {
        if (addr as int) < N {
            self.values()[addr as int]
        } else {
            0
        }
    }

    open spec fn reg_valid(&self, addr: u16) -> bool {
        (addr as int) < N
    }

    fn get(&self, addr: u16) -> (v: u16) {
        let i = addr as usize;
        if i < N {
            self.regs[i]
        } else {
            0
        }
    }

    fn is_valid(&self, addr: u16) -> (b: bool) {
        (addr as usize) < N
    }
}

impl<const N: usize> RegisterWrite for Hreg<N> {
    closed spec fn with_reg(self, addr: u16, val: u16) -> Self {
        if (addr as int) < N {
            Hreg { regs: spec_array_update(self.regs, addr as int, val), qty: self.qty }
        } else {
            self
        }
    }

    closed spec fn with_qty(self, qty: u16) -> Self {
        Hreg { regs: self.regs, qty: clamp_qty(qty, N) }
    }

    open spec fn qty_value(&self) -> usize {
        self.qty()
    }

    open spec fn qty_settable(&self) -> bool {
        N > 0
    }

    fn set_reg(&mut self, addr: u16, val: u16) {
        Hreg::set(self, addr, val)
    }

    fn set_qty(&mut self, qty: u16) {
        Hreg::set_qty(self, qty)
    }

    fn get_qty(&mut self) -> (q: usize) {
        Hreg::get_qty(self)
    }
}

} // verus!
