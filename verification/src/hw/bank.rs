//! Banks of registers behind an index register.
use vstd::arithmetic::power2::pow2;
use vstd::prelude::*;

verus! {

/// The registers of a bank.
pub trait BankData: Sized {
    type Item;

    /// Whether the registers are in their initial state.
    spec fn is_new(&self) -> bool;

    /// Whether a read of register `index` gives `val`.
    spec fn gives(&self, index: u8, val: Self::Item) -> bool;

    /// Whether a write of register `index` turns `self` into `after`.
    spec fn becomes(&self, index: u8, val: Self::Item, after: Self) -> bool;

    fn new() -> (r: Self)
        ensures
            r.is_new(),
    ;

    fn get(&self, index: u8) -> (r: Self::Item)
        ensures
            self.gives(index, r),
    ;

    fn set(&mut self, index: u8, val: Self::Item)
        ensures
            old(self).becomes(index, val, *final(self)),
    ;
}

/// A bank of registers and the index of the one that is accessed. Only the lowest `ADDR_BITS` bits
/// of the index count.
#[derive(Debug)]
pub struct RegisterBank<T, const ADDR_BITS: u8> {
    pub regs: T,
    pub current_index: u8,
}

/// The number of registers that `bits` bits can tell apart; an index has at most eight bits.
pub open spec fn bank_size(bits: u8) -> int {
    if bits < 8 {
        pow2(bits as nat) as int
    } else {
        0x100
    }
}

impl<T: BankData, const ADDR_BITS: u8> RegisterBank<T, ADDR_BITS> {
    pub fn new() -> (r: Self)
        ensures
            r.regs.is_new(),
            r.current_index == 0,
    {
        Self { regs: T::new(), current_index: 0 }
    }

    pub fn read_addr(&self) -> (r: u8)
        ensures
            r == self.current_index,
    {
        self.current_index
    }

    pub fn write_addr(&mut self, addr: u8)
        ensures
            final(self).current_index == addr,
            final(self).regs == old(self).regs,
    {
        self.current_index = addr;
    }

    /// The register that is accessed.
    pub open spec fn selected(&self) -> int {
        self.current_index as int % bank_size(ADDR_BITS)
    }

    fn index(&self) -> (r: u8)
        ensures
            r == self.selected(),
    {
        proof {
            vstd::arithmetic::power2::lemma2_to64();
        }
        let size: u16 = match ADDR_BITS {
            0 => 1,
            1 => 2,
            2 => 4,
            3 => 8,
            4 => 16,
            5 => 32,
            6 => 64,
            7 => 128,
            _ => 256,
        };
        (self.current_index as u16 % size) as u8
    }

    pub fn read(&self) -> (r: T::Item)
        ensures
            self.regs.gives(self.selected() as u8, r),
    {
        self.regs.get(self.index())
    }

    pub fn write(&mut self, val: T::Item)
        ensures
            old(self).regs.becomes(old(self).selected() as u8, val, final(self).regs),
            final(self).current_index == old(self).current_index,
    {
        let index: u8 = self.index();
        self.regs.set(index, val);
    }

    pub fn current_addr(&self) -> (r: u8)
        ensures
            r == self.current_index,
    {
        self.current_index
    }
}

impl<T: BankData, const ADDR_BITS: u8> Default for RegisterBank<T, ADDR_BITS> {
    fn default() -> (r: Self)
        ensures
            r.regs.is_new(),
            r.current_index == 0,
    {
        Self::new()
    }
}

/// One more bit of the index tells twice as many registers apart, up to eight bits.
pub proof fn banks_double_with_each_bit(bits: u8)
    ensures
        bank_size(0) == 1,
        bits < 8 ==> bank_size((bits + 1) as u8) == 2 * bank_size(bits),
        bits >= 8 ==> bank_size(bits) == 0x100,
{
    vstd::arithmetic::power2::lemma2_to64();
    if bits < 8 {
        vstd::arithmetic::power2::lemma_pow2_unfold((bits + 1) as nat);
    }
}

} // verus!
