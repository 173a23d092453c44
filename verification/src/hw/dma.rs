//! The DMA controllers. Only the channel of the floppy drive moves data.
use vstd::prelude::*;

use crate::bytes::bit_at;

verus! {

/// A 16-bit register that is accessed a byte at a time, the low byte first.
#[derive(Copy, Clone, Debug, PartialEq, Eq, Structural)]
pub struct Reg16 {
    pub value: u16,
    pub next_is_high: bool,
}

impl Reg16 {
    pub open spec fn written(self, byte: u8) -> Reg16 {
        Reg16 {
            value: if self.next_is_high {
                (self.value % 0x100 + 0x100 * byte) as u16
            } else {
                (self.value / 0x100 * 0x100 + byte) as u16
            },
            next_is_high: !self.next_is_high,
        }
    }

    pub open spec fn byte(&self) -> u8 {
        if self.next_is_high {
            (self.value / 0x100) as u8
        } else {
            (self.value % 0x100) as u8
        }
    }

    pub fn new(value: u16) -> (r: Self)
        ensures
            r == (Reg16 { value, next_is_high: false }),
    {
        Reg16 { value, next_is_high: false }
    }

    pub fn read(&mut self) -> (r: u8)
        ensures
            r == old(self).byte(),
            *final(self) == (Reg16 { next_is_high: !old(self).next_is_high, ..*old(self) }),
    {
        let r: u8 = if self.next_is_high {
            (self.value / 0x100) as u8
        } else {
            (self.value % 0x100) as u8
        };
        self.next_is_high = !self.next_is_high;
        r
    }

    pub fn write(&mut self, byte: u8)
        ensures
            *final(self) == old(self).written(byte),
    {
        self.value = if self.next_is_high {
            self.value % 0x100 + 0x100 * byte as u16
        } else {
            self.value / 0x100 * 0x100 + byte as u16
        };
        self.next_is_high = !self.next_is_high;
    }

    pub fn make_next_byte_low(&mut self)
        ensures
            *final(self) == (Reg16 { next_is_high: false, ..*old(self) }),
    {
        self.next_is_high = false;
    }
}

/// Two bytes that are written one after the other make up the value, and are read back in the
/// same order.
pub proof fn two_writes_set_the_value(reg: Reg16, low: u8, high: u8)
    requires
        !reg.next_is_high,
    ensures
        reg.written(low).written(high) == (Reg16 {
            value: (low + 0x100 * high) as u16,
            next_is_high: false,
        }),
        reg.written(low).written(high).byte() == low,
        (Reg16 { next_is_high: true, ..reg.written(low).written(high) }).byte() == high,
{
}

#[derive(Copy, Clone, Debug, PartialEq, Eq, Structural)]
pub struct Mode {
    pub selected_channel: u8,
    pub operation: u8,
    pub decrement: bool,
    pub mode: u8,
}

impl Mode {
    pub open spec fn of_value(val: u8) -> Mode {
        Mode {
            selected_channel: (val % 4) as u8,
            operation: (val / 4 % 4) as u8,
            decrement: bit_at(val as int, 0x20),
            mode: (val / 0x40) as u8,
        }
    }

    pub fn from_value(val: u8) -> (r: Self)
        ensures
            r == Self::of_value(val),
    {
        Mode {
            selected_channel: val % 4,
            operation: val / 4 % 4,
            decrement: val / 0x20 % 2 == 1,
            mode: val / 0x40,
        }
    }
}

/// What the floppy controller needs to know of its DMA channel.
#[derive(Copy, Clone, Debug, PartialEq, Eq, Structural)]
pub struct FddDma {
    pub addr: u32,
    pub len: u16,
    pub mode: u8,
}

#[derive(Copy, Clone, Debug)]
pub struct Dma {
    pub addresses: [Reg16; 8],
    pub counts: [Reg16; 8],
    pub page_addrs: [u8; 8],
    pub mask: [bool; 8],
    pub fdd: FddDma,
}

/// The state of the controllers.
pub struct DmaModel {
    pub addresses: Seq<Reg16>,
    pub counts: Seq<Reg16>,
    pub page_addrs: Seq<u8>,
    pub mask: Seq<bool>,
    pub fdd: FddDma,
}

impl View for Dma {
    type V = DmaModel;

    open spec fn view(&self) -> DmaModel {
        DmaModel {
            addresses: self.addresses@,
            counts: self.counts@,
            page_addrs: self.page_addrs@,
            mask: self.mask@,
            fdd: self.fdd,
        }
    }
}

impl DmaModel {
    /// All registers are 0, and every channel is masked.
    pub open spec fn is_fresh(&self) -> bool {
        &&& self.addresses == Seq::new(8, |i: int| Reg16 { value: 0, next_is_high: false })
        &&& self.counts == Seq::new(8, |i: int| Reg16 { value: 0, next_is_high: false })
        &&& self.page_addrs == Seq::new(8, |i: int| 0u8)
        &&& self.mask == Seq::new(8, |i: int| true)
        &&& self.fdd == (FddDma { addr: 0, len: 0, mode: 0 })
    }

    /// The floppy controller learned where its transfer goes.
    pub open spec fn fdd_updated(self) -> DmaModel {
        DmaModel {
            fdd: FddDma {
                addr: (self.addresses[2].value + 0x1_0000 * self.page_addrs[2]) as u32,
                len: self.counts[2].value,
                ..self.fdd
            },
            ..self
        }
    }

    /// An address register was read: the other byte comes next.
    pub open spec fn address_read(self, channel: int) -> DmaModel {
        DmaModel {
            addresses: self.addresses.update(
                channel,
                Reg16 {
                    next_is_high: !self.addresses[channel].next_is_high,
                    ..self.addresses[channel]
                },
            ),
            ..self
        }
    }

    /// A count register was read: the other byte comes next.
    pub open spec fn count_read(self, channel: int) -> DmaModel {
        DmaModel {
            counts: self.counts.update(
                channel,
                Reg16 {
                    next_is_high: !self.counts[channel].next_is_high,
                    ..self.counts[channel]
                },
            ),
            ..self
        }
    }

    pub open spec fn address_written(self, channel: int, val: u8) -> DmaModel {
        let after = DmaModel {
            addresses: self.addresses.update(channel, self.addresses[channel].written(val)),
            ..self
        };
        if channel == 2 {
            after.fdd_updated()
        } else {
            after
        }
    }

    pub open spec fn count_written(self, channel: int, val: u8) -> DmaModel {
        DmaModel { counts: self.counts.update(channel, self.counts[channel].written(val)), ..self }
    }

    pub open spec fn page_written(self, addr: int, val: u8) -> DmaModel {
        let after = DmaModel { page_addrs: self.page_addrs.update(addr, val), ..self };
        if addr == 2 {
            after.fdd_updated()
        } else {
            after
        }
    }

    pub open spec fn mode_written(self, dma_index: int, val: u8) -> DmaModel {
        DmaModel {
            fdd: FddDma {
                mode: if dma_index == 0 && Mode::of_value(val).selected_channel == 2 {
                    Mode::of_value(val).operation
                } else {
                    self.fdd.mode
                },
                ..self.fdd
            },
            ..self
        }
    }

    pub open spec fn master_cleared(self, dma_index: int) -> DmaModel {
        DmaModel {
            mask: Seq::new(8, |i: int| i / 4 == dma_index || self.mask[i]),
            ..self
        }.flip_flop_cleared(dma_index)
    }

    /// The four registers of a controller are accessed at their low bytes next.
    pub open spec fn lows(regs: Seq<Reg16>, dma_index: int) -> Seq<Reg16> {
        Seq::new(
            8,
            |i: int|
                if i / 4 == dma_index {
                    Reg16 { next_is_high: false, ..regs[i] }
                } else {
                    regs[i]
                },
        )
    }

    pub open spec fn flip_flop_cleared(self, dma_index: int) -> DmaModel {
        DmaModel {
            addresses: Self::lows(self.addresses, dma_index),
            counts: Self::lows(self.counts, dma_index),
            ..self
        }
    }
}

impl Dma {
    pub fn new() -> (r: Self)
        ensures
            r@.is_fresh(),
    {
        let reg = Reg16::new(0);
        let r = Self {
            addresses: [reg;8],
            counts: [reg;8],
            page_addrs: [0u8;8],
            mask: [true;8],
            fdd: FddDma { addr: 0, len: 0, mode: 0 },
        };
        assert(r@.addresses =~= Seq::new(8, |i: int| Reg16 { value: 0, next_is_high: false }));
        assert(r@.counts =~= Seq::new(8, |i: int| Reg16 { value: 0, next_is_high: false }));
        assert(r@.page_addrs =~= Seq::new(8, |i: int| 0u8));
        assert(r@.mask =~= Seq::new(8, |i: int| true));
        r
    }

    pub fn read_address(&mut self, channel: u8) -> (r: u8)
        requires
            channel < 8,
        ensures
            r == old(self)@.addresses[channel as int].byte(),
            final(self)@ == old(self)@.address_read(channel as int),
    {
        let mut reg = self.addresses[channel as usize];
        let r: u8 = reg.read();
        self.addresses[channel as usize] = reg;
        r
    }

    pub fn write_address(&mut self, channel: u8, val: u8)
        requires
            channel < 8,
        ensures
            final(self)@ == old(self)@.address_written(channel as int, val),
    {
        let mut reg = self.addresses[channel as usize];
        reg.write(val);
        self.addresses[channel as usize] = reg;
        if channel == 2 {
            self.update_fdd_addr();
        }
    }

    pub fn read_count(&mut self, channel: u8) -> (r: u8)
        requires
            channel < 8,
        ensures
            r == old(self)@.counts[channel as int].byte(),
            final(self)@ == old(self)@.count_read(channel as int),
    {
        let mut reg = self.counts[channel as usize];
        let r: u8 = reg.read();
        self.counts[channel as usize] = reg;
        r
    }

    /// A count takes effect on the floppy channel with the next write of an address.
    pub fn write_count(&mut self, channel: u8, val: u8)
        requires
            channel < 8,
        ensures
            final(self)@ == old(self)@.count_written(channel as int, val),
    {
        let mut reg = self.counts[channel as usize];
        reg.write(val);
        self.counts[channel as usize] = reg;
    }

    pub fn read_status(&self, dma_index: u8) -> (r: u8)
        ensures
            r == 1,
    {
        1
    }

    /// Masks are accepted without effect.
    pub fn write_mask(&mut self, dma_index: usize, val: u8)
        ensures
            final(self)@ == old(self)@,
    {
    }

    /// Sets the mode of a channel. Transfers to falling addresses are not supported.
    pub fn write_mode(&mut self, dma_index: u8, val: u8)
        requires
            !Mode::of_value(val).decrement,
        ensures
            final(self)@ == old(self)@.mode_written(dma_index as int, val),
    {
        let mode = Mode::from_value(val);
        if dma_index == 0 && mode.selected_channel == 2 {
            self.fdd.mode = mode.operation;
        }
    }

    /// The registers of channel `n` are accessed at their low bytes next.
    fn make_low(&mut self, n: usize)
        requires
            n < 8,
        ensures
            final(self)@ == (DmaModel {
                addresses: old(self)@.addresses.update(
                    n as int,
                    Reg16 { next_is_high: false, ..old(self)@.addresses[n as int] },
                ),
                counts: old(self)@.counts.update(
                    n as int,
                    Reg16 { next_is_high: false, ..old(self)@.counts[n as int] },
                ),
                ..old(self)@
            }),
    {
        let mut reg = self.addresses[n];
        reg.make_next_byte_low();
        self.addresses[n] = reg;
        let mut reg = self.counts[n];
        reg.make_next_byte_low();
        self.counts[n] = reg;
    }

    pub fn clear_byte_flip_flop(&mut self, dma_index: u8)
        requires
            dma_index < 2,
        ensures
            final(self)@ == old(self)@.flip_flop_cleared(dma_index as int),
    {
        let start: usize = dma_index as usize * 4;
        self.make_low(start);
        self.make_low(start + 1);
        self.make_low(start + 2);
        self.make_low(start + 3);
        assert(self@.addresses =~= DmaModel::lows(old(self)@.addresses, dma_index as int));
        assert(self@.counts =~= DmaModel::lows(old(self)@.counts, dma_index as int));
    }

    pub fn master_clear(&mut self, dma_index: u8)
        requires
            dma_index < 2,
        ensures
            final(self)@ == old(self)@.master_cleared(dma_index as int),
    {
        let start: usize = dma_index as usize * 4;
        self.mask[start] = true;
        self.mask[start + 1] = true;
        self.mask[start + 2] = true;
        self.mask[start + 3] = true;
        assert(self@.mask =~= Seq::new(8, |i: int| i / 4 == dma_index || old(self)@.mask[i]));
        self.clear_byte_flip_flop(dma_index);
    }

    pub fn read_page_addr_reg(&self, addr: u8) -> (r: u8)
        requires
            addr < 8,
        ensures
            r == self@.page_addrs[addr as int],
    {
        self.page_addrs[addr as usize]
    }

    pub fn write_page_addr_reg(&mut self, addr: u8, val: u8)
        requires
            addr < 8,
        ensures
            final(self)@ == old(self)@.page_written(addr as int, val),
    {
        self.page_addrs[addr as usize] = val;
        if addr == 2 {
            self.update_fdd_addr();
        }
    }

    fn update_fdd_addr(&mut self)
        ensures
            final(self)@ == old(self)@.fdd_updated(),
    {
        self.fdd.addr = self.addresses[2].value as u32 + 0x1_0000 * self.page_addrs[2] as u32;
        self.fdd.len = self.counts[2].value;
    }

    pub fn snapshot(&self) -> (r: Dma)
        ensures
            r == *self,
    {
        *self
    }

    pub fn restore(&mut self, dma: Dma)
        ensures
            *final(self) == dma,
    {
        *self = dma;
    }
}

/// The floppy controller's channel is channel 2: it learns the count that was written before, and an
/// address of sixteen bits in the page of 64 KiB that the page register names.
pub proof fn floppy_channel_learns_its_address(dma: DmaModel, low: u8, high: u8, page: u8)
    requires
        dma.addresses.len() == 8,
        dma.counts.len() == 8,
        dma.page_addrs.len() == 8,
        !dma.addresses[2].next_is_high,
    ensures
        ({
            let after = dma.address_written(2, low).address_written(2, high).page_written(2, page);
            &&& after.fdd.addr == low + 0x100 * high + 0x1_0000 * page
            &&& after.fdd.len == dma.counts[2].value
            &&& after.fdd.mode == dma.fdd.mode
        }),
{
    two_writes_set_the_value(dma.addresses[2], low, high);
}

/// The mode of the floppy controller's channel is in bits 2 and 3 of a mode word whose lowest two
/// bits name channel 2 of the first controller.
pub proof fn mode_words_name_their_channel(dma: DmaModel, val: u8)
    ensures
        dma.mode_written(0, val).fdd.mode == (if val % 4 == 2 {
            (val / 4 % 4) as u8
        } else {
            dma.fdd.mode
        }),
        dma.mode_written(1, val) == dma,
{
}

} // verus!
