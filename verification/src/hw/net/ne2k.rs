//! The network card, an NE2000.
use vstd::prelude::*;

use crate::bytes::{bit_at, copy_range, overwrite, weigh8, weight, write_range};
use crate::hw::net::unat::{padded, Packet};
use crate::hw::net::wire::{broadcast, is_broadcast, is_multicast, multicast, parse_ethernet};
use crate::hw::pci::{
    CommonPciHeader, DeviceWriteEvent, GeneralDeviceHeader, PciCommandRegister, PciDevice,
};
use crate::hw::pic::{still_accepts, DualDynamicIrqLine, IrqState, IrqSystem};
use crate::hw::ports::{byte_read, from_u8, PortError, PortValue, PortWidth};

verus! {

/// The first address of the packet memory.
pub const RAM_START: u16 = 0x4000;

/// The private memory of the card: the address PROM and 32 KiB for packets.
#[derive(Debug)]
pub struct PrivateRam {
    mac_addr: [u8; 32],
    data: Vec<u8>,
}

pub struct RamModel {
    pub mac_addr: Seq<u8>,
    pub data: Seq<u8>,
}

impl View for PrivateRam {
    type V = RamModel;

    closed spec fn view(&self) -> RamModel {
        RamModel { mac_addr: self.mac_addr@, data: self.data@ }
    }
}

impl RamModel {
    pub open spec fn wf(&self) -> bool {
        self.mac_addr.len() == 32 && self.data.len() == 0x8000
    }

    /// The byte at `pos`. Nothing answers between the PROM and the packet memory; behind the
    /// packet memory all bytes are 0.
    pub open spec fn byte(&self, pos: int) -> u8 {
        if pos < 32 {
            self.mac_addr[pos]
        } else if pos < RAM_START {
            0xff
        } else if pos < RAM_START + 0x8000 {
            self.data[pos - RAM_START]
        } else {
            0
        }
    }

    pub open spec fn with_byte(self, pos: int, val: u8) -> RamModel {
        if RAM_START <= pos < RAM_START + 0x8000 {
            RamModel { data: self.data.update(pos - RAM_START, val), ..self }
        } else {
            self
        }
    }

    /// Bytes were copied to `start`, unless that lies before the packet memory.
    pub open spec fn with_bytes(self, start: int, bytes: Seq<u8>) -> RamModel {
        if start >= RAM_START {
            RamModel { data: overwrite(self.data, start - RAM_START, bytes), ..self }
        } else {
            self
        }
    }

    /// The bytes fit into the packet memory.
    pub open spec fn fits(&self, start: int, len: int) -> bool {
        start >= RAM_START ==> start + len <= RAM_START + 0x8000
    }
}

/// The PROM: each byte of the hardware address twice, and a signature.
pub open spec fn prom() -> Seq<u8> {
    seq![
        0xB0u8,
        0xB0,
        0xC4,
        0xC4,
        0x20,
        0x20,
        0,
        0,
        0,
        0,
        0,
        0,
        0x57,
        0x57,
        0x57,
        0x57,
        0x57,
        0x57,
        0x57,
        0x57,
        0x57,
        0x57,
        0x57,
        0x57,
        0x57,
        0x57,
        0x57,
        0x57,
        0x57,
        0x57,
        0x57,
        0x57,
    ]
}

impl PrivateRam {
    pub fn new() -> (r: Self)
        ensures
            r@.wf(),
            r@.mac_addr == prom(),
            r@.data == Seq::new(0x8000, |i: int| 0u8),
    {
        let r = Self {
            mac_addr: [
                0xB0,
                0xB0,
                0xC4,
                0xC4,
                0x20,
                0x20,
                0,
                0,
                0,
                0,
                0,
                0,
                0x57,
                0x57,
                0x57,
                0x57,
                0x57,
                0x57,
                0x57,
                0x57,
                0x57,
                0x57,
                0x57,
                0x57,
                0x57,
                0x57,
                0x57,
                0x57,
                0x57,
                0x57,
                0x57,
                0x57,
            ],
            data: vec![0u8;0x8000],
        };
        assert(r@.mac_addr =~= prom());
        assert(r@.data =~= Seq::new(0x8000, |i: int| 0u8));
        r
    }

    pub fn read(&self, pos: u16) -> (r: u8)
        requires
            self@.wf(),
        ensures
            r == self@.byte(pos as int),
    {
        if pos < 32 {
            self.mac_addr[pos as usize]
        } else if pos < RAM_START {
            0xff
        } else {
            let n: usize = (pos - RAM_START) as usize;
            if n < self.data.len() {
                self.data[n]
            } else {
                0
            }
        }
    }

    pub fn write(&mut self, pos: u16, val: u8)
        requires
            old(self)@.wf(),
        ensures
            final(self)@.wf(),
            final(self)@ == old(self)@.with_byte(pos as int, val),
    {
        if pos >= RAM_START {
            let n: usize = (pos - RAM_START) as usize;
            if n < self.data.len() {
                self.data.set(n, val);
            }
        }
    }

    fn copy_from_slice(&mut self, start_offset: u16, bytes: &[u8])
        requires
            old(self)@.wf(),
            old(self)@.fits(start_offset as int, bytes@.len() as int),
        ensures
            final(self)@.wf(),
            final(self)@ == old(self)@.with_bytes(start_offset as int, bytes@),
    {
        if start_offset >= RAM_START {
            write_range(&mut self.data, (start_offset - RAM_START) as usize, bytes);
        }
    }

    /// The bytes from `start` to `end` of the packet memory.
    fn range(&self, start: u16, end: u16) -> (r: Vec<u8>)
        requires
            self@.wf(),
            RAM_START <= start <= end <= RAM_START + 0x8000,
        ensures
            r@ == self@.data.subrange(start - RAM_START, end - RAM_START),
    {
        copy_range(&self.data, (start - RAM_START) as usize, (end - RAM_START) as usize)
    }

    fn copy(&self) -> (r: Self)
        ensures
            r@ == self@,
    {
        let data = copy_range(&self.data, 0, self.data.len());
        assert(data@ =~= self.data@);
        PrivateRam { mac_addr: self.mac_addr, data }
    }
}

/// The control register as a byte: stop, start, transmit, three bits of the remote DMA command and
/// two of the page.
#[derive(Copy, Clone, Debug, PartialEq, Eq, Structural)]
pub struct ControlRegister {
    pub stop: bool,
    pub start: bool,
    pub transmit_packet: bool,
    pub remote_dma_command: u8,
    pub page_select: u8,
}

impl ControlRegister {
    pub open spec fn wf(&self) -> bool {
        self.remote_dma_command < 8 && self.page_select < 4
    }

    pub open spec fn of_value(v: u8) -> ControlRegister {
        ControlRegister {
            stop: bit_at(v as int, 1),
            start: bit_at(v as int, 2),
            transmit_packet: bit_at(v as int, 4),
            remote_dma_command: (v / 8 % 8) as u8,
            page_select: (v / 64) as u8,
        }
    }

    pub open spec fn value_spec(&self) -> int {
        weight(self.stop, 1) + weight(self.start, 2) + weight(self.transmit_packet, 4) + 8
            * self.remote_dma_command + 64 * self.page_select
    }

    pub fn from_value(v: u8) -> (r: Self)
        ensures
            r == Self::of_value(v),
            r.wf(),
    {
        ControlRegister {
            stop: v % 2 == 1,
            start: v / 2 % 2 == 1,
            transmit_packet: v / 4 % 2 == 1,
            remote_dma_command: v / 8 % 8,
            page_select: v / 64,
        }
    }

    pub fn value(&self) -> (r: u8)
        requires
            self.wf(),
        ensures
            r == self.value_spec(),
    {
        weigh8(self.stop, 1) + weigh8(self.start, 2) + weigh8(self.transmit_packet, 4) + 8
            * self.remote_dma_command + 64 * self.page_select
    }
}

/// The interrupt causes.
pub const ISR_PACKET_RECEIVED: u8 = 0x01;

pub const ISR_PACKET_TRANSMITTED: u8 = 0x02;

pub const ISR_REMOTE_DMA_COMPLETE: u8 = 0x40;

pub const ISR_RESET_STATUS: u8 = 0x80;

/// The registers of the card.
#[derive(Copy, Clone, Debug)]
pub struct Ne2kRegs {
    pub control_reg: ControlRegister,
    pub isr: u8,
    pub imr: u8,
    pub dcr: u8,
    pub tcr: u8,
    pub tsr: u8,
    pub rcr: u8,
    pub rsr: u8,
    // Page 0
    pub local_dma: u16,
    pub page_start: u8,
    pub page_stop: u8,
    pub bound_ptr: u8,
    pub tx_page_start: u8,
    pub num_coll: u8,
    pub tx_bytes: u16,
    pub fifo: u8,
    pub remote_dma: u16,
    pub remote_start: u16,
    pub remote_bytes: u16,
    pub tallycnt: (u8, u8, u8),
    // Page 1
    pub curr_page: u8,
    // Page 2
    pub remote_next_packet_pointer: u8,
    pub local_packet_pointer: u8,
    pub address_count: u16,
}

/// The low byte of a word replaced.
pub open spec fn with_low(v: u16, b: u8) -> u16 {
    (v / 0x100 * 0x100 + b) as u16
}

/// The high byte of a word replaced.
pub open spec fn with_high(v: u16, b: u8) -> u16 {
    (v % 0x100 + 0x100 * b) as u16
}

fn set_low(v: u16, b: u8) -> (r: u16)
    ensures
        r == with_low(v, b),
{
    v / 0x100 * 0x100 + b as u16
}

fn set_high(v: u16, b: u8) -> (r: u16)
    ensures
        r == with_high(v, b),
{
    v % 0x100 + 0x100 * b as u16
}

impl Ne2kRegs {
    pub open spec fn wf(&self) -> bool {
        self.control_reg.wf()
    }

    /// The registers after a reset.
    pub open spec fn reset_spec() -> Ne2kRegs {
        Ne2kRegs {
            control_reg: ControlRegister {
                stop: true,
                start: false,
                transmit_packet: false,
                remote_dma_command: 4,
                page_select: 0,
            },
            isr: ISR_RESET_STATUS,
            imr: 0,
            dcr: 0x04,
            tcr: 0,
            tsr: 0,
            rcr: 0,
            rsr: 0,
            local_dma: 0,
            page_start: 0,
            page_stop: 0,
            bound_ptr: 0,
            tx_page_start: 0,
            num_coll: 0,
            tx_bytes: 0,
            fifo: 0,
            remote_dma: 0,
            remote_start: 0,
            remote_bytes: 0,
            tallycnt: (0, 0, 0),
            curr_page: 0,
            remote_next_packet_pointer: 0,
            local_packet_pointer: 0,
            address_count: 0,
        }
    }

    pub fn reset() -> (r: Self)
        ensures
            r == Self::reset_spec(),
            r.wf(),
    {
        Ne2kRegs {
            control_reg: ControlRegister {
                stop: true,
                start: false,
                transmit_packet: false,
                remote_dma_command: 4,
                page_select: 0,
            },
            isr: ISR_RESET_STATUS,
            imr: 0,
            // 32-bit DMA
            dcr: 0x04,
            tcr: 0,
            tsr: 0,
            rcr: 0,
            rsr: 0,
            local_dma: 0,
            page_start: 0,
            page_stop: 0,
            bound_ptr: 0,
            tx_page_start: 0,
            num_coll: 0,
            tx_bytes: 0,
            fifo: 0,
            remote_dma: 0,
            remote_start: 0,
            remote_bytes: 0,
            tallycnt: (0, 0, 0),
            curr_page: 0,
            remote_next_packet_pointer: 0,
            local_packet_pointer: 0,
            address_count: 0,
        }
    }

    /// The number of bytes that a step of remote DMA moves.
    pub open spec fn transfer_size(&self) -> int {
        if self.dcr % 2 == 1 {
            2
        } else {
            1
        }
    }

    fn num_bytes(&self) -> (r: u16)
        ensures
            r == self.transfer_size(),
    {
        if self.dcr % 2 == 1 {
            2
        } else {
            1
        }
    }

    /// A step of remote DMA does not run out of the address space.
    pub open spec fn can_step(&self) -> bool {
        self.remote_dma + self.transfer_size() <= 0xffff
    }

    /// The registers after a step of remote DMA: the address wraps from the last page to the first
    /// one, and the end of the transfer is reported.
    pub open spec fn stepped(self) -> Ne2kRegs {
        let n = self.transfer_size();
        let next = self.remote_dma + n;
        let left = if self.remote_bytes >= n {
            self.remote_bytes - n
        } else {
            0
        };
        Ne2kRegs {
            remote_dma: (if next == self.page_stop * 0x100 {
                self.page_start * 0x100
            } else {
                next
            }) as u16,
            remote_bytes: left as u16,
            isr: if left == 0 {
                self.isr | ISR_REMOTE_DMA_COMPLETE
            } else {
                self.isr
            },
            ..self
        }
    }

    /// Moves remote DMA on; returns whether the transfer has ended.
    fn step(&mut self) -> (r: bool)
        requires
            old(self).can_step(),
        ensures
            *final(self) == old(self).stepped(),
            r == (final(self).remote_bytes == 0),
    {
        let n: u16 = self.num_bytes();
        self.remote_dma = self.remote_dma + n;
        if self.remote_dma == self.page_stop as u16 * 0x100 {
            self.remote_dma = self.page_start as u16 * 0x100;
        }
        self.remote_bytes = if self.remote_bytes >= n {
            self.remote_bytes - n
        } else {
            0
        };
        if self.remote_bytes == 0 {
            self.isr = self.isr | ISR_REMOTE_DMA_COMPLETE;
            true
        } else {
            false
        }
    }

    /// The register behind an address from 1 to 15, on the page that is selected. Some registers
    /// of page 2 cannot be read.
    pub open spec fn register(&self, addr: int, phys_addr: Seq<u8>, hash: Seq<u8>) -> int {
        let page = self.control_reg.page_select;
        if page == 0 {
            if addr == 0x1 {
                self.local_dma as int % 0x100
            } else if addr == 0x2 {
                self.local_dma as int / 0x100
            } else if addr == 0x3 {
                self.bound_ptr as int
            } else if addr == 0x4 {
                self.tsr as int
            } else if addr == 0x5 {
                self.num_coll as int
            } else if addr == 0x6 {
                self.fifo as int
            } else if addr == 0x7 {
                self.isr as int
            } else if addr == 0x8 {
                self.remote_dma as int % 0x100
            } else if addr == 0x9 {
                self.remote_dma as int / 0x100
            } else if addr == 0xa {
                0x50
            } else if addr == 0xb {
                0x43
            } else if addr == 0xc {
                self.rsr as int
            } else if addr == 0xd {
                self.tallycnt.0 as int
            } else if addr == 0xe {
                self.tallycnt.1 as int
            } else {
                self.tallycnt.2 as int
            }
        } else if page == 1 {
            if addr <= 6 {
                phys_addr[addr - 1] as int
            } else if addr == 7 {
                self.curr_page as int
            } else {
                hash[addr - 8] as int
            }
        } else if page == 2 {
            if addr == 0x1 {
                self.page_start as int
            } else if addr == 0x2 {
                self.page_stop as int
            } else if addr == 0x3 {
                self.remote_next_packet_pointer as int
            } else if addr == 0x4 {
                self.tx_page_start as int
            } else if addr == 0x5 {
                self.local_packet_pointer as int
            } else if addr == 0x6 {
                self.address_count as int % 0x100
            } else if addr == 0x7 {
                self.address_count as int / 0x100
            } else if addr == 0xc {
                self.rcr as int
            } else if addr == 0xd {
                self.tcr as int
            } else if addr == 0xe {
                self.dcr as int
            } else {
                self.imr as int
            }
        } else if addr == 5 || addr == 6 {
            0x40
        } else {
            0
        }
    }

    fn read_register(&self, addr: u16, phys_addr: &[u8; 6], hash: &[u8; 8]) -> (r: u8)
        requires
            self.wf(),
            1 <= addr < 16,
            self.control_reg.page_select == 2 ==> !(8 <= addr <= 0xb),
        ensures
            r == self.register(addr as int, phys_addr@, hash@),
    {
        match self.control_reg.page_select {
            0 => match addr {
                0x1 => (self.local_dma % 0x100) as u8,
                0x2 => (self.local_dma / 0x100) as u8,
                0x3 => self.bound_ptr,
                0x4 => self.tsr,
                0x5 => self.num_coll,
                0x6 => self.fifo,
                0x7 => self.isr,
                0x8 => (self.remote_dma % 0x100) as u8,
                0x9 => (self.remote_dma / 0x100) as u8,
                0xa => 0x50,
                0xb => 0x43,
                0xc => self.rsr,
                0xd => self.tallycnt.0,
                0xe => self.tallycnt.1,
                _ => self.tallycnt.2,
            },
            1 => if addr <= 6 {
                phys_addr[(addr - 1) as usize]
            } else if addr == 7 {
                self.curr_page
            } else {
                hash[(addr - 8) as usize]
            },
            2 => match addr {
                0x1 => self.page_start,
                0x2 => self.page_stop,
                0x3 => self.remote_next_packet_pointer,
                0x4 => self.tx_page_start,
                0x5 => self.local_packet_pointer,
                0x6 => (self.address_count % 0x100) as u8,
                0x7 => (self.address_count / 0x100) as u8,
                0xc => self.rcr,
                0xd => self.tcr,
                0xe => self.dcr,
                _ => self.imr,
            },
            _ => if addr == 5 || addr == 6 {
                0x40
            } else {
                0
            },
        }
    }

    /// Whether a register can be written: page 2 has registers that cannot, and two transmit
    /// options are not supported.
    pub open spec fn write_ok(&self, addr: int, val: u8) -> bool {
        let page = self.control_reg.page_select;
        &&& page == 0 && addr == 0xd ==> !bit_at(val as int, 1) && !bit_at(val as int, 8)
        &&& page == 2 ==> addr != 4 && addr < 8
    }

    /// The registers after a write of one behind an address from 1 to 15.
    pub open spec fn written(self, addr: int, val: u8) -> Ne2kRegs {
        let page = self.control_reg.page_select;
        if page == 0 {
            if addr == 1 {
                Ne2kRegs { page_start: val, ..self }
            } else if addr == 2 {
                Ne2kRegs { page_stop: val, ..self }
            } else if addr == 3 {
                Ne2kRegs { bound_ptr: val, ..self }
            } else if addr == 4 {
                Ne2kRegs { tx_page_start: val, ..self }
            } else if addr == 5 {
                Ne2kRegs { tx_bytes: with_low(self.tx_bytes, val), ..self }
            } else if addr == 6 {
                Ne2kRegs { tx_bytes: with_high(self.tx_bytes, val), ..self }
            } else if addr == 7 {
                Ne2kRegs { isr: self.isr & !val & 0x7f, ..self }
            } else if addr == 8 {
                Ne2kRegs {
                    remote_start: with_low(self.remote_start, val),
                    remote_dma: with_low(self.remote_start, val),
                    ..self
                }
            } else if addr == 9 {
                Ne2kRegs {
                    remote_start: with_high(self.remote_start, val),
                    remote_dma: with_high(self.remote_start, val),
                    ..self
                }
            } else if addr == 0xa {
                Ne2kRegs { remote_bytes: with_low(self.remote_bytes, val), ..self }
            } else if addr == 0xb {
                Ne2kRegs { remote_bytes: with_high(self.remote_bytes, val), ..self }
            } else if addr == 0xc {
                Ne2kRegs { rcr: val, ..self }
            } else if addr == 0xd {
                Ne2kRegs { tcr: val, ..self }
            } else if addr == 0xe {
                Ne2kRegs { dcr: val, ..self }
            } else {
                Ne2kRegs { imr: val, ..self }
            }
        } else if page == 1 {
            if addr == 7 {
                Ne2kRegs { curr_page: val, ..self }
            } else {
                self
            }
        } else if page == 2 {
            if addr == 1 {
                Ne2kRegs { local_dma: with_low(self.local_dma, val), ..self }
            } else if addr == 2 {
                Ne2kRegs { local_dma: with_high(self.local_dma, val), ..self }
            } else if addr == 3 {
                Ne2kRegs { remote_next_packet_pointer: val, ..self }
            } else if addr == 5 {
                Ne2kRegs { local_packet_pointer: val, ..self }
            } else if addr == 6 {
                Ne2kRegs { address_count: with_low(self.address_count, val), ..self }
            } else {
                Ne2kRegs { address_count: with_high(self.address_count, val), ..self }
            }
        } else {
            self
        }
    }

    fn write_page0(&mut self, addr: u16, val: u8)
        requires
            old(self).wf(),
            old(self).control_reg.page_select == 0,
            1 <= addr < 16,
        ensures
            final(self).wf(),
            *final(self) == old(self).written(addr as int, val),
    {
        match addr {
            1 => self.page_start = val,
            2 => self.page_stop = val,
            3 => self.bound_ptr = val,
            4 => self.tx_page_start = val,
            5 => self.tx_bytes = set_low(self.tx_bytes, val),
            6 => self.tx_bytes = set_high(self.tx_bytes, val),
            7 => self.isr = self.isr & !val & 0x7f,
            8 => {
                self.remote_start = set_low(self.remote_start, val);
                self.remote_dma = self.remote_start;
            },
            9 => {
                self.remote_start = set_high(self.remote_start, val);
                self.remote_dma = self.remote_start;
            },
            0xa => self.remote_bytes = set_low(self.remote_bytes, val),
            0xb => self.remote_bytes = set_high(self.remote_bytes, val),
            0xc => self.rcr = val,
            0xd => self.tcr = val,
            0xe => self.dcr = val,
            _ => self.imr = val,
        }
    }

    fn write_page2(&mut self, addr: u16, val: u8)
        requires
            old(self).wf(),
            old(self).control_reg.page_select == 2,
            1 <= addr < 8,
            addr != 4,
        ensures
            final(self).wf(),
            *final(self) == old(self).written(addr as int, val),
    {
        match addr {
            0x1 => self.local_dma = set_low(self.local_dma, val),
            0x2 => self.local_dma = set_high(self.local_dma, val),
            0x3 => self.remote_next_packet_pointer = val,
            0x5 => self.local_packet_pointer = val,
            0x6 => self.address_count = set_low(self.address_count, val),
            _ => self.address_count = set_high(self.address_count, val),
        }
    }
}

/// The card.
#[derive(Debug)]
pub struct Ne2k {
    pub pci_header: GeneralDeviceHeader,
    pub regs: Ne2kRegs,
    pub phys_addr: [u8; 6],
    pub multicast_hash: [u8; 8],
    pub private_ram: PrivateRam,
    pub irq: DualDynamicIrqLine,
    pub irq_line: u8,
    pub rx_irq_enabled: bool,
}

#[derive(Debug)]
pub struct Ne2kSnapshot {
    pub pci_header: GeneralDeviceHeader,
    pub regs: Ne2kRegs,
    pub phys_addr: [u8; 6],
    pub multicast_hash: [u8; 8],
    pub private_ram: PrivateRam,
}

/// The card and what it acts on. `sent` is the frame that leaves the card.
pub struct Ne2kWorld {
    pub regs: Ne2kRegs,
    pub phys_addr: Seq<u8>,
    pub hash: Seq<u8>,
    pub ram: RamModel,
    pub line: u8,
    pub irq: IrqState,
    pub sent: Option<Seq<u8>>,
}

/// The number of pages that a frame takes, with its header and checksum.
pub open spec fn pages_for(len: int) -> int {
    (len + 8 + 255) / 256
}

impl Ne2kWorld {
    pub open spec fn with_regs(self, regs: Ne2kRegs) -> Ne2kWorld {
        Ne2kWorld { regs, ..self }
    }

    /// The interrupt line follows the causes that are not masked.
    #[verifier::opaque]
    pub open spec fn irq_checked(self) -> Ne2kWorld {
        if self.regs.isr & self.regs.imr != 0 {
            Ne2kWorld { irq: DualDynamicIrqLine::pulsed(self.irq, self.line as int), ..self }
        } else {
            self
        }
    }

    /// What a step of remote DMA reads.
    pub open spec fn step_value(&self) -> int {
        let at = self.regs.remote_dma as int;
        if self.regs.transfer_size() == 2 {
            self.ram.byte(at) + 0x100 * self.ram.byte(at + 1)
        } else {
            self.ram.byte(at) as int
        }
    }

    /// Remote DMA has moved on by a step.
    pub open spec fn stepped(self) -> Ne2kWorld {
        let w = self.with_regs(self.regs.stepped());
        if w.regs.remote_bytes == 0 {
            w.irq_checked()
        } else {
            w
        }
    }

    /// The steps of an access do not run out of the address space: one for a byte or a word, two
    /// for a double word.
    pub open spec fn steps_ok(&self, width: PortWidth) -> bool {
        &&& self.regs.can_step()
        &&& width == PortWidth::Dword ==> self.regs.stepped().can_step()
    }

    /// What a read of the data port gives.
    pub open spec fn data_value(&self, width: PortWidth) -> int {
        if width == PortWidth::Dword {
            self.step_value() + 0x1_0000 * self.stepped().step_value()
        } else {
            self.step_value() % width.limit()
        }
    }

    pub open spec fn data_read(self, width: PortWidth) -> Ne2kWorld {
        if width == PortWidth::Dword {
            self.stepped().stepped()
        } else {
            self.stepped()
        }
    }

    /// A step of remote DMA has written.
    pub open spec fn step_written(self, val: int) -> Ne2kWorld {
        let at = self.regs.remote_dma as int;
        let low = self.ram.with_byte(at, (val % 0x100) as u8);
        Ne2kWorld {
            ram: if self.regs.transfer_size() == 2 {
                low.with_byte(at + 1, (val / 0x100) as u8)
            } else {
                low
            },
            ..self
        }.stepped()
    }

    pub open spec fn data_written(self, val: PortValue) -> Ne2kWorld {
        let first = self.step_written(val.value as int % 0x1_0000);
        if val.width == PortWidth::Dword {
            first.step_written(val.value as int / 0x1_0000)
        } else {
            first
        }
    }

    pub open spec fn reset(self) -> Ne2kWorld {
        Ne2kWorld {
            regs: Ne2kRegs::reset_spec(),
            phys_addr: seq![0u8, 0, 0, 0, 0, 0],
            hash: seq![0u8, 0, 0, 0, 0, 0, 0, 0],
            ..self
        }
    }

    /// What a read of a register gives.
    pub open spec fn read_value(&self, addr: int) -> int {
        if addr >= 0x10 {
            0
        } else if addr == 0 {
            self.regs.control_reg.value_spec()
        } else {
            self.regs.register(addr, self.phys_addr, self.hash)
        }
    }

    pub open spec fn read_ok(&self, addr: int, width: PortWidth) -> bool {
        &&& addr < 32
        &&& addr == 0x10 ==> self.steps_ok(width)
        &&& self.regs.control_reg.page_select == 2 && width == PortWidth::Byte ==> !(8 <= addr
            <= 0xb)
    }

    /// A port was read. Reading the last one resets the card.
    pub open spec fn read(self, addr: int, width: PortWidth) -> Ne2kWorld {
        if addr == 0x10 {
            self.data_read(width)
        } else if addr == 0x1f && width == PortWidth::Byte {
            self.reset()
        } else {
            self
        }
    }

    pub open spec fn read_result(&self, addr: int, width: PortWidth) -> Result<u32, PortError> {
        if addr == 0x10 {
            Ok(self.data_value(width) as u32)
        } else {
            byte_read(self.read_value(addr), width)
        }
    }

    /// The registers once the control register was written: a command 0 stands for 4, and command
    /// 3 starts to read the packet that the boundary points to.
    pub open spec fn control_set(&self, val: u8) -> Ne2kRegs {
        let cr = ControlRegister::of_value(val);
        let command = if cr.remote_dma_command == 0 {
            4u8
        } else {
            cr.remote_dma_command
        };
        let stopped = if cr.stop {
            self.regs.isr | ISR_RESET_STATUS
        } else {
            self.regs.isr
        };
        let regs = Ne2kRegs {
            control_reg: ControlRegister {
                transmit_packet: self.regs.control_reg.transmit_packet,
                remote_dma_command: command,
                ..cr
            },
            isr: if cr.start {
                stopped & !ISR_RESET_STATUS
            } else {
                stopped
            },
            ..self.regs
        };
        if command == 3 {
            let start = self.regs.bound_ptr * 0x100;
            Ne2kRegs {
                remote_start: start as u16,
                remote_dma: start as u16,
                remote_bytes: (self.ram.byte(start + 2) + 0x100 * self.ram.byte(
                    start + 3,
                )) as u16,
                ..regs
            }
        } else {
            regs
        }
    }

    /// Where the packet to be sent starts. Pages behind the packet memory stand for its start.
    pub open spec fn tx_start(&self) -> int {
        if self.regs.tx_page_start >= 0xc0 {
            RAM_START as int
        } else {
            self.regs.tx_page_start * 0x100
        }
    }

    /// Whether a write of the control register sends a packet.
    pub open spec fn transmits(&self, val: u8) -> bool {
        ControlRegister::of_value(val).transmit_packet && self.regs.tcr / 2 % 4 == 0
    }

    /// Whether there is nothing to send although the card is not started.
    pub open spec fn nothing_to_send(&self, val: u8) -> bool {
        let cr = ControlRegister::of_value(val);
        (cr.stop || !cr.start) && self.regs.tx_bytes == 0
    }

    /// The packet to be sent lies in the packet memory.
    pub open spec fn control_ok(&self, val: u8) -> bool {
        self.transmits(val) && !self.nothing_to_send(val) ==> {
            &&& self.regs.tx_bytes > 0
            &&& RAM_START <= self.tx_start()
            &&& self.tx_start() + self.regs.tx_bytes <= RAM_START + 0x8000
        }
    }

    /// The packet was sent.
    pub open spec fn transmitted(self) -> Ne2kWorld {
        let from = self.tx_start() - RAM_START;
        Ne2kWorld {
            sent: Some(self.ram.data.subrange(from, from + self.regs.tx_bytes)),
            regs: Ne2kRegs {
                control_reg: ControlRegister {
                    transmit_packet: false,
                    ..self.regs.control_reg
                },
                tsr: self.regs.tsr | 1,
                isr: self.regs.isr | ISR_PACKET_TRANSMITTED,
                ..self.regs
            },
            ..self
        }.irq_checked()
    }

    /// The control register was written.
    pub open spec fn control_written(self, val: u8) -> Ne2kWorld {
        let cr = ControlRegister::of_value(val);
        let w = self.with_regs(self.control_set(val));
        if w.transmits(val) && w.nothing_to_send(val) {
            w
        } else {
            let v = if w.transmits(val) {
                w.transmitted()
            } else {
                w
            };
            if cr.remote_dma_command == 1 && cr.start && v.regs.remote_bytes == 0 {
                v.with_regs(
                    Ne2kRegs { isr: v.regs.isr | ISR_REMOTE_DMA_COMPLETE, ..v.regs },
                ).irq_checked()
            } else {
                v
            }
        }
    }

    /// A register behind an address from 1 to 15 was written.
    pub open spec fn register_written(self, addr: int, val: u8) -> Ne2kWorld {
        let page = self.regs.control_reg.page_select;
        let w = Ne2kWorld {
            regs: self.regs.written(addr, val),
            phys_addr: if page == 1 && addr <= 6 {
                self.phys_addr.update(addr - 1, val)
            } else {
                self.phys_addr
            },
            hash: if page == 1 && addr >= 8 {
                self.hash.update(addr - 8, val)
            } else {
                self.hash
            },
            ..self
        };
        if page == 0 && (addr == 7 || addr == 0xf) {
            w.irq_checked()
        } else {
            w
        }
    }

    pub open spec fn write_ok(&self, addr: int, val: PortValue) -> bool {
        &&& addr <= 0x10 || addr == 0x1f
        &&& addr == 0x10 ==> self.steps_ok(val.width)
        &&& addr == 0 && val.width == PortWidth::Byte ==> self.with_regs(
            self.control_set(val.low8()),
        ).control_ok(val.low8())
        &&& 1 <= addr < 0x10 && val.width == PortWidth::Byte ==> self.regs.write_ok(
            addr,
            val.low8(),
        )
    }

    /// A port was written. All but the data port take bytes only.
    pub open spec fn written(self, addr: int, val: PortValue) -> Ne2kWorld {
        if addr == 0x10 {
            self.data_written(val)
        } else if addr >= 0x10 || val.width != PortWidth::Byte {
            self
        } else if addr == 0 {
            self.control_written(val.low8())
        } else {
            self.register_written(addr, val.low8())
        }
    }

    /// Whether the card receives at all.
    pub open spec fn receives(&self) -> bool {
        &&& !self.regs.control_reg.stop
        &&& self.regs.page_start != 0
        &&& !(self.regs.dcr / 8 % 2 == 1 && self.regs.tcr / 2 % 4 != 0)
    }

    /// The number of free pages of the ring.
    pub open spec fn available(&self) -> int {
        if self.regs.curr_page < self.regs.bound_ptr {
            self.regs.bound_ptr - self.regs.curr_page
        } else {
            (self.regs.page_stop - self.regs.page_start) - (self.regs.curr_page
                - self.regs.bound_ptr)
        }
    }

    /// Whether the receive configuration lets a frame to this address in.
    pub open spec fn accepts(&self, dst: Seq<u8>) -> bool {
        bit_at(self.regs.rcr as int, 0x10) || {
            &&& !(is_broadcast(dst) && !bit_at(self.regs.rcr as int, 4))
            &&& if is_multicast(dst) {
                bit_at(self.regs.rcr as int, 8)
            } else {
                dst == self.phys_addr
            }
        }
    }

    /// Whether a frame is stored.
    pub open spec fn stores(&self, data: Seq<u8>) -> bool {
        &&& self.receives()
        &&& self.available() > pages_for(data.len() as int)
        &&& self.accepts(data.take(6))
    }

    /// The page behind a frame of `len` bytes.
    pub open spec fn next_page(&self, len: int) -> int {
        let next = self.regs.curr_page + pages_for(len);
        if next >= self.regs.page_stop {
            next - (self.regs.page_stop - self.regs.page_start)
        } else {
            next
        }
    }

    /// The ring is one that a frame can be received into: its pages are in order and lie in the
    /// packet memory.
    pub open spec fn receive_ok(&self, data: Seq<u8>) -> bool {
        let len = data.len() as int;
        let start = self.regs.curr_page * 0x100;
        let room = (self.regs.page_stop - self.regs.curr_page) * 0x100 - 4;
        self.receives() ==> {
            &&& self.regs.curr_page >= self.regs.bound_ptr ==> self.regs.page_stop
                >= self.regs.page_start && self.available() >= 0
            &&& self.stores(data) ==> {
                &&& len <= 0xffff - 4
                &&& self.regs.curr_page + pages_for(len) <= 0xff
                &&& self.regs.page_stop >= self.regs.page_start
                &&& 0 <= self.next_page(len) <= 0xff
                &&& self.ram.fits(start, 4)
                &&& if self.next_page(len) > self.regs.curr_page {
                    self.ram.fits(start + 4, len)
                } else {
                    &&& room >= 0
                    &&& self.ram.fits(start + 4, if room < len {
                        room
                    } else {
                        len
                    })
                    &&& len > room ==> self.ram.fits(self.regs.page_start * 0x100, len - room)
                }
            }
        }
    }

    /// The header that is stored in front of a frame: the status, the next page and the length.
    pub open spec fn frame_header(&self, data: Seq<u8>) -> Seq<u8> {
        let len = data.len() + 4;
        seq![
            if is_multicast(data.take(6)) {
                0x21u8
            } else {
                0x01u8
            },
            self.next_page(data.len() as int) as u8,
            (len % 0x100) as u8,
            (len / 0x100 % 0x100) as u8,
        ]
    }

    /// The packet memory with a frame in it. A frame that reaches the end of the ring goes on at
    /// its start.
    pub open spec fn ram_with(&self, data: Seq<u8>) -> RamModel {
        let start = self.regs.curr_page * 0x100;
        let room = (self.regs.page_stop - self.regs.curr_page) * 0x100 - 4;
        let headed = self.ram.with_bytes(start, self.frame_header(data));
        if self.next_page(data.len() as int) > self.regs.curr_page {
            headed.with_bytes(start + 4, data)
        } else if data.len() <= room {
            headed.with_bytes(start + 4, data)
        } else {
            headed.with_bytes(start + 4, data.take(room)).with_bytes(
                self.regs.page_start * 0x100,
                data.skip(room),
            )
        }
    }

    /// A frame arrived.
    pub open spec fn received(self, data: Seq<u8>) -> Ne2kWorld {
        if self.stores(data) {
            Ne2kWorld {
                ram: self.ram_with(data),
                regs: Ne2kRegs {
                    curr_page: self.next_page(data.len() as int) as u8,
                    rsr: (if is_broadcast(data.take(6)) || is_multicast(data.take(6)) {
                        self.regs.rsr | 0x20
                    } else {
                        self.regs.rsr & !0x20u8
                    }) | 1,
                    isr: self.regs.isr | ISR_PACKET_RECEIVED,
                    ..self.regs
                },
                ..self
            }.irq_checked()
        } else {
            self
        }
    }
}

impl Ne2k {
    pub open spec fn wf(&self) -> bool {
        self.regs.wf() && self.private_ram@.wf()
    }

    pub open spec fn ready(&self, irq: &IrqSystem) -> bool {
        DualDynamicIrqLine::ready(irq, self.pci_header.interrupt_line as int)
    }

    pub open spec fn world(&self, irq: IrqState) -> Ne2kWorld {
        Ne2kWorld {
            regs: self.regs,
            phys_addr: self.phys_addr@,
            hash: self.multicast_hash@,
            ram: self.private_ram@,
            line: self.pci_header.interrupt_line,
            irq,
            sent: None,
        }
    }

    /// What port accesses leave alone.
    pub open spec fn same_wiring(&self, after: &Ne2k) -> bool {
        &&& after.pci_header == self.pci_header
        &&& after.irq == self.irq
        &&& after.irq_line == self.irq_line
    }

    /// The card after power on, with its packet memory cleared.
    pub open spec fn is_fresh(&self) -> bool {
        &&& self.regs == Ne2kRegs::reset_spec()
        &&& self.phys_addr@ == seq![0xB0u8, 0xC4, 0x20, 0, 0, 0]
        &&& self.multicast_hash@ == seq![0u8, 0, 0, 0, 0, 0, 0, 0]
        &&& self.private_ram@.mac_addr == prom()
        &&& self.private_ram@.data == Seq::new(0x8000, |i: int| 0u8)
        &&& self.pci_header.common == Self::common_header()
        &&& self.pci_header.interrupt_line == 1
        &&& self.pci_header.interrupt_pin == 1
        &&& self.pci_header.bar@ == seq![0u32, 0, 0, 0, 0, 0]
        &&& self.irq_line == 1
        &&& !self.rx_irq_enabled
    }

    pub fn new(irq: DualDynamicIrqLine) -> (r: Self)
        ensures
            r.wf(),
            r.irq == irq,
            r.is_fresh(),
    {
        let mut pci_header = GeneralDeviceHeader::new(
            CommonPciHeader {
                vendor_id: 0x10ec,
                device_id: 0x8029,
                command: PciCommandRegister { value: 0x01 },
                status: 0x0200,
                revision_id: 0,
                prog_if: 0,
                subclass: 0,
                class_code: 0x02,
                cache_line_size: 0,
                latency_timer: 0,
                header_type: 0,
                bist: 0,
            },
        );
        pci_header.interrupt_line = 1;
        pci_header.interrupt_pin = 1;
        let r = Self {
            pci_header,
            regs: Ne2kRegs::reset(),
            phys_addr: [0xB0, 0xC4, 0x20, 0x00, 0x00, 0x00],
            multicast_hash: [0, 0, 0, 0, 0, 0, 0, 0],
            private_ram: PrivateRam::new(),
            irq,
            irq_line: 1,
            rx_irq_enabled: false,
        };
        assert(r.phys_addr@ =~= seq![0xB0u8, 0xC4, 0x20, 0, 0, 0]);
        assert(r.multicast_hash@ =~= seq![0u8, 0, 0, 0, 0, 0, 0, 0]);
        r
    }

    pub open spec fn common_header() -> CommonPciHeader {
        CommonPciHeader {
            vendor_id: 0x10ec,
            device_id: 0x8029,
            command: PciCommandRegister { value: 0x01 },
            status: 0x0200,
            revision_id: 0,
            prog_if: 0,
            subclass: 0,
            class_code: 0x02,
            cache_line_size: 0,
            latency_timer: 0,
            header_type: 0,
            bist: 0,
        }
    }

    fn check_irq(&self, irq: &mut IrqSystem)
        requires
            self.ready(&*old(irq)),
        ensures
            self.ready(&*final(irq)),
            still_accepts(&*old(irq), &*final(irq)),
            self.world(final(irq)@) == self.world(old(irq)@).irq_checked(),
    {
        proof {
            reveal(Ne2kWorld::irq_checked);
        }
        if self.regs.isr & self.regs.imr != 0 {
            self.irq.set(self.pci_header.interrupt_line, true, irq);
        } else {
            self.irq.set(self.pci_header.interrupt_line, false, irq);
        }
    }

    /// A packet waits on the network's side. The line is pulsed if the guest wants to know.
    pub fn packet_available(&self, irq: &mut IrqSystem)
        requires
            DualDynamicIrqLine::ready(&*old(irq), self.irq_line as int),
        ensures
            still_accepts(&*old(irq), &*final(irq)),
            final(irq)@ == (if self.rx_irq_enabled {
                DualDynamicIrqLine::pulsed(old(irq)@, self.irq_line as int)
            } else {
                old(irq)@
            }),
    {
        if self.rx_irq_enabled {
            self.irq.set(self.irq_line, true, irq);
        }
    }

    fn step(&mut self, irq: &mut IrqSystem)
        requires
            old(self).wf(),
            old(self).ready(&*old(irq)),
            old(self).regs.can_step(),
        ensures
            final(self).wf(),
            final(self).ready(&*final(irq)),
            still_accepts(&*old(irq), &*final(irq)),
            old(self).same_wiring(final(self)),
            final(self).rx_irq_enabled == old(self).rx_irq_enabled,
            final(self).regs == old(self).regs.stepped(),
            final(self).world(final(irq)@) == old(self).world(old(irq)@).stepped(),
    {
        if self.regs.step() {
            self.check_irq(irq);
        }
    }

    fn step_value(&self) -> (r: u16)
        requires
            self.wf(),
            self.regs.can_step(),
        ensures
            forall|irq: IrqState| r == (#[trigger] self.world(irq)).step_value(),
    {
        let at: u16 = self.regs.remote_dma;
        if self.regs.num_bytes() == 2 {
            self.private_ram.read(at) as u16 + 0x100 * self.private_ram.read(at + 1) as u16
        } else {
            self.private_ram.read(at) as u16
        }
    }

    fn write_step(&mut self, val: u16, irq: &mut IrqSystem)
        requires
            old(self).wf(),
            old(self).ready(&*old(irq)),
            old(self).regs.can_step(),
        ensures
            final(self).wf(),
            final(self).ready(&*final(irq)),
            still_accepts(&*old(irq), &*final(irq)),
            old(self).same_wiring(final(self)),
            final(self).rx_irq_enabled == old(self).rx_irq_enabled,
            final(self).regs == old(self).regs.stepped(),
            final(self).world(final(irq)@) == old(self).world(old(irq)@).step_written(val as int),
    {
        let at: u16 = self.regs.remote_dma;
        self.private_ram.write(at, (val % 0x100) as u8);
        if self.regs.num_bytes() == 2 {
            self.private_ram.write(at + 1, (val / 0x100) as u8);
        }
        self.step(irq);
    }

    /// Reads a port of the card.
    fn read(&mut self, addr: u16, width: PortWidth, irq: &mut IrqSystem) -> (r: Result<
        u32,
        PortError,
    >)
        requires
            old(self).wf(),
            old(self).ready(&*old(irq)),
            old(self).world(old(irq)@).read_ok(addr as int, width),
        ensures
            final(self).wf(),
            final(self).ready(&*final(irq)),
            still_accepts(&*old(irq), &*final(irq)),
            old(self).same_wiring(final(self)),
            final(self).rx_irq_enabled == old(self).rx_irq_enabled,
            r == old(self).world(old(irq)@).read_result(addr as int, width),
            final(self).world(final(irq)@) == old(self).world(old(irq)@).read(addr as int, width),
    {
        if addr == 0x10 {
            let first: u16 = self.step_value();
            let ghost w0 = self.world(irq@);
            assert(first == w0.step_value());
            self.step(irq);
            match width {
                PortWidth::Byte => Ok(first as u32 % 0x100),
                PortWidth::Word => Ok(first as u32),
                PortWidth::Dword => {
                    // Split reads above WORD size into multiple WORD reads.
                    let second: u16 = self.step_value();
                    assert(second == self.world(irq@).step_value());
                    self.step(irq);
                    Ok(first as u32 + 0x1_0000 * second as u32)
                },
            }
        } else if addr == 0x1f {
            let result = from_u8(0, width);
            if result.is_ok() {
                self.reset(irq);
            }
            result
        } else if addr >= 0x10 {
            from_u8(0, width)
        } else if addr == 0 {
            from_u8(self.regs.control_reg.value(), width)
        } else {
            match width {
                PortWidth::Byte => from_u8(
                    self.regs.read_register(addr, &self.phys_addr, &self.multicast_hash),
                    width,
                ),
                _ => Err(PortError::UnsupportedWidth),
            }
        }
    }

    fn reset(&mut self, irq: &mut IrqSystem)
        requires
            old(self).wf(),
            old(self).ready(&*old(irq)),
        ensures
            final(self).wf(),
            final(self).ready(&*final(irq)),
            still_accepts(&*old(irq), &*final(irq)),
            old(self).same_wiring(final(self)),
            final(self).rx_irq_enabled == old(self).rx_irq_enabled,
            final(self).world(final(irq)@) == old(self).world(old(irq)@).reset(),
    {
        self.regs = Ne2kRegs::reset();
        self.phys_addr = [0, 0, 0, 0, 0, 0];
        self.multicast_hash = [0, 0, 0, 0, 0, 0, 0, 0];
        assert(self.phys_addr@ =~= seq![0u8, 0, 0, 0, 0, 0]);
        assert(self.multicast_hash@ =~= seq![0u8, 0, 0, 0, 0, 0, 0, 0]);
        self.irq.set(self.pci_header.interrupt_line, false, irq);
    }

    fn set_control(&mut self, cr: ControlRegister)
        requires
            old(self).wf(),
            cr.wf(),
        ensures
            final(self).wf(),
            old(self).same_wiring(final(self)),
            final(self).rx_irq_enabled == old(self).rx_irq_enabled,
            final(self).private_ram == old(self).private_ram,
            forall|irq: IrqState, val: u8|
                cr == ControlRegister::of_value(val) ==> #[trigger] final(self).world(irq)
                    == old(self).world(irq).with_regs(
                    (#[trigger] old(self).world(irq).control_set(val)),
                ),
    {
        let command: u8 = if cr.remote_dma_command == 0 {
            4
        } else {
            cr.remote_dma_command
        };
        self.regs.control_reg =
        ControlRegister {
            stop: cr.stop,
            start: cr.start,
            transmit_packet: self.regs.control_reg.transmit_packet,
            remote_dma_command: command,
            page_select: cr.page_select,
        };
        if cr.stop {
            self.regs.isr = self.regs.isr | ISR_RESET_STATUS;
        }
        if cr.start {
            self.regs.isr = self.regs.isr & !ISR_RESET_STATUS;
        }
        if command == 3 {
            let start: u16 = self.regs.bound_ptr as u16 * 0x100;
            self.regs.remote_start = start;
            self.regs.remote_dma = start;
            self.regs.remote_bytes = self.private_ram.read(start + 2) as u16 + 0x100
                * self.private_ram.read(start + 3) as u16;
        }
    }

    /// Writes the control register. Returns the frame that leaves the card.
    fn write_control(&mut self, val: u8, irq: &mut IrqSystem) -> (r: Option<Vec<u8>>)
        requires
            old(self).wf(),
            old(self).ready(&*old(irq)),
            ({
                let w = old(self).world(old(irq)@);
                w.with_regs(w.control_set(val)).control_ok(val)
            }),
        ensures
            final(self).wf(),
            final(self).ready(&*final(irq)),
            still_accepts(&*old(irq), &*final(irq)),
            old(self).same_wiring(final(self)),
            final(self).rx_irq_enabled == old(self).rx_irq_enabled,
            ({
                let after = old(self).world(old(irq)@).control_written(val);
                &&& Ne2kWorld { sent: after.sent, ..final(self).world(final(irq)@) } == after
                &&& match after.sent {
                    Some(data) => r.is_some() && r.unwrap()@ == data,
                    None => r.is_none(),
                }
            }),
    {
        let ghost w0 = self.world(irq@);
        let cr = ControlRegister::from_value(val);
        self.set_control(cr);
        let ghost w = self.world(irq@);
        assert(w == w0.with_regs(w0.control_set(val)));
        let mut sent: Option<Vec<u8>> = None;
        if cr.transmit_packet && self.regs.tcr / 2 % 4 == 0 {
            if (cr.stop || !cr.start) && self.regs.tx_bytes == 0 {
                return None;
            }
            let start: u16 = if self.regs.tx_page_start >= 0xc0 {
                RAM_START
            } else {
                self.regs.tx_page_start as u16 * 0x100
            };
            let data = self.private_ram.range(start, start + self.regs.tx_bytes);
            sent = Some(data);
            self.regs.control_reg.transmit_packet = false;
            self.regs.tsr = self.regs.tsr | 1;
            self.regs.isr = self.regs.isr | ISR_PACKET_TRANSMITTED;
            self.check_irq(irq);
            proof {
                reveal(Ne2kWorld::irq_checked);
            }
        }
        proof {
            reveal(Ne2kWorld::irq_checked);
        }
        if cr.remote_dma_command == 1 && cr.start && self.regs.remote_bytes == 0 {
            self.regs.isr = self.regs.isr | ISR_REMOTE_DMA_COMPLETE;
            self.check_irq(irq);
        }
        sent
    }

    fn write_register(&mut self, addr: u16, val: u8, irq: &mut IrqSystem)
        requires
            old(self).wf(),
            old(self).ready(&*old(irq)),
            1 <= addr < 0x10,
            old(self).regs.write_ok(addr as int, val),
        ensures
            final(self).wf(),
            final(self).ready(&*final(irq)),
            still_accepts(&*old(irq), &*final(irq)),
            old(self).same_wiring(final(self)),
            final(self).rx_irq_enabled == (if old(self).regs.control_reg.page_select == 0 && addr
                == 0xf {
                val % 2 == 1
            } else {
                old(self).rx_irq_enabled
            }),
            final(self).world(final(irq)@) == old(self).world(old(irq)@).register_written(
                addr as int,
                val,
            ),
    {
        match self.regs.control_reg.page_select {
            0 => {
                self.regs.write_page0(addr, val);
                if addr == 0xf {
                    self.rx_irq_enabled = val % 2 == 1;
                }
                if addr == 7 || addr == 0xf {
                    self.check_irq(irq);
                }
            },
            1 => {
                if addr <= 6 {
                    self.phys_addr[(addr - 1) as usize] = val;
                } else if addr == 7 {
                    self.regs.curr_page = val;
                } else {
                    self.multicast_hash[(addr - 8) as usize] = val;
                }
            },
            2 => self.regs.write_page2(addr, val),
            _ => {},
        }
    }

    /// Writes a port of the card. Returns the frame that leaves the card.
    fn write(&mut self, addr: u16, val: PortValue, irq: &mut IrqSystem) -> (r: Result<
        Option<Vec<u8>>,
        PortError,
    >)
        requires
            old(self).wf(),
            old(self).ready(&*old(irq)),
            old(self).world(old(irq)@).write_ok(addr as int, val),
        ensures
            final(self).wf(),
            final(self).ready(&*final(irq)),
            still_accepts(&*old(irq), &*final(irq)),
            old(self).write_effect(final(self), addr, val, old(irq)@, final(irq)@, r),
    {
        proof {
            reveal(Ne2k::register_written);
        }
        if addr == 0x10 {
            self.write_step(val.u16(), irq);
            if let PortWidth::Dword = val.width {
                // Split DWORD writes into two WORD writes
                self.write_step((val.u32() / 0x1_0000) as u16, irq);
            }
            Ok(None)
        } else if addr == 0x1f {
            // Ignore write to reset register
            Ok(None)
        } else if addr == 0 {
            match val.require_u8() {
                Ok(byte) => Ok(self.write_control(byte, irq)),
                Err(e) => Err(e),
            }
        } else {
            match val.require_u8() {
                Ok(byte) => {
                    self.write_register(addr, byte, irq);
                    Ok(None)
                },
                Err(e) => Err(e),
            }
        }
    }

    /// What a write of a register leaves behind and returns, `w` being the card after the write
    /// and `page_select` and `enabled` what held of it before.
    #[verifier::opaque]
    pub open spec fn register_written(
        w: Ne2kWorld,
        page_select: u8,
        enabled: bool,
        after: &Ne2k,
        register: u16,
        val: PortValue,
        irq_after: IrqState,
        r: Result<Option<Vec<u8>>, PortError>,
    ) -> bool {
        &&& Ne2kWorld { sent: w.sent, ..after.world(irq_after) } == w
        &&& after.rx_irq_enabled == (if register == 0xf && val.width == PortWidth::Byte
            && page_select == 0 {
            val.low8() % 2 == 1
        } else {
            enabled
        })
        &&& if register < 0x10 && val.width != PortWidth::Byte {
            r.is_err() && r->Err_0 == PortError::UnsupportedWidth
        } else {
            r.is_ok() && match w.sent {
                Some(data) => r.unwrap().is_some() && r.unwrap().unwrap()@ == data,
                None => r.unwrap().is_none(),
            }
        }
    }

    /// What a write of a register leaves behind and returns.
    pub open spec fn write_effect(
        &self,
        after: &Ne2k,
        addr: u16,
        val: PortValue,
        irq: IrqState,
        irq_after: IrqState,
        r: Result<Option<Vec<u8>>, PortError>,
    ) -> bool {
        &&& self.same_wiring(after)
        &&& Self::register_written(
            self.world(irq).written(addr as int, val),
            self.regs.control_reg.page_select,
            self.rx_irq_enabled,
            after,
            addr,
            val,
            irq_after,
            r,
        )
    }

    /// Stores a frame with its header in the packet memory.
    fn store(&mut self, data: &[u8], next_page: u8, is_group: bool, Ghost(irq): Ghost<IrqState>)
        requires
            old(self).wf(),
            data@.len() >= 14,
            is_group == is_multicast(data@.take(6)),
            old(self).world(irq).stores(data@),
            old(self).world(irq).receive_ok(data@),
            next_page == old(self).world(irq).next_page(data@.len() as int),
        ensures
            final(self).wf(),
            *final(self) == (Ne2k { private_ram: final(self).private_ram, ..*old(self) }),
            final(self).private_ram@ == old(self).world(irq).ram_with(data@),
    {
        let ghost w = self.world(irq);
        let len: usize = data.len() + 4;
        let header: [u8; 4] = [
            if is_group {
                0x21
            } else {
                0x01
            },
            next_page,
            (len % 0x100) as u8,
            (len / 0x100 % 0x100) as u8,
        ];
        assert(header@ =~= w.frame_header(data@));
        let start_offset: u16 = self.regs.curr_page as u16 * 0x100;
        self.private_ram.copy_from_slice(start_offset, header.as_slice());
        if next_page > self.regs.curr_page {
            self.private_ram.copy_from_slice(start_offset + 4, data);
        } else {
            let room: usize = (self.regs.page_stop - self.regs.curr_page) as usize * 0x100 - 4;
            if data.len() > room {
                let all = vstd::slice::slice_to_vec(data);
                let head = copy_range(&all, 0, room);
                let tail = copy_range(&all, room, all.len());
                assert(head@ =~= data@.take(room as int));
                assert(tail@ =~= data@.skip(room as int));
                self.private_ram.copy_from_slice(start_offset + 4, head.as_slice());
                self.private_ram.copy_from_slice(
                    self.regs.page_start as u16 * 0x100,
                    tail.as_slice(),
                );
            } else {
                self.private_ram.copy_from_slice(start_offset + 4, data);
            }
        }
    }

    fn pages(len: usize) -> (r: usize)
        ensures
            r == pages_for(len as int),
    {
        if len % 256 <= 248 {
            len / 256 + 1
        } else {
            len / 256 + 2
        }
    }

    /// Decides whether a frame is stored. Returns whether it is for everybody, and whether it is
    /// for a group.
    fn classify(&self, data: &[u8], Ghost(irq): Ghost<IrqState>) -> (r: Option<(bool, bool)>)
        requires
            self.wf(),
            data@.len() >= 14,
            self.world(irq).receive_ok(data@),
        ensures
            r == (if self.world(irq).stores(data@) {
                Some((is_broadcast(data@.take(6)), is_multicast(data@.take(6))))
            } else {
                None
            }),
    {
        if self.regs.control_reg.stop || self.regs.page_start == 0 || (self.regs.dcr / 8 % 2 == 1
            && self.regs.tcr / 2 % 4 != 0) {
            return None;
        }
        let available: usize = if self.regs.curr_page < self.regs.bound_ptr {
            (self.regs.bound_ptr - self.regs.curr_page) as usize
        } else {
            (self.regs.page_stop - self.regs.page_start) as usize - (self.regs.curr_page
                - self.regs.bound_ptr) as usize
        };
        if available <= Self::pages(data.len()) {
            return None;
        }
        let frame = match parse_ethernet(data) {
            Some(frame) => frame,
            None => {
                return None;
            },
        };
        let to_all = broadcast(&frame.dst);
        let to_group = multicast(&frame.dst);
        if self.regs.rcr / 0x10 % 2 == 0 {
            if self.regs.rcr / 4 % 2 == 0 && to_all {
                return None;
            }
            if to_group {
                if self.regs.rcr / 8 % 2 == 0 {
                    return None;
                }
            } else if !self.is_own(&frame.dst) {
                return None;
            }
        }
        Some((to_all, to_group))
    }

    fn recv_frame(&mut self, data: &[u8], irq: &mut IrqSystem)
        requires
            old(self).wf(),
            old(self).ready(&*old(irq)),
            data@.len() >= 14,
            old(self).world(old(irq)@).receive_ok(data@),
        ensures
            final(self).wf(),
            final(self).ready(&*final(irq)),
            still_accepts(&*old(irq), &*final(irq)),
            old(self).same_wiring(final(self)),
            final(self).rx_irq_enabled == old(self).rx_irq_enabled,
            final(self).world(final(irq)@) == old(self).world(old(irq)@).received(data@),
    {
        let (to_all, to_group) = match self.classify(data, Ghost(irq@)) {
            Some(class) => class,
            None => {
                return ;
            },
        };
        let pages: usize = Self::pages(data.len());
        let next_page: u8 = self.regs.curr_page + pages as u8;
        let next_page: u8 = if next_page >= self.regs.page_stop {
            next_page - (self.regs.page_stop - self.regs.page_start)
        } else {
            next_page
        };
        self.store(data, next_page, to_group, Ghost(irq@));
        self.regs.curr_page = next_page;
        self.regs.rsr = (if to_all || to_group {
            self.regs.rsr | 0x20
        } else {
            self.regs.rsr & !0x20u8
        }) | 1;
        self.regs.isr = self.regs.isr | ISR_PACKET_RECEIVED;
        self.check_irq(irq);
    }

    fn is_own(&self, dst: &[u8; 6]) -> (r: bool)
        ensures
            r == (dst@ == self.phys_addr@),
    {
        let same = dst[0] == self.phys_addr[0] && dst[1] == self.phys_addr[1] && dst[2]
            == self.phys_addr[2] && dst[3] == self.phys_addr[3] && dst[4] == self.phys_addr[4]
            && dst[5] == self.phys_addr[5];
        proof {
            if same {
                assert(dst@ =~= self.phys_addr@);
            }
        }
        same
    }

    /// The packet that arrived, if one did, can be received.
    pub open spec fn packet_ok(&self, packet: Option<Packet>, irq: IrqState) -> bool {
        packet matches Some(p) ==> self.world(irq).receive_ok(padded(p@))
    }

    /// The state once the packet that arrived, if one did, was received.
    pub open spec fn after_packet(&self, packet: Option<Packet>, irq: IrqState) -> Ne2kWorld {
        match packet {
            Some(p) => self.world(irq).received(padded(p@)),
            None => self.world(irq),
        }
    }

    /// Receives the packet that arrived, if one did.
    pub fn check_recv_packet(&mut self, packet: Option<Packet>, irq: &mut IrqSystem)
        requires
            old(self).wf(),
            old(self).ready(&*old(irq)),
            old(self).packet_ok(packet, old(irq)@),
        ensures
            final(self).wf(),
            final(self).ready(&*final(irq)),
            still_accepts(&*old(irq), &*final(irq)),
            old(self).same_wiring(final(self)),
            final(self).rx_irq_enabled == old(self).rx_irq_enabled,
            final(self).world(final(irq)@) == old(self).after_packet(packet, old(irq)@),
    {
        if let Some(packet) = packet {
            let mut packet = packet;
            packet.pad_to_60();
            self.recv_frame(packet.data(), irq);
        }
    }

    /// The register that a port belongs to: 32 of them lie at the base address, if port accesses
    /// are enabled.
    pub open spec fn port(&self, addr: u16) -> Option<u16> {
        if self.pci_header.common.command.enable_io_space_spec() && addr / 32 * 32
            == self.pci_header.bar@[0] as int % 0x1_0000 / 32 * 32 {
            Some((addr % 32) as u16)
        } else {
            None
        }
    }

    pub fn find_port(&self, addr: u16) -> (r: Option<u16>)
        ensures
            r == self.port(addr),
    {
        if self.pci_header.common.command.enable_io_space() && addr as u32 / 32 * 32
            == self.pci_header.bar[0] % 0x1_0000 / 32 * 32 {
            Some(addr % 32)
        } else {
            None
        }
    }

    /// What a read of a port leaves behind and returns.
    #[verifier::opaque]
    pub open spec fn read_effect(
        &self,
        after: &Ne2k,
        addr: u16,
        width: PortWidth,
        packet: Option<Packet>,
        irq: IrqState,
        irq_after: IrqState,
        r: Option<Result<u32, PortError>>,
    ) -> bool {
        &&& self.same_wiring(after)
        &&& after.rx_irq_enabled == self.rx_irq_enabled
        &&& match self.port(addr) {
            Some(register) => {
                let w = self.after_packet(packet, irq);
                &&& r == Some(w.read_result(register as int, width))
                &&& after.world(irq_after) == w.read(register as int, width)
            },
            None => r.is_none() && *after == *self && irq_after == irq,
        }
    }

    /// What a write of a port leaves behind and returns.
    #[verifier::opaque]
    pub open spec fn port_write_effect(
        &self,
        after: &Ne2k,
        addr: u16,
        val: PortValue,
        packet: Option<Packet>,
        irq: IrqState,
        irq_after: IrqState,
        r: Option<Result<Option<Vec<u8>>, PortError>>,
    ) -> bool {
        &&& self.same_wiring(after)
        &&& r.is_some() == self.port(addr).is_some()
        &&& match self.port(addr) {
            Some(register) => {
                let w = self.after_packet(packet, irq);
                Self::register_written(
                    w.written(register as int, val),
                    self.regs.control_reg.page_select,
                    self.rx_irq_enabled,
                    after,
                    register,
                    val,
                    irq_after,
                    r.unwrap(),
                )
            },
            None => *after == *self && irq_after == irq,
        }
    }

    /// A packet does not change the page of registers that is selected.
    proof fn lemma_packet_keeps_page(&self, packet: Option<Packet>, irq: IrqState)
        ensures
            self.after_packet(packet, irq).regs.control_reg == self.regs.control_reg,
    {
        reveal(Ne2kWorld::irq_checked);
    }

    /// A write of a port is a packet received, and a register written.
    proof fn lemma_port_write(
        &self,
        received: &Ne2k,
        after: &Ne2k,
        addr: u16,
        val: PortValue,
        packet: Option<Packet>,
        irq: IrqState,
        irq_received: IrqState,
        irq_after: IrqState,
        r: Result<Option<Vec<u8>>, PortError>,
    )
        requires
            self.port(addr).is_some(),
            self.same_wiring(received),
            received.rx_irq_enabled == self.rx_irq_enabled,
            received.world(irq_received) == self.after_packet(packet, irq),
            received.write_effect(
                after,
                self.port(addr).unwrap(),
                val,
                irq_received,
                irq_after,
                r,
            ),
        ensures
            self.same_wiring(after),
            self.port_write_effect(after, addr, val, packet, irq, irq_after, Some(r)),
    {
        reveal(Ne2k::port_write_effect);
        self.lemma_packet_keeps_page(packet, irq);
        assert(received.regs == self.after_packet(packet, irq).regs);
    }

    /// Whether the accesses that a read of the port makes are possible.
    pub open spec fn port_read_ok(
        &self,
        addr: u16,
        width: PortWidth,
        packet: Option<Packet>,
        irq: IrqState,
    ) -> bool {
        self.port(addr) matches Some(register) ==> self.packet_ok(packet, irq)
            && self.after_packet(packet, irq).read_ok(register as int, width)
    }

    /// Whether the accesses that a write of the port makes are possible.
    pub open spec fn port_write_ok(
        &self,
        addr: u16,
        val: PortValue,
        packet: Option<Packet>,
        irq: IrqState,
    ) -> bool {
        self.port(addr) matches Some(register) ==> self.packet_ok(packet, irq)
            && self.after_packet(packet, irq).write_ok(register as int, val)
    }

    /// Reads a port, if it belongs to the card. Packets are received before.
    pub fn try_read(
        &mut self,
        addr: u16,
        width: PortWidth,
        packet: Option<Packet>,
        irq: &mut IrqSystem,
    ) -> (r: Option<Result<u32, PortError>>)
        requires
            old(self).wf(),
            old(self).ready(&*old(irq)),
            old(self).port_read_ok(addr, width, packet, old(irq)@),
        ensures
            final(self).wf(),
            final(self).ready(&*final(irq)),
            old(self).same_wiring(final(self)),
            r.is_some() == old(self).port(addr).is_some(),
            still_accepts(&*old(irq), &*final(irq)),
            old(self).read_effect(final(self), addr, width, packet, old(irq)@, final(irq)@, r),
    {
        proof {
            reveal(Ne2k::read_effect);
        }
        match self.find_port(addr) {
            Some(register) => {
                self.check_recv_packet(packet, irq);
                Some(self.read(register, width, irq))
            },
            None => None,
        }
    }

    /// Writes a port, if it belongs to the card. Packets are received before. Returns the frame
    /// that leaves the card.
    pub fn try_write(
        &mut self,
        addr: u16,
        val: PortValue,
        packet: Option<Packet>,
        irq: &mut IrqSystem,
    ) -> (r: Option<Result<Option<Vec<u8>>, PortError>>)
        requires
            old(self).wf(),
            old(self).ready(&*old(irq)),
            old(self).port_write_ok(addr, val, packet, old(irq)@),
        ensures
            final(self).wf(),
            final(self).ready(&*final(irq)),
            old(self).same_wiring(final(self)),
            r.is_some() == old(self).port(addr).is_some(),
            still_accepts(&*old(irq), &*final(irq)),
            old(self).port_write_effect(
                final(self),
                addr,
                val,
                packet,
                old(irq)@,
                final(irq)@,
                r,
            ),
    {
        match self.find_port(addr) {
            Some(register) => {
                let ghost before = *self;
                let ghost irq_before = irq@;
                self.check_recv_packet(packet, irq);
                let ghost received = *self;
                let ghost irq_received = irq@;
                let r = self.write(register, val, irq);
                proof {
                    before.lemma_port_write(
                        &received,
                        self,
                        addr,
                        val,
                        packet,
                        irq_before,
                        irq_received,
                        irq@,
                        r,
                    );
                }
                Some(r)
            },
            None => {
                proof {
                    reveal(Ne2k::port_write_effect);
                }
                None
            },
        }
    }

    pub fn snapshot(&self) -> (r: Ne2kSnapshot)
        ensures
            r.pci_header == self.pci_header,
            r.regs == self.regs,
            r.phys_addr == self.phys_addr,
            r.multicast_hash == self.multicast_hash,
            r.private_ram@ == self.private_ram@,
    {
        Ne2kSnapshot {
            pci_header: self.pci_header,
            regs: self.regs,
            phys_addr: self.phys_addr,
            multicast_hash: self.multicast_hash,
            private_ram: self.private_ram.copy(),
        }
    }

    pub fn restore(&mut self, snapshot: Ne2kSnapshot)
        requires
            snapshot.regs.wf(),
            snapshot.private_ram@.wf(),
        ensures
            final(self).wf(),
            final(self).pci_header == snapshot.pci_header,
            final(self).regs == snapshot.regs,
            final(self).phys_addr == snapshot.phys_addr,
            final(self).multicast_hash == snapshot.multicast_hash,
            final(self).private_ram@ == snapshot.private_ram@,
            final(self).irq == old(self).irq,
            final(self).irq_line == snapshot.pci_header.interrupt_line,
            final(self).rx_irq_enabled == (snapshot.regs.imr % 2 == 1),
    {
        self.irq_line = snapshot.pci_header.interrupt_line;
        self.rx_irq_enabled = snapshot.regs.imr % 2 == 1;
        self.pci_header = snapshot.pci_header;
        self.regs = snapshot.regs;
        self.phys_addr = snapshot.phys_addr;
        self.multicast_hash = snapshot.multicast_hash;
        self.private_ram = snapshot.private_ram;
    }
}

impl PciDevice for Ne2k {
    open spec fn config(&self, index: int) -> int {
        match self.pci_header.register(index) {
            Some(v) => v,
            None => 0,
        }
    }

    /// The first base address is a port; there are no others. A write of the common registers
    /// makes the interrupt line known to the network's side.
    open spec fn config_written(&self, index: int, val: u32, after: Ne2k) -> bool {
        let header = self.pci_header.written(index, val);
        &&& after == (Ne2k {
            pci_header: GeneralDeviceHeader { bar: after.pci_header.bar, ..header },
            irq_line: if 1 <= index < 4 {
                header.interrupt_line
            } else {
                self.irq_line
            },
            ..*self
        })
        &&& after.pci_header.bar@ == (if index == 4 {
            self.pci_header.bar@.update(0, (val / 32 * 32 + 1) as u32)
        } else if 4 < index < 10 {
            self.pci_header.bar@.update(index - 4, 0)
        } else {
            self.pci_header.bar@
        })
    }

    fn write_configuration_space(&mut self, index: usize, val: u32) {
        match self.pci_header.write(index, val) {
            Some(DeviceWriteEvent::Common(_)) => {
                self.irq_line = self.pci_header.interrupt_line;
            },
            Some(DeviceWriteEvent::Bar(n)) => {
                self.pci_header.bar[n] = if n == 0 {
                    val / 32 * 32 + 1
                } else {
                    0
                };
                assert(self.pci_header.bar@ =~= (if index == 4 {
                    old(self).pci_header.bar@.update(0, (val / 32 * 32 + 1) as u32)
                } else {
                    old(self).pci_header.bar@.update(index - 4, 0)
                }));
            },
            _ => {},
        }
    }

    fn read_configuration_space(&self, index: usize) -> (r: u32) {
        match self.pci_header.read(index) {
            Some(v) => v,
            None => 0,
        }
    }
}

/// A card that is stopped stores nothing, and neither does a card whose ring is full.
pub proof fn stopped_card_ignores_frames(world: Ne2kWorld, data: Seq<u8>)
    requires
        world.regs.control_reg.stop || world.available() <= pages_for(data.len() as int),
    ensures
        world.received(data) == world,
{
}

/// A frame that is stored without reaching the end of the ring can be read back behind its header,
/// and the header names the page behind it.
pub proof fn stored_frame_reads_back(world: Ne2kWorld, data: Seq<u8>)
    requires
        world.ram.wf(),
        data.len() >= 14,
        world.stores(data),
        world.receive_ok(data),
        world.next_page(data.len() as int) > world.regs.curr_page,
        world.regs.curr_page * 0x100 >= RAM_START,
    ensures
        ({
            let at = world.regs.curr_page * 0x100 - RAM_START;
            let ram = world.ram_with(data).data;
            &&& ram.subrange(at + 4, at + 4 + data.len()) == data
            &&& ram[at + 1] == world.next_page(data.len() as int)
            &&& ram[at + 2] + 0x100 * ram[at + 3] == data.len() + 4
        }),
{
    let at: int = world.regs.curr_page * 0x100 - RAM_START;
    let headed = world.ram.with_bytes(at + RAM_START, world.frame_header(data));
    assert(headed.data.len() == 0x8000);
    crate::bytes::overwrite_reads_back(headed.data, at + 4, data, 0, 0);
    assert(world.ram_with(data).data == overwrite(headed.data, at + 4, data));
}

/// A started card that is told to transmit, by bit 2 of the first port, sends the bytes of its packet
/// memory from the transmit page on, as many as the transmit count says, and reports so.
#[verifier::spinoff_prover]
pub proof fn transmitted_frames_come_from_memory(w: Ne2kWorld, val: u8)
    requires
        w.ram.wf(),
        val % 8 == 6,
        w.regs.tcr / 2 % 4 == 0,
        0x40 <= w.regs.tx_page_start < 0xc0,
        w.regs.tx_page_start * 0x100 + w.regs.tx_bytes <= 0xc000,
    ensures
        ({
            let after = w.written(0, PortValue { width: PortWidth::Byte, value: val as u32 });
            let at = w.regs.tx_page_start * 0x100 - 0x4000;
            &&& after.sent is Some
            &&& after.sent.unwrap().len() == w.regs.tx_bytes
            &&& forall|i: int|
                0 <= i < w.regs.tx_bytes ==> #[trigger] after.sent.unwrap()[i] == w.ram.data[at + i]
            &&& after.ram == w.ram
        }),
{
    let pv = PortValue { width: PortWidth::Byte, value: val as u32 };
    assert(pv.low8() == val);
    let cr = ControlRegister::of_value(val);
    assert(cr.transmit_packet && cr.start && !cr.stop) by {
        lemma_started_and_told(val);
    }
    let v = w.with_regs(w.control_set(val));
    assert(v.regs.tcr == w.regs.tcr);
    assert(v.transmits(val) && !v.nothing_to_send(val));
    assert(v.ram == w.ram);
    assert(v.tx_start() == w.regs.tx_page_start * 0x100);
    lemma_transmitted_sends(v);
    let t = v.transmitted();
    let u = t.with_regs(Ne2kRegs { isr: t.regs.isr | ISR_REMOTE_DMA_COMPLETE, ..t.regs });
    lemma_check_sends_nothing(u);
    assert(w.control_written(val) == t || w.control_written(val) == u.irq_checked());
    assert(w.control_written(val).sent == t.sent && w.control_written(val).ram == w.ram);
    assert(w.written(0, pv) == w.control_written(val));
}

proof fn lemma_started_and_told(val: u8)
    requires
        val % 8 == 6,
    ensures
        ({
            let cr = ControlRegister::of_value(val);
            cr.transmit_packet && cr.start && !cr.stop
        }),
{
    assert(val as int / 2 % 2 == 1 && val as int / 4 % 2 == 1 && val as int % 2 == 0);
}

proof fn lemma_transmitted_sends(v: Ne2kWorld)
    ensures
        v.transmitted().sent == Some(
            v.ram.data.subrange(
                v.tx_start() - 0x4000,
                v.tx_start() - 0x4000 + v.regs.tx_bytes,
            ),
        ),
        v.transmitted().ram == v.ram,
{
    reveal(Ne2kWorld::irq_checked);
}

/// Nothing is sent while bit 2 of the first port is not written.
#[verifier::spinoff_prover]
pub proof fn frames_leave_only_when_told(w: Ne2kWorld, addr: int, val: PortValue)
    requires
        w.sent is None,
        addr != 0 || val.value / 4 % 2 == 0,
    ensures
        w.written(addr, val).sent is None,
{
    if addr == 0x10 {
        lemma_data_sends_nothing(w, val);
        assert(w.written(addr, val) == w.data_written(val));
    } else if addr >= 0x10 || val.width != PortWidth::Byte {
        assert(w.written(addr, val) == w);
    } else if addr == 0 {
        lemma_not_told(val);
        lemma_control_sends_nothing(w, val.low8());
        assert(w.written(addr, val) == w.control_written(val.low8()));
    } else {
        lemma_register_sends_nothing(w, addr, val.low8());
        assert(w.written(addr, val) == w.register_written(addr, val.low8()));
    }
}

proof fn lemma_not_told(val: PortValue)
    requires
        val.value / 4 % 2 == 0,
    ensures
        !ControlRegister::of_value(val.low8()).transmit_packet,
{
    let byte: int = val.value as int % 0x100;
    assert(byte / 4 % 2 == val.value as int / 4 % 2);
}

proof fn lemma_data_sends_nothing(w: Ne2kWorld, val: PortValue)
    ensures
        w.data_written(val).sent == w.sent,
{
    let first: int = val.value as int % 0x1_0000;
    lemma_step_sends_nothing(w, first);
    lemma_step_sends_nothing(w.step_written(first), val.value as int / 0x1_0000);
}

proof fn lemma_control_sends_nothing(w: Ne2kWorld, val: u8)
    requires
        !ControlRegister::of_value(val).transmit_packet,
    ensures
        w.control_written(val).sent == w.sent,
{
    let v = w.with_regs(w.control_set(val));
    assert(v.sent == w.sent);
    assert(!v.transmits(val));
    let u = v.with_regs(Ne2kRegs { isr: v.regs.isr | ISR_REMOTE_DMA_COMPLETE, ..v.regs });
    lemma_check_sends_nothing(u);
    assert(w.control_written(val) == v || w.control_written(val) == u.irq_checked());
}

proof fn lemma_register_sends_nothing(w: Ne2kWorld, addr: int, val: u8)
    ensures
        w.register_written(addr, val).sent == w.sent,
{
    lemma_check_all_sends_nothing();
}

proof fn lemma_check_sends_nothing(w: Ne2kWorld)
    ensures
        w.irq_checked().sent == w.sent,
        w.irq_checked().ram == w.ram,
{
    reveal(Ne2kWorld::irq_checked);
}

proof fn lemma_check_all_sends_nothing()
    ensures
        forall|w: Ne2kWorld| (#[trigger] w.irq_checked()).sent == w.sent,
{
    reveal(Ne2kWorld::irq_checked);
}

proof fn lemma_step_sends_nothing(w: Ne2kWorld, val: int)
    ensures
        w.step_written(val).sent == w.sent,
{
    lemma_check_all_sends_nothing();
}

/// The card takes frames to its own address. Frames to a group need bit 3 of the receive
/// configuration, those to everybody bit 2 too. With bit 4 it takes all.
pub proof fn cards_take_their_frames(w: Ne2kWorld, dst: Seq<u8>)
    requires
        dst.len() == 6,
    ensures
        w.regs.rcr / 0x10 % 2 == 1 ==> w.accepts(dst),
        dst[0] % 2 == 0 && dst == w.phys_addr ==> w.accepts(dst),
        dst[0] % 2 == 0 && dst != w.phys_addr && w.regs.rcr / 0x10 % 2 == 0 ==> !w.accepts(dst),
        dst[0] % 2 == 1 && w.regs.rcr / 8 % 2 == 0 && w.regs.rcr / 0x10 % 2 == 0 ==> !w.accepts(dst),
        dst[0] % 2 == 1 && w.regs.rcr / 8 % 2 == 1 && w.regs.rcr / 4 % 2 == 1 ==> w.accepts(dst),
        dst[0] % 2 == 1 && (exists|i: int| 0 <= i < 6 && #[trigger] dst[i] != 0xff) && w.regs.rcr / 8
            % 2 == 1 ==> w.accepts(dst),
{
    if is_broadcast(dst) {
        assert forall|i: int| 0 <= i < 6 implies #[trigger] dst[i] == 0xff by {}
    }
}

/// A frame that is taken is reported, and the next one goes to the page behind it; frames take whole
/// pages of 256 bytes, with a header of four bytes and a checksum of four.
pub proof fn stored_frames_take_whole_pages(w: Ne2kWorld, data: Seq<u8>)
    requires
        w.stores(data),
        w.receive_ok(data),
    ensures
        ({
            let after = w.received(data);
            let pages = pages_for(data.len() as int);
            &&& pages * 256 >= data.len() + 8 && (pages - 1) * 256 < data.len() + 8
            &&& w.regs.curr_page + pages < w.regs.page_stop ==> after.regs.curr_page
                == w.regs.curr_page + pages
            &&& w.regs.curr_page + pages >= w.regs.page_stop ==> after.regs.curr_page
                == w.regs.curr_page + pages - w.regs.page_stop + w.regs.page_start
            &&& after.regs.isr == w.regs.isr | 1
            &&& after.phys_addr == w.phys_addr && after.sent == w.sent
        }),
{
    reveal(Ne2kWorld::irq_checked);
}

/// The data port moves bytes between the guest and the card's memory, from the remote address on:
/// one at a time, or two with bit 0 of the data configuration, the low one first. The address moves
/// on by as many bytes.
pub proof fn data_port_moves_bytes_in_order(w: Ne2kWorld, val: u16)
    requires
        w.ram.wf(),
        0x4000 <= w.regs.remote_dma < 0xbffe,
        w.regs.dcr % 2 == 1,
        w.regs.remote_dma + 2 != w.regs.page_stop * 0x100,
        w.regs.remote_bytes >= 2,
    ensures
        ({
            let at = w.regs.remote_dma - 0x4000;
            let read = w.read(0x10, PortWidth::Word);
            let put = w.written(0x10, PortValue { width: PortWidth::Word, value: val as u32 });
            &&& w.read_result(0x10, PortWidth::Word) == Ok::<u32, PortError>(
                (w.ram.data[at] + 0x100 * w.ram.data[at + 1]) as u32,
            )
            &&& read.ram == w.ram
            &&& read.regs.remote_dma == w.regs.remote_dma + 2
            &&& read.regs.remote_bytes == w.regs.remote_bytes - 2
            &&& put.ram.data == w.ram.data.update(at, (val % 0x100) as u8).update(
                at + 1,
                (val / 0x100) as u8,
            )
            &&& put.ram.mac_addr == w.ram.mac_addr
            &&& put.regs.remote_dma == w.regs.remote_dma + 2
            &&& put.regs.remote_bytes == w.regs.remote_bytes - 2
        }),
{
    reveal(Ne2kWorld::irq_checked);
}

/// The bits of the control register.
pub proof fn control_bits_have_their_places(v: u8)
    ensures
        ({
            let c = ControlRegister::of_value(v);
            &&& c.stop <==> v % 2 == 1
            &&& c.start <==> v / 2 % 2 == 1
            &&& c.transmit_packet <==> v / 4 % 2 == 1
            &&& c.remote_dma_command == v / 8 % 8
            &&& c.page_select == v / 64
            &&& c.value_spec() == v
        }),
{
    let low: int = v as int % 8;
    assert(v as int == low + 8 * (v as int / 8 % 8) + 64 * (v as int / 64));
    assert(low == v as int % 2 + 2 * (v as int / 2 % 2) + 4 * (v as int / 4 % 2));
    let c = ControlRegister::of_value(v);
    assert(weight(c.stop, 1) == v as int % 2);
    assert(weight(c.start, 2) == 2 * (v as int / 2 % 2));
    assert(weight(c.transmit_packet, 4) == 4 * (v as int / 4 % 2));
}

/// The first bytes of the card's memory hold its hardware address, each byte twice.
pub proof fn prom_holds_the_address_twice(i: int)
    requires
        0 <= i < 6,
    ensures
        prom().len() == 32,
        prom()[2 * i] == prom()[2 * i + 1],
        prom()[2 * i] == seq![0xB0u8, 0xC4, 0x20, 0, 0, 0][i],
{
}

} // verus!
