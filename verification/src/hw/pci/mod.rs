//! The PCI bus: configuration headers, base addresses, and the two configuration ports.
pub mod bus;
pub mod host_bridge;
pub mod isa_bridge;

use vstd::prelude::*;

use crate::bytes::bit_at;

verus! {

#[derive(Copy, Clone, Debug, PartialEq, Eq, Structural)]
pub struct PciCommandRegister {
    pub value: u16,
}

impl PciCommandRegister {
    pub open spec fn enable_io_space_spec(&self) -> bool {
        bit_at(self.value as int, 1)
    }

    pub fn enable_io_space(&self) -> (r: bool)
        ensures
            r == self.enable_io_space_spec(),
    {
        self.value % 2 == 1
    }

    pub fn enable_memory_space(&self) -> (r: bool)
        ensures
            r == bit_at(self.value as int, 2),
    {
        self.value / 2 % 2 == 1
    }

    pub fn enable_bus_master(&self) -> (r: bool)
        ensures
            r == bit_at(self.value as int, 4),
    {
        self.value / 4 % 2 == 1
    }

    pub fn interrupt_disable(&self) -> (r: bool)
        ensures
            r == bit_at(self.value as int, 0x400),
    {
        self.value / 0x400 % 2 == 1
    }
}

/// Two 16-bit halves, the low one first.
pub open spec fn word_of_halves(low: u16, high: u16) -> int {
    low + 0x1_0000 * high
}

/// Four bytes, the low one first.
pub open spec fn word_of_bytes(a: u8, b: u8, c: u8, d: u8) -> int {
    a + 0x100 * b + 0x1_0000 * c + 0x100_0000 * d
}

fn halves(low: u16, high: u16) -> (r: u32)
    ensures
        r == word_of_halves(low, high),
{
    low as u32 + 0x1_0000 * high as u32
}

fn quarters(a: u8, b: u8, c: u8, d: u8) -> (r: u32)
    ensures
        r == word_of_bytes(a, b, c, d),
{
    a as u32 + 0x100 * b as u32 + 0x1_0000 * c as u32 + 0x100_0000 * d as u32
}

/// The first four registers of every device.
#[derive(Copy, Clone, Debug, PartialEq, Eq, Structural)]
pub struct CommonPciHeader {
    pub vendor_id: u16,
    pub device_id: u16,
    pub command: PciCommandRegister,
    pub status: u16,
    pub revision_id: u8,
    pub prog_if: u8,
    pub subclass: u8,
    pub class_code: u8,
    pub cache_line_size: u8,
    pub latency_timer: u8,
    pub header_type: u8,
    pub bist: u8,
}

#[derive(Copy, Clone, Debug, PartialEq, Eq, Structural)]
pub enum CommonWriteEvent {
    CommandStatus,
    Bist,
    ProgIf,
}

impl CommonPciHeader {
    /// Register `index`, if it is one of the four.
    pub open spec fn register(&self, index: int) -> Option<int> {
        if index == 0 {
            Some(word_of_halves(self.vendor_id, self.device_id))
        } else if index == 1 {
            Some(word_of_halves(self.command.value, self.status))
        } else if index == 2 {
            Some(
                word_of_bytes(self.revision_id, self.prog_if, self.subclass, self.class_code),
            )
        } else if index == 3 {
            Some(
                word_of_bytes(
                    self.cache_line_size,
                    self.latency_timer,
                    self.header_type,
                    self.bist,
                ),
            )
        } else {
            None
        }
    }

    pub fn read(&self, index: usize) -> (r: Option<u32>)
        ensures
            match self.register(index as int) {
                Some(v) => r.is_some() && r.unwrap() == v,
                None => r.is_none(),
            },
    {
        match index {
            0 => Some(halves(self.vendor_id, self.device_id)),
            1 => Some(halves(self.command.value, self.status)),
            2 => Some(
                quarters(self.revision_id, self.prog_if, self.subclass, self.class_code),
            ),
            3 => Some(
                quarters(
                    self.cache_line_size,
                    self.latency_timer,
                    self.header_type,
                    self.bist,
                ),
            ),
            _ => None,
        }
    }

    /// The header after a write: only the command, the status, the programming interface and the
    /// self test can be written.
    pub open spec fn written(self, index: int, value: u32) -> CommonPciHeader {
        if index == 1 {
            CommonPciHeader {
                command: PciCommandRegister { value: (value % 0x1_0000) as u16 },
                status: (value / 0x1_0000) as u16,
                ..self
            }
        } else if index == 2 {
            CommonPciHeader { prog_if: (value / 0x100 % 0x100) as u8, ..self }
        } else if index == 3 {
            CommonPciHeader { bist: (value / 0x100_0000) as u8, ..self }
        } else {
            self
        }
    }

    pub open spec fn write_event(index: int) -> Option<CommonWriteEvent> {
        if index == 1 {
            Some(CommonWriteEvent::CommandStatus)
        } else if index == 2 {
            Some(CommonWriteEvent::ProgIf)
        } else if index == 3 {
            Some(CommonWriteEvent::Bist)
        } else {
            None
        }
    }

    pub fn write(&mut self, index: usize, value: u32) -> (r: Option<CommonWriteEvent>)
        ensures
            *final(self) == old(self).written(index as int, value),
            r == Self::write_event(index as int),
    {
        match index {
            1 => {
                self.command = PciCommandRegister { value: (value % 0x1_0000) as u16 };
                self.status = (value / 0x1_0000) as u16;
                Some(CommonWriteEvent::CommandStatus)
            },
            2 => {
                self.prog_if = (value / 0x100 % 0x100) as u8;
                Some(CommonWriteEvent::ProgIf)
            },
            3 => {
                self.bist = (value / 0x100_0000) as u8;
                Some(CommonWriteEvent::Bist)
            },
            _ => None,
        }
    }
}

/// The sixteen registers of an ordinary device.
#[derive(Copy, Clone, Debug)]
pub struct GeneralDeviceHeader {
    pub common: CommonPciHeader,
    pub bar: [u32; 6],
    pub cardbus_cis_pointer: u32,
    pub subsystem_vendor_id: u16,
    pub subsystem_id: u16,
    pub expansion_rom_base_address: u32,
    pub capabilities_pointer: u8,
    pub reserved1: (u8, u8, u8),
    pub reserved2: u32,
    pub interrupt_line: u8,
    pub interrupt_pin: u8,
    pub min_grant: u8,
    pub max_latency: u8,
}

#[derive(Copy, Clone, Debug, PartialEq, Eq)]
pub enum DeviceWriteEvent {
    Common(CommonWriteEvent),
    Bar(usize),
    CardbusCisPointer,
    ExpansionRom,
    CapabilitiesPointer,
    Reserved2,
    InterruptConfig,
}

impl GeneralDeviceHeader {
    /// A header with nothing but the common registers set.
    pub fn new(common: CommonPciHeader) -> (r: Self)
        ensures
            r == (GeneralDeviceHeader {
                common,
                bar: r.bar,
                cardbus_cis_pointer: 0,
                subsystem_vendor_id: 0,
                subsystem_id: 0,
                expansion_rom_base_address: 0,
                capabilities_pointer: 0,
                reserved1: (0, 0, 0),
                reserved2: 0,
                interrupt_line: 0,
                interrupt_pin: 0,
                min_grant: 0,
                max_latency: 0,
            }),
            r.bar@ == seq![0u32, 0, 0, 0, 0, 0],
    {
        let r = GeneralDeviceHeader {
            common,
            bar: [0, 0, 0, 0, 0, 0],
            cardbus_cis_pointer: 0,
            subsystem_vendor_id: 0,
            subsystem_id: 0,
            expansion_rom_base_address: 0,
            capabilities_pointer: 0,
            reserved1: (0, 0, 0),
            reserved2: 0,
            interrupt_line: 0,
            interrupt_pin: 0,
            min_grant: 0,
            max_latency: 0,
        };
        assert(r.bar@ =~= seq![0u32, 0, 0, 0, 0, 0]);
        r
    }

    /// Register `index`, if it is one of the sixteen.
    pub open spec fn register(&self, index: int) -> Option<int> {
        if index < 4 {
            self.common.register(index)
        } else if index < 10 {
            Some(self.bar@[index - 4] as int)
        } else if index == 10 {
            Some(self.cardbus_cis_pointer as int)
        } else if index == 11 {
            Some(word_of_halves(self.subsystem_vendor_id, self.subsystem_id))
        } else if index == 12 {
            Some(self.expansion_rom_base_address as int)
        } else if index == 13 {
            Some(
                word_of_bytes(
                    self.capabilities_pointer,
                    self.reserved1.0,
                    self.reserved1.1,
                    self.reserved1.2,
                ),
            )
        } else if index == 14 {
            Some(self.reserved2 as int)
        } else if index == 15 {
            Some(
                word_of_bytes(
                    self.interrupt_line,
                    self.interrupt_pin,
                    self.min_grant,
                    self.max_latency,
                ),
            )
        } else {
            None
        }
    }

    pub fn read(&self, index: usize) -> (r: Option<u32>)
        ensures
            match self.register(index as int) {
                Some(v) => r.is_some() && r.unwrap() == v,
                None => r.is_none(),
            },
    {
        if index < 4 {
            self.common.read(index)
        } else if index < 10 {
            Some(self.bar[index - 4])
        } else {
            match index {
                10 => Some(self.cardbus_cis_pointer),
                11 => Some(halves(self.subsystem_vendor_id, self.subsystem_id)),
                12 => Some(self.expansion_rom_base_address),
                13 => Some(
                    quarters(
                        self.capabilities_pointer,
                        self.reserved1.0,
                        self.reserved1.1,
                        self.reserved1.2,
                    ),
                ),
                14 => Some(self.reserved2),
                15 => Some(
                    quarters(
                        self.interrupt_line,
                        self.interrupt_pin,
                        self.min_grant,
                        self.max_latency,
                    ),
                ),
                _ => None,
            }
        }
    }

    /// The header, all but the base addresses, after a write. The interrupt pin cannot be
    /// written.
    pub open spec fn written(self, index: int, value: u32) -> GeneralDeviceHeader {
        if index < 4 {
            GeneralDeviceHeader { common: self.common.written(index, value), ..self }
        } else if index == 0xA {
            GeneralDeviceHeader { cardbus_cis_pointer: value, ..self }
        } else if index == 0xC {
            GeneralDeviceHeader { expansion_rom_base_address: value, ..self }
        } else if index == 0xD {
            GeneralDeviceHeader { capabilities_pointer: (value % 0x100) as u8, ..self }
        } else if index == 0xE {
            GeneralDeviceHeader { reserved2: value, ..self }
        } else if index == 0xF {
            GeneralDeviceHeader {
                interrupt_line: (value % 0x100) as u8,
                min_grant: (value / 0x1_0000 % 0x100) as u8,
                max_latency: (value / 0x100_0000) as u8,
                ..self
            }
        } else {
            self
        }
    }

    /// The base addresses after a write.
    pub open spec fn bars_written(bars: Seq<u32>, index: int, value: u32) -> Seq<u32> {
        if 4 <= index < 10 {
            bars.update(index - 4, value)
        } else {
            bars
        }
    }

    pub open spec fn write_event(index: int) -> Option<DeviceWriteEvent> {
        if index < 4 {
            match CommonPciHeader::write_event(index) {
                Some(e) => Some(DeviceWriteEvent::Common(e)),
                None => None,
            }
        } else if index < 10 {
            Some(DeviceWriteEvent::Bar((index - 4) as usize))
        } else if index == 0xA {
            Some(DeviceWriteEvent::CardbusCisPointer)
        } else if index == 0xC {
            Some(DeviceWriteEvent::ExpansionRom)
        } else if index == 0xD {
            Some(DeviceWriteEvent::CapabilitiesPointer)
        } else if index == 0xF {
            Some(DeviceWriteEvent::InterruptConfig)
        } else {
            None
        }
    }

    pub fn write(&mut self, index: usize, value: u32) -> (r: Option<DeviceWriteEvent>)
        ensures
            *final(self) == (GeneralDeviceHeader {
                bar: final(self).bar,
                ..old(self).written(index as int, value)
            }),
            final(self).bar@ == Self::bars_written(old(self).bar@, index as int, value),
            r == Self::write_event(index as int),
    {
        if index < 4 {
            match self.common.write(index, value) {
                Some(e) => Some(DeviceWriteEvent::Common(e)),
                None => None,
            }
        } else if index < 10 {
            let bar_num: usize = index - 4;
            self.bar[bar_num] = value;
            Some(DeviceWriteEvent::Bar(bar_num))
        } else {
            match index {
                0xA => {
                    self.cardbus_cis_pointer = value;
                    Some(DeviceWriteEvent::CardbusCisPointer)
                },
                0xC => {
                    self.expansion_rom_base_address = value;
                    Some(DeviceWriteEvent::ExpansionRom)
                },
                0xD => {
                    self.capabilities_pointer = (value % 0x100) as u8;
                    Some(DeviceWriteEvent::CapabilitiesPointer)
                },
                0xE => {
                    self.reserved2 = value;
                    None
                },
                0xF => {
                    self.interrupt_line = (value % 0x100) as u8;
                    self.min_grant = (value / 0x1_0000 % 0x100) as u8;
                    self.max_latency = (value / 0x100_0000) as u8;
                    Some(DeviceWriteEvent::InterruptConfig)
                },
                _ => None,
            }
        }
    }
}

/// The base addresses, the CIS pointer, the address of the expansion ROM and the reserved register
/// read back as they were written.
pub proof fn written_base_address_reads_back(
    header: GeneralDeviceHeader,
    after: GeneralDeviceHeader,
    index: int,
    value: u32,
)
    requires
        4 <= index < 10 || index == 0xA || index == 0xC || index == 0xE,
        after == (GeneralDeviceHeader { bar: after.bar, ..header.written(index, value) }),
        after.bar@ == GeneralDeviceHeader::bars_written(header.bar@, index, value),
    ensures
        after.register(index) == Some(value as int),
{
}

pub const CLASS_BRIDGE: u8 = 0x6;

pub const SUBCLASS_ISA_BRIDGE: u8 = 0x1;

/// A device that answers on the bus.
pub trait PciDevice: Sized {
    /// What a read of a register gives.
    spec fn config(&self, index: int) -> int;

    /// Whether a write turns `self` into `after`.
    spec fn config_written(&self, index: int, val: u32, after: Self) -> bool;

    fn write_configuration_space(&mut self, index: usize, val: u32)
        ensures
            old(self).config_written(index as int, val, *final(self)),
    ;

    fn read_configuration_space(&self, index: usize) -> (r: u32)
        ensures
            r == self.config(index as int),
    ;
}

/// Which device an address names, and which of its registers.
#[derive(Copy, Clone, Debug, PartialEq, Eq, Structural)]
pub struct Address {
    pub value: u32,
}

impl Address {
    pub open spec fn register_offset_spec(&self) -> int {
        self.value as int % 0x100
    }

    pub open spec fn function_spec(&self) -> int {
        self.value as int / 0x100 % 8
    }

    pub open spec fn device_spec(&self) -> int {
        self.value as int / 0x800 % 32
    }

    pub open spec fn bus_spec(&self) -> int {
        self.value as int / 0x1_0000 % 0x100
    }

    pub fn register_offset(&self) -> (r: u8)
        ensures
            r == self.register_offset_spec(),
    {
        (self.value % 0x100) as u8
    }

    pub fn function_number(&self) -> (r: u8)
        ensures
            r == self.function_spec(),
    {
        (self.value / 0x100 % 8) as u8
    }

    pub fn device_number(&self) -> (r: u8)
        ensures
            r == self.device_spec(),
    {
        (self.value / 0x800 % 32) as u8
    }

    pub fn bus_number(&self) -> (r: u8)
        ensures
            r == self.bus_spec(),
    {
        (self.value / 0x1_0000 % 0x100) as u8
    }
}

/// A base address register that memory is mapped behind.
#[derive(Copy, Clone, Debug)]
pub struct Bar {
    pub current_addr: Option<u32>,
    /// The number of bytes behind the register.
    pub len: u64,
    pub writable: bool,
}

#[derive(Copy, Clone, Debug)]
pub struct BarSnapshot {
    pub current_addr: Option<u32>,
}

/// A range of physical addresses.
#[derive(Copy, Clone, Debug, PartialEq, Eq, Structural)]
pub struct AddrRange {
    pub start: u64,
    pub end: u64,
}

/// What has to be done to the memory map: first take one range out of it, then put one in.
#[derive(Copy, Clone, Debug)]
pub struct Remap {
    pub unmap: Option<AddrRange>,
    pub map: Option<AddrRange>,
}

impl Bar {
    /// The range can be rounded up, and lies within 64 bits at any address.
    pub open spec fn wf(&self) -> bool {
        self.len <= 0xffff_ffff_0000_0000
    }

    pub open spec fn rounded_len(&self) -> int {
        (self.len + 0xfff) / 0x1000 * 0x1000
    }

    pub open spec fn range_at(&self, addr: u32) -> AddrRange {
        AddrRange { start: addr as u64, end: (addr + self.rounded_len()) as u64 }
    }

    pub open spec fn current_range(&self) -> Option<AddrRange> {
        match self.current_addr {
            Some(addr) => Some(self.range_at(addr)),
            None => None,
        }
    }

    pub fn new(len: u64, writable: bool) -> (r: Self)
        ensures
            r == (Bar { current_addr: None, len, writable }),
    {
        Self { current_addr: None, len, writable }
    }

    pub fn len_rounded_up_to_page_bound(&self) -> (r: u64)
        requires
            self.wf(),
        ensures
            r == self.rounded_len(),
            self.len <= r < self.len + 0x1000,
            r % 0x1000 == 0,
    {
        if self.len % 4096 == 0 {
            self.len
        } else {
            (self.len + 0xfff) / 0x1000 * 0x1000
        }
    }

    /// Moves the memory to `addr`, unless it is there already.
    pub fn enable_and_set_addr(&mut self, addr: u32) -> (r: Remap)
        requires
            old(self).wf(),
        ensures
            *final(self) == (Bar { current_addr: Some(addr), ..*old(self) }),
            r == (if old(self).current_addr == Some(addr) {
                Remap { unmap: None, map: None }
            } else {
                Remap {
                    unmap: old(self).current_range(),
                    map: Some(old(self).range_at(addr)),
                }
            }),
    {
        let moved = match self.current_addr {
            Some(old_addr) => old_addr != addr,
            None => true,
        };
        if moved {
            let unmap = self.disable();
            let len: u64 = self.len_rounded_up_to_page_bound();
            self.current_addr = Some(addr);
            Remap { unmap, map: Some(AddrRange { start: addr as u64, end: addr as u64 + len }) }
        } else {
            Remap { unmap: None, map: None }
        }
    }

    /// The range that is to be taken out of the memory map.
    pub fn disable(&self) -> (r: Option<AddrRange>)
        requires
            self.wf(),
        ensures
            r == self.current_range(),
    {
        match self.current_addr {
            Some(old_addr) => {
                let len: u64 = self.len_rounded_up_to_page_bound();
                Some(AddrRange { start: old_addr as u64, end: old_addr as u64 + len })
            },
            None => None,
        }
    }

    pub fn snapshot(&self) -> (r: BarSnapshot)
        ensures
            r.current_addr == self.current_addr,
    {
        BarSnapshot { current_addr: self.current_addr }
    }

    pub fn restore(&mut self, snapshot: BarSnapshot) -> (r: Remap)
        requires
            old(self).wf(),
        ensures
            match snapshot.current_addr {
                Some(addr) => {
                    &&& *final(self) == (Bar { current_addr: Some(addr), ..*old(self) })
                    &&& r == (if old(self).current_addr == Some(addr) {
                        Remap { unmap: None, map: None }
                    } else {
                        Remap {
                            unmap: old(self).current_range(),
                            map: Some(old(self).range_at(addr)),
                        }
                    })
                },
                None => *final(self) == *old(self) && r == (Remap {
                    unmap: old(self).current_range(),
                    map: None,
                }),
            },
    {
        match snapshot.current_addr {
            Some(addr) => self.enable_and_set_addr(addr),
            None => Remap { unmap: self.disable(), map: None },
        }
    }
}

} // verus!
