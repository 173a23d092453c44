//! The configuration ports of the PCI bus, and the devices behind them.
use vstd::prelude::*;

use crate::hw::acpi::Acpi;
use crate::hw::ide::Ide;
use crate::hw::net::ne2k::Ne2k;
use crate::hw::pci::host_bridge::PciHostBridge;
use crate::hw::pci::isa_bridge::PciToIsaBridge;
use crate::hw::pci::{Address, PciDevice};
use crate::hw::ports::{from_u32, part_of_u32, PortValue, PortWidth};

verus! {

/// The devices on the bus.
#[derive(Debug)]
pub struct Space {
    pub ide: Ide,
    pub isa_bridge: PciToIsaBridge,
    pub host_bridge: PciHostBridge,
    pub acpi: Acpi,
    pub ne2k: Ne2k,
}

/// The functions that exist on the bus. The graphics card and the sound card are not part of the
/// space: whoever owns them answers for them.
#[derive(Copy, Clone, Debug, PartialEq, Eq, Structural)]
pub enum PciFunction {
    HostBridge,
    IsaBridge,
    Ide,
    Acpi,
    Vga,
    Sound,
    Network,
}

pub open spec fn function_at(bus: int, device: int, function: int) -> Option<PciFunction> {
    if bus != 0 {
        None
    } else if device == 0 && function == 0 {
        Some(PciFunction::HostBridge)
    } else if device == 1 && function == 0 {
        Some(PciFunction::IsaBridge)
    } else if device == 1 && function == 1 {
        Some(PciFunction::Ide)
    } else if device == 1 && function == 3 {
        Some(PciFunction::Acpi)
    } else if device == 2 && function == 0 {
        Some(PciFunction::Vga)
    } else if device == 3 && function == 0 {
        Some(PciFunction::Sound)
    } else if device == 4 && function == 0 {
        Some(PciFunction::Network)
    } else {
        None
    }
}

/// Byte `i` of a word.
pub open spec fn byte_of_word(v: u32, i: int) -> int {
    if i == 0 {
        v as int % 0x100
    } else if i == 1 {
        v as int / 0x100 % 0x100
    } else if i == 2 {
        v as int / 0x1_0000 % 0x100
    } else {
        v as int / 0x100_0000
    }
}

/// Byte `i` of `current` once the value was written at byte `offset`.
pub open spec fn blended_byte(val: PortValue, offset: int, current: u32, i: int) -> int {
    if offset <= i < offset + val.width.size_spec() {
        byte_of_word(val.value, i - offset)
    } else {
        byte_of_word(current, i)
    }
}

/// `current` once the value was written at byte `offset`. What does not fit is lost.
pub open spec fn blended(val: PortValue, offset: int, current: u32) -> int {
    blended_byte(val, offset, current, 0) + 0x100 * blended_byte(val, offset, current, 1) + 0x1_0000
        * blended_byte(val, offset, current, 2) + 0x100_0000 * blended_byte(val, offset, current, 3)
}

fn word_byte(v: u32, i: u8) -> (r: u32)
    requires
        i < 4,
    ensures
        r == byte_of_word(v, i as int),
        r < 0x100,
{
    match i {
        0 => v % 0x100,
        1 => v / 0x100 % 0x100,
        2 => v / 0x1_0000 % 0x100,
        _ => v / 0x100_0000,
    }
}

fn blend_byte(val: PortValue, offset: u8, current: u32, i: u8) -> (r: u32)
    requires
        i < 4,
        offset < 4,
    ensures
        r == blended_byte(val, offset as int, current, i as int),
        r < 0x100,
{
    if offset <= i && i < offset + val.width.size() {
        word_byte(val.value, i - offset)
    } else {
        word_byte(current, i)
    }
}

/// Writes a value into a part of a word.
pub fn blend_into_u32(val: PortValue, offset: u8, current: u32) -> (r: u32)
    requires
        offset < 4,
    ensures
        r == blended(val, offset as int, current),
{
    blend_byte(val, offset, current, 0) + 0x100 * blend_byte(val, offset, current, 1) + 0x1_0000
        * blend_byte(val, offset, current, 2) + 0x100_0000 * blend_byte(val, offset, current, 3)
}

proof fn lemma_word_parts(a: int, b: int, c: int, d: int)
    requires
        0 <= a < 0x100,
        0 <= b < 0x100,
        0 <= c < 0x100,
        0 <= d < 0x100,
    ensures
        ({
            let w = a + 0x100 * b + 0x1_0000 * c + 0x100_0000 * d;
            &&& 0 <= w <= u32::MAX
            &&& w % 0x100 == a
            &&& w / 0x100 == b + 0x100 * c + 0x1_0000 * d
            &&& w / 0x1_0000 == c + 0x100 * d
            &&& w / 0x100_0000 == d
            &&& w % 0x1_0000 == a + 0x100 * b
        }),
{
}

proof fn lemma_bytes_make_word(v: u32)
    ensures
        v == byte_of_word(v, 0) + 0x100 * byte_of_word(v, 1) + 0x1_0000 * byte_of_word(v, 2)
            + 0x100_0000 * byte_of_word(v, 3),
        v < 0x100 ==> v == byte_of_word(v, 0),
        v < 0x1_0000 ==> v == byte_of_word(v, 0) + 0x100 * byte_of_word(v, 1),
        0 <= byte_of_word(v, 0) < 0x100,
        0 <= byte_of_word(v, 1) < 0x100,
        0 <= byte_of_word(v, 2) < 0x100,
        0 <= byte_of_word(v, 3) < 0x100,
{
    let x: int = v as int;
    assert(x / 0x1_0000 == x / 0x100 / 0x100);
    assert(x / 0x100_0000 == x / 0x1_0000 / 0x100);
}

/// A value that was written to a part of a word is read back from that part.
pub proof fn blended_part_reads_back(val: PortValue, offset: int, current: u32)
    requires
        val.wf(),
        0 <= offset,
        offset + val.width.size_spec() <= 4,
    ensures
        0 <= blended(val, offset, current) <= u32::MAX,
        part_of_u32(blended(val, offset, current) as u32, offset, val.width) == val.value,
{
    reveal(part_of_u32);
    lemma_bytes_make_word(val.value);
    lemma_bytes_make_word(current);
    let a: int = blended_byte(val, offset, current, 0);
    let b: int = blended_byte(val, offset, current, 1);
    let c: int = blended_byte(val, offset, current, 2);
    let d: int = blended_byte(val, offset, current, 3);
    lemma_word_parts(a, b, c, d);
    match val.width {
        PortWidth::Byte => {
            lemma_word_parts(b, c, d, 0);
            lemma_word_parts(c, d, 0, 0);
        },
        PortWidth::Word => {
            lemma_word_parts(b, c, d, 0);
            lemma_word_parts(c, d, 0, 0);
        },
        PortWidth::Dword => {},
    }
}

/// The bus: the address that the data ports access.
#[derive(Copy, Clone, Debug, PartialEq, Eq, Structural)]
pub struct PciBus {
    pub address: Address,
}

#[derive(Copy, Clone, Debug, PartialEq, Eq, Structural)]
pub struct PciBusSnapshot {
    pub address: Address,
}

impl Default for PciBus {
    fn default() -> (r: Self)
        ensures
            r.address.value == 0,
    {
        Self::new()
    }
}

impl Space {
    /// What a read of a register of a function gives; `None` for functions outside the space.
    #[verifier::opaque]
    pub open spec fn config(&self, function: PciFunction, index: int) -> Option<int> {
        match function {
            PciFunction::HostBridge => Some(self.host_bridge.config(index)),
            PciFunction::IsaBridge => Some(self.isa_bridge.config(index)),
            PciFunction::Ide => Some(self.ide.config(index)),
            PciFunction::Acpi => Some(self.acpi.config(index)),
            PciFunction::Network => Some(self.ne2k.config(index)),
            PciFunction::Vga => None,
            PciFunction::Sound => None,
        }
    }

    /// Whether a write of a register of a function turns `self` into `after`.
    #[verifier::opaque]
    pub open spec fn config_written(
        &self,
        function: PciFunction,
        index: int,
        val: u32,
        after: &Space,
    ) -> bool {
        match function {
            PciFunction::HostBridge => self.host_bridge.config_written(
                index,
                val,
                after.host_bridge,
            ) && *after == (Space { host_bridge: after.host_bridge, ..*self }),
            PciFunction::IsaBridge => self.isa_bridge.config_written(index, val, after.isa_bridge)
                && *after == (Space { isa_bridge: after.isa_bridge, ..*self }),
            PciFunction::Ide => self.ide.config_written(index, val, after.ide) && *after == (Space {
                ide: after.ide,
                ..*self
            }),
            PciFunction::Acpi => self.acpi.config_written(index, val, after.acpi) && *after == (
            Space { acpi: after.acpi, ..*self }),
            PciFunction::Network => self.ne2k.config_written(index, val, after.ne2k) && *after == (
            Space { ne2k: after.ne2k, ..*self }),
            _ => *after == *self,
        }
    }

    fn read_config(&self, function: PciFunction, index: usize) -> (r: Option<u32>)
        ensures
            match self.config(function, index as int) {
                Some(v) => r.is_some() && r.unwrap() == v,
                None => r.is_none(),
            },
    {
        proof {
            reveal(Space::config);
        }
        match function {
            PciFunction::HostBridge => Some(self.host_bridge.read_configuration_space(index)),
            PciFunction::IsaBridge => Some(self.isa_bridge.read_configuration_space(index)),
            PciFunction::Ide => Some(self.ide.read_configuration_space(index)),
            PciFunction::Acpi => Some(self.acpi.read_configuration_space(index)),
            PciFunction::Network => Some(self.ne2k.read_configuration_space(index)),
            _ => None,
        }
    }

    fn write_config(&mut self, function: PciFunction, index: usize, val: u32)
        ensures
            old(self).config_written(function, index as int, val, final(self)),
            final(self).ide.wf() == old(self).ide.wf(),
            final(self).ne2k.wf() == old(self).ne2k.wf(),
    {
        proof {
            reveal(Space::config_written);
        }
        match function {
            PciFunction::HostBridge => self.host_bridge.write_configuration_space(index, val),
            PciFunction::IsaBridge => self.isa_bridge.write_configuration_space(index, val),
            PciFunction::Ide => self.ide.write_configuration_space(index, val),
            PciFunction::Acpi => self.acpi.write_configuration_space(index, val),
            PciFunction::Network => self.ne2k.write_configuration_space(index, val),
            _ => {},
        }
    }
}

impl PciBus {
    pub fn new() -> (r: Self)
        ensures
            r.address.value == 0,
    {
        Self { address: Address { value: 0 } }
    }

    pub fn write_address(&mut self, addr: u32)
        ensures
            final(self).address.value == addr,
    {
        self.address = Address { value: addr };
    }

    pub fn read_address(&self) -> (r: u32)
        ensures
            r == self.address.value,
    {
        self.address.value
    }

    pub open spec fn function(&self) -> Option<PciFunction> {
        function_at(
            self.address.bus_spec(),
            self.address.device_spec(),
            self.address.function_spec(),
        )
    }

    /// The function that the address names.
    pub fn find_function(&self) -> (r: Option<PciFunction>)
        ensures
            r == self.function(),
    {
        let device: u8 = self.address.device_number();
        let function: u8 = self.address.function_number();
        if self.address.bus_number() != 0 {
            return None;
        }
        match (device, function) {
            (0, 0) => Some(PciFunction::HostBridge),
            (1, 0) => Some(PciFunction::IsaBridge),
            (1, 1) => Some(PciFunction::Ide),
            (1, 3) => Some(PciFunction::Acpi),
            (2, 0) => Some(PciFunction::Vga),
            (3, 0) => Some(PciFunction::Sound),
            (4, 0) => Some(PciFunction::Network),
            _ => None,
        }
    }

    /// The register that the address names.
    pub open spec fn index(&self) -> int {
        self.address.register_offset_spec() / 4
    }

    pub fn register_index(&self) -> (r: usize)
        ensures
            r == self.index(),
    {
        self.address.register_offset() as usize / 4
    }

    /// Whether somebody outside the space answers.
    pub open spec fn is_external(&self) -> bool {
        self.function() == Some(PciFunction::Vga) || self.function() == Some(PciFunction::Sound)
    }

    /// Writes a data port. Nothing happens where there is no device in the space.
    pub fn write_data(&self, pci: &mut Space, addr: u8, data: PortValue)
        requires
            addr < 4,
        ensures
            match self.function() {
                Some(function) => match old(pci).config(function, self.index()) {
                    Some(current) => old(pci).config_written(
                        function,
                        self.index(),
                        blended(data, addr as int, current as u32) as u32,
                        final(pci),
                    ),
                    None => *final(pci) == *old(pci),
                },
                None => *final(pci) == *old(pci),
            },
            final(pci).ide.wf() == old(pci).ide.wf(),
            final(pci).ne2k.wf() == old(pci).ne2k.wf(),
    {
        if let Some(function) = self.find_function() {
            let index: usize = self.register_index();
            if let Some(current) = pci.read_config(function, index) {
                let new_val: u32 = blend_into_u32(data, addr, current);
                pci.write_config(function, index, new_val);
            }
        }
    }

    /// Reads a data port; all ones where there is no device. `None` if somebody outside the space
    /// answers.
    pub fn read_data(&self, pci: &Space, addr: u8, width: PortWidth) -> (r: Option<u32>)
        requires
            addr < 4,
        ensures
            r == (match self.function() {
                Some(function) => match pci.config(function, self.index()) {
                    Some(v) => Some(part_of_u32(v as u32, addr as int, width) as u32),
                    None => None,
                },
                None => Some(part_of_u32(0xffff_ffff, addr as int, width) as u32),
            }),
    {
        match self.find_function() {
            Some(function) => match pci.read_config(function, self.register_index()) {
                Some(v) => Some(from_u32(v, addr, width)),
                None => None,
            },
            None => Some(from_u32(0xffff_ffff, addr, width)),
        }
    }

    pub fn snapshot(&self) -> (r: PciBusSnapshot)
        ensures
            r.address == self.address,
    {
        PciBusSnapshot { address: self.address }
    }

    pub fn restore(&mut self, pci: PciBusSnapshot)
        ensures
            final(self).address == pci.address,
    {
        self.address = pci.address;
    }
}

/// The address register names a bus in bits 16 to 23, a device in bits 11 to 15, a function in bits 8
/// to 10 and a register of four bytes in bits 2 to 7. The functions of bus 0 are the bridge to the
/// processor, those of the second device, the graphics card, the sound card and the network card.
pub proof fn addresses_name_functions(bus: PciBus, device: int, function: int, register: int)
    requires
        0 <= device < 32,
        0 <= function < 8,
        0 <= register < 64,
        bus.address.value as int % 0x100_0000 == device * 0x800 + function * 0x100 + register * 4,
    ensures
        bus.index() == register,
        bus.function() == (if device == 0 && function == 0 {
            Some(PciFunction::HostBridge)
        } else if device == 1 && function == 0 {
            Some(PciFunction::IsaBridge)
        } else if device == 1 && function == 1 {
            Some(PciFunction::Ide)
        } else if device == 1 && function == 3 {
            Some(PciFunction::Acpi)
        } else if device == 2 && function == 0 {
            Some(PciFunction::Vga)
        } else if device == 3 && function == 0 {
            Some(PciFunction::Sound)
        } else if device == 4 && function == 0 {
            Some(PciFunction::Network)
        } else {
            None
        }),
{
    lemma_address_fields(bus.address.value as int, device, function, register);
    assert(bus.address.bus_spec() == 0);
    assert(bus.address.device_spec() == device);
    assert(bus.address.function_spec() == function);
    assert(bus.address.register_offset_spec() == register * 4);
}

proof fn lemma_address_fields(v: int, device: int, function: int, register: int)
    requires
        0 <= v < 0x1_0000_0000,
        0 <= device < 32,
        0 <= function < 8,
        0 <= register < 64,
        v % 0x100_0000 == device * 0x800 + function * 0x100 + register * 4,
    ensures
        v / 0x1_0000 % 0x100 == 0,
        v / 0x800 % 32 == device,
        v / 0x100 % 8 == function,
        v % 0x100 == register * 4,
{
    let h: int = v / 0x100_0000;
    let r: int = register * 4;
    assert(v == h * 0x100_0000 + device * 0x800 + function * 0x100 + r);
    assert(v / 0x100 == h * 0x1_0000 + device * 8 + function);
    assert(v / 0x800 == h * 0x2000 + device);
    assert(v / 0x1_0000 == h * 0x100);
}

} // verus!
