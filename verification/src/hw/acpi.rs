//! Power management.
use vstd::prelude::*;

use crate::bytes::bit_at;
use crate::hw::pci::{CommonPciHeader, PciCommandRegister, PciDevice};
use crate::hw::ports::{from_u32, part_of_u32, PortError, PortValue, PortWidth};

verus! {

#[derive(Copy, Clone, Debug, PartialEq, Eq, Structural)]
pub struct Acpi {
    pub pm_base: u16,
    pub sm_base: u16,
    pub intinfo: u32,
}

impl Default for Acpi {
    fn default() -> (r: Self)
        ensures
            r == (Acpi { pm_base: 0xB000, sm_base: 0xFFFF, intinfo: 0x01_00 }),
    {
        Self::new()
    }
}

/// What a read of a register gives. `ticks` is the time in ticks of the 3.579545 MHz clock of the
/// power management timer, which has 24 bits.
pub open spec fn pm_register(acpi: Acpi, addr: u16, ticks: u64, width: PortWidth) -> int {
    if addr == 0 || addr == 2 {
        0
    } else if addr == 8 {
        part_of_u32((ticks % 0x100_0000) as u32, 0, width)
    } else if addr == 15 {
        part_of_u32(acpi.intinfo, 3, width)
    } else {
        width.limit() - 1
    }
}

impl Acpi {
    pub fn new() -> (r: Self)
        ensures
            r == (Acpi { pm_base: 0xB000, sm_base: 0xFFFF, intinfo: 0x01_00 }),
    {
        Self { pm_base: 0xB000, sm_base: 0xFFFF, intinfo: 0x01_00 }
    }

    fn read(&self, addr: u16, ticks: u64, width: PortWidth) -> (r: Result<u32, PortError>)
        ensures
            r.is_ok(),
            r.unwrap() == pm_register(*self, addr, ticks, width),
    {
        match addr {
            // Power management status and enable
            0 | 2 => Ok(0),
            // 24-bit Power Management Timer
            8 => Ok(from_u32((ticks % 0x100_0000) as u32, 0, width)),
            15 => Ok(from_u32(self.intinfo, 3, width)),
            _ => Ok(width.no_device()),
        }
    }

    /// Whether a write asks for a sleep state, which is not supported.
    pub open spec fn asks_for_sleep(addr: u16, val: PortValue) -> bool {
        addr == 4 && bit_at(val.value as int, 0x2000)
    }

    fn write(&mut self, addr: u16, raw_val: PortValue) -> (r: Result<(), PortError>)
        requires
            !Self::asks_for_sleep(addr, raw_val),
        ensures
            r == Ok::<(), PortError>(()),
            *final(self) == (if addr == 0x3C {
                Acpi { intinfo: raw_val.value, ..*old(self) }
            } else {
                *old(self)
            }),
    {
        if addr == 0x3C {
            self.intinfo = raw_val.u32();
        }
        Ok(())
    }

    pub fn snapshot(&self) -> (r: Acpi)
        ensures
            r == *self,
    {
        *self
    }

    pub fn restore(&mut self, acpi: Acpi)
        ensures
            *final(self) == acpi,
    {
        *self = acpi;
    }

    /// The register that a port belongs to: 64 of them lie at the base address.
    pub open spec fn port(&self, addr: u16) -> Option<u16> {
        if addr / 64 * 64 == self.pm_base {
            Some((addr % 64) as u16)
        } else {
            None
        }
    }

    pub fn try_read(&self, addr: u16, ticks: u64, width: PortWidth) -> (r: Option<
        Result<u32, PortError>,
    >)
        ensures
            match self.port(addr) {
                Some(register) => r == Some(
                    Ok::<u32, PortError>(pm_register(*self, register, ticks, width) as u32),
                ),
                None => r.is_none(),
            },
    {
        if addr / 64 * 64 == self.pm_base {
            Some(self.read(addr % 64, ticks, width))
        } else {
            None
        }
    }

    pub fn find_port(&self, addr: u16) -> (r: Option<u16>)
        ensures
            r == self.port(addr),
    {
        if addr / 64 * 64 == self.pm_base {
            Some(addr % 64)
        } else {
            None
        }
    }

    pub fn try_write(&mut self, addr: u16, val: PortValue) -> (r: Option<Result<(), PortError>>)
        requires
            old(self).port(addr) matches Some(register) ==> !Self::asks_for_sleep(register, val),
        ensures
            match old(self).port(addr) {
                Some(register) => {
                    &&& r == Some(Ok::<(), PortError>(()))
                    &&& *final(self) == (if register == 0x3C {
                        Acpi { intinfo: val.value, ..*old(self) }
                    } else {
                        *old(self)
                    })
                },
                None => r.is_none() && *final(self) == *old(self),
            },
    {
        if addr / 64 * 64 == self.pm_base {
            Some(self.write(addr % 64, val))
        } else {
            None
        }
    }

    pub open spec fn header() -> CommonPciHeader {
        CommonPciHeader {
            vendor_id: 0x8086,
            device_id: 0x7113,
            command: PciCommandRegister { value: 0 },
            status: 0,
            revision_id: 3,
            prog_if: 0,
            subclass: 0,
            class_code: 0,
            cache_line_size: 0,
            latency_timer: 0,
            header_type: 0,
            bist: 0,
        }
    }
}

impl PciDevice for Acpi {
    open spec fn config(&self, index: int) -> int {
        match Self::header().register(index) {
            Some(v) => v,
            None => if index == 0xF {
                self.intinfo as int
            } else {
                0
            },
        }
    }

    open spec fn config_written(&self, index: int, val: u32, after: Acpi) -> bool {
        after == if index == 0xF {
            Acpi { intinfo: val, ..*self }
        } else {
            *self
        }
    }

    fn write_configuration_space(&mut self, index: usize, val: u32) {
        if index == 0xF {
            self.intinfo = val;
        }
    }

    fn read_configuration_space(&self, index: usize) -> (r: u32) {
        let hdr = CommonPciHeader {
            vendor_id: 0x8086,
            device_id: 0x7113,
            command: PciCommandRegister { value: 0 },
            status: 0,
            revision_id: 3,
            prog_if: 0,
            subclass: 0,
            class_code: 0,
            cache_line_size: 0,
            latency_timer: 0,
            header_type: 0,
            bist: 0,
        };
        match hdr.read(index) {
            Some(v) => v,
            None => match index {
                0xF => self.intinfo,
                _ => 0,
            },
        }
    }
}

/// The power management timer, at the ninth port, is a count of 24 bits that takes one step with each
/// tick and starts again at 0.
pub proof fn timer_counts_24_bits(acpi: Acpi, ticks: u64)
    requires
        ticks < u64::MAX,
    ensures
        ({
            let now = pm_register(acpi, 8, ticks, PortWidth::Dword);
            let next = pm_register(acpi, 8, (ticks + 1) as u64, PortWidth::Dword);
            &&& 0 <= now < 0x100_0000
            &&& next == (if now == 0xff_ffff {
                0
            } else {
                now + 1
            })
            &&& ticks == 0 ==> now == 0
        }),
        acpi.port(acpi.pm_base) == Some(0u16) || acpi.pm_base % 64 != 0,
{
    reveal(part_of_u32);
}

} // verus!
