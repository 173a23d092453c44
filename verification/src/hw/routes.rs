//! Which device a port belongs to.
use vstd::prelude::*;

use crate::hw::ports::PortWidth;

verus! {

/// Ports of devices that are not part of [`crate::hw::machine::Hw`]: whoever owns them answers.
#[derive(Copy, Clone, Debug, PartialEq, Eq, Structural)]
pub enum ExternalPort {
    PitTimer(u8),
    PitControl,
    PpiA,
    PpiB,
    PpiC,
    PpiStatus,
    SystemControlA,
    Dispi(u8),
    XtIde(u8),
    Vga(u8),
    Cga(u8),
    Com1(u8),
}

impl ExternalPort {
    /// Whether an access of the width reaches the device: the display interface is accessed in any
    /// width, all others in bytes.
    pub open spec fn takes_spec(self, width: PortWidth) -> bool {
        width == PortWidth::Byte || self is Dispi
    }

    pub fn takes(self, width: PortWidth) -> (r: bool)
        ensures
            r == self.takes_spec(width),
    {
        match (self, width) {
            (ExternalPort::Dispi(_), _) => true,
            (_, PortWidth::Byte) => true,
            _ => false,
        }
    }
}

/// The messages of the BIOSes.
#[derive(Copy, Clone, Debug, PartialEq, Eq, Structural)]
pub enum LogPort {
    BiosInfo,
    BiosDebug,
    VgaBios,
}

/// What a port belongs to.
#[derive(Copy, Clone, Debug, PartialEq, Eq, Structural)]
pub enum PortTarget {
    DmaAddress(u8),
    DmaCount(u8),
    DmaStatus(u8),
    DmaTemporary,
    DmaUnsupported,
    DmaMask(u8),
    DmaMode(u8),
    DmaFlipFlop(u8),
    DmaMasterClear(u8),
    DmaPage(u8),
    Pic { second: bool, addr: u8 },
    CmosIndex,
    CmosData,
    Fdc(u8),
    Log(LogPort),
    PciAddress(u8),
    PciData(u8),
    /// Nothing answers, and nothing happens.
    Nothing,
    /// The devices with movable ports are asked one after the other.
    Movable,
    External(ExternalPort),
}

/// The DMA page register behind a port.
pub open spec fn dma_page(port: u16) -> Option<u8> {
    if port == 0x81 {
        Some(2)
    } else if port == 0x82 {
        Some(3)
    } else if port == 0x83 {
        Some(1)
    } else if port == 0x87 {
        Some(0)
    } else if port == 0x89 {
        Some(6)
    } else if port == 0x8A {
        Some(7)
    } else if port == 0x8B {
        Some(5)
    } else if port == 0x8F {
        Some(4)
    } else {
        None
    }
}

/// Ports that mean the same for reads and writes.
#[verifier::opaque]
pub open spec fn common_target(port: u16) -> Option<PortTarget> {
    if port < 8 {
        if port % 2 == 0 {
            Some(PortTarget::DmaAddress((port / 2) as u8))
        } else {
            Some(PortTarget::DmaCount((port / 2) as u8))
        }
    } else if 0xC0 <= port < 0xC8 {
        if port % 2 == 0 {
            Some(PortTarget::DmaAddress(((port - 0xC0) / 2 + 4) as u8))
        } else {
            Some(PortTarget::DmaCount(((port - 0xC0) / 2 + 4) as u8))
        }
    } else if dma_page(port).is_some() {
        Some(PortTarget::DmaPage(dma_page(port).unwrap()))
    } else if port == 0x20 || port == 0x21 {
        Some(PortTarget::Pic { second: false, addr: (port % 2) as u8 })
    } else if port == 0xA0 || port == 0xA1 {
        Some(PortTarget::Pic { second: true, addr: (port % 2) as u8 })
    } else if 0x40 <= port <= 0x42 {
        Some(PortTarget::External(ExternalPort::PitTimer((port % 4) as u8)))
    } else if port == 0x43 {
        Some(PortTarget::External(ExternalPort::PitControl))
    } else if port == 0x60 {
        Some(PortTarget::External(ExternalPort::PpiA))
    } else if port == 0x61 {
        Some(PortTarget::External(ExternalPort::PpiB))
    } else if port == 0x62 {
        Some(PortTarget::External(ExternalPort::PpiC))
    } else if port == 0x64 {
        Some(PortTarget::External(ExternalPort::PpiStatus))
    } else if port == 0x71 {
        Some(PortTarget::CmosData)
    } else if port == 0x92 {
        Some(PortTarget::External(ExternalPort::SystemControlA))
    } else if port == 0x1ce || port == 0x1cf {
        Some(PortTarget::External(ExternalPort::Dispi((port % 2) as u8)))
    } else if 0x300 <= port <= 0x30f {
        Some(PortTarget::External(ExternalPort::XtIde((port % 16) as u8)))
    } else if 0x3c0 <= port <= 0x3cf {
        Some(PortTarget::External(ExternalPort::Vga((port % 16) as u8)))
    } else if 0x3b0 <= port <= 0x3bf || 0x3d0 <= port <= 0x3df {
        Some(PortTarget::External(ExternalPort::Cga((port % 16) as u8)))
    } else if 0x3f0 <= port <= 0x3f5 || port == 0x3f7 {
        Some(PortTarget::Fdc((port % 16) as u8))
    } else if 0x3f8 <= port <= 0x3ff {
        Some(PortTarget::External(ExternalPort::Com1((port % 8) as u8)))
    } else if 0x2f8 <= port <= 0x2ff {
        Some(PortTarget::Nothing)
    } else if 0xCFC <= port <= 0xCFF {
        Some(PortTarget::PciData((port % 4) as u8))
    } else {
        None
    }
}

/// What a read of a port goes to.
#[verifier::opaque]
pub open spec fn read_target(port: u16) -> PortTarget {
    match common_target(port) {
        Some(target) => target,
        None => if port == 0x08 {
            PortTarget::DmaStatus(0)
        } else if port == 0xD0 {
            PortTarget::DmaStatus(1)
        } else if port == 0x0D || port == 0xDA {
            PortTarget::DmaTemporary
        } else if 0xCF8 <= port <= 0xCFB {
            PortTarget::PciAddress((port % 4) as u8)
        } else if port == 0x1ef || port == 0x16F {
            PortTarget::Nothing
        } else {
            PortTarget::Movable
        },
    }
}

/// What a write of a port goes to.
#[verifier::opaque]
pub open spec fn write_target(port: u16) -> PortTarget {
    match common_target(port) {
        Some(target) => target,
        None => if port == 0x08 || port == 0xD0 || port == 0x09 || port == 0xD2 || port == 0x0E
            || port == 0xDC || port == 0x0F || port == 0xDE {
            // Commands, requests and the other two ways to set masks
            PortTarget::DmaUnsupported
        } else if port == 0x0A {
            PortTarget::DmaMask(0)
        } else if port == 0xD4 {
            PortTarget::DmaMask(1)
        } else if port == 0x0B {
            PortTarget::DmaMode(0)
        } else if port == 0xD6 {
            PortTarget::DmaMode(1)
        } else if port == 0x0C {
            PortTarget::DmaFlipFlop(0)
        } else if port == 0xD8 {
            PortTarget::DmaFlipFlop(1)
        } else if port == 0x0D {
            PortTarget::DmaMasterClear(0)
        } else if port == 0xDA {
            PortTarget::DmaMasterClear(1)
        } else if port == 0x70 {
            PortTarget::CmosIndex
        } else if port == 0x402 {
            PortTarget::Log(LogPort::BiosInfo)
        } else if port == 0x403 {
            PortTarget::Log(LogPort::BiosDebug)
        } else if port == 0x500 {
            PortTarget::Log(LogPort::VgaBios)
        } else if port == 0xCF8 {
            PortTarget::PciAddress(0)
        } else if is_ignored_write(port) {
            PortTarget::Nothing
        } else {
            PortTarget::Movable
        },
    }
}

/// Writes without effect: the progress of the self test, board setup, printers and the like.
pub open spec fn is_ignored_write(port: u16) -> bool {
    port == 0x80 || port == 0x63 || port == 0x94 || port == 0x96 || port == 0x3EA || port == 0x2ea
        || port == 0x378 || port == 0x278 || port == 0x37a || port == 0x27a
}

fn find_common(port: u16) -> (r: Option<PortTarget>)
    ensures
        r == common_target(port),
{
    proof {
        reveal(common_target);
    }
    match port {
        0x00 | 0x02 | 0x04 | 0x06 => Some(PortTarget::DmaAddress((port / 2) as u8)),
        0x01 | 0x03 | 0x05 | 0x07 => Some(PortTarget::DmaCount((port / 2) as u8)),
        0xC0 | 0xC2 | 0xC4 | 0xC6 => Some(
            PortTarget::DmaAddress(((port - 0xC0) / 2 + 4) as u8),
        ),
        0xC1 | 0xC3 | 0xC5 | 0xC7 => Some(PortTarget::DmaCount(((port - 0xC0) / 2 + 4) as u8)),
        0x81 => Some(PortTarget::DmaPage(2)),
        0x82 => Some(PortTarget::DmaPage(3)),
        0x83 => Some(PortTarget::DmaPage(1)),
        0x87 => Some(PortTarget::DmaPage(0)),
        0x89 => Some(PortTarget::DmaPage(6)),
        0x8A => Some(PortTarget::DmaPage(7)),
        0x8B => Some(PortTarget::DmaPage(5)),
        0x8F => Some(PortTarget::DmaPage(4)),
        0x20 | 0x21 => Some(PortTarget::Pic { second: false, addr: (port % 2) as u8 }),
        0xA0 | 0xA1 => Some(PortTarget::Pic { second: true, addr: (port % 2) as u8 }),
        0x40 | 0x41 | 0x42 => Some(
            PortTarget::External(ExternalPort::PitTimer((port % 4) as u8)),
        ),
        0x43 => Some(PortTarget::External(ExternalPort::PitControl)),
        0x60 => Some(PortTarget::External(ExternalPort::PpiA)),
        0x61 => Some(PortTarget::External(ExternalPort::PpiB)),
        0x62 => Some(PortTarget::External(ExternalPort::PpiC)),
        0x64 => Some(PortTarget::External(ExternalPort::PpiStatus)),
        0x71 => Some(PortTarget::CmosData),
        0x92 => Some(PortTarget::External(ExternalPort::SystemControlA)),
        0x1ce | 0x1cf => Some(PortTarget::External(ExternalPort::Dispi((port % 2) as u8))),
        _ => {
            if 0x300 <= port && port <= 0x30f {
                Some(PortTarget::External(ExternalPort::XtIde((port % 16) as u8)))
            } else if 0x3c0 <= port && port <= 0x3cf {
                Some(PortTarget::External(ExternalPort::Vga((port % 16) as u8)))
            } else if (0x3b0 <= port && port <= 0x3bf) || (0x3d0 <= port && port <= 0x3df) {
                Some(PortTarget::External(ExternalPort::Cga((port % 16) as u8)))
            } else if (0x3f0 <= port && port <= 0x3f5) || port == 0x3f7 {
                Some(PortTarget::Fdc((port % 16) as u8))
            } else if 0x3f8 <= port && port <= 0x3ff {
                Some(PortTarget::External(ExternalPort::Com1((port % 8) as u8)))
            } else if 0x2f8 <= port && port <= 0x2ff {
                Some(PortTarget::Nothing)
            } else if 0xCFC <= port && port <= 0xCFF {
                Some(PortTarget::PciData((port % 4) as u8))
            } else {
                None
            }
        },
    }
}

/// The parts of a target are within their ranges.
pub open spec fn target_wf(target: PortTarget) -> bool {
    match target {
        PortTarget::DmaAddress(n) => n < 8,
        PortTarget::DmaCount(n) => n < 8,
        PortTarget::DmaStatus(n) => n < 2,
        PortTarget::DmaMask(n) => n < 2,
        PortTarget::DmaMode(n) => n < 2,
        PortTarget::DmaFlipFlop(n) => n < 2,
        PortTarget::DmaMasterClear(n) => n < 2,
        PortTarget::DmaPage(n) => n < 8,
        PortTarget::Pic { addr, .. } => addr < 2,
        PortTarget::PciAddress(n) => n < 4,
        PortTarget::PciData(n) => n < 4,
        _ => true,
    }
}

/// Finds out what a read of a port goes to.
pub fn find_read_target(port: u16) -> (r: PortTarget)
    ensures
        r == read_target(port),
        target_wf(r),
{
    proof {
        reveal(common_target);
        reveal(read_target);
    }
    match find_common(port) {
        Some(target) => target,
        None => match port {
            0x08 => PortTarget::DmaStatus(0),
            0xD0 => PortTarget::DmaStatus(1),
            0x0D | 0xDA => PortTarget::DmaTemporary,
            0xCF8 | 0xCF9 | 0xCFA | 0xCFB => PortTarget::PciAddress((port % 4) as u8),
            // Polled a lot by FreeDOS
            0x1ef | 0x16F => PortTarget::Nothing,
            _ => PortTarget::Movable,
        },
    }
}

/// Finds out what a write of a port goes to.
pub fn find_write_target(port: u16) -> (r: PortTarget)
    ensures
        r == write_target(port),
        target_wf(r),
{
    proof {
        reveal(common_target);
        reveal(write_target);
    }
    match find_common(port) {
        Some(target) => target,
        None => match port {
            0x08 | 0xD0 | 0x09 | 0xD2 | 0x0E | 0xDC | 0x0F | 0xDE => PortTarget::DmaUnsupported,
            0x0A => PortTarget::DmaMask(0),
            0xD4 => PortTarget::DmaMask(1),
            0x0B => PortTarget::DmaMode(0),
            0xD6 => PortTarget::DmaMode(1),
            0x0C => PortTarget::DmaFlipFlop(0),
            0xD8 => PortTarget::DmaFlipFlop(1),
            0x0D => PortTarget::DmaMasterClear(0),
            0xDA => PortTarget::DmaMasterClear(1),
            0x70 => PortTarget::CmosIndex,
            0x402 => PortTarget::Log(LogPort::BiosInfo),
            0x403 => PortTarget::Log(LogPort::BiosDebug),
            0x500 => PortTarget::Log(LogPort::VgaBios),
            0xCF8 => PortTarget::PciAddress(0),
            0x80 | 0x63 | 0x94 | 0x96 | 0x3EA | 0x2ea | 0x378 | 0x278 | 0x37a
            | 0x27a => PortTarget::Nothing,
            _ => PortTarget::Movable,
        },
    }
}

/// Where the ports of the devices lie.
pub proof fn ports_have_their_devices(port: u16)
    ensures
        port == 0x20 || port == 0x21 ==> read_target(port) == (PortTarget::Pic {
            second: false,
            addr: (port - 0x20) as u8,
        }) && write_target(port) == read_target(port),
        port == 0xA0 || port == 0xA1 ==> read_target(port) == (PortTarget::Pic {
            second: true,
            addr: (port - 0xA0) as u8,
        }) && write_target(port) == read_target(port),
        port == 0x70 ==> write_target(port) == PortTarget::CmosIndex,
        port == 0x71 ==> read_target(port) == PortTarget::CmosData && write_target(port)
            == PortTarget::CmosData,
        0x3f0 <= port <= 0x3f5 || port == 0x3f7 ==> read_target(port) == PortTarget::Fdc(
            (port - 0x3f0) as u8,
        ) && write_target(port) == read_target(port),
        port == 0xCF8 ==> write_target(port) == PortTarget::PciAddress(0) && read_target(port)
            == PortTarget::PciAddress(0),
        0xCFC <= port <= 0xCFF ==> read_target(port) == PortTarget::PciData((port - 0xCFC) as u8)
            && write_target(port) == read_target(port),
        port == 0x04 ==> write_target(port) == PortTarget::DmaAddress(2),
        port == 0x05 ==> write_target(port) == PortTarget::DmaCount(2),
        port == 0x81 ==> write_target(port) == PortTarget::DmaPage(2),
        port == 0x0B ==> write_target(port) == PortTarget::DmaMode(0),
        port == 0x0C ==> write_target(port) == PortTarget::DmaFlipFlop(0),
        port == 0x60 ==> read_target(port) == PortTarget::External(ExternalPort::PpiA),
        port == 0x64 ==> read_target(port) == PortTarget::External(ExternalPort::PpiStatus),
        0x40 <= port <= 0x42 ==> read_target(port) == PortTarget::External(
            ExternalPort::PitTimer((port - 0x40) as u8),
        ),
        0x3c0 <= port <= 0x3cf ==> read_target(port) == PortTarget::External(
            ExternalPort::Vga((port - 0x3c0) as u8),
        ),
        0x3f8 <= port <= 0x3ff ==> read_target(port) == PortTarget::External(
            ExternalPort::Com1((port - 0x3f8) as u8),
        ),
        port == 0x402 ==> write_target(port) == PortTarget::Log(LogPort::BiosInfo),
        port == 0x403 ==> write_target(port) == PortTarget::Log(LogPort::BiosDebug),
        port == 0x500 ==> write_target(port) == PortTarget::Log(LogPort::VgaBios),
        0x1f0 <= port <= 0x1f7 || port == 0x3f6 || 0x170 <= port <= 0x177 || port == 0x376
            ==> read_target(port) == PortTarget::Movable && write_target(port)
            == PortTarget::Movable,
        port >= 0xD00 ==> read_target(port) == PortTarget::Movable && write_target(port)
            == PortTarget::Movable,
{
    reveal(common_target);
    reveal(read_target);
    reveal(write_target);
}

} // verus!
