//! The machine: all devices, and the accesses of the processor to them.
use vstd::prelude::*;

use crate::hw::acpi::{pm_register, Acpi};
use crate::hw::cmos::{Cmos, CmosTimer, RtcTime};
use crate::hw::dma::{Dma, Mode};
use crate::hw::fdc::{Fdc, FdcModel};
use crate::hw::ide::Ide;
use crate::hw::intr::Intr;
use crate::hw::logger::{ends_line, Logger};
use crate::hw::net::ne2k::Ne2k;
use crate::hw::net::unat::Packet;
use crate::hw::pci::bus::{blended, PciBus, PciFunction, Space};
use crate::hw::pci::host_bridge::PciHostBridge;
use crate::hw::pci::isa_bridge::PciToIsaBridge;
use crate::hw::pic::io::IoApic;
use crate::hw::pic::legacy::{vectors_stay_in_range, DynamicIrqLine, Pic};
use crate::hw::pic::local::{ApicBase, Icr, LocalApic};
use crate::hw::pic::{
    still_accepts, ApicIrqLine, DualDynamicIrqLine, DualIrqLine, DynamicApicIrqLine, IrqState,
    IrqSystem,
};
use crate::hw::ports::{from_u32, part_of_u32, PortError, PortValue, PortWidth};
use crate::hw::routes::{
    find_read_target, find_write_target, read_target, write_target, ExternalPort, LogPort,
    PortTarget,
};
use crate::hw::storage::{DiskData, DiskModel};
use crate::mem::Memory;

verus! {

/// The devices of the machine, but for those that only their owners can drive: the timer, the
/// keyboard, the graphics card, the serial port and the sound card.
#[derive(Debug)]
pub struct Hw {
    pub irq: IrqSystem,
    pub ioapic: IoApic,
    pub lapic: LocalApic,
    pub primary_pic: Pic,
    pub secondary_pic: Pic,
    pub cmos: Cmos,
    pub dma: Dma,
    pub fdc: Fdc,
    pub space: Space,
    pub pci: PciBus,
    pub vga_logger: Logger,
    pub bios_info_logger: Logger,
    pub bios_debug_logger: Logger,
}

/// What a read of a port gives.
#[derive(Copy, Clone, Debug, PartialEq, Eq, Structural)]
pub enum PortReply {
    Value(u32),
    /// The owner of another device has to answer.
    External,
}

/// What a write of a port leaves to be done.
#[derive(Debug)]
pub struct WriteOutcome {
    /// The owner of another device has to take the value.
    pub external: bool,
    /// A line of a BIOS message is complete.
    pub line: Option<Vec<u8>>,
    /// A timer was started.
    pub timer: Option<CmosTimer>,
    /// A frame leaves the network card.
    pub frame: Option<Vec<u8>>,
}

impl WriteOutcome {
    pub open spec fn nothing(&self) -> bool {
        !self.external && self.line.is_none() && self.timer.is_none() && self.frame.is_none()
    }

    fn none() -> (r: Self)
        ensures
            r.nothing(),
    {
        WriteOutcome { external: false, line: None, timer: None, frame: None }
    }
}

/// The device that answers a port which devices with movable ports are asked for.
#[derive(Copy, Clone, Debug, PartialEq, Eq, Structural)]
pub enum MovableDevice {
    Disk,
    PowerManagement,
    /// The sound card, which somebody else owns.
    Sound,
    Network,
    Nothing,
}

/// The registers behind the fast system calls.
#[derive(Copy, Clone, Debug, PartialEq, Eq, Structural)]
pub struct SysEnterRegs {
    pub cs: u64,
    pub sp: u64,
    pub ip: u64,
}

/// The registers after a model-specific register was written.
pub open spec fn msr_regs(regs: SysEnterRegs, msr: u32, val: u64) -> SysEnterRegs {
    if msr == 0x174 {
        SysEnterRegs { cs: val, ..regs }
    } else if msr == 0x175 {
        SysEnterRegs { sp: val, ..regs }
    } else if msr == 0x176 {
        SysEnterRegs { ip: val, ..regs }
    } else {
        regs
    }
}

/// The lines that the devices are wired to.
fn line(pic: &Pic, pic_line: u8, apic_line: u32) -> (r: DualIrqLine)
    requires
        pic.wf(),
        pic_line < 8,
        apic_line < 24,
    ensures
        r.wf(),
        r.pic.index() == pic_line + pic.controller_index * 8,
        r.apic.index == apic_line,
{
    DualIrqLine { pic: pic.get_line(pic_line), apic: ApicIrqLine::new(apic_line) }
}

/// What a read of a byte-wide port gives.
pub open spec fn byte_reply(v: int, width: PortWidth) -> Result<PortReply, PortError> {
    if width == PortWidth::Byte {
        Ok(PortReply::Value(v as u32))
    } else {
        Err(PortError::UnsupportedWidth)
    }
}

fn reply_byte(v: u8, width: PortWidth) -> (r: Result<PortReply, PortError>)
    ensures
        r == byte_reply(v as int, width),
{
    match width {
        PortWidth::Byte => Ok(PortReply::Value(v as u32)),
        _ => Err(PortError::UnsupportedWidth),
    }
}

pub open spec fn view_reply(r: Result<u32, PortError>) -> Result<PortReply, PortError> {
    match r {
        Ok(v) => Ok(PortReply::Value(v)),
        Err(e) => Err(e),
    }
}

fn reply(r: Result<u32, PortError>) -> (x: Result<PortReply, PortError>)
    ensures
        x == view_reply(r),
{
    match r {
        Ok(v) => Ok(PortReply::Value(v)),
        Err(e) => Err(e),
    }
}

/// Writes a port of a legacy controller.
fn write_controller(pic: &mut Pic, irq: &mut IrqSystem, addr: u8, val: u8)
    requires
        old(pic).wf(),
        old(irq).wf(),
    ensures
        final(pic).wf(),
        final(pic).controller_index == old(pic).controller_index,
        *final(pic) == old(pic).after_write(addr, val),
        final(irq).wf(),
        still_accepts(&*old(irq), &*final(irq)),
        final(irq)@.pic == old(pic).lines_after_write(old(irq)@.pic, addr, val),
        final(irq)@.io == old(irq)@.io,
        final(irq)@.local == old(irq)@.local,
{
    pic.write(addr, val, &mut irq.pic, &mut irq.intr);
    proof {
        vectors_stay_in_range(*old(pic), old(irq)@.pic, addr, val, 0);
    }
}

/// The devices with memories of their own are well-formed.
#[verifier::opaque]
pub open spec fn devices_wf(fdc: &Fdc, space: &Space) -> bool {
    fdc.wf() && space.ide.wf() && space.ne2k.wf()
}

impl Hw {
    pub open spec fn wf(&self) -> bool {
        &&& self.irq.wf()
        &&& self.ioapic.wf()
        &&& self.lapic.wf()
        &&& self.primary_pic.wf()
        &&& self.primary_pic.controller_index == 0
        &&& self.secondary_pic.wf()
        &&& self.secondary_pic.controller_index == 1
        &&& self.cmos.wf()
        &&& devices_wf(&self.fdc, &self.space)
    }

    /// All lines of the devices can be pulsed.
    pub open spec fn ready(&self) -> bool {
        &&& self.fdc.irq.ready(&self.irq)
        &&& self.cmos.rtc_irq.ready(&self.irq)
        &&& self.space.ide.ready(&self.irq)
        &&& self.space.ne2k.ready(&self.irq)
    }

    /// The devices whose lines are fixed can still pulse the lines that they could pulse.
    pub open spec fn keeps_fixed_lines(&self, after: &Hw) -> bool {
        &&& self.fdc.irq.ready(&self.irq) ==> after.fdc.irq.ready(&after.irq)
        &&& self.cmos.rtc_irq.ready(&self.irq) ==> after.cmos.rtc_irq.ready(&after.irq)
        &&& self.space.ide.ready(&self.irq) ==> after.space.ide.ready(&after.irq)
    }

    /// The devices can still pulse the lines that they could pulse.
    pub open spec fn keeps_lines(&self, after: &Hw) -> bool {
        &&& self.keeps_fixed_lines(after)
        &&& self.space.ne2k.ready(&self.irq) ==> after.space.ne2k.ready(&after.irq)
    }

    /// A device that could pulse its line can pulse it after, exactly if the IO APIC masks the line
    /// or sends it on in a mode that is supported.
    pub open spec fn lines_follow(&self, after: &Hw) -> bool {
        let irq = after.irq@;
        let ide = after.space.ide;
        &&& self.fdc.irq.ready(&self.irq) ==> (after.fdc.irq.ready(&after.irq) <==> irq.accepts(
            after.fdc.irq.apic.index as int,
        ))
        &&& self.cmos.rtc_irq.ready(&self.irq) ==> (after.cmos.rtc_irq.ready(&after.irq)
            <==> irq.accepts(after.cmos.rtc_irq.apic.index as int))
        &&& self.space.ide.ready(&self.irq) ==> (ide.ready(&after.irq) <==> irq.accepts(
            ide.primary.irq.apic.index as int,
        ) && irq.accepts(ide.secondary.irq.apic.index as int))
        &&& self.space.ne2k.ready(&self.irq) ==> (after.space.ne2k.ready(&after.irq)
            <==> irq.accepts(after.space.ne2k.pci_header.interrupt_line as int))
    }

    /// Lines that could be pulsed before can be pulsed after.
    proof fn lemma_keeps_lines(&self, after: &Hw)
        requires
            still_accepts(&self.irq, &after.irq),
            after.fdc.irq == self.fdc.irq,
            after.cmos.rtc_irq == self.cmos.rtc_irq,
            after.space.ide.primary.irq == self.space.ide.primary.irq,
            after.space.ide.secondary.irq == self.space.ide.secondary.irq,
            after.space.ne2k.pci_header == self.space.ne2k.pci_header,
        ensures
            self.keeps_lines(after),
    {
        if self.fdc.irq.ready(&self.irq) {
            self.fdc.irq.stays_ready(&self.irq, &after.irq);
        }
        if self.cmos.rtc_irq.ready(&self.irq) {
            self.cmos.rtc_irq.stays_ready(&self.irq, &after.irq);
        }
        if self.space.ide.ready(&self.irq) {
            self.space.ide.primary.irq.stays_ready(&self.irq, &after.irq);
            self.space.ide.secondary.irq.stays_ready(&self.irq, &after.irq);
        }
        if self.space.ne2k.ready(&self.irq) {
            DualDynamicIrqLine::stays_ready(
                &self.irq,
                &after.irq,
                self.space.ne2k.pci_header.interrupt_line as int,
            );
        }
    }

    /// The machine. The first of the disks is in its floppy drive; if there are none, an empty one
    /// is.
    pub fn new(intr: Intr, fdc_disks: Vec<DiskData>, phys_mem_size: u64) -> (r: Self)
        requires
            intr.is_open(),
            intr.count() == 0,
        ensures
            r.wf(),
            r.ready(),
            r.irq.intr == intr,
            r.irq@ == IrqState::at_reset().with_offsets(0x08, 0x70),
            r.primary_pic == Pic::fresh(0),
            r.secondary_pic == Pic::fresh(1),
            r.ioapic.register_select() == 0 && r.ioapic.id() == 0,
            r.lapic.is_fresh(),
            r.cmos.is_fresh(phys_mem_size),
            r.dma@.is_fresh(),
            r.fdc@ == FdcModel::fresh(
                if fdc_disks@.len() > 0 {
                    fdc_disks@[0]@
                } else {
                    DiskModel { bytes: Seq::empty(), is_cd: false }
                },
            ),
            r.space.ide.is_fresh(),
            r.space.isa_bridge == (PciToIsaBridge {
                pirq_route_control: 0x80808080,
                serr_enable: true,
            }),
            r.space.host_bridge == (PciHostBridge {  }),
            r.space.acpi == (Acpi { pm_base: 0xB000, sm_base: 0xFFFF, intinfo: 0x01_00 }),
            r.space.ne2k.is_fresh(),
            r.pci.address.value == 0,
            r.vga_logger@ == Seq::<u8>::empty(),
            r.bios_info_logger@ == Seq::<u8>::empty(),
            r.bios_debug_logger@ == Seq::<u8>::empty(),
            r.fdc.irq.pic.index() == 6 && r.fdc.irq.apic.index == 6,
            r.cmos.rtc_irq.pic.index() == 8 && r.cmos.rtc_irq.apic.index == 8,
            r.space.ide.primary.irq.pic.index() == 14 && r.space.ide.primary.irq.apic.index == 14,
            r.space.ide.secondary.irq.pic.index() == 15 && r.space.ide.secondary.irq.apic.index
                == 15,
    {
        proof {
            reveal(devices_wf);
        }
        let mut irq = IrqSystem::new(intr);
        let ghost empty = irq@;
        let primary_pic = Pic::new(0, 0x08, &mut irq.pic);
        let secondary_pic = Pic::new(1, 0x70, &mut irq.pic);
        assert(irq@.io == empty.io && irq@.local == empty.local);
        let mut fdc_disks = fdc_disks;
        let disk = if fdc_disks.len() > 0 {
            fdc_disks.remove(0)
        } else {
            DiskData::from_mem(Vec::new())
        };
        let floppy_irq = line(&primary_pic, 6, 6);
        let ide_primary_irq = line(&secondary_pic, 6, 0xE);
        let ide_secondary_irq = line(&secondary_pic, 7, 0xF);
        let rtc_irq = line(&secondary_pic, 0, 0x8);
        proof {
            assert(empty.accepts(1) && empty.accepts(6) && empty.accepts(8) && empty.accepts(14)
                && empty.accepts(15));
            assert(irq@.accepts(1) && irq@.accepts(6) && irq@.accepts(8) && irq@.accepts(14)
                && irq@.accepts(15));
            reveal(DualIrqLine::ready);
            reveal(DualDynamicIrqLine::ready);
        }
        let dual_dynamic_irq = DualDynamicIrqLine {
            pic: DynamicIrqLine::from_shared_core(&irq.pic),
            apic: DynamicApicIrqLine::new(),
        };
        Hw {
            irq,
            ioapic: IoApic::new(),
            lapic: LocalApic::new(),
            primary_pic,
            secondary_pic,
            cmos: Cmos::new(rtc_irq, phys_mem_size),
            dma: Dma::new(),
            fdc: Fdc::new(disk, floppy_irq),
            space: Space {
                ide: Ide::new(ide_primary_irq, ide_secondary_irq),
                isa_bridge: PciToIsaBridge::new(),
                host_bridge: PciHostBridge::new(),
                acpi: Acpi::new(),
                ne2k: Ne2k::new(dual_dynamic_irq),
            },
            pci: PciBus::new(),
            vga_logger: Logger::new(),
            bios_info_logger: Logger::new(),
            bios_debug_logger: Logger::new(),
        }
    }

    /// The accesses that a read of the port makes are possible: the device that answers can pulse
    /// its line.
    pub open spec fn read_ok(
        &self,
        port: u16,
        width: PortWidth,
        packet: Option<Packet>,
        sound_claims: bool,
    ) -> bool {
        read_target(port) == PortTarget::Movable ==> match self.movable_device(
            port,
            sound_claims,
        ) {
            MovableDevice::Disk => self.space.ide.ready(&self.irq) && self.space.ide.read_ok(
                port,
                width,
            ),
            MovableDevice::Network => self.space.ne2k.ready(&self.irq)
                && self.space.ne2k.port_read_ok(port, width, packet, self.irq@),
            _ => true,
        }
    }

    /// The device that answers a movable port: the disk controller is asked first, then power
    /// management, the sound card and the network card.
    pub open spec fn movable_device(&self, port: u16, sound_claims: bool) -> MovableDevice {
        if self.space.ide.port(port).is_some() {
            MovableDevice::Disk
        } else if self.space.acpi.port(port).is_some() {
            MovableDevice::PowerManagement
        } else if sound_claims {
            MovableDevice::Sound
        } else if self.space.ne2k.port(port).is_some() {
            MovableDevice::Network
        } else {
            MovableDevice::Nothing
        }
    }

    /// Finds out which device answers a movable port. Only the network card takes the packet that
    /// waits on the network.
    pub fn find_movable_device(&self, port: u16, sound_claims: bool) -> (r: MovableDevice)
        ensures
            r == self.movable_device(port, sound_claims),
    {
        if self.space.ide.find_port(port).is_some() {
            MovableDevice::Disk
        } else if self.space.acpi.find_port(port).is_some() {
            MovableDevice::PowerManagement
        } else if sound_claims {
            MovableDevice::Sound
        } else if self.space.ne2k.find_port(port).is_some() {
            MovableDevice::Network
        } else {
            MovableDevice::Nothing
        }
    }

    /// What a read of a port of a device with movable ports leaves behind and returns. The disk
    /// controller is asked first, then power management, the sound card and the network card.
    #[verifier::opaque]
    pub open spec fn movable_read(
        &self,
        after: &Hw,
        port: u16,
        width: PortWidth,
        pm_ticks: u64,
        packet: Option<Packet>,
        sound_claims: bool,
        r: Result<PortReply, PortError>,
    ) -> bool {
        let answer = match r {
            Ok(PortReply::Value(v)) => Some(Ok::<u32, PortError>(v)),
            Ok(PortReply::External) => None,
            Err(e) => Some(Err(e)),
        };
        if self.space.ide.port(port).is_some() {
            &&& self.space.ide.read_effect(
                &after.space.ide,
                port,
                width,
                self.irq@,
                after.irq@,
                answer,
            )
            &&& *after == (Hw {
                space: Space { ide: after.space.ide, ..self.space },
                irq: after.irq,
                ..*self
            })
        } else if self.space.acpi.port(port).is_some() {
            let register = self.space.acpi.port(port).unwrap();
            &&& r == Ok::<PortReply, PortError>(
                PortReply::Value(
                    pm_register(self.space.acpi, register, pm_ticks, width) as u32,
                ),
            )
            &&& *after == *self
        } else if sound_claims {
            r == Ok::<PortReply, PortError>(PortReply::External) && *after == *self
        } else if self.space.ne2k.port(port).is_some() {
            &&& self.space.ne2k.read_effect(
                &after.space.ne2k,
                port,
                width,
                packet,
                self.irq@,
                after.irq@,
                answer,
            )
            &&& *after == (Hw {
                space: Space { ne2k: after.space.ne2k, ..self.space },
                irq: after.irq,
                ..*self
            })
        } else {
            &&& r == Ok::<PortReply, PortError>(PortReply::Value((width.limit() - 1) as u32))
            &&& *after == *self
        }
    }

    fn read_movable(
        &mut self,
        port: u16,
        width: PortWidth,
        pm_ticks: u64,
        packet: Option<Packet>,
        sound_claims: bool,
    ) -> (r: Result<PortReply, PortError>)
        requires
            old(self).wf(),
            read_target(port) == PortTarget::Movable,
            old(self).read_ok(port, width, packet, sound_claims),
        ensures
            final(self).wf(),
            old(self).keeps_lines(final(self)),
            old(self).movable_read(
                final(self),
                port,
                width,
                pm_ticks,
                packet,
                sound_claims,
                r,
            ),
    {
        proof {
            reveal(devices_wf);
        }
        proof {
            reveal(Hw::movable_read);
        }
        if self.space.ide.find_port(port).is_some() {
            let result = self.space.ide.try_read(port, width, &mut self.irq);
            proof {
                old(self).lemma_keeps_lines(self);
            }
            match result {
                Some(result) => {
                    return reply(result);
                },
                None => {
                    return Ok(PortReply::External);
                },
            }
        }
        if let Some(result) = self.space.acpi.try_read(port, pm_ticks, width) {
            return reply(result);
        }
        if sound_claims {
            return Ok(PortReply::External);
        }
        if self.space.ne2k.find_port(port).is_some() {
            let result = self.space.ne2k.try_read(port, width, packet, &mut self.irq);
            proof {
                old(self).lemma_keeps_lines(self);
            }
            match result {
                Some(result) => {
                    return reply(result);
                },
                None => {
                    return Ok(PortReply::External);
                },
            }
        }
        // No device present
        Ok(PortReply::Value(width.no_device()))
    }

    /// What a read that changes nothing gives.
    #[verifier::opaque]
    pub open spec fn plain_read(&self, target: PortTarget, width: PortWidth) -> Result<
        PortReply,
        PortError,
    > {
        match target {
            PortTarget::DmaStatus(_) => byte_reply(1, width),
            PortTarget::DmaTemporary => byte_reply(0, width),
            PortTarget::DmaPage(n) => byte_reply(self.dma@.page_addrs[n as int] as int, width),
            PortTarget::Pic { second, addr } => {
                let pic = if second {
                    self.secondary_pic
                } else {
                    self.primary_pic
                };
                let bank = self.irq@.pic.bank(pic.controller_index as int);
                let val = if addr != 0 {
                    bank.imr
                } else if !pic.read_register {
                    0
                } else if pic.register_select == 0 {
                    bank.pending_interrupts
                } else {
                    bank.in_service
                };
                byte_reply(val as int, width)
            },
            PortTarget::PciAddress(n) => Ok(
                PortReply::Value(part_of_u32(self.pci.address.value, n as int, width) as u32),
            ),
            PortTarget::PciData(n) => Ok(
                match self.pci.function() {
                    Some(function) => match self.space.config(function, self.pci.index()) {
                        Some(v) => PortReply::Value(part_of_u32(v as u32, n as int, width) as u32),
                        None => PortReply::External,
                    },
                    None => PortReply::Value(part_of_u32(0xffff_ffff, n as int, width) as u32),
                },
            ),
            PortTarget::Nothing => Ok(PortReply::Value((width.limit() - 1) as u32)),
            PortTarget::External(p) => if p.takes_spec(width) {
                Ok(PortReply::External)
            } else {
                Err(PortError::UnsupportedWidth)
            },
            _ => Ok(PortReply::External),
        }
    }

    fn read_plain(&self, target: PortTarget, width: PortWidth) -> (r: Result<PortReply, PortError>)
        requires
            self.wf(),
            crate::hw::routes::target_wf(target),
        ensures
            r == self.plain_read(target, width),
    {
        proof {
            reveal(Hw::plain_read);
        }
        match target {
            PortTarget::DmaStatus(n) => reply_byte(self.dma.read_status(n), width),
            PortTarget::DmaTemporary => reply_byte(0, width),
            PortTarget::DmaPage(n) => reply_byte(self.dma.read_page_addr_reg(n), width),
            PortTarget::Pic { second, addr } => {
                if second {
                    reply_byte(self.secondary_pic.read(addr, &self.irq.pic), width)
                } else {
                    reply_byte(self.primary_pic.read(addr, &self.irq.pic), width)
                }
            },
            PortTarget::PciAddress(n) => Ok(
                PortReply::Value(from_u32(self.pci.read_address(), n, width)),
            ),
            PortTarget::PciData(n) => match self.pci.read_data(&self.space, n, width) {
                Some(v) => Ok(PortReply::Value(v)),
                None => Ok(PortReply::External),
            },
            PortTarget::Nothing => Ok(PortReply::Value(width.no_device())),
            PortTarget::External(p) => {
                if p.takes(width) {
                    Ok(PortReply::External)
                } else {
                    Err(PortError::UnsupportedWidth)
                }
            },
            _ => Ok(PortReply::External),
        }
    }

    /// What a read of a port leaves behind and returns.
    pub open spec fn port_read(
        &self,
        after: &Hw,
        port: u16,
        width: PortWidth,
        now: RtcTime,
        pm_ticks: u64,
        packet: Option<Packet>,
        sound_claims: bool,
        r: Result<PortReply, PortError>,
    ) -> bool {
        let byte = width == PortWidth::Byte;
        match read_target(port) {
            PortTarget::DmaAddress(n) => {
                &&& r == byte_reply(self.dma@.addresses[n as int].byte() as int, width)
                &&& *after == (Hw { dma: after.dma, ..*self })
                &&& after.dma@ == (if byte {
                    self.dma@.address_read(n as int)
                } else {
                    self.dma@
                })
            },
            PortTarget::DmaCount(n) => {
                &&& r == byte_reply(self.dma@.counts[n as int].byte() as int, width)
                &&& *after == (Hw { dma: after.dma, ..*self })
                &&& after.dma@ == (if byte {
                    self.dma@.count_read(n as int)
                } else {
                    self.dma@
                })
            },
            PortTarget::CmosData => {
                &&& r == byte_reply(self.cmos.read_value(now), width)
                &&& *after == (Hw { cmos: after.cmos, ..*self })
                &&& !byte ==> after.cmos == self.cmos
                &&& byte ==> after.cmos == (if self.cmos.selected_reg == 0xA {
                    Cmos {
                        status_a: self.cmos.status_a.with_update_in_progress(
                            now.millisecond >= 999 || now.millisecond <= 2,
                        ),
                        ..self.cmos
                    }
                } else if self.cmos.selected_reg == 0xC {
                    Cmos { status_c: 0, ..self.cmos }
                } else {
                    self.cmos
                })
            },
            PortTarget::Fdc(addr) => {
                &&& r == byte_reply(self.fdc.read_value(addr), width)
                &&& *after == (Hw { fdc: after.fdc, ..*self })
                &&& after.fdc.irq == self.fdc.irq
                &&& after.fdc@ == (if byte && addr == 5 && self.fdc@.out.len() > 0 {
                    crate::hw::fdc::FdcModel { out: self.fdc@.out.skip(1), ..self.fdc@ }
                } else {
                    self.fdc@
                })
            },
            PortTarget::Movable => self.movable_read(
                after,
                port,
                width,
                pm_ticks,
                packet,
                sound_claims,
                r,
            ),
            target => r == self.plain_read(target, width) && *after == *self,
        }
    }

    fn read_fdc(&mut self, addr: u8) -> (r: u8)
        requires
            old(self).wf(),
        ensures
            final(self).wf(),
            old(self).keeps_lines(final(self)),
            r == old(self).fdc.read_value(addr),
            *final(self) == (Hw { fdc: final(self).fdc, ..*old(self) }),
            final(self).fdc.irq == old(self).fdc.irq,
            final(self).fdc@ == (if addr == 5 && old(self).fdc@.out.len() > 0 {
                crate::hw::fdc::FdcModel { out: old(self).fdc@.out.skip(1), ..old(self).fdc@ }
            } else {
                old(self).fdc@
            }),
    {
        proof {
            reveal(devices_wf);
        }
        self.fdc.read(addr)
    }

    /// Reads a port. `now` and `pm_ticks` tell the time, `packet` is the packet that waits on the
    /// network, and `sound_claims` tells whether the port belongs to the sound card.
    pub fn read_port(
        &mut self,
        port: u16,
        width: PortWidth,
        now: RtcTime,
        pm_ticks: u64,
        packet: Option<Packet>,
        sound_claims: bool,
    ) -> (r: Result<PortReply, PortError>)
        requires
            old(self).wf(),
            old(self).read_ok(port, width, packet, sound_claims),
        ensures
            final(self).wf(),
            old(self).keeps_lines(final(self)),
            old(self).port_read(
                final(self),
                port,
                width,
                now,
                pm_ticks,
                packet,
                sound_claims,
                r,
            ),
    {
        let byte = match width {
            PortWidth::Byte => true,
            _ => false,
        };
        match find_read_target(port) {
            PortTarget::DmaAddress(n) => {
                if byte {
                    let v: u8 = self.dma.read_address(n);
                    return reply_byte(v, width);
                }
                return Err(PortError::UnsupportedWidth);
            },
            PortTarget::DmaCount(n) => {
                if byte {
                    let v: u8 = self.dma.read_count(n);
                    return reply_byte(v, width);
                }
                return Err(PortError::UnsupportedWidth);
            },
            PortTarget::CmosData => {
                if byte {
                    let v: u8 = self.cmos.read(&self.fdc, now);
                    return reply_byte(v, width);
                }
                return Err(PortError::UnsupportedWidth);
            },
            PortTarget::Fdc(addr) => {
                if byte {
                    let v: u8 = self.read_fdc(addr);
                    return reply_byte(v, width);
                }
                return Err(PortError::UnsupportedWidth);
            },
            PortTarget::Movable => {
                return self.read_movable(port, width, pm_ticks, packet, sound_claims);
            },
            target => self.read_plain(target, width),
        }
    }

    /// The accesses that a write of the port makes are possible: the device that answers can pulse
    /// its line.
    pub open spec fn write_ok(
        &self,
        port: u16,
        val: PortValue,
        mem: Seq<u8>,
        packet: Option<Packet>,
        sound_claims: bool,
    ) -> bool {
        let byte = val.width == PortWidth::Byte;
        &&& !(0xc100 <= port <= 0xc300)
        &&& match write_target(port) {
            PortTarget::DmaUnsupported => !byte,
            PortTarget::DmaMode(_) => byte ==> !Mode::of_value(val.low8()).decrement,
            PortTarget::CmosData => byte ==> self.cmos.write_ok(val.low8()),
            PortTarget::Fdc(addr) => byte ==> self.fdc.irq.ready(&self.irq) && self.fdc.world(
                mem,
                self.irq@,
            ).write_ok(addr, val.low8(), self.dma.fdd),
            PortTarget::Movable => match self.movable_device(port, sound_claims) {
                MovableDevice::Disk => self.space.ide.ready(&self.irq) && self.space.ide.write_ok(
                    port,
                    val,
                    mem,
                    self.irq@,
                ),
                MovableDevice::PowerManagement => !Acpi::asks_for_sleep(
                    self.space.acpi.port(port).unwrap(),
                    val,
                ),
                MovableDevice::Network => self.space.ne2k.ready(&self.irq)
                    && self.space.ne2k.port_write_ok(port, val, packet, self.irq@),
                _ => true,
            },
            _ => true,
        }
    }

    /// What a write of a port of a device with movable ports leaves behind and returns.
    #[verifier::opaque]
    pub open spec fn movable_written(
        &self,
        after: &Hw,
        port: u16,
        val: PortValue,
        mem: Seq<u8>,
        mem_after: Seq<u8>,
        packet: Option<Packet>,
        sound_claims: bool,
        r: Result<WriteOutcome, PortError>,
    ) -> bool {
        if self.space.ide.port(port).is_some() {
            &&& self.space.ide.write_effect(
                &after.space.ide,
                port,
                val,
                (mem, self.irq@),
                (mem_after, after.irq@),
                Some(
                    match r {
                        Ok(_) => Ok(()),
                        Err(e) => Err(e),
                    },
                ),
            )
            &&& r.is_ok() ==> r.unwrap().nothing()
            &&& *after == (Hw {
                space: Space { ide: after.space.ide, ..self.space },
                irq: after.irq,
                ..*self
            })
        } else if self.space.acpi.port(port).is_some() {
            let register = self.space.acpi.port(port).unwrap();
            &&& r.is_ok() && r.unwrap().nothing()
            &&& mem_after == mem
            &&& *after == (Hw {
                space: Space {
                    acpi: if register == 0x3C {
                        Acpi { intinfo: val.value, ..self.space.acpi }
                    } else {
                        self.space.acpi
                    },
                    ..self.space
                },
                ..*self
            })
        } else if sound_claims {
            &&& r.is_ok() && r.unwrap().external
            &&& r.unwrap().line.is_none() && r.unwrap().timer.is_none()
                && r.unwrap().frame.is_none()
            &&& mem_after == mem
            &&& *after == *self
        } else if self.space.ne2k.port(port).is_some() {
            &&& self.space.ne2k.port_write_effect(
                &after.space.ne2k,
                port,
                val,
                packet,
                self.irq@,
                after.irq@,
                Some(
                    match r {
                        Ok(o) => Ok(o.frame),
                        Err(e) => Err(e),
                    },
                ),
            )
            &&& r.is_ok() ==> !r.unwrap().external && r.unwrap().line.is_none()
                && r.unwrap().timer.is_none()
            &&& mem_after == mem
            &&& *after == (Hw {
                space: Space { ne2k: after.space.ne2k, ..self.space },
                irq: after.irq,
                ..*self
            })
        } else {
            &&& r.is_ok() && r.unwrap().nothing()
            &&& mem_after == mem
            &&& *after == *self
        }
    }

    fn write_movable(
        &mut self,
        port: u16,
        val: PortValue,
        mem: &mut Memory,
        packet: Option<Packet>,
        sound_claims: bool,
    ) -> (r: Result<WriteOutcome, PortError>)
        requires
            old(self).wf(),
            write_target(port) == PortTarget::Movable,
            old(self).write_ok(port, val, old(mem)@, packet, sound_claims),
        ensures
            final(self).wf(),
            old(self).keeps_lines(final(self)),
            old(self).movable_written(
                final(self),
                port,
                val,
                old(mem)@,
                final(mem)@,
                packet,
                sound_claims,
                r,
            ),
    {
        proof {
            reveal(devices_wf);
        }
        proof {
            reveal(Hw::movable_written);
        }
        if self.space.ide.find_port(port).is_some() {
            let result = self.space.ide.try_write(port, val, mem, &mut self.irq);
            proof {
                old(self).lemma_keeps_lines(self);
            }
            return match result {
                Some(Err(e)) => Err(e),
                _ => Ok(WriteOutcome::none()),
            };
        }
        if let Some(result) = self.space.acpi.try_write(port, val) {
            proof {
                old(self).lemma_keeps_lines(self);
            }
            return Ok(WriteOutcome::none());
        }
        if sound_claims {
            return Ok(WriteOutcome { external: true, line: None, timer: None, frame: None });
        }
        if self.space.ne2k.find_port(port).is_some() {
            let result = self.space.ne2k.try_write(port, val, packet, &mut self.irq);
            proof {
                old(self).lemma_keeps_lines(self);
            }
            return match result {
                Some(Err(e)) => Err(e),
                Some(Ok(frame)) => Ok(
                    WriteOutcome { external: false, line: None, timer: None, frame },
                ),
                None => Ok(WriteOutcome::none()),
            };
        }
        Ok(WriteOutcome::none())
    }

    /// The target takes bytes only.
    pub open spec fn wants_byte(target: PortTarget) -> bool {
        match target {
            PortTarget::DmaFlipFlop(_) => false,
            PortTarget::DmaMasterClear(_) => false,
            PortTarget::PciAddress(_) => false,
            PortTarget::PciData(_) => false,
            PortTarget::Nothing => false,
            PortTarget::Movable => false,
            PortTarget::External(ExternalPort::Dispi(_)) => false,
            _ => true,
        }
    }

    /// What a write of a byte to a port of a fixed device leaves behind and returns.
    pub open spec fn fixed_written(
        &self,
        after: &Hw,
        target: PortTarget,
        val: PortValue,
        time: u64,
        mem: Seq<u8>,
        mem_after: Seq<u8>,
        o: WriteOutcome,
    ) -> bool {
        let byte = val.low8();
        match target {
            PortTarget::DmaAddress(n) => {
                &&& o.nothing() && mem_after == mem
                &&& *after == (Hw { dma: after.dma, ..*self })
                &&& after.dma@ == self.dma@.address_written(n as int, byte)
            },
            PortTarget::DmaCount(n) => {
                &&& o.nothing() && mem_after == mem
                &&& *after == (Hw { dma: after.dma, ..*self })
                &&& after.dma@ == self.dma@.count_written(n as int, byte)
            },
            PortTarget::DmaMode(n) => {
                &&& o.nothing() && mem_after == mem
                &&& *after == (Hw { dma: after.dma, ..*self })
                &&& after.dma@ == self.dma@.mode_written(n as int, byte)
            },
            PortTarget::DmaFlipFlop(n) => {
                &&& o.nothing() && mem_after == mem
                &&& *after == (Hw { dma: after.dma, ..*self })
                &&& after.dma@ == self.dma@.flip_flop_cleared(n as int)
            },
            PortTarget::DmaMasterClear(n) => {
                &&& o.nothing() && mem_after == mem
                &&& *after == (Hw { dma: after.dma, ..*self })
                &&& after.dma@ == self.dma@.master_cleared(n as int)
            },
            PortTarget::DmaPage(n) => {
                &&& o.nothing() && mem_after == mem
                &&& *after == (Hw { dma: after.dma, ..*self })
                &&& after.dma@ == self.dma@.page_written(n as int, byte)
            },
            PortTarget::Pic { second, addr } => {
                &&& o.nothing() && mem_after == mem
                &&& after.irq@.io == self.irq@.io && after.irq@.local == self.irq@.local
                &&& if second {
                    &&& *after == (Hw {
                        secondary_pic: self.secondary_pic.after_write(addr, byte),
                        irq: after.irq,
                        ..*self
                    })
                    &&& after.irq@.pic == self.secondary_pic.lines_after_write(
                        self.irq@.pic,
                        addr,
                        byte,
                    )
                } else {
                    &&& *after == (Hw {
                        primary_pic: self.primary_pic.after_write(addr, byte),
                        irq: after.irq,
                        ..*self
                    })
                    &&& after.irq@.pic == self.primary_pic.lines_after_write(
                        self.irq@.pic,
                        addr,
                        byte,
                    )
                }
            },
            PortTarget::CmosIndex => {
                &&& o.nothing() && mem_after == mem
                &&& *after == (Hw {
                    cmos: Cmos {
                        selected_reg: (byte % 0x80) as usize,
                        nmi: byte >= 0x80,
                        ..self.cmos
                    },
                    ..*self
                })
            },
            PortTarget::CmosData => {
                let reg = self.cmos.selected_reg;
                let timed = reg == 0xA || reg == 0xB;
                let written = self.cmos.data_written(byte);
                &&& !o.external && o.line.is_none() && o.frame.is_none() && mem_after == mem
                &&& *after == (Hw { cmos: after.cmos, ..*self })
                &&& after.cmos == (Cmos {
                    registers: after.cmos.registers,
                    selected_reg: 0,
                    ..if timed {
                        written.timer_updated()
                    } else {
                        written
                    }
                })
                &&& after.cmos.registers@ == (if timed || reg == 0xC {
                    self.cmos.registers@
                } else {
                    self.cmos.registers@.update(reg as int, byte)
                })
                &&& o.timer.is_some() == (timed && written.starts_timer())
                &&& o.timer.is_some() ==> Some(o.timer.unwrap().info) == after.cmos.timer_info
                    && o.timer.unwrap().next_interrupt == time
            },
            PortTarget::Fdc(addr) => {
                &&& o.nothing()
                &&& *after == (Hw { fdc: after.fdc, irq: after.irq, ..*self })
                &&& after.fdc.world(mem_after, after.irq@) == self.fdc.world(
                    mem,
                    self.irq@,
                ).written(addr, byte, self.dma.fdd)
            },
            PortTarget::Log(which) => {
                let (before, now, rest) = match which {
                    LogPort::BiosInfo => (
                        self.bios_info_logger@,
                        after.bios_info_logger@,
                        Hw { bios_info_logger: after.bios_info_logger, ..*self },
                    ),
                    LogPort::BiosDebug => (
                        self.bios_debug_logger@,
                        after.bios_debug_logger@,
                        Hw { bios_debug_logger: after.bios_debug_logger, ..*self },
                    ),
                    LogPort::VgaBios => (
                        self.vga_logger@,
                        after.vga_logger@,
                        Hw { vga_logger: after.vga_logger, ..*self },
                    ),
                };
                &&& !o.external && o.timer.is_none() && o.frame.is_none() && mem_after == mem
                &&& *after == rest
                &&& o.line.is_some() == ends_line(before, byte)
                &&& if ends_line(before, byte) {
                    o.line.unwrap()@ == before && now == Seq::<u8>::empty()
                } else {
                    now == before.push(byte)
                }
            },
            PortTarget::PciAddress(_) => {
                &&& o.nothing() && mem_after == mem
                &&& *after == (Hw { pci: after.pci, ..*self })
                &&& after.pci.address.value == val.value
            },
            PortTarget::PciData(n) => {
                &&& !o.external == !self.pci.is_external()
                &&& o.line.is_none() && o.timer.is_none() && o.frame.is_none() && mem_after == mem
                &&& *after == (Hw { space: after.space, ..*self })
                &&& match self.pci.function() {
                    Some(function) => match self.space.config(function, self.pci.index()) {
                        Some(current) => self.space.config_written(
                            function,
                            self.pci.index(),
                            blended(val, n as int, current as u32) as u32,
                            &after.space,
                        ),
                        None => after.space == self.space,
                    },
                    None => after.space == self.space,
                }
            },
            PortTarget::External(_) => {
                &&& o.external && o.line.is_none() && o.timer.is_none() && o.frame.is_none()
                &&& mem_after == mem
                &&& *after == *self
            },
            PortTarget::DmaMask(_) => {
                &&& o.nothing() && mem_after == mem
                &&& *after == (Hw { dma: after.dma, ..*self })
                &&& after.dma@ == self.dma@
            },
            _ => o.nothing() && mem_after == mem && *after == *self,
        }
    }

    fn write_pic(&mut self, second: bool, addr: u8, val: u8)
        requires
            old(self).wf(),
        ensures
            final(self).wf(),
            old(self).keeps_lines(final(self)),
            final(self).irq@.io == old(self).irq@.io,
            final(self).irq@.local == old(self).irq@.local,
            second ==> *final(self) == (Hw {
                secondary_pic: old(self).secondary_pic.after_write(addr, val),
                irq: final(self).irq,
                ..*old(self)
            }) && final(self).irq@.pic == old(self).secondary_pic.lines_after_write(
                old(self).irq@.pic,
                addr,
                val,
            ),
            !second ==> *final(self) == (Hw {
                primary_pic: old(self).primary_pic.after_write(addr, val),
                irq: final(self).irq,
                ..*old(self)
            }) && final(self).irq@.pic == old(self).primary_pic.lines_after_write(
                old(self).irq@.pic,
                addr,
                val,
            ),
    {
        if second {
            write_controller(&mut self.secondary_pic, &mut self.irq, addr, val);
        } else {
            write_controller(&mut self.primary_pic, &mut self.irq, addr, val);
        }
        proof {
            old(self).lemma_keeps_lines(self);
        }
    }

    fn log(&mut self, which: LogPort, byte: u8) -> (r: Option<Vec<u8>>)
        requires
            old(self).wf(),
        ensures
            final(self).wf(),
            old(self).keeps_lines(final(self)),
            ({
                let (before, now, rest) = match which {
                    LogPort::BiosInfo => (
                        old(self).bios_info_logger@,
                        final(self).bios_info_logger@,
                        Hw { bios_info_logger: final(self).bios_info_logger, ..*old(self) },
                    ),
                    LogPort::BiosDebug => (
                        old(self).bios_debug_logger@,
                        final(self).bios_debug_logger@,
                        Hw { bios_debug_logger: final(self).bios_debug_logger, ..*old(self) },
                    ),
                    LogPort::VgaBios => (
                        old(self).vga_logger@,
                        final(self).vga_logger@,
                        Hw { vga_logger: final(self).vga_logger, ..*old(self) },
                    ),
                };
                &&& *final(self) == rest
                &&& r.is_some() == ends_line(before, byte)
                &&& if ends_line(before, byte) {
                    r.unwrap()@ == before && now == Seq::<u8>::empty()
                } else {
                    now == before.push(byte)
                }
            }),
    {
        match which {
            LogPort::BiosInfo => self.bios_info_logger.write(byte),
            LogPort::BiosDebug => self.bios_debug_logger.write(byte),
            LogPort::VgaBios => self.vga_logger.write(byte),
        }
    }

    fn write_dma(
        &mut self,
        target: PortTarget,
        val: PortValue,
        Ghost(time): Ghost<u64>,
        Ghost(mem): Ghost<Seq<u8>>,
    ) -> (o: WriteOutcome)
        requires
            old(self).wf(),
            crate::hw::routes::target_wf(target),
            match target {
                PortTarget::DmaAddress(_) => true,
                PortTarget::DmaCount(_) => true,
                PortTarget::DmaMask(_) => true,
                PortTarget::DmaMode(_) => !Mode::of_value(val.low8()).decrement,
                PortTarget::DmaFlipFlop(_) => true,
                PortTarget::DmaMasterClear(_) => true,
                PortTarget::DmaPage(_) => true,
                _ => false,
            },
        ensures
            final(self).wf(),
            old(self).keeps_lines(final(self)),
            old(self).fixed_written(final(self), target, val, time, mem, mem, o),
    {
        let byte: u8 = val.u8();
        match target {
            PortTarget::DmaAddress(n) => self.dma.write_address(n, byte),
            PortTarget::DmaCount(n) => self.dma.write_count(n, byte),
            PortTarget::DmaMask(n) => self.dma.write_mask(n as usize, byte),
            PortTarget::DmaMode(n) => self.dma.write_mode(n, byte),
            PortTarget::DmaFlipFlop(n) => self.dma.clear_byte_flip_flop(n),
            PortTarget::DmaMasterClear(n) => self.dma.master_clear(n),
            PortTarget::DmaPage(n) => self.dma.write_page_addr_reg(n, byte),
            _ => {},
        }
        WriteOutcome::none()
    }

    fn write_pci(&mut self, n: u8, val: PortValue) -> (r: bool)
        requires
            old(self).wf(),
            n < 4,
        ensures
            final(self).wf(),
            old(self).keeps_fixed_lines(final(self)),
            final(self).space.ne2k.pci_header.interrupt_line
                == old(self).space.ne2k.pci_header.interrupt_line ==> old(self).keeps_lines(
                final(self),
            ),
            r == old(self).pci.is_external(),
            *final(self) == (Hw { space: final(self).space, ..*old(self) }),
            match old(self).pci.function() {
                Some(function) => match old(self).space.config(function, old(self).pci.index()) {
                    Some(current) => old(self).space.config_written(
                        function,
                        old(self).pci.index(),
                        blended(val, n as int, current as u32) as u32,
                        &final(self).space,
                    ),
                    None => final(self).space == old(self).space,
                },
                None => final(self).space == old(self).space,
            },
    {
        proof {
            reveal(devices_wf);
        }
        let external = match self.pci.find_function() {
            Some(PciFunction::Vga) | Some(PciFunction::Sound) => true,
            _ => false,
        };
        self.pci.write_data(&mut self.space, n, val);
        proof {
            reveal(Space::config_written);
        }
        external
    }

    fn write_fdc(&mut self, addr: u8, byte: u8, mem: &mut Memory)
        requires
            old(self).wf(),
            old(self).fdc.irq.ready(&old(self).irq),
            old(self).fdc.world(old(mem)@, old(self).irq@).write_ok(
                addr,
                byte,
                old(self).dma.fdd,
            ),
        ensures
            final(self).wf(),
            old(self).keeps_lines(final(self)),
            *final(self) == (Hw { fdc: final(self).fdc, irq: final(self).irq, ..*old(self) }),
            final(self).fdc.world(final(mem)@, final(self).irq@) == old(self).fdc.world(
                old(mem)@,
                old(self).irq@,
            ).written(addr, byte, old(self).dma.fdd),
    {
        proof {
            reveal(devices_wf);
        }
        self.fdc.write(addr, byte, &self.dma.fdd, mem, &mut self.irq);
        proof {
            old(self).lemma_keeps_lines(self);
        }
    }

    #[verifier::rlimit(40)]
    #[verifier::spinoff_prover]
    fn write_fixed(
        &mut self,
        target: PortTarget,
        val: PortValue,
        time: u64,
        mem: &mut Memory,
    ) -> (o: WriteOutcome)
        requires
            old(self).wf(),
            crate::hw::routes::target_wf(target),
            target != PortTarget::Movable,
            Self::wants_byte(target) ==> val.width == PortWidth::Byte,
            match target {
                PortTarget::DmaUnsupported => false,
                PortTarget::DmaMode(_) => !Mode::of_value(val.low8()).decrement,
                PortTarget::CmosData => old(self).cmos.write_ok(val.low8()),
                PortTarget::Fdc(addr) => old(self).fdc.irq.ready(&old(self).irq) && old(
                    self,
                ).fdc.world(
                    old(mem)@,
                    old(self).irq@,
                ).write_ok(addr, val.low8(), old(self).dma.fdd),
                _ => true,
            },
        ensures
            final(self).wf(),
            old(self).keeps_fixed_lines(final(self)),
            target is PciData || old(self).keeps_lines(final(self)),
            final(self).space.ne2k.pci_header.interrupt_line
                == old(self).space.ne2k.pci_header.interrupt_line ==> old(self).keeps_lines(
                final(self),
            ),
            old(self).fixed_written(final(self), target, val, time, old(mem)@, final(mem)@, o),
    {
        let byte: u8 = val.u8();
        match target {
            PortTarget::DmaAddress(_)
            | PortTarget::DmaCount(_)
            | PortTarget::DmaMask(_)
            | PortTarget::DmaMode(_)
            | PortTarget::DmaFlipFlop(_)
            | PortTarget::DmaMasterClear(_)
            | PortTarget::DmaPage(_) => {
                return self.write_dma(target, val, Ghost(time), Ghost(mem@));
            },
            PortTarget::Pic { second, addr } => {
                self.write_pic(second, addr, byte);
                return WriteOutcome::none();
            },
            PortTarget::CmosIndex => {
                self.cmos.write_port(byte);
                return WriteOutcome::none();
            },
            PortTarget::CmosData => {
                let timer = self.cmos.write_data(byte, time);
                return WriteOutcome { external: false, line: None, timer, frame: None };
            },
            PortTarget::Fdc(addr) => {
                self.write_fdc(addr, byte, mem);
                return WriteOutcome::none();
            },
            PortTarget::Log(which) => {
                let line = self.log(which, byte);
                return WriteOutcome { external: false, line, timer: None, frame: None };
            },
            PortTarget::PciAddress(_) => {
                self.pci.write_address(val.u32());
                return WriteOutcome::none();
            },
            PortTarget::PciData(n) => {
                let external = self.write_pci(n, val);
                return WriteOutcome { external, line: None, timer: None, frame: None };
            },
            PortTarget::External(_) => {
                return WriteOutcome { external: true, line: None, timer: None, frame: None };
            },
            _ => {
                return WriteOutcome::none();
            },
        }
    }

    /// Writes a port. `time` tells the time in nanoseconds, `packet` is the packet that waits on
    /// the network, and `sound_claims` tells whether the port belongs to the sound card. A write
    /// of the configuration space may move the network card to a line that cannot be pulsed.
    pub fn write_port(
        &mut self,
        port: u16,
        val: PortValue,
        time: u64,
        mem: &mut Memory,
        packet: Option<Packet>,
        sound_claims: bool,
    ) -> (r: Result<WriteOutcome, PortError>)
        requires
            old(self).wf(),
            old(self).write_ok(port, val, old(mem)@, packet, sound_claims),
        ensures
            final(self).wf(),
            old(self).keeps_fixed_lines(final(self)),
            write_target(port) is PciData || old(self).keeps_lines(final(self)),
            final(self).space.ne2k.pci_header.interrupt_line
                == old(self).space.ne2k.pci_header.interrupt_line ==> old(self).keeps_lines(
                final(self),
            ),
            ({
                let target = write_target(port);
                if target == PortTarget::Movable {
                    old(self).movable_written(
                        final(self),
                        port,
                        val,
                        old(mem)@,
                        final(mem)@,
                        packet,
                        sound_claims,
                        r,
                    )
                } else if Self::wants_byte(target) && val.width != PortWidth::Byte {
                    &&& r.is_err() && r->Err_0 == PortError::UnsupportedWidth
                    &&& *final(self) == *old(self) && *final(mem) == *old(mem)
                } else {
                    &&& r.is_ok()
                    &&& old(self).fixed_written(
                        final(self),
                        target,
                        val,
                        time,
                        old(mem)@,
                        final(mem)@,
                        r.unwrap(),
                    )
                }
            }),
    {
        let target = find_write_target(port);
        let any_width = match target {
            PortTarget::DmaFlipFlop(_)
            | PortTarget::DmaMasterClear(_)
            | PortTarget::PciAddress(_)
            | PortTarget::PciData(_)
            | PortTarget::Nothing
            | PortTarget::External(ExternalPort::Dispi(_)) => true,
            PortTarget::Movable => {
                return self.write_movable(port, val, mem, packet, sound_claims);
            },
            _ => false,
        };
        if !any_width {
            if let Err(e) = val.require_u8() {
                return Err(e);
            }
        }
        Ok(self.write_fixed(target, val, time, mem))
    }

    /// Returns the vector of the interrupt that the processor takes next: one of the local APIC,
    /// or else one of the legacy controllers.
    pub fn check_interrupt(&mut self) -> (r: Option<u8>)
        requires
            old(self).wf(),
        ensures
            final(self).wf(),
            old(self).keeps_lines(final(self)),
            *final(self) == (Hw { irq: final(self).irq, ..*old(self) }),
            final(self).irq@.io == old(self).irq@.io,
            ({
                let local = if old(self).lapic.apic_base.enabled_spec() {
                    old(self).irq@.local.next_vector()
                } else {
                    None
                };
                let lines = old(self).irq@.pic;
                &&& final(self).irq@.local == (if old(self).lapic.apic_base.enabled_spec() {
                    old(self).irq@.local.delivered()
                } else {
                    old(self).irq@.local
                })
                &&& if local.is_some() {
                    r == local && final(self).irq@.pic == lines
                } else if lines.deliverable() {
                    &&& r == Some(lines.vector(lines.next_line()) as u8)
                    &&& final(self).irq@.pic == lines.servicing(lines.next_line())
                } else {
                    r.is_none() && final(self).irq@.pic == lines
                }
            }),
    {
        proof {
            reveal(DualIrqLine::ready);
            reveal(DualDynamicIrqLine::ready);
        }
        let local = self.lapic.next_pending_interrupt(&mut self.irq.local, &mut self.irq.intr);
        proof {
            self.irq.local.lemma_wf();
        }
        if local.is_some() {
            return local;
        }
        proof {
            if self.irq.pic@.deliverable() {
                crate::hw::pic::legacy::delivered_line_is_effective(self.irq.pic@);
            }
        }
        self.irq.pic.get_next_interrupt(&mut self.irq.intr)
    }

    /// Puts a disk into an IDE drive, or takes it out.
    pub fn set_disk(&mut self, channel: usize, disk: usize, data: Option<DiskData>)
        requires
            channel < 2,
            disk < 2,
            old(self).wf(),
        ensures
            final(self).wf(),
            old(self).keeps_lines(final(self)),
            old(self).space.ide.disk_set(&final(self).space.ide, channel, disk, data),
            *final(self) == (Hw {
                space: Space { ide: final(self).space.ide, ..old(self).space },
                ..*old(self)
            }),
    {
        proof {
            reveal(devices_wf);
        }
        self.space.ide.set_disk(channel, disk, data);
        proof {
            old(self).lemma_keeps_lines(self);
        }
    }

    /// The vectors of the first line of each legacy controller.
    pub fn vector_offsets(&self) -> (r: (u8, u8))
        requires
            self.wf(),
        ensures
            r == (
                self.irq@.pic.main.vector_offset,
                self.irq@.pic.secondary.vector_offset,
            ),
    {
        (
            self.primary_pic.vector_offset(&self.irq.pic),
            self.secondary_pic.vector_offset(&self.irq.pic),
        )
    }

    pub fn apic_is_enabled(&self) -> (r: bool)
        ensures
            r == self.lapic.apic_base.enabled_spec(),
    {
        self.lapic.is_enabled()
    }

    pub fn redirection_entry_vector(&self, index: usize) -> (r: u8)
        requires
            index < 24,
        ensures
            r == self.irq@.io.entries[index as int].vector,
    {
        self.ioapic.redirection_entry_vector(index, &self.irq.io)
    }

    /// The value of a model-specific register.
    pub open spec fn msr_value(&self, cpu: SysEnterRegs, msr: u32, k: u64) -> u64 {
        if msr == 0x10 {
            (k / 8) as u64
        } else if msr == 0x1b {
            self.lapic.apic_base.value
        } else if msr == 0xfe {
            0x508
        } else if msr == 0x174 {
            cpu.cs
        } else if msr == 0x175 {
            cpu.sp
        } else if msr == 0x176 {
            cpu.ip
        } else if msr == 0x2ff {
            0xC06
        } else {
            0
        }
    }

    /// Reads a model-specific register; unknown ones read 0. `k` counts instructions.
    pub fn read_msr(&self, cpu: &SysEnterRegs, msr: u32, k: u64) -> (r: u64)
        ensures
            r == self.msr_value(*cpu, msr, k),
    {
        match msr {
            // TSC
            0x10 => k / 8,
            0x1b => self.lapic.read_apic_base(),
            0xfe => 0x508,
            0x174 => cpu.cs,
            0x175 => cpu.sp,
            0x176 => cpu.ip,
            // IA32_MTRRdefType
            0x2ff => 0xC06,
            _ => 0,
        }
    }

    /// What a write of a model-specific register changes of the hardware.
    pub open spec fn msr_written(&self, after: &Hw, msr: u32, val: u64, r: Option<u64>) -> bool {
        &&& r.is_some() == (msr == 0x1b && !(ApicBase { value: val }).enabled_spec())
        &&& r.is_some() ==> r.unwrap() == self.lapic.apic_base.addr_spec() * 0x1000
        &&& msr == 0x1b ==> {
            &&& *after == (Hw {
                lapic: LocalApic { apic_base: after.lapic.apic_base, ..self.lapic },
                ..*self
            })
            &&& after.lapic.apic_base.value == (ApicBase { value: val }).with_bsp(
                self.lapic.apic_base.bsp_spec(),
            )
        }
        &&& msr != 0x1b ==> *after == *self
    }

    /// Whether a model-specific register can be written: the local APIC stays at its address.
    pub open spec fn msr_ok(msr: u32, val: u64) -> bool {
        msr == 0x1b && (ApicBase { value: val }).enabled_spec() ==> (ApicBase {
            value: val,
        }).addr_spec() == crate::hw::pic::local::DEFAULT_MMIO_ADDR
    }

    /// Writes a model-specific register. Returns the page that the local APIC no longer answers
    /// at, if it was switched off.
    pub fn write_msr(&mut self, cpu: &mut SysEnterRegs, msr: u32, val: u64) -> (r: Option<u64>)
        requires
            old(self).wf(),
            Self::msr_ok(msr, val),
        ensures
            final(self).wf(),
            old(self).keeps_lines(final(self)),
            *final(cpu) == msr_regs(*old(cpu), msr, val),
            old(self).msr_written(final(self), msr, val, r),
    {
        proof {
            reveal(DualIrqLine::ready);
            reveal(DualDynamicIrqLine::ready);
        }
        match msr {
            0x1b => {
                return self.lapic.write_apic_base(val);
            },
            0x174 => cpu.cs = val,
            0x175 => cpu.sp = val,
            0x176 => cpu.ip = val,
            _ => {},
        }
        None
    }

    /// Forgets all interrupts that were raised so far.
    pub fn trace_disengaged(&mut self)
        requires
            old(self).wf(),
        ensures
            final(self).wf(),
            old(self).keeps_lines(final(self)),
            *final(self) == (Hw { irq: final(self).irq, ..*old(self) }),
            final(self).irq@ == old(self).irq@.forgotten(),
    {
        proof {
            reveal(DualIrqLine::ready);
            reveal(DualDynamicIrqLine::ready);
        }
        self.primary_pic.clear_pending(&mut self.irq.pic, &mut self.irq.intr);
        self.secondary_pic.clear_pending(&mut self.irq.pic, &mut self.irq.intr);
        self.lapic.clear_pending(&mut self.irq.local);
        proof {
            self.irq.local.lemma_wf();
            let (a, b): (u8, u8) = (self.irq@.pic.main.imr, self.irq@.pic.secondary.imr);
            assert(((0u8 & !0u8 & !a) as u16) | (((0u8 & !0u8 & !b) as u16) << 8u16) == 0)
                by (bit_vector);
        }
        self.ioapic.clear_pending(&mut self.irq.io);
    }

    /// What a read of memory behind the IO APIC gives.
    pub fn read_ioapic(&self, address: u32, width: PortWidth) -> (r: u32)
        requires
            self.wf(),
        ensures
            r == part_of_u32(
                self.ioapic.read_spec((address % 0x1000 / 16) as u32, self.irq@.io) as u32,
                address as int % 4,
                width,
            ),
    {
        let val: u32 = self.ioapic.read(address % 0x1000 / 16, &self.irq.io);
        from_u32(val, (address % 4) as u8, width)
    }

    /// What a read of memory behind the local APIC gives. `ticks` is the time in ticks of its
    /// timer.
    pub fn read_lapic(&self, address: u32, width: PortWidth, ticks: u64) -> (r: u32)
        requires
            self.wf(),
            address % 0x1000 / 16 == 0x39 ==> self.lapic.initial_count != 0,
        ensures
            r == part_of_u32(
                self.lapic.read_spec(
                    (address % 0x1000 / 16) as u32,
                    ticks,
                    self.irq@.local,
                ) as u32,
                address as int % 4,
                width,
            ),
    {
        let val: u32 = self.lapic.read(address % 0x1000 / 16, ticks, &self.irq.local);
        from_u32(val, (address % 4) as u8, width)
    }

    /// Writes memory behind the local APIC. Only whole registers can be written.
    pub fn write_lapic(&mut self, address: u32, val: PortValue)
        requires
            old(self).wf(),
            val.width == PortWidth::Dword
                && address % 0x1000 / 16 == 0x30 ==> old(self).lapic.supports_command(Icr::of_value(val.value)),
        ensures
            final(self).wf(),
            old(self).keeps_lines(final(self)),
            ({
                let index = (address % 0x1000 / 16) as u32;
                &&& *final(self) == (Hw {
                    lapic: final(self).lapic,
                    irq: final(self).irq,
                    ..*old(self)
                })
                &&& final(self).irq@.pic == old(self).irq@.pic
                &&& final(self).irq@.io == old(self).irq@.io
                &&& if val.width == PortWidth::Dword {
                    &&& final(self).lapic == (LocalApic {
                        lvt: final(self).lapic.lvt,
                        ..old(self).lapic.after_write(index, val.value)
                    })
                    &&& final(self).lapic.lvt@ == old(self).lapic.lvt_after_write(index, val.value)
                    &&& final(self).irq@.local == old(self).lapic.lines_after_write(
                        old(self).irq@.local,
                        index,
                        val.value,
                    )
                } else {
                    *final(self) == *old(self)
                }
            }),
    {
        proof {
            reveal(DualIrqLine::ready);
            reveal(DualDynamicIrqLine::ready);
        }
        if let PortWidth::Dword = val.width {
            self.lapic.write(
                address % 0x1000 / 16,
                val.value,
                &mut self.irq.local,
                &mut self.irq.intr,
            );
            proof {
                self.irq.local.lemma_wf();
            }
        }
    }

    /// Writes memory behind the IO APIC. Only whole registers can be written. The entries of the
    /// lines may then ask for a delivery mode that is not supported.
    pub fn write_ioapic(&mut self, address: u32, val: PortValue)
        requires
            old(self).wf(),
        ensures
            final(self).wf(),
            ({
                let index = (address % 0x1000 / 16) as u32;
                &&& *final(self) == (Hw {
                    ioapic: final(self).ioapic,
                    irq: final(self).irq,
                    ..*old(self)
                })
                &&& final(self).irq@.pic == old(self).irq@.pic
                &&& final(self).irq@.local == old(self).irq@.local
                &&& final(self).irq@.io.irq_lines == old(self).irq@.io.irq_lines
                &&& if val.width == PortWidth::Dword && index == 1 {
                    final(self).irq@.io.entries == crate::hw::pic::io::entries_after_write(
                        old(self).irq@.io.entries,
                        old(self).ioapic.register_select(),
                        val.value,
                    )
                } else {
                    final(self).irq@.io.entries == old(self).irq@.io.entries
                }
                &&& final(self).ioapic.register_select() == (if val.width == PortWidth::Dword
                    && index == 0 {
                    val.value
                } else {
                    old(self).ioapic.register_select()
                })
                &&& final(self).ioapic.id() == (if val.width == PortWidth::Dword && index == 1
                    && old(self).ioapic.register_select() == 0 {
                    (val.value / 0x100_0000 % 16) as u8
                } else {
                    old(self).ioapic.id()
                })
            }),
            old(self).lines_follow(final(self)),
    {
        proof {
            reveal(DualIrqLine::ready);
            reveal(DualDynamicIrqLine::ready);
        }
        if let PortWidth::Dword = val.width {
            self.ioapic.write(address % 0x1000 / 16, val.value, &mut self.irq.io);
        }
    }
}

} // verus!
