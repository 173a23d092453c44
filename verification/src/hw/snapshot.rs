//! Snapshots of the hardware.
use vstd::prelude::*;

use crate::hw::acpi::Acpi;
use crate::hw::cmos::{CmosSnapshot, CmosTimer};
use crate::hw::dma::Dma;
use crate::hw::fdc::FdcSnapshot;
use crate::hw::ide::IdeSnapshot;
use crate::hw::logger::Logger;
use crate::hw::machine::{devices_wf, Hw};
use crate::hw::net::ne2k::Ne2kSnapshot;
use crate::hw::pci::bus::{PciBusSnapshot, Space};
use crate::hw::pci::host_bridge::PciHostBridge;
use crate::hw::pci::isa_bridge::PciToIsaBridge;
use crate::hw::pic::bitset::members;
use crate::hw::pic::io::{IoApic, IoApicLines, IoApicSnapshot, RedirectionEntry};
use crate::hw::pic::legacy::{PicLines, PicSnapshot, SharedPicCoreSnapshot};
use crate::hw::pic::local::{LocalApic, LocalApicLines, LocalApicSnapshot};
use crate::hw::pic::{DualDynamicIrqLine, DualIrqLine, IrqSystem};

verus! {

/// The state of the hardware at one moment.
#[derive(Debug)]
pub struct HwSnapshot {
    pub cmos: CmosSnapshot,
    pub dma: Dma,
    pub primary_pic: PicSnapshot,
    pub secondary_pic: PicSnapshot,
    pub shared_pic_core: SharedPicCoreSnapshot,
    pub ioapic: IoApicSnapshot,
    pub lapic: LocalApicSnapshot,
    pub fdc: FdcSnapshot,
    pub ide: IdeSnapshot,
    pub vga_logger: Logger,
    pub bios_info_logger: Logger,
    pub bios_debug_logger: Logger,
    pub pci: PciBusSnapshot,
    pub acpi: Acpi,
    pub isa_bridge: PciToIsaBridge,
    pub pci_host_bridge: PciHostBridge,
    pub ne2k: Ne2kSnapshot,
}

impl HwSnapshot {
    /// The snapshot is one of hardware that can exist.
    pub open spec fn wf(&self) -> bool {
        &&& self.cmos.selected_reg < 128
        &&& self.fdc.dma == self.dma.fdd
        &&& self.primary_pic.pic().wf() && self.primary_pic.controller_index == 0
        &&& self.secondary_pic.pic().wf() && self.secondary_pic.controller_index == 1
        &&& self.shared_pic_core.lines().main.vector_offset <= 0xf8
        &&& self.shared_pic_core.lines().secondary.vector_offset <= 0xf8
        &&& self.ioapic.id < 16
        &&& self.lapic.registers.wf()
        &&& self.fdc@.wf()
        &&& self.ide.primary.wf()
        &&& self.ide.secondary.wf()
        &&& self.ne2k.regs.wf()
        &&& self.ne2k.private_ram@.wf()
    }

    /// The snapshot holds what the devices hold, interrupt requests apart.
    pub open spec fn devices_match(&self, hw: &Hw) -> bool {
        &&& self.dma == hw.dma
        &&& self.primary_pic.pic() == hw.primary_pic
        &&& self.secondary_pic.pic() == hw.secondary_pic
        &&& self.lapic.registers == hw.lapic
        &&& self.ioapic.register_select == hw.ioapic.register_select()
        &&& self.ioapic.id == hw.ioapic.id()
        &&& self.fdc@ == hw.fdc@
        &&& self.ide.primary.matches(&hw.space.ide.primary)
        &&& self.ide.secondary.matches(&hw.space.ide.secondary)
        &&& self.ide.pci_header == hw.space.ide.pci_header
        &&& self.vga_logger@ == hw.vga_logger@
        &&& self.bios_info_logger@ == hw.bios_info_logger@
        &&& self.bios_debug_logger@ == hw.bios_debug_logger@
        &&& self.pci.address == hw.pci.address
        &&& self.acpi == hw.space.acpi
        &&& self.isa_bridge == hw.space.isa_bridge
        &&& self.pci_host_bridge == hw.space.host_bridge
        &&& self.ne2k.pci_header == hw.space.ne2k.pci_header
        &&& self.ne2k.regs == hw.space.ne2k.regs
        &&& self.ne2k.phys_addr == hw.space.ne2k.phys_addr
        &&& self.ne2k.multicast_hash == hw.space.ne2k.multicast_hash
        &&& self.ne2k.private_ram@ == hw.space.ne2k.private_ram@
    }

    /// The registers of the real-time clock are those of the snapshot.
    pub open spec fn clock_matches(&self, hw: &Hw) -> bool {
        &&& self.cmos.registers == hw.cmos.registers
        &&& self.cmos.nmi == hw.cmos.nmi
        &&& self.cmos.selected_reg == hw.cmos.selected_reg
        &&& self.cmos.status_c == hw.cmos.status_c
        &&& self.cmos.status_b == hw.cmos.status_b
        &&& self.cmos.phys_mem_size == hw.cmos.phys_mem_size
        &&& self.cmos.status_a == hw.cmos.status_a
    }

    /// The entry of the line in the IO APIC is masked, or has a delivery mode that is supported.
    pub open spec fn accepts(&self, line: int) -> bool {
        let entry = RedirectionEntry::of_value(self.ioapic.redirection_entries@[line]);
        entry.masked || entry.sendable()
    }

    /// The line exists, and its entry in the IO APIC accepts pulses.
    pub open spec fn accepts_line(&self, line: DualIrqLine) -> bool {
        line.wf() && self.accepts(line.apic.index as int)
    }

    /// A device can pulse its line, once the snapshot is restored, exactly if the line exists and
    /// the IO APIC of the snapshot masks it or sends it on in a mode that is supported.
    pub open spec fn readies(&self, hw: &Hw) -> bool {
        let card = self.ne2k.pci_header.interrupt_line;
        let ide = hw.space.ide;
        &&& hw.fdc.irq.ready(&hw.irq) <==> self.accepts_line(hw.fdc.irq)
        &&& hw.cmos.rtc_irq.ready(&hw.irq) <==> self.accepts_line(hw.cmos.rtc_irq)
        &&& ide.ready(&hw.irq) <==> self.accepts_line(ide.primary.irq) && self.accepts_line(
            ide.secondary.irq,
        )
        &&& hw.space.ne2k.ready(&hw.irq) <==> card < 24 && self.accepts(card as int)
    }

    /// The snapshot holds the state of the interrupt lines.
    pub open spec fn lines_match(&self, hw: &Hw) -> bool {
        &&& self.shared_pic_core.lines() == hw.irq@.pic
        &&& self.lapic.core.lines() == hw.irq@.local
        &&& members(self.ioapic.irq_lines.values@) == hw.irq@.io.irq_lines
        &&& forall|i: int|
            0 <= i < 24 ==> #[trigger] self.ioapic.redirection_entries@[i]
                == hw.irq@.io.entries[i].value_spec()
    }
}

fn restore_lines(
    irq: &mut IrqSystem,
    ioapic: &mut IoApic,
    lapic: &mut LocalApic,
    pic: SharedPicCoreSnapshot,
    io: IoApicSnapshot,
    local: LocalApicSnapshot,
)
    requires
        old(irq).wf(),
        pic.lines().main.vector_offset <= 0xf8,
        pic.lines().secondary.vector_offset <= 0xf8,
        io.id < 16,
        local.registers.wf(),
    ensures
        final(irq).wf(),
        final(ioapic).wf(),
        final(lapic).wf(),
        *final(lapic) == local.registers,
        final(ioapic).register_select() == io.register_select,
        final(ioapic).id() == io.id,
        final(irq)@.pic == (PicLines {
            requested: old(irq)@.pic.requested || pic.has_pending_request,
            ..pic.lines()
        }),
        final(irq)@.local == (LocalApicLines {
            requested: old(irq)@.local.requested || local.core.has_pending,
            ..local.core.lines()
        }),
        final(irq)@.io == (IoApicLines {
            entries: Seq::new(24, |i: int| RedirectionEntry::of_value(io.redirection_entries@[i])),
            irq_lines: members(io.irq_lines.values@),
        }),
{
    irq.pic.restore(pic, &mut irq.intr);
    ioapic.restore(io, &mut irq.io);
    lapic.restore(local, &mut irq.local, &mut irq.intr);
    proof {
        irq.local.lemma_wf();
    }
}

fn restore_space(
    space: &mut Space,
    ide: IdeSnapshot,
    acpi: Acpi,
    isa_bridge: PciToIsaBridge,
    host_bridge: PciHostBridge,
    ne2k: Ne2kSnapshot,
)
    requires
        ide.primary.wf(),
        ide.secondary.wf(),
        ne2k.regs.wf(),
        ne2k.private_ram@.wf(),
    ensures
        final(space).ide.wf(),
        final(space).ne2k.wf(),
        ide.primary.matches(&final(space).ide.primary),
        ide.secondary.matches(&final(space).ide.secondary),
        final(space).ide.pci_header == ide.pci_header,
        final(space).acpi == acpi,
        final(space).isa_bridge == isa_bridge,
        final(space).host_bridge == host_bridge,
        final(space).ne2k.pci_header == ne2k.pci_header,
        final(space).ne2k.regs == ne2k.regs,
        final(space).ne2k.phys_addr == ne2k.phys_addr,
        final(space).ne2k.multicast_hash == ne2k.multicast_hash,
        final(space).ne2k.private_ram@ == ne2k.private_ram@,
        final(space).ide.primary.irq == old(space).ide.primary.irq,
        final(space).ide.secondary.irq == old(space).ide.secondary.irq,
        final(space).ne2k.irq == old(space).ne2k.irq,
        final(space).ne2k.irq_line == ne2k.pci_header.interrupt_line,
        final(space).ne2k.rx_irq_enabled == (ne2k.regs.imr % 2 == 1),
{
    space.ide.restore(ide);
    space.acpi.restore(acpi);
    space.isa_bridge.restore(isa_bridge);
    space.host_bridge.restore(host_bridge);
    space.ne2k.restore(ne2k);
}

impl Hw {
    /// The devices are wired to the same lines.
    pub open spec fn same_lines(&self, after: &Hw) -> bool {
        &&& after.fdc.irq == self.fdc.irq
        &&& after.cmos.rtc_irq == self.cmos.rtc_irq
        &&& after.space.ide.primary.irq == self.space.ide.primary.irq
        &&& after.space.ide.secondary.irq == self.space.ide.secondary.irq
        &&& after.space.ne2k.irq == self.space.ne2k.irq
    }

    /// Saves the state.
    pub fn snapshot(&self) -> (r: HwSnapshot)
        requires
            self.wf(),
        ensures
            r.wf(),
            r.devices_match(self),
            r.clock_matches(self),
            r.lines_match(self),
    {
        proof {
            reveal(devices_wf);
        }
        HwSnapshot {
            cmos: self.cmos.snapshot(),
            dma: self.dma.snapshot(),
            primary_pic: self.primary_pic.snapshot(),
            secondary_pic: self.secondary_pic.snapshot(),
            shared_pic_core: self.irq.pic.snapshot(),
            ioapic: self.ioapic.snapshot(&self.irq.io),
            lapic: self.lapic.snapshot(&self.irq.local),
            fdc: self.fdc.snapshot(&self.dma.fdd),
            ide: self.space.ide.snapshot(),
            vga_logger: self.vga_logger.snapshot(),
            bios_info_logger: self.bios_info_logger.snapshot(),
            bios_debug_logger: self.bios_debug_logger.snapshot(),
            pci: self.pci.snapshot(),
            acpi: self.space.acpi.snapshot(),
            isa_bridge: self.space.isa_bridge.snapshot(),
            pci_host_bridge: self.space.host_bridge.snapshot(),
            ne2k: self.space.ne2k.snapshot(),
        }
    }

    /// Goes back to a saved state. Returns the timer of the real-time clock that was started.
    ///
    /// A request for an interrupt that is held already stays held where the snapshot has none.
    #[verifier::rlimit(60)]
    #[verifier::spinoff_prover]
    pub fn restore(&mut self, hw: HwSnapshot, now: u64) -> (r: Option<CmosTimer>)
        requires
            old(self).wf(),
            hw.wf(),
            old(self).cmos.with_registers(hw.cmos).timer_fits(),
        ensures
            final(self).wf(),
            final(self).cmos == old(self).cmos.with_registers(hw.cmos).timer_updated(),
            r is Some <==> old(self).cmos.with_registers(hw.cmos).starts_timer(),
            r matches Some(timer) ==> Some(timer.info) == final(self).cmos.timer_info
                && timer.next_interrupt == now,
            hw.devices_match(final(self)),
            hw.clock_matches(final(self)),
            final(self).irq@.pic == (PicLines {
                requested: old(self).irq@.pic.requested || hw.shared_pic_core.has_pending_request,
                ..hw.shared_pic_core.lines()
            }),
            final(self).irq@.local == (LocalApicLines {
                requested: old(self).irq@.local.requested || hw.lapic.core.has_pending,
                ..hw.lapic.core.lines()
            }),
            final(self).irq@.io == (IoApicLines {
                entries: Seq::new(
                    24,
                    |i: int| RedirectionEntry::of_value(hw.ioapic.redirection_entries@[i]),
                ),
                irq_lines: members(hw.ioapic.irq_lines.values@),
            }),
            final(self).space.ne2k.irq_line == hw.ne2k.pci_header.interrupt_line,
            final(self).space.ne2k.rx_irq_enabled == (hw.ne2k.regs.imr % 2 == 1),
            old(self).same_lines(final(self)),
            hw.readies(final(self)),
    {
        proof {
            reveal(devices_wf);
        }
        let timer = self.cmos.restore(hw.cmos, now);
        self.dma.restore(hw.dma);
        self.primary_pic.restore(hw.primary_pic);
        self.secondary_pic.restore(hw.secondary_pic);
        restore_lines(
            &mut self.irq,
            &mut self.ioapic,
            &mut self.lapic,
            hw.shared_pic_core,
            hw.ioapic,
            hw.lapic,
        );
        self.fdc.restore(hw.fdc, &mut self.dma.fdd);
        self.vga_logger.restore(hw.vga_logger);
        self.bios_info_logger.restore(hw.bios_info_logger);
        self.bios_debug_logger.restore(hw.bios_debug_logger);
        self.pci.restore(hw.pci);
        restore_space(
            &mut self.space,
            hw.ide,
            hw.acpi,
            hw.isa_bridge,
            hw.pci_host_bridge,
            hw.ne2k,
        );
        proof {
            reveal(DualIrqLine::ready);
            reveal(DualDynamicIrqLine::ready);
        }
        timer
    }
}

} // verus!
