//! The IDE controller with its two channels.
pub mod atapi;
pub mod channel;
pub mod drive;
pub mod model;
pub mod regs;
pub mod transfers;

use vstd::prelude::*;

use crate::bytes::bit_at;
use crate::hw::ide::channel::{drive_view, Channel, ChannelSnapshot};
use crate::hw::ide::drive::{Drive, DriveModel, Geometry};
use crate::hw::pci::{
    CommonPciHeader, DeviceWriteEvent, GeneralDeviceHeader, PciCommandRegister, PciDevice,
};
use crate::hw::pic::{still_accepts, DualIrqLine, IrqState, IrqSystem};
use crate::hw::ports::{byte_read, PortError, PortValue, PortWidth};
use crate::hw::storage::DiskData;
use crate::mem::Memory;

verus! {

/// The controller: its channels and its PCI registers.
#[derive(Debug)]
pub struct Ide {
    pub primary: Channel,
    pub secondary: Channel,
    pub pci_header: GeneralDeviceHeader,
}

#[derive(Debug)]
pub struct IdeSnapshot {
    pub primary: ChannelSnapshot,
    pub secondary: ChannelSnapshot,
    pub pci_header: GeneralDeviceHeader,
}

#[derive(Copy, Clone, Debug, PartialEq, Eq, Structural)]
pub struct ProgIf {
    pub primary_channel_is_native: bool,
    pub primary_channel_pci_supported: bool,
    pub secondary_channel_is_native: bool,
    pub secondary_channel_pci_supported: bool,
}

impl ProgIf {
    pub open spec fn of_value(value: u8) -> ProgIf {
        ProgIf {
            primary_channel_is_native: bit_at(value as int, 1),
            primary_channel_pci_supported: bit_at(value as int, 2),
            secondary_channel_is_native: bit_at(value as int, 4),
            secondary_channel_pci_supported: bit_at(value as int, 8),
        }
    }

    pub fn from_value(value: u8) -> (r: Self)
        ensures
            r == Self::of_value(value),
    {
        ProgIf {
            primary_channel_is_native: value % 2 == 1,
            primary_channel_pci_supported: value / 2 % 2 == 1,
            secondary_channel_is_native: value / 4 % 2 == 1,
            secondary_channel_pci_supported: value / 8 % 2 == 1,
        }
    }
}

/// Where the registers lie in the port space.
#[derive(Copy, Clone, Debug, PartialEq, Eq, Structural)]
pub struct BaseAddresses {
    pub primary_channel: u16,
    pub primary_channel_control: u16,
    pub secondary_channel: u16,
    pub secondary_channel_control: u16,
    pub busmaster: u16,
}

/// The port that a base address register names.
pub open spec fn bar_port(bar: u32) -> int {
    bar as int % 0x1_0000 / 16 * 16
}

fn port_of(bar: u32) -> (r: u16)
    ensures
        r == bar_port(bar),
        r <= 0xfff0,
{
    (bar % 0x1_0000 / 16 * 16) as u16
}

/// What a port of the controller belongs to.
#[derive(Copy, Clone, Debug, PartialEq, Eq, Structural)]
pub enum IdePort {
    Register { second: bool, addr: u8 },
    Control { second: bool },
    Busmaster { second: bool, addr: u8 },
}

impl Ide {
    pub open spec fn wf(&self) -> bool {
        self.primary.wf() && self.secondary.wf()
    }

    pub open spec fn ready(&self, irq: &IrqSystem) -> bool {
        self.primary.irq.ready(irq) && self.secondary.irq.ready(irq)
    }

    /// The controller after power on, without drives.
    pub open spec fn is_fresh(&self) -> bool {
        &&& self.primary.drives == (None::<Drive>, None::<Drive>)
        &&& self.secondary.drives == (None::<Drive>, None::<Drive>)
        &&& self.primary.is_reset()
        &&& self.secondary.is_reset()
        &&& self.pci_header.common == (CommonPciHeader {
            vendor_id: 0x8086,
            device_id: 0x7010,
            command: PciCommandRegister { value: 0 },
            status: 0,
            revision_id: 0,
            class_code: 0x01,
            subclass: 0x01,
            prog_if: 0x80,
            cache_line_size: 0,
            latency_timer: 0,
            header_type: 0,
            bist: 0,
        })
        &&& self.pci_header.bar@ == seq![0u32, 0, 0, 0, 0, 0]
        &&& self.pci_header.interrupt_line == 0
        &&& self.pci_header.interrupt_pin == 0
    }

    pub fn new(irq_primary: DualIrqLine, irq_secondary: DualIrqLine) -> (r: Self)
        ensures
            r.wf(),
            r.primary.irq == irq_primary,
            r.secondary.irq == irq_secondary,
            r.is_fresh(),
    {
        Self {
            primary: Channel::new(irq_primary),
            secondary: Channel::new(irq_secondary),
            pci_header: GeneralDeviceHeader::new(
                CommonPciHeader {
                    vendor_id: 0x8086,
                    device_id: 0x7010,
                    command: PciCommandRegister { value: 0 },
                    status: 0,
                    revision_id: 0,
                    class_code: 0x01,
                    subclass: 0x01,
                    prog_if: 0x80,
                    cache_line_size: 0,
                    latency_timer: 0,
                    header_type: 0,
                    bist: 0,
                },
            ),
        }
    }

    /// The named drive holds a new disk, or is gone. Nothing else changes.
    pub open spec fn disk_set(
        &self,
        after: &Ide,
        channel: usize,
        drive: usize,
        data: Option<DiskData>,
    ) -> bool {
        let new = match data {
            Some(d) => Some(
                DriveModel {
                    head: 0,
                    write_in_progress: false,
                    data: d@,
                    geometry: Geometry { head_count: 16, sector_size: 512, sectors_per_track: 63 },
                },
            ),
            None => None,
        };
        let (from, to, other, other_after) = if channel == 0 {
            (self.primary, after.primary, self.secondary, after.secondary)
        } else {
            (self.secondary, after.secondary, self.primary, after.primary)
        };
        &&& after.pci_header == self.pci_header
        &&& other_after == other
        &&& to.irq == from.irq
        &&& to.inner == from.inner
        &&& if drive == 0 {
            drive_view(to.drives.0) == new && to.drives.1 == from.drives.1
        } else {
            drive_view(to.drives.1) == new && to.drives.0 == from.drives.0
        }
    }

    /// Puts a disk into a drive, or takes it out.
    pub fn set_disk(&mut self, channel: usize, drive: usize, data: Option<DiskData>)
        requires
            channel < 2,
            drive < 2,
            old(self).wf(),
        ensures
            final(self).wf(),
            final(self).pci_header == old(self).pci_header,
            old(self).disk_set(final(self), channel, drive, data),
    {
        let new = match data {
            Some(data) => Some(Drive::new(data)),
            None => None,
        };
        if channel == 0 {
            if drive == 0 {
                self.primary.drives.0 = new;
            } else {
                self.primary.drives.1 = new;
            }
        } else {
            if drive == 0 {
                self.secondary.drives.0 = new;
            } else {
                self.secondary.drives.1 = new;
            }
        }
    }

    /// The ports that are in use: the fixed ones, unless a channel is in native mode.
    pub open spec fn bases(&self) -> BaseAddresses {
        let prog_if = ProgIf::of_value(self.pci_header.common.prog_if);
        let bars = self.pci_header.bar@;
        let primary = prog_if.primary_channel_pci_supported && prog_if.primary_channel_is_native;
        let secondary = prog_if.secondary_channel_pci_supported
            && prog_if.secondary_channel_is_native;
        BaseAddresses {
            primary_channel: if primary {
                bar_port(bars[0]) as u16
            } else {
                0x1F0
            },
            primary_channel_control: if primary {
                (bar_port(bars[1]) + 2) as u16
            } else {
                0x3F6
            },
            secondary_channel: if secondary {
                bar_port(bars[2]) as u16
            } else {
                0x170
            },
            secondary_channel_control: if secondary {
                (bar_port(bars[3]) + 2) as u16
            } else {
                0x376
            },
            busmaster: bar_port(bars[4]) as u16,
        }
    }

    fn base_addresses(&self) -> (r: BaseAddresses)
        ensures
            r == self.bases(),
    {
        let prog_if = ProgIf::from_value(self.pci_header.common.prog_if);
        let primary = prog_if.primary_channel_pci_supported && prog_if.primary_channel_is_native;
        let secondary = prog_if.secondary_channel_pci_supported
            && prog_if.secondary_channel_is_native;
        BaseAddresses {
            primary_channel: if primary {
                port_of(self.pci_header.bar[0])
            } else {
                0x1F0
            },
            primary_channel_control: if primary {
                port_of(self.pci_header.bar[1]) + 2
            } else {
                0x3F6
            },
            secondary_channel: if secondary {
                port_of(self.pci_header.bar[2])
            } else {
                0x170
            },
            secondary_channel_control: if secondary {
                port_of(self.pci_header.bar[3]) + 2
            } else {
                0x376
            },
            busmaster: port_of(self.pci_header.bar[4]),
        }
    }

    /// What a port belongs to, `None` if it does not belong to the controller.
    pub open spec fn port(&self, addr: u16) -> Option<IdePort> {
        let a = self.bases();
        if addr / 8 * 8 == a.primary_channel {
            Some(IdePort::Register { second: false, addr: (addr % 8) as u8 })
        } else if addr == a.primary_channel_control {
            Some(IdePort::Control { second: false })
        } else if a.busmaster != 0 && addr / 16 * 16 == a.busmaster {
            Some(IdePort::Busmaster { second: addr / 8 % 2 == 1, addr: (addr % 8) as u8 })
        } else if addr / 8 * 8 == a.secondary_channel {
            Some(IdePort::Register { second: true, addr: (addr % 8) as u8 })
        } else if addr == a.secondary_channel_control {
            Some(IdePort::Control { second: true })
        } else {
            None
        }
    }

    pub fn find_port(&self, addr: u16) -> (r: Option<IdePort>)
        ensures
            r == self.port(addr),
            match r {
                Some(IdePort::Register { addr, .. }) => addr < 8,
                Some(IdePort::Busmaster { addr, .. }) => addr < 8,
                _ => true,
            },
    {
        let a = self.base_addresses();
        if addr / 8 * 8 == a.primary_channel {
            Some(IdePort::Register { second: false, addr: (addr % 8) as u8 })
        } else if addr == a.primary_channel_control {
            Some(IdePort::Control { second: false })
        } else if a.busmaster != 0 && addr / 16 * 16 == a.busmaster {
            Some(IdePort::Busmaster { second: addr / 8 % 2 == 1, addr: (addr % 8) as u8 })
        } else if addr / 8 * 8 == a.secondary_channel {
            Some(IdePort::Register { second: true, addr: (addr % 8) as u8 })
        } else if addr == a.secondary_channel_control {
            Some(IdePort::Control { second: true })
        } else {
            None
        }
    }

    pub open spec fn channel(&self, second: bool) -> Channel {
        if second {
            self.secondary
        } else {
            self.primary
        }
    }

    /// The controller is the same but for one channel.
    pub open spec fn same_but(&self, after: &Ide, second: bool) -> bool {
        &&& after.channel(!second) == self.channel(!second)
        &&& after.pci_header == self.pci_header
    }

    /// Whether the access that a read of the port makes is possible.
    pub open spec fn read_ok(&self, addr: u16, width: PortWidth) -> bool {
        self.port(addr) matches Some(IdePort::Register { second, addr }) ==> self.channel(
            second,
        ).read_ok(addr, width)
    }

    /// What a read of a port leaves behind and returns.
    #[verifier::opaque]
    pub open spec fn read_effect(
        &self,
        after: &Ide,
        addr: u16,
        width: PortWidth,
        irq: IrqState,
        irq_after: IrqState,
        r: Option<Result<u32, PortError>>,
    ) -> bool {
        match self.port(addr) {
            Some(IdePort::Register { second, addr }) => {
                &&& r == Some(self.channel(second).read_result(addr, width))
                &&& self.channel(second).read_effect(
                    &after.channel(second),
                    addr,
                    width,
                    irq,
                    irq_after,
                )
                &&& self.same_but(after, second)
            },
            Some(IdePort::Control { second }) => {
                &&& r == Some(
                    byte_read(self.channel(second).inner.regs.status.value_spec(), width),
                )
                &&& *after == *self
                &&& irq_after == irq
            },
            Some(IdePort::Busmaster { second, addr }) => {
                &&& r == Some(self.channel(second).busmaster_read(addr, width))
                &&& *after == *self
                &&& irq_after == irq
            },
            None => r.is_none() && *after == *self && irq_after == irq,
        }
    }

    /// What a write of a port leaves behind and returns; memory and interrupts go in pairs.
    #[verifier::opaque]
    pub open spec fn write_effect(
        &self,
        after: &Ide,
        addr: u16,
        val: PortValue,
        env: (Seq<u8>, IrqState),
        env_after: (Seq<u8>, IrqState),
        r: Option<Result<(), PortError>>,
    ) -> bool {
        match self.port(addr) {
            Some(IdePort::Register { second, addr }) => {
                &&& r == Some(Channel::write_result(addr, val))
                &&& after.channel(second).world(env_after.0, env_after.1) == self.channel(
                    second,
                ).world(env.0, env.1).written(addr, val)
                &&& self.same_but(after, second)
            },
            Some(IdePort::Control { second }) => {
                &&& r == Some(Ok::<(), PortError>(()))
                &&& after.channel(second).world(env_after.0, env_after.1) == self.channel(
                    second,
                ).world(env.0, env.1).control_written(val.low8())
                &&& self.same_but(after, second)
                &&& env_after == env
            },
            Some(IdePort::Busmaster { second, addr }) => {
                &&& r == Some(Channel::busmaster_result(addr, val))
                &&& after.channel(second).world(env_after.0, env_after.1) == self.channel(
                    second,
                ).world(env.0, env.1).busmaster_written(addr, val)
                &&& self.same_but(after, second)
            },
            None => r.is_none() && *after == *self && env_after == env,
        }
    }

    /// Reads a port, if it belongs to the controller.
    pub fn try_read(&mut self, addr: u16, width: PortWidth, irq: &mut IrqSystem) -> (r: Option<
        Result<u32, PortError>,
    >)
        requires
            old(self).wf(),
            old(self).ready(&*old(irq)),
            old(self).read_ok(addr, width),
        ensures
            final(self).wf(),
            final(self).ready(&*final(irq)),
            final(self).primary.irq == old(self).primary.irq,
            final(self).secondary.irq == old(self).secondary.irq,
            r.is_some() == old(self).port(addr).is_some(),
            still_accepts(&*old(irq), &*final(irq)),
            old(self).read_effect(final(self), addr, width, old(irq)@, final(irq)@, r),
    {
        proof {
            reveal(Ide::read_effect);
        }
        match self.find_port(addr) {
            Some(IdePort::Register { second, addr }) => {
                let result = if second {
                    self.secondary.read(addr, width, irq)
                } else {
                    self.primary.read(addr, width, irq)
                };
                proof {
                    old(self).primary.irq.stays_ready(&*old(irq), &*irq);
                    old(self).secondary.irq.stays_ready(&*old(irq), &*irq);
                }
                Some(result)
            },
            Some(IdePort::Control { second }) => {
                if second {
                    Some(self.secondary.read_control(width))
                } else {
                    Some(self.primary.read_control(width))
                }
            },
            Some(IdePort::Busmaster { second, addr }) => {
                if second {
                    Some(self.secondary.read_busmaster(addr, width))
                } else {
                    Some(self.primary.read_busmaster(addr, width))
                }
            },
            None => None,
        }
    }

    /// Whether the access that a write of the port makes is possible.
    pub open spec fn write_ok(
        &self,
        addr: u16,
        val: PortValue,
        mem: Seq<u8>,
        irq: IrqState,
    ) -> bool {
        match self.port(addr) {
            Some(IdePort::Register { second, addr }) => self.channel(second).world(
                mem,
                irq,
            ).write_ok(addr, val),
            Some(IdePort::Busmaster { second, addr }) => addr == 0 ==> self.channel(second).world(
                mem,
                irq,
            ).with_dma_status(val.low8()).dma_ok(),
            _ => true,
        }
    }

    /// Writes a port, if it belongs to the controller.
    pub fn try_write(
        &mut self,
        addr: u16,
        val: PortValue,
        mem: &mut Memory,
        irq: &mut IrqSystem,
    ) -> (r: Option<Result<(), PortError>>)
        requires
            old(self).wf(),
            old(self).ready(&*old(irq)),
            old(self).write_ok(addr, val, old(mem)@, old(irq)@),
        ensures
            final(self).wf(),
            final(self).ready(&*final(irq)),
            final(self).primary.irq == old(self).primary.irq,
            final(self).secondary.irq == old(self).secondary.irq,
            r.is_some() && r.unwrap().is_ok() ==> r == Some(Ok::<(), PortError>(())),
            r.is_some() == old(self).port(addr).is_some(),
            still_accepts(&*old(irq), &*final(irq)),
            old(self).write_effect(
                final(self),
                addr,
                val,
                (old(mem)@, old(irq)@),
                (final(mem)@, final(irq)@),
                r,
            ),
    {
        proof {
            reveal(Ide::write_effect);
        }
        let port = self.find_port(addr);
        let result = match port {
            Some(IdePort::Register { second, addr }) => {
                let result = if second {
                    self.secondary.write(addr, val, mem, irq)
                } else {
                    self.primary.write(addr, val, mem, irq)
                };
                assert(self.channel(second).world(mem@, irq@) == old(self).channel(second).world(
                    old(mem)@,
                    old(irq)@,
                ).written(addr, val));
                assert(old(self).same_but(self, second));
                Some(result)
            },
            Some(IdePort::Control { second }) => {
                let result = if second {
                    self.secondary.write_control(val)
                } else {
                    self.primary.write_control(val)
                };
                assert(self.channel(second).world(mem@, irq@) == old(self).channel(second).world(
                    mem@,
                    irq@,
                ).control_written(val.low8()));
                assert(old(self).same_but(self, second));
                Some(result)
            },
            Some(IdePort::Busmaster { second, addr }) => {
                let result = if second {
                    self.secondary.write_busmaster(addr, val, mem, irq)
                } else {
                    self.primary.write_busmaster(addr, val, mem, irq)
                };
                assert(self.channel(second).world(mem@, irq@) == old(self).channel(second).world(
                    old(mem)@,
                    old(irq)@,
                ).busmaster_written(addr, val));
                assert(old(self).same_but(self, second));
                Some(result)
            },
            None => None,
        };
        proof {
            old(self).primary.irq.stays_ready(&*old(irq), &*irq);
            old(self).secondary.irq.stays_ready(&*old(irq), &*irq);
        }
        result
    }

    pub fn snapshot(&self) -> (r: IdeSnapshot)
        ensures
            r.primary.matches(&self.primary),
            r.secondary.matches(&self.secondary),
            r.pci_header == self.pci_header,
    {
        IdeSnapshot {
            primary: self.primary.snapshot(),
            secondary: self.secondary.snapshot(),
            pci_header: self.pci_header,
        }
    }

    pub fn restore(&mut self, ide: IdeSnapshot)
        requires
            ide.primary.wf(),
            ide.secondary.wf(),
        ensures
            final(self).wf(),
            ide.primary.matches(&final(self).primary),
            ide.secondary.matches(&final(self).secondary),
            final(self).pci_header == ide.pci_header,
            final(self).primary.irq == old(self).primary.irq,
            final(self).secondary.irq == old(self).secondary.irq,
    {
        self.primary.restore(ide.primary);
        self.secondary.restore(ide.secondary);
        self.pci_header = ide.pci_header;
    }

    /// Whether base address register `n` can be set: those of a channel in native mode, and that
    /// of the bus master.
    pub open spec fn bar_exists(prog_if: u8, n: int) -> bool {
        let p = ProgIf::of_value(prog_if);
        n == 4 || (n < 2 && p.primary_channel_is_native) || (2 <= n < 4
            && p.secondary_channel_is_native)
    }

    /// The value that base address register `n` takes: a port, marked as such.
    pub open spec fn bar_value(prog_if: u8, n: int, val: u32) -> u32 {
        if Self::bar_exists(prog_if, n) {
            (val / 16 * 16 + 1) as u32
        } else {
            0
        }
    }
}

impl PciDevice for Ide {
    open spec fn config(&self, index: int) -> int {
        match self.pci_header.register(index) {
            Some(v) => v,
            None => if index == 0x10 {
                // Both channels have DMA enabled.
                0x8000_8000
            } else {
                0
            },
        }
    }

    open spec fn config_written(&self, index: int, val: u32, after: Ide) -> bool {
        let header = self.pci_header.written(index, val);
        &&& after == (Ide {
            pci_header: GeneralDeviceHeader { bar: after.pci_header.bar, ..header },
            ..*self
        })
        &&& after.pci_header.bar@ == if 4 <= index < 10 {
            self.pci_header.bar@.update(
                index - 4,
                Self::bar_value(self.pci_header.common.prog_if, index - 4, val),
            )
        } else {
            self.pci_header.bar@
        }
    }

    fn write_configuration_space(&mut self, index: usize, val: u32) {
        let event = self.pci_header.write(index, val);
        let prog_if = ProgIf::from_value(self.pci_header.common.prog_if);
        if let Some(DeviceWriteEvent::Bar(n)) = event {
            let native = if n < 2 {
                prog_if.primary_channel_is_native
            } else if n < 4 {
                prog_if.secondary_channel_is_native
            } else {
                n == 4
            };
            self.pci_header.bar[n] = if native {
                val / 16 * 16 + 1
            } else {
                0
            };
            assert(self.pci_header.bar@ =~= old(self).pci_header.bar@.update(
                index - 4,
                Self::bar_value(old(self).pci_header.common.prog_if, index - 4, val),
            ));
        }
    }

    fn read_configuration_space(&self, index: usize) -> (r: u32) {
        match self.pci_header.read(index) {
            Some(v) => v,
            None => match index {
                0x10 => 0x8000_8000,
                _ => 0,
            },
        }
    }
}

/// Where the registers of a controller lie that is not in native mode: 0x1f0 to 0x1f7 and 0x3f6 for
/// the first channel, 0x170 to 0x177 and 0x376 for the second one. The bus master's sixteen registers
/// lie where its base address register says, eight for each channel.
pub proof fn registers_have_their_ports(ide: Ide, n: int)
    requires
        0 <= n < 8,
        ide.pci_header.common.prog_if % 16 == 0,
        ide.pci_header.bar@.len() == 6,
    ensures
        ide.port((0x1f0 + n) as u16) == Some(IdePort::Register { second: false, addr: n as u8 }),
        ide.port(0x3f6) == Some(IdePort::Control { second: false }),
        !(0x170 <= bar_port(ide.pci_header.bar@[4]) < 0x178) ==> ide.port((0x170 + n) as u16) == Some(
            IdePort::Register { second: true, addr: n as u8 },
        ),
        bar_port(ide.pci_header.bar@[4]) != 0x370 ==> ide.port(0x376) == Some(
            IdePort::Control { second: true },
        ),
        0x400 <= bar_port(ide.pci_header.bar@[4]) ==> {
            let base = bar_port(ide.pci_header.bar@[4]);
            &&& ide.port((base + n) as u16) == Some(
                IdePort::Busmaster { second: false, addr: n as u8 },
            )
            &&& ide.port((base + 8 + n) as u16) == Some(
                IdePort::Busmaster { second: true, addr: n as u8 },
            )
        },
        bar_port(ide.pci_header.bar@[4]) % 16 == 0,
{
}

} // verus!
