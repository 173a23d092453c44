//! One channel of the IDE controller, with up to two drives.
use std::collections::VecDeque;

use vstd::prelude::*;

use crate::bytes::{copy_range, overwrite, push_all, push_zeros};
use crate::hw::ide::atapi::{compute_simple_toc, AtapiPacket, Direction, Phase};
use crate::hw::ide::drive::{BlockAddr, Drive, DriveModel, DriveSnapshot, Geometry};
use crate::hw::ide::model::{
    buffer_value, capabilities_page, capacity_data, cropped, error_recovery_page, event_data,
    gather_ok, gathered, inquiry_data, mode_page, scatter_ok, scattered, sense_data,
    subchannel_data, IdeWorld, PendingDma,
};
use crate::hw::ide::regs::{
    BusmasterPrimaryStatus, ChannelRegs, DeviceControl, DmaCommand, DriveHeadVal, Error,
    PendingCommand, Prd, Sense, Status,
};
use crate::hw::pic::{still_accepts, DualIrqLine, IrqState, IrqSystem};
use crate::hw::ports::{byte_read, from_u32, from_u8, part_of_u32, PortError, PortValue, PortWidth};
use crate::hw::storage::{DiskData, DiskModel};
use crate::mem::Memory;

verus! {

/// A transfer that waits for the bus master to be started.
#[derive(Debug)]
pub enum PendingDmaCommand {
    Read { start: u64, len: u64 },
    Write { start: u64, len: u64 },
    FromBuffer { buf: Vec<u8> },
}

impl View for PendingDmaCommand {
    type V = PendingDma;

    open spec fn view(&self) -> PendingDma {
        match self {
            PendingDmaCommand::Read { start, len } => PendingDma::Read {
                start: *start,
                len: *len,
            },
            PendingDmaCommand::Write { start, len } => PendingDma::Write {
                start: *start,
                len: *len,
            },
            PendingDmaCommand::FromBuffer { buf } => PendingDma::FromBuffer { buf: buf@ },
        }
    }
}

pub open spec fn dma_view(dma: Option<PendingDmaCommand>) -> Option<PendingDma> {
    match dma {
        Some(d) => Some(d@),
        None => None,
    }
}

pub open spec fn drive_view(drive: Option<Drive>) -> Option<DriveModel> {
    match drive {
        Some(d) => Some(d@),
        None => None,
    }
}

/// What a channel holds besides its drives.
#[derive(Debug)]
pub struct ChannelState {
    pub regs: ChannelRegs,
    pub sector_buffer: VecDeque<u8>,
    pub pending_dma_command: Option<PendingDmaCommand>,
}

#[derive(Debug)]
pub struct Channel {
    pub irq: DualIrqLine,
    pub drives: (Option<Drive>, Option<Drive>),
    pub inner: ChannelState,
}

#[derive(Debug)]
pub struct ChannelSnapshot {
    pub drives: (Option<DriveSnapshot>, Option<DriveSnapshot>),
    pub inner: ChannelState,
}

pub open spec fn snapshot_drive_view(drive: Option<DriveSnapshot>) -> Option<DriveModel> {
    match drive {
        Some(d) => Some(d@),
        None => None,
    }
}

impl ChannelSnapshot {
    pub open spec fn wf(&self) -> bool {
        &&& geometry_wf(snapshot_drive_view(self.drives.0))
        &&& geometry_wf(snapshot_drive_view(self.drives.1))
    }

    /// The snapshot holds what the channel holds.
    pub open spec fn matches(&self, channel: &Channel) -> bool {
        &&& snapshot_drive_view(self.drives.0) == drive_view(channel.drives.0)
        &&& snapshot_drive_view(self.drives.1) == drive_view(channel.drives.1)
        &&& self.inner.regs == channel.inner.regs
        &&& self.inner.sector_buffer@ == channel.inner.sector_buffer@
        &&& dma_view(self.inner.pending_dma_command) == dma_view(
            channel.inner.pending_dma_command,
        )
    }
}

/// The geometry is one that a drive can have: sectors of 512 bytes and up to 16 heads.
pub open spec fn geometry_wf(drive: Option<DriveModel>) -> bool {
    drive matches Some(d) ==> d.geometry.sector_size == 512 && 1 <= d.geometry.head_count <= 16
        && d.geometry.sectors_per_track <= 0xff
}

/// The start of a command's sectors, and what they hold, do not overflow.
proof fn lemma_offset_bound(addr: BlockAddr, geometry: Geometry)
    requires
        addr.valid(),
        geometry.sector_size == 512,
        geometry.head_count <= 16,
        geometry.sectors_per_track <= 0xff,
    ensures
        0 <= addr.byte_offset(geometry) < 0x400_0000_0000,
{
    match addr {
        BlockAddr::Lba(n) => {},
        BlockAddr::Chs { cylinder, head, sector } => {
            let c: int = cylinder as int;
            let t: int = c * geometry.head_count + head;
            assert(0 <= c * geometry.head_count <= 0xffff * 16) by (nonlinear_arith)
                requires
                    0 <= c <= 0xffff,
                    0 <= geometry.head_count <= 16,
            ;
            assert(0 <= t * geometry.sectors_per_track <= 0x10_00ef * 0xff) by (nonlinear_arith)
                requires
                    0 <= t <= 0x10_00ef,
                    0 <= geometry.sectors_per_track <= 0xff,
            ;
        },
    }
}

/// Appends bytes to the buffer.
fn push_bytes(buffer: &mut VecDeque<u8>, bytes: &[u8])
    ensures
        final(buffer)@ == old(buffer)@ + bytes@,
{
    let mut n: usize = 0;
    while n < bytes.len()
        invariant
            n <= bytes.len(),
            buffer@ == old(buffer)@ + bytes@.take(n as int),
        decreases bytes.len() - n,
    {
        buffer.push_back(bytes[n]);
        proof {
            assert(buffer@ =~= old(buffer)@ + bytes@.take(n + 1));
        }
        n = n + 1;
    }
    assert(bytes@.take(n as int) =~= bytes@);
}

/// Takes up to `count` bytes off the front of the buffer.
fn pop_bytes(buffer: &mut VecDeque<u8>, count: usize) -> (r: Vec<u8>)
    requires
        count <= old(buffer)@.len(),
    ensures
        r@ == old(buffer)@.take(count as int),
        final(buffer)@ == old(buffer)@.skip(count as int),
{
    let mut r: Vec<u8> = Vec::new();
    let mut n: usize = 0;
    assert(old(buffer)@.skip(0) =~= old(buffer)@);
    while n < count
        invariant
            n <= count <= old(buffer)@.len(),
            r@ == old(buffer)@.take(n as int),
            buffer@ == old(buffer)@.skip(n as int),
        decreases count - n,
    {
        let b = buffer.pop_front();
        if let Some(b) = b {
            r.push(b);
        }
        proof {
            assert(r@ =~= old(buffer)@.take(n + 1));
            assert(buffer@ =~= old(buffer)@.skip(n + 1));
        }
        n = n + 1;
    }
    r
}

/// Crops an answer to the length that the packet allows.
fn crop(buf: Vec<u8>, len: usize) -> (r: Vec<u8>)
    ensures
        r@ == cropped(buf@, len as int),
{
    let mut buf = buf;
    if buf.len() > len {
        buf.truncate(len);
        assert(buf@ =~= cropped(buf@, len as int));
    }
    buf
}

/// Takes the bytes from `start` to `end` of a disk from memory along the DMA table at `table`.
fn gather(data: &mut DiskData, table: u32, start: u64, end: u64, mem: &Memory)
    requires
        gather_ok(mem@, table as int, old(data)@.bytes, start as int, end as int),
    ensures
        final(data)@ == (DiskModel {
            bytes: gathered(mem@, table as int, old(data)@.bytes, start as int, end as int),
            ..old(data)@
        }),
{
    let mut prd_addr: u32 = table;
    let mut lba: u64 = start;
    let mut ended: bool = false;
    let ghost goal = gathered(mem@, table as int, data@.bytes, start as int, end as int);
    while lba < end && !ended
        invariant
            data@.is_cd == old(data)@.is_cd,
            ended ==> data@.bytes == goal,
            !ended ==> gathered(mem@, prd_addr as int, data@.bytes, lba as int, end as int)
                == goal,
            !ended ==> gather_ok(mem@, prd_addr as int, data@.bytes, lba as int, end as int),
        decreases
                (if lba < end && !ended {
                    end - lba
                } else {
                    0
                }),
    {
        let len: u64 = data.len();
        if let Ok(entry) = mem.read_slice(prd_addr, 8) {
            let prd = Prd::from_bytes(entry.as_slice());
            if let Ok(bytes) = mem.read_slice(prd.addr, prd.computed_size()) {
                data.write_slice(lba, bytes.as_slice());
                lba = lba + bytes.len() as u64;
                if prd.eot {
                    ended = true;
                } else {
                    prd_addr = prd_addr + 8;
                }
            }
        }
    }
}

/// Moves bytes into memory along the DMA table at `table`.
fn scatter(mem: &mut Memory, table: u32, bytes: &Vec<u8>)
    requires
        scatter_ok(old(mem)@, table as int, bytes@),
    ensures
        final(mem)@ == scattered(old(mem)@, table as int, bytes@),
{
    let mut prd_addr: u32 = table;
    let mut done: usize = 0;
    let mut ended: bool = false;
    let ghost goal = scattered(mem@, table as int, bytes@);
    assert(bytes@.skip(0) =~= bytes@);
    while done < bytes.len() && !ended
        invariant
            done <= bytes.len(),
            ended ==> mem@ == goal,
            !ended ==> scattered(mem@, prd_addr as int, bytes@.skip(done as int)) == goal,
            !ended ==> scatter_ok(mem@, prd_addr as int, bytes@.skip(done as int)),
        decreases
                bytes.len() - done + (if ended {
                    0int
                } else {
                    1int
                }),
    {
        let ghost rest = bytes@.skip(done as int);
        if let Ok(entry) = mem.read_slice(prd_addr, 8) {
            let prd = Prd::from_bytes(entry.as_slice());
            let left: usize = bytes.len() - done;
            let n: usize = if left > prd.computed_size() {
                prd.computed_size()
            } else {
                left
            };
            let slice = copy_range(bytes, done, done + n);
            assert(slice@ =~= rest.take(n as int));
            assert(bytes@.skip(done + n) =~= rest.skip(n as int));
            let _ = mem.write_slice(prd.addr, slice.as_slice());
            done = done + n;
            if prd.eot {
                ended = true;
            } else {
                prd_addr = prd_addr + 8;
            }
        }
    }
}

impl Channel {
    /// The channel together with what it acts on.
    pub open spec fn world(&self, mem: Seq<u8>, irq: IrqState) -> IdeWorld {
        IdeWorld {
            line: self.irq,
            regs: self.inner.regs,
            buffer: self.inner.sector_buffer@,
            dma: dma_view(self.inner.pending_dma_command),
            first: drive_view(self.drives.0),
            second: drive_view(self.drives.1),
            mem,
            irq,
        }
    }

    /// Drives have a geometry that is possible.
    pub open spec fn wf(&self) -> bool {
        &&& geometry_wf(drive_view(self.drives.0))
        &&& geometry_wf(drive_view(self.drives.1))
    }

    /// The registers hold what they hold after power on, and no transfer is under way.
    pub open spec fn is_reset(&self) -> bool {
        &&& self.inner.sector_buffer@ == Seq::<u8>::empty()
        &&& self.inner.pending_dma_command.is_none()
        &&& self.inner.regs.sense.is_clear()
        &&& self.inner.regs == (ChannelRegs {
            block_addr0: 0,
            block_addr1: 0,
            block_addr2: 0,
            drive_and_head: DriveHeadVal { value: 0x40 },
            features: 0,
            sector_count: 0,
            error: Error::none_spec(),
            reading_atapi_packet: false,
            status: Status::default_spec(),
            device_control: DeviceControl { interrupt_disabled: true, software_reset: false },
            num_pending_sector_writes: 0,
            prd_addr: 0,
            busmaster_status: BusmasterPrimaryStatus {
                active: false,
                error: false,
                interrupt_ready: false,
            },
            pending_command: None,
            packet_responses_via_dma: false,
            dma_status: None,
            sense: self.inner.regs.sense,
            atapi_byte_index: 0,
            atapi_byte_block_size: 0,
        })
    }

    pub fn new(irq: DualIrqLine) -> (r: Self)
        ensures
            r.wf(),
            r.irq == irq,
            r.drives == (None::<Drive>, None::<Drive>),
            r.is_reset(),
    {
        Self {
            irq,
            drives: (None, None),
            inner: ChannelState {
                regs: ChannelRegs {
                    block_addr0: 0,
                    block_addr1: 0,
                    block_addr2: 0,
                    // LBA mode, drive 0
                    drive_and_head: DriveHeadVal { value: 0x40 },
                    features: 0,
                    sector_count: 0,
                    error: Error::none(),
                    reading_atapi_packet: false,
                    status: Status::default(),
                    device_control: DeviceControl {
                        interrupt_disabled: true,
                        software_reset: false,
                    },
                    num_pending_sector_writes: 0,
                    prd_addr: 0,
                    busmaster_status: BusmasterPrimaryStatus {
                        active: false,
                        error: false,
                        interrupt_ready: false,
                    },
                    pending_command: None,
                    packet_responses_via_dma: false,
                    dma_status: None,
                    sense: Sense::default(),
                    atapi_byte_index: 0,
                    atapi_byte_block_size: 0,
                },
                sector_buffer: VecDeque::new(),
                pending_dma_command: None,
            },
        }
    }

    fn raise_interrupt(&mut self, irq: &mut IrqSystem)
        requires
            old(self).irq.ready(&*old(irq)),
            old(self).wf(),
        ensures
            final(self).irq == old(self).irq,
            final(self).irq.ready(&*final(irq)),
            still_accepts(&*old(irq), &*final(irq)),
            final(self).wf(),
            *final(self) == (Channel {
                inner: ChannelState {
                    regs: old(self).inner.regs.interrupting(),
                    ..old(self).inner
                },
                ..*old(self)
            }),
            final(self).inner.regs.num_pending_sector_writes == old(self).inner.regs.num_pending_sector_writes,
            forall|mem: Seq<u8>| #[trigger]
                final(self).world(mem, final(irq)@) == old(self).world(mem, old(irq)@).raised(),
    {
        proof {
            reveal(IdeWorld::raised);
        }
        let disabled = self.inner.regs.device_control.interrupt_disabled;
        self.inner.regs.set_interrupting();
        if !disabled {
            self.irq.pulse(irq);
        }
    }

    /// The drive in use.
    pub open spec fn drive_model(&self) -> Option<DriveModel> {
        if self.inner.regs.drive_and_head.second_drive_spec() {
            drive_view(self.drives.1)
        } else {
            drive_view(self.drives.0)
        }
    }

    /// The drive in use.
    fn drive(&self) -> (r: &Option<Drive>)
        ensures
            drive_view(*r) == self.drive_model(),
    {
        if self.inner.regs.drive_and_head.second_drive() {
            &self.drives.1
        } else {
            &self.drives.0
        }
    }

    /// Whether there is a drive in use.
    fn has_drive(&self) -> (r: bool)
        ensures
            r == self.drive_model().is_some(),
    {
        self.drive().is_some()
    }

    /// Whether the drive in use is a CD drive.
    fn uses_cd(&self) -> (r: bool)
        ensures
            r == (self.drive_model().is_some() && self.drive_model().unwrap().data.is_cd),
    {
        match self.drive() {
            Some(d) => d.is_cd(),
            None => false,
        }
    }

    /// The length of the disk in use, 0 if there is none.
    fn disk_len(&self) -> (r: u64)
        ensures
            r == (match self.drive_model() {
                Some(d) => d.data.bytes.len() as int,
                None => 0,
            }),
    {
        match self.drive() {
            Some(d) => d.data.len(),
            None => 0,
        }
    }

    /// Reads from the disk in use.
    fn read_disk(&self, start: u64, end: u64) -> (r: Vec<u8>)
        requires
            self.drive_model().is_some(),
            start <= end <= self.drive_model().unwrap().data.bytes.len(),
        ensures
            r@ == self.drive_model().unwrap().data.bytes.subrange(start as int, end as int),
    {
        match self.drive() {
            Some(d) => d.data.read_slice(start, end),
            None => Vec::new(),
        }
    }

    /// The geometry of the drive in use.
    fn geometry(&self) -> (r: Geometry)
        requires
            self.drive_model().is_some(),
            self.wf(),
        ensures
            r == self.drive_model().unwrap().geometry,
            r.sector_size == 512,
            1 <= r.head_count <= 16,
            r.sectors_per_track <= 0xff,
    {
        match self.drive() {
            Some(d) => d.geometry,
            None => Geometry { head_count: 16, sector_size: 512, sectors_per_track: 63 },
        }
    }

    /// Writes to the disk in use.
    fn write_disk(&mut self, start: u64, data: &[u8])
        requires
            old(self).wf(),
            old(self).drive_model().is_some(),
            start + data@.len() <= old(self).drive_model().unwrap().data.bytes.len(),
        ensures
            final(self).wf(),
            final(self).inner == old(self).inner,
            final(self).irq == old(self).irq,
            forall|mem: Seq<u8>, irq: IrqState| #[trigger]
                final(self).world(mem, irq) == ({
                    let w = old(self).world(mem, irq);
                    let drive = w.drive().unwrap();
                    w.with_drive(
                        DriveModel {
                            data: DiskModel {
                                bytes: overwrite(drive.data.bytes, start as int, data@),
                                ..drive.data
                            },
                            ..drive
                        },
                    )
                }),
    {
        if self.inner.regs.drive_and_head.second_drive() {
            match &mut self.drives.1 {
                Some(d) => d.data.write_slice(start, data),
                None => {},
            }
        } else {
            match &mut self.drives.0 {
                Some(d) => d.data.write_slice(start, data),
                None => {},
            }
        }
    }

    /// Gives the drive in use another geometry.
    fn set_geometry(&mut self, geometry: Geometry)
        requires
            old(self).wf(),
            old(self).drive_model().is_some(),
            geometry.sector_size == 512,
            1 <= geometry.head_count <= 16,
            geometry.sectors_per_track <= 0xff,
        ensures
            final(self).wf(),
            final(self).inner == old(self).inner,
            final(self).irq == old(self).irq,
            forall|mem: Seq<u8>, irq: IrqState| #[trigger]
                final(self).world(mem, irq) == ({
                    let w = old(self).world(mem, irq);
                    w.with_drive(DriveModel { geometry, ..w.drive().unwrap() })
                }),
    {
        if self.inner.regs.drive_and_head.second_drive() {
            match &mut self.drives.1 {
                Some(d) => d.geometry = geometry,
                None => {},
            }
        } else {
            match &mut self.drives.0 {
                Some(d) => d.geometry = geometry,
                None => {},
            }
        }
    }

    /// Runs the transfer that waits, if the bus master was started.
    fn try_handle_pending_dma(&mut self, mem: &mut Memory, irq: &mut IrqSystem)
        requires
            old(self).irq.ready(&*old(irq)),
            old(self).wf(),
            old(self).world(old(mem)@, old(irq)@).dma_ok(),
        ensures
            final(self).irq == old(self).irq,
            final(self).irq.ready(&*final(irq)),
            still_accepts(&*old(irq), &*final(irq)),
            final(self).wf(),
            final(self).world(final(mem)@, final(irq)@) == old(self).world(
                old(mem)@,
                old(irq)@,
            ).dma_done(),
    {
        proof {
            reveal(IdeWorld::dma_ok);
            reveal(IdeWorld::dma_done);
        }
        let started = match self.inner.regs.dma_status {
            Some(command) => command.start,
            None => false,
        };
        if !started {
            return ;
        }
        let table: u32 = self.inner.regs.prd_addr;
        let pending = self.inner.pending_dma_command.take();
        if let Some(pending) = pending {
            self.inner.regs.dma_status = None;
            match pending {
                PendingDmaCommand::Read { start, len } => {
                    let size: u64 = self.disk_len();
                    let bytes = self.read_disk(start, start + len);
                    scatter(mem, table, &bytes);
                },
                PendingDmaCommand::Write { start, len } => {
                    if self.inner.regs.drive_and_head.second_drive() {
                        match &mut self.drives.1 {
                            Some(d) => gather(&mut d.data, table, start, start + len, mem),
                            None => {},
                        }
                    } else {
                        match &mut self.drives.0 {
                            Some(d) => gather(&mut d.data, table, start, start + len, mem),
                            None => {},
                        }
                    }
                },
                PendingDmaCommand::FromBuffer { buf } => {
                    scatter(mem, table, &buf);
                },
            }
            self.inner.regs.finish_transfer();
            self.raise_interrupt(irq);
        }
    }

    fn send_atapi_response(&mut self, buf: Vec<u8>, mem: &mut Memory, irq: &mut IrqSystem)
        requires
            old(self).irq.ready(&*old(irq)),
            old(self).wf(),
            old(self).world(old(mem)@, old(irq)@).answer_ok(buf@),
        ensures
            final(self).irq == old(self).irq,
            final(self).irq.ready(&*final(irq)),
            still_accepts(&*old(irq), &*final(irq)),
            final(self).wf(),
            final(self).world(final(mem)@, final(irq)@) == old(self).world(
                old(mem)@,
                old(irq)@,
            ).answered(buf@),
    {
        proof {
            reveal(IdeWorld::answer_ok);
            reveal(IdeWorld::answered);
        }
        self.inner.regs.begin_answer(buf.len());
        if self.inner.regs.packet_responses_via_dma {
            self.inner.pending_dma_command = Some(PendingDmaCommand::FromBuffer { buf });
            self.try_handle_pending_dma(mem, irq);
            self.inner.regs.set_interrupt_reason(Phase::Command, Direction::DeviceToHost);
        } else {
            push_bytes(&mut self.inner.sector_buffer, buf.as_slice());
            self.inner.regs.finish_answer();
            self.raise_interrupt(irq);
        }
    }

    /// Ends a packet command with an error.
    fn refuse(&mut self, irq: &mut IrqSystem)
        requires
            old(self).irq.ready(&*old(irq)),
            old(self).wf(),
        ensures
            final(self).irq == old(self).irq,
            final(self).irq.ready(&*final(irq)),
            still_accepts(&*old(irq), &*final(irq)),
            final(self).wf(),
            forall|mem: Seq<u8>| #[trigger]
                final(self).world(mem, final(irq)@) == old(self).world(mem, old(irq)@).refused(),
    {
        self.inner.regs.finish_with_error();
        self.raise_interrupt(irq);
    }

    fn mode_page(pc: u8, page_code: u8) -> (r: Option<Vec<u8>>)
        ensures
            r.is_some() == mode_page(pc, page_code).is_some(),
            r.is_some() ==> r.unwrap()@ == mode_page(pc, page_code).unwrap(),
    {
        let mut buf: Vec<u8> = Vec::new();
        if (pc == 0 || pc == 2) && page_code == 0x2a {
            // Current/Default Capabilities & status
            buf.push(0);
            buf.push(34);
            buf.push(0x12);
            push_zeros(&mut buf, 5);
            push_all(
                &mut buf,
                [
                    0x2au8,
                    0x12,
                    0x03,
                    0x00,
                    0x71,
                    0x60,
                    0x29,
                    0x00,
                    0x0b,
                    0x00,
                    0,
                    2,
                    2,
                    0,
                    0x0b,
                    0x00,
                    0,
                    0,
                    0,
                    0,
                ].as_slice(),
            );
            assert(buf@ =~= capabilities_page());
            Some(buf)
        } else if pc == 0 && page_code == 0x01 {
            buf.push(0);
            buf.push(14);
            buf.push(0x12);
            push_zeros(&mut buf, 13);
            assert(buf@ =~= error_recovery_page());
            Some(buf)
        } else {
            None
        }
    }

    fn sense_answer(&self) -> (r: Vec<u8>)
        ensures
            r@ == sense_data(self.inner.regs.sense),
    {
        let sense = &self.inner.regs.sense;
        let mut buf: Vec<u8> = Vec::new();
        buf.push(0xF0);
        buf.push(0);
        buf.push(sense.sense_key);
        buf.push(sense.information[0]);
        buf.push(sense.information[1]);
        buf.push(sense.information[2]);
        buf.push(sense.information[3]);
        buf.push(10);
        buf.push(sense.specific_information[0]);
        buf.push(sense.specific_information[1]);
        buf.push(sense.specific_information[2]);
        buf.push(sense.specific_information[3]);
        buf.push(sense.asc);
        buf.push(sense.ascq);
        buf.push(sense.fruc);
        buf.push(sense.key_spec[0]);
        buf.push(sense.key_spec[1]);
        buf.push(sense.key_spec[2]);
        assert(buf@ =~= sense_data(self.inner.regs.sense));
        buf
    }

    fn inquiry_answer() -> (r: Vec<u8>)
        ensures
            r@ == inquiry_data(),
    {
        let mut buf: Vec<u8> = Vec::new();
        push_all(&mut buf, [0x05u8, 0x80, 0x00, 0x21, 31, 0x00, 0x00, 0x00].as_slice());
        // "BOCHS   "
        push_all(&mut buf, [0x42u8, 0x4f, 0x43, 0x48, 0x53, 0x20, 0x20, 0x20].as_slice());
        // "Generic CD-ROM  "
        push_all(
            &mut buf,
            [
                0x47u8,
                0x65,
                0x6e,
                0x65,
                0x72,
                0x69,
                0x63,
                0x20,
                0x43,
                0x44,
                0x2d,
                0x52,
                0x4f,
                0x4d,
                0x20,
                0x20,
            ].as_slice(),
        );
        // "1.0 "
        push_all(&mut buf, [0x31u8, 0x2e, 0x30, 0x20].as_slice());
        assert(buf@ =~= inquiry_data());
        buf
    }

    fn subchannel_answer(sub_q: bool, data_format: u8) -> (r: Vec<u8>)
        ensures
            r@ == subchannel_data(sub_q, data_format),
    {
        let mut buf: Vec<u8> = Vec::new();
        push_zeros(&mut buf, 4);
        if sub_q && (data_format == 2 || data_format == 3) {
            push_zeros(&mut buf, 20);
            buf.set(4, data_format);
            if data_format == 3 {
                buf.set(5, 0x14);
                buf.set(6, 1);
            }
        }
        assert(buf@ =~= subchannel_data(sub_q, data_format));
        buf
    }

    fn capacity_answer(len: u64) -> (r: Vec<u8>)
        requires
            len >= 2048,
        ensures
            r@ == capacity_data(len as int),
    {
        let capacity: u64 = len / 2048 - 1;
        let mut buf: Vec<u8> = Vec::new();
        buf.push((capacity / 0x100_0000 % 0x100) as u8);
        buf.push((capacity / 0x1_0000 % 0x100) as u8);
        buf.push((capacity / 0x100 % 0x100) as u8);
        buf.push((capacity % 0x100) as u8);
        buf.push(0);
        buf.push(0);
        buf.push(8);
        buf.push(0);
        assert(buf@ =~= capacity_data(len as int));
        buf
    }

    fn event_answer(request: u8) -> (r: Vec<u8>)
        ensures
            r@ == event_data(request),
    {
        let mut buf: Vec<u8> = Vec::new();
        if request == 0x10 {
            buf.push(0);
            buf.push(4);
            buf.push(4);
            buf.push(0x10);
            buf.push(0);
            buf.push(2);
            buf.push(0);
            buf.push(0);
        } else {
            buf.push(0);
            buf.push(0);
            buf.push(
                if request >= 0x80 {
                    request
                } else {
                    request + 0x80
                },
            );
            buf.push(0x10);
        }
        assert(buf@ =~= event_data(request));
        buf
    }

    fn execute_packet(&mut self, packet: AtapiPacket, mem: &mut Memory, irq: &mut IrqSystem)
        requires
            old(self).irq.ready(&*old(irq)),
            old(self).wf(),
            old(self).world(old(mem)@, old(irq)@).packet_ok(packet),
        ensures
            final(self).irq == old(self).irq,
            final(self).irq.ready(&*final(irq)),
            still_accepts(&*old(irq), &*final(irq)),
            final(self).wf(),
            final(self).world(final(mem)@, final(irq)@) == old(self).world(
                old(mem)@,
                old(irq)@,
            ).packet_done(packet),
    {
        proof {
            reveal(IdeWorld::packet_ok);
            reveal(IdeWorld::packet_done);
        }
        match packet {
            AtapiPacket::TestUnitReady { .. } => {
                self.inner.regs.finish_without_output();
                self.raise_interrupt(irq);
            },
            AtapiPacket::Inquiry { allocation_length, .. } => {
                let buf = crop(Self::inquiry_answer(), allocation_length as usize);
                self.send_atapi_response(buf, mem, irq);
            },
            AtapiPacket::ModeSense { pc, page_code, allocation_length, .. } => {
                match Self::mode_page(pc, page_code) {
                    Some(page) => {
                        let buf = crop(page, allocation_length as usize);
                        self.send_atapi_response(buf, mem, irq);
                    },
                    None => {
                        self.refuse(irq);
                    },
                }
            },
            AtapiPacket::RequestSense { allocation_length, .. } => {
                let answer = self.sense_answer();
                self.inner.regs.report_sense();
                let buf = crop(answer, allocation_length as usize);
                self.send_atapi_response(buf, mem, irq);
            },
            AtapiPacket::ReadToc { msf, format, starting_track, allocation_length, .. } => {
                let len: u64 = self.disk_len();
                let toc = compute_simple_toc(msf, format, starting_track, len as u32);
                if let Ok(toc) = toc {
                    let buf = crop(toc, allocation_length as usize);
                    self.send_atapi_response(buf, mem, irq);
                }
            },
            AtapiPacket::Read { lba, transfer_length } => {
                let start: u64 = lba as u64 * 2048;
                let end: u64 = start + transfer_length as u64 * 2048;
                let buf = self.read_disk(start, end);
                self.send_atapi_response(buf, mem, irq);
            },
            AtapiPacket::ReadSubchannel { sub_q, data_format, allocation_length, .. } => {
                let answer = Self::subchannel_answer(sub_q, data_format);
                if sub_q && data_format != 2 && data_format != 3 {
                    self.refuse(irq);
                }
                let buf = crop(answer, allocation_length as usize);
                self.send_atapi_response(buf, mem, irq);
            },
            AtapiPacket::ReadCdromCapacity => {
                let len: u64 = self.disk_len();
                let buf = Self::capacity_answer(len);
                self.send_atapi_response(buf, mem, irq);
            },
            AtapiPacket::GetEventStatusNotification { polled, request, allocation_length } => {
                if polled {
                    let buf = crop(Self::event_answer(request), allocation_length as usize);
                    self.send_atapi_response(buf, mem, irq);
                } else {
                    self.refuse(irq);
                }
            },
            AtapiPacket::ReadDiscInfo => {
                self.refuse(irq);
            },
            _ => {
                // Starting, stopping and locking are accepted without effect.
                self.inner.regs.finish_without_output();
            },
        }
    }

    /// Writes the sector that the buffer holds to the disk.
    fn write_sector(&mut self, irq: &mut IrqSystem, Ghost(mem): Ghost<Seq<u8>>)
        requires
            old(self).irq.ready(&*old(irq)),
            old(self).wf(),
            old(self).inner.regs.num_pending_sector_writes > 0,
            old(self).inner.sector_buffer@.len() == 512,
            old(self).world(mem, old(irq)@).sector_ok(),
        ensures
            final(self).irq == old(self).irq,
            final(self).irq.ready(&*final(irq)),
            still_accepts(&*old(irq), &*final(irq)),
            final(self).wf(),
            final(self).world(mem, final(irq)@) == old(self).world(
                mem,
                old(irq)@,
            ).sector_written(old(self).inner.sector_buffer@),
    {
        let ghost w = self.world(mem, irq@);
        proof {
            lemma_offset_bound(w.regs.block_addr(), w.drive().unwrap().geometry);
        }
        let geometry = self.geometry();
        let addr = self.inner.regs.current_block_addr();
        let start_addr: u64 = addr.as_byte_offset(&geometry);
        let data = pop_bytes(&mut self.inner.sector_buffer, 512);
        assert(data@ =~= w.buffer);
        assert(self.inner.sector_buffer@ =~= Seq::<u8>::empty());
        self.write_disk(start_addr, data.as_slice());
        let ghost w1 = self.world(mem, irq@);
        self.inner.regs.move_to(addr.next_sector(&geometry));
        self.raise_interrupt(irq);
        let ghost w2 = self.world(mem, irq@);
        self.inner.regs.count_sector();
        proof {
            reveal(IdeWorld::sector_written);
        }
    }

    fn write_data(&mut self, val: PortValue, mem: &mut Memory, irq: &mut IrqSystem)
        requires
            old(self).irq.ready(&*old(irq)),
            old(self).wf(),
            old(self).world(old(mem)@, old(irq)@).data_ok(val),
        ensures
            final(self).irq == old(self).irq,
            final(self).irq.ready(&*final(irq)),
            still_accepts(&*old(irq), &*final(irq)),
            final(self).wf(),
            final(self).world(final(mem)@, final(irq)@) == old(self).world(
                old(mem)@,
                old(irq)@,
            ).data_written(val),
    {
        proof {
            reveal(IdeWorld::data_ok);
            reveal(IdeWorld::data_written);
        }
        let mut bytes: Vec<u8> = Vec::new();
        val.push_le_bytes(&mut bytes);
        assert(bytes@ =~= val.bytes());
        if self.inner.regs.num_pending_sector_writes > 0 {
            push_bytes(&mut self.inner.sector_buffer, bytes.as_slice());
            if self.inner.sector_buffer.len() == 512 {
                self.write_sector(irq, Ghost(mem@));
            }
        } else if let Some(PendingCommand::Packet) = self.inner.regs.pending_command {
            push_bytes(&mut self.inner.sector_buffer, bytes.as_slice());
            if self.inner.sector_buffer.len() >= 12 {
                let ghost all = self.inner.sector_buffer@;
                let packet = pop_bytes(&mut self.inner.sector_buffer, 12);
                let packet: [u8; 12] = [
                    packet[0],
                    packet[1],
                    packet[2],
                    packet[3],
                    packet[4],
                    packet[5],
                    packet[6],
                    packet[7],
                    packet[8],
                    packet[9],
                    packet[10],
                    packet[11],
                ];
                assert(packet@ =~= all.take(12));
                match AtapiPacket::parse(&packet) {
                    Ok(packet) => self.execute_packet(packet, mem, irq),
                    Err(_) => {},
                }
            }
        }
    }

    /// Puts the drive's identity into the buffer.
    fn identify(&mut self, irq: &mut IrqSystem)
        requires
            old(self).irq.ready(&*old(irq)),
            old(self).wf(),
            old(self).drive_model().is_some(),
            old(self).drive_model().unwrap().identifiable(),
        ensures
            final(self).irq == old(self).irq,
            final(self).irq.ready(&*final(irq)),
            still_accepts(&*old(irq), &*final(irq)),
            final(self).wf(),
            forall|mem: Seq<u8>| #[trigger]
                final(self).world(mem, final(irq)@) == old(self).world(mem, old(irq)@).identified(),
    {
        let ghost id_bytes = self.drive_model().unwrap().identity().bytes();
        if let Some(drive) = self.drive() {
            let id = drive.identify();
            let bytes = id.to_bytes();
            self.inner.sector_buffer.clear();
            push_bytes(&mut self.inner.sector_buffer, bytes.as_slice());
            assert(self.inner.sector_buffer@ =~= bytes@);
        }
        self.inner.regs.announce_identity();
        self.raise_interrupt(irq);
    }

    /// The sectors of the command as a range of the disk, `None` if they do not exist.
    fn command_range(&self) -> (r: Option<(u64, u64)>)
        requires
            self.wf(),
            self.drive_model().is_some(),
            self.inner.regs.block_addr().valid(),
        ensures
            r.is_some() ==> r.unwrap().0 <= r.unwrap().1 <= self.drive_model().unwrap().data.bytes.len(),
            forall|mem: Seq<u8>, irq: IrqState|
                #![trigger self.world(mem, irq)]
                {
                    let w = self.world(mem, irq);
                    &&& r.is_some() == w.command_in_range()
                    &&& r.is_some() ==> r.unwrap().0 <= r.unwrap().1
                    &&& r.is_some() ==> r.unwrap().0 == w.command_start() && r.unwrap().1
                        == w.command_start() + w.command_len()
                },
    {
        proof {
            lemma_offset_bound(
                self.inner.regs.block_addr(),
                self.drive_model().unwrap().geometry,
            );
        }
        let geometry = self.geometry();
        let num_sectors: usize = self.inner.regs.num_sectors();
        let start_addr: u64 = self.inner.regs.current_block_addr().as_byte_offset(&geometry);
        let end_addr: u64 = start_addr + num_sectors as u64 * 512;
        if end_addr > self.disk_len() {
            None
        } else {
            Some((start_addr, end_addr))
        }
    }

    /// Reads the sectors of the command into the buffer, or only checks that they exist.
    fn read_sectors(&mut self, buffered: bool, irq: &mut IrqSystem)
        requires
            old(self).irq.ready(&*old(irq)),
            old(self).wf(),
            old(self).drive_model().is_some(),
            old(self).drive_model().unwrap().data.is_cd || old(self).inner.regs.block_addr().valid(),
        ensures
            final(self).irq == old(self).irq,
            final(self).irq.ready(&*final(irq)),
            still_accepts(&*old(irq), &*final(irq)),
            final(self).wf(),
            forall|mem: Seq<u8>| #[trigger]
                final(self).world(mem, final(irq)@) == old(self).world(mem, old(irq)@).sectors_read(buffered),
    {
        let ghost old_irq = irq@;
        if self.uses_cd() {
            self.inner.regs.abort();
        } else {
            match self.command_range() {
                None => self.inner.regs.reject_range(),
                Some((start, end)) => {
                    assert(self.world(Seq::empty(), irq@).command_in_range());
                    if buffered {
                        let bytes = self.read_disk(start, end);
                        self.inner.sector_buffer.clear();
                        push_bytes(&mut self.inner.sector_buffer, bytes.as_slice());
                        assert(self.inner.sector_buffer@ =~= bytes@);
                    }
                    self.inner.regs.finish_read(buffered);
                },
            }
        }
        self.raise_interrupt(irq);
        proof {
            assert forall|mem: Seq<u8>| #[trigger]
                self.world(mem, irq@) == old(self).world(mem, old_irq).sectors_read(buffered) by {
                let w = old(self).world(mem, old_irq);
            }
        }
    }

    /// Lets a transfer of the sectors of the command wait for the bus master.
    fn request_dma(&mut self, write: bool)
        requires
            old(self).wf(),
            old(self).drive_model().is_some(),
            old(self).inner.regs.block_addr().valid(),
        ensures
            final(self).wf(),
            final(self).irq == old(self).irq,
            forall|mem: Seq<u8>, irq: IrqState| #[trigger]
                final(self).world(mem, irq) == old(self).world(mem, irq).dma_requested(write),
    {
        match self.command_range() {
            None => self.inner.regs.reject_range(),
            Some((start, end)) => {
                let len: u64 = end - start;
                self.inner.pending_dma_command = Some(
                    if write {
                        PendingDmaCommand::Write { start, len }
                    } else {
                        PendingDmaCommand::Read { start, len }
                    },
                );
            },
        }
        proof {
            assert forall|mem: Seq<u8>, irq: IrqState| #[trigger]
                self.world(mem, irq) == old(self).world(mem, irq).dma_requested(write) by {
                let w = old(self).world(mem, irq);
            }
        }
    }

    #[verifier::rlimit(50)]
    #[verifier::spinoff_prover]
    fn execute_command(&mut self, val: u8, irq: &mut IrqSystem, Ghost(mem): Ghost<Seq<u8>>)
        requires
            old(self).irq.ready(&*old(irq)),
            old(self).wf(),
            old(self).world(mem, old(irq)@).command_ok(val),
        ensures
            final(self).irq == old(self).irq,
            final(self).irq.ready(&*final(irq)),
            still_accepts(&*old(irq), &*final(irq)),
            final(self).wf(),
            final(self).world(mem, final(irq)@) == old(self).world(
                mem,
                old(irq)@,
            ).command_done(val),
    {
        proof {
            reveal(IdeWorld::command_ok);
            reveal(IdeWorld::command_done);
        }
        let ghost w0 = self.world(mem, irq@);
        self.inner.regs.start_command();
        let ghost w = self.world(mem, irq@);
        assert(w == w0.with_regs(w0.regs.command_started()));
        let is_cd = self.uses_cd();
        match val {
            // Identify drive
            0xEC => {
                if is_cd {
                    self.inner.regs.sign_as_cd();
                    self.inner.regs.abort();
                    self.raise_interrupt(irq);
                } else {
                    self.identify(irq);
                }
                assert(self.world(mem, irq@) == w0.command_done(val));
            },
            0xA0 => {
                self.inner.regs.start_packet();
                self.inner.sector_buffer.clear();
                assert(self.world(mem, irq@) == w0.command_done(val));
            },
            0xA1 => {
                if is_cd {
                    self.inner.regs.set_interrupt_reason(Phase::Data, Direction::DeviceToHost);
                    self.identify(irq);
                } else {
                    self.inner.regs.reject_command();
                }
                assert(self.world(mem, irq@) == w0.command_done(val));
            },
            0x08 => {
                if is_cd {
                    self.inner.sector_buffer.clear();
                    self.inner.regs.reset_cd();
                } else {
                    self.inner.regs.reject_command();
                }
                assert(self.world(mem, irq@) == w0.command_done(val));
            },
            // Calibrate
            0x10 => {
                self.inner.regs.calibrate();
                self.raise_interrupt(irq);
                assert(self.world(mem, irq@) == w0.command_done(val));
            },
            // Set features: all are accepted without effect.
            // Format track: the ATA specification allows us to do nothing here
            0xEF | 0x50 => {
                self.inner.regs.accept();
                self.raise_interrupt(irq);
                assert(self.world(mem, irq@) == w0.command_done(val));
            },
            // Seek
            0x70 => {
                self.inner.regs.seek();
                self.raise_interrupt(irq);
                assert(self.world(mem, irq@) == w0.command_done(val));
            },
            // Write sectors
            0x30 | 0xC5 => {
                self.inner.regs.await_sectors();
                assert(self.world(mem, irq@) == w0.command_done(val));
            },
            // Read sectors; verify
            0x20 | 0x40 | 0xC4 => {
                self.read_sectors(val != 0x40, irq);
                assert(self.world(mem, irq@) == w0.command_done(val));
            },
            // Read via DMA
            0x25 | 0xC8 | 0xC9 => {
                self.request_dma(false);
                assert(self.world(mem, irq@) == w0.command_done(val));
            },
            // Write via DMA
            0x35 | 0xCA | 0xCB => {
                self.request_dma(true);
                assert(self.world(mem, irq@) == w0.command_done(val));
            },
            0x91 => {
                let mut geometry = self.geometry();
                geometry.sectors_per_track = self.inner.regs.sector_count as u16;
                geometry.head_count = self.inner.regs.drive_and_head.hs() as u16 + 1;
                self.set_geometry(geometry);
                self.inner.regs.acknowledge();
                self.raise_interrupt(irq);
                assert(self.world(mem, irq@) == w0.command_done(val));
            },
            // Standby, idle, cache flushes, security freeze lock
            0x94 | 0x95 | 0xE0 | 0xE1 | 0xE7 | 0xEA | 0xF5 => {
                self.inner.regs.acknowledge();
                self.raise_interrupt(irq);
                assert(self.world(mem, irq@) == w0.command_done(val));
            },
            // Set multiple (0xC6) and unknown commands are ignored.
            _ => {},
        }
    }

    /// The address registers take bytes only.
    pub open spec fn write_result(addr: u8, val: PortValue) -> Result<(), PortError> {
        if 3 <= addr <= 5 && val.width != PortWidth::Byte {
            Err(PortError::UnsupportedWidth)
        } else {
            Ok(())
        }
    }

    /// The unused registers of the bus master take bytes only.
    pub open spec fn busmaster_result(addr: u8, val: PortValue) -> Result<(), PortError> {
        if (addr == 1 || addr == 3) && val.width != PortWidth::Byte {
            Err(PortError::UnsupportedWidth)
        } else {
            Ok(())
        }
    }

    pub fn write(&mut self, addr: u8, val: PortValue, mem: &mut Memory, irq: &mut IrqSystem) -> (r:
        Result<(), PortError>)
        requires
            old(self).irq.ready(&*old(irq)),
            old(self).wf(),
            old(self).world(old(mem)@, old(irq)@).write_ok(addr, val),
        ensures
            final(self).irq == old(self).irq,
            final(self).irq.ready(&*final(irq)),
            still_accepts(&*old(irq), &*final(irq)),
            final(self).wf(),
            final(self).world(final(mem)@, final(irq)@) == old(self).world(
                old(mem)@,
                old(irq)@,
            ).written(addr, val),
            r == Self::write_result(addr, val),
    {
        match addr {
            // Data
            0x0 => self.write_data(val, mem, irq),
            // Features
            0x1 => self.inner.regs.features = val.u8(),
            // Sector count
            0x2 => self.inner.regs.sector_count = val.u8(),
            // LBA byte 0-4 / CHS (sector, cylinder low, cylinder high, drive/head)
            0x3 | 0x4 | 0x5 => match val.require_u8() {
                Ok(byte) => {
                    if addr == 3 {
                        self.inner.regs.block_addr0 = byte;
                    } else if addr == 4 {
                        self.inner.regs.block_addr1 = byte;
                    } else {
                        self.inner.regs.block_addr2 = byte;
                    }
                },
                Err(e) => {
                    return Err(e);
                },
            },
            // drive/head
            0x6 => {
                let selected = DriveHeadVal { value: val.u8() };
                let has_drive = if selected.second_drive() {
                    self.drives.1.is_some()
                } else {
                    self.drives.0.is_some()
                };
                self.inner.regs.select(val.u8(), has_drive);
            },
            // Command
            _ => {
                if self.has_drive() {
                    self.execute_command(val.u8(), irq, Ghost(mem@));
                } else {
                    self.inner.regs.reject_without_drive();
                }
            },
        }
        Ok(())
    }

    pub fn write_control(&mut self, val: PortValue) -> (r: Result<(), PortError>)
        requires
            old(self).wf(),
        ensures
            final(self).wf(),
            final(self).irq == old(self).irq,
            r == Ok::<(), PortError>(()),
            forall|mem: Seq<u8>, irq: IrqState| #[trigger]
                final(self).world(mem, irq) == old(self).world(mem, irq).control_written(
                    val.low8(),
                ),
    {
        let has_drive = self.has_drive();
        let is_cd = self.uses_cd();
        self.inner.regs.write_control(val.u8(), has_drive, is_cd);
        Ok(())
    }

    /// Takes a byte off the front of the buffer; an empty buffer gives 0xff.
    fn pop(&mut self) -> (r: u8)
        ensures
            r == (if old(self).inner.sector_buffer@.len() > 0 {
                old(self).inner.sector_buffer@[0]
            } else {
                0xffu8
            }),
            final(self).inner.sector_buffer@ == (if old(self).inner.sector_buffer@.len() > 0 {
                old(self).inner.sector_buffer@.skip(1)
            } else {
                Seq::empty()
            }),
            *final(self) == (Channel {
                inner: ChannelState {
                    sector_buffer: final(self).inner.sector_buffer,
                    ..old(self).inner
                },
                ..*old(self)
            }),
    {
        let front = self.inner.sector_buffer.pop_front();
        assert(self.inner.sector_buffer@ =~= (if old(self).inner.sector_buffer@.len() > 0 {
            old(self).inner.sector_buffer@.skip(1)
        } else {
            Seq::empty()
        }));
        match front {
            Some(b) => b,
            None => 0xff,
        }
    }

    /// Takes a value off the front of the buffer.
    fn pop_value(&mut self, width: PortWidth) -> (r: u32)
        ensures
            r == old(self).data_value(width.size_spec()),
            final(self).inner.sector_buffer@ == (if width.size_spec() < old(self).inner.sector_buffer@.len() {
                old(self).inner.sector_buffer@.skip(width.size_spec())
            } else {
                Seq::empty()
            }),
            *final(self) == (Channel {
                inner: ChannelState {
                    sector_buffer: final(self).inner.sector_buffer,
                    ..old(self).inner
                },
                ..*old(self)
            }),
    {
        let ghost all = self.inner.sector_buffer@;
        let b0: u32 = self.pop() as u32;
        match width {
            PortWidth::Byte => {
                assert(self.inner.sector_buffer@ =~= (if 1 < all.len() {
                    all.skip(1)
                } else {
                    Seq::empty()
                }));
                b0
            },
            PortWidth::Word => {
                let b1: u32 = self.pop() as u32;
                assert(self.inner.sector_buffer@ =~= (if 2 < all.len() {
                    all.skip(2)
                } else {
                    Seq::empty()
                }));
                b0 + 0x100 * b1
            },
            PortWidth::Dword => {
                let b1: u32 = self.pop() as u32;
                let b2: u32 = self.pop() as u32;
                let b3: u32 = self.pop() as u32;
                assert(self.inner.sector_buffer@ =~= (if 4 < all.len() {
                    all.skip(4)
                } else {
                    Seq::empty()
                }));
                b0 + 0x100 * b1 + 0x1_0000 * b2 + 0x100_0000 * b3
            },
        }
    }

    /// Reads the data register.
    fn read_data(&mut self, width: PortWidth, irq: &mut IrqSystem, Ghost(mem): Ghost<Seq<u8>>) -> (r:
        u32)
        requires
            old(self).irq.ready(&*old(irq)),
            old(self).wf(),
            old(self).inner.regs.reading_atapi_packet ==> old(self).inner.regs.atapi_byte_index
                + width.size_spec() <= u16::MAX,
        ensures
            final(self).irq == old(self).irq,
            final(self).irq.ready(&*final(irq)),
            still_accepts(&*old(irq), &*final(irq)),
            final(self).wf(),
            r == old(self).data_value(width.size_spec()),
            final(self).world(mem, final(irq)@) == old(self).world(mem, old(irq)@).data_read(
                width.size_spec(),
            ),
    {
        proof {
            reveal(IdeWorld::data_read);
        }
        let ghost w0 = self.world(mem, irq@);
        let size: u8 = width.size();
        let value: u32 = self.pop_value(width);
        let is_cd = self.uses_cd();
        let left: usize = self.inner.sector_buffer.len();
        self.inner.regs.pop(left, is_cd);
        if self.inner.regs.reading_atapi_packet {
            let index: u16 = self.inner.regs.atapi_byte_index + size as u16;
            if left == 0 {
                self.inner.regs.finish_answer_read(size);
                self.raise_interrupt(irq);
                self.inner.regs.reading_atapi_packet = false;
            } else if index >= self.inner.regs.atapi_byte_block_size {
                self.inner.regs.finish_block_read(left);
                self.raise_interrupt(irq);
            } else {
                self.inner.regs.atapi_byte_index = index;
            }
        } else if left != 0 && left % 512 == 0 {
            self.raise_interrupt(irq);
        }
        value
    }

    /// What a read of a register other than the data register gives.
    pub open spec fn register(&self, addr: u8) -> int {
        let regs = self.inner.regs;
        if addr == 1 {
            regs.error.value_spec()
        } else if addr == 2 {
            regs.sector_count as int
        } else if addr == 3 {
            regs.block_addr0 as int
        } else if addr == 4 {
            regs.block_addr1 as int
        } else if addr == 5 {
            regs.block_addr2 as int
        } else if addr == 6 {
            regs.drive_and_head.value as int
        } else {
            regs.status.value_spec()
        }
    }

    /// What a read of a register gives. All registers but the data register take bytes only.
    pub open spec fn read_result(&self, addr: u8, width: PortWidth) -> Result<u32, PortError> {
        if addr == 0 {
            Ok(self.data_value(width.size_spec()) as u32)
        } else {
            byte_read(self.register(addr), width)
        }
    }

    /// The value that a read of `size` bytes of the data register gives.
    pub open spec fn data_value(&self, size: int) -> int {
        buffer_value(self.inner.sector_buffer@, size)
    }

    /// A read of a register leaves the channel like this: a read of the data register takes bytes
    /// off the buffer, and a read of the status register resets its error bit.
    pub open spec fn read_effect(
        &self,
        after: &Channel,
        addr: u8,
        width: PortWidth,
        irq: IrqState,
        irq_after: IrqState,
    ) -> bool {
        if addr == 0 {
            after.world(Seq::empty(), irq_after) == self.world(Seq::empty(), irq).data_read(
                width.size_spec(),
            )
        } else {
            &&& irq_after == irq
            &&& *after == (if addr == 7 && width == PortWidth::Byte {
                Channel {
                    inner: ChannelState {
                        regs: ChannelRegs {
                            status: Status { err: false, ..self.inner.regs.status },
                            ..self.inner.regs
                        },
                        ..self.inner
                    },
                    ..*self
                }
            } else {
                *self
            })
        }
    }

    /// The count of the bytes that were read of an answer does not run over.
    pub open spec fn read_ok(&self, addr: u8, width: PortWidth) -> bool {
        &&& addr < 8
        &&& addr == 0 && self.inner.regs.reading_atapi_packet ==> self.inner.regs.atapi_byte_index
            + width.size_spec() <= u16::MAX
    }

    /// Reads a register.
    #[verifier::rlimit(60)]
    #[verifier::spinoff_prover]
    pub fn read(&mut self, addr: u8, width: PortWidth, irq: &mut IrqSystem) -> (r: Result<
        u32,
        PortError,
    >)
        requires
            old(self).irq.ready(&*old(irq)),
            old(self).wf(),
            old(self).read_ok(addr, width),
        ensures
            final(self).irq == old(self).irq,
            final(self).irq.ready(&*final(irq)),
            still_accepts(&*old(irq), &*final(irq)),
            final(self).wf(),
            r == old(self).read_result(addr, width),
            old(self).read_effect(final(self), addr, width, old(irq)@, final(irq)@),
    {
        match addr {
            // Data
            0x0 => Ok(self.read_data(width, irq, Ghost(Seq::empty()))),
            // Error register
            0x1 => from_u8(self.inner.regs.error.value(), width),
            // Sector count
            0x2 => from_u8(self.inner.regs.sector_count, width),
            // LBA byte 0-4 / CHS (sector, cylinder low, cylinder high)
            0x3 => from_u8(self.inner.regs.block_addr0, width),
            0x4 => from_u8(self.inner.regs.block_addr1, width),
            0x5 => from_u8(self.inner.regs.block_addr2, width),
            // drive/head addr
            0x6 => from_u8(self.inner.regs.drive_and_head.value, width),
            // Status/drive address
            _ => {
                let result = from_u8(self.inner.regs.status.value(), width);
                if result.is_ok() {
                    self.inner.regs.status.err = false;
                }
                result
            },
        }
    }

    pub fn read_control(&self, width: PortWidth) -> (r: Result<u32, PortError>)
        ensures
            r == byte_read(self.inner.regs.status.value_spec(), width),
    {
        from_u8(self.inner.regs.status.value(), width)
    }

    /// What a read of a register of the bus master gives.
    pub open spec fn busmaster_read(&self, addr: u8, width: PortWidth) -> Result<u32, PortError> {
        if addr == 0 {
            byte_read(0, width)
        } else if addr == 2 {
            byte_read(self.inner.regs.busmaster_status.value_spec(), width)
        } else if 4 <= addr <= 7 {
            Ok(part_of_u32(self.inner.regs.prd_addr, addr as int % 4, width) as u32)
        } else {
            byte_read(0xff, width)
        }
    }

    pub fn read_busmaster(&self, addr: u8, width: PortWidth) -> (r: Result<u32, PortError>)
        ensures
            r == self.busmaster_read(addr, width),
    {
        match addr {
            // Command register
            0x0 => from_u8(0, width),
            // Status register
            0x2 => from_u8(self.inner.regs.busmaster_status.value(), width),
            // PRD address
            0x4 | 0x5 | 0x6 | 0x7 => Ok(from_u32(self.inner.regs.prd_addr, addr % 4, width)),
            _ => from_u8(0xff, width),
        }
    }

    /// Writes a register of the bus master. Starting it runs the transfer that waits.
    pub fn write_busmaster(
        &mut self,
        addr: u8,
        val: PortValue,
        mem: &mut Memory,
        irq: &mut IrqSystem,
    ) -> (r: Result<(), PortError>)
        requires
            old(self).irq.ready(&*old(irq)),
            old(self).wf(),
            addr == 0 ==> old(self).world(old(mem)@, old(irq)@).with_dma_status(
                val.low8(),
            ).dma_ok(),
        ensures
            final(self).irq == old(self).irq,
            final(self).irq.ready(&*final(irq)),
            still_accepts(&*old(irq), &*final(irq)),
            final(self).wf(),
            r == Self::busmaster_result(addr, val),
            final(self).world(final(mem)@, final(irq)@) == old(self).world(
                old(mem)@,
                old(irq)@,
            ).busmaster_written(addr, val),
    {
        match addr {
            // Command register
            0x0 => {
                self.inner.regs.dma_status = Some(DmaCommand::from_value(val.u8()));
                self.try_handle_pending_dma(mem, irq);
            },
            0x1 | 0x3 => {
                if let Err(e) = val.require_u8() {
                    return Err(e);
                }
            },
            // Status register
            0x2 => {
                if val.u8() / 4 % 2 == 1 {
                    self.inner.regs.busmaster_status.interrupt_ready = false;
                }
            },
            // PRD address
            0x4 => {
                self.inner.regs.prd_addr = val.u32();
            },
            _ => {},
        }
        Ok(())
    }

    pub fn snapshot(&self) -> (r: ChannelSnapshot)
        ensures
            r.matches(self),
    {
        let first = match &self.drives.0 {
            Some(d) => Some(d.snapshot()),
            None => None,
        };
        let second = match &self.drives.1 {
            Some(d) => Some(d.snapshot()),
            None => None,
        };
        let mut sector_buffer: VecDeque<u8> = VecDeque::new();
        let mut n: usize = 0;
        while n < self.inner.sector_buffer.len()
            invariant
                n <= self.inner.sector_buffer@.len(),
                sector_buffer@ == self.inner.sector_buffer@.take(n as int),
            decreases self.inner.sector_buffer@.len() - n,
        {
            sector_buffer.push_back(self.inner.sector_buffer[n]);
            proof {
                assert(sector_buffer@ =~= self.inner.sector_buffer@.take(n + 1));
            }
            n = n + 1;
        }
        assert(sector_buffer@ =~= self.inner.sector_buffer@);
        let pending_dma_command = match &self.inner.pending_dma_command {
            Some(PendingDmaCommand::Read { start, len }) => Some(
                PendingDmaCommand::Read { start: *start, len: *len },
            ),
            Some(PendingDmaCommand::Write { start, len }) => Some(
                PendingDmaCommand::Write { start: *start, len: *len },
            ),
            Some(PendingDmaCommand::FromBuffer { buf }) => {
                let copy = copy_range(buf, 0, buf.len());
                assert(copy@ =~= buf@);
                Some(PendingDmaCommand::FromBuffer { buf: copy })
            },
            None => None,
        };
        ChannelSnapshot {
            drives: (first, second),
            inner: ChannelState { regs: self.inner.regs, sector_buffer, pending_dma_command },
        }
    }

    pub fn restore(&mut self, channel: ChannelSnapshot)
        requires
            channel.wf(),
        ensures
            final(self).wf(),
            final(self).irq == old(self).irq,
            channel.matches(final(self)),
    {
        let (first, second) = channel.drives;
        self.drives = (
            match first {
                Some(d) => Some(Drive::from_snapshot(d)),
                None => None,
            },
            match second {
                Some(d) => Some(Drive::from_snapshot(d)),
                None => None,
            },
        );
        self.inner = channel.inner;
    }
}

} // verus!
