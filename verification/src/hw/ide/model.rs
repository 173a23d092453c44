//! What an IDE channel does, as a function on the state of the channel, of memory and of the
//! interrupt controllers.
use vstd::prelude::*;

use crate::bytes::overwrite;
use crate::hw::ide::atapi::{packet_of, simple_toc, toc_start_valid, AtapiPacket};
use crate::hw::ide::drive::{DriveModel, Geometry};
use crate::hw::ide::regs::{
    BusmasterPrimaryStatus, ChannelRegs, DmaCommand, DriveHeadVal, Prd, Sense,
};
use crate::hw::pic::{DualIrqLine, IrqState};
use crate::hw::ports::PortValue;
use crate::hw::storage::DiskModel;

verus! {

/// A transfer that waits for the bus master to be started.
pub enum PendingDma {
    Read { start: u64, len: u64 },
    Write { start: u64, len: u64 },
    FromBuffer { buf: Seq<u8> },
}

/// A channel and all that it acts on.
pub struct IdeWorld {
    pub line: DualIrqLine,
    pub regs: ChannelRegs,
    pub buffer: Seq<u8>,
    pub dma: Option<PendingDma>,
    pub first: Option<DriveModel>,
    pub second: Option<DriveModel>,
    pub mem: Seq<u8>,
    pub irq: IrqState,
}

/// The entry of a DMA table at `addr`.
pub open spec fn prd_at(mem: Seq<u8>, addr: int) -> Prd {
    Prd::of_bytes(mem.subrange(addr, addr + 8))
}

pub open spec fn smaller(a: int, b: int) -> int {
    if a < b {
        a
    } else {
        b
    }
}

/// Whether bytes can be moved into memory along the DMA table at `table`: every entry that is
/// used, and its memory, exist, and no entry asks for a jump or ends the table early.
pub open spec fn scatter_ok(mem: Seq<u8>, table: int, bytes: Seq<u8>) -> bool
    decreases bytes.len(),
{
    if bytes.len() == 0 {
        true
    } else {
        let prd = prd_at(mem, table);
        let n = smaller(prd.computed_size_spec(), bytes.len() as int);
        &&& table + 8 <= mem.len()
        &&& prd.addr + n <= mem.len()
        &&& !prd.eop
        &&& !prd.jmp
        &&& prd.eot || {
            &&& table + 8 <= u32::MAX
            &&& scatter_ok(overwrite(mem, prd.addr as int, bytes.take(n)), table + 8, bytes.skip(n))
        }
    }
}

/// Memory once bytes were moved into it along the DMA table at `table`.
pub open spec fn scattered(mem: Seq<u8>, table: int, bytes: Seq<u8>) -> Seq<u8>
    decreases bytes.len(),
{
    if bytes.len() == 0 {
        mem
    } else {
        let prd = prd_at(mem, table);
        let n = smaller(prd.computed_size_spec(), bytes.len() as int);
        let after = overwrite(mem, prd.addr as int, bytes.take(n));
        if prd.eot {
            after
        } else {
            scattered(after, table + 8, bytes.skip(n))
        }
    }
}

/// Whether the bytes from `at` to `end` of a disk can be taken from memory along the DMA table at
/// `table`.
pub open spec fn gather_ok(mem: Seq<u8>, table: int, disk: Seq<u8>, at: int, end: int) -> bool
    decreases
            (if at < end {
                end - at
            } else {
                0
            }),
{
    if at >= end {
        true
    } else {
        let prd = prd_at(mem, table);
        let n = prd.computed_size_spec();
        &&& table + 8 <= mem.len()
        &&& prd.addr + n <= mem.len()
        &&& at + n <= disk.len()
        &&& !prd.eop
        &&& !prd.jmp
        &&& prd.eot || {
            &&& table + 8 <= u32::MAX
            &&& gather_ok(
                mem,
                table + 8,
                overwrite(disk, at, mem.subrange(prd.addr as int, prd.addr + n)),
                at + n,
                end,
            )
        }
    }
}

/// A disk once its bytes from `at` to `end` were taken from memory along the DMA table.
pub open spec fn gathered(mem: Seq<u8>, table: int, disk: Seq<u8>, at: int, end: int) -> Seq<u8>
    decreases
            (if at < end {
                end - at
            } else {
                0
            }),
{
    if at >= end {
        disk
    } else {
        let prd = prd_at(mem, table);
        let n = prd.computed_size_spec();
        let after = overwrite(disk, at, mem.subrange(prd.addr as int, prd.addr + n));
        if prd.eot {
            after
        } else {
            gathered(mem, table + 8, after, at + n, end)
        }
    }
}

/// At most `n` bytes of `s`.
pub open spec fn cropped(s: Seq<u8>, n: int) -> Seq<u8> {
    if s.len() > n {
        s.take(n)
    } else {
        s
    }
}

/// The answer to an inquiry: a removable CD drive, "BOCHS   ", "Generic CD-ROM  ", "1.0 ".
pub open spec fn inquiry_data() -> Seq<u8> {
    seq![
        0x05u8,
        0x80,
        0x00,
        0x21,
        31,
        0x00,
        0x00,
        0x00,
        0x42,
        0x4f,
        0x43,
        0x48,
        0x53,
        0x20,
        0x20,
        0x20,
        0x47,
        0x65,
        0x6e,
        0x65,
        0x72,
        0x69,
        0x63,
        0x20,
        0x43,
        0x44,
        0x2d,
        0x52,
        0x4f,
        0x4d,
        0x20,
        0x20,
        0x31,
        0x2e,
        0x30,
        0x20,
    ]
}

/// The mode page with the capabilities of the drive.
pub open spec fn capabilities_page() -> Seq<u8> {
    seq![
        0u8,
        34,
        0x12,
        0,
        0,
        0,
        0,
        0,
        0x2a,
        0x12,
        0x03,
        0x00,
        0x71,
        0x60,
        0x29,
        0x00,
        0x0b,
        0x00,
        0,
        2,
        2,
        0,
        0x0b,
        0x00,
        0,
        0,
        0,
        0,
    ]
}

/// The mode page on error recovery.
pub open spec fn error_recovery_page() -> Seq<u8> {
    seq![0u8, 14, 0x12, 0, 0, 0, 0, 0, 0, 0, 0, 0, 0, 0, 0, 0]
}

/// The mode page that is supported for a page control and a page code, if there is one.
pub open spec fn mode_page(pc: u8, page_code: u8) -> Option<Seq<u8>> {
    if (pc == 0 || pc == 2) && page_code == 0x2a {
        Some(capabilities_page())
    } else if pc == 0 && page_code == 0x01 {
        Some(error_recovery_page())
    } else {
        None
    }
}

pub open spec fn sense_data(sense: Sense) -> Seq<u8> {
    seq![
        0xF0u8,
        0,
        sense.sense_key,
        sense.information@[0],
        sense.information@[1],
        sense.information@[2],
        sense.information@[3],
        10,
        sense.specific_information@[0],
        sense.specific_information@[1],
        sense.specific_information@[2],
        sense.specific_information@[3],
        sense.asc,
        sense.ascq,
        sense.fruc,
        sense.key_spec@[0],
        sense.key_spec@[1],
        sense.key_spec@[2],
    ]
}

/// The answer to a request for a subchannel.
pub open spec fn subchannel_data(sub_q: bool, data_format: u8) -> Seq<u8> {
    if sub_q && data_format == 2 {
        seq![0u8, 0, 0, 0, 2, 0, 0, 0, 0, 0, 0, 0, 0, 0, 0, 0, 0, 0, 0, 0, 0, 0, 0, 0]
    } else if sub_q && data_format == 3 {
        seq![0u8, 0, 0, 0, 3, 0x14, 1, 0, 0, 0, 0, 0, 0, 0, 0, 0, 0, 0, 0, 0, 0, 0, 0, 0]
    } else {
        seq![0u8, 0, 0, 0]
    }
}

/// The number of the last block and the size of a block, both big-endian.
pub open spec fn capacity_data(len: int) -> Seq<u8> {
    let last = len / 2048 - 1;
    seq![
        (last / 0x100_0000 % 0x100) as u8,
        (last / 0x1_0000 % 0x100) as u8,
        (last / 0x100 % 0x100) as u8,
        (last % 0x100) as u8,
        0,
        0,
        8,
        0,
    ]
}

/// The answer to a polled request for events. Only media events are supported.
pub open spec fn event_data(request: u8) -> Seq<u8> {
    if request == 0x10 {
        seq![0u8, 4, 4, 0x10, 0, 2, 0, 0]
    } else {
        seq![
            0u8,
            0,
            if request >= 0x80 {
                request
            } else {
                (request + 0x80) as u8
            },
            0x10,
        ]
    }
}

impl IdeWorld {
    pub open spec fn drive(&self) -> Option<DriveModel> {
        if self.regs.drive_and_head.second_drive_spec() {
            self.second
        } else {
            self.first
        }
    }

    pub open spec fn with_drive(self, drive: DriveModel) -> IdeWorld {
        if self.regs.drive_and_head.second_drive_spec() {
            IdeWorld { second: Some(drive), ..self }
        } else {
            IdeWorld { first: Some(drive), ..self }
        }
    }

    /// Whether the drive in use is a CD drive.
    pub open spec fn cd(&self) -> bool {
        self.drive().is_some() && self.drive().unwrap().data.is_cd
    }

    pub open spec fn with_regs(self, regs: ChannelRegs) -> IdeWorld {
        IdeWorld { regs, ..self }
    }

    pub open spec fn with_buffer(self, buffer: Seq<u8>) -> IdeWorld {
        IdeWorld { buffer, ..self }
    }

    /// An interrupt was raised; it reaches the line unless interrupts are disabled.
    #[verifier::opaque]
    pub open spec fn raised(self) -> IdeWorld {
        IdeWorld {
            regs: self.regs.interrupting(),
            irq: if self.regs.device_control.interrupt_disabled {
                self.irq
            } else {
                self.line.pulsed(self.irq)
            },
            ..self
        }
    }

    /// The transfer of a command ended well: what both directions of DMA leave behind.
    pub open spec fn transferred(self) -> IdeWorld {
        self.with_regs(self.regs.transferred()).raised()
    }

    /// Whether a waiting transfer is started now.
    pub open spec fn dma_runs(&self) -> bool {
        &&& self.regs.dma_status.is_some()
        &&& self.regs.dma_status.unwrap().start
        &&& self.dma.is_some()
    }

    /// The waiting transfer can be carried out, if it is started now.
    #[verifier::opaque]
    pub open spec fn dma_ok(&self) -> bool {
        self.dma_runs() ==> {
            &&& self.drive().is_some()
            &&& match self.dma.unwrap() {
                PendingDma::Read { start, len } => {
                    &&& start + len <= self.drive().unwrap().data.bytes.len()
                    &&& scatter_ok(
                        self.mem,
                        self.regs.prd_addr as int,
                        self.drive().unwrap().data.bytes.subrange(start as int, start + len),
                    )
                },
                PendingDma::Write { start, len } => {
                    &&& start + len <= u64::MAX
                    &&& gather_ok(
                        self.mem,
                        self.regs.prd_addr as int,
                        self.drive().unwrap().data.bytes,
                        start as int,
                        start + len,
                    )
                },
                PendingDma::FromBuffer { buf } => scatter_ok(
                    self.mem,
                    self.regs.prd_addr as int,
                    buf,
                ),
            }
        }
    }

    /// The waiting transfer was carried out, if it was started.
    #[verifier::opaque]
    pub open spec fn dma_done(self) -> IdeWorld {
        if !self.dma_runs() {
            self
        } else {
            let idle = IdeWorld {
                regs: ChannelRegs { dma_status: None, ..self.regs },
                dma: None,
                ..self
            };
            let drive = self.drive().unwrap();
            let table = self.regs.prd_addr as int;
            match self.dma.unwrap() {
                PendingDma::Read { start, len } => IdeWorld {
                    mem: scattered(
                        self.mem,
                        table,
                        drive.data.bytes.subrange(start as int, start + len),
                    ),
                    ..idle
                },
                PendingDma::Write { start, len } => idle.with_drive(
                    DriveModel {
                        data: DiskModel {
                            bytes: gathered(
                                self.mem,
                                table,
                                drive.data.bytes,
                                start as int,
                                start + len,
                            ),
                            ..drive.data
                        },
                        ..drive
                    },
                ),
                PendingDma::FromBuffer { buf } => IdeWorld {
                    mem: scattered(self.mem, table, buf),
                    ..idle
                },
            }.transferred()
        }
    }

    /// A packet command answers with `buf`: the state before it is handed over.
    pub open spec fn answering(self, buf: Seq<u8>) -> IdeWorld {
        self.with_regs(self.regs.answering(buf.len() as int))
    }

    #[verifier::opaque]
    pub open spec fn answer_ok(&self, buf: Seq<u8>) -> bool {
        self.regs.packet_responses_via_dma ==> IdeWorld {
            dma: Some(PendingDma::FromBuffer { buf }),
            ..self.answering(buf)
        }.dma_ok()
    }

    /// A packet command has answered with `buf`, through DMA or through the buffer.
    #[verifier::opaque]
    pub open spec fn answered(self, buf: Seq<u8>) -> IdeWorld {
        let w = self.answering(buf);
        if self.regs.packet_responses_via_dma {
            let done = IdeWorld { dma: Some(PendingDma::FromBuffer { buf }), ..w }.dma_done();
            done.with_regs(ChannelRegs { sector_count: 3, ..done.regs })
        } else {
            w.with_regs(w.regs.answered_in_buffer()).with_buffer(w.buffer + buf).raised()
        }
    }

    /// A packet command failed.
    pub open spec fn refused(self) -> IdeWorld {
        self.with_regs(self.regs.refused()).raised()
    }

    /// A packet command ended without an answer.
    pub open spec fn finished(self) -> IdeWorld {
        self.with_regs(self.regs.finished())
    }

    /// The sense data was handed out.
    pub open spec fn sense_reported(self) -> IdeWorld {
        self.with_regs(self.regs.sense_reported())
    }

    /// The length of the disk in use, 0 if there is none.
    pub open spec fn disk_len(&self) -> int {
        match self.drive() {
            Some(d) => d.data.bytes.len() as int,
            None => 0,
        }
    }

    /// The part of the disk that a read packet asks for.
    pub open spec fn read_data(&self, lba: u32, transfer_length: u32) -> Seq<u8> {
        self.drive().unwrap().data.bytes.subrange(
            lba * 2048,
            lba * 2048 + transfer_length * 2048,
        )
    }

    /// The packet is one that can be carried out.
    #[verifier::opaque]
    pub open spec fn packet_ok(&self, packet: AtapiPacket) -> bool {
        match packet {
            AtapiPacket::TestUnitReady { .. } => self.drive().is_some(),
            AtapiPacket::Inquiry { allocation_length, .. } => self.answer_ok(
                cropped(inquiry_data(), allocation_length as int),
            ),
            AtapiPacket::ModeSense { pc, page_code, allocation_length, .. } => match mode_page(
                pc,
                page_code,
            ) {
                Some(page) => self.answer_ok(cropped(page, allocation_length as int)),
                None => true,
            },
            AtapiPacket::RequestSense { allocation_length, .. } => self.sense_reported().answer_ok(
                cropped(sense_data(self.regs.sense), allocation_length as int),
            ),
            AtapiPacket::ReadToc { msf, format, starting_track, allocation_length, .. } => {
                &&& format <= 2
                &&& format == 0 ==> toc_start_valid(starting_track)
                &&& self.disk_len() <= u32::MAX
                &&& msf && format != 1 ==> self.disk_len() + 150 <= u32::MAX
                &&& self.answer_ok(
                    cropped(
                        simple_toc(msf, format, starting_track, self.disk_len() as u32),
                        allocation_length as int,
                    ),
                )
            },
            AtapiPacket::Read { lba, transfer_length } => {
                &&& self.drive().is_some()
                &&& lba * 2048 + transfer_length * 2048 <= self.disk_len()
                &&& self.answer_ok(self.read_data(lba, transfer_length))
            },
            AtapiPacket::ReadSubchannel { sub_q, data_format, allocation_length, .. } => {
                let answer = cropped(
                    subchannel_data(sub_q, data_format),
                    allocation_length as int,
                );
                if sub_q && data_format != 2 && data_format != 3 {
                    self.refused().answer_ok(answer)
                } else {
                    self.answer_ok(answer)
                }
            },
            AtapiPacket::ReadCdromCapacity => {
                &&& self.drive().is_some()
                &&& self.disk_len() >= 2048
                &&& self.answer_ok(capacity_data(self.disk_len()))
            },
            AtapiPacket::GetEventStatusNotification { polled, request, allocation_length } => polled
                ==> self.answer_ok(cropped(event_data(request), allocation_length as int)),
            AtapiPacket::StartStopUnit { .. } => true,
            AtapiPacket::ReadDiscInfo => true,
            AtapiPacket::EjectLock => true,
            AtapiPacket::MechanismStatus => false,
            AtapiPacket::ReadCd => false,
            AtapiPacket::Seek => false,
        }
    }

    /// The packet was carried out.
    #[verifier::opaque]
    pub open spec fn packet_done(self, packet: AtapiPacket) -> IdeWorld {
        match packet {
            AtapiPacket::TestUnitReady { .. } => self.finished().raised(),
            AtapiPacket::Inquiry { allocation_length, .. } => self.answered(
                cropped(inquiry_data(), allocation_length as int),
            ),
            AtapiPacket::ModeSense { pc, page_code, allocation_length, .. } => match mode_page(
                pc,
                page_code,
            ) {
                Some(page) => self.answered(cropped(page, allocation_length as int)),
                None => self.refused(),
            },
            AtapiPacket::RequestSense { allocation_length, .. } => self.sense_reported().answered(
                cropped(sense_data(self.regs.sense), allocation_length as int),
            ),
            AtapiPacket::ReadToc { msf, format, starting_track, allocation_length, .. } =>
                self.answered(
                cropped(
                    simple_toc(msf, format, starting_track, self.disk_len() as u32),
                    allocation_length as int,
                ),
            ),
            AtapiPacket::Read { lba, transfer_length } => self.answered(
                self.read_data(lba, transfer_length),
            ),
            AtapiPacket::ReadSubchannel { sub_q, data_format, allocation_length, .. } => {
                let answer = cropped(
                    subchannel_data(sub_q, data_format),
                    allocation_length as int,
                );
                if sub_q && data_format != 2 && data_format != 3 {
                    self.refused().answered(answer)
                } else {
                    self.answered(answer)
                }
            },
            AtapiPacket::ReadCdromCapacity => self.answered(capacity_data(self.disk_len())),
            AtapiPacket::GetEventStatusNotification { polled, request, allocation_length } =>
                if polled {
                self.answered(cropped(event_data(request), allocation_length as int))
            } else {
                self.refused()
            },
            AtapiPacket::ReadDiscInfo => self.refused(),
            _ => self.finished(),
        }
    }

    /// The sector in the buffer can be written to the disk.
    pub open spec fn sector_ok(&self) -> bool {
        let drive = self.drive().unwrap();
        let addr = self.regs.block_addr();
        &&& self.drive().is_some()
        &&& addr.valid()
        &&& addr.byte_offset(drive.geometry) + 512 <= drive.data.bytes.len()
        &&& addr.has_next(drive.geometry)
        &&& ChannelRegs::addr_fits(addr.next(drive.geometry))
    }

    /// The sector in `sector` was written to the disk, and the address moved on.
    #[verifier::opaque]
    pub open spec fn sector_written(self, sector: Seq<u8>) -> IdeWorld {
        let drive = self.drive().unwrap();
        let addr = self.regs.block_addr();
        let w = self.with_drive(
            DriveModel {
                data: DiskModel {
                    bytes: overwrite(
                        drive.data.bytes,
                        addr.byte_offset(drive.geometry),
                        sector,
                    ),
                    ..drive.data
                },
                ..drive
            },
        );
        let r = w.with_regs(w.regs.sector_moved(addr.next(drive.geometry))).with_buffer(
            Seq::empty(),
        ).raised();
        r.with_regs(r.regs.sector_counted())
    }

    /// The data register can take the value.
    #[verifier::opaque]
    pub open spec fn data_ok(&self, val: PortValue) -> bool {
        let w = self.with_buffer(self.buffer + val.bytes());
        if self.regs.num_pending_sector_writes > 0 {
            w.buffer.len() == 512 ==> w.sector_ok()
        } else if self.regs.pending_command.is_some() && w.buffer.len() >= 12 {
            let rest = w.with_buffer(w.buffer.skip(12));
            packet_of(w.buffer.take(12)) matches Ok(packet) ==> rest.packet_ok(packet)
        } else {
            true
        }
    }

    /// `val` was written to the data register.
    #[verifier::opaque]
    pub open spec fn data_written(self, val: PortValue) -> IdeWorld {
        let w = self.with_buffer(self.buffer + val.bytes());
        if self.regs.num_pending_sector_writes > 0 {
            if w.buffer.len() == 512 {
                w.sector_written(w.buffer)
            } else {
                w
            }
        } else if self.regs.pending_command.is_some() {
            if w.buffer.len() >= 12 {
                let rest = w.with_buffer(w.buffer.skip(12));
                match packet_of(w.buffer.take(12)) {
                    Ok(packet) => rest.packet_done(packet),
                    Err(_) => rest,
                }
            } else {
                w
            }
        } else {
            self
        }
    }

    /// The range of the disk that a command on sectors works on.
    pub open spec fn command_start(&self) -> int {
        self.regs.block_addr().byte_offset(self.drive().unwrap().geometry)
    }

    pub open spec fn command_len(&self) -> int {
        self.regs.sector_total() * 512
    }

    pub open spec fn command_in_range(&self) -> bool {
        self.command_start() + self.command_len() <= self.drive().unwrap().data.bytes.len()
    }

    /// The drive's identity is in the buffer.
    pub open spec fn identified(self) -> IdeWorld {
        self.with_regs(self.regs.identified()).with_buffer(
            self.drive().unwrap().identity().bytes(),
        ).raised()
    }

    /// The command can be carried out.
    #[verifier::opaque]
    pub open spec fn command_ok(&self, val: u8) -> bool {
        &&& self.drive().is_some()
        &&& if val == 0xEC {
            self.cd() || self.drive().unwrap().identifiable()
        } else if val == 0xA0 {
            self.regs.features / 2 % 2 == 0
        } else if val == 0xA1 {
            self.cd() ==> self.drive().unwrap().identifiable()
        } else if is_read(val) {
            self.cd() || self.regs.block_addr().valid()
        } else if is_dma_read(val) || is_dma_write(val) {
            self.regs.block_addr().valid()
        } else {
            true
        }
    }

    /// The command was carried out.
    #[verifier::opaque]
    pub open spec fn command_done(self, val: u8) -> IdeWorld {
        let w = self.with_regs(self.regs.command_started());
        if val == 0xEC {
            if self.cd() {
                w.with_regs(w.regs.cd_signed().aborted()).raised()
            } else {
                w.identified()
            }
        } else if val == 0xA0 {
            w.with_regs(w.regs.packet_started()).with_buffer(Seq::empty())
        } else if val == 0xA1 {
            if self.cd() {
                w.with_regs(ChannelRegs { sector_count: 2, ..w.regs }).identified()
            } else {
                w.with_regs(w.regs.not_supported())
            }
        } else if val == 0x08 {
            if self.cd() {
                w.with_regs(w.regs.cd_reset()).with_buffer(Seq::empty())
            } else {
                w.with_regs(w.regs.not_supported())
            }
        } else if val == 0x10 {
            w.with_regs(w.regs.calibrated()).raised()
        } else if val == 0xEF || val == 0x50 {
            // Set features; format track
            w.with_regs(w.regs.accepted()).raised()
        } else if val == 0x70 {
            w.with_regs(w.regs.sought()).raised()
        } else if val == 0x30 || val == 0xC5 {
            w.with_regs(w.regs.awaiting_sectors())
        } else if is_read(val) {
            w.sectors_read(val != 0x40)
        } else if is_dma_read(val) {
            w.dma_requested(false)
        } else if is_dma_write(val) {
            w.dma_requested(true)
        } else if val == 0x91 {
            let drive = self.drive().unwrap();
            let v = w.with_drive(
                DriveModel {
                    geometry: Geometry {
                        sectors_per_track: self.regs.sector_count as u16,
                        head_count: (self.regs.drive_and_head.hs_spec() + 1) as u16,
                        ..drive.geometry
                    },
                    ..drive
                },
            );
            v.with_regs(v.regs.acknowledged()).raised()
        } else if is_acknowledged(val) {
            w.with_regs(w.regs.acknowledged()).raised()
        } else {
            w
        }
    }

    /// Sectors were read into the buffer, or only verified; a CD drive aborts the command.
    pub open spec fn sectors_read(self, buffered: bool) -> IdeWorld {
        if self.cd() {
            self.with_regs(self.regs.aborted()).raised()
        } else if !self.command_in_range() {
            self.with_regs(self.regs.out_of_range()).raised()
        } else if buffered {
            self.with_regs(self.regs.sectors_read(true)).with_buffer(
                self.drive().unwrap().data.bytes.subrange(
                    self.command_start(),
                    self.command_start() + self.command_len(),
                ),
            ).raised()
        } else {
            self.with_regs(self.regs.sectors_read(false)).raised()
        }
    }

    /// A transfer of sectors waits for the bus master.
    pub open spec fn dma_requested(self, write: bool) -> IdeWorld {
        let start = self.command_start() as u64;
        let len = self.command_len() as u64;
        if !self.command_in_range() {
            self.with_regs(self.regs.out_of_range())
        } else if write {
            IdeWorld { dma: Some(PendingDma::Write { start, len }), ..self }
        } else {
            IdeWorld { dma: Some(PendingDma::Read { start, len }), ..self }
        }
    }

    /// The drive/head register was written.
    pub open spec fn selected(self, val: u8) -> IdeWorld {
        let w = self.with_regs(
            ChannelRegs { drive_and_head: DriveHeadVal { value: val }, ..self.regs },
        );
        self.with_regs(self.regs.selected(val, w.drive().is_some()))
    }

    /// A write to a register can be carried out.
    pub open spec fn write_ok(&self, addr: u8, val: PortValue) -> bool {
        &&& addr < 8
        &&& addr == 0 ==> self.data_ok(val)
        &&& addr == 7 && self.drive().is_some() ==> self.command_ok(val.low8())
    }

    /// `val` was written to register `addr`; the address registers take bytes only.
    pub open spec fn written(self, addr: u8, val: PortValue) -> IdeWorld {
        let byte = val.low8();
        let accepted = val.width == crate::hw::ports::PortWidth::Byte;
        if addr == 0 {
            self.data_written(val)
        } else if addr == 1 {
            IdeWorld { regs: ChannelRegs { features: byte, ..self.regs }, ..self }
        } else if addr == 2 {
            self.with_regs(ChannelRegs { sector_count: byte, ..self.regs })
        } else if addr == 3 && accepted {
            IdeWorld { regs: ChannelRegs { block_addr0: byte, ..self.regs }, ..self }
        } else if addr == 4 && accepted {
            IdeWorld { regs: ChannelRegs { block_addr1: byte, ..self.regs }, ..self }
        } else if addr == 5 && accepted {
            IdeWorld { regs: ChannelRegs { block_addr2: byte, ..self.regs }, ..self }
        } else if addr == 6 {
            self.selected(byte)
        } else if addr == 7 {
            if self.drive().is_some() {
                self.command_done(byte)
            } else {
                self.with_regs(self.regs.without_drive())
            }
        } else {
            self
        }
    }

    /// The device control register was written.
    pub open spec fn control_written(self, val: u8) -> IdeWorld {
        self.with_regs(self.regs.control_written(val, self.drive().is_some(), self.cd()))
    }

    /// The command register of the bus master was written.
    pub open spec fn with_dma_status(self, val: u8) -> IdeWorld {
        self.with_regs(
            ChannelRegs { dma_status: Some(DmaCommand::of_value(val)), ..self.regs },
        )
    }

    /// `val` was written to register `addr` of the bus master.
    pub open spec fn busmaster_written(self, addr: u8, val: PortValue) -> IdeWorld {
        if addr == 0 {
            self.with_dma_status(val.low8()).dma_done()
        } else if addr == 2 && val.low8() / 4 % 2 == 1 {
            self.with_regs(
                ChannelRegs {
                    busmaster_status: BusmasterPrimaryStatus {
                        interrupt_ready: false,
                        ..self.regs.busmaster_status
                    },
                    ..self.regs
                },
            )
        } else if addr == 4 {
            self.with_regs(ChannelRegs { prd_addr: val.value, ..self.regs })
        } else {
            self
        }
    }

    /// `size` bytes of the data register were read.
    #[verifier::opaque]
    pub open spec fn data_read(self, size: int) -> IdeWorld {
        let rest = if size < self.buffer.len() {
            self.buffer.skip(size)
        } else {
            Seq::empty()
        };
        let left = rest.len() as int;
        let w = self.with_buffer(rest).with_regs(self.regs.popped(left, self.cd()));
        if self.regs.reading_atapi_packet {
            if left == 0 {
                let r = w.with_regs(w.regs.answer_read(size)).raised();
                r.with_regs(ChannelRegs { reading_atapi_packet: false, ..r.regs })
            } else if self.regs.atapi_byte_index + size >= self.regs.atapi_byte_block_size {
                w.with_regs(w.regs.block_read(left)).raised()
            } else {
                w.with_regs(
                    ChannelRegs {
                        atapi_byte_index: (self.regs.atapi_byte_index + size) as u16,
                        ..w.regs
                    },
                )
            }
        } else if left > 0 && left % 512 == 0 {
            w.raised()
        } else {
            w
        }
    }
}

/// The byte that is `i` places behind the front of a buffer.
pub open spec fn peek(buffer: Seq<u8>, i: int) -> int {
    if i < buffer.len() {
        buffer[i] as int
    } else {
        0xff
    }
}

/// The little-endian value of `size` bytes at the front of a buffer.
pub open spec fn buffer_value(buffer: Seq<u8>, size: int) -> int {
    if size == 1 {
        peek(buffer, 0)
    } else if size == 2 {
        peek(buffer, 0) + 0x100 * peek(buffer, 1)
    } else {
        peek(buffer, 0) + 0x100 * peek(buffer, 1) + 0x1_0000 * peek(buffer, 2) + 0x100_0000 * peek(
            buffer,
            3,
        )
    }
}

pub open spec fn is_read(val: u8) -> bool {
    val == 0x20 || val == 0x40 || val == 0xC4
}

/// Standby, idle, cache flushes and the security freeze lock.
pub open spec fn is_acknowledged(val: u8) -> bool {
    val == 0x94 || val == 0x95 || val == 0xE0 || val == 0xE1 || val == 0xE7 || val == 0xEA || val
        == 0xF5
}

pub open spec fn is_dma_read(val: u8) -> bool {
    val == 0x25 || val == 0xC8 || val == 0xC9
}

pub open spec fn is_dma_write(val: u8) -> bool {
    val == 0x35 || val == 0xCA || val == 0xCB
}

} // verus!
