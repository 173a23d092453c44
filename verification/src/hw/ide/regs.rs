//! The registers of an IDE channel.
use vstd::prelude::*;

use crate::bytes::{bit_at, from_le16, from_le32, get_le16, get_le32, weigh8, weight};
use crate::hw::ide::atapi::{AtapiInterruptReason, Direction, Phase};
use crate::hw::ide::drive::BlockAddr;

verus! {

/// The byte with the given bits, the lowest first.
pub open spec fn byte_of(
    b0: bool,
    b1: bool,
    b2: bool,
    b3: bool,
    b4: bool,
    b5: bool,
    b6: bool,
    b7: bool,
) -> int {
    weight(b0, 1) + weight(b1, 2) + weight(b2, 4) + weight(b3, 8) + weight(b4, 0x10) + weight(
        b5,
        0x20,
    ) + weight(b6, 0x40) + weight(b7, 0x80)
}

fn to_byte(
    b0: bool,
    b1: bool,
    b2: bool,
    b3: bool,
    b4: bool,
    b5: bool,
    b6: bool,
    b7: bool,
) -> (r: u8)
    ensures
        r == byte_of(b0, b1, b2, b3, b4, b5, b6, b7),
{
    weigh8(b0, 1) + weigh8(b1, 2) + weigh8(b2, 4) + weigh8(b3, 8) + weigh8(b4, 0x10) + weigh8(
        b5,
        0x20,
    ) + weigh8(b6, 0x40) + weigh8(b7, 0x80)
}

#[derive(Copy, Clone, Debug, PartialEq, Eq, Structural)]
pub struct Status {
    /// Indicates whether an error occurred during the execution of the last command.
    pub err: bool,
    /// Set once per disk revolution.
    pub idx: bool,
    /// When true, a correctable data error was encountered and corrected.
    pub corr: bool,
    /// DRQ: Indicates that the drive is ready to transfer a word or byte.
    pub ready_to_transmit: bool,
    /// Indicates whether the drive heads are settled over a track.
    /// Should always be true unless the drive is seeking.
    pub drive_seek_complete: bool,
    /// Indicates whether an error occurred while writing to the drive.
    pub drive_write_fault: bool,
    /// When true, the drive is capable of responding to a command.
    pub drive_ready: bool,
    /// When true, the CPU should not access the command block registers.
    /// When true, reading any of the command block registers should return the status register.
    pub busy: bool,
}

impl Status {
    pub open spec fn default_spec() -> Status {
        Status {
            err: false,
            idx: false,
            corr: false,
            ready_to_transmit: false,
            drive_seek_complete: true,
            drive_write_fault: false,
            drive_ready: false,
            busy: true,
        }
    }

    pub open spec fn value_spec(&self) -> int {
        byte_of(
            self.err,
            self.idx,
            self.corr,
            self.ready_to_transmit,
            self.drive_seek_complete,
            self.drive_write_fault,
            self.drive_ready,
            self.busy,
        )
    }

    pub fn value(&self) -> (r: u8)
        ensures
            r == self.value_spec(),
    {
        to_byte(
            self.err,
            self.idx,
            self.corr,
            self.ready_to_transmit,
            self.drive_seek_complete,
            self.drive_write_fault,
            self.drive_ready,
            self.busy,
        )
    }
}

impl Default for Status {
    fn default() -> (r: Self)
        ensures
            r == Self::default_spec(),
    {
        Status {
            err: false,
            idx: false,
            corr: false,
            ready_to_transmit: false,
            drive_seek_complete: true,
            drive_write_fault: false,
            drive_ready: false,
            busy: true,
        }
    }
}

#[derive(Copy, Clone, Debug, PartialEq, Eq, Structural)]
pub struct DeviceControl {
    pub interrupt_disabled: bool,
    pub software_reset: bool,
}

impl DeviceControl {
    pub open spec fn of_value(value: u8) -> DeviceControl {
        DeviceControl {
            interrupt_disabled: bit_at(value as int, 2),
            software_reset: bit_at(value as int, 4),
        }
    }

    pub fn from_value(value: u8) -> (r: Self)
        ensures
            r == Self::of_value(value),
    {
        DeviceControl {
            interrupt_disabled: value / 2 % 2 == 1,
            software_reset: value / 4 % 2 == 1,
        }
    }
}

/// The drive/head register.
#[derive(Copy, Clone, Debug, PartialEq, Eq, Structural)]
pub struct DriveHeadVal {
    pub value: u8,
}

impl DriveHeadVal {
    /// The head, or bits 24 to 27 of a linear address.
    pub open spec fn hs_spec(&self) -> int {
        self.value as int % 16
    }

    pub open spec fn second_drive_spec(&self) -> bool {
        bit_at(self.value as int, 0x10)
    }

    pub open spec fn use_lba_spec(&self) -> bool {
        bit_at(self.value as int, 0x40)
    }

    pub open spec fn with_hs(self, hs: int) -> DriveHeadVal {
        DriveHeadVal { value: (self.value / 16 * 16 + hs) as u8 }
    }

    pub fn hs(&self) -> (r: u8)
        ensures
            r == self.hs_spec(),
            r < 16,
    {
        self.value % 16
    }

    pub fn second_drive(&self) -> (r: bool)
        ensures
            r == self.second_drive_spec(),
    {
        self.value / 0x10 % 2 == 1
    }

    pub fn use_lba(&self) -> (r: bool)
        ensures
            r == self.use_lba_spec(),
    {
        self.value / 0x40 % 2 == 1
    }

    pub fn set_hs(&mut self, hs: u8)
        requires
            hs < 16,
        ensures
            *final(self) == old(self).with_hs(hs as int),
            final(self).hs_spec() == hs,
            final(self).second_drive_spec() == old(self).second_drive_spec(),
            final(self).use_lba_spec() == old(self).use_lba_spec(),
    {
        self.value = self.value / 16 * 16 + hs;
    }
}

#[derive(Copy, Clone, Debug, PartialEq, Eq, Structural)]
pub struct Error {
    pub address_mark_not_found: bool,
    pub track_0_not_found: bool,
    pub command_aborted: bool,
    pub media_change_requested: bool,
    pub id_not_found: bool,
    pub media_changed: bool,
    pub uncorrectable_data_error: bool,
    pub bad_block_detected: bool,
}

impl Error {
    pub open spec fn none_spec() -> Error {
        Error {
            address_mark_not_found: false,
            track_0_not_found: false,
            command_aborted: false,
            media_change_requested: false,
            id_not_found: false,
            media_changed: false,
            uncorrectable_data_error: false,
            bad_block_detected: false,
        }
    }

    pub fn none() -> (r: Self)
        ensures
            r == Self::none_spec(),
    {
        Error {
            address_mark_not_found: false,
            track_0_not_found: false,
            command_aborted: false,
            media_change_requested: false,
            id_not_found: false,
            media_changed: false,
            uncorrectable_data_error: false,
            bad_block_detected: false,
        }
    }

    pub open spec fn value_spec(&self) -> int {
        byte_of(
            self.address_mark_not_found,
            self.track_0_not_found,
            self.command_aborted,
            self.media_change_requested,
            self.id_not_found,
            self.media_changed,
            self.uncorrectable_data_error,
            self.bad_block_detected,
        )
    }

    pub fn value(&self) -> (r: u8)
        ensures
            r == self.value_spec(),
    {
        to_byte(
            self.address_mark_not_found,
            self.track_0_not_found,
            self.command_aborted,
            self.media_change_requested,
            self.id_not_found,
            self.media_changed,
            self.uncorrectable_data_error,
            self.bad_block_detected,
        )
    }
}

impl Default for Error {
    fn default() -> (r: Self)
        ensures
            r == Self::none_spec(),
    {
        Self::none()
    }
}

#[derive(Copy, Clone, Debug, PartialEq, Eq, Structural)]
pub struct BusmasterPrimaryStatus {
    /// True when an operation is in progress.
    pub active: bool,
    /// True when an error occurred.
    pub error: bool,
    /// True when an interrupt is pending. Write 1 to this field to reset the interrupt.
    pub interrupt_ready: bool,
}

impl BusmasterPrimaryStatus {
    pub open spec fn value_spec(&self) -> int {
        weight(self.active, 1) + weight(self.error, 2) + weight(self.interrupt_ready, 4)
    }

    pub fn value(&self) -> (r: u8)
        ensures
            r == self.value_spec(),
    {
        weigh8(self.active, 1) + weigh8(self.error, 2) + weigh8(self.interrupt_ready, 4)
    }
}

#[derive(Copy, Clone, Debug, PartialEq, Eq, Structural)]
pub enum PendingCommand {
    Packet,
}

#[derive(Copy, Clone, Debug, PartialEq, Eq, Structural)]
pub struct DmaCommand {
    pub start: bool,
    pub write: bool,
}

impl DmaCommand {
    pub open spec fn of_value(value: u8) -> DmaCommand {
        DmaCommand { start: bit_at(value as int, 1), write: bit_at(value as int, 8) }
    }

    pub fn from_value(value: u8) -> (r: Self)
        ensures
            r == Self::of_value(value),
    {
        DmaCommand { start: value % 2 == 1, write: value / 8 % 2 == 1 }
    }
}

/// What a CD drive reports of its last error.
#[derive(Copy, Clone, Debug)]
pub struct Sense {
    pub sense_key: u8,
    pub information: [u8; 4],
    pub specific_information: [u8; 4],
    pub key_spec: [u8; 4],
    pub fruc: u8,
    pub asc: u8,
    pub ascq: u8,
}

impl Sense {
    /// Nothing has gone wrong.
    pub open spec fn is_clear(&self) -> bool {
        &&& self.sense_key == 0
        &&& self.fruc == 0
        &&& self.asc == 0
        &&& self.ascq == 0
        &&& forall|i: int|
            0 <= i < 4 ==> #[trigger] self.information@[i] == 0
                && #[trigger] self.specific_information@[i] == 0 && #[trigger] self.key_spec@[i]
                == 0
    }
}

impl Default for Sense {
    fn default() -> (r: Self)
        ensures
            r.is_clear(),
    {
        Sense {
            sense_key: 0,
            information: [0, 0, 0, 0],
            specific_information: [0, 0, 0, 0],
            key_spec: [0, 0, 0, 0],
            fruc: 0,
            asc: 0,
            ascq: 0,
        }
    }
}

/// One entry of the table of memory areas that a DMA transfer runs through.
#[derive(Copy, Clone, Debug, PartialEq, Eq, Structural)]
pub struct Prd {
    pub addr: u32,
    pub size: u16,
    pub jmp: bool,
    pub eop: bool,
    pub eot: bool,
}

impl Prd {
    /// The entry in the eight bytes at the front of `s`.
    pub open spec fn of_bytes(s: Seq<u8>) -> Prd {
        Prd {
            addr: from_le32(s) as u32,
            size: from_le16(s.skip(4)) as u16,
            jmp: bit_at(s[7] as int, 0x20),
            eop: bit_at(s[7] as int, 0x40),
            eot: bit_at(s[7] as int, 0x80),
        }
    }

    pub fn from_bytes(bytes: &[u8]) -> (r: Self)
        requires
            bytes@.len() == 8,
        ensures
            r == Self::of_bytes(bytes@),
    {
        assert(bytes@.skip(0) =~= bytes@);
        Prd {
            addr: get_le32(bytes, 0),
            size: get_le16(bytes, 4),
            jmp: bytes[7] / 0x20 % 2 == 1,
            eop: bytes[7] / 0x40 % 2 == 1,
            eot: bytes[7] / 0x80 % 2 == 1,
        }
    }

    /// A size of 0 stands for 64 KiB.
    pub open spec fn computed_size_spec(&self) -> int {
        if self.size == 0 {
            0x1_0000
        } else {
            self.size as int
        }
    }

    pub fn computed_size(&self) -> (r: usize)
        ensures
            r == self.computed_size_spec(),
    {
        if self.size == 0 {
            0x1_0000
        } else {
            self.size as usize
        }
    }
}

/// The registers of a channel.
#[derive(Copy, Clone, Debug)]
pub struct ChannelRegs {
    /// In CHS mode: the sector number.
    pub block_addr0: u8,
    /// In CHS mode: the low byte of the cylinder.
    pub block_addr1: u8,
    /// In CHS mode: the high byte of the cylinder.
    pub block_addr2: u8,
    pub drive_and_head: DriveHeadVal,
    pub features: u8,
    pub sector_count: u8,
    pub error: Error,
    pub reading_atapi_packet: bool,
    pub status: Status,
    pub device_control: DeviceControl,
    pub num_pending_sector_writes: usize,
    pub prd_addr: u32,
    pub busmaster_status: BusmasterPrimaryStatus,
    pub pending_command: Option<PendingCommand>,
    pub packet_responses_via_dma: bool,
    pub dma_status: Option<DmaCommand>,
    pub sense: Sense,
    pub atapi_byte_index: u16,
    pub atapi_byte_block_size: u16,
}

impl ChannelRegs {
    /// The block that the address registers name.
    pub open spec fn block_addr(&self) -> BlockAddr {
        if self.drive_and_head.use_lba_spec() {
            BlockAddr::Lba(
                (self.block_addr0 + 0x100 * self.block_addr1 + 0x1_0000 * self.block_addr2
                    + 0x100_0000 * self.drive_and_head.hs_spec()) as u32,
            )
        } else {
            BlockAddr::Chs {
                sector: self.block_addr0,
                cylinder: (self.block_addr1 + 0x100 * self.block_addr2) as u16,
                head: self.drive_and_head.hs_spec() as u8,
            }
        }
    }

    pub fn current_block_addr(&self) -> (r: BlockAddr)
        ensures
            r == self.block_addr(),
    {
        if self.drive_and_head.use_lba() {
            BlockAddr::Lba(
                self.block_addr0 as u32 + 0x100 * self.block_addr1 as u32 + 0x1_0000
                    * self.block_addr2 as u32 + 0x100_0000 * self.drive_and_head.hs() as u32,
            )
        } else {
            BlockAddr::Chs {
                sector: self.block_addr0,
                cylinder: self.block_addr1 as u16 + 0x100 * self.block_addr2 as u16,
                head: self.drive_and_head.hs(),
            }
        }
    }

    /// Whether the registers can hold the address.
    pub open spec fn addr_fits(addr: BlockAddr) -> bool {
        match addr {
            BlockAddr::Lba(n) => n < 0x1000_0000,
            BlockAddr::Chs { head, .. } => head < 16,
        }
    }

    /// The registers with the address in them.
    pub open spec fn with_addr(self, addr: BlockAddr) -> ChannelRegs {
        match addr {
            BlockAddr::Lba(n) => ChannelRegs {
                block_addr0: (n % 0x100) as u8,
                block_addr1: (n / 0x100 % 0x100) as u8,
                block_addr2: (n / 0x1_0000 % 0x100) as u8,
                drive_and_head: self.drive_and_head.with_hs(n as int / 0x100_0000),
                ..self
            },
            BlockAddr::Chs { cylinder, head, sector } => ChannelRegs {
                block_addr0: sector,
                block_addr1: (cylinder % 0x100) as u8,
                block_addr2: (cylinder / 0x100) as u8,
                drive_and_head: self.drive_and_head.with_hs(head as int),
                ..self
            },
        }
    }

    pub fn set_addr(&mut self, addr: BlockAddr)
        requires
            Self::addr_fits(addr),
        ensures
            *final(self) == old(self).with_addr(addr),
    {
        match addr {
            BlockAddr::Lba(n) => {
                self.block_addr0 = (n % 0x100) as u8;
                self.block_addr1 = (n / 0x100 % 0x100) as u8;
                self.block_addr2 = (n / 0x1_0000 % 0x100) as u8;
                self.drive_and_head.set_hs((n / 0x100_0000) as u8);
            },
            BlockAddr::Chs { cylinder, head, sector } => {
                self.block_addr0 = sector;
                self.block_addr1 = (cylinder % 0x100) as u8;
                self.block_addr2 = (cylinder / 0x100) as u8;
                self.drive_and_head.set_hs(head);
            },
        }
    }

    /// The number of sectors that a command moves; 0 stands for 256.
    pub open spec fn sector_total(&self) -> int {
        if self.sector_count == 0 {
            0x100
        } else {
            self.sector_count as int
        }
    }

    pub fn num_sectors(&self) -> (r: usize)
        ensures
            r == self.sector_total(),
            r <= 0x100,
    {
        if self.sector_count == 0 {
            0x100
        } else {
            self.sector_count as usize
        }
    }

    /// The number of bytes that a packet command moves at a time.
    pub open spec fn atapi_byte_count(&self) -> int {
        self.block_addr1 + 0x100 * self.block_addr2
    }

    pub open spec fn with_atapi_byte_count(self, val: int) -> ChannelRegs {
        ChannelRegs {
            block_addr1: (val % 0x100) as u8,
            block_addr2: (val / 0x100) as u8,
            ..self
        }
    }

    pub fn get_atapi_byte_count(&self) -> (r: u16)
        ensures
            r == self.atapi_byte_count(),
    {
        self.block_addr1 as u16 + 0x100 * self.block_addr2 as u16
    }

    /// The registers with the byte count made even.
    pub open spec fn with_even_byte_count(self) -> ChannelRegs {
        if self.atapi_byte_count() % 2 == 1 {
            self.with_atapi_byte_count(self.atapi_byte_count() / 2 * 2)
        } else {
            self
        }
    }

    /// Makes the byte count even and returns it.
    pub fn round_atapi_byte_count(&mut self) -> (r: u16)
        ensures
            *final(self) == old(self).with_even_byte_count(),
            r == old(self).atapi_byte_count() / 2 * 2,
    {
        let count: u16 = self.get_atapi_byte_count();
        if count % 2 != 0 {
            self.set_atapi_byte_count(count - 1);
        }
        count / 2 * 2
    }

    pub fn set_atapi_byte_count(&mut self, val: u16)
        ensures
            *final(self) == old(self).with_atapi_byte_count(val as int),
    {
        self.block_addr1 = (val % 0x100) as u8;
        self.block_addr2 = (val / 0x100) as u8;
    }
}

impl ChannelRegs {
    /// The bus master reports an interrupt.
    #[verifier::opaque]
    pub open spec fn interrupting(self) -> ChannelRegs {
        ChannelRegs {
            busmaster_status: BusmasterPrimaryStatus {
                interrupt_ready: true,
                ..self.busmaster_status
            },
            ..self
        }
    }

    pub fn set_interrupting(&mut self)
        ensures
            *final(self) == old(self).interrupting(),
            final(self).drive_and_head == old(self).drive_and_head,
            final(self).device_control == old(self).device_control,
            final(self).features == old(self).features,
            final(self).packet_responses_via_dma == old(self).packet_responses_via_dma,
            final(self).prd_addr == old(self).prd_addr,
            final(self).dma_status == old(self).dma_status,
            final(self).num_pending_sector_writes == old(self).num_pending_sector_writes,
            final(self).block_addr0 == old(self).block_addr0,
            final(self).sector_count == old(self).sector_count,
            final(self).status == old(self).status,
            final(self).pending_command == old(self).pending_command,
    {
        proof {
            reveal(ChannelRegs::interrupting);
        }
        self.busmaster_status.interrupt_ready = true;
    }

    /// A command was aborted.
    #[verifier::opaque]
    pub open spec fn aborted(self) -> ChannelRegs {
        ChannelRegs {
            pending_command: None,
            status: Status { busy: false, drive_ready: true, err: true, ready_to_transmit: false, corr: false, ..self.status },
            error: Error { command_aborted: true, ..Error::none_spec() },
            sector_count: 3,
            ..self
        }
    }

    pub fn abort(&mut self)
        ensures
            *final(self) == old(self).aborted(),
            final(self).drive_and_head == old(self).drive_and_head,
            final(self).device_control == old(self).device_control,
            final(self).features == old(self).features,
            final(self).packet_responses_via_dma == old(self).packet_responses_via_dma,
            final(self).prd_addr == old(self).prd_addr,
            final(self).dma_status == old(self).dma_status,
            final(self).num_pending_sector_writes == old(self).num_pending_sector_writes,
            final(self).block_addr0 == old(self).block_addr0,
    {
        proof {
            reveal(ChannelRegs::aborted);
        }
        self.pending_command = None;
        self.status.busy = false;
        self.status.drive_ready = true;
        self.status.err = true;
        self.status.ready_to_transmit = false;
        self.status.corr = false;
        self.error = Error::none();
        self.error.command_aborted = true;
        self.set_interrupt_reason(Phase::Command, Direction::DeviceToHost);
    }

    /// A transfer ended well.
    #[verifier::opaque]
    pub open spec fn transferred(self) -> ChannelRegs {
        ChannelRegs {
            status: Status { ready_to_transmit: false, err: false, drive_seek_complete: true, ..self.status },
            error: Error::none_spec(),
            ..self
        }
    }

    pub fn finish_transfer(&mut self)
        ensures
            *final(self) == old(self).transferred(),
            final(self).drive_and_head == old(self).drive_and_head,
            final(self).device_control == old(self).device_control,
            final(self).features == old(self).features,
            final(self).packet_responses_via_dma == old(self).packet_responses_via_dma,
            final(self).prd_addr == old(self).prd_addr,
            final(self).dma_status == old(self).dma_status,
            final(self).num_pending_sector_writes == old(self).num_pending_sector_writes,
            final(self).block_addr0 == old(self).block_addr0,
            final(self).sector_count == old(self).sector_count,
    {
        proof {
            reveal(ChannelRegs::transferred);
        }
        self.status.ready_to_transmit = false;
        self.status.err = false;
        self.status.drive_seek_complete = true;
        self.error = Error::none();
    }

    /// A packet command is about to answer with `len` bytes.
    #[verifier::opaque]
    pub open spec fn answering(self, len: int) -> ChannelRegs {
        let count = self.atapi_byte_count() / 2 * 2;
        ChannelRegs {
            reading_atapi_packet: true,
            atapi_byte_index: 0,
            atapi_byte_block_size: (if count < len {
                count
            } else {
                len
            }) as u16,
            status: Status { busy: false, ready_to_transmit: true, err: false, ..self.status },
            sector_count: 2,
            ..self.with_even_byte_count()
        }
    }

    pub fn begin_answer(&mut self, len: usize)
        ensures
            *final(self) == old(self).answering(len as int),
            final(self).drive_and_head == old(self).drive_and_head,
            final(self).device_control == old(self).device_control,
            final(self).features == old(self).features,
            final(self).packet_responses_via_dma == old(self).packet_responses_via_dma,
            final(self).prd_addr == old(self).prd_addr,
            final(self).dma_status == old(self).dma_status,
            final(self).num_pending_sector_writes == old(self).num_pending_sector_writes,
            final(self).block_addr0 == old(self).block_addr0,
    {
        proof {
            reveal(ChannelRegs::answering);
        }
        let even: u16 = self.round_atapi_byte_count();
        self.reading_atapi_packet = true;
        self.atapi_byte_index = 0;
        self.atapi_byte_block_size = even;
        if even as usize > len {
            self.atapi_byte_block_size = len as u16;
        }
        self.status.busy = false;
        self.status.ready_to_transmit = true;
        self.status.err = false;
        self.set_interrupt_reason(Phase::Data, Direction::DeviceToHost);
    }

    /// The answer of a packet command is in the buffer.
    #[verifier::opaque]
    pub open spec fn answered_in_buffer(self) -> ChannelRegs {
        ChannelRegs {
            status: Status { drive_seek_complete: true, ..self.status },
            error: Error::none_spec(),
            ..self
        }
    }

    pub fn finish_answer(&mut self)
        ensures
            *final(self) == old(self).answered_in_buffer(),
            final(self).drive_and_head == old(self).drive_and_head,
            final(self).device_control == old(self).device_control,
            final(self).features == old(self).features,
            final(self).packet_responses_via_dma == old(self).packet_responses_via_dma,
            final(self).prd_addr == old(self).prd_addr,
            final(self).dma_status == old(self).dma_status,
            final(self).num_pending_sector_writes == old(self).num_pending_sector_writes,
            final(self).block_addr0 == old(self).block_addr0,
            final(self).sector_count == old(self).sector_count,
    {
        proof {
            reveal(ChannelRegs::answered_in_buffer);
        }
        self.status.drive_seek_complete = true;
        self.error = Error::none();
    }

    /// A packet command ended without an answer.
    #[verifier::opaque]
    pub open spec fn finished(self) -> ChannelRegs {
        ChannelRegs {
            sector_count: 3,
            status: Status { busy: false, drive_ready: true, ready_to_transmit: false, err: false, ..self.status },
            ..self
        }
    }

    pub fn finish_without_output(&mut self)
        ensures
            *final(self) == old(self).finished(),
            final(self).drive_and_head == old(self).drive_and_head,
            final(self).device_control == old(self).device_control,
            final(self).features == old(self).features,
            final(self).packet_responses_via_dma == old(self).packet_responses_via_dma,
            final(self).prd_addr == old(self).prd_addr,
            final(self).dma_status == old(self).dma_status,
            final(self).num_pending_sector_writes == old(self).num_pending_sector_writes,
            final(self).block_addr0 == old(self).block_addr0,
    {
        proof {
            reveal(ChannelRegs::finished);
        }
        self.set_interrupt_reason(Phase::Command, Direction::DeviceToHost);
        self.status.busy = false;
        self.status.drive_ready = true;
        self.status.ready_to_transmit = false;
        self.status.err = false;
    }

    /// A packet command failed: an illegal request, with an invalid field in the packet.
    #[verifier::opaque]
    pub open spec fn refused(self) -> ChannelRegs {
        ChannelRegs {
            sector_count: 3,
            sense: Sense { sense_key: 5, asc: 0x24, ascq: 0, ..self.sense },
            error: Error {
                id_not_found: true,
                media_changed: false,
                uncorrectable_data_error: true,
                bad_block_detected: false,
                ..self.error
            },
            status: Status { busy: false, drive_ready: true, ready_to_transmit: false, drive_write_fault: false, err: true, ..self.status },
            ..self
        }
    }

    pub fn finish_with_error(&mut self)
        ensures
            *final(self) == old(self).refused(),
            final(self).drive_and_head == old(self).drive_and_head,
            final(self).device_control == old(self).device_control,
            final(self).features == old(self).features,
            final(self).packet_responses_via_dma == old(self).packet_responses_via_dma,
            final(self).prd_addr == old(self).prd_addr,
            final(self).dma_status == old(self).dma_status,
            final(self).num_pending_sector_writes == old(self).num_pending_sector_writes,
            final(self).block_addr0 == old(self).block_addr0,
    {
        proof {
            reveal(ChannelRegs::refused);
        }
        self.set_interrupt_reason(Phase::Command, Direction::DeviceToHost);
        self.sense.sense_key = 5;
        self.sense.asc = 0x24;
        self.sense.ascq = 0;
        // The upper half of the error register repeats the sense key.
        self.error.id_not_found = true;
        self.error.media_changed = false;
        self.error.uncorrectable_data_error = true;
        self.error.bad_block_detected = false;
        self.status.busy = false;
        self.status.drive_ready = true;
        self.status.ready_to_transmit = false;
        self.status.drive_write_fault = false;
        self.status.err = true;
    }

    /// The sense data was handed out: a unit attention is reported once.
    #[verifier::opaque]
    pub open spec fn sense_reported(self) -> ChannelRegs {
        ChannelRegs {
            sense: Sense {
                sense_key: if self.sense.sense_key == 6 {
                    0
                } else {
                    self.sense.sense_key
                },
                ..self.sense
            },
            ..self
        }
    }

    pub fn report_sense(&mut self)
        ensures
            *final(self) == old(self).sense_reported(),
            final(self).drive_and_head == old(self).drive_and_head,
            final(self).device_control == old(self).device_control,
            final(self).features == old(self).features,
            final(self).packet_responses_via_dma == old(self).packet_responses_via_dma,
            final(self).prd_addr == old(self).prd_addr,
            final(self).dma_status == old(self).dma_status,
            final(self).num_pending_sector_writes == old(self).num_pending_sector_writes,
            final(self).block_addr0 == old(self).block_addr0,
            final(self).sector_count == old(self).sector_count,
    {
        proof {
            reveal(ChannelRegs::sense_reported);
        }
        if self.sense.sense_key == 6 {
            self.sense.sense_key = 0;
        }
    }

    /// A sector was written, and the address moved on.
    #[verifier::opaque]
    pub open spec fn sector_moved(self, addr: BlockAddr) -> ChannelRegs {
        ChannelRegs {
            status: Status { err: false, ..self.status },
            ..self.with_addr(addr)
        }
    }

    pub fn move_to(&mut self, addr: BlockAddr)
        requires
            Self::addr_fits(addr),
        ensures
            *final(self) == old(self).sector_moved(addr),
            final(self).device_control == old(self).device_control,
            final(self).num_pending_sector_writes == old(self).num_pending_sector_writes,
    {
        proof {
            reveal(ChannelRegs::sector_moved);
        }
        self.set_addr(addr);
        self.status.err = false;
    }

    /// One sector fewer is to be written.
    #[verifier::opaque]
    pub open spec fn sector_counted(self) -> ChannelRegs {
        ChannelRegs {
            num_pending_sector_writes: (self.num_pending_sector_writes - 1) as usize,
            status: Status {
                ready_to_transmit: self.num_pending_sector_writes > 1,
                ..self.status
            },
            ..self
        }
    }

    pub fn count_sector(&mut self)
        requires
            old(self).num_pending_sector_writes > 0,
        ensures
            *final(self) == old(self).sector_counted(),
            final(self).device_control == old(self).device_control,
    {
        proof {
            reveal(ChannelRegs::sector_counted);
        }
        self.num_pending_sector_writes = self.num_pending_sector_writes - 1;
        self.status.ready_to_transmit = self.num_pending_sector_writes > 0;
    }

    /// The drive/head register was written.
    #[verifier::opaque]
    pub open spec fn selected(self, val: u8, has_drive: bool) -> ChannelRegs {
        ChannelRegs {
            drive_and_head: DriveHeadVal { value: val },
            status: Status { drive_ready: has_drive, busy: false, ready_to_transmit: false, ..self.status },
            ..self
        }
    }

    pub fn select(&mut self, val: u8, has_drive: bool)
        ensures
            *final(self) == old(self).selected(val, has_drive),
            final(self).device_control == old(self).device_control,
    {
        proof {
            reveal(ChannelRegs::selected);
        }
        self.drive_and_head = DriveHeadVal { value: val };
        self.status.drive_ready = has_drive;
        self.status.busy = false;
        self.status.ready_to_transmit = false;
    }

    /// The device control register was written. A software reset puts the signature of the drive
    /// into the address registers.
    #[verifier::opaque]
    pub open spec fn control_written(self, val: u8, has_drive: bool, is_cd: bool) -> ChannelRegs {
        let control = DeviceControl::of_value(val);
        if control.software_reset {
            ChannelRegs {
                device_control: control,
                status: Status {
                    drive_ready: false,
                    busy: has_drive,
                    drive_seek_complete: has_drive,
                    ..self.status
                },
                sector_count: 1,
                block_addr0: if self.drive_and_head.use_lba_spec() {
                    0
                } else {
                    1
                },
                block_addr1: if !has_drive {
                    0xff
                } else if is_cd {
                    0x14
                } else {
                    0
                },
                block_addr2: if !has_drive {
                    0xff
                } else if is_cd {
                    0xEB
                } else {
                    0
                },
                ..self
            }
        } else {
            ChannelRegs {
                device_control: control,
                status: Status {
                    busy: false,
                    drive_ready: has_drive,
                    drive_seek_complete: has_drive,
                    ..self.status
                },
                ..self
            }
        }
    }

    pub fn write_control(&mut self, val: u8, has_drive: bool, is_cd: bool)
        ensures
            *final(self) == old(self).control_written(val, has_drive, is_cd),
    {
        proof {
            reveal(ChannelRegs::control_written);
        }
        let control = DeviceControl::from_value(val);
        let mut status = self.status;
        status.drive_seek_complete = has_drive;
        status.drive_ready = has_drive && !control.software_reset;
        status.busy = has_drive && control.software_reset;
        self.device_control = control;
        self.status = status;
        if control.software_reset {
            let addr0: u8 = if self.drive_and_head.use_lba() {
                0
            } else {
                1
            };
            let signature: (u8, u8) = if !has_drive {
                (0xff, 0xff)
            } else if is_cd {
                (0x14, 0xEB)
            } else {
                (0, 0)
            };
            self.sector_count = 1;
            self.block_addr0 = addr0;
            self.block_addr1 = signature.0;
            self.block_addr2 = signature.1;
        }
    }

    /// A command starts.
    #[verifier::opaque]
    pub open spec fn command_started(self) -> ChannelRegs {
        ChannelRegs {
            status: Status { err: false, ..self.status },
            reading_atapi_packet: false,
            ..self
        }
    }

    pub fn start_command(&mut self)
        ensures
            *final(self) == old(self).command_started(),
            final(self).drive_and_head == old(self).drive_and_head,
            final(self).device_control == old(self).device_control,
            final(self).features == old(self).features,
            final(self).packet_responses_via_dma == old(self).packet_responses_via_dma,
            final(self).prd_addr == old(self).prd_addr,
            final(self).dma_status == old(self).dma_status,
            final(self).num_pending_sector_writes == old(self).num_pending_sector_writes,
            final(self).block_addr0 == old(self).block_addr0,
            final(self).sector_count == old(self).sector_count,
            final(self).block_addr1 == old(self).block_addr1,
            final(self).block_addr2 == old(self).block_addr2,
    {
        proof {
            reveal(ChannelRegs::command_started);
        }
        self.status.err = false;
        self.reading_atapi_packet = false;
    }

    /// The address registers show that this is a CD drive.
    #[verifier::opaque]
    pub open spec fn cd_signed(self) -> ChannelRegs {
        ChannelRegs { block_addr0: 0, block_addr1: 0x14, block_addr2: 0xEB, ..self }
    }

    pub fn sign_as_cd(&mut self)
        ensures
            *final(self) == old(self).cd_signed(),
            final(self).drive_and_head == old(self).drive_and_head,
            final(self).device_control == old(self).device_control,
    {
        proof {
            reveal(ChannelRegs::cd_signed);
        }
        self.block_addr0 = 0;
        self.block_addr1 = 0x14;
        self.block_addr2 = 0xEB;
    }

    /// The drive's identity is in the buffer.
    #[verifier::opaque]
    pub open spec fn identified(self) -> ChannelRegs {
        ChannelRegs {
            status: Status { ready_to_transmit: true, err: false, drive_seek_complete: true, ..self.status },
            ..self
        }
    }

    pub fn announce_identity(&mut self)
        ensures
            *final(self) == old(self).identified(),
            final(self).drive_and_head == old(self).drive_and_head,
            final(self).device_control == old(self).device_control,
            final(self).features == old(self).features,
            final(self).packet_responses_via_dma == old(self).packet_responses_via_dma,
            final(self).prd_addr == old(self).prd_addr,
            final(self).dma_status == old(self).dma_status,
            final(self).num_pending_sector_writes == old(self).num_pending_sector_writes,
            final(self).block_addr0 == old(self).block_addr0,
            final(self).sector_count == old(self).sector_count,
    {
        proof {
            reveal(ChannelRegs::identified);
        }
        self.status.ready_to_transmit = true;
        self.status.err = false;
        self.status.drive_seek_complete = true;
    }

    /// A packet command starts.
    #[verifier::opaque]
    pub open spec fn packet_started(self) -> ChannelRegs {
        ChannelRegs {
            packet_responses_via_dma: self.features % 2 == 1,
            sector_count: 1,
            status: Status { busy: false, drive_write_fault: false, ready_to_transmit: true, ..self.status },
            pending_command: Some(PendingCommand::Packet),
            ..self
        }
    }

    pub fn start_packet(&mut self)
        ensures
            *final(self) == old(self).packet_started(),
            final(self).drive_and_head == old(self).drive_and_head,
            final(self).device_control == old(self).device_control,
    {
        proof {
            reveal(ChannelRegs::packet_started);
        }
        self.packet_responses_via_dma = self.features % 2 == 1;
        self.set_interrupt_reason(Phase::Command, Direction::HostToDevice);
        self.status.busy = false;
        self.status.drive_write_fault = false;
        self.status.ready_to_transmit = true;
        self.pending_command = Some(PendingCommand::Packet);
    }

    /// A CD drive was reset.
    #[verifier::opaque]
    pub open spec fn cd_reset(self) -> ChannelRegs {
        ChannelRegs {
            block_addr0: 0,
            block_addr1: 0x14,
            block_addr2: 0xEB,
            status: Status { drive_ready: false, drive_seek_complete: false, drive_write_fault: false, ready_to_transmit: false, busy: false, corr: false, ..self.status },
            error: Error { bad_block_detected: false, ..self.error },
            ..self
        }
    }

    pub fn reset_cd(&mut self)
        ensures
            *final(self) == old(self).cd_reset(),
            final(self).drive_and_head == old(self).drive_and_head,
            final(self).device_control == old(self).device_control,
    {
        proof {
            reveal(ChannelRegs::cd_reset);
        }
        self.block_addr0 = 0;
        self.block_addr1 = 0x14;
        self.block_addr2 = 0xEB;
        self.status.drive_ready = false;
        self.status.drive_seek_complete = false;
        self.status.drive_write_fault = false;
        self.status.ready_to_transmit = false;
        self.status.busy = false;
        self.status.corr = false;
        self.error.bad_block_detected = false;
    }

    /// The heads are over the first cylinder.
    #[verifier::opaque]
    pub open spec fn calibrated(self) -> ChannelRegs {
        ChannelRegs {
            error: Error::none_spec(),
            block_addr1: 0,
            block_addr2: 0,
            status: Status { drive_ready: true, drive_seek_complete: true, ready_to_transmit: false, ..self.status },
            ..self
        }
    }

    pub fn calibrate(&mut self)
        ensures
            *final(self) == old(self).calibrated(),
            final(self).drive_and_head == old(self).drive_and_head,
            final(self).device_control == old(self).device_control,
    {
        proof {
            reveal(ChannelRegs::calibrated);
        }
        self.error = Error::none();
        self.block_addr1 = 0;
        self.block_addr2 = 0;
        self.status.drive_ready = true;
        self.status.drive_seek_complete = true;
        self.status.ready_to_transmit = false;
    }

    /// A command was accepted without effect.
    #[verifier::opaque]
    pub open spec fn accepted(self) -> ChannelRegs {
        ChannelRegs { error: Error::none_spec(), ..self }
    }

    pub fn accept(&mut self)
        ensures
            *final(self) == old(self).accepted(),
            final(self).drive_and_head == old(self).drive_and_head,
            final(self).device_control == old(self).device_control,
    {
        proof {
            reveal(ChannelRegs::accepted);
        }
        self.error = Error::none();
    }

    /// A seek is complete.
    #[verifier::opaque]
    pub open spec fn sought(self) -> ChannelRegs {
        ChannelRegs {
            status: Status { drive_seek_complete: true, ..self.status },
            error: Error::none_spec(),
            ..self
        }
    }

    pub fn seek(&mut self)
        ensures
            *final(self) == old(self).sought(),
            final(self).drive_and_head == old(self).drive_and_head,
            final(self).device_control == old(self).device_control,
    {
        proof {
            reveal(ChannelRegs::sought);
        }
        self.status.drive_seek_complete = true;
        self.error = Error::none();
    }

    /// Sectors are to be written.
    #[verifier::opaque]
    pub open spec fn awaiting_sectors(self) -> ChannelRegs {
        ChannelRegs {
            num_pending_sector_writes: self.sector_total() as usize,
            status: Status { ready_to_transmit: true, ..self.status },
            error: Error::none_spec(),
            ..self
        }
    }

    pub fn await_sectors(&mut self)
        ensures
            *final(self) == old(self).awaiting_sectors(),
            final(self).drive_and_head == old(self).drive_and_head,
            final(self).device_control == old(self).device_control,
    {
        proof {
            reveal(ChannelRegs::awaiting_sectors);
        }
        self.num_pending_sector_writes = self.num_sectors();
        self.status.ready_to_transmit = true;
        self.error = Error::none();
    }

    /// Sectors were read, and are in the buffer if `buffered`.
    #[verifier::opaque]
    pub open spec fn sectors_read(self, buffered: bool) -> ChannelRegs {
        ChannelRegs {
            status: Status {
                ready_to_transmit: buffered || self.status.ready_to_transmit,
                err: false,
                drive_seek_complete: true,
                ..self.status
            },
            error: Error::none_spec(),
            ..self
        }
    }

    pub fn finish_read(&mut self, buffered: bool)
        ensures
            *final(self) == old(self).sectors_read(buffered),
            final(self).drive_and_head == old(self).drive_and_head,
            final(self).device_control == old(self).device_control,
    {
        proof {
            reveal(ChannelRegs::sectors_read);
        }
        if buffered {
            self.status.ready_to_transmit = true;
        }
        self.status.err = false;
        self.status.drive_seek_complete = true;
        self.error = Error::none();
    }

    /// The sectors of a command do not exist.
    #[verifier::opaque]
    pub open spec fn out_of_range(self) -> ChannelRegs {
        ChannelRegs {
            status: Status { err: true, ..self.status },
            error: Error { address_mark_not_found: true, ..Error::none_spec() },
            ..self
        }
    }

    pub fn reject_range(&mut self)
        ensures
            *final(self) == old(self).out_of_range(),
            final(self).drive_and_head == old(self).drive_and_head,
            final(self).device_control == old(self).device_control,
    {
        proof {
            reveal(ChannelRegs::out_of_range);
        }
        self.status.err = true;
        self.error = Error::none();
        self.error.address_mark_not_found = true;
    }

    /// The command does not exist on this kind of drive.
    #[verifier::opaque]
    pub open spec fn not_supported(self) -> ChannelRegs {
        ChannelRegs {
            status: Status { err: true, ..self.status },
            error: Error { command_aborted: true, ..Error::none_spec() },
            ..self
        }
    }

    pub fn reject_command(&mut self)
        ensures
            *final(self) == old(self).not_supported(),
            final(self).drive_and_head == old(self).drive_and_head,
            final(self).device_control == old(self).device_control,
    {
        proof {
            reveal(ChannelRegs::not_supported);
        }
        self.status.err = true;
        self.error = Error::none();
        self.error.command_aborted = true;
    }

    /// A command was given to a drive that does not exist.
    #[verifier::opaque]
    pub open spec fn without_drive(self) -> ChannelRegs {
        ChannelRegs {
            status: Status { err: true, ..self.status },
            error: Error { command_aborted: true, ..self.error },
            ..self
        }
    }

    pub fn reject_without_drive(&mut self)
        ensures
            *final(self) == old(self).without_drive(),
            final(self).drive_and_head == old(self).drive_and_head,
            final(self).device_control == old(self).device_control,
    {
        proof {
            reveal(ChannelRegs::without_drive);
        }
        self.status.err = true;
        self.error.command_aborted = true;
    }

    /// A command was accepted, and there is nothing more to it.
    #[verifier::opaque]
    pub open spec fn acknowledged(self) -> ChannelRegs {
        ChannelRegs {
            status: Status { err: false, drive_ready: true, ..self.status },
            error: Error::none_spec(),
            ..self
        }
    }

    pub fn acknowledge(&mut self)
        ensures
            *final(self) == old(self).acknowledged(),
            final(self).drive_and_head == old(self).drive_and_head,
            final(self).device_control == old(self).device_control,
    {
        proof {
            reveal(ChannelRegs::acknowledged);
        }
        self.status.err = false;
        self.status.drive_ready = true;
        self.error = Error::none();
    }

    /// The data register was read; `left` bytes are left in the buffer.
    #[verifier::opaque]
    pub open spec fn popped(self, left: int, is_cd: bool) -> ChannelRegs {
        ChannelRegs {
            status: Status { ready_to_transmit: left > 0, ..self.status },
            sector_count: if left == 0 && is_cd {
                3
            } else {
                self.sector_count
            },
            ..self
        }
    }

    pub fn pop(&mut self, left: usize, is_cd: bool)
        ensures
            *final(self) == old(self).popped(left as int, is_cd),
            final(self).drive_and_head == old(self).drive_and_head,
            final(self).device_control == old(self).device_control,
            final(self).reading_atapi_packet == old(self).reading_atapi_packet,
            final(self).atapi_byte_index == old(self).atapi_byte_index,
            final(self).atapi_byte_block_size == old(self).atapi_byte_block_size,
    {
        proof {
            reveal(ChannelRegs::popped);
        }
        self.status.ready_to_transmit = left > 0;
        if left == 0 && is_cd {
            self.set_interrupt_reason(Phase::Command, Direction::DeviceToHost);
        }
    }

    /// The answer of a packet command was read to its end.
    #[verifier::opaque]
    pub open spec fn answer_read(self, size: int) -> ChannelRegs {
        ChannelRegs {
            atapi_byte_index: (self.atapi_byte_index + size) as u16,
            sector_count: 3,
            status: Status { drive_ready: true, busy: false, ready_to_transmit: false, err: false, ..self.status },
            ..self
        }
    }

    pub fn finish_answer_read(&mut self, size: u8)
        requires
            old(self).atapi_byte_index + size <= u16::MAX,
        ensures
            *final(self) == old(self).answer_read(size as int),
            final(self).drive_and_head == old(self).drive_and_head,
            final(self).device_control == old(self).device_control,
    {
        proof {
            reveal(ChannelRegs::answer_read);
        }
        self.atapi_byte_index = self.atapi_byte_index + size as u16;
        self.set_interrupt_reason(Phase::Command, Direction::DeviceToHost);
        self.status.drive_ready = true;
        self.status.busy = false;
        self.status.ready_to_transmit = false;
        self.status.err = false;
    }

    /// A block of the answer of a packet command was read; `left` bytes are left.
    #[verifier::opaque]
    pub open spec fn block_read(self, left: int) -> ChannelRegs {
        let regs = ChannelRegs {
            atapi_byte_index: 0,
            sector_count: 2,
            status: Status { drive_ready: true, busy: false, ready_to_transmit: true, ..self.status },
            ..self
        };
        if self.atapi_byte_block_size > left {
            ChannelRegs {
                atapi_byte_block_size: left as u16,
                ..regs
            }.with_atapi_byte_count(left)
        } else {
            regs
        }
    }

    pub fn finish_block_read(&mut self, left: usize)
        ensures
            *final(self) == old(self).block_read(left as int),
            final(self).drive_and_head == old(self).drive_and_head,
            final(self).device_control == old(self).device_control,
    {
        proof {
            reveal(ChannelRegs::block_read);
        }
        self.atapi_byte_index = 0;
        self.set_interrupt_reason(Phase::Data, Direction::DeviceToHost);
        self.status.drive_ready = true;
        self.status.busy = false;
        self.status.ready_to_transmit = true;
        if self.atapi_byte_block_size as usize > left {
            self.atapi_byte_block_size = left as u16;
            self.set_atapi_byte_count(left as u16);
        }
    }

    /// Puts the reason of an interrupt into the sector count register.
    pub fn set_interrupt_reason(&mut self, phase: Phase, direction: Direction)
        ensures
            *final(self) == (ChannelRegs {
                sector_count: AtapiInterruptReason {
                    phase,
                    direction,
                    rel: false,
                    tag: 0,
                }.as_u8_spec() as u8,
                ..*old(self)
            }),
    {
        let reason = AtapiInterruptReason { phase, direction, rel: false, tag: 0 };
        self.sector_count = reason.as_u8();
    }
}

/// The address registers hold what is put into them, as long as the addressing mode is the one
/// that they are set to.
pub proof fn address_registers_hold_address(regs: ChannelRegs, addr: BlockAddr)
    requires
        ChannelRegs::addr_fits(addr),
        regs.drive_and_head.use_lba_spec() == (addr is Lba),
    ensures
        regs.with_addr(addr).block_addr() == addr,
        regs.with_addr(addr).drive_and_head.second_drive_spec()
            == regs.drive_and_head.second_drive_spec(),
{
    let v: int = regs.drive_and_head.value as int;
    match addr {
        BlockAddr::Lba(n) => {
            let hs: int = n as int / 0x100_0000;
            lemma_head_bits(v, hs);
            let a: int = n as int / 0x100;
            let b: int = n as int / 0x1_0000;
            assert(b == a / 0x100);
            assert(hs == b / 0x100);
        },
        BlockAddr::Chs { cylinder, head, sector } => {
            lemma_head_bits(v, head as int);
        },
    }
}

pub proof fn lemma_head_bits(v: int, hs: int)
    requires
        0 <= v < 0x100,
        0 <= hs < 16,
    ensures
        (v / 16 * 16 + hs) % 16 == hs,
        0 <= v / 16 * 16 + hs < 0x100,
        bit_at(v / 16 * 16 + hs, 0x10) == bit_at(v, 0x10),
        bit_at(v / 16 * 16 + hs, 0x40) == bit_at(v, 0x40),
{
    let w: int = v / 16 * 16 + hs;
    assert(w / 16 == v / 16);
    assert(w / 0x40 == w / 16 / 4);
    assert(v / 0x40 == v / 16 / 4);
}

} // verus!
