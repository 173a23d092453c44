//! The floppy disk controller.
use vstd::prelude::*;

use crate::bytes::{bit_at, overwrite, weigh8, weight};
use crate::hw::dma::FddDma;
use crate::hw::pic::{still_accepts, DualIrqLine, IrqState, IrqSystem};
use crate::hw::storage::{DiskData, DiskDataSnapshot, DiskModel};
use crate::mem::Memory;

verus! {

/// A vector of limited length, `arrayvec::ArrayVec`.
#[verifier::external_type_specification]
#[verifier::external_body]
#[verifier::reject_recursive_types(T)]
pub struct ExArrayVec<T, const CAP: usize>(arrayvec::ArrayVec<T, CAP>);

/// The bytes in the vector, the first one first.
pub uninterp spec fn held_bytes(v: arrayvec::ArrayVec<u8, 16>) -> Seq<u8>;

/// `ArrayVec::new` gives an empty vector.
#[verifier::external_body]
fn empty_buf() -> (r: arrayvec::ArrayVec<u8, 16>)
    ensures
        held_bytes(r) == Seq::<u8>::empty(),
{
    arrayvec::ArrayVec::new()
}

/// `ArrayVec::push` puts a byte behind the others. The vector must not be full.
#[verifier::external_body]
fn push_byte(v: &mut arrayvec::ArrayVec<u8, 16>, byte: u8)
    requires
        held_bytes(*old(v)).len() < 16,
    ensures
        held_bytes(*final(v)) == held_bytes(*old(v)).push(byte),
{
    v.push(byte);
}

/// `ArrayVec::extend` puts bytes behind the others. There must be room for all of them.
#[verifier::external_body]
fn push_bytes(v: &mut arrayvec::ArrayVec<u8, 16>, bytes: &[u8])
    requires
        held_bytes(*old(v)).len() + bytes@.len() <= 16,
    ensures
        held_bytes(*final(v)) == held_bytes(*old(v)) + bytes@,
{
    v.extend(bytes.iter().copied());
}

/// `ArrayVec::clear` takes all bytes out.
#[verifier::external_body]
fn clear_buf(v: &mut arrayvec::ArrayVec<u8, 16>)
    ensures
        held_bytes(*final(v)) == Seq::<u8>::empty(),
{
    v.clear();
}

/// `ArrayVec::remove` takes the byte at an index out and moves those behind it up.
#[verifier::external_body]
fn remove_byte(v: &mut arrayvec::ArrayVec<u8, 16>, index: usize) -> (r: u8)
    requires
        index < held_bytes(*old(v)).len(),
    ensures
        r == held_bytes(*old(v))[index as int],
        held_bytes(*final(v)) == held_bytes(*old(v)).remove(index as int),
{
    v.remove(index)
}

/// `ArrayVec::as_slice` shows all bytes.
#[verifier::external_body]
fn as_bytes(v: &arrayvec::ArrayVec<u8, 16>) -> (r: &[u8])
    ensures
        r@ == held_bytes(*v),
{
    v.as_slice()
}

/// A copy of a vector that holds at most 16 bytes.
fn copy_buf(v: &arrayvec::ArrayVec<u8, 16>) -> (r: arrayvec::ArrayVec<u8, 16>)
    requires
        held_bytes(*v).len() <= 16,
    ensures
        held_bytes(r) == held_bytes(*v),
{
    let mut r = empty_buf();
    push_bytes(&mut r, as_bytes(v));
    assert(held_bytes(r) =~= held_bytes(*v));
    r
}

/// The digital output register.
#[derive(Copy, Clone, Debug, PartialEq, Eq, Structural)]
pub struct DigitalOutput {
    pub value: u8,
}

#[derive(Copy, Clone, Debug, PartialEq, Eq, Structural)]
pub enum CmdId {
    ReadData,
    ReadDeletedData,
    WriteData,
    WriteDeletedData,
    ReadTrack,
    ReadId,
    FormatTrack,
    ScanLow,
    ScanLowOrEqual,
    ScanHighOrEqual,
    Recalibrate,
    SenseInterruptStatus,
    Specify,
    SenseDriveStatus,
    Seek,
    Invalid,
}

impl CmdId {
    /// The number of bytes of the command, the first one included.
    pub open spec fn len_spec(&self) -> int {
        match self {
            CmdId::ReadData => 9,
            CmdId::ReadDeletedData => 9,
            CmdId::WriteData => 9,
            CmdId::WriteDeletedData => 9,
            CmdId::ReadTrack => 9,
            CmdId::ScanLow => 9,
            CmdId::ScanLowOrEqual => 9,
            CmdId::ScanHighOrEqual => 9,
            CmdId::FormatTrack => 6,
            CmdId::Specify => 3,
            CmdId::Seek => 3,
            CmdId::ReadId => 2,
            CmdId::Recalibrate => 2,
            CmdId::SenseDriveStatus => 2,
            CmdId::SenseInterruptStatus => 1,
            CmdId::Invalid => 1,
        }
    }

    pub fn total_len(&self) -> (r: usize)
        ensures
            r == self.len_spec(),
            1 <= r <= 9,
    {
        match self {
            CmdId::ReadData
            | CmdId::ReadDeletedData
            | CmdId::WriteData
            | CmdId::WriteDeletedData
            | CmdId::ReadTrack
            | CmdId::ScanLow
            | CmdId::ScanLowOrEqual
            | CmdId::ScanHighOrEqual => 9,
            CmdId::FormatTrack => 6,
            CmdId::Specify | CmdId::Seek => 3,
            CmdId::ReadId | CmdId::Recalibrate | CmdId::SenseDriveStatus => 2,
            CmdId::SenseInterruptStatus | CmdId::Invalid => 1,
        }
    }

    /// The command that a first byte starts. The upper bits of most commands are options.
    pub open spec fn of_byte(b: u8) -> CmdId {
        if b % 32 == 0b00110 {
            CmdId::ReadData
        } else if b % 32 == 0b01100 {
            CmdId::ReadDeletedData
        } else if b % 64 == 0b000101 {
            CmdId::WriteData
        } else if b % 64 == 0b001001 {
            CmdId::WriteDeletedData
        } else if b % 32 == 0b00010 && b < 0x80 {
            CmdId::ReadTrack
        } else if b % 32 == 0b01010 && b < 0x80 {
            CmdId::ReadId
        } else if b % 64 == 0b001101 && b < 0x80 {
            CmdId::FormatTrack
        } else if b % 32 == 0b10001 {
            CmdId::ScanLow
        } else if b % 32 == 0b11001 {
            CmdId::ScanLowOrEqual
        } else if b % 32 == 0b11101 {
            CmdId::ScanHighOrEqual
        } else if b == 0b00000111 {
            CmdId::Recalibrate
        } else if b == 0b00001000 {
            CmdId::SenseInterruptStatus
        } else if b == 0b00000011 {
            CmdId::Specify
        } else if b == 0b00000100 {
            CmdId::SenseDriveStatus
        } else if b == 0b00001111 {
            CmdId::Seek
        } else {
            CmdId::Invalid
        }
    }

    pub fn from_byte(b: u8) -> (r: Self)
        ensures
            r == Self::of_byte(b),
    {
        if b % 32 == 0b00110 {
            CmdId::ReadData
        } else if b % 32 == 0b01100 {
            CmdId::ReadDeletedData
        } else if b % 64 == 0b000101 {
            CmdId::WriteData
        } else if b % 64 == 0b001001 {
            CmdId::WriteDeletedData
        } else if b % 32 == 0b00010 && b < 0x80 {
            CmdId::ReadTrack
        } else if b % 32 == 0b01010 && b < 0x80 {
            CmdId::ReadId
        } else if b % 64 == 0b001101 && b < 0x80 {
            CmdId::FormatTrack
        } else if b % 32 == 0b10001 {
            CmdId::ScanLow
        } else if b % 32 == 0b11001 {
            CmdId::ScanLowOrEqual
        } else if b % 32 == 0b11101 {
            CmdId::ScanHighOrEqual
        } else {
            match b {
                0b00000111 => CmdId::Recalibrate,
                0b00001000 => CmdId::SenseInterruptStatus,
                0b00000011 => CmdId::Specify,
                0b00000100 => CmdId::SenseDriveStatus,
                0b00001111 => CmdId::Seek,
                _ => CmdId::Invalid,
            }
        }
    }
}

/// A sector: cylinder, head, number on the track and size code.
#[derive(Copy, Clone, Debug, PartialEq, Eq, Structural)]
pub struct Chrn {
    pub c: u8,
    pub h: u8,
    pub r: u8,
    pub n: u8,
}

#[derive(Copy, Clone, Debug, PartialEq, Eq, Structural)]
pub struct RwData {
    pub mt: bool,
    pub mfm: bool,
    pub sk: bool,
    pub chrn: Chrn,
    pub eot: u8,
    pub gpl: u8,
    // STL for scans, DTL for rest
    pub dtl_or_stp: u8,
    pub disk: DiskSpecifier,
}

impl RwData {
    pub open spec fn of_bytes(data: Seq<u8>) -> RwData {
        RwData {
            mt: bit_at(data[0] as int, 0x80),
            mfm: bit_at(data[0] as int, 0x40),
            sk: bit_at(data[0] as int, 0x20),
            disk: DiskSpecifier::of_byte(data[1]),
            chrn: Chrn { c: data[2], h: data[3], r: data[4], n: data[5] },
            eot: data[6],
            gpl: data[7],
            dtl_or_stp: data[8],
        }
    }

    fn parse(data: &[u8]) -> (r: RwData)
        requires
            data@.len() >= 9,
        ensures
            r == Self::of_bytes(data@),
    {
        RwData {
            mt: data[0] / 0x80 % 2 == 1,
            mfm: data[0] / 0x40 % 2 == 1,
            sk: data[0] / 0x20 % 2 == 1,
            disk: DiskSpecifier::parse(data[1]),
            chrn: Chrn { c: data[2], h: data[3], r: data[4], n: data[5] },
            eot: data[6],
            gpl: data[7],
            dtl_or_stp: data[8],
        }
    }
}

/// A drive and one of its heads.
#[derive(Copy, Clone, Debug, PartialEq, Eq, Structural)]
pub struct DiskSpecifier {
    /// Two bits.
    pub ds: u8,
    /// One bit.
    pub hds: u8,
}

impl DiskSpecifier {
    pub open spec fn wf(&self) -> bool {
        self.ds < 4 && self.hds < 2
    }

    pub open spec fn of_byte(b: u8) -> DiskSpecifier {
        DiskSpecifier { ds: (b % 4) as u8, hds: (b / 4 % 2) as u8 }
    }

    fn parse(b: u8) -> (r: DiskSpecifier)
        ensures
            r == Self::of_byte(b),
            r.wf(),
    {
        DiskSpecifier { ds: b % 4, hds: b / 4 % 2 }
    }
}

#[derive(Copy, Clone, Debug, PartialEq, Eq, Structural)]
pub enum Command {
    ReadData(RwData),
    ReadDeletedData(RwData),
    WriteData(RwData),
    WriteDeletedData(RwData),
    ReadTrack(RwData),
    ReadId { mfm: bool, disk: DiskSpecifier },
    FormatTrack { mfm: bool, disk: DiskSpecifier, n: u8, sc: u8, gpl: u8, d: u8 },
    ScanLow(RwData),
    ScanLowOrEqual(RwData),
    ScanHighOrEqual(RwData),
    Recalibrate(DiskSpecifier),
    SenseInterruptStatus,
    Specify { srt: u8, hut: u8, hlt: u8, dma_disabled: bool },
    SenseDriveStatus(DiskSpecifier),
    Seek { disk: DiskSpecifier, ncn: u8 },
    Invalid,
}

impl Command {
    /// The command that the bytes make up, `None` as long as some are missing.
    pub open spec fn of_bytes(data: Seq<u8>) -> Option<Command> {
        let id = CmdId::of_byte(data[0]);
        if data.len() < id.len_spec() {
            None
        } else {
            Some(
                match id {
                    CmdId::ReadData => Command::ReadData(RwData::of_bytes(data)),
                    CmdId::ReadDeletedData => Command::ReadDeletedData(RwData::of_bytes(data)),
                    CmdId::WriteData => Command::WriteData(RwData::of_bytes(data)),
                    CmdId::WriteDeletedData => Command::WriteDeletedData(RwData::of_bytes(data)),
                    CmdId::ReadTrack => Command::ReadTrack(RwData::of_bytes(data)),
                    CmdId::ReadId => Command::ReadId {
                        disk: DiskSpecifier::of_byte(data[1]),
                        mfm: bit_at(data[0] as int, 0x40),
                    },
                    CmdId::FormatTrack => Command::FormatTrack {
                        mfm: bit_at(data[0] as int, 0x40),
                        disk: DiskSpecifier::of_byte(data[1]),
                        n: data[2],
                        sc: data[3],
                        gpl: data[4],
                        d: data[5],
                    },
                    CmdId::ScanLow => Command::ScanLow(RwData::of_bytes(data)),
                    CmdId::ScanLowOrEqual => Command::ScanLowOrEqual(RwData::of_bytes(data)),
                    CmdId::ScanHighOrEqual => Command::ScanHighOrEqual(RwData::of_bytes(data)),
                    CmdId::Recalibrate => Command::Recalibrate(DiskSpecifier::of_byte(data[1])),
                    CmdId::SenseInterruptStatus => Command::SenseInterruptStatus,
                    CmdId::Specify => Command::Specify {
                        srt: (data[1] / 16) as u8,
                        hut: (data[1] % 16) as u8,
                        hlt: (data[2] / 2) as u8,
                        dma_disabled: bit_at(data[2] as int, 1),
                    },
                    CmdId::SenseDriveStatus => Command::SenseDriveStatus(
                        DiskSpecifier::of_byte(data[1]),
                    ),
                    CmdId::Seek => Command::Seek {
                        disk: DiskSpecifier::of_byte(data[1]),
                        ncn: data[2],
                    },
                    CmdId::Invalid => Command::Invalid,
                },
            )
        }
    }

    pub fn try_parse(data: &[u8]) -> (r: Option<Command>)
        requires
            data@.len() > 0,
        ensures
            r == Self::of_bytes(data@),
    {
        let id = CmdId::from_byte(data[0]);
        if data.len() < id.total_len() {
            return None;
        }
        Some(
            match id {
                CmdId::ReadData => Command::ReadData(RwData::parse(data)),
                CmdId::ReadDeletedData => Command::ReadDeletedData(RwData::parse(data)),
                CmdId::WriteData => Command::WriteData(RwData::parse(data)),
                CmdId::WriteDeletedData => Command::WriteDeletedData(RwData::parse(data)),
                CmdId::ReadTrack => Command::ReadTrack(RwData::parse(data)),
                CmdId::ReadId => Command::ReadId {
                    disk: DiskSpecifier::parse(data[1]),
                    mfm: data[0] / 0x40 % 2 == 1,
                },
                CmdId::FormatTrack => Command::FormatTrack {
                    mfm: data[0] / 0x40 % 2 == 1,
                    disk: DiskSpecifier::parse(data[1]),
                    n: data[2],
                    sc: data[3],
                    gpl: data[4],
                    d: data[5],
                },
                CmdId::ScanLow => Command::ScanLow(RwData::parse(data)),
                CmdId::ScanLowOrEqual => Command::ScanLowOrEqual(RwData::parse(data)),
                CmdId::ScanHighOrEqual => Command::ScanHighOrEqual(RwData::parse(data)),
                CmdId::Recalibrate => Command::Recalibrate(DiskSpecifier::parse(data[1])),
                CmdId::SenseInterruptStatus => Command::SenseInterruptStatus,
                CmdId::Specify => Command::Specify {
                    srt: data[1] / 16,
                    hut: data[1] % 16,
                    hlt: data[2] / 2,
                    dma_disabled: data[2] % 2 == 1,
                },
                CmdId::SenseDriveStatus => Command::SenseDriveStatus(
                    DiskSpecifier::parse(data[1]),
                ),
                CmdId::Seek => Command::Seek { disk: DiskSpecifier::parse(data[1]), ncn: data[2] },
                CmdId::Invalid => Command::Invalid,
            },
        )
    }
}

#[derive(Copy, Clone, Debug, PartialEq, Eq, Structural)]
pub enum Dir {
    CpuToFdd,
    FddToCpu,
}

/// The main status register. No drive is ever busy.
#[derive(Copy, Clone, Debug, PartialEq, Eq, Structural)]
pub struct MainStatus {
    pub command_in_progress: bool,
    pub dma_disabled: bool,
    pub transfer_direction: Dir,
    pub ready_to_transfer: bool,
}

impl MainStatus {
    pub open spec fn value_spec(&self) -> int {
        weight(self.command_in_progress, 0x10) + weight(self.dma_disabled, 0x20) + weight(
            self.transfer_direction == Dir::FddToCpu,
            0x40,
        ) + weight(self.ready_to_transfer, 0x80)
    }

    pub fn value(&self) -> (r: u8)
        ensures
            r == self.value_spec(),
    {
        let direction: u8 = match self.transfer_direction {
            Dir::CpuToFdd => 0,
            Dir::FddToCpu => 0x40,
        };
        weigh8(self.command_in_progress, 0x10) + weigh8(self.dma_disabled, 0x20) + direction
            + weigh8(self.ready_to_transfer, 0x80)
    }
}

#[derive(Copy, Clone, Debug, PartialEq, Eq, Structural)]
pub enum CommandStatus {
    Completed,
    TerminatedAbnormally,
    InvalidCommand,
    ReadySignalChange,
}

/// Status register 0.
#[derive(Copy, Clone, Debug, PartialEq, Eq, Structural)]
pub struct St0 {
    pub disk: DiskSpecifier,
    pub not_ready: bool,
    pub check_equipment: bool,
    pub seeked: bool,
    pub status: CommandStatus,
}

impl St0 {
    pub open spec fn value_spec(&self) -> int {
        self.disk.ds + 4 * self.disk.hds + weight(self.not_ready, 8) + weight(
            self.check_equipment,
            0x10,
        ) + weight(self.seeked, 0x20) + 0x40 * (match self.status {
            CommandStatus::Completed => 0int,
            CommandStatus::TerminatedAbnormally => 1,
            CommandStatus::InvalidCommand => 2,
            CommandStatus::ReadySignalChange => 3,
        })
    }

    pub fn value(&self) -> (r: u8)
        requires
            self.disk.wf(),
        ensures
            r == self.value_spec(),
    {
        let status: u8 = match self.status {
            CommandStatus::Completed => 0,
            CommandStatus::TerminatedAbnormally => 0x40,
            CommandStatus::InvalidCommand => 0x80,
            CommandStatus::ReadySignalChange => 0xc0,
        };
        self.disk.ds + 4 * self.disk.hds + weigh8(self.not_ready, 8) + weigh8(
            self.check_equipment,
            0x10,
        ) + weigh8(self.seeked, 0x20) + status
    }
}

/// The smallest number of groups of `b` that hold `a` things.
pub open spec fn ceil_div(a: int, b: int) -> int {
    a / b + (if a % b == 0 {
        0int
    } else {
        1
    })
}

fn div_ceil(a: u32, b: u32) -> (r: u32)
    requires
        b > 1,
    ensures
        r == ceil_div(a as int, b as int),
{
    proof {
        assert(a / b <= a / 2) by (nonlinear_arith)
            requires
                b > 1,
        ;
    }
    if a % b == 0 {
        a / b
    } else {
        a / b + 1
    }
}

/// A drive with up to one disk in it.
#[derive(Debug)]
pub struct Disk {
    pub head: u8,
    pub track: u16,
    pub cylinder: u8,
    pub data: Option<DiskData>,
}

#[derive(Debug)]
pub struct DiskSnapshot {
    pub head: u8,
    pub track: u16,
    pub cylinder: u8,
    pub data: Option<DiskDataSnapshot>,
}

pub struct FloppyModel {
    pub head: u8,
    pub track: u16,
    pub cylinder: u8,
    pub data: Option<DiskModel>,
}

impl View for Disk {
    type V = FloppyModel;

    open spec fn view(&self) -> FloppyModel {
        FloppyModel {
            head: self.head,
            track: self.track,
            cylinder: self.cylinder,
            data: match self.data {
                Some(d) => Some(d@),
                None => None,
            },
        }
    }
}

impl View for DiskSnapshot {
    type V = FloppyModel;

    open spec fn view(&self) -> FloppyModel {
        FloppyModel {
            head: self.head,
            track: self.track,
            cylinder: self.cylinder,
            data: match self.data {
                Some(d) => Some(d@),
                None => None,
            },
        }
    }
}

impl FloppyModel {
    /// The number of bytes on the disk, in 32 bits.
    pub open spec fn len(&self) -> int {
        match self.data {
            Some(d) => d.bytes.len() as int % 0x1_0000_0000,
            None => 0,
        }
    }

    /// All disks have 80 cylinders, two heads and sectors of 512 bytes.
    pub open spec fn track_sectors(&self) -> int {
        ceil_div(ceil_div(self.len(), 512), 160)
    }

    pub open spec fn offset(&self, chrn: Chrn) -> int {
        ((chrn.c * 2 + chrn.h) * self.track_sectors() + (chrn.r - 1)) * 512
    }

    /// The sector can be found, and the offset of it fits in 32 bits.
    pub open spec fn offset_ok(&self, chrn: Chrn) -> bool {
        chrn.r >= 1 && self.offset(chrn) <= u32::MAX
    }

    /// There are sectors to count through, and the result fits in its bytes.
    pub open spec fn increment_ok(&self, chrn: Chrn, num_sectors: int) -> bool {
        let sectors = self.track_sectors() * 2;
        let total = chrn.r - 1 + num_sectors;
        &&& chrn.r >= 1
        &&& sectors > 0
        &&& total <= u32::MAX
        &&& chrn.c + total / sectors % 0x100 <= 0xff
        &&& total % sectors % 0x100 < 0xff
    }

    /// The sector that follows `num_sectors` sectors.
    pub open spec fn incremented(&self, chrn: Chrn, num_sectors: int) -> Chrn {
        let sectors = self.track_sectors() * 2;
        let total = chrn.r - 1 + num_sectors;
        Chrn {
            c: (chrn.c + total / sectors % 0x100) as u8,
            h: 0,
            r: (total % sectors % 0x100 + 1) as u8,
            n: chrn.n,
        }
    }

    /// A read of `len` bytes into memory is possible, if there is a disk: it stays within the
    /// disk, within memory and within the 64 KiB that the DMA address register can count through.
    pub open spec fn read_ok(&self, chrn: Chrn, dma: FddDma, mem: Seq<u8>) -> bool {
        let len = dma.len + 1;
        self.data matches Some(d) ==> {
            &&& self.offset_ok(chrn)
            &&& dma.addr % 0x1_0000 + len <= 0x1_0000
            &&& self.offset(chrn) + len <= d.bytes.len()
            &&& dma.mode == 1 ==> dma.addr + len <= mem.len()
            &&& self.increment_ok(chrn, ceil_div(len, 512))
        }
    }

    /// Memory after a read.
    pub open spec fn read_into(&self, chrn: Chrn, dma: FddDma, mem: Seq<u8>) -> Seq<u8> {
        if dma.mode == 1 && self.data.is_some() {
            overwrite(
                mem,
                dma.addr as int,
                self.data.unwrap().bytes.subrange(
                    self.offset(chrn),
                    self.offset(chrn) + dma.len + 1,
                ),
            )
        } else {
            mem
        }
    }
}

impl Disk {
    pub fn empty() -> (r: Self)
        ensures
            r@ == (FloppyModel { head: 0, track: 0, cylinder: 0, data: None }),
    {
        Disk { head: 0, track: 0, cylinder: 0, data: None }
    }

    pub fn num_cylinders(&self) -> (r: u32)
        ensures
            r == 80,
    {
        80
    }

    pub fn num_heads(&self) -> (r: u32)
        ensures
            r == 2,
    {
        2
    }

    pub fn sector_size(&self) -> (r: u32)
        ensures
            r == 512,
    {
        512
    }

    pub fn sectors_per_track(&self) -> (r: u32)
        ensures
            r == self@.track_sectors(),
            r <= 52429,
    {
        let num_bytes: u32 = match &self.data {
            Some(d) => (d.len() % 0x1_0000_0000) as u32,
            None => 0,
        };
        let num_sectors: u32 = div_ceil(num_bytes, self.sector_size());
        let num_tracks: u32 = self.num_heads() * self.num_cylinders();
        div_ceil(num_sectors, num_tracks)
    }

    pub fn sectors_per_head(&self) -> (r: u32)
        ensures
            r == self@.track_sectors() * 2,
            r <= 104858,
    {
        self.sectors_per_track() * self.num_heads()
    }

    pub fn chrn_to_offset(&self, chrn: &Chrn) -> (r: u32)
        requires
            self@.offset_ok(*chrn),
        ensures
            r == self@.offset(*chrn),
    {
        let track_offset: u32 = chrn.c as u32 * self.num_heads() + chrn.h as u32;
        let sectors: u32 = self.sectors_per_track();
        assert(0 <= track_offset * sectors <= 765 * 52429) by (nonlinear_arith)
            requires
                0 <= track_offset <= 765,
                0 <= sectors <= 52429,
        ;
        let sector_offset: u32 = track_offset * sectors + (chrn.r - 1) as u32;
        sector_offset * self.sector_size()
    }

    pub fn increment_chrn(&self, chrn: &Chrn, num_sectors: u32) -> (r: Chrn)
        requires
            self@.increment_ok(*chrn, num_sectors as int),
        ensures
            r == self@.incremented(*chrn, num_sectors as int),
    {
        let new_sectors: u32 = (chrn.r as u32 - 1) + num_sectors;
        let sectors: u32 = self.sectors_per_head();
        Chrn {
            c: chrn.c + (new_sectors / sectors % 0x100) as u8,
            h: 0,
            r: (new_sectors % sectors % 0x100) as u8 + 1,
            n: chrn.n,
        }
    }

    /// Reads from the disk into memory; returns the sector behind the last one.
    pub fn read_to_mem(&self, chrn: &Chrn, dma: &FddDma, memory: &mut Memory) -> (r: Result<
        Chrn,
        CommandStatus,
    >)
        requires
            self@.read_ok(*chrn, *dma, old(memory)@),
        ensures
            r == (if self@.data.is_some() {
                Ok(self@.incremented(*chrn, ceil_div(dma.len + 1, 512)))
            } else {
                Err(CommandStatus::TerminatedAbnormally)
            }),
            final(memory)@ == self@.read_into(*chrn, *dma, old(memory)@),
    {
        match &self.data {
            Some(data) => {
                let len: u32 = dma.len as u32 + 1;
                let offset: u32 = self.chrn_to_offset(chrn);
                // Only write when the mode is '01 write to memory'
                if dma.mode == 0b01 {
                    let size: u64 = data.len();
                    let bytes = data.read_slice(offset as u64, offset as u64 + len as u64);
                    let _ = memory.write_slice(dma.addr, bytes.as_slice());
                }
                Ok(self.increment_chrn(chrn, div_ceil(len, 512)))
            },
            None => Err(CommandStatus::TerminatedAbnormally),
        }
    }

    pub fn snapshot(&self) -> (r: DiskSnapshot)
        ensures
            r@ == self@,
    {
        DiskSnapshot {
            head: self.head,
            track: self.track,
            cylinder: self.cylinder,
            data: match &self.data {
                Some(d) => Some(d.snapshot()),
                None => None,
            },
        }
    }

    pub fn from_snapshot(disk: DiskSnapshot) -> (r: Self)
        ensures
            r@ == disk@,
    {
        Disk {
            head: disk.head,
            track: disk.track,
            cylinder: disk.cylinder,
            data: match disk.data {
                Some(d) => Some(DiskData::from_snapshot(d)),
                None => None,
            },
        }
    }
}

/// The next sector on a track lies one sector behind; on the other side of the disk the sectors
/// lie one track behind.
pub proof fn sectors_follow_each_other(disk: FloppyModel, chrn: Chrn)
    requires
        1 <= chrn.r < 0xff,
        chrn.h < 0xff,
    ensures
        disk.offset(Chrn { r: (chrn.r + 1) as u8, ..chrn }) == disk.offset(chrn) + 512,
        disk.offset(Chrn { h: (chrn.h + 1) as u8, ..chrn }) == disk.offset(chrn)
            + disk.track_sectors() * 512,
{
    let t: int = disk.track_sectors();
    let x: int = chrn.c * 2 + chrn.h;
    assert((x + 1) * t == x * t + t) by (nonlinear_arith);
}

/// The first sector is the start of the disk. The next sector lies 512 bytes behind, the other side
/// one track behind, and the next cylinder two tracks behind.
pub proof fn cylinders_follow_each_other(disk: FloppyModel, chrn: Chrn)
    ensures
        disk.offset(Chrn { c: 0, h: 0, r: 1, n: chrn.n }) == 0,
        chrn.c < 0xff ==> disk.offset(Chrn { c: (chrn.c + 1) as u8, ..chrn }) == disk.offset(chrn)
            + 2 * disk.track_sectors() * 512,
        chrn.h < 0xff ==> disk.offset(Chrn { h: (chrn.h + 1) as u8, ..chrn }) == disk.offset(chrn)
            + disk.track_sectors() * 512,
        chrn.r < 0xff ==> disk.offset(Chrn { r: (chrn.r + 1) as u8, ..chrn }) == disk.offset(chrn)
            + 512,
        forall|n: u8| #[trigger] disk.offset(Chrn { n, ..chrn }) == disk.offset(chrn),
{
    let t: int = disk.track_sectors();
    let x: int = chrn.c * 2 + chrn.h;
    assert((x + 1) * t == x * t + t) by (nonlinear_arith);
    assert((x + 2) * t == x * t + 2 * t) by (nonlinear_arith);
    assert((chrn.c + 1) * 2 + chrn.h == x + 2);
    assert(0 * t == 0) by (nonlinear_arith);
}

/// A track has as many sectors as are needed for 160 tracks of sectors of 512 bytes to hold the
/// disk, and no more.
pub proof fn tracks_just_hold_the_disk(disk: FloppyModel)
    requires
        disk.data.is_some(),
        disk.data.unwrap().bytes.len() <= u32::MAX,
    ensures
        ({
            let len = disk.data.unwrap().bytes.len() as int;
            let t = disk.track_sectors();
            &&& len <= 160 * t * 512
            &&& len > 0 ==> 160 * (t - 1) * 512 < len
            &&& len == 0 ==> t == 0
        }),
{
}

/// Different sectors of a disk lie at different places, at least 512 bytes apart.
pub proof fn different_sectors_do_not_overlap(disk: FloppyModel, a: Chrn, b: Chrn)
    requires
        a.h < 2,
        b.h < 2,
        1 <= a.r <= disk.track_sectors(),
        1 <= b.r <= disk.track_sectors(),
        (a.c, a.h, a.r) != (b.c, b.h, b.r),
    ensures
        disk.offset(a) + 512 <= disk.offset(b) || disk.offset(b) + 512 <= disk.offset(a),
{
    let t: int = disk.track_sectors();
    let x: int = a.c * 2 + a.h;
    let y: int = b.c * 2 + b.h;
    if x < y {
        assert((x + 1) * t <= y * t) by (nonlinear_arith)
            requires
                x + 1 <= y,
                t >= 1,
        ;
        assert((x + 1) * t == x * t + t) by (nonlinear_arith);
    } else if y < x {
        assert((y + 1) * t <= x * t) by (nonlinear_arith)
            requires
                y + 1 <= x,
                t >= 1,
        ;
        assert((y + 1) * t == y * t + t) by (nonlinear_arith);
    }
}

/// The sector behind some sectors lies behind all their bytes, counted from the first side of the
/// cylinder.
pub proof fn next_sector_is_behind_all_read(disk: FloppyModel, chrn: Chrn, num_sectors: int)
    requires
        0 <= num_sectors,
        chrn.h == 0,
        disk.increment_ok(chrn, num_sectors),
        chrn.r - 1 + num_sectors < 0x100 * disk.track_sectors() * 2,
        disk.track_sectors() * 2 <= 0xff,
    ensures
        disk.offset(disk.incremented(chrn, num_sectors)) == disk.offset(chrn) + 512 * num_sectors,
        disk.incremented(chrn, num_sectors).n == chrn.n,
        disk.incremented(chrn, num_sectors).h == 0,
        disk.incremented(chrn, num_sectors).r <= 2 * disk.track_sectors(),
{
    let t: int = disk.track_sectors();
    let s: int = t * 2;
    let total: int = chrn.r - 1 + num_sectors;
    vstd::arithmetic::div_mod::lemma_fundamental_div_mod(total, s);
    let q: int = total / s;
    assert(q < 0x100) by (nonlinear_arith)
        requires
            total == s * q + total % s,
            0 <= total % s,
            total < 0x100 * s,
            s > 0,
    ;
    assert(q >= 0) by (nonlinear_arith)
        requires
            q == total / s,
            total >= 0,
            s > 0,
    ;
    assert(0 <= total % s < s);
    let c: int = chrn.c as int;
    assert(((c + q) * 2) * t == (c * 2) * t + s * q) by (nonlinear_arith)
        requires
            s == t * 2,
    ;
}

/// A read moves the bytes of the disk from the sector on to where the DMA channel points, and
/// nothing else in memory changes. Without a disk, or in another mode, nothing does.
pub proof fn read_moves_the_sectors(disk: FloppyModel, chrn: Chrn, dma: FddDma, mem: Seq<u8>, i: int)
    requires
        disk.read_ok(chrn, dma, mem),
        0 <= i < mem.len(),
    ensures
        ({
            let after = disk.read_into(chrn, dma, mem);
            &&& after.len() == mem.len()
            &&& if disk.data.is_some() && dma.mode == 1 && dma.addr <= i <= dma.addr + dma.len {
                after[i] == disk.data.unwrap().bytes[disk.offset(chrn) + (i - dma.addr)]
            } else {
                after[i] == mem[i]
            }
        }),
{
    if disk.data.is_some() {
        let t: int = disk.track_sectors();
        let x: int = chrn.c * 2 + chrn.h;
        assert(x * t >= 0) by (nonlinear_arith)
            requires
                x >= 0,
                t >= 0,
        ;
    }
}

/// The controller with its four drives.
#[derive(Debug)]
pub struct Fdc {
    pub irq: DualIrqLine,
    pub disks: Vec<Disk>,
    pub enabled: bool,
    /// Two bits.
    pub selected_disk: u8,
    pub interrupts_enabled: bool,
    pub dma_disabled: bool,
    pub cmd_buf: arrayvec::ArrayVec<u8, 16>,
    pub output_buf: arrayvec::ArrayVec<u8, 16>,
    pub st0: St0,
    pub dor: DigitalOutput,
}

#[derive(Debug)]
pub struct FdcSnapshot {
    pub disks: Vec<DiskSnapshot>,
    pub enabled: bool,
    pub selected_disk: u8,
    pub interrupts_enabled: bool,
    pub dma_disabled: bool,
    pub cmd_buf: arrayvec::ArrayVec<u8, 16>,
    pub output_buf: arrayvec::ArrayVec<u8, 16>,
    pub st0: St0,
    pub dma: FddDma,
    pub dor: DigitalOutput,
}

/// What the controller holds.
pub struct FdcModel {
    pub disks: Seq<FloppyModel>,
    pub enabled: bool,
    pub selected_disk: u8,
    pub interrupts_enabled: bool,
    pub dma_disabled: bool,
    pub cmd: Seq<u8>,
    pub out: Seq<u8>,
    pub st0: St0,
    pub dor: DigitalOutput,
}

/// The controller and all that it acts on.
pub struct FdcWorld {
    pub line: DualIrqLine,
    pub fdc: FdcModel,
    pub mem: Seq<u8>,
    pub irq: IrqState,
}

impl View for Fdc {
    type V = FdcModel;

    open spec fn view(&self) -> FdcModel {
        FdcModel {
            disks: Seq::new(self.disks@.len(), |i: int| self.disks@[i]@),
            enabled: self.enabled,
            selected_disk: self.selected_disk,
            interrupts_enabled: self.interrupts_enabled,
            dma_disabled: self.dma_disabled,
            cmd: held_bytes(self.cmd_buf),
            out: held_bytes(self.output_buf),
            st0: self.st0,
            dor: self.dor,
        }
    }
}

impl View for FdcSnapshot {
    type V = FdcModel;

    open spec fn view(&self) -> FdcModel {
        FdcModel {
            disks: Seq::new(self.disks@.len(), |i: int| self.disks@[i]@),
            enabled: self.enabled,
            selected_disk: self.selected_disk,
            interrupts_enabled: self.interrupts_enabled,
            dma_disabled: self.dma_disabled,
            cmd: held_bytes(self.cmd_buf),
            out: held_bytes(self.output_buf),
            st0: self.st0,
            dor: self.dor,
        }
    }
}

/// A result of a read: the status registers and the sector that follows.
pub open spec fn read_result(st0: St0, chrn: Chrn) -> Seq<u8> {
    seq![st0.value_spec() as u8, 0, 0, chrn.c, chrn.h, chrn.r, chrn.n]
}

impl FdcModel {
    /// The controller after power on, with one disk in its first drive.
    pub open spec fn fresh(data: DiskModel) -> FdcModel {
        FdcModel {
            disks: seq![
                FloppyModel { head: 0, track: 0, cylinder: 0, data: Some(data) },
                FloppyModel { head: 0, track: 0, cylinder: 0, data: None },
                FloppyModel { head: 0, track: 0, cylinder: 0, data: None },
                FloppyModel { head: 0, track: 0, cylinder: 0, data: None },
            ],
            enabled: false,
            selected_disk: 0,
            interrupts_enabled: true,
            dma_disabled: false,
            cmd: Seq::empty(),
            out: Seq::empty(),
            st0: St0 {
                disk: DiskSpecifier { ds: 0, hds: 0 },
                not_ready: false,
                check_equipment: false,
                seeked: false,
                status: CommandStatus::Completed,
            },
            dor: DigitalOutput { value: 0x0C },
        }
    }

    /// There are four drives, and the bytes of a command are kept only until it is complete.
    pub open spec fn wf(&self) -> bool {
        &&& self.disks.len() == 4
        &&& self.selected_disk < 4
        &&& self.st0.disk.wf()
        &&& self.out.len() <= 16
        &&& self.cmd.len() > 0 ==> self.cmd.len() < CmdId::of_byte(self.cmd[0]).len_spec()
    }

    pub open spec fn with_cylinder(self, disk: int, cylinder: u8) -> FdcModel {
        FdcModel {
            disks: self.disks.update(disk, FloppyModel { cylinder, ..self.disks[disk] }),
            ..self
        }
    }
}

impl FdcWorld {
    /// An interrupt was raised, if interrupts are enabled.
    pub open spec fn raised(self) -> FdcWorld {
        if self.fdc.interrupts_enabled {
            FdcWorld { irq: self.line.pulsed(self.irq), ..self }
        } else {
            self
        }
    }

    /// The digital output register was written. Enabling the controller raises an interrupt.
    pub open spec fn output_written(self, val: u8) -> FdcWorld {
        let fdc = FdcModel {
            dor: DigitalOutput { value: val },
            enabled: bit_at(val as int, 4),
            selected_disk: (val % 2) as u8,
            interrupts_enabled: bit_at(val as int, 8),
            disks: Seq::new(4, |i: int| FloppyModel { cylinder: 0, ..self.fdc.disks[i] }),
            ..self.fdc
        };
        let w = FdcWorld { fdc, ..self };
        if fdc.enabled && !self.fdc.enabled {
            let r = w.raised();
            FdcWorld {
                fdc: FdcModel {
                    st0: St0 {
                        disk: DiskSpecifier { ds: fdc.selected_disk, hds: 0 },
                        not_ready: false,
                        check_equipment: false,
                        seeked: false,
                        status: CommandStatus::ReadySignalChange,
                    },
                    ..r.fdc
                },
                ..r
            }
        } else {
            w
        }
    }

    /// The command can be carried out.
    pub open spec fn command_ok(&self, cmd: Command, dma: FddDma) -> bool {
        match cmd {
            Command::ReadData(rw) => {
                &&& self.fdc.out.len() == 0
                &&& rw.mt
                &&& self.fdc.disks[rw.disk.ds as int].read_ok(rw.chrn, dma, self.mem)
            },
            Command::SenseInterruptStatus => self.fdc.out.len() + 2 <= 16,
            Command::SenseDriveStatus(_) => false,
            _ => true,
        }
    }

    /// Sectors were read into memory.
    pub open spec fn data_read(self, rw: RwData, dma: FddDma) -> FdcWorld {
        let disk = self.fdc.disks[rw.disk.ds as int];
        let next = disk.incremented(rw.chrn, ceil_div(dma.len + 1, 512));
        let fdc = if disk.data.is_some() {
            let st0 = St0 {
                disk: DiskSpecifier { hds: 0, ..rw.disk },
                not_ready: false,
                check_equipment: false,
                seeked: false,
                status: CommandStatus::Completed,
            };
            FdcModel {
                st0,
                out: read_result(st0, next),
                ..self.fdc.with_cylinder(rw.disk.ds as int, next.c)
            }
        } else {
            let st0 = St0 {
                disk: rw.disk,
                not_ready: false,
                check_equipment: false,
                seeked: false,
                status: CommandStatus::TerminatedAbnormally,
            };
            FdcModel { st0, out: read_result(st0, rw.chrn), ..self.fdc }
        };
        FdcWorld { fdc, mem: disk.read_into(rw.chrn, dma, self.mem), ..self }.raised()
    }

    /// The command was carried out. Commands that are not supported are ignored.
    pub open spec fn command_done(self, cmd: Command, dma: FddDma) -> FdcWorld {
        match cmd {
            Command::ReadData(rw) => self.data_read(rw, dma),
            Command::Recalibrate(disk) => {
                let n = disk.ds as int;
                let present = self.fdc.disks[n].data.is_some();
                FdcWorld {
                    fdc: FdcModel {
                        disks: self.fdc.disks.update(
                            n,
                            FloppyModel { track: 0, ..self.fdc.disks[n] },
                        ),
                        st0: St0 {
                            disk,
                            not_ready: !present,
                            check_equipment: false,
                            seeked: true,
                            status: if present {
                                CommandStatus::Completed
                            } else {
                                CommandStatus::TerminatedAbnormally
                            },
                        },
                        ..self.fdc
                    },
                    ..self
                }.raised()
            },
            Command::SenseInterruptStatus => FdcWorld {
                fdc: FdcModel {
                    out: self.fdc.out + seq![
                        self.fdc.st0.value_spec() as u8,
                        self.fdc.disks[self.fdc.selected_disk as int].cylinder,
                    ],
                    ..self.fdc
                },
                ..self
            },
            Command::Specify { dma_disabled, .. } => FdcWorld {
                fdc: FdcModel { dma_disabled, ..self.fdc },
                ..self
            },
            Command::Seek { disk, ncn } => FdcWorld {
                fdc: FdcModel {
                    st0: St0 {
                        disk,
                        not_ready: false,
                        check_equipment: false,
                        seeked: true,
                        status: CommandStatus::Completed,
                    },
                    ..self.fdc.with_cylinder(disk.ds as int, ncn)
                },
                ..self
            }.raised(),
            _ => self,
        }
    }

    pub open spec fn with_cmd(self, cmd: Seq<u8>) -> FdcWorld {
        FdcWorld { fdc: FdcModel { cmd, ..self.fdc }, ..self }
    }

    /// The write can be carried out.
    #[verifier::opaque]
    pub open spec fn write_ok(&self, addr: u8, val: u8, dma: FddDma) -> bool {
        addr == 5 ==> match Command::of_bytes(self.fdc.cmd.push(val)) {
            Some(cmd) => self.with_cmd(Seq::empty()).command_ok(cmd, dma),
            None => true,
        }
    }

    /// `val` was written to register `addr`.
    #[verifier::opaque]
    pub open spec fn written(self, addr: u8, val: u8, dma: FddDma) -> FdcWorld {
        if addr == 2 {
            self.output_written(val)
        } else if addr == 5 {
            match Command::of_bytes(self.fdc.cmd.push(val)) {
                Some(cmd) => self.with_cmd(Seq::empty()).command_done(cmd, dma),
                None => self.with_cmd(self.fdc.cmd.push(val)),
            }
        } else {
            self
        }
    }
}

impl Fdc {
    pub open spec fn wf(&self) -> bool {
        self@.wf()
    }

    pub open spec fn world(&self, mem: Seq<u8>, irq: IrqState) -> FdcWorld {
        FdcWorld { line: self.irq, fdc: self@, mem, irq }
    }

    pub fn new(data: DiskData, irq: DualIrqLine) -> (r: Self)
        ensures
            r.wf(),
            r.irq == irq,
            r@ == FdcModel::fresh(data@),
    {
        let mut disks: Vec<Disk> = Vec::new();
        disks.push(Disk { data: Some(data), head: 0, track: 0, cylinder: 0 });
        disks.push(Disk::empty());
        disks.push(Disk::empty());
        disks.push(Disk::empty());
        let r = Self {
            disks,
            enabled: false,
            irq,
            selected_disk: 0,
            dma_disabled: false,
            interrupts_enabled: true,
            cmd_buf: empty_buf(),
            output_buf: empty_buf(),
            st0: St0 {
                disk: DiskSpecifier { ds: 0, hds: 0 },
                not_ready: false,
                check_equipment: false,
                seeked: false,
                status: CommandStatus::Completed,
            },
            // Drive 0, enabled, with DMA.
            dor: DigitalOutput { value: 0x0C },
        };
        assert(r@.disks =~= seq![
            FloppyModel { head: 0, track: 0, cylinder: 0, data: Some(data@) },
            FloppyModel { head: 0, track: 0, cylinder: 0, data: None },
            FloppyModel { head: 0, track: 0, cylinder: 0, data: None },
            FloppyModel { head: 0, track: 0, cylinder: 0, data: None },
        ]);
        r
    }

    /// Puts another disk into a drive.
    pub fn replace_disk(&mut self, index: usize, new_data: Vec<u8>)
        requires
            old(self).wf(),
            index < 4,
        ensures
            final(self).wf(),
            final(self).irq == old(self).irq,
            final(self)@ == (FdcModel {
                disks: old(self)@.disks.update(
                    index as int,
                    FloppyModel {
                        head: 0,
                        track: 0,
                        cylinder: 0,
                        data: Some(DiskModel { bytes: new_data@, is_cd: false }),
                    },
                ),
                ..old(self)@
            }),
    {
        let disk = Disk {
            head: 0,
            track: 0,
            cylinder: 0,
            data: Some(DiskData::from_mem(new_data)),
        };
        let ghost model = disk@;
        self.disks.set(index, disk);
        assert(self@.disks =~= old(self)@.disks.update(index as int, model));
    }

    /// What a read of a register gives.
    #[verifier::opaque]
    pub open spec fn read_value(&self, addr: u8) -> int {
        if addr == 2 {
            self.dor.value as int
        } else if addr == 4 {
            MainStatus {
                command_in_progress: self@.out.len() > 0,
                dma_disabled: self.dma_disabled,
                transfer_direction: if self@.out.len() > 0 {
                    Dir::FddToCpu
                } else {
                    Dir::CpuToFdd
                },
                ready_to_transfer: true,
            }.value_spec()
        } else if addr == 5 {
            if self@.out.len() > 0 {
                self@.out[0] as int
            } else {
                self.selected_disk as int
            }
        } else {
            0xff
        }
    }

    pub fn read(&mut self, addr: u8) -> (r: u8)
        requires
            old(self).wf(),
        ensures
            final(self).wf(),
            final(self).irq == old(self).irq,
            r == old(self).read_value(addr),
            final(self)@ == (if addr == 5 && old(self)@.out.len() > 0 {
                FdcModel { out: old(self)@.out.skip(1), ..old(self)@ }
            } else {
                old(self)@
            }),
    {
        proof {
            reveal(Fdc::read_value);
        }
        let any_output = as_bytes(&self.output_buf).len() > 0;
        match addr {
            2 => self.dor.value,
            4 => {
                // 1 = RQM data register is ready
                let status = MainStatus {
                    // Set when any read or write transfer is in progress
                    command_in_progress: any_output,
                    dma_disabled: self.dma_disabled,
                    transfer_direction: if any_output {
                        Dir::FddToCpu
                    } else {
                        Dir::CpuToFdd
                    },
                    ready_to_transfer: true,
                };
                status.value()
            },
            5 => {
                if any_output {
                    let r: u8 = remove_byte(&mut self.output_buf, 0);
                    assert(self@.out =~= old(self)@.out.skip(1));
                    r
                } else {
                    // 00 = last command OK
                    // 0 = no seek completed
                    // 0 = no equipment check after error
                    // 0 = ready
                    // 0 = head 0
                    // xx = selected drive
                    self.selected_disk
                }
            },
            _ => 0xff,
        }
    }

    fn raise_interrupt(&self, irq: &mut IrqSystem, Ghost(mem): Ghost<Seq<u8>>)
        requires
            self.irq.ready(&*old(irq)),
        ensures
            self.irq.ready(&*final(irq)),
            still_accepts(&*old(irq), &*final(irq)),
            self.world(mem, final(irq)@) == self.world(mem, old(irq)@).raised(),
    {
        if self.interrupts_enabled {
            self.irq.pulse(irq);
        }
    }

    fn set_cylinder(&mut self, disk: usize, cylinder: u8)
        requires
            old(self).wf(),
            disk < 4,
        ensures
            final(self).irq == old(self).irq,
            final(self)@ == old(self)@.with_cylinder(disk as int, cylinder),
    {
        self.disks[disk].cylinder = cylinder;
        assert(self@.disks =~= old(self)@.with_cylinder(disk as int, cylinder).disks);
    }

    fn write_output(&mut self, val: u8, irq: &mut IrqSystem, Ghost(mem): Ghost<Seq<u8>>)
        requires
            old(self).wf(),
            old(self).irq.ready(&*old(irq)),
        ensures
            final(self).wf(),
            final(self).irq == old(self).irq,
            final(self).irq.ready(&*final(irq)),
            still_accepts(&*old(irq), &*final(irq)),
            final(self).world(mem, final(irq)@) == old(self).world(mem, old(irq)@).output_written(
                val,
            ),
    {
        self.dor = DigitalOutput { value: val };
        let was_enabled = self.enabled;
        self.enabled = val / 4 % 2 == 1;
        self.selected_disk = val % 2;
        self.interrupts_enabled = val / 8 % 2 == 1;
        self.set_cylinder(0, 0);
        self.set_cylinder(1, 0);
        self.set_cylinder(2, 0);
        self.set_cylinder(3, 0);
        assert(self@.disks =~= Seq::new(
            4,
            |i: int| FloppyModel { cylinder: 0, ..old(self)@.disks[i] },
        ));
        if self.enabled && !was_enabled {
            self.raise_interrupt(irq, Ghost(mem));
            self.st0 = St0 {
                disk: DiskSpecifier { ds: self.selected_disk, hds: 0 },
                not_ready: false,
                check_equipment: false,
                seeked: false,
                status: CommandStatus::ReadySignalChange,
            };
        }
    }

    fn read_data(&mut self, rw: RwData, dma: &FddDma, memory: &mut Memory, irq: &mut IrqSystem)
        requires
            old(self).wf(),
            old(self).irq.ready(&*old(irq)),
            rw.disk.wf(),
            old(self)@.out.len() == 0,
            old(self)@.disks[rw.disk.ds as int].read_ok(rw.chrn, *dma, old(memory)@),
        ensures
            final(self).wf(),
            final(self).irq == old(self).irq,
            final(self).irq.ready(&*final(irq)),
            still_accepts(&*old(irq), &*final(irq)),
            final(self).world(final(memory)@, final(irq)@) == old(self).world(
                old(memory)@,
                old(irq)@,
            ).data_read(rw, *dma),
    {
        let n: usize = rw.disk.ds as usize;
        assert(self@.disks[n as int] == self.disks@[n as int]@);
        let result = self.disks[n].read_to_mem(&rw.chrn, dma, memory);
        let chrn = match result {
            Ok(result_chrn) => {
                let mut disk = rw.disk;
                disk.hds = 0;
                self.st0 = St0 {
                    disk,
                    not_ready: false,
                    check_equipment: false,
                    seeked: false,
                    status: CommandStatus::Completed,
                };
                self.set_cylinder(n, result_chrn.c);
                result_chrn
            },
            Err(status) => {
                self.st0 = St0 {
                    disk: rw.disk,
                    not_ready: false,
                    check_equipment: false,
                    seeked: false,
                    status,
                };
                rw.chrn
            },
        };
        let bytes: [u8; 7] = [self.st0.value(), 0, 0, chrn.c, chrn.h, chrn.r, chrn.n];
        push_bytes(&mut self.output_buf, bytes.as_slice());
        assert(self@.out =~= read_result(self.st0, chrn));
        self.raise_interrupt(irq, Ghost(memory@));
    }

    fn execute(&mut self, cmd: Command, dma: &FddDma, memory: &mut Memory, irq: &mut IrqSystem)
        requires
            old(self).wf(),
            old(self).irq.ready(&*old(irq)),
            old(self).world(old(memory)@, old(irq)@).command_ok(cmd, *dma),
            match cmd {
                Command::ReadData(rw) => rw.disk.wf(),
                Command::Recalibrate(disk) => disk.wf(),
                Command::Seek { disk, .. } => disk.wf(),
                _ => true,
            },
        ensures
            final(self).wf(),
            final(self).irq == old(self).irq,
            final(self).irq.ready(&*final(irq)),
            still_accepts(&*old(irq), &*final(irq)),
            final(self).world(final(memory)@, final(irq)@) == old(self).world(
                old(memory)@,
                old(irq)@,
            ).command_done(cmd, *dma),
    {
        match cmd {
            Command::ReadData(rw) => self.read_data(rw, dma, memory, irq),
            Command::Recalibrate(disk) => {
                let n: usize = disk.ds as usize;
                self.disks[n].track = 0;
                let present = self.disks[n].data.is_some();
                self.st0 = St0 {
                    disk,
                    not_ready: !present,
                    check_equipment: false,
                    seeked: true,
                    status: if present {
                        CommandStatus::Completed
                    } else {
                        CommandStatus::TerminatedAbnormally
                    },
                };
                assert(self@.disks =~= old(self)@.disks.update(
                    n as int,
                    FloppyModel { track: 0, ..old(self)@.disks[n as int] },
                ));
                self.raise_interrupt(irq, Ghost(memory@));
            },
            Command::SenseInterruptStatus => {
                let cylinder: u8 = self.disks[self.selected_disk as usize].cylinder;
                let bytes: [u8; 2] = [self.st0.value(), cylinder];
                push_bytes(&mut self.output_buf, bytes.as_slice());
                assert(self@.out =~= old(self)@.out + seq![
                    old(self)@.st0.value_spec() as u8,
                    old(self)@.disks[old(self)@.selected_disk as int].cylinder,
                ]);
            },
            Command::Specify { dma_disabled, .. } => {
                self.dma_disabled = dma_disabled;
            },
            Command::Seek { disk, ncn } => {
                self.set_cylinder(disk.ds as usize, ncn);
                self.st0 = St0 {
                    disk,
                    not_ready: false,
                    check_equipment: false,
                    seeked: true,
                    status: CommandStatus::Completed,
                };
                self.raise_interrupt(irq, Ghost(memory@));
            },
            _ => {},
        }
    }

    /// Writes a register. Register 5 collects the bytes of a command and carries it out once it
    /// is complete.
    pub fn write(
        &mut self,
        addr: u8,
        val: u8,
        dma: &FddDma,
        memory: &mut Memory,
        irq: &mut IrqSystem,
    )
        requires
            old(self).wf(),
            old(self).irq.ready(&*old(irq)),
            old(self).world(old(memory)@, old(irq)@).write_ok(addr, val, *dma),
        ensures
            final(self).wf(),
            final(self).irq == old(self).irq,
            final(self).irq.ready(&*final(irq)),
            still_accepts(&*old(irq), &*final(irq)),
            final(self).world(final(memory)@, final(irq)@) == old(self).world(
                old(memory)@,
                old(irq)@,
            ).written(addr, val, *dma),
    {
        proof {
            reveal(FdcWorld::written);
            reveal(FdcWorld::write_ok);
        }
        match addr {
            2 => self.write_output(val, irq, Ghost(memory@)),
            5 => {
                push_byte(&mut self.cmd_buf, val);
                let cmd = Command::try_parse(as_bytes(&self.cmd_buf));
                if let Some(cmd) = cmd {
                    clear_buf(&mut self.cmd_buf);
                    self.execute(cmd, dma, memory, irq);
                }
            },
            _ => {},
        }
    }

    pub fn snapshot(&self, dma: &FddDma) -> (r: FdcSnapshot)
        requires
            self.wf(),
        ensures
            r@ == self@,
            r.dma == *dma,
    {
        let mut disks: Vec<DiskSnapshot> = Vec::new();
        let mut n: usize = 0;
        while n < self.disks.len()
            invariant
                n <= self.disks@.len(),
                disks@.len() == n,
                forall|i: int| 0 <= i < n ==> #[trigger] disks@[i]@ == self.disks@[i]@,
            decreases self.disks@.len() - n,
        {
            disks.push(self.disks[n].snapshot());
            n = n + 1;
        }
        let r = FdcSnapshot {
            disks,
            enabled: self.enabled,
            selected_disk: self.selected_disk,
            interrupts_enabled: self.interrupts_enabled,
            dma_disabled: self.dma_disabled,
            cmd_buf: copy_buf(&self.cmd_buf),
            output_buf: copy_buf(&self.output_buf),
            st0: self.st0,
            dma: *dma,
            dor: self.dor,
        };
        assert(r@.disks =~= self@.disks);
        r
    }

    pub fn restore(&mut self, fdc: FdcSnapshot, dma: &mut FddDma)
        requires
            fdc@.wf(),
        ensures
            final(self).wf(),
            final(self)@ == fdc@,
            final(self).irq == old(self).irq,
            *final(dma) == fdc.dma,
    {
        let ghost model = fdc@;
        let mut snapshots = fdc.disks;
        let mut disks: Vec<Disk> = Vec::new();
        while snapshots.len() > 0
            invariant
                snapshots@.len() + disks@.len() == model.disks.len(),
                forall|i: int| 0 <= i < disks@.len() ==> #[trigger] disks@[i]@ == model.disks[i],
                forall|i: int|
                    0 <= i < snapshots@.len() ==> #[trigger] snapshots@[i]@ == model.disks[i
                        + disks@.len()],
            decreases snapshots@.len(),
        {
            let snapshot = snapshots.remove(0);
            disks.push(Disk::from_snapshot(snapshot));
        }
        self.disks = disks;
        self.enabled = fdc.enabled;
        self.selected_disk = fdc.selected_disk;
        self.interrupts_enabled = fdc.interrupts_enabled;
        self.dma_disabled = fdc.dma_disabled;
        self.cmd_buf = fdc.cmd_buf;
        self.output_buf = fdc.output_buf;
        self.st0 = fdc.st0;
        *dma = fdc.dma;
        self.dor = fdc.dor;
        assert(self@.disks =~= model.disks);
    }
}

/// A read command, of nine bytes: the drive and its head, the cylinder, the head, the sector and its
/// size, and three more. The sectors are read into memory, and the result is status 0, two zeros and
/// the sector that follows.
pub proof fn read_commands_read_sectors(w: FdcWorld, cmd: Seq<u8>, dma: FddDma)
    requires
        cmd.len() == 9,
        cmd[0] == 0xE6 || cmd[0] == 0xC6,
        w.fdc.disks.len() == 4,
        w.fdc.disks[cmd[1] as int % 4].data.is_some(),
    ensures
        Command::of_bytes(cmd) is Some,
        ({
            let after = w.command_done(Command::of_bytes(cmd).unwrap(), dma);
            let drive = cmd[1] as int % 4;
            let chrn = Chrn { c: cmd[2], h: cmd[3], r: cmd[4], n: cmd[5] };
            let sectors = (dma.len as int + 512) / 512;
            let next = w.fdc.disks[drive].incremented(chrn, sectors);
            &&& after.mem == w.fdc.disks[drive].read_into(chrn, dma, w.mem)
            &&& after.fdc.out == seq![drive as u8, 0, 0, next.c, next.h, next.r, next.n]
            &&& after.fdc.disks[drive].cylinder == next.c
            &&& after.fdc.disks[drive].data == w.fdc.disks[drive].data
            &&& after.irq == (if w.fdc.interrupts_enabled {
                w.line.pulsed(w.irq)
            } else {
                w.irq
            })
        }),
{
    assert(ceil_div(dma.len + 1, 512) == (dma.len as int + 512) / 512);
    let after = w.command_done(Command::of_bytes(cmd).unwrap(), dma);
    let drive: int = cmd[1] as int % 4;
    assert(after.fdc.out =~= seq![
        drive as u8,
        0,
        0,
        after.fdc.out[3],
        after.fdc.out[4],
        after.fdc.out[5],
        after.fdc.out[6],
    ]);
}

/// A command is carried out once its last byte is there: 15 with a drive and a cylinder seeks, 8 tells
/// status 0 and the cylinder of the selected drive, 7 with a drive goes back to track 0.
pub proof fn seeks_move_the_drive(w: FdcWorld, drive: u8, cylinder: u8, dma: FddDma)
    requires
        w.fdc.disks.len() == 4,
        drive < 4,
        w.fdc.cmd.len() == 0,
        w.fdc.out.len() == 0,
    ensures
        ({
            let sought = w.written(5, 0x0F, dma).written(5, drive, dma).written(5, cylinder, dma);
            &&& w.written(5, 0x0F, dma).fdc.cmd == seq![0x0Fu8]
            &&& sought.fdc.cmd.len() == 0
            &&& sought.fdc.disks[drive as int].cylinder == cylinder
            &&& forall|i: int|
                0 <= i < 4 && i != drive ==> #[trigger] sought.fdc.disks[i] == w.fdc.disks[i]
            &&& sought.fdc.st0.value_spec() == 0x20 + drive
            &&& sought.mem == w.mem
            &&& sought.irq == (if w.fdc.interrupts_enabled {
                w.line.pulsed(w.irq)
            } else {
                w.irq
            })
        }),
        ({
            let told = w.written(5, 0x08, dma);
            told.fdc.out == seq![
                w.fdc.st0.value_spec() as u8,
                w.fdc.disks[w.fdc.selected_disk as int].cylinder,
            ] && told.fdc.cmd.len() == 0 && told.irq == w.irq
        }),
{
    reveal(FdcWorld::written);
    let a = w.written(5, 0x0F, dma);
    assert(w.fdc.cmd.push(0x0Fu8) =~= seq![0x0Fu8]);
    assert(CmdId::of_byte(0x0F) == CmdId::Seek);
    assert(a == w.with_cmd(seq![0x0Fu8]));
    let b = a.written(5, drive, dma);
    assert(a.fdc.cmd.push(drive) =~= seq![0x0Fu8, drive]);
    assert(b == w.with_cmd(seq![0x0Fu8, drive]));
    assert(b.fdc.cmd.push(cylinder) =~= seq![0x0Fu8, drive, cylinder]);
    assert(w.fdc.cmd.push(0x08u8) =~= seq![0x08u8]);
    assert(CmdId::of_byte(0x08) == CmdId::SenseInterruptStatus);
    let told = w.written(5, 0x08, dma);
    assert(told.fdc.out =~= seq![
        w.fdc.st0.value_spec() as u8,
        w.fdc.disks[w.fdc.selected_disk as int].cylinder,
    ]);
}

} // verus!
