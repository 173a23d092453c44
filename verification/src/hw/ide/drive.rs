//! A drive on an IDE channel: its geometry, how blocks are addressed, and how it identifies itself.
use vstd::prelude::*;

use crate::bytes::{
    le16, le32, le64, push_all, push_byte, push_le16, push_le32, push_le64, push_words, weight,
    words, zeros,
};
use crate::hw::storage::{DiskData, DiskDataSnapshot, DiskModel};

verus! {

#[derive(Copy, Clone, Debug, PartialEq, Eq, Structural)]
pub struct Geometry {
    pub head_count: u16,
    pub sector_size: u16,
    pub sectors_per_track: u16,
}

#[derive(Copy, Clone, Debug, PartialEq, Eq, Structural)]
pub enum BlockAddr {
    /// The linear block address, which is simply the index of the sector.
    Lba(u32),
    Chs { cylinder: u16, head: u8, sector: u8 },
}

impl BlockAddr {
    /// Sectors of a track are numbered from 1.
    pub open spec fn valid(&self) -> bool {
        match self {
            BlockAddr::Lba(_) => true,
            BlockAddr::Chs { sector, .. } => *sector >= 1,
        }
    }

    /// The index of the sector on the drive.
    pub open spec fn sector_index(&self, geometry: Geometry) -> int {
        match self {
            BlockAddr::Lba(n) => *n as int,
            // LBA = (((C * NUM_HEADS) + H) * SECTORS_PER_TRACK)+(S-1)
            BlockAddr::Chs { cylinder, head, sector } => (*cylinder * geometry.head_count + *head)
                * geometry.sectors_per_track + (*sector - 1),
        }
    }

    pub open spec fn byte_offset(&self, geometry: Geometry) -> int {
        self.sector_index(geometry) * geometry.sector_size
    }

    pub fn as_byte_offset(&self, geometry: &Geometry) -> (r: u64)
        requires
            self.valid(),
            self.byte_offset(*geometry) <= u64::MAX,
        ensures
            r == self.byte_offset(*geometry),
    {
        match *self {
            BlockAddr::Lba(n) => {
                assert(n * geometry.sector_size <= u64::MAX) by (nonlinear_arith)
                    requires
                        n <= u32::MAX,
                        geometry.sector_size <= u16::MAX,
                ;
                n as u64 * geometry.sector_size as u64
            },
            BlockAddr::Chs { cylinder, head, sector } => {
                let cylinder_index: u64 = cylinder as u64;
                let heads: u64 = geometry.head_count as u64;
                let sectors: u64 = geometry.sectors_per_track as u64;
                assert(cylinder_index * heads <= 0xffff * 0xffff) by (nonlinear_arith)
                    requires
                        cylinder_index <= 0xffff,
                        heads <= 0xffff,
                ;
                let track_index: u64 = cylinder_index * heads + head as u64;
                assert(track_index * sectors <= 0x1_0000_0000 * 0xffff) by (nonlinear_arith)
                    requires
                        track_index <= 0x1_0000_0000,
                        sectors <= 0xffff,
                ;
                let sector_index: u64 = track_index * sectors + (sector - 1) as u64;
                sector_index * geometry.sector_size as u64
            },
        }
    }

    /// Whether there is a next address: the geometry has heads and sectors, and the address does
    /// not run out of its range.
    pub open spec fn has_next(&self, geometry: Geometry) -> bool {
        match self {
            BlockAddr::Lba(n) => *n < u32::MAX,
            BlockAddr::Chs { cylinder, head, sector } => {
                &&& geometry.sectors_per_track % 0x100 != 0
                &&& geometry.head_count % 0x100 != 0
                &&& *head < 0xff
                &&& *sector as int % (geometry.sectors_per_track as int % 0x100) < 0xff
                &&& *cylinder < 0xffff
            },
        }
    }

    /// The address that follows. A cylinder ends whenever the next head is head 0.
    pub open spec fn next(&self, geometry: Geometry) -> BlockAddr {
        match self {
            BlockAddr::Lba(n) => BlockAddr::Lba((*n + 1) as u32),
            BlockAddr::Chs { cylinder, head, sector } => {
                let next_sector = *sector as int % (geometry.sectors_per_track as int % 0x100) + 1;
                let next_head = (*head + (if next_sector == 1 {
                    1int
                } else {
                    0
                })) % (geometry.head_count as int % 0x100);
                BlockAddr::Chs {
                    cylinder: (*cylinder + (if next_head == 0 {
                        1int
                    } else {
                        0
                    })) as u16,
                    head: next_head as u8,
                    sector: next_sector as u8,
                }
            },
        }
    }

    pub fn next_sector(&self, geometry: &Geometry) -> (r: BlockAddr)
        requires
            self.has_next(*geometry),
        ensures
            r == self.next(*geometry),
    {
        match *self {
            BlockAddr::Lba(n) => BlockAddr::Lba(n + 1),
            BlockAddr::Chs { cylinder, head, sector } => {
                let sectors: u8 = (geometry.sectors_per_track % 0x100) as u8;
                let heads: u8 = (geometry.head_count % 0x100) as u8;
                let sector: u8 = (sector % sectors) + 1;
                let step: u8 = if sector == 1 {
                    1
                } else {
                    0
                };
                let head: u8 = (head + step) % heads;
                let carry: u16 = if head == 0 {
                    1
                } else {
                    0
                };
                let cylinder: u16 = cylinder + carry;
                BlockAddr::Chs { cylinder, head, sector }
            },
        }
    }
}

/// The next linear address lies one sector behind.
pub proof fn next_lba_is_next_sector(n: u32, geometry: Geometry)
    requires
        n < u32::MAX,
    ensures
        BlockAddr::Lba(n).next(geometry).byte_offset(geometry) == BlockAddr::Lba(n).byte_offset(
            geometry,
        ) + geometry.sector_size,
{
    assert((n + 1) * geometry.sector_size == n * geometry.sector_size + geometry.sector_size)
        by (nonlinear_arith);
}

/// The next cylinder, head and sector lie one sector behind, unless the head is head 0 and its
/// track goes on: there the cylinder moves on although the track has not ended.
pub proof fn next_chs_is_next_sector(cylinder: u16, head: u8, sector: u8, geometry: Geometry)
    requires
        0 < geometry.sectors_per_track < 0x100,
        0 < geometry.head_count < 0x100,
        1 <= sector <= geometry.sectors_per_track,
        head < geometry.head_count,
        cylinder < 0xffff,
        head != 0 || sector == geometry.sectors_per_track,
    ensures
        ({
            let addr = BlockAddr::Chs { cylinder, head, sector };
            &&& addr.has_next(geometry)
            &&& addr.next(geometry).sector_index(geometry) == addr.sector_index(geometry) + 1
        }),
{
    let s: int = geometry.sectors_per_track as int;
    let h: int = geometry.head_count as int;
    let c: int = cylinder as int;
    assert(s % 0x100 == s && h % 0x100 == h);
    if sector == s {
        assert(s % s == 0);
        if head + 1 == h {
            assert(h % h == 0);
            assert(((c + 1) * h + 0) * s == (c * h + head) * s + s) by (nonlinear_arith)
                requires
                    head + 1 == h,
            ;
        } else {
            vstd::arithmetic::div_mod::lemma_small_mod((head + 1) as nat, h as nat);
            assert((c * h + (head + 1)) * s == (c * h + head) * s + s) by (nonlinear_arith);
        }
    } else {
        vstd::arithmetic::div_mod::lemma_small_mod(sector as nat, s as nat);
        vstd::arithmetic::div_mod::lemma_small_mod(head as nat, h as nat);
    }
}

#[derive(Copy, Clone, Debug, PartialEq, Eq, Structural)]
pub struct GeneralConfig {
    pub hard_sectored: bool,
    pub soft_sectored: bool,
    pub not_mfm_encoded: bool,
    pub head_switch_time_more_than_15usec: bool,
    pub spindle_motor_control_option_implemented: bool,
    pub fixed_drive: bool,
    pub removable_cartridge_drive: bool,
    pub disk_transfer_rate_less_than_5mbps: bool,
    pub disk_transfer_rate_5_to_10mbps: bool,
    pub disk_transfer_rate_more_than_10mbps: bool,
    pub rotational_speed_tolerance_more_than_half_a_percent: bool,
    pub data_strobe_offset_option_available: bool,
    pub track_offset_option_available: bool,
    pub format_speed_tolerance_gap_required: bool,
    pub not_an_ata_device: bool,
}

fn weigh16(b: bool, p: u16) -> (r: u16)
    ensures
        r == weight(b, p as int),
{
    if b {
        p
    } else {
        0
    }
}

impl GeneralConfig {
    pub open spec fn zeroed_spec() -> GeneralConfig {
        GeneralConfig {
            hard_sectored: false,
            soft_sectored: false,
            not_mfm_encoded: false,
            head_switch_time_more_than_15usec: false,
            spindle_motor_control_option_implemented: false,
            fixed_drive: false,
            removable_cartridge_drive: false,
            disk_transfer_rate_less_than_5mbps: false,
            disk_transfer_rate_5_to_10mbps: false,
            disk_transfer_rate_more_than_10mbps: false,
            rotational_speed_tolerance_more_than_half_a_percent: false,
            data_strobe_offset_option_available: false,
            track_offset_option_available: false,
            format_speed_tolerance_gap_required: false,
            not_an_ata_device: false,
        }
    }

    pub fn zeroed() -> (r: Self)
        ensures
            r == Self::zeroed_spec(),
    {
        GeneralConfig {
            hard_sectored: false,
            soft_sectored: false,
            not_mfm_encoded: false,
            head_switch_time_more_than_15usec: false,
            spindle_motor_control_option_implemented: false,
            fixed_drive: false,
            removable_cartridge_drive: false,
            disk_transfer_rate_less_than_5mbps: false,
            disk_transfer_rate_5_to_10mbps: false,
            disk_transfer_rate_more_than_10mbps: false,
            rotational_speed_tolerance_more_than_half_a_percent: false,
            data_strobe_offset_option_available: false,
            track_offset_option_available: false,
            format_speed_tolerance_gap_required: false,
            not_an_ata_device: false,
        }
    }

    /// Bits 1 to 7; bit 0 is reserved.
    pub open spec fn low_bits(&self) -> int {
        weight(self.hard_sectored, 2) + weight(self.soft_sectored, 4) + weight(
            self.not_mfm_encoded,
            8,
        ) + weight(self.head_switch_time_more_than_15usec, 0x10) + weight(
            self.spindle_motor_control_option_implemented,
            0x20,
        ) + weight(self.fixed_drive, 0x40) + weight(self.removable_cartridge_drive, 0x80)
    }

    /// Bits 8 to 15.
    pub open spec fn high_bits(&self) -> int {
        weight(self.disk_transfer_rate_less_than_5mbps, 0x100) + weight(
            self.disk_transfer_rate_5_to_10mbps,
            0x200,
        ) + weight(self.disk_transfer_rate_more_than_10mbps, 0x400) + weight(
            self.rotational_speed_tolerance_more_than_half_a_percent,
            0x800,
        ) + weight(self.data_strobe_offset_option_available, 0x1000) + weight(
            self.track_offset_option_available,
            0x2000,
        ) + weight(self.format_speed_tolerance_gap_required, 0x4000) + weight(
            self.not_an_ata_device,
            0x8000,
        )
    }

    pub open spec fn value_spec(&self) -> int {
        self.low_bits() + self.high_bits()
    }

    fn low(&self) -> (r: u16)
        ensures
            r == self.low_bits(),
            r <= 0xfe,
    {
        weigh16(self.hard_sectored, 2) + weigh16(self.soft_sectored, 4) + weigh16(
            self.not_mfm_encoded,
            8,
        ) + weigh16(self.head_switch_time_more_than_15usec, 0x10) + weigh16(
            self.spindle_motor_control_option_implemented,
            0x20,
        ) + weigh16(self.fixed_drive, 0x40) + weigh16(self.removable_cartridge_drive, 0x80)
    }

    fn high(&self) -> (r: u16)
        ensures
            r == self.high_bits(),
            r <= 0xff00,
    {
        weigh16(self.disk_transfer_rate_less_than_5mbps, 0x100) + weigh16(
            self.disk_transfer_rate_5_to_10mbps,
            0x200,
        ) + weigh16(self.disk_transfer_rate_more_than_10mbps, 0x400) + weigh16(
            self.rotational_speed_tolerance_more_than_half_a_percent,
            0x800,
        ) + weigh16(self.data_strobe_offset_option_available, 0x1000) + weigh16(
            self.track_offset_option_available,
            0x2000,
        ) + weigh16(self.format_speed_tolerance_gap_required, 0x4000) + weigh16(
            self.not_an_ata_device,
            0x8000,
        )
    }

    pub fn value(&self) -> (r: u16)
        ensures
            r == self.value_spec(),
    {
        self.low() + self.high()
    }
}

#[derive(Copy, Clone, Debug, PartialEq, Eq, Structural)]
pub struct Capabilities {
    pub vendor_unique: u8,
    pub dma_supported: bool,
    pub lba_supported: bool,
}

impl Capabilities {
    pub open spec fn value_spec(&self) -> int {
        self.vendor_unique + weight(self.dma_supported, 0x100) + weight(self.lba_supported, 0x200)
    }

    pub fn value(&self) -> (r: u16)
        ensures
            r == self.value_spec(),
    {
        self.vendor_unique as u16 + weigh16(self.dma_supported, 0x100) + weigh16(
            self.lba_supported,
            0x200,
        )
    }
}

/// The answer to an identify command.
#[derive(Copy, Clone, Debug)]
pub struct DriveId {
    pub general: GeneralConfig,
    /// Number of cylinders in the default translation mode.
    pub cylinder_count: u16,
    pub reserved1: u16,
    /// Number of heads in the default translation mode.
    pub head_count: u16,
    /// Number of bytes per track in the default translation mode.
    pub unformatted_bytes_per_track: u16,
    /// Number of bytes per sector in the default translation mode.
    pub unformatted_bytes_per_sector: u16,
    /// Number of sectors per track in the default translation mode.
    pub sectors_per_track: u16,
    pub vendor_specific: [u16; 3],
    /// Right-justified serial number padded with spaces
    pub serial_number: [u8; 20],
    pub buffer_type: u16,
    /// The buffer size / 512.
    pub buffer_size: u16,
    /// 0x0000 = not specified
    pub ecc_byte_num: u16,
    /// Left-justified firmware revision padded with spaces.
    pub firmware_revision: [u8; 8],
    /// Left-justified model number padded with spaces.
    pub model_number: [u8; 40],
    /// 0x00 = read/write multiple commands not implemented
    pub maximum_sectors_transferred_per_interrupt: u8,
    pub vendor_specific2: u8,
    /// 0x0000 if not supported, 0x0001 if supported
    pub doubleword_io_supported: u16,
    pub capabilities: Capabilities,
    pub reserved2: u16,
    pub vendor_specific3: u8,
    pub pio_data_transfer_cycle_timing_mode: u8,
    pub vendor_specific4: u8,
    pub dma_data_transfer_cycle_timing_mode: u8,
    /// 0x0001 if unclear, 0x0001 if values reported in the following 4 words are correct.
    pub counts_correct: u16,
    pub current_cylinder_count: u16,
    pub current_head_count: u16,
    pub current_sectors_per_track: u16,
    pub current_sector_capacity: u32,
    pub multiple_sector_commands_support: u16,
    pub total_lba_sectors: u32,
    pub single_word_dma_supported: u8,
    pub single_word_dma_active: u8,
    pub multiword_dma_supported: u8,
    pub multiword_dma_active: u8,
    pub pio_modes_supported: u16,
    pub pio_dma_cycle_time: [u16; 4],
    pub reserved3: [u16; 11],
    pub ata_support: u16,
    pub minor_version_number: u16,
    pub various_support_flags: [u16; 6],
    pub udma_mode: u16,
    pub reserved4: [u16; 4],
    pub unknown_number: u16,
    pub reserved5: [u16; 6],
    pub total_sector_count_48bit: u64,
    pub reserved6: [u16; 24],
    pub vendor_specific5: [u16; 32],
    pub reserved: [u16; 96],
}

/// What an identify command answers, field by field.
pub struct DriveIdModel {
    pub general: GeneralConfig,
    pub cylinder_count: u16,
    pub reserved1: u16,
    pub head_count: u16,
    pub unformatted_bytes_per_track: u16,
    pub unformatted_bytes_per_sector: u16,
    pub sectors_per_track: u16,
    pub vendor_specific: Seq<u16>,
    pub serial_number: Seq<u8>,
    pub buffer_type: u16,
    pub buffer_size: u16,
    pub ecc_byte_num: u16,
    pub firmware_revision: Seq<u8>,
    pub model_number: Seq<u8>,
    pub maximum_sectors_transferred_per_interrupt: u8,
    pub vendor_specific2: u8,
    pub doubleword_io_supported: u16,
    pub capabilities: Capabilities,
    pub reserved2: u16,
    pub vendor_specific3: u8,
    pub pio_data_transfer_cycle_timing_mode: u8,
    pub vendor_specific4: u8,
    pub dma_data_transfer_cycle_timing_mode: u8,
    pub counts_correct: u16,
    pub current_cylinder_count: u16,
    pub current_head_count: u16,
    pub current_sectors_per_track: u16,
    pub current_sector_capacity: u32,
    pub multiple_sector_commands_support: u16,
    pub total_lba_sectors: u32,
    pub single_word_dma_supported: u8,
    pub single_word_dma_active: u8,
    pub multiword_dma_supported: u8,
    pub multiword_dma_active: u8,
    pub pio_modes_supported: u16,
    pub pio_dma_cycle_time: Seq<u16>,
    pub reserved3: Seq<u16>,
    pub ata_support: u16,
    pub minor_version_number: u16,
    pub various_support_flags: Seq<u16>,
    pub udma_mode: u16,
    pub reserved4: Seq<u16>,
    pub unknown_number: u16,
    pub reserved5: Seq<u16>,
    pub total_sector_count_48bit: u64,
    pub reserved6: Seq<u16>,
    pub vendor_specific5: Seq<u16>,
    pub reserved: Seq<u16>,
}

impl View for DriveId {
    type V = DriveIdModel;

    open spec fn view(&self) -> DriveIdModel {
        DriveIdModel {
            general: self.general,
            cylinder_count: self.cylinder_count,
            reserved1: self.reserved1,
            head_count: self.head_count,
            unformatted_bytes_per_track: self.unformatted_bytes_per_track,
            unformatted_bytes_per_sector: self.unformatted_bytes_per_sector,
            sectors_per_track: self.sectors_per_track,
            vendor_specific: self.vendor_specific@,
            serial_number: self.serial_number@,
            buffer_type: self.buffer_type,
            buffer_size: self.buffer_size,
            ecc_byte_num: self.ecc_byte_num,
            firmware_revision: self.firmware_revision@,
            model_number: self.model_number@,
            maximum_sectors_transferred_per_interrupt: self.maximum_sectors_transferred_per_interrupt,
            vendor_specific2: self.vendor_specific2,
            doubleword_io_supported: self.doubleword_io_supported,
            capabilities: self.capabilities,
            reserved2: self.reserved2,
            vendor_specific3: self.vendor_specific3,
            pio_data_transfer_cycle_timing_mode: self.pio_data_transfer_cycle_timing_mode,
            vendor_specific4: self.vendor_specific4,
            dma_data_transfer_cycle_timing_mode: self.dma_data_transfer_cycle_timing_mode,
            counts_correct: self.counts_correct,
            current_cylinder_count: self.current_cylinder_count,
            current_head_count: self.current_head_count,
            current_sectors_per_track: self.current_sectors_per_track,
            current_sector_capacity: self.current_sector_capacity,
            multiple_sector_commands_support: self.multiple_sector_commands_support,
            total_lba_sectors: self.total_lba_sectors,
            single_word_dma_supported: self.single_word_dma_supported,
            single_word_dma_active: self.single_word_dma_active,
            multiword_dma_supported: self.multiword_dma_supported,
            multiword_dma_active: self.multiword_dma_active,
            pio_modes_supported: self.pio_modes_supported,
            pio_dma_cycle_time: self.pio_dma_cycle_time@,
            reserved3: self.reserved3@,
            ata_support: self.ata_support,
            minor_version_number: self.minor_version_number,
            various_support_flags: self.various_support_flags@,
            udma_mode: self.udma_mode,
            reserved4: self.reserved4@,
            unknown_number: self.unknown_number,
            reserved5: self.reserved5@,
            total_sector_count_48bit: self.total_sector_count_48bit,
            reserved6: self.reserved6@,
            vendor_specific5: self.vendor_specific5@,
            reserved: self.reserved@,
        }
    }
}

impl DriveIdModel {
    /// The 512 bytes of the answer.
    pub open spec fn bytes(&self) -> Seq<u8> {
        Seq::<u8>::empty()
            + le16(self.general.value_spec() as u16)
            + le16(self.cylinder_count)
            + le16(self.reserved1)
            + le16(self.head_count)
            + le16(self.unformatted_bytes_per_track)
            + le16(self.unformatted_bytes_per_sector)
            + le16(self.sectors_per_track)
            + words(self.vendor_specific)
            + self.serial_number
            + le16(self.buffer_type)
            + le16(self.buffer_size)
            + le16(self.ecc_byte_num)
            + self.firmware_revision
            + self.model_number
            + seq![self.maximum_sectors_transferred_per_interrupt]
            + seq![self.vendor_specific2]
            + le16(self.doubleword_io_supported)
            + le16(self.capabilities.value_spec() as u16)
            + le16(self.reserved2)
            + seq![self.vendor_specific3]
            + seq![self.pio_data_transfer_cycle_timing_mode]
            + seq![self.vendor_specific4]
            + seq![self.dma_data_transfer_cycle_timing_mode]
            + le16(self.counts_correct)
            + le16(self.current_cylinder_count)
            + le16(self.current_head_count)
            + le16(self.current_sectors_per_track)
            + le32(self.current_sector_capacity)
            + le16(self.multiple_sector_commands_support)
            + le32(self.total_lba_sectors)
            + seq![self.single_word_dma_supported]
            + seq![self.single_word_dma_active]
            + seq![self.multiword_dma_supported]
            + seq![self.multiword_dma_active]
            + le16(self.pio_modes_supported)
            + words(self.pio_dma_cycle_time)
            + words(self.reserved3)
            + le16(self.ata_support)
            + le16(self.minor_version_number)
            + words(self.various_support_flags)
            + le16(self.udma_mode)
            + words(self.reserved4)
            + le16(self.unknown_number)
            + words(self.reserved5)
            + le64(self.total_sector_count_48bit)
            + words(self.reserved6)
            + words(self.vendor_specific5)
            + words(self.reserved)
    }

    /// All fields zero.
    pub open spec fn zeroed() -> DriveIdModel {
        DriveIdModel {
            general: GeneralConfig::zeroed_spec(),
            cylinder_count: 0,
            reserved1: 0,
            head_count: 0,
            unformatted_bytes_per_track: 0,
            unformatted_bytes_per_sector: 0,
            sectors_per_track: 0,
            vendor_specific: Seq::new(3, |i: int| 0u16),
            serial_number: zeros(20),
            buffer_type: 0,
            buffer_size: 0,
            ecc_byte_num: 0,
            firmware_revision: zeros(8),
            model_number: zeros(40),
            maximum_sectors_transferred_per_interrupt: 0,
            vendor_specific2: 0,
            doubleword_io_supported: 0,
            capabilities: Capabilities { vendor_unique: 0, dma_supported: false, lba_supported: false },
            reserved2: 0,
            vendor_specific3: 0,
            pio_data_transfer_cycle_timing_mode: 0,
            vendor_specific4: 0,
            dma_data_transfer_cycle_timing_mode: 0,
            counts_correct: 0,
            current_cylinder_count: 0,
            current_head_count: 0,
            current_sectors_per_track: 0,
            current_sector_capacity: 0,
            multiple_sector_commands_support: 0,
            total_lba_sectors: 0,
            single_word_dma_supported: 0,
            single_word_dma_active: 0,
            multiword_dma_supported: 0,
            multiword_dma_active: 0,
            pio_modes_supported: 0,
            pio_dma_cycle_time: Seq::new(4, |i: int| 0u16),
            reserved3: Seq::new(11, |i: int| 0u16),
            ata_support: 0,
            minor_version_number: 0,
            various_support_flags: Seq::new(6, |i: int| 0u16),
            udma_mode: 0,
            reserved4: Seq::new(4, |i: int| 0u16),
            unknown_number: 0,
            reserved5: Seq::new(6, |i: int| 0u16),
            total_sector_count_48bit: 0,
            reserved6: Seq::new(24, |i: int| 0u16),
            vendor_specific5: Seq::new(32, |i: int| 0u16),
            reserved: Seq::new(96, |i: int| 0u16),
        }
    }
}

impl DriveId {
    pub fn zeroed() -> (r: Self)
        ensures
            r@ == DriveIdModel::zeroed(),
    {
        let r = DriveId {
            general: GeneralConfig::zeroed(),
            cylinder_count: 0,
            reserved1: 0,
            head_count: 0,
            unformatted_bytes_per_track: 0,
            unformatted_bytes_per_sector: 0,
            sectors_per_track: 0,
            vendor_specific: [0u16; 3],
            serial_number: [0u8; 20],
            buffer_type: 0,
            buffer_size: 0,
            ecc_byte_num: 0,
            firmware_revision: [0u8; 8],
            model_number: [0u8; 40],
            maximum_sectors_transferred_per_interrupt: 0,
            vendor_specific2: 0,
            doubleword_io_supported: 0,
            capabilities: Capabilities { vendor_unique: 0, dma_supported: false, lba_supported: false },
            reserved2: 0,
            vendor_specific3: 0,
            pio_data_transfer_cycle_timing_mode: 0,
            vendor_specific4: 0,
            dma_data_transfer_cycle_timing_mode: 0,
            counts_correct: 0,
            current_cylinder_count: 0,
            current_head_count: 0,
            current_sectors_per_track: 0,
            current_sector_capacity: 0,
            multiple_sector_commands_support: 0,
            total_lba_sectors: 0,
            single_word_dma_supported: 0,
            single_word_dma_active: 0,
            multiword_dma_supported: 0,
            multiword_dma_active: 0,
            pio_modes_supported: 0,
            pio_dma_cycle_time: [0u16; 4],
            reserved3: [0u16; 11],
            ata_support: 0,
            minor_version_number: 0,
            various_support_flags: [0u16; 6],
            udma_mode: 0,
            reserved4: [0u16; 4],
            unknown_number: 0,
            reserved5: [0u16; 6],
            total_sector_count_48bit: 0,
            reserved6: [0u16; 24],
            vendor_specific5: [0u16; 32],
            reserved: [0u16; 96],
        };
        assert(r@.vendor_specific =~= DriveIdModel::zeroed().vendor_specific);
        assert(r@.serial_number =~= DriveIdModel::zeroed().serial_number);
        assert(r@.firmware_revision =~= DriveIdModel::zeroed().firmware_revision);
        assert(r@.model_number =~= DriveIdModel::zeroed().model_number);
        assert(r@.pio_dma_cycle_time =~= DriveIdModel::zeroed().pio_dma_cycle_time);
        assert(r@.reserved3 =~= DriveIdModel::zeroed().reserved3);
        assert(r@.various_support_flags =~= DriveIdModel::zeroed().various_support_flags);
        assert(r@.reserved4 =~= DriveIdModel::zeroed().reserved4);
        assert(r@.reserved5 =~= DriveIdModel::zeroed().reserved5);
        assert(r@.reserved6 =~= DriveIdModel::zeroed().reserved6);
        assert(r@.vendor_specific5 =~= DriveIdModel::zeroed().vendor_specific5);
        assert(r@.reserved =~= DriveIdModel::zeroed().reserved);
        r
    }

    /// The fields in order, without padding, in little-endian order.
    pub fn to_bytes(&self) -> (r: Vec<u8>)
        ensures
            r@ == self@.bytes(),
            r@.len() == 512,
    {
        let mut r: Vec<u8> = Vec::new();
        assert(r@ =~= Seq::<u8>::empty());
        push_le16(&mut r, self.general.value());
        push_le16(&mut r, self.cylinder_count);
        push_le16(&mut r, self.reserved1);
        push_le16(&mut r, self.head_count);
        push_le16(&mut r, self.unformatted_bytes_per_track);
        push_le16(&mut r, self.unformatted_bytes_per_sector);
        push_le16(&mut r, self.sectors_per_track);
        push_words(&mut r, self.vendor_specific.as_slice());
        push_all(&mut r, self.serial_number.as_slice());
        push_le16(&mut r, self.buffer_type);
        push_le16(&mut r, self.buffer_size);
        push_le16(&mut r, self.ecc_byte_num);
        push_all(&mut r, self.firmware_revision.as_slice());
        push_all(&mut r, self.model_number.as_slice());
        push_byte(&mut r, self.maximum_sectors_transferred_per_interrupt);
        push_byte(&mut r, self.vendor_specific2);
        push_le16(&mut r, self.doubleword_io_supported);
        push_le16(&mut r, self.capabilities.value());
        push_le16(&mut r, self.reserved2);
        push_byte(&mut r, self.vendor_specific3);
        push_byte(&mut r, self.pio_data_transfer_cycle_timing_mode);
        push_byte(&mut r, self.vendor_specific4);
        push_byte(&mut r, self.dma_data_transfer_cycle_timing_mode);
        push_le16(&mut r, self.counts_correct);
        push_le16(&mut r, self.current_cylinder_count);
        push_le16(&mut r, self.current_head_count);
        push_le16(&mut r, self.current_sectors_per_track);
        push_le32(&mut r, self.current_sector_capacity);
        push_le16(&mut r, self.multiple_sector_commands_support);
        push_le32(&mut r, self.total_lba_sectors);
        push_byte(&mut r, self.single_word_dma_supported);
        push_byte(&mut r, self.single_word_dma_active);
        push_byte(&mut r, self.multiword_dma_supported);
        push_byte(&mut r, self.multiword_dma_active);
        push_le16(&mut r, self.pio_modes_supported);
        push_words(&mut r, self.pio_dma_cycle_time.as_slice());
        push_words(&mut r, self.reserved3.as_slice());
        push_le16(&mut r, self.ata_support);
        push_le16(&mut r, self.minor_version_number);
        push_words(&mut r, self.various_support_flags.as_slice());
        push_le16(&mut r, self.udma_mode);
        push_words(&mut r, self.reserved4.as_slice());
        push_le16(&mut r, self.unknown_number);
        push_words(&mut r, self.reserved5.as_slice());
        push_le64(&mut r, self.total_sector_count_48bit);
        push_words(&mut r, self.reserved6.as_slice());
        push_words(&mut r, self.vendor_specific5.as_slice());
        push_words(&mut r, self.reserved.as_slice());
        r
    }
}

/// A string of an identify answer: padded with spaces, the two bytes of each word swapped.
pub open spec fn ata_string(s: Seq<u8>, n: nat) -> Seq<u8> {
    Seq::new(
        n,
        |i: int|
            {
                let from = if i % 2 == 0 {
                    i + 1
                } else {
                    i - 1
                };
                if from < s.len() {
                    s[from]
                } else {
                    0x20
                }
            },
    )
}

/// A drive: what is on its disk, and the geometry by which blocks are addressed.
#[derive(Debug)]
pub struct Drive {
    pub head: u8,
    pub write_in_progress: bool,
    pub data: DiskData,
    pub geometry: Geometry,
}

pub struct DriveModel {
    pub head: u8,
    pub write_in_progress: bool,
    pub data: DiskModel,
    pub geometry: Geometry,
}

#[derive(Debug)]
pub struct DriveSnapshot {
    pub head: u8,
    pub write_in_progress: bool,
    pub data: DiskDataSnapshot,
    pub geometry: Geometry,
}

impl View for DriveSnapshot {
    type V = DriveModel;

    open spec fn view(&self) -> DriveModel {
        DriveModel {
            head: self.head,
            write_in_progress: self.write_in_progress,
            data: self.data@,
            geometry: self.geometry,
        }
    }
}

impl View for Drive {
    type V = DriveModel;

    open spec fn view(&self) -> DriveModel {
        DriveModel {
            head: self.head,
            write_in_progress: self.write_in_progress,
            data: self.data@,
            geometry: self.geometry,
        }
    }
}

impl DriveModel {
    pub open spec fn sector_total(&self) -> int {
        self.data.bytes.len() as int / self.geometry.sector_size as int
    }

    pub open spec fn cylinder_total(&self) -> int {
        self.sector_total() / (self.geometry.head_count * self.geometry.sectors_per_track)
    }

    /// The geometry is one that a drive can identify itself with: no factor is 0, and a track of
    /// a hard disk fits in 16 bits.
    pub open spec fn identifiable(&self) -> bool {
        &&& self.geometry.sector_size != 0
        &&& self.geometry.head_count != 0
        &&& self.geometry.sectors_per_track != 0
        &&& !self.data.is_cd ==> self.geometry.sector_size * self.geometry.sectors_per_track
            <= 0xffff
    }

    pub open spec fn identity(&self) -> DriveIdModel {
        let general = GeneralConfig {
            fixed_drive: true,
            removable_cartridge_drive: self.data.is_cd,
            disk_transfer_rate_less_than_5mbps: self.data.is_cd,
            disk_transfer_rate_more_than_10mbps: self.data.is_cd,
            not_an_ata_device: self.data.is_cd,
            ..GeneralConfig::zeroed_spec()
        };
        let capabilities = Capabilities {
            vendor_unique: 0,
            dma_supported: true,
            lba_supported: true,
        };
        let cylinders = (self.cylinder_total() % 0x1_0000) as u16;
        let sectors = (self.sector_total() % 0x1_0000_0000) as u32;
        if self.data.is_cd {
            DriveIdModel {
                general,
                // "ALPHA1"
                firmware_revision: ata_string(seq![0x41u8, 0x4c, 0x50, 0x48, 0x41, 0x31], 8),
                // "Generic 1234"
                model_number: ata_string(
                    seq![
                        0x47u8,
                        0x65,
                        0x6e,
                        0x65,
                        0x72,
                        0x69,
                        0x63,
                        0x20,
                        0x31,
                        0x32,
                        0x33,
                        0x34,
                    ],
                    40,
                ),
                // "BXCD00001"
                serial_number: ata_string(
                    seq![0x42u8, 0x58, 0x43, 0x44, 0x30, 0x30, 0x30, 0x30, 0x31],
                    20,
                ),
                capabilities,
                doubleword_io_supported: 1,
                counts_correct: 0x3,
                multiword_dma_supported: 0x7,
                pio_modes_supported: 1,
                pio_dma_cycle_time: seq![0xB4u16, 0xB4, 0x12C, 0xB4],
                reserved3: seq![0u16, 0, 30, 30, 0, 0, 0, 0, 0, 0, 0],
                ata_support: 0x1E,
                ..DriveIdModel::zeroed()
            }
        } else {
            DriveIdModel {
                general,
                cylinder_count: cylinders,
                head_count: self.geometry.head_count,
                unformatted_bytes_per_track: (self.geometry.sector_size
                    * self.geometry.sectors_per_track) as u16,
                unformatted_bytes_per_sector: self.geometry.sector_size,
                sectors_per_track: self.geometry.sectors_per_track,
                // "FIRMWARE"
                firmware_revision: ata_string(
                    seq![0x46u8, 0x49, 0x52, 0x4d, 0x57, 0x41, 0x52, 0x45],
                    8,
                ),
                // "Virtual IDE Drive"
                model_number: ata_string(
                    seq![
                        0x56u8,
                        0x69,
                        0x72,
                        0x74,
                        0x75,
                        0x61,
                        0x6c,
                        0x20,
                        0x49,
                        0x44,
                        0x45,
                        0x20,
                        0x44,
                        0x72,
                        0x69,
                        0x76,
                        0x65,
                    ],
                    40,
                ),
                // "BXHD00011"
                serial_number: ata_string(
                    seq![0x42u8, 0x58, 0x48, 0x44, 0x30, 0x30, 0x30, 0x31, 0x31],
                    20,
                ),
                capabilities,
                total_lba_sectors: sectors,
                buffer_type: 0x3,
                buffer_size: 0x200,
                ecc_byte_num: 0x04,
                maximum_sectors_transferred_per_interrupt: 0x10,
                doubleword_io_supported: 1,
                pio_data_transfer_cycle_timing_mode: 0x02,
                dma_data_transfer_cycle_timing_mode: 0x02,
                counts_correct: 0x7,
                current_cylinder_count: cylinders,
                current_head_count: self.geometry.head_count,
                current_sectors_per_track: self.geometry.sectors_per_track,
                current_sector_capacity: sectors,
                multiword_dma_supported: 0x7,
                pio_modes_supported: 0,
                ata_support: 0x7E,
                various_support_flags: seq![0x4000u16, 0x7400, 0x4000, 0x4000, 0x7400, 0x4000],
                udma_mode: 0x3F,
                unknown_number: 0x6001,
                total_sector_count_48bit: self.sector_total() as u64,
                ..DriveIdModel::zeroed()
            }
        }
    }
}

impl Drive {
    fn str<const N: usize>(s: &[u8]) -> (r: [u8; N])
        requires
            s@.len() <= N,
            N % 2 == 0,
        ensures
            r@ == ata_string(s@, N as nat),
    {
        let mut data: [u8; N] = [0x20u8;N];
        let mut index: usize = 0;
        while index < s.len()
            invariant
                index <= s@.len() <= N,
                N % 2 == 0,
                forall|i: int|
                    #![trigger data@[i]]
                    0 <= i < N ==> data@[i] == ({
                        let from = if i % 2 == 0 {
                            i + 1
                        } else {
                            i - 1
                        };
                        if from < index {
                            s@[from]
                        } else {
                            0x20
                        }
                    }),
            decreases s.len() - index,
        {
            let to: usize = if index % 2 == 0 {
                index + 1
            } else {
                index - 1
            };
            data[to] = s[index];
            index = index + 1;
        }
        assert(data@ =~= ata_string(s@, N as nat));
        data
    }

    pub fn new(data: DiskData) -> (r: Self)
        ensures
            r@ == (DriveModel {
                head: 0,
                write_in_progress: false,
                data: data@,
                geometry: Geometry { head_count: 16, sector_size: 512, sectors_per_track: 63 },
            }),
    {
        Drive {
            head: 0,
            write_in_progress: false,
            data,
            geometry: Geometry { head_count: 16, sector_size: 512, sectors_per_track: 63 },
        }
    }

    pub fn identify(&self) -> (r: DriveId)
        requires
            self@.identifiable(),
        ensures
            r@ == self@.identity(),
    {
        let is_cd = self.is_cd();
        let mut general = GeneralConfig::zeroed();
        general.fixed_drive = true;
        if is_cd {
            general.removable_cartridge_drive = true;
            general.disk_transfer_rate_less_than_5mbps = true;
            general.disk_transfer_rate_more_than_10mbps = true;
            general.not_an_ata_device = true;
        }
        let geometry = self.geometry;
        let total_sector_count: u64 = self.data.len() / geometry.sector_size as u64;
        proof {
            let h = geometry.head_count as int;
            let s = geometry.sectors_per_track as int;
            assert(0 < h * s <= 0xffff * 0xffff) by (nonlinear_arith)
                requires
                    0 < h <= 0xffff,
                    0 < s <= 0xffff,
            ;
        }
        let cylinder_count: u64 = total_sector_count / (geometry.head_count as u64
            * geometry.sectors_per_track as u64);
        let capabilities = Capabilities {
            vendor_unique: 0,
            dma_supported: true,
            lba_supported: true,
        };
        let mut id = DriveId::zeroed();
        id.general = general;
        id.capabilities = capabilities;
        if is_cd {
            id.firmware_revision = Self::str([0x41u8, 0x4c, 0x50, 0x48, 0x41, 0x31].as_slice());
            id.model_number = Self::str(
                [
                    0x47u8,
                    0x65,
                    0x6e,
                    0x65,
                    0x72,
                    0x69,
                    0x63,
                    0x20,
                    0x31,
                    0x32,
                    0x33,
                    0x34,
                ].as_slice(),
            );
            id.serial_number = Self::str(
                [0x42u8, 0x58, 0x43, 0x44, 0x30, 0x30, 0x30, 0x30, 0x31].as_slice(),
            );
            id.doubleword_io_supported = 1;
            id.counts_correct = 0x3;
            id.multiword_dma_supported = 0x7;
            id.pio_modes_supported = 1;
            id.pio_dma_cycle_time = [0xB4, 0xB4, 0x12C, 0xB4];
            id.reserved3 = [0, 0, 30, 30, 0, 0, 0, 0, 0, 0, 0];
            id.ata_support = 0x1E;
        } else {
            let sectors: u32 = (total_sector_count % 0x1_0000_0000) as u32;
            let cylinders: u16 = (cylinder_count % 0x1_0000) as u16;
            id.cylinder_count = cylinders;
            id.head_count = geometry.head_count;
            id.unformatted_bytes_per_track = geometry.sector_size * geometry.sectors_per_track;
            id.unformatted_bytes_per_sector = geometry.sector_size;
            id.sectors_per_track = geometry.sectors_per_track;
            id.firmware_revision = Self::str(
                [0x46u8, 0x49, 0x52, 0x4d, 0x57, 0x41, 0x52, 0x45].as_slice(),
            );
            id.model_number = Self::str(
                [
                    0x56u8,
                    0x69,
                    0x72,
                    0x74,
                    0x75,
                    0x61,
                    0x6c,
                    0x20,
                    0x49,
                    0x44,
                    0x45,
                    0x20,
                    0x44,
                    0x72,
                    0x69,
                    0x76,
                    0x65,
                ].as_slice(),
            );
            id.serial_number = Self::str(
                [0x42u8, 0x58, 0x48, 0x44, 0x30, 0x30, 0x30, 0x31, 0x31].as_slice(),
            );
            id.total_lba_sectors = sectors;
            id.buffer_type = 0x3;
            id.buffer_size = 0x200;
            id.ecc_byte_num = 0x04;
            id.maximum_sectors_transferred_per_interrupt = 0x10;
            id.doubleword_io_supported = 1;
            id.pio_data_transfer_cycle_timing_mode = 0x02;
            id.dma_data_transfer_cycle_timing_mode = 0x02;
            id.counts_correct = 0x7;
            id.current_cylinder_count = cylinders;
            id.current_head_count = geometry.head_count;
            id.current_sectors_per_track = geometry.sectors_per_track;
            id.current_sector_capacity = sectors;
            id.multiword_dma_supported = 0x7;
            id.pio_modes_supported = 0;
            id.ata_support = 0x7E;
            id.various_support_flags = [0x4000, 0x7400, 0x4000, 0x4000, 0x7400, 0x4000];
            id.udma_mode = 0x3F;
            id.unknown_number = 0x6001;
            id.total_sector_count_48bit = total_sector_count;
        }
        proof {
            let m = self@.identity();
            assert(id@.firmware_revision =~= m.firmware_revision);
            assert(id@.model_number =~= m.model_number);
            assert(id@.serial_number =~= m.serial_number);
            assert(id@.pio_dma_cycle_time =~= m.pio_dma_cycle_time);
            assert(id@.reserved3 =~= m.reserved3);
            assert(id@.various_support_flags =~= m.various_support_flags);
            assert(id@.general == m.general);
        }
        id
    }

    pub fn is_cd(&self) -> (r: bool)
        ensures
            r == self@.data.is_cd,
    {
        self.data.is_cd()
    }

    pub fn snapshot(&self) -> (r: DriveSnapshot)
        ensures
            r@ == self@,
    {
        DriveSnapshot {
            head: self.head,
            write_in_progress: self.write_in_progress,
            data: self.data.snapshot(),
            geometry: self.geometry,
        }
    }

    pub fn from_snapshot(snapshot: DriveSnapshot) -> (r: Self)
        ensures
            r@ == snapshot@,
    {
        Self {
            head: snapshot.head,
            write_in_progress: snapshot.write_in_progress,
            data: DiskData::from_snapshot(snapshot.data),
            geometry: snapshot.geometry,
        }
    }
}

} // verus!
