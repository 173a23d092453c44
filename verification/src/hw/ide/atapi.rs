//! Packets of CD drives.
use vstd::prelude::*;

use crate::bytes::{be16, be32, bit_at, from_be16, from_be32, push_zeros, weigh8, weight};

verus! {

#[derive(Copy, Clone, Debug, PartialEq, Eq, Structural)]
pub enum Phase {
    Data,
    Command,
}

#[derive(Copy, Clone, Debug, PartialEq, Eq, Structural)]
pub enum Direction {
    HostToDevice,
    DeviceToHost,
}

/// Why a CD drive raised an interrupt; read from the sector count register.
#[derive(Copy, Clone, Debug, PartialEq, Eq, Structural)]
pub struct AtapiInterruptReason {
    pub phase: Phase,
    pub direction: Direction,
    pub rel: bool,
    /// Five bits.
    pub tag: u8,
}

impl AtapiInterruptReason {
    pub open spec fn as_u8_spec(&self) -> int {
        weight(self.phase == Phase::Command, 1) + weight(
            self.direction == Direction::DeviceToHost,
            2,
        ) + weight(self.rel, 4) + 8 * self.tag
    }

    pub fn as_u8(&self) -> (r: u8)
        requires
            self.tag < 32,
        ensures
            r == self.as_u8_spec(),
    {
        let phase: u8 = match self.phase {
            Phase::Data => 0,
            Phase::Command => 1,
        };
        let direction: u8 = match self.direction {
            Direction::HostToDevice => 0,
            Direction::DeviceToHost => 2,
        };
        phase + direction + weigh8(self.rel, 4) + 8 * self.tag
    }
}

#[derive(Copy, Clone, Debug, PartialEq, Eq, Structural)]
pub enum StartStopCommand {
    Stop,
    Start,
    Eject,
    Load,
}

#[allow(inconsistent_fields)]
#[derive(Copy, Clone, Debug, PartialEq, Eq, Structural)]
pub enum AtapiPacket {
    /// Does nothing when unit is OK, returns CHECK CONDITION status and sense code.
    TestUnitReady { logical_unit_number: u8 },
    RequestSense { logical_unit_number: u8, allocation_length: u8 },
    StartStopUnit { command: StartStopCommand },
    MechanismStatus,
    ModeSense {
        logical_unit_number: u8,
        pc: u8,
        page_code: u8,
        allocation_length: u16,
        flag: bool,
        link: bool,
    },
    Inquiry { logical_unit_number: u8, allocation_length: u8, flag: bool, link: bool },
    ReadCdromCapacity,
    ReadCd,
    ReadToc {
        msf: bool,
        logical_unit_number: u8,
        track_number: u8,
        allocation_length: u16,
        flag: bool,
        link: bool,
        starting_track: u8,
        format: u8,
    },
    Read { lba: u32, transfer_length: u32 },
    Seek,
    EjectLock,
    ReadSubchannel {
        msf: bool,
        sub_q: bool,
        data_format: u8,
        track_number: u8,
        allocation_length: u8,
    },
    ReadDiscInfo,
    GetEventStatusNotification { polled: bool, request: u8, allocation_length: u16 },
}

pub const ATAPI_TEST_UNIT_READY: u8 = 0x00;

pub const ATAPI_REQUEST_SENSE: u8 = 0x03;

pub const ATAPI_START_STOP_UNIT: u8 = 0x1b;

pub const ATAPI_MECHANISM_STATUS: u8 = 0xbd;

pub const ATAPI_MODE_SENSE6: u8 = 0x1a;

pub const ATAPI_MODE_SENSE10: u8 = 0x5a;

pub const ATAPI_INQUIRY: u8 = 0x12;

pub const ATAPI_READ_CDROM_CAPACITY: u8 = 0x25;

pub const ATAPI_READ_CD: u8 = 0xbe;

pub const ATAPI_READ_TOC: u8 = 0x43;

pub const ATAPI_READ10: u8 = 0x28;

pub const ATAPI_READ12: u8 = 0xa8;

pub const ATAPI_SEEK: u8 = 0x2b;

pub const ATAPI_EJECT_LOCK: u8 = 0x1e;

pub const ATAPI_READ_SUBCHANNEL: u8 = 0x42;

pub const ATAPI_READ_DISC_INFO: u8 = 0x51;

pub const ATAPI_GET_EVENT_STATUS_NOTIFICATION: u8 = 0x4a;

#[derive(Copy, Clone, Debug, PartialEq, Eq, Structural)]
pub enum AtapiError {
    IllegalOpcode,
    LogicalBlockOor,
    InvalidFieldInCmdPacket,
    MediumMayHaveChanged,
    SavingParametersNotSupported,
    MediumNotPresent,
}

/// What the twelve bytes of a packet ask for.
pub open spec fn packet_of(b: Seq<u8>) -> Result<AtapiPacket, AtapiError> {
    let lun = (b[1] / 32) as u8;
    let op = b[0];
    if op == ATAPI_TEST_UNIT_READY {
        Ok(AtapiPacket::TestUnitReady { logical_unit_number: lun })
    } else if op == ATAPI_REQUEST_SENSE {
        Ok(AtapiPacket::RequestSense { logical_unit_number: lun, allocation_length: b[4] })
    } else if op == ATAPI_START_STOP_UNIT {
        Ok(
            AtapiPacket::StartStopUnit {
                command: if b[4] % 4 == 0 {
                    StartStopCommand::Stop
                } else if b[4] % 4 == 1 {
                    StartStopCommand::Start
                } else if b[4] % 4 == 2 {
                    StartStopCommand::Eject
                } else {
                    StartStopCommand::Load
                },
            },
        )
    } else if op == ATAPI_MECHANISM_STATUS {
        Ok(AtapiPacket::MechanismStatus)
    } else if op == ATAPI_MODE_SENSE6 || op == ATAPI_MODE_SENSE10 {
        Ok(
            AtapiPacket::ModeSense {
                logical_unit_number: lun,
                pc: (b[2] / 64) as u8,
                page_code: (b[2] % 64) as u8,
                allocation_length: if op == ATAPI_MODE_SENSE6 {
                    b[4] as u16
                } else {
                    from_be16(b[7], b[8]) as u16
                },
                flag: bit_at(b[5] as int, 2),
                link: bit_at(b[5] as int, 1),
            },
        )
    } else if op == ATAPI_INQUIRY {
        Ok(
            AtapiPacket::Inquiry {
                logical_unit_number: lun,
                allocation_length: b[4],
                flag: bit_at(b[5] as int, 2),
                link: bit_at(b[5] as int, 1),
            },
        )
    } else if op == ATAPI_READ_CDROM_CAPACITY {
        Ok(AtapiPacket::ReadCdromCapacity)
    } else if op == ATAPI_READ_CD {
        Ok(AtapiPacket::ReadCd)
    } else if op == ATAPI_READ_TOC {
        Ok(
            AtapiPacket::ReadToc {
                msf: bit_at(b[1] as int, 2),
                logical_unit_number: lun,
                track_number: b[5],
                allocation_length: from_be16(b[7], b[8]) as u16,
                flag: bit_at(b[9] as int, 2),
                link: bit_at(b[9] as int, 1),
                starting_track: b[6],
                format: (b[9] / 64) as u8,
            },
        )
    } else if op == ATAPI_READ10 || op == ATAPI_READ12 {
        Ok(
            AtapiPacket::Read {
                lba: from_be32(b[2], b[3], b[4], b[5]) as u32,
                transfer_length: if op == ATAPI_READ10 {
                    from_be16(b[7], b[8]) as u32
                } else {
                    from_be32(b[6], b[7], b[8], b[9]) as u32
                },
            },
        )
    } else if op == ATAPI_SEEK {
        Ok(AtapiPacket::Seek)
    } else if op == ATAPI_EJECT_LOCK {
        Ok(AtapiPacket::EjectLock)
    } else if op == ATAPI_READ_SUBCHANNEL {
        Ok(
            AtapiPacket::ReadSubchannel {
                msf: bit_at(b[1] as int, 2),
                sub_q: bit_at(b[2] as int, 64),
                data_format: b[3],
                track_number: b[6],
                allocation_length: b[7],
            },
        )
    } else if op == ATAPI_READ_DISC_INFO {
        Ok(AtapiPacket::ReadDiscInfo)
    } else if op == ATAPI_GET_EVENT_STATUS_NOTIFICATION {
        Ok(
            AtapiPacket::GetEventStatusNotification {
                polled: bit_at(b[1] as int, 1),
                request: b[4],
                allocation_length: from_be16(b[7], b[8]) as u16,
            },
        )
    } else {
        Err(AtapiError::IllegalOpcode)
    }
}

impl AtapiPacket {
    pub fn parse(bytes: &[u8; 12]) -> (r: Result<AtapiPacket, AtapiError>)
        ensures
            r == packet_of(bytes@),
    {
        let logical_unit_number: u8 = bytes[1] / 32;
        let packet = match bytes[0] {
            ATAPI_TEST_UNIT_READY => Self::TestUnitReady { logical_unit_number },
            ATAPI_REQUEST_SENSE => Self::RequestSense {
                logical_unit_number,
                allocation_length: bytes[4],
            },
            ATAPI_START_STOP_UNIT => Self::StartStopUnit {
                command: match bytes[4] % 4 {
                    0 => StartStopCommand::Stop,
                    1 => StartStopCommand::Start,
                    2 => StartStopCommand::Eject,
                    _ => StartStopCommand::Load,
                },
            },
            ATAPI_MECHANISM_STATUS => Self::MechanismStatus,
            ATAPI_MODE_SENSE6 | ATAPI_MODE_SENSE10 => Self::ModeSense {
                logical_unit_number,
                pc: bytes[2] / 64,
                page_code: bytes[2] % 64,
                allocation_length: if bytes[0] == ATAPI_MODE_SENSE6 {
                    bytes[4] as u16
                } else {
                    be16(bytes[7], bytes[8])
                },
                flag: bytes[5] / 2 % 2 == 1,
                link: bytes[5] % 2 == 1,
            },
            ATAPI_INQUIRY => Self::Inquiry {
                logical_unit_number,
                allocation_length: bytes[4],
                flag: bytes[5] / 2 % 2 == 1,
                link: bytes[5] % 2 == 1,
            },
            ATAPI_READ_CDROM_CAPACITY => Self::ReadCdromCapacity,
            ATAPI_READ_CD => Self::ReadCd,
            ATAPI_READ_TOC => Self::ReadToc {
                msf: bytes[1] / 2 % 2 == 1,
                starting_track: bytes[6],
                logical_unit_number,
                allocation_length: be16(bytes[7], bytes[8]),
                track_number: bytes[5],
                flag: bytes[9] / 2 % 2 == 1,
                link: bytes[9] % 2 == 1,
                format: bytes[9] / 64,
            },
            ATAPI_READ10 | ATAPI_READ12 => Self::Read {
                lba: be32(bytes[2], bytes[3], bytes[4], bytes[5]),
                transfer_length: if bytes[0] == ATAPI_READ10 {
                    be16(bytes[7], bytes[8]) as u32
                } else {
                    be32(bytes[6], bytes[7], bytes[8], bytes[9])
                },
            },
            ATAPI_SEEK => Self::Seek,
            ATAPI_EJECT_LOCK => Self::EjectLock,
            ATAPI_READ_SUBCHANNEL => Self::ReadSubchannel {
                msf: bytes[1] / 2 % 2 == 1,
                sub_q: bytes[2] / 64 % 2 == 1,
                data_format: bytes[3],
                track_number: bytes[6],
                allocation_length: bytes[7],
            },
            ATAPI_READ_DISC_INFO => Self::ReadDiscInfo,
            ATAPI_GET_EVENT_STATUS_NOTIFICATION => Self::GetEventStatusNotification {
                allocation_length: be16(bytes[7], bytes[8]),
                polled: bytes[1] % 2 == 1,
                request: bytes[4],
            },
            _ => {
                return Err(AtapiError::IllegalOpcode);
            },
        };
        Ok(packet)
    }
}

/// The address of a block in a table of contents: minute, second and frame, with the two seconds
/// that lie before block 0, or the big-endian number of the block.
pub open spec fn toc_address(msf: bool, blocks: u32) -> Seq<u8> {
    if msf {
        seq![
            0u8,
            ((blocks + 150) / 75 / 60 % 0x100) as u8,
            ((blocks + 150) / 75 % 60) as u8,
            ((blocks + 150) % 75) as u8,
        ]
    } else {
        seq![
            (blocks / 0x100_0000) as u8,
            (blocks / 0x1_0000 % 0x100) as u8,
            (blocks / 0x100 % 0x100) as u8,
            (blocks % 0x100) as u8,
        ]
    }
}

fn push_toc_address(buf: &mut Vec<u8>, msf: bool, blocks: u32)
    requires
        msf ==> blocks + 150 <= u32::MAX,
    ensures
        final(buf)@ == old(buf)@ + toc_address(msf, blocks),
{
    if msf {
        buf.push(0);
        buf.push(((blocks + 150) / 75 / 60 % 0x100) as u8);
        buf.push(((blocks + 150) / 75 % 60) as u8);
        buf.push(((blocks + 150) % 75) as u8);
    } else {
        buf.push((blocks / 0x100_0000) as u8);
        buf.push((blocks / 0x1_0000 % 0x100) as u8);
        buf.push((blocks / 0x100 % 0x100) as u8);
        buf.push((blocks % 0x100) as u8);
    }
    assert(buf@ =~= old(buf)@ + toc_address(msf, blocks));
}

/// The first track of a disc with one track.
pub open spec fn toc_first_track(msf: bool) -> Seq<u8> {
    seq![
        0u8,
        0x14,
        1,
        0,
        0,
        0,
        if msf {
            2u8
        } else {
            0u8
        },
        0,
    ]
}

/// One descriptor of the raw table of contents.
pub open spec fn toc_raw_descriptor(i: int, msf: bool, blocks: u32) -> Seq<u8> {
    seq![
        1u8,
        0x14,
        0,
        if i < 3 {
            (0xa0 + i) as u8
        } else {
            1u8
        },
        0,
        0,
        0,
    ] + (if i < 2 {
        seq![0u8, 1, 0, 0]
    } else if i == 2 {
        toc_address(msf, blocks)
    } else {
        seq![0u8, 0, 0, 0]
    })
}

/// Whether a start track is allowed: 0, 1 or the lead-out.
pub open spec fn toc_start_valid(start_track: u8) -> bool {
    start_track <= 1 || start_track == 0xaa
}

/// The table of contents of a disc with a single track: two bytes of length (which do not count
/// themselves), the first and the last track or session, and the entries.
pub open spec fn simple_toc(msf: bool, format: u8, start_track: u8, capacity: u32) -> Seq<u8> {
    if format == 0 {
        let first = if start_track <= 1 {
            toc_first_track(msf)
        } else {
            Seq::<u8>::empty()
        };
        seq![0u8, (10 + first.len()) as u8, 1, 1] + first + seq![0u8, 0x16, 0xaa, 0] + toc_address(
            msf,
            capacity,
        )
    } else if format == 1 {
        seq![0u8, 0x0a, 1, 1, 0, 0, 0, 0, 0, 0, 0, 0]
    } else {
        seq![0u8, 46, 1, 1] + toc_raw_descriptor(0, msf, capacity) + toc_raw_descriptor(
            1,
            msf,
            capacity,
        ) + toc_raw_descriptor(2, msf, capacity) + toc_raw_descriptor(3, msf, capacity)
    }
}

fn push_toc_raw_descriptor(buf: &mut Vec<u8>, i: u8, msf: bool, blocks: u32)
    requires
        i < 4,
        msf ==> blocks + 150 <= u32::MAX,
    ensures
        final(buf)@ == old(buf)@ + toc_raw_descriptor(i as int, msf, blocks),
{
    buf.push(1);
    buf.push(0x14);
    buf.push(0);
    if i < 3 {
        buf.push(0xa0 + i);
    } else {
        buf.push(1);
    }
    buf.push(0);
    buf.push(0);
    buf.push(0);
    if i < 2 {
        buf.push(0);
        buf.push(1);
        buf.push(0);
        buf.push(0);
    } else if i == 2 {
        push_toc_address(buf, msf, blocks);
    } else {
        buf.push(0);
        buf.push(0);
        buf.push(0);
        buf.push(0);
    }
    assert(buf@ =~= old(buf)@ + toc_raw_descriptor(i as int, msf, blocks));
}

/// Builds the table of contents of a disc of `capacity` blocks. The formats are 0 (tracks), 1
/// (sessions) and 2 (raw).
pub fn compute_simple_toc(msf: bool, format: u8, start_track: u8, capacity: u32) -> (r: Result<
    Vec<u8>,
    &'static str,
>)
    requires
        format <= 2,
        msf && format != 1 && (format == 0 ==> toc_start_valid(start_track)) ==> capacity + 150
            <= u32::MAX,
    ensures
        r.is_ok() == (format == 0 ==> toc_start_valid(start_track)),
        r.is_ok() ==> r.unwrap()@ == simple_toc(msf, format, start_track, capacity),
        r.is_err() ==> r->Err_0@ == "invalid start track"@,
{
    let mut buf: Vec<u8> = Vec::new();
    buf.push(0);
    buf.push(0);
    buf.push(1);
    buf.push(1);
    match format {
        0 => {
            // From atapi specs : start track can be 0-63, AA
            if start_track > 1 && start_track != 0xaa {
                return Err("invalid start track");
            }
            if start_track <= 1 {
                buf.push(0);  // Reserved
                buf.push(0x14);  // ADR, control
                buf.push(1);  // Track number
                buf.push(0);  // Reserved
                buf.push(0);
                buf.push(0);  // minute
                buf.push(
                    if msf {
                        2
                    } else {
                        0
                    },
                );  // second
                buf.push(0);  // frame
            }
            // Lead out track
            buf.push(0);  // Reserved
            buf.push(0x16);  // ADR, control
            buf.push(0xaa);  // Track number
            buf.push(0);  // Reserved
            push_toc_address(&mut buf, msf, capacity);
            let len: usize = buf.len();
            buf.set(1, (len - 2) as u8);
            assert(buf@ =~= simple_toc(msf, format, start_track, capacity));
        },
        1 => {
            // multi session stuff - emulate a single session only
            buf.set(1, 0x0a);
            push_zeros(&mut buf, 8);
            assert(buf@ =~= simple_toc(msf, format, start_track, capacity));
        },
        _ => {
            // raw toc - emulate a single session only
            push_toc_raw_descriptor(&mut buf, 0, msf, capacity);
            push_toc_raw_descriptor(&mut buf, 1, msf, capacity);
            push_toc_raw_descriptor(&mut buf, 2, msf, capacity);
            push_toc_raw_descriptor(&mut buf, 3, msf, capacity);
            let len: usize = buf.len();
            assert(len == 48);
            buf.set(1, (len - 2) as u8);
            assert(buf@ =~= simple_toc(msf, format, start_track, capacity));
        },
    }
    Ok(buf)
}

/// The length that a table of contents announces counts the bytes behind the length itself.
pub proof fn toc_announces_its_length(msf: bool, format: u8, start_track: u8, capacity: u32)
    requires
        format <= 2,
    ensures
        simple_toc(msf, format, start_track, capacity).len() == 2 + from_be16(
            simple_toc(msf, format, start_track, capacity)[0],
            simple_toc(msf, format, start_track, capacity)[1],
        ),
{
}

} // verus!
