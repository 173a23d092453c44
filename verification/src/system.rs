//! What the parts of the processor share.
use vstd::prelude::*;

verus! {

/// The default sizes of the code and stack segments.
#[derive(Copy, Clone, Debug, PartialEq, Eq, Structural)]
pub enum SegmentSizes {
    Cs16Ss16,
    Cs16Ss32,
    Cs32Ss16,
    Cs32Ss32,
}

impl SegmentSizes {
    pub open spec fn has_cs32(self) -> bool {
        self == SegmentSizes::Cs32Ss16 || self == SegmentSizes::Cs32Ss32
    }

    /// Whether the code segment has a default size of 32 bits.
    pub fn is_cs32(self) -> (r: bool)
        ensures
            r == self.has_cs32(),
    {
        match self {
            SegmentSizes::Cs16Ss16 => false,
            SegmentSizes::Cs16Ss32 => false,
            SegmentSizes::Cs32Ss16 => true,
            SegmentSizes::Cs32Ss32 => true,
        }
    }
}

/// The variable parts of an instruction, packed.
#[derive(Copy, Clone, Debug, PartialEq, Eq, Structural)]
pub struct PartValues {
    pub bits: u128,
}

impl PartValues {
    pub fn all_zero() -> (r: Self)
        ensures
            r.bits == 0,
    {
        PartValues { bits: 0 }
    }
}

/// The default size of a segment.
#[derive(Copy, Clone, Debug, PartialEq, Eq, Structural)]
pub enum Db {
    Protected16,
    Protected32,
}

impl Db {
    pub open spec fn bytes(self) -> u32 {
        match self {
            Db::Protected16 => 2,
            Db::Protected32 => 4,
        }
    }

    pub fn num_bytes(self) -> (r: u32)
        ensures
            r == self.bytes(),
    {
        match self {
            Db::Protected16 => 2,
            Db::Protected32 => 4,
        }
    }
}

pub open spec fn sizes_of(cs: Db, ss: Db) -> SegmentSizes {
    match (cs, ss) {
        (Db::Protected16, Db::Protected16) => SegmentSizes::Cs16Ss16,
        (Db::Protected16, Db::Protected32) => SegmentSizes::Cs16Ss32,
        (Db::Protected32, Db::Protected16) => SegmentSizes::Cs32Ss16,
        (Db::Protected32, Db::Protected32) => SegmentSizes::Cs32Ss32,
    }
}

impl SegmentSizes {
    /// The sizes of a code and a stack segment.
    pub fn of(cs: Db, ss: Db) -> (r: Self)
        ensures
            r == sizes_of(cs, ss),
    {
        match (cs, ss) {
            (Db::Protected16, Db::Protected16) => SegmentSizes::Cs16Ss16,
            (Db::Protected16, Db::Protected32) => SegmentSizes::Cs16Ss32,
            (Db::Protected32, Db::Protected16) => SegmentSizes::Cs32Ss16,
            (Db::Protected32, Db::Protected32) => SegmentSizes::Cs32Ss32,
        }
    }
}

/// What a segment register holds: an index into a descriptor table, the table, and a privilege
/// level.
#[derive(Copy, Clone, Debug, PartialEq, Eq, Structural)]
pub struct SegmentSelector {
    pub value: u16,
}

impl SegmentSelector {
    pub open spec fn index(self) -> u16 {
        self.value / 8
    }

    pub open spec fn local(self) -> bool {
        self.value / 4 % 2 == 1
    }

    pub open spec fn level(self) -> u8 {
        (self.value % 4) as u8
    }

    /// A selector of the first entry of the global table.
    pub open spec fn null(self) -> bool {
        self.index() == 0 && !self.local()
    }

    pub fn segment_index(self) -> (r: u16)
        ensures
            r == self.index(),
    {
        self.value / 8
    }

    pub fn is_local(self) -> (r: bool)
        ensures
            r == self.local(),
    {
        self.value / 4 % 2 == 1
    }

    pub fn rpl(self) -> (r: u8)
        ensures
            r == self.level(),
    {
        (self.value % 4) as u8
    }

    pub fn is_null(self) -> (r: bool)
        ensures
            r == self.null(),
    {
        self.value / 8 == 0 && self.value / 4 % 2 == 0
    }
}

/// A segment descriptor.
#[derive(Copy, Clone, Debug, PartialEq, Eq, Structural)]
pub struct Descriptor {
    pub base: u32,
    /// The limit of 20 bits, in bytes or pages.
    pub limit: u32,
    pub access_byte: u8,
    /// The four flags: available, long, size and granularity.
    pub flags: u8,
}

/// The bits of an access byte.
pub open spec fn access_present(access: u8) -> bool {
    access / 0x80 == 1
}

pub open spec fn access_dpl(access: u8) -> u8 {
    access / 0x20 % 4
}

pub open spec fn access_is_segment(access: u8) -> bool {
    access / 0x10 % 2 == 1
}

pub open spec fn access_executable(access: u8) -> bool {
    access / 8 % 2 == 1
}

/// Whether a data segment grows down, or a code segment is conforming.
pub open spec fn access_direction(access: u8) -> bool {
    access / 4 % 2 == 1
}

pub open spec fn access_accessed(access: u8) -> bool {
    access % 2 == 1
}

/// An access byte with the bit set that says that the segment was used.
pub open spec fn marked_accessed(access: u8) -> u8 {
    if access_accessed(access) {
        access
    } else {
        (access + 1) as u8
    }
}

impl Descriptor {
    pub open spec fn of_value(v: u64) -> Descriptor {
        Descriptor {
            base: (v / 0x1_0000 % 0x100_0000 + v / 0x100_0000_0000_0000 * 0x100_0000) as u32,
            limit: (v % 0x1_0000 + v / 0x1_0000_0000_0000 % 0x10 * 0x1_0000) as u32,
            access_byte: (v / 0x100_0000_0000 % 0x100) as u8,
            flags: (v / 0x10_0000_0000_0000 % 0x10) as u8,
        }
    }

    /// Decodes a descriptor.
    pub fn from_value(v: u64) -> (r: Self)
        ensures
            r == Self::of_value(v),
    {
        Descriptor {
            base: (v / 0x1_0000 % 0x100_0000 + v / 0x100_0000_0000_0000 * 0x100_0000) as u32,
            limit: (v % 0x1_0000 + v / 0x1_0000_0000_0000 % 0x10 * 0x1_0000) as u32,
            access_byte: (v / 0x100_0000_0000 % 0x100) as u8,
            flags: (v / 0x10_0000_0000_0000 % 0x10) as u8,
        }
    }

    pub open spec fn real_mode(selector: u16) -> Descriptor {
        Descriptor {
            base: (selector * 16) as u32,
            limit: 0xffff,
            access_byte: 0x93,
            flags: 0,
        }
    }

    /// The segment that a selector names in real mode: 64 KiB of data from a multiple of 16 on.
    pub fn from_real_mode_selector(selector: u16) -> (r: Self)
        ensures
            r == Self::real_mode(selector),
    {
        Descriptor { base: selector as u32 * 16, limit: 0xffff, access_byte: 0x93, flags: 0 }
    }

    pub open spec fn db(self) -> Db {
        if self.flags / 4 % 2 == 1 {
            Db::Protected32
        } else {
            Db::Protected16
        }
    }

    pub open spec fn byte_limit(self) -> u32 {
        if self.flags / 8 % 2 == 1 {
            ((self.limit % 0x10_0000) * 0x1000 + 0xfff) as u32
        } else {
            self.limit
        }
    }

    /// Whether the offsets of the segment lie above its limit.
    pub open spec fn expands_down(self) -> bool {
        access_is_segment(self.access_byte) && !access_executable(self.access_byte)
            && access_direction(self.access_byte)
    }

    pub open spec fn max_offset(self) -> u32 {
        match self.db() {
            Db::Protected16 => 0xffff,
            Db::Protected32 => 0xffff_ffff,
        }
    }

    pub open spec fn effective_limit(self) -> u32 {
        if !self.expands_down() {
            self.byte_limit()
        } else if self.byte_limit() < self.max_offset() {
            (self.max_offset() - self.byte_limit() - 1) as u32
        } else {
            0
        }
    }

    pub fn size(self) -> (r: Db)
        ensures
            r == self.db(),
    {
        if self.flags / 4 % 2 == 1 {
            Db::Protected32
        } else {
            Db::Protected16
        }
    }

    /// The number of bytes behind the first offset of the segment.
    pub fn effective_limit_taking_direction_into_account(self) -> (r: u32)
        ensures
            r == self.effective_limit(),
    {
        let limit: u32 = if self.flags / 8 % 2 == 1 {
            (self.limit % 0x10_0000) * 0x1000 + 0xfff
        } else {
            self.limit
        };
        let down = self.access_byte / 0x10 % 2 == 1 && self.access_byte / 8 % 2 == 0
            && self.access_byte / 4 % 2 == 1;
        let max: u32 = match self.size() {
            Db::Protected16 => 0xffff,
            Db::Protected32 => 0xffff_ffff,
        };
        if !down {
            limit
        } else if limit < max {
            max - limit - 1
        } else {
            0
        }
    }

    pub open spec fn rights(self, real_mode: bool) -> AccessRights {
        AccessRights { access_byte: self.access_byte, flags: self.flags, real_mode }
    }
}

/// What the processor keeps of the descriptor of a loaded segment.
#[derive(Copy, Clone, Debug, PartialEq, Eq, Structural)]
pub struct AccessRights {
    pub access_byte: u8,
    pub flags: u8,
    /// Whether the segment was loaded without a descriptor.
    pub real_mode: bool,
}

impl AccessRights {
    pub open spec fn db(self) -> Db {
        if self.flags / 4 % 2 == 1 {
            Db::Protected32
        } else {
            Db::Protected16
        }
    }

    pub fn of(descriptor: Descriptor, real_mode: bool) -> (r: Self)
        ensures
            r == descriptor.rights(real_mode),
    {
        AccessRights {
            access_byte: descriptor.access_byte,
            flags: descriptor.flags,
            real_mode,
        }
    }

    pub fn size(self) -> (r: Db)
        ensures
            r == self.db(),
    {
        if self.flags / 4 % 2 == 1 {
            Db::Protected32
        } else {
            Db::Protected16
        }
    }
}

/// The kinds of gates.
#[derive(Copy, Clone, Debug, PartialEq, Eq, Structural)]
pub enum GateType {
    TaskGate,
    Interrupt,
    Trap,
    Other,
}

/// An entry of the interrupt descriptor table.
#[derive(Copy, Clone, Debug, PartialEq, Eq, Structural)]
pub struct GateDescriptor {
    pub offset: u32,
    pub segment_selector: u16,
    pub access_byte: u8,
}

impl GateDescriptor {
    pub open spec fn of_value(v: u64) -> GateDescriptor {
        GateDescriptor {
            offset: (v % 0x1_0000 + v / 0x1_0000_0000_0000 * 0x1_0000) as u32,
            segment_selector: (v / 0x1_0000 % 0x1_0000) as u16,
            access_byte: (v / 0x100_0000_0000 % 0x100) as u8,
        }
    }

    /// Decodes an entry.
    pub fn from_value(v: u64) -> (r: Self)
        ensures
            r == Self::of_value(v),
    {
        GateDescriptor {
            offset: (v % 0x1_0000 + v / 0x1_0000_0000_0000 * 0x1_0000) as u32,
            segment_selector: (v / 0x1_0000 % 0x1_0000) as u16,
            access_byte: (v / 0x100_0000_0000 % 0x100) as u8,
        }
    }

    pub open spec fn kind(self) -> GateType {
        let n = self.access_byte % 0x10;
        if n == 0x5 {
            GateType::TaskGate
        } else if n == 0x6 || n == 0xE {
            GateType::Interrupt
        } else if n == 0x7 || n == 0xF {
            GateType::Trap
        } else {
            GateType::Other
        }
    }

    pub fn gate_type(self) -> (r: GateType)
        ensures
            r == self.kind(),
    {
        let n: u8 = self.access_byte % 0x10;
        if n == 0x5 {
            GateType::TaskGate
        } else if n == 0x6 || n == 0xE {
            GateType::Interrupt
        } else if n == 0x7 || n == 0xF {
            GateType::Trap
        } else {
            GateType::Other
        }
    }
}

/// Exceptions of the processor, with their error codes.
#[derive(Copy, Clone, Debug, PartialEq, Eq, Structural)]
pub enum Exception {
    DivideError,
    Debug,
    Breakpoint,
    Overflow,
    BoundRangeExceeded,
    InvalidOpcode,
    DeviceNotAvailable,
    DoubleFault,
    InvalidTss(u16),
    SegmentNotPresent(u16),
    StackSegmentFault(u16),
    GeneralProtectionFault(u16),
    PageFault { address: u32, code: u32 },
    FloatingPoint,
    AlignmentCheck,
}

/// Whether an instruction is run again after an exception.
#[derive(Copy, Clone, Debug, PartialEq, Eq, Structural)]
pub enum ExceptionClass {
    Fault,
    Trap,
    Abort,
}

impl Exception {
    pub open spec fn number(self) -> u8 {
        match self {
            Exception::DivideError => 0,
            Exception::Debug => 1,
            Exception::Breakpoint => 3,
            Exception::Overflow => 4,
            Exception::BoundRangeExceeded => 5,
            Exception::InvalidOpcode => 6,
            Exception::DeviceNotAvailable => 7,
            Exception::DoubleFault => 8,
            Exception::InvalidTss(_) => 10,
            Exception::SegmentNotPresent(_) => 11,
            Exception::StackSegmentFault(_) => 12,
            Exception::GeneralProtectionFault(_) => 13,
            Exception::PageFault { .. } => 14,
            Exception::FloatingPoint => 16,
            Exception::AlignmentCheck => 17,
        }
    }

    pub open spec fn error_code(self) -> Option<u32> {
        match self {
            Exception::DoubleFault => Some(0),
            Exception::InvalidTss(code) => Some(code as u32),
            Exception::SegmentNotPresent(code) => Some(code as u32),
            Exception::StackSegmentFault(code) => Some(code as u32),
            Exception::GeneralProtectionFault(code) => Some(code as u32),
            Exception::PageFault { code, .. } => Some(code),
            Exception::AlignmentCheck => Some(0),
            _ => None,
        }
    }

    pub open spec fn kind(self) -> ExceptionClass {
        match self {
            Exception::Breakpoint => ExceptionClass::Trap,
            Exception::Overflow => ExceptionClass::Trap,
            Exception::DoubleFault => ExceptionClass::Abort,
            _ => ExceptionClass::Fault,
        }
    }

    pub fn vector(self) -> (r: u8)
        ensures
            r == self.number(),
    {
        match self {
            Exception::DivideError => 0,
            Exception::Debug => 1,
            Exception::Breakpoint => 3,
            Exception::Overflow => 4,
            Exception::BoundRangeExceeded => 5,
            Exception::InvalidOpcode => 6,
            Exception::DeviceNotAvailable => 7,
            Exception::DoubleFault => 8,
            Exception::InvalidTss(_) => 10,
            Exception::SegmentNotPresent(_) => 11,
            Exception::StackSegmentFault(_) => 12,
            Exception::GeneralProtectionFault(_) => 13,
            Exception::PageFault { .. } => 14,
            Exception::FloatingPoint => 16,
            Exception::AlignmentCheck => 17,
        }
    }

    pub fn code(self) -> (r: Option<u32>)
        ensures
            r == self.error_code(),
    {
        match self {
            Exception::DoubleFault => Some(0),
            Exception::InvalidTss(code) => Some(code as u32),
            Exception::SegmentNotPresent(code) => Some(code as u32),
            Exception::StackSegmentFault(code) => Some(code as u32),
            Exception::GeneralProtectionFault(code) => Some(code as u32),
            Exception::PageFault { code, .. } => Some(code),
            Exception::AlignmentCheck => Some(0),
            _ => None,
        }
    }

    pub fn class(self) -> (r: ExceptionClass)
        ensures
            r == self.kind(),
    {
        match self {
            Exception::Breakpoint => ExceptionClass::Trap,
            Exception::Overflow => ExceptionClass::Trap,
            Exception::DoubleFault => ExceptionClass::Abort,
            _ => ExceptionClass::Fault,
        }
    }
}

/// What makes the processor leave the current instruction stream.
#[derive(Copy, Clone, Debug, PartialEq, Eq, Structural)]
pub enum Interrupt {
    /// An `INT` instruction. The return address lies `pc_increment` bytes behind its start.
    SoftwareInterrupt { vector: u8, pc_increment: u8 },
    HardwareInterrupt(u8),
    Exception(Exception),
}

impl Interrupt {
    pub open spec fn number(self) -> u8 {
        match self {
            Interrupt::SoftwareInterrupt { vector, .. } => vector,
            Interrupt::HardwareInterrupt(vector) => vector,
            Interrupt::Exception(e) => e.number(),
        }
    }

    pub open spec fn error_code(self) -> Option<u32> {
        match self {
            Interrupt::Exception(e) => e.error_code(),
            _ => None,
        }
    }

    pub open spec fn increment(self) -> u32 {
        match self {
            Interrupt::SoftwareInterrupt { pc_increment, .. } => pc_increment as u32,
            _ => 0,
        }
    }

    /// A fault other than a debug exception: the instruction is run again.
    pub open spec fn resumes(self) -> bool {
        match self {
            Interrupt::Exception(e) => e.kind() == ExceptionClass::Fault && e != Exception::Debug,
            _ => false,
        }
    }

    pub fn vector(self) -> (r: u8)
        ensures
            r == self.number(),
    {
        match self {
            Interrupt::SoftwareInterrupt { vector, .. } => vector,
            Interrupt::HardwareInterrupt(vector) => vector,
            Interrupt::Exception(e) => e.vector(),
        }
    }

    pub fn code(self) -> (r: Option<u32>)
        ensures
            r == self.error_code(),
    {
        match self {
            Interrupt::Exception(e) => e.code(),
            _ => None,
        }
    }

    pub fn pc_increment(self) -> (r: u32)
        ensures
            r == self.increment(),
    {
        match self {
            Interrupt::SoftwareInterrupt { pc_increment, .. } => pc_increment as u32,
            _ => 0,
        }
    }

    pub fn is_resuming_fault(self) -> (r: bool)
        ensures
            r == self.resumes(),
    {
        match self {
            Interrupt::Exception(e) => {
                matches!(e.class(), ExceptionClass::Fault) && !matches!(e, Exception::Debug)
            },
            _ => false,
        }
    }
}

/// The first control register.
#[derive(Copy, Clone, Debug, PartialEq, Eq, Structural)]
pub struct Cr0 {
    pub value: u32,
}

impl Cr0 {
    pub open spec fn pe(self) -> bool {
        self.value % 2 == 1
    }

    pub open spec fn wp(self) -> bool {
        self.value / 0x1_0000 % 2 == 1
    }

    pub open spec fn pg(self) -> bool {
        self.value / 0x8000_0000 == 1
    }

    pub fn protected_mode(self) -> (r: bool)
        ensures
            r == self.pe(),
    {
        self.value % 2 == 1
    }

    pub fn write_protect(self) -> (r: bool)
        ensures
            r == self.wp(),
    {
        self.value / 0x1_0000 % 2 == 1
    }

    pub fn paging(self) -> (r: bool)
        ensures
            r == self.pg(),
    {
        self.value / 0x8000_0000 == 1
    }
}

/// The control register that switches extensions on.
#[derive(Copy, Clone, Debug, PartialEq, Eq, Structural)]
pub struct Cr4 {
    pub value: u32,
}

impl Cr4 {
    pub open spec fn vme(self) -> bool {
        self.value % 2 == 1
    }

    pub open spec fn pse(self) -> bool {
        self.value / 0x10 % 2 == 1
    }

    pub open spec fn pae(self) -> bool {
        self.value / 0x20 % 2 == 1
    }

    pub fn virtual_8086_mode_extensions(self) -> (r: bool)
        ensures
            r == self.vme(),
    {
        self.value % 2 == 1
    }

    pub fn page_size_extension(self) -> (r: bool)
        ensures
            r == self.pse(),
    {
        self.value / 0x10 % 2 == 1
    }

    pub fn physical_address_extension(self) -> (r: bool)
        ensures
            r == self.pae(),
    {
        self.value / 0x20 % 2 == 1
    }
}

/// Eight bytes as one number, the first one the lowest one.
pub open spec fn eight_bytes(b: Seq<u8>) -> u64 {
    (b[0] + 0x100 * b[1] + 0x1_0000 * b[2] + 0x100_0000 * b[3] + 0x1_0000_0000 * b[4]
        + 0x100_0000_0000 * b[5] + 0x1_0000_0000_0000 * b[6] + 0x100_0000_0000_0000 * b[7]) as u64
}

proof fn lemma_eight_bytes(b: Seq<u8>)
    requires
        b.len() == 8,
    ensures
        ({
            let v = eight_bytes(b) as int;
            &&& v % 0x1_0000 == b[0] + 0x100 * b[1]
            &&& v / 0x1_0000 % 0x1_0000 == b[2] + 0x100 * b[3]
            &&& v / 0x1_0000 % 0x100_0000 == b[2] + 0x100 * b[3] + 0x1_0000 * b[4]
            &&& v / 0x100_0000_0000 % 0x100 == b[5]
            &&& v / 0x1_0000_0000_0000 == b[6] + 0x100 * b[7]
            &&& v / 0x1_0000_0000_0000 % 0x10 == b[6] % 0x10
            &&& v / 0x10_0000_0000_0000 % 0x10 == b[6] / 0x10
            &&& v / 0x100_0000_0000_0000 == b[7]
        }),
{
    let v: int = eight_bytes(b) as int;
    let high: int = b[6] + 0x100 * b[7];
    let mid: int = b[4] + 0x100 * b[5] + 0x1_0000 * high;
    let low: int = b[2] + 0x100 * b[3] + 0x1_0000 * mid;
    assert(v == b[0] + 0x100 * b[1] + 0x1_0000 * low);
    assert(v / 0x1_0000 == low);
    assert(v / 0x1_0000_0000 == mid) by {
        assert(v / 0x1_0000_0000 == low / 0x1_0000);
    }
    assert(v / 0x100_0000_0000 == b[5] + 0x100 * high) by {
        assert(v / 0x100_0000_0000 == mid / 0x100);
    }
    assert(v / 0x1_0000_0000_0000 == high) by {
        assert(v / 0x1_0000_0000_0000 == mid / 0x1_0000);
    }
    assert(v / 0x10_0000_0000_0000 == high / 0x10);
    assert(v / 0x100_0000_0000_0000 == high / 0x100);
}

/// The places of the fields in the eight bytes of a segment descriptor.
pub proof fn descriptor_fields_have_their_places(b: Seq<u8>)
    requires
        b.len() == 8,
    ensures
        ({
            let d = Descriptor::of_value(eight_bytes(b));
            let limit = b[0] + 0x100 * b[1] + 0x1_0000 * (b[6] % 0x10);
            &&& d.base == b[2] + 0x100 * b[3] + 0x1_0000 * b[4] + 0x100_0000 * b[7]
            &&& d.limit == limit
            &&& d.access_byte == b[5]
            &&& d.flags == b[6] / 0x10
            &&& d.byte_limit() == (if b[6] >= 0x80 {
                limit * 0x1000 + 0xfff
            } else {
                limit
            })
            &&& d.db() == (if b[6] / 0x40 % 2 == 1 {
                Db::Protected32
            } else {
                Db::Protected16
            })
            &&& access_present(b[5]) <==> b[5] >= 0x80
            &&& access_dpl(b[5]) == b[5] / 0x20 % 4
            &&& access_is_segment(b[5]) <==> b[5] / 0x10 % 2 == 1
            &&& access_accessed(b[5]) <==> b[5] % 2 == 1
        }),
{
    lemma_eight_bytes(b);
}

/// The offsets of a segment that grows up go from 0 to its limit; those of one that grows down are
/// the others, up to 0xffff or 0xffff_ffff.
pub proof fn limits_follow_the_direction(d: Descriptor)
    requires
        d.limit < 0x10_0000,
    ensures
        ({
            let down = d.access_byte / 0x10 % 2 == 1 && d.access_byte / 8 % 2 == 0 && d.access_byte
                / 4 % 2 == 1;
            let max = if d.flags / 4 % 2 == 1 {
                0xffff_ffffint
            } else {
                0xffff
            };
            &&& !down ==> d.effective_limit() == d.byte_limit()
            &&& down && d.byte_limit() < max ==> d.effective_limit() + d.byte_limit() + 1 == max
        }),
{
}

/// A segment in real mode starts at sixteen times its selector and has 64 KiB.
pub proof fn real_mode_segments_start_at_paragraphs(selector: u16)
    ensures
        Descriptor::real_mode(selector).base == 16 * selector,
        Descriptor::real_mode(selector).limit == 0xffff,
        Descriptor::real_mode(selector).effective_limit() == 0xffff,
        Descriptor::real_mode(selector).db() == Db::Protected16,
{
}

/// The places of the fields in the eight bytes of an entry of the interrupt table.
pub proof fn gate_fields_have_their_places(b: Seq<u8>)
    requires
        b.len() == 8,
    ensures
        ({
            let g = GateDescriptor::of_value(eight_bytes(b));
            &&& g.offset == b[0] + 0x100 * b[1] + 0x1_0000 * b[6] + 0x100_0000 * b[7]
            &&& g.segment_selector == b[2] + 0x100 * b[3]
            &&& g.access_byte == b[5]
            &&& g.kind() == GateType::Interrupt <==> b[5] % 0x10 == 6 || b[5] % 0x10 == 0xE
            &&& g.kind() == GateType::Trap <==> b[5] % 0x10 == 7 || b[5] % 0x10 == 0xF
            &&& g.kind() == GateType::TaskGate <==> b[5] % 0x10 == 5
        }),
{
    lemma_eight_bytes(b);
}

/// A selector holds the number of a descriptor in its high thirteen bits, the table in bit 2 and a
/// privilege level in the lowest two bits.
pub proof fn selector_fields_have_their_places(s: SegmentSelector)
    ensures
        s.value == 8 * s.index() + 4 * (if s.local() {
            1int
        } else {
            0
        }) + s.level(),
        s.level() < 4,
        s.null() <==> s.value < 4,
{
}

/// The vectors of the exceptions, and which of them have an error code.
pub proof fn exceptions_have_their_vectors(c: u16, address: u32, code: u32)
    ensures
        Exception::DivideError.number() == 0 && Exception::Debug.number() == 1,
        Exception::Breakpoint.number() == 3 && Exception::Overflow.number() == 4,
        Exception::BoundRangeExceeded.number() == 5 && Exception::InvalidOpcode.number() == 6,
        Exception::DeviceNotAvailable.number() == 7 && Exception::DoubleFault.number() == 8,
        Exception::InvalidTss(c).number() == 10 && Exception::SegmentNotPresent(c).number() == 11,
        Exception::StackSegmentFault(c).number() == 12,
        Exception::GeneralProtectionFault(c).number() == 13,
        (Exception::PageFault { address, code }).number() == 14,
        Exception::FloatingPoint.number() == 16 && Exception::AlignmentCheck.number() == 17,
        Exception::InvalidTss(c).error_code() == Some(c as u32),
        Exception::SegmentNotPresent(c).error_code() == Some(c as u32),
        Exception::StackSegmentFault(c).error_code() == Some(c as u32),
        Exception::GeneralProtectionFault(c).error_code() == Some(c as u32),
        (Exception::PageFault { address, code }).error_code() == Some(code),
        Exception::DoubleFault.error_code() == Some(0u32),
        Exception::DivideError.error_code().is_none() && Exception::InvalidOpcode.error_code().is_none(),
        Exception::Debug.error_code().is_none() && Exception::Breakpoint.error_code().is_none(),
        Interrupt::HardwareInterrupt(8).increment() == 0,
        !Interrupt::Exception(Exception::Debug).resumes(),
        !Interrupt::Exception(Exception::Breakpoint).resumes(),
        Interrupt::Exception(Exception::InvalidOpcode).resumes(),
{
}

/// The bits of the control registers.
pub proof fn control_bits_have_their_places(cr0: Cr0, cr4: Cr4)
    ensures
        cr0.pe() <==> cr0.value % 2 == 1,
        cr0.wp() <==> cr0.value / 0x1_0000 % 2 == 1,
        cr0.pg() <==> cr0.value / 0x8000_0000 == 1,
        cr4.vme() <==> cr4.value % 2 == 1,
        cr4.pse() <==> cr4.value / 0x10 % 2 == 1,
        cr4.pae() <==> cr4.value / 0x20 % 2 == 1,
{
}

} // verus!
