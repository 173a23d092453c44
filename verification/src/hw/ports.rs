//! Accesses to the I/O port space.
use vstd::prelude::*;

verus! {

/// How many bytes an access moves.
#[derive(Copy, Clone, Debug, PartialEq, Eq, Structural)]
pub enum PortWidth {
    Byte,
    Word,
    Dword,
}

impl PortWidth {
    pub open spec fn size_spec(&self) -> int {
        match self {
            PortWidth::Byte => 1,
            PortWidth::Word => 2,
            PortWidth::Dword => 4,
        }
    }

    /// One more than the largest value of this width.
    pub open spec fn limit(&self) -> int {
        match self {
            PortWidth::Byte => 0x100,
            PortWidth::Word => 0x1_0000,
            PortWidth::Dword => 0x1_0000_0000,
        }
    }

    pub fn size(&self) -> (r: u8)
        ensures
            r == self.size_spec(),
    {
        match self {
            PortWidth::Byte => 1,
            PortWidth::Word => 2,
            PortWidth::Dword => 4,
        }
    }

    /// The value that is read where no device answers: all ones.
    pub fn no_device(&self) -> (r: u32)
        ensures
            r == self.limit() - 1,
    {
        match self {
            PortWidth::Byte => 0xff,
            PortWidth::Word => 0xffff,
            PortWidth::Dword => 0xffff_ffff,
        }
    }
}

/// The access has a width that the port does not support.
#[derive(Copy, Clone, Debug, PartialEq, Eq, Structural)]
pub enum PortError {
    UnsupportedWidth,
}

/// A value that is written to a port.
#[derive(Copy, Clone, Debug, PartialEq, Eq, Structural)]
pub struct PortValue {
    pub width: PortWidth,
    pub value: u32,
}

impl PortValue {
    pub open spec fn wf(&self) -> bool {
        self.value < self.width.limit()
    }

    /// The bytes of the value, lowest first.
    pub open spec fn bytes(&self) -> Seq<u8> {
        Seq::new(
            self.width.size_spec() as nat,
            |i: int|
                if i == 0 {
                    (self.value % 0x100) as u8
                } else if i == 1 {
                    (self.value / 0x100 % 0x100) as u8
                } else if i == 2 {
                    (self.value / 0x1_0000 % 0x100) as u8
                } else {
                    (self.value / 0x100_0000) as u8
                },
        )
    }

    pub open spec fn low8(&self) -> u8 {
        (self.value % 0x100) as u8
    }

    /// The lowest byte.
    pub fn u8(&self) -> (r: u8)
        ensures
            r == self.low8(),
    {
        (self.value % 0x100) as u8
    }

    /// The lowest two bytes.
    pub fn u16(&self) -> (r: u16)
        ensures
            r == self.value % 0x1_0000,
    {
        (self.value % 0x1_0000) as u16
    }

    pub fn u32(&self) -> (r: u32)
        ensures
            r == self.value,
    {
        self.value
    }

    /// The value of an access that must be a byte access.
    pub fn require_u8(&self) -> (r: Result<u8, PortError>)
        ensures
            r == (if self.width == PortWidth::Byte {
                Ok::<u8, PortError>(self.low8())
            } else {
                Err(PortError::UnsupportedWidth)
            }),
    {
        match self.width {
            PortWidth::Byte => Ok((self.value % 0x100) as u8),
            _ => Err(PortError::UnsupportedWidth),
        }
    }

    /// Appends the bytes of the value, lowest first.
    pub fn push_le_bytes(&self, buf: &mut Vec<u8>)
        ensures
            final(buf)@ == old(buf)@ + self.bytes(),
    {
        buf.push((self.value % 0x100) as u8);
        match self.width {
            PortWidth::Byte => {},
            PortWidth::Word => {
                buf.push((self.value / 0x100 % 0x100) as u8);
            },
            PortWidth::Dword => {
                buf.push((self.value / 0x100 % 0x100) as u8);
                buf.push((self.value / 0x1_0000 % 0x100) as u8);
                buf.push((self.value / 0x100_0000) as u8);
            },
        }
        assert(buf@ =~= old(buf)@ + self.bytes());
    }
}

/// The part of the four bytes of `value` that an access of this width at byte `offset` reads.
#[verifier::opaque]
pub open spec fn part_of_u32(value: u32, offset: int, width: PortWidth) -> int {
    let shifted = if offset == 0 {
        value as int
    } else if offset == 1 {
        value as int / 0x100
    } else if offset == 2 {
        value as int / 0x1_0000
    } else {
        value as int / 0x100_0000
    };
    shifted % width.limit()
}

/// Reads a part of a four-byte register.
pub fn from_u32(value: u32, offset: u8, width: PortWidth) -> (r: u32)
    requires
        offset < 4,
    ensures
        r == part_of_u32(value, offset as int, width),
{
    proof {
        reveal(part_of_u32);
    }
    let shifted: u32 = match offset {
        0 => value,
        1 => value / 0x100,
        2 => value / 0x1_0000,
        _ => value / 0x100_0000,
    };
    match width {
        PortWidth::Byte => shifted % 0x100,
        PortWidth::Word => shifted % 0x1_0000,
        PortWidth::Dword => shifted,
    }
}

/// What a read of a byte-wide register gives: the byte, or an error for a wider access.
pub open spec fn byte_read(value: int, width: PortWidth) -> Result<u32, PortError> {
    if width == PortWidth::Byte {
        Ok(value as u32)
    } else {
        Err(PortError::UnsupportedWidth)
    }
}

/// Reads a byte-wide register.
pub fn from_u8(value: u8, width: PortWidth) -> (r: Result<u32, PortError>)
    ensures
        r == byte_read(value as int, width),
{
    match width {
        PortWidth::Byte => Ok(value as u32),
        _ => Err(PortError::UnsupportedWidth),
    }
}

/// The parts of a register of four bytes: the byte at an offset, and two bytes or four from there on,
/// the lowest one first.
pub proof fn parts_are_bytes_in_order(value: u32)
    ensures
        ({
            let byte = |n: int| part_of_u32(value, n, PortWidth::Byte);
            &&& value == byte(0) + 0x100 * byte(1) + 0x1_0000 * byte(2) + 0x100_0000 * byte(3)
            &&& part_of_u32(value, 0, PortWidth::Word) == byte(0) + 0x100 * byte(1)
            &&& part_of_u32(value, 2, PortWidth::Word) == byte(2) + 0x100 * byte(3)
            &&& part_of_u32(value, 0, PortWidth::Dword) == value
        }),
{
    reveal(part_of_u32);
    let a: int = value as int / 0x100;
    let b: int = value as int / 0x1_0000;
    assert(b == a / 0x100);
    assert(value as int / 0x100_0000 == b / 0x100);
}

} // verus!
