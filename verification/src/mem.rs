//! The memory that the processor and the devices share.
use vstd::prelude::*;

use crate::bytes::{
    copy_range, from_le16, from_le32, from_le64, get_le16, get_le32, get_le64, le16, le32,
    le_round_trip, overwrite,
    push_le16, push_le32, write_range,
};

verus! {

/// Bytes of memory, from address 0 up. There is nothing behind the last one.
#[derive(Debug)]
pub struct Memory {
    bytes: Vec<u8>,
}

impl View for Memory {
    type V = Seq<u8>;

    closed spec fn view(&self) -> Seq<u8> {
        self.bytes@
    }
}

/// An access to an address behind the last byte.
#[derive(Copy, Clone, Debug, PartialEq, Eq, Structural)]
pub struct OutOfRange {
    pub addr: u32,
}

impl Memory {
    /// Zeroed memory of `len` bytes.
    pub fn new(len: usize) -> (r: Self)
        ensures
            r@ == Seq::new(len as nat, |i: int| 0u8),
    {
        let r = Memory { bytes: vec![0u8;len] };
        assert(r@ =~= Seq::new(len as nat, |i: int| 0u8));
        r
    }

    pub fn from_bytes(bytes: Vec<u8>) -> (r: Self)
        ensures
            r@ == bytes@,
    {
        Memory { bytes }
    }

    pub fn len(&self) -> (r: usize)
        ensures
            r == self@.len(),
    {
        self.bytes.len()
    }

    /// Reads `len` bytes at `addr`.
    pub fn read_slice(&self, addr: u32, len: usize) -> (r: Result<Vec<u8>, OutOfRange>)
        ensures
            r.is_ok() == (addr + len <= self@.len()),
            r.is_ok() ==> r.unwrap()@ == self@.subrange(addr as int, addr + len),
            r.is_err() ==> r->Err_0.addr == addr,
    {
        let size: usize = self.bytes.len();
        if addr as usize <= size && len <= size - addr as usize {
            Ok(copy_range(&self.bytes, addr as usize, addr as usize + len))
        } else {
            Err(OutOfRange { addr })
        }
    }

    /// Writes `data` at `addr`.
    pub fn write_slice(&mut self, addr: u32, data: &[u8]) -> (r: Result<(), OutOfRange>)
        ensures
            r.is_ok() == (addr + data@.len() <= old(self)@.len()),
            r.is_ok() ==> final(self)@ == overwrite(old(self)@, addr as int, data@),
            r.is_err() ==> final(self)@ == old(self)@ && r->Err_0.addr == addr,
    {
        let size: usize = self.bytes.len();
        if addr as usize <= size && data.len() <= size - addr as usize {
            write_range(&mut self.bytes, addr as usize, data);
            Ok(())
        } else {
            Err(OutOfRange { addr })
        }
    }
}

/// The two bytes at an address as a number.
pub open spec fn read16(mem: Seq<u8>, addr: int) -> Option<u16> {
    if 0 <= addr && addr + 2 <= mem.len() {
        Some(from_le16(mem.skip(addr)) as u16)
    } else {
        None
    }
}

/// The four bytes at an address as a number.
pub open spec fn read32(mem: Seq<u8>, addr: int) -> Option<u32> {
    if 0 <= addr && addr + 4 <= mem.len() {
        Some(from_le32(mem.skip(addr)) as u32)
    } else {
        None
    }
}

/// The eight bytes at an address as a number.
pub open spec fn read64(mem: Seq<u8>, addr: int) -> Option<u64> {
    if 0 <= addr && addr + 8 <= mem.len() {
        Some(from_le64(mem.skip(addr)) as u64)
    } else {
        None
    }
}

/// The memory after bytes were written, if all of them fit.
pub open spec fn written(mem: Seq<u8>, addr: int, data: Seq<u8>) -> Option<Seq<u8>> {
    if 0 <= addr && addr + data.len() <= mem.len() {
        Some(overwrite(mem, addr, data))
    } else {
        None
    }
}

impl Memory {
    fn holds(&self, addr: u64, len: usize) -> (r: bool)
        requires
            len <= 8,
        ensures
            r == (addr + len <= self@.len()),
            r ==> addr + len <= usize::MAX,
    {
        let size: u64 = self.bytes.len() as u64;
        addr <= size && len as u64 <= size - addr
    }

    /// Reads a byte.
    pub fn get8(&self, addr: u64) -> (r: Option<u8>)
        ensures
            r == if addr < self@.len() {
                Some(self@[addr as int])
            } else {
                None
            },
    {
        if self.holds(addr, 1) {
            Some(self.bytes[addr as usize])
        } else {
            None
        }
    }

    /// Reads two bytes.
    pub fn get16(&self, addr: u64) -> (r: Option<u16>)
        ensures
            r == read16(self@, addr as int),
    {
        if self.holds(addr, 2) {
            Some(get_le16(self.bytes.as_slice(), addr as usize))
        } else {
            None
        }
    }

    /// Reads four bytes.
    pub fn get32(&self, addr: u64) -> (r: Option<u32>)
        ensures
            r == read32(self@, addr as int),
    {
        if self.holds(addr, 4) {
            Some(get_le32(self.bytes.as_slice(), addr as usize))
        } else {
            None
        }
    }

    /// Reads eight bytes.
    pub fn get64(&self, addr: u64) -> (r: Option<u64>)
        ensures
            r == read64(self@, addr as int),
    {
        if self.holds(addr, 8) {
            Some(get_le64(self.bytes.as_slice(), addr as usize))
        } else {
            None
        }
    }

    /// Writes a byte. Says whether it fits.
    pub fn put8(&mut self, addr: u64, v: u8) -> (r: bool)
        ensures
            match written(old(self)@, addr as int, seq![v]) {
                Some(mem) => r && final(self)@ == mem,
                None => !r && final(self)@ == old(self)@,
            },
    {
        if self.holds(addr, 1) {
            self.bytes.set(addr as usize, v);
            assert(self@ =~= overwrite(old(self)@, addr as int, seq![v]));
            true
        } else {
            false
        }
    }

    /// Writes two bytes. Says whether they fit.
    pub fn put16(&mut self, addr: u64, v: u16) -> (r: bool)
        ensures
            match written(old(self)@, addr as int, le16(v)) {
                Some(mem) => r && final(self)@ == mem,
                None => !r && final(self)@ == old(self)@,
            },
    {
        if self.holds(addr, 2) {
            let mut data: Vec<u8> = Vec::new();
            push_le16(&mut data, v);
            assert(data@ =~= le16(v));
            write_range(&mut self.bytes, addr as usize, data.as_slice());
            true
        } else {
            false
        }
    }

    /// Writes four bytes. Says whether they fit.
    pub fn put32(&mut self, addr: u64, v: u32) -> (r: bool)
        ensures
            match written(old(self)@, addr as int, le32(v)) {
                Some(mem) => r && final(self)@ == mem,
                None => !r && final(self)@ == old(self)@,
            },
    {
        if self.holds(addr, 4) {
            let mut data: Vec<u8> = Vec::new();
            push_le32(&mut data, v);
            assert(data@ =~= le32(v));
            write_range(&mut self.bytes, addr as usize, data.as_slice());
            true
        } else {
            false
        }
    }
}

/// What was written is read back.
pub proof fn written_words_read_back(mem: Seq<u8>, addr: int, v16: u16, v32: u32)
    ensures
        written(mem, addr, le16(v16)) matches Some(next) ==> read16(next, addr) == Some(v16),
        written(mem, addr, le32(v32)) matches Some(next) ==> read32(next, addr) == Some(v32),
{
    le_round_trip(v16, v32, 0);
    if let Some(next) = written(mem, addr, le16(v16)) {
        let s = next.skip(addr);
        assert(s[0] == le16(v16)[0] && s[1] == le16(v16)[1]);
        assert(from_le16(s) == v16);
    }
    if let Some(next) = written(mem, addr, le32(v32)) {
        let s = next.skip(addr);
        assert(s[0] == le32(v32)[0] && s[1] == le32(v32)[1] && s[2] == le32(v32)[2] && s[3] == le32(
            v32,
        )[3]);
        assert(from_le32(s) == v32);
    }
}

/// What was written elsewhere changes nothing.
pub proof fn other_words_stay(mem: Seq<u8>, addr: int, data: Seq<u8>, at: int)
    requires
        written(mem, addr, data) is Some,
    ensures
        at + 2 <= addr || addr + data.len() <= at ==> read16(
            written(mem, addr, data)->Some_0,
            at,
        ) == read16(mem, at),
        at + 4 <= addr || addr + data.len() <= at ==> read32(
            written(mem, addr, data)->Some_0,
            at,
        ) == read32(mem, at),
{
    let next = written(mem, addr, data)->Some_0;
    if 0 <= at && at + 2 <= mem.len() && (at + 2 <= addr || addr + data.len() <= at) {
        assert(next.skip(at)[0] == mem.skip(at)[0] && next.skip(at)[1] == mem.skip(at)[1]);
    }
    if 0 <= at && at + 4 <= mem.len() && (at + 4 <= addr || addr + data.len() <= at) {
        assert(next.skip(at)[0] == mem.skip(at)[0] && next.skip(at)[1] == mem.skip(at)[1]
            && next.skip(at)[2] == mem.skip(at)[2] && next.skip(at)[3] == mem.skip(at)[3]);
    }
}

} // verus!
