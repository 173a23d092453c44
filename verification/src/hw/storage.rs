//! The contents of disks.
use vstd::prelude::*;

use crate::bytes::{copy_range, overwrite, write_range};

verus! {

/// The bytes of a disk. The device that holds the disk is a CD drive if `is_cd` is set.
#[derive(Debug)]
pub struct DiskData {
    bytes: Vec<u8>,
    is_cd: bool,
}

/// What a disk holds.
pub struct DiskModel {
    pub bytes: Seq<u8>,
    pub is_cd: bool,
}

/// A copy of a disk.
#[derive(Debug)]
pub struct DiskDataSnapshot {
    pub bytes: Vec<u8>,
    pub is_cd: bool,
}

impl View for DiskDataSnapshot {
    type V = DiskModel;

    open spec fn view(&self) -> DiskModel {
        DiskModel { bytes: self.bytes@, is_cd: self.is_cd }
    }
}

impl View for DiskData {
    type V = DiskModel;

    closed spec fn view(&self) -> DiskModel {
        DiskModel { bytes: self.bytes@, is_cd: self.is_cd }
    }
}

impl DiskData {
    pub fn from_mem(bytes: Vec<u8>) -> (r: Self)
        ensures
            r@ == (DiskModel { bytes: bytes@, is_cd: false }),
    {
        DiskData { bytes, is_cd: false }
    }

    /// A disc for a CD drive.
    pub fn cd(bytes: Vec<u8>) -> (r: Self)
        ensures
            r@ == (DiskModel { bytes: bytes@, is_cd: true }),
    {
        DiskData { bytes, is_cd: true }
    }

    pub fn len(&self) -> (r: u64)
        ensures
            r == self@.bytes.len(),
    {
        self.bytes.len() as u64
    }

    pub fn is_cd(&self) -> (r: bool)
        ensures
            r == self@.is_cd,
    {
        self.is_cd
    }

    pub fn read_slice(&self, start: u64, end: u64) -> (r: Vec<u8>)
        requires
            start <= end <= self@.bytes.len(),
        ensures
            r@ == self@.bytes.subrange(start as int, end as int),
    {
        let len: usize = self.bytes.len();
        assert(end <= len);
        copy_range(&self.bytes, start as usize, end as usize)
    }

    pub fn write_slice(&mut self, start: u64, data: &[u8])
        requires
            start + data@.len() <= old(self)@.bytes.len(),
        ensures
            final(self)@ == (DiskModel {
                bytes: overwrite(old(self)@.bytes, start as int, data@),
                ..old(self)@
            }),
    {
        let len: usize = self.bytes.len();
        assert(start <= len);
        write_range(&mut self.bytes, start as usize, data);
    }

    pub fn snapshot(&self) -> (r: DiskDataSnapshot)
        ensures
            r@ == self@,
    {
        let len: usize = self.bytes.len();
        let bytes = copy_range(&self.bytes, 0, len);
        assert(bytes@ =~= self.bytes@);
        DiskDataSnapshot { bytes, is_cd: self.is_cd }
    }

    pub fn from_snapshot(snapshot: DiskDataSnapshot) -> (r: Self)
        ensures
            r@ == snapshot@,
    {
        DiskData { bytes: snapshot.bytes, is_cd: snapshot.is_cd }
    }
}

} // verus!
