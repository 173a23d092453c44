//! The port that a BIOS writes its messages to.
use vstd::prelude::*;

use crate::bytes::copy_range;

verus! {

/// Collects bytes until a line is complete.
#[derive(Debug)]
pub struct Logger {
    buf: Vec<u8>,
}

impl View for Logger {
    type V = Seq<u8>;

    closed spec fn view(&self) -> Seq<u8> {
        self.buf@
    }
}

/// Whether a byte ends the line: it is a newline, or the line is full.
pub open spec fn ends_line(buf: Seq<u8>, val: u8) -> bool {
    val == 0x0a || buf.len() >= 80
}

impl Default for Logger {
    fn default() -> (r: Self)
        ensures
            r@ == Seq::<u8>::empty(),
    {
        Self::new()
    }
}

impl Logger {
    /// Takes a byte. Returns the line that it ends, without the byte.
    pub fn write(&mut self, val: u8) -> (r: Option<Vec<u8>>)
        ensures
            r.is_some() == ends_line(old(self)@, val),
            r.is_some() ==> r.unwrap()@ == old(self)@ && final(self)@ == Seq::<u8>::empty(),
            r.is_none() ==> final(self)@ == old(self)@.push(val),
    {
        if val == 0x0a || self.buf.len() >= 80 {
            let line = copy_range(&self.buf, 0, self.buf.len());
            assert(line@ =~= self.buf@);
            self.buf.clear();
            Some(line)
        } else {
            self.buf.push(val);
            None
        }
    }

    pub fn new() -> (r: Self)
        ensures
            r@ == Seq::<u8>::empty(),
    {
        Self { buf: Vec::new() }
    }

    pub fn snapshot(&self) -> (r: Logger)
        ensures
            r@ == self@,
    {
        let buf = copy_range(&self.buf, 0, self.buf.len());
        assert(buf@ =~= self.buf@);
        Logger { buf }
    }

    pub fn restore(&mut self, logger: Logger)
        ensures
            final(self)@ == logger@,
    {
        *self = logger;
    }
}

/// A line never grows beyond 80 bytes: the byte that comes after the eightieth ends it.
pub proof fn lines_are_bounded(buf: Seq<u8>, val: u8)
    requires
        buf.len() <= 80,
        !ends_line(buf, val),
    ensures
        buf.push(val).len() <= 80,
{
}

} // verus!
