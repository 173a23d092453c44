//! Port accesses that are wider than what a device answers.
use vstd::prelude::*;

use crate::hw::ports::{PortError, PortValue, PortWidth};

verus! {

/// Which part of an access is made.
#[derive(Copy, Clone, Debug, PartialEq, Eq, Structural)]
pub enum WidePhase {
    /// All of it at once.
    Whole(PortWidth),
    /// The lower word of a double word.
    LowWord,
    /// The upper word of a double word, at the port behind that of the lower one.
    HighWord,
    /// One byte after the other.
    Bytes { left: u8 },
    Finished,
}

/// What comes next of a read.
#[derive(Copy, Clone, Debug, PartialEq, Eq, Structural)]
pub enum ReadAction {
    Read { port: u16, width: PortWidth },
    Done(u32),
    /// The device does not even answer a byte.
    Fail,
}

/// What comes next of a write.
#[derive(Copy, Clone, Debug, PartialEq, Eq, Structural)]
pub enum WriteAction {
    Write { port: u16, val: PortValue },
    Done,
    Fail,
}

/// A read of a port that falls back to narrower reads.
#[derive(Copy, Clone, Debug, PartialEq, Eq, Structural)]
pub struct WideRead {
    pub phase: WidePhase,
    /// The port of the read that is made.
    pub port: u16,
    /// What was read so far, and how many bytes that are.
    pub value: u32,
    pub filled: u8,
}

/// A write of a port that falls back to narrower writes.
#[derive(Copy, Clone, Debug, PartialEq, Eq, Structural)]
pub struct WideWrite {
    pub phase: WidePhase,
    /// The port of the write that is made.
    pub port: u16,
    /// What is left to be written.
    pub value: u32,
}

pub struct ReadStep {
    pub next: WideRead,
    pub action: ReadAction,
}

pub struct WriteStep {
    pub next: WideWrite,
    pub action: WriteAction,
}

/// The weight of a byte in a number.
pub open spec fn byte_weight(n: u8) -> int {
    if n == 0 {
        1
    } else if n == 1 {
        0x100
    } else if n == 2 {
        0x1_0000
    } else if n == 3 {
        0x100_0000
    } else {
        0x1_0000_0000
    }
}

fn weight(n: u8) -> (r: u32)
    requires
        n < 4,
    ensures
        r == byte_weight(n),
{
    if n == 0 {
        1
    } else if n == 1 {
        0x100
    } else if n == 2 {
        0x1_0000
    } else {
        0x100_0000
    }
}

/// The number of bytes that a phase reads or writes at most.
pub open spec fn phase_bytes(phase: WidePhase) -> int {
    match phase {
        WidePhase::Whole(width) => width.size_spec(),
        WidePhase::LowWord => 4,
        WidePhase::HighWord => 2,
        WidePhase::Bytes { left } => left as int,
        WidePhase::Finished => 0,
    }
}

impl WidePhase {
    /// The width of the access that is made.
    pub open spec fn width(self) -> PortWidth {
        match self {
            WidePhase::Whole(width) => width,
            WidePhase::LowWord => PortWidth::Word,
            WidePhase::HighWord => PortWidth::Word,
            _ => PortWidth::Byte,
        }
    }

    /// Whether the port behind this one is accessed next, once the device has answered.
    pub open spec fn moves_on(self, answered: bool) -> bool {
        answered && match self {
            WidePhase::LowWord => true,
            WidePhase::Bytes { left } => left > 1,
            _ => false,
        }
    }
}

impl WideRead {
    /// The value has room for what is to come.
    pub open spec fn wf(&self) -> bool {
        &&& self.filled <= 4
        &&& self.value < byte_weight(self.filled)
        &&& self.filled + phase_bytes(self.phase) <= 4
        &&& self.phase matches WidePhase::Bytes { left } ==> left > 0
        &&& self.phase == WidePhase::HighWord ==> self.filled == 2
        &&& self.phase == WidePhase::LowWord ==> self.filled == 0
        &&& self.phase is Whole ==> self.filled == 0
    }

    pub open spec fn reads(self, phase: WidePhase) -> ReadStep {
        ReadStep {
            next: WideRead { phase, ..self },
            action: ReadAction::Read { port: self.port, width: phase.width() },
        }
    }

    pub open spec fn ends(self, action: ReadAction) -> ReadStep {
        ReadStep { next: WideRead { phase: WidePhase::Finished, ..self }, action }
    }

    /// What comes after the device has answered.
    pub open spec fn stepped(self, answer: Result<u32, PortError>) -> ReadStep {
        match (self.phase, answer) {
            (WidePhase::Whole(_), Ok(v)) => self.ends(ReadAction::Done(v)),
            (WidePhase::Whole(PortWidth::Byte), Err(_)) => self.ends(ReadAction::Fail),
            (WidePhase::Whole(PortWidth::Word), Err(_)) => self.reads(WidePhase::Bytes { left: 2 }),
            (WidePhase::Whole(PortWidth::Dword), Err(_)) => self.reads(WidePhase::LowWord),
            (WidePhase::LowWord, Ok(v)) => (WideRead {
                value: v,
                filled: 2,
                port: (self.port + 1) as u16,
                ..self
            }).reads(WidePhase::HighWord),
            (WidePhase::LowWord, Err(_)) => self.reads(WidePhase::Bytes { left: 4 }),
            (WidePhase::HighWord, Ok(v)) => self.ends(
                ReadAction::Done((self.value + v * 0x1_0000) as u32),
            ),
            (WidePhase::HighWord, Err(_)) => self.reads(WidePhase::Bytes { left: 2 }),
            (WidePhase::Bytes { left }, Ok(v)) => {
                let value = (self.value + v * byte_weight(self.filled)) as u32;
                if left <= 1 {
                    self.ends(ReadAction::Done(value))
                } else {
                    (WideRead {
                        value,
                        filled: (self.filled + 1) as u8,
                        port: (self.port + 1) as u16,
                        ..self
                    }).reads(WidePhase::Bytes { left: (left - 1) as u8 })
                }
            },
            _ => self.ends(ReadAction::Fail),
        }
    }

    /// A read of a port. The whole of it is tried first.
    pub fn new(port: u16, width: PortWidth) -> (r: Self)
        ensures
            r.wf(),
            r == (WideRead { phase: WidePhase::Whole(width), port, value: 0, filled: 0 }),
    {
        WideRead { phase: WidePhase::Whole(width), port, value: 0, filled: 0 }
    }

    fn read(&mut self, phase: WidePhase, width: PortWidth) -> (r: ReadAction)
        requires
            width == phase.width(),
        ensures
            old(self).reads(phase) == (ReadStep { next: *final(self), action: r }),
    {
        self.phase = phase;
        ReadAction::Read { port: self.port, width }
    }

    fn end(&mut self, action: ReadAction) -> (r: ReadAction)
        ensures
            old(self).ends(action) == (ReadStep { next: *final(self), action: r }),
    {
        self.phase = WidePhase::Finished;
        action
    }

    /// Goes on with what the device has answered.
    pub fn step(&mut self, answer: Result<u32, PortError>) -> (r: ReadAction)
        requires
            old(self).wf(),
            old(self).phase != WidePhase::Finished,
            answer matches Ok(v) ==> v < old(self).phase.width().limit(),
            old(self).phase.moves_on(answer.is_ok()) ==> old(self).port < 0xffff,
        ensures
            old(self).stepped(answer) == (ReadStep { next: *final(self), action: r }),
            r is Read ==> final(self).wf(),
    {
        match (self.phase, answer) {
            (WidePhase::Whole(_), Ok(v)) => {
                return self.end(ReadAction::Done(v));
            },
            (WidePhase::Whole(PortWidth::Byte), Err(_)) => {
                return self.end(ReadAction::Fail);
            },
            (WidePhase::Whole(PortWidth::Word), Err(_)) => {
                return self.read(WidePhase::Bytes { left: 2 }, PortWidth::Byte);
            },
            (WidePhase::Whole(PortWidth::Dword), Err(_)) => {
                return self.read(WidePhase::LowWord, PortWidth::Word);
            },
            (WidePhase::LowWord, Ok(v)) => {
                self.value = v;
                self.filled = 2;
                self.port = self.port + 1;
                return self.read(WidePhase::HighWord, PortWidth::Word);
            },
            (WidePhase::LowWord, Err(_)) => {
                return self.read(WidePhase::Bytes { left: 4 }, PortWidth::Byte);
            },
            (WidePhase::HighWord, Ok(v)) => {
                let value: u32 = self.value + v * 0x1_0000;
                return self.end(ReadAction::Done(value));
            },
            (WidePhase::HighWord, Err(_)) => {
                return self.read(WidePhase::Bytes { left: 2 }, PortWidth::Byte);
            },
            (WidePhase::Bytes { left }, Ok(v)) => {
                let w: u32 = weight(self.filled);
                assert(self.value + v * w < byte_weight((self.filled + 1) as u8)) by (nonlinear_arith)
                    requires
                        self.value < w,
                        v < 0x100,
                        byte_weight((self.filled + 1) as u8) == 0x100 * w,
                ;
                assert(v * w <= 0xff * w) by (nonlinear_arith)
                    requires
                        v < 0x100,
                ;
                let value: u32 = self.value + v * w;
                if left <= 1 {
                    return self.end(ReadAction::Done(value));
                }
                self.value = value;
                self.filled = self.filled + 1;
                self.port = self.port + 1;
                return self.read(WidePhase::Bytes { left: left - 1 }, PortWidth::Byte);
            },
            _ => {
                return self.end(ReadAction::Fail);
            },
        }
    }
}

impl WideWrite {
    pub open spec fn wf(&self) -> bool {
        &&& self.phase matches WidePhase::Bytes { left } ==> left > 0
        &&& self.phase matches WidePhase::Whole(width) ==> self.value < width.limit()
        &&& self.phase == WidePhase::HighWord ==> self.value < 0x1_0000
    }

    /// The value of the write that is made.
    pub open spec fn part(self, phase: WidePhase) -> PortValue {
        PortValue {
            width: phase.width(),
            value: (self.value as int % phase.width().limit()) as u32,
        }
    }

    pub open spec fn writes(self, phase: WidePhase) -> WriteStep {
        WriteStep {
            next: WideWrite { phase, ..self },
            action: WriteAction::Write { port: self.port, val: self.part(phase) },
        }
    }

    pub open spec fn ends(self, action: WriteAction) -> WriteStep {
        WriteStep { next: WideWrite { phase: WidePhase::Finished, ..self }, action }
    }

    /// What comes after the device has taken a part, or refused it.
    pub open spec fn stepped(self, taken: bool) -> WriteStep {
        match (self.phase, taken) {
            (WidePhase::Whole(_), true) => self.ends(WriteAction::Done),
            (WidePhase::Whole(PortWidth::Byte), false) => self.ends(WriteAction::Fail),
            (WidePhase::Whole(PortWidth::Word), false) => self.writes(WidePhase::Bytes { left: 2 }),
            (WidePhase::Whole(PortWidth::Dword), false) => self.writes(WidePhase::LowWord),
            (WidePhase::LowWord, true) => (WideWrite {
                value: self.value / 0x1_0000,
                port: (self.port + 1) as u16,
                ..self
            }).writes(WidePhase::HighWord),
            (WidePhase::LowWord, false) => self.writes(WidePhase::Bytes { left: 4 }),
            (WidePhase::HighWord, true) => self.ends(WriteAction::Done),
            (WidePhase::HighWord, false) => self.writes(WidePhase::Bytes { left: 2 }),
            (WidePhase::Bytes { left }, true) => if left <= 1 {
                self.ends(WriteAction::Done)
            } else {
                (WideWrite {
                    value: self.value / 0x100,
                    port: (self.port + 1) as u16,
                    ..self
                }).writes(WidePhase::Bytes { left: (left - 1) as u8 })
            },
            _ => self.ends(WriteAction::Fail),
        }
    }

    /// A write of a port. The whole of it is tried first.
    pub fn new(port: u16, val: PortValue) -> (r: Self)
        requires
            val.value < val.width.limit(),
        ensures
            r.wf(),
            r == (WideWrite { phase: WidePhase::Whole(val.width), port, value: val.value }),
    {
        WideWrite { phase: WidePhase::Whole(val.width), port, value: val.value }
    }

    fn write(&mut self, phase: WidePhase, width: PortWidth) -> (r: WriteAction)
        requires
            width == phase.width(),
        ensures
            old(self).writes(phase) == (WriteStep { next: *final(self), action: r }),
    {
        self.phase = phase;
        let value: u32 = match width {
            PortWidth::Byte => self.value % 0x100,
            PortWidth::Word => self.value % 0x1_0000,
            PortWidth::Dword => self.value,
        };
        WriteAction::Write { port: self.port, val: PortValue { width, value } }
    }

    fn end(&mut self, action: WriteAction) -> (r: WriteAction)
        ensures
            old(self).ends(action) == (WriteStep { next: *final(self), action: r }),
    {
        self.phase = WidePhase::Finished;
        action
    }

    /// Goes on after the device has taken a part, or refused it.
    pub fn step(&mut self, taken: bool) -> (r: WriteAction)
        requires
            old(self).wf(),
            old(self).phase != WidePhase::Finished,
            old(self).phase.moves_on(taken) ==> old(self).port < 0xffff,
        ensures
            old(self).stepped(taken) == (WriteStep { next: *final(self), action: r }),
            r is Write ==> final(self).wf(),
    {
        match (self.phase, taken) {
            (WidePhase::Whole(_), true) => {
                return self.end(WriteAction::Done);
            },
            (WidePhase::Whole(PortWidth::Byte), false) => {
                return self.end(WriteAction::Fail);
            },
            (WidePhase::Whole(PortWidth::Word), false) => {
                return self.write(WidePhase::Bytes { left: 2 }, PortWidth::Byte);
            },
            (WidePhase::Whole(PortWidth::Dword), false) => {
                return self.write(WidePhase::LowWord, PortWidth::Word);
            },
            (WidePhase::LowWord, true) => {
                self.value = self.value / 0x1_0000;
                self.port = self.port + 1;
                return self.write(WidePhase::HighWord, PortWidth::Word);
            },
            (WidePhase::LowWord, false) => {
                return self.write(WidePhase::Bytes { left: 4 }, PortWidth::Byte);
            },
            (WidePhase::HighWord, true) => {
                return self.end(WriteAction::Done);
            },
            (WidePhase::HighWord, false) => {
                return self.write(WidePhase::Bytes { left: 2 }, PortWidth::Byte);
            },
            (WidePhase::Bytes { left }, true) => {
                if left <= 1 {
                    return self.end(WriteAction::Done);
                }
                self.value = self.value / 0x100;
                self.port = self.port + 1;
                return self.write(WidePhase::Bytes { left: left - 1 }, PortWidth::Byte);
            },
            _ => {
                return self.end(WriteAction::Fail);
            },
        }
    }
}

/// A device that only answers bytes is read byte by byte, from consecutive ports, the lowest byte
/// first.
pub proof fn bytes_are_read_in_order(port: u16, e: PortError, a: u32, b: u32, c: u32, d: u32)
    requires
        port <= 0xfffc,
        a < 0x100 && b < 0x100 && c < 0x100 && d < 0x100,
    ensures
        ({
            let start = WideRead {
                phase: WidePhase::Whole(PortWidth::Dword),
                port,
                value: 0,
                filled: 0,
            };
            let r0 = start.stepped(Err(e)).next.stepped(Err(e));
            let r1 = r0.next.stepped(Ok(a));
            let r2 = r1.next.stepped(Ok(b));
            let r3 = r2.next.stepped(Ok(c));
            let r4 = r3.next.stepped(Ok(d));
            &&& r0.action == ReadAction::Read { port, width: PortWidth::Byte }
            &&& r3.action == ReadAction::Read { port: (port + 3) as u16, width: PortWidth::Byte }
            &&& r4.action == ReadAction::Done(
                (a + 0x100 * b + 0x1_0000 * c + 0x100_0000 * d) as u32,
            )
        }),
{
    let start = WideRead {
        phase: WidePhase::Whole(PortWidth::Dword),
        port,
        value: 0,
        filled: 0,
    };
    let r0 = start.stepped(Err(e)).next.stepped(Err(e));
    let r1 = r0.next.stepped(Ok(a));
    let r2 = r1.next.stepped(Ok(b));
    let r3 = r2.next.stepped(Ok(c));
    lemma_weighted(a, 0, 1);
    lemma_weighted(b, 1, 0x100);
    lemma_weighted(c, 2, 0x1_0000);
    lemma_weighted(d, 3, 0x100_0000);
    assert(r1.next.filled == 1 && r1.next.value == a);
    assert(r2.next.filled == 2 && r2.next.value == a + 0x100 * b);
    assert(r3.next.filled == 3 && r3.next.value == a + 0x100 * b + 0x1_0000 * c);
}

proof fn lemma_weighted(v: u32, n: u8, weight: int)
    requires
        byte_weight(n) == weight,
    ensures
        v * byte_weight(n) == weight * v,
{
    let w = byte_weight(n);
    assert(v * w == weight * v) by (nonlinear_arith)
        requires
            w == weight,
    ;
}

/// A device that only takes bytes is written byte by byte, to consecutive ports, the lowest byte
/// first.
pub proof fn bytes_are_written_in_order(port: u16, value: u32)
    requires
        port <= 0xfffc,
    ensures
        ({
            let start = WideWrite {
                phase: WidePhase::Whole(PortWidth::Dword),
                port,
                value,
            };
            let w0 = start.stepped(false).next.stepped(false);
            let w1 = w0.next.stepped(true);
            let w2 = w1.next.stepped(true);
            let w3 = w2.next.stepped(true);
            &&& w0.action == WriteAction::Write {
                port,
                val: PortValue { width: PortWidth::Byte, value: (value % 0x100) as u32 },
            }
            &&& w1.action == WriteAction::Write {
                port: (port + 1) as u16,
                val: PortValue { width: PortWidth::Byte, value: (value / 0x100 % 0x100) as u32 },
            }
            &&& w2.action == WriteAction::Write {
                port: (port + 2) as u16,
                val: PortValue { width: PortWidth::Byte, value: (value / 0x1_0000 % 0x100) as u32 },
            }
            &&& w3.action == WriteAction::Write {
                port: (port + 3) as u16,
                val: PortValue { width: PortWidth::Byte, value: (value / 0x100_0000) as u32 },
            }
            &&& w3.next.stepped(true).action == WriteAction::Done
        }),
{
    let v: int = value as int;
    assert(v / 0x100 / 0x100 == v / 0x1_0000);
    assert(v / 0x1_0000 / 0x100 == v / 0x100_0000);
}

} // verus!
