//! Hooks that watch the execution of instructions.
use vstd::prelude::*;

use crate::emulator::state::State;

verus! {

/// What a hook asks of the loops.
#[derive(Copy, Clone, Debug, PartialEq, Eq, Structural)]
pub struct HookNeeds {
    /// Whether several instructions may run without the hook.
    pub allow_multiple_instr_single_function: bool,
    pub can_be_discarded: bool,
    pub can_halt: bool,
    pub can_return_blocks: bool,
    pub can_accept_interrupts: bool,
}

impl HookNeeds {
    pub open spec fn of_nothing() -> HookNeeds {
        HookNeeds {
            allow_multiple_instr_single_function: true,
            can_be_discarded: false,
            can_halt: true,
            can_return_blocks: true,
            can_accept_interrupts: true,
        }
    }

    /// A hook that asks for nothing but to be called after each instruction.
    pub open spec fn of_watcher() -> HookNeeds {
        HookNeeds { allow_multiple_instr_single_function: false, ..Self::of_nothing() }
    }

    pub open spec fn joined(self, other: HookNeeds) -> HookNeeds {
        HookNeeds {
            allow_multiple_instr_single_function: self.allow_multiple_instr_single_function
                && other.allow_multiple_instr_single_function,
            can_be_discarded: self.can_be_discarded || other.can_be_discarded,
            can_halt: self.can_halt && other.can_halt,
            can_return_blocks: self.can_return_blocks && other.can_return_blocks,
            can_accept_interrupts: self.can_accept_interrupts && other.can_accept_interrupts,
        }
    }

    /// The needs where there is no hook.
    pub fn nothing() -> (r: Self)
        ensures
            r == Self::of_nothing(),
    {
        HookNeeds {
            allow_multiple_instr_single_function: true,
            can_be_discarded: false,
            can_halt: true,
            can_return_blocks: true,
            can_accept_interrupts: true,
        }
    }

    /// The needs of a hook that is called after each instruction.
    pub fn watcher() -> (r: Self)
        ensures
            r == Self::of_watcher(),
    {
        HookNeeds {
            allow_multiple_instr_single_function: false,
            can_be_discarded: false,
            can_halt: true,
            can_return_blocks: true,
            can_accept_interrupts: true,
        }
    }

    /// The needs of two hooks together.
    pub fn and(self, other: HookNeeds) -> (r: Self)
        ensures
            r == self.joined(other),
    {
        HookNeeds {
            allow_multiple_instr_single_function: self.allow_multiple_instr_single_function
                && other.allow_multiple_instr_single_function,
            can_be_discarded: self.can_be_discarded || other.can_be_discarded,
            can_halt: self.can_halt && other.can_halt,
            can_return_blocks: self.can_return_blocks && other.can_return_blocks,
            can_accept_interrupts: self.can_accept_interrupts && other.can_accept_interrupts,
        }
    }
}

/// Hooks can be joined in any order, and the absence of a hook changes nothing.
pub proof fn hooks_join_in_any_order(a: HookNeeds, b: HookNeeds, c: HookNeeds)
    ensures
        a.joined(b) == b.joined(a),
        a.joined(b).joined(c) == a.joined(b.joined(c)),
        a.joined(HookNeeds::of_nothing()) == a,
{
}

/// The address of the next instruction.
pub open spec fn pc_of(cpu: State) -> u32 {
    ((cpu.cs.base + cpu.ip) % 0x1_0000_0000) as u32
}

/// Notices instructions that change code.
#[derive(Copy, Clone, Debug, PartialEq, Eq, Structural)]
pub struct DirtyTracker {
    pub num_dirty_before: u64,
}

impl DirtyTracker {
    /// Remembers how many frames were marked so far.
    pub fn before_execute(&mut self, frames_marked: u64)
        ensures
            final(self).num_dirty_before == frames_marked,
    {
        self.num_dirty_before = frames_marked;
    }

    /// Whether the instruction has marked a frame.
    pub fn after_execute(&self, frames_marked: u64) -> (r: bool)
        ensures
            r == (self.num_dirty_before != frames_marked),
    {
        self.num_dirty_before != frames_marked
    }

    /// The needs of the hook.
    pub fn needs(&self) -> (r: HookNeeds)
        ensures
            r == HookNeeds::of_watcher(),
    {
        HookNeeds::watcher()
    }
}

/// The last instructions that were executed, the newest one last.
#[derive(Debug)]
pub struct Path {
    entries: Vec<(u32, Vec<u8>)>,
}

/// Keeps the last instructions in a path.
#[derive(Copy, Clone, Debug, PartialEq, Eq, Structural)]
pub struct TrackPath;

impl Path {
    /// The addresses and instructions.
    pub closed spec fn view(&self) -> Seq<(u32, Seq<u8>)> {
        Seq::new(self.entries.len() as nat, |i: int| (self.entries[i].0, self.entries[i].1@))
    }

    pub fn new() -> (r: Self)
        ensures
            r@ == Seq::<(u32, Seq<u8>)>::empty(),
    {
        let r = Path { entries: Vec::new() };
        assert(r@ =~= Seq::empty());
        r
    }

    pub fn len(&self) -> (r: usize)
        ensures
            r == self@.len(),
    {
        self.entries.len()
    }

    /// The address of an instruction.
    pub fn address(&self, i: usize) -> (r: u32)
        requires
            i < self@.len(),
        ensures
            r == self@[i as int].0,
    {
        self.entries[i].0
    }

    /// Adds an instruction. Only the last 32 are kept.
    pub fn push(&mut self, pc: u32, instr: Vec<u8>)
        ensures
            final(self)@ == (if old(self)@.len() >= 32 {
                old(self)@.drop_first()
            } else {
                old(self)@
            }).push((pc, instr@)),
    {
        if self.entries.len() >= 32 {
            self.entries.remove(0);
        }
        self.entries.push((pc, instr));
        assert(self@ =~= (if old(self)@.len() >= 32 {
            old(self)@.drop_first()
        } else {
            old(self)@
        }).push((pc, instr@)));
    }
}

impl TrackPath {
    pub fn before_execute(&self, path: &mut Path, cpu: &State, instr: Vec<u8>)
        ensures
            final(path)@ == (if old(path)@.len() >= 32 {
                old(path)@.drop_first()
            } else {
                old(path)@
            }).push((pc_of(*cpu), instr@)),
    {
        path.push(cpu.cs.base.wrapping_add(cpu.ip), instr);
    }

    /// The needs of the hook.
    pub fn needs(&self) -> (r: HookNeeds)
        ensures
            r == HookNeeds::of_watcher(),
    {
        HookNeeds::watcher()
    }
}

/// Checks each instruction against a trace.
#[derive(Copy, Clone, Debug, PartialEq, Eq, Structural)]
pub struct CheckTrace {
    pub pc: u32,
}

impl Default for CheckTrace {
    fn default() -> (r: Self)
        ensures
            r.pc == 0,
    {
        Self::new()
    }
}

impl CheckTrace {
    pub fn new() -> (r: Self)
        ensures
            r.pc == 0,
    {
        Self { pc: 0 }
    }

    /// Remembers where the instruction is.
    pub fn before_execute(&mut self, cpu: &State)
        ensures
            final(self).pc == pc_of(*cpu),
    {
        self.pc = cpu.cs.base.wrapping_add(cpu.ip);
    }

    /// Takes the interrupt that should have come. Says whether it was a page fault.
    pub fn take_expected(next_expected_interrupt: &mut Option<u8>) -> (r: bool)
        ensures
            *final(next_expected_interrupt) is None,
            r == (*old(next_expected_interrupt) == Some(0xEu8)),
    {
        let r = match next_expected_interrupt {
            Some(n) => *n == 0xE,
            None => false,
        };
        *next_expected_interrupt = None;
        r
    }

    /// The needs of the hook. Where there is no trace any more, it is useless.
    pub fn needs(&self, has_trace: bool) -> (r: HookNeeds)
        ensures
            r == (HookNeeds {
                allow_multiple_instr_single_function: false,
                can_be_discarded: !has_trace,
                can_halt: !has_trace,
                can_return_blocks: false,
                can_accept_interrupts: !has_trace,
            }),
    {
        HookNeeds {
            allow_multiple_instr_single_function: false,
            can_be_discarded: !has_trace,
            can_halt: !has_trace,
            can_return_blocks: false,
            can_accept_interrupts: !has_trace,
        }
    }
}

/// Prints instructions around given numbers.
#[derive(Copy, Clone, Debug, PartialEq, Eq, Structural)]
pub struct Printer {
    pub print_at: u64,
    pub skip_print: bool,
}

/// The next number to print at. The lowest one is the last of the list.
pub open spec fn next_print(print_at: Seq<u64>) -> u64 {
    if print_at.len() > 0 {
        print_at.last()
    } else {
        u64::MAX
    }
}

/// The list without its next number, once that has passed.
pub open spec fn after_printing(print_at: Seq<u64>, k: u64) -> Seq<u64> {
    if k > next_print(print_at) {
        print_at.drop_last()
    } else {
        print_at
    }
}

/// Whether it is too early to print.
pub open spec fn is_early(k: u64, print_at: u64) -> bool {
    k + 10_000 < print_at
}

fn advance(print_at: &mut Vec<u64>, k: u64) -> (r: u64)
    ensures
        r == next_print(old(print_at)@),
        final(print_at)@ == after_printing(old(print_at)@, k),
{
    let next: u64 = if print_at.len() > 0 {
        print_at[print_at.len() - 1]
    } else {
        u64::MAX
    };
    if k > next {
        print_at.pop();
        assert(print_at@ =~= old(print_at)@.drop_last());
    }
    next
}

impl Printer {
    pub fn new(print_at: &mut Vec<u64>, k: u64) -> (r: Self)
        ensures
            r.print_at == next_print(old(print_at)@),
            r.skip_print == is_early(k, r.print_at),
            final(print_at)@ == after_printing(old(print_at)@, k),
    {
        let next: u64 = advance(print_at, k);
        Self { print_at: next, skip_print: k < next.saturating_sub(10_000) }
    }

    /// Whether an instruction is printed. Where it is not, the next number is looked up.
    pub fn before_execute(&mut self, print_at: &mut Vec<u64>, k: u64) -> (r: bool)
        ensures
            final(self).print_at == old(self).print_at,
            r == !old(self).skip_print,
            r ==> *final(self) == *old(self) && final(print_at)@ == old(print_at)@,
            !r ==> {
                &&& final(self).skip_print == is_early(k, next_print(old(print_at)@))
                &&& final(print_at)@ == after_printing(old(print_at)@, k)
            },
    {
        if !self.skip_print {
            return true;
        }
        let next: u64 = advance(print_at, k);
        self.skip_print = k < next.saturating_sub(10_000);
        false
    }

    /// Whether execution goes on: it ends some instructions behind the number.
    pub fn after_execute(&self, k: u64) -> (r: bool)
        ensures
            r == (self.skip_print || k <= self.print_at + 5_000),
    {
        self.skip_print || k <= self.print_at.saturating_add(5_000)
    }

    pub fn can_return_blocks(&self) -> (r: bool)
        ensures
            r == self.skip_print,
    {
        self.skip_print
    }

    /// The needs of the hook: blocks may be returned while it is too early to print.
    pub fn needs(&self) -> (r: HookNeeds)
        ensures
            r == (HookNeeds { can_return_blocks: self.skip_print, ..HookNeeds::of_watcher() }),
    {
        HookNeeds { can_return_blocks: self.skip_print, ..HookNeeds::watcher() }
    }
}

/// Prints every instruction.
#[derive(Copy, Clone, Debug, PartialEq, Eq, Structural)]
pub struct PrintEveryInstr;

impl PrintEveryInstr {
    pub fn new() -> (r: Self)
        ensures
            r == PrintEveryInstr,
    {
        Self
    }

    /// What is printed of an instruction: where its segment starts, and its offset.
    pub fn before_execute(&self, cpu: &State) -> (r: (u32, u32))
        ensures
            r == (cpu.cs.base, cpu.ip),
    {
        (cpu.cs.base, cpu.ip)
    }

    /// The needs of the hook: every instruction must come by itself.
    pub fn needs(&self) -> (r: HookNeeds)
        ensures
            r == (HookNeeds { can_return_blocks: false, ..HookNeeds::of_watcher() }),
    {
        HookNeeds { can_return_blocks: false, ..HookNeeds::watcher() }
    }
}

/// Records what the emulator is doing.
#[derive(Copy, Clone, Debug, PartialEq, Eq, Structural)]
pub struct EnableProfiler;

impl EnableProfiler {
    /// The needs of the hook: there are none, several instructions may run without it.
    pub fn needs(&self) -> (r: HookNeeds)
        ensures
            r == HookNeeds::of_nothing(),
    {
        HookNeeds::nothing()
    }
}

/// Measures how long single instructions take.
#[derive(Copy, Clone, Debug, PartialEq, Eq, Structural)]
pub struct MeasureSingleEncodingExecution {
    pub start: u64,
}

impl Default for MeasureSingleEncodingExecution {
    fn default() -> (r: Self)
        ensures
            r.start == 0,
    {
        Self::new()
    }
}

impl MeasureSingleEncodingExecution {
    pub fn new() -> (r: Self)
        ensures
            r.start == 0,
    {
        Self { start: 0 }
    }

    /// Counts an execution of an encoding, which starts at `now` ticks.
    pub fn before_encoding_execution(&mut self, counts: &mut Vec<u32>, index: usize, now: u64)
        requires
            index < old(counts).len(),
            old(counts)[index as int] < u32::MAX,
        ensures
            final(self).start == now,
            final(counts)@ == old(counts)@.update(
                index as int,
                (old(counts)[index as int] + 1) as u32,
            ),
    {
        let n: u32 = counts[index];
        counts.set(index, n + 1);
        self.start = now;
    }

    /// Adds the ticks that an execution has taken, unless the clock went back or far ahead.
    pub fn after_encoding_execution(&self, durations: &mut Vec<u64>, index: usize, now: u64)
        requires
            index < old(durations).len(),
            old(durations)[index as int] <= u64::MAX - 10_000_000_000,
        ensures
            final(durations)@ == if self.start <= now && now - self.start < 10_000_000_000 {
                old(durations)@.update(
                    index as int,
                    (old(durations)[index as int] + (now - self.start)) as u64,
                )
            } else {
                old(durations)@
            },
    {
        if self.start <= now {
            let elapsed: u64 = now - self.start;
            if elapsed < 10_000_000_000 {
                let n: u64 = durations[index];
                durations.set(index, n + elapsed);
            }
        }
    }

    /// The needs of the hook.
    pub fn needs(&self) -> (r: HookNeeds)
        ensures
            r == HookNeeds::of_watcher(),
    {
        HookNeeds::watcher()
    }
}

/// Checks that cached instructions are those in memory.
#[derive(Copy, Clone, Debug, PartialEq, Eq, Structural)]
pub struct CheckInstructionCacheConsistency;

/// What a check of a cached instruction has shown.
#[derive(Copy, Clone, Debug, PartialEq, Eq, Structural)]
pub enum CacheConsistency {
    Consistent,
    Unreadable,
    /// The instruction does not decode any more.
    Undecodable,
    /// Memory holds another instruction.
    Changed,
}

impl CheckInstructionCacheConsistency {
    /// Checks an instruction against the bytes at its address.
    pub fn check(&self, instr: &Vec<u8>, bytes: &Option<Vec<u8>>, decodes: bool) -> (r:
        CacheConsistency)
        ensures
            r == match *bytes {
                None => CacheConsistency::Unreadable,
                Some(b) => if !decodes {
                    CacheConsistency::Undecodable
                } else if b@ != instr@ {
                    CacheConsistency::Changed
                } else {
                    CacheConsistency::Consistent
                },
            },
    {
        match bytes {
            None => CacheConsistency::Unreadable,
            Some(b) => {
                if !decodes {
                    return CacheConsistency::Undecodable;
                }
                if b.len() != instr.len() {
                    return CacheConsistency::Changed;
                }
                let mut i: usize = 0;
                while i < b.len()
                    invariant
                        *bytes == Some(*b),
                        decodes,
                        i <= b.len(),
                        b.len() == instr.len(),
                        forall|k: int| 0 <= k < i ==> b@[k] == instr@[k],
                    decreases b.len() - i,
                {
                    if b[i] != instr[i] {
                        assert(b@[i as int] != instr@[i as int]);
                        return CacheConsistency::Changed;
                    }
                    i += 1;
                }
                assert(b@ =~= instr@);
                CacheConsistency::Consistent
            },
        }
    }

    /// The needs of the hook.
    pub fn needs(&self) -> (r: HookNeeds)
        ensures
            r == HookNeeds::of_watcher(),
    {
        HookNeeds::watcher()
    }
}

/// Prints memory from time to time.
#[derive(Copy, Clone, Debug, PartialEq, Eq, Structural)]
pub struct MemTrace {
    pub addr: u32,
    pub last_k: u64,
    pub physical: bool,
}

impl MemTrace {
    pub fn new_lin(addr: u32) -> (r: Self)
        ensures
            r == (MemTrace { addr, last_k: 0, physical: false }),
    {
        Self { addr, last_k: 0, physical: false }
    }

    pub fn new_phys(addr: u32) -> (r: Self)
        ensures
            r == (MemTrace { addr, last_k: 0, physical: true }),
    {
        Self { addr, last_k: 0, physical: true }
    }

    /// Whether memory is printed: every thousand instructions, and always around the next number
    /// to print at.
    pub fn after_execute(&mut self, print_at: &Vec<u64>, k: u64) -> (r: bool)
        ensures
            r == (old(self).last_k + 1_000 < k || !is_early(k, next_print(print_at@))),
            *final(self) == if r {
                MemTrace { last_k: k, ..*old(self) }
            } else {
                *old(self)
            },
    {
        let next: u64 = if print_at.len() > 0 {
            print_at[print_at.len() - 1]
        } else {
            u64::MAX
        };
        if self.last_k < k && k - self.last_k > 1_000 || k >= next.saturating_sub(10_000) {
            self.last_k = k;
            true
        } else {
            false
        }
    }

    /// The needs of the hook.
    pub fn needs(&self) -> (r: HookNeeds)
        ensures
            r == HookNeeds::of_watcher(),
    {
        HookNeeds::watcher()
    }
}

/// Stops execution at a number of instructions.
#[derive(Copy, Clone, Debug, PartialEq, Eq, Structural)]
pub struct StopAt(pub u64);

impl StopAt {
    pub fn new(val: u64) -> (r: Self)
        ensures
            r.0 == val,
    {
        Self(val)
    }

    /// Whether execution goes on.
    pub fn after_execute(&self, k: u64) -> (r: bool)
        ensures
            r == (k < self.0),
    {
        k < self.0
    }

    /// The needs of the hook.
    pub fn needs(&self) -> (r: HookNeeds)
        ensures
            r == HookNeeds::of_watcher(),
    {
        HookNeeds::watcher()
    }
}

/// A clock that goes with the instructions, in nanoseconds.
#[derive(Copy, Clone, Debug, PartialEq, Eq, Structural)]
pub struct SynchronousClock {
    pub now: u64,
}

/// Moves the clock on with each instruction.
#[derive(Debug)]
pub struct SyncClock {
    pub clock: SynchronousClock,
    pub interval: u64,
}

impl SyncClock {
    pub fn new(clock: SynchronousClock) -> (r: Self)
        ensures
            r.clock == clock,
            r.interval == 100,
    {
        Self { clock, interval: 100 }
    }

    /// Moves the clock on.
    pub fn after_execute(&mut self)
        requires
            old(self).clock.now + old(self).interval <= u64::MAX,
        ensures
            final(self).clock.now == old(self).clock.now + old(self).interval,
            final(self).interval == old(self).interval,
    {
        self.clock.now = self.clock.now + self.interval;
    }

    /// Moves the clock on while the processor is halted. Nobody needs to sleep.
    pub fn halt(&mut self) -> (r: bool)
        requires
            old(self).clock.now + old(self).interval <= u64::MAX,
        ensures
            r,
            final(self).clock.now == old(self).clock.now + old(self).interval,
            final(self).interval == old(self).interval,
    {
        self.clock.now = self.clock.now + self.interval;
        true
    }

    /// The needs of the hook.
    pub fn needs(&self) -> (r: HookNeeds)
        ensures
            r == HookNeeds::of_watcher(),
    {
        HookNeeds::watcher()
    }
}

} // verus!
