//! Traces of another execution, and the check of this one against them.
use vstd::prelude::*;

use crate::bytes::overwrite;
use crate::emulator::state::{Flags, Segment, State, Table, X87};
use crate::mem::Memory;

verus! {

/// A port access in a trace.
#[derive(Copy, Clone, Debug, PartialEq, Eq, Structural)]
pub struct PortTrace {
    pub port: u16,
    pub len: u8,
    pub value: u32,
}

/// A segment register in a trace.
#[derive(Copy, Clone, Debug, PartialEq, Eq, Structural)]
pub struct SegmentTrace {
    pub value: u16,
    pub cached_base: u32,
}

/// The state of the processor after an instruction of a trace.
#[derive(Debug)]
pub struct InstrTrace {
    /// The instruction itself.
    pub bytes: Vec<u8>,
    pub eax: u32,
    pub ebx: u32,
    pub ecx: u32,
    pub edx: u32,
    pub esi: u32,
    pub edi: u32,
    pub esp: u32,
    pub ebp: u32,
    pub eip: u32,
    pub cs: SegmentTrace,
    pub ds: SegmentTrace,
    pub es: SegmentTrace,
    pub ss: SegmentTrace,
    pub fs: SegmentTrace,
    pub gs: SegmentTrace,
    pub gdtr: Table,
    pub idtr: Table,
    pub ldtr: SegmentTrace,
    pub tr: SegmentTrace,
    pub eflags: u32,
    pub cr2: u32,
    pub cr3: u32,
    pub mm: [u128; 8],
    pub fsw: u16,
}

/// Memory that an instruction of a trace has written.
#[derive(Debug)]
pub struct MemAssert {
    pub paddr: u32,
    pub laddr: u32,
    pub data: Vec<u8>,
}

/// An entry of a trace.
#[derive(Debug)]
pub enum TraceEntry {
    Instr(InstrTrace),
    MemAssert(MemAssert),
    /// An interrupt follows.
    Int(u8),
    In(PortTrace),
    Out(PortTrace),
}

/// A trace that is read from its start.
#[derive(Debug)]
pub struct TraceReader {
    pub entries: Vec<TraceEntry>,
    pub pos: usize,
}

/// How an execution left its trace.
#[derive(Copy, Clone, Debug, PartialEq, Eq, Structural)]
pub enum Deviation {
    /// It runs elsewhere.
    OtherAddress,
    /// It has executed another instruction at the same address.
    OtherInstruction,
    /// It uses other page tables.
    OtherPageDirectory,
    /// The trace has written where there is no memory.
    Unreadable,
    /// A port access of the trace was not made.
    UnusedPortAccess,
}

/// What a check against a trace has shown.
#[derive(Copy, Clone, Debug, PartialEq, Eq, Structural)]
pub enum TraceOutcome {
    /// The trace is at its end, or not of interest any more.
    Disengaged,
    Continue,
    /// The trace has an interrupt from outside here.
    Interrupt(u8),
    Deviated(Deviation),
}

/// The interrupts that a trace is followed by.
#[derive(Copy, Clone, Debug, PartialEq, Eq, Structural)]
pub struct TraceState {
    /// The interrupt that the trace has next.
    pub next_expected_interrupt: Option<u8>,
    /// The interrupt that was just triggered because the trace has it.
    pub trace_triggered_interrupt: Option<u8>,
    /// The number of the last instruction that is checked.
    pub trace_limit: u64,
}

/// Where a check stands.
pub struct Check {
    pub cpu: State,
    pub mem: Seq<u8>,
    pub pos: int,
    pub next_expected: Option<u8>,
    /// Whether the instruction was found in the trace.
    pub checked: bool,
}

/// Whether an entry belongs to an instruction that has yet to be executed.
pub open spec fn begins_next(entry: TraceEntry) -> bool {
    entry is Instr || entry is In || entry is Out
}

#[verifier::opaque]
pub open spec fn corrected_segment(s: Segment, t: SegmentTrace) -> Segment {
    Segment { selector: t.value, base: t.cached_base, ..s }
}

/// Whether an instruction leaves values in the accumulator that differ for good reasons.
pub open spec fn keeps_accumulator(instr: Seq<u8>) -> bool {
    instr == seq![0xDFu8, 0xE0u8] || instr == seq![0x9Bu8]
}

/// The flags as the trace has them.
#[verifier::opaque]
pub open spec fn corrected_flags(f: Flags, eflags: u32) -> Flags {
    Flags { vm: eflags & 0x2_0000 != 0, if_: eflags & 0x200 != 0, ..f }
}

#[verifier::opaque]
pub open spec fn corrected_x87(x: X87, t: InstrTrace) -> X87 {
    X87 {
        mm: t.mm,
        top: ((t.fsw >> 11u16) & 7u16) as u8,
        exception_flags: (x.exception_flags & !0xffu64) | ((t.fsw & 1u16) as u64),
    }
}

/// The processor with the values of the trace.
#[verifier::opaque]
pub open spec fn corrected(cpu: State, t: InstrTrace, instr: Seq<u8>) -> State {
    State {
        ax: if keeps_accumulator(instr) {
            cpu.ax
        } else {
            t.eax
        },
        bx: t.ebx,
        cx: t.ecx,
        dx: t.edx,
        si: t.esi,
        di: t.edi,
        sp: t.esp,
        bp: t.ebp,
        ip: t.eip,
        cs: corrected_segment(cpu.cs, t.cs),
        ds: corrected_segment(cpu.ds, t.ds),
        ss: corrected_segment(cpu.ss, t.ss),
        es: corrected_segment(cpu.es, t.es),
        fs: corrected_segment(cpu.fs, t.fs),
        gs: corrected_segment(cpu.gs, t.gs),
        gdt: t.gdtr,
        idt: t.idtr,
        ldt: Table { base: t.ldtr.cached_base, ..cpu.ldt },
        tr: t.tr.value,
        tss: Table { base: t.tr.cached_base, ..cpu.tss },
        iopl: ((t.eflags >> 12u32) & 3u32) as u8,
        flags: corrected_flags(cpu.flags, t.eflags),
        x87: corrected_x87(cpu.x87, t),
        ..cpu
    }
}

/// Whether an instruction of the trace is passed over: one that the other execution reports twice,
/// or the interrupt that was just triggered.
pub open spec fn passed_over(bytes: Seq<u8>, triggered: Option<u8>) -> bool {
    ||| bytes == seq![0x9Bu8]
    ||| bytes.len() == 2 && bytes[0] == 0xCD && triggered == Some(bytes[1])
}

/// Whether differences in memory are of no interest: in the pages of the interrupt controllers and
/// the memory of video adapters.
pub open spec fn ignored_memory(addr: u32) -> bool {
    ||| addr / 0x1000 == 0xfee00
    ||| addr / 0x1000 == 0xfec00
    ||| addr / 0x2_0000 == 0x6
}

/// One entry of the trace.
pub open spec fn checked_entry(
    entry: TraceEntry,
    c: Check,
    instr: Seq<u8>,
    triggered: Option<u8>,
    external: Seq<u8>,
) -> Result<Check, Deviation> {
    let next = Check { pos: c.pos + 1, ..c };
    match entry {
        TraceEntry::Instr(t) => if t.bytes@ != instr {
            if passed_over(t.bytes@, triggered) {
                Ok(next)
            } else if t.eip != c.cpu.ip {
                Err(Deviation::OtherAddress)
            } else {
                Err(Deviation::OtherInstruction)
            }
        } else if t.cr3 != c.cpu.cr3 {
            Err(Deviation::OtherPageDirectory)
        } else {
            Ok(Check { cpu: corrected(c.cpu, t, instr), checked: true, ..next })
        },
        TraceEntry::MemAssert(m) => {
            let end = m.paddr + m.data@.len();
            if end > c.mem.len() {
                Err(Deviation::Unreadable)
            } else if m.data@ == c.mem.subrange(m.paddr as int, end) || ignored_memory(m.paddr) {
                Ok(next)
            } else {
                Ok(Check { mem: overwrite(c.mem, m.paddr as int, m.data@), ..next })
            }
        },
        TraceEntry::Int(v) => Ok(
            Check { next_expected: Some(v), checked: c.checked || external.contains(v), ..next },
        ),
        TraceEntry::In(_) => Err(Deviation::UnusedPortAccess),
        TraceEntry::Out(_) => Err(Deviation::UnusedPortAccess),
    }
}

/// The entries up to the next instruction.
pub open spec fn checked_from(
    entries: Seq<TraceEntry>,
    c: Check,
    instr: Seq<u8>,
    triggered: Option<u8>,
    external: Seq<u8>,
) -> Result<Check, Deviation>
    decreases entries.len() - c.pos,
    when c.pos >= 0
    via checked_from_decreases
{
    if c.pos >= entries.len() || (c.checked && begins_next(entries[c.pos])) {
        Ok(c)
    } else {
        match checked_entry(entries[c.pos], c, instr, triggered, external) {
            Ok(next) => checked_from(entries, next, instr, triggered, external),
            Err(d) => Err(d),
        }
    }
}

#[via_fn]
proof fn checked_from_decreases(
    entries: Seq<TraceEntry>,
    c: Check,
    instr: Seq<u8>,
    triggered: Option<u8>,
    external: Seq<u8>,
) {
}

/// What a check has shown, from where it ended.
pub open spec fn outcome_of(c: Check, external: Seq<u8>) -> TraceOutcome {
    if !c.checked {
        TraceOutcome::Disengaged
    } else {
        match c.next_expected {
            Some(v) => if external.contains(v) {
                TraceOutcome::Interrupt(v)
            } else {
                TraceOutcome::Continue
            },
            None => TraceOutcome::Continue,
        }
    }
}

/// Repeated instructions are resumed after an interrupt.
pub open spec fn resuming(cpu: State) -> State {
    State { flags: Flags { rf: true, ..cpu.flags }, ..cpu }
}

impl TraceReader {
    /// Reads the next entry. After an instruction, only entries that still belong to it are read.
    pub fn next(&mut self, checked_instr: bool) -> (r: Option<usize>)
        requires
            old(self).pos <= old(self).entries.len(),
        ensures
            final(self).entries == old(self).entries,
            ({
                let pos = old(self).pos;
                if pos >= old(self).entries@.len() || (checked_instr && begins_next(
                    old(self).entries@[pos as int],
                )) {
                    r is None && final(self).pos == pos
                } else {
                    r == Some(pos) && final(self).pos == pos + 1
                }
            }),
    {
        let pos: usize = self.pos;
        if pos >= self.entries.len() {
            return None;
        }
        if checked_instr {
            match &self.entries[pos] {
                TraceEntry::Instr(_) => {
                    return None;
                },
                TraceEntry::In(_) => {
                    return None;
                },
                TraceEntry::Out(_) => {
                    return None;
                },
                _ => {},
            }
        }
        self.pos = pos + 1;
        Some(pos)
    }
}

fn same_bytes(a: &[u8], b: &[u8]) -> (r: bool)
    ensures
        r == (a@ == b@),
{
    if a.len() != b.len() {
        return false;
    }
    let mut i: usize = 0;
    while i < a.len()
        invariant
            i <= a.len(),
            a.len() == b.len(),
            forall|k: int| 0 <= k < i ==> a@[k] == b@[k],
        decreases a.len() - i,
    {
        if a[i] != b[i] {
            assert(a@[i as int] != b@[i as int]);
            return false;
        }
        i += 1;
    }
    assert(a@ =~= b@);
    true
}

fn holds(list: &Vec<u8>, v: u8) -> (r: bool)
    ensures
        r == list@.contains(v),
{
    let mut i: usize = 0;
    while i < list.len()
        invariant
            i <= list.len(),
            forall|k: int| 0 <= k < i ==> list@[k] != v,
        decreases list.len() - i,
    {
        if list[i] == v {
            assert(list@[i as int] == v);
            return true;
        }
        i += 1;
    }
    false
}

fn correct_segment(s: Segment, t: SegmentTrace) -> (r: Segment)
    ensures
        r == corrected_segment(s, t),
{
    proof {
        reveal(corrected_segment);
    }
    Segment { selector: t.value, base: t.cached_base, ..s }
}

fn correct(cpu: State, t: &InstrTrace, instr: &Vec<u8>) -> (r: State)
    ensures
        r == corrected(cpu, *t, instr@),
{
    proof {
        reveal(corrected);
        reveal(corrected_flags);
        reveal(corrected_x87);
    }
    let fnstsw = instr.len() == 2 && instr[0] == 0xDF && instr[1] == 0xE0;
    let wait = instr.len() == 1 && instr[0] == 0x9B;
    assert(fnstsw == (instr@ == seq![0xDFu8, 0xE0u8])) by {
        if fnstsw {
            assert(instr@ =~= seq![0xDFu8, 0xE0u8]);
        }
    }
    assert(wait == (instr@ == seq![0x9Bu8])) by {
        if wait {
            assert(instr@ =~= seq![0x9Bu8]);
        }
    }
    let ax: u32 = if fnstsw || wait {
        cpu.ax
    } else {
        t.eax
    };
    let flags = Flags {
        vm: t.eflags & 0x2_0000 != 0,
        if_: t.eflags & 0x200 != 0,
        ..cpu.flags
    };
    let top: u16 = (t.fsw >> 11u16) & 7u16;
    let x87 = X87 {
        mm: t.mm,
        top: top as u8,
        exception_flags: (cpu.x87.exception_flags & !0xffu64) | ((t.fsw & 1u16) as u64),
    };
    let iopl: u32 = (t.eflags >> 12u32) & 3u32;
    State {
        ax,
        bx: t.ebx,
        cx: t.ecx,
        dx: t.edx,
        si: t.esi,
        di: t.edi,
        sp: t.esp,
        bp: t.ebp,
        ip: t.eip,
        cs: correct_segment(cpu.cs, t.cs),
        ds: correct_segment(cpu.ds, t.ds),
        ss: correct_segment(cpu.ss, t.ss),
        es: correct_segment(cpu.es, t.es),
        fs: correct_segment(cpu.fs, t.fs),
        gs: correct_segment(cpu.gs, t.gs),
        gdt: t.gdtr,
        idt: t.idtr,
        ldt: Table { base: t.ldtr.cached_base, ..cpu.ldt },
        tr: t.tr.value,
        tss: Table { base: t.tr.cached_base, ..cpu.tss },
        iopl: iopl as u8,
        flags,
        x87,
        ..cpu
    }
}

/// The instruction of the trace: none, if it is passed over.
fn check_instr(
    t: &InstrTrace,
    cpu: &State,
    instr: &Vec<u8>,
    triggered: Option<u8>,
) -> (r: Result<Option<State>, Deviation>)
    ensures
        r == if t.bytes@ != instr@ {
            if passed_over(t.bytes@, triggered) {
                Ok(None)
            } else if t.eip != cpu.ip {
                Err(Deviation::OtherAddress)
            } else {
                Err(Deviation::OtherInstruction)
            }
        } else if t.cr3 != cpu.cr3 {
            Err(Deviation::OtherPageDirectory)
        } else {
            Ok(Some(corrected(*cpu, *t, instr@)))
        },
{
    if !same_bytes(t.bytes.as_slice(), instr.as_slice()) {
        if t.bytes.len() == 1 && t.bytes[0] == 0x9B {
            assert(t.bytes@ =~= seq![0x9Bu8]);
            return Ok(None);
        }
        if t.bytes.len() == 2 && t.bytes[0] == 0xCD {
            match triggered {
                Some(v) => {
                    if t.bytes[1] == v {
                        return Ok(None);
                    }
                },
                None => {},
            }
        }
        assert(t.bytes@ == seq![0x9Bu8] ==> t.bytes@[0] == 0x9B);
        if t.eip != cpu.ip {
            return Err(Deviation::OtherAddress);
        }
        return Err(Deviation::OtherInstruction);
    }
    if t.cr3 != cpu.cr3 {
        return Err(Deviation::OtherPageDirectory);
    }
    Ok(Some(correct(*cpu, t, instr)))
}

/// The memory of the trace. Differences are corrected.
fn check_mem(m: &MemAssert, mem: &mut Memory) -> (r: Result<(), Deviation>)
    ensures
        ({
            let end = m.paddr + m.data@.len();
            if end > old(mem)@.len() {
                r == Err::<(), Deviation>(Deviation::Unreadable)
            } else {
                &&& r == Ok::<(), Deviation>(())
                &&& final(mem)@ == if m.data@ == old(mem)@.subrange(m.paddr as int, end)
                    || ignored_memory(m.paddr) {
                    old(mem)@
                } else {
                    overwrite(old(mem)@, m.paddr as int, m.data@)
                }
            }
        }),
{
    match mem.read_slice(m.paddr, m.data.len()) {
        Ok(actual) => {
            let ignored = m.paddr / 0x1000 == 0xfee00 || m.paddr / 0x1000 == 0xfec00 || m.paddr
                / 0x2_0000 == 0x6;
            if !same_bytes(m.data.as_slice(), actual.as_slice()) && !ignored {
                match mem.write_slice(m.paddr, m.data.as_slice()) {
                    Ok(_) => Ok(()),
                    Err(_) => Err(Deviation::Unreadable),
                }
            } else {
                Ok(())
            }
        },
        Err(_) => Err(Deviation::Unreadable),
    }
}

/// Checks an executed instruction against a trace, and corrects what differs.
///
/// `external` are the interrupts that come from outside, and `is_rep` says whether the instruction
/// repeats itself.
pub fn check_trace(
    trace: &mut TraceReader,
    state: &mut TraceState,
    cpu: &mut State,
    mem: &mut Memory,
    k: u64,
    instr: &Vec<u8>,
    is_rep: bool,
    external: &Vec<u8>,
) -> (r: TraceOutcome)
    requires
        old(trace).pos <= old(trace).entries.len(),
    ensures
        final(trace).entries == old(trace).entries,
        final(trace).pos <= final(trace).entries.len(),
        final(state).trace_limit == old(state).trace_limit,
        ({
            let start = Check {
                cpu: *old(cpu),
                mem: old(mem)@,
                pos: old(trace).pos as int,
                next_expected: old(state).next_expected_interrupt,
                checked: false,
            };
            let end = checked_from(
                old(trace).entries@,
                start,
                instr@,
                old(state).trace_triggered_interrupt,
                external@,
            );
            if old(state).trace_limit < k {
                &&& r == TraceOutcome::Disengaged
                &&& *final(state) == *old(state)
                &&& *final(cpu) == *old(cpu)
                &&& final(mem)@ == old(mem)@
                &&& final(trace).pos == old(trace).pos
            } else {
                match end {
                    Err(d) => r == TraceOutcome::Deviated(d),
                    Ok(c) => {
                        &&& r == outcome_of(c, external@)
                        &&& final(trace).pos == c.pos
                        &&& final(mem)@ == c.mem
                        &&& final(state).next_expected_interrupt == c.next_expected
                        &&& final(state).trace_triggered_interrupt == match r {
                            TraceOutcome::Disengaged => old(state).trace_triggered_interrupt,
                            TraceOutcome::Interrupt(v) => Some(v),
                            _ => None,
                        }
                        &&& *final(cpu) == if r is Interrupt && is_rep {
                            resuming(c.cpu)
                        } else {
                            c.cpu
                        }
                    },
                }
            }
        }),
{
    if state.trace_limit < k {
        return TraceOutcome::Disengaged;
    }
    let ghost entries = trace.entries@;
    let triggered = state.trace_triggered_interrupt;
    let ghost start = Check {
        cpu: *cpu,
        mem: mem@,
        pos: trace.pos as int,
        next_expected: state.next_expected_interrupt,
        checked: false,
    };
    let ghost whole = checked_from(entries, start, instr@, triggered, external@);
    let mut checked: bool = false;
    let ghost mut here = start;
    let mut going = true;
    while going
        invariant
            entries == trace.entries@,
            trace.entries == old(trace).entries,
            trace.pos <= trace.entries.len(),
            start == (Check {
                cpu: *old(cpu),
                mem: old(mem)@,
                pos: old(trace).pos as int,
                next_expected: old(state).next_expected_interrupt,
                checked: false,
            }),
            whole == checked_from(entries, start, instr@, triggered, external@),
            triggered == old(state).trace_triggered_interrupt,
            old(state).trace_limit >= k,
            state.trace_triggered_interrupt == triggered,
            state.trace_limit == old(state).trace_limit,
            here.cpu == *cpu,
            here.mem == mem@,
            here.pos == trace.pos,
            here.next_expected == state.next_expected_interrupt,
            here.checked == checked,
            going ==> checked_from(entries, here, instr@, triggered, external@) == whole,
            !going ==> whole == Ok::<Check, Deviation>(here),
        decreases
                trace.entries.len() - trace.pos + if going {
                    1int
                } else {
                    0int
                },
    {
        match trace.next(checked) {
            None => {
                going = false;
            },
            Some(i) => {
                let ghost before = here;
                match &trace.entries[i] {
                    TraceEntry::Instr(t) => match check_instr(t, cpu, instr, triggered) {
                        Ok(Some(next)) => {
                            *cpu = next;
                            checked = true;
                            proof {
                                here = Check {
                                    cpu: next,
                                    checked: true,
                                    pos: before.pos + 1,
                                    ..before
                                };
                            }
                        },
                        Ok(None) => {
                            proof {
                                here = Check { pos: before.pos + 1, ..before };
                            }
                        },
                        Err(d) => {
                            return TraceOutcome::Deviated(d);
                        },
                    },
                    TraceEntry::MemAssert(m) => match check_mem(m, mem) {
                        Ok(_) => {
                            proof {
                                here = Check { mem: mem@, pos: before.pos + 1, ..before };
                            }
                        },
                        Err(d) => {
                            return TraceOutcome::Deviated(d);
                        },
                    },
                    TraceEntry::Int(v) => {
                        state.next_expected_interrupt = Some(*v);
                        if holds(external, *v) {
                            checked = true;
                        }
                        proof {
                            here = Check {
                                next_expected: Some(*v),
                                checked,
                                pos: before.pos + 1,
                                ..before
                            };
                        }
                    },
                    TraceEntry::In(_) => {
                        return TraceOutcome::Deviated(Deviation::UnusedPortAccess);
                    },
                    TraceEntry::Out(_) => {
                        return TraceOutcome::Deviated(Deviation::UnusedPortAccess);
                    },
                }
            },
        }
    }
    if !checked {
        return TraceOutcome::Disengaged;
    }
    state.trace_triggered_interrupt = None;
    match state.next_expected_interrupt {
        Some(v) => {
            if holds(external, v) {
                state.trace_triggered_interrupt = Some(v);
                if is_rep {
                    let flags = Flags { rf: true, ..cpu.flags };
                    *cpu = State { flags, ..*cpu };
                }
                return TraceOutcome::Interrupt(v);
            }
        },
        None => {},
    }
    TraceOutcome::Continue
}

/// The interrupts that come from outside: those of the devices behind the two controllers, those
/// of the redirection entries, and some that the other execution is known to have.
pub open spec fn external_vectors(main: u8, secondary: u8, redirection: Seq<u8>) -> Seq<u8> {
    seq![
        main,
        (main + 1) as u8,
        (main + 4) as u8,
        (main + 6) as u8,
        (main + 7) as u8,
        secondary,
        (secondary + 1) as u8,
        (secondary + 3) as u8,
        (secondary + 4) as u8,
        (secondary + 6) as u8,
        (secondary + 7) as u8,
    ] + redirection + seq![0x3du8, 0x62u8, 0x41u8, 0xD1u8, 0x93u8, 0xA3u8, 0xB3u8, 0xC1u8]
}

/// Lists the interrupts that come from outside.
pub fn external_interrupts(offsets: (u8, u8), redirection: &Vec<u8>) -> (r: Vec<u8>)
    requires
        offsets.0 <= 0xf8,
        offsets.1 <= 0xf8,
    ensures
        r@ == external_vectors(offsets.0, offsets.1, redirection@),
{
    let (main, secondary) = offsets;
    let mut r: Vec<u8> = vec![
        main,
        main + 1,
        main + 4,
        main + 6,
        main + 7,
        secondary,
        secondary + 1,
        secondary + 3,
        secondary + 4,
        secondary + 6,
        secondary + 7,
    ];
    let ghost first = r@;
    let mut i: usize = 0;
    while i < redirection.len()
        invariant
            i <= redirection.len(),
            r@ == first + redirection@.take(i as int),
        decreases redirection.len() - i,
    {
        r.push(redirection[i]);
        assert(r@ =~= first + redirection@.take(i + 1));
        i += 1;
    }
    r.push(0x3d);
    r.push(0x62);
    r.push(0x41);
    r.push(0xD1);
    r.push(0x93);
    r.push(0xA3);
    r.push(0xB3);
    r.push(0xC1);
    assert(r@ =~= external_vectors(main, secondary, redirection@));
    r
}

/// A second check of the same instruction finds nothing more to correct.
pub proof fn corrected_state_agrees(cpu: State, t: InstrTrace, instr: Seq<u8>)
    ensures
        corrected(corrected(cpu, t, instr), t, instr) == corrected(cpu, t, instr),
{
    lemma_parts_agree(cpu, t);
    lemma_segments_agree(cpu.cs, t.cs);
    lemma_segments_agree(cpu.ds, t.ds);
    lemma_segments_agree(cpu.ss, t.ss);
    lemma_segments_agree(cpu.es, t.es);
    lemma_segments_agree(cpu.fs, t.fs);
    lemma_segments_agree(cpu.gs, t.gs);
    reveal(corrected);
}

proof fn lemma_segments_agree(s: Segment, t: SegmentTrace)
    ensures
        corrected_segment(corrected_segment(s, t), t) == corrected_segment(s, t),
{
    reveal(corrected_segment);
}

proof fn lemma_parts_agree(cpu: State, t: InstrTrace)
    ensures
        corrected_flags(corrected_flags(cpu.flags, t.eflags), t.eflags) == corrected_flags(
            cpu.flags,
            t.eflags,
        ),
        corrected_x87(corrected_x87(cpu.x87, t), t) == corrected_x87(cpu.x87, t),
{
    reveal(corrected_flags);
    reveal(corrected_x87);
    let e = cpu.x87.exception_flags;
    let f = t.fsw;
    assert(f & 1u16 <= 1) by (bit_vector);
    let s = (t.fsw & 1u16) as u64;
    assert((((e & !0xffu64) | s) & !0xffu64) | s == (e & !0xffu64) | s) by (bit_vector)
        requires
            s <= 0xff,
    ;
}

/// After an instruction that the trace has, the registers are those of the trace.
pub proof fn registers_follow_the_trace(
    t: InstrTrace,
    c: Check,
    triggered: Option<u8>,
    external: Seq<u8>,
)
    requires
        t.cr3 == c.cpu.cr3,
    ensures
        checked_entry(TraceEntry::Instr(t), c, t.bytes@, triggered, external) matches Ok(after)
            && after.checked && after.mem == c.mem && after.pos == c.pos + 1 && ({
            let cpu = after.cpu;
            &&& t.bytes.len() > 2 ==> cpu.ax == t.eax
            &&& cpu.bx == t.ebx && cpu.cx == t.ecx && cpu.dx == t.edx
            &&& cpu.si == t.esi && cpu.di == t.edi && cpu.sp == t.esp && cpu.bp == t.ebp
            &&& cpu.ip == t.eip
            &&& cpu.cs.selector == t.cs.value && cpu.cs.base == t.cs.cached_base
            &&& cpu.ds.selector == t.ds.value && cpu.ds.base == t.ds.cached_base
            &&& cpu.ss.selector == t.ss.value && cpu.ss.base == t.ss.cached_base
            &&& cpu.es.selector == t.es.value && cpu.es.base == t.es.cached_base
            &&& cpu.fs.selector == t.fs.value && cpu.fs.base == t.fs.cached_base
            &&& cpu.gs.selector == t.gs.value && cpu.gs.base == t.gs.cached_base
            &&& cpu.gdt == t.gdtr && cpu.idt == t.idtr
            &&& cpu.tr == t.tr.value
            &&& cpu.cr0 == c.cpu.cr0 && cpu.cr3 == t.cr3
            &&& cpu.flags.cf == c.cpu.flags.cf && cpu.flags.zf == c.cpu.flags.zf
        }),
{
    reveal(corrected);
    reveal(corrected_segment);
    reveal(corrected_flags);
}

/// After the trace told what memory holds, it holds that, but in the memory that is of no interest.
/// Everything around it is as it was.
pub proof fn memory_follows_the_trace(
    m: MemAssert,
    c: Check,
    instr: Seq<u8>,
    triggered: Option<u8>,
    external: Seq<u8>,
    i: int,
)
    requires
        m.paddr + m.data@.len() <= c.mem.len(),
        !ignored_memory(m.paddr),
        0 <= i < c.mem.len(),
    ensures
        checked_entry(TraceEntry::MemAssert(m), c, instr, triggered, external) matches Ok(after)
            && after.cpu == c.cpu && after.checked == c.checked && after.mem.len() == c.mem.len()
            && after.mem[i] == if m.paddr <= i < m.paddr + m.data@.len() {
            m.data@[i - m.paddr]
        } else {
            c.mem[i]
        },
{
    if m.data@ == c.mem.subrange(m.paddr as int, m.paddr + m.data@.len()) {
        if m.paddr <= i < m.paddr + m.data@.len() {
            assert(m.data@[i - m.paddr] == c.mem[i]);
        }
    }
}

} // verus!
