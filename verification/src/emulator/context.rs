//! The emulator as a whole: its settings, statistics and snapshots.
use itertools::Itertools;
use std::cmp::Reverse;
use vstd::prelude::*;

use crate::emulator::entry::entered;
use crate::emulator::exec::ExecutionContext;
use crate::emulator::handlers::{flushed, Mapping, Processor};
use crate::emulator::hooks::{
    CheckTrace, EnableProfiler, HookNeeds, MeasureSingleEncodingExecution, MemTrace, Printer, StopAt,
    TrackPath,
};
use crate::emulator::segments::{loaded, Core, Fault, PreparedSegment};
use crate::emulator::state::{SegReg, Segment, State, Table};
use crate::emulator::trace::TraceState;
use crate::hw::machine::SysEnterRegs;
use crate::mem::Memory;
use crate::system::{
    AccessRights, Db, Descriptor, Interrupt, SegmentSelector, SegmentSizes,
};

verus! {

/// The processor with its counters and what is expected of it.
#[derive(Debug)]
pub struct Emulator {
    pub processor: Processor,
    pub ctx: ExecutionContext,
    pub trace_state: TraceState,
    /// The numbers of instructions to print at, the lowest one last.
    pub print_at: Vec<u64>,
    /// How often each encoding was executed.
    pub execution_counts: Vec<u32>,
    /// How long each encoding has taken.
    pub execution_duration: Vec<u64>,
    pub generic_debugging_limit: u64,
    pub measure_single_encoding_execution: bool,
    pub profiling_enabled: bool,
    pub num_interrupts_entered: u64,
    pub skip_trace_differences_before: u64,
    pub interrupts_enabled: bool,
}

/// What decides how instructions are translated.
#[derive(Copy, Clone, Debug, PartialEq, Eq, Structural)]
pub struct ContextFlags {
    /// Whether memory is reached through descriptors.
    pub protected: bool,
    pub userspace: bool,
    pub segment_sizes: SegmentSizes,
}

/// The state of an emulator at one moment.
#[derive(Debug)]
pub struct EmulatorSnapshot {
    pub cpu: State,
    pub op_size: Db,
    pub sysenter: SysEnterRegs,
    pub next_expected_interrupt: Option<u8>,
    pub is_halted: bool,
    pub trace_triggered_interrupt: Option<u8>,
    pub memory: Vec<u8>,
    /// How far the trace was read, if there is one.
    pub trace: Option<usize>,
    pub k: u64,
}

/// The state of an emulator at one moment.
pub struct SnapshotModel {
    pub cpu: State,
    pub op_size: Db,
    pub sysenter: SysEnterRegs,
    pub next_expected_interrupt: Option<u8>,
    pub is_halted: bool,
    pub trace_triggered_interrupt: Option<u8>,
    pub memory: Seq<u8>,
    pub trace: Option<usize>,
    pub k: u64,
}

/// An emulator with the settings of its user.
#[derive(Debug)]
pub struct EmulatorContext {
    pub emulator: Emulator,
    pub verify_icache_consistency: bool,
    pub pagejit_enabled: bool,
    pub break_on_int_fe: bool,
    pub trace_mem_at: Option<u32>,
    pub trace_pmem_at: Option<u32>,
}

/// Which hooks watch the execution.
#[derive(Copy, Clone, Debug, PartialEq, Eq, Structural)]
pub struct HookPlan {
    pub stop_at: Option<u64>,
    pub sync_clock: bool,
    pub track_path: bool,
    pub check_trace: bool,
    pub printer: bool,
    pub profiler: bool,
    pub mem_trace: Option<u32>,
    pub pmem_trace: Option<u32>,
    pub measure: bool,
}

impl HookPlan {
    /// The needs of all hooks of the plan together. `printer` is the hook that prints, which
    /// counts where the plan has one, and `has_trace` tells whether a trace is followed still.
    pub fn needs(&self, has_trace: bool, printer: &Printer) -> (r: HookNeeds)
        ensures
            r.allow_multiple_instr_single_function == !(self.stop_at is Some || self.sync_clock
                || self.track_path || self.check_trace || self.printer || self.mem_trace is Some
                || self.pmem_trace is Some || self.measure),
            r.can_be_discarded == (self.check_trace && !has_trace),
            r.can_halt == !(self.check_trace && has_trace),
            r.can_accept_interrupts == !(self.check_trace && has_trace),
            r.can_return_blocks == (!self.check_trace && (self.printer ==> printer.skip_print)),
    {
        let mut r = HookNeeds::nothing();
        if let Some(n) = self.stop_at {
            r = r.and(StopAt::new(n).needs());
        }
        if self.sync_clock {
            r = r.and(HookNeeds::watcher());
        }
        if self.track_path {
            r = r.and(TrackPath.needs());
        }
        if self.check_trace {
            r = r.and(CheckTrace::new().needs(has_trace));
        }
        if self.printer {
            r = r.and(printer.needs());
        }
        if self.profiler {
            r = r.and(EnableProfiler.needs());
        }
        if let Some(addr) = self.mem_trace {
            r = r.and(MemTrace::new_lin(addr).needs());
        }
        if let Some(addr) = self.pmem_trace {
            r = r.and(MemTrace::new_phys(addr).needs());
        }
        if self.measure {
            r = r.and(MeasureSingleEncodingExecution::new().needs());
        }
        r
    }
}

/// What becomes of the trace when a saved state is restored.
#[derive(Copy, Clone, Debug, PartialEq, Eq, Structural)]
pub enum RestoredTrace {
    /// The saved state has no trace. Whatever trace is followed stays as it is.
    Untouched,
    /// The saved state lies behind the limit of the trace, which is not followed any more.
    Dropped,
    /// The trace that is followed goes on from here.
    GoesOn(usize),
}

impl EmulatorSnapshot {
    pub open spec fn view(&self) -> SnapshotModel {
        SnapshotModel {
            cpu: self.cpu,
            op_size: self.op_size,
            sysenter: self.sysenter,
            next_expected_interrupt: self.next_expected_interrupt,
            is_halted: self.is_halted,
            trace_triggered_interrupt: self.trace_triggered_interrupt,
            memory: self.memory@,
            trace: self.trace,
            k: self.k,
        }
    }
}

/// A segment of the processor after a reset, which keeps its selector.
pub open spec fn reset_segment(s: Segment) -> Segment {
    loaded(
        PreparedSegment {
            seg: SegReg::Cs,
            selector: SegmentSelector { value: s.selector },
            descriptor: Descriptor::real_mode(s.selector),
            protected_mode: false,
        },
    )
}

/// The processor after a reset: in real mode, with the segments that the selectors name.
#[verifier::opaque]
pub open spec fn reset_state(cpu: State) -> State {
    State {
        cr0: 0x6000_0010,
        gdt: Table { limit: 0xffff, ..cpu.gdt },
        idt: Table { limit: 0xffff, ..cpu.idt },
        dr6: 0xFFFF_0FF0,
        dr7: 0x0000_0400,
        cs: reset_segment(cpu.cs),
        ds: reset_segment(cpu.ds),
        ss: reset_segment(cpu.ss),
        es: reset_segment(cpu.es),
        fs: reset_segment(cpu.fs),
        gs: reset_segment(cpu.gs),
        ..cpu
    }
}

fn reset_one(s: Segment) -> (r: Segment)
    ensures
        r == reset_segment(s),
{
    let d = Descriptor::from_real_mode_selector(s.selector);
    Segment {
        selector: s.selector,
        base: d.base,
        limit: d.effective_limit_taking_direction_into_account(),
        ar: AccessRights::of(d, true),
    }
}

fn reset(cpu: State) -> (r: State)
    ensures
        r == reset_state(cpu),
{
    proof {
        reveal(reset_state);
    }
    State {
        cr0: 0x6000_0010,
        gdt: Table { limit: 0xffff, ..cpu.gdt },
        idt: Table { limit: 0xffff, ..cpu.idt },
        dr6: 0xFFFF_0FF0,
        dr7: 0x0000_0400,
        cs: reset_one(cpu.cs),
        ds: reset_one(cpu.ds),
        ss: reset_one(cpu.ss),
        es: reset_one(cpu.es),
        fs: reset_one(cpu.fs),
        gs: reset_one(cpu.gs),
        ..cpu
    }
}

/// The counts with their numbers: the greatest first, and in the order of the numbers where they are
/// equal.
pub open spec fn is_ranking(counts: Seq<u64>, ranking: Seq<(usize, u64)>) -> bool {
    &&& ranking.len() == counts.len()
    &&& forall|i: int|
        0 <= i < ranking.len() ==> (#[trigger] ranking[i]).0 < counts.len() && ranking[i].1
            == counts[ranking[i].0 as int]
    &&& forall|i: int, j: int|
        #![trigger ranking[i], ranking[j]]
        0 <= i < j < ranking.len() ==> ranking[i].1 > ranking[j].1 || (ranking[i].1
            == ranking[j].1 && ranking[i].0 < ranking[j].0)
}

/// The places of the items of `sorted` in `list`: each once, ordered by their second part, the
/// greatest first, and in their old order where these are equal.
pub open spec fn is_descending_sorting(
    list: Seq<(usize, u64)>,
    sorted: Seq<(usize, u64)>,
    places: Seq<int>,
) -> bool {
    &&& sorted.len() == list.len()
    &&& places.len() == list.len()
    &&& places.no_duplicates()
    &&& forall|i: int|
        #![trigger places[i]]
        0 <= i < places.len() ==> 0 <= places[i] < list.len() && sorted[i] == list[places[i]]
    &&& forall|i: int, j: int|
        #![trigger places[i], places[j]]
        0 <= i < j < places.len() ==> sorted[i].1 > sorted[j].1 || (sorted[i].1 == sorted[j].1
            && places[i] < places[j])
}

/// Calls `itertools::Itertools::sorted_by_key` with the second part in reverse order as the key. The
/// greatest items come first, and the sort is stable.
#[verifier::external_body]
fn sorted_by_count(items: Vec<(usize, u64)>) -> (r: Vec<(usize, u64)>)
    ensures
        exists|places: Seq<int>| is_descending_sorting(items@, r@, places),
{
    items.into_iter().sorted_by_key(|c| Reverse(c.1)).collect()
}

/// The counts with their numbers, the greatest first.
fn ranked(counts: &Vec<u64>) -> (r: Vec<(usize, u64)>)
    ensures
        is_ranking(counts@, r@),
{
    let mut items: Vec<(usize, u64)> = Vec::new();
    let mut i: usize = 0;
    while i < counts.len()
        invariant
            i <= counts.len(),
            items.len() == i,
            forall|k: int| 0 <= k < i ==> #[trigger] items[k] == (k as usize, counts[k]),
        decreases counts.len() - i,
    {
        items.push((i, counts[i]));
        i += 1;
    }
    let ghost list = items@;
    let r = sorted_by_count(items);
    proof {
        let places = choose|places: Seq<int>| is_descending_sorting(list, r@, places);
        assert forall|i: int| 0 <= i < r@.len() implies (#[trigger] r@[i]).0 < counts@.len()
            && r@[i].1 == counts@[r@[i].0 as int] && r@[i].0 == places[i] by {
            assert(r@[i] == list[places[i]]);
        }
        assert forall|i: int, j: int|
            #![trigger r@[i], r@[j]]
            0 <= i < j < r@.len() implies r@[i].1 > r@[j].1 || (r@[i].1 == r@[j].1 && r@[i].0
            < r@[j].0) by {
            assert(r@[i] == list[places[i]] && r@[j] == list[places[j]]);
        }
    }
    r
}

/// Whether numbers stand in descending order.
pub open spec fn descending(s: Seq<u64>) -> bool {
    forall|i: int, j: int| 0 <= i < j < s.len() ==> s[i] >= s[j]
}

fn no_executions(num_encodings: usize) -> (r: (Vec<u32>, Vec<u64>))
    ensures
        r.0@ == Seq::new(num_encodings as nat, |i: int| 0u32),
        r.1@ == Seq::new(num_encodings as nat, |i: int| 0u64),
{
    let mut execution_counts: Vec<u32> = Vec::new();
    let mut execution_duration: Vec<u64> = Vec::new();
    let mut i: usize = 0;
    while i < num_encodings
        invariant
            i <= num_encodings,
            execution_counts@ == Seq::new(i as nat, |i: int| 0u32),
            execution_duration@ == Seq::new(i as nat, |i: int| 0u64),
        decreases num_encodings - i,
    {
        execution_counts.push(0);
        execution_duration.push(0);
        i += 1;
        assert(execution_counts@ =~= Seq::new(i as nat, |i: int| 0u32));
        assert(execution_duration@ =~= Seq::new(i as nat, |i: int| 0u64));
    }
    (execution_counts, execution_duration)
}

impl Emulator {
    pub fn cpu(&self) -> (r: &State)
        ensures
            *r == self.processor.core.cpu,
    {
        &self.processor.core.cpu
    }

    /// The emulator at its start: in real mode, with nothing executed.
    pub open spec fn is_new(&self, cpu: State, num_encodings: usize) -> bool {
        &&& self.processor.core.cpu == reset_state(cpu)
        &&& self.processor.core.op_size == Db::Protected16
        &&& self.processor.core.segment_sizes == SegmentSizes::Cs16Ss16
        &&& !self.processor.core.protected_mode
        &&& self.processor.mapping == (Mapping {
            paging: false,
            system_write_protect: false,
            page_directory_base: 0,
            page_size_extension: false,
            physical_address_extension: false,
        })
        &&& !self.processor.paging_enabled && !self.processor.is_halted
        &&& self.processor.sysenter == (SysEnterRegs { cs: 0, sp: 0, ip: 0 })
        &&& self.processor.num_cr3_changes == 0 && self.processor.num_cr3_reloads == 0
        &&& self.ctx == (ExecutionContext {
            k: 0,
            jit_k: 0,
            num_port_outs: 0,
            num_port_ins: 0,
            num_descriptors_read: 0,
        })
        &&& self.trace_state == (TraceState {
            next_expected_interrupt: None,
            trace_triggered_interrupt: None,
            trace_limit: 0,
        })
        &&& self.print_at@ == Seq::<u64>::empty()
        &&& self.execution_counts@ == Seq::new(num_encodings as nat, |i: int| 0u32)
        &&& self.execution_duration@ == Seq::new(num_encodings as nat, |i: int| 0u64)
        &&& self.generic_debugging_limit == u64::MAX
        &&& !self.measure_single_encoding_execution && !self.profiling_enabled
        &&& self.num_interrupts_entered == 0 && self.skip_trace_differences_before == 0
        &&& self.interrupts_enabled
    }

    /// A processor in real mode that has executed nothing.
    pub fn new(cpu: State, num_encodings: usize) -> (r: Self)
        ensures
            r.is_new(cpu, num_encodings),
    {
        let (execution_counts, execution_duration) = no_executions(num_encodings);
        let core = Core {
            cpu: reset(cpu),
            op_size: Db::Protected16,
            segment_sizes: SegmentSizes::Cs16Ss16,
            protected_mode: false,
        };
        let mapping = Mapping {
            paging: false,
            system_write_protect: false,
            page_directory_base: 0,
            page_size_extension: false,
            physical_address_extension: false,
        };
        let processor = Processor {
            core,
            mapping,
            paging_enabled: false,
            is_halted: false,
            sysenter: SysEnterRegs { cs: 0, sp: 0, ip: 0 },
            num_cr3_changes: 0,
            num_cr3_reloads: 0,
        };
        let print_at: Vec<u64> = Vec::new();
        assert(print_at@ =~= Seq::empty());
        Emulator {
            processor,
            ctx: ExecutionContext::new(),
            trace_state: TraceState {
                next_expected_interrupt: None,
                trace_triggered_interrupt: None,
                trace_limit: 0,
            },
            print_at,
            execution_counts,
            execution_duration,
            generic_debugging_limit: u64::MAX,
            measure_single_encoding_execution: false,
            profiling_enabled: false,
            num_interrupts_entered: 0,
            skip_trace_differences_before: 0,
            interrupts_enabled: true,
        }
    }

    /// Enters an interrupt. Where a trace is followed, the interrupt is not expected any more.
    pub fn enter_interrupt(&mut self, mem: &mut Memory, interrupt: Interrupt, has_trace: bool) -> (r:
        Result<(), Fault>)
        requires
            old(self).num_interrupts_entered < u64::MAX,
        ensures
            entered(old(self).processor.core, old(mem)@, interrupt).is(
                final(self).processor.core,
                final(mem)@,
                r,
            ),
            *final(self) == (Emulator {
                processor: Processor {
                    core: final(self).processor.core,
                    ..old(self).processor
                },
                trace_state: TraceState {
                    next_expected_interrupt: if has_trace && r is Ok && old(
                        self,
                    ).trace_state.next_expected_interrupt == Some(interrupt.number()) {
                        None
                    } else {
                        old(self).trace_state.next_expected_interrupt
                    },
                    ..old(self).trace_state
                },
                num_interrupts_entered: (old(self).num_interrupts_entered + 1) as u64,
                ..*old(self)
            }),
    {
        self.num_interrupts_entered = self.num_interrupts_entered + 1;
        let mut core = self.processor.core;
        let r = core.enter_interrupt(mem, interrupt);
        self.processor = Processor { core, ..self.processor };
        if has_trace && r.is_ok() {
            match self.trace_state.next_expected_interrupt {
                Some(n) => {
                    if n == interrupt.vector() {
                        self.trace_state = TraceState {
                            next_expected_interrupt: None,
                            ..self.trace_state
                        };
                    }
                },
                None => {},
            }
        }
        r
    }

    /// What decides how the next instructions are translated.
    pub fn build_context_flags(&self) -> (r: ContextFlags)
        ensures
            r == (ContextFlags {
                protected: self.processor.core.protected_mode
                    && !self.processor.core.cpu.flags.vm,
                userspace: self.processor.core.cpu.userspace(),
                segment_sizes: self.processor.core.segment_sizes,
            }),
    {
        let core = &self.processor.core;
        ContextFlags {
            protected: core.protected_mode && !core.cpu.flags.vm,
            userspace: core.cpu.is_userspace(),
            segment_sizes: core.segment_sizes,
        }
    }

    /// The encodings by how long they have taken, the longest first.
    pub fn encodings_most_time_taken(&self) -> (r: Vec<(usize, u64)>)
        ensures
            is_ranking(self.execution_duration@, r@),
    {
        ranked(&self.execution_duration)
    }

    /// The encodings by how often they were executed, the most frequent first.
    pub fn most_executed_encodings(&self) -> (r: Vec<(usize, u32)>)
        ensures
            is_ranking(
                self.execution_counts@.map_values(|n: u32| n as u64),
                r@.map_values(|p: (usize, u32)| (p.0, p.1 as u64)),
            ),
    {
        let mut counts: Vec<u64> = Vec::new();
        let mut i: usize = 0;
        while i < self.execution_counts.len()
            invariant
                i <= self.execution_counts.len(),
                counts.len() == i,
                forall|k: int| 0 <= k < i ==> #[trigger] counts[k] == self.execution_counts[k] as u64,
            decreases self.execution_counts.len() - i,
        {
            counts.push(self.execution_counts[i] as u64);
            i += 1;
        }
        assert(counts@ =~= self.execution_counts@.map_values(|n: u32| n as u64));
        let ranked = ranked(&counts);
        let mut r: Vec<(usize, u32)> = Vec::new();
        let mut j: usize = 0;
        while j < ranked.len()
            invariant
                j <= ranked.len(),
                r.len() == j,
                is_ranking(counts@, ranked@),
                counts.len() == self.execution_counts.len(),
                forall|k: int|
                    0 <= k < counts.len() ==> #[trigger] counts[k] == self.execution_counts[k] as u64,
                forall|k: int|
                    0 <= k < j ==> (#[trigger] r[k]).0 == ranked[k].0 && r[k].1 == ranked[k].1,
            decreases ranked.len() - j,
        {
            let item = ranked[j];
            assert(ranked[j as int].0 < counts.len());
            assert(counts[item.0 as int] == self.execution_counts[item.0 as int] as u64);
            r.push((item.0, item.1 as u32));
            j += 1;
        }
        assert(r@.map_values(|p: (usize, u32)| (p.0, p.1 as u64)) =~= ranked@);
        r
    }

    pub open spec fn snapshot_of(&self, memory: Seq<u8>, trace: Option<usize>) -> SnapshotModel {
        SnapshotModel {
            cpu: self.processor.core.cpu,
            op_size: self.processor.core.op_size,
            sysenter: self.processor.sysenter,
            next_expected_interrupt: self.trace_state.next_expected_interrupt,
            is_halted: self.processor.is_halted,
            trace_triggered_interrupt: self.trace_state.trace_triggered_interrupt,
            memory,
            trace,
            k: self.ctx.k,
        }
    }

    /// Saves the state.
    pub fn snapshot(&self, mem: &Memory, trace: Option<usize>) -> (r: EmulatorSnapshot)
        ensures
            r@ == self.snapshot_of(mem@, trace),
    {
        let memory: Vec<u8> = match mem.read_slice(0, mem.len()) {
            Ok(bytes) => bytes,
            Err(_) => Vec::new(),
        };
        assert(memory@ =~= mem@);
        EmulatorSnapshot {
            cpu: self.processor.core.cpu,
            op_size: self.processor.core.op_size,
            sysenter: self.processor.sysenter,
            next_expected_interrupt: self.trace_state.next_expected_interrupt,
            is_halted: self.processor.is_halted,
            trace_triggered_interrupt: self.trace_state.trace_triggered_interrupt,
            memory,
            trace,
            k: self.ctx.k,
        }
    }

    /// The processor with the state of a snapshot, before anything is derived from it.
    pub open spec fn loaded_processor(p: Processor, s: SnapshotModel) -> Processor {
        Processor {
            core: Core { cpu: s.cpu, op_size: s.op_size, ..p.core },
            is_halted: s.is_halted,
            sysenter: s.sysenter,
            ..p
        }
    }

    /// Goes back to a saved state. Says what becomes of the trace.
    pub fn restore(&mut self, mem: &mut Memory, snapshot: EmulatorSnapshot) -> (r: RestoredTrace)
        requires
            old(self).processor.countable(),
        ensures
            final(mem)@ == snapshot@.memory,
            r == match snapshot@.trace {
                None => RestoredTrace::Untouched,
                Some(at) => if snapshot@.k > old(self).trace_state.trace_limit {
                    RestoredTrace::Dropped
                } else {
                    RestoredTrace::GoesOn(at)
                },
            },
            *final(self) == (Emulator {
                processor: flushed(Self::loaded_processor(old(self).processor, snapshot@)),
                ctx: ExecutionContext { k: snapshot@.k, ..old(self).ctx },
                trace_state: TraceState {
                    next_expected_interrupt: snapshot@.next_expected_interrupt,
                    trace_triggered_interrupt: snapshot@.trace_triggered_interrupt,
                    ..old(self).trace_state
                },
                ..*old(self)
            }),
    {
        let p = self.processor;
        let mut processor = Processor {
            core: Core { cpu: snapshot.cpu, op_size: snapshot.op_size, ..p.core },
            is_halted: snapshot.is_halted,
            sysenter: snapshot.sysenter,
            ..p
        };
        processor.flush_cached_cpu_state();
        self.processor = processor;
        self.ctx = ExecutionContext { k: snapshot.k, ..self.ctx };
        self.trace_state = TraceState {
            next_expected_interrupt: snapshot.next_expected_interrupt,
            trace_triggered_interrupt: snapshot.trace_triggered_interrupt,
            ..self.trace_state
        };
        let k: u64 = snapshot.k;
        let trace = snapshot.trace;
        *mem = Memory::from_bytes(snapshot.memory);
        match trace {
            None => RestoredTrace::Untouched,
            Some(at) => {
                if k > self.trace_state.trace_limit {
                    RestoredTrace::Dropped
                } else {
                    RestoredTrace::GoesOn(at)
                }
            },
        }
    }
}

/// A snapshot of a restored state is the snapshot that was restored.
pub proof fn restored_state_is_the_saved_one(e: Emulator, s: SnapshotModel)
    ensures
        ({
            let p = flushed(Emulator::loaded_processor(e.processor, s));
            &&& p.core.cpu == s.cpu
            &&& p.core.op_size == s.op_size
            &&& p.sysenter == s.sysenter
            &&& p.is_halted == s.is_halted
        }),
{
    let q = Emulator::loaded_processor(e.processor, s);
    let p = flushed(q);
    let c = s.cpu;
    assert(p.core.cpu == (State { cr0: c.cr0, cr3: c.cr3, cr4: c.cr4, ..c }));
}

impl EmulatorContext {
    pub fn new(cpu: State, num_encodings: usize) -> (r: Self)
        ensures
            r.emulator.is_new(cpu, num_encodings),
            r.pagejit_enabled,
            !r.verify_icache_consistency && !r.break_on_int_fe,
            r.trace_mem_at is None && r.trace_pmem_at is None,
    {
        EmulatorContext {
            emulator: Emulator::new(cpu, num_encodings),
            verify_icache_consistency: false,
            pagejit_enabled: true,
            break_on_int_fe: false,
            trace_mem_at: None,
            trace_pmem_at: None,
        }
    }

    /// Takes other encodings. Nothing was measured of them yet.
    pub fn set_semantics(&mut self, num_encodings: usize)
        ensures
            final(self).emulator.execution_counts@ == Seq::new(num_encodings as nat, |i: int| 0u32),
            final(self).emulator.execution_duration@ == Seq::new(
                num_encodings as nat,
                |i: int| 0u64,
            ),
            *final(self) == (EmulatorContext {
                emulator: Emulator {
                    execution_counts: final(self).emulator.execution_counts,
                    execution_duration: final(self).emulator.execution_duration,
                    ..old(self).emulator
                },
                ..*old(self)
            }),
    {
        let (counts, durations) = no_executions(num_encodings);
        self.emulator.execution_counts = counts;
        self.emulator.execution_duration = durations;
    }

    /// The number of instructions that were executed.
    pub fn k(&self) -> (r: u64)
        ensures
            r == self.emulator.ctx.k,
    {
        self.emulator.ctx.k
    }

    pub fn reset_k(&mut self)
        ensures
            *final(self) == (EmulatorContext {
                emulator: Emulator {
                    ctx: ExecutionContext { k: 0, jit_k: 0, ..old(self).emulator.ctx },
                    ..old(self).emulator
                },
                ..*old(self)
            }),
    {
        self.emulator.ctx.k = 0;
        self.emulator.ctx.jit_k = 0;
    }

    pub fn disable_interrupts(&mut self)
        ensures
            *final(self) == (EmulatorContext {
                emulator: Emulator { interrupts_enabled: false, ..old(self).emulator },
                ..*old(self)
            }),
    {
        self.emulator.interrupts_enabled = false;
    }

    pub fn set_measure_single_encoding_execution(&mut self, measure: bool)
        ensures
            *final(self) == (EmulatorContext {
                emulator: Emulator {
                    measure_single_encoding_execution: measure,
                    ..old(self).emulator
                },
                ..*old(self)
            }),
    {
        self.emulator.measure_single_encoding_execution = measure;
    }

    pub fn set_generic_debugging_limit(&mut self, num: u64)
        ensures
            *final(self) == (EmulatorContext {
                emulator: Emulator { generic_debugging_limit: num, ..old(self).emulator },
                ..*old(self)
            }),
    {
        self.emulator.generic_debugging_limit = num;
    }

    pub fn set_profiling(&mut self, enabled: bool)
        ensures
            *final(self) == (EmulatorContext {
                emulator: Emulator { profiling_enabled: enabled, ..old(self).emulator },
                ..*old(self)
            }),
    {
        self.emulator.profiling_enabled = enabled;
    }

    /// Sets the number of the last instruction that is checked against a trace.
    pub fn set_trace_limit(&mut self, limit: u64)
        ensures
            *final(self) == (EmulatorContext {
                emulator: Emulator {
                    trace_state: TraceState { trace_limit: limit, ..old(self).emulator.trace_state },
                    ..old(self).emulator
                },
                ..*old(self)
            }),
    {
        self.emulator.trace_state.trace_limit = limit;
    }

    /// Sets the numbers of instructions to print at. They are kept with the lowest one last.
    pub fn set_print_at(&mut self, print_at: Vec<u64>)
        ensures
            descending(final(self).emulator.print_at@),
            final(self).emulator.print_at@.to_multiset() == print_at@.to_multiset(),
            *final(self) == (EmulatorContext {
                emulator: Emulator {
                    print_at: final(self).emulator.print_at,
                    ..old(self).emulator
                },
                ..*old(self)
            }),
    {
        let sorted = sort_descending(&print_at);
        self.emulator.print_at = sorted;
    }

    pub fn set_verify_icache_consistency(&mut self, enable: bool)
        ensures
            *final(self) == (EmulatorContext { verify_icache_consistency: enable, ..*old(self) }),
    {
        self.verify_icache_consistency = enable;
    }

    pub fn set_pagejit_enabled(&mut self, enable: bool)
        ensures
            *final(self) == (EmulatorContext { pagejit_enabled: enable, ..*old(self) }),
    {
        self.pagejit_enabled = enable;
    }

    pub fn set_break_on_int_fe(&mut self, enable: bool)
        ensures
            *final(self) == (EmulatorContext { break_on_int_fe: enable, ..*old(self) }),
    {
        self.break_on_int_fe = enable;
    }

    pub fn set_skip_trace_differences_before(&mut self, n: u64)
        ensures
            *final(self) == (EmulatorContext {
                emulator: Emulator { skip_trace_differences_before: n, ..old(self).emulator },
                ..*old(self)
            }),
    {
        self.emulator.skip_trace_differences_before = n;
    }

    pub fn set_trace_mem_at(&mut self, addr: u32)
        ensures
            *final(self) == (EmulatorContext { trace_mem_at: Some(addr), ..*old(self) }),
    {
        self.trace_mem_at = Some(addr);
    }

    pub fn set_trace_pmem_at(&mut self, addr: u32)
        ensures
            *final(self) == (EmulatorContext { trace_pmem_at: Some(addr), ..*old(self) }),
    {
        self.trace_pmem_at = Some(addr);
    }

    /// Whether a trace is still of interest.
    pub fn keeps_trace(&self) -> (r: bool)
        ensures
            r == (self.emulator.ctx.k <= self.emulator.trace_state.trace_limit),
    {
        self.emulator.ctx.k <= self.emulator.trace_state.trace_limit
    }

    /// Which hooks watch the next round of execution.
    pub fn plan_hooks(&self, num: Option<u64>, has_trace: bool, has_clock: bool) -> (r: HookPlan)
        ensures
            r == (HookPlan {
                stop_at: num,
                sync_clock: has_clock,
                track_path: has_trace || self.emulator.print_at@.len() > 0,
                check_trace: has_trace,
                printer: self.emulator.print_at@.len() > 0,
                profiler: self.emulator.profiling_enabled,
                mem_trace: self.trace_mem_at,
                pmem_trace: self.trace_pmem_at,
                measure: self.emulator.measure_single_encoding_execution,
            }),
    {
        let prints = self.emulator.print_at.len() > 0;
        HookPlan {
            stop_at: num,
            sync_clock: has_clock,
            track_path: has_trace || prints,
            check_trace: has_trace,
            printer: prints,
            profiler: self.emulator.profiling_enabled,
            mem_trace: self.trace_mem_at,
            pmem_trace: self.trace_pmem_at,
            measure: self.emulator.measure_single_encoding_execution,
        }
    }
}

/// The numbers in descending order.
fn sort_descending(list: &Vec<u64>) -> (r: Vec<u64>)
    ensures
        descending(r@),
        r@.to_multiset() == list@.to_multiset(),
{
    let mut r: Vec<u64> = Vec::new();
    let mut i: usize = 0;
    assert(list@.take(0) =~= Seq::empty());
    assert(r@ =~= Seq::empty());
    while i < list.len()
        invariant
            i <= list.len(),
            descending(r@),
            r@.to_multiset() == list@.take(i as int).to_multiset(),
        decreases list.len() - i,
    {
        let v: u64 = list[i];
        let mut at: usize = 0;
        while at < r.len() && r[at] >= v
            invariant
                at <= r.len(),
                forall|k: int| 0 <= k < at ==> r@[k] >= v,
            decreases r.len() - at,
        {
            at += 1;
        }
        let ghost before = r@;
        r.insert(at, v);
        proof {
            assert(r@ =~= before.insert(at as int, v));
            before.insert_ensures(at as int, v);
            vstd::seq_lib::to_multiset_insert(before, at as int, v);
            assert(list@.take(i + 1) =~= list@.take(i as int).push(v));
            list@.take(i as int).to_multiset_ensures();
            assert forall|a: int, b: int| 0 <= a < b < r@.len() implies r@[a] >= r@[b] by {
                if a < at && b > at {
                    assert(before[a] >= v);
                    assert(before[a] >= before[b - 1]);
                } else if a >= at && b > at && a > at {
                    assert(before[a - 1] >= before[b - 1]);
                } else if a == at {
                    assert(before[at as int] < v);
                    if b - 1 > at {
                        assert(before[at as int] >= before[b - 1]);
                    }
                }
            }
        }
        i += 1;
    }
    assert(list@.take(i as int) =~= list@);
    r
}

/// A reset leaves the processor in real mode without paging and keeps the selectors, which name
/// paragraphs again. The general registers and the place in the code stay.
pub proof fn resets_lead_to_real_mode(cpu: State)
    ensures
        ({
            let after = reset_state(cpu);
            &&& after.cr0 % 2 == 0 && after.cr0 < 0x8000_0000
            &&& after.cs.selector == cpu.cs.selector && after.cs.base == cpu.cs.selector * 16
            &&& after.ds.selector == cpu.ds.selector && after.ds.base == cpu.ds.selector * 16
            &&& after.ss.selector == cpu.ss.selector && after.ss.base == cpu.ss.selector * 16
            &&& after.es.selector == cpu.es.selector && after.es.base == cpu.es.selector * 16
            &&& after.fs.selector == cpu.fs.selector && after.fs.base == cpu.fs.selector * 16
            &&& after.gs.selector == cpu.gs.selector && after.gs.base == cpu.gs.selector * 16
            &&& after.gdt.limit == 0xffff && after.gdt.base == cpu.gdt.base
            &&& after.idt.limit == 0xffff && after.idt.base == cpu.idt.base
            &&& after.ax == cpu.ax && after.bx == cpu.bx && after.cx == cpu.cx && after.dx == cpu.dx
            &&& after.si == cpu.si && after.di == cpu.di && after.sp == cpu.sp && after.bp == cpu.bp
            &&& after.ip == cpu.ip && after.flags == cpu.flags
            &&& after.cr3 == cpu.cr3 && after.cr4 == cpu.cr4
        }),
{
    reveal(reset_state);
}

} // verus!
