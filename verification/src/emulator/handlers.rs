//! Instructions that leave translated code for the emulator.
use vstd::prelude::*;

use crate::emulator::exec::{redirected, ExecutionContext};
use crate::emulator::iret::{committed_all, low16, returned, returned_to, vm_segment};
use crate::emulator::segments::{
    committed, descriptor_of, marked, resized, segment_of, Core, Fatal, Fault, PreparedSegment,
};
use crate::emulator::stack::{address_mask, StackTransaction};
use crate::emulator::state::{
    compute_effective_cpl, effective_cpl, unpacked_flags, Flags, SegReg, State,
};
use crate::emulator::trace::resuming;
use crate::hw::machine::{msr_regs, Hw, SysEnterRegs};
use crate::mem::Memory;
use crate::system::{Cr0, Cr4, Db, Exception, Interrupt, SegmentSelector};

verus! {

/// The handlers that instructions invoke.
#[derive(Copy, Clone, Debug, PartialEq, Eq, Structural)]
pub enum HandlerId {
    Int,
    Iret,
    Halt,
    WriteCr,
    IfUpdated,
    SsUpdated,
    CsUpdated,
    Cpuid,
    Rdmsr,
    Wrmsr,
    InvalidatePage,
}

/// How addresses are translated.
#[derive(Copy, Clone, Debug, PartialEq, Eq, Structural)]
pub struct Mapping {
    pub paging: bool,
    pub system_write_protect: bool,
    pub page_directory_base: u32,
    pub page_size_extension: bool,
    pub physical_address_extension: bool,
}

/// The processor with what depends on its control registers.
#[derive(Copy, Clone, Debug)]
pub struct Processor {
    pub core: Core,
    pub mapping: Mapping,
    pub paging_enabled: bool,
    pub is_halted: bool,
    pub sysenter: SysEnterRegs,
    pub num_cr3_changes: u64,
    pub num_cr3_reloads: u64,
}

/// What a handler leaves to be done.
#[derive(Copy, Clone, Debug, PartialEq, Eq, Structural)]
pub enum Effect {
    Nothing,
    /// All translations of addresses are void.
    AllMappingsUpdated,
    /// The translation of one page is void.
    PageInvalidated(u32),
    /// The local APIC no longer answers at a page.
    ApicUnmapped(u64),
}

/// Why the current instruction stream ends.
#[derive(Copy, Clone, Debug, PartialEq, Eq, Structural)]
pub enum Stop {
    Interrupt(Interrupt),
    Fatal(Fatal),
}

/// What a handler leaves behind.
pub struct Handled {
    pub processor: Processor,
    pub mem: Seq<u8>,
    pub result: Result<Effect, Stop>,
}

impl Handled {
    /// Whether a handler came out like this. Nothing is said of what it leaves behind if it ends in
    /// a way that cannot be reported.
    pub open spec fn is(self, p: Processor, mem: Seq<u8>, result: Result<Effect, Stop>) -> bool {
        &&& result == self.result
        &&& !(result matches Err(Stop::Fatal(_))) ==> p == self.processor && mem == self.mem
    }
}

pub open spec fn stop_of(fault: Fault) -> Stop {
    match fault {
        Fault::Exception(e) => Stop::Interrupt(Interrupt::Exception(e)),
        Fault::Fatal(f) => Stop::Fatal(f),
    }
}

/// The processor after a write of the first control register.
pub open spec fn with_cr0(p: Processor, cr0: Cr0) -> Processor {
    Processor {
        core: Core {
            cpu: State { cr0: cr0.value, ..p.core.cpu },
            protected_mode: cr0.pe(),
            ..p.core
        },
        mapping: Mapping { paging: cr0.pg(), system_write_protect: cr0.wp(), ..p.mapping },
        paging_enabled: cr0.pg(),
        ..p
    }
}

/// The processor after a write of the register that points to the page tables.
pub open spec fn with_cr3(p: Processor, value: u32) -> Processor {
    let same = p.core.cpu.cr3 == value;
    Processor {
        core: Core { cpu: State { cr3: value, ..p.core.cpu }, ..p.core },
        mapping: Mapping { page_directory_base: value, ..p.mapping },
        num_cr3_changes: if same {
            p.num_cr3_changes
        } else {
            (p.num_cr3_changes + 1) as u64
        },
        num_cr3_reloads: if same {
            (p.num_cr3_reloads + 1) as u64
        } else {
            p.num_cr3_reloads
        },
        ..p
    }
}

/// The processor after a write of the register that switches extensions on.
pub open spec fn with_cr4(p: Processor, cr4: Cr4) -> Processor {
    Processor {
        core: Core { cpu: State { cr4: cr4.value, ..p.core.cpu }, ..p.core },
        mapping: Mapping {
            page_size_extension: cr4.pse(),
            physical_address_extension: cr4.pae(),
            ..p.mapping
        },
        ..p
    }
}

/// The processor after its code segment was loaded by an instruction.
pub open spec fn with_new_cs(core: Core) -> Core {
    let level = if core.cpu.flags.vm {
        3u8
    } else if core.protected_mode {
        (SegmentSelector { value: core.cpu.cs.selector }).level()
    } else {
        0u8
    };
    let op_size = if !core.cpu.flags.vm && core.protected_mode {
        core.cpu.cs.ar.db()
    } else {
        Db::Protected16
    };
    resized(Core { cpu: State { cpl: effective_cpl(level), ..core.cpu }, op_size, ..core })
}

/// What `CPUID` gives, where it is known: the vendor, the features, the address sizes, and a leaf
/// that some guests ask for.
pub open spec fn cpuid(eax: u32, ecx: u32) -> Option<(u32, u32, u32, u32)> {
    if eax == 0 {
        Some((1, 0x756E_6547, 0x6C65_746E, 0x4965_6E69))
    } else if eax == 1 || eax == 0x8000_0000 {
        Some((0x634, 0, 0, 0x0002_C1FD))
    } else if eax == 0x8000_0008 {
        Some((0x3028, 0x200, 0, 0))
    } else if eax == 0xC27C_6DF0 && ecx == 0x2FF {
        Some((0x40, 0x40, 0x3, 0x20))
    } else {
        None
    }
}

pub open spec fn with_cpuid(cpu: State, eax: u32, ecx: u32) -> State {
    match cpuid(eax, ecx) {
        Some((ax, bx, cx, dx)) => State { ax, bx, cx, dx, ..cpu },
        None => cpu,
    }
}

/// The value that `WRMSR` writes.
pub open spec fn msr_operand(cpu: State) -> u64 {
    (cpu.dx * 0x1_0000_0000 + cpu.ax) as u64
}

/// An `INT` instruction. In virtual 8086 mode it may be forbidden.
pub open spec fn int_stop(core: Core, mem: Seq<u8>, n: u8, increment: u8) -> Stop {
    let go = Stop::Interrupt(Interrupt::SoftwareInterrupt { vector: n, pc_increment: increment });
    let refused = Stop::Interrupt(
        Interrupt::Exception(Exception::GeneralProtectionFault((n * 8 + 2) as u16)),
    );
    if !(core.protected_mode && core.cpu.flags.vm) {
        go
    } else if (Cr4 { value: core.cpu.cr4 }).vme() {
        match redirected(core.cpu, mem, n) {
            Err(e) => Stop::Fatal(e),
            Ok(true) => Stop::Fatal(Fatal::Unsupported),
            Ok(false) => if core.cpu.iopl < 3 {
                refused
            } else {
                go
            },
        }
    } else if core.cpu.iopl < 3 {
        refused
    } else {
        go
    }
}

/// The arguments that handlers are invoked with.
pub open spec fn args_ok(id: HandlerId, args: Seq<u32>) -> bool {
    match id {
        HandlerId::Int => args.len() >= 2 && args[0] < 0x100 && args[1] < 0x100,
        HandlerId::Iret => args.len() >= 1 && (args[0] == 2 || args[0] == 4),
        HandlerId::WriteCr => args.len() >= 2 && (args[0] == 0 || args[0] == 2 || args[0] == 3
            || args[0] == 4),
        HandlerId::Cpuid => args.len() >= 2,
        HandlerId::Rdmsr => args.len() >= 1,
        HandlerId::InvalidatePage => args.len() >= 1,
        _ => true,
    }
}

pub open spec fn done(p: Processor, mem: Seq<u8>) -> Handled {
    Handled { processor: p, mem, result: Ok(Effect::Nothing) }
}

pub open spec fn iret_size(n: u32) -> Db {
    if n == 2 {
        Db::Protected16
    } else {
        Db::Protected32
    }
}

/// A return from an interrupt as a handler.
pub open spec fn handled_iret(p: Processor, mem: Seq<u8>, op_size: Db) -> Handled {
    let o = returned(p.core, mem, op_size);
    Handled {
        processor: Processor { core: o.core, ..p },
        mem: o.mem,
        result: match o.result {
            Ok(_) => Ok(Effect::Nothing),
            Err(e) => Err(stop_of(e)),
        },
    }
}

/// The processor after a control register was written.
pub open spec fn handled_cr(p: Processor, mem: Seq<u8>, n: u32, value: u32) -> Handled {
    if n == 0 {
        done(with_cr0(p, Cr0 { value }), mem)
    } else if n == 2 {
        done(
            Processor { core: Core { cpu: State { cr2: value, ..p.core.cpu }, ..p.core }, ..p },
            mem,
        )
    } else if n == 3 {
        Handled {
            processor: with_cr3(p, value),
            mem,
            result: Ok(Effect::AllMappingsUpdated),
        }
    } else {
        done(with_cr4(p, Cr4 { value }), mem)
    }
}

/// The processor with other registers.
pub open spec fn with_cpu(p: Processor, cpu: State) -> Processor {
    Processor { core: Core { cpu, ..p.core }, ..p }
}

/// The processor after a model-specific register was read.
pub open spec fn with_msr(cpu: State, value: u64) -> State {
    State {
        ax: (value % 0x1_0000_0000) as u32,
        dx: (value / 0x1_0000_0000) as u32,
        ..cpu
    }
}

/// What a handler does. `msr` is the value of the model-specific register that is read, and
/// `unmapped` what a write of one says.
pub open spec fn handled(
    p: Processor,
    mem: Seq<u8>,
    id: HandlerId,
    args: Seq<u32>,
    msr: u64,
    unmapped: Option<u64>,
) -> Handled {
    match id {
        HandlerId::Int => Handled {
            processor: p,
            mem,
            result: Err(int_stop(p.core, mem, args[0] as u8, args[1] as u8)),
        },
        HandlerId::Iret => handled_iret(p, mem, iret_size(args[0])),
        HandlerId::Halt => done(Processor { is_halted: true, ..p }, mem),
        HandlerId::WriteCr => handled_cr(p, mem, args[0], args[1]),
        HandlerId::IfUpdated => done(p, mem),
        HandlerId::SsUpdated => done(Processor { core: resized(p.core), ..p }, mem),
        HandlerId::CsUpdated => done(Processor { core: with_new_cs(p.core), ..p }, mem),
        HandlerId::Cpuid => done(with_cpu(p, with_cpuid(p.core.cpu, args[0], args[1])), mem),
        HandlerId::Rdmsr => done(with_cpu(p, with_msr(p.core.cpu, msr)), mem),
        HandlerId::Wrmsr => Handled {
            processor: Processor {
                sysenter: msr_regs(p.sysenter, p.core.cpu.cx, msr_operand(p.core.cpu)),
                ..p
            },
            mem,
            result: Ok(
                match unmapped {
                    Some(addr) => Effect::ApicUnmapped(addr),
                    None => Effect::Nothing,
                },
            ),
        },
        HandlerId::InvalidatePage => Handled {
            processor: p,
            mem,
            result: Ok(Effect::PageInvalidated(args[0])),
        },
    }
}

/// What the execution of a handler comes to, hardware included.
pub open spec fn executed(
    p: Processor,
    after: Processor,
    mem: Seq<u8>,
    mem_after: Seq<u8>,
    hw: Hw,
    hw_after: Hw,
    k: u64,
    id: HandlerId,
    args: Seq<u32>,
    r: Result<Effect, Stop>,
) -> bool {
    if id == HandlerId::Wrmsr {
        exists|unmapped: Option<u64>|
            {
                &&& #[trigger] hw.msr_written(
                    &hw_after,
                    p.core.cpu.cx,
                    msr_operand(p.core.cpu),
                    unmapped,
                )
                &&& handled(p, mem, id, args, 0, unmapped).is(after, mem_after, r)
            }
    } else {
        &&& hw_after == hw
        &&& handled(p, mem, id, args, hw.msr_value(p.sysenter, args[0], k), None).is(
            after,
            mem_after,
            r,
        )
    }
}

/// The result of an instruction.
#[derive(Debug)]
pub enum ExecResult {
    Done,
    InvokeHandler { id: HandlerId, args: Vec<u32> },
    Exception(Exception),
}

impl Processor {
    /// Whether the counters can go on.
    pub open spec fn countable(&self) -> bool {
        self.num_cr3_changes < u64::MAX && self.num_cr3_reloads < u64::MAX
    }

    pub fn update_cr0(&mut self, cr0: Cr0)
        ensures
            *final(self) == with_cr0(*old(self), cr0),
    {
        let p = *self;
        *self = Processor {
            core: Core {
                cpu: State { cr0: cr0.value, ..p.core.cpu },
                protected_mode: cr0.protected_mode(),
                ..p.core
            },
            mapping: Mapping {
                paging: cr0.paging(),
                system_write_protect: cr0.write_protect(),
                ..p.mapping
            },
            paging_enabled: cr0.paging(),
            ..p
        };
    }

    pub fn update_cr3(&mut self, new_val: u32)
        requires
            old(self).countable(),
        ensures
            *final(self) == with_cr3(*old(self), new_val),
    {
        let p = *self;
        let same = p.core.cpu.cr3 == new_val;
        let num_cr3_changes: u64 = if same {
            p.num_cr3_changes
        } else {
            p.num_cr3_changes + 1
        };
        let num_cr3_reloads: u64 = if same {
            p.num_cr3_reloads + 1
        } else {
            p.num_cr3_reloads
        };
        *self = Processor {
            core: Core { cpu: State { cr3: new_val, ..p.core.cpu }, ..p.core },
            mapping: Mapping { page_directory_base: new_val, ..p.mapping },
            num_cr3_changes,
            num_cr3_reloads,
            ..p
        };
    }

    pub fn update_cr4(&mut self, cr4: Cr4)
        ensures
            *final(self) == with_cr4(*old(self), cr4),
    {
        let p = *self;
        *self = Processor {
            core: Core { cpu: State { cr4: cr4.value, ..p.core.cpu }, ..p.core },
            mapping: Mapping {
                page_size_extension: cr4.page_size_extension(),
                physical_address_extension: cr4.physical_address_extension(),
                ..p.mapping
            },
            ..p
        };
    }

    /// Derives again what depends on the control registers and segments.
    pub fn flush_cached_cpu_state(&mut self)
        requires
            old(self).countable(),
        ensures
            *final(self) == flushed(*old(self)),
    {
        let cr0: u32 = self.core.cpu.cr0;
        self.update_cr0(Cr0 { value: cr0 });
        let cr3: u32 = self.core.cpu.cr3;
        self.update_cr3(cr3);
        let cr4: u32 = self.core.cpu.cr4;
        self.update_cr4(Cr4 { value: cr4 });
        let mut core = self.core;
        core.update_segment_sizes();
        *self = Processor { core, ..*self };
    }

    fn software_interrupt(&self, mem: &Memory, n: u8, increment: u8) -> (r: Stop)
        ensures
            r == int_stop(self.core, mem@, n, increment),
    {
        let cpu = &self.core.cpu;
        if self.core.protected_mode && cpu.flags.vm {
            let cr4 = Cr4 { value: cpu.cr4 };
            if cr4.virtual_8086_mode_extensions() {
                let ctx = ExecutionContext::new();
                match ctx.software_interrupt_is_redirected(cpu, mem, n) {
                    Err(e) => {
                        return Stop::Fatal(e);
                    },
                    Ok(redirect) => {
                        if redirect {
                            return Stop::Fatal(Fatal::Unsupported);
                        }
                    },
                }
            }
            if cpu.iopl < 3 {
                return Stop::Interrupt(
                    Interrupt::Exception(Exception::GeneralProtectionFault(n as u16 * 8 + 2)),
                );
            }
        }
        Stop::Interrupt(Interrupt::SoftwareInterrupt { vector: n, pc_increment: increment })
    }

    fn iret(&mut self, mem: &mut Memory, op_size: Db) -> (r: Result<Effect, Stop>)
        ensures
            handled_iret(*old(self), old(mem)@, op_size).is(*final(self), final(mem)@, r),
    {
        let mut core = self.core;
        let result = core.iret(mem, op_size);
        *self = Processor { core, ..*self };
        match result {
            Ok(_) => Ok(Effect::Nothing),
            Err(Fault::Exception(e)) => Err(Stop::Interrupt(Interrupt::Exception(e))),
            Err(Fault::Fatal(f)) => Err(Stop::Fatal(f)),
        }
    }

    fn write_cr(&mut self, n: u32, value: u32) -> (r: Effect)
        requires
            old(self).countable(),
            n == 0 || n == 2 || n == 3 || n == 4,
        ensures
            forall|mem: Seq<u8>|
                {
                    let h = #[trigger] handled_cr(*old(self), mem, n, value);
                    h.processor == *final(self) && h.mem == mem && h.result == Ok::<Effect, Stop>(r)
                },
    {
        if n == 0 {
            self.update_cr0(Cr0 { value });
            return Effect::Nothing;
        }
        if n == 2 {
            let p = *self;
            *self = Processor {
                core: Core { cpu: State { cr2: value, ..p.core.cpu }, ..p.core },
                ..p
            };
            return Effect::Nothing;
        }
        if n == 3 {
            self.update_cr3(value);
            return Effect::AllMappingsUpdated;
        }
        self.update_cr4(Cr4 { value });
        Effect::Nothing
    }

    fn new_cs(core: Core) -> (r: Core)
        ensures
            r == with_new_cs(core),
    {
        let cpu = core.cpu;
        let selector = SegmentSelector { value: cpu.cs.selector };
        let level: u8 = if cpu.flags.vm {
            3
        } else if core.protected_mode {
            selector.rpl()
        } else {
            0
        };
        let op_size = if !cpu.flags.vm && core.protected_mode {
            cpu.read_cs_size()
        } else {
            Db::Protected16
        };
        let mut next = Core {
            cpu: State { cpl: compute_effective_cpl(level), ..cpu },
            op_size,
            ..core
        };
        next.update_segment_sizes();
        next
    }

    fn identify(cpu: State, eax: u32, ecx: u32) -> (r: State)
        ensures
            r == with_cpuid(cpu, eax, ecx),
    {
        if eax == 0 {
            return State { ax: 1, bx: 0x756E_6547, cx: 0x6C65_746E, dx: 0x4965_6E69, ..cpu };
        }
        if eax == 1 || eax == 0x8000_0000 {
            return State { ax: 0x634, bx: 0, cx: 0, dx: 0x0002_C1FD, ..cpu };
        }
        if eax == 0x8000_0008 {
            return State { ax: 0x3028, bx: 0x200, cx: 0, dx: 0, ..cpu };
        }
        if eax == 0xC27C_6DF0 && ecx == 0x2FF {
            return State { ax: 0x40, bx: 0x40, cx: 0x3, dx: 0x20, ..cpu };
        }
        cpu
    }

    fn set_cpu(&mut self, cpu: State)
        ensures
            *final(self) == with_cpu(*old(self), cpu),
    {
        let p = *self;
        *self = Processor { core: Core { cpu, ..p.core }, ..p };
    }

    /// Does what an instruction asks of the emulator. `k` counts instructions.
    pub fn execute_handler(
        &mut self,
        mem: &mut Memory,
        hw: &mut Hw,
        k: u64,
        id: HandlerId,
        args: &Vec<u32>,
    ) -> (r: Result<Effect, Stop>)
        requires
            old(self).countable(),
            old(hw).wf(),
            args_ok(id, args@),
            id == HandlerId::Wrmsr ==> Hw::msr_ok(
                old(self).core.cpu.cx,
                msr_operand(old(self).core.cpu),
            ),
        ensures
            final(hw).wf(),
            executed(
                *old(self),
                *final(self),
                old(mem)@,
                final(mem)@,
                *old(hw),
                *final(hw),
                k,
                id,
                args@,
                r,
            ),
    {
        match id {
            HandlerId::Int => {
                return Err(self.software_interrupt(mem, args[0] as u8, args[1] as u8));
            },
            HandlerId::Iret => {
                let op_size = if args[0] == 2 {
                    Db::Protected16
                } else {
                    Db::Protected32
                };
                return self.iret(mem, op_size);
            },
            HandlerId::Halt => {
                *self = Processor { is_halted: true, ..*self };
                return Ok(Effect::Nothing);
            },
            HandlerId::WriteCr => {
                let effect = self.write_cr(args[0], args[1]);
                assert(handled_cr(*old(self), mem@, args@[0], args@[1]).processor == *self);
                return Ok(effect);
            },
            HandlerId::IfUpdated => {
                return Ok(Effect::Nothing);
            },
            HandlerId::SsUpdated => {
                let mut core = self.core;
                core.update_segment_sizes();
                *self = Processor { core, ..*self };
                return Ok(Effect::Nothing);
            },
            HandlerId::CsUpdated => {
                *self = Processor { core: Self::new_cs(self.core), ..*self };
                return Ok(Effect::Nothing);
            },
            HandlerId::Cpuid => {
                let cpu = Self::identify(self.core.cpu, args[0], args[1]);
                self.set_cpu(cpu);
                return Ok(Effect::Nothing);
            },
            HandlerId::Rdmsr => {
                let val: u64 = hw.read_msr(&self.sysenter, args[0], k);
                let cpu = self.core.cpu;
                self.set_cpu(
                    State {
                        ax: (val % 0x1_0000_0000) as u32,
                        dx: (val / 0x1_0000_0000) as u32,
                        ..cpu
                    },
                );
                return Ok(Effect::Nothing);
            },
            HandlerId::Wrmsr => {
                let cpu = self.core.cpu;
                let val: u64 = cpu.dx as u64 * 0x1_0000_0000 + cpu.ax as u64;
                let mut sysenter = self.sysenter;
                let unmapped = hw.write_msr(&mut sysenter, cpu.cx, val);
                *self = Processor { sysenter, ..*self };
                match unmapped {
                    Some(addr) => {
                        return Ok(Effect::ApicUnmapped(addr));
                    },
                    None => {
                        return Ok(Effect::Nothing);
                    },
                }
            },
            HandlerId::InvalidatePage => {
                return Ok(Effect::PageInvalidated(args[0]));
            },
        }
    }
}

impl Processor {
    /// Whether a result can be looked at.
    pub open spec fn result_ok(&self, result: ExecResult) -> bool {
        match result {
            ExecResult::InvokeHandler { id, args } => {
                &&& args_ok(id, args@)
                &&& id == HandlerId::Wrmsr ==> Hw::msr_ok(
                    self.core.cpu.cx,
                    msr_operand(self.core.cpu),
                )
            },
            _ => true,
        }
    }

    /// Looks at the result of an instruction: invokes its handler, or reports its exception. An
    /// instruction that repeats itself is resumed after an exception.
    pub fn inspect_result(
        &mut self,
        mem: &mut Memory,
        hw: &mut Hw,
        k: u64,
        result: &ExecResult,
        is_rep: bool,
    ) -> (r: Result<Effect, Stop>)
        requires
            old(self).countable(),
            old(hw).wf(),
            old(self).result_ok(*result),
        ensures
            final(hw).wf(),
            match *result {
                ExecResult::Done => {
                    &&& r == Ok::<Effect, Stop>(Effect::Nothing)
                    &&& *final(self) == *old(self)
                    &&& final(mem)@ == old(mem)@
                    &&& *final(hw) == *old(hw)
                },
                ExecResult::InvokeHandler { id, args } => executed(
                    *old(self),
                    *final(self),
                    old(mem)@,
                    final(mem)@,
                    *old(hw),
                    *final(hw),
                    k,
                    id,
                    args@,
                    r,
                ),
                ExecResult::Exception(e) => {
                    &&& r == Err::<Effect, Stop>(Stop::Interrupt(Interrupt::Exception(e)))
                    &&& *final(self) == if is_rep {
                        with_cpu(*old(self), resuming(old(self).core.cpu))
                    } else {
                        *old(self)
                    }
                    &&& final(mem)@ == old(mem)@
                    &&& *final(hw) == *old(hw)
                },
            },
    {
        match result {
            ExecResult::Done => {
                return Ok(Effect::Nothing);
            },
            ExecResult::InvokeHandler { id, args } => {
                return self.execute_handler(mem, hw, k, *id, args);
            },
            ExecResult::Exception(e) => {
                if is_rep {
                    let cpu = self.core.cpu;
                    let flags = Flags { rf: true, ..cpu.flags };
                    self.set_cpu(State { flags, ..cpu });
                }
                return Err(Stop::Interrupt(Interrupt::Exception(*e)));
            },
        }
    }
}

/// What is derived from the control registers agrees with them.
pub open spec fn in_step(p: Processor) -> bool {
    let cr0 = Cr0 { value: p.core.cpu.cr0 };
    let cr4 = Cr4 { value: p.core.cpu.cr4 };
    &&& p.core.protected_mode == cr0.pe()
    &&& p.paging_enabled == cr0.pg()
    &&& p.mapping == (Mapping {
        paging: cr0.pg(),
        system_write_protect: cr0.wp(),
        page_directory_base: p.core.cpu.cr3,
        page_size_extension: cr4.pse(),
        physical_address_extension: cr4.pae(),
    })
}

proof fn lemma_segments_keep_control(core: Core, segments: Seq<PreparedSegment>)
    ensures
        ({
            let c = committed_all(core, segments);
            &&& c.protected_mode == core.protected_mode
            &&& c.cpu.cr0 == core.cpu.cr0
            &&& c.cpu.cr3 == core.cpu.cr3
            &&& c.cpu.cr4 == core.cpu.cr4
        }),
    decreases segments.len(),
{
    if segments.len() > 0 {
        lemma_segments_keep_control(core, segments.drop_last());
    }
}

proof fn lemma_return_keeps_control(
    core: Core,
    mem: Seq<u8>,
    t: StackTransaction,
    ip: u32,
    cs: u16,
    segments: Seq<PreparedSegment>,
    sp: Option<u32>,
    cpl: Option<u8>,
)
    ensures
        ({
            let c = returned_to(core, mem, t, ip, cs, segments, sp, cpl).core;
            &&& c.protected_mode == core.protected_mode
            &&& c.cpu.cr0 == core.cpu.cr0
            &&& c.cpu.cr3 == core.cpu.cr3
            &&& c.cpu.cr4 == core.cpu.cr4
        }),
{
    if let Ok(p) = segment_of(core, mem, SegReg::Cs, cs) {
        lemma_segments_keep_control(committed(core, p), segments);
    }
}

proof fn lemma_iret_keeps_control(core: Core, mem: Seq<u8>, op_size: Db)
    ensures
        ({
            let c = returned(core, mem, op_size).core;
            &&& c.protected_mode == core.protected_mode
            &&& c.cpu.cr0 == core.cpu.cr0
            &&& c.cpu.cr3 == core.cpu.cr3
            &&& c.cpu.cr4 == core.cpu.cr4
        }),
{
    reveal(returned);
    let vm = core.cpu.flags.vm;
    let upper = core.protected_mode && op_size == Db::Protected32 && !vm;
    let start = StackTransaction::begin(core.cpu.ss.ar.db(), op_size, core.cpu);
    if let Some(v) = start.popped(mem, 3) {
        let cs = low16(v[1]);
        let t = start.after_pops(3);
        let sized = Core { op_size, ..core };
        let flagged = Core { cpu: unpacked_flags(core.cpu, v[2], upper, vm), ..sized };
        lemma_return_keeps_control(flagged, mem, t, v[0], cs, Seq::empty(), None, None);
        if let Some(w) = t.popped(mem, 6) {
            lemma_return_keeps_control(
                flagged,
                mem,
                t.after_pops(6),
                v[0],
                cs,
                seq![
                    vm_segment(SegReg::Es, low16(w[2])),
                    vm_segment(SegReg::Ds, low16(w[3])),
                    vm_segment(SegReg::Fs, low16(w[4])),
                    vm_segment(SegReg::Gs, low16(w[5])),
                    vm_segment(SegReg::Ss, low16(w[1])),
                ],
                Some(low16(w[0]) as u32),
                Some(3),
            );
        }
        if let Some(w) = t.popped(mem, 2) {
            let ss = low16(w[1]);
            if let Ok(d) = descriptor_of(flagged.cpu, mem, SegmentSelector { value: ss }) {
                let mask = address_mask(d.db());
                let sp = (w[0] & mask) | (flagged.cpu.sp & !mask);
                if let Ok(p) = segment_of(flagged, mem, SegReg::Ss, ss) {
                    lemma_return_keeps_control(
                        flagged,
                        marked(flagged, mem, ss),
                        t.after_pops(2),
                        v[0],
                        cs,
                        seq![p],
                        Some(sp),
                        None,
                    );
                }
            }
        }
    }
}

/// Handlers keep what is derived from the control registers in step with them.
pub proof fn control_registers_stay_in_step(
    p: Processor,
    mem: Seq<u8>,
    id: HandlerId,
    args: Seq<u32>,
    msr: u64,
    unmapped: Option<u64>,
)
    requires
        in_step(p),
    ensures
        in_step(handled(p, mem, id, args, msr, unmapped).processor),
{
    match id {
        HandlerId::Iret => {
            lemma_iret_in_step(p, mem, iret_size(args[0]));
        },
        HandlerId::WriteCr => {
            lemma_cr_in_step(p, mem, args[0], args[1]);
        },
        HandlerId::Cpuid => {
            lemma_cpu_in_step(p, with_cpuid(p.core.cpu, args[0], args[1]));
        },
        HandlerId::Rdmsr => {
            lemma_cpu_in_step(p, with_msr(p.core.cpu, msr));
        },
        _ => {},
    }
}

proof fn lemma_cpu_in_step(p: Processor, cpu: State)
    requires
        in_step(p),
        cpu.cr0 == p.core.cpu.cr0,
        cpu.cr3 == p.core.cpu.cr3,
        cpu.cr4 == p.core.cpu.cr4,
    ensures
        in_step(with_cpu(p, cpu)),
{
}

proof fn lemma_cr_in_step(p: Processor, mem: Seq<u8>, n: u32, value: u32)
    requires
        in_step(p),
    ensures
        in_step(handled_cr(p, mem, n, value).processor),
{
}

proof fn lemma_iret_in_step(p: Processor, mem: Seq<u8>, op_size: Db)
    requires
        in_step(p),
    ensures
        in_step(handled_iret(p, mem, op_size).processor),
{
    lemma_iret_keeps_control(p.core, mem, op_size);
}

/// Everything that is derived from the control registers can be derived again.
pub proof fn flushed_state_is_in_step(p: Processor)
    ensures
        in_step(flushed(p)),
{
}

/// The processor with everything derived again.
pub open spec fn flushed(p: Processor) -> Processor {
    let a = with_cr0(p, Cr0 { value: p.core.cpu.cr0 });
    let b = with_cr3(a, a.core.cpu.cr3);
    let c = with_cr4(b, Cr4 { value: b.core.cpu.cr4 });
    Processor { core: resized(c.core), ..c }
}

/// A write of a control register is seen in that register alone. The first one switches protected
/// mode with bit 0, write protection for the system with bit 16 and paging with bit 31; the fourth
/// one says where the page tables are; the fifth one switches large pages with bit 4 and wide entries
/// with bit 5.
pub proof fn control_registers_take_effect(p: Processor, mem: Seq<u8>, n: u32, value: u32)
    requires
        n == 0 || n == 2 || n == 3 || n == 4,
    ensures
        ({
            let h = handled_cr(p, mem, n, value);
            let (before, after) = (p.core.cpu, h.processor.core.cpu);
            let (was, is) = (p.mapping, h.processor.mapping);
            &&& h.result is Ok && h.mem == mem
            &&& after.cr0 == if n == 0 { value } else { before.cr0 }
            &&& after.cr2 == if n == 2 { value } else { before.cr2 }
            &&& after.cr3 == if n == 3 { value } else { before.cr3 }
            &&& after.cr4 == if n == 4 { value } else { before.cr4 }
            &&& after.ip == before.ip && after.sp == before.sp && after.cs == before.cs
            &&& n == 0 ==> {
                &&& h.processor.core.protected_mode == (value % 2 == 1)
                &&& is.system_write_protect == (value / 0x1_0000 % 2 == 1)
                &&& is.paging == (value >= 0x8000_0000)
                &&& h.processor.paging_enabled == (value >= 0x8000_0000)
            }
            &&& n != 0 ==> {
                &&& h.processor.core.protected_mode == p.core.protected_mode
                &&& is.system_write_protect == was.system_write_protect
                &&& is.paging == was.paging
            }
            &&& is.page_directory_base == if n == 3 { value } else { was.page_directory_base }
            &&& is.page_size_extension == if n == 4 {
                value / 0x10 % 2 == 1
            } else {
                was.page_size_extension
            }
            &&& is.physical_address_extension == if n == 4 {
                value / 0x20 % 2 == 1
            } else {
                was.physical_address_extension
            }
        }),
{
}

} // verus!
