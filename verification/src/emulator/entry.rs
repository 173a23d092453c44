//! Interrupt entry.
use vstd::prelude::*;

use crate::emulator::segments::{
    committed, descriptor_of, fatal, marked, segment_of, Core, Fatal, Fault, Outcome,
};
use crate::emulator::stack::StackTransaction;
use crate::emulator::state::{pack_flags, packed_flags, Flags, SegReg, Segment, State};
use crate::mem::{read16, read32, read64, Memory};
use crate::system::{
    access_dpl, access_present, Exception, GateDescriptor, GateType, Interrupt, SegmentSelector,
};

verus! {

/// The processor after it has noted an interrupt: faults set the resume flag, page faults their
/// address.
pub open spec fn announced(cpu: State, interrupt: Interrupt) -> State {
    State {
        flags: Flags { rf: cpu.flags.rf || interrupt.resumes(), ..cpu.flags },
        cr2: match interrupt {
            Interrupt::Exception(Exception::PageFault { address, .. }) => address,
            _ => cpu.cr2,
        },
        ..cpu
    }
}

/// What is pushed in any case: the flags and the return address.
pub open spec fn frame(cpu: State, interrupt: Interrupt) -> Seq<u32> {
    seq![
        packed_flags(cpu) | (if interrupt.resumes() {
            0x1_0000u32
        } else {
            0u32
        }),
        cpu.cs.selector as u32,
        ((cpu.ip + interrupt.increment()) % 0x1_0000_0000) as u32,
    ]
}

/// The frame in protected mode, where an error code stands on top.
pub open spec fn frame_with_code(cpu: State, interrupt: Interrupt) -> Seq<u32> {
    match interrupt.error_code() {
        Some(code) => frame(cpu, interrupt).push(code),
        None => frame(cpu, interrupt),
    }
}

/// The processor after values were pushed on its stack.
#[verifier::opaque]
pub open spec fn stacked(core: Core, mem: Seq<u8>, vals: Seq<u32>) -> Outcome {
    let t = StackTransaction::begin(core.cpu.ss.ar.db(), core.op_size, core.cpu);
    match t.pushed_all(mem, vals) {
        Some(next) => Outcome {
            core: Core {
                cpu: State { sp: t.after_pushes(vals.len()).esp, ..core.cpu },
                ..core
            },
            mem: next,
            result: Ok(()),
        },
        None => Outcome { core, mem, result: fatal(Fatal::Unreadable) },
    }
}

/// Entry in real mode: the table at address 0 holds far pointers.
#[verifier::opaque]
pub open spec fn entered_real(core: Core, mem: Seq<u8>, n: u8, vals: Seq<u32>) -> Outcome {
    match (read16(mem, n * 4), read16(mem, n * 4 + 2)) {
        (Some(new_ip), Some(new_cs)) => {
            let at = Core { cpu: State { ip: new_ip as u32, ..core.cpu }, ..core };
            match segment_of(at, mem, SegReg::Cs, new_cs) {
                Ok(p) => {
                    let there = committed(at, p);
                    let flags = Flags { if_: false, rf: false, ..there.cpu.flags };
                    stacked(
                        Core { cpu: State { flags, ..there.cpu }, ..there },
                        marked(at, mem, new_cs),
                        vals,
                    )
                },
                Err(e) => Outcome { core: at, mem: marked(at, mem, new_cs), result: Err(e) },
            }
        },
        _ => Outcome { core, mem, result: fatal(Fatal::Unreadable) },
    }
}

/// The address of an entry of the interrupt table.
pub open spec fn gate_addr(cpu: State, n: u8) -> int {
    (cpu.idt.base + n * 8) % 0x1_0000_0000
}

/// The table entry of an interrupt.
#[verifier::opaque]
pub open spec fn gate_of(cpu: State, mem: Seq<u8>, interrupt: Interrupt) -> Result<
    GateDescriptor,
    Fault,
> {
    let n = interrupt.number();
    if (n + 1) * 8 > cpu.idt.limit + 1 {
        Err(Fault::Fatal(Fatal::TableTooShort))
    } else {
        match read64(mem, gate_addr(cpu, n)) {
            Some(v) => {
                let gate = GateDescriptor::of_value(v);
                if !access_present(gate.access_byte) {
                    Err(Fault::Fatal(Fatal::GateNotPresent))
                } else if gate.kind() == GateType::TaskGate {
                    Err(Fault::Fatal(Fatal::TaskGate))
                } else if interrupt is SoftwareInterrupt && access_dpl(gate.access_byte)
                    < cpu.level() {
                    Err(Fault::Exception(Exception::GeneralProtectionFault((n * 8 + 2) as u16)))
                } else {
                    Ok(gate)
                }
            },
            None => Err(Fault::Fatal(Fatal::Unreadable)),
        }
    }
}

/// The processor on the stack that the current task has for a privilege level.
#[verifier::opaque]
pub open spec fn on_stack_of(core: Core, mem: Seq<u8>, level: u8) -> Outcome {
    if level >= 3 {
        Outcome { core, mem, result: fatal(Fatal::NoStack) }
    } else {
        let at = core.cpu.tss.base + 4 + 8 * level;
        match (read32(mem, at), read16(mem, at + 4)) {
            (Some(esp), Some(ss)) => {
                let moved = Core { cpu: State { sp: esp, ..core.cpu }, ..core };
                match segment_of(moved, mem, SegReg::Ss, ss) {
                    Ok(p) => Outcome {
                        core: committed(moved, p),
                        mem: marked(moved, mem, ss),
                        result: Ok(()),
                    },
                    Err(e) => Outcome { core: moved, mem: marked(moved, mem, ss), result: Err(e) },
                }
            },
            _ => Outcome { core, mem, result: fatal(Fatal::Unreadable) },
        }
    }
}

/// The processor at the start of a handler.
#[verifier::opaque]
pub open spec fn at_handler(core: Core, mem: Seq<u8>, gate: GateDescriptor) -> Outcome {
    let at = Core { cpu: State { ip: gate.offset, ..core.cpu }, ..core };
    match segment_of(at, mem, SegReg::Cs, gate.segment_selector) {
        Ok(p) => {
            let there = committed(at, p);
            let f = there.cpu.flags;
            let through = gate.kind() == GateType::Interrupt || gate.kind() == GateType::Trap;
            let flags = Flags {
                if_: f.if_ && gate.kind() != GateType::Interrupt,
                rf: f.rf && !through,
                ..f
            };
            Outcome {
                core: Core { cpu: State { flags, ..there.cpu }, ..there },
                mem: marked(at, mem, gate.segment_selector),
                result: Ok(()),
            }
        },
        Err(e) => Outcome {
            core: at,
            mem: marked(at, mem, gate.segment_selector),
            result: Err(e),
        },
    }
}

/// What is pushed when a handler was reached: what a return to virtual 8086 mode needs, the old
/// stack, and the frame.
pub open spec fn pushes(
    core: Core,
    vm: bool,
    switched: bool,
    old_ss: u32,
    old_sp: u32,
    vals: Seq<u32>,
) -> Seq<u32> {
    let segments = if vm {
        seq![
            core.cpu.gs.selector as u32,
            core.cpu.fs.selector as u32,
            core.cpu.ds.selector as u32,
            core.cpu.es.selector as u32,
        ]
    } else {
        Seq::empty()
    };
    let stack = if vm || switched {
        seq![old_ss, old_sp]
    } else {
        Seq::empty()
    };
    segments + stack + vals
}

/// The selectors of the data segments are cleared when virtual 8086 mode is left.
pub open spec fn cleared(cpu: State) -> State {
    State {
        gs: Segment { selector: 0, ..cpu.gs },
        fs: Segment { selector: 0, ..cpu.fs },
        ds: Segment { selector: 0, ..cpu.ds },
        es: Segment { selector: 0, ..cpu.es },
        ..cpu
    }
}

/// The rest of an entry, at the start of the handler.
#[verifier::opaque]
pub open spec fn finished(
    core: Core,
    mem: Seq<u8>,
    vm: bool,
    switched: bool,
    old_ss: u32,
    old_sp: u32,
    vals: Seq<u32>,
) -> Outcome {
    let all = pushes(core, vm, switched, old_ss, old_sp, vals);
    let cpu = if vm {
        cleared(core.cpu)
    } else {
        core.cpu
    };
    stacked(Core { cpu, ..core }, mem, all)
}

/// Entry in protected mode.
#[verifier::opaque]
pub open spec fn entered_protected(
    core: Core,
    mem: Seq<u8>,
    interrupt: Interrupt,
    vals: Seq<u32>,
) -> Outcome {
    match gate_of(core.cpu, mem, interrupt) {
        Err(e) => Outcome { core, mem, result: Err(e) },
        Ok(gate) => {
            let selector = SegmentSelector { value: gate.segment_selector };
            match descriptor_of(core.cpu, mem, selector) {
                Err(e) => Outcome { core, mem, result: Err(e) },
                Ok(d) => {
                    let outside = Core {
                        cpu: State {
                            flags: Flags { vm: false, ..core.cpu.flags },
                            ..core.cpu
                        },
                        ..core
                    };
                    let switched = access_dpl(d.access_byte) < core.cpu.level();
                    let a = if switched {
                        on_stack_of(outside, mem, selector.level())
                    } else {
                        Outcome { core: outside, mem, result: Ok(()) }
                    };
                    if a.result is Err {
                        a
                    } else {
                        let b = at_handler(a.core, a.mem, gate);
                        if b.result is Err {
                            b
                        } else {
                            finished(
                                b.core,
                                b.mem,
                                core.cpu.flags.vm,
                                switched,
                                core.cpu.ss.selector as u32,
                                core.cpu.sp,
                                vals,
                            )
                        }
                    }
                },
            }
        },
    }
}

/// The processor after it has entered an interrupt.
#[verifier::opaque]
pub open spec fn entered(core: Core, mem: Seq<u8>, interrupt: Interrupt) -> Outcome {
    let noted = Core { cpu: announced(core.cpu, interrupt), ..core };
    if core.protected_mode {
        entered_protected(noted, mem, interrupt, frame_with_code(noted.cpu, interrupt))
    } else {
        entered_real(noted, mem, interrupt.number(), frame(noted.cpu, interrupt))
    }
}

impl Core {
    fn announce(cpu: State, interrupt: Interrupt) -> (r: State)
        ensures
            r == announced(cpu, interrupt),
    {
        let cr2: u32 = match interrupt {
            Interrupt::Exception(Exception::PageFault { address, .. }) => address,
            _ => cpu.cr2,
        };
        let flags = Flags { rf: cpu.flags.rf || interrupt.is_resuming_fault(), ..cpu.flags };
        State { flags, cr2, ..cpu }
    }

    fn make_frame(&self, interrupt: Interrupt) -> (r: Vec<u32>)
        ensures
            r@ == frame(self.cpu, interrupt),
    {
        let extra: u32 = if interrupt.is_resuming_fault() {
            0x1_0000
        } else {
            0
        };
        let mut vals: Vec<u32> = Vec::new();
        vals.push(pack_flags(&self.cpu) | extra);
        vals.push(self.cpu.cs.selector as u32);
        vals.push(self.cpu.ip.wrapping_add(interrupt.pc_increment()));
        assert(vals@ =~= frame(self.cpu, interrupt));
        vals
    }

    /// Pushes values on the current stack.
    fn push_values(&mut self, mem: &mut Memory, vals: &Vec<u32>) -> (r: Result<(), Fault>)
        ensures
            stacked(*old(self), old(mem)@, vals@).is(*final(self), final(mem)@, r),
    {
        proof {
            reveal(stacked);
        }
        let mut t = StackTransaction::new(self.cpu.read_ss_size(), self.op_size, &self.cpu);
        if t.push_all(mem, vals) {
            t.commit(&mut self.cpu);
            Ok(())
        } else {
            Err(Fault::Fatal(Fatal::Unreadable))
        }
    }

    fn enter_real(&mut self, mem: &mut Memory, n: u8, vals: &Vec<u32>) -> (r: Result<(), Fault>)
        ensures
            entered_real(*old(self), old(mem)@, n, vals@).is(*final(self), final(mem)@, r),
    {
        proof {
            reveal(entered_real);
        }
        let addr: u64 = n as u64 * 4;
        match (mem.get16(addr), mem.get16(addr + 2)) {
            (Some(new_ip), Some(new_cs)) => {
                *self = Core { cpu: State { ip: new_ip as u32, ..self.cpu }, ..*self };
                match self.prepare_segment(mem, SegReg::Cs, new_cs) {
                    Ok(p) => {
                        self.commit(p);
                        let flags = Flags { if_: false, rf: false, ..self.cpu.flags };
                        *self = Core { cpu: State { flags, ..self.cpu }, ..*self };
                        self.push_values(mem, vals)
                    },
                    Err(e) => Err(e),
                }
            },
            _ => Err(Fault::Fatal(Fatal::Unreadable)),
        }
    }

    fn find_gate(&self, mem: &Memory, interrupt: Interrupt) -> (r: Result<GateDescriptor, Fault>)
        ensures
            r == gate_of(self.cpu, mem@, interrupt),
    {
        proof {
            reveal(gate_of);
        }
        let n: u8 = interrupt.vector();
        if (n as u64 + 1) * 8 > self.cpu.idt.limit as u64 + 1 {
            return Err(Fault::Fatal(Fatal::TableTooShort));
        }
        let addr: u64 = (self.cpu.idt.base as u64 + n as u64 * 8) % 0x1_0000_0000;
        match mem.get64(addr) {
            Some(v) => {
                let gate = GateDescriptor::from_value(v);
                if gate.access_byte / 0x80 == 0 {
                    return Err(Fault::Fatal(Fatal::GateNotPresent));
                }
                if matches!(gate.gate_type(), GateType::TaskGate) {
                    return Err(Fault::Fatal(Fatal::TaskGate));
                }
                if matches!(interrupt, Interrupt::SoftwareInterrupt { .. }) && gate.access_byte / 0x20
                    % 4 < self.cpu.current_level() {
                    return Err(
                        Fault::Exception(
                            Exception::GeneralProtectionFault(n as u16 * 8 + 2),
                        ),
                    );
                }
                Ok(gate)
            },
            None => Err(Fault::Fatal(Fatal::Unreadable)),
        }
    }

    fn switch_stack(&mut self, mem: &mut Memory, level: u8) -> (r: Result<(), Fault>)
        requires
            level <= 3,
        ensures
            on_stack_of(*old(self), old(mem)@, level).is(*final(self), final(mem)@, r),
    {
        proof {
            reveal(on_stack_of);
        }
        if level >= 3 {
            return Err(Fault::Fatal(Fatal::NoStack));
        }
        let at: u64 = self.cpu.tss.base as u64 + 4 + 8 * level as u64;
        match (mem.get32(at), mem.get16(at + 4)) {
            (Some(esp), Some(ss)) => {
                *self = Core { cpu: State { sp: esp, ..self.cpu }, ..*self };
                match self.prepare_segment(mem, SegReg::Ss, ss) {
                    Ok(p) => {
                        self.commit(p);
                        Ok(())
                    },
                    Err(e) => Err(e),
                }
            },
            _ => Err(Fault::Fatal(Fatal::Unreadable)),
        }
    }

    fn go_to_handler(&mut self, mem: &mut Memory, gate: GateDescriptor) -> (r: Result<(), Fault>)
        ensures
            at_handler(*old(self), old(mem)@, gate).is(*final(self), final(mem)@, r),
    {
        proof {
            reveal(at_handler);
        }
        *self = Core { cpu: State { ip: gate.offset, ..self.cpu }, ..*self };
        match self.prepare_segment(mem, SegReg::Cs, gate.segment_selector) {
            Ok(p) => {
                self.commit(p);
                let kind = gate.gate_type();
                let f = self.cpu.flags;
                let through = matches!(kind, GateType::Interrupt) || matches!(kind, GateType::Trap);
                let flags = Flags {
                    if_: f.if_ && !matches!(kind, GateType::Interrupt),
                    rf: f.rf && !through,
                    ..f
                };
                *self = Core { cpu: State { flags, ..self.cpu }, ..*self };
                Ok(())
            },
            Err(e) => Err(e),
        }
    }

    fn finish_entry(
        &mut self,
        mem: &mut Memory,
        vm: bool,
        switched: bool,
        old_ss: u32,
        old_sp: u32,
        vals: &Vec<u32>,
    ) -> (r: Result<(), Fault>)
        ensures
            finished(*old(self), old(mem)@, vm, switched, old_ss, old_sp, vals@).is(
                *final(self),
                final(mem)@,
                r,
            ),
    {
        proof {
            reveal(finished);
        }
        let mut all: Vec<u32> = Vec::new();
        if vm {
            all.push(self.cpu.gs.selector as u32);
            all.push(self.cpu.fs.selector as u32);
            all.push(self.cpu.ds.selector as u32);
            all.push(self.cpu.es.selector as u32);
        }
        if vm || switched {
            all.push(old_ss);
            all.push(old_sp);
        }
        let ghost before = all@;
        let mut i: usize = 0;
        while i < vals.len()
            invariant
                i <= vals.len(),
                all@ == before + vals@.take(i as int),
            decreases vals.len() - i,
        {
            all.push(vals[i]);
            assert(all@ =~= before + vals@.take(i + 1));
            i += 1;
        }
        assert(all@ =~= pushes(*self, vm, switched, old_ss, old_sp, vals@));
        if vm {
            let cpu = self.cpu;
            let next = State {
                gs: Segment { selector: 0, ..cpu.gs },
                fs: Segment { selector: 0, ..cpu.fs },
                ds: Segment { selector: 0, ..cpu.ds },
                es: Segment { selector: 0, ..cpu.es },
                ..cpu
            };
            *self = Core { cpu: next, ..*self };
        }
        self.push_values(mem, &all)
    }

    fn enter_protected(
        &mut self,
        mem: &mut Memory,
        interrupt: Interrupt,
        vals: &Vec<u32>,
    ) -> (r: Result<(), Fault>)
        ensures
            entered_protected(*old(self), old(mem)@, interrupt, vals@).is(
                *final(self),
                final(mem)@,
                r,
            ),
    {
        proof {
            reveal(entered_protected);
        }
        let vm = self.cpu.flags.vm;
        let old_ss: u32 = self.cpu.ss.selector as u32;
        let old_sp: u32 = self.cpu.sp;
        let level: u8 = self.cpu.current_level();
        let gate = match self.find_gate(mem, interrupt) {
            Ok(gate) => gate,
            Err(e) => {
                return Err(e);
            },
        };
        let selector = SegmentSelector { value: gate.segment_selector };
        let descriptor = match self.load_descriptor(mem, selector) {
            Ok(descriptor) => descriptor,
            Err(e) => {
                return Err(e);
            },
        };
        let flags = Flags { vm: false, ..self.cpu.flags };
        *self = Core { cpu: State { flags, ..self.cpu }, ..*self };
        let switched = descriptor.access_byte / 0x20 % 4 < level;
        if switched {
            match self.switch_stack(mem, selector.rpl()) {
                Ok(_) => {},
                Err(e) => {
                    return Err(e);
                },
            }
        }
        match self.go_to_handler(mem, gate) {
            Ok(_) => {},
            Err(e) => {
                return Err(e);
            },
        }
        self.finish_entry(mem, vm, switched, old_ss, old_sp, vals)
    }

    /// Enters an interrupt: saves the flags and the return address and goes on at the handler.
    pub fn enter_interrupt(&mut self, mem: &mut Memory, interrupt: Interrupt) -> (r: Result<
        (),
        Fault,
    >)
        ensures
            entered(*old(self), old(mem)@, interrupt).is(*final(self), final(mem)@, r),
    {
        proof {
            reveal(entered);
        }
        *self = Core { cpu: Self::announce(self.cpu, interrupt), ..*self };
        let mut vals = self.make_frame(interrupt);
        if self.protected_mode {
            match interrupt.code() {
                Some(code) => {
                    vals.push(code);
                },
                None => {},
            }
            self.enter_protected(mem, interrupt, &vals)
        } else {
            self.enter_real(mem, interrupt.vector(), &vals)
        }
    }
}

/// What an interrupt saves: the flags, the selector of the code segment, and where the program goes
/// on: behind an `INT` instruction, and at the same place after anything else. In protected mode an
/// error code comes last.
pub proof fn interrupts_save_the_way_back(cpu: State, interrupt: Interrupt)
    ensures
        frame(cpu, interrupt).len() == 3,
        frame(cpu, interrupt)[1] == cpu.cs.selector,
        interrupt matches Interrupt::SoftwareInterrupt { pc_increment, .. } ==> (cpu.ip + pc_increment
            <= u32::MAX ==> frame(cpu, interrupt)[2] == cpu.ip + pc_increment),
        !(interrupt is SoftwareInterrupt) ==> frame(cpu, interrupt)[2] == cpu.ip,
        interrupt matches Interrupt::Exception(Exception::PageFault { address, code }) ==> {
            &&& frame_with_code(cpu, interrupt).len() == 4
            &&& frame_with_code(cpu, interrupt)[3] == code
            &&& announced(cpu, interrupt).cr2 == address
        },
        interrupt matches Interrupt::Exception(Exception::GeneralProtectionFault(code)) ==> {
            &&& frame_with_code(cpu, interrupt).len() == 4
            &&& frame_with_code(cpu, interrupt)[3] == code
        },
        interrupt is HardwareInterrupt || interrupt is SoftwareInterrupt ==> frame_with_code(
            cpu,
            interrupt,
        ) == frame(cpu, interrupt),
{
}

/// Entries of the interrupt table are eight bytes long. One that is present leads to its offset in
/// its segment; a program may only use those that its privilege level is allowed to.
pub proof fn gates_come_from_the_table(cpu: State, mem: Seq<u8>, interrupt: Interrupt)
    requires
        interrupt.number() * 8 + 7 <= cpu.idt.limit,
        cpu.idt.base + interrupt.number() * 8 + 8 <= mem.len(),
        mem.len() <= 0x1_0000_0000,
        mem[cpu.idt.base + interrupt.number() * 8 + 5] >= 0x80,
        mem[cpu.idt.base + interrupt.number() * 8 + 5] % 16 == 0xE || mem[cpu.idt.base
            + interrupt.number() * 8 + 5] % 16 == 0xF,
    ensures
        ({
            let at = cpu.idt.base + interrupt.number() * 8;
            let b = mem.subrange(at, at + 8);
            let allowed = !(interrupt is SoftwareInterrupt) || b[5] / 0x20 % 4 >= cpu.level();
            match gate_of(cpu, mem, interrupt) {
                Ok(g) => {
                    &&& allowed
                    &&& g.offset == b[0] + 0x100 * b[1] + 0x1_0000 * b[6] + 0x100_0000 * b[7]
                    &&& g.segment_selector == b[2] + 0x100 * b[3]
                    &&& g.kind() == (if b[5] % 16 == 0xE {
                        GateType::Interrupt
                    } else {
                        GateType::Trap
                    })
                },
                Err(e) => !allowed && e == Fault::Exception(
                    Exception::GeneralProtectionFault((interrupt.number() * 8 + 2) as u16),
                ),
            }
        }),
{
    reveal(gate_of);
    let at: int = cpu.idt.base + interrupt.number() * 8;
    let b = mem.subrange(at, at + 8);
    let t = mem.skip(at);
    assert(forall|i: int| 0 <= i < 8 ==> t[i] == b[i]);
    assert(t.skip(4)[0] == b[4] && t.skip(4)[1] == b[5] && t.skip(4)[2] == b[6] && t.skip(4)[3]
        == b[7]);
    assert(at % 0x1_0000_0000 == at);
    assert(read64(mem, at) == Some(crate::system::eight_bytes(b)));
    crate::system::gate_fields_have_their_places(b);
}

/// A handler starts at the segment and offset that its descriptor holds. One for interrupts turns
/// them off, one for traps leaves them as they are.
pub proof fn handlers_start_at_their_gates(core: Core, mem: Seq<u8>, gate: GateDescriptor)
    requires
        at_handler(core, mem, gate).result is Ok,
        gate.access_byte % 16 == 0xE || gate.access_byte % 16 == 0xF,
    ensures
        ({
            let after = at_handler(core, mem, gate).core.cpu;
            &&& after.ip == gate.offset
            &&& after.cs.selector == gate.segment_selector
            &&& gate.access_byte % 16 == 0xE ==> !after.flags.if_
            &&& gate.access_byte % 16 == 0xF ==> after.flags.if_ == core.cpu.flags.if_
            &&& !after.flags.rf
            &&& after.sp == core.cpu.sp && after.ss == core.cpu.ss
            &&& after.ax == core.cpu.ax && after.bx == core.cpu.bx && after.cx == core.cpu.cx
            &&& after.dx == core.cpu.dx && after.si == core.cpu.si && after.di == core.cpu.di
            &&& after.bp == core.cpu.bp && after.ds == core.cpu.ds && after.es == core.cpu.es
        }),
{
    reveal(at_handler);
}

/// The stack for a privilege level below 3 comes from the task: four bytes of pointer at 4 plus eight
/// times the level, and two bytes of selector behind them.
pub proof fn stacks_come_from_the_task(core: Core, mem: Seq<u8>, level: u8)
    requires
        level < 3,
        core.cpu.tss.base + 12 + 8 * level <= mem.len(),
        on_stack_of(core, mem, level).result is Ok,
    ensures
        ({
            let at = core.cpu.tss.base + 4 + 8 * level;
            let after = on_stack_of(core, mem, level).core.cpu;
            &&& after.sp == mem[at] + 0x100 * mem[at + 1] + 0x1_0000 * mem[at + 2] + 0x100_0000
                * mem[at + 3]
            &&& after.ss.selector == mem[at + 4] + 0x100 * mem[at + 5]
            &&& after.cs == core.cpu.cs && after.ip == core.cpu.ip
        }),
{
    reveal(on_stack_of);
    let at: int = core.cpu.tss.base + 4 + 8 * level;
    assert(mem.skip(at)[0] == mem[at] && mem.skip(at)[1] == mem[at + 1] && mem.skip(at)[2] == mem[at
        + 2] && mem.skip(at)[3] == mem[at + 3]);
    assert(mem.skip(at + 4)[0] == mem[at + 4] && mem.skip(at + 4)[1] == mem[at + 5]);
}

} // verus!
