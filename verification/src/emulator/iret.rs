//! Return from interrupts.
use vstd::prelude::*;

use crate::emulator::segments::{
    committed, descriptor_of, fatal, fault, loaded, marked, segment_of, Core, Fatal, Fault,
    Outcome, PreparedSegment,
};
use crate::emulator::entry::{
    announced, at_handler, entered, entered_protected, entered_real, finished, frame, gate_of,
    pushes, stacked,
};
use crate::emulator::stack::{
    address_mask, lemma_after_pushes, pops_undo_pushes, stored, three_words_go_below_the_stack,
    StackTransaction,
};
use crate::emulator::state::{
    compute_effective_cpl, effective_cpl, flag_bits, flags_value, lemma_flag_bits, loaded_flags,
    unpack_flags, unpacked_flags, Flags, SegReg, State,
};
use crate::mem::{read16, Memory};
use crate::system::{
    access_direction, access_dpl, access_executable, access_is_segment, sizes_of, Db, Descriptor,
    Exception, Interrupt, SegmentSelector,
};

verus! {

/// The part of a stack value that a selector is made of.
pub open spec fn low16(v: u32) -> u16 {
    (v % 0x1_0000) as u16
}

/// A selector without its privilege level, as it stands in error codes.
pub open spec fn code_of(selector: u16) -> u16 {
    (selector - selector % 4) as u16
}

/// The processor after several segments were loaded.
pub open spec fn committed_all(core: Core, segments: Seq<PreparedSegment>) -> Core
    decreases segments.len(),
{
    if segments.len() == 0 {
        core
    } else {
        committed(committed_all(core, segments.drop_last()), segments.last())
    }
}

/// The last part of a return: the segments are loaded, and the registers get their new values.
pub open spec fn returned_to(
    core: Core,
    mem: Seq<u8>,
    t: StackTransaction,
    ip: u32,
    cs: u16,
    segments: Seq<PreparedSegment>,
    sp: Option<u32>,
    cpl: Option<u8>,
) -> Outcome {
    match segment_of(core, mem, SegReg::Cs, cs) {
        Ok(p) => {
            let there = committed_all(committed(core, p), segments);
            Outcome {
                core: Core {
                    cpu: State {
                        ip,
                        sp: match sp {
                            Some(sp) => sp,
                            None => t.esp,
                        },
                        cpl: match cpl {
                            Some(level) => effective_cpl(level),
                            None => there.cpu.cpl,
                        },
                        ..there.cpu
                    },
                    ..there
                },
                mem: marked(core, mem, cs),
                result: Ok(()),
            }
        },
        Err(e) => Outcome { core, mem: marked(core, mem, cs), result: Err(e) },
    }
}

/// A segment as it is loaded in virtual 8086 mode.
pub open spec fn vm_segment(seg: SegReg, selector: u16) -> PreparedSegment {
    PreparedSegment {
        seg,
        selector: SegmentSelector { value: selector },
        descriptor: Descriptor::real_mode(selector),
        protected_mode: false,
    }
}

/// Return to virtual 8086 mode: the stack and the data segments are on the stack too.
pub open spec fn returned_to_vm(
    core: Core,
    mem: Seq<u8>,
    t: StackTransaction,
    ip: u32,
    cs: u16,
) -> Outcome {
    match t.popped(mem, 6) {
        Some(v) => returned_to(
            core,
            mem,
            t.after_pops(6),
            ip,
            cs,
            seq![
                vm_segment(SegReg::Es, low16(v[2])),
                vm_segment(SegReg::Ds, low16(v[3])),
                vm_segment(SegReg::Fs, low16(v[4])),
                vm_segment(SegReg::Gs, low16(v[5])),
                vm_segment(SegReg::Ss, low16(v[1])),
            ],
            Some(low16(v[0]) as u32),
            Some(3),
        ),
        None => Outcome { core, mem, result: fatal(Fatal::Unreadable) },
    }
}

/// What a code segment must be for a return to it.
pub open spec fn check_target(core: Core, mem: Seq<u8>, cs: u16) -> Result<(), Fault> {
    let s = SegmentSelector { value: cs };
    if s.null() {
        fault(Exception::GeneralProtectionFault(0))
    } else if s.level() < core.cpu.level() {
        fault(Exception::GeneralProtectionFault(code_of(cs)))
    } else {
        match descriptor_of(core.cpu, mem, s) {
            Err(e) => Err(e),
            Ok(d) => {
                let a = d.access_byte;
                if !access_is_segment(a) || !access_executable(a) {
                    fault(Exception::GeneralProtectionFault(code_of(cs)))
                } else if access_direction(a) && access_dpl(a) > s.level() {
                    fault(Exception::GeneralProtectionFault(code_of(cs)))
                } else if !access_direction(a) && access_dpl(a) != s.level() {
                    fault(Exception::GeneralProtectionFault(code_of(cs)))
                } else {
                    Ok(())
                }
            },
        }
    }
}

/// Return to an outer privilege level, whose stack is on the stack too.
pub open spec fn returned_outward(
    core: Core,
    mem: Seq<u8>,
    t: StackTransaction,
    ip: u32,
    cs: u16,
) -> Outcome {
    match t.popped(mem, 2) {
        Some(v) => {
            let ss = low16(v[1]);
            let s = SegmentSelector { value: ss };
            if s.null() {
                Outcome { core, mem, result: fault(Exception::GeneralProtectionFault(0)) }
            } else {
                match descriptor_of(core.cpu, mem, s) {
                    Err(e) => Outcome { core, mem, result: Err(e) },
                    Ok(d) => if s.level() != (SegmentSelector { value: cs }).level() {
                        Outcome {
                            core,
                            mem,
                            result: fault(Exception::GeneralProtectionFault(code_of(ss))),
                        }
                    } else {
                        let mask = address_mask(d.db());
                        let sp = (v[0] & mask) | (core.cpu.sp & !mask);
                        match segment_of(core, mem, SegReg::Ss, ss) {
                            Ok(p) => returned_to(
                                core,
                                marked(core, mem, ss),
                                t.after_pops(2),
                                ip,
                                cs,
                                seq![p],
                                Some(sp),
                                None,
                            ),
                            Err(e) => Outcome {
                                core,
                                mem: marked(core, mem, ss),
                                result: Err(e),
                            },
                        }
                    },
                }
            }
        },
        None => Outcome { core, mem, result: fatal(Fatal::Unreadable) },
    }
}

/// The processor after a return from an interrupt.
#[verifier::opaque]
pub open spec fn returned(core: Core, mem: Seq<u8>, op_size: Db) -> Outcome {
    let vm = core.cpu.flags.vm;
    let upper = core.protected_mode && op_size == Db::Protected32 && !vm;
    let sized = Core { op_size, ..core };
    let start = StackTransaction::begin(core.cpu.ss.ar.db(), op_size, core.cpu);
    match start.popped(mem, 3) {
        None => Outcome { core: sized, mem, result: fatal(Fatal::Unreadable) },
        Some(v) => {
            let ip = v[0];
            let cs = low16(v[1]);
            let t = start.after_pops(3);
            let flagged = Core { cpu: unpacked_flags(core.cpu, v[2], upper, vm), ..sized };
            if core.protected_mode && !vm && flagged.cpu.flags.vm {
                returned_to_vm(flagged, mem, t, ip, cs)
            } else if core.protected_mode && !flagged.cpu.flags.vm {
                let check = check_target(flagged, mem, cs);
                if check is Err {
                    Outcome { core: flagged, mem, result: check }
                } else if (SegmentSelector { value: cs }).level() > flagged.cpu.level() {
                    returned_outward(flagged, mem, t, ip, cs)
                } else {
                    returned_to(flagged, mem, t, ip, cs, Seq::empty(), None, None)
                }
            } else {
                returned_to(flagged, mem, t, ip, cs, Seq::empty(), None, None)
            }
        },
    }
}

/// Takes several values from the stack.
fn pop_values(t: &mut StackTransaction, mem: &Memory, n: usize) -> (r: Option<Vec<u32>>)
    ensures
        match old(t).popped(mem@, n as nat) {
            Some(vals) => r is Some && r->Some_0@ == vals && *final(t) == old(t).after_pops(
                n as nat,
            ),
            None => r is None,
        },
{
    let ghost start = *t;
    let mut vals: Vec<u32> = Vec::new();
    while vals.len() < n
        invariant
            start == *old(t),
            vals.len() <= n,
            *t == start.after_pops(vals.len() as nat),
            start.popped(mem@, vals.len() as nat) == Some(vals@),
        decreases n - vals.len(),
    {
        let ghost count = vals.len() as nat;
        match t.pop(mem) {
            Some(v) => {
                vals.push(v);
            },
            None => {
                proof {
                    assert(start.popped(mem@, count + 1) is None);
                    lemma_popped_prefix(start, mem@, count + 1, n as nat);
                }
                return None;
            },
        }
    }
    Some(vals)
}

proof fn lemma_popped_prefix(t: StackTransaction, mem: Seq<u8>, a: nat, b: nat)
    requires
        a <= b,
        t.popped(mem, a) is None,
    ensures
        t.popped(mem, b) is None,
    decreases b,
{
    if a < b {
        lemma_popped_prefix(t, mem, a, (b - 1) as nat);
    }
}

impl Core {
    fn commit_all(&mut self, segments: &Vec<PreparedSegment>)
        ensures
            *final(self) == committed_all(*old(self), segments@),
    {
        let ghost start = *self;
        let mut i: usize = 0;
        assert(segments@.take(0) =~= Seq::empty());
        while i < segments.len()
            invariant
                i <= segments.len(),
                *self == committed_all(start, segments@.take(i as int)),
            decreases segments.len() - i,
        {
            self.commit(segments[i]);
            assert(segments@.take(i + 1).drop_last() =~= segments@.take(i as int));
            i += 1;
        }
        assert(segments@.take(i as int) =~= segments@);
    }

    fn return_to(
        &mut self,
        mem: &mut Memory,
        t: StackTransaction,
        ip: u32,
        cs: u16,
        segments: &Vec<PreparedSegment>,
        sp: Option<u32>,
        cpl: Option<u8>,
    ) -> (r: Result<(), Fault>)
        ensures
            returned_to(*old(self), old(mem)@, t, ip, cs, segments@, sp, cpl).is(
                *final(self),
                final(mem)@,
                r,
            ),
    {
        match self.prepare_segment(mem, SegReg::Cs, cs) {
            Ok(p) => {
                self.commit(p);
                self.commit_all(segments);
                let sp: u32 = match sp {
                    Some(sp) => sp,
                    None => t.esp,
                };
                let cpl: u32 = match cpl {
                    Some(level) => compute_effective_cpl(level),
                    None => self.cpu.cpl,
                };
                *self = Core { cpu: State { ip, sp, cpl, ..self.cpu }, ..*self };
                Ok(())
            },
            Err(e) => Err(e),
        }
    }

    fn vm_segment(seg: SegReg, selector: u16) -> (r: PreparedSegment)
        ensures
            r == vm_segment(seg, selector),
    {
        PreparedSegment {
            seg,
            selector: SegmentSelector { value: selector },
            descriptor: Descriptor::from_real_mode_selector(selector),
            protected_mode: false,
        }
    }

    fn return_to_vm(&mut self, mem: &mut Memory, start: StackTransaction, ip: u32, cs: u16) -> (r:
        Result<(), Fault>)
        ensures
            returned_to_vm(*old(self), old(mem)@, start, ip, cs).is(*final(self), final(mem)@, r),
    {
        let mut t = start;
        match pop_values(&mut t, mem, 6) {
            Some(v) => {
                proof {
                    lemma_popped_len(start, mem@, 6);
                }
                let mut segments: Vec<PreparedSegment> = Vec::new();
                segments.push(Self::vm_segment(SegReg::Es, (v[2] % 0x1_0000) as u16));
                segments.push(Self::vm_segment(SegReg::Ds, (v[3] % 0x1_0000) as u16));
                segments.push(Self::vm_segment(SegReg::Fs, (v[4] % 0x1_0000) as u16));
                segments.push(Self::vm_segment(SegReg::Gs, (v[5] % 0x1_0000) as u16));
                segments.push(Self::vm_segment(SegReg::Ss, (v[1] % 0x1_0000) as u16));
                assert(segments@ =~= seq![
                    vm_segment(SegReg::Es, low16(v[2])),
                    vm_segment(SegReg::Ds, low16(v[3])),
                    vm_segment(SegReg::Fs, low16(v[4])),
                    vm_segment(SegReg::Gs, low16(v[5])),
                    vm_segment(SegReg::Ss, low16(v[1])),
                ]);
                self.return_to(mem, t, ip, cs, &segments, Some(v[0] % 0x1_0000), Some(3))
            },
            None => Err(Fault::Fatal(Fatal::Unreadable)),
        }
    }

    fn check_return_target(&self, mem: &Memory, cs: u16) -> (r: Result<(), Fault>)
        ensures
            r == check_target(*self, mem@, cs),
    {
        let selector = SegmentSelector { value: cs };
        if selector.is_null() {
            return Err(Fault::Exception(Exception::GeneralProtectionFault(0)));
        }
        let refused = Err(Fault::Exception(Exception::GeneralProtectionFault(cs - cs % 4)));
        if selector.rpl() < self.cpu.current_level() {
            return refused;
        }
        match self.load_descriptor(mem, selector) {
            Err(e) => Err(e),
            Ok(d) => {
                let a: u8 = d.access_byte;
                if a / 0x10 % 2 == 0 || a / 8 % 2 == 0 {
                    return refused;
                }
                if a / 4 % 2 == 1 {
                    if a / 0x20 % 4 > selector.rpl() {
                        return refused;
                    }
                } else if a / 0x20 % 4 != selector.rpl() {
                    return refused;
                }
                Ok(())
            },
        }
    }

    fn return_outward(&mut self, mem: &mut Memory, start: StackTransaction, ip: u32, cs: u16) -> (r:
        Result<(), Fault>)
        ensures
            returned_outward(*old(self), old(mem)@, start, ip, cs).is(*final(self), final(mem)@, r),
    {
        let mut t = start;
        match pop_values(&mut t, mem, 2) {
            Some(v) => {
                proof {
                    lemma_popped_len(start, mem@, 2);
                }
                let ss: u16 = (v[1] % 0x1_0000) as u16;
                let selector = SegmentSelector { value: ss };
                if selector.is_null() {
                    return Err(Fault::Exception(Exception::GeneralProtectionFault(0)));
                }
                let descriptor = match self.load_descriptor(mem, selector) {
                    Ok(descriptor) => descriptor,
                    Err(e) => {
                        return Err(e);
                    },
                };
                let target = SegmentSelector { value: cs };
                if selector.rpl() != target.rpl() {
                    return Err(
                        Fault::Exception(Exception::GeneralProtectionFault(ss - ss % 4)),
                    );
                }
                let mask: u32 = match descriptor.size() {
                    Db::Protected16 => 0xffff,
                    Db::Protected32 => 0xffff_ffff,
                };
                let sp: u32 = (v[0] & mask) | (self.cpu.sp & !mask);
                match self.prepare_segment(mem, SegReg::Ss, ss) {
                    Ok(p) => {
                        let mut segments: Vec<PreparedSegment> = Vec::new();
                        segments.push(p);
                        assert(segments@ =~= seq![p]);
                        self.return_to(mem, t, ip, cs, &segments, Some(sp), None)
                    },
                    Err(e) => Err(e),
                }
            },
            None => Err(Fault::Fatal(Fatal::Unreadable)),
        }
    }

    /// Returns from an interrupt: takes the return address and the flags from the stack.
    pub fn iret(&mut self, mem: &mut Memory, op_size: Db) -> (r: Result<(), Fault>)
        ensures
            returned(*old(self), old(mem)@, op_size).is(*final(self), final(mem)@, r),
    {
        proof {
            reveal(returned);
        }
        self.op_size = op_size;
        let vm = self.cpu.flags.vm;
        let upper = self.protected_mode && matches!(op_size, Db::Protected32) && !vm;
        let mut t = StackTransaction::new(self.cpu.read_ss_size(), op_size, &self.cpu);
        let ghost start = t;
        let v = match pop_values(&mut t, mem, 3) {
            Some(v) => v,
            None => {
                return Err(Fault::Fatal(Fatal::Unreadable));
            },
        };
        proof {
            lemma_popped_len(start, mem@, 3);
        }
        let ip: u32 = v[0];
        let cs: u16 = (v[1] % 0x1_0000) as u16;
        unpack_flags(&mut self.cpu, v[2], upper, vm);
        let none: Vec<PreparedSegment> = Vec::new();
        assert(none@ =~= Seq::empty());
        if self.protected_mode && !vm && self.cpu.flags.vm {
            return self.return_to_vm(mem, t, ip, cs);
        }
        if self.protected_mode && !self.cpu.flags.vm {
            match self.check_return_target(mem, cs) {
                Ok(_) => {},
                Err(e) => {
                    return Err(e);
                },
            }
            let selector = SegmentSelector { value: cs };
            if selector.rpl() > self.cpu.current_level() {
                return self.return_outward(mem, t, ip, cs);
            }
        }
        self.return_to(mem, t, ip, cs, &none, None, None)
    }
}

proof fn lemma_popped_len(t: StackTransaction, mem: Seq<u8>, n: nat)
    ensures
        t.popped(mem, n) matches Some(v) ==> v.len() == n,
    decreases n,
{
    if n > 0 {
        lemma_popped_len(t, mem, (n - 1) as nat);
    }
}

proof fn lemma_saved_bits(
    a: u32,
    b: u32,
    c: u32,
    d: u32,
    e: u32,
    h: u32,
    i: u32,
    j: u32,
    k: u32,
    l: u32,
    high: u32,
    iopl: u8,
    extra: u32,
)
    requires
        a & !0x1u32 == 0,
        b & !0x4u32 == 0,
        c & !0x10u32 == 0,
        d & !0x40u32 == 0,
        e & !0x80u32 == 0,
        h & !0x100u32 == 0,
        i & !0x200u32 == 0,
        j & !0x400u32 == 0,
        k & !0x800u32 == 0,
        l & !0x4000u32 == 0,
        high & 0xffffu32 == 0,
        extra & 0xffffu32 == 0,
    ensures
        ({
            let all = (2u32 | a | b | c | d | e) | (h | i | j | k | l) | high | ((iopl as u32 & 3u32)
                << 12u32);
            let n = ((all | extra) % 0x1_0000) as u32;
            &&& n & 0x1 == a
            &&& n & 0x4 == b
            &&& n & 0x10 == c
            &&& n & 0x40 == d
            &&& n & 0x80 == e
            &&& n & 0x100 == h
            &&& n & 0x200 == i
            &&& n & 0x400 == j
            &&& n & 0x800 == k
            &&& n & 0x4000 == l
            &&& ((n >> 12u32) & 3u32) as u8 == iopl & 3u8
        }),
{
    let all = (2u32 | a | b | c | d | e) | (h | i | j | k | l) | high | ((iopl as u32 & 3u32)
        << 12u32);
    let n = ((all | extra) % 0x1_0000) as u32;
    assert(n & 0x1 == a && n & 0x4 == b && n & 0x10 == c && n & 0x40 == d && n & 0x80 == e && n
        & 0x100 == h && n & 0x200 == i && n & 0x400 == j && n & 0x800 == k && n & 0x4000 == l && ((n
        >> 12u32) & 3u32) as u8 == iopl & 3u8) by (bit_vector)
        requires
            n == ((all | extra) % 0x1_0000) as u32,
            all == (2u32 | a | b | c | d | e) | (h | i | j | k | l) | high | ((iopl as u32 & 3u32)
                << 12u32),
            high & 0xffffu32 == 0,
            extra & 0xffffu32 == 0,
            a & !0x1u32 == 0,
            b & !0x4u32 == 0,
            c & !0x10u32 == 0,
            d & !0x40u32 == 0,
            e & !0x80u32 == 0,
            h & !0x100u32 == 0,
            i & !0x200u32 == 0,
            j & !0x400u32 == 0,
            k & !0x800u32 == 0,
            l & !0x4000u32 == 0,
    ;
}

proof fn lemma_upper_bits(p: u32, q: u32, r: u32, s: u32, t: u32, u: u32)
    requires
        p & !0x1_0000u32 == 0,
        q & !0x2_0000u32 == 0,
        r & !0x4_0000u32 == 0,
        s & !0x8_0000u32 == 0,
        t & !0x10_0000u32 == 0,
        u & !0x20_0000u32 == 0,
    ensures
        (p | q | r | s | t | u) & 0xffffu32 == 0,
{
    assert((p | q | r | s | t | u) & 0xffffu32 == 0) by (bit_vector)
        requires
            p & !0x1_0000u32 == 0,
            q & !0x2_0000u32 == 0,
            r & !0x4_0000u32 == 0,
            s & !0x8_0000u32 == 0,
            t & !0x10_0000u32 == 0,
            u & !0x20_0000u32 == 0,
    ;
}

proof fn lemma_loaded_bits(f: Flags, g: Flags, n: u32)
    requires
        g.vm == f.vm && g.ac == f.ac && g.vif == f.vif && g.vip == f.vip && g.id == f.id,
        (n & 0x1 != 0) == f.cf,
        (n & 0x4 != 0) == f.pf,
        (n & 0x10 != 0) == f.af,
        (n & 0x40 != 0) == f.zf,
        (n & 0x80 != 0) == f.sf,
        (n & 0x100 != 0) == f.tf,
        (n & 0x200 != 0) == f.if_,
        (n & 0x400 != 0) == f.df,
        (n & 0x800 != 0) == f.of,
        (n & 0x4000 != 0) == f.nt,
    ensures
        loaded_flags(g, n, false, false) == (Flags { rf: g.rf, ..f }),
{
    reveal(loaded_flags);
}

spec fn upper_bits(f: Flags) -> u32 {
    flag_bits(f.rf, 0x1_0000) | flag_bits(f.vm, 0x2_0000) | flag_bits(f.ac, 0x4_0000) | flag_bits(
        f.vif,
        0x8_0000,
    ) | flag_bits(f.vip, 0x10_0000) | flag_bits(f.id, 0x20_0000)
}

proof fn lemma_upper(f: Flags)
    ensures
        upper_bits(f) & 0xffffu32 == 0,
{
    lemma_flag_bits(f.rf, 0x1_0000);
    lemma_flag_bits(f.vm, 0x2_0000);
    lemma_flag_bits(f.ac, 0x4_0000);
    lemma_flag_bits(f.vif, 0x8_0000);
    lemma_flag_bits(f.vip, 0x10_0000);
    lemma_flag_bits(f.id, 0x20_0000);
    lemma_upper_bits(
        flag_bits(f.rf, 0x1_0000),
        flag_bits(f.vm, 0x2_0000),
        flag_bits(f.ac, 0x4_0000),
        flag_bits(f.vif, 0x8_0000),
        flag_bits(f.vip, 0x10_0000),
        flag_bits(f.id, 0x20_0000),
    );
}

proof fn lemma_saved_value(f: Flags, iopl: u8, extra: u32, n: u32)
    requires
        extra & 0xffffu32 == 0,
        n == ((flags_value(f, iopl) | extra) % 0x1_0000) as u32,
    ensures
        (n & 0x1 != 0) == f.cf,
        (n & 0x4 != 0) == f.pf,
        (n & 0x10 != 0) == f.af,
        (n & 0x40 != 0) == f.zf,
        (n & 0x80 != 0) == f.sf,
        (n & 0x100 != 0) == f.tf,
        (n & 0x200 != 0) == f.if_,
        (n & 0x400 != 0) == f.df,
        (n & 0x800 != 0) == f.of,
        (n & 0x4000 != 0) == f.nt,
        ((n >> 12u32) & 3u32) as u8 == iopl & 3u8,
{
    let high = upper_bits(f);
    lemma_upper(f);
    let v_cf = flag_bits(f.cf, 0x1);
    let v_pf = flag_bits(f.pf, 0x4);
    let v_af = flag_bits(f.af, 0x10);
    let v_zf = flag_bits(f.zf, 0x40);
    let v_sf = flag_bits(f.sf, 0x80);
    let v_tf = flag_bits(f.tf, 0x100);
    let v_if_ = flag_bits(f.if_, 0x200);
    let v_df = flag_bits(f.df, 0x400);
    let v_of = flag_bits(f.of, 0x800);
    let v_nt = flag_bits(f.nt, 0x4000);
    lemma_flag_bits(f.cf, 0x1);
    lemma_flag_bits(f.pf, 0x4);
    lemma_flag_bits(f.af, 0x10);
    lemma_flag_bits(f.zf, 0x40);
    lemma_flag_bits(f.sf, 0x80);
    lemma_flag_bits(f.tf, 0x100);
    lemma_flag_bits(f.if_, 0x200);
    lemma_flag_bits(f.df, 0x400);
    lemma_flag_bits(f.of, 0x800);
    lemma_flag_bits(f.nt, 0x4000);
    assert(flags_value(f, iopl) == (2u32 | v_cf | v_pf | v_af | v_zf | v_sf) | (v_tf | v_if_ | v_df
        | v_of | v_nt) | high | ((iopl as u32 & 3u32) << 12u32)) by {
        reveal(flags_value);
    }
    lemma_saved_bits(
        v_cf,
        v_pf,
        v_af,
        v_zf,
        v_sf,
        v_tf,
        v_if_,
        v_df,
        v_of,
        v_nt,
        high,
        iopl,
        extra,
    );
}

/// The flags that a return in real mode finds are those that an entry has saved.
proof fn lemma_saved_flags(f: Flags, iopl: u8, extra: u32, g: Flags)
    requires
        extra == 0 || extra == 0x1_0000,
        g.vm == f.vm && g.ac == f.ac && g.vif == f.vif && g.vip == f.vip && g.id == f.id,
    ensures
        ({
            let n = stored(Db::Protected16, flags_value(f, iopl) | extra);
            &&& loaded_flags(g, n, false, false) == (Flags { rf: g.rf, ..f })
            &&& ((n >> 12u32) & 3u32) as u8 == iopl & 3u8
        }),
{
    assert(extra & 0xffffu32 == 0) by (bit_vector)
        requires
            extra == 0 || extra == 0x1_0000,
    ;
    let n = stored(Db::Protected16, flags_value(f, iopl) | extra);
    lemma_saved_value(f, iopl, extra, n);
    lemma_loaded_bits(f, g, n);
}

/// The processor in the handler of an interrupt in real mode.
#[verifier::opaque]
pub open spec fn in_handler(core: Core, new_ip: u16, new_cs: u16, sp: u32) -> Core {
    let cpu = State {
        ip: new_ip as u32,
        cs: loaded(vm_segment(SegReg::Cs, new_cs)),
        sp,
        flags: Flags { if_: false, rf: false, ..core.cpu.flags },
        ..core.cpu
    };
    Core {
        cpu,
        segment_sizes: sizes_of(cpu.cs.ar.db(), cpu.ss.ar.db()),
        ..core
    }
}

pub proof fn lemma_entered_real(core: Core, mem: Seq<u8>, n: u8, vals: Seq<u32>)
    requires
        !core.protected_mode,
        entered_real(core, mem, n, vals).result is Ok,
    ensures
        ({
            let a = entered_real(core, mem, n, vals);
            let t = StackTransaction::begin(core.cpu.ss.ar.db(), core.op_size, core.cpu);
            &&& t.pushed_all(mem, vals) == Some(a.mem)
            &&& a.core == in_handler(
                core,
                read16(mem, n * 4)->Some_0,
                read16(mem, n * 4 + 2)->Some_0,
                t.after_pushes(vals.len()).esp,
            )
        }),
{
    reveal(stacked);
    reveal(entered_real);
    reveal(in_handler);
}

/// The processor after a return in real mode, from the values that were on the stack.
#[verifier::opaque]
spec fn back_in_real_mode(cpu: State, v: Seq<u32>, sp: u32) -> State {
    State {
        ip: v[0],
        cs: loaded(vm_segment(SegReg::Cs, low16(v[1]))),
        sp,
        ..unpacked_flags(cpu, v[2], false, cpu.flags.vm)
    }
}

proof fn lemma_returned_real(core: Core, mem: Seq<u8>, v: Seq<u32>)
    requires
        !core.protected_mode,
        StackTransaction::begin(core.cpu.ss.ar.db(), Db::Protected16, core.cpu).popped(mem, 3)
            == Some(v),
    ensures
        ({
            let b = returned(core, mem, Db::Protected16);
            let t = StackTransaction::begin(core.cpu.ss.ar.db(), Db::Protected16, core.cpu);
            &&& b.result is Ok
            &&& b.mem == mem
            &&& b.core.cpu == back_in_real_mode(core.cpu, v, t.after_pops(3).esp)
        }),
{
    reveal(returned);
    reveal(back_in_real_mode);
    assert(Seq::<PreparedSegment>::empty().len() == 0);
}

/// The processor that goes on after an interrupt in real mode, behind the instruction.
#[verifier::opaque]
pub open spec fn resumed(cpu: State, interrupt: Interrupt) -> State {
    State {
        ip: (((cpu.ip + interrupt.increment()) % 0x1_0000_0000) % 0x1_0000) as u32,
        cs: loaded(vm_segment(SegReg::Cs, cpu.cs.selector)),
        flags: Flags { rf: false, ..cpu.flags },
        iopl: cpu.iopl & 3u8,
        cr2: announced(cpu, interrupt).cr2,
        ..cpu
    }
}

/// A return undoes an interrupt in real mode: the registers, the stack and the flags are as they
/// were, and the instruction pointer is behind the instruction. The resume flag is clear.
pub proof fn iret_undoes_real_mode_interrupt(core: Core, mem: Seq<u8>, interrupt: Interrupt)
    requires
        !core.protected_mode,
        !core.cpu.flags.vm,
        core.op_size == Db::Protected16,
        entered(core, mem, interrupt).result is Ok,
    ensures
        ({
            let a = entered(core, mem, interrupt);
            let b = returned(a.core, a.mem, Db::Protected16);
            &&& b.result is Ok
            &&& b.mem == a.mem
            &&& b.core.cpu == resumed(core.cpu, interrupt)
        }),
{
    let n = interrupt.number();
    let noted = Core { cpu: announced(core.cpu, interrupt), ..core };
    let a = entered(core, mem, interrupt);
    lemma_entered_frame(core, mem, interrupt);
    let x = read16(mem, n * 4)->Some_0;
    let y = read16(mem, n * 4 + 2)->Some_0;
    let t = StackTransaction::begin(noted.cpu.ss.ar.db(), noted.op_size, noted.cpu);
    let sp = t.after_pushes(3).esp;
    let v = popped_frame(noted.cpu, interrupt);
    lemma_in_handler(noted, x, y, sp);
    lemma_returned_real(a.core, a.mem, v);
    lemma_frame_flags(noted.cpu, interrupt, a.core.cpu.flags);
    let b = returned(a.core, a.mem, Db::Protected16);
    let start = StackTransaction::begin(a.core.cpu.ss.ar.db(), Db::Protected16, a.core.cpu);
    lemma_restored(
        core,
        interrupt,
        a.core,
        x,
        y,
        sp,
        v,
        start.after_pops(3).esp,
        b.core.cpu,
    );
}

/// The frame of an interrupt as it is popped again.
spec fn popped_frame(cpu: State, interrupt: Interrupt) -> Seq<u32> {
    let vals = frame(cpu, interrupt);
    seq![
        stored(Db::Protected16, vals[2]),
        stored(Db::Protected16, vals[1]),
        stored(Db::Protected16, vals[0]),
    ]
}

proof fn lemma_entered_frame(core: Core, mem: Seq<u8>, interrupt: Interrupt)
    requires
        !core.protected_mode,
        core.op_size == Db::Protected16,
        entered(core, mem, interrupt).result is Ok,
    ensures
        ({
            let noted = Core { cpu: announced(core.cpu, interrupt), ..core };
            let a = entered(core, mem, interrupt);
            let n = interrupt.number();
            let t = StackTransaction::begin(noted.cpu.ss.ar.db(), noted.op_size, noted.cpu);
            let start = StackTransaction::begin(
                a.core.cpu.ss.ar.db(),
                Db::Protected16,
                a.core.cpu,
            );
            &&& a.core == in_handler(
                noted,
                read16(mem, n * 4)->Some_0,
                read16(mem, n * 4 + 2)->Some_0,
                t.after_pushes(3).esp,
            )
            &&& start.popped(a.mem, 3) == Some(popped_frame(noted.cpu, interrupt))
            &&& start.after_pops(3).esp == core.cpu.sp
        }),
{
    let noted = Core { cpu: announced(core.cpu, interrupt), ..core };
    let vals = frame(noted.cpu, interrupt);
    let a = entered(core, mem, interrupt);
    let n = interrupt.number();
    assert(a == entered_real(noted, mem, n, vals)) by {
        reveal(entered);
    }
    lemma_entered_real(noted, mem, n, vals);
    let t = StackTransaction::begin(noted.cpu.ss.ar.db(), noted.op_size, noted.cpu);
    lemma_in_handler(
        noted,
        read16(mem, n * 4)->Some_0,
        read16(mem, n * 4 + 2)->Some_0,
        t.after_pushes(3).esp,
    );
    lemma_frame_popped(noted, a.core, mem, a.mem, vals);
    assert(Seq::new(3, |k: int| stored(Db::Protected16, vals[2 - k])) =~= popped_frame(
        noted.cpu,
        interrupt,
    ));
}

proof fn lemma_in_handler(core: Core, x: u16, y: u16, sp: u32)
    ensures
        ({
            let c = in_handler(core, x, y, sp);
            &&& c.cpu.sp == sp
            &&& c.cpu.ss == core.cpu.ss
            &&& c.cpu.cpl == core.cpu.cpl
            &&& c.protected_mode == core.protected_mode
            &&& c.op_size == core.op_size
            &&& c.cpu.flags == (Flags { if_: false, rf: false, ..core.cpu.flags })
        }),
{
    reveal(in_handler);
}

#[verifier::opaque]
spec fn without_resume(f: Flags) -> Flags {
    Flags { rf: false, ..f }
}

proof fn lemma_frame_flags(cpu: State, interrupt: Interrupt, g: Flags)
    requires
        g == (Flags { if_: false, rf: false, ..cpu.flags }),
    ensures
        ({
            let n = stored(Db::Protected16, frame(cpu, interrupt)[0]);
            &&& loaded_flags(g, n, false, false) == without_resume(cpu.flags)
            &&& ((n >> 12u32) & 3u32) as u8 == cpu.iopl & 3u8
        }),
        low16(stored(Db::Protected16, frame(cpu, interrupt)[1])) == cpu.cs.selector,
        stored(Db::Protected16, frame(cpu, interrupt)[2]) == (((cpu.ip + interrupt.increment())
            % 0x1_0000_0000) % 0x1_0000) as u32,
        frame(cpu, interrupt).len() == 3,
{
    let extra = if interrupt.resumes() {
        0x1_0000u32
    } else {
        0u32
    };
    lemma_saved_flags(cpu.flags, cpu.iopl, extra, g);
    reveal(without_resume);
}

proof fn lemma_restored(
    core: Core,
    interrupt: Interrupt,
    there: Core,
    x: u16,
    y: u16,
    sp: u32,
    v: Seq<u32>,
    old_sp: u32,
    back: State,
)
    requires
        there == in_handler(Core { cpu: announced(core.cpu, interrupt), ..core }, x, y, sp),
        !core.cpu.flags.vm,
        loaded_flags(there.cpu.flags, v[2], false, false) == without_resume(
            announced(core.cpu, interrupt).flags,
        ),
        ((v[2] >> 12u32) & 3u32) as u8 == core.cpu.iopl & 3u8,
        low16(v[1]) == core.cpu.cs.selector,
        old_sp == core.cpu.sp,
        v[0] == (((core.cpu.ip + interrupt.increment()) % 0x1_0000_0000) % 0x1_0000) as u32,
        back == back_in_real_mode(there.cpu, v, old_sp),
    ensures
        back == resumed(core.cpu, interrupt),
{
    reveal(in_handler);
    reveal(back_in_real_mode);
    reveal(resumed);
    reveal(without_resume);
}

proof fn lemma_frame_popped(
    core: Core,
    there: Core,
    mem: Seq<u8>,
    after: Seq<u8>,
    vals: Seq<u32>,
)
    requires
        vals.len() == 3,
        core.op_size == Db::Protected16,
        ({
            let t = StackTransaction::begin(core.cpu.ss.ar.db(), core.op_size, core.cpu);
            &&& t.pushed_all(mem, vals) == Some(after)
            &&& there.cpu.sp == t.after_pushes(3).esp
        }),
        there.cpu.ss == core.cpu.ss,
        there.cpu.cpl == core.cpu.cpl,
    ensures
        ({
            let start = StackTransaction::begin(there.cpu.ss.ar.db(), Db::Protected16, there.cpu);
            &&& start.popped(after, 3) == Some(
                Seq::new(3, |k: int| stored(Db::Protected16, vals[2 - k])),
            )
            &&& start.after_pops(3).esp == core.cpu.sp
        }),
{
    let t = StackTransaction::begin(core.cpu.ss.ar.db(), core.op_size, core.cpu);
    lemma_after_pushes(t, 3);
    pops_undo_pushes(t, mem, vals, 3);
    let start = StackTransaction::begin(there.cpu.ss.ar.db(), Db::Protected16, there.cpu);
    assert(start == t.after_pushes(3));
    assert(Seq::new(3, |k: int| stored(t.op_size, vals[vals.len() - 1 - k])) =~= Seq::new(
        3,
        |k: int| stored(Db::Protected16, vals[2 - k]),
    ));
    assert(t.after_pushes(0) == t);
}

proof fn lemma_all_bits(
    v_cf: u32,
    v_pf: u32,
    v_af: u32,
    v_zf: u32,
    v_sf: u32,
    v_tf: u32,
    v_if_: u32,
    v_df: u32,
    v_of: u32,
    v_nt: u32,
    v_rf: u32,
    v_vm: u32,
    v_ac: u32,
    v_vif: u32,
    v_vip: u32,
    v_id: u32,
    iopl: u8,
    n: u32,
)
    requires
        n == (2u32 | v_cf | v_pf | v_af | v_zf | v_sf) | (v_tf | v_if_ | v_df | v_of | v_nt) | (v_rf | v_vm
        | v_ac | v_vif | v_vip | v_id) | ((iopl as u32 & 3u32) << 12u32),
        v_cf & !0x1u32 == 0,
        v_pf & !0x4u32 == 0,
        v_af & !0x10u32 == 0,
        v_zf & !0x40u32 == 0,
        v_sf & !0x80u32 == 0,
        v_tf & !0x100u32 == 0,
        v_if_ & !0x200u32 == 0,
        v_df & !0x400u32 == 0,
        v_of & !0x800u32 == 0,
        v_nt & !0x4000u32 == 0,
        v_rf & !0x1_0000u32 == 0,
        v_vm & !0x2_0000u32 == 0,
        v_ac & !0x4_0000u32 == 0,
        v_vif & !0x8_0000u32 == 0,
        v_vip & !0x10_0000u32 == 0,
        v_id & !0x20_0000u32 == 0,
    ensures
        n & 0x1u32 == v_cf,
        n & 0x4u32 == v_pf,
        n & 0x10u32 == v_af,
        n & 0x40u32 == v_zf,
        n & 0x80u32 == v_sf,
        n & 0x100u32 == v_tf,
        n & 0x200u32 == v_if_,
        n & 0x400u32 == v_df,
        n & 0x800u32 == v_of,
        n & 0x4000u32 == v_nt,
        n & 0x1_0000u32 == v_rf,
        n & 0x2_0000u32 == v_vm,
        n & 0x4_0000u32 == v_ac,
        n & 0x8_0000u32 == v_vif,
        n & 0x10_0000u32 == v_vip,
        n & 0x20_0000u32 == v_id,
        ((n >> 12u32) & 3u32) as u8 == iopl & 3u8,
{
    assert(n & 0x1u32 == v_cf && n & 0x4u32 == v_pf && n & 0x10u32 == v_af && n & 0x40u32 == v_zf
        && n & 0x80u32 == v_sf && n & 0x100u32 == v_tf && n & 0x200u32 == v_if_
        && n & 0x400u32 == v_df && n & 0x800u32 == v_of && n & 0x4000u32 == v_nt
        && n & 0x1_0000u32 == v_rf && n & 0x2_0000u32 == v_vm && n & 0x4_0000u32 == v_ac
        && n & 0x8_0000u32 == v_vif && n & 0x10_0000u32 == v_vip && n & 0x20_0000u32 == v_id
        && ((n >> 12u32) & 3u32) as u8 == iopl & 3u8) by (bit_vector)
        requires
            n == (2u32 | v_cf | v_pf | v_af | v_zf | v_sf) | (v_tf | v_if_ | v_df | v_of | v_nt) | (v_rf | v_vm
        | v_ac | v_vif | v_vip | v_id) | ((iopl as u32 & 3u32) << 12u32),
            v_cf & !0x1u32 == 0,
            v_pf & !0x4u32 == 0,
            v_af & !0x10u32 == 0,
            v_zf & !0x40u32 == 0,
            v_sf & !0x80u32 == 0,
            v_tf & !0x100u32 == 0,
            v_if_ & !0x200u32 == 0,
            v_df & !0x400u32 == 0,
            v_of & !0x800u32 == 0,
            v_nt & !0x4000u32 == 0,
            v_rf & !0x1_0000u32 == 0,
            v_vm & !0x2_0000u32 == 0,
            v_ac & !0x4_0000u32 == 0,
            v_vif & !0x8_0000u32 == 0,
            v_vip & !0x10_0000u32 == 0,
            v_id & !0x20_0000u32 == 0,
    ;
}

proof fn lemma_value_bits(f: Flags, iopl: u8, n: u32)
    requires
        n == flags_value(f, iopl),
    ensures
        n & 0x1u32 == flag_bits(f.cf, 0x1),
        n & 0x4u32 == flag_bits(f.pf, 0x4),
        n & 0x10u32 == flag_bits(f.af, 0x10),
        n & 0x40u32 == flag_bits(f.zf, 0x40),
        n & 0x80u32 == flag_bits(f.sf, 0x80),
        n & 0x100u32 == flag_bits(f.tf, 0x100),
        n & 0x200u32 == flag_bits(f.if_, 0x200),
        n & 0x400u32 == flag_bits(f.df, 0x400),
        n & 0x800u32 == flag_bits(f.of, 0x800),
        n & 0x4000u32 == flag_bits(f.nt, 0x4000),
        n & 0x1_0000u32 == flag_bits(f.rf, 0x1_0000),
        n & 0x2_0000u32 == flag_bits(f.vm, 0x2_0000),
        n & 0x4_0000u32 == flag_bits(f.ac, 0x4_0000),
        n & 0x8_0000u32 == flag_bits(f.vif, 0x8_0000),
        n & 0x10_0000u32 == flag_bits(f.vip, 0x10_0000),
        n & 0x20_0000u32 == flag_bits(f.id, 0x20_0000),
        ((n >> 12u32) & 3u32) as u8 == iopl & 3u8,
{
    lemma_masked_bits(f);
    assert(flags_value(f, iopl) == (2u32 | flag_bits(f.cf, 0x1) | flag_bits(f.pf, 0x4) | flag_bits(
        f.af,
        0x10,
    ) | flag_bits(f.zf, 0x40)
            | flag_bits(f.sf, 0x80)) | (flag_bits(f.tf, 0x100) | flag_bits(f.if_, 0x200) | flag_bits(
            f.df,
            0x400,
        ) | flag_bits(f.of, 0x800) | flag_bits(f.nt, 0x4000)) | (flag_bits(f.rf, 0x1_0000)
            | flag_bits(f.vm, 0x2_0000) | flag_bits(f.ac, 0x4_0000) | flag_bits(f.vif, 0x8_0000)
            | flag_bits(f.vip, 0x10_0000) | flag_bits(f.id, 0x20_0000)) | ((iopl as u32 & 3u32)
            << 12u32)) by {
        reveal(flags_value);
    }
    lemma_all_bits(
        flag_bits(f.cf, 0x1),
        flag_bits(f.pf, 0x4),
        flag_bits(f.af, 0x10),
        flag_bits(f.zf, 0x40),
        flag_bits(f.sf, 0x80),
        flag_bits(f.tf, 0x100),
        flag_bits(f.if_, 0x200),
        flag_bits(f.df, 0x400),
        flag_bits(f.of, 0x800),
        flag_bits(f.nt, 0x4000),
        flag_bits(f.rf, 0x1_0000),
        flag_bits(f.vm, 0x2_0000),
        flag_bits(f.ac, 0x4_0000),
        flag_bits(f.vif, 0x8_0000),
        flag_bits(f.vip, 0x10_0000),
        flag_bits(f.id, 0x20_0000),
        iopl,
        n,
    );
}

proof fn lemma_masked_bits(f: Flags)
    ensures
        flag_bits(f.cf, 0x1) & !0x1u32 == 0,
        flag_bits(f.pf, 0x4) & !0x4u32 == 0,
        flag_bits(f.af, 0x10) & !0x10u32 == 0,
        flag_bits(f.zf, 0x40) & !0x40u32 == 0,
        flag_bits(f.sf, 0x80) & !0x80u32 == 0,
        flag_bits(f.tf, 0x100) & !0x100u32 == 0,
        flag_bits(f.if_, 0x200) & !0x200u32 == 0,
        flag_bits(f.df, 0x400) & !0x400u32 == 0,
        flag_bits(f.of, 0x800) & !0x800u32 == 0,
        flag_bits(f.nt, 0x4000) & !0x4000u32 == 0,
        flag_bits(f.rf, 0x1_0000) & !0x1_0000u32 == 0,
        flag_bits(f.vm, 0x2_0000) & !0x2_0000u32 == 0,
        flag_bits(f.ac, 0x4_0000) & !0x4_0000u32 == 0,
        flag_bits(f.vif, 0x8_0000) & !0x8_0000u32 == 0,
        flag_bits(f.vip, 0x10_0000) & !0x10_0000u32 == 0,
        flag_bits(f.id, 0x20_0000) & !0x20_0000u32 == 0,
{
    lemma_masked(f.cf, 0x1);
    lemma_masked(f.pf, 0x4);
    lemma_masked(f.af, 0x10);
    lemma_masked(f.zf, 0x40);
    lemma_masked(f.sf, 0x80);
    lemma_masked(f.tf, 0x100);
    lemma_masked(f.if_, 0x200);
    lemma_masked(f.df, 0x400);
    lemma_masked(f.of, 0x800);
    lemma_masked(f.nt, 0x4000);
    lemma_masked(f.rf, 0x1_0000);
    lemma_masked(f.vm, 0x2_0000);
    lemma_masked(f.ac, 0x4_0000);
    lemma_masked(f.vif, 0x8_0000);
    lemma_masked(f.vip, 0x10_0000);
    lemma_masked(f.id, 0x20_0000);
}

proof fn lemma_masked(set: bool, bits: u32)
    ensures
        flag_bits(set, bits) & !bits == 0,
{
    reveal(flag_bits);
    assert(bits & !bits == 0 && 0u32 & !bits == 0) by (bit_vector);
}

proof fn lemma_loaded_lower(f: Flags, g: Flags, n: u32)
    requires
        n & 0x1u32 == flag_bits(f.cf, 0x1),
        n & 0x4u32 == flag_bits(f.pf, 0x4),
        n & 0x10u32 == flag_bits(f.af, 0x10),
        n & 0x40u32 == flag_bits(f.zf, 0x40),
        n & 0x80u32 == flag_bits(f.sf, 0x80),
        n & 0x100u32 == flag_bits(f.tf, 0x100),
        n & 0x200u32 == flag_bits(f.if_, 0x200),
        n & 0x400u32 == flag_bits(f.df, 0x400),
        n & 0x800u32 == flag_bits(f.of, 0x800),
        n & 0x4000u32 == flag_bits(f.nt, 0x4000),
    ensures
        loaded_flags(g, n, true, false).cf == f.cf,
        loaded_flags(g, n, true, false).pf == f.pf,
        loaded_flags(g, n, true, false).af == f.af,
        loaded_flags(g, n, true, false).zf == f.zf,
        loaded_flags(g, n, true, false).sf == f.sf,
        loaded_flags(g, n, true, false).tf == f.tf,
        loaded_flags(g, n, true, false).if_ == f.if_,
        loaded_flags(g, n, true, false).df == f.df,
        loaded_flags(g, n, true, false).of == f.of,
        loaded_flags(g, n, true, false).nt == f.nt,
{
    reveal(loaded_flags);
    lemma_flag_bits(f.cf, 0x1);
    lemma_flag_bits(f.pf, 0x4);
    lemma_flag_bits(f.af, 0x10);
    lemma_flag_bits(f.zf, 0x40);
    lemma_flag_bits(f.sf, 0x80);
    lemma_flag_bits(f.tf, 0x100);
    lemma_flag_bits(f.if_, 0x200);
    lemma_flag_bits(f.df, 0x400);
    lemma_flag_bits(f.of, 0x800);
    lemma_flag_bits(f.nt, 0x4000);
}

proof fn lemma_loaded_upper(f: Flags, g: Flags, n: u32)
    requires
        n & 0x1_0000u32 == flag_bits(f.rf, 0x1_0000),
        n & 0x2_0000u32 == flag_bits(f.vm, 0x2_0000),
        n & 0x4_0000u32 == flag_bits(f.ac, 0x4_0000),
        n & 0x8_0000u32 == flag_bits(f.vif, 0x8_0000),
        n & 0x10_0000u32 == flag_bits(f.vip, 0x10_0000),
        n & 0x20_0000u32 == flag_bits(f.id, 0x20_0000),
    ensures
        loaded_flags(g, n, true, false).rf == f.rf,
        loaded_flags(g, n, true, false).vm == f.vm,
        loaded_flags(g, n, true, false).ac == f.ac,
        loaded_flags(g, n, true, false).vif == f.vif,
        loaded_flags(g, n, true, false).vip == f.vip,
        loaded_flags(g, n, true, false).id == f.id,
        (n & 0x1_0000 != 0) == f.rf,
{
    reveal(loaded_flags);
    lemma_flag_bits(f.rf, 0x1_0000);
    lemma_flag_bits(f.vm, 0x2_0000);
    lemma_flag_bits(f.ac, 0x4_0000);
    lemma_flag_bits(f.vif, 0x8_0000);
    lemma_flag_bits(f.vip, 0x10_0000);
    lemma_flag_bits(f.id, 0x20_0000);
}

proof fn lemma_loaded_all(f: Flags, g: Flags, n: u32)
    requires
        n & 0x1u32 == flag_bits(f.cf, 0x1),
        n & 0x4u32 == flag_bits(f.pf, 0x4),
        n & 0x10u32 == flag_bits(f.af, 0x10),
        n & 0x40u32 == flag_bits(f.zf, 0x40),
        n & 0x80u32 == flag_bits(f.sf, 0x80),
        n & 0x100u32 == flag_bits(f.tf, 0x100),
        n & 0x200u32 == flag_bits(f.if_, 0x200),
        n & 0x400u32 == flag_bits(f.df, 0x400),
        n & 0x800u32 == flag_bits(f.of, 0x800),
        n & 0x4000u32 == flag_bits(f.nt, 0x4000),
        n & 0x1_0000u32 == flag_bits(f.rf, 0x1_0000),
        n & 0x2_0000u32 == flag_bits(f.vm, 0x2_0000),
        n & 0x4_0000u32 == flag_bits(f.ac, 0x4_0000),
        n & 0x8_0000u32 == flag_bits(f.vif, 0x8_0000),
        n & 0x10_0000u32 == flag_bits(f.vip, 0x10_0000),
        n & 0x20_0000u32 == flag_bits(f.id, 0x20_0000),
    ensures
        loaded_flags(g, n, true, false) == f,
        (n & 0x1_0000 != 0) == f.rf,
{
    lemma_loaded_lower(f, g, n);
    lemma_loaded_upper(f, g, n);
}

/// All flags that an entry has saved in protected mode are found again.
proof fn lemma_kept_flags(f: Flags, iopl: u8, extra: u32, g: Flags)
    requires
        extra == 0 || (extra == 0x1_0000 && f.rf),
    ensures
        ({
            let n = flags_value(f, iopl) | extra;
            &&& loaded_flags(g, n, true, false) == f
            &&& ((n >> 12u32) & 3u32) as u8 == iopl & 3u8
        }),
{
    let v = flags_value(f, iopl);
    lemma_value_bits(f, iopl, v);
    lemma_loaded_all(f, g, v);
    assert(v | extra == v) by (bit_vector)
        requires
            extra == 0 || (extra == 0x1_0000 && v & 0x1_0000 != 0),
    ;
}

/// Whether an interrupt is handled on the stack of an inner privilege level.
pub open spec fn switches_stack(cpu: State, mem: Seq<u8>, interrupt: Interrupt) -> bool {
    match gate_of(cpu, mem, interrupt) {
        Ok(gate) => match descriptor_of(
            cpu,
            mem,
            SegmentSelector { value: gate.segment_selector },
        ) {
            Ok(d) => access_dpl(d.access_byte) < cpu.level(),
            Err(_) => false,
        },
        Err(_) => false,
    }
}

/// An entry on the same stack: the processor at the handler, with the frame pushed.
proof fn lemma_entered_here(core: Core, mem: Seq<u8>, interrupt: Interrupt, vals: Seq<u32>) -> (at:
    (Core, Seq<u8>))
    requires
        !core.cpu.flags.vm,
        !switches_stack(core.cpu, mem, interrupt),
        entered_protected(core, mem, interrupt, vals).result is Ok,
    ensures
        at.0.cpu.ss == core.cpu.ss,
        at.0.cpu.sp == core.cpu.sp,
        at.0.cpu.iopl == core.cpu.iopl,
        at.0.protected_mode == core.protected_mode,
        !at.0.cpu.flags.vm,
        entered_protected(core, mem, interrupt, vals) == stacked(at.0, at.1, vals),
{
    reveal(entered_protected);
    reveal(at_handler);
    reveal(finished);
    let gate = gate_of(core.cpu, mem, interrupt)->Ok_0;
    let outside = Core {
        cpu: State { flags: Flags { vm: false, ..core.cpu.flags }, ..core.cpu },
        ..core
    };
    let b = at_handler(outside, mem, gate);
    assert(pushes(b.core, false, false, core.cpu.ss.selector as u32, core.cpu.sp, vals) =~= vals);
    (b.core, b.mem)
}

proof fn lemma_stacked(at: Core, mem: Seq<u8>, vals: Seq<u32>)
    requires
        stacked(at, mem, vals).result is Ok,
    ensures
        ({
            let a = stacked(at, mem, vals);
            let t = StackTransaction::begin(at.cpu.ss.ar.db(), at.op_size, at.cpu);
            &&& t.pushed_all(mem, vals) == Some(a.mem)
            &&& a.core.cpu.sp == t.after_pushes(vals.len()).esp
            &&& a.core.cpu.ss == at.cpu.ss
            &&& a.core.cpu.cpl == at.cpu.cpl
            &&& a.core.cpu.flags == at.cpu.flags
            &&& a.core.cpu.iopl == at.cpu.iopl
            &&& a.core.protected_mode == at.protected_mode
            &&& a.core.op_size == at.op_size
        }),
{
    reveal(stacked);
}

proof fn lemma_returned_here(core: Core, mem: Seq<u8>, v: Seq<u32>)
    requires
        core.protected_mode,
        !core.cpu.flags.vm,
        StackTransaction::begin(core.cpu.ss.ar.db(), Db::Protected32, core.cpu).popped(mem, 3)
            == Some(v),
        !loaded_flags(core.cpu.flags, v[2], true, false).vm,
        (SegmentSelector { value: low16(v[1]) }).level() <= core.cpu.level(),
        returned(core, mem, Db::Protected32).result is Ok,
    ensures
        ({
            let b = returned(core, mem, Db::Protected32);
            let t = StackTransaction::begin(core.cpu.ss.ar.db(), Db::Protected32, core.cpu);
            &&& b.core.cpu.ip == v[0]
            &&& b.core.cpu.cs.selector == low16(v[1])
            &&& b.core.cpu.sp == t.after_pops(3).esp
            &&& b.core.cpu.ss == core.cpu.ss
            &&& b.core.cpu.flags == loaded_flags(core.cpu.flags, v[2], true, false)
            &&& b.core.cpu.iopl == ((v[2] >> 12u32) & 3u32) as u8
        }),
{
    reveal(returned);
    assert(Seq::<PreparedSegment>::empty().len() == 0);
}

/// A return undoes an interrupt in protected mode that is handled by code of 32 bits on the same
/// stack and has no error code: the instruction pointer is behind the instruction, and the code
/// segment, the stack and all flags are as they were. Faults set the resume flag.
pub proof fn iret_undoes_protected_mode_interrupt(core: Core, mem: Seq<u8>, interrupt: Interrupt)
    requires
        core.protected_mode,
        !core.cpu.flags.vm,
        interrupt.error_code() is None,
        !switches_stack(announced(core.cpu, interrupt), mem, interrupt),
        ({
            let a = entered(core, mem, interrupt);
            &&& a.result is Ok
            &&& a.core.op_size == Db::Protected32
            &&& (SegmentSelector { value: core.cpu.cs.selector }).level() <= a.core.cpu.level()
            &&& returned(a.core, a.mem, Db::Protected32).result is Ok
        }),
    ensures
        ({
            let a = entered(core, mem, interrupt);
            let b = returned(a.core, a.mem, Db::Protected32);
            &&& b.core.cpu.ip == (core.cpu.ip + interrupt.increment()) % 0x1_0000_0000
            &&& b.core.cpu.cs.selector == core.cpu.cs.selector
            &&& b.core.cpu.sp == core.cpu.sp
            &&& b.core.cpu.ss == core.cpu.ss
            &&& b.core.cpu.flags == announced(core.cpu, interrupt).flags
            &&& b.core.cpu.iopl == core.cpu.iopl & 3u8
        }),
{
    let noted = Core { cpu: announced(core.cpu, interrupt), ..core };
    let vals = frame(noted.cpu, interrupt);
    let a = entered(core, mem, interrupt);
    assert(a == entered_protected(noted, mem, interrupt, vals)) by {
        reveal(entered);
    }
    let at = lemma_entered_here(noted, mem, interrupt, vals);
    lemma_stacked(at.0, at.1, vals);
    let t = StackTransaction::begin(at.0.cpu.ss.ar.db(), at.0.op_size, at.0.cpu);
    lemma_after_pushes(t, 3);
    pops_undo_pushes(t, at.1, vals, 3);
    let start = StackTransaction::begin(a.core.cpu.ss.ar.db(), Db::Protected32, a.core.cpu);
    assert(start == t.after_pushes(3));
    let v = start.popped(a.mem, 3)->Some_0;
    assert(v[0] == vals[2] && v[1] == vals[1] && v[2] == vals[0]);
    assert(t.after_pushes(0) == t);
    let extra = if interrupt.resumes() {
        0x1_0000u32
    } else {
        0u32
    };
    lemma_kept_flags(noted.cpu.flags, noted.cpu.iopl, extra, a.core.cpu.flags);
    assert(low16(v[1]) == core.cpu.cs.selector);
    lemma_returned_here(a.core, a.mem, v);
}

/// The processor and memory can take an interrupt in real mode: words are pushed on a stack of 64
/// KiB, and the table and the stack exist.
pub open spec fn takes_real_interrupt(core: Core, mem: Seq<u8>, interrupt: Interrupt) -> bool {
    &&& !core.protected_mode
    &&& core.op_size == Db::Protected16
    &&& core.cpu.ss.ar.flags / 4 % 2 == 0
    &&& 6 <= core.cpu.sp <= 0xffff
    &&& core.cpu.ss.base + core.cpu.sp <= mem.len()
    &&& 4 * interrupt.number() + 4 <= mem.len()
}

proof fn lemma_takes_real(core: Core, mem: Seq<u8>, interrupt: Interrupt, i: int)
    requires
        takes_real_interrupt(core, mem, interrupt),
        0 <= i < mem.len(),
    ensures
        ({
            let noted = Core { cpu: announced(core.cpu, interrupt), ..core };
            let vals = frame(noted.cpu, interrupt);
            let n = interrupt.number() * 4;
            let t = StackTransaction::begin(noted.cpu.ss.ar.db(), noted.op_size, noted.cpu);
            let a = entered(core, mem, interrupt);
            &&& t.op_size == Db::Protected16 && t.mask == 0xffff && t.esp == core.cpu.sp
            &&& t.ss_base == core.cpu.ss.base
            &&& a.result is Ok
            &&& Some(a.mem) == t.pushed_all(mem, vals)
            &&& a.core == in_handler(
                noted,
                (mem[n] + 0x100 * mem[n + 1]) as u16,
                (mem[n + 2] + 0x100 * mem[n + 3]) as u16,
                (core.cpu.sp - 6) as u32,
            )
        }),
{
    let noted = Core { cpu: announced(core.cpu, interrupt), ..core };
    let vals = frame(noted.cpu, interrupt);
    let n: int = interrupt.number() * 4;
    let t = StackTransaction::begin(noted.cpu.ss.ar.db(), noted.op_size, noted.cpu);
    assert(t.mask == 0xffff && t.esp == core.cpu.sp);
    three_words_go_below_the_stack(t, mem, vals, i);
    assert(mem.skip(n)[0] == mem[n] && mem.skip(n)[1] == mem[n + 1]);
    assert(mem.skip(n + 2)[0] == mem[n + 2] && mem.skip(n + 2)[1] == mem[n + 3]);
    let a = entered_real(noted, mem, interrupt.number(), vals);
    assert(entered(core, mem, interrupt) == a) by {
        reveal(entered);
    }
    lemma_real_succeeds(noted, mem, interrupt.number(), vals);
    lemma_entered_real(noted, mem, interrupt.number(), vals);
}

/// An interrupt in real mode leads to the far pointer at four times its number: its low half is the
/// offset, its high half the segment. Six bytes are taken off the stack pointer, interrupts are off,
/// and nothing else of the registers changes, but for the address of a page fault.
pub proof fn real_mode_interrupts_follow_the_table(core: Core, mem: Seq<u8>, interrupt: Interrupt)
    requires
        takes_real_interrupt(core, mem, interrupt),
    ensures
        ({
            let a = entered(core, mem, interrupt);
            let n = interrupt.number() * 4;
            let cpu = a.core.cpu;
            &&& a.result is Ok
            &&& cpu.ip == mem[n] + 0x100 * mem[n + 1]
            &&& cpu.cs.selector == mem[n + 2] + 0x100 * mem[n + 3]
            &&& cpu.cs.base == 16 * cpu.cs.selector
            &&& cpu.sp == core.cpu.sp - 6
            &&& !cpu.flags.if_ && !cpu.flags.rf
            &&& cpu.flags == (Flags { if_: false, rf: false, ..core.cpu.flags })
            &&& cpu == (State {
                ip: cpu.ip,
                cs: cpu.cs,
                sp: cpu.sp,
                flags: cpu.flags,
                cr2: cpu.cr2,
                ..core.cpu
            })
        }),
{
    let noted = Core { cpu: announced(core.cpu, interrupt), ..core };
    let n: int = interrupt.number() * 4;
    lemma_takes_real(core, mem, interrupt, 0);
    lemma_handler_state(
        noted,
        (mem[n] + 0x100 * mem[n + 1]) as u16,
        (mem[n + 2] + 0x100 * mem[n + 3]) as u16,
        (core.cpu.sp - 6) as u32,
    );
}

/// Below the stack an interrupt in real mode leaves the flags, the segment and the offset that the
/// program goes on at, two bytes each, the low one first. Nothing else of the memory changes.
pub proof fn real_mode_interrupts_save_the_way_back(
    core: Core,
    mem: Seq<u8>,
    interrupt: Interrupt,
    i: int,
)
    requires
        takes_real_interrupt(core, mem, interrupt),
        0 <= i < mem.len(),
    ensures
        ({
            let after = entered(core, mem, interrupt).mem;
            let top = core.cpu.ss.base + core.cpu.sp;
            let back = (core.cpu.ip + interrupt.increment()) % 0x1_0000;
            let saved = frame(announced(core.cpu, interrupt), interrupt)[0];
            &&& after.len() == mem.len()
            &&& after[i] == (if i == top - 1 {
                (saved / 0x100 % 0x100) as u8
            } else if i == top - 2 {
                (saved % 0x100) as u8
            } else if i == top - 3 {
                (core.cpu.cs.selector / 0x100) as u8
            } else if i == top - 4 {
                (core.cpu.cs.selector % 0x100) as u8
            } else if i == top - 5 {
                (back / 0x100) as u8
            } else if i == top - 6 {
                (back % 0x100) as u8
            } else {
                mem[i]
            })
        }),
{
    let noted = Core { cpu: announced(core.cpu, interrupt), ..core };
    let vals = frame(noted.cpu, interrupt);
    let t = StackTransaction::begin(noted.cpu.ss.ar.db(), noted.op_size, noted.cpu);
    lemma_takes_real(core, mem, interrupt, i);
    three_words_go_below_the_stack(t, mem, vals, i);
    let sum: int = core.cpu.ip + interrupt.increment();
    let b: int = sum % 0x1_0000_0000;
    assert(b % 0x1_0000 == sum % 0x1_0000);
    assert(b % 0x100 == sum % 0x1_0000 % 0x100);
    assert(b / 0x100 % 0x100 == b % 0x1_0000 / 0x100);
}

proof fn lemma_real_succeeds(core: Core, mem: Seq<u8>, n: u8, vals: Seq<u32>)
    requires
        !core.protected_mode,
        4 * n + 4 <= mem.len(),
        StackTransaction::begin(core.cpu.ss.ar.db(), core.op_size, core.cpu).pushed_all(
            mem,
            vals,
        ) is Some,
    ensures
        entered_real(core, mem, n, vals).result is Ok,
{
    reveal(entered_real);
    reveal(stacked);
}

proof fn lemma_handler_state(core: Core, new_ip: u16, new_cs: u16, sp: u32)
    ensures
        ({
            let cpu = in_handler(core, new_ip, new_cs, sp).cpu;
            &&& cpu.ip == new_ip && cpu.cs.selector == new_cs && cpu.cs.base == 16 * new_cs
            &&& cpu.sp == sp && !cpu.flags.if_ && !cpu.flags.rf
            &&& cpu.flags == (Flags { if_: false, rf: false, ..core.cpu.flags })
            &&& cpu == (State { ip: cpu.ip, cs: cpu.cs, sp: cpu.sp, flags: cpu.flags, ..core.cpu })
        }),
{
    reveal(in_handler);
}

} // verus!
