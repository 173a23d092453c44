//! The registers and flags of the processor.
use vstd::prelude::*;

use crate::system::{AccessRights, Db};

verus! {

/// A segment register with what was loaded from the descriptor.
#[derive(Copy, Clone, Debug, PartialEq, Eq, Structural)]
pub struct Segment {
    pub selector: u16,
    pub base: u32,
    pub limit: u32,
    pub ar: AccessRights,
}

/// The segment registers.
#[derive(Copy, Clone, Debug, PartialEq, Eq, Structural)]
pub enum SegReg {
    Cs,
    Ds,
    Ss,
    Es,
    Fs,
    Gs,
}

/// A table of descriptors in memory.
#[derive(Copy, Clone, Debug, PartialEq, Eq, Structural)]
pub struct Table {
    pub base: u32,
    pub limit: u32,
}

/// The flags of one bit.
#[derive(Copy, Clone, Debug, PartialEq, Eq, Structural)]
pub struct Flags {
    pub cf: bool,
    pub pf: bool,
    pub af: bool,
    pub zf: bool,
    pub sf: bool,
    pub tf: bool,
    pub if_: bool,
    pub df: bool,
    pub of: bool,
    pub nt: bool,
    pub rf: bool,
    pub vm: bool,
    pub ac: bool,
    pub vif: bool,
    pub vip: bool,
    pub id: bool,
}

/// The registers of the floating-point unit that are compared with traces.
#[derive(Copy, Clone, Debug)]
pub struct X87 {
    pub mm: [u128; 8],
    pub top: u8,
    /// One byte for each exception.
    pub exception_flags: u64,
}

/// The state of the processor.
#[derive(Copy, Clone, Debug)]
pub struct State {
    pub ax: u32,
    pub bx: u32,
    pub cx: u32,
    pub dx: u32,
    pub si: u32,
    pub di: u32,
    pub sp: u32,
    pub bp: u32,
    pub ip: u32,
    pub cs: Segment,
    pub ds: Segment,
    pub ss: Segment,
    pub es: Segment,
    pub fs: Segment,
    pub gs: Segment,
    pub gdt: Table,
    pub idt: Table,
    pub ldt: Table,
    pub tr: u16,
    pub tss: Table,
    pub cr0: u32,
    pub cr2: u32,
    pub cr3: u32,
    pub cr4: u32,
    pub dr6: u32,
    pub dr7: u32,
    /// The privilege level, with 0x100 added where it is not 0.
    pub cpl: u32,
    pub iopl: u8,
    pub flags: Flags,
    pub x87: X87,
}

/// The value of the register that holds a privilege level.
pub open spec fn effective_cpl(cpl: u8) -> u32 {
    if cpl != 0 {
        (cpl + 0x100) as u32
    } else {
        0
    }
}

pub fn compute_effective_cpl(cpl: u8) -> (r: u32)
    ensures
        r == effective_cpl(cpl),
{
    if cpl != 0 {
        cpl as u32 + 0x100
    } else {
        0
    }
}

impl State {
    /// The privilege level.
    pub open spec fn level(&self) -> u8 {
        (self.cpl % 0x100) as u8
    }

    pub open spec fn userspace(&self) -> bool {
        self.cpl / 0x100 % 2 == 1
    }

    pub fn current_level(&self) -> (r: u8)
        ensures
            r == self.level(),
    {
        (self.cpl % 0x100) as u8
    }

    /// Whether the privilege level is not 0.
    pub fn is_userspace(&self) -> (r: bool)
        ensures
            r == self.userspace(),
    {
        self.cpl / 0x100 % 2 == 1
    }

    pub open spec fn segment(&self, seg: SegReg) -> Segment {
        match seg {
            SegReg::Cs => self.cs,
            SegReg::Ds => self.ds,
            SegReg::Ss => self.ss,
            SegReg::Es => self.es,
            SegReg::Fs => self.fs,
            SegReg::Gs => self.gs,
        }
    }

    pub open spec fn with_segment(self, seg: SegReg, value: Segment) -> State {
        match seg {
            SegReg::Cs => State { cs: value, ..self },
            SegReg::Ds => State { ds: value, ..self },
            SegReg::Ss => State { ss: value, ..self },
            SegReg::Es => State { es: value, ..self },
            SegReg::Fs => State { fs: value, ..self },
            SegReg::Gs => State { gs: value, ..self },
        }
    }

    pub fn set_segment(&mut self, seg: SegReg, value: Segment)
        ensures
            *final(self) == old(self).with_segment(seg, value),
    {
        match seg {
            SegReg::Cs => {
                self.cs = value;
            },
            SegReg::Ds => {
                self.ds = value;
            },
            SegReg::Ss => {
                self.ss = value;
            },
            SegReg::Es => {
                self.es = value;
            },
            SegReg::Fs => {
                self.fs = value;
            },
            SegReg::Gs => {
                self.gs = value;
            },
        }
    }

    pub fn read_ss_size(&self) -> (r: Db)
        ensures
            r == self.ss.ar.db(),
    {
        self.ss.ar.size()
    }

    pub fn read_cs_size(&self) -> (r: Db)
        ensures
            r == self.cs.ar.db(),
    {
        self.cs.ar.size()
    }
}

impl Default for State {
    /// All registers 0, all flags clear.
    fn default() -> (r: Self)
        ensures
            r == zero_state(r.x87),
            r.x87.mm@ == Seq::new(8, |i: int| 0u128),
            r.x87.top == 0,
            r.x87.exception_flags == 0,
    {
        let flags = Flags {
            cf: false,
            pf: false,
            af: false,
            zf: false,
            sf: false,
            tf: false,
            if_: false,
            df: false,
            of: false,
            nt: false,
            rf: false,
            vm: false,
            ac: false,
            vif: false,
            vip: false,
            id: false,
        };
        let ar = AccessRights { access_byte: 0, flags: 0, real_mode: false };
        let seg = Segment { selector: 0, base: 0, limit: 0, ar };
        let table = Table { base: 0, limit: 0 };
        let mm: [u128; 8] = [0u128;8];
        assert(mm@ =~= Seq::new(8, |i: int| 0u128));
        State {
            ax: 0,
            bx: 0,
            cx: 0,
            dx: 0,
            si: 0,
            di: 0,
            sp: 0,
            bp: 0,
            ip: 0,
            cs: seg,
            ds: seg,
            ss: seg,
            es: seg,
            fs: seg,
            gs: seg,
            gdt: table,
            idt: table,
            ldt: table,
            tr: 0,
            tss: table,
            cr0: 0,
            cr2: 0,
            cr3: 0,
            cr4: 0,
            dr6: 0,
            dr7: 0,
            cpl: 0,
            iopl: 0,
            flags,
            x87: X87 { mm, top: 0, exception_flags: 0 },
        }
    }
}

pub open spec fn no_flags() -> Flags {
    Flags {
        cf: false,
        pf: false,
        af: false,
        zf: false,
        sf: false,
        tf: false,
        if_: false,
        df: false,
        of: false,
        nt: false,
        rf: false,
        vm: false,
        ac: false,
        vif: false,
        vip: false,
        id: false,
    }
}

pub open spec fn no_segment() -> Segment {
    Segment {
        selector: 0,
        base: 0,
        limit: 0,
        ar: AccessRights { access_byte: 0, flags: 0, real_mode: false },
    }
}

pub open spec fn no_table() -> Table {
    Table { base: 0, limit: 0 }
}

pub open spec fn zero_state(x87: X87) -> State {
    State {
        ax: 0,
        bx: 0,
        cx: 0,
        dx: 0,
        si: 0,
        di: 0,
        sp: 0,
        bp: 0,
        ip: 0,
        cs: no_segment(),
        ds: no_segment(),
        ss: no_segment(),
        es: no_segment(),
        fs: no_segment(),
        gs: no_segment(),
        gdt: no_table(),
        idt: no_table(),
        ldt: no_table(),
        tr: 0,
        tss: no_table(),
        cr0: 0,
        cr2: 0,
        cr3: 0,
        cr4: 0,
        dr6: 0,
        dr7: 0,
        cpl: 0,
        iopl: 0,
        flags: no_flags(),
        x87,
    }
}

/// The bits of a flag in the register that holds all of them.
#[verifier::opaque]
pub open spec fn flag_bits(set: bool, bits: u32) -> u32 {
    if set {
        bits
    } else {
        0
    }
}

fn bits_of(set: bool, bits: u32) -> (r: u32)
    ensures
        r == flag_bits(set, bits),
{
    proof {
        reveal(flag_bits);
    }
    if set {
        bits
    } else {
        0
    }
}

pub proof fn lemma_flag_bits(set: bool, bits: u32)
    requires
        bits != 0,
    ensures
        flag_bits(set, bits) & !bits == 0,
        (flag_bits(set, bits) != 0) == set,
{
    reveal(flag_bits);
    assert(bits & !bits == 0 && 0u32 & !bits == 0) by (bit_vector);
}

/// All flags in one register. Bit 1 is always set.
#[verifier::opaque]
pub open spec fn flags_value(f: Flags, iopl: u8) -> u32 {
    let low = 2u32 | flag_bits(f.cf, 0x1) | flag_bits(f.pf, 0x4) | flag_bits(f.af, 0x10)
        | flag_bits(f.zf, 0x40) | flag_bits(f.sf, 0x80);
    let mid = flag_bits(f.tf, 0x100) | flag_bits(f.if_, 0x200) | flag_bits(f.df, 0x400)
        | flag_bits(f.of, 0x800) | flag_bits(f.nt, 0x4000);
    let high = flag_bits(f.rf, 0x1_0000) | flag_bits(f.vm, 0x2_0000) | flag_bits(f.ac, 0x4_0000)
        | flag_bits(f.vif, 0x8_0000) | flag_bits(f.vip, 0x10_0000) | flag_bits(f.id, 0x20_0000);
    low | mid | high | ((iopl as u32 & 3u32) << 12u32)
}

pub open spec fn packed_flags(cpu: State) -> u32 {
    flags_value(cpu.flags, cpu.iopl)
}

/// The flags as one register.
pub fn pack_flags(cpu: &State) -> (r: u32)
    ensures
        r == packed_flags(*cpu),
{
    proof {
        reveal(flags_value);
    }
    let f = cpu.flags;
    let low: u32 = 2u32 | bits_of(f.cf, 0x1) | bits_of(f.pf, 0x4) | bits_of(f.af, 0x10) | bits_of(
        f.zf,
        0x40,
    ) | bits_of(f.sf, 0x80);
    let mid: u32 = bits_of(f.tf, 0x100) | bits_of(f.if_, 0x200) | bits_of(f.df, 0x400) | bits_of(
        f.of,
        0x800,
    ) | bits_of(f.nt, 0x4000);
    let high: u32 = bits_of(f.rf, 0x1_0000) | bits_of(f.vm, 0x2_0000) | bits_of(f.ac, 0x4_0000)
        | bits_of(f.vif, 0x8_0000) | bits_of(f.vip, 0x10_0000) | bits_of(f.id, 0x20_0000);
    low | mid | high | ((cpu.iopl as u32 & 3u32) << 12u32)
}

/// Flags that are loaded from one register. The upper flags are only loaded where `upper` says so.
/// A return from virtual 8086 mode keeps the mode and its interrupt flags.
#[verifier::opaque]
pub open spec fn loaded_flags(f: Flags, n: u32, upper: bool, from_vm: bool) -> Flags {
    let mode = upper && !from_vm;
    Flags {
        cf: n & 0x1 != 0,
        pf: n & 0x4 != 0,
        af: n & 0x10 != 0,
        zf: n & 0x40 != 0,
        sf: n & 0x80 != 0,
        tf: n & 0x100 != 0,
        if_: n & 0x200 != 0,
        df: n & 0x400 != 0,
        of: n & 0x800 != 0,
        nt: n & 0x4000 != 0,
        rf: if upper {
            n & 0x1_0000 != 0
        } else {
            f.rf
        },
        vm: if mode {
            n & 0x2_0000 != 0
        } else {
            f.vm
        },
        ac: if upper {
            n & 0x4_0000 != 0
        } else {
            f.ac
        },
        vif: if mode {
            n & 0x8_0000 != 0
        } else {
            f.vif
        },
        vip: if mode {
            n & 0x10_0000 != 0
        } else {
            f.vip
        },
        id: if upper {
            n & 0x20_0000 != 0
        } else {
            f.id
        },
    }
}

/// The state after the flags were loaded from one register. A return from virtual 8086 mode keeps
/// the privilege level of ports.
pub open spec fn unpacked_flags(cpu: State, n: u32, upper: bool, from_vm: bool) -> State {
    State {
        flags: loaded_flags(cpu.flags, n, upper, from_vm),
        iopl: if from_vm {
            cpu.iopl
        } else {
            ((n >> 12u32) & 3u32) as u8
        },
        ..cpu
    }
}

fn pick(choice: bool, a: bool, b: bool) -> (r: bool)
    ensures
        r == if choice {
            a
        } else {
            b
        },
{
    if choice {
        a
    } else {
        b
    }
}

fn load_flags(f: Flags, n: u32, upper: bool, from_vm: bool) -> (r: Flags)
    ensures
        r == loaded_flags(f, n, upper, from_vm),
{
    proof {
        reveal(loaded_flags);
    }
    let mode = upper && !from_vm;
    Flags {
        cf: n & 0x1 != 0,
        pf: n & 0x4 != 0,
        af: n & 0x10 != 0,
        zf: n & 0x40 != 0,
        sf: n & 0x80 != 0,
        tf: n & 0x100 != 0,
        if_: n & 0x200 != 0,
        df: n & 0x400 != 0,
        of: n & 0x800 != 0,
        nt: n & 0x4000 != 0,
        rf: pick(upper, n & 0x1_0000 != 0, f.rf),
        vm: pick(mode, n & 0x2_0000 != 0, f.vm),
        ac: pick(upper, n & 0x4_0000 != 0, f.ac),
        vif: pick(mode, n & 0x8_0000 != 0, f.vif),
        vip: pick(mode, n & 0x10_0000 != 0, f.vip),
        id: pick(upper, n & 0x20_0000 != 0, f.id),
    }
}

/// Loads the flags from one register.
pub fn unpack_flags(cpu: &mut State, flags: u32, unpack_upper: bool, return_from_vm: bool)
    ensures
        *final(cpu) == unpacked_flags(*old(cpu), flags, unpack_upper, return_from_vm),
{
    cpu.flags = load_flags(cpu.flags, flags, unpack_upper, return_from_vm);
    if !return_from_vm {
        let level: u32 = (flags >> 12u32) & 3u32;
        cpu.iopl = level as u8;
    }
}

/// Flags that were loaded are stored again, except for the bits that have no flag.
pub proof fn loaded_flags_are_stored(cpu: State, n: u32)
    ensures
        packed_flags(unpacked_flags(cpu, n, true, false)) == 2u32 | (n & 0x003F_7FD5u32),
{
    reveal(flags_value);
    reveal(loaded_flags);
    let iopl = ((n >> 12u32) & 3u32) as u8;
    assert((iopl as u32 & 3u32) << 12u32 == n & 0x3000u32) by (bit_vector)
        requires
            iopl == ((n >> 12u32) & 3u32) as u8,
    ;
    lemma_low_flags(n);
    lemma_mid_flags(n);
    lemma_high_flags(n);
    let low = 2u32 | (n & 0xD5u32);
    let mid = n & 0x4F00u32;
    let high = n & 0x3F_0000u32;
    assert(low | mid | high | (n & 0x3000u32) == 2u32 | (n & 0x003F_7FD5u32)) by (bit_vector)
        requires
            low == 2u32 | (n & 0xD5u32),
            mid == n & 0x4F00u32,
            high == n & 0x3F_0000u32,
    ;
}

proof fn lemma_low_flags(n: u32)
    ensures
        2u32 | flag_bits(n & 0x1 != 0, 0x1) | flag_bits(n & 0x4 != 0, 0x4) | flag_bits(
            n & 0x10 != 0,
            0x10,
        ) | flag_bits(n & 0x40 != 0, 0x40) | flag_bits(n & 0x80 != 0, 0x80) == 2u32 | (n & 0xD5u32),
{
    reveal(flag_bits);
    assert((n & 0x1u32 == 0 || n & 0x1u32 == 0x1u32) && (n & 0x4u32 == 0 || n & 0x4u32 == 0x4u32)
        && (n & 0x10u32 == 0 || n & 0x10u32 == 0x10u32)
        && (n & 0x40u32 == 0 || n & 0x40u32 == 0x40u32)
        && (n & 0x80u32 == 0 || n & 0x80u32 == 0x80u32)) by (bit_vector);
    assert(2u32 | (n & 0x1u32) | (n & 0x4u32) | (n & 0x10u32) | (n & 0x40u32) | (n & 0x80u32) == 2u32
        | (n & 0xD5u32)) by (bit_vector);
}

proof fn lemma_mid_flags(n: u32)
    ensures
        flag_bits(n & 0x100 != 0, 0x100) | flag_bits(n & 0x200 != 0, 0x200) | flag_bits(
            n & 0x400 != 0,
            0x400,
        ) | flag_bits(n & 0x800 != 0, 0x800) | flag_bits(n & 0x4000 != 0, 0x4000) == n & 0x4F00u32,
{
    reveal(flag_bits);
    assert((n & 0x100u32 == 0 || n & 0x100u32 == 0x100u32)
        && (n & 0x200u32 == 0 || n & 0x200u32 == 0x200u32)
        && (n & 0x400u32 == 0 || n & 0x400u32 == 0x400u32)
        && (n & 0x800u32 == 0 || n & 0x800u32 == 0x800u32)
        && (n & 0x4000u32 == 0 || n & 0x4000u32 == 0x4000u32)) by (bit_vector);
    assert((n & 0x100u32) | (n & 0x200u32) | (n & 0x400u32) | (n & 0x800u32) | (n & 0x4000u32) == n
        & 0x4F00u32) by (bit_vector);
}

proof fn lemma_high_flags(n: u32)
    ensures
        flag_bits(n & 0x1_0000 != 0, 0x1_0000) | flag_bits(n & 0x2_0000 != 0, 0x2_0000) | flag_bits(
            n & 0x4_0000 != 0,
            0x4_0000,
        ) | flag_bits(n & 0x8_0000 != 0, 0x8_0000) | flag_bits(n & 0x10_0000 != 0, 0x10_0000)
            | flag_bits(n & 0x20_0000 != 0, 0x20_0000) == n & 0x3F_0000u32,
{
    reveal(flag_bits);
    assert((n & 0x1_0000u32 == 0 || n & 0x1_0000u32 == 0x1_0000u32)
        && (n & 0x2_0000u32 == 0 || n & 0x2_0000u32 == 0x2_0000u32)
        && (n & 0x4_0000u32 == 0 || n & 0x4_0000u32 == 0x4_0000u32)
        && (n & 0x8_0000u32 == 0 || n & 0x8_0000u32 == 0x8_0000u32)
        && (n & 0x10_0000u32 == 0 || n & 0x10_0000u32 == 0x10_0000u32)
        && (n & 0x20_0000u32 == 0 || n & 0x20_0000u32 == 0x20_0000u32)) by (bit_vector);
    assert((n & 0x1_0000u32) | (n & 0x2_0000u32) | (n & 0x4_0000u32) | (n & 0x8_0000u32) | (n
        & 0x10_0000u32) | (n & 0x20_0000u32) == n & 0x3F_0000u32) by (bit_vector);
}

/// The bits of the register that holds all flags.
pub proof fn flags_have_their_bits(f: Flags, n: u32, upper: bool, from_vm: bool)
    ensures
        ({
            let g = loaded_flags(f, n, upper, from_vm);
            &&& g.cf <==> n & 0x1 != 0
            &&& g.pf <==> n & 0x4 != 0
            &&& g.af <==> n & 0x10 != 0
            &&& g.zf <==> n & 0x40 != 0
            &&& g.sf <==> n & 0x80 != 0
            &&& g.tf <==> n & 0x100 != 0
            &&& g.if_ <==> n & 0x200 != 0
            &&& g.df <==> n & 0x400 != 0
            &&& g.of <==> n & 0x800 != 0
            &&& g.nt <==> n & 0x4000 != 0
        }),
{
    reveal(loaded_flags);
}

} // verus!
