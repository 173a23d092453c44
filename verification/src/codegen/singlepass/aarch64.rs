//! Code for AArch64.
use vstd::arithmetic::power2::{lemma2_to64, pow2};
use vstd::prelude::*;

use crate::bytes::{le32, le64};
use crate::codegen::singlepass::emitter::{
    lemma_append_plus, lemma_plus_within, Code, Emitter, EmitterModel, LabelInU32,
};
use crate::codegen::singlepass::{Ir, Label, Target};

verus! {

#[derive(Copy, Clone, Debug, PartialEq, Eq, Structural)]
pub enum Regs {
    X0,
    X1,
    X2,
    X3,
    X4,
    X5,
    X6,
    X7,
    X8,
    X9,
    X10,
    X11,
    X12,
    X13,
    X14,
    X15,
    X16,
    X17,
    X18,
    X19,
    X20,
    X21,
    X22,
    X23,
    X24,
    X25,
    X26,
    X27,
    X28,
}

impl Regs {
    /// The number of the register in instructions.
    pub open spec fn number_spec(&self) -> int {
        match self {
            Regs::X0 => 0,
            Regs::X1 => 1,
            Regs::X2 => 2,
            Regs::X3 => 3,
            Regs::X4 => 4,
            Regs::X5 => 5,
            Regs::X6 => 6,
            Regs::X7 => 7,
            Regs::X8 => 8,
            Regs::X9 => 9,
            Regs::X10 => 10,
            Regs::X11 => 11,
            Regs::X12 => 12,
            Regs::X13 => 13,
            Regs::X14 => 14,
            Regs::X15 => 15,
            Regs::X16 => 16,
            Regs::X17 => 17,
            Regs::X18 => 18,
            Regs::X19 => 19,
            Regs::X20 => 20,
            Regs::X21 => 21,
            Regs::X22 => 22,
            Regs::X23 => 23,
            Regs::X24 => 24,
            Regs::X25 => 25,
            Regs::X26 => 26,
            Regs::X27 => 27,
            Regs::X28 => 28,
        }
    }

    pub fn number(&self) -> (r: u32)
        ensures
            r == self.number_spec(),
            r < 32,
    {
        match self {
            Regs::X0 => 0,
            Regs::X1 => 1,
            Regs::X2 => 2,
            Regs::X3 => 3,
            Regs::X4 => 4,
            Regs::X5 => 5,
            Regs::X6 => 6,
            Regs::X7 => 7,
            Regs::X8 => 8,
            Regs::X9 => 9,
            Regs::X10 => 10,
            Regs::X11 => 11,
            Regs::X12 => 12,
            Regs::X13 => 13,
            Regs::X14 => 14,
            Regs::X15 => 15,
            Regs::X16 => 16,
            Regs::X17 => 17,
            Regs::X18 => 18,
            Regs::X19 => 19,
            Regs::X20 => 20,
            Regs::X21 => 21,
            Regs::X22 => 22,
            Regs::X23 => 23,
            Regs::X24 => 24,
            Regs::X25 => 25,
            Regs::X26 => 26,
            Regs::X27 => 27,
            Regs::X28 => 28,
        }
    }
}

/// The machine.
#[derive(Copy, Clone, Debug)]
pub struct AArch64;

/// The code of one instruction.
#[verifier::opaque]
pub open spec fn instr(word: int) -> Code {
    Code::of_bytes(le32(word as u32))
}

/// The code of an instruction with a reference to a label in it.
#[verifier::opaque]
pub open spec fn branch(label: Label, word: int, bits: usize, shift: usize) -> Code {
    Code::of_word(LabelInU32 { label, val: word as u32, bits, shift, shr: 2 })
}

fn emit_instr(e: &mut Emitter, word: u32)
    requires
        old(e).wf(),
        old(e)@.bytes.len() + 16 <= usize::MAX,
    ensures
        final(e).wf(),
        final(e)@ == old(e)@.appended(instr(word as int)),
        instr(word as int).bytes.len() == 4,
{
    proof {
        reveal(instr);
    }
    e.emit_u32(word);
}

/// Emits an instruction behind `code`, which was emitted at `m`.
fn emit_next(e: &mut Emitter, word: u32, Ghost(m): Ghost<EmitterModel>, Ghost(code): Ghost<Code>)
    requires
        old(e).wf(),
        old(e)@ == m.appended(code),
        old(e)@.bytes.len() + 16 <= usize::MAX,
    ensures
        final(e).wf(),
        final(e)@ == m.appended(code.plus(instr(word as int))),
        code.plus(instr(word as int)).bytes.len() == code.bytes.len() + 4,
{
    emit_instr(e, word);
    proof {
        reveal(instr);
        lemma_append_plus(m, code, instr(word as int));
    }
}

/// The bits of a branch of 19 bits, and of one of 26 bits, are 0 in the word.
proof fn lemma_fields(word: u32, rt: int)
    requires
        0 <= rt < 32,
    ensures
        word as int % 0x100_0000 == rt ==> LabelInU32::field_is_zero(word, 19, 5),
        word as int % 0x400_0000 == 0 ==> LabelInU32::field_is_zero(word, 26, 0),
{
    lemma2_to64();
    let w: int = word as int;
    assert(pow2(5) == 32 && pow2(19) == 0x8_0000 && pow2(26) == 0x400_0000 && pow2(0) == 1);
    if w % 0x100_0000 == rt {
        assert(w / 32 % 0x8_0000 == 0);
    }
}

fn emit_branch(e: &mut Emitter, label: Label, word: u32, bits: usize, shift: usize)
    requires
        old(e).wf(),
        old(e)@.bytes.len() + 16 <= usize::MAX,
        bits == 19 && shift == 5 || bits == 26 && shift == 0,
        LabelInU32::field_is_zero(word, bits, shift),
    ensures
        final(e).wf(),
        final(e)@ == old(e)@.appended(branch(label, word as int, bits, shift)),
        branch(label, word as int, bits, shift).bytes.len() == 4,
{
    proof {
        reveal(branch);
    }
    e.emit(LabelInU32::new(label, word, bits, shift, 2));
}

/// Emits a branch behind `code`, which was emitted at `m`.
fn emit_next_branch(
    e: &mut Emitter,
    label: Label,
    word: u32,
    bits: usize,
    shift: usize,
    Ghost(m): Ghost<EmitterModel>,
    Ghost(code): Ghost<Code>,
)
    requires
        old(e).wf(),
        old(e)@ == m.appended(code),
        old(e)@.bytes.len() + 16 <= usize::MAX,
        bits == 19 && shift == 5 || bits == 26 && shift == 0,
        LabelInU32::field_is_zero(word, bits, shift),
    ensures
        final(e).wf(),
        final(e)@ == m.appended(code.plus(branch(label, word as int, bits, shift))),
        code.plus(branch(label, word as int, bits, shift)).bytes.len() == code.bytes.len() + 4,
{
    emit_branch(e, label, word, bits, shift);
    proof {
        reveal(branch);
        lemma_append_plus(m, code, branch(label, word as int, bits, shift));
    }
}

// LDR Wt, [Xn, #imm12]
pub open spec fn ldr_w_word(into: int, base: int, offset: int) -> int {
    0xb940_0000 + offset / 4 % 0x1000 * 0x400 + base * 32 + into
}

fn ldr_w(into: u32, base: u32, offset: u32) -> (r: u32)
    requires
        into < 32,
        base < 32,
    ensures
        r == ldr_w_word(into as int, base as int, offset as int),
{
    0xb940_0000 + offset / 4 % 0x1000 * 0x400 + base * 32 + into
}

// LDR Xt, [Xn, #imm12]
pub open spec fn ldr_x_word(into: int, base: int, offset: int) -> int {
    0xf940_0000 + offset / 8 % 0x1000 * 0x400 + base * 32 + into
}

fn ldr_x(into: u32, base: u32, offset: u32) -> (r: u32)
    requires
        into < 32,
        base < 32,
    ensures
        r == ldr_x_word(into as int, base as int, offset as int),
{
    0xf940_0000 + offset / 8 % 0x1000 * 0x400 + base * 32 + into
}

// MOVZ Xd, #imm16, LSL #(16 * part)
pub open spec fn movz_word(rd: int, imm16: int, part: int) -> int {
    0xd280_0000 + part * 0x20_0000 + imm16 * 32 + rd
}

fn movz(rd: u32, imm16: u32, part: u32) -> (r: u32)
    requires
        rd < 32,
        imm16 <= 0xffff,
        part <= 3,
    ensures
        r == movz_word(rd as int, imm16 as int, part as int),
{
    0xd280_0000 + part * 0x20_0000 + imm16 * 32 + rd
}

// MOVZ Wd, #imm
pub open spec fn movz_w_word(rd: int, imm16: int) -> int {
    0x5280_0000 + imm16 * 32 + rd
}

fn movz_w(rd: u32, imm16: u32) -> (r: u32)
    requires
        rd < 32,
        imm16 <= 0xffff,
    ensures
        r == movz_w_word(rd as int, imm16 as int),
{
    0x5280_0000 + imm16 * 32 + rd
}

// MOVK Xd, #imm16, LSL #(16 * part)
pub open spec fn movk_word(rd: int, imm16: int, part: int) -> int {
    0xf280_0000 + part * 0x20_0000 + imm16 * 32 + rd
}

fn movk(rd: u32, imm16: u32, part: u32) -> (r: u32)
    requires
        rd < 32,
        imm16 <= 0xffff,
        part <= 3,
    ensures
        r == movk_word(rd as int, imm16 as int, part as int),
{
    0xf280_0000 + part * 0x20_0000 + imm16 * 32 + rd
}

// ORR Xd, XZR, Xn
pub open spec fn mov_reg_word(dst: int, src: int) -> int {
    0xaa00_0000 + src * 0x1_0000 + 31 * 32 + dst
}

fn mov_reg(dst: u32, src: u32) -> (r: u32)
    requires
        dst < 32,
        src < 32,
    ensures
        r == mov_reg_word(dst as int, src as int),
{
    0xaa00_0000 + src * 0x1_0000 + 31 * 32 + dst
}

// ADD Wd, Wn, Wm
pub open spec fn add_w_word(dst: int, src: int) -> int {
    0x0b00_0000 + src * 0x1_0000 + dst * 32 + dst
}

fn add_w(dst: u32, src: u32) -> (r: u32)
    requires
        dst < 32,
        src < 32,
    ensures
        r == add_w_word(dst as int, src as int),
{
    0x0b00_0000 + src * 0x1_0000 + dst * 32 + dst
}

// ADD Xd, Xn, #imm
pub open spec fn add_x_imm_word(dst: int, src: int, imm12: int) -> int {
    0x9100_0000 + imm12 * 0x400 + src * 32 + dst
}

fn add_x_imm(dst: u32, src: u32, imm12: u32) -> (r: u32)
    requires
        dst < 32,
        src < 32,
        imm12 <= 0xfff,
    ensures
        r == add_x_imm_word(dst as int, src as int, imm12 as int),
{
    0x9100_0000 + imm12 * 0x400 + src * 32 + dst
}

// AND Wd, Wn, #imm
pub open spec fn and_imm_w_word(rd: int, rn: int, imm: int) -> int {
    0x1200_0000 + imm % 0x1000 * 0x400 + rn * 32 + rd
}

fn and_imm_w(rd: u32, rn: u32, imm: u32) -> (r: u32)
    requires
        rd < 32,
        rn < 32,
    ensures
        r == and_imm_w_word(rd as int, rn as int, imm as int),
{
    0x1200_0000 + imm % 0x1000 * 0x400 + rn * 32 + rd
}

// CMP Wn, #imm
pub open spec fn compare_w_imm_word(rn: int, imm: int) -> int {
    0x7100_0000 + imm * 0x400 + rn * 32 + 31
}

fn compare_w_imm(rn: u32, imm: u32) -> (r: u32)
    requires
        rn < 32,
        imm <= 0xfff,
    ensures
        r == compare_w_imm_word(rn as int, imm as int),
{
    0x7100_0000 + imm * 0x400 + rn * 32 + 31
}

// CMP Xn, Xm
pub open spec fn compare_x_word(rn: int, rm: int) -> int {
    0xeb00_001f + rm * 0x1_0000 + rn * 32
}

fn compare_x(rn: u32, rm: u32) -> (r: u32)
    requires
        rn < 32,
        rm < 32,
    ensures
        r == compare_x_word(rn as int, rm as int),
{
    0xeb00_001f + rm * 0x1_0000 + rn * 32
}

// STP Xt, Xt2, [SP, #-16]!  The stack pointer moves by 16 bytes to stay aligned for calls.
pub open spec fn push2_x_word(rt: int, rt2: int) -> int {
    0xa980_0000 + 126 * 0x8000 + rt2 * 0x400 + 31 * 32 + rt
}

fn push2_x(rt: u32, rt2: u32) -> (r: u32)
    requires
        rt < 32,
        rt2 < 32,
    ensures
        r == push2_x_word(rt as int, rt2 as int),
{
    0xa980_0000 + 126 * 0x8000 + rt2 * 0x400 + 31 * 32 + rt
}

// LDP Xt, Xt2, [SP], #16
pub open spec fn pop2_x_word(rt: int, rt2: int) -> int {
    0xa8c0_0000 + 2 * 0x8000 + rt2 * 0x400 + 31 * 32 + rt
}

fn pop2_x(rt: u32, rt2: u32) -> (r: u32)
    requires
        rt < 32,
        rt2 < 32,
    ensures
        r == pop2_x_word(rt as int, rt2 as int),
{
    0xa8c0_0000 + 2 * 0x8000 + rt2 * 0x400 + 31 * 32 + rt
}

// LDAR Wt, [Xn]
pub open spec fn ldar_w_word(rt: int, rn: int) -> int {
    0x88df_fc00 + rn * 32 + rt
}

fn ldar_w(rt: u32, rn: u32) -> (r: u32)
    requires
        rt < 32,
        rn < 32,
    ensures
        r == ldar_w_word(rt as int, rn as int),
{
    0x88df_fc00 + rn * 32 + rt
}

// BLR Xt
pub open spec fn blr_word(rt: int) -> int {
    0xd63f_0000 + rt * 32
}

fn blr(rt: u32) -> (r: u32)
    requires
        rt < 32,
    ensures
        r == blr_word(rt as int),
{
    0xd63f_0000 + rt * 32
}

/// Loads an immediate, sixteen bits at a time, as far as it has bits.
#[verifier::opaque]
pub open spec fn load_imm_code(rd: int, val: u64) -> Code {
    let first = instr(movz_word(rd, val as int % 0x1_0000, 0));
    if val / 0x1_0000 == 0 {
        first
    } else {
        let second = first.plus(instr(movk_word(rd, val as int / 0x1_0000 % 0x1_0000, 1)));
        if val / 0x1_0000_0000 == 0 {
            second
        } else {
            let third = second.plus(
                instr(movk_word(rd, val as int / 0x1_0000_0000 % 0x1_0000, 2)),
            );
            if val / 0x1_0000_0000_0000 == 0 {
                third
            } else {
                third.plus(instr(movk_word(rd, val as int / 0x1_0000_0000_0000 % 0x1_0000, 3)))
            }
        }
    }
}

fn emit_load_imm(e: &mut Emitter, rd: u32, val: u64)
    requires
        old(e).wf(),
        old(e)@.bytes.len() + 32 <= usize::MAX,
        rd < 32,
    ensures
        final(e).wf(),
        final(e)@ == old(e)@.appended(load_imm_code(rd as int, val)),
        load_imm_code(rd as int, val).bytes.len() <= 16,
{
    proof {
        reveal(load_imm_code);
    }
    let ghost m = e@;
    let w0: u32 = movz(rd, (val % 0x1_0000) as u32, 0);
    emit_instr(e, w0);
    if val / 0x1_0000 == 0 {
        return ;
    }
    let ghost c0 = instr(w0 as int);
    let w1: u32 = movk(rd, (val / 0x1_0000 % 0x1_0000) as u32, 1);
    emit_next(e, w1, Ghost(m), Ghost(c0));
    if val / 0x1_0000_0000 == 0 {
        return ;
    }
    let ghost c1 = c0.plus(instr(w1 as int));
    let w2: u32 = movk(rd, (val / 0x1_0000_0000 % 0x1_0000) as u32, 2);
    emit_next(e, w2, Ghost(m), Ghost(c1));
    if val / 0x1_0000_0000_0000 == 0 {
        return ;
    }
    let ghost c2 = c1.plus(instr(w2 as int));
    let w3: u32 = movk(rd, (val / 0x1_0000_0000_0000 % 0x1_0000) as u32, 3);
    emit_next(e, w3, Ghost(m), Ghost(c2));
}

proof fn lemma_imm_within(rd: int, val: u64)
    ensures
        load_imm_code(rd, val).within(16),
{
    reveal(load_imm_code);
    reveal(instr);
    let v: int = val as int;
    let c0 = instr(movz_word(rd, v % 0x1_0000, 0));
    let i1 = instr(movk_word(rd, v / 0x1_0000 % 0x1_0000, 1));
    let i2 = instr(movk_word(rd, v / 0x1_0000_0000 % 0x1_0000, 2));
    let i3 = instr(movk_word(rd, v / 0x1_0000_0000_0000 % 0x1_0000, 3));
    lemma_plus_within(c0, i1, 4, 4);
    lemma_plus_within(c0.plus(i1), i2, 8, 4);
    lemma_plus_within(c0.plus(i1).plus(i2), i3, 12, 4);
}

/// Compares a register with an immediate.
pub open spec fn compare_code(reg: int, imm: u32) -> Code {
    if imm <= 0xfff {
        instr(compare_w_imm_word(reg, imm as int))
    } else {
        load_imm_code(16, imm as u64).plus(instr(compare_x_word(reg, 16)))
    }
}

fn emit_compare(e: &mut Emitter, reg: u32, imm: u32)
    requires
        old(e).wf(),
        old(e)@.bytes.len() + 48 <= usize::MAX,
        reg < 32,
    ensures
        final(e).wf(),
        final(e)@ == old(e)@.appended(compare_code(reg as int, imm)),
        compare_code(reg as int, imm).bytes.len() <= 20,
{
    let ghost m = e@;
    if imm <= 0xfff {
        emit_instr(e, compare_w_imm(reg, imm));
    } else {
        emit_load_imm(e, 16, imm as u64);
        emit_next(e, compare_x(reg, 16), Ghost(m), Ghost(load_imm_code(16, imm as u64)));
    }
}

impl Target for AArch64 {
    type Reg = Regs;

    open spec fn return_reg_spec() -> Regs {
        Regs::X0
    }

    open spec fn return_reg2_spec() -> Regs {
        Regs::X1
    }

    open spec fn callee_saved_spec() -> Seq<Regs> {
        seq![
            Regs::X19,
            Regs::X20,
            Regs::X21,
            Regs::X22,
            Regs::X23,
            Regs::X24,
            Regs::X25,
            Regs::X26,
            Regs::X27,
        ]
    }

    /// X16 is used by the compiler itself.
    open spec fn caller_saved_spec() -> Seq<Regs> {
        seq![
            Regs::X0,
            Regs::X1,
            Regs::X2,
            Regs::X3,
            Regs::X4,
            Regs::X5,
            Regs::X6,
            Regs::X7,
            Regs::X9,
            Regs::X10,
            Regs::X11,
            Regs::X12,
            Regs::X13,
            Regs::X14,
            Regs::X15,
            Regs::X17,
        ]
    }

    open spec fn parameter_spec() -> Seq<Regs> {
        seq![Regs::X0, Regs::X1, Regs::X2, Regs::X3]
    }

    open spec fn supports(x: Ir<AArch64>) -> bool {
        match x {
            Ir::BrIfMem32IsNonZeroAtomic { offset, .. } => offset <= 0xfff,
            Ir::BrIfMem8IsZero { .. } => false,
            Ir::AlignedDataU32 { .. } => false,
            Ir::SelectBits { .. } => false,
            Ir::ReadArrayPtrU32 { .. } => false,
            _ => true,
        }
    }

    open spec fn code(x: Ir<AArch64>) -> Code {
        match x {
            Ir::ReadU32 { into, base, offset } => instr(
                ldr_w_word(into.number_spec(), base.number_spec(), offset as int),
            ),
            Ir::ReadU64 { into, base, offset } => instr(
                ldr_x_word(into.number_spec(), base.number_spec(), offset as int),
            ),
            Ir::LoadImm { into, val } => load_imm_code(into.number_spec(), val),
            Ir::LoadImm8 { into, val } => instr(movz_w_word(into.number_spec(), val as int)),
            Ir::Load { into, from } => instr(
                mov_reg_word(into.number_spec(), from.number_spec()),
            ),
            // LDR X16, [PC + imm]; BLR X16
            Ir::CallRipRelative { label } => branch(label, 0x5800_0010, 19, 5).plus(
                instr(blr_word(16)),
            ),
            Ir::Return { val } => if val != Regs::X0 {
                instr(mov_reg_word(0, val.number_spec())).plus(instr(0xd65f_03c0))
            } else {
                instr(0xd65f_03c0)
            },
            // B rel26
            Ir::Jump { to } => branch(to, 0x1400_0000, 26, 0),
            // CBZ Xt, rel19
            Ir::BrIfReg8False { val, to } => branch(
                to,
                0xb400_0000 + val.number_spec(),
                19,
                5,
            ),
            Ir::Push { val } => instr(push2_x_word(val.number_spec(), 30)),
            Ir::Pop { into } => instr(pop2_x_word(into.number_spec(), 30)),
            Ir::BrIfMem32IsNonZeroAtomic { base, offset, to } => instr(
                add_x_imm_word(16, base.number_spec(), offset as int),
            ).plus(instr(ldar_w_word(16, 16))).plus(branch(to, 0x3500_0010, 19, 5)),
            Ir::AlignedDataU64 { val } => Code::of_bytes(le64(val)),
            Ir::AddU32 { dst, src } => instr(add_w_word(dst.number_spec(), src.number_spec())),
            Ir::BandU32Imm { reg, imm } => instr(
                and_imm_w_word(reg.number_spec(), reg.number_spec(), imm as int),
            ),
            // B.EQ label
            Ir::BrIfEqImm { reg, imm, label } => compare_code(reg.number_spec(), imm).plus(
                branch(label, 0x5400_0000, 19, 5),
            ),
            _ => Code::of_bytes(Seq::empty()),
        }
    }

    /// AArch64 uses pre-increment offsets
    open spec fn relocation_base() -> int {
        0
    }

    proof fn code_is_short(x: Ir<AArch64>) {
        reveal(instr);
        reveal(branch);
        match x {
            Ir::LoadImm { into, val } => {
                lemma_imm_within(into.number_spec(), val);
            },
            Ir::CallRipRelative { label } => {
                lemma_plus_within(branch(label, 0x5800_0010, 19, 5), instr(blr_word(16)), 4, 4);
            },
            Ir::Return { val } => {
                lemma_plus_within(
                    instr(mov_reg_word(0, val.number_spec())),
                    instr(0xd65f_03c0),
                    4,
                    4,
                );
            },
            Ir::BrIfMem32IsNonZeroAtomic { base, offset, to } => {
                let a = instr(add_x_imm_word(16, base.number_spec(), offset as int));
                let b = instr(ldar_w_word(16, 16));
                lemma_plus_within(a, b, 4, 4);
                lemma_plus_within(a.plus(b), branch(to, 0x3500_0010, 19, 5), 8, 4);
            },
            Ir::BrIfEqImm { reg, imm, label } => {
                let n = reg.number_spec();
                lemma_imm_within(16, imm as u64);
                lemma_plus_within(
                    load_imm_code(16, imm as u64),
                    instr(compare_x_word(n, 16)),
                    16,
                    4,
                );
                lemma_plus_within(compare_code(n, imm), branch(label, 0x5400_0000, 19, 5), 20, 4);
            },
            _ => {},
        }
    }

    fn return_reg() -> (r: Regs) {
        Regs::X0
    }

    fn return_reg2() -> (r: Regs) {
        Regs::X1
    }

    fn callee_saved_regs() -> (r: Vec<Regs>) {
        let r = vec![
            Regs::X19,
            Regs::X20,
            Regs::X21,
            Regs::X22,
            Regs::X23,
            Regs::X24,
            Regs::X25,
            Regs::X26,
            Regs::X27,
        ];
        assert(r@ =~= Self::callee_saved_spec());
        r
    }

    fn caller_saved_regs() -> (r: Vec<Regs>) {
        let r = vec![
            Regs::X0,
            Regs::X1,
            Regs::X2,
            Regs::X3,
            Regs::X4,
            Regs::X5,
            Regs::X6,
            Regs::X7,
            Regs::X9,
            Regs::X10,
            Regs::X11,
            Regs::X12,
            Regs::X13,
            Regs::X14,
            Regs::X15,
            Regs::X17,
        ];
        assert(r@ =~= Self::caller_saved_spec());
        r
    }

    fn parameter_regs() -> (r: Vec<Regs>) {
        let r = vec![Regs::X0, Regs::X1, Regs::X2, Regs::X3];
        assert(r@ =~= Self::parameter_spec());
        r
    }

    fn same(a: Regs, b: Regs) -> (r: bool) {
        a == b
    }

    fn relocation_offset() -> (r: u32) {
        0
    }

    #[verifier::rlimit(40)]
    #[verifier::spinoff_prover]
    fn compile(x: &Ir<AArch64>, e: &mut Emitter) {
        let ghost m = e@;
        match *x {
            Ir::ReadU32 { into, base, offset } => {
                emit_instr(e, ldr_w(into.number(), base.number(), offset));
                return ;
            },
            Ir::ReadU64 { into, base, offset } => {
                emit_instr(e, ldr_x(into.number(), base.number(), offset));
                return ;
            },
            Ir::LoadImm { into, val } => {
                emit_load_imm(e, into.number(), val);
                return ;
            },
            Ir::LoadImm8 { into, val } => {
                emit_instr(e, movz_w(into.number(), val as u32));
                return ;
            },
            Ir::Load { into, from } => {
                emit_instr(e, mov_reg(into.number(), from.number()));
                return ;
            },
            Ir::CallRipRelative { label } => {
                // LDR X16, [PC + imm]
                proof {
                    lemma_fields(0x5800_0010, 16);
                }
                emit_branch(e, label, 0x5800_0010, 19, 5);
                // BLR X16
                emit_next(e, blr(16), Ghost(m), Ghost(branch(label, 0x5800_0010, 19, 5)));
                return ;
            },
            Ir::Return { val } => {
                if val != Regs::X0 {
                    let w: u32 = mov_reg(0, val.number());
                    emit_instr(e, w);
                    emit_next(e, 0xd65f_03c0, Ghost(m), Ghost(instr(w as int)));
                    return ;
                }
                emit_instr(e, 0xd65f_03c0);
                return ;
            },
            Ir::Jump { to } => {
                proof {
                    lemma_fields(0x1400_0000, 0);
                }
                emit_branch(e, to, 0x1400_0000, 26, 0);
                return ;
            },
            Ir::BrIfReg8False { val, to } => {
                let rt: u32 = val.number();
                proof {
                    lemma_fields((0xb400_0000 + rt) as u32, rt as int);
                }
                emit_branch(e, to, 0xb400_0000 + rt, 19, 5);
                return ;
            },
            Ir::Push { val } => {
                emit_instr(e, push2_x(val.number(), 30));
                return ;
            },
            Ir::Pop { into } => {
                emit_instr(e, pop2_x(into.number(), 30));
                return ;
            },
            Ir::BrIfMem32IsNonZeroAtomic { base, offset, to } => {
                let w0: u32 = add_x_imm(16, base.number(), offset);
                emit_instr(e, w0);
                let w1: u32 = ldar_w(16, 16);
                emit_next(e, w1, Ghost(m), Ghost(instr(w0 as int)));
                proof {
                    lemma_fields(0x3500_0010, 16);
                }
                emit_next_branch(
                    e,
                    to,
                    0x3500_0010,
                    19,
                    5,
                    Ghost(m),
                    Ghost(instr(w0 as int).plus(instr(w1 as int))),
                );
                return ;
            },
            Ir::AlignedDataU64 { val } => {
                e.emit_u64(val);
                return ;
            },
            Ir::AddU32 { dst, src } => {
                emit_instr(e, add_w(dst.number(), src.number()));
                return ;
            },
            Ir::BandU32Imm { reg, imm } => {
                emit_instr(e, and_imm_w(reg.number(), reg.number(), imm));
                return ;
            },
            Ir::BrIfEqImm { reg, imm, label } => {
                let n: u32 = reg.number();
                emit_compare(e, n, imm);
                proof {
                    lemma_fields(0x5400_0000, 0);
                }
                emit_next_branch(
                    e,
                    label,
                    0x5400_0000,
                    19,
                    5,
                    Ghost(m),
                    Ghost(compare_code(n as int, imm)),
                );
                return ;
            },
            _ => {},
        }
    }
}

} // verus!
