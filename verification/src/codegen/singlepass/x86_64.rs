//! Code for x86-64.
use vstd::prelude::*;

use crate::bytes::{le32, le64};
use crate::codegen::singlepass::emitter::{
    lemma_append_plus, lemma_plus_within, Code, Emitter, EmitterModel,
};
use crate::codegen::singlepass::{Ir, Label, Target};

verus! {

#[derive(Copy, Clone, Debug, PartialEq, Eq, Structural)]
pub enum Regs {
    Rax,
    Rcx,
    Rdx,
    Rbx,
    Rsp,
    Rbp,
    Rsi,
    Rdi,
}

impl Regs {
    /// The number of the register in instructions.
    pub open spec fn number_spec(&self) -> int {
        match self {
            Regs::Rax => 0,
            Regs::Rcx => 1,
            Regs::Rdx => 2,
            Regs::Rbx => 3,
            Regs::Rsp => 4,
            Regs::Rbp => 5,
            Regs::Rsi => 6,
            Regs::Rdi => 7,
        }
    }

    pub fn number(&self) -> (r: u8)
        ensures
            r == self.number_spec(),
            r < 8,
    {
        match self {
            Regs::Rax => 0,
            Regs::Rcx => 1,
            Regs::Rdx => 2,
            Regs::Rbx => 3,
            Regs::Rsp => 4,
            Regs::Rbp => 5,
            Regs::Rsi => 6,
            Regs::Rdi => 7,
        }
    }
}

/// The machine.
#[derive(Copy, Clone, Debug)]
pub struct X86;

/// A byte that names two registers, on top of `base`.
pub open spec fn modrm(base: int, reg: Regs, rm: Regs) -> u8 {
    (base + 8 * reg.number_spec() + rm.number_spec()) as u8
}

fn make_modrm(base: u8, reg: Regs, rm: Regs) -> (r: u8)
    requires
        base <= 0xc0 || (base == 0xc4 && rm.number_spec() < 4),
    ensures
        r == modrm(base as int, reg, rm),
{
    base + 8 * reg.number() + rm.number()
}

/// A byte that names one register, on top of `base`.
pub open spec fn plus_reg(base: int, reg: Regs) -> u8 {
    (base + reg.number_spec()) as u8
}

fn make_plus_reg(base: u8, reg: Regs) -> (r: u8)
    requires
        base <= 0xf8,
    ensures
        r == plus_reg(base as int, reg),
{
    base + reg.number()
}

/// Copies a register.
#[verifier::opaque]
pub open spec fn load_code(into: Regs, from: Regs) -> Code {
    Code::of_bytes(seq![0x48u8, 0x89, modrm(0xc0, from, into)])
}

fn emit_load(e: &mut Emitter, into: Regs, from: Regs)
    requires
        old(e).wf(),
        old(e)@.bytes.len() + 16 <= usize::MAX,
    ensures
        final(e).wf(),
        final(e)@ == old(e)@.appended(load_code(into, from)),
        load_code(into, from).bytes.len() == 3,
{
    proof {
        reveal(load_code);
    }
    let bytes: [u8; 3] = [0x48, 0x89, make_modrm(0xc0, from, into)];
    assert(bytes@ =~= seq![0x48u8, 0x89, modrm(0xc0, from, into)]);
    e.emit(bytes);
}

/// Bytes, a 32-bit value and more bytes.
#[verifier::opaque]
pub open spec fn with_value(bytes: Seq<u8>, val: u32, tail: Seq<u8>) -> Code {
    Code::of_bytes(bytes).plus(Code::of_bytes(le32(val))).plus(Code::of_bytes(tail))
}

/// Bytes and a reference to a label.
#[verifier::opaque]
pub open spec fn with_label(code: Code, to: Label) -> Code {
    code.plus(Code::of_label(to))
}

fn emit_with_value<const N: usize, const M: usize>(
    e: &mut Emitter,
    bytes: [u8; N],
    val: u32,
    tail: [u8; M],
)
    requires
        old(e).wf(),
        N <= 8,
        M <= 8,
        old(e)@.bytes.len() + 40 <= usize::MAX,
    ensures
        final(e).wf(),
        final(e)@ == old(e)@.appended(with_value(bytes@, val, tail@)),
        with_value(bytes@, val, tail@).bytes.len() == N + 4 + M,
        with_value(bytes@, val, tail@).relocations.len() == 0,
{
    proof {
        reveal(with_value);
    }
    let ghost m = e@;
    e.emit(bytes);
    e.emit_u32(val);
    e.emit(tail);
    proof {
        let a = Code::of_bytes(bytes@);
        let b = Code::of_bytes(le32(val));
        lemma_append_plus(m, a, b);
        lemma_append_plus(m, a.plus(b), Code::of_bytes(tail@));
    }
}

/// Emits a reference to a label behind `code`, which was emitted at `m`.
fn emit_label(e: &mut Emitter, to: Label, Ghost(m): Ghost<EmitterModel>, Ghost(code): Ghost<Code>)
    requires
        old(e).wf(),
        old(e)@ == m.appended(code),
        old(e)@.bytes.len() + 16 <= usize::MAX,
    ensures
        final(e).wf(),
        final(e)@ == m.appended(with_label(code, to)),
        with_label(code, to).bytes.len() == code.bytes.len() + 4,
{
    proof {
        reveal(with_label);
    }
    e.emit(to);
    proof {
        lemma_append_plus(m, code, Code::of_label(to));
    }
}

proof fn lemma_value_within(bytes: Seq<u8>, val: u32, tail: Seq<u8>)
    requires
        bytes.len() <= 8,
        tail.len() <= 8,
    ensures
        with_value(bytes, val, tail).within(20),
{
    reveal(with_value);
    let (a, b) = (Code::of_bytes(bytes), Code::of_bytes(le32(val)));
    lemma_plus_within(a, b, 8, 4);
    lemma_plus_within(a.plus(b), Code::of_bytes(tail), 12, 8);
}

proof fn lemma_label_within(code: Code, to: Label)
    requires
        code.within(30),
    ensures
        with_label(code, to).within(34),
{
    reveal(with_label);
    lemma_plus_within(code, Code::of_label(to), 30, 4);
}

impl Target for X86 {
    type Reg = Regs;

    open spec fn return_reg_spec() -> Regs {
        Regs::Rax
    }

    open spec fn return_reg2_spec() -> Regs {
        Regs::Rdx
    }

    open spec fn callee_saved_spec() -> Seq<Regs> {
        seq![Regs::Rbx]
    }

    open spec fn caller_saved_spec() -> Seq<Regs> {
        seq![Regs::Rax, Regs::Rdi, Regs::Rsi, Regs::Rdx, Regs::Rcx]
    }

    open spec fn parameter_spec() -> Seq<Regs> {
        seq![Regs::Rdi, Regs::Rsi, Regs::Rdx, Regs::Rcx]
    }

    /// Only bits 8 to 16 can be selected, of registers that have a name for them.
    open spec fn supports(x: Ir<X86>) -> bool {
        match x {
            Ir::SelectBits { from, start, end, .. } => start == 8 && end == 16
                && from.number_spec() < 4,
            _ => true,
        }
    }

    open spec fn code(x: Ir<X86>) -> Code {
        match x {
            Ir::ReadU32 { into, base, offset } => if offset == 0 {
                Code::of_bytes(seq![0x8Bu8, 0x8b, modrm(0, into, base)])
            } else {
                with_value(seq![0x8Bu8, modrm(0x80, into, base)], offset, Seq::empty())
            },
            Ir::ReadU64 { into, base, offset } => with_value(
                seq![0x48u8, 0x8B, modrm(0x80, into, base)],
                offset,
                Seq::empty(),
            ),
            Ir::LoadImm { into, val } => if val > 0xffff_ffff {
                // movabs reg, imm
                Code::of_bytes(seq![0x48u8, plus_reg(0xB8, into)]).plus(Code::of_bytes(le64(val)))
            } else if val == 0 {
                // xor reg, reg
                Code::of_bytes(seq![0x31u8, modrm(0xc0, into, into)])
            } else {
                // mov reg, imm
                with_value(seq![plus_reg(0xB8, into)], val as u32, Seq::empty())
            },
            Ir::LoadImm8 { into, val } => if into.number_spec() >= 4 {
                Code::of_bytes(seq![0x40u8, plus_reg(0xb0, into), val])
            } else {
                Code::of_bytes(seq![plus_reg(0xb0, into), val])
            },
            Ir::Load { into, from } => load_code(into, from),
            Ir::CallRipRelative { label } => with_label(
                Code::of_bytes(seq![0xffu8, 0x15]),
                label,
            ),
            Ir::Return { val } => if val != Regs::Rax {
                load_code(Regs::Rax, val).plus(Code::of_bytes(seq![0xC3u8]))
            } else {
                Code::of_bytes(seq![0xC3u8])
            },
            Ir::Jump { to } => with_label(Code::of_bytes(seq![0xE9u8]), to),
            Ir::BrIfReg8False { val, to } => with_label(
                // test r8, r8; je rel32
                Code::of_bytes(seq![0x84u8, plus_reg(0xC0, val), 0x0f, 0x84]),
                to,
            ),
            Ir::Push { val } => Code::of_bytes(seq![plus_reg(0x50, val)]),
            Ir::Pop { into } => Code::of_bytes(seq![plus_reg(0x58, into)]),
            Ir::BrIfMem32IsNonZeroAtomic { base, offset, to } => with_label(
                // cmp dword ptr [base + imm32], 0; jne rel32
                with_value(seq![0x83u8, plus_reg(0xb8, base)], offset, seq![0u8, 0x0f, 0x85]),
                to,
            ),
            Ir::BrIfMem8IsZero { base, offset, to } => with_label(
                // cmp byte ptr [base + imm32], 0; je rel32
                with_value(seq![0x80u8, plus_reg(0xb8, base)], offset, seq![0u8, 0x0f, 0x84]),
                to,
            ),
            Ir::AlignedDataU64 { val } => Code::of_bytes(le64(val)),
            Ir::AlignedDataU32 { val } => Code::of_bytes(le32(val)),
            // add reg32, reg32
            Ir::AddU32 { dst, src } => Code::of_bytes(seq![0x01u8, modrm(0xc0, src, dst)]),
            // and reg32, imm
            Ir::BandU32Imm { reg, imm } => with_value(
                seq![0x81u8, plus_reg(0xE0, reg)],
                imm,
                Seq::empty(),
            ),
            // cmp reg, imm; je rel32
            Ir::BrIfEqImm { reg, imm, label } => with_label(
                with_value(seq![0x81u8, plus_reg(0xF8, reg)], imm, seq![0x0Fu8, 0x84]),
                label,
            ),
            // movsx reg32, reg8h
            Ir::SelectBits { into, from, .. } => Code::of_bytes(
                seq![0x0Fu8, 0xB6, modrm(0xC4, into, from)],
            ),
            // lea reg, [rip + label]; mov reg32, [reg + index * 4]
            Ir::ReadArrayPtrU32 { into, label, index } => with_label(
                Code::of_bytes(seq![0x48u8, 0x8D, modrm(5, into, Regs::Rax)]),
                label,
            ).plus(
                Code::of_bytes(seq![0x8Bu8, modrm(4, into, Regs::Rax), modrm(0x80, index, into)]),
            ),
        }
    }

    /// x86 uses post-increment offsets
    open spec fn relocation_base() -> int {
        4
    }

    proof fn code_is_short(x: Ir<X86>) {
        let none = Seq::<u8>::empty();
        match x {
            Ir::ReadU32 { into, base, offset } => {
                lemma_value_within(seq![0x8Bu8, modrm(0x80, into, base)], offset, none);
            },
            Ir::ReadU64 { into, base, offset } => {
                lemma_value_within(seq![0x48u8, 0x8B, modrm(0x80, into, base)], offset, none);
            },
            Ir::LoadImm { into, val } => {
                lemma_value_within(seq![plus_reg(0xB8, into)], val as u32, none);
                lemma_plus_within(
                    Code::of_bytes(seq![0x48u8, plus_reg(0xB8, into)]),
                    Code::of_bytes(le64(val)),
                    2,
                    8,
                );
            },
            Ir::Load { .. } => {
                reveal(load_code);
            },
            Ir::CallRipRelative { label } => {
                lemma_label_within(Code::of_bytes(seq![0xffu8, 0x15]), label);
            },
            Ir::Return { val } => {
                reveal(load_code);
                lemma_plus_within(
                    load_code(Regs::Rax, val),
                    Code::of_bytes(seq![0xC3u8]),
                    3,
                    1,
                );
            },
            Ir::Jump { to } => {
                lemma_label_within(Code::of_bytes(seq![0xE9u8]), to);
            },
            Ir::BrIfReg8False { val, to } => {
                lemma_label_within(
                    Code::of_bytes(seq![0x84u8, plus_reg(0xC0, val), 0x0f, 0x84]),
                    to,
                );
            },
            Ir::BrIfMem32IsNonZeroAtomic { base, offset, to } => {
                let (a, b) = (seq![0x83u8, plus_reg(0xb8, base)], seq![0u8, 0x0f, 0x85]);
                lemma_value_within(a, offset, b);
                lemma_label_within(with_value(a, offset, b), to);
            },
            Ir::BrIfMem8IsZero { base, offset, to } => {
                let (a, b) = (seq![0x80u8, plus_reg(0xb8, base)], seq![0u8, 0x0f, 0x84]);
                lemma_value_within(a, offset, b);
                lemma_label_within(with_value(a, offset, b), to);
            },
            Ir::BandU32Imm { reg, imm } => {
                lemma_value_within(seq![0x81u8, plus_reg(0xE0, reg)], imm, none);
            },
            Ir::BrIfEqImm { reg, imm, label } => {
                let (a, b) = (seq![0x81u8, plus_reg(0xF8, reg)], seq![0x0Fu8, 0x84]);
                lemma_value_within(a, imm, b);
                lemma_label_within(with_value(a, imm, b), label);
            },
            Ir::ReadArrayPtrU32 { into, label, index } => {
                let a = Code::of_bytes(seq![0x48u8, 0x8D, modrm(5, into, Regs::Rax)]);
                lemma_label_within(a, label);
                lemma_plus_within(
                    with_label(a, label),
                    Code::of_bytes(
                        seq![0x8Bu8, modrm(4, into, Regs::Rax), modrm(0x80, index, into)],
                    ),
                    34,
                    3,
                );
            },
            _ => {},
        }
    }

    fn return_reg() -> (r: Regs) {
        Regs::Rax
    }

    fn return_reg2() -> (r: Regs) {
        Regs::Rdx
    }

    fn callee_saved_regs() -> (r: Vec<Regs>) {
        let r = vec![Regs::Rbx];
        assert(r@ =~= Self::callee_saved_spec());
        r
    }

    fn caller_saved_regs() -> (r: Vec<Regs>) {
        let r = vec![Regs::Rax, Regs::Rdi, Regs::Rsi, Regs::Rdx, Regs::Rcx];
        assert(r@ =~= Self::caller_saved_spec());
        r
    }

    fn parameter_regs() -> (r: Vec<Regs>) {
        let r = vec![Regs::Rdi, Regs::Rsi, Regs::Rdx, Regs::Rcx];
        assert(r@ =~= Self::parameter_spec());
        r
    }

    fn same(a: Regs, b: Regs) -> (r: bool) {
        a == b
    }

    fn relocation_offset() -> (r: u32) {
        4
    }

    #[verifier::rlimit(40)]
    #[verifier::spinoff_prover]
    fn compile(x: &Ir<X86>, e: &mut Emitter) {
        let ghost m = e@;
        match *x {
            Ir::ReadU32 { into, base, offset } => {
                if offset == 0 {
                    let bytes: [u8; 3] = [0x8B, 0x8b, make_modrm(0, into, base)];
                    assert(bytes@ =~= seq![0x8Bu8, 0x8b, modrm(0, into, base)]);
                    e.emit(bytes);
                } else {
                    let bytes: [u8; 2] = [0x8B, make_modrm(0x80, into, base)];
                    let tail: [u8; 0] = [];
                    assert(bytes@ =~= seq![0x8Bu8, modrm(0x80, into, base)]);
                    assert(tail@ =~= Seq::empty());
                    emit_with_value(e, bytes, offset, tail);
                }
                return ;
            },
            Ir::ReadU64 { into, base, offset } => {
                let bytes: [u8; 3] = [0x48, 0x8B, make_modrm(0x80, into, base)];
                let tail: [u8; 0] = [];
                assert(bytes@ =~= seq![0x48u8, 0x8B, modrm(0x80, into, base)]);
                assert(tail@ =~= Seq::empty());
                emit_with_value(e, bytes, offset, tail);
                return ;
            },
            Ir::LoadImm { into, val } => {
                if val > 0xffff_ffff {
                    // movabs reg, imm
                    let bytes: [u8; 2] = [0x48, make_plus_reg(0xB8, into)];
                    assert(bytes@ =~= seq![0x48u8, plus_reg(0xB8, into)]);
                    e.emit(bytes);
                    e.emit_u64(val);
                    proof {
                        lemma_append_plus(
                            m,
                            Code::of_bytes(bytes@),
                            Code::of_bytes(le64(val)),
                        );
                    }
                } else if val == 0 {
                    // xor reg, reg
                    let bytes: [u8; 2] = [0x31, make_modrm(0xc0, into, into)];
                    assert(bytes@ =~= seq![0x31u8, modrm(0xc0, into, into)]);
                    e.emit(bytes);
                } else {
                    // mov reg, imm
                    let bytes: [u8; 1] = [make_plus_reg(0xB8, into)];
                    let tail: [u8; 0] = [];
                    assert(bytes@ =~= seq![plus_reg(0xB8, into)]);
                    assert(tail@ =~= Seq::empty());
                    emit_with_value(e, bytes, val as u32, tail);
                }
                return ;
            },
            Ir::LoadImm8 { into, val } => {
                if into.number() >= 4 {
                    let bytes: [u8; 3] = [0x40, make_plus_reg(0xb0, into), val];
                    assert(bytes@ =~= seq![0x40u8, plus_reg(0xb0, into), val]);
                    e.emit(bytes);
                } else {
                    let bytes: [u8; 2] = [make_plus_reg(0xb0, into), val];
                    assert(bytes@ =~= seq![plus_reg(0xb0, into), val]);
                    e.emit(bytes);
                }
                return ;
            },
            Ir::Load { into, from } => {
                emit_load(e, into, from);
                return ;
            },
            Ir::CallRipRelative { label } => {
                // call [rip + imm]
                let bytes: [u8; 2] = [0xff, 0x15];
                assert(bytes@ =~= seq![0xffu8, 0x15]);
                e.emit(bytes);
                emit_label(e, label, Ghost(m), Ghost(Code::of_bytes(bytes@)));
                return ;
            },
            Ir::Return { val } => {
                if val != Regs::Rax {
                    emit_load(e, Regs::Rax, val);
                    e.emit(0xC3u8);
                    proof {
                        lemma_append_plus(
                            m,
                            load_code(Regs::Rax, val),
                            Code::of_bytes(seq![0xC3u8]),
                        );
                    }
                } else {
                    e.emit(0xC3u8);
                }
                return ;
            },
            Ir::Jump { to } => {
                e.emit(0xE9u8);
                emit_label(e, to, Ghost(m), Ghost(Code::of_bytes(seq![0xE9u8])));
                return ;
            },
            Ir::BrIfReg8False { val, to } => {
                let bytes: [u8; 4] = [
                    // test r8, r8
                    0x84,
                    make_plus_reg(0xC0, val),
                    // je rel32
                    0x0f,
                    0x84,
                ];
                assert(bytes@ =~= seq![0x84u8, plus_reg(0xC0, val), 0x0f, 0x84]);
                e.emit(bytes);
                emit_label(e, to, Ghost(m), Ghost(Code::of_bytes(bytes@)));
                return ;
            },
            Ir::Push { val } => {
                e.emit(make_plus_reg(0x50, val));
                return ;
            },
            Ir::Pop { into } => {
                e.emit(make_plus_reg(0x58, into));
                return ;
            },
            Ir::BrIfMem32IsNonZeroAtomic { base, offset, to } => {
                // cmp dword ptr [base + imm32], 0
                let bytes: [u8; 2] = [0x83, make_plus_reg(0xb8, base)];
                // jne rel32
                let tail: [u8; 3] = [0x00, 0x0f, 0x85];
                assert(bytes@ =~= seq![0x83u8, plus_reg(0xb8, base)]);
                assert(tail@ =~= seq![0u8, 0x0f, 0x85]);
                emit_with_value(e, bytes, offset, tail);
                emit_label(e, to, Ghost(m), Ghost(with_value(bytes@, offset, tail@)));
                return ;
            },
            Ir::BrIfMem8IsZero { base, offset, to } => {
                // cmp byte ptr [base + imm32], 0
                let bytes: [u8; 2] = [0x80, make_plus_reg(0xb8, base)];
                // je rel32
                let tail: [u8; 3] = [0x00, 0x0f, 0x84];
                assert(bytes@ =~= seq![0x80u8, plus_reg(0xb8, base)]);
                assert(tail@ =~= seq![0u8, 0x0f, 0x84]);
                emit_with_value(e, bytes, offset, tail);
                emit_label(e, to, Ghost(m), Ghost(with_value(bytes@, offset, tail@)));
                return ;
            },
            Ir::AlignedDataU64 { val } => {
                e.emit_u64(val);
                return ;
            },
            Ir::AlignedDataU32 { val } => {
                e.emit_u32(val);
                return ;
            },
            Ir::AddU32 { dst, src } => {
                // add reg32, reg32
                let bytes: [u8; 2] = [0x01, make_modrm(0xc0, src, dst)];
                assert(bytes@ =~= seq![0x01u8, modrm(0xc0, src, dst)]);
                e.emit(bytes);
                return ;
            },
            Ir::BandU32Imm { reg, imm } => {
                // and reg32, imm
                let bytes: [u8; 2] = [0x81, make_plus_reg(0xE0, reg)];
                let tail: [u8; 0] = [];
                assert(bytes@ =~= seq![0x81u8, plus_reg(0xE0, reg)]);
                assert(tail@ =~= Seq::empty());
                emit_with_value(e, bytes, imm, tail);
                return ;
            },
            Ir::BrIfEqImm { reg, imm, label } => {
                // cmp reg, imm
                let bytes: [u8; 2] = [0x81, make_plus_reg(0xF8, reg)];
                // je rel32
                let tail: [u8; 2] = [0x0F, 0x84];
                assert(bytes@ =~= seq![0x81u8, plus_reg(0xF8, reg)]);
                assert(tail@ =~= seq![0x0Fu8, 0x84]);
                emit_with_value(e, bytes, imm, tail);
                emit_label(e, label, Ghost(m), Ghost(with_value(bytes@, imm, tail@)));
                return ;
            },
            Ir::SelectBits { into, from, start, end } => {
                // movsx reg32, reg8h
                let bytes: [u8; 3] = [0x0F, 0xB6, make_modrm(0xC4, into, from)];
                assert(bytes@ =~= seq![0x0Fu8, 0xB6, modrm(0xC4, into, from)]);
                e.emit(bytes);
                return ;
            },
            Ir::ReadArrayPtrU32 { into, label, index } => {
                // LEA reg, [rip + label]
                let lea: [u8; 3] = [0x48, 0x8D, make_modrm(5, into, Regs::Rax)];
                assert(lea@ =~= seq![0x48u8, 0x8D, modrm(5, into, Regs::Rax)]);
                e.emit(lea);
                emit_label(e, label, Ghost(m), Ghost(Code::of_bytes(lea@)));
                // MOV reg32, [reg + index * 4]
                let mov: [u8; 3] = [
                    0x8B,
                    make_modrm(4, into, Regs::Rax),
                    make_modrm(0x80, index, into),
                ];
                assert(mov@ =~= seq![
                    0x8Bu8,
                    modrm(4, into, Regs::Rax),
                    modrm(0x80, index, into),
                ]);
                e.emit(mov);
                proof {
                    lemma_append_plus(
                        m,
                        with_label(Code::of_bytes(lea@), label),
                        Code::of_bytes(mov@),
                    );
                }
                return ;
            },
        }
    }
}

} // verus!
