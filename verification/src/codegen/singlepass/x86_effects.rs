//! What machine code for x86-64 does: a reading of instructions, and the effects of the code of
//! each operation.
use vstd::prelude::*;

use crate::bytes::{le32, le64};
use crate::codegen::singlepass::emitter::{Code, Relocation};
use crate::codegen::singlepass::layout::filled_in;
use crate::codegen::singlepass::x86_64::{
    load_code, modrm, plus_reg, with_label, with_value, Regs, X86,
};
use crate::codegen::singlepass::{Ir, Label, Target};

verus! {

/// The processor: its eight registers of 64 bits, memory, the address of the next instruction, and
/// whether the last result was zero.
pub struct Machine {
    pub regs: Seq<int>,
    pub mem: Map<int, u8>,
    pub ip: int,
    pub zero: bool,
}

impl Machine {
    pub open spec fn wf(&self) -> bool {
        &&& self.regs.len() == 8
        &&& forall|i: int| 0 <= i < 8 ==> 0 <= #[trigger] self.regs[i] < 0x1_0000_0000_0000_0000
    }

    /// Sixty-four bits of memory, the lowest byte first.
    pub open spec fn load64(&self, addr: int) -> int {
        self.load32(addr) + 0x1_0000_0000 * self.load32(addr + 4)
    }

    pub open spec fn load32(&self, addr: int) -> int {
        self.mem[addr] + 0x100 * self.mem[addr + 1] + 0x1_0000 * self.mem[addr + 2] + 0x100_0000
            * self.mem[addr + 3]
    }

    /// Eight bytes of memory hold a number, the lowest byte first.
    pub open spec fn store64(self, addr: int, val: int) -> Machine {
        Machine {
            mem: self.mem.insert(addr, (val % 0x100) as u8).insert(
                addr + 1,
                (val / 0x100 % 0x100) as u8,
            ).insert(addr + 2, (val / 0x1_0000 % 0x100) as u8).insert(
                addr + 3,
                (val / 0x100_0000 % 0x100) as u8,
            ).insert(addr + 4, (val / 0x1_0000_0000 % 0x100) as u8).insert(
                addr + 5,
                (val / 0x100_0000_0000 % 0x100) as u8,
            ).insert(addr + 6, (val / 0x1_0000_0000_0000 % 0x100) as u8).insert(
                addr + 7,
                (val / 0x100_0000_0000_0000 % 0x100) as u8,
            ),
            ..self
        }
    }

    /// A register holds a number. Results of 32 bits fill the rest of a register with zeros.
    pub open spec fn set(self, reg: int, val: int) -> Machine {
        Machine { regs: self.regs.update(reg, val), ..self }
    }

    /// A register of eight bits. Without a prefix, numbers 4 to 7 are the second bytes of the
    /// registers 0 to 3.
    pub open spec fn byte_reg(&self, reg: int, prefixed: bool) -> int {
        if reg < 4 || prefixed {
            self.regs[reg] % 0x100
        } else {
            self.regs[reg - 4] / 0x100 % 0x100
        }
    }
}

/// The number in four bytes of code.
pub open spec fn imm32(b: Seq<u8>, at: int) -> int {
    b[at] + 0x100 * b[at + 1] + 0x1_0000 * b[at + 2] + 0x100_0000 * b[at + 3]
}

/// A number of 32 bits with its sign.
pub open spec fn signed32(v: int) -> int {
    if v < 0x8000_0000 {
        v
    } else {
        v - 0x1_0000_0000
    }
}

/// What the byte behind an opcode names: a register, or a place in memory.
pub enum Operand {
    Register(int),
    Memory(int),
    /// A form that is not read here.
    Unknown,
}

/// The operand that starts with the byte at `at`, and the number of bytes that name it. `behind` is
/// the number of bytes that follow them in the instruction.
#[verifier::opaque]
pub open spec fn operand(b: Seq<u8>, at: int, behind: int, m: Machine) -> (Operand, int) {
    let mode = b[at] as int / 64;
    let rm = b[at] as int % 8;
    if mode == 3 {
        (Operand::Register(rm), 1)
    } else if mode == 2 && rm != 4 {
        (Operand::Memory((m.regs[rm] + signed32(imm32(b, at + 1))) % 0x1_0000_0000_0000_0000), 5)
    } else if mode == 0 && rm == 5 {
        // Relative to the next instruction
        (Operand::Memory((m.ip + at + 5 + behind + signed32(imm32(b, at + 1))) % 0x1_0000_0000_0000_0000), 5)
    } else if mode == 0 && rm == 4 {
        let base = b[at + 1] as int % 8;
        let index = b[at + 1] as int / 8 % 8;
        let scale = b[at + 1] as int / 64;
        let factor = if scale == 0 {
            1int
        } else if scale == 1 {
            2
        } else if scale == 2 {
            4
        } else {
            8
        };
        if base == 5 || index == 4 {
            (Operand::Unknown, 2)
        } else {
            (Operand::Memory((m.regs[base] + m.regs[index] * factor) % 0x1_0000_0000_0000_0000), 2)
        }
    } else if mode == 0 {
        (Operand::Memory(m.regs[rm]), 1)
    } else {
        (Operand::Unknown, 1)
    }
}

/// The processor goes on with the instruction behind one of `len` bytes.
pub open spec fn went_on(m: Machine, len: int) -> Option<Machine> {
    Some(Machine { ip: m.ip + len, ..m })
}

/// An instruction that computes a number of 32 bits from the register operand `r` and the register
/// in the middle of the operand's byte.
pub enum Computation {
    Sum,
    ExclusiveOr,
}

/// ADD r/m32, r32 and XOR r/m32, r32, between registers.
#[verifier::opaque]
pub open spec fn computed(c: Computation, b: Seq<u8>, at: int, m: Machine) -> Option<Machine> {
    let reg = b[at] as int / 8 % 8;
    match operand(b, at, 0, m) {
        (Operand::Register(r), n) => {
            let v = match c {
                Computation::Sum => (m.regs[r] + m.regs[reg]) % 0x1_0000_0000,
                Computation::ExclusiveOr => ((m.regs[r] % 0x1_0000_0000) as u32 ^ (m.regs[reg]
                    % 0x1_0000_0000) as u32) as int,
            };
            went_on(Machine { zero: v == 0, ..m.set(r, v) }, at + n)
        },
        _ => None,
    }
}

/// MOV r/m, r, between registers.
#[verifier::opaque]
pub open spec fn copied(b: Seq<u8>, at: int, wide: bool, m: Machine) -> Option<Machine> {
    let reg = b[at] as int / 8 % 8;
    match operand(b, at, 0, m) {
        (Operand::Register(r), n) => went_on(
            m.set(
                r,
                if wide {
                    m.regs[reg]
                } else {
                    m.regs[reg] % 0x1_0000_0000
                },
            ),
            at + n,
        ),
        _ => None,
    }
}

/// MOV r, m.
#[verifier::opaque]
pub open spec fn fetched(b: Seq<u8>, at: int, wide: bool, m: Machine) -> Option<Machine> {
    let reg = b[at] as int / 8 % 8;
    match operand(b, at, 0, m) {
        (Operand::Memory(a), n) => went_on(
            m.set(
                reg,
                if wide {
                    m.load64(a)
                } else {
                    m.load32(a)
                },
            ),
            at + n,
        ),
        _ => None,
    }
}

/// LEA r, m.
#[verifier::opaque]
pub open spec fn addressed(b: Seq<u8>, at: int, m: Machine) -> Option<Machine> {
    let reg = b[at] as int / 8 % 8;
    match operand(b, at, 0, m) {
        (Operand::Memory(a), n) => went_on(m.set(reg, a), at + n),
        _ => None,
    }
}

/// CALL m.
#[verifier::opaque]
pub open spec fn called(b: Seq<u8>, at: int, m: Machine) -> Option<Machine> {
    match operand(b, at, 0, m) {
        (Operand::Memory(a), n) => {
            let sp = (m.regs[4] - 8) % 0x1_0000_0000_0000_0000;
            Some(Machine { ip: m.load64(a), ..m.store64(sp, m.ip + at + n).set(4, sp) })
        },
        _ => None,
    }
}

/// TEST r/m8, r8, between registers.
#[verifier::opaque]
pub open spec fn tested(b: Seq<u8>, at: int, prefixed: bool, m: Machine) -> Option<Machine> {
    let reg = b[at] as int / 8 % 8;
    match operand(b, at, 0, m) {
        (Operand::Register(r), n) => {
            let v = m.byte_reg(r, prefixed) as u8 & m.byte_reg(reg, prefixed) as u8;
            went_on(Machine { zero: v == 0, ..m }, at + n)
        },
        _ => None,
    }
}

/// CMP m, imm8, with a byte or, the immediate being extended by its sign, with 32 bits.
#[verifier::opaque]
pub open spec fn compared(b: Seq<u8>, at: int, byte: bool, m: Machine) -> Option<Machine> {
    match operand(b, at, 1, m) {
        (Operand::Memory(a), n) => {
            let v = b[at + n] as int;
            let equal = if byte {
                m.mem[a] == v
            } else if v < 0x80 {
                m.load32(a) == v
            } else {
                m.load32(a) == v + 0xffff_ff00
            };
            went_on(Machine { zero: equal, ..m }, at + n + 1)
        },
        _ => None,
    }
}

/// AND r/m32, imm32 (4) and CMP r/m32, imm32 (7), of a register.
#[verifier::opaque]
pub open spec fn with_immediate(b: Seq<u8>, at: int, which: int, m: Machine) -> Option<Machine> {
    match operand(b, at, 4, m) {
        (Operand::Register(r), n) => {
            let imm = imm32(b, at + n);
            if which == 4 {
                let v = ((m.regs[r] % 0x1_0000_0000) as u32 & imm as u32) as int;
                went_on(Machine { zero: v == 0, ..m.set(r, v) }, at + n + 4)
            } else {
                went_on(Machine { zero: m.regs[r] % 0x1_0000_0000 == imm, ..m }, at + n + 4)
            }
        },
        _ => None,
    }
}

/// The instructions with two bytes of opcode: JE rel32, JNE rel32 and MOVZX r32, r8.
#[verifier::opaque]
pub open spec fn executed_long(b: Seq<u8>, m: Machine) -> Option<Machine> {
    if b[1] == 0x84 || b[1] == 0x85 {
        if m.zero == (b[1] == 0x84) {
            Some(
                Machine { ip: (m.ip + 6 + signed32(imm32(b, 2))) % 0x1_0000_0000_0000_0000, ..m },
            )
        } else {
            went_on(m, 6)
        }
    } else if b[1] == 0xB6 {
        match operand(b, 2, 0, m) {
            (Operand::Register(r), n) => went_on(
                m.set(b[2] as int / 8 % 8, m.byte_reg(r, false)),
                2 + n,
            ),
            _ => None,
        }
    } else {
        None
    }
}

/// The instruction whose opcode is at `o`.
#[verifier::opaque]
pub open spec fn executed_at(b: Seq<u8>, o: int, prefixed: bool, wide: bool, m: Machine) -> Option<
    Machine,
> {
    let op = b[o] as int;
    if op == 0x01 && !wide {
        computed(Computation::Sum, b, o + 1, m)
    } else if op == 0x31 && !wide {
        computed(Computation::ExclusiveOr, b, o + 1, m)
    } else if op == 0x89 {
        copied(b, o + 1, wide, m)
    } else if op == 0x8B {
        fetched(b, o + 1, wide, m)
    } else if op == 0x8D && wide {
        addressed(b, o + 1, m)
    } else if 0xB8 <= op <= 0xBF {
        // MOV r, imm
        if wide {
            went_on(m.set(op - 0xB8, imm32(b, o + 1) + 0x1_0000_0000 * imm32(b, o + 5)), o + 9)
        } else {
            went_on(m.set(op - 0xB8, imm32(b, o + 1)), o + 5)
        }
    } else if 0xB0 <= op <= 0xB7 {
        // MOV r8, imm8
        let r = op - 0xB0;
        if r < 4 || prefixed {
            went_on(m.set(r, m.regs[r] / 0x100 * 0x100 + b[o + 1]), o + 2)
        } else {
            None
        }
    } else if 0x50 <= op <= 0x57 && !prefixed {
        // PUSH r
        let sp = (m.regs[4] - 8) % 0x1_0000_0000_0000_0000;
        went_on(m.store64(sp, m.regs[op - 0x50]).set(4, sp), 1)
    } else if 0x58 <= op <= 0x5F && !prefixed {
        // POP r
        let up = m.set(4, (m.regs[4] + 8) % 0x1_0000_0000_0000_0000);
        went_on(up.set(op - 0x58, m.load64(m.regs[4])), 1)
    } else if op == 0xC3 {
        // RET
        Some(
            Machine {
                ip: m.load64(m.regs[4]),
                ..m.set(4, (m.regs[4] + 8) % 0x1_0000_0000_0000_0000)
            },
        )
    } else if op == 0xE9 {
        // JMP rel32
        Some(
            Machine {
                ip: (m.ip + o + 5 + signed32(imm32(b, o + 1))) % 0x1_0000_0000_0000_0000,
                ..m
            },
        )
    } else if op == 0xFF && b[o + 1] as int / 8 % 8 == 2 {
        called(b, o + 1, m)
    } else if op == 0x84 {
        tested(b, o + 1, prefixed, m)
    } else if (op == 0x80 || op == 0x83) && !wide && b[o + 1] as int / 8 % 8 == 7 {
        compared(b, o + 1, op == 0x80, m)
    } else if op == 0x81 && !wide && b[o + 1] as int / 8 % 8 == 4 {
        with_immediate(b, o + 1, 4, m)
    } else if op == 0x81 && !wide && b[o + 1] as int / 8 % 8 == 7 {
        with_immediate(b, o + 1, 7, m)
    } else if op == 0x0F && !prefixed {
        executed_long(b, m)
    } else {
        None
    }
}

/// The processor after the instruction at the front of `b`, if it is one that is read here.
pub open spec fn executed(b: Seq<u8>, m: Machine) -> Option<Machine> {
    if b[0] == 0x48 {
        executed_at(b, 1, true, true, m)
    } else if b[0] == 0x40 {
        executed_at(b, 1, true, false, m)
    } else {
        executed_at(b, 0, false, false, m)
    }
}

/// An operand byte that names a register, and one with an offset.
proof fn lemma_operands(b: Seq<u8>, at: int, behind: int, m: Machine, x: int, r: int)
    requires
        0 <= x < 8,
        0 <= r < 8,
    ensures
        b[at] as int == 0xc0 + 8 * x + r ==> {
            &&& operand(b, at, behind, m) == (Operand::Register(r), 1int)
            &&& b[at] as int / 8 % 8 == x
        },
        b[at] as int == 0x80 + 8 * x + r && r != 4 ==> {
            &&& operand(b, at, behind, m) == (
                Operand::Memory(
                    (m.regs[r] + signed32(imm32(b, at + 1))) % 0x1_0000_0000_0000_0000,
                ),
                5int,
            )
            &&& b[at] as int / 8 % 8 == x
        },
        b[at] as int == 5 + 8 * x ==> {
            &&& operand(b, at, behind, m) == (
                Operand::Memory(
                    (m.ip + at + 5 + behind + signed32(imm32(b, at + 1)))
                        % 0x1_0000_0000_0000_0000,
                ),
                5int,
            )
            &&& b[at] as int / 8 % 8 == x
        },
{
    reveal(operand);
}

/// Two instructions in a row, the first one having `len` bytes and no jump.
pub open spec fn executed_both(b: Seq<u8>, len: int, m: Machine) -> Option<Machine> {
    match executed(b, m) {
        Some(n) => if n.ip == m.ip + len {
            executed(b.skip(len), n)
        } else {
            None
        },
        None => None,
    }
}

/// The bytes of a piece of code that lies at `here`, with its one reference filled in: the distance
/// from the end of the reference to `there`.
pub open spec fn referring(code: Code, here: int, there: int) -> Seq<u8> {
    filled_in(code, here, there, 4)
}

/// A piece of code has exactly one reference, to this label, in a whole field of 32 bits.
pub open spec fn refers_to(code: Code, label: Label) -> bool {
    &&& code.relocations.len() == 1
    &&& code.relocations[0].label == label
    &&& code.relocations[0].bits == 32 && code.relocations[0].shift == 0
    &&& code.relocations[0].shr == 0
    &&& code.relocations[0].pos + 4 <= code.bytes.len()
}

/// The places that code and labels may have: offsets between them fit in 31 bits.
pub open spec fn near(here: int, there: int) -> bool {
    0 <= here < 0x7000_0000 && 0 <= there < 0x7000_0000
}

proof fn lemma_imm32(b: Seq<u8>, at: int, v: u32)
    requires
        0 <= at,
        at + 4 <= b.len(),
        forall|i: int| 0 <= i < 4 ==> #[trigger] b[at + i] == le32(v)[i],
    ensures
        imm32(b, at) == v,
{
    assert(b[at + 0] == le32(v)[0] && b[at + 1] == le32(v)[1] && b[at + 2] == le32(v)[2] && b[at + 3]
        == le32(v)[3]);
    crate::bytes::le_round_trip(0, v, 0);
}

/// A distance in a reference leads back to its label.
proof fn lemma_distance(from: int, there: int)
    requires
        0 <= there < 0x7000_0000,
        0 <= from < 0x7800_0000,
    ensures
        signed32(((there - from) % 0x1_0000_0000) as u32 as int) == there - from,
        (from + signed32(((there - from) % 0x1_0000_0000) as u32 as int)) % 0x1_0000_0000_0000_0000 == there,
{
    let d: int = there - from;
    if d >= 0 {
        assert(d % 0x1_0000_0000 == d);
    } else {
        assert(d % 0x1_0000_0000 == d + 0x1_0000_0000);
    }
}

/// Adding: the destination becomes the sum modulo 2^32, and no other register changes.
pub proof fn add_adds(dst: Regs, src: Regs, m: Machine)
    requires
        m.wf(),
    ensures
        ({
            let b = X86::code(Ir::AddU32 { dst, src }).bytes;
            let (d, s) = (dst.number_spec(), src.number_spec());
            let after = executed(b, m);
            &&& X86::code(Ir::AddU32 { dst, src }).relocations.len() == 0
            &&& after.is_some()
            &&& after.unwrap().ip == m.ip + b.len()
            &&& after.unwrap().regs == m.regs.update(
                d,
                (m.regs[d] + m.regs[s]) % 0x1_0000_0000,
            )
            &&& after.unwrap().mem == m.mem
        }),
{
    let b = X86::code(Ir::AddU32 { dst, src }).bytes;
    let (d, s): (int, int) = (dst.number_spec(), src.number_spec());
    assert(b[0] == 0x01 && b[1] as int == 0xc0 + 8 * s + d);
    lemma_operands(b, 1, 0, m, s, d);
    reveal(executed_at);
    assert(executed(b, m) == computed(Computation::Sum, b, 1, m));
    reveal(computed);
}

/// Masking: the register becomes its low 32 bits and the immediate, bit by bit.
pub proof fn band_masks(reg: Regs, imm: u32, m: Machine)
    requires
        m.wf(),
    ensures
        ({
            let b = X86::code(Ir::BandU32Imm { reg, imm }).bytes;
            let r = reg.number_spec();
            let after = executed(b, m);
            &&& X86::code(Ir::BandU32Imm { reg, imm }).relocations.len() == 0
            &&& after.is_some()
            &&& after.unwrap().ip == m.ip + b.len()
            &&& after.unwrap().regs == m.regs.update(
                r,
                ((m.regs[r] % 0x1_0000_0000) as u32 & imm) as int,
            )
            &&& after.unwrap().mem == m.mem
        }),
{
    reveal(with_value);
    let b = X86::code(Ir::BandU32Imm { reg, imm }).bytes;
    let r: int = reg.number_spec();
    assert(b[0] == 0x81 && b[1] as int == 0xE0 + r);
    lemma_imm32(b, 2, imm);
    lemma_operands(b, 1, 4, m, 4, r);
    reveal(executed_at);
    assert(executed(b, m) == with_immediate(b, 1, 4, m));
    reveal(with_immediate);
}

/// Copying: the destination becomes the source, all 64 bits of it.
pub proof fn load_copies(into: Regs, from: Regs, m: Machine)
    requires
        m.wf(),
    ensures
        ({
            let b = X86::code(Ir::Load { into, from }).bytes;
            let after = executed(b, m);
            &&& X86::code(Ir::Load { into, from }).relocations.len() == 0
            &&& after.is_some()
            &&& after.unwrap() == (Machine {
                ip: m.ip + b.len(),
                regs: m.regs.update(into.number_spec(), m.regs[from.number_spec()]),
                ..m
            })
        }),
{
    reveal(load_code);
    let b = X86::code(Ir::Load { into, from }).bytes;
    assert(b[0] == 0x48 && b[1] == 0x89 && b[2] as int == 0xc0 + 8 * from.number_spec()
        + into.number_spec());
    lemma_operands(b, 2, 0, m, from.number_spec(), into.number_spec());
    reveal(executed_at);
    assert(executed(b, m) == copied(b, 2, true, m));
    reveal(copied);
}

/// Loading a number: the register becomes the number, all 64 bits of it.
pub proof fn load_imm_loads(into: Regs, val: u64, m: Machine)
    requires
        m.wf(),
    ensures
        ({
            let b = X86::code(Ir::LoadImm { into, val }).bytes;
            let after = executed(b, m);
            &&& X86::code(Ir::LoadImm { into, val }).relocations.len() == 0
            &&& after.is_some()
            &&& after.unwrap().ip == m.ip + b.len()
            &&& after.unwrap().regs == m.regs.update(into.number_spec(), val as int)
            &&& after.unwrap().mem == m.mem
        }),
{
    reveal(executed_at);
    let b = X86::code(Ir::LoadImm { into, val }).bytes;
    let r: int = into.number_spec();
    if val > 0xffff_ffff {
        assert(b[0] == 0x48 && b[1] as int == 0xB8 + r);
        let (low, high): (u32, u32) = (
            (val % 0x1_0000_0000) as u32,
            (val / 0x1_0000_0000) as u32,
        );
        assert forall|i: int| 0 <= i < 4 implies #[trigger] b[2 + i] == le32(low)[i] && b[6 + i]
            == le32(high)[i] by {
            assert(b[2 + i] == le64(val)[i]);
            assert(b[6 + i] == le64(val)[4 + i]);
        }
        lemma_imm32(b, 2, low);
        assert forall|i: int| 0 <= i < 4 implies #[trigger] b[6 + i] == le32(high)[i] by {
            assert(b[6 + i] == le64(val)[4 + i]);
        }
        lemma_imm32(b, 6, high);
    } else if val == 0 {
        assert(b[0] == 0x31 && b[1] as int == 0xc0 + 8 * r + r);
        let v: u32 = (m.regs[r] % 0x1_0000_0000) as u32;
        assert(v ^ v == 0) by (bit_vector);
        lemma_operands(b, 1, 0, m, r, r);
        assert(executed(b, m) == computed(Computation::ExclusiveOr, b, 1, m));
        reveal(computed);
    } else {
        reveal(with_value);
        assert(b[0] as int == 0xB8 + r);
        lemma_imm32(b, 1, val as u32);
    }
}

/// Loading a byte: the lowest byte of the register becomes the byte, the others stay.
pub proof fn load_imm8_loads(into: Regs, val: u8, m: Machine)
    requires
        m.wf(),
    ensures
        ({
            let b = X86::code(Ir::LoadImm8 { into, val }).bytes;
            let r = into.number_spec();
            let after = executed(b, m);
            &&& X86::code(Ir::LoadImm8 { into, val }).relocations.len() == 0
            &&& after.is_some()
            &&& after.unwrap() == (Machine {
                ip: m.ip + b.len(),
                regs: m.regs.update(r, m.regs[r] / 0x100 * 0x100 + val),
                ..m
            })
        }),
{
    reveal(executed_at);
    let b = X86::code(Ir::LoadImm8 { into, val }).bytes;
    let r: int = into.number_spec();
    if r >= 4 {
        assert(b[0] == 0x40 && b[1] as int == 0xB0 + r && b[2] == val);
    } else {
        assert(b[0] as int == 0xB0 + r && b[1] == val);
    }
}

/// Reading memory: the register becomes the number at the sum of the base and the offset. Offsets
/// go up to 2^31. The stack pointer is no base here, and 32 bits without an offset are left out.
pub proof fn reads_read_memory(into: Regs, base: Regs, offset: u32, m: Machine)
    requires
        m.wf(),
        base != Regs::Rsp,
        offset < 0x8000_0000,
    ensures
        ({
            let b = X86::code(Ir::ReadU64 { into, base, offset }).bytes;
            let addr = (m.regs[base.number_spec()] + offset) % 0x1_0000_0000_0000_0000;
            let after = executed(b, m);
            &&& X86::code(Ir::ReadU64 { into, base, offset }).relocations.len() == 0
            &&& after.is_some()
            &&& after.unwrap() == (Machine {
                ip: m.ip + b.len(),
                regs: m.regs.update(into.number_spec(), m.load64(addr)),
                ..m
            })
        }),
        offset != 0 ==> {
            let b = X86::code(Ir::ReadU32 { into, base, offset }).bytes;
            let addr = (m.regs[base.number_spec()] + offset) % 0x1_0000_0000_0000_0000;
            let after = executed(b, m);
            &&& X86::code(Ir::ReadU32 { into, base, offset }).relocations.len() == 0
            &&& after.is_some()
            &&& after.unwrap() == (Machine {
                ip: m.ip + b.len(),
                regs: m.regs.update(into.number_spec(), m.load32(addr)),
                ..m
            })
        },
{
    reveal(with_value);
    let (i, r): (int, int) = (into.number_spec(), base.number_spec());
    let b = X86::code(Ir::ReadU64 { into, base, offset }).bytes;
    assert(b[0] == 0x48 && b[1] == 0x8B && b[2] as int == 0x80 + 8 * i + r);
    lemma_imm32(b, 3, offset);
    lemma_operands(b, 2, 0, m, i, r);
    reveal(executed_at);
    assert(executed(b, m) == fetched(b, 2, true, m));
    reveal(fetched);
    if offset != 0 {
        let c = X86::code(Ir::ReadU32 { into, base, offset }).bytes;
        assert(c[0] == 0x8B && c[1] as int == 0x80 + 8 * i + r);
        lemma_imm32(c, 2, offset);
        lemma_operands(c, 1, 0, m, i, r);
        assert(executed(c, m) == fetched(c, 1, false, m));
    }
}

/// Pushing puts a register below the stack, whose pointer moves down by eight; popping takes it
/// from there and moves the pointer up.
pub proof fn push_and_pop_use_the_stack(reg: Regs, m: Machine)
    requires
        m.wf(),
    ensures
        ({
            let b = X86::code(Ir::Push { val: reg }).bytes;
            let sp = (m.regs[4] - 8) % 0x1_0000_0000_0000_0000;
            let after = executed(b, m);
            &&& X86::code(Ir::Push { val: reg }).relocations.len() == 0
            &&& after.is_some()
            &&& after.unwrap().ip == m.ip + b.len()
            &&& after.unwrap().regs == m.regs.update(4, sp)
            &&& after.unwrap().mem == m.store64(sp, m.regs[reg.number_spec()]).mem
        }),
        reg != Regs::Rsp ==> {
            let b = X86::code(Ir::Pop { into: reg }).bytes;
            let after = executed(b, m);
            &&& X86::code(Ir::Pop { into: reg }).relocations.len() == 0
            &&& after.is_some()
            &&& after.unwrap().ip == m.ip + b.len()
            &&& after.unwrap().regs == m.regs.update(
                4,
                (m.regs[4] + 8) % 0x1_0000_0000_0000_0000,
            ).update(reg.number_spec(), m.load64(m.regs[4]))
            &&& after.unwrap().mem == m.mem
        },
{
    reveal(executed_at);
    let r: int = reg.number_spec();
    let b = X86::code(Ir::Push { val: reg }).bytes;
    assert(b[0] as int == 0x50 + r);
    let c = X86::code(Ir::Pop { into: reg }).bytes;
    assert(c[0] as int == 0x58 + r);
}

/// What is pushed is what is popped.
pub proof fn pop_undoes_push(from: Regs, into: Regs, m: Machine)
    requires
        m.wf(),
        into != Regs::Rsp,
        m.regs[4] >= 8,
    ensures
        ({
            let pushed = executed(X86::code(Ir::Push { val: from }).bytes, m);
            let popped = executed(X86::code(Ir::Pop { into }).bytes, pushed.unwrap());
            &&& pushed.is_some() && popped.is_some()
            &&& popped.unwrap().regs == m.regs.update(
                into.number_spec(),
                m.regs[from.number_spec()],
            )
        }),
{
    push_and_pop_use_the_stack(from, m);
    let p = executed(X86::code(Ir::Push { val: from }).bytes, m).unwrap();
    let v: int = m.regs[from.number_spec()];
    let sp: int = (m.regs[4] - 8) % 0x1_0000_0000_0000_0000;
    assert(sp == m.regs[4] - 8);
    push_and_pop_use_the_stack(into, p);
    assert(p.load64(sp) == v) by {
        lemma_stored(m, sp, v);
    }
    let q = executed(X86::code(Ir::Pop { into }).bytes, p).unwrap();
    assert(q.regs =~= m.regs.update(into.number_spec(), v));
}

proof fn lemma_stored(m: Machine, addr: int, v: int)
    requires
        0 <= v < 0x1_0000_0000_0000_0000,
    ensures
        m.store64(addr, v).load64(addr) == v,
{
    let a: int = v / 0x100;
    let b: int = v / 0x1_0000;
    let c: int = v / 0x100_0000;
    let d: int = v / 0x1_0000_0000;
    let e: int = v / 0x100_0000_0000;
    let f: int = v / 0x1_0000_0000_0000;
    let g: int = v / 0x100_0000_0000_0000;
    assert(b == a / 0x100);
    assert(c == b / 0x100);
    assert(d == c / 0x100);
    assert(e == d / 0x100);
    assert(f == e / 0x100);
    assert(g == f / 0x100);
}

/// Returning: the value goes into the first register, and the address to go on at comes off the
/// stack.
pub proof fn return_returns(val: Regs, m: Machine)
    requires
        m.wf(),
    ensures
        ({
            let code = X86::code(Ir::Return { val });
            let after = if val == Regs::Rax {
                executed(code.bytes, m)
            } else {
                executed_both(code.bytes, 3, m)
            };
            let v = m.regs[val.number_spec()];
            &&& code.relocations.len() == 0
            &&& after.is_some()
            &&& after.unwrap() == (Machine {
                ip: m.load64(m.regs[4]),
                regs: m.regs.update(0, v).update(4, (m.regs[4] + 8) % 0x1_0000_0000_0000_0000),
                ..m
            })
        }),
{
    reveal(executed_at);
    reveal(load_code);
    let b = X86::code(Ir::Return { val }).bytes;
    if val == Regs::Rax {
        assert(b[0] == 0xC3);
        assert(m.regs.update(0, m.regs[0]) =~= m.regs);
    } else {
        assert(b[0] == 0x48 && b[1] == 0x89 && b[2] as int == 0xc0 + 8 * val.number_spec() && b[3]
            == 0xC3);
        assert(b.skip(3)[0] == 0xC3);
        lemma_operands(b, 2, 0, m, val.number_spec(), 0);
        assert(executed(b, m) == copied(b, 2, true, m));
        reveal(copied);
    }
}

/// Selecting bits 8 to 16: the register becomes the second byte of the other one.
pub proof fn select_bits_selects(into: Regs, from: Regs, start: u8, end: u8, m: Machine)
    requires
        m.wf(),
        X86::supports(Ir::SelectBits { into, from, start, end }),
    ensures
        start == 8 && end == 16,
        ({
            let b = X86::code(Ir::SelectBits { into, from, start, end }).bytes;
            let after = executed(b, m);
            &&& X86::code(Ir::SelectBits { into, from, start, end }).relocations.len() == 0
            &&& after.is_some()
            &&& after.unwrap() == (Machine {
                ip: m.ip + b.len(),
                regs: m.regs.update(
                    into.number_spec(),
                    m.regs[from.number_spec()] / 0x100 % 0x100,
                ),
                ..m
            })
        }),
{
    let b = X86::code(Ir::SelectBits { into, from, start, end }).bytes;
    assert(b[0] == 0x0F && b[1] == 0xB6 && b[2] as int == 0xC4 + 8 * into.number_spec()
        + from.number_spec());
    lemma_operands(b, 2, 0, m, into.number_spec(), from.number_spec() + 4);
    reveal(executed_at);
    assert(executed(b, m) == executed_long(b, m));
    reveal(executed_long);
}

/// The code of an operation with a reference holds the reference in its last four bytes.
proof fn lemma_label_last(front: Code, to: Label, here: int, there: int)
    requires
        front.relocations.len() == 0,
        front.bytes.len() <= 32,
        near(here, there),
    ensures
        ({
            let code = with_label(front, to);
            let n = front.bytes.len() as int;
            let b = referring(code, here, there);
            &&& refers_to(code, to)
            &&& code.relocations[0].pos == n
            &&& b.len() == n + 4
            &&& forall|i: int| 0 <= i < n ==> #[trigger] b[i] == front.bytes[i]
            &&& signed32(imm32(b, n)) == there - here - n - 4
            &&& (here + n + 4 + signed32(imm32(b, n))) % 0x1_0000_0000_0000_0000 == there
        }),
{
    reveal(with_label);
    let code = with_label(front, to);
    let n: int = front.bytes.len() as int;
    let b = referring(code, here, there);
    let d: u32 = ((there - here - n - 4) % 0x1_0000_0000) as u32;
    assert(code.relocations[0] == (Relocation { pos: n as usize, bits: 32, label: to, shift: 0, shr: 0 }));
    lemma_imm32(b, n, d);
    lemma_distance(here + n + 4, there);
}

/// Jumping: the code goes on at the label.
pub proof fn jump_jumps(to: Label, m: Machine, there: int)
    requires
        m.wf(),
        near(m.ip, there),
    ensures
        ({
            let code = X86::code(Ir::Jump { to });
            &&& refers_to(code, to)
            &&& executed(referring(code, m.ip, there), m) == Some(Machine { ip: there, ..m })
        }),
{
    reveal(executed_at);
    lemma_label_last(Code::of_bytes(seq![0xE9u8]), to, m.ip, there);
    let b = referring(X86::code(Ir::Jump { to }), m.ip, there);
    assert(b[0] == 0xE9);
}

/// Calling: the code goes on at the address that stands at the label, and the address behind the
/// call is on the stack.
pub proof fn call_calls(label: Label, m: Machine, there: int)
    requires
        m.wf(),
        near(m.ip, there),
    ensures
        ({
            let code = X86::code(Ir::CallRipRelative { label });
            let sp = (m.regs[4] - 8) % 0x1_0000_0000_0000_0000;
            let after = executed(referring(code, m.ip, there), m);
            &&& refers_to(code, label)
            &&& after.is_some()
            &&& after.unwrap().ip == m.load64(there)
            &&& after.unwrap().regs == m.regs.update(4, sp)
            &&& after.unwrap().mem == m.store64(sp, m.ip + code.bytes.len()).mem
        }),
{
    lemma_label_last(Code::of_bytes(seq![0xffu8, 0x15]), label, m.ip, there);
    let b = referring(X86::code(Ir::CallRipRelative { label }), m.ip, there);
    assert(b[0] == 0xff && b[1] == 0x15);
    lemma_operands(b, 1, 0, m, 2, 5);
    reveal(executed_at);
    assert(executed(b, m) == called(b, 1, m));
    reveal(called);
}

/// Branching on a byte register: the code goes on at the label if no bit is set both in the byte
/// register and in the lowest byte of the first register; for the first register itself, if its
/// lowest byte is zero.
pub proof fn branch_on_byte_tests(val: Regs, to: Label, m: Machine, there: int)
    requires
        m.wf(),
        near(m.ip, there),
        val.number_spec() < 4,
    ensures
        ({
            let code = X86::code(Ir::BrIfReg8False { val, to });
            let b = referring(code, m.ip, there);
            let after = executed_both(b, 2, m);
            let (x, a) = (m.regs[val.number_spec()] % 0x100, m.regs[0] % 0x100);
            &&& refers_to(code, to)
            &&& after.is_some()
            &&& after.unwrap().ip == (if x as u8 & a as u8 == 0 {
                there
            } else {
                m.ip + b.len()
            })
            &&& val == Regs::Rax ==> (after.unwrap().ip == there <==> x == 0 || there == m.ip
                + b.len())
            &&& after.unwrap().regs == m.regs && after.unwrap().mem == m.mem
        }),
{
    let r: int = val.number_spec();
    lemma_label_last(
        Code::of_bytes(seq![0x84u8, plus_reg(0xC0, val), 0x0f, 0x84]),
        to,
        m.ip,
        there,
    );
    let b = referring(X86::code(Ir::BrIfReg8False { val, to }), m.ip, there);
    assert(b[0] == 0x84 && b[1] as int == 0xC0 + r && b[2] == 0x0f && b[3] == 0x84);
    let c = b.skip(2);
    assert(c[0] == 0x0f && c[1] == 0x84);
    assert(c[2] == b[4] && c[3] == b[5] && c[4] == b[6] && c[5] == b[7]);
    assert(imm32(c, 2) == imm32(b, 4));
    let x: u8 = (m.regs[0] % 0x100) as u8;
    assert(x & x == x) by (bit_vector);
    lemma_operands(b, 1, 0, m, 0, r);
    reveal(executed_at);
    assert(executed(b, m) == tested(b, 1, false, m));
    let mid = tested(b, 1, false, m);
    assert(mid.is_some() && mid.unwrap() == (Machine {
        ip: m.ip + 2,
        zero: (m.regs[r] % 0x100) as u8 & x == 0,
        ..m
    })) by {
        reveal(tested);
    }
    assert(executed(c, mid.unwrap()) == executed_long(c, mid.unwrap()));
    reveal(executed_long);
}

/// The front of a comparison with memory and its branch.
proof fn lemma_compare_front(op: u8, jump: u8, base: Regs, offset: u32)
    ensures
        ({
            let c = with_value(seq![op, plus_reg(0xb8, base)], offset, seq![0u8, 0x0f, jump]);
            &&& c.relocations.len() == 0
            &&& c.bytes.len() == 9
            &&& c.bytes[0] == op && c.bytes[1] as int == 0xb8 + base.number_spec()
            &&& imm32(c.bytes, 2) == offset
            &&& c.bytes[6] == 0 && c.bytes[7] == 0x0f && c.bytes[8] == jump
        }),
{
    reveal(with_value);
    let c = with_value(seq![op, plus_reg(0xb8, base)], offset, seq![0u8, 0x0f, jump]);
    lemma_imm32(c.bytes, 2, offset);
}

/// Branching on memory: the code goes on at the label if the 32 bits at the sum of the base and the
/// offset are not all zero; for the other operation, if the byte there is zero.
pub proof fn branches_on_memory_test(base: Regs, offset: u32, to: Label, m: Machine, there: int)
    requires
        m.wf(),
        near(m.ip, there),
        base != Regs::Rsp,
        offset < 0x8000_0000,
    ensures
        ({
            let code = X86::code(Ir::BrIfMem32IsNonZeroAtomic { base, offset, to });
            let b = referring(code, m.ip, there);
            let addr = (m.regs[base.number_spec()] + offset) % 0x1_0000_0000_0000_0000;
            let after = executed_both(b, 7, m);
            &&& refers_to(code, to)
            &&& after.is_some()
            &&& after.unwrap().ip == (if m.load32(addr) != 0 {
                there
            } else {
                m.ip + b.len()
            })
            &&& after.unwrap().regs == m.regs && after.unwrap().mem == m.mem
        }),
        ({
            let code = X86::code(Ir::BrIfMem8IsZero { base, offset, to });
            let b = referring(code, m.ip, there);
            let addr = (m.regs[base.number_spec()] + offset) % 0x1_0000_0000_0000_0000;
            let after = executed_both(b, 7, m);
            &&& refers_to(code, to)
            &&& after.is_some()
            &&& after.unwrap().ip == (if m.mem[addr] == 0 {
                there
            } else {
                m.ip + b.len()
            })
            &&& after.unwrap().regs == m.regs && after.unwrap().mem == m.mem
        }),
{
    lemma_compare_front(0x83, 0x85, base, offset);
    let front = with_value(seq![0x83u8, plus_reg(0xb8, base)], offset, seq![0u8, 0x0f, 0x85]);
    lemma_label_last(front, to, m.ip, there);
    let b = referring(X86::code(Ir::BrIfMem32IsNonZeroAtomic { base, offset, to }), m.ip, there);
    assert(b[0] == 0x83 && b[1] as int == 0xb8 + base.number_spec() && b[6] == 0 && b[7] == 0x0f
        && b[8] == 0x85);
    assert(b[2] == front.bytes[2] && b[3] == front.bytes[3] && b[4] == front.bytes[4] && b[5]
        == front.bytes[5]);
    lemma_tail(b, 7);
    lemma_compare_and_jump(b, base, offset, m, there);
    lemma_compare_front(0x80, 0x84, base, offset);
    let other = with_value(seq![0x80u8, plus_reg(0xb8, base)], offset, seq![0u8, 0x0f, 0x84]);
    lemma_label_last(other, to, m.ip, there);
    let c = referring(X86::code(Ir::BrIfMem8IsZero { base, offset, to }), m.ip, there);
    assert(c[0] == 0x80 && c[1] as int == 0xb8 + base.number_spec() && c[6] == 0 && c[7] == 0x0f
        && c[8] == 0x84);
    assert(c[2] == other.bytes[2] && c[3] == other.bytes[3] && c[4] == other.bytes[4] && c[5]
        == other.bytes[5]);
    lemma_tail(c, 7);
    lemma_compare_and_jump(c, base, offset, m, there);
}

/// A comparison of memory with zero and its jump.
proof fn lemma_compare_and_jump(b: Seq<u8>, base: Regs, offset: u32, m: Machine, there: int)
    requires
        m.wf(),
        base != Regs::Rsp,
        offset < 0x8000_0000,
        b.len() == 13,
        b[0] == 0x83 && b[8] == 0x85 || b[0] == 0x80 && b[8] == 0x84,
        b[1] as int == 0xb8 + base.number_spec(),
        imm32(b, 2) == offset,
        b[6] == 0 && b[7] == 0x0f,
        (m.ip + 13 + signed32(imm32(b, 9))) % 0x1_0000_0000_0000_0000 == there,
    ensures
        ({
            let addr = (m.regs[base.number_spec()] + offset) % 0x1_0000_0000_0000_0000;
            let after = executed_both(b, 7, m);
            &&& after.is_some()
            &&& after.unwrap().regs == m.regs && after.unwrap().mem == m.mem
            &&& after.unwrap().ip == (if b[0] == 0x83 && m.load32(addr) != 0 || b[0] == 0x80
                && m.mem[addr] == 0 {
                there
            } else {
                m.ip + 13
            })
        }),
{
    let r: int = base.number_spec();
    let addr: int = (m.regs[r] + offset) % 0x1_0000_0000_0000_0000;
    lemma_operands(b, 1, 1, m, 7, r);
    reveal(executed_at);
    assert(executed(b, m) == compared(b, 1, b[0] == 0x80, m));
    let mid = compared(b, 1, b[0] == 0x80, m);
    assert(mid.is_some() && mid.unwrap() == (Machine {
        ip: m.ip + 7,
        zero: if b[0] == 0x80 {
            m.mem[addr] == 0
        } else {
            m.load32(addr) == 0
        },
        ..m
    })) by {
        reveal(compared);
    }
    lemma_tail(b, 7);
    let c = b.skip(7);
    assert(executed(c, mid.unwrap()) == executed_long(c, mid.unwrap()));
    reveal(executed_long);
}

proof fn lemma_tail(b: Seq<u8>, n: int)
    requires
        0 <= n,
        n + 6 <= b.len(),
    ensures
        b.skip(n)[0] == b[n] && b.skip(n)[1] == b[n + 1],
        imm32(b.skip(n), 2) == imm32(b, n + 2),
{
    let c = b.skip(n);
    assert(c[2] == b[n + 2] && c[3] == b[n + 3] && c[4] == b[n + 4] && c[5] == b[n + 5]);
}

/// Branching on a number: the code goes on at the label if the low 32 bits of the register are the
/// number.
pub proof fn branch_on_number_compares(reg: Regs, imm: u32, label: Label, m: Machine, there: int)
    requires
        m.wf(),
        near(m.ip, there),
    ensures
        ({
            let code = X86::code(Ir::BrIfEqImm { reg, imm, label });
            let b = referring(code, m.ip, there);
            let after = executed_both(b, 6, m);
            &&& refers_to(code, label)
            &&& after.is_some()
            &&& after.unwrap().ip == (if m.regs[reg.number_spec()] % 0x1_0000_0000 == imm {
                there
            } else {
                m.ip + b.len()
            })
            &&& after.unwrap().regs == m.regs && after.unwrap().mem == m.mem
        }),
{
    reveal(with_value);
    let r: int = reg.number_spec();
    let front = with_value(seq![0x81u8, plus_reg(0xF8, reg)], imm, seq![0x0Fu8, 0x84]);
    assert(front.relocations.len() == 0 && front.bytes.len() == 8);
    assert(front.bytes[0] == 0x81 && front.bytes[1] as int == 0xF8 + r && front.bytes[6] == 0x0f
        && front.bytes[7] == 0x84);
    lemma_imm32(front.bytes, 2, imm);
    lemma_label_last(front, label, m.ip, there);
    let b = referring(X86::code(Ir::BrIfEqImm { reg, imm, label }), m.ip, there);
    assert(b[0] == 0x81 && b[1] as int == 0xF8 + r && b[6] == 0x0f && b[7] == 0x84);
    assert(b[2] == front.bytes[2] && b[3] == front.bytes[3] && b[4] == front.bytes[4] && b[5]
        == front.bytes[5]);
    assert(imm32(b, 2) == imm);
    lemma_tail(b, 6);
    lemma_operands(b, 1, 4, m, 7, r);
    reveal(executed_at);
    assert(executed(b, m) == with_immediate(b, 1, 7, m));
    let mid = with_immediate(b, 1, 7, m);
    assert(mid.is_some() && mid.unwrap() == (Machine {
        ip: m.ip + 6,
        zero: m.regs[r] % 0x1_0000_0000 == imm,
        ..m
    })) by {
        reveal(with_immediate);
    }
    let c = b.skip(6);
    assert(executed(c, mid.unwrap()) == executed_long(c, mid.unwrap()));
    reveal(executed_long);
}

/// MOV r32, [r + x * 4].
proof fn lemma_scaled_fetch(c: Seq<u8>, r: int, x: int, n: Machine)
    requires
        0 <= r < 8 && r != 5,
        0 <= x < 8 && x != 4,
        c[0] == 0x8B,
        c[1] as int == 4 + 8 * r,
        c[2] as int == 0x80 + 8 * x + r,
    ensures
        executed(c, n) == went_on(
            n.set(r, n.load32((n.regs[r] + n.regs[x] * 4) % 0x1_0000_0000_0000_0000)),
            3,
        ),
{
    let addr: int = (n.regs[r] + n.regs[x] * 4) % 0x1_0000_0000_0000_0000;
    assert(c[1] as int / 64 == 0 && c[1] as int % 8 == 4 && c[1] as int / 8 % 8 == r);
    assert(c[2] as int % 8 == r && c[2] as int / 8 % 8 == x && c[2] as int / 64 == 2);
    assert(operand(c, 1, 0, n) == (Operand::Memory(addr), 2int)) by {
        reveal(operand);
    }
    assert(executed(c, n) == fetched(c, 1, false, n)) by {
        reveal(executed_at);
    }
    reveal(fetched);
}

/// LEA r, [ip + distance].
proof fn lemma_relative_address(b: Seq<u8>, r: int, m: Machine)
    requires
        0 <= r < 8,
        b[0] == 0x48 && b[1] == 0x8D,
        b[2] as int == 5 + 8 * r,
    ensures
        executed(b, m) == went_on(
            m.set(r, (m.ip + 7 + signed32(imm32(b, 3))) % 0x1_0000_0000_0000_0000),
            7,
        ),
{
    lemma_operands(b, 2, 0, m, r, 5);
    assert(executed(b, m) == addressed(b, 2, m)) by {
        reveal(executed_at);
    }
    reveal(addressed);
}

/// Reading from a table at a label: the register becomes the 32 bits that lie as many times four
/// bytes behind the label as the other register counts. The register is neither the other one nor
/// the frame pointer, and the other one is not the stack pointer.
pub proof fn table_read_reads(into: Regs, label: Label, index: Regs, m: Machine, there: int)
    requires
        m.wf(),
        near(m.ip, there),
        into != index,
        into != Regs::Rbp,
        into != Regs::Rsp,
        index != Regs::Rsp,
    ensures
        ({
            let code = X86::code(Ir::ReadArrayPtrU32 { into, label, index });
            let b = referring(code, m.ip, there);
            let addr = (there + m.regs[index.number_spec()] * 4) % 0x1_0000_0000_0000_0000;
            let after = executed_both(b, 7, m);
            &&& refers_to(code, label)
            &&& after.is_some()
            &&& after.unwrap() == (Machine {
                ip: m.ip + b.len(),
                regs: m.regs.update(into.number_spec(), m.load32(addr)),
                ..m
            })
        }),
{
    let (i, x): (int, int) = (into.number_spec(), index.number_spec());
    let front = Code::of_bytes(seq![0x48u8, 0x8D, modrm(5, into, Regs::Rax)]);
    lemma_label_last(front, label, m.ip, there);
    let code = X86::code(Ir::ReadArrayPtrU32 { into, label, index });
    let first = with_label(front, label);
    assert(code.relocations.len() == 1 && code.relocations[0] == first.relocations[0]);
    let b = referring(code, m.ip, there);
    let f = referring(first, m.ip, there);
    assert forall|k: int| 0 <= k < 7 implies b[k] == f[k] by {
        assert(code.bytes[k] == first.bytes[k]);
    }
    assert(b[0] == 0x48 && b[1] == 0x8D && b[2] as int == 5 + 8 * i);
    assert(b[3] == f[3] && b[4] == f[4] && b[5] == f[5] && b[6] == f[6]);
    assert(imm32(b, 3) == imm32(f, 3));
    assert(b[7] == 0x8B && b[8] as int == 4 + 8 * i && b[9] as int == 0x80 + 8 * x + i);
    let c = b.skip(7);
    assert(c[0] == 0x8B && c[1] == b[8] && c[2] == b[9]);
    lemma_relative_address(b, i, m);
    let mid = executed(b, m);
    assert(mid == Some(Machine { ip: m.ip + 7, regs: m.regs.update(i, there), ..m }));
    assert(m.regs.update(i, there)[x] == m.regs[x]);
    let addr: int = (there + m.regs[x] * 4) % 0x1_0000_0000_0000_0000;
    lemma_scaled_fetch(c, i, x, mid.unwrap());
    assert(m.regs.update(i, there).update(i, m.load32(addr)) =~= m.regs.update(i, m.load32(addr)));
}

/// The registers have the numbers that instructions know them by.
pub proof fn registers_have_their_numbers()
    ensures
        Regs::Rax.number_spec() == 0,
        Regs::Rcx.number_spec() == 1,
        Regs::Rdx.number_spec() == 2,
        Regs::Rbx.number_spec() == 3,
        Regs::Rsp.number_spec() == 4,
        Regs::Rbp.number_spec() == 5,
        Regs::Rsi.number_spec() == 6,
        Regs::Rdi.number_spec() == 7,
{
}

/// A function returns in the first register, and gets its arguments as C functions do: in the
/// registers 7, 6, 2 and 1. It keeps register 3.
pub proof fn registers_follow_the_calling_convention()
    ensures
        X86::return_reg_spec().number_spec() == 0,
        X86::return_reg2_spec().number_spec() == 2,
        X86::parameter_spec().len() == 4,
        X86::parameter_spec()[0].number_spec() == 7,
        X86::parameter_spec()[1].number_spec() == 6,
        X86::parameter_spec()[2].number_spec() == 2,
        X86::parameter_spec()[3].number_spec() == 1,
        forall|i: int|
            0 <= i < X86::callee_saved_spec().len() ==> (
            #[trigger] X86::callee_saved_spec()[i]).number_spec() == 3,
        forall|i: int|
            0 <= i < X86::caller_saved_spec().len() ==> {
                let n = (#[trigger] X86::caller_saved_spec()[i]).number_spec();
                n == 0 || n == 1 || n == 2 || n == 6 || n == 7
            },
{
}

} // verus!
