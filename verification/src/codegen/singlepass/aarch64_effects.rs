//! What machine code for AArch64 does: a reading of instructions, and the effects of the code of
//! each operation.
use vstd::arithmetic::power2::{lemma2_to64, pow2};
use vstd::prelude::*;

use crate::codegen::singlepass::aarch64::{
    add_w_word, add_x_imm_word, blr_word, branch, compare_code, compare_w_imm_word, compare_x_word,
    instr, ldar_w_word, ldr_w_word, ldr_x_word, load_imm_code, mov_reg_word, movk_word, movz_w_word,
    movz_word, pop2_x_word, push2_x_word, AArch64, Regs,
};
use crate::codegen::singlepass::emitter::{Code, Relocation};
use crate::codegen::singlepass::{Ir, Label, Target};

verus! {

/// The processor: its registers X0 to X30, the stack pointer, memory, the address of the next
/// instruction, and whether the last comparison was one of equals.
pub struct Machine {
    pub regs: Seq<int>,
    pub sp: int,
    pub mem: Map<int, u8>,
    pub ip: int,
    pub equal: bool,
}

impl Machine {
    pub open spec fn wf(&self) -> bool {
        &&& self.regs.len() == 31
        &&& forall|i: int| 0 <= i < 31 ==> 0 <= #[trigger] self.regs[i] < 0x1_0000_0000_0000_0000
        &&& 0 <= self.sp < 0x1_0000_0000_0000_0000
    }

    pub open spec fn load32(&self, addr: int) -> int {
        self.mem[addr] + 0x100 * self.mem[addr + 1] + 0x1_0000 * self.mem[addr + 2] + 0x100_0000
            * self.mem[addr + 3]
    }

    pub open spec fn load64(&self, addr: int) -> int {
        self.load32(addr) + 0x1_0000_0000 * self.load32(addr + 4)
    }

    pub open spec fn store64(self, addr: int, val: int) -> Machine {
        Machine {
            mem: self.mem.insert(addr, (val % 0x100) as u8).insert(
                addr + 1,
                (val / 0x100 % 0x100) as u8,
            ).insert(addr + 2, (val / 0x1_0000 % 0x100) as u8).insert(
                addr + 3,
                (val / 0x100_0000 % 0x100) as u8,
            ).insert(addr + 4, (val / 0x1_0000_0000 % 0x100) as u8).insert(
                addr + 5,
                (val / 0x100_0000_0000 % 0x100) as u8,
            ).insert(addr + 6, (val / 0x1_0000_0000_0000 % 0x100) as u8).insert(
                addr + 7,
                (val / 0x100_0000_0000_0000 % 0x100) as u8,
            ),
            ..self
        }
    }

    pub open spec fn set(self, reg: int, val: int) -> Machine {
        Machine { regs: self.regs.update(reg, val), ..self }
    }

    /// The next instruction follows.
    pub open spec fn next(self) -> Machine {
        Machine { ip: self.ip + 4, ..self }
    }
}

/// The number in the four bytes at the front of `b`.
pub open spec fn word_of(b: Seq<u8>) -> int {
    b[0] + 0x100 * b[1] + 0x1_0000 * b[2] + 0x100_0000 * b[3]
}

/// A distance of `range` words at most, half of them backwards, in bytes.
pub open spec fn jump_distance(field: int, range: int) -> int {
    if field < range / 2 {
        field * 4
    } else {
        (field - range) * 4
    }
}

/// The processor after an instruction, if it is one that is read here. Register 31 is only read as
/// zero or as the stack pointer.
#[verifier::opaque]
pub open spec fn executed(w: int, m: Machine) -> Option<Machine> {
    let d = w % 32;
    let n = w / 32 % 32;
    let x = w / 0x1_0000 % 32;
    let imm12 = w / 0x400 % 0x1000;
    let imm16 = w / 32 % 0x1_0000;
    let part = w / 0x20_0000 % 4;
    let place = if part == 0 {
        1int
    } else if part == 1 {
        0x1_0000
    } else if part == 2 {
        0x1_0000_0000
    } else {
        0x1_0000_0000_0000
    };
    let near = (m.ip + jump_distance(w / 32 % 0x8_0000, 0x8_0000)) % 0x1_0000_0000_0000_0000;
    if w / 0x40_0000 == 0x2E5 && d < 31 && n < 31 {
        // LDR Wt, [Xn, #imm]
        Some(m.set(d, m.load32((m.regs[n] + imm12 * 4) % 0x1_0000_0000_0000_0000)).next())
    } else if w / 0x40_0000 == 0x3E5 && d < 31 && n < 31 {
        // LDR Xt, [Xn, #imm]
        Some(m.set(d, m.load64((m.regs[n] + imm12 * 8) % 0x1_0000_0000_0000_0000)).next())
    } else if w / 0x80_0000 == 0x1A5 && d < 31 {
        // MOVZ Xd, #imm, LSL #(16 * part)
        Some(m.set(d, imm16 * place).next())
    } else if w / 0x80_0000 == 0x1E5 && d < 31 {
        // MOVK Xd, #imm, LSL #(16 * part)
        let v = m.regs[d];
        Some(
            m.set(d, v / (place * 0x1_0000) * (place * 0x1_0000) + imm16 * place + v % place).next(),
        )
    } else if w / 0x80_0000 == 0xA5 && d < 31 && part == 0 {
        // MOVZ Wd, #imm
        Some(m.set(d, imm16).next())
    } else if w / 0x20_0000 == 0x550 && w / 0x400 % 64 == 0 && n == 31 && d < 31 && x < 31 {
        // ORR Xd, XZR, Xm
        Some(m.set(d, m.regs[x]).next())
    } else if w / 0x20_0000 == 0x58 && w / 0x400 % 64 == 0 && n < 31 && d < 31 && x < 31 {
        // ADD Wd, Wn, Wm
        Some(m.set(d, (m.regs[n] + m.regs[x]) % 0x1_0000_0000).next())
    } else if w / 0x40_0000 == 0x244 && n < 31 && d < 31 {
        // ADD Xd, Xn, #imm
        Some(m.set(d, (m.regs[n] + imm12) % 0x1_0000_0000_0000_0000).next())
    } else if w / 0x40_0000 == 0x1C4 && n < 31 && d == 31 {
        // CMP Wn, #imm
        Some(Machine { equal: m.regs[n] % 0x1_0000_0000 == imm12, ..m }.next())
    } else if w / 0x20_0000 == 0x758 && w / 0x400 % 64 == 0 && n < 31 && d == 31 && x < 31 {
        // CMP Xn, Xm
        Some(Machine { equal: m.regs[n] == m.regs[x], ..m }.next())
    } else if w / 0x40_0000 == 0x2A6 && w / 0x8000 % 128 >= 64 && n == 31 && d < 31 && w / 0x400
        % 32 < 31 {
        // STP Xt, Xt2, [SP, #-imm]!
        let to = (m.sp + (w / 0x8000 % 128 - 128) * 8) % 0x1_0000_0000_0000_0000;
        Some(
            Machine {
                sp: to,
                ..m.store64(to, m.regs[d]).store64(to + 8, m.regs[w / 0x400 % 32])
            }.next(),
        )
    } else if w / 0x40_0000 == 0x2A3 && w / 0x8000 % 128 < 64 && n == 31 && d < 31 && w / 0x400 % 32
        < 31 {
        // LDP Xt, Xt2, [SP], #imm
        Some(
            Machine {
                sp: (m.sp + w / 0x8000 % 128 * 8) % 0x1_0000_0000_0000_0000,
                ..m.set(d, m.load64(m.sp)).set(w / 0x400 % 32, m.load64(m.sp + 8))
            }.next(),
        )
    } else if w / 0x400 == 0x22_37FF && n < 31 && d < 31 {
        // LDAR Wt, [Xn]
        Some(m.set(d, m.load32(m.regs[n])).next())
    } else if w / 0x400 == 0x35_8FC0 && d == 0 && n < 31 {
        // BLR Xn
        Some(Machine { ip: m.regs[n], ..m.set(30, m.ip + 4) })
    } else if w / 0x400 == 0x35_97C0 && d == 0 && n < 31 {
        // RET Xn
        Some(Machine { ip: m.regs[n], ..m })
    } else if w / 0x100_0000 == 0x58 && d < 31 {
        // LDR Xt, label
        Some(m.set(d, m.load64(near)).next())
    } else if w / 0x400_0000 == 5 {
        // B label
        let to = m.ip + jump_distance(w % 0x400_0000, 0x400_0000);
        Some(Machine { ip: to % 0x1_0000_0000_0000_0000, ..m })
    } else if w / 0x100_0000 == 0xb4 && d < 31 {
        // CBZ Xt, label
        if m.regs[d] == 0 {
            Some(Machine { ip: near, ..m })
        } else {
            Some(m.next())
        }
    } else if w / 0x100_0000 == 0x35 && d < 31 {
        // CBNZ Wt, label
        if m.regs[d] % 0x1_0000_0000 != 0 {
            Some(Machine { ip: near, ..m })
        } else {
            Some(m.next())
        }
    } else if w / 0x100_0000 == 0x54 && d == 0 {
        // B.EQ label
        if m.equal {
            Some(Machine { ip: near, ..m })
        } else {
            Some(m.next())
        }
    } else {
        None
    }
}

/// The bytes of a piece of code hold this word, with nothing to be filled in.
pub open spec fn is_word(code: Code, w: int) -> bool {
    code.bytes.len() == 4 && code.relocations.len() == 0 && word_of(code.bytes) == w
}

proof fn lemma_word(w: int)
    requires
        0 <= w < 0x1_0000_0000,
    ensures
        is_word(instr(w), w),
{
    reveal(instr);
    crate::bytes::le_round_trip(0, w as u32, 0);
}

/// A word with a distance filled in, in units of four bytes: in bits 5 to 23, or in bits 0 to 25.
pub open spec fn with_distance(w: int, bits: usize, distance: int) -> int {
    if bits == 19 {
        w + distance / 4 % 0x8_0000 * 32
    } else {
        w + distance / 4 % 0x400_0000
    }
}

proof fn lemma_patch_bits(w: int, o: int, unit: int, range: int, step: int)
    requires
        0 <= w < 0x1_0000_0000,
        0 <= o < 0x1_0000_0000,
        unit == 32 && range == 0x8_0000 && step == 4 || unit == 1 && range == 0x400_0000 && step == 4
            || unit == 1 && range == 0x1_0000_0000 && step == 1,
    ensures
        ({
            let v = w / (unit * range) * (unit * range) + (o / step % range) * unit + w % unit;
            &&& unit == 32 && w / 32 % 0x8_0000 == 0 ==> v == w + o / 4 % 0x8_0000 * 32
            &&& range == 0x400_0000 && w % 0x400_0000 == 0 ==> v == w + o / 4 % 0x400_0000
            &&& range == 0x1_0000_0000 ==> v == o
        }),
{
    if unit == 32 {
        assert(unit * range == 0x100_0000) by (nonlinear_arith)
            requires
                unit == 32,
                range == 0x8_0000,
        ;
        assert(w / 0x100_0000 == w / 32 / 0x8_0000);
    } else {
        assert(unit * range == range) by (nonlinear_arith)
            requires
                unit == 1,
        ;
    }
}

/// What a reference holds in finished code: the word as it was emitted, and the distance in its
/// bits 5 to 23, or 0 to 25, in units of four bytes, or the whole distance in 32 bits.
pub proof fn references_hold_the_distance(r: Relocation, word: u32, distance: u32)
    ensures
        r.bits == 19 && r.shift == 5 && r.shr == 2 && word as int / 32 % 0x8_0000 == 0 ==> r.patched(
            word,
            distance,
        ) == word + distance / 4 % 0x8_0000 * 32,
        r.bits == 26 && r.shift == 0 && r.shr == 2 && word as int % 0x400_0000 == 0 ==> r.patched(
            word,
            distance,
        ) == word + distance / 4 % 0x400_0000,
        r.bits == 32 && r.shift == 0 && r.shr == 0 ==> r.patched(word, distance) == distance,
{
    lemma2_to64();
    let (w, o): (int, int) = (word as int, distance as int);
    let unit: int = pow2(r.shift as nat) as int;
    let range: int = pow2(r.width()) as int;
    let step: int = pow2(r.shr as nat) as int;
    if r.bits == 19 && r.shift == 5 && r.shr == 2 {
        assert(r.width() == 19);
        assert(unit == 32 && range == 0x8_0000 && step == 4);
        lemma_patch_bits(w, o, unit, range, step);
    }
    if r.bits == 26 && r.shift == 0 && r.shr == 2 {
        assert(r.width() == 26);
        assert(unit == 1 && range == 0x400_0000 && step == 4);
        lemma_patch_bits(w, o, unit, range, step);
    }
    if r.bits == 32 && r.shift == 0 && r.shr == 0 {
        assert(r.width() == 32);
        assert(unit == 1 && range == 0x1_0000_0000 && step == 1);
        lemma_patch_bits(w, o, unit, range, step);
    }
}

/// A piece of code is one word with a reference to this label, in that many bits.
pub open spec fn is_branch(code: Code, label: Label, w: int, bits: usize) -> bool {
    &&& code.bytes.len() == 4 && word_of(code.bytes) == w
    &&& code.relocations.len() == 1
    &&& code.relocations[0] == (Relocation {
        pos: 0,
        bits,
        label,
        shift: if bits == 19 {
            5
        } else {
            0
        },
        shr: 2,
    })
}

proof fn lemma_branch(label: Label, w: int, bits: usize)
    requires
        0 <= w < 0x1_0000_0000,
        bits == 19 || bits == 26,
    ensures
        is_branch(
            branch(
                label,
                w,
                bits,
                if bits == 19 {
                    5
                } else {
                    0
                },
            ),
            label,
            w,
            bits,
        ),
{
    reveal(branch);
    crate::bytes::le_round_trip(0, w as u32, 0);
}

/// The distance between a piece of code and a label fits in 19 bits of words.
pub open spec fn near(here: int, there: int) -> bool {
    &&& 0 <= here < 0x1_0000_0000 && 0 <= there < 0x1_0000_0000
    &&& (there - here) % 4 == 0
    &&& -0x10_0000 <= there - here < 0x10_0000
}

proof fn lemma_distance(here: int, there: int)
    requires
        near(here, there),
    ensures
        (here + jump_distance((there - here) / 4 % 0x8_0000, 0x8_0000)) % 0x1_0000_0000_0000_0000
            == there,
        (here + jump_distance((there - here) / 4 % 0x400_0000, 0x400_0000))
            % 0x1_0000_0000_0000_0000 == there,
{
    let k: int = (there - here) / 4;
    if k >= 0 {
        assert(k % 0x8_0000 == k && k % 0x400_0000 == k);
    } else {
        assert(k % 0x8_0000 == k + 0x8_0000 && k % 0x400_0000 == k + 0x400_0000);
    }
}

/// Adding: the destination becomes the sum modulo 2^32.
pub proof fn add_adds(dst: Regs, src: Regs, m: Machine)
    requires
        m.wf(),
    ensures
        ({
            let code = AArch64::code(Ir::AddU32 { dst, src });
            let (d, s) = (dst.number_spec(), src.number_spec());
            &&& code.bytes.len() == 4 && code.relocations.len() == 0
            &&& executed(word_of(code.bytes), m) == Some(
                m.set(d, (m.regs[d] + m.regs[s]) % 0x1_0000_0000).next(),
            )
        }),
{
    let (d, s): (int, int) = (dst.number_spec(), src.number_spec());
    lemma_word(add_w_word(d, s));
    lemma_sum(d, s, m);
}

proof fn lemma_sum_fields(d: int, s: int)
    requires
        0 <= d < 31,
        0 <= s < 31,
    ensures
        ({
            let w = add_w_word(d, s);
            &&& 0 <= w < 0x1_0000_0000
            &&& w / 0x20_0000 == 0x58 && w / 0x400 % 64 == 0 && w % 32 == d && w / 32 % 32 == d
            &&& w / 0x1_0000 % 32 == s && w / 0x40_0000 == 0x2C && w / 0x80_0000 == 0x16
        }),
{
    let w: int = add_w_word(d, s);
    let low: int = d * 32 + d;
    assert(w == 0x0b00_0000 + s * 0x1_0000 + low);
    assert(w / 0x1_0000 == 0xb00 + s);
    assert(w / 0x400 == 0x2_C000 + s * 64);
    assert(w / 32 == 0x58_0000 + s * 0x800 + d);
}

proof fn lemma_sum(d: int, s: int, m: Machine)
    requires
        m.wf(),
        0 <= d < 31,
        0 <= s < 31,
    ensures
        executed(add_w_word(d, s), m) == Some(
            m.set(d, (m.regs[d] + m.regs[s]) % 0x1_0000_0000).next(),
        ),
{
    lemma_sum_fields(d, s);
    reveal(executed);
}

/// Copying: the destination becomes the source, all 64 bits of it.
pub proof fn load_copies(into: Regs, from: Regs, m: Machine)
    requires
        m.wf(),
    ensures
        ({
            let code = AArch64::code(Ir::Load { into, from });
            &&& code.bytes.len() == 4 && code.relocations.len() == 0
            &&& executed(word_of(code.bytes), m) == Some(
                m.set(into.number_spec(), m.regs[from.number_spec()]).next(),
            )
        }),
{
    lemma_copy(into.number_spec(), from.number_spec(), m);
}

proof fn lemma_copy(d: int, s: int, m: Machine)
    requires
        m.wf(),
        0 <= d < 31,
        0 <= s < 31,
    ensures
        is_word(instr(mov_reg_word(d, s)), mov_reg_word(d, s)),
        executed(mov_reg_word(d, s), m) == Some(m.set(d, m.regs[s]).next()),
{
    let w: int = mov_reg_word(d, s);
    lemma_word(w);
    assert(w / 0x20_0000 == 0x550 && w / 0x400 % 64 == 0 && w % 32 == d && w / 32 % 32 == 31 && w
        / 0x1_0000 % 32 == s && w / 0x40_0000 == 0x2A8 && w / 0x80_0000 == 0x154);
    reveal(executed);
}

/// Loading a byte: the register becomes the byte.
pub proof fn load_imm8_loads(into: Regs, val: u8, m: Machine)
    requires
        m.wf(),
    ensures
        ({
            let code = AArch64::code(Ir::LoadImm8 { into, val });
            &&& code.bytes.len() == 4 && code.relocations.len() == 0
            &&& executed(word_of(code.bytes), m) == Some(
                m.set(into.number_spec(), val as int).next(),
            )
        }),
{
    let d: int = into.number_spec();
    let w: int = movz_w_word(d, val as int);
    lemma_word(w);
    assert(w / 0x80_0000 == 0xA5 && w % 32 == d && w / 32 % 0x1_0000 == val && w / 0x20_0000 % 4
        == 0 && w / 0x40_0000 == 0x14A);
    reveal(executed);
}

proof fn lemma_fetch32(d: int, n: int, k: int, m: Machine)
    requires
        m.wf(),
        0 <= d < 31,
        0 <= n < 31,
        0 <= k < 0x1000,
    ensures
        ldr_w_word(d, n, k * 4) == 0xb940_0000 + k * 0x400 + n * 32 + d,
        executed(0xb940_0000 + k * 0x400 + n * 32 + d, m) == Some(
            m.set(d, m.load32((m.regs[n] + k * 4) % 0x1_0000_0000_0000_0000)).next(),
        ),
{
    lemma_fetch_fields(d, n, k);
    assert(k * 4 / 4 % 0x1000 == k);
    reveal(executed);
}

proof fn lemma_fetch64(d: int, n: int, k: int, m: Machine)
    requires
        m.wf(),
        0 <= d < 31,
        0 <= n < 31,
        0 <= k < 0x1000,
    ensures
        ldr_x_word(d, n, k * 8) == 0xf940_0000 + k * 0x400 + n * 32 + d,
        executed(0xf940_0000 + k * 0x400 + n * 32 + d, m) == Some(
            m.set(d, m.load64((m.regs[n] + k * 8) % 0x1_0000_0000_0000_0000)).next(),
        ),
{
    lemma_fetch_fields(d, n, k);
    assert(k * 8 / 8 % 0x1000 == k);
    reveal(executed);
}

proof fn lemma_fetch_fields(d: int, n: int, k: int)
    requires
        0 <= d < 31,
        0 <= n < 31,
        0 <= k < 0x1000,
    ensures
        ({
            let v = 0xb940_0000 + k * 0x400 + n * 32 + d;
            &&& v / 0x40_0000 == 0x2E5 && v % 32 == d && v / 32 % 32 == n && v / 0x400 % 0x1000 == k
        }),
        ({
            let w = 0xf940_0000 + k * 0x400 + n * 32 + d;
            &&& w / 0x40_0000 == 0x3E5 && w % 32 == d && w / 32 % 32 == n && w / 0x400 % 0x1000 == k
        }),
{
}

/// Reading memory: the register becomes the number at the sum of the base and the offset, which is
/// a multiple of the size and below 4096 times it.
pub proof fn reads_read_memory(into: Regs, base: Regs, offset: u32, m: Machine)
    requires
        m.wf(),
    ensures
        offset % 4 == 0 && offset < 0x4000 ==> {
            let code = AArch64::code(Ir::ReadU32 { into, base, offset });
            let addr = (m.regs[base.number_spec()] + offset) % 0x1_0000_0000_0000_0000;
            &&& code.bytes.len() == 4 && code.relocations.len() == 0
            &&& executed(word_of(code.bytes), m) == Some(
                m.set(into.number_spec(), m.load32(addr)).next(),
            )
        },
        offset % 8 == 0 && offset < 0x8000 ==> {
            let code = AArch64::code(Ir::ReadU64 { into, base, offset });
            let addr = (m.regs[base.number_spec()] + offset) % 0x1_0000_0000_0000_0000;
            &&& code.bytes.len() == 4 && code.relocations.len() == 0
            &&& executed(word_of(code.bytes), m) == Some(
                m.set(into.number_spec(), m.load64(addr)).next(),
            )
        },
{
    let (d, n): (int, int) = (into.number_spec(), base.number_spec());
    if offset % 4 == 0 && offset < 0x4000 {
        lemma_word(ldr_w_word(d, n, offset as int));
        lemma_fetch32(d, n, offset as int / 4, m);
    }
    if offset % 8 == 0 && offset < 0x8000 {
        lemma_word(ldr_x_word(d, n, offset as int));
        lemma_fetch64(d, n, offset as int / 8, m);
    }
}

proof fn lemma_pair_fields(r: int)
    requires
        0 <= r < 31,
    ensures
        ({
            let w = push2_x_word(r, 30);
            &&& 0 <= w < 0x1_0000_0000
            &&& w / 0x40_0000 == 0x2A6 && w / 0x8000 % 128 == 126 && w / 32 % 32 == 31 && w % 32 == r
            &&& w / 0x400 % 32 == 30 && w / 0x80_0000 == 0x153 && w / 0x20_0000 == 0x54D
        }),
        ({
            let v = pop2_x_word(r, 30);
            &&& 0 <= v < 0x1_0000_0000
            &&& v / 0x40_0000 == 0x2A3 && v / 0x8000 % 128 == 2 && v / 32 % 32 == 31 && v % 32 == r
            &&& v / 0x400 % 32 == 30 && v / 0x80_0000 == 0x151 && v / 0x20_0000 == 0x546
        }),
{
    assert(push2_x_word(r, 30) == 0xa9bf_7be0 + r);
    assert(pop2_x_word(r, 30) == 0xa8c1_7be0 + r);
}

proof fn lemma_pair_stored(r: int, m: Machine)
    requires
        m.wf(),
        0 <= r < 31,
    ensures
        ({
            let to = (m.sp - 16) % 0x1_0000_0000_0000_0000;
            executed(push2_x_word(r, 30), m) == Some(
                Machine { sp: to, ..m.store64(to, m.regs[r]).store64(to + 8, m.regs[30]) }.next(),
            )
        }),
{
    lemma_pair_fields(r);
    reveal(executed);
}

proof fn lemma_pair_fetched(r: int, m: Machine)
    requires
        m.wf(),
        0 <= r < 31,
    ensures
        executed(pop2_x_word(r, 30), m) == Some(
            Machine {
                sp: (m.sp + 16) % 0x1_0000_0000_0000_0000,
                ..m.set(r, m.load64(m.sp)).set(30, m.load64(m.sp + 8))
            }.next(),
        ),
{
    lemma_pair_fields(r);
    reveal(executed);
}

/// Pushing puts a register and the link register below the stack, whose pointer moves down by
/// sixteen; popping takes both from there and moves the pointer up.
pub proof fn push_and_pop_use_the_stack(reg: Regs, m: Machine)
    requires
        m.wf(),
    ensures
        ({
            let code = AArch64::code(Ir::Push { val: reg });
            let to = (m.sp - 16) % 0x1_0000_0000_0000_0000;
            &&& code.bytes.len() == 4 && code.relocations.len() == 0
            &&& executed(word_of(code.bytes), m) == Some(
                Machine {
                    sp: to,
                    ..m.store64(to, m.regs[reg.number_spec()]).store64(to + 8, m.regs[30])
                }.next(),
            )
        }),
        ({
            let code = AArch64::code(Ir::Pop { into: reg });
            &&& code.bytes.len() == 4 && code.relocations.len() == 0
            &&& executed(word_of(code.bytes), m) == Some(
                Machine {
                    sp: (m.sp + 16) % 0x1_0000_0000_0000_0000,
                    ..m.set(reg.number_spec(), m.load64(m.sp)).set(30, m.load64(m.sp + 8))
                }.next(),
            )
        }),
{
    let r: int = reg.number_spec();
    lemma_word(push2_x_word(r, 30));
    lemma_word(pop2_x_word(r, 30));
    lemma_pair_fields(r);
    lemma_pair_stored(r, m);
    lemma_pair_fetched(r, m);
}

/// Returning: the value goes into the first register, and the code goes on at the link register.
pub proof fn return_returns(val: Regs, m: Machine)
    requires
        m.wf(),
    ensures
        ({
            let code = AArch64::code(Ir::Return { val });
            let last = if val == Regs::X0 {
                code.bytes
            } else {
                code.bytes.skip(4)
            };
            let moved = m.set(0, m.regs[val.number_spec()]).next();
            &&& code.relocations.len() == 0 && last.len() == 4
            &&& val == Regs::X0 ==> executed(word_of(last), m) == Some(
                Machine { ip: m.regs[30], ..m },
            )
            &&& val != Regs::X0 ==> {
                &&& executed(word_of(code.bytes), m) == Some(moved)
                &&& executed(word_of(last), moved) == Some(Machine { ip: m.regs[30], ..moved })
            }
        }),
{
    let w: int = 0xd65f_03c0;
    lemma_word(w);
    assert(w / 0x400 == 0x35_97C0 && w % 32 == 0 && w / 32 % 32 == 30 && w / 0x20_0000 == 0x6B2 && w
        / 0x40_0000 == 0x359 && w / 0x80_0000 == 0x1AC);
    let code = AArch64::code(Ir::Return { val });
    if val != Regs::X0 {
        lemma_copy(0, val.number_spec(), m);
        let first = instr(mov_reg_word(0, val.number_spec()));
        assert(code.bytes.skip(4) =~= instr(w).bytes);
        assert(code.bytes[0] == first.bytes[0] && code.bytes[1] == first.bytes[1] && code.bytes[2]
            == first.bytes[2] && code.bytes[3] == first.bytes[3]);
    }
    reveal(executed);
}

/// Jumping: the code goes on at the label.
pub proof fn jump_jumps(to: Label, m: Machine, there: int)
    requires
        m.wf(),
        near(m.ip, there),
    ensures
        is_branch(AArch64::code(Ir::Jump { to }), to, 0x1400_0000, 26),
        executed(with_distance(0x1400_0000, 26, there - m.ip), m) == Some(
            Machine { ip: there, ..m },
        ),
{
    lemma_branch(to, 0x1400_0000, 26);
    lemma_distance(m.ip, there);
    let f: int = (there - m.ip) / 4 % 0x400_0000;
    let w: int = with_distance(0x1400_0000, 26, there - m.ip);
    assert(w == 0x1400_0000 + f);
    assert(w / 0x400_0000 == 5 && w % 0x400_0000 == f);
    assert(0x14 <= w / 0x100_0000 <= 0x17);
    assert(0x50 <= w / 0x40_0000 <= 0x5F);
    assert(0x28 <= w / 0x80_0000 <= 0x2F);
    assert(0xA0 <= w / 0x20_0000 <= 0xBF);
    assert(0x5_0000 <= w / 0x400 <= 0x5_FFFF);
    reveal(executed);
}

/// Branching on a register: the code goes on at the label if the register is zero.
pub proof fn branch_on_register_tests(val: Regs, to: Label, m: Machine, there: int)
    requires
        m.wf(),
        near(m.ip, there),
    ensures
        is_branch(
            AArch64::code(Ir::BrIfReg8False { val, to }),
            to,
            0xb400_0000 + val.number_spec(),
            19,
        ),
        executed(with_distance(0xb400_0000 + val.number_spec(), 19, there - m.ip), m) == Some(
            if m.regs[val.number_spec()] == 0 {
                Machine { ip: there, ..m }
            } else {
                m.next()
            },
        ),
{
    let r: int = val.number_spec();
    lemma_branch(to, 0xb400_0000 + r, 19);
    lemma_distance(m.ip, there);
    lemma_far_field(0xb4, r, (there - m.ip) / 4 % 0x8_0000);
    reveal(executed);
}

/// The parts of a word with a distance in its bits 5 to 23.
proof fn lemma_far_field(op: int, r: int, f: int)
    requires
        0 <= f < 0x8_0000,
        0 <= r < 32,
        op == 0xb4 || op == 0x35 || op == 0x54 || op == 0x58,
    ensures
        ({
            let w = op * 0x100_0000 + r + f * 32;
            &&& w / 0x100_0000 == op && w % 32 == r && w / 32 % 0x8_0000 == f
            &&& 4 * op <= w / 0x40_0000 <= 4 * op + 3
            &&& 2 * op <= w / 0x80_0000 <= 2 * op + 1
            &&& 8 * op <= w / 0x20_0000 <= 8 * op + 7
            &&& 0x4000 * op <= w / 0x400 <= 0x4000 * op + 0x3fff
            &&& w / 0x400_0000 == op / 4
        }),
{
}

/// Calling: the code goes on at the address that stands at the label, and the link register holds
/// the address behind the call. Register 16 is used on the way.
pub proof fn call_calls(label: Label, m: Machine, there: int)
    requires
        m.wf(),
        near(m.ip, there),
    ensures
        ({
            let code = AArch64::code(Ir::CallRipRelative { label });
            let fetched = m.set(16, m.load64(there)).next();
            &&& code.bytes.len() == 8 && code.relocations.len() == 1
            &&& word_of(code.bytes) == 0x5800_0010
            &&& code.relocations[0] == (Relocation { pos: 0, bits: 19, label, shift: 5, shr: 2 })
            &&& executed(with_distance(0x5800_0010, 19, there - m.ip), m) == Some(fetched)
            &&& executed(word_of(code.bytes.skip(4)), fetched) == Some(
                Machine { ip: m.load64(there), ..fetched.set(30, m.ip + 8) },
            )
        }),
{
    lemma_branch(label, 0x5800_0010, 19);
    lemma_distance(m.ip, there);
    lemma_far_field(0x58, 16, (there - m.ip) / 4 % 0x8_0000);
    let w: int = blr_word(16);
    lemma_word(w);
    let code = AArch64::code(Ir::CallRipRelative { label });
    let first = branch(label, 0x5800_0010, 19, 5);
    assert(code.bytes.skip(4) =~= instr(w).bytes);
    assert(code.bytes[0] == first.bytes[0] && code.bytes[1] == first.bytes[1] && code.bytes[2]
        == first.bytes[2] && code.bytes[3] == first.bytes[3]);
    assert(code.relocations =~= first.relocations);
    assert(w == 0xd63f_0200);
    assert(w / 0x400 == 0x35_8FC0 && w % 32 == 0 && w / 32 % 32 == 16 && w / 0x20_0000 == 0x6B1 && w
        / 0x40_0000 == 0x358 && w / 0x80_0000 == 0x1AC);
    reveal(executed);
}

proof fn lemma_offset_fields(n: int, k: int)
    requires
        0 <= n < 31,
        0 <= k <= 0xfff,
    ensures
        ({
            let u = add_x_imm_word(16, n, k);
            &&& 0 <= u < 0x1_0000_0000
            &&& u / 0x40_0000 == 0x244 && u % 32 == 16 && u / 32 % 32 == n && u / 0x400 % 0x1000 == k
            &&& 0x488 <= u / 0x20_0000 <= 0x489 && u / 0x80_0000 == 0x122
        }),
{
}

proof fn lemma_offset_added(n: int, k: int, m: Machine)
    requires
        m.wf(),
        0 <= n < 31,
        0 <= k <= 0xfff,
    ensures
        executed(add_x_imm_word(16, n, k), m) == Some(
            m.set(16, (m.regs[n] + k) % 0x1_0000_0000_0000_0000).next(),
        ),
{
    lemma_offset_fields(n, k);
    reveal(executed);
}

proof fn lemma_word_fetched(m: Machine)
    ensures
        executed(0x88df_fe10, m) == Some(m.set(16, m.load32(m.regs[16])).next()),
{
    let v: int = 0x88df_fe10;
    assert(v / 0x400 == 0x22_37FF && v % 32 == 16 && v / 32 % 32 == 16 && v / 0x20_0000 == 0x446 && v
        / 0x40_0000 == 0x223 && v / 0x80_0000 == 0x111);
    reveal(executed);
}

proof fn lemma_nonzero_jumps(m: Machine, there: int)
    requires
        near(m.ip, there),
        0 <= m.regs[16] < 0x1_0000_0000,
    ensures
        executed(with_distance(0x3500_0010, 19, there - m.ip), m) == Some(
            if m.regs[16] != 0 {
                Machine { ip: there, ..m }
            } else {
                m.next()
            },
        ),
{
    lemma_distance(m.ip, there);
    lemma_far_field(0x35, 16, (there - m.ip) / 4 % 0x8_0000);
    assert(m.regs[16] % 0x1_0000_0000 == m.regs[16]);
    reveal(executed);
}

/// Branching on memory: the address goes into register 16, then the 32 bits that are there, and the
/// code goes on at the label if they are not all zero.
pub proof fn branch_on_memory_tests(base: Regs, offset: u32, to: Label, m: Machine, there: int)
    requires
        m.wf(),
        near(m.ip + 8, there),
        offset <= 0xfff,
    ensures
        ({
            let code = AArch64::code(Ir::BrIfMem32IsNonZeroAtomic { base, offset, to });
            let addr = (m.regs[base.number_spec()] + offset) % 0x1_0000_0000_0000_0000;
            let at = m.set(16, addr).next();
            let loaded = at.set(16, m.load32(addr)).next();
            &&& code.bytes.len() == 12 && code.relocations.len() == 1
            &&& executed(word_of(code.bytes), m) == Some(at)
            &&& executed(word_of(code.bytes.skip(4)), at) == Some(loaded)
            &&& word_of(code.bytes.skip(8)) == 0x3500_0010
            &&& code.relocations[0] == (Relocation { pos: 8, bits: 19, label: to, shift: 5, shr: 2 })
            &&& executed(with_distance(0x3500_0010, 19, there - loaded.ip), loaded) == Some(
                if m.load32(addr) != 0 {
                    Machine { ip: there, ..loaded }
                } else {
                    loaded.next()
                },
            )
        }),
{
    let n: int = base.number_spec();
    let addr: int = (m.regs[n] + offset) % 0x1_0000_0000_0000_0000;
    let u: int = add_x_imm_word(16, n, offset as int);
    let v: int = ldar_w_word(16, 16);
    lemma_word(u);
    lemma_word(v);
    lemma_branch(to, 0x3500_0010, 19);
    let code = AArch64::code(Ir::BrIfMem32IsNonZeroAtomic { base, offset, to });
    let (a, b, c) = (instr(u), instr(v), branch(to, 0x3500_0010, 19, 5));
    assert(code.bytes[0] == a.bytes[0] && code.bytes[1] == a.bytes[1] && code.bytes[2] == a.bytes[2]
        && code.bytes[3] == a.bytes[3]);
    let s = code.bytes.skip(4);
    assert(s[0] == b.bytes[0] && s[1] == b.bytes[1] && s[2] == b.bytes[2] && s[3] == b.bytes[3]);
    assert(code.bytes.skip(8) =~= c.bytes);
    assert(code.relocations.len() == 1 && code.relocations[0].pos == 8);
    lemma_offset_added(n, offset as int, m);
    assert(v == 0x88df_fe10);
    let at = m.set(16, addr).next();
    let loaded = at.set(16, m.load32(addr)).next();
    lemma_distance(loaded.ip, there);
    lemma_word_fetched(at);
    lemma_far_field(0x35, 16, (there - loaded.ip) / 4 % 0x8_0000);
    assert(loaded.regs[16] == m.load32(addr));
    assert(at.regs[16] == addr);
    lemma_nonzero_jumps(loaded, there);
}

/// Comparing with a number below 4096 and branching: the code goes on at the label if the low 32
/// bits of the register are the number.
pub proof fn branch_on_number_compares(reg: Regs, imm: u32, label: Label, m: Machine, there: int)
    requires
        m.wf(),
        near(m.ip + 4, there),
        imm <= 0xfff,
    ensures
        ({
            let code = AArch64::code(Ir::BrIfEqImm { reg, imm, label });
            let same = m.regs[reg.number_spec()] % 0x1_0000_0000 == imm;
            let mid = Machine { equal: same, ..m }.next();
            &&& code.bytes.len() == 8 && code.relocations.len() == 1
            &&& executed(word_of(code.bytes), m) == Some(mid)
            &&& word_of(code.bytes.skip(4)) == 0x5400_0000
            &&& code.relocations[0] == (Relocation { pos: 4, bits: 19, label, shift: 5, shr: 2 })
            &&& executed(with_distance(0x5400_0000, 19, there - mid.ip), mid) == Some(
                if same {
                    Machine { ip: there, ..mid }
                } else {
                    mid.next()
                },
            )
        }),
{
    let n: int = reg.number_spec();
    let u: int = compare_w_imm_word(n, imm as int);
    lemma_word(u);
    lemma_branch(label, 0x5400_0000, 19);
    let code = AArch64::code(Ir::BrIfEqImm { reg, imm, label });
    let (a, c) = (instr(u), branch(label, 0x5400_0000, 19, 5));
    assert(code.bytes[0] == a.bytes[0] && code.bytes[1] == a.bytes[1] && code.bytes[2] == a.bytes[2]
        && code.bytes[3] == a.bytes[3]);
    assert(code.bytes.skip(4) =~= c.bytes);
    assert(code.relocations.len() == 1 && code.relocations[0].pos == 4);
    assert(u / 0x40_0000 == 0x1C4 && u % 32 == 31 && u / 32 % 32 == n && u / 0x400 % 0x1000 == imm
        && 0x388 <= u / 0x20_0000 <= 0x389 && u / 0x80_0000 == 0xE2);
    let same: bool = m.regs[n] % 0x1_0000_0000 == imm;
    let mid = Machine { equal: same, ..m }.next();
    lemma_distance(mid.ip, there);
    lemma_far_field(0x54, 0, (there - mid.ip) / 4 % 0x8_0000);
    reveal(executed);
}

/// Code without jumps, word by word.
pub open spec fn run(b: Seq<u8>, m: Machine) -> Option<Machine>
    decreases b.len(),
{
    if b.len() < 4 {
        Some(m)
    } else {
        match executed(word_of(b), m) {
            Some(n) => run(b.skip(4), n),
            None => None,
        }
    }
}

proof fn lemma_run_plus(a: Code, b: Code, m: Machine)
    requires
        a.bytes.len() % 4 == 0,
    ensures
        run(a.plus(b).bytes, m) == (match run(a.bytes, m) {
            Some(n) => run(b.bytes, n),
            None => None,
        }),
    decreases a.bytes.len(),
{
    let c = a.plus(b);
    if a.bytes.len() == 0 {
        assert(c.bytes =~= b.bytes);
    } else {
        let rest = Code { bytes: a.bytes.skip(4), ..a };
        assert(c.bytes[0] == a.bytes[0] && c.bytes[1] == a.bytes[1] && c.bytes[2] == a.bytes[2]
            && c.bytes[3] == a.bytes[3]);
        assert(c.bytes.skip(4) =~= rest.plus(b).bytes);
        match executed(word_of(a.bytes), m) {
            Some(n) => {
                lemma_run_plus(rest, b, n);
            },
            None => {},
        }
    }
}

proof fn lemma_run_one(w: int, m: Machine)
    requires
        0 <= w < 0x1_0000_0000,
    ensures
        run(instr(w).bytes, m) == executed(w, m),
        instr(w).bytes.len() == 4,
        instr(w).relocations.len() == 0,
{
    lemma_word(w);
    let b = instr(w).bytes;
    match executed(w, m) {
        Some(n) => {
            assert(run(b.skip(4), n) == Some(n));
        },
        None => {},
    }
}

proof fn lemma_zeroed(d: int, v: int, m: Machine)
    requires
        m.wf(),
        0 <= d < 31,
        0 <= v < 0x1_0000,
    ensures
        0 <= movz_word(d, v, 0) < 0x1_0000_0000,
        executed(movz_word(d, v, 0), m) == Some(m.set(d, v).next()),
{
    let w: int = movz_word(d, v, 0);
    assert(w == 0xd280_0000 + v * 32 + d);
    assert(w / 0x80_0000 == 0x1A5 && w % 32 == d && w / 32 % 0x1_0000 == v && w / 0x20_0000 % 4 == 0
        && 0x34A <= w / 0x40_0000 <= 0x34B);
    reveal(executed);
}

proof fn lemma_kept_fields(d: int, v: int, part: int)
    requires
        0 <= d < 31,
        0 <= v < 0x1_0000,
        1 <= part < 4,
    ensures
        ({
            let w = movk_word(d, v, part);
            &&& 0 <= w < 0x1_0000_0000
            &&& w / 0x80_0000 == 0x1E5 && w % 32 == d && w / 32 % 0x1_0000 == v
            &&& w / 0x20_0000 % 4 == part && 0x3CA <= w / 0x40_0000 <= 0x3CB
        }),
{
    let w: int = movk_word(d, v, part);
    if part == 1 {
        assert(w == 0xf2a0_0000 + v * 32 + d);
    } else if part == 2 {
        assert(w == 0xf2c0_0000 + v * 32 + d);
    } else {
        assert(w == 0xf2e0_0000 + v * 32 + d);
    }
}

/// Sixteen more bits of a register that is below them.
proof fn lemma_kept(d: int, v: int, part: int, m: Machine)
    requires
        m.wf(),
        0 <= d < 31,
        0 <= v < 0x1_0000,
        1 <= part < 4,
        part == 1 ==> m.regs[d] < 0x1_0000,
        part == 2 ==> m.regs[d] < 0x1_0000_0000,
        part == 3 ==> m.regs[d] < 0x1_0000_0000_0000,
    ensures
        0 <= movk_word(d, v, part) < 0x1_0000_0000,
        executed(movk_word(d, v, part), m) == Some(
            m.set(
                d,
                m.regs[d] + v * (if part == 1 {
                    0x1_0000int
                } else if part == 2 {
                    0x1_0000_0000
                } else {
                    0x1_0000_0000_0000
                }),
            ).next(),
        ),
{
    lemma_kept_fields(d, v, part);
    let w: int = movk_word(d, v, part);
    let r: int = m.regs[d];
    reveal(executed);
    if part == 1 {
        assert(r / 0x1_0000_0000 == 0 && r % 0x1_0000 == r);
        assert(executed(w, m) == Some(
            m.set(
                d,
                r / 0x1_0000_0000 * 0x1_0000_0000 + v * 0x1_0000 + r % 0x1_0000,
            ).next(),
        ));
    } else if part == 2 {
        assert(r / 0x1_0000_0000_0000 == 0 && r % 0x1_0000_0000 == r);
        assert(executed(w, m) == Some(
            m.set(
                d,
                r / 0x1_0000_0000_0000 * 0x1_0000_0000_0000 + v * 0x1_0000_0000 + r % 0x1_0000_0000,
            ).next(),
        ));
    } else {
        assert(r / 0x1_0000_0000_0000_0000 == 0 && r % 0x1_0000_0000_0000 == r);
        assert(executed(w, m) == Some(
            m.set(
                d,
                r / 0x1_0000_0000_0000_0000 * 0x1_0000_0000_0000_0000 + v * 0x1_0000_0000_0000 + r
                    % 0x1_0000_0000_0000,
            ).next(),
        ));
    }
}

proof fn lemma_number_loaded(d: int, val: u64, m: Machine)
    requires
        m.wf(),
        0 <= d < 31,
    ensures
        ({
            let code = load_imm_code(d, val);
            &&& code.relocations.len() == 0
            &&& code.bytes.len() % 4 == 0
            &&& run(code.bytes, m) == Some(
                Machine { ip: m.ip + code.bytes.len(), ..m.set(d, val as int) },
            )
        }),
{
    reveal(load_imm_code);
    let v: int = val as int;
    let (v0, v1, v2, v3): (int, int, int, int) = (
        v % 0x1_0000,
        v / 0x1_0000 % 0x1_0000,
        v / 0x1_0000_0000 % 0x1_0000,
        v / 0x1_0000_0000_0000 % 0x1_0000,
    );
    let a: int = v / 0x1_0000;
    let b: int = v / 0x1_0000_0000;
    let c: int = v / 0x1_0000_0000_0000;
    assert(b == a / 0x1_0000);
    assert(c == b / 0x1_0000);
    assert(c < 0x1_0000);
    let m0 = m.set(d, v0).next();
    lemma_zeroed(d, v0, m);
    lemma_run_one(movz_word(d, v0, 0), m);
    let i0 = instr(movz_word(d, v0, 0));
    if a == 0 {
        assert(v0 == v);
    } else {
        let i1 = instr(movk_word(d, v1, 1));
        let m1 = m0.set(d, v0 + v1 * 0x1_0000).next();
        lemma_kept(d, v1, 1, m0);
        lemma_run_one(movk_word(d, v1, 1), m0);
        lemma_run_plus(i0, i1, m);
        assert(m1.regs =~= m.set(d, v0 + v1 * 0x1_0000).regs);
        if b != 0 {
            let c1 = i0.plus(i1);
            let i2 = instr(movk_word(d, v2, 2));
            let s2: int = v0 + v1 * 0x1_0000 + v2 * 0x1_0000_0000;
            let m2 = m1.set(d, s2).next();
            lemma_kept(d, v2, 2, m1);
            lemma_run_one(movk_word(d, v2, 2), m1);
            lemma_run_plus(c1, i2, m);
            assert(m2.regs =~= m.set(d, s2).regs);
            if c != 0 {
                let c2 = c1.plus(i2);
                let i3 = instr(movk_word(d, v3, 3));
                let s3: int = s2 + v3 * 0x1_0000_0000_0000;
                let m3 = m2.set(d, s3).next();
                lemma_kept(d, v3, 3, m2);
                lemma_run_one(movk_word(d, v3, 3), m2);
                lemma_run_plus(c2, i3, m);
                assert(m3.regs =~= m.set(d, s3).regs);
            }
        }
    }
}

/// Loading a number: the register becomes the number, all 64 bits of it.
pub proof fn load_imm_loads(into: Regs, val: u64, m: Machine)
    requires
        m.wf(),
    ensures
        ({
            let code = AArch64::code(Ir::LoadImm { into, val });
            &&& code.relocations.len() == 0
            &&& run(code.bytes, m) == Some(
                Machine {
                    ip: m.ip + code.bytes.len(),
                    ..m.set(into.number_spec(), val as int)
                },
            )
        }),
{
    lemma_number_loaded(into.number_spec(), val, m);
}

/// Comparing with a larger number: it is loaded into register 16, and compared with all of the
/// register.
pub proof fn compare_with_number_compares(reg: Regs, imm: u32, m: Machine)
    requires
        m.wf(),
        reg != Regs::X16,
        imm > 0xfff,
    ensures
        ({
            let code = compare_code(reg.number_spec(), imm);
            &&& code.relocations.len() == 0
            &&& run(code.bytes, m) == Some(
                Machine {
                    ip: m.ip + code.bytes.len(),
                    equal: m.regs[reg.number_spec()] == imm,
                    ..m.set(16, imm as int)
                },
            )
        }),
{
    let n: int = reg.number_spec();
    lemma_number_loaded(16, imm as u64, m);
    let first = load_imm_code(16, imm as u64);
    let mid = run(first.bytes, m).unwrap();
    let w: int = compare_x_word(n, 16);
    assert(w == 0xeb10_001f + n * 32);
    assert(w / 0x20_0000 == 0x758 && w / 0x400 % 64 == 0 && w % 32 == 31 && w / 32 % 32 == n && w
        / 0x1_0000 % 32 == 16 && w / 0x40_0000 == 0x3AC && w / 0x80_0000 == 0x1D6);
    lemma_run_one(w, mid);
    lemma_run_plus(first, instr(w), m);
    assert(mid.regs[n] == m.regs[n] && mid.regs[16] == imm);
    reveal(executed);
}

/// Masking: the word names the register twice and holds the lowest twelve bits of the number.
pub proof fn band_holds_the_number(reg: Regs, imm: u32)
    ensures
        ({
            let code = AArch64::code(Ir::BandU32Imm { reg, imm });
            let w = word_of(code.bytes);
            &&& code.bytes.len() == 4 && code.relocations.len() == 0
            &&& w / 0x40_0000 == 0x48
            &&& w % 32 == reg.number_spec() && w / 32 % 32 == reg.number_spec()
            &&& w / 0x400 % 0x1000 == imm % 0x1000
        }),
{
    let r: int = reg.number_spec();
    let k: int = imm as int % 0x1000;
    let w: int = 0x1200_0000 + k * 0x400 + r * 32 + r;
    lemma_word(w);
    lemma_mask_fields(r, k);
}

proof fn lemma_mask_fields(r: int, k: int)
    requires
        0 <= r < 31,
        0 <= k < 0x1000,
    ensures
        ({
            let w = 0x1200_0000 + k * 0x400 + r * 32 + r;
            w / 0x40_0000 == 0x48 && w % 32 == r && w / 32 % 32 == r && w / 0x400 % 0x1000 == k
        }),
{
    let w: int = 0x1200_0000 + k * 0x400 + r * 32 + r;
    assert(w / 0x400 == 0x4_8000 + k);
    assert(w / 32 == 0x90_0000 + k * 32 + r);
}

/// The registers have the numbers of their names.
pub proof fn registers_have_their_numbers(a: Regs, b: Regs)
    ensures
        0 <= a.number_spec() <= 28,
        a.number_spec() == b.number_spec() ==> a == b,
        Regs::X0.number_spec() == 0 && Regs::X1.number_spec() == 1 && Regs::X2.number_spec() == 2
            && Regs::X3.number_spec() == 3,
        Regs::X16.number_spec() == 16 && Regs::X17.number_spec() == 17,
        Regs::X19.number_spec() == 19 && Regs::X28.number_spec() == 28,
        AArch64::return_reg_spec() == Regs::X0,
        AArch64::return_reg2_spec() == Regs::X1,
        AArch64::relocation_base() == 0,
        AArch64::parameter_spec() == seq![Regs::X0, Regs::X1, Regs::X2, Regs::X3],
{
}

} // verus!
