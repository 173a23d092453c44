//! A compiler for small pieces of glue code, in a single pass over a list of operations.
pub mod aarch64;
pub mod aarch64_effects;
pub mod emitter;
pub mod layout;
pub mod x86_64;
pub mod x86_effects;

use vstd::prelude::*;

use crate::codegen::singlepass::emitter::{Code, Emitter, EmitterModel};

verus! {

/// An entry point of the code.
#[derive(Copy, Clone, Debug, PartialEq, Eq, Structural)]
pub struct Export(pub usize);

/// A place in the code that can be jumped to.
#[derive(Copy, Clone, Debug, PartialEq, Eq, Structural)]
pub struct Label(pub usize);

/// The offsets of the entry points.
#[derive(Debug)]
pub struct Exports(pub Vec<usize>);

impl Exports {
    /// The offset of an entry point.
    pub fn get(&self, index: Export) -> (r: usize)
        requires
            index.0 < self.0@.len(),
        ensures
            r == self.0@[index.0 as int],
    {
        self.0[index.0]
    }
}

/// The operations.
#[allow(inconsistent_fields)]
pub enum Ir<T: Target> {
    ReadU32 { into: T::Reg, base: T::Reg, offset: u32 },
    ReadU64 { into: T::Reg, base: T::Reg, offset: u32 },
    ReadArrayPtrU32 { into: T::Reg, label: Label, index: T::Reg },
    LoadImm { into: T::Reg, val: u64 },
    /// Loads `val` into the lower 8 bits of `into`.
    /// Higher bits are unspecified.
    LoadImm8 { into: T::Reg, val: u8 },
    Load { into: T::Reg, from: T::Reg },
    CallRipRelative { label: Label },
    Return { val: T::Reg },
    Jump { to: Label },
    BrIfReg8False { val: T::Reg, to: Label },
    Push { val: T::Reg },
    Pop { into: T::Reg },
    /// Reads a 32-bit value from memory atomically, and compares it with 0.
    /// If the value was non-zero, jumps to `to`.
    BrIfMem32IsNonZeroAtomic { base: T::Reg, offset: u32, to: Label },
    BrIfMem8IsZero { base: T::Reg, offset: u32, to: Label },
    AlignedDataU64 { val: u64 },
    AlignedDataU32 { val: u32 },
    AddU32 { dst: T::Reg, src: T::Reg },
    BandU32Imm { reg: T::Reg, imm: u32 },
    BrIfEqImm { reg: T::Reg, imm: u32, label: Label },
    SelectBits { into: T::Reg, from: T::Reg, start: u8, end: u8 },
}

impl<T: Target> Ir<T> {
    /// The alignment of an operation.
    pub open spec fn alignment(&self) -> int {
        match self {
            Ir::AlignedDataU64 { .. } => 8,
            Ir::AlignedDataU32 { .. } => 4,
            _ => 1,
        }
    }

    fn align(&self, emitter: &mut Emitter)
        requires
            old(emitter).wf(),
            old(emitter)@.bytes.len() + 8 <= usize::MAX,
        ensures
            final(emitter).wf(),
            final(emitter)@ == old(emitter)@.aligned(self.alignment()),
    {
        match self {
            Ir::AlignedDataU64 { .. } => emitter.align(8),
            Ir::AlignedDataU32 { .. } => emitter.align(4),
            _ => {
                assert(emitter@.aligned(1).bytes =~= emitter@.bytes);
            },
        }
    }
}

/// A machine that code is generated for.
pub trait Target: Sized {
    type Reg: Copy;

    /// Where a function returns its value.
    spec fn return_reg_spec() -> Self::Reg;

    /// Where a function returns the second half of its value.
    spec fn return_reg2_spec() -> Self::Reg;

    /// Registers that a function has to keep.
    spec fn callee_saved_spec() -> Seq<Self::Reg>;

    /// Registers that a function may use freely.
    spec fn caller_saved_spec() -> Seq<Self::Reg>;

    /// Registers that arguments are passed in.
    spec fn parameter_spec() -> Seq<Self::Reg>;

    /// Whether an operation can be compiled.
    spec fn supports(x: Ir<Self>) -> bool;

    /// The code of an operation.
    spec fn code(x: Ir<Self>) -> Code;

    /// How far behind a relocation of four bytes its offset counts from.
    spec fn relocation_base() -> int;

    fn return_reg() -> (r: Self::Reg)
        ensures
            r == Self::return_reg_spec(),
    ;

    fn return_reg2() -> (r: Self::Reg)
        ensures
            r == Self::return_reg2_spec(),
    ;

    fn callee_saved_regs() -> (r: Vec<Self::Reg>)
        ensures
            r@ == Self::callee_saved_spec(),
    ;

    fn caller_saved_regs() -> (r: Vec<Self::Reg>)
        ensures
            r@ == Self::caller_saved_spec(),
    ;

    fn parameter_regs() -> (r: Vec<Self::Reg>)
        ensures
            r@ == Self::parameter_spec(),
    ;

    /// Whether two registers are the same.
    fn same(a: Self::Reg, b: Self::Reg) -> (r: bool)
        ensures
            r == (a == b),
    ;

    /// Emits the code of an operation.
    fn compile(x: &Ir<Self>, e: &mut Emitter)
        requires
            old(e).wf(),
            Self::supports(*x),
            old(e)@.bytes.len() + 64 <= usize::MAX,
        ensures
            final(e).wf(),
            final(e)@ == old(e)@.appended(Self::code(*x)),
            Self::code(*x).bytes.len() <= 64,
    ;

    /// The code of an operation is short, and holds all its references.
    proof fn code_is_short(x: Ir<Self>)
        requires
            Self::supports(x),
        ensures
            Self::code(x).within(64),
    ;

    fn relocation_offset() -> (r: u32)
        ensures
            r == Self::relocation_base(),
            r <= 4,
    ;
}

/// A list of operations that is being put together, with its labels and entry points.
pub struct SinglePass<T: Target> {
    pub ir: Vec<Ir<T>>,
    pub label_offsets: Vec<usize>,
    pub export_offsets: Vec<usize>,
    pub callee_saved_regs: Vec<T::Reg>,
    pub caller_saved_regs: Vec<T::Reg>,
}

/// A label that was not placed.
pub const NOWHERE: usize = usize::MAX;

/// Code that is complete, and where its entry points lie in it.
#[derive(Debug)]
pub struct Assembled {
    pub bytes: Vec<u8>,
    pub exports: Exports,
}

impl Assembled {
    /// The number of bytes of whole pages that the code needs.
    pub fn allocation_length(&self) -> (r: usize)
        requires
            self.bytes@.len() <= usize::MAX - 4095,
        ensures
            r == (self.bytes@.len() as int + 4095) / 4096 * 4096,
            self.bytes@.len() <= r < self.bytes@.len() + 4096,
    {
        (self.bytes.len() + 4095) / 4096 * 4096
    }
}

/// The labels among the first `k` that are placed at operation `index` are marked.
pub open spec fn labels_marked(m: EmitterModel, offsets: Seq<usize>, index: int, k: int) -> EmitterModel
    decreases k,
{
    if k <= 0 {
        m
    } else {
        let before = labels_marked(m, offsets, index, k - 1);
        if offsets[k - 1] == index {
            before.marked(Label((k - 1) as usize))
        } else {
            before
        }
    }
}

/// The first entry point at or behind `k` that lies at operation `index`.
pub open spec fn first_export(offsets: Seq<usize>, index: int, k: int) -> Option<int>
    decreases offsets.len() - k,
{
    if k >= offsets.len() {
        None
    } else if offsets[k] == index {
        Some(k)
    } else {
        first_export(offsets, index, k + 1)
    }
}

/// The code of the first `n` operations, and the entry points in it. Of several entry points at
/// the same operation only the first one is filled in.
pub open spec fn assembled<T: Target>(
    ir: Seq<Ir<T>>,
    labels: Seq<usize>,
    exports: Seq<usize>,
    n: int,
) -> (EmitterModel, Seq<usize>)
    decreases n,
{
    if n <= 0 {
        (
            EmitterModel { bytes: Seq::empty(), relocations: Seq::empty(), labels: Seq::empty() },
            Seq::new(exports.len(), |i: int| 0usize),
        )
    } else {
        let (before, offsets) = assembled(ir, labels, exports, n - 1);
        let here = labels_marked(
            before.aligned(ir[n - 1].alignment()),
            labels,
            n - 1,
            labels.len() as int,
        );
        (
            here.appended(T::code(ir[n - 1])),
            match first_export(exports, n - 1, 0) {
                Some(k) => offsets.update(k, here.bytes.len() as usize),
                None => offsets,
            },
        )
    }
}

impl<T: Target> Default for SinglePass<T> {
    fn default() -> (r: Self)
        ensures
            r.ir@ == Seq::<Ir<T>>::empty(),
            r.label_offsets@ == Seq::<usize>::empty(),
            r.export_offsets@ == Seq::<usize>::empty(),
            r.callee_saved_regs@ == T::callee_saved_spec(),
            r.caller_saved_regs@ == T::caller_saved_spec(),
    {
        Self::new()
    }
}

/// The registers of `regs` from `n` on that are not excluded.
pub open spec fn not_excluded<R>(regs: Seq<R>, excluded: Seq<R>, n: int) -> Seq<R>
    decreases regs.len() - n,
{
    if n >= regs.len() {
        Seq::empty()
    } else if excluded.contains(regs[n]) {
        not_excluded(regs, excluded, n + 1)
    } else {
        seq![regs[n]] + not_excluded(regs, excluded, n + 1)
    }
}

impl<T: Target> SinglePass<T> {
    /// Labels, entry points and registers are the same.
    pub open spec fn same_names(&self, after: &SinglePass<T>) -> bool {
        &&& after.label_offsets@ == self.label_offsets@
        &&& after.export_offsets@ == self.export_offsets@
        &&& after.callee_saved_regs@ == self.callee_saved_regs@
        &&& after.caller_saved_regs@ == self.caller_saved_regs@
    }

    pub fn new() -> (r: Self)
        ensures
            r.ir@ == Seq::<Ir<T>>::empty(),
            r.label_offsets@ == Seq::<usize>::empty(),
            r.export_offsets@ == Seq::<usize>::empty(),
            r.callee_saved_regs@ == T::callee_saved_spec(),
            r.caller_saved_regs@ == T::caller_saved_spec(),
    {
        Self {
            ir: Vec::new(),
            label_offsets: Vec::new(),
            export_offsets: Vec::new(),
            callee_saved_regs: T::callee_saved_regs(),
            caller_saved_regs: T::caller_saved_regs(),
        }
    }

    /// Takes a register that calls do not keep.
    pub fn alloc_caller_saved_reg(&mut self) -> (r: T::Reg)
        requires
            old(self).caller_saved_regs@.len() > 0,
        ensures
            r == old(self).caller_saved_regs@.last(),
            final(self).caller_saved_regs@ == old(self).caller_saved_regs@.drop_last(),
            final(self).callee_saved_regs@ == old(self).callee_saved_regs@,
            final(self).ir@ == old(self).ir@,
            final(self).label_offsets@ == old(self).label_offsets@,
            final(self).export_offsets@ == old(self).export_offsets@,
    {
        let reg = self.caller_saved_regs.pop();
        match reg {
            Some(reg) => reg,
            None => T::return_reg(),
        }
    }

    /// Takes a register that calls keep.
    pub fn alloc_callee_saved_reg(&mut self) -> (r: T::Reg)
        requires
            old(self).callee_saved_regs@.len() > 0,
        ensures
            r == old(self).callee_saved_regs@.last(),
            final(self).callee_saved_regs@ == old(self).callee_saved_regs@.drop_last(),
            final(self).caller_saved_regs@ == old(self).caller_saved_regs@,
            final(self).ir@ == old(self).ir@,
            final(self).label_offsets@ == old(self).label_offsets@,
            final(self).export_offsets@ == old(self).export_offsets@,
    {
        let reg = self.callee_saved_regs.pop();
        match reg {
            Some(reg) => reg,
            None => T::return_reg(),
        }
    }

    /// Makes a label that is not placed yet.
    pub fn alloc_label(&mut self) -> (r: Label)
        ensures
            r.0 == old(self).label_offsets@.len(),
            final(self).label_offsets@ == old(self).label_offsets@.push(NOWHERE),
            final(self).ir@ == old(self).ir@,
            final(self).export_offsets@ == old(self).export_offsets@,
            final(self).callee_saved_regs@ == old(self).callee_saved_regs@,
            final(self).caller_saved_regs@ == old(self).caller_saved_regs@,
    {
        let val = Label(self.label_offsets.len());
        self.label_offsets.push(NOWHERE);
        val
    }

    /// Makes an entry point at the next operation.
    pub fn export(&mut self) -> (r: Export)
        ensures
            r.0 == old(self).export_offsets@.len(),
            final(self).export_offsets@ == old(self).export_offsets@.push(
                old(self).ir@.len() as usize,
            ),
            final(self).ir@ == old(self).ir@,
            final(self).label_offsets@ == old(self).label_offsets@,
            final(self).callee_saved_regs@ == old(self).callee_saved_regs@,
            final(self).caller_saved_regs@ == old(self).caller_saved_regs@,
    {
        let val = Export(self.export_offsets.len());
        self.export_offsets.push(self.ir.len());
        val
    }

    /// Places a label at the next operation.
    pub fn mark_label(&mut self, label: Label)
        requires
            label.0 < old(self).label_offsets@.len(),
        ensures
            final(self).label_offsets@ == old(self).label_offsets@.update(
                label.0 as int,
                old(self).ir@.len() as usize,
            ),
            final(self).ir@ == old(self).ir@,
            final(self).export_offsets@ == old(self).export_offsets@,
            final(self).callee_saved_regs@ == old(self).callee_saved_regs@,
            final(self).caller_saved_regs@ == old(self).caller_saved_regs@,
    {
        let here: usize = self.ir.len();
        self.label_offsets.set(label.0, here);
    }

    pub fn parameter_reg(&self, index: u8) -> (r: T::Reg)
        requires
            index < T::parameter_spec().len(),
        ensures
            r == T::parameter_spec()[index as int],
    {
        let regs = T::parameter_regs();
        regs[index as usize]
    }

    pub fn mov(&mut self, into: T::Reg, from: T::Reg)
        ensures
            final(self).ir@ == old(self).ir@.push(Ir::Load { into, from }),
            old(self).same_names(final(self)),
    {
        self.ir.push(Ir::Load { into, from });
    }

    pub fn push(&mut self, val: T::Reg)
        ensures
            final(self).ir@ == old(self).ir@.push(Ir::Push { val }),
            old(self).same_names(final(self)),
    {
        self.ir.push(Ir::Push { val });
    }

    pub fn pop(&mut self, into: T::Reg)
        ensures
            final(self).ir@ == old(self).ir@.push(Ir::Pop { into }),
            old(self).same_names(final(self)),
    {
        self.ir.push(Ir::Pop { into });
    }

    pub fn load_imm(&mut self, into: T::Reg, val: u64)
        ensures
            final(self).ir@ == old(self).ir@.push(Ir::LoadImm { into, val }),
            old(self).same_names(final(self)),
    {
        self.ir.push(Ir::LoadImm { into, val });
    }

    pub fn load_imm_u8(&mut self, into: T::Reg, val: u8)
        ensures
            final(self).ir@ == old(self).ir@.push(Ir::LoadImm8 { into, val }),
            old(self).same_names(final(self)),
    {
        self.ir.push(Ir::LoadImm8 { into, val });
    }

    pub fn br_if_reg8_false(&mut self, val: T::Reg, to: Label)
        ensures
            final(self).ir@ == old(self).ir@.push(Ir::BrIfReg8False { val, to }),
            old(self).same_names(final(self)),
    {
        self.ir.push(Ir::BrIfReg8False { val, to });
    }

    pub fn ret(&mut self, val: T::Reg)
        ensures
            final(self).ir@ == old(self).ir@.push(Ir::Return { val }),
            old(self).same_names(final(self)),
    {
        self.ir.push(Ir::Return { val });
    }

    pub fn br_if_mem_is_nonzero_atomic(&mut self, base: T::Reg, offset: u32, to: Label)
        ensures
            final(self).ir@ == old(self).ir@.push(Ir::BrIfMem32IsNonZeroAtomic { base, offset, to }),
            old(self).same_names(final(self)),
    {
        self.ir.push(Ir::BrIfMem32IsNonZeroAtomic { base, offset, to });
    }

    pub fn br_if_mem8_is_zero(&mut self, base: T::Reg, offset: u32, to: Label)
        ensures
            final(self).ir@ == old(self).ir@.push(Ir::BrIfMem8IsZero { base, offset, to }),
            old(self).same_names(final(self)),
    {
        self.ir.push(Ir::BrIfMem8IsZero { base, offset, to });
    }

    pub fn jump(&mut self, to: Label)
        ensures
            final(self).ir@ == old(self).ir@.push(Ir::Jump { to }),
            old(self).same_names(final(self)),
    {
        self.ir.push(Ir::Jump { to });
    }

    pub fn emit_aligned_data_u64(&mut self, val: u64)
        ensures
            final(self).ir@ == old(self).ir@.push(Ir::AlignedDataU64 { val }),
            old(self).same_names(final(self)),
    {
        self.ir.push(Ir::AlignedDataU64 { val });
    }

    pub fn emit_aligned_data_u32(&mut self, val: u32)
        ensures
            final(self).ir@ == old(self).ir@.push(Ir::AlignedDataU32 { val }),
            old(self).same_names(final(self)),
    {
        self.ir.push(Ir::AlignedDataU32 { val });
    }

    pub fn load_ptr_u32(&mut self, into: T::Reg, base: T::Reg, offset: u32)
        ensures
            final(self).ir@ == old(self).ir@.push(Ir::ReadU32 { into, base, offset }),
            old(self).same_names(final(self)),
    {
        self.ir.push(Ir::ReadU32 { into, base, offset });
    }

    pub fn load_ptr_u64(&mut self, into: T::Reg, base: T::Reg, offset: u32)
        ensures
            final(self).ir@ == old(self).ir@.push(Ir::ReadU64 { into, base, offset }),
            old(self).same_names(final(self)),
    {
        self.ir.push(Ir::ReadU64 { into, base, offset });
    }

    pub fn add_u32_into(&mut self, dst: T::Reg, src: T::Reg)
        ensures
            final(self).ir@ == old(self).ir@.push(Ir::AddU32 { dst, src }),
            old(self).same_names(final(self)),
    {
        self.ir.push(Ir::AddU32 { dst, src });
    }

    pub fn band_u32_imm(&mut self, reg: T::Reg, imm: u32)
        ensures
            final(self).ir@ == old(self).ir@.push(Ir::BandU32Imm { reg, imm }),
            old(self).same_names(final(self)),
    {
        self.ir.push(Ir::BandU32Imm { reg, imm });
    }

    pub fn br_if_eq_imm(&mut self, reg: T::Reg, imm: u32, label: Label)
        ensures
            final(self).ir@ == old(self).ir@.push(Ir::BrIfEqImm { reg, imm, label }),
            old(self).same_names(final(self)),
    {
        self.ir.push(Ir::BrIfEqImm { reg, imm, label });
    }

    pub fn select_bits(&mut self, target: T::Reg, source: T::Reg, start: u8, end: u8)
        ensures
            final(self).ir@ == old(self).ir@.push(Ir::SelectBits { into: target, from: source, start, end }),
            old(self).same_names(final(self)),
    {
        self.ir.push(Ir::SelectBits { into: target, from: source, start, end });
    }

    pub fn load_array_ptr_u32(&mut self, target: T::Reg, label: Label, index: T::Reg)
        ensures
            final(self).ir@ == old(self).ir@.push(Ir::ReadArrayPtrU32 { into: target, label, index }),
            old(self).same_names(final(self)),
    {
        self.ir.push(Ir::ReadArrayPtrU32 { into: target, label, index });
    }

    /// Calls the function whose address lies at the label. Returns the register with its result.
    pub fn call_rip_relative(&mut self, label: Label) -> (r: T::Reg)
        ensures
            r == T::return_reg_spec(),
            final(self).ir@ == old(self).ir@.push(Ir::CallRipRelative { label }),
            old(self).same_names(final(self)),
    {
        self.ir.push(Ir::CallRipRelative { label });
        self.return_reg()
    }

    pub fn return_reg(&self) -> (r: T::Reg)
        ensures
            r == T::return_reg_spec(),
    {
        T::return_reg()
    }

    pub fn return_reg2(&self) -> (r: T::Reg)
        ensures
            r == T::return_reg2_spec(),
    {
        T::return_reg2()
    }

    /// The first `N` registers that calls do not keep and that are not excluded.
    pub fn find_temporaries_not_in<const N: usize>(&self, excluded: &[T::Reg]) -> (r: [T::Reg; N])
        requires
            not_excluded(T::caller_saved_spec(), excluded@, 0).len() >= N,
        ensures
            r@ == not_excluded(T::caller_saved_spec(), excluded@, 0).take(N as int),
    {
        let regs = T::caller_saved_regs();
        let mut r: [T::Reg; N] = [T::return_reg();N];
        let mut found: usize = 0;
        let mut n: usize = 0;
        let ghost all = not_excluded(regs@, excluded@, 0);
        assert(all =~= r@.take(0) + not_excluded(regs@, excluded@, 0));
        while n < regs.len() && found < N
            invariant
                n <= regs@.len(),
                found <= N,
                r@.len() == N,
                all.len() >= N,
                all == not_excluded(regs@, excluded@, 0),
                all == r@.take(found as int) + not_excluded(regs@, excluded@, n as int),
            decreases regs@.len() - n,
        {
            let reg = regs[n];
            let mut known: bool = false;
            let mut k: usize = 0;
            while k < excluded.len()
                invariant
                    k <= excluded@.len(),
                    known == (exists|i: int| 0 <= i < k && excluded@[i] == reg),
                decreases excluded@.len() - k,
            {
                if T::same(excluded[k], reg) {
                    known = true;
                }
                k = k + 1;
            }
            proof {
                assert(known == excluded@.contains(reg));
            }
            if !known {
                let ghost before = r@.take(found as int);
                r[found] = reg;
                found = found + 1;
                proof {
                    assert(r@.take(found as int) =~= before.push(reg));
                    assert(all =~= r@.take(found as int) + not_excluded(
                        regs@,
                        excluded@,
                        n + 1,
                    ));
                }
            }
            n = n + 1;
        }
        assert(not_excluded(regs@, excluded@, n as int).len() == all.len() - found);
        assert(r@ =~= all.take(N as int));
        r
    }

    /// The code can be put together: every operation is supported, the labels that are used are
    /// placed, and the code stays within 32-bit offsets.
    pub open spec fn buildable(&self) -> bool {
        &&& self.ir@.len() * 80 <= 0xffff_0000
        &&& forall|i: int| 0 <= i < self.ir@.len() ==> #[trigger] T::supports(self.ir@[i])
        &&& assembled(
            self.ir@,
            self.label_offsets@,
            self.export_offsets@,
            self.ir@.len() as int,
        ).0.complete()
    }

    /// Marks the labels that are placed at operation `index`.
    fn mark_labels(&self, e: &mut Emitter, index: usize)
        requires
            old(e).wf(),
        ensures
            final(e).wf(),
            final(e)@ == labels_marked(
                old(e)@,
                self.label_offsets@,
                index as int,
                self.label_offsets@.len() as int,
            ),
            final(e)@.bytes == old(e)@.bytes,
            final(e)@.relocations == old(e)@.relocations,
    {
        let mut k: usize = 0;
        while k < self.label_offsets.len()
            invariant
                k <= self.label_offsets@.len(),
                e.wf(),
                e@ == labels_marked(old(e)@, self.label_offsets@, index as int, k as int),
                e@.bytes == old(e)@.bytes,
                e@.relocations == old(e)@.relocations,
            decreases self.label_offsets@.len() - k,
        {
            if self.label_offsets[k] == index {
                e.mark_label(Label(k));
            }
            k = k + 1;
        }
    }

    /// The first entry point at operation `index`.
    fn find_export(&self, index: usize) -> (r: Option<usize>)
        ensures
            match first_export(self.export_offsets@, index as int, 0) {
                Some(k) => r.is_some() && r.unwrap() == k && 0 <= k < self.export_offsets@.len(),
                None => r.is_none(),
            },
    {
        let mut k: usize = 0;
        while k < self.export_offsets.len()
            invariant
                k <= self.export_offsets@.len(),
                first_export(self.export_offsets@, index as int, 0) == first_export(
                    self.export_offsets@,
                    index as int,
                    k as int,
                ),
            decreases self.export_offsets@.len() - k,
        {
            if self.export_offsets[k] == index {
                return Some(k);
            }
            k = k + 1;
        }
        None
    }

    /// Puts the code together.
    pub fn build(&self) -> (r: Assembled)
        requires
            self.buildable(),
        ensures
            ({
                let (m, exports) = assembled(
                    self.ir@,
                    self.label_offsets@,
                    self.export_offsets@,
                    self.ir@.len() as int,
                );
                &&& m.wf()
                &&& r.bytes@ == m.finished(T::relocation_base())
                &&& r.bytes@.len() == m.bytes.len()
                &&& r.exports.0@ == exports
            }),
    {
        let mut e = Emitter::new();
        let mut exports: Vec<usize> = Vec::new();
        let mut i: usize = 0;
        while i < self.export_offsets.len()
            invariant
                i <= self.export_offsets@.len(),
                exports@ == Seq::new(i as nat, |k: int| 0usize),
            decreases self.export_offsets@.len() - i,
        {
            exports.push(0);
            i = i + 1;
            assert(exports@ =~= Seq::new(i as nat, |k: int| 0usize));
        }
        let mut index: usize = 0;
        while index < self.ir.len()
            invariant
                index <= self.ir@.len(),
                self.buildable(),
                e.wf(),
                e@.bytes.len() <= index * 80,
                exports@.len() == self.export_offsets@.len(),
                (e@, exports@) == assembled(
                    self.ir@,
                    self.label_offsets@,
                    self.export_offsets@,
                    index as int,
                ),
            decreases self.ir@.len() - index,
        {
            let item = &self.ir[index];
            assert(T::supports(self.ir@[index as int]));
            proof {
                assert(index * 80 + 80 <= self.ir@.len() * 80) by (nonlinear_arith)
                    requires
                        index < self.ir@.len(),
                ;
                emitter::lemma_padding(e@.bytes.len() as int, item.alignment());
            }
            item.align(&mut e);
            self.mark_labels(&mut e, index);
            if let Some(export_index) = self.find_export(index) {
                exports.set(export_index, e.offset());
            }
            T::compile(item, &mut e);
            index = index + 1;
        }
        let bytes = e.finish::<T>();
        Assembled { bytes, exports: Exports(exports) }
    }
}

} // verus!
