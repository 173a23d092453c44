//! Code with references to labels that are filled in at the end.
use vstd::arithmetic::power2::{lemma2_to64, lemma_pow2_pos, pow2};
use vstd::prelude::*;

use crate::bytes::{from_le32, get_le32, le32, le64, overwrite, write_range, zeros};
use crate::codegen::singlepass::{Label, Target};

verus! {

/// A field of four bytes of code that takes the distance to a label: `bits` bits from bit `shift`
/// on, which count units of `2^shr` bytes.
#[derive(Copy, Clone, Debug, PartialEq, Eq, Structural)]
pub struct Relocation {
    pub pos: usize,
    pub bits: usize,
    pub label: Label,
    pub shift: usize,
    pub shr: usize,
}

impl Relocation {
    pub open spec fn wf(&self) -> bool {
        self.bits <= 32 && self.shift < 32 && self.shr < 32
    }

    /// The number of bits of the field that exist.
    pub open spec fn width(&self) -> nat {
        if self.bits + self.shift <= 32 {
            self.bits as nat
        } else {
            (32 - self.shift) as nat
        }
    }

    /// Four bytes of code with the field replaced.
    pub open spec fn patched(&self, current: u32, offset: u32) -> int {
        let unit = pow2(self.shift as nat) as int;
        let range = pow2(self.width()) as int;
        let field = offset as int / (pow2(self.shr as nat) as int) % range;
        current as int / (unit * range) * (unit * range) + field * unit + current as int % unit
    }
}

/// A piece of code. The positions of its relocations count from its start.
pub struct Code {
    pub bytes: Seq<u8>,
    pub relocations: Seq<Relocation>,
}

impl Code {
    pub open spec fn of_bytes(bytes: Seq<u8>) -> Code {
        Code { bytes, relocations: Seq::empty() }
    }

    /// A whole 32-bit reference to a label.
    pub open spec fn of_label(label: Label) -> Code {
        Code {
            bytes: zeros(4),
            relocations: seq![Relocation { pos: 0, bits: 32, label, shift: 0, shr: 0 }],
        }
    }

    /// An instruction word with a reference to a label in some of its bits.
    pub open spec fn of_word(label: LabelInU32) -> Code {
        Code {
            bytes: le32(label.val),
            relocations: seq![
                Relocation {
                    pos: 0,
                    bits: label.bits,
                    label: label.label,
                    shift: label.shift,
                    shr: label.shr,
                },
            ],
        }
    }

    /// At most `max` bytes, which hold all references.
    pub open spec fn within(&self, max: int) -> bool {
        &&& self.bytes.len() <= max
        &&& forall|i: int|
            0 <= i < self.relocations.len() ==> (#[trigger] self.relocations[i]).pos + 4
                <= self.bytes.len()
    }

    /// Another piece behind this one.
    pub open spec fn plus(self, other: Code) -> Code {
        Code {
            bytes: self.bytes + other.bytes,
            relocations: self.relocations + moved(other.relocations, self.bytes.len() as int),
        }
    }
}

/// Two short pieces are a short piece.
pub proof fn lemma_plus_within(a: Code, b: Code, m: int, n: int)
    requires
        a.within(m),
        b.within(n),
        m + n <= 64,
    ensures
        a.plus(b).within(m + n),
{
    let c = a.plus(b);
    assert forall|i: int| 0 <= i < c.relocations.len() implies (#[trigger] c.relocations[i]).pos + 4
        <= c.bytes.len() by {
        if i < a.relocations.len() {
            assert(c.relocations[i] == a.relocations[i]);
        } else {
            let r = b.relocations[i - a.relocations.len()];
            assert(c.relocations[i].pos == r.pos + a.bytes.len());
        }
    }
}

/// Relocations of a piece of code that starts at `by`.
pub open spec fn moved(relocations: Seq<Relocation>, by: int) -> Seq<Relocation> {
    Seq::new(
        relocations.len(),
        |i: int| Relocation { pos: (relocations[i].pos + by) as usize, ..relocations[i] },
    )
}

/// A reference to a label in some of the bits of an instruction word.
#[derive(Copy, Clone, Debug, PartialEq, Eq, Structural)]
pub struct LabelInU32 {
    pub label: Label,
    pub val: u32,
    pub bits: usize,
    pub shift: usize,
    pub shr: usize,
}

impl LabelInU32 {
    /// The bits of the reference are 0 in the word.
    pub open spec fn field_is_zero(val: u32, bits: usize, shift: usize) -> bool {
        val as int / (pow2(shift as nat) as int) % (pow2(bits as nat) as int) == 0
    }

    pub fn new(label: Label, val: u32, bits: usize, shift: usize, shr: usize) -> (r: Self)
        requires
            bits < 32,
            shift < 32,
            Self::field_is_zero(val, bits, shift),
        ensures
            r == (LabelInU32 { label, val, bits, shift, shr }),
    {
        Self { label, val, bits, shift, shr }
    }
}

/// Code that is being emitted.
#[derive(Debug)]
pub struct Emitter {
    bytes: Vec<u8>,
    relocations: Vec<Relocation>,
    label_locations: Vec<usize>,
}

pub struct EmitterModel {
    pub bytes: Seq<u8>,
    pub relocations: Seq<Relocation>,
    pub labels: Seq<usize>,
}

impl View for Emitter {
    type V = EmitterModel;

    closed spec fn view(&self) -> EmitterModel {
        EmitterModel {
            bytes: self.bytes@,
            relocations: self.relocations@,
            labels: self.label_locations@,
        }
    }
}

/// A label whose place is not known.
pub const UNMARKED: usize = usize::MAX;

/// The code up to `count` relocations filled in, `base` being how far behind a relocation its
/// offset counts from.
pub open spec fn resolved(
    bytes: Seq<u8>,
    relocations: Seq<Relocation>,
    labels: Seq<usize>,
    base: int,
    count: int,
) -> Seq<u8>
    decreases count,
{
    if count <= 0 {
        bytes
    } else {
        let before = resolved(bytes, relocations, labels, base, count - 1);
        let r = relocations[count - 1];
        overwrite(
            before,
            r.pos as int,
            le32(
                r.patched(
                    from_le32(before.skip(r.pos as int)) as u32,
                    label_offset(labels[r.label.0 as int], r.pos, base),
                ) as u32,
            ),
        )
    }
}

/// The distance from a relocation to its label, in 32 bits.
pub open spec fn label_offset(label: usize, pos: usize, base: int) -> u32 {
    ((label - pos - base) % 0x1_0000_0000) as u32
}

impl EmitterModel {
    /// Relocations lie one behind the other within the code.
    pub open spec fn wf(&self) -> bool {
        &&& self.bytes.len() <= usize::MAX
        &&& forall|i: int|
            #![trigger self.relocations[i]]
            0 <= i < self.relocations.len() ==> {
                &&& self.relocations[i].wf()
                &&& self.relocations[i].pos + 4 <= self.bytes.len()
            }
        &&& forall|i: int, j: int|
            #![trigger self.relocations[i], self.relocations[j]]
            0 <= i < j < self.relocations.len() ==> self.relocations[i].pos + 4
                <= self.relocations[j].pos
    }

    pub open spec fn appended(self, code: Code) -> EmitterModel {
        EmitterModel {
            bytes: self.bytes + code.bytes,
            relocations: self.relocations + moved(code.relocations, self.bytes.len() as int),
            ..self
        }
    }

    /// The code filled up with zeros to a multiple of `align`.
    pub open spec fn aligned(self, align: int) -> EmitterModel {
        EmitterModel {
            bytes: self.bytes + zeros(padding(self.bytes.len() as int, align) as nat),
            ..self
        }
    }

    pub open spec fn marked(self, label: Label) -> EmitterModel {
        let n = label.0 as int;
        EmitterModel {
            labels: if n < self.labels.len() {
                self.labels.update(n, self.bytes.len() as usize)
            } else {
                (self.labels + Seq::new(
                    (n - self.labels.len()) as nat,
                    |i: int| UNMARKED,
                )).push(self.bytes.len() as usize)
            },
            ..self
        }
    }

    /// All labels that are used have a place.
    pub open spec fn complete(&self) -> bool {
        forall|i: int|
            #![trigger self.relocations[i]]
            0 <= i < self.relocations.len() ==> {
                let n = self.relocations[i].label.0 as int;
                n < self.labels.len() && self.labels[n] != UNMARKED
            }
    }

    pub open spec fn finished(&self, base: int) -> Seq<u8> {
        resolved(
            self.bytes,
            self.relocations,
            self.labels,
            base,
            self.relocations.len() as int,
        )
    }
}

/// The number of bytes that are missing to a multiple of `align`.
pub open spec fn padding(len: int, align: int) -> int {
    (align - len % align) % align
}

/// Two pieces one after the other are one piece.
pub proof fn lemma_append_plus(m: EmitterModel, a: Code, b: Code)
    requires
        forall|i: int|
            0 <= i < b.relocations.len() ==> (#[trigger] b.relocations[i]).pos + a.bytes.len()
                + m.bytes.len() <= usize::MAX,
    ensures
        m.appended(a).appended(b) == m.appended(a.plus(b)),
{
    let l = m.appended(a).appended(b);
    let r = m.appended(a.plus(b));
    assert(l.bytes =~= r.bytes);
    assert(l.relocations =~= r.relocations);
}

impl Emitter {
    /// Emits four bytes, the low one first.
    pub fn emit_u32(&mut self, val: u32)
        requires
            old(self).wf(),
            old(self)@.bytes.len() + 4 <= usize::MAX,
        ensures
            final(self).wf(),
            final(self)@ == old(self)@.appended(Code::of_bytes(le32(val))),
    {
        let mut bytes: Vec<u8> = Vec::new();
        crate::bytes::push_le32(&mut bytes, val);
        assert(bytes@ =~= le32(val));
        self.push_bytes(bytes.as_slice());
    }

    /// Emits eight bytes, the low one first.
    pub fn emit_u64(&mut self, val: u64)
        requires
            old(self).wf(),
            old(self)@.bytes.len() + 8 <= usize::MAX,
        ensures
            final(self).wf(),
            final(self)@ == old(self)@.appended(Code::of_bytes(le64(val))),
    {
        let mut bytes: Vec<u8> = Vec::new();
        crate::bytes::push_le64(&mut bytes, val);
        assert(bytes@ =~= le64(val));
        self.push_bytes(bytes.as_slice());
    }
}

/// Something that can be emitted.
pub trait Emittable: Sized {
    /// What is emitted.
    spec fn code(&self) -> Code;

    /// Whether the references in it can be filled in.
    spec fn emittable(&self) -> bool;

    fn emit(&self, target: &mut Emitter)
        requires
            old(target).wf(),
            self.emittable(),
            old(target)@.bytes.len() + self.code().bytes.len() <= usize::MAX,
        ensures
            final(target).wf(),
            final(target)@ == old(target)@.appended(self.code()),
    ;
}

impl Emittable for u8 {
    open spec fn code(&self) -> Code {
        Code::of_bytes(seq![*self])
    }

    open spec fn emittable(&self) -> bool {
        true
    }

    fn emit(&self, target: &mut Emitter) {
        target.push_byte(*self);
    }
}

impl Emittable for &[u8] {
    open spec fn code(&self) -> Code {
        Code::of_bytes(self@)
    }

    open spec fn emittable(&self) -> bool {
        true
    }

    fn emit(&self, target: &mut Emitter) {
        target.push_bytes(*self);
    }
}

impl<const N: usize> Emittable for &[u8; N] {
    open spec fn code(&self) -> Code {
        Code::of_bytes(self@)
    }

    open spec fn emittable(&self) -> bool {
        true
    }

    fn emit(&self, target: &mut Emitter) {
        target.push_bytes(self.as_slice());
    }
}

impl<const N: usize> Emittable for [u8; N] {
    open spec fn code(&self) -> Code {
        Code::of_bytes(self@)
    }

    open spec fn emittable(&self) -> bool {
        true
    }

    fn emit(&self, target: &mut Emitter) {
        target.push_bytes(self.as_slice());
    }
}

impl Emittable for Label {
    open spec fn code(&self) -> Code {
        Code::of_label(*self)
    }

    open spec fn emittable(&self) -> bool {
        true
    }

    fn emit(&self, target: &mut Emitter) {
        let relocation = Relocation {
            pos: target.offset(),
            bits: 32,
            shift: 0,
            shr: 0,
            label: *self,
        };
        target.push_reference(relocation, 0);
        assert(le32(0) =~= zeros(4));
        assert(target@.bytes =~= old(target)@.appended(self.code()).bytes);
        assert(target@.relocations =~= old(target)@.appended(self.code()).relocations);
    }
}

impl Emittable for LabelInU32 {
    open spec fn code(&self) -> Code {
        Code::of_word(*self)
    }

    /// The field lies within the word, and so does what is left of the offset.
    open spec fn emittable(&self) -> bool {
        self.bits <= 32 && self.shift < 32 && self.shr < 32
    }

    fn emit(&self, target: &mut Emitter) {
        let relocation = Relocation {
            pos: target.offset(),
            bits: self.bits,
            label: self.label,
            shift: self.shift,
            shr: self.shr,
        };
        target.push_reference(relocation, self.val);
        assert(target@.bytes =~= old(target)@.appended(self.code()).bytes);
        assert(target@.relocations =~= old(target)@.appended(self.code()).relocations);
    }
}

impl Default for Emitter {
    fn default() -> (r: Self)
        ensures
            r.wf(),
            r@.bytes == Seq::<u8>::empty(),
            r@.relocations == Seq::<Relocation>::empty(),
            r@.labels == Seq::<usize>::empty(),
    {
        Self::new()
    }
}

/// Two to the power of `n`.
fn power(n: usize) -> (r: u64)
    requires
        n <= 32,
    ensures
        r == pow2(n as nat),
        1 <= r <= 0x1_0000_0000,
{
    proof {
        lemma2_to64();
    }
    let mut r: u64 = 1;
    let mut i: usize = 0;
    while i < n
        invariant
            i <= n <= 32,
            r == pow2(i as nat),
            1 <= r <= 0x1_0000_0000,
            i < 32 ==> r <= 0x8000_0000,
        decreases n - i,
    {
        proof {
            vstd::arithmetic::power2::lemma_pow2_unfold((i + 1) as nat);
            lemma2_to64();
            if i + 1 < 31 {
                vstd::arithmetic::power2::lemma_pow2_strictly_increases((i + 1) as nat, 31);
            }
        }
        r = r * 2;
        i = i + 1;
    }
    r
}

impl Relocation {
    fn patch(&self, current: u32, offset: u32) -> (r: u32)
        requires
            self.wf(),
        ensures
            r == self.patched(current, offset),
    {
        let width: usize = if self.bits + self.shift <= 32 {
            self.bits
        } else {
            32 - self.shift
        };
        let unit: u64 = power(self.shift);
        let range: u64 = power(width);
        let step: u64 = power(self.shr);
        proof {
            vstd::arithmetic::power2::lemma_pow2_adds(self.shift as nat, width as nat);
            lemma2_to64();
            if self.shift + width < 32 {
                vstd::arithmetic::power2::lemma_pow2_strictly_increases(
                    (self.shift + width) as nat,
                    32,
                );
            }
            assert(unit * range == pow2((self.shift + width) as nat));
            assert(unit * range <= 0x1_0000_0000);
            assert(unit * range > 0) by (nonlinear_arith)
                requires
                    unit >= 1,
                    range >= 1,
            ;
        }
        let both: u64 = unit * range;
        let field: u64 = offset as u64 / step % range;
        let c: u64 = current as u64;
        proof {
            let (cc, u, g, f): (int, int, int, int) = (
                c as int,
                unit as int,
                range as int,
                field as int,
            );
            let rest: nat = (32 - self.shift - width) as nat;
            vstd::arithmetic::power2::lemma_pow2_adds((self.shift + width) as nat, rest);
            lemma_field_fits(cc, u, g, f, pow2(rest) as int);
        }
        (c / both * both + field * unit + c % unit) as u32
    }
}

/// A word with a field replaced is a word.
proof fn lemma_field_fits(c: int, unit: int, range: int, field: int, k: int)
    requires
        0 <= c <= u32::MAX,
        1 <= unit,
        1 <= range,
        unit * range * k == 0x1_0000_0000,
        0 <= field < range,
    ensures
        0 <= c / (unit * range) * (unit * range) + field * unit + c % unit <= u32::MAX,
        0 <= field * unit <= u32::MAX,
        0 <= c / (unit * range) * (unit * range) <= u32::MAX,
{
    let both: int = unit * range;
    assert(both > 0) by (nonlinear_arith)
        requires
            both == unit * range,
            unit >= 1,
            range >= 1,
    ;
    let q: int = c / both;
    assert(q * both <= c) by (nonlinear_arith)
        requires
            both > 0,
            q == c / both,
    ;
    assert(q >= 0) by (nonlinear_arith)
        requires
            both > 0,
            q == c / both,
            c >= 0,
    ;
    assert(field * unit + unit <= both) by (nonlinear_arith)
        requires
            0 <= field < range,
            unit >= 1,
            both == unit * range,
    ;
    assert(0 <= c % unit < unit);
    assert(field * unit >= 0) by (nonlinear_arith)
        requires
            field >= 0,
            unit >= 1,
    ;
    assert(q + 1 <= k) by (nonlinear_arith)
        requires
            both * k == 0x1_0000_0000,
            q * both <= c,
            c < 0x1_0000_0000,
            both > 0,
    ;
    assert(q * both + both <= 0x1_0000_0000) by (nonlinear_arith)
        requires
            q + 1 <= k,
            both * k == 0x1_0000_0000,
            both > 0,
    ;
    assert(q * both >= 0) by (nonlinear_arith)
        requires
            q >= 0,
            both > 0,
    ;
}

impl Emitter {
    pub open spec fn wf(&self) -> bool {
        self@.wf()
    }

    pub fn new() -> (r: Self)
        ensures
            r.wf(),
            r@.bytes == Seq::<u8>::empty(),
            r@.relocations == Seq::<Relocation>::empty(),
            r@.labels == Seq::<usize>::empty(),
    {
        Self { bytes: Vec::new(), relocations: Vec::new(), label_locations: Vec::new() }
    }

    fn push_byte(&mut self, byte: u8)
        requires
            old(self).wf(),
            old(self)@.bytes.len() + 1 <= usize::MAX,
        ensures
            final(self).wf(),
            final(self)@ == old(self)@.appended(Code::of_bytes(seq![byte])),
    {
        self.bytes.push(byte);
        assert(self@.bytes =~= old(self)@.bytes + seq![byte]);
        assert(self@.relocations =~= old(self)@.appended(
            Code::of_bytes(seq![byte]),
        ).relocations);
    }

    fn push_bytes(&mut self, bytes: &[u8])
        requires
            old(self).wf(),
            old(self)@.bytes.len() + bytes@.len() <= usize::MAX,
        ensures
            final(self).wf(),
            final(self)@ == old(self)@.appended(Code::of_bytes(bytes@)),
    {
        crate::bytes::push_all(&mut self.bytes, bytes);
        assert(self@.relocations =~= old(self)@.appended(Code::of_bytes(bytes@)).relocations);
    }

    /// Emits four bytes with a reference to a label in them.
    fn push_reference(&mut self, relocation: Relocation, val: u32)
        requires
            old(self).wf(),
            relocation.wf(),
            relocation.pos == old(self)@.bytes.len(),
            old(self)@.bytes.len() + 4 <= usize::MAX,
        ensures
            final(self).wf(),
            final(self)@.bytes == old(self)@.bytes + le32(val),
            final(self)@.relocations == old(self)@.relocations.push(relocation),
            final(self)@.labels == old(self)@.labels,
    {
        self.relocations.push(relocation);
        crate::bytes::push_le32(&mut self.bytes, val);
        proof {
            let n = old(self)@.relocations.len();
            assert(self@.bytes.len() == old(self)@.bytes.len() + 4);
            assert forall|i: int| #![trigger self@.relocations[i]]
                0 <= i < self@.relocations.len() implies self@.relocations[i].wf()
                && self@.relocations[i].pos + 4 <= self@.bytes.len() by {
                if i < n {
                    assert(self@.relocations[i] == old(self)@.relocations[i]);
                }
            }
            assert forall|i: int, j: int|
                #![trigger self@.relocations[i], self@.relocations[j]]
                0 <= i < j < self@.relocations.len() implies self@.relocations[i].pos + 4
                <= self@.relocations[j].pos by {
                assert(self@.relocations[i] == old(self)@.relocations[i]);
                if j < n {
                    assert(self@.relocations[j] == old(self)@.relocations[j]);
                }
            }
        }
    }

    /// The label stands for the place where code is emitted next.
    pub fn mark_label(&mut self, label: Label)
        requires
            old(self).wf(),
            label.0 < usize::MAX,
        ensures
            final(self).wf(),
            final(self)@ == old(self)@.marked(label),
    {
        let here: usize = self.bytes.len();
        let ghost start = self.label_locations@;
        if label.0 < self.label_locations.len() {
            self.label_locations.set(label.0, here);
        } else {
            while self.label_locations.len() < label.0
                invariant
                    start.len() <= self.label_locations@.len() <= label.0,
                    self.label_locations@ == start + Seq::new(
                        (self.label_locations@.len() - start.len()) as nat,
                        |i: int| UNMARKED,
                    ),
                    self.bytes@ == old(self)@.bytes,
                    self.relocations@ == old(self)@.relocations,
                decreases label.0 - self.label_locations@.len(),
            {
                self.label_locations.push(UNMARKED);
                assert(self.label_locations@ =~= start + Seq::new(
                    (self.label_locations@.len() - start.len()) as nat,
                    |i: int| UNMARKED,
                ));
            }
            self.label_locations.push(here);
        }
        assert(self@.labels =~= old(self)@.marked(label).labels);
    }

    pub fn emit<E: Emittable>(&mut self, e: E)
        requires
            old(self).wf(),
            e.emittable(),
            old(self)@.bytes.len() + e.code().bytes.len() <= usize::MAX,
        ensures
            final(self).wf(),
            final(self)@ == old(self)@.appended(e.code()),
    {
        e.emit(self)
    }

    pub fn offset(&self) -> (r: usize)
        ensures
            r == self@.bytes.len(),
    {
        self.bytes.len()
    }

    /// Fills in the references to labels, and gives the code.
    pub fn finish<T: Target>(self) -> (r: Vec<u8>)
        requires
            self.wf(),
            self@.complete(),
            self@.bytes.len() <= 0xffff_fff0,
        ensures
            r@ == self@.finished(T::relocation_base()),
            r@.len() == self@.bytes.len(),
    {
        let ghost model = self@;
        let base: u32 = T::relocation_offset();
        let mut bytes = self.bytes;
        let relocations = self.relocations;
        let labels = self.label_locations;
        let mut n: usize = 0;
        while n < relocations.len()
            invariant
                model.wf(),
                model.complete(),
                model.relocations == relocations@,
                model.labels == labels@,
                model.bytes.len() <= 0xffff_fff0,
                bytes@.len() == model.bytes.len(),
                base == T::relocation_base(),
                base <= 4,
                n <= relocations@.len(),
                bytes@ == resolved(
                    model.bytes,
                    model.relocations,
                    model.labels,
                    base as int,
                    n as int,
                ),
            decreases relocations@.len() - n,
        {
            let relocation = relocations[n];
            assert(model.relocations[n as int] == relocation);
            let label_pos: usize = labels[relocation.label.0];
            let from: u32 = relocation.pos as u32 + base;
            let to: u32 = (label_pos as u64 % 0x1_0000_0000) as u32;
            let offset: u32 = to.wrapping_sub(from);
            proof {
                let l = label_pos as int;
                assert(offset == label_offset(label_pos, relocation.pos, base as int)) by {
                    let d = l - relocation.pos - base;
                    assert(to == l % 0x1_0000_0000);
                    assert(from == relocation.pos + base);
                    assert((l % 0x1_0000_0000 - from) % 0x1_0000_0000 == (l - from)
                        % 0x1_0000_0000);
                }
            }
            let current_val: u32 = get_le32(bytes.as_slice(), relocation.pos);
            let new_val: u32 = relocation.patch(current_val, offset);
            let mut patch: Vec<u8> = Vec::new();
            crate::bytes::push_le32(&mut patch, new_val);
            assert(patch@ =~= le32(new_val));
            write_range(&mut bytes, relocation.pos, patch.as_slice());
            n = n + 1;
        }
        bytes
    }

    /// Fills the code up with zeros to a multiple of `align`.
    pub fn align(&mut self, align: usize)
        requires
            old(self).wf(),
            align >= 1,
            old(self)@.bytes.len() + align <= usize::MAX,
        ensures
            final(self).wf(),
            final(self)@ == old(self)@.aligned(align as int),
            final(self)@.bytes.len() % (align as nat) == 0,
    {
        let len: usize = self.bytes.len();
        let rest: usize = len % align;
        let count: usize = if rest == 0 {
            0
        } else {
            align - rest
        };
        proof {
            let (l, a): (int, int) = (len as int, align as int);
            lemma_padding(l, a);
            assert(count == padding(l, a));
        }
        crate::bytes::push_zeros(&mut self.bytes, count);
        assert(self@.bytes.len() == len + count);
        assert(self@.relocations == old(self)@.relocations);
    }
}

/// Padding makes a length a multiple of the alignment.
pub proof fn lemma_padding(len: int, align: int)
    requires
        len >= 0,
        align >= 1,
    ensures
        padding(len, align) == (if len % align == 0 {
            0
        } else {
            align - len % align
        }),
        0 <= padding(len, align) < align,
        (len + padding(len, align)) % align == 0,
{
    let r: int = len % align;
    if r == 0 {
        assert(align % align == 0) by (nonlinear_arith)
            requires
                align >= 1,
        ;
    } else {
        vstd::arithmetic::div_mod::lemma_small_mod((align - r) as nat, align as nat);
        vstd::arithmetic::div_mod::lemma_fundamental_div_mod(len, align);
        let q: int = len / align;
        assert(len + (align - r) == (q + 1) * align) by (nonlinear_arith)
            requires
                len == align * q + r,
        ;
        vstd::arithmetic::div_mod::lemma_mod_multiples_basic(q + 1, align);
    }
}

/// The four bytes of code at `pos`, as a word.
pub open spec fn word_at(bytes: Seq<u8>, pos: int) -> u32 {
    from_le32(bytes.skip(pos)) as u32
}

proof fn lemma_patched_fits(r: Relocation, current: u32, offset: u32)
    requires
        r.wf(),
    ensures
        0 <= r.patched(current, offset) <= u32::MAX,
{
    let width = r.width();
    let unit: int = pow2(r.shift as nat) as int;
    let range: int = pow2(width) as int;
    let step: int = pow2(r.shr as nat) as int;
    lemma_pow2_pos(r.shift as nat);
    lemma_pow2_pos(width);
    lemma_pow2_pos(r.shr as nat);
    let rest: nat = (32 - r.shift - width) as nat;
    lemma2_to64();
    vstd::arithmetic::power2::lemma_pow2_adds(r.shift as nat, width);
    vstd::arithmetic::power2::lemma_pow2_adds((r.shift + width) as nat, rest);
    let q: int = offset as int / step;
    assert(0 <= q % range < range);
    lemma_field_fits(current as int, unit, range, q % range, pow2(rest) as int);
}

proof fn lemma_word_overwritten(bytes: Seq<u8>, at: int, val: u32, pos: int)
    requires
        0 <= at,
        at + 4 <= bytes.len(),
        0 <= pos,
        pos + 4 <= bytes.len(),
        pos == at || pos + 4 <= at || at + 4 <= pos,
    ensures
        word_at(overwrite(bytes, at, le32(val)), pos) == (if pos == at {
            val
        } else {
            word_at(bytes, pos)
        }),
{
    let after = overwrite(bytes, at, le32(val));
    crate::bytes::le_round_trip(0, val, 0);
    let s = after.skip(pos);
    assert(s[0] == after[pos] && s[1] == after[pos + 1] && s[2] == after[pos + 2] && s[3]
        == after[pos + 3]);
    let t = bytes.skip(pos);
    assert(t[0] == bytes[pos] && t[1] == bytes[pos + 1] && t[2] == bytes[pos + 2] && t[3]
        == bytes[pos + 3]);
}

proof fn lemma_whole_word_patched(r: Relocation, current: u32, offset: u32)
    requires
        r.bits == 32,
        r.shift == 0,
        r.shr == 0,
    ensures
        r.patched(current, offset) == offset,
{
    lemma2_to64();
    let unit: int = pow2(r.shift as nat) as int;
    let range: int = pow2(r.width()) as int;
    let step: int = pow2(r.shr as nat) as int;
    let c: int = current as int;
    let o: int = offset as int;
    assert(c / (unit * range) * (unit * range) + (o / step % range) * unit + c % unit == o)
        by (nonlinear_arith)
        requires
            0 <= c < range,
            0 <= o < range,
            unit == 1,
            step == 1,
            range == 0x1_0000_0000,
    ;
}

proof fn lemma_resolved_words(m: EmitterModel, base: int, count: int, i: int)
    requires
        m.wf(),
        0 <= count <= m.relocations.len(),
        0 <= i < m.relocations.len(),
    ensures
        resolved(m.bytes, m.relocations, m.labels, base, count).len() == m.bytes.len(),
        ({
            let r = m.relocations[i];
            let word = word_at(
                resolved(m.bytes, m.relocations, m.labels, base, count),
                r.pos as int,
            );
            let before = word_at(m.bytes, r.pos as int);
            word == (if i < count {
                r.patched(
                    before,
                    label_offset(m.labels[r.label.0 as int], r.pos, base),
                ) as u32
            } else {
                before
            })
        }),
    decreases count,
{
    if count > 0 {
        let k: int = count - 1;
        lemma_resolved_words(m, base, k, i);
        lemma_resolved_words(m, base, k, k);
        let last = m.relocations[k];
        let r = m.relocations[i];
        let before = resolved(m.bytes, m.relocations, m.labels, base, k);
        let offset = label_offset(m.labels[last.label.0 as int], last.pos, base);
        let val = last.patched(word_at(before, last.pos as int), offset) as u32;
        lemma_word_overwritten(before, last.pos as int, val, r.pos as int);
    }
}

/// In finished code every reference holds the distance to its label, and the other bits of its
/// instruction are as they were emitted.
pub proof fn finished_references_reach_labels(m: EmitterModel, base: int, i: int)
    requires
        m.wf(),
        0 <= i < m.relocations.len(),
    ensures
        ({
            let r = m.relocations[i];
            let offset = label_offset(m.labels[r.label.0 as int], r.pos, base);
            &&& word_at(m.finished(base), r.pos as int) == r.patched(
                word_at(m.bytes, r.pos as int),
                offset,
            )
            &&& r.bits == 32 && r.shift == 0 && r.shr == 0 ==> word_at(
                m.finished(base),
                r.pos as int,
            ) == offset
        }),
{
    let r = m.relocations[i];
    let offset = label_offset(m.labels[r.label.0 as int], r.pos, base);
    let current = word_at(m.bytes, r.pos as int);
    lemma_resolved_words(m, base, m.relocations.len() as int, i);
    lemma_patched_fits(r, current, offset);
    if r.bits == 32 && r.shift == 0 && r.shr == 0 {
        lemma_whole_word_patched(r, current, offset);
    }
}

} // verus!
