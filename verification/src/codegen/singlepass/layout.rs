//! Where operations and labels lie in code that was put together.
use vstd::prelude::*;

use crate::bytes::{le32, le64, zeros};
use crate::codegen::singlepass::emitter::{
    label_offset, lemma_padding, padding, resolved, Code, EmitterModel, Relocation,
};
use crate::codegen::singlepass::aarch64_effects::references_hold_the_distance;
use crate::codegen::singlepass::x86_64::X86;
use crate::codegen::singlepass::{
    assembled, first_export, labels_marked, Ir, SinglePass, Target,
};

verus! {

impl<T: Target> SinglePass<T> {
    /// The code of the first `n` operations.
    pub open spec fn laid_out(&self, n: int) -> EmitterModel {
        assembled(self.ir@, self.label_offsets@, self.export_offsets@, n).0
    }

    /// Where operation `n` starts, its padding being behind it.
    pub open spec fn start_of(&self, n: int) -> int {
        let len = self.laid_out(n).bytes.len() as int;
        len + padding(len, self.ir@[n].alignment())
    }

    /// No entry point before entry point `k` was made at the same operation.
    pub open spec fn is_first_export(&self, k: int) -> bool {
        forall|j: int|
            0 <= j < k ==> #[trigger] self.export_offsets@[j] != self.export_offsets@[k]
    }
}

/// The code is within bounds, and so are the references in it.
spec fn within(m: EmitterModel, max: int) -> bool {
    &&& m.bytes.len() <= max
    &&& forall|i: int|
        0 <= i < m.relocations.len() ==> (#[trigger] m.relocations[i]).pos + 4 <= m.bytes.len()
}

proof fn lemma_marked_keeps_code(m: EmitterModel, offsets: Seq<usize>, index: int, k: int)
    ensures
        labels_marked(m, offsets, index, k).bytes == m.bytes,
        labels_marked(m, offsets, index, k).relocations == m.relocations,
    decreases k,
{
    if k > 0 {
        lemma_marked_keeps_code(m, offsets, index, k - 1);
    }
}

/// A label that is placed here stands for the end of the code, any other stays where it is.
proof fn lemma_marked(m: EmitterModel, offsets: Seq<usize>, index: int, k: int, label: int)
    requires
        0 <= k <= offsets.len() <= usize::MAX,
        0 <= label < offsets.len(),
    ensures
        ({
            let after = labels_marked(m, offsets, index, k).labels;
            &&& offsets[label] == index && label < k ==> label < after.len() && after[label]
                == m.bytes.len() as usize
            &&& offsets[label] != index && label < m.labels.len() ==> label < after.len()
                && after[label] == m.labels[label]
        }),
    decreases k,
{
    if k > 0 {
        lemma_marked(m, offsets, index, k - 1, label);
        lemma_marked_keeps_code(m, offsets, index, k - 1);
    }
}

proof fn lemma_laid_out<T: Target>(p: &SinglePass<T>, n: int)
    requires
        p.buildable(),
        0 <= n <= p.ir@.len(),
    ensures
        within(p.laid_out(n), n * 80),
        n * 80 <= 0xffff_0000,
    decreases n,
{
    assert(n * 80 <= p.ir@.len() * 80) by (nonlinear_arith)
        requires
            n <= p.ir@.len(),
    ;
    if n > 0 {
        lemma_laid_out(p, n - 1);
        lemma_step(p, n - 1);
        let before = p.laid_out(n - 1);
        let after = p.laid_out(n);
        let code = T::code(p.ir@[n - 1]);
        let start = p.start_of(n - 1);
        assert forall|i: int| 0 <= i < after.relocations.len() implies (
        #[trigger] after.relocations[i]).pos + 4 <= after.bytes.len() by {
            if i < before.relocations.len() {
                assert(after.relocations[i] == before.relocations[i]);
            } else {
                let r = code.relocations[i - before.relocations.len()];
                assert(after.relocations[i].pos == r.pos + start);
            }
        }
    }
}

/// What one more operation adds.
proof fn lemma_step<T: Target>(p: &SinglePass<T>, n: int)
    requires
        p.buildable(),
        0 <= n < p.ir@.len(),
        p.laid_out(n).bytes.len() <= n * 80,
        n * 80 <= 0xffff_0000,
    ensures
        ({
            let before = p.laid_out(n);
            let after = p.laid_out(n + 1);
            let code = T::code(p.ir@[n]);
            let start = p.start_of(n);
            &&& before.bytes.len() <= start < before.bytes.len() + p.ir@[n].alignment()
            &&& start % p.ir@[n].alignment() == 0
            &&& code.within(64)
            &&& after.bytes == before.bytes + zeros((start - before.bytes.len()) as nat)
                + code.bytes
            &&& after.relocations.len() == before.relocations.len() + code.relocations.len()
            &&& forall|i: int|
                0 <= i < before.relocations.len() ==> after.relocations[i]
                    == before.relocations[i]
            &&& forall|i: int|
                before.relocations.len() <= i < after.relocations.len() ==> (
                #[trigger] after.relocations[i]).pos == code.relocations[i
                    - before.relocations.len()].pos + start
            &&& forall|i: int|
                before.relocations.len() <= i < after.relocations.len()
                    ==> #[trigger] after.relocations[i] == (Relocation {
                    pos: after.relocations[i].pos,
                    ..code.relocations[i - before.relocations.len()]
                })
            &&& after.labels == labels_marked(
                before.aligned(p.ir@[n].alignment()),
                p.label_offsets@,
                n,
                p.label_offsets@.len() as int,
            ).labels
        }),
{
    let before = p.laid_out(n);
    let x = p.ir@[n];
    assert(T::supports(p.ir@[n]));
    T::code_is_short(x);
    lemma_padding(before.bytes.len() as int, x.alignment());
    let padded = before.aligned(x.alignment());
    lemma_marked_keeps_code(padded, p.label_offsets@, n, p.label_offsets@.len() as int);
    let here = labels_marked(padded, p.label_offsets@, n, p.label_offsets@.len() as int);
    assert(p.laid_out(n + 1) == here.appended(T::code(x)));
}

/// Operations behind the first `n` leave what was laid out alone.
proof fn lemma_stays<T: Target>(p: &SinglePass<T>, n: int, m: int)
    requires
        p.buildable(),
        0 <= n <= m <= p.ir@.len(),
    ensures
        ({
            let a = p.laid_out(n);
            let b = p.laid_out(m);
            &&& a.bytes.len() <= b.bytes.len()
            &&& forall|i: int| 0 <= i < a.bytes.len() ==> #[trigger] b.bytes[i] == a.bytes[i]
            &&& a.relocations.len() <= b.relocations.len()
            &&& forall|i: int|
                0 <= i < a.relocations.len() ==> #[trigger] b.relocations[i] == a.relocations[i]
            &&& forall|i: int|
                a.relocations.len() <= i < b.relocations.len() ==> (
                #[trigger] b.relocations[i]).pos >= a.bytes.len()
        }),
    decreases m - n,
{
    if n < m {
        lemma_stays(p, n, m - 1);
        lemma_laid_out(p, m - 1);
        lemma_step(p, m - 1);
    }
}

/// Nothing but references is filled in.
proof fn lemma_untouched(m: EmitterModel, base: int, count: int, at: int)
    requires
        within(m, m.bytes.len() as int),
        0 <= count <= m.relocations.len(),
        0 <= at < m.bytes.len(),
        forall|i: int|
            0 <= i < m.relocations.len() ==> (#[trigger] m.relocations[i]).pos + 4 <= at
                || at < m.relocations[i].pos,
    ensures
        resolved(m.bytes, m.relocations, m.labels, base, count).len() == m.bytes.len(),
        resolved(m.bytes, m.relocations, m.labels, base, count)[at] == m.bytes[at],
    decreases count,
{
    if count > 0 {
        lemma_untouched(m, base, count - 1, at);
        let r = m.relocations[count - 1];
        assert(r.pos + 4 <= at || at < r.pos);
    }
}

/// An operation without references stands in the finished code at its alignment, behind less
/// than one alignment of zeros. A label that was placed at the operation stands for its first
/// byte, not for the padding.
pub proof fn operations_stand_at_their_alignment<T: Target>(p: &SinglePass<T>, n: int)
    requires
        p.buildable(),
        0 <= n < p.ir@.len(),
        T::code(p.ir@[n]).relocations.len() == 0,
    ensures
        ({
            let m = p.laid_out(p.ir@.len() as int);
            let finished = m.finished(T::relocation_base());
            let end = p.laid_out(n).bytes.len() as int;
            let start = p.start_of(n);
            let data = T::code(p.ir@[n]).bytes;
            &&& start % p.ir@[n].alignment() == 0
            &&& end <= start < end + p.ir@[n].alignment()
            &&& start + data.len() <= finished.len()
            &&& finished.subrange(end, start) == zeros((start - end) as nat)
            &&& finished.subrange(start, start + data.len()) == data
            &&& forall|label: int|
                0 <= label < p.label_offsets@.len() && #[trigger] p.label_offsets@[label] == n
                    ==> label < m.labels.len() && m.labels[label] == start
        }),
{
    let total: int = p.ir@.len() as int;
    let m = p.laid_out(total);
    let base = T::relocation_base();
    let finished = m.finished(base);
    let before = p.laid_out(n);
    let after = p.laid_out(n + 1);
    let end: int = before.bytes.len() as int;
    let start: int = p.start_of(n);
    let data = T::code(p.ir@[n]).bytes;
    lemma_laid_out(p, n);
    lemma_laid_out(p, n + 1);
    lemma_laid_out(p, total);
    lemma_step(p, n);
    lemma_stays(p, n + 1, total);
    assert(m.bytes.len() >= start + data.len());
    assert forall|i: int| 0 <= i < m.relocations.len() implies (
    #[trigger] m.relocations[i]).pos + 4 <= end || start + data.len() <= m.relocations[i].pos by {
        if i < before.relocations.len() {
            assert(m.relocations[i] == after.relocations[i]);
            assert(after.relocations[i] == before.relocations[i]);
            assert(before.relocations[i].pos + 4 <= end);
        }
    }
    assert forall|at: int| end <= at < start + data.len() implies #[trigger] finished[at]
        == after.bytes[at] by {
        lemma_untouched(m, base, m.relocations.len() as int, at);
        assert(m.bytes[at] == after.bytes[at]);
    }
    lemma_length(m, base, m.relocations.len() as int);
    assert(finished.subrange(end, start) =~= zeros((start - end) as nat));
    assert(finished.subrange(start, start + data.len()) =~= data);
    assert forall|label: int|
        0 <= label < p.label_offsets@.len() && #[trigger] p.label_offsets@[label]
            == n implies label < m.labels.len() && m.labels[label] == start by {
        let padded = before.aligned(p.ir@[n].alignment());
        assert(p.label_offsets.len() <= usize::MAX);
        lemma_marked(padded, p.label_offsets@, n, p.label_offsets@.len() as int, label);
        lemma_label_stays(p, n, total, label);
    }
}

proof fn lemma_length(m: EmitterModel, base: int, count: int)
    ensures
        resolved(m.bytes, m.relocations, m.labels, base, count).len() == m.bytes.len(),
    decreases count,
{
    if count > 0 {
        lemma_length(m, base, count - 1);
    }
}

/// A label keeps the place that operation `n` gave it.
proof fn lemma_label_stays<T: Target>(p: &SinglePass<T>, n: int, m: int, label: int)
    requires
        p.buildable(),
        0 <= n < m <= p.ir@.len(),
        0 <= label < p.label_offsets@.len(),
        p.label_offsets@[label] == n,
        label < p.laid_out(n + 1).labels.len(),
    ensures
        label < p.laid_out(m).labels.len(),
        p.laid_out(m).labels[label] == p.laid_out(n + 1).labels[label],
    decreases m - n,
{
    if n + 1 < m {
        lemma_label_stays(p, n, m - 1, label);
        lemma_laid_out(p, m - 1);
        lemma_step(p, m - 1);
        assert(p.label_offsets.len() <= usize::MAX);
        lemma_marked(
            p.laid_out(m - 1).aligned(p.ir@[m - 1].alignment()),
            p.label_offsets@,
            m - 1,
            p.label_offsets@.len() as int,
            label,
        );
    }
}

/// Eight bytes of data stand at a multiple of eight, the low one first, behind at most seven
/// zeros, and the labels that were placed there name the first of them.
pub proof fn aligned_u64_stands_at_its_alignment(p: &SinglePass<X86>, n: int, val: u64)
    requires
        p.buildable(),
        0 <= n < p.ir@.len(),
        p.ir@[n] == (Ir::<X86>::AlignedDataU64 { val }),
    ensures
        ({
            let m = p.laid_out(p.ir@.len() as int);
            let finished = m.finished(X86::relocation_base());
            let end = p.laid_out(n).bytes.len() as int;
            let start = p.start_of(n);
            &&& start % 8 == 0
            &&& end <= start <= end + 7
            &&& finished.subrange(end, start) == zeros((start - end) as nat)
            &&& finished.subrange(start, start + 8) == le64(val)
            &&& forall|label: int|
                0 <= label < p.label_offsets@.len() && #[trigger] p.label_offsets@[label] == n
                    ==> label < m.labels.len() && m.labels[label] == start
        }),
{
    operations_stand_at_their_alignment(p, n);
}

/// Four bytes of data stand at a multiple of four, the low one first, behind at most three
/// zeros, and the labels that were placed there name the first of them.
pub proof fn aligned_u32_stands_at_its_alignment(p: &SinglePass<X86>, n: int, val: u32)
    requires
        p.buildable(),
        0 <= n < p.ir@.len(),
        p.ir@[n] == (Ir::<X86>::AlignedDataU32 { val }),
    ensures
        ({
            let m = p.laid_out(p.ir@.len() as int);
            let finished = m.finished(X86::relocation_base());
            let end = p.laid_out(n).bytes.len() as int;
            let start = p.start_of(n);
            &&& start % 4 == 0
            &&& end <= start <= end + 3
            &&& finished.subrange(end, start) == zeros((start - end) as nat)
            &&& finished.subrange(start, start + 4) == le32(val)
            &&& forall|label: int|
                0 <= label < p.label_offsets@.len() && #[trigger] p.label_offsets@[label] == n
                    ==> label < m.labels.len() && m.labels[label] == start
        }),
{
    operations_stand_at_their_alignment(p, n);
}

/// The entry point that is found is the first one from `k` on that lies at the operation.
proof fn lemma_first_export(offsets: Seq<usize>, index: int, k: int)
    requires
        0 <= k <= offsets.len(),
    ensures
        match first_export(offsets, index, k) {
            Some(n) => {
                &&& k <= n < offsets.len()
                &&& offsets[n] == index
                &&& forall|j: int| k <= j < n ==> #[trigger] offsets[j] != index
            },
            None => forall|j: int| k <= j < offsets.len() ==> #[trigger] offsets[j] != index,
        },
    decreases offsets.len() - k,
{
    if k < offsets.len() && offsets[k] != index {
        lemma_first_export(offsets, index, k + 1);
    }
}

proof fn lemma_exports<T: Target>(p: &SinglePass<T>, n: int, k: int)
    requires
        p.buildable(),
        0 <= n <= p.ir@.len(),
        0 <= k < p.export_offsets@.len(),
    ensures
        ({
            let exports = assembled(p.ir@, p.label_offsets@, p.export_offsets@, n).1;
            let at = p.export_offsets@[k] as int;
            &&& exports.len() == p.export_offsets@.len()
            &&& exports[k] == (if at < n && p.is_first_export(k) {
                p.start_of(at)
            } else {
                0
            })
        }),
    decreases n,
{
    if n > 0 {
        lemma_exports(p, n - 1, k);
        lemma_laid_out(p, n - 1);
        lemma_laid_out(p, n);
        lemma_step(p, n - 1);
        lemma_first_export(p.export_offsets@, n - 1, 0);
        let padded = p.laid_out(n - 1).aligned(p.ir@[n - 1].alignment());
        lemma_marked_keeps_code(
            padded,
            p.label_offsets@,
            n - 1,
            p.label_offsets@.len() as int,
        );
        assert(padded.bytes.len() == p.start_of(n - 1));
        if p.export_offsets@[k] == n - 1 {
            let found = first_export(p.export_offsets@, n - 1, 0).unwrap();
            if p.is_first_export(k) {
                assert(found == k);
            } else {
                assert(found != k);
            }
        }
    }
}

/// An entry point of built code is the first byte of the operation that it was made at, behind
/// the padding of the operation. Of several entry points at one operation only the first one is
/// filled in; the others, and those behind the last operation, are 0. The code that was emitted
/// for the operation stands there.
pub proof fn entry_points_lie_at_their_operations<T: Target>(p: &SinglePass<T>, k: int)
    requires
        p.buildable(),
        0 <= k < p.export_offsets@.len(),
    ensures
        ({
            let (m, exports) = assembled(
                p.ir@,
                p.label_offsets@,
                p.export_offsets@,
                p.ir@.len() as int,
            );
            let n = p.export_offsets@[k] as int;
            if n < p.ir@.len() && p.is_first_export(k) {
                let code = T::code(p.ir@[n]).bytes;
                &&& exports[k] == p.start_of(n)
                &&& exports[k] as int % p.ir@[n].alignment() == 0
                &&& m.bytes.subrange(exports[k] as int, exports[k] + code.len()) == code
            } else {
                exports[k] == 0
            }
        }),
{
    let total: int = p.ir@.len() as int;
    lemma_exports(p, total, k);
    let n = p.export_offsets@[k] as int;
    if n < total && p.is_first_export(k) {
        let m = p.laid_out(total);
        let after = p.laid_out(n + 1);
        let code = T::code(p.ir@[n]).bytes;
        let start = p.start_of(n);
        lemma_laid_out(p, n);
        lemma_step(p, n);
        lemma_stays(p, n + 1, total);
        assert forall|i: int| 0 <= i < code.len() implies #[trigger] m.bytes[start + i]
            == code[i] by {
            assert(m.bytes[start + i] == after.bytes[start + i]);
        }
        assert(m.bytes.subrange(start, start + code.len()) =~= code);
    }
}

/// The labels that are placed at an operation stand for its first byte.
proof fn lemma_label_place<T: Target>(p: &SinglePass<T>, t: int, label: int)
    requires
        p.buildable(),
        0 <= t < p.ir@.len(),
        0 <= label < p.label_offsets@.len(),
        p.label_offsets@[label] == t,
    ensures
        label < p.laid_out(p.ir@.len() as int).labels.len(),
        p.laid_out(p.ir@.len() as int).labels[label] == p.start_of(t),
{
    lemma_laid_out(p, t);
    lemma_laid_out(p, t + 1);
    lemma_step(p, t);
    let padded = p.laid_out(t).aligned(p.ir@[t].alignment());
    assert(p.label_offsets.len() <= usize::MAX);
    lemma_marked(padded, p.label_offsets@, t, p.label_offsets@.len() as int, label);
    assert(padded.bytes.len() == p.start_of(t));
    lemma_label_stays(p, t, p.ir@.len() as int, label);
}

/// The bytes of one reference that no other one touches.
proof fn lemma_filled(m: EmitterModel, base: int, count: int, j: int, at: int)
    requires
        within(m, m.bytes.len() as int),
        0 <= j < m.relocations.len(),
        0 <= count <= m.relocations.len(),
        m.relocations[j].bits == 32 && m.relocations[j].shift == 0 && m.relocations[j].shr == 0,
        forall|i: int|
            0 <= i < m.relocations.len() && i != j ==> (#[trigger] m.relocations[i]).pos + 4
                <= m.relocations[j].pos || m.relocations[j].pos + 4 <= m.relocations[i].pos,
        m.relocations[j].pos <= at < m.relocations[j].pos + 4,
    ensures
        ({
            let r = m.relocations[j];
            let done = resolved(m.bytes, m.relocations, m.labels, base, count);
            &&& done.len() == m.bytes.len()
            &&& done[at] == (if j < count {
                le32(label_offset(m.labels[r.label.0 as int], r.pos, base))[at - r.pos]
            } else {
                m.bytes[at]
            })
        }),
    decreases count,
{
    if count > 0 {
        lemma_filled(m, base, count - 1, j, at);
        let r = m.relocations[count - 1];
        let before = resolved(m.bytes, m.relocations, m.labels, base, count - 1);
        if count - 1 == j {
            references_hold_the_distance(
                r,
                crate::bytes::from_le32(before.skip(r.pos as int)) as u32,
                label_offset(m.labels[r.label.0 as int], r.pos, base),
            );
        }
    }
}

/// The bytes of a piece of code at `here` with its one reference filled in: the distance to `there`
/// from `behind` bytes behind the start of the reference, in 32 bits, the lowest byte first.
pub open spec fn filled_in(code: Code, here: int, there: int, behind: int) -> Seq<u8> {
    let at = code.relocations[0].pos as int;
    let d = le32(((there - here - at - behind) % 0x1_0000_0000) as u32);
    Seq::new(
        code.bytes.len(),
        |i: int|
            if at <= i < at + 4 {
                d[i - at]
            } else {
                code.bytes[i]
            },
    )
}

/// In built code an operation with a whole reference holds the distance to the operation that its
/// label was placed at, and is otherwise as it was emitted.
pub proof fn references_lead_to_their_labels<T: Target>(p: &SinglePass<T>, n: int, t: int)
    requires
        p.buildable(),
        0 <= n < p.ir@.len(),
        0 <= t < p.ir@.len(),
        T::code(p.ir@[n]).relocations.len() == 1,
        ({
            let r = T::code(p.ir@[n]).relocations[0];
            &&& r.bits == 32 && r.shift == 0 && r.shr == 0
            &&& r.label.0 < p.label_offsets@.len()
            &&& p.label_offsets@[r.label.0 as int] == t
        }),
    ensures
        ({
            let finished = p.laid_out(p.ir@.len() as int).finished(T::relocation_base());
            let code = T::code(p.ir@[n]);
            let start = p.start_of(n);
            &&& start + code.bytes.len() <= finished.len()
            &&& finished.subrange(start, start + code.bytes.len()) == filled_in(
                code,
                start,
                p.start_of(t),
                T::relocation_base(),
            )
        }),
{
    let total: int = p.ir@.len() as int;
    let m = p.laid_out(total);
    let base: int = T::relocation_base();
    let finished = m.finished(base);
    let before = p.laid_out(n);
    let after = p.laid_out(n + 1);
    let code = T::code(p.ir@[n]);
    let own = code.relocations[0];
    let start: int = p.start_of(n);
    let end: int = before.bytes.len() as int;
    let j: int = before.relocations.len() as int;
    lemma_laid_out(p, n);
    lemma_laid_out(p, n + 1);
    lemma_laid_out(p, total);
    lemma_step(p, n);
    lemma_stays(p, n + 1, total);
    lemma_label_place(p, t, own.label.0 as int);
    lemma_length(m, base, m.relocations.len() as int);
    assert(m.relocations[j] == after.relocations[j]);
    assert(after.relocations[j].pos == own.pos + start);
    assert(own.pos + 4 <= code.bytes.len());
    assert forall|i: int| 0 <= i < m.relocations.len() && i != j implies (
    #[trigger] m.relocations[i]).pos + 4 <= end || start + code.bytes.len() <= m.relocations[i].pos by {
        if i < j {
            assert(m.relocations[i] == after.relocations[i]);
            assert(after.relocations[i] == before.relocations[i]);
            assert(before.relocations[i].pos + 4 <= end);
        }
    }
    let want = filled_in(code, start, p.start_of(t), base);
    let got = finished.subrange(start, start + code.bytes.len());
    assert forall|i: int| 0 <= i < code.bytes.len() implies #[trigger] got[i] == want[i] by {
        let at: int = start + i;
        assert(m.bytes[at] == after.bytes[at]);
        if own.pos <= i < own.pos + 4 {
            lemma_filled(m, base, m.relocations.len() as int, j, at);
        } else {
            lemma_untouched(m, base, m.relocations.len() as int, at);
        }
    }
    assert(got =~= want);
}

/// In code for x86-64 a reference counts from its end, which is where the next instruction starts.
pub proof fn x86_references_count_from_their_end(p: &SinglePass<X86>, n: int, t: int)
    requires
        p.buildable(),
        0 <= n < p.ir@.len(),
        0 <= t < p.ir@.len(),
        X86::code(p.ir@[n]).relocations.len() == 1,
        ({
            let r = X86::code(p.ir@[n]).relocations[0];
            &&& r.bits == 32 && r.shift == 0 && r.shr == 0
            &&& r.label.0 < p.label_offsets@.len()
            &&& p.label_offsets@[r.label.0 as int] == t
        }),
    ensures
        ({
            let finished = p.laid_out(p.ir@.len() as int).finished(X86::relocation_base());
            let code = X86::code(p.ir@[n]);
            let start = p.start_of(n);
            finished.subrange(start, start + code.bytes.len()) == filled_in(
                code,
                start,
                p.start_of(t),
                4,
            )
        }),
{
    references_lead_to_their_labels(p, n, t);
}

} // verus!
