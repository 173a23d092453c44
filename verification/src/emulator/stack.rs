//! The stack of the processor.
use vstd::prelude::*;

use crate::bytes::{le16, le32};
use crate::emulator::state::State;
use crate::mem::{
    other_words_stay, read16, read32, written, written_words_read_back, Memory,
};
use crate::system::Db;

verus! {

/// Pushes and pops that take effect on the stack pointer at their end.
#[derive(Copy, Clone, Debug, PartialEq, Eq, Structural)]
pub struct StackTransaction {
    /// The part of the stack pointer that counts.
    pub mask: u32,
    pub esp: u32,
    pub ss_base: u32,
    pub op_size: Db,
    pub is_userspace: bool,
}

pub open spec fn address_mask(size: Db) -> u32 {
    match size {
        Db::Protected16 => 0xffff,
        Db::Protected32 => 0xffff_ffff,
    }
}

impl StackTransaction {
    pub open spec fn begin(ss_size: Db, op_size: Db, cpu: State) -> StackTransaction {
        StackTransaction {
            mask: address_mask(ss_size),
            esp: cpu.sp,
            ss_base: cpu.ss.base,
            op_size,
            is_userspace: cpu.userspace(),
        }
    }

    /// The address of the top of the stack.
    pub open spec fn top(self) -> int {
        self.ss_base + (self.esp & self.mask)
    }

    /// The transaction with a stack pointer of which only the part in the mask is new.
    #[verifier::opaque]
    pub open spec fn moved(self, sp: u32) -> StackTransaction {
        StackTransaction { esp: (self.esp & !self.mask) | (sp & self.mask), ..self }
    }

    pub open spec fn after_pop(self) -> StackTransaction {
        self.moved(((self.esp + self.op_size.bytes()) % 0x1_0000_0000) as u32)
    }

    pub open spec fn after_push(self) -> StackTransaction {
        self.moved(((self.esp - self.op_size.bytes()) % 0x1_0000_0000) as u32)
    }

    /// The value on top of the stack.
    pub open spec fn top_value(self, mem: Seq<u8>) -> Option<u32> {
        match self.op_size {
            Db::Protected16 => match read16(mem, self.top()) {
                Some(v) => Some(v as u32),
                None => None,
            },
            Db::Protected32 => read32(mem, self.top()),
        }
    }

    /// The memory after a push.
    #[verifier::opaque]
    pub open spec fn pushed(self, mem: Seq<u8>, val: u32) -> Option<Seq<u8>> {
        match self.op_size {
            Db::Protected16 => written(mem, self.after_push().top(), le16((val % 0x1_0000) as u16)),
            Db::Protected32 => written(mem, self.after_push().top(), le32(val)),
        }
    }

    /// The memory after some pushes.
    pub open spec fn pushed_all(self, mem: Seq<u8>, vals: Seq<u32>) -> Option<Seq<u8>>
        decreases vals.len(),
    {
        if vals.len() == 0 {
            Some(mem)
        } else {
            match self.pushed(mem, vals[0]) {
                Some(next) => self.after_push().pushed_all(next, vals.skip(1)),
                None => None,
            }
        }
    }

    pub open spec fn after_pushes(self, n: nat) -> StackTransaction
        decreases n,
    {
        if n == 0 {
            self
        } else {
            self.after_push().after_pushes((n - 1) as nat)
        }
    }

    pub open spec fn after_pops(self, n: nat) -> StackTransaction
        decreases n,
    {
        if n == 0 {
            self
        } else {
            self.after_pops((n - 1) as nat).after_pop()
        }
    }

    /// The values that `n` pops give, the first one first.
    pub open spec fn popped(self, mem: Seq<u8>, n: nat) -> Option<Seq<u32>>
        decreases n,
    {
        if n == 0 {
            Some(Seq::empty())
        } else {
            match self.popped(mem, (n - 1) as nat) {
                Some(before) => match self.after_pops((n - 1) as nat).top_value(mem) {
                    Some(v) => Some(before.push(v)),
                    None => None,
                },
                None => None,
            }
        }
    }

    /// Starts at the current top of the stack.
    pub fn new(ss_size: Db, op_size: Db, cpu: &State) -> (r: StackTransaction)
        ensures
            r == Self::begin(ss_size, op_size, *cpu),
    {
        let mask: u32 = match ss_size {
            Db::Protected16 => 0xffff,
            Db::Protected32 => 0xffff_ffff,
        };
        StackTransaction {
            mask,
            esp: cpu.sp,
            ss_base: cpu.ss.base,
            op_size,
            is_userspace: cpu.is_userspace(),
        }
    }

    /// Takes the value on top of the stack. There is none where no memory is.
    pub fn pop(&mut self, mem: &Memory) -> (r: Option<u32>)
        ensures
            r == old(self).top_value(mem@),
            *final(self) == if r is Some {
                old(self).after_pop()
            } else {
                *old(self)
            },
    {
        proof {
            reveal(StackTransaction::moved);
        }
        let sp: u32 = self.esp;
        let top: u64 = self.ss_base as u64 + (sp & self.mask) as u64;
        let val: u32 = match self.op_size {
            Db::Protected16 => match mem.get16(top) {
                Some(v) => v as u32,
                None => {
                    return None;
                },
            },
            Db::Protected32 => match mem.get32(top) {
                Some(v) => v,
                None => {
                    return None;
                },
            },
        };
        let new_sp: u32 = sp.wrapping_add(self.op_size.num_bytes());
        self.esp = (sp & !self.mask) | (new_sp & self.mask);
        Some(val)
    }

    /// Puts a value on top of the stack. Says whether there is memory for it.
    pub fn push(&mut self, mem: &mut Memory, val: u32) -> (r: bool)
        ensures
            *final(self) == old(self).after_push(),
            match old(self).pushed(old(mem)@, val) {
                Some(next) => r && final(mem)@ == next,
                None => !r && final(mem)@ == old(mem)@,
            },
    {
        proof {
            reveal(StackTransaction::moved);
            reveal(StackTransaction::pushed);
        }
        let sp: u32 = self.esp;
        let new_sp: u32 = sp.wrapping_sub(self.op_size.num_bytes());
        self.esp = (sp & !self.mask) | (new_sp & self.mask);
        let top: u64 = self.ss_base as u64 + (self.esp & self.mask) as u64;
        match self.op_size {
            Db::Protected16 => mem.put16(top, (val % 0x1_0000) as u16),
            Db::Protected32 => mem.put32(top, val),
        }
    }

    /// Puts several values on top of the stack.
    pub fn push_all(&mut self, mem: &mut Memory, vals: &Vec<u32>) -> (r: bool)
        ensures
            match old(self).pushed_all(old(mem)@, vals@) {
                Some(next) => r && final(mem)@ == next && *final(self) == old(self).after_pushes(
                    vals@.len(),
                ),
                None => !r,
            },
    {
        let ghost start = *self;
        let ghost before = mem@;
        let mut i: usize = 0;
        assert(vals@.skip(0) =~= vals@);
        while i < vals.len()
            invariant
                start == *old(self),
                before == old(mem)@,
                i <= vals.len(),
                start.pushed_all(before, vals@) == self.pushed_all(mem@, vals@.skip(i as int)),
                start.after_pushes(vals@.len()) == self.after_pushes((vals@.len() - i) as nat),
            decreases vals.len() - i,
        {
            assert(vals@.skip(i as int)[0] == vals@[i as int]);
            assert(vals@.skip(i as int).skip(1) =~= vals@.skip(i + 1));
            if !self.push(mem, vals[i]) {
                return false;
            }
            i += 1;
        }
        true
    }

    /// Makes the new stack pointer that of the processor.
    pub fn commit(self, cpu: &mut State)
        ensures
            *final(cpu) == (State { sp: self.esp, ..*old(cpu) }),
    {
        cpu.sp = self.esp;
    }

    /// The masks that exist.
    pub open spec fn wf(self) -> bool {
        self.mask == 0xffff || self.mask == 0xffff_ffff
    }
}

/// A pop gives back what was pushed, and the stack pointer is where it was.
pub proof fn pop_undoes_push(t: StackTransaction, mem: Seq<u8>, val: u32)
    requires
        t.wf(),
        t.pushed(mem, val) is Some,
    ensures
        t.after_push().after_pop() == t,
        t.after_push().top_value(t.pushed(mem, val)->Some_0) == Some(stored(t.op_size, val)),
{
    reveal(StackTransaction::pushed);
    assert(t.after_push().op_size == t.op_size) by {
        reveal(StackTransaction::moved);
    }
    written_words_read_back(mem, t.after_push().top(), (val % 0x1_0000) as u16, val);
    lemma_pointer_returns(t);
}

proof fn lemma_pointer_returns(t: StackTransaction)
    requires
        t.wf(),
    ensures
        t.after_push().after_pop() == t,
{
    reveal(StackTransaction::moved);
    let n: u32 = t.op_size.bytes();
    let esp = t.esp;
    let mask = t.mask;
    let down = ((esp - n) % 0x1_0000_0000) as u32;
    let mid = (esp & !mask) | (down & mask);
    let up = ((mid + n) % 0x1_0000_0000) as u32;
    assert((mid & !mask) | (up & mask) == esp) by (bit_vector)
        requires
            mask == 0xffff || mask == 0xffff_ffff,
            n == 2 || n == 4,
            down as u64 + n as u64 == esp as u64 || down as u64 + n as u64 == esp as u64 + 0x1_0000_0000u64,
            mid == (esp & !mask) | (down & mask),
            up as u64 == mid as u64 + n as u64 || up as u64 + 0x1_0000_0000u64 == mid as u64 + n as u64,
    ;
}

/// The offset of the top of the stack.
pub open spec fn low(t: StackTransaction) -> int {
    (t.esp & t.mask) as int
}

/// The number of offsets of the stack.
pub open spec fn span(t: StackTransaction) -> int {
    t.mask + 1
}

/// A value as far as it is stored.
pub open spec fn stored(op_size: Db, val: u32) -> u32 {
    match op_size {
        Db::Protected16 => (val % 0x1_0000) as u32,
        Db::Protected32 => val,
    }
}

proof fn lemma_low(t: StackTransaction)
    requires
        t.wf(),
    ensures
        low(t) == t.esp as int % span(t),
        0 <= low(t) < span(t),
        t.after_push().wf(),
        t.after_push().mask == t.mask,
        t.after_push().ss_base == t.ss_base,
        t.after_push().op_size == t.op_size,
        t.after_push().is_userspace == t.is_userspace,
        low(t.after_push()) == (low(t) - t.op_size.bytes()) % span(t),
{
    reveal(StackTransaction::moved);
    let esp = t.esp;
    let mask = t.mask;
    let n = t.op_size.bytes();
    let down = ((esp - n) % 0x1_0000_0000) as u32;
    let next = (esp & !mask) | (down & mask);
    assert(next & mask == down & mask) by (bit_vector)
        requires
            next == (esp & !mask) | (down & mask),
    ;
    if mask == 0xffff {
        assert(esp & mask == esp % 0x1_0000 && down & mask == down % 0x1_0000) by (bit_vector)
            requires
                mask == 0xffff,
        ;
    } else {
        assert(esp & mask == esp && down & mask == down) by (bit_vector)
            requires
                mask == 0xffff_ffff,
        ;
    }
}

proof fn lemma_slots(a: int, d: int, n: int, span: int)
    requires
        span == 0x1_0000 || span == 0x1_0000_0000,
        0 <= a < span,
        n == 2 || n == 4,
        0 <= d,
        d + 2 * n <= span,
    ensures
        0 <= (a - n) % span < span,
        ((a - n) % span + (d + n)) % span == (a + d) % span,
        (a + d) % span + n <= (a - n) % span || (a - n) % span + n <= (a + d) % span,
{
    if span == 0x1_0000 {
        assert(0 <= (a - n) % 0x1_0000 < 0x1_0000);
        assert(((a - n) % 0x1_0000 + (d + n)) % 0x1_0000 == (a + d) % 0x1_0000);
    } else {
        assert(0 <= (a - n) % 0x1_0000_0000 < 0x1_0000_0000);
        assert(((a - n) % 0x1_0000_0000 + (d + n)) % 0x1_0000_0000 == (a + d) % 0x1_0000_0000);
    }
}

/// Pushes leave a slot above them alone.
proof fn lemma_slot_stays(t: StackTransaction, mem: Seq<u8>, vals: Seq<u32>, at: int, d: int)
    requires
        t.wf(),
        t.pushed_all(mem, vals) is Some,
        0 <= d,
        d + (vals.len() + 1) * t.op_size.bytes() <= span(t),
        at == t.ss_base + (low(t) + d) % span(t),
    ensures
        t.op_size == Db::Protected16 ==> read16(t.pushed_all(mem, vals)->Some_0, at) == read16(
            mem,
            at,
        ),
        t.op_size == Db::Protected32 ==> read32(t.pushed_all(mem, vals)->Some_0, at) == read32(
            mem,
            at,
        ),
    decreases vals.len(),
{
    if vals.len() > 0 {
        lemma_low(t);
        let n = t.op_size.bytes() as int;
        let next = t.after_push();
        let m = t.pushed(mem, vals[0])->Some_0;
        let span = span(t);
        let len = vals.len() as int;
        assert((len - 1 + 1) * n + n <= (len + 1) * n) by (nonlinear_arith);
        assert(len * n >= n) by (nonlinear_arith)
            requires
                len >= 1,
                n >= 0,
        ;
        assert((len + 1) * n == len * n + n) by (nonlinear_arith);
        assert(0 <= low(t) < span);
        lemma_slots(low(t), d, n, span);
        let slot = (low(t) + d) % span;
        let top = low(next);
        assert(slot + n <= top || top + n <= slot);
        reveal(StackTransaction::pushed);
        match t.op_size {
            Db::Protected16 => {
                other_words_stay(mem, next.top(), le16((vals[0] % 0x1_0000) as u16), at);
            },
            Db::Protected32 => {
                other_words_stay(mem, next.top(), le32(vals[0]), at);
            },
        }
        assert(vals.skip(1).len() == len - 1);
        lemma_slot_stays(next, m, vals.skip(1), at, d + n);
    }
}

pub proof fn lemma_after_pushes(t: StackTransaction, n: nat)
    requires
        t.wf(),
    ensures
        t.after_pushes(n).wf(),
        t.after_pushes(n).op_size == t.op_size,
        t.after_pushes(n).mask == t.mask,
        t.after_pushes(n).ss_base == t.ss_base,
        t.after_pushes(n).is_userspace == t.is_userspace,
        n > 0 ==> t.after_pushes(n) == t.after_pushes((n - 1) as nat).after_push(),
        n > 0 ==> t.after_pushes(n).after_pop() == t.after_pushes((n - 1) as nat),
    decreases n,
{
    lemma_low(t);
    if n > 0 {
        lemma_after_pushes(t.after_push(), (n - 1) as nat);
        if n == 1 {
            lemma_pointer_returns(t);
        }
    }
}

/// What lies on the stack after some pushes.
proof fn lemma_pushed_value(t: StackTransaction, mem: Seq<u8>, vals: Seq<u32>, i: int)
    requires
        t.wf(),
        t.pushed_all(mem, vals) is Some,
        vals.len() * t.op_size.bytes() <= span(t),
        0 <= i < vals.len(),
    ensures
        t.after_pushes((i + 1) as nat).top_value(t.pushed_all(mem, vals)->Some_0) == Some(
            stored(t.op_size, vals[i]),
        ),
    decreases vals.len(),
{
    let next = t.after_push();
    let m = t.pushed(mem, vals[0])->Some_0;
    let rest = vals.skip(1);
    let n = t.op_size.bytes() as int;
    let len = vals.len() as int;
    lemma_low(t);
    assert((len - 1 + 1) * n == len * n);
    assert((len - 1) * n <= len * n) by (nonlinear_arith)
        requires
            n >= 0,
    ;
    if i == 0 {
        pop_undoes_push(t, mem, vals[0]);
        lemma_low(next);
        vstd::arithmetic::div_mod::lemma_small_mod(low(next) as nat, span(t) as nat);
        lemma_slot_stays(next, m, rest, next.top(), 0);
        assert(t.after_pushes(1) == next) by {
            assert(next.after_pushes(0) == next);
        }
    } else {
        assert(rest[i - 1] == vals[i]);
        lemma_pushed_value(next, m, rest, i - 1);
        assert(t.after_pushes((i + 1) as nat) == next.after_pushes(i as nat));
    }
}

/// Pops give back what was pushed, the last value first, and the stack pointer is where it was.
pub proof fn pops_undo_pushes(t: StackTransaction, mem: Seq<u8>, vals: Seq<u32>, n: nat)
    requires
        t.wf(),
        t.pushed_all(mem, vals) is Some,
        vals.len() * t.op_size.bytes() <= span(t),
        n <= vals.len(),
    ensures
        t.after_pushes(vals.len()).after_pops(n) == t.after_pushes((vals.len() - n) as nat),
        t.after_pushes(vals.len()).popped(t.pushed_all(mem, vals)->Some_0, n) == Some(
            Seq::new(n, |k: int| stored(t.op_size, vals[vals.len() - 1 - k])),
        ),
    decreases n,
{
    let end = t.after_pushes(vals.len());
    let m = t.pushed_all(mem, vals)->Some_0;
    if n > 0 {
        pops_undo_pushes(t, mem, vals, (n - 1) as nat);
        let left = (vals.len() - (n - 1)) as nat;
        lemma_after_pushes(t, left);
        lemma_pushed_value(t, mem, vals, left - 1);
        let before = Seq::new(
            (n - 1) as nat,
            |k: int| stored(t.op_size, vals[vals.len() - 1 - k]),
        );
        assert(before.push(stored(t.op_size, vals[left - 1])) =~= Seq::new(
            n,
            |k: int| stored(t.op_size, vals[vals.len() - 1 - k]),
        ));
    } else {
        assert(Seq::new(0, |k: int| stored(t.op_size, vals[vals.len() - 1 - k])) =~= Seq::empty());
    }
}

/// A push puts a value right below the top of the stack, its lowest byte first, and moves the stack
/// pointer down by the size of the value: two bytes or four. All other bytes stay.
pub proof fn pushes_go_below_the_stack(t: StackTransaction, mem: Seq<u8>, val: u32, i: int)
    requires
        t.wf(),
        0 <= i < mem.len(),
        ({
            let n = if t.op_size == Db::Protected16 {
                2int
            } else {
                4
            };
            let offset = t.esp as int % (t.mask + 1);
            n <= offset && t.ss_base + offset <= mem.len()
        }),
    ensures
        ({
            let n = if t.op_size == Db::Protected16 {
                2int
            } else {
                4
            };
            let offset = t.esp as int % (t.mask + 1);
            let at = t.ss_base + offset - n;
            &&& t.pushed(mem, val) is Some
            &&& t.pushed(mem, val)->Some_0.len() == mem.len()
            &&& t.pushed(mem, val)->Some_0[i] == (if i == at {
                (val % 0x100) as u8
            } else if i == at + 1 {
                (val / 0x100 % 0x100) as u8
            } else if n == 4 && i == at + 2 {
                (val / 0x1_0000 % 0x100) as u8
            } else if n == 4 && i == at + 3 {
                (val / 0x100_0000) as u8
            } else {
                mem[i]
            })
            &&& t.after_push().esp as int % (t.mask + 1) == offset - n
            &&& t.after_push() == (StackTransaction { esp: t.after_push().esp, ..t })
            &&& t.after_push().wf()
        }),
{
    lemma_low(t);
    lemma_low(t.after_push());
    reveal(StackTransaction::pushed);
    let n: int = t.op_size.bytes() as int;
    let offset: int = t.esp as int % (t.mask + 1);
    if t.mask == 0xffff {
        assert((offset - n) % 0x1_0000 == offset - n);
    } else {
        assert((offset - n) % 0x1_0000_0000 == offset - n);
    }
    assert(t.after_push().top() == t.ss_base + offset - n);
}

/// Three words that are pushed stand one below the other, the first one on top, and all other bytes
/// stay.
pub proof fn three_words_go_below_the_stack(
    t: StackTransaction,
    mem: Seq<u8>,
    vals: Seq<u32>,
    i: int,
)
    requires
        t.op_size == Db::Protected16,
        t.mask == 0xffff,
        6 <= t.esp <= 0xffff,
        t.ss_base + t.esp <= mem.len(),
        vals.len() == 3,
        0 <= i < mem.len(),
    ensures
        ({
            let top = t.ss_base + t.esp;
            let after = t.pushed_all(mem, vals);
            &&& after is Some
            &&& after->Some_0.len() == mem.len()
            &&& after->Some_0[i] == (if i == top - 1 {
                (vals[0] / 0x100 % 0x100) as u8
            } else if i == top - 2 {
                (vals[0] % 0x100) as u8
            } else if i == top - 3 {
                (vals[1] / 0x100 % 0x100) as u8
            } else if i == top - 4 {
                (vals[1] % 0x100) as u8
            } else if i == top - 5 {
                (vals[2] / 0x100 % 0x100) as u8
            } else if i == top - 6 {
                (vals[2] % 0x100) as u8
            } else {
                mem[i]
            })
            &&& t.after_pushes(3).esp == t.esp - 6
        }),
{
    pushes_go_below_the_stack(t, mem, vals[0], i);
    let m1 = t.pushed(mem, vals[0])->Some_0;
    let t1 = t.after_push();
    lemma_upper_half(t);
    pushes_go_below_the_stack(t1, m1, vals[1], i);
    let m2 = t1.pushed(m1, vals[1])->Some_0;
    let t2 = t1.after_push();
    lemma_upper_half(t1);
    pushes_go_below_the_stack(t2, m2, vals[2], i);
    let m3 = t2.pushed(m2, vals[2])->Some_0;
    let t3 = t2.after_push();
    lemma_upper_half(t2);
    let (r1, r2, r3) = (vals.skip(1), vals.skip(1).skip(1), vals.skip(1).skip(1).skip(1));
    assert(r1[0] == vals[1] && r2[0] == vals[2] && r3.len() == 0);
    assert(t3.pushed_all(m3, r3) == Some(m3));
    assert(t2.pushed_all(m2, r2) == Some(m3));
    assert(t1.pushed_all(m1, r1) == Some(m3));
    assert(t.pushed_all(mem, vals) == Some(m3));
    assert(t3.after_pushes(0) == t3);
    assert(t2.after_pushes(1) == t3);
    assert(t1.after_pushes(2) == t3);
    assert(t.after_pushes(3) == t3);
}

/// A push keeps the upper half of a stack pointer of sixteen bits clear.
proof fn lemma_upper_half(t: StackTransaction)
    requires
        t.mask == 0xffff,
        t.esp <= 0xffff,
    ensures
        t.after_push().esp <= 0xffff,
        t.after_push().mask == 0xffff,
{
    reveal(StackTransaction::moved);
    let (esp, mask): (u32, u32) = (t.esp, t.mask);
    let down: u32 = ((esp - t.op_size.bytes()) % 0x1_0000_0000) as u32;
    assert((esp & !mask) | (down & mask) <= 0xffff) by (bit_vector)
        requires
            mask == 0xffff,
            esp <= 0xffff,
    ;
}

} // verus!
