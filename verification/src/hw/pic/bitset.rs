//! A set of up to 256 interrupt numbers.
use vstd::prelude::*;

verus! {

#[derive(Copy, Clone, Debug)]
pub struct Bitset {
    values: [u32; 8],
}

/// The plain contents of a [`Bitset`], 32 numbers per word.
#[derive(Copy, Clone, Debug)]
pub struct BitsetSnapshot {
    pub values: [u32; 8],
}

/// Whether bit `n` of `word` is set.
pub open spec fn word_has(word: u32, n: int) -> bool {
    word & (1u32 << (n as u32)) != 0
}

/// The set of numbers in eight words, as one truth value per number.
pub open spec fn members(words: Seq<u32>) -> Seq<bool> {
    Seq::new(256, |i: int| word_has(words[i / 32], i % 32))
}

/// The highest number below `n` that is in the set, or -1.
pub open spec fn highest_below(set: Seq<bool>, n: int) -> int
    decreases n,
{
    if n <= 0 {
        -1
    } else if set[n - 1] {
        n - 1
    } else {
        highest_below(set, n - 1)
    }
}

/// The highest number in the set, if it holds any.
pub open spec fn highest(set: Seq<bool>) -> Option<u8> {
    let n = highest_below(set, set.len() as int);
    if n < 0 {
        None
    } else {
        Some(n as u8)
    }
}

pub open spec fn empty_set() -> Seq<bool> {
    Seq::new(256, |i: int| false)
}

proof fn lemma_set_bit(word: u32, a: u32, b: u32)
    requires
        a < 32,
        b < 32,
    ensures
        (word | (1u32 << a)) & (1u32 << b) != 0 <==> (a == b || word & (1u32 << b) != 0),
        (word & !(1u32 << a)) & (1u32 << b) != 0 <==> (a != b && word & (1u32 << b) != 0),
{
    assert(a < 32 && b < 32 ==> ((word | (1u32 << a)) & (1u32 << b) != 0 <==> (a == b || word & (
    1u32 << b) != 0))) by (bit_vector);
    assert(a < 32 && b < 32 ==> ((word & !(1u32 << a)) & (1u32 << b) != 0 <==> (a != b && word & (
    1u32 << b) != 0))) by (bit_vector);
}

proof fn lemma_zero_word(n: u32)
    ensures
        0u32 & (1u32 << n) == 0,
{
    assert(0u32 & (1u32 << n) == 0) by (bit_vector);
}

/// The highest number in a set is in it, and nothing above it is.
pub proof fn highest_is_last(set: Seq<bool>, n: int)
    requires
        0 <= n <= set.len(),
    ensures
        -1 <= highest_below(set, n) < n,
        highest_below(set, n) >= 0 ==> set[highest_below(set, n)],
        forall|i: int| highest_below(set, n) < i < n ==> !#[trigger] set[i],
    decreases n,
{
    if n > 0 {
        highest_is_last(set, n - 1);
    }
}

impl View for Bitset {
    type V = Seq<bool>;

    closed spec fn view(&self) -> Seq<bool> {
        members(self.values@)
    }
}

impl Bitset {
    pub proof fn lemma_len(&self)
        ensures
            self@.len() == 256,
    {
    }

    pub fn new() -> (r: Self)
        ensures
            r@ == empty_set(),
    {
        let r = Self { values: [0, 0, 0, 0, 0, 0, 0, 0] };
        proof {
            assert forall|i: int| 0 <= i < 256 implies r@[i] == false by {
                lemma_zero_word((i % 32) as u32);
            }
            assert(r@ =~= empty_set());
        }
        r
    }

    /// Returns true if the bit is set.
    pub fn get(&self, index: usize) -> (r: bool)
        requires
            index < 256,
        ensures
            r == self@[index as int],
    {
        let bit: u32 = 1u32 << ((index % 32) as u32);
        self.values[index / 32] & bit != 0
    }

    /// Returns true if the value changed.
    pub fn set(&mut self, index: usize) -> (r: bool)
        requires
            index < 256,
        ensures
            r == !old(self)@[index as int],
            final(self)@ == old(self)@.update(index as int, true),
    {
        let bit: u32 = 1u32 << ((index % 32) as u32);
        let word: u32 = self.values[index / 32];
        self.values[index / 32] = word | bit;
        proof {
            assert forall|i: int| 0 <= i < 256 implies self@[i] == old(self)@.update(
                index as int,
                true,
            )[i] by {
                lemma_set_bit(word, (index % 32) as u32, (i % 32) as u32);
            }
            assert(self@ =~= old(self)@.update(index as int, true));
        }
        word & bit == 0
    }

    /// Returns true if the value changed.
    pub fn reset(&mut self, index: usize) -> (r: bool)
        requires
            index < 256,
        ensures
            r == old(self)@[index as int],
            final(self)@ == old(self)@.update(index as int, false),
    {
        let bit: u32 = 1u32 << ((index % 32) as u32);
        let word: u32 = self.values[index / 32];
        self.values[index / 32] = word & !bit;
        proof {
            assert forall|i: int| 0 <= i < 256 implies self@[i] == old(self)@.update(
                index as int,
                false,
            )[i] by {
                lemma_set_bit(word, (index % 32) as u32, (i % 32) as u32);
            }
            assert(self@ =~= old(self)@.update(index as int, false));
        }
        word & bit != 0
    }

    pub fn highest_index_set(&self) -> (r: Option<u8>)
        ensures
            r == highest(self@),
    {
        let mut n: usize = 256;
        while n > 0
            invariant
                n <= 256,
                self@.len() == 256,
                highest_below(self@, 256) == highest_below(self@, n as int),
            decreases n,
        {
            if self.get(n - 1) {
                return Some((n - 1) as u8);
            }
            n = n - 1;
        }
        None
    }

    pub fn snapshot(&self) -> (r: BitsetSnapshot)
        ensures
            members(r.values@) == self@,
    {
        BitsetSnapshot { values: self.values }
    }

    pub fn restore(&mut self, snapshot: BitsetSnapshot)
        ensures
            final(self)@ == members(snapshot.values@),
    {
        self.values = snapshot.values;
    }
}

} // verus!
