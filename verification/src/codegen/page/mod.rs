//! Code for whole pages.
use vstd::prelude::*;

use arrayvec::ArrayVec;
use itertools::Itertools;

use crate::system::{PartValues, SegmentSizes};

pub mod blocks;
pub mod edges;
pub mod graph;
pub mod jit;
pub mod roots;

verus! {

/// An instruction of a page.
#[derive(Debug)]
pub struct PageInstr {
    pub is_entry: bool,
    pub offset: u16,
    pub encoding_index: u32,
    pub part_values: PartValues,
    pub instr_len: u8,
    pub protected_mode: bool,
    pub segment_sizes: SegmentSizes,
    /// Offsets within the page where the next instruction might be.
    ///
    /// These can be speculative: the offset is checked again before code jumps to it.
    pub next: ArrayVec<u16, 2>,
}

/// An instruction of a page with its place in the flow of control.
#[derive(Debug)]
pub struct PageInstrWithEdges {
    /// The instructions that lead here, each once.
    pub preds: Vec<usize>,
    /// The instructions that follow.
    pub succs: Vec<usize>,
    /// Whether a chain of instructions that comes here ends before this instruction.
    pub make_split_point: bool,
    /// The block that starts here.
    pub block_index: Option<usize>,
    pub may_jump_to_out_of_page_instr: bool,
    pub may_jump_to_unknown_offset: bool,
}

/// The number of an entry in the cache of decoded instructions.
#[derive(Copy, Clone, Debug, PartialEq, Eq, Structural)]
pub struct CacheEntryId(pub usize);

/// Code that runs instructions of a page, by its address.
#[derive(Copy, Clone, Debug, PartialEq, Eq, Structural)]
pub struct PageFunction {
    pub address: usize,
}

/// What code of a page returns: the number of the last instruction that it ran.
#[derive(Debug)]
pub struct PageExitToken(u64);

impl PageExitToken {
    pub closed spec fn value(&self) -> u64 {
        self.0
    }

    /// A token that is not checked against a page.
    pub fn new_unchecked(val: u64) -> (r: Self)
        ensures
            r.value() == val,
    {
        Self(val)
    }
}

/// Code for a page with the cache entries of the page's instructions.
#[derive(Debug)]
pub struct PageCode {
    ids: Vec<CacheEntryId>,
    function: PageFunction,
}

/// Whether a text stands before another in the order of their characters.
pub open spec fn precedes(a: Seq<char>, b: Seq<char>) -> bool
    decreases a.len(),
{
    if b.len() == 0 {
        false
    } else if a.len() == 0 {
        true
    } else if a[0] != b[0] {
        (a[0] as u32) < (b[0] as u32)
    } else {
        precedes(a.skip(1), b.skip(1))
    }
}

/// The places of the items of `sorted` in `list`: each once, ordered by name, and in their old order
/// where names are equal.
pub open spec fn is_sorting(
    list: Seq<(String, usize)>,
    sorted: Seq<(String, usize)>,
    places: Seq<int>,
) -> bool {
    &&& sorted.len() == list.len()
    &&& places.len() == list.len()
    &&& places.no_duplicates()
    &&& forall|i: int|
        #![trigger places[i]]
        0 <= i < places.len() ==> {
            &&& 0 <= places[i] < list.len()
            &&& sorted[i].0@ == list[places[i]].0@
            &&& sorted[i].1 == list[places[i]].1
        }
    &&& forall|i: int, j: int|
        #![trigger places[i], places[j]]
        0 <= i < j < places.len() ==> {
            &&& !precedes(sorted[j].0@, sorted[i].0@)
            &&& sorted[i].0@ == sorted[j].0@ ==> places[i] < places[j]
        }
}

/// Calls `itertools::Itertools::sorted_by_key` with the name as the key. The items come back in the
/// order of their names, and the sort is stable.
#[verifier::external_body]
fn sorted_by_name(functions: Vec<(String, usize)>) -> (r: Vec<(String, usize)>)
    ensures
        exists|places: Seq<int>| is_sorting(functions@, r@, places),
{
    functions.into_iter().sorted_by_key(|f| f.0.clone()).collect()
}

fn copied_ids(ids: &Vec<CacheEntryId>) -> (r: Vec<CacheEntryId>)
    ensures
        r@ == ids@,
{
    let mut r: Vec<CacheEntryId> = Vec::new();
    let mut i: usize = 0;
    while i < ids.len()
        invariant
            i <= ids.len(),
            r@ == ids@.take(i as int),
        decreases ids.len() - i,
    {
        r.push(ids[i]);
        assert(r@ =~= ids@.take(i + 1));
        i += 1;
    }
    assert(ids@.take(i as int) =~= ids@);
    r
}

impl PageCode {
    pub closed spec fn spec_ids(&self) -> Seq<CacheEntryId> {
        self.ids@
    }

    pub closed spec fn spec_function(&self) -> PageFunction {
        self.function
    }

    /// The code of a page whose instructions have the given entries: its functions by name, in the
    /// order of their names.
    pub fn from_result(functions: Vec<(String, usize)>, ids: &Vec<CacheEntryId>) -> (r: Vec<
        (String, PageCode),
    >)
        ensures
            exists|sorted: Seq<(String, usize)>, places: Seq<int>|
                {
                    &&& #[trigger] is_sorting(functions@, sorted, places)
                    &&& r.len() == sorted.len()
                    &&& forall|i: int|
                        0 <= i < r.len() ==> {
                            &&& (#[trigger] r[i]).0@ == sorted[i].0@
                            &&& r[i].1.spec_ids() == ids@
                            &&& r[i].1.spec_function().address == sorted[i].1
                        }
                },
    {
        let mut sorted = sorted_by_name(functions);
        let ghost all = sorted@;
        let mut back: Vec<(String, PageCode)> = Vec::new();
        while sorted.len() > 0
            invariant
                sorted@ == all.take(sorted.len() as int),
                sorted.len() + back.len() == all.len(),
                forall|i: int|
                    0 <= i < back.len() ==> {
                        &&& (#[trigger] back[i]).0@ == all[all.len() - 1 - i].0@
                        &&& back[i].1.spec_ids() == ids@
                        &&& back[i].1.spec_function().address == all[all.len() - 1 - i].1
                    },
            decreases sorted.len(),
        {
            let (name, address) = sorted.pop().unwrap();
            assert(sorted@ =~= all.take(sorted.len() as int));
            let code = PageCode { ids: copied_ids(ids), function: PageFunction { address } };
            back.push((name, code));
        }
        let ghost reversed = back@;
        let mut r: Vec<(String, PageCode)> = Vec::new();
        while back.len() > 0
            invariant
                back@ == reversed.take(back.len() as int),
                back.len() + r.len() == reversed.len(),
                forall|i: int|
                    0 <= i < r.len() ==> #[trigger] r[i] == reversed[reversed.len() - 1 - i],
            decreases back.len(),
        {
            let item = back.pop().unwrap();
            assert(back@ =~= reversed.take(back.len() as int));
            r.push(item);
        }
        r
    }

    pub fn function(&self) -> (r: PageFunction)
        ensures
            r == self.spec_function(),
    {
        self.function
    }

    /// The cache entry of the instruction that a token names.
    pub fn resolve_exit_token(&self, token: PageExitToken) -> (r: CacheEntryId)
        requires
            token.value() < self.spec_ids().len(),
        ensures
            r == self.spec_ids()[token.value() as int],
    {
        let count: usize = self.ids.len();
        assert(token.0 < count);
        self.ids[token.0 as usize]
    }

    pub fn ids(&self) -> (r: &Vec<CacheEntryId>)
        ensures
            r@ == self.spec_ids(),
    {
        &self.ids
    }
}

} // verus!
