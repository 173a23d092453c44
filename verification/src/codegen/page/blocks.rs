//! Blocks: chains of instructions of a page that run one after the other.
use vstd::prelude::*;
use vstd::set_lib::set_int_range;

use crate::codegen::page::edges::{
    find_edges, held_offsets, jump_target, lemma_located, lemma_place, located, page, place,
    place_from, position, target, targets, JumpInfo, NextIp, Page,
};
use crate::codegen::page::graph::{
    closed, components, cut_groups, entered, inside, is_components, is_edge, is_walk,
    lemma_cut_groups, lemma_loops_are_marked, lemma_reaches_edge, lemma_reaches_itself, lists,
    mark_group, ordered, reaches, settled, Graph,
};
use crate::codegen::page::{PageInstr, PageInstrWithEdges};

verus! {

/// A block that may come next, and its offset.
#[derive(Copy, Clone, Debug, PartialEq, Eq, Structural)]
pub struct NextInstr {
    pub offset: u16,
    pub block_index: usize,
}

/// What comes after a block.
#[derive(Debug)]
pub enum NextOnPage {
    /// One block in any case.
    Certain(NextInstr),
    /// What a condition decides.
    FromCondition { condition_nonzero: Option<NextInstr>, condition_zero: Option<NextInstr> },
    /// One of some blocks, or code that has no block.
    Speculative(Vec<NextInstr>),
}

/// A chain of instructions with one way in.
#[derive(Debug)]
pub struct Block {
    /// The number of its first instruction.
    pub id: u32,
    /// Whether the emulator enters here.
    pub export: bool,
    pub offset: u16,
    /// Whether the code looks for interrupts behind the block.
    pub check_intr: bool,
    /// The numbers of its instructions.
    pub instrs: Vec<usize>,
    pub next: NextOnPage,
}

/// A chain of instructions that never ends.
#[derive(Copy, Clone, Debug, PartialEq, Eq, Structural)]
pub struct EndlessChain;

/// What comes after a block.
#[verifier::ext_equal]
pub enum NextModel {
    Certain(NextInstr),
    FromCondition { condition_nonzero: Option<NextInstr>, condition_zero: Option<NextInstr> },
    Speculative(Seq<NextInstr>),
}

impl NextOnPage {
    pub open spec fn view(&self) -> NextModel {
        match *self {
            NextOnPage::Certain(n) => NextModel::Certain(n),
            NextOnPage::FromCondition {
                condition_nonzero,
                condition_zero,
            } => NextModel::FromCondition { condition_nonzero, condition_zero },
            NextOnPage::Speculative(list) => NextModel::Speculative(list@),
        }
    }

    /// Whether nothing on the page can come next.
    pub fn is_empty(&self) -> (r: bool)
        ensures
            r == (self@.blocks().len() == 0),
    {
        match self {
            NextOnPage::Certain(_) => false,
            NextOnPage::FromCondition { condition_nonzero, condition_zero } => {
                condition_nonzero.is_none() && condition_zero.is_none()
            },
            NextOnPage::Speculative(list) => list.len() == 0,
        }
    }
}

pub open spec fn one_block(next: Option<NextInstr>) -> Seq<usize> {
    match next {
        Some(n) => seq![n.block_index],
        None => Seq::empty(),
    }
}

impl NextModel {
    /// The blocks that can come next.
    pub open spec fn blocks(self) -> Seq<usize> {
        match self {
            NextModel::Certain(n) => seq![n.block_index],
            NextModel::FromCondition { condition_nonzero, condition_zero } => one_block(
                condition_nonzero,
            ) + one_block(condition_zero),
            NextModel::Speculative(list) => list.map_values(|n: NextInstr| n.block_index),
        }
    }
}

impl Page {
    /// The instruction that runs behind instruction `j` in the same chain.
    pub open spec fn follow(&self, j: int) -> Option<int> {
        if self.jumps[j].only_next() is Some && self.succs(j).len() == 1 && !self.split(
            self.succs(j)[0] as int,
        ) {
            Some(self.succs(j)[0] as int)
        } else {
            None
        }
    }

    /// The instruction of number `k` in the chain that starts with instruction `i`.
    pub open spec fn step(&self, i: int, k: nat) -> Option<int>
        decreases k,
    {
        if k == 0 {
            Some(i)
        } else {
            match self.step(i, (k - 1) as nat) {
                Some(j) => self.follow(j),
                None => None,
            }
        }
    }

    /// Whether a chain never ends.
    pub open spec fn endless(&self, i: int) -> bool {
        forall|k: nat| #[trigger] self.step(i, k) is Some
    }

    /// The chain that starts with instruction `i`.
    pub open spec fn is_chain(&self, i: int, chain: Seq<usize>) -> bool {
        &&& chain.len() > 0
        &&& forall|k: nat|
            k < chain.len() ==> #[trigger] self.step(i, k) == Some(chain[k as int] as int)
        &&& self.step(i, chain.len()) is None
    }

    /// The block that starts with an instruction.
    pub open spec fn block_at(&self, p: int) -> NextInstr {
        NextInstr {
            offset: self.instrs[p].offset,
            block_index: self.blocks_below(p) as usize,
        }
    }

    /// The block that instruction `j` jumps to.
    pub open spec fn block_of(&self, j: int, ip: NextIp) -> Option<NextInstr> {
        match target(self.instrs[j].offset, ip) {
            Some(t) => match place(self.instrs, t) {
                Some(p) => Some(self.block_at(p)),
                None => None,
            },
            None => None,
        }
    }

    /// What comes after a block that ends with instruction `j`.
    pub open spec fn next_of(&self, j: int) -> NextModel {
        let jump = self.jumps[j];
        if jump.invokes_handler {
            NextModel::Speculative(Seq::empty())
        } else if let Some(ip) = jump.only_next() {
            match self.block_of(j, ip) {
                Some(n) => NextModel::Certain(n),
                None => NextModel::Speculative(Seq::empty()),
            }
        } else if let Some((if_zero, if_nonzero)) = jump.branches() {
            let zero = self.block_of(j, if_zero);
            let nonzero = self.block_of(j, if_nonzero);
            if zero is Some || nonzero is Some {
                NextModel::FromCondition { condition_nonzero: nonzero, condition_zero: zero }
            } else {
                NextModel::Speculative(Seq::empty())
            }
        } else {
            NextModel::Speculative(self.found(j).map_values(|p: usize| self.block_at(p as int)))
        }
    }

    /// The block that starts with instruction `i`.
    pub open spec fn is_block(&self, i: int, b: Block) -> bool {
        &&& b.id == i as u32
        &&& b.export == self.instrs[i].is_entry
        &&& b.offset == self.instrs[i].offset
        &&& !b.check_intr
        &&& self.is_chain(i, b.instrs@)
        &&& b.next@ == self.next_of(b.instrs@.last() as int)
    }
}

/// The blocks that can come after each block.
pub open spec fn block_graph(blocks: Seq<Block>) -> Graph {
    Seq::new(blocks.len(), |i: int| blocks[i].next@.blocks())
}

/// The blocks that the emulator enters.
pub open spec fn exports(blocks: Seq<Block>) -> Seq<bool> {
    Seq::new(blocks.len(), |i: int| blocks[i].export)
}

/// The blocks that cut a loop: those that the emulator enters and that look for interrupts.
pub open spec fn cuts(blocks: Seq<Block>) -> Seq<bool> {
    Seq::new(blocks.len(), |i: int| blocks[i].export && blocks[i].check_intr)
}

/// Two blocks that differ in nothing but their flags.
pub open spec fn same_code(a: Block, b: Block) -> bool {
    &&& a.id == b.id
    &&& a.offset == b.offset
    &&& a.instrs@ == b.instrs@
    &&& a.next@ == b.next@
}

/// The blocks after their loops were cut, one group of connected blocks after the other.
pub open spec fn loops_broken(before: Seq<Block>, after: Seq<Block>) -> bool {
    &&& after.len() == before.len()
    &&& exists|groups: Seq<Seq<usize>>| #[trigger]
        is_components(block_graph(before), exports(before), groups) && forall|i: int|
            0 <= i < before.len() ==> {
                let cut = cut_groups(
                    block_graph(before),
                    exports(before),
                    cuts(before),
                    groups,
                    0,
                )[i];
                &&& same_code(#[trigger] after[i], before[i])
                &&& after[i].export == (before[i].export || cut)
                &&& after[i].check_intr == (before[i].check_intr || cut)
            }
}

proof fn lemma_targets(instrs: Seq<PageInstr>, offset: u16, ips: Seq<NextIp>)
    requires
        instrs.len() <= usize::MAX,
    ensures
        forall|k: int|
            0 <= k < ips.len() ==> match target(offset, #[trigger] ips[k]) {
                Some(t) => match place(instrs, t) {
                    Some(p) => located(instrs, targets(offset, ips)).contains(p as usize),
                    None => true,
                },
                None => true,
            },
        (forall|k: int|
            0 <= k < ips.len() ==> {
                let t = target(offset, #[trigger] ips[k]);
                t is Some && place(instrs, t->Some_0) is Some
            }) ==> located(instrs, targets(offset, ips)).len() == ips.len(),
    decreases ips.len(),
{
    if ips.len() > 0 {
        let before = ips.drop_last();
        lemma_targets(instrs, offset, before);
        let all = located(instrs, targets(offset, ips));
        let some = located(instrs, targets(offset, before));
        if target(offset, ips.last()) is Some {
            assert(targets(offset, ips).drop_last() =~= targets(offset, before));
        }
        assert forall|k: int| 0 <= k < ips.len() implies match target(offset, #[trigger] ips[k]) {
            Some(t) => match place(instrs, t) {
                Some(p) => all.contains(p as usize),
                None => true,
            },
            None => true,
        } by {
            if k < ips.len() - 1 {
                assert(before[k] == ips[k]);
                match target(offset, ips[k]) {
                    Some(t) => match place(instrs, t) {
                        Some(p) => {
                            let m = some.index_of(p as usize);
                            assert(all[m] == p as usize);
                        },
                        None => {},
                    },
                    None => {},
                }
            } else {
                match target(offset, ips[k]) {
                    Some(t) => match place(instrs, t) {
                        Some(p) => {
                            assert(all[all.len() - 1] == p as usize);
                        },
                        None => {},
                    },
                    None => {},
                }
            }
        }
        if forall|k: int|
            0 <= k < ips.len() ==> {
                let t = target(offset, #[trigger] ips[k]);
                t is Some && place(instrs, t->Some_0) is Some
            } {
            assert forall|k: int| 0 <= k < before.len() implies {
                let t = target(offset, #[trigger] before[k]);
                t is Some && place(instrs, t->Some_0) is Some
            } by {
                assert(before[k] == ips[k]);
            }
            assert(ips[ips.len() - 1] == ips.last());
        }
    }
}

/// The places of an instruction whose next places are known.
proof fn lemma_found(p: Page, j: int)
    requires
        p.wf(),
        0 <= j < p.instrs.len(),
    ensures
        forall|k: int| 0 <= k < p.found(j).len() ==> #[trigger] p.found(j)[k] < p.instrs.len(),
        p.stays(j) ==> p.found(j).len() == p.jumps[j].next_ips->Some_0@.len(),
        p.jumps[j].next_ips is Some ==> forall|k: int|
            0 <= k < p.jumps[j].next_ips->Some_0@.len() ==> match target(
                p.instrs[j].offset,
                #[trigger] p.jumps[j].next_ips->Some_0@[k],
            ) {
                Some(t) => match place(p.instrs, t) {
                    Some(q) => p.found(j).contains(q as usize),
                    None => true,
                },
                None => true,
            },
{
    lemma_located(p.instrs, p.next_offsets(j));
    match p.jumps[j].next_ips {
        Some(ips) => {
            let certain = targets(p.instrs[j].offset, ips@);
            lemma_targets(p.instrs, p.instrs[j].offset, ips@);
            if p.jumps[j].known() {
                assert(p.next_offsets(j) =~= certain);
            } else {
                let more = held_offsets(p.instrs[j].next).map_values(|o: u16| o as int);
                assert(p.next_offsets(j) =~= certain + more);
                lemma_located_more(p.instrs, certain, more);
                assert forall|k: int| 0 <= k < ips@.len() implies match target(
                    p.instrs[j].offset,
                    #[trigger] ips@[k],
                ) {
                    Some(t) => match place(p.instrs, t) {
                        Some(q) => p.found(j).contains(q as usize),
                        None => true,
                    },
                    None => true,
                } by {
                    match target(p.instrs[j].offset, ips@[k]) {
                        Some(t) => match place(p.instrs, t) {
                            Some(q) => {
                                let m = located(p.instrs, certain).index_of(q as usize);
                                assert(p.found(j)[m] == q as usize);
                            },
                            None => {},
                        },
                        None => {},
                    }
                }
            }
        },
        None => {},
    }
}

proof fn lemma_located_more(instrs: Seq<PageInstr>, a: Seq<int>, b: Seq<int>)
    ensures
        located(instrs, a).len() <= located(instrs, a + b).len(),
        forall|k: int|
            0 <= k < located(instrs, a).len() ==> located(instrs, a + b)[k] == #[trigger] located(
                instrs,
                a,
            )[k],
    decreases b.len(),
{
    if b.len() == 0 {
        assert(a + b =~= a);
    } else {
        assert((a + b).drop_last() =~= a + b.drop_last());
        lemma_located_more(instrs, a, b.drop_last());
    }
}

/// The place that a jump of the last instruction of a chain leads to starts a block.
proof fn lemma_jumps_start_blocks(p: Page, j: int)
    requires
        p.wf(),
        0 <= j < p.instrs.len(),
        p.follow(j) is None,
        !p.jumps[j].invokes_handler,
    ensures
        p.jumps[j].only_next() matches Some(ip) ==> match target(p.instrs[j].offset, ip) {
            Some(t) => match place(p.instrs, t) {
                Some(q) => p.starts(q),
                None => true,
            },
            None => true,
        },
        p.jumps[j].only_next() is None ==> forall|k: int|
            0 <= k < p.found(j).len() ==> #[trigger] p.starts(p.found(j)[k] as int),
        p.jumps[j].only_next() is None && p.jumps[j].next_ips is Some ==> forall|ip: NextIp|
            #![trigger target(p.instrs[j].offset, ip)]
            p.jumps[j].next_ips->Some_0@.contains(ip) ==> match target(p.instrs[j].offset, ip) {
                Some(t) => match place(p.instrs, t) {
                    Some(q) => p.starts(q),
                    None => true,
                },
                None => true,
            },
{
    lemma_found(p, j);
    if p.jumps[j].only_next() is Some {
        let ips = p.jumps[j].next_ips->Some_0@;
        let ip = ips[0];
        match target(p.instrs[j].offset, ip) {
            Some(t) => match place(p.instrs, t) {
                Some(q) => {
                    assert(p.stays(j));
                    assert(p.found(j).contains(q as usize));
                    lemma_place_below(p.instrs, t);
                    assert(p.found(j)[0] == q as usize);
                },
                None => {},
            },
            None => {},
        }
    } else {
        assert(p.found(j).len() > 0 ==> p.breaks(j));
        assert forall|k: int| 0 <= k < p.found(j).len() implies #[trigger] p.starts(
            p.found(j)[k] as int,
        ) by {
            assert(p.found(j).contains(p.found(j)[k]));
            assert(p.split_by(p.found(j)[k] as int, p.instrs.len() as int));
        }
        if p.jumps[j].next_ips is Some {
            let ips = p.jumps[j].next_ips->Some_0@;
            assert forall|ip: NextIp|
                #![trigger target(p.instrs[j].offset, ip)]
                ips.contains(ip) implies match target(p.instrs[j].offset, ip) {
                Some(t) => match place(p.instrs, t) {
                    Some(q) => p.starts(q),
                    None => true,
                },
                None => true,
            } by {
                let k = ips.index_of(ip);
                assert(ips[k] == ip);
                match target(p.instrs[j].offset, ip) {
                    Some(t) => match place(p.instrs, t) {
                        Some(q) => {
                            lemma_place_below(p.instrs, t);
                            let m = p.found(j).index_of(q as usize);
                            assert(p.starts(p.found(j)[m] as int));
                        },
                        None => {},
                    },
                    None => {},
                }
            }
        }
    }
}

proof fn lemma_place_below(instrs: Seq<PageInstr>, offset: int)
    requires
        instrs.len() <= usize::MAX,
    ensures
        place(instrs, offset) matches Some(q) ==> 0 <= q < instrs.len(),
{
    lemma_located(instrs, seq![offset]);
    assert(seq![offset].drop_last() =~= Seq::empty());
    assert(seq![offset].last() == offset);
    lemma_place(instrs, offset, 0);
}

proof fn lemma_steps_below(p: Page, i: int, k: nat)
    requires
        p.wf(),
        0 <= i < p.instrs.len(),
    ensures
        p.step(i, k) matches Some(j) ==> 0 <= j < p.instrs.len(),
        forall|m: nat| m <= k && p.step(i, k) is Some ==> #[trigger] p.step(i, m) is Some,
    decreases k,
{
    if k > 0 {
        lemma_steps_below(p, i, (k - 1) as nat);
        match p.step(i, (k - 1) as nat) {
            Some(j) => {
                lemma_found(p, j);
            },
            None => {},
        }
    }
}

proof fn lemma_steps_repeat(p: Page, i: int, a: nat, b: nat, n: nat)
    requires
        a < b,
        p.step(i, b) is Some,
        p.step(i, a) == p.step(i, b),
        forall|m: nat| m <= b ==> #[trigger] p.step(i, m) is Some,
    ensures
        exists|m: nat| m < b && #[trigger] p.step(i, m) == p.step(i, n),
        p.step(i, n) is Some,
    decreases n,
{
    if n < b {
        assert(p.step(i, n) is Some);
    } else {
        lemma_steps_repeat(p, i, a, b, (n - 1) as nat);
        let m = choose|m: nat| m < b && #[trigger] p.step(i, m) == p.step(i, (n - 1) as nat);
        assert(p.step(i, m + 1) == p.step(i, n));
        if m + 1 == b {
            assert(p.step(i, a) == p.step(i, n));
        }
        assert(p.step(i, m + 1) is Some);
    }
}

/// A chain that has not ended after as many steps as there are instructions never ends.
pub proof fn long_chains_are_endless(p: Page, i: int)
    requires
        p.wf(),
        0 <= i < p.instrs.len(),
        p.step(i, p.instrs.len()) is Some,
    ensures
        p.endless(i),
{
    let n = p.instrs.len();
    lemma_steps_below(p, i, n);
    let steps = Seq::new(n + 1, |k: int| p.step(i, k as nat)->Some_0);
    assert forall|k: int| 0 <= k < steps.len() implies 0 <= #[trigger] steps[k] < n by {
        assert(p.step(i, k as nat) is Some);
        lemma_steps_below(p, i, k as nat);
    }
    if steps.no_duplicates() {
        steps.unique_seq_to_set();
        let range = set_int_range(0, n as int);
        assert forall|x: int| steps.to_set().contains(x) implies range.contains(x) by {
            let k = choose|k: int| 0 <= k < steps.len() && steps[k] == x;
            assert(0 <= steps[k] < n);
        }
        vstd::set_lib::lemma_int_range(0, n as int);
        vstd::set_lib::lemma_len_subset(steps.to_set(), range);
    }
    let (a, b) = choose|a: int, b: int|
        0 <= a < steps.len() && 0 <= b < steps.len() && a != b && steps[a] == steps[b];
    let low = if a < b {
        a as nat
    } else {
        b as nat
    };
    let high = if a < b {
        b as nat
    } else {
        a as nat
    };
    assert(p.step(i, low) is Some && p.step(i, high) is Some);
    assert(p.step(i, low)->Some_0 == steps[low as int]);
    assert(p.step(i, high)->Some_0 == steps[high as int]);
    assert forall|k: nat| #[trigger] p.step(i, k) is Some by {
        lemma_steps_repeat(p, i, low, high, k);
    }
}

/// The block that starts with an instruction which is known to start one.
fn block_at(
    instrs: &Vec<PageInstr>,
    edges: &Vec<PageInstrWithEdges>,
    q: usize,
    Ghost(p): Ghost<Page>,
) -> (r: NextInstr)
    requires
        p.wf(),
        p.instrs == instrs@,
        edges.len() == instrs.len(),
        forall|i: int| 0 <= i < edges.len() ==> p.has_edges(i, #[trigger] edges[i]),
        q < instrs.len(),
        p.starts(q as int),
    ensures
        r == p.block_at(q as int),
        r.block_index < p.blocks_below(instrs.len() as int),
{
    assert(p.has_edges(q as int, edges[q as int]));
    proof {
        lemma_blocks_below(p, q + 1, instrs.len() as int);
    }
    NextInstr { offset: instrs[q].offset, block_index: edges[q].block_index.unwrap() }
}

fn block_of(
    instrs: &Vec<PageInstr>,
    edges: &Vec<PageInstrWithEdges>,
    j: usize,
    ip: NextIp,
    Ghost(p): Ghost<Page>,
) -> (r: Option<NextInstr>)
    requires
        p.wf(),
        p.instrs == instrs@,
        edges.len() == instrs.len(),
        forall|i: int| 0 <= i < edges.len() ==> p.has_edges(i, #[trigger] edges[i]),
        j < instrs.len(),
        match target(p.instrs[j as int].offset, ip) {
            Some(t) => match place(p.instrs, t) {
                Some(q) => p.starts(q),
                None => true,
            },
            None => true,
        },
    ensures
        r == p.block_of(j as int, ip),
        r matches Some(n) ==> n.block_index < p.blocks_below(instrs.len() as int),
{
    match jump_target(instrs[j].offset, ip) {
        Some(t) => match position(instrs, t) {
            Some(q) => Some(block_at(instrs, edges, q, Ghost(p))),
            None => None,
        },
        None => None,
    }
}

fn next_of(
    instrs: &Vec<PageInstr>,
    jumps: &Vec<JumpInfo>,
    edges: &Vec<PageInstrWithEdges>,
    j: usize,
) -> (r: NextOnPage)
    requires
        page(instrs, jumps).wf(),
        edges.len() == instrs.len(),
        forall|i: int| 0 <= i < edges.len() ==> page(instrs, jumps).has_edges(i, #[trigger] edges[i]),
        j < instrs.len(),
        page(instrs, jumps).follow(j as int) is None,
    ensures
        r@ == page(instrs, jumps).next_of(j as int),
        forall|k: int|
            0 <= k < r@.blocks().len() ==> #[trigger] r@.blocks()[k] < page(
                instrs,
                jumps,
            ).blocks_below(instrs.len() as int),
{
    let ghost p = page(instrs, jumps);
    assert(p.jumps[j as int].wf());
    if jumps[j].invokes_handler {
        let r = NextOnPage::Speculative(Vec::new());
        assert(r@ =~= p.next_of(j as int));
        return r;
    }
    proof {
        lemma_jumps_start_blocks(p, j as int);
        lemma_found(p, j as int);
    }
    match &jumps[j].next_ips {
        Some(ips) => {
            if ips.len() == 1 {
                match ips[0] {
                    NextIp::Relative(_) => {
                        let r = match block_of(instrs, edges, j, ips[0], Ghost(p)) {
                            Some(n) => NextOnPage::Certain(n),
                            None => NextOnPage::Speculative(Vec::new()),
                        };
                        assert(r@ =~= p.next_of(j as int));
                        return r;
                    },
                    NextIp::Elsewhere => {},
                }
            }
        },
        None => {},
    }
    assert(p.jumps[j as int].only_next() is None);
    match jumps[j].condition {
        Some((NextIp::Relative(a), NextIp::Relative(b))) => {
            let zero = block_of(instrs, edges, j, NextIp::Relative(a), Ghost(p));
            let nonzero = block_of(instrs, edges, j, NextIp::Relative(b), Ghost(p));
            let r = if zero.is_some() || nonzero.is_some() {
                NextOnPage::FromCondition { condition_nonzero: nonzero, condition_zero: zero }
            } else {
                NextOnPage::Speculative(Vec::new())
            };
            assert(r@ =~= p.next_of(j as int));
            return r;
        },
        _ => {},
    }
    let mut list: Vec<NextInstr> = Vec::new();
    let succs = &edges[j].succs;
    assert(p.has_edges(j as int, edges[j as int]));
    let mut k: usize = 0;
    while k < succs.len()
        invariant
            p.wf(),
            p.instrs == instrs@,
            edges.len() == instrs.len(),
            forall|i: int| 0 <= i < edges.len() ==> p.has_edges(i, #[trigger] edges[i]),
            succs@ == p.found(j as int),
            forall|k: int| 0 <= k < p.found(j as int).len() ==> #[trigger] p.found(j as int)[k] < p.instrs.len(),
            forall|k: int| 0 <= k < p.found(j as int).len() ==> #[trigger] p.starts(p.found(j as int)[k] as int),
            k <= succs.len(),
            list.len() == k,
            forall|m: int|
                0 <= m < k ==> #[trigger] list[m] == p.block_at(succs[m] as int)
                    && list[m].block_index < p.blocks_below(instrs.len() as int),
        decreases succs.len() - k,
    {
        assert(p.starts(p.found(j as int)[k as int] as int));
        list.push(block_at(instrs, edges, succs[k], Ghost(p)));
        k += 1;
    }
    assert(list@ =~= p.found(j as int).map_values(|q: usize| p.block_at(q as int)));
    let r = NextOnPage::Speculative(list);
    r
}

/// The chain of instructions that starts with instruction `i`.
fn chain_of(
    instrs: &Vec<PageInstr>,
    jumps: &Vec<JumpInfo>,
    edges: &Vec<PageInstrWithEdges>,
    i: usize,
) -> (r: Result<Vec<usize>, EndlessChain>)
    requires
        page(instrs, jumps).wf(),
        edges.len() == instrs.len(),
        forall|i: int| 0 <= i < edges.len() ==> page(instrs, jumps).has_edges(i, #[trigger] edges[i]),
        i < instrs.len(),
    ensures
        match r {
            Ok(chain) => page(instrs, jumps).is_chain(i as int, chain@),
            Err(_) => page(instrs, jumps).endless(i as int),
        },
{
    let ghost p = page(instrs, jumps);
    let mut chain: Vec<usize> = Vec::new();
    let mut current: usize = i;
    while chain.len() < instrs.len()
        invariant
            p == page(instrs, jumps),
            p.wf(),
            edges.len() == instrs.len(),
            forall|i: int| 0 <= i < edges.len() ==> p.has_edges(i, #[trigger] edges[i]),
            i < instrs.len(),
            current < instrs.len(),
            chain.len() <= instrs.len(),
            p.step(i as int, chain.len() as nat) == Some(current as int),
            forall|k: nat|
                k < chain.len() ==> #[trigger] p.step(i as int, k) == Some(chain[k as int] as int),
        decreases instrs.len() - chain.len(),
    {
        let e = &edges[current];
        assert(p.has_edges(current as int, edges[current as int]));
        proof {
            lemma_found(p, current as int);
        }
        let ghost before = chain@;
        chain.push(current);
        assert(p.step(i as int, chain.len() as nat) == p.follow(current as int));
        let only = match &jumps[current].next_ips {
            Some(ips) => ips.len() == 1 && matches!(ips[0], NextIp::Relative(_)),
            None => false,
        };
        assert(only == p.jumps[current as int].only_next() is Some);
        if only && e.succs.len() == 1 {
            let next: usize = e.succs[0];
            assert(p.succs(current as int)[0] == p.found(current as int)[0]);
            assert(p.has_edges(next as int, edges[next as int]));
            if edges[next].make_split_point {
                return Ok(chain);
            }
            current = next;
        } else {
            return Ok(chain);
        }
    }
    proof {
        long_chains_are_endless(p, i as int);
    }
    Err(EndlessChain)
}

proof fn lemma_blocks_below(p: Page, a: int, b: int)
    requires
        0 <= a <= b,
    ensures
        p.blocks_below(a) <= p.blocks_below(b),
        p.blocks_below(b) <= b,
    decreases b,
{
    if a < b {
        lemma_blocks_below(p, a, b - 1);
    } else if b > 0 {
        lemma_blocks_below(p, a - 1, b - 1);
    }
}

/// Divides a page into blocks.
pub fn plan_blocks(instrs: &Vec<PageInstr>, jumps: &Vec<JumpInfo>) -> (r: Result<
    Vec<Block>,
    EndlessChain,
>)
    requires
        page(instrs, jumps).wf(),
    ensures
        r is Err <==> exists|i: int|
            0 <= i < instrs.len() && page(instrs, jumps).starts(i) && #[trigger] page(
                instrs,
                jumps,
            ).endless(i),
        r matches Ok(blocks) ==> {
            &&& closed(block_graph(blocks@))
            &&& blocks@.len() == page(instrs, jumps).blocks_below(instrs.len() as int)
            &&& forall|i: int|
                0 <= i < instrs.len() && #[trigger] page(instrs, jumps).starts(i) ==> page(
                    instrs,
                    jumps,
                ).is_block(i, blocks@[page(instrs, jumps).blocks_below(i) as int])
        },
{
    let ghost p = page(instrs, jumps);
    let edges = find_edges(instrs, jumps);
    let mut blocks: Vec<Block> = Vec::new();
    let mut i: usize = 0;
    while i < instrs.len()
        invariant
            p == page(instrs, jumps),
            p.wf(),
            edges.len() == instrs.len(),
            forall|i: int| 0 <= i < edges.len() ==> p.has_edges(i, #[trigger] edges[i]),
            i <= instrs.len(),
            blocks.len() == p.blocks_below(i as int),
            forall|b: int, k: int|
                0 <= b < blocks.len() && 0 <= k < block_graph(blocks@)[b].len()
                    ==> #[trigger] block_graph(blocks@)[b][k] < p.blocks_below(instrs.len() as int),
            forall|k: int|
                0 <= k < i && #[trigger] p.starts(k) ==> p.is_block(
                    k,
                    blocks@[p.blocks_below(k) as int],
                ) && p.blocks_below(k) < blocks.len(),
        decreases instrs.len() - i,
    {
        assert(p.has_edges(i as int, edges[i as int]));
        if edges[i].block_index.is_some() {
            match chain_of(instrs, jumps, &edges, i) {
                Ok(chain) => {
                    let last: usize = chain[chain.len() - 1];
                    proof {
                        let n = chain.len();
                        assert(p.step(i as int, (n - 1) as nat) == Some(last as int));
                        lemma_steps_below(p, i as int, (n - 1) as nat);
                        assert(p.step(i as int, n as nat) == p.follow(last as int));
                    }
                    let next = next_of(instrs, jumps, &edges, last);
                    let ghost before = blocks@;
                    let ghost blocks_of_next = next@.blocks();
                    blocks.push(
                        Block {
                            id: truncated(i),
                            export: instrs[i].is_entry,
                            offset: instrs[i].offset,
                            check_intr: false,
                            instrs: chain,
                            next,
                        },
                    );
                    assert forall|b: int, k: int|
                        0 <= b < blocks.len() && 0 <= k < block_graph(blocks@)[b].len() implies #[trigger] block_graph(
                        blocks@,
                    )[b][k] < p.blocks_below(instrs.len() as int) by {
                        if b < before.len() {
                            assert(block_graph(before)[b][k] == block_graph(blocks@)[b][k]);
                        } else {
                            assert(blocks_of_next[k] == block_graph(blocks@)[b][k]);
                        }
                    }
                },
                Err(e) => {
                    assert(p.starts(i as int) && p.endless(i as int));
                    return Err(e);
                },
            }
        }
        i += 1;
    }
    assert forall|i: int| 0 <= i < instrs.len() && p.starts(i) implies !#[trigger] p.endless(i) by {
        let b = blocks@[p.blocks_below(i) as int];
        assert(p.is_block(i, b));
        assert(p.step(i, b.instrs@.len()) is None);
    }
    Ok(blocks)
}

#[verifier::truncate]
fn truncated(i: usize) -> (r: u32)
    ensures
        r == i as u32,
{
    i as u32
}

/// Sets which blocks look for interrupts: those that use ports, where anything can come next.
pub fn set_checks(blocks: &mut Vec<Block>, performs_io: &Vec<bool>)
    requires
        performs_io.len() == old(blocks).len(),
    ensures
        final(blocks).len() == old(blocks).len(),
        forall|i: int|
            0 <= i < old(blocks).len() ==> {
                &&& same_code(#[trigger] final(blocks)[i], old(blocks)[i])
                &&& final(blocks)[i].export == old(blocks)[i].export
                &&& final(blocks)[i].check_intr == (performs_io[i] && old(
                    blocks,
                )[i].next@.blocks().len() > 0)
            },
{
    let ghost before = blocks@;
    let mut i: usize = 0;
    while i < blocks.len()
        invariant
            before == old(blocks)@,
            i <= blocks.len(),
            blocks.len() == before.len(),
            performs_io.len() == before.len(),
            forall|k: int| i <= k < before.len() ==> #[trigger] blocks[k] == before[k],
            forall|k: int|
                0 <= k < i ==> {
                    &&& same_code(#[trigger] blocks[k], before[k])
                    &&& blocks[k].export == before[k].export
                    &&& blocks[k].check_intr == (performs_io[k]
                        && before[k].next@.blocks().len() > 0)
                },
        decreases blocks.len() - i,
    {
        let check: bool = performs_io[i] && !blocks[i].next.is_empty();
        blocks[i].check_intr = check;
        i += 1;
    }
}

fn push_block(list: &mut Vec<usize>, next: &Option<NextInstr>)
    ensures
        final(list)@ == old(list)@ + one_block(*next),
{
    match next {
        Some(n) => {
            list.push(n.block_index);
        },
        None => {},
    }
    assert(list@ =~= old(list)@ + one_block(*next));
}

fn next_blocks(next: &NextOnPage) -> (r: Vec<usize>)
    ensures
        r@ == next@.blocks(),
{
    let mut r: Vec<usize> = Vec::new();
    match next {
        NextOnPage::Certain(n) => {
            r.push(n.block_index);
        },
        NextOnPage::FromCondition { condition_nonzero, condition_zero } => {
            push_block(&mut r, condition_nonzero);
            push_block(&mut r, condition_zero);
        },
        NextOnPage::Speculative(list) => {
            let mut k: usize = 0;
            while k < list.len()
                invariant
                    k <= list.len(),
                    r.len() == k,
                    forall|m: int| 0 <= m < k ==> #[trigger] r[m] == list[m].block_index,
                decreases list.len() - k,
            {
                r.push(list[k].block_index);
                k += 1;
            }
        },
    }
    assert(r@ =~= next@.blocks());
    r
}

/// Makes every loop look for interrupts on each of its rounds, and gives it a block where the
/// emulator can enter it again.
pub fn break_loops(blocks: &mut Vec<Block>)
    requires
        closed(block_graph(old(blocks)@)),
    ensures
        loops_broken(old(blocks)@, final(blocks)@),
{
    let ghost before = blocks@;
    let ghost g = block_graph(before);
    let mut succs: Vec<Vec<usize>> = Vec::new();
    let mut starts: Vec<bool> = Vec::new();
    let mut marks: Vec<bool> = Vec::new();
    let mut n: usize = 0;
    while n < blocks.len()
        invariant
            blocks@ == before,
            n <= blocks.len(),
            succs.len() == n,
            starts.len() == n,
            marks.len() == n,
            forall|k: int| 0 <= k < n ==> (#[trigger] succs[k])@ == before[k].next@.blocks(),
            forall|k: int| 0 <= k < n ==> #[trigger] starts[k] == before[k].export,
            forall|k: int|
                0 <= k < n ==> #[trigger] marks[k] == (before[k].export && before[k].check_intr),
        decreases blocks.len() - n,
    {
        succs.push(next_blocks(&blocks[n].next));
        starts.push(blocks[n].export);
        marks.push(blocks[n].export && blocks[n].check_intr);
        n += 1;
    }
    assert(lists(succs@) =~= g);
    assert(starts@ =~= exports(before));
    assert(marks@ =~= cuts(before));
    let groups = components(&succs, &starts);
    let ghost group_lists = lists(groups@);
    let ghost whole = cut_groups(g, starts@, marks@, group_lists, 0);
    let mut k: usize = 0;
    while k < groups.len()
        invariant
            lists(succs@) == g,
            closed(g),
            starts.len() == succs.len(),
            marks.len() == succs.len(),
            group_lists == lists(groups@),
            is_components(g, starts@, group_lists),
            k <= groups.len(),
            cut_groups(g, starts@, marks@, group_lists, k as int) == whole,
        decreases groups.len() - k,
    {
        assert(group_lists[k as int] == groups[k as int]@);
        assert(inside(g, group_lists[k as int]));
        mark_group(&succs, &starts, &mut marks, &groups[k]);
        k += 1;
    }
    let mut i: usize = 0;
    while i < blocks.len()
        invariant
            before == old(blocks)@,
            i <= blocks.len(),
            blocks.len() == before.len(),
            marks.len() == before.len(),
            forall|k: int| i <= k < before.len() ==> #[trigger] blocks[k] == before[k],
            forall|k: int|
                0 <= k < i ==> {
                    &&& same_code(#[trigger] blocks[k], before[k])
                    &&& blocks[k].export == (before[k].export || marks[k])
                    &&& blocks[k].check_intr == (before[k].check_intr || marks[k])
                },
        decreases blocks.len() - i,
    {
        if marks[i] {
            blocks[i].check_intr = true;
            blocks[i].export = true;
        }
        i += 1;
    }
    assert(is_components(g, exports(before), group_lists));
}

/// Every loop that can be reached from a block that the emulator enters passes a block that looks
/// for interrupts and that the emulator can enter.
pub proof fn loops_check_interrupts(
    before: Seq<Block>,
    after: Seq<Block>,
    w: Seq<int>,
    a: int,
    b: int,
)
    requires
        before.len() <= usize::MAX,
        closed(block_graph(before)),
        loops_broken(before, after),
        is_walk(block_graph(before), w),
        before[w[0]].export,
        0 <= a < b < w.len(),
        w[a] == w[b],
    ensures
        exists|c: int| a < c <= b && (#[trigger] after[w[c]]).check_intr && after[w[c]].export,
{
    let g = block_graph(before);
    let starts = exports(before);
    let groups = choose|groups: Seq<Seq<usize>>| #[trigger]
        is_components(g, starts, groups) && forall|i: int|
            0 <= i < before.len() ==> {
                let cut = cut_groups(g, starts, cuts(before), groups, 0)[i];
                &&& same_code(#[trigger] after[i], before[i])
                &&& after[i].export == (before[i].export || cut)
                &&& after[i].check_intr == (before[i].check_intr || cut)
            };
    let marks = cut_groups(g, starts, cuts(before), groups, 0);
    assert(ordered(g, groups)) by {
        assert forall|x: int, y: int, u: int, t: int|
            #![trigger groups[x].contains(u as usize), groups[y].contains(t as usize)]
            0 <= y < x < groups.len() && groups[x].contains(u as usize) && groups[y].contains(
                t as usize,
            ) implies !is_edge(g, u, t) by {
            if is_edge(g, u, t) {
                lemma_reaches_itself(g, u);
                lemma_reaches_edge(g, u, u, t);
            }
        }
    }
    lemma_cut_groups(g, starts, cuts(before), groups, 0);
    assert forall|i: int| 0 <= i < w.len() implies settled(g, starts, marks, #[trigger] w[i]) by {
        lemma_walk_reaches(g, w, i);
        assert(starts[w[0]] && reaches(g, w[0], w[i]));
        assert(entered(g, starts, w[i]));
        let j = choose|j: int|
            0 <= j < groups.len() && #[trigger] groups[j].contains(w[i] as usize);
        assert(groups[j].contains(w[i] as usize));
    }
    lemma_loops_are_marked(g, marks, starts, w, a, b);
    let c = choose|c: int| a < c <= b && marks[#[trigger] w[c]];
    assert(after[w[c]].check_intr);
}

proof fn lemma_walk_reaches(g: Graph, w: Seq<int>, n: int)
    requires
        is_walk(g, w),
        0 <= n < w.len(),
    ensures
        reaches(g, w[0], w[n]),
{
    let part = w.take(n + 1);
    assert forall|i: int| #![trigger part[i]] 0 <= i < part.len()
        - 1 implies is_edge(g, part[i], part[i + 1]) by {
        assert(is_edge(g, w[i], w[i + 1]));
    }
    assert(is_walk(g, part) && part.first() == w[0] && part.last() == w[n]);
}

/// Whether the emulator enters the block with instruction `k` first.
pub open spec fn entered_at(instrs: Seq<PageInstr>, blocks: Seq<Block>, k: int, n: int) -> bool {
    exists|b: int|
        0 <= b < n && (#[trigger] blocks[b]).export && place(instrs, blocks[b].offset as int)
            == Some(k)
}

/// Makes the first instruction of each block that the emulator enters an entry.
pub fn mark_entries(instrs: &mut Vec<PageInstr>, blocks: &Vec<Block>)
    ensures
        final(instrs).len() == old(instrs).len(),
        forall|k: int|
            0 <= k < old(instrs).len() ==> #[trigger] final(instrs)[k] == (PageInstr {
                is_entry: old(instrs)[k].is_entry || entered_at(
                    old(instrs)@,
                    blocks@,
                    k,
                    blocks.len() as int,
                ),
                ..old(instrs)[k]
            }),
{
    let ghost before = instrs@;
    let mut b: usize = 0;
    while b < blocks.len()
        invariant
            before == old(instrs)@,
            b <= blocks.len(),
            instrs.len() == before.len(),
            forall|k: int|
                0 <= k < before.len() ==> #[trigger] instrs[k] == (PageInstr {
                    is_entry: before[k].is_entry || entered_at(before, blocks@, k, b as int),
                    ..before[k]
                }),
        decreases blocks.len() - b,
    {
        if blocks[b].export {
            let found = position(instrs, blocks[b].offset);
            proof {
                lemma_same_places(instrs@, before, blocks[b as int].offset as int, 0);
            }
            match found {
                Some(p) => {
                    instrs[p].is_entry = true;
                },
                None => {},
            }
        }
        assert forall|k: int| 0 <= k < before.len() implies #[trigger] entered_at(
            before,
            blocks@,
            k,
            b + 1,
        ) == (entered_at(before, blocks@, k, b as int) || (blocks[b as int].export && place(
            before,
            blocks[b as int].offset as int,
        ) == Some(k))) by {}
        b += 1;
    }
}

proof fn lemma_same_places(a: Seq<PageInstr>, b: Seq<PageInstr>, offset: int, k: int)
    requires
        a.len() == b.len(),
        forall|i: int| 0 <= i < a.len() ==> (#[trigger] a[i]).offset == b[i].offset,
        0 <= k <= a.len(),
    ensures
        place_from(a, offset, k) == place_from(b, offset, k),
    decreases a.len() - k,
{
    if k < a.len() && a[k].offset != offset {
        lemma_same_places(a, b, offset, k + 1);
    }
}

/// The places of an only jump: the instruction at its target, if there is one.
proof fn lemma_only_target(p: Page, j: int, d: i128)
    requires
        p.wf(),
        0 <= j < p.instrs.len(),
        p.jumps[j].next_ips is Some,
        p.jumps[j].next_ips->Some_0@ == seq![NextIp::Relative(d)],
    ensures
        ({
            let t = p.instrs[j].offset + d;
            &&& !(0 <= t < 4096) ==> p.found(j).len() == 0
            &&& 0 <= t < 4096 ==> match place(p.instrs, t) {
                Some(k) => p.found(j) == seq![k as usize] && 0 <= k < p.instrs.len()
                    && p.instrs[k].offset == t,
                None => p.found(j).len() == 0,
            }
        }),
{
    let ips = p.jumps[j].next_ips->Some_0@;
    let o = p.instrs[j].offset;
    let t: int = o + d;
    assert(ips.drop_last() =~= Seq::empty());
    assert(ips.last() == NextIp::Relative(d));
    assert(targets(o, ips.drop_last()) =~= Seq::empty());
    assert(p.jumps[j].known());
    let next = p.next_offsets(j);
    if 0 <= t < 4096 {
        assert(targets(o, ips) =~= seq![t]);
        assert(next =~= seq![t]);
        assert(next.drop_last() =~= Seq::empty());
        assert(located(p.instrs, next.drop_last()) =~= Seq::empty());
        lemma_place(p.instrs, t, 0);
        match place(p.instrs, t) {
            Some(k) => {
                assert(p.found(j) =~= seq![k as usize]);
            },
            None => {},
        }
    } else {
        assert(targets(o, ips) =~= Seq::empty());
        assert(next =~= Seq::empty());
    }
}

/// Within a block every instruction lies where the one before it goes on to, which is known, and the
/// emulator enters none of them but the first one, from which the block has its offset.
pub proof fn blocks_follow_their_jumps(p: Page, i: int, b: Block, k: int)
    requires
        p.wf(),
        0 <= i < p.instrs.len(),
        p.is_block(i, b),
        0 <= k < b.instrs@.len() - 1,
        forall|m: int| 0 <= m < b.instrs@.len() ==> (#[trigger] b.instrs@[m]) < p.instrs.len(),
    ensures
        b.instrs@[0] == i,
        b.offset == p.instrs[i].offset,
        ({
            let x = b.instrs@[k] as int;
            let y = b.instrs@[k + 1] as int;
            &&& !p.jumps[x].invokes_handler
            &&& p.jumps[x].next_ips is Some
            &&& p.jumps[x].next_ips->Some_0@.len() == 1
            &&& p.jumps[x].next_ips->Some_0@[0] matches NextIp::Relative(d) && p.instrs[y].offset
                == p.instrs[x].offset + d
            &&& !p.instrs[y].is_entry
        }),
{
    let x = b.instrs@[k] as int;
    let y = b.instrs@[k + 1] as int;
    assert(p.step(i, 0) == Some(b.instrs@[0] as int));
    assert(p.step(i, k as nat) == Some(x));
    assert(p.step(i, (k + 1) as nat) == Some(y));
    assert(p.follow(x) == Some(y));
    let ips = p.jumps[x].next_ips->Some_0@;
    match ips[0] {
        NextIp::Relative(d) => {
            assert(ips =~= seq![NextIp::Relative(d)]);
            lemma_only_target(p, x, d);
        },
        NextIp::Elsewhere => {},
    }
}

/// Where a block goes on: behind a handler the emulator decides; an only jump leads to the block at
/// its target; the two ways of a condition lead to the blocks at the first target if the condition
/// is zero, and at the second one if it is not.
pub proof fn blocks_go_on_at_their_targets(p: Page, j: int)
    requires
        p.wf(),
        0 <= j < p.instrs.len(),
    ensures
        p.jumps[j].invokes_handler ==> p.next_of(j) == NextModel::Speculative(Seq::empty()),
        !p.jumps[j].invokes_handler && p.jumps[j].next_ips is Some
            && p.jumps[j].next_ips->Some_0@.len() == 1 ==> (p.jumps[j].next_ips->Some_0@[0]
            matches NextIp::Relative(d) ==> match p.next_of(j) {
            NextModel::Certain(n) => n.offset == p.instrs[j].offset + d && n.offset < 4096,
            NextModel::Speculative(list) => list.len() == 0 && forall|k: int|
                0 <= k < p.instrs.len() ==> (#[trigger] p.instrs[k]).offset != p.instrs[j].offset + d,
            _ => false,
        }),
        !p.jumps[j].invokes_handler && p.jumps[j].only_next() is None ==> (p.jumps[j].condition
            matches Some((NextIp::Relative(zero), NextIp::Relative(nonzero))) ==> match p.next_of(j) {
            NextModel::FromCondition { condition_nonzero, condition_zero } => {
                &&& condition_zero matches Some(n) ==> n.offset == p.instrs[j].offset + zero
                &&& condition_nonzero matches Some(n) ==> n.offset == p.instrs[j].offset + nonzero
                &&& condition_zero is None ==> forall|k: int|
                    0 <= k < p.instrs.len() ==> (#[trigger] p.instrs[k]).offset
                        != p.instrs[j].offset + zero
                &&& condition_nonzero is None ==> forall|k: int|
                    0 <= k < p.instrs.len() ==> (#[trigger] p.instrs[k]).offset
                        != p.instrs[j].offset + nonzero
            },
            NextModel::Speculative(list) => list.len() == 0,
            _ => false,
        }),
{
    let o = p.instrs[j].offset;
    if p.jumps[j].next_ips is Some && p.jumps[j].next_ips->Some_0@.len() == 1 {
        match p.jumps[j].next_ips->Some_0@[0] {
            NextIp::Relative(d) => {
                lemma_first_place(p.instrs, o + d, 0);
            },
            _ => {},
        }
    }
    match p.jumps[j].condition {
        Some((NextIp::Relative(zero), NextIp::Relative(nonzero))) => {
            lemma_first_place(p.instrs, o + zero, 0);
            lemma_first_place(p.instrs, o + nonzero, 0);
        },
        _ => {},
    }
}

/// An instruction is found at an offset exactly if there is one.
proof fn lemma_first_place(instrs: Seq<PageInstr>, offset: int, k: int)
    requires
        0 <= k <= instrs.len(),
    ensures
        match place_from(instrs, offset, k) {
            Some(n) => k <= n < instrs.len() && instrs[n].offset == offset,
            None => forall|m: int| k <= m < instrs.len() ==> (#[trigger] instrs[m]).offset != offset,
        },
    decreases instrs.len() - k,
{
    if k < instrs.len() && instrs[k].offset != offset {
        lemma_first_place(instrs, offset, k + 1);
    }
}

/// A block starts with every instruction that the emulator enters, and with every one that two
/// instructions go on to.
pub proof fn entries_and_meetings_start_blocks(p: Page, i: int, a: int, b: int)
    requires
        p.wf(),
        0 <= i < p.instrs.len(),
    ensures
        p.instrs[i].is_entry ==> p.starts(i),
        0 <= a < b < p.instrs.len() && p.succs(a).contains(i as usize) && p.succs(b).contains(
            i as usize,
        ) ==> p.starts(i),
{
    if 0 <= a < b < p.instrs.len() && p.succs(a).contains(i as usize) && p.succs(b).contains(
        i as usize,
    ) {
        let n: int = p.instrs.len() as int;
        lemma_counted(p, i, a, n);
        lemma_counted(p, i, b, n);
        if p.preds(i, n).len() == 1 {
            assert(a as usize != b as usize);
        }
    }
}

proof fn lemma_counted(p: Page, i: int, a: int, n: int)
    requires
        0 <= a < n <= p.instrs.len(),
        p.succs(a).contains(i as usize),
    ensures
        p.preds(i, n).contains(a as usize),
    decreases n,
{
    if a < n - 1 {
        lemma_counted(p, i, a, n - 1);
        let before = p.preds(i, n - 1);
        let k = choose|k: int| 0 <= k < before.len() && before[k] == a as usize;
        assert(p.preds(i, n)[k] == a as usize);
    } else {
        let after = p.preds(i, n);
        assert(after[after.len() - 1] == a as usize);
    }
}

} // verus!
