//! The flow of control between the instructions of a page.
use arrayvec::ArrayVec;
use vstd::prelude::*;

use crate::codegen::page::graph::copied;
use crate::codegen::page::{PageInstr, PageInstrWithEdges};

verus! {

/// Where an instruction may continue.
#[derive(Copy, Clone, Debug, PartialEq, Eq, Structural)]
pub enum NextIp {
    /// At a distance from the start of the instruction.
    Relative(i128),
    /// Anywhere else.
    Elsewhere,
}

/// What the semantics of an instruction say of the one that follows.
#[derive(Debug)]
pub struct JumpInfo {
    /// All places where the next instruction can be, if they can be told.
    pub next_ips: Option<Vec<NextIp>>,
    /// The next places if a condition is zero, and if it is not.
    pub condition: Option<(NextIp, NextIp)>,
    /// Whether the instruction leaves for a handler of the emulator.
    pub invokes_handler: bool,
}

/// The instructions of a page and their jumps.
pub struct Page {
    pub instrs: Seq<PageInstr>,
    pub jumps: Seq<JumpInfo>,
}

/// The offsets in the vector, the first one first.
pub uninterp spec fn held_offsets(v: ArrayVec<u16, 2>) -> Seq<u16>;

/// Calls `arrayvec::ArrayVec::as_slice`, which shows all elements.
#[verifier::external_body]
fn as_offsets(v: &ArrayVec<u16, 2>) -> (r: &[u16])
    ensures
        r@ == held_offsets(*v),
{
    v.as_slice()
}

/// The offset on the page that a jump leads to.
pub open spec fn target(offset: u16, ip: NextIp) -> Option<int> {
    match ip {
        NextIp::Relative(distance) => if 0 <= offset + distance < 4096 {
            Some(offset + distance)
        } else {
            None
        },
        NextIp::Elsewhere => None,
    }
}

/// The offsets on the page that jumps lead to.
pub open spec fn targets(offset: u16, ips: Seq<NextIp>) -> Seq<int>
    decreases ips.len(),
{
    if ips.len() == 0 {
        Seq::empty()
    } else {
        let before = targets(offset, ips.drop_last());
        match target(offset, ips.last()) {
            Some(t) => before.push(t),
            None => before,
        }
    }
}

/// The first instruction at an offset, from instruction `k` on.
pub open spec fn place_from(instrs: Seq<PageInstr>, offset: int, k: int) -> Option<int>
    decreases instrs.len() - k,
{
    if k >= instrs.len() {
        None
    } else if instrs[k].offset == offset {
        Some(k)
    } else {
        place_from(instrs, offset, k + 1)
    }
}

/// The first instruction at an offset.
pub open spec fn place(instrs: Seq<PageInstr>, offset: int) -> Option<int> {
    place_from(instrs, offset, 0)
}

/// The instructions at some offsets. Offsets without an instruction are left out.
pub open spec fn located(instrs: Seq<PageInstr>, offsets: Seq<int>) -> Seq<usize>
    decreases offsets.len(),
{
    if offsets.len() == 0 {
        Seq::empty()
    } else {
        let before = located(instrs, offsets.drop_last());
        match place(instrs, offsets.last()) {
            Some(p) => before.push(p as usize),
            None => before,
        }
    }
}

impl JumpInfo {
    /// Whether all places are known, relative to the instruction.
    pub open spec fn known(&self) -> bool {
        match self.next_ips {
            Some(ips) => forall|k: int|
                0 <= k < ips@.len() ==> (#[trigger] ips@[k]) is Relative,
            None => false,
        }
    }

    /// The distance to the only instruction that can follow.
    pub open spec fn only_next(&self) -> Option<NextIp> {
        match self.next_ips {
            Some(ips) => if ips@.len() == 1 && ips@[0] is Relative {
                Some(ips@[0])
            } else {
                None
            },
            None => None,
        }
    }

    /// The two places of a condition, if they are known.
    pub open spec fn branches(&self) -> Option<(NextIp, NextIp)> {
        match self.condition {
            Some((if_zero, if_nonzero)) => if if_zero is Relative && if_nonzero is Relative {
                Some((if_zero, if_nonzero))
            } else {
                None
            },
            None => None,
        }
    }

    /// The two places of a condition are among the places that are known.
    pub open spec fn wf(&self) -> bool {
        match self.branches() {
            Some((if_zero, if_nonzero)) => {
                &&& self.next_ips is Some
                &&& self.next_ips->Some_0@.contains(if_zero)
                &&& self.next_ips->Some_0@.contains(if_nonzero)
            },
            None => true,
        }
    }
}

impl Page {
    pub open spec fn wf(&self) -> bool {
        &&& self.jumps.len() == self.instrs.len()
        &&& self.instrs.len() <= usize::MAX
        &&& forall|i: int| 0 <= i < self.instrs.len() ==> (#[trigger] self.instrs[i]).offset < 4096
        &&& forall|i: int| 0 <= i < self.jumps.len() ==> (#[trigger] self.jumps[i]).wf()
    }

    /// The offsets where the instruction after instruction `j` may be.
    pub open spec fn next_offsets(&self, j: int) -> Seq<int> {
        let certain = match self.jumps[j].next_ips {
            Some(ips) => targets(self.instrs[j].offset, ips@),
            None => Seq::empty(),
        };
        let speculative = if self.jumps[j].known() {
            Seq::empty()
        } else {
            held_offsets(self.instrs[j].next).map_values(|o: u16| o as int)
        };
        certain + speculative
    }

    /// The instructions of the page that may come after instruction `j`.
    pub open spec fn found(&self, j: int) -> Seq<usize> {
        located(self.instrs, self.next_offsets(j))
    }

    /// Whether the instruction after instruction `j` is on the page in any case.
    pub open spec fn stays(&self, j: int) -> bool {
        &&& self.jumps[j].known()
        &&& forall|k: int|
            0 <= k < self.jumps[j].next_ips->Some_0@.len() ==> {
                let t = target(
                    self.instrs[j].offset,
                    #[trigger] self.jumps[j].next_ips->Some_0@[k],
                );
                t is Some && place(self.instrs, t->Some_0) is Some
            }
    }

    /// The instructions that code for instruction `j` can go on to. Handlers leave for the emulator.
    pub open spec fn succs(&self, j: int) -> Seq<usize> {
        if self.jumps[j].invokes_handler {
            Seq::empty()
        } else {
            self.found(j)
        }
    }

    /// Whether chains end behind instruction `j`.
    pub open spec fn breaks(&self, j: int) -> bool {
        self.jumps[j].invokes_handler || self.found(j).len() > 1 || !self.stays(j)
    }

    /// Whether one of the first `n` instructions makes instruction `i` the start of a chain.
    pub open spec fn split_by(&self, i: int, n: int) -> bool {
        exists|j: int| 0 <= j < n && self.breaks(j) && (#[trigger] self.found(j)).contains(i as usize)
    }

    /// Whether chains end before instruction `i`.
    pub open spec fn split(&self, i: int) -> bool {
        self.instrs[i].is_entry || self.split_by(i, self.instrs.len() as int)
    }

    /// Those of the first `n` instructions that go on to instruction `i`.
    pub open spec fn preds(&self, i: int, n: int) -> Seq<usize>
        decreases n,
    {
        if n <= 0 {
            Seq::empty()
        } else if self.succs(n - 1).contains(i as usize) {
            self.preds(i, n - 1).push((n - 1) as usize)
        } else {
            self.preds(i, n - 1)
        }
    }

    /// Whether a block starts with instruction `i`.
    pub open spec fn starts(&self, i: int) -> bool {
        self.split(i) || self.preds(i, self.instrs.len() as int).len() > 1
    }

    /// The number of blocks that start with one of the first `n` instructions.
    pub open spec fn blocks_below(&self, n: int) -> nat
        decreases n,
    {
        if n <= 0 {
            0
        } else if self.starts(n - 1) {
            self.blocks_below(n - 1) + 1
        } else {
            self.blocks_below(n - 1)
        }
    }

    /// The edges of instruction `i`.
    pub open spec fn has_edges(&self, i: int, e: PageInstrWithEdges) -> bool {
        &&& e.preds@ == self.preds(i, self.instrs.len() as int)
        &&& e.succs@ == self.succs(i)
        &&& e.make_split_point == self.split(i)
        &&& e.block_index == if self.starts(i) {
            Some(self.blocks_below(i) as usize)
        } else {
            None
        }
        &&& e.may_jump_to_out_of_page_instr == !self.stays(i)
        &&& e.may_jump_to_unknown_offset == !self.jumps[i].known()
    }
}

pub open spec fn page(instrs: &Vec<PageInstr>, jumps: &Vec<JumpInfo>) -> Page {
    Page { instrs: instrs@, jumps: jumps@ }
}

pub proof fn lemma_place(instrs: Seq<PageInstr>, offset: int, k: int)
    requires
        0 <= k <= instrs.len(),
    ensures
        match place_from(instrs, offset, k) {
            Some(p) => k <= p < instrs.len() && instrs[p].offset == offset,
            None => true,
        },
    decreases instrs.len() - k,
{
    if k < instrs.len() && instrs[k].offset != offset {
        lemma_place(instrs, offset, k + 1);
    }
}

/// Every edge leads to an instruction.
pub proof fn lemma_located(instrs: Seq<PageInstr>, offsets: Seq<int>)
    requires
        instrs.len() <= usize::MAX,
    ensures
        located(instrs, offsets).len() <= offsets.len(),
        forall|k: int|
            0 <= k < located(instrs, offsets).len() ==> #[trigger] located(instrs, offsets)[k]
                < instrs.len(),
    decreases offsets.len(),
{
    if offsets.len() > 0 {
        lemma_located(instrs, offsets.drop_last());
        lemma_place(instrs, offsets.last(), 0);
    }
}

/// The offset on the page that a jump leads to.
pub fn jump_target(offset: u16, ip: NextIp) -> (r: Option<u16>)
    requires
        offset < 4096,
    ensures
        match r {
            Some(t) => target(offset, ip) == Some(t as int),
            None => target(offset, ip) is None,
        },
{
    match ip {
        NextIp::Relative(distance) => {
            let from: i128 = offset as i128;
            if distance >= 0 - from && distance < 4096 - from {
                Some((from + distance) as u16)
            } else {
                None
            }
        },
        NextIp::Elsewhere => None,
    }
}

/// The first instruction at an offset.
pub fn position(instrs: &Vec<PageInstr>, offset: u16) -> (r: Option<usize>)
    ensures
        match r {
            Some(p) => place(instrs@, offset as int) == Some(p as int) && p < instrs.len(),
            None => place(instrs@, offset as int) is None,
        },
{
    let mut k: usize = 0;
    while k < instrs.len()
        invariant
            k <= instrs.len(),
            place(instrs@, offset as int) == place_from(instrs@, offset as int, k as int),
        decreases instrs.len() - k,
    {
        if instrs[k].offset == offset {
            return Some(k);
        }
        k += 1;
    }
    None
}

/// What `scan` finds: the instructions that may follow, and whether the next instruction is on the
/// page and known.
struct Scan {
    found: Vec<usize>,
    stays: bool,
    known: bool,
}

fn scan(instrs: &Vec<PageInstr>, jumps: &Vec<JumpInfo>, j: usize) -> (r: Scan)
    requires
        page(instrs, jumps).wf(),
        j < instrs.len(),
    ensures
        r.found@ == page(instrs, jumps).found(j as int),
        r.stays == page(instrs, jumps).stays(j as int),
        r.known == jumps[j as int].known(),
{
    let offset: u16 = instrs[j].offset;
    let mut found: Vec<usize> = Vec::new();
    let mut known: bool = true;
    let mut stays: bool = true;
    let ghost mut seen: Seq<int> = Seq::empty();
    match &jumps[j].next_ips {
        Some(ips) => {
            let mut k: usize = 0;
            while k < ips.len()
                invariant
                    k <= ips.len(),
                    offset < 4096,
                    offset == instrs[j as int].offset,
                    seen == targets(offset, ips@.take(k as int)),
                    found@ == located(instrs@, seen),
                    known == (forall|m: int| 0 <= m < k ==> (#[trigger] ips@[m]) is Relative),
                    stays ==> known,
                    stays == (known && forall|m: int|
                        0 <= m < k ==> {
                            let t = target(offset, #[trigger] ips@[m]);
                            t is Some && place(instrs@, t->Some_0) is Some
                        }),
                decreases ips.len() - k,
            {
                let ip = ips[k];
                assert(ips@.take(k + 1).drop_last() =~= ips@.take(k as int));
                assert(ips@.take(k + 1).last() == ip);
                match ip {
                    NextIp::Relative(_) => {
                        match jump_target(offset, ip) {
                            Some(t) => {
                                proof {
                                    seen = seen.push(t as int);
                                    assert(seen.drop_last() =~= targets(
                                        offset,
                                        ips@.take(k as int),
                                    ));
                                }
                                match position(instrs, t) {
                                    Some(p) => {
                                        found.push(p);
                                    },
                                    None => {
                                        stays = false;
                                    },
                                }
                            },
                            None => {
                                stays = false;
                            },
                        }
                    },
                    NextIp::Elsewhere => {
                        known = false;
                        stays = false;
                    },
                }
                k += 1;
            }
            assert(ips@.take(k as int) =~= ips@);
        },
        None => {
            known = false;
            stays = false;
        },
    }
    let ghost certain = seen;
    if !known {
        let next: &[u16] = as_offsets(&instrs[j].next);
        let mut k: usize = 0;
        assert(next@.take(0).map_values(|o: u16| o as int) =~= Seq::empty());
        assert(certain + Seq::<int>::empty() =~= certain);
        while k < next.len()
            invariant
                k <= next.len(),
                seen == certain + next@.take(k as int).map_values(|o: u16| o as int),
                found@ == located(instrs@, seen),
            decreases next.len() - k,
        {
            let ghost before = seen;
            proof {
                seen = certain + next@.take(k + 1).map_values(|o: u16| o as int);
                assert(seen =~= before.push(next[k as int] as int));
                assert(seen.drop_last() =~= before);
            }
            match position(instrs, next[k]) {
                Some(p) => {
                    found.push(p);
                },
                None => {},
            }
            k += 1;
        }
        assert(next@.take(k as int) =~= next@);
    } else {
        assert(certain + Seq::<int>::empty() =~= certain);
    }
    assert(seen =~= page(instrs, jumps).next_offsets(j as int));
    Scan { found, stays, known }
}

fn holds(list: &Vec<usize>, x: usize) -> (r: bool)
    ensures
        r == list@.contains(x),
{
    let mut k: usize = 0;
    while k < list.len()
        invariant
            k <= list.len(),
            forall|m: int| 0 <= m < k ==> #[trigger] list[m] != x,
        decreases list.len() - k,
    {
        if list[k] == x {
            assert(list@[k as int] == x);
            return true;
        }
        k += 1;
    }
    false
}

/// Finds the predecessors and successors of all instructions of a page, and the blocks.
pub fn find_edges(instrs: &Vec<PageInstr>, jumps: &Vec<JumpInfo>) -> (r: Vec<PageInstrWithEdges>)
    requires
        page(instrs, jumps).wf(),
    ensures
        r.len() == instrs.len(),
        forall|i: int| 0 <= i < r.len() ==> page(instrs, jumps).has_edges(i, #[trigger] r[i]),
{
    let ghost p = page(instrs, jumps);
    let mut scans: Vec<Scan> = Vec::new();
    let mut j: usize = 0;
    while j < instrs.len()
        invariant
            p == page(instrs, jumps),
            p.wf(),
            j <= instrs.len(),
            scans.len() == j,
            forall|k: int|
                0 <= k < j ==> {
                    &&& (#[trigger] scans[k]).found@ == p.found(k)
                    &&& scans[k].stays == p.stays(k)
                    &&& scans[k].known == p.jumps[k].known()
                },
        decreases instrs.len() - j,
    {
        scans.push(scan(instrs, jumps, j));
        j += 1;
    }
    let mut r: Vec<PageInstrWithEdges> = Vec::new();
    let mut blocks: usize = 0;
    let mut i: usize = 0;
    while i < instrs.len()
        invariant
            p == page(instrs, jumps),
            p.wf(),
            i <= instrs.len(),
            r.len() == i,
            scans.len() == instrs.len(),
            blocks <= i,
            blocks == p.blocks_below(i as int),
            forall|k: int|
                0 <= k < scans.len() ==> {
                    &&& (#[trigger] scans[k]).found@ == p.found(k)
                    &&& scans[k].stays == p.stays(k)
                    &&& scans[k].known == p.jumps[k].known()
                },
            forall|k: int| 0 <= k < i ==> p.has_edges(k, #[trigger] r[k]),
        decreases instrs.len() - i,
    {
        let mut preds: Vec<usize> = Vec::new();
        let mut split_by: bool = false;
        let mut j: usize = 0;
        while j < instrs.len()
            invariant
                p == page(instrs, jumps),
                p.wf(),
                i < instrs.len(),
                j <= instrs.len(),
                scans.len() == instrs.len(),
                forall|k: int|
                    0 <= k < scans.len() ==> {
                        &&& (#[trigger] scans[k]).found@ == p.found(k)
                        &&& scans[k].stays == p.stays(k)
                        &&& scans[k].known == p.jumps[k].known()
                    },
                preds@ == p.preds(i as int, j as int),
                split_by == p.split_by(i as int, j as int),
            decreases instrs.len() - j,
        {
            let s = &scans[j];
            assert(s.found@ == p.found(j as int));
            let leads = holds(&s.found, i);
            if leads && (jumps[j].invokes_handler || s.found.len() > 1 || !s.stays) {
                split_by = true;
                assert(p.breaks(j as int) && p.found(j as int).contains(i as int as usize));
            }
            if leads && !jumps[j].invokes_handler {
                preds.push(j);
            }
            j += 1;
        }
        let make_split_point = instrs[i].is_entry || split_by;
        let mut block_index: Option<usize> = None;
        if make_split_point || preds.len() > 1 {
            block_index = Some(blocks);
            blocks += 1;
        }
        let succs = if jumps[i].invokes_handler {
            Vec::new()
        } else {
            copied(&scans[i].found)
        };
        assert(succs@ =~= p.succs(i as int));
        r.push(
            PageInstrWithEdges {
                preds,
                succs,
                make_split_point,
                block_index,
                may_jump_to_out_of_page_instr: !scans[i].stays,
                may_jump_to_unknown_offset: !scans[i].known,
            },
        );
        i += 1;
    }
    r
}

} // verus!
