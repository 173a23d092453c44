//! Code for single encodings, compiled when it is first needed.
use vstd::prelude::*;

use crate::system::SegmentSizes;

verus! {

/// A function that was compiled, and the memory that all code takes after that.
#[derive(Copy, Clone, Debug, PartialEq, Eq, Structural)]
pub struct Compiled {
    /// The address of the function.
    pub function: usize,
    pub memory_usage: usize,
}

/// The functions that are compiled for each encoding, in four variants.
#[derive(Debug)]
pub struct SingleEncodingExecution {
    functions_ready: Vec<Option<usize>>,
    num_encodings: usize,
    num_compiled: usize,
    memory_usage: usize,
}

/// The number of functions that are there.
pub open spec fn count_ready(functions: Seq<Option<usize>>) -> nat
    decreases functions.len(),
{
    if functions.len() == 0 {
        0
    } else {
        count_ready(functions.drop_last()) + if functions.last() is Some {
            1nat
        } else {
            0nat
        }
    }
}

proof fn lemma_count_added(functions: Seq<Option<usize>>, i: int, f: usize)
    requires
        0 <= i < functions.len(),
        functions[i] is None,
    ensures
        count_ready(functions.update(i, Some(f))) == count_ready(functions) + 1,
        count_ready(functions) < functions.len(),
    decreases functions.len(),
{
    let after = functions.update(i, Some(f));
    if i == functions.len() - 1 {
        assert(after.drop_last() =~= functions.drop_last());
        lemma_count_bounded(functions.drop_last());
    } else {
        assert(after.drop_last() =~= functions.drop_last().update(i, Some(f)));
        lemma_count_added(functions.drop_last(), i, f);
    }
}

proof fn lemma_count_bounded(functions: Seq<Option<usize>>)
    ensures
        count_ready(functions) <= functions.len(),
    decreases functions.len(),
{
    if functions.len() > 0 {
        lemma_count_bounded(functions.drop_last());
    }
}

/// The variant for a mode of the processor.
pub open spec fn variant(protected_mode_memory_accesses: bool, sizes: SegmentSizes) -> int {
    (if sizes.has_cs32() {
        2int
    } else {
        0
    }) + if protected_mode_memory_accesses {
        1int
    } else {
        0
    }
}

impl SingleEncodingExecution {
    pub closed spec fn wf(&self) -> bool {
        &&& self.functions_ready.len() == 4 * self.num_encodings
        &&& self.num_compiled == count_ready(self.functions_ready@)
    }

    /// The number of encodings.
    pub closed spec fn encodings(&self) -> nat {
        self.num_encodings as nat
    }

    /// All functions, those of one variant after those of another.
    pub closed spec fn functions(&self) -> Seq<Option<usize>> {
        self.functions_ready@
    }

    /// The function of an encoding for a mode of the processor.
    pub open spec fn ready(&self, index: usize, protected: bool, sizes: SegmentSizes) -> Option<
        usize,
    > {
        self.functions()[variant(protected, sizes) * self.encodings() + index]
    }

    pub closed spec fn memory(&self) -> usize {
        self.memory_usage
    }

    /// A table without any function.
    pub fn new(num_encodings: usize) -> (r: Self)
        requires
            num_encodings <= usize::MAX / 4,
        ensures
            r.wf(),
            r.encodings() == num_encodings,
            r.functions() == Seq::new(4 * num_encodings as nat, |i: int| None::<usize>),
            r.memory() == 0,
    {
        let mut functions_ready: Vec<Option<usize>> = Vec::new();
        while functions_ready.len() < 4 * num_encodings
            invariant
                num_encodings <= usize::MAX / 4,
                functions_ready.len() <= 4 * num_encodings,
                count_ready(functions_ready@) == 0,
                forall|i: int| 0 <= i < functions_ready.len() ==> #[trigger] functions_ready[i] is None,
            decreases 4 * num_encodings - functions_ready.len(),
        {
            let ghost before = functions_ready@;
            functions_ready.push(None);
            assert(functions_ready@.drop_last() =~= before);
        }
        assert(functions_ready@ =~= Seq::new(4 * num_encodings as nat, |i: int| None::<usize>));
        Self { functions_ready, num_encodings, num_compiled: 0, memory_usage: 0 }
    }

    /// The function of an encoding, which is compiled if it is not there.
    pub fn get_or_build<F: FnOnce() -> Compiled>(
        &mut self,
        index: usize,
        protected_mode_memory_accesses: bool,
        segment_sizes: SegmentSizes,
        compile: F,
    ) -> (r: usize)
        requires
            old(self).wf(),
            index < old(self).encodings(),
            compile.requires(()),
        ensures
            final(self).wf(),
            final(self).encodings() == old(self).encodings(),
            match old(self).ready(index, protected_mode_memory_accesses, segment_sizes) {
                Some(f) => r == f && *final(self) == *old(self),
                None => exists|c: Compiled| #[trigger]
                    compile.ensures((), c) && r == c.function && final(self).memory()
                        == c.memory_usage && final(self).functions() == old(
                        self,
                    ).functions().update(
                        variant(protected_mode_memory_accesses, segment_sizes) * old(
                            self,
                        ).encodings() + index,
                        Some(c.function),
                    ),
            },
    {
        let mut key: usize = 0;
        if segment_sizes.is_cs32() {
            key += 2;
        }
        if protected_mode_memory_accesses {
            key += 1;
        }
        let n: usize = self.num_encodings;
        assert(key * n + index < 4 * n) by (nonlinear_arith)
            requires
                key <= 3,
                index < n,
        ;
        assert(key * n <= 4 * n) by (nonlinear_arith)
            requires
                key <= 3,
        ;
        assert(key == variant(protected_mode_memory_accesses, segment_sizes));
        let place: usize = key * n + index;
        match self.functions_ready[place] {
            Some(f) => f,
            None => {
                let c = compile();
                proof {
                    lemma_count_added(self.functions_ready@, place as int, c.function);
                }
                self.num_compiled = self.num_compiled + 1;
                self.memory_usage = c.memory_usage;
                self.functions_ready.set(place, Some(c.function));
                c.function
            },
        }
    }

    /// The number of functions that are compiled.
    pub fn num_compiled(&self) -> (r: usize)
        requires
            self.wf(),
        ensures
            r == count_ready(self.functions()),
    {
        self.num_compiled
    }

    /// The memory that the code takes.
    pub fn memory_usage(&self) -> (r: usize)
        ensures
            r == self.memory(),
    {
        self.memory_usage
    }
}

/// Each encoding has a function of its own for each mode: no two of them share a place.
pub proof fn modes_have_their_own_functions(
    n: int,
    index: int,
    protected: bool,
    sizes: SegmentSizes,
    other_index: int,
    other_protected: bool,
    other_sizes: SegmentSizes,
)
    requires
        0 <= index < n,
        0 <= other_index < n,
        variant(protected, sizes) * n + index == variant(other_protected, other_sizes) * n
            + other_index,
    ensures
        index == other_index,
        protected == other_protected,
        sizes.has_cs32() == other_sizes.has_cs32(),
{
    let (a, b): (int, int) = (variant(protected, sizes), variant(other_protected, other_sizes));
    assert(a == b) by (nonlinear_arith)
        requires
            0 <= index < n,
            0 <= other_index < n,
            a * n + index == b * n + other_index,
    ;
}

} // verus!
