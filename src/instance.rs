//! A mock instance: the assembled registries of all mocked operations,
//! the shared call index of strict order, and the fallback mode.
use vstd::prelude::*;

use crate::error::MockError;
use crate::counter::Exactness;
use crate::mock::{
    assemble_step, lemma_assemble_step_registry, lemma_never_called, lemma_registry_index_cases,
    placed_patterns, ranges_of, registry_failures, registry_index, views, AssembleError,
    CallIndexRange, CallPattern, FallbackMode, MockAssembler, PatternMatchMode, RegistryView,
    TypedMockImpl,
};

verus! {

/// The registries and next shared call index after the declarations
/// `incoming` were assembled one after the other, or the first error.
pub open spec fn assemble_all<M, V, D>(
    impls: Seq<RegistryView<M, V, D>>,
    index: usize,
    incoming: Seq<RegistryView<M, V, D>>,
) -> Result<(Seq<RegistryView<M, V, D>>, usize), AssembleError>
    decreases incoming.len(),
{
    if incoming.len() == 0 {
        Ok((impls, index))
    } else {
        match assemble_step(impls, index, incoming[0]) {
            Ok((next_impls, next_index)) => assemble_all(next_impls, next_index, incoming.drop_first()),
            Err(e) => Err(e),
        }
    }
}

/// The verification failures of all registries, in order.
pub open spec fn all_failures<M, V, D>(impls: Seq<RegistryView<M, V, D>>) -> Seq<MockError>
    decreases impls.len(),
{
    if impls.len() == 0 {
        Seq::empty()
    } else {
        all_failures(impls.drop_last()) + registry_failures(impls.last())
    }
}

/// A declaration that can be assembled: in strict order it holds one
/// pattern.
pub open spec fn is_assemblable<M, V, D>(clause: TypedMockImpl<M, V, D>) -> bool {
    clause.kind == PatternMatchMode::StrictCallOrder ==> clause.patterns@.len() == 1
}

/// A mock instance.
#[derive(Debug)]
pub struct Unimock<M, V, D> {
    pub impls: Vec<TypedMockImpl<M, V, D>>,
    /// The index of the next call of a strictly ordered operation.
    pub call_index: usize,
    pub fallback_mode: FallbackMode,
}

impl<M, V, D> Unimock<M, V, D> {
    /// Assembles the declarations, in order, into a fresh mock instance.
    pub fn new(clauses: Vec<TypedMockImpl<M, V, D>>, fallback_mode: FallbackMode) -> (r: Result<
        Self,
        AssembleError,
    >)
        requires
            forall|i: int| 0 <= i < clauses@.len() ==> is_assemblable(#[trigger] clauses@[i]),
        ensures
            match assemble_all(Seq::empty(), 0, views(clauses@)) {
                Ok((impls, index)) => match r {
                    Ok(u) => {
                        &&& views(u.impls@) == impls
                        &&& u.call_index == 0
                        &&& u.fallback_mode == fallback_mode
                        &&& strict_ranges_ordered(impls, index)
                    },
                    Err(_) => false,
                },
                Err(e) => r == Err::<Self, AssembleError>(e),
            },
    {
        proof {
            let decls = views(clauses@);
            assert forall|i: int|
                0 <= i < decls.len() && (#[trigger] decls[i]).kind
                    == PatternMatchMode::StrictCallOrder implies decls[i].patterns.len() == 1 by {
                assert(is_assemblable(clauses@[i]));
            }
            lemma_assembly_orders_ranges(Seq::<RegistryView<M, V, D>>::empty(), 0, decls);
        }
        let mut assembler = MockAssembler::new();
        let mut rest = clauses;
        assert(views(assembler.impls@) =~= Seq::<RegistryView<M, V, D>>::empty());
        while rest.len() > 0
            invariant
                forall|i: int| 0 <= i < rest@.len() ==> is_assemblable(#[trigger] rest@[i]),
                assemble_all(Seq::empty(), 0, views(clauses@)) == assemble_all(
                    views(assembler.impls@),
                    assembler.current_call_index,
                    views(rest@),
                ),
            decreases rest@.len(),
        {
            let ghost before = rest@;
            let clause = rest.remove(0);
            assert(views(before).drop_first() =~= views(rest@));
            assert(views(before)[0] == clause@);
            match clause.assemble_into(&mut assembler) {
                Ok(()) => {},
                Err(e) => {
                    return Err(e);
                },
            }
        }
        Ok(Unimock { impls: assembler.impls, call_index: 0, fallback_mode })
    }

    /// Everything that the declarations required and the calls did not
    /// give: run once, after the last call.
    pub fn verify(&self) -> (r: Vec<MockError>)
        ensures
            r@ == all_failures(views(self.impls@)),
    {
        let mut errors: Vec<MockError> = Vec::new();
        let n = self.impls.len();
        let mut k: usize = 0;
        while k < n
            invariant
                n == self.impls@.len(),
                k <= n,
                errors@ == all_failures(views(self.impls@).subrange(0, k as int)),
            decreases n - k,
        {
            self.impls[k].verify(&mut errors);
            let ghost upto = views(self.impls@).subrange(0, k + 1);
            assert(upto.drop_last() =~= views(self.impls@).subrange(0, k as int));
            k = k + 1;
        }
        assert(views(self.impls@).subrange(0, n as int) =~= views(self.impls@));
        errors
    }
}

/// The patterns that the operation `id` has in `impls`: none where it has
/// no registry.
pub open spec fn patterns_of<M, V, D>(impls: Seq<RegistryView<M, V, D>>, id: u64) -> Seq<
    CallPattern<M, V>,
> {
    let k = registry_index(impls, id);
    if k < impls.len() {
        impls[k].patterns
    } else {
        Seq::empty()
    }
}

/// Assembling two independently built cascading declarations of the same
/// operation leaves its registry with the patterns it had, then those of
/// the first declaration, then those of the second, in declaration order.
pub proof fn lemma_assemble_concatenates<M, V, D>(
    impls: Seq<RegistryView<M, V, D>>,
    index: usize,
    first: RegistryView<M, V, D>,
    second: RegistryView<M, V, D>,
)
    requires
        first.fn_id == second.fn_id,
        first.kind == PatternMatchMode::FullCascadeForEveryCall,
        second.kind == PatternMatchMode::FullCascadeForEveryCall,
        registry_index(impls, first.fn_id) < impls.len() ==> impls[registry_index(
            impls,
            first.fn_id,
        )].kind == PatternMatchMode::FullCascadeForEveryCall,
    ensures
        match assemble_all(impls, index, seq![first, second]) {
            Ok((new_impls, new_index)) => {
                &&& new_index == index
                &&& registry_index(new_impls, first.fn_id) < new_impls.len()
                &&& patterns_of(new_impls, first.fn_id) == patterns_of(impls, first.fn_id)
                    + first.patterns + second.patterns
            },
            Err(_) => false,
        },
{
    reveal_with_fuel(assemble_all, 3);
    let id = first.fn_id;
    lemma_registry_index_cases(impls, id);
    let mid = assemble_step(impls, index, first)->Ok_0.0;
    lemma_assemble_step_registry(impls, index, first);
    lemma_registry_index_cases(mid, id);
    let last = assemble_step(mid, index, second)->Ok_0.0;
    lemma_assemble_step_registry(mid, index, second);
    assert(seq![first, second].drop_first() =~= seq![second]);
    assert(seq![second].drop_first() =~= Seq::<RegistryView<M, V, D>>::empty());
    assert(patterns_of(last, id) =~= patterns_of(impls, id) + first.patterns + second.patterns);
}

/// Assembling three strictly ordered declarations of one operation,
/// quantified exactly `a`, `b` and `c` times, into a fresh mock gives one
/// registry whose patterns take the call ranges `[0, a)`, `[a, a + b)` and
/// `[a + b, a + b + c)`, in that order.
pub proof fn lemma_strict_ranges<M, V, D>(
    first: RegistryView<M, V, D>,
    second: RegistryView<M, V, D>,
    third: RegistryView<M, V, D>,
)
    requires
        first.fn_id == second.fn_id,
        first.fn_id == third.fn_id,
        first.kind == PatternMatchMode::StrictCallOrder,
        second.kind == PatternMatchMode::StrictCallOrder,
        third.kind == PatternMatchMode::StrictCallOrder,
        first.patterns.len() == 1,
        second.patterns.len() == 1,
        third.patterns.len() == 1,
        first.patterns[0].call_counter.expectation.exactness == Exactness::Exact,
        second.patterns[0].call_counter.expectation.exactness == Exactness::Exact,
        third.patterns[0].call_counter.expectation.exactness == Exactness::Exact,
        first.patterns[0].call_counter.expectation.count + second.patterns[0].call_counter.expectation.count
            + third.patterns[0].call_counter.expectation.count <= usize::MAX,
    ensures
        ({
            let a = first.patterns[0].call_counter.expectation.count;
            let b = second.patterns[0].call_counter.expectation.count;
            let c = third.patterns[0].call_counter.expectation.count;
            match assemble_all(Seq::empty(), 0, seq![first, second, third]) {
                Ok((impls, index)) => {
                    &&& impls.len() == 1
                    &&& index == a + b + c
                    &&& ranges_of(impls[0].patterns) == seq![
                        CallIndexRange { start: 0, end: a },
                        CallIndexRange { start: a, end: (a + b) as usize },
                        CallIndexRange { start: (a + b) as usize, end: (a + b + c) as usize },
                    ]
                },
                Err(_) => false,
            }
        }),
{
    reveal_with_fuel(assemble_all, 4);
    let id = first.fn_id;
    let empty = Seq::<RegistryView<M, V, D>>::empty();
    lemma_registry_index_cases(empty, id);
    let s1 = assemble_step(empty, 0, first)->Ok_0.0;
    let i1 = assemble_step(empty, 0, first)->Ok_0.1;
    lemma_assemble_step_registry(empty, 0, first);
    let s2 = assemble_step(s1, i1, second)->Ok_0.0;
    let i2 = assemble_step(s1, i1, second)->Ok_0.1;
    lemma_assemble_step_registry(s1, i1, second);
    let s3 = assemble_step(s2, i2, third)->Ok_0.0;
    lemma_assemble_step_registry(s2, i2, third);
    let all = seq![first, second, third];
    assert(all.drop_first() =~= seq![second, third]);
    assert(seq![second, third].drop_first() =~= seq![third]);
    assert(seq![third].drop_first() =~= empty);
    let a = first.patterns[0].call_counter.expectation.count;
    let b = second.patterns[0].call_counter.expectation.count;
    let c = third.patterns[0].call_counter.expectation.count;
    assert(ranges_of(s3[0].patterns) =~= seq![
        CallIndexRange { start: 0, end: a },
        CallIndexRange { start: a, end: (a + b) as usize },
        CallIndexRange { start: (a + b) as usize, end: (a + b + c) as usize },
    ]);
}

/// Registries that were only assembled have never been called: each
/// fails verification as never called until its operation is called.
pub proof fn lemma_assembled_uncalled<M, V, D>(
    impls: Seq<RegistryView<M, V, D>>,
    index: usize,
    incoming: Seq<RegistryView<M, V, D>>,
)
    requires
        forall|k: int| 0 <= k < impls.len() ==> !(#[trigger] impls[k]).has_applications,
    ensures
        assemble_all(impls, index, incoming) is Ok ==> {
            let new_impls = assemble_all(impls, index, incoming)->Ok_0.0;
            forall|k: int|
                0 <= k < new_impls.len() ==> {
                    &&& !(#[trigger] new_impls[k]).has_applications
                    &&& registry_failures(new_impls[k]).last() == (MockError::MockNeverCalled {
                        name: new_impls[k].name,
                    })
                }
        },
    decreases incoming.len(),
{
    if incoming.len() > 0 {
        if let Ok((next_impls, next_index)) = assemble_step(impls, index, incoming[0]) {
            lemma_registry_index_cases(impls, incoming[0].fn_id);
            assert forall|k: int| 0 <= k < next_impls.len() implies !(
            #[trigger] next_impls[k]).has_applications by {}
            lemma_assembled_uncalled(next_impls, next_index, incoming.drop_first());
        }
    } else {
        assert forall|k: int| 0 <= k < impls.len() implies registry_failures(
            #[trigger] impls[k],
        ).last() == (MockError::MockNeverCalled { name: impls[k].name }) by {
            lemma_never_called(impls[k]);
        }
    }
}

/// The ranges of `ps` follow each other in declaration order, without
/// overlap, and end at `index` or before.
pub open spec fn ranges_ordered_below<M, V>(ps: Seq<CallPattern<M, V>>, index: usize) -> bool {
    &&& forall|a: int|
        0 <= a < ps.len() ==> (#[trigger] ps[a]).call_index_range.start
            <= ps[a].call_index_range.end <= index
    &&& forall|a: int, b: int|
        0 <= a < b < ps.len() ==> (#[trigger] ps[a]).call_index_range.end <= (
        #[trigger] ps[b]).call_index_range.start
}

/// Every strictly ordered registry has its ranges in order, below the
/// next shared call index `index`.
pub open spec fn strict_ranges_ordered<M, V, D>(impls: Seq<RegistryView<M, V, D>>, index: usize) -> bool {
    forall|k: int|
        0 <= k < impls.len() && (#[trigger] impls[k]).kind == PatternMatchMode::StrictCallOrder
            ==> ranges_ordered_below(impls[k].patterns, index)
}

proof fn lemma_ordered_below_grows<M, V>(ps: Seq<CallPattern<M, V>>, index: usize, next: usize)
    requires
        ranges_ordered_below(ps, index),
        index <= next,
    ensures
        ranges_ordered_below(ps, next),
{
}

proof fn lemma_assemble_step_keeps_order<M, V, D>(
    impls: Seq<RegistryView<M, V, D>>,
    index: usize,
    incoming: RegistryView<M, V, D>,
)
    requires
        strict_ranges_ordered(impls, index),
        incoming.kind == PatternMatchMode::StrictCallOrder ==> incoming.patterns.len() == 1,
        assemble_step(impls, index, incoming) is Ok,
    ensures
        strict_ranges_ordered(
            assemble_step(impls, index, incoming)->Ok_0.0,
            assemble_step(impls, index, incoming)->Ok_0.1,
        ),
{
    let id = incoming.fn_id;
    let k = registry_index(impls, id);
    lemma_registry_index_cases(impls, id);
    let new_impls = assemble_step(impls, index, incoming)->Ok_0.0;
    let next = assemble_step(impls, index, incoming)->Ok_0.1;
    let count = incoming.patterns[0].call_counter.expectation.count;
    let placed = placed_patterns(incoming.patterns, incoming.kind, index, count);
    assert forall|j: int|
        0 <= j < new_impls.len() && (#[trigger] new_impls[j]).kind == PatternMatchMode::StrictCallOrder
            implies ranges_ordered_below(new_impls[j].patterns, next) by {
        if j < impls.len() && j != k {
            lemma_ordered_below_grows(impls[j].patterns, index, next);
        } else if j == k && k < impls.len() {
            let ps = impls[k].patterns;
            lemma_ordered_below_grows(ps, index, next);
            assert(new_impls[j].patterns == ps + placed);
            assert(placed.len() == 1);
            assert forall|a: int, b: int|
                0 <= a < b < (ps + placed).len() implies (#[trigger] (ps + placed)[a]).call_index_range.end
                <= (#[trigger] (ps + placed)[b]).call_index_range.start by {
                if b == ps.len() {
                    assert((ps + placed)[b] == placed[0]);
                }
            }
        }
    }
}

/// Assembly keeps the ranges of every strictly ordered registry in
/// declaration order, without overlap, and below the next shared call
/// index.
pub proof fn lemma_assembly_orders_ranges<M, V, D>(
    impls: Seq<RegistryView<M, V, D>>,
    index: usize,
    incoming: Seq<RegistryView<M, V, D>>,
)
    requires
        strict_ranges_ordered(impls, index),
        forall|i: int|
            0 <= i < incoming.len() && (#[trigger] incoming[i]).kind
                == PatternMatchMode::StrictCallOrder ==> incoming[i].patterns.len() == 1,
    ensures
        assemble_all(impls, index, incoming) is Ok ==> strict_ranges_ordered(
            assemble_all(impls, index, incoming)->Ok_0.0,
            assemble_all(impls, index, incoming)->Ok_0.1,
        ),
    decreases incoming.len(),
{
    if incoming.len() > 0 {
        if let Ok((next_impls, next_index)) = assemble_step(impls, index, incoming[0]) {
            lemma_assemble_step_keeps_order(impls, index, incoming[0]);
            let rest = incoming.drop_first();
            assert forall|i: int|
                0 <= i < rest.len() && (#[trigger] rest[i]).kind == PatternMatchMode::StrictCallOrder
                    implies rest[i].patterns.len() == 1 by {
                assert(rest[i] == incoming[i + 1]);
            }
            lemma_assembly_orders_ranges(next_impls, next_index, rest);
        }
    }
}

} // verus!
