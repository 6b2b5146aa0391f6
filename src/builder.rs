//! The fluent declaration of call patterns: pick a pattern, define its
//! responses, quantify them, chain further responses, and finish it into
//! a declaration that can be assembled.
use vstd::prelude::*;

use crate::counter::{CallCountExpectation, Exactness};
use crate::mock::{
    is_selected_responder, AssembleError, CallIndexRange, CallOrderResponder, CallPattern,
    InputDebugger, PatternMatchMode, Responder, TypedMockImpl,
};

verus! {

/// One call pattern under construction.
#[derive(Debug)]
pub struct DynCallPatternBuilder<M, V> {
    pub pattern_match_mode: PatternMatchMode,
    pub input_matcher: M,
    pub responders: Vec<CallOrderResponder<V>>,
    pub count_expectation: CallCountExpectation,
    /// The call index from which the next responder applies.
    pub current_response_index: usize,
}

impl<M, V> DynCallPatternBuilder<M, V> {
    pub fn new(pattern_match_mode: PatternMatchMode, input_matcher: M) -> (r: Self)
        ensures
            r.pattern_match_mode == pattern_match_mode,
            r.input_matcher == input_matcher,
            r.responders@.len() == 0,
            r.count_expectation == CallCountExpectation::new_spec(),
            r.current_response_index == 0,
    {
        DynCallPatternBuilder {
            pattern_match_mode,
            input_matcher,
            responders: Vec::new(),
            count_expectation: CallCountExpectation::new(),
            current_response_index: 0,
        }
    }

    /// Appends a responder that applies from the current response index on.
    pub fn push_responder(&mut self, responder: Responder<V>)
        ensures
            final(self).responders@ == old(self).responders@.push(
                CallOrderResponder { response_index: old(self).current_response_index, responder },
            ),
            final(self).pattern_match_mode == old(self).pattern_match_mode,
            final(self).input_matcher == old(self).input_matcher,
            final(self).count_expectation == old(self).count_expectation,
            final(self).current_response_index == old(self).current_response_index,
    {
        let response_index = self.current_response_index;
        self.responders.push(CallOrderResponder { response_index, responder });
    }

    /// Declares that the last responder answers `times` calls: they count
    /// towards the pattern's expected calls, and the next responder
    /// applies after them.
    pub fn quantify(&mut self, times: usize, exactness: Exactness)
        requires
            old(self).count_expectation.count + times <= usize::MAX,
            old(self).current_response_index + times <= usize::MAX,
        ensures
            final(self).count_expectation == (CallCountExpectation {
                count: (old(self).count_expectation.count + times) as usize,
                exactness,
            }),
            final(self).current_response_index == old(self).current_response_index + times,
            final(self).responders == old(self).responders,
            final(self).pattern_match_mode == old(self).pattern_match_mode,
            final(self).input_matcher == old(self).input_matcher,
    {
        self.count_expectation.add_to_minimum(times, exactness);
        self.current_response_index = self.current_response_index + times;
    }

    /// The finished pattern, as the one pattern of a declaration of the
    /// operation `fn_id`.
    pub fn into_declaration<D>(self, fn_id: u64, name: String, input_debugger: InputDebugger<D>) -> (r:
        TypedMockImpl<M, V, D>)
        ensures
            r.fn_id == fn_id,
            r.name == name,
            r.input_debugger == input_debugger,
            r.kind == self.pattern_match_mode,
            !r.has_applications,
            r.patterns@ == seq![
                CallPattern {
                    input_matcher: self.input_matcher,
                    call_index_range: CallIndexRange { start: 0, end: 0 },
                    call_counter: self.count_expectation.into_counter_spec(),
                    responders: self.responders,
                },
            ],
    {
        let DynCallPatternBuilder {
            pattern_match_mode,
            input_matcher,
            responders,
            count_expectation,
            current_response_index: _,
        } = self;
        let mut declaration = TypedMockImpl::with_input_debugger(
            fn_id,
            name,
            input_debugger,
            pattern_match_mode,
        );
        declaration.patterns.push(
            CallPattern {
                input_matcher,
                call_index_range: CallIndexRange { start: 0, end: 0 },
                call_counter: count_expectation.into_counter(),
                responders,
            },
        );
        assert(declaration.patterns@ =~= seq![
            CallPattern {
                input_matcher: self.input_matcher,
                call_index_range: CallIndexRange { start: 0, end: 0 },
                call_counter: self.count_expectation.into_counter_spec(),
                responders: self.responders,
            },
        ]);
        declaration
    }
}

/// A call pattern whose next response is to be defined.
#[derive(Debug)]
pub struct DefineResponse<M, V> {
    pub builder: DynCallPatternBuilder<M, V>,
}

/// A call pattern whose last response is to be quantified.
#[derive(Debug)]
pub struct Quantify<M, V> {
    pub builder: DynCallPatternBuilder<M, V>,
}

/// A call pattern whose last response is quantified, exactly or not.
#[derive(Debug)]
pub struct QuantifiedResponse<M, V> {
    pub builder: DynCallPatternBuilder<M, V>,
    pub exact: bool,
}

/// A new pattern matched in strict call order.
pub fn next_call<M, V>(input_matcher: M) -> (r: DefineResponse<M, V>)
    ensures
        r.builder@ == BuilderView::<M, V>::fresh(
            PatternMatchMode::StrictCallOrder,
            input_matcher,
        ),
{
    DefineResponse::with_owned_builder(input_matcher, PatternMatchMode::StrictCallOrder)
}

/// A new pattern matched in cascade, on every call.
pub fn each_call<M, V>(input_matcher: M) -> (r: DefineResponse<M, V>)
    ensures
        r.builder@ == BuilderView::<M, V>::fresh(
            PatternMatchMode::FullCascadeForEveryCall,
            input_matcher,
        ),
{
    DefineResponse::with_owned_builder(input_matcher, PatternMatchMode::FullCascadeForEveryCall)
}

/// The value of a pattern builder, with its responders as a sequence.
pub struct BuilderView<M, V> {
    pub pattern_match_mode: PatternMatchMode,
    pub input_matcher: M,
    pub responders: Seq<CallOrderResponder<V>>,
    pub count_expectation: CallCountExpectation,
    pub current_response_index: usize,
}

impl<M, V> View for DynCallPatternBuilder<M, V> {
    type V = BuilderView<M, V>;

    open spec fn view(&self) -> BuilderView<M, V> {
        BuilderView {
            pattern_match_mode: self.pattern_match_mode,
            input_matcher: self.input_matcher,
            responders: self.responders@,
            count_expectation: self.count_expectation,
            current_response_index: self.current_response_index,
        }
    }
}

impl<M, V> BuilderView<M, V> {
    /// A fresh builder: no responders, no calls required.
    pub open spec fn fresh(pattern_match_mode: PatternMatchMode, input_matcher: M) -> Self {
        BuilderView {
            pattern_match_mode,
            input_matcher,
            responders: Seq::empty(),
            count_expectation: CallCountExpectation::new_spec(),
            current_response_index: 0,
        }
    }

    /// The builder after `responder` was appended at the current index.
    pub open spec fn with_responder(self, responder: Responder<V>) -> Self {
        BuilderView {
            responders: self.responders.push(
                CallOrderResponder { response_index: self.current_response_index, responder },
            ),
            ..self
        }
    }

    /// The builder after its last response was quantified.
    pub open spec fn quantified(self, times: usize, exactness: Exactness) -> Self {
        BuilderView {
            count_expectation: CallCountExpectation {
                count: (self.count_expectation.count + times) as usize,
                exactness,
            },
            current_response_index: (self.current_response_index + times) as usize,
            ..self
        }
    }

    /// A quantity of `times` more calls can be counted.
    pub open spec fn can_quantify(self, times: usize) -> bool {
        &&& self.count_expectation.count + times <= usize::MAX
        &&& self.current_response_index + times <= usize::MAX
    }
}

impl<M, V> DefineResponse<M, V> {
    /// A new pattern that owns its builder.
    pub fn with_owned_builder(input_matcher: M, pattern_match_mode: PatternMatchMode) -> (r: Self)
        ensures
            r.builder@ == BuilderView::<M, V>::fresh(pattern_match_mode, input_matcher),
    {
        let builder = DynCallPatternBuilder::new(pattern_match_mode, input_matcher);
        assert(builder.responders@ =~= Seq::<CallOrderResponder<V>>::empty());
        DefineResponse { builder }
    }

    /// Answers the next calls with `responder`.
    pub fn responds_with(self, responder: Responder<V>) -> (r: Quantify<M, V>)
        ensures
            r.builder@ == self.builder@.with_responder(responder),
    {
        let mut builder = self.builder;
        builder.push_responder(responder);
        Quantify { builder }
    }

    /// Answers the next calls with the output that `producer` gives.
    pub fn returns_value(self, producer: V) -> (r: Quantify<M, V>)
        ensures
            r.builder@ == self.builder@.with_responder(Responder::Closure(producer)),
    {
        self.responds_with(Responder::Closure(producer))
    }

    /// Answers the next calls with a reference, for the whole program,
    /// that `producer` gives.
    pub fn returns_static(self, producer: V) -> (r: Quantify<M, V>)
        ensures
            r.builder@ == self.builder@.with_responder(Responder::StaticRefClosure(producer)),
    {
        self.responds_with(Responder::StaticRefClosure(producer))
    }

    /// Answers the next calls with a reference to `value`, which the
    /// pattern keeps.
    pub fn returns_ref(self, value: V) -> (r: Quantify<M, V>)
        ensures
            r.builder@ == self.builder@.with_responder(Responder::Borrowable(value)),
    {
        self.responds_with(Responder::Borrowable(value))
    }

    /// Fails the next calls with `message`.
    pub fn panics(self, message: String) -> (r: Quantify<M, V>)
        ensures
            r.builder@ == self.builder@.with_responder(Responder::Panic(message)),
    {
        self.responds_with(Responder::Panic(message))
    }

    /// Hands the next calls to the operation's real implementation.
    pub fn unmocked(self) -> (r: Quantify<M, V>)
        ensures
            r.builder@ == self.builder@.with_responder(Responder::Unmock),
    {
        self.responds_with(Responder::Unmock)
    }
}

impl<M, V> Quantify<M, V> {
    /// The last response answers exactly one call.
    pub fn once(self) -> (r: QuantifiedResponse<M, V>)
        requires
            self.builder@.can_quantify(1),
        ensures
            r.builder@ == self.builder@.quantified(1, Exactness::Exact),
            r.exact,
    {
        self.n_times(1)
    }

    /// The last response answers exactly `times` calls.
    pub fn n_times(self, times: usize) -> (r: QuantifiedResponse<M, V>)
        requires
            self.builder@.can_quantify(times),
        ensures
            r.builder@ == self.builder@.quantified(times, Exactness::Exact),
            r.exact,
    {
        let mut builder = self.builder;
        builder.quantify(times, Exactness::Exact);
        QuantifiedResponse { builder, exact: true }
    }

    /// The last response answers at least `times` calls, and every later
    /// one. Only a cascading pattern can be quantified so: strict order
    /// needs exact counts.
    pub fn at_least_times(self, times: usize) -> (r: QuantifiedResponse<M, V>)
        requires
            self.builder@.can_quantify(times),
            self.builder.pattern_match_mode == PatternMatchMode::FullCascadeForEveryCall,
        ensures
            r.builder@ == self.builder@.quantified(times, Exactness::AtLeast),
            !r.exact,
    {
        let mut builder = self.builder;
        builder.quantify(times, Exactness::AtLeast);
        QuantifiedResponse { builder, exact: false }
    }

    /// The finished pattern. A response left unquantified answers every
    /// call from its index on; in strict order it answers exactly one.
    pub fn finish(self) -> (r: DynCallPatternBuilder<M, V>)
        requires
            self.builder@.can_quantify(1),
        ensures
            r@ == if self.builder.pattern_match_mode == PatternMatchMode::StrictCallOrder {
                self.builder@.quantified(1, Exactness::Exact)
            } else {
                self.builder@
            },
    {
        let mut builder = self.builder;
        if builder.pattern_match_mode == PatternMatchMode::StrictCallOrder {
            builder.quantify(1, Exactness::Exact);
        }
        builder
    }
}

impl<M, V> QuantifiedResponse<M, V> {
    /// Opens the next response, which applies once the exactly quantified
    /// ones before it are used up. The pattern is then expected to be
    /// matched at least once more than those: a response chain is there
    /// to be reached.
    pub fn then(self) -> (r: DefineResponse<M, V>)
        requires
            self.exact,
        ensures
            r.builder@ == self.builder@.quantified(0, Exactness::AtLeastPlusOne),
    {
        let mut builder = self.builder;
        builder.count_expectation.add_to_minimum(0, Exactness::AtLeastPlusOne);
        DefineResponse { builder }
    }

    /// The finished pattern.
    pub fn finish(self) -> (r: DynCallPatternBuilder<M, V>)
        ensures
            r == self.builder,
    {
        self.builder
    }
}

/// A series of cascading call patterns for one operation, matched in the
/// order they were declared.
#[derive(Debug)]
pub struct Each<M, V> {
    pub patterns: Vec<DynCallPatternBuilder<M, V>>,
}

impl<M, V> Each<M, V> {
    pub fn new() -> (r: Self)
        ensures
            r.patterns@.len() == 0,
    {
        Each { patterns: Vec::new() }
    }

    /// A new cascading pattern, to be added with `push` once defined.
    pub fn call(&self, input_matcher: M) -> (r: DefineResponse<M, V>)
        ensures
            r.builder@ == BuilderView::<M, V>::fresh(
                PatternMatchMode::FullCascadeForEveryCall,
                input_matcher,
            ),
    {
        each_call(input_matcher)
    }

    /// Adds a finished pattern after the ones before it.
    pub fn push(&mut self, pattern: DynCallPatternBuilder<M, V>)
        ensures
            final(self).patterns@ == old(self).patterns@.push(pattern),
    {
        self.patterns.push(pattern);
    }

    /// One declaration per pattern, in order, for the operation `fn_id`.
    /// The formatter of the inputs goes with the first one. A series
    /// without patterns is refused.
    pub fn into_declarations<D>(self, fn_id: u64, name: &String, input_debugger: InputDebugger<D>) -> (r:
        Result<Vec<TypedMockImpl<M, V, D>>, AssembleError>)
        ensures
            self.patterns@.len() == 0 ==> r == Err::<Vec<TypedMockImpl<M, V, D>>, AssembleError>(
                AssembleError::NoCallPatterns { name: *name },
            ),
            self.patterns@.len() > 0 ==> match r {
                Ok(decls) => {
                    &&& decls@.len() == self.patterns@.len()
                    &&& forall|i: int|
                        0 <= i < decls@.len() ==> {
                            let b = self.patterns@[i];
                            let d = #[trigger] decls@[i];
                            &&& d.fn_id == fn_id
                            &&& d.name == *name
                            &&& d.kind == b.pattern_match_mode
                            &&& !d.has_applications
                            &&& d.input_debugger.debug_func == if i == 0 {
                                input_debugger.debug_func
                            } else {
                                None
                            }
                            &&& d.patterns@ == seq![
                                CallPattern {
                                    input_matcher: b.input_matcher,
                                    call_index_range: CallIndexRange { start: 0, end: 0 },
                                    call_counter: b.count_expectation.into_counter_spec(),
                                    responders: b.responders,
                                },
                            ]
                        }
                },
                Err(_) => false,
            },
    {
        if self.patterns.len() == 0 {
            return Err(AssembleError::NoCallPatterns { name: name.clone() });
        }
        let ghost patterns = self.patterns@;
        let mut rest = self.patterns;
        let mut decls: Vec<TypedMockImpl<M, V, D>> = Vec::new();
        let mut debugger = Some(input_debugger);
        while rest.len() > 0
            invariant
                decls@.len() + rest@.len() == patterns.len(),
                rest@ == patterns.subrange(decls@.len() as int, patterns.len() as int),
                decls@.len() == 0 ==> debugger == Some(input_debugger),
                decls@.len() > 0 ==> debugger is None,
                forall|i: int|
                    0 <= i < decls@.len() ==> {
                        let b = patterns[i];
                        let d = #[trigger] decls@[i];
                        &&& d.fn_id == fn_id
                        &&& d.name == *name
                        &&& d.kind == b.pattern_match_mode
                        &&& !d.has_applications
                        &&& d.input_debugger.debug_func == if i == 0 {
                            input_debugger.debug_func
                        } else {
                            None
                        }
                        &&& d.patterns@ == seq![
                            CallPattern {
                                input_matcher: b.input_matcher,
                                call_index_range: CallIndexRange { start: 0, end: 0 },
                                call_counter: b.count_expectation.into_counter_spec(),
                                responders: b.responders,
                            },
                        ]
                    },
            decreases rest@.len(),
        {
            let builder = rest.remove(0);
            let this_debugger = match debugger.take() {
                Some(d) => d,
                None => InputDebugger::new_nodebug(),
            };
            decls.push(builder.into_declaration(fn_id, name.clone(), this_debugger));
            assert(rest@ =~= patterns.subrange(decls@.len() as int, patterns.len() as int));
        }
        Ok(decls)
    }
}

/// The sum of the first `n` quantities.
pub open spec fn offset(ns: Seq<usize>, n: int) -> int
    decreases n,
{
    if n <= 0 {
        0
    } else {
        offset(ns, n - 1) + ns[n - 1]
    }
}

/// The responders of a chain in which response `t` was quantified to
/// answer `ns[t]` calls: each applies from the sum of the quantities
/// before it.
pub open spec fn is_series<V>(rs: Seq<CallOrderResponder<V>>, ns: Seq<usize>) -> bool {
    &&& rs.len() == ns.len()
    &&& forall|t: int| 0 <= t < rs.len() ==> #[trigger] rs[t].response_index == offset(ns, t)
}

proof fn lemma_offset_monotonic(ns: Seq<usize>, a: int, b: int)
    requires
        0 <= a <= b <= ns.len(),
    ensures
        offset(ns, a) <= offset(ns, b),
    decreases b - a,
{
    if a < b {
        lemma_offset_monotonic(ns, a, b - 1);
    }
}

/// Extending a chain by one response that answers `n` calls, with
/// `returns_value` (or another response) and `n_times`, keeps it a
/// series: the new response applies from the sum of all quantities
/// before it. `then` changes neither responders nor the index.
pub proof fn lemma_series_extends<M, V>(
    b: BuilderView<M, V>,
    ns: Seq<usize>,
    responder: Responder<V>,
    n: usize,
    exactness: Exactness,
)
    requires
        is_series(b.responders, ns),
        b.current_response_index == offset(ns, ns.len() as int),
        b.can_quantify(n),
    ensures
        is_series(b.with_responder(responder).quantified(n, exactness).responders, ns.push(n)),
        b.with_responder(responder).quantified(n, exactness).current_response_index == offset(
            ns.push(n),
            ns.len() + 1 as int,
        ),
{
    let next = ns.push(n);
    assert forall|t: int| 0 <= t <= ns.len() implies offset(next, t) == offset(ns, t) by {
        lemma_offset_prefix(ns, n, t);
    }
    assert(offset(next, ns.len() + 1 as int) == offset(ns, ns.len() as int) + n);
}

proof fn lemma_offset_prefix(ns: Seq<usize>, n: usize, t: int)
    requires
        0 <= t <= ns.len(),
    ensures
        offset(ns.push(n), t) == offset(ns, t),
    decreases t,
{
    if t > 0 {
        lemma_offset_prefix(ns, n, t - 1);
    }
}

/// A chain of responses answers the calls in its cadence: the call with
/// index `c` is answered by the response `j` whose span of calls holds
/// `c`, and every call after the last span by the last response.
pub proof fn lemma_responses_in_series<V>(rs: Seq<CallOrderResponder<V>>, ns: Seq<usize>, c: int, j: int)
    requires
        is_series(rs, ns),
        0 <= j < rs.len(),
        offset(ns, j) <= c,
        j + 1 < rs.len() ==> c < offset(ns, j + 1),
    ensures
        is_selected_responder(rs, c, j),
{
    assert forall|k: int| 0 <= k <= j implies #[trigger] rs[k].response_index <= c by {
        lemma_offset_monotonic(ns, k, j);
    }
}

} // verus!
