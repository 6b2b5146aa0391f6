//! Per-operation mock state: call patterns, their responders, how a call
//! selects them, and how declared pattern sets are assembled.
use vstd::prelude::*;

use crate::counter::{next_count, option_seq, CallCountExpectation, CallCounter, Exactness};
use crate::error::{InputsDebug, MockError};
use crate::macro_api::Evaluation;

verus! {

/// How the call patterns of one operation are matched against a call.
#[derive(Clone, Copy, Debug, PartialEq, Eq, Structural)]
pub enum PatternMatchMode {
    /// Each new call starts at the first call pattern, tries to
    /// match it and then goes on to the next one until success.
    FullCascadeForEveryCall,
    /// Each new call starts off where the previous one ended.
    /// E.g. match pattern[0] 1 time, match pattern[1] 3 times, etc.
    StrictCallOrder,
}

/// The half-open range `[start, end)` of shared call indices that a
/// strictly ordered call pattern answers.
#[derive(Clone, Copy, Debug, PartialEq, Eq, Structural)]
pub struct CallIndexRange {
    pub start: usize,
    pub end: usize,
}

impl CallIndexRange {
    pub open spec fn contains(self, index: int) -> bool {
        self.start <= index < self.end
    }
}

/// How one call is answered. `V` is the producer of the output: a
/// closure, or a value to hand out.
#[derive(Debug)]
pub enum Responder<V> {
    /// Computes an owned output.
    Closure(V),
    /// Computes a reference that lives for the whole program.
    StaticRefClosure(V),
    /// A value owned by the call pattern, lent out by reference.
    Borrowable(V),
    /// Fails the call with the given message.
    Panic(String),
    /// Hands the call to the operation's real implementation.
    Unmock,
}

/// A responder that applies from the call with index `response_index` on.
#[derive(Debug)]
pub struct CallOrderResponder<V> {
    pub response_index: usize,
    pub responder: Responder<V>,
}

/// One declared call pattern: an input matcher `M`, the range of shared
/// call indices it answers in strict order, its counter and its responders.
#[derive(Debug)]
pub struct CallPattern<M, V> {
    pub input_matcher: M,
    pub call_index_range: CallIndexRange,
    pub call_counter: CallCounter,
    pub responders: Vec<CallOrderResponder<V>>,
}

/// `j` is the responder for the call with index `c`: the responders up to
/// `j` all apply from `c` or earlier, and the next one does not.
pub open spec fn is_selected_responder<V>(rs: Seq<CallOrderResponder<V>>, c: int, j: int) -> bool {
    &&& 0 <= j < rs.len()
    &&& forall|k: int| 0 <= k <= j ==> #[trigger] rs[k].response_index <= c
    &&& j + 1 < rs.len() ==> rs[j + 1].response_index > c
}

/// No responder applies to the call with index `c`.
pub open spec fn has_no_responder<V>(rs: Seq<CallOrderResponder<V>>, c: int) -> bool {
    rs.len() == 0 || rs[0].response_index > c
}

/// Counts the call on `pat` and selects its responder: the last one of
/// the leading responders whose response index is at most the call's
/// index. `None` where no responder applies yet.
pub fn select_responder_for_call<M, V>(pat: &mut CallPattern<M, V>) -> (r: Option<usize>)
    ensures
        final(pat).input_matcher == old(pat).input_matcher,
        final(pat).call_index_range == old(pat).call_index_range,
        final(pat).responders == old(pat).responders,
        final(pat).call_counter.expectation == old(pat).call_counter.expectation,
        final(pat).call_counter.actual_count == next_count(old(pat).call_counter.actual_count),
        match r {
            Some(j) => is_selected_responder(
                old(pat).responders@,
                old(pat).call_counter.actual_count as int,
                j as int,
            ),
            None => has_no_responder(old(pat).responders@, old(pat).call_counter.actual_count as int),
        },
{
    let call_index = pat.call_counter.fetch_add();
    let mut responder: Option<usize> = None;
    let n = pat.responders.len();
    let mut j: usize = 0;
    while j < n && pat.responders[j].response_index <= call_index
        invariant
            n == pat.responders@.len(),
            j <= n,
            forall|k: int| 0 <= k < j ==> #[trigger] pat.responders@[k].response_index <= call_index,
            match responder {
                Some(s) => s + 1 == j,
                None => j == 0,
            },
        decreases n - j,
    {
        responder = Some(j);
        j = j + 1;
    }
    responder
}

/// The shape in which an operation hands out its output.
#[derive(Clone, Copy, Debug, PartialEq, Eq, Structural)]
pub enum OutputShape {
    /// An owned value.
    Owned,
    /// A reference that borrows from the mock itself.
    SelfBorrowed,
    /// A reference that lives for the whole program.
    StaticRef,
}

/// The static identity of one mockable operation.
#[derive(Debug)]
pub struct MockFnInfo {
    /// The key under which the operation's registry is found.
    pub id: u64,
    /// The name used in diagnostics, such as `Trait::method`.
    pub name: String,
    /// The number of inputs, the receiver not counted.
    pub n_inputs: u8,
    pub output: OutputShape,
}

/// Renders the inputs of a call for diagnostics. `D` is the formatter of
/// the input tuple; the caller runs it and hands its rendering in.
#[derive(Debug)]
pub struct InputDebugger<D> {
    pub debug_func: Option<D>,
}

impl<D> InputDebugger<D> {
    pub fn new_nodebug() -> (r: Self)
        ensures
            r.debug_func is None,
    {
        InputDebugger { debug_func: None }
    }

    pub fn new_debug(debug_func: D) -> (r: Self)
        ensures
            r.debug_func == Some(debug_func),
    {
        InputDebugger { debug_func: Some(debug_func) }
    }

    /// Takes the formatter of `other` where `self` has none, so that a
    /// printable declaration keeps the inputs printable.
    pub fn steal_debug_if_necessary(&mut self, other: &mut InputDebugger<D>)
        ensures
            old(self).debug_func is None ==> final(self).debug_func == old(other).debug_func
                && final(other).debug_func is None,
            old(self).debug_func is Some ==> *final(self) == *old(self) && *final(other)
                == *old(other),
    {
        if self.debug_func.is_none() {
            self.debug_func = other.debug_func.take();
        }
    }

    /// What a diagnostic shows of the inputs: the rendering where this
    /// debugger has a formatter, placeholders otherwise.
    pub open spec fn inputs_debug(&self, rendered: Option<String>, n_inputs: u8) -> InputsDebug {
        InputsDebug {
            rendered: if self.debug_func is Some {
                rendered
            } else {
                None
            },
            n_inputs,
        }
    }

    pub fn debug_input_as_tuple(&self, rendered: &Option<String>, n_args: u8) -> (r: InputsDebug)
        ensures
            r == self.inputs_debug(*rendered, n_args),
    {
        let shown = if self.debug_func.is_some() {
            clone_rendered(rendered)
        } else {
            None
        };
        InputsDebug { rendered: shown, n_inputs: n_args }
    }
}

fn clone_rendered(o: &Option<String>) -> (r: Option<String>)
    ensures
        r == *o,
{
    match o {
        Some(s) => Some(s.clone()),
        None => None,
    }
}

/// All call patterns declared for one operation, with its match mode.
#[derive(Debug)]
pub struct TypedMockImpl<M, V, D> {
    pub fn_id: u64,
    pub name: String,
    pub input_debugger: InputDebugger<D>,
    pub kind: PatternMatchMode,
    pub patterns: Vec<CallPattern<M, V>>,
    /// Whether the operation was ever called, matched or not.
    pub has_applications: bool,
}

/// The value of a registry, with its patterns as a sequence.
pub struct RegistryView<M, V, D> {
    pub fn_id: u64,
    pub name: String,
    pub input_debugger: InputDebugger<D>,
    pub kind: PatternMatchMode,
    pub patterns: Seq<CallPattern<M, V>>,
    pub has_applications: bool,
}

impl<M, V, D> View for TypedMockImpl<M, V, D> {
    type V = RegistryView<M, V, D>;

    open spec fn view(&self) -> RegistryView<M, V, D> {
        RegistryView {
            fn_id: self.fn_id,
            name: self.name,
            input_debugger: self.input_debugger,
            kind: self.kind,
            patterns: self.patterns@,
            has_applications: self.has_applications,
        }
    }
}

/// The values of a list of registries.
pub open spec fn views<M, V, D>(impls: Seq<TypedMockImpl<M, V, D>>) -> Seq<RegistryView<M, V, D>> {
    impls.map_values(|r: TypedMockImpl<M, V, D>| r@)
}

/// `i` is the first pattern whose range holds the shared call index `idx`.
pub open spec fn is_first_in_range<M, V>(ps: Seq<CallPattern<M, V>>, idx: int, i: int) -> bool {
    &&& 0 <= i < ps.len()
    &&& ps[i].call_index_range.contains(idx)
    &&& forall|k: int| 0 <= k < i ==> !(#[trigger] ps[k].call_index_range).contains(idx)
}

/// No pattern's range holds the shared call index `idx`.
pub open spec fn none_in_range<M, V>(ps: Seq<CallPattern<M, V>>, idx: int) -> bool {
    forall|k: int| 0 <= k < ps.len() ==> !(#[trigger] ps[k].call_index_range).contains(idx)
}

/// `i` is the first pattern whose matcher accepted the inputs.
pub open spec fn is_first_match(verdicts: Seq<bool>, i: int) -> bool {
    &&& 0 <= i < verdicts.len()
    &&& verdicts[i]
    &&& forall|k: int| 0 <= k < i ==> !#[trigger] verdicts[k]
}

/// No pattern's matcher accepted the inputs.
pub open spec fn no_match(verdicts: Seq<bool>) -> bool {
    forall|k: int| 0 <= k < verdicts.len() ==> !#[trigger] verdicts[k]
}

/// The ranges of the patterns, in declaration order.
pub open spec fn ranges_of<M, V>(ps: Seq<CallPattern<M, V>>) -> Seq<CallIndexRange> {
    ps.map_values(|p: CallPattern<M, V>| p.call_index_range)
}

impl<M, V, D> TypedMockImpl<M, V, D> {
    /// A registry with no patterns yet.
    pub fn with_input_debugger(
        fn_id: u64,
        name: String,
        input_debugger: InputDebugger<D>,
        kind: PatternMatchMode,
    ) -> (r: Self)
        ensures
            r.fn_id == fn_id,
            r.name == name,
            r.input_debugger == input_debugger,
            r.kind == kind,
            r.patterns@.len() == 0,
            !r.has_applications,
    {
        TypedMockImpl {
            fn_id,
            name,
            input_debugger,
            kind,
            patterns: Vec::new(),
            has_applications: false,
        }
    }

    /// A registry with the one pattern of one declaration: the given
    /// matcher, no responders yet, and no calls required.
    pub fn new_standalone(
        fn_id: u64,
        name: String,
        input_debugger: InputDebugger<D>,
        input_matcher: M,
        kind: PatternMatchMode,
    ) -> (r: Self)
        ensures
            r.fn_id == fn_id,
            r.name == name,
            r.input_debugger == input_debugger,
            r.kind == kind,
            !r.has_applications,
            r.patterns@.len() == 1,
            r.patterns@[0].input_matcher == input_matcher,
            r.patterns@[0].call_index_range == (CallIndexRange { start: 0, end: 0 }),
            r.patterns@[0].call_counter.expectation == CallCountExpectation::new_spec(),
            r.patterns@[0].call_counter.actual_count == 0,
            r.patterns@[0].responders@.len() == 0,
    {
        let mut mock_impl = Self::with_input_debugger(fn_id, name, input_debugger, kind);
        mock_impl.patterns.push(
            CallPattern {
                input_matcher,
                call_index_range: CallIndexRange { start: 0, end: 0 },
                call_counter: CallCountExpectation::new().into_counter(),
                responders: Vec::new(),
            },
        );
        mock_impl
    }

    /// The inputs of a call as diagnostics of this registry show them.
    pub fn debug_inputs(&self, rendered: &Option<String>, n_inputs: u8) -> (r: InputsDebug)
        ensures
            r == self.input_debugger.inputs_debug(*rendered, n_inputs),
    {
        self.input_debugger.debug_input_as_tuple(rendered, n_inputs)
    }
}

/// Finds the pattern that answers a call, given each pattern's verdict on
/// the inputs. In cascading mode: the first pattern that accepts them. In
/// strict order: the pattern whose range holds the shared call index,
/// which is advanced here, and which must accept the inputs.
pub fn match_pattern<M, V, D>(
    mock_impl: &TypedMockImpl<M, V, D>,
    f: &MockFnInfo,
    verdicts: &Vec<bool>,
    rendered: &Option<String>,
    call_index: &mut usize,
) -> (r: Result<Option<usize>, MockError>)
    requires
        verdicts@.len() == mock_impl.patterns@.len(),
    ensures
        r matches Ok(Some(i)) ==> i < mock_impl.patterns@.len(),
        mock_impl.kind == PatternMatchMode::FullCascadeForEveryCall ==> {
            &&& *final(call_index) == *old(call_index)
            &&& match r {
                Ok(Some(i)) => is_first_match(verdicts@, i as int),
                Ok(None) => no_match(verdicts@),
                Err(_) => false,
            }
        },
        mock_impl.kind == PatternMatchMode::StrictCallOrder ==> {
            let idx = *old(call_index);
            let ps = mock_impl.patterns@;
            let inputs_debug = mock_impl.input_debugger.inputs_debug(*rendered, f.n_inputs);
            &&& *final(call_index) == next_count(idx)
            &&& forall|i: int| #[trigger]
                is_first_in_range(ps, idx as int, i) ==> if verdicts@[i] {
                    r == Ok::<Option<usize>, MockError>(Some(i as usize))
                } else {
                    r == Err::<Option<usize>, MockError>(
                        MockError::InputsNotMatchedInCallOrder {
                            name: f.name,
                            inputs_debug,
                            actual_call_order: idx,
                            pat_index: i as usize,
                        },
                    )
                }
            &&& none_in_range(ps, idx as int) ==> match r {
                Err(MockError::CallOrderNotMatchedForMockFn {
                    name,
                    inputs_debug: shown,
                    actual_call_order,
                    expected_ranges,
                }) => name == f.name && shown == inputs_debug && actual_call_order == idx
                    && expected_ranges@ == ranges_of(ps),
                _ => false,
            }
        },
{
    let n = mock_impl.patterns.len();
    match mock_impl.kind {
        PatternMatchMode::StrictCallOrder => {
            // the shared index advances here, so calls of cascading
            // operations do not move it
            let current_call_index = *call_index;
            *call_index = current_call_index.saturating_add(1);
            let mut i: usize = 0;
            while i < n && !(mock_impl.patterns[i].call_index_range.start <= current_call_index
                && current_call_index < mock_impl.patterns[i].call_index_range.end)
                invariant
                    n == mock_impl.patterns@.len(),
                    i <= n,
                    forall|k: int|
                        0 <= k < i ==> !(#[trigger] mock_impl.patterns@[k].call_index_range).contains(
                            current_call_index as int,
                        ),
                decreases n - i,
            {
                i = i + 1;
            }
            if i == n {
                let mut expected_ranges: Vec<CallIndexRange> = Vec::new();
                let mut k: usize = 0;
                while k < n
                    invariant
                        n == mock_impl.patterns@.len(),
                        k <= n,
                        expected_ranges@ =~= ranges_of(mock_impl.patterns@).subrange(0, k as int),
                    decreases n - k,
                {
                    expected_ranges.push(mock_impl.patterns[k].call_index_range);
                    k = k + 1;
                }
                assert(expected_ranges@ =~= ranges_of(mock_impl.patterns@));
                return Err(
                    MockError::CallOrderNotMatchedForMockFn {
                        name: f.name.clone(),
                        inputs_debug: mock_impl.debug_inputs(rendered, f.n_inputs),
                        actual_call_order: current_call_index,
                        expected_ranges,
                    },
                );
            }
            assert(is_first_in_range(mock_impl.patterns@, current_call_index as int, i as int));
            if !verdicts[i] {
                return Err(
                    MockError::InputsNotMatchedInCallOrder {
                        name: f.name.clone(),
                        inputs_debug: mock_impl.debug_inputs(rendered, f.n_inputs),
                        actual_call_order: current_call_index,
                        pat_index: i,
                    },
                );
            }
            Ok(Some(i))
        },
        PatternMatchMode::FullCascadeForEveryCall => {
            let mut i: usize = 0;
            while i < n && !verdicts[i]
                invariant
                    n == verdicts@.len(),
                    i <= n,
                    forall|k: int| 0 <= k < i ==> !#[trigger] verdicts@[k],
                decreases n - i,
            {
                i = i + 1;
            }
            if i == n {
                Ok(None)
            } else {
                Ok(Some(i))
            }
        },
    }
}

/// What to do when an operation has no registry, or no pattern matches.
#[derive(Clone, Copy, Debug, PartialEq, Eq, Structural)]
pub enum FallbackMode {
    /// Fail the call.
    Error,
    /// Hand the call to the operation's real implementation.
    Unmock,
}

/// The responder that a call selected, or the decision to hand it to the
/// real implementation.
#[derive(Clone, Copy, Debug, PartialEq, Eq, Structural)]
pub enum EvaluatedResponder {
    Responder { impl_index: usize, pat_index: usize, responder_index: usize },
    Unmock,
}

/// `k` is the first registry of the operation `id`.
pub open spec fn is_registry_of<M, V, D>(impls: Seq<RegistryView<M, V, D>>, id: u64, k: int) -> bool {
    &&& 0 <= k < impls.len()
    &&& impls[k].fn_id == id
    &&& forall|j: int| 0 <= j < k ==> (#[trigger] impls[j]).fn_id != id
}

/// There is no registry of the operation `id`.
pub open spec fn has_no_registry<M, V, D>(impls: Seq<RegistryView<M, V, D>>, id: u64) -> bool {
    forall|j: int| 0 <= j < impls.len() ==> (#[trigger] impls[j]).fn_id != id
}

/// The pattern `after` is `before` with one more call counted on it.
pub open spec fn is_counted<M, V>(before: CallPattern<M, V>, after: CallPattern<M, V>) -> bool {
    &&& after.input_matcher == before.input_matcher
    &&& after.call_index_range == before.call_index_range
    &&& after.responders == before.responders
    &&& after.call_counter.expectation == before.call_counter.expectation
    &&& after.call_counter.actual_count == next_count(before.call_counter.actual_count)
}

/// The registry `after` is `before` once a call went through: marked as applied, with one
/// more call counted on the pattern `counted`, if any, and else unchanged.
pub open spec fn is_applied<M, V, D>(
    before: RegistryView<M, V, D>,
    after: RegistryView<M, V, D>,
    counted: Option<int>,
) -> bool {
    &&& after.fn_id == before.fn_id
    &&& after.name == before.name
    &&& after.input_debugger == before.input_debugger
    &&& after.kind == before.kind
    &&& after.has_applications
    &&& after.patterns.len() == before.patterns.len()
    &&& forall|p: int|
        0 <= p < before.patterns.len() && counted != Some(p) ==> #[trigger] after.patterns[p]
            == before.patterns[p]
    &&& forall|p: int| counted == Some(p) ==> is_counted(before.patterns[p], #[trigger] after.patterns[p])
}

/// Only the registry `k` changed between `before` and `after`.
pub open spec fn others_unchanged<M, V, D>(
    before: Seq<RegistryView<M, V, D>>,
    after: Seq<RegistryView<M, V, D>>,
    k: int,
) -> bool {
    &&& after.len() == before.len()
    &&& forall|j: int| 0 <= j < before.len() && j != k ==> #[trigger] after[j] == before[j]
}

/// The outcome of a call on pattern `i` that was selected by its inputs:
/// its responder for this call, or the error that it has none.
pub open spec fn responder_outcome<M, V>(
    pat: CallPattern<M, V>,
    k: int,
    i: int,
    name: String,
    inputs_debug: InputsDebug,
    r: Result<EvaluatedResponder, MockError>,
) -> bool {
    let c = pat.call_counter.actual_count as int;
    &&& forall|j: int| #[trigger]
        is_selected_responder(pat.responders@, c, j) ==> r == Ok::<EvaluatedResponder, MockError>(
            EvaluatedResponder::Responder {
                impl_index: k as usize,
                pat_index: i as usize,
                responder_index: j as usize,
            },
        )
    &&& has_no_responder(pat.responders@, c) ==> r == Err::<EvaluatedResponder, MockError>(
        MockError::NoOutputAvailableForCallPattern { name, inputs_debug, pat_index: i as usize },
    )
}

/// The effect and the result of a call on the operation `f`, as
/// `eval_responder` makes it.
pub open spec fn dispatch_post<M, V, D>(
    old_impls: Seq<RegistryView<M, V, D>>,
    new_impls: Seq<RegistryView<M, V, D>>,
    f: MockFnInfo,
    verdicts: Seq<bool>,
    rendered: Option<String>,
    old_index: usize,
    new_index: usize,
    fallback_mode: FallbackMode,
    r: Result<EvaluatedResponder, MockError>,
) -> bool {
    &&& has_no_registry(old_impls, f.id) ==> {
        &&& new_impls == old_impls
        &&& new_index == old_index
        &&& r == match fallback_mode {
            FallbackMode::Error => Err::<EvaluatedResponder, MockError>(
                MockError::NoMockImplementation { name: f.name },
            ),
            FallbackMode::Unmock => Ok(EvaluatedResponder::Unmock),
        }
    }
    &&& forall|k: int| #[trigger]
        is_registry_of(old_impls, f.id, k) ==> {
            let reg = old_impls[k];
            let ps = reg.patterns;
            let after = new_impls[k];
            let idx = old_index;
            let inputs_debug = reg.input_debugger.inputs_debug(rendered, f.n_inputs);
            &&& others_unchanged(old_impls, new_impls, k)
            &&& ps.len() == 0 ==> {
                &&& is_applied(reg, after, None)
                &&& new_index == idx
                &&& r == Err::<EvaluatedResponder, MockError>(
                    MockError::NoRegisteredCallPatterns { name: f.name, inputs_debug },
                )
            }
            &&& ps.len() > 0 && reg.kind == PatternMatchMode::FullCascadeForEveryCall ==> {
                &&& new_index == idx
                &&& no_match(verdicts) ==> {
                    &&& is_applied(reg, after, None)
                    &&& r == match fallback_mode {
                        FallbackMode::Error => Err::<EvaluatedResponder, MockError>(
                            MockError::NoMatchingCallPatterns { name: f.name, inputs_debug },
                        ),
                        FallbackMode::Unmock => Ok(EvaluatedResponder::Unmock),
                    }
                }
                &&& forall|i: int| #[trigger]
                    is_first_match(verdicts, i) ==> {
                        &&& is_applied(reg, after, Some(i))
                        &&& responder_outcome(ps[i], k, i, f.name, inputs_debug, r)
                    }
            }
            &&& ps.len() > 0 && reg.kind == PatternMatchMode::StrictCallOrder ==> {
                &&& new_index == next_count(idx)
                &&& none_in_range(ps, idx as int) ==> {
                    &&& is_applied(reg, after, None)
                    &&& match r {
                        Err(MockError::CallOrderNotMatchedForMockFn {
                            name,
                            inputs_debug: shown,
                            actual_call_order,
                            expected_ranges,
                        }) => name == f.name && shown == inputs_debug && actual_call_order
                            == idx && expected_ranges@ == ranges_of(ps),
                        _ => false,
                    }
                }
                &&& forall|i: int| #[trigger]
                    is_first_in_range(ps, idx as int, i) ==> if verdicts[i] {
                        &&& is_applied(reg, after, Some(i))
                        &&& responder_outcome(ps[i], k, i, f.name, inputs_debug, r)
                    } else {
                        &&& is_applied(reg, after, None)
                        &&& r == Err::<EvaluatedResponder, MockError>(
                            MockError::InputsNotMatchedInCallOrder {
                                name: f.name,
                                inputs_debug,
                                actual_call_order: idx,
                                pat_index: i as usize,
                            },
                        )
                    }
            }
        }
}

/// Looks up the registry of the operation `f`, selects the pattern that
/// answers the call and the responder within it, and counts the call.
/// `verdicts` holds, for each pattern of the registry, whether its input
/// matcher accepts the call's inputs; `rendered` is the rendering of the
/// inputs by the registry's formatter, if any.
pub fn eval_responder<M, V, D>(
    impls: &mut Vec<TypedMockImpl<M, V, D>>,
    f: &MockFnInfo,
    verdicts: &Vec<bool>,
    rendered: &Option<String>,
    call_index: &mut usize,
    fallback_mode: FallbackMode,
) -> (r: Result<EvaluatedResponder, MockError>)
    requires
        forall|k: int|
            is_registry_of(views(old(impls)@), f.id, k) ==> verdicts@.len() == (
            #[trigger] old(impls)@[k]).patterns@.len(),
    ensures
        dispatch_post(
            views(old(impls)@),
            views(final(impls)@),
            *f,
            verdicts@,
            *rendered,
            *old(call_index),
            *final(call_index),
            fallback_mode,
            r,
        ),
        r matches Ok(EvaluatedResponder::Responder { impl_index, pat_index, responder_index })
            ==> impl_index < final(impls)@.len() && pat_index < final(impls)@[impl_index as int].patterns@.len()
            && responder_index < final(impls)@[impl_index as int].patterns@[pat_index as int].responders@.len(),
{
    let n = impls.len();
    let mut k: usize = 0;
    while k < n && impls[k].fn_id != f.id
        invariant
            n == impls@.len(),
            k <= n,
            forall|j: int| 0 <= j < k ==> (#[trigger] impls@[j]).fn_id != f.id,
        decreases n - k,
    {
        k = k + 1;
    }
    if k == n {
        return match fallback_mode {
            FallbackMode::Error => Err(MockError::NoMockImplementation { name: f.name.clone() }),
            FallbackMode::Unmock => Ok(EvaluatedResponder::Unmock),
        };
    }
    assert(is_registry_of(views(impls@), f.id, k as int));
    impls[k].has_applications = true;

    if impls[k].patterns.len() == 0 {
        return Err(
            MockError::NoRegisteredCallPatterns {
                name: f.name.clone(),
                inputs_debug: impls[k].debug_inputs(rendered, f.n_inputs),
            },
        );
    }
    match match_pattern(&impls[k], f, verdicts, rendered, call_index) {
        Err(e) => Err(e),
        Ok(None) => match fallback_mode {
            FallbackMode::Error => Err(
                MockError::NoMatchingCallPatterns {
                    name: f.name.clone(),
                    inputs_debug: impls[k].debug_inputs(rendered, f.n_inputs),
                },
            ),
            FallbackMode::Unmock => Ok(EvaluatedResponder::Unmock),
        },
        Ok(Some(pat_index)) => {
            let selected = select_responder_for_call(&mut impls[k].patterns[pat_index]);
            match selected {
                Some(responder_index) => Ok(
                    EvaluatedResponder::Responder { impl_index: k, pat_index, responder_index },
                ),
                None => Err(
                    MockError::NoOutputAvailableForCallPattern {
                        name: f.name.clone(),
                        inputs_debug: impls[k].debug_inputs(rendered, f.n_inputs),
                        pat_index,
                    },
                ),
            }
        },
    }
}

/// What a responder makes of a call on an operation of the given output
/// shape: the producer to run, the inputs handed back for the real
/// implementation, or an error.
pub open spec fn shaped_output<'s, V, I>(
    shape: OutputShape,
    responder: &'s Responder<V>,
    name: String,
    inputs_debug: InputsDebug,
    pat_index: usize,
    inputs: I,
) -> Result<Evaluation<&'s V, I>, MockError> {
    match *responder {
        Responder::Panic(message) => Err(MockError::ExplicitPanic { message }),
        Responder::Unmock => Ok(Evaluation::Skipped(inputs)),
        Responder::Closure(_) => match shape {
            OutputShape::Owned => Ok(Evaluation::Evaluated(responder_producer(responder))),
            _ => Err(MockError::Downcast { name }),
        },
        Responder::StaticRefClosure(_) => match shape {
            OutputShape::Owned => Err(MockError::Downcast { name }),
            _ => Ok(Evaluation::Evaluated(responder_producer(responder))),
        },
        Responder::Borrowable(_) => match shape {
            OutputShape::SelfBorrowed => Ok(Evaluation::Evaluated(responder_producer(responder))),
            OutputShape::StaticRef => Err(
                MockError::CannotBorrowValueStatically { name, inputs_debug, pat_index },
            ),
            OutputShape::Owned => Err(MockError::Downcast { name }),
        },
    }
}

/// The producer held by a responder that has one.
pub open spec fn responder_producer<'s, V>(responder: &'s Responder<V>) -> &'s V
    recommends
        responder is Closure || responder is StaticRefClosure || responder is Borrowable,
{
    match responder {
        Responder::Closure(v) => v,
        Responder::StaticRefClosure(v) => v,
        Responder::Borrowable(v) => v,
        _ => arbitrary(),
    }
}

/// Evaluates a call on an operation with an owned output.
pub fn eval_sized<'s, V, I>(
    responder: &'s Responder<V>,
    name: &String,
    inputs: I,
) -> (r: Result<Evaluation<&'s V, I>, MockError>)
    ensures
        r == shaped_output(
            OutputShape::Owned,
            responder,
            *name,
            InputsDebug { rendered: None, n_inputs: 0 },
            0,
            inputs,
        ),
{
    match responder {
        Responder::Closure(producer) => Ok(Evaluation::Evaluated(producer)),
        Responder::StaticRefClosure(_) => Err(MockError::Downcast { name: name.clone() }),
        Responder::Borrowable(_) => Err(MockError::Downcast { name: name.clone() }),
        Responder::Panic(message) => Err(MockError::ExplicitPanic { message: message.clone() }),
        Responder::Unmock => Ok(Evaluation::Skipped(inputs)),
    }
}

/// Evaluates a call on an operation whose output borrows from the mock.
pub fn eval_unsized_self_borrowed<'s, V, I>(
    responder: &'s Responder<V>,
    name: &String,
    inputs: I,
) -> (r: Result<Evaluation<&'s V, I>, MockError>)
    ensures
        r == shaped_output(
            OutputShape::SelfBorrowed,
            responder,
            *name,
            InputsDebug { rendered: None, n_inputs: 0 },
            0,
            inputs,
        ),
{
    match responder {
        Responder::Closure(_) => Err(MockError::Downcast { name: name.clone() }),
        Responder::StaticRefClosure(producer) => Ok(Evaluation::Evaluated(producer)),
        Responder::Borrowable(value) => Ok(Evaluation::Evaluated(value)),
        Responder::Panic(message) => Err(MockError::ExplicitPanic { message: message.clone() }),
        Responder::Unmock => Ok(Evaluation::Skipped(inputs)),
    }
}

/// Evaluates a call on an operation whose output is a reference that
/// lives for the whole program. A value owned by the pattern cannot be
/// lent for that long.
pub fn eval_unsized_static_ref<'s, V, I>(
    responder: &'s Responder<V>,
    name: &String,
    inputs_debug: InputsDebug,
    pat_index: usize,
    inputs: I,
) -> (r: Result<Evaluation<&'s V, I>, MockError>)
    ensures
        r == shaped_output(OutputShape::StaticRef, responder, *name, inputs_debug, pat_index, inputs),
{
    match responder {
        Responder::Closure(_) => Err(MockError::Downcast { name: name.clone() }),
        Responder::StaticRefClosure(producer) => Ok(Evaluation::Evaluated(producer)),
        Responder::Borrowable(_) => Err(
            MockError::CannotBorrowValueStatically { name: name.clone(), inputs_debug, pat_index },
        ),
        Responder::Panic(message) => Err(MockError::ExplicitPanic { message: message.clone() }),
        Responder::Unmock => Ok(Evaluation::Skipped(inputs)),
    }
}

/// A failure to combine declared call patterns into a mock.
#[derive(Debug)]
pub enum AssembleError {
    /// The operation was declared both in cascading and in strict order.
    IncompatibleKind { name: String, old_kind: PatternMatchMode, new_kind: PatternMatchMode },
    /// A strictly ordered pattern was not given an exact call count.
    MockHasNoExactExpectation { name: String },
    /// The strictly ordered calls declared so far cannot all be indexed.
    CallOrderOverflow { name: String },
    /// A series of cascading patterns was declared without patterns.
    NoCallPatterns { name: String },
}

/// Folds declared pattern sets into registries, one per operation, and
/// hands out the shared call-index ranges of strictly ordered patterns.
#[derive(Debug)]
pub struct MockAssembler<M, V, D> {
    pub impls: Vec<TypedMockImpl<M, V, D>>,
    pub current_call_index: usize,
}

impl<M, V, D> MockAssembler<M, V, D> {
    pub fn new() -> (r: Self)
        ensures
            r.impls@.len() == 0,
            r.current_call_index == 0,
    {
        MockAssembler { impls: Vec::new(), current_call_index: 0 }
    }
}

/// The index of the first registry of the operation `id`, or the number
/// of registries where there is none.
pub open spec fn registry_index<M, V, D>(impls: Seq<RegistryView<M, V, D>>, id: u64) -> int {
    if exists|k: int| is_registry_of(impls, id, k) {
        choose|k: int| is_registry_of(impls, id, k)
    } else {
        impls.len() as int
    }
}

/// The patterns of a declaration as they enter a registry: in strict
/// order, the one pattern takes the `count` calls from `index` on.
pub open spec fn placed_patterns<M, V>(
    patterns: Seq<CallPattern<M, V>>,
    kind: PatternMatchMode,
    index: usize,
    count: usize,
) -> Seq<CallPattern<M, V>> {
    if kind == PatternMatchMode::StrictCallOrder {
        patterns.update(
            0,
            CallPattern {
                call_index_range: CallIndexRange { start: index, end: (index + count) as usize },
                ..patterns[0]
            },
        )
    } else {
        patterns
    }
}

/// The registries and the next shared call index after the declaration
/// `incoming` was assembled into `impls`, with `index` as the next shared
/// call index; or the error that stops it.
pub open spec fn assemble_step<M, V, D>(
    impls: Seq<RegistryView<M, V, D>>,
    index: usize,
    incoming: RegistryView<M, V, D>,
) -> Result<(Seq<RegistryView<M, V, D>>, usize), AssembleError> {
    let k = registry_index(impls, incoming.fn_id);
    let strict = incoming.kind == PatternMatchMode::StrictCallOrder;
    let expectation = incoming.patterns[0].call_counter.expectation;
    let count = expectation.count;
    if k < impls.len() && impls[k].kind != incoming.kind {
        Err(
            AssembleError::IncompatibleKind {
                name: incoming.name,
                old_kind: impls[k].kind,
                new_kind: incoming.kind,
            },
        )
    } else if strict && expectation.exactness != Exactness::Exact {
        Err(AssembleError::MockHasNoExactExpectation { name: incoming.name })
    } else if strict && index + count > usize::MAX {
        Err(AssembleError::CallOrderOverflow { name: incoming.name })
    } else {
        let placed = placed_patterns(incoming.patterns, incoming.kind, index, count);
        let next_index = if strict {
            (index + count) as usize
        } else {
            index
        };
        if k < impls.len() {
            let existing = impls[k];
            let debugger = if existing.input_debugger.debug_func is None {
                incoming.input_debugger
            } else {
                existing.input_debugger
            };
            Ok(
                (
                    impls.update(
                        k,
                        RegistryView {
                            input_debugger: debugger,
                            patterns: existing.patterns + placed,
                            ..existing
                        },
                    ),
                    next_index,
                ),
            )
        } else {
            Ok(
                (
                    impls.push(RegistryView { patterns: placed, has_applications: false, ..incoming }),
                    next_index,
                ),
            )
        }
    }
}

/// There is one first registry of an operation.
pub proof fn lemma_registry_index<M, V, D>(impls: Seq<RegistryView<M, V, D>>, id: u64, k: int)
    requires
        is_registry_of(impls, id, k),
    ensures
        registry_index(impls, id) == k,
{
    let c = choose|c: int| is_registry_of(impls, id, c);
    if c < k {
        assert(impls[c].fn_id != id);
    } else if c > k {
        assert(impls[k].fn_id != id);
    }
}

impl<M, V, D> TypedMockImpl<M, V, D> {
    /// Moves the patterns of this declaration into the assembler's
    /// registry for the same operation, which is created where there is
    /// none. Modes must agree; a strictly ordered declaration holds one
    /// pattern with an exact count, and is given the next range of shared
    /// call indices.
    pub fn assemble_into(self, assembler: &mut MockAssembler<M, V, D>) -> (r: Result<(), AssembleError>)
        requires
            self.kind == PatternMatchMode::StrictCallOrder ==> self.patterns@.len() == 1,
        ensures
            match assemble_step(
                views(old(assembler).impls@),
                old(assembler).current_call_index,
                self@,
            ) {
                Ok((impls, index)) => {
                    &&& r is Ok
                    &&& views(final(assembler).impls@) == impls
                    &&& final(assembler).current_call_index == index
                },
                Err(e) => r == Err::<(), AssembleError>(e) && *final(assembler) == *old(assembler),
            },
    {
        let ghost incoming = self;
        let mut this = self;
        let n = assembler.impls.len();
        let mut k: usize = 0;
        while k < n && assembler.impls[k].fn_id != this.fn_id
            invariant
                n == assembler.impls@.len(),
                k <= n,
                forall|j: int| 0 <= j < k ==> (#[trigger] assembler.impls@[j]).fn_id != this.fn_id,
            decreases n - k,
        {
            k = k + 1;
        }
        let ghost before = views(assembler.impls@);
        if k < n {
            assert(is_registry_of(before, this.fn_id, k as int));
            proof { lemma_registry_index(before, this.fn_id, k as int); }
            if assembler.impls[k].kind != this.kind {
                return Err(
                    AssembleError::IncompatibleKind {
                        name: this.name,
                        old_kind: assembler.impls[k].kind,
                        new_kind: this.kind,
                    },
                );
            }
        }
        if k == n {
            assert(!exists|j: int| is_registry_of(before, this.fn_id, j));
        }
        let ghost start = assembler.current_call_index;
        let ghost count = this.patterns@[0].call_counter.expectation.count;
        if this.kind == PatternMatchMode::StrictCallOrder {
            let exact_count = match this.patterns[0].call_counter.get_expected_exact_count() {
                Some(c) => c,
                None => {
                    return Err(AssembleError::MockHasNoExactExpectation { name: this.name });
                },
            };
            let end = match assembler.current_call_index.checked_add(exact_count) {
                Some(e) => e,
                None => {
                    return Err(AssembleError::CallOrderOverflow { name: this.name });
                },
            };
            this.patterns[0].call_index_range = CallIndexRange {
                start: assembler.current_call_index,
                end,
            };
            assembler.current_call_index = end;
        }
        assert(this.patterns@ == placed_patterns(incoming.patterns@, incoming.kind, start, count));
        if k == n {
            let TypedMockImpl { fn_id, name, input_debugger, kind, patterns, has_applications: _ } =
                this;
            let mut registry = TypedMockImpl::with_input_debugger(
                fn_id,
                name,
                InputDebugger::new_nodebug(),
                kind,
            );
            let mut incoming_patterns = patterns;
            let mut incoming_debugger = input_debugger;
            registry.patterns.append(&mut incoming_patterns);
            registry.input_debugger.steal_debug_if_necessary(&mut incoming_debugger);
            assembler.impls.push(registry);
        } else {
            assembler.impls[k].patterns.append(&mut this.patterns);
            assembler.impls[k].input_debugger.steal_debug_if_necessary(&mut this.input_debugger);
        }
        proof {
            if let Ok((impls, index)) = assemble_step(before, start, incoming@) {
                assert(views(assembler.impls@) =~= impls);
            }
        }
        Ok(())
    }
}

/// The verification failures of the first `n` patterns of an operation.
pub open spec fn pattern_failures<M, V>(
    name: String,
    ps: Seq<CallPattern<M, V>>,
    n: nat,
) -> Seq<MockError>
    decreases n,
{
    if n == 0 {
        Seq::empty()
    } else {
        pattern_failures(name, ps, (n - 1) as nat) + option_seq(
            ps[n - 1].call_counter.failure(name, (n - 1) as usize),
        )
    }
}

/// The verification failures of a registry: each pattern whose count
/// falls short of what it declared, in order, then the operation itself
/// where it was never called.
pub open spec fn registry_failures<M, V, D>(reg: RegistryView<M, V, D>) -> Seq<MockError> {
    pattern_failures(reg.name, reg.patterns, reg.patterns.len()) + if reg.has_applications {
        Seq::<MockError>::empty()
    } else {
        seq![MockError::MockNeverCalled { name: reg.name }]
    }
}

impl<M, V, D> TypedMockImpl<M, V, D> {
    /// Appends to `errors` what this registry's declarations required and
    /// its calls did not give.
    pub fn verify(&self, errors: &mut Vec<MockError>)
        ensures
            final(errors)@ == old(errors)@ + registry_failures(self@),
    {
        let n = self.patterns.len();
        let mut pat_index: usize = 0;
        while pat_index < n
            invariant
                n == self.patterns@.len(),
                pat_index <= n,
                errors@ == old(errors)@ + pattern_failures(self.name, self.patterns@, pat_index as nat),
            decreases n - pat_index,
        {
            self.patterns[pat_index].call_counter.verify(&self.name, pat_index, errors);
            assert(pattern_failures(self.name, self.patterns@, (pat_index + 1) as nat)
                == pattern_failures(self.name, self.patterns@, pat_index as nat) + option_seq(
                self.patterns@[pat_index as int].call_counter.failure(self.name, pat_index),
            ));
            assert(errors@ =~= old(errors)@ + pattern_failures(
                self.name,
                self.patterns@,
                (pat_index + 1) as nat,
            ));
            pat_index = pat_index + 1;
        }
        if !self.has_applications {
            errors.push(MockError::MockNeverCalled { name: self.name.clone() });
        }
        assert(final(errors)@ =~= old(errors)@ + registry_failures(self@));
    }
}

/// The name of a match mode.
pub open spec fn mode_text(mode: PatternMatchMode) -> Seq<char> {
    match mode {
        PatternMatchMode::FullCascadeForEveryCall => "FullCascadeForEveryCall"@,
        PatternMatchMode::StrictCallOrder => "StrictCallOrder"@,
    }
}

fn mode_str(mode: PatternMatchMode) -> (r: &'static str)
    ensures
        r@ == mode_text(mode),
{
    match mode {
        PatternMatchMode::FullCascadeForEveryCall => "FullCascadeForEveryCall",
        PatternMatchMode::StrictCallOrder => "StrictCallOrder",
    }
}

impl AssembleError {
    /// The message of the failure.
    pub open spec fn message(&self) -> Seq<char> {
        match self {
            AssembleError::IncompatibleKind { name, old_kind, new_kind } => "A clause "@ + name@
                + " has already been registered as a "@ + mode_text(*old_kind)
                + ", but got re-registered as a "@ + mode_text(*new_kind)
                + ". They cannot be mixed."@,
            AssembleError::MockHasNoExactExpectation { name } => name@
                + " mock has no exact count expectation, which is needed for a mock."@,
            AssembleError::CallOrderOverflow { name } => name@
                + " mock expects more calls in strict order than can be counted."@,
            AssembleError::NoCallPatterns { name } => "Stub for "@ + name@
                + " contained no call patterns."@,
        }
    }

    pub fn to_string(&self) -> (r: String)
        ensures
            r@ == self.message(),
    {
        let mut out = String::new();
        match self {
            AssembleError::IncompatibleKind { name, old_kind, new_kind } => {
                out.append("A clause ");
                out.append(name.as_str());
                out.append(" has already been registered as a ");
                out.append(mode_str(*old_kind));
                out.append(", but got re-registered as a ");
                out.append(mode_str(*new_kind));
                out.append(". They cannot be mixed.");
            },
            AssembleError::MockHasNoExactExpectation { name } => {
                out.append(name.as_str());
                out.append(" mock has no exact count expectation, which is needed for a mock.");
            },
            AssembleError::CallOrderOverflow { name } => {
                out.append(name.as_str());
                out.append(" mock expects more calls in strict order than can be counted.");
            },
            AssembleError::NoCallPatterns { name } => {
                out.append("Stub for ");
                out.append(name.as_str());
                out.append(" contained no call patterns.");
            },
        }
        assert(out@ =~= self.message());
        out
    }
}

/// In cascading mode a call is answered by the first declared pattern
/// whose matcher accepts its inputs, whatever the patterns' call counts
/// and quantities: that pattern is the one counted, and its responder (or
/// the lack of one) decides the result.
pub proof fn lemma_cascade_first_match<M, V, D>(
    old_impls: Seq<RegistryView<M, V, D>>,
    new_impls: Seq<RegistryView<M, V, D>>,
    f: MockFnInfo,
    verdicts: Seq<bool>,
    rendered: Option<String>,
    old_index: usize,
    new_index: usize,
    fallback_mode: FallbackMode,
    r: Result<EvaluatedResponder, MockError>,
    k: int,
    i: int,
)
    requires
        dispatch_post(
            old_impls,
            new_impls,
            f,
            verdicts,
            rendered,
            old_index,
            new_index,
            fallback_mode,
            r,
        ),
        is_registry_of(old_impls, f.id, k),
        old_impls[k].kind == PatternMatchMode::FullCascadeForEveryCall,
        is_first_match(verdicts, i),
        verdicts.len() == old_impls[k].patterns.len(),
    ensures
        is_applied(old_impls[k], new_impls[k], Some(i)),
        new_index == old_index,
        responder_outcome(
            old_impls[k].patterns[i],
            k,
            i,
            f.name,
            old_impls[k].input_debugger.inputs_debug(rendered, f.n_inputs),
            r,
        ),
{
}

/// In strict order, with the ranges of the patterns in ascending order,
/// the call with shared index `old_index` belongs to the pattern `t`
/// whose range holds it: it is answered there where `t` accepts the
/// inputs, and fails as not matched in call order where `t` does not,
/// whichever other patterns would accept them.
pub proof fn lemma_strict_order_cadence<M, V, D>(
    old_impls: Seq<RegistryView<M, V, D>>,
    new_impls: Seq<RegistryView<M, V, D>>,
    f: MockFnInfo,
    verdicts: Seq<bool>,
    rendered: Option<String>,
    old_index: usize,
    new_index: usize,
    fallback_mode: FallbackMode,
    r: Result<EvaluatedResponder, MockError>,
    k: int,
    t: int,
)
    requires
        dispatch_post(
            old_impls,
            new_impls,
            f,
            verdicts,
            rendered,
            old_index,
            new_index,
            fallback_mode,
            r,
        ),
        is_registry_of(old_impls, f.id, k),
        old_impls[k].kind == PatternMatchMode::StrictCallOrder,
        verdicts.len() == old_impls[k].patterns.len(),
        forall|a: int, b: int|
            0 <= a < b < old_impls[k].patterns.len() ==> (#[trigger] old_impls[k].patterns[a]).call_index_range.end
                <= (#[trigger] old_impls[k].patterns[b]).call_index_range.start,
        0 <= t < old_impls[k].patterns.len(),
        old_impls[k].patterns[t].call_index_range.contains(old_index as int),
    ensures
        new_index == next_count(old_index),
        verdicts[t] ==> is_applied(old_impls[k], new_impls[k], Some(t)) && responder_outcome(
            old_impls[k].patterns[t],
            k,
            t,
            f.name,
            old_impls[k].input_debugger.inputs_debug(rendered, f.n_inputs),
            r,
        ),
        !verdicts[t] ==> r == Err::<EvaluatedResponder, MockError>(
            MockError::InputsNotMatchedInCallOrder {
                name: f.name,
                inputs_debug: old_impls[k].input_debugger.inputs_debug(rendered, f.n_inputs),
                actual_call_order: old_index,
                pat_index: t as usize,
            },
        ),
{
    let ps = old_impls[k].patterns;
    assert forall|a: int| 0 <= a < t implies !(#[trigger] ps[a]).call_index_range.contains(
        old_index as int,
    ) by {
        assert(ps[a].call_index_range.end <= ps[t].call_index_range.start);
    }
    assert(is_first_in_range(ps, old_index as int, t));
}

/// A registry that was never called fails verification as never called,
/// whatever its patterns and responders, and this is its last failure.
pub proof fn lemma_never_called<M, V, D>(reg: RegistryView<M, V, D>)
    requires
        !reg.has_applications,
    ensures
        registry_failures(reg).len() > 0,
        registry_failures(reg).last() == (MockError::MockNeverCalled { name: reg.name }),
{
}

/// An operation that has a registry at `j` has a first one.
pub proof fn lemma_registry_exists<M, V, D>(impls: Seq<RegistryView<M, V, D>>, id: u64, j: int)
    requires
        0 <= j < impls.len(),
        impls[j].fn_id == id,
    ensures
        exists|k: int| is_registry_of(impls, id, k),
    decreases j,
{
    if exists|i: int| 0 <= i < j && (#[trigger] impls[i]).fn_id == id {
        let i = choose|i: int| 0 <= i < j && (#[trigger] impls[i]).fn_id == id;
        lemma_registry_exists(impls, id, i);
    } else {
        assert(is_registry_of(impls, id, j));
    }
}

/// `registry_index` is the first registry of the operation, or the
/// number of registries where there is none.
pub proof fn lemma_registry_index_cases<M, V, D>(impls: Seq<RegistryView<M, V, D>>, id: u64)
    ensures
        0 <= registry_index(impls, id) <= impls.len(),
        registry_index(impls, id) < impls.len() ==> is_registry_of(
            impls,
            id,
            registry_index(impls, id),
        ),
        registry_index(impls, id) == impls.len() ==> has_no_registry(impls, id),
{
    if exists|k: int| is_registry_of(impls, id, k) {
        let k = choose|k: int| is_registry_of(impls, id, k);
        lemma_registry_index(impls, id, k);
    } else {
        assert forall|j: int| 0 <= j < impls.len() implies (#[trigger] impls[j]).fn_id != id by {
            if impls[j].fn_id == id {
                lemma_registry_exists(impls, id, j);
            }
        }
    }
}

/// After one declaration of the operation `id` is assembled, the
/// operation's registry is where it was, or last where it is new.
pub proof fn lemma_assemble_step_registry<M, V, D>(
    impls: Seq<RegistryView<M, V, D>>,
    index: usize,
    incoming: RegistryView<M, V, D>,
)
    requires
        assemble_step(impls, index, incoming) is Ok,
    ensures
        ({
            let k = registry_index(impls, incoming.fn_id);
            let new_impls = assemble_step(impls, index, incoming)->Ok_0.0;
            &&& k < impls.len() ==> registry_index(new_impls, incoming.fn_id) == k
                && new_impls.len() == impls.len()
            &&& k == impls.len() ==> registry_index(new_impls, incoming.fn_id) == impls.len()
                && new_impls.len() == impls.len() + 1
        }),
{
    let id = incoming.fn_id;
    let k = registry_index(impls, id);
    let new_impls = assemble_step(impls, index, incoming)->Ok_0.0;
    lemma_registry_index_cases(impls, id);
    if k < impls.len() {
        assert(is_registry_of(new_impls, id, k));
        lemma_registry_index(new_impls, id, k);
    } else {
        assert(is_registry_of(new_impls, id, k));
        lemma_registry_index(new_impls, id, k);
    }
}

} // verus!
