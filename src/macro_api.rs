//! The entry points that the code generated for a mocked trait calls.
use vstd::prelude::*;

use crate::error::MockError;
use crate::text::{joined, lemma_joined_push};
use crate::instance::Unimock;
use crate::mock::{
    dispatch_post, eval_responder, eval_sized, eval_unsized_self_borrowed, eval_unsized_static_ref,
    is_registry_of, shaped_output, views, EvaluatedResponder, MockFnInfo, OutputShape,
    RegistryView,
};

verus! {

/// The evaluation of a mocked operation: its output, or the inputs handed
/// back so that the real implementation can run on them.
#[derive(Debug)]
pub enum Evaluation<O, I> {
    /// The operation was evaluated to its output.
    Evaluated(O),
    /// The operation was not evaluated.
    Skipped(I),
}

impl<O, I> Evaluation<O, I> {
    /// The output of an evaluated operation.
    pub fn unwrap(self) -> (r: O)
        requires
            self is Evaluated,
        ensures
            self == Evaluation::<O, I>::Evaluated(r),
    {
        match self {
            Evaluation::Evaluated(output) => output,
            Evaluation::Skipped(_) => unreached(),
        }
    }
}

/// What the evaluation of a call on `f` returns, once `evaluated` says
/// which responder answers it; `impls` are the registries after the call.
pub open spec fn evaluation_of<'u, M, V, D, I>(
    impls: Seq<RegistryView<M, V, D>>,
    f: MockFnInfo,
    rendered: Option<String>,
    evaluated: Result<EvaluatedResponder, MockError>,
    inputs: I,
    r: Result<Evaluation<&'u V, I>, MockError>,
) -> bool {
    match evaluated {
        Err(e) => r == Err::<Evaluation<&'u V, I>, MockError>(e),
        Ok(EvaluatedResponder::Unmock) => r == Ok::<Evaluation<&'u V, I>, MockError>(
            Evaluation::Skipped(inputs),
        ),
        Ok(EvaluatedResponder::Responder { impl_index, pat_index, responder_index }) => {
            let reg = impls[impl_index as int];
            r == shaped_output(
                f.output,
                &reg.patterns[pat_index as int].responders@[responder_index as int].responder,
                f.name,
                reg.input_debugger.inputs_debug(rendered, f.n_inputs),
                pat_index,
                inputs,
            )
        },
    }
}

/// Evaluates a call on the operation `f` with the given inputs: selects
/// the pattern and the responder that answer it, counts the call, and
/// returns the responder's producer of the output, the inputs handed back
/// for the real implementation, or the error. `verdicts` holds, for each
/// pattern declared for `f`, whether its input matcher accepts the
/// inputs; `rendered` is the rendering of the inputs by the operation's
/// formatter, if it has one.
pub fn eval<'u, M, V, D, I>(
    unimock: &'u mut Unimock<M, V, D>,
    f: &MockFnInfo,
    inputs: I,
    verdicts: &Vec<bool>,
    rendered: &Option<String>,
) -> (r: Result<Evaluation<&'u V, I>, MockError>)
    requires
        forall|k: int|
            is_registry_of(views(old(unimock).impls@), f.id, k) ==> verdicts@.len() == (
            #[trigger] old(unimock).impls@[k]).patterns@.len(),
    ensures
        final(unimock).fallback_mode == old(unimock).fallback_mode,
        exists|evaluated: Result<EvaluatedResponder, MockError>|
            {
                &&& dispatch_post(
                    views(old(unimock).impls@),
                    views(final(unimock).impls@),
                    *f,
                    verdicts@,
                    *rendered,
                    old(unimock).call_index,
                    final(unimock).call_index,
                    old(unimock).fallback_mode,
                    evaluated,
                )
                &&& evaluation_of(views(final(unimock).impls@), *f, *rendered, evaluated, inputs, r)
            },
{
    let fallback_mode = unimock.fallback_mode;
    let evaluated = eval_responder(
        &mut unimock.impls,
        f,
        verdicts,
        rendered,
        &mut unimock.call_index,
        fallback_mode,
    );
    let ghost evaluated_ghost = evaluated;
    let shared: &'u Unimock<M, V, D> = unimock;
    let r = match evaluated {
        Err(e) => Err(e),
        Ok(EvaluatedResponder::Unmock) => Ok(Evaluation::Skipped(inputs)),
        Ok(EvaluatedResponder::Responder { impl_index, pat_index, responder_index }) => {
            let reg = &shared.impls[impl_index];
            let responder = &reg.patterns[pat_index].responders[responder_index].responder;
            match f.output {
                OutputShape::Owned => eval_sized(responder, &f.name, inputs),
                OutputShape::SelfBorrowed => eval_unsized_self_borrowed(responder, &f.name, inputs),
                OutputShape::StaticRef => eval_unsized_static_ref(
                    responder,
                    &f.name,
                    reg.debug_inputs(rendered, f.n_inputs),
                    pat_index,
                    inputs,
                ),
            }
        },
    };
    proof {
        if let Ok(EvaluatedResponder::Responder { impl_index, .. }) = evaluated_ghost {
            assert(views(shared.impls@)[impl_index as int] == shared.impls@[impl_index as int]@);
        }
        assert(evaluation_of(views(shared.impls@), *f, *rendered, evaluated_ghost, inputs, r));
    }
    r
}

/// Where a pattern of an input matcher was written, and how.
#[derive(Clone, Copy, Debug)]
pub struct InputMatcherDebug {
    pub pat_debug: &'static str,
    pub file: &'static str,
    pub line: u32,
}

/// A builder for argument matchers: `M` is a matching function, `N` a
/// matching function that also reports why it failed.
#[derive(Debug)]
pub struct Matching<M, N> {
    pub matching_fn: Option<M>,
    pub matching_fn_debug: Option<N>,
    pub matcher_debug: Option<InputMatcherDebug>,
}

impl<M, N> Matching<M, N> {
    pub fn new() -> (r: Self)
        ensures
            r.matching_fn is None,
            r.matching_fn_debug is None,
            r.matcher_debug is None,
    {
        Matching { matching_fn: None, matching_fn_debug: None, matcher_debug: None }
    }

    /// Sets the matching function, with debug capabilities: it receives a
    /// [MismatchReporter] beside the inputs.
    pub fn debug_func(&mut self, matching_fn: N)
        ensures
            final(self).matching_fn_debug == Some(matching_fn),
            final(self).matching_fn == old(self).matching_fn,
            final(self).matcher_debug == old(self).matcher_debug,
    {
        self.matching_fn_debug = Some(matching_fn);
    }

    /// Sets the matching function, which accepts a reference to the
    /// inputs and answers whether they match.
    pub fn func(&mut self, matching_fn: M)
        ensures
            final(self).matching_fn == Some(matching_fn),
            final(self).matching_fn_debug == old(self).matching_fn_debug,
            final(self).matcher_debug == old(self).matcher_debug,
    {
        self.matching_fn = Some(matching_fn);
    }

    /// Registers debug info on the matching builder, so that a mismatch
    /// can show the pattern and where it was written.
    pub fn pat_debug(&mut self, pat_debug: &'static str, file: &'static str, line: u32)
        ensures
            final(self).matcher_debug == Some(InputMatcherDebug { pat_debug, file, line }),
            final(self).matching_fn == old(self).matching_fn,
            final(self).matching_fn_debug == old(self).matching_fn_debug,
    {
        self.matcher_debug = Some(InputMatcherDebug { pat_debug, file, line });
    }
}

/// The position of an input among the inputs of a call.
#[derive(Clone, Copy, Debug, PartialEq, Eq, Structural)]
pub struct InputIndex(pub usize);

/// The kind of check that an input failed.
#[derive(Clone, Copy, Debug, PartialEq, Eq, Structural)]
pub enum MismatchKind {
    Pattern,
    Eq,
    Ne,
}

/// Why an input did not match.
#[derive(Debug)]
pub struct Mismatch {
    pub kind: MismatchKind,
    /// The input as printed, where it can be printed.
    pub actual: Option<String>,
    pub expected: String,
}

/// A reporter used in call pattern matchers in case of mismatched
/// inputs, for better error messages.
#[derive(Debug)]
pub struct MismatchReporter {
    pub enabled: bool,
    pub mismatches: Vec<(InputIndex, Mismatch)>,
}

/// `None` for the placeholder "?" that stands for an input that cannot be
/// printed; the text otherwise.
pub open spec fn printed(s: String) -> Option<String> {
    if s@ == "?"@ {
        None
    } else {
        Some(s)
    }
}

/// Drops the placeholder "?" of an input that cannot be printed.
pub fn filter_questionmark(s: String) -> (r: Option<String>)
    ensures
        r == printed(s),
{
    proof {
        reveal_strlit("?");
    }
    let text = s.as_str();
    if text.unicode_len() == 1 && text.get_char(0) == '?' {
        assert(s@ =~= "?"@);
        None
    } else {
        Some(s)
    }
}

impl MismatchReporter {
    pub fn new_enabled() -> (r: Self)
        ensures
            r.enabled,
            r.mismatches@.len() == 0,
    {
        MismatchReporter { enabled: true, mismatches: Vec::new() }
    }

    pub fn new_disabled() -> (r: Self)
        ensures
            !r.enabled,
            r.mismatches@.len() == 0,
    {
        MismatchReporter { enabled: false, mismatches: Vec::new() }
    }

    /// Whether debugging is enabled.
    pub fn enabled(&self) -> (r: bool)
        ensures
            r == self.enabled,
    {
        self.enabled
    }

    /// The reporter `after` is `before` with one more mismatch of the given kind and input.
    pub open spec fn recorded(
        before: MismatchReporter,
        after: MismatchReporter,
        kind: MismatchKind,
        input_index: usize,
    ) -> bool {
        &&& after.enabled == before.enabled
        &&& after.mismatches@.len() == before.mismatches@.len() + 1
        &&& after.mismatches@.drop_last() == before.mismatches@
        &&& after.mismatches@.last().0 == InputIndex(input_index)
        &&& after.mismatches@.last().1.kind == kind
    }

    fn record(&mut self, kind: MismatchKind, input_index: usize, actual: Option<String>, expected: String)
        ensures
            Self::recorded(*old(self), *final(self), kind, input_index),
            final(self).mismatches@.last().1.actual == actual,
            final(self).mismatches@.last().1.expected == expected,
    {
        self.mismatches.push((InputIndex(input_index), Mismatch { kind, actual, expected }));
        assert(self.mismatches@.drop_last() =~= old(self).mismatches@);
    }

    /// Registers failure to match a pattern. The input is printed as "?"
    /// where it cannot be printed.
    pub fn pat_fail(&mut self, input_index: usize, actual: String, expected: String)
        ensures
            Self::recorded(*old(self), *final(self), MismatchKind::Pattern, input_index),
            final(self).mismatches@.last().1.actual == printed(actual),
            final(self).mismatches@.last().1.expected == expected,
    {
        self.pat_fail_opt_debug(input_index, filter_questionmark(actual), expected);
    }

    /// Registers failure to match a pattern.
    pub fn pat_fail_opt_debug(&mut self, input_index: usize, actual: Option<String>, expected: String)
        ensures
            Self::recorded(*old(self), *final(self), MismatchKind::Pattern, input_index),
            final(self).mismatches@.last().1.actual == actual,
            final(self).mismatches@.last().1.expected == expected,
    {
        self.record(MismatchKind::Pattern, input_index, actual, expected);
    }

    /// Registers failure of an equality check. The input is printed as
    /// "?" where it cannot be printed.
    pub fn eq_fail(&mut self, input_index: usize, actual: String, expected: String)
        ensures
            Self::recorded(*old(self), *final(self), MismatchKind::Eq, input_index),
            final(self).mismatches@.last().1.actual == printed(actual),
            final(self).mismatches@.last().1.expected == expected,
    {
        self.eq_fail_opt_debug(input_index, filter_questionmark(actual), expected);
    }

    /// Registers failure of an equality check.
    pub fn eq_fail_opt_debug(&mut self, input_index: usize, actual: Option<String>, expected: String)
        ensures
            Self::recorded(*old(self), *final(self), MismatchKind::Eq, input_index),
            final(self).mismatches@.last().1.actual == actual,
            final(self).mismatches@.last().1.expected == expected,
    {
        self.record(MismatchKind::Eq, input_index, actual, expected);
    }

    /// Registers failure of an inequality check. The input is printed as
    /// "?" where it cannot be printed.
    pub fn ne_fail(&mut self, input_index: usize, actual: String, expected: String)
        ensures
            Self::recorded(*old(self), *final(self), MismatchKind::Ne, input_index),
            final(self).mismatches@.last().1.actual == printed(actual),
            final(self).mismatches@.last().1.expected == expected,
    {
        self.ne_fail_opt_debug(input_index, filter_questionmark(actual), expected);
    }

    /// Registers failure of an inequality check.
    pub fn ne_fail_opt_debug(&mut self, input_index: usize, actual: Option<String>, expected: String)
        ensures
            Self::recorded(*old(self), *final(self), MismatchKind::Ne, input_index),
            final(self).mismatches@.last().1.actual == actual,
            final(self).mismatches@.last().1.expected == expected,
    {
        self.record(MismatchKind::Ne, input_index, actual, expected);
    }
}

/// Takes a vector of strings, comma separates them and puts them within
/// parentheses.
pub fn format_inputs(inputs: &[String]) -> (r: String)
    ensures
        r@ == "("@ + joined(inputs@.map_values(|s: String| s@), ", "@) + ")"@,
{
    let mut out = String::new();
    out.append("(");
    let n = inputs.len();
    let mut i: usize = 0;
    while i < n
        invariant
            n == inputs@.len(),
            i <= n,
            out@ == "("@ + joined(inputs@.map_values(|s: String| s@).subrange(0, i as int), ", "@),
        decreases n - i,
    {
        let ghost items = inputs@.map_values(|s: String| s@);
        proof {
            lemma_joined_push(items.subrange(0, i as int), ", "@, items[i as int]);
            assert(items.subrange(0, i as int).push(items[i as int]) =~= items.subrange(
                0,
                i + 1,
            ));
        }
        if i > 0 {
            out.append(", ");
        }
        out.append(inputs[i].as_str());
        proof {
            assert(out@ =~= "("@ + joined(items.subrange(0, i + 1), ", "@));
        }
        i = i + 1;
    }
    out.append(")");
    proof {
        let items = inputs@.map_values(|s: String| s@);
        assert(items.subrange(0, n as int) =~= items);
    }
    out
}

/// Computes the proper debug representation of a value.
pub trait ProperDebug {
    /// Formats a debug representation.
    fn unimock_try_debug(&self) -> String;

    /// Optionally formats a debug representation.
    fn unimock_try_debug_opt(&self) -> (r: Option<String>)
        ensures
            r is Some,
    ;
}

/// Fallback that gives "?" for a value that does not implement `Debug`;
/// a method call picks it only where `ProperDebug` does not apply.
pub trait NoDebug {
    /// Formats a debug representation.
    fn unimock_try_debug(&self) -> (r: String)
        ensures
            r@ == "?"@,
    ;

    /// Optionally formats a debug representation.
    fn unimock_try_debug_opt(&self) -> (r: Option<String>)
        ensures
            r is None,
    ;
}

/// Relies on `format!` with `{:?}`: the text that `Debug::fmt` of `T` writes.
#[verifier::external_body]
fn debug_text<T: std::fmt::Debug + ?Sized>(value: &T) -> String {
    format!("{value:?}")
}

impl<T: std::fmt::Debug> ProperDebug for T {
    fn unimock_try_debug(&self) -> String {
        debug_text(self)
    }

    fn unimock_try_debug_opt(&self) -> (r: Option<String>) {
        Some(debug_text(self))
    }
}

impl<T> NoDebug for &T {
    fn unimock_try_debug(&self) -> (r: String) {
        String::from_str("?")
    }

    fn unimock_try_debug_opt(&self) -> (r: Option<String>) {
        None
    }
}

/// Converts any type implementing `AsRef<str>` to a `&str`.
/// Relies on `AsRef::as_ref` of `T`, which says nothing more of the result.
#[verifier::external_body]
pub fn as_str_ref<T: AsRef<str>>(input: &T) -> &str {
    input.as_ref()
}

/// Converts any type implementing `AsRef<[I]>` to a `&[I]`.
/// Relies on `AsRef::as_ref` of `T`, which says nothing more of the result.
#[verifier::external_body]
pub fn as_slice<T: AsRef<[I]>, I>(input: &T) -> &[I] {
    input.as_ref()
}

} // verus!
