//! What can go wrong when a mock is assembled, called or verified.
use vstd::prelude::*;

use crate::counter::{CallCountExpectation, Exactness};
use crate::mock::CallIndexRange;
use crate::text::{calls_text, decimal, joined, lemma_joined_push, push_calls, push_decimal};

verus! {

/// A failure of a mocked operation, at a call or at verification.
#[derive(Debug)]
pub enum MockError {
    /// A responder does not fit the output shape of its operation.
    Downcast { name: String },
    /// The operation has no registry, and calls must be mocked.
    NoMockImplementation { name: String },
    /// The operation's registry holds no patterns.
    NoRegisteredCallPatterns { name: String, inputs_debug: InputsDebug },
    /// No pattern of a cascading operation accepts the inputs.
    NoMatchingCallPatterns { name: String, inputs_debug: InputsDebug },
    /// The matched pattern has no responder for this call yet.
    NoOutputAvailableForCallPattern { name: String, inputs_debug: InputsDebug, pat_index: usize },
    /// No strictly ordered pattern answers this position in the call
    /// order; the ranges are kept as declared, zero-based.
    CallOrderNotMatchedForMockFn {
        name: String,
        inputs_debug: InputsDebug,
        actual_call_order: usize,
        expected_ranges: Vec<CallIndexRange>,
    },
    /// The pattern whose range holds this position rejects the inputs.
    InputsNotMatchedInCallOrder {
        name: String,
        inputs_debug: InputsDebug,
        actual_call_order: usize,
        pat_index: usize,
    },
    /// A value owned by the pattern was asked for as a reference that
    /// lives for the whole program.
    CannotBorrowValueStatically { name: String, inputs_debug: InputsDebug, pat_index: usize },
    /// A call went to the real implementation, and there is none.
    CannotUnmock { name: String },
    /// A declared operation was never called.
    MockNeverCalled { name: String },
    /// A pattern matched fewer calls than it declared, or other than its
    /// exact count.
    FailedVerification {
        name: String,
        pat_index: usize,
        expectation: CallCountExpectation,
        actual_count: usize,
    },
    /// A responder fails the call on purpose, with this message.
    ExplicitPanic { message: String },
}

/// The inputs of a failed call, as far as they can be shown: the rendering
/// of the input tuple where the inputs are printable, and their number.
#[derive(Debug)]
pub struct InputsDebug {
    pub rendered: Option<String>,
    pub n_inputs: u8,
}

/// "(_, _)" for two inputs: one placeholder per input.
pub open spec fn anonymous_inputs(n: nat) -> Seq<char> {
    "("@ + joined(Seq::new(n, |i: int| "_"@), ", "@) + ")"@
}

/// Placeholders for inputs that cannot be printed, one per input.
pub fn anonymous_inputs_debug(n_args: u8) -> (r: String)
    ensures
        r@ == anonymous_inputs(n_args as nat),
{
    let mut out = String::new();
    out.append("(");
    let mut i: u8 = 0;
    while i < n_args
        invariant
            i <= n_args,
            out@ == "("@ + joined(Seq::new(i as nat, |j: int| "_"@), ", "@),
        decreases n_args - i,
    {
        proof {
            lemma_joined_push(Seq::new(i as nat, |j: int| "_"@), ", "@, "_"@);
            assert(Seq::new(i as nat, |j: int| "_"@).push("_"@) =~= Seq::new(
                (i + 1) as nat,
                |j: int| "_"@,
            ));
        }
        if i > 0 {
            out.append(", ");
        }
        out.append("_");
        i = i + 1;
    }
    out.append(")");
    out
}

impl InputsDebug {
    /// The inputs as a diagnostic shows them: a single printable input in
    /// parentheses, a printable tuple as it is, placeholders otherwise.
    pub open spec fn text(&self) -> Seq<char> {
        match self.rendered {
            Some(s) => if self.n_inputs == 1 {
                "("@ + s@ + ")"@
            } else {
                s@
            },
            None => anonymous_inputs(self.n_inputs as nat),
        }
    }

    pub fn to_string(&self) -> (r: String)
        ensures
            r@ == self.text(),
    {
        match &self.rendered {
            Some(s) => if self.n_inputs == 1 {
                let mut out = String::new();
                out.append("(");
                out.append(s.as_str());
                out.append(")");
                out
            } else {
                s.clone()
            },
            None => anonymous_inputs_debug(self.n_inputs),
        }
    }
}

/// One range, 1-based: "2..3" for the calls from index 1 to 2.
pub open spec fn range_text(range: CallIndexRange) -> Seq<char> {
    decimal((range.start + 1) as nat) + ".."@ + decimal((range.end + 1) as nat)
}

/// The ranges, 1-based, as a list: "[1..2, 2..3]".
pub open spec fn ranges_text(ranges: Seq<CallIndexRange>) -> Seq<char> {
    "["@ + joined(ranges.map_values(|r: CallIndexRange| range_text(r)), ", "@) + "]"@
}

fn push_ranges(out: &mut String, ranges: &Vec<CallIndexRange>)
    ensures
        final(out)@ == old(out)@ + ranges_text(ranges@),
{
    out.append("[");
    let n = ranges.len();
    let mut i: usize = 0;
    let ghost items = ranges@.map_values(|r: CallIndexRange| range_text(r));
    while i < n
        invariant
            n == ranges@.len(),
            i <= n,
            items == ranges@.map_values(|r: CallIndexRange| range_text(r)),
            out@ == old(out)@ + "["@ + joined(items.subrange(0, i as int), ", "@),
        decreases n - i,
    {
        proof {
            lemma_joined_push(items.subrange(0, i as int), ", "@, items[i as int]);
            assert(items.subrange(0, i as int).push(items[i as int]) =~= items.subrange(0, i + 1));
        }
        if i > 0 {
            out.append(", ");
        }
        let range = ranges[i];
        push_decimal(out, range.start as u128 + 1);
        out.append("..");
        push_decimal(out, range.end as u128 + 1);
        proof {
            assert(out@ =~= old(out)@ + "["@ + joined(items.subrange(0, i + 1), ", "@));
        }
        i = i + 1;
    }
    out.append("]");
    proof {
        assert(items.subrange(0, n as int) =~= items);
    }
}

/// "exactly" or "at least", as the expectation reads.
pub open spec fn exactness_text(exactness: Exactness) -> Seq<char> {
    match exactness {
        Exactness::Exact => "exactly "@,
        _ => "at least "@,
    }
}

/// What a call count reads as in a verification failure.
pub open spec fn matched_text(n: nat) -> Seq<char> {
    if n == 0 {
        "no calls"@
    } else {
        calls_text(n)
    }
}

impl MockError {
    /// The message of the failure.
    pub open spec fn message(&self) -> Seq<char> {
        match self {
            MockError::Downcast { name } => "Fatal: Failed to downcast for "@ + name@,
            MockError::NoMockImplementation { name } => "No mock implementation found for "@
                + name@,
            MockError::NoRegisteredCallPatterns { name, inputs_debug } => name@
                + inputs_debug.text() + ": No registered call patterns."@,
            MockError::NoMatchingCallPatterns { name, inputs_debug } => name@ + inputs_debug.text()
                + ": No matching call patterns."@,
            MockError::NoOutputAvailableForCallPattern { name, inputs_debug, pat_index } => name@
                + inputs_debug.text() + ": No output available for matching call pattern #"@
                + decimal(*pat_index as nat) + "."@,
            MockError::CallOrderNotMatchedForMockFn {
                name,
                inputs_debug,
                actual_call_order,
                expected_ranges,
            } => name@ + inputs_debug.text()
                + ": Matched in wrong order. It supported the call order ranges "@ + ranges_text(
                expected_ranges@,
            ) + ", but actual call order was "@ + decimal((*actual_call_order + 1) as nat) + "."@,
            MockError::InputsNotMatchedInCallOrder {
                name,
                inputs_debug,
                actual_call_order,
                pat_index,
            } => name@ + inputs_debug.text() + ": Matched in wrong order. Call number "@ + decimal(
                (*actual_call_order + 1) as nat,
            ) + " was expected to match call pattern #"@ + decimal(*pat_index as nat)
                + ", but the inputs did not match."@,
            MockError::CannotBorrowValueStatically { name, inputs_debug, pat_index } => name@
                + inputs_debug.text() + ": Cannot borrow output value statically for call pattern ("@
                + decimal(*pat_index as nat) + "). Consider using .returns_static()."@,
            MockError::CannotUnmock { name } => name@
                + " cannot be unmocked as there is no function available to call."@,
            MockError::MockNeverCalled { name } => "Mock for "@ + name@
                + " was never called. Dead mocks should be removed."@,
            MockError::FailedVerification { name, pat_index, expectation, actual_count } => name@
                + ": Expected call pattern #"@ + decimal(*pat_index as nat) + " to match "@
                + exactness_text(expectation.exactness) + calls_text(expectation.minimum() as nat)
                + ", but it actually matched "@ + matched_text(*actual_count as nat) + "."@,
            MockError::ExplicitPanic { message } => message@,
        }
    }

    pub fn to_string(&self) -> (r: String)
        ensures
            r@ == self.message(),
    {
        let mut out = String::new();
        match self {
            MockError::Downcast { name } => {
                out.append("Fatal: Failed to downcast for ");
                out.append(name.as_str());
            },
            MockError::NoMockImplementation { name } => {
                out.append("No mock implementation found for ");
                out.append(name.as_str());
            },
            MockError::NoRegisteredCallPatterns { name, inputs_debug } => {
                out.append(name.as_str());
                out.append(inputs_debug.to_string().as_str());
                out.append(": No registered call patterns.");
            },
            MockError::NoMatchingCallPatterns { name, inputs_debug } => {
                out.append(name.as_str());
                out.append(inputs_debug.to_string().as_str());
                out.append(": No matching call patterns.");
            },
            MockError::NoOutputAvailableForCallPattern { name, inputs_debug, pat_index } => {
                out.append(name.as_str());
                out.append(inputs_debug.to_string().as_str());
                out.append(": No output available for matching call pattern #");
                push_decimal(&mut out, *pat_index as u128);
                out.append(".");
            },
            MockError::CallOrderNotMatchedForMockFn {
                name,
                inputs_debug,
                actual_call_order,
                expected_ranges,
            } => {
                out.append(name.as_str());
                out.append(inputs_debug.to_string().as_str());
                out.append(": Matched in wrong order. It supported the call order ranges ");
                push_ranges(&mut out, expected_ranges);
                out.append(", but actual call order was ");
                push_decimal(&mut out, *actual_call_order as u128 + 1);
                out.append(".");
            },
            MockError::InputsNotMatchedInCallOrder {
                name,
                inputs_debug,
                actual_call_order,
                pat_index,
            } => {
                out.append(name.as_str());
                out.append(inputs_debug.to_string().as_str());
                out.append(": Matched in wrong order. Call number ");
                push_decimal(&mut out, *actual_call_order as u128 + 1);
                out.append(" was expected to match call pattern #");
                push_decimal(&mut out, *pat_index as u128);
                out.append(", but the inputs did not match.");
            },
            MockError::CannotBorrowValueStatically { name, inputs_debug, pat_index } => {
                out.append(name.as_str());
                out.append(inputs_debug.to_string().as_str());
                out.append(": Cannot borrow output value statically for call pattern (");
                push_decimal(&mut out, *pat_index as u128);
                out.append("). Consider using .returns_static().");
            },
            MockError::CannotUnmock { name } => {
                out.append(name.as_str());
                out.append(" cannot be unmocked as there is no function available to call.");
            },
            MockError::MockNeverCalled { name } => {
                out.append("Mock for ");
                out.append(name.as_str());
                out.append(" was never called. Dead mocks should be removed.");
            },
            MockError::FailedVerification { name, pat_index, expectation, actual_count } => {
                out.append(name.as_str());
                out.append(": Expected call pattern #");
                push_decimal(&mut out, *pat_index as u128);
                out.append(" to match ");
                match expectation.exactness {
                    Exactness::Exact => out.append("exactly "),
                    _ => out.append("at least "),
                }
                let minimum: u128 = match expectation.exactness {
                    Exactness::AtLeastPlusOne => expectation.count as u128 + 1,
                    _ => expectation.count as u128,
                };
                push_calls(&mut out, minimum);
                out.append(", but it actually matched ");
                if *actual_count == 0 {
                    out.append("no calls");
                } else {
                    push_calls(&mut out, *actual_count as u128);
                }
                out.append(".");
            },
            MockError::ExplicitPanic { message } => {
                out.append(message.as_str());
            },
        }
        assert(out@ =~= self.message());
        out
    }
}

/// All messages, in order, separated by "/n".
pub open spec fn failures_text(errors: Seq<MockError>) -> Seq<char> {
    joined(errors.map_values(|e: MockError| e.message()), "/n"@)
}

/// The report of a failed verification: all messages, in order,
/// separated by "/n".
pub fn render_errors(errors: &Vec<MockError>) -> (r: String)
    ensures
        r@ == failures_text(errors@),
{
    let mut out = String::new();
    let n = errors.len();
    let mut i: usize = 0;
    let ghost items = errors@.map_values(|e: MockError| e.message());
    while i < n
        invariant
            n == errors@.len(),
            i <= n,
            items == errors@.map_values(|e: MockError| e.message()),
            out@ == joined(items.subrange(0, i as int), "/n"@),
        decreases n - i,
    {
        proof {
            lemma_joined_push(items.subrange(0, i as int), "/n"@, items[i as int]);
            assert(items.subrange(0, i as int).push(items[i as int]) =~= items.subrange(0, i + 1));
        }
        if i > 0 {
            out.append("/n");
        }
        out.append(errors[i].to_string().as_str());
        proof {
            assert(out@ =~= joined(items.subrange(0, i + 1), "/n"@));
        }
        i = i + 1;
    }
    proof {
        assert(items.subrange(0, n as int) =~= items);
    }
    out
}

} // verus!
