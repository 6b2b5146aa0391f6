use unimock::builder::{each_call, next_call, DynCallPatternBuilder, Each};
use unimock::counter::{CallCountExpectation, Exactness};
use unimock::error::{render_errors, InputsDebug, MockError};
use unimock::instance::Unimock;
use unimock::macro_api::{eval, Evaluation};
use unimock::mock::{
    AssembleError, CallIndexRange, FallbackMode, InputDebugger, MockFnInfo, OutputShape,
    PatternMatchMode, TypedMockImpl,
};

type Decl = TypedMockImpl<(), i32, ()>;
type Mock = Unimock<(), i32, ()>;

fn info(id: u64, name: &str, n_inputs: u8, output: OutputShape) -> MockFnInfo {
    MockFnInfo { id, name: name.to_string(), n_inputs, output }
}

fn series() -> MockFnInfo {
    info(1, "Series::series", 0, OutputShape::Owned)
}

fn decl(f: &MockFnInfo, b: DynCallPatternBuilder<(), i32>) -> Decl {
    b.into_declaration(f.id, f.name.clone(), InputDebugger::new_nodebug())
}

fn mock(clauses: Vec<Decl>) -> Mock {
    Unimock::new(clauses, FallbackMode::Error).map_err(|e| e.to_string()).unwrap()
}

fn call(u: &mut Mock, f: &MockFnInfo, verdicts: &[bool]) -> Result<Option<i32>, MockError> {
    match eval(u, f, (), &verdicts.to_vec(), &None)? {
        Evaluation::Evaluated(v) => Ok(Some(*v)),
        Evaluation::Skipped(()) => Ok(None),
    }
}

fn chained() -> DynCallPatternBuilder<(), i32> {
    each_call(())
        .returns_value(1)
        .once()
        .then()
        .returns_value(2)
        .n_times(2)
        .then()
        .returns_value(3)
        .finish()
}

#[test]
fn chained_responses_seven_calls() {
    let f = series();
    let mut u = mock(vec![decl(&f, chained())]);
    let outputs: Vec<i32> = (0..7).map(|_| call(&mut u, &f, &[true]).unwrap().unwrap()).collect();
    assert_eq!(outputs, vec![1, 2, 2, 3, 3, 3, 3]);
    assert!(u.verify().is_empty());
}

#[test]
fn chained_responses_two_calls_undercount() {
    let f = series();
    let mut u = mock(vec![decl(&f, chained())]);
    assert_eq!(call(&mut u, &f, &[true]).unwrap(), Some(1));
    assert_eq!(call(&mut u, &f, &[true]).unwrap(), Some(2));
    let errors = u.verify();
    assert_eq!(errors.len(), 1);
    match &errors[0] {
        MockError::FailedVerification { pat_index, expectation, actual_count, .. } => {
            assert_eq!(*pat_index, 0);
            assert_eq!(expectation.count, 3);
            assert_eq!(expectation.exactness, Exactness::AtLeastPlusOne);
            assert_eq!(*actual_count, 2);
        }
        other => panic!("{:?}", other),
    }
    assert_eq!(
        errors[0].to_string(),
        "Series::series: Expected call pattern #0 to match at least 4 calls, but it actually matched 2 calls."
    );
}

#[test]
fn chain_response_indices_are_sums_of_quantities() {
    let b = chained();
    let indices: Vec<usize> = b.responders.iter().map(|r| r.response_index).collect();
    assert_eq!(indices, vec![0, 1, 3]);
    assert_eq!(b.current_response_index, 3);
}

fn at_least(m: usize) -> Mock {
    let f = series();
    let mut each = Each::new();
    each.push(each.call(()).returns_value(7).at_least_times(m).finish());
    mock(each.into_declarations(f.id, &f.name, InputDebugger::<()>::new_nodebug()).unwrap())
}

#[test]
fn at_least_times_met_and_missed() {
    let f = series();
    let mut u = at_least(3);
    for _ in 0..3 {
        assert_eq!(call(&mut u, &f, &[true]).unwrap(), Some(7));
    }
    assert!(u.verify().is_empty());

    let mut u = at_least(3);
    for _ in 0..2 {
        call(&mut u, &f, &[true]).unwrap();
    }
    let errors = u.verify();
    assert_eq!(errors.len(), 1);
    assert!(matches!(
        &errors[0],
        MockError::FailedVerification { pat_index: 0, actual_count: 2, .. }
    ));
    assert_eq!(
        errors[0].to_string(),
        "Series::series: Expected call pattern #0 to match at least 3 calls, but it actually matched 2 calls."
    );
}

fn strict_abc(f: &MockFnInfo, counts: &[usize]) -> Mock {
    let clauses = counts
        .iter()
        .enumerate()
        .map(|(i, n)| decl(f, next_call(()).returns_value(i as i32 + 10).n_times(*n).finish()))
        .collect();
    mock(clauses)
}

#[test]
fn strict_order_follows_cadence() {
    let f = info(2, "Order::next", 1, OutputShape::Owned);
    let mut u = strict_abc(&f, &[1, 2, 1]);
    let ranges: Vec<CallIndexRange> =
        u.impls[0].patterns.iter().map(|p| p.call_index_range).collect();
    assert_eq!(
        ranges,
        vec![
            CallIndexRange { start: 0, end: 1 },
            CallIndexRange { start: 1, end: 3 },
            CallIndexRange { start: 3, end: 4 },
        ]
    );
    assert_eq!(call(&mut u, &f, &[true, false, false]).unwrap(), Some(10));
    assert_eq!(call(&mut u, &f, &[false, true, false]).unwrap(), Some(11));
    assert_eq!(call(&mut u, &f, &[false, true, false]).unwrap(), Some(11));
    assert_eq!(call(&mut u, &f, &[false, false, true]).unwrap(), Some(12));
    assert!(u.verify().is_empty());
    let beyond = call(&mut u, &f, &[true, true, true]).unwrap_err();
    assert!(matches!(
        &beyond,
        MockError::CallOrderNotMatchedForMockFn { actual_call_order: 4, .. }
    ));
    assert_eq!(
        beyond.to_string(),
        "Order::next(_): Matched in wrong order. It supported the call order ranges [1..2, 2..4, 4..5], but actual call order was 5."
    );
}

#[test]
fn strict_order_input_mismatch_wins_over_other_match() {
    let f = info(2, "Order::next", 1, OutputShape::Owned);
    let mut u = strict_abc(&f, &[1, 2, 1]);
    let err = call(&mut u, &f, &[false, true, true]).unwrap_err();
    match &err {
        MockError::InputsNotMatchedInCallOrder { actual_call_order, pat_index, .. } => {
            assert_eq!(*actual_call_order, 0);
            assert_eq!(*pat_index, 0);
        }
        other => panic!("{:?}", other),
    }
    assert_eq!(
        err.to_string(),
        "Order::next(_): Matched in wrong order. Call number 1 was expected to match call pattern #0, but the inputs did not match."
    );
}

#[test]
fn strict_order_two_patterns_b_first() {
    let f = info(3, "Pair::call", 1, OutputShape::Owned);
    let mut u = strict_abc(&f, &[1, 1]);
    assert_eq!(u.impls[0].patterns[1].call_index_range, CallIndexRange { start: 1, end: 2 });
    let err = call(&mut u, &f, &[false, true]).unwrap_err();
    assert!(matches!(
        err,
        MockError::InputsNotMatchedInCallOrder { actual_call_order: 0, pat_index: 0, .. }
    ));
    let err = call(&mut u, &f, &[true, false]).unwrap_err();
    assert!(matches!(
        err,
        MockError::InputsNotMatchedInCallOrder { actual_call_order: 1, pat_index: 1, .. }
    ));
    let err = call(&mut u, &f, &[false, true]).unwrap_err();
    assert_eq!(
        err.to_string(),
        "Pair::call(_): Matched in wrong order. It supported the call order ranges [1..2, 2..3], but actual call order was 3."
    );
}

#[test]
fn cascade_selects_first_accepting_pattern() {
    let f = info(4, "Cascade::call", 1, OutputShape::Owned);
    let mut each = Each::new();
    each.push(each.call(()).returns_value(1).once().finish());
    each.push(each.call(()).returns_value(2).at_least_times(5).finish());
    let mut u =
        mock(each.into_declarations(f.id, &f.name, InputDebugger::<()>::new_nodebug()).unwrap());
    assert_eq!(call(&mut u, &f, &[true, true]).unwrap(), Some(1));
    // the first pattern's quantity is used up, yet it still comes first
    assert_eq!(call(&mut u, &f, &[true, true]).unwrap(), Some(1));
    assert_eq!(call(&mut u, &f, &[false, true]).unwrap(), Some(2));
    assert_eq!(u.impls[0].patterns[0].call_counter.actual_count, 2);
    assert_eq!(u.impls[0].patterns[1].call_counter.actual_count, 1);
}

#[test]
fn never_called_mock_fails_verification() {
    let f = info(5, "Dead::call", 1, OutputShape::Owned);
    let u = mock(vec![decl(&f, next_call(()).returns_value(1).once().finish())]);
    let errors = u.verify();
    assert_eq!(errors.len(), 2);
    assert!(matches!(&errors[1], MockError::MockNeverCalled { name } if name == "Dead::call"));
    assert_eq!(
        render_errors(&errors),
        "Dead::call: Expected call pattern #0 to match exactly 1 call, but it actually matched no calls./nMock for Dead::call was never called. Dead mocks should be removed."
    );

    let bare = each_call::<(), i32>(()).builder;
    let u = mock(vec![decl(&f, bare)]);
    let errors = u.verify();
    assert_eq!(errors.len(), 1);
    assert!(matches!(&errors[0], MockError::MockNeverCalled { .. }));
}

#[test]
fn assembling_two_cascading_clauses_concatenates() {
    let f = info(6, "Twice::call", 0, OutputShape::Owned);
    let first = decl(&f, each_call(()).returns_value(10).finish());
    let mut each = Each::new();
    each.push(each.call(()).returns_value(20).finish());
    each.push(each.call(()).returns_value(30).finish());
    let mut clauses = vec![first];
    clauses.extend(each.into_declarations(f.id, &f.name, InputDebugger::new_nodebug()).unwrap());
    let u = mock(clauses);
    assert_eq!(u.impls.len(), 1);
    let firsts: Vec<i32> = u.impls[0]
        .patterns
        .iter()
        .map(|p| match &p.responders[0].responder {
            unimock::mock::Responder::Closure(v) => *v,
            _ => panic!(),
        })
        .collect();
    assert_eq!(firsts, vec![10, 20, 30]);
}

#[test]
fn fallback_without_registry() {
    let f = info(7, "Missing::call", 2, OutputShape::Owned);
    let mut u = mock(vec![]);
    let err = call(&mut u, &f, &[]).unwrap_err();
    assert!(matches!(&err, MockError::NoMockImplementation { name } if name == "Missing::call"));
    assert_eq!(err.to_string(), "No mock implementation found for Missing::call");
    let mut u: Mock = Unimock::new(vec![], FallbackMode::Unmock).map_err(|e| e.to_string()).unwrap();
    assert_eq!(call(&mut u, &f, &[]).unwrap(), None);
}

#[test]
fn registry_without_patterns() {
    let f = info(8, "Empty::call", 2, OutputShape::Owned);
    let empty: Decl = TypedMockImpl::with_input_debugger(
        f.id,
        f.name.clone(),
        InputDebugger::new_nodebug(),
        PatternMatchMode::FullCascadeForEveryCall,
    );
    let mut u = mock(vec![empty]);
    let err = call(&mut u, &f, &[]).unwrap_err();
    assert!(matches!(err, MockError::NoRegisteredCallPatterns { .. }));
    assert_eq!(err.to_string(), "Empty::call(_, _): No registered call patterns.");
    assert!(u.impls[0].has_applications);
}

#[test]
fn no_matching_pattern_and_spy_fallback() {
    let f = info(9, "Pick::call", 0, OutputShape::Owned);
    let mut u = mock(vec![decl(&f, each_call(()).returns_value(1).finish())]);
    let err = call(&mut u, &f, &[false]).unwrap_err();
    assert_eq!(err.to_string(), "Pick::call(): No matching call patterns.");
    let mut u: Mock = Unimock::new(
        vec![decl(&f, each_call(()).returns_value(1).finish())],
        FallbackMode::Unmock,
    )
    .map_err(|e| e.to_string())
    .unwrap();
    assert_eq!(call(&mut u, &f, &[false]).unwrap(), None);
    assert!(u.verify().is_empty());
}

#[test]
fn pattern_without_responder() {
    let f = info(10, "Mute::call", 1, OutputShape::Owned);
    let mut u = mock(vec![decl(&f, each_call::<(), i32>(()).builder)]);
    let err = call(&mut u, &f, &[true]).unwrap_err();
    assert!(matches!(err, MockError::NoOutputAvailableForCallPattern { pat_index: 0, .. }));
    assert_eq!(err.to_string(), "Mute::call(_): No output available for matching call pattern #0.");
}

#[test]
fn responder_shapes() {
    let owned = info(11, "Shape::owned", 1, OutputShape::Owned);
    let borrowed = info(12, "Shape::borrowed", 1, OutputShape::SelfBorrowed);
    let statik = info(13, "Shape::statik", 1, OutputShape::StaticRef);
    let mut u = mock(vec![
        decl(&owned, each_call(()).returns_ref(1).finish()),
        decl(&borrowed, each_call(()).returns_ref(2).finish()),
        decl(&statik, each_call(()).returns_ref(3).finish()),
    ]);
    assert!(matches!(call(&mut u, &owned, &[true]).unwrap_err(), MockError::Downcast { .. }));
    assert_eq!(call(&mut u, &borrowed, &[true]).unwrap(), Some(2));
    let err = call(&mut u, &statik, &[true]).unwrap_err();
    assert!(matches!(err, MockError::CannotBorrowValueStatically { pat_index: 0, .. }));
    assert_eq!(
        err.to_string(),
        "Shape::statik(_): Cannot borrow output value statically for call pattern (0). Consider using .returns_static()."
    );
    assert_eq!(
        MockError::Downcast { name: "Shape::owned".to_string() }.to_string(),
        "Fatal: Failed to downcast for Shape::owned"
    );
}

#[test]
fn panicking_and_unmocked_responders() {
    let f = info(14, "Boom::call", 0, OutputShape::Owned);
    let mut each = Each::new();
    each.push(each.call(()).panics("boom".to_string()).finish());
    each.push(each.call(()).unmocked().finish());
    let mut u = mock(each.into_declarations(f.id, &f.name, InputDebugger::<()>::new_nodebug()).unwrap());
    let err = call(&mut u, &f, &[true, true]).unwrap_err();
    assert!(matches!(&err, MockError::ExplicitPanic { message } if message == "boom"));
    assert_eq!(err.to_string(), "boom");
    assert_eq!(call(&mut u, &f, &[false, true]).unwrap(), None);
}

#[test]
fn assemble_errors() {
    let f = info(15, "Mixed::call", 0, OutputShape::Owned);
    let err = Unimock::new(
        vec![
            decl(&f, each_call(()).returns_value(1).finish()),
            decl(&f, next_call(()).returns_value(1).once().finish()),
        ],
        FallbackMode::Error,
    )
    .err()
    .unwrap();
    assert!(matches!(
        err,
        AssembleError::IncompatibleKind {
            old_kind: PatternMatchMode::FullCascadeForEveryCall,
            new_kind: PatternMatchMode::StrictCallOrder,
            ..
        }
    ));
    assert_eq!(
        err.to_string(),
        "A clause Mixed::call has already been registered as a FullCascadeForEveryCall, but got re-registered as a StrictCallOrder. They cannot be mixed."
    );

    let open_ended = next_call(()).returns_value(1).once().then().returns_value(2).finish();
    assert_eq!(open_ended.count_expectation.exactness, Exactness::Exact);
    assert_eq!(open_ended.count_expectation.count, 2);
    let unquantified: Decl = TypedMockImpl::new_standalone(
        f.id,
        f.name.clone(),
        InputDebugger::new_nodebug(),
        (),
        PatternMatchMode::StrictCallOrder,
    );
    let err = Unimock::new(vec![unquantified], FallbackMode::Error).err().unwrap();
    assert!(matches!(err, AssembleError::MockHasNoExactExpectation { .. }));
    assert_eq!(
        err.to_string(),
        "Mixed::call mock has no exact count expectation, which is needed for a mock."
    );

    let huge = decl(&f, next_call(()).returns_value(1).n_times(usize::MAX).finish());
    let one = decl(&f, next_call(()).returns_value(2).once().finish());
    let err = Unimock::new(vec![huge, one], FallbackMode::Error).err().unwrap();
    assert!(matches!(err, AssembleError::CallOrderOverflow { .. }));
    assert_eq!(
        err.to_string(),
        "Mixed::call mock expects more calls in strict order than can be counted."
    );

    let err = Each::<(), i32>::new()
        .into_declarations(f.id, &f.name, InputDebugger::<()>::new_nodebug())
        .err()
        .unwrap();
    assert_eq!(err.to_string(), "Stub for Mixed::call contained no call patterns.");
}

#[test]
fn exact_overcount_and_undercount_messages() {
    let f = info(16, "Exact::call", 0, OutputShape::Owned);
    let mut u = mock(vec![decl(&f, each_call(()).returns_value(1).n_times(2).finish())]);
    for _ in 0..3 {
        call(&mut u, &f, &[true]).unwrap();
    }
    assert_eq!(
        render_errors(&u.verify()),
        "Exact::call: Expected call pattern #0 to match exactly 2 calls, but it actually matched 3 calls."
    );
    let mut u = mock(vec![decl(&f, each_call(()).returns_value(1).n_times(2).finish())]);
    call(&mut u, &f, &[true]).unwrap();
    assert_eq!(
        render_errors(&u.verify()),
        "Exact::call: Expected call pattern #0 to match exactly 2 calls, but it actually matched 1 call."
    );
}

#[test]
fn other_messages() {
    assert_eq!(
        MockError::CannotUnmock { name: "A::b".to_string() }.to_string(),
        "A::b cannot be unmocked as there is no function available to call."
    );
    let shown = InputsDebug { rendered: Some("42".to_string()), n_inputs: 1 };
    assert_eq!(shown.to_string(), "(42)");
    let tuple = InputsDebug { rendered: Some("(1, 2)".to_string()), n_inputs: 2 };
    assert_eq!(tuple.to_string(), "(1, 2)");
    let hidden = InputsDebug { rendered: None, n_inputs: 3 };
    assert_eq!(hidden.to_string(), "(_, _, _)");
    assert_eq!(InputsDebug { rendered: None, n_inputs: 0 }.to_string(), "()");
    assert_eq!(render_errors(&vec![]), "");
}

#[test]
fn debugger_is_kept_where_present() {
    let f = info(17, "Dbg::call", 1, OutputShape::Owned);
    let plain: TypedMockImpl<(), i32, u8> =
        each_call(()).returns_value(1).finish().into_declaration(f.id, f.name.clone(), InputDebugger::new_nodebug());
    let printing: TypedMockImpl<(), i32, u8> =
        each_call(()).returns_value(2).finish().into_declaration(f.id, f.name.clone(), InputDebugger::new_debug(9));
    let mut u = Unimock::new(vec![plain, printing], FallbackMode::Error).map_err(|e| e.to_string()).unwrap();
    assert_eq!(u.impls[0].input_debugger.debug_func, Some(9));
    let err = match eval(&mut u, &f, (), &vec![false, false], &Some("7".to_string())) {
        Err(e) => e,
        Ok(_) => panic!(),
    };
    assert_eq!(err.to_string(), "Dbg::call(7): No matching call patterns.");

    let mut mine = InputDebugger::new_debug(1u8);
    let mut theirs = InputDebugger::new_debug(2u8);
    mine.steal_debug_if_necessary(&mut theirs);
    assert_eq!((mine.debug_func, theirs.debug_func), (Some(1), Some(2)));
    let mut none = InputDebugger::new_nodebug();
    none.steal_debug_if_necessary(&mut theirs);
    assert_eq!((none.debug_func, theirs.debug_func), (Some(2), None));
}

#[test]
fn counter_basics() {
    let mut expectation = CallCountExpectation::new();
    expectation.add_to_minimum(1, Exactness::Exact);
    expectation.add_to_minimum(1, Exactness::Exact);
    assert_eq!(expectation, CallCountExpectation { count: 2, exactness: Exactness::Exact });
    let mut counter = expectation.into_counter();
    assert_eq!(counter.get_expected_exact_count(), Some(2));
    assert_eq!(counter.fetch_add(), 0);
    assert_eq!(counter.fetch_add(), 1);
    assert_eq!(counter.actual_count, 2);
    counter.actual_count = usize::MAX;
    assert_eq!(counter.fetch_add(), usize::MAX);
    assert_eq!(counter.actual_count, usize::MAX);
    let mut loose = CallCountExpectation::new();
    loose.add_to_minimum(3, Exactness::AtLeast);
    assert_eq!(loose.into_counter().get_expected_exact_count(), None);
}

#[test]
fn strict_finish_quantifies_once() {
    let f = info(18, "Once::call", 0, OutputShape::Owned);
    let b = next_call::<(), i32>(()).returns_value(5).finish();
    assert_eq!(b.count_expectation, CallCountExpectation { count: 1, exactness: Exactness::Exact });
    let mut u = mock(vec![decl(&f, b)]);
    assert_eq!(call(&mut u, &f, &[true]).unwrap(), Some(5));
    assert!(u.verify().is_empty());
    assert_eq!(u.call_index, 1);
}
