use unimock::builder::{each_call, next_call, DynCallPatternBuilder, Each};
use unimock::error::{render_errors, MockError};
use unimock::instance::Unimock;
use unimock::macro_api::{eval, Evaluation};
use unimock::mock::{FallbackMode, InputDebugger, MockFnInfo, OutputShape, TypedMockImpl};

type Matcher<I> = Box<dyn Fn(&I) -> bool>;
type Debugger<I> = fn(&I) -> String;

enum Producer<I, O> {
    Value(O),
    Func(Box<dyn Fn(&I) -> O>),
}

type Mock<I, O> = Unimock<Matcher<I>, Producer<I, O>, Debugger<I>>;
type Decl<I, O> = TypedMockImpl<Matcher<I>, Producer<I, O>, Debugger<I>>;

fn info(id: u64, name: &str, n_inputs: u8, output: OutputShape) -> MockFnInfo {
    MockFnInfo { id, name: name.to_string(), n_inputs, output }
}

fn any<I>() -> Matcher<I> {
    Box::new(|_| true)
}

fn value<I, O>(o: O) -> Producer<I, O> {
    Producer::Value(o)
}

fn func<I, O>(f: impl Fn(&I) -> O + 'static) -> Producer<I, O> {
    Producer::Func(Box::new(f))
}

fn debugged<I: std::fmt::Debug>(inputs: &I) -> String {
    format!("{:?}", inputs)
}

fn decl<I: std::fmt::Debug, O>(f: &MockFnInfo, b: DynCallPatternBuilder<Matcher<I>, Producer<I, O>>) -> Decl<I, O> {
    b.into_declaration(f.id, f.name.clone(), InputDebugger::new_debug(debugged::<I> as Debugger<I>))
}

fn nodebug_decl<I, O>(f: &MockFnInfo, b: DynCallPatternBuilder<Matcher<I>, Producer<I, O>>) -> Decl<I, O> {
    b.into_declaration(f.id, f.name.clone(), InputDebugger::new_nodebug())
}

fn stub<I: std::fmt::Debug, O>(f: &MockFnInfo, each: Each<Matcher<I>, Producer<I, O>>) -> Vec<Decl<I, O>> {
    each.into_declarations(f.id, &f.name, InputDebugger::new_debug(debugged::<I> as Debugger<I>))
        .unwrap_or_else(|e| panic!("{}", e.to_string()))
}

fn mock<I, O>(clauses: Vec<Decl<I, O>>) -> Mock<I, O> {
    Unimock::new(clauses, FallbackMode::Error).unwrap_or_else(|e| panic!("{}", e.to_string()))
}

fn spy<I, O>(clauses: Vec<Decl<I, O>>) -> Mock<I, O> {
    Unimock::new(clauses, FallbackMode::Unmock).unwrap_or_else(|e| panic!("{}", e.to_string()))
}

fn try_call<I: Clone, O: Clone>(
    u: &mut Mock<I, O>,
    f: &MockFnInfo,
    inputs: I,
    real: &dyn Fn(&mut Mock<I, O>, I) -> O,
) -> Result<O, MockError> {
    let mut verdicts = vec![];
    let mut rendered = None;
    if let Some(reg) = u.impls.iter().find(|reg| reg.fn_id == f.id) {
        verdicts = reg.patterns.iter().map(|p| (p.input_matcher)(&inputs)).collect();
        rendered = reg.input_debugger.debug_func.map(|d| d(&inputs));
    }
    let out = match eval(u, f, inputs.clone(), &verdicts, &rendered)? {
        Evaluation::Evaluated(Producer::Value(o)) => Ok(o.clone()),
        Evaluation::Evaluated(Producer::Func(produce)) => Ok(produce(&inputs)),
        Evaluation::Skipped(inputs) => Err(inputs),
    };
    match out {
        Ok(o) => Ok(o),
        Err(inputs) => Ok(real(u, inputs)),
    }
}

fn no_real<I, O>(_: &mut Mock<I, O>, _: I) -> O {
    panic!("no real implementation")
}

fn call<I: Clone, O: Clone>(u: &mut Mock<I, O>, f: &MockFnInfo, inputs: I) -> O {
    try_call(u, f, inputs, &no_real).unwrap_or_else(|e| panic!("{}", e.to_string()))
}

#[test]
fn noarg_works() {
    let f = info(1, "NoArg::no_arg", 0, OutputShape::Owned);
    let mut u: Mock<(), i32> = mock(vec![decl(
        &f,
        next_call(any()).returns_value(value(1_000_000)).once().finish(),
    )]);
    assert_eq!(1_000_000, call(&mut u, &f, ()));
}

#[test]
fn owned_works() {
    type In = (String, String);
    let f = info(1, "Owned::foo", 2, OutputShape::Owned);
    let mut u: Mock<In, String> = mock(vec![decl(
        &f,
        next_call(any())
            .returns_value(func(|(a, b): &In| format!("{a}{b}")))
            .once()
            .finish(),
    )]);
    assert_eq!("ab", call(&mut u, &f, ("a".to_string(), "b".to_string())));

    let mut each = Each::new();
    each.push(each.call(any()).returns_value(value("lol".to_string())).finish());
    let mut u: Mock<In, String> = mock(stub(&f, each));
    assert_eq!("lol", call(&mut u, &f, ("a".to_string(), "b".to_string())));

    let mut each = Each::new();
    let ab: Matcher<In> = Box::new(|(a, b): &In| a == "a" && b == "b");
    each.push(each.call(ab).returns_value(func(|_: &In| String::default())).finish());
    let mut u: Mock<In, String> = mock(stub(&f, each));
    assert_eq!("", call(&mut u, &f, ("a".to_string(), "b".to_string())));
}

fn referenced_foo() -> MockFnInfo {
    info(1, "Referenced::foo", 1, OutputShape::SelfBorrowed)
}

fn is(expected: &'static str) -> Matcher<String> {
    Box::new(move |a: &String| a == expected)
}

#[test]
fn referenced_with_static_return_value_works() {
    let f = referenced_foo();
    let mut each = Each::new();
    each.push(each.call(is("a")).returns_ref(value(format!("answer"))).finish());
    let mut u: Mock<String, String> = mock(stub(&f, each));
    assert_eq!("answer", call(&mut u, &f, "a".to_string()));
}

#[test]
fn referenced_with_default_return_value_works() {
    let f = referenced_foo();
    let mut each = Each::new();
    each.push(each.call(is("Æ")).panics("Should not be called".to_string()).finish());
    each.push(each.call(is("a")).returns_ref(value(format!(""))).finish());
    let mut u: Mock<String, String> = mock(stub(&f, each));
    assert_eq!("", call(&mut u, &f, "a".to_string()));
}

#[test]
fn referenced_with_static_ref_works() {
    let f = referenced_foo();
    let mut each = Each::new();
    each.push(each.call(is("a")).returns_static(value("foobar".to_string())).finish());
    let mut u: Mock<String, String> = mock(stub(&f, each));
    assert_eq!("foobar", call(&mut u, &f, "a".to_string()));
}

#[test]
fn test_multiple() {
    type In = (String, String);
    let method1 = info(1, "SingleArg::method1", 2, OutputShape::SelfBorrowed);
    let method2 = info(2, "MultiArg::method2", 2, OutputShape::SelfBorrowed);
    let mut decls = vec![];
    let mut each = Each::new();
    let b: Matcher<In> = Box::new(|(a, _): &In| a == "b");
    each.push(each.call(b).returns_ref(value(format!("B"))).once().finish());
    decls.extend(stub(&method1, each));
    let mut each = Each::new();
    let a_any: Matcher<In> = Box::new(|(a, _): &In| a == "a");
    let bb: Matcher<In> = Box::new(|(a, b): &In| a == "B" && b == "B");
    each.push(each.call(a_any).panics("should not call this".to_string()).finish());
    each.push(each.call(bb).returns_ref(value(format!("success"))).once().finish());
    decls.extend(stub(&method2, each));
    let mut u: Mock<In, String> = mock(decls);

    let tmp = call(&mut u, &method1, ("b".to_string(), String::new()));
    assert_eq!("success", call(&mut u, &method2, (tmp.clone(), tmp)));
    assert!(u.verify().is_empty());
}

#[derive(Clone)]
enum PrimitiveEnum {
    Foo,
    Bar,
}

#[test]
fn primitive_mocking_without_debug() {
    type In = (PrimitiveEnum, String);
    let f = info(1, "VeryPrimitive::primitive", 2, OutputShape::Owned);
    let build = || {
        let mut each = Each::new();
        let bar: Matcher<In> = Box::new(|(a, _): &In| matches!(a, PrimitiveEnum::Bar));
        each.push(each.call(bar).returns_value(func(|_: &In| PrimitiveEnum::Foo)).finish());
        each.into_declarations(f.id, &f.name, InputDebugger::new_nodebug()).unwrap()
    };
    let mut u: Mock<In, PrimitiveEnum> = mock(build());
    match call(&mut u, &f, (PrimitiveEnum::Bar, String::new())) {
        PrimitiveEnum::Foo => {}
        PrimitiveEnum::Bar => panic!(),
    }

    let mut u: Mock<In, PrimitiveEnum> = mock(build());
    let err = try_call(&mut u, &f, (PrimitiveEnum::Foo, String::new()), &no_real).err().unwrap();
    assert!(err
        .to_string()
        .contains("VeryPrimitive::primitive(_, _): No matching call patterns."));
}

#[test]
fn borrowing_with_memory_leak() {
    let f = info(1, "Borrowing::borrow", 1, OutputShape::SelfBorrowed);
    let mut u: Mock<String, String> = mock(vec![decl(
        &f,
        next_call(any()).returns_ref(value(format!("foo"))).once().finish(),
    )]);
    assert_eq!("foo", call(&mut u, &f, String::new()));

    let mut u: Mock<String, String> = mock(vec![decl(
        &f,
        next_call(any())
            .returns_static(func(|input: &String| format!("{input}{input}")))
            .once()
            .finish(),
    )]);
    assert_eq!("yoyo", call(&mut u, &f, "yo".to_string()));
}

#[test]
fn test_cow() {
    let f = info(1, "CowBased::func", 1, OutputShape::Owned);
    let mut each = Each::new();
    let input_or_foo: Matcher<String> = Box::new(|a: &String| a == "input" || a == "foo");
    each.push(each.call(input_or_foo).returns_value(value("output".to_string())).finish());
    let mut u: Mock<String, String> = mock(stub(&f, each));
    assert_eq!("output", call(&mut u, &f, "input".to_string()));
}

#[test]
fn newtype() {
    let f = info(1, "NewtypeString::func", 1, OutputShape::Owned);
    let mut each = Each::new();
    each.push(each.call(is("input")).returns_value(value("output".to_string())).finish());
    let mut u: Mock<String, String> =
        mock(each.into_declarations(f.id, &f.name, InputDebugger::new_nodebug()).unwrap());
    let _ = call(&mut u, &f, "input".to_string());
}

fn concat(_: &mut Mock<(String, String), String>, (a, b): (String, String)) -> String {
    format!("{a}{b}")
}

fn ab() -> (String, String) {
    ("a".to_string(), "b".to_string())
}

#[test]
fn unmock_simple() {
    type In = (String, String);
    let f = info(2, "Spyable::concat", 2, OutputShape::Owned);

    let mut u: Mock<In, String> = spy(vec![]);
    assert_eq!("ab", try_call(&mut u, &f, ab(), &concat).unwrap(), "unmock works with empty spy");

    let mut each = Each::new();
    let something_else: Matcher<In> = Box::new(|(a, b): &In| a == "something" && b == "else");
    each.push(each.call(something_else).panics("not matched".to_string()).finish());
    let mut u: Mock<In, String> = spy(stub(&f, each));
    assert_eq!(
        "ab",
        try_call(&mut u, &f, ab(), &concat).unwrap(),
        "unmock works with a spy having a stub with non-matching pattern"
    );

    let mut each = Each::new();
    let is_ab: Matcher<In> = Box::new(|(a, b): &In| a == "a" && b == "b");
    each.push(each.call(is_ab).returns_value(value("42".to_string())).finish());
    let mut u: Mock<In, String> = spy(stub(&f, each));
    assert_eq!(
        "42",
        try_call(&mut u, &f, ab(), &concat).unwrap(),
        "spy returns the matched pattern if overridden"
    );

    let mut each = Each::new();
    let is_ab: Matcher<In> = Box::new(|(a, b): &In| a == "a" && b == "b");
    each.push(each.call(is_ab).unmocked().once().finish());
    let mut u: Mock<In, String> = mock(stub(&f, each));
    assert_eq!(
        "ab",
        try_call(&mut u, &f, ab(), &concat).unwrap(),
        "unmock works on a mock instance with explicit unmock setup"
    );

    let mut u: Mock<In, String> = spy(vec![]);
    assert_eq!("ab", try_call(&mut u, &f, ab(), &concat).unwrap());

    let mut each = Each::new();
    let empty: Matcher<In> = Box::new(|(a, b): &In| a.is_empty() && b.is_empty());
    each.push(each.call(empty).returns_value(value("foobar".to_string())).at_least_times(1).finish());
    each.push(each.call(any()).unmocked().finish());
    let mut u: Mock<In, String> = mock(stub(&f, each));
    assert_eq!("ab", try_call(&mut u, &f, ab(), &concat).unwrap());
    assert!(render_errors(&u.verify()).contains(
        "Spyable::concat: Expected call pattern #0 to match at least 1 call, but it actually matched no calls."
    ));
}

fn my_factorial(u: &mut Mock<u32, u32>, input: u32) -> u32 {
    let f = info(1, "Factorial::factorial", 1, OutputShape::Owned);
    try_call(u, &f, input - 1, &my_factorial).unwrap() * input
}

#[test]
fn unmock_recursion() {
    let f = info(1, "Factorial::factorial", 1, OutputShape::Owned);
    let mut each = Each::new();
    let small: Matcher<u32> = Box::new(|input: &u32| *input <= 1);
    each.push(each.call(small).returns_value(value(1u32)).finish());
    each.push(each.call(any()).unmocked().finish());
    let mut u: Mock<u32, u32> = mock(stub(&f, each));
    assert_eq!(120, try_call(&mut u, &f, 5, &my_factorial).unwrap());
}

#[test]
fn clause_helpers() {
    let m1 = info(1, "Foo::m1", 0, OutputShape::Owned);
    let m2 = info(2, "Bar::m2", 0, OutputShape::Owned);
    let m3 = info(3, "Baz::m3", 0, OutputShape::Owned);
    let setup_foo_bar = || -> Vec<Decl<(), i32>> {
        vec![
            decl(&m1, each_call(any()).returns_value(value(1)).finish()),
            decl(&m2, each_call(any()).returns_value(value(2)).finish()),
        ]
    };
    let mut clauses = setup_foo_bar();
    clauses.push(decl(&m3, each_call(any()).returns_value(value(3)).finish()));
    let mut u: Mock<(), i32> = mock(clauses);
    assert_eq!(6, call(&mut u, &m1, ()) + call(&mut u, &m2, ()) + call(&mut u, &m3, ()));
}

fn series_clause(f: &MockFnInfo) -> Vec<Decl<(), i32>> {
    vec![decl(
        f,
        each_call(any())
            .returns_value(value(1))
            .once()
            .then()
            .returns_value(value(2))
            .n_times(2)
            .then()
            .returns_value(value(3))
            .finish(),
    )]
}

#[test]
fn responders_in_series() {
    let f = info(1, "Series::series", 0, OutputShape::Owned);
    {
        let mut a = mock(series_clause(&f));
        assert_eq!(1, call(&mut a, &f, ()));
        assert_eq!(2, call(&mut a, &f, ()));
        assert_eq!(2, call(&mut a, &f, ()));
        // it will continue to return 3:
        assert_eq!(3, call(&mut a, &f, ()));
        assert_eq!(3, call(&mut a, &f, ()));
        assert_eq!(3, call(&mut a, &f, ()));
        assert_eq!(3, call(&mut a, &f, ()));
    }
    {
        let mut b = mock(series_clause(&f));
        assert_eq!(1, call(&mut b, &f, ()));
        assert_eq!(2, call(&mut b, &f, ()));
        // Exact repetition was defined to be 4 (the last responder is not exactly quantified), but it contained a `.then` call so minimum 1.
        assert!(render_errors(&b.verify()).contains(
            "Series::series: Expected call pattern #0 to match at least 4 calls, but it actually matched 2 calls."
        ));
    }
}

struct Checked<I, O>(Mock<I, O>);

impl<I, O> Drop for Checked<I, O> {
    fn drop(&mut self) {
        let errors = self.0.verify();
        if !errors.is_empty() {
            panic!("{}", render_errors(&errors));
        }
    }
}

struct MyType;

#[test]
#[should_panic(
    expected = "WithModule::func: Expected call pattern #0 to match exactly 1 call, but it actually matched no calls./nMock for WithModule::func was never called. Dead mocks should be removed."
)]
fn test_with_module() {
    let f = info(1, "WithModule::func", 1, OutputShape::SelfBorrowed);
    let _: Checked<String, MyType> =
        Checked(mock(vec![decl(&f, next_call(any()).returns_ref(value(MyType)).once().finish())]));
}

fn static_str() -> MockFnInfo {
    info(1, "BorrowStatic::static_str", 1, OutputShape::StaticRef)
}

#[test]
#[should_panic(
    expected = "BorrowStatic::static_str(_): Cannot borrow output value statically for call pattern (0). Consider using .returns_static()."
)]
fn borrow_static_should_not_work_with_returns_ref() {
    let f = static_str();
    let mut u: Mock<i32, String> = mock(vec![nodebug_decl(
        &f,
        next_call(any()).returns_ref(value("foo".to_string())).once().finish(),
    )]);
    assert_eq!("foo", call(&mut u, &f, 33));
}

#[test]
fn borrow_static_should_work_with_returns_static() {
    let f = static_str();
    let mut u: Mock<i32, String> = mock(vec![nodebug_decl(
        &f,
        next_call(any()).returns_static(value("foo".to_string())).once().finish(),
    )]);
    assert_eq!("foo", call(&mut u, &f, 33));
}
