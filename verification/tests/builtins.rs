use func_sharp::interpreter::execute;
use func_sharp::interpreter::Argument;
use func_sharp::interpreter::Data;
use func_sharp::interpreter::DataKind;
use func_sharp::interpreter::Error;
use func_sharp::interpreter::Invocation;

fn call(name: &str, args: Vec<Argument>) -> Invocation {
    Invocation { name: name.to_string(), args }
}

fn fun(name: &str, args: Vec<Argument>) -> Argument {
    Argument::Function(call(name, args))
}

fn ident(name: &str) -> Argument {
    Argument::Ident(name.to_string())
}

fn num(n: i64) -> Argument {
    Argument::Data(Data::Num(n))
}

fn text(s: &str) -> Argument {
    Argument::Data(Data::Str(s.to_string()))
}

fn boolean(b: bool) -> Argument {
    Argument::Data(Data::Bool(b))
}

fn run(program: Vec<Invocation>) -> (Vec<String>, Option<Error>) {
    execute(&program, Vec::new(), 100_000)
}

fn run_ok(program: Vec<Invocation>) -> Vec<String> {
    let (output, error) = run(program);
    assert_eq!(error, None);
    output
}

fn shows(arg: Argument) -> String {
    let mut output = run_ok(vec![call("println", vec![arg])]);
    assert_eq!(output.len(), 1);
    output.remove(0)
}

#[test]
fn arithmetic_folds_left() {
    assert_eq!(shows(fun("-", vec![num(10), num(3), num(2)])), "5");
    assert_eq!(shows(fun("*", vec![num(2), num(3), num(4)])), "24");
    assert_eq!(shows(fun("/", vec![num(20), num(3)])), "6");
    assert_eq!(shows(fun("%", vec![num(20), num(6)])), "2");
}

#[test]
fn division_by_zero_yields_zero() {
    assert_eq!(shows(fun("/", vec![num(1), num(0)])), "0");
    assert_eq!(shows(fun("%", vec![num(1), num(0)])), "0");
}

#[test]
fn negative_numbers_print_with_a_minus_sign() {
    assert_eq!(shows(fun("-", vec![num(0), num(5)])), "-5");
}

#[test]
fn comparisons_on_numbers() {
    assert_eq!(shows(fun(">", vec![num(2), num(1)])), "true");
    assert_eq!(shows(fun(">=", vec![num(2), num(2)])), "true");
    assert_eq!(shows(fun("<", vec![num(2), num(1)])), "false");
    assert_eq!(shows(fun("<=", vec![num(1), num(2)])), "true");
}

#[test]
fn boolean_operators() {
    assert_eq!(shows(fun("!", vec![boolean(false)])), "true");
    assert_eq!(shows(fun("||", vec![boolean(false), boolean(true)])), "true");
    assert_eq!(shows(fun("||", vec![])), "false");
    assert_eq!(shows(fun("^", vec![boolean(true), boolean(false)])), "true");
    assert_eq!(shows(fun("^", vec![boolean(true), boolean(true)])), "false");
    assert_eq!(shows(fun("^", vec![])), "false");
}

#[test]
fn structural_equality_compares_contents() {
    assert_eq!(shows(fun("==", vec![num(1), num(1)])), "true");
    assert_eq!(shows(fun("==", vec![num(1), num(2)])), "false");
    assert_eq!(shows(fun("==", vec![text("a"), text("a")])), "true");
    assert_eq!(shows(fun("==", vec![num(1), text("1")])), "false");
    assert_eq!(
        shows(fun("==", vec![fun("list", vec![num(1), num(2)]), fun("list", vec![num(1), num(2)])])),
        "true"
    );
    assert_eq!(
        shows(fun("==", vec![fun("list", vec![num(1)]), fun("list", vec![num(2)])])),
        "false"
    );
    assert_eq!(
        shows(fun("==", vec![fun("list", vec![num(1)]), fun("list", vec![])])),
        "false"
    );
}

#[test]
fn println_joins_arguments_with_spaces() {
    let output = run_ok(vec![call(
        "println",
        vec![text("a"), num(1), boolean(true)],
    )]);
    assert_eq!(output, vec!["a 1 true".to_string()]);
}

#[test]
fn lists_display_bracketed_and_comma_separated() {
    assert_eq!(
        shows(fun("list", vec![num(1), text("a"), boolean(true)])),
        "[1, a, true]"
    );
    assert_eq!(shows(fun("list", vec![])), "[]");
}

#[test]
fn nested_lists_display_recursively() {
    assert_eq!(
        shows(fun("list", vec![fun("list", vec![num(1)]), num(2)])),
        "[[1], 2]"
    );
}

#[test]
fn number_parses_decimal_strings() {
    assert_eq!(shows(fun("number", vec![text("42")])), "42");
    assert_eq!(shows(fun("number", vec![text("-7")])), "-7");
}

#[test]
fn number_rejects_text_that_is_no_number() {
    let (_, error) = run(vec![call("number", vec![text("abc")])]);
    assert_eq!(error, Some(Error::InvalidNumber));
    let (_, error) = run(vec![call("number", vec![text("")])]);
    assert_eq!(error, Some(Error::InvalidNumber));
}

#[test]
fn trim_strips_surrounding_whitespace() {
    assert_eq!(shows(fun("trim", vec![text("  a b \n")])), "a b");
    assert_eq!(shows(fun("trim", vec![text("   ")])), "");
    assert_eq!(shows(fun("number", vec![fun("trim", vec![text(" 7\n")])])), "7");
}

#[test]
fn index_fetches_zero_based() {
    let output = run_ok(vec![
        call("let", vec![ident("l"), fun("list", vec![num(10), num(20)])]),
        call("println", vec![fun("index", vec![ident("l"), num(0)])]),
        call("println", vec![fun("index", vec![ident("l"), num(1)])]),
    ]);
    assert_eq!(output, vec!["10".to_string(), "20".to_string()]);
}

#[test]
fn index_out_of_range_is_a_bounds_failure() {
    let (_, error) = run(vec![call(
        "index",
        vec![fun("list", vec![num(1)]), num(1)],
    )]);
    assert_eq!(error, Some(Error::OutOfBounds));
    let (_, error) = run(vec![call(
        "index",
        vec![fun("list", vec![num(1)]), fun("-", vec![num(0), num(1)])],
    )]);
    assert_eq!(error, Some(Error::OutOfBounds));
}

#[test]
fn pop_removes_and_returns_the_last_element() {
    let output = run_ok(vec![
        call("let", vec![ident("l"), fun("list", vec![num(1), num(2)])]),
        call("println", vec![fun("pop", vec![ident("l")])]),
        call("println", vec![fun("length", vec![ident("l")])]),
    ]);
    assert_eq!(output, vec!["2".to_string(), "1".to_string()]);
}

#[test]
fn popped_cell_stays_aliased() {
    // pop returns the cell itself; assigning through another alias of that
    // cell is visible through the popped binding.
    let output = run_ok(vec![
        call("let", vec![ident("x"), num(9)]),
        call("let", vec![ident("l"), fun("list", vec![ident("x")])]),
        call("let", vec![ident("p"), fun("pop", vec![ident("l")])]),
        call("=", vec![ident("x"), num(4)]),
        call("println", vec![ident("p")]),
    ]);
    assert_eq!(output, vec!["4".to_string()]);
}

#[test]
fn shape_failure_surfaces_through_an_any_typed_result() {
    // index declares an "any" return shape, so resolution lets it through;
    // the runtime shape check inside "!" then fails.
    let (_, error) = run(vec![
        call("let", vec![ident("l"), fun("list", vec![num(1)])]),
        call("println", vec![fun("!", vec![fun("index", vec![ident("l"), num(0)])])]),
    ]);
    assert_eq!(error, Some(Error::ShapeMismatch(DataKind::Bool)));
}

#[test]
fn and_short_circuits_before_a_shape_failure() {
    // The first false stops the fold, so the number after it is never
    // inspected.
    let output = run_ok(vec![
        call("let", vec![ident("l"), fun("list", vec![num(1)])]),
        call(
            "println",
            vec![fun("&&", vec![boolean(false), fun("index", vec![ident("l"), num(0)])])],
        ),
    ]);
    assert_eq!(output, vec!["false".to_string()]);
}

#[test]
fn or_short_circuits_before_a_shape_failure() {
    let output = run_ok(vec![
        call("let", vec![ident("l"), fun("list", vec![num(1)])]),
        call(
            "println",
            vec![fun("||", vec![boolean(true), fun("index", vec![ident("l"), num(0)])])],
        ),
    ]);
    assert_eq!(output, vec!["true".to_string()]);
}

#[test]
fn wrapping_addition_on_overflow() {
    assert_eq!(
        shows(fun("+", vec![num(i64::MAX), num(1)])),
        i64::MIN.to_string()
    );
}

#[test]
fn push_cycle_makes_display_run_out_of_fuel() {
    // A list pushed into itself renders as an unbounded nesting; displaying
    // it exhausts the budget instead of recursing forever.
    let program = vec![
        call("let", vec![ident("l"), fun("list", vec![])]),
        call("push", vec![ident("l"), ident("l")]),
        call("println", vec![ident("l")]),
    ];
    let (_, error) = execute(&program, Vec::new(), 200);
    assert_eq!(error, Some(Error::OutOfFuel));
}
