use func_sharp::interpreter::execute;
use func_sharp::interpreter::Argument;
use func_sharp::interpreter::Data;
use func_sharp::interpreter::Error;
use func_sharp::interpreter::Invocation;

fn call(name: &str, args: Vec<Argument>) -> Invocation {
    Invocation { name: name.to_string(), args }
}

fn fun(name: &str, args: Vec<Argument>) -> Argument {
    Argument::Function(call(name, args))
}

fn ident(name: &str) -> Argument {
    Argument::Ident(name.to_string())
}

fn num(n: i64) -> Argument {
    Argument::Data(Data::Num(n))
}

fn text(s: &str) -> Argument {
    Argument::Data(Data::Str(s.to_string()))
}

fn boolean(b: bool) -> Argument {
    Argument::Data(Data::Bool(b))
}

fn run(program: Vec<Invocation>) -> (Vec<String>, Option<Error>) {
    execute(&program, Vec::new(), 100_000)
}

fn run_ok(program: Vec<Invocation>) -> Vec<String> {
    let (output, error) = run(program);
    assert_eq!(error, None);
    output
}

#[test]
fn let_binds_and_prints() {
    let output = run_ok(vec![
        call("let", vec![ident("x"), num(1)]),
        call("println", vec![ident("x")]),
    ]);
    assert_eq!(output, vec!["1".to_string()]);
}

#[test]
fn aliasing_let_shares_the_cell() {
    // let("x", 1), let("y", x), assign("x", 2): both names observe 2.
    let output = run_ok(vec![
        call("let", vec![ident("x"), num(1)]),
        call("let", vec![ident("y"), ident("x")]),
        call("=", vec![ident("x"), num(2)]),
        call("println", vec![ident("x")]),
        call("println", vec![ident("y")]),
    ]);
    assert_eq!(output, vec!["2".to_string(), "2".to_string()]);
}

#[test]
fn block_scoping_let_inside_if_is_not_visible_after() {
    let (output, error) = run(vec![
        call("let", vec![ident("a"), num(1)]),
        call("if", vec![boolean(true), fun("let", vec![ident("b"), num(2)])]),
        call("println", vec![ident("b")]),
    ]);
    assert_eq!(output, Vec::<String>::new());
    assert_eq!(error, Some(Error::VariableNotFound("b".to_string())));
}

#[test]
fn block_scoping_assign_inside_if_is_visible_after() {
    let output = run_ok(vec![
        call("let", vec![ident("a"), num(1)]),
        call("if", vec![boolean(true), fun("=", vec![ident("a"), num(5)])]),
        call("println", vec![ident("a")]),
    ]);
    assert_eq!(output, vec!["5".to_string()]);
}

#[test]
fn block_scoping_let_inside_while_is_not_visible_after() {
    let (output, error) = run(vec![
        call("let", vec![ident("i"), num(0)]),
        call(
            "while",
            vec![
                fun("<", vec![ident("i"), num(1)]),
                fun("let", vec![ident("b"), num(2)]),
                fun("=", vec![ident("i"), fun("+", vec![ident("i"), num(1)])]),
            ],
        ),
        call("println", vec![ident("b")]),
    ]);
    assert_eq!(output, Vec::<String>::new());
    assert_eq!(error, Some(Error::VariableNotFound("b".to_string())));
}

#[test]
fn while_break_short_circuits_the_body() {
    // Three statements; the second yields break: the third never runs, the
    // loop ends, and the program continues after it.
    let output = run_ok(vec![
        call("let", vec![ident("i"), num(0)]),
        call(
            "while",
            vec![
                fun("<", vec![ident("i"), num(5)]),
                fun("=", vec![ident("i"), fun("+", vec![ident("i"), num(1)])]),
                fun("break", vec![]),
                fun("println", vec![text("never")]),
            ],
        ),
        call("println", vec![ident("i")]),
    ]);
    assert_eq!(output, vec!["1".to_string()]);
}

#[test]
fn while_continue_skips_the_rest_of_the_iteration() {
    let output = run_ok(vec![
        call("let", vec![ident("i"), num(0)]),
        call(
            "while",
            vec![
                fun("<", vec![ident("i"), num(3)]),
                fun("=", vec![ident("i"), fun("+", vec![ident("i"), num(1)])]),
                fun("continue", vec![]),
                fun("println", vec![text("never")]),
            ],
        ),
        call("println", vec![ident("i")]),
    ]);
    assert_eq!(output, vec!["3".to_string()]);
}

#[test]
fn return_propagation_stops_the_function_body() {
    // fn f: [println("a"), return(5), println("b")] prints "a" once, never
    // "b", and yields 5.
    let output = run_ok(vec![
        call(
            "fn",
            vec![
                ident("f"),
                ident("num"),
                fun("println", vec![text("a")]),
                fun("return", vec![num(5)]),
                fun("println", vec![text("b")]),
            ],
        ),
        call("let", vec![ident("r"), fun("f", vec![])]),
        call("println", vec![ident("r")]),
    ]);
    assert_eq!(output, vec!["a".to_string(), "5".to_string()]);
}

#[test]
fn return_propagates_out_of_a_loop() {
    let output = run_ok(vec![
        call(
            "fn",
            vec![
                ident("f"),
                ident("num"),
                fun(
                    "while",
                    vec![boolean(true), fun("return", vec![num(7)])],
                ),
                fun("println", vec![text("never")]),
            ],
        ),
        call("println", vec![fun("f", vec![])]),
    ]);
    assert_eq!(output, vec!["7".to_string()]);
}

#[test]
fn variadic_addition_folds_all_arguments() {
    let output = run_ok(vec![
        call("println", vec![fun("+", vec![num(1), num(2), num(3)])]),
        call("println", vec![fun("+", vec![num(1)])]),
    ]);
    assert_eq!(output, vec!["6".to_string(), "1".to_string()]);
}

#[test]
fn addition_with_no_arguments_fails() {
    let (_, error) = run(vec![call("+", vec![])]);
    assert_eq!(error, Some(Error::ArgumentCount));
}

#[test]
fn list_mutation_is_visible_through_aliases() {
    // push through one name; observe through the other.
    let output = run_ok(vec![
        call("let", vec![ident("l"), fun("list", vec![num(1)])]),
        call("let", vec![ident("m"), ident("l")]),
        call("push", vec![ident("l"), num(2)]),
        call("println", vec![fun("length", vec![ident("m")])]),
        call("println", vec![fun("index", vec![ident("m"), num(1)])]),
    ]);
    assert_eq!(output, vec!["2".to_string(), "2".to_string()]);
}

#[test]
fn pop_on_an_empty_list_is_a_bounds_failure() {
    let (_, error) = run(vec![call("pop", vec![fun("list", vec![])])]);
    assert_eq!(error, Some(Error::OutOfBounds));
}

#[test]
fn closure_captures_values_at_definition_time() {
    // f's body reads x, which is not among its parameters: it sees the value
    // x held when f was defined, not the value assigned afterwards.
    let output = run_ok(vec![
        call("let", vec![ident("x"), num(1)]),
        call("fn", vec![ident("f"), ident("void"), fun("println", vec![ident("x")])]),
        call("=", vec![ident("x"), num(2)]),
        call("f", vec![]),
        call("println", vec![ident("x")]),
    ]);
    assert_eq!(output, vec!["1".to_string(), "2".to_string()]);
}

#[test]
fn overload_resolution_picks_the_matching_shape() {
    let output = run_ok(vec![
        call(
            "fn",
            vec![
                ident("g"),
                ident("num"),
                ident("a"),
                ident("num"),
                fun("return", vec![ident("a")]),
            ],
        ),
        call(
            "fn",
            vec![
                ident("g"),
                ident("str"),
                ident("a"),
                ident("str"),
                fun("return", vec![text("s")]),
            ],
        ),
        call("println", vec![fun("g", vec![num(7)])]),
        call("println", vec![fun("g", vec![text("x")])]),
    ]);
    assert_eq!(output, vec!["7".to_string(), "s".to_string()]);
}

#[test]
fn overload_resolution_rejects_a_wrong_arity() {
    let (_, error) = run(vec![
        call(
            "fn",
            vec![
                ident("g"),
                ident("num"),
                ident("a"),
                ident("num"),
                fun("return", vec![ident("a")]),
            ],
        ),
        call("g", vec![num(1), num(2)]),
    ]);
    assert_eq!(error, Some(Error::FunctionNotFound("g".to_string())));
}

#[test]
fn overload_resolution_rejects_a_wrong_shape() {
    let (_, error) = run(vec![
        call(
            "fn",
            vec![
                ident("g"),
                ident("num"),
                ident("a"),
                ident("num"),
                fun("return", vec![ident("a")]),
            ],
        ),
        call("g", vec![boolean(true)]),
    ]);
    assert_eq!(error, Some(Error::FunctionNotFound("g".to_string())));
}

#[test]
fn repeating_signature_matches_zero_arguments() {
    // "&&" declares one boolean slot with repeating=true: it matches a call
    // with no arguments at all, and conjunction of nothing is true.
    let output = run_ok(vec![call("println", vec![fun("&&", vec![])])]);
    assert_eq!(output, vec!["true".to_string()]);
}

#[test]
fn repeating_signature_reuses_the_last_slot() {
    let output = run_ok(vec![
        call("println", vec![fun("&&", vec![boolean(true), boolean(true), boolean(false)])]),
        call("println", vec![fun("push", vec![fun("list", vec![]), num(1), num(2), num(3)])]),
    ]);
    // push yields unit; three values were appended through the one "any"
    // overflow slot.
    assert_eq!(output, vec!["false".to_string(), "()".to_string()]);
}

#[test]
fn unknown_function_fails_resolution() {
    let (_, error) = run(vec![call("nosuch", vec![])]);
    assert_eq!(error, Some(Error::FunctionNotFound("nosuch".to_string())));
}

#[test]
fn unbound_variable_fails() {
    let (_, error) = run(vec![call("println", vec![ident("zzz")])]);
    assert_eq!(error, Some(Error::VariableNotFound("zzz".to_string())));
}

#[test]
fn let_of_a_literal_fails_with_expected_ident() {
    let (_, error) = run(vec![call("let", vec![num(5), num(1)])]);
    assert_eq!(error, Some(Error::ExpectedIdent));
}

#[test]
fn fn_with_a_literal_body_fails() {
    let (_, error) = run(vec![call("fn", vec![ident("f"), ident("void"), num(1)])]);
    assert_eq!(error, Some(Error::ExpectedInvocation));
}

#[test]
fn fn_with_an_unknown_type_name_fails() {
    let (_, error) = run(vec![call(
        "fn",
        vec![ident("f"), ident("badtype"), fun("println", vec![text("x")])],
    )]);
    assert_eq!(error, Some(Error::MalformedFunction));
}

#[test]
fn infinite_loop_runs_out_of_fuel() {
    let program = vec![call("while", vec![boolean(true), fun("println", vec![text("x")])])];
    let (_, error) = execute(&program, Vec::new(), 50);
    assert_eq!(error, Some(Error::OutOfFuel));
}

#[test]
fn break_and_continue_exist_as_identifiers() {
    // The root scope binds break and continue as plain identifiers; using
    // one as a while statement signals exactly like the call form.
    let output = run_ok(vec![
        call("let", vec![ident("i"), num(0)]),
        call(
            "while",
            vec![
                fun("<", vec![ident("i"), num(5)]),
                fun("=", vec![ident("i"), fun("+", vec![ident("i"), num(1)])]),
                ident("break"),
                fun("println", vec![text("never")]),
            ],
        ),
        call("println", vec![ident("i")]),
    ]);
    assert_eq!(output, vec!["1".to_string()]);
}

#[test]
fn stdin_yields_input_lines_then_empty_strings() {
    let program = vec![
        call("println", vec![fun("stdin", vec![])]),
        call("println", vec![fun("stdin", vec![])]),
        call("println", vec![fun("stdin", vec![])]),
    ];
    let (output, error) = execute(&program, vec!["hello".to_string(), "world".to_string()], 1000);
    assert_eq!(error, None);
    assert_eq!(
        output,
        vec!["hello".to_string(), "world".to_string(), "".to_string()]
    );
}

#[test]
fn user_function_arguments_shadow_captured_bindings() {
    let output = run_ok(vec![
        call("let", vec![ident("a"), num(10)]),
        call(
            "fn",
            vec![
                ident("f"),
                ident("num"),
                ident("a"),
                ident("num"),
                fun("return", vec![ident("a")]),
            ],
        ),
        call("println", vec![fun("f", vec![num(3)])]),
    ]);
    assert_eq!(output, vec!["3".to_string()]);
}

#[test]
fn duplicate_definitions_first_match_wins() {
    // Defining the same name and signature twice is never rejected; the
    // earlier registration wins resolution.
    let output = run_ok(vec![
        call("fn", vec![ident("f"), ident("num"), fun("return", vec![num(1)])]),
        call("fn", vec![ident("f"), ident("num"), fun("return", vec![num(2)])]),
        call("println", vec![fun("f", vec![])]),
    ]);
    assert_eq!(output, vec!["1".to_string()]);
}

#[test]
fn let_rebinds_and_the_last_binding_wins() {
    let output = run_ok(vec![
        call("let", vec![ident("x"), num(1)]),
        call("let", vec![ident("x"), num(2)]),
        call("println", vec![ident("x")]),
    ]);
    assert_eq!(output, vec!["2".to_string()]);
}

#[test]
fn user_function_without_return_yields_unit() {
    let output = run_ok(vec![
        call("fn", vec![ident("f"), ident("void"), fun("println", vec![text("ran")])]),
        call("println", vec![fun("f", vec![])]),
    ]);
    assert_eq!(output, vec!["ran".to_string(), "()".to_string()]);
}

#[test]
fn continue_reevaluates_the_predicate_exactly_once() {
    // Each iteration evaluates the predicate once, consuming one input
    // line; a continue signal skips the rest of the body and nothing more.
    let program = vec![
        call("let", vec![ident("i"), num(0)]),
        call(
            "while",
            vec![
                fun(
                    "!",
                    vec![fun(
                        "==",
                        vec![fun("trim", vec![fun("stdin", vec![])]), text("stop")],
                    )],
                ),
                fun("=", vec![ident("i"), fun("+", vec![ident("i"), num(1)])]),
                fun("continue", vec![]),
                fun("println", vec![text("skipped")]),
            ],
        ),
        call("println", vec![ident("i")]),
    ];
    let input = vec!["go".to_string(), "go".to_string(), "stop".to_string()];
    let (output, error) = execute(&program, input, 10_000);
    assert_eq!(error, None);
    assert_eq!(output, vec!["2".to_string()]);
}
