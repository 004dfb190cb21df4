use func_sharp::interpreter::context::ContextArgument;
use func_sharp::interpreter::context::ContextFunction;
use func_sharp::interpreter::Argument;
use func_sharp::interpreter::Interpreter;
use func_sharp::interpreter::text::num_to_string;
use func_sharp::interpreter::text::parse_number;
use func_sharp::interpreter::text::trim_string;
use func_sharp::interpreter::scope::FunctionScope;
use func_sharp::interpreter::scope::VariableScope;
use func_sharp::interpreter::Error;
use func_sharp::util::OptionalStatic;

#[test]
fn parse_number_reads_decimals() {
    assert_eq!(parse_number(&"123".to_string()), Ok(123));
    assert_eq!(parse_number(&"0".to_string()), Ok(0));
    assert_eq!(parse_number(&"-7".to_string()), Ok(-7));
}

#[test]
fn parse_number_handles_the_extremes() {
    assert_eq!(
        parse_number(&"9223372036854775807".to_string()),
        Ok(i64::MAX)
    );
    assert_eq!(
        parse_number(&"-9223372036854775808".to_string()),
        Ok(i64::MIN)
    );
    assert_eq!(
        parse_number(&"9223372036854775808".to_string()),
        Err(Error::InvalidNumber)
    );
    assert_eq!(
        parse_number(&"-9223372036854775809".to_string()),
        Err(Error::InvalidNumber)
    );
}

#[test]
fn parse_number_rejects_what_is_no_number() {
    assert_eq!(parse_number(&"".to_string()), Err(Error::InvalidNumber));
    assert_eq!(parse_number(&"-".to_string()), Err(Error::InvalidNumber));
    assert_eq!(parse_number(&"12a".to_string()), Err(Error::InvalidNumber));
    assert_eq!(parse_number(&" 1".to_string()), Err(Error::InvalidNumber));
    assert_eq!(parse_number(&"1.5".to_string()), Err(Error::InvalidNumber));
}

#[test]
fn num_to_string_spells_decimals() {
    assert_eq!(num_to_string(0), "0");
    assert_eq!(num_to_string(42), "42");
    assert_eq!(num_to_string(-42), "-42");
    assert_eq!(num_to_string(i64::MAX), "9223372036854775807");
    assert_eq!(num_to_string(i64::MIN), "-9223372036854775808");
}

#[test]
fn numbers_round_trip_through_text() {
    for n in [0i64, 1, -1, 9, 10, -10, 123456789, i64::MAX, i64::MIN] {
        assert_eq!(parse_number(&num_to_string(n)), Ok(n));
    }
}

#[test]
fn trim_string_strips_both_ends() {
    assert_eq!(trim_string(&"  a b \t\r\n".to_string()), "a b");
    assert_eq!(trim_string(&"x".to_string()), "x");
    assert_eq!(trim_string(&"".to_string()), "");
    assert_eq!(trim_string(&" \n ".to_string()), "");
}

#[test]
fn variable_scope_last_binding_wins() {
    let mut scope = VariableScope::new();
    assert_eq!(scope.get(&"x".to_string()), None);
    scope.insert("x".to_string(), 3);
    assert_eq!(scope.get(&"x".to_string()), Some(3));
    scope.insert("x".to_string(), 5);
    assert_eq!(scope.get(&"x".to_string()), Some(5));
    scope.insert("y".to_string(), 7);
    assert_eq!(scope.get(&"x".to_string()), Some(5));
    assert_eq!(scope.get(&"y".to_string()), Some(7));
}

#[test]
fn scope_copies_share_cells_but_not_new_bindings() {
    let mut scope = VariableScope::new();
    scope.insert("x".to_string(), 0);
    let mut copy = scope.duplicate();
    assert_eq!(copy.get(&"x".to_string()), Some(0));
    copy.insert("y".to_string(), 1);
    assert_eq!(scope.get(&"y".to_string()), None);
}

#[test]
fn the_default_registry_holds_every_builtin() {
    let registry = FunctionScope::default();
    assert_eq!(registry.scope.len(), 31);
}

#[test]
fn optional_static_hands_out_the_held_value() {
    let owned: OptionalStatic<u32> = OptionalStatic::Owned(5);
    assert_eq!(*owned.get_ref(), 5);
    let leaked: &'static u32 = Box::leak(Box::new(9));
    let borrowed: OptionalStatic<u32> = OptionalStatic::Static(leaked);
    assert_eq!(*borrowed.get_ref(), 9);
}

#[test]
fn a_raw_argument_where_a_value_is_owed_is_its_own_failure() {
    // The binding forms' second slot demands an already evaluated value;
    // handing the raw program node instead is reported as such.
    let mut it = Interpreter {
        funcs: FunctionScope::default(),
        cells: Vec::new(),
        input: Vec::new(),
        input_at: 0,
        output: Vec::new(),
        fuel: 100,
    };
    let mut scope = VariableScope::new();
    let name = Argument::Ident("x".to_string());
    let value = Argument::Ident("y".to_string());
    let raw_args = vec![name, value];
    let args = vec![
        ContextArgument::Raw(&raw_args[0]),
        ContextArgument::Raw(&raw_args[1]),
    ];
    let r = ContextFunction::Let.execute(&args, &raw_args, &mut it, &mut scope);
    assert_eq!(r, Err(Error::ExpectedValue));
}
