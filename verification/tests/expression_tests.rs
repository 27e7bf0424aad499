use dyneval::{Error, Expression, Library, Std, Value, VariableIndex, Variables};

fn eval_str(text: &str) -> Result<Value, Error> {
    let mut e = Expression::<Std>::new(String::from(text));
    e.parse()?;
    e.eval()
}

#[test]
fn it_works() {
    let result = 2 + 2;
    assert_eq!(result, 4);
}

#[test]
fn precedence_mul_binds_tighter() {
    assert_eq!(eval_str("1+2*3"), Ok(Value::Int(7)));
    assert_eq!(eval_str("(1+2)*3"), Ok(Value::Int(9)));
}

#[test]
fn nested_grouping() {
    assert_eq!(eval_str("2*(3+4*(5-1))"), Ok(Value::Int(38)));
}

#[test]
fn unary_minus_synthesis() {
    assert_eq!(eval_str("4+-2"), Ok(Value::Int(2)));
    assert_eq!(eval_str("-3+5"), Ok(Value::Int(2)));
    assert_eq!(eval_str("-3*5"), Ok(Value::Int(-15)));
    assert_eq!(eval_str("(-3)"), Ok(Value::Int(-3)));
}

#[test]
fn left_associativity() {
    assert_eq!(eval_str("10-4-3"), Ok(Value::Int(3)));
    assert_eq!(eval_str("100/10/5"), Ok(Value::Int(2)));
    assert_eq!(eval_str("1+2*3+4"), Ok(Value::Int(11)));
    assert_eq!(eval_str("1*2+3*4+5"), Ok(Value::Int(19)));
}

#[test]
fn spaces_are_ignored() {
    assert_eq!(eval_str(" 1 + 2 * 3 "), Ok(Value::Int(7)));
    assert_eq!(eval_str("1 2+3"), Ok(Value::Int(15)));
}

#[test]
fn division_and_remainder() {
    assert_eq!(eval_str("7/2"), Ok(Value::Int(3)));
    assert_eq!(eval_str("7%3"), Ok(Value::Int(1)));
    assert_eq!(eval_str("1/0"), Err(Error::InvalidArg));
    assert_eq!(eval_str("5%0"), Err(Error::InvalidArg));
}

#[test]
fn variables_interned_first_seen() {
    let mut e = Expression::<Std>::new(String::from("a+b+a"));
    assert_eq!(e.parse(), Ok(()));
    let ia = e.set_variable("a", Value::Int(5));
    let ib = e.set_variable("b", Value::Int(2));
    assert_ne!(ia, ib);
    assert_eq!(e.eval(), Ok(Value::Int(12)));
    let ia2 = e.set_variable("a", Value::Int(1));
    assert_eq!(ia, ia2);
    assert_eq!(e.eval(), Ok(Value::Int(4)));
}

#[test]
fn unset_variable_defaults_to_zero() {
    assert_eq!(eval_str("x+1"), Ok(Value::Int(1)));
}

#[test]
fn round_trip_same_source_same_result() {
    let mut e1 = Expression::<Std>::new(String::from("x*3+y"));
    let mut e2 = Expression::<Std>::new(String::from("x*3+y"));
    assert_eq!(e1.parse(), Ok(()));
    assert_eq!(e2.parse(), Ok(()));
    e1.set_variable("x", Value::Int(4));
    e1.set_variable("y", Value::Int(1));
    e2.set_variable("x", Value::Int(4));
    e2.set_variable("y", Value::Int(1));
    assert_eq!(e1.eval(), e2.eval());
    assert_eq!(e1.eval(), Ok(Value::Int(13)));
}

#[test]
fn malformed_input_is_refused() {
    let mut e = Expression::<Std>::new(String::from("1+(2"));
    assert_eq!(e.parse(), Err(Error::UnbalancedBracket));
    assert_eq!(e.eval(), Err(Error::NotCompiled));

    let mut empty = Expression::<Std>::new(String::from(""));
    assert_eq!(empty.parse(), Err(Error::EmptyExpression));
    let mut blank = Expression::<Std>::new(String::from("   "));
    assert_eq!(blank.parse(), Err(Error::EmptyExpression));

    assert_eq!(eval_str("1)"), Err(Error::UnbalancedBracket));
    assert_eq!(eval_str("1+"), Err(Error::UnexpectedToken));
    assert_eq!(eval_str("1 , 2"), Err(Error::UnexpectedToken));
    assert_eq!(eval_str("(1)(2)"), Err(Error::UnexpectedToken));
    assert_eq!(eval_str("1@2"), Err(Error::UnkownCharacter('@')));
    assert_eq!(eval_str("a:"), Err(Error::UnexpectedToken));
    assert_eq!(eval_str("std::x+1"), Err(Error::UnexpectedToken));
}

#[test]
fn eval_before_parse_reports_not_compiled() {
    let e = Expression::<Std>::new(String::from("1+1"));
    assert_eq!(e.eval(), Err(Error::NotCompiled));
}

#[test]
fn set_expression_drops_compiled_form() {
    let mut e = Expression::<Std>::new(String::from("1+1"));
    assert_eq!(e.parse(), Ok(()));
    assert_eq!(e.eval(), Ok(Value::Int(2)));
    e.set_expression(String::from("2+3"));
    assert_eq!(e.eval(), Err(Error::NotCompiled));
    assert_eq!(e.parse(), Ok(()));
    assert_eq!(e.eval(), Ok(Value::Int(5)));
}

#[test]
fn mixed_variants_are_a_type_error() {
    assert_eq!(eval_str("1+1.5"), Err(Error::InvalidType));
    assert_eq!(eval_str("2.5*3"), Err(Error::InvalidType));

    let mut e = Expression::<Std>::new(String::from("a+1"));
    assert_eq!(e.parse(), Ok(()));
    e.set_variable("a", Value::Float(2.5f64.to_bits()));
    assert_eq!(e.eval(), Err(Error::InvalidType));
}

#[test]
fn float_literals_carry_their_bits() {
    assert_eq!(eval_str("1.5"), Ok(Value::Float(1.5f64.to_bits())));
    assert_eq!(eval_str(".5"), Ok(Value::Float(0.5f64.to_bits())));
    assert_eq!(eval_str("2."), Ok(Value::Float(2.0f64.to_bits())));
}

#[test]
fn float_arithmetic_stays_outside() {
    assert_eq!(eval_str("1.5+2.5"), Err(Error::InvalidType));
}

#[test]
fn operators_without_evaluation_rule_are_refused() {
    assert_eq!(eval_str("2^3"), Err(Error::InvalidToken));
    assert_eq!(eval_str("1<2"), Err(Error::InvalidToken));
    assert_eq!(eval_str("1>=2"), Err(Error::InvalidToken));
}

#[test]
fn integer_overflow_wraps() {
    assert_eq!(
        eval_str("9223372036854775807+1"),
        Ok(Value::Int(i64::MIN))
    );
    assert_eq!(eval_str("9223372036854775808"), Err(Error::InvalidToken));
}

#[test]
fn function_calls_evaluate_through_the_library() {
    assert_eq!(eval_str("sqrt(9)+1"), Ok(Value::Int(4)));
    assert_eq!(eval_str("sqrt(15)"), Ok(Value::Int(3)));
    assert_eq!(eval_str("min(3,5)"), Ok(Value::Int(3)));
    assert_eq!(eval_str("abs(0-7)"), Ok(Value::Int(7)));
    assert_eq!(eval_str("sqrt(min(16,25))"), Ok(Value::Int(4)));
    assert_eq!(eval_str("1+sqrt(4)*3"), Ok(Value::Int(7)));
    assert_eq!(eval_str("min(1+2*3,2*(3+1))"), Ok(Value::Int(7)));
}

#[test]
fn namespaced_call_through_the_whole_pipeline() {
    assert_eq!(eval_str("std::sqrt(16)"), Ok(Value::Int(4)));
    assert_eq!(eval_str("bogus::sqrt(16)"), Err(Error::InvalidNamespace));
}

#[test]
fn parse() {
    let a = [1, 2, 3, 4];
    let b = &a[0..=0];
    let _ = Std::from_string(&[String::from("std")], "print");
    let _ = b;
    let mut expression = Expression::<Std>::new(String::from("std::print(std::print(3))"));
    let _ = expression.parse();
}

#[test]
fn pushing_after_compilation_is_refused() {
    let mut e = Expression::<Std>::new(String::from("1+1"));
    assert_eq!(e.parse(), Ok(()));
    assert_eq!(e.storage.push(0, '2'), Err(Error::AlreadyCompiled));
}

#[test]
fn variable_table_refuses_unknown_slots() {
    let mut vars = Variables::new();
    let ix = vars.find_or_set("a");
    assert_eq!(ix, VariableIndex(0));
    assert_eq!(vars.set(ix, Value::Int(9)), Ok(()));
    assert_eq!(vars.get(ix), Some(Value::Int(9)));
    assert_eq!(vars.set(VariableIndex(7), Value::Int(1)), Err(Error::InvalidVariable));
    assert_eq!(vars.get(VariableIndex(7)), None);
    assert_eq!(vars.len(), 1);
}

#[test]
fn function_call_errors() {
    assert_eq!(eval_str("nosuch(1)"), Err(Error::UnknownFunction));
    assert_eq!(eval_str("min(1)"), Err(Error::InvalidArg));
    assert_eq!(eval_str("sqrt(1,2)"), Err(Error::InvalidArg));
    assert_eq!(eval_str("sqrt(0-4)"), Err(Error::InvalidArg));
    assert_eq!(eval_str("sqrt(1.5)"), Err(Error::InvalidType));
    assert_eq!(eval_str("min(1,2,3)"), Err(Error::InvalidArg));
    assert_eq!(eval_str("min(1,)"), Err(Error::UnexpectedToken));
    assert_eq!(eval_str("sqrt(4"), Err(Error::UnbalancedBracket));
}

#[test]
fn grouping_edge_cases() {
    assert_eq!(eval_str("((1+2))*2"), Ok(Value::Int(6)));
    assert_eq!(eval_str("sqrt((1+3)*4)"), Ok(Value::Int(4)));
    assert_eq!(eval_str("min( 1 , 2 )"), Ok(Value::Int(1)));
    assert_eq!(eval_str("(5)"), Ok(Value::Int(5)));
}
