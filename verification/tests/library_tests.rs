use dyneval::{access_single, Error, Library, Std, Value};

#[test]
fn namespace_resolution() {
    assert_eq!(
        Std::from_string(&[String::from("std")], "sqrt"),
        Ok(Std::Sqrt)
    );
    assert_eq!(
        Std::from_string(&[String::from("bogus")], "sqrt"),
        Err(Error::InvalidNamespace)
    );
    assert_eq!(Std::from_string(&[], "bogus"), Err(Error::UnknownFunction));
    assert_eq!(Std::from_string(&[], "abs"), Ok(Std::Abs));
    assert_eq!(
        Std::from_string(&[String::from("std"), String::from("std")], "min"),
        Ok(Std::Min)
    );
}

#[test]
fn library_constants() {
    assert_eq!(Std::namespace(), "std");
    assert_eq!(Std::max_args(), 2);
    assert!(Std::Sqrt.is_const());
}

#[test]
fn calls_check_arity_and_types() {
    assert_eq!(Std::Sqrt.call(&[Value::Int(25)]), Ok(Value::Int(5)));
    assert_eq!(Std::Sqrt.call(&[Value::Int(24)]), Ok(Value::Int(4)));
    assert_eq!(Std::Sqrt.call(&[Value::Int(0)]), Ok(Value::Int(0)));
    assert_eq!(Std::Sqrt.call(&[]), Err(Error::InvalidArg));
    assert_eq!(Std::Sqrt.call(&[Value::Int(-1)]), Err(Error::InvalidArg));
    assert_eq!(
        Std::Sqrt.call(&[Value::Float(4.0f64.to_bits())]),
        Err(Error::InvalidType)
    );
    assert_eq!(Std::Abs.call(&[Value::Int(-3)]), Ok(Value::Int(3)));
    assert_eq!(Std::Abs.call(&[Value::Int(i64::MIN)]), Err(Error::InvalidArg));
    assert_eq!(
        Std::Min.call(&[Value::Int(2), Value::Int(-2)]),
        Ok(Value::Int(-2))
    );
    assert_eq!(
        Std::Min.call(&[Value::Int(2), Value::Float(1.0f64.to_bits())]),
        Err(Error::InvalidType)
    );
}

#[test]
fn value_conversions_are_checked() {
    assert_eq!(Value::Int(3).try_int(), Ok(3));
    assert_eq!(Value::Float(1.0f64.to_bits()).try_int(), Err(Error::InvalidType));
    assert_eq!(
        Value::Float(1.0f64.to_bits()).try_float_bits(),
        Ok(1.0f64.to_bits())
    );
    assert_eq!(Value::Int(3).try_float_bits(), Err(Error::InvalidType));
}

#[test]
fn access_single_walks_an_argument_array() {
    let args = [Value::Int(1), Value::Int(2)];
    let mut count: usize = 0;
    assert_eq!(access_single(&mut count, &args), Value::Int(1));
    assert_eq!(access_single(&mut count, &args), Value::Int(2));
    assert_eq!(count, 2);
}
