use vstd::prelude::*;

use crate::error::Error;
use crate::value::Value;
use crate::variables::name_views;

verus! {

/// The dispatch contract a registry of callable functions offers the
/// evaluator. Host code implements it to expose its own namespaces; libraries
/// compose by importing one another and delegating both resolution and calls.
pub trait Library: Sized {
    /// The lowercase name this library answers to in a namespace chain.
    fn namespace() -> &'static str;

    /// The largest argument count across every function this library,
    /// including its imports, can dispatch.
    fn max_args() -> usize;

    /// Resolve a namespace chain and an identifier to a callable value. A
    /// non-empty chain must begin with this library's own namespace, or with
    /// the namespace of an imported library to delegate to; an empty chain
    /// matches the identifier against the declared function names.
    fn from_string(namespaces: &[String], identifier: &str) -> Result<Self, Error>;

    /// Apply the callable to evaluated argument values.
    fn call(&self, args: &[Value]) -> Result<Value, Error>;

    /// Whether the callable is free of observable side effects.
    fn is_const(&self) -> bool;
}

/// Read one element of a dispatch argument array and advance the cursor: the
/// small helper a hand-written dispatch table uses to pull successive
/// arguments.
pub fn access_single<T: Copy>(count: &mut usize, array: &[T]) -> (r: T)
    requires
        *old(count) < array@.len(),
    ensures
        r == array@[*old(count) as int],
        *final(count) == *old(count) + 1,
{
    let temp = array[*count];
    *count = *count + 1;
    temp
}

/// Whether two string slices hold the same characters.
pub fn str_eq(a: &str, b: &str) -> (r: bool)
    ensures
        r == (a@ == b@),
{
    let sa: String = a.to_owned();
    let sb: String = b.to_owned();
    sa.eq(&sb)
}

/// The standard library: a few integer functions under the namespace `std`.
#[derive(Debug, Clone, Copy, PartialEq, Eq, Structural)]
pub enum Std {
    Sqrt,
    Abs,
    Min,
}

/// What resolving a namespace chain and an identifier against `Std` yields,
/// starting at chain position `i`: every chain element must read `std`, and
/// the identifier must name one of the declared functions.
pub open spec fn std_resolve_from(ns: Seq<Seq<char>>, i: int, id: Seq<char>) -> Result<Std, Error>
    decreases ns.len() - i,
{
    if i < 0 || i >= ns.len() {
        if id == "sqrt"@ {
            Ok(Std::Sqrt)
        } else if id == "abs"@ {
            Ok(Std::Abs)
        } else if id == "min"@ {
            Ok(Std::Min)
        } else {
            Err(Error::UnknownFunction)
        }
    } else if ns[i] == "std"@ {
        std_resolve_from(ns, i + 1, id)
    } else {
        Err(Error::InvalidNamespace)
    }
}

/// `r * r <= n < (r + 1) * (r + 1)` with `r` non-negative: `r` is the integer
/// square root of `n`.
pub open spec fn is_isqrt(n: int, r: int) -> bool {
    0 <= r && r * r <= n && n < (r + 1) * (r + 1)
}

/// The floor of the square root of a non-negative integer.
fn isqrt(n: i64) -> (r: i64)
    requires
        n >= 0,
    ensures
        is_isqrt(n as int, r as int),
{
    let mut r: i64 = 0;
    loop
        invariant
            0 <= r <= n,
            r * r <= n,
        decreases n - r,
    {
        assert(r <= 3037000499) by (nonlinear_arith)
            requires
                r >= 0 && r * r <= n && n < 9223372036854775808,
        ;
        assert((r as int + 1) * (r as int + 1) <= 3037000500 * 3037000500) by (nonlinear_arith)
            requires
                0 <= r as int + 1 <= 3037000500,
        ;
        let next = (r as i128 + 1) * (r as i128 + 1);
        if next > n as i128 {
            return r;
        }
        assert((r + 1) * (r + 1) <= n);
        assert(r + 1 <= n) by (nonlinear_arith)
            requires
                (r + 1) * (r + 1) <= n && r >= 0,
        ;
        r = r + 1;
    }
}

impl Std {
    /// Resolve a namespace chain and an identifier, exactly as
    /// `std_resolve_from` says: the whole chain must read `std`, and the
    /// identifier must be `sqrt`, `abs` or `min`.
    pub fn resolve(namespaces: &[String], identifier: &str) -> (r: Result<Std, Error>)
        ensures
            r == std_resolve_from(name_views(namespaces@), 0, identifier@),
    {
        let n = namespaces.len();
        let mut i: usize = 0;
        while i < n
            invariant
                n == namespaces@.len(),
                i <= n,
                std_resolve_from(name_views(namespaces@), 0, identifier@) == std_resolve_from(
                    name_views(namespaces@),
                    i as int,
                    identifier@,
                ),
            decreases n - i,
        {
            let ok = str_eq(namespaces[i].as_str(), "std");
            assert(name_views(namespaces@)[i as int] == namespaces@[i as int]@);
            if !ok {
                return Err(Error::InvalidNamespace);
            }
            i = i + 1;
        }
        if str_eq(identifier, "sqrt") {
            Ok(Std::Sqrt)
        } else if str_eq(identifier, "abs") {
            Ok(Std::Abs)
        } else if str_eq(identifier, "min") {
            Ok(Std::Min)
        } else {
            Err(Error::UnknownFunction)
        }
    }

    /// Apply the function to its arguments.
    ///
    /// Every function first checks its arity, refusing anything else with
    /// `InvalidArg`, and converts each argument to an integer, refusing a
    /// float with `InvalidType`. `sqrt` returns the floor of the square root
    /// and refuses a negative argument with `InvalidArg`; `abs` returns the
    /// absolute value and refuses the one unrepresentable input with
    /// `InvalidArg`; `min` returns the smaller argument.
    pub fn dispatch(&self, args: &[Value]) -> (r: Result<Value, Error>)
        ensures
            *self == Std::Sqrt && args@.len() != 1 ==> r == Err::<Value, Error>(Error::InvalidArg),
            *self == Std::Sqrt && args@.len() == 1 ==> match args@[0] {
                Value::Float(_) => r == Err::<Value, Error>(Error::InvalidType),
                Value::Int(a) => if a < 0 {
                    r == Err::<Value, Error>(Error::InvalidArg)
                } else {
                    r matches Ok(Value::Int(s)) && is_isqrt(a as int, s as int)
                },
            },
            *self == Std::Abs && args@.len() != 1 ==> r == Err::<Value, Error>(Error::InvalidArg),
            *self == Std::Abs && args@.len() == 1 ==> match args@[0] {
                Value::Float(_) => r == Err::<Value, Error>(Error::InvalidType),
                Value::Int(a) => if a == i64::MIN {
                    r == Err::<Value, Error>(Error::InvalidArg)
                } else if a < 0 {
                    r == Ok::<Value, Error>(Value::Int((-(a as int)) as i64))
                } else {
                    r == Ok::<Value, Error>(Value::Int(a))
                },
            },
            *self == Std::Min && args@.len() != 2 ==> r == Err::<Value, Error>(Error::InvalidArg),
            *self == Std::Min && args@.len() == 2 ==> match (args@[0], args@[1]) {
                (Value::Int(a), Value::Int(b)) => r == Ok::<Value, Error>(
                    Value::Int(if a <= b { a } else { b }),
                ),
                (Value::Float(_), _) => r == Err::<Value, Error>(Error::InvalidType),
                (Value::Int(_), Value::Float(_)) => r == Err::<Value, Error>(Error::InvalidType),
            },
    {
        match self {
            Std::Sqrt => {
                if args.len() != 1 {
                    return Err(Error::InvalidArg);
                }
                let a = args[0].try_int()?;
                if a < 0 {
                    return Err(Error::InvalidArg);
                }
                Ok(Value::Int(isqrt(a)))
            },
            Std::Abs => {
                if args.len() != 1 {
                    return Err(Error::InvalidArg);
                }
                let a = args[0].try_int()?;
                if a == i64::MIN {
                    return Err(Error::InvalidArg);
                }
                if a < 0 {
                    Ok(Value::Int(-a))
                } else {
                    Ok(Value::Int(a))
                }
            },
            Std::Min => {
                if args.len() != 2 {
                    return Err(Error::InvalidArg);
                }
                let a = args[0].try_int()?;
                let b = args[1].try_int()?;
                if a <= b {
                    Ok(Value::Int(a))
                } else {
                    Ok(Value::Int(b))
                }
            },
        }
    }
}

impl Library for Std {
    fn namespace() -> &'static str {
        "std"
    }

    fn max_args() -> usize {
        2
    }

    fn from_string(namespaces: &[String], identifier: &str) -> Result<Std, Error> {
        Std::resolve(namespaces, identifier)
    }

    fn call(&self, args: &[Value]) -> Result<Value, Error> {
        self.dispatch(args)
    }

    fn is_const(&self) -> bool {
        true
    }
}

} // verus!
