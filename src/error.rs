//! Errors of argument casting and of the call boundary.
use vstd::prelude::*;
use vstd::string::StringExecFns;

use crate::zval::ZValType;

verus! {

/// A value whose type the declared parameter type does not accept.
#[derive(Debug, Clone, Copy, PartialEq, Eq, Structural)]
pub struct CastError {
    pub actual: ZValType,
}

/// Why the arguments of a call could not be bound to its parameters.
#[derive(Debug, Clone, Copy, PartialEq, Eq, Structural)]
pub enum ArgError {
    /// A parameter's argument did not cast.
    CastError(CastError),
    /// More arguments were passed than the function declares.
    TooManyArguments { expected: usize, got: usize },
}

impl CastError {
    /// The diagnostic shown to the script.
    pub fn message(&self) -> (r: String)
        ensures
            r@ == "Incorrect variable type, got "@ + self.actual.spec_name()@,
    {
        let mut s = String::from_str("Incorrect variable type, got ");
        s.append(self.actual.name());
        s
    }
}

impl From<CastError> for ArgError {
    fn from(e: CastError) -> (r: ArgError)
        ensures
            r == ArgError::CastError(e),
    {
        ArgError::CastError(e)
    }
}

impl vstd::std_specs::convert::FromSpecImpl<CastError> for ArgError {
    open spec fn obeys_from_spec() -> bool {
        true
    }

    open spec fn from_spec(e: CastError) -> ArgError {
        ArgError::CastError(e)
    }
}

pub open spec fn digit_char(d: nat) -> char {
    if d == 0 {
        '0'
    } else if d == 1 {
        '1'
    } else if d == 2 {
        '2'
    } else if d == 3 {
        '3'
    } else if d == 4 {
        '4'
    } else if d == 5 {
        '5'
    } else if d == 6 {
        '6'
    } else if d == 7 {
        '7'
    } else if d == 8 {
        '8'
    } else {
        '9'
    }
}

/// The decimal digits of `n`, most significant first.
pub open spec fn decimal(n: nat) -> Seq<char>
    decreases n,
{
    if n < 10 {
        seq![digit_char(n)]
    } else {
        decimal(n / 10).push(digit_char(n % 10))
    }
}

fn digit_str(d: usize) -> (r: &'static str)
    requires
        d < 10,
    ensures
        r@ == seq![digit_char(d as nat)],
{
    let r = if d == 0 {
        "0"
    } else if d == 1 {
        "1"
    } else if d == 2 {
        "2"
    } else if d == 3 {
        "3"
    } else if d == 4 {
        "4"
    } else if d == 5 {
        "5"
    } else if d == 6 {
        "6"
    } else if d == 7 {
        "7"
    } else if d == 8 {
        "8"
    } else {
        "9"
    };
    proof {
        reveal_strlit("0");
        reveal_strlit("1");
        reveal_strlit("2");
        reveal_strlit("3");
        reveal_strlit("4");
        reveal_strlit("5");
        reveal_strlit("6");
        reveal_strlit("7");
        reveal_strlit("8");
        reveal_strlit("9");
    }
    assert(r@ =~= seq![digit_char(d as nat)]);
    r
}

/// Appends the decimal digits of `n` to `s`.
pub fn append_decimal(s: &mut String, n: usize)
    ensures
        final(s)@ == old(s)@ + decimal(n as nat),
    decreases n,
{
    if n >= 10 {
        append_decimal(s, n / 10);
    }
    s.append(digit_str(n % 10));
    assert(final(s)@ =~= old(s)@ + decimal(n as nat));
}

impl ArgError {
    /// The diagnostic shown to the script.
    pub fn message(&self) -> (r: String)
        ensures
            match self {
                ArgError::CastError(e) => r@ == "Incorrect variable type, got "@
                    + e.actual.spec_name()@,
                ArgError::TooManyArguments { expected, got } => r@
                    == "unexpected number of arguments, expected "@ + decimal(*expected as nat)
                    + ", got "@ + decimal(*got as nat),
            },
    {
        match self {
            ArgError::CastError(e) => e.message(),
            ArgError::TooManyArguments { expected, got } => {
                let mut s = String::from_str("unexpected number of arguments, expected ");
                append_decimal(&mut s, *expected);
                s.append(", got ");
                append_decimal(&mut s, *got);
                s
            },
        }
    }
}

} // verus!
