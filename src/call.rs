//! The call boundary: checking a call's arguments against the declared
//! parameters before the function body runs.
use vstd::prelude::*;

use crate::cast::{optional, spec_cast_bool};
use crate::error::{ArgError, CastError};
use crate::value::{PhpVal, ValModel};
use crate::zval::{type_of, ZValType};

verus! {

/// The native type of a parameter.
#[derive(Debug, Clone, Copy, PartialEq, Eq, Structural)]
pub enum NativeType {
    /// A signed or unsigned integer of any width.
    Long,
    /// A float.
    Double,
    Bool,
    String,
    /// The dynamic value itself, whatever it is.
    Value,
}

/// A declared parameter: its native type, and whether it is optional.
#[derive(Debug, Clone, Copy, PartialEq, Eq, Structural)]
pub struct ParamType {
    pub native: NativeType,
    pub optional: bool,
}

/// Whether a parameter of type `p` accepts `v`.
pub open spec fn accepts(p: ParamType, v: ValModel) -> bool {
    if p.optional && (v is Null || v is Undef) {
        true
    } else {
        match p.native {
            NativeType::Long => v is Long,
            NativeType::Double => v is Double,
            NativeType::Bool => v is Bool,
            NativeType::String => v is Str,
            NativeType::Value => true,
        }
    }
}

/// Checks that a parameter of type `p` accepts `v`.
pub fn check_param(p: ParamType, v: &PhpVal) -> (r: Result<(), CastError>)
    ensures
        r == if accepts(p, v@) {
            Ok(())
        } else {
            Err(CastError { actual: type_of(v@) })
        },
{
    if p.optional {
        match v {
            PhpVal::Null => return Ok(()),
            PhpVal::Undef => return Ok(()),
            _ => {},
        }
    }
    let ok = match p.native {
        NativeType::Long => matches!(v, PhpVal::Long(_)),
        NativeType::Double => matches!(v, PhpVal::Double(_)),
        NativeType::Bool => matches!(v, PhpVal::Bool(_)),
        NativeType::String => matches!(v, PhpVal::String(_)),
        NativeType::Value => true,
    };
    if ok {
        Ok(())
    } else {
        Err(CastError { actual: v.get_type() })
    }
}

/// The arguments `args` filled up to `n` with `Undef` for those not passed.
pub open spec fn padded(args: Seq<ValModel>, n: nat) -> Seq<ValModel> {
    Seq::new(n, |i: int| if i < args.len() { args[i] } else { ValModel::Undef })
}

/// The first rejection among the first `n` parameters, in order.
pub open spec fn first_rejection(params: Seq<ParamType>, vals: Seq<ValModel>, n: int) -> Option<
    CastError,
>
    decreases n,
{
    if n <= 0 {
        None
    } else {
        match first_rejection(params, vals, n - 1) {
            Some(e) => Some(e),
            None => if accepts(params[n - 1], vals[n - 1]) {
                None
            } else {
                Some(CastError { actual: type_of(vals[n - 1]) })
            },
        }
    }
}

/// The outcome of a call with `args` to a function with parameters `params`:
/// too many arguments fail the call; otherwise missing ones are `Undef`, and
/// the first parameter that does not accept its argument fails it.
pub open spec fn bind(params: Seq<ParamType>, args: Seq<ValModel>) -> Result<Seq<ValModel>, ArgError> {
    if args.len() > params.len() {
        Err(ArgError::TooManyArguments { expected: params.len() as usize, got: args.len() as usize })
    } else {
        let vals = padded(args, params.len());
        match first_rejection(params, vals, params.len() as int) {
            Some(e) => Err(ArgError::CastError(e)),
            None => Ok(vals),
        }
    }
}

pub open spec fn values_view(vs: Seq<PhpVal>) -> Seq<ValModel> {
    Seq::new(vs.len(), |i: int| vs[i]@)
}

/// Binds the arguments of a call to the declared parameters, as `bind` says;
/// on success the arguments come back filled up with `Undef`.
pub fn bind_arguments(params: &Vec<ParamType>, args: Vec<PhpVal>) -> (r: Result<Vec<PhpVal>, ArgError>)
    ensures
        match r {
            Ok(vs) => bind(params@, values_view(args@)) == Ok::<Seq<ValModel>, ArgError>(
                values_view(vs@),
            ),
            Err(e) => bind(params@, values_view(args@)) == Err::<Seq<ValModel>, ArgError>(e),
        },
{
    let ghost a = values_view(args@);
    if args.len() > params.len() {
        return Err(ArgError::TooManyArguments { expected: params.len(), got: args.len() });
    }
    let mut vals = args;
    while vals.len() < params.len()
        invariant
            a == values_view(args@),
            a.len() <= vals@.len() <= params@.len(),
            forall|i: int| 0 <= i < vals@.len() ==> #[trigger] vals@[i]@ == padded(a, params@.len())[i],
        decreases params@.len() - vals@.len(),
    {
        vals.push(PhpVal::Undef);
    }
    let ghost pv = padded(a, params@.len());
    assert(values_view(vals@) =~= pv);
    let mut i: usize = 0;
    while i < params.len()
        invariant
            i <= params@.len(),
            vals@.len() == params@.len(),
            values_view(vals@) == pv,
            a == values_view(args@),
            a.len() <= params@.len(),
            pv == padded(a, params@.len()),
            first_rejection(params@, pv, i as int) is None,
        decreases params@.len() - i,
    {
        match check_param(params[i], &vals[i]) {
            Ok(()) => {},
            Err(e) => {
                proof {
                    assert(pv[i as int] == values_view(vals@)[i as int]);
                    assert(first_rejection(params@, pv, i + 1) == Some(e));
                    lemma_first_rejection_stays(params@, pv, i + 1, params@.len() as int);
                }
                return Err(ArgError::CastError(e));
            },
        }
        i = i + 1;
    }
    Ok(vals)
}

proof fn lemma_first_rejection_stays(params: Seq<ParamType>, vals: Seq<ValModel>, n: int, n2: int)
    requires
        0 < n <= n2,
        first_rejection(params, vals, n) is Some,
    ensures
        first_rejection(params, vals, n2) == first_rejection(params, vals, n),
    decreases n2 - n,
{
    if n2 > n {
        lemma_first_rejection_stays(params, vals, n, n2 - 1);
    }
}

/// A function of one parameter: two arguments are too many; no argument
/// fails the cast of that parameter unless it is optional (or takes any
/// value), and an optional one is then absent.
pub proof fn lemma_arity(p: ParamType, a: ValModel, b: ValModel)
    ensures
        bind(seq![p], seq![a, b]) == Err::<Seq<ValModel>, ArgError>(
            ArgError::TooManyArguments { expected: 1, got: 2 },
        ),
        !p.optional && p.native != NativeType::Value ==> bind(seq![p], Seq::empty())
            == Err::<Seq<ValModel>, ArgError>(
            ArgError::CastError(CastError { actual: ZValType::Undef }),
        ),
        p.optional ==> bind(seq![p], Seq::empty()) == Ok::<Seq<ValModel>, ArgError>(
            seq![ValModel::Undef],
        ),
        p.optional ==> optional(ValModel::Undef, spec_cast_bool(ValModel::Undef)) == Ok::<
            Option<bool>,
            CastError,
        >(None),
{
    let vals = padded(Seq::empty(), 1);
    assert(vals =~= seq![ValModel::Undef]);
    assert(first_rejection(seq![p], vals, 0) is None);
}

/// An optional boolean takes `Null`, `Undef` and any boolean, and refuses an
/// integer and a string.
pub proof fn lemma_optional_bool(v: ValModel)
    ensures
        (v is Null || v is Undef) ==> optional(v, spec_cast_bool(v)) == Ok::<
            Option<bool>,
            CastError,
        >(None),
        v matches ValModel::Bool(b) ==> optional(v, spec_cast_bool(v)) == Ok::<
            Option<bool>,
            CastError,
        >(Some(b)),
        (v is Long || v is Str) ==> optional(v, spec_cast_bool(v)) is Err,
        accepts(ParamType { native: NativeType::Bool, optional: true }, v) <==> (v is Null
            || v is Undef || v is Bool),
{
}

} // verus!
