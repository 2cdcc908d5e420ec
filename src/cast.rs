//! Casting dynamic values to native parameter types.
use vstd::prelude::*;

use crate::error::CastError;
use crate::value::{PhpVal, ValModel};
use crate::zval::type_of;

verus! {

/// An optional parameter: `Null` and `Undef` are absent, anything else casts as
/// the inner type does.
pub open spec fn optional<T>(v: ValModel, inner: Result<T, CastError>) -> Result<
    Option<T>,
    CastError,
> {
    if v is Null || v is Undef {
        Ok(None)
    } else {
        match inner {
            Ok(x) => Ok(Some(x)),
            Err(e) => Err(e),
        }
    }
}

/// Whether `v` is absent for an optional parameter.
pub fn is_absent(v: &PhpVal) -> (r: bool)
    ensures
        r == (v@ is Null || v@ is Undef),
{
    match v {
        PhpVal::Null => true,
        PhpVal::Undef => true,
        _ => false,
    }
}

pub open spec fn spec_cast_i64(v: ValModel) -> Result<i64, CastError> {
    match v {
        ValModel::Long(n) => Ok(n),
        _ => Err(CastError { actual: type_of(v) }),
    }
}

/// Only an integer casts to an integer parameter.
pub fn cast_i64(v: &PhpVal) -> (r: Result<i64, CastError>)
    ensures
        r == spec_cast_i64(v@),
{
    match v {
        PhpVal::Long(n) => Ok(*n),
        _ => Err(CastError { actual: v.get_type() }),
    }
}

/// As `cast_i64`, with `Null` and `Undef` read as absent.
pub fn cast_option_i64(v: &PhpVal) -> (r: Result<Option<i64>, CastError>)
    ensures
        r == optional(v@, spec_cast_i64(v@)),
{
    if is_absent(v) {
        Ok(None)
    } else {
        match cast_i64(v) {
            Ok(x) => Ok(Some(x)),
            Err(e) => Err(e),
        }
    }
}

pub open spec fn spec_cast_f64_bits(v: ValModel) -> Result<u64, CastError> {
    match v {
        ValModel::Double(d) => Ok(d),
        _ => Err(CastError { actual: type_of(v) }),
    }
}

/// Only a float casts to a float parameter; the result is its bit pattern.
pub fn cast_f64_bits(v: &PhpVal) -> (r: Result<u64, CastError>)
    ensures
        r == spec_cast_f64_bits(v@),
{
    match v {
        PhpVal::Double(d) => Ok(*d),
        _ => Err(CastError { actual: v.get_type() }),
    }
}

/// As `cast_f64_bits`, with `Null` and `Undef` read as absent.
pub fn cast_option_f64_bits(v: &PhpVal) -> (r: Result<Option<u64>, CastError>)
    ensures
        r == optional(v@, spec_cast_f64_bits(v@)),
{
    if is_absent(v) {
        Ok(None)
    } else {
        match cast_f64_bits(v) {
            Ok(x) => Ok(Some(x)),
            Err(e) => Err(e),
        }
    }
}

pub open spec fn spec_cast_bool(v: ValModel) -> Result<bool, CastError> {
    match v {
        ValModel::Bool(b) => Ok(b),
        _ => Err(CastError { actual: type_of(v) }),
    }
}

/// Only a boolean casts to a boolean parameter.
pub fn cast_bool(v: &PhpVal) -> (r: Result<bool, CastError>)
    ensures
        r == spec_cast_bool(v@),
{
    match v {
        PhpVal::Bool(b) => Ok(*b),
        _ => Err(CastError { actual: v.get_type() }),
    }
}

/// As `cast_bool`, with `Null` and `Undef` read as absent.
pub fn cast_option_bool(v: &PhpVal) -> (r: Result<Option<bool>, CastError>)
    ensures
        r == optional(v@, spec_cast_bool(v@)),
{
    if is_absent(v) {
        Ok(None)
    } else {
        match cast_bool(v) {
            Ok(x) => Ok(Some(x)),
            Err(e) => Err(e),
        }
    }
}

pub open spec fn spec_cast_i32(v: ValModel) -> Result<i32, CastError> {
    match v {
        ValModel::Long(n) => Ok(n as i32),
        _ => Err(CastError { actual: type_of(v) }),
    }
}

/// Only an integer casts to `i32`, cut to its width by truncation.
pub fn cast_i32(v: &PhpVal) -> (r: Result<i32, CastError>)
    ensures
        r == spec_cast_i32(v@),
{
    match v {
        PhpVal::Long(n) => Ok(#[verifier::truncate] (*n as i32)),
        _ => Err(CastError { actual: v.get_type() }),
    }
}

/// As `cast_i32`, with `Null` and `Undef` read as absent.
pub fn cast_option_i32(v: &PhpVal) -> (r: Result<Option<i32>, CastError>)
    ensures
        r == optional(v@, spec_cast_i32(v@)),
{
    if is_absent(v) {
        Ok(None)
    } else {
        match cast_i32(v) {
            Ok(x) => Ok(Some(x)),
            Err(e) => Err(e),
        }
    }
}

pub open spec fn spec_cast_i16(v: ValModel) -> Result<i16, CastError> {
    match v {
        ValModel::Long(n) => Ok(n as i16),
        _ => Err(CastError { actual: type_of(v) }),
    }
}

/// Only an integer casts to `i16`, cut to its width by truncation.
pub fn cast_i16(v: &PhpVal) -> (r: Result<i16, CastError>)
    ensures
        r == spec_cast_i16(v@),
{
    match v {
        PhpVal::Long(n) => Ok(#[verifier::truncate] (*n as i16)),
        _ => Err(CastError { actual: v.get_type() }),
    }
}

/// As `cast_i16`, with `Null` and `Undef` read as absent.
pub fn cast_option_i16(v: &PhpVal) -> (r: Result<Option<i16>, CastError>)
    ensures
        r == optional(v@, spec_cast_i16(v@)),
{
    if is_absent(v) {
        Ok(None)
    } else {
        match cast_i16(v) {
            Ok(x) => Ok(Some(x)),
            Err(e) => Err(e),
        }
    }
}

pub open spec fn spec_cast_i8(v: ValModel) -> Result<i8, CastError> {
    match v {
        ValModel::Long(n) => Ok(n as i8),
        _ => Err(CastError { actual: type_of(v) }),
    }
}

/// Only an integer casts to `i8`, cut to its width by truncation.
pub fn cast_i8(v: &PhpVal) -> (r: Result<i8, CastError>)
    ensures
        r == spec_cast_i8(v@),
{
    match v {
        PhpVal::Long(n) => Ok(#[verifier::truncate] (*n as i8)),
        _ => Err(CastError { actual: v.get_type() }),
    }
}

/// As `cast_i8`, with `Null` and `Undef` read as absent.
pub fn cast_option_i8(v: &PhpVal) -> (r: Result<Option<i8>, CastError>)
    ensures
        r == optional(v@, spec_cast_i8(v@)),
{
    if is_absent(v) {
        Ok(None)
    } else {
        match cast_i8(v) {
            Ok(x) => Ok(Some(x)),
            Err(e) => Err(e),
        }
    }
}

pub open spec fn spec_cast_u64(v: ValModel) -> Result<u64, CastError> {
    match v {
        ValModel::Long(n) => Ok(n as u64),
        _ => Err(CastError { actual: type_of(v) }),
    }
}

/// Only an integer casts to `u64`, cut to its width by truncation.
pub fn cast_u64(v: &PhpVal) -> (r: Result<u64, CastError>)
    ensures
        r == spec_cast_u64(v@),
{
    match v {
        PhpVal::Long(n) => Ok(#[verifier::truncate] (*n as u64)),
        _ => Err(CastError { actual: v.get_type() }),
    }
}

/// As `cast_u64`, with `Null` and `Undef` read as absent.
pub fn cast_option_u64(v: &PhpVal) -> (r: Result<Option<u64>, CastError>)
    ensures
        r == optional(v@, spec_cast_u64(v@)),
{
    if is_absent(v) {
        Ok(None)
    } else {
        match cast_u64(v) {
            Ok(x) => Ok(Some(x)),
            Err(e) => Err(e),
        }
    }
}

pub open spec fn spec_cast_u32(v: ValModel) -> Result<u32, CastError> {
    match v {
        ValModel::Long(n) => Ok(n as u32),
        _ => Err(CastError { actual: type_of(v) }),
    }
}

/// Only an integer casts to `u32`, cut to its width by truncation.
pub fn cast_u32(v: &PhpVal) -> (r: Result<u32, CastError>)
    ensures
        r == spec_cast_u32(v@),
{
    match v {
        PhpVal::Long(n) => Ok(#[verifier::truncate] (*n as u32)),
        _ => Err(CastError { actual: v.get_type() }),
    }
}

/// As `cast_u32`, with `Null` and `Undef` read as absent.
pub fn cast_option_u32(v: &PhpVal) -> (r: Result<Option<u32>, CastError>)
    ensures
        r == optional(v@, spec_cast_u32(v@)),
{
    if is_absent(v) {
        Ok(None)
    } else {
        match cast_u32(v) {
            Ok(x) => Ok(Some(x)),
            Err(e) => Err(e),
        }
    }
}

pub open spec fn spec_cast_u16(v: ValModel) -> Result<u16, CastError> {
    match v {
        ValModel::Long(n) => Ok(n as u16),
        _ => Err(CastError { actual: type_of(v) }),
    }
}

/// Only an integer casts to `u16`, cut to its width by truncation.
pub fn cast_u16(v: &PhpVal) -> (r: Result<u16, CastError>)
    ensures
        r == spec_cast_u16(v@),
{
    match v {
        PhpVal::Long(n) => Ok(#[verifier::truncate] (*n as u16)),
        _ => Err(CastError { actual: v.get_type() }),
    }
}

/// As `cast_u16`, with `Null` and `Undef` read as absent.
pub fn cast_option_u16(v: &PhpVal) -> (r: Result<Option<u16>, CastError>)
    ensures
        r == optional(v@, spec_cast_u16(v@)),
{
    if is_absent(v) {
        Ok(None)
    } else {
        match cast_u16(v) {
            Ok(x) => Ok(Some(x)),
            Err(e) => Err(e),
        }
    }
}

pub open spec fn spec_cast_u8(v: ValModel) -> Result<u8, CastError> {
    match v {
        ValModel::Long(n) => Ok(n as u8),
        _ => Err(CastError { actual: type_of(v) }),
    }
}

/// Only an integer casts to `u8`, cut to its width by truncation.
pub fn cast_u8(v: &PhpVal) -> (r: Result<u8, CastError>)
    ensures
        r == spec_cast_u8(v@),
{
    match v {
        PhpVal::Long(n) => Ok(#[verifier::truncate] (*n as u8)),
        _ => Err(CastError { actual: v.get_type() }),
    }
}

/// As `cast_u8`, with `Null` and `Undef` read as absent.
pub fn cast_option_u8(v: &PhpVal) -> (r: Result<Option<u8>, CastError>)
    ensures
        r == optional(v@, spec_cast_u8(v@)),
{
    if is_absent(v) {
        Ok(None)
    } else {
        match cast_u8(v) {
            Ok(x) => Ok(Some(x)),
            Err(e) => Err(e),
        }
    }
}

/// Only a string casts to a string parameter.
pub fn cast_string(v: &PhpVal) -> (r: Result<String, CastError>)
    ensures
        match v@ {
            ValModel::Str(s) => r matches Ok(t) && t@ == s,
            _ => r == Err::<String, CastError>(CastError { actual: type_of(v@) }),
        },
{
    match v {
        PhpVal::String(s) => Ok(s.clone()),
        _ => Err(CastError { actual: v.get_type() }),
    }
}

/// As `cast_string`, with `Null` and `Undef` read as absent.
pub fn cast_option_string(v: &PhpVal) -> (r: Result<Option<String>, CastError>)
    ensures
        if v@ is Null || v@ is Undef {
            r == Ok::<Option<String>, CastError>(None)
        } else {
            match v@ {
                ValModel::Str(s) => r matches Ok(Some(t)) && t@ == s,
                _ => r == Err::<Option<String>, CastError>(CastError { actual: type_of(v@) }),
            }
        },
{
    if is_absent(v) {
        Ok(None)
    } else {
        match cast_string(v) {
            Ok(x) => Ok(Some(x)),
            Err(e) => Err(e),
        }
    }
}

} // verus!
