//! The JSON value model the decoders work on.
//!
//! The exchange's responses arrive as JSON text; whatever parses that text
//! hands the library a [`Json`] tree in which every number is already an
//! exact [`Decimal`], so no precision is lost between the wire and the
//! typed records.

use vstd::prelude::*;

verus! {

use crate::decimal::{canonical, raw_mantissa, raw_scale, spec_parse_ok, Decimal};
use vstd::string::*;

/// A JSON value, with numbers held as exact decimals.
#[derive(Debug, PartialEq)]
pub enum Json {
    Null,
    Bool(bool),
    Num(Decimal),
    Str(String),
    Arr(Vec<Json>),
    Obj(Vec<(String, Json)>),
}

/// Why a decode failed.
#[derive(Debug, Clone, Copy, PartialEq, Eq, Structural)]
pub enum DecodeError {
    /// The response body was not JSON at all (reported by the caller that
    /// parses the text).
    InvalidJson,
    ExpectedArray,
    ExpectedObject,
    ExpectedInt,
    ExpectedNumber,
    ExpectedStringOrNull,
    ExpectedString,
    /// A positional array had the wrong number of elements.
    WrongLength,
    /// The leading order-type tag did not match any expected value.
    UnexpectedDiscriminator,
    /// A named object field was absent.
    MissingField,
}

/// An integer: a number whose scale is zero.
pub open spec fn spec_int(v: Json) -> Result<i64, DecodeError> {
    match v {
        Json::Num(d) => if d.scale() == 0 {
            Ok(d.mantissa64())
        } else {
            Err(DecodeError::ExpectedInt)
        },
        _ => Err(DecodeError::ExpectedInt),
    }
}

/// Any number: a JSON number, or a string spelling a decimal literal.
pub open spec fn spec_num(v: Json) -> Result<Decimal, DecodeError> {
    match v {
        Json::Num(d) => Ok(d),
        Json::Str(s) => if spec_parse_ok(s@) {
            Ok(canonical(raw_mantissa(s@), raw_scale(s@)))
        } else {
            Err(DecodeError::ExpectedNumber)
        },
        _ => Err(DecodeError::ExpectedNumber),
    }
}

/// A string, or null for "absent".
pub open spec fn spec_opt_string(v: Json) -> Result<Option<String>, DecodeError> {
    match v {
        Json::Null => Ok(None),
        Json::Str(s) => Ok(Some(s)),
        _ => Err(DecodeError::ExpectedStringOrNull),
    }
}

/// A string.
pub open spec fn spec_string(v: Json) -> Result<String, DecodeError> {
    match v {
        Json::Str(s) => Ok(s),
        _ => Err(DecodeError::ExpectedString),
    }
}

/// The value of the first field named `key`, if any.
pub open spec fn spec_obj_get(fields: Seq<(String, Json)>, key: Seq<char>) -> Option<Json>
    decreases fields.len(),
{
    if fields.len() == 0 {
        None
    } else if fields[0].0@ == key {
        Some(fields[0].1)
    } else {
        spec_obj_get(fields.drop_first(), key)
    }
}

pub fn as_int(v: &Json) -> (r: Result<i64, DecodeError>)
    ensures
        r == spec_int(*v),
{
    match v {
        Json::Num(d) => match d.as_int() {
            Some(n) => Ok(n),
            None => Err(DecodeError::ExpectedInt),
        },
        _ => Err(DecodeError::ExpectedInt),
    }
}

pub fn as_num(v: &Json) -> (r: Result<Decimal, DecodeError>)
    ensures
        r == spec_num(*v),
{
    match v {
        Json::Num(d) => Ok(*d),
        Json::Str(s) => match Decimal::parse(s.as_str()) {
            Some(d) => Ok(d),
            None => Err(DecodeError::ExpectedNumber),
        },
        _ => Err(DecodeError::ExpectedNumber),
    }
}

pub fn as_opt_string(v: &Json) -> (r: Result<Option<String>, DecodeError>)
    ensures
        r == spec_opt_string(*v),
{
    match v {
        Json::Null => Ok(None),
        Json::Str(s) => Ok(Some(s.clone())),
        _ => Err(DecodeError::ExpectedStringOrNull),
    }
}

pub fn as_string(v: &Json) -> (r: Result<String, DecodeError>)
    ensures
        r == spec_string(*v),
{
    match v {
        Json::Str(s) => Ok(s.clone()),
        _ => Err(DecodeError::ExpectedString),
    }
}

/// Looks a field up by name, returning the first match in wire order.
pub fn obj_get<'a>(fields: &'a Vec<(String, Json)>, key: &str) -> (r: Option<&'a Json>)
    ensures
        match r {
            Some(j) => spec_obj_get(fields@, key@) == Some(*j),
            None => spec_obj_get(fields@, key@) is None,
        },
{
    let k = String::from_str(key);
    let n = fields.len();
    let mut i: usize = 0;
    proof {
        assert(fields@.subrange(0, fields@.len() as int) =~= fields@);
    }
    while i < n
        invariant
            i <= n == fields@.len(),
            k@ == key@,
            spec_obj_get(fields@, key@) == spec_obj_get(
                fields@.subrange(i as int, fields@.len() as int),
                key@,
            ),
        decreases n - i,
    {
        let pair: &(String, Json) = &fields[i];
        let ghost rest = fields@.subrange(i as int, fields@.len() as int);
        proof {
            assert(rest[0] == fields@[i as int]);
            assert(rest.drop_first() =~= fields@.subrange(i as int + 1, fields@.len() as int));
        }
        if pair.0 == k {
            return Some(&pair.1);
        }
        i = i + 1;
    }
    proof {
        assert(fields@.subrange(fields@.len() as int, fields@.len() as int) =~= Seq::<(
            String,
            Json,
        )>::empty());
    }
    None
}

} // verus!
