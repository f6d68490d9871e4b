use crate::error::{DecodeError, Failure, Shape, agrees};
use crate::json::{Json, find_member, member, raw_of, raw_text};
use crate::scalar::{
    Decimal, Timestamp, decimal_value, parse_decimal, parse_i64, parse_u32, parse_usize, signed_value,
    unsigned_value, within,
};
use vstd::prelude::*;

verus! {

/// A member that must be present.
pub open spec fn spec_member(fields: Seq<(String, Json)>, key: Seq<char>) -> Result<Json, Failure> {
    match member(fields, key) {
        Some(v) => Ok(v),
        None => Err(Failure::MissingField(key)),
    }
}

/// A string value, taken as it is; any other value is malformed.
pub open spec fn spec_text(j: Json, field: Seq<char>) -> Result<String, Failure> {
    match j {
        Json::Str(s) => Ok(s),
        _ => Err(Failure::MalformedScalar(field, raw_of(j))),
    }
}

/// A decimal carried as a string.
pub open spec fn spec_decimal(j: Json, field: Seq<char>) -> Result<Decimal, Failure> {
    match j {
        Json::Str(s) => match decimal_value(s@) {
            Some(d) => Ok(d),
            None => Err(Failure::MalformedScalar(field, s@)),
        },
        _ => Err(Failure::MalformedScalar(field, raw_of(j))),
    }
}

/// An unsigned integer carried as a string.
pub open spec fn spec_usize(j: Json, field: Seq<char>) -> Result<usize, Failure> {
    match j {
        Json::Str(s) => match within(unsigned_value(s@), 0, usize::MAX as int) {
            Some(v) => Ok(v as usize),
            None => Err(Failure::MalformedScalar(field, s@)),
        },
        _ => Err(Failure::MalformedScalar(field, raw_of(j))),
    }
}

/// A `u32` carried as a JSON number.
pub open spec fn spec_u32(j: Json, field: Seq<char>) -> Result<u32, Failure> {
    match j {
        Json::Number(s) => match within(signed_value(s@), 0, u32::MAX as int) {
            Some(v) => Ok(v as u32),
            None => Err(Failure::MalformedScalar(field, s@)),
        },
        _ => Err(Failure::MalformedScalar(field, raw_of(j))),
    }
}

/// The instant `n` nanoseconds after the epoch, where `s` writes `n`.
pub open spec fn instant_of(s: Seq<char>, field: Seq<char>) -> Result<Timestamp, Failure> {
    match within(signed_value(s), i64::MIN as int, i64::MAX as int) {
        Some(v) => Ok(Timestamp { nanos: v as i64 }),
        None => Err(Failure::MalformedScalar(field, s)),
    }
}

/// A timestamp carried as a string of digits.
pub open spec fn spec_timestamp_str(j: Json, field: Seq<char>) -> Result<Timestamp, Failure> {
    match j {
        Json::Str(s) => instant_of(s@, field),
        _ => Err(Failure::MalformedScalar(field, raw_of(j))),
    }
}

/// A timestamp carried as a JSON integer.
pub open spec fn spec_timestamp_int(j: Json, field: Seq<char>) -> Result<Timestamp, Failure> {
    match j {
        Json::Number(s) => instant_of(s@, field),
        _ => Err(Failure::MalformedScalar(field, raw_of(j))),
    }
}

/// The members of an object.
pub open spec fn spec_object(j: Json) -> Result<Seq<(String, Json)>, Failure> {
    match j {
        Json::Object(fields) => Ok(fields@),
        _ => Err(Failure::WrongType(Shape::Object)),
    }
}

/// The elements of an array.
pub open spec fn spec_array(j: Json) -> Result<Seq<Json>, Failure> {
    match j {
        Json::Array(items) => Ok(items@),
        _ => Err(Failure::WrongType(Shape::Array)),
    }
}

/// Looks up a required member.
pub fn required<'a>(fields: &'a Vec<(String, Json)>, key: &str) -> (r: Result<&'a Json, DecodeError>)
    ensures
        match r {
            Ok(v) => spec_member(fields@, key@) == Ok::<Json, Failure>(*v),
            Err(e) => spec_member(fields@, key@) == Err::<Json, Failure>(e@),
        },
{
    match find_member(fields, key) {
        Some(v) => Ok(v),
        None => Err(DecodeError::MissingField { name: key.to_owned() }),
    }
}

/// Takes a string value.
pub fn text(j: &Json, field: &str) -> (r: Result<String, DecodeError>)
    ensures
        agrees(r, spec_text(*j, field@)),
{
    match j {
        Json::Str(s) => Ok(s.clone()),
        _ => Err(DecodeError::MalformedScalar { field: field.to_owned(), raw: raw_text(j) }),
    }
}

/// Parses a decimal carried as a string.
pub fn parse_from_str(j: &Json, field: &str) -> (r: Result<Decimal, DecodeError>)
    ensures
        agrees(r, spec_decimal(*j, field@)),
{
    match j {
        Json::Str(s) => match parse_decimal(s.as_str()) {
            Some(d) => Ok(d),
            None => Err(DecodeError::MalformedScalar { field: field.to_owned(), raw: s.clone() }),
        },
        _ => Err(DecodeError::MalformedScalar { field: field.to_owned(), raw: raw_text(j) }),
    }
}

/// Parses an unsigned integer carried as a string.
pub fn parse_usize_from_str(j: &Json, field: &str) -> (r: Result<usize, DecodeError>)
    ensures
        agrees(r, spec_usize(*j, field@)),
{
    match j {
        Json::Str(s) => match parse_usize(s.as_str()) {
            Some(v) => Ok(v),
            None => Err(DecodeError::MalformedScalar { field: field.to_owned(), raw: s.clone() }),
        },
        _ => Err(DecodeError::MalformedScalar { field: field.to_owned(), raw: raw_text(j) }),
    }
}

/// Reads a `u32` carried as a JSON number.
pub fn u32_from_number(j: &Json, field: &str) -> (r: Result<u32, DecodeError>)
    ensures
        agrees(r, spec_u32(*j, field@)),
{
    match j {
        Json::Number(s) => match parse_u32(s.as_str()) {
            Some(v) => Ok(v),
            None => Err(DecodeError::MalformedScalar { field: field.to_owned(), raw: s.clone() }),
        },
        _ => Err(DecodeError::MalformedScalar { field: field.to_owned(), raw: raw_text(j) }),
    }
}

fn instant(s: &String, field: &str) -> (r: Result<Timestamp, DecodeError>)
    ensures
        agrees(r, instant_of(s@, field@)),
{
    match parse_i64(s.as_str()) {
        Some(v) => Ok(Timestamp { nanos: v }),
        None => Err(DecodeError::MalformedScalar { field: field.to_owned(), raw: s.clone() }),
    }
}

/// Reads a timestamp carried as a string, counting nanoseconds since the epoch
/// (see [`Timestamp`] on the unit).
pub fn datetime_from_timestamp_str(j: &Json, field: &str) -> (r: Result<Timestamp, DecodeError>)
    ensures
        agrees(r, spec_timestamp_str(*j, field@)),
{
    match j {
        Json::Str(s) => instant(s, field),
        _ => Err(DecodeError::MalformedScalar { field: field.to_owned(), raw: raw_text(j) }),
    }
}

/// Reads a timestamp carried as a JSON integer, counting nanoseconds since the
/// epoch.
pub fn datetime_from_timestamp(j: &Json, field: &str) -> (r: Result<Timestamp, DecodeError>)
    ensures
        agrees(r, spec_timestamp_int(*j, field@)),
{
    match j {
        Json::Number(s) => instant(s, field),
        _ => Err(DecodeError::MalformedScalar { field: field.to_owned(), raw: raw_text(j) }),
    }
}

/// The string and the integer form of a timestamp agree: the same digits give
/// the same instant, or the same failure.
pub proof fn lemma_timestamp_forms_agree(digits: String, field: Seq<char>)
    ensures
        spec_timestamp_int(Json::Number(digits), field) == spec_timestamp_str(
            Json::Str(digits),
            field,
        ),
{
}

pub open spec fn text_at(fields: Seq<(String, Json)>, key: Seq<char>) -> Result<String, Failure> {
    match spec_member(fields, key) {
        Ok(j) => spec_text(j, key),
        Err(f) => Err(f),
    }
}

pub open spec fn decimal_at(fields: Seq<(String, Json)>, key: Seq<char>) -> Result<Decimal, Failure> {
    match spec_member(fields, key) {
        Ok(j) => spec_decimal(j, key),
        Err(f) => Err(f),
    }
}

pub open spec fn usize_at(fields: Seq<(String, Json)>, key: Seq<char>) -> Result<usize, Failure> {
    match spec_member(fields, key) {
        Ok(j) => spec_usize(j, key),
        Err(f) => Err(f),
    }
}

pub open spec fn u32_at(fields: Seq<(String, Json)>, key: Seq<char>) -> Result<u32, Failure> {
    match spec_member(fields, key) {
        Ok(j) => spec_u32(j, key),
        Err(f) => Err(f),
    }
}

pub open spec fn timestamp_str_at(fields: Seq<(String, Json)>, key: Seq<char>) -> Result<Timestamp, Failure> {
    match spec_member(fields, key) {
        Ok(j) => spec_timestamp_str(j, key),
        Err(f) => Err(f),
    }
}

pub fn take_text(fields: &Vec<(String, Json)>, key: &str) -> (r: Result<String, DecodeError>)
    ensures
        agrees(r, text_at(fields@, key@)),
{
    match required(fields, key) {
        Ok(j) => text(j, key),
        Err(e) => Err(e),
    }
}

pub fn take_decimal(fields: &Vec<(String, Json)>, key: &str) -> (r: Result<Decimal, DecodeError>)
    ensures
        agrees(r, decimal_at(fields@, key@)),
{
    match required(fields, key) {
        Ok(j) => parse_from_str(j, key),
        Err(e) => Err(e),
    }
}

pub fn take_usize(fields: &Vec<(String, Json)>, key: &str) -> (r: Result<usize, DecodeError>)
    ensures
        agrees(r, usize_at(fields@, key@)),
{
    match required(fields, key) {
        Ok(j) => parse_usize_from_str(j, key),
        Err(e) => Err(e),
    }
}

pub fn take_u32(fields: &Vec<(String, Json)>, key: &str) -> (r: Result<u32, DecodeError>)
    ensures
        agrees(r, u32_at(fields@, key@)),
{
    match required(fields, key) {
        Ok(j) => u32_from_number(j, key),
        Err(e) => Err(e),
    }
}

pub fn take_timestamp_str(fields: &Vec<(String, Json)>, key: &str) -> (r: Result<Timestamp, DecodeError>)
    ensures
        agrees(r, timestamp_str_at(fields@, key@)),
{
    match required(fields, key) {
        Ok(j) => datetime_from_timestamp_str(j, key),
        Err(e) => Err(e),
    }
}

/// The array held by a required member.
pub open spec fn array_at(fields: Seq<(String, Json)>, key: Seq<char>) -> Result<Seq<Json>, Failure> {
    match spec_member(fields, key) {
        Ok(j) => spec_array(j),
        Err(f) => Err(f),
    }
}

pub open spec fn timestamp_int_at(fields: Seq<(String, Json)>, key: Seq<char>) -> Result<Timestamp, Failure> {
    match spec_member(fields, key) {
        Ok(j) => spec_timestamp_int(j, key),
        Err(f) => Err(f),
    }
}

pub fn take_timestamp_int(fields: &Vec<(String, Json)>, key: &str) -> (r: Result<Timestamp, DecodeError>)
    ensures
        agrees(r, timestamp_int_at(fields@, key@)),
{
    match required(fields, key) {
        Ok(j) => datetime_from_timestamp(j, key),
        Err(e) => Err(e),
    }
}

} // verus!
