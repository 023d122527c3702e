//! Price-feed values: fixed-point prices and timestamp normalisation.

use vstd::prelude::*;

verus! {

/// Price units per displayed unit of quote token per displayed unit of base token.
pub const PRICE_SCALE: u64 = 1_000_000_000;

/// An oracle price, in `PRICE_SCALE` units, with its unix timestamp in seconds.
#[derive(Clone, Copy, Debug, PartialEq, Eq)]
pub struct PriceData {
    pub price: u64,
    pub timestamp: u64,
}

/// A field of a price-feed response, as far as timestamp parsing reads it.
#[derive(Clone, Debug, PartialEq, Eq)]
pub enum FeedValue {
    Null,
    Bool(bool),
    /// A number, with its value where it is a non-negative integer.
    Number { as_u64: Option<u64> },
    String(String),
    Array,
    Object,
}

/// Why a timestamp could not be read.
#[derive(Clone, Copy, Debug, PartialEq, Eq)]
pub enum TimestampError {
    /// A number that is not a non-negative integer.
    NotUnsigned,
    /// A string that is neither unix seconds nor an RFC 3339 timestamp.
    Unparseable,
    /// An RFC 3339 timestamp before the unix epoch.
    BeforeEpoch(i64),
    /// Neither a number nor a string.
    UnexpectedType(&'static str),
}

/// What `str::parse::<u64>` returns on the given text.
pub uninterp spec fn decimal_u64_of(s: Seq<char>) -> Option<u64>;

/// Unix seconds of the RFC 3339 timestamp in the given text, where it is one.
pub uninterp spec fn rfc3339_seconds_of(s: Seq<char>) -> Option<i64>;

/// Relies on `str::parse::<u64>`: the result depends on the text alone.
#[verifier::external_body]
fn parse_decimal_u64(s: &str) -> (r: Option<u64>)
    ensures
        r == decimal_u64_of(s@),
{
    s.parse::<u64>().ok()
}

/// Relies on chrono's `DateTime::parse_from_rfc3339` followed by `timestamp`:
/// the seconds since the unix epoch of the parsed instant, a function of the text alone.
#[verifier::external_body]
fn parse_rfc3339_seconds(s: &str) -> (r: Option<i64>)
    ensures
        r == rfc3339_seconds_of(s@),
{
    chrono::DateTime::parse_from_rfc3339(s).ok().map(|d| d.timestamp())
}

/// Relies on `SystemTime::now` and `duration_since(UNIX_EPOCH)`; the value is the
/// machine's clock, so nothing is promised of it.
#[verifier::external_body]
fn system_unix_seconds() -> (r: Option<u64>) {
    std::time::SystemTime::now()
        .duration_since(std::time::UNIX_EPOCH)
        .map(|d| d.as_secs())
        .ok()
}

/// The current unix time in seconds, or 0 where the clock is before the epoch.
pub fn unix_now() -> u64 {
    match system_unix_seconds() {
        Some(s) => s,
        None => 0,
    }
}

pub open spec fn json_kind(value: FeedValue) -> &'static str {
    match value {
        FeedValue::Null => "null",
        FeedValue::Bool(_) => "bool",
        FeedValue::Number { .. } => "number",
        FeedValue::String(_) => "string",
        FeedValue::Array => "array",
        FeedValue::Object => "object",
    }
}

/// The name of the value's JSON type.
pub fn json_type(value: &FeedValue) -> (r: &'static str)
    ensures
        r == json_kind(*value),
{
    match value {
        FeedValue::Null => "null",
        FeedValue::Bool(_) => "bool",
        FeedValue::Number { .. } => "number",
        FeedValue::String(_) => "string",
        FeedValue::Array => "array",
        FeedValue::Object => "object",
    }
}

/// The timestamp a string stands for, given how it parses: unix seconds
/// first, else an RFC 3339 instant at or after the epoch.
pub open spec fn timestamp_of_parses(decimal: Option<u64>, rfc3339: Option<i64>) -> Result<u64, TimestampError> {
    match decimal {
        Some(v) => Ok(v),
        None => match rfc3339 {
            Some(t) => if t < 0 { Err(TimestampError::BeforeEpoch(t)) } else { Ok(t as u64) },
            None => Err(TimestampError::Unparseable),
        },
    }
}

/// Chooses the timestamp of a string from its two readings.
pub fn timestamp_from_parses(decimal: Option<u64>, rfc3339: Option<i64>) -> (r: Result<u64, TimestampError>)
    ensures
        r == timestamp_of_parses(decimal, rfc3339),
{
    match decimal {
        Some(v) => Ok(v),
        None => match rfc3339 {
            Some(t) => if t < 0 { Err(TimestampError::BeforeEpoch(t)) } else { Ok(t as u64) },
            None => Err(TimestampError::Unparseable),
        },
    }
}

/// The unix time of a price-feed timestamp field; `now` where the field is absent.
pub fn parse_timestamp(raw: Option<&FeedValue>, now: u64) -> (r: Result<u64, TimestampError>)
    ensures
        r == match raw {
            None => Ok(now),
            Some(FeedValue::Number { as_u64: Some(v) }) => Ok(*v),
            Some(FeedValue::Number { as_u64: None }) => Err(TimestampError::NotUnsigned),
            Some(FeedValue::String(s)) => timestamp_of_parses(decimal_u64_of(s@), rfc3339_seconds_of(s@)),
            Some(v) => Err(TimestampError::UnexpectedType(json_kind(*v))),
        },
{
    match raw {
        None => Ok(now),
        Some(FeedValue::Number { as_u64: Some(v) }) => Ok(*v),
        Some(FeedValue::Number { as_u64: None }) => Err(TimestampError::NotUnsigned),
        Some(FeedValue::String(s)) => {
            let decimal = parse_decimal_u64(s.as_str());
            if decimal.is_some() {
                return timestamp_from_parses(decimal, None);
            }
            timestamp_from_parses(decimal, parse_rfc3339_seconds(s.as_str()))
        },
        Some(v) => Err(TimestampError::UnexpectedType(json_type(v))),
    }
}

} // verus!
