use vstd::prelude::*;
use crate::reading::{SensorReading, Timestamp};
use serde_json::Value;

verus! {

/// Whether serde_json accepts the text as one JSON document.
pub uninterp spec fn json_accepts(text: Seq<char>) -> bool;

/// What the member under `key` of the JSON document the text holds is, as
/// far as validation reads it.
pub uninterp spec fn json_member(text: Seq<char>, key: Seq<char>) -> Field;

/// The instant chrono reads from an RFC 3339 date-time, if it reads one.
pub uninterp spec fn rfc3339_instant(text: Seq<char>) -> Option<Timestamp>;

/// The text that lossy UTF-8 decoding makes of the bytes.
pub uninterp spec fn utf8_lossy(bytes: Seq<u8>) -> Seq<char>;

/// Relies on serde_json::from_str into a `Value`, then `Value::get` for each
/// key and `Number::as_i64` / `Number::as_f64` on a number found: both the
/// success and the members depend on the text alone.
#[verifier::external_body]
fn decode_fields(text: &str) -> (r: Option<PayloadFields>)
    ensures
        r is Some <==> json_accepts(text@),
        r matches Some(f) ==> f.co == json_member(text@, "co"@) && f.no2 == json_member(text@, "no2"@)
            && f.temperature == json_member(text@, "temperature"@) && f.humidity == json_member(
            text@,
            "humidity"@,
        ) && f.timestamp == json_member(text@, "timestamp"@),
{
    let v: Value = serde_json::from_str(text).ok()?;
    let field = |key: &str| match v.get(key) {
        None => Field::Absent,
        Some(Value::Null) => Field::Null,
        Some(Value::Bool(b)) => Field::Bool(*b),
        Some(Value::Number(n)) => Field::Number { integer: n.as_i64(), bits: n.as_f64().map(|x| x.to_bits()) },
        Some(Value::String(s)) => Field::Text(s.clone()),
        Some(_) => Field::Compound,
    };
    let (co, no2, temperature) = (field("co"), field("no2"), field("temperature"));
    Some(PayloadFields { co, no2, temperature, humidity: field("humidity"), timestamp: field("timestamp") })
}

/// Relies on chrono::DateTime::parse_from_rfc3339, read back as Unix seconds
/// and the nanoseconds past the second (which chrono keeps under two billion).
#[verifier::external_body]
fn parse_instant(text: &str) -> (r: Option<Timestamp>)
    ensures
        r == rfc3339_instant(text@),
        r matches Some(t) ==> t.nanos < 2_000_000_000,
{
    chrono::DateTime::parse_from_rfc3339(text).ok().map(
        |d| Timestamp { seconds: d.timestamp(), nanos: d.timestamp_subsec_nanos() },
    )
}

/// Relies on String::from_utf8_lossy: the text depends on the bytes alone.
#[verifier::external_body]
fn decode_utf8_lossy(bytes: &[u8]) -> (r: String)
    ensures
        r@ == utf8_lossy(bytes@),
{
    String::from_utf8_lossy(bytes).into_owned()
}

/// What a member of a decoded JSON object holds, as far as validation reads it.
/// A number carries both its integer reading (when it is an integer that fits
/// `i64`) and the bit pattern of its 64-bit float reading.
#[derive(Clone, Debug)]
pub enum Field {
    Absent,
    Null,
    Bool(bool),
    Number { integer: Option<i64>, bits: Option<u64> },
    Text(String),
    Compound,
}

/// The members of a payload object that validation looks at.
#[derive(Clone, Debug)]
pub struct PayloadFields {
    pub co: Field,
    pub no2: Field,
    pub temperature: Field,
    pub humidity: Field,
    pub timestamp: Field,
}

/// Why a payload was rejected.
#[derive(Clone, Copy, Debug, PartialEq, Eq, Structural)]
pub enum PayloadError {
    /// The text is not a JSON document.
    Malformed,
    /// The document has no `timestamp`, or it is null.
    MissingTimestamp,
    /// `timestamp` is not a string holding an RFC 3339 date-time.
    InvalidTimestamp,
}

/// An integer field: present when the member is a number with an `i64` reading.
pub open spec fn int_of(f: Field) -> Option<i64> {
    match f {
        Field::Number { integer, .. } => integer,
        _ => None,
    }
}

/// A float field: present when the member is a number.
pub open spec fn float_of(f: Field) -> Option<u64> {
    match f {
        Field::Number { bits, .. } => bits,
        _ => None,
    }
}

/// The reading made of the optional members and an accepted instant.
pub open spec fn reading_of(f: PayloadFields, t: Timestamp) -> SensorReading {
    SensorReading {
        co: int_of(f.co),
        no2: int_of(f.no2),
        temperature: float_of(f.temperature),
        humidity: float_of(f.humidity),
        timestamp: t,
    }
}

/// The outcome of validating decoded members, given what the instant parser
/// makes of the `timestamp` text (`instant` matters only for a text member).
pub open spec fn validated(f: PayloadFields, instant: Option<Timestamp>) -> Result<
    SensorReading,
    PayloadError,
> {
    match f.timestamp {
        Field::Absent | Field::Null => Err(PayloadError::MissingTimestamp),
        Field::Text(_) => match instant {
            Some(t) => Ok(reading_of(f, t)),
            None => Err(PayloadError::InvalidTimestamp),
        },
        _ => Err(PayloadError::InvalidTimestamp),
    }
}

/// The outcome of validating decoded members.
pub open spec fn validated_fields(f: PayloadFields) -> Result<SensorReading, PayloadError> {
    match f.timestamp {
        Field::Text(s) => validated(f, rfc3339_instant(s@)),
        _ => validated(f, None),
    }
}

/// The members that validation reads from the JSON document the text holds.
pub open spec fn payload_fields_of(text: Seq<char>) -> PayloadFields {
    PayloadFields {
        co: json_member(text, "co"@),
        no2: json_member(text, "no2"@),
        temperature: json_member(text, "temperature"@),
        humidity: json_member(text, "humidity"@),
        timestamp: json_member(text, "timestamp"@),
    }
}

/// What a message text yields: `Malformed` when it is not JSON, else the
/// validation of the members it holds.
pub open spec fn message_outcome(text: Seq<char>) -> Result<SensorReading, PayloadError> {
    if json_accepts(text) {
        validated_fields(payload_fields_of(text))
    } else {
        Err(PayloadError::Malformed)
    }
}

fn int_field(f: &Field) -> (r: Option<i64>)
    ensures
        r == int_of(*f),
{
    match f {
        Field::Number { integer, .. } => *integer,
        _ => None,
    }
}

fn float_field(f: &Field) -> (r: Option<u64>)
    ensures
        r == float_of(*f),
{
    match f {
        Field::Number { bits, .. } => *bits,
        _ => None,
    }
}

/// Validates decoded members against an already parsed instant.
pub fn assemble_reading(f: &PayloadFields, instant: Option<Timestamp>) -> (r: Result<
    SensorReading,
    PayloadError,
>)
    ensures
        r == validated(*f, instant),
{
    match &f.timestamp {
        Field::Absent | Field::Null => Err(PayloadError::MissingTimestamp),
        Field::Text(_) => match instant {
            Some(t) => Ok(
                SensorReading {
                    co: int_field(&f.co),
                    no2: int_field(&f.no2),
                    temperature: float_field(&f.temperature),
                    humidity: float_field(&f.humidity),
                    timestamp: t,
                },
            ),
            None => Err(PayloadError::InvalidTimestamp),
        },
        _ => Err(PayloadError::InvalidTimestamp),
    }
}

/// Validates decoded members: `timestamp` is required and must be an RFC 3339
/// string; every other member is optional and a non-number reads as absent.
pub fn reading_from_fields(f: &PayloadFields) -> (r: Result<SensorReading, PayloadError>)
    ensures
        r == validated_fields(*f),
{
    let instant = match &f.timestamp {
        Field::Text(s) => parse_instant(s.as_str()),
        _ => None,
    };
    assemble_reading(f, instant)
}

/// Decodes and validates a payload text.
pub fn parse_payload(text: &str) -> (r: Result<SensorReading, PayloadError>)
    ensures
        r == message_outcome(text@),
{
    match decode_fields(text) {
        None => Err(PayloadError::Malformed),
        Some(fields) => reading_from_fields(&fields),
    }
}

/// Decodes the bytes of a message lossily as UTF-8, then parses the text.
pub fn parse_message(bytes: &[u8]) -> (r: Result<SensorReading, PayloadError>)
    ensures
        r == message_outcome(utf8_lossy(bytes@)),
{
    let text = decode_utf8_lossy(bytes);
    parse_payload(text.as_str())
}

} // verus!
