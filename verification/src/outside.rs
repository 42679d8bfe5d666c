//! The calls this library makes into outside crates, each with what it is trusted to do.

use vstd::prelude::*;
use crate::json::{JsonSpec, JsonValue};

verus! {

#[verifier::external_type_specification]
#[verifier::external_body]
pub struct ExSerdeJsonValue(serde_json::Value);

/// The lower-case hexadecimal digit of a value below sixteen.
pub open spec fn hex_digit(n: u128) -> char {
    seq!['0', '1', '2', '3', '4', '5', '6', '7', '8', '9', 'a', 'b', 'c', 'd', 'e', 'f'][n as int]
}

/// The `i`-th hexadecimal digit of an id, counted from the most significant.
pub open spec fn id_nibble(id: u128, i: int) -> u128 {
    (id >> ((124 - 4 * i) as u128)) & 15u128
}

/// An id in the simple form: its 32 hexadecimal digits in lower case, most significant first.
pub closed spec fn uuid_simple(id: u128) -> Seq<char> {
    Seq::new(32, |i: int| hex_digit(id_nibble(id, i)))
}

/// An id in the hyphenated form: the digits of the simple form in groups of 8, 4, 4, 4 and 12,
/// joined by `-`.
pub closed spec fn uuid_hyphenated(id: u128) -> Seq<char> {
    let s = uuid_simple(id);
    s.subrange(0, 8) + seq!['-'] + s.subrange(8, 12) + seq!['-'] + s.subrange(12, 16) + seq!['-']
        + s.subrange(16, 20) + seq!['-'] + s.subrange(20, 32)
}

/// Bytes that `serde_json::to_vec` writes for a JSON value.
pub uninterp spec fn json_compact_bytes(v: JsonSpec) -> Seq<u8>;

/// Lower-case hex text of the SHA-256 digest (`sha2::Sha256::digest`) of some bytes.
pub uninterp spec fn sha256_lower_hex(bytes: Seq<u8>) -> Seq<char>;

/// The value `serde_json::from_str` reads from a text, `None` where it reports an error.
pub uninterp spec fn json_parsed(text: Seq<char>) -> Option<JsonSpec>;

/// The id that `uuid::Uuid::parse_str` reads from a text, or the text of the error it reports.
pub uninterp spec fn uuid_parsed(text: Seq<char>) -> Result<u128, Seq<char>>;

/// The instant, in Unix nanoseconds, that `serde_json::from_value::<time::OffsetDateTime>` reads
/// from a JSON value, or the text of the error it reports.
pub uninterp spec fn json_date_time_nanos(v: JsonSpec) -> Result<i128, Seq<char>>;

/// Whether `regex::Regex::new` accepts a pattern.
pub uninterp spec fn regex_accepts(pattern: Seq<char>) -> bool;

/// Whether `regex::Regex::is_match` finds the compiled pattern in a text.
pub uninterp spec fn regex_finds(pattern: Seq<char>, text: Seq<char>) -> bool;

/// Calls `uuid::Uuid::from_u128(id).to_string()`. `from_u128` keeps the id's bytes most
/// significant first and `Display` writes them in the hyphenated lower-case form, which the
/// contract states (with its length, 36).
#[verifier::external_body]
pub(crate) fn uuid_to_hyphenated(id: u128) -> (s: String)
    ensures
        s@ == uuid_hyphenated(id),
        s@.len() == 36,
{
    uuid::Uuid::from_u128(id).to_string()
}

/// Calls `uuid::Uuid::from_u128(id).simple().to_string()`: the 32 lower-case hexadecimal digits
/// of the id, most significant first, which the contract states (with their number).
#[verifier::external_body]
pub(crate) fn uuid_to_simple(id: u128) -> (s: String)
    ensures
        s@ == uuid_simple(id),
        s@.len() == 32,
{
    uuid::Uuid::from_u128(id).simple().to_string()
}

/// Calls `uuid::Uuid::parse_str(text)`: the id it reads, or the text (`Display`) of the error it
/// reports. The contract names the result; it depends on the text alone.
#[verifier::external_body]
pub(crate) fn uuid_parse(text: &str) -> (r: Result<u128, String>)
    ensures
        match r {
            Ok(id) => uuid_parsed(text@) == Ok::<u128, Seq<char>>(id),
            Err(m) => uuid_parsed(text@) == Err::<u128, Seq<char>>(m@),
        },
{
    uuid::Uuid::parse_str(text).map(|id| id.as_u128()).map_err(|e| e.to_string())
}

/// Calls `serde_json::from_value::<time::OffsetDateTime>` on the value and gives the instant it
/// reads as Unix nanoseconds (`unix_timestamp_nanos`), or the text of the error it reports. The
/// contract names the result; it depends on the value alone.
#[verifier::external_body]
pub(crate) fn date_time_from_json(value: &JsonValue) -> (r: Result<i128, String>)
    ensures
        match r {
            Ok(t) => json_date_time_nanos(value@) == Ok::<i128, Seq<char>>(t),
            Err(m) => json_date_time_nanos(value@) == Err::<i128, Seq<char>>(m@),
        },
{
    serde_json::from_value::<time::OffsetDateTime>(to_serde_value(value))
        .map(|t| t.unix_timestamp_nanos())
        .map_err(|e| e.to_string())
}

/// Calls `uuid::Uuid::now_v7()`. The value depends on the clock and on chance: nothing is
/// stated of it.
#[verifier::external_body]
pub(crate) fn new_uuid_v7() -> (id: u128) {
    uuid::Uuid::now_v7().as_u128()
}

/// Calls `rand_core::OsRng.next_u32()`. The value depends on chance: nothing is stated of it.
#[verifier::external_body]
pub(crate) fn os_random_u32() -> (n: u32) {
    rand_core::RngCore::next_u32(&mut rand_core::OsRng)
}

/// Calls `time::OffsetDateTime::now_utc().unix_timestamp_nanos()`. The value depends on the
/// clock: nothing is stated of it.
#[verifier::external_body]
pub(crate) fn now_unix_timestamp_nanos() -> (t: i128) {
    time::OffsetDateTime::now_utc().unix_timestamp_nanos()
}

/// Calls `regex::Regex::new(pattern)` and reports whether it succeeded.
#[verifier::external_body]
pub(crate) fn regex_compiles(pattern: &str) -> (ok: bool)
    ensures
        ok == regex_accepts(pattern@),
{
    regex::Regex::new(pattern).is_ok()
}

/// Calls `regex::Regex::is_match` on the compiled pattern; the pattern is one that
/// `Regex::new` accepts.
#[verifier::external_body]
pub(crate) fn regex_is_match(pattern: &str, text: &str) -> (m: bool)
    requires
        regex_accepts(pattern@),
    ensures
        m == regex_finds(pattern@, text@),
{
    regex::Regex::new(pattern).map(|re| re.is_match(text)).unwrap_or(false)
}

/// Calls `sha2::Sha256::digest` and writes the digest as lower-case hex (`{:x}`): 64 digits.
#[verifier::external_body]
pub(crate) fn sha256_hex(bytes: &[u8]) -> (s: String)
    ensures
        s@ == sha256_lower_hex(bytes@),
        s@.len() == 64,
{
    format!("{:x}", <sha2::Sha256 as sha2::Digest>::digest(bytes))
}

/// The `serde_json::Value` that a [`JsonValue`] stands for.
#[verifier::external_body]
fn to_serde_value(value: &JsonValue) -> serde_json::Value {
    match value {
        JsonValue::Null => serde_json::Value::Null,
        JsonValue::Bool(b) => serde_json::Value::Bool(*b),
        JsonValue::Number(n) => serde_json::Value::from(*n),
        JsonValue::Decimal(t) => serde_json::from_str(t).unwrap_or(serde_json::Value::Null),
        JsonValue::Str(s) => serde_json::Value::String(s.clone()),
        JsonValue::Array(items) => serde_json::Value::Array(items.iter().map(to_serde_value).collect()),
        JsonValue::Object(entries) => serde_json::Value::Object(
            entries.iter().map(|(k, v)| (k.clone(), to_serde_value(v))).collect(),
        ),
    }
}

/// Calls `serde_json::to_vec` on the value. serde_json writes UTF-8 JSON text; the contract names
/// the bytes and states that they are valid UTF-8.
#[verifier::external_body]
pub(crate) fn json_to_vec(value: &JsonValue) -> (bytes: Vec<u8>)
    ensures
        bytes@ == json_compact_bytes(value@),
        vstd::utf8::valid_utf8(bytes@),
{
    serde_json::to_vec(&to_serde_value(value)).unwrap_or_default()
}

/// Calls `String::from_utf8_lossy`. The standard library documents that valid UTF-8 comes back
/// decoded unchanged; of other input nothing is stated.
#[verifier::external_body]
pub(crate) fn utf8_lossy(bytes: &[u8]) -> (s: String)
    ensures
        vstd::utf8::valid_utf8(bytes@) ==> s@ == vstd::utf8::decode_utf8(bytes@),
{
    String::from_utf8_lossy(bytes).into_owned()
}

/// The [`JsonValue`] that a `serde_json::Value` stands for.
#[verifier::external_body]
fn from_serde_value(value: &serde_json::Value) -> JsonValue {
    match value {
        serde_json::Value::Null => JsonValue::Null,
        serde_json::Value::Bool(b) => JsonValue::Bool(*b),
        serde_json::Value::Number(n) => n.as_i64().map(JsonValue::Number).unwrap_or_else(|| JsonValue::Decimal(n.to_string())),
        serde_json::Value::String(s) => JsonValue::Str(s.clone()),
        serde_json::Value::Array(items) => JsonValue::Array(items.iter().map(from_serde_value).collect()),
        serde_json::Value::Object(entries) => JsonValue::Object(
            entries.iter().map(|(k, v)| (k.clone(), from_serde_value(v))).collect(),
        ),
    }
}

/// Calls `serde_json::from_str::<serde_json::Value>(text)`: the value it reads, `None` where it
/// reports an error. The contract names the result; it depends on the text alone.
#[verifier::external_body]
pub(crate) fn json_from_str(text: &str) -> (r: Option<JsonValue>)
    ensures
        crate::json::opt_json_view(r) == json_parsed(text@),
{
    serde_json::from_str::<serde_json::Value>(text).ok().map(|v| from_serde_value(&v))
}

} // verus!
