//! Encodings the protocols use: unpadded URL-safe base64, JSON string
//! literals, JSON Canonicalization (RFC 8785) and decimal integers.

use base64::engine::general_purpose::URL_SAFE_NO_PAD;
use base64::Engine as _;
use vstd::prelude::*;

verus! {

#[verifier::external_type_specification]
#[verifier::external_body]
pub struct ExDecodeError(base64::DecodeError);

/// What `URL_SAFE_NO_PAD.encode` returns for the given bytes.
pub uninterp spec fn base64url_encoding(bytes: Seq<u8>) -> Seq<char>;

/// What `URL_SAFE_NO_PAD.decode` returns for the given text (`None` on error).
pub uninterp spec fn base64url_decoding(text: Seq<char>) -> Option<Seq<u8>>;

/// `base64::engine::general_purpose::URL_SAFE_NO_PAD.encode`. Claims that
/// the result is the named encoding of `bytes`, that decoding that text
/// with the same engine gives `bytes` back (the engine writes no padding and
/// no trailing bits, and its decoder requires none), and its unpadded length:
/// four characters per three bytes, and two or three for a final one or two.
#[verifier::external_body]
pub(crate) fn base64url_encode(bytes: &[u8]) -> (text: String)
    ensures
        text@ == base64url_encoding(bytes@),
        base64url_decoding(text@) == Some(bytes@),
        text@.len() == (4 * bytes@.len() + 2) / 3,
{
    URL_SAFE_NO_PAD.encode(bytes)
}

/// `base64::engine::general_purpose::URL_SAFE_NO_PAD.decode`. Claims that the
/// call succeeds exactly when the named decoding is defined, and then returns it.
#[verifier::external_body]
pub(crate) fn base64url_decode(text: &str) -> (res: Result<Vec<u8>, base64::DecodeError>)
    ensures
        res is Ok <==> base64url_decoding(text@) is Some,
        res matches Ok(bytes) ==> base64url_decoding(text@) == Some(bytes@),
{
    URL_SAFE_NO_PAD.decode(text)
}

/// The JSON string literal `serde_json` writes for `s` (quotes and escapes).
pub uninterp spec fn json_string_literal(s: Seq<char>) -> Seq<char>;

/// `serde_json::to_string` on a string slice.
#[verifier::external_body]
pub(crate) fn json_quote(s: &str) -> (text: String)
    ensures
        text@ == json_string_literal(s@),
{
    match serde_json::to_string(s) {
        Ok(text) => text,
        Err(_) => String::new(),
    }
}

/// What canonicalizing the JSON text `text` gives: its RFC 8785 canonical
/// bytes, or the text of the error that reading or canonicalizing reports.
pub uninterp spec fn jcs_outcome(text: Seq<char>) -> core::result::Result<Seq<u8>, Seq<char>>;

/// The canonical bytes of the JSON text `text`, `None` when it has none.
pub open spec fn jcs_canonical(text: Seq<char>) -> Option<Seq<u8>> {
    match jcs_outcome(text) {
        Ok(bytes) => Some(bytes),
        Err(_) => None,
    }
}

/// The text of the error canonicalizing `text` reports, when it fails.
pub open spec fn jcs_error(text: Seq<char>) -> Seq<char> {
    match jcs_outcome(text) {
        Ok(_) => Seq::empty(),
        Err(message) => message,
    }
}

/// `serde_jcs::to_vec` of the JSON value that `text` holds (read with
/// `serde_json::from_str`); an error becomes its text. Claims only that the
/// result is the named one.
#[verifier::external_body]
pub(crate) fn jcs_canonicalize(text: &str) -> (res: Result<Vec<u8>, String>)
    ensures
        match res {
            Ok(bytes) => jcs_outcome(text@) == Ok::<Seq<u8>, Seq<char>>(bytes@),
            Err(message) => jcs_outcome(text@) == Err::<Seq<u8>, Seq<char>>(message@),
        },
{
    match serde_json::from_str::<serde_json::Value>(text) {
        Ok(value) => serde_jcs::to_vec(&value).map_err(|e| e.to_string()),
        Err(e) => Err(e.to_string()),
    }
}

/// The JSON text `serde_json` writes back for the member `key` of the JSON
/// object that `json` holds; `None` when `json` is not JSON, not an object,
/// or has no such member.
pub uninterp spec fn json_member(json: Seq<char>, key: Seq<char>) -> Option<Seq<char>>;

/// The string value of the member `key` of the JSON object that `json`
/// holds; `None` when there is no such member or it is not a JSON string.
pub uninterp spec fn json_member_string(json: Seq<char>, key: Seq<char>) -> Option<Seq<char>>;

/// The `i64` value of the member `key` of the JSON object that `json` holds;
/// `None` when there is no such member or it is not an integer in range.
pub uninterp spec fn json_member_int(json: Seq<char>, key: Seq<char>) -> Option<i64>;

/// `serde_json::from_str::<Value>`, then `Value::get(key)` and `to_string`.
/// Claims only that the result is the named one.
#[verifier::external_body]
pub(crate) fn json_member_text(json: &str, key: &str) -> (r: Option<String>)
    ensures
        r is Some <==> json_member(json@, key@) is Some,
        r matches Some(t) ==> json_member(json@, key@) == Some(t@),
{
    let value: serde_json::Value = serde_json::from_str(json).ok()?;
    value.get(key).map(|member| member.to_string())
}

/// `serde_json::from_str::<Value>`, then `Value::get(key)` and `Value::as_str`.
/// Claims only that the result is the named one.
#[verifier::external_body]
pub(crate) fn json_member_str(json: &str, key: &str) -> (r: Option<String>)
    ensures
        r is Some <==> json_member_string(json@, key@) is Some,
        r matches Some(t) ==> json_member_string(json@, key@) == Some(t@),
{
    let value: serde_json::Value = serde_json::from_str(json).ok()?;
    value.get(key).and_then(|member| member.as_str()).map(|text| text.to_owned())
}

/// `serde_json::from_str::<Value>`, then `Value::get(key)` and `Value::as_i64`.
/// Claims only that the result is the named one.
#[verifier::external_body]
pub(crate) fn json_member_i64(json: &str, key: &str) -> (r: Option<i64>)
    ensures
        r == json_member_int(json@, key@),
{
    let value: serde_json::Value = serde_json::from_str(json).ok()?;
    value.get(key).and_then(|member| member.as_i64())
}

/// The character of a decimal digit.
pub open spec fn digit_char(d: nat) -> char
    recommends
        d < 10,
{
    ((d + 48) as u8) as char
}

/// Decimal digits of a natural number, without leading zeros.
pub open spec fn decimal_nat(n: nat) -> Seq<char>
    decreases n,
{
    if n < 10 {
        seq![digit_char(n)]
    } else {
        decimal_nat(n / 10).push(digit_char(n % 10))
    }
}

/// Decimal text of an integer, with a leading `-` when negative.
pub open spec fn decimal(n: int) -> Seq<char> {
    if n < 0 {
        seq!['-'] + decimal_nat((-n) as nat)
    } else {
        decimal_nat(n as nat)
    }
}

fn digit(d: u8) -> (c: char)
    requires
        d < 10,
    ensures
        c == digit_char(d as nat),
{
    if d == 0 { '0' }
    else if d == 1 { '1' }
    else if d == 2 { '2' }
    else if d == 3 { '3' }
    else if d == 4 { '4' }
    else if d == 5 { '5' }
    else if d == 6 { '6' }
    else if d == 7 { '7' }
    else if d == 8 { '8' }
    else { '9' }
}

fn decimal_u128(n: u128) -> (v: Vec<char>)
    ensures
        v@ == decimal_nat(n as nat),
    decreases n,
{
    if n < 10 {
        let mut v = Vec::new();
        v.push(digit(n as u8));
        v
    } else {
        let mut v = decimal_u128(n / 10);
        v.push(digit((n % 10) as u8));
        v
    }
}

/// Decimal text of an unsigned integer.
pub fn u64_decimal(n: u64) -> (s: String)
    ensures
        s@ == decimal(n as int),
{
    let v = decimal_u128(n as u128);
    crate::text::string_from_chars(v.as_slice())
}

/// Decimal text of a signed integer.
pub fn i64_decimal(n: i64) -> (s: String)
    ensures
        s@ == decimal(n as int),
{
    if n < 0 {
        let m: i128 = -(n as i128);
        let v = decimal_u128(m as u128);
        let mut s = String::new();
        crate::text::push_char(&mut s, '-');
        let t = crate::text::string_from_chars(v.as_slice());
        crate::text::push_str(&mut s, t.as_str());
        assert(s@ =~= seq!['-'] + decimal_nat((-n) as nat));
        s
    } else {
        let v = decimal_u128(n as u128);
        crate::text::string_from_chars(v.as_slice())
    }
}

} // verus!
