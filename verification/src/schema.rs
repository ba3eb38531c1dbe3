//! JSON Schema (draft 2020-12) checks on JSON texts, through `jsonschema`.

use vstd::prelude::*;

verus! {

/// Whether a text parses as JSON and is an object.
pub uninterp spec fn json_object(text: Seq<char>) -> bool;

/// What building a draft 2020-12 validator from the schema text gives:
/// `None` when it builds, otherwise the text of the error that reading or
/// building reports.
pub uninterp spec fn schema_build(schema: Seq<char>) -> Option<Seq<char>>;

/// Whether a text parses as JSON and `jsonschema` builds a validator from it.
pub open spec fn schema_compiles(schema: Seq<char>) -> bool {
    schema_build(schema) is None
}

/// The text of the error building a validator from the schema reports.
pub open spec fn schema_build_error(schema: Seq<char>) -> Seq<char> {
    match schema_build(schema) {
        Some(message) => message,
        None => Seq::empty(),
    }
}

/// What checking the payload text under the schema text gives: `None` when
/// both are JSON and the validator accepts the payload, otherwise the text of
/// the first validation error or of the error reading either text.
pub uninterp spec fn schema_check(schema: Seq<char>, payload: Seq<char>) -> Option<Seq<char>>;

/// Whether the validator built from the schema accepts the payload.
pub open spec fn schema_accepts(schema: Seq<char>, payload: Seq<char>) -> bool {
    schema_check(schema, payload) is None
}

/// The text of the error that rejects the payload under the schema.
pub open spec fn schema_rejection(schema: Seq<char>, payload: Seq<char>) -> Seq<char> {
    match schema_check(schema, payload) {
        Some(message) => message,
        None => Seq::empty(),
    }
}

/// `serde_json::from_str::<Value>`, telling an object apart from the other
/// values. Claims the named result.
#[verifier::external_body]
pub(crate) fn is_json_object(text: &str) -> (r: bool)
    ensures
        r == json_object(text@),
{
    match serde_json::from_str::<serde_json::Value>(text) {
        Ok(serde_json::Value::Object(_)) => true,
        _ => false,
    }
}

/// `jsonschema::options().with_draft(Draft202012).build` on the parsed
/// schema text: `None` when it builds, otherwise the error's text. Claims the
/// named result.
#[verifier::external_body]
pub(crate) fn compile_schema(schema: &str) -> (r: Option<String>)
    ensures
        crate::text::opt_view(r) == schema_build(schema@),
{
    match serde_json::from_str::<serde_json::Value>(schema) {
        Ok(value) => jsonschema::options().with_draft(jsonschema::Draft::Draft202012).build(&value).err().map(|e| e.to_string()),
        Err(e) => Some(e.to_string()),
    }
}

/// `Validator::validate` of the parsed payload under the validator built from
/// the schema: `None` when it is accepted, otherwise the error's text.
/// Claims the named result.
#[verifier::external_body]
pub(crate) fn check_payload(schema: &str, payload: &str) -> (r: Option<String>)
    ensures
        crate::text::opt_view(r) == schema_check(schema@, payload@),
{
    let parsed = (serde_json::from_str::<serde_json::Value>(schema), serde_json::from_str::<serde_json::Value>(payload));
    match parsed {
        (Ok(schema), Ok(payload)) => match jsonschema::options().with_draft(jsonschema::Draft::Draft202012).build(&schema) {
            Ok(validator) => validator.validate(&payload).err().map(|e| e.to_string()),
            Err(e) => Some(e.to_string()),
        },
        (Err(e), _) | (_, Err(e)) => Some(e.to_string()),
    }
}

} // verus!
