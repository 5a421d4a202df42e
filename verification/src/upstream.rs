use vstd::prelude::*;

use crate::document::{DocField, DocValue};

verus! {

#[verifier::external_type_specification]
#[verifier::external_body]
pub struct ExValue(serde_json::Value);

/// The document that a given body text parses to, or `None` for a body that is
/// not valid JSON. The text alone decides the outcome.
pub uninterp spec fn parsed_doc(body: Seq<char>) -> Option<DocValue>;

/// Conversion arm of `parse_json_document`: rebuilds a `serde_json::Value`,
/// one variant at a time, as the library's own document value. A number
/// outside the signed 64-bit range becomes `Null`, which the library reads
/// exactly like an absent member.
#[verifier::external_body]
fn doc_of_json(v: serde_json::Value) -> (r: DocValue) {
    match v {
        serde_json::Value::Null => DocValue::Null,
        serde_json::Value::Bool(b) => DocValue::Bool(b),
        serde_json::Value::Number(n) => match n.as_i64() {
            Some(i) => DocValue::Int(i),
            None => DocValue::Null,
        },
        serde_json::Value::String(s) => DocValue::Text(s),
        serde_json::Value::Array(items) => DocValue::List(
            items.into_iter().map(doc_of_json).collect(),
        ),
        serde_json::Value::Object(members) => DocValue::Object(
            members.into_iter().map(|(name, value)| DocField { name, value: doc_of_json(value) }).collect(),
        ),
    }
}

/// Relies on serde_json::from_str: parsing is a function of the text alone,
/// and an invalid body gives an error, here `None`.
#[verifier::external_body]
pub(crate) fn parse_json_document(body: &str) -> (r: Option<DocValue>)
    ensures
        r == parsed_doc(body@),
{
    match serde_json::from_str::<serde_json::Value>(body) {
        Ok(v) => Some(doc_of_json(v)),
        Err(_) => None,
    }
}

/// The text that chrono renders for a unix-seconds value, or `None` for
/// seconds outside chrono's representable range. The value alone decides both.
pub uninterp spec fn utc_date_text(ts: i64) -> Option<Seq<char>>;

/// Relies on chrono's `DateTime::<Utc>::from_timestamp` (with zero
/// nanoseconds) and on the display text of the resulting date-time: both
/// depend on the seconds value alone, and `None` comes only for seconds out
/// of chrono's representable range of years.
#[verifier::external_body]
pub(crate) fn format_utc_timestamp(ts: i64) -> (r: Option<String>)
    ensures
        match r {
            Some(s) => utc_date_text(ts) == Some(s@),
            None => utc_date_text(ts) is None,
        },
{
    match chrono::DateTime::<chrono::Utc>::from_timestamp(ts, 0) {
        Some(dt) => Some(dt.to_string()),
        None => None,
    }
}

} // verus!
