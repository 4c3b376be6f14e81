use vstd::prelude::*;

use crate::tree::{spec_height, JsonValue};

verus! {

// What `serde_json` computes is deterministic in the input text: parsing
// either fails or yields one document, and pretty-printing lays that
// document out one way. The two names below stand for those results.

/// The document a text parses to, when it is well-formed JSON; how numbers
/// print and how object members are ordered is `serde_json`'s choice, and a
/// function of the text alone.
pub uninterp spec fn parsed_doc(text: Seq<char>) -> Option<JsonValue>;

/// The pretty-printed layout of a well-formed JSON text: a function of the
/// text alone.
pub uninterp spec fn pretty_of(text: Seq<char>) -> Seq<char>;

#[verifier::external_type_specification]
#[verifier::external_body]
pub struct ExValue(serde_json::Value);

/// Relies on the shape of `serde_json::Value`: each variant is carried over
/// to the library's document type one for one, numbers keeping the display
/// text that `serde_json` gives them.
#[verifier::external_body]
fn convert_value(v: &serde_json::Value) -> JsonValue {
    match v {
        serde_json::Value::Null => JsonValue::Null,
        serde_json::Value::Bool(b) => JsonValue::Bool(*b),
        serde_json::Value::Number(n) => JsonValue::Num(n.to_string()),
        serde_json::Value::String(s) => JsonValue::Str(s.clone()),
        serde_json::Value::Array(a) => JsonValue::Arr(a.iter().map(convert_value).collect()),
        serde_json::Value::Object(m) => JsonValue::Obj(
            m.iter().map(|(k, x)| (k.clone(), convert_value(x))).collect(),
        ),
    }
}

/// Relies on `serde_json::from_str::<serde_json::Value>`: whether a text
/// parses, and what document comes out, depend on the text alone; the error
/// carries `serde_json`'s message. `serde_json` refuses documents nested
/// beyond its recursion limit of 128 levels, so the height of what it
/// accepts is small.
#[verifier::external_body]
pub fn parse_document(text: &str) -> (r: Result<JsonValue, String>)
    ensures
        match r {
            Result::Ok(d) => parsed_doc(text@) == Option::Some(d) && spec_height(d) <= 1000,
            Result::Err(_) => parsed_doc(text@) is None,
        },
{
    match serde_json::from_str::<serde_json::Value>(text) {
        Ok(v) => Ok(convert_value(&v)),
        Err(e) => Err(e.to_string()),
    }
}

/// Relies on `serde_json::from_str` and `serde_json::to_string_pretty`: the
/// pretty text of a well-formed JSON text is a function of that text alone;
/// text that does not parse yields empty text.
#[verifier::external_body]
pub fn pretty_document(text: &str) -> (r: String)
    ensures
        parsed_doc(text@) is Some ==> r@ == pretty_of(text@),
        parsed_doc(text@) is None ==> r@.len() == 0,
{
    match serde_json::from_str::<serde_json::Value>(text) {
        Ok(v) => serde_json::to_string_pretty(&v).unwrap_or_default(),
        Err(_) => String::new(),
    }
}

} // verus!
