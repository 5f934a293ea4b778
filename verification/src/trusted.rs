//! The boundary to the JSON parser. Text is read through `serde_json`;
//! everything after the parse is the library's own verified code, so the
//! parsed value is taken apart one level at a time and rebuilt as [`Json`].

use vstd::prelude::*;

use crate::json::Json;

verus! {

/// Declares `serde_json::Value` so that parsed documents can be carried
/// through verified signatures; the value stays opaque.
#[verifier::external_type_specification]
#[verifier::external_body]
pub struct ExValue(serde_json::Value);

/// The document a text parses to, rebuilt as a JSON tree: what
/// [`parse_document`] returns is a function of the text alone, so it
/// carries this name.
pub uninterp spec fn json_doc_of(text: Seq<char>) -> Option<crate::json::JsonV>;

/// Relies on `serde_json::from_str`: parses JSON text into a document
/// value, rebuilt as a [`Json`] tree by the verified [`json_from_value`]
/// at a fixed depth bound far above the parser's own recursion cap; a
/// failure reports the parser's message. The result depends on the text
/// alone, so both arms speak of [`json_doc_of`].
#[verifier::external_body]
pub fn parse_document(text: &str) -> (r: Result<Json, String>)
    ensures
        match r {
            Ok(j) => json_doc_of(text@) == Some(j@),
            Err(_) => json_doc_of(text@) is None,
        },
{
    let v = match serde_json::from_str::<serde_json::Value>(text) {
        Ok(v) => v,
        Err(e) => return Err(e.to_string()),
    };
    match json_from_value(v, 0xffff_ffff) {
        Some(j) => Ok(j),
        None => Err("document nested too deeply".to_owned()),
    }
}

/// One level of a parsed document value.
pub enum JsonNode {
    Null,
    Bool(bool),
    Number(String),
    Text(String),
    Arr(Vec<serde_json::Value>),
    Obj(Vec<(String, serde_json::Value)>),
}

/// Relies on `serde_json::Value`'s variants: each arm moves the payload
/// out; a number becomes its display text; object members come out in the
/// map's iteration order.
#[verifier::external_body]
pub fn value_node(v: serde_json::Value) -> (r: JsonNode) {
    match v {
        serde_json::Value::Null => JsonNode::Null,
        serde_json::Value::Bool(b) => JsonNode::Bool(b),
        serde_json::Value::Number(n) => JsonNode::Number(n.to_string()),
        serde_json::Value::String(s) => JsonNode::Text(s),
        serde_json::Value::Array(a) => JsonNode::Arr(a),
        serde_json::Value::Object(m) => JsonNode::Obj(m.into_iter().collect()),
    }
}

/// Rebuilds a parsed document value as a plain [`Json`] tree, one level at
/// a time. The fuel bounds the nesting depth that will be followed; the
/// parser's own recursion limit is far below any fuel used here.
pub fn json_from_value(v: serde_json::Value, fuel: u32) -> (r: Option<Json>)
    decreases fuel, 0nat,
{
    if fuel == 0 {
        return None;
    }
    match value_node(v) {
        JsonNode::Null => Some(Json::Null),
        JsonNode::Bool(b) => Some(Json::Bool(b)),
        JsonNode::Number(s) => Some(Json::Number(s)),
        JsonNode::Text(s) => Some(Json::Text(s)),
        JsonNode::Arr(items) => {
            let mut items = items;
            let mut out: Vec<Json> = Vec::new();
            while items.len() > 0
                invariant
                    fuel >= 1,
                decreases fuel, items.len(),
            {
                let x = items.remove(0);
                match json_from_value(x, fuel - 1) {
                    Some(j) => out.push(j),
                    None => {
                        return None;
                    },
                }
            }
            Some(Json::Arr(out))
        },
        JsonNode::Obj(members) => {
            let mut members = members;
            let mut out: Vec<(String, Json)> = Vec::new();
            while members.len() > 0
                invariant
                    fuel >= 1,
                decreases fuel, members.len(),
            {
                let (k, x) = members.remove(0);
                match json_from_value(x, fuel - 1) {
                    Some(j) => out.push((k, j)),
                    None => {
                        return None;
                    },
                }
            }
            Some(Json::Obj(out))
        },
    }
}

} // verus!
