//! Reading the document model out of a parsed JSON tree. Recognised fields
//! are checked for shape; unknown members are ignored; a missing section is
//! an empty one. A `$ref` member turns a value into a reference. The fuel
//! argument bounds the nesting depth that will be followed; a document
//! deeper than the fuel is rejected.

use vstd::prelude::*;

use crate::chars::str_eq;
use crate::json::{members_view, obj_get, obj_lookup, Json, JsonV};
use crate::model::{
    ComponentsV, MediaTypeV, Method, OperationV, ParameterLocation, ParameterV, PathItemV,
    RefOrV, RequestBodyV, ResponseV, SchemaOrRefV, SchemaType, SchemaV, SpecV,
};
use crate::model::{
    Components, MediaType, ObjectOrReference, Operation, Parameter, PathItem, RequestBody,
    Response, Schema, Spec,
};
use crate::pointer::{parse_pointer_text, Pointer};

verus! {

/// The schema type named by a `type` value.
pub open spec fn schema_type_of_text(s: Seq<char>) -> Option<SchemaType> {
    if s == "object"@ {
        Some(SchemaType::Object)
    } else if s == "array"@ {
        Some(SchemaType::Array)
    } else if s == "integer"@ {
        Some(SchemaType::Integer)
    } else if s == "number"@ {
        Some(SchemaType::Number)
    } else if s == "string"@ {
        Some(SchemaType::Str)
    } else if s == "boolean"@ {
        Some(SchemaType::Boolean)
    } else {
        None
    }
}

/// The parameter location named by an `in` value.
pub open spec fn location_of_text(s: Seq<char>) -> Option<ParameterLocation> {
    if s == "path"@ {
        Some(ParameterLocation::Path)
    } else if s == "query"@ {
        Some(ParameterLocation::Query)
    } else if s == "header"@ {
        Some(ParameterLocation::Header)
    } else if s == "cookie"@ {
        Some(ParameterLocation::Cookie)
    } else {
        None
    }
}

/// The method named by a path-item member key.
pub open spec fn method_of_token(s: Seq<char>) -> Option<Method> {
    if s == "get"@ {
        Some(Method::Get)
    } else if s == "put"@ {
        Some(Method::Put)
    } else if s == "post"@ {
        Some(Method::Post)
    } else if s == "delete"@ {
        Some(Method::Delete)
    } else if s == "options"@ {
        Some(Method::Options)
    } else if s == "head"@ {
        Some(Method::Head)
    } else if s == "patch"@ {
        Some(Method::Patch)
    } else if s == "trace"@ {
        Some(Method::Trace)
    } else if s == "connect"@ {
        Some(Method::Connect)
    } else {
        None
    }
}

/// The reference tokens of a value's `$ref` member: `None` when the value
/// has no such member, `Some(None)` when it has one that is not a pointer
/// text, and the tokens otherwise.
pub open spec fn ref_of_json(j: JsonV) -> Option<Option<Seq<Seq<char>>>> {
    match j {
        JsonV::Obj(ms) => match obj_lookup(ms, "$ref"@) {
            Some(JsonV::Text(s)) => Some(parse_pointer_text(s)),
            Some(_) => Some(None),
            None => None,
        },
        _ => None,
    }
}

/// The names in a `required` list; `None` unless every element is a text.
pub open spec fn strings_of_arr(items: Seq<JsonV>) -> Option<Seq<Seq<char>>>
    decreases items.len(),
{
    if items.len() == 0 {
        Some(Seq::empty())
    } else {
        match items[0] {
            JsonV::Text(s) => match strings_of_arr(items.drop_first()) {
                Some(r) => Some(seq![s] + r),
                None => None,
            },
            _ => None,
        }
    }
}

/// The schema read from a schema object.
pub open spec fn schema_of_json(j: JsonV, fuel: nat) -> Option<SchemaV>
    decreases fuel, 0nat, 0nat,
{
    if fuel == 0 {
        None
    } else {
        match j {
            JsonV::Obj(ms) => {
                let schema_type = match obj_lookup(ms, "type"@) {
                    Some(JsonV::Text(s)) => match schema_type_of_text(s) {
                        Some(t) => Some(Some(t)),
                        None => None,
                    },
                    Some(_) => None,
                    None => Some(None),
                };
                let format = match obj_lookup(ms, "format"@) {
                    Some(JsonV::Text(s)) => Some(Some(s)),
                    Some(_) => None,
                    None => Some(None),
                };
                let nullable = match obj_lookup(ms, "nullable"@) {
                    Some(JsonV::Bool(b)) => Some(Some(b)),
                    Some(_) => None,
                    None => Some(None),
                };
                let required = match obj_lookup(ms, "required"@) {
                    Some(JsonV::Arr(items)) => strings_of_arr(items),
                    Some(_) => None,
                    None => Some(Seq::empty()),
                };
                let properties = match obj_lookup(ms, "properties"@) {
                    Some(JsonV::Obj(pm)) => props_of_json(pm, (fuel - 1) as nat),
                    Some(_) => None,
                    None => Some(Seq::empty()),
                };
                let items_field = match obj_lookup(ms, "items"@) {
                    Some(ij) => match schema_or_ref_of_json(ij, (fuel - 1) as nat) {
                        Some(s) => Some(Some(s)),
                        None => None,
                    },
                    None => Some(None),
                };
                let any_of = match obj_lookup(ms, "anyOf"@) {
                    Some(JsonV::Arr(items)) => oor_list_of_json(items, (fuel - 1) as nat),
                    Some(_) => None,
                    None => Some(Seq::empty()),
                };
                let all_of = match obj_lookup(ms, "allOf"@) {
                    Some(JsonV::Arr(items)) => oor_list_of_json(items, (fuel - 1) as nat),
                    Some(_) => None,
                    None => Some(Seq::empty()),
                };
                let one_of = match obj_lookup(ms, "oneOf"@) {
                    Some(JsonV::Arr(items)) => oor_list_of_json(items, (fuel - 1) as nat),
                    Some(_) => None,
                    None => Some(Seq::empty()),
                };
                if schema_type is Some && format is Some && nullable is Some && required is Some
                    && properties is Some && items_field is Some && any_of is Some && all_of
                    is Some && one_of is Some {
                    Some(
                        SchemaV {
                            schema_type: schema_type->0,
                            format: format->0,
                            nullable: nullable->0,
                            required: required->0,
                            properties: properties->0,
                            items: items_field->0,
                            any_of: any_of->0,
                            all_of: all_of->0,
                            one_of: one_of->0,
                        },
                    )
                } else {
                    None
                }
            },
            _ => None,
        }
    }
}

/// A schema or reference read from a value.
pub open spec fn schema_or_ref_of_json(j: JsonV, fuel: nat) -> Option<SchemaOrRefV>
    decreases fuel, 0nat, 1nat,
{
    if fuel == 0 {
        None
    } else {
        match ref_of_json(j) {
            Some(Some(toks)) => Some(SchemaOrRefV::Ref(toks)),
            Some(None) => None,
            None => match schema_of_json(j, (fuel - 1) as nat) {
                Some(s) => Some(SchemaOrRefV::Inline(Box::new(s))),
                None => None,
            },
        }
    }
}

/// The properties of an object schema.
pub open spec fn props_of_json(ms: Seq<(Seq<char>, JsonV)>, fuel: nat) -> Option<
    Seq<(Seq<char>, SchemaOrRefV)>,
>
    decreases fuel, ms.len(), 2nat,
{
    if ms.len() == 0 {
        Some(Seq::empty())
    } else if fuel == 0 {
        None
    } else {
        match schema_or_ref_of_json(ms[0].1, (fuel - 1) as nat) {
            Some(s) => match props_of_json(ms.drop_first(), fuel) {
                Some(r) => Some(seq![(ms[0].0, s)] + r),
                None => None,
            },
            None => None,
        }
    }
}

/// A composite branch list.
pub open spec fn oor_list_of_json(items: Seq<JsonV>, fuel: nat) -> Option<Seq<SchemaOrRefV>>
    decreases fuel, items.len(), 2nat,
{
    if items.len() == 0 {
        Some(Seq::empty())
    } else if fuel == 0 {
        None
    } else {
        match schema_or_ref_of_json(items[0], (fuel - 1) as nat) {
            Some(s) => match oor_list_of_json(items.drop_first(), fuel) {
                Some(r) => Some(seq![s] + r),
                None => None,
            },
            None => None,
        }
    }
}

/// A media type: its optional schema.
pub open spec fn media_type_of_json(j: JsonV, fuel: nat) -> Option<MediaTypeV>
    decreases fuel, 0nat, 0nat,
{
    if fuel == 0 {
        None
    } else {
        match j {
            JsonV::Obj(ms) => match obj_lookup(ms, "schema"@) {
                Some(sj) => match schema_or_ref_of_json(sj, (fuel - 1) as nat) {
                    Some(s) => Some(MediaTypeV { schema: Some(s) }),
                    None => None,
                },
                None => Some(MediaTypeV { schema: None }),
            },
            _ => None,
        }
    }
}

/// A `content` map: content type to media type.
pub open spec fn content_of_json(ms: Seq<(Seq<char>, JsonV)>, fuel: nat) -> Option<
    Seq<(Seq<char>, MediaTypeV)>,
>
    decreases fuel, ms.len(), 2nat,
{
    if ms.len() == 0 {
        Some(Seq::empty())
    } else if fuel == 0 {
        None
    } else {
        match media_type_of_json(ms[0].1, (fuel - 1) as nat) {
            Some(m) => match content_of_json(ms.drop_first(), fuel) {
                Some(r) => Some(seq![(ms[0].0, m)] + r),
                None => None,
            },
            None => None,
        }
    }
}

/// A request body: its `content` map.
pub open spec fn request_body_of_json(j: JsonV, fuel: nat) -> Option<RequestBodyV>
    decreases fuel, 0nat, 0nat,
{
    if fuel == 0 {
        None
    } else {
        match j {
            JsonV::Obj(ms) => match obj_lookup(ms, "content"@) {
                Some(JsonV::Obj(cm)) => match content_of_json(cm, (fuel - 1) as nat) {
                    Some(c) => Some(RequestBodyV { content: c }),
                    None => None,
                },
                Some(_) => None,
                None => Some(RequestBodyV { content: Seq::empty() }),
            },
            _ => None,
        }
    }
}

/// A response: its `content` map.
pub open spec fn response_of_json(j: JsonV, fuel: nat) -> Option<ResponseV>
    decreases fuel, 0nat, 0nat,
{
    if fuel == 0 {
        None
    } else {
        match j {
            JsonV::Obj(ms) => match obj_lookup(ms, "content"@) {
                Some(JsonV::Obj(cm)) => match content_of_json(cm, (fuel - 1) as nat) {
                    Some(c) => Some(ResponseV { content: c }),
                    None => None,
                },
                Some(_) => None,
                None => Some(ResponseV { content: Seq::empty() }),
            },
            _ => None,
        }
    }
}

/// A declared parameter: `name` and `in` are required, `schema` optional.
pub open spec fn parameter_of_json(j: JsonV, fuel: nat) -> Option<ParameterV>
    decreases fuel, 0nat, 0nat,
{
    if fuel == 0 {
        None
    } else {
        match j {
            JsonV::Obj(ms) => {
                let name = match obj_lookup(ms, "name"@) {
                    Some(JsonV::Text(s)) => Some(s),
                    _ => None,
                };
                let location = match obj_lookup(ms, "in"@) {
                    Some(JsonV::Text(s)) => location_of_text(s),
                    _ => None,
                };
                let schema = match obj_lookup(ms, "schema"@) {
                    Some(sj) => match schema_of_json(sj, (fuel - 1) as nat) {
                        Some(s) => Some(Some(s)),
                        None => None,
                    },
                    None => Some(None),
                };
                if name is Some && location is Some && schema is Some {
                    Some(
                        ParameterV { name: name->0, location: location->0, schema: schema->0 },
                    )
                } else {
                    None
                }
            },
            _ => None,
        }
    }
}

/// A parameter or a reference to one.
pub open spec fn param_or_ref_of_json(j: JsonV, fuel: nat) -> Option<RefOrV<ParameterV>>
    decreases fuel, 0nat, 1nat,
{
    if fuel == 0 {
        None
    } else {
        match ref_of_json(j) {
            Some(Some(toks)) => Some(RefOrV::Ref(toks)),
            Some(None) => None,
            None => match parameter_of_json(j, (fuel - 1) as nat) {
                Some(p) => Some(RefOrV::Inline(p)),
                None => None,
            },
        }
    }
}

/// A request body or a reference to one.
pub open spec fn body_or_ref_of_json(j: JsonV, fuel: nat) -> Option<RefOrV<RequestBodyV>>
    decreases fuel, 0nat, 1nat,
{
    if fuel == 0 {
        None
    } else {
        match ref_of_json(j) {
            Some(Some(toks)) => Some(RefOrV::Ref(toks)),
            Some(None) => None,
            None => match request_body_of_json(j, (fuel - 1) as nat) {
                Some(b) => Some(RefOrV::Inline(b)),
                None => None,
            },
        }
    }
}

/// A response or a reference to one.
pub open spec fn resp_or_ref_of_json(j: JsonV, fuel: nat) -> Option<RefOrV<ResponseV>>
    decreases fuel, 0nat, 1nat,
{
    if fuel == 0 {
        None
    } else {
        match ref_of_json(j) {
            Some(Some(toks)) => Some(RefOrV::Ref(toks)),
            Some(None) => None,
            None => match response_of_json(j, (fuel - 1) as nat) {
                Some(v) => Some(RefOrV::Inline(v)),
                None => None,
            },
        }
    }
}

/// The parameter list of an operation.
pub open spec fn params_of_json(items: Seq<JsonV>, fuel: nat) -> Option<Seq<RefOrV<ParameterV>>>
    decreases fuel, items.len(), 2nat,
{
    if items.len() == 0 {
        Some(Seq::empty())
    } else if fuel == 0 {
        None
    } else {
        match param_or_ref_of_json(items[0], (fuel - 1) as nat) {
            Some(p) => match params_of_json(items.drop_first(), fuel) {
                Some(r) => Some(seq![p] + r),
                None => None,
            },
            None => None,
        }
    }
}

/// The `responses` map of an operation.
pub open spec fn op_responses_of_json(ms: Seq<(Seq<char>, JsonV)>, fuel: nat) -> Option<
    Seq<(Seq<char>, RefOrV<ResponseV>)>,
>
    decreases fuel, ms.len(), 2nat,
{
    if ms.len() == 0 {
        Some(Seq::empty())
    } else if fuel == 0 {
        None
    } else {
        match resp_or_ref_of_json(ms[0].1, (fuel - 1) as nat) {
            Some(v) => match op_responses_of_json(ms.drop_first(), fuel) {
                Some(r) => Some(seq![(ms[0].0, v)] + r),
                None => None,
            },
            None => None,
        }
    }
}

/// One operation.
pub open spec fn operation_of_json(j: JsonV, fuel: nat) -> Option<OperationV>
    decreases fuel, 0nat, 0nat,
{
    if fuel == 0 {
        None
    } else {
        match j {
            JsonV::Obj(ms) => {
                let operation_id = match obj_lookup(ms, "operationId"@) {
                    Some(JsonV::Text(s)) => Some(Some(s)),
                    Some(_) => None,
                    None => Some(None),
                };
                let parameters = match obj_lookup(ms, "parameters"@) {
                    Some(JsonV::Arr(items)) => params_of_json(items, (fuel - 1) as nat),
                    Some(_) => None,
                    None => Some(Seq::empty()),
                };
                let request_body = match obj_lookup(ms, "requestBody"@) {
                    Some(bj) => match body_or_ref_of_json(bj, (fuel - 1) as nat) {
                        Some(b) => Some(Some(b)),
                        None => None,
                    },
                    None => Some(None),
                };
                let responses = match obj_lookup(ms, "responses"@) {
                    Some(JsonV::Obj(rm)) => op_responses_of_json(rm, (fuel - 1) as nat),
                    Some(_) => None,
                    None => Some(Seq::empty()),
                };
                if operation_id is Some && parameters is Some && request_body is Some
                    && responses is Some {
                    Some(
                        OperationV {
                            operation_id: operation_id->0,
                            parameters: parameters->0,
                            request_body: request_body->0,
                            responses: responses->0,
                        },
                    )
                } else {
                    None
                }
            },
            _ => None,
        }
    }
}

/// The operations of a path item, in document order, keyed by method.
/// Members whose key is no method name are ignored.
pub open spec fn ops_of_json(ms: Seq<(Seq<char>, JsonV)>, fuel: nat) -> Option<
    Seq<(Method, OperationV)>,
>
    decreases fuel, ms.len(), 2nat,
{
    if ms.len() == 0 {
        Some(Seq::empty())
    } else if fuel == 0 {
        None
    } else {
        match method_of_token(ms[0].0) {
            Some(m) => match operation_of_json(ms[0].1, (fuel - 1) as nat) {
                Some(o) => match ops_of_json(ms.drop_first(), fuel) {
                    Some(r) => Some(seq![(m, o)] + r),
                    None => None,
                },
                None => None,
            },
            None => ops_of_json(ms.drop_first(), fuel),
        }
    }
}

/// The `paths` map.
pub open spec fn paths_of_json(ms: Seq<(Seq<char>, JsonV)>, fuel: nat) -> Option<
    Seq<(Seq<char>, PathItemV)>,
>
    decreases fuel, ms.len(), 2nat,
{
    if ms.len() == 0 {
        Some(Seq::empty())
    } else if fuel == 0 {
        None
    } else {
        match ms[0].1 {
            JsonV::Obj(pm) => match ops_of_json(pm, (fuel - 1) as nat) {
                Some(ops) => match paths_of_json(ms.drop_first(), fuel) {
                    Some(r) => Some(seq![(ms[0].0, PathItemV { ops })] + r),
                    None => None,
                },
                None => None,
            },
            _ => None,
        }
    }
}

/// A named map of schemas or references.
pub open spec fn schema_entries_of_json(ms: Seq<(Seq<char>, JsonV)>, fuel: nat) -> Option<
    Seq<(Seq<char>, SchemaOrRefV)>,
>
    decreases fuel, ms.len(), 2nat,
{
    if ms.len() == 0 {
        Some(Seq::empty())
    } else if fuel == 0 {
        None
    } else {
        match schema_or_ref_of_json(ms[0].1, (fuel - 1) as nat) {
            Some(s) => match schema_entries_of_json(ms.drop_first(), fuel) {
                Some(r) => Some(seq![(ms[0].0, s)] + r),
                None => None,
            },
            None => None,
        }
    }
}

/// A named map of responses or references.
pub open spec fn response_entries_of_json(ms: Seq<(Seq<char>, JsonV)>, fuel: nat) -> Option<
    Seq<(Seq<char>, RefOrV<ResponseV>)>,
>
    decreases fuel, ms.len(), 2nat,
{
    if ms.len() == 0 {
        Some(Seq::empty())
    } else if fuel == 0 {
        None
    } else {
        match resp_or_ref_of_json(ms[0].1, (fuel - 1) as nat) {
            Some(v) => match response_entries_of_json(ms.drop_first(), fuel) {
                Some(r) => Some(seq![(ms[0].0, v)] + r),
                None => None,
            },
            None => None,
        }
    }
}

/// A named map of parameters or references.
pub open spec fn parameter_entries_of_json(ms: Seq<(Seq<char>, JsonV)>, fuel: nat) -> Option<
    Seq<(Seq<char>, RefOrV<ParameterV>)>,
>
    decreases fuel, ms.len(), 2nat,
{
    if ms.len() == 0 {
        Some(Seq::empty())
    } else if fuel == 0 {
        None
    } else {
        match param_or_ref_of_json(ms[0].1, (fuel - 1) as nat) {
            Some(v) => match parameter_entries_of_json(ms.drop_first(), fuel) {
                Some(r) => Some(seq![(ms[0].0, v)] + r),
                None => None,
            },
            None => None,
        }
    }
}

/// A named map of request bodies or references.
pub open spec fn body_entries_of_json(ms: Seq<(Seq<char>, JsonV)>, fuel: nat) -> Option<
    Seq<(Seq<char>, RefOrV<RequestBodyV>)>,
>
    decreases fuel, ms.len(), 2nat,
{
    if ms.len() == 0 {
        Some(Seq::empty())
    } else if fuel == 0 {
        None
    } else {
        match body_or_ref_of_json(ms[0].1, (fuel - 1) as nat) {
            Some(v) => match body_entries_of_json(ms.drop_first(), fuel) {
                Some(r) => Some(seq![(ms[0].0, v)] + r),
                None => None,
            },
            None => None,
        }
    }
}

/// The `components` section.
pub open spec fn components_of_json(j: JsonV, fuel: nat) -> Option<ComponentsV>
    decreases fuel, 0nat, 0nat,
{
    if fuel == 0 {
        None
    } else {
        match j {
            JsonV::Obj(ms) => {
                let schemas = match obj_lookup(ms, "schemas"@) {
                    Some(JsonV::Obj(sm)) => schema_entries_of_json(sm, (fuel - 1) as nat),
                    Some(_) => None,
                    None => Some(Seq::empty()),
                };
                let responses = match obj_lookup(ms, "responses"@) {
                    Some(JsonV::Obj(rm)) => response_entries_of_json(rm, (fuel - 1) as nat),
                    Some(_) => None,
                    None => Some(Seq::empty()),
                };
                let parameters = match obj_lookup(ms, "parameters"@) {
                    Some(JsonV::Obj(pm)) => parameter_entries_of_json(pm, (fuel - 1) as nat),
                    Some(_) => None,
                    None => Some(Seq::empty()),
                };
                let request_bodies = match obj_lookup(ms, "requestBodies"@) {
                    Some(JsonV::Obj(bm)) => body_entries_of_json(bm, (fuel - 1) as nat),
                    Some(_) => None,
                    None => Some(Seq::empty()),
                };
                if schemas is Some && responses is Some && parameters is Some && request_bodies
                    is Some {
                    Some(
                        ComponentsV {
                            schemas: schemas->0,
                            responses: responses->0,
                            parameters: parameters->0,
                            request_bodies: request_bodies->0,
                        },
                    )
                } else {
                    None
                }
            },
            _ => None,
        }
    }
}

/// The whole document.
pub open spec fn spec_of_json(j: JsonV, fuel: nat) -> Option<SpecV>
    decreases fuel, 0nat, 0nat,
{
    if fuel == 0 {
        None
    } else {
        match j {
            JsonV::Obj(ms) => {
                let paths = match obj_lookup(ms, "paths"@) {
                    Some(JsonV::Obj(pm)) => paths_of_json(pm, (fuel - 1) as nat),
                    Some(_) => None,
                    None => Some(Seq::empty()),
                };
                let components = match obj_lookup(ms, "components"@) {
                    Some(cj) => components_of_json(cj, (fuel - 1) as nat),
                    None => Some(
                        ComponentsV {
                            schemas: Seq::empty(),
                            responses: Seq::empty(),
                            parameters: Seq::empty(),
                            request_bodies: Seq::empty(),
                        },
                    ),
                };
                if paths is Some && components is Some {
                    Some(SpecV { paths: paths->0, components: components->0 })
                } else {
                    None
                }
            },
            _ => None,
        }
    }
}

/// Reads the schema type named by a `type` value.
pub fn schema_type_from_text(s: &str) -> (r: Option<SchemaType>)
    ensures
        r == schema_type_of_text(s@),
{
    if str_eq(s, "object") {
        Some(SchemaType::Object)
    } else if str_eq(s, "array") {
        Some(SchemaType::Array)
    } else if str_eq(s, "integer") {
        Some(SchemaType::Integer)
    } else if str_eq(s, "number") {
        Some(SchemaType::Number)
    } else if str_eq(s, "string") {
        Some(SchemaType::Str)
    } else if str_eq(s, "boolean") {
        Some(SchemaType::Boolean)
    } else {
        None
    }
}

/// Reads the parameter location named by an `in` value.
pub fn location_from_text(s: &str) -> (r: Option<ParameterLocation>)
    ensures
        r == location_of_text(s@),
{
    if str_eq(s, "path") {
        Some(ParameterLocation::Path)
    } else if str_eq(s, "query") {
        Some(ParameterLocation::Query)
    } else if str_eq(s, "header") {
        Some(ParameterLocation::Header)
    } else if str_eq(s, "cookie") {
        Some(ParameterLocation::Cookie)
    } else {
        None
    }
}

/// Reads the method named by a path-item member key.
pub fn method_from_token(s: &str) -> (r: Option<Method>)
    ensures
        r == method_of_token(s@),
{
    if str_eq(s, "get") {
        Some(Method::Get)
    } else if str_eq(s, "put") {
        Some(Method::Put)
    } else if str_eq(s, "post") {
        Some(Method::Post)
    } else if str_eq(s, "delete") {
        Some(Method::Delete)
    } else if str_eq(s, "options") {
        Some(Method::Options)
    } else if str_eq(s, "head") {
        Some(Method::Head)
    } else if str_eq(s, "patch") {
        Some(Method::Patch)
    } else if str_eq(s, "trace") {
        Some(Method::Trace)
    } else if str_eq(s, "connect") {
        Some(Method::Connect)
    } else {
        None
    }
}

/// Reads a value's `$ref` member, when it has one.
fn ref_from_json(j: &Json) -> (r: Option<Option<Pointer>>)
    ensures
        match r {
            Some(Some(p)) => ref_of_json(j@) == Some(Some(p@)),
            Some(None) => ref_of_json(j@) == Some(None::<Seq<Seq<char>>>),
            None => ref_of_json(j@) is None,
        },
{
    match j {
        Json::Obj(ms) => match obj_get(ms, "$ref") {
            Some(Json::Text(s)) => match Pointer::parse(s.as_str()) {
                Some(p) => Some(Some(p)),
                None => Some(None),
            },
            Some(_) => Some(None),
            None => None,
        },
        _ => None,
    }
}

/// Reads the names of a `required` list, from index `i` on.
fn strings_from_arr(items: &Vec<Json>, i: usize) -> (r: Option<Vec<String>>)
    requires
        i <= items.len(),
    ensures
        match r {
            Some(v) => strings_of_arr(crate::json::arr_view(items@).skip(i as int)) == Some(
                v.deep_view(),
            ),
            None => strings_of_arr(crate::json::arr_view(items@).skip(i as int)) is None,
        },
    decreases items.len() - i,
{
    let ghost av = crate::json::arr_view(items@);
    proof {
        crate::json::lemma_arr_view(items@);
    }
    if i == items.len() {
        proof {
            assert(av.skip(i as int) =~= Seq::<JsonV>::empty());
        }
        let v: Vec<String> = Vec::new();
        proof {
            assert(v.deep_view() =~= Seq::<Seq<char>>::empty());
        }
        return Some(v);
    }
    proof {
        assert(av.skip(i as int)[0] == av[i as int]);
        assert(av.skip(i as int).drop_first() =~= av.skip(i + 1));
    }
    match &items[i] {
        Json::Text(s) => match strings_from_arr(items, i + 1) {
            Some(mut v) => {
                let ghost prev_vec = v@;
                let ghost prev_deep = v.deep_view();
                v.insert(0, s.clone());
                proof {
                    assert forall|k: int| 0 <= k < v@.len() implies v.deep_view()[k] == (seq![s@]
                        + prev_deep)[k] by {
                        assert(v.deep_view()[k] == v@[k]@);
                        if k > 0 {
                            assert(v@[k] == prev_vec[k - 1]);
                            assert(prev_deep[k - 1] == prev_vec[k - 1]@);
                        }
                    }
                    assert(v.deep_view() =~= seq![s@] + prev_deep);
                }
                Some(v)
            },
            None => None,
        },
        _ => None,
    }
}

/// Reads a schema from a schema object.
pub fn schema_from_json(j: &Json, fuel: u32) -> (r: Option<Schema>)
    ensures
        match r {
            Some(s) => schema_of_json(j@, fuel as nat) == Some(s@),
            None => schema_of_json(j@, fuel as nat) is None,
        },
    decreases fuel, 0nat, 0nat,
{
    if fuel == 0 {
        return None;
    }
    match j {
        Json::Obj(members) => {
            let schema_type: Option<SchemaType> = match obj_get(members, "type") {
                Some(Json::Text(s)) => match schema_type_from_text(s.as_str()) {
                    Some(t) => Some(t),
                    None => {
                        return None;
                    },
                },
                Some(_) => {
                    return None;
                },
                None => None,
            };
            let format: Option<String> = match obj_get(members, "format") {
                Some(Json::Text(s)) => Some(s.clone()),
                Some(_) => {
                    return None;
                },
                None => None,
            };
            let nullable: Option<bool> = match obj_get(members, "nullable") {
                Some(Json::Bool(b)) => Some(*b),
                Some(_) => {
                    return None;
                },
                None => None,
            };
            let required: Vec<String> = match obj_get(members, "required") {
                Some(Json::Arr(items)) => {
                    proof {
                        assert(crate::json::arr_view(items@).skip(0) =~= crate::json::arr_view(
                            items@,
                        ));
                    }
                    match strings_from_arr(items, 0) {
                        Some(v) => v,
                        None => {
                            return None;
                        },
                    }
                },
                Some(_) => {
                    return None;
                },
                None => Vec::new(),
            };
            let properties: Vec<(String, ObjectOrReference<Schema>)> = match obj_get(
                members,
                "properties",
            ) {
                Some(Json::Obj(pm)) => {
                    proof {
                        assert(members_view(pm@).skip(0) =~= members_view(pm@));
                    }
                    match props_from_json(pm, 0, fuel - 1) {
                        Some(v) => v,
                        None => {
                            return None;
                        },
                    }
                },
                Some(_) => {
                    return None;
                },
                None => Vec::new(),
            };
            let items_field: Option<Box<ObjectOrReference<Schema>>> = match obj_get(
                members,
                "items",
            ) {
                Some(ij) => match schema_or_ref_from_json(ij, fuel - 1) {
                    Some(s) => Some(Box::new(s)),
                    None => {
                        return None;
                    },
                },
                None => None,
            };
            let any_of: Vec<ObjectOrReference<Schema>> = match obj_get(members, "anyOf") {
                Some(Json::Arr(items)) => {
                    proof {
                        assert(crate::json::arr_view(items@).skip(0) =~= crate::json::arr_view(
                            items@,
                        ));
                    }
                    match oor_list_from_json(items, 0, fuel - 1) {
                        Some(v) => v,
                        None => {
                            return None;
                        },
                    }
                },
                Some(_) => {
                    return None;
                },
                None => Vec::new(),
            };
            let all_of: Vec<ObjectOrReference<Schema>> = match obj_get(members, "allOf") {
                Some(Json::Arr(items)) => {
                    proof {
                        assert(crate::json::arr_view(items@).skip(0) =~= crate::json::arr_view(
                            items@,
                        ));
                    }
                    match oor_list_from_json(items, 0, fuel - 1) {
                        Some(v) => v,
                        None => {
                            return None;
                        },
                    }
                },
                Some(_) => {
                    return None;
                },
                None => Vec::new(),
            };
            let one_of: Vec<ObjectOrReference<Schema>> = match obj_get(members, "oneOf") {
                Some(Json::Arr(items)) => {
                    proof {
                        assert(crate::json::arr_view(items@).skip(0) =~= crate::json::arr_view(
                            items@,
                        ));
                    }
                    match oor_list_from_json(items, 0, fuel - 1) {
                        Some(v) => v,
                        None => {
                            return None;
                        },
                    }
                },
                Some(_) => {
                    return None;
                },
                None => Vec::new(),
            };
            let s = Schema {
                schema_type,
                format,
                nullable,
                required,
                properties,
                items: items_field,
                any_of,
                all_of,
                one_of,
            };
            proof {
                assert(crate::model::strings_view(s.required@) =~= s.required.deep_view());
                assert(crate::model::props_view(Seq::<(String, ObjectOrReference<Schema>)>::empty())
                    == Seq::<(Seq<char>, SchemaOrRefV)>::empty());
                assert(crate::model::oor_list_view(Seq::<ObjectOrReference<Schema>>::empty())
                    == Seq::<SchemaOrRefV>::empty());
                assert(s.required.deep_view().len() == 0 ==> s.required.deep_view()
                    =~= Seq::<Seq<char>>::empty());
                assert(schema_of_json(j@, fuel as nat) == Some(s@));
            }
            Some(s)
        },
        _ => None,
    }
}

/// Reads a schema or a reference from a value.
pub fn schema_or_ref_from_json(j: &Json, fuel: u32) -> (r: Option<ObjectOrReference<Schema>>)
    ensures
        match r {
            Some(s) => schema_or_ref_of_json(j@, fuel as nat) == Some(s@),
            None => schema_or_ref_of_json(j@, fuel as nat) is None,
        },
    decreases fuel, 0nat, 1nat,
{
    if fuel == 0 {
        return None;
    }
    match ref_from_json(j) {
        Some(Some(p)) => Some(ObjectOrReference::Ref { ref_path: p }),
        Some(None) => None,
        None => match schema_from_json(j, fuel - 1) {
            Some(s) => Some(ObjectOrReference::Object(s)),
            None => None,
        },
    }
}

/// Reads the properties of an object schema, from index `i` on.
pub fn props_from_json(pm: &Vec<(String, Json)>, i: usize, fuel: u32) -> (r: Option<
    Vec<(String, ObjectOrReference<Schema>)>,
>)
    requires
        i <= pm.len(),
    ensures
        match r {
            Some(v) => props_of_json(members_view(pm@).skip(i as int), fuel as nat) == Some(
                crate::model::props_view(v@),
            ),
            None => props_of_json(members_view(pm@).skip(i as int), fuel as nat) is None,
        },
    decreases fuel, pm.len() - i, 2nat,
{
    let ghost mv = members_view(pm@);
    proof {
        crate::json::lemma_members_view(pm@);
    }
    if i == pm.len() {
        proof {
            assert(mv.skip(i as int) =~= Seq::<(Seq<char>, JsonV)>::empty());
        }
        let v: Vec<(String, ObjectOrReference<Schema>)> = Vec::new();
        proof {
            assert(crate::model::props_view(v@) == Seq::<(Seq<char>, SchemaOrRefV)>::empty());
        }
        return Some(v);
    }
    if fuel == 0 {
        return None;
    }
    proof {
        assert(mv.skip(i as int)[0] == mv[i as int]);
        assert(mv.skip(i as int).drop_first() =~= mv.skip(i + 1));
    }
    match schema_or_ref_from_json(&pm[i].1, fuel - 1) {
        Some(s) => match props_from_json(pm, i + 1, fuel) {
            Some(mut v) => {
                let ghost prev_vec = v@;
                let ghost sv = s@;
                let name = pm[i].0.clone();
                let ghost namev = name@;
                v.insert(0, (name, s));
                proof {
                    assert(v@.drop_first() =~= prev_vec);
                    assert(v@[0].0@ == namev);
                    assert(v@[0].1@ == sv);
                    assert(crate::model::props_view(v@) == seq![(namev, sv)]
                        + crate::model::props_view(prev_vec));
                }
                Some(v)
            },
            None => None,
        },
        None => None,
    }
}

/// Reads a composite branch list, from index `i` on.
pub fn oor_list_from_json(items: &Vec<Json>, i: usize, fuel: u32) -> (r: Option<
    Vec<ObjectOrReference<Schema>>,
>)
    requires
        i <= items.len(),
    ensures
        match r {
            Some(v) => oor_list_of_json(crate::json::arr_view(items@).skip(i as int), fuel as nat)
                == Some(crate::model::oor_list_view(v@)),
            None => oor_list_of_json(
                crate::json::arr_view(items@).skip(i as int),
                fuel as nat,
            ) is None,
        },
    decreases fuel, items.len() - i, 2nat,
{
    let ghost av = crate::json::arr_view(items@);
    proof {
        crate::json::lemma_arr_view(items@);
    }
    if i == items.len() {
        proof {
            assert(av.skip(i as int) =~= Seq::<JsonV>::empty());
        }
        let v: Vec<ObjectOrReference<Schema>> = Vec::new();
        proof {
            assert(crate::model::oor_list_view(v@) == Seq::<SchemaOrRefV>::empty());
        }
        return Some(v);
    }
    if fuel == 0 {
        return None;
    }
    proof {
        assert(av.skip(i as int)[0] == av[i as int]);
        assert(av.skip(i as int).drop_first() =~= av.skip(i + 1));
    }
    match schema_or_ref_from_json(&items[i], fuel - 1) {
        Some(s) => match oor_list_from_json(items, i + 1, fuel) {
            Some(mut v) => {
                let ghost prev_vec = v@;
                let ghost sv = s@;
                v.insert(0, s);
                proof {
                    assert(v@.drop_first() =~= prev_vec);
                    assert(v@[0]@ == sv);
                    assert(crate::model::oor_list_view(v@) == seq![sv]
                        + crate::model::oor_list_view(prev_vec));
                }
                Some(v)
            },
            None => None,
        },
        None => None,
    }
}

/// Reads a media type.
pub fn media_type_from_json(j: &Json, fuel: u32) -> (r: Option<MediaType>)
    ensures
        match r {
            Some(m) => media_type_of_json(j@, fuel as nat) == Some(m@),
            None => media_type_of_json(j@, fuel as nat) is None,
        },
    decreases fuel, 0nat, 0nat,
{
    if fuel == 0 {
        return None;
    }
    match j {
        Json::Obj(members) => match obj_get(members, "schema") {
            Some(sj) => match schema_or_ref_from_json(sj, fuel - 1) {
                Some(s) => Some(MediaType { schema: Some(s) }),
                None => None,
            },
            None => Some(MediaType { schema: None }),
        },
        _ => None,
    }
}

/// Reads a `content` map, from index `i` on.
pub fn content_from_json(cm: &Vec<(String, Json)>, i: usize, fuel: u32) -> (r: Option<
    Vec<(String, MediaType)>,
>)
    requires
        i <= cm.len(),
    ensures
        match r {
            Some(v) => content_of_json(members_view(cm@).skip(i as int), fuel as nat) == Some(
                crate::model::content_view(v@),
            ),
            None => content_of_json(members_view(cm@).skip(i as int), fuel as nat) is None,
        },
    decreases fuel, cm.len() - i, 2nat,
{
    let ghost mv = members_view(cm@);
    proof {
        crate::json::lemma_members_view(cm@);
    }
    if i == cm.len() {
        proof {
            assert(mv.skip(i as int) =~= Seq::<(Seq<char>, JsonV)>::empty());
        }
        let v: Vec<(String, MediaType)> = Vec::new();
        proof {
            assert(crate::model::content_view(v@) =~= Seq::<(Seq<char>, MediaTypeV)>::empty());
        }
        return Some(v);
    }
    if fuel == 0 {
        return None;
    }
    proof {
        assert(mv.skip(i as int)[0] == mv[i as int]);
        assert(mv.skip(i as int).drop_first() =~= mv.skip(i + 1));
    }
    match media_type_from_json(&cm[i].1, fuel - 1) {
        Some(m) => match content_from_json(cm, i + 1, fuel) {
            Some(mut v) => {
                let ghost prev_vec = v@;
                let ghost prev_view = crate::model::content_view(v@);
                let ghost mvv = m@;
                let name = cm[i].0.clone();
                let ghost namev = name@;
                v.insert(0, (name, m));
                proof {
                    assert forall|k: int| 0 <= k < v@.len() implies crate::model::content_view(
                        v@,
                    )[k] == (seq![(namev, mvv)] + prev_view)[k] by {
                        if k > 0 {
                            assert(v@[k] == prev_vec[k - 1]);
                        }
                    }
                    assert(crate::model::content_view(v@) =~= seq![(namev, mvv)] + prev_view);
                }
                Some(v)
            },
            None => None,
        },
        None => None,
    }
}

/// Reads a request body.
pub fn request_body_from_json(j: &Json, fuel: u32) -> (r: Option<RequestBody>)
    ensures
        match r {
            Some(b) => request_body_of_json(j@, fuel as nat) == Some(b@),
            None => request_body_of_json(j@, fuel as nat) is None,
        },
    decreases fuel, 0nat, 0nat,
{
    if fuel == 0 {
        return None;
    }
    match j {
        Json::Obj(members) => match obj_get(members, "content") {
            Some(Json::Obj(cm)) => {
                proof {
                    assert(members_view(cm@).skip(0) =~= members_view(cm@));
                }
                match content_from_json(cm, 0, fuel - 1) {
                    Some(c) => Some(RequestBody { content: c }),
                    None => None,
                }
            },
            Some(_) => None,
            None => {
                let v: Vec<(String, MediaType)> = Vec::new();
                proof {
                    assert(crate::model::content_view(v@)
                        =~= Seq::<(Seq<char>, MediaTypeV)>::empty());
                }
                Some(RequestBody { content: v })
            },
        },
        _ => None,
    }
}

/// Reads a response.
pub fn response_from_json(j: &Json, fuel: u32) -> (r: Option<Response>)
    ensures
        match r {
            Some(v) => response_of_json(j@, fuel as nat) == Some(v@),
            None => response_of_json(j@, fuel as nat) is None,
        },
    decreases fuel, 0nat, 0nat,
{
    if fuel == 0 {
        return None;
    }
    match j {
        Json::Obj(members) => match obj_get(members, "content") {
            Some(Json::Obj(cm)) => {
                proof {
                    assert(members_view(cm@).skip(0) =~= members_view(cm@));
                }
                match content_from_json(cm, 0, fuel - 1) {
                    Some(c) => Some(Response { content: c }),
                    None => None,
                }
            },
            Some(_) => None,
            None => {
                let v: Vec<(String, MediaType)> = Vec::new();
                proof {
                    assert(crate::model::content_view(v@)
                        =~= Seq::<(Seq<char>, MediaTypeV)>::empty());
                }
                Some(Response { content: v })
            },
        },
        _ => None,
    }
}

/// Reads a declared parameter.
pub fn parameter_from_json(j: &Json, fuel: u32) -> (r: Option<Parameter>)
    ensures
        match r {
            Some(p) => parameter_of_json(j@, fuel as nat) == Some(p@),
            None => parameter_of_json(j@, fuel as nat) is None,
        },
    decreases fuel, 0nat, 0nat,
{
    if fuel == 0 {
        return None;
    }
    match j {
        Json::Obj(members) => {
            let name: String = match obj_get(members, "name") {
                Some(Json::Text(s)) => s.clone(),
                _ => {
                    return None;
                },
            };
            let location: ParameterLocation = match obj_get(members, "in") {
                Some(Json::Text(s)) => match location_from_text(s.as_str()) {
                    Some(l) => l,
                    None => {
                        return None;
                    },
                },
                _ => {
                    return None;
                },
            };
            let schema: Option<Schema> = match obj_get(members, "schema") {
                Some(sj) => match schema_from_json(sj, fuel - 1) {
                    Some(s) => Some(s),
                    None => {
                        return None;
                    },
                },
                None => None,
            };
            Some(Parameter { name, location, schema })
        },
        _ => None,
    }
}

/// Reads a parameter or a reference.
pub fn param_or_ref_from_json(j: &Json, fuel: u32) -> (r: Option<ObjectOrReference<Parameter>>)
    ensures
        match r {
            Some(p) => param_or_ref_of_json(j@, fuel as nat) == Some(p@),
            None => param_or_ref_of_json(j@, fuel as nat) is None,
        },
    decreases fuel, 0nat, 1nat,
{
    if fuel == 0 {
        return None;
    }
    match ref_from_json(j) {
        Some(Some(p)) => Some(ObjectOrReference::Ref { ref_path: p }),
        Some(None) => None,
        None => match parameter_from_json(j, fuel - 1) {
            Some(p) => Some(ObjectOrReference::Object(p)),
            None => None,
        },
    }
}

/// Reads a request body or a reference.
pub fn body_or_ref_from_json(j: &Json, fuel: u32) -> (r: Option<ObjectOrReference<RequestBody>>)
    ensures
        match r {
            Some(b) => body_or_ref_of_json(j@, fuel as nat) == Some(b@),
            None => body_or_ref_of_json(j@, fuel as nat) is None,
        },
    decreases fuel, 0nat, 1nat,
{
    if fuel == 0 {
        return None;
    }
    match ref_from_json(j) {
        Some(Some(p)) => Some(ObjectOrReference::Ref { ref_path: p }),
        Some(None) => None,
        None => match request_body_from_json(j, fuel - 1) {
            Some(b) => Some(ObjectOrReference::Object(b)),
            None => None,
        },
    }
}

/// Reads a response or a reference.
pub fn resp_or_ref_from_json(j: &Json, fuel: u32) -> (r: Option<ObjectOrReference<Response>>)
    ensures
        match r {
            Some(v) => resp_or_ref_of_json(j@, fuel as nat) == Some(v@),
            None => resp_or_ref_of_json(j@, fuel as nat) is None,
        },
    decreases fuel, 0nat, 1nat,
{
    if fuel == 0 {
        return None;
    }
    match ref_from_json(j) {
        Some(Some(p)) => Some(ObjectOrReference::Ref { ref_path: p }),
        Some(None) => None,
        None => match response_from_json(j, fuel - 1) {
            Some(v) => Some(ObjectOrReference::Object(v)),
            None => None,
        },
    }
}

/// Reads an operation's parameter list, from index `i` on.
pub fn params_from_json(items: &Vec<Json>, i: usize, fuel: u32) -> (r: Option<
    Vec<ObjectOrReference<Parameter>>,
>)
    requires
        i <= items.len(),
    ensures
        match r {
            Some(v) => params_of_json(crate::json::arr_view(items@).skip(i as int), fuel as nat)
                == Some(crate::model::params_view(v@)),
            None => params_of_json(
                crate::json::arr_view(items@).skip(i as int),
                fuel as nat,
            ) is None,
        },
    decreases fuel, items.len() - i, 2nat,
{
    let ghost av = crate::json::arr_view(items@);
    proof {
        crate::json::lemma_arr_view(items@);
    }
    if i == items.len() {
        proof {
            assert(av.skip(i as int) =~= Seq::<JsonV>::empty());
        }
        let v: Vec<ObjectOrReference<Parameter>> = Vec::new();
        proof {
            assert(crate::model::params_view(v@) =~= Seq::<RefOrV<ParameterV>>::empty());
        }
        return Some(v);
    }
    if fuel == 0 {
        return None;
    }
    proof {
        assert(av.skip(i as int)[0] == av[i as int]);
        assert(av.skip(i as int).drop_first() =~= av.skip(i + 1));
    }
    match param_or_ref_from_json(&items[i], fuel - 1) {
        Some(p) => match params_from_json(items, i + 1, fuel) {
            Some(mut v) => {
                let ghost prev_vec = v@;
                let ghost prev_view = crate::model::params_view(v@);
                let ghost pv = p@;
                v.insert(0, p);
                proof {
                    assert forall|k: int| 0 <= k < v@.len() implies crate::model::params_view(
                        v@,
                    )[k] == (seq![pv] + prev_view)[k] by {
                        if k > 0 {
                            assert(v@[k] == prev_vec[k - 1]);
                        }
                    }
                    assert(crate::model::params_view(v@) =~= seq![pv] + prev_view);
                }
                Some(v)
            },
            None => None,
        },
        None => None,
    }
}

/// Reads an operation's `responses` map, from index `i` on.
pub fn op_responses_from_json(rm: &Vec<(String, Json)>, i: usize, fuel: u32) -> (r: Option<
    Vec<(String, ObjectOrReference<Response>)>,
>)
    requires
        i <= rm.len(),
    ensures
        match r {
            Some(v) => op_responses_of_json(members_view(rm@).skip(i as int), fuel as nat) == Some(
                crate::model::entries_view(v@),
            ),
            None => op_responses_of_json(members_view(rm@).skip(i as int), fuel as nat) is None,
        },
    decreases fuel, rm.len() - i, 2nat,
{
    let ghost mv = members_view(rm@);
    proof {
        crate::json::lemma_members_view(rm@);
    }
    if i == rm.len() {
        proof {
            assert(mv.skip(i as int) =~= Seq::<(Seq<char>, JsonV)>::empty());
        }
        let v: Vec<(String, ObjectOrReference<Response>)> = Vec::new();
        proof {
            assert(crate::model::entries_view(v@)
                =~= Seq::<(Seq<char>, RefOrV<ResponseV>)>::empty());
        }
        return Some(v);
    }
    if fuel == 0 {
        return None;
    }
    proof {
        assert(mv.skip(i as int)[0] == mv[i as int]);
        assert(mv.skip(i as int).drop_first() =~= mv.skip(i + 1));
    }
    match resp_or_ref_from_json(&rm[i].1, fuel - 1) {
        Some(resp) => match op_responses_from_json(rm, i + 1, fuel) {
            Some(mut v) => {
                let ghost prev_vec = v@;
                let ghost prev_view = crate::model::entries_view(v@);
                let ghost rv = resp@;
                let name = rm[i].0.clone();
                let ghost namev = name@;
                v.insert(0, (name, resp));
                proof {
                    assert forall|k: int| 0 <= k < v@.len() implies crate::model::entries_view(
                        v@,
                    )[k] == (seq![(namev, rv)] + prev_view)[k] by {
                        if k > 0 {
                            assert(v@[k] == prev_vec[k - 1]);
                        }
                    }
                    assert(crate::model::entries_view(v@) =~= seq![(namev, rv)] + prev_view);
                }
                Some(v)
            },
            None => None,
        },
        None => None,
    }
}

/// Reads one operation.
pub fn operation_from_json(j: &Json, fuel: u32) -> (r: Option<Operation>)
    ensures
        match r {
            Some(o) => operation_of_json(j@, fuel as nat) == Some(o@),
            None => operation_of_json(j@, fuel as nat) is None,
        },
    decreases fuel, 0nat, 0nat,
{
    if fuel == 0 {
        return None;
    }
    match j {
        Json::Obj(members) => {
            let operation_id: Option<String> = match obj_get(members, "operationId") {
                Some(Json::Text(s)) => Some(s.clone()),
                Some(_) => {
                    return None;
                },
                None => None,
            };
            let parameters: Vec<ObjectOrReference<Parameter>> = match obj_get(
                members,
                "parameters",
            ) {
                Some(Json::Arr(items)) => {
                    proof {
                        assert(crate::json::arr_view(items@).skip(0) =~= crate::json::arr_view(
                            items@,
                        ));
                    }
                    match params_from_json(items, 0, fuel - 1) {
                        Some(v) => v,
                        None => {
                            return None;
                        },
                    }
                },
                Some(_) => {
                    return None;
                },
                None => Vec::new(),
            };
            let request_body: Option<ObjectOrReference<RequestBody>> = match obj_get(
                members,
                "requestBody",
            ) {
                Some(bj) => match body_or_ref_from_json(bj, fuel - 1) {
                    Some(b) => Some(b),
                    None => {
                        return None;
                    },
                },
                None => None,
            };
            let responses: Vec<(String, ObjectOrReference<Response>)> = match obj_get(
                members,
                "responses",
            ) {
                Some(Json::Obj(rm)) => {
                    proof {
                        assert(members_view(rm@).skip(0) =~= members_view(rm@));
                    }
                    match op_responses_from_json(rm, 0, fuel - 1) {
                        Some(v) => v,
                        None => {
                            return None;
                        },
                    }
                },
                Some(_) => {
                    return None;
                },
                None => Vec::new(),
            };
            let o = Operation { operation_id, parameters, request_body, responses };
            proof {
                assert(crate::model::params_view(Seq::<ObjectOrReference<Parameter>>::empty())
                    =~= Seq::<RefOrV<ParameterV>>::empty());
                assert(crate::model::entries_view(
                    Seq::<(String, ObjectOrReference<Response>)>::empty(),
                ) =~= Seq::<(Seq<char>, RefOrV<ResponseV>)>::empty());
                assert(operation_of_json(j@, fuel as nat) == Some(o@));
            }
            Some(o)
        },
        _ => None,
    }
}

/// Reads the operations of a path item, from index `i` on.
pub fn ops_from_json(pm: &Vec<(String, Json)>, i: usize, fuel: u32) -> (r: Option<
    Vec<(Method, Operation)>,
>)
    requires
        i <= pm.len(),
    ensures
        match r {
            Some(v) => ops_of_json(members_view(pm@).skip(i as int), fuel as nat) == Some(
                crate::model::ops_view(v@),
            ),
            None => ops_of_json(members_view(pm@).skip(i as int), fuel as nat) is None,
        },
    decreases fuel, pm.len() - i, 2nat,
{
    let ghost mv = members_view(pm@);
    proof {
        crate::json::lemma_members_view(pm@);
    }
    if i == pm.len() {
        proof {
            assert(mv.skip(i as int) =~= Seq::<(Seq<char>, JsonV)>::empty());
        }
        let v: Vec<(Method, Operation)> = Vec::new();
        proof {
            assert(crate::model::ops_view(v@) =~= Seq::<(Method, OperationV)>::empty());
        }
        return Some(v);
    }
    if fuel == 0 {
        return None;
    }
    proof {
        assert(mv.skip(i as int)[0] == mv[i as int]);
        assert(mv.skip(i as int).drop_first() =~= mv.skip(i + 1));
    }
    match method_from_token(pm[i].0.as_str()) {
        Some(m) => match operation_from_json(&pm[i].1, fuel - 1) {
            Some(o) => match ops_from_json(pm, i + 1, fuel) {
                Some(mut v) => {
                    let ghost prev_vec = v@;
                    let ghost prev_view = crate::model::ops_view(v@);
                    let ghost ov = o@;
                    v.insert(0, (m, o));
                    proof {
                        assert forall|k: int| 0 <= k < v@.len() implies crate::model::ops_view(
                            v@,
                        )[k] == (seq![(m, ov)] + prev_view)[k] by {
                            if k > 0 {
                                assert(v@[k] == prev_vec[k - 1]);
                            }
                        }
                        assert(crate::model::ops_view(v@) =~= seq![(m, ov)] + prev_view);
                    }
                    Some(v)
                },
                None => None,
            },
            None => None,
        },
        None => ops_from_json(pm, i + 1, fuel),
    }
}

/// Reads the `paths` map, from index `i` on.
pub fn paths_from_json(ms: &Vec<(String, Json)>, i: usize, fuel: u32) -> (r: Option<
    Vec<(String, PathItem)>,
>)
    requires
        i <= ms.len(),
    ensures
        match r {
            Some(v) => paths_of_json(members_view(ms@).skip(i as int), fuel as nat) == Some(
                crate::model::entries_view(v@),
            ),
            None => paths_of_json(members_view(ms@).skip(i as int), fuel as nat) is None,
        },
    decreases fuel, ms.len() - i, 2nat,
{
    let ghost mv = members_view(ms@);
    proof {
        crate::json::lemma_members_view(ms@);
    }
    if i == ms.len() {
        proof {
            assert(mv.skip(i as int) =~= Seq::<(Seq<char>, JsonV)>::empty());
        }
        let v: Vec<(String, PathItem)> = Vec::new();
        proof {
            assert(crate::model::entries_view(v@) =~= Seq::<(Seq<char>, PathItemV)>::empty());
        }
        return Some(v);
    }
    if fuel == 0 {
        return None;
    }
    proof {
        assert(mv.skip(i as int)[0] == mv[i as int]);
        assert(mv.skip(i as int).drop_first() =~= mv.skip(i + 1));
    }
    match &ms[i].1 {
        Json::Obj(pm) => {
            proof {
                assert(members_view(pm@).skip(0) =~= members_view(pm@));
            }
            match ops_from_json(pm, 0, fuel - 1) {
                Some(ops) => match paths_from_json(ms, i + 1, fuel) {
                    Some(mut v) => {
                        let item = PathItem { ops };
                        let ghost prev_vec = v@;
                        let ghost prev_view = crate::model::entries_view(v@);
                        let ghost iv = item@;
                        let name = ms[i].0.clone();
                        let ghost namev = name@;
                        v.insert(0, (name, item));
                        proof {
                            assert forall|k: int|
                                0 <= k < v@.len() implies crate::model::entries_view(v@)[k] == (
                            seq![(namev, iv)] + prev_view)[k] by {
                                if k > 0 {
                                    assert(v@[k] == prev_vec[k - 1]);
                                }
                            }
                            assert(crate::model::entries_view(v@) =~= seq![(namev, iv)]
                                + prev_view);
                        }
                        Some(v)
                    },
                    None => None,
                },
                None => None,
            }
        },
        _ => None,
    }
}

/// Reads a named map of schemas, from index `i` on.
pub fn schema_entries_from_json(ms: &Vec<(String, Json)>, i: usize, fuel: u32) -> (r: Option<
    Vec<(String, ObjectOrReference<Schema>)>,
>)
    requires
        i <= ms.len(),
    ensures
        match r {
            Some(v) => schema_entries_of_json(members_view(ms@).skip(i as int), fuel as nat)
                == Some(crate::model::entries_view(v@)),
            None => schema_entries_of_json(
                members_view(ms@).skip(i as int),
                fuel as nat,
            ) is None,
        },
    decreases fuel, ms.len() - i, 2nat,
{
    let ghost mv = members_view(ms@);
    proof {
        crate::json::lemma_members_view(ms@);
    }
    if i == ms.len() {
        proof {
            assert(mv.skip(i as int) =~= Seq::<(Seq<char>, JsonV)>::empty());
        }
        let v: Vec<(String, ObjectOrReference<Schema>)> = Vec::new();
        proof {
            assert(crate::model::entries_view(v@) =~= Seq::<(Seq<char>, SchemaOrRefV)>::empty());
        }
        return Some(v);
    }
    if fuel == 0 {
        return None;
    }
    proof {
        assert(mv.skip(i as int)[0] == mv[i as int]);
        assert(mv.skip(i as int).drop_first() =~= mv.skip(i + 1));
    }
    match schema_or_ref_from_json(&ms[i].1, fuel - 1) {
        Some(s) => match schema_entries_from_json(ms, i + 1, fuel) {
            Some(mut v) => {
                let ghost prev_vec = v@;
                let ghost prev_view = crate::model::entries_view(v@);
                let ghost sv = s@;
                let name = ms[i].0.clone();
                let ghost namev = name@;
                v.insert(0, (name, s));
                proof {
                    assert forall|k: int| 0 <= k < v@.len() implies crate::model::entries_view(
                        v@,
                    )[k] == (seq![(namev, sv)] + prev_view)[k] by {
                        if k > 0 {
                            assert(v@[k] == prev_vec[k - 1]);
                        }
                    }
                    assert(crate::model::entries_view(v@) =~= seq![(namev, sv)] + prev_view);
                }
                Some(v)
            },
            None => None,
        },
        None => None,
    }
}

/// Reads a named map of responses, from index `i` on.
pub fn response_entries_from_json(ms: &Vec<(String, Json)>, i: usize, fuel: u32) -> (r: Option<
    Vec<(String, ObjectOrReference<Response>)>,
>)
    requires
        i <= ms.len(),
    ensures
        match r {
            Some(v) => response_entries_of_json(members_view(ms@).skip(i as int), fuel as nat)
                == Some(crate::model::entries_view(v@)),
            None => response_entries_of_json(
                members_view(ms@).skip(i as int),
                fuel as nat,
            ) is None,
        },
    decreases fuel, ms.len() - i, 2nat,
{
    let ghost mv = members_view(ms@);
    proof {
        crate::json::lemma_members_view(ms@);
    }
    if i == ms.len() {
        proof {
            assert(mv.skip(i as int) =~= Seq::<(Seq<char>, JsonV)>::empty());
        }
        let v: Vec<(String, ObjectOrReference<Response>)> = Vec::new();
        proof {
            assert(crate::model::entries_view(v@)
                =~= Seq::<(Seq<char>, RefOrV<ResponseV>)>::empty());
        }
        return Some(v);
    }
    if fuel == 0 {
        return None;
    }
    proof {
        assert(mv.skip(i as int)[0] == mv[i as int]);
        assert(mv.skip(i as int).drop_first() =~= mv.skip(i + 1));
    }
    match resp_or_ref_from_json(&ms[i].1, fuel - 1) {
        Some(resp) => match response_entries_from_json(ms, i + 1, fuel) {
            Some(mut v) => {
                let ghost prev_vec = v@;
                let ghost prev_view = crate::model::entries_view(v@);
                let ghost rv = resp@;
                let name = ms[i].0.clone();
                let ghost namev = name@;
                v.insert(0, (name, resp));
                proof {
                    assert forall|k: int| 0 <= k < v@.len() implies crate::model::entries_view(
                        v@,
                    )[k] == (seq![(namev, rv)] + prev_view)[k] by {
                        if k > 0 {
                            assert(v@[k] == prev_vec[k - 1]);
                        }
                    }
                    assert(crate::model::entries_view(v@) =~= seq![(namev, rv)] + prev_view);
                }
                Some(v)
            },
            None => None,
        },
        None => None,
    }
}

/// Reads a named map of parameters, from index `i` on.
pub fn parameter_entries_from_json(ms: &Vec<(String, Json)>, i: usize, fuel: u32) -> (r: Option<
    Vec<(String, ObjectOrReference<Parameter>)>,
>)
    requires
        i <= ms.len(),
    ensures
        match r {
            Some(v) => parameter_entries_of_json(members_view(ms@).skip(i as int), fuel as nat)
                == Some(crate::model::entries_view(v@)),
            None => parameter_entries_of_json(
                members_view(ms@).skip(i as int),
                fuel as nat,
            ) is None,
        },
    decreases fuel, ms.len() - i, 2nat,
{
    let ghost mv = members_view(ms@);
    proof {
        crate::json::lemma_members_view(ms@);
    }
    if i == ms.len() {
        proof {
            assert(mv.skip(i as int) =~= Seq::<(Seq<char>, JsonV)>::empty());
        }
        let v: Vec<(String, ObjectOrReference<Parameter>)> = Vec::new();
        proof {
            assert(crate::model::entries_view(v@)
                =~= Seq::<(Seq<char>, RefOrV<ParameterV>)>::empty());
        }
        return Some(v);
    }
    if fuel == 0 {
        return None;
    }
    proof {
        assert(mv.skip(i as int)[0] == mv[i as int]);
        assert(mv.skip(i as int).drop_first() =~= mv.skip(i + 1));
    }
    match param_or_ref_from_json(&ms[i].1, fuel - 1) {
        Some(p) => match parameter_entries_from_json(ms, i + 1, fuel) {
            Some(mut v) => {
                let ghost prev_vec = v@;
                let ghost prev_view = crate::model::entries_view(v@);
                let ghost pv = p@;
                let name = ms[i].0.clone();
                let ghost namev = name@;
                v.insert(0, (name, p));
                proof {
                    assert forall|k: int| 0 <= k < v@.len() implies crate::model::entries_view(
                        v@,
                    )[k] == (seq![(namev, pv)] + prev_view)[k] by {
                        if k > 0 {
                            assert(v@[k] == prev_vec[k - 1]);
                        }
                    }
                    assert(crate::model::entries_view(v@) =~= seq![(namev, pv)] + prev_view);
                }
                Some(v)
            },
            None => None,
        },
        None => None,
    }
}

/// Reads a named map of request bodies, from index `i` on.
pub fn body_entries_from_json(ms: &Vec<(String, Json)>, i: usize, fuel: u32) -> (r: Option<
    Vec<(String, ObjectOrReference<RequestBody>)>,
>)
    requires
        i <= ms.len(),
    ensures
        match r {
            Some(v) => body_entries_of_json(members_view(ms@).skip(i as int), fuel as nat) == Some(
                crate::model::entries_view(v@),
            ),
            None => body_entries_of_json(members_view(ms@).skip(i as int), fuel as nat) is None,
        },
    decreases fuel, ms.len() - i, 2nat,
{
    let ghost mv = members_view(ms@);
    proof {
        crate::json::lemma_members_view(ms@);
    }
    if i == ms.len() {
        proof {
            assert(mv.skip(i as int) =~= Seq::<(Seq<char>, JsonV)>::empty());
        }
        let v: Vec<(String, ObjectOrReference<RequestBody>)> = Vec::new();
        proof {
            assert(crate::model::entries_view(v@)
                =~= Seq::<(Seq<char>, RefOrV<RequestBodyV>)>::empty());
        }
        return Some(v);
    }
    if fuel == 0 {
        return None;
    }
    proof {
        assert(mv.skip(i as int)[0] == mv[i as int]);
        assert(mv.skip(i as int).drop_first() =~= mv.skip(i + 1));
    }
    match body_or_ref_from_json(&ms[i].1, fuel - 1) {
        Some(b) => match body_entries_from_json(ms, i + 1, fuel) {
            Some(mut v) => {
                let ghost prev_vec = v@;
                let ghost prev_view = crate::model::entries_view(v@);
                let ghost bv = b@;
                let name = ms[i].0.clone();
                let ghost namev = name@;
                v.insert(0, (name, b));
                proof {
                    assert forall|k: int| 0 <= k < v@.len() implies crate::model::entries_view(
                        v@,
                    )[k] == (seq![(namev, bv)] + prev_view)[k] by {
                        if k > 0 {
                            assert(v@[k] == prev_vec[k - 1]);
                        }
                    }
                    assert(crate::model::entries_view(v@) =~= seq![(namev, bv)] + prev_view);
                }
                Some(v)
            },
            None => None,
        },
        None => None,
    }
}

/// Reads the `components` section.
pub fn components_from_json(j: &Json, fuel: u32) -> (r: Option<Components>)
    ensures
        match r {
            Some(c) => components_of_json(j@, fuel as nat) == Some(c@),
            None => components_of_json(j@, fuel as nat) is None,
        },
    decreases fuel, 0nat, 0nat,
{
    if fuel == 0 {
        return None;
    }
    match j {
        Json::Obj(members) => {
            let schemas: Vec<(String, ObjectOrReference<Schema>)> = match obj_get(
                members,
                "schemas",
            ) {
                Some(Json::Obj(sm)) => {
                    proof {
                        assert(members_view(sm@).skip(0) =~= members_view(sm@));
                    }
                    match schema_entries_from_json(sm, 0, fuel - 1) {
                        Some(v) => v,
                        None => {
                            return None;
                        },
                    }
                },
                Some(_) => {
                    return None;
                },
                None => Vec::new(),
            };
            let responses: Vec<(String, ObjectOrReference<Response>)> = match obj_get(
                members,
                "responses",
            ) {
                Some(Json::Obj(rm)) => {
                    proof {
                        assert(members_view(rm@).skip(0) =~= members_view(rm@));
                    }
                    match response_entries_from_json(rm, 0, fuel - 1) {
                        Some(v) => v,
                        None => {
                            return None;
                        },
                    }
                },
                Some(_) => {
                    return None;
                },
                None => Vec::new(),
            };
            let parameters: Vec<(String, ObjectOrReference<Parameter>)> = match obj_get(
                members,
                "parameters",
            ) {
                Some(Json::Obj(pm)) => {
                    proof {
                        assert(members_view(pm@).skip(0) =~= members_view(pm@));
                    }
                    match parameter_entries_from_json(pm, 0, fuel - 1) {
                        Some(v) => v,
                        None => {
                            return None;
                        },
                    }
                },
                Some(_) => {
                    return None;
                },
                None => Vec::new(),
            };
            let request_bodies: Vec<(String, ObjectOrReference<RequestBody>)> = match obj_get(
                members,
                "requestBodies",
            ) {
                Some(Json::Obj(bm)) => {
                    proof {
                        assert(members_view(bm@).skip(0) =~= members_view(bm@));
                    }
                    match body_entries_from_json(bm, 0, fuel - 1) {
                        Some(v) => v,
                        None => {
                            return None;
                        },
                    }
                },
                Some(_) => {
                    return None;
                },
                None => Vec::new(),
            };
            let c = Components { schemas, responses, parameters, request_bodies };
            proof {
                assert(crate::model::entries_view(
                    Seq::<(String, ObjectOrReference<Schema>)>::empty(),
                ) =~= Seq::<(Seq<char>, SchemaOrRefV)>::empty());
                assert(crate::model::entries_view(
                    Seq::<(String, ObjectOrReference<Response>)>::empty(),
                ) =~= Seq::<(Seq<char>, RefOrV<ResponseV>)>::empty());
                assert(crate::model::entries_view(
                    Seq::<(String, ObjectOrReference<Parameter>)>::empty(),
                ) =~= Seq::<(Seq<char>, RefOrV<ParameterV>)>::empty());
                assert(crate::model::entries_view(
                    Seq::<(String, ObjectOrReference<RequestBody>)>::empty(),
                ) =~= Seq::<(Seq<char>, RefOrV<RequestBodyV>)>::empty());
                assert(components_of_json(j@, fuel as nat) == Some(c@));
            }
            Some(c)
        },
        _ => None,
    }
}

/// Reads the whole document model.
pub fn spec_from_json(j: &Json, fuel: u32) -> (r: Option<Spec>)
    ensures
        match r {
            Some(s) => spec_of_json(j@, fuel as nat) == Some(s@),
            None => spec_of_json(j@, fuel as nat) is None,
        },
    decreases fuel, 0nat, 0nat,
{
    if fuel == 0 {
        return None;
    }
    match j {
        Json::Obj(members) => {
            let paths: Vec<(String, PathItem)> = match obj_get(members, "paths") {
                Some(Json::Obj(pm)) => {
                    proof {
                        assert(members_view(pm@).skip(0) =~= members_view(pm@));
                    }
                    match paths_from_json(pm, 0, fuel - 1) {
                        Some(v) => v,
                        None => {
                            return None;
                        },
                    }
                },
                Some(_) => {
                    return None;
                },
                None => Vec::new(),
            };
            let components: Components = match obj_get(members, "components") {
                Some(cj) => match components_from_json(cj, fuel - 1) {
                    Some(c) => c,
                    None => {
                        return None;
                    },
                },
                None => Components {
                    schemas: Vec::new(),
                    responses: Vec::new(),
                    parameters: Vec::new(),
                    request_bodies: Vec::new(),
                },
            };
            let s = Spec { paths, components };
            proof {
                assert(crate::model::entries_view(Seq::<(String, PathItem)>::empty())
                    =~= Seq::<(Seq<char>, PathItemV)>::empty());
                assert(crate::model::entries_view(
                    Seq::<(String, ObjectOrReference<Schema>)>::empty(),
                ) =~= Seq::<(Seq<char>, SchemaOrRefV)>::empty());
                assert(crate::model::entries_view(
                    Seq::<(String, ObjectOrReference<Response>)>::empty(),
                ) =~= Seq::<(Seq<char>, RefOrV<ResponseV>)>::empty());
                assert(crate::model::entries_view(
                    Seq::<(String, ObjectOrReference<Parameter>)>::empty(),
                ) =~= Seq::<(Seq<char>, RefOrV<ParameterV>)>::empty());
                assert(crate::model::entries_view(
                    Seq::<(String, ObjectOrReference<RequestBody>)>::empty(),
                ) =~= Seq::<(Seq<char>, RefOrV<RequestBodyV>)>::empty());
                assert(spec_of_json(j@, fuel as nat) == Some(s@));
            }
            Some(s)
        },
        _ => None,
    }
}

} // verus!
