//! The types writer: one named declaration per collected schema — a record
//! for an object, a flattened record for `allOf`/`anyOf`, an untagged sum
//! for `oneOf` — and a response envelope sum for every operation with more
//! than one response.

use vstd::prelude::*;

use crate::analyzer::{
    collected_view, op_defs_view, operations_s, type_expr_s, AnalysisResult, CollectedSchema,
    CollectedSchemaV, OperationDef, OperationDefV, ANALYZE_FUEL,
};
use crate::case::snake_of;
use crate::chars::{dec_of, str_eq, u64_to_string};
use crate::model::{ObjectOrReference, SchemaOrRefV, SchemaType};

verus! {

/// A word that cannot stand as a field identifier and must be escaped.
pub open spec fn is_rust_keyword(s: Seq<char>) -> bool {
    ||| s == "as"@
    ||| s == "break"@
    ||| s == "const"@
    ||| s == "continue"@
    ||| s == "crate"@
    ||| s == "dyn"@
    ||| s == "else"@
    ||| s == "enum"@
    ||| s == "extern"@
    ||| s == "false"@
    ||| s == "fn"@
    ||| s == "for"@
    ||| s == "if"@
    ||| s == "impl"@
    ||| s == "in"@
    ||| s == "let"@
    ||| s == "loop"@
    ||| s == "match"@
    ||| s == "mod"@
    ||| s == "move"@
    ||| s == "mut"@
    ||| s == "pub"@
    ||| s == "ref"@
    ||| s == "return"@
    ||| s == "self"@
    ||| s == "static"@
    ||| s == "struct"@
    ||| s == "super"@
    ||| s == "trait"@
    ||| s == "true"@
    ||| s == "type"@
    ||| s == "unsafe"@
    ||| s == "use"@
    ||| s == "where"@
    ||| s == "while"@
    ||| s == "async"@
    ||| s == "await"@
    ||| s == "box"@
    ||| s == "do"@
    ||| s == "final"@
    ||| s == "macro"@
    ||| s == "override"@
    ||| s == "priv"@
    ||| s == "try"@
    ||| s == "typeof"@
    ||| s == "unsized"@
    ||| s == "virtual"@
    ||| s == "yield"@
    ||| s == "abstract"@
    ||| s == "become"@
}

/// Decides [`is_rust_keyword`].
pub fn rust_keyword(s: &str) -> (r: bool)
    ensures
        r == is_rust_keyword(s@),
{
    str_eq(s, "as") || str_eq(s, "break") || str_eq(s, "const") || str_eq(s, "continue")
        || str_eq(s, "crate") || str_eq(s, "dyn") || str_eq(s, "else") || str_eq(s, "enum")
        || str_eq(s, "extern") || str_eq(s, "false") || str_eq(s, "fn") || str_eq(s, "for")
        || str_eq(s, "if") || str_eq(s, "impl") || str_eq(s, "in") || str_eq(s, "let") || str_eq(
        s,
        "loop",
    ) || str_eq(s, "match") || str_eq(s, "mod") || str_eq(s, "move") || str_eq(s, "mut")
        || str_eq(s, "pub") || str_eq(s, "ref") || str_eq(s, "return") || str_eq(s, "self")
        || str_eq(s, "static") || str_eq(s, "struct") || str_eq(s, "super") || str_eq(s, "trait")
        || str_eq(s, "true") || str_eq(s, "type") || str_eq(s, "unsafe") || str_eq(s, "use")
        || str_eq(s, "where") || str_eq(s, "while") || str_eq(s, "async") || str_eq(s, "await")
        || str_eq(s, "box") || str_eq(s, "do") || str_eq(s, "final") || str_eq(s, "macro")
        || str_eq(s, "override") || str_eq(s, "priv") || str_eq(s, "try") || str_eq(s, "typeof")
        || str_eq(s, "unsized") || str_eq(s, "virtual") || str_eq(s, "yield") || str_eq(
        s,
        "abstract",
    ) || str_eq(s, "become")
}

/// A field identifier, escaped when it collides with a keyword.
pub open spec fn escaped_field(s: Seq<char>) -> Seq<char> {
    if is_rust_keyword(s) {
        "r#"@ + s
    } else {
        s
    }
}

fn escape_field(s: String) -> (r: String)
    ensures
        r@ == escaped_field(s@),
{
    if rust_keyword(s.as_str()) {
        let p = "r#".to_owned();
        p.concat(s.as_str())
    } else {
        s
    }
}

/// Whether a name is among the required properties.
pub open spec fn required_contains(required: Seq<Seq<char>>, name: Seq<char>) -> bool
    decreases required.len(),
{
    if required.len() == 0 {
        false
    } else {
        required[0] == name || required_contains(required.drop_first(), name)
    }
}

fn required_has(required: &Vec<String>, name: &str) -> (r: bool)
    ensures
        r == required_contains(crate::model::strings_view(required@), name@),
{
    let ghost rv = crate::model::strings_view(required@);
    proof {
        assert(rv.skip(0) =~= rv);
    }
    let n = required.len();
    let mut i: usize = 0;
    while i < n
        invariant
            n == required.len(),
            i <= n,
            rv == crate::model::strings_view(required@),
            rv.len() == n,
            forall|j: int| 0 <= j < n ==> #[trigger] rv[j] == required@[j]@,
            required_contains(rv, name@) == required_contains(rv.skip(i as int), name@),
        decreases n - i,
    {
        proof {
            let ms = rv.skip(i as int);
            assert(ms[0] == rv[i as int]);
            assert(ms.drop_first() =~= rv.skip(i + 1));
        }
        if str_eq(required[i].as_str(), name) {
            return true;
        }
        i = i + 1;
    }
    proof {
        assert(rv.skip(n as int) =~= Seq::<Seq<char>>::empty());
    }
    false
}

/// The derive attribute carried by every generated type.
pub open spec fn derive_line() -> Seq<char> {
    "#[derive(Debug, Clone, PartialEq, serde::Serialize, serde::Deserialize)]\n"@
}

/// One record field of an object schema.
pub open spec fn field_s(
    schemas: Seq<CollectedSchemaV>,
    loc: Seq<Seq<char>>,
    required: Seq<Seq<char>>,
    pname: Seq<char>,
    pschema: SchemaOrRefV,
    fuel: nat,
) -> Option<Seq<char>> {
    let fname = escaped_field(snake_of(pname));
    match type_expr_s(schemas, loc.push("properties"@).push(pname), pschema, fuel) {
        None => None,
        Some(t) => {
            let ty = if required_contains(required, pname) {
                t
            } else {
                "Option<"@ + t + ">"@
            };
            Some(
                (if fname == pname {
                    Seq::<char>::empty()
                } else {
                    "    #[serde(rename = \""@ + pname + "\")]\n"@
                }) + "    pub "@ + fname + ": "@ + ty + ",\n"@,
            )
        },
    }
}

/// The fields of an object schema, in property order.
pub open spec fn fields_s(
    schemas: Seq<CollectedSchemaV>,
    loc: Seq<Seq<char>>,
    required: Seq<Seq<char>>,
    props: Seq<(Seq<char>, SchemaOrRefV)>,
    fuel: nat,
) -> Option<Seq<char>>
    decreases props.len(),
{
    if props.len() == 0 {
        Some(Seq::empty())
    } else {
        match field_s(schemas, loc, required, props[0].0, props[0].1, fuel) {
            None => None,
            Some(f) => match fields_s(schemas, loc, required, props.drop_first(), fuel) {
                Some(r) => Some(f + r),
                None => None,
            },
        }
    }
}

/// The record declaration of an object schema.
pub open spec fn struct_s(schemas: Seq<CollectedSchemaV>, cs: CollectedSchemaV, fuel: nat) -> Option<
    Seq<char>,
> {
    match fields_s(schemas, cs.location, cs.schema.required, cs.schema.properties, fuel) {
        None => None,
        Some(fields) => Some(
            derive_line() + "pub struct "@ + cs.name + " {\n"@ + fields + "}\n\n"@,
        ),
    }
}

/// The flattened branch fields of an `anyOf` or `allOf` composite.
pub open spec fn branch_fields_s(
    schemas: Seq<CollectedSchemaV>,
    loc: Seq<Seq<char>>,
    kw: Seq<char>,
    optional: bool,
    branches: Seq<SchemaOrRefV>,
    idx: nat,
    fuel: nat,
) -> Option<Seq<char>>
    decreases branches.len(),
{
    if branches.len() == 0 {
        Some(Seq::empty())
    } else {
        match type_expr_s(schemas, loc.push(kw).push(dec_of(idx)), branches[0], fuel) {
            None => None,
            Some(t) => {
                let ty = if optional {
                    "Option<"@ + t + ">"@
                } else {
                    t
                };
                let f = "    #[serde(flatten)]\n    pub v"@ + dec_of(idx) + ": "@ + ty + ",\n"@;
                match branch_fields_s(
                    schemas,
                    loc,
                    kw,
                    optional,
                    branches.drop_first(),
                    (idx + 1) as nat,
                    fuel,
                ) {
                    Some(r) => Some(f + r),
                    None => None,
                }
            },
        }
    }
}

/// The variants of a `oneOf` sum.
pub open spec fn variant_lines_s(
    schemas: Seq<CollectedSchemaV>,
    loc: Seq<Seq<char>>,
    branches: Seq<SchemaOrRefV>,
    idx: nat,
    fuel: nat,
) -> Option<Seq<char>>
    decreases branches.len(),
{
    if branches.len() == 0 {
        Some(Seq::empty())
    } else {
        match type_expr_s(schemas, loc.push("oneOf"@).push(dec_of(idx)), branches[0], fuel) {
            None => None,
            Some(t) => {
                let v = "    V"@ + dec_of(idx) + "("@ + t + "),\n"@;
                match variant_lines_s(
                    schemas,
                    loc,
                    branches.drop_first(),
                    (idx + 1) as nat,
                    fuel,
                ) {
                    Some(r) => Some(v + r),
                    None => None,
                }
            },
        }
    }
}

/// The declaration of a composite schema: a flattened record for `anyOf`
/// and `allOf`, an untagged sum for `oneOf`.
pub open spec fn composite_s(
    schemas: Seq<CollectedSchemaV>,
    cs: CollectedSchemaV,
    fuel: nat,
) -> Option<Seq<char>> {
    if cs.schema.any_of.len() > 0 {
        match branch_fields_s(schemas, cs.location, "anyOf"@, true, cs.schema.any_of, 0, fuel) {
            None => None,
            Some(fields) => Some(
                derive_line() + "pub struct "@ + cs.name + " {\n"@ + fields + "}\n\n"@,
            ),
        }
    } else if cs.schema.all_of.len() > 0 {
        match branch_fields_s(schemas, cs.location, "allOf"@, false, cs.schema.all_of, 0, fuel) {
            None => None,
            Some(fields) => Some(
                derive_line() + "pub struct "@ + cs.name + " {\n"@ + fields + "}\n\n"@,
            ),
        }
    } else {
        match variant_lines_s(schemas, cs.location, cs.schema.one_of, 0, fuel) {
            None => None,
            Some(variants) => Some(
                derive_line() + "#[serde(untagged)]\npub enum "@ + cs.name + " {\n"@ + variants
                    + "}\n\n"@,
            ),
        }
    }
}

/// The declaration of one collected schema. A schema that is neither a
/// composite nor an object declares nothing.
pub open spec fn decl_s(schemas: Seq<CollectedSchemaV>, cs: CollectedSchemaV, fuel: nat) -> Option<
    Seq<char>,
> {
    if cs.schema.any_of.len() > 0 || cs.schema.all_of.len() > 0 || cs.schema.one_of.len() > 0 {
        composite_s(schemas, cs, fuel)
    } else if cs.schema.schema_type == Some(SchemaType::Object) {
        struct_s(schemas, cs, fuel)
    } else {
        Some(Seq::empty())
    }
}

/// The declarations of every collected schema, in discovery order.
pub open spec fn decls_s(
    schemas: Seq<CollectedSchemaV>,
    list: Seq<CollectedSchemaV>,
    fuel: nat,
) -> Option<Seq<char>>
    decreases list.len(),
{
    if list.len() == 0 {
        Some(Seq::empty())
    } else {
        match decl_s(schemas, list[0], fuel) {
            None => None,
            Some(d) => match decls_s(schemas, list.drop_first(), fuel) {
                Some(r) => Some(d + r),
                None => None,
            },
        }
    }
}

/// The response envelope of one operation, empty when one response.
pub open spec fn envelope_s(d: OperationDefV) -> Seq<char> {
    if d.responses.len() > 1 {
        derive_line() + "pub enum "@ + d.response + " {\n"@ + envelope_variants_s(d.responses)
            + "}\n\n"@
    } else {
        Seq::empty()
    }
}

/// The envelope variants, one per status.
pub open spec fn envelope_variants_s(responses: Seq<(Seq<char>, Option<Seq<char>>)>) -> Seq<char>
    decreases responses.len(),
{
    if responses.len() == 0 {
        Seq::empty()
    } else {
        "    S"@ + responses[0].0 + (match responses[0].1 {
            Some(t) => "("@ + t + ")"@,
            None => Seq::<char>::empty(),
        }) + ",\n"@ + envelope_variants_s(responses.drop_first())
    }
}

/// The envelopes of every operation.
pub open spec fn envelopes_s(ops: Seq<OperationDefV>) -> Seq<char>
    decreases ops.len(),
{
    if ops.len() == 0 {
        Seq::empty()
    } else {
        envelope_s(ops[0]) + envelopes_s(ops.drop_first())
    }
}

/// The whole types module: schema declarations, then envelopes.
pub open spec fn types_output_s(
    schemas: Seq<CollectedSchemaV>,
    ops: Seq<OperationDefV>,
    fuel: nat,
) -> Option<Seq<char>> {
    match decls_s(schemas, schemas, fuel) {
        None => None,
        Some(d) => Some(d + envelopes_s(ops)),
    }
}

/// Why the types writer could not emit.
#[derive(Debug)]
pub enum TypesWriterError {
    /// A property, branch or referenced type could not be named, or the
    /// operations could not be derived.
    Naming,
}

/// Emits the named types of an analysis.
pub struct TypesWriter<'a> {
    pub analysis: &'a AnalysisResult,
}

fn write_fields(
    schemas: &Vec<CollectedSchema>,
    loc: &crate::pointer::Pointer,
    required: &Vec<String>,
    props: &Vec<(String, ObjectOrReference<crate::model::Schema>)>,
    i: usize,
) -> (r: Option<String>)
    requires
        i <= props.len(),
    ensures
        match r {
            Some(t) => fields_s(
                collected_view(schemas@),
                loc@,
                crate::model::strings_view(required@),
                crate::model::props_view(props@).skip(i as int),
                ANALYZE_FUEL as nat,
            ) == Some(t@),
            None => fields_s(
                collected_view(schemas@),
                loc@,
                crate::model::strings_view(required@),
                crate::model::props_view(props@).skip(i as int),
                ANALYZE_FUEL as nat,
            ) is None,
        },
    decreases props.len() - i,
{
    let ghost pv = crate::model::props_view(props@);
    proof {
        crate::model::lemma_props_view(props@);
    }
    if i == props.len() {
        proof {
            assert(pv.skip(i as int) =~= Seq::<(Seq<char>, SchemaOrRefV)>::empty());
        }
        return Some(String::new());
    }
    proof {
        assert(pv.skip(i as int)[0] == pv[i as int]);
        assert(pv.skip(i as int).drop_first() =~= pv.skip(i + 1));
    }
    let pname = &props[i].0;
    let fname = escape_field(crate::case::to_snake(pname.as_str()));
    let child = loc.join("properties").join(pname.as_str());
    proof {
        assert(child@ =~= loc@.push("properties"@).push(props@[i as int].0@));
    }
    let t = match crate::analyzer::type_expr(schemas, &child, &props[i].1, ANALYZE_FUEL) {
        Some(t) => t,
        None => {
            return None;
        },
    };
    let ty: String = if required_has(required, pname.as_str()) {
        t
    } else {
        let o = "Option<".to_owned();
        let o = o.concat(t.as_str());
        o.concat(">")
    };
    let head: String = if str_eq(fname.as_str(), pname.as_str()) {
        String::new()
    } else {
        let h = "    #[serde(rename = \"".to_owned();
        let h = h.concat(pname.as_str());
        h.concat("\")]\n")
    };
    let line = head.concat("    pub ").concat(fname.as_str()).concat(": ").concat(
        ty.as_str(),
    ).concat(",\n");
    match write_fields(schemas, loc, required, props, i + 1) {
        Some(rest) => Some(line.concat(rest.as_str())),
        None => None,
    }
}

fn write_branch_fields(
    schemas: &Vec<CollectedSchema>,
    loc: &crate::pointer::Pointer,
    kw: &str,
    optional: bool,
    branches: &Vec<ObjectOrReference<crate::model::Schema>>,
    i: usize,
) -> (r: Option<String>)
    requires
        i <= branches.len(),
    ensures
        match r {
            Some(t) => branch_fields_s(
                collected_view(schemas@),
                loc@,
                kw@,
                optional,
                crate::model::oor_list_view(branches@).skip(i as int),
                i as nat,
                ANALYZE_FUEL as nat,
            ) == Some(t@),
            None => branch_fields_s(
                collected_view(schemas@),
                loc@,
                kw@,
                optional,
                crate::model::oor_list_view(branches@).skip(i as int),
                i as nat,
                ANALYZE_FUEL as nat,
            ) is None,
        },
    decreases branches.len() - i,
{
    let ghost bv = crate::model::oor_list_view(branches@);
    proof {
        crate::model::lemma_oor_list_view(branches@);
    }
    if i == branches.len() {
        proof {
            assert(bv.skip(i as int) =~= Seq::<SchemaOrRefV>::empty());
        }
        return Some(String::new());
    }
    proof {
        assert(bv.skip(i as int)[0] == bv[i as int]);
        assert(bv.skip(i as int).drop_first() =~= bv.skip(i + 1));
    }
    let idx_text = u64_to_string(i as u64);
    let child = loc.join(kw).join(idx_text.as_str());
    proof {
        assert(child@ =~= loc@.push(kw@).push(dec_of(i as nat)));
    }
    let t = match crate::analyzer::type_expr(schemas, &child, &branches[i], ANALYZE_FUEL) {
        Some(t) => t,
        None => {
            return None;
        },
    };
    let ty: String = if optional {
        let o = "Option<".to_owned();
        let o = o.concat(t.as_str());
        o.concat(">")
    } else {
        t
    };
    let line = "    #[serde(flatten)]\n    pub v".to_owned().concat(idx_text.as_str()).concat(
        ": ",
    ).concat(ty.as_str()).concat(",\n");
    match write_branch_fields(schemas, loc, kw, optional, branches, i + 1) {
        Some(rest) => Some(line.concat(rest.as_str())),
        None => None,
    }
}

fn write_variant_lines(
    schemas: &Vec<CollectedSchema>,
    loc: &crate::pointer::Pointer,
    branches: &Vec<ObjectOrReference<crate::model::Schema>>,
    i: usize,
) -> (r: Option<String>)
    requires
        i <= branches.len(),
    ensures
        match r {
            Some(t) => variant_lines_s(
                collected_view(schemas@),
                loc@,
                crate::model::oor_list_view(branches@).skip(i as int),
                i as nat,
                ANALYZE_FUEL as nat,
            ) == Some(t@),
            None => variant_lines_s(
                collected_view(schemas@),
                loc@,
                crate::model::oor_list_view(branches@).skip(i as int),
                i as nat,
                ANALYZE_FUEL as nat,
            ) is None,
        },
    decreases branches.len() - i,
{
    let ghost bv = crate::model::oor_list_view(branches@);
    proof {
        crate::model::lemma_oor_list_view(branches@);
    }
    if i == branches.len() {
        proof {
            assert(bv.skip(i as int) =~= Seq::<SchemaOrRefV>::empty());
        }
        return Some(String::new());
    }
    proof {
        assert(bv.skip(i as int)[0] == bv[i as int]);
        assert(bv.skip(i as int).drop_first() =~= bv.skip(i + 1));
    }
    let idx_text = u64_to_string(i as u64);
    let child = loc.join("oneOf").join(idx_text.as_str());
    proof {
        assert(child@ =~= loc@.push("oneOf"@).push(dec_of(i as nat)));
    }
    let t = match crate::analyzer::type_expr(schemas, &child, &branches[i], ANALYZE_FUEL) {
        Some(t) => t,
        None => {
            return None;
        },
    };
    let line = "    V".to_owned().concat(idx_text.as_str()).concat("(").concat(
        t.as_str(),
    ).concat("),\n");
    match write_variant_lines(schemas, loc, branches, i + 1) {
        Some(rest) => Some(line.concat(rest.as_str())),
        None => None,
    }
}

fn write_decl(schemas: &Vec<CollectedSchema>, cs: &CollectedSchema) -> (r: Option<String>)
    ensures
        match r {
            Some(t) => decl_s(collected_view(schemas@), cs@, ANALYZE_FUEL as nat) == Some(t@),
            None => decl_s(collected_view(schemas@), cs@, ANALYZE_FUEL as nat) is None,
        },
{
    proof {
        crate::model::lemma_oor_list_view(cs.schema.any_of@);
        crate::model::lemma_oor_list_view(cs.schema.all_of@);
        crate::model::lemma_oor_list_view(cs.schema.one_of@);
        assert(crate::model::oor_list_view(cs.schema.any_of@).skip(0)
            =~= crate::model::oor_list_view(cs.schema.any_of@));
        assert(crate::model::oor_list_view(cs.schema.all_of@).skip(0)
            =~= crate::model::oor_list_view(cs.schema.all_of@));
        assert(crate::model::oor_list_view(cs.schema.one_of@).skip(0)
            =~= crate::model::oor_list_view(cs.schema.one_of@));
        assert(crate::model::props_view(cs.schema.properties@).skip(0)
            =~= crate::model::props_view(cs.schema.properties@));
    }
    if cs.schema.is_composite() {
        if cs.schema.any_of.len() > 0 {
            let fields = match write_branch_fields(
                schemas,
                &cs.location,
                "anyOf",
                true,
                &cs.schema.any_of,
                0,
            ) {
                Some(f) => f,
                None => {
                    return None;
                },
            };
            let out = derive_text().concat("pub struct ").concat(cs.name.as_str()).concat(
                " {\n",
            ).concat(fields.as_str()).concat("}\n\n");
            Some(out)
        } else if cs.schema.all_of.len() > 0 {
            let fields = match write_branch_fields(
                schemas,
                &cs.location,
                "allOf",
                false,
                &cs.schema.all_of,
                0,
            ) {
                Some(f) => f,
                None => {
                    return None;
                },
            };
            let out = derive_text().concat("pub struct ").concat(cs.name.as_str()).concat(
                " {\n",
            ).concat(fields.as_str()).concat("}\n\n");
            Some(out)
        } else {
            let variants = match write_variant_lines(schemas, &cs.location, &cs.schema.one_of, 0) {
                Some(v) => v,
                None => {
                    return None;
                },
            };
            let out = derive_text().concat("#[serde(untagged)]\npub enum ").concat(
                cs.name.as_str(),
            ).concat(" {\n").concat(variants.as_str()).concat("}\n\n");
            Some(out)
        }
    } else {
        let is_object = match cs.schema.schema_type {
            Some(SchemaType::Object) => true,
            _ => false,
        };
        if is_object {
            let fields = match write_fields(
                schemas,
                &cs.location,
                &cs.schema.required,
                &cs.schema.properties,
                0,
            ) {
                Some(f) => f,
                None => {
                    return None;
                },
            };
            let out = derive_text().concat("pub struct ").concat(cs.name.as_str()).concat(
                " {\n",
            ).concat(fields.as_str()).concat("}\n\n");
            Some(out)
        } else {
            Some(String::new())
        }
    }
}

/// The derive attribute as text.
fn derive_text() -> (r: String)
    ensures
        r@ == derive_line(),
{
    "#[derive(Debug, Clone, PartialEq, serde::Serialize, serde::Deserialize)]\n".to_owned()
}

fn write_decls(schemas: &Vec<CollectedSchema>, i: usize) -> (r: Option<String>)
    requires
        i <= schemas.len(),
    ensures
        match r {
            Some(t) => decls_s(
                collected_view(schemas@),
                collected_view(schemas@).skip(i as int),
                ANALYZE_FUEL as nat,
            ) == Some(t@),
            None => decls_s(
                collected_view(schemas@),
                collected_view(schemas@).skip(i as int),
                ANALYZE_FUEL as nat,
            ) is None,
        },
    decreases schemas.len() - i,
{
    let ghost sv = collected_view(schemas@);
    if i == schemas.len() {
        proof {
            assert(sv.skip(i as int) =~= Seq::<CollectedSchemaV>::empty());
        }
        return Some(String::new());
    }
    proof {
        assert(sv.skip(i as int)[0] == sv[i as int]);
        assert(sv.skip(i as int).drop_first() =~= sv.skip(i + 1));
    }
    let d = match write_decl(schemas, &schemas[i]) {
        Some(d) => d,
        None => {
            return None;
        },
    };
    match write_decls(schemas, i + 1) {
        Some(rest) => Some(d.concat(rest.as_str())),
        None => None,
    }
}

fn write_envelope_variants(responses: &Vec<(String, Option<String>)>, i: usize) -> (r: String)
    requires
        i <= responses.len(),
    ensures
        r@ == envelope_variants_s(
            crate::analyzer::responses_map_view(responses@).skip(i as int),
        ),
    decreases responses.len() - i,
{
    let ghost rv = crate::analyzer::responses_map_view(responses@);
    if i == responses.len() {
        proof {
            assert(rv.skip(i as int) =~= Seq::<(Seq<char>, Option<Seq<char>>)>::empty());
        }
        return String::new();
    }
    proof {
        assert(rv.skip(i as int)[0] == rv[i as int]);
        assert(rv.skip(i as int).drop_first() =~= rv.skip(i + 1));
    }
    let head = "    S".to_owned().concat(responses[i].0.as_str());
    let head = match &responses[i].1 {
        Some(t) => head.concat("(").concat(t.as_str()).concat(")"),
        None => head,
    };
    let line = head.concat(",\n");
    let rest = write_envelope_variants(responses, i + 1);
    line.concat(rest.as_str())
}

fn write_envelopes(ops: &Vec<OperationDef>, i: usize) -> (r: String)
    requires
        i <= ops.len(),
    ensures
        r@ == envelopes_s(op_defs_view(ops@).skip(i as int)),
    decreases ops.len() - i,
{
    let ghost ov = op_defs_view(ops@);
    if i == ops.len() {
        proof {
            assert(ov.skip(i as int) =~= Seq::<OperationDefV>::empty());
        }
        return String::new();
    }
    proof {
        assert(ov.skip(i as int)[0] == ov[i as int]);
        assert(ov.skip(i as int).drop_first() =~= ov.skip(i + 1));
        assert(crate::analyzer::responses_map_view(ops@[i as int].responses@).skip(0)
            =~= crate::analyzer::responses_map_view(ops@[i as int].responses@));
    }
    let e: String = if ops[i].responses.len() > 1 {
        let variants = write_envelope_variants(&ops[i].responses, 0);
        derive_text().concat("pub enum ").concat(ops[i].response.as_str()).concat(
            " {\n",
        ).concat(variants.as_str()).concat("}\n\n")
    } else {
        String::new()
    };
    let rest = write_envelopes(ops, i + 1);
    e.concat(rest.as_str())
}

impl<'a> TypesWriter<'a> {
    pub fn new(analysis: &'a AnalysisResult) -> (r: TypesWriter<'a>)
        ensures
            r.analysis == analysis,
    {
        TypesWriter { analysis }
    }

    /// The types module: one declaration per collected schema, then the
    /// response envelopes of the operations.
    pub fn write(&self) -> (r: Result<String, TypesWriterError>)
        ensures
            match r {
                Ok(t) => match operations_s(
                    self.analysis.spec@,
                    collected_view(self.analysis.schemas@),
                    self.analysis.spec@.paths,
                    ANALYZE_FUEL as nat,
                ) {
                    Some(ops) => types_output_s(
                        collected_view(self.analysis.schemas@),
                        ops,
                        ANALYZE_FUEL as nat,
                    ) == Some(t@),
                    None => false,
                },
                Err(_) => match operations_s(
                    self.analysis.spec@,
                    collected_view(self.analysis.schemas@),
                    self.analysis.spec@.paths,
                    ANALYZE_FUEL as nat,
                ) {
                    Some(ops) => types_output_s(
                        collected_view(self.analysis.schemas@),
                        ops,
                        ANALYZE_FUEL as nat,
                    ) is None,
                    None => true,
                },
            },
    {
        let ops = match self.analysis.operations() {
            Ok(o) => o,
            Err(_) => {
                return Err(TypesWriterError::Naming);
            },
        };
        proof {
            assert(collected_view(self.analysis.schemas@).skip(0) =~= collected_view(
                self.analysis.schemas@,
            ));
            assert(op_defs_view(ops@).skip(0) =~= op_defs_view(ops@));
        }
        let decls = match write_decls(&self.analysis.schemas, 0) {
            Some(d) => d,
            None => {
                return Err(TypesWriterError::Naming);
            },
        };
        let envs = write_envelopes(&ops, 0);
        Ok(decls.concat(envs.as_str()))
    }
}

} // verus!
