//! The analyzer: walks the document, discovers every schema that must
//! become a named type, and derives one operation definition per declared
//! API operation.
//!
//! Discovery is a depth-first walk in document order, guarded by the set of
//! locations already collected, so each location is recorded at most once.
//! The fuel arguments bound the nesting depth that will be followed; a
//! document deeper than the fuel is rejected rather than mis-analyzed.

use vstd::prelude::*;

use crate::chars::{dec_of, str_eq, str_less, str_lt, u64_to_string};
use crate::refs::FromRef;
use crate::{SegmentOrParameter, SegmentOrParameterV};
use crate::model::{
    ops_view, ComponentsV, MediaTypeV, Method, ObjectOrReference, Operation, OperationV,
    Parameter, ParameterLocation, ParameterV, PathItem, RefOrV, RequestBody, RequestBodyV,
    Response, ResponseV, Schema, SchemaOrRefV, SchemaType, SchemaV, Spec, SpecV,
};
use crate::pointer::Pointer;
use crate::renamer::{operation_name_of, type_name_of, DefaultRenamer};

verus! {

/// A schema that must become a named top-level type: its location in the
/// document, its assigned name, and the schema itself.
#[derive(Debug)]
pub struct CollectedSchema {
    pub location: Pointer,
    pub name: String,
    pub schema: Schema,
}

/// Mathematical form of a collected schema.
pub struct CollectedSchemaV {
    pub location: Seq<Seq<char>>,
    pub name: Seq<char>,
    pub schema: SchemaV,
}

impl View for CollectedSchema {
    type V = CollectedSchemaV;

    open spec fn view(&self) -> CollectedSchemaV {
        CollectedSchemaV { location: self.location@, name: self.name@, schema: self.schema@ }
    }
}

impl CollectedSchema {
    /// The location that identifies this schema.
    pub fn location(&self) -> (r: &Pointer)
        ensures
            r@ == self@.location,
    {
        &self.location
    }

    /// The assigned type name.
    pub fn name(&self) -> (r: &str)
        ensures
            r@ == self@.name,
    {
        self.name.as_str()
    }

    /// The schema at the location.
    pub fn schema(&self) -> (r: &Schema)
        ensures
            r@ == self@.schema,
    {
        &self.schema
    }
}

/// The views of a collected-schema list.
pub open spec fn collected_view(xs: Seq<CollectedSchema>) -> Seq<CollectedSchemaV> {
    Seq::new(xs.len(), |i: int| xs[i]@)
}

/// Whether a location is already among the collected schemas.
pub open spec fn has_loc(acc: Seq<CollectedSchemaV>, ptr: Seq<Seq<char>>) -> bool
    decreases acc.len(),
{
    if acc.len() == 0 {
        false
    } else {
        acc[0].location == ptr || has_loc(acc.drop_first(), ptr)
    }
}

/// Collects the schema at one location and, depth-first, the inline
/// schemas below it. A reference collects nothing; a composite or an
/// object is recorded once, under the renamer's name for the location; an
/// array is not recorded but its inline items are walked.
pub open spec fn collect_at_s(
    spec: SpecV,
    acc: Seq<CollectedSchemaV>,
    ptr: Seq<Seq<char>>,
    s: SchemaOrRefV,
    fuel: nat,
) -> Option<Seq<CollectedSchemaV>>
    decreases fuel, 0nat, 0nat,
{
    if fuel == 0 {
        None
    } else {
        match s {
            SchemaOrRefV::Ref(_) => Some(acc),
            SchemaOrRefV::Inline(sv) => {
                let sv = *sv;
                if sv.any_of.len() > 0 || sv.all_of.len() > 0 || sv.one_of.len() > 0 {
                    if has_loc(acc, ptr) {
                        Some(acc)
                    } else {
                        match type_name_of(spec, ptr) {
                            None => None,
                            Some(nm) => {
                                let acc1 = acc.push(
                                    CollectedSchemaV { location: ptr, name: nm, schema: sv },
                                );
                                match collect_branches_s(
                                    spec,
                                    acc1,
                                    ptr,
                                    "anyOf"@,
                                    sv.any_of,
                                    0,
                                    (fuel - 1) as nat,
                                ) {
                                    None => None,
                                    Some(acc2) => match collect_branches_s(
                                        spec,
                                        acc2,
                                        ptr,
                                        "allOf"@,
                                        sv.all_of,
                                        0,
                                        (fuel - 1) as nat,
                                    ) {
                                        None => None,
                                        Some(acc3) => collect_branches_s(
                                            spec,
                                            acc3,
                                            ptr,
                                            "oneOf"@,
                                            sv.one_of,
                                            0,
                                            (fuel - 1) as nat,
                                        ),
                                    },
                                }
                            },
                        }
                    }
                } else if sv.schema_type == Some(SchemaType::Object) {
                    if has_loc(acc, ptr) {
                        Some(acc)
                    } else {
                        match type_name_of(spec, ptr) {
                            None => None,
                            Some(nm) => collect_props_s(
                                spec,
                                acc.push(
                                    CollectedSchemaV { location: ptr, name: nm, schema: sv },
                                ),
                                ptr,
                                sv.properties,
                                (fuel - 1) as nat,
                            ),
                        }
                    }
                } else if sv.schema_type == Some(SchemaType::Array) {
                    match sv.items {
                        Some(oor) => collect_at_s(
                            spec,
                            acc,
                            ptr.push("items"@),
                            oor,
                            (fuel - 1) as nat,
                        ),
                        None => Some(acc),
                    }
                } else {
                    Some(acc)
                }
            },
        }
    }
}

/// Walks the branches of one composite keyword, numbering them from `idx`.
pub open spec fn collect_branches_s(
    spec: SpecV,
    acc: Seq<CollectedSchemaV>,
    base: Seq<Seq<char>>,
    kw: Seq<char>,
    branches: Seq<SchemaOrRefV>,
    idx: nat,
    fuel: nat,
) -> Option<Seq<CollectedSchemaV>>
    decreases fuel, branches.len(), 1nat,
{
    if branches.len() == 0 {
        Some(acc)
    } else if fuel == 0 {
        None
    } else {
        match collect_at_s(
            spec,
            acc,
            base.push(kw).push(dec_of(idx)),
            branches[0],
            (fuel - 1) as nat,
        ) {
            Some(a2) => collect_branches_s(
                spec,
                a2,
                base,
                kw,
                branches.drop_first(),
                (idx + 1) as nat,
                fuel,
            ),
            None => None,
        }
    }
}

/// Walks the properties of an object schema.
pub open spec fn collect_props_s(
    spec: SpecV,
    acc: Seq<CollectedSchemaV>,
    base: Seq<Seq<char>>,
    props: Seq<(Seq<char>, SchemaOrRefV)>,
    fuel: nat,
) -> Option<Seq<CollectedSchemaV>>
    decreases fuel, props.len(), 1nat,
{
    if props.len() == 0 {
        Some(acc)
    } else if fuel == 0 {
        None
    } else {
        match collect_at_s(
            spec,
            acc,
            base.push("properties"@).push(props[0].0),
            props[0].1,
            (fuel - 1) as nat,
        ) {
            Some(a2) => collect_props_s(spec, a2, base, props.drop_first(), fuel),
            None => None,
        }
    }
}

/// Walks the declared bodies of a `content` map under a base pointer.
pub open spec fn collect_content_s(
    spec: SpecV,
    acc: Seq<CollectedSchemaV>,
    base: Seq<Seq<char>>,
    content: Seq<(Seq<char>, MediaTypeV)>,
    fuel: nat,
) -> Option<Seq<CollectedSchemaV>>
    decreases fuel, content.len(), 1nat,
{
    if content.len() == 0 {
        Some(acc)
    } else if fuel == 0 {
        None
    } else {
        let step = match content[0].1.schema {
            Some(oor) => collect_at_s(
                spec,
                acc,
                base.push("content"@).push(content[0].0).push("schema"@),
                oor,
                (fuel - 1) as nat,
            ),
            None => Some(acc),
        };
        match step {
            Some(a2) => collect_content_s(spec, a2, base, content.drop_first(), fuel),
            None => None,
        }
    }
}

/// Seeds from the named component schemas.
pub open spec fn collect_schema_entries_s(
    spec: SpecV,
    acc: Seq<CollectedSchemaV>,
    entries: Seq<(Seq<char>, SchemaOrRefV)>,
    fuel: nat,
) -> Option<Seq<CollectedSchemaV>>
    decreases fuel, entries.len(), 1nat,
{
    if entries.len() == 0 {
        Some(acc)
    } else if fuel == 0 {
        None
    } else {
        match collect_at_s(
            spec,
            acc,
            seq!["components"@, "schemas"@, entries[0].0],
            entries[0].1,
            (fuel - 1) as nat,
        ) {
            Some(a2) => collect_schema_entries_s(spec, a2, entries.drop_first(), fuel),
            None => None,
        }
    }
}

/// Seeds from the named component responses with inline bodies.
pub open spec fn collect_response_entries_s(
    spec: SpecV,
    acc: Seq<CollectedSchemaV>,
    entries: Seq<(Seq<char>, RefOrV<ResponseV>)>,
    fuel: nat,
) -> Option<Seq<CollectedSchemaV>>
    decreases fuel, entries.len(), 2nat,
{
    if entries.len() == 0 {
        Some(acc)
    } else if fuel == 0 {
        None
    } else {
        let step = match entries[0].1 {
            RefOrV::Inline(r) => collect_content_s(
                spec,
                acc,
                seq!["components"@, "responses"@, entries[0].0],
                r.content,
                (fuel - 1) as nat,
            ),
            RefOrV::Ref(_) => Some(acc),
        };
        match step {
            Some(a2) => collect_response_entries_s(spec, a2, entries.drop_first(), fuel),
            None => None,
        }
    }
}

/// Seeds from the named component parameters with inline schemas.
pub open spec fn collect_parameter_entries_s(
    spec: SpecV,
    acc: Seq<CollectedSchemaV>,
    entries: Seq<(Seq<char>, RefOrV<ParameterV>)>,
    fuel: nat,
) -> Option<Seq<CollectedSchemaV>>
    decreases fuel, entries.len(), 2nat,
{
    if entries.len() == 0 {
        Some(acc)
    } else if fuel == 0 {
        None
    } else {
        let step = match entries[0].1 {
            RefOrV::Inline(p) => match p.schema {
                Some(sv) => collect_at_s(
                    spec,
                    acc,
                    seq!["components"@, "parameters"@, entries[0].0, "schema"@],
                    SchemaOrRefV::Inline(Box::new(sv)),
                    (fuel - 1) as nat,
                ),
                None => Some(acc),
            },
            RefOrV::Ref(_) => Some(acc),
        };
        match step {
            Some(a2) => collect_parameter_entries_s(spec, a2, entries.drop_first(), fuel),
            None => None,
        }
    }
}

/// Seeds from the named component request bodies with inline bodies.
pub open spec fn collect_body_entries_s(
    spec: SpecV,
    acc: Seq<CollectedSchemaV>,
    entries: Seq<(Seq<char>, RefOrV<RequestBodyV>)>,
    fuel: nat,
) -> Option<Seq<CollectedSchemaV>>
    decreases fuel, entries.len(), 2nat,
{
    if entries.len() == 0 {
        Some(acc)
    } else if fuel == 0 {
        None
    } else {
        let step = match entries[0].1 {
            RefOrV::Inline(b) => collect_content_s(
                spec,
                acc,
                seq!["components"@, "requestBodies"@, entries[0].0],
                b.content,
                (fuel - 1) as nat,
            ),
            RefOrV::Ref(_) => Some(acc),
        };
        match step {
            Some(a2) => collect_body_entries_s(spec, a2, entries.drop_first(), fuel),
            None => None,
        }
    }
}

/// Seeds from one operation's declared inline parameter schemas.
pub open spec fn collect_op_params_s(
    spec: SpecV,
    acc: Seq<CollectedSchemaV>,
    base: Seq<Seq<char>>,
    params: Seq<RefOrV<ParameterV>>,
    idx: nat,
    fuel: nat,
) -> Option<Seq<CollectedSchemaV>>
    decreases fuel, params.len(), 2nat,
{
    if params.len() == 0 {
        Some(acc)
    } else if fuel == 0 {
        None
    } else {
        let step = match params[0] {
            RefOrV::Inline(p) => match p.schema {
                Some(sv) => collect_at_s(
                    spec,
                    acc,
                    base.push("parameters"@).push(dec_of(idx)).push("schema"@),
                    SchemaOrRefV::Inline(Box::new(sv)),
                    (fuel - 1) as nat,
                ),
                None => Some(acc),
            },
            RefOrV::Ref(_) => Some(acc),
        };
        match step {
            Some(a2) => collect_op_params_s(
                spec,
                a2,
                base,
                params.drop_first(),
                (idx + 1) as nat,
                fuel,
            ),
            None => None,
        }
    }
}

/// Seeds from one operation's inline response bodies.
pub open spec fn collect_op_responses_s(
    spec: SpecV,
    acc: Seq<CollectedSchemaV>,
    base: Seq<Seq<char>>,
    responses: Seq<(Seq<char>, RefOrV<ResponseV>)>,
    fuel: nat,
) -> Option<Seq<CollectedSchemaV>>
    decreases fuel, responses.len(), 2nat,
{
    if responses.len() == 0 {
        Some(acc)
    } else if fuel == 0 {
        None
    } else {
        let step = match responses[0].1 {
            RefOrV::Inline(r) => collect_content_s(
                spec,
                acc,
                base.push("responses"@).push(responses[0].0),
                r.content,
                (fuel - 1) as nat,
            ),
            RefOrV::Ref(_) => Some(acc),
        };
        match step {
            Some(a2) => collect_op_responses_s(spec, a2, base, responses.drop_first(), fuel),
            None => None,
        }
    }
}

/// Seeds from one operation: parameters, request body, responses.
pub open spec fn collect_op_s(
    spec: SpecV,
    acc: Seq<CollectedSchemaV>,
    base: Seq<Seq<char>>,
    op: OperationV,
    fuel: nat,
) -> Option<Seq<CollectedSchemaV>>
    decreases fuel, 0nat, 3nat,
{
    if fuel == 0 {
        None
    } else {
        match collect_op_params_s(spec, acc, base, op.parameters, 0, (fuel - 1) as nat) {
            None => None,
            Some(acc1) => {
                let step = match op.request_body {
                    Some(RefOrV::Inline(b)) => collect_content_s(
                        spec,
                        acc1,
                        base.push("requestBody"@),
                        b.content,
                        (fuel - 1) as nat,
                    ),
                    _ => Some(acc1),
                };
                match step {
                    None => None,
                    Some(acc2) => collect_op_responses_s(
                        spec,
                        acc2,
                        base,
                        op.responses,
                        (fuel - 1) as nat,
                    ),
                }
            },
        }
    }
}

/// Seeds from the operations under one path pattern.
pub open spec fn collect_ops_s(
    spec: SpecV,
    acc: Seq<CollectedSchemaV>,
    path_tok: Seq<char>,
    ops: Seq<(Method, OperationV)>,
    fuel: nat,
) -> Option<Seq<CollectedSchemaV>>
    decreases fuel, ops.len(), 4nat,
{
    if ops.len() == 0 {
        Some(acc)
    } else if fuel == 0 {
        None
    } else {
        match collect_op_s(
            spec,
            acc,
            seq!["paths"@, path_tok, ops[0].0.spec_token()],
            ops[0].1,
            (fuel - 1) as nat,
        ) {
            Some(a2) => collect_ops_s(spec, a2, path_tok, ops.drop_first(), fuel),
            None => None,
        }
    }
}

/// Seeds from every path pattern.
pub open spec fn collect_paths_s(
    spec: SpecV,
    acc: Seq<CollectedSchemaV>,
    paths: Seq<(Seq<char>, crate::model::PathItemV)>,
    fuel: nat,
) -> Option<Seq<CollectedSchemaV>>
    decreases fuel, paths.len(), 5nat,
{
    if paths.len() == 0 {
        Some(acc)
    } else if fuel == 0 {
        None
    } else {
        match collect_ops_s(spec, acc, paths[0].0, paths[0].1.ops, (fuel - 1) as nat) {
            Some(a2) => collect_paths_s(spec, a2, paths.drop_first(), fuel),
            None => None,
        }
    }
}

/// Every schema that must become a named type, in discovery order.
pub open spec fn collect_spec_s(spec: SpecV, fuel: nat) -> Option<Seq<CollectedSchemaV>>
    decreases fuel, 0nat, 6nat,
{
    if fuel == 0 {
        None
    } else {
        match collect_schema_entries_s(
            spec,
            Seq::empty(),
            spec.components.schemas,
            (fuel - 1) as nat,
        ) {
            None => None,
            Some(a1) => match collect_response_entries_s(
                spec,
                a1,
                spec.components.responses,
                (fuel - 1) as nat,
            ) {
                None => None,
                Some(a2) => match collect_parameter_entries_s(
                    spec,
                    a2,
                    spec.components.parameters,
                    (fuel - 1) as nat,
                ) {
                    None => None,
                    Some(a3) => match collect_body_entries_s(
                        spec,
                        a3,
                        spec.components.request_bodies,
                        (fuel - 1) as nat,
                    ) {
                        None => None,
                        Some(a4) => collect_paths_s(spec, a4, spec.paths, (fuel - 1) as nat),
                    },
                },
            },
        }
    }
}

/// A diagnostic message naming a location.
fn at_ptr(prefix: &str, ptr: &Pointer) -> (r: String)
    ensures
        r@ == prefix@ + crate::pointer::pointer_text(ptr@),
{
    let p = prefix.to_owned();
    p.concat(ptr.to_text().as_str())
}

/// Whether a location is already collected.
fn find_loc(acc: &Vec<CollectedSchema>, ptr: &Pointer) -> (r: bool)
    ensures
        r == has_loc(collected_view(acc@), ptr@),
{
    let ghost av = collected_view(acc@);
    proof {
        assert(av.skip(0) =~= av);
    }
    let n = acc.len();
    let mut i: usize = 0;
    while i < n
        invariant
            n == acc.len(),
            i <= n,
            av == collected_view(acc@),
            av.len() == n,
            forall|j: int| 0 <= j < n ==> #[trigger] av[j] == acc@[j]@,
            has_loc(av, ptr@) == has_loc(av.skip(i as int), ptr@),
        decreases n - i,
    {
        proof {
            let ms = av.skip(i as int);
            assert(ms[0] == av[i as int]);
            assert(ms.drop_first() =~= av.skip(i + 1));
        }
        if acc[i].location.same_as(ptr) {
            return true;
        }
        i = i + 1;
    }
    proof {
        assert(av.skip(n as int) =~= Seq::<CollectedSchemaV>::empty());
    }
    false
}

/// Records the pushed element of a collected list, view-wise.
proof fn lemma_collected_push(prev: Seq<CollectedSchema>, xs: Seq<CollectedSchema>, cv: CollectedSchemaV)
    requires
        xs.len() == prev.len() + 1,
        xs =~= prev.push(xs.last()),
        xs.last()@ == cv,
    ensures
        collected_view(xs) =~= collected_view(prev).push(cv),
{
    assert forall|j: int| 0 <= j < xs.len() implies collected_view(xs)[j] == collected_view(
        prev,
    ).push(cv)[j] by {
        if j < prev.len() {
            assert(xs[j] == prev[j]);
        }
    }
}

fn collect_at(
    spec: &Spec,
    renamer: &DefaultRenamer,
    acc: &mut Vec<CollectedSchema>,
    ptr: &Pointer,
    s: &ObjectOrReference<Schema>,
    fuel: u32,
) -> (r: Result<(), String>)
    ensures
        r is Ok ==> collect_at_s(spec@, collected_view(old(acc)@), ptr@, s@, fuel as nat) == Some(
            collected_view(final(acc)@),
        ),
        r is Err ==> collect_at_s(spec@, collected_view(old(acc)@), ptr@, s@, fuel as nat) is None,
    decreases fuel, 0nat, 0nat,
{
    if fuel == 0 {
        return Err(at_ptr("schema nesting exceeds the analysis bound at ", ptr));
    }
    match s {
        ObjectOrReference::Ref { .. } => Ok(()),
        ObjectOrReference::Object(schema) => {
            proof {
                crate::model::lemma_oor_list_view(schema.any_of@);
                crate::model::lemma_oor_list_view(schema.all_of@);
                crate::model::lemma_oor_list_view(schema.one_of@);
                crate::model::lemma_props_view(schema.properties@);
            }
            if schema.is_composite() {
                if find_loc(acc, ptr) {
                    return Ok(());
                }
                match renamer.type_ident(spec, ptr) {
                    None => Err(at_ptr("no name for the schema at ", ptr)),
                    Some(nm) => {
                        let ghost g0 = collected_view(acc@);
                        let ghost nmv = nm@;
                        let cs = CollectedSchema {
                            location: ptr.duplicate(),
                            name: nm,
                            schema: schema.duplicate(),
                        };
                        let ghost prev = acc@;
                        acc.push(cs);
                        proof {
                            lemma_collected_push(
                                prev,
                                acc@,
                                CollectedSchemaV { location: ptr@, name: nmv, schema: schema@ },
                            );
                        }
                        let ghost g1 = collected_view(acc@);
                        proof {
                            assert(crate::model::oor_list_view(schema.any_of@).skip(0)
                                =~= crate::model::oor_list_view(schema.any_of@));
                            assert(crate::model::oor_list_view(schema.all_of@).skip(0)
                                =~= crate::model::oor_list_view(schema.all_of@));
                            assert(crate::model::oor_list_view(schema.one_of@).skip(0)
                                =~= crate::model::oor_list_view(schema.one_of@));
                        }
                        if let Err(m) = collect_branches(
                            spec,
                            renamer,
                            acc,
                            ptr,
                            "anyOf",
                            &schema.any_of,
                            0,
                            fuel - 1,
                        ) {
                            return Err(m);
                        }
                        let ghost g2 = collected_view(acc@);
                        if let Err(m) = collect_branches(
                            spec,
                            renamer,
                            acc,
                            ptr,
                            "allOf",
                            &schema.all_of,
                            0,
                            fuel - 1,
                        ) {
                            return Err(m);
                        }
                        let ghost g3 = collected_view(acc@);
                        if let Err(m) = collect_branches(
                            spec,
                            renamer,
                            acc,
                            ptr,
                            "oneOf",
                            &schema.one_of,
                            0,
                            fuel - 1,
                        ) {
                            return Err(m);
                        }
                        proof {
                            assert(crate::model::oor_list_view(schema.any_of@).skip(0)
                                =~= crate::model::oor_list_view(schema.any_of@));
                            assert(crate::model::oor_list_view(schema.all_of@).skip(0)
                                =~= crate::model::oor_list_view(schema.all_of@));
                            assert(crate::model::oor_list_view(schema.one_of@).skip(0)
                                =~= crate::model::oor_list_view(schema.one_of@));
                        }
                        Ok(())
                    },
                }
            } else {
                let st = schema.schema_type;
                match st {
                    Some(SchemaType::Object) => {
                        if find_loc(acc, ptr) {
                            return Ok(());
                        }
                        match renamer.type_ident(spec, ptr) {
                            None => Err(at_ptr("no name for the schema at ", ptr)),
                            Some(nm) => {
                                let ghost nmv = nm@;
                                let cs = CollectedSchema {
                                    location: ptr.duplicate(),
                                    name: nm,
                                    schema: schema.duplicate(),
                                };
                                let ghost prev = acc@;
                                acc.push(cs);
                                proof {
                                    lemma_collected_push(
                                        prev,
                                        acc@,
                                        CollectedSchemaV {
                                            location: ptr@,
                                            name: nmv,
                                            schema: schema@,
                                        },
                                    );
                                    assert(crate::model::props_view(schema.properties@).skip(0)
                                        =~= crate::model::props_view(schema.properties@));
                                }
                                collect_props(
                                    spec,
                                    renamer,
                                    acc,
                                    ptr,
                                    &schema.properties,
                                    0,
                                    fuel - 1,
                                )
                            },
                        }
                    },
                    Some(SchemaType::Array) => match &schema.items {
                        Some(b) => {
                            let child = ptr.join("items");
                            proof {
                                assert(child@ =~= ptr@.push("items"@));
                            }
                            collect_at(spec, renamer, acc, &child, &**b, fuel - 1)
                        },
                        None => Ok(()),
                    },
                    _ => Ok(()),
                }
            }
        },
    }
}

fn collect_branches(
    spec: &Spec,
    renamer: &DefaultRenamer,
    acc: &mut Vec<CollectedSchema>,
    base: &Pointer,
    kw: &str,
    branches: &Vec<ObjectOrReference<Schema>>,
    i: usize,
    fuel: u32,
) -> (r: Result<(), String>)
    requires
        i <= branches.len(),
    ensures
        r is Ok ==> collect_branches_s(
            spec@,
            collected_view(old(acc)@),
            base@,
            kw@,
            crate::model::oor_list_view(branches@).skip(i as int),
            i as nat,
            fuel as nat,
        ) == Some(collected_view(final(acc)@)),
        r is Err ==> collect_branches_s(
            spec@,
            collected_view(old(acc)@),
            base@,
            kw@,
            crate::model::oor_list_view(branches@).skip(i as int),
            i as nat,
            fuel as nat,
        ) is None,
    decreases fuel, branches.len() - i, 1nat,
{
    let ghost bv = crate::model::oor_list_view(branches@);
    proof {
        crate::model::lemma_oor_list_view(branches@);
    }
    if i == branches.len() {
        proof {
            assert(bv.skip(i as int) =~= Seq::<SchemaOrRefV>::empty());
        }
        return Ok(());
    }
    if fuel == 0 {
        return Err("schema discovery exceeded the analysis nesting bound".to_owned());
    }
    proof {
        assert(bv.skip(i as int)[0] == bv[i as int]);
        assert(bv.skip(i as int).drop_first() =~= bv.skip(i + 1));
    }
    let idx_text = u64_to_string(i as u64);
    let child = base.join(kw).join(idx_text.as_str());
    proof {
        assert(child@ =~= base@.push(kw@).push(dec_of(i as nat)));
    }
    if let Err(m) = collect_at(spec, renamer, acc, &child, &branches[i], fuel - 1) {
        return Err(m);
    }
    collect_branches(spec, renamer, acc, base, kw, branches, i + 1, fuel)
}

fn collect_props(
    spec: &Spec,
    renamer: &DefaultRenamer,
    acc: &mut Vec<CollectedSchema>,
    base: &Pointer,
    props: &Vec<(String, ObjectOrReference<Schema>)>,
    i: usize,
    fuel: u32,
) -> (r: Result<(), String>)
    requires
        i <= props.len(),
    ensures
        r is Ok ==> collect_props_s(
            spec@,
            collected_view(old(acc)@),
            base@,
            crate::model::props_view(props@).skip(i as int),
            fuel as nat,
        ) == Some(collected_view(final(acc)@)),
        r is Err ==> collect_props_s(
            spec@,
            collected_view(old(acc)@),
            base@,
            crate::model::props_view(props@).skip(i as int),
            fuel as nat,
        ) is None,
    decreases fuel, props.len() - i, 1nat,
{
    let ghost pv = crate::model::props_view(props@);
    proof {
        crate::model::lemma_props_view(props@);
    }
    if i == props.len() {
        proof {
            assert(pv.skip(i as int) =~= Seq::<(Seq<char>, SchemaOrRefV)>::empty());
        }
        return Ok(());
    }
    if fuel == 0 {
        return Err("schema discovery exceeded the analysis nesting bound".to_owned());
    }
    proof {
        assert(pv.skip(i as int)[0] == pv[i as int]);
        assert(pv.skip(i as int).drop_first() =~= pv.skip(i + 1));
    }
    let child = base.join("properties").join(props[i].0.as_str());
    proof {
        assert(child@ =~= base@.push("properties"@).push(props@[i as int].0@));
    }
    if let Err(m) = collect_at(spec, renamer, acc, &child, &props[i].1, fuel - 1) {
        return Err(m);
    }
    collect_props(spec, renamer, acc, base, props, i + 1, fuel)
}

fn collect_content(
    spec: &Spec,
    renamer: &DefaultRenamer,
    acc: &mut Vec<CollectedSchema>,
    base: &Pointer,
    content: &Vec<(String, crate::model::MediaType)>,
    i: usize,
    fuel: u32,
) -> (r: Result<(), String>)
    requires
        i <= content.len(),
    ensures
        r is Ok ==> collect_content_s(
            spec@,
            collected_view(old(acc)@),
            base@,
            crate::model::content_view(content@).skip(i as int),
            fuel as nat,
        ) == Some(collected_view(final(acc)@)),
        r is Err ==> collect_content_s(
            spec@,
            collected_view(old(acc)@),
            base@,
            crate::model::content_view(content@).skip(i as int),
            fuel as nat,
        ) is None,
    decreases fuel, content.len() - i, 1nat,
{
    let ghost cv = crate::model::content_view(content@);
    if i == content.len() {
        proof {
            assert(cv.skip(i as int) =~= Seq::<(Seq<char>, MediaTypeV)>::empty());
        }
        return Ok(());
    }
    if fuel == 0 {
        return Err("schema discovery exceeded the analysis nesting bound".to_owned());
    }
    proof {
        assert(cv.skip(i as int)[0] == cv[i as int]);
        assert(cv.skip(i as int).drop_first() =~= cv.skip(i + 1));
    }
    match &content[i].1.schema {
        Some(oor) => {
            let child = base.join("content").join(content[i].0.as_str()).join("schema");
            proof {
                assert(child@ =~= base@.push("content"@).push(content@[i as int].0@).push(
                    "schema"@,
                ));
            }
            if let Err(m) = collect_at(spec, renamer, acc, &child, oor, fuel - 1) {
                return Err(m);
            }
        },
        None => {},
    }
    collect_content(spec, renamer, acc, base, content, i + 1, fuel)
}

fn collect_schema_entries(
    spec: &Spec,
    renamer: &DefaultRenamer,
    acc: &mut Vec<CollectedSchema>,
    entries: &Vec<(String, ObjectOrReference<Schema>)>,
    i: usize,
    fuel: u32,
) -> (r: Result<(), String>)
    requires
        i <= entries.len(),
    ensures
        r is Ok ==> collect_schema_entries_s(
            spec@,
            collected_view(old(acc)@),
            crate::model::entries_view(entries@).skip(i as int),
            fuel as nat,
        ) == Some(collected_view(final(acc)@)),
        r is Err ==> collect_schema_entries_s(
            spec@,
            collected_view(old(acc)@),
            crate::model::entries_view(entries@).skip(i as int),
            fuel as nat,
        ) is None,
    decreases fuel, entries.len() - i, 1nat,
{
    let ghost ev = crate::model::entries_view(entries@);
    if i == entries.len() {
        proof {
            assert(ev.skip(i as int) =~= Seq::<(Seq<char>, SchemaOrRefV)>::empty());
        }
        return Ok(());
    }
    if fuel == 0 {
        return Err("schema discovery exceeded the analysis nesting bound".to_owned());
    }
    proof {
        assert(ev.skip(i as int)[0] == ev[i as int]);
        assert(ev.skip(i as int).drop_first() =~= ev.skip(i + 1));
    }
    let mut ptr = Pointer::root();
    ptr.push_back("components".to_owned());
    ptr.push_back("schemas".to_owned());
    ptr.push_back(entries[i].0.clone());
    proof {
        assert(ptr@ =~= seq!["components"@, "schemas"@, entries@[i as int].0@]);
    }
    if let Err(m) = collect_at(spec, renamer, acc, &ptr, &entries[i].1, fuel - 1) {
        return Err(m);
    }
    collect_schema_entries(spec, renamer, acc, entries, i + 1, fuel)
}

fn collect_response_entries(
    spec: &Spec,
    renamer: &DefaultRenamer,
    acc: &mut Vec<CollectedSchema>,
    entries: &Vec<(String, ObjectOrReference<Response>)>,
    i: usize,
    fuel: u32,
) -> (r: Result<(), String>)
    requires
        i <= entries.len(),
    ensures
        r is Ok ==> collect_response_entries_s(
            spec@,
            collected_view(old(acc)@),
            crate::model::entries_view(entries@).skip(i as int),
            fuel as nat,
        ) == Some(collected_view(final(acc)@)),
        r is Err ==> collect_response_entries_s(
            spec@,
            collected_view(old(acc)@),
            crate::model::entries_view(entries@).skip(i as int),
            fuel as nat,
        ) is None,
    decreases fuel, entries.len() - i, 2nat,
{
    let ghost ev = crate::model::entries_view(entries@);
    if i == entries.len() {
        proof {
            assert(ev.skip(i as int) =~= Seq::<(Seq<char>, RefOrV<ResponseV>)>::empty());
        }
        return Ok(());
    }
    if fuel == 0 {
        return Err("schema discovery exceeded the analysis nesting bound".to_owned());
    }
    proof {
        assert(ev.skip(i as int)[0] == ev[i as int]);
        assert(ev.skip(i as int).drop_first() =~= ev.skip(i + 1));
    }
    match &entries[i].1 {
        ObjectOrReference::Object(resp) => {
            let mut base = Pointer::root();
            base.push_back("components".to_owned());
            base.push_back("responses".to_owned());
            base.push_back(entries[i].0.clone());
            proof {
                assert(base@ =~= seq!["components"@, "responses"@, entries@[i as int].0@]);
                assert(crate::model::content_view(resp.content@).skip(0)
                    =~= crate::model::content_view(resp.content@));
            }
            if let Err(m) = collect_content(spec, renamer, acc, &base, &resp.content, 0, fuel - 1) {
                return Err(m);
            }
        },
        ObjectOrReference::Ref { .. } => {},
    }
    collect_response_entries(spec, renamer, acc, entries, i + 1, fuel)
}

fn collect_parameter_entries(
    spec: &Spec,
    renamer: &DefaultRenamer,
    acc: &mut Vec<CollectedSchema>,
    entries: &Vec<(String, ObjectOrReference<Parameter>)>,
    i: usize,
    fuel: u32,
) -> (r: Result<(), String>)
    requires
        i <= entries.len(),
    ensures
        r is Ok ==> collect_parameter_entries_s(
            spec@,
            collected_view(old(acc)@),
            crate::model::entries_view(entries@).skip(i as int),
            fuel as nat,
        ) == Some(collected_view(final(acc)@)),
        r is Err ==> collect_parameter_entries_s(
            spec@,
            collected_view(old(acc)@),
            crate::model::entries_view(entries@).skip(i as int),
            fuel as nat,
        ) is None,
    decreases fuel, entries.len() - i, 2nat,
{
    let ghost ev = crate::model::entries_view(entries@);
    if i == entries.len() {
        proof {
            assert(ev.skip(i as int) =~= Seq::<(Seq<char>, RefOrV<ParameterV>)>::empty());
        }
        return Ok(());
    }
    if fuel == 0 {
        return Err("schema discovery exceeded the analysis nesting bound".to_owned());
    }
    proof {
        assert(ev.skip(i as int)[0] == ev[i as int]);
        assert(ev.skip(i as int).drop_first() =~= ev.skip(i + 1));
    }
    match &entries[i].1 {
        ObjectOrReference::Object(p) => match &p.schema {
            Some(sch) => {
                let mut ptr = Pointer::root();
                ptr.push_back("components".to_owned());
                ptr.push_back("parameters".to_owned());
                ptr.push_back(entries[i].0.clone());
                ptr.push_back("schema".to_owned());
                proof {
                    assert(ptr@ =~= seq![
                        "components"@,
                        "parameters"@,
                        entries@[i as int].0@,
                        "schema"@,
                    ]);
                }
                let oor = ObjectOrReference::Object(sch.duplicate());
                proof {
                    assert(oor@ == SchemaOrRefV::Inline(Box::new(sch@)));
                }
                if let Err(m) = collect_at(spec, renamer, acc, &ptr, &oor, fuel - 1) {
                    return Err(m);
                }
            },
            None => {},
        },
        ObjectOrReference::Ref { .. } => {},
    }
    collect_parameter_entries(spec, renamer, acc, entries, i + 1, fuel)
}

fn collect_body_entries(
    spec: &Spec,
    renamer: &DefaultRenamer,
    acc: &mut Vec<CollectedSchema>,
    entries: &Vec<(String, ObjectOrReference<RequestBody>)>,
    i: usize,
    fuel: u32,
) -> (r: Result<(), String>)
    requires
        i <= entries.len(),
    ensures
        r is Ok ==> collect_body_entries_s(
            spec@,
            collected_view(old(acc)@),
            crate::model::entries_view(entries@).skip(i as int),
            fuel as nat,
        ) == Some(collected_view(final(acc)@)),
        r is Err ==> collect_body_entries_s(
            spec@,
            collected_view(old(acc)@),
            crate::model::entries_view(entries@).skip(i as int),
            fuel as nat,
        ) is None,
    decreases fuel, entries.len() - i, 2nat,
{
    let ghost ev = crate::model::entries_view(entries@);
    if i == entries.len() {
        proof {
            assert(ev.skip(i as int) =~= Seq::<(Seq<char>, RefOrV<RequestBodyV>)>::empty());
        }
        return Ok(());
    }
    if fuel == 0 {
        return Err("schema discovery exceeded the analysis nesting bound".to_owned());
    }
    proof {
        assert(ev.skip(i as int)[0] == ev[i as int]);
        assert(ev.skip(i as int).drop_first() =~= ev.skip(i + 1));
    }
    match &entries[i].1 {
        ObjectOrReference::Object(body) => {
            let mut base = Pointer::root();
            base.push_back("components".to_owned());
            base.push_back("requestBodies".to_owned());
            base.push_back(entries[i].0.clone());
            proof {
                assert(base@ =~= seq!["components"@, "requestBodies"@, entries@[i as int].0@]);
                assert(crate::model::content_view(body.content@).skip(0)
                    =~= crate::model::content_view(body.content@));
            }
            if let Err(m) = collect_content(spec, renamer, acc, &base, &body.content, 0, fuel - 1) {
                return Err(m);
            }
        },
        ObjectOrReference::Ref { .. } => {},
    }
    collect_body_entries(spec, renamer, acc, entries, i + 1, fuel)
}

fn collect_op_params(
    spec: &Spec,
    renamer: &DefaultRenamer,
    acc: &mut Vec<CollectedSchema>,
    base: &Pointer,
    params: &Vec<ObjectOrReference<Parameter>>,
    i: usize,
    fuel: u32,
) -> (r: Result<(), String>)
    requires
        i <= params.len(),
    ensures
        r is Ok ==> collect_op_params_s(
            spec@,
            collected_view(old(acc)@),
            base@,
            crate::model::params_view(params@).skip(i as int),
            i as nat,
            fuel as nat,
        ) == Some(collected_view(final(acc)@)),
        r is Err ==> collect_op_params_s(
            spec@,
            collected_view(old(acc)@),
            base@,
            crate::model::params_view(params@).skip(i as int),
            i as nat,
            fuel as nat,
        ) is None,
    decreases fuel, params.len() - i, 2nat,
{
    let ghost pv = crate::model::params_view(params@);
    if i == params.len() {
        proof {
            assert(pv.skip(i as int) =~= Seq::<RefOrV<ParameterV>>::empty());
        }
        return Ok(());
    }
    if fuel == 0 {
        return Err("schema discovery exceeded the analysis nesting bound".to_owned());
    }
    proof {
        assert(pv.skip(i as int)[0] == pv[i as int]);
        assert(pv.skip(i as int).drop_first() =~= pv.skip(i + 1));
    }
    match &params[i] {
        ObjectOrReference::Object(p) => match &p.schema {
            Some(sch) => {
                let idx_text = u64_to_string(i as u64);
                let ptr = base.join("parameters").join(idx_text.as_str()).join("schema");
                proof {
                    assert(ptr@ =~= base@.push("parameters"@).push(dec_of(i as nat)).push(
                        "schema"@,
                    ));
                }
                let oor = ObjectOrReference::Object(sch.duplicate());
                proof {
                    assert(oor@ == SchemaOrRefV::Inline(Box::new(sch@)));
                }
                if let Err(m) = collect_at(spec, renamer, acc, &ptr, &oor, fuel - 1) {
                    return Err(m);
                }
            },
            None => {},
        },
        ObjectOrReference::Ref { .. } => {},
    }
    collect_op_params(spec, renamer, acc, base, params, i + 1, fuel)
}

fn collect_op_responses(
    spec: &Spec,
    renamer: &DefaultRenamer,
    acc: &mut Vec<CollectedSchema>,
    base: &Pointer,
    responses: &Vec<(String, ObjectOrReference<Response>)>,
    i: usize,
    fuel: u32,
) -> (r: Result<(), String>)
    requires
        i <= responses.len(),
    ensures
        r is Ok ==> collect_op_responses_s(
            spec@,
            collected_view(old(acc)@),
            base@,
            crate::model::entries_view(responses@).skip(i as int),
            fuel as nat,
        ) == Some(collected_view(final(acc)@)),
        r is Err ==> collect_op_responses_s(
            spec@,
            collected_view(old(acc)@),
            base@,
            crate::model::entries_view(responses@).skip(i as int),
            fuel as nat,
        ) is None,
    decreases fuel, responses.len() - i, 2nat,
{
    let ghost ev = crate::model::entries_view(responses@);
    if i == responses.len() {
        proof {
            assert(ev.skip(i as int) =~= Seq::<(Seq<char>, RefOrV<ResponseV>)>::empty());
        }
        return Ok(());
    }
    if fuel == 0 {
        return Err("schema discovery exceeded the analysis nesting bound".to_owned());
    }
    proof {
        assert(ev.skip(i as int)[0] == ev[i as int]);
        assert(ev.skip(i as int).drop_first() =~= ev.skip(i + 1));
    }
    match &responses[i].1 {
        ObjectOrReference::Object(resp) => {
            let b2 = base.join("responses").join(responses[i].0.as_str());
            proof {
                assert(b2@ =~= base@.push("responses"@).push(responses@[i as int].0@));
                assert(crate::model::content_view(resp.content@).skip(0)
                    =~= crate::model::content_view(resp.content@));
            }
            if let Err(m) = collect_content(spec, renamer, acc, &b2, &resp.content, 0, fuel - 1) {
                return Err(m);
            }
        },
        ObjectOrReference::Ref { .. } => {},
    }
    collect_op_responses(spec, renamer, acc, base, responses, i + 1, fuel)
}

fn collect_op(
    spec: &Spec,
    renamer: &DefaultRenamer,
    acc: &mut Vec<CollectedSchema>,
    base: &Pointer,
    op: &Operation,
    fuel: u32,
) -> (r: Result<(), String>)
    ensures
        r is Ok ==> collect_op_s(spec@, collected_view(old(acc)@), base@, op@, fuel as nat) == Some(
            collected_view(final(acc)@),
        ),
        r is Err ==> collect_op_s(spec@, collected_view(old(acc)@), base@, op@, fuel as nat) is None,
    decreases fuel, 0nat, 3nat,
{
    if fuel == 0 {
        return Err("schema discovery exceeded the analysis nesting bound".to_owned());
    }
    proof {
        assert(crate::model::params_view(op.parameters@).skip(0) =~= crate::model::params_view(
            op.parameters@,
        ));
    }
    if let Err(m) = collect_op_params(spec, renamer, acc, base, &op.parameters, 0, fuel - 1) {
        return Err(m);
    }
    match &op.request_body {
        Some(ObjectOrReference::Object(body)) => {
            let b2 = base.join("requestBody");
            proof {
                assert(b2@ =~= base@.push("requestBody"@));
                assert(crate::model::content_view(body.content@).skip(0)
                    =~= crate::model::content_view(body.content@));
            }
            if let Err(m) = collect_content(spec, renamer, acc, &b2, &body.content, 0, fuel - 1) {
                return Err(m);
            }
        },
        _ => {},
    }
    proof {
        assert(crate::model::entries_view(op.responses@).skip(0) =~= crate::model::entries_view(
            op.responses@,
        ));
    }
    collect_op_responses(spec, renamer, acc, base, &op.responses, 0, fuel - 1)
}

fn collect_ops(
    spec: &Spec,
    renamer: &DefaultRenamer,
    acc: &mut Vec<CollectedSchema>,
    path_tok: &String,
    ops: &Vec<(Method, Operation)>,
    i: usize,
    fuel: u32,
) -> (r: Result<(), String>)
    requires
        i <= ops.len(),
    ensures
        r is Ok ==> collect_ops_s(
            spec@,
            collected_view(old(acc)@),
            path_tok@,
            ops_view(ops@).skip(i as int),
            fuel as nat,
        ) == Some(collected_view(final(acc)@)),
        r is Err ==> collect_ops_s(
            spec@,
            collected_view(old(acc)@),
            path_tok@,
            ops_view(ops@).skip(i as int),
            fuel as nat,
        ) is None,
    decreases fuel, ops.len() - i, 4nat,
{
    let ghost ov = ops_view(ops@);
    if i == ops.len() {
        proof {
            assert(ov.skip(i as int) =~= Seq::<(Method, OperationV)>::empty());
        }
        return Ok(());
    }
    if fuel == 0 {
        return Err("schema discovery exceeded the analysis nesting bound".to_owned());
    }
    proof {
        assert(ov.skip(i as int)[0] == ov[i as int]);
        assert(ov.skip(i as int).drop_first() =~= ov.skip(i + 1));
    }
    let mut base = Pointer::root();
    base.push_back("paths".to_owned());
    base.push_back(path_tok.clone());
    base.push_back(ops[i].0.token().to_owned());
    proof {
        assert(base@ =~= seq!["paths"@, path_tok@, ops@[i as int].0.spec_token()]);
    }
    if let Err(m) = collect_op(spec, renamer, acc, &base, &ops[i].1, fuel - 1) {
        return Err(m);
    }
    collect_ops(spec, renamer, acc, path_tok, ops, i + 1, fuel)
}

fn collect_paths(
    spec: &Spec,
    renamer: &DefaultRenamer,
    acc: &mut Vec<CollectedSchema>,
    paths: &Vec<(String, PathItem)>,
    i: usize,
    fuel: u32,
) -> (r: Result<(), String>)
    requires
        i <= paths.len(),
    ensures
        r is Ok ==> collect_paths_s(
            spec@,
            collected_view(old(acc)@),
            crate::model::entries_view(paths@).skip(i as int),
            fuel as nat,
        ) == Some(collected_view(final(acc)@)),
        r is Err ==> collect_paths_s(
            spec@,
            collected_view(old(acc)@),
            crate::model::entries_view(paths@).skip(i as int),
            fuel as nat,
        ) is None,
    decreases fuel, paths.len() - i, 5nat,
{
    let ghost ev = crate::model::entries_view(paths@);
    if i == paths.len() {
        proof {
            assert(ev.skip(i as int) =~= Seq::<(Seq<char>, crate::model::PathItemV)>::empty());
        }
        return Ok(());
    }
    if fuel == 0 {
        return Err("schema discovery exceeded the analysis nesting bound".to_owned());
    }
    proof {
        assert(ev.skip(i as int)[0] == ev[i as int]);
        assert(ev.skip(i as int).drop_first() =~= ev.skip(i + 1));
        assert(ops_view(paths@[i as int].1.ops@).skip(0) =~= ops_view(paths@[i as int].1.ops@));
    }
    if let Err(m) = collect_ops(spec, renamer, acc, &paths[i].0, &paths[i].1.ops, 0, fuel - 1) {
        return Err(m);
    }
    collect_paths(spec, renamer, acc, paths, i + 1, fuel)
}

/// Discovers every schema that must become a named type: the component
/// schemas, the inline bodies and parameter schemas of components and
/// operations, and, depth-first, the inline schemas below them.
pub fn collect_types_to_generate(spec: &Spec, fuel: u32) -> (r: Result<
    Vec<CollectedSchema>,
    String,
>)
    ensures
        match r {
            Ok(v) => collect_spec_s(spec@, fuel as nat) == Some(collected_view(v@)),
            Err(_) => collect_spec_s(spec@, fuel as nat) is None,
        },
{
    if fuel == 0 {
        return Err("schema discovery exceeded the analysis nesting bound".to_owned());
    }
    let renamer = DefaultRenamer {};
    let mut acc: Vec<CollectedSchema> = Vec::new();
    proof {
        assert(collected_view(acc@) =~= Seq::<CollectedSchemaV>::empty());
        assert(crate::model::entries_view(spec.components.schemas@).skip(0)
            =~= crate::model::entries_view(spec.components.schemas@));
        assert(crate::model::entries_view(spec.components.responses@).skip(0)
            =~= crate::model::entries_view(spec.components.responses@));
        assert(crate::model::entries_view(spec.components.parameters@).skip(0)
            =~= crate::model::entries_view(spec.components.parameters@));
        assert(crate::model::entries_view(spec.components.request_bodies@).skip(0)
            =~= crate::model::entries_view(spec.components.request_bodies@));
        assert(crate::model::entries_view(spec.paths@).skip(0) =~= crate::model::entries_view(
            spec.paths@,
        ));
    }
    if let Err(m) = collect_schema_entries(
        spec,
        &renamer,
        &mut acc,
        &spec.components.schemas,
        0,
        fuel - 1,
    ) {
        return Err(m);
    }
    if let Err(m) = collect_response_entries(
        spec,
        &renamer,
        &mut acc,
        &spec.components.responses,
        0,
        fuel - 1,
    ) {
        return Err(m);
    }
    if let Err(m) = collect_parameter_entries(
        spec,
        &renamer,
        &mut acc,
        &spec.components.parameters,
        0,
        fuel - 1,
    ) {
        return Err(m);
    }
    if let Err(m) = collect_body_entries(
        spec,
        &renamer,
        &mut acc,
        &spec.components.request_bodies,
        0,
        fuel - 1,
    ) {
        return Err(m);
    }
    if let Err(m) = collect_paths(spec, &renamer, &mut acc, &spec.paths, 0, fuel - 1) {
        return Err(m);
    }
    Ok(acc)
}

/// The views of a path-element list.
pub open spec fn seg_list_view(xs: Seq<SegmentOrParameter>) -> Seq<SegmentOrParameterV> {
    Seq::new(xs.len(), |i: int| xs[i]@)
}

/// One step of path parsing per character. A `/` adds an empty segment; a
/// run of plain characters forms its own element; `{` opens a placeholder
/// right after a separator; `}` closes one. Anything else is malformed.
pub open spec fn parse_path_rec(s: Seq<char>, memo: Seq<SegmentOrParameterV>) -> Option<
    Seq<SegmentOrParameterV>,
>
    decreases s.len(),
{
    if s.len() == 0 {
        Some(memo)
    } else {
        let c = s[0];
        let rest = s.drop_first();
        if c == '/' {
            parse_path_rec(rest, memo.push(SegmentOrParameterV::Segment(Seq::empty())))
        } else if c == '{' {
            if memo.len() > 0 && memo.last() == SegmentOrParameterV::Segment(
                Seq::<char>::empty(),
            ) {
                parse_path_rec(rest, memo.push(SegmentOrParameterV::Parameter(Seq::empty())))
            } else {
                None
            }
        } else if c == '}' {
            if memo.len() > 0 && memo.last() is Parameter {
                parse_path_rec(rest, memo)
            } else {
                None
            }
        } else {
            if memo.len() == 0 {
                parse_path_rec(rest, seq![SegmentOrParameterV::Segment(seq![c])])
            } else {
                match memo.last() {
                    SegmentOrParameterV::Segment(t) => {
                        if t.len() == 0 {
                            parse_path_rec(rest, memo.push(SegmentOrParameterV::Segment(seq![c])))
                        } else {
                            parse_path_rec(
                                rest,
                                memo.update(
                                    memo.len() - 1,
                                    SegmentOrParameterV::Segment(t.push(c)),
                                ),
                            )
                        }
                    },
                    SegmentOrParameterV::Parameter(t) => parse_path_rec(
                        rest,
                        memo.update(memo.len() - 1, SegmentOrParameterV::Parameter(t.push(c))),
                    ),
                }
            }
        }
    }
}

/// The parsed elements of a path pattern, or `None` on unbalanced braces.
pub open spec fn parse_path_s(s: Seq<char>) -> Option<Seq<SegmentOrParameterV>> {
    parse_path_rec(s, Seq::empty())
}

/// A typed operation parameter: its binding name, where it is carried, and
/// the text of its type.
#[derive(Debug)]
pub struct ParameterDef {
    pub name: String,
    pub location: ParameterLocation,
    pub schema_type: String,
}

/// Mathematical form of a parameter definition.
pub struct ParameterDefV {
    pub name: Seq<char>,
    pub location: ParameterLocation,
    pub schema_type: Seq<char>,
}

impl View for ParameterDef {
    type V = ParameterDefV;

    open spec fn view(&self) -> ParameterDefV {
        ParameterDefV {
            name: self.name@,
            location: self.location,
            schema_type: self.schema_type@,
        }
    }
}

impl ParameterDef {
    /// The binding name.
    pub fn name(&self) -> (r: &str)
        ensures
            r@ == self@.name,
    {
        self.name.as_str()
    }

    /// The type text used in generated code.
    pub fn schema_type(&self) -> (r: &str)
        ensures
            r@ == self@.schema_type,
    {
        self.schema_type.as_str()
    }

    /// Where the parameter is carried.
    pub fn location(&self) -> (r: ParameterLocation)
        ensures
            r == self@.location,
    {
        self.location
    }
}

/// The first collected schema at a location.
pub open spec fn find_schema_s(schemas: Seq<CollectedSchemaV>, ptr: Seq<Seq<char>>) -> Option<
    CollectedSchemaV,
>
    decreases schemas.len(),
{
    if schemas.len() == 0 {
        None
    } else if schemas[0].location == ptr {
        Some(schemas[0])
    } else {
        find_schema_s(schemas.drop_first(), ptr)
    }
}

/// `Option<…>` around a type text when the schema is marked nullable.
pub open spec fn wrap_nullable(sv: SchemaV, t: Seq<char>) -> Seq<char> {
    if sv.nullable == Some(true) {
        "Option<"@ + t + ">"@
    } else {
        t
    }
}

/// The type expression for the schema at a pointer: the collected name
/// when the location is collected; the referenced collected name for a
/// `$ref`; the built-in spellings for scalars; `Vec<…>` around the items
/// type for arrays; opaque JSON otherwise. An object that was never
/// collected, or a `$ref` to an uncollected location, has no name.
pub open spec fn type_expr_s(
    schemas: Seq<CollectedSchemaV>,
    ptr: Seq<Seq<char>>,
    s: SchemaOrRefV,
    fuel: nat,
) -> Option<Seq<char>>
    decreases fuel,
{
    if fuel == 0 {
        None
    } else {
        match find_schema_s(schemas, ptr) {
            Some(cs) => Some(cs.name),
            None => match s {
                SchemaOrRefV::Ref(rp) => match find_schema_s(schemas, rp) {
                    Some(cs) => Some(cs.name),
                    None => None,
                },
                SchemaOrRefV::Inline(sv) => {
                    let sv = *sv;
                    if sv.schema_type == Some(SchemaType::Object) {
                        None
                    } else if sv.schema_type == Some(SchemaType::Array) {
                        match sv.items {
                            Some(oor) => match type_expr_s(
                                schemas,
                                ptr.push("items"@),
                                oor,
                                (fuel - 1) as nat,
                            ) {
                                Some(t) => Some(wrap_nullable(sv, "Vec<"@ + t + ">"@)),
                                None => None,
                            },
                            None => Some(wrap_nullable(sv, "Vec<serde_json::Value>"@)),
                        }
                    } else if sv.schema_type == Some(SchemaType::Integer) {
                        Some(
                            wrap_nullable(
                                sv,
                                if sv.format == Some("int32"@) {
                                    "i32"@
                                } else {
                                    "i64"@
                                },
                            ),
                        )
                    } else if sv.schema_type == Some(SchemaType::Number) {
                        Some(
                            wrap_nullable(
                                sv,
                                if sv.format == Some("float"@) {
                                    "f32"@
                                } else {
                                    "f64"@
                                },
                            ),
                        )
                    } else if sv.schema_type == Some(SchemaType::Str) {
                        Some(wrap_nullable(sv, "String"@))
                    } else if sv.schema_type == Some(SchemaType::Boolean) {
                        Some(wrap_nullable(sv, "bool"@))
                    } else {
                        Some("serde_json::Value"@)
                    }
                },
            },
        }
    }
}

/// One API operation as the writers consume it.
#[derive(Debug)]
pub struct OperationDef {
    pub name: String,
    pub method: Method,
    pub path: Vec<SegmentOrParameter>,
    pub parameters: Vec<((String, ParameterLocation), ParameterDef)>,
    pub request_body: Option<String>,
    pub response: String,
    pub responses: Vec<(String, Option<String>)>,
}

/// Mathematical form of an operation definition.
pub struct OperationDefV {
    pub name: Seq<char>,
    pub method: Method,
    pub path: Seq<SegmentOrParameterV>,
    pub parameters: Seq<((Seq<char>, ParameterLocation), ParameterDefV)>,
    pub request_body: Option<Seq<char>>,
    pub response: Seq<char>,
    pub responses: Seq<(Seq<char>, Option<Seq<char>>)>,
}

/// The views of a parameter map.
pub open spec fn params_map_view(xs: Seq<((String, ParameterLocation), ParameterDef)>) -> Seq<
    ((Seq<char>, ParameterLocation), ParameterDefV),
> {
    Seq::new(xs.len(), |i: int| ((xs[i].0.0@, xs[i].0.1), xs[i].1@))
}

/// The views of a status-to-body map.
pub open spec fn responses_map_view(xs: Seq<(String, Option<String>)>) -> Seq<
    (Seq<char>, Option<Seq<char>>),
> {
    Seq::new(
        xs.len(),
        |i: int|
            (
                xs[i].0@,
                match xs[i].1 {
                    Some(t) => Some(t@),
                    None => None,
                },
            ),
    )
}

impl View for OperationDef {
    type V = OperationDefV;

    open spec fn view(&self) -> OperationDefV {
        OperationDefV {
            name: self.name@,
            method: self.method,
            path: seg_list_view(self.path@),
            parameters: params_map_view(self.parameters@),
            request_body: match self.request_body {
                Some(ref t) => Some(t@),
                None => None,
            },
            response: self.response@,
            responses: responses_map_view(self.responses@),
        }
    }
}

/// The first parameter definition under a key.
pub open spec fn pmap_lookup(
    params: Seq<((Seq<char>, ParameterLocation), ParameterDefV)>,
    name: Seq<char>,
    location: ParameterLocation,
) -> Option<ParameterDefV>
    decreases params.len(),
{
    if params.len() == 0 {
        None
    } else if params[0].0.0 == name && params[0].0.1 == location {
        Some(params[0].1)
    } else {
        pmap_lookup(params.drop_first(), name, location)
    }
}

/// Every placeholder of a parsed path has a declared path parameter.
pub open spec fn placeholders_covered(
    path: Seq<SegmentOrParameterV>,
    params: Seq<((Seq<char>, ParameterLocation), ParameterDefV)>,
) -> bool {
    forall|i: int|
        0 <= i < path.len() ==> match #[trigger] path[i] {
            SegmentOrParameterV::Parameter(p) => pmap_lookup(
                params,
                p,
                ParameterLocation::Path,
            ) is Some,
            SegmentOrParameterV::Segment(_) => true,
        }
}

/// The parameter map of one operation, keyed by name and location, in
/// declaration order. A reference parameter must resolve and must name a
/// collected schema location; an inline parameter must carry a schema.
pub open spec fn build_params_s(
    spec: SpecV,
    schemas: Seq<CollectedSchemaV>,
    base: Seq<Seq<char>>,
    params: Seq<RefOrV<ParameterV>>,
    idx: nat,
    fuel: nat,
) -> Option<Seq<((Seq<char>, ParameterLocation), ParameterDefV)>>
    decreases params.len(),
{
    if params.len() == 0 {
        Some(Seq::empty())
    } else {
        let entry = match params[0] {
            RefOrV::Inline(p) => match p.schema {
                Some(sv) => match type_expr_s(
                    schemas,
                    base.push("parameters"@).push(dec_of(idx)).push("schema"@),
                    SchemaOrRefV::Inline(Box::new(sv)),
                    fuel,
                ) {
                    Some(t) => Some(
                        (
                            (p.name, p.location),
                            ParameterDefV {
                                name: crate::case::snake_of(p.name),
                                location: p.location,
                                schema_type: t,
                            },
                        ),
                    ),
                    None => None,
                },
                None => None,
            },
            RefOrV::Ref(rp) => match crate::model::Parameter::spec_from_ref(spec, rp) {
                Some(p) => {
                    if p.schema is None {
                        None
                    } else {
                        match find_schema_s(schemas, rp) {
                            Some(cs) => Some(
                                (
                                    (p.name, p.location),
                                    ParameterDefV {
                                        name: crate::case::snake_of(p.name),
                                        location: p.location,
                                        schema_type: cs.name,
                                    },
                                ),
                            ),
                            None => None,
                        }
                    }
                },
                None => None,
            },
        };
        match entry {
            None => None,
            Some(e) => match build_params_s(
                spec,
                schemas,
                base,
                params.drop_first(),
                (idx + 1) as nat,
                fuel,
            ) {
                Some(r) => Some(seq![e] + r),
                None => None,
            },
        }
    }
}

/// The request-body type name of an operation: `None` for no body, the
/// type of the `application/json` schema for an inline body, the
/// referenced collected name for a `$ref` body.
pub open spec fn body_name_s(
    schemas: Seq<CollectedSchemaV>,
    base: Seq<Seq<char>>,
    body: Option<RefOrV<RequestBodyV>>,
    fuel: nat,
) -> Option<Option<Seq<char>>> {
    match body {
        None => Some(None),
        Some(RefOrV::Inline(b)) => match crate::model::vassoc(b.content, "application/json"@) {
            Some(mt) => match mt.schema {
                Some(oor) => match type_expr_s(
                    schemas,
                    base.push("requestBody"@).push("content"@).push("application/json"@).push(
                        "schema"@,
                    ),
                    oor,
                    fuel,
                ) {
                    Some(t) => Some(Some(t)),
                    None => None,
                },
                None => Some(None),
            },
            None => Some(None),
        },
        Some(RefOrV::Ref(rp)) => match find_schema_s(schemas, rp) {
            Some(cs) => Some(Some(cs.name)),
            None => None,
        },
    }
}

/// The body type name, if any, of one declared response.
pub open spec fn resp_body_name_s(
    schemas: Seq<CollectedSchemaV>,
    base: Seq<Seq<char>>,
    status: Seq<char>,
    r: RefOrV<ResponseV>,
    fuel: nat,
) -> Option<Option<Seq<char>>> {
    match r {
        RefOrV::Inline(resp) => match crate::model::vassoc(resp.content, "application/json"@) {
            Some(mt) => match mt.schema {
                Some(oor) => match type_expr_s(
                    schemas,
                    base.push("responses"@).push(status).push("content"@).push(
                        "application/json"@,
                    ).push("schema"@),
                    oor,
                    fuel,
                ) {
                    Some(t) => Some(Some(t)),
                    None => None,
                },
                None => Some(None),
            },
            None => Some(None),
        },
        RefOrV::Ref(rp) => Some(
            match find_schema_s(schemas, rp) {
                Some(cs) => Some(cs.name),
                None => None,
            },
        ),
    }
}

/// The declared responses in document order, status by status.
pub open spec fn build_responses_s(
    schemas: Seq<CollectedSchemaV>,
    base: Seq<Seq<char>>,
    entries: Seq<(Seq<char>, RefOrV<ResponseV>)>,
    fuel: nat,
) -> Option<Seq<(Seq<char>, Option<Seq<char>>)>>
    decreases entries.len(),
{
    if entries.len() == 0 {
        Some(Seq::empty())
    } else {
        match resp_body_name_s(schemas, base, entries[0].0, entries[0].1, fuel) {
            None => None,
            Some(b) => match build_responses_s(schemas, base, entries.drop_first(), fuel) {
                Some(r) => Some(seq![(entries[0].0, b)] + r),
                None => None,
            },
        }
    }
}

/// The position where a status key belongs in a sorted response list.
pub open spec fn resp_lower_bound(
    list: Seq<(Seq<char>, Option<Seq<char>>)>,
    k: Seq<char>,
) -> int
    decreases list.len(),
{
    if list.len() == 0 {
        0
    } else if str_lt(list[0].0, k) {
        1 + resp_lower_bound(list.drop_first(), k)
    } else {
        0
    }
}

/// Sorted insertion of one response, replacing an equal status key.
pub open spec fn insert_resp_sorted(
    list: Seq<(Seq<char>, Option<Seq<char>>)>,
    k: Seq<char>,
    v: Option<Seq<char>>,
) -> Seq<(Seq<char>, Option<Seq<char>>)> {
    let j = resp_lower_bound(list, k);
    if j < list.len() && list[j].0 == k {
        list.update(j, (k, v))
    } else {
        list.insert(j, (k, v))
    }
}

/// The response list sorted by status text, later entries inserted last.
pub open spec fn sort_responses_s(entries: Seq<(Seq<char>, Option<Seq<char>>)>) -> Seq<
    (Seq<char>, Option<Seq<char>>),
>
    decreases entries.len(),
{
    if entries.len() == 0 {
        Seq::empty()
    } else {
        insert_resp_sorted(sort_responses_s(entries.drop_last()), entries.last().0, entries.last().1)
    }
}

/// One operation definition: name, parsed path, parameter map, request
/// body, sorted responses, and the response envelope name — the single
/// response's body type or `()` when there is exactly one response, the
/// synthesized `{Name}Response` otherwise.
pub open spec fn build_operation_s(
    spec: SpecV,
    schemas: Seq<CollectedSchemaV>,
    path_tok: Seq<char>,
    m: Method,
    op: OperationV,
    fuel: nat,
) -> Option<OperationDefV> {
    let base = seq!["paths"@, path_tok, m.spec_token()];
    match operation_name_of(spec, base) {
        None => None,
        Some(opname) => match parse_path_s(path_tok) {
            None => None,
            Some(pathels) => match build_params_s(spec, schemas, base, op.parameters, 0, fuel) {
                None => None,
                Some(params) => {
                    if !placeholders_covered(pathels, params) {
                        None
                    } else {
                        match body_name_s(schemas, base, op.request_body, fuel) {
                            None => None,
                            Some(body) => match build_responses_s(
                                schemas,
                                base,
                                op.responses,
                                fuel,
                            ) {
                                None => None,
                                Some(rlist) => {
                                    let sorted = sort_responses_s(rlist);
                                    let response = if sorted.len() == 1 {
                                        match sorted[0].1 {
                                            Some(t) => t,
                                            None => "()"@,
                                        }
                                    } else {
                                        opname + "Response"@
                                    };
                                    Some(
                                        OperationDefV {
                                            name: crate::case::snake_of(opname),
                                            method: m,
                                            path: pathels,
                                            parameters: params,
                                            request_body: body,
                                            response,
                                            responses: sorted,
                                        },
                                    )
                                },
                            },
                        }
                    }
                },
            },
        },
    }
}

/// The operation definitions under one path pattern, in document order.
pub open spec fn build_ops_s(
    spec: SpecV,
    schemas: Seq<CollectedSchemaV>,
    path_tok: Seq<char>,
    ops: Seq<(Method, OperationV)>,
    fuel: nat,
) -> Option<Seq<OperationDefV>>
    decreases ops.len(),
{
    if ops.len() == 0 {
        Some(Seq::empty())
    } else {
        match build_operation_s(spec, schemas, path_tok, ops[0].0, ops[0].1, fuel) {
            None => None,
            Some(d) => match build_ops_s(spec, schemas, path_tok, ops.drop_first(), fuel) {
                Some(r) => Some(seq![d] + r),
                None => None,
            },
        }
    }
}

/// All operation definitions, mirroring the document's path order.
pub open spec fn operations_s(
    spec: SpecV,
    schemas: Seq<CollectedSchemaV>,
    paths: Seq<(Seq<char>, crate::model::PathItemV)>,
    fuel: nat,
) -> Option<Seq<OperationDefV>>
    decreases paths.len(),
{
    if paths.len() == 0 {
        Some(Seq::empty())
    } else {
        match build_ops_s(spec, schemas, paths[0].0, paths[0].1.ops, fuel) {
            None => None,
            Some(d) => match operations_s(spec, schemas, paths.drop_first(), fuel) {
                Some(r) => Some(d + r),
                None => None,
            },
        }
    }
}

/// Finds the collected schema at a location.
pub fn find_schema_in<'a>(schemas: &'a Vec<CollectedSchema>, ptr: &Pointer) -> (r: Option<
    &'a CollectedSchema,
>)
    ensures
        match r {
            Some(cs) => find_schema_s(collected_view(schemas@), ptr@) == Some(cs@),
            None => find_schema_s(collected_view(schemas@), ptr@) is None,
        },
{
    let ghost sv = collected_view(schemas@);
    proof {
        assert(sv.skip(0) =~= sv);
    }
    let n = schemas.len();
    let mut i: usize = 0;
    while i < n
        invariant
            n == schemas.len(),
            i <= n,
            sv == collected_view(schemas@),
            sv.len() == n,
            forall|j: int| 0 <= j < n ==> #[trigger] sv[j] == schemas@[j]@,
            find_schema_s(sv, ptr@) == find_schema_s(sv.skip(i as int), ptr@),
        decreases n - i,
    {
        proof {
            let ms = sv.skip(i as int);
            assert(ms[0] == sv[i as int]);
            assert(ms.drop_first() =~= sv.skip(i + 1));
        }
        if schemas[i].location.same_as(ptr) {
            return Some(&schemas[i]);
        }
        i = i + 1;
    }
    proof {
        assert(sv.skip(n as int) =~= Seq::<CollectedSchemaV>::empty());
    }
    None
}

/// Wraps a type text in `Option<…>` when the schema is nullable.
fn wrap_nullable_exec(schema: &Schema, t: String) -> (r: String)
    ensures
        r@ == wrap_nullable(schema@, t@),
{
    let nullable = match schema.nullable {
        Some(b) => b,
        None => false,
    };
    if nullable {
        let o = "Option<".to_owned();
        let o = o.concat(t.as_str());
        o.concat(">")
    } else {
        t
    }
}

/// The type expression for the schema at a pointer.
pub fn type_expr(
    schemas: &Vec<CollectedSchema>,
    ptr: &Pointer,
    s: &ObjectOrReference<Schema>,
    fuel: u32,
) -> (r: Option<String>)
    ensures
        match r {
            Some(t) => type_expr_s(collected_view(schemas@), ptr@, s@, fuel as nat) == Some(t@),
            None => type_expr_s(collected_view(schemas@), ptr@, s@, fuel as nat) is None,
        },
    decreases fuel,
{
    if fuel == 0 {
        return None;
    }
    match find_schema_in(schemas, ptr) {
        Some(cs) => Some(cs.name.clone()),
        None => match s {
            ObjectOrReference::Ref { ref_path } => match find_schema_in(schemas, ref_path) {
                Some(cs) => Some(cs.name.clone()),
                None => None,
            },
            ObjectOrReference::Object(schema) => {
                let st = schema.schema_type;
                match st {
                    Some(SchemaType::Object) => None,
                    Some(SchemaType::Array) => match &schema.items {
                        Some(b) => {
                            let child = ptr.join("items");
                            proof {
                                assert(child@ =~= ptr@.push("items"@));
                            }
                            match type_expr(schemas, &child, &**b, fuel - 1) {
                                Some(t) => {
                                    let v = "Vec<".to_owned();
                                    let v = v.concat(t.as_str());
                                    let v = v.concat(">");
                                    Some(wrap_nullable_exec(schema, v))
                                },
                                None => None,
                            }
                        },
                        None => Some(
                            wrap_nullable_exec(schema, "Vec<serde_json::Value>".to_owned()),
                        ),
                    },
                    Some(SchemaType::Integer) => {
                        let is32 = match &schema.format {
                            Some(f) => str_eq(f.as_str(), "int32"),
                            None => false,
                        };
                        let t = if is32 {
                            "i32".to_owned()
                        } else {
                            "i64".to_owned()
                        };
                        Some(wrap_nullable_exec(schema, t))
                    },
                    Some(SchemaType::Number) => {
                        let isf = match &schema.format {
                            Some(f) => str_eq(f.as_str(), "float"),
                            None => false,
                        };
                        let t = if isf {
                            "f32".to_owned()
                        } else {
                            "f64".to_owned()
                        };
                        Some(wrap_nullable_exec(schema, t))
                    },
                    Some(SchemaType::Str) => Some(
                        wrap_nullable_exec(schema, "String".to_owned()),
                    ),
                    Some(SchemaType::Boolean) => Some(
                        wrap_nullable_exec(schema, "bool".to_owned()),
                    ),
                    _ => Some("serde_json::Value".to_owned()),
                }
            },
        },
    }
}

/// A one-character string.
fn char_string(c: char) -> (r: String)
    ensures
        r@ == seq![c],
{
    let mut s = String::new();
    crate::chars::push_char(&mut s, c);
    s
}

/// The pushed element of a path list, view-wise.
proof fn lemma_seg_push(prev: Seq<SegmentOrParameter>, xs: Seq<SegmentOrParameter>, v: SegmentOrParameterV)
    requires
        xs.len() == prev.len() + 1,
        xs =~= prev.push(xs.last()),
        xs.last()@ == v,
    ensures
        seg_list_view(xs) =~= seg_list_view(prev).push(v),
{
    assert forall|j: int| 0 <= j < xs.len() implies seg_list_view(xs)[j] == seg_list_view(
        prev,
    ).push(v)[j] by {
        if j < prev.len() {
            assert(xs[j] == prev[j]);
        }
    }
}

/// Parses a path pattern into segments and placeholders.
pub fn parse_path(s: &str) -> (r: Option<Vec<SegmentOrParameter>>)
    ensures
        match r {
            Some(v) => parse_path_s(s@) == Some(seg_list_view(v@)),
            None => parse_path_s(s@) is None,
        },
{
    let memo: Vec<SegmentOrParameter> = Vec::new();
    proof {
        assert(s@.skip(0) =~= s@);
        assert(seg_list_view(memo@) =~= Seq::<SegmentOrParameterV>::empty());
    }
    parse_path_go(s, 0, memo)
}

fn parse_path_go(s: &str, i: usize, memo: Vec<SegmentOrParameter>) -> (r: Option<
    Vec<SegmentOrParameter>,
>)
    requires
        i <= s@.len(),
    ensures
        match r {
            Some(v) => parse_path_rec(s@.skip(i as int), seg_list_view(memo@)) == Some(
                seg_list_view(v@),
            ),
            None => parse_path_rec(s@.skip(i as int), seg_list_view(memo@)) is None,
        },
    decreases s@.len() - i,
{
    let mut memo = memo;
    let ghost memo0 = seg_list_view(memo@);
    let n = s.unicode_len();
    if i == n {
        proof {
            assert(s@.skip(i as int) =~= Seq::<char>::empty());
        }
        return Some(memo);
    }
    proof {
        assert(s@.skip(i as int)[0] == s@[i as int]);
        assert(s@.skip(i as int).drop_first() =~= s@.skip(i + 1));
    }
    let c = s.get_char(i);
    if c == '/' {
        let ghost prev = memo@;
        memo.push(SegmentOrParameter::Segment(String::new()));
        proof {
            lemma_seg_push(prev, memo@, SegmentOrParameterV::Segment(Seq::empty()));
        }
        parse_path_go(s, i + 1, memo)
    } else if c == '{' {
        if memo.len() == 0 {
            return None;
        }
        let li = memo.len() - 1;
        let ok = match &memo[li] {
            SegmentOrParameter::Segment(t) => t.as_str().is_empty(),
            SegmentOrParameter::Parameter(_) => false,
        };
        proof {
            assert(seg_list_view(memo@).last() == memo@[li as int]@);
        }
        if !ok {
            return None;
        }
        proof {
            assert(memo@[li as int]@ matches SegmentOrParameterV::Segment(t) && t.len() == 0);
            assert(memo@[li as int]@->Segment_0 =~= Seq::<char>::empty());
            assert(seg_list_view(memo@).last() == SegmentOrParameterV::Segment(
                Seq::<char>::empty(),
            ));
        }
        let ghost prev = memo@;
        memo.push(SegmentOrParameter::Parameter(String::new()));
        proof {
            lemma_seg_push(prev, memo@, SegmentOrParameterV::Parameter(Seq::empty()));
        }
        parse_path_go(s, i + 1, memo)
    } else if c == '}' {
        if memo.len() == 0 {
            return None;
        }
        let li = memo.len() - 1;
        let ok = match &memo[li] {
            SegmentOrParameter::Parameter(_) => true,
            SegmentOrParameter::Segment(_) => false,
        };
        proof {
            assert(seg_list_view(memo@).last() == memo@[li as int]@);
        }
        if !ok {
            return None;
        }
        proof {
            assert(seg_list_view(memo@).last() is Parameter);
        }
        parse_path_go(s, i + 1, memo)
    } else {
        if memo.len() == 0 {
            let ghost prev = memo@;
            memo.push(SegmentOrParameter::Segment(char_string(c)));
            proof {
                lemma_seg_push(prev, memo@, SegmentOrParameterV::Segment(seq![s@[i as int]]));
                assert(seg_list_view(prev) =~= Seq::<SegmentOrParameterV>::empty());
                assert(seg_list_view(memo@) =~= seq![
                    SegmentOrParameterV::Segment(seq![s@[i as int]]),
                ]);
            }
            return parse_path_go(s, i + 1, memo);
        }
        let li = memo.len() - 1;
        proof {
            assert(seg_list_view(memo@).last() == memo@[li as int]@);
        }
        let fresh = match &memo[li] {
            SegmentOrParameter::Segment(t) => t.as_str().is_empty(),
            SegmentOrParameter::Parameter(_) => false,
        };
        if fresh {
            proof {
                assert(memo@[li as int]@ matches SegmentOrParameterV::Segment(t) && t.len()
                    == 0);
                assert(seg_list_view(memo@).last() matches SegmentOrParameterV::Segment(t)
                    && t.len() == 0);
            }
            let ghost prev = memo@;
            memo.push(SegmentOrParameter::Segment(char_string(c)));
            proof {
                lemma_seg_push(prev, memo@, SegmentOrParameterV::Segment(seq![s@[i as int]]));
            }
            parse_path_go(s, i + 1, memo)
        } else {
            let ghost prev = memo@;
            let ghost prevview = seg_list_view(memo@);
            match memo.pop() {
                Some(SegmentOrParameter::Segment(mut t)) => {
                    crate::chars::push_char(&mut t, c);
                    memo.push(SegmentOrParameter::Segment(t));
                },
                Some(SegmentOrParameter::Parameter(mut t)) => {
                    crate::chars::push_char(&mut t, c);
                    memo.push(SegmentOrParameter::Parameter(t));
                },
                None => {
                    return None;
                },
            }
            proof {
                let lv = prevview.last();
                let newv = match lv {
                    SegmentOrParameterV::Segment(t) => SegmentOrParameterV::Segment(
                        t.push(s@[i as int]),
                    ),
                    SegmentOrParameterV::Parameter(t) => SegmentOrParameterV::Parameter(
                        t.push(s@[i as int]),
                    ),
                };
                match lv {
                    SegmentOrParameterV::Segment(t) => {
                        assert(t.push(s@[i as int]) =~= t + seq![s@[i as int]]);
                    },
                    SegmentOrParameterV::Parameter(t) => {
                        assert(t.push(s@[i as int]) =~= t + seq![s@[i as int]]);
                    },
                }
                assert(lv == prev[li as int]@);
                assert(memo@ =~= prev.update(li as int, memo@[li as int]));
                assert(memo@[li as int]@ == newv);
                assert forall|j: int| 0 <= j < memo@.len() implies seg_list_view(memo@)[j]
                    == prevview.update(li as int, newv)[j] by {
                    if j != li {
                        assert(memo@[j] == prev[j]);
                    }
                }
                assert(seg_list_view(memo@) =~= prevview.update(li as int, newv));
            }
            parse_path_go(s, i + 1, memo)
        }
    }
}

/// A scan that passed every smaller status found the lower bound.
proof fn lemma_resp_lower_bound(list: Seq<(Seq<char>, Option<Seq<char>>)>, k: Seq<char>, j: int)
    requires
        0 <= j <= list.len(),
        forall|l: int| 0 <= l < j ==> str_lt(#[trigger] list[l].0, k),
        j < list.len() ==> !str_lt(list[j].0, k),
    ensures
        resp_lower_bound(list, k) == j,
    decreases list.len(),
{
    if list.len() > 0 && str_lt(list[0].0, k) {
        let t = list.drop_first();
        assert forall|l: int| 0 <= l < j - 1 implies str_lt(#[trigger] t[l].0, k) by {
            assert(t[l] == list[l + 1]);
        }
        if j - 1 < t.len() {
            assert(t[j - 1] == list[j]);
        }
        lemma_resp_lower_bound(t, k, j - 1);
    }
}

/// Inserts one response into a status-sorted list, replacing an equal key.
fn insert_resp(list: &mut Vec<(String, Option<String>)>, k: String, v: Option<String>)
    ensures
        responses_map_view(final(list)@) =~= insert_resp_sorted(
            responses_map_view(old(list)@),
            k@,
            match v {
                Some(ref t) => Some(t@),
                None => None,
            },
        ),
{
    let ghost lv = responses_map_view(list@);
    let ghost kv = k@;
    let ghost vv: Option<Seq<char>> = match v {
        Some(ref t) => Some(t@),
        None => None,
    };
    let n = list.len();
    let mut j: usize = 0;
    while j < n && str_less(list[j].0.as_str(), k.as_str())
        invariant
            n == list.len(),
            j <= n,
            lv == responses_map_view(list@),
            kv == k@,
            lv.len() == n,
            forall|l: int| 0 <= l < n ==> #[trigger] lv[l].0 == list@[l].0@,
            forall|l: int| 0 <= l < j ==> str_lt(#[trigger] lv[l].0, kv),
        decreases n - j,
    {
        j = j + 1;
    }
    proof {
        lemma_resp_lower_bound(lv, kv, j as int);
    }
    if j < n && str_eq(list[j].0.as_str(), k.as_str()) {
        let ghost prev = list@;
        list[j] = (k, v);
        proof {
            assert forall|l: int| 0 <= l < list@.len() implies responses_map_view(list@)[l]
                == lv.update(j as int, (kv, vv))[l] by {
                if l != j {
                    assert(list@[l] == prev[l]);
                }
            }
            assert(responses_map_view(list@) =~= lv.update(j as int, (kv, vv)));
        }
    } else {
        let ghost prev = list@;
        list.insert(j, (k, v));
        proof {
            assert forall|l: int| 0 <= l < list@.len() implies responses_map_view(list@)[l]
                == lv.insert(j as int, (kv, vv))[l] by {
                if l < j {
                    assert(list@[l] == prev[l]);
                } else if l > j {
                    assert(list@[l] == prev[l - 1]);
                }
            }
            assert(responses_map_view(list@) =~= lv.insert(j as int, (kv, vv)));
        }
    }
}

/// Looks up a parameter definition by name and location.
pub fn pmap_get<'a>(
    params: &'a Vec<((String, ParameterLocation), ParameterDef)>,
    name: &str,
    location: ParameterLocation,
) -> (r: Option<&'a ParameterDef>)
    ensures
        match r {
            Some(d) => pmap_lookup(params_map_view(params@), name@, location) == Some(d@),
            None => pmap_lookup(params_map_view(params@), name@, location) is None,
        },
{
    let ghost pv = params_map_view(params@);
    proof {
        assert(pv.skip(0) =~= pv);
    }
    let n = params.len();
    let mut i: usize = 0;
    while i < n
        invariant
            n == params.len(),
            i <= n,
            pv == params_map_view(params@),
            pv.len() == n,
            forall|j: int|
                0 <= j < n ==> #[trigger] pv[j] == (
                (params@[j].0.0@, params@[j].0.1),
                params@[j].1@,
                ),
            pmap_lookup(pv, name@, location) == pmap_lookup(pv.skip(i as int), name@, location),
        decreases n - i,
    {
        proof {
            let ms = pv.skip(i as int);
            assert(ms[0] == pv[i as int]);
            assert(ms.drop_first() =~= pv.skip(i + 1));
        }
        if str_eq(params[i].0.0.as_str(), name) && params[i].0.1 == location {
            return Some(&params[i].1);
        }
        i = i + 1;
    }
    proof {
        assert(pv.skip(n as int) =~= Seq::<((Seq<char>, ParameterLocation), ParameterDefV)>::empty());
    }
    None
}

/// Checks that every path placeholder has a declared path parameter.
fn check_placeholders(
    path: &Vec<SegmentOrParameter>,
    params: &Vec<((String, ParameterLocation), ParameterDef)>,
) -> (r: bool)
    ensures
        r == placeholders_covered(seg_list_view(path@), params_map_view(params@)),
{
    let ghost pathv = seg_list_view(path@);
    let n = path.len();
    let mut i: usize = 0;
    while i < n
        invariant
            n == path.len(),
            i <= n,
            pathv == seg_list_view(path@),
            pathv.len() == n,
            forall|j: int| 0 <= j < n ==> #[trigger] pathv[j] == path@[j]@,
            forall|j: int|
                0 <= j < i ==> match #[trigger] pathv[j] {
                    SegmentOrParameterV::Parameter(p) => pmap_lookup(
                        params_map_view(params@),
                        p,
                        ParameterLocation::Path,
                    ) is Some,
                    SegmentOrParameterV::Segment(_) => true,
                },
        decreases n - i,
    {
        match &path[i] {
            SegmentOrParameter::Parameter(p) => {
                if pmap_get(params, p.as_str(), ParameterLocation::Path).is_none() {
                    proof {
                        assert(pathv[i as int] matches SegmentOrParameterV::Parameter(q)
                            && pmap_lookup(
                            params_map_view(params@),
                            q,
                            ParameterLocation::Path,
                        ) is None);
                    }
                    return false;
                }
            },
            SegmentOrParameter::Segment(_) => {},
        }
        i = i + 1;
    }
    true
}

/// Builds the parameter map of one operation, from index `i` on.
fn build_params(
    spec: &Spec,
    schemas: &Vec<CollectedSchema>,
    base: &Pointer,
    params: &Vec<ObjectOrReference<Parameter>>,
    i: usize,
    fuel: u32,
) -> (r: Result<Vec<((String, ParameterLocation), ParameterDef)>, String>)
    requires
        i <= params.len(),
    ensures
        match r {
            Ok(v) => build_params_s(
                spec@,
                collected_view(schemas@),
                base@,
                crate::model::params_view(params@).skip(i as int),
                i as nat,
                fuel as nat,
            ) == Some(params_map_view(v@)),
            Err(_) => build_params_s(
                spec@,
                collected_view(schemas@),
                base@,
                crate::model::params_view(params@).skip(i as int),
                i as nat,
                fuel as nat,
            ) is None,
        },
    decreases params.len() - i,
{
    let ghost pv = crate::model::params_view(params@);
    if i == params.len() {
        proof {
            assert(pv.skip(i as int) =~= Seq::<RefOrV<ParameterV>>::empty());
        }
        let v: Vec<((String, ParameterLocation), ParameterDef)> = Vec::new();
        proof {
            assert(params_map_view(v@) =~= Seq::<
                ((Seq<char>, ParameterLocation), ParameterDefV),
            >::empty());
        }
        return Ok(v);
    }
    proof {
        assert(pv.skip(i as int)[0] == pv[i as int]);
        assert(pv.skip(i as int).drop_first() =~= pv.skip(i + 1));
    }
    let entry: ((String, ParameterLocation), ParameterDef) = match &params[i] {
        ObjectOrReference::Object(p) => match &p.schema {
            Some(sch) => {
                let idx_text = u64_to_string(i as u64);
                let ptr = base.join("parameters").join(idx_text.as_str()).join("schema");
                proof {
                    assert(ptr@ =~= base@.push("parameters"@).push(dec_of(i as nat)).push(
                        "schema"@,
                    ));
                }
                let oor = ObjectOrReference::Object(sch.duplicate());
                proof {
                    assert(oor@ == SchemaOrRefV::Inline(Box::new(sch@)));
                }
                match type_expr(schemas, &ptr, &oor, fuel) {
                    Some(t) => (
                        (p.name.clone(), p.location),
                        ParameterDef {
                            name: crate::case::to_snake(p.name.as_str()),
                            location: p.location,
                            schema_type: t,
                        },
                    ),
                    None => {
                        return Err(at_ptr("no type name for the parameter schema at ", &ptr));
                    },
                }
            },
            None => {
                return Err(at_ptr("declared parameter without a schema under ", base));
            },
        },
        ObjectOrReference::Ref { ref_path } => match Parameter::from_ref(spec, ref_path) {
            Ok(p) => {
                let has_schema = match &p.schema {
                    Some(_) => true,
                    None => false,
                };
                if !has_schema {
                    return Err(at_ptr("referenced parameter without a schema: ", ref_path));
                }
                match find_schema_in(schemas, ref_path) {
                    Some(cs) => (
                        (p.name.clone(), p.location),
                        ParameterDef {
                            name: crate::case::to_snake(p.name.as_str()),
                            location: p.location,
                            schema_type: cs.name.clone(),
                        },
                    ),
                    None => {
                        return Err(
                            at_ptr("reference names no collected schema: ", ref_path),
                        );
                    },
                }
            },
            Err(_) => {
                return Err(at_ptr("unresolvable parameter reference ", ref_path));
            },
        },
    };
    match build_params(spec, schemas, base, params, i + 1, fuel) {
        Ok(mut v) => {
            let ghost prev_vec = v@;
            let ghost prev_view = params_map_view(v@);
            let ghost ev = ((entry.0.0@, entry.0.1), entry.1@);
            v.insert(0, entry);
            proof {
                assert forall|k: int| 0 <= k < v@.len() implies params_map_view(v@)[k] == (seq![
                    ev,
                ] + prev_view)[k] by {
                    if k > 0 {
                        assert(v@[k] == prev_vec[k - 1]);
                    }
                }
                assert(params_map_view(v@) =~= seq![ev] + prev_view);
            }
            Ok(v)
        },
        Err(m) => Err(m),
    }
}

/// The body type name of a response or request body content map.
fn json_body_type(
    schemas: &Vec<CollectedSchema>,
    ptr: &Pointer,
    content: &Vec<(String, crate::model::MediaType)>,
    fuel: u32,
) -> (r: Result<Option<String>, String>)
    ensures
        match r {
            Ok(Some(t)) => (match crate::model::vassoc(
                crate::model::content_view(content@),
                "application/json"@,
            ) {
                Some(mt) => match mt.schema {
                    Some(oor) => type_expr_s(collected_view(schemas@), ptr@, oor, fuel as nat)
                        == Some(t@),
                    None => false,
                },
                None => false,
            }),
            Ok(None) => (match crate::model::vassoc(
                crate::model::content_view(content@),
                "application/json"@,
            ) {
                Some(mt) => mt.schema is None,
                None => true,
            }),
            Err(_) => (match crate::model::vassoc(
                crate::model::content_view(content@),
                "application/json"@,
            ) {
                Some(mt) => match mt.schema {
                    Some(oor) => type_expr_s(
                        collected_view(schemas@),
                        ptr@,
                        oor,
                        fuel as nat,
                    ) is None,
                    None => false,
                },
                None => false,
            }),
        },
{
    proof {
        assert(crate::model::content_view(content@) =~= crate::model::entries_view(content@));
        crate::model::lemma_vassoc_entries(content@, "application/json"@);
        crate::model::lemma_assoc_find(content@, "application/json"@);
    }
    match crate::model::assoc_index(content, "application/json") {
        Some(ci) => match &content[ci].1.schema {
            Some(oor) => match type_expr(schemas, ptr, oor, fuel) {
                Some(t) => Ok(Some(t)),
                None => Err(at_ptr("no type name for the body schema at ", ptr)),
            },
            None => Ok(None),
        },
        None => Ok(None),
    }
}

/// Builds the response list of one operation in document order.
fn build_responses(
    schemas: &Vec<CollectedSchema>,
    base: &Pointer,
    responses: &Vec<(String, ObjectOrReference<Response>)>,
    i: usize,
    fuel: u32,
) -> (r: Result<Vec<(String, Option<String>)>, String>)
    requires
        i <= responses.len(),
    ensures
        match r {
            Ok(v) => build_responses_s(
                collected_view(schemas@),
                base@,
                crate::model::entries_view(responses@).skip(i as int),
                fuel as nat,
            ) == Some(responses_map_view(v@)),
            Err(_) => build_responses_s(
                collected_view(schemas@),
                base@,
                crate::model::entries_view(responses@).skip(i as int),
                fuel as nat,
            ) is None,
        },
    decreases responses.len() - i,
{
    let ghost rv = crate::model::entries_view(responses@);
    if i == responses.len() {
        proof {
            assert(rv.skip(i as int) =~= Seq::<(Seq<char>, RefOrV<ResponseV>)>::empty());
        }
        let v: Vec<(String, Option<String>)> = Vec::new();
        proof {
            assert(responses_map_view(v@) =~= Seq::<(Seq<char>, Option<Seq<char>>)>::empty());
        }
        return Ok(v);
    }
    proof {
        assert(rv.skip(i as int)[0] == rv[i as int]);
        assert(rv.skip(i as int).drop_first() =~= rv.skip(i + 1));
    }
    let body: Option<String> = match &responses[i].1 {
        ObjectOrReference::Object(resp) => {
            let ptr = base.join("responses").join(responses[i].0.as_str()).join("content").join(
                "application/json",
            ).join("schema");
            proof {
                assert(ptr@ =~= base@.push("responses"@).push(responses@[i as int].0@).push(
                    "content"@,
                ).push("application/json"@).push("schema"@));
            }
            match json_body_type(schemas, &ptr, &resp.content, fuel) {
                Ok(b) => b,
                Err(m) => {
                    return Err(m);
                },
            }
        },
        ObjectOrReference::Ref { ref_path } => match find_schema_in(schemas, ref_path) {
            Some(cs) => Some(cs.name.clone()),
            None => None,
        },
    };
    match build_responses(schemas, base, responses, i + 1, fuel) {
        Ok(mut v) => {
            let ghost prev_vec = v@;
            let ghost prev_view = responses_map_view(v@);
            let ghost bv: Option<Seq<char>> = match body {
                Some(ref t) => Some(t@),
                None => None,
            };
            let name = responses[i].0.clone();
            let ghost namev = name@;
            v.insert(0, (name, body));
            proof {
                assert forall|k: int| 0 <= k < v@.len() implies responses_map_view(v@)[k] == (
                seq![(namev, bv)] + prev_view)[k] by {
                    if k > 0 {
                        assert(v@[k] == prev_vec[k - 1]);
                    }
                }
                assert(responses_map_view(v@) =~= seq![(namev, bv)] + prev_view);
            }
            Ok(v)
        },
        Err(m) => Err(m),
    }
}

/// Sorts a response list by status text.
fn sort_responses(list: Vec<(String, Option<String>)>) -> (r: Vec<(String, Option<String>)>)
    ensures
        responses_map_view(r@) =~= sort_responses_s(responses_map_view(list@)),
{
    let ghost lv = responses_map_view(list@);
    let mut acc: Vec<(String, Option<String>)> = Vec::new();
    proof {
        assert(responses_map_view(acc@) =~= Seq::<(Seq<char>, Option<Seq<char>>)>::empty());
        assert(lv.take(0) =~= Seq::<(Seq<char>, Option<Seq<char>>)>::empty());
        assert(sort_responses_s(lv.take(0)) == Seq::<(Seq<char>, Option<Seq<char>>)>::empty());
    }
    let n = list.len();
    let mut i: usize = 0;
    while i < n
        invariant
            n == list.len(),
            i <= n,
            lv == responses_map_view(list@),
            lv.len() == n,
            forall|j: int|
                0 <= j < n ==> #[trigger] lv[j] == (
                list@[j].0@,
                match list@[j].1 {
                    Some(t) => Some(t@),
                    None => None,
                },
                ),
            responses_map_view(acc@) =~= sort_responses_s(lv.take(i as int)),
        decreases n - i,
    {
        let k = list[i].0.clone();
        let v: Option<String> = match &list[i].1 {
            Some(t) => Some(t.clone()),
            None => None,
        };
        insert_resp(&mut acc, k, v);
        proof {
            assert(lv.take(i + 1).drop_last() =~= lv.take(i as int));
            assert(lv.take(i + 1).last() == lv[i as int]);
        }
        i = i + 1;
    }
    proof {
        assert(lv.take(n as int) =~= lv);
    }
    acc
}

/// Builds one operation definition.
fn build_operation(
    spec: &Spec,
    schemas: &Vec<CollectedSchema>,
    path_tok: &String,
    m: Method,
    op: &Operation,
    fuel: u32,
) -> (r: Result<OperationDef, String>)
    ensures
        match r {
            Ok(d) => build_operation_s(
                spec@,
                collected_view(schemas@),
                path_tok@,
                m,
                op@,
                fuel as nat,
            ) == Some(d@),
            Err(_) => build_operation_s(
                spec@,
                collected_view(schemas@),
                path_tok@,
                m,
                op@,
                fuel as nat,
            ) is None,
        },
{
    let mut base = Pointer::root();
    base.push_back("paths".to_owned());
    base.push_back(path_tok.clone());
    base.push_back(m.token().to_owned());
    proof {
        assert(base@ =~= seq!["paths"@, path_tok@, m.spec_token()]);
    }
    let renamer = DefaultRenamer {};
    let opname = match renamer.operation_name(spec, &base) {
        Some(n) => n,
        None => {
            return Err(at_ptr("cannot name the operation at ", &base));
        },
    };
    let pathels = match parse_path(path_tok.as_str()) {
        Some(p) => p,
        None => {
            let msg = "malformed path pattern: ".to_owned();
            return Err(msg.concat(path_tok.as_str()));
        },
    };
    proof {
        assert(crate::model::params_view(op.parameters@).skip(0) =~= crate::model::params_view(
            op.parameters@,
        ));
    }
    let params = match build_params(spec, schemas, &base, &op.parameters, 0, fuel) {
        Ok(p) => p,
        Err(m) => {
            return Err(m);
        },
    };
    if !check_placeholders(&pathels, &params) {
        let msg = "path placeholder without a declared path parameter in ".to_owned();
        return Err(msg.concat(path_tok.as_str()));
    }
    let body: Option<String> = match &op.request_body {
        None => None,
        Some(ObjectOrReference::Object(b)) => {
            let ptr = base.join("requestBody").join("content").join("application/json").join(
                "schema",
            );
            proof {
                assert(ptr@ =~= base@.push("requestBody"@).push("content"@).push(
                    "application/json"@,
                ).push("schema"@));
            }
            match json_body_type(schemas, &ptr, &b.content, fuel) {
                Ok(bn) => bn,
                Err(m) => {
                    return Err(m);
                },
            }
        },
        Some(ObjectOrReference::Ref { ref_path }) => match find_schema_in(schemas, ref_path) {
            Some(cs) => Some(cs.name.clone()),
            None => {
                return Err(at_ptr("unresolvable request body reference ", ref_path));
            },
        },
    };
    proof {
        assert(crate::model::entries_view(op.responses@).skip(0) =~= crate::model::entries_view(
            op.responses@,
        ));
    }
    let rlist = match build_responses(schemas, &base, &op.responses, 0, fuel) {
        Ok(v) => v,
        Err(m) => {
            return Err(m);
        },
    };
    let sorted = sort_responses(rlist);
    let name = crate::case::to_snake(opname.as_str());
    let response: String = if sorted.len() == 1 {
        match &sorted[0].1 {
            Some(t) => t.clone(),
            None => "()".to_owned(),
        }
    } else {
        opname.concat("Response")
    };
    let d = OperationDef {
        name,
        method: m,
        path: pathels,
        parameters: params,
        request_body: body,
        response,
        responses: sorted,
    };
    proof {
        assert(build_operation_s(spec@, collected_view(schemas@), path_tok@, m, op@, fuel as nat)
            == Some(d@));
    }
    Ok(d)
}

/// The views of an operation-definition list.
pub open spec fn op_defs_view(xs: Seq<OperationDef>) -> Seq<OperationDefV> {
    Seq::new(xs.len(), |i: int| xs[i]@)
}

/// Builds the operation definitions under one path pattern.
fn build_op_defs(
    spec: &Spec,
    schemas: &Vec<CollectedSchema>,
    path_tok: &String,
    ops: &Vec<(Method, Operation)>,
    i: usize,
    fuel: u32,
) -> (r: Result<Vec<OperationDef>, String>)
    requires
        i <= ops.len(),
    ensures
        match r {
            Ok(v) => build_ops_s(
                spec@,
                collected_view(schemas@),
                path_tok@,
                ops_view(ops@).skip(i as int),
                fuel as nat,
            ) == Some(op_defs_view(v@)),
            Err(_) => build_ops_s(
                spec@,
                collected_view(schemas@),
                path_tok@,
                ops_view(ops@).skip(i as int),
                fuel as nat,
            ) is None,
        },
    decreases ops.len() - i,
{
    let ghost ov = ops_view(ops@);
    if i == ops.len() {
        proof {
            assert(ov.skip(i as int) =~= Seq::<(Method, OperationV)>::empty());
        }
        let v: Vec<OperationDef> = Vec::new();
        proof {
            assert(op_defs_view(v@) =~= Seq::<OperationDefV>::empty());
        }
        return Ok(v);
    }
    proof {
        assert(ov.skip(i as int)[0] == ov[i as int]);
        assert(ov.skip(i as int).drop_first() =~= ov.skip(i + 1));
    }
    let d = match build_operation(spec, schemas, path_tok, ops[i].0, &ops[i].1, fuel) {
        Ok(d) => d,
        Err(m) => {
            return Err(m);
        },
    };
    match build_op_defs(spec, schemas, path_tok, ops, i + 1, fuel) {
        Ok(mut v) => {
            let ghost prev_vec = v@;
            let ghost prev_view = op_defs_view(v@);
            let ghost dv = d@;
            v.insert(0, d);
            proof {
                assert forall|k: int| 0 <= k < v@.len() implies op_defs_view(v@)[k] == (seq![dv]
                    + prev_view)[k] by {
                    if k > 0 {
                        assert(v@[k] == prev_vec[k - 1]);
                    }
                }
                assert(op_defs_view(v@) =~= seq![dv] + prev_view);
            }
            Ok(v)
        },
        Err(m) => Err(m),
    }
}

/// Builds every operation definition, in the document's path order.
fn build_all_ops(
    spec: &Spec,
    schemas: &Vec<CollectedSchema>,
    i: usize,
    fuel: u32,
) -> (r: Result<Vec<OperationDef>, String>)
    requires
        i <= spec.paths.len(),
    ensures
        match r {
            Ok(v) => operations_s(
                spec@,
                collected_view(schemas@),
                spec@.paths.skip(i as int),
                fuel as nat,
            ) == Some(op_defs_view(v@)),
            Err(_) => operations_s(
                spec@,
                collected_view(schemas@),
                spec@.paths.skip(i as int),
                fuel as nat,
            ) is None,
        },
    decreases spec.paths.len() - i,
{
    let ghost pv = spec@.paths;
    if i == spec.paths.len() {
        proof {
            assert(pv.skip(i as int) =~= Seq::<(Seq<char>, crate::model::PathItemV)>::empty());
        }
        let v: Vec<OperationDef> = Vec::new();
        proof {
            assert(op_defs_view(v@) =~= Seq::<OperationDefV>::empty());
        }
        return Ok(v);
    }
    proof {
        assert(pv.skip(i as int)[0] == pv[i as int]);
        assert(pv.skip(i as int).drop_first() =~= pv.skip(i + 1));
        assert(ops_view(spec.paths@[i as int].1.ops@).skip(0) =~= ops_view(
            spec.paths@[i as int].1.ops@,
        ));
    }
    let d = match build_op_defs(spec, schemas, &spec.paths[i].0, &spec.paths[i].1.ops, 0, fuel) {
        Ok(d) => d,
        Err(m) => {
            return Err(m);
        },
    };
    match build_all_ops(spec, schemas, i + 1, fuel) {
        Ok(rest) => {
            let ghost dview = op_defs_view(d@);
            let ghost rview = op_defs_view(rest@);
            let ghost dvec = d@;
            let ghost rvec = rest@;
            let mut d = d;
            let mut rest = rest;
            while rest.len() > 0
                invariant
                    d@ + rest@ =~= dvec + rvec,
                decreases rest.len(),
            {
                let x = rest.remove(0);
                d.push(x);
                proof {
                    assert(d@ + rest@ =~= dvec + rvec);
                }
            }
            proof {
                assert(rest@ =~= Seq::<OperationDef>::empty());
                assert(d@ =~= dvec + rvec);
                assert forall|k: int| 0 <= k < d@.len() implies op_defs_view(d@)[k] == (dview
                    + rview)[k] by {
                    if k < dvec.len() {
                        assert(d@[k] == dvec[k]);
                        assert(dview[k] == dvec[k]@);
                    } else {
                        assert(d@[k] == rvec[k - dvec.len()]);
                        assert(rview[k - dvec.len()] == rvec[k - dvec.len()]@);
                    }
                }
                assert(op_defs_view(d@) =~= dview + rview);
            }
            Ok(d)
        },
        Err(m) => Err(m),
    }
}

/// The media types of a content map whose schemas stand inline, paired
/// with those schemas; referenced or absent schemas are passed over.
pub open spec fn inline_media_schemas(content: Seq<(Seq<char>, MediaTypeV)>) -> Seq<
    (Seq<char>, SchemaV),
>
    decreases content.len(),
{
    if content.len() == 0 {
        Seq::empty()
    } else {
        (match content[0].1.schema {
            Some(SchemaOrRefV::Inline(sv)) => seq![(content[0].0, *sv)],
            _ => Seq::<(Seq<char>, SchemaV)>::empty(),
        }) + inline_media_schemas(content.drop_first())
    }
}

/// The media types of a content map that declare their schema inline,
/// each with its schema, in document order.
pub fn collect_initial_types_from_media_types<'a>(
    m: &'a Vec<(String, crate::model::MediaType)>,
) -> (r: Vec<(&'a String, &'a Schema)>)
    ensures
        r@.len() == inline_media_schemas(crate::model::content_view(m@)).len(),
        forall|i: int|
            0 <= i < r@.len() ==> #[trigger] r@[i].0@ == inline_media_schemas(
                crate::model::content_view(m@),
            )[i].0 && r@[i].1@ == inline_media_schemas(crate::model::content_view(m@))[i].1,
{
    let ghost cv = crate::model::content_view(m@);
    let ghost full = inline_media_schemas(cv);
    proof {
        assert(cv.skip(0) =~= cv);
    }
    let n = m.len();
    let mut out: Vec<(&'a String, &'a Schema)> = Vec::new();
    let mut i: usize = 0;
    while i < n
        invariant
            n == m.len(),
            i <= n,
            cv == crate::model::content_view(m@),
            full == inline_media_schemas(cv),
            cv.len() == n,
            full =~= Seq::new(out@.len(), |k: int| (out@[k].0@, out@[k].1@))
                + inline_media_schemas(cv.skip(i as int)),
        decreases n - i,
    {
        let ghost pre = Seq::new(out@.len(), |k: int| (out@[k].0@, out@[k].1@));
        proof {
            assert(cv.skip(i as int)[0] == cv[i as int]);
            assert(cv.skip(i as int).drop_first() =~= cv.skip(i + 1));
        }
        match &m[i].1.schema {
            Some(ObjectOrReference::Object(s)) => {
                let ghost prev = out@;
                out.push((&m[i].0, s));
                proof {
                    assert(Seq::new(out@.len(), |k: int| (out@[k].0@, out@[k].1@)) =~= pre + seq![
                        (m@[i as int].0@, s@),
                    ]) by {
                        assert forall|k: int| 0 <= k < out@.len() implies (
                        out@[k].0@,
                        out@[k].1@,
                        ) == (pre + seq![(m@[i as int].0@, s@)])[k] by {
                            if k < prev.len() {
                                assert(out@[k] == prev[k]);
                            }
                        }
                    }
                }
            },
            _ => {},
        }
        i = i + 1;
    }
    proof {
        assert(cv.skip(n as int) =~= Seq::<(Seq<char>, MediaTypeV)>::empty());
        assert(full =~= Seq::new(out@.len(), |k: int| (out@[k].0@, out@[k].1@)));
    }
    out
}

/// The fuel bound given to every analysis walk. It bounds nesting depth,
/// not overall size, and far exceeds any real document's depth.
pub const ANALYZE_FUEL: u32 = 0xffff_ffff;

/// Why an analysis could not be completed.
#[derive(Debug)]
pub enum AnalysisError {
    /// The document could not be parsed or read into the model; the
    /// parser's message is carried.
    Deserialization(String),
    /// An analysis invariant failed: an unresolvable reference, a
    /// malformed path pattern, a schema missing at an expected location,
    /// or a path placeholder without a declared path parameter.
    Invariant(String),
}

impl AnalysisError {
    /// The carried diagnostic text.
    pub fn message(&self) -> (r: &str)
        ensures
            match self {
                AnalysisError::Deserialization(m) => r@ == m@,
                AnalysisError::Invariant(m) => r@ == m@,
            },
    {
        match self {
            AnalysisError::Deserialization(m) => m.as_str(),
            AnalysisError::Invariant(m) => m.as_str(),
        }
    }
}

/// Runs the analysis over a document.
pub struct Analyzer {
    pub renamer: DefaultRenamer,
}

impl Analyzer {
    pub fn new() -> (r: Analyzer)
        ensures
            r.renamer == (DefaultRenamer {  }),
    {
        Analyzer { renamer: DefaultRenamer {  } }
    }

    /// Replaces the renamer in use.
    pub fn with_renamer(&mut self, renamer: DefaultRenamer)
        ensures
            final(self).renamer == renamer,
    {
        self.renamer = renamer;
    }

    /// Parses a document and discovers its named schemas: success comes
    /// exactly when the text parses, the parsed document lowers to the
    /// model, and discovery completes, and then the stored model is the
    /// model of this text and the schemas are exactly what discovery
    /// finds for it. A parse or lowering failure is a deserialization
    /// error; a discovery failure is an invariant error naming its cause.
    pub fn run(self, spec_text: &str) -> (r: Result<AnalysisResult, AnalysisError>)
        ensures
            match r {
                Ok(res) => {
                    &&& res.renamer == self.renamer
                    &&& crate::trusted::json_doc_of(spec_text@) is Some
                    &&& crate::lower::spec_of_json(
                        crate::trusted::json_doc_of(spec_text@)->0,
                        ANALYZE_FUEL as nat,
                    ) == Some(res.spec@)
                    &&& collect_spec_s(res.spec@, ANALYZE_FUEL as nat) == Some(
                        collected_view(res.schemas@),
                    )
                },
                Err(e) => match e {
                    AnalysisError::Deserialization(_) => crate::trusted::json_doc_of(
                        spec_text@,
                    ) is None || crate::lower::spec_of_json(
                        crate::trusted::json_doc_of(spec_text@)->0,
                        ANALYZE_FUEL as nat,
                    ) is None,
                    AnalysisError::Invariant(_) => {
                        &&& crate::trusted::json_doc_of(spec_text@) is Some
                        &&& match crate::lower::spec_of_json(
                            crate::trusted::json_doc_of(spec_text@)->0,
                            ANALYZE_FUEL as nat,
                        ) {
                            Some(sv) => collect_spec_s(sv, ANALYZE_FUEL as nat) is None,
                            None => false,
                        }
                    },
                },
            },
    {
        let j = match crate::trusted::parse_document(spec_text) {
            Ok(j) => j,
            Err(m) => {
                return Err(AnalysisError::Deserialization(m));
            },
        };
        let spec = match crate::lower::spec_from_json(&j, ANALYZE_FUEL) {
            Some(s) => s,
            None => {
                return Err(
                    AnalysisError::Deserialization("unsupported document shape".to_owned()),
                );
            },
        };
        let schemas = match collect_types_to_generate(&spec, ANALYZE_FUEL) {
            Ok(v) => v,
            Err(m) => {
                return Err(AnalysisError::Invariant(m));
            },
        };
        Ok(AnalysisResult { renamer: self.renamer, spec, schemas })
    }
}

impl Default for Analyzer {
    fn default() -> (r: Analyzer)
        ensures
            r.renamer == (DefaultRenamer {  }),
    {
        Analyzer::new()
    }
}

/// The outcome of an analysis: the document model and its named schemas.
pub struct AnalysisResult {
    pub renamer: DefaultRenamer,
    pub spec: Spec,
    pub schemas: Vec<CollectedSchema>,
}

impl AnalysisResult {
    /// The renamer in use.
    pub fn renamer(&self) -> (r: &DefaultRenamer)
        ensures
            r == self.renamer,
    {
        &self.renamer
    }

    /// The document model.
    pub fn spec(&self) -> (r: &Spec)
        ensures
            r@ == self.spec@,
    {
        &self.spec
    }

    /// The discovered schemas, in discovery order.
    pub fn schemas(&self) -> (r: &Vec<CollectedSchema>)
        ensures
            r@ == self.schemas@,
    {
        &self.schemas
    }

    /// The collected schema at a location, if one was discovered.
    pub fn find_schema(&self, ptr: &Pointer) -> (r: Option<&CollectedSchema>)
        ensures
            match r {
                Some(cs) => find_schema_s(collected_view(self.schemas@), ptr@) == Some(cs@),
                None => find_schema_s(collected_view(self.schemas@), ptr@) is None,
            },
    {
        find_schema_in(&self.schemas, ptr)
    }

    /// The type expression for the schema at a pointer.
    pub fn name_type(&self, ptr: &Pointer, schema: &ObjectOrReference<Schema>) -> (r: Option<
        String,
    >)
        ensures
            match r {
                Some(t) => type_expr_s(
                    collected_view(self.schemas@),
                    ptr@,
                    schema@,
                    ANALYZE_FUEL as nat,
                ) == Some(t@),
                None => type_expr_s(
                    collected_view(self.schemas@),
                    ptr@,
                    schema@,
                    ANALYZE_FUEL as nat,
                ) is None,
            },
    {
        type_expr(&self.schemas, ptr, schema, ANALYZE_FUEL)
    }

    /// The operation definitions, in the document's path order. The
    /// analysis fails on an unresolvable reference, a malformed path
    /// pattern, or a placeholder without a declared path parameter.
    pub fn operations(&self) -> (r: Result<Vec<OperationDef>, AnalysisError>)
        ensures
            match r {
                Ok(v) => operations_s(
                    self.spec@,
                    collected_view(self.schemas@),
                    self.spec@.paths,
                    ANALYZE_FUEL as nat,
                ) == Some(op_defs_view(v@)),
                Err(_) => operations_s(
                    self.spec@,
                    collected_view(self.schemas@),
                    self.spec@.paths,
                    ANALYZE_FUEL as nat,
                ) is None,
            },
    {
        proof {
            assert(self.spec@.paths.skip(0) =~= self.spec@.paths);
        }
        match build_all_ops(&self.spec, &self.schemas, 0, ANALYZE_FUEL) {
            Ok(v) => Ok(v),
            Err(m) => Err(AnalysisError::Invariant(m)),
        }
    }
}

/// The path parameters named by a parsed path, in path order, each with
/// its declared definition; a placeholder without one is passed over.
pub open spec fn path_params_rec(
    path: Seq<SegmentOrParameterV>,
    params: Seq<((Seq<char>, ParameterLocation), ParameterDefV)>,
) -> Seq<(Seq<char>, ParameterDefV)>
    decreases path.len(),
{
    if path.len() == 0 {
        Seq::empty()
    } else {
        (match path[0] {
            SegmentOrParameterV::Parameter(p) => match pmap_lookup(
                params,
                p,
                ParameterLocation::Path,
            ) {
                Some(d) => seq![(p, d)],
                None => Seq::empty(),
            },
            SegmentOrParameterV::Segment(_) => Seq::empty(),
        }) + path_params_rec(path.drop_first(), params)
    }
}

/// Whether some status key of a response map equals the given text.
pub open spec fn has_status(
    responses: Seq<(Seq<char>, Option<Seq<char>>)>,
    k: Seq<char>,
) -> bool
    decreases responses.len(),
{
    if responses.len() == 0 {
        false
    } else {
        responses[0].0 == k || has_status(responses.drop_first(), k)
    }
}

/// Whether any response carries a body type.
pub open spec fn any_response_body(responses: Seq<(Seq<char>, Option<Seq<char>>)>) -> bool
    decreases responses.len(),
{
    if responses.len() == 0 {
        false
    } else {
        responses[0].1 is Some || any_response_body(responses.drop_first())
    }
}

impl OperationDef {
    /// The snake-case method name.
    pub fn name(&self) -> (r: &str)
        ensures
            r@ == self@.name,
    {
        self.name.as_str()
    }

    /// The HTTP method.
    pub fn method(&self) -> (r: &Method)
        ensures
            *r == self@.method,
    {
        &self.method
    }

    /// The parsed path elements.
    pub fn path(&self) -> (r: &Vec<SegmentOrParameter>)
        ensures
            r@ == self.path@,
            seg_list_view(r@) == self@.path,
    {
        &self.path
    }

    /// The path parameters in path order, with their definitions.
    pub fn path_params(&self) -> (r: Vec<(&String, &ParameterDef)>)
        ensures
            r@.len() == path_params_rec(self@.path, self@.parameters).len(),
            forall|i: int|
                0 <= i < r@.len() ==> #[trigger] r@[i].0@ == path_params_rec(
                    self@.path,
                    self@.parameters,
                )[i].0 && r@[i].1@ == path_params_rec(self@.path, self@.parameters)[i].1,
    {
        let ghost pathv = seg_list_view(self.path@);
        let ghost pv = params_map_view(self.parameters@);
        let ghost full = path_params_rec(pathv, pv);
        proof {
            assert(pathv.skip(0) =~= pathv);
        }
        let n = self.path.len();
        let mut out: Vec<(&String, &ParameterDef)> = Vec::new();
        let mut i: usize = 0;
        while i < n
            invariant
                n == self.path.len(),
                i <= n,
                pathv == seg_list_view(self.path@),
                pv == params_map_view(self.parameters@),
                full == path_params_rec(pathv, pv),
                pathv.len() == n,
                forall|j: int| 0 <= j < n ==> #[trigger] pathv[j] == self.path@[j]@,
                full =~= Seq::new(out@.len(), |k: int| (out@[k].0@, out@[k].1@))
                    + path_params_rec(pathv.skip(i as int), pv),
            decreases n - i,
        {
            let ghost pre = Seq::new(out@.len(), |k: int| (out@[k].0@, out@[k].1@));
            proof {
                assert(pathv.skip(i as int)[0] == pathv[i as int]);
                assert(pathv.skip(i as int).drop_first() =~= pathv.skip(i + 1));
            }
            match &self.path[i] {
                SegmentOrParameter::Parameter(p) => {
                    match pmap_get(&self.parameters, p.as_str(), ParameterLocation::Path) {
                        Some(d) => {
                            let ghost prev = out@;
                            out.push((p, d));
                            proof {
                                assert(Seq::new(
                                    out@.len(),
                                    |k: int| (out@[k].0@, out@[k].1@),
                                ) =~= pre + seq![(p@, d@)]) by {
                                    assert forall|k: int| 0 <= k < out@.len() implies (
                                    out@[k].0@,
                                    out@[k].1@,
                                    ) == (pre + seq![(p@, d@)])[k] by {
                                        if k < prev.len() {
                                            assert(out@[k] == prev[k]);
                                        }
                                    }
                                }
                            }
                        },
                        None => {},
                    }
                },
                SegmentOrParameter::Segment(_) => {},
            }
            i = i + 1;
        }
        proof {
            assert(pathv.skip(n as int) =~= Seq::<SegmentOrParameterV>::empty());
            assert(full =~= Seq::new(out@.len(), |k: int| (out@[k].0@, out@[k].1@)));
        }
        out
    }

    /// The first parameter under a name and location.
    pub fn param_by_name(&self, name: &str, location: ParameterLocation) -> (r: Option<
        &ParameterDef,
    >)
        ensures
            match r {
                Some(d) => pmap_lookup(self@.parameters, name@, location) == Some(d@),
                None => pmap_lookup(self@.parameters, name@, location) is None,
            },
    {
        pmap_get(&self.parameters, name, location)
    }

    /// The request-body type name, when the operation has a body.
    pub fn request_body(&self) -> (r: Option<&str>)
        ensures
            match r {
                Some(t) => self@.request_body == Some(t@),
                None => self@.request_body is None,
            },
    {
        match &self.request_body {
            Some(t) => Some(t.as_str()),
            None => None,
        }
    }

    /// The response envelope type name.
    pub fn response(&self) -> (r: &str)
        ensures
            r@ == self@.response,
    {
        self.response.as_str()
    }

    /// The declared responses sorted by status text.
    pub fn responses(&self) -> (r: &Vec<(String, Option<String>)>)
        ensures
            r@ == self.responses@,
            responses_map_view(r@) == self@.responses,
    {
        &self.responses
    }

    /// Whether a `default` response is declared.
    pub fn has_default_response(&self) -> (r: bool)
        ensures
            r == has_status(self@.responses, "default"@),
    {
        let ghost rv = responses_map_view(self.responses@);
        proof {
            assert(rv.skip(0) =~= rv);
        }
        let n = self.responses.len();
        let mut i: usize = 0;
        while i < n
            invariant
                n == self.responses.len(),
                i <= n,
                rv == responses_map_view(self.responses@),
                rv.len() == n,
                forall|j: int| 0 <= j < n ==> (#[trigger] rv[j]).0 == self.responses@[j].0@,
                has_status(rv, "default"@) == has_status(rv.skip(i as int), "default"@),
            decreases n - i,
        {
            proof {
                let ms = rv.skip(i as int);
                assert(ms[0] == rv[i as int]);
                assert(ms.drop_first() =~= rv.skip(i + 1));
            }
            if str_eq(self.responses[i].0.as_str(), "default") {
                return true;
            }
            i = i + 1;
        }
        proof {
            assert(rv.skip(n as int) =~= Seq::<(Seq<char>, Option<Seq<char>>)>::empty());
        }
        false
    }

    /// Whether any declared response carries a body.
    pub fn has_any_response_body(&self) -> (r: bool)
        ensures
            r == any_response_body(self@.responses),
    {
        let ghost rv = responses_map_view(self.responses@);
        proof {
            assert(rv.skip(0) =~= rv);
        }
        let n = self.responses.len();
        let mut i: usize = 0;
        while i < n
            invariant
                n == self.responses.len(),
                i <= n,
                rv == responses_map_view(self.responses@),
                rv.len() == n,
                forall|j: int|
                    0 <= j < n ==> ((#[trigger] rv[j]).1 is Some <==> self.responses@[j].1
                        is Some),
                any_response_body(rv) == any_response_body(rv.skip(i as int)),
            decreases n - i,
        {
            proof {
                let ms = rv.skip(i as int);
                assert(ms[0] == rv[i as int]);
                assert(ms.drop_first() =~= rv.skip(i + 1));
            }
            let has = match &self.responses[i].1 {
                Some(_) => true,
                None => false,
            };
            if has {
                return true;
            }
            i = i + 1;
        }
        proof {
            assert(rv.skip(n as int) =~= Seq::<(Seq<char>, Option<Seq<char>>)>::empty());
        }
        false
    }
}

/// Two runs of the operation derivation over the same analysis agree: the
/// operation list is a function of the document and the collected schemas.
pub proof fn lemma_operations_deterministic(
    spec: SpecV,
    schemas: Seq<CollectedSchemaV>,
    fuel: nat,
    a: Seq<OperationDefV>,
    b: Seq<OperationDefV>,
)
    requires
        operations_s(spec, schemas, spec.paths, fuel) == Some(a),
        operations_s(spec, schemas, spec.paths, fuel) == Some(b),
    ensures
        a == b,
{
}

/// Every path placeholder of a derived operation has a matching path
/// parameter in the operation's parameter map.
pub proof fn lemma_operation_placeholders_covered(
    spec: SpecV,
    schemas: Seq<CollectedSchemaV>,
    path_tok: Seq<char>,
    m: Method,
    op: OperationV,
    fuel: nat,
    d: OperationDefV,
)
    requires
        build_operation_s(spec, schemas, path_tok, m, op, fuel) == Some(d),
    ensures
        placeholders_covered(d.path, d.parameters),
{
}

/// The same, for every operation of a derived operation list.
pub proof fn lemma_operations_placeholders_covered(
    spec: SpecV,
    schemas: Seq<CollectedSchemaV>,
    paths: Seq<(Seq<char>, crate::model::PathItemV)>,
    fuel: nat,
    ds: Seq<OperationDefV>,
)
    requires
        operations_s(spec, schemas, paths, fuel) == Some(ds),
    ensures
        forall|i: int|
            0 <= i < ds.len() ==> placeholders_covered(
                (#[trigger] ds[i]).path,
                ds[i].parameters,
            ),
    decreases paths.len(),
{
    if paths.len() > 0 {
        match build_ops_s(spec, schemas, paths[0].0, paths[0].1.ops, fuel) {
            None => {},
            Some(d0) => {
                lemma_ops_placeholders_covered(spec, schemas, paths[0].0, paths[0].1.ops, fuel, d0);
                match operations_s(spec, schemas, paths.drop_first(), fuel) {
                    None => {},
                    Some(rest) => {
                        lemma_operations_placeholders_covered(
                            spec,
                            schemas,
                            paths.drop_first(),
                            fuel,
                            rest,
                        );
                        assert forall|i: int| 0 <= i < ds.len() implies placeholders_covered(
                            (#[trigger] ds[i]).path,
                            ds[i].parameters,
                        ) by {
                            if i < d0.len() {
                                assert(ds[i] == d0[i]);
                            } else {
                                assert(ds[i] == rest[i - d0.len()]);
                            }
                        }
                    },
                }
            },
        }
    }
}

proof fn lemma_ops_placeholders_covered(
    spec: SpecV,
    schemas: Seq<CollectedSchemaV>,
    path_tok: Seq<char>,
    ops: Seq<(Method, OperationV)>,
    fuel: nat,
    ds: Seq<OperationDefV>,
)
    requires
        build_ops_s(spec, schemas, path_tok, ops, fuel) == Some(ds),
    ensures
        forall|i: int|
            0 <= i < ds.len() ==> placeholders_covered(
                (#[trigger] ds[i]).path,
                ds[i].parameters,
            ),
    decreases ops.len(),
{
    if ops.len() > 0 {
        match build_operation_s(spec, schemas, path_tok, ops[0].0, ops[0].1, fuel) {
            None => {},
            Some(d) => {
                match build_ops_s(spec, schemas, path_tok, ops.drop_first(), fuel) {
                    None => {},
                    Some(rest) => {
                        lemma_ops_placeholders_covered(
                            spec,
                            schemas,
                            path_tok,
                            ops.drop_first(),
                            fuel,
                            rest,
                        );
                        assert forall|i: int| 0 <= i < ds.len() implies placeholders_covered(
                            (#[trigger] ds[i]).path,
                            ds[i].parameters,
                        ) by {
                            if i == 0 {
                                assert(ds[0] == d);
                            } else {
                                assert(ds[i] == rest[i - 1]);
                            }
                        }
                    },
                }
            },
        }
    }
}

/// The renamer's names are a pure function of the document and the
/// pointer: two namings of the same location agree.
pub proof fn lemma_names_deterministic(
    spec: SpecV,
    ptr: Seq<Seq<char>>,
    a: Seq<char>,
    b: Seq<char>,
)
    requires
        type_name_of(spec, ptr) == Some(a),
        type_name_of(spec, ptr) == Some(b),
    ensures
        a == b,
{
}

/// Pairwise distinct locations.
pub open spec fn distinct_locs(acc: Seq<CollectedSchemaV>) -> bool {
    forall|i: int, j: int|
        0 <= i < j < acc.len() ==> (#[trigger] acc[i]).location != (#[trigger] acc[j]).location
}

/// [`has_loc`] finds exactly the recorded locations.
proof fn lemma_has_loc_iff(acc: Seq<CollectedSchemaV>, ptr: Seq<Seq<char>>)
    ensures
        has_loc(acc, ptr) <==> exists|i: int| 0 <= i < acc.len() && (#[trigger] acc[i]).location
            == ptr,
    decreases acc.len(),
{
    if acc.len() > 0 {
        lemma_has_loc_iff(acc.drop_first(), ptr)        ;
        if acc[0].location == ptr {
        } else if has_loc(acc.drop_first(), ptr) {
            let i = choose|i: int|
                0 <= i < acc.drop_first().len() && (#[trigger] acc.drop_first()[i]).location
                    == ptr;
            assert(acc[i + 1] == acc.drop_first()[i]);
        } else {
            assert forall|i: int| 0 <= i < acc.len() implies (#[trigger] acc[i]).location
                != ptr by {
                if i > 0 {
                    assert(acc.drop_first()[i - 1] == acc[i]);
                }
            }
        }
    }
}

/// A walk step keeps locations distinct and only appends records.
proof fn lemma_collect_at_distinct(
    spec: SpecV,
    acc: Seq<CollectedSchemaV>,
    ptr: Seq<Seq<char>>,
    s: SchemaOrRefV,
    fuel: nat,
)
    requires
        distinct_locs(acc),
    ensures
        match collect_at_s(spec, acc, ptr, s, fuel) {
            Some(out) => distinct_locs(out),
            None => true,
        },
    decreases fuel, 0nat, 0nat,
{
    if fuel > 0 {
        match s {
            SchemaOrRefV::Ref(_) => {},
            SchemaOrRefV::Inline(sv) => {
                let sv = *sv;
                if sv.any_of.len() > 0 || sv.all_of.len() > 0 || sv.one_of.len() > 0 {
                    if !has_loc(acc, ptr) {
                        match type_name_of(spec, ptr) {
                            None => {},
                            Some(nm) => {
                                let cv = CollectedSchemaV {
                                    location: ptr,
                                    name: nm,
                                    schema: sv,
                                };
                                let acc1 = acc.push(cv);
                                lemma_has_loc_iff(acc, ptr);
                                assert(distinct_locs(acc1)) by {
                                    assert forall|i: int, j: int|
                                        0 <= i < j < acc1.len() implies (
                                    #[trigger] acc1[i]).location != (
                                    #[trigger] acc1[j]).location by {
                                        if j < acc.len() {
                                            assert(acc1[i] == acc[i] && acc1[j] == acc[j]);
                                        } else {
                                            assert(acc1[i] == acc[i]);
                                            assert(acc1[j] == cv);
                                        }
                                    }
                                }
                                lemma_collect_branches_distinct(
                                    spec,
                                    acc1,
                                    ptr,
                                    "anyOf"@,
                                    sv.any_of,
                                    0,
                                    (fuel - 1) as nat,
                                );
                                match collect_branches_s(
                                    spec,
                                    acc1,
                                    ptr,
                                    "anyOf"@,
                                    sv.any_of,
                                    0,
                                    (fuel - 1) as nat,
                                ) {
                                    None => {},
                                    Some(acc2) => {
                                        lemma_collect_branches_distinct(
                                            spec,
                                            acc2,
                                            ptr,
                                            "allOf"@,
                                            sv.all_of,
                                            0,
                                            (fuel - 1) as nat,
                                        );
                                        match collect_branches_s(
                                            spec,
                                            acc2,
                                            ptr,
                                            "allOf"@,
                                            sv.all_of,
                                            0,
                                            (fuel - 1) as nat,
                                        ) {
                                            None => {},
                                            Some(acc3) => {
                                                lemma_collect_branches_distinct(
                                                    spec,
                                                    acc3,
                                                    ptr,
                                                    "oneOf"@,
                                                    sv.one_of,
                                                    0,
                                                    (fuel - 1) as nat,
                                                );
                                            },
                                        }
                                    },
                                }
                            },
                        }
                    }
                } else if sv.schema_type == Some(SchemaType::Object) {
                    if !has_loc(acc, ptr) {
                        match type_name_of(spec, ptr) {
                            None => {},
                            Some(nm) => {
                                let cv = CollectedSchemaV {
                                    location: ptr,
                                    name: nm,
                                    schema: sv,
                                };
                                let acc1 = acc.push(cv);
                                lemma_has_loc_iff(acc, ptr);
                                assert(distinct_locs(acc1)) by {
                                    assert forall|i: int, j: int|
                                        0 <= i < j < acc1.len() implies (
                                    #[trigger] acc1[i]).location != (
                                    #[trigger] acc1[j]).location by {
                                        if j < acc.len() {
                                            assert(acc1[i] == acc[i] && acc1[j] == acc[j]);
                                        } else {
                                            assert(acc1[i] == acc[i]);
                                            assert(acc1[j] == cv);
                                        }
                                    }
                                }
                                lemma_collect_props_distinct(
                                    spec,
                                    acc1,
                                    ptr,
                                    sv.properties,
                                    (fuel - 1) as nat,
                                );
                            },
                        }
                    }
                } else if sv.schema_type == Some(SchemaType::Array) {
                    match sv.items {
                        Some(oor) => {
                            lemma_collect_at_distinct(
                                spec,
                                acc,
                                ptr.push("items"@),
                                oor,
                                (fuel - 1) as nat,
                            );
                        },
                        None => {},
                    }
                }
            },
        }
    }
}

proof fn lemma_collect_branches_distinct(
    spec: SpecV,
    acc: Seq<CollectedSchemaV>,
    base: Seq<Seq<char>>,
    kw: Seq<char>,
    branches: Seq<SchemaOrRefV>,
    idx: nat,
    fuel: nat,
)
    requires
        distinct_locs(acc),
    ensures
        match collect_branches_s(spec, acc, base, kw, branches, idx, fuel) {
            Some(out) => distinct_locs(out),
            None => true,
        },
    decreases fuel, branches.len(), 1nat,
{
    if branches.len() > 0 && fuel > 0 {
        lemma_collect_at_distinct(
            spec,
            acc,
            base.push(kw).push(dec_of(idx)),
            branches[0],
            (fuel - 1) as nat,
        );
        match collect_at_s(
            spec,
            acc,
            base.push(kw).push(dec_of(idx)),
            branches[0],
            (fuel - 1) as nat,
        ) {
            Some(a2) => {
                lemma_collect_branches_distinct(
                    spec,
                    a2,
                    base,
                    kw,
                    branches.drop_first(),
                    (idx + 1) as nat,
                    fuel,
                );
            },
            None => {},
        }
    }
}

proof fn lemma_collect_props_distinct(
    spec: SpecV,
    acc: Seq<CollectedSchemaV>,
    base: Seq<Seq<char>>,
    props: Seq<(Seq<char>, SchemaOrRefV)>,
    fuel: nat,
)
    requires
        distinct_locs(acc),
    ensures
        match collect_props_s(spec, acc, base, props, fuel) {
            Some(out) => distinct_locs(out),
            None => true,
        },
    decreases fuel, props.len(), 1nat,
{
    if props.len() > 0 && fuel > 0 {
        lemma_collect_at_distinct(
            spec,
            acc,
            base.push("properties"@).push(props[0].0),
            props[0].1,
            (fuel - 1) as nat,
        );
        match collect_at_s(
            spec,
            acc,
            base.push("properties"@).push(props[0].0),
            props[0].1,
            (fuel - 1) as nat,
        ) {
            Some(a2) => {
                lemma_collect_props_distinct(spec, a2, base, props.drop_first(), fuel);
            },
            None => {},
        }
    }
}

proof fn lemma_collect_content_distinct(
    spec: SpecV,
    acc: Seq<CollectedSchemaV>,
    base: Seq<Seq<char>>,
    content: Seq<(Seq<char>, MediaTypeV)>,
    fuel: nat,
)
    requires
        distinct_locs(acc),
    ensures
        match collect_content_s(spec, acc, base, content, fuel) {
            Some(out) => distinct_locs(out),
            None => true,
        },
    decreases fuel, content.len(), 1nat,
{
    if content.len() > 0 && fuel > 0 {
        let step = match content[0].1.schema {
            Some(oor) => {
                lemma_collect_at_distinct(
                    spec,
                    acc,
                    base.push("content"@).push(content[0].0).push("schema"@),
                    oor,
                    (fuel - 1) as nat,
                );
                collect_at_s(
                    spec,
                    acc,
                    base.push("content"@).push(content[0].0).push("schema"@),
                    oor,
                    (fuel - 1) as nat,
                )
            },
            None => Some(acc),
        };
        match step {
            Some(a2) => {
                lemma_collect_content_distinct(spec, a2, base, content.drop_first(), fuel);
            },
            None => {},
        }
    }
}

/// Every collected-schema list that the discovery walk produces has
/// pairwise distinct locations: a location is recorded at most once.
pub proof fn lemma_collect_locations_unique(spec: SpecV, fuel: nat)
    ensures
        match collect_spec_s(spec, fuel) {
            Some(out) => distinct_locs(out),
            None => true,
        },
{
    if fuel > 0 {
        let e: Seq<CollectedSchemaV> = Seq::empty();
        lemma_collect_schema_entries_distinct(
            spec,
            e,
            spec.components.schemas,
            (fuel - 1) as nat,
        );
        match collect_schema_entries_s(spec, e, spec.components.schemas, (fuel - 1) as nat) {
            None => {},
            Some(a1) => {
                lemma_collect_response_entries_distinct(
                    spec,
                    a1,
                    spec.components.responses,
                    (fuel - 1) as nat,
                );
                match collect_response_entries_s(
                    spec,
                    a1,
                    spec.components.responses,
                    (fuel - 1) as nat,
                ) {
                    None => {},
                    Some(a2) => {
                        lemma_collect_parameter_entries_distinct(
                            spec,
                            a2,
                            spec.components.parameters,
                            (fuel - 1) as nat,
                        );
                        match collect_parameter_entries_s(
                            spec,
                            a2,
                            spec.components.parameters,
                            (fuel - 1) as nat,
                        ) {
                            None => {},
                            Some(a3) => {
                                lemma_collect_body_entries_distinct(
                                    spec,
                                    a3,
                                    spec.components.request_bodies,
                                    (fuel - 1) as nat,
                                );
                                match collect_body_entries_s(
                                    spec,
                                    a3,
                                    spec.components.request_bodies,
                                    (fuel - 1) as nat,
                                ) {
                                    None => {},
                                    Some(a4) => {
                                        lemma_collect_paths_distinct(
                                            spec,
                                            a4,
                                            spec.paths,
                                            (fuel - 1) as nat,
                                        );
                                    },
                                }
                            },
                        }
                    },
                }
            },
        }
    }
}

proof fn lemma_collect_schema_entries_distinct(
    spec: SpecV,
    acc: Seq<CollectedSchemaV>,
    entries: Seq<(Seq<char>, SchemaOrRefV)>,
    fuel: nat,
)
    requires
        distinct_locs(acc),
    ensures
        match collect_schema_entries_s(spec, acc, entries, fuel) {
            Some(out) => distinct_locs(out),
            None => true,
        },
    decreases fuel, entries.len(), 1nat,
{
    if entries.len() > 0 && fuel > 0 {
        lemma_collect_at_distinct(
            spec,
            acc,
            seq!["components"@, "schemas"@, entries[0].0],
            entries[0].1,
            (fuel - 1) as nat,
        );
        match collect_at_s(
            spec,
            acc,
            seq!["components"@, "schemas"@, entries[0].0],
            entries[0].1,
            (fuel - 1) as nat,
        ) {
            Some(a2) => {
                lemma_collect_schema_entries_distinct(spec, a2, entries.drop_first(), fuel);
            },
            None => {},
        }
    }
}

proof fn lemma_collect_response_entries_distinct(
    spec: SpecV,
    acc: Seq<CollectedSchemaV>,
    entries: Seq<(Seq<char>, RefOrV<ResponseV>)>,
    fuel: nat,
)
    requires
        distinct_locs(acc),
    ensures
        match collect_response_entries_s(spec, acc, entries, fuel) {
            Some(out) => distinct_locs(out),
            None => true,
        },
    decreases fuel, entries.len(), 2nat,
{
    if entries.len() > 0 && fuel > 0 {
        let step = match entries[0].1 {
            RefOrV::Inline(r) => {
                lemma_collect_content_distinct(
                    spec,
                    acc,
                    seq!["components"@, "responses"@, entries[0].0],
                    r.content,
                    (fuel - 1) as nat,
                );
                collect_content_s(
                    spec,
                    acc,
                    seq!["components"@, "responses"@, entries[0].0],
                    r.content,
                    (fuel - 1) as nat,
                )
            },
            RefOrV::Ref(_) => Some(acc),
        };
        match step {
            Some(a2) => {
                lemma_collect_response_entries_distinct(spec, a2, entries.drop_first(), fuel);
            },
            None => {},
        }
    }
}

proof fn lemma_collect_parameter_entries_distinct(
    spec: SpecV,
    acc: Seq<CollectedSchemaV>,
    entries: Seq<(Seq<char>, RefOrV<ParameterV>)>,
    fuel: nat,
)
    requires
        distinct_locs(acc),
    ensures
        match collect_parameter_entries_s(spec, acc, entries, fuel) {
            Some(out) => distinct_locs(out),
            None => true,
        },
    decreases fuel, entries.len(), 2nat,
{
    if entries.len() > 0 && fuel > 0 {
        let step = match entries[0].1 {
            RefOrV::Inline(p) => match p.schema {
                Some(sv) => {
                    lemma_collect_at_distinct(
                        spec,
                        acc,
                        seq!["components"@, "parameters"@, entries[0].0, "schema"@],
                        SchemaOrRefV::Inline(Box::new(sv)),
                        (fuel - 1) as nat,
                    );
                    collect_at_s(
                        spec,
                        acc,
                        seq!["components"@, "parameters"@, entries[0].0, "schema"@],
                        SchemaOrRefV::Inline(Box::new(sv)),
                        (fuel - 1) as nat,
                    )
                },
                None => Some(acc),
            },
            RefOrV::Ref(_) => Some(acc),
        };
        match step {
            Some(a2) => {
                lemma_collect_parameter_entries_distinct(spec, a2, entries.drop_first(), fuel);
            },
            None => {},
        }
    }
}

proof fn lemma_collect_body_entries_distinct(
    spec: SpecV,
    acc: Seq<CollectedSchemaV>,
    entries: Seq<(Seq<char>, RefOrV<RequestBodyV>)>,
    fuel: nat,
)
    requires
        distinct_locs(acc),
    ensures
        match collect_body_entries_s(spec, acc, entries, fuel) {
            Some(out) => distinct_locs(out),
            None => true,
        },
    decreases fuel, entries.len(), 2nat,
{
    if entries.len() > 0 && fuel > 0 {
        let step = match entries[0].1 {
            RefOrV::Inline(b) => {
                lemma_collect_content_distinct(
                    spec,
                    acc,
                    seq!["components"@, "requestBodies"@, entries[0].0],
                    b.content,
                    (fuel - 1) as nat,
                );
                collect_content_s(
                    spec,
                    acc,
                    seq!["components"@, "requestBodies"@, entries[0].0],
                    b.content,
                    (fuel - 1) as nat,
                )
            },
            RefOrV::Ref(_) => Some(acc),
        };
        match step {
            Some(a2) => {
                lemma_collect_body_entries_distinct(spec, a2, entries.drop_first(), fuel);
            },
            None => {},
        }
    }
}

proof fn lemma_collect_op_params_distinct(
    spec: SpecV,
    acc: Seq<CollectedSchemaV>,
    base: Seq<Seq<char>>,
    params: Seq<RefOrV<ParameterV>>,
    idx: nat,
    fuel: nat,
)
    requires
        distinct_locs(acc),
    ensures
        match collect_op_params_s(spec, acc, base, params, idx, fuel) {
            Some(out) => distinct_locs(out),
            None => true,
        },
    decreases fuel, params.len(), 2nat,
{
    if params.len() > 0 && fuel > 0 {
        let step = match params[0] {
            RefOrV::Inline(p) => match p.schema {
                Some(sv) => {
                    lemma_collect_at_distinct(
                        spec,
                        acc,
                        base.push("parameters"@).push(dec_of(idx)).push("schema"@),
                        SchemaOrRefV::Inline(Box::new(sv)),
                        (fuel - 1) as nat,
                    );
                    collect_at_s(
                        spec,
                        acc,
                        base.push("parameters"@).push(dec_of(idx)).push("schema"@),
                        SchemaOrRefV::Inline(Box::new(sv)),
                        (fuel - 1) as nat,
                    )
                },
                None => Some(acc),
            },
            RefOrV::Ref(_) => Some(acc),
        };
        match step {
            Some(a2) => {
                lemma_collect_op_params_distinct(
                    spec,
                    a2,
                    base,
                    params.drop_first(),
                    (idx + 1) as nat,
                    fuel,
                );
            },
            None => {},
        }
    }
}

proof fn lemma_collect_op_responses_distinct(
    spec: SpecV,
    acc: Seq<CollectedSchemaV>,
    base: Seq<Seq<char>>,
    responses: Seq<(Seq<char>, RefOrV<ResponseV>)>,
    fuel: nat,
)
    requires
        distinct_locs(acc),
    ensures
        match collect_op_responses_s(spec, acc, base, responses, fuel) {
            Some(out) => distinct_locs(out),
            None => true,
        },
    decreases fuel, responses.len(), 2nat,
{
    if responses.len() > 0 && fuel > 0 {
        let step = match responses[0].1 {
            RefOrV::Inline(r) => {
                lemma_collect_content_distinct(
                    spec,
                    acc,
                    base.push("responses"@).push(responses[0].0),
                    r.content,
                    (fuel - 1) as nat,
                );
                collect_content_s(
                    spec,
                    acc,
                    base.push("responses"@).push(responses[0].0),
                    r.content,
                    (fuel - 1) as nat,
                )
            },
            RefOrV::Ref(_) => Some(acc),
        };
        match step {
            Some(a2) => {
                lemma_collect_op_responses_distinct(spec, a2, base, responses.drop_first(), fuel);
            },
            None => {},
        }
    }
}

proof fn lemma_collect_op_distinct(
    spec: SpecV,
    acc: Seq<CollectedSchemaV>,
    base: Seq<Seq<char>>,
    op: OperationV,
    fuel: nat,
)
    requires
        distinct_locs(acc),
    ensures
        match collect_op_s(spec, acc, base, op, fuel) {
            Some(out) => distinct_locs(out),
            None => true,
        },
    decreases fuel, 0nat, 3nat,
{
    if fuel > 0 {
        lemma_collect_op_params_distinct(spec, acc, base, op.parameters, 0, (fuel - 1) as nat);
        match collect_op_params_s(spec, acc, base, op.parameters, 0, (fuel - 1) as nat) {
            None => {},
            Some(acc1) => {
                let step = match op.request_body {
                    Some(RefOrV::Inline(b)) => {
                        lemma_collect_content_distinct(
                            spec,
                            acc1,
                            base.push("requestBody"@),
                            b.content,
                            (fuel - 1) as nat,
                        );
                        collect_content_s(
                            spec,
                            acc1,
                            base.push("requestBody"@),
                            b.content,
                            (fuel - 1) as nat,
                        )
                    },
                    _ => Some(acc1),
                };
                match step {
                    None => {},
                    Some(acc2) => {
                        lemma_collect_op_responses_distinct(
                            spec,
                            acc2,
                            base,
                            op.responses,
                            (fuel - 1) as nat,
                        );
                    },
                }
            },
        }
    }
}

proof fn lemma_collect_ops_distinct(
    spec: SpecV,
    acc: Seq<CollectedSchemaV>,
    path_tok: Seq<char>,
    ops: Seq<(Method, OperationV)>,
    fuel: nat,
)
    requires
        distinct_locs(acc),
    ensures
        match collect_ops_s(spec, acc, path_tok, ops, fuel) {
            Some(out) => distinct_locs(out),
            None => true,
        },
    decreases fuel, ops.len(), 4nat,
{
    if ops.len() > 0 && fuel > 0 {
        lemma_collect_op_distinct(
            spec,
            acc,
            seq!["paths"@, path_tok, ops[0].0.spec_token()],
            ops[0].1,
            (fuel - 1) as nat,
        );
        match collect_op_s(
            spec,
            acc,
            seq!["paths"@, path_tok, ops[0].0.spec_token()],
            ops[0].1,
            (fuel - 1) as nat,
        ) {
            Some(a2) => {
                lemma_collect_ops_distinct(spec, a2, path_tok, ops.drop_first(), fuel);
            },
            None => {},
        }
    }
}

proof fn lemma_collect_paths_distinct(
    spec: SpecV,
    acc: Seq<CollectedSchemaV>,
    paths: Seq<(Seq<char>, crate::model::PathItemV)>,
    fuel: nat,
)
    requires
        distinct_locs(acc),
    ensures
        match collect_paths_s(spec, acc, paths, fuel) {
            Some(out) => distinct_locs(out),
            None => true,
        },
    decreases fuel, paths.len(), 5nat,
{
    if paths.len() > 0 && fuel > 0 {
        lemma_collect_ops_distinct(spec, acc, paths[0].0, paths[0].1.ops, (fuel - 1) as nat);
        match collect_ops_s(spec, acc, paths[0].0, paths[0].1.ops, (fuel - 1) as nat) {
            Some(a2) => {
                lemma_collect_paths_distinct(spec, a2, paths.drop_first(), fuel);
            },
            None => {},
        }
    }
}

} // verus!
