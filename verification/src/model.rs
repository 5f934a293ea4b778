//! The OpenAPI document model: a passive tree holding the subset of the
//! specification this generator reads. Members keep document order; a value
//! may appear inline or as a `$ref` into `components`.

use vstd::prelude::*;

use crate::chars::str_eq;
use crate::pointer::Pointer;

verus! {

/// An HTTP method of an operation.
#[derive(Debug, Clone, Copy, PartialEq, Eq, Structural)]
pub enum Method {
    Get,
    Put,
    Post,
    Delete,
    Options,
    Head,
    Patch,
    Trace,
    Connect,
}

impl Method {
    /// The lower-case spelling used as a pointer token under `paths`.
    pub open spec fn spec_token(self) -> Seq<char> {
        match self {
            Method::Get => "get"@,
            Method::Put => "put"@,
            Method::Post => "post"@,
            Method::Delete => "delete"@,
            Method::Options => "options"@,
            Method::Head => "head"@,
            Method::Patch => "patch"@,
            Method::Trace => "trace"@,
            Method::Connect => "connect"@,
        }
    }

    /// The lower-case spelling as text.
    pub fn token(&self) -> (r: &'static str)
        ensures
            r@ == self.spec_token(),
    {
        match self {
            Method::Get => "get",
            Method::Put => "put",
            Method::Post => "post",
            Method::Delete => "delete",
            Method::Options => "options",
            Method::Head => "head",
            Method::Patch => "patch",
            Method::Trace => "trace",
            Method::Connect => "connect",
        }
    }
}

/// Where a parameter is carried.
#[derive(Debug, Clone, Copy, PartialEq, Eq, Structural)]
pub enum ParameterLocation {
    Path,
    Query,
    Header,
    Cookie,
}

/// The primitive or structural type named by a schema's `type` field.
#[derive(Debug, Clone, Copy, PartialEq, Eq, Structural)]
pub enum SchemaType {
    Object,
    Array,
    Integer,
    Number,
    Str,
    Boolean,
}

/// A value that may stand inline or as a `$ref` to another location.
#[derive(Debug)]
pub enum ObjectOrReference<T> {
    Ref { ref_path: Pointer },
    Object(T),
}

/// The JSON-Schema subset supported by the generator.
#[derive(Debug)]
pub struct Schema {
    pub schema_type: Option<SchemaType>,
    pub format: Option<String>,
    pub nullable: Option<bool>,
    pub required: Vec<String>,
    pub properties: Vec<(String, ObjectOrReference<Schema>)>,
    pub items: Option<Box<ObjectOrReference<Schema>>>,
    pub any_of: Vec<ObjectOrReference<Schema>>,
    pub all_of: Vec<ObjectOrReference<Schema>>,
    pub one_of: Vec<ObjectOrReference<Schema>>,
}

/// Mathematical form of a schema.
pub struct SchemaV {
    pub schema_type: Option<SchemaType>,
    pub format: Option<Seq<char>>,
    pub nullable: Option<bool>,
    pub required: Seq<Seq<char>>,
    pub properties: Seq<(Seq<char>, SchemaOrRefV)>,
    pub items: Option<SchemaOrRefV>,
    pub any_of: Seq<SchemaOrRefV>,
    pub all_of: Seq<SchemaOrRefV>,
    pub one_of: Seq<SchemaOrRefV>,
}

/// Mathematical form of an inline-or-reference schema.
pub enum SchemaOrRefV {
    Ref(Seq<Seq<char>>),
    Inline(Box<SchemaV>),
}

impl Schema {
    /// Whether any composite branch list is non-empty.
    pub open spec fn spec_is_composite(&self) -> bool {
        self.any_of@.len() > 0 || self.all_of@.len() > 0 || self.one_of@.len() > 0
    }

    pub fn is_composite(&self) -> (r: bool)
        ensures
            r == self.spec_is_composite(),
    {
        self.any_of.len() > 0 || self.all_of.len() > 0 || self.one_of.len() > 0
    }
}

impl ObjectOrReference<Schema> {
    /// A deep copy.
    pub fn duplicate(&self) -> (r: ObjectOrReference<Schema>)
        ensures
            r@ == self@,
        decreases self,
    {
        match self {
            ObjectOrReference::Ref { ref_path } => ObjectOrReference::Ref {
                ref_path: ref_path.duplicate(),
            },
            ObjectOrReference::Object(s) => ObjectOrReference::Object(s.duplicate()),
        }
    }
}

impl Schema {
    /// A deep copy.
    pub fn duplicate(&self) -> (r: Schema)
        ensures
            r@ == self@,
        decreases self,
    {
        broadcast use vstd::std_specs::vec::axiom_vec_index_decreases;

        let format = match &self.format {
            Some(f) => Some(f.clone()),
            None => None,
        };
        let mut required: Vec<String> = Vec::new();
        let mut i: usize = 0;
        while i < self.required.len()
            invariant
                i <= self.required.len(),
                required@.len() == i,
                forall|j: int| 0 <= j < i ==> required@[j]@ == self.required@[j]@,
            decreases self.required.len() - i,
        {
            required.push(self.required[i].clone());
            i = i + 1;
        }
        let mut properties: Vec<(String, ObjectOrReference<Schema>)> = Vec::new();
        let mut i: usize = 0;
        while i < self.properties.len()
            invariant
                i <= self.properties.len(),
                properties@.len() == i,
                forall|j: int|
                    0 <= j < i ==> #[trigger] properties@[j].0@ == self.properties@[j].0@
                        && properties@[j].1@ == self.properties@[j].1@,
            decreases self.properties.len() - i,
        {
            proof {
                assert(decreases_to!(self => self.properties));
                assert(decreases_to!(self.properties => self.properties@[i as int]));
                assert(decreases_to!(self.properties@[i as int] => self.properties@[
                i as int].1));
            }
            let entry = (self.properties[i].0.clone(), self.properties[i].1.duplicate());
            properties.push(entry);
            i = i + 1;
        }
        let items: Option<Box<ObjectOrReference<Schema>>> = match &self.items {
            Some(b) => {
                proof {
                    assert(decreases_to!(self => self.items));
                }
                Some(Box::new((**b).duplicate()))
            },
            None => None,
        };
        let mut any_of: Vec<ObjectOrReference<Schema>> = Vec::new();
        let mut i: usize = 0;
        while i < self.any_of.len()
            invariant
                i <= self.any_of.len(),
                any_of@.len() == i,
                forall|j: int| 0 <= j < i ==> #[trigger] any_of@[j]@ == self.any_of@[j]@,
            decreases self.any_of.len() - i,
        {
            proof {
                assert(decreases_to!(self => self.any_of));
                assert(decreases_to!(self.any_of => self.any_of@[i as int]));
            }
            any_of.push(self.any_of[i].duplicate());
            i = i + 1;
        }
        let mut all_of: Vec<ObjectOrReference<Schema>> = Vec::new();
        let mut i: usize = 0;
        while i < self.all_of.len()
            invariant
                i <= self.all_of.len(),
                all_of@.len() == i,
                forall|j: int| 0 <= j < i ==> #[trigger] all_of@[j]@ == self.all_of@[j]@,
            decreases self.all_of.len() - i,
        {
            proof {
                assert(decreases_to!(self => self.all_of));
                assert(decreases_to!(self.all_of => self.all_of@[i as int]));
            }
            all_of.push(self.all_of[i].duplicate());
            i = i + 1;
        }
        let mut one_of: Vec<ObjectOrReference<Schema>> = Vec::new();
        let mut i: usize = 0;
        while i < self.one_of.len()
            invariant
                i <= self.one_of.len(),
                one_of@.len() == i,
                forall|j: int| 0 <= j < i ==> #[trigger] one_of@[j]@ == self.one_of@[j]@,
            decreases self.one_of.len() - i,
        {
            proof {
                assert(decreases_to!(self => self.one_of));
                assert(decreases_to!(self.one_of => self.one_of@[i as int]));
            }
            one_of.push(self.one_of[i].duplicate());
            i = i + 1;
        }
        let r = Schema {
            schema_type: self.schema_type,
            format,
            nullable: self.nullable,
            required,
            properties,
            items,
            any_of,
            all_of,
            one_of,
        };
        proof {
            lemma_props_view(r.properties@);
            lemma_props_view(self.properties@);
            assert(props_view(r.properties@) =~= props_view(self.properties@));
            lemma_oor_list_view(r.any_of@);
            lemma_oor_list_view(self.any_of@);
            assert(oor_list_view(r.any_of@) =~= oor_list_view(self.any_of@));
            lemma_oor_list_view(r.all_of@);
            lemma_oor_list_view(self.all_of@);
            assert(oor_list_view(r.all_of@) =~= oor_list_view(self.all_of@));
            lemma_oor_list_view(r.one_of@);
            lemma_oor_list_view(self.one_of@);
            assert(oor_list_view(r.one_of@) =~= oor_list_view(self.one_of@));
            assert(strings_view(r.required@) =~= strings_view(self.required@));
        }
        r
    }
}

/// Views of a list of required-property names.
pub open spec fn strings_view(xs: Seq<String>) -> Seq<Seq<char>> {
    Seq::new(xs.len(), |i: int| xs[i]@)
}

/// Views of a list of inline-or-reference schemas.
pub open spec fn oor_list_view(xs: Seq<ObjectOrReference<Schema>>) -> Seq<SchemaOrRefV>
    decreases xs,
{
    if xs.len() == 0 {
        Seq::empty()
    } else {
        seq![xs[0]@] + oor_list_view(xs.drop_first())
    }
}

/// Views of a property list.
pub open spec fn props_view(xs: Seq<(String, ObjectOrReference<Schema>)>) -> Seq<
    (Seq<char>, SchemaOrRefV),
>
    decreases xs,
{
    if xs.len() == 0 {
        Seq::empty()
    } else {
        seq![(xs[0].0@, xs[0].1@)] + props_view(xs.drop_first())
    }
}

impl View for Schema {
    type V = SchemaV;

    open spec fn view(&self) -> SchemaV
        decreases self,
    {
        SchemaV {
            schema_type: self.schema_type,
            format: match self.format {
                Some(ref f) => Some(f@),
                None => None,
            },
            nullable: self.nullable,
            required: strings_view(self.required@),
            properties: props_view(self.properties@),
            items: match self.items {
                Some(ref b) => Some((**b)@),
                None => None,
            },
            any_of: oor_list_view(self.any_of@),
            all_of: oor_list_view(self.all_of@),
            one_of: oor_list_view(self.one_of@),
        }
    }
}

impl View for ObjectOrReference<Schema> {
    type V = SchemaOrRefV;

    open spec fn view(&self) -> SchemaOrRefV
        decreases self,
    {
        match self {
            ObjectOrReference::Ref { ref_path } => SchemaOrRefV::Ref(ref_path@),
            ObjectOrReference::Object(s) => SchemaOrRefV::Inline(Box::new(s@)),
        }
    }
}

/// [`oor_list_view`] is the element-wise view.
pub proof fn lemma_oor_list_view(xs: Seq<ObjectOrReference<Schema>>)
    ensures
        oor_list_view(xs).len() == xs.len(),
        forall|i: int| 0 <= i < xs.len() ==> oor_list_view(xs)[i] == xs[i]@,
    decreases xs,
{
    if xs.len() == 0 {
        assert(oor_list_view(xs) == Seq::<SchemaOrRefV>::empty());
    } else {
        assert(oor_list_view(xs) == seq![xs[0]@] + oor_list_view(xs.drop_first()));
        lemma_oor_list_view(xs.drop_first());
        assert forall|i: int| 0 <= i < xs.len() implies oor_list_view(xs)[i] == xs[i]@ by {
            if i > 0 {
                assert(oor_list_view(xs.drop_first())[i - 1] == xs.drop_first()[i - 1]@);
            }
        }
    }
}

/// Mathematical form of an inline-or-reference value with views `T`.
pub enum RefOrV<T> {
    Ref(Seq<Seq<char>>),
    Inline(T),
}

/// One media type entry: the schema of a body, when declared.
#[derive(Debug)]
pub struct MediaType {
    pub schema: Option<ObjectOrReference<Schema>>,
}

pub struct MediaTypeV {
    pub schema: Option<SchemaOrRefV>,
}

impl View for MediaType {
    type V = MediaTypeV;

    open spec fn view(&self) -> MediaTypeV {
        MediaTypeV {
            schema: match self.schema {
                Some(ref s) => Some(s@),
                None => None,
            },
        }
    }
}

/// A request body: content type mapped to media type.
#[derive(Debug)]
pub struct RequestBody {
    pub content: Vec<(String, MediaType)>,
}

pub struct RequestBodyV {
    pub content: Seq<(Seq<char>, MediaTypeV)>,
}

/// The content of media-type maps, element-wise.
pub open spec fn content_view(xs: Seq<(String, MediaType)>) -> Seq<(Seq<char>, MediaTypeV)> {
    Seq::new(xs.len(), |i: int| (xs[i].0@, xs[i].1@))
}

impl View for RequestBody {
    type V = RequestBodyV;

    open spec fn view(&self) -> RequestBodyV {
        RequestBodyV { content: content_view(self.content@) }
    }
}

/// A response: content type mapped to media type.
#[derive(Debug)]
pub struct Response {
    pub content: Vec<(String, MediaType)>,
}

pub struct ResponseV {
    pub content: Seq<(Seq<char>, MediaTypeV)>,
}

impl View for Response {
    type V = ResponseV;

    open spec fn view(&self) -> ResponseV {
        ResponseV { content: content_view(self.content@) }
    }
}

/// A declared operation parameter.
#[derive(Debug)]
pub struct Parameter {
    pub name: String,
    pub location: ParameterLocation,
    pub schema: Option<Schema>,
}

pub struct ParameterV {
    pub name: Seq<char>,
    pub location: ParameterLocation,
    pub schema: Option<SchemaV>,
}

impl View for Parameter {
    type V = ParameterV;

    open spec fn view(&self) -> ParameterV {
        ParameterV {
            name: self.name@,
            location: self.location,
            schema: match self.schema {
                Some(ref s) => Some(s@),
                None => None,
            },
        }
    }
}

impl View for ObjectOrReference<Parameter> {
    type V = RefOrV<ParameterV>;

    open spec fn view(&self) -> RefOrV<ParameterV> {
        match self {
            ObjectOrReference::Ref { ref_path } => RefOrV::Ref(ref_path@),
            ObjectOrReference::Object(p) => RefOrV::Inline(p@),
        }
    }
}

impl View for ObjectOrReference<RequestBody> {
    type V = RefOrV<RequestBodyV>;

    open spec fn view(&self) -> RefOrV<RequestBodyV> {
        match self {
            ObjectOrReference::Ref { ref_path } => RefOrV::Ref(ref_path@),
            ObjectOrReference::Object(b) => RefOrV::Inline(b@),
        }
    }
}

impl View for ObjectOrReference<Response> {
    type V = RefOrV<ResponseV>;

    open spec fn view(&self) -> RefOrV<ResponseV> {
        match self {
            ObjectOrReference::Ref { ref_path } => RefOrV::Ref(ref_path@),
            ObjectOrReference::Object(r) => RefOrV::Inline(r@),
        }
    }
}

/// One API operation.
#[derive(Debug)]
pub struct Operation {
    pub operation_id: Option<String>,
    pub parameters: Vec<ObjectOrReference<Parameter>>,
    pub request_body: Option<ObjectOrReference<RequestBody>>,
    pub responses: Vec<(String, ObjectOrReference<Response>)>,
}

pub struct OperationV {
    pub operation_id: Option<Seq<char>>,
    pub parameters: Seq<RefOrV<ParameterV>>,
    pub request_body: Option<RefOrV<RequestBodyV>>,
    pub responses: Seq<(Seq<char>, RefOrV<ResponseV>)>,
}

/// The view of a parameter list, element-wise.
pub open spec fn params_view(xs: Seq<ObjectOrReference<Parameter>>) -> Seq<RefOrV<ParameterV>> {
    Seq::new(xs.len(), |i: int| xs[i]@)
}

impl View for Operation {
    type V = OperationV;

    open spec fn view(&self) -> OperationV {
        OperationV {
            operation_id: match self.operation_id {
                Some(ref s) => Some(s@),
                None => None,
            },
            parameters: params_view(self.parameters@),
            request_body: match self.request_body {
                Some(ref b) => Some(b@),
                None => None,
            },
            responses: entries_view(self.responses@),
        }
    }
}

/// The operations declared under one path pattern, in document order.
#[derive(Debug)]
pub struct PathItem {
    pub ops: Vec<(Method, Operation)>,
}

pub struct PathItemV {
    pub ops: Seq<(Method, OperationV)>,
}

/// The view of a method-to-operation list, element-wise.
pub open spec fn ops_view(xs: Seq<(Method, Operation)>) -> Seq<(Method, OperationV)> {
    Seq::new(xs.len(), |i: int| (xs[i].0, xs[i].1@))
}

impl View for PathItem {
    type V = PathItemV;

    open spec fn view(&self) -> PathItemV {
        PathItemV { ops: ops_view(self.ops@) }
    }
}

/// The reusable definitions under `components`.
#[derive(Debug)]
pub struct Components {
    pub schemas: Vec<(String, ObjectOrReference<Schema>)>,
    pub responses: Vec<(String, ObjectOrReference<Response>)>,
    pub parameters: Vec<(String, ObjectOrReference<Parameter>)>,
    pub request_bodies: Vec<(String, ObjectOrReference<RequestBody>)>,
}

pub struct ComponentsV {
    pub schemas: Seq<(Seq<char>, SchemaOrRefV)>,
    pub responses: Seq<(Seq<char>, RefOrV<ResponseV>)>,
    pub parameters: Seq<(Seq<char>, RefOrV<ParameterV>)>,
    pub request_bodies: Seq<(Seq<char>, RefOrV<RequestBodyV>)>,
}

/// The view of a named entry list, name by name.
pub open spec fn entries_view<T: View>(xs: Seq<(String, T)>) -> Seq<(Seq<char>, T::V)> {
    Seq::new(xs.len(), |i: int| (xs[i].0@, xs[i].1@))
}

impl View for Components {
    type V = ComponentsV;

    open spec fn view(&self) -> ComponentsV {
        ComponentsV {
            schemas: entries_view(self.schemas@),
            responses: entries_view(self.responses@),
            parameters: entries_view(self.parameters@),
            request_bodies: entries_view(self.request_bodies@),
        }
    }
}

/// The parsed OpenAPI document.
#[derive(Debug)]
pub struct Spec {
    pub paths: Vec<(String, PathItem)>,
    pub components: Components,
}

pub struct SpecV {
    pub paths: Seq<(Seq<char>, PathItemV)>,
    pub components: ComponentsV,
}

impl View for Spec {
    type V = SpecV;

    open spec fn view(&self) -> SpecV {
        SpecV { paths: entries_view(self.paths@), components: self.components@ }
    }
}

/// The value of the first entry with the given name in a viewed entry list.
pub open spec fn vassoc<T>(xs: Seq<(Seq<char>, T)>, key: Seq<char>) -> Option<T>
    decreases xs,
{
    if xs.len() == 0 {
        None
    } else if xs[0].0 == key {
        Some(xs[0].1)
    } else {
        vassoc(xs.drop_first(), key)
    }
}

/// [`vassoc`] over an entry list's view agrees with [`assoc_find`] over the
/// list itself.
pub proof fn lemma_vassoc_entries<T: View>(xs: Seq<(String, T)>, key: Seq<char>)
    ensures
        vassoc(entries_view(xs), key) == match assoc_find(xs, key) {
            Some(i) => Some(xs[i].1@),
            None => None::<T::V>,
        },
    decreases xs,
{
    if xs.len() == 0 {
        assert(entries_view(xs) =~= Seq::<(Seq<char>, T::V)>::empty());
    } else {
        lemma_vassoc_entries(xs.drop_first(), key);
        assert(entries_view(xs).drop_first() =~= entries_view(xs.drop_first()));
        assert(entries_view(xs)[0] == (xs[0].0@, xs[0].1@));
        if xs[0].0@ != key {
            lemma_assoc_find(xs.drop_first(), key);
            match assoc_find(xs.drop_first(), key) {
                Some(i) => {
                    assert(xs.drop_first()[i] == xs[i + 1]);
                },
                None => {},
            }
        }
    }
}

/// Index of the first entry of an association list with the given name.
pub open spec fn assoc_find<T>(xs: Seq<(String, T)>, key: Seq<char>) -> Option<int>
    decreases xs,
{
    if xs.len() == 0 {
        None
    } else if xs[0].0@ == key {
        Some(0)
    } else {
        match assoc_find(xs.drop_first(), key) {
            Some(i) => Some(i + 1),
            None => None,
        }
    }
}

/// [`assoc_find`] returns an in-range index of a matching name, and `None`
/// only when no name matches.
pub proof fn lemma_assoc_find<T>(xs: Seq<(String, T)>, key: Seq<char>)
    ensures
        match assoc_find(xs, key) {
            Some(i) => 0 <= i < xs.len() && xs[i].0@ == key && forall|j: int|
                0 <= j < i ==> xs[j].0@ != key,
            None => forall|j: int| 0 <= j < xs.len() ==> xs[j].0@ != key,
        },
    decreases xs,
{
    if xs.len() > 0 && xs[0].0@ != key {
        lemma_assoc_find(xs.drop_first(), key);
        match assoc_find(xs.drop_first(), key) {
            Some(i) => {
                assert(xs.drop_first()[i] == xs[i + 1]);
                assert forall|j: int| 0 <= j < i + 1 implies xs[j].0@ != key by {
                    if j > 0 {
                        assert(xs.drop_first()[j - 1] == xs[j]);
                    }
                }
            },
            None => {
                assert forall|j: int| 0 <= j < xs.len() implies xs[j].0@ != key by {
                    if j > 0 {
                        assert(xs.drop_first()[j - 1] == xs[j]);
                    }
                }
            },
        }
    }
}

/// Finds the first entry with the given name in an association list.
pub fn assoc_index<T>(xs: &Vec<(String, T)>, key: &str) -> (r: Option<usize>)
    ensures
        match r {
            Some(i) => assoc_find(xs@, key@) == Some(i as int),
            None => assoc_find(xs@, key@) is None,
        },
{
    proof {
        lemma_assoc_find(xs@, key@);
    }
    let n = xs.len();
    let mut i: usize = 0;
    while i < n
        invariant
            n == xs.len(),
            i <= n,
            forall|j: int| 0 <= j < i ==> xs@[j].0@ != key@,
        decreases n - i,
    {
        if str_eq(xs[i].0.as_str(), key) {
            proof {
                lemma_assoc_find_found(xs@, key@, i as int);
            }
            return Some(i);
        }
        i = i + 1;
    }
    proof {
        lemma_assoc_find(xs@, key@);
        if assoc_find(xs@, key@) is Some {
            let i = assoc_find(xs@, key@)->0;
            assert(xs@[i].0@ != key@);
        }
    }
    None
}

/// A scan that found the first match at `i` agrees with [`assoc_find`].
proof fn lemma_assoc_find_found<T>(xs: Seq<(String, T)>, key: Seq<char>, i: int)
    requires
        0 <= i < xs.len(),
        xs[i].0@ == key,
        forall|j: int| 0 <= j < i ==> xs[j].0@ != key,
    ensures
        assoc_find(xs, key) == Some(i),
    decreases xs,
{
    if i > 0 {
        assert forall|j: int| 0 <= j < i - 1 implies xs.drop_first()[j].0@ != key by {
            assert(xs.drop_first()[j] == xs[j + 1]);
        }
        assert(xs.drop_first()[i - 1] == xs[i]);
        lemma_assoc_find_found(xs.drop_first(), key, i - 1);
    }
}

/// [`props_view`] is the member-wise view.
pub proof fn lemma_props_view(xs: Seq<(String, ObjectOrReference<Schema>)>)
    ensures
        props_view(xs).len() == xs.len(),
        forall|i: int| 0 <= i < xs.len() ==> props_view(xs)[i] == (xs[i].0@, xs[i].1@),
    decreases xs,
{
    if xs.len() == 0 {
        assert(props_view(xs) == Seq::<(Seq<char>, SchemaOrRefV)>::empty());
    } else {
        assert(props_view(xs) == seq![(xs[0].0@, xs[0].1@)] + props_view(xs.drop_first()));
        lemma_props_view(xs.drop_first());
        assert forall|i: int| 0 <= i < xs.len() implies props_view(xs)[i] == (
            xs[i].0@,
            xs[i].1@,
        ) by {
            if i > 0 {
                assert(props_view(xs.drop_first())[i - 1] == (
                    xs.drop_first()[i - 1].0@,
                    xs.drop_first()[i - 1].1@,
                ));
            }
        }
    }
}

} // verus!
