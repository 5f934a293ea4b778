//! `$ref` handling: the reference grammar `source#/components/<kind>/<name>`,
//! the kinds of referents, and resolution of references against the document.

use vstd::prelude::*;

use crate::chars::str_eq;
use crate::model::{
    assoc_find, assoc_index, entries_view, lemma_assoc_find, lemma_vassoc_entries, vassoc,
    ObjectOrReference, Parameter, ParameterV, RefOrV, RequestBody, RequestBodyV, Response,
    ResponseV, Schema, SchemaOrRefV, SchemaV, Spec, SpecV,
};
use crate::pointer::Pointer;

verus! {

/// What kind of component a reference names.
#[derive(Debug, Clone, Copy, PartialEq, Eq, Structural)]
pub enum RefType {
    Schema,
    Response,
    Parameter,
    Example,
    RequestBody,
    Header,
    SecurityScheme,
    Link,
    Callback,
}

/// Why a reference could not be followed.
#[derive(Debug)]
pub enum RefError {
    InvalidType(String),
    MismatchedType(RefType, RefType),
    Unresolvable(String),
}

/// The component kind named by a components-section token.
pub open spec fn ref_type_of(s: Seq<char>) -> Option<RefType> {
    if s == "schemas"@ {
        Some(RefType::Schema)
    } else if s == "responses"@ {
        Some(RefType::Response)
    } else if s == "parameters"@ {
        Some(RefType::Parameter)
    } else if s == "examples"@ {
        Some(RefType::Example)
    } else if s == "requestBodies"@ {
        Some(RefType::RequestBody)
    } else if s == "headers"@ {
        Some(RefType::Header)
    } else if s == "securitySchemes"@ {
        Some(RefType::SecurityScheme)
    } else if s == "links"@ {
        Some(RefType::Link)
    } else if s == "callbacks"@ {
        Some(RefType::Callback)
    } else {
        None
    }
}

impl RefType {
    /// Reads a component kind from its section token; an unknown token is
    /// an [`RefError::InvalidType`] error carrying that token.
    pub fn from_str(typ: &str) -> (r: Result<RefType, RefError>)
        ensures
            match r {
                Ok(k) => ref_type_of(typ@) == Some(k),
                Err(e) => ref_type_of(typ@) is None && (e matches RefError::InvalidType(t)
                    && t@ == typ@),
            },
    {
        if str_eq(typ, "schemas") {
            Ok(RefType::Schema)
        } else if str_eq(typ, "responses") {
            Ok(RefType::Response)
        } else if str_eq(typ, "parameters") {
            Ok(RefType::Parameter)
        } else if str_eq(typ, "examples") {
            Ok(RefType::Example)
        } else if str_eq(typ, "requestBodies") {
            Ok(RefType::RequestBody)
        } else if str_eq(typ, "headers") {
            Ok(RefType::Header)
        } else if str_eq(typ, "securitySchemes") {
            Ok(RefType::SecurityScheme)
        } else if str_eq(typ, "links") {
            Ok(RefType::Link)
        } else if str_eq(typ, "callbacks") {
            Ok(RefType::Callback)
        } else {
            Err(RefError::InvalidType(typ.to_owned()))
        }
    }
}

/// Index of the first `#` in a sequence, or its length when there is none.
pub open spec fn find_hash(s: Seq<char>) -> int
    decreases s.len(),
{
    if s.len() == 0 {
        0
    } else if s[0] == '#' {
        0
    } else {
        1 + find_hash(s.drop_first())
    }
}

/// A scan that stopped at the first `#`, or at the end, found [`find_hash`].
proof fn lemma_find_first_hash(s: Seq<char>, k: int)
    requires
        0 <= k <= s.len(),
        forall|j: int| 0 <= j < k ==> s[j] != '#',
        k < s.len() ==> s[k] == '#',
    ensures
        find_hash(s) == k,
    decreases s.len(),
{
    if s.len() > 0 && s[0] != '#' {
        let t = s.drop_first();
        assert forall|j: int| 0 <= j < k - 1 implies t[j] != '#' by {
            assert(t[j] == s[j + 1]);
        }
        if k - 1 < t.len() {
            assert(t[k - 1] == s[k]);
        }
        lemma_find_first_hash(t, k - 1);
    }
}

/// Index of the first `/` in a sequence, or its length when there is none.
pub open spec fn find_slash_at(s: Seq<char>) -> int
    decreases s.len(),
{
    if s.len() == 0 {
        0
    } else if s[0] == '/' {
        0
    } else {
        1 + find_slash_at(s.drop_first())
    }
}

proof fn lemma_find_first_slash_at(s: Seq<char>, k: int)
    requires
        0 <= k <= s.len(),
        forall|j: int| 0 <= j < k ==> s[j] != '/',
        k < s.len() ==> s[k] == '/',
    ensures
        find_slash_at(s) == k,
    decreases s.len(),
{
    if s.len() > 0 && s[0] != '/' {
        let t = s.drop_first();
        assert forall|j: int| 0 <= j < k - 1 implies t[j] != '/' by {
            assert(t[j] == s[j + 1]);
        }
        if k - 1 < t.len() {
            assert(t[k - 1] == s[k]);
        }
        lemma_find_first_slash_at(t, k - 1);
    }
}

/// The parts of a reference text `source#/components/<kind>/<name>`:
/// the source document, the section token, and the component name.
pub open spec fn parse_ref_text(s: Seq<char>) -> Option<(Seq<char>, Seq<char>, Seq<char>)> {
    let h = find_hash(s);
    if h == s.len() {
        None
    } else {
        let source = s.take(h);
        let rest = s.skip(h + 1);
        if !(rest.len() >= 12 && rest.take(12) == "/components/"@) {
            None
        } else {
            let tail = rest.skip(12);
            let k = find_slash_at(tail);
            if k == 0 || k >= tail.len() || tail.len() - (k + 1) == 0 {
                None
            } else {
                Some((source, tail.take(k), tail.skip(k + 1)))
            }
        }
    }
}

/// A parsed reference: where it points, split into its parts.
#[derive(Debug)]
pub struct Ref {
    pub source: String,
    pub kind: RefType,
    pub name: String,
}

impl Ref {
    /// Splits a reference text into source, kind and name. A text not of
    /// the form `source#/components/<kind>/<name>` is unresolvable; a kind
    /// token that names no component kind is invalid.
    pub fn from_str(path: &str) -> (r: Result<Ref, RefError>)
        ensures
            match r {
                Ok(rf) => {
                    &&& parse_ref_text(path@) is Some
                    &&& rf.source@ == parse_ref_text(path@)->Some_0.0
                    &&& Some(rf.kind) == ref_type_of(parse_ref_text(path@)->Some_0.1)
                    &&& rf.name@ == parse_ref_text(path@)->Some_0.2
                },
                Err(e) => match e {
                    RefError::Unresolvable(p) => parse_ref_text(path@) is None && p@ == path@,
                    RefError::InvalidType(t) => parse_ref_text(path@) is Some && t@
                        == parse_ref_text(path@)->Some_0.1 && ref_type_of(t@) is None,
                    _ => false,
                },
            },
    {
        let n = path.unicode_len();
        let mut h: usize = 0;
        while h < n && path.get_char(h) != '#'
            invariant
                n == path@.len(),
                h <= n,
                forall|j: int| 0 <= j < h ==> path@[j] != '#',
            decreases n - h,
        {
            h = h + 1;
        }
        proof {
            lemma_find_first_hash(path@, h as int);
        }
        if h == n {
            return Err(RefError::Unresolvable(path.to_owned()));
        }
        let rest = path.substring_char(h + 1, n);
        proof {
            assert(rest@ =~= path@.skip(h + 1));
        }
        let rn = rest.unicode_len();
        if rn < 12 {
            return Err(RefError::Unresolvable(path.to_owned()));
        }
        let prefix = rest.substring_char(0, 12);
        proof {
            assert(prefix@ =~= rest@.take(12));
        }
        if !str_eq(prefix, "/components/") {
            return Err(RefError::Unresolvable(path.to_owned()));
        }
        let tail = rest.substring_char(12, rn);
        proof {
            assert(tail@ =~= rest@.skip(12));
        }
        let tn = tail.unicode_len();
        let mut k: usize = 0;
        while k < tn && tail.get_char(k) != '/'
            invariant
                tn == tail@.len(),
                k <= tn,
                forall|j: int| 0 <= j < k ==> tail@[j] != '/',
            decreases tn - k,
        {
            k = k + 1;
        }
        proof {
            lemma_find_first_slash_at(tail@, k as int);
        }
        if k == 0 || k >= tn || tn - (k + 1) == 0 {
            return Err(RefError::Unresolvable(path.to_owned()));
        }
        let kind_text = tail.substring_char(0, k);
        let name_text = tail.substring_char(k + 1, tn);
        proof {
            assert(kind_text@ =~= tail@.take(k as int));
            assert(name_text@ =~= tail@.skip(k + 1));
        }
        let source = path.substring_char(0, h);
        proof {
            assert(source@ =~= path@.take(h as int));
        }
        match RefType::from_str(kind_text) {
            Ok(kind) => Ok(Ref { source: source.to_owned(), kind, name: name_text.to_owned() }),
            Err(e) => Err(e),
        }
    }
}

/// A type whose values can be found in `components` through a `$ref`.
pub trait FromRef: View + Sized {
    /// The referent of a pointer in the document, when it names an inline
    /// component of this type.
    spec fn spec_from_ref(spec: SpecV, path: Seq<Seq<char>>) -> Option<Self::V>;

    /// Follows a reference pointer to its inline definition.
    fn from_ref<'a>(spec: &'a Spec, path: &Pointer) -> (r: Result<&'a Self, RefError>)
        ensures
            match r {
                Ok(t) => Self::spec_from_ref(spec@, path@) == Some(t@),
                Err(_) => Self::spec_from_ref(spec@, path@) is None,
            },
    ;
}

impl FromRef for Parameter {
    open spec fn spec_from_ref(spec: SpecV, path: Seq<Seq<char>>) -> Option<ParameterV> {
        if path.len() == 3 && path[0] == "components"@ && path[1] == "parameters"@ {
            match vassoc(spec.components.parameters, path[2]) {
                Some(RefOrV::Inline(p)) => Some(p),
                _ => None,
            }
        } else {
            None
        }
    }

    fn from_ref<'a>(spec: &'a Spec, path: &Pointer) -> (r: Result<&'a Self, RefError>) {
        if path.len() != 3 || !str_eq(path.token(0).as_str(), "components") {
            return Err(RefError::Unresolvable(path.to_text()));
        }
        if !str_eq(path.token(1).as_str(), "parameters") {
            return match RefType::from_str(path.token(1).as_str()) {
                Ok(k) => Err(RefError::MismatchedType(k, RefType::Parameter)),
                Err(e) => Err(e),
            };
        }
        proof {
            lemma_vassoc_entries(spec.components.parameters@, path@[2]);
            lemma_assoc_find(spec.components.parameters@, path@[2]);
        }
        match assoc_index(&spec.components.parameters, path.token(2).as_str()) {
            Some(i) => match &spec.components.parameters[i].1 {
                ObjectOrReference::Object(p) => Ok(p),
                ObjectOrReference::Ref { .. } => Err(RefError::Unresolvable(path.to_text())),
            },
            None => Err(RefError::Unresolvable(path.to_text())),
        }
    }
}

impl FromRef for RequestBody {
    open spec fn spec_from_ref(spec: SpecV, path: Seq<Seq<char>>) -> Option<RequestBodyV> {
        if path.len() == 3 && path[0] == "components"@ && path[1] == "requestBodies"@ {
            match vassoc(spec.components.request_bodies, path[2]) {
                Some(RefOrV::Inline(b)) => Some(b),
                _ => None,
            }
        } else {
            None
        }
    }

    fn from_ref<'a>(spec: &'a Spec, path: &Pointer) -> (r: Result<&'a Self, RefError>) {
        if path.len() != 3 || !str_eq(path.token(0).as_str(), "components") {
            return Err(RefError::Unresolvable(path.to_text()));
        }
        if !str_eq(path.token(1).as_str(), "requestBodies") {
            return match RefType::from_str(path.token(1).as_str()) {
                Ok(k) => Err(RefError::MismatchedType(k, RefType::RequestBody)),
                Err(e) => Err(e),
            };
        }
        proof {
            lemma_vassoc_entries(spec.components.request_bodies@, path@[2]);
            lemma_assoc_find(spec.components.request_bodies@, path@[2]);
        }
        match assoc_index(&spec.components.request_bodies, path.token(2).as_str()) {
            Some(i) => match &spec.components.request_bodies[i].1 {
                ObjectOrReference::Object(b) => Ok(b),
                ObjectOrReference::Ref { .. } => Err(RefError::Unresolvable(path.to_text())),
            },
            None => Err(RefError::Unresolvable(path.to_text())),
        }
    }
}

impl FromRef for Response {
    open spec fn spec_from_ref(spec: SpecV, path: Seq<Seq<char>>) -> Option<ResponseV> {
        if path.len() == 3 && path[0] == "components"@ && path[1] == "responses"@ {
            match vassoc(spec.components.responses, path[2]) {
                Some(RefOrV::Inline(v)) => Some(v),
                _ => None,
            }
        } else {
            None
        }
    }

    fn from_ref<'a>(spec: &'a Spec, path: &Pointer) -> (r: Result<&'a Self, RefError>) {
        if path.len() != 3 || !str_eq(path.token(0).as_str(), "components") {
            return Err(RefError::Unresolvable(path.to_text()));
        }
        if !str_eq(path.token(1).as_str(), "responses") {
            return match RefType::from_str(path.token(1).as_str()) {
                Ok(k) => Err(RefError::MismatchedType(k, RefType::Response)),
                Err(e) => Err(e),
            };
        }
        proof {
            lemma_vassoc_entries(spec.components.responses@, path@[2]);
            lemma_assoc_find(spec.components.responses@, path@[2]);
        }
        match assoc_index(&spec.components.responses, path.token(2).as_str()) {
            Some(i) => match &spec.components.responses[i].1 {
                ObjectOrReference::Object(v) => Ok(v),
                ObjectOrReference::Ref { .. } => Err(RefError::Unresolvable(path.to_text())),
            },
            None => Err(RefError::Unresolvable(path.to_text())),
        }
    }
}

impl FromRef for Schema {
    open spec fn spec_from_ref(spec: SpecV, path: Seq<Seq<char>>) -> Option<SchemaV> {
        if path.len() == 3 && path[0] == "components"@ && path[1] == "schemas"@ {
            match vassoc(spec.components.schemas, path[2]) {
                Some(SchemaOrRefV::Inline(s)) => Some(*s),
                _ => None,
            }
        } else {
            None
        }
    }

    fn from_ref<'a>(spec: &'a Spec, path: &Pointer) -> (r: Result<&'a Self, RefError>) {
        if path.len() != 3 || !str_eq(path.token(0).as_str(), "components") {
            return Err(RefError::Unresolvable(path.to_text()));
        }
        if !str_eq(path.token(1).as_str(), "schemas") {
            return match RefType::from_str(path.token(1).as_str()) {
                Ok(k) => Err(RefError::MismatchedType(k, RefType::Schema)),
                Err(e) => Err(e),
            };
        }
        proof {
            lemma_vassoc_entries(spec.components.schemas@, path@[2]);
            lemma_assoc_find(spec.components.schemas@, path@[2]);
        }
        match assoc_index(&spec.components.schemas, path.token(2).as_str()) {
            Some(i) => match &spec.components.schemas[i].1 {
                ObjectOrReference::Object(s) => Ok(s),
                ObjectOrReference::Ref { .. } => Err(RefError::Unresolvable(path.to_text())),
            },
            None => Err(RefError::Unresolvable(path.to_text())),
        }
    }
}

impl<T> ObjectOrReference<T> {
    /// The inline value, when this is not a reference.
    pub fn object(&self) -> (r: Option<&T>)
        ensures
            match r {
                Some(t) => self matches ObjectOrReference::Object(o) && t == o,
                None => self is Ref,
            },
    {
        match self {
            ObjectOrReference::Object(v) => Some(v),
            ObjectOrReference::Ref { .. } => None,
        }
    }

    /// The reference pointer, when this is a reference.
    pub fn reference(&self) -> (r: Option<&Pointer>)
        ensures
            match r {
                Some(p) => self matches ObjectOrReference::Ref { ref_path } && p == ref_path,
                None => self is Object,
            },
    {
        match self {
            ObjectOrReference::Ref { ref_path } => Some(ref_path),
            ObjectOrReference::Object(_) => None,
        }
    }
}

impl<T: FromRef> ObjectOrReference<T> {
    /// The inline value, following the reference through the document when
    /// there is one.
    pub fn resolve<'a>(&'a self, spec: &'a Spec) -> (r: Result<&'a T, RefError>)
        ensures
            match r {
                Ok(t) => match self {
                    ObjectOrReference::Object(o) => t == o,
                    ObjectOrReference::Ref { ref_path } => T::spec_from_ref(spec@, ref_path@)
                        == Some(t@),
                },
                Err(_) => self matches ObjectOrReference::Ref { ref_path } && T::spec_from_ref(
                    spec@,
                    ref_path@,
                ) is None,
            },
    {
        match self {
            ObjectOrReference::Object(component) => Ok(component),
            ObjectOrReference::Ref { ref_path } => T::from_ref(spec, ref_path),
        }
    }
}

} // verus!
