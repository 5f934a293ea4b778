//! The generated petstore API, as this generator emits it: the named
//! types, the response envelopes, the capability traits, and verified
//! JSON codecs that mirror the serialization the emitted derives declare —
//! field order kept, an absent optional as `null`, composite records
//! flattened into one object.

use vstd::prelude::*;

use crate::chars::{
    dec_int_of, i64_to_string, i64_value, lemma_dec_int_roundtrip, parse_i64, parses_as_i64,
};
use crate::json::{lemma_members_view, members_view, obj_get, obj_lookup, Json, JsonV};

verus! {

/// A pet as it is created: a name and an optional tag.
#[derive(Debug, Clone, PartialEq)]
pub struct NewPet {
    pub name: String,
    pub tag: Option<String>,
}

pub struct NewPetV {
    pub name: Seq<char>,
    pub tag: Option<Seq<char>>,
}

impl View for NewPet {
    type V = NewPetV;

    open spec fn view(&self) -> NewPetV {
        NewPetV {
            name: self.name@,
            tag: match self.tag {
                Some(ref t) => Some(t@),
                None => None,
            },
        }
    }
}

/// The identifying half of a stored pet.
#[derive(Debug, Clone, PartialEq)]
pub struct PetV1 {
    pub id: i64,
}

pub struct PetV1V {
    pub id: int,
}

impl View for PetV1 {
    type V = PetV1V;

    open spec fn view(&self) -> PetV1V {
        PetV1V { id: self.id as int }
    }
}

/// A stored pet: the `allOf` of [`NewPet`] and [`PetV1`], flattened.
#[derive(Debug, Clone, PartialEq)]
pub struct Pet {
    pub v0: NewPet,
    pub v1: PetV1,
}

pub struct PetV {
    pub v0: NewPetV,
    pub v1: PetV1V,
}

impl View for Pet {
    type V = PetV;

    open spec fn view(&self) -> PetV {
        PetV { v0: self.v0@, v1: self.v1@ }
    }
}

/// An API error: a code and a message.
#[derive(Debug, Clone, PartialEq)]
pub struct Error {
    pub code: i32,
    pub message: String,
}

pub struct ErrorV {
    pub code: int,
    pub message: Seq<char>,
}

impl View for Error {
    type V = ErrorV;

    open spec fn view(&self) -> ErrorV {
        ErrorV { code: self.code as int, message: self.message@ }
    }
}

/// The `findPets` response envelope.
#[derive(Debug, Clone, PartialEq)]
pub enum FindPetsResponse {
    S200(Vec<Pet>),
    Sdefault(Error),
}

/// The `addPet` response envelope.
#[derive(Debug, Clone, PartialEq)]
pub enum AddPetResponse {
    S200(Pet),
    Sdefault(Error),
}

/// The `find pet by id` response envelope.
#[derive(Debug, Clone, PartialEq)]
pub enum FindPetByIdResponse {
    S200(Pet),
    Sdefault(Error),
}

/// The `deletePet` response envelope.
#[derive(Debug, Clone, PartialEq)]
pub enum DeletePetResponse {
    S204,
    Sdefault(Error),
}

/// The synchronous face of the generated client capability: one method
/// per operation. The emitted client offers the same shape with futures.
pub trait Client {
    type Error;

    fn find_pets(&self) -> Result<FindPetsResponse, Self::Error>;

    fn add_pet(&self, body: NewPet) -> Result<AddPetResponse, Self::Error>;

    fn find_pet_by_id(&self, id: i64) -> Result<FindPetByIdResponse, Self::Error>;

    fn delete_pet(&self, id: i64) -> Result<DeletePetResponse, Self::Error>;
}

/// The synchronous face of the generated handler capability.
pub trait Handlers {
    type Error;

    fn find_pets(&mut self) -> Result<FindPetsResponse, Self::Error>;

    fn add_pet(&mut self, body: NewPet) -> Result<AddPetResponse, Self::Error>;

    fn find_pet_by_id(&mut self, id: i64) -> Result<FindPetByIdResponse, Self::Error>;

    fn delete_pet(&mut self, id: i64) -> Result<DeletePetResponse, Self::Error>;
}

/// An undeclared status code, as the generated client reports it.
#[derive(Debug, Clone, PartialEq)]
pub struct UnexpectedResponse {
    pub method: String,
    pub url: String,
    pub status_code: u16,
}

impl UnexpectedResponse {
    /// The status code carried.
    pub fn status(&self) -> (r: u16)
        ensures
            r == self.status_code,
    {
        self.status_code
    }
}

/// The members a [`NewPet`] serializes to, in field order; an absent tag
/// serializes as `null`.
pub open spec fn new_pet_members(p: NewPetV) -> Seq<(Seq<char>, JsonV)> {
    seq![("name"@, JsonV::Text(p.name))] + seq![
        (
            "tag"@,
            match p.tag {
                Some(t) => JsonV::Text(t),
                None => JsonV::Null,
            },
        ),
    ]
}

/// The members a [`PetV1`] serializes to.
pub open spec fn pet_v1_members(p: PetV1V) -> Seq<(Seq<char>, JsonV)> {
    seq![("id"@, JsonV::Number(dec_int_of(p.id)))]
}

/// The members an [`Error`] serializes to.
pub open spec fn error_members(e: ErrorV) -> Seq<(Seq<char>, JsonV)> {
    seq![("code"@, JsonV::Number(dec_int_of(e.code)))] + seq![("message"@, JsonV::Text(e.message))]
}

pub open spec fn new_pet_json(p: NewPetV) -> JsonV {
    JsonV::Obj(new_pet_members(p))
}

pub open spec fn pet_v1_json(p: PetV1V) -> JsonV {
    JsonV::Obj(pet_v1_members(p))
}

/// A flattened record serializes to the merge of its branches' objects.
pub open spec fn pet_json(p: PetV) -> JsonV {
    JsonV::Obj(new_pet_members(p.v0) + pet_v1_members(p.v1))
}

pub open spec fn error_json(e: ErrorV) -> JsonV {
    JsonV::Obj(error_members(e))
}

/// The object whose members are those of `a` followed by those of `b`.
pub open spec fn merge_objects(a: JsonV, b: JsonV) -> JsonV {
    match (a, b) {
        (JsonV::Obj(ma), JsonV::Obj(mb)) => JsonV::Obj(ma + mb),
        _ => JsonV::Null,
    }
}

/// What a [`NewPet`] deserializes from: a `name` text, and a `tag` that
/// is a text, `null`, or absent.
pub open spec fn new_pet_of_json(j: JsonV) -> Option<NewPetV> {
    match j {
        JsonV::Obj(ms) => {
            let name = match obj_lookup(ms, "name"@) {
                Some(JsonV::Text(s)) => Some(s),
                _ => None,
            };
            let tag = match obj_lookup(ms, "tag"@) {
                Some(JsonV::Text(t)) => Some(Some(t)),
                Some(JsonV::Null) => Some(None),
                None => Some(None),
                Some(_) => None,
            };
            if name is Some && tag is Some {
                Some(NewPetV { name: name->0, tag: tag->0 })
            } else {
                None
            }
        },
        _ => None,
    }
}

pub open spec fn pet_v1_of_json(j: JsonV) -> Option<PetV1V> {
    match j {
        JsonV::Obj(ms) => match obj_lookup(ms, "id"@) {
            Some(JsonV::Number(s)) => if parses_as_i64(s) {
                Some(PetV1V { id: i64_value(s) })
            } else {
                None
            },
            _ => None,
        },
        _ => None,
    }
}

/// A flattened record deserializes each branch from the whole object.
pub open spec fn pet_of_json(j: JsonV) -> Option<PetV> {
    match (new_pet_of_json(j), pet_v1_of_json(j)) {
        (Some(v0), Some(v1)) => Some(PetV { v0, v1 }),
        _ => None,
    }
}

pub open spec fn error_of_json(j: JsonV) -> Option<ErrorV> {
    match j {
        JsonV::Obj(ms) => {
            let code = match obj_lookup(ms, "code"@) {
                Some(JsonV::Number(s)) => if parses_as_i64(s) && -0x8000_0000 <= i64_value(s)
                    < 0x8000_0000 {
                    Some(i64_value(s))
                } else {
                    None
                },
                _ => None,
            };
            let message = match obj_lookup(ms, "message"@) {
                Some(JsonV::Text(s)) => Some(s),
                _ => None,
            };
            if code is Some && message is Some {
                Some(ErrorV { code: code->0, message: message->0 })
            } else {
                None
            }
        },
        _ => None,
    }
}

impl NewPet {
    /// This value as the JSON the generated type serializes to.
    pub fn to_json(&self) -> (r: Json)
        ensures
            r@ == new_pet_json(self@),
    {
        let mut ms: Vec<(String, Json)> = Vec::new();
        ms.push(("name".to_owned(), Json::Text(self.name.clone())));
        let tag_json: Json = match &self.tag {
            Some(t) => Json::Text(t.clone()),
            None => Json::Null,
        };
        ms.push(("tag".to_owned(), tag_json));
        let r = Json::Obj(ms);
        proof {
            lemma_members_view(ms@);
            assert(members_view(ms@) =~= new_pet_members(self@));
        }
        r
    }

    /// The value a generated [`NewPet`] deserializes from such JSON.
    pub fn from_json(j: &Json) -> (r: Option<NewPet>)
        ensures
            match r {
                Some(p) => new_pet_of_json(j@) == Some(p@),
                None => new_pet_of_json(j@) is None,
            },
    {
        match j {
            Json::Obj(ms) => {
                let name: String = match obj_get(ms, "name") {
                    Some(Json::Text(s)) => s.clone(),
                    _ => {
                        return None;
                    },
                };
                let tag: Option<String> = match obj_get(ms, "tag") {
                    Some(Json::Text(t)) => Some(t.clone()),
                    Some(Json::Null) => None,
                    None => None,
                    Some(_) => {
                        return None;
                    },
                };
                Some(NewPet { name, tag })
            },
            _ => None,
        }
    }
}

impl PetV1 {
    /// This value as the JSON the generated type serializes to.
    pub fn to_json(&self) -> (r: Json)
        ensures
            r@ == pet_v1_json(self@),
    {
        let mut ms: Vec<(String, Json)> = Vec::new();
        ms.push(("id".to_owned(), Json::Number(i64_to_string(self.id))));
        let r = Json::Obj(ms);
        proof {
            lemma_members_view(ms@);
            assert(members_view(ms@) =~= pet_v1_members(self@));
        }
        r
    }

    /// The value a generated [`PetV1`] deserializes from such JSON.
    pub fn from_json(j: &Json) -> (r: Option<PetV1>)
        ensures
            match r {
                Some(p) => pet_v1_of_json(j@) == Some(p@),
                None => pet_v1_of_json(j@) is None,
            },
    {
        match j {
            Json::Obj(ms) => match obj_get(ms, "id") {
                Some(Json::Number(s)) => match parse_i64(s.as_str()) {
                    Some(v) => Some(PetV1 { id: v }),
                    None => None,
                },
                _ => None,
            },
            _ => None,
        }
    }
}

impl Pet {
    /// This value as the JSON the generated type serializes to: the
    /// branches' members flattened into one object.
    pub fn to_json(&self) -> (r: Json)
        ensures
            r@ == pet_json(self@),
    {
        let mut ms: Vec<(String, Json)> = Vec::new();
        ms.push(("name".to_owned(), Json::Text(self.v0.name.clone())));
        let tag_json: Json = match &self.v0.tag {
            Some(t) => Json::Text(t.clone()),
            None => Json::Null,
        };
        ms.push(("tag".to_owned(), tag_json));
        ms.push(("id".to_owned(), Json::Number(i64_to_string(self.v1.id))));
        let r = Json::Obj(ms);
        proof {
            lemma_members_view(ms@);
            assert(members_view(ms@) =~= new_pet_members(self@.v0) + pet_v1_members(self@.v1));
        }
        r
    }

    /// The value a generated [`Pet`] deserializes from such JSON: each
    /// branch reads its fields from the whole object.
    pub fn from_json(j: &Json) -> (r: Option<Pet>)
        ensures
            match r {
                Some(p) => pet_of_json(j@) == Some(p@),
                None => pet_of_json(j@) is None,
            },
    {
        let v0 = match NewPet::from_json(j) {
            Some(v) => v,
            None => {
                return None;
            },
        };
        let v1 = match PetV1::from_json(j) {
            Some(v) => v,
            None => {
                return None;
            },
        };
        Some(Pet { v0, v1 })
    }
}

impl Error {
    /// This value as the JSON the generated type serializes to.
    pub fn to_json(&self) -> (r: Json)
        ensures
            r@ == error_json(self@),
    {
        let mut ms: Vec<(String, Json)> = Vec::new();
        ms.push(("code".to_owned(), Json::Number(i64_to_string(self.code as i64))));
        ms.push(("message".to_owned(), Json::Text(self.message.clone())));
        let r = Json::Obj(ms);
        proof {
            lemma_members_view(ms@);
            assert(members_view(ms@) =~= error_members(self@));
        }
        r
    }

    /// The value a generated [`Error`] deserializes from such JSON.
    pub fn from_json(j: &Json) -> (r: Option<Error>)
        ensures
            match r {
                Some(e) => error_of_json(j@) == Some(e@),
                None => error_of_json(j@) is None,
            },
    {
        match j {
            Json::Obj(ms) => {
                let code: i32 = match obj_get(ms, "code") {
                    Some(Json::Number(s)) => match parse_i64(s.as_str()) {
                        Some(v) => {
                            if -0x8000_0000i64 <= v && v < 0x8000_0000i64 {
                                v as i32
                            } else {
                                return None;
                            }
                        },
                        None => {
                            return None;
                        },
                    },
                    _ => {
                        return None;
                    },
                };
                let message: String = match obj_get(ms, "message") {
                    Some(Json::Text(s)) => s.clone(),
                    _ => {
                        return None;
                    },
                };
                Some(Error { code, message })
            },
            _ => None,
        }
    }
}

/// Serializing and deserializing a [`NewPet`] loses nothing.
pub proof fn lemma_new_pet_round_trip(p: NewPetV)
    ensures
        new_pet_of_json(new_pet_json(p)) == Some(p),
{
    reveal_strlit("name");
    reveal_strlit("tag");
    let ms = new_pet_members(p);
    assert(ms[0].0 == "name"@);
    assert(obj_lookup(ms, "name"@) == Some(ms[0].1));
    assert("name"@ != "tag"@);
    assert(ms.drop_first() =~= seq![ms[1]]);
    assert(obj_lookup(ms, "tag"@) == obj_lookup(ms.drop_first(), "tag"@));
    assert(obj_lookup(ms.drop_first(), "tag"@) == Some(ms[1].1));
}

/// Serializing and deserializing a [`PetV1`] loses nothing, for every
/// identifier with a positive counterpart.
pub proof fn lemma_pet_v1_round_trip(p: PetV1V)
    requires
        -0x8000_0000_0000_0000 < p.id <= 0x7fff_ffff_ffff_ffff,
    ensures
        pet_v1_of_json(pet_v1_json(p)) == Some(p),
{
    let ms = pet_v1_members(p);
    assert(obj_lookup(ms, "id"@) == Some(ms[0].1));
    lemma_dec_int_roundtrip(p.id);
}

/// Round trip for the flattened [`Pet`] composite: deserializing its
/// serialization yields the same value.
pub proof fn lemma_pet_round_trip(p: PetV)
    requires
        -0x8000_0000_0000_0000 < p.v1.id <= 0x7fff_ffff_ffff_ffff,
    ensures
        pet_of_json(pet_json(p)) == Some(p),
{
    reveal_strlit("name");
    reveal_strlit("tag");
    reveal_strlit("id");
    let ms = new_pet_members(p.v0) + pet_v1_members(p.v1);
    assert(ms[0].0 == "name"@);
    assert(obj_lookup(ms, "name"@) == Some(ms[0].1));
    assert("name"@ != "tag"@);
    assert(ms.drop_first() =~= seq![ms[1], ms[2]]);
    assert(obj_lookup(ms, "tag"@) == obj_lookup(ms.drop_first(), "tag"@));
    assert(ms.drop_first()[0] == ms[1]);
    assert(ms[1].0 == "tag"@);
    assert(obj_lookup(ms.drop_first(), "tag"@) == Some(ms[1].1));
    assert(new_pet_of_json(JsonV::Obj(ms)) == Some(p.v0));
    assert("name"@.len() == 4);
    assert("tag"@.len() == 3);
    assert("id"@.len() == 2);
    assert("name"@ != "id"@);
    assert("tag"@ != "id"@);
    assert(ms.drop_first().drop_first() =~= seq![ms[2]]);
    assert(obj_lookup(ms, "id"@) == obj_lookup(ms.drop_first(), "id"@));
    assert(obj_lookup(ms.drop_first(), "id"@) == obj_lookup(ms.drop_first().drop_first(), "id"@));
    assert(ms[2].0 == "id"@);
    assert(obj_lookup(ms.drop_first().drop_first(), "id"@) == Some(ms[2].1));
    lemma_dec_int_roundtrip(p.v1.id);
    assert(pet_v1_of_json(JsonV::Obj(ms)) == Some(p.v1));
}

/// Serializing and deserializing an [`Error`] loses nothing, for codes in
/// the 32-bit range.
pub proof fn lemma_error_round_trip(e: ErrorV)
    requires
        -0x8000_0000 <= e.code < 0x8000_0000,
    ensures
        error_of_json(error_json(e)) == Some(e),
{
    reveal_strlit("code");
    reveal_strlit("message");
    let ms = error_members(e);
    assert(ms[0].0 == "code"@);
    assert(obj_lookup(ms, "code"@) == Some(ms[0].1));
    assert("code"@ != "message"@);
    assert(ms.drop_first() =~= seq![ms[1]]);
    assert(obj_lookup(ms, "message"@) == obj_lookup(ms.drop_first(), "message"@));
    assert(obj_lookup(ms.drop_first(), "message"@) == Some(ms[1].1));
    lemma_dec_int_roundtrip(e.code);
}

/// Serializing the flattened composite equals merging the serializations
/// of its branches.
pub proof fn lemma_pet_serializes_as_merge(p: PetV)
    ensures
        pet_json(p) == merge_objects(new_pet_json(p.v0), pet_v1_json(p.v1)),
{
}

} // verus!
