//! Round-trip and flattening checks of the petstore JSON codecs.

use oapi_rustgen::json::Json;
use oapi_rustgen::petstore::{Error, NewPet, Pet, PetV1};

fn sample_pet() -> Pet {
    Pet {
        v0: NewPet { name: "rex".to_owned(), tag: Some("dog".to_owned()) },
        v1: PetV1 { id: 7 },
    }
}

#[test]
fn pet_round_trips() {
    let pet = sample_pet();
    let json = pet.to_json();
    assert_eq!(Pet::from_json(&json), Some(pet));
}

#[test]
fn pet_without_tag_round_trips() {
    let pet = Pet { v0: NewPet { name: "ada".to_owned(), tag: None }, v1: PetV1 { id: -3 } };
    let json = pet.to_json();
    assert_eq!(Pet::from_json(&json), Some(pet));
}

#[test]
fn error_round_trips() {
    let e = Error { code: 404, message: "not found".to_owned() };
    let json = e.to_json();
    assert_eq!(Error::from_json(&json), Some(e));
}

#[test]
fn pet_serialization_is_the_merged_branches() {
    let pet = sample_pet();
    let merged = Json::Obj(vec![
        ("name".to_owned(), Json::Text("rex".to_owned())),
        ("tag".to_owned(), Json::Text("dog".to_owned())),
        ("id".to_owned(), Json::Number("7".to_owned())),
    ]);
    assert_eq!(Pet::from_json(&merged), Some(sample_pet()));
    let json = pet.to_json();
    match json {
        Json::Obj(members) => {
            assert_eq!(members.len(), 3);
            assert_eq!(members[0].0.as_str(), "name");
            assert_eq!(members[1].0.as_str(), "tag");
            assert_eq!(members[2].0.as_str(), "id");
            assert!(matches!(&members[2].1, Json::Number(s) if s.as_str() == "7"));
        },
        _ => panic!("a pet serializes to an object"),
    }
}

#[test]
fn new_pet_absent_tag_is_null() {
    let p = NewPet { name: "rex".to_owned(), tag: None };
    match p.to_json() {
        Json::Obj(members) => {
            assert_eq!(members.len(), 2);
            assert!(matches!(members[1].1, Json::Null));
        },
        _ => panic!("a new pet serializes to an object"),
    }
}
