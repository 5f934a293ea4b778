//! End-to-end checks of the generator pipeline: analysis of a small
//! petstore document, naming, path parsing, and the emitted modules.

use oapi_rustgen::analyzer::Analyzer;
use oapi_rustgen::case::{to_pascal, to_snake};
use oapi_rustgen::client_writer::ClientWriter;
use oapi_rustgen::model::ParameterLocation;
use oapi_rustgen::pointer::Pointer;
use oapi_rustgen::refs::{Ref, RefError, RefType};
use oapi_rustgen::server_writer::ServerWriter;
use oapi_rustgen::types_writer::TypesWriter;
use oapi_rustgen::SegmentOrParameter;

const PETSTORE: &str =
    "{\"paths\": {\"/pets\": {\"get\": {\"operationId\": \"findPets\", \"responses\": {\"200\": {\"content\": {\"application/json\": {\"schema\": {\"type\": \"array\", \"items\": {\"$ref\": \"#/components/schemas/Pet\"}}}}}, \"default\": {\"content\": {\"application/json\": {\"schema\": {\"$ref\": \"#/components/schemas/Error\"}}}}}}}, \"/pets/{id}\": {\"delete\": {\"operationId\": \"deletePet\", \"parameters\": [{\"name\": \"id\", \"in\": \"path\", \"schema\": {\"type\": \"integer\", \"format\": \"int64\"}}], \"responses\": {\"204\": {}}}}}, \"components\": {\"schemas\": {\"Pet\": {\"allOf\": [{\"$ref\": \"#/components/schemas/NewPet\"}, {\"type\": \"object\", \"required\": [\"id\"], \"properties\": {\"id\": {\"type\": \"integer\", \"format\": \"int64\"}}}]}, \"NewPet\": {\"type\": \"object\", \"required\": [\"name\"], \"properties\": {\"name\": {\"type\": \"string\"}, \"tag\": {\"type\": \"string\"}}}, \"Error\": {\"type\": \"object\", \"required\": [\"code\", \"message\"], \"properties\": {\"code\": {\"type\": \"integer\", \"format\": \"int32\"}, \"message\": {\"type\": \"string\"}}}}}}";

fn contains(haystack: &str, needle: &str) -> bool {
    haystack.contains(needle)
}

#[test]
fn petstore_schema_names() {
    let analysis = Analyzer::new().run(PETSTORE).expect("analysis should succeed");
    let names: Vec<&str> = analysis.schemas().iter().map(|s| s.name()).collect();
    assert!(names.contains(&"Pet"));
    assert!(names.contains(&"PetV1"));
    assert!(names.contains(&"NewPet"));
    assert!(names.contains(&"Error"));
}

#[test]
fn petstore_locations_unique() {
    let analysis = Analyzer::new().run(PETSTORE).expect("analysis should succeed");
    let schemas = analysis.schemas();
    for i in 0..schemas.len() {
        for j in 0..schemas.len() {
            if i != j {
                assert!(!schemas[i].location().same_as(schemas[j].location()));
            }
        }
    }
}

#[test]
fn petstore_operations() {
    let analysis = Analyzer::new().run(PETSTORE).expect("analysis should succeed");
    let ops = analysis.operations().expect("operations should derive");
    assert_eq!(ops.len(), 2);
    assert_eq!(ops[0].name(), "find_pets");
    assert_eq!(ops[0].response(), "FindPetsResponse");
    assert!(ops[0].has_default_response());
    assert!(ops[0].has_any_response_body());
    assert!(ops[0].request_body().is_none());
    assert_eq!(ops[1].name(), "delete_pet");
    assert_eq!(ops[1].response(), "()");
    assert!(!ops[1].has_default_response());
    assert!(!ops[1].has_any_response_body());
    let pp = ops[1].path_params();
    assert_eq!(pp.len(), 1);
    assert_eq!(pp[0].0.as_str(), "id");
    assert_eq!(pp[0].1.schema_type(), "i64");
}

#[test]
fn operations_repeat_identically() {
    let analysis = Analyzer::new().run(PETSTORE).expect("analysis should succeed");
    let a = analysis.operations().expect("first derivation");
    let b = analysis.operations().expect("second derivation");
    assert_eq!(a.len(), b.len());
    for i in 0..a.len() {
        assert_eq!(a[i].name(), b[i].name());
        assert_eq!(a[i].response(), b[i].response());
        assert_eq!(a[i].path(), b[i].path());
    }
}

#[test]
fn path_parsing_shape() {
    let analysis = Analyzer::new().run(PETSTORE).expect("analysis should succeed");
    let ops = analysis.operations().expect("operations should derive");
    let expected = vec![
        SegmentOrParameter::Segment("".to_owned()),
        SegmentOrParameter::Segment("pets".to_owned()),
        SegmentOrParameter::Segment("".to_owned()),
        SegmentOrParameter::Parameter("id".to_owned()),
    ];
    assert_eq!(ops[1].path(), &expected);
}

#[test]
fn path_placeholders_have_parameters() {
    let analysis = Analyzer::new().run(PETSTORE).expect("analysis should succeed");
    let ops = analysis.operations().expect("operations should derive");
    for op in &ops {
        for el in op.path() {
            if let SegmentOrParameter::Parameter(p) = el {
                assert!(op.param_by_name(p, ParameterLocation::Path).is_some());
            }
        }
    }
    let id = ops[1].param_by_name("id", ParameterLocation::Path).expect("id parameter");
    assert_eq!(id.schema_type(), "i64");
}

#[test]
fn types_output_petstore() {
    let analysis = Analyzer::new().run(PETSTORE).expect("analysis should succeed");
    let text = TypesWriter::new(&analysis).write().expect("types should emit");
    assert!(contains(&text, "pub struct Pet {"));
    assert!(contains(&text, "#[serde(flatten)]\n    pub v0: NewPet,"));
    assert!(contains(&text, "#[serde(flatten)]\n    pub v1: PetV1,"));
    assert!(contains(&text, "pub struct PetV1 {"));
    assert!(contains(&text, "pub struct NewPet {"));
    assert!(contains(&text, "pub name: String,"));
    assert!(contains(&text, "pub tag: Option<String>,"));
    assert!(contains(&text, "pub enum FindPetsResponse {"));
    assert!(contains(&text, "    S200(Vec<Pet>),"));
    assert!(contains(&text, "    Sdefault(Error),"));
}

#[test]
fn client_output_petstore() {
    let analysis = Analyzer::new().run(PETSTORE).expect("analysis should succeed");
    let text = ClientWriter::new(&analysis).write().expect("client should emit");
    assert!(contains(
        &text,
        "async fn find_pets(&self) -> Result<FindPetsResponse, Self::Error>"
    ));
    assert!(contains(
        &text,
        "async fn delete_pet(&self, id: i64) -> Result<(), Self::Error>"
    ));
    assert!(contains(&text, "format!(\"{}/pets/{}\", self.base_url, id)"));
    assert!(contains(&text, "204 => Ok(()),"));
    assert!(contains(&text, "pub struct UnexpectedResponse"));
}

#[test]
fn server_output_petstore() {
    let analysis = Analyzer::new().run(PETSTORE).expect("analysis should succeed");
    let text = ServerWriter::new(&analysis).write().expect("server should emit");
    assert!(contains(&text, "pub trait Handlers {"));
    assert!(contains(&text, "if let &[\"pets\"] = path.as_slice() {"));
    assert!(contains(&text, "if let &[\"pets\", id] = path.as_slice() {"));
    assert!(contains(&text, "let id = i64::from_str(id).expect(\"should deserialize\");"));
    assert!(contains(&text, "StatusCode::from_u16(204)"));
    assert!(contains(&text, ".finish()"));
}

#[test]
fn nullable_inline_property() {
    let doc = "{\"components\": {\"schemas\": {\"X\": {\"type\": \"object\", \"required\": [\"note\"], \"properties\": {\"note\": {\"type\": \"string\", \"nullable\": true}}}}}}";
    let analysis = Analyzer::new().run(doc).expect("analysis should succeed");
    let text = TypesWriter::new(&analysis).write().expect("types should emit");
    assert!(contains(&text, "pub note: Option<String>,"));
}

#[test]
fn one_of_untagged_enum() {
    let doc = "{\"components\": {\"schemas\": {\"A\": {\"type\": \"object\", \"properties\": {}}, \"B\": {\"type\": \"object\", \"properties\": {}}, \"Kind\": {\"oneOf\": [{\"$ref\": \"#/components/schemas/A\"}, {\"$ref\": \"#/components/schemas/B\"}]}}}}";
    let analysis = Analyzer::new().run(doc).expect("analysis should succeed");
    let text = TypesWriter::new(&analysis).write().expect("types should emit");
    assert!(contains(&text, "#[serde(untagged)]\npub enum Kind {"));
    assert!(contains(&text, "    V0(A),"));
    assert!(contains(&text, "    V1(B),"));
}

#[test]
fn keyword_property_is_escaped() {
    let doc = "{\"components\": {\"schemas\": {\"Tagged\": {\"type\": \"object\", \"required\": [\"type\"], \"properties\": {\"type\": {\"type\": \"string\"}}}}}}";
    let analysis = Analyzer::new().run(doc).expect("analysis should succeed");
    let text = TypesWriter::new(&analysis).write().expect("types should emit");
    assert!(contains(&text, "#[serde(rename = \"type\")]"));
    assert!(contains(&text, "pub r#type: String,"));
}

#[test]
fn deserialization_error_is_reported() {
    let err = Analyzer::new().run("this is not json").err().expect("must fail");
    assert!(matches!(
        err,
        oapi_rustgen::analyzer::AnalysisError::Deserialization(_)
    ));
}

#[test]
fn missing_path_parameter_is_an_invariant_error() {
    let doc = "{\"paths\": {\"/pets/{id}\": {\"get\": {\"responses\": {\"204\": {}}}}}}";
    let analysis = Analyzer::new().run(doc).expect("analysis should succeed");
    let err = analysis.operations().err().expect("must fail");
    assert!(matches!(
        &err,
        oapi_rustgen::analyzer::AnalysisError::Invariant(_)
    ));
    assert!(err.message().contains("/pets/{id}"));
}

#[test]
fn case_conversion() {
    assert_eq!(to_pascal("findPets").as_str(), "FindPets");
    assert_eq!(to_pascal("find_pets").as_str(), "FindPets");
    assert_eq!(to_snake("findPets").as_str(), "find_pets");
    assert_eq!(to_snake("FindPets").as_str(), "find_pets");
}

#[test]
fn case_conversion_digit_and_acronym_boundaries() {
    assert_eq!(to_snake("pet2Tag").as_str(), "pet_2_tag");
    assert_eq!(to_snake("HTTPServer").as_str(), "http_server");
    assert_eq!(to_pascal("pet_2_tag").as_str(), "Pet2Tag");
    assert_eq!(to_pascal("HTTPServer").as_str(), "HttpServer");
}

#[test]
fn snake_case_is_idempotent_on_examples() {
    for name in ["findPets", "already_snake", "HTTPServer", "a-b c", "Type"] {
        let once = to_snake(name);
        let twice = to_snake(once.as_str());
        assert_eq!(once, twice);
    }
}

#[test]
fn pointer_text_escapes() {
    let mut p = Pointer::root();
    p.push_back("a/b".to_owned());
    p.push_back("c~d".to_owned());
    assert_eq!(p.to_text().as_str(), "/a~1b/c~0d");
}

#[test]
fn pointer_parse_fragment() {
    let p = Pointer::parse("#/components/schemas/Pet").expect("should parse");
    assert_eq!(p.len(), 3);
    assert_eq!(p.token(0).as_str(), "components");
    assert_eq!(p.token(1).as_str(), "schemas");
    assert_eq!(p.token(2).as_str(), "Pet");
    assert!(Pointer::parse("no-slash").is_none());
}

#[test]
fn reference_parsing() {
    let r = Ref::from_str("doc.json#/components/schemas/Pet").expect("should parse");
    assert_eq!(r.source.as_str(), "doc.json");
    assert!(matches!(r.kind, RefType::Schema));
    assert_eq!(r.name.as_str(), "Pet");
    assert!(matches!(
        Ref::from_str("no reference here"),
        Err(RefError::Unresolvable(_))
    ));
    assert!(matches!(
        Ref::from_str("#/components/bogus/Pet"),
        Err(RefError::InvalidType(_))
    ));
    assert!(matches!(
        RefType::from_str("responses"),
        Ok(RefType::Response)
    ));
}
