use deeprecall::params::{id_or_text, ids_or_texts, parse_each};
use deeprecall::json::{Json, JsonNumber};
use deeprecall::params::{SqlParam, json_to_param, names_id, names_id_list, reinterpret_u64};

const ID: &str = "550e8400-e29b-41d4-a716-446655440000";
const ID_VALUE: u128 = 0x550e8400_e29b_41d4_a716_446655440000;

fn text(s: &str) -> Json {
    Json::String(s.to_string())
}

#[test]
fn null_is_typed_by_the_column_name() {
    assert_eq!(json_to_param("t", "id", &Json::Null), SqlParam::NullUuid);
    assert_eq!(json_to_param("t", "work_id", &Json::Null), SqlParam::NullUuid);
    assert_eq!(json_to_param("t", "asset_ids", &Json::Null), SqlParam::NullUuidList);
    assert_eq!(json_to_param("t", "title", &Json::Null), SqlParam::NullText);
    assert_eq!(json_to_param("t", "ids", &Json::Null), SqlParam::NullText);
    assert_eq!(json_to_param("t", "_id", &Json::Null), SqlParam::NullUuid);
    assert_eq!(json_to_param("t", "idx", &Json::Null), SqlParam::NullText);
}

#[test]
fn booleans_and_numbers_pass_through() {
    assert_eq!(json_to_param("t", "done", &Json::Bool(true)), SqlParam::Bool(true));
    assert_eq!(
        json_to_param("t", "n", &Json::Number(JsonNumber::PosInt(42))),
        SqlParam::Int(42)
    );
    assert_eq!(
        json_to_param("t", "n", &Json::Number(JsonNumber::NegInt(-7))),
        SqlParam::Int(-7)
    );
    let bits = 1.5f64.to_bits();
    assert_eq!(
        json_to_param("t", "n", &Json::Number(JsonNumber::Float(bits))),
        SqlParam::Float(bits)
    );
}

#[test]
fn unsigned_beyond_the_signed_range_wraps() {
    assert_eq!(reinterpret_u64(0), 0);
    assert_eq!(reinterpret_u64(i64::MAX as u64), i64::MAX);
    assert_eq!(reinterpret_u64(i64::MAX as u64 + 1), i64::MIN);
    assert_eq!(reinterpret_u64(u64::MAX), -1);
    assert_eq!(
        json_to_param("t", "n", &Json::Number(JsonNumber::PosInt(u64::MAX))),
        SqlParam::Int(-1)
    );
}

#[test]
fn identifier_columns_parse_identifiers() {
    assert_eq!(json_to_param("t", "id", &text(ID)), SqlParam::Uuid(ID_VALUE));
    assert_eq!(json_to_param("t", "work_id", &text(ID)), SqlParam::Uuid(ID_VALUE));
    assert_eq!(
        json_to_param("t", "id", &text("550E8400E29B41D4A716446655440000")),
        SqlParam::Uuid(ID_VALUE)
    );
}

#[test]
fn identifier_columns_keep_other_text() {
    assert_eq!(
        json_to_param("t", "device_id", &text("laptop")),
        SqlParam::Text("laptop".to_string())
    );
    assert_eq!(json_to_param("t", "id", &text("")), SqlParam::Text(String::new()));
}

#[test]
fn other_columns_keep_text() {
    assert_eq!(json_to_param("t", "title", &text(ID)), SqlParam::Text(ID.to_string()));
    assert_eq!(json_to_param("t", "identity", &text("x")), SqlParam::Text("x".to_string()));
}

#[test]
fn string_lists_become_lists() {
    let tags = Json::Array(vec![text("a"), text("b")]);
    assert_eq!(
        json_to_param("t", "tags", &tags),
        SqlParam::TextList(vec!["a".to_string(), "b".to_string()])
    );
    let ids = Json::Array(vec![text(ID), text("00000000-0000-0000-0000-000000000001")]);
    assert_eq!(json_to_param("t", "asset_ids", &ids), SqlParam::UuidList(vec![ID_VALUE, 1]));
    assert_eq!(
        json_to_param("t", "tags", &ids),
        SqlParam::TextList(vec![
            ID.to_string(),
            "00000000-0000-0000-0000-000000000001".to_string()
        ])
    );
}

#[test]
fn identifier_list_with_one_bad_text_stays_text() {
    let ids = Json::Array(vec![text(ID), text("nope")]);
    assert_eq!(
        json_to_param("t", "asset_ids", &ids),
        SqlParam::TextList(vec![ID.to_string(), "nope".to_string()])
    );
}

#[test]
fn empty_array_is_an_empty_string_list() {
    assert_eq!(json_to_param("t", "tags", &Json::Array(vec![])), SqlParam::TextList(vec![]));
    assert_eq!(json_to_param("t", "asset_ids", &Json::Array(vec![])), SqlParam::TextList(vec![]));
}

#[test]
fn mixed_arrays_and_objects_are_documents() {
    let mixed = Json::Array(vec![text("a"), Json::Number(JsonNumber::PosInt(1))]);
    assert_eq!(json_to_param("t", "tags", &mixed), SqlParam::Document(mixed.duplicate()));
    let nested = Json::Array(vec![Json::Array(vec![])]);
    assert_eq!(json_to_param("t", "asset_ids", &nested), SqlParam::Document(nested.duplicate()));
    let object = Json::Object(vec![("color".to_string(), text("red"))]);
    assert_eq!(json_to_param("t", "style", &object), SqlParam::Document(object.duplicate()));
    assert_eq!(json_to_param("t", "id", &object), SqlParam::Document(object.duplicate()));
}

#[test]
fn column_names_are_classified() {
    assert!(names_id("id"));
    assert!(names_id("owner_id"));
    assert!(!names_id("ids"));
    assert!(!names_id("Id"));
    assert!(!names_id("rid"));
    assert!(names_id_list("asset_ids"));
    assert!(names_id_list("_ids"));
    assert!(!names_id_list("ids"));
    assert!(!names_id_list("asset_id"));
}

#[test]
fn parse_results_decide_between_identifiers_and_text() {
    assert_eq!(id_or_text("abc", Ok(9)), SqlParam::Uuid(9));
    assert_eq!(id_or_text("abc", Err("no".to_string())), SqlParam::Text("abc".to_string()));
    let texts = || vec!["a".to_string(), "b".to_string()];
    assert_eq!(ids_or_texts(texts(), &vec![Ok(1), Ok(2)]), SqlParam::UuidList(vec![1, 2]));
    assert_eq!(
        ids_or_texts(texts(), &vec![Ok(1), Err("no".to_string())]),
        SqlParam::TextList(texts())
    );
    assert_eq!(ids_or_texts(vec![], &vec![]), SqlParam::UuidList(vec![]));
    let parsed = parse_each(&vec![ID.to_string(), "x".to_string()]);
    assert_eq!(parsed[0], Ok(ID_VALUE));
    assert!(parsed[1].is_err());
    assert_eq!(parsed.len(), 2);
}
