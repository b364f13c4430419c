use deeprecall::json::{Json, JsonNumber};
use deeprecall::naming::{
    keys_to_snake_case, mark_case, names_structured_column, snake_case_of, to_snake_case, CaseMark,
};

#[test]
fn snake_case_of_camel_case() {
    assert_eq!(to_snake_case("createdAt"), "created_at");
    assert_eq!(to_snake_case("id"), "id");
    assert_eq!(to_snake_case("workId"), "work_id");
    assert_eq!(to_snake_case("attachedAssets"), "attached_assets");
    assert_eq!(to_snake_case("URL"), "u_r_l");
    assert_eq!(to_snake_case(""), "");
}

#[test]
fn snake_case_lowers_a_leading_capital_without_underscore() {
    assert_eq!(to_snake_case("Title"), "title");
    assert_eq!(to_snake_case("T"), "t");
}

#[test]
fn snake_case_keeps_what_is_not_upper_case() {
    assert_eq!(to_snake_case("already_snake"), "already_snake");
    assert_eq!(to_snake_case("page2"), "page2");
    assert_eq!(to_snake_case("a-b c"), "a-b c");
}

#[test]
fn snake_case_follows_unicode_case() {
    assert_eq!(to_snake_case("grÖße"), "gr_öße");
    assert_eq!(to_snake_case("Éa"), "éa");
}

#[test]
fn keys_are_normalised_and_values_kept() {
    let payload = Json::Object(vec![
        ("workId".to_string(), Json::String("w1".to_string())),
        ("createdAt".to_string(), Json::Number(JsonNumber::PosInt(5))),
        ("metadata".to_string(), Json::Object(vec![("noteGroups".to_string(), Json::Null)])),
        ("tags".to_string(), Json::Array(vec![Json::Bool(true)])),
    ]);
    let row = keys_to_snake_case(&payload).unwrap();
    assert_eq!(
        row,
        vec![
            ("work_id".to_string(), Json::String("w1".to_string())),
            ("created_at".to_string(), Json::Number(JsonNumber::PosInt(5))),
            (
                "metadata".to_string(),
                Json::Object(vec![("noteGroups".to_string(), Json::Null)])
            ),
            ("tags".to_string(), Json::Array(vec![Json::Bool(true)])),
        ]
    );
}

#[test]
fn keys_that_meet_keep_the_later_value() {
    let payload = Json::Object(vec![
        ("createdAt".to_string(), Json::Number(JsonNumber::PosInt(1))),
        ("x".to_string(), Json::Null),
        ("created_at".to_string(), Json::Number(JsonNumber::PosInt(2))),
    ]);
    let row = keys_to_snake_case(&payload).unwrap();
    assert_eq!(
        row,
        vec![
            ("created_at".to_string(), Json::Number(JsonNumber::PosInt(2))),
            ("x".to_string(), Json::Null),
        ]
    );
}

#[test]
fn keys_of_a_non_object_are_refused() {
    assert_eq!(
        keys_to_snake_case(&Json::Array(vec![])),
        Err("Payload must be an object".to_string())
    );
    assert_eq!(keys_to_snake_case(&Json::Null), Err("Payload must be an object".to_string()));
    assert_eq!(
        keys_to_snake_case(&Json::String("x".to_string())),
        Err("Payload must be an object".to_string())
    );
}

#[test]
fn structured_columns_are_listed() {
    for name in [
        "core_field_config",
        "custom_fields",
        "metadata",
        "authors",
        "geometry",
        "style",
        "avatar_crop_region",
        "points",
        "bounding_box",
    ] {
        assert!(names_structured_column(name), "{}", name);
    }
    assert!(!names_structured_column("title"));
    assert!(!names_structured_column("Metadata"));
    assert!(!names_structured_column(""));
}

#[test]
fn snake_case_goes_by_the_marks_alone() {
    let marks = vec![
        CaseMark::new('x', true, 'q'),
        CaseMark::new('B', false, 'b'),
        CaseMark::new('c', true, 'C'),
    ];
    assert_eq!(snake_case_of(&marks), "qB_C");
    assert_eq!(snake_case_of(&vec![]), "");
    assert_eq!(
        mark_case("aB"),
        vec![
            CaseMark { c: 'a', upper: false, lowered: 'a' },
            CaseMark { c: 'B', upper: true, lowered: 'b' }
        ]
    );
}
