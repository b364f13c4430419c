use deeprecall::annotation::transform_annotation_data;
use deeprecall::json::{Json, JsonNumber};

fn text(s: &str) -> Json {
    Json::String(s.to_string())
}

fn object(members: Vec<(&str, Json)>) -> Json {
    Json::Object(members.into_iter().map(|(k, v)| (k.to_string(), v)).collect())
}

fn number(n: u64) -> Json {
    Json::Number(JsonNumber::PosInt(n))
}

#[test]
fn rectangle_annotation_is_flattened() {
    let rects = Json::Array(vec![object(vec![("x", number(1)), ("y", number(2))])]);
    let payload = object(vec![
        ("id", text("a1")),
        ("sha256", text("ff")),
        (
            "data",
            object(vec![
                ("type", text("rectangle")),
                ("rects", rects.duplicate()),
                ("ranges", Json::Array(vec![])),
            ]),
        ),
        (
            "metadata",
            object(vec![
                ("color", text("#ff0")),
                ("notes", text("see here")),
                ("title", text("T")),
                ("tags", Json::Array(vec![text("a")])),
                ("secret", text("dropped")),
            ]),
        ),
    ]);
    let row = transform_annotation_data(&payload).unwrap();
    assert_eq!(
        row,
        object(vec![
            ("id", text("a1")),
            ("sha256", text("ff")),
            ("kind", text("annotation")),
            ("type", text("rectangle")),
            ("geometry", object(vec![("rects", rects)])),
            ("style", object(vec![("color", text("#ff0"))])),
            ("content", text("see here")),
            ("metadata", object(vec![("title", text("T")), ("tags", Json::Array(vec![text("a")]))])),
        ])
    );
}

#[test]
fn other_types_take_their_ranges() {
    let ranges = Json::Array(vec![number(3)]);
    let payload = object(vec![(
        "data",
        object(vec![("type", text("highlight")), ("ranges", ranges.duplicate()), ("rects", Json::Null)]),
    )]);
    assert_eq!(
        transform_annotation_data(&payload).unwrap(),
        object(vec![
            ("kind", text("annotation")),
            ("type", text("highlight")),
            ("geometry", object(vec![("ranges", ranges)])),
        ])
    );
}

#[test]
fn missing_list_gives_null_geometry() {
    let payload = object(vec![("data", object(vec![("type", text("rectangle"))]))]);
    assert_eq!(
        transform_annotation_data(&payload).unwrap(),
        object(vec![
            ("kind", text("annotation")),
            ("type", text("rectangle")),
            ("geometry", Json::Null),
        ])
    );
}

#[test]
fn type_that_is_no_string_gives_no_geometry() {
    let payload = object(vec![("data", object(vec![("type", number(4)), ("rects", Json::Null)]))]);
    assert_eq!(
        transform_annotation_data(&payload).unwrap(),
        object(vec![("kind", text("annotation")), ("type", number(4))])
    );
}

#[test]
fn data_that_is_no_object_is_dropped() {
    let payload = object(vec![("id", text("a")), ("data", text("raw"))]);
    assert_eq!(transform_annotation_data(&payload).unwrap(), object(vec![("id", text("a"))]));
}

#[test]
fn metadata_keeps_the_curated_fields_only() {
    let payload = object(vec![
        ("id", text("a")),
        (
            "metadata",
            object(vec![
                ("noteGroups", Json::Array(vec![])),
                ("kind", text("k")),
                ("attachedAssets", Json::Array(vec![text("x")])),
                ("other", Json::Bool(true)),
            ]),
        ),
    ]);
    assert_eq!(
        transform_annotation_data(&payload).unwrap(),
        object(vec![
            ("id", text("a")),
            ("attachedAssets", Json::Array(vec![text("x")])),
            ("metadata", object(vec![("kind", text("k")), ("noteGroups", Json::Array(vec![]))])),
        ])
    );
}

#[test]
fn metadata_without_curated_fields_leaves_none() {
    let payload = object(vec![("metadata", object(vec![("color", text("red"))]))]);
    assert_eq!(
        transform_annotation_data(&payload).unwrap(),
        object(vec![("style", object(vec![("color", text("red"))]))])
    );
    let payload = object(vec![("metadata", Json::Null), ("id", text("a"))]);
    assert_eq!(transform_annotation_data(&payload).unwrap(), object(vec![("id", text("a"))]));
}

#[test]
fn payload_without_sub_objects_passes() {
    let payload = object(vec![("id", text("a")), ("page", number(2))]);
    assert_eq!(transform_annotation_data(&payload).unwrap(), payload);
}

#[test]
fn annotation_payload_must_be_an_object() {
    assert_eq!(
        transform_annotation_data(&Json::Array(vec![])),
        Err("Validated payload must be an object".to_string())
    );
    assert_eq!(
        transform_annotation_data(&Json::Null),
        Err("Validated payload must be an object".to_string())
    );
}
