//! The schema transform of the `annotations` table: nested client
//! sub-objects are flattened into the store's columns.

use vstd::prelude::*;
use crate::json::{
    Json, JsonV, Members, duplicate_members, get_member, lemma_object_view, lookup, member_views,
    put, put_member, remove_member, without,
};
use crate::text::str_eq;

verus! {

/// An object with the single member `key`.
pub open spec fn single(key: Seq<char>, value: JsonV) -> JsonV {
    JsonV::Object(seq![(key, value)])
}

/// The geometry of an annotation whose `data` has the members `data`: the
/// `rects` of a rectangle, the `ranges` of any other type, `Null` where the
/// list is missing. There is none unless `type` is a string.
pub open spec fn geometry_of(data: Members) -> Option<JsonV> {
    match lookup(data, "type"@) {
        Some(JsonV::String(t)) => Some(
            if t == "rectangle"@ {
                match lookup(data, "rects"@) {
                    Some(rects) => single("rects"@, rects),
                    None => JsonV::Null,
                }
            } else {
                match lookup(data, "ranges"@) {
                    Some(ranges) => single("ranges"@, ranges),
                    None => JsonV::Null,
                }
            },
        ),
        _ => None,
    }
}

/// `members` with `key` set to `value` where there is a value.
pub open spec fn put_some(members: Members, key: Seq<char>, value: Option<JsonV>) -> Members {
    match value {
        Some(v) => put(members, key, v),
        None => members,
    }
}

/// `row` after the `data` sub-object was flattened into it: `kind`, `type`
/// and `geometry` are set from an object, and `data` itself is dropped.
pub open spec fn flatten_data(row: Members, data: JsonV) -> Members {
    match data {
        JsonV::Object(d) => without(
            put_some(
                put_some(
                    put(row, "kind"@, JsonV::String("annotation"@)),
                    "type"@,
                    lookup(d, "type"@),
                ),
                "geometry"@,
                geometry_of(d),
            ),
            "data"@,
        ),
        _ => without(row, "data"@),
    }
}

/// The members of a `metadata` sub-object that the store keeps, in the order
/// `title`, `kind`, `tags`, `noteGroups`.
pub open spec fn kept_metadata(m: Members) -> Members {
    put_some(
        put_some(
            put_some(
                put_some(Seq::empty(), "title"@, lookup(m, "title"@)),
                "kind"@,
                lookup(m, "kind"@),
            ),
            "tags"@,
            lookup(m, "tags"@),
        ),
        "noteGroups"@,
        lookup(m, "noteGroups"@),
    )
}

/// `members` with `metadata` set to the kept members, where there are any.
pub open spec fn put_kept(members: Members, kept: Members) -> Members {
    if kept.len() > 0 {
        put(members, "metadata"@, JsonV::Object(kept))
    } else {
        members
    }
}

/// `row` after the `metadata` sub-object was flattened into it: `color`
/// becomes `style`, `notes` becomes `content`, `attachedAssets` moves up, the
/// client's `metadata` is dropped and the kept members take its place.
pub open spec fn flatten_metadata(row: Members, metadata: JsonV) -> Members {
    match metadata {
        JsonV::Object(m) => put_kept(
            without(
                put_some(
                    put_some(
                        put_some(
                            row,
                            "style"@,
                            match lookup(m, "color"@) {
                                Some(color) => Some(single("color"@, color)),
                                None => None,
                            },
                        ),
                        "content"@,
                        lookup(m, "notes"@),
                    ),
                    "attachedAssets"@,
                    lookup(m, "attachedAssets"@),
                ),
                "metadata"@,
            ),
            kept_metadata(m),
        ),
        _ => without(row, "metadata"@),
    }
}

/// The store's form of an annotation payload with the members `payload`.
pub open spec fn annotation_row(payload: Members) -> Members {
    let after_data = match lookup(payload, "data"@) {
        Some(data) => flatten_data(payload, data),
        None => payload,
    };
    match lookup(payload, "metadata"@) {
        Some(metadata) => flatten_metadata(after_data, metadata),
        None => after_data,
    }
}

/// Sets member `key` of `row` to a copy of member `name` of `source`, if
/// `source` has one.
fn copy_member(row: &mut Vec<(String, Json)>, key: &str, source: &Vec<(String, Json)>, name: &str)
    ensures
        member_views(final(row)@) == put_some(
            member_views(old(row)@),
            key@,
            lookup(member_views(source@), name@),
        ),
{
    match get_member(source, name) {
        Some(value) => put_member(row, key.to_owned(), value.duplicate()),
        None => {},
    }
}

/// An object with the single member `key`, holding a copy of `value`.
fn single_member(key: &str, value: &Json) -> (r: Json)
    ensures
        r@ == single(key@, value@),
{
    let mut entries: Vec<(String, Json)> = Vec::new();
    entries.push((key.to_owned(), value.duplicate()));
    proof {
        lemma_object_view(entries);
        assert(member_views(entries@) =~= seq![(key@, value@)]);
    }
    Json::Object(entries)
}

/// The geometry for the members of a `data` sub-object.
fn geometry(data: &Vec<(String, Json)>) -> (r: Option<Json>)
    ensures
        match geometry_of(member_views(data@)) {
            Some(g) => r is Some && r->0@ == g,
            None => r is None,
        },
{
    match get_member(data, "type") {
        Some(Json::String(t)) => {
            let list = if str_eq(t.as_str(), "rectangle") {
                "rects"
            } else {
                "ranges"
            };
            match get_member(data, list) {
                Some(value) => Some(single_member(list, value)),
                None => Some(Json::Null),
            }
        },
        _ => None,
    }
}

/// Translates an annotation payload from the client's schema to the
/// store's. A payload that is no object is refused.
pub fn transform_annotation_data(validated: &Json) -> (r: Result<Json, String>)
    ensures
        match validated@ {
            JsonV::Object(payload) => r is Ok && r->Ok_0@ == JsonV::Object(annotation_row(payload)),
            _ => r is Err && r->Err_0@ == "Validated payload must be an object"@,
        },
{
    let map = match validated {
        Json::Object(map) => map,
        _ => {
            return Err("Validated payload must be an object".to_owned());
        },
    };
    proof {
        lemma_object_view(*map);
    }
    let mut result = duplicate_members(map);
    match get_member(map, "data") {
        Some(data) => {
            match data {
                Json::Object(d) => {
                    proof {
                        lemma_object_view(*d);
                    }
                    put_member(
                        &mut result,
                        "kind".to_owned(),
                        Json::String("annotation".to_owned()),
                    );
                    copy_member(&mut result, "type", d, "type");
                    match geometry(d) {
                        Some(g) => put_member(&mut result, "geometry".to_owned(), g),
                        None => {},
                    }
                },
                _ => {},
            }
            remove_member(&mut result, "data");
        },
        None => {},
    }
    match get_member(map, "metadata") {
        Some(metadata) => {
            match metadata {
                Json::Object(m) => {
                    proof {
                        lemma_object_view(*m);
                    }
                    match get_member(m, "color") {
                        Some(color) => put_member(
                            &mut result,
                            "style".to_owned(),
                            single_member("color", color),
                        ),
                        None => {},
                    }
                    copy_member(&mut result, "content", m, "notes");
                    copy_member(&mut result, "attachedAssets", m, "attachedAssets");
                    remove_member(&mut result, "metadata");
                    let mut kept: Vec<(String, Json)> = Vec::new();
                    assert(member_views(kept@) =~= Seq::empty());
                    copy_member(&mut kept, "title", m, "title");
                    copy_member(&mut kept, "kind", m, "kind");
                    copy_member(&mut kept, "tags", m, "tags");
                    copy_member(&mut kept, "noteGroups", m, "noteGroups");
                    if kept.len() > 0 {
                        proof {
                            lemma_object_view(kept);
                        }
                        put_member(&mut result, "metadata".to_owned(), Json::Object(kept));
                    }
                },
                _ => {
                    remove_member(&mut result, "metadata");
                },
            }
        },
        None => {},
    }
    proof {
        lemma_object_view(result);
    }
    Ok(Json::Object(result))
}

} // verus!
