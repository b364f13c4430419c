//! Typed statement parameters, and the coercion of document values to them.

use vstd::prelude::*;
use crate::ids::{parse_uuid, uuid_parse};
use crate::json::{Json, JsonNumber, JsonV, item_views, lemma_array_view};
use crate::text::{chars_of, ends_with, has_suffix, str_eq, string_views};

verus! {

/// A statement parameter in the store's native types.
#[derive(Debug, PartialEq, Eq)]
pub enum SqlParam {
    /// A null of identifier type.
    NullUuid,
    /// A null of identifier-list type.
    NullUuidList,
    /// A null of text type.
    NullText,
    Bool(bool),
    Int(i64),
    /// A binary64 value, as its bit pattern.
    Float(u64),
    Uuid(u128),
    Text(String),
    UuidList(Vec<u128>),
    TextList(Vec<String>),
    /// An opaque structured value.
    Document(Json),
}

/// The mathematical content of a [`SqlParam`].
pub enum SqlParamV {
    NullUuid,
    NullUuidList,
    NullText,
    Bool(bool),
    Int(i64),
    Float(u64),
    Uuid(u128),
    Text(Seq<char>),
    UuidList(Seq<u128>),
    TextList(Seq<Seq<char>>),
    Document(JsonV),
}

impl View for SqlParam {
    type V = SqlParamV;

    open spec fn view(&self) -> SqlParamV {
        match self {
            SqlParam::NullUuid => SqlParamV::NullUuid,
            SqlParam::NullUuidList => SqlParamV::NullUuidList,
            SqlParam::NullText => SqlParamV::NullText,
            SqlParam::Bool(b) => SqlParamV::Bool(*b),
            SqlParam::Int(i) => SqlParamV::Int(*i),
            SqlParam::Float(bits) => SqlParamV::Float(*bits),
            SqlParam::Uuid(id) => SqlParamV::Uuid(*id),
            SqlParam::Text(s) => SqlParamV::Text(s@),
            SqlParam::UuidList(ids) => SqlParamV::UuidList(ids@),
            SqlParam::TextList(strings) => SqlParamV::TextList(string_views(strings@)),
            SqlParam::Document(value) => SqlParamV::Document(value@),
        }
    }
}

/// Whether a column name denotes an identifier: `id`, or a name ending in
/// `_id`.
pub open spec fn is_id_column(column: Seq<char>) -> bool {
    column == "id"@ || ends_with(column, "_id"@)
}

/// Whether a column name denotes a list of identifiers: a name ending in
/// `_ids`.
pub open spec fn is_id_list_column(column: Seq<char>) -> bool {
    ends_with(column, "_ids"@)
}

/// The signed integer with the bit pattern of `u`.
pub open spec fn reinterpret(u: u64) -> i64 {
    if u <= i64::MAX {
        u as i64
    } else {
        (u - 0x1_0000_0000_0000_0000) as i64
    }
}

/// Whether every item is a string.
pub open spec fn all_strings(items: Seq<JsonV>) -> bool {
    forall|i: int| 0 <= i < items.len() ==> (#[trigger] items[i]) is String
}

/// The texts of a list of strings.
pub open spec fn texts_of(items: Seq<JsonV>) -> Seq<Seq<char>> {
    Seq::new(items.len(), |i: int| items[i]->String_0)
}

/// Whether every text parses as an identifier.
pub open spec fn all_parse(texts: Seq<Seq<char>>) -> bool {
    forall|i: int| 0 <= i < texts.len() ==> (#[trigger] uuid_parse(texts[i])) is Ok
}

/// The identifiers that a list of texts parses to.
pub open spec fn parsed(texts: Seq<Seq<char>>) -> Seq<u128> {
    Seq::new(texts.len(), |i: int| uuid_parse(texts[i])->Ok_0)
}

/// The parameter for an array with the given items under `column`.
pub open spec fn list_param(column: Seq<char>, items: Seq<JsonV>) -> SqlParamV {
    if items.len() == 0 {
        SqlParamV::TextList(Seq::empty())
    } else if all_strings(items) {
        if is_id_list_column(column) && all_parse(texts_of(items)) {
            SqlParamV::UuidList(parsed(texts_of(items)))
        } else {
            SqlParamV::TextList(texts_of(items))
        }
    } else {
        SqlParamV::Document(JsonV::Array(items))
    }
}

/// The parameter that stands for `value` in a statement, under `column`.
pub open spec fn param_for(column: Seq<char>, value: JsonV) -> SqlParamV {
    match value {
        JsonV::Null => if is_id_column(column) {
            SqlParamV::NullUuid
        } else if is_id_list_column(column) {
            SqlParamV::NullUuidList
        } else {
            SqlParamV::NullText
        },
        JsonV::Bool(b) => SqlParamV::Bool(b),
        JsonV::Number(JsonNumber::PosInt(u)) => SqlParamV::Int(reinterpret(u)),
        JsonV::Number(JsonNumber::NegInt(i)) => SqlParamV::Int(i),
        JsonV::Number(JsonNumber::Float(bits)) => SqlParamV::Float(bits),
        JsonV::String(s) => if is_id_column(column) {
            match uuid_parse(s) {
                Ok(id) => SqlParamV::Uuid(id),
                Err(_) => SqlParamV::Text(s),
            }
        } else {
            SqlParamV::Text(s)
        },
        JsonV::Array(items) => list_param(column, items),
        JsonV::Object(_) => SqlParamV::Document(value),
    }
}

/// Tests a column name for denoting an identifier.
pub fn names_id(column: &str) -> (r: bool)
    ensures
        r == is_id_column(column@),
{
    str_eq(column, "id") || has_suffix(&chars_of(column), &chars_of("_id"))
}

/// Tests a column name for denoting a list of identifiers.
pub fn names_id_list(column: &str) -> (r: bool)
    ensures
        r == is_id_list_column(column@),
{
    has_suffix(&chars_of(column), &chars_of("_ids"))
}

/// The signed integer with the bit pattern of `u`.
pub fn reinterpret_u64(u: u64) -> (r: i64)
    ensures
        r == reinterpret(u),
{
    if u <= 0x7fff_ffff_ffff_ffff {
        u as i64
    } else {
        let low: u64 = u - 0x8000_0000_0000_0000;
        (low as i64) + i64::MIN
    }
}

/// The texts of the items, if every item is a string.
fn collect_texts(items: &Vec<Json>) -> (r: Option<Vec<String>>)
    ensures
        match r {
            Some(texts) => all_strings(item_views(items@)) && string_views(texts@) == texts_of(
                item_views(items@),
            ),
            None => !all_strings(item_views(items@)),
        },
{
    let mut texts: Vec<String> = Vec::new();
    let mut i: usize = 0;
    while i < items.len()
        invariant
            i <= items.len(),
            texts@.len() == i,
            forall|j: int| 0 <= j < i ==> (#[trigger] item_views(items@)[j]) is String,
            forall|j: int|
                0 <= j < i ==> (#[trigger] texts@[j])@ == item_views(items@)[j]->String_0,
        decreases items.len() - i,
    {
        match &items[i] {
            Json::String(s) => {
                texts.push(s.clone());
            },
            _ => {
                assert(!(item_views(items@)[i as int] is String));
                return None;
            },
        }
        i += 1;
    }
    assert(string_views(texts@) =~= texts_of(item_views(items@)));
    Some(texts)
}

/// The content of what parsing an identifier gave.
pub open spec fn parse_view(parsed: Result<u128, String>) -> Result<u128, Seq<char>> {
    match parsed {
        Ok(id) => Ok(id),
        Err(message) => Err(message@),
    }
}

/// The contents of a list of parse results.
pub open spec fn parse_views(parsed: Seq<Result<u128, String>>) -> Seq<Result<u128, Seq<char>>> {
    Seq::new(parsed.len(), |i: int| parse_view(parsed[i]))
}

/// What parsing each of the texts as an identifier gives.
pub open spec fn parsed_each(texts: Seq<Seq<char>>) -> Seq<Result<u128, Seq<char>>> {
    Seq::new(texts.len(), |i: int| uuid_parse(texts[i]))
}

/// The parameter for a text under an identifier column, given what parsing
/// it gave: the identifier, or the text where it is none.
pub open spec fn id_or_text_of(text: Seq<char>, parsed: Result<u128, Seq<char>>) -> SqlParamV {
    match parsed {
        Ok(id) => SqlParamV::Uuid(id),
        Err(_) => SqlParamV::Text(text),
    }
}

/// The parameter for a list of texts under an identifier-list column,
/// given what parsing each gave: the identifiers if every text is one, the
/// texts otherwise.
pub open spec fn ids_or_texts_of(
    texts: Seq<Seq<char>>,
    parsed: Seq<Result<u128, Seq<char>>>,
) -> SqlParamV {
    if forall|i: int| 0 <= i < parsed.len() ==> (#[trigger] parsed[i]) is Ok {
        SqlParamV::UuidList(Seq::new(parsed.len(), |i: int| parsed[i]->Ok_0))
    } else {
        SqlParamV::TextList(texts)
    }
}

/// Parses each of the texts as an identifier.
pub fn parse_each(texts: &Vec<String>) -> (r: Vec<Result<u128, String>>)
    ensures
        parse_views(r@) == parsed_each(string_views(texts@)),
{
    let mut parsed: Vec<Result<u128, String>> = Vec::new();
    let mut i: usize = 0;
    while i < texts.len()
        invariant
            i <= texts.len(),
            parsed@.len() == i,
            forall|j: int|
                0 <= j < i ==> parse_view(#[trigger] parsed@[j]) == uuid_parse(texts@[j]@),
        decreases texts.len() - i,
    {
        let one = parse_uuid(texts[i].as_str());
        parsed.push(one);
        i += 1;
    }
    assert(parse_views(parsed@) =~= parsed_each(string_views(texts@)));
    parsed
}

/// Decides between a text and the identifier that it parsed to.
pub fn id_or_text(text: &str, parsed: Result<u128, String>) -> (r: SqlParam)
    ensures
        r@ == id_or_text_of(text@, parse_view(parsed)),
{
    match parsed {
        Ok(id) => SqlParam::Uuid(id),
        Err(_) => SqlParam::Text(text.to_owned()),
    }
}

/// Decides between a list of texts and the identifiers that they parsed
/// to.
pub fn ids_or_texts(texts: Vec<String>, parsed: &Vec<Result<u128, String>>) -> (r: SqlParam)
    ensures
        r@ == ids_or_texts_of(string_views(texts@), parse_views(parsed@)),
{
    let mut ids: Vec<u128> = Vec::new();
    let mut i: usize = 0;
    while i < parsed.len()
        invariant
            i <= parsed.len(),
            ids@.len() == i,
            forall|j: int| 0 <= j < i ==> (#[trigger] parse_views(parsed@)[j]) is Ok,
            forall|j: int| 0 <= j < i ==> ids@[j] == parse_views(parsed@)[j]->Ok_0,
        decreases parsed.len() - i,
    {
        match &parsed[i] {
            Ok(id) => {
                ids.push(*id);
            },
            Err(_) => {
                assert(!(parse_views(parsed@)[i as int] is Ok));
                return SqlParam::TextList(texts);
            },
        }
        i += 1;
    }
    assert(ids@ =~= Seq::new(parsed@.len(), |i: int| parse_views(parsed@)[i]->Ok_0));
    SqlParam::UuidList(ids)
}

/// What parsing each text gives decides as `all_parse` and `parsed` say.
pub proof fn lemma_ids_or_texts(texts: Seq<Seq<char>>)
    ensures
        ids_or_texts_of(texts, parsed_each(texts)) == if all_parse(texts) {
            SqlParamV::UuidList(parsed(texts))
        } else {
            SqlParamV::TextList(texts)
        },
{
    let each = parsed_each(texts);
    if all_parse(texts) {
        assert forall|i: int| 0 <= i < each.len() implies (#[trigger] each[i]) is Ok by {
            assert(uuid_parse(texts[i]) is Ok);
        }
        assert(Seq::new(each.len(), |i: int| each[i]->Ok_0) =~= parsed(texts));
    } else {
        let i = choose|i: int| 0 <= i < texts.len() && !((#[trigger] uuid_parse(texts[i])) is Ok);
        assert(!(each[i] is Ok));
    }
}

/// Coerces a document value to the parameter that stands for it under
/// `column`: nulls typed by the column's name, identifiers parsed where the
/// name asks for them and the text allows it, lists of strings as lists,
/// everything else structured as an opaque document.
pub fn json_to_param(_table: &str, column: &str, value: &Json) -> (r: SqlParam)
    ensures
        r@ == param_for(column@, value@),
{
    match value {
        Json::Null => {
            if names_id(column) {
                SqlParam::NullUuid
            } else if names_id_list(column) {
                SqlParam::NullUuidList
            } else {
                SqlParam::NullText
            }
        },
        Json::Bool(b) => SqlParam::Bool(*b),
        Json::Number(n) => match n {
            JsonNumber::PosInt(u) => SqlParam::Int(reinterpret_u64(*u)),
            JsonNumber::NegInt(i) => SqlParam::Int(*i),
            JsonNumber::Float(bits) => SqlParam::Float(*bits),
        },
        Json::String(s) => {
            if names_id(column) {
                id_or_text(s.as_str(), parse_uuid(s.as_str()))
            } else {
                SqlParam::Text(s.clone())
            }
        },
        Json::Array(items) => {
            proof {
                lemma_array_view(*items);
            }
            if items.len() == 0 {
                let none: Vec<String> = Vec::new();
                assert(string_views(none@) =~= Seq::empty());
                return SqlParam::TextList(none);
            }
            match collect_texts(items) {
                Some(texts) => {
                    if names_id_list(column) {
                        proof {
                            lemma_ids_or_texts(string_views(texts@));
                        }
                        let parsed = parse_each(&texts);
                        ids_or_texts(texts, &parsed)
                    } else {
                        SqlParam::TextList(texts)
                    }
                },
                None => SqlParam::Document(value.duplicate()),
            }
        },
        Json::Object(_) => SqlParam::Document(value.duplicate()),
    }
}

} // verus!
