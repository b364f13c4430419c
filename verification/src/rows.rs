//! Rows that the remote store hands back, and their translation into
//! documents.

use vstd::prelude::*;
use crate::ids::{uuid_hyphenated, uuid_text};
use crate::json::{
    Json, JsonNumber, JsonV, Members, item_views, lemma_array_view, lemma_object_view,
    member_views, put, put_member,
};
use crate::text::{str_eq, string_views};

verus! {

/// How a column is read, by the store's name for its type.
#[derive(Clone, Copy, Debug, PartialEq, Eq, Structural)]
pub enum ColumnKind {
    Uuid,
    Text,
    SmallInt,
    BigInt,
    Bool,
    Document,
    TextList,
    UuidList,
    Float,
    /// Any other type: read as text.
    Other,
}

/// The kind of a column whose type the store names `sql_type`.
pub open spec fn kind_of(sql_type: Seq<char>) -> ColumnKind {
    if sql_type == "uuid"@ {
        ColumnKind::Uuid
    } else if sql_type == "text"@ || sql_type == "varchar"@ || sql_type == "bpchar"@ {
        ColumnKind::Text
    } else if sql_type == "int2"@ || sql_type == "int4"@ {
        ColumnKind::SmallInt
    } else if sql_type == "int8"@ {
        ColumnKind::BigInt
    } else if sql_type == "bool"@ {
        ColumnKind::Bool
    } else if sql_type == "jsonb"@ || sql_type == "json"@ {
        ColumnKind::Document
    } else if sql_type == "_text"@ || sql_type == "_varchar"@ {
        ColumnKind::TextList
    } else if sql_type == "_uuid"@ {
        ColumnKind::UuidList
    } else if sql_type == "float4"@ || sql_type == "float8"@ {
        ColumnKind::Float
    } else {
        ColumnKind::Other
    }
}

/// Classifies a column by the store's name for its type.
pub fn column_kind(sql_type: &str) -> (r: ColumnKind)
    ensures
        r == kind_of(sql_type@),
{
    if str_eq(sql_type, "uuid") {
        ColumnKind::Uuid
    } else if str_eq(sql_type, "text") || str_eq(sql_type, "varchar") || str_eq(
        sql_type,
        "bpchar",
    ) {
        ColumnKind::Text
    } else if str_eq(sql_type, "int2") || str_eq(sql_type, "int4") {
        ColumnKind::SmallInt
    } else if str_eq(sql_type, "int8") {
        ColumnKind::BigInt
    } else if str_eq(sql_type, "bool") {
        ColumnKind::Bool
    } else if str_eq(sql_type, "jsonb") || str_eq(sql_type, "json") {
        ColumnKind::Document
    } else if str_eq(sql_type, "_text") || str_eq(sql_type, "_varchar") {
        ColumnKind::TextList
    } else if str_eq(sql_type, "_uuid") {
        ColumnKind::UuidList
    } else if str_eq(sql_type, "float4") || str_eq(sql_type, "float8") {
        ColumnKind::Float
    } else {
        ColumnKind::Other
    }
}

/// The value of one column of a row.
#[derive(Debug, PartialEq, Eq)]
pub enum Cell {
    Null,
    Uuid(u128),
    Text(String),
    Int(i64),
    Bool(bool),
    Document(Json),
    TextList(Vec<String>),
    UuidList(Vec<u128>),
    /// A binary64 value, as its bit pattern.
    Float(u64),
}

/// The mathematical content of a [`Cell`].
pub enum CellV {
    Null,
    Uuid(u128),
    Text(Seq<char>),
    Int(i64),
    Bool(bool),
    Document(JsonV),
    TextList(Seq<Seq<char>>),
    UuidList(Seq<u128>),
    Float(u64),
}

impl View for Cell {
    type V = CellV;

    open spec fn view(&self) -> CellV {
        match self {
            Cell::Null => CellV::Null,
            Cell::Uuid(id) => CellV::Uuid(*id),
            Cell::Text(s) => CellV::Text(s@),
            Cell::Int(i) => CellV::Int(*i),
            Cell::Bool(b) => CellV::Bool(*b),
            Cell::Document(value) => CellV::Document(value@),
            Cell::TextList(strings) => CellV::TextList(string_views(strings@)),
            Cell::UuidList(ids) => CellV::UuidList(ids@),
            Cell::Float(bits) => CellV::Float(*bits),
        }
    }
}

/// A named column of a row, with its value.
#[derive(Debug, PartialEq, Eq)]
pub struct Column {
    pub name: String,
    pub value: Cell,
}

impl View for Column {
    type V = (Seq<char>, CellV);

    open spec fn view(&self) -> (Seq<char>, CellV) {
        (self.name@, self.value@)
    }
}

/// A row of the remote store: its columns in the store's order.
#[derive(Debug, PartialEq, Eq)]
pub struct SqlRow {
    pub columns: Vec<Column>,
}

impl View for SqlRow {
    type V = Seq<(Seq<char>, CellV)>;

    open spec fn view(&self) -> Seq<(Seq<char>, CellV)> {
        Seq::new(self.columns@.len(), |i: int| self.columns@[i]@)
    }
}

/// The document number for a signed integer.
pub open spec fn number_of(i: i64) -> JsonNumber {
    if i < 0 {
        JsonNumber::NegInt(i)
    } else {
        JsonNumber::PosInt(i as u64)
    }
}

/// Whether a binary64 bit pattern is a finite number: its exponent field is
/// not all ones.
pub open spec fn is_finite(bits: u64) -> bool {
    (bits >> 52) & 0x7ff != 0x7ff
}

/// The strings as document values.
pub open spec fn strings_json(texts: Seq<Seq<char>>) -> Seq<JsonV> {
    Seq::new(texts.len(), |i: int| JsonV::String(texts[i]))
}

/// The identifiers as document strings in hyphenated form.
pub open spec fn uuids_json(ids: Seq<u128>) -> Seq<JsonV> {
    Seq::new(ids.len(), |i: int| JsonV::String(uuid_hyphenated(ids[i])))
}

/// The document value of a cell.
pub open spec fn cell_json(cell: CellV) -> JsonV {
    match cell {
        CellV::Null => JsonV::Null,
        CellV::Uuid(id) => JsonV::String(uuid_hyphenated(id)),
        CellV::Text(s) => JsonV::String(s),
        CellV::Int(i) => JsonV::Number(number_of(i)),
        CellV::Bool(b) => JsonV::Bool(b),
        CellV::Document(value) => value,
        CellV::TextList(texts) => JsonV::Array(strings_json(texts)),
        CellV::UuidList(ids) => JsonV::Array(uuids_json(ids)),
        CellV::Float(bits) => if is_finite(bits) {
            JsonV::Number(JsonNumber::Float(bits))
        } else {
            JsonV::Null
        },
    }
}

/// The members of the document of a row: each column in turn sets the
/// member of its name.
pub open spec fn row_members(columns: Seq<(Seq<char>, CellV)>) -> Members
    decreases columns.len(),
{
    if columns.len() == 0 {
        Seq::empty()
    } else {
        put(row_members(columns.drop_last()), columns.last().0, cell_json(columns.last().1))
    }
}

/// The document number for a signed integer.
pub fn json_number(i: i64) -> (r: JsonNumber)
    ensures
        r == number_of(i),
{
    if i < 0 {
        JsonNumber::NegInt(i)
    } else {
        JsonNumber::PosInt(i as u64)
    }
}

/// Tests a binary64 bit pattern for being a finite number.
pub fn bits_are_finite(bits: u64) -> (r: bool)
    ensures
        r == is_finite(bits),
{
    (bits >> 52) & 0x7ff != 0x7ff
}

/// The strings as an array of document strings.
pub fn strings_to_json(strings: &Vec<String>) -> (r: Json)
    ensures
        r@ == JsonV::Array(strings_json(string_views(strings@))),
{
    let mut items: Vec<Json> = Vec::new();
    let mut i: usize = 0;
    while i < strings.len()
        invariant
            i <= strings.len(),
            items@.len() == i,
            forall|j: int| 0 <= j < i ==> (#[trigger] items@[j])@ == JsonV::String(strings@[j]@),
        decreases strings.len() - i,
    {
        items.push(Json::String(strings[i].clone()));
        i += 1;
    }
    proof {
        lemma_array_view(items);
        assert(item_views(items@) =~= strings_json(string_views(strings@)));
    }
    Json::Array(items)
}

/// The hyphenated texts of the identifiers.
pub fn hyphenate_all(ids: &Vec<u128>) -> (r: Vec<String>)
    ensures
        r@.len() == ids@.len(),
        forall|i: int| 0 <= i < ids@.len() ==> (#[trigger] r@[i])@ == uuid_hyphenated(ids@[i]),
{
    let mut texts: Vec<String> = Vec::new();
    let mut i: usize = 0;
    while i < ids.len()
        invariant
            i <= ids.len(),
            texts@.len() == i,
            forall|j: int| 0 <= j < i ==> (#[trigger] texts@[j])@ == uuid_hyphenated(ids@[j]),
        decreases ids.len() - i,
    {
        texts.push(uuid_text(ids[i]));
        i += 1;
    }
    texts
}

/// The document value of a cell.
pub fn cell_to_json(cell: &Cell) -> (r: Json)
    ensures
        r@ == cell_json(cell@),
{
    match cell {
        Cell::Null => Json::Null,
        Cell::Uuid(id) => Json::String(uuid_text(*id)),
        Cell::Text(s) => Json::String(s.clone()),
        Cell::Int(i) => Json::Number(json_number(*i)),
        Cell::Bool(b) => Json::Bool(*b),
        Cell::Document(value) => value.duplicate(),
        Cell::TextList(strings) => strings_to_json(strings),
        Cell::UuidList(ids) => {
            let texts = hyphenate_all(ids);
            assert(strings_json(string_views(texts@)) =~= uuids_json(ids@));
            strings_to_json(&texts)
        },
        Cell::Float(bits) => {
            if bits_are_finite(*bits) {
                Json::Number(JsonNumber::Float(*bits))
            } else {
                Json::Null
            }
        },
    }
}

/// Translates a row into a document: an object with one member for each
/// column name, holding the column's value as the type-aware reader found it.
pub fn row_to_json(row: &SqlRow) -> (r: Json)
    ensures
        r@ == JsonV::Object(row_members(row@)),
{
    let mut result: Vec<(String, Json)> = Vec::new();
    let mut i: usize = 0;
    assert(row@.take(0) =~= Seq::empty());
    assert(member_views(result@) =~= Seq::empty());
    while i < row.columns.len()
        invariant
            i <= row.columns.len(),
            member_views(result@) == row_members(row@.take(i as int)),
        decreases row.columns.len() - i,
    {
        assert(row@.take(i + 1).drop_last() =~= row@.take(i as int));
        let column = &row.columns[i];
        put_member(&mut result, column.name.clone(), cell_to_json(&column.value));
        i += 1;
    }
    proof {
        assert(row@.take(i as int) =~= row@);
        lemma_object_view(result);
    }
    Json::Object(result)
}

} // verus!
