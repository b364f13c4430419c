//! Statement texts and parameter lists for the remote store.

use vstd::prelude::*;
use crate::json::{Json, Members, member_views};
use crate::params::{SqlParam, SqlParamV, json_to_param, param_for};
use crate::text::{
    append_chars, append_str, chars_of, decimal, push_decimal, str_eq, string_of, string_views,
};

verus! {

/// A statement for the remote store: its text, with `$1`, `$2`, ... for the
/// parameters, and the parameters in that order.
#[derive(Debug, PartialEq, Eq)]
pub struct Statement {
    pub sql: String,
    pub params: Vec<SqlParam>,
}

/// The mathematical content of a [`Statement`].
pub struct StatementV {
    pub sql: Seq<char>,
    pub params: Seq<SqlParamV>,
}

/// The contents of a list of parameters.
pub open spec fn param_views(params: Seq<SqlParam>) -> Seq<SqlParamV> {
    Seq::new(params.len(), |i: int| params[i]@)
}

impl View for Statement {
    type V = StatementV;

    open spec fn view(&self) -> StatementV {
        StatementV { sql: self.sql@, params: param_views(self.params@) }
    }
}

/// The texts with `sep` between each two of them.
pub open spec fn joined(parts: Seq<Seq<char>>, sep: Seq<char>) -> Seq<char>
    decreases parts.len(),
{
    if parts.len() == 0 {
        Seq::empty()
    } else if parts.len() == 1 {
        parts[0]
    } else {
        joined(parts.drop_last(), sep) + sep + parts.last()
    }
}

/// The names of the members, in order.
pub open spec fn names_of(members: Members) -> Seq<Seq<char>> {
    Seq::new(members.len(), |i: int| members[i].0)
}

/// The parameters for the members, in order: each value coerced under its
/// name.
pub open spec fn params_of(members: Members) -> Seq<SqlParamV> {
    Seq::new(members.len(), |i: int| param_for(members[i].0, members[i].1))
}

/// The placeholders `$first`, `$first+1`, ..., `count` of them.
pub open spec fn placeholders(count: nat, first: nat) -> Seq<Seq<char>> {
    Seq::new(count, |i: int| "$"@ + decimal((i + first) as nat))
}

/// The assignments `column = $n`, with `n` counting up from `first`.
pub open spec fn assignments(columns: Seq<Seq<char>>, first: nat) -> Seq<Seq<char>> {
    Seq::new(columns.len(), |i: int| columns[i] + " = $"@ + decimal((i + first) as nat))
}

/// What an insert into `table` does where the row's key is taken: nothing
/// for the two tables keyed by content hash, an overwrite of every column
/// for the others.
pub open spec fn conflict_clause(table: Seq<char>, columns: Seq<Seq<char>>) -> Seq<char> {
    if table == "blobs_meta"@ {
        " ON CONFLICT (sha256) DO NOTHING"@
    } else if table == "device_blobs"@ {
        " ON CONFLICT (device_id, sha256) DO NOTHING"@
    } else {
        " ON CONFLICT (id) DO UPDATE SET "@ + joined(assignments(columns, 1), ", "@)
    }
}

/// The text of the insert of `columns` into `table`.
pub open spec fn insert_sql(table: Seq<char>, columns: Seq<Seq<char>>) -> Seq<char> {
    "INSERT INTO "@ + table + " ("@ + joined(columns, ", "@) + ") VALUES ("@ + joined(
        placeholders(columns.len(), 1),
        ", "@,
    ) + ")"@ + conflict_clause(table, columns) + " RETURNING *"@
}

/// The text of the update of `columns` in the row of `table` whose `id` is
/// the first parameter.
pub open spec fn update_sql(table: Seq<char>, columns: Seq<Seq<char>>) -> Seq<char> {
    "UPDATE "@ + table + " SET "@ + joined(assignments(columns, 2), ", "@)
        + " WHERE id = $1 RETURNING *"@
}

/// The text that reads the `updated_at` of the row of `table` whose `id` is
/// the parameter.
pub open spec fn check_sql(table: Seq<char>) -> Seq<char> {
    "SELECT updated_at FROM "@ + table + " WHERE id = $1"@
}

/// The text that reads the row of `table` whose `id` is the parameter.
pub open spec fn fetch_sql(table: Seq<char>) -> Seq<char> {
    "SELECT * FROM "@ + table + " WHERE id = $1"@
}

/// The text that deletes the row of `table` whose `id` is the parameter.
pub open spec fn delete_sql(table: Seq<char>) -> Seq<char> {
    "DELETE FROM "@ + table + " WHERE id = $1 RETURNING *"@
}

/// Appends the texts with `sep` between each two of them.
pub fn append_joined(out: &mut String, parts: &Vec<String>, sep: &str)
    ensures
        final(out)@ == old(out)@ + joined(string_views(parts@), sep@),
{
    let ghost texts = string_views(parts@);
    let mut i: usize = 0;
    assert(texts.take(0) =~= Seq::empty());
    assert(out@ =~= old(out)@ + joined(texts.take(0), sep@));
    while i < parts.len()
        invariant
            i <= parts.len(),
            texts == string_views(parts@),
            out@ == old(out)@ + joined(texts.take(i as int), sep@),
        decreases parts.len() - i,
    {
        assert(texts.take(i + 1).drop_last() =~= texts.take(i as int));
        if i > 0 {
            append_str(out, sep);
        }
        append_str(out, parts[i].as_str());
        assert(out@ =~= old(out)@ + joined(texts.take(i + 1), sep@));
        i += 1;
    }
    assert(texts.take(i as int) =~= texts);
}

/// The names of the members, in order.
pub fn column_names(data: &Vec<(String, Json)>) -> (r: Vec<String>)
    ensures
        string_views(r@) == names_of(member_views(data@)),
{
    let mut names: Vec<String> = Vec::new();
    let mut i: usize = 0;
    while i < data.len()
        invariant
            i <= data.len(),
            names@.len() == i,
            forall|j: int| 0 <= j < i ==> (#[trigger] names@[j])@ == data@[j].0@,
        decreases data.len() - i,
    {
        names.push(data[i].0.clone());
        i += 1;
    }
    assert(string_views(names@) =~= names_of(member_views(data@)));
    names
}

/// Appends the parameters for the members, in order.
pub fn push_params(params: &mut Vec<SqlParam>, table: &str, data: &Vec<(String, Json)>)
    ensures
        param_views(final(params)@) == param_views(old(params)@) + params_of(member_views(data@)),
{
    let ghost members = member_views(data@);
    let mut i: usize = 0;
    assert(param_views(params@) =~= param_views(old(params)@) + params_of(members.take(0)));
    while i < data.len()
        invariant
            i <= data.len(),
            members == member_views(data@),
            param_views(params@) == param_views(old(params)@) + params_of(members.take(i as int)),
        decreases data.len() - i,
    {
        let ghost before = param_views(params@);
        let p = json_to_param(table, data[i].0.as_str(), &data[i].1);
        params.push(p);
        assert(param_views(params@) =~= before.push(
            param_for(members[i as int].0, members[i as int].1),
        ));
        assert(params_of(members.take(i + 1)) =~= params_of(members.take(i as int)).push(
            param_for(members[i as int].0, members[i as int].1),
        ));
        assert(param_views(params@) =~= param_views(old(params)@) + params_of(
            members.take(i + 1),
        ));
        i += 1;
    }
    assert(members.take(i as int) =~= members);
}

/// The placeholders `$first`, `$first+1`, ..., `count` of them.
pub fn make_placeholders(count: usize, first: u8) -> (r: Vec<String>)
    ensures
        string_views(r@) == placeholders(count as nat, first as nat),
{
    let mut out: Vec<String> = Vec::new();
    let mut i: usize = 0;
    while i < count
        invariant
            i <= count,
            out@.len() == i,
            forall|j: int|
                0 <= j < i ==> (#[trigger] out@[j])@ == "$"@ + decimal((j + first) as nat),
        decreases count - i,
    {
        let mut text: Vec<char> = chars_of("$");
        push_decimal(&mut text, i as u128 + first as u128);
        out.push(string_of(&text));
        i += 1;
    }
    assert(string_views(out@) =~= placeholders(count as nat, first as nat));
    out
}

/// The assignments `column = $n`, with `n` counting up from `first`.
pub fn make_assignments(columns: &Vec<String>, first: u8) -> (r: Vec<String>)
    ensures
        string_views(r@) == assignments(string_views(columns@), first as nat),
{
    let mut out: Vec<String> = Vec::new();
    let mut i: usize = 0;
    while i < columns.len()
        invariant
            i <= columns.len(),
            out@.len() == i,
            forall|j: int|
                0 <= j < i ==> (#[trigger] out@[j])@ == columns@[j]@ + " = $"@ + decimal(
                    (j + first) as nat,
                ),
        decreases columns.len() - i,
    {
        let mut text: String = columns[i].clone();
        append_str(&mut text, " = $");
        let mut number: Vec<char> = Vec::new();
        push_decimal(&mut number, i as u128 + first as u128);
        assert(number@ =~= decimal((i + first) as nat));
        append_chars(&mut text, &number);
        out.push(text);
        i += 1;
    }
    assert(string_views(out@) =~= assignments(string_views(columns@), first as nat));
    out
}

/// The text of the insert of `columns` into `table`.
pub fn build_insert_sql(table: &str, columns: &Vec<String>) -> (r: String)
    ensures
        r@ == insert_sql(table@, string_views(columns@)),
{
    let mut sql = String::new();
    append_str(&mut sql, "INSERT INTO ");
    append_str(&mut sql, table);
    append_str(&mut sql, " (");
    append_joined(&mut sql, columns, ", ");
    append_str(&mut sql, ") VALUES (");
    append_joined(&mut sql, &make_placeholders(columns.len(), 1), ", ");
    append_str(&mut sql, ")");
    let mut clause = String::new();
    if str_eq(table, "blobs_meta") {
        append_str(&mut clause, " ON CONFLICT (sha256) DO NOTHING");
    } else if str_eq(table, "device_blobs") {
        append_str(&mut clause, " ON CONFLICT (device_id, sha256) DO NOTHING");
    } else {
        append_str(&mut clause, " ON CONFLICT (id) DO UPDATE SET ");
        append_joined(&mut clause, &make_assignments(columns, 1), ", ");
    }
    assert(clause@ =~= conflict_clause(table@, string_views(columns@)));
    append_str(&mut sql, clause.as_str());
    append_str(&mut sql, " RETURNING *");
    assert(sql@ =~= insert_sql(table@, string_views(columns@)));
    sql
}

/// The text of the update of `columns` in one row of `table`.
pub fn build_update_sql(table: &str, columns: &Vec<String>) -> (r: String)
    ensures
        r@ == update_sql(table@, string_views(columns@)),
{
    let mut sql = String::new();
    append_str(&mut sql, "UPDATE ");
    append_str(&mut sql, table);
    append_str(&mut sql, " SET ");
    append_joined(&mut sql, &make_assignments(columns, 2), ", ");
    append_str(&mut sql, " WHERE id = $1 RETURNING *");
    assert(sql@ =~= update_sql(table@, string_views(columns@)));
    sql
}

/// `head`, then `table`, then `tail`.
pub fn build_for_table(head: &str, table: &str, tail: &str) -> (r: String)
    ensures
        r@ == head@ + table@ + tail@,
{
    let mut sql = String::new();
    append_str(&mut sql, head);
    append_str(&mut sql, table);
    append_str(&mut sql, tail);
    assert(sql@ =~= head@ + table@ + tail@);
    sql
}

} // verus!
