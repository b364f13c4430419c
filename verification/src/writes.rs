//! The write-replication engine: what to send to the remote store for a
//! pending change, and what to make of each reply.
//!
//! The engine never talks to the store itself. For each change it hands out
//! one statement at a time and is told what came back; conflicts are
//! resolved on the way: inserts are idempotent or overwrite, updates are
//! last-writer-wins by `updated_at`.

use vstd::prelude::*;
use crate::annotation::{annotation_row, transform_annotation_data};
use crate::ids::{parse_uuid, uuid_parse};
use crate::json::{
    Json, JsonNumber, JsonV, Members, get_member, lookup, member_views, remove_member, without,
};
use crate::naming::{keys_to_snake_case, snake_members};
use crate::params::{SqlParam, SqlParamV, parse_view};
use crate::rows::{Cell, CellV, SqlRow, row_members, row_to_json};
use crate::sql::{
    Statement, StatementV, build_for_table, build_insert_sql, build_update_sql, check_sql,
    column_names, delete_sql, fetch_sql, insert_sql, names_of, param_views, params_of, push_params,
    update_sql,
};
use crate::text::{append_str, str_eq};

verus! {

/// The kind of a pending change.
#[derive(Clone, Copy, Debug, PartialEq, Eq, Structural)]
pub enum WriteOperation {
    Insert,
    Update,
    Delete,
}

/// A pending change against the remote store.
#[derive(Debug, PartialEq, Eq)]
pub struct WriteChange {
    pub id: String,
    pub table: String,
    pub op: WriteOperation,
    pub payload: Json,
    pub created_at: i64,
    pub status: String,
    pub retry_count: i32,
}

/// The mathematical content of a [`WriteChange`].
pub struct WriteChangeV {
    pub id: Seq<char>,
    pub table: Seq<char>,
    pub op: WriteOperation,
    pub payload: JsonV,
    pub created_at: i64,
    pub status: Seq<char>,
    pub retry_count: i32,
}

impl View for WriteChange {
    type V = WriteChangeV;

    open spec fn view(&self) -> WriteChangeV {
        WriteChangeV {
            id: self.id@,
            table: self.table@,
            op: self.op,
            payload: self.payload@,
            created_at: self.created_at,
            status: self.status@,
            retry_count: self.retry_count,
        }
    }
}

/// The outcome of one change.
#[derive(Debug, PartialEq, Eq)]
pub struct WriteResult {
    pub id: String,
    pub success: bool,
    pub data: Option<Json>,
    pub error: Option<String>,
}

/// The mathematical content of a [`WriteResult`].
pub struct WriteResultV {
    pub id: Seq<char>,
    pub success: bool,
    pub data: Option<JsonV>,
    pub error: Option<Seq<char>>,
}

impl View for WriteResult {
    type V = WriteResultV;

    open spec fn view(&self) -> WriteResultV {
        WriteResultV {
            id: self.id@,
            success: self.success,
            data: match self.data {
                Some(d) => Some(d@),
                None => None,
            },
            error: match self.error {
                Some(e) => Some(e@),
                None => None,
            },
        }
    }
}

/// Which statement of a change is under way.
#[derive(Clone, Copy, Debug, PartialEq, Eq, Structural)]
pub enum Phase {
    /// The insert; every row it returns is wanted.
    Insert,
    /// The read of the remote row's `updated_at`; at most one row.
    UpdateCheck,
    /// The read of the remote row that supersedes an update; one row.
    UpdateFetch,
    /// The update; one row.
    Update,
    /// The delete; at most one row.
    Delete,
}

/// What the engine wants next for a change.
#[derive(Debug, PartialEq, Eq)]
pub enum Step {
    /// Run the statement and come back with the reply.
    Send(Statement, Phase),
    /// The change is settled: the resulting row, `Null` where there is none,
    /// or the failure.
    Done(Result<Json, String>),
}

/// The mathematical content of a [`Step`].
pub enum StepV {
    Send(StatementV, Phase),
    Done(Result<JsonV, Seq<char>>),
}

impl View for Step {
    type V = StepV;

    open spec fn view(&self) -> StepV {
        match self {
            Step::Send(statement, phase) => StepV::Send(statement@, *phase),
            Step::Done(Ok(row)) => StepV::Done(Ok(row@)),
            Step::Done(Err(message)) => StepV::Done(Err(message@)),
        }
    }
}

/// What the remote store made of a statement.
#[derive(Debug, PartialEq, Eq)]
pub enum Reply {
    /// The rows it returned.
    Rows(Vec<SqlRow>),
    /// Its error, as text.
    Failed(String),
}

/// The mathematical content of a [`Reply`].
pub enum ReplyV {
    Rows(Seq<Seq<(Seq<char>, CellV)>>),
    Failed(Seq<char>),
}

/// The contents of a list of rows.
pub open spec fn row_views(rows: Seq<SqlRow>) -> Seq<Seq<(Seq<char>, CellV)>> {
    Seq::new(rows.len(), |i: int| rows[i]@)
}

impl View for Reply {
    type V = ReplyV;

    open spec fn view(&self) -> ReplyV {
        match self {
            Reply::Rows(rows) => ReplyV::Rows(row_views(rows@)),
            Reply::Failed(message) => ReplyV::Failed(message@),
        }
    }
}

/// The row that a payload for `table` stands for: flattened where the table
/// has a transform, and with the store's field names. A payload that is no
/// object is refused.
pub open spec fn prepared(table: Seq<char>, payload: JsonV) -> Result<Members, Seq<char>> {
    match payload {
        JsonV::Object(members) => if table == "annotations"@ {
            Ok(snake_members(annotation_row(members)))
        } else {
            Ok(snake_members(members))
        },
        _ => if table == "annotations"@ {
            Err("Validated payload must be an object"@)
        } else {
            Err("Payload must be an object"@)
        },
    }
}

/// The `id` of a row, where it is a string.
pub open spec fn row_id(data: Members) -> Option<Seq<char>> {
    match lookup(data, "id"@) {
        Some(JsonV::String(id)) => Some(id),
        _ => None,
    }
}

/// The `updated_at` that a row claims: its integer value where that fits
/// the signed 64-bit range, else 0.
pub open spec fn claimed_updated_at(data: Members) -> i64 {
    match lookup(data, "updated_at"@) {
        Some(JsonV::Number(JsonNumber::PosInt(u))) => if u <= i64::MAX {
            u as i64
        } else {
            0
        },
        Some(JsonV::Number(JsonNumber::NegInt(i))) => i,
        _ => 0,
    }
}

/// The `updated_at` that the remote store reports: the integer in the first
/// column of the row.
pub open spec fn remote_updated_at(row: Seq<(Seq<char>, CellV)>) -> Option<i64> {
    if row.len() > 0 && row[0].1 is Int {
        Some(row[0].1->Int_0)
    } else {
        None
    }
}

/// The statement with one text parameter.
pub open spec fn keyed(sql: Seq<char>, id: Seq<char>) -> StatementV {
    StatementV { sql, params: seq![SqlParamV::Text(id)] }
}

/// The first step of an insert: the insert statement for the prepared row.
pub open spec fn insert_step(table: Seq<char>, payload: JsonV) -> StepV {
    match prepared(table, payload) {
        Err(e) => StepV::Done(Err(e)),
        Ok(data) => StepV::Send(
            StatementV { sql: insert_sql(table, names_of(data)), params: params_of(data) },
            Phase::Insert,
        ),
    }
}

/// The first step of an update: the read of the remote row's `updated_at`.
/// A row without a string `id` is refused.
pub open spec fn update_step(table: Seq<char>, payload: JsonV) -> StepV {
    match prepared(table, payload) {
        Err(e) => StepV::Done(Err(e)),
        Ok(data) => match row_id(data) {
            None => StepV::Done(Err("Missing id in update payload"@)),
            Some(id) => StepV::Send(keyed(check_sql(table), id), Phase::UpdateCheck),
        },
    }
}

/// The first step of a delete, given what parsing the `id` gave: the
/// delete statement for the identifier, or the refusal of a text that is
/// none.
pub open spec fn delete_by(table: Seq<char>, parsed: Result<u128, Seq<char>>) -> StepV {
    match parsed {
        Ok(id) => StepV::Send(
            StatementV { sql: delete_sql(table), params: seq![SqlParamV::Uuid(id)] },
            Phase::Delete,
        ),
        Err(message) => StepV::Done(Err("Invalid UUID format: "@ + message)),
    }
}

/// The first step of a delete: the delete statement for the payload's `id`,
/// which has to be a string that parses as an identifier.
pub open spec fn delete_step(table: Seq<char>, payload: JsonV) -> StepV {
    match payload {
        JsonV::Object(members) => match lookup(members, "id"@) {
            Some(JsonV::String(text)) => delete_by(table, uuid_parse(text)),
            _ => StepV::Done(Err("Missing id in delete payload"@)),
        },
        _ => StepV::Done(Err("Missing id in delete payload"@)),
    }
}

/// The first step of a change.
pub open spec fn first_step(change: WriteChangeV) -> StepV {
    match change.op {
        WriteOperation::Insert => insert_step(change.table, change.payload),
        WriteOperation::Update => update_step(change.table, change.payload),
        WriteOperation::Delete => delete_step(change.table, change.payload),
    }
}

/// The step that settles an update once the remote row's `updated_at` is
/// known: a strictly older claim is superseded and only reads the remote
/// row; any other claim overwrites every field but `id`.
pub open spec fn resolve_update(table: Seq<char>, payload: JsonV, remote: i64) -> StepV {
    match prepared(table, payload) {
        Err(e) => StepV::Done(Err(e)),
        Ok(data) => match row_id(data) {
            None => StepV::Done(Err("Missing id in update payload"@)),
            Some(id) => if claimed_updated_at(data) < remote {
                StepV::Send(keyed(fetch_sql(table), id), Phase::UpdateFetch)
            } else {
                StepV::Send(
                    StatementV {
                        sql: update_sql(table, names_of(without(data, "id"@))),
                        params: seq![SqlParamV::Text(id)] + params_of(without(data, "id"@)),
                    },
                    Phase::Update,
                )
            },
        },
    }
}

/// The failure of a statement: what was being done, then the store's words.
pub open spec fn failure(doing: Seq<char>, message: Seq<char>) -> StepV {
    StepV::Done(Err(doing + message))
}

/// The document of a row.
pub open spec fn row_json(row: Seq<(Seq<char>, CellV)>) -> JsonV {
    JsonV::Object(row_members(row))
}

/// The step after a statement that must return exactly one row.
pub open spec fn expect_one(doing: Seq<char>, reply: ReplyV) -> StepV {
    match reply {
        ReplyV::Failed(message) => failure(doing, message),
        ReplyV::Rows(rows) => if rows.len() == 1 {
            StepV::Done(Ok(row_json(rows[0])))
        } else {
            failure(doing, "query returned an unexpected number of rows"@)
        },
    }
}

/// The step after the reply to the statement of `phase`.
pub open spec fn next_step(
    table: Seq<char>,
    payload: JsonV,
    phase: Phase,
    reply: ReplyV,
) -> StepV {
    match phase {
        Phase::Insert => match reply {
            ReplyV::Failed(message) => failure("Insert failed: "@, message),
            ReplyV::Rows(rows) => if rows.len() > 0 {
                StepV::Done(Ok(row_json(rows[0])))
            } else {
                StepV::Done(Ok(JsonV::Null))
            },
        },
        Phase::UpdateCheck => match reply {
            ReplyV::Failed(message) => failure("Failed to check existing record: "@, message),
            ReplyV::Rows(rows) => if rows.len() == 0 {
                insert_step(table, payload)
            } else if rows.len() > 1 {
                failure(
                    "Failed to check existing record: "@,
                    "query returned an unexpected number of rows"@,
                )
            } else {
                match remote_updated_at(rows[0]) {
                    Some(remote) => resolve_update(table, payload, remote),
                    None => failure(
                        "Failed to check existing record: "@,
                        "updated_at is not an integer"@,
                    ),
                }
            },
        },
        Phase::UpdateFetch => expect_one("Failed to fetch existing record: "@, reply),
        Phase::Update => expect_one("Update failed: "@, reply),
        Phase::Delete => match reply {
            ReplyV::Failed(message) => failure("Delete failed: "@, message),
            ReplyV::Rows(rows) => if rows.len() == 0 {
                StepV::Done(Ok(JsonV::Null))
            } else if rows.len() == 1 {
                StepV::Done(Ok(row_json(rows[0])))
            } else {
                failure("Delete failed: "@, "query returned an unexpected number of rows"@)
            },
        },
    }
}

/// The row that the payload of a change stands for.
pub fn prepare(change: &WriteChange) -> (r: Result<Vec<(String, Json)>, String>)
    ensures
        match prepared(change.table@, change.payload@) {
            Ok(data) => r is Ok && member_views(r->Ok_0@) == data,
            Err(e) => r is Err && r->Err_0@ == e,
        },
{
    if str_eq(change.table.as_str(), "annotations") {
        match transform_annotation_data(&change.payload) {
            Ok(transformed) => keys_to_snake_case(&transformed),
            Err(e) => Err(e),
        }
    } else {
        keys_to_snake_case(&change.payload)
    }
}

/// The string member `id` of a row.
fn string_id(data: &Vec<(String, Json)>) -> (r: Option<String>)
    ensures
        match row_id(member_views(data@)) {
            Some(id) => r is Some && r->0@ == id,
            None => r is None,
        },
{
    match get_member(data, "id") {
        Some(Json::String(id)) => Some(id.clone()),
        _ => None,
    }
}

/// The statement `head table tail` with the text `id` as its parameter.
fn keyed_statement(head: &str, table: &str, tail: &str, id: String) -> (r: Statement)
    ensures
        r@ == keyed(head@ + table@ + tail@, id@),
{
    let mut params: Vec<SqlParam> = Vec::new();
    params.push(SqlParam::Text(id));
    assert(param_views(params@) =~= seq![SqlParamV::Text(id@)]);
    Statement { sql: build_for_table(head, table, tail), params }
}

/// A failure: what was being done, then the store's words.
fn fail(doing: &str, message: &str) -> (r: Step)
    ensures
        r@ == failure(doing@, message@),
{
    let mut text = String::new();
    append_str(&mut text, doing);
    append_str(&mut text, message);
    assert(text@ =~= doing@ + message@);
    Step::Done(Err(text))
}

/// Starts an insert: the statement that inserts the prepared row, with the
/// conflict handling of its table.
pub fn apply_insert(change: &WriteChange) -> (r: Step)
    ensures
        r@ == insert_step(change.table@, change.payload@),
{
    match prepare(change) {
        Err(e) => Step::Done(Err(e)),
        Ok(data) => {
            let columns = column_names(&data);
            let sql = build_insert_sql(change.table.as_str(), &columns);
            let mut params: Vec<SqlParam> = Vec::new();
            assert(param_views(params@) =~= Seq::empty());
            push_params(&mut params, change.table.as_str(), &data);
            assert(param_views(params@) =~= params_of(member_views(data@)));
            Step::Send(Statement { sql, params }, Phase::Insert)
        },
    }
}

/// Starts an update: the statement that reads the remote row's
/// `updated_at`.
pub fn apply_update(change: &WriteChange) -> (r: Step)
    ensures
        r@ == update_step(change.table@, change.payload@),
{
    match prepare(change) {
        Err(e) => Step::Done(Err(e)),
        Ok(data) => match string_id(&data) {
            None => Step::Done(Err("Missing id in update payload".to_owned())),
            Some(id) => Step::Send(
                keyed_statement(
                    "SELECT updated_at FROM ",
                    change.table.as_str(),
                    " WHERE id = $1",
                    id,
                ),
                Phase::UpdateCheck,
            ),
        },
    }
}

/// Starts a delete: the statement that deletes the row of the payload's
/// `id`.
pub fn apply_delete(change: &WriteChange) -> (r: Step)
    ensures
        r@ == delete_step(change.table@, change.payload@),
{
    let text = match change.payload.get("id") {
        Some(Json::String(text)) => text,
        _ => {
            return Step::Done(Err("Missing id in delete payload".to_owned()));
        },
    };
    delete_by_id(change.table.as_str(), parse_uuid(text.as_str()))
}

/// Starts the delete of the row of an `id`, given what parsing the `id`
/// gave.
pub fn delete_by_id(table: &str, parsed: Result<u128, String>) -> (r: Step)
    ensures
        r@ == delete_by(table@, parse_view(parsed)),
{
    match parsed {
        Err(message) => fail("Invalid UUID format: ", message.as_str()),
        Ok(id) => {
            let mut params: Vec<SqlParam> = Vec::new();
            params.push(SqlParam::Uuid(id));
            assert(param_views(params@) =~= seq![SqlParamV::Uuid(id)]);
            Step::Send(
                Statement {
                    sql: build_for_table("DELETE FROM ", table, " WHERE id = $1 RETURNING *"),
                    params,
                },
                Phase::Delete,
            )
        },
    }
}

/// Starts a change.
pub fn begin_write(change: &WriteChange) -> (r: Step)
    ensures
        r@ == first_step(change@),
{
    match change.op {
        WriteOperation::Insert => apply_insert(change),
        WriteOperation::Update => apply_update(change),
        WriteOperation::Delete => apply_delete(change),
    }
}

/// The `updated_at` that a row claims.
pub fn client_updated_at(data: &Vec<(String, Json)>) -> (r: i64)
    ensures
        r == claimed_updated_at(member_views(data@)),
{
    match get_member(data, "updated_at") {
        Some(Json::Number(JsonNumber::PosInt(u))) => {
            if *u <= 0x7fff_ffff_ffff_ffff {
                *u as i64
            } else {
                0
            }
        },
        Some(Json::Number(JsonNumber::NegInt(i))) => *i,
        _ => 0,
    }
}

/// Decides an update against the remote row's `updated_at`: the remote row
/// wins over a strictly older claim and is read back unchanged; otherwise
/// every field but `id` is overwritten.
pub fn decide_update(change: &WriteChange, remote: i64) -> (r: Step)
    ensures
        r@ == resolve_update(change.table@, change.payload@, remote),
{
    match prepare(change) {
        Err(e) => Step::Done(Err(e)),
        Ok(data) => match string_id(&data) {
            None => Step::Done(Err("Missing id in update payload".to_owned())),
            Some(id) => {
                if client_updated_at(&data) < remote {
                    Step::Send(
                        keyed_statement(
                            "SELECT * FROM ",
                            change.table.as_str(),
                            " WHERE id = $1",
                            id,
                        ),
                        Phase::UpdateFetch,
                    )
                } else {
                    let mut fields = data;
                    remove_member(&mut fields, "id");
                    let columns = column_names(&fields);
                    let sql = build_update_sql(change.table.as_str(), &columns);
                    let mut params: Vec<SqlParam> = Vec::new();
                    params.push(SqlParam::Text(id));
                    assert(param_views(params@) =~= seq![SqlParamV::Text(id@)]);
                    push_params(&mut params, change.table.as_str(), &fields);
                    Step::Send(Statement { sql, params }, Phase::Update)
                }
            },
        },
    }
}

/// The step after a statement that must return exactly one row.
fn one_row(doing: &str, reply: &Reply) -> (r: Step)
    ensures
        r@ == expect_one(doing@, reply@),
{
    match reply {
        Reply::Failed(message) => fail(doing, message.as_str()),
        Reply::Rows(rows) => {
            if rows.len() == 1 {
                Step::Done(Ok(row_to_json(&rows[0])))
            } else {
                fail(doing, "query returned an unexpected number of rows")
            }
        },
    }
}

/// Takes the reply to the statement of `phase` and says what comes next for
/// the change.
pub fn continue_write(change: &WriteChange, phase: Phase, reply: &Reply) -> (r: Step)
    ensures
        r@ == next_step(change.table@, change.payload@, phase, reply@),
{
    match phase {
        Phase::Insert => match reply {
            Reply::Failed(message) => fail("Insert failed: ", message.as_str()),
            Reply::Rows(rows) => {
                if rows.len() > 0 {
                    Step::Done(Ok(row_to_json(&rows[0])))
                } else {
                    Step::Done(Ok(Json::Null))
                }
            },
        },
        Phase::UpdateCheck => match reply {
            Reply::Failed(message) => fail("Failed to check existing record: ", message.as_str()),
            Reply::Rows(rows) => {
                if rows.len() == 0 {
                    apply_insert(change)
                } else if rows.len() > 1 {
                    fail(
                        "Failed to check existing record: ",
                        "query returned an unexpected number of rows",
                    )
                } else {
                    let row = &rows[0];
                    if row.columns.len() > 0 {
                        match &row.columns[0].value {
                            Cell::Int(remote) => {
                                return decide_update(change, *remote);
                            },
                            _ => {},
                        }
                    }
                    fail("Failed to check existing record: ", "updated_at is not an integer")
                }
            },
        },
        Phase::UpdateFetch => one_row("Failed to fetch existing record: ", reply),
        Phase::Update => one_row("Update failed: ", reply),
        Phase::Delete => match reply {
            Reply::Failed(message) => fail("Delete failed: ", message.as_str()),
            Reply::Rows(rows) => {
                if rows.len() == 0 {
                    Step::Done(Ok(Json::Null))
                } else if rows.len() == 1 {
                    Step::Done(Ok(row_to_json(&rows[0])))
                } else {
                    fail("Delete failed: ", "query returned an unexpected number of rows")
                }
            },
        },
    }
}

} // verus!
