//! The remote store beside the batch of writes: how to reach it, which
//! tables it has, and the statements that announce a blob to it.

use vstd::prelude::*;
use crate::catalog::{Catalog, found, get_blob_by_hash};
use crate::params::{SqlParam, SqlParamV};
use crate::sql::{Statement, StatementV, build_for_table, param_views};
use crate::text::{append_chars, append_str, chars_of, decimal, push_decimal, str_eq};

verus! {

/// The number that a text of decimal digits spells. A text with another
/// character spells none; the empty text spells 0.
pub open spec fn decimal_value(digits: Seq<char>) -> Option<nat>
    decreases digits.len(),
{
    if digits.len() == 0 {
        Some(0)
    } else {
        match decimal_value(digits.drop_last()) {
            Some(front) => if '0' <= digits.last() && digits.last() <= '9' {
                Some(front * 10 + (digits.last() as u8 - 48) as nat)
            } else {
                None
            },
            None => None,
        }
    }
}

/// The port that a text spells: decimal digits, after a plus sign or
/// without one, of a number up to 65535.
pub open spec fn port_number(text: Seq<char>) -> Option<u16> {
    let digits = if text.len() > 0 && text[0] == '+' {
        text.skip(1)
    } else {
        text
    };
    if digits.len() == 0 {
        None
    } else {
        match decimal_value(digits) {
            Some(v) => if v <= 65535 {
                Some(v as u16)
            } else {
                None
            },
            None => None,
        }
    }
}

/// A text that goes on from digits that spell a number above the bound
/// spells a number above the bound, or none.
proof fn lemma_value_grows(digits: Seq<char>, i: int, bound: nat)
    requires
        0 <= i <= digits.len(),
        decimal_value(digits.take(i)) matches Some(v) && v > bound,
    ensures
        decimal_value(digits) matches Some(v) ==> v > bound,
    decreases digits.len() - i,
{
    if i < digits.len() {
        assert(digits.take(i + 1).drop_last() =~= digits.take(i));
        if decimal_value(digits.take(i + 1)) is Some {
            lemma_value_grows(digits, i + 1, bound);
        } else {
            lemma_value_stays_none(digits, i + 1);
        }
    } else {
        assert(digits.take(i) =~= digits);
    }
}

/// A text that goes on from digits that spell no number spells none.
proof fn lemma_value_stays_none(digits: Seq<char>, i: int)
    requires
        0 <= i <= digits.len(),
        decimal_value(digits.take(i)) is None,
    ensures
        decimal_value(digits) is None,
    decreases digits.len() - i,
{
    if i < digits.len() {
        assert(digits.take(i + 1).drop_last() =~= digits.take(i));
        lemma_value_stays_none(digits, i + 1);
    } else {
        assert(digits.take(i) =~= digits);
    }
}

/// Reads a port from a text.
pub fn parse_port(text: &str) -> (r: Option<u16>)
    ensures
        r == port_number(text@),
{
    let chars = chars_of(text);
    let start: usize = if chars.len() > 0 && chars[0] == '+' {
        1
    } else {
        0
    };
    if start >= chars.len() {
        return None;
    }
    let ghost digits = chars@.skip(start as int);
    assert(chars@.skip(0) =~= chars@);
    assert(digits == if text@.len() > 0 && text@[0] == '+' {
        text@.skip(1)
    } else {
        text@
    });
    let mut value: u32 = 0;
    let mut i: usize = start;
    assert(digits.take(0) =~= Seq::empty());
    while i < chars.len()
        invariant
            start <= i <= chars.len(),
            digits == chars@.skip(start as int),
            digits == if text@.len() > 0 && text@[0] == '+' {
                text@.skip(1)
            } else {
                text@
            },
            decimal_value(digits.take(i - start)) == Some(value as nat),
            value <= 65535,
        decreases chars.len() - i,
    {
        let c = chars[i];
        assert(digits.take(i + 1 - start).drop_last() =~= digits.take(i - start));
        assert(digits[i - start] == c);
        if !('0' <= c && c <= '9') {
            proof {
                lemma_value_stays_none(digits, i + 1 - start);
            }
            return None;
        }
        value = value * 10 + (c as u8 - 48) as u32;
        if value > 65535 {
            proof {
                lemma_value_grows(digits, i + 1 - start, 65535);
            }
            return None;
        }
        i += 1;
    }
    assert(digits.take(i - start) =~= digits);
    Some(value as u16)
}

/// How the remote store is reached.
#[derive(Debug, Clone, PartialEq, Eq)]
pub struct PgConfig {
    pub host: String,
    pub port: u16,
    pub user: String,
    pub password: String,
    pub database: String,
    pub ssl: bool,
}

/// The mathematical content of a [`PgConfig`].
pub struct PgConfigV {
    pub host: Seq<char>,
    pub port: u16,
    pub user: Seq<char>,
    pub password: Seq<char>,
    pub database: Seq<char>,
    pub ssl: bool,
}

impl View for PgConfig {
    type V = PgConfigV;

    open spec fn view(&self) -> PgConfigV {
        PgConfigV {
            host: self.host@,
            port: self.port,
            user: self.user@,
            password: self.password@,
            database: self.database@,
            ssl: self.ssl,
        }
    }
}

/// The setting, or the default where it is not set.
pub open spec fn or_default(setting: Option<String>, default: Seq<char>) -> Seq<char> {
    match setting {
        Some(s) => s@,
        None => default,
    }
}

/// The configuration for the given settings, given what parsing the port
/// gave: a local store named `deeprecall` on port 5432 without encryption,
/// unless they say otherwise. A port that is no number stands for the
/// default, and encryption is on for the setting `require` only.
pub open spec fn config_with(
    host: Option<String>,
    port: Option<u16>,
    user: Option<String>,
    password: Option<String>,
    database: Option<String>,
    ssl: Option<String>,
) -> PgConfigV {
    PgConfigV {
        host: or_default(host, "localhost"@),
        port: match port {
            Some(p) => p,
            None => 5432,
        },
        user: or_default(user, "deeprecall"@),
        password: or_default(password, "deeprecall"@),
        database: or_default(database, "deeprecall"@),
        ssl: or_default(ssl, "disable"@) == "require"@,
    }
}

/// The configuration for the given settings.
pub open spec fn config_of(
    host: Option<String>,
    port: Option<String>,
    user: Option<String>,
    password: Option<String>,
    database: Option<String>,
    ssl: Option<String>,
) -> PgConfigV {
    config_with(host, port_number(or_default(port, "5432"@)), user, password, database, ssl)
}

/// The setting, or the default where it is not set.
fn setting_or(setting: Option<String>, default: &str) -> (r: String)
    ensures
        r@ == or_default(setting, default@),
{
    match setting {
        Some(s) => s,
        None => default.to_owned(),
    }
}

/// Puts the configuration together from its settings and from what parsing
/// the port gave.
pub fn pg_config_with(
    host: Option<String>,
    port: Option<u16>,
    user: Option<String>,
    password: Option<String>,
    database: Option<String>,
    ssl: Option<String>,
) -> (r: PgConfig)
    ensures
        r@ == config_with(host, port, user, password, database, ssl),
{
    let ssl_text = setting_or(ssl, "disable");
    PgConfig {
        host: setting_or(host, "localhost"),
        port: match port {
            Some(p) => p,
            None => 5432,
        },
        user: setting_or(user, "deeprecall"),
        password: setting_or(password, "deeprecall"),
        database: setting_or(database, "deeprecall"),
        ssl: str_eq(ssl_text.as_str(), "require"),
    }
}

/// Reads the configuration of the remote store from its settings.
pub fn get_pg_config(
    host: Option<String>,
    port: Option<String>,
    user: Option<String>,
    password: Option<String>,
    database: Option<String>,
    ssl: Option<String>,
) -> (r: PgConfig)
    ensures
        r@ == config_of(host, port, user, password, database, ssl),
{
    let port_text = setting_or(port, "5432");
    pg_config_with(host, parse_port(port_text.as_str()), user, password, database, ssl)
}

/// The connection string for a configuration.
pub open spec fn connection_text(config: PgConfigV) -> Seq<char> {
    let plain = "host="@ + config.host + " port="@ + decimal(config.port as nat) + " user="@
        + config.user + " password="@ + config.password + " dbname="@ + config.database;
    if config.ssl {
        plain + " sslmode=require"@
    } else {
        plain
    }
}

/// Spells the connection string for a configuration.
pub fn connection_string(config: &PgConfig) -> (r: String)
    ensures
        r@ == connection_text(config@),
{
    let mut text = String::new();
    append_str(&mut text, "host=");
    append_str(&mut text, config.host.as_str());
    append_str(&mut text, " port=");
    let mut port: Vec<char> = Vec::new();
    push_decimal(&mut port, config.port as u128);
    assert(port@ =~= decimal(config.port as nat));
    append_chars(&mut text, &port);
    append_str(&mut text, " user=");
    append_str(&mut text, config.user.as_str());
    append_str(&mut text, " password=");
    append_str(&mut text, config.password.as_str());
    append_str(&mut text, " dbname=");
    append_str(&mut text, config.database.as_str());
    if config.ssl {
        append_str(&mut text, " sslmode=require");
    }
    text
}

/// Whether the remote store has a table of this name for its users to
/// read.
pub open spec fn is_known_table(table: Seq<char>) -> bool {
    ||| table == "works"@
    ||| table == "assets"@
    ||| table == "activities"@
    ||| table == "collections"@
    ||| table == "edges"@
    ||| table == "presets"@
    ||| table == "authors"@
    ||| table == "annotations"@
    ||| table == "cards"@
    ||| table == "review_logs"@
    ||| table == "boards"@
    ||| table == "strokes"@
    ||| table == "blobs_meta"@
    ||| table == "device_blobs"@
}

/// Tests a table name against the tables of the remote store.
pub fn names_known_table(table: &str) -> (r: bool)
    ensures
        r == is_known_table(table@),
{
    str_eq(table, "works") || str_eq(table, "assets") || str_eq(table, "activities") || str_eq(
        table,
        "collections",
    ) || str_eq(table, "edges") || str_eq(table, "presets") || str_eq(table, "authors") || str_eq(
        table,
        "annotations",
    ) || str_eq(table, "cards") || str_eq(table, "review_logs") || str_eq(table, "boards")
        || str_eq(table, "strokes") || str_eq(table, "blobs_meta") || str_eq(table, "device_blobs")
}

/// The tables that users may read, in the order in which all of them are
/// read.
pub open spec fn readable_tables() -> Seq<Seq<char>> {
    seq![
        "works"@,
        "assets"@,
        "activities"@,
        "collections"@,
        "edges"@,
        "presets"@,
        "authors"@,
        "annotations"@,
        "cards"@,
        "review_logs"@,
        "boards"@,
        "strokes"@,
        "blobs_meta"@,
        "device_blobs"@,
    ]
}

/// The contents of a list of string slices.
pub open spec fn slice_views(names: Seq<&'static str>) -> Seq<Seq<char>> {
    Seq::new(names.len(), |i: int| names[i]@)
}

/// The tables that users may read, in the order in which all of them are
/// read.
pub fn known_tables() -> (r: Vec<&'static str>)
    ensures
        slice_views(r@) == readable_tables(),
{
    let tables = vec![
        "works",
        "assets",
        "activities",
        "collections",
        "edges",
        "presets",
        "authors",
        "annotations",
        "cards",
        "review_logs",
        "boards",
        "strokes",
        "blobs_meta",
        "device_blobs",
    ];
    assert(slice_views(tables@) =~= readable_tables());
    tables
}

/// The statement that reads up to `limit` rows of a table, or the refusal
/// of a name that is no table of the store.
pub fn query_postgres_table(table: &str, limit: u32) -> (r: Result<String, String>)
    ensures
        is_known_table(table@) ==> r is Ok && r->Ok_0@ == "SELECT * FROM "@ + table@ + " LIMIT "@
            + decimal(limit as nat),
        !is_known_table(table@) ==> r is Err && r->Err_0@ == "Invalid table name: "@ + table@,
{
    if !names_known_table(table) {
        let mut message = String::new();
        append_str(&mut message, "Invalid table name: ");
        append_str(&mut message, table);
        return Err(message);
    }
    let mut sql = build_for_table("SELECT * FROM ", table, " LIMIT ");
    let mut number: Vec<char> = Vec::new();
    push_decimal(&mut number, limit as u128);
    assert(number@ =~= decimal(limit as nat));
    append_chars(&mut sql, &number);
    Ok(sql)
}

/// The tables to empty when all data is cleared, in an order in which no
/// row is deleted before one that refers to it.
pub open spec fn cleared_tables() -> Seq<Seq<char>> {
    seq![
        "review_logs"@,
        "cards"@,
        "annotations"@,
        "strokes"@,
        "boards"@,
        "edges"@,
        "device_blobs"@,
        "assets"@,
        "activities"@,
        "works"@,
        "collections"@,
        "authors"@,
        "presets"@,
        "replication_jobs"@,
        "blobs_meta"@,
    ]
}

/// The tables to empty when all data is cleared, in order.
pub fn clear_order() -> (r: Vec<&'static str>)
    ensures
        slice_views(r@) == cleared_tables(),
{
    let tables = vec![
        "review_logs",
        "cards",
        "annotations",
        "strokes",
        "boards",
        "edges",
        "device_blobs",
        "assets",
        "activities",
        "works",
        "collections",
        "authors",
        "presets",
        "replication_jobs",
        "blobs_meta",
    ];
    assert(slice_views(tables@) =~= cleared_tables());
    tables
}

/// The statements that empty the remote store: one `DELETE FROM` for each
/// table, in the order of `cleared_tables`.
pub fn clear_all_database() -> (r: Vec<String>)
    ensures
        r@.len() == cleared_tables().len(),
        forall|i: int|
            0 <= i < r@.len() ==> (#[trigger] r@[i])@ == "DELETE FROM "@ + cleared_tables()[i],
{
    let tables = clear_order();
    let mut out: Vec<String> = Vec::new();
    let mut i: usize = 0;
    while i < tables.len()
        invariant
            i <= tables.len(),
            slice_views(tables@) == cleared_tables(),
            out@.len() == i,
            forall|j: int|
                0 <= j < i ==> (#[trigger] out@[j])@ == "DELETE FROM "@ + cleared_tables()[j],
        decreases tables.len() - i,
    {
        assert(slice_views(tables@)[i as int] == tables@[i as int]@);
        let mut sql = String::new();
        append_str(&mut sql, "DELETE FROM ");
        append_str(&mut sql, tables[i]);
        assert(sql@ =~= "DELETE FROM "@ + cleared_tables()[i as int]);
        out.push(sql);
        i += 1;
    }
    assert(slice_views(tables@).len() == tables@.len());
    out
}

/// The text that inserts the content of a blob, unless its hash is taken.
pub const ANNOUNCE_META: &'static str =
    "INSERT INTO blobs_meta (sha256, size, mime, filename, created_ms) \
     VALUES ($1, $2, $3, $4, $5) ON CONFLICT (sha256) DO NOTHING";

/// The text that inserts the presence of a blob on a device, or refreshes
/// it where the device announced the blob before.
pub const ANNOUNCE_DEVICE: &'static str =
    "INSERT INTO device_blobs (id, device_id, sha256, present, health, created_ms) \
     VALUES ($1, $2, $3, $4, $5, $6) ON CONFLICT (device_id, sha256) DO UPDATE SET \
     present = EXCLUDED.present, health = EXCLUDED.health";

/// The statement that announces a blob's content to the remote store,
/// where it is not known yet.
pub open spec fn announce_meta(
    sha256: Seq<char>,
    size: i64,
    mime: Seq<char>,
    filename: Option<Seq<char>>,
    now_ms: i64,
) -> StatementV {
    StatementV {
        sql: ANNOUNCE_META@,
        params: seq![
            SqlParamV::Text(sha256),
            SqlParamV::Int(size),
            SqlParamV::Text(mime),
            match filename {
                Some(name) => SqlParamV::Text(name),
                None => SqlParamV::NullText,
            },
            SqlParamV::Int(now_ms),
        ],
    }
}

/// The statement that announces that a device holds a blob, present and
/// healthy; a device that announced it before has the two refreshed.
pub open spec fn announce_device(
    device_blob_id: u128,
    device_id: Seq<char>,
    sha256: Seq<char>,
    now_ms: i64,
) -> StatementV {
    StatementV {
        sql: ANNOUNCE_DEVICE@,
        params: seq![
            SqlParamV::Uuid(device_blob_id),
            SqlParamV::Text(device_id),
            SqlParamV::Text(sha256),
            SqlParamV::Bool(true),
            SqlParamV::Text("healthy"@),
            SqlParamV::Int(now_ms),
        ],
    }
}

/// The two statements that announce a blob of the catalog to the remote
/// store: its content, then its presence on the device. A blob that the
/// catalog does not know is refused.
pub fn sync_blob_to_electric(
    catalog: &Catalog,
    sha256: &str,
    device_id: &str,
    device_blob_id: u128,
    now_ms: i64,
) -> (r: Result<(Statement, Statement), String>)
    ensures
        match found(catalog@, sha256@) {
            Some(blob) => r is Ok && r->Ok_0.0@ == announce_meta(
                sha256@,
                blob.size,
                blob.mime,
                blob.filename,
                now_ms,
            ) && r->Ok_0.1@ == announce_device(device_blob_id, device_id@, sha256@, now_ms),
            None => r is Err && r->Err_0@ == "Blob not found: "@ + sha256@,
        },
{
    let blob = match get_blob_by_hash(catalog, sha256) {
        Some(blob) => blob,
        None => {
            let mut message = String::new();
            append_str(&mut message, "Blob not found: ");
            append_str(&mut message, sha256);
            return Err(message);
        },
    };
    let mut meta: Vec<SqlParam> = Vec::new();
    meta.push(SqlParam::Text(sha256.to_owned()));
    meta.push(SqlParam::Int(blob.size));
    meta.push(SqlParam::Text(blob.mime));
    meta.push(
        match blob.filename {
            Some(name) => SqlParam::Text(name),
            None => SqlParam::NullText,
        },
    );
    meta.push(SqlParam::Int(now_ms));
    let mut device: Vec<SqlParam> = Vec::new();
    device.push(SqlParam::Uuid(device_blob_id));
    device.push(SqlParam::Text(device_id.to_owned()));
    device.push(SqlParam::Text(sha256.to_owned()));
    device.push(SqlParam::Bool(true));
    device.push(SqlParam::Text("healthy".to_owned()));
    device.push(SqlParam::Int(now_ms));
    let first = Statement {
        sql: ANNOUNCE_META.to_owned(),
        params: meta,
    };
    let second = Statement {
        sql: ANNOUNCE_DEVICE.to_owned(),
        params: device,
    };
    assert(param_views(first.params@) =~= announce_meta(
        sha256@,
        blob@.size,
        blob@.mime,
        blob@.filename,
        now_ms,
    ).params);
    assert(param_views(second.params@) =~= announce_device(
        device_blob_id,
        device_id@,
        sha256@,
        now_ms,
    ).params);
    Ok((first, second))
}

} // verus!
