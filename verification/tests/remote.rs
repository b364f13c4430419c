use deeprecall::remote::pg_config_with;
use deeprecall::blobs::{clear_all_blobs, get_blob_stats};
use deeprecall::catalog::{Catalog, insert_blob, insert_path};
use deeprecall::json::{Json, JsonNumber};
use deeprecall::params::SqlParam;
use deeprecall::remote::{
    PgConfig, clear_all_database, clear_order, connection_string, get_pg_config, known_tables,
    names_known_table, query_postgres_table, sync_blob_to_electric,
};

fn some(s: &str) -> Option<String> {
    Some(s.to_string())
}

#[test]
fn configuration_has_defaults() {
    assert_eq!(
        get_pg_config(None, None, None, None, None, None),
        PgConfig {
            host: "localhost".to_string(),
            port: 5432,
            user: "deeprecall".to_string(),
            password: "deeprecall".to_string(),
            database: "deeprecall".to_string(),
            ssl: false,
        }
    );
}

#[test]
fn configuration_takes_the_settings() {
    let config = get_pg_config(
        some("db.example.com"),
        some("6543"),
        some("u"),
        some("p w"),
        some("d"),
        some("require"),
    );
    assert_eq!(
        config,
        PgConfig {
            host: "db.example.com".to_string(),
            port: 6543,
            user: "u".to_string(),
            password: "p w".to_string(),
            database: "d".to_string(),
            ssl: true,
        }
    );
    assert_eq!(
        connection_string(&config),
        "host=db.example.com port=6543 user=u password=p w dbname=d sslmode=require"
    );
}

#[test]
fn port_that_is_no_number_stands_for_the_default() {
    for port in ["", "abc", "65536", "-1", "54 32", "0x10"] {
        assert_eq!(get_pg_config(None, some(port), None, None, None, None).port, 5432, "{}", port);
    }
    assert_eq!(get_pg_config(None, some("0"), None, None, None, None).port, 0);
    assert_eq!(get_pg_config(None, some("65535"), None, None, None, None).port, 65535);
    assert_eq!(get_pg_config(None, some("+80"), None, None, None, None).port, 80);
}

#[test]
fn encryption_is_on_for_require_only() {
    for ssl in ["disable", "prefer", "Require", "", "true"] {
        assert!(!get_pg_config(None, None, None, None, None, some(ssl)).ssl, "{}", ssl);
    }
    let config = get_pg_config(None, None, None, None, None, None);
    assert_eq!(
        connection_string(&config),
        "host=localhost port=5432 user=deeprecall password=deeprecall dbname=deeprecall"
    );
}

#[test]
fn only_known_tables_are_read() {
    assert_eq!(query_postgres_table("works", 100), Ok("SELECT * FROM works LIMIT 100".to_string()));
    assert_eq!(
        query_postgres_table("device_blobs", 1000),
        Ok("SELECT * FROM device_blobs LIMIT 1000".to_string())
    );
    assert_eq!(
        query_postgres_table("works; DROP TABLE works", 100),
        Err("Invalid table name: works; DROP TABLE works".to_string())
    );
    assert_eq!(
        query_postgres_table("replication_jobs", 100),
        Err("Invalid table name: replication_jobs".to_string())
    );
    assert_eq!(query_postgres_table("", 0), Err("Invalid table name: ".to_string()));
    let tables = known_tables();
    assert_eq!(
        tables,
        vec![
            "works",
            "assets",
            "activities",
            "collections",
            "edges",
            "presets",
            "authors",
            "annotations",
            "cards",
            "review_logs",
            "boards",
            "strokes",
            "blobs_meta",
            "device_blobs"
        ]
    );
    for table in tables {
        assert!(names_known_table(table));
    }
    assert!(!names_known_table("Works"));
}

#[test]
fn store_is_cleared_table_by_table() {
    let statements = clear_all_database();
    let order = clear_order();
    assert_eq!(statements.len(), 15);
    assert_eq!(order.len(), 15);
    for (statement, table) in statements.iter().zip(order.iter()) {
        assert_eq!(statement, &format!("DELETE FROM {}", table));
    }
    assert_eq!(statements[0], "DELETE FROM review_logs");
    assert_eq!(statements[6], "DELETE FROM device_blobs");
    assert_eq!(statements[13], "DELETE FROM replication_jobs");
    assert_eq!(statements[14], "DELETE FROM blobs_meta");
}

#[test]
fn blob_is_announced_to_the_remote_store() {
    let mut c = Catalog::new();
    insert_blob(&mut c, "abcd", 12, "image/png", 5, Some("p.png"), 9);
    assert_eq!(insert_path(&mut c, "abcd", "/x"), Ok(()));
    let (meta, device) = sync_blob_to_electric(&c, "abcd", "laptop", 7, 1234).unwrap();
    assert_eq!(
        meta.sql,
        "INSERT INTO blobs_meta (sha256, size, mime, filename, created_ms) \
         VALUES ($1, $2, $3, $4, $5) ON CONFLICT (sha256) DO NOTHING"
    );
    assert_eq!(
        meta.params,
        vec![
            SqlParam::Text("abcd".to_string()),
            SqlParam::Int(12),
            SqlParam::Text("image/png".to_string()),
            SqlParam::Text("p.png".to_string()),
            SqlParam::Int(1234),
        ]
    );
    assert_eq!(
        device.sql,
        "INSERT INTO device_blobs (id, device_id, sha256, present, health, created_ms) \
         VALUES ($1, $2, $3, $4, $5, $6) ON CONFLICT (device_id, sha256) DO UPDATE SET \
         present = EXCLUDED.present, health = EXCLUDED.health"
    );
    assert_eq!(
        device.params,
        vec![
            SqlParam::Uuid(7),
            SqlParam::Text("laptop".to_string()),
            SqlParam::Text("abcd".to_string()),
            SqlParam::Bool(true),
            SqlParam::Text("healthy".to_string()),
            SqlParam::Int(1234),
        ]
    );
}

#[test]
fn blob_without_a_file_name_is_announced_with_a_null() {
    let mut c = Catalog::new();
    insert_blob(&mut c, "abcd", 12, "image/png", 5, None, 9);
    let (meta, _) = sync_blob_to_electric(&c, "ABCD", "laptop", 7, 1234).unwrap();
    assert_eq!(meta.params[0], SqlParam::Text("ABCD".to_string()));
    assert_eq!(meta.params[3], SqlParam::NullText);
}

#[test]
fn unknown_blob_is_not_announced() {
    let c = Catalog::new();
    assert_eq!(
        sync_blob_to_electric(&c, "abcd", "laptop", 7, 1234),
        Err("Blob not found: abcd".to_string())
    );
}

#[test]
fn statistics_are_a_document() {
    let mut c = Catalog::new();
    insert_blob(&mut c, "ab", 12, "image/png", 5, None, 9);
    insert_blob(&mut c, "cd", 30, "image/png", 5, None, 9);
    assert_eq!(
        get_blob_stats(&c),
        Ok(Json::Object(vec![
            ("totalBlobs".to_string(), Json::Number(JsonNumber::PosInt(2))),
            ("totalSize".to_string(), Json::Number(JsonNumber::PosInt(42))),
            ("byMimeType".to_string(), Json::Object(vec![])),
        ]))
    );
    clear_all_blobs(&mut c);
    assert_eq!(c.blob_count(), 0);
    assert_eq!(
        get_blob_stats(&c),
        Ok(Json::Object(vec![
            ("totalBlobs".to_string(), Json::Number(JsonNumber::PosInt(0))),
            ("totalSize".to_string(), Json::Number(JsonNumber::PosInt(0))),
            ("byMimeType".to_string(), Json::Object(vec![])),
        ]))
    );
}

#[test]
fn configuration_goes_by_what_parsing_the_port_gave() {
    assert_eq!(pg_config_with(None, Some(1), None, None, None, None).port, 1);
    assert_eq!(pg_config_with(None, None, None, None, None, None).port, 5432);
    assert_eq!(
        pg_config_with(some("h"), Some(2), some("u"), some("p"), some("d"), some("require")),
        PgConfig {
            host: "h".to_string(),
            port: 2,
            user: "u".to_string(),
            password: "p".to_string(),
            database: "d".to_string(),
            ssl: true,
        }
    );
}
