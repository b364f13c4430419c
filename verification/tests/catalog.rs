use deeprecall::catalog::{
    BlobRow, Catalog, CatalogError, delete_blob, get_blob_by_hash, get_stats, insert_blob,
    insert_path, list_all_blobs, update_filename, upsert_blob,
};
use deeprecall::types::{BlobInfo, BlobWithMetadata, HealthReport, clone_opt};

const H1: &str = "aa00000000000000000000000000000000000000000000000000000000000001";
const H2: &str = "bb00000000000000000000000000000000000000000000000000000000000002";

fn info(hash: &str, filename: Option<&str>, size: i64, path: Option<&str>) -> BlobInfo {
    BlobInfo {
        sha256: hash.to_string(),
        filename: filename.map(|s| s.to_string()),
        size,
        mime: "text/plain".to_string(),
        created_ms: 9,
        mtime_ms: 5,
        path: path.map(|s| s.to_string()),
        health: Some("healthy".to_string()),
    }
}

fn row(hash: &str, size: i64, health: Option<&str>) -> BlobRow {
    BlobRow {
        hash: hash.to_string(),
        size,
        mime: "image/png".to_string(),
        mtime_ms: 1,
        created_ms: 2,
        filename: None,
        health: health.map(|s| s.to_string()),
        image_width: Some(640),
        image_height: Some(480),
        line_count: None,
    }
}

#[test]
fn inserted_blob_is_found() {
    let mut c = Catalog::new();
    assert_eq!(get_blob_by_hash(&c, H1), None);
    insert_blob(&mut c, H1, 3, "text/plain", 5, Some("a.txt"), 9);
    assert_eq!(get_blob_by_hash(&c, H1), Some(info(H1, Some("a.txt"), 3, None)));
    assert_eq!(get_blob_by_hash(&c, H2), None);
    assert_eq!(c.blob_count(), 1);
}

#[test]
fn hashes_are_compared_without_regard_to_case() {
    let mut c = Catalog::new();
    insert_blob(&mut c, H1, 3, "text/plain", 5, None, 9);
    let upper = H1.to_uppercase();
    assert_eq!(get_blob_by_hash(&c, &upper), Some(info(H1, None, 3, None)));
    insert_blob(&mut c, &upper, 4, "text/plain", 5, None, 9);
    assert_eq!(c.blob_count(), 1);
    assert_eq!(get_blob_by_hash(&c, H1), Some(info(&upper, None, 4, None)));
    assert_eq!(insert_path(&mut c, H1, "/p"), Ok(()));
    assert_eq!(get_blob_by_hash(&c, &upper).unwrap().path, Some("/p".to_string()));
}

#[test]
fn insert_is_an_upsert_by_hash() {
    let mut c = Catalog::new();
    insert_blob(&mut c, H1, 3, "text/plain", 5, Some("a.txt"), 9);
    insert_blob(&mut c, H2, 1, "text/plain", 5, None, 9);
    insert_blob(&mut c, H1, 30, "text/plain", 5, Some("b.txt"), 9);
    assert_eq!(c.blob_count(), 2);
    assert_eq!(get_blob_by_hash(&c, H1), Some(info(H1, Some("b.txt"), 30, None)));
    let listed: Vec<String> = list_all_blobs(&c).into_iter().map(|b| b.sha256).collect();
    assert_eq!(listed, vec![H1.to_string(), H2.to_string()]);
}

#[test]
fn repeated_insert_changes_nothing() {
    let mut c = Catalog::new();
    insert_blob(&mut c, H1, 3, "text/plain", 5, Some("a.txt"), 9);
    assert_eq!(insert_path(&mut c, H1, "/p"), Ok(()));
    let before = list_all_blobs(&c);
    insert_blob(&mut c, H1, 3, "text/plain", 5, Some("a.txt"), 9);
    assert_eq!(insert_path(&mut c, H1, "/p"), Ok(()));
    assert_eq!(list_all_blobs(&c), before);
    assert_eq!(before.len(), 1);
}

#[test]
fn path_of_an_unknown_blob_is_refused() {
    let mut c = Catalog::new();
    assert_eq!(insert_path(&mut c, H1, "/p"), Err(CatalogError::UnknownBlob));
    insert_blob(&mut c, H1, 3, "text/plain", 5, None, 9);
    assert_eq!(insert_path(&mut c, H2, "/p"), Err(CatalogError::UnknownBlob));
    assert_eq!(get_blob_by_hash(&c, H1).unwrap().path, None);
}

#[test]
fn path_is_an_upsert_by_path() {
    let mut c = Catalog::new();
    insert_blob(&mut c, H1, 3, "text/plain", 5, None, 9);
    insert_blob(&mut c, H2, 3, "text/plain", 5, None, 9);
    assert_eq!(insert_path(&mut c, H1, "/p"), Ok(()));
    assert_eq!(insert_path(&mut c, H2, "/p"), Ok(()));
    assert_eq!(get_blob_by_hash(&c, H1).unwrap().path, None);
    assert_eq!(get_blob_by_hash(&c, H2).unwrap().path, Some("/p".to_string()));
}

#[test]
fn list_joins_paths_onto_blobs() {
    let mut c = Catalog::new();
    insert_blob(&mut c, H1, 3, "text/plain", 5, None, 9);
    insert_blob(&mut c, H2, 4, "text/plain", 5, Some("n"), 9);
    assert_eq!(insert_path(&mut c, H2, "/x"), Ok(()));
    assert_eq!(insert_path(&mut c, H2, "/y"), Ok(()));
    let listed = list_all_blobs(&c);
    let expected: Vec<BlobWithMetadata> = vec![
        info(H1, None, 3, None).into(),
        info(H2, Some("n"), 4, Some("/x")).into(),
        info(H2, Some("n"), 4, Some("/y")).into(),
    ];
    assert_eq!(listed, expected);
    assert_eq!(get_blob_by_hash(&c, H2).unwrap().path, Some("/x".to_string()));
}

#[test]
fn list_carries_what_is_known_of_the_content() {
    let mut c = Catalog::new();
    upsert_blob(&mut c, row(H1, 10, Some("modified")));
    let listed = list_all_blobs(&c);
    assert_eq!(listed.len(), 1);
    assert_eq!(listed[0].image_width, Some(640));
    assert_eq!(listed[0].image_height, Some(480));
    assert_eq!(listed[0].line_count, None);
    assert_eq!(listed[0].page_count, None);
    assert_eq!(listed[0].health, Some("modified".to_string()));
    assert_eq!(listed[0].path, None);
}

#[test]
fn delete_removes_the_blob_and_its_paths() {
    let mut c = Catalog::new();
    insert_blob(&mut c, H1, 3, "text/plain", 5, None, 9);
    insert_blob(&mut c, H2, 4, "text/plain", 5, None, 9);
    assert_eq!(insert_path(&mut c, H1, "/x"), Ok(()));
    assert_eq!(insert_path(&mut c, H2, "/y"), Ok(()));
    delete_blob(&mut c, H1);
    assert_eq!(get_blob_by_hash(&c, H1), None);
    assert_eq!(list_all_blobs(&c), vec![BlobWithMetadata::from(info(H2, None, 4, Some("/y")))]);
    delete_blob(&mut c, H1);
    assert_eq!(c.blob_count(), 1);
    insert_blob(&mut c, H1, 3, "text/plain", 5, None, 9);
    assert_eq!(get_blob_by_hash(&c, H1).unwrap().path, None);
}

#[test]
fn rename_changes_the_file_name_only() {
    let mut c = Catalog::new();
    insert_blob(&mut c, H1, 3, "text/plain", 5, Some("a.txt"), 9);
    update_filename(&mut c, H1, "b.txt");
    assert_eq!(get_blob_by_hash(&c, H1), Some(info(H1, Some("b.txt"), 3, None)));
    update_filename(&mut c, H2, "c.txt");
    assert_eq!(c.blob_count(), 1);
    assert_eq!(get_blob_by_hash(&c, H2), None);
}

#[test]
fn stats_count_by_health_and_add_sizes() {
    let mut c = Catalog::new();
    assert_eq!(
        get_stats(&c),
        Ok(HealthReport {
            total_blobs: 0,
            healthy: 0,
            missing: 0,
            modified: 0,
            relocated: 0,
            total_size: 0
        })
    );
    upsert_blob(&mut c, row(H1, 10, Some("healthy")));
    upsert_blob(&mut c, row(H2, 20, Some("missing")));
    upsert_blob(&mut c, row("cc", 30, Some("modified")));
    upsert_blob(&mut c, row("dd", 40, Some("relocated")));
    upsert_blob(&mut c, row("ee", 50, Some("healthy")));
    upsert_blob(&mut c, row("ff", 60, None));
    upsert_blob(&mut c, row("ab", 70, Some("odd")));
    assert_eq!(
        get_stats(&c),
        Ok(HealthReport {
            total_blobs: 7,
            healthy: 2,
            missing: 1,
            modified: 1,
            relocated: 1,
            total_size: 280
        })
    );
}

#[test]
fn stats_refuse_a_total_that_does_not_fit() {
    let mut c = Catalog::new();
    upsert_blob(&mut c, row(H1, i64::MAX, Some("healthy")));
    assert_eq!(get_stats(&c).unwrap().total_size, i64::MAX);
    upsert_blob(&mut c, row(H2, 1, Some("healthy")));
    assert_eq!(get_stats(&c), Err(CatalogError::Overflow));
    upsert_blob(&mut c, row("cc", -1, Some("healthy")));
    assert_eq!(get_stats(&c).unwrap().total_size, i64::MAX);
}

#[test]
fn lost_blobs_are_those_without_a_file() {
    let mut c = Catalog::new();
    insert_blob(&mut c, H1, 3, "text/plain", 5, None, 9);
    insert_blob(&mut c, H2, 4, "text/plain", 5, None, 9);
    assert_eq!(insert_path(&mut c, H1, "/x"), Ok(()));
    assert_eq!(c.count_lost(&vec![]), 2);
    assert_eq!(c.count_lost(&vec!["/x".to_string()]), 1);
    assert_eq!(c.count_lost(&vec!["/y".to_string()]), 2);
    assert_eq!(insert_path(&mut c, H2, "/y"), Ok(()));
    assert_eq!(c.count_lost(&vec!["/y".to_string(), "/x".to_string()]), 0);
}

#[test]
fn record_without_metadata_comes_from_info() {
    let meta = BlobWithMetadata::from(info(H1, Some("a"), 3, Some("/x")));
    assert_eq!(meta.sha256, H1);
    assert_eq!(meta.filename, Some("a".to_string()));
    assert_eq!(meta.size, 3);
    assert_eq!(meta.mime, "text/plain");
    assert_eq!(meta.created_ms, 9);
    assert_eq!(meta.mtime_ms, 5);
    assert_eq!(meta.path, Some("/x".to_string()));
    assert_eq!(meta.health, Some("healthy".to_string()));
    assert_eq!(
        (meta.page_count, meta.image_width, meta.image_height, meta.line_count),
        (None, None, None, None)
    );
    assert_eq!(clone_opt(&Some("x".to_string())), Some("x".to_string()));
    assert_eq!(clone_opt(&None), None);
}
