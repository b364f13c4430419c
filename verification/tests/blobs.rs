use deeprecall::blobs::blob_location;
use deeprecall::blobs::{
    BlobLocation, delete_blob, health_check, list_blobs, locate_blob, needs_write,
    plain_blob_path, rename_blob, stat_blob, store_blob, to_hex,
};
use deeprecall::text::hex_char;
use deeprecall::catalog::Catalog;
use deeprecall::types::BlobWithMetadata;

const ABC: &str = "ba7816bf8f01cfea414140de5dae2223b00361a396177a9cb410ff61f20015ad";
const EMPTY: &str = "e3b0c44298fc1c149afbf4c8996fb92427ae41e4649b934ca495991b7852b855";

fn store(c: &mut Catalog, filename: &str, data: &[u8], now_ms: i64) -> BlobWithMetadata {
    let location = locate_blob("/root", filename, &data.to_vec());
    store_blob(c, &location, filename.to_string(), "text/plain".to_string(), 77, now_ms)
}

#[test]
fn content_is_located_by_its_hash() {
    let location = locate_blob("/data/blobs", "notes.txt", &b"abc".to_vec());
    assert_eq!(
        location,
        BlobLocation {
            sha256: ABC.to_string(),
            size: 3,
            shard_dir: "/data/blobs/ba".to_string(),
            file_path: format!("/data/blobs/ba/{}.txt", ABC),
        }
    );
}

#[test]
fn file_name_without_extension_gives_the_bare_hash() {
    let location = locate_blob("r", "README", &Vec::new());
    assert_eq!(location.sha256, EMPTY);
    assert_eq!(location.size, 0);
    assert_eq!(location.shard_dir, "r/e3");
    assert_eq!(location.file_path, format!("r/e3/{}", EMPTY));
    let location = locate_blob("r", ".hidden", &Vec::new());
    assert_eq!(location.file_path, format!("r/e3/{}", EMPTY));
    let location = locate_blob("r", "", &Vec::new());
    assert_eq!(location.file_path, format!("r/e3/{}", EMPTY));
}

#[test]
fn extension_is_the_last_one_of_the_file_name() {
    let location = locate_blob("r", "dir.d/archive.tar.GZ", &Vec::new());
    assert_eq!(location.file_path, format!("r/e3/{}.GZ", EMPTY));
    let location = locate_blob("r", "dir.d/plain", &Vec::new());
    assert_eq!(location.file_path, format!("r/e3/{}", EMPTY));
}

#[test]
fn bytes_are_spelled_in_lower_case_hex() {
    assert_eq!(to_hex(&vec![]), Vec::<char>::new());
    assert_eq!(to_hex(&vec![0x00, 0x0f, 0xa5, 0xff]).iter().collect::<String>(), "000fa5ff");
    assert_eq!(hex_char(0), '0');
    assert_eq!(hex_char(9), '9');
    assert_eq!(hex_char(10), 'a');
    assert_eq!(hex_char(15), 'f');
}

#[test]
fn stored_blob_is_recorded() {
    let mut c = Catalog::new();
    let record = store(&mut c, "notes.txt", b"abc", 1000);
    assert_eq!(
        record,
        BlobWithMetadata {
            sha256: ABC.to_string(),
            filename: Some("notes.txt".to_string()),
            size: 3,
            mime: "text/plain".to_string(),
            created_ms: 1000,
            mtime_ms: 77,
            path: Some(format!("/root/ba/{}.txt", ABC)),
            health: Some("healthy".to_string()),
            page_count: None,
            image_width: None,
            image_height: None,
            line_count: None,
        }
    );
}

#[test]
fn stat_after_store_returns_the_record() {
    let mut c = Catalog::new();
    let record = store(&mut c, "notes.txt", b"abc", 1000);
    let found = stat_blob(&c, &record.sha256).unwrap();
    assert_eq!(found.size, record.size);
    assert_eq!(found.mime, record.mime);
    assert_eq!(found.sha256, record.sha256);
    assert_eq!(found.path, record.path);
    assert_eq!(found.filename, record.filename);
    assert_eq!(stat_blob(&c, EMPTY), None);
}

#[test]
fn storing_twice_leaves_one_row() {
    let mut c = Catalog::new();
    let first = store(&mut c, "notes.txt", b"abc", 1000);
    let listed = list_blobs(&c, false);
    let second = store(&mut c, "notes.txt", b"abc", 1000);
    assert_eq!(first, second);
    assert_eq!(list_blobs(&c, false), listed);
    assert_eq!(listed.len(), 1);
    assert_eq!(c.blob_count(), 1);
    let third = store(&mut c, "notes.txt", b"abc", 2000);
    assert_eq!(third.sha256, first.sha256);
    assert_eq!(third.path, first.path);
    assert_eq!(list_blobs(&c, true).len(), 1);
}

#[test]
fn storing_known_content_updates_name_and_type() {
    let mut c = Catalog::new();
    store(&mut c, "notes.txt", b"abc", 1000);
    let location = locate_blob("/root", "copy.md", &b"abc".to_vec());
    let record =
        store_blob(&mut c, &location, "copy.md".to_string(), "text/markdown".to_string(), 78, 1001);
    assert_eq!(record.filename, Some("copy.md".to_string()));
    let found = stat_blob(&c, ABC).unwrap();
    assert_eq!(found.filename, Some("copy.md".to_string()));
    assert_eq!(found.mime, "text/markdown");
    assert_eq!(c.blob_count(), 1);
    let paths: Vec<Option<String>> = list_blobs(&c, false).into_iter().map(|b| b.path).collect();
    assert_eq!(
        paths,
        vec![Some(format!("/root/ba/{}.txt", ABC)), Some(format!("/root/ba/{}.md", ABC))]
    );
}

#[test]
fn delete_then_store_recreates_the_row() {
    let mut c = Catalog::new();
    let original = store(&mut c, "notes.txt", b"abc", 1000);
    let row = stat_blob(&c, ABC).unwrap();
    delete_blob(&mut c, ABC);
    assert_eq!(stat_blob(&c, ABC), None);
    assert_eq!(c.blob_count(), 0);
    let again = store(&mut c, "notes.txt", b"abc", 3000);
    let mut expected = original;
    expected.created_ms = 3000;
    assert_eq!(again, expected);
    let mut expected_row = row;
    expected_row.created_ms = 3000;
    assert_eq!(stat_blob(&c, ABC), Some(expected_row));
    assert!(!needs_write(Some(&b"abc".to_vec()), &b"abc".to_vec()));
}

#[test]
fn file_is_written_unless_the_disk_holds_the_bytes() {
    assert!(needs_write(None, &b"abc".to_vec()));
    assert!(needs_write(Some(&b"abd".to_vec()), &b"abc".to_vec()));
    assert!(needs_write(Some(&b"ab".to_vec()), &b"abc".to_vec()));
    assert!(needs_write(Some(&b"abcd".to_vec()), &b"abc".to_vec()));
    assert!(!needs_write(Some(&Vec::new()), &Vec::new()));
    assert!(!needs_write(Some(&b"abc".to_vec()), &b"abc".to_vec()));
}

#[test]
fn rename_and_health() {
    let mut c = Catalog::new();
    store(&mut c, "notes.txt", b"abc", 1000);
    store(&mut c, "empty", b"", 1000);
    rename_blob(&mut c, ABC, "renamed.txt");
    assert_eq!(stat_blob(&c, ABC).unwrap().filename, Some("renamed.txt".to_string()));
    let report = health_check(&c).unwrap();
    assert_eq!(report.total_blobs, 2);
    assert_eq!(report.healthy, 2);
    assert_eq!(report.missing + report.modified + report.relocated, 0);
    assert_eq!(report.total_size, 3);
}

#[test]
fn blobs_are_read_back_from_their_plain_path() {
    assert_eq!(plain_blob_path("/r", ABC), Some(format!("/r/ba/{}", ABC)));
    assert_eq!(plain_blob_path("/r", "ab"), Some("/r/ab/ab".to_string()));
    assert_eq!(plain_blob_path("/r", "a"), None);
    assert_eq!(plain_blob_path("/r", ""), None);
    assert_eq!(plain_blob_path("/r", "éé"), Some("/r/éé/éé".to_string()));
}

#[test]
fn location_goes_by_hash_and_extension_alone() {
    let hash: Vec<char> = "abcdef".chars().collect();
    assert_eq!(
        blob_location("/r", &hash, "png", 12),
        BlobLocation {
            sha256: "abcdef".to_string(),
            size: 12,
            shard_dir: "/r/ab".to_string(),
            file_path: "/r/ab/abcdef.png".to_string(),
        }
    );
    assert_eq!(blob_location("", &hash, "", 0).file_path, "/ab/abcdef");
    let short: Vec<char> = "a".chars().collect();
    assert_eq!(blob_location("/r", &short, "x", 0).file_path, "/r/a/a.x");
    assert_eq!(blob_location("/r", &vec![], "", 0).file_path, "/r//");
}
