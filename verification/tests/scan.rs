use deeprecall::scan::record_file;
use deeprecall::blobs::stat_blob;
use deeprecall::catalog::{Catalog, insert_blob, insert_path, list_all_blobs};
use deeprecall::scan::{FileMeta, ScanEntry, names_hash, process_file_for_scan, scan_blobs};
use deeprecall::types::ScanResult;

fn hash(n: u8) -> String {
    format!("{:064x}", n)
}

fn file(dir: &str, name: &str, size: i64) -> ScanEntry {
    ScanEntry {
        path: format!("/root/{}/{}", dir, name),
        file_name: name.to_string(),
        is_file: true,
        meta: Ok(FileMeta { size, mtime_ms: 500 }),
    }
}

fn files(n: u8) -> Vec<ScanEntry> {
    (1..=n).map(|i| file("00", &hash(i), i as i64)).collect()
}

#[test]
fn hash_names_are_64_hex_digits() {
    assert!(names_hash(&hash(7)));
    assert!(names_hash(&"AbCdEf0123456789".repeat(4)));
    assert!(!names_hash(&hash(7)[1..]));
    assert!(!names_hash(&format!("{}0", hash(7))));
    assert!(!names_hash(&format!("{}.txt", hash(7))));
    assert!(!names_hash(&format!("{}g", &hash(7)[1..])));
    assert!(!names_hash(""));
    assert!(!names_hash(&"é".repeat(64)));
    assert!(!names_hash(&"é".repeat(32)));
}

#[test]
fn first_scan_adds_and_second_scan_updates() {
    let mut c = Catalog::new();
    let entries = files(5);
    let first = scan_blobs(&mut c, &entries, 1);
    assert_eq!(first, ScanResult { added: 5, updated: 0, deleted: 0, errors: vec![] });
    assert_eq!(c.blob_count(), 5);
    let second = scan_blobs(&mut c, &entries, 2);
    assert_eq!(second, ScanResult { added: 0, updated: 5, deleted: 0, errors: vec![] });
    assert_eq!(c.blob_count(), 5);
}

#[test]
fn scan_of_nothing_counts_nothing() {
    let mut c = Catalog::new();
    assert_eq!(
        scan_blobs(&mut c, &vec![], 1),
        ScanResult { added: 0, updated: 0, deleted: 0, errors: vec![] }
    );
}

#[test]
fn scan_passes_over_what_is_no_blob_file() {
    let mut c = Catalog::new();
    let mut directory = file("00", &hash(1), 0);
    directory.is_file = false;
    let entries = vec![
        directory,
        file("00", "notes.txt", 3),
        file("00", &format!("{}.pdf", hash(2)), 3),
        file("00", &hash(3), 3),
    ];
    assert_eq!(
        scan_blobs(&mut c, &entries, 1),
        ScanResult { added: 1, updated: 0, deleted: 0, errors: vec![] }
    );
    assert!(stat_blob(&c, &hash(3)).is_some());
    assert!(stat_blob(&c, &hash(1)).is_none());
}

#[test]
fn scan_collects_errors_and_goes_on() {
    let mut c = Catalog::new();
    let mut broken = file("00", &hash(2), 0);
    broken.meta = Err("permission denied".to_string());
    let entries = vec![file("00", &hash(1), 1), broken, file("00", &hash(3), 3)];
    let result = scan_blobs(&mut c, &entries, 1);
    assert_eq!(
        result,
        ScanResult {
            added: 2,
            updated: 0,
            deleted: 0,
            errors: vec![format!("Error processing /root/00/{}: permission denied", hash(2))],
        }
    );
    assert!(stat_blob(&c, &hash(2)).is_none());
}

#[test]
fn scan_refreshes_and_keeps_the_file_name() {
    let mut c = Catalog::new();
    insert_blob(&mut c, &hash(1), 10, "application/pdf", 100, Some("paper.pdf"), 50);
    assert_eq!(insert_path(&mut c, &hash(1), "/old/place"), Ok(()));
    let entries = vec![file("00", &hash(1), 11), file("00", &hash(2), 22)];
    let result = scan_blobs(&mut c, &entries, 60);
    assert_eq!(result, ScanResult { added: 1, updated: 1, deleted: 0, errors: vec![] });
    let known = stat_blob(&c, &hash(1)).unwrap();
    assert_eq!(known.filename, Some("paper.pdf".to_string()));
    assert_eq!(known.size, 11);
    assert_eq!(known.mtime_ms, 500);
    assert_eq!(known.created_ms, 60);
    assert_eq!(known.mime, "application/pdf");
    assert_eq!(known.health, Some("healthy".to_string()));
    assert_eq!(known.path, Some("/old/place".to_string()));
    let paths: Vec<Option<String>> = list_all_blobs(&c).into_iter().map(|b| b.path).collect();
    assert_eq!(
        paths,
        vec![
            Some("/old/place".to_string()),
            Some(format!("/root/00/{}", hash(1))),
            Some(format!("/root/00/{}", hash(2))),
        ]
    );
    let new = stat_blob(&c, &hash(2)).unwrap();
    assert_eq!(new.filename, None);
    assert_eq!(new.mime, "application/octet-stream");
}

#[test]
fn scan_guesses_the_type_from_the_known_file_name() {
    let mut c = Catalog::new();
    insert_blob(&mut c, &hash(1), 10, "whatever", 100, Some("picture.PNG"), 50);
    scan_blobs(&mut c, &vec![file("00", &hash(1), 10)], 60);
    assert_eq!(stat_blob(&c, &hash(1)).unwrap().mime, "image/png");
    insert_blob(&mut c, &hash(2), 10, "text/plain", 100, Some("noextension"), 50);
    scan_blobs(&mut c, &vec![file("00", &hash(2), 10)], 60);
    assert_eq!(stat_blob(&c, &hash(2)).unwrap().mime, "application/octet-stream");
}

#[test]
fn scan_counts_blobs_without_a_file_as_deleted() {
    let mut c = Catalog::new();
    insert_blob(&mut c, &hash(9), 10, "text/plain", 100, None, 50);
    insert_blob(&mut c, &hash(8), 10, "text/plain", 100, Some("a.txt"), 50);
    assert_eq!(insert_path(&mut c, &hash(8), "/root/00/stored.txt"), Ok(()));
    insert_blob(&mut c, &hash(7), 10, "text/plain", 100, None, 50);
    assert_eq!(insert_path(&mut c, &hash(7), "/gone"), Ok(()));
    let entries = vec![file("00", &hash(1), 1), file("00", "stored.txt", 10)];
    let result = scan_blobs(&mut c, &entries, 60);
    assert_eq!(result, ScanResult { added: 1, updated: 0, deleted: 2, errors: vec![] });
    assert_eq!(c.blob_count(), 4);
    let again = scan_blobs(&mut c, &vec![], 61);
    assert_eq!(again, ScanResult { added: 0, updated: 0, deleted: 4, errors: vec![] });
    assert_eq!(c.blob_count(), 4);
}

#[test]
fn one_hash_in_two_places_is_added_once() {
    let mut c = Catalog::new();
    let entries = vec![file("00", &hash(1), 1), file("01", &hash(1), 1)];
    let result = scan_blobs(&mut c, &entries, 60);
    assert_eq!(result, ScanResult { added: 1, updated: 1, deleted: 0, errors: vec![] });
    assert_eq!(list_all_blobs(&c).len(), 2);
    assert_eq!(c.blob_count(), 1);
}

#[test]
fn one_file_is_reconciled() {
    let mut c = Catalog::new();
    let meta = Ok(FileMeta { size: 4, mtime_ms: 8 });
    assert_eq!(process_file_for_scan(&mut c, "/p/x.txt", &hash(1), &meta, 3), Ok(true));
    assert_eq!(process_file_for_scan(&mut c, "/p/x.txt", &hash(1), &meta, 4), Ok(false));
    let found = stat_blob(&c, &hash(1)).unwrap();
    assert_eq!(found.mime, "text/plain");
    assert_eq!(found.created_ms, 4);
    assert_eq!(found.path, Some("/p/x.txt".to_string()));
    let failed = Err("gone".to_string());
    assert_eq!(
        process_file_for_scan(&mut c, "/p/y", &hash(2), &failed, 5),
        Err("gone".to_string())
    );
    assert_eq!(c.blob_count(), 1);
}

#[test]
fn scanned_file_is_recorded_with_the_given_type() {
    let mut c = Catalog::new();
    let meta = FileMeta { size: 4, mtime_ms: 8 };
    record_file(&mut c, "/p", &hash(1), meta, Some("n.bin".to_string()), "x/y", 3);
    let found = stat_blob(&c, &hash(1)).unwrap();
    assert_eq!(found.mime, "x/y");
    assert_eq!(found.filename, Some("n.bin".to_string()));
    assert_eq!((found.size, found.mtime_ms, found.created_ms), (4, 8, 3));
    assert_eq!(found.path, Some("/p".to_string()));
    assert_eq!(found.health, Some("healthy".to_string()));
}
