//! Reconciling the catalog with what a walk of the storage root found.

use vstd::prelude::*;
use crate::blobs::{get_mime_type, guessed_mime};
use crate::catalog::{
    BlobRowV, Catalog, CatalogV, PathRowV, found, fresh_row, get_blob_by_hash, has_hash,
    insert_blob, insert_path, knows, lemma_put_blob_wf, lemma_put_path_wf, lost, put_blob,
    put_path, wf,
};
use crate::seqs::{count, lemma_first_index};
use crate::text::{append_str, char_is_hex_digit, chars_of, is_hex_digit, string_views};
use crate::types::{ScanResult, opt_view};

verus! {

/// What the disk says of a file.
#[derive(Clone, Copy, Debug, PartialEq, Eq, Structural)]
pub struct FileMeta {
    /// Its length in bytes.
    pub size: i64,
    /// When it was last modified, in milliseconds since the epoch.
    pub mtime_ms: i64,
}

/// One entry of a walk of the storage root.
#[derive(Debug, PartialEq, Eq)]
pub struct ScanEntry {
    /// The path of the entry.
    pub path: String,
    /// Its last component.
    pub file_name: String,
    /// Whether it is a regular file.
    pub is_file: bool,
    /// What the disk says of it, or why that could not be read.
    pub meta: Result<FileMeta, String>,
}

/// The mathematical content of a [`ScanEntry`].
pub struct ScanEntryV {
    pub path: Seq<char>,
    pub file_name: Seq<char>,
    pub is_file: bool,
    pub meta: Result<FileMeta, Seq<char>>,
}

impl View for ScanEntry {
    type V = ScanEntryV;

    open spec fn view(&self) -> ScanEntryV {
        ScanEntryV {
            path: self.path@,
            file_name: self.file_name@,
            is_file: self.is_file,
            meta: match self.meta {
                Ok(meta) => Ok(meta),
                Err(e) => Err(e@),
            },
        }
    }
}

/// The contents of a list of entries.
pub open spec fn entry_views(entries: Seq<ScanEntry>) -> Seq<ScanEntryV> {
    Seq::new(entries.len(), |i: int| entries[i]@)
}

/// Whether a file name is a hash: 64 hexadecimal digits.
pub open spec fn is_hash_name(name: Seq<char>) -> bool {
    name.len() == 64 && forall|i: int| 0 <= i < name.len() ==> is_hex_digit(#[trigger] name[i])
}

/// Whether an entry is a blob's file: a regular file named by a hash.
pub open spec fn is_blob_file(entry: ScanEntryV) -> bool {
    entry.is_file && is_hash_name(entry.file_name)
}

/// The file name that the catalog has for a hash.
pub open spec fn known_filename(c: CatalogV, hash: Seq<char>) -> Option<Seq<char>> {
    match found(c, hash) {
        Some(info) => info.filename,
        None => None,
    }
}

/// The row that a scan writes for a file: its size and time from the disk,
/// the file name that the catalog had, and the media type guessed from
/// that name, or from the path where there is none.
pub open spec fn scanned_row(
    c: CatalogV,
    path: Seq<char>,
    hash: Seq<char>,
    meta: FileMeta,
    now_ms: i64,
) -> BlobRowV {
    fresh_row(
        hash,
        meta.size,
        guessed_mime(
            match known_filename(c, hash) {
                Some(name) => name,
                None => path,
            },
        ),
        meta.mtime_ms,
        known_filename(c, hash),
        now_ms,
    )
}

/// The catalog after `row` was written for the file at `path`.
pub open spec fn recorded(c: CatalogV, path: Seq<char>, row: BlobRowV) -> CatalogV {
    put_path(put_blob(c, row), PathRowV { hash: row.hash, path })
}

/// The catalog after a file was reconciled.
pub open spec fn reconciled(
    c: CatalogV,
    path: Seq<char>,
    hash: Seq<char>,
    meta: FileMeta,
    now_ms: i64,
) -> CatalogV {
    recorded(c, path, scanned_row(c, path, hash, meta, now_ms))
}

/// How far a scan has come.
pub struct ScanStateV {
    pub catalog: CatalogV,
    pub added: int,
    pub updated: int,
    pub errors: Seq<Seq<char>>,
}

/// The message for a file that could not be processed.
pub open spec fn error_line(path: Seq<char>, error: Seq<char>) -> Seq<char> {
    "Error processing "@ + path + ": "@ + error
}

/// The scan after one more entry: an entry that is no blob's file is passed
/// over; a file that could not be read leaves a message; any other file is
/// reconciled and counted as added or updated.
pub open spec fn scan_step(state: ScanStateV, entry: ScanEntryV, now_ms: i64) -> ScanStateV {
    if !is_blob_file(entry) {
        state
    } else {
        match entry.meta {
            Err(error) => ScanStateV {
                errors: state.errors.push(error_line(entry.path, error)),
                ..state
            },
            Ok(meta) => ScanStateV {
                catalog: reconciled(state.catalog, entry.path, entry.file_name, meta, now_ms),
                added: if knows(state.catalog.blobs, entry.file_name) {
                    state.added
                } else {
                    state.added + 1
                },
                updated: if knows(state.catalog.blobs, entry.file_name) {
                    state.updated + 1
                } else {
                    state.updated
                },
                errors: state.errors,
            },
        }
    }
}

/// The scan of the entries, in order, from the catalog `c`.
pub open spec fn scan_state(c: CatalogV, entries: Seq<ScanEntryV>, now_ms: i64) -> ScanStateV
    decreases entries.len(),
{
    if entries.len() == 0 {
        ScanStateV { catalog: c, added: 0, updated: 0, errors: Seq::empty() }
    } else {
        scan_step(scan_state(c, entries.drop_last(), now_ms), entries.last(), now_ms)
    }
}

/// The paths of the regular files among the entries.
pub open spec fn files_of(entries: Seq<ScanEntryV>) -> Seq<Seq<char>>
    decreases entries.len(),
{
    if entries.len() == 0 {
        Seq::empty()
    } else if entries.last().is_file {
        files_of(entries.drop_last()).push(entries.last().path)
    } else {
        files_of(entries.drop_last())
    }
}

/// The number of blobs of the catalog that no regular file among the
/// entries backs.
pub open spec fn deleted_count(c: CatalogV, entries: Seq<ScanEntryV>) -> nat {
    count(c.blobs, lost(c.paths, files_of(entries)))
}

/// Reconciling a file keeps the catalog consistent, adds at most one blob
/// and forgets none.
pub proof fn lemma_reconciled(
    c: CatalogV,
    path: Seq<char>,
    hash: Seq<char>,
    meta: FileMeta,
    now_ms: i64,
)
    requires
        wf(c),
    ensures
        wf(reconciled(c, path, hash, meta, now_ms)),
        c.blobs.len() <= reconciled(c, path, hash, meta, now_ms).blobs.len() <= c.blobs.len() + 1,
        knows(reconciled(c, path, hash, meta, now_ms).blobs, hash),
        forall|h: Seq<char>| knows(c.blobs, h) ==> knows(
            reconciled(c, path, hash, meta, now_ms).blobs,
            h,
        ),
{
    let row = scanned_row(c, path, hash, meta, now_ms);
    lemma_put_blob_wf(c, row);
    lemma_first_index(c.blobs, has_hash(row.hash));
    lemma_put_path_wf(put_blob(c, row), PathRowV { hash, path });
}

/// Tests a file name for being a hash.
pub fn names_hash(name: &str) -> (r: bool)
    ensures
        r == is_hash_name(name@),
{
    let chars = chars_of(name);
    if chars.len() != 64 {
        return false;
    }
    let mut i: usize = 0;
    while i < chars.len()
        invariant
            i <= chars.len(),
            chars@ == name@,
            forall|j: int| 0 <= j < i ==> is_hex_digit(#[trigger] name@[j]),
        decreases chars.len() - i,
    {
        if !char_is_hex_digit(chars[i]) {
            assert(!is_hex_digit(name@[i as int]));
            return false;
        }
        i += 1;
    }
    true
}

/// Reconciles one file with the catalog. A hash that the catalog does not
/// know gets a row; a known one has its size, time and path refreshed, and
/// keeps its file name. Says whether the hash was new. A file whose
/// metadata could not be read is refused with the reason, and the catalog
/// stays as it was.
pub fn process_file_for_scan(
    catalog: &mut Catalog,
    path: &str,
    hash: &str,
    meta: &Result<FileMeta, String>,
    now_ms: i64,
) -> (r: Result<bool, String>)
    ensures
        wf(final(catalog)@),
        match *meta {
            Ok(m) => {
                &&& r == Ok::<bool, String>(!knows(old(catalog)@.blobs, hash@))
                &&& final(catalog)@ == reconciled(old(catalog)@, path@, hash@, m, now_ms)
            },
            Err(e) => r is Err && r->Err_0@ == e@ && final(catalog)@ == old(catalog)@,
        },
{
    catalog.well_formed();
    let existing = get_blob_by_hash(catalog, hash);
    let m = match meta {
        Ok(m) => *m,
        Err(e) => {
            return Err(e.clone());
        },
    };
    let is_new = existing.is_none();
    let existing_filename: Option<String> = match existing {
        Some(info) => info.filename,
        None => None,
    };
    let mime = match &existing_filename {
        Some(name) => get_mime_type(name.as_str()),
        None => get_mime_type(path),
    };
    record_file(catalog, path, hash, m, existing_filename, mime.as_str(), now_ms);
    Ok(is_new)
}

/// Writes the row of a file that a scan found, and the file as a path of
/// the blob: the size and the time from the disk, the given file name and
/// media type, healthy.
pub fn record_file(
    catalog: &mut Catalog,
    path: &str,
    hash: &str,
    meta: FileMeta,
    filename: Option<String>,
    mime: &str,
    now_ms: i64,
)
    ensures
        wf(final(catalog)@),
        final(catalog)@ == recorded(
            old(catalog)@,
            path@,
            fresh_row(hash@, meta.size, mime@, meta.mtime_ms, opt_view(filename), now_ms),
        ),
{
    catalog.well_formed();
    proof {
        let row = fresh_row(hash@, meta.size, mime@, meta.mtime_ms, opt_view(filename), now_ms);
        lemma_put_blob_wf(catalog@, row);
        lemma_put_path_wf(put_blob(catalog@, row), PathRowV { hash: hash@, path: path@ });
    }
    insert_blob(
        catalog,
        hash,
        meta.size,
        mime,
        meta.mtime_ms,
        match &filename {
            Some(name) => Some(name.as_str()),
            None => None,
        },
        now_ms,
    );
    let _ = insert_path(catalog, hash, path);
}

/// Reconciles the catalog with the entries of a walk of the storage root.
/// Every regular file named by a hash is reconciled, in the order of the
/// walk, and counted as added or updated; a file that could not be read
/// leaves a message and does not stop the scan. No row leaves the catalog:
/// the blobs that no file of the walk backs are counted as deleted.
pub fn scan_blobs(catalog: &mut Catalog, entries: &Vec<ScanEntry>, now_ms: i64) -> (r: ScanResult)
    requires
        old(catalog)@.blobs.len() + entries.len() <= i32::MAX,
    ensures
        wf(final(catalog)@),
        final(catalog)@ == scan_state(old(catalog)@, entry_views(entries@), now_ms).catalog,
        r.added == scan_state(old(catalog)@, entry_views(entries@), now_ms).added,
        r.updated == scan_state(old(catalog)@, entry_views(entries@), now_ms).updated,
        string_views(r.errors@) == scan_state(old(catalog)@, entry_views(entries@), now_ms).errors,
        r.deleted == deleted_count(final(catalog)@, entry_views(entries@)),
        r.added + r.updated + r.errors@.len() <= entries.len(),
{
    catalog.well_formed();
    let ghost all = entry_views(entries@);
    let ghost start = catalog@;
    let mut added: i32 = 0;
    let mut updated: i32 = 0;
    let mut errors: Vec<String> = Vec::new();
    let mut files: Vec<String> = Vec::new();
    let mut i: usize = 0;
    assert(all.take(0) =~= Seq::empty());
    assert(string_views(errors@) =~= Seq::empty());
    assert(string_views(files@) =~= Seq::empty());
    while i < entries.len()
        invariant
            i <= entries.len(),
            all == entry_views(entries@),
            start.blobs.len() + entries.len() <= i32::MAX,
            wf(catalog@),
            catalog@ == scan_state(start, all.take(i as int), now_ms).catalog,
            added == scan_state(start, all.take(i as int), now_ms).added,
            updated == scan_state(start, all.take(i as int), now_ms).updated,
            string_views(errors@) == scan_state(start, all.take(i as int), now_ms).errors,
            string_views(files@) == files_of(all.take(i as int)),
            0 <= added,
            0 <= updated,
            added + updated + errors@.len() <= i,
            catalog@.blobs.len() <= start.blobs.len() + i,
        decreases entries.len() - i,
    {
        assert(all.take(i + 1).drop_last() =~= all.take(i as int));
        let entry = &entries[i];
        assert(entry@ == all[i as int]);
        let ghost before_files = string_views(files@);
        let ghost before_errors = string_views(errors@);
        if entry.is_file {
            files.push(entry.path.clone());
            assert(string_views(files@) =~= before_files.push(entry@.path));
        }
        if entry.is_file && names_hash(entry.file_name.as_str()) {
            proof {
                match entry.meta {
                    Ok(m) => {
                        lemma_reconciled(catalog@, entry@.path, entry@.file_name, m, now_ms);
                    },
                    Err(_) => {},
                }
            }
            match process_file_for_scan(
                catalog,
                entry.path.as_str(),
                entry.file_name.as_str(),
                &entry.meta,
                now_ms,
            ) {
                Ok(is_new) => {
                    if is_new {
                        added += 1;
                    } else {
                        updated += 1;
                    }
                },
                Err(e) => {
                    let mut line = String::new();
                    append_str(&mut line, "Error processing ");
                    append_str(&mut line, entry.path.as_str());
                    append_str(&mut line, ": ");
                    append_str(&mut line, e.as_str());
                    assert(line@ =~= error_line(entry@.path, e@));
                    errors.push(line);
                    assert(string_views(errors@) =~= before_errors.push(
                        error_line(entry@.path, e@),
                    ));
                },
            }
        }
        i += 1;
    }
    assert(all.take(i as int) =~= all);
    let lost_blobs = catalog.count_lost(&files);
    ScanResult { added, updated, deleted: lost_blobs as i32, errors }
}

} // verus!
