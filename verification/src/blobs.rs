//! The content-addressed blob store: where a blob lies on disk, and how the
//! catalog follows what is stored and what a scan of the disk finds.
//!
//! The store itself touches no file. It says where bytes belong and records
//! what its caller read from the disk.

use vstd::prelude::*;
use crate::catalog::{
    Catalog, CatalogError, CatalogV, PathRowV, delete_blob as catalog_delete_blob, found,
    fresh_row, get_blob_by_hash, get_stats, insert_blob, insert_path, lemma_put_blob_wf,
    list_all_blobs, listing, meta_views, put_blob, put_path, removed, renamed, report_of,
    reportable, update_filename, wf,
};
use crate::json::{Json, JsonV, lemma_object_view, member_views};
use crate::paths::{extension, extension_of};
use crate::rows::{json_number, number_of};
use crate::text::{append_chars, append_str, chars_of, hex_char, hex_digit, string_of};
use crate::types::{BlobInfo, BlobWithMetadata, BlobWithMetadataV, HealthReport};

verus! {

/// The SHA-256 digest of a byte sequence.
pub uninterp spec fn sha256_digest(data: Seq<u8>) -> Seq<u8>;

/// The media type that `mime_guess` has for an extension;
/// `application/octet-stream` where it has none.
pub uninterp spec fn mime_for_extension(extension: Seq<char>) -> Seq<char>;

/// The media type guessed for a path, by its extension.
pub open spec fn guessed_mime(path: Seq<char>) -> Seq<char> {
    mime_for_extension(extension(path))
}

/// `Digest::digest` of `sha2::Sha256`: the SHA-256 digest of the data, which
/// is 32 bytes long.
#[verifier::external_body]
pub(crate) fn sha256(data: &[u8]) -> (r: Vec<u8>)
    ensures
        r@ == sha256_digest(data@),
        r@.len() == 32,
{
    <sha2::Sha256 as sha2::Digest>::digest(data).to_vec()
}

/// `mime_guess::from_ext`, of which the first guess is taken, as text, or
/// `application/octet-stream` where there is none
/// (`MimeGuess::first_or_octet_stream`). The result depends on the
/// extension alone.
#[verifier::external_body]
pub(crate) fn mime_of_extension(extension: &str) -> (r: String)
    ensures
        r@ == mime_for_extension(extension@),
{
    mime_guess::from_ext(extension).first_or_octet_stream().to_string()
}

/// Guesses the media type of a path by its extension.
pub fn get_mime_type(path: &str) -> (r: String)
    ensures
        r@ == guessed_mime(path@),
{
    mime_of_extension(string_of(&extension_of(path)).as_str())
}

/// The lower-case hexadecimal text of a byte sequence, two digits a byte.
pub open spec fn hex_lower(bytes: Seq<u8>) -> Seq<char>
    decreases bytes.len(),
{
    if bytes.len() == 0 {
        Seq::empty()
    } else {
        hex_lower(bytes.drop_last()).push(hex_digit(bytes.last() as int / 16)).push(
            hex_digit(bytes.last() as int % 16),
        )
    }
}

/// The hash that identifies content: the lower-case hexadecimal text of
/// its SHA-256 digest.
pub open spec fn content_hash(data: Seq<u8>) -> Seq<char> {
    hex_lower(sha256_digest(data))
}

/// The first two characters of a hash, or all of a shorter one.
pub open spec fn shard_of(hash: Seq<char>) -> Seq<char> {
    if hash.len() < 2 {
        hash
    } else {
        hash.subrange(0, 2)
    }
}

/// The directory of a blob under `root`: named by the first two characters
/// of the hash.
pub open spec fn shard_dir(root: Seq<char>, hash: Seq<char>) -> Seq<char> {
    root + "/"@ + shard_of(hash)
}

/// The name of a blob's file: the hash, then a dot and the extension where
/// there is one.
pub open spec fn blob_file_name(hash: Seq<char>, extension: Seq<char>) -> Seq<char> {
    if extension.len() == 0 {
        hash
    } else {
        hash + "."@ + extension
    }
}

/// The path of a blob's file under `root`.
pub open spec fn blob_path(root: Seq<char>, hash: Seq<char>, extension: Seq<char>) -> Seq<char> {
    shard_dir(root, hash) + "/"@ + blob_file_name(hash, extension)
}

/// The hexadecimal text of `n` bytes has `2 n` characters.
pub proof fn lemma_hex_len(bytes: Seq<u8>)
    ensures
        hex_lower(bytes).len() == 2 * bytes.len(),
    decreases bytes.len(),
{
    if bytes.len() != 0 {
        lemma_hex_len(bytes.drop_last());
    }
}

/// The lower-case hexadecimal text of the bytes.
pub fn to_hex(bytes: &Vec<u8>) -> (r: Vec<char>)
    ensures
        r@ == hex_lower(bytes@),
{
    let mut out: Vec<char> = Vec::new();
    let mut i: usize = 0;
    assert(bytes@.take(0) =~= Seq::empty());
    while i < bytes.len()
        invariant
            i <= bytes.len(),
            out@ == hex_lower(bytes@.take(i as int)),
        decreases bytes.len() - i,
    {
        assert(bytes@.take(i + 1).drop_last() =~= bytes@.take(i as int));
        let b = bytes[i];
        out.push(hex_char(b / 16));
        out.push(hex_char(b % 16));
        i += 1;
    }
    assert(bytes@.take(i as int) =~= bytes@);
    out
}

/// Where the bytes of a blob belong.
#[derive(Debug, Clone, PartialEq, Eq)]
pub struct BlobLocation {
    /// The hash of the content.
    pub sha256: String,
    /// The number of bytes.
    pub size: i64,
    /// The directory that holds the file.
    pub shard_dir: String,
    /// The file.
    pub file_path: String,
}

/// The mathematical content of a [`BlobLocation`].
pub struct BlobLocationV {
    pub sha256: Seq<char>,
    pub size: i64,
    pub shard_dir: Seq<char>,
    pub file_path: Seq<char>,
}

impl View for BlobLocation {
    type V = BlobLocationV;

    open spec fn view(&self) -> BlobLocationV {
        BlobLocationV {
            sha256: self.sha256@,
            size: self.size,
            shard_dir: self.shard_dir@,
            file_path: self.file_path@,
        }
    }
}

/// Where `size` bytes of the given hash belong under `root`, in a file
/// with the given extension.
pub open spec fn location_for(
    root: Seq<char>,
    hash: Seq<char>,
    extension: Seq<char>,
    size: i64,
) -> BlobLocationV {
    BlobLocationV {
        sha256: hash,
        size,
        shard_dir: shard_dir(root, hash),
        file_path: blob_path(root, hash, extension),
    }
}

/// Where content submitted as `filename` belongs under `root`.
pub open spec fn location_of(root: Seq<char>, filename: Seq<char>, data: Seq<u8>) -> BlobLocationV {
    location_for(root, content_hash(data), extension(filename), data.len() as i64)
}

/// The first two characters of a hash, or all of a shorter one.
fn shard_prefix(hash: &Vec<char>) -> (r: Vec<char>)
    ensures
        r@ == shard_of(hash@),
{
    let mut prefix: Vec<char> = Vec::new();
    if hash.len() < 2 {
        let mut i: usize = 0;
        while i < hash.len()
            invariant
                i <= hash.len(),
                prefix@ == hash@.take(i as int),
            decreases hash.len() - i,
        {
            prefix.push(hash[i]);
            i += 1;
        }
        assert(hash@.take(hash.len() as int) =~= hash@);
    } else {
        prefix.push(hash[0]);
        prefix.push(hash[1]);
        assert(prefix@ =~= hash@.subrange(0, 2));
    }
    prefix
}

/// Says where `size` bytes of the given hash belong under `root`: in the
/// directory of the first two characters of the hash, in a file named by
/// the hash and the extension.
pub fn blob_location(root: &str, hash: &Vec<char>, extension: &str, size: i64) -> (r: BlobLocation)
    ensures
        r@ == location_for(root@, hash@, extension@, size),
{
    let mut shard = String::new();
    append_str(&mut shard, root);
    append_str(&mut shard, "/");
    append_chars(&mut shard, &shard_prefix(hash));
    let mut name: String = string_of(hash);
    if extension.unicode_len() > 0 {
        append_str(&mut name, ".");
        append_str(&mut name, extension);
    }
    assert(name@ =~= blob_file_name(hash@, extension@));
    let mut file_path = shard.clone();
    append_str(&mut file_path, "/");
    append_str(&mut file_path, name.as_str());
    BlobLocation { sha256: string_of(hash), size, shard_dir: shard, file_path }
}

/// Says where content belongs under `root`: in the directory of the first
/// two characters of its hash, in a file named by the hash and the
/// extension of `filename`.
pub fn locate_blob(root: &str, filename: &str, data: &Vec<u8>) -> (r: BlobLocation)
    requires
        data.len() <= i64::MAX,
    ensures
        r@ == location_of(root@, filename@, data@),
        r@.sha256.len() == 64,
{
    let digest = sha256(data.as_slice());
    proof {
        lemma_hex_len(digest@);
    }
    let extension = string_of(&extension_of(filename));
    blob_location(root, &to_hex(&digest), extension.as_str(), data.len() as i64)
}

/// Whether the file of a blob has to be written: not where the disk
/// already holds exactly these bytes.
pub fn needs_write(on_disk: Option<&Vec<u8>>, data: &Vec<u8>) -> (r: bool)
    ensures
        r == !(on_disk is Some && on_disk->0@ == data@),
{
    match on_disk {
        None => true,
        Some(present) => {
            if present.len() != data.len() {
                return true;
            }
            let mut i: usize = 0;
            while i < data.len()
                invariant
                    i <= data.len(),
                    present.len() == data.len(),
                    on_disk == Some(present),
                    forall|j: int| 0 <= j < i ==> present@[j] == data@[j],
                decreases data.len() - i,
            {
                if present[i] != data[i] {
                    return true;
                }
                i += 1;
            }
            assert(present@ =~= data@);
            false
        },
    }
}

/// The catalog after a blob was stored: its row written afresh, and its
/// file among its paths.
pub open spec fn stored(
    c: CatalogV,
    location: BlobLocationV,
    filename: Seq<char>,
    mime: Seq<char>,
    mtime_ms: i64,
    now_ms: i64,
) -> CatalogV {
    put_path(
        put_blob(
            c,
            fresh_row(location.sha256, location.size, mime, mtime_ms, Some(filename), now_ms),
        ),
        PathRowV { hash: location.sha256, path: location.file_path },
    )
}

/// The record of a blob that was just stored.
pub open spec fn stored_record(
    location: BlobLocationV,
    filename: Seq<char>,
    mime: Seq<char>,
    mtime_ms: i64,
    now_ms: i64,
) -> BlobWithMetadataV {
    BlobWithMetadataV {
        sha256: location.sha256,
        filename: Some(filename),
        size: location.size,
        mime,
        created_ms: now_ms,
        mtime_ms,
        path: Some(location.file_path),
        health: Some("healthy"@),
        page_count: None,
        image_width: None,
        image_height: None,
        line_count: None,
    }
}

/// Records a blob whose bytes were written to `location`: the catalog gets
/// a healthy row for the hash, in the place of an earlier one if there is
/// one, and the file as a path of the blob.
pub fn store_blob(
    catalog: &mut Catalog,
    location: &BlobLocation,
    filename: String,
    mime: String,
    mtime_ms: i64,
    now_ms: i64,
) -> (r: BlobWithMetadata)
    ensures
        wf(final(catalog)@),
        final(catalog)@ == stored(old(catalog)@, location@, filename@, mime@, mtime_ms, now_ms),
        r@ == stored_record(location@, filename@, mime@, mtime_ms, now_ms),
{
    catalog.well_formed();
    insert_blob(
        catalog,
        location.sha256.as_str(),
        location.size,
        mime.as_str(),
        mtime_ms,
        Some(filename.as_str()),
        now_ms,
    );
    proof {
        lemma_put_blob_wf(
            old(catalog)@,
            fresh_row(location@.sha256, location@.size, mime@, mtime_ms, Some(filename@), now_ms),
        );
    }
    let _ = insert_path(catalog, location.sha256.as_str(), location.file_path.as_str());
    BlobWithMetadata {
        sha256: location.sha256.clone(),
        filename: Some(filename),
        size: location.size,
        mime,
        created_ms: now_ms,
        mtime_ms,
        path: Some(location.file_path.clone()),
        health: Some("healthy".to_owned()),
        page_count: None,
        image_width: None,
        image_height: None,
        line_count: None,
    }
}

/// Looks a blob up by its hash. That there is none is no error.
pub fn stat_blob(catalog: &Catalog, sha256: &str) -> (r: Option<BlobInfo>)
    ensures
        match found(catalog@, sha256@) {
            Some(info) => r is Some && r->0@ == info,
            None => r is None,
        },
{
    get_blob_by_hash(catalog, sha256)
}

/// Forgets a blob: its row and its paths leave the catalog. The file stays
/// on disk, where others may refer to it by its content.
pub fn delete_blob(catalog: &mut Catalog, sha256: &str)
    ensures
        wf(final(catalog)@),
        final(catalog)@ == removed(old(catalog)@, sha256@),
{
    catalog_delete_blob(catalog, sha256);
}

/// Gives a blob another file name for its users to see.
pub fn rename_blob(catalog: &mut Catalog, sha256: &str, filename: &str)
    ensures
        wf(final(catalog)@),
        final(catalog)@ == renamed(old(catalog)@, sha256@, filename@),
{
    update_filename(catalog, sha256, filename);
}

/// Lists the blobs with their paths. Blobs that no asset refers to cannot
/// be told from the others by the catalog alone, so `orphaned_only` does
/// not narrow the list.
pub fn list_blobs(catalog: &Catalog, orphaned_only: bool) -> (r: Vec<BlobWithMetadata>)
    ensures
        meta_views(r@) == listing(catalog@.blobs, catalog@.paths),
{
    list_all_blobs(catalog)
}

/// Reports the health of the catalog.
pub fn health_check(catalog: &Catalog) -> (r: Result<HealthReport, CatalogError>)
    ensures
        reportable(catalog@) ==> r == Ok::<HealthReport, CatalogError>(report_of(catalog@)),
        !reportable(catalog@) ==> r == Err::<HealthReport, CatalogError>(CatalogError::Overflow),
{
    get_stats(catalog)
}

/// The path under `root` where a blob without an extension lies, for
/// reading it back. A hash of fewer than two characters has none.
pub fn plain_blob_path(root: &str, sha256: &str) -> (r: Option<String>)
    ensures
        sha256@.len() >= 2 ==> r is Some && r->0@ == blob_path(root@, sha256@, Seq::empty()),
        sha256@.len() < 2 ==> r is None,
{
    let hash = chars_of(sha256);
    if hash.len() < 2 {
        return None;
    }
    proof {
        reveal_strlit("");
        assert(""@ =~= Seq::empty());
    }
    Some(blob_location(root, &hash, "", 0).file_path)
}

/// The statistics of a report as a document: the number of blobs, their
/// total size, and a breakdown by media type that is always empty.
pub open spec fn stats_json(report: HealthReport) -> JsonV {
    JsonV::Object(
        seq![
            ("totalBlobs"@, JsonV::Number(number_of(report.total_blobs as i64))),
            ("totalSize"@, JsonV::Number(number_of(report.total_size))),
            ("byMimeType"@, JsonV::Object(Seq::empty())),
        ],
    )
}

/// The statistics of the blob store, as a document.
pub fn get_blob_stats(catalog: &Catalog) -> (r: Result<Json, CatalogError>)
    ensures
        reportable(catalog@) ==> r is Ok && r->Ok_0@ == stats_json(report_of(catalog@)),
        !reportable(catalog@) ==> r == Err::<Json, CatalogError>(CatalogError::Overflow),
{
    let stats = match get_stats(catalog) {
        Ok(stats) => stats,
        Err(e) => {
            return Err(e);
        },
    };
    let none: Vec<(String, Json)> = Vec::new();
    let mut members: Vec<(String, Json)> = Vec::new();
    members.push(("totalBlobs".to_owned(), Json::Number(json_number(stats.total_blobs as i64))));
    members.push(("totalSize".to_owned(), Json::Number(json_number(stats.total_size))));
    proof {
        lemma_object_view(none);
        assert(member_views(none@) =~= Seq::empty());
    }
    members.push(("byMimeType".to_owned(), Json::Object(none)));
    proof {
        lemma_object_view(members);
        assert(member_views(members@) =~= stats_json(stats)->Object_0);
    }
    Ok(Json::Object(members))
}

/// Forgets every blob of the catalog. Whoever holds the disk empties the
/// storage root beside it.
pub fn clear_all_blobs(catalog: &mut Catalog)
    ensures
        wf(final(catalog)@),
        final(catalog)@.blobs.len() == 0,
        final(catalog)@.paths.len() == 0,
{
    catalog.clear();
}

} // verus!
