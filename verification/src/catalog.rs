//! The catalog of the blob store: which blobs are known, and where their
//! bytes lie on disk.
//!
//! A blob is identified by the hexadecimal digest of its content, compared
//! without regard to the case of the letters. A path is identified by its
//! text. Every path belongs to a blob of the catalog.

use vstd::prelude::*;
use crate::seqs::{
    count, first_index, keep, lemma_first_index, lemma_first_index_finds, lemma_first_index_is,
    lemma_keep, lemma_keep_pairwise, pairwise, upsert,
};
use crate::text::{chars_of, eq_ignore_case, same_text, str_eq, string_views};
use crate::types::{
    BlobInfo, BlobInfoV, BlobWithMetadata, BlobWithMetadataV, HealthReport, clone_opt, opt_view,
};

verus! {

/// A row of the table of blobs.
#[derive(Debug, Clone, PartialEq, Eq)]
pub struct BlobRow {
    pub hash: String,
    pub size: i64,
    pub mime: String,
    pub mtime_ms: i64,
    pub created_ms: i64,
    pub filename: Option<String>,
    pub health: Option<String>,
    pub image_width: Option<i32>,
    pub image_height: Option<i32>,
    pub line_count: Option<i32>,
}

/// The mathematical content of a [`BlobRow`].
pub struct BlobRowV {
    pub hash: Seq<char>,
    pub size: i64,
    pub mime: Seq<char>,
    pub mtime_ms: i64,
    pub created_ms: i64,
    pub filename: Option<Seq<char>>,
    pub health: Option<Seq<char>>,
    pub image_width: Option<i32>,
    pub image_height: Option<i32>,
    pub line_count: Option<i32>,
}

impl View for BlobRow {
    type V = BlobRowV;

    open spec fn view(&self) -> BlobRowV {
        BlobRowV {
            hash: self.hash@,
            size: self.size,
            mime: self.mime@,
            mtime_ms: self.mtime_ms,
            created_ms: self.created_ms,
            filename: opt_view(self.filename),
            health: opt_view(self.health),
            image_width: self.image_width,
            image_height: self.image_height,
            line_count: self.line_count,
        }
    }
}

/// A row of the table of paths: a place on disk that holds a blob's bytes.
#[derive(Debug, Clone, PartialEq, Eq)]
pub struct PathRow {
    pub hash: String,
    pub path: String,
}

/// The mathematical content of a [`PathRow`].
pub struct PathRowV {
    pub hash: Seq<char>,
    pub path: Seq<char>,
}

impl View for PathRow {
    type V = PathRowV;

    open spec fn view(&self) -> PathRowV {
        PathRowV { hash: self.hash@, path: self.path@ }
    }
}

/// The catalog: the two tables.
#[derive(Debug)]
pub struct Catalog {
    blobs: Vec<BlobRow>,
    paths: Vec<PathRow>,
}

/// The mathematical content of a [`Catalog`].
pub struct CatalogV {
    pub blobs: Seq<BlobRowV>,
    pub paths: Seq<PathRowV>,
}

/// The contents of a list of blob rows.
pub open spec fn blob_views(rows: Seq<BlobRow>) -> Seq<BlobRowV> {
    Seq::new(rows.len(), |i: int| rows[i]@)
}

/// The contents of a list of path rows.
pub open spec fn path_views(rows: Seq<PathRow>) -> Seq<PathRowV> {
    Seq::new(rows.len(), |i: int| rows[i]@)
}

impl View for Catalog {
    type V = CatalogV;

    closed spec fn view(&self) -> CatalogV {
        CatalogV { blobs: blob_views(self.blobs@), paths: path_views(self.paths@) }
    }
}

/// The blob rows of the given hash.
pub open spec fn has_hash(hash: Seq<char>) -> spec_fn(BlobRowV) -> bool {
    |row: BlobRowV| same_text(row.hash, hash)
}

/// The path rows of the given path.
pub open spec fn at_path(path: Seq<char>) -> spec_fn(PathRowV) -> bool {
    |row: PathRowV| row.path == path
}

/// The path rows of the given hash.
pub open spec fn of_hash(hash: Seq<char>) -> spec_fn(PathRowV) -> bool {
    |row: PathRowV| same_text(row.hash, hash)
}

/// Whether a blob of the given hash is among the rows.
pub open spec fn knows(blobs: Seq<BlobRowV>, hash: Seq<char>) -> bool {
    first_index(blobs, has_hash(hash)) < blobs.len()
}

/// Whether the tables are consistent: no two blobs of one hash, no two rows
/// of one path, and no path of an unknown blob.
pub open spec fn wf(c: CatalogV) -> bool {
    &&& forall|i: int, j: int|
        0 <= i < j < c.blobs.len() ==> !same_text(
            (#[trigger] c.blobs[i]).hash,
            (#[trigger] c.blobs[j]).hash,
        )
    &&& forall|i: int, j: int|
        0 <= i < j < c.paths.len() ==> (#[trigger] c.paths[i]).path != (#[trigger] c.paths[j]).path
    &&& forall|k: int| 0 <= k < c.paths.len() ==> knows(c.blobs, (#[trigger] c.paths[k]).hash)
}

/// The catalog after `row` took the place of the blob of its hash, or was
/// added.
pub open spec fn put_blob(c: CatalogV, row: BlobRowV) -> CatalogV {
    CatalogV { blobs: upsert(c.blobs, has_hash(row.hash), row), paths: c.paths }
}

/// The catalog after `row` took the place of the row of its path, or was
/// added.
pub open spec fn put_path(c: CatalogV, row: PathRowV) -> CatalogV {
    CatalogV { blobs: c.blobs, paths: upsert(c.paths, at_path(row.path), row) }
}

/// The row that a fresh insert writes: healthy, and with nothing known of
/// the content.
pub open spec fn fresh_row(
    hash: Seq<char>,
    size: i64,
    mime: Seq<char>,
    mtime_ms: i64,
    filename: Option<Seq<char>>,
    created_ms: i64,
) -> BlobRowV {
    BlobRowV {
        hash,
        size,
        mime,
        mtime_ms,
        created_ms,
        filename,
        health: Some("healthy"@),
        image_width: None,
        image_height: None,
        line_count: None,
    }
}

/// The first path of the given hash.
pub open spec fn first_path(paths: Seq<PathRowV>, hash: Seq<char>) -> Option<Seq<char>> {
    let k = first_index(paths, of_hash(hash));
    if k < paths.len() {
        Some(paths[k].path)
    } else {
        None
    }
}

/// A blob row with a path, as a record.
pub open spec fn info_of(row: BlobRowV, path: Option<Seq<char>>) -> BlobInfoV {
    BlobInfoV {
        sha256: row.hash,
        filename: row.filename,
        size: row.size,
        mime: row.mime,
        created_ms: row.created_ms,
        mtime_ms: row.mtime_ms,
        path,
        health: row.health,
    }
}

/// The record of the blob of the given hash, with its first path.
pub open spec fn found(c: CatalogV, hash: Seq<char>) -> Option<BlobInfoV> {
    let i = first_index(c.blobs, has_hash(hash));
    if i < c.blobs.len() {
        Some(info_of(c.blobs[i], first_path(c.paths, c.blobs[i].hash)))
    } else {
        None
    }
}

/// A hash is known exactly if some row has it.
pub proof fn lemma_knows(blobs: Seq<BlobRowV>, hash: Seq<char>)
    ensures
        knows(blobs, hash) <==> exists|i: int|
            0 <= i < blobs.len() && same_text((#[trigger] blobs[i]).hash, hash),
{
    lemma_first_index(blobs, has_hash(hash));
    if exists|i: int| 0 <= i < blobs.len() && same_text((#[trigger] blobs[i]).hash, hash) {
        let i = choose|i: int| 0 <= i < blobs.len() && same_text((#[trigger] blobs[i]).hash, hash);
        lemma_first_index_finds(blobs, has_hash(hash), i);
    }
    if knows(blobs, hash) {
        let f = first_index(blobs, has_hash(hash));
        assert(same_text(blobs[f].hash, hash));
    }
}

/// Putting a blob keeps the catalog consistent.
pub proof fn lemma_put_blob_wf(c: CatalogV, row: BlobRowV)
    requires
        wf(c),
    ensures
        wf(put_blob(c, row)),
        knows(put_blob(c, row).blobs, row.hash),
        forall|hash: Seq<char>| knows(c.blobs, hash) ==> knows(put_blob(c, row).blobs, hash),
{
    let p = has_hash(row.hash);
    let i = first_index(c.blobs, p);
    let after = put_blob(c, row);
    lemma_first_index(c.blobs, p);
    let at: int = if i < c.blobs.len() { i } else { c.blobs.len() as int };
    assert(after.blobs[at] == row);
    assert forall|a: int, b: int| 0 <= a < b < after.blobs.len() implies !same_text(
        (#[trigger] after.blobs[a]).hash,
        (#[trigger] after.blobs[b]).hash,
    ) by {
        if a == at {
            if i < c.blobs.len() {
                assert(same_text(c.blobs[i].hash, row.hash));
                assert(!same_text(c.blobs[i].hash, c.blobs[b].hash));
            }
        } else if b == at {
            if i < c.blobs.len() {
                assert(same_text(c.blobs[i].hash, row.hash));
                assert(!same_text(c.blobs[a].hash, c.blobs[i].hash));
            } else {
                assert(!p(c.blobs[a]));
            }
        } else {
            assert(after.blobs[a] == c.blobs[a]);
            assert(after.blobs[b] == c.blobs[b]);
        }
    }
    assert(same_text(after.blobs[at].hash, row.hash));
    lemma_knows(after.blobs, row.hash);
    assert forall|hash: Seq<char>| knows(c.blobs, hash) implies knows(after.blobs, hash) by {
        lemma_knows(c.blobs, hash);
        let w = choose|w: int|
            0 <= w < c.blobs.len() && same_text((#[trigger] c.blobs[w]).hash, hash);
        if w == at {
            assert(same_text(after.blobs[at].hash, hash));
        } else {
            assert(after.blobs[w] == c.blobs[w]);
            assert(same_text(after.blobs[w].hash, hash));
        }
        lemma_knows(after.blobs, hash);
    }
    assert forall|k: int| 0 <= k < after.paths.len() implies knows(
        after.blobs,
        (#[trigger] after.paths[k]).hash,
    ) by {
        assert(knows(c.blobs, c.paths[k].hash));
    }
}

/// Putting a path of a known blob keeps the catalog consistent.
pub proof fn lemma_put_path_wf(c: CatalogV, row: PathRowV)
    requires
        wf(c),
        knows(c.blobs, row.hash),
    ensures
        wf(put_path(c, row)),
{
    let p = at_path(row.path);
    let j = first_index(c.paths, p);
    let after = put_path(c, row);
    lemma_first_index(c.paths, p);
    let at: int = if j < c.paths.len() { j } else { c.paths.len() as int };
    assert(after.paths[at] == row);
    assert forall|a: int, b: int| 0 <= a < b < after.paths.len() implies (
    #[trigger] after.paths[a]).path != (#[trigger] after.paths[b]).path by {
        if a == at {
            if j < c.paths.len() {
                assert(c.paths[j].path != c.paths[b].path);
            }
        } else if b == at {
            if j < c.paths.len() {
                assert(c.paths[a].path != c.paths[j].path);
            } else {
                assert(!p(c.paths[a]));
            }
        } else {
            assert(after.paths[a] == c.paths[a]);
            assert(after.paths[b] == c.paths[b]);
        }
    }
    assert forall|k: int| 0 <= k < after.paths.len() implies knows(
        after.blobs,
        (#[trigger] after.paths[k]).hash,
    ) by {
        if k != at {
            assert(after.paths[k] == c.paths[k]);
        }
    }
}

/// The index of the first blob of the given hash, or the number of blobs.
fn find_blob(blobs: &Vec<BlobRow>, hash: &str) -> (r: usize)
    ensures
        r == first_index(blob_views(blobs@), has_hash(hash@)),
{
    let wanted = chars_of(hash);
    let mut i: usize = 0;
    while i < blobs.len()
        invariant
            i <= blobs.len(),
            wanted@ == hash@,
            forall|j: int| 0 <= j < i ==> !has_hash(hash@)(#[trigger] blob_views(blobs@)[j]),
        decreases blobs.len() - i,
    {
        if eq_ignore_case(&chars_of(blobs[i].hash.as_str()), &wanted) {
            proof {
                lemma_first_index_is(blob_views(blobs@), has_hash(hash@), i as int);
            }
            return i;
        }
        i += 1;
    }
    proof {
        lemma_first_index_is(blob_views(blobs@), has_hash(hash@), i as int);
    }
    i
}

/// The index of the first row of the given path, or the number of rows.
fn find_path(paths: &Vec<PathRow>, path: &str) -> (r: usize)
    ensures
        r == first_index(path_views(paths@), at_path(path@)),
{
    let mut i: usize = 0;
    while i < paths.len()
        invariant
            i <= paths.len(),
            forall|j: int| 0 <= j < i ==> !at_path(path@)(#[trigger] path_views(paths@)[j]),
        decreases paths.len() - i,
    {
        if str_eq(paths[i].path.as_str(), path) {
            proof {
                lemma_first_index_is(path_views(paths@), at_path(path@), i as int);
            }
            return i;
        }
        i += 1;
    }
    proof {
        lemma_first_index_is(path_views(paths@), at_path(path@), i as int);
    }
    i
}

/// The index of the first path row of the given hash, or the number of rows.
fn find_path_of(paths: &Vec<PathRow>, hash: &str) -> (r: usize)
    ensures
        r == first_index(path_views(paths@), of_hash(hash@)),
{
    let wanted = chars_of(hash);
    let mut i: usize = 0;
    while i < paths.len()
        invariant
            i <= paths.len(),
            wanted@ == hash@,
            forall|j: int| 0 <= j < i ==> !of_hash(hash@)(#[trigger] path_views(paths@)[j]),
        decreases paths.len() - i,
    {
        if eq_ignore_case(&chars_of(paths[i].hash.as_str()), &wanted) {
            proof {
                lemma_first_index_is(path_views(paths@), of_hash(hash@), i as int);
            }
            return i;
        }
        i += 1;
    }
    proof {
        lemma_first_index_is(path_views(paths@), of_hash(hash@), i as int);
    }
    i
}

/// Why the catalog refused an operation.
#[derive(Clone, Copy, Debug, PartialEq, Eq, Structural)]
pub enum CatalogError {
    /// A path was given for a blob that the catalog does not know.
    UnknownBlob,
    /// A count or a total does not fit the report's integers.
    Overflow,
}

impl Catalog {
    #[verifier::type_invariant]
    spec fn consistent(self) -> bool {
        wf(self@)
    }

    /// Every catalog is consistent: the call costs nothing and tells the
    /// caller's proof so.
    pub fn well_formed(&self)
        ensures
            wf(self@),
    {
        proof {
            use_type_invariant(self);
        }
    }

    /// A catalog without blobs and paths.
    pub fn new() -> (r: Catalog)
        ensures
            wf(r@),
            r@.blobs.len() == 0,
            r@.paths.len() == 0,
    {
        Catalog { blobs: Vec::new(), paths: Vec::new() }
    }

    /// Forgets every blob and every path.
    pub fn clear(&mut self)
        ensures
            wf(final(self)@),
            final(self)@.blobs.len() == 0,
            final(self)@.paths.len() == 0,
    {
        *self = Catalog::new();
    }

    /// The number of blobs.
    pub fn blob_count(&self) -> (r: usize)
        ensures
            r == self@.blobs.len(),
    {
        self.blobs.len()
    }

    /// The number of blobs that none of the files backs.
    pub fn count_lost(&self, files: &Vec<String>) -> (r: usize)
        ensures
            r == count(self@.blobs, lost(self@.paths, string_views(files@))),
            r <= self@.blobs.len(),
    {
        let ghost blobs = blob_views(self.blobs@);
        let ghost paths = path_views(self.paths@);
        let ghost names = string_views(files@);
        let mut n: usize = 0;
        let mut i: usize = 0;
        assert(blobs.take(0) =~= Seq::empty());
        while i < self.blobs.len()
            invariant
                i <= self.blobs.len(),
                blobs == blob_views(self.blobs@),
                paths == path_views(self.paths@),
                names == string_views(files@),
                n == count(blobs.take(i as int), lost(paths, names)),
                n <= i,
            decreases self.blobs.len() - i,
        {
            assert(blobs.take(i + 1).drop_last() =~= blobs.take(i as int));
            let backed = is_backed(&self.paths, files, self.blobs[i].hash.as_str());
            if !backed {
                n += 1;
            }
            i += 1;
        }
        assert(blobs.take(i as int) =~= blobs);
        n
    }

}

/// Writes a blob row: it takes the place of the row of its hash, if the
/// catalog has one, and is added otherwise.
pub fn upsert_blob(catalog: &mut Catalog, row: BlobRow)
    ensures
        wf(final(catalog)@),
        final(catalog)@ == put_blob(old(catalog)@, row@),
{
    let mut taken = Catalog::new();
    core::mem::swap(catalog, &mut taken);
    proof {
        use_type_invariant(&taken);
        lemma_put_blob_wf(taken@, row@);
    }
    let Catalog { mut blobs, paths } = taken;
    let i = find_blob(&blobs, row.hash.as_str());
    if i < blobs.len() {
        blobs.set(i, row);
    } else {
        blobs.push(row);
    }
    assert(blob_views(blobs@) =~= put_blob(old(catalog)@, row@).blobs);
    *catalog = Catalog { blobs, paths };
}

/// Records a blob: a healthy row with the given attributes takes the place
/// of the row of that hash, or is added.
pub fn insert_blob(
    catalog: &mut Catalog,
    hash: &str,
    size: i64,
    mime: &str,
    mtime_ms: i64,
    filename: Option<&str>,
    created_ms: i64,
)
    ensures
        wf(final(catalog)@),
        final(catalog)@ == put_blob(
            old(catalog)@,
            fresh_row(
                hash@,
                size,
                mime@,
                mtime_ms,
                match filename {
                    Some(name) => Some(name@),
                    None => None,
                },
                created_ms,
            ),
        ),
{
    let row = BlobRow {
        hash: hash.to_owned(),
        size,
        mime: mime.to_owned(),
        mtime_ms,
        created_ms,
        filename: match filename {
            Some(name) => Some(name.to_owned()),
            None => None,
        },
        health: Some("healthy".to_owned()),
        image_width: None,
        image_height: None,
        line_count: None,
    };
    upsert_blob(catalog, row);
}

/// Records a path of a blob: the row takes the place of the row of that
/// path, or is added. A path of a blob that the catalog does not know is
/// refused, and the catalog stays as it was.
pub fn insert_path(catalog: &mut Catalog, hash: &str, path: &str) -> (r: Result<(), CatalogError>)
    ensures
        wf(final(catalog)@),
        knows(old(catalog)@.blobs, hash@) ==> r is Ok && final(catalog)@ == put_path(
            old(catalog)@,
            PathRowV { hash: hash@, path: path@ },
        ),
        !knows(old(catalog)@.blobs, hash@) ==> r == Err::<(), CatalogError>(
            CatalogError::UnknownBlob,
        ) && final(catalog)@ == old(catalog)@,
{
    proof {
        use_type_invariant(&*catalog);
    }
    if find_blob(&catalog.blobs, hash) >= catalog.blobs.len() {
        return Err(CatalogError::UnknownBlob);
    }
    let row = PathRow { hash: hash.to_owned(), path: path.to_owned() };
    let mut taken = Catalog::new();
    core::mem::swap(catalog, &mut taken);
    proof {
        lemma_put_path_wf(taken@, row@);
    }
    let Catalog { blobs, mut paths } = taken;
    let j = find_path(&paths, path);
    if j < paths.len() {
        paths.set(j, row);
    } else {
        paths.push(row);
    }
    assert(path_views(paths@) =~= put_path(old(catalog)@, row@).paths);
    *catalog = Catalog { blobs, paths };
    Ok(())
}

/// Looks a blob up by its hash. That the catalog has none is no error.
pub fn get_blob_by_hash(catalog: &Catalog, hash: &str) -> (r: Option<BlobInfo>)
    ensures
        match found(catalog@, hash@) {
            Some(info) => r is Some && r->0@ == info,
            None => r is None,
        },
{
    let i = find_blob(&catalog.blobs, hash);
    if i >= catalog.blobs.len() {
        return None;
    }
    let row = &catalog.blobs[i];
    assert(row@ == catalog@.blobs[i as int]);
    let k = find_path_of(&catalog.paths, row.hash.as_str());
    let path = if k < catalog.paths.len() {
        assert(catalog.paths@[k as int]@ == catalog@.paths[k as int]);
        Some(catalog.paths[k].path.clone())
    } else {
        None
    };
    Some(
        BlobInfo {
            sha256: row.hash.clone(),
            filename: clone_opt(&row.filename),
            size: row.size,
            mime: row.mime.clone(),
            created_ms: row.created_ms,
            mtime_ms: row.mtime_ms,
            path,
            health: clone_opt(&row.health),
        },
    )
}

/// The blob rows of another hash than the given one.
pub open spec fn lacks_hash(hash: Seq<char>) -> spec_fn(BlobRowV) -> bool {
    |row: BlobRowV| !same_text(row.hash, hash)
}

/// The path rows of another hash than the given one.
pub open spec fn not_of_hash(hash: Seq<char>) -> spec_fn(PathRowV) -> bool {
    |row: PathRowV| !same_text(row.hash, hash)
}

/// The catalog without the blob of the given hash and without its paths.
pub open spec fn removed(c: CatalogV, hash: Seq<char>) -> CatalogV {
    CatalogV { blobs: keep(c.blobs, lacks_hash(hash)), paths: keep(c.paths, not_of_hash(hash)) }
}

/// The catalog with the blob of the given hash, if there is one, named
/// `filename`.
pub open spec fn renamed(c: CatalogV, hash: Seq<char>, filename: Seq<char>) -> CatalogV {
    let i = first_index(c.blobs, has_hash(hash));
    if i < c.blobs.len() {
        CatalogV {
            blobs: c.blobs.update(i, BlobRowV { filename: Some(filename), ..c.blobs[i] }),
            paths: c.paths,
        }
    } else {
        c
    }
}

/// A blob row with a path, as a record with nothing known of the content
/// but what the row holds.
pub open spec fn meta_of(row: BlobRowV, path: Option<Seq<char>>) -> BlobWithMetadataV {
    BlobWithMetadataV {
        sha256: row.hash,
        filename: row.filename,
        size: row.size,
        mime: row.mime,
        created_ms: row.created_ms,
        mtime_ms: row.mtime_ms,
        path,
        health: row.health,
        page_count: None,
        image_width: row.image_width,
        image_height: row.image_height,
        line_count: row.line_count,
    }
}

/// One record of `row` for each of the path rows.
pub open spec fn with_paths(row: BlobRowV, own: Seq<PathRowV>) -> Seq<BlobWithMetadataV> {
    Seq::new(own.len(), |k: int| meta_of(row, Some(own[k].path)))
}

/// The records of one blob: one for each of its paths, or one without a
/// path if it has none.
pub open spec fn joined_rows(row: BlobRowV, paths: Seq<PathRowV>) -> Seq<BlobWithMetadataV> {
    let own = keep(paths, of_hash(row.hash));
    if own.len() == 0 {
        seq![meta_of(row, None)]
    } else {
        with_paths(row, own)
    }
}

/// The records of all blobs, blob by blob.
pub open spec fn listing(blobs: Seq<BlobRowV>, paths: Seq<PathRowV>) -> Seq<BlobWithMetadataV>
    decreases blobs.len(),
{
    if blobs.len() == 0 {
        Seq::empty()
    } else {
        listing(blobs.drop_last(), paths) + joined_rows(blobs.last(), paths)
    }
}

/// The contents of a list of records.
pub open spec fn meta_views(rows: Seq<BlobWithMetadata>) -> Seq<BlobWithMetadataV> {
    Seq::new(rows.len(), |i: int| rows[i]@)
}

/// The blob rows whose health is `health`.
pub open spec fn in_health(health: Seq<char>) -> spec_fn(BlobRowV) -> bool {
    |row: BlobRowV| row.health == Some(health)
}

/// The sum of the sizes of the blobs.
pub open spec fn total_size(blobs: Seq<BlobRowV>) -> int
    decreases blobs.len(),
{
    if blobs.len() == 0 {
        0
    } else {
        total_size(blobs.drop_last()) + blobs.last().size
    }
}

/// Whether the numbers of the catalog fit a report.
pub open spec fn reportable(c: CatalogV) -> bool {
    c.blobs.len() <= i32::MAX && i64::MIN <= total_size(c.blobs) <= i64::MAX
}

/// The report on the catalog.
pub open spec fn report_of(c: CatalogV) -> HealthReport {
    HealthReport {
        total_blobs: c.blobs.len() as i32,
        healthy: count(c.blobs, in_health("healthy"@)) as i32,
        missing: count(c.blobs, in_health("missing"@)) as i32,
        modified: count(c.blobs, in_health("modified"@)) as i32,
        relocated: count(c.blobs, in_health("relocated"@)) as i32,
        total_size: total_size(c.blobs) as i64,
    }
}

/// Removing a blob keeps the catalog consistent, and the blob is gone.
pub proof fn lemma_removed_wf(c: CatalogV, hash: Seq<char>)
    requires
        wf(c),
    ensures
        wf(removed(c, hash)),
        !knows(removed(c, hash).blobs, hash),
{
    let after = removed(c, hash);
    let unlike = |a: BlobRowV, b: BlobRowV| !same_text(a.hash, b.hash);
    let apart = |a: PathRowV, b: PathRowV| a.path != b.path;
    assert(pairwise(c.blobs, unlike));
    assert(pairwise(c.paths, apart));
    lemma_keep_pairwise(c.blobs, lacks_hash(hash), unlike);
    lemma_keep_pairwise(c.paths, not_of_hash(hash), apart);
    lemma_keep(c.blobs, lacks_hash(hash));
    lemma_keep(c.paths, not_of_hash(hash));
    assert forall|i: int, j: int| 0 <= i < j < after.blobs.len() implies !same_text(
        (#[trigger] after.blobs[i]).hash,
        (#[trigger] after.blobs[j]).hash,
    ) by {
        assert(unlike(after.blobs[i], after.blobs[j]));
    }
    assert forall|i: int, j: int| 0 <= i < j < after.paths.len() implies (
    #[trigger] after.paths[i]).path != (#[trigger] after.paths[j]).path by {
        assert(apart(after.paths[i], after.paths[j]));
    }
    assert forall|k: int| 0 <= k < after.paths.len() implies knows(
        after.blobs,
        (#[trigger] after.paths[k]).hash,
    ) by {
        let row = after.paths[k];
        assert(not_of_hash(hash)(row));
        assert(c.paths.contains(row));
        let w = choose|w: int| 0 <= w < c.paths.len() && c.paths[w] == row;
        assert(knows(c.blobs, c.paths[w].hash));
        lemma_knows(c.blobs, row.hash);
        let b = choose|b: int|
            0 <= b < c.blobs.len() && same_text((#[trigger] c.blobs[b]).hash, row.hash);
        assert(lacks_hash(hash)(c.blobs[b]));
        assert(after.blobs.contains(c.blobs[b]));
        let n = choose|n: int| 0 <= n < after.blobs.len() && after.blobs[n] == c.blobs[b];
        assert(same_text(after.blobs[n].hash, row.hash));
        lemma_knows(after.blobs, row.hash);
    }
    lemma_knows(after.blobs, hash);
    if knows(after.blobs, hash) {
        let n = choose|n: int|
            0 <= n < after.blobs.len() && same_text((#[trigger] after.blobs[n]).hash, hash);
        assert(lacks_hash(hash)(after.blobs[n]));
    }
}

/// Renaming a blob keeps the catalog consistent and its hashes known.
pub proof fn lemma_renamed_wf(c: CatalogV, hash: Seq<char>, filename: Seq<char>)
    requires
        wf(c),
    ensures
        wf(renamed(c, hash, filename)),
        forall|h: Seq<char>| knows(c.blobs, h) <==> knows(renamed(c, hash, filename).blobs, h),
{
    let after = renamed(c, hash, filename);
    let i = first_index(c.blobs, has_hash(hash));
    lemma_first_index(c.blobs, has_hash(hash));
    assert(after.blobs.len() == c.blobs.len());
    assert forall|k: int| 0 <= k < c.blobs.len() implies (#[trigger] after.blobs[k]).hash
        == c.blobs[k].hash by {}
    assert forall|h: Seq<char>| knows(c.blobs, h) <==> knows(after.blobs, h) by {
        lemma_knows(c.blobs, h);
        lemma_knows(after.blobs, h);
        if knows(c.blobs, h) {
            let w = choose|w: int|
                0 <= w < c.blobs.len() && same_text((#[trigger] c.blobs[w]).hash, h);
            assert(same_text(after.blobs[w].hash, h));
        }
        if knows(after.blobs, h) {
            let w = choose|w: int|
                0 <= w < after.blobs.len() && same_text((#[trigger] after.blobs[w]).hash, h);
            assert(same_text(c.blobs[w].hash, h));
        }
    }
    assert forall|a: int, b: int| 0 <= a < b < after.blobs.len() implies !same_text(
        (#[trigger] after.blobs[a]).hash,
        (#[trigger] after.blobs[b]).hash,
    ) by {
        assert(!same_text(c.blobs[a].hash, c.blobs[b].hash));
    }
    assert forall|k: int| 0 <= k < after.paths.len() implies knows(
        after.blobs,
        (#[trigger] after.paths[k]).hash,
    ) by {
        assert(knows(c.blobs, c.paths[k].hash));
    }
}

/// Removes a blob from the catalog, with its paths. The files on disk are
/// not touched.
pub fn delete_blob(catalog: &mut Catalog, hash: &str)
    ensures
        wf(final(catalog)@),
        final(catalog)@ == removed(old(catalog)@, hash@),
{
    proof {
        use_type_invariant(&*catalog);
        lemma_removed_wf(catalog@, hash@);
    }
    let wanted = chars_of(hash);
    let ghost blobs = blob_views(catalog.blobs@);
    let ghost paths = path_views(catalog.paths@);
    let mut kept_paths: Vec<PathRow> = Vec::new();
    let mut k: usize = 0;
    assert(paths.take(0) =~= Seq::empty());
    assert(path_views(kept_paths@) =~= Seq::empty());
    while k < catalog.paths.len()
        invariant
            k <= catalog.paths.len(),
            wanted@ == hash@,
            paths == path_views(catalog.paths@),
            path_views(kept_paths@) == keep(paths.take(k as int), not_of_hash(hash@)),
        decreases catalog.paths.len() - k,
    {
        assert(paths.take(k + 1).drop_last() =~= paths.take(k as int));
        let ghost before = path_views(kept_paths@);
        if !eq_ignore_case(&chars_of(catalog.paths[k].hash.as_str()), &wanted) {
            kept_paths.push(catalog.paths[k].clone_row());
            assert(path_views(kept_paths@) =~= before.push(paths[k as int]));
        }
        k += 1;
    }
    assert(paths.take(k as int) =~= paths);
    let mut kept_blobs: Vec<BlobRow> = Vec::new();
    let mut i: usize = 0;
    assert(blobs.take(0) =~= Seq::empty());
    assert(blob_views(kept_blobs@) =~= Seq::empty());
    while i < catalog.blobs.len()
        invariant
            i <= catalog.blobs.len(),
            wanted@ == hash@,
            blobs == blob_views(catalog.blobs@),
            blob_views(kept_blobs@) == keep(blobs.take(i as int), lacks_hash(hash@)),
        decreases catalog.blobs.len() - i,
    {
        assert(blobs.take(i + 1).drop_last() =~= blobs.take(i as int));
        let ghost before = blob_views(kept_blobs@);
        if !eq_ignore_case(&chars_of(catalog.blobs[i].hash.as_str()), &wanted) {
            kept_blobs.push(catalog.blobs[i].clone_row());
            assert(blob_views(kept_blobs@) =~= before.push(blobs[i as int]));
        }
        i += 1;
    }
    assert(blobs.take(i as int) =~= blobs);
    *catalog = Catalog { blobs: kept_blobs, paths: kept_paths };
}

impl BlobRow {
    /// A copy of the row.
    pub fn clone_row(&self) -> (r: BlobRow)
        ensures
            r@ == self@,
    {
        BlobRow {
            hash: self.hash.clone(),
            size: self.size,
            mime: self.mime.clone(),
            mtime_ms: self.mtime_ms,
            created_ms: self.created_ms,
            filename: clone_opt(&self.filename),
            health: clone_opt(&self.health),
            image_width: self.image_width,
            image_height: self.image_height,
            line_count: self.line_count,
        }
    }
}

impl PathRow {
    /// A copy of the row.
    pub fn clone_row(&self) -> (r: PathRow)
        ensures
            r@ == self@,
    {
        PathRow { hash: self.hash.clone(), path: self.path.clone() }
    }
}

/// Names a blob. Where the catalog has no blob of that hash, nothing
/// changes.
pub fn update_filename(catalog: &mut Catalog, hash: &str, filename: &str)
    ensures
        wf(final(catalog)@),
        final(catalog)@ == renamed(old(catalog)@, hash@, filename@),
{
    let mut taken = Catalog::new();
    core::mem::swap(catalog, &mut taken);
    proof {
        use_type_invariant(&taken);
        lemma_renamed_wf(taken@, hash@, filename@);
    }
    let Catalog { mut blobs, paths } = taken;
    let i = find_blob(&blobs, hash);
    if i < blobs.len() {
        let mut row = blobs[i].clone_row();
        row.filename = Some(filename.to_owned());
        blobs.set(i, row);
        assert(blob_views(blobs@) =~= renamed(old(catalog)@, hash@, filename@).blobs);
    }
    *catalog = Catalog { blobs, paths };
}

/// The record of a blob row with the given path.
fn make_meta(row: &BlobRow, path: Option<String>) -> (r: BlobWithMetadata)
    ensures
        r@ == meta_of(row@, opt_view(path)),
{
    BlobWithMetadata {
        sha256: row.hash.clone(),
        filename: clone_opt(&row.filename),
        size: row.size,
        mime: row.mime.clone(),
        created_ms: row.created_ms,
        mtime_ms: row.mtime_ms,
        path,
        health: clone_opt(&row.health),
        page_count: None,
        image_width: row.image_width,
        image_height: row.image_height,
        line_count: row.line_count,
    }
}

/// Lists every blob with its paths: one record for each path of a blob,
/// and one without a path for a blob that has none.
pub fn list_all_blobs(catalog: &Catalog) -> (r: Vec<BlobWithMetadata>)
    ensures
        meta_views(r@) == listing(catalog@.blobs, catalog@.paths),
{
    let ghost blobs = blob_views(catalog.blobs@);
    let ghost paths = path_views(catalog.paths@);
    let mut out: Vec<BlobWithMetadata> = Vec::new();
    let mut i: usize = 0;
    assert(blobs.take(0) =~= Seq::empty());
    assert(meta_views(out@) =~= Seq::empty());
    while i < catalog.blobs.len()
        invariant
            i <= catalog.blobs.len(),
            blobs == blob_views(catalog.blobs@),
            paths == path_views(catalog.paths@),
            meta_views(out@) == listing(blobs.take(i as int), paths),
        decreases catalog.blobs.len() - i,
    {
        assert(blobs.take(i + 1).drop_last() =~= blobs.take(i as int));
        let row = &catalog.blobs[i];
        assert(row@ == blobs[i as int]);
        let wanted = chars_of(row.hash.as_str());
        let ghost base = meta_views(out@);
        let mut any: bool = false;
        let mut k: usize = 0;
        assert(paths.take(0) =~= Seq::empty());
        assert(meta_views(out@) =~= base + with_paths(row@, Seq::empty()));
        while k < catalog.paths.len()
            invariant
                k <= catalog.paths.len(),
                wanted@ == row@.hash,
                paths == path_views(catalog.paths@),
                any == (keep(paths.take(k as int), of_hash(row@.hash)).len() > 0),
                meta_views(out@) == base + with_paths(
                    row@,
                    keep(paths.take(k as int), of_hash(row@.hash)),
                ),
            decreases catalog.paths.len() - k,
        {
            assert(paths.take(k + 1).drop_last() =~= paths.take(k as int));
            let ghost own = keep(paths.take(k as int), of_hash(row@.hash));
            let ghost before = meta_views(out@);
            if eq_ignore_case(&chars_of(catalog.paths[k].hash.as_str()), &wanted) {
                out.push(make_meta(row, Some(catalog.paths[k].path.clone())));
                any = true;
                assert(meta_views(out@) =~= before.push(meta_of(row@, Some(paths[k as int].path))));
                assert(with_paths(row@, own.push(paths[k as int])) =~= with_paths(row@, own).push(
                    meta_of(row@, Some(paths[k as int].path)),
                ));
                assert(meta_views(out@) =~= base + with_paths(row@, own.push(paths[k as int])));
            }
            k += 1;
        }
        assert(paths.take(k as int) =~= paths);
        if !any {
            let ghost before = meta_views(out@);
            out.push(make_meta(row, None));
            assert(meta_views(out@) =~= before.push(meta_of(row@, None)));
            assert(meta_views(out@) =~= base + seq![meta_of(row@, None)]);
        }
        i += 1;
    }
    assert(blobs.take(i as int) =~= blobs);
    out
}

/// Whether an optional health is the given one.
fn health_is(health: &Option<String>, wanted: &str) -> (r: bool)
    ensures
        r == (opt_view(*health) == Some(wanted@)),
{
    match health {
        Some(h) => str_eq(h.as_str(), wanted),
        None => false,
    }
}

/// `count` and `total_size` of one more row.
proof fn lemma_one_more(blobs: Seq<BlobRowV>, i: int, health: Seq<char>)
    requires
        0 <= i < blobs.len(),
    ensures
        count(blobs.take(i + 1), in_health(health)) == count(blobs.take(i), in_health(health)) + (
        if blobs[i].health == Some(health) {
            1nat
        } else {
            0nat
        }),
        total_size(blobs.take(i + 1)) == total_size(blobs.take(i)) + blobs[i].size,
        count(blobs.take(i), in_health(health)) <= i,
    decreases i,
{
    assert(blobs.take(i + 1).drop_last() =~= blobs.take(i));
    if i > 0 {
        lemma_one_more(blobs, i - 1, health);
    }
}

/// Counts the blobs, all of them and by health, and adds up their sizes.
/// Numbers that do not fit the report are refused.
pub fn get_stats(catalog: &Catalog) -> (r: Result<HealthReport, CatalogError>)
    ensures
        reportable(catalog@) ==> r == Ok::<HealthReport, CatalogError>(report_of(catalog@)),
        !reportable(catalog@) ==> r == Err::<HealthReport, CatalogError>(CatalogError::Overflow),
{
    if catalog.blobs.len() > 0x7fff_ffff {
        return Err(CatalogError::Overflow);
    }
    let ghost blobs = blob_views(catalog.blobs@);
    let mut healthy: i32 = 0;
    let mut missing: i32 = 0;
    let mut modified: i32 = 0;
    let mut relocated: i32 = 0;
    let mut total: i128 = 0;
    let mut i: usize = 0;
    assert(blobs.take(0) =~= Seq::empty());
    while i < catalog.blobs.len()
        invariant
            i <= catalog.blobs.len() <= i32::MAX,
            blobs == blob_views(catalog.blobs@),
            healthy == count(blobs.take(i as int), in_health("healthy"@)) <= i,
            missing == count(blobs.take(i as int), in_health("missing"@)) <= i,
            modified == count(blobs.take(i as int), in_health("modified"@)) <= i,
            relocated == count(blobs.take(i as int), in_health("relocated"@)) <= i,
            total == total_size(blobs.take(i as int)),
            -(i as int) * 0x8000_0000_0000_0000 <= total <= i * 0x8000_0000_0000_0000,
        decreases catalog.blobs.len() - i,
    {
        proof {
            lemma_one_more(blobs, i as int, "healthy"@);
            lemma_one_more(blobs, i as int, "missing"@);
            lemma_one_more(blobs, i as int, "modified"@);
            lemma_one_more(blobs, i as int, "relocated"@);
        }
        let row = &catalog.blobs[i];
        assert(row@ == blobs[i as int]);
        if health_is(&row.health, "healthy") {
            healthy += 1;
        }
        if health_is(&row.health, "missing") {
            missing += 1;
        }
        if health_is(&row.health, "modified") {
            modified += 1;
        }
        if health_is(&row.health, "relocated") {
            relocated += 1;
        }
        total += row.size as i128;
        i += 1;
    }
    assert(blobs.take(i as int) =~= blobs);
    if total < -0x8000_0000_0000_0000 || total > 0x7fff_ffff_ffff_ffff {
        return Err(CatalogError::Overflow);
    }
    Ok(
        HealthReport {
            total_blobs: catalog.blobs.len() as i32,
            healthy,
            missing,
            modified,
            relocated,
            total_size: total as i64,
        },
    )
}

/// The path rows of the given hash whose path is among the files.
pub open spec fn backing(files: Seq<Seq<char>>, hash: Seq<char>) -> spec_fn(PathRowV) -> bool {
    |row: PathRowV| same_text(row.hash, hash) && files.contains(row.path)
}

/// The blob rows that none of the files backs: no path of the blob is
/// among them.
pub open spec fn lost(paths: Seq<PathRowV>, files: Seq<Seq<char>>) -> spec_fn(BlobRowV) -> bool {
    |row: BlobRowV| first_index(paths, backing(files, row.hash)) >= paths.len()
}

/// Whether `path` is among the files.
fn among(files: &Vec<String>, path: &str) -> (r: bool)
    ensures
        r == string_views(files@).contains(path@),
{
    let mut i: usize = 0;
    while i < files.len()
        invariant
            i <= files.len(),
            forall|j: int| 0 <= j < i ==> string_views(files@)[j] != path@,
        decreases files.len() - i,
    {
        if str_eq(files[i].as_str(), path) {
            assert(string_views(files@)[i as int] == path@);
            return true;
        }
        i += 1;
    }
    false
}

/// Whether a path of the given hash is among the files.
fn is_backed(paths: &Vec<PathRow>, files: &Vec<String>, hash: &str) -> (r: bool)
    ensures
        r == (first_index(path_views(paths@), backing(string_views(files@), hash@)) < paths.len()),
{
    let wanted = chars_of(hash);
    let ghost rows = path_views(paths@);
    let ghost names = string_views(files@);
    let mut k: usize = 0;
    while k < paths.len()
        invariant
            k <= paths.len(),
            wanted@ == hash@,
            rows == path_views(paths@),
            names == string_views(files@),
            forall|j: int| 0 <= j < k ==> !backing(names, hash@)(#[trigger] rows[j]),
        decreases paths.len() - k,
    {
        if eq_ignore_case(&chars_of(paths[k].hash.as_str()), &wanted) && among(
            files,
            paths[k].path.as_str(),
        ) {
            proof {
                lemma_first_index_is(rows, backing(names, hash@), k as int);
            }
            return true;
        }
        k += 1;
    }
    proof {
        lemma_first_index_is(rows, backing(names, hash@), k as int);
    }
    false
}

} // verus!
