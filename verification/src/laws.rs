//! What holds of the store and of the engine across calls.

use vstd::prelude::*;
use crate::batch::result_of;
use crate::blobs::{BlobLocationV, location_of, stored, stored_record};
use crate::catalog::{
    BlobRowV, CatalogV, PathRowV, at_path, found, fresh_row, has_hash, joined_rows, knows,
    lemma_knows, lemma_put_blob_wf, lemma_put_path_wf, lemma_removed_wf, listing, put_blob,
    put_path, removed, wf,
};
use crate::json::{JsonV, Members, lemma_lookup_put, lookup, without};
use crate::naming::{snake_case, snake_members};
use crate::params::SqlParamV;
use crate::rows::CellV;
use crate::scan::{
    FileMeta, ScanEntryV, is_blob_file, lemma_reconciled, reconciled, scan_state, scan_step,
    scanned_row,
};
use crate::seqs::{
    count, first_index, lemma_first_index, lemma_first_index_finds, lemma_first_index_is,
    lemma_upsert,
};
use crate::sql::{
    StatementV, conflict_clause, fetch_sql, insert_sql, names_of, params_of, update_sql,
};
use crate::text::same_text;
use crate::writes::{
    Phase, ReplyV, StepV, claimed_updated_at, insert_step, keyed, next_step, prepared,
    remote_updated_at, row_id, row_json,
};

verus! {

/// The row of the blob of the given hash.
pub open spec fn blob_row(c: CatalogV, hash: Seq<char>) -> Option<BlobRowV> {
    let i = first_index(c.blobs, has_hash(hash));
    if i < c.blobs.len() {
        Some(c.blobs[i])
    } else {
        None
    }
}

/// In a consistent list of blobs, a hash that is known is held by one row.
pub proof fn lemma_one_row(blobs: Seq<BlobRowV>, hash: Seq<char>)
    requires
        forall|i: int, j: int|
            0 <= i < j < blobs.len() ==> !same_text(
                (#[trigger] blobs[i]).hash,
                (#[trigger] blobs[j]).hash,
            ),
    ensures
        count(blobs, has_hash(hash)) == if knows(blobs, hash) {
            1nat
        } else {
            0nat
        },
    decreases blobs.len(),
{
    lemma_knows(blobs, hash);
    if blobs.len() != 0 {
        let front = blobs.drop_last();
        assert forall|i: int, j: int| 0 <= i < j < front.len() implies !same_text(
            (#[trigger] front[i]).hash,
            (#[trigger] front[j]).hash,
        ) by {
            assert(front[i] == blobs[i] && front[j] == blobs[j]);
        }
        lemma_one_row(front, hash);
        lemma_knows(front, hash);
        let last = blobs.len() - 1;
        if has_hash(hash)(blobs.last()) {
            assert(same_text(blobs[last].hash, hash));
            if knows(front, hash) {
                let w = choose|w: int|
                    0 <= w < front.len() && same_text((#[trigger] front[w]).hash, hash);
                assert(front[w] == blobs[w]);
                assert(!same_text(blobs[w].hash, blobs[last].hash));
            }
        } else {
            if knows(blobs, hash) {
                let w = choose|w: int|
                    0 <= w < blobs.len() && same_text((#[trigger] blobs[w]).hash, hash);
                assert(w < last);
                assert(front[w] == blobs[w]);
            }
            if knows(front, hash) {
                let w = choose|w: int|
                    0 <= w < front.len() && same_text((#[trigger] front[w]).hash, hash);
                assert(front[w] == blobs[w]);
            }
        }
    }
}

/// In a list of paths without repetition, a path that occurs is held by
/// one row.
pub proof fn lemma_one_path(paths: Seq<PathRowV>, path: Seq<char>)
    requires
        forall|i: int, j: int|
            0 <= i < j < paths.len() ==> (#[trigger] paths[i]).path != (#[trigger] paths[j]).path,
    ensures
        count(paths, at_path(path)) == if first_index(paths, at_path(path)) < paths.len() {
            1nat
        } else {
            0nat
        },
    decreases paths.len(),
{
    lemma_first_index(paths, at_path(path));
    if paths.len() != 0 {
        let front = paths.drop_last();
        assert forall|i: int, j: int| 0 <= i < j < front.len() implies (#[trigger] front[i]).path
            != (#[trigger] front[j]).path by {
            assert(front[i] == paths[i] && front[j] == paths[j]);
        }
        lemma_one_path(front, path);
        lemma_first_index(front, at_path(path));
        let last = paths.len() - 1;
        let f = first_index(front, at_path(path));
        if f < front.len() {
            assert(front[f] == paths[f]);
            lemma_first_index_finds(paths, at_path(path), f);
            assert(paths[f].path != paths[last].path);
        } else {
            assert forall|j: int| 0 <= j < front.len() implies !at_path(path)(
                #[trigger] paths[j],
            ) by {
                assert(front[j] == paths[j]);
            }
            if at_path(path)(paths.last()) {
                lemma_first_index_is(paths, at_path(path), last);
            } else {
                lemma_first_index_is(paths, at_path(path), paths.len() as int);
            }
        }
    }
}

/// Storing is idempotent. Content has one hash and, with the same file
/// name, one place on disk; storing it again leaves the catalog with
/// exactly one row for the hash and one for the path, adds no row to
/// either table, and changes nothing at all if it happens at the same
/// instant.
pub proof fn law_store_is_idempotent(
    c: CatalogV,
    root: Seq<char>,
    filename: Seq<char>,
    data: Seq<u8>,
    mime: Seq<char>,
    mtime_ms: i64,
    first_ms: i64,
    second_ms: i64,
)
    requires
        wf(c),
    ensures
        ({
            let location = location_of(root, filename, data);
            let once = stored(c, location, filename, mime, mtime_ms, first_ms);
            let twice = stored(once, location, filename, mime, mtime_ms, second_ms);
            &&& wf(once) && wf(twice)
            &&& count(twice.blobs, has_hash(location.sha256)) == 1
            &&& count(twice.paths, at_path(location.file_path)) == 1
            &&& twice.blobs.len() == once.blobs.len()
            &&& twice.paths.len() == once.paths.len()
            &&& first_ms == second_ms ==> twice == once
        }),
{
    let location = location_of(root, filename, data);
    let row1 = fresh_row(location.sha256, location.size, mime, mtime_ms, Some(filename), first_ms);
    let row2 = fresh_row(location.sha256, location.size, mime, mtime_ms, Some(filename), second_ms);
    let path = PathRowV { hash: location.sha256, path: location.file_path };
    let b1 = put_blob(c, row1);
    let once = put_path(b1, path);
    let b2 = put_blob(once, row2);
    let twice = put_path(b2, path);
    assert(once == stored(c, location, filename, mime, mtime_ms, first_ms));
    assert(twice == stored(once, location, filename, mime, mtime_ms, second_ms));
    lemma_put_blob_wf(c, row1);
    lemma_put_path_wf(b1, path);
    lemma_put_blob_wf(once, row2);
    lemma_put_path_wf(b2, path);
    let p = has_hash(location.sha256);
    let q = at_path(location.file_path);
    assert(p(row1) && p(row2) && q(path));
    lemma_upsert(c.blobs, p, row1);
    lemma_upsert(c.paths, q, path);
    lemma_upsert(once.blobs, p, row2);
    lemma_upsert(once.paths, q, path);
    lemma_one_row(twice.blobs, location.sha256);
    lemma_upsert(b2.paths, q, path);
    lemma_one_path(twice.paths, location.file_path);
    if first_ms == second_ms {
        assert(twice.blobs =~= once.blobs);
        assert(twice.paths =~= once.paths);
    }
}

/// A blob that was just stored is found by its hash, with the size, the
/// media type and the hash of the record that storing it returned.
pub proof fn law_stat_after_store(
    c: CatalogV,
    location: BlobLocationV,
    filename: Seq<char>,
    mime: Seq<char>,
    mtime_ms: i64,
    now_ms: i64,
)
    requires
        wf(c),
    ensures
        ({
            let after = stored(c, location, filename, mime, mtime_ms, now_ms);
            let record = stored_record(location, filename, mime, mtime_ms, now_ms);
            &&& found(after, location.sha256) is Some
            &&& found(after, location.sha256)->0.size == record.size
            &&& found(after, location.sha256)->0.mime == record.mime
            &&& found(after, location.sha256)->0.sha256 == record.sha256
            &&& found(after, location.sha256)->0.filename == record.filename
            &&& found(after, location.sha256)->0.mtime_ms == record.mtime_ms
            &&& found(after, location.sha256)->0.created_ms == record.created_ms
            &&& found(after, location.sha256)->0.health == record.health
        }),
{
    let row = fresh_row(location.sha256, location.size, mime, mtime_ms, Some(filename), now_ms);
    let p = has_hash(location.sha256);
    assert(p(row));
    lemma_upsert(c.blobs, p, row);
}

/// Deleting a blob and storing the same content again brings back its row
/// as it was, but for the time of its creation.
pub proof fn law_delete_then_store(
    c: CatalogV,
    location: BlobLocationV,
    filename: Seq<char>,
    mime: Seq<char>,
    mtime_ms: i64,
    first_ms: i64,
    second_ms: i64,
)
    requires
        wf(c),
    ensures
        ({
            let first = stored(c, location, filename, mime, mtime_ms, first_ms);
            let deleted = removed(first, location.sha256);
            let again = stored(deleted, location, filename, mime, mtime_ms, second_ms);
            &&& blob_row(first, location.sha256) is Some
            &&& blob_row(deleted, location.sha256) is None
            &&& blob_row(again, location.sha256) == Some(
                BlobRowV { created_ms: second_ms, ..blob_row(first, location.sha256)->0 },
            )
            &&& wf(again)
            &&& count(again.blobs, has_hash(location.sha256)) == 1
        }),
{
    let row1 = fresh_row(location.sha256, location.size, mime, mtime_ms, Some(filename), first_ms);
    let row2 = fresh_row(location.sha256, location.size, mime, mtime_ms, Some(filename), second_ms);
    let path = PathRowV { hash: location.sha256, path: location.file_path };
    let p = has_hash(location.sha256);
    assert(p(row1) && p(row2));
    let first = stored(c, location, filename, mime, mtime_ms, first_ms);
    lemma_put_blob_wf(c, row1);
    lemma_put_path_wf(put_blob(c, row1), path);
    lemma_upsert(c.blobs, p, row1);
    let deleted = removed(first, location.sha256);
    lemma_removed_wf(first, location.sha256);
    let again = stored(deleted, location, filename, mime, mtime_ms, second_ms);
    lemma_put_blob_wf(deleted, row2);
    lemma_put_path_wf(put_blob(deleted, row2), path);
    lemma_upsert(deleted.blobs, p, row2);
    lemma_one_row(again.blobs, location.sha256);
}

/// Whether every entry is a blob's file that could be read.
pub open spec fn all_readable(entries: Seq<ScanEntryV>) -> bool {
    forall|i: int|
        0 <= i < entries.len() ==> is_blob_file(#[trigger] entries[i]) && entries[i].meta is Ok
}

/// Whether no two entries are named by the same hash.
pub open spec fn distinct_hashes(entries: Seq<ScanEntryV>) -> bool {
    forall|i: int, j: int|
        0 <= i < j < entries.len() ==> !same_text(
            (#[trigger] entries[i]).file_name,
            (#[trigger] entries[j]).file_name,
        )
}

/// Whether some entry is named by the given hash.
pub open spec fn names(entries: Seq<ScanEntryV>, hash: Seq<char>) -> bool {
    exists|i: int| 0 <= i < entries.len() && same_text((#[trigger] entries[i]).file_name, hash)
}

/// After a file was reconciled the catalog knows its hash, and beside it
/// the hashes that it knew before.
pub proof fn lemma_reconciled_knows(
    c: CatalogV,
    path: Seq<char>,
    hash: Seq<char>,
    meta: FileMeta,
    now_ms: i64,
    h: Seq<char>,
)
    requires
        wf(c),
    ensures
        knows(reconciled(c, path, hash, meta, now_ms).blobs, h) <==> knows(c.blobs, h)
            || same_text(hash, h),
{
    let row = scanned_row(c, path, hash, meta, now_ms);
    let after = reconciled(c, path, hash, meta, now_ms);
    lemma_reconciled(c, path, hash, meta, now_ms);
    lemma_knows(after.blobs, h);
    lemma_knows(c.blobs, h);
    lemma_knows(after.blobs, hash);
    lemma_first_index(c.blobs, has_hash(hash));
    if knows(after.blobs, h) && !same_text(hash, h) {
        let w = choose|w: int|
            0 <= w < after.blobs.len() && same_text((#[trigger] after.blobs[w]).hash, h);
        let i = first_index(c.blobs, has_hash(hash));
        if i < c.blobs.len() {
            if w == i {
                assert(after.blobs[w] == row);
            } else {
                assert(after.blobs[w] == c.blobs[w]);
                assert(same_text(c.blobs[w].hash, h));
            }
        } else {
            if w == c.blobs.len() {
                assert(after.blobs[w] == row);
            } else {
                assert(after.blobs[w] == c.blobs[w]);
                assert(same_text(c.blobs[w].hash, h));
            }
        }
    }
    if same_text(hash, h) {
        let w = choose|w: int|
            0 <= w < after.blobs.len() && same_text((#[trigger] after.blobs[w]).hash, hash);
        assert(same_text(after.blobs[w].hash, h));
    }
}

/// A scan of readable files whose hashes are all new and all different
/// adds every one of them.
pub proof fn lemma_scan_of_new_files(c: CatalogV, entries: Seq<ScanEntryV>, now_ms: i64)
    requires
        wf(c),
        all_readable(entries),
        distinct_hashes(entries),
        forall|i: int|
            0 <= i < entries.len() ==> !knows(c.blobs, (#[trigger] entries[i]).file_name),
    ensures
        wf(scan_state(c, entries, now_ms).catalog),
        scan_state(c, entries, now_ms).added == entries.len(),
        scan_state(c, entries, now_ms).updated == 0,
        scan_state(c, entries, now_ms).errors.len() == 0,
        forall|h: Seq<char>|
            #[trigger] knows(scan_state(c, entries, now_ms).catalog.blobs, h) <==> (knows(
                c.blobs,
                h,
            ) || names(entries, h)),
    decreases entries.len(),
{
    if entries.len() != 0 {
        let front = entries.drop_last();
        let last = entries.last();
        let n = entries.len() - 1;
        assert forall|i: int| 0 <= i < front.len() implies is_blob_file(#[trigger] front[i])
            && front[i].meta is Ok && !knows(c.blobs, front[i].file_name) by {
            assert(front[i] == entries[i]);
        }
        assert forall|i: int, j: int| 0 <= i < j < front.len() implies !same_text(
            (#[trigger] front[i]).file_name,
            (#[trigger] front[j]).file_name,
        ) by {
            assert(front[i] == entries[i] && front[j] == entries[j]);
        }
        lemma_scan_of_new_files(c, front, now_ms);
        let before = scan_state(c, front, now_ms);
        assert(last == entries[n]);
        assert(is_blob_file(last) && last.meta is Ok);
        if knows(before.catalog.blobs, last.file_name) {
            assert(!knows(c.blobs, entries[n].file_name));
            let i = choose|i: int|
                0 <= i < front.len() && same_text((#[trigger] front[i]).file_name, last.file_name);
            assert(front[i] == entries[i]);
            assert(!same_text(entries[i].file_name, entries[n].file_name));
        }
        let meta = last.meta->Ok_0;
        lemma_reconciled(before.catalog, last.path, last.file_name, meta, now_ms);
        let after = scan_state(c, entries, now_ms);
        assert(after == scan_step(before, last, now_ms));
        assert(after.catalog == reconciled(
            before.catalog,
            last.path,
            last.file_name,
            meta,
            now_ms,
        ));
        assert forall|h: Seq<char>| #[trigger]
            knows(after.catalog.blobs, h) <==> (knows(c.blobs, h) || names(entries, h)) by {
            lemma_reconciled_knows(before.catalog, last.path, last.file_name, meta, now_ms, h);
            let named = names(entries, h);
            let named_before = names(front, h);
            assert(knows(before.catalog.blobs, h) <==> (knows(c.blobs, h) || named_before));
            if named_before {
                let i = choose|i: int|
                    0 <= i < front.len() && same_text((#[trigger] front[i]).file_name, h);
                assert(front[i] == entries[i]);
                assert(same_text(entries[i].file_name, h));
                assert(named);
            }
            if same_text(last.file_name, h) {
                assert(same_text(entries[n].file_name, h));
                assert(named);
            }
            if named {
                let i = choose|i: int|
                    0 <= i < entries.len() && same_text((#[trigger] entries[i]).file_name, h);
                if i < n {
                    assert(front[i] == entries[i]);
                    assert(same_text(front[i].file_name, h));
                    assert(named_before);
                } else {
                    assert(same_text(last.file_name, h));
                }
            }
        }
    }
}

/// A scan of readable files whose hashes are all known updates every one
/// of them.
pub proof fn lemma_scan_of_known_files(c: CatalogV, entries: Seq<ScanEntryV>, now_ms: i64)
    requires
        wf(c),
        all_readable(entries),
        forall|i: int| 0 <= i < entries.len() ==> knows(c.blobs, (#[trigger] entries[i]).file_name),
    ensures
        wf(scan_state(c, entries, now_ms).catalog),
        scan_state(c, entries, now_ms).added == 0,
        scan_state(c, entries, now_ms).updated == entries.len(),
        scan_state(c, entries, now_ms).errors.len() == 0,
        forall|h: Seq<char>|
            knows(c.blobs, h) ==> knows(scan_state(c, entries, now_ms).catalog.blobs, h),
    decreases entries.len(),
{
    if entries.len() != 0 {
        let front = entries.drop_last();
        let last = entries.last();
        let n = entries.len() - 1;
        assert forall|i: int| 0 <= i < front.len() implies is_blob_file(#[trigger] front[i])
            && front[i].meta is Ok && knows(c.blobs, front[i].file_name) by {
            assert(front[i] == entries[i]);
        }
        lemma_scan_of_known_files(c, front, now_ms);
        let before = scan_state(c, front, now_ms);
        assert(last == entries[n]);
        assert(knows(c.blobs, entries[n].file_name));
        lemma_reconciled(before.catalog, last.path, last.file_name, last.meta->Ok_0, now_ms);
    }
}

/// A scan converges. With N readable files on disk, named by N different
/// hashes, and an empty catalog, a scan adds N blobs; a second scan of the
/// same files adds none and updates N.
pub proof fn law_scan_converges(
    c: CatalogV,
    entries: Seq<ScanEntryV>,
    first_ms: i64,
    second_ms: i64,
)
    requires
        c.blobs.len() == 0,
        c.paths.len() == 0,
        all_readable(entries),
        distinct_hashes(entries),
    ensures
        scan_state(c, entries, first_ms).added == entries.len(),
        scan_state(c, entries, first_ms).updated == 0,
        scan_state(scan_state(c, entries, first_ms).catalog, entries, second_ms).added == 0,
        scan_state(scan_state(c, entries, first_ms).catalog, entries, second_ms).updated
            == entries.len(),
{
    assert forall|i: int| 0 <= i < entries.len() implies !knows(
        c.blobs,
        (#[trigger] entries[i]).file_name,
    ) by {
        lemma_first_index(c.blobs, has_hash(entries[i].file_name));
    }
    lemma_scan_of_new_files(c, entries, first_ms);
    let first = scan_state(c, entries, first_ms);
    assert forall|i: int| 0 <= i < entries.len() implies knows(
        first.catalog.blobs,
        (#[trigger] entries[i]).file_name,
    ) by {
        assert(same_text(entries[i].file_name, entries[i].file_name));
    }
    lemma_scan_of_known_files(first.catalog, entries, second_ms);
}

/// An update of a row that the remote store does not have is an insert:
/// when the read of the row comes back empty, the engine goes on exactly as
/// a direct insert of the same payload starts, so whatever the store makes
/// of the statement, the two give the same row.
pub proof fn law_update_of_absent_row_is_insert(table: Seq<char>, payload: JsonV)
    ensures
        next_step(table, payload, Phase::UpdateCheck, ReplyV::Rows(Seq::empty())) == insert_step(
            table,
            payload,
        ),
{
}

/// The last writer wins. Against a remote row with a later `updated_at`
/// than the update claims, the engine only reads the remote row and hands
/// it back as the result, so the row stays as it is. Against any other
/// remote row it overwrites every field of the payload but `id`.
pub proof fn law_last_writer_wins(
    table: Seq<char>,
    payload: JsonV,
    remote_row: Seq<(Seq<char>, CellV)>,
    remote: i64,
)
    requires
        prepared(table, payload) is Ok,
        row_id(prepared(table, payload)->Ok_0) is Some,
        remote_updated_at(remote_row) == Some(remote),
    ensures
        ({
            let data = prepared(table, payload)->Ok_0;
            let id = row_id(data)->0;
            let reply = ReplyV::Rows(seq![remote_row]);
            let step = next_step(table, payload, Phase::UpdateCheck, reply);
            &&& claimed_updated_at(data) < remote ==> step == StepV::Send(
                keyed(fetch_sql(table), id),
                Phase::UpdateFetch,
            )
            &&& claimed_updated_at(data) >= remote ==> step == StepV::Send(
                StatementV {
                    sql: update_sql(table, names_of(without(data, "id"@))),
                    params: seq![SqlParamV::Text(id)] + params_of(without(data, "id"@)),
                },
                Phase::Update,
            )
            &&& forall|current: Seq<(Seq<char>, CellV)>|
                #[trigger] next_step(
                    table,
                    payload,
                    Phase::UpdateFetch,
                    ReplyV::Rows(seq![current]),
                ) == StepV::Done(Ok(row_json(current)))
        }),
{
}

/// An insert into a table keyed by content hash can be replayed. The
/// statement is the same each time and tells the store to do nothing where
/// the key is taken; the empty reply that follows is a success without a
/// row.
pub proof fn law_replayed_insert_succeeds(table: Seq<char>, payload: JsonV, id: Seq<char>)
    requires
        table == "blobs_meta"@ || table == "device_blobs"@,
        payload is Object,
    ensures
        ({
            let data = snake_members(payload->Object_0);
            &&& insert_step(table, payload) == StepV::Send(
                StatementV { sql: insert_sql(table, names_of(data)), params: params_of(data) },
                Phase::Insert,
            )
            &&& table == "blobs_meta"@ ==> conflict_clause(table, names_of(data))
                == " ON CONFLICT (sha256) DO NOTHING"@
            &&& table == "device_blobs"@ ==> conflict_clause(table, names_of(data))
                == " ON CONFLICT (device_id, sha256) DO NOTHING"@
            &&& next_step(table, payload, Phase::Insert, ReplyV::Rows(Seq::empty())) == StepV::Done(
                Ok(JsonV::Null),
            )
            &&& result_of(id, Ok(JsonV::Null)).success
            &&& result_of(id, Ok(JsonV::Null)).error is None
        }),
{
    reveal_strlit("blobs_meta");
    reveal_strlit("device_blobs");
    reveal_strlit("annotations");
    assert("blobs_meta"@.len() == 10);
    assert("device_blobs"@.len() == 12);
    assert("annotations"@.len() == 11);
}

/// A change settles after three statements at most. Only the read of the
/// remote row's `updated_at` is followed by another statement, and that one
/// is an insert, a read of the remote row or an update, each of which
/// settles the change with its reply.
pub proof fn law_change_settles(table: Seq<char>, payload: JsonV, phase: Phase, reply: ReplyV)
    ensures
        next_step(table, payload, phase, reply) matches StepV::Send(_, next) ==> phase
            == Phase::UpdateCheck && next != Phase::UpdateCheck && next != Phase::Delete,
{
}

/// Writing a row twice is writing it once: an upsert of a blob or of a
/// path that is repeated with the same input leaves the catalog as the
/// first one made it.
pub proof fn law_upsert_is_idempotent(c: CatalogV, blob: BlobRowV, path: PathRowV)
    ensures
        put_blob(put_blob(c, blob), blob) == put_blob(c, blob),
        put_path(put_path(c, path), path) == put_path(c, path),
{
    assert(has_hash(blob.hash)(blob));
    assert(at_path(path.path)(path));
    lemma_upsert(c.blobs, has_hash(blob.hash), blob);
    lemma_upsert(c.paths, at_path(path.path), path);
}

/// A scan forgets nothing: every hash that the catalog knew before it is
/// still known after it, whatever the walk found.
pub proof fn law_scan_forgets_nothing(
    c: CatalogV,
    entries: Seq<ScanEntryV>,
    now_ms: i64,
    hash: Seq<char>,
)
    requires
        wf(c),
        knows(c.blobs, hash),
    ensures
        wf(scan_state(c, entries, now_ms).catalog),
        knows(scan_state(c, entries, now_ms).catalog.blobs, hash),
        c.blobs.len() <= scan_state(c, entries, now_ms).catalog.blobs.len(),
    decreases entries.len(),
{
    if entries.len() != 0 {
        let last = entries.last();
        law_scan_forgets_nothing(c, entries.drop_last(), now_ms, hash);
        let before = scan_state(c, entries.drop_last(), now_ms);
        if is_blob_file(last) && last.meta is Ok {
            lemma_reconciled(before.catalog, last.path, last.file_name, last.meta->Ok_0, now_ms);
        }
    }
}

/// Every blob is listed, with or without a path: for each blob of the
/// catalog the list holds a record of its hash.
pub proof fn law_every_blob_is_listed(blobs: Seq<BlobRowV>, paths: Seq<PathRowV>, i: int)
    requires
        0 <= i < blobs.len(),
    ensures
        exists|k: int|
            0 <= k < listing(blobs, paths).len() && (#[trigger] listing(blobs, paths)[k]).sha256
                == blobs[i].hash,
    decreases blobs.len(),
{
    let front = blobs.drop_last();
    let own = joined_rows(blobs.last(), paths);
    let all = listing(blobs, paths);
    assert(all == listing(front, paths) + own);
    if i < front.len() {
        law_every_blob_is_listed(front, paths, i);
        let k = choose|k: int|
            0 <= k < listing(front, paths).len() && (#[trigger] listing(front, paths)[k]).sha256
                == front[i].hash;
        assert(all[k] == listing(front, paths)[k]);
    } else {
        assert(own.len() > 0);
        assert(own[0].sha256 == blobs.last().hash);
        assert(all[listing(front, paths).len() as int] == own[0]);
    }
}

/// Key normalisation keeps every value. A member is found under the
/// underscore form of its name with the value that it had, unless a later
/// member comes to the same name.
pub proof fn law_values_survive_normalisation(members: Members, i: int)
    requires
        0 <= i < members.len(),
        forall|j: int|
            i < j < members.len() ==> snake_case((#[trigger] members[j]).0) != snake_case(
                members[i].0,
            ),
    ensures
        lookup(snake_members(members), snake_case(members[i].0)) == Some(members[i].1),
    decreases members.len(),
{
    let front = members.drop_last();
    let last = members.last();
    lemma_lookup_put(snake_members(front), snake_case(last.0), last.1, snake_case(members[i].0));
    if i < members.len() - 1 {
        assert(members[members.len() - 1] == last);
        assert(front[i] == members[i]);
        assert forall|j: int| i < j < front.len() implies snake_case((#[trigger] front[j]).0)
            != snake_case(front[i].0) by {
            assert(front[j] == members[j]);
        }
        law_values_survive_normalisation(front, i);
    }
}

} // verus!
