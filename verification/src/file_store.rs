//! The persisted table of observed files. Every filesystem event on a path
//! either creates that path's row or pushes its expiration forward; the
//! contracts state the exact new row list for both cases.
use vstd::prelude::*;

verus! {

/// How far (in seconds) past the observed event a file's expiration is set.
/// This is a fixed policy value at this layer, applied uniformly to every
/// observed event.
pub const FILE_EXPIRATION_OFFSET_SECONDS: i64 = 3600;

/// A file row: a path observed to have changed, when it was first and last
/// seen, and the absolute time after which it counts as stale.
pub struct File {
    pub absolute_file_path: String,
    pub inserted_at: i64,
    pub modified_at: i64,
    pub expiration: Option<i64>,
}

/// The mathematical value of one file row.
pub ghost struct FileView {
    pub path: Seq<char>,
    pub inserted_at: int,
    pub modified_at: int,
    pub expiration: Option<int>,
}

impl View for File {
    type V = FileView;

    open spec fn view(&self) -> FileView {
        FileView {
            path: self.absolute_file_path@,
            inserted_at: self.inserted_at as int,
            modified_at: self.modified_at as int,
            expiration: match self.expiration {
                Some(e) => Some(e as int),
                None => None,
            },
        }
    }
}

impl DeepView for File {
    type V = FileView;

    open spec fn deep_view(&self) -> FileView {
        self.view()
    }
}

impl Clone for File {
    fn clone(&self) -> (r: Self)
        ensures
            r@ == self@,
    {
        File {
            absolute_file_path: self.absolute_file_path.clone(),
            inserted_at: self.inserted_at,
            modified_at: self.modified_at,
            expiration: self.expiration,
        }
    }
}

/// Some row in `rows` has path `p`.
pub open spec fn file_has_path(rows: Seq<FileView>, p: Seq<char>) -> bool {
    exists|i: int| 0 <= i < rows.len() && rows[i].path == p
}

/// No two rows share a path: the path is the primary key.
pub open spec fn file_paths_unique(rows: Seq<FileView>) -> bool {
    forall|i: int, j: int| 0 <= i < j < rows.len() ==> rows[i].path != rows[j].path
}

/// The expiration recorded for an event observed at `now`: the fixed offset
/// past `now`, saturated at the largest representable time so that the
/// computation cannot overflow.
pub open spec fn expiration_after(now: int) -> int {
    if now + FILE_EXPIRATION_OFFSET_SECONDS > i64::MAX {
        i64::MAX as int
    } else {
        now + FILE_EXPIRATION_OFFSET_SECONDS
    }
}

/// The row list after an event on `p` observed at `now`: an existing row
/// keeps its `inserted_at` but has `modified_at` set to `now` and its
/// expiration pushed to the fixed offset past `now`; otherwise a fresh row
/// is appended, first seen and modified at `now`, already carrying an
/// expiration.
pub open spec fn upsert_event_spec(rows: Seq<FileView>, p: Seq<char>, now: int) -> Seq<FileView> {
    if file_has_path(rows, p) {
        Seq::new(
            rows.len(),
            |i: int|
                if rows[i].path == p {
                    FileView {
                        path: rows[i].path,
                        inserted_at: rows[i].inserted_at,
                        modified_at: now,
                        expiration: Some(expiration_after(now)),
                    }
                } else {
                    rows[i]
                },
        )
    } else {
        rows.push(
            FileView {
                path: p,
                inserted_at: now,
                modified_at: now,
                expiration: Some(expiration_after(now)),
            },
        )
    }
}

/// The persisted set of observed files.
pub struct FileStore {
    pub rows: Vec<File>,
}

impl View for FileStore {
    type V = Seq<FileView>;

    open spec fn view(&self) -> Seq<FileView> {
        Seq::new(self.rows@.len(), |i: int| self.rows@[i]@)
    }
}

impl FileStore {
    /// At most one row per path.
    pub open spec fn wf(&self) -> bool {
        file_paths_unique(self@)
    }

    pub fn new() -> (s: Self)
        ensures
            s@ =~= Seq::<FileView>::empty(),
            s.wf(),
    {
        FileStore { rows: Vec::new() }
    }
}

/// Looks a file up by its path. Returns the row with that path, or `None`
/// when no row has it; absence is not an error.
#[verifier::loop_isolation(false)]
pub fn find_file(store: &FileStore, path: &String) -> (r: Option<File>)
    ensures
        match r {
            Some(f) => f@.path == path@ && exists|i: int|
                0 <= i < store@.len() && store@[i] == f@,
            None => !file_has_path(store@, path@),
        },
{
    let n = store.rows.len();
    for i in 0..n
        invariant
            n == store.rows.len(),
            forall|j: int| 0 <= j < i ==> store@[j].path != path@,
    {
        if store.rows[i].absolute_file_path == *path {
            let f = store.rows[i].clone();
            proof {
                assert(f@ == store@[i as int]);
            }
            return Some(f);
        }
    }
    None
}

/// Records the filesystem event observed on `path` at time `now`: creates
/// the file row on first sight, otherwise refreshes `modified_at` and pushes
/// the expiration forward.
#[verifier::loop_isolation(false)]
pub fn create_new_file_at(store: &mut FileStore, path: &String, now: i64)
    requires
        old(store).wf(),
    ensures
        final(store)@ == upsert_event_spec(old(store)@, path@, now as int),
        final(store).wf(),
{
    let expiration: i64 = if now > i64::MAX - FILE_EXPIRATION_OFFSET_SECONDS {
        i64::MAX
    } else {
        now + FILE_EXPIRATION_OFFSET_SECONDS
    };
    let n = store.rows.len();
    for i in 0..n
        invariant
            n == store.rows.len(),
            store == old(store),
            expiration as int == expiration_after(now as int),
            forall|j: int| 0 <= j < i ==> store@[j].path != path@,
    {
        if store.rows[i].absolute_file_path == *path {
            proof {
                assert(store@[i as int].path == path@);
            }
            let updated = File {
                absolute_file_path: store.rows[i].absolute_file_path.clone(),
                inserted_at: store.rows[i].inserted_at,
                modified_at: now,
                expiration: Some(expiration),
            };
            store.rows[i] = updated;
            proof {
                let oldrows = old(store)@;
                let ii = i as int;
                assert(oldrows[ii].path == path@);
                assert(file_has_path(oldrows, path@));
                let spec_rows = upsert_event_spec(oldrows, path@, now as int);
                assert forall|k: int| 0 <= k < store@.len() implies store@[k] == spec_rows[k] by {
                    if k != ii {
                        assert(store@[k] == oldrows[k]);
                        assert(oldrows[k].path != oldrows[ii].path || k == ii);
                    }
                }
                assert(store@ =~= spec_rows);
                lemma_upsert_event_keeps_unique(oldrows, path@, now as int);
            }
            return;
        }
    }
    let fresh = File {
        absolute_file_path: path.clone(),
        inserted_at: now,
        modified_at: now,
        expiration: Some(expiration),
    };
    store.rows.push(fresh);
    proof {
        assert(!file_has_path(old(store)@, path@));
        assert(store@ =~= upsert_event_spec(old(store)@, path@, now as int));
        lemma_upsert_event_keeps_unique(old(store)@, path@, now as int);
    }
}

/// Recording an event preserves path uniqueness, and afterwards a row with
/// the event's path exists.
pub proof fn lemma_upsert_event_keeps_unique(rows: Seq<FileView>, p: Seq<char>, now: int)
    requires
        file_paths_unique(rows),
    ensures
        file_paths_unique(upsert_event_spec(rows, p, now)),
        file_has_path(upsert_event_spec(rows, p, now), p),
{
    let r = upsert_event_spec(rows, p, now);
    if file_has_path(rows, p) {
        assert forall|i: int, j: int| 0 <= i < j < r.len() implies r[i].path != r[j].path by {
            assert(r[i].path == rows[i].path);
            assert(r[j].path == rows[j].path);
        }
        let w = choose|i: int| 0 <= i < rows.len() && rows[i].path == p;
        assert(r[w].path == p);
    } else {
        assert forall|i: int, j: int| 0 <= i < j < r.len() implies r[i].path != r[j].path by {
            if j < rows.len() as int {
            } else {
                assert(r[j].path == p);
                assert(r[i].path == rows[i].path);
            }
        }
        assert(r[rows.len() as int].path == p);
    }
}

/// Of several events on one path, the record reflects the latest: after an
/// event at `now1` and then one at `now2` on the same path, exactly one row
/// for that path remains, first seen when it was created, last modified at
/// `now2`.
pub proof fn lemma_latest_event_wins(rows: Seq<FileView>, p: Seq<char>, now1: int, now2: int)
    requires
        file_paths_unique(rows),
    ensures
        file_paths_unique(upsert_event_spec(upsert_event_spec(rows, p, now1), p, now2)),
        file_has_path(upsert_event_spec(upsert_event_spec(rows, p, now1), p, now2), p),
        forall|i: int|
            0 <= i < upsert_event_spec(upsert_event_spec(rows, p, now1), p, now2).len() && (
            #[trigger] upsert_event_spec(upsert_event_spec(rows, p, now1), p, now2)[i]).path == p
                ==> upsert_event_spec(upsert_event_spec(rows, p, now1), p, now2)[i].modified_at
                == now2,
{
    let r1 = upsert_event_spec(rows, p, now1);
    lemma_upsert_event_keeps_unique(rows, p, now1);
    lemma_upsert_event_keeps_unique(r1, p, now2);
    let r2 = upsert_event_spec(r1, p, now2);
    assert forall|i: int|
        0 <= i < r2.len() && (#[trigger] r2[i]).path == p implies r2[i].modified_at == now2 by {
        assert(file_has_path(r1, p));
    }
}

/// Every row's expiration, when present, is at or past the time the row was
/// first seen.
pub open spec fn files_expiration_wf(rows: Seq<FileView>) -> bool {
    forall|i: int|
        0 <= i < rows.len() ==> match (#[trigger] rows[i]).expiration {
            Some(e) => e >= rows[i].inserted_at,
            None => true,
        }
}

/// Recording an event keeps every expiration at or past its row's first
/// sighting, provided the event is not observed before the row's own
/// `inserted_at` (the clock does not run backwards past a row's creation).
pub proof fn lemma_upsert_event_keeps_expiration_wf(rows: Seq<FileView>, p: Seq<char>, now: int)
    requires
        files_expiration_wf(rows),
        now <= i64::MAX,
        forall|i: int|
            0 <= i < rows.len() && (#[trigger] rows[i]).path == p ==> rows[i].inserted_at <= now,
    ensures
        files_expiration_wf(upsert_event_spec(rows, p, now)),
{
    let r = upsert_event_spec(rows, p, now);
    assert forall|i: int| 0 <= i < r.len() implies match (#[trigger] r[i]).expiration {
        Some(e) => e >= r[i].inserted_at,
        None => true,
    } by {
        if i < rows.len() as int {
            if rows[i].path == p {
                assert(rows[i].inserted_at <= now);
            } else {
                assert(r[i] == rows[i]);
            }
        }
    }
}

/// Expiration monotonicity: of two successive events on the same path, the
/// second (not earlier) event never pulls the expiration back. Every row for
/// the path carries the first event's expiration after the first event and
/// the second event's after the second, and the former is at most the latter.
pub proof fn lemma_expiration_monotone(rows: Seq<FileView>, p: Seq<char>, now1: int, now2: int)
    requires
        now1 <= now2,
    ensures
        forall|i: int|
            0 <= i < upsert_event_spec(rows, p, now1).len() && (#[trigger] upsert_event_spec(
                rows,
                p,
                now1,
            )[i]).path == p ==> upsert_event_spec(rows, p, now1)[i].expiration == Some(
                expiration_after(now1),
            ),
        forall|i: int|
            0 <= i < upsert_event_spec(upsert_event_spec(rows, p, now1), p, now2).len() && (
            #[trigger] upsert_event_spec(upsert_event_spec(rows, p, now1), p, now2)[i]).path == p
                ==> upsert_event_spec(upsert_event_spec(rows, p, now1), p, now2)[i].expiration
                == Some(expiration_after(now2)),
        expiration_after(now1) <= expiration_after(now2),
{
    let r1 = upsert_event_spec(rows, p, now1);
    let r2 = upsert_event_spec(r1, p, now2);
    assert(file_has_path(r1, p)) by {
        if file_has_path(rows, p) {
            let w = choose|i: int| 0 <= i < rows.len() && rows[i].path == p;
            assert(r1[w].path == p);
        } else {
            assert(r1[rows.len() as int].path == p);
        }
    }
    assert forall|i: int|
        0 <= i < r1.len() && (#[trigger] r1[i]).path == p implies r1[i].expiration == Some(
        expiration_after(now1),
    ) by {
        if file_has_path(rows, p) {
        } else {
            if i < rows.len() as int {
                assert(rows[i].path == p);
                assert(file_has_path(rows, p));
            }
        }
    }
}

} // verus!
