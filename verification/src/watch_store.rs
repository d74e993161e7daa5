//! The persisted table of desired watches, modelled as a path-keyed list of
//! rows. Each public operation states exactly how the row list changes.
use vstd::prelude::*;

verus! {

/// A watch row: a filesystem path the user wants monitored, the time (in
/// seconds) it was first registered, and an optional default expiration
/// policy, in seconds, for files discovered under it.
pub struct Watch {
    pub absolute_file_path: String,
    pub created_at: i64,
    pub default_expiration: Option<i32>,
}

/// The mathematical value of one watch row.
pub ghost struct WatchView {
    pub path: Seq<char>,
    pub created_at: int,
    pub default_expiration: Option<int>,
}

impl View for Watch {
    type V = WatchView;

    open spec fn view(&self) -> WatchView {
        WatchView {
            path: self.absolute_file_path@,
            created_at: self.created_at as int,
            default_expiration: match self.default_expiration {
                Some(e) => Some(e as int),
                None => None,
            },
        }
    }
}

impl DeepView for Watch {
    type V = WatchView;

    open spec fn deep_view(&self) -> WatchView {
        self.view()
    }
}

impl Clone for Watch {
    fn clone(&self) -> (r: Self)
        ensures
            r@ == self@,
    {
        Watch {
            absolute_file_path: self.absolute_file_path.clone(),
            created_at: self.created_at,
            default_expiration: self.default_expiration,
        }
    }
}

/// The mathematical value of an optional expiration duration.
pub open spec fn opt_seconds_view(e: Option<i32>) -> Option<int> {
    match e {
        Some(x) => Some(x as int),
        None => None,
    }
}

/// Some row in `rows` has path `p`.
pub open spec fn watch_has_path(rows: Seq<WatchView>, p: Seq<char>) -> bool {
    exists|i: int| 0 <= i < rows.len() && rows[i].path == p
}

/// No two rows share a path: the path is the primary key.
pub open spec fn watch_paths_unique(rows: Seq<WatchView>) -> bool {
    forall|i: int, j: int|
        0 <= i < j < rows.len() ==> rows[i].path != rows[j].path
}

/// The row list after `upsert(p, e)` at time `now`: if a row with path `p`
/// exists, its `default_expiration` becomes `e` and everything else is kept
/// (in particular `created_at`); otherwise a fresh row is appended.
pub open spec fn upsert_watch_spec(
    rows: Seq<WatchView>,
    p: Seq<char>,
    e: Option<int>,
    now: int,
) -> Seq<WatchView> {
    if watch_has_path(rows, p) {
        Seq::new(
            rows.len(),
            |i: int|
                if rows[i].path == p {
                    WatchView { path: rows[i].path, created_at: rows[i].created_at, default_expiration: e }
                } else {
                    rows[i]
                },
        )
    } else {
        rows.push(WatchView { path: p, created_at: now, default_expiration: e })
    }
}

/// The persisted set of desired watches.
pub struct WatchStore {
    pub rows: Vec<Watch>,
}

impl View for WatchStore {
    type V = Seq<WatchView>;

    open spec fn view(&self) -> Seq<WatchView> {
        Seq::new(self.rows@.len(), |i: int| self.rows@[i]@)
    }
}

impl WatchStore {
    /// At most one row per path.
    pub open spec fn wf(&self) -> bool {
        watch_paths_unique(self@)
    }

    pub fn new() -> (s: Self)
        ensures
            s@ =~= Seq::<WatchView>::empty(),
            s.wf(),
    {
        WatchStore { rows: Vec::new() }
    }
}

/// Returns every watch row.
#[verifier::loop_isolation(false)]
pub fn list_watches(store: &WatchStore) -> (r: Vec<Watch>)
    ensures
        r.deep_view() =~= store@,
{
    let mut out: Vec<Watch> = Vec::new();
    let n = store.rows.len();
    for i in 0..n
        invariant
            n == store.rows.len(),
            out.deep_view() =~= store@.subrange(0, i as int),
    {
        out.push(store.rows[i].clone());
        proof {
            assert(out.deep_view() =~= store@.subrange(0, i + 1));
        }
    }
    proof {
        assert(store@.subrange(0, n as int) =~= store@);
    }
    out
}

/// Looks a watch up by its path. Returns the row with that path, or `None`
/// when no row has it; absence is not an error.
#[verifier::loop_isolation(false)]
pub fn find_watch(store: &WatchStore, path: &String) -> (r: Option<Watch>)
    ensures
        match r {
            Some(w) => w@.path == path@ && exists|i: int|
                0 <= i < store@.len() && store@[i] == w@,
            None => !watch_has_path(store@, path@),
        },
{
    let n = store.rows.len();
    for i in 0..n
        invariant
            n == store.rows.len(),
            forall|j: int| 0 <= j < i ==> store@[j].path != path@,
    {
        if store.rows[i].absolute_file_path == *path {
            let w = store.rows[i].clone();
            proof {
                assert(w@ == store@[i as int]);
            }
            return Some(w);
        }
    }
    None
}

/// Inserts or updates the watch for `path`, taking `now` as the registration
/// time used when the row is new. An existing row keeps its `created_at` and
/// only has its `default_expiration` replaced.
#[verifier::loop_isolation(false)]
pub fn upsert_watch_at(store: &mut WatchStore, path: String, expiration: Option<i32>, now: i64)
    requires
        old(store).wf(),
    ensures
        final(store)@ == upsert_watch_spec(
            old(store)@,
            path@,
            opt_seconds_view(expiration),
            now as int,
        ),
        final(store).wf(),
{
    let n = store.rows.len();
    for i in 0..n
        invariant
            n == store.rows.len(),
            store == old(store),
            forall|j: int| 0 <= j < i ==> store@[j].path != path@,
    {
        if store.rows[i].absolute_file_path == path {
            proof {
                assert(store@[i as int].path == path@);
            }
            let updated = Watch {
                absolute_file_path: store.rows[i].absolute_file_path.clone(),
                created_at: store.rows[i].created_at,
                default_expiration: expiration,
            };
            store.rows[i] = updated;
            proof {
                let ghost_e: Option<int> = match expiration {
                    Some(e) => Some(e as int),
                    None => None,
                };
                let oldrows = old(store)@;
                let ii = i as int;
                assert(oldrows[ii].path == path@);
                assert(watch_has_path(oldrows, path@));
                let spec_rows = upsert_watch_spec(oldrows, path@, ghost_e, now as int);
                assert forall|k: int| 0 <= k < store@.len() implies store@[k] == spec_rows[k] by {
                    if k != ii {
                        assert(store@[k] == oldrows[k]);
                        assert(oldrows[k].path != oldrows[ii].path || k == ii);
                    }
                }
                assert(store@ =~= spec_rows);
                lemma_upsert_keeps_unique(oldrows, path@, ghost_e, now as int);
            }
            return;
        }
    }
    let fresh = Watch { absolute_file_path: path, created_at: now, default_expiration: expiration };
    store.rows.push(fresh);
    proof {
        let ghost_e: Option<int> = match expiration {
            Some(e) => Some(e as int),
            None => None,
        };
        assert(!watch_has_path(old(store)@, fresh@.path));
        assert(store@ =~= upsert_watch_spec(old(store)@, fresh@.path, ghost_e, now as int));
        lemma_upsert_keeps_unique(old(store)@, fresh@.path, ghost_e, now as int);
    }
}

/// Removes the watch row for `path` if one exists; removing an absent path
/// leaves the store unchanged and is not an error.
#[verifier::loop_isolation(false)]
pub fn delete_watch(store: &mut WatchStore, path: &String)
    requires
        old(store).wf(),
    ensures
        final(store).wf(),
        watch_has_path(old(store)@, path@) ==> exists|i: int|
            0 <= i < old(store)@.len() && old(store)@[i].path == path@ && final(store)@
                == old(store)@.remove(i),
        !watch_has_path(old(store)@, path@) ==> final(store)@ == old(store)@,
        !watch_has_path(final(store)@, path@),
{
    let n = store.rows.len();
    for i in 0..n
        invariant
            n == store.rows.len(),
            store == old(store),
            forall|j: int| 0 <= j < i ==> store@[j].path != path@,
    {
        if store.rows[i].absolute_file_path == *path {
            proof {
                assert(store@[i as int].path == path@);
            }
            store.rows.remove(i);
            proof {
                let oldrows = old(store)@;
                let ii = i as int;
                assert(store@ =~= oldrows.remove(ii));
                assert forall|k: int| 0 <= k < store@.len() implies #[trigger] store@[k]
                    == if k < ii {
                    oldrows[k]
                } else {
                    oldrows[k + 1]
                } by {
                    assert(store@[k] == oldrows.remove(ii)[k]);
                }
                assert forall|a: int, b: int|
                    0 <= a < b < store@.len() implies store@[a].path != store@[b].path by {
                    let a0: int = if a < ii { a } else { a + 1 };
                    let b0: int = if b < ii { b } else { b + 1 };
                    assert(store@[a] == oldrows[a0]);
                    assert(store@[b] == oldrows[b0]);
                    assert(a0 < b0);
                    assert(oldrows[a0].path != oldrows[b0].path);
                }
                assert forall|k: int| 0 <= k < store@.len() implies store@[k].path != path@ by {
                    let k0: int = if k < ii { k } else { k + 1 };
                    assert(store@[k] == oldrows[k0]);
                    assert(oldrows[ii].path == path@);
                    if k0 != ii {
                        assert(oldrows[k0].path != oldrows[ii].path);
                    }
                }
            }
            return;
        }
    }
    proof {
        assert(store@ =~= old(store)@);
    }
}

/// Upserting preserves path uniqueness, and afterwards a row with path `p`
/// exists.
pub proof fn lemma_upsert_keeps_unique(rows: Seq<WatchView>, p: Seq<char>, e: Option<int>, now: int)
    requires
        watch_paths_unique(rows),
    ensures
        watch_paths_unique(upsert_watch_spec(rows, p, e, now)),
        watch_has_path(upsert_watch_spec(rows, p, e, now), p),
{
    let r = upsert_watch_spec(rows, p, e, now);
    if watch_has_path(rows, p) {
        assert forall|i: int, j: int| 0 <= i < j < r.len() implies r[i].path != r[j].path by {
            assert(r[i].path == rows[i].path);
            assert(r[j].path == rows[j].path);
        }
        let w = choose|i: int| 0 <= i < rows.len() && rows[i].path == p;
        assert(r[w].path == p);
    } else {
        assert forall|i: int, j: int| 0 <= i < j < r.len() implies r[i].path != r[j].path by {
            if j < rows.len() as int {
            } else {
                assert(r[j].path == p);
                assert(r[i].path == rows[i].path);
            }
        }
        assert(r[rows.len() as int].path == p);
    }
}

/// Idempotence of upsert: a second upsert with the same path and expiration
/// changes nothing, whatever times the two calls observed; and on a
/// well-formed store exactly one row for the path remains, carrying the given
/// expiration.
pub proof fn lemma_upsert_watch_idempotent(
    rows: Seq<WatchView>,
    p: Seq<char>,
    e: Option<int>,
    t1: int,
    t2: int,
)
    requires
        watch_paths_unique(rows),
    ensures
        upsert_watch_spec(upsert_watch_spec(rows, p, e, t1), p, e, t2) == upsert_watch_spec(
            rows,
            p,
            e,
            t1,
        ),
        watch_has_path(upsert_watch_spec(rows, p, e, t1), p),
        watch_paths_unique(upsert_watch_spec(rows, p, e, t1)),
        forall|i: int|
            0 <= i < upsert_watch_spec(rows, p, e, t1).len() && (#[trigger] upsert_watch_spec(
                rows,
                p,
                e,
                t1,
            )[i]).path == p ==> upsert_watch_spec(rows, p, e, t1)[i].default_expiration == e,
{
    let r1 = upsert_watch_spec(rows, p, e, t1);
    lemma_upsert_keeps_unique(rows, p, e, t1);
    assert forall|i: int| 0 <= i < r1.len() && r1[i].path == p implies r1[i].default_expiration
        == e by {
        if watch_has_path(rows, p) {
        } else {
            if i < rows.len() as int {
                assert(rows[i].path == p);
                assert(watch_has_path(rows, p));
            }
        }
    }
    assert(watch_has_path(r1, p));
    let r2 = upsert_watch_spec(r1, p, e, t2);
    assert(r2 =~= r1);
    let w = choose|i: int| 0 <= i < r1.len() && r1[i].path == p;
    assert(r1[w].default_expiration == e);
    assert(forall|j: int| 0 <= j < r1.len() && r1[j].path == p ==> j == w);
}

} // verus!
