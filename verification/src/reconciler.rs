//! Converges the live set of OS-level watch registrations toward the
//! persisted desired set. Each cycle computes exactly which paths to register
//! and which to unregister; the caller performs the OS calls and reports each
//! outcome back, so a registration failure leaves only that path out of the
//! live set.
use crate::watch_store::{watch_paths_unique, Watch, WatchView};
use vstd::prelude::*;

verus! {

/// The set of path values held by a list of path strings.
pub open spec fn path_set(v: Seq<String>) -> Set<Seq<char>> {
    Set::new(|p: Seq<char>| exists|i: int| 0 <= i < v.len() && v[i]@ == p)
}

/// The set of paths of a list of watch rows.
pub open spec fn watch_path_set(rows: Seq<WatchView>) -> Set<Seq<char>> {
    Set::new(|p: Seq<char>| exists|i: int| 0 <= i < rows.len() && rows[i].path == p)
}

/// No two strings in the list hold the same path.
pub open spec fn paths_distinct(v: Seq<String>) -> bool {
    forall|i: int, j: int| 0 <= i < j < v.len() ==> v[i]@ != v[j]@
}

/// Whether `v` holds the path `p`.
#[verifier::loop_isolation(false)]
pub fn contains_path(v: &Vec<String>, p: &String) -> (b: bool)
    ensures
        b == path_set(v@).contains(p@),
{
    let n = v.len();
    for i in 0..n
        invariant
            n == v.len(),
            forall|j: int| 0 <= j < i ==> v@[j]@ != p@,
    {
        if v[i] == *p {
            proof {
                assert(v@[i as int]@ == p@);
            }
            return true;
        }
    }
    false
}

/// Whether some watch row in `ws` has path `p`.
#[verifier::loop_isolation(false)]
pub fn watches_contain_path(ws: &Vec<Watch>, p: &String) -> (b: bool)
    ensures
        b == watch_path_set(ws.deep_view()).contains(p@),
{
    let n = ws.len();
    for i in 0..n
        invariant
            n == ws.len(),
            forall|j: int| 0 <= j < i ==> ws.deep_view()[j].path != p@,
    {
        if ws[i].absolute_file_path == *p {
            proof {
                assert(ws.deep_view()[i as int].path == p@);
            }
            return true;
        }
    }
    false
}

/// One cycle's work: the paths to register and the paths to unregister.
pub struct ReconcilePlan {
    pub to_add: Vec<String>,
    pub to_remove: Vec<String>,
}

/// The reconciler's memory of which paths currently hold a live OS watch
/// registration.
pub struct Reconciler {
    pub live: Vec<String>,
}

impl Reconciler {
    /// The set of live registrations.
    pub open spec fn live_set(&self) -> Set<Seq<char>> {
        path_set(self.live@)
    }

    /// Each live registration is recorded once.
    pub open spec fn wf(&self) -> bool {
        paths_distinct(self.live@)
    }

    /// A fresh reconciler: nothing is registered yet.
    pub fn new() -> (r: Self)
        ensures
            r.live_set() =~= Set::<Seq<char>>::empty(),
            r.wf(),
    {
        let r = Reconciler { live: Vec::new() };
        proof {
            assert forall|p: Seq<char>| !r.live_set().contains(p) by {}
        }
        r
    }

    /// Compares the desired set against the live set: the plan's `to_add`
    /// holds exactly the desired paths that are not live, and its
    /// `to_remove` exactly the live paths that are no longer desired.
    #[verifier::loop_isolation(false)]
    pub fn plan(&self, desired: &Vec<Watch>) -> (plan: ReconcilePlan)
        requires
            watch_paths_unique(desired.deep_view()),
            self.wf(),
        ensures
            path_set(plan.to_add@) =~= watch_path_set(desired.deep_view()).difference(
                self.live_set(),
            ),
            paths_distinct(plan.to_add@),
            path_set(plan.to_remove@) =~= self.live_set().difference(
                watch_path_set(desired.deep_view()),
            ),
            paths_distinct(plan.to_remove@),
    {
        let mut to_add: Vec<String> = Vec::new();
        let n = desired.len();
        for i in 0..n
            invariant
                n == desired.len(),
                paths_distinct(to_add@),
                forall|k: int|
                    0 <= k < to_add@.len() ==> !self.live_set().contains(#[trigger] to_add@[k]@),
                forall|k: int|
                    0 <= k < to_add@.len() ==> exists|j: int|
                        0 <= j < i && desired.deep_view()[j].path == #[trigger] to_add@[k]@,
                forall|j: int|
                    0 <= j < i && !self.live_set().contains(
                        #[trigger] desired.deep_view()[j].path,
                    ) ==> path_set(to_add@).contains(desired.deep_view()[j].path),
        {
            if !contains_path(&self.live, &desired[i].absolute_file_path) {
                let path = desired[i].absolute_file_path.clone();
                let ghost pre = to_add@;
                proof {
                    assert(path@ == desired@[i as int].absolute_file_path@);
                    assert(path@ == desired.deep_view()[i as int].path);
                    assert(!self.live_set().contains(path@));
                }
                to_add.push(path);
                proof {
                    let last = to_add@.len() - 1;
                    assert(to_add@[last]@ == desired.deep_view()[i as int].path);
                    assert forall|a: int, b: int|
                        0 <= a < b < to_add@.len() implies to_add@[a]@ != to_add@[b]@ by {
                        if b == last {
                            assert(to_add@[a] == pre[a]);
                            let j = choose|j: int|
                                0 <= j < i && desired.deep_view()[j].path == pre[a]@;
                            assert(desired.deep_view()[j].path
                                != desired.deep_view()[i as int].path);
                        } else {
                            assert(to_add@[a] == pre[a] && to_add@[b] == pre[b]);
                        }
                    }
                    assert forall|k: int|
                        0 <= k < to_add@.len() implies !self.live_set().contains(
                        #[trigger] to_add@[k]@,
                    ) by {
                        if k < last {
                            assert(to_add@[k] == pre[k]);
                        }
                    }
                    assert forall|k: int| 0 <= k < to_add@.len() implies exists|j: int|
                        0 <= j < i + 1 && desired.deep_view()[j].path == #[trigger] to_add@[k]@ by {
                        if k < last {
                            assert(to_add@[k] == pre[k]);
                            let j = choose|j: int|
                                0 <= j < i && desired.deep_view()[j].path == pre[k]@;
                            assert(0 <= j < i + 1 && desired.deep_view()[j].path == to_add@[k]@);
                        } else {
                            assert(desired.deep_view()[i as int].path == to_add@[k]@);
                        }
                    }
                    assert forall|j: int|
                        0 <= j < i + 1 && !self.live_set().contains(
                            #[trigger] desired.deep_view()[j].path,
                        ) implies path_set(to_add@).contains(desired.deep_view()[j].path) by {
                        if j < i {
                            let k = choose|k: int|
                                0 <= k < pre.len() && pre[k]@ == desired.deep_view()[j].path;
                            assert(to_add@[k]@ == desired.deep_view()[j].path);
                        } else {
                            assert(to_add@[last]@ == desired.deep_view()[j].path);
                        }
                    }
                }
            } else {
                proof {
                    assert(self.live_set().contains(desired.deep_view()[i as int].path));
                }
            }
        }
        proof {
            assert forall|p: Seq<char>|
                path_set(to_add@).contains(p) <==> (watch_path_set(desired.deep_view()).contains(p)
                    && !self.live_set().contains(p)) by {
                if path_set(to_add@).contains(p) {
                    let k = choose|k: int| 0 <= k < to_add@.len() && to_add@[k]@ == p;
                    let j = choose|j: int|
                        0 <= j < n && desired.deep_view()[j].path == to_add@[k]@;
                    assert(desired.deep_view()[j].path == p);
                }
                if watch_path_set(desired.deep_view()).contains(p) && !self.live_set().contains(
                    p,
                ) {
                    let j = choose|j: int|
                        0 <= j < desired.deep_view().len() && desired.deep_view()[j].path == p;
                    assert(path_set(to_add@).contains(desired.deep_view()[j].path));
                }
            }
            assert(path_set(to_add@) =~= watch_path_set(desired.deep_view()).difference(
                self.live_set(),
            ));
        }
        let mut to_remove: Vec<String> = Vec::new();
        let m = self.live.len();
        for i in 0..m
            invariant
                m == self.live.len(),
                paths_distinct(to_remove@),
                forall|p: Seq<char>|
                    path_set(to_remove@).contains(p) <==> (exists|j: int|
                        0 <= j < i && self.live@[j]@ == p) && !watch_path_set(
                        desired.deep_view(),
                    ).contains(p),
        {
            if !watches_contain_path(desired, &self.live[i]) {
                let path = self.live[i].clone();
                let ghost pre = to_remove@;
                proof {
                    assert(path@ == self.live@[i as int]@);
                    assert(!path_set(to_remove@).contains(path@)) by {
                        if path_set(to_remove@).contains(path@) {
                            let j = choose|j: int| 0 <= j < i && self.live@[j]@ == path@;
                            assert(self.live@[j]@ != self.live@[i as int]@);
                        }
                    }
                    assert forall|a: int, b: int|
                        0 <= a < b < to_remove@.len() + 1 implies (to_remove@.push(path))[a]@ != (
                    to_remove@.push(path))[b]@ by {
                        if b < to_remove@.len() {
                        } else {
                            assert((to_remove@.push(path))[b]@ == path@);
                            assert(path_set(to_remove@).contains((to_remove@.push(path))[a]@));
                        }
                    }
                }
                to_remove.push(path);
                proof {
                    assert forall|p: Seq<char>|
                        path_set(to_remove@).contains(p) <==> ((exists|j: int|
                            0 <= j < i + 1 && self.live@[j]@ == p) && !watch_path_set(
                            desired.deep_view(),
                        ).contains(p)) by {
                        if path_set(to_remove@).contains(p) {
                            let k = choose|k: int|
                                0 <= k < to_remove@.len() && to_remove@[k]@ == p;
                            if k < to_remove@.len() - 1 {
                                assert(path_set(pre).contains(p)) by {
                                    assert(pre[k]@ == p);
                                }
                            } else {
                                assert(self.live@[i as int]@ == p);
                            }
                        }
                        if (exists|j: int| 0 <= j < i + 1 && self.live@[j]@ == p)
                            && !watch_path_set(desired.deep_view()).contains(p) {
                            let j = choose|j: int| 0 <= j < i + 1 && self.live@[j]@ == p;
                            if j < i {
                                assert(path_set(pre).contains(p));
                                let k = choose|k: int|
                                    0 <= k < pre.len() && pre[k]@ == p;
                                assert(to_remove@[k]@ == p);
                            } else {
                                assert(to_remove@[to_remove@.len() - 1]@ == p);
                            }
                        }
                    }
                }
            } else {
                proof {
                    assert forall|p: Seq<char>|
                        path_set(to_remove@).contains(p) <==> ((exists|j: int|
                            0 <= j < i + 1 && self.live@[j]@ == p) && !watch_path_set(
                            desired.deep_view(),
                        ).contains(p)) by {
                        if (exists|j: int| 0 <= j < i + 1 && self.live@[j]@ == p)
                            && !watch_path_set(desired.deep_view()).contains(p) {
                            let j = choose|j: int| 0 <= j < i + 1 && self.live@[j]@ == p;
                            if j == i {
                                assert(watch_path_set(desired.deep_view()).contains(
                                    self.live@[i as int]@,
                                ));
                            }
                        }
                    }
                }
            }
        }
        let plan = ReconcilePlan { to_add, to_remove };
        proof {
            assert(path_set(plan.to_add@) =~= watch_path_set(desired.deep_view()).difference(
                self.live_set(),
            ));
            assert(path_set(plan.to_remove@) =~= self.live_set().difference(
                watch_path_set(desired.deep_view()),
            ));
        }
        plan
    }

    /// Records that the OS registration for `path` succeeded. A failed
    /// registration is simply never recorded, so the path stays out of the
    /// live set and is retried on the next cycle.
    pub fn note_added(&mut self, path: String)
        requires
            old(self).wf(),
            !old(self).live_set().contains(path@),
        ensures
            final(self).wf(),
            final(self).live_set() =~= old(self).live_set().insert(path@),
    {
        let ghost pre = self.live@;
        self.live.push(path);
        proof {
            assert forall|a: int, b: int|
                0 <= a < b < self.live@.len() implies self.live@[a]@ != self.live@[b]@ by {
                if b < pre.len() {
                } else {
                    assert(self.live@[b]@ == path@);
                    assert(path_set(pre).contains(self.live@[a]@)) by {
                        assert(pre[a]@ == self.live@[a]@);
                    }
                }
            }
            assert forall|p: Seq<char>|
                self.live_set().contains(p) <==> (path_set(pre).contains(p) || p == path@) by {
                if self.live_set().contains(p) {
                    let k = choose|k: int| 0 <= k < self.live@.len() && self.live@[k]@ == p;
                    if k < pre.len() {
                        assert(pre[k]@ == p);
                    }
                }
                if path_set(pre).contains(p) {
                    let k = choose|k: int| 0 <= k < pre.len() && pre[k]@ == p;
                    assert(self.live@[k]@ == p);
                }
                if p == path@ {
                    assert(self.live@[self.live@.len() - 1]@ == p);
                }
            }
        }
    }

    /// Records that the OS registration for `path` was removed. Removing a
    /// path that was never live leaves the live set unchanged.
    #[verifier::loop_isolation(false)]
    pub fn note_removed(&mut self, path: &String)
        requires
            old(self).wf(),
        ensures
            final(self).wf(),
            final(self).live_set() =~= old(self).live_set().remove(path@),
    {
        let n = self.live.len();
        for i in 0..n
            invariant
                n == self.live.len(),
                self == old(self),
                forall|j: int| 0 <= j < i ==> self.live@[j]@ != path@,
        {
            if self.live[i] == *path {
                proof {
                    assert(self.live@[i as int]@ == path@);
                }
                self.live.remove(i);
                proof {
                    let pre = old(self).live@;
                    let ii = i as int;
                    assert(self.live@ =~= pre.remove(ii));
                    assert forall|k: int| 0 <= k < self.live@.len() implies #[trigger] self.live@[k]
                        == (if k < ii {
                        pre[k]
                    } else {
                        pre[k + 1]
                    }) by {
                        assert(self.live@[k] == pre.remove(ii)[k]);
                    }
                    assert forall|a: int, b: int|
                        0 <= a < b < self.live@.len() implies self.live@[a]@ != self.live@[b]@ by {
                        let a0: int = if a < ii { a } else { a + 1 };
                        let b0: int = if b < ii { b } else { b + 1 };
                        assert(self.live@[a] == pre[a0]);
                        assert(self.live@[b] == pre[b0]);
                        assert(pre[a0]@ != pre[b0]@);
                    }
                    assert forall|p: Seq<char>|
                        self.live_set().contains(p) <==> (path_set(pre).contains(p) && p
                            != path@) by {
                        if self.live_set().contains(p) {
                            let k = choose|k: int|
                                0 <= k < self.live@.len() && self.live@[k]@ == p;
                            let k0: int = if k < ii { k } else { k + 1 };
                            assert(pre[k0]@ == p);
                            if k0 != ii {
                                assert(pre[k0]@ != pre[ii]@);
                            }
                        }
                        if path_set(pre).contains(p) && p != path@ {
                            let k0 = choose|k0: int| 0 <= k0 < pre.len() && pre[k0]@ == p;
                            let k: int = if k0 < ii { k0 } else { k0 - 1 };
                            assert(k0 != ii);
                            assert(self.live@[k] == pre[k0]);
                        }
                    }
                }
                return;
            }
        }
        proof {
            assert forall|p: Seq<char>|
                self.live_set().contains(p) <==> (old(self).live_set().contains(p) && p
                    != path@) by {
                if self.live_set().contains(p) && p == path@ {
                    let k = choose|k: int| 0 <= k < self.live@.len() && self.live@[k]@ == p;
                }
            }
        }
    }
}

/// Convergence of one reconciliation cycle: starting from any live set,
/// adding every desired-but-not-live path and then removing every
/// live-but-not-desired path leaves exactly the desired set live.
pub proof fn lemma_reconciliation_converges(live: Set<Seq<char>>, desired: Set<Seq<char>>)
    ensures
        live.union(desired.difference(live)).difference(live.difference(desired)) =~= desired,
{
}

/// Upserting a watch makes its path desired: the desired path set afterwards
/// is the old one with the path added.
pub proof fn lemma_upsert_makes_path_desired(
    rows: Seq<WatchView>,
    p: Seq<char>,
    e: Option<int>,
    now: int,
)
    ensures
        watch_path_set(crate::watch_store::upsert_watch_spec(rows, p, e, now)) =~= watch_path_set(
            rows,
        ).insert(p),
{
    let r = crate::watch_store::upsert_watch_spec(rows, p, e, now);
    assert forall|q: Seq<char>|
        watch_path_set(r).contains(q) <==> (watch_path_set(rows).contains(q) || q == p) by {
        if crate::watch_store::watch_has_path(rows, p) {
            if watch_path_set(r).contains(q) {
                let k = choose|k: int| 0 <= k < r.len() && r[k].path == q;
                assert(rows[k].path == q || q == p);
            }
            if watch_path_set(rows).contains(q) {
                let k = choose|k: int| 0 <= k < rows.len() && rows[k].path == q;
                assert(r[k].path == q || r[k].path == p);
                if r[k].path == p && rows[k].path != p {
                    assert(r[k].path == rows[k].path);
                }
            }
            if q == p {
                let w = choose|i: int| 0 <= i < rows.len() && rows[i].path == p;
                assert(r[w].path == p);
            }
        } else {
            if watch_path_set(r).contains(q) {
                let k = choose|k: int| 0 <= k < r.len() && r[k].path == q;
                if k < rows.len() {
                    assert(rows[k].path == q);
                }
            }
            if watch_path_set(rows).contains(q) {
                let k = choose|k: int| 0 <= k < rows.len() && rows[k].path == q;
                assert(r[k].path == q);
            }
            if q == p {
                assert(r[rows.len() as int].path == p);
            }
        }
    }
}

/// Deleting a watch makes its path undesired: on a well-formed store the
/// desired path set afterwards is the old one with the path removed.
pub proof fn lemma_delete_makes_path_undesired(rows: Seq<WatchView>, p: Seq<char>, i: int)
    requires
        watch_paths_unique(rows),
        0 <= i < rows.len(),
        rows[i].path == p,
    ensures
        watch_path_set(rows.remove(i)) =~= watch_path_set(rows).remove(p),
{
    let r = rows.remove(i);
    assert forall|q: Seq<char>|
        watch_path_set(r).contains(q) <==> (watch_path_set(rows).contains(q) && q != p) by {
        if watch_path_set(r).contains(q) {
            let k = choose|k: int| 0 <= k < r.len() && r[k].path == q;
            let k0: int = if k < i { k } else { k + 1 };
            assert(r[k] == rows[k0]);
            assert(rows[k0].path == q);
            if k0 != i {
                assert(rows[k0].path != rows[i].path);
            }
        }
        if watch_path_set(rows).contains(q) && q != p {
            let k0 = choose|k0: int| 0 <= k0 < rows.len() && rows[k0].path == q;
            assert(k0 != i);
            let k: int = if k0 < i { k0 } else { k0 - 1 };
            assert(r[k] == rows[k0]);
        }
    }
}

} // verus!
