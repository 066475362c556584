//! The laws of the data model, stated over the abstract table maps that the
//! `DataStore` contracts use, and proved once and for all.

use vstd::prelude::*;
use crate::data::{
    activity_keys_of_project, count_keys_of_project, exactly_one_named, exactly_one_running,
    repo_keys_of_project, retyped_all, some_named, some_running,
};

verus! {

/// Creation followed by lookup.  A store whose projects table `m` has no row
/// named `n` receives a fresh row `(id, n)` with a positive id, as
/// `create_project`'s contract describes.  Then `n` resolves to exactly that
/// row, its id is nonzero, and — because a row named `n` now exists — a
/// second creation of `n` can no longer succeed.
pub proof fn lemma_create_then_get(m: Map<u64, Seq<char>>, n: Seq<char>, id: u64)
    requires
        !some_named(m, n),
        id >= 1,
        !m.dom().contains(id),
    ensures
        exactly_one_named(m.insert(id, n), n, id),
        id != 0,
        some_named(m.insert(id, n), n),
{
    assert(m.insert(id, n).contains_pair(id, n));
    assert forall|j: u64| m.insert(id, n).dom().contains(j) && m.insert(id, n)[j] == n implies j
        == id by {
        if j != id {
            assert(m.contains_pair(j, n));
        }
    }
}

/// Deletion leaves no orphans.  Removing a project's own activity keys, its
/// own repo keys, and the keys of the counts owned through those repos — as
/// `delete_project`'s contract describes — leaves no activity or repo
/// referencing the project, and no count referencing a repo of the project.
pub proof fn lemma_cascade_leaves_no_orphans(
    acts: Map<u64, (u64, u64, Option<Seq<char>>, u64, Option<u64>)>,
    repos: Map<u64, (u64, Seq<char>)>,
    counts: Map<u64, (u64, u64, u64)>,
    p: u64,
)
    ensures
        forall|k: u64|
            #[trigger] acts.remove_keys(activity_keys_of_project(acts, p)).dom().contains(k)
                ==> acts[k].0 != p,
        forall|k: u64|
            #[trigger] repos.remove_keys(repo_keys_of_project(repos, p)).dom().contains(k)
                ==> repos[k].0 != p,
        forall|k: u64|
            #[trigger] counts.remove_keys(count_keys_of_project(counts, repos, p)).dom().contains(
                k,
            ) ==> !(repos.dom().contains(counts[k].0) && repos[counts[k].0].0 == p),
{
}

/// The running activity stays unique.  A store with no running activity for
/// project `p` has, after a fresh running activity of `p` is inserted — as
/// `start_activity`'s contract describes — exactly that one running
/// activity for `p`.
pub proof fn lemma_unique_running_after_start(
    m: Map<u64, (u64, u64, Option<Seq<char>>, u64, Option<u64>)>,
    p: u64,
    id: u64,
    row: (u64, u64, Option<Seq<char>>, u64, Option<u64>),
)
    requires
        !some_running(m, p),
        !m.dom().contains(id),
        row.0 == p,
        row.4 is None,
    ensures
        exactly_one_running(m.insert(id, row), p, id),
{
    assert forall|j: u64|
        #[trigger] m.insert(id, row).dom().contains(j) && m.insert(id, row)[j].0 == p && m.insert(
            id,
            row,
        )[j].4 is None implies j == id by {
        if j != id {
            assert(m.dom().contains(j) && m[j].0 == p && m[j].4 is None);
        }
    }
}

/// Re-pointing leaves no dangling type reference.  Re-pointing every
/// activity of type `from` to the sentinel type `to` — as
/// `delete_activitytype`'s contract describes — leaves no activity
/// referencing `from`, provided the sentinel is a different type.
pub proof fn lemma_retyped_no_dangling(
    m: Map<u64, (u64, u64, Option<Seq<char>>, u64, Option<u64>)>,
    from: u64,
    to: u64,
)
    requires
        from != to,
    ensures
        forall|k: u64|
            #[trigger] retyped_all(m, from, to).dom().contains(k) ==> retyped_all(m, from, to)[k].1
                != from,
{
}

} // verus!
