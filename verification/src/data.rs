//! The data-access layer: one `DataStore` per database, enforcing the
//! cross-entity rules on top of the trusted storage boundary in `store`.
//!
//! Every operation is specified against five abstract table maps (one per
//! entity); the contracts state exactly which rows an operation adds, changes
//! or removes, and on which inputs each typed error comes.  A storage failure
//! (`DtError::Rusqlite`) can interrupt any operation; single-statement
//! operations leave the tables unchanged in that case, while the multi-row
//! cascades may have removed some of the rows they were asked to remove.

use vstd::prelude::*;
use crate::errors::DtError;
use crate::model::activity::find_activity;
use crate::model::activitytype::find_activitytype;
use crate::model::count::find_count;
use crate::model::project::find_project;
use crate::model::repo::find_repo;
use crate::model::{Activity, ActivityType, Count, Project, Repo};
use crate::store;
use crate::text::{dec_str, u64_to_string};

verus! {

/// The name of the sentinel activity type with id `0`.
pub open spec fn sentinel_name() -> Seq<char> {
    "Unknown"@
}

/// The description of the sentinel activity type with id `0`.
pub open spec fn sentinel_description() -> Seq<char> {
    "Unknown activity type"@
}

/// Some project row carries the name `n`.
pub open spec fn some_named(m: Map<u64, Seq<char>>, n: Seq<char>) -> bool {
    exists|id: u64| m.contains_pair(id, n)
}

/// Exactly one project row carries the name `n`, and its id is `id`.
pub open spec fn exactly_one_named(m: Map<u64, Seq<char>>, n: Seq<char>, id: u64) -> bool {
    &&& m.contains_pair(id, n)
    &&& forall|j: u64| m.dom().contains(j) && m[j] == n ==> j == id
}

/// The store façade.  It owns the connection for its lifetime; the five
/// spec views below are the abstract contents of its tables.
pub struct DataStore {
    conn: rusqlite::Connection,
}

impl DataStore {
    /// The contents of the projects table: id to name.
    pub closed spec fn projects(&self) -> Map<u64, Seq<char>> {
        store::projects_of(self.conn)
    }

    /// The contents of the activity-types table: id to (name, description).
    pub closed spec fn atypes(&self) -> Map<u64, (Seq<char>, Option<Seq<char>>)> {
        store::atypes_of(self.conn)
    }

    /// The contents of the repos table: id to (project, path).
    pub closed spec fn repos(&self) -> Map<u64, (u64, Seq<char>)> {
        store::repos_of(self.conn)
    }

    /// The contents of the activities table: id to
    /// (project, atype, description, start, end).
    pub closed spec fn activities(&self) -> Map<
        u64,
        (u64, u64, Option<Seq<char>>, u64, Option<u64>),
    > {
        store::activities_of(self.conn)
    }

    /// The contents of the counts table: id to (repo, date, count).
    pub closed spec fn counts(&self) -> Map<u64, (u64, u64, u64)> {
        store::counts_of(self.conn)
    }
}

/// All five tables of `post` hold what they held in `pre`.
pub open spec fn unchanged(pre: &DataStore, post: &DataStore) -> bool {
    &&& post.projects() == pre.projects()
    &&& post.atypes() == pre.atypes()
    &&& post.repos() == pre.repos()
    &&& post.activities() == pre.activities()
    &&& post.counts() == pre.counts()
}

/// All tables but `projects` hold what they held in `pre`.
pub open spec fn only_projects_changed(pre: &DataStore, post: &DataStore) -> bool {
    &&& post.atypes() == pre.atypes()
    &&& post.repos() == pre.repos()
    &&& post.activities() == pre.activities()
    &&& post.counts() == pre.counts()
}

// ---------------------------------------------------------------------------
// opening
// ---------------------------------------------------------------------------

impl DataStore {
    /// Opens the database (in memory when `file` is `None`) and initializes
    /// the tables, seeding the sentinel activity type if no row with id `0`
    /// is there yet.
    pub fn new(file: Option<&str>) -> (r: Result<DataStore, DtError>)
        ensures
            r matches Ok(ds) ==> ds.atypes().dom().contains(0u64),
            r matches Ok(ds) ==> file is None ==> {
                &&& ds.projects() == Map::<u64, Seq<char>>::empty()
                &&& ds.repos() == Map::<u64, (u64, Seq<char>)>::empty()
                &&& ds.activities() == Map::<
                    u64,
                    (u64, u64, Option<Seq<char>>, u64, Option<u64>),
                >::empty()
                &&& ds.counts() == Map::<u64, (u64, u64, u64)>::empty()
                &&& ds.atypes() == Map::<u64, (Seq<char>, Option<Seq<char>>)>::empty().insert(
                    0u64,
                    (sentinel_name(), Some(sentinel_description())),
                )
            },
    {
        let mut ds = DataStore::open(file)?;
        ds.init_tables()?;
        Ok(ds)
    }

    /// Opens the database without touching the tables.
    pub fn open(file: Option<&str>) -> (r: Result<DataStore, DtError>)
        ensures
            r matches Ok(ds) ==> file is None ==> {
                &&& ds.projects() == Map::<u64, Seq<char>>::empty()
                &&& ds.atypes() == Map::<u64, (Seq<char>, Option<Seq<char>>)>::empty()
                &&& ds.repos() == Map::<u64, (u64, Seq<char>)>::empty()
                &&& ds.activities() == Map::<
                    u64,
                    (u64, u64, Option<Seq<char>>, u64, Option<u64>),
                >::empty()
                &&& ds.counts() == Map::<u64, (u64, u64, u64)>::empty()
            },
    {
        let conn = match file {
            Some(path) => store::open_file_db(path),
            None => store::open_memory_db(),
        };
        match conn {
            Ok(conn) => Ok(DataStore { conn }),
            Err(e) => Err(DtError::Rusqlite(e)),
        }
    }

    /// Creates the five tables if absent and seeds the sentinel activity
    /// type when no row with id `0` exists.
    fn init_tables(&mut self) -> (r: Result<(), DtError>)
        ensures
            r is Ok ==> final(self).atypes().dom().contains(0u64),
            r is Ok && old(self).atypes() == Map::<u64, (Seq<char>, Option<Seq<char>>)>::empty()
                ==> final(self).atypes() == Map::<
                u64,
                (Seq<char>, Option<Seq<char>>),
            >::empty().insert(0u64, (sentinel_name(), Some(sentinel_description()))),
            r is Ok && old(self).atypes().dom().contains(0u64) ==> final(self).atypes() == old(
                self,
            ).atypes(),
            only_atypes_changed(old(self), final(self)),
    {
        match store::create_tables(&mut self.conn) {
            Ok(()) => (),
            Err(e) => {
                return Err(DtError::Rusqlite(e));
            }
        }
        let ats = match store::select_atypes(&self.conn) {
            Ok(v) => v,
            Err(e) => {
                return Err(DtError::Rusqlite(e));
            }
        };
        match find_activitytype(&ats, 0) {
            None => {
                proof {
                    if self.atypes().dom().contains(0u64) {
                        assert(exists|i: int| 0 <= i < ats@.len() && ats@[i].id == 0u64);
                    }
                }
                let name = String::from_str("Unknown");
                let description = Some(String::from_str("Unknown activity type"));
                match store::insert_atype_row_with_id(&mut self.conn, 0, &name, &description) {
                    Ok(()) => (),
                    Err(e) => {
                        return Err(DtError::Rusqlite(e));
                    }
                }
            }
            Some(at0) => {
                proof {
                    let i = choose|i: int| 0 <= i < ats@.len() && ats@[i] == *at0 && at0.id == 0;
                    assert(self.atypes().contains_pair(ats@[i].id, ats@[i].row()));
                }
            }
        }
        Ok(())
    }
}

/// All tables but `activitytypes` hold what they held in `pre`.
pub open spec fn only_atypes_changed(pre: &DataStore, post: &DataStore) -> bool {
    &&& post.projects() == pre.projects()
    &&& post.repos() == pre.repos()
    &&& post.activities() == pre.activities()
    &&& post.counts() == pre.counts()
}

// ---------------------------------------------------------------------------
// vector scans
// ---------------------------------------------------------------------------

/// Does any element of `v` carry the name `name`?
fn any_project_named(v: &Vec<Project>, name: &String) -> (r: bool)
    ensures
        r <==> exists|i: int| 0 <= i < v@.len() && #[trigger] v@[i].name@ == name@,
{
    let mut i: usize = 0;
    while i < v.len()
        invariant
            0 <= i <= v@.len(),
            forall|j: int| 0 <= j < i ==> #[trigger] v@[j].name@ != name@,
        decreases v@.len() - i,
    {
        if v[i].name == *name {
            return true;
        }
        i = i + 1;
    }
    false
}

/// Returns a copy of the single element of `v` named `name`, or `None` when
/// no element or more than one carries that name.  Requires the ids of `v`
/// to be strictly increasing, as the store's selects deliver them.
fn unique_project_named(v: &Vec<Project>, name: &String) -> (r: Option<Project>)
    requires
        forall|i: int, j: int| 0 <= i < j < v@.len() ==> #[trigger] v@[i].id < #[trigger] v@[j].id,
    ensures
        r matches Some(p) ==> {
            &&& exists|i: int|
                0 <= i < v@.len() && #[trigger] v@[i].id == p.id && v@[i].name@ == name@
            &&& p.name@ == name@
            &&& forall|j: int|
                0 <= j < v@.len() && #[trigger] v@[j].name@ == name@ ==> v@[j].id == p.id
        },
        r is None ==> (forall|i: int| 0 <= i < v@.len() ==> #[trigger] v@[i].name@ != name@)
            || (exists|i: int, j: int|
            0 <= i < j < v@.len() && #[trigger] v@[i].name@ == name@ && #[trigger] v@[j].name@
                == name@),
{
    let mut found: Option<Project> = None;
    let mut dup: bool = false;
    let mut i: usize = 0;
    while i < v.len()
        invariant
            0 <= i <= v@.len(),
            found is None ==> forall|j: int| 0 <= j < i ==> #[trigger] v@[j].name@ != name@,
            found matches Some(p) ==> {
                &&& exists|j: int|
                    0 <= j < i && #[trigger] v@[j].id == p.id && v@[j].name@ == name@
                &&& p.name@ == name@
            },
            !dup ==> (found matches Some(p) ==> forall|j: int|
                0 <= j < i && #[trigger] v@[j].name@ == name@ ==> v@[j].id == p.id),
            dup ==> exists|j1: int, j2: int|
                0 <= j1 < j2 < i && #[trigger] v@[j1].name@ == name@ && #[trigger] v@[j2].name@
                    == name@,
            dup ==> found is Some,
        decreases v@.len() - i,
    {
        if v[i].name == *name {
            if found.is_none() {
                found = Some(Project { id: v[i].id, name: v[i].name.clone() });
            } else {
                dup = true;
            }
        }
        i = i + 1;
    }
    if dup {
        None
    } else {
        found
    }
}

// ---------------------------------------------------------------------------
// project operations
// ---------------------------------------------------------------------------

impl DataStore {
    /// Creates a project with `name`, failing when one of that name exists.
    pub fn create_project(&mut self, name: &str) -> (r: Result<Project, DtError>)
        ensures
            r matches Ok(p) ==> {
                &&& !some_named(old(self).projects(), name@)
                &&& p.id >= 1
                &&& !old(self).projects().dom().contains(p.id)
                &&& p.name@ == name@
                &&& final(self).projects() == old(self).projects().insert(p.id, name@)
                &&& only_projects_changed(old(self), final(self))
            },
            r matches Err(DtError::ProjectAlreadyExists(s)) ==> {
                &&& s@ == name@
                &&& some_named(old(self).projects(), name@)
                &&& unchanged(old(self), final(self))
            },
            r matches Err(DtError::Rusqlite(_)) ==> unchanged(old(self), final(self)),
            r is Err ==> (r matches Err(DtError::ProjectAlreadyExists(_)) || r matches Err(
                DtError::Rusqlite(_),
            )),
    {
        let v = match store::select_projects(&self.conn) {
            Ok(v) => v,
            Err(e) => {
                return Err(DtError::Rusqlite(e));
            }
        };
        let name_s = String::from_str(name);
        if any_project_named(&v, &name_s) {
            proof {
                let i = choose|i: int| 0 <= i < v@.len() && v@[i].name@ == name_s@;
                assert(self.projects().contains_pair(v@[i].id, v@[i].row()));
            }
            return Err(DtError::ProjectAlreadyExists(name_s));
        }
        proof {
            if some_named(self.projects(), name@) {
                let id = choose|id: u64| self.projects().contains_pair(id, name@);
                assert(exists|i: int| 0 <= i < v@.len() && v@[i].id == id);
                let i = choose|i: int| 0 <= i < v@.len() && v@[i].id == id;
                assert(self.projects().contains_pair(v@[i].id, v@[i].row()));
                assert(v@[i].name@ == name@);
            }
        }
        match store::insert_project_row(&mut self.conn, &name_s) {
            Ok(id) => Ok(Project { id, name: name_s }),
            Err(e) => Err(DtError::Rusqlite(e)),
        }
    }

    /// Returns the project named `name`, or `None` unless exactly one row
    /// carries that name.
    pub fn get_project(&self, name: &str) -> (r: Result<Option<Project>, DtError>)
        ensures
            r matches Ok(Some(p)) ==> exactly_one_named(self.projects(), name@, p.id) && p.name@
                == name@,
            r matches Ok(None) ==> !exists|id: u64| exactly_one_named(self.projects(), name@, id),
            r is Err ==> r matches Err(DtError::Rusqlite(_)),
    {
        let v = match store::select_projects(&self.conn) {
            Ok(v) => v,
            Err(e) => {
                return Err(DtError::Rusqlite(e));
            }
        };
        let name_s = String::from_str(name);
        let r = unique_project_named(&v, &name_s);
        proof {
            lemma_unique_scan_to_map(self.projects(), v@, name@, r);
        }
        Ok(r)
    }

    /// Returns the project with id `id`, if one is there.
    pub fn get_project_with_id(&self, id: u64) -> (r: Result<Option<Project>, DtError>)
        ensures
            r matches Ok(Some(p)) ==> p.id == id && self.projects().contains_pair(id, p.name@),
            r matches Ok(None) ==> !self.projects().dom().contains(id),
            r is Err ==> r matches Err(DtError::Rusqlite(_)),
    {
        let v = match store::select_projects(&self.conn) {
            Ok(v) => v,
            Err(e) => {
                return Err(DtError::Rusqlite(e));
            }
        };
        match find_project(&v, id) {
            Some(p) => Ok(Some(Project { id: p.id, name: p.name.clone() })),
            None => {
                proof {
                    if self.projects().dom().contains(id) {
                        assert(exists|i: int| 0 <= i < v@.len() && v@[i].id == id);
                    }
                }
                Ok(None)
            }
        }
    }

    /// Returns all projects, in ascending id order.
    pub fn get_projects(&self) -> (r: Result<Vec<Project>, DtError>)
        ensures
            r matches Ok(v) ==> store::lists_projects(v@, self.projects()),
            r is Err ==> r matches Err(DtError::Rusqlite(_)),
    {
        match store::select_projects(&self.conn) {
            Ok(v) => Ok(v),
            Err(e) => Err(DtError::Rusqlite(e)),
        }
    }

    /// Re-verifies that the project exists, then persists the passed name.
    pub fn update_project(&mut self, project: &Project) -> (r: Result<(), DtError>)
        ensures
            r is Ok ==> {
                &&& old(self).projects().dom().contains(project.id)
                &&& final(self).projects() == old(self).projects().insert(
                    project.id,
                    project.name@,
                )
                &&& only_projects_changed(old(self), final(self))
            },
            r matches Err(DtError::ProjectNotFound(s)) ==> {
                &&& s@ == dec_str(project.id as nat)
                &&& !old(self).projects().dom().contains(project.id)
                &&& unchanged(old(self), final(self))
            },
            r matches Err(DtError::Rusqlite(_)) ==> unchanged(old(self), final(self)),
            r is Err ==> (r matches Err(DtError::ProjectNotFound(_)) || r matches Err(
                DtError::Rusqlite(_),
            )),
    {
        let v = match store::select_projects(&self.conn) {
            Ok(v) => v,
            Err(e) => {
                return Err(DtError::Rusqlite(e));
            }
        };
        if find_project(&v, project.id).is_none() {
            proof {
                if self.projects().dom().contains(project.id) {
                    assert(exists|i: int| 0 <= i < v@.len() && v@[i].id == project.id);
                }
            }
            return Err(DtError::ProjectNotFound(u64_to_string(project.id)));
        }
        match store::update_project_row(&mut self.conn, project.id, &project.name) {
            Ok(()) => Ok(()),
            Err(e) => Err(DtError::Rusqlite(e)),
        }
    }

    /// Renames the project called `old_name` to `new_name`, failing when
    /// `old_name` does not resolve to exactly one project or a project
    /// already carries `new_name`.
    pub fn rename_project(&mut self, old_name: &str, new_name: &str) -> (r: Result<(), DtError>)
        ensures
            r is Ok ==> exists|id: u64|
                {
                    &&& #[trigger] exactly_one_named(old(self).projects(), old_name@, id)
                    &&& !some_named(old(self).projects(), new_name@)
                    &&& final(self).projects() == old(self).projects().insert(id, new_name@)
                    &&& only_projects_changed(old(self), final(self))
                },
            r matches Err(DtError::ProjectNotFound(s)) ==> {
                &&& s@ == old_name@
                &&& !exists|id: u64| exactly_one_named(old(self).projects(), old_name@, id)
                &&& unchanged(old(self), final(self))
            },
            r matches Err(DtError::ProjectAlreadyExists(s)) ==> {
                &&& s@ == new_name@
                &&& some_named(old(self).projects(), new_name@)
                &&& unchanged(old(self), final(self))
            },
            r matches Err(DtError::Rusqlite(_)) ==> unchanged(old(self), final(self)),
            r is Err ==> (r matches Err(DtError::ProjectNotFound(_)) || r matches Err(
                DtError::ProjectAlreadyExists(_),
            ) || r matches Err(DtError::Rusqlite(_))),
    {
        let v = match store::select_projects(&self.conn) {
            Ok(v) => v,
            Err(e) => {
                return Err(DtError::Rusqlite(e));
            }
        };
        let old_s = String::from_str(old_name);
        let found = unique_project_named(&v, &old_s);
        proof {
            lemma_unique_scan_to_map(self.projects(), v@, old_name@, found);
        }
        let p = match found {
            Some(p) => p,
            None => {
                return Err(DtError::ProjectNotFound(old_s));
            }
        };
        let new_s = String::from_str(new_name);
        if any_project_named(&v, &new_s) {
            proof {
                let i = choose|i: int| 0 <= i < v@.len() && v@[i].name@ == new_s@;
                assert(self.projects().contains_pair(v@[i].id, v@[i].row()));
            }
            return Err(DtError::ProjectAlreadyExists(new_s));
        }
        proof {
            if some_named(self.projects(), new_name@) {
                let id = choose|id: u64| self.projects().contains_pair(id, new_name@);
                assert(exists|i: int| 0 <= i < v@.len() && v@[i].id == id);
                let i = choose|i: int| 0 <= i < v@.len() && v@[i].id == id;
                assert(self.projects().contains_pair(v@[i].id, v@[i].row()));
                assert(v@[i].name@ == new_name@);
            }
        }
        match store::update_project_row(&mut self.conn, p.id, &new_s) {
            Ok(()) => Ok(()),
            Err(e) => Err(DtError::Rusqlite(e)),
        }
    }
}

/// Bridges the vector-level contract of `unique_project_named` to the
/// table map: the scan's verdict decides whether exactly one row of `m`
/// carries the name `n`.
proof fn lemma_unique_scan_to_map(
    m: Map<u64, Seq<char>>,
    v: Seq<Project>,
    n: Seq<char>,
    r: Option<Project>,
)
    requires
        store::lists_projects(v, m),
        r matches Some(p) ==> {
            &&& exists|i: int| 0 <= i < v.len() && #[trigger] v[i].id == p.id && v[i].name@ == n
            &&& p.name@ == n
            &&& forall|j: int| 0 <= j < v.len() && #[trigger] v[j].name@ == n ==> v[j].id == p.id
        },
        r is None ==> (forall|i: int| 0 <= i < v.len() ==> #[trigger] v[i].name@ != n) || (exists|
            i: int,
            j: int,
        |
            0 <= i < j < v.len() && #[trigger] v[i].name@ == n && #[trigger] v[j].name@ == n),
    ensures
        r matches Some(p) ==> exactly_one_named(m, n, p.id),
        r is None ==> !exists|id: u64| exactly_one_named(m, n, id),
{
    match r {
        Some(p) => {
            let i = choose|i: int| 0 <= i < v.len() && v[i].id == p.id && v[i].name@ == n;
            assert(m.contains_pair(p.id, n));
            assert forall|j: u64| m.dom().contains(j) && m[j] == n implies j == p.id by {
                let k = choose|k: int| 0 <= k < v.len() && v[k].id == j;
                assert(m.contains_pair(v[k].id, v[k].row()));
                assert(v[k].name@ == n);
            }
        }
        None => {
            if forall|i: int| 0 <= i < v.len() ==> #[trigger] v[i].name@ != n {
                assert forall|id: u64| !exactly_one_named(m, n, id) by {
                    if m.contains_pair(id, n) {
                        let k = choose|k: int| 0 <= k < v.len() && v[k].id == id;
                        assert(m.contains_pair(v[k].id, v[k].row()));
                        assert(v[k].name@ == n);
                    }
                }
            } else {
                let (i, j) = choose|i: int, j: int|
                    0 <= i < j < v.len() && #[trigger] v[i].name@ == n && #[trigger] v[j].name@
                        == n;
                assert(m.contains_pair(v[i].id, v[i].row()));
                assert(m.contains_pair(v[j].id, v[j].row()));
                assert(v[i].id != v[j].id);
                assert forall|id: u64| !exactly_one_named(m, n, id) by {
                    if exactly_one_named(m, n, id) {
                        assert(v[i].id == id);
                        assert(v[j].id == id);
                    }
                }
            }
        }
    }
}

// ---------------------------------------------------------------------------
// activity-type operations
// ---------------------------------------------------------------------------

/// Some activity-type row carries the name `n`.
pub open spec fn some_atype_named(
    m: Map<u64, (Seq<char>, Option<Seq<char>>)>,
    n: Seq<char>,
) -> bool {
    exists|id: u64| #[trigger] m.dom().contains(id) && m[id].0 == n
}

/// Exactly one activity-type row carries the name `n`, and its id is `id`.
pub open spec fn exactly_one_atype_named(
    m: Map<u64, (Seq<char>, Option<Seq<char>>)>,
    n: Seq<char>,
    id: u64,
) -> bool {
    &&& m.dom().contains(id)
    &&& m[id].0 == n
    &&& forall|j: u64| #[trigger] m.dom().contains(j) && m[j].0 == n ==> j == id
}

/// The activities map `m` with every row of type `from` re-pointed to the
/// type `to`, all else unchanged.
pub open spec fn retyped_all(
    m: Map<u64, (u64, u64, Option<Seq<char>>, u64, Option<u64>)>,
    from: u64,
    to: u64,
) -> Map<u64, (u64, u64, Option<Seq<char>>, u64, Option<u64>)> {
    Map::new(
        |k: u64| m.dom().contains(k),
        |k: u64|
            if m[k].1 == from {
                (m[k].0, to, m[k].2, m[k].3, m[k].4)
            } else {
                m[k]
            },
    )
}

/// All tables but `activitytypes` and `activities` hold what they held.
pub open spec fn only_atypes_and_activities_changed(pre: &DataStore, post: &DataStore) -> bool {
    &&& post.projects() == pre.projects()
    &&& post.repos() == pre.repos()
    &&& post.counts() == pre.counts()
}

/// A copy of an optional string, equal to the value it copies.
fn clone_opt_string(o: &Option<String>) -> (r: Option<String>)
    ensures
        r == *o,
{
    match o {
        Some(s) => Some(s.clone()),
        None => None,
    }
}

/// Does any element of `v` carry the name `name`?
fn any_atype_named(v: &Vec<ActivityType>, name: &String) -> (r: bool)
    ensures
        r <==> exists|i: int| 0 <= i < v@.len() && #[trigger] v@[i].name@ == name@,
{
    let mut i: usize = 0;
    while i < v.len()
        invariant
            0 <= i <= v@.len(),
            forall|j: int| 0 <= j < i ==> #[trigger] v@[j].name@ != name@,
        decreases v@.len() - i,
    {
        if v[i].name == *name {
            return true;
        }
        i = i + 1;
    }
    false
}

/// Returns a copy of the single element of `v` named `name`, or `None` when
/// no element or more than one carries that name.  Requires the ids of `v`
/// to be strictly increasing, as the store's selects deliver them.
#[verifier::rlimit(100)]
fn unique_atype_named(v: &Vec<ActivityType>, name: &String) -> (r: Option<ActivityType>)
    requires
        forall|i: int, j: int| 0 <= i < j < v@.len() ==> #[trigger] v@[i].id < #[trigger] v@[j].id,
    ensures
        r matches Some(at) ==> {
            &&& exists|i: int|
                0 <= i < v@.len() && #[trigger] v@[i].id == at.id && v@[i] == at
            &&& at.name@ == name@
            &&& forall|j: int|
                0 <= j < v@.len() && #[trigger] v@[j].name@ == name@ ==> v@[j].id == at.id
        },
        r is None ==> (forall|i: int| 0 <= i < v@.len() ==> #[trigger] v@[i].name@ != name@)
            || (exists|i: int, j: int|
            0 <= i < j < v@.len() && #[trigger] v@[i].name@ == name@ && #[trigger] v@[j].name@
                == name@),
{
    let mut found: Option<ActivityType> = None;
    let mut dup: bool = false;
    let mut i: usize = 0;
    while i < v.len()
        invariant
            0 <= i <= v@.len(),
            found is None ==> forall|j: int| 0 <= j < i ==> #[trigger] v@[j].name@ != name@,
            found matches Some(at) ==> {
                &&& exists|j: int| 0 <= j < i && #[trigger] v@[j].id == at.id && v@[j] == at
                &&& at.name@ == name@
            },
            !dup ==> (found matches Some(at) ==> forall|j: int|
                0 <= j < i && #[trigger] v@[j].name@ == name@ ==> v@[j].id == at.id),
            dup ==> exists|j1: int, j2: int|
                0 <= j1 < j2 < i && #[trigger] v@[j1].name@ == name@ && #[trigger] v@[j2].name@
                    == name@,
            dup ==> found is Some,
        decreases v@.len() - i,
    {
        if v[i].name == *name {
            if found.is_none() {
                found = Some(
                    ActivityType {
                        id: v[i].id,
                        name: v[i].name.clone(),
                        description: clone_opt_string(&v[i].description),
                    },
                );
            } else {
                dup = true;
            }
        }
        i = i + 1;
    }
    if dup {
        None
    } else {
        found
    }
}

/// Bridges the vector-level contract of `unique_atype_named` to the table
/// map.
proof fn lemma_unique_atype_scan_to_map(
    m: Map<u64, (Seq<char>, Option<Seq<char>>)>,
    v: Seq<ActivityType>,
    n: Seq<char>,
    r: Option<ActivityType>,
)
    requires
        store::lists_atypes(v, m),
        r matches Some(at) ==> {
            &&& exists|i: int| 0 <= i < v.len() && #[trigger] v[i].id == at.id && v[i] == at
            &&& at.name@ == n
            &&& forall|j: int| 0 <= j < v.len() && #[trigger] v[j].name@ == n ==> v[j].id == at.id
        },
        r is None ==> (forall|i: int| 0 <= i < v.len() ==> #[trigger] v[i].name@ != n) || (exists|
            i: int,
            j: int,
        |
            0 <= i < j < v.len() && #[trigger] v[i].name@ == n && #[trigger] v[j].name@ == n),
    ensures
        r matches Some(at) ==> exactly_one_atype_named(m, n, at.id) && m[at.id] == at.row(),
        r is None ==> !exists|id: u64| exactly_one_atype_named(m, n, id),
{
    match r {
        Some(at) => {
            let i = choose|i: int| 0 <= i < v.len() && v[i].id == at.id && v[i] == at;
            assert(m.contains_pair(v[i].id, v[i].row()));
            assert forall|j: u64| m.dom().contains(j) && m[j].0 == n implies j == at.id by {
                let k = choose|k: int| 0 <= k < v.len() && v[k].id == j;
                assert(m.contains_pair(v[k].id, v[k].row()));
                assert(v[k].name@ == n);
            }
        }
        None => {
            if forall|i: int| 0 <= i < v.len() ==> #[trigger] v[i].name@ != n {
                assert forall|id: u64| !exactly_one_atype_named(m, n, id) by {
                    if m.dom().contains(id) && m[id].0 == n {
                        let k = choose|k: int| 0 <= k < v.len() && v[k].id == id;
                        assert(m.contains_pair(v[k].id, v[k].row()));
                        assert(v[k].name@ == n);
                    }
                }
            } else {
                let (i, j) = choose|i: int, j: int|
                    0 <= i < j < v.len() && #[trigger] v[i].name@ == n && #[trigger] v[j].name@
                        == n;
                assert(m.contains_pair(v[i].id, v[i].row()));
                assert(m.contains_pair(v[j].id, v[j].row()));
                assert(v[i].id != v[j].id);
                assert forall|id: u64| !exactly_one_atype_named(m, n, id) by {
                    if exactly_one_atype_named(m, n, id) {
                        assert(v[i].id == id);
                        assert(v[j].id == id);
                    }
                }
            }
        }
    }
}

impl DataStore {
    /// Creates an activity type with `name`, failing when one of that name
    /// exists.
    pub fn create_activitytype(&mut self, name: &str, description: Option<String>) -> (r: Result<
        ActivityType,
        DtError,
    >)
        ensures
            r matches Ok(at) ==> {
                &&& !some_atype_named(old(self).atypes(), name@)
                &&& at.id >= 1
                &&& !old(self).atypes().dom().contains(at.id)
                &&& at.name@ == name@
                &&& final(self).atypes() == old(self).atypes().insert(at.id, at.row())
                &&& only_atypes_changed(old(self), final(self))
            },
            r matches Err(DtError::ActivityTypeAlreadyExists(s)) ==> {
                &&& s@ == name@
                &&& some_atype_named(old(self).atypes(), name@)
                &&& unchanged(old(self), final(self))
            },
            r matches Err(DtError::Rusqlite(_)) ==> unchanged(old(self), final(self)),
            r is Err ==> (r matches Err(DtError::ActivityTypeAlreadyExists(_)) || r matches Err(
                DtError::Rusqlite(_),
            )),
    {
        let v = match store::select_atypes(&self.conn) {
            Ok(v) => v,
            Err(e) => {
                return Err(DtError::Rusqlite(e));
            }
        };
        let name_s = String::from_str(name);
        if any_atype_named(&v, &name_s) {
            proof {
                let i = choose|i: int| 0 <= i < v@.len() && v@[i].name@ == name_s@;
                assert(self.atypes().contains_pair(v@[i].id, v@[i].row()));
            }
            return Err(DtError::ActivityTypeAlreadyExists(name_s));
        }
        proof {
            if some_atype_named(self.atypes(), name@) {
                let id = choose|id: u64|
                    #[trigger] self.atypes().dom().contains(id) && self.atypes()[id].0 == name@;
                let i = choose|i: int| 0 <= i < v@.len() && v@[i].id == id;
                assert(self.atypes().contains_pair(v@[i].id, v@[i].row()));
                assert(v@[i].name@ == name@);
            }
        }
        match store::insert_atype_row(&mut self.conn, &name_s, &description) {
            Ok(id) => Ok(ActivityType { id, name: name_s, description }),
            Err(e) => Err(DtError::Rusqlite(e)),
        }
    }

    /// Returns the activity type named `name`, or `None` unless exactly one
    /// row carries that name.
    pub fn get_activitytype(&self, name: &str) -> (r: Result<Option<ActivityType>, DtError>)
        ensures
            r matches Ok(Some(at)) ==> exactly_one_atype_named(self.atypes(), name@, at.id)
                && self.atypes()[at.id] == at.row() && at.name@ == name@,
            r matches Ok(None) ==> !exists|id: u64|
                exactly_one_atype_named(self.atypes(), name@, id),
            r is Err ==> r matches Err(DtError::Rusqlite(_)),
    {
        let v = match store::select_atypes(&self.conn) {
            Ok(v) => v,
            Err(e) => {
                return Err(DtError::Rusqlite(e));
            }
        };
        let name_s = String::from_str(name);
        let r = unique_atype_named(&v, &name_s);
        proof {
            lemma_unique_atype_scan_to_map(self.atypes(), v@, name@, r);
        }
        Ok(r)
    }

    /// Returns the activity type with id `id`, if one is there.
    pub fn get_activitytype_with_id(&self, id: u64) -> (r: Result<Option<ActivityType>, DtError>)
        ensures
            r matches Ok(Some(at)) ==> at.id == id && self.atypes().contains_pair(id, at.row()),
            r matches Ok(None) ==> !self.atypes().dom().contains(id),
            r is Err ==> r matches Err(DtError::Rusqlite(_)),
    {
        let v = match store::select_atypes(&self.conn) {
            Ok(v) => v,
            Err(e) => {
                return Err(DtError::Rusqlite(e));
            }
        };
        match find_activitytype(&v, id) {
            Some(at) => Ok(
                Some(
                    ActivityType {
                        id: at.id,
                        name: at.name.clone(),
                        description: clone_opt_string(&at.description),
                    },
                ),
            ),
            None => {
                proof {
                    if self.atypes().dom().contains(id) {
                        assert(exists|i: int| 0 <= i < v@.len() && v@[i].id == id);
                    }
                }
                Ok(None)
            }
        }
    }

    /// Returns all activity types, in ascending id order.
    pub fn get_activitytypes(&self) -> (r: Result<Vec<ActivityType>, DtError>)
        ensures
            r matches Ok(v) ==> store::lists_atypes(v@, self.atypes()),
            r is Err ==> r matches Err(DtError::Rusqlite(_)),
    {
        match store::select_atypes(&self.conn) {
            Ok(v) => Ok(v),
            Err(e) => Err(DtError::Rusqlite(e)),
        }
    }

    /// Re-verifies that the activity type exists, then persists the passed
    /// name and description.
    pub fn update_activitytype(&mut self, at: &ActivityType) -> (r: Result<(), DtError>)
        ensures
            r is Ok ==> {
                &&& old(self).atypes().dom().contains(at.id)
                &&& final(self).atypes() == old(self).atypes().insert(at.id, at.row())
                &&& only_atypes_changed(old(self), final(self))
            },
            r matches Err(DtError::ActivityTypeNotFound(s)) ==> {
                &&& s@ == dec_str(at.id as nat)
                &&& !old(self).atypes().dom().contains(at.id)
                &&& unchanged(old(self), final(self))
            },
            r matches Err(DtError::Rusqlite(_)) ==> unchanged(old(self), final(self)),
            r is Err ==> (r matches Err(DtError::ActivityTypeNotFound(_)) || r matches Err(
                DtError::Rusqlite(_),
            )),
    {
        let v = match store::select_atypes(&self.conn) {
            Ok(v) => v,
            Err(e) => {
                return Err(DtError::Rusqlite(e));
            }
        };
        if find_activitytype(&v, at.id).is_none() {
            proof {
                if self.atypes().dom().contains(at.id) {
                    assert(exists|i: int| 0 <= i < v@.len() && v@[i].id == at.id);
                }
            }
            return Err(DtError::ActivityTypeNotFound(u64_to_string(at.id)));
        }
        match store::update_atype_row(&mut self.conn, at.id, &at.name, &at.description) {
            Ok(()) => Ok(()),
            Err(e) => Err(DtError::Rusqlite(e)),
        }
    }

    /// Deletes an activity type, re-pointing every activity that references
    /// it to the sentinel type `0` first, so that no dangling reference is
    /// left.  The sentinel itself cannot be deleted.
    #[verifier::rlimit(100)]
    pub fn delete_activitytype(&mut self, at: ActivityType) -> (r: Result<(), DtError>)
        ensures
            r is Ok ==> {
                &&& at.id != 0
                &&& old(self).atypes().dom().contains(at.id)
                &&& final(self).atypes() == old(self).atypes().remove(at.id)
                &&& final(self).activities() == retyped_all(old(self).activities(), at.id, 0)
                &&& forall|k: u64|
                    #[trigger] final(self).activities().dom().contains(k)
                        ==> final(self).activities()[k].1 != at.id
                &&& only_atypes_and_activities_changed(old(self), final(self))
            },
            r matches Err(DtError::ActivityTypeInUse(s)) ==> {
                &&& at.id == 0
                &&& s@ == dec_str(0)
                &&& unchanged(old(self), final(self))
            },
            r matches Err(DtError::ActivityTypeNotFound(s)) ==> {
                &&& s@ == dec_str(at.id as nat)
                &&& !old(self).atypes().dom().contains(at.id)
                &&& unchanged(old(self), final(self))
            },
            r is Err ==> (r matches Err(DtError::ActivityTypeInUse(_)) || r matches Err(
                DtError::ActivityTypeNotFound(_),
            ) || r matches Err(DtError::Rusqlite(_))),
    {
        if at.id == 0 {
            return Err(DtError::ActivityTypeInUse(u64_to_string(0)));
        }
        let v = match store::select_atypes(&self.conn) {
            Ok(v) => v,
            Err(e) => {
                return Err(DtError::Rusqlite(e));
            }
        };
        if find_activitytype(&v, at.id).is_none() {
            proof {
                if self.atypes().dom().contains(at.id) {
                    assert(exists|i: int| 0 <= i < v@.len() && v@[i].id == at.id);
                }
            }
            return Err(DtError::ActivityTypeNotFound(u64_to_string(at.id)));
        }
        let acts = match store::select_activities(&self.conn) {
            Ok(v) => v,
            Err(e) => {
                return Err(DtError::Rusqlite(e));
            }
        };
        let ghost m0 = self.activities();
        let mut i: usize = 0;
        while i < acts.len()
            invariant
                0 <= i <= acts@.len(),
                store::lists_activities(acts@, m0),
                self.activities().dom() == m0.dom(),
                forall|j: int|
                    i <= j < acts@.len() ==> self.activities()[#[trigger] acts@[j].id]
                        == acts@[j].row(),
                forall|j: int|
                    0 <= j < i && acts@[j].atype != at.id ==> self.activities()[
                        #[trigger] acts@[j].id
                    ] == acts@[j].row(),
                forall|j: int|
                    0 <= j < i && acts@[j].atype == at.id ==> self.activities()[
                        #[trigger] acts@[j].id
                    ] == (acts@[j].project, 0u64, acts@[j].description.deep_view(), acts@[j].start,
                    acts@[j].end),
                only_atypes_and_activities_changed(old(self), self),
                self.atypes() == old(self).atypes(),
            decreases acts@.len() - i,
        {
            proof {
                assert(m0.contains_pair(acts@[i as int].id, acts@[i as int].row()));
                assert forall|j: int| 0 <= j < acts@.len() && j != i implies acts@[j].id != acts@[
                    i as int
                ].id by {
                    if j < i {
                        assert(acts@[j].id < acts@[i as int].id);
                    } else {
                        assert(acts@[i as int].id < acts@[j].id);
                    }
                }
            }
            if acts[i].atype == at.id {
                let desc = clone_opt_string(&acts[i].description);
                match store::update_activity_row(
                    &mut self.conn,
                    acts[i].id,
                    acts[i].project,
                    0,
                    &desc,
                    acts[i].start,
                    acts[i].end,
                ) {
                    Ok(()) => (),
                    Err(e) => {
                        return Err(DtError::Rusqlite(e));
                    }
                }
            }
            i = i + 1;
        }
        proof {
            assert forall|k: u64| #[trigger] m0.dom().contains(k) implies self.activities()[k]
                == retyped_all(m0, at.id, 0)[k] by {
                let j = choose|j: int| 0 <= j < acts@.len() && acts@[j].id == k;
                assert(m0.contains_pair(acts@[j].id, acts@[j].row()));
            }
            assert(self.activities() =~= retyped_all(m0, at.id, 0));
        }
        match store::delete_atype_row(&mut self.conn, at.id) {
            Ok(()) => (),
            Err(e) => {
                return Err(DtError::Rusqlite(e));
            }
        }
        proof {
            assert forall|k: u64| #[trigger] final(self).activities().dom().contains(k) implies
                final(self).activities()[k].1 != at.id by {
                assert(m0.dom().contains(k));
            }
        }
        Ok(())
    }
}

// ---------------------------------------------------------------------------
// activity operations
// ---------------------------------------------------------------------------

/// Some activity of project `p` is running (has no end).
pub open spec fn some_running(
    m: Map<u64, (u64, u64, Option<Seq<char>>, u64, Option<u64>)>,
    p: u64,
) -> bool {
    exists|id: u64| #[trigger] m.dom().contains(id) && m[id].0 == p && m[id].4 is None
}

/// Exactly one activity of project `p` is running, and its id is `id`.
pub open spec fn exactly_one_running(
    m: Map<u64, (u64, u64, Option<Seq<char>>, u64, Option<u64>)>,
    p: u64,
    id: u64,
) -> bool {
    &&& m.dom().contains(id)
    &&& m[id].0 == p
    &&& m[id].4 is None
    &&& forall|j: u64|
        #[trigger] m.dom().contains(j) && m[j].0 == p && m[j].4 is None ==> j == id
}

/// All tables but `activities` hold what they held in `pre`.
pub open spec fn only_activities_changed(pre: &DataStore, post: &DataStore) -> bool {
    &&& post.projects() == pre.projects()
    &&& post.atypes() == pre.atypes()
    &&& post.repos() == pre.repos()
    &&& post.counts() == pre.counts()
}

/// `v` lists exactly the activities of project `p` from the table `m`, in
/// ascending id order.
pub open spec fn lists_project_activities(
    v: Seq<Activity>,
    m: Map<u64, (u64, u64, Option<Seq<char>>, u64, Option<u64>)>,
    p: u64,
) -> bool {
    &&& forall|i: int, j: int| 0 <= i < j < v.len() ==> #[trigger] v[i].id < #[trigger] v[j].id
    &&& forall|i: int|
        0 <= i < v.len() ==> m.contains_pair(#[trigger] v[i].id, v[i].row()) && v[i].project == p
    &&& forall|id: u64|
        #[trigger] m.dom().contains(id) && m[id].0 == p ==> exists|i: int|
            0 <= i < v.len() && #[trigger] v[i].id == id
}

/// The activities of project `p`.
pub open spec fn activity_of_project(p: u64) -> spec_fn(Activity) -> bool {
    |a: Activity| a.project == p
}

/// The running activities of project `p`.
pub open spec fn running_of_project(p: u64) -> spec_fn(Activity) -> bool {
    |a: Activity| a.project == p && a.end is None
}

/// The repos of project `p`.
pub open spec fn repo_of_project(p: u64) -> spec_fn(Repo) -> bool {
    |rp: Repo| rp.project == p
}

/// The repos recorded at `path`.
pub open spec fn repo_at_path(path: Seq<char>) -> spec_fn(Repo) -> bool {
    |rp: Repo| rp.path@ == path
}

/// The counts of repository `rid`.
pub open spec fn count_of_repo(rid: u64) -> spec_fn(Count) -> bool {
    |c: Count| c.repo == rid
}

/// Filtering keeps a strictly increasing key order.
proof fn lemma_filter_keeps_order<A>(s: Seq<A>, pred: spec_fn(A) -> bool, key: spec_fn(A) -> u64)
    requires
        forall|i: int, j: int| 0 <= i < j < s.len() ==> #[trigger] key(s[i]) < #[trigger] key(s[j]),
    ensures
        forall|i: int, j: int|
            0 <= i < j < s.filter(pred).len() ==> #[trigger] key(s.filter(pred)[i])
                < #[trigger] key(s.filter(pred)[j]),
        forall|i: int|
            0 <= i < s.filter(pred).len() ==> exists|j: int|
                0 <= j < s.len() && s[j] == #[trigger] s.filter(pred)[i],
    decreases s.len(),
{
    reveal(Seq::filter);
    if s.len() > 0 {
        let dl = s.drop_last();
        lemma_filter_keeps_order(dl, pred, key);
        let fdl = dl.filter(pred);
        assert forall|i: int| 0 <= i < fdl.len() implies #[trigger] key(fdl[i]) < key(
            s.last(),
        ) by {
            let j = choose|j: int| 0 <= j < dl.len() && dl[j] == fdl[i];
            assert(key(s[j]) < key(s[s.len() - 1]));
        }
        assert forall|i: int| 0 <= i < s.filter(pred).len() implies exists|j: int|
            0 <= j < s.len() && s[j] == #[trigger] s.filter(pred)[i] by {
            if i < fdl.len() {
                let j = choose|j: int| 0 <= j < dl.len() && dl[j] == fdl[i];
                assert(s[j] == s.filter(pred)[i]);
            } else {
                assert(s.filter(pred)[i] == s.last());
                assert(s[s.len() - 1] == s.filter(pred)[i]);
            }
        }
    }
}

/// A filtered listing of a table's rows by project lists that project's
/// rows: what `lists_activities` gives for the whole table carries over to
/// the project's own activities.
proof fn lemma_filtered_lists_activities(
    v: Seq<Activity>,
    m: Map<u64, (u64, u64, Option<Seq<char>>, u64, Option<u64>)>,
    p: u64,
)
    requires
        store::lists_activities(v, m),
    ensures
        lists_project_activities(v.filter(activity_of_project(p)), m, p),
{
    let pred = activity_of_project(p);
    let f = v.filter(pred);
    let key = (|a: Activity| a.id);
    lemma_filter_keeps_order(v, pred, key);
    assert forall|i: int, j: int| 0 <= i < j < f.len() implies #[trigger] f[i].id
        < #[trigger] f[j].id by {
        assert(key(f[i]) < key(f[j]));
    }
    assert forall|i: int| 0 <= i < f.len() implies m.contains_pair(#[trigger] f[i].id, f[i].row())
        && f[i].project == p by {
        v.lemma_filter_pred(pred, i);
        let j = choose|j: int| 0 <= j < v.len() && v[j] == f[i];
        assert(m.contains_pair(v[j].id, v[j].row()));
    }
    assert forall|id: u64| #[trigger] m.dom().contains(id) && m[id].0 == p implies exists|i: int|
        0 <= i < f.len() && #[trigger] f[i].id == id by {
        let j = choose|j: int| 0 <= j < v.len() && #[trigger] v[j].id == id;
        assert(m.contains_pair(v[j].id, v[j].row()));
        assert(pred(v[j]));
        v.lemma_filter_contains(pred, j);
        let i = choose|i: int| 0 <= i < f.len() && f[i] == v[j];
        assert(f[i].id == id);
    }
}

/// See `lemma_filtered_lists_activities`, for repos.
proof fn lemma_filtered_lists_repos(v: Seq<Repo>, m: Map<u64, (u64, Seq<char>)>, p: u64)
    requires
        store::lists_repos(v, m),
    ensures
        lists_project_repos(v.filter(repo_of_project(p)), m, p),
{
    let pred = repo_of_project(p);
    let f = v.filter(pred);
    let key = (|rp: Repo| rp.id);
    lemma_filter_keeps_order(v, pred, key);
    assert forall|i: int, j: int| 0 <= i < j < f.len() implies #[trigger] f[i].id
        < #[trigger] f[j].id by {
        assert(key(f[i]) < key(f[j]));
    }
    assert forall|i: int| 0 <= i < f.len() implies m.contains_pair(#[trigger] f[i].id, f[i].row())
        && f[i].project == p by {
        v.lemma_filter_pred(pred, i);
        let j = choose|j: int| 0 <= j < v.len() && v[j] == f[i];
        assert(m.contains_pair(v[j].id, v[j].row()));
    }
    assert forall|id: u64| #[trigger] m.dom().contains(id) && m[id].0 == p implies exists|i: int|
        0 <= i < f.len() && #[trigger] f[i].id == id by {
        let j = choose|j: int| 0 <= j < v.len() && #[trigger] v[j].id == id;
        assert(m.contains_pair(v[j].id, v[j].row()));
        assert(pred(v[j]));
        v.lemma_filter_contains(pred, j);
        let i = choose|i: int| 0 <= i < f.len() && f[i] == v[j];
        assert(f[i].id == id);
    }
}

/// See `lemma_filtered_lists_activities`, for counts.
proof fn lemma_filtered_lists_counts(v: Seq<Count>, m: Map<u64, (u64, u64, u64)>, rid: u64)
    requires
        store::lists_counts(v, m),
    ensures
        lists_repo_counts(v.filter(count_of_repo(rid)), m, rid),
{
    let pred = count_of_repo(rid);
    let f = v.filter(pred);
    let key = (|c: Count| c.id);
    lemma_filter_keeps_order(v, pred, key);
    assert forall|i: int, j: int| 0 <= i < j < f.len() implies #[trigger] f[i].id
        < #[trigger] f[j].id by {
        assert(key(f[i]) < key(f[j]));
    }
    assert forall|i: int| 0 <= i < f.len() implies m.contains_pair(#[trigger] f[i].id, f[i].row())
        && f[i].repo == rid by {
        v.lemma_filter_pred(pred, i);
        let j = choose|j: int| 0 <= j < v.len() && v[j] == f[i];
        assert(m.contains_pair(v[j].id, v[j].row()));
    }
    assert forall|id: u64| #[trigger] m.dom().contains(id) && m[id].0 == rid implies exists|i: int|
        0 <= i < f.len() && #[trigger] f[i].id == id by {
        let j = choose|j: int| 0 <= j < v.len() && #[trigger] v[j].id == id;
        assert(m.contains_pair(v[j].id, v[j].row()));
        assert(pred(v[j]));
        v.lemma_filter_contains(pred, j);
        let i = choose|i: int| 0 <= i < f.len() && f[i] == v[j];
        assert(f[i].id == id);
    }
}

/// A copy of an activity, equal to the value it copies.
fn clone_activity(a: &Activity) -> (r: Activity)
    ensures
        r == *a,
{
    Activity {
        id: a.id,
        project: a.project,
        atype: a.atype,
        description: clone_opt_string(&a.description),
        start: a.start,
        end: a.end,
    }
}

/// Is any element of `v` a running activity of project `p`?
fn any_running_for(v: &Vec<Activity>, p: u64) -> (r: bool)
    ensures
        r <==> exists|i: int|
            0 <= i < v@.len() && (#[trigger] v@[i].project) == p && v@[i].end is None,
{
    let mut i: usize = 0;
    while i < v.len()
        invariant
            0 <= i <= v@.len(),
            forall|j: int|
                0 <= j < i ==> !((#[trigger] v@[j].project) == p && v@[j].end is None),
        decreases v@.len() - i,
    {
        if v[i].project == p && v[i].end.is_none() {
            return true;
        }
        i = i + 1;
    }
    false
}
/// Returns a copy of the single running activity of project `p` in `v`, or
/// `None` when there is none or more than one.
#[verifier::rlimit(60)]
fn unique_running_for(v: &Vec<Activity>, p: u64) -> (r: Option<Activity>)
    ensures
        r matches Some(a) ==> v@.filter(running_of_project(p)).len() == 1 && v@.filter(
            running_of_project(p),
        )[0] == a,
        r is None ==> v@.filter(running_of_project(p)).len() != 1,
{
    let ghost pred = running_of_project(p);
    let mut found: Option<Activity> = None;
    let mut dup: bool = false;
    let mut i: usize = 0;
    proof {
        reveal(Seq::filter);
        assert(v@.take(0).filter(pred) =~= Seq::<Activity>::empty());
    }
    while i < v.len()
        invariant
            0 <= i <= v@.len(),
            pred == running_of_project(p),
            found is None ==> v@.take(i as int).filter(pred).len() == 0,
            found matches Some(a) ==> v@.take(i as int).filter(pred).len() >= 1 && v@.take(
                i as int,
            ).filter(pred)[0] == a,
            dup <==> v@.take(i as int).filter(pred).len() >= 2,
        decreases v@.len() - i,
    {
        proof {
            reveal(Seq::filter);
            assert(v@.take(i as int + 1).drop_last() =~= v@.take(i as int));
            assert(v@.take(i as int + 1).last() == v@[i as int]);
        }
        if v[i].project == p && v[i].end.is_none() {
            if found.is_none() {
                found = Some(clone_activity(&v[i]));
            } else {
                dup = true;
            }
        }
        i = i + 1;
    }
    proof {
        assert(v@.take(v@.len() as int) =~= v@);
    }
    if dup {
        None
    } else {
        found
    }
}
/// Bridges the filter-level contract of `unique_running_for` to the table
/// map.
#[verifier::rlimit(60)]
proof fn lemma_unique_running_to_map(
    m: Map<u64, (u64, u64, Option<Seq<char>>, u64, Option<u64>)>,
    v: Seq<Activity>,
    p: u64,
    r: Option<Activity>,
)
    requires
        store::lists_activities(v, m),
        r matches Some(a) ==> v.filter(running_of_project(p)).len() == 1 && v.filter(
            running_of_project(p),
        )[0] == a,
        r is None ==> v.filter(running_of_project(p)).len() != 1,
    ensures
        r matches Some(a) ==> exactly_one_running(m, p, a.id) && m[a.id] == a.row(),
        r is None ==> !exists|id: u64| exactly_one_running(m, p, id),
{
    let pred = running_of_project(p);
    let runs = v.filter(pred);
    let key = (|a: Activity| a.id);
    lemma_filter_keeps_order(v, pred, key);
    match r {
        Some(a) => {
            v.lemma_filter_pred(pred, 0);
            let j0 = choose|j: int| 0 <= j < v.len() && v[j] == runs[0];
            assert(m.contains_pair(v[j0].id, v[j0].row()));
            assert(m.contains_pair(a.id, a.row()));
            assert forall|j: u64|
                m.dom().contains(j) && m[j].0 == p && m[j].4 is None implies j == a.id by {
                let k = choose|k: int| 0 <= k < v.len() && #[trigger] v[k].id == j;
                assert(m.contains_pair(v[k].id, v[k].row()));
                assert(pred(v[k]));
                v.lemma_filter_contains(pred, k);
                let l = choose|l: int| 0 <= l < runs.len() && runs[l] == v[k];
                assert(runs[0] == v[k]);
            }
        }
        None => {
            if runs.len() == 0 {
                assert forall|id: u64| !exactly_one_running(m, p, id) by {
                    if m.dom().contains(id) && m[id].0 == p && m[id].4 is None {
                        let k = choose|k: int| 0 <= k < v.len() && #[trigger] v[k].id == id;
                        assert(m.contains_pair(v[k].id, v[k].row()));
                        assert(pred(v[k]));
                        v.lemma_filter_contains(pred, k);
                        let l = choose|l: int| 0 <= l < runs.len() && runs[l] == v[k];
                    }
                }
            } else {
                assert(runs.len() >= 2);
                v.lemma_filter_pred(pred, 0);
                v.lemma_filter_pred(pred, 1);
                let j0 = choose|j: int| 0 <= j < v.len() && v[j] == runs[0];
                let j1 = choose|j: int| 0 <= j < v.len() && v[j] == runs[1];
                assert(m.contains_pair(v[j0].id, v[j0].row()));
                assert(m.contains_pair(v[j1].id, v[j1].row()));
                assert(key(runs[0]) < key(runs[1]));
                assert(runs[0].id != runs[1].id);
                assert forall|id: u64| !exactly_one_running(m, p, id) by {
                    if exactly_one_running(m, p, id) {
                        assert(m[runs[0].id] == v[j0].row());
                        assert(m[runs[1].id] == v[j1].row());
                        assert(runs[0].id == id);
                        assert(runs[1].id == id);
                    }
                }
            }
        }
    }
}
/// Returns copies of the elements of `v` whose project is `p`, keeping
/// their order.
#[verifier::rlimit(60)]
fn activities_with_project(v: &Vec<Activity>, p: u64) -> (f: Vec<Activity>)
    ensures
        f@ == v@.filter(activity_of_project(p)),
{
    let ghost pred = activity_of_project(p);
    let mut f: Vec<Activity> = Vec::new();
    let mut i: usize = 0;
    proof {
        reveal(Seq::filter);
        assert(v@.take(0).filter(pred) =~= f@);
    }
    while i < v.len()
        invariant
            0 <= i <= v@.len(),
            pred == activity_of_project(p),
            f@ == v@.take(i as int).filter(pred),
        decreases v@.len() - i,
    {
        proof {
            reveal(Seq::filter);
            assert(v@.take(i as int + 1).drop_last() =~= v@.take(i as int));
            assert(v@.take(i as int + 1).last() == v@[i as int]);
        }
        if v[i].project == p {
            f.push(clone_activity(&v[i]));
        }
        i = i + 1;
    }
    proof {
        assert(v@.take(v@.len() as int) =~= v@);
    }
    f
}

impl DataStore {
    /// Starts a new running activity on `project` with type `at`, failing
    /// when the project or the type does not resolve or the project already
    /// has a running activity.
    pub fn start_activity(
        &mut self,
        project: &Project,
        at: &ActivityType,
        description: Option<String>,
    ) -> (r: Result<Activity, DtError>)
        ensures
            r matches Ok(a) ==> {
                &&& old(self).projects().dom().contains(project.id)
                &&& !some_running(old(self).activities(), project.id)
                &&& old(self).atypes().dom().contains(at.id)
                &&& a.id >= 1
                &&& !old(self).activities().dom().contains(a.id)
                &&& a.project == project.id
                &&& a.atype == at.id
                &&& a.description == description
                &&& a.end is None
                &&& final(self).activities() == old(self).activities().insert(a.id, a.row())
                &&& only_activities_changed(old(self), final(self))
            },
            r matches Err(DtError::ProjectNotFound(s)) ==> {
                &&& s@ == dec_str(project.id as nat)
                &&& !old(self).projects().dom().contains(project.id)
                &&& unchanged(old(self), final(self))
            },
            r matches Err(DtError::RunningActivityAlreadyExists(s)) ==> {
                &&& s@ == dec_str(project.id as nat)
                &&& old(self).projects().dom().contains(project.id)
                &&& some_running(old(self).activities(), project.id)
                &&& unchanged(old(self), final(self))
            },
            r matches Err(DtError::ActivityTypeNotFound(s)) ==> {
                &&& s@ == dec_str(at.id as nat)
                &&& old(self).projects().dom().contains(project.id)
                &&& !some_running(old(self).activities(), project.id)
                &&& !old(self).atypes().dom().contains(at.id)
                &&& unchanged(old(self), final(self))
            },
            r matches Err(DtError::Rusqlite(_)) ==> unchanged(old(self), final(self)),
            r is Err ==> (r matches Err(DtError::ProjectNotFound(_)) || r matches Err(
                DtError::RunningActivityAlreadyExists(_),
            ) || r matches Err(DtError::ActivityTypeNotFound(_)) || r matches Err(
                DtError::Rusqlite(_),
            )),
    {
        let projects = match store::select_projects(&self.conn) {
            Ok(v) => v,
            Err(e) => {
                return Err(DtError::Rusqlite(e));
            }
        };
        if find_project(&projects, project.id).is_none() {
            proof {
                if self.projects().dom().contains(project.id) {
                    assert(exists|i: int| 0 <= i < projects@.len() && projects@[i].id
                        == project.id);
                }
            }
            return Err(DtError::ProjectNotFound(u64_to_string(project.id)));
        }
        let acts = match store::select_activities(&self.conn) {
            Ok(v) => v,
            Err(e) => {
                return Err(DtError::Rusqlite(e));
            }
        };
        if any_running_for(&acts, project.id) {
            proof {
                let i = choose|i: int|
                    0 <= i < acts@.len() && (#[trigger] acts@[i].project) == project.id
                        && acts@[i].end is None;
                assert(self.activities().contains_pair(acts@[i].id, acts@[i].row()));
            }
            return Err(DtError::RunningActivityAlreadyExists(u64_to_string(project.id)));
        }
        proof {
            if some_running(self.activities(), project.id) {
                let id = choose|id: u64|
                    #[trigger] self.activities().dom().contains(id) && self.activities()[id].0
                        == project.id && self.activities()[id].4 is None;
                let i = choose|i: int| 0 <= i < acts@.len() && acts@[i].id == id;
                assert(self.activities().contains_pair(acts@[i].id, acts@[i].row()));
                assert(acts@[i].project == project.id && acts@[i].end is None);
            }
        }
        let ats = match store::select_atypes(&self.conn) {
            Ok(v) => v,
            Err(e) => {
                return Err(DtError::Rusqlite(e));
            }
        };
        if find_activitytype(&ats, at.id).is_none() {
            proof {
                if self.atypes().dom().contains(at.id) {
                    assert(exists|i: int| 0 <= i < ats@.len() && ats@[i].id == at.id);
                }
            }
            return Err(DtError::ActivityTypeNotFound(u64_to_string(at.id)));
        }
        let mut a = Activity::new(project.id, at.id, description);
        match store::insert_activity_row(
            &mut self.conn,
            a.project,
            a.atype,
            &a.description,
            a.start,
        ) {
            Ok(id) => {
                a.id = id;
                Ok(a)
            }
            Err(e) => Err(DtError::Rusqlite(e)),
        }
    }

    /// Returns the single running activity of `project`, or `None` when
    /// there is none (or, defensively, more than one).
    pub fn get_running_activity(&self, project: &Project) -> (r: Result<Option<Activity>, DtError>)
        ensures
            r matches Ok(Some(a)) ==> {
                &&& self.projects().dom().contains(project.id)
                &&& exactly_one_running(self.activities(), project.id, a.id)
                &&& self.activities()[a.id] == a.row()
                &&& a.project == project.id
                &&& a.end is None
            },
            r matches Ok(None) ==> {
                &&& self.projects().dom().contains(project.id)
                &&& !exists|id: u64| exactly_one_running(self.activities(), project.id, id)
            },
            r matches Err(DtError::ProjectNotFound(s)) ==> {
                &&& s@ == dec_str(project.id as nat)
                &&& !self.projects().dom().contains(project.id)
            },
            r is Err ==> (r matches Err(DtError::ProjectNotFound(_)) || r matches Err(
                DtError::Rusqlite(_),
            )),
    {
        let projects = match store::select_projects(&self.conn) {
            Ok(v) => v,
            Err(e) => {
                return Err(DtError::Rusqlite(e));
            }
        };
        if find_project(&projects, project.id).is_none() {
            proof {
                if self.projects().dom().contains(project.id) {
                    assert(exists|i: int| 0 <= i < projects@.len() && projects@[i].id
                        == project.id);
                }
            }
            return Err(DtError::ProjectNotFound(u64_to_string(project.id)));
        }
        let acts = match store::select_activities(&self.conn) {
            Ok(v) => v,
            Err(e) => {
                return Err(DtError::Rusqlite(e));
            }
        };
        let r = unique_running_for(&acts, project.id);
        proof {
            lemma_unique_running_to_map(self.activities(), acts@, project.id, r);
        }
        Ok(r)
    }

    /// Stops the single running activity of `project` at the current clock
    /// reading (never before its start) and returns it; returns `None` as a
    /// no-op signal when no single running activity exists.
    pub fn stop_running_activity(&mut self, project: &Project) -> (r: Result<
        Option<Activity>,
        DtError,
    >)
        ensures
            r matches Ok(Some(a)) ==> {
                &&& old(self).projects().dom().contains(project.id)
                &&& exactly_one_running(old(self).activities(), project.id, a.id)
                &&& a.project == project.id
                &&& a.end matches Some(e) && e >= a.start
                &&& old(self).activities()[a.id] == (
                    a.project,
                    a.atype,
                    a.description.deep_view(),
                    a.start,
                    None::<u64>,
                )
                &&& final(self).activities() == old(self).activities().insert(a.id, a.row())
                &&& only_activities_changed(old(self), final(self))
            },
            r matches Ok(None) ==> {
                &&& old(self).projects().dom().contains(project.id)
                &&& !exists|id: u64| exactly_one_running(old(self).activities(), project.id, id)
                &&& unchanged(old(self), final(self))
            },
            r matches Err(DtError::ProjectNotFound(s)) ==> {
                &&& s@ == dec_str(project.id as nat)
                &&& !old(self).projects().dom().contains(project.id)
                &&& unchanged(old(self), final(self))
            },
            r matches Err(DtError::Rusqlite(_)) ==> unchanged(old(self), final(self)),
            r is Err ==> (r matches Err(DtError::ProjectNotFound(_)) || r matches Err(
                DtError::Rusqlite(_),
            )),
    {
        let projects = match store::select_projects(&self.conn) {
            Ok(v) => v,
            Err(e) => {
                return Err(DtError::Rusqlite(e));
            }
        };
        if find_project(&projects, project.id).is_none() {
            proof {
                if self.projects().dom().contains(project.id) {
                    assert(exists|i: int| 0 <= i < projects@.len() && projects@[i].id
                        == project.id);
                }
            }
            return Err(DtError::ProjectNotFound(u64_to_string(project.id)));
        }
        let acts = match store::select_activities(&self.conn) {
            Ok(v) => v,
            Err(e) => {
                return Err(DtError::Rusqlite(e));
            }
        };
        let found = unique_running_for(&acts, project.id);
        proof {
            lemma_unique_running_to_map(self.activities(), acts@, project.id, found);
        }
        let mut a = match found {
            Some(a) => a,
            None => {
                return Ok(None);
            }
        };
        let now = store::now_unix();
        let e = if now >= a.start {
            now
        } else {
            a.start
        };
        match store::update_activity_row(
            &mut self.conn,
            a.id,
            a.project,
            a.atype,
            &a.description,
            a.start,
            Some(e),
        ) {
            Ok(()) => {
                a.end = Some(e);
                Ok(Some(a))
            }
            Err(e) => Err(DtError::Rusqlite(e)),
        }
    }

    /// Cancels the running activity of `project`: the session is stopped
    /// and its row deleted, so it does not count as recorded work.  A no-op
    /// when no single running activity exists.
    pub fn cancel_running_actvity(&mut self, project: &Project) -> (r: Result<(), DtError>)
        ensures
            r is Ok ==> {
                &&& old(self).projects().dom().contains(project.id)
                &&& (exists|aid: u64|
                    #[trigger] exactly_one_running(old(self).activities(), project.id, aid)
                        && final(self).activities() == old(self).activities().remove(aid)) || (!(
                exists|aid: u64| exactly_one_running(old(self).activities(), project.id, aid))
                    && final(self).activities() == old(self).activities())
                &&& only_activities_changed(old(self), final(self))
            },
            r matches Err(DtError::ProjectNotFound(s)) ==> {
                &&& s@ == dec_str(project.id as nat)
                &&& !old(self).projects().dom().contains(project.id)
                &&& unchanged(old(self), final(self))
            },
            r is Err ==> (r matches Err(DtError::ProjectNotFound(_)) || r matches Err(
                DtError::Rusqlite(_),
            )),
    {
        let stopped = match self.stop_running_activity(project) {
            Ok(a) => a,
            Err(e) => {
                return Err(e);
            }
        };
        let a = match stopped {
            Some(a) => a,
            None => {
                return Ok(());
            }
        };
        let ghost pre = old(self).activities();
        match store::delete_activity_row(&mut self.conn, a.id) {
            Ok(()) => {
                proof {
                    assert(pre.insert(a.id, a.row()).remove(a.id) =~= pre.remove(a.id));
                }
                Ok(())
            }
            Err(e) => Err(DtError::Rusqlite(e)),
        }
    }

    /// Returns the activity with id `id`, if one is there.
    pub fn get_activity_with_id(&self, id: u64) -> (r: Result<Option<Activity>, DtError>)
        ensures
            r matches Ok(Some(a)) ==> a.id == id && self.activities().contains_pair(id, a.row()),
            r matches Ok(None) ==> !self.activities().dom().contains(id),
            r is Err ==> r matches Err(DtError::Rusqlite(_)),
    {
        let v = match store::select_activities(&self.conn) {
            Ok(v) => v,
            Err(e) => {
                return Err(DtError::Rusqlite(e));
            }
        };
        match find_activity(&v, id) {
            Some(a) => Ok(Some(clone_activity(a))),
            None => {
                proof {
                    if self.activities().dom().contains(id) {
                        assert(exists|i: int| 0 <= i < v@.len() && v@[i].id == id);
                    }
                }
                Ok(None)
            }
        }
    }

    /// Re-verifies that the activity exists, then deletes its row.
    pub fn delete_activity(&mut self, activity: Activity) -> (r: Result<(), DtError>)
        ensures
            r is Ok ==> {
                &&& old(self).activities().dom().contains(activity.id)
                &&& final(self).activities() == old(self).activities().remove(activity.id)
                &&& only_activities_changed(old(self), final(self))
            },
            r matches Err(DtError::ActivityNotFound(s)) ==> {
                &&& s@ == dec_str(activity.id as nat)
                &&& !old(self).activities().dom().contains(activity.id)
                &&& unchanged(old(self), final(self))
            },
            r matches Err(DtError::Rusqlite(_)) ==> unchanged(old(self), final(self)),
            r is Err ==> (r matches Err(DtError::ActivityNotFound(_)) || r matches Err(
                DtError::Rusqlite(_),
            )),
    {
        let v = match store::select_activities(&self.conn) {
            Ok(v) => v,
            Err(e) => {
                return Err(DtError::Rusqlite(e));
            }
        };
        if find_activity(&v, activity.id).is_none() {
            proof {
                if self.activities().dom().contains(activity.id) {
                    assert(exists|i: int| 0 <= i < v@.len() && v@[i].id == activity.id);
                }
            }
            return Err(DtError::ActivityNotFound(u64_to_string(activity.id)));
        }
        match store::delete_activity_row(&mut self.conn, activity.id) {
            Ok(()) => Ok(()),
            Err(e) => Err(DtError::Rusqlite(e)),
        }
    }

    /// Re-verifies that the activity exists, then persists the passed
    /// fields.
    pub fn update_activity(&mut self, activity: &Activity) -> (r: Result<(), DtError>)
        ensures
            r is Ok ==> {
                &&& old(self).activities().dom().contains(activity.id)
                &&& final(self).activities() == old(self).activities().insert(
                    activity.id,
                    activity.row(),
                )
                &&& only_activities_changed(old(self), final(self))
            },
            r matches Err(DtError::ActivityNotFound(s)) ==> {
                &&& s@ == dec_str(activity.id as nat)
                &&& !old(self).activities().dom().contains(activity.id)
                &&& unchanged(old(self), final(self))
            },
            r matches Err(DtError::Rusqlite(_)) ==> unchanged(old(self), final(self)),
            r is Err ==> (r matches Err(DtError::ActivityNotFound(_)) || r matches Err(
                DtError::Rusqlite(_),
            )),
    {
        let v = match store::select_activities(&self.conn) {
            Ok(v) => v,
            Err(e) => {
                return Err(DtError::Rusqlite(e));
            }
        };
        if find_activity(&v, activity.id).is_none() {
            proof {
                if self.activities().dom().contains(activity.id) {
                    assert(exists|i: int| 0 <= i < v@.len() && v@[i].id == activity.id);
                }
            }
            return Err(DtError::ActivityNotFound(u64_to_string(activity.id)));
        }
        match store::update_activity_row(
            &mut self.conn,
            activity.id,
            activity.project,
            activity.atype,
            &activity.description,
            activity.start,
            activity.end,
        ) {
            Ok(()) => Ok(()),
            Err(e) => Err(DtError::Rusqlite(e)),
        }
    }

    /// Returns all activities of `project`, in ascending id order.
    #[verifier::rlimit(100)]
    pub fn get_activities(&self, project: &Project) -> (r: Result<Vec<Activity>, DtError>)
        ensures
            r matches Ok(v) ==> {
                &&& self.projects().dom().contains(project.id)
                &&& lists_project_activities(v@, self.activities(), project.id)
            },
            r matches Err(DtError::ProjectNotFound(s)) ==> {
                &&& s@ == dec_str(project.id as nat)
                &&& !self.projects().dom().contains(project.id)
            },
            r is Err ==> (r matches Err(DtError::ProjectNotFound(_)) || r matches Err(
                DtError::Rusqlite(_),
            )),
    {
        let projects = match store::select_projects(&self.conn) {
            Ok(v) => v,
            Err(e) => {
                return Err(DtError::Rusqlite(e));
            }
        };
        if find_project(&projects, project.id).is_none() {
            proof {
                if self.projects().dom().contains(project.id) {
                    assert(exists|i: int| 0 <= i < projects@.len() && projects@[i].id
                        == project.id);
                }
            }
            return Err(DtError::ProjectNotFound(u64_to_string(project.id)));
        }
        let acts = match store::select_activities(&self.conn) {
            Ok(v) => v,
            Err(e) => {
                return Err(DtError::Rusqlite(e));
            }
        };
        let f = activities_with_project(&acts, project.id);
        proof {
            lemma_filtered_lists_activities(acts@, self.activities(), project.id);
        }
        Ok(f)
    }
}

// ---------------------------------------------------------------------------
// targeted activity updates
// ---------------------------------------------------------------------------

impl DataStore {
    /// Sets the end time of the activity `id`, failing when the activity
    /// does not resolve or the new end would precede its start; a rejected
    /// update leaves the row untouched.
    pub fn update_activity_end(&mut self, id: u64, end: u64) -> (r: Result<(), DtError>)
        ensures
            r is Ok ==> {
                &&& old(self).activities().dom().contains(id)
                &&& end >= old(self).activities()[id].3
                &&& final(self).activities() == old(self).activities().insert(
                    id,
                    (
                        old(self).activities()[id].0,
                        old(self).activities()[id].1,
                        old(self).activities()[id].2,
                        old(self).activities()[id].3,
                        Some(end),
                    ),
                )
                &&& only_activities_changed(old(self), final(self))
            },
            r matches Err(DtError::ActivityNotFound(s)) ==> {
                &&& s@ == dec_str(id as nat)
                &&& !old(self).activities().dom().contains(id)
                &&& unchanged(old(self), final(self))
            },
            r matches Err(DtError::InvalidState(s)) ==> {
                &&& s@ == dec_str(id as nat)
                &&& old(self).activities().dom().contains(id)
                &&& end < old(self).activities()[id].3
                &&& unchanged(old(self), final(self))
            },
            r matches Err(DtError::Rusqlite(_)) ==> unchanged(old(self), final(self)),
            r is Err ==> (r matches Err(DtError::ActivityNotFound(_)) || r matches Err(
                DtError::InvalidState(_),
            ) || r matches Err(DtError::Rusqlite(_))),
    {
        let v = match store::select_activities(&self.conn) {
            Ok(v) => v,
            Err(e) => {
                return Err(DtError::Rusqlite(e));
            }
        };
        let a = match find_activity(&v, id) {
            Some(a) => a,
            None => {
                proof {
                    if self.activities().dom().contains(id) {
                        assert(exists|i: int| 0 <= i < v@.len() && v@[i].id == id);
                    }
                }
                return Err(DtError::ActivityNotFound(u64_to_string(id)));
            }
        };
        proof {
            let i = choose|i: int| 0 <= i < v@.len() && v@[i] == *a && a.id == id;
            assert(self.activities().contains_pair(v@[i].id, v@[i].row()));
        }
        if end < a.start {
            return Err(DtError::InvalidState(u64_to_string(id)));
        }
        match store::update_activity_row(
            &mut self.conn,
            id,
            a.project,
            a.atype,
            &a.description,
            a.start,
            Some(end),
        ) {
            Ok(()) => Ok(()),
            Err(e) => Err(DtError::Rusqlite(e)),
        }
    }

    /// Sets the description of the activity `id`, failing when the activity
    /// does not resolve.
    pub fn update_activity_description(&mut self, id: u64, description: Option<String>) -> (r:
        Result<(), DtError>)
        ensures
            r is Ok ==> {
                &&& old(self).activities().dom().contains(id)
                &&& final(self).activities() == old(self).activities().insert(
                    id,
                    (
                        old(self).activities()[id].0,
                        old(self).activities()[id].1,
                        description.deep_view(),
                        old(self).activities()[id].3,
                        old(self).activities()[id].4,
                    ),
                )
                &&& only_activities_changed(old(self), final(self))
            },
            r matches Err(DtError::ActivityNotFound(s)) ==> {
                &&& s@ == dec_str(id as nat)
                &&& !old(self).activities().dom().contains(id)
                &&& unchanged(old(self), final(self))
            },
            r matches Err(DtError::Rusqlite(_)) ==> unchanged(old(self), final(self)),
            r is Err ==> (r matches Err(DtError::ActivityNotFound(_)) || r matches Err(
                DtError::Rusqlite(_),
            )),
    {
        let v = match store::select_activities(&self.conn) {
            Ok(v) => v,
            Err(e) => {
                return Err(DtError::Rusqlite(e));
            }
        };
        let a = match find_activity(&v, id) {
            Some(a) => a,
            None => {
                proof {
                    if self.activities().dom().contains(id) {
                        assert(exists|i: int| 0 <= i < v@.len() && v@[i].id == id);
                    }
                }
                return Err(DtError::ActivityNotFound(u64_to_string(id)));
            }
        };
        proof {
            let i = choose|i: int| 0 <= i < v@.len() && v@[i] == *a && a.id == id;
            assert(self.activities().contains_pair(v@[i].id, v@[i].row()));
        }
        match store::update_activity_row(
            &mut self.conn,
            id,
            a.project,
            a.atype,
            &description,
            a.start,
            a.end,
        ) {
            Ok(()) => Ok(()),
            Err(e) => Err(DtError::Rusqlite(e)),
        }
    }

    /// Re-points the activity `id` to the activity type `atype`, failing
    /// when either does not resolve.
    pub fn update_activity_atype(&mut self, id: u64, atype: u64) -> (r: Result<(), DtError>)
        ensures
            r is Ok ==> {
                &&& old(self).activities().dom().contains(id)
                &&& old(self).atypes().dom().contains(atype)
                &&& final(self).activities() == old(self).activities().insert(
                    id,
                    (
                        old(self).activities()[id].0,
                        atype,
                        old(self).activities()[id].2,
                        old(self).activities()[id].3,
                        old(self).activities()[id].4,
                    ),
                )
                &&& only_activities_changed(old(self), final(self))
            },
            r matches Err(DtError::ActivityNotFound(s)) ==> {
                &&& s@ == dec_str(id as nat)
                &&& !old(self).activities().dom().contains(id)
                &&& unchanged(old(self), final(self))
            },
            r matches Err(DtError::ActivityTypeNotFound(s)) ==> {
                &&& s@ == dec_str(atype as nat)
                &&& old(self).activities().dom().contains(id)
                &&& !old(self).atypes().dom().contains(atype)
                &&& unchanged(old(self), final(self))
            },
            r matches Err(DtError::Rusqlite(_)) ==> unchanged(old(self), final(self)),
            r is Err ==> (r matches Err(DtError::ActivityNotFound(_)) || r matches Err(
                DtError::ActivityTypeNotFound(_),
            ) || r matches Err(DtError::Rusqlite(_))),
    {
        let v = match store::select_activities(&self.conn) {
            Ok(v) => v,
            Err(e) => {
                return Err(DtError::Rusqlite(e));
            }
        };
        let a = match find_activity(&v, id) {
            Some(a) => a,
            None => {
                proof {
                    if self.activities().dom().contains(id) {
                        assert(exists|i: int| 0 <= i < v@.len() && v@[i].id == id);
                    }
                }
                return Err(DtError::ActivityNotFound(u64_to_string(id)));
            }
        };
        proof {
            let i = choose|i: int| 0 <= i < v@.len() && v@[i] == *a && a.id == id;
            assert(self.activities().contains_pair(v@[i].id, v@[i].row()));
        }
        let ats = match store::select_atypes(&self.conn) {
            Ok(v) => v,
            Err(e) => {
                return Err(DtError::Rusqlite(e));
            }
        };
        if find_activitytype(&ats, atype).is_none() {
            proof {
                if self.atypes().dom().contains(atype) {
                    assert(exists|i: int| 0 <= i < ats@.len() && ats@[i].id == atype);
                }
            }
            return Err(DtError::ActivityTypeNotFound(u64_to_string(atype)));
        }
        match store::update_activity_row(
            &mut self.conn,
            id,
            a.project,
            atype,
            &a.description,
            a.start,
            a.end,
        ) {
            Ok(()) => Ok(()),
            Err(e) => Err(DtError::Rusqlite(e)),
        }
    }

    /// Re-points the activity `id` to the project `project`, failing when
    /// either does not resolve.
    pub fn update_activity_project(&mut self, id: u64, project: u64) -> (r: Result<(), DtError>)
        ensures
            r is Ok ==> {
                &&& old(self).activities().dom().contains(id)
                &&& old(self).projects().dom().contains(project)
                &&& final(self).activities() == old(self).activities().insert(
                    id,
                    (
                        project,
                        old(self).activities()[id].1,
                        old(self).activities()[id].2,
                        old(self).activities()[id].3,
                        old(self).activities()[id].4,
                    ),
                )
                &&& only_activities_changed(old(self), final(self))
            },
            r matches Err(DtError::ActivityNotFound(s)) ==> {
                &&& s@ == dec_str(id as nat)
                &&& !old(self).activities().dom().contains(id)
                &&& unchanged(old(self), final(self))
            },
            r matches Err(DtError::ProjectNotFound(s)) ==> {
                &&& s@ == dec_str(project as nat)
                &&& old(self).activities().dom().contains(id)
                &&& !old(self).projects().dom().contains(project)
                &&& unchanged(old(self), final(self))
            },
            r matches Err(DtError::Rusqlite(_)) ==> unchanged(old(self), final(self)),
            r is Err ==> (r matches Err(DtError::ActivityNotFound(_)) || r matches Err(
                DtError::ProjectNotFound(_),
            ) || r matches Err(DtError::Rusqlite(_))),
    {
        let v = match store::select_activities(&self.conn) {
            Ok(v) => v,
            Err(e) => {
                return Err(DtError::Rusqlite(e));
            }
        };
        let a = match find_activity(&v, id) {
            Some(a) => a,
            None => {
                proof {
                    if self.activities().dom().contains(id) {
                        assert(exists|i: int| 0 <= i < v@.len() && v@[i].id == id);
                    }
                }
                return Err(DtError::ActivityNotFound(u64_to_string(id)));
            }
        };
        proof {
            let i = choose|i: int| 0 <= i < v@.len() && v@[i] == *a && a.id == id;
            assert(self.activities().contains_pair(v@[i].id, v@[i].row()));
        }
        let projects = match store::select_projects(&self.conn) {
            Ok(v) => v,
            Err(e) => {
                return Err(DtError::Rusqlite(e));
            }
        };
        if find_project(&projects, project).is_none() {
            proof {
                if self.projects().dom().contains(project) {
                    assert(exists|i: int| 0 <= i < projects@.len() && projects@[i].id == project);
                }
            }
            return Err(DtError::ProjectNotFound(u64_to_string(project)));
        }
        match store::update_activity_row(
            &mut self.conn,
            id,
            project,
            a.atype,
            &a.description,
            a.start,
            a.end,
        ) {
            Ok(()) => Ok(()),
            Err(e) => Err(DtError::Rusqlite(e)),
        }
    }
}

// ---------------------------------------------------------------------------
// repo operations
// ---------------------------------------------------------------------------

/// Exactly one repo row carries the path `path`, and its id is `id`.
pub open spec fn exactly_one_repo_at(
    m: Map<u64, (u64, Seq<char>)>,
    path: Seq<char>,
    id: u64,
) -> bool {
    &&& m.dom().contains(id)
    &&& m[id].1 == path
    &&& forall|j: u64| #[trigger] m.dom().contains(j) && m[j].1 == path ==> j == id
}

/// `v` lists exactly the repos of project `p` from the table `m`, in
/// ascending id order.
pub open spec fn lists_project_repos(v: Seq<Repo>, m: Map<u64, (u64, Seq<char>)>, p: u64) -> bool {
    &&& forall|i: int, j: int| 0 <= i < j < v.len() ==> #[trigger] v[i].id < #[trigger] v[j].id
    &&& forall|i: int|
        0 <= i < v.len() ==> m.contains_pair(#[trigger] v[i].id, v[i].row()) && v[i].project == p
    &&& forall|id: u64|
        #[trigger] m.dom().contains(id) && m[id].0 == p ==> exists|i: int|
            0 <= i < v.len() && #[trigger] v[i].id == id
}

/// All tables but `repos` hold what they held in `pre`.
pub open spec fn only_repos_changed(pre: &DataStore, post: &DataStore) -> bool {
    &&& post.projects() == pre.projects()
    &&& post.atypes() == pre.atypes()
    &&& post.activities() == pre.activities()
    &&& post.counts() == pre.counts()
}

/// All tables but `counts` hold what they held in `pre`.
pub open spec fn only_counts_changed(pre: &DataStore, post: &DataStore) -> bool {
    &&& post.projects() == pre.projects()
    &&& post.atypes() == pre.atypes()
    &&& post.repos() == pre.repos()
    &&& post.activities() == pre.activities()
}

/// All tables but `repos` and `counts` hold what they held in `pre`.
pub open spec fn only_repos_and_counts_changed(pre: &DataStore, post: &DataStore) -> bool {
    &&& post.projects() == pre.projects()
    &&& post.atypes() == pre.atypes()
    &&& post.activities() == pre.activities()
}

/// The keys of the counts of repository `rid` in the counts table `m`.
pub open spec fn count_keys_of_repo(m: Map<u64, (u64, u64, u64)>, rid: u64) -> Set<u64> {
    Set::new(|k: u64| m.dom().contains(k) && m[k].0 == rid)
}

/// A copy of a repo, equal to the value it copies.
fn clone_repo(r0: &Repo) -> (r: Repo)
    ensures
        r == *r0,
{
    Repo { id: r0.id, project: r0.project, path: r0.path.clone() }
}
/// Returns a copy of the single element of `v` at `path`, or `None` when
/// no element or more than one carries that path.
#[verifier::rlimit(60)]
fn unique_repo_at(v: &Vec<Repo>, path: &String) -> (r: Option<Repo>)
    ensures
        r matches Some(rp) ==> v@.filter(repo_at_path(path@)).len() == 1 && v@.filter(
            repo_at_path(path@),
        )[0] == rp,
        r is None ==> v@.filter(repo_at_path(path@)).len() != 1,
{
    let ghost pred = repo_at_path(path@);
    let mut found: Option<Repo> = None;
    let mut dup: bool = false;
    let mut i: usize = 0;
    proof {
        reveal(Seq::filter);
        assert(v@.take(0).filter(pred) =~= Seq::<Repo>::empty());
    }
    while i < v.len()
        invariant
            0 <= i <= v@.len(),
            pred == repo_at_path(path@),
            found is None ==> v@.take(i as int).filter(pred).len() == 0,
            found matches Some(rp) ==> v@.take(i as int).filter(pred).len() >= 1 && v@.take(
                i as int,
            ).filter(pred)[0] == rp,
            dup <==> v@.take(i as int).filter(pred).len() >= 2,
        decreases v@.len() - i,
    {
        proof {
            reveal(Seq::filter);
            assert(v@.take(i as int + 1).drop_last() =~= v@.take(i as int));
            assert(v@.take(i as int + 1).last() == v@[i as int]);
        }
        if v[i].path == *path {
            if found.is_none() {
                found = Some(clone_repo(&v[i]));
            } else {
                dup = true;
            }
        }
        i = i + 1;
    }
    proof {
        assert(v@.take(v@.len() as int) =~= v@);
    }
    if dup {
        None
    } else {
        found
    }
}
/// Bridges the filter-level contract of `unique_repo_at` to the table map.
#[verifier::rlimit(60)]
proof fn lemma_unique_repo_to_map(
    m: Map<u64, (u64, Seq<char>)>,
    v: Seq<Repo>,
    path: Seq<char>,
    r: Option<Repo>,
)
    requires
        store::lists_repos(v, m),
        r matches Some(rp) ==> v.filter(repo_at_path(path)).len() == 1 && v.filter(
            repo_at_path(path),
        )[0] == rp,
        r is None ==> v.filter(repo_at_path(path)).len() != 1,
    ensures
        r matches Some(rp) ==> exactly_one_repo_at(m, path, rp.id) && m[rp.id] == rp.row(),
        r is None ==> !exists|id: u64| exactly_one_repo_at(m, path, id),
{
    let pred = repo_at_path(path);
    let hits = v.filter(pred);
    let key = (|rp: Repo| rp.id);
    lemma_filter_keeps_order(v, pred, key);
    match r {
        Some(rp) => {
            v.lemma_filter_pred(pred, 0);
            let j0 = choose|j: int| 0 <= j < v.len() && v[j] == hits[0];
            assert(m.contains_pair(v[j0].id, v[j0].row()));
            assert(m.contains_pair(rp.id, rp.row()));
            assert forall|j: u64| m.dom().contains(j) && m[j].1 == path implies j == rp.id by {
                let k = choose|k: int| 0 <= k < v.len() && #[trigger] v[k].id == j;
                assert(m.contains_pair(v[k].id, v[k].row()));
                assert(pred(v[k]));
                v.lemma_filter_contains(pred, k);
                let l = choose|l: int| 0 <= l < hits.len() && hits[l] == v[k];
                assert(hits[0] == v[k]);
            }
        }
        None => {
            if hits.len() == 0 {
                assert forall|id: u64| !exactly_one_repo_at(m, path, id) by {
                    if m.dom().contains(id) && m[id].1 == path {
                        let k = choose|k: int| 0 <= k < v.len() && #[trigger] v[k].id == id;
                        assert(m.contains_pair(v[k].id, v[k].row()));
                        assert(pred(v[k]));
                        v.lemma_filter_contains(pred, k);
                        let l = choose|l: int| 0 <= l < hits.len() && hits[l] == v[k];
                    }
                }
            } else {
                assert(hits.len() >= 2);
                v.lemma_filter_pred(pred, 0);
                v.lemma_filter_pred(pred, 1);
                let j0 = choose|j: int| 0 <= j < v.len() && v[j] == hits[0];
                let j1 = choose|j: int| 0 <= j < v.len() && v[j] == hits[1];
                assert(m.contains_pair(v[j0].id, v[j0].row()));
                assert(m.contains_pair(v[j1].id, v[j1].row()));
                assert(key(hits[0]) < key(hits[1]));
                assert(hits[0].id != hits[1].id);
                assert forall|id: u64| !exactly_one_repo_at(m, path, id) by {
                    if exactly_one_repo_at(m, path, id) {
                        assert(m[hits[0].id] == v[j0].row());
                        assert(m[hits[1].id] == v[j1].row());
                        assert(hits[0].id == id);
                        assert(hits[1].id == id);
                    }
                }
            }
        }
    }
}
/// Returns copies of the elements of `v` whose project is `p`, keeping
/// their order.
#[verifier::rlimit(60)]
fn repos_with_project(v: &Vec<Repo>, p: u64) -> (f: Vec<Repo>)
    ensures
        f@ == v@.filter(repo_of_project(p)),
{
    let ghost pred = repo_of_project(p);
    let mut f: Vec<Repo> = Vec::new();
    let mut i: usize = 0;
    proof {
        reveal(Seq::filter);
        assert(v@.take(0).filter(pred) =~= f@);
    }
    while i < v.len()
        invariant
            0 <= i <= v@.len(),
            pred == repo_of_project(p),
            f@ == v@.take(i as int).filter(pred),
        decreases v@.len() - i,
    {
        proof {
            reveal(Seq::filter);
            assert(v@.take(i as int + 1).drop_last() =~= v@.take(i as int));
            assert(v@.take(i as int + 1).last() == v@[i as int]);
        }
        if v[i].project == p {
            f.push(clone_repo(&v[i]));
        }
        i = i + 1;
    }
    proof {
        assert(v@.take(v@.len() as int) =~= v@);
    }
    f
}

impl DataStore {
    /// Creates a repo at `path` under `project`, failing when the project
    /// does not resolve.
    pub fn create_repo(&mut self, project: &Project, path: &str) -> (r: Result<Repo, DtError>)
        ensures
            r matches Ok(rp) ==> {
                &&& old(self).projects().dom().contains(project.id)
                &&& rp.id >= 1
                &&& !old(self).repos().dom().contains(rp.id)
                &&& rp.project == project.id
                &&& rp.path@ == path@
                &&& final(self).repos() == old(self).repos().insert(rp.id, rp.row())
                &&& only_repos_changed(old(self), final(self))
            },
            r matches Err(DtError::ProjectNotFound(s)) ==> {
                &&& s@ == dec_str(project.id as nat)
                &&& !old(self).projects().dom().contains(project.id)
                &&& unchanged(old(self), final(self))
            },
            r matches Err(DtError::Rusqlite(_)) ==> unchanged(old(self), final(self)),
            r is Err ==> (r matches Err(DtError::ProjectNotFound(_)) || r matches Err(
                DtError::Rusqlite(_),
            )),
    {
        let projects = match store::select_projects(&self.conn) {
            Ok(v) => v,
            Err(e) => {
                return Err(DtError::Rusqlite(e));
            }
        };
        if find_project(&projects, project.id).is_none() {
            proof {
                if self.projects().dom().contains(project.id) {
                    assert(exists|i: int| 0 <= i < projects@.len() && projects@[i].id
                        == project.id);
                }
            }
            return Err(DtError::ProjectNotFound(u64_to_string(project.id)));
        }
        let path_s = String::from_str(path);
        match store::insert_repo_row(&mut self.conn, project.id, &path_s) {
            Ok(id) => Ok(Repo { id, project: project.id, path: path_s }),
            Err(e) => Err(DtError::Rusqlite(e)),
        }
    }

    /// Returns the repo at `path`, or `None` unless exactly one row carries
    /// that path.
    pub fn get_repo(&self, path: &str) -> (r: Result<Option<Repo>, DtError>)
        ensures
            r matches Ok(Some(rp)) ==> exactly_one_repo_at(self.repos(), path@, rp.id)
                && self.repos()[rp.id] == rp.row() && rp.path@ == path@,
            r matches Ok(None) ==> !exists|id: u64| exactly_one_repo_at(self.repos(), path@, id),
            r is Err ==> r matches Err(DtError::Rusqlite(_)),
    {
        let v = match store::select_repos(&self.conn) {
            Ok(v) => v,
            Err(e) => {
                return Err(DtError::Rusqlite(e));
            }
        };
        let path_s = String::from_str(path);
        let r = unique_repo_at(&v, &path_s);
        proof {
            lemma_unique_repo_to_map(self.repos(), v@, path@, r);
        }
        Ok(r)
    }

    /// Returns the repo with id `id`, if one is there.
    pub fn get_repo_with_id(&self, id: u64) -> (r: Result<Option<Repo>, DtError>)
        ensures
            r matches Ok(Some(rp)) ==> rp.id == id && self.repos().contains_pair(id, rp.row()),
            r matches Ok(None) ==> !self.repos().dom().contains(id),
            r is Err ==> r matches Err(DtError::Rusqlite(_)),
    {
        let v = match store::select_repos(&self.conn) {
            Ok(v) => v,
            Err(e) => {
                return Err(DtError::Rusqlite(e));
            }
        };
        match find_repo(&v, id) {
            Some(rp) => Ok(Some(clone_repo(rp))),
            None => {
                proof {
                    if self.repos().dom().contains(id) {
                        assert(exists|i: int| 0 <= i < v@.len() && v@[i].id == id);
                    }
                }
                Ok(None)
            }
        }
    }

    /// Re-verifies that the repo exists, then persists the passed project
    /// and path.
    pub fn update_repo(&mut self, repo: &Repo) -> (r: Result<(), DtError>)
        ensures
            r is Ok ==> {
                &&& old(self).repos().dom().contains(repo.id)
                &&& final(self).repos() == old(self).repos().insert(repo.id, repo.row())
                &&& only_repos_changed(old(self), final(self))
            },
            r matches Err(DtError::RepoNotFound(s)) ==> {
                &&& s@ == dec_str(repo.id as nat)
                &&& !old(self).repos().dom().contains(repo.id)
                &&& unchanged(old(self), final(self))
            },
            r matches Err(DtError::Rusqlite(_)) ==> unchanged(old(self), final(self)),
            r is Err ==> (r matches Err(DtError::RepoNotFound(_)) || r matches Err(
                DtError::Rusqlite(_),
            )),
    {
        let v = match store::select_repos(&self.conn) {
            Ok(v) => v,
            Err(e) => {
                return Err(DtError::Rusqlite(e));
            }
        };
        if find_repo(&v, repo.id).is_none() {
            proof {
                if self.repos().dom().contains(repo.id) {
                    assert(exists|i: int| 0 <= i < v@.len() && v@[i].id == repo.id);
                }
            }
            return Err(DtError::RepoNotFound(u64_to_string(repo.id)));
        }
        match store::update_repo_row(&mut self.conn, repo.id, repo.project, &repo.path) {
            Ok(()) => Ok(()),
            Err(e) => Err(DtError::Rusqlite(e)),
        }
    }

    /// Returns all repos of `project`, in ascending id order.
    #[verifier::rlimit(100)]
    pub fn get_repos(&self, project: &Project) -> (r: Result<Vec<Repo>, DtError>)
        ensures
            r matches Ok(v) ==> {
                &&& self.projects().dom().contains(project.id)
                &&& lists_project_repos(v@, self.repos(), project.id)
            },
            r matches Err(DtError::ProjectNotFound(s)) ==> {
                &&& s@ == dec_str(project.id as nat)
                &&& !self.projects().dom().contains(project.id)
            },
            r is Err ==> (r matches Err(DtError::ProjectNotFound(_)) || r matches Err(
                DtError::Rusqlite(_),
            )),
    {
        let projects = match store::select_projects(&self.conn) {
            Ok(v) => v,
            Err(e) => {
                return Err(DtError::Rusqlite(e));
            }
        };
        if find_project(&projects, project.id).is_none() {
            proof {
                if self.projects().dom().contains(project.id) {
                    assert(exists|i: int| 0 <= i < projects@.len() && projects@[i].id
                        == project.id);
                }
            }
            return Err(DtError::ProjectNotFound(u64_to_string(project.id)));
        }
        let repos = match store::select_repos(&self.conn) {
            Ok(v) => v,
            Err(e) => {
                return Err(DtError::Rusqlite(e));
            }
        };
        let f = repos_with_project(&repos, project.id);
        proof {
            lemma_filtered_lists_repos(repos@, self.repos(), project.id);
        }
        Ok(f)
    }
}

// ---------------------------------------------------------------------------
// count operations
// ---------------------------------------------------------------------------

/// `v` lists exactly the counts of repository `rid` from the table `m`, in
/// ascending id order.
pub open spec fn lists_repo_counts(v: Seq<Count>, m: Map<u64, (u64, u64, u64)>, rid: u64) -> bool {
    &&& forall|i: int, j: int| 0 <= i < j < v.len() ==> #[trigger] v[i].id < #[trigger] v[j].id
    &&& forall|i: int|
        0 <= i < v.len() ==> m.contains_pair(#[trigger] v[i].id, v[i].row()) && v[i].repo == rid
    &&& forall|id: u64|
        #[trigger] m.dom().contains(id) && m[id].0 == rid ==> exists|i: int|
            0 <= i < v.len() && #[trigger] v[i].id == id
}

/// The ids of the first `n` elements of `s`.
pub open spec fn prefix_count_ids(s: Seq<Count>, n: int) -> Set<u64> {
    Set::new(|k: u64| exists|j: int| 0 <= j < n && s[j].id == k)
}

/// A copy of a count, equal to the value it copies.
fn clone_count(c: &Count) -> (r: Count)
    ensures
        r == *c,
{
    Count { id: c.id, repo: c.repo, date: c.date, count: c.count }
}
/// Returns copies of the elements of `v` whose repo is `rid`, keeping
/// their order.
#[verifier::rlimit(60)]
fn counts_with_repo(v: &Vec<Count>, rid: u64) -> (f: Vec<Count>)
    ensures
        f@ == v@.filter(count_of_repo(rid)),
{
    let ghost pred = count_of_repo(rid);
    let mut f: Vec<Count> = Vec::new();
    let mut i: usize = 0;
    proof {
        reveal(Seq::filter);
        assert(v@.take(0).filter(pred) =~= f@);
    }
    while i < v.len()
        invariant
            0 <= i <= v@.len(),
            pred == count_of_repo(rid),
            f@ == v@.take(i as int).filter(pred),
        decreases v@.len() - i,
    {
        proof {
            reveal(Seq::filter);
            assert(v@.take(i as int + 1).drop_last() =~= v@.take(i as int));
            assert(v@.take(i as int + 1).last() == v@[i as int]);
        }
        if v[i].repo == rid {
            f.push(clone_count(&v[i]));
        }
        i = i + 1;
    }
    proof {
        assert(v@.take(v@.len() as int) =~= v@);
    }
    f
}

/// Returns the element of `v` with the greatest date, breaking ties by the
/// greatest id; `None` exactly when `v` is empty.
#[verifier::rlimit(100)]
fn max_count_of(v: &Vec<Count>) -> (r: Option<Count>)
    ensures
        r matches Some(c) ==> {
            &&& exists|i: int| 0 <= i < v@.len() && v@[i] == c
            &&& forall|j: int|
                0 <= j < v@.len() ==> ((#[trigger] v@[j].date) < c.date || (v@[j].date == c.date
                    && v@[j].id <= c.id))
        },
        r is None <==> v@.len() == 0,
{
    if v.len() == 0 {
        return None;
    }
    let mut best = clone_count(&v[0]);
    let mut i: usize = 1;
    while i < v.len()
        invariant
            1 <= i <= v@.len(),
            exists|k: int| 0 <= k < v@.len() && v@[k] == best,
            forall|j: int|
                0 <= j < i ==> ((#[trigger] v@[j].date) < best.date || (v@[j].date == best.date
                    && v@[j].id <= best.id)),
        decreases v@.len() - i,
    {
        if v[i].date > best.date || (v[i].date == best.date && v[i].id > best.id) {
            best = clone_count(&v[i]);
        }
        i = i + 1;
    }
    Some(best)
}

impl DataStore {
    /// Measures the lines of code under the repo's recorded path (skipping
    /// the build-artifact directory `target`) and stores the total together
    /// with the current date.  What the measurement returns depends on the
    /// filesystem, so only the stored row's shape is promised.
    pub fn create_count(&mut self, repo: &Repo) -> (r: Result<Count, DtError>)
        ensures
            r matches Ok(c) ==> {
                &&& old(self).repos().dom().contains(repo.id)
                &&& c.id >= 1
                &&& !old(self).counts().dom().contains(c.id)
                &&& c.repo == repo.id
                &&& final(self).counts() == old(self).counts().insert(c.id, c.row())
                &&& only_counts_changed(old(self), final(self))
            },
            r matches Err(DtError::RepoNotFound(s)) ==> {
                &&& s@ == dec_str(repo.id as nat)
                &&& !old(self).repos().dom().contains(repo.id)
                &&& unchanged(old(self), final(self))
            },
            r matches Err(DtError::Rusqlite(_)) ==> unchanged(old(self), final(self)),
            r is Err ==> (r matches Err(DtError::RepoNotFound(_)) || r matches Err(
                DtError::Rusqlite(_),
            )),
    {
        let v = match store::select_repos(&self.conn) {
            Ok(v) => v,
            Err(e) => {
                return Err(DtError::Rusqlite(e));
            }
        };
        let row = match find_repo(&v, repo.id) {
            Some(rp) => clone_repo(rp),
            None => {
                proof {
                    if self.repos().dom().contains(repo.id) {
                        assert(exists|i: int| 0 <= i < v@.len() && v@[i].id == repo.id);
                    }
                }
                return Err(DtError::RepoNotFound(u64_to_string(repo.id)));
            }
        };
        let date = store::now_unix();
        let mut excluded: Vec<String> = Vec::new();
        excluded.push(String::from_str("target"));
        let total = store::count_lines_of_code(&row.path, &excluded);
        match store::insert_count_row(&mut self.conn, repo.id, date, total) {
            Ok(id) => Ok(Count { id, repo: repo.id, date, count: total }),
            Err(e) => Err(DtError::Rusqlite(e)),
        }
    }

    /// Returns the count with id `id`, if one is there.
    pub fn get_count_with_id(&self, id: u64) -> (r: Result<Option<Count>, DtError>)
        ensures
            r matches Ok(Some(c)) ==> c.id == id && self.counts().contains_pair(id, c.row()),
            r matches Ok(None) ==> !self.counts().dom().contains(id),
            r is Err ==> r matches Err(DtError::Rusqlite(_)),
    {
        let v = match store::select_counts(&self.conn) {
            Ok(v) => v,
            Err(e) => {
                return Err(DtError::Rusqlite(e));
            }
        };
        match find_count(&v, id) {
            Some(c) => Ok(Some(clone_count(c))),
            None => {
                proof {
                    if self.counts().dom().contains(id) {
                        assert(exists|i: int| 0 <= i < v@.len() && v@[i].id == id);
                    }
                }
                Ok(None)
            }
        }
    }

    /// Returns all counts of `repo`, in ascending id order.
    #[verifier::rlimit(100)]
    pub fn get_counts(&self, repo: &Repo) -> (r: Result<Vec<Count>, DtError>)
        ensures
            r matches Ok(v) ==> {
                &&& self.repos().dom().contains(repo.id)
                &&& lists_repo_counts(v@, self.counts(), repo.id)
            },
            r matches Err(DtError::RepoNotFound(s)) ==> {
                &&& s@ == dec_str(repo.id as nat)
                &&& !self.repos().dom().contains(repo.id)
            },
            r is Err ==> (r matches Err(DtError::RepoNotFound(_)) || r matches Err(
                DtError::Rusqlite(_),
            )),
    {
        let repos = match store::select_repos(&self.conn) {
            Ok(v) => v,
            Err(e) => {
                return Err(DtError::Rusqlite(e));
            }
        };
        if find_repo(&repos, repo.id).is_none() {
            proof {
                if self.repos().dom().contains(repo.id) {
                    assert(exists|i: int| 0 <= i < repos@.len() && repos@[i].id == repo.id);
                }
            }
            return Err(DtError::RepoNotFound(u64_to_string(repo.id)));
        }
        let counts = match store::select_counts(&self.conn) {
            Ok(v) => v,
            Err(e) => {
                return Err(DtError::Rusqlite(e));
            }
        };
        let f = counts_with_repo(&counts, repo.id);
        proof {
            lemma_filtered_lists_counts(counts@, self.counts(), repo.id);
        }
        Ok(f)
    }

    /// Returns the count of `repo` with the greatest date, breaking ties on
    /// equal dates by the greatest id, or `None` when the repo has no
    /// counts.
    #[verifier::rlimit(100)]
    pub fn get_latest_count(&self, repo: &Repo) -> (r: Result<Option<Count>, DtError>)
        ensures
            r matches Ok(Some(c)) ==> {
                &&& self.repos().dom().contains(repo.id)
                &&& self.counts().contains_pair(c.id, c.row())
                &&& c.repo == repo.id
                &&& forall|k: u64|
                    #[trigger] self.counts().dom().contains(k) && self.counts()[k].0 == repo.id
                        ==> (self.counts()[k].1 < c.date || (self.counts()[k].1 == c.date && k
                        <= c.id))
            },
            r matches Ok(None) ==> {
                &&& self.repos().dom().contains(repo.id)
                &&& forall|k: u64|
                    #[trigger] self.counts().dom().contains(k) ==> self.counts()[k].0 != repo.id
            },
            r matches Err(DtError::RepoNotFound(s)) ==> {
                &&& s@ == dec_str(repo.id as nat)
                &&& !self.repos().dom().contains(repo.id)
            },
            r is Err ==> (r matches Err(DtError::RepoNotFound(_)) || r matches Err(
                DtError::Rusqlite(_),
            )),
    {
        let f = match self.get_counts(repo) {
            Ok(f) => f,
            Err(e) => {
                return Err(e);
            }
        };
        let r = max_count_of(&f);
        proof {
            match &r {
                Some(c) => {
                    let i = choose|i: int| 0 <= i < f@.len() && f@[i] == *c;
                    assert(self.counts().contains_pair(f@[i].id, f@[i].row()));
                    assert forall|k: u64|
                        #[trigger] self.counts().dom().contains(k) && self.counts()[k].0 == repo.id
                            implies (self.counts()[k].1 < c.date || (self.counts()[k].1 == c.date
                            && k <= c.id)) by {
                        let l = choose|l: int| 0 <= l < f@.len() && f@[l].id == k;
                        assert(self.counts().contains_pair(f@[l].id, f@[l].row()));
                    }
                }
                None => {
                    assert forall|k: u64| #[trigger] self.counts().dom().contains(k) implies
                        self.counts()[k].0 != repo.id by {
                        if self.counts()[k].0 == repo.id {
                            assert(exists|l: int| 0 <= l < f@.len() && f@[l].id == k);
                        }
                    }
                }
            }
        }
        Ok(r)
    }

    /// Re-verifies that the count exists, then deletes its row.
    pub fn delete_count(&mut self, count: Count) -> (r: Result<(), DtError>)
        ensures
            r is Ok ==> {
                &&& old(self).counts().dom().contains(count.id)
                &&& final(self).counts() == old(self).counts().remove(count.id)
                &&& only_counts_changed(old(self), final(self))
            },
            r matches Err(DtError::CountNotFound(s)) ==> {
                &&& s@ == dec_str(count.id as nat)
                &&& !old(self).counts().dom().contains(count.id)
                &&& unchanged(old(self), final(self))
            },
            r matches Err(DtError::Rusqlite(_)) ==> unchanged(old(self), final(self)),
            r is Err ==> (r matches Err(DtError::CountNotFound(_)) || r matches Err(
                DtError::Rusqlite(_),
            )),
    {
        let v = match store::select_counts(&self.conn) {
            Ok(v) => v,
            Err(e) => {
                return Err(DtError::Rusqlite(e));
            }
        };
        if find_count(&v, count.id).is_none() {
            proof {
                if self.counts().dom().contains(count.id) {
                    assert(exists|i: int| 0 <= i < v@.len() && v@[i].id == count.id);
                }
            }
            return Err(DtError::CountNotFound(u64_to_string(count.id)));
        }
        match store::delete_count_row(&mut self.conn, count.id) {
            Ok(()) => Ok(()),
            Err(e) => Err(DtError::Rusqlite(e)),
        }
    }

    /// Returns the stored total of lines of code of the count `count`,
    /// re-fetched from its row.
    pub fn get_total_loc(&self, count: &Count) -> (r: Result<u64, DtError>)
        ensures
            r matches Ok(n) ==> self.counts().dom().contains(count.id) && n
                == self.counts()[count.id].2,
            r matches Err(DtError::CountNotFound(s)) ==> {
                &&& s@ == dec_str(count.id as nat)
                &&& !self.counts().dom().contains(count.id)
            },
            r is Err ==> (r matches Err(DtError::CountNotFound(_)) || r matches Err(
                DtError::Rusqlite(_),
            )),
    {
        let v = match store::select_counts(&self.conn) {
            Ok(v) => v,
            Err(e) => {
                return Err(DtError::Rusqlite(e));
            }
        };
        match find_count(&v, count.id) {
            Some(c) => {
                proof {
                    let i = choose|i: int| 0 <= i < v@.len() && v@[i] == *c && c.id == count.id;
                    assert(self.counts().contains_pair(v@[i].id, v@[i].row()));
                }
                Ok(c.count)
            }
            None => {
                proof {
                    if self.counts().dom().contains(count.id) {
                        assert(exists|i: int| 0 <= i < v@.len() && v@[i].id == count.id);
                    }
                }
                Err(DtError::CountNotFound(u64_to_string(count.id)))
            }
        }
    }

    /// Deletes a repo and, first, every count that references it.
    #[verifier::rlimit(100)]
    pub fn delete_repo(&mut self, repo: Repo) -> (r: Result<(), DtError>)
        ensures
            r is Ok ==> {
                &&& old(self).repos().dom().contains(repo.id)
                &&& final(self).repos() == old(self).repos().remove(repo.id)
                &&& final(self).counts() == old(self).counts().remove_keys(
                    count_keys_of_repo(old(self).counts(), repo.id),
                )
                &&& only_repos_and_counts_changed(old(self), final(self))
            },
            r matches Err(DtError::RepoNotFound(s)) ==> {
                &&& s@ == dec_str(repo.id as nat)
                &&& !old(self).repos().dom().contains(repo.id)
                &&& unchanged(old(self), final(self))
            },
            r is Err ==> (r matches Err(DtError::RepoNotFound(_)) || r matches Err(
                DtError::Rusqlite(_),
            )),
    {
        let repos = match store::select_repos(&self.conn) {
            Ok(v) => v,
            Err(e) => {
                return Err(DtError::Rusqlite(e));
            }
        };
        if find_repo(&repos, repo.id).is_none() {
            proof {
                if self.repos().dom().contains(repo.id) {
                    assert(exists|i: int| 0 <= i < repos@.len() && repos@[i].id == repo.id);
                }
            }
            return Err(DtError::RepoNotFound(u64_to_string(repo.id)));
        }
        let counts_all = match store::select_counts(&self.conn) {
            Ok(v) => v,
            Err(e) => {
                return Err(DtError::Rusqlite(e));
            }
        };
        let ghost c0 = self.counts();
        let f = counts_with_repo(&counts_all, repo.id);
        proof {
            lemma_filtered_lists_counts(counts_all@, c0, repo.id);
        }
        let mut i: usize = 0;
        while i < f.len()
            invariant
                0 <= i <= f@.len(),
                lists_repo_counts(f@, c0, repo.id),
                self.counts() == c0.remove_keys(prefix_count_ids(f@, i as int)),
                only_counts_changed(old(self), self),
            decreases f@.len() - i,
        {
            proof {
                assert(c0.contains_pair(f@[i as int].id, f@[i as int].row()));
                assert forall|k: int| 0 <= k < i implies #[trigger] f@[k].id != f@[
                    i as int
                ].id by {
                    assert(f@[k].id < f@[i as int].id);
                }
                assert(!prefix_count_ids(f@, i as int).contains(f@[i as int].id));
                assert(self.counts().dom().contains(f@[i as int].id));
            }
            let ghost pre = self.counts();
            match self.delete_count(clone_count(&f[i])) {
                Ok(()) => (),
                Err(e) => {
                    return Err(e);
                }
            }
            proof {
                assert(pre.remove(f@[i as int].id) =~= c0.remove_keys(
                    prefix_count_ids(f@, i as int + 1),
                ));
            }
            i = i + 1;
        }
        proof {
            assert(prefix_count_ids(f@, f@.len() as int) =~= count_keys_of_repo(c0, repo.id)) by {
                assert forall|k: u64| #[trigger] count_keys_of_repo(c0, repo.id).contains(k)
                    implies prefix_count_ids(f@, f@.len() as int).contains(k) by {
                    let l = choose|l: int| 0 <= l < f@.len() && #[trigger] f@[l].id == k;
                }
                assert forall|k: u64| #[trigger] prefix_count_ids(f@, f@.len() as int).contains(k)
                    implies count_keys_of_repo(c0, repo.id).contains(k) by {
                    let j = choose|j: int| 0 <= j < f@.len() && f@[j].id == k;
                    assert(c0.contains_pair(f@[j].id, f@[j].row()));
                }
            }
        }
        match store::delete_repo_row(&mut self.conn, repo.id) {
            Ok(()) => Ok(()),
            Err(e) => Err(DtError::Rusqlite(e)),
        }
    }
}

// ---------------------------------------------------------------------------
// project deletion cascade
// ---------------------------------------------------------------------------

/// The keys of the activities of project `p` in the activities table `m`.
pub open spec fn activity_keys_of_project(
    m: Map<u64, (u64, u64, Option<Seq<char>>, u64, Option<u64>)>,
    p: u64,
) -> Set<u64> {
    Set::new(|k: u64| m.dom().contains(k) && m[k].0 == p)
}

/// The keys of the repos of project `p` in the repos table `m`.
pub open spec fn repo_keys_of_project(m: Map<u64, (u64, Seq<char>)>, p: u64) -> Set<u64> {
    Set::new(|k: u64| m.dom().contains(k) && m[k].0 == p)
}

/// The keys of the counts whose repo lies in the key set `rs`.
pub open spec fn count_keys_of_repo_set(m: Map<u64, (u64, u64, u64)>, rs: Set<u64>) -> Set<u64> {
    Set::new(|k: u64| m.dom().contains(k) && rs.contains(m[k].0))
}

/// The keys of the counts owned, through their repo, by project `p`: the
/// counts whose repo row exists in `rm` and belongs to `p`.
pub open spec fn count_keys_of_project(
    cm: Map<u64, (u64, u64, u64)>,
    rm: Map<u64, (u64, Seq<char>)>,
    p: u64,
) -> Set<u64> {
    count_keys_of_repo_set(cm, repo_keys_of_project(rm, p))
}

/// The ids of the first `n` elements of `s`.
pub open spec fn prefix_activity_ids(s: Seq<Activity>, n: int) -> Set<u64> {
    Set::new(|k: u64| exists|j: int| 0 <= j < n && s[j].id == k)
}

/// The ids of the first `n` elements of `s`.
pub open spec fn prefix_repo_ids(s: Seq<Repo>, n: int) -> Set<u64> {
    Set::new(|k: u64| exists|j: int| 0 <= j < n && s[j].id == k)
}

impl DataStore {
    /// Deletes a project and everything it owns: its activities, its repos,
    /// and the counts of those repos, each through the single-entity
    /// deletions, then the project row itself.
    #[verifier::rlimit(100)]
    pub fn delete_project(&mut self, project: Project) -> (r: Result<(), DtError>)
        ensures
            r is Ok ==> {
                &&& old(self).projects().dom().contains(project.id)
                &&& final(self).projects() == old(self).projects().remove(project.id)
                &&& final(self).activities() == old(self).activities().remove_keys(
                    activity_keys_of_project(old(self).activities(), project.id),
                )
                &&& final(self).repos() == old(self).repos().remove_keys(
                    repo_keys_of_project(old(self).repos(), project.id),
                )
                &&& final(self).counts() == old(self).counts().remove_keys(
                    count_keys_of_project(old(self).counts(), old(self).repos(), project.id),
                )
                &&& final(self).atypes() == old(self).atypes()
            },
            r matches Err(DtError::ProjectNotFound(s)) ==> {
                &&& s@ == dec_str(project.id as nat)
                &&& !old(self).projects().dom().contains(project.id)
                &&& unchanged(old(self), final(self))
            },
            r is Err ==> (r matches Err(DtError::ProjectNotFound(_)) || r matches Err(
                DtError::Rusqlite(_),
            )),
    {
        let pid = project.id;
        let projects = match store::select_projects(&self.conn) {
            Ok(v) => v,
            Err(e) => {
                return Err(DtError::Rusqlite(e));
            }
        };
        if find_project(&projects, pid).is_none() {
            proof {
                if self.projects().dom().contains(pid) {
                    assert(exists|i: int| 0 <= i < projects@.len() && projects@[i].id == pid);
                }
            }
            return Err(DtError::ProjectNotFound(u64_to_string(pid)));
        }
        // Cascade one: the project's activities, one row at a time.
        let acts_all = match store::select_activities(&self.conn) {
            Ok(v) => v,
            Err(e) => {
                return Err(DtError::Rusqlite(e));
            }
        };
        let ghost a0 = self.activities();
        let fa = activities_with_project(&acts_all, pid);
        proof {
            lemma_filtered_lists_activities(acts_all@, a0, pid);
        }
        let mut i: usize = 0;
        while i < fa.len()
            invariant
                0 <= i <= fa@.len(),
                lists_project_activities(fa@, a0, pid),
                self.activities() == a0.remove_keys(prefix_activity_ids(fa@, i as int)),
                only_activities_changed(old(self), self),
            decreases fa@.len() - i,
        {
            proof {
                assert(a0.contains_pair(fa@[i as int].id, fa@[i as int].row()));
                assert forall|k: int| 0 <= k < i implies #[trigger] fa@[k].id != fa@[
                    i as int
                ].id by {
                    assert(fa@[k].id < fa@[i as int].id);
                }
                assert(!prefix_activity_ids(fa@, i as int).contains(fa@[i as int].id));
                assert(self.activities().dom().contains(fa@[i as int].id));
            }
            let ghost pre = self.activities();
            match self.delete_activity(clone_activity(&fa[i])) {
                Ok(()) => (),
                Err(e) => {
                    return Err(e);
                }
            }
            proof {
                assert(pre.remove(fa@[i as int].id) =~= a0.remove_keys(
                    prefix_activity_ids(fa@, i as int + 1),
                ));
            }
            i = i + 1;
        }
        proof {
            assert(prefix_activity_ids(fa@, fa@.len() as int) =~= activity_keys_of_project(
                a0,
                pid,
            )) by {
                assert forall|k: u64| #[trigger] activity_keys_of_project(a0, pid).contains(k)
                    implies prefix_activity_ids(fa@, fa@.len() as int).contains(k) by {
                    let l = choose|l: int| 0 <= l < fa@.len() && #[trigger] fa@[l].id == k;
                }
                assert forall|k: u64|
                    #[trigger] prefix_activity_ids(fa@, fa@.len() as int).contains(k) implies
                    activity_keys_of_project(a0, pid).contains(k) by {
                    let j = choose|j: int| 0 <= j < fa@.len() && fa@[j].id == k;
                    assert(a0.contains_pair(fa@[j].id, fa@[j].row()));
                }
            }
        }
        // Cascade two: the project's repos, each taking its counts with it.
        let repos_all = match store::select_repos(&self.conn) {
            Ok(v) => v,
            Err(e) => {
                return Err(DtError::Rusqlite(e));
            }
        };
        let ghost r0 = self.repos();
        let ghost c0 = self.counts();
        let ghost a_done = self.activities();
        let fr = repos_with_project(&repos_all, pid);
        proof {
            lemma_filtered_lists_repos(repos_all@, r0, pid);
        }
        let mut i2: usize = 0;
        while i2 < fr.len()
            invariant
                0 <= i2 <= fr@.len(),
                lists_project_repos(fr@, r0, pid),
                self.repos() == r0.remove_keys(prefix_repo_ids(fr@, i2 as int)),
                self.counts() == c0.remove_keys(
                    count_keys_of_repo_set(c0, prefix_repo_ids(fr@, i2 as int)),
                ),
                self.activities() == a_done,
                self.projects() == old(self).projects(),
                self.atypes() == old(self).atypes(),
            decreases fr@.len() - i2,
        {
            proof {
                assert(r0.contains_pair(fr@[i2 as int].id, fr@[i2 as int].row()));
                assert forall|k: int| 0 <= k < i2 implies #[trigger] fr@[k].id != fr@[
                    i2 as int
                ].id by {
                    assert(fr@[k].id < fr@[i2 as int].id);
                }
                assert(!prefix_repo_ids(fr@, i2 as int).contains(fr@[i2 as int].id));
                assert(self.repos().dom().contains(fr@[i2 as int].id));
            }
            let ghost pre_r = self.repos();
            let ghost pre_c = self.counts();
            match self.delete_repo(clone_repo(&fr[i2])) {
                Ok(()) => (),
                Err(e) => {
                    return Err(e);
                }
            }
            proof {
                let ghost rid = fr@[i2 as int].id;
                assert(pre_r.remove(rid) =~= r0.remove_keys(prefix_repo_ids(fr@, i2 as int + 1)));
                assert(pre_c.remove_keys(count_keys_of_repo(pre_c, rid)) =~= c0.remove_keys(
                    count_keys_of_repo_set(c0, prefix_repo_ids(fr@, i2 as int + 1)),
                )) by {
                    assert forall|k: u64|
                        #[trigger] pre_c.remove_keys(count_keys_of_repo(pre_c, rid)).dom().contains(
                            k,
                        ) implies c0.remove_keys(
                        count_keys_of_repo_set(c0, prefix_repo_ids(fr@, i2 as int + 1)),
                    ).dom().contains(k) by {
                        assert(c0.dom().contains(k));
                        assert(c0[k] == pre_c[k]);
                    }
                    assert forall|k: u64|
                        #[trigger] c0.remove_keys(
                            count_keys_of_repo_set(c0, prefix_repo_ids(fr@, i2 as int + 1)),
                        ).dom().contains(k) implies pre_c.remove_keys(
                        count_keys_of_repo(pre_c, rid),
                    ).dom().contains(k) by {
                        assert(!count_keys_of_repo_set(c0, prefix_repo_ids(fr@, i2 as int)).contains(
                            k,
                        ));
                        assert(pre_c.dom().contains(k));
                        assert(c0[k] == pre_c[k]);
                    }
                }
            }
            i2 = i2 + 1;
        }
        proof {
            assert(prefix_repo_ids(fr@, fr@.len() as int) =~= repo_keys_of_project(r0, pid)) by {
                assert forall|k: u64| #[trigger] repo_keys_of_project(r0, pid).contains(k) implies
                    prefix_repo_ids(fr@, fr@.len() as int).contains(k) by {
                    let l = choose|l: int| 0 <= l < fr@.len() && #[trigger] fr@[l].id == k;
                }
                assert forall|k: u64|
                    #[trigger] prefix_repo_ids(fr@, fr@.len() as int).contains(k) implies
                    repo_keys_of_project(r0, pid).contains(k) by {
                    let j = choose|j: int| 0 <= j < fr@.len() && fr@[j].id == k;
                    assert(r0.contains_pair(fr@[j].id, fr@[j].row()));
                }
            }
        }
        // Finally the project row itself.
        match store::delete_project_row(&mut self.conn, pid) {
            Ok(()) => Ok(()),
            Err(e) => Err(DtError::Rusqlite(e)),
        }
    }
}

// ---------------------------------------------------------------------------
// report assembly
// ---------------------------------------------------------------------------

/// The counts section of a report matches the repos `repos` of the project
/// against the counts table `cm`: one entry per repo, carrying its path and
/// exactly the in-window counts of that repo (the rows of repo `k` being
/// the listing `css[k]`).
pub open spec fn report_counts_match(
    rep_counts: Seq<crate::report::RepoCounts>,
    repos: Seq<Repo>,
    css: Seq<Seq<Count>>,
    cm: Map<u64, (u64, u64, u64)>,
    start: Option<u64>,
    end: Option<u64>,
) -> bool {
    &&& rep_counts.len() == repos.len()
    &&& css.len() == repos.len()
    &&& forall|k: int|
        0 <= k < repos.len() ==> (#[trigger] rep_counts[k].path@) == repos[k].path@
    &&& forall|k: int|
        #![trigger repos[k].id]
        0 <= k < repos.len() ==> lists_repo_counts(css[k], cm, repos[k].id)
            && crate::report::count_entries(rep_counts[k].counts@)
            == crate::report::spec_report_counts(css[k], repos[k].path@, start, end)
}

impl DataStore {
    /// Assembles the report for `project` over the optional window: the
    /// project's name, its activities whose start falls in the window (each
    /// with its resolved type name and whole minutes, the clock serving as
    /// the end of a running one), and per repository the counts whose date
    /// falls in the window.  A pure read: no table changes.
    #[verifier::rlimit(100)]
    pub fn create_report(
        &self,
        project: &Project,
        start: Option<u64>,
        end: Option<u64>,
    ) -> (r: Result<crate::report::Report, DtError>)
        ensures
            r matches Ok(rep) ==> {
                &&& self.projects().dom().contains(project.id)
                &&& rep.project_name@ == self.projects()[project.id]
                &&& rep.start == start
                &&& rep.end == end
                &&& rep.project_description is None
                &&& exists|acts: Seq<Activity>, ats: Seq<ActivityType>, now: u64|
                    {
                        &&& #[trigger] lists_project_activities(
                            acts,
                            self.activities(),
                            project.id,
                        )
                        &&& #[trigger] store::lists_atypes(ats, self.atypes())
                        &&& crate::report::activity_entries(rep.activities@)
                            == #[trigger] crate::report::spec_report_activities(
                            acts,
                            ats,
                            start,
                            end,
                            now,
                        )
                    }
                &&& exists|repos: Seq<Repo>, css: Seq<Seq<Count>>|
                    #[trigger] lists_project_repos(repos, self.repos(), project.id)
                        && #[trigger] report_counts_match(
                        rep.counts@,
                        repos,
                        css,
                        self.counts(),
                        start,
                        end,
                    )
            },
            r matches Err(DtError::ProjectNotFound(s)) ==> {
                &&& s@ == dec_str(project.id as nat)
                &&& !self.projects().dom().contains(project.id)
            },
            r is Err ==> (r matches Err(DtError::ProjectNotFound(_)) || r matches Err(
                DtError::Rusqlite(_),
            )),
    {
        let named = match self.get_project_with_id(project.id) {
            Ok(p) => p,
            Err(e) => {
                return Err(e);
            }
        };
        let p_row = match named {
            Some(p) => p,
            None => {
                return Err(DtError::ProjectNotFound(u64_to_string(project.id)));
            }
        };
        let acts = match self.get_activities(project) {
            Ok(v) => v,
            Err(e) => {
                return Err(e);
            }
        };
        let ats = match self.get_activitytypes() {
            Ok(v) => v,
            Err(e) => {
                return Err(e);
            }
        };
        let now = store::now_unix();
        let ractivities = crate::report::build_report_activities(&acts, &ats, start, end, now);
        let repos = match self.get_repos(project) {
            Ok(v) => v,
            Err(e) => {
                return Err(e);
            }
        };
        let mut rcounts: Vec<crate::report::RepoCounts> = Vec::new();
        let ghost mut css: Seq<Seq<Count>> = Seq::empty();
        let mut k: usize = 0;
        while k < repos.len()
            invariant
                0 <= k <= repos@.len(),
                lists_project_repos(repos@, self.repos(), project.id),
                lists_project_activities(acts@, self.activities(), project.id),
                store::lists_atypes(ats@, self.atypes()),
                rcounts@.len() == k,
                css.len() == k,
                forall|l: int|
                    0 <= l < k ==> (#[trigger] rcounts@[l].path@) == repos@[l].path@,
                forall|l: int|
                    0 <= l < k ==> #[trigger] lists_repo_counts(
                        css[l],
                        self.counts(),
                        repos@[l].id,
                    ) && crate::report::count_entries(rcounts@[l].counts@)
                        == crate::report::spec_report_counts(css[l], repos@[l].path@, start, end),
            decreases repos@.len() - k,
        {
            let repo = &repos[k];
            let cs = match self.get_counts(repo) {
                Ok(v) => v,
                Err(e) => {
                    proof {
                        assert(self.repos().contains_pair(repos@[k as int].id, repos@[
                            k as int
                        ].row()));
                    }
                    return Err(e);
                }
            };
            let rc = crate::report::build_report_counts(&cs, &repo.path, start, end);
            rcounts.push(crate::report::RepoCounts { path: repo.path.clone(), counts: rc });
            proof {
                css = css.push(cs@);
            }
            k = k + 1;
        }
        let rep = crate::report::Report {
            start,
            end,
            project_name: p_row.name,
            project_description: None,
            activities: ractivities,
            counts: rcounts,
        };
        proof {
            assert(rep.activities == ractivities && rep.counts == rcounts && rep.project_name
                == p_row.name);
            assert(rep.counts@.len() == repos@.len());
            assert(crate::report::activity_entries(rep.activities@)
                =~= crate::report::spec_report_activities(acts@, ats@, start, end, now));
            assert(lists_project_activities(acts@, self.activities(), project.id)
                && store::lists_atypes(ats@, self.atypes())
                && crate::report::activity_entries(rep.activities@)
                == crate::report::spec_report_activities(acts@, ats@, start, end, now));
            assert(report_counts_match(rep.counts@, repos@, css, self.counts(), start, end))
                by {
                assert(rep.counts@.len() == repos@.len());
                assert forall|l: int|
                    0 <= l < repos@.len() implies (#[trigger] rep.counts@[l].path@)
                    == repos@[l].path@ by {
                    assert(rcounts@[l].path@ == repos@[l].path@);
                }
                assert forall|l: int| #![trigger repos@[l].id] 0 <= l < repos@.len() implies
                    lists_repo_counts(css[l], self.counts(), repos@[l].id)
                        && crate::report::count_entries(rep.counts@[l].counts@)
                        == crate::report::spec_report_counts(css[l], repos@[l].path@, start, end) by {
                    assert(lists_repo_counts(css[l], self.counts(), repos@[l].id));
                    assert(crate::report::count_entries(rep.counts@[l].counts@)
                        =~= crate::report::spec_report_counts(css[l], repos@[l].path@, start, end));
                    assert(crate::report::count_entries(rep.counts@[l].counts@)
                        == crate::report::spec_report_counts(css[l], repos@[l].path@, start, end));
                }
            }
            assert(lists_project_repos(repos@, self.repos(), project.id));
        }
        Ok(rep)
    }
}

} // verus!
