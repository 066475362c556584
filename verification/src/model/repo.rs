//! A repository: a filesystem location associated with a project.

use vstd::prelude::*;

verus! {

/// A repository row.  `project` is the id of the owning project and `path`
/// the filesystem location whose lines of code are counted.
pub struct Repo {
    pub id: u64,
    pub project: u64,
    pub path: String,
}

impl Repo {
    /// The abstract content of the row: owning project and path.
    pub open spec fn row(&self) -> (u64, Seq<char>) {
        (self.project, self.path@)
    }

    pub fn new(path: String, project: u64) -> (r: Repo)
        ensures
            r.id == 0,
            r.project == project,
            r.path == path,
    {
        Repo { id: 0, project, path }
    }

    pub fn id(&self) -> (r: u64)
        ensures
            r == self.id,
    {
        self.id
    }

    pub fn project(&self) -> (r: u64)
        ensures
            r == self.project,
    {
        self.project
    }

    pub fn set_project(&mut self, project: u64)
        ensures
            final(self).project == project,
            final(self).id == old(self).id,
            final(self).path == old(self).path,
    {
        self.project = project;
    }

    pub fn path(&self) -> (r: &String)
        ensures
            r == &self.path,
    {
        &self.path
    }

    pub fn set_path(&mut self, path: String)
        ensures
            final(self).path == path,
            final(self).id == old(self).id,
            final(self).project == old(self).project,
    {
        self.path = path;
    }
}

/// Returns the element of `v` whose `id` field is `id`, if one is there.
pub fn find_repo(v: &Vec<Repo>, id: u64) -> (r: Option<&Repo>)
    ensures
        r matches Some(p) ==> exists|i: int| 0 <= i < v@.len() && v@[i] == *p && p.id == id,
        r is None ==> forall|i: int| 0 <= i < v@.len() ==> v@[i].id != id,
{
    let mut i: usize = 0;
    while i < v.len()
        invariant
            0 <= i <= v@.len(),
            forall|j: int| 0 <= j < i ==> v@[j].id != id,
        decreases v@.len() - i,
    {
        if v[i].id == id {
            return Some(&v[i]);
        }
        i = i + 1;
    }
    None
}

} // verus!
