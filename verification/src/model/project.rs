//! A project: the top-level unit of organization.

use vstd::prelude::*;

verus! {

/// A project row.  `id` is `0` until the row has been inserted; the store
/// assigns the real id at insertion time and it is immutable afterwards.
pub struct Project {
    pub id: u64,
    pub name: String,
}

impl Project {
    /// The abstract content of the row, as the store's table map holds it.
    pub open spec fn row(&self) -> Seq<char> {
        self.name@
    }

    pub fn new(name: String) -> (p: Project)
        ensures
            p.id == 0,
            p.name == name,
    {
        Project { id: 0, name }
    }

    pub fn id(&self) -> (r: u64)
        ensures
            r == self.id,
    {
        self.id
    }

    pub fn name(&self) -> (r: &String)
        ensures
            r == &self.name,
    {
        &self.name
    }

    pub fn set_name(&mut self, name: String)
        ensures
            final(self).name == name,
            final(self).id == old(self).id,
    {
        self.name = name;
    }
}

/// Returns the element of `v` whose `id` field is `id`, if one is there.
pub fn find_project(v: &Vec<Project>, id: u64) -> (r: Option<&Project>)
    ensures
        r matches Some(p) ==> exists|i: int| 0 <= i < v@.len() && v@[i] == *p && p.id == id,
        r is None ==> forall|i: int| 0 <= i < v@.len() ==> v@[i].id != id,
{
    let mut i: usize = 0;
    while i < v.len()
        invariant
            0 <= i <= v@.len(),
            forall|j: int| 0 <= j < i ==> v@[j].id != id,
        decreases v@.len() - i,
    {
        if v[i].id == id {
            return Some(&v[i]);
        }
        i = i + 1;
    }
    None
}

} // verus!
