//! A user-defined category of work (for example "coding" or "research").

use vstd::prelude::*;

verus! {

/// An activity-type row.  The store guarantees a sentinel row with `id == 0`
/// that activities fall back to when their own type is deleted.
pub struct ActivityType {
    pub id: u64,
    pub name: String,
    pub description: Option<String>,
}

impl ActivityType {
    /// The abstract content of the row: name and optional description.
    pub open spec fn row(&self) -> (Seq<char>, Option<Seq<char>>) {
        (self.name@, self.description.deep_view())
    }

    pub fn new(name: String, description: Option<String>) -> (at: ActivityType)
        ensures
            at.id == 0,
            at.name == name,
            at.description == description,
    {
        ActivityType { id: 0, name, description }
    }

    pub fn id(&self) -> (r: u64)
        ensures
            r == self.id,
    {
        self.id
    }

    pub fn name(&self) -> (r: &String)
        ensures
            r == &self.name,
    {
        &self.name
    }

    pub fn set_name(&mut self, name: String)
        ensures
            final(self).name == name,
            final(self).id == old(self).id,
            final(self).description == old(self).description,
    {
        self.name = name;
    }

    pub fn description(&self) -> (r: &Option<String>)
        ensures
            r == &self.description,
    {
        &self.description
    }

    pub fn set_description(&mut self, description: Option<String>)
        ensures
            final(self).description == description,
            final(self).id == old(self).id,
            final(self).name == old(self).name,
    {
        self.description = description;
    }
}

/// Returns the element of `v` whose `id` field is `id`, if one is there.
pub fn find_activitytype(v: &Vec<ActivityType>, id: u64) -> (r: Option<&ActivityType>)
    ensures
        r matches Some(at) ==> exists|i: int| 0 <= i < v@.len() && v@[i] == *at && at.id == id,
        r is None ==> forall|i: int| 0 <= i < v@.len() ==> v@[i].id != id,
{
    let mut i: usize = 0;
    while i < v.len()
        invariant
            0 <= i <= v@.len(),
            forall|j: int| 0 <= j < i ==> v@[j].id != id,
        decreases v@.len() - i,
    {
        if v[i].id == id {
            return Some(&v[i]);
        }
        i = i + 1;
    }
    None
}

} // verus!
