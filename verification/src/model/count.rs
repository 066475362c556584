//! A point-in-time measurement of lines of code for a repository.

use vstd::prelude::*;

verus! {

/// A count row.  `date` is the moment of the measurement (seconds since the
/// Unix epoch, UTC) and `count` the total number of lines of code found.
pub struct Count {
    pub id: u64,
    pub repo: u64,
    pub date: u64,
    pub count: u64,
}

impl Count {
    /// The abstract content of the row: repository, date, total lines.
    pub open spec fn row(&self) -> (u64, u64, u64) {
        (self.repo, self.date, self.count)
    }

    pub fn new(repo: u64, date: u64, count: u64) -> (c: Count)
        ensures
            c.id == 0,
            c.repo == repo,
            c.date == date,
            c.count == count,
    {
        Count { id: 0, repo, date, count }
    }

    pub fn id(&self) -> (r: u64)
        ensures
            r == self.id,
    {
        self.id
    }

    pub fn repo(&self) -> (r: u64)
        ensures
            r == self.repo,
    {
        self.repo
    }

    pub fn date(&self) -> (r: u64)
        ensures
            r == self.date,
    {
        self.date
    }

    pub fn count(&self) -> (r: u64)
        ensures
            r == self.count,
    {
        self.count
    }
}

/// Returns the element of `v` whose `id` field is `id`, if one is there.
pub fn find_count(v: &Vec<Count>, id: u64) -> (r: Option<&Count>)
    ensures
        r matches Some(c) ==> exists|i: int| 0 <= i < v@.len() && v@[i] == *c && c.id == id,
        r is None ==> forall|i: int| 0 <= i < v@.len() ==> v@[i].id != id,
{
    let mut i: usize = 0;
    while i < v.len()
        invariant
            0 <= i <= v@.len(),
            forall|j: int| 0 <= j < i ==> v@[j].id != id,
        decreases v@.len() - i,
    {
        if v[i].id == id {
            return Some(&v[i]);
        }
        i = i + 1;
    }
    None
}

} // verus!
