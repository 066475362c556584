//! A timed work session tied to a project and an activity type.

use vstd::prelude::*;
use crate::store;

verus! {

/// The length in seconds of the span from `start` to `end`, or `0` when the
/// span would be negative.
pub open spec fn duration_secs(start: u64, end: u64) -> u64 {
    if end >= start {
        (end - start) as u64
    } else {
        0
    }
}

/// An activity row.  An activity with `end == None` is running; setting
/// `end` stops it.  Timestamps are seconds since the Unix epoch, UTC.
pub struct Activity {
    pub id: u64,
    pub project: u64,
    pub atype: u64,
    pub description: Option<String>,
    pub start: u64,
    pub end: Option<u64>,
}

impl Activity {
    /// The abstract content of the row: project, type, description, start, end.
    pub open spec fn row(&self) -> (u64, u64, Option<Seq<char>>, u64, Option<u64>) {
        (self.project, self.atype, self.description.deep_view(), self.start, self.end)
    }

    /// A fresh running activity starting at the current clock reading.
    pub fn new(project: u64, atype: u64, description: Option<String>) -> (a: Activity)
        ensures
            a.id == 0,
            a.project == project,
            a.atype == atype,
            a.description == description,
            a.end is None,
    {
        Activity {
            id: 0,
            project,
            atype,
            description,
            start: store::now_unix(),
            end: None,
        }
    }

    pub fn id(&self) -> (r: u64)
        ensures
            r == self.id,
    {
        self.id
    }

    pub fn project(&self) -> (r: u64)
        ensures
            r == self.project,
    {
        self.project
    }

    pub fn set_project(&mut self, id: u64)
        ensures
            *final(self) == (Activity { project: id, ..*old(self) }),
    {
        self.project = id;
    }

    pub fn atype(&self) -> (r: u64)
        ensures
            r == self.atype,
    {
        self.atype
    }

    pub fn set_atype(&mut self, id: u64)
        ensures
            *final(self) == (Activity { atype: id, ..*old(self) }),
    {
        self.atype = id;
    }

    pub fn description(&self) -> (r: &Option<String>)
        ensures
            r == &self.description,
    {
        &self.description
    }

    pub fn set_description(&mut self, description: Option<String>)
        ensures
            *final(self) == (Activity { description, ..*old(self) }),
    {
        self.description = description;
    }

    pub fn start_time(&self) -> (r: u64)
        ensures
            r == self.start,
    {
        self.start
    }

    pub fn end_time(&self) -> (r: Option<u64>)
        ensures
            r == self.end,
    {
        self.end
    }

    pub fn set_end_time(&mut self, end: Option<u64>)
        ensures
            *final(self) == (Activity { end, ..*old(self) }),
    {
        self.end = end;
    }

    /// Stops the activity at the current clock reading; the recorded end
    /// never precedes the recorded start.
    pub fn stop(&mut self)
        ensures
            final(self).end matches Some(e) && e >= old(self).start,
            *final(self) == (Activity { end: final(self).end, ..*old(self) }),
    {
        let now = store::now_unix();
        if now >= self.start {
            self.end = Some(now);
        } else {
            self.end = Some(self.start);
        }
    }

    /// The length of the session in seconds, or `None` while running.
    pub fn duration(&self) -> (r: Option<u64>)
        ensures
            r matches Some(d) ==> self.end matches Some(e) && d == duration_secs(self.start, e),
            r is None <==> self.end is None,
    {
        match self.end {
            Some(e) => {
                if e >= self.start {
                    Some(e - self.start)
                } else {
                    Some(0)
                }
            }
            None => None,
        }
    }
}

/// Returns the element of `v` whose `id` field is `id`, if one is there.
pub fn find_activity(v: &Vec<Activity>, id: u64) -> (r: Option<&Activity>)
    ensures
        r matches Some(a) ==> exists|i: int| 0 <= i < v@.len() && v@[i] == *a && a.id == id,
        r is None ==> forall|i: int| 0 <= i < v@.len() ==> v@[i].id != id,
{
    let mut i: usize = 0;
    while i < v.len()
        invariant
            0 <= i <= v@.len(),
            forall|j: int| 0 <= j < i ==> v@[j].id != id,
        decreases v@.len() - i,
    {
        if v[i].id == id {
            return Some(&v[i]);
        }
        i = i + 1;
    }
    None
}

} // verus!
