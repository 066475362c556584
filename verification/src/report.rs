//! The denormalized report a caller can render or serialize.
//!
//! `DataStore::create_report` assembles a `Report`; the builders here turn
//! already-fetched rows into report entries and carry exact, sequence-level
//! contracts.

use vstd::prelude::*;
use crate::model::{Activity as ModelActivity, ActivityType, Count as ModelCount};
use crate::model::activity::duration_secs;
use crate::text::{dec_str, u64_to_string};

verus! {

/// One activity entry of a report: the resolved activity-type name, the
/// session's start, and its length in whole minutes.
pub struct Activity {
    pub name: String,
    pub start: u64,
    pub minutes: u64,
}

impl Activity {
    /// The abstract content of the entry.
    pub open spec fn entry(&self) -> (Seq<char>, u64, u64) {
        (self.name@, self.start, self.minutes)
    }
}

/// One count entry of a report: the repository path, the moment of the
/// measurement, and the total lines of code found.
pub struct Count {
    pub path: String,
    pub date: u64,
    pub count: u64,
}

impl Count {
    /// The abstract content of the entry.
    pub open spec fn entry(&self) -> (Seq<char>, u64, u64) {
        (self.path@, self.date, self.count)
    }
}

/// The counts of one repository, keyed by its path.
pub struct RepoCounts {
    pub path: String,
    pub counts: Vec<Count>,
}

/// A report over a project and an optional time window: the project's
/// activities whose start falls within the window, and per repository the
/// counts whose date falls within the window.
pub struct Report {
    pub start: Option<u64>,
    pub end: Option<u64>,
    pub project_name: String,
    pub project_description: Option<String>,
    pub activities: Vec<Activity>,
    pub counts: Vec<RepoCounts>,
}

/// Does the timestamp `t` fall within the window, where a missing bound
/// means "from the beginning" or "until now"?
pub open spec fn in_window(t: u64, start: Option<u64>, end: Option<u64>) -> bool {
    &&& match start {
        Some(s) => t >= s,
        None => true,
    }
    &&& match end {
        Some(e) => t <= e,
        None => true,
    }
}

/// The name of the activity type `id` in `ats` (first match), or
/// `"Unknown"` when it no longer resolves.
pub open spec fn spec_atype_name(ats: Seq<ActivityType>, id: u64) -> Seq<char>
    decreases ats.len(),
{
    if ats.len() == 0 {
        "Unknown"@
    } else if ats[0].id == id {
        ats[0].name@
    } else {
        spec_atype_name(ats.drop_first(), id)
    }
}

/// The whole minutes of the span from `start` to `end_or_now`.
pub open spec fn spec_minutes(start: u64, end_or_now: u64) -> u64 {
    duration_secs(start, end_or_now) / 60
}

/// The report entry of one activity: resolved type name, start, and whole
/// minutes, using `now` as the end while the activity is running.
pub open spec fn spec_report_activity(
    a: ModelActivity,
    ats: Seq<ActivityType>,
    now: u64,
) -> (Seq<char>, u64, u64) {
    (
        spec_atype_name(ats, a.atype),
        a.start,
        spec_minutes(
            a.start,
            match a.end {
                Some(e) => e,
                None => now,
            },
        ),
    )
}

/// The report entries of the activities whose start falls in the window, in
/// the order of `acts`.
pub open spec fn spec_report_activities(
    acts: Seq<ModelActivity>,
    ats: Seq<ActivityType>,
    start: Option<u64>,
    end: Option<u64>,
    now: u64,
) -> Seq<(Seq<char>, u64, u64)>
    decreases acts.len(),
{
    if acts.len() == 0 {
        Seq::empty()
    } else {
        let rest = spec_report_activities(acts.drop_first(), ats, start, end, now);
        if in_window(acts[0].start, start, end) {
            seq![spec_report_activity(acts[0], ats, now)] + rest
        } else {
            rest
        }
    }
}

/// The report entries of the counts whose date falls in the window, each
/// carrying `path`, in the order of `counts`.
pub open spec fn spec_report_counts(
    counts: Seq<ModelCount>,
    path: Seq<char>,
    start: Option<u64>,
    end: Option<u64>,
) -> Seq<(Seq<char>, u64, u64)>
    decreases counts.len(),
{
    if counts.len() == 0 {
        Seq::empty()
    } else {
        let rest = spec_report_counts(counts.drop_first(), path, start, end);
        if in_window(counts[0].date, start, end) {
            seq![(path, counts[0].date, counts[0].count)] + rest
        } else {
            rest
        }
    }
}

/// The abstract contents of a sequence of report activity entries.
pub open spec fn activity_entries(s: Seq<Activity>) -> Seq<(Seq<char>, u64, u64)> {
    s.map_values(|ra: Activity| ra.entry())
}

/// The abstract contents of a sequence of report count entries.
pub open spec fn count_entries(s: Seq<Count>) -> Seq<(Seq<char>, u64, u64)> {
    s.map_values(|rc: Count| rc.entry())
}

/// Resolves the name of the activity type `id` in `ats`, falling back to
/// `"Unknown"`.
pub fn resolve_atype_name(ats: &Vec<ActivityType>, id: u64) -> (s: String)
    ensures
        s@ == spec_atype_name(ats@, id),
{
    let mut i: usize = 0;
    proof {
        assert(ats@.skip(0) =~= ats@);
    }
    while i < ats.len()
        invariant
            0 <= i <= ats@.len(),
            spec_atype_name(ats@, id) == spec_atype_name(ats@.skip(i as int), id),
            forall|j: int| 0 <= j < i ==> (#[trigger] ats@[j].id) != id,
        decreases ats@.len() - i,
    {
        proof {
            assert(ats@.skip(i as int).len() > 0);
            assert(ats@.skip(i as int)[0] == ats@[i as int]);
            assert(ats@.skip(i as int).drop_first() =~= ats@.skip(i as int + 1));
        }
        if ats[i].id == id {
            return ats[i].name.clone();
        }
        i = i + 1;
    }
    proof {
        assert(ats@.skip(ats@.len() as int).len() == 0);
    }
    String::from_str("Unknown")
}

/// Builds the report entries of the activities whose start falls in the
/// window, resolving each type name and computing whole minutes with `now`
/// as the end of a running activity.
pub fn build_report_activities(
    acts: &Vec<ModelActivity>,
    ats: &Vec<ActivityType>,
    start: Option<u64>,
    end: Option<u64>,
    now: u64,
) -> (out: Vec<Activity>)
    ensures
        activity_entries(out@) == spec_report_activities(acts@, ats@, start, end, now),
{
    let mut out: Vec<Activity> = Vec::new();
    let mut i: usize = 0;
    proof {
        assert(acts@.skip(0) =~= acts@);
        assert(activity_entries(out@) + spec_report_activities(acts@, ats@, start, end, now)
            =~= spec_report_activities(acts@, ats@, start, end, now));
    }
    while i < acts.len()
        invariant
            0 <= i <= acts@.len(),
            spec_report_activities(acts@, ats@, start, end, now) == activity_entries(out@)
                + spec_report_activities(acts@.skip(i as int), ats@, start, end, now),
        decreases acts@.len() - i,
    {
        proof {
            assert(acts@.skip(i as int).len() > 0);
            assert(acts@.skip(i as int)[0] == acts@[i as int]);
            assert(acts@.skip(i as int).drop_first() =~= acts@.skip(i as int + 1));
        }
        let a = &acts[i];
        let after_start = match start {
            Some(s) => a.start >= s,
            None => true,
        };
        let before_end = match end {
            Some(e) => a.start <= e,
            None => true,
        };
        if after_start && before_end {
            let name = resolve_atype_name(ats, a.atype);
            let end_or_now = match a.end {
                Some(e) => e,
                None => now,
            };
            let secs = if end_or_now >= a.start {
                end_or_now - a.start
            } else {
                0
            };
            let entry = Activity { name, start: a.start, minutes: secs / 60 };
            proof {
                assert(entry.entry() == spec_report_activity(acts@[i as int], ats@, now));
            }
            let ghost before = out@;
            out.push(entry);
            proof {
                assert(activity_entries(out@) =~= activity_entries(before).push(entry.entry()));
                assert(activity_entries(before).push(entry.entry()) + spec_report_activities(
                    acts@.skip(i as int + 1),
                    ats@,
                    start,
                    end,
                    now,
                ) =~= activity_entries(before) + (seq![entry.entry()] + spec_report_activities(
                    acts@.skip(i as int + 1),
                    ats@,
                    start,
                    end,
                    now,
                )));
            }
        }
        i = i + 1;
    }
    proof {
        assert(acts@.skip(acts@.len() as int).len() == 0);
        assert(activity_entries(out@) + Seq::<(Seq<char>, u64, u64)>::empty() =~= activity_entries(
            out@,
        ));
    }
    out
}

/// Builds the report entries of the counts whose date falls in the window,
/// each carrying the repository path.
pub fn build_report_counts(
    counts: &Vec<ModelCount>,
    path: &String,
    start: Option<u64>,
    end: Option<u64>,
) -> (out: Vec<Count>)
    ensures
        count_entries(out@) == spec_report_counts(counts@, path@, start, end),
{
    let mut out: Vec<Count> = Vec::new();
    let mut i: usize = 0;
    proof {
        assert(counts@.skip(0) =~= counts@);
        assert(count_entries(out@) + spec_report_counts(counts@, path@, start, end)
            =~= spec_report_counts(counts@, path@, start, end));
    }
    while i < counts.len()
        invariant
            0 <= i <= counts@.len(),
            spec_report_counts(counts@, path@, start, end) == count_entries(out@)
                + spec_report_counts(counts@.skip(i as int), path@, start, end),
        decreases counts@.len() - i,
    {
        proof {
            assert(counts@.skip(i as int).len() > 0);
            assert(counts@.skip(i as int)[0] == counts@[i as int]);
            assert(counts@.skip(i as int).drop_first() =~= counts@.skip(i as int + 1));
        }
        let c = &counts[i];
        let after_start = match start {
            Some(s) => c.date >= s,
            None => true,
        };
        let before_end = match end {
            Some(e) => c.date <= e,
            None => true,
        };
        if after_start && before_end {
            let entry = Count { path: path.clone(), date: c.date, count: c.count };
            let ghost before = out@;
            out.push(entry);
            proof {
                assert(count_entries(out@) =~= count_entries(before).push(entry.entry()));
                assert(count_entries(before).push(entry.entry()) + spec_report_counts(
                    counts@.skip(i as int + 1),
                    path@,
                    start,
                    end,
                ) =~= count_entries(before) + (seq![entry.entry()] + spec_report_counts(
                    counts@.skip(i as int + 1),
                    path@,
                    start,
                    end,
                )));
            }
        }
        i = i + 1;
    }
    proof {
        assert(counts@.skip(counts@.len() as int).len() == 0);
        assert(count_entries(out@) + Seq::<(Seq<char>, u64, u64)>::empty() =~= count_entries(
            out@,
        ));
    }
    out
}

/// Renders a number of minutes as the phrase the console report uses:
/// hours first, then the leftover minutes, each pluralized, with `"zero"`
/// written out.
pub open spec fn minutes_phrase(total: nat) -> Seq<char> {
    hours_part(total / 60) + minutes_part(total % 60)
}

/// The hours half of the phrase, with a trailing space.
pub open spec fn hours_part(h: nat) -> Seq<char> {
    if h == 0 {
        "zero hours "@
    } else if h == 1 {
        "1 hour "@
    } else {
        dec_str(h) + " hours "@
    }
}

/// The minutes half of the phrase.
pub open spec fn minutes_part(m: nat) -> Seq<char> {
    if m == 0 {
        "zero minutes"@
    } else if m == 1 {
        "1 minute"@
    } else {
        dec_str(m) + " minutes"@
    }
}

/// Renders `minutes` as a phrase such as `"1 hour 23 minutes"`.
pub fn minutes_to_str(minutes: u64) -> (s: String)
    ensures
        s@ == minutes_phrase(minutes as nat),
{
    let h = minutes / 60;
    let m = minutes % 60;
    let mut s = if h == 0 {
        String::from_str("zero hours ")
    } else if h == 1 {
        String::from_str("1 hour ")
    } else {
        let mut t = u64_to_string(h);
        t.append(" hours ");
        t
    };
    if m == 0 {
        s.append("zero minutes");
    } else if m == 1 {
        s.append("1 minute");
    } else {
        let t = u64_to_string(m);
        s.append(t.as_str());
        s.append(" minutes");
    }
    s
}

} // verus!
