use dev_tracker_core::data::DataStore;
use dev_tracker_core::errors::DtError;

#[test]
fn report_covers_one_activity_and_the_repo_path() {
    let mut ds = DataStore::new(None).unwrap();
    let p = ds.create_project("Acme").unwrap();
    ds.create_repo(&p, "/src/acme").unwrap();
    let at = ds.create_activitytype("coding", None).unwrap();
    ds.start_activity(&p, &at, None).unwrap();
    ds.stop_running_activity(&p).unwrap();

    let rep = ds.create_report(&p, None, None).unwrap();
    assert_eq!(rep.project_name, "Acme");
    assert!(rep.start.is_none());
    assert!(rep.end.is_none());
    assert_eq!(rep.activities.len(), 1);
    assert_eq!(rep.activities[0].name, "coding");
    assert!(rep.activities[0].minutes < 2);
    assert_eq!(rep.counts.len(), 1);
    assert_eq!(rep.counts[0].path, "/src/acme");
    assert!(rep.counts[0].counts.is_empty());
}

#[test]
fn report_window_filters_activities_and_counts() {
    let mut ds = DataStore::new(None).unwrap();
    let p = ds.create_project("Acme").unwrap();
    let repo = ds.create_repo(&p, "/src/acme").unwrap();
    let at = ds.create_activitytype("coding", None).unwrap();
    let a = ds.start_activity(&p, &at, None).unwrap();
    ds.stop_running_activity(&p).unwrap();
    let c = ds.create_count(&repo).unwrap();

    // A window that covers everything.
    let rep = ds.create_report(&p, Some(0), Some(u64::MAX)).unwrap();
    assert_eq!(rep.activities.len(), 1);
    assert_eq!(rep.counts.len(), 1);
    assert_eq!(rep.counts[0].counts.len(), 1);
    assert_eq!(rep.counts[0].counts[0].date, c.date());
    assert_eq!(rep.counts[0].counts[0].count, c.count());

    // A window that starts after everything.
    let rep = ds.create_report(&p, Some(a.start_time() + 100_000), None).unwrap();
    assert_eq!(rep.activities.len(), 0);
    assert_eq!(rep.counts.len(), 1, "the repo entry stays even when empty");
    assert!(rep.counts[0].counts.is_empty());

    // A window that ends before everything.
    let rep = ds.create_report(&p, None, Some(1)).unwrap();
    assert_eq!(rep.activities.len(), 0);
    assert!(rep.counts[0].counts.is_empty());
}

#[test]
fn report_resolves_deleted_types_to_unknown() {
    let mut ds = DataStore::new(None).unwrap();
    let p = ds.create_project("Acme").unwrap();
    let at = ds.create_activitytype("coding", None).unwrap();
    let a = ds.start_activity(&p, &at, None).unwrap();
    ds.stop_running_activity(&p).unwrap();
    // Repoint the activity to a type id that does not resolve at all; the
    // report must then fall back to the name "Unknown".
    let mut copy = ds.get_activity_with_id(a.id()).unwrap().unwrap();
    copy.set_atype(0);
    ds.update_activity(&copy).unwrap();
    let doomed = ds.get_activitytype("coding").unwrap().unwrap();
    ds.delete_activitytype(doomed).unwrap();
    let rep = ds.create_report(&p, None, None).unwrap();
    assert_eq!(rep.activities.len(), 1);
    assert_eq!(rep.activities[0].name, "Unknown");
}

#[test]
fn report_on_missing_project_fails() {
    let mut ds = DataStore::new(None).unwrap();
    let p = ds.create_project("Acme").unwrap();
    let doomed = ds.get_project("Acme").unwrap().unwrap();
    ds.delete_project(doomed).unwrap();
    let r = ds.create_report(&p, None, None);
    assert!(matches!(r, Err(DtError::ProjectNotFound(_))));
}

#[test]
fn report_of_running_activity_uses_the_clock() {
    let mut ds = DataStore::new(None).unwrap();
    let p = ds.create_project("Acme").unwrap();
    let at = ds.create_activitytype("coding", None).unwrap();
    ds.start_activity(&p, &at, None).unwrap();
    let rep = ds.create_report(&p, None, None).unwrap();
    assert_eq!(rep.activities.len(), 1);
    assert!(rep.activities[0].minutes < 2);
}
