use dev_tracker_core::data::DataStore;
use dev_tracker_core::errors::DtError;

#[test]
fn start_succeeds_when_nothing_runs() {
    let mut ds = DataStore::new(None).unwrap();
    let p = ds.create_project("Acme").unwrap();
    let at = ds.create_activitytype("coding", None).unwrap();
    let a = ds.start_activity(&p, &at, None).unwrap();
    assert_ne!(a.id(), 0);
    assert_eq!(a.project(), p.id());
    assert_eq!(a.atype(), at.id());
    assert!(a.end_time().is_none());
    let running = ds.get_running_activity(&p).unwrap().unwrap();
    assert_eq!(running.id(), a.id());
}

#[test]
fn second_start_fails_while_running() {
    let mut ds = DataStore::new(None).unwrap();
    let p = ds.create_project("Acme").unwrap();
    let at = ds.create_activitytype("coding", None).unwrap();
    ds.start_activity(&p, &at, None).unwrap();
    let r = ds.start_activity(&p, &at, None);
    assert!(matches!(r, Err(DtError::RunningActivityAlreadyExists(_))));
}

#[test]
fn stop_sets_end_at_or_after_start() {
    let mut ds = DataStore::new(None).unwrap();
    let p = ds.create_project("Acme").unwrap();
    let at = ds.create_activitytype("coding", None).unwrap();
    let a = ds.start_activity(&p, &at, None).unwrap();
    let stopped = ds.stop_running_activity(&p).unwrap().unwrap();
    assert_eq!(stopped.id(), a.id());
    let end = stopped.end_time().unwrap();
    assert!(end >= stopped.start_time());
    // With nothing running any more, stopping is a no-op signal.
    assert!(ds.stop_running_activity(&p).unwrap().is_none());
}

#[test]
fn cancel_removes_the_running_row() {
    let mut ds = DataStore::new(None).unwrap();
    let p = ds.create_project("Acme").unwrap();
    let at = ds.create_activitytype("coding", None).unwrap();
    let a = ds.start_activity(&p, &at, None).unwrap();
    ds.cancel_running_actvity(&p).unwrap();
    assert!(ds.get_activity_with_id(a.id()).unwrap().is_none());
    assert!(ds.get_running_activity(&p).unwrap().is_none());
    // Cancelling with nothing running is a no-op.
    ds.cancel_running_actvity(&p).unwrap();
}

#[test]
fn update_end_before_start_fails_without_mutating() {
    let mut ds = DataStore::new(None).unwrap();
    let p = ds.create_project("Acme").unwrap();
    let at = ds.create_activitytype("coding", None).unwrap();
    let a = ds.start_activity(&p, &at, None).unwrap();
    let start = a.start_time();
    assert!(start > 0);
    let r = ds.update_activity_end(a.id(), start - 1);
    assert!(matches!(r, Err(DtError::InvalidState(_))));
    let same = ds.get_activity_with_id(a.id()).unwrap().unwrap();
    assert_eq!(same.start_time(), start);
    assert!(same.end_time().is_none());
}

#[test]
fn update_end_at_or_after_start_is_stored() {
    let mut ds = DataStore::new(None).unwrap();
    let p = ds.create_project("Acme").unwrap();
    let at = ds.create_activitytype("coding", None).unwrap();
    let a = ds.start_activity(&p, &at, None).unwrap();
    let start = a.start_time();
    ds.update_activity_end(a.id(), start + 90).unwrap();
    let got = ds.get_activity_with_id(a.id()).unwrap().unwrap();
    assert_eq!(got.end_time(), Some(start + 90));
    assert_eq!(got.duration(), Some(90));
}

#[test]
fn update_description_atype_and_project() {
    let mut ds = DataStore::new(None).unwrap();
    let p = ds.create_project("Acme").unwrap();
    let q = ds.create_project("Beta").unwrap();
    let at = ds.create_activitytype("coding", None).unwrap();
    let at2 = ds.create_activitytype("research", None).unwrap();
    let a = ds.start_activity(&p, &at, None).unwrap();

    ds.update_activity_description(a.id(), Some(String::from("deep work"))).unwrap();
    let got = ds.get_activity_with_id(a.id()).unwrap().unwrap();
    assert_eq!(got.description().as_deref(), Some("deep work"));

    ds.update_activity_atype(a.id(), at2.id()).unwrap();
    let got = ds.get_activity_with_id(a.id()).unwrap().unwrap();
    assert_eq!(got.atype(), at2.id());

    ds.update_activity_project(a.id(), q.id()).unwrap();
    let got = ds.get_activity_with_id(a.id()).unwrap().unwrap();
    assert_eq!(got.project(), q.id());

    let r = ds.update_activity_atype(a.id(), 999);
    assert!(matches!(r, Err(DtError::ActivityTypeNotFound(_))));
    let r = ds.update_activity_project(a.id(), 999);
    assert!(matches!(r, Err(DtError::ProjectNotFound(_))));
}

#[test]
fn update_activity_persists_passed_fields() {
    let mut ds = DataStore::new(None).unwrap();
    let p = ds.create_project("Acme").unwrap();
    let at = ds.create_activitytype("coding", None).unwrap();
    let a = ds.start_activity(&p, &at, None).unwrap();
    let mut copy = ds.get_activity_with_id(a.id()).unwrap().unwrap();
    copy.set_description(Some(String::from("late night")));
    copy.set_end_time(Some(copy.start_time() + 10));
    ds.update_activity(&copy).unwrap();
    let got = ds.get_activity_with_id(a.id()).unwrap().unwrap();
    assert_eq!(got.description().as_deref(), Some("late night"));
    assert_eq!(got.end_time(), Some(copy.start_time() + 10));
}

#[test]
fn delete_missing_activity_fails() {
    let mut ds = DataStore::new(None).unwrap();
    let p = ds.create_project("Acme").unwrap();
    let at = ds.create_activitytype("coding", None).unwrap();
    let a = ds.start_activity(&p, &at, None).unwrap();
    let copy = ds.get_activity_with_id(a.id()).unwrap().unwrap();
    ds.delete_activity(copy).unwrap();
    let copy = a;
    let r = ds.delete_activity(copy);
    assert!(matches!(r, Err(DtError::ActivityNotFound(_))));
}

#[test]
fn get_activities_returns_only_the_projects_rows() {
    let mut ds = DataStore::new(None).unwrap();
    let p = ds.create_project("Acme").unwrap();
    let q = ds.create_project("Beta").unwrap();
    let at = ds.create_activitytype("coding", None).unwrap();
    ds.start_activity(&p, &at, None).unwrap();
    ds.stop_running_activity(&p).unwrap();
    ds.start_activity(&q, &at, None).unwrap();
    let of_p = ds.get_activities(&p).unwrap();
    assert_eq!(of_p.len(), 1);
    assert_eq!(of_p[0].project(), p.id());
    let of_q = ds.get_activities(&q).unwrap();
    assert_eq!(of_q.len(), 1);
    assert_eq!(of_q[0].project(), q.id());
}

#[test]
fn start_on_missing_project_or_type_fails() {
    let mut ds = DataStore::new(None).unwrap();
    let p = ds.create_project("Acme").unwrap();
    let at = ds.create_activitytype("coding", None).unwrap();
    let ghost_p = {
        let doomed = ds.get_project("Acme").unwrap().unwrap();
        let keep = ds.get_project("Acme").unwrap().unwrap();
        ds.delete_project(doomed).unwrap();
        keep
    };
    let r = ds.start_activity(&ghost_p, &at, None);
    assert!(matches!(r, Err(DtError::ProjectNotFound(_))));
    let p2 = ds.create_project("Beta").unwrap();
    let _ = p;
    let doomed_at = ds.get_activitytype("coding").unwrap().unwrap();
    ds.delete_activitytype(doomed_at).unwrap();
    let r = ds.start_activity(&p2, &at, None);
    assert!(matches!(r, Err(DtError::ActivityTypeNotFound(_))));
}
