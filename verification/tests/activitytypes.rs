use dev_tracker_core::data::DataStore;
use dev_tracker_core::errors::DtError;

#[test]
fn sentinel_type_exists_from_the_start() {
    let ds = DataStore::new(None).unwrap();
    let sentinel = ds.get_activitytype_with_id(0).unwrap().unwrap();
    assert_eq!(sentinel.id(), 0);
    assert_eq!(sentinel.name(), "Unknown");
    assert_eq!(sentinel.description().as_deref(), Some("Unknown activity type"));
}

#[test]
fn create_and_get_activitytype() {
    let mut ds = DataStore::new(None).unwrap();
    let at = ds.create_activitytype("coding", Some(String::from("writing code"))).unwrap();
    assert_ne!(at.id(), 0);
    let got = ds.get_activitytype("coding").unwrap().unwrap();
    assert_eq!(got.id(), at.id());
    assert_eq!(got.description().as_deref(), Some("writing code"));
    let r = ds.create_activitytype("coding", None);
    assert!(matches!(r, Err(DtError::ActivityTypeAlreadyExists(ref s)) if s == "coding"));
}

#[test]
fn deleting_a_type_in_use_repoints_activities_to_the_sentinel() {
    let mut ds = DataStore::new(None).unwrap();
    let p = ds.create_project("Acme").unwrap();
    let at = ds.create_activitytype("coding", None).unwrap();
    let a1 = ds.start_activity(&p, &at, None).unwrap();
    ds.stop_running_activity(&p).unwrap();
    let a2 = ds.start_activity(&p, &at, None).unwrap();
    ds.stop_running_activity(&p).unwrap();

    let doomed = ds.get_activitytype("coding").unwrap().unwrap();
    ds.delete_activitytype(doomed).unwrap();

    assert!(ds.get_activitytype("coding").unwrap().is_none());
    for id in [a1.id(), a2.id()] {
        let a = ds.get_activity_with_id(id).unwrap().unwrap();
        assert_eq!(a.atype(), 0, "activity must fall back to the sentinel type");
    }
    // The sentinel itself is still there.
    assert!(ds.get_activitytype_with_id(0).unwrap().is_some());
}

#[test]
fn the_sentinel_type_cannot_be_deleted() {
    let mut ds = DataStore::new(None).unwrap();
    let sentinel = ds.get_activitytype_with_id(0).unwrap().unwrap();
    let r = ds.delete_activitytype(sentinel);
    assert!(matches!(r, Err(DtError::ActivityTypeInUse(_))));
    assert!(ds.get_activitytype_with_id(0).unwrap().is_some());
}

#[test]
fn delete_missing_type_fails() {
    let mut ds = DataStore::new(None).unwrap();
    let at = ds.create_activitytype("coding", None).unwrap();
    let doomed = ds.get_activitytype("coding").unwrap().unwrap();
    ds.delete_activitytype(doomed).unwrap();
    let r = ds.delete_activitytype(at);
    assert!(matches!(r, Err(DtError::ActivityTypeNotFound(_))));
}

#[test]
fn update_activitytype_persists_name_and_description() {
    let mut ds = DataStore::new(None).unwrap();
    let mut at = ds.create_activitytype("coding", None).unwrap();
    at.set_name(String::from("hacking"));
    at.set_description(Some(String::from("all of it")));
    ds.update_activitytype(&at).unwrap();
    let got = ds.get_activitytype("hacking").unwrap().unwrap();
    assert_eq!(got.id(), at.id());
    assert_eq!(got.description().as_deref(), Some("all of it"));
    assert!(ds.get_activitytype("coding").unwrap().is_none());
}

#[test]
fn get_activitytypes_lists_sentinel_and_created() {
    let mut ds = DataStore::new(None).unwrap();
    ds.create_activitytype("coding", None).unwrap();
    ds.create_activitytype("research", None).unwrap();
    let all = ds.get_activitytypes().unwrap();
    assert_eq!(all.len(), 3);
    assert_eq!(all[0].id(), 0);
    assert!(all[1].id() < all[2].id());
}
