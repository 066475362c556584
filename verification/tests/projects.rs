use dev_tracker_core::data::DataStore;
use dev_tracker_core::errors::DtError;

#[test]
fn create_then_get_returns_project() {
    let mut ds = DataStore::new(None).unwrap();
    let p = ds.create_project("Acme").unwrap();
    assert_ne!(p.id(), 0);
    assert_eq!(p.name(), "Acme");
    let got = ds.get_project("Acme").unwrap().unwrap();
    assert_eq!(got.id(), p.id());
    assert_eq!(got.name(), "Acme");
}

#[test]
fn second_create_fails_with_already_exists() {
    let mut ds = DataStore::new(None).unwrap();
    ds.create_project("Acme").unwrap();
    let r = ds.create_project("Acme");
    assert!(matches!(r, Err(DtError::ProjectAlreadyExists(ref s)) if s == "Acme"));
}

#[test]
fn get_project_missing_is_none() {
    let ds = DataStore::new(None).unwrap();
    assert!(ds.get_project("nope").unwrap().is_none());
    assert!(ds.get_project_with_id(7).unwrap().is_none());
}

#[test]
fn get_projects_lists_all_in_id_order() {
    let mut ds = DataStore::new(None).unwrap();
    let a = ds.create_project("a").unwrap();
    let b = ds.create_project("b").unwrap();
    let all = ds.get_projects().unwrap();
    assert_eq!(all.len(), 2);
    assert_eq!(all[0].id(), a.id());
    assert_eq!(all[1].id(), b.id());
    assert!(all[0].id() < all[1].id());
}

#[test]
fn update_project_persists_new_name() {
    let mut ds = DataStore::new(None).unwrap();
    let mut p = ds.create_project("Acme").unwrap();
    p.set_name(String::from("Umbrella"));
    ds.update_project(&p).unwrap();
    let got = ds.get_project("Umbrella").unwrap().unwrap();
    assert_eq!(got.id(), p.id());
    assert!(ds.get_project("Acme").unwrap().is_none());
}

#[test]
fn update_missing_project_fails() {
    let mut ds = DataStore::new(None).unwrap();
    let mut p = ds.create_project("Acme").unwrap();
    let doomed = ds.get_project("Acme").unwrap().unwrap();
    ds.delete_project(doomed).unwrap();
    p.set_name(String::from("Umbrella"));
    let r = ds.update_project(&p);
    assert!(matches!(r, Err(DtError::ProjectNotFound(_))));
}

#[test]
fn rename_project_moves_the_name() {
    let mut ds = DataStore::new(None).unwrap();
    let p = ds.create_project("Acme").unwrap();
    ds.rename_project("Acme", "Beta").unwrap();
    let got = ds.get_project("Beta").unwrap().unwrap();
    assert_eq!(got.id(), p.id());
    assert!(ds.get_project("Acme").unwrap().is_none());
}

#[test]
fn rename_to_existing_name_fails_and_leaves_old_untouched() {
    let mut ds = DataStore::new(None).unwrap();
    let acme = ds.create_project("Acme").unwrap();
    ds.create_project("Beta").unwrap();
    let r = ds.rename_project("Acme", "Beta");
    assert!(matches!(r, Err(DtError::ProjectAlreadyExists(ref s)) if s == "Beta"));
    let still = ds.get_project("Acme").unwrap().unwrap();
    assert_eq!(still.id(), acme.id());
    assert_eq!(still.name(), "Acme");
}

#[test]
fn rename_missing_project_fails() {
    let mut ds = DataStore::new(None).unwrap();
    let r = ds.rename_project("ghost", "Beta");
    assert!(matches!(r, Err(DtError::ProjectNotFound(ref s)) if s == "ghost"));
}
