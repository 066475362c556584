use dev_tracker_core::data::DataStore;
use dev_tracker_core::errors::DtError;

#[test]
fn latest_count_is_none_without_counts() {
    let mut ds = DataStore::new(None).unwrap();
    let p = ds.create_project("Acme").unwrap();
    let repo = ds.create_repo(&p, "/no/such/place").unwrap();
    assert!(ds.get_latest_count(&repo).unwrap().is_none());
}

#[test]
fn latest_count_returns_the_newest_row() {
    let mut ds = DataStore::new(None).unwrap();
    let p = ds.create_project("Acme").unwrap();
    let repo = ds.create_repo(&p, "/no/such/place").unwrap();
    let c1 = ds.create_count(&repo).unwrap();
    // Let the clock tick so that the second count carries a later date; on
    // equal dates the higher id must win either way.
    let begin = std::time::Instant::now();
    while begin.elapsed().as_millis() < 1100 {}
    let c2 = ds.create_count(&repo).unwrap();
    assert!(c2.date() >= c1.date());
    let latest = ds.get_latest_count(&repo).unwrap().unwrap();
    assert_eq!(latest.id(), c2.id());
}

#[test]
fn equal_dates_break_ties_by_highest_id() {
    let mut ds = DataStore::new(None).unwrap();
    let p = ds.create_project("Acme").unwrap();
    let repo = ds.create_repo(&p, "/no/such/place").unwrap();
    let _c1 = ds.create_count(&repo).unwrap();
    let c2 = ds.create_count(&repo).unwrap();
    let c3 = ds.create_count(&repo).unwrap();
    assert!(c3.id() > c2.id());
    let latest = ds.get_latest_count(&repo).unwrap().unwrap();
    assert_eq!(latest.id(), c3.id());
}

#[test]
fn count_on_missing_repo_fails() {
    let mut ds = DataStore::new(None).unwrap();
    let p = ds.create_project("Acme").unwrap();
    let repo = ds.create_repo(&p, "/no/such/place").unwrap();
    let doomed = ds.get_repo("/no/such/place").unwrap().unwrap();
    ds.delete_repo(doomed).unwrap();
    let r = ds.create_count(&repo);
    assert!(matches!(r, Err(DtError::RepoNotFound(_))));
    let r = ds.get_counts(&repo);
    assert!(matches!(r, Err(DtError::RepoNotFound(_))));
}

#[test]
fn get_total_loc_reads_the_stored_total() {
    let mut ds = DataStore::new(None).unwrap();
    let p = ds.create_project("Acme").unwrap();
    let repo = ds.create_repo(&p, "/no/such/place").unwrap();
    let c = ds.create_count(&repo).unwrap();
    let total = ds.get_total_loc(&c).unwrap();
    assert_eq!(total, c.count());
}

#[test]
fn delete_count_removes_the_row() {
    let mut ds = DataStore::new(None).unwrap();
    let p = ds.create_project("Acme").unwrap();
    let repo = ds.create_repo(&p, "/no/such/place").unwrap();
    let c = ds.create_count(&repo).unwrap();
    let doomed = ds.get_count_with_id(c.id()).unwrap().unwrap();
    ds.delete_count(doomed).unwrap();
    assert!(ds.get_count_with_id(c.id()).unwrap().is_none());
    let r = ds.delete_count(c);
    assert!(matches!(r, Err(DtError::CountNotFound(_))));
}

#[test]
fn repos_are_per_project_and_found_by_path() {
    let mut ds = DataStore::new(None).unwrap();
    let p = ds.create_project("Acme").unwrap();
    let q = ds.create_project("Beta").unwrap();
    let r1 = ds.create_repo(&p, "/src/acme").unwrap();
    let _r2 = ds.create_repo(&q, "/src/beta").unwrap();
    let of_p = ds.get_repos(&p).unwrap();
    assert_eq!(of_p.len(), 1);
    assert_eq!(of_p[0].id(), r1.id());
    let by_path = ds.get_repo("/src/acme").unwrap().unwrap();
    assert_eq!(by_path.id(), r1.id());
    assert_eq!(by_path.project(), p.id());
    assert!(ds.get_repo("/src/nowhere").unwrap().is_none());
}

#[test]
fn update_repo_persists_path() {
    let mut ds = DataStore::new(None).unwrap();
    let p = ds.create_project("Acme").unwrap();
    let mut repo = ds.create_repo(&p, "/src/acme").unwrap();
    repo.set_path(String::from("/srv/acme"));
    ds.update_repo(&repo).unwrap();
    assert!(ds.get_repo("/src/acme").unwrap().is_none());
    let got = ds.get_repo("/srv/acme").unwrap().unwrap();
    assert_eq!(got.id(), repo.id());
}

#[test]
fn delete_repo_takes_its_counts_with_it() {
    let mut ds = DataStore::new(None).unwrap();
    let p = ds.create_project("Acme").unwrap();
    let repo = ds.create_repo(&p, "/no/such/place").unwrap();
    let c1 = ds.create_count(&repo).unwrap();
    let c2 = ds.create_count(&repo).unwrap();
    let doomed = ds.get_repo("/no/such/place").unwrap().unwrap();
    ds.delete_repo(doomed).unwrap();
    assert!(ds.get_repo_with_id(repo.id()).unwrap().is_none());
    assert!(ds.get_count_with_id(c1.id()).unwrap().is_none());
    assert!(ds.get_count_with_id(c2.id()).unwrap().is_none());
}
