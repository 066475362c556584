use dev_tracker_core::data::DataStore;
use dev_tracker_core::errors::DtError;

#[test]
fn delete_project_cascades_to_repos_counts_and_activities() {
    let mut ds = DataStore::new(None).unwrap();
    let p = ds.create_project("Acme").unwrap();
    let at = ds.create_activitytype("coding", None).unwrap();

    let r1 = ds.create_repo(&p, "/src/one").unwrap();
    let r2 = ds.create_repo(&p, "/src/two").unwrap();
    let c1 = ds.create_count(&r1).unwrap();
    let c2 = ds.create_count(&r2).unwrap();

    let a1 = ds.start_activity(&p, &at, None).unwrap();
    ds.stop_running_activity(&p).unwrap();
    let a2 = ds.start_activity(&p, &at, None).unwrap();
    ds.stop_running_activity(&p).unwrap();
    let a3 = ds.start_activity(&p, &at, None).unwrap();

    let doomed = ds.get_project("Acme").unwrap().unwrap();
    ds.delete_project(doomed).unwrap();

    assert!(ds.get_project_with_id(p.id()).unwrap().is_none());
    for id in [a1.id(), a2.id(), a3.id()] {
        assert!(ds.get_activity_with_id(id).unwrap().is_none());
    }
    for id in [r1.id(), r2.id()] {
        assert!(ds.get_repo_with_id(id).unwrap().is_none());
    }
    for id in [c1.id(), c2.id()] {
        assert!(ds.get_count_with_id(id).unwrap().is_none());
    }
}

#[test]
fn delete_project_leaves_other_projects_alone() {
    let mut ds = DataStore::new(None).unwrap();
    let p = ds.create_project("Acme").unwrap();
    let q = ds.create_project("Beta").unwrap();
    let at = ds.create_activitytype("coding", None).unwrap();
    let rp = ds.create_repo(&p, "/src/acme").unwrap();
    let rq = ds.create_repo(&q, "/src/beta").unwrap();
    let cq = ds.create_count(&rq).unwrap();
    ds.start_activity(&q, &at, None).unwrap();

    let doomed = ds.get_project("Acme").unwrap().unwrap();
    ds.delete_project(doomed).unwrap();

    assert!(ds.get_repo_with_id(rp.id()).unwrap().is_none());
    assert!(ds.get_project_with_id(q.id()).unwrap().is_some());
    assert!(ds.get_repo_with_id(rq.id()).unwrap().is_some());
    assert!(ds.get_count_with_id(cq.id()).unwrap().is_some());
    assert_eq!(ds.get_activities(&q).unwrap().len(), 1);
}

#[test]
fn delete_missing_project_fails() {
    let mut ds = DataStore::new(None).unwrap();
    let p = ds.create_project("Acme").unwrap();
    let doomed = ds.get_project("Acme").unwrap().unwrap();
    ds.delete_project(doomed).unwrap();
    let r = ds.delete_project(p);
    assert!(matches!(r, Err(DtError::ProjectNotFound(_))));
}
