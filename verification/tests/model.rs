use dev_tracker_core::model::{Activity, ActivityType, Count, Project, Repo};

#[test]
fn fresh_entities_carry_id_zero_until_inserted() {
    let p = Project::new(String::from("Acme"));
    assert_eq!(p.id(), 0);
    assert_eq!(p.name(), "Acme");

    let at = ActivityType::new(String::from("coding"), None);
    assert_eq!(at.id(), 0);
    assert!(at.description().is_none());

    let r = Repo::new(String::from("/src/acme"), 3);
    assert_eq!(r.id(), 0);
    assert_eq!(r.project(), 3);
    assert_eq!(r.path(), "/src/acme");

    let c = Count::new(5, 1000, 42);
    assert_eq!(c.id(), 0);
    assert_eq!(c.repo(), 5);
    assert_eq!(c.date(), 1000);
    assert_eq!(c.count(), 42);

    let a = Activity::new(3, 1, Some(String::from("work")));
    assert_eq!(a.id(), 0);
    assert_eq!(a.project(), 3);
    assert_eq!(a.atype(), 1);
    assert!(a.end_time().is_none());
    assert!(a.duration().is_none());
}

#[test]
fn setters_replace_exactly_one_field() {
    let mut p = Project::new(String::from("Acme"));
    p.set_name(String::from("Beta"));
    assert_eq!(p.name(), "Beta");

    let mut r = Repo::new(String::from("/a"), 1);
    r.set_project(9);
    r.set_path(String::from("/b"));
    assert_eq!(r.project(), 9);
    assert_eq!(r.path(), "/b");

    let mut a = Activity::new(1, 2, None);
    a.set_project(7);
    a.set_atype(8);
    a.set_description(Some(String::from("d")));
    assert_eq!(a.project(), 7);
    assert_eq!(a.atype(), 8);
    assert_eq!(a.description().as_deref(), Some("d"));
}

#[test]
fn stopping_an_activity_never_ends_before_it_started() {
    let mut a = Activity::new(1, 0, None);
    a.stop();
    let end = a.end_time().unwrap();
    assert!(end >= a.start_time());
    assert_eq!(a.duration(), Some(end - a.start_time()));
}

#[test]
fn duration_clamps_an_earlier_end_to_zero() {
    let mut a = Activity::new(1, 0, None);
    let start = a.start_time();
    a.set_end_time(Some(start + 30));
    assert_eq!(a.duration(), Some(30));
}
