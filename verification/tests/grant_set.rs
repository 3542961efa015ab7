use medical_records::GrantSet;

fn text(t: &str) -> String {
    String::from(t)
}

#[test]
fn empty_set_has_no_members() {
    let set = GrantSet::new();
    assert!(!set.contains(&text("bob")));
    assert!(set.to_vec().is_empty());
}

#[test]
fn insert_reports_whether_the_member_is_new() {
    let mut set = GrantSet::new();
    assert!(set.insert(text("bob")));
    assert!(!set.insert(text("bob")));
    assert!(set.insert(text("carol")));
    assert!(set.contains(&text("bob")));
    assert!(set.contains(&text("carol")));
    assert_eq!(set.to_vec().len(), 2);
}

#[test]
fn remove_reports_whether_the_member_was_there() {
    let mut set = GrantSet::new();
    set.insert(text("bob"));
    set.insert(text("carol"));
    set.insert(text("dave"));
    assert!(!set.remove(&text("erin")));
    assert!(set.remove(&text("carol")));
    assert!(!set.remove(&text("carol")));
    assert!(!set.contains(&text("carol")));
    let mut left: Vec<String> = set.to_vec();
    left.sort();
    assert_eq!(left, vec![text("bob"), text("dave")]);
}
