use medical_records::AccessLedger;

fn s(text: &str) -> String {
    String::from(text)
}

fn sorted(mut v: Vec<String>) -> Vec<String> {
    v.sort();
    v
}

#[test]
fn new_ledger_grants_nothing() {
    let ledger = AccessLedger::new();
    assert!(!ledger.has_access(1, s("bob")));
    assert!(!ledger.has_access(0, s("")));
    assert!(ledger.get_grantees(1).is_empty());
}

#[test]
fn grant_then_has_access() {
    let mut ledger = AccessLedger::new();
    ledger.grant_access(1, s("bob"));
    assert!(ledger.has_access(1, s("bob")));
    assert!(!ledger.has_access(1, s("carol")));
    assert_eq!(ledger.get_grantees(1), vec![s("bob")]);
}

#[test]
fn access_lasts_until_revoked() {
    let mut ledger = AccessLedger::new();
    assert!(!ledger.has_access(7, s("dana")));
    ledger.grant_access(7, s("dana"));
    assert!(ledger.has_access(7, s("dana")));
    ledger.grant_access(7, s("erin"));
    ledger.grant_access(8, s("dana"));
    ledger.revoke_access(7, s("erin"));
    ledger.revoke_access(9, s("dana"));
    assert!(ledger.has_access(7, s("dana")));
    ledger.revoke_access(7, s("dana"));
    assert!(!ledger.has_access(7, s("dana")));
    assert!(ledger.has_access(8, s("dana")));
    ledger.grant_access(7, s("dana"));
    assert!(ledger.has_access(7, s("dana")));
}

#[test]
fn grant_is_idempotent() {
    let mut ledger = AccessLedger::new();
    ledger.grant_access(3, s("bob"));
    ledger.grant_access(3, s("bob"));
    assert_eq!(ledger.get_grantees(3), vec![s("bob")]);
    ledger.revoke_access(3, s("bob"));
    assert!(!ledger.has_access(3, s("bob")));
    assert!(ledger.get_grantees(3).is_empty());
}

#[test]
fn revoke_of_unknown_record_changes_nothing() {
    let mut ledger = AccessLedger::new();
    ledger.grant_access(1, s("bob"));
    ledger.revoke_access(2, s("bob"));
    assert!(ledger.has_access(1, s("bob")));
    assert!(!ledger.has_access(2, s("bob")));
    assert!(ledger.get_grantees(2).is_empty());
    assert_eq!(ledger.get_grantees(1), vec![s("bob")]);
}

#[test]
fn revoke_of_never_granted_principal_changes_nothing() {
    let mut ledger = AccessLedger::new();
    ledger.grant_access(1, s("bob"));
    ledger.grant_access(1, s("carol"));
    ledger.revoke_access(1, s("mallory"));
    assert_eq!(sorted(ledger.get_grantees(1)), vec![s("bob"), s("carol")]);
    assert!(!ledger.has_access(1, s("mallory")));
}

#[test]
fn grantees_after_two_grants_and_a_revoke() {
    let mut ledger = AccessLedger::new();
    ledger.grant_access(5, s("A"));
    ledger.grant_access(5, s("B"));
    ledger.revoke_access(5, s("A"));
    assert_eq!(ledger.get_grantees(5), vec![s("B")]);
}

#[test]
fn revoking_the_last_grantee_leaves_an_empty_set() {
    let mut ledger = AccessLedger::new();
    ledger.grant_access(4, s("bob"));
    ledger.revoke_access(4, s("bob"));
    assert!(ledger.get_grantees(4).is_empty());
    assert!(!ledger.has_access(4, s("bob")));
    ledger.revoke_access(4, s("bob"));
    assert!(ledger.get_grantees(4).is_empty());
}

#[test]
fn one_principal_on_many_records() {
    let mut ledger = AccessLedger::new();
    ledger.grant_access(1, s("bob"));
    ledger.grant_access(2, s("bob"));
    ledger.grant_access(u64::MAX, s("bob"));
    ledger.revoke_access(2, s("bob"));
    assert!(ledger.has_access(1, s("bob")));
    assert!(!ledger.has_access(2, s("bob")));
    assert!(ledger.has_access(u64::MAX, s("bob")));
}

#[test]
fn grantees_hold_each_principal_once() {
    let mut ledger = AccessLedger::new();
    let names: [&str; 4] = ["d", "a", "c", "b"];
    for name in names {
        ledger.grant_access(9, s(name));
    }
    for name in names {
        ledger.grant_access(9, s(name));
    }
    assert_eq!(sorted(ledger.get_grantees(9)), vec![s("a"), s("b"), s("c"), s("d")]);
}

#[test]
fn principals_are_compared_exactly() {
    let mut ledger = AccessLedger::new();
    ledger.grant_access(1, s("bob"));
    assert!(!ledger.has_access(1, s("Bob")));
    assert!(!ledger.has_access(1, s("bob ")));
    assert!(!ledger.has_access(1, s("")));
    ledger.grant_access(1, s(""));
    assert!(ledger.has_access(1, s("")));
}
