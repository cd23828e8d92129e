use crystal::event::Event;
use crystal::membership::{is_refresh_trigger, MembershipCache};

fn event(category: &str, actor: Option<&str>, receptor: Option<&str>) -> Event {
    Event::new(
        category.to_string(),
        actor.map(|s| s.to_string()),
        receptor.map(|s| s.to_string()),
        None,
        None,
    )
}

#[test]
fn insert_remove_contains() {
    let mut c = MembershipCache::new();
    assert!(!c.contains("a"));
    c.insert("a".to_string());
    c.insert("b".to_string());
    c.insert("a".to_string());
    assert!(c.contains("a"));
    assert!(c.contains("b"));
    c.remove("a");
    assert!(!c.contains("a"));
    assert!(c.contains("b"));
    c.remove("missing");
    assert!(c.contains("b"));
}

#[test]
fn replace_all_forgets_previous_contents() {
    let mut c = MembershipCache::new();
    c.insert("old".to_string());
    c.replace_all(vec!["x".to_string(), "y".to_string(), "x".to_string()]);
    assert!(!c.contains("old"));
    assert!(c.contains("x"));
    assert!(c.contains("y"));
}

#[test]
fn refresh_outcome_depends_only_on_fetched_set() {
    // Two caches in different states end up identical after the same
    // refresh: a repeated or concurrent-but-serialized refresh cannot
    // corrupt the set.
    let mut a = MembershipCache::new();
    let mut b = MembershipCache::new();
    a.insert("junk".to_string());
    let members = vec!["m1".to_string(), "m2".to_string()];
    a.replace_all(members.clone());
    b.replace_all(members.clone());
    b.replace_all(members);
    for n in ["m1", "m2"] {
        assert!(a.contains(n));
        assert!(b.contains(n));
    }
    assert!(!a.contains("junk"));
    assert!(!b.contains("junk"));
}

#[test]
fn admit_inserts_actor() {
    let mut c = MembershipCache::new();
    c.notify_membership_delta(&event("wadmit", Some("n1"), None));
    assert!(c.contains("n1"));
}

#[test]
fn resign_removes_actor() {
    let mut c = MembershipCache::new();
    c.insert("n1".to_string());
    c.notify_membership_delta(&event("wresign", Some("n1"), None));
    assert!(!c.contains("n1"));
}

#[test]
fn cease_to_exist_removes_receptor() {
    let mut c = MembershipCache::new();
    c.insert("n1".to_string());
    c.notify_membership_delta(&event("ncte", None, Some("n1")));
    assert!(!c.contains("n1"));
}

#[test]
fn kick_removes_receptor() {
    let mut c = MembershipCache::new();
    c.insert("n1".to_string());
    c.notify_membership_delta(&event("wkick", None, Some("n1")));
    assert!(!c.contains("n1"));
}

#[test]
fn other_categories_leave_the_set_alone() {
    let mut c = MembershipCache::new();
    c.insert("n1".to_string());
    c.notify_membership_delta(&event("nfound", Some("n2"), None));
    assert!(c.contains("n1"));
    assert!(!c.contains("n2"));
}

#[test]
fn refresh_trigger_category() {
    assert!(is_refresh_trigger(&event("connmiss", None, None)));
    assert!(!is_refresh_trigger(&event("wadmit", Some("n"), None)));
}
