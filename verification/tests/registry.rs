use route_registry::{Bucket, Registry, RouteInfo, Verb};

fn entry(scope: &str, handler: &str, path: &str, verb: Verb) -> RouteInfo {
    RouteInfo {
        scope: scope.to_string(),
        handler_name: handler.to_string(),
        path: path.to_string(),
        verb,
    }
}

fn file_entry(registry: &mut Registry, entry: RouteInfo) {
    registry.insert(entry.scope.clone(), entry);
}

#[test]
fn empty_registry_has_no_scopes() {
    let registry = Registry::new();
    assert!(registry.snapshot_all().is_empty());
    assert!(registry.snapshot_for("/events").is_empty());
}

#[test]
fn insert_appends_in_order() {
    let mut registry = Registry::new();
    file_entry(&mut registry, entry("/events", "a", "/a", Verb::Get));
    file_entry(&mut registry, entry("/events", "b", "/b", Verb::Post));
    file_entry(&mut registry, entry("/events", "c", "", Verb::Delete));
    assert_eq!(
        registry.snapshot_for("/events"),
        vec![
            entry("/events", "a", "/a", Verb::Get),
            entry("/events", "b", "/b", Verb::Post),
            entry("/events", "c", "", Verb::Delete),
        ]
    );
}

#[test]
fn insert_creates_the_scope_when_absent() {
    let mut registry = Registry::new();
    file_entry(&mut registry, entry("/users", "list_users", "/", Verb::Get));
    assert_eq!(
        registry.snapshot_all(),
        vec![Bucket {
            scope: "/users".to_string(),
            routes: vec![entry("/users", "list_users", "/", Verb::Get)],
        }]
    );
}

#[test]
fn snapshot_for_an_unknown_scope_is_empty() {
    let mut registry = Registry::new();
    file_entry(&mut registry, entry("/events", "a", "/a", Verb::Get));
    assert_eq!(registry.snapshot_for("/users"), Vec::<RouteInfo>::new());
}

#[test]
fn scopes_are_matched_exactly() {
    let mut registry = Registry::new();
    file_entry(&mut registry, entry("/events", "a", "/a", Verb::Get));
    assert!(registry.snapshot_for("/events/").is_empty());
    assert!(registry.snapshot_for("/event").is_empty());
    assert!(registry.snapshot_for("/Events").is_empty());
    assert!(registry.snapshot_for("").is_empty());
    assert_eq!(registry.snapshot_for("/events").len(), 1);
}

#[test]
fn insert_leaves_other_scopes_alone() {
    let mut registry = Registry::new();
    file_entry(&mut registry, entry("/events", "a", "/a", Verb::Get));
    file_entry(&mut registry, entry("/users", "u", "/u", Verb::Put));
    let users_before = registry.snapshot_for("/users");
    file_entry(&mut registry, entry("/events", "b", "/b", Verb::Patch));
    assert_eq!(registry.snapshot_for("/users"), users_before);
    assert_eq!(registry.snapshot_for("/events").len(), 2);
}

#[test]
fn scopes_keep_the_order_of_first_use() {
    let mut registry = Registry::new();
    file_entry(&mut registry, entry("/b", "one", "/1", Verb::Get));
    file_entry(&mut registry, entry("/a", "two", "/2", Verb::Get));
    file_entry(&mut registry, entry("/b", "three", "/3", Verb::Get));
    file_entry(&mut registry, entry("/c", "four", "/4", Verb::Get));
    let all = registry.snapshot_all();
    let scopes: Vec<&str> = all.iter().map(|bucket| bucket.scope.as_str()).collect();
    assert_eq!(scopes, vec!["/b", "/a", "/c"]);
    let names: Vec<&str> = all[0].routes.iter().map(|r| r.handler_name.as_str()).collect();
    assert_eq!(names, vec!["one", "three"]);
}

#[test]
fn reading_twice_gives_equal_snapshots() {
    let mut registry = Registry::new();
    file_entry(&mut registry, entry("/events", "a", "/a", Verb::Get));
    file_entry(&mut registry, entry("/events", "b", "/b", Verb::Post));
    let first = registry.snapshot_for("/events");
    let second = registry.snapshot_for("/events");
    assert_eq!(first, second);
    assert_eq!(registry.snapshot_all(), registry.snapshot_all());
}

#[test]
fn a_snapshot_is_a_copy() {
    let mut registry = Registry::new();
    file_entry(&mut registry, entry("/events", "a", "/a", Verb::Get));
    let mut snapshot = registry.snapshot_for("/events");
    snapshot.push(entry("/events", "b", "/b", Verb::Get));
    snapshot[0].path = "/changed".to_string();
    assert_eq!(registry.snapshot_for("/events"), vec![entry("/events", "a", "/a", Verb::Get)]);
}

#[test]
fn an_entry_filed_twice_is_kept_twice() {
    let mut registry = Registry::new();
    file_entry(&mut registry, entry("/events", "a", "/a", Verb::Get));
    file_entry(&mut registry, entry("/events", "a", "/a", Verb::Get));
    assert_eq!(
        registry.snapshot_for("/events"),
        vec![entry("/events", "a", "/a", Verb::Get), entry("/events", "a", "/a", Verb::Get)]
    );
}

#[test]
fn an_entry_may_be_filed_under_another_key_than_its_scope() {
    let mut registry = Registry::new();
    registry.insert("module".to_string(), entry("/events", "a", "/a", Verb::Get));
    assert_eq!(registry.snapshot_for("module"), vec![entry("/events", "a", "/a", Verb::Get)]);
    assert!(registry.snapshot_for("/events").is_empty());
}

#[test]
fn the_empty_scope_is_a_scope_like_any_other() {
    let mut registry = Registry::new();
    file_entry(&mut registry, entry("", "root", "/", Verb::Get));
    assert_eq!(registry.snapshot_for(""), vec![entry("", "root", "/", Verb::Get)]);
}

#[test]
fn into_buckets_hands_out_all_scopes() {
    let mut registry = Registry::new();
    file_entry(&mut registry, entry("/a", "one", "/1", Verb::Get));
    file_entry(&mut registry, entry("/b", "two", "/2", Verb::Post));
    let copy = registry.snapshot_all();
    assert_eq!(registry.into_buckets(), copy);
}

#[test]
fn many_entries_of_one_scope_are_all_kept() {
    let mut registry = Registry::new();
    let mut expected = Vec::new();
    for i in 0..50 {
        let next = entry("/bulk", &format!("handler_{}", i), &format!("/{}", i), Verb::Get);
        expected.push(next.clone());
        file_entry(&mut registry, next);
    }
    assert_eq!(registry.snapshot_for("/bulk").len(), 50);
    assert_eq!(registry.snapshot_for("/bulk"), expected);
}
