use route_registry::{
    auto_register, extract_route, Declaration, Marker, Registry, RegistryError, RouteInfo, Verb,
};

fn marker(name: &str, path: Option<&str>) -> Marker {
    Marker { name: name.to_string(), path: path.map(|p| p.to_string()) }
}

fn declaration(handler: &str, markers: Vec<Marker>) -> Declaration {
    Declaration { handler_name: handler.to_string(), markers }
}

fn scope(text: &str) -> Option<String> {
    Some(text.to_string())
}

fn entry_for(scope: &str, handler: &str, path: &str, verb: Verb) -> RouteInfo {
    RouteInfo {
        scope: scope.to_string(),
        handler_name: handler.to_string(),
        path: path.to_string(),
        verb,
    }
}

#[test]
fn search_events_is_registered_as_declared() {
    let mut registry = Registry::new();
    let item = declaration("search_events", vec![marker("get", Some("/search"))]);
    let result = auto_register(&mut registry, scope("/events"), item.clone());
    assert_eq!(result, Ok(item));
    let snapshot = registry.snapshot_for("/events");
    assert_eq!(snapshot, vec![entry_for("/events", "search_events", "/search", Verb::Get)]);
    assert_eq!(snapshot[0].scope, "/events");
    assert_eq!(snapshot[0].handler_name, "search_events");
    assert_eq!(snapshot[0].path, "/search");
    assert_eq!(snapshot[0].verb.as_str(), "GET");
}

#[test]
fn every_verb_is_stored_in_upper_case() {
    let cases = [
        ("get", "GET"),
        ("post", "POST"),
        ("put", "PUT"),
        ("delete", "DELETE"),
        ("patch", "PATCH"),
    ];
    for (name, stored) in cases {
        let item = declaration("handler", vec![marker(name, Some("/p"))]);
        let entry = extract_route(scope("/s"), &item).unwrap();
        assert_eq!(entry.verb.as_str(), stored);
    }
}

#[test]
fn n_declarations_of_one_scope_give_n_entries() {
    let mut registry = Registry::new();
    let mut expected = Vec::new();
    let verbs = ["get", "post", "put", "delete", "patch"];
    for i in 0..12 {
        let name = verbs[i % verbs.len()];
        let handler = format!("handler_{}", i);
        let path = format!("/path/{}", i);
        let item = declaration(&handler, vec![marker(name, Some(&path))]);
        assert_eq!(auto_register(&mut registry, scope("/same"), item.clone()), Ok(item));
        expected.push(entry_for("/same", &handler, &path, Verb::from_marker(name).unwrap()));
    }
    let first = registry.snapshot_for("/same");
    let second = registry.snapshot_for("/same");
    assert_eq!(first.len(), 12);
    assert_eq!(first, expected);
    assert_eq!(first, second);
}

#[test]
fn a_declaration_without_verb_marker_is_rejected() {
    let mut registry = Registry::new();
    let item = declaration("lonely", vec![]);
    let result = auto_register(&mut registry, scope("/events"), item);
    assert_eq!(
        result,
        Err(RegistryError::MissingRouteMetadata { handler: "lonely".to_string() })
    );
    assert!(registry.snapshot_all().is_empty());
}

#[test]
fn unknown_annotations_are_no_verb_markers() {
    let mut registry = Registry::new();
    let item = declaration(
        "documented",
        vec![
            marker("doc", Some("text")),
            marker("head", Some("/h")),
            marker("GET", Some("/upper")),
            marker("inline", None),
        ],
    );
    let result = auto_register(&mut registry, scope("/events"), item);
    assert_eq!(
        result,
        Err(RegistryError::MissingRouteMetadata { handler: "documented".to_string() })
    );
    assert!(registry.snapshot_all().is_empty());
}

#[test]
fn a_verb_marker_without_path_is_rejected() {
    let mut registry = Registry::new();
    let item = declaration("pathless", vec![marker("post", None)]);
    let result = auto_register(&mut registry, scope("/events"), item);
    assert_eq!(
        result,
        Err(RegistryError::MissingRouteMetadata { handler: "pathless".to_string() })
    );
    assert!(registry.snapshot_all().is_empty());
}

#[test]
fn a_declaration_without_scope_is_rejected() {
    let mut registry = Registry::new();
    let item = declaration("search_events", vec![marker("get", Some("/search"))]);
    let result = auto_register(&mut registry, None, item);
    assert_eq!(
        result,
        Err(RegistryError::MissingScopeArgument { handler: "search_events".to_string() })
    );
    assert!(registry.snapshot_all().is_empty());
}

#[test]
fn the_scope_is_checked_before_the_markers() {
    let mut registry = Registry::new();
    let item = declaration("bare", vec![]);
    let result = auto_register(&mut registry, None, item);
    assert_eq!(result, Err(RegistryError::MissingScopeArgument { handler: "bare".to_string() }));
    assert!(registry.snapshot_all().is_empty());
}

#[test]
fn a_rejected_declaration_leaves_earlier_entries_alone() {
    let mut registry = Registry::new();
    let good = declaration("good", vec![marker("get", Some("/good"))]);
    assert!(auto_register(&mut registry, scope("/events"), good).is_ok());
    let before = registry.snapshot_all();
    let bad = declaration("bad", vec![marker("trace", Some("/bad"))]);
    assert!(auto_register(&mut registry, scope("/events"), bad).is_err());
    let worse = declaration("worse", vec![marker("get", Some("/worse"))]);
    assert!(auto_register(&mut registry, None, worse).is_err());
    assert_eq!(registry.snapshot_all(), before);
}

#[test]
fn an_empty_path_is_valid() {
    let mut registry = Registry::new();
    let item = declaration("index", vec![marker("get", Some(""))]);
    assert!(auto_register(&mut registry, scope("/events"), item).is_ok());
    assert_eq!(registry.snapshot_for("/events"), vec![entry_for("/events", "index", "", Verb::Get)]);
}

#[test]
fn other_annotations_around_the_marker_are_skipped() {
    let item = declaration(
        "update_event",
        vec![
            marker("doc", Some("Updates an event.")),
            marker("put", Some("/{id}")),
            marker("allow", None),
        ],
    );
    assert_eq!(
        extract_route(scope("/events"), &item),
        Ok(entry_for("/events", "update_event", "/{id}", Verb::Put))
    );
}

#[test]
fn the_last_verb_marker_decides() {
    let item = declaration(
        "twice",
        vec![marker("get", Some("/first")), marker("post", Some("/second"))],
    );
    assert_eq!(
        extract_route(scope("/events"), &item),
        Ok(entry_for("/events", "twice", "/second", Verb::Post))
    );
}

#[test]
fn a_last_marker_without_path_is_rejected() {
    let item = declaration("mixed", vec![marker("get", Some("/first")), marker("delete", None)]);
    assert_eq!(
        extract_route(scope("/events"), &item),
        Err(RegistryError::MissingRouteMetadata { handler: "mixed".to_string() })
    );
    let item = declaration("h", vec![marker("post", Some("/b")), marker("get", None)]);
    assert_eq!(
        extract_route(scope("/s"), &item),
        Err(RegistryError::MissingRouteMetadata { handler: "h".to_string() })
    );
}

#[test]
fn method_and_path_come_from_one_marker() {
    let mut registry = Registry::new();
    let item = declaration("h", vec![marker("get", Some("/a")), marker("post", None)]);
    assert_eq!(
        auto_register(&mut registry, scope("/s"), item),
        Err(RegistryError::MissingRouteMetadata { handler: "h".to_string() })
    );
    assert!(registry.snapshot_all().is_empty());
    let item = declaration("h", vec![marker("get", None), marker("post", Some("/b"))]);
    assert!(auto_register(&mut registry, scope("/s"), item).is_ok());
    assert_eq!(registry.snapshot_for("/s"), vec![entry_for("/s", "h", "/b", Verb::Post)]);
}

#[test]
fn annotations_behind_the_last_verb_marker_do_not_decide() {
    let item = declaration(
        "h",
        vec![marker("put", Some("/p")), marker("doc", Some("/doc")), marker("inline", None)],
    );
    assert_eq!(extract_route(scope("/s"), &item), Ok(entry_for("/s", "h", "/p", Verb::Put)));
}

#[test]
fn the_path_of_an_unknown_annotation_is_not_taken() {
    let item = declaration("wrong", vec![marker("route", Some("/r")), marker("patch", None)]);
    assert_eq!(
        extract_route(scope("/events"), &item),
        Err(RegistryError::MissingRouteMetadata { handler: "wrong".to_string() })
    );
}

#[test]
fn the_declaration_is_handed_back_unchanged() {
    let mut registry = Registry::new();
    let item = declaration(
        "create_event",
        vec![marker("doc", Some("Creates.")), marker("post", Some("/"))],
    );
    let back = auto_register(&mut registry, scope("/events"), item.clone()).unwrap();
    assert_eq!(back, item);
    assert_eq!(back.markers.len(), 2);
}

#[test]
fn declarations_of_different_scopes_are_filed_apart() {
    let mut registry = Registry::new();
    let a = declaration("a", vec![marker("get", Some("/a"))]);
    let b = declaration("b", vec![marker("get", Some("/b"))]);
    let c = declaration("c", vec![marker("post", Some("/c"))]);
    assert!(auto_register(&mut registry, scope("/events"), a).is_ok());
    assert!(auto_register(&mut registry, scope("/users"), b).is_ok());
    assert!(auto_register(&mut registry, scope("/events"), c).is_ok());
    assert_eq!(
        registry.snapshot_for("/events"),
        vec![entry_for("/events", "a", "/a", Verb::Get), entry_for("/events", "c", "/c", Verb::Post)]
    );
    assert_eq!(registry.snapshot_for("/users"), vec![entry_for("/users", "b", "/b", Verb::Get)]);
}

#[test]
fn the_same_declaration_processed_twice_is_filed_twice() {
    let mut registry = Registry::new();
    let item = declaration("again", vec![marker("get", Some("/again"))]);
    assert!(auto_register(&mut registry, scope("/events"), item.clone()).is_ok());
    assert!(auto_register(&mut registry, scope("/events"), item).is_ok());
    assert_eq!(
        registry.snapshot_for("/events"),
        vec![
            entry_for("/events", "again", "/again", Verb::Get),
            entry_for("/events", "again", "/again", Verb::Get),
        ]
    );
}

#[test]
fn an_empty_scope_literal_is_accepted() {
    let mut registry = Registry::new();
    let item = declaration("root", vec![marker("get", Some("/"))]);
    assert!(auto_register(&mut registry, scope(""), item).is_ok());
    assert_eq!(registry.snapshot_for(""), vec![entry_for("", "root", "/", Verb::Get)]);
}
