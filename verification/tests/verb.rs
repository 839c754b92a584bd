use route_registry::Verb;

#[test]
fn the_five_markers_are_recognized() {
    assert_eq!(Verb::from_marker("get"), Some(Verb::Get));
    assert_eq!(Verb::from_marker("post"), Some(Verb::Post));
    assert_eq!(Verb::from_marker("put"), Some(Verb::Put));
    assert_eq!(Verb::from_marker("delete"), Some(Verb::Delete));
    assert_eq!(Verb::from_marker("patch"), Some(Verb::Patch));
}

#[test]
fn other_names_are_no_markers() {
    assert_eq!(Verb::from_marker(""), None);
    assert_eq!(Verb::from_marker("head"), None);
    assert_eq!(Verb::from_marker("options"), None);
    assert_eq!(Verb::from_marker("route"), None);
    assert_eq!(Verb::from_marker("auto_register"), None);
    assert_eq!(Verb::from_marker("gets"), None);
    assert_eq!(Verb::from_marker("ge"), None);
    assert_eq!(Verb::from_marker(" get"), None);
}

#[test]
fn markers_are_case_sensitive() {
    assert_eq!(Verb::from_marker("GET"), None);
    assert_eq!(Verb::from_marker("Get"), None);
    assert_eq!(Verb::from_marker("Post"), None);
    assert_eq!(Verb::from_marker("DELETE"), None);
}

#[test]
fn stored_names_are_upper_case() {
    assert_eq!(Verb::Get.as_str(), "GET");
    assert_eq!(Verb::Post.as_str(), "POST");
    assert_eq!(Verb::Put.as_str(), "PUT");
    assert_eq!(Verb::Delete.as_str(), "DELETE");
    assert_eq!(Verb::Patch.as_str(), "PATCH");
}

#[test]
fn stored_name_is_the_marker_in_upper_case() {
    for marker in ["get", "post", "put", "delete", "patch"] {
        let verb = Verb::from_marker(marker).unwrap();
        assert_eq!(verb.as_str(), marker.to_uppercase());
        assert_eq!(Verb::from_marker(&verb.as_str().to_lowercase()), Some(verb));
    }
}
