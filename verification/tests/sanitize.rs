use ketchup::sanitize::sanitize_resource;
use serde_json::Value;

fn parse(text: &str) -> Value {
    serde_json::from_str(text).unwrap()
}

#[test]
fn sanitize_strips_server_fields_and_status() {
    let mut doc = parse(
        r#"{
            "apiVersion": "v1",
            "kind": "Pod",
            "metadata": {
                "name": "web",
                "namespace": "default",
                "uid": "123",
                "resourceVersion": "42",
                "selfLink": "/api/v1/pods/web",
                "creationTimestamp": "2024-01-01T00:00:00Z",
                "generation": 3,
                "managedFields": [{"manager": "kubectl"}],
                "labels": {"app": "web", "uid": "kept"}
            },
            "spec": {"containers": [{"name": "c", "status": "kept"}]},
            "status": {"phase": "Running"}
        }"#,
    );
    sanitize_resource(&mut doc);
    let expected = parse(
        r#"{
            "apiVersion": "v1",
            "kind": "Pod",
            "metadata": {
                "name": "web",
                "namespace": "default",
                "labels": {"app": "web", "uid": "kept"}
            },
            "spec": {"containers": [{"name": "c", "status": "kept"}]}
        }"#,
    );
    assert_eq!(doc, expected);
}

#[test]
fn sanitize_is_idempotent() {
    let mut once = parse(
        r#"{"metadata": {"name": "a", "uid": "1", "generation": 2}, "status": {}, "data": {"k": "v"}}"#,
    );
    sanitize_resource(&mut once);
    let mut twice = once.clone();
    sanitize_resource(&mut twice);
    assert_eq!(once, twice);
    assert_eq!(once, parse(r#"{"metadata": {"name": "a"}, "data": {"k": "v"}}"#));
}

#[test]
fn sanitize_adds_no_field() {
    let untouched = parse(r#"{"kind": "ConfigMap", "data": {"a": "b"}}"#);
    let mut doc = untouched.clone();
    sanitize_resource(&mut doc);
    assert_eq!(doc, untouched);
    let mut empty = parse("{}");
    sanitize_resource(&mut empty);
    assert_eq!(empty, parse("{}"));
}

#[test]
fn sanitize_leaves_documents_that_are_no_object() {
    for text in ["null", "true", "12", "\"status\"", "[{\"status\": 1}]"] {
        let untouched = parse(text);
        let mut doc = untouched.clone();
        sanitize_resource(&mut doc);
        assert_eq!(doc, untouched);
    }
}

#[test]
fn sanitize_leaves_metadata_that_is_no_object() {
    let mut doc = parse(r#"{"metadata": "uid", "status": 1}"#);
    sanitize_resource(&mut doc);
    assert_eq!(doc, parse(r#"{"metadata": "uid"}"#));
    let mut doc = parse(r#"{"metadata": ["uid"], "status": null}"#);
    sanitize_resource(&mut doc);
    assert_eq!(doc, parse(r#"{"metadata": ["uid"]}"#));
}

#[test]
fn sanitize_touches_only_the_top_level() {
    let mut doc = parse(
        r#"{"spec": {"status": "x", "metadata": {"uid": "kept"}}, "metadata": {"nested": {"uid": "kept"}}}"#,
    );
    let expected = doc.clone();
    sanitize_resource(&mut doc);
    assert_eq!(doc, expected);
}

#[test]
fn sanitized_document_survives_json_and_yaml() {
    let mut doc = parse(
        r#"{"kind": "Service", "metadata": {"name": "s", "uid": "9", "labels": {"a": "1"}},
            "spec": {"ports": [{"port": 80}, {"port": 443}], "weight": 1.5, "none": null},
            "status": {"loadBalancer": {}}}"#,
    );
    sanitize_resource(&mut doc);
    let json = serde_json::to_string_pretty(&doc).unwrap();
    let from_json: Value = serde_json::from_str(&json).unwrap();
    assert_eq!(from_json, doc);
    let yaml = serde_yaml::to_string(&doc).unwrap();
    let from_yaml: Value = serde_yaml::from_str(&yaml).unwrap();
    assert_eq!(from_yaml, doc);
}
