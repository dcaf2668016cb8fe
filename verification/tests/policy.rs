use ketchup::policy::{classify, should_collect_resource, CollectionOptions, ResourceTypeDescriptor, Scope};

fn defaults() -> CollectionOptions {
    CollectionOptions {
        include_secrets: false,
        include_custom_resources: false,
        include_events: false,
        include_replicasets: false,
        include_endpoints: false,
        include_leases: false,
        specific_crds: None,
        sanitize: true,
    }
}

fn everything() -> CollectionOptions {
    CollectionOptions {
        include_secrets: true,
        include_custom_resources: true,
        include_events: true,
        include_replicasets: true,
        include_endpoints: true,
        include_leases: true,
        specific_crds: None,
        sanitize: true,
    }
}

#[test]
fn standard_kinds_are_always_collected() {
    let opts = defaults();
    assert!(should_collect_resource("Pod", &opts));
    assert!(should_collect_resource("Namespace", &opts));
    assert!(should_collect_resource("ConfigMap", &opts));
    assert!(should_collect_resource("", &opts));
}

#[test]
fn denied_kinds_ignore_every_toggle() {
    let opts = everything();
    assert!(!should_collect_resource("ComponentStatus", &opts));
    assert!(!should_collect_resource("Binding", &opts));
    let opts = defaults();
    assert!(!should_collect_resource("ComponentStatus", &opts));
    assert!(!should_collect_resource("Binding", &opts));
}

#[test]
fn secrets_follow_only_their_toggle() {
    let mut opts = everything();
    opts.include_secrets = false;
    assert!(!should_collect_resource("Secret", &opts));
    let mut opts = defaults();
    opts.include_secrets = true;
    assert!(should_collect_resource("Secret", &opts));
}

#[test]
fn each_ephemeral_kind_has_its_own_toggle() {
    let cases: Vec<(&str, fn(&mut CollectionOptions))> = vec![
        ("Event", |o| o.include_events = true),
        ("ReplicaSet", |o| o.include_replicasets = true),
        ("Endpoints", |o| o.include_endpoints = true),
        ("EndpointSlice", |o| o.include_endpoints = true),
        ("Lease", |o| o.include_leases = true),
    ];
    for (kind, enable) in cases {
        let mut opts = defaults();
        assert!(!should_collect_resource(kind, &opts), "{} is off by default", kind);
        enable(&mut opts);
        assert!(should_collect_resource(kind, &opts), "{} follows its toggle", kind);
    }
    let mut opts = defaults();
    opts.include_events = true;
    assert!(!should_collect_resource("Lease", &opts));
    assert!(!should_collect_resource("ReplicaSet", &opts));
    assert!(!should_collect_resource("Endpoints", &opts));
}

#[test]
fn kind_names_are_matched_exactly() {
    let opts = defaults();
    assert!(should_collect_resource("secret", &opts));
    assert!(should_collect_resource("Secrets", &opts));
    assert!(should_collect_resource("event", &opts));
}

#[test]
fn custom_kinds_follow_the_blanket_toggle_without_a_list() {
    let mut opts = defaults();
    assert!(!should_collect_resource("widgets.example.com", &opts));
    opts.include_custom_resources = true;
    assert!(should_collect_resource("widgets.example.com", &opts));
    assert!(should_collect_resource(".", &opts));
}

#[test]
fn allow_list_wins_over_the_blanket_toggle() {
    let mut opts = defaults();
    opts.include_custom_resources = true;
    opts.specific_crds = Some(vec!["widgets.example.com".to_string()]);
    assert!(should_collect_resource("widgets.example.com", &opts));
    assert!(!should_collect_resource("gadgets.example.com", &opts));
    opts.include_custom_resources = false;
    assert!(should_collect_resource("widgets.example.com", &opts));
    assert!(!should_collect_resource("gadgets.example.com", &opts));
}

#[test]
fn allow_list_ignores_ascii_case_only() {
    let mut opts = defaults();
    opts.specific_crds = Some(vec!["Widgets.Example.COM".to_string()]);
    assert!(should_collect_resource("widgets.example.com", &opts));
    assert!(should_collect_resource("WIDGETS.EXAMPLE.COM", &opts));
    assert!(!should_collect_resource("widgets.example.co", &opts));
    opts.specific_crds = Some(vec!["\u{00e4}.example.com".to_string()]);
    assert!(should_collect_resource("\u{00e4}.example.com", &opts));
    assert!(!should_collect_resource("\u{00c4}.example.com", &opts));
}

#[test]
fn empty_allow_list_excludes_every_custom_kind() {
    let mut opts = everything();
    opts.specific_crds = Some(Vec::new());
    assert!(!should_collect_resource("widgets.example.com", &opts));
    assert!(should_collect_resource("Pod", &opts));
}

#[test]
fn allow_list_has_no_say_on_builtin_kinds() {
    let mut opts = defaults();
    opts.specific_crds = Some(vec!["Secret".to_string(), "Pod".to_string()]);
    assert!(!should_collect_resource("Secret", &opts));
    assert!(should_collect_resource("Pod", &opts));
    assert!(should_collect_resource("Deployment", &opts));
}

#[test]
fn deciding_twice_gives_the_same_answer() {
    let mut opts = defaults();
    opts.specific_crds = Some(vec!["a.b".to_string()]);
    for kind in ["Pod", "Secret", "a.b", "c.d", "Binding", "Lease"] {
        let first = should_collect_resource(kind, &opts);
        let second = should_collect_resource(kind, &opts.clone());
        assert_eq!(first, second);
    }
}

#[test]
fn classify_gives_the_discovered_scope() {
    let namespace = ResourceTypeDescriptor {
        kind: "Namespace".to_string(),
        api_version: "v1".to_string(),
        plural: "namespaces".to_string(),
        scope: Scope::Cluster,
    };
    let pod = ResourceTypeDescriptor {
        kind: "Pod".to_string(),
        api_version: "v1".to_string(),
        plural: "pods".to_string(),
        scope: Scope::Namespaced,
    };
    assert_eq!(classify(&namespace), Scope::Cluster);
    assert_eq!(classify(&pod), Scope::Namespaced);
}
