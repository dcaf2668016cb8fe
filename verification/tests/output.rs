use ketchup::kindmap::KindMap;
use ketchup::output::{files_for_item, item_name, save_resource_type, Action, OutputManager, SaveError, VERSION};
use ketchup::policy::CollectionOptions;
use ketchup::summary::SummaryError;
use serde_json::Value;

fn parse(text: &str) -> Value {
    serde_json::from_str(text).unwrap()
}

fn manager() -> OutputManager {
    OutputManager::new_output_manager("/tmp".to_string(), 1431648000, 0).unwrap()
}

fn defaults() -> CollectionOptions {
    CollectionOptions {
        include_secrets: false,
        include_custom_resources: false,
        include_events: false,
        include_replicasets: false,
        include_endpoints: false,
        include_leases: false,
        specific_crds: None,
        sanitize: true,
    }
}

fn pod(name: &str) -> Value {
    parse(&format!(r#"{{"kind": "Pod", "metadata": {{"name": "{}"}}, "spec": {{"n": [1, 2]}}}}"#, name))
}

fn unnamed() -> Value {
    parse(r#"{"kind": "Pod", "metadata": {"labels": {}}}"#)
}

fn steps(actions: &[Action]) -> Vec<(String, Option<String>)> {
    actions
        .iter()
        .map(|a| match a {
            Action::CreateDirectory(path) => (path.clone(), None),
            Action::WriteFile { path, content } => (path.clone(), Some(content.clone())),
        })
        .collect()
}

fn json(doc: &Value) -> Option<String> {
    Some(serde_json::to_string_pretty(doc).unwrap())
}

fn yaml(doc: &Value) -> Option<String> {
    Some(serde_yaml::to_string(doc).unwrap())
}

#[test]
fn output_directory_is_named_by_the_start_of_the_run() {
    assert_eq!(manager().create_output_directory(), "/tmp/ketchup-2015-05-15-00-00-00");
    let later = OutputManager::new_output_manager("out".to_string(), 1700000000, 999_999_999).unwrap();
    assert_eq!(later.create_output_directory(), "out/ketchup-2023-11-14-22-13-20");
    let early = OutputManager::new_output_manager(String::new(), -1, 0).unwrap();
    assert_eq!(early.create_output_directory(), "/ketchup-1969-12-31-23-59-59");
}

#[test]
fn output_manager_needs_an_instant_that_exists() {
    assert!(OutputManager::new_output_manager("/tmp".to_string(), i64::MAX, 0).is_none());
    assert!(OutputManager::new_output_manager("/tmp".to_string(), i64::MIN, 0).is_none());
    assert!(OutputManager::new_output_manager("/tmp".to_string(), 0, 2_000_000_000).is_none());
    assert!(OutputManager::new_output_manager("/tmp".to_string(), 0, 0).is_some());
}

#[test]
fn item_name_reads_metadata_name() {
    assert_eq!(item_name(&pod("web")), Some("web"));
    assert_eq!(item_name(&unnamed()), None);
    assert_eq!(item_name(&parse(r#"{"metadata": {"name": 7}}"#)), None);
    assert_eq!(item_name(&parse(r#"{"metadata": "name"}"#)), None);
    assert_eq!(item_name(&parse(r#"{"name": "top"}"#)), None);
    assert_eq!(item_name(&parse(r#"["metadata"]"#)), None);
    assert_eq!(item_name(&parse(r#"{"metadata": {"name": ""}}"#)), Some(""));
}

#[test]
fn files_for_item_in_each_format() {
    let doc = pod("web");
    assert_eq!(steps(&files_for_item("d", &doc, "json").unwrap()), vec![("d/web.json".to_string(), json(&doc))]);
    assert_eq!(steps(&files_for_item("d", &doc, "yaml").unwrap()), vec![("d/web.yaml".to_string(), yaml(&doc))]);
    assert_eq!(
        steps(&files_for_item("d", &doc, "both").unwrap()),
        vec![("d/web.json".to_string(), json(&doc)), ("d/web.yaml".to_string(), yaml(&doc))]
    );
    assert_eq!(json(&doc).unwrap(), "{\n  \"kind\": \"Pod\",\n  \"metadata\": {\n    \"name\": \"web\"\n  },\n  \"spec\": {\n    \"n\": [\n      1,\n      2\n    ]\n  }\n}");
    assert_eq!(yaml(&doc).unwrap(), "kind: Pod\nmetadata:\n  name: web\nspec:\n  n:\n  - 1\n  - 2\n");
}

#[test]
fn files_for_item_rejects_an_unknown_format_of_a_named_item() {
    match files_for_item("d", &pod("web"), "xml") {
        Err(SaveError::InvalidFormat(format)) => assert_eq!(format, "xml"),
        other => panic!("unexpected: {:?}", other),
    }
    assert!(files_for_item("d", &unnamed(), "xml").unwrap().is_empty());
    assert!(files_for_item("d", &unnamed(), "json").unwrap().is_empty());
    assert_eq!(SaveError::InvalidFormat("xml".to_string()).message(), "Invalid format: xml");
    assert!(matches!(files_for_item("d", &pod("web"), "JSON"), Err(SaveError::InvalidFormat(_))));
}

#[test]
fn save_resource_type_plans_a_directory_and_a_file_for_each_named_item() {
    let items = vec![pod("a"), unnamed(), pod("b")];
    let plan = save_resource_type("/out/default", "ConfigMap", &items, "yaml");
    assert!(plan.failure.is_none());
    assert!(plan.skipped.is_empty());
    assert_eq!(plan.saved, 2);
    assert_eq!(
        steps(&plan.actions),
        vec![
            ("/out/default/configmap".to_string(), None),
            ("/out/default/configmap/a.yaml".to_string(), yaml(&items[0])),
            ("/out/default/configmap/b.yaml".to_string(), yaml(&items[2])),
        ]
    );
    let both = save_resource_type("o", "Pod", &items, "both");
    assert_eq!(both.saved, 2);
    assert_eq!(both.actions.len(), 5);
}

#[test]
fn save_resource_type_plans_nothing_for_no_items() {
    let plan = save_resource_type("/out", "Pod", &Vec::new(), "json");
    assert!(plan.actions.is_empty());
    assert_eq!(plan.saved, 0);
    assert!(plan.failure.is_none());
    let invalid = save_resource_type("/out", "Pod", &Vec::new(), "xml");
    assert!(invalid.actions.is_empty());
    assert!(invalid.failure.is_none());
}

#[test]
fn save_resource_type_stops_at_the_first_item_that_cannot_be_saved() {
    let items = vec![unnamed(), pod("a"), pod("b")];
    let plan = save_resource_type("/out", "Pod", &items, "xml");
    assert_eq!(steps(&plan.actions), vec![("/out/pod".to_string(), None)]);
    assert_eq!(plan.saved, 0);
    assert!(matches!(plan.failure, Some(SaveError::InvalidFormat(_))));
    let only_unnamed = save_resource_type("/out", "Pod", &vec![unnamed()], "xml");
    assert!(only_unnamed.failure.is_none());
    assert_eq!(only_unnamed.saved, 0);
    assert_eq!(only_unnamed.actions.len(), 1);
}

#[test]
fn save_cluster_resources_plans_every_kind() {
    let mut resources: KindMap<Vec<Value>> = KindMap::new();
    resources.insert("Namespace".to_string(), vec![pod("default"), pod("kube-system")]);
    resources.insert("StorageClass".to_string(), vec![pod("fast"), unnamed()]);
    let plan = manager().save_cluster_resources("/out/run", &resources, "json");
    assert!(plan.failure.is_none());
    assert_eq!(plan.stats.len(), 2);
    assert_eq!(plan.stats.get("Namespace"), Some(&2));
    assert_eq!(plan.stats.get("StorageClass"), Some(&1));
    let paths: Vec<String> = steps(&plan.actions).into_iter().map(|s| s.0).collect();
    assert_eq!(
        paths,
        vec![
            "/out/run/cluster",
            "/out/run/cluster/namespace",
            "/out/run/cluster/namespace/default.json",
            "/out/run/cluster/namespace/kube-system.json",
            "/out/run/cluster/storageclass",
            "/out/run/cluster/storageclass/fast.json",
        ]
    );
    let empty = manager().save_cluster_resources("/out/run", &KindMap::new(), "json");
    assert_eq!(steps(&empty.actions), vec![("/out/run/cluster".to_string(), None)]);
    assert!(empty.stats.is_empty());
}

#[test]
fn save_namespace_resources_stops_at_the_first_failure() {
    let mut resources: KindMap<Vec<Value>> = KindMap::new();
    resources.insert("Pod".to_string(), vec![unnamed()]);
    resources.insert("Service".to_string(), vec![pod("s")]);
    resources.insert("ConfigMap".to_string(), vec![pod("c")]);
    let plan = manager().save_namespace_resources("/out/run", "default", &resources, "toml");
    assert!(matches!(plan.failure, Some(SaveError::InvalidFormat(_))));
    let paths: Vec<String> = steps(&plan.actions).into_iter().map(|s| s.0).collect();
    assert_eq!(paths, vec!["/out/run/default", "/out/run/default/pod", "/out/run/default/service"]);
    assert_eq!(plan.stats.len(), 1);
    assert_eq!(plan.stats.get("Pod"), Some(&0));
    let good = manager().save_namespace_resources("/out/run", "default", &resources, "both");
    assert!(good.failure.is_none());
    assert_eq!(good.stats.get("Service"), Some(&1));
    assert_eq!(good.actions.len(), 8);
}

#[test]
fn fixed_kinds_are_saved_in_directories_of_their_own() {
    let m = manager();
    let items = vec![pod("a"), unnamed()];
    let cases = vec![
        (m.save_pods_individually("/o", "ns", &items, "json"), "pods"),
        (m.save_services_individually("/o", "ns", &items, "json"), "services"),
        (m.save_deployments_individually("/o", "ns", &items, "json"), "deployments"),
        (m.save_configmaps_individually("/o", "ns", &items, "json"), "configmaps"),
        (m.save_secrets_individually("/o", "ns", &items, "json"), "secrets"),
    ];
    for (plan, plural) in cases {
        assert_eq!(plan.saved, 1);
        assert!(plan.failure.is_none());
        assert_eq!(
            steps(&plan.actions),
            vec![
                (format!("/o/ns/{}", plural), None),
                (format!("/o/ns/{}/a.json", plural), json(&items[0])),
            ]
        );
    }
    let empty = m.save_pods_individually("/o", "ns", &Vec::new(), "xml");
    assert_eq!(steps(&empty.actions), vec![("/o/ns/pods".to_string(), None)]);
    assert!(empty.failure.is_none());
}

#[test]
fn compression_modes() {
    let m = manager();
    assert_eq!(m.handle_compression("/tmp/run", "compressed").unwrap(), Some("/tmp/run.tar.gz".to_string()));
    assert_eq!(m.handle_compression("/tmp/run", "both").unwrap(), Some("/tmp/run.tar.gz".to_string()));
    assert_eq!(m.handle_compression("/tmp/run", "uncompressed").unwrap(), None);
    match m.handle_compression("/tmp/run", "zip") {
        Err(error) => {
            assert!(matches!(error, SaveError::InvalidCompression(_)));
            assert_eq!(error.message(), "Invalid compression: zip. Use compressed, uncompressed, or both");
        }
        Ok(other) => panic!("unexpected: {:?}", other),
    }
    assert_eq!(m.create_archive("a/b"), "a/b.tar.gz");
}

#[test]
fn collection_summary_is_written_as_yaml() {
    let mut cluster: KindMap<usize> = KindMap::new();
    cluster.insert("Node".to_string(), 2);
    let mut pods: KindMap<usize> = KindMap::new();
    pods.insert("Pod".to_string(), 3);
    let namespaces = vec![("default".to_string(), pods)];
    let action = manager().create_collection_summary("/tmp/run", &cluster, &namespaces, &defaults()).unwrap();
    match action {
        Action::WriteFile { path, content } => {
            assert_eq!(path, "/tmp/run/collection-summary.yaml");
            let doc: Value = serde_yaml::from_str(&content).unwrap();
            assert_eq!(doc["collection_info"]["timestamp"], parse("\"2015-05-15T00:00:00+00:00\""));
            assert_eq!(doc["collection_info"]["version"], Value::String(VERSION.to_string()));
            assert_eq!(doc["collection_info"]["tool"], parse("\"ketchup\""));
            assert_eq!(doc["cluster_summary"]["total_resources"], parse("5"));
            assert_eq!(doc["namespace_details"]["default"]["resource_types"], parse(r#"{"Pod": 3}"#));
            assert!(content.starts_with("cluster_resources:\n  resource_types:\n    Node: 2\n  total_resources: 2\n"));
        }
        other => panic!("unexpected: {:?}", other),
    }
    let mut huge: KindMap<usize> = KindMap::new();
    huge.insert("Node".to_string(), usize::MAX);
    assert_eq!(
        manager().create_collection_summary("/tmp/run", &huge, &namespaces, &defaults()).err(),
        Some(SummaryError::CountOverflow)
    );
}

#[test]
fn enhanced_summary_is_written_as_yaml() {
    let stats = vec![("default".to_string(), 1, 2, 3, 4, 5)];
    match manager().create_enhanced_summary("/tmp/run", &stats, true).unwrap() {
        Action::WriteFile { path, content } => {
            assert_eq!(path, "/tmp/run/collection-summary.yaml");
            let doc: Value = serde_yaml::from_str(&content).unwrap();
            assert_eq!(doc["cluster_summary"]["total_resources"], parse("15"));
            assert_eq!(doc["collection_info"]["timestamp"], parse("\"2015-05-15T00:00:00+00:00\""));
        }
        other => panic!("unexpected: {:?}", other),
    }
}
