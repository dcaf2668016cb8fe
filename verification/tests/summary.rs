use ketchup::kindmap::KindMap;
use ketchup::policy::CollectionOptions;
use ketchup::report::{collection_flags, collection_summary_document};
use ketchup::summary::{aggregate, count_instances, summarize, SummaryError};
use serde_json::Value;

fn parse(text: &str) -> Value {
    serde_json::from_str(text).unwrap()
}

fn defaults() -> CollectionOptions {
    CollectionOptions {
        include_secrets: false,
        include_custom_resources: false,
        include_events: false,
        include_replicasets: false,
        include_endpoints: false,
        include_leases: false,
        specific_crds: None,
        sanitize: true,
    }
}

fn counts(entries: &[(&str, usize)]) -> KindMap<usize> {
    let mut map = KindMap::new();
    for (kind, count) in entries {
        map.insert(kind.to_string(), *count);
    }
    map
}

fn sample() -> (KindMap<usize>, Vec<(String, KindMap<usize>)>) {
    let cluster = counts(&[("Namespace", 3), ("Node", 2), ("Pod", 1)]);
    let namespaces = vec![
        ("default".to_string(), counts(&[("Pod", 4), ("Service", 2)])),
        ("kube-system".to_string(), counts(&[("Pod", 7), ("ConfigMap", 5)])),
        ("empty".to_string(), counts(&[])),
    ];
    (cluster, namespaces)
}

#[test]
fn summarize_adds_up_every_count() {
    let (cluster, namespaces) = sample();
    let totals = summarize(&cluster, &namespaces).unwrap();
    assert_eq!(totals.total_namespaces, 3);
    assert_eq!(totals.total_cluster_resources, 6);
    assert_eq!(totals.total_namespaced_resources, 18);
    assert_eq!(totals.total_resources, 24);
    assert_eq!(totals.namespace_totals, vec![6, 12, 0]);
    assert_eq!(totals.resource_type_counts.len(), 5);
    assert_eq!(totals.resource_type_counts.get("Pod"), Some(&12));
    assert_eq!(totals.resource_type_counts.get("Service"), Some(&2));
    assert_eq!(totals.resource_type_counts.get("ConfigMap"), Some(&5));
    assert_eq!(totals.resource_type_counts.get("Namespace"), Some(&3));
    assert_eq!(totals.resource_type_counts.get("Node"), Some(&2));
    assert_eq!(totals.resource_type_counts.get("Secret"), None);
}

#[test]
fn summarize_of_nothing_is_all_zero() {
    let totals = summarize(&KindMap::new(), &Vec::new()).unwrap();
    assert_eq!(totals.total_namespaces, 0);
    assert_eq!(totals.total_cluster_resources, 0);
    assert_eq!(totals.total_namespaced_resources, 0);
    assert_eq!(totals.total_resources, 0);
    assert!(totals.namespace_totals.is_empty());
    assert!(totals.resource_type_counts.is_empty());
}

#[test]
fn summarize_keeps_kinds_with_a_count_of_zero() {
    let totals = summarize(&counts(&[("Node", 0)]), &vec![("a".to_string(), counts(&[("Pod", 0)]))]).unwrap();
    assert_eq!(totals.resource_type_counts.get("Node"), Some(&0));
    assert_eq!(totals.resource_type_counts.get("Pod"), Some(&0));
    assert_eq!(totals.total_resources, 0);
}

#[test]
fn summarize_is_repeatable() {
    let (cluster, namespaces) = sample();
    let first = summarize(&cluster, &namespaces).unwrap();
    let second = summarize(&cluster, &namespaces).unwrap();
    assert_eq!(first.total_resources, second.total_resources);
    assert_eq!(first.namespace_totals, second.namespace_totals);
    for i in 0..first.resource_type_counts.len() {
        assert_eq!(first.resource_type_counts.entry(i), second.resource_type_counts.entry(i));
    }
}

#[test]
fn summarize_fails_exactly_where_the_total_does_not_fit() {
    let cluster = counts(&[("Node", 1)]);
    let fits = vec![("a".to_string(), counts(&[("Pod", usize::MAX - 1)]))];
    assert_eq!(summarize(&cluster, &fits).unwrap().total_resources, usize::MAX);
    let too_many = vec![("a".to_string(), counts(&[("Pod", usize::MAX)]))];
    assert_eq!(summarize(&cluster, &too_many).err(), Some(SummaryError::CountOverflow));
    let split = vec![
        ("a".to_string(), counts(&[("Pod", usize::MAX / 2 + 1)])),
        ("b".to_string(), counts(&[("Service", usize::MAX / 2 + 1)])),
    ];
    assert_eq!(summarize(&KindMap::new(), &split).err(), Some(SummaryError::CountOverflow));
    let in_cluster = counts(&[("Node", usize::MAX), ("Namespace", 1)]);
    assert_eq!(summarize(&in_cluster, &Vec::new()).err(), Some(SummaryError::CountOverflow));
    assert_eq!(
        collection_summary_document("t", "v", &in_cluster, &Vec::new(), &defaults()),
        Err(SummaryError::CountOverflow)
    );
}

#[test]
fn flags_name_what_was_included_in_a_fixed_order() {
    assert_eq!(collection_flags(&defaults()), Vec::<String>::new());
    let opts = CollectionOptions {
        include_secrets: true,
        include_custom_resources: true,
        include_events: true,
        include_replicasets: true,
        include_endpoints: true,
        include_leases: true,
        specific_crds: Some(vec!["a.b".to_string(), "c.d".to_string()]),
        sanitize: true,
    };
    assert_eq!(
        collection_flags(&opts),
        vec![
            "secrets".to_string(),
            "custom_resources".to_string(),
            "specific_crds: [\"a.b\", \"c.d\"]".to_string(),
            "events".to_string(),
            "replicasets".to_string(),
            "endpoints".to_string(),
            "leases".to_string(),
        ]
    );
    let mut some = defaults();
    some.include_events = true;
    some.include_leases = true;
    assert_eq!(collection_flags(&some), vec!["events".to_string(), "leases".to_string()]);
}

#[test]
fn summary_document_of_a_run() {
    let (cluster, namespaces) = sample();
    let mut opts = defaults();
    opts.include_secrets = true;
    let doc =
        collection_summary_document("2024-05-06T07:08:09+00:00", "0.2.0", &cluster, &namespaces, &opts).unwrap();
    let expected = parse(
        r#"{
            "collection_info": {
                "timestamp": "2024-05-06T07:08:09+00:00",
                "tool": "ketchup",
                "version": "0.2.0",
                "sanitized": true,
                "optional_resources_included": ["secrets"]
            },
            "cluster_summary": {
                "total_namespaces": 3,
                "total_cluster_resources": 6,
                "total_namespaced_resources": 18,
                "total_resources": 24,
                "resource_type_counts": {"Pod": 12, "Service": 2, "ConfigMap": 5, "Namespace": 3, "Node": 2}
            },
            "cluster_resources": {
                "total_resources": 6,
                "resource_types": {"Namespace": 3, "Node": 2, "Pod": 1}
            },
            "namespace_details": {
                "default": {"total_resources": 6, "resource_types": {"Pod": 4, "Service": 2}},
                "kube-system": {"total_resources": 12, "resource_types": {"Pod": 7, "ConfigMap": 5}},
                "empty": {"total_resources": 0, "resource_types": {}}
            }
        }"#,
    );
    assert_eq!(doc, expected);
}

#[test]
fn summary_document_of_an_empty_raw_run() {
    let mut opts = defaults();
    opts.sanitize = false;
    let doc = collection_summary_document("t", "v", &KindMap::new(), &Vec::new(), &opts).unwrap();
    let expected = parse(
        r#"{
            "collection_info": {"timestamp": "t", "tool": "ketchup", "version": "v", "sanitized": false,
                                "optional_resources_included": []},
            "cluster_summary": {"total_namespaces": 0, "total_cluster_resources": 0,
                                "total_namespaced_resources": 0, "total_resources": 0,
                                "resource_type_counts": {}},
            "cluster_resources": {"total_resources": 0, "resource_types": {}},
            "namespace_details": {}
        }"#,
    );
    assert_eq!(doc, expected);
}

#[test]
fn summary_keeps_the_later_details_of_a_namespace_named_twice() {
    let namespaces = vec![
        ("a".to_string(), counts(&[("Pod", 1)])),
        ("a".to_string(), counts(&[("Service", 2)])),
    ];
    let doc = collection_summary_document("t", "v", &KindMap::new(), &namespaces, &defaults()).unwrap();
    assert_eq!(
        doc["namespace_details"],
        parse(r#"{"a": {"total_resources": 2, "resource_types": {"Service": 2}}}"#)
    );
    assert_eq!(doc["cluster_summary"]["total_namespaces"], parse("2"));
    assert_eq!(doc["cluster_summary"]["total_resources"], parse("3"));
    assert_eq!(doc["cluster_summary"]["resource_type_counts"], parse(r#"{"Pod": 1, "Service": 2}"#));
}

fn documents(n: usize) -> Vec<Value> {
    (0..n).map(|i| parse(&format!(r#"{{"metadata": {{"name": "r{}"}}}}"#, i))).collect()
}

fn result_set(entries: &[(&str, usize)]) -> KindMap<Vec<Value>> {
    let mut map = KindMap::new();
    for (kind, count) in entries {
        map.insert(kind.to_string(), documents(*count));
    }
    map
}

#[test]
fn count_instances_counts_every_document_of_every_kind() {
    let mut resources = result_set(&[("Pod", 3), ("Service", 1)]);
    resources.insert("ConfigMap".to_string(), vec![parse("{}"), parse("null")]);
    let counts = count_instances(&resources);
    assert_eq!(counts.len(), 3);
    assert_eq!(counts.entry(0), Some((&"Pod".to_string(), &3)));
    assert_eq!(counts.entry(1), Some((&"Service".to_string(), &1)));
    assert_eq!(counts.entry(2), Some((&"ConfigMap".to_string(), &2)));
    assert!(count_instances(&KindMap::new()).is_empty());
}

#[test]
fn aggregate_folds_a_collection_result() {
    let cluster = result_set(&[("Namespace", 2)]);
    let namespaces = vec![
        ("default".to_string(), result_set(&[("Pod", 2)])),
        ("other".to_string(), result_set(&[("Pod", 1), ("Service", 4)])),
    ];
    let totals = aggregate(&cluster, &namespaces).unwrap();
    assert_eq!(totals.total_namespaces, 2);
    assert_eq!(totals.total_cluster_resources, 2);
    assert_eq!(totals.total_namespaced_resources, 7);
    assert_eq!(totals.total_resources, 9);
    assert_eq!(totals.namespace_totals, vec![2, 5]);
    assert_eq!(totals.resource_type_counts.entry(0), Some((&"Pod".to_string(), &3)));
    assert_eq!(totals.resource_type_counts.entry(1), Some((&"Service".to_string(), &4)));
    assert_eq!(totals.resource_type_counts.entry(2), Some((&"Namespace".to_string(), &2)));
    assert_eq!(totals.resource_type_counts.get("Secret"), None);
    let again = aggregate(&cluster, &namespaces).unwrap();
    assert_eq!(again.total_resources, totals.total_resources);
    assert_eq!(again.namespace_totals, totals.namespace_totals);
}
