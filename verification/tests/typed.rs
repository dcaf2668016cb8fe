use ketchup::summary::SummaryError;
use ketchup::typed::{collect_listed, enhanced_summary_document, in_namespace, is_in_namespace};
use serde_json::Value;

fn parse(text: &str) -> Value {
    serde_json::from_str(text).unwrap()
}

fn pod(name: &str, namespace: &str) -> Value {
    parse(&format!(r#"{{"metadata": {{"name": "{}", "namespace": "{}"}}}}"#, name, namespace))
}

#[test]
fn collect_listed_passes_over_failures() {
    let listings = vec![
        Some(vec![Some(pod("a", "one")), None, Some(pod("b", "one"))]),
        None,
        Some(Vec::new()),
        Some(vec![Some(pod("c", "two"))]),
    ];
    assert_eq!(collect_listed(listings), vec![pod("a", "one"), pod("b", "one"), pod("c", "two")]);
    assert_eq!(collect_listed(Vec::new()), Vec::<Value>::new());
    assert_eq!(collect_listed(vec![None, None]), Vec::<Value>::new());
}

#[test]
fn in_namespace_keeps_the_resources_of_one_namespace() {
    let items = vec![
        pod("a", "one"),
        pod("b", "two"),
        parse(r#"{"metadata": {"name": "c"}}"#),
        parse(r#"{"metadata": {"namespace": 1}}"#),
        parse("[]"),
        pod("d", "one"),
    ];
    assert_eq!(in_namespace(&items, "one"), vec![pod("a", "one"), pod("d", "one")]);
    assert_eq!(in_namespace(&items, "two"), vec![pod("b", "two")]);
    assert_eq!(in_namespace(&items, "three"), Vec::<Value>::new());
    assert!(is_in_namespace(&items[0], "one"));
    assert!(!is_in_namespace(&items[0], "One"));
    assert!(!is_in_namespace(&items[2], ""));
}

#[test]
fn enhanced_summary_with_secrets() {
    let stats = vec![("a".to_string(), 1, 2, 3, 4, 5), ("b".to_string(), 10, 20, 30, 40, 50)];
    let doc = enhanced_summary_document("2024-01-01T00:00:00+00:00", "0.2.0", &stats, true).unwrap();
    let expected = parse(
        r#"{
            "collection_info": {"timestamp": "2024-01-01T00:00:00+00:00", "tool": "ketchup", "version": "0.2.0"},
            "cluster_summary": {
                "total_namespaces": 2, "total_pods": 11, "total_services": 22, "total_deployments": 33,
                "total_configmaps": 44, "total_secrets": 55, "total_resources": 165
            },
            "namespace_details": {
                "a": {"pods_collected": 1, "services_collected": 2, "deployments_collected": 3,
                      "configmaps_collected": 4, "secrets_collected": 5, "total_resources": 15},
                "b": {"pods_collected": 10, "services_collected": 20, "deployments_collected": 30,
                      "configmaps_collected": 40, "secrets_collected": 50, "total_resources": 150}
            }
        }"#,
    );
    assert_eq!(doc, expected);
}

#[test]
fn enhanced_summary_without_secrets() {
    let stats = vec![("a".to_string(), 1, 2, 3, 4, 0)];
    let doc = enhanced_summary_document("t", "v", &stats, false).unwrap();
    let expected = parse(
        r#"{
            "collection_info": {"timestamp": "t", "tool": "ketchup", "version": "v"},
            "cluster_summary": {
                "total_namespaces": 1, "total_pods": 1, "total_services": 2, "total_deployments": 3,
                "total_configmaps": 4, "secrets_collected": false, "total_resources": 10
            },
            "namespace_details": {
                "a": {"pods_collected": 1, "services_collected": 2, "deployments_collected": 3,
                      "configmaps_collected": 4, "total_resources": 10}
            }
        }"#,
    );
    assert_eq!(doc, expected);
    let empty = enhanced_summary_document("t", "v", &Vec::new(), false).unwrap();
    assert_eq!(empty["cluster_summary"]["total_resources"], parse("0"));
    assert_eq!(empty["namespace_details"], parse("{}"));
}

#[test]
fn enhanced_summary_fails_where_the_counts_do_not_fit() {
    let stats = vec![("a".to_string(), usize::MAX, 0, 0, 0, 0), ("b".to_string(), 0, 0, 0, 0, 1)];
    assert_eq!(enhanced_summary_document("t", "v", &stats, true), Err(SummaryError::CountOverflow));
    assert_eq!(enhanced_summary_document("t", "v", &stats, false), Err(SummaryError::CountOverflow));
    let fits = vec![("a".to_string(), usize::MAX - 1, 0, 0, 0, 0), ("b".to_string(), 0, 0, 0, 0, 1)];
    assert!(enhanced_summary_document("t", "v", &fits, true).is_ok());
}
