use ketchup::plan::{init_basic_logging, init_logging, log_collection_plan, LogLevel, LogLine, LogSetup};
use ketchup::policy::CollectionOptions;

fn defaults() -> CollectionOptions {
    CollectionOptions {
        include_secrets: false,
        include_custom_resources: false,
        include_events: false,
        include_replicasets: false,
        include_endpoints: false,
        include_leases: false,
        specific_crds: None,
        sanitize: true,
    }
}

fn pairs(lines: &[LogLine]) -> Vec<(LogLevel, String)> {
    lines.iter().map(|l| (l.level, l.message.clone())).collect()
}

#[test]
fn plan_of_a_default_run() {
    let lines = log_collection_plan(&defaults());
    assert_eq!(
        pairs(&lines),
        vec![
            (LogLevel::Info, "📋 Collection plan:".to_string()),
            (LogLevel::Info, "  - Core resources: ✅ Always collected".to_string()),
            (LogLevel::Debug, "  - Secrets: ⏭️  Skipped (use -s to enable)".to_string()),
            (LogLevel::Debug, "  - Custom Resources: ⏭️  Skipped (use -C to enable)".to_string()),
            (LogLevel::Debug, "  - Events: ⏭️  Skipped (use -E to enable)".to_string()),
            (LogLevel::Debug, "  - ReplicaSets: ⏭️  Skipped (use -R to enable)".to_string()),
            (LogLevel::Debug, "  - Endpoints: ⏭️  Skipped (use -P to enable)".to_string()),
            (LogLevel::Debug, "  - Leases: ⏭️  Skipped (use -L to enable)".to_string()),
        ]
    );
}

#[test]
fn plan_of_a_run_that_includes_everything() {
    let opts = CollectionOptions {
        include_secrets: true,
        include_custom_resources: true,
        include_events: true,
        include_replicasets: true,
        include_endpoints: true,
        include_leases: true,
        specific_crds: Some(vec!["a.b".to_string()]),
        sanitize: false,
    };
    let lines = log_collection_plan(&opts);
    assert_eq!(
        pairs(&lines),
        vec![
            (LogLevel::Info, "📋 Collection plan:".to_string()),
            (LogLevel::Info, "  - Core resources: ✅ Always collected".to_string()),
            (LogLevel::Info, "  - Secrets: ✅ Enabled".to_string()),
            (LogLevel::Info, "  - Custom Resources: ✅ Enabled".to_string()),
            (LogLevel::Info, "  - Events: ✅ Enabled".to_string()),
            (LogLevel::Info, "  - ReplicaSets: ✅ Enabled".to_string()),
            (LogLevel::Info, "  - Endpoints: ✅ Enabled".to_string()),
            (LogLevel::Info, "  - Leases: ✅ Enabled".to_string()),
        ]
    );
}

#[test]
fn plan_names_the_allow_list() {
    let mut opts = defaults();
    opts.specific_crds = Some(vec!["widgets.example.com".to_string(), "a\"b.c".to_string()]);
    let lines = log_collection_plan(&opts);
    assert_eq!(lines.len(), 8);
    assert_eq!(lines[3].level, LogLevel::Info);
    assert_eq!(
        lines[3].message,
        "  - Custom Resources: ✅ Specific CRDs: [\"widgets.example.com\", \"a\\\"b.c\"]"
    );
    opts.specific_crds = Some(Vec::new());
    assert_eq!(log_collection_plan(&opts)[3].message, "  - Custom Resources: ✅ Specific CRDs: []");
}

#[test]
fn logging_setup_follows_the_flags() {
    assert_eq!(init_logging(false, false), LogSetup { max_level: LogLevel::Warn, with_target: false });
    assert_eq!(init_logging(true, false), LogSetup { max_level: LogLevel::Info, with_target: false });
    assert_eq!(init_logging(false, true), LogSetup { max_level: LogLevel::Debug, with_target: true });
    assert_eq!(init_logging(true, true), LogSetup { max_level: LogLevel::Debug, with_target: true });
}

#[test]
fn basic_logging_always_shows_progress() {
    assert_eq!(init_basic_logging(false), LogSetup { max_level: LogLevel::Info, with_target: true });
    assert_eq!(init_basic_logging(true), LogSetup { max_level: LogLevel::Debug, with_target: true });
}
