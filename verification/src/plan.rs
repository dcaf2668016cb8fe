//! What a run announces before it starts collecting, and how loudly.

use vstd::prelude::*;
use crate::policy::{CollectionOptions, OptionsView};
use crate::text::{debug_list, debug_list_text};

verus! {

/// How important a log line is.
#[derive(Debug, Clone, Copy, PartialEq, Eq, Structural)]
pub enum LogLevel {
    Debug,
    Info,
    Warn,
}

/// One line for the log.
#[derive(Debug, Clone)]
pub struct LogLine {
    pub level: LogLevel,
    pub message: String,
}

/// A log line as plain values.
pub struct LogLineView {
    pub level: LogLevel,
    pub message: Seq<char>,
}

impl View for LogLine {
    type V = LogLineView;

    open spec fn view(&self) -> LogLineView {
        LogLineView { level: self.level, message: self.message@ }
    }
}

/// The views of a sequence of log lines, in the same order.
pub open spec fn lines_view(lines: Seq<LogLine>) -> Seq<LogLineView> {
    lines.map_values(|l: LogLine| l@)
}

/// How the logger is set up.
#[derive(Debug, Clone, Copy, PartialEq, Eq, Structural)]
pub struct LogSetup {
    /// The least important level that is still printed.
    pub max_level: LogLevel,
    /// Whether each line names the module that wrote it.
    pub with_target: bool,
}

/// The logger setup for the two verbosity flags: `debug` wins over `verbose`,
/// and without either only warnings are printed.
pub fn init_logging(verbose: bool, debug: bool) -> (setup: LogSetup)
    ensures
        setup.with_target == debug,
        setup.max_level == if debug {
            LogLevel::Debug
        } else if verbose {
            LogLevel::Info
        } else {
            LogLevel::Warn
        },
{
    let max_level = if debug {
        LogLevel::Debug
    } else if verbose {
        LogLevel::Info
    } else {
        LogLevel::Warn
    };
    LogSetup { max_level, with_target: debug }
}

/// The logger setup of a run over a fixed set of kinds: progress is always
/// printed, details with `verbose`, and each line names its module.
pub fn init_basic_logging(verbose: bool) -> (setup: LogSetup)
    ensures
        setup.with_target,
        setup.max_level == if verbose {
            LogLevel::Debug
        } else {
            LogLevel::Info
        },
{
    let max_level = if verbose {
        LogLevel::Debug
    } else {
        LogLevel::Info
    };
    LogSetup { max_level, with_target: true }
}

/// An informational line.
pub open spec fn info(message: Seq<char>) -> LogLineView {
    LogLineView { level: LogLevel::Info, message }
}

/// A line for debugging only.
pub open spec fn debug(message: Seq<char>) -> LogLineView {
    LogLineView { level: LogLevel::Debug, message }
}

/// The line for one toggle: announced when on, a debugging hint when off.
pub open spec fn toggle_line(on: bool, enabled: Seq<char>, skipped: Seq<char>) -> LogLineView {
    if on {
        info(enabled)
    } else {
        debug(skipped)
    }
}

/// The line on custom resources: the blanket toggle is announced first, then
/// the allow-list, and with neither a debugging hint.
pub open spec fn custom_resources_line(opts: OptionsView) -> LogLineView {
    if opts.include_custom_resources {
        info("  - Custom Resources: ✅ Enabled"@)
    } else {
        match opts.specific_crds {
            Some(crds) => info("  - Custom Resources: ✅ Specific CRDs: "@ + debug_list_text(crds)),
            None => debug("  - Custom Resources: ⏭️  Skipped (use -C to enable)"@),
        }
    }
}

/// The collection plan of a run, line by line.
pub open spec fn collection_plan(opts: OptionsView) -> Seq<LogLineView> {
    seq![
        info("📋 Collection plan:"@),
        info("  - Core resources: ✅ Always collected"@),
        toggle_line(
            opts.include_secrets,
            "  - Secrets: ✅ Enabled"@,
            "  - Secrets: ⏭️  Skipped (use -s to enable)"@,
        ),
        custom_resources_line(opts),
        toggle_line(
            opts.include_events,
            "  - Events: ✅ Enabled"@,
            "  - Events: ⏭️  Skipped (use -E to enable)"@,
        ),
        toggle_line(
            opts.include_replicasets,
            "  - ReplicaSets: ✅ Enabled"@,
            "  - ReplicaSets: ⏭️  Skipped (use -R to enable)"@,
        ),
        toggle_line(
            opts.include_endpoints,
            "  - Endpoints: ✅ Enabled"@,
            "  - Endpoints: ⏭️  Skipped (use -P to enable)"@,
        ),
        toggle_line(
            opts.include_leases,
            "  - Leases: ✅ Enabled"@,
            "  - Leases: ⏭️  Skipped (use -L to enable)"@,
        ),
    ]
}

fn info_line(message: &str) -> (line: LogLine)
    ensures
        line@ == info(message@),
{
    LogLine { level: LogLevel::Info, message: message.to_owned() }
}

fn toggle(on: bool, enabled: &str, skipped: &str) -> (line: LogLine)
    ensures
        line@ == toggle_line(on, enabled@, skipped@),
{
    if on {
        info_line(enabled)
    } else {
        LogLine { level: LogLevel::Debug, message: skipped.to_owned() }
    }
}

fn custom_resources(opts: &CollectionOptions) -> (line: LogLine)
    ensures
        line@ == custom_resources_line(opts@),
{
    if opts.include_custom_resources {
        info_line("  - Custom Resources: ✅ Enabled")
    } else {
        match &opts.specific_crds {
            Some(crds) => {
                let mut message = "  - Custom Resources: ✅ Specific CRDs: ".to_owned();
                let listed = debug_list(crds);
                message.append(listed.as_str());
                LogLine { level: LogLevel::Info, message }
            },
            None => LogLine {
                level: LogLevel::Debug,
                message: "  - Custom Resources: ⏭️  Skipped (use -C to enable)".to_owned(),
            },
        }
    }
}

/// The lines that announce what a run will collect: one for each optional
/// group of kinds, informational where the group is on and a debugging hint
/// where it is off.
pub fn log_collection_plan(opts: &CollectionOptions) -> (lines: Vec<LogLine>)
    ensures
        lines_view(lines@) == collection_plan(opts@),
{
    let mut lines: Vec<LogLine> = Vec::new();
    lines.push(info_line("📋 Collection plan:"));
    lines.push(info_line("  - Core resources: ✅ Always collected"));
    lines.push(
        toggle(
            opts.include_secrets,
            "  - Secrets: ✅ Enabled",
            "  - Secrets: ⏭️  Skipped (use -s to enable)",
        ),
    );
    lines.push(custom_resources(opts));
    lines.push(
        toggle(
            opts.include_events,
            "  - Events: ✅ Enabled",
            "  - Events: ⏭️  Skipped (use -E to enable)",
        ),
    );
    lines.push(
        toggle(
            opts.include_replicasets,
            "  - ReplicaSets: ✅ Enabled",
            "  - ReplicaSets: ⏭️  Skipped (use -R to enable)",
        ),
    );
    lines.push(
        toggle(
            opts.include_endpoints,
            "  - Endpoints: ✅ Enabled",
            "  - Endpoints: ⏭️  Skipped (use -P to enable)",
        ),
    );
    lines.push(
        toggle(
            opts.include_leases,
            "  - Leases: ✅ Enabled",
            "  - Leases: ⏭️  Skipped (use -L to enable)",
        ),
    );
    assert(lines_view(lines@) =~= collection_plan(opts@));
    lines
}

} // verus!
