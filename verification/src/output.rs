//! Where the collected documents go: the directories and files of a run, as
//! a list of actions for the caller to carry out.

use vstd::prelude::*;
use serde_json::Value;
use crate::json::{
    documents, field, json_error_message, json_of, pretty_text, text_of, to_string_pretty,
    to_yaml_string, value_get, yaml_error_message, yaml_text, Json,
};
use crate::kindmap::KindMap;
use crate::policy::{CollectionOptions, OptionsView};
use crate::report::{collection_summary_document, namespace_names, summary_json};
use crate::summary::{grand_total, namespace_entries, SummaryError};
use crate::time::{format_rfc3339, format_stamp, rfc3339_text, stamp_text};
use crate::typed::{all_columns_sum, enhanced_summary_document, enhanced_summary_json};
use crate::text::{join2, join3, lowercase_text, to_lowercase};

verus! {

/// Why something could not be saved.
#[derive(Debug, Clone)]
pub enum SaveError {
    /// The output format is none of `json`, `yaml` and `both`.
    InvalidFormat(String),
    /// The compression mode is none of `compressed`, `uncompressed` and
    /// `both`.
    InvalidCompression(String),
    /// A document could not be printed as JSON; the encoder's message.
    Json(String),
    /// A document could not be printed as YAML; the encoder's message.
    Yaml(String),
}

/// A reason for which something could not be saved, without the encoder's
/// wording.
pub enum SaveErrorView {
    InvalidFormat(Seq<char>),
    InvalidCompression(Seq<char>),
    Json,
    Yaml,
}

impl View for SaveError {
    type V = SaveErrorView;

    open spec fn view(&self) -> SaveErrorView {
        match self {
            SaveError::InvalidFormat(format) => SaveErrorView::InvalidFormat(format@),
            SaveError::InvalidCompression(mode) => SaveErrorView::InvalidCompression(mode@),
            SaveError::Json(_) => SaveErrorView::Json,
            SaveError::Yaml(_) => SaveErrorView::Yaml,
        }
    }
}

impl SaveError {
    /// The message for the user: for an encoder's error, the encoder's
    /// own message.
    pub fn message(&self) -> (text: String)
        ensures
            text@ == match *self {
                SaveError::InvalidFormat(format) => "Invalid format: "@ + format@,
                SaveError::InvalidCompression(mode) => "Invalid compression: "@ + mode@
                    + ". Use compressed, uncompressed, or both"@,
                SaveError::Json(message) => message@,
                SaveError::Yaml(message) => message@,
            },
    {
        match self {
            SaveError::InvalidFormat(format) => join2("Invalid format: ", format.as_str()),
            SaveError::InvalidCompression(mode) => join3(
                "Invalid compression: ",
                mode.as_str(),
                ". Use compressed, uncompressed, or both",
            ),
            SaveError::Json(message) => message.clone(),
            SaveError::Yaml(message) => message.clone(),
        }
    }
}

/// One step on the file system.
#[derive(Debug, Clone)]
pub enum Action {
    /// Create the directory and the directories above it.
    CreateDirectory(String),
    /// Write the content to the file, in place of what it held.
    WriteFile { path: String, content: String },
}

/// A step on the file system as plain values.
pub enum ActionView {
    CreateDirectory(Seq<char>),
    WriteFile { path: Seq<char>, content: Seq<char> },
}

impl View for Action {
    type V = ActionView;

    open spec fn view(&self) -> ActionView {
        match self {
            Action::CreateDirectory(path) => ActionView::CreateDirectory(path@),
            Action::WriteFile { path, content } => ActionView::WriteFile {
                path: path@,
                content: content@,
            },
        }
    }
}

/// The views of a sequence of actions, in the same order.
pub open spec fn actions_view(actions: Seq<Action>) -> Seq<ActionView> {
    actions.map_values(|a: Action| a@)
}

/// The declared name of a resource: the string at `metadata.name`.
pub open spec fn resource_name(doc: Json) -> Option<Seq<char>> {
    match field(doc, "metadata"@) {
        Some(metadata) => match field(metadata, "name"@) {
            Some(name) => text_of(name),
            None => None,
        },
        None => None,
    }
}

/// The file of one document in one format.
pub open spec fn file_action(dir: Seq<char>, name: Seq<char>, extension: Seq<char>, content: Seq<char>) -> ActionView {
    ActionView::WriteFile { path: dir + "/"@ + name + extension, content }
}

/// The files that one document is saved as under `dir`: none for a document
/// without a name, else one for each format asked for, JSON first.
pub open spec fn item_files(dir: Seq<char>, doc: Json, format: Seq<char>) -> Result<Seq<ActionView>, SaveErrorView> {
    match resource_name(doc) {
        None => Ok(Seq::empty()),
        Some(name) => if format == "json"@ {
            match pretty_text(doc) {
                Some(json) => Ok(seq![file_action(dir, name, ".json"@, json)]),
                None => Err(SaveErrorView::Json),
            }
        } else if format == "yaml"@ {
            match yaml_text(doc) {
                Some(yaml) => Ok(seq![file_action(dir, name, ".yaml"@, yaml)]),
                None => Err(SaveErrorView::Yaml),
            }
        } else if format == "both"@ {
            match pretty_text(doc) {
                Some(json) => match yaml_text(doc) {
                    Some(yaml) => Ok(
                        seq![
                            file_action(dir, name, ".json"@, json),
                            file_action(dir, name, ".yaml"@, yaml),
                        ],
                    ),
                    None => Err(SaveErrorView::Yaml),
                },
                None => Err(SaveErrorView::Json),
            }
        } else {
            Err(SaveErrorView::InvalidFormat(format))
        },
    }
}

/// The declared name of a resource, if it has one.
pub fn item_name<'a>(item: &'a Value) -> (name: Option<&'a str>)
    ensures
        match name {
            Some(text) => resource_name(json_of(*item)) == Some(text@),
            None => resource_name(json_of(*item)) is None,
        },
{
    match value_get(item, "metadata") {
        Some(metadata) => match value_get(metadata, "name") {
            Some(name) => name.as_str(),
            None => None,
        },
        None => None,
    }
}

fn json_file(dir: &str, name: &str, item: &Value) -> (file: Result<Action, SaveError>)
    ensures
        match file {
            Ok(action) => pretty_text(json_of(*item)) is Some && action@ == file_action(
                dir@,
                name@,
                ".json"@,
                pretty_text(json_of(*item))->0,
            ),
            Err(error) => pretty_text(json_of(*item)) is None && error@ == SaveErrorView::Json,
        },
{
    match to_string_pretty(item) {
        Ok(content) => {
            let mut path = join3(dir, "/", name);
            path.append(".json");
            Ok(Action::WriteFile { path, content })
        },
        Err(error) => Err(SaveError::Json(json_error_message(&error))),
    }
}

fn yaml_file(dir: &str, name: &str, item: &Value) -> (file: Result<Action, SaveError>)
    ensures
        match file {
            Ok(action) => yaml_text(json_of(*item)) is Some && action@ == file_action(
                dir@,
                name@,
                ".yaml"@,
                yaml_text(json_of(*item))->0,
            ),
            Err(error) => yaml_text(json_of(*item)) is None && error@ == SaveErrorView::Yaml,
        },
{
    match to_yaml_string(item) {
        Ok(content) => {
            let mut path = join3(dir, "/", name);
            path.append(".yaml");
            Ok(Action::WriteFile { path, content })
        },
        Err(error) => Err(SaveError::Yaml(yaml_error_message(&error))),
    }
}

/// The files that one document is saved as under `dir`. A document without a
/// name gets none, whatever the format; a named one gets a JSON file, a YAML
/// file or both, and an error where the format is unknown or the document
/// cannot be printed.
pub fn files_for_item(dir: &str, item: &Value, format: &str) -> (files: Result<Vec<Action>, SaveError>)
    ensures
        match files {
            Ok(actions) => item_files(dir@, json_of(*item), format@) matches Ok(wanted)
                && actions_view(actions@) == wanted,
            Err(error) => item_files(dir@, json_of(*item), format@) matches Err(reason) && error@
                == reason,
        },
{
    let mut actions: Vec<Action> = Vec::new();
    match item_name(item) {
        None => {
            assert(actions_view(actions@) =~= Seq::empty());
            Ok(actions)
        },
        Some(name) => {
            if *format == *"json" {
                match json_file(dir, name, item) {
                    Ok(action) => {
                        actions.push(action);
                        assert(actions_view(actions@) =~= seq![action@]);
                        Ok(actions)
                    },
                    Err(error) => Err(error),
                }
            } else if *format == *"yaml" {
                match yaml_file(dir, name, item) {
                    Ok(action) => {
                        actions.push(action);
                        assert(actions_view(actions@) =~= seq![action@]);
                        Ok(actions)
                    },
                    Err(error) => Err(error),
                }
            } else if *format == *"both" {
                match json_file(dir, name, item) {
                    Ok(json) => match yaml_file(dir, name, item) {
                        Ok(yaml) => {
                            actions.push(json);
                            actions.push(yaml);
                            assert(actions_view(actions@) =~= seq![json@, yaml@]);
                            Ok(actions)
                        },
                        Err(error) => Err(error),
                    },
                    Err(error) => Err(error),
                }
            } else {
                Err(SaveError::InvalidFormat(format.to_owned()))
            }
        },
    }
}

/// A document that could not be printed, and why.
#[derive(Debug, Clone)]
pub struct SkippedItem {
    /// The declared name of the resource.
    pub name: String,
    /// The encoder's error.
    pub error: SaveError,
}

/// A document that could not be printed, as plain values.
pub struct SkippedView {
    pub name: Seq<char>,
    pub reason: SaveErrorView,
}

impl View for SkippedItem {
    type V = SkippedView;

    open spec fn view(&self) -> SkippedView {
        SkippedView { name: self.name@, reason: self.error@ }
    }
}

/// The views of a sequence of skipped documents, in the same order.
pub open spec fn skipped_view(skipped: Seq<SkippedItem>) -> Seq<SkippedView> {
    skipped.map_values(|s: SkippedItem| s@)
}

/// Whether the error belongs to one document alone: the encoder refused it,
/// and the documents beside it can still be saved.
pub open spec fn is_local(reason: SaveErrorView) -> bool {
    reason is Json || reason is Yaml
}

/// What saving a sequence of documents comes to.
pub struct SaveView {
    /// The steps to carry out, in order.
    pub actions: Seq<ActionView>,
    /// The number of documents that are saved by these steps.
    pub saved: int,
    /// The documents that were passed over because they could not be
    /// printed, in their order.
    pub skipped: Seq<SkippedView>,
    /// Why saving stopped before the last document, if it did.
    pub failure: Option<SaveErrorView>,
}

/// Nothing to do, nothing saved.
pub open spec fn nothing_saved() -> SaveView {
    SaveView { actions: Seq::empty(), saved: 0, skipped: Seq::empty(), failure: None }
}

/// Saving `docs` under `dir`, one after another. Each named document adds its
/// files and counts as saved. A document that cannot be printed is passed
/// over and noted, and the documents after it are saved all the same. An
/// unknown format stops the run at the first named document, and what came
/// before it stays.
pub open spec fn items_saved(dir: Seq<char>, docs: Seq<Json>, format: Seq<char>) -> SaveView
    decreases docs.len(),
{
    if docs.len() == 0 {
        nothing_saved()
    } else {
        let before = items_saved(dir, docs.drop_last(), format);
        if before.failure is Some {
            before
        } else {
            match item_files(dir, docs.last(), format) {
                Ok(files) => SaveView {
                    actions: before.actions + files,
                    saved: before.saved + if resource_name(docs.last()) is Some {
                        1int
                    } else {
                        0int
                    },
                    skipped: before.skipped,
                    failure: None,
                },
                Err(reason) => if is_local(reason) {
                    SaveView {
                        actions: before.actions,
                        saved: before.saved,
                        skipped: before.skipped.push(
                            SkippedView { name: resource_name(docs.last())->0, reason },
                        ),
                        failure: None,
                    }
                } else {
                    SaveView {
                        actions: before.actions,
                        saved: before.saved,
                        skipped: before.skipped,
                        failure: Some(reason),
                    }
                },
            }
        }
    }
}

/// Saving the documents of one kind under `base_dir`: nothing at all for no
/// documents, else the directory named by the kind in lower case, and the
/// documents in it.
pub open spec fn resource_type_saved(
    base_dir: Seq<char>,
    kind: Seq<char>,
    docs: Seq<Json>,
    format: Seq<char>,
) -> SaveView {
    if docs.len() == 0 {
        nothing_saved()
    } else {
        let dir = base_dir + "/"@ + lowercase_text(kind);
        let items = items_saved(dir, docs, format);
        SaveView {
            actions: seq![ActionView::CreateDirectory(dir)] + items.actions,
            saved: items.saved,
            skipped: items.skipped,
            failure: items.failure,
        }
    }
}

/// The steps that save some documents, and what they come to.
#[derive(Debug)]
pub struct SavePlan {
    /// The steps to carry out, in order.
    pub actions: Vec<Action>,
    /// The number of documents that are saved once the steps are done.
    pub saved: usize,
    /// The documents that were passed over because they could not be
    /// printed.
    pub skipped: Vec<SkippedItem>,
    /// Why saving stopped early, if it did: the caller carries out the
    /// steps and then fails with this.
    pub failure: Option<SaveError>,
}

/// The failure of a plan as plain values.
pub open spec fn failure_view(failure: Option<SaveError>) -> Option<SaveErrorView> {
    match failure {
        Some(error) => Some(error@),
        None => None,
    }
}

impl View for SavePlan {
    type V = SaveView;

    open spec fn view(&self) -> SaveView {
        SaveView {
            actions: actions_view(self.actions@),
            saved: self.saved as int,
            skipped: skipped_view(self.skipped@),
            failure: failure_view(self.failure),
        }
    }
}

/// No more documents are saved than there are, and a document is either
/// saved or passed over, never both.
pub proof fn lemma_items_saved_bound(dir: Seq<char>, docs: Seq<Json>, format: Seq<char>)
    ensures
        0 <= items_saved(dir, docs, format).saved,
        items_saved(dir, docs, format).saved + items_saved(dir, docs, format).skipped.len()
            <= docs.len(),
    decreases docs.len(),
{
    if docs.len() > 0 {
        lemma_items_saved_bound(dir, docs.drop_last(), format);
    }
}

/// A document that cannot be printed stops nothing: with a known format,
/// saving never fails as a whole.
pub proof fn lemma_known_format_never_fails(dir: Seq<char>, docs: Seq<Json>, format: Seq<char>)
    requires
        format == "json"@ || format == "yaml"@ || format == "both"@,
    ensures
        items_saved(dir, docs, format).failure is None,
    decreases docs.len(),
{
    if docs.len() > 0 {
        lemma_known_format_never_fails(dir, docs.drop_last(), format);
    }
}

/// Appends the steps that save `items` under `dir` to `actions`, and the
/// documents that cannot be printed to `skipped`.
fn save_items(
    actions: &mut Vec<Action>,
    skipped: &mut Vec<SkippedItem>,
    dir: &str,
    items: &Vec<Value>,
    format: &str,
) -> (result: (usize, Option<SaveError>))
    ensures
        actions_view(final(actions)@) == actions_view(old(actions)@) + items_saved(
            dir@,
            documents(items@),
            format@,
        ).actions,
        skipped_view(final(skipped)@) == skipped_view(old(skipped)@) + items_saved(
            dir@,
            documents(items@),
            format@,
        ).skipped,
        result.0 == items_saved(dir@, documents(items@), format@).saved,
        failure_view(result.1) == items_saved(dir@, documents(items@), format@).failure,
{
    let ghost docs = documents(items@);
    let ghost start = actions_view(actions@);
    let ghost passed = skipped_view(skipped@);
    let mut saved: usize = 0;
    let mut i: usize = 0;
    proof {
        assert(docs.take(0) =~= Seq::empty());
        assert(actions_view(actions@) =~= start + Seq::<ActionView>::empty());
        assert(skipped_view(skipped@) =~= passed + Seq::<SkippedView>::empty());
    }
    while i < items.len()
        invariant
            i <= items.len(),
            docs == documents(items@),
            start == actions_view(old(actions)@),
            passed == skipped_view(old(skipped)@),
            items_saved(dir@, docs.take(i as int), format@).failure is None,
            saved == items_saved(dir@, docs.take(i as int), format@).saved,
            saved <= i,
            actions_view(actions@) == start + items_saved(
                dir@,
                docs.take(i as int),
                format@,
            ).actions,
            skipped_view(skipped@) == passed + items_saved(
                dir@,
                docs.take(i as int),
                format@,
            ).skipped,
        decreases items.len() - i,
    {
        let ghost upto = items_saved(dir@, docs.take(i as int), format@);
        proof {
            assert(docs.take(i as int + 1).drop_last() =~= docs.take(i as int));
            assert(docs.take(i as int + 1).last() == json_of(items[i as int]));
        }
        match files_for_item(dir, &items[i], format) {
            Ok(files) => {
                let named = files.len() > 0;
                let ghost before = actions_view(actions@);
                let ghost added = actions_view(files@);
                let mut files = files;
                actions.append(&mut files);
                proof {
                    assert(actions_view(actions@) =~= before + added);
                    assert(start + upto.actions + added =~= start + (upto.actions + added));
                }
                if named {
                    saved += 1;
                }
            },
            Err(error) => {
                match error {
                    SaveError::Json(_) | SaveError::Yaml(_) => {
                        let name = match item_name(&items[i]) {
                            Some(name) => name.to_owned(),
                            None => String::new(),
                        };
                        let ghost before = skipped_view(skipped@);
                        let item = SkippedItem { name, error };
                        skipped.push(item);
                        proof {
                            assert(skipped_view(skipped@) =~= before.push(item@));
                            assert(passed + upto.skipped.push(item@) =~= (passed
                                + upto.skipped).push(item@));
                        }
                    },
                    _ => {
                        proof {
                            lemma_failure_stays(dir@, docs, format@, i as int + 1);
                        }
                        return (saved, Some(error));
                    },
                }
            },
        }
        i += 1;
    }
    assert(docs.take(items.len() as int) =~= docs);
    (saved, None)
}

/// Once saving has stopped on a document, the documents after it change
/// nothing.
pub proof fn lemma_failure_stays(dir: Seq<char>, docs: Seq<Json>, format: Seq<char>, n: int)
    requires
        0 <= n <= docs.len(),
        items_saved(dir, docs.take(n), format).failure is Some,
    ensures
        items_saved(dir, docs, format) == items_saved(dir, docs.take(n), format),
    decreases docs.len() - n,
{
    if n < docs.len() {
        assert(docs.take(n + 1).drop_last() =~= docs.take(n));
        lemma_failure_stays(dir, docs, format, n + 1);
    } else {
        assert(docs.take(n) =~= docs);
    }
}

/// The steps that save the documents of one kind under `base_dir`: none for
/// no documents; else a directory named by the kind in lower case, and in it
/// one file, or one for each format, for every document that has a name.
/// Documents without a name are passed over in silence, and a document that
/// cannot be printed is passed over and noted. An unknown format ends the
/// plan with its error at the first named document.
pub fn save_resource_type(base_dir: &str, kind: &str, items: &Vec<Value>, format: &str) -> (plan: SavePlan)
    ensures
        plan@ == resource_type_saved(base_dir@, kind@, documents(items@), format@),
{
    let mut actions: Vec<Action> = Vec::new();
    let mut skipped: Vec<SkippedItem> = Vec::new();
    assert(skipped_view(skipped@) =~= Seq::empty());
    if items.len() == 0 {
        assert(actions_view(actions@) =~= Seq::empty());
        return SavePlan { actions, saved: 0, skipped, failure: None };
    }
    let lower = to_lowercase(kind);
    let dir = join3(base_dir, "/", lower.as_str());
    actions.push(Action::CreateDirectory(dir.clone()));
    assert(actions_view(actions@) =~= seq![ActionView::CreateDirectory(dir@)]);
    let (saved, failure) = save_items(&mut actions, &mut skipped, dir.as_str(), items, format);
    SavePlan { actions, saved, skipped, failure }
}

/// What saving the kinds of one scope comes to.
pub struct ScopeView {
    /// The steps to carry out, in order.
    pub actions: Seq<ActionView>,
    /// The number of documents saved of each kind, in the order of the kinds.
    pub stats: Seq<(Seq<char>, usize)>,
    /// The documents that were passed over because they could not be
    /// printed, in their order.
    pub skipped: Seq<SkippedView>,
    /// Why saving stopped before the last kind, if it did.
    pub failure: Option<SaveErrorView>,
}

/// Saving the kinds of `entries` under `dir`, one after another: each kind
/// adds its steps and its count; the first kind that stops stops the run
/// after its own steps, and has no count.
pub open spec fn kinds_saved(
    dir: Seq<char>,
    entries: Seq<(Seq<char>, Seq<Json>)>,
    format: Seq<char>,
) -> ScopeView
    decreases entries.len(),
{
    if entries.len() == 0 {
        ScopeView {
            actions: Seq::empty(),
            stats: Seq::empty(),
            skipped: Seq::empty(),
            failure: None,
        }
    } else {
        let before = kinds_saved(dir, entries.drop_last(), format);
        if before.failure is Some {
            before
        } else {
            let one = resource_type_saved(dir, entries.last().0, entries.last().1, format);
            ScopeView {
                actions: before.actions + one.actions,
                stats: if one.failure is None {
                    before.stats.push((entries.last().0, one.saved as usize))
                } else {
                    before.stats
                },
                skipped: before.skipped + one.skipped,
                failure: one.failure,
            }
        }
    }
}

/// Saving a result set under `dir`: the directory itself, then kind by kind.
pub open spec fn scope_saved(
    dir: Seq<char>,
    entries: Seq<(Seq<char>, Seq<Json>)>,
    format: Seq<char>,
) -> ScopeView {
    let kinds = kinds_saved(dir, entries, format);
    ScopeView {
        actions: seq![ActionView::CreateDirectory(dir)] + kinds.actions,
        stats: kinds.stats,
        skipped: kinds.skipped,
        failure: kinds.failure,
    }
}

/// The kinds of a result set with their documents, in insertion order.
pub open spec fn resource_entries(resources: KindMap<Vec<Value>>) -> Seq<(Seq<char>, Seq<Json>)> {
    Seq::new(
        resources.kinds().len(),
        |i: int| (resources.kinds()[i], documents(resources.items()[i]@)),
    )
}

/// The steps that save a result set, and the counts they come to.
pub struct ScopePlan {
    /// The steps to carry out, in order.
    pub actions: Vec<Action>,
    /// The number of documents saved of each kind.
    pub stats: KindMap<usize>,
    /// The documents that were passed over because they could not be
    /// printed.
    pub skipped: Vec<SkippedItem>,
    /// Why saving stopped early, if it did: the caller carries out the
    /// steps and then fails with this, and the counts are void.
    pub failure: Option<SaveError>,
}

impl View for ScopePlan {
    type V = ScopeView;

    open spec fn view(&self) -> ScopeView {
        ScopeView {
            actions: actions_view(self.actions@),
            stats: self.stats.pairs(),
            skipped: skipped_view(self.skipped@),
            failure: failure_view(self.failure),
        }
    }
}

/// Once saving has stopped on a kind, the kinds after it change nothing.
pub proof fn lemma_scope_failure_stays(
    dir: Seq<char>,
    entries: Seq<(Seq<char>, Seq<Json>)>,
    format: Seq<char>,
    n: int,
)
    requires
        0 <= n <= entries.len(),
        kinds_saved(dir, entries.take(n), format).failure is Some,
    ensures
        kinds_saved(dir, entries, format) == kinds_saved(dir, entries.take(n), format),
    decreases entries.len() - n,
{
    if n < entries.len() {
        assert(entries.take(n + 1).drop_last() =~= entries.take(n));
        lemma_scope_failure_stays(dir, entries, format, n + 1);
    } else {
        assert(entries.take(n) =~= entries);
    }
}

/// The steps that save a result set under `dir`.
fn save_scope(dir: String, resources: &KindMap<Vec<Value>>, format: &str) -> (plan: ScopePlan)
    ensures
        plan@ == scope_saved(dir@, resource_entries(*resources), format@),
{
    let ghost entries = resource_entries(*resources);
    let mut actions: Vec<Action> = Vec::new();
    let mut skipped: Vec<SkippedItem> = Vec::new();
    let mut stats: KindMap<usize> = KindMap::new();
    actions.push(Action::CreateDirectory(dir.clone()));
    let ghost start = seq![ActionView::CreateDirectory(dir@)];
    let n = resources.len();
    let mut i: usize = 0;
    proof {
        assert(entries.take(0) =~= Seq::empty());
        assert(actions_view(actions@) =~= start + Seq::<ActionView>::empty());
        assert(skipped_view(skipped@) =~= Seq::empty());
        assert(stats.pairs() =~= Seq::empty());
        assert(stats.kinds() =~= resources.kinds().take(0));
    }
    while i < n
        invariant
            i <= n,
            n == entries.len(),
            n == resources.kinds().len(),
            resources.wf(),
            stats.wf(),
            entries == resource_entries(*resources),
            start == seq![ActionView::CreateDirectory(dir@)],
            kinds_saved(dir@, entries.take(i as int), format@).failure is None,
            stats.kinds() == resources.kinds().take(i as int),
            stats.pairs() == kinds_saved(dir@, entries.take(i as int), format@).stats,
            skipped_view(skipped@) == kinds_saved(dir@, entries.take(i as int), format@).skipped,
            actions_view(actions@) == start + kinds_saved(
                dir@,
                entries.take(i as int),
                format@,
            ).actions,
        decreases n - i,
    {
        proof {
            assert(entries.take(i as int + 1).drop_last() =~= entries.take(i as int));
            assert(entries.take(i as int + 1).last() == entries[i as int]);
        }
        match resources.entry(i) {
            Some((kind, items)) => {
                let ghost upto = kinds_saved(dir@, entries.take(i as int), format@);
                let ghost before = actions_view(actions@);
                let ghost passed = skipped_view(skipped@);
                let SavePlan { actions: mut steps, saved, skipped: mut more, failure } =
                    save_resource_type(dir.as_str(), kind.as_str(), items, format);
                let ghost added = actions_view(steps@);
                let ghost noted = skipped_view(more@);
                actions.append(&mut steps);
                skipped.append(&mut more);
                proof {
                    assert(actions_view(actions@) =~= before + added);
                    assert(skipped_view(skipped@) =~= passed + noted);
                    assert(start + upto.actions + added =~= start + (upto.actions + added));
                }
                match failure {
                    Some(error) => {
                        proof {
                            lemma_scope_failure_stays(dir@, entries, format@, i as int + 1);
                        }
                        return ScopePlan { actions, stats, skipped, failure: Some(error) };
                    },
                    None => {
                        proof {
                            assert(!stats.kinds().contains(kind@)) by {
                                if stats.kinds().contains(kind@) {
                                    let j = stats.kinds().index_of(kind@);
                                    assert(resources.kinds()[j] == resources.kinds()[i as int]);
                                }
                            }
                        }
                        let ghost pairs_before = stats.pairs();
                        stats.insert(kind.clone(), saved);
                        proof {
                            assert(stats.pairs() =~= pairs_before.push((kind@, saved)));
                            assert(stats.kinds() =~= resources.kinds().take(i as int + 1));
                        }
                    },
                }
            },
            None => {},
        }
        i += 1;
    }
    assert(entries.take(n as int) =~= entries);
    ScopePlan { actions, stats, skipped, failure: None }
}

/// The version that the summary names.
pub const VERSION: &'static str = "0.2.0";

/// Where a run writes, and when it started.
pub struct OutputManager {
    base_dir: String,
    stamp: String,
    started: String,
}

/// What the compression mode asks for: the archive to make, if any.
pub open spec fn compression_of(output_dir: Seq<char>, compression: Seq<char>) -> Result<Option<Seq<char>>, SaveErrorView> {
    if compression == "compressed"@ || compression == "both"@ {
        Ok(Some(output_dir + ".tar.gz"@))
    } else if compression == "uncompressed"@ {
        Ok(None)
    } else {
        Err(SaveErrorView::InvalidCompression(compression))
    }
}

/// Saving documents that are always kept in a directory of their own: the
/// directory first, also for no documents, then the documents in it.
pub open spec fn individually_saved(
    output_dir: Seq<char>,
    namespace: Seq<char>,
    plural: Seq<char>,
    docs: Seq<Json>,
    format: Seq<char>,
) -> SaveView {
    let dir = output_dir + "/"@ + namespace + "/"@ + plural;
    let items = items_saved(dir, docs, format);
    SaveView {
        actions: seq![ActionView::CreateDirectory(dir)] + items.actions,
        saved: items.saved,
        skipped: items.skipped,
        failure: items.failure,
    }
}

impl OutputManager {
    /// The directory under which runs are written.
    pub closed spec fn base_dir(&self) -> Seq<char> {
        self.base_dir@
    }

    /// The start of the run as it stands in the directory's name.
    pub closed spec fn stamp(&self) -> Seq<char> {
        self.stamp@
    }

    /// The start of the run as the summary gives it.
    pub closed spec fn started(&self) -> Seq<char> {
        self.started@
    }

    /// An output manager for a run that started `secs` seconds and `nanos`
    /// nanoseconds after the Unix epoch; `None` where that is no instant that
    /// can be printed.
    pub fn new_output_manager(base_dir: String, secs: i64, nanos: u32) -> (manager: Option<Self>)
        ensures
            match manager {
                Some(m) => {
                    &&& m.base_dir() == base_dir@
                    &&& stamp_text(secs, nanos) == Some(m.stamp())
                    &&& rfc3339_text(secs, nanos) == Some(m.started())
                },
                None => stamp_text(secs, nanos) is None || rfc3339_text(secs, nanos) is None,
            },
    {
        match format_stamp(secs, nanos) {
            Some(stamp) => match format_rfc3339(secs, nanos) {
                Some(started) => Some(OutputManager { base_dir, stamp, started }),
                None => None,
            },
            None => None,
        }
    }

    /// The directory of this run: `ketchup-` and the start of the run, under
    /// the base directory.
    pub fn create_output_directory(&self) -> (dir: String)
        ensures
            dir@ == self.base_dir() + "/ketchup-"@ + self.stamp(),
    {
        join3(self.base_dir.as_str(), "/ketchup-", self.stamp.as_str())
    }

    /// The steps that save the cluster-scoped result set under
    /// `output_dir/cluster`, and the count of each kind.
    pub fn save_cluster_resources(&self, output_dir: &str, resources: &KindMap<Vec<Value>>, format: &str) -> (plan: ScopePlan)
        ensures
            plan@ == scope_saved(output_dir@ + "/cluster"@, resource_entries(*resources), format@),
    {
        save_scope(join2(output_dir, "/cluster"), resources, format)
    }

    /// The steps that save the result set of one namespace under
    /// `output_dir/namespace`, and the count of each kind.
    pub fn save_namespace_resources(
        &self,
        output_dir: &str,
        namespace: &str,
        resources: &KindMap<Vec<Value>>,
        format: &str,
    ) -> (plan: ScopePlan)
        ensures
            plan@ == scope_saved(
                output_dir@ + "/"@ + namespace@,
                resource_entries(*resources),
                format@,
            ),
    {
        save_scope(join3(output_dir, "/", namespace), resources, format)
    }

    /// The steps that save documents of one fixed kind of one namespace under
    /// `output_dir/namespace/plural`.
    fn save_individually(output_dir: &str, namespace: &str, plural: &str, items: &Vec<Value>, format: &str) -> (plan: SavePlan)
        ensures
            plan@ == individually_saved(output_dir@, namespace@, plural@, documents(items@), format@),
    {
        let mut dir = join3(output_dir, "/", namespace);
        dir.append("/");
        dir.append(plural);
        let mut actions: Vec<Action> = Vec::new();
        let mut skipped: Vec<SkippedItem> = Vec::new();
        assert(skipped_view(skipped@) =~= Seq::empty());
        actions.push(Action::CreateDirectory(dir.clone()));
        assert(actions_view(actions@) =~= seq![ActionView::CreateDirectory(dir@)]);
        let (saved, failure) = save_items(&mut actions, &mut skipped, dir.as_str(), items, format);
        SavePlan { actions, saved, skipped, failure }
    }

    /// The steps that save the pods of one namespace under
    /// `output_dir/namespace/pods`.
    pub fn save_pods_individually(&self, output_dir: &str, namespace: &str, pods: &Vec<Value>, format: &str) -> (plan: SavePlan)
        ensures
            plan@ == individually_saved(output_dir@, namespace@, "pods"@, documents(pods@), format@),
    {
        Self::save_individually(output_dir, namespace, "pods", pods, format)
    }

    /// The steps that save the services of one namespace under
    /// `output_dir/namespace/services`.
    pub fn save_services_individually(&self, output_dir: &str, namespace: &str, services: &Vec<Value>, format: &str) -> (plan: SavePlan)
        ensures
            plan@ == individually_saved(output_dir@, namespace@, "services"@, documents(services@), format@),
    {
        Self::save_individually(output_dir, namespace, "services", services, format)
    }

    /// The steps that save the deployments of one namespace under
    /// `output_dir/namespace/deployments`.
    pub fn save_deployments_individually(&self, output_dir: &str, namespace: &str, deployments: &Vec<Value>, format: &str) -> (plan: SavePlan)
        ensures
            plan@ == individually_saved(output_dir@, namespace@, "deployments"@, documents(deployments@), format@),
    {
        Self::save_individually(output_dir, namespace, "deployments", deployments, format)
    }

    /// The steps that save the config maps of one namespace under
    /// `output_dir/namespace/configmaps`.
    pub fn save_configmaps_individually(&self, output_dir: &str, namespace: &str, configmaps: &Vec<Value>, format: &str) -> (plan: SavePlan)
        ensures
            plan@ == individually_saved(output_dir@, namespace@, "configmaps"@, documents(configmaps@), format@),
    {
        Self::save_individually(output_dir, namespace, "configmaps", configmaps, format)
    }

    /// The steps that save the secrets of one namespace under
    /// `output_dir/namespace/secrets`.
    pub fn save_secrets_individually(&self, output_dir: &str, namespace: &str, secrets: &Vec<Value>, format: &str) -> (plan: SavePlan)
        ensures
            plan@ == individually_saved(output_dir@, namespace@, "secrets"@, documents(secrets@), format@),
    {
        Self::save_individually(output_dir, namespace, "secrets", secrets, format)
    }

    /// The summary of this run as a document, from the saved counts.
    pub open spec fn summary_of(
        &self,
        cluster_stats: KindMap<usize>,
        namespace_stats: Seq<(String, KindMap<usize>)>,
        opts: OptionsView,
    ) -> Json {
        summary_json(
            self.started(),
            VERSION@,
            opts,
            cluster_stats.pairs(),
            namespace_names(namespace_stats),
            namespace_entries(namespace_stats),
        )
    }

    /// The step that writes the summary of this run, as YAML, to
    /// `collection-summary.yaml` in the run's directory. Fails where the
    /// number of resources does not fit the machine's counter, and where the
    /// summary cannot be printed.
    pub fn create_collection_summary(
        &self,
        output_dir: &str,
        cluster_stats: &KindMap<usize>,
        namespace_stats: &Vec<(String, KindMap<usize>)>,
        opts: &CollectionOptions,
    ) -> (file: Result<Action, SummaryError>)
        ensures
            match file {
                Ok(action) => {
                    &&& grand_total(cluster_stats.pairs(), namespace_entries(namespace_stats@))
                        <= usize::MAX
                    &&& yaml_text(self.summary_of(*cluster_stats, namespace_stats@, opts@)) is Some
                    &&& action@ == (ActionView::WriteFile {
                        path: output_dir@ + "/collection-summary.yaml"@,
                        content: yaml_text(
                            self.summary_of(*cluster_stats, namespace_stats@, opts@),
                        )->0,
                    })
                },
                Err(SummaryError::CountOverflow) => grand_total(
                    cluster_stats.pairs(),
                    namespace_entries(namespace_stats@),
                ) > usize::MAX,
                Err(SummaryError::Encode) => {
                    &&& grand_total(cluster_stats.pairs(), namespace_entries(namespace_stats@))
                        <= usize::MAX
                    &&& yaml_text(self.summary_of(*cluster_stats, namespace_stats@, opts@)) is None
                },
            },
    {
        let doc = match collection_summary_document(
            self.started.as_str(),
            VERSION,
            cluster_stats,
            namespace_stats,
            opts,
        ) {
            Ok(doc) => doc,
            Err(error) => {
                return Err(error);
            },
        };
        match to_yaml_string(&doc) {
            Ok(content) => Ok(
                Action::WriteFile { path: join2(output_dir, "/collection-summary.yaml"), content },
            ),
            Err(_) => Err(SummaryError::Encode),
        }
    }

    /// The step that writes the summary of a run over a fixed set of kinds,
    /// as YAML, to `collection-summary.yaml` in the run's directory. Fails
    /// where the number of resources does not fit the machine's counter, and
    /// where the summary cannot be printed.
    pub fn create_enhanced_summary(
        &self,
        output_dir: &str,
        namespace_stats: &Vec<(String, usize, usize, usize, usize, usize)>,
        secrets_collected: bool,
    ) -> (file: Result<Action, SummaryError>)
        ensures
            match file {
                Ok(action) => {
                    &&& all_columns_sum(namespace_stats@) <= usize::MAX
                    &&& yaml_text(
                        enhanced_summary_json(
                            self.started(),
                            VERSION@,
                            namespace_stats@,
                            secrets_collected,
                        ),
                    ) is Some
                    &&& action@ == (ActionView::WriteFile {
                        path: output_dir@ + "/collection-summary.yaml"@,
                        content: yaml_text(
                            enhanced_summary_json(
                                self.started(),
                                VERSION@,
                                namespace_stats@,
                                secrets_collected,
                            ),
                        )->0,
                    })
                },
                Err(SummaryError::CountOverflow) => all_columns_sum(namespace_stats@) > usize::MAX,
                Err(SummaryError::Encode) => {
                    &&& all_columns_sum(namespace_stats@) <= usize::MAX
                    &&& yaml_text(
                        enhanced_summary_json(
                            self.started(),
                            VERSION@,
                            namespace_stats@,
                            secrets_collected,
                        ),
                    ) is None
                },
            },
    {
        let doc = match enhanced_summary_document(
            self.started.as_str(),
            VERSION,
            namespace_stats,
            secrets_collected,
        ) {
            Ok(doc) => doc,
            Err(error) => {
                return Err(error);
            },
        };
        match to_yaml_string(&doc) {
            Ok(content) => Ok(
                Action::WriteFile { path: join2(output_dir, "/collection-summary.yaml"), content },
            ),
            Err(_) => Err(SummaryError::Encode),
        }
    }

    /// The archive that holds a run's directory: its path with `.tar.gz`.
    pub fn create_archive(&self, output_dir: &str) -> (archive: String)
        ensures
            archive@ == output_dir@ + ".tar.gz"@,
    {
        join2(output_dir, ".tar.gz")
    }

    /// The archive to make for a compression mode: one for `compressed` and
    /// for `both`, none for `uncompressed`, and an error for any other mode.
    pub fn handle_compression(&self, output_dir: &str, compression: &str) -> (archive: Result<Option<String>, SaveError>)
        ensures
            match archive {
                Ok(Some(path)) => compression_of(output_dir@, compression@) matches Ok(Some(wanted))
                    && path@ == wanted,
                Ok(None) => compression_of(output_dir@, compression@) matches Ok(None),
                Err(error) => compression_of(output_dir@, compression@) matches Err(reason)
                    && error@ == reason,
            },
    {
        if *compression == *"compressed" || *compression == *"both" {
            Ok(Some(self.create_archive(output_dir)))
        } else if *compression == *"uncompressed" {
            Ok(None)
        } else {
            Err(SaveError::InvalidCompression(compression.to_owned()))
        }
    }
}

} // verus!
