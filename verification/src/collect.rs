//! The two collection passes: which kinds are fetched, and what is kept of
//! what each fetch gave.

use vstd::prelude::*;
use serde_json::Value;
use crate::json::{documents, json_of, Json};
use crate::kindmap::KindMap;
use crate::policy::{
    catalog_view, collects, should_collect_resource, CollectionOptions, DescriptorView, OptionsView,
    ResourceTypeDescriptor, Scope,
};
use crate::sanitize::{lemma_sanitized_is_idempotent, sanitize_resource, sanitized};

verus! {

/// The documents of one fetch as they are stored: cleaned where the run
/// cleans, else as they came.
pub open spec fn stored(docs: Seq<Json>, sanitize: bool) -> Seq<Json> {
    if sanitize {
        docs.map_values(|d: Json| sanitized(d))
    } else {
        docs
    }
}

/// Prepares the documents of one fetch for storing: each is cleaned where the
/// options ask for it, and none is touched in raw mode.
pub fn collect_dynamic_resource(items: Vec<Value>, opts: &CollectionOptions) -> (kept: Vec<Value>)
    ensures
        documents(kept@) == stored(documents(items@), opts.sanitize),
{
    let mut kept = items;
    if opts.sanitize {
        let mut i: usize = 0;
        while i < kept.len()
            invariant
                i <= kept.len(),
                kept.len() == items.len(),
                forall|j: int| 0 <= j < i ==> json_of(#[trigger] kept@[j]) == sanitized(json_of(items@[j])),
                forall|j: int| i <= j < kept.len() ==> #[trigger] kept@[j] == items@[j],
            decreases kept.len() - i,
        {
            sanitize_resource(&mut kept[i]);
            i += 1;
        }
        assert(documents(kept@) =~= stored(documents(items@), true));
    }
    kept
}

/// Why the instances of one kind could not be fetched.
#[derive(Debug, Clone)]
pub struct FetchError {
    pub kind: String,
    pub cause: String,
}

/// What fetching one kind gave: `None` for a failed fetch, else the documents
/// in the order of their arrival.
pub open spec fn fetched(outcome: Result<Vec<Value>, FetchError>) -> Option<Seq<Json>> {
    match outcome {
        Ok(items) => Some(documents(items@)),
        Err(_) => None,
    }
}

/// What a sequence of fetches gave, fetch by fetch.
pub open spec fn all_fetched(outcomes: Seq<Result<Vec<Value>, FetchError>>) -> Seq<Option<Seq<Json>>> {
    outcomes.map_values(|o: Result<Vec<Value>, FetchError>| fetched(o))
}

/// The documents that a result set holds under each kind.
pub open spec fn resource_docs(resources: KindMap<Vec<Value>>) -> Map<Seq<char>, Seq<Json>> {
    resources@.map_values(|items: Vec<Value>| documents(items@))
}

/// Whether a pass over `scope` fetches the resource type `d`.
pub open spec fn is_selected(d: DescriptorView, scope: Scope, opts: OptionsView) -> bool {
    d.scope == scope && collects(d.kind, opts)
}

/// The resource types that a pass over `scope` fetches, in catalog order.
pub open spec fn planned(catalog: Seq<DescriptorView>, scope: Scope, opts: OptionsView) -> Seq<DescriptorView> {
    catalog.filter(|d: DescriptorView| is_selected(d, scope, opts))
}

/// The kind names of a sequence of resource types.
pub open spec fn kinds_of(descriptors: Seq<DescriptorView>) -> Seq<Seq<char>> {
    descriptors.map_values(|d: DescriptorView| d.kind)
}

/// The result set after one more fetch: a fetch that gave documents puts them
/// under its kind, in place of what stood there; a failed fetch and one that
/// gave nothing leave the set as it was.
pub open spec fn recorded(
    resources: Map<Seq<char>, Seq<Json>>,
    kind: Seq<char>,
    outcome: Option<Seq<Json>>,
    sanitize: bool,
) -> Map<Seq<char>, Seq<Json>> {
    match outcome {
        Some(docs) => if docs.len() > 0 {
            resources.insert(kind, stored(docs, sanitize))
        } else {
            resources
        },
        None => resources,
    }
}

/// The kinds of the result set after one more fetch, in the order of their
/// first entry: a kind that gets its first entry stands last.
pub open spec fn recorded_kinds(
    kinds: Seq<Seq<char>>,
    kind: Seq<char>,
    outcome: Option<Seq<Json>>,
) -> Seq<Seq<char>> {
    match outcome {
        Some(docs) => if docs.len() > 0 && !kinds.contains(kind) {
            kinds.push(kind)
        } else {
            kinds
        },
        None => kinds,
    }
}

/// What the fetch at index `i` gave; a fetch without an outcome has failed.
pub open spec fn outcome_at(outcomes: Seq<Option<Seq<Json>>>, i: int) -> Option<Seq<Json>> {
    if 0 <= i < outcomes.len() {
        outcomes[i]
    } else {
        None
    }
}

/// The result set of a pass that fetched `kinds` in this order and got
/// `outcomes`, the outcome at each index belonging to the kind at that index.
pub open spec fn gathered(
    kinds: Seq<Seq<char>>,
    outcomes: Seq<Option<Seq<Json>>>,
    sanitize: bool,
) -> Map<Seq<char>, Seq<Json>>
    decreases kinds.len(),
{
    if kinds.len() == 0 {
        Map::empty()
    } else {
        recorded(
            gathered(kinds.drop_last(), outcomes, sanitize),
            kinds.last(),
            outcome_at(outcomes, kinds.len() - 1),
            sanitize,
        )
    }
}

/// The kinds that have an entry after such a pass, in the order of their
/// first entry.
pub open spec fn gathered_kinds(kinds: Seq<Seq<char>>, outcomes: Seq<Option<Seq<Json>>>) -> Seq<Seq<char>>
    decreases kinds.len(),
{
    if kinds.len() == 0 {
        Seq::empty()
    } else {
        recorded_kinds(
            gathered_kinds(kinds.drop_last(), outcomes),
            kinds.last(),
            outcome_at(outcomes, kinds.len() - 1),
        )
    }
}

/// What became of one fetch.
#[derive(Debug, Clone, Copy, PartialEq, Eq, Structural)]
pub enum FetchReport {
    /// So many documents were stored under the kind.
    Collected(usize),
    /// The kind has no instances, and the result set has no entry for it.
    Empty,
    /// The fetch failed, and the pass goes on without the kind.
    Failed,
}

/// The resource types that a pass over `scope` fetches: those of that scope
/// that the policy admits, in catalog order.
pub fn fetch_plan(catalog: &Vec<ResourceTypeDescriptor>, scope: Scope, opts: &CollectionOptions) -> (plan: Vec<ResourceTypeDescriptor>)
    ensures
        catalog_view(plan@) == planned(catalog_view(catalog@), scope, opts@),
{
    let mut plan: Vec<ResourceTypeDescriptor> = Vec::new();
    let ghost all = catalog_view(catalog@);
    let ghost pred = |d: DescriptorView| is_selected(d, scope, opts@);
    proof {
        assert(all.take(0) =~= Seq::empty());
        assert(all.take(0).filter(pred) =~= Seq::empty()) by {
            reveal(Seq::filter);
        }
    }
    let mut i: usize = 0;
    while i < catalog.len()
        invariant
            i <= catalog.len(),
            all == catalog_view(catalog@),
            pred == |d: DescriptorView| is_selected(d, scope, opts@),
            catalog_view(plan@) == all.take(i as int).filter(pred),
        decreases catalog.len() - i,
    {
        let descriptor = &catalog[i];
        proof {
            assert(all.take(i as int + 1) =~= all.take(i as int).push(all[i as int]));
            all.take(i as int).lemma_filter_push(all[i as int], pred);
        }
        if descriptor.scope == scope && should_collect_resource(descriptor.kind.as_str(), opts) {
            let ghost before = plan@;
            plan.push(
                ResourceTypeDescriptor {
                    kind: descriptor.kind.clone(),
                    api_version: descriptor.api_version.clone(),
                    plural: descriptor.plural.clone(),
                    scope: descriptor.scope,
                },
            );
            assert(catalog_view(plan@) =~= catalog_view(before).push(all[i as int]));
        }
        i += 1;
    }
    assert(all.take(catalog.len() as int) =~= all);
    plan
}

/// Takes in what fetching `kind` gave. Documents are stored under the kind,
/// cleaned where the options ask for it, in place of an earlier entry of that
/// kind. A fetch that gave nothing leaves no entry, and a failed fetch changes
/// nothing: the pass goes on.
pub fn record_fetch(
    resources: &mut KindMap<Vec<Value>>,
    kind: &str,
    outcome: Result<Vec<Value>, FetchError>,
    opts: &CollectionOptions,
) -> (report: FetchReport)
    ensures
        resource_docs(*final(resources)) == recorded(
            resource_docs(*old(resources)),
            kind@,
            fetched(outcome),
            opts.sanitize,
        ),
        final(resources).kinds() == recorded_kinds(old(resources).kinds(), kind@, fetched(outcome)),
        report == match fetched(outcome) {
            Some(docs) => if docs.len() > 0 {
                FetchReport::Collected(docs.len() as usize)
            } else {
                FetchReport::Empty
            },
            None => FetchReport::Failed,
        },
{
    match outcome {
        Ok(items) => {
            if items.len() > 0 {
                let count = items.len();
                let kept = collect_dynamic_resource(items, opts);
                resources.insert(kind.to_owned(), kept);
                assert(resource_docs(*resources) =~= resource_docs(*old(resources)).insert(
                    kind@,
                    stored(documents(items@), opts.sanitize),
                ));
                FetchReport::Collected(count)
            } else {
                FetchReport::Empty
            }
        },
        Err(_) => FetchReport::Failed,
    }
}

/// Gathering over one more kind is one more recording.
proof fn lemma_gathered_push(
    kinds: Seq<Seq<char>>,
    kind: Seq<char>,
    outcomes: Seq<Option<Seq<Json>>>,
    sanitize: bool,
)
    ensures
        gathered(kinds.push(kind), outcomes, sanitize) == recorded(
            gathered(kinds, outcomes, sanitize),
            kind,
            outcome_at(outcomes, kinds.len() as int),
            sanitize,
        ),
        gathered_kinds(kinds.push(kind), outcomes) == recorded_kinds(
            gathered_kinds(kinds, outcomes),
            kind,
            outcome_at(outcomes, kinds.len() as int),
        ),
{
    assert(kinds.push(kind).drop_last() =~= kinds);
}

/// One pass over the catalog, given what each fetch of the pass gave.
fn collect_scope(
    catalog: &Vec<ResourceTypeDescriptor>,
    outcomes: Vec<Result<Vec<Value>, FetchError>>,
    scope: Scope,
    opts: &CollectionOptions,
) -> (resources: KindMap<Vec<Value>>)
    ensures
        resource_docs(resources) == gathered(
            kinds_of(planned(catalog_view(catalog@), scope, opts@)),
            all_fetched(outcomes@),
            opts.sanitize,
        ),
        resources.kinds() == gathered_kinds(
            kinds_of(planned(catalog_view(catalog@), scope, opts@)),
            all_fetched(outcomes@),
        ),
{
    let plan = fetch_plan(catalog, scope, opts);
    let mut outcomes = outcomes;
    let mut resources: KindMap<Vec<Value>> = KindMap::new();
    let ghost kinds = kinds_of(catalog_view(plan@));
    let ghost given = all_fetched(outcomes@);
    assert(kinds.take(0) =~= Seq::empty());
    assert(resource_docs(resources) =~= Map::empty());
    let mut i: usize = 0;
    while i < plan.len()
        invariant
            i <= plan.len(),
            kinds == kinds_of(catalog_view(plan@)),
            kinds.len() == plan.len(),
            outcomes.len() == given.len(),
            forall|j: int| i <= j < outcomes.len() ==> fetched(#[trigger] outcomes@[j]) == given[j],
            resource_docs(resources) == gathered(kinds.take(i as int), given, opts.sanitize),
            resources.kinds() == gathered_kinds(kinds.take(i as int), given),
        decreases plan.len() - i,
    {
        let mut outcome: Result<Vec<Value>, FetchError> = Ok(Vec::new());
        if i < outcomes.len() {
            std::mem::swap(&mut outcomes[i], &mut outcome);
        } else {
            outcome = Err(FetchError { kind: plan[i].kind.clone(), cause: String::new() });
        }
        proof {
            assert(fetched(outcome) == outcome_at(given, i as int));
            assert(kinds.take(i as int + 1) =~= kinds.take(i as int).push(kinds[i as int]));
            lemma_gathered_push(kinds.take(i as int), kinds[i as int], given, opts.sanitize);
        }
        record_fetch(&mut resources, plan[i].kind.as_str(), outcome, opts);
        i += 1;
    }
    assert(kinds.take(plan.len() as int) =~= kinds);
    resources
}

/// The cluster-scoped pass. `outcomes` holds what each fetch of the pass gave,
/// in the order of `fetch_plan`; a fetch without an outcome counts as failed.
/// Each kind that gave documents has an entry, the others have none.
pub fn collect_cluster_resources(
    catalog: &Vec<ResourceTypeDescriptor>,
    outcomes: Vec<Result<Vec<Value>, FetchError>>,
    opts: &CollectionOptions,
) -> (resources: KindMap<Vec<Value>>)
    ensures
        resource_docs(resources) == gathered(
            kinds_of(planned(catalog_view(catalog@), Scope::Cluster, opts@)),
            all_fetched(outcomes@),
            opts.sanitize,
        ),
        resources.kinds() == gathered_kinds(
            kinds_of(planned(catalog_view(catalog@), Scope::Cluster, opts@)),
            all_fetched(outcomes@),
        ),
{
    collect_scope(catalog, outcomes, Scope::Cluster, opts)
}

/// The pass over one namespace. `outcomes` holds what each fetch of the pass
/// gave in that namespace, in the order of `fetch_plan`; a fetch without an
/// outcome counts as failed. Each kind that gave documents has an entry, the
/// others have none.
pub fn collect_namespace_resources(
    catalog: &Vec<ResourceTypeDescriptor>,
    outcomes: Vec<Result<Vec<Value>, FetchError>>,
    opts: &CollectionOptions,
) -> (resources: KindMap<Vec<Value>>)
    ensures
        resource_docs(resources) == gathered(
            kinds_of(planned(catalog_view(catalog@), Scope::Namespaced, opts@)),
            all_fetched(outcomes@),
            opts.sanitize,
        ),
        resources.kinds() == gathered_kinds(
            kinds_of(planned(catalog_view(catalog@), Scope::Namespaced, opts@)),
            all_fetched(outcomes@),
        ),
{
    collect_scope(catalog, outcomes, Scope::Namespaced, opts)
}

/// Whether the fetch at index `i` was for `kind` and gave documents.
pub open spec fn gave_documents(
    kinds: Seq<Seq<char>>,
    outcomes: Seq<Option<Seq<Json>>>,
    i: int,
    kind: Seq<char>,
) -> bool {
    &&& 0 <= i < kinds.len()
    &&& kinds[i] == kind
    &&& outcome_at(outcomes, i) is Some
    &&& outcome_at(outcomes, i)->0.len() > 0
}

/// A kind has an entry exactly when a fetch of it gave documents, and the
/// entry holds what the last such fetch gave, as it is stored. So no entry is
/// empty, and a kind whose fetches all failed has none.
pub proof fn lemma_gathered_entry(
    kinds: Seq<Seq<char>>,
    outcomes: Seq<Option<Seq<Json>>>,
    sanitize: bool,
    kind: Seq<char>,
)
    ensures
        gathered(kinds, outcomes, sanitize).contains_key(kind) <==> exists|i: int|
            gave_documents(kinds, outcomes, i, kind),
        gathered(kinds, outcomes, sanitize).contains_key(kind) ==> exists|i: int|
            {
                &&& #[trigger] gave_documents(kinds, outcomes, i, kind)
                &&& gathered(kinds, outcomes, sanitize)[kind] == stored(
                    outcome_at(outcomes, i)->0,
                    sanitize,
                )
                &&& forall|j: int| i < j ==> !gave_documents(kinds, outcomes, j, kind)
            },
        gathered(kinds, outcomes, sanitize).contains_key(kind) ==> gathered(
            kinds,
            outcomes,
            sanitize,
        )[kind].len() > 0,
    decreases kinds.len(),
{
    if kinds.len() > 0 {
        let n = kinds.len() - 1;
        let rest = kinds.drop_last();
        lemma_gathered_entry(rest, outcomes, sanitize, kind);
        assert forall|i: int| gave_documents(rest, outcomes, i, kind) implies gave_documents(
            kinds,
            outcomes,
            i,
            kind,
        ) by {}
        assert forall|i: int| i < n && gave_documents(kinds, outcomes, i, kind)
            implies gave_documents(rest, outcomes, i, kind) by {}
        if gave_documents(kinds, outcomes, n, kind) {
        } else if gathered(rest, outcomes, sanitize).contains_key(kind) {
            let i = choose|i: int|
                {
                    &&& #[trigger] gave_documents(rest, outcomes, i, kind)
                    &&& gathered(rest, outcomes, sanitize)[kind] == stored(
                        outcome_at(outcomes, i)->0,
                        sanitize,
                    )
                    &&& forall|j: int| i < j ==> !gave_documents(rest, outcomes, j, kind)
                };
            assert(gave_documents(kinds, outcomes, i, kind));
            assert forall|j: int| i < j implies !gave_documents(kinds, outcomes, j, kind) by {
                if j < n {
                    assert(!gave_documents(rest, outcomes, j, kind));
                }
            }
        } else {
            assert forall|i: int| !gave_documents(kinds, outcomes, i, kind) by {
                if i < n {
                    assert(!gave_documents(rest, outcomes, i, kind));
                }
            }
        }
    }
}

/// Every kind in the result of a pass belongs to a resource type of the
/// catalog that has the scope of the pass and that the policy admits.
pub proof fn lemma_collected_kinds_pass_policy(
    catalog: Seq<DescriptorView>,
    outcomes: Seq<Option<Seq<Json>>>,
    scope: Scope,
    opts: OptionsView,
    kind: Seq<char>,
)
    requires
        gathered(kinds_of(planned(catalog, scope, opts)), outcomes, opts.sanitize).contains_key(
            kind,
        ),
    ensures
        collects(kind, opts),
        exists|d: DescriptorView| #[trigger] catalog.contains(d) && d.kind == kind && d.scope == scope,
{
    let plan = planned(catalog, scope, opts);
    let kinds = kinds_of(plan);
    lemma_gathered_entry(kinds, outcomes, opts.sanitize, kind);
    let i = choose|i: int| gave_documents(kinds, outcomes, i, kind);
    let pred = |d: DescriptorView| is_selected(d, scope, opts);
    catalog.lemma_filter_pred(pred, i);
    assert(plan.contains(plan[i]));
    catalog.lemma_filter_contains_rev(pred, plan[i]);
}

/// A failed fetch touches no other kind: two passes whose fetches gave the
/// same but for the one at index `i` agree on every kind other than the kind
/// of that fetch.
pub proof fn lemma_failed_fetch_is_isolated(
    kinds: Seq<Seq<char>>,
    first: Seq<Option<Seq<Json>>>,
    second: Seq<Option<Seq<Json>>>,
    sanitize: bool,
    i: int,
    kind: Seq<char>,
)
    requires
        0 <= i < kinds.len(),
        kind != kinds[i],
        forall|j: int| j != i ==> outcome_at(first, j) == outcome_at(second, j),
    ensures
        gathered(kinds, first, sanitize).contains_key(kind) == gathered(
            kinds,
            second,
            sanitize,
        ).contains_key(kind),
        gathered(kinds, first, sanitize).contains_key(kind) ==> gathered(kinds, first, sanitize)[kind]
            == gathered(kinds, second, sanitize)[kind],
    decreases kinds.len(),
{
    let n = kinds.len() - 1;
    let rest = kinds.drop_last();
    if i < n {
        lemma_failed_fetch_is_isolated(rest, first, second, sanitize, i, kind);
    } else {
        lemma_same_outcomes_gather_alike(rest, first, second, sanitize);
    }
}

/// Passes whose fetches gave the same have the same result.
proof fn lemma_same_outcomes_gather_alike(
    kinds: Seq<Seq<char>>,
    first: Seq<Option<Seq<Json>>>,
    second: Seq<Option<Seq<Json>>>,
    sanitize: bool,
)
    requires
        forall|j: int| 0 <= j < kinds.len() ==> outcome_at(first, j) == outcome_at(second, j),
    ensures
        gathered(kinds, first, sanitize) == gathered(kinds, second, sanitize),
    decreases kinds.len(),
{
    if kinds.len() > 0 {
        lemma_same_outcomes_gather_alike(kinds.drop_last(), first, second, sanitize);
    }
}

/// A kind whose every fetch failed is absent from the result.
pub proof fn lemma_failed_kind_is_absent(
    kinds: Seq<Seq<char>>,
    outcomes: Seq<Option<Seq<Json>>>,
    sanitize: bool,
    kind: Seq<char>,
)
    requires
        forall|i: int| 0 <= i < kinds.len() && kinds[i] == kind ==> outcome_at(outcomes, i) is None,
    ensures
        !gathered(kinds, outcomes, sanitize).contains_key(kind),
{
    lemma_gathered_entry(kinds, outcomes, sanitize, kind);
}

/// Where the run cleans, every stored document is clean: cleaning it again
/// would change nothing.
pub proof fn lemma_gathered_is_clean(
    kinds: Seq<Seq<char>>,
    outcomes: Seq<Option<Seq<Json>>>,
    kind: Seq<char>,
    j: int,
)
    requires
        gathered(kinds, outcomes, true).contains_key(kind),
        0 <= j < gathered(kinds, outcomes, true)[kind].len(),
    ensures
        sanitized(gathered(kinds, outcomes, true)[kind][j]) == gathered(kinds, outcomes, true)[kind][j],
{
    lemma_gathered_entry(kinds, outcomes, true, kind);
    let i = choose|i: int|
        {
            &&& #[trigger] gave_documents(kinds, outcomes, i, kind)
            &&& gathered(kinds, outcomes, true)[kind] == stored(outcome_at(outcomes, i)->0, true)
            &&& forall|j: int| i < j ==> !gave_documents(kinds, outcomes, j, kind)
        };
    lemma_sanitized_is_idempotent(outcome_at(outcomes, i)->0[j]);
}

/// In raw mode every stored document is the document that was fetched.
pub proof fn lemma_raw_mode_changes_nothing(docs: Seq<Json>)
    ensures
        stored(docs, false) == docs,
{
}

} // verus!
