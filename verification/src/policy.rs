//! Which resource kinds a run collects.

use vstd::prelude::*;
use crate::text::{contains_char, same_ignoring_ascii_case, texts};

verus! {

/// Whether a resource kind exists once for the cluster or once in each
/// namespace.
#[derive(Debug, Clone, Copy, PartialEq, Eq, Structural)]
pub enum Scope {
    Cluster,
    Namespaced,
}

/// One resource type as discovery reported it.
#[derive(Debug, Clone)]
pub struct ResourceTypeDescriptor {
    /// The name of the kind, such as `Pod`.
    pub kind: String,
    /// The group and version under which the type is served, such as `v1`
    /// or `apps/v1`.
    pub api_version: String,
    /// The name under which the server lists the instances, such as `pods`.
    pub plural: String,
    /// Where the instances live.
    pub scope: Scope,
}

/// A resource type as plain values.
pub struct DescriptorView {
    pub kind: Seq<char>,
    pub api_version: Seq<char>,
    pub plural: Seq<char>,
    pub scope: Scope,
}

impl View for ResourceTypeDescriptor {
    type V = DescriptorView;

    open spec fn view(&self) -> DescriptorView {
        DescriptorView {
            kind: self.kind@,
            api_version: self.api_version@,
            plural: self.plural@,
            scope: self.scope,
        }
    }
}

/// The views of a catalog's descriptors, in catalog order.
pub open spec fn catalog_view(catalog: Seq<ResourceTypeDescriptor>) -> Seq<DescriptorView> {
    catalog.map_values(|d: ResourceTypeDescriptor| d@)
}

/// The scope of a discovered resource type.
pub fn classify(descriptor: &ResourceTypeDescriptor) -> (scope: Scope)
    ensures
        scope == descriptor@.scope,
{
    descriptor.scope
}

/// The resource types of a catalog that have the given scope, in catalog
/// order.
pub open spec fn of_scope(catalog: Seq<DescriptorView>, scope: Scope) -> Seq<DescriptorView> {
    catalog.filter(|d: DescriptorView| d.scope == scope)
}

/// Every resource type of a catalog is classified into exactly one scope:
/// the cluster-scoped and the namespaced types together are the catalog, and
/// no type is among both.
pub proof fn lemma_every_descriptor_has_one_scope(catalog: Seq<DescriptorView>)
    ensures
        of_scope(catalog, Scope::Cluster).len() + of_scope(catalog, Scope::Namespaced).len()
            == catalog.len(),
        forall|d: DescriptorView| #[trigger]
            catalog.contains(d) ==> (of_scope(catalog, Scope::Cluster).contains(d) != of_scope(
                catalog,
                Scope::Namespaced,
            ).contains(d)),
        forall|d: DescriptorView| #[trigger]
            catalog.contains(d) ==> of_scope(catalog, d.scope).contains(d),
    decreases catalog.len(),
{
    let in_cluster = |d: DescriptorView| d.scope == Scope::Cluster;
    let in_namespace = |d: DescriptorView| d.scope == Scope::Namespaced;
    if catalog.len() == 0 {
        reveal(Seq::filter);
    } else {
        let rest = catalog.drop_last();
        let last = catalog.last();
        lemma_every_descriptor_has_one_scope(rest);
        assert(catalog =~= rest.push(last));
        rest.lemma_filter_push(last, in_cluster);
        rest.lemma_filter_push(last, in_namespace);
    }
    assert forall|d: DescriptorView| #[trigger] catalog.contains(d) implies (of_scope(
        catalog,
        Scope::Cluster,
    ).contains(d) != of_scope(catalog, Scope::Namespaced).contains(d)) && of_scope(
        catalog,
        d.scope,
    ).contains(d) by {
        let i = catalog.index_of(d);
        if d.scope == Scope::Cluster {
            catalog.lemma_filter_contains(in_cluster, i);
            if of_scope(catalog, Scope::Namespaced).contains(d) {
                let j = of_scope(catalog, Scope::Namespaced).index_of(d);
                catalog.lemma_filter_pred(in_namespace, j);
            }
        } else {
            catalog.lemma_filter_contains(in_namespace, i);
            if of_scope(catalog, Scope::Cluster).contains(d) {
                let j = of_scope(catalog, Scope::Cluster).index_of(d);
                catalog.lemma_filter_pred(in_cluster, j);
            }
        }
    }
}

/// What one run collects beyond the standard kinds, and whether documents are
/// cleaned.
#[derive(Debug, Clone)]
pub struct CollectionOptions {
    pub include_secrets: bool,
    pub include_custom_resources: bool,
    pub include_events: bool,
    pub include_replicasets: bool,
    pub include_endpoints: bool,
    pub include_leases: bool,
    pub specific_crds: Option<Vec<String>>,
    pub sanitize: bool,
}

/// The options of a run as plain values.
pub struct OptionsView {
    pub include_secrets: bool,
    pub include_custom_resources: bool,
    pub include_events: bool,
    pub include_replicasets: bool,
    pub include_endpoints: bool,
    pub include_leases: bool,
    pub specific_crds: Option<Seq<Seq<char>>>,
    pub sanitize: bool,
}

impl View for CollectionOptions {
    type V = OptionsView;

    open spec fn view(&self) -> OptionsView {
        OptionsView {
            include_secrets: self.include_secrets,
            include_custom_resources: self.include_custom_resources,
            include_events: self.include_events,
            include_replicasets: self.include_replicasets,
            include_endpoints: self.include_endpoints,
            include_leases: self.include_leases,
            specific_crds: match self.specific_crds {
                Some(crds) => Some(texts(crds@)),
                None => None,
            },
            sanitize: self.sanitize,
        }
    }
}

/// Kinds that are never collected, whatever the options say.
pub open spec fn is_denied_kind(kind: Seq<char>) -> bool {
    kind == "ComponentStatus"@ || kind == "Binding"@
}

/// A kind counts as a custom resource when its name holds a dot.
pub open spec fn is_custom_kind(kind: Seq<char>) -> bool {
    kind.contains('.')
}

/// Whether `kind` matches an entry of the allow-list, ignoring ASCII case.
pub open spec fn is_listed(kind: Seq<char>, crds: Seq<Seq<char>>) -> bool {
    exists|i: int| 0 <= i < crds.len() && same_ignoring_ascii_case(kind, #[trigger] crds[i])
}

/// The inclusion policy: the first rule that names the kind decides.
pub open spec fn collects(kind: Seq<char>, opts: OptionsView) -> bool {
    if is_denied_kind(kind) {
        false
    } else if kind == "Secret"@ {
        opts.include_secrets
    } else if kind == "Event"@ {
        opts.include_events
    } else if kind == "ReplicaSet"@ {
        opts.include_replicasets
    } else if kind == "Endpoints"@ || kind == "EndpointSlice"@ {
        opts.include_endpoints
    } else if kind == "Lease"@ {
        opts.include_leases
    } else if is_custom_kind(kind) {
        match opts.specific_crds {
            Some(crds) => is_listed(kind, crds),
            None => opts.include_custom_resources,
        }
    } else {
        true
    }
}

/// Whether `kind` matches an entry of `crds`, ignoring ASCII case.
fn matches_any(kind: &str, crds: &Vec<String>) -> (found: bool)
    ensures
        found == is_listed(kind@, texts(crds@)),
{
    let mut i: usize = 0;
    while i < crds.len()
        invariant
            i <= crds.len(),
            forall|j: int| 0 <= j < i ==> !same_ignoring_ascii_case(kind@, #[trigger] texts(crds@)[j]),
        decreases crds.len() - i,
    {
        if kind.eq_ignore_ascii_case(crds[i].as_str()) {
            assert(same_ignoring_ascii_case(kind@, texts(crds@)[i as int]));
            return true;
        }
        i += 1;
    }
    false
}

/// Decides whether resources of `kind` are collected under `opts`.
pub fn should_collect_resource(kind: &str, opts: &CollectionOptions) -> (collect: bool)
    ensures
        collect == collects(kind@, opts@),
{
    if *kind == *"ComponentStatus" || *kind == *"Binding" {
        false
    } else if *kind == *"Secret" {
        opts.include_secrets
    } else if *kind == *"Event" {
        opts.include_events
    } else if *kind == *"ReplicaSet" {
        opts.include_replicasets
    } else if *kind == *"Endpoints" || *kind == *"EndpointSlice" {
        opts.include_endpoints
    } else if *kind == *"Lease" {
        opts.include_leases
    } else if contains_char(kind, '.') {
        match &opts.specific_crds {
            Some(crds) => matches_any(kind, crds),
            None => opts.include_custom_resources,
        }
    } else {
        true
    }
}

/// A kind whose name holds a dot is none of the kinds that the policy names
/// one by one.
pub proof fn lemma_custom_kind_is_not_builtin(kind: Seq<char>)
    requires
        is_custom_kind(kind),
    ensures
        !is_denied_kind(kind),
        kind != "Secret"@,
        kind != "Event"@,
        kind != "ReplicaSet"@,
        kind != "Endpoints"@,
        kind != "EndpointSlice"@,
        kind != "Lease"@,
{
    reveal_strlit("ComponentStatus");
    reveal_strlit("Binding");
    reveal_strlit("Secret");
    reveal_strlit("Event");
    reveal_strlit("ReplicaSet");
    reveal_strlit("Endpoints");
    reveal_strlit("EndpointSlice");
    reveal_strlit("Lease");
}

/// With an allow-list set, a custom kind that the list does not name is left
/// out, whatever the blanket toggle for custom resources says.
pub proof fn lemma_unlisted_custom_kind_is_skipped(kind: Seq<char>, opts: OptionsView)
    requires
        is_custom_kind(kind),
        opts.specific_crds is Some,
        !is_listed(kind, opts.specific_crds->0),
    ensures
        !collects(kind, opts),
{
    lemma_custom_kind_is_not_builtin(kind);
}

/// With an allow-list set, a custom kind is collected exactly when the list
/// names it: the blanket toggle has no say.
pub proof fn lemma_allow_list_overrides_toggle(kind: Seq<char>, opts: OptionsView, other: OptionsView)
    requires
        is_custom_kind(kind),
        opts.specific_crds is Some,
        other.specific_crds == opts.specific_crds,
    ensures
        collects(kind, opts) == is_listed(kind, opts.specific_crds->0),
        collects(kind, other) == collects(kind, opts),
{
    lemma_custom_kind_is_not_builtin(kind);
}

/// A denied kind is left out under every choice of options.
pub proof fn lemma_denied_kind_is_never_collected(kind: Seq<char>, opts: OptionsView)
    requires
        is_denied_kind(kind),
    ensures
        !collects(kind, opts),
{
}

} // verus!
