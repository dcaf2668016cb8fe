//! Folding the counts of a run into its totals.

use vstd::prelude::*;
use serde_json::Value;
use crate::kindmap::{lemma_paired_at, KindMap};

verus! {

/// Why a summary cannot be made.
#[derive(Debug, Clone, Copy, PartialEq, Eq, Structural)]
pub enum SummaryError {
    /// The number of resources does not fit the machine's counter.
    CountOverflow,
    /// The summary document could not be printed.
    Encode,
}

/// The sum of the counts of `entries`.
pub open spec fn count_sum(entries: Seq<(Seq<char>, usize)>) -> int
    decreases entries.len(),
{
    if entries.len() == 0 {
        0
    } else {
        count_sum(entries.drop_last()) + entries.last().1
    }
}

/// The sum of the counts that `entries` holds for `kind`.
pub open spec fn kind_sum(entries: Seq<(Seq<char>, usize)>, kind: Seq<char>) -> int
    decreases entries.len(),
{
    if entries.len() == 0 {
        0
    } else if entries.last().0 == kind {
        kind_sum(entries.drop_last(), kind) + entries.last().1
    } else {
        kind_sum(entries.drop_last(), kind)
    }
}

/// Whether `entries` holds a count for `kind`.
pub open spec fn holds_kind(entries: Seq<(Seq<char>, usize)>, kind: Seq<char>) -> bool
    decreases entries.len(),
{
    entries.len() > 0 && (entries.last().0 == kind || holds_kind(entries.drop_last(), kind))
}

/// The sum of all counts of all `groups`.
pub open spec fn all_count_sum(groups: Seq<Seq<(Seq<char>, usize)>>) -> int
    decreases groups.len(),
{
    if groups.len() == 0 {
        0
    } else {
        all_count_sum(groups.drop_last()) + count_sum(groups.last())
    }
}

/// The sum of the counts that the `groups` hold for `kind`.
pub open spec fn all_kind_sum(groups: Seq<Seq<(Seq<char>, usize)>>, kind: Seq<char>) -> int
    decreases groups.len(),
{
    if groups.len() == 0 {
        0
    } else {
        all_kind_sum(groups.drop_last(), kind) + kind_sum(groups.last(), kind)
    }
}

/// Whether one of the `groups` holds a count for `kind`.
pub open spec fn any_holds_kind(groups: Seq<Seq<(Seq<char>, usize)>>, kind: Seq<char>) -> bool
    decreases groups.len(),
{
    groups.len() > 0 && (holds_kind(groups.last(), kind) || any_holds_kind(
        groups.drop_last(),
        kind,
    ))
}

/// The kinds of `kinds` and then those of `entries` that were not yet
/// among them, each once, in the order of their first appearance.
pub open spec fn merged_kinds(kinds: Seq<Seq<char>>, entries: Seq<(Seq<char>, usize)>) -> Seq<Seq<char>>
    decreases entries.len(),
{
    if entries.len() == 0 {
        kinds
    } else {
        let before = merged_kinds(kinds, entries.drop_last());
        if before.contains(entries.last().0) {
            before
        } else {
            before.push(entries.last().0)
        }
    }
}

/// The kinds of all `groups`, each once, in the order of their first
/// appearance.
pub open spec fn all_merged_kinds(groups: Seq<Seq<(Seq<char>, usize)>>) -> Seq<Seq<char>>
    decreases groups.len(),
{
    if groups.len() == 0 {
        Seq::empty()
    } else {
        merged_kinds(all_merged_kinds(groups.drop_last()), groups.last())
    }
}

/// The count under `kind`, or zero where the map has none.
pub open spec fn count_of(counts: Map<Seq<char>, usize>, kind: Seq<char>) -> int {
    if counts.contains_key(kind) {
        counts[kind] as int
    } else {
        0
    }
}

/// The counts of each namespace, namespace by namespace.
pub open spec fn namespace_entries(stats: Seq<(String, KindMap<usize>)>) -> Seq<Seq<(Seq<char>, usize)>> {
    stats.map_values(|s: (String, KindMap<usize>)| s.1.pairs())
}

/// No sum of counts is negative.
pub proof fn lemma_sums_are_not_negative(entries: Seq<(Seq<char>, usize)>, kind: Seq<char>)
    ensures
        0 <= kind_sum(entries, kind),
        0 <= count_sum(entries),
    decreases entries.len(),
{
    if entries.len() > 0 {
        lemma_sums_are_not_negative(entries.drop_last(), kind);
    }
}

/// The counts of a prefix sum up to no more than those of the whole.
pub proof fn lemma_count_sum_prefix(entries: Seq<(Seq<char>, usize)>, n: int)
    requires
        0 <= n <= entries.len(),
    ensures
        count_sum(entries.take(n)) <= count_sum(entries),
    decreases entries.len() - n,
{
    if n < entries.len() {
        lemma_count_sum_prefix(entries, n + 1);
        assert(entries.take(n + 1).drop_last() =~= entries.take(n));
    } else {
        assert(entries.take(n) =~= entries);
    }
}

/// The counts of one kind sum up to no more than all counts.
pub proof fn lemma_kind_sum_bound(entries: Seq<(Seq<char>, usize)>, kind: Seq<char>)
    ensures
        kind_sum(entries, kind) <= count_sum(entries),
    decreases entries.len(),
{
    if entries.len() > 0 {
        lemma_kind_sum_bound(entries.drop_last(), kind);
    }
}

/// The counts of the first groups sum up to no more than those of all.
pub proof fn lemma_all_count_sum_prefix(groups: Seq<Seq<(Seq<char>, usize)>>, n: int)
    requires
        0 <= n <= groups.len(),
    ensures
        all_count_sum(groups.take(n)) <= all_count_sum(groups),
    decreases groups.len() - n,
{
    if n < groups.len() {
        lemma_all_count_sum_prefix(groups, n + 1);
        lemma_sums_are_not_negative(groups[n], Seq::empty());
        assert(groups.take(n + 1).drop_last() =~= groups.take(n));
    } else {
        assert(groups.take(n) =~= groups);
    }
}

/// Over all groups too, the counts of one kind sum up to no more than all
/// counts.
pub proof fn lemma_all_kind_sum_bound(groups: Seq<Seq<(Seq<char>, usize)>>, kind: Seq<char>)
    ensures
        all_kind_sum(groups, kind) <= all_count_sum(groups),
    decreases groups.len(),
{
    if groups.len() > 0 {
        lemma_all_kind_sum_bound(groups.drop_last(), kind);
        lemma_kind_sum_bound(groups.last(), kind);
    }
}

/// The counts of a run, summed up.
pub struct CollectionTotals {
    /// The number of namespaces that were collected from.
    pub total_namespaces: usize,
    /// The number of cluster-scoped resources.
    pub total_cluster_resources: usize,
    /// The number of namespaced resources, over all namespaces.
    pub total_namespaced_resources: usize,
    /// The number of all resources.
    pub total_resources: usize,
    /// The number of resources of each kind, over the cluster and all
    /// namespaces.
    pub resource_type_counts: KindMap<usize>,
    /// The number of resources of each namespace, in the order of the
    /// namespaces.
    pub namespace_totals: Vec<usize>,
}

/// The number of all resources that the counts stand for.
pub open spec fn grand_total(
    cluster: Seq<(Seq<char>, usize)>,
    namespaces: Seq<Seq<(Seq<char>, usize)>>,
) -> int {
    count_sum(cluster) + all_count_sum(namespaces)
}

/// Whether `totals` sums up the counts of the cluster and of each namespace.
pub open spec fn summarizes(
    totals: CollectionTotals,
    cluster: Seq<(Seq<char>, usize)>,
    namespaces: Seq<Seq<(Seq<char>, usize)>>,
) -> bool {
    &&& totals.total_namespaces == namespaces.len()
    &&& totals.total_cluster_resources == count_sum(cluster)
    &&& totals.total_namespaced_resources == all_count_sum(namespaces)
    &&& totals.total_resources == grand_total(cluster, namespaces)
    &&& totals.namespace_totals.len() == namespaces.len()
    &&& forall|i: int|
        0 <= i < namespaces.len() ==> #[trigger] totals.namespace_totals[i] == count_sum(
            namespaces[i],
        )
    &&& totals.resource_type_counts.kinds() == merged_kinds(
        all_merged_kinds(namespaces),
        cluster,
    )
    &&& forall|kind: Seq<char>| #[trigger]
        totals.resource_type_counts@.contains_key(kind) <==> holds_kind(cluster, kind)
            || any_holds_kind(namespaces, kind)
    &&& forall|kind: Seq<char>| #[trigger]
        count_of(totals.resource_type_counts@, kind) == kind_sum(cluster, kind) + all_kind_sum(
            namespaces,
            kind,
        )
}

/// The number of documents that a result set holds of each kind, in the
/// order of its kinds.
pub open spec fn instance_counts(resources: KindMap<Vec<Value>>) -> Seq<(Seq<char>, usize)> {
    Seq::new(
        resources.kinds().len(),
        |i: int| (resources.kinds()[i], resources.items()[i].len()),
    )
}

/// The number of documents of each kind in each namespace's result set.
pub open spec fn all_instance_counts(namespaces: Seq<(String, KindMap<Vec<Value>>)>) -> Seq<Seq<(Seq<char>, usize)>> {
    namespaces.map_values(|n: (String, KindMap<Vec<Value>>)| instance_counts(n.1))
}

/// Counts the documents of each kind in a result set.
pub fn count_instances(resources: &KindMap<Vec<Value>>) -> (counts: KindMap<usize>)
    ensures
        counts.pairs() == instance_counts(*resources),
{
    let ghost wanted = instance_counts(*resources);
    let mut counts: KindMap<usize> = KindMap::new();
    let n = resources.len();
    let mut i: usize = 0;
    proof {
        assert(counts.pairs() =~= wanted.take(0));
        assert(counts.kinds() =~= resources.kinds().take(0));
    }
    while i < n
        invariant
            i <= n,
            n == resources.kinds().len(),
            resources.wf(),
            counts.wf(),
            wanted == instance_counts(*resources),
            counts.kinds() == resources.kinds().take(i as int),
            counts.pairs() == wanted.take(i as int),
        decreases n - i,
    {
        match resources.entry(i) {
            Some((kind, items)) => {
                proof {
                    assert(!counts.kinds().contains(kind@)) by {
                        if counts.kinds().contains(kind@) {
                            let j = counts.kinds().index_of(kind@);
                            assert(resources.kinds()[j] == resources.kinds()[i as int]);
                        }
                    }
                }
                let ghost before = counts.pairs();
                counts.insert(kind.clone(), items.len());
                proof {
                    assert(counts.pairs() =~= before.push((kind@, items.len())));
                    assert(counts.kinds() =~= resources.kinds().take(i as int + 1));
                    assert(wanted.take(i as int + 1) =~= wanted.take(i as int).push(
                        wanted[i as int],
                    ));
                }
            },
            None => {},
        }
        i += 1;
    }
    assert(wanted.take(n as int) =~= wanted);
    counts
}

/// The sum of the counts of one map, or `None` where it does not fit.
fn sum_counts(counts: &KindMap<usize>) -> (sum: Option<usize>)
    ensures
        match sum {
            Some(total) => total == count_sum(counts.pairs()),
            None => count_sum(counts.pairs()) > usize::MAX,
        },
{
    let ghost entries = counts.pairs();
    let mut total: usize = 0;
    let mut i: usize = 0;
    let n = counts.len();
    assert(entries.take(0) =~= Seq::empty());
    while i < n
        invariant
            i <= n,
            n == entries.len(),
            entries == counts.pairs(),
            counts.wf(),
            total == count_sum(entries.take(i as int)),
        decreases n - i,
    {
        proof {
            assert(entries.take(i as int + 1).drop_last() =~= entries.take(i as int));
            lemma_count_sum_prefix(entries, i as int + 1);
        }
        match counts.entry(i) {
            Some((_, count)) => {
                match total.checked_add(*count) {
                    Some(next) => {
                        total = next;
                    },
                    None => {
                        return None;
                    },
                }
            },
            None => {},
        }
        i += 1;
    }
    assert(entries.take(n as int) =~= entries);
    Some(total)
}

/// The totals of each namespace and their sum, or `None` where the sum does
/// not fit.
fn sum_namespaces(stats: &Vec<(String, KindMap<usize>)>) -> (sums: Option<(usize, Vec<usize>)>)
    ensures
        match sums {
            Some((total, each)) => {
                &&& total == all_count_sum(namespace_entries(stats@))
                &&& each.len() == stats.len()
                &&& forall|i: int|
                    0 <= i < each.len() ==> #[trigger] each[i] == count_sum(
                        namespace_entries(stats@)[i],
                    )
            },
            None => all_count_sum(namespace_entries(stats@)) > usize::MAX,
        },
{
    let ghost groups = namespace_entries(stats@);
    let mut total: usize = 0;
    let mut each: Vec<usize> = Vec::new();
    let mut i: usize = 0;
    assert(groups.take(0) =~= Seq::empty());
    while i < stats.len()
        invariant
            i <= stats.len(),
            groups == namespace_entries(stats@),
            total == all_count_sum(groups.take(i as int)),
            each.len() == i,
            forall|j: int| 0 <= j < i ==> #[trigger] each[j] == count_sum(groups[j]),
        decreases stats.len() - i,
    {
        proof {
            assert(groups.take(i as int + 1).drop_last() =~= groups.take(i as int));
            lemma_all_count_sum_prefix(groups, i as int + 1);
            lemma_sums_are_not_negative(groups[i as int], Seq::empty());
            if i > 0 {
                lemma_sums_are_not_negative(groups[i as int - 1], Seq::empty());
            }
            lemma_all_sums_are_not_negative(groups.take(i as int), Seq::empty());
        }
        match sum_counts(&stats[i].1) {
            Some(one) => {
                match total.checked_add(one) {
                    Some(next) => {
                        total = next;
                        each.push(one);
                    },
                    None => {
                        return None;
                    },
                }
            },
            None => {
                return None;
            },
        }
        i += 1;
    }
    assert(groups.take(stats.len() as int) =~= groups);
    Some((total, each))
}

/// Adds the counts of `counts` to those of `totals`, kind by kind.
fn tally(totals: &mut KindMap<usize>, counts: &KindMap<usize>)
    requires
        forall|kind: Seq<char>| #[trigger]
            count_of(old(totals)@, kind) + kind_sum(counts.pairs(), kind) <= usize::MAX,
    ensures
        forall|kind: Seq<char>| #[trigger]
            count_of(final(totals)@, kind) == count_of(old(totals)@, kind) + kind_sum(
                counts.pairs(),
                kind,
            ),
        forall|kind: Seq<char>| #[trigger]
            final(totals)@.contains_key(kind) <==> old(totals)@.contains_key(kind) || holds_kind(
                counts.pairs(),
                kind,
            ),
        final(totals).kinds() == merged_kinds(old(totals).kinds(), counts.pairs()),
{
    let ghost entries = counts.pairs();
    let n = counts.len();
    let mut i: usize = 0;
    assert(entries.take(0) =~= Seq::empty());
    while i < n
        invariant
            i <= n,
            n == entries.len(),
            entries == counts.pairs(),
            counts.wf(),
            forall|kind: Seq<char>| #[trigger]
                count_of(old(totals)@, kind) + kind_sum(entries, kind) <= usize::MAX,
            forall|kind: Seq<char>| #[trigger]
                count_of(totals@, kind) == count_of(old(totals)@, kind) + kind_sum(
                    entries.take(i as int),
                    kind,
                ),
            forall|kind: Seq<char>| #[trigger]
                totals@.contains_key(kind) <==> old(totals)@.contains_key(kind) || holds_kind(
                    entries.take(i as int),
                    kind,
                ),
            totals.kinds() == merged_kinds(old(totals).kinds(), entries.take(i as int)),
        decreases n - i,
    {
        match counts.entry(i) {
            Some((kind, count)) => {
                let ghost before = totals@;
                proof {
                    assert(entries.take(i as int + 1).drop_last() =~= entries.take(i as int));
                    assert(entries.take(i as int + 1).last() == entries[i as int]);
                    lemma_kind_sum_prefix(entries, kind@, i as int + 1);
                    assert(count_of(old(totals)@, kind@) + kind_sum(entries, kind@) <= usize::MAX);
                    assert(count_of(before, kind@) == count_of(old(totals)@, kind@) + kind_sum(
                        entries.take(i as int),
                        kind@,
                    ));
                }
                let so_far: usize = match totals.get(kind.as_str()) {
                    Some(held) => *held,
                    None => 0,
                };
                totals.insert(kind.clone(), so_far + *count);
                proof {
                    assert forall|other: Seq<char>| #[trigger]
                        count_of(totals@, other) == count_of(old(totals)@, other) + kind_sum(
                            entries.take(i as int + 1),
                            other,
                        ) by {
                        assert(count_of(before, other) == count_of(old(totals)@, other) + kind_sum(
                            entries.take(i as int),
                            other,
                        ));
                    }
                    assert forall|other: Seq<char>| #[trigger]
                        totals@.contains_key(other) <==> old(totals)@.contains_key(other)
                            || holds_kind(entries.take(i as int + 1), other) by {
                        assert(before.contains_key(other) <==> old(totals)@.contains_key(other)
                            || holds_kind(entries.take(i as int), other));
                    }
                }
            },
            None => {},
        }
        i += 1;
    }
    assert(entries.take(n as int) =~= entries);
}

/// The counts that a prefix holds for one kind sum up to no more than those
/// of the whole.
pub proof fn lemma_kind_sum_prefix(entries: Seq<(Seq<char>, usize)>, kind: Seq<char>, n: int)
    requires
        0 <= n <= entries.len(),
    ensures
        kind_sum(entries.take(n), kind) <= kind_sum(entries, kind),
    decreases entries.len() - n,
{
    if n < entries.len() {
        lemma_kind_sum_prefix(entries, kind, n + 1);
        assert(entries.take(n + 1).drop_last() =~= entries.take(n));
    } else {
        assert(entries.take(n) =~= entries);
    }
}

/// No sum over groups is negative.
pub proof fn lemma_all_sums_are_not_negative(groups: Seq<Seq<(Seq<char>, usize)>>, kind: Seq<char>)
    ensures
        0 <= all_kind_sum(groups, kind),
        0 <= all_count_sum(groups),
    decreases groups.len(),
{
    if groups.len() > 0 {
        lemma_all_sums_are_not_negative(groups.drop_last(), kind);
        lemma_sums_are_not_negative(groups.last(), kind);
    }
}

/// The counts of each kind over all namespaces, given that they fit.
fn tally_namespaces(stats: &Vec<(String, KindMap<usize>)>) -> (totals: KindMap<usize>)
    requires
        all_count_sum(namespace_entries(stats@)) <= usize::MAX,
    ensures
        forall|kind: Seq<char>| #[trigger]
            count_of(totals@, kind) == all_kind_sum(namespace_entries(stats@), kind),
        forall|kind: Seq<char>| #[trigger]
            totals@.contains_key(kind) <==> any_holds_kind(namespace_entries(stats@), kind),
        totals.kinds() == all_merged_kinds(namespace_entries(stats@)),
{
    let ghost groups = namespace_entries(stats@);
    let mut totals: KindMap<usize> = KindMap::new();
    let mut i: usize = 0;
    assert(groups.take(0) =~= Seq::empty());
    while i < stats.len()
        invariant
            i <= stats.len(),
            groups == namespace_entries(stats@),
            all_count_sum(groups) <= usize::MAX,
            forall|kind: Seq<char>| #[trigger]
                count_of(totals@, kind) == all_kind_sum(groups.take(i as int), kind),
            forall|kind: Seq<char>| #[trigger]
                totals@.contains_key(kind) <==> any_holds_kind(groups.take(i as int), kind),
            totals.kinds() == all_merged_kinds(groups.take(i as int)),
        decreases stats.len() - i,
    {
        let ghost before = totals@;
        proof {
            assert(groups.take(i as int + 1).drop_last() =~= groups.take(i as int));
            assert(groups.take(i as int + 1).last() == groups[i as int]);
            lemma_all_count_sum_prefix(groups, i as int + 1);
            assert forall|kind: Seq<char>| #[trigger]
                count_of(before, kind) + kind_sum(stats[i as int].1.pairs(), kind)
                    <= usize::MAX by {
                lemma_all_kind_sum_bound(groups.take(i as int + 1), kind);
                assert(count_of(before, kind) == all_kind_sum(groups.take(i as int), kind));
            }
        }
        tally(&mut totals, &stats[i].1);
        proof {
            assert forall|kind: Seq<char>| #[trigger]
                count_of(totals@, kind) == all_kind_sum(groups.take(i as int + 1), kind) by {
                assert(count_of(before, kind) == all_kind_sum(groups.take(i as int), kind));
            }
            assert forall|kind: Seq<char>| #[trigger]
                totals@.contains_key(kind) <==> any_holds_kind(
                    groups.take(i as int + 1),
                    kind,
                ) by {
                assert(before.contains_key(kind) <==> any_holds_kind(groups.take(i as int), kind));
            }
        }
        i += 1;
    }
    assert(groups.take(stats.len() as int) =~= groups);
    totals
}

/// Sums up the saved counts of a run: the totals of the cluster, of each
/// namespace and of all namespaces, the grand total, and the count of each
/// kind over the cluster and all namespaces. Fails exactly where the grand
/// total does not fit the machine's counter.
pub fn summarize(cluster_stats: &KindMap<usize>, namespace_stats: &Vec<(String, KindMap<usize>)>) -> (result: Result<CollectionTotals, SummaryError>)
    ensures
        match result {
            Ok(totals) => {
                &&& grand_total(cluster_stats.pairs(), namespace_entries(namespace_stats@))
                    <= usize::MAX
                &&& summarizes(totals, cluster_stats.pairs(), namespace_entries(namespace_stats@))
            },
            Err(error) => {
                &&& error == SummaryError::CountOverflow
                &&& grand_total(cluster_stats.pairs(), namespace_entries(namespace_stats@))
                    > usize::MAX
            },
        },
{
    let ghost cluster = cluster_stats.pairs();
    let ghost groups = namespace_entries(namespace_stats@);
    proof {
        lemma_sums_are_not_negative(cluster, Seq::empty());
        lemma_all_sums_are_not_negative(groups, Seq::empty());
    }
    let total_cluster_resources = match sum_counts(cluster_stats) {
        Some(total) => total,
        None => {
            return Err(SummaryError::CountOverflow);
        },
    };
    let (total_namespaced_resources, namespace_totals) = match sum_namespaces(namespace_stats) {
        Some(sums) => sums,
        None => {
            return Err(SummaryError::CountOverflow);
        },
    };
    let total_resources = match total_cluster_resources.checked_add(total_namespaced_resources) {
        Some(total) => total,
        None => {
            return Err(SummaryError::CountOverflow);
        },
    };
    let mut resource_type_counts = tally_namespaces(namespace_stats);
    let ghost before = resource_type_counts@;
    proof {
        assert forall|kind: Seq<char>| #[trigger]
            count_of(before, kind) + kind_sum(cluster, kind) <= usize::MAX by {
            lemma_all_kind_sum_bound(groups, kind);
            lemma_kind_sum_bound(cluster, kind);
            assert(count_of(before, kind) == all_kind_sum(groups, kind));
        }
    }
    tally(&mut resource_type_counts, cluster_stats);
    proof {
        assert forall|kind: Seq<char>| #[trigger]
            count_of(resource_type_counts@, kind) == kind_sum(cluster, kind) + all_kind_sum(
                groups,
                kind,
            ) by {
            assert(count_of(before, kind) == all_kind_sum(groups, kind));
        }
        assert forall|kind: Seq<char>| #[trigger]
            resource_type_counts@.contains_key(kind) <==> holds_kind(cluster, kind)
                || any_holds_kind(groups, kind) by {
            assert(before.contains_key(kind) <==> any_holds_kind(groups, kind));
        }
    }
    Ok(
        CollectionTotals {
            total_namespaces: namespace_stats.len(),
            total_cluster_resources,
            total_namespaced_resources,
            total_resources,
            resource_type_counts,
            namespace_totals,
        },
    )
}

/// Whether no kind stands twice in `entries`.
pub open spec fn distinct_kinds(entries: Seq<(Seq<char>, usize)>) -> bool {
    forall|i: int, j: int|
        0 <= i < entries.len() && 0 <= j < entries.len() && i != j ==> entries[i].0
            != entries[j].0
}

/// A kind is held exactly where an entry names it.
pub proof fn lemma_holds_kind(entries: Seq<(Seq<char>, usize)>, kind: Seq<char>)
    ensures
        holds_kind(entries, kind) <==> exists|i: int|
            0 <= i < entries.len() && (#[trigger] entries[i]).0 == kind,
    decreases entries.len(),
{
    if entries.len() > 0 {
        let rest = entries.drop_last();
        lemma_holds_kind(rest, kind);
        if holds_kind(entries, kind) {
            if entries.last().0 == kind {
                assert(entries[entries.len() - 1].0 == kind);
            } else {
                let i = choose|i: int| 0 <= i < rest.len() && (#[trigger] rest[i]).0 == kind;
                assert(entries[i].0 == kind);
            }
        }
        if exists|i: int| 0 <= i < entries.len() && (#[trigger] entries[i]).0 == kind {
            let i = choose|i: int| 0 <= i < entries.len() && (#[trigger] entries[i]).0 == kind;
            if i < rest.len() {
                assert(rest[i].0 == kind);
            }
        }
    }
}

/// Where no kind stands twice, the sum for a kind is the one count that
/// stands beside it, and zero for a kind that is not held.
pub proof fn lemma_kind_sum_of_distinct(entries: Seq<(Seq<char>, usize)>, kind: Seq<char>)
    requires
        distinct_kinds(entries),
    ensures
        !holds_kind(entries, kind) ==> kind_sum(entries, kind) == 0,
        forall|i: int|
            0 <= i < entries.len() && (#[trigger] entries[i]).0 == kind ==> kind_sum(
                entries,
                kind,
            ) == entries[i].1,
    decreases entries.len(),
{
    if entries.len() > 0 {
        let rest = entries.drop_last();
        let n = entries.len() - 1;
        assert(distinct_kinds(rest)) by {
            assert forall|i: int, j: int|
                0 <= i < rest.len() && 0 <= j < rest.len() && i != j implies rest[i].0
                != rest[j].0 by {
                assert(entries[i].0 != entries[j].0);
            }
        }
        lemma_kind_sum_of_distinct(rest, kind);
        lemma_holds_kind(rest, kind);
        assert forall|i: int|
            0 <= i < entries.len() && (#[trigger] entries[i]).0 == kind implies kind_sum(
            entries,
            kind,
        ) == entries[i].1 by {
            if i < n {
                assert(rest[i].0 == kind);
                assert(entries[n].0 != entries[i].0);
            } else {
                if holds_kind(rest, kind) {
                    let j = choose|j: int| 0 <= j < rest.len() && (#[trigger] rest[j]).0 == kind;
                    assert(entries[j].0 == entries[n].0);
                }
            }
        }
    }
}

/// Folds a collection result into its totals: the number of documents of
/// the cluster-scoped result set, of each namespace's result set and of all
/// of them, and the number of documents of each kind over all result sets.
/// Fails exactly where the number of all documents does not fit the
/// machine's counter.
pub fn aggregate(
    cluster: &KindMap<Vec<Value>>,
    namespaces: &Vec<(String, KindMap<Vec<Value>>)>,
) -> (result: Result<CollectionTotals, SummaryError>)
    ensures
        match result {
            Ok(totals) => {
                &&& grand_total(instance_counts(*cluster), all_instance_counts(namespaces@))
                    <= usize::MAX
                &&& summarizes(totals, instance_counts(*cluster), all_instance_counts(namespaces@))
            },
            Err(error) => {
                &&& error == SummaryError::CountOverflow
                &&& grand_total(instance_counts(*cluster), all_instance_counts(namespaces@))
                    > usize::MAX
            },
        },
{
    let cluster_stats = count_instances(cluster);
    let mut namespace_stats: Vec<(String, KindMap<usize>)> = Vec::new();
    let mut i: usize = 0;
    while i < namespaces.len()
        invariant
            i <= namespaces.len(),
            namespace_stats.len() == i,
            forall|j: int|
                0 <= j < i ==> (#[trigger] namespace_stats[j]).1.pairs() == instance_counts(
                    namespaces[j].1,
                ),
        decreases namespaces.len() - i,
    {
        namespace_stats.push((namespaces[i].0.clone(), count_instances(&namespaces[i].1)));
        i += 1;
    }
    assert(namespace_entries(namespace_stats@) =~= all_instance_counts(namespaces@));
    summarize(&cluster_stats, &namespace_stats)
}

/// The sum, over `kinds`, of the counts that `entries` holds for each kind.
pub open spec fn sum_over_kinds(kinds: Seq<Seq<char>>, entries: Seq<(Seq<char>, usize)>) -> int
    decreases kinds.len(),
{
    if kinds.len() == 0 {
        0
    } else {
        sum_over_kinds(kinds.drop_last(), entries) + kind_sum(entries, kinds.last())
    }
}

/// The sum, over `kinds`, of the counts that all `groups` hold for each kind.
pub open spec fn all_sum_over_kinds(kinds: Seq<Seq<char>>, groups: Seq<Seq<(Seq<char>, usize)>>) -> int
    decreases kinds.len(),
{
    if kinds.len() == 0 {
        0
    } else {
        all_sum_over_kinds(kinds.drop_last(), groups) + all_kind_sum(groups, kinds.last())
    }
}

/// One more entry adds its count to the sum over distinct kinds, where its
/// kind is among them.
proof fn lemma_sum_over_kinds_push(
    kinds: Seq<Seq<char>>,
    entries: Seq<(Seq<char>, usize)>,
    entry: (Seq<char>, usize),
)
    requires
        kinds.no_duplicates(),
    ensures
        sum_over_kinds(kinds, entries.push(entry)) == sum_over_kinds(kinds, entries) + if kinds.contains(
            entry.0,
        ) {
            entry.1 as int
        } else {
            0
        },
    decreases kinds.len(),
{
    assert(entries.push(entry).drop_last() =~= entries);
    if kinds.len() > 0 {
        let rest = kinds.drop_last();
        lemma_sum_over_kinds_push(rest, entries, entry);
        if kinds.last() == entry.0 {
            if rest.contains(entry.0) {
                let j = rest.index_of(entry.0);
                assert(kinds[j] == kinds[kinds.len() - 1]);
            }
            assert(kinds.contains(entry.0)) by {
                assert(kinds[kinds.len() - 1] == entry.0);
            }
        } else {
            if rest.contains(entry.0) {
                let j = rest.index_of(entry.0);
                assert(kinds[j] == entry.0);
            }
            if kinds.contains(entry.0) {
                let j = kinds.index_of(entry.0);
                assert(rest[j] == entry.0);
            }
        }
    }
}

/// Over distinct kinds that cover those of the entries, the counts of the
/// kinds add up to the sum of all counts.
pub proof fn lemma_sum_over_kinds(kinds: Seq<Seq<char>>, entries: Seq<(Seq<char>, usize)>)
    requires
        kinds.no_duplicates(),
        forall|kind: Seq<char>| holds_kind(entries, kind) ==> kinds.contains(kind),
    ensures
        sum_over_kinds(kinds, entries) == count_sum(entries),
    decreases entries.len(),
{
    if entries.len() == 0 {
        assert(entries =~= Seq::empty());
        lemma_sum_over_nothing(kinds);
    } else {
        let rest = entries.drop_last();
        assert(entries =~= rest.push(entries.last()));
        assert forall|kind: Seq<char>| holds_kind(rest, kind) implies kinds.contains(kind) by {
            assert(holds_kind(entries, kind));
        }
        lemma_sum_over_kinds(kinds, rest);
        lemma_sum_over_kinds_push(kinds, rest, entries.last());
        assert(holds_kind(entries, entries.last().0));
        assert(kinds.contains(entries.last().0));
    }
}

/// No entries, no counts.
proof fn lemma_sum_over_nothing(kinds: Seq<Seq<char>>)
    ensures
        sum_over_kinds(kinds, Seq::empty()) == 0,
    decreases kinds.len(),
{
    if kinds.len() > 0 {
        lemma_sum_over_nothing(kinds.drop_last());
    }
}

/// The sum over kinds of the counts of all groups is the sum, group by
/// group, of the sums over kinds.
proof fn lemma_all_sum_over_kinds_step(kinds: Seq<Seq<char>>, groups: Seq<Seq<(Seq<char>, usize)>>)
    requires
        groups.len() > 0,
    ensures
        all_sum_over_kinds(kinds, groups) == all_sum_over_kinds(kinds, groups.drop_last())
            + sum_over_kinds(kinds, groups.last()),
    decreases kinds.len(),
{
    if kinds.len() > 0 {
        lemma_all_sum_over_kinds_step(kinds.drop_last(), groups);
    }
}

/// No groups, no counts.
proof fn lemma_all_sum_over_nothing(kinds: Seq<Seq<char>>)
    ensures
        all_sum_over_kinds(kinds, Seq::empty()) == 0,
    decreases kinds.len(),
{
    if kinds.len() > 0 {
        lemma_all_sum_over_nothing(kinds.drop_last());
    }
}

/// Over distinct kinds that cover those of all groups, the counts of the
/// kinds add up to the sum of all counts of all groups.
pub proof fn lemma_all_sum_over_kinds(kinds: Seq<Seq<char>>, groups: Seq<Seq<(Seq<char>, usize)>>)
    requires
        kinds.no_duplicates(),
        forall|kind: Seq<char>| any_holds_kind(groups, kind) ==> kinds.contains(kind),
    ensures
        all_sum_over_kinds(kinds, groups) == all_count_sum(groups),
    decreases groups.len(),
{
    if groups.len() == 0 {
        assert(groups =~= Seq::empty());
        lemma_all_sum_over_nothing(kinds);
    } else {
        let rest = groups.drop_last();
        assert forall|kind: Seq<char>| any_holds_kind(rest, kind) implies kinds.contains(kind) by {
            assert(any_holds_kind(groups, kind));
        }
        assert forall|kind: Seq<char>| holds_kind(groups.last(), kind) implies kinds.contains(
            kind,
        ) by {
            assert(any_holds_kind(groups, kind));
        }
        lemma_all_sum_over_kinds(kinds, rest);
        lemma_sum_over_kinds(kinds, groups.last());
        lemma_all_sum_over_kinds_step(kinds, groups);
    }
}

/// The counts of the first kinds of a map of counts are the sums of what the
/// cluster and the namespaces hold for them.
proof fn lemma_pairs_sum(
    counts: KindMap<usize>,
    cluster: Seq<(Seq<char>, usize)>,
    groups: Seq<Seq<(Seq<char>, usize)>>,
    n: int,
)
    requires
        counts.wf(),
        0 <= n <= counts.kinds().len(),
        forall|kind: Seq<char>| #[trigger]
            count_of(counts@, kind) == kind_sum(cluster, kind) + all_kind_sum(groups, kind),
    ensures
        count_sum(counts.pairs().take(n)) == sum_over_kinds(counts.kinds().take(n), cluster)
            + all_sum_over_kinds(counts.kinds().take(n), groups),
    decreases n,
{
    if n > 0 {
        lemma_pairs_sum(counts, cluster, groups, n - 1);
        let kind = counts.kinds()[n - 1];
        assert(counts.pairs().take(n).drop_last() =~= counts.pairs().take(n - 1));
        assert(counts.kinds().take(n).drop_last() =~= counts.kinds().take(n - 1));
        lemma_paired_at(counts.kinds(), counts.items(), n - 1);
        assert(count_of(counts@, kind) == kind_sum(cluster, kind) + all_kind_sum(groups, kind));
    } else {
        assert(counts.pairs().take(0) =~= Seq::empty());
    }
}

/// The counts of the kinds add up: over all kinds, the numbers of resources
/// of each kind sum up to the number of all resources.
pub proof fn lemma_kind_counts_add_up(
    totals: CollectionTotals,
    cluster: Seq<(Seq<char>, usize)>,
    namespaces: Seq<Seq<(Seq<char>, usize)>>,
)
    requires
        totals.resource_type_counts.wf(),
        summarizes(totals, cluster, namespaces),
    ensures
        count_sum(totals.resource_type_counts.pairs()) == totals.total_resources,
        totals.total_resources == totals.total_cluster_resources
            + totals.total_namespaced_resources,
{
    let counts = totals.resource_type_counts;
    let kinds = counts.kinds();
    lemma_pairs_sum(counts, cluster, namespaces, kinds.len() as int);
    assert(counts.pairs().take(kinds.len() as int) =~= counts.pairs());
    assert(kinds.take(kinds.len() as int) =~= kinds);
    assert forall|kind: Seq<char>| holds_kind(cluster, kind) implies kinds.contains(kind) by {
        assert(counts@.contains_key(kind));
    }
    assert forall|kind: Seq<char>| any_holds_kind(namespaces, kind) implies kinds.contains(
        kind,
    ) by {
        assert(counts@.contains_key(kind));
    }
    lemma_sum_over_kinds(kinds, cluster);
    lemma_all_sum_over_kinds(kinds, namespaces);
}

} // verus!
