//! The summary of a run as a document.

use vstd::prelude::*;
use serde_json::Value;
use crate::json::{
    documents, entries_of, json_array, json_bool, json_count, json_object, json_of, json_string,
    map_insert, new_map, no_entries, Json, JsonNumber,
};
use crate::kindmap::{lemma_paired_at, KindMap};
use crate::policy::{CollectionOptions, OptionsView};
use crate::summary::{
    all_count_sum, all_kind_sum, any_holds_kind, count_of, count_sum, distinct_kinds, grand_total,
    holds_kind, kind_sum, lemma_holds_kind, lemma_kind_sum_of_distinct, namespace_entries, summarize,
    summarizes, CollectionTotals, SummaryError,
};
use crate::text::{debug_list, debug_list_text, join2, texts};

verus! {

/// The number document of a count.
pub open spec fn number(n: int) -> Json {
    Json::Number(JsonNumber::PosInt(n as u64))
}

/// The object that gives each kind its count. Where a kind stands twice, the
/// later count stays.
pub open spec fn counts_entries(entries: Seq<(Seq<char>, usize)>) -> Map<Seq<char>, Json>
    decreases entries.len(),
{
    if entries.len() == 0 {
        no_entries()
    } else {
        counts_entries(entries.drop_last()).insert(
            entries.last().0,
            number(entries.last().1 as int),
        )
    }
}

/// The details of the cluster or of one namespace: its total, and the count
/// of each kind.
pub open spec fn details_json(entries: Seq<(Seq<char>, usize)>) -> Json {
    Json::Object(
        no_entries().insert("total_resources"@, number(count_sum(entries))).insert(
            "resource_types"@,
            Json::Object(counts_entries(entries)),
        ),
    )
}

/// The details of each namespace, by its name. Where a name stands twice,
/// the later details stay.
pub open spec fn namespace_details(
    names: Seq<Seq<char>>,
    groups: Seq<Seq<(Seq<char>, usize)>>,
) -> Map<Seq<char>, Json>
    decreases names.len(),
{
    if names.len() == 0 {
        no_entries()
    } else {
        namespace_details(names.drop_last(), groups).insert(
            names.last(),
            details_json(groups[names.len() - 1]),
        )
    }
}

/// The count of each kind over the cluster and all namespaces: a kind has a
/// count where the cluster or a namespace has one for it.
pub open spec fn kind_counts(
    cluster: Seq<(Seq<char>, usize)>,
    groups: Seq<Seq<(Seq<char>, usize)>>,
) -> Map<Seq<char>, Json> {
    Map::new(
        |kind: Seq<char>| holds_kind(cluster, kind) || any_holds_kind(groups, kind),
        |kind: Seq<char>| number(kind_sum(cluster, kind) + all_kind_sum(groups, kind)),
    )
}

/// One flag, where it is on.
pub open spec fn flag(on: bool, name: Seq<char>) -> Seq<Seq<char>> {
    if on {
        seq![name]
    } else {
        Seq::empty()
    }
}

/// The names of the optional groups that a run included, in a fixed order.
pub open spec fn collection_flags_of(opts: OptionsView) -> Seq<Seq<char>> {
    flag(opts.include_secrets, "secrets"@) + flag(
        opts.include_custom_resources,
        "custom_resources"@,
    ) + (match opts.specific_crds {
        Some(crds) => seq!["specific_crds: "@ + debug_list_text(crds)],
        None => Seq::empty(),
    }) + flag(opts.include_events, "events"@) + flag(opts.include_replicasets, "replicasets"@)
        + flag(opts.include_endpoints, "endpoints"@) + flag(opts.include_leases, "leases"@)
}

/// The string documents of a sequence of texts.
pub open spec fn string_docs(items: Seq<Seq<char>>) -> Seq<Json> {
    items.map_values(|s: Seq<char>| Json::String(s))
}

/// The names of the namespaces of the saved counts, in their order.
pub open spec fn namespace_names(stats: Seq<(String, KindMap<usize>)>) -> Seq<Seq<char>> {
    stats.map_values(|s: (String, KindMap<usize>)| s.0@)
}

/// The part of the summary that says when and how the run collected.
pub open spec fn info_json(timestamp: Seq<char>, version: Seq<char>, opts: OptionsView) -> Json {
    Json::Object(
        no_entries().insert("timestamp"@, Json::String(timestamp)).insert(
            "tool"@,
            Json::String("ketchup"@),
        ).insert("version"@, Json::String(version)).insert(
            "sanitized"@,
            Json::Bool(opts.sanitize),
        ).insert(
            "optional_resources_included"@,
            Json::Array(string_docs(collection_flags_of(opts))),
        ),
    )
}

/// The part of the summary that gives the totals of the run.
pub open spec fn totals_json(
    cluster: Seq<(Seq<char>, usize)>,
    groups: Seq<Seq<(Seq<char>, usize)>>,
) -> Json {
    Json::Object(
        no_entries().insert("total_namespaces"@, number(groups.len() as int)).insert(
            "total_cluster_resources"@,
            number(count_sum(cluster)),
        ).insert("total_namespaced_resources"@, number(all_count_sum(groups))).insert(
            "total_resources"@,
            number(grand_total(cluster, groups)),
        ).insert("resource_type_counts"@, Json::Object(kind_counts(cluster, groups))),
    )
}

/// The summary document of a run.
pub open spec fn summary_json(
    timestamp: Seq<char>,
    version: Seq<char>,
    opts: OptionsView,
    cluster: Seq<(Seq<char>, usize)>,
    names: Seq<Seq<char>>,
    groups: Seq<Seq<(Seq<char>, usize)>>,
) -> Json {
    Json::Object(
        no_entries().insert("collection_info"@, info_json(timestamp, version, opts)).insert(
            "cluster_summary"@,
            totals_json(cluster, groups),
        ).insert("cluster_resources"@, details_json(cluster)).insert(
            "namespace_details"@,
            Json::Object(namespace_details(names, groups)),
        ),
    )
}

/// The counts object has a field exactly for the kinds that are held, and
/// where no kind stands twice, the field is the count beside the kind.
pub proof fn lemma_counts_entries(entries: Seq<(Seq<char>, usize)>, kind: Seq<char>)
    ensures
        counts_entries(entries).contains_key(kind) <==> holds_kind(entries, kind),
        distinct_kinds(entries) ==> forall|i: int|
            0 <= i < entries.len() && (#[trigger] entries[i]).0 == kind ==> counts_entries(
                entries,
            )[kind] == number(entries[i].1 as int),
    decreases entries.len(),
{
    if entries.len() > 0 {
        let rest = entries.drop_last();
        let n = entries.len() - 1;
        lemma_counts_entries(rest, kind);
        if distinct_kinds(entries) {
            assert(distinct_kinds(rest)) by {
                assert forall|i: int, j: int|
                    0 <= i < rest.len() && 0 <= j < rest.len() && i != j implies rest[i].0
                    != rest[j].0 by {
                    assert(entries[i].0 != entries[j].0);
                }
            }
            assert forall|i: int|
                0 <= i < entries.len() && (#[trigger] entries[i]).0 == kind
                implies counts_entries(entries)[kind] == number(entries[i].1 as int) by {
                if i < n {
                    assert(rest[i].0 == kind);
                    assert(entries[n].0 != entries[i].0);
                }
            }
        }
    }
}

/// The entries of a map of counts name no kind twice, hold exactly the kinds
/// of the map, and give each kind the count that the map gives it.
pub proof fn lemma_pairs_of_counts(counts: KindMap<usize>, kind: Seq<char>)
    requires
        counts.wf(),
    ensures
        distinct_kinds(counts.pairs()),
        counts@.contains_key(kind) <==> holds_kind(counts.pairs(), kind),
        count_of(counts@, kind) == kind_sum(counts.pairs(), kind),
        counts@.contains_key(kind) ==> counts_entries(counts.pairs())[kind] == number(
            counts@[kind] as int,
        ),
{
    let entries = counts.pairs();
    assert(distinct_kinds(entries));
    lemma_holds_kind(entries, kind);
    lemma_kind_sum_of_distinct(entries, kind);
    lemma_counts_entries(entries, kind);
    if counts.kinds().contains(kind) {
        let i = counts.kinds().index_of(kind);
        lemma_paired_at(counts.kinds(), counts.items(), i);
        assert(entries[i].0 == kind);
    }
    if holds_kind(entries, kind) {
        let i = choose|i: int| 0 <= i < entries.len() && (#[trigger] entries[i]).0 == kind;
        assert(counts.kinds()[i] == kind);
    }
}

/// Adds one flag, where it is on.
fn push_flag(flags: &mut Vec<String>, on: bool, name: &str)
    ensures
        texts(final(flags)@) == texts(old(flags)@) + flag(on, name@),
{
    if on {
        flags.push(name.to_owned());
        assert(texts(flags@) =~= texts(old(flags)@) + seq![name@]);
    } else {
        assert(texts(flags@) =~= texts(old(flags)@) + Seq::<Seq<char>>::empty());
    }
}

/// The names of the optional groups that a run included: for the summary.
pub fn collection_flags(opts: &CollectionOptions) -> (flags: Vec<String>)
    ensures
        texts(flags@) == collection_flags_of(opts@),
{
    let mut flags: Vec<String> = Vec::new();
    assert(texts(flags@) =~= Seq::<Seq<char>>::empty());
    push_flag(&mut flags, opts.include_secrets, "secrets");
    let ghost first = texts(flags@);
    assert(first =~= flag(opts.include_secrets, "secrets"@));
    push_flag(&mut flags, opts.include_custom_resources, "custom_resources");
    let ghost second = texts(flags@);
    match &opts.specific_crds {
        Some(crds) => {
            let listed = debug_list(crds);
            flags.push(join2("specific_crds: ", listed.as_str()));
            assert(texts(flags@) =~= second + seq![
                "specific_crds: "@ + debug_list_text(texts(crds@)),
            ]);
        },
        None => {
            assert(texts(flags@) =~= second + Seq::<Seq<char>>::empty());
        },
    }
    push_flag(&mut flags, opts.include_events, "events");
    push_flag(&mut flags, opts.include_replicasets, "replicasets");
    push_flag(&mut flags, opts.include_endpoints, "endpoints");
    push_flag(&mut flags, opts.include_leases, "leases");
    flags
}

/// The object that gives each kind of `counts` its count.
fn counts_document(counts: &KindMap<usize>) -> (doc: Value)
    ensures
        json_of(doc) == Json::Object(counts_entries(counts.pairs())),
{
    let ghost entries = counts.pairs();
    let mut fields = new_map();
    let n = counts.len();
    let mut i: usize = 0;
    assert(entries.take(0) =~= Seq::empty());
    while i < n
        invariant
            i <= n,
            n == entries.len(),
            entries == counts.pairs(),
            counts.wf(),
            entries_of(fields) == counts_entries(entries.take(i as int)),
        decreases n - i,
    {
        proof {
            assert(entries.take(i as int + 1).drop_last() =~= entries.take(i as int));
            assert(entries.take(i as int + 1).last() == entries[i as int]);
        }
        match counts.entry(i) {
            Some((kind, count)) => {
                map_insert(&mut fields, kind.clone(), json_count(*count));
            },
            None => {},
        }
        i += 1;
    }
    assert(entries.take(n as int) =~= entries);
    json_object(fields)
}

/// The details of the cluster or of one namespace, whose total is `total`.
fn details_document(total: usize, counts: &KindMap<usize>) -> (doc: Value)
    requires
        total == count_sum(counts.pairs()),
    ensures
        json_of(doc) == details_json(counts.pairs()),
{
    let mut fields = new_map();
    map_insert(&mut fields, "total_resources".to_owned(), json_count(total));
    map_insert(&mut fields, "resource_types".to_owned(), counts_document(counts));
    json_object(fields)
}

/// The array of the string documents of `items`.
fn strings_document(items: Vec<String>) -> (doc: Value)
    ensures
        json_of(doc) == Json::Array(string_docs(texts(items@))),
{
    let mut values: Vec<Value> = Vec::new();
    let mut i: usize = 0;
    while i < items.len()
        invariant
            i <= items.len(),
            values.len() == i,
            forall|j: int| 0 <= j < i ==> json_of(#[trigger] values[j]) == Json::String(items[j]@),
        decreases items.len() - i,
    {
        values.push(json_string(items[i].clone()));
        i += 1;
    }
    assert(documents(values@) =~= string_docs(texts(items@)));
    json_array(values)
}

/// The details of each namespace, by its name.
fn namespaces_document(stats: &Vec<(String, KindMap<usize>)>, totals: &Vec<usize>) -> (doc: Value)
    requires
        totals.len() == stats.len(),
        forall|i: int|
            0 <= i < totals.len() ==> #[trigger] totals[i] == count_sum(
                namespace_entries(stats@)[i],
            ),
    ensures
        json_of(doc) == Json::Object(
            namespace_details(namespace_names(stats@), namespace_entries(stats@)),
        ),
{
    let ghost names = namespace_names(stats@);
    let ghost groups = namespace_entries(stats@);
    let mut fields = new_map();
    let mut i: usize = 0;
    assert(names.take(0) =~= Seq::empty());
    while i < stats.len()
        invariant
            i <= stats.len(),
            totals.len() == stats.len(),
            forall|j: int| 0 <= j < totals.len() ==> #[trigger] totals[j] == count_sum(groups[j]),
            names == namespace_names(stats@),
            groups == namespace_entries(stats@),
            entries_of(fields) == namespace_details(names.take(i as int), groups),
        decreases stats.len() - i,
    {
        proof {
            assert(names.take(i as int + 1).drop_last() =~= names.take(i as int));
            assert(names.take(i as int + 1).last() == names[i as int]);
        }
        let details = details_document(totals[i], &stats[i].1);
        map_insert(&mut fields, stats[i].0.clone(), details);
        i += 1;
    }
    assert(names.take(stats.len() as int) =~= names);
    json_object(fields)
}

/// The part of the summary that says when and how the run collected.
fn info_document(timestamp: &str, version: &str, opts: &CollectionOptions) -> (doc: Value)
    ensures
        json_of(doc) == info_json(timestamp@, version@, opts@),
{
    let mut info = new_map();
    map_insert(&mut info, "timestamp".to_owned(), json_string(timestamp.to_owned()));
    map_insert(&mut info, "tool".to_owned(), json_string("ketchup".to_owned()));
    map_insert(&mut info, "version".to_owned(), json_string(version.to_owned()));
    map_insert(&mut info, "sanitized".to_owned(), json_bool(opts.sanitize));
    map_insert(
        &mut info,
        "optional_resources_included".to_owned(),
        strings_document(collection_flags(opts)),
    );
    json_object(info)
}

/// The part of the summary that gives the totals of the run.
fn totals_document(
    totals: &CollectionTotals,
    Ghost(cluster): Ghost<Seq<(Seq<char>, usize)>>,
    Ghost(groups): Ghost<Seq<Seq<(Seq<char>, usize)>>>,
) -> (doc: Value)
    requires
        summarizes(*totals, cluster, groups),
        grand_total(cluster, groups) <= usize::MAX,
    ensures
        json_of(doc) == totals_json(cluster, groups),
{
    let mut fields = new_map();
    map_insert(&mut fields, "total_namespaces".to_owned(), json_count(totals.total_namespaces));
    map_insert(
        &mut fields,
        "total_cluster_resources".to_owned(),
        json_count(totals.total_cluster_resources),
    );
    map_insert(
        &mut fields,
        "total_namespaced_resources".to_owned(),
        json_count(totals.total_namespaced_resources),
    );
    map_insert(&mut fields, "total_resources".to_owned(), json_count(totals.total_resources));
    let counts = counts_document(&totals.resource_type_counts);
    proof {
        use_type_invariant(&totals.resource_type_counts);
        let held = totals.resource_type_counts;
        let built = counts_entries(held.pairs());
        let wanted = kind_counts(cluster, groups);
        assert forall|kind: Seq<char>| built.contains_key(kind) == wanted.contains_key(kind) by {
            lemma_pairs_of_counts(held, kind);
            lemma_counts_entries(held.pairs(), kind);
        }
        assert forall|kind: Seq<char>| built.contains_key(kind) implies built[kind]
            == wanted[kind] by {
            lemma_pairs_of_counts(held, kind);
            lemma_counts_entries(held.pairs(), kind);
            assert(count_of(held@, kind) == kind_sum(cluster, kind) + all_kind_sum(groups, kind));
        }
        assert(built =~= wanted);
    }
    map_insert(&mut fields, "resource_type_counts".to_owned(), counts);
    json_object(fields)
}

/// The summary document of a run: when and with which options it collected,
/// the totals, and the counts of the cluster and of each namespace. Fails
/// exactly where the grand total does not fit the machine's counter.
pub fn collection_summary_document(
    timestamp: &str,
    version: &str,
    cluster_stats: &KindMap<usize>,
    namespace_stats: &Vec<(String, KindMap<usize>)>,
    opts: &CollectionOptions,
) -> (result: Result<Value, SummaryError>)
    ensures
        match result {
            Ok(doc) => {
                &&& grand_total(cluster_stats.pairs(), namespace_entries(namespace_stats@))
                    <= usize::MAX
                &&& json_of(doc) == summary_json(
                    timestamp@,
                    version@,
                    opts@,
                    cluster_stats.pairs(),
                    namespace_names(namespace_stats@),
                    namespace_entries(namespace_stats@),
                )
            },
            Err(error) => {
                &&& error == SummaryError::CountOverflow
                &&& grand_total(cluster_stats.pairs(), namespace_entries(namespace_stats@))
                    > usize::MAX
            },
        },
{
    let totals = match summarize(cluster_stats, namespace_stats) {
        Ok(totals) => totals,
        Err(error) => {
            return Err(error);
        },
    };
    let mut summary = new_map();
    map_insert(
        &mut summary,
        "collection_info".to_owned(),
        info_document(timestamp, version, opts),
    );
    map_insert(
        &mut summary,
        "cluster_summary".to_owned(),
        totals_document(
            &totals,
            Ghost(cluster_stats.pairs()),
            Ghost(namespace_entries(namespace_stats@)),
        ),
    );
    map_insert(
        &mut summary,
        "cluster_resources".to_owned(),
        details_document(totals.total_cluster_resources, cluster_stats),
    );
    map_insert(
        &mut summary,
        "namespace_details".to_owned(),
        namespaces_document(namespace_stats, &totals.namespace_totals),
    );
    Ok(json_object(summary))
}

} // verus!
