//! Collecting a fixed set of kinds namespace by namespace, and the summary of
//! such a run.

use vstd::prelude::*;
use serde_json::Value;
use crate::json::{
    documents, entries_of, field, json_bool, json_count, json_object, json_of, json_string,
    map_insert, new_map, no_entries, text_of, value_get, Json,
};
use crate::report::number;
use crate::summary::SummaryError;

verus! {

/// The documents among `items` that are present, in their order.
pub open spec fn present(items: Seq<Option<Value>>) -> Seq<Json>
    decreases items.len(),
{
    if items.len() == 0 {
        Seq::empty()
    } else {
        match items.last() {
            Some(value) => present(items.drop_last()).push(json_of(value)),
            None => present(items.drop_last()),
        }
    }
}

/// The documents of all listings that succeeded, in the order of the
/// namespaces and, within one, of the listing.
pub open spec fn listed(listings: Seq<Option<Vec<Option<Value>>>>) -> Seq<Json>
    decreases listings.len(),
{
    if listings.len() == 0 {
        Seq::empty()
    } else {
        match listings.last() {
            Some(items) => listed(listings.drop_last()) + present(items@),
            None => listed(listings.drop_last()),
        }
    }
}

/// Gathers the documents of one kind over several namespaces. Each listing
/// is `None` where listing the namespace failed, and holds `None` for an
/// item that could not be turned into a document: both are passed over, and
/// the rest is kept in order.
pub fn collect_listed(listings: Vec<Option<Vec<Option<Value>>>>) -> (all: Vec<Value>)
    ensures
        documents(all@) == listed(listings@),
{
    let mut listings = listings;
    let ghost given = listings@;
    let mut all: Vec<Value> = Vec::new();
    let mut i: usize = 0;
    proof {
        assert(given.take(0) =~= Seq::empty());
        assert(documents(all@) =~= Seq::empty());
    }
    while i < listings.len()
        invariant
            i <= listings.len(),
            listings.len() == given.len(),
            forall|k: int| i <= k < listings.len() ==> #[trigger] listings@[k] == given[k],
            documents(all@) == listed(given.take(i as int)),
        decreases listings.len() - i,
    {
        proof {
            assert(given.take(i as int + 1).drop_last() =~= given.take(i as int));
            assert(given.take(i as int + 1).last() == given[i as int]);
        }
        let mut listing: Option<Vec<Option<Value>>> = None;
        std::mem::swap(&mut listings[i], &mut listing);
        match listing {
            Some(items) => {
                let ghost before = documents(all@);
                let ghost held = items@;
                let mut items = items;
                let mut j: usize = 0;
                proof {
                    assert(held.take(0) =~= Seq::empty());
                    assert(documents(all@) =~= before + present(held.take(0)));
                }
                while j < items.len()
                    invariant
                        j <= items.len(),
                        items.len() == held.len(),
                        forall|k: int| j <= k < items.len() ==> #[trigger] items@[k] == held[k],
                        documents(all@) == before + present(held.take(j as int)),
                    decreases items.len() - j,
                {
                    proof {
                        assert(held.take(j as int + 1).drop_last() =~= held.take(j as int));
                        assert(held.take(j as int + 1).last() == held[j as int]);
                    }
                    let mut item: Option<Value> = None;
                    std::mem::swap(&mut items[j], &mut item);
                    match item {
                        Some(value) => {
                            let ghost docs = documents(all@);
                            all.push(value);
                            assert(documents(all@) =~= docs.push(json_of(value)));
                            assert(documents(all@) =~= before + present(held.take(j as int + 1)));
                        },
                        None => {},
                    }
                    j += 1;
                }
                assert(held.take(items.len() as int) =~= held);
            },
            None => {},
        }
        i += 1;
    }
    assert(given.take(listings.len() as int) =~= given);
    all
}

/// The namespace that a resource declares: the string at
/// `metadata.namespace`.
pub open spec fn resource_namespace(doc: Json) -> Option<Seq<char>> {
    match field(doc, "metadata"@) {
        Some(metadata) => match field(metadata, "namespace"@) {
            Some(namespace) => text_of(namespace),
            None => None,
        },
        None => None,
    }
}

/// Whether the resource declares `namespace` for its namespace.
pub fn is_in_namespace(item: &Value, namespace: &str) -> (inside: bool)
    ensures
        inside == (resource_namespace(json_of(*item)) == Some(namespace@)),
{
    match value_get(item, "metadata") {
        Some(metadata) => match value_get(metadata, "namespace") {
            Some(declared) => match declared.as_str() {
                Some(text) => *text == *namespace,
                None => false,
            },
            None => false,
        },
        None => false,
    }
}

/// The resources among `items` that declare `namespace` for their namespace,
/// in their order.
pub fn in_namespace(items: &Vec<Value>, namespace: &str) -> (inside: Vec<Value>)
    ensures
        documents(inside@) == documents(items@).filter(
            |doc: Json| resource_namespace(doc) == Some(namespace@),
        ),
{
    let ghost docs = documents(items@);
    let ghost pred = |doc: Json| resource_namespace(doc) == Some(namespace@);
    let mut inside: Vec<Value> = Vec::new();
    let mut i: usize = 0;
    proof {
        assert(docs.take(0) =~= Seq::empty());
        assert(docs.take(0).filter(pred) =~= Seq::empty()) by {
            reveal(Seq::filter);
        }
        assert(documents(inside@) =~= Seq::empty());
    }
    while i < items.len()
        invariant
            i <= items.len(),
            docs == documents(items@),
            pred == |doc: Json| resource_namespace(doc) == Some(namespace@),
            documents(inside@) == docs.take(i as int).filter(pred),
        decreases items.len() - i,
    {
        proof {
            assert(docs.take(i as int + 1) =~= docs.take(i as int).push(docs[i as int]));
            docs.take(i as int).lemma_filter_push(docs[i as int], pred);
        }
        if is_in_namespace(&items[i], namespace) {
            let ghost before = documents(inside@);
            let copy = items[i].clone();
            inside.push(copy);
            assert(documents(inside@) =~= before.push(docs[i as int]));
        }
        i += 1;
    }
    assert(docs.take(items.len() as int) =~= docs);
    inside
}

/// The count that one namespace has in one of the five columns: pods,
/// services, deployments, config maps, secrets.
pub open spec fn picked(row: (String, usize, usize, usize, usize, usize), column: int) -> int {
    if column == 0 {
        row.1 as int
    } else if column == 1 {
        row.2 as int
    } else if column == 2 {
        row.3 as int
    } else if column == 3 {
        row.4 as int
    } else {
        row.5 as int
    }
}

/// The sum of one column over all namespaces.
pub open spec fn column_sum(rows: Seq<(String, usize, usize, usize, usize, usize)>, column: int) -> int
    decreases rows.len(),
{
    if rows.len() == 0 {
        0
    } else {
        column_sum(rows.drop_last(), column) + picked(rows.last(), column)
    }
}

/// The sum of the first four columns over all namespaces.
pub open spec fn open_columns_sum(rows: Seq<(String, usize, usize, usize, usize, usize)>) -> int {
    column_sum(rows, 0) + column_sum(rows, 1) + column_sum(rows, 2) + column_sum(rows, 3)
}

/// The sum of all five columns over all namespaces.
pub open spec fn all_columns_sum(rows: Seq<(String, usize, usize, usize, usize, usize)>) -> int {
    open_columns_sum(rows) + column_sum(rows, 4)
}

/// The number of resources of one namespace, with or without its secrets.
pub open spec fn row_total(row: (String, usize, usize, usize, usize, usize), with_secrets: bool) -> int {
    row.1 + row.2 + row.3 + row.4 + if with_secrets {
        row.5 as int
    } else {
        0
    }
}

/// The details of one namespace: the count of each column, the secrets only
/// where they were collected, and the total of what is shown.
pub open spec fn row_json(row: (String, usize, usize, usize, usize, usize), secrets_collected: bool) -> Json {
    let shown = no_entries().insert("pods_collected"@, number(row.1 as int)).insert(
        "services_collected"@,
        number(row.2 as int),
    ).insert("deployments_collected"@, number(row.3 as int)).insert(
        "configmaps_collected"@,
        number(row.4 as int),
    );
    Json::Object(
        if secrets_collected {
            shown.insert("secrets_collected"@, number(row.5 as int)).insert(
                "total_resources"@,
                number(row_total(row, true)),
            )
        } else {
            shown.insert("total_resources"@, number(row_total(row, false)))
        },
    )
}

/// The details of each namespace, by its name. Where a name stands twice,
/// the later details stay.
pub open spec fn rows_json(rows: Seq<(String, usize, usize, usize, usize, usize)>, secrets_collected: bool) -> Map<Seq<char>, Json>
    decreases rows.len(),
{
    if rows.len() == 0 {
        no_entries()
    } else {
        rows_json(rows.drop_last(), secrets_collected).insert(
            rows.last().0@,
            row_json(rows.last(), secrets_collected),
        )
    }
}

/// The totals of a run over a fixed set of kinds: each column, the secrets
/// only where they were collected, and the total of what is shown.
pub open spec fn columns_json(rows: Seq<(String, usize, usize, usize, usize, usize)>, secrets_collected: bool) -> Json {
    let shown = no_entries().insert("total_namespaces"@, number(rows.len() as int)).insert(
        "total_pods"@,
        number(column_sum(rows, 0)),
    ).insert("total_services"@, number(column_sum(rows, 1))).insert(
        "total_deployments"@,
        number(column_sum(rows, 2)),
    ).insert("total_configmaps"@, number(column_sum(rows, 3)));
    Json::Object(
        if secrets_collected {
            shown.insert("total_secrets"@, number(column_sum(rows, 4))).insert(
                "total_resources"@,
                number(all_columns_sum(rows)),
            )
        } else {
            shown.insert("secrets_collected"@, Json::Bool(false)).insert(
                "total_resources"@,
                number(open_columns_sum(rows)),
            )
        },
    )
}

/// The summary document of a run over a fixed set of kinds.
pub open spec fn enhanced_summary_json(
    timestamp: Seq<char>,
    version: Seq<char>,
    rows: Seq<(String, usize, usize, usize, usize, usize)>,
    secrets_collected: bool,
) -> Json {
    Json::Object(
        no_entries().insert(
            "collection_info"@,
            Json::Object(
                no_entries().insert("timestamp"@, Json::String(timestamp)).insert(
                    "tool"@,
                    Json::String("ketchup"@),
                ).insert("version"@, Json::String(version)),
            ),
        ).insert("cluster_summary"@, columns_json(rows, secrets_collected)).insert(
            "namespace_details"@,
            Json::Object(rows_json(rows, secrets_collected)),
        ),
    )
}

/// A column sums up to no less over more namespaces, and never to less than
/// zero.
pub proof fn lemma_column_sum_prefix(rows: Seq<(String, usize, usize, usize, usize, usize)>, column: int, n: int)
    requires
        0 <= n <= rows.len(),
    ensures
        0 <= column_sum(rows.take(n), column) <= column_sum(rows, column),
    decreases rows.len() - n,
{
    if n < rows.len() {
        lemma_column_sum_prefix(rows, column, n + 1);
        assert(rows.take(n + 1).drop_last() =~= rows.take(n));
        lemma_column_sum_not_negative(rows.take(n), column);
    } else {
        assert(rows.take(n) =~= rows);
        lemma_column_sum_not_negative(rows, column);
    }
}

/// No column sums up to less than zero.
pub proof fn lemma_column_sum_not_negative(rows: Seq<(String, usize, usize, usize, usize, usize)>, column: int)
    ensures
        0 <= column_sum(rows, column),
    decreases rows.len(),
{
    if rows.len() > 0 {
        lemma_column_sum_not_negative(rows.drop_last(), column);
    }
}

/// The count of one namespace in a column is no more than the column's sum.
pub proof fn lemma_picked_bound(rows: Seq<(String, usize, usize, usize, usize, usize)>, column: int, i: int)
    requires
        0 <= i < rows.len(),
    ensures
        picked(rows[i], column) <= column_sum(rows, column),
    decreases rows.len(),
{
    lemma_column_sum_not_negative(rows.drop_last(), column);
    if i < rows.len() - 1 {
        lemma_picked_bound(rows.drop_last(), column, i);
    }
}

/// The count of a namespace in one column.
fn pick(row: &(String, usize, usize, usize, usize, usize), column: u8) -> (count: usize)
    ensures
        count == picked(*row, column as int),
{
    if column == 0 {
        row.1
    } else if column == 1 {
        row.2
    } else if column == 2 {
        row.3
    } else if column == 3 {
        row.4
    } else {
        row.5
    }
}

/// The sum of one column, or `None` where it does not fit.
fn sum_column(rows: &Vec<(String, usize, usize, usize, usize, usize)>, column: u8) -> (sum: Option<usize>)
    ensures
        match sum {
            Some(total) => total == column_sum(rows@, column as int),
            None => column_sum(rows@, column as int) > usize::MAX,
        },
{
    let mut total: usize = 0;
    let mut i: usize = 0;
    assert(rows@.take(0) =~= Seq::empty());
    while i < rows.len()
        invariant
            i <= rows.len(),
            total == column_sum(rows@.take(i as int), column as int),
        decreases rows.len() - i,
    {
        proof {
            assert(rows@.take(i as int + 1).drop_last() =~= rows@.take(i as int));
            lemma_column_sum_prefix(rows@, column as int, i as int + 1);
        }
        match total.checked_add(pick(&rows[i], column)) {
            Some(next) => {
                total = next;
            },
            None => {
                return None;
            },
        }
        i += 1;
    }
    assert(rows@.take(rows.len() as int) =~= rows@);
    Some(total)
}

/// The details of one namespace.
fn row_document(row: &(String, usize, usize, usize, usize, usize), secrets_collected: bool) -> (doc: Value)
    requires
        row_total(*row, true) <= usize::MAX,
    ensures
        json_of(doc) == row_json(*row, secrets_collected),
{
    let mut fields = new_map();
    map_insert(&mut fields, "pods_collected".to_owned(), json_count(row.1));
    map_insert(&mut fields, "services_collected".to_owned(), json_count(row.2));
    map_insert(&mut fields, "deployments_collected".to_owned(), json_count(row.3));
    map_insert(&mut fields, "configmaps_collected".to_owned(), json_count(row.4));
    let shown: usize = row.1 + row.2 + row.3 + row.4;
    if secrets_collected {
        map_insert(&mut fields, "secrets_collected".to_owned(), json_count(row.5));
        map_insert(&mut fields, "total_resources".to_owned(), json_count(shown + row.5));
    } else {
        map_insert(&mut fields, "total_resources".to_owned(), json_count(shown));
    }
    json_object(fields)
}

/// The summary document of a run over a fixed set of kinds: the totals of
/// pods, services, deployments and config maps, of secrets where they were
/// collected, and the same for each namespace. Fails exactly where the sum
/// of all five columns does not fit the machine's counter.
pub fn enhanced_summary_document(
    timestamp: &str,
    version: &str,
    namespace_stats: &Vec<(String, usize, usize, usize, usize, usize)>,
    secrets_collected: bool,
) -> (result: Result<Value, SummaryError>)
    ensures
        match result {
            Ok(doc) => {
                &&& all_columns_sum(namespace_stats@) <= usize::MAX
                &&& json_of(doc) == enhanced_summary_json(
                    timestamp@,
                    version@,
                    namespace_stats@,
                    secrets_collected,
                )
            },
            Err(error) => {
                &&& error == SummaryError::CountOverflow
                &&& all_columns_sum(namespace_stats@) > usize::MAX
            },
        },
{
    let ghost rows = namespace_stats@;
    proof {
        lemma_column_sum_not_negative(rows, 0);
        lemma_column_sum_not_negative(rows, 1);
        lemma_column_sum_not_negative(rows, 2);
        lemma_column_sum_not_negative(rows, 3);
        lemma_column_sum_not_negative(rows, 4);
    }
    let pods = match sum_column(namespace_stats, 0) {
        Some(total) => total,
        None => {
            return Err(SummaryError::CountOverflow);
        },
    };
    let services = match sum_column(namespace_stats, 1) {
        Some(total) => total,
        None => {
            return Err(SummaryError::CountOverflow);
        },
    };
    let deployments = match sum_column(namespace_stats, 2) {
        Some(total) => total,
        None => {
            return Err(SummaryError::CountOverflow);
        },
    };
    let configmaps = match sum_column(namespace_stats, 3) {
        Some(total) => total,
        None => {
            return Err(SummaryError::CountOverflow);
        },
    };
    let secrets = match sum_column(namespace_stats, 4) {
        Some(total) => total,
        None => {
            return Err(SummaryError::CountOverflow);
        },
    };
    let shown = match pods.checked_add(services) {
        Some(two) => match two.checked_add(deployments) {
            Some(three) => match three.checked_add(configmaps) {
                Some(four) => four,
                None => {
                    return Err(SummaryError::CountOverflow);
                },
            },
            None => {
                return Err(SummaryError::CountOverflow);
            },
        },
        None => {
            return Err(SummaryError::CountOverflow);
        },
    };
    let all = match shown.checked_add(secrets) {
        Some(all) => all,
        None => {
            return Err(SummaryError::CountOverflow);
        },
    };

    let mut details = new_map();
    let mut i: usize = 0;
    assert(rows.take(0) =~= Seq::empty());
    while i < namespace_stats.len()
        invariant
            i <= namespace_stats.len(),
            rows == namespace_stats@,
            all_columns_sum(rows) <= usize::MAX,
            entries_of(details) == rows_json(rows.take(i as int), secrets_collected),
        decreases namespace_stats.len() - i,
    {
        proof {
            assert(rows.take(i as int + 1).drop_last() =~= rows.take(i as int));
            assert(rows.take(i as int + 1).last() == rows[i as int]);
            lemma_picked_bound(rows, 0, i as int);
            lemma_picked_bound(rows, 1, i as int);
            lemma_picked_bound(rows, 2, i as int);
            lemma_picked_bound(rows, 3, i as int);
            lemma_picked_bound(rows, 4, i as int);
        }
        let detail = row_document(&namespace_stats[i], secrets_collected);
        map_insert(&mut details, namespace_stats[i].0.clone(), detail);
        i += 1;
    }
    assert(rows.take(namespace_stats.len() as int) =~= rows);

    let mut columns = new_map();
    map_insert(&mut columns, "total_namespaces".to_owned(), json_count(namespace_stats.len()));
    map_insert(&mut columns, "total_pods".to_owned(), json_count(pods));
    map_insert(&mut columns, "total_services".to_owned(), json_count(services));
    map_insert(&mut columns, "total_deployments".to_owned(), json_count(deployments));
    map_insert(&mut columns, "total_configmaps".to_owned(), json_count(configmaps));
    if secrets_collected {
        map_insert(&mut columns, "total_secrets".to_owned(), json_count(secrets));
        map_insert(&mut columns, "total_resources".to_owned(), json_count(all));
    } else {
        map_insert(&mut columns, "secrets_collected".to_owned(), json_bool(false));
        map_insert(&mut columns, "total_resources".to_owned(), json_count(shown));
    }

    let mut info = new_map();
    map_insert(&mut info, "timestamp".to_owned(), json_string(timestamp.to_owned()));
    map_insert(&mut info, "tool".to_owned(), json_string("ketchup".to_owned()));
    map_insert(&mut info, "version".to_owned(), json_string(version.to_owned()));

    let mut summary = new_map();
    map_insert(&mut summary, "collection_info".to_owned(), json_object(info));
    map_insert(&mut summary, "cluster_summary".to_owned(), json_object(columns));
    map_insert(&mut summary, "namespace_details".to_owned(), json_object(details));
    Ok(json_object(summary))
}

} // verus!
