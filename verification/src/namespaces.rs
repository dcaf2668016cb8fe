//! Which of the requested namespaces exist.

use vstd::prelude::*;
use crate::text::{contains_text, texts};

verus! {

/// Why no namespace can be collected from.
#[derive(Debug, Clone, Copy, PartialEq, Eq, Structural)]
pub enum NamespaceError {
    /// None of the requested namespaces exists.
    NoValidNamespaces,
}

impl NamespaceError {
    /// The message for the user.
    pub fn message(&self) -> (text: String)
        ensures
            text@ == "No valid namespaces found"@,
    {
        "No valid namespaces found".to_owned()
    }
}

/// The names among `listed` that are present, in their order.
pub open spec fn present_names(listed: Seq<Option<String>>) -> Seq<Seq<char>> {
    listed.filter_map(
        |name: Option<String>|
            match name {
                Some(n) => Some(n@),
                None => None,
            },
    )
}

/// The requested namespaces that exist, in the order of the request.
pub open spec fn existing(requested: Seq<Seq<char>>, available: Seq<Seq<char>>) -> Seq<Seq<char>> {
    requested.filter(|ns: Seq<char>| available.contains(ns))
}

/// The requested namespaces that do not exist, in the order of the request.
pub open spec fn missing(requested: Seq<Seq<char>>, available: Seq<Seq<char>>) -> Seq<Seq<char>> {
    requested.filter(|ns: Seq<char>| !available.contains(ns))
}

/// The names of the namespaces that the cluster listed: a namespace without a
/// name is passed over.
pub fn list_namespaces(listed: Vec<Option<String>>) -> (names: Vec<String>)
    ensures
        texts(names@) == present_names(listed@),
{
    let mut names: Vec<String> = Vec::new();
    let mut i: usize = 0;
    assert(listed@.take(0) =~= Seq::empty());
    while i < listed.len()
        invariant
            i <= listed.len(),
            texts(names@) == present_names(listed@.take(i as int)),
        decreases listed.len() - i,
    {
        proof {
            listed@.lemma_filter_map_take_succ(
                |name: Option<String>|
                    match name {
                        Some(n) => Some(n@),
                        None => None,
                    },
                i as int,
            );
        }
        match &listed[i] {
            Some(name) => {
                let ghost before = names@;
                names.push(name.clone());
                assert(texts(names@) =~= texts(before) + seq![name@]);
            },
            None => {},
        }
        i += 1;
    }
    assert(listed@.take(listed.len() as int) =~= listed@);
    names
}

/// The members of `requested` that are, or are not, among `available`.
fn select(available: &Vec<String>, requested: &Vec<String>, keep_existing: bool) -> (chosen: Vec<String>)
    ensures
        keep_existing ==> texts(chosen@) == existing(texts(requested@), texts(available@)),
        !keep_existing ==> texts(chosen@) == missing(texts(requested@), texts(available@)),
{
    let mut chosen: Vec<String> = Vec::new();
    let mut i: usize = 0;
    let ghost all = texts(requested@);
    let ghost known = texts(available@);
    let ghost pred = if keep_existing {
        |ns: Seq<char>| known.contains(ns)
    } else {
        |ns: Seq<char>| !known.contains(ns)
    };
    proof {
        assert(all.take(0) =~= Seq::empty());
        assert(all.take(0).filter(pred) =~= Seq::empty()) by {
            reveal(Seq::filter);
        }
    }
    while i < requested.len()
        invariant
            i <= requested.len(),
            all == texts(requested@),
            known == texts(available@),
            pred == if keep_existing {
                |ns: Seq<char>| known.contains(ns)
            } else {
                |ns: Seq<char>| !known.contains(ns)
            },
            texts(chosen@) == all.take(i as int).filter(pred),
        decreases requested.len() - i,
    {
        let exists = contains_text(available, requested[i].as_str());
        proof {
            assert(all.take(i as int + 1) =~= all.take(i as int).push(all[i as int]));
            all.take(i as int).lemma_filter_push(all[i as int], pred);
        }
        if exists == keep_existing {
            let ghost before = chosen@;
            chosen.push(requested[i].clone());
            assert(texts(chosen@) =~= texts(before).push(all[i as int]));
        }
        i += 1;
    }
    assert(all.take(requested.len() as int) =~= all);
    chosen
}

/// The requested namespaces that exist, in the order of the request; an
/// error where none of them does.
pub fn verify_namespaces(available: &Vec<String>, requested: &Vec<String>) -> (verified: Result<Vec<String>, NamespaceError>)
    ensures
        match verified {
            Ok(names) => names.len() > 0 && texts(names@) == existing(
                texts(requested@),
                texts(available@),
            ),
            Err(error) => error == NamespaceError::NoValidNamespaces && existing(
                texts(requested@),
                texts(available@),
            ).len() == 0,
        },
{
    let names = select(available, requested, true);
    if names.len() == 0 {
        Err(NamespaceError::NoValidNamespaces)
    } else {
        Ok(names)
    }
}

/// The requested namespaces that do not exist, in the order of the request:
/// those that a run passes over with a warning.
pub fn missing_namespaces(available: &Vec<String>, requested: &Vec<String>) -> (names: Vec<String>)
    ensures
        texts(names@) == missing(texts(requested@), texts(available@)),
{
    select(available, requested, false)
}

} // verus!
