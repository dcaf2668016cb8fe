//! Stripping what the server assigned from a resource document.

use vstd::prelude::*;
use serde_json::Value;
use crate::json::{json_of, map_get_mut, map_remove, Json};

verus! {

/// The metadata fields that the server assigns.
pub open spec fn is_server_assigned(key: Seq<char>) -> bool {
    ||| key == "uid"@
    ||| key == "resourceVersion"@
    ||| key == "selfLink"@
    ||| key == "creationTimestamp"@
    ||| key == "generation"@
    ||| key == "managedFields"@
}

/// The metadata of a resource without the fields that the server assigns.
pub open spec fn stripped_metadata(fields: Map<Seq<char>, Json>) -> Map<Seq<char>, Json> {
    fields.remove("uid"@).remove("resourceVersion"@).remove("selfLink"@).remove(
        "creationTimestamp"@,
    ).remove("generation"@).remove("managedFields"@)
}

/// A resource document without server-assigned metadata and without status.
pub open spec fn sanitized(doc: Json) -> Json {
    match doc {
        Json::Object(fields) => {
            let cleaned = if fields.contains_key("metadata"@) {
                match fields["metadata"@] {
                    Json::Object(meta) => fields.insert(
                        "metadata"@,
                        Json::Object(stripped_metadata(meta)),
                    ),
                    _ => fields,
                }
            } else {
                fields
            };
            Json::Object(cleaned.remove("status"@))
        },
        _ => doc,
    }
}

proof fn lemma_metadata_is_not_status()
    ensures
        "metadata"@ != "status"@,
{
    reveal_strlit("metadata");
    reveal_strlit("status");
    assert("metadata"@.len() == 8);
    assert("status"@.len() == 6);
}

/// Cleaning a cleaned document changes nothing.
pub proof fn lemma_sanitized_is_idempotent(doc: Json)
    ensures
        sanitized(sanitized(doc)) == sanitized(doc),
{
    if let Json::Object(fields) = doc {
        let once = sanitized(doc)->Object_0;
        lemma_metadata_is_not_status();
        if fields.contains_key("metadata"@) {
            if let Json::Object(meta) = fields["metadata"@] {
                let stripped = stripped_metadata(meta);
                assert(stripped_metadata(stripped) =~= stripped);
                assert(once["metadata"@] == Json::Object(stripped));
                assert(once.insert("metadata"@, Json::Object(stripped)) =~= once);
            }
        }
        assert(once.remove("status"@) =~= once);
    }
}

/// Cleaning adds nothing: the result has no field that the document lacks, at
/// the top and under `metadata`, and each field that stays keeps its value.
pub proof fn lemma_sanitized_adds_no_field(doc: Json)
    ensures
        !(doc is Object) ==> sanitized(doc) == doc,
        doc is Object ==> sanitized(doc) is Object,
        doc matches Json::Object(fields) ==> {
            let cleaned = sanitized(doc)->Object_0;
            &&& cleaned.dom().subset_of(fields.dom())
            &&& forall|key: Seq<char>| #[trigger]
                cleaned.contains_key(key) && key != "metadata"@ ==> cleaned[key] == fields[key]
            &&& cleaned.contains_key("metadata"@) ==> match fields["metadata"@] {
                Json::Object(meta) => {
                    &&& cleaned["metadata"@] is Object
                    &&& cleaned["metadata"@]->Object_0.dom().subset_of(meta.dom())
                    &&& forall|key: Seq<char>| #[trigger]
                        cleaned["metadata"@]->Object_0.contains_key(key)
                            ==> cleaned["metadata"@]->Object_0[key] == meta[key]
                },
                other => cleaned["metadata"@] == other,
            }
        },
{
    lemma_metadata_is_not_status();
}

/// What cleaning removes, and nothing else: the status at the top, and the
/// six server-assigned fields under `metadata`.
pub proof fn lemma_sanitized_keeps_other_fields(doc: Json, key: Seq<char>)
    requires
        doc is Object,
    ensures
        !sanitized(doc)->Object_0.contains_key("status"@),
        key != "status"@ ==> (sanitized(doc)->Object_0.contains_key(key)
            <==> doc->Object_0.contains_key(key)),
        doc->Object_0.contains_key("metadata"@) && doc->Object_0["metadata"@] is Object ==> {
            let meta = doc->Object_0["metadata"@]->Object_0;
            let kept = sanitized(doc)->Object_0["metadata"@]->Object_0;
            &&& sanitized(doc)->Object_0["metadata"@] is Object
            &&& kept.contains_key(key) <==> meta.contains_key(key) && !is_server_assigned(key)
        },
{
    lemma_metadata_is_not_status();
}

/// Strips the server-assigned metadata fields and the status of a resource.
pub fn sanitize_resource(value: &mut Value)
    ensures
        json_of(*final(value)) == sanitized(json_of(*old(value))),
{
    if let Some(obj) = value.as_object_mut() {
        if let Some(meta_value) = map_get_mut(obj, "metadata") {
            if let Some(metadata) = meta_value.as_object_mut() {
                map_remove(metadata, "uid");
                map_remove(metadata, "resourceVersion");
                map_remove(metadata, "selfLink");
                map_remove(metadata, "creationTimestamp");
                map_remove(metadata, "generation");
                map_remove(metadata, "managedFields");
            }
        }
        map_remove(obj, "status");
    }
    proof {
        if let Json::Object(fields) = json_of(*old(value)) {
            if fields.contains_key("metadata"@) {
                assert(fields.insert("metadata"@, fields["metadata"@]) =~= fields);
            }
        }
    }
}

} // verus!
