//! Decisions around the external sinks: which document to give up when a
//! batch is refused, under which identifiers documents are indexed, and how a
//! search index is set up.

use vstd::prelude::*;
use crate::document::{document_member, document_string, document_text, member};

verus! {

/// The size of a document: the number of characters of its compact text.
pub open spec fn document_size(document: serde_json::Value) -> nat {
    document_text(document).len()
}

/// Whether `index` is the place of the largest document: no document is
/// larger, and every earlier one is smaller.
pub open spec fn is_largest(documents: Seq<serde_json::Value>, index: int) -> bool {
    &&& 0 <= index < documents.len()
    &&& forall|j: int|
        0 <= j < documents.len() ==> document_size(#[trigger] documents[j]) <= document_size(
            documents[index],
        )
    &&& forall|j: int|
        0 <= j < index ==> document_size(#[trigger] documents[j]) < document_size(documents[index])
}

/// The index of the largest document of a batch, the first of them where
/// several are as large; 0 for an empty batch.
pub fn get_idx_largest_entity(vec: &Vec<serde_json::Value>) -> (idx: usize)
    ensures
        vec@.len() == 0 ==> idx == 0,
        vec@.len() > 0 ==> is_largest(vec@, idx as int),
{
    let mut max_size: usize = 0;
    let mut idx: usize = 0;
    let mut i: usize = 0;
    while i < vec.len()
        invariant
            i <= vec.len(),
            i == 0 ==> idx == 0 && max_size == 0,
            i > 0 ==> idx < i && max_size == document_size(vec@[idx as int]),
            forall|j: int| 0 <= j < i ==> document_size(#[trigger] vec@[j]) <= max_size,
            forall|j: int| 0 <= j < idx ==> document_size(#[trigger] vec@[j]) < max_size,
        decreases vec.len() - i,
    {
        let size = document_string(&vec[i]).as_str().unicode_len();
        if size > max_size || i == 0 {
            max_size = size;
            idx = i;
        }
        i += 1;
    }
    idx
}

/// Takes the largest document out of a batch that the sink refused, so that
/// the rest can be written again. `None` for an empty batch.
pub fn drop_largest_entity(vec: &mut Vec<serde_json::Value>) -> (dropped: Option<serde_json::Value>)
    ensures
        match dropped {
            Some(document) => exists|k: int|
                is_largest(old(vec)@, k) && document == old(vec)@[k]
                    && final(vec)@ == old(vec)@.remove(k),
            None => old(vec)@.len() == 0 && final(vec)@ == old(vec)@,
        },
{
    if vec.len() == 0 {
        None
    } else {
        let idx = get_idx_largest_entity(vec);
        let document = vec.remove(idx);
        assert(is_largest(old(vec)@, idx as int) && document == old(vec)@[idx as int] && vec@
            == old(vec)@.remove(idx as int));
        Some(document)
    }
}

/// Takes the documents that wait for the index out of `entities` once they
/// are more than `bulk_size`; until then they stay.
pub fn take_full_bulk(entities: &mut Vec<serde_json::Value>, bulk_size: usize) -> (bulk: Option<
    Vec<serde_json::Value>,
>)
    ensures
        match bulk {
            Some(bulk) => old(entities)@.len() > bulk_size && bulk@ == old(entities)@
                && final(entities)@.len() == 0,
            None => old(entities)@.len() <= bulk_size && final(entities)@ == old(entities)@,
        },
{
    if entities.len() > bulk_size {
        let mut bulk: Vec<serde_json::Value> = Vec::new();
        std::mem::swap(&mut bulk, entities);
        Some(bulk)
    } else {
        None
    }
}

/// The identifier under which a document is indexed: the text of its member
/// `id`.
pub open spec fn index_id(document: serde_json::Value) -> Option<Seq<char>> {
    match document_member(document, "id"@) {
        Some(id) => Some(document_text(id)),
        None => None,
    }
}

/// The identifiers under which the documents of a batch are indexed and
/// routed, in the batch's order; `None` where a document has no member `id`.
pub fn bulk_ids(entities: &Vec<serde_json::Value>) -> (ids: Option<Vec<String>>)
    ensures
        match ids {
            Some(ids) => ids@.len() == entities@.len() && forall|i: int|
                0 <= i < entities@.len() ==> index_id(#[trigger] entities@[i]) == Some(ids@[i]@),
            None => exists|i: int|
                0 <= i < entities@.len() && index_id(#[trigger] entities@[i]).is_none(),
        },
{
    let mut ids: Vec<String> = Vec::new();
    let mut i: usize = 0;
    while i < entities.len()
        invariant
            i <= entities.len(),
            ids@.len() == i,
            forall|k: int| 0 <= k < i ==> index_id(#[trigger] entities@[k]) == Some(ids@[k]@),
        decreases entities.len() - i,
    {
        match member(&entities[i], "id") {
            Some(id) => {
                ids.push(document_string(id));
            },
            None => {
                assert(index_id(entities@[i as int]).is_none());
                return None;
            },
        }
        i += 1;
    }
    Some(ids)
}

/// What is done to a search index before documents are written to it.
#[derive(Debug, Clone, Copy, PartialEq, Eq, Structural)]
pub struct IndexSetup {
    /// The index that exists is deleted first.
    pub delete_existing: bool,
    /// The index is created.
    pub create: bool,
}

/// Decides how the index is set up from what the lookup of the index
/// answered: `found` where it exists, `missing` where the answer was that
/// there is none. With `delete` the index is made anew in any case; without
/// it an index is only created where there is none.
pub fn plan_index_setup(found: bool, missing: bool, delete: bool) -> (setup: IndexSetup)
    ensures
        setup.delete_existing == (found && delete),
        setup.create == (missing || delete),
{
    IndexSetup { delete_existing: found && delete, create: missing || delete }
}

} // verus!
