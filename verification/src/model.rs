//! Items and their revisions, as the dump parser emits them.

use vstd::prelude::*;

verus! {

/// One historical version of an item's payload.
#[derive(Debug)]
pub struct WikidataRevision {
    pub id: u64,
    /// The revision this one was made from; 0 where the dump names none.
    pub parent_id: u64,
    pub timestamp: String,
    pub username: String,
    pub comment: String,
    /// The patch from the previous valid payload of the same item to this
    /// revision's payload; `None` where the revision was not compared.
    pub entity_diff: Option<json_patch::Patch>,
}

/// One tracked entity with its full revision history.
#[derive(Debug)]
pub struct WikidataItem {
    pub id: u64,
    pub entity_id: String,
    /// The last payload of the item that was read successfully.
    pub entity_json: serde_json::Value,
    /// The revisions in the order in which the dump holds them.
    pub revisions: Vec<WikidataRevision>,
}

/// What a revision holds, with its strings as character sequences.
pub struct RevisionView {
    pub id: u64,
    pub parent_id: u64,
    pub timestamp: Seq<char>,
    pub username: Seq<char>,
    pub comment: Seq<char>,
    pub entity_diff: Option<json_patch::Patch>,
}

/// What an item holds, with its strings as character sequences.
pub struct ItemView {
    pub id: u64,
    pub entity_id: Seq<char>,
    pub entity_json: serde_json::Value,
    pub revisions: Seq<RevisionView>,
}

impl View for WikidataRevision {
    type V = RevisionView;

    open spec fn view(&self) -> RevisionView {
        RevisionView {
            id: self.id,
            parent_id: self.parent_id,
            timestamp: self.timestamp@,
            username: self.username@,
            comment: self.comment@,
            entity_diff: self.entity_diff,
        }
    }
}

/// The views of a sequence of revisions, in the same order.
pub open spec fn revision_views(revisions: Seq<WikidataRevision>) -> Seq<RevisionView> {
    revisions.map_values(|revision: WikidataRevision| revision@)
}

impl View for WikidataItem {
    type V = ItemView;

    open spec fn view(&self) -> ItemView {
        ItemView {
            id: self.id,
            entity_id: self.entity_id@,
            entity_json: self.entity_json,
            revisions: revision_views(self.revisions@),
        }
    }
}

/// The views of a sequence of items, in the same order.
pub open spec fn item_views(items: Seq<WikidataItem>) -> Seq<ItemView> {
    items.map_values(|item: WikidataItem| item@)
}

/// Appending a revision appends its view.
pub proof fn lemma_revision_views_push(revisions: Seq<WikidataRevision>, revision: WikidataRevision)
    ensures
        revision_views(revisions.push(revision)) == revision_views(revisions).push(revision@),
{
    assert(revision_views(revisions.push(revision)) =~= revision_views(revisions).push(revision@));
}

/// Appending an item appends its view.
pub proof fn lemma_item_views_push(items: Seq<WikidataItem>, item: WikidataItem)
    ensures
        item_views(items.push(item)) == item_views(items).push(item@),
{
    assert(item_views(items.push(item)) =~= item_views(items).push(item@));
}

} // verus!
