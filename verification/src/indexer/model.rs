//! The documents that the indexers read and write.

use vstd::prelude::*;

verus! {

/// One edit operation as a stored batch holds it.
#[derive(Debug)]
pub struct WikidataOp {
    /// The kind of the operation: `add`, `remove`, `replace`, `move`, `copy`
    /// or `test`.
    pub op: String,
    /// The place in the document that the operation changes.
    pub path: String,
    pub value: Option<serde_json::Value>,
}

/// One revision as a stored batch holds it.
#[derive(Debug)]
pub struct WikidataRevision {
    pub id: u64,
    pub parent_id: u64,
    pub timestamp: String,
    pub username: String,
    pub comment: String,
    pub entity_diff: Option<Vec<WikidataOp>>,
}

/// One item as a stored batch holds it.
#[derive(Debug)]
pub struct WikidataItem {
    pub id: u64,
    pub entity_id: String,
    pub entity_json: serde_json::Value,
    pub revisions: Vec<WikidataRevision>,
}

/// One edit operation of a revision document.
#[derive(Debug)]
pub struct MongoOp {
    pub op: String,
    pub path: String,
    pub value: Option<serde_json::Value>,
}

/// The document of one revision: its own fields, the identifier and class of
/// its item, and its edit operations.
#[derive(Debug)]
pub struct MongoRevision {
    pub id: u64,
    pub class_id: String,
    pub entity_id: String,
    pub parent_id: u64,
    pub timestamp: String,
    pub username: String,
    pub comment: String,
    pub entity_diff: Vec<MongoOp>,
}

/// The document of one item: its identifiers, its class and its last payload.
#[derive(Debug)]
pub struct MongoEntity {
    pub id: u64,
    pub class_id: String,
    pub entity_id: String,
    pub entity_json: serde_json::Value,
}

/// One line of the class table: an item and the class it belongs to.
#[derive(Debug)]
pub struct CSVRecord {
    pub entity_id: String,
    pub class_id: String,
}

/// An edit operation, in spec terms.
pub struct OpView {
    pub op: Seq<char>,
    pub path: Seq<char>,
    pub value: Option<serde_json::Value>,
}

impl View for WikidataOp {
    type V = OpView;

    open spec fn view(&self) -> OpView {
        OpView { op: self.op@, path: self.path@, value: self.value }
    }
}

impl View for MongoOp {
    type V = OpView;

    open spec fn view(&self) -> OpView {
        OpView { op: self.op@, path: self.path@, value: self.value }
    }
}

/// The views of the operations of a stored revision, in order.
pub open spec fn op_views(ops: Seq<WikidataOp>) -> Seq<OpView> {
    ops.map_values(|op: WikidataOp| op@)
}

/// The views of the operations of a revision document, in order.
pub open spec fn mongo_op_views(ops: Seq<MongoOp>) -> Seq<OpView> {
    ops.map_values(|op: MongoOp| op@)
}

/// A stored revision, in spec terms.
pub struct StoredRevisionView {
    pub id: u64,
    pub parent_id: u64,
    pub timestamp: Seq<char>,
    pub username: Seq<char>,
    pub comment: Seq<char>,
    pub entity_diff: Option<Seq<OpView>>,
}

impl View for WikidataRevision {
    type V = StoredRevisionView;

    open spec fn view(&self) -> StoredRevisionView {
        StoredRevisionView {
            id: self.id,
            parent_id: self.parent_id,
            timestamp: self.timestamp@,
            username: self.username@,
            comment: self.comment@,
            entity_diff: match self.entity_diff {
                Some(ops) => Some(op_views(ops@)),
                None => None,
            },
        }
    }
}

/// A stored item, in spec terms.
pub struct StoredItemView {
    pub id: u64,
    pub entity_id: Seq<char>,
    pub entity_json: serde_json::Value,
    pub revisions: Seq<StoredRevisionView>,
}

impl View for WikidataItem {
    type V = StoredItemView;

    open spec fn view(&self) -> StoredItemView {
        StoredItemView {
            id: self.id,
            entity_id: self.entity_id@,
            entity_json: self.entity_json,
            revisions: self.revisions@.map_values(|revision: WikidataRevision| revision@),
        }
    }
}

/// A revision document, in spec terms.
#[verifier::ext_equal]
pub struct MongoRevisionView {
    pub id: u64,
    pub class_id: Seq<char>,
    pub entity_id: Seq<char>,
    pub parent_id: u64,
    pub timestamp: Seq<char>,
    pub username: Seq<char>,
    pub comment: Seq<char>,
    pub entity_diff: Seq<OpView>,
}

impl View for MongoRevision {
    type V = MongoRevisionView;

    open spec fn view(&self) -> MongoRevisionView {
        MongoRevisionView {
            id: self.id,
            class_id: self.class_id@,
            entity_id: self.entity_id@,
            parent_id: self.parent_id,
            timestamp: self.timestamp@,
            username: self.username@,
            comment: self.comment@,
            entity_diff: mongo_op_views(self.entity_diff@),
        }
    }
}

/// An item document, in spec terms.
pub struct MongoEntityView {
    pub id: u64,
    pub class_id: Seq<char>,
    pub entity_id: Seq<char>,
    pub entity_json: serde_json::Value,
}

impl View for MongoEntity {
    type V = MongoEntityView;

    open spec fn view(&self) -> MongoEntityView {
        MongoEntityView {
            id: self.id,
            class_id: self.class_id@,
            entity_id: self.entity_id@,
            entity_json: self.entity_json,
        }
    }
}

} // verus!
