//! Turning stored items into the documents of the document store: one
//! document per item and one per revision.

use vstd::prelude::*;
use crate::indexer::classes::ClassTable;
use crate::indexer::model::{
    mongo_op_views, op_views, MongoEntity, MongoEntityView, MongoOp, MongoRevision,
    MongoRevisionView, OpView, StoredItemView, StoredRevisionView, WikidataItem, WikidataOp,
    WikidataRevision,
};

verus! {

/// The class of an item: what the table names, or the empty class.
pub open spec fn class_for(table: Map<Seq<char>, Seq<char>>, entity_id: Seq<char>) -> Seq<char> {
    if table.contains_key(entity_id) {
        table[entity_id]
    } else {
        Seq::empty()
    }
}

/// The document of an item.
pub open spec fn entity_document(item: StoredItemView, class_id: Seq<char>) -> MongoEntityView {
    MongoEntityView {
        id: item.id,
        class_id,
        entity_id: item.entity_id,
        entity_json: item.entity_json,
    }
}

/// The document of a revision of the item `entity_id`. A revision without a
/// patch has no operations.
pub open spec fn revision_document(
    entity_id: Seq<char>,
    class_id: Seq<char>,
    revision: StoredRevisionView,
) -> MongoRevisionView {
    MongoRevisionView {
        id: revision.id,
        class_id,
        entity_id,
        parent_id: revision.parent_id,
        timestamp: revision.timestamp,
        username: revision.username,
        comment: revision.comment,
        entity_diff: match revision.entity_diff {
            Some(ops) => ops,
            None => Seq::empty(),
        },
    }
}

/// The documents of the revisions of one item, in the item's order.
pub open spec fn revision_documents(item: StoredItemView, class_id: Seq<char>) -> Seq<
    MongoRevisionView,
> {
    item.revisions.map_values(
        |revision: StoredRevisionView| revision_document(item.entity_id, class_id, revision),
    )
}

/// The item documents of a batch, in the batch's order.
pub open spec fn entity_documents(
    items: Seq<StoredItemView>,
    table: Map<Seq<char>, Seq<char>>,
) -> Seq<MongoEntityView> {
    items.map_values(
        |item: StoredItemView| entity_document(item, class_for(table, item.entity_id)),
    )
}

/// The revision documents of a batch: those of the first item, then those of
/// the second, and so on.
pub open spec fn all_revision_documents(
    items: Seq<StoredItemView>,
    table: Map<Seq<char>, Seq<char>>,
) -> Seq<MongoRevisionView>
    decreases items.len(),
{
    if items.len() == 0 {
        Seq::empty()
    } else {
        all_revision_documents(items.drop_last(), table) + revision_documents(
            items.last(),
            class_for(table, items.last().entity_id),
        )
    }
}

/// The identifiers of the items that the table has no class for, in the
/// batch's order.
pub open spec fn unclassified(items: Seq<StoredItemView>, table: Map<Seq<char>, Seq<char>>) -> Seq<
    Seq<char>,
>
    decreases items.len(),
{
    if items.len() == 0 {
        Seq::empty()
    } else if table.contains_key(items.last().entity_id) {
        unclassified(items.drop_last(), table)
    } else {
        unclassified(items.drop_last(), table).push(items.last().entity_id)
    }
}

/// What goes into the document store for one batch.
#[derive(Debug)]
pub struct MongoDocuments {
    pub entities: Vec<MongoEntity>,
    pub revisions: Vec<MongoRevision>,
    /// The items that the class table does not know; their documents carry
    /// the empty class.
    pub unclassified: Vec<String>,
}

/// The views of stored items, in order.
pub open spec fn stored_views(items: Seq<WikidataItem>) -> Seq<StoredItemView> {
    items.map_values(|item: WikidataItem| item@)
}

fn mongo_ops(ops: Option<Vec<WikidataOp>>) -> (result: Vec<MongoOp>)
    ensures
        mongo_op_views(result@) == match ops {
            Some(ops) => op_views(ops@),
            None => Seq::<OpView>::empty(),
        },
{
    let mut result: Vec<MongoOp> = Vec::new();
    match ops {
        Some(ops) => {
            for op in it: ops
                invariant
                    it.seq() == ops@,
                    mongo_op_views(result@) == op_views(ops@.take(it.index() as int)),
            {
                assert(op == ops@[it.index() as int]);
                let ghost before = mongo_op_views(result@);
                let converted = MongoOp { op: op.op, path: op.path, value: op.value };
                assert(mongo_op_views(result@.push(converted)) =~= before.push(op@));
                assert(op_views(ops@.take(it.index() + 1)) =~= before.push(op@));
                result.push(converted);
            }
            assert(ops@.take(ops@.len() as int) =~= ops@);
        },
        None => {
            assert(mongo_op_views(result@) =~= Seq::<OpView>::empty());
        },
    }
    result
}

/// The views of revision documents, in order.
pub open spec fn mongo_revision_views(revisions: Seq<MongoRevision>) -> Seq<MongoRevisionView> {
    revisions.map_values(|revision: MongoRevision| revision@)
}

/// The views of item documents, in order.
pub open spec fn mongo_entity_views(entities: Seq<MongoEntity>) -> Seq<MongoEntityView> {
    entities.map_values(|entity: MongoEntity| entity@)
}

/// The views of strings, in order.
pub open spec fn string_views(strings: Seq<String>) -> Seq<Seq<char>> {
    strings.map_values(|s: String| s@)
}

fn push_revision_documents(
    revisions: Vec<WikidataRevision>,
    entity_id: &String,
    class_id: &String,
    documents: &mut Vec<MongoRevision>,
)
    ensures
        mongo_revision_views(final(documents)@) == mongo_revision_views(old(documents)@)
            + revisions@.map_values(
            |revision: WikidataRevision| revision_document(entity_id@, class_id@, revision@),
        ),
{
    let ghost before = mongo_revision_views(documents@);
    let ghost wanted = revisions@.map_values(
        |revision: WikidataRevision| revision_document(entity_id@, class_id@, revision@),
    );
    assert(before + wanted.take(0) =~= before);
    for revision in it: revisions
        invariant
            it.seq() == revisions@,
            wanted == revisions@.map_values(
                |revision: WikidataRevision| revision_document(entity_id@, class_id@, revision@),
            ),
            mongo_revision_views(documents@) == before + wanted.take(it.index() as int),
    {
        assert(revision == revisions@[it.index() as int]);
        let ghost so_far = mongo_revision_views(documents@);
        let document = MongoRevision {
            id: revision.id,
            class_id: class_id.clone(),
            entity_id: entity_id.clone(),
            parent_id: revision.parent_id,
            timestamp: revision.timestamp,
            username: revision.username,
            comment: revision.comment,
            entity_diff: mongo_ops(revision.entity_diff),
        };
        assert(document@ =~= revision_document(entity_id@, class_id@, revision@));
        assert(mongo_revision_views(documents@.push(document)) =~= so_far.push(document@));
        assert(before + wanted.take(it.index() + 1) =~= (before + wanted.take(
            it.index() as int,
        )).push(wanted[it.index() as int]));
        documents.push(document);
    }
    assert(wanted.take(revisions@.len() as int) =~= wanted);
}

/// Builds the documents of a batch: for every item its document, for every
/// revision of every item its document, each with the class that the table
/// names for the item.
pub fn mongo_documents(entities: Vec<WikidataItem>, classes: &ClassTable) -> (documents:
    MongoDocuments)
    ensures
        mongo_entity_views(documents.entities@) == entity_documents(
            stored_views(entities@),
            classes@,
        ),
        mongo_revision_views(documents.revisions@) == all_revision_documents(
            stored_views(entities@),
            classes@,
        ),
        string_views(documents.unclassified@) == unclassified(stored_views(entities@), classes@),
{
    let mut documents = MongoDocuments {
        entities: Vec::new(),
        revisions: Vec::new(),
        unclassified: Vec::new(),
    };
    let ghost items = stored_views(entities@);
    assert(mongo_entity_views(documents.entities@) =~= entity_documents(items.take(0), classes@));
    assert(mongo_revision_views(documents.revisions@) =~= all_revision_documents(
        items.take(0),
        classes@,
    ));
    assert(string_views(documents.unclassified@) =~= unclassified(items.take(0), classes@));
    for entity in it: entities
        invariant
            it.seq() == entities@,
            items == stored_views(entities@),
            mongo_entity_views(documents.entities@) == entity_documents(
                items.take(it.index() as int),
                classes@,
            ),
            mongo_revision_views(documents.revisions@) == all_revision_documents(
                items.take(it.index() as int),
                classes@,
            ),
            string_views(documents.unclassified@) == unclassified(
                items.take(it.index() as int),
                classes@,
            ),
    {
        assert(entity == entities@[it.index() as int]);
        let ghost upto = items.take(it.index() + 1);
        assert(upto.drop_last() =~= items.take(it.index() as int));
        assert(upto.last() == entity@);
        let class_id = match classes.get(entity.entity_id.as_str()) {
            Some(class_id) => class_id.clone(),
            None => {
                let ghost listed = string_views(documents.unclassified@);
                assert(string_views(documents.unclassified@.push(entity.entity_id)) =~= listed.push(
                    entity.entity_id@,
                ));
                documents.unclassified.push(entity.entity_id.clone());
                String::new()
            },
        };
        assert(class_id@ == class_for(classes@, entity.entity_id@));
        let document = MongoEntity {
            id: entity.id,
            class_id: class_id.clone(),
            entity_id: entity.entity_id.clone(),
            entity_json: entity.entity_json,
        };
        assert(document@ == entity_document(entity@, class_id@));
        let ghost so_far = mongo_entity_views(documents.entities@);
        assert(mongo_entity_views(documents.entities@.push(document)) =~= so_far.push(document@));
        assert(entity_documents(upto, classes@) =~= entity_documents(upto.drop_last(), classes@).push(
            document@,
        ));
        documents.entities.push(document);
        assert(revision_documents(entity@, class_id@) =~= entity.revisions@.map_values(
            |revision: WikidataRevision| revision_document(entity.entity_id@, class_id@, revision@),
        ));
        push_revision_documents(
            entity.revisions,
            &entity.entity_id,
            &class_id,
            &mut documents.revisions,
        );
    }
    assert(items.take(entities@.len() as int) =~= items);
    documents
}

} // verus!
