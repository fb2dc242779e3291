//! The class table: which class each item belongs to.

use vstd::prelude::*;
use crate::indexer::model::CSVRecord;
use crate::text::str_equal;

verus! {

/// The table that a sequence of records builds: every record sets the class
/// of its item, so the last record of an item decides.
pub open spec fn table_of(records: Seq<CSVRecord>) -> Map<Seq<char>, Seq<char>>
    decreases records.len(),
{
    if records.len() == 0 {
        Map::empty()
    } else {
        table_of(records.drop_last()).insert(records.last().entity_id@, records.last().class_id@)
    }
}

/// The classes of the items, by item identifier. Lookup walks the records.
#[derive(Debug)]
pub struct ClassTable {
    records: Vec<CSVRecord>,
}

impl View for ClassTable {
    type V = Map<Seq<char>, Seq<char>>;

    closed spec fn view(&self) -> Map<Seq<char>, Seq<char>> {
        table_of(self.records@)
    }
}

impl ClassTable {
    /// The class of an item, where the table names one.
    pub fn get(&self, entity_id: &str) -> (class_id: Option<&String>)
        ensures
            match class_id {
                Some(class_id) => self@.contains_key(entity_id@) && self@[entity_id@] == class_id@,
                None => !self@.contains_key(entity_id@),
            },
    {
        let mut i: usize = self.records.len();
        assert(self.records@.take(i as int) =~= self.records@);
        while i > 0
            invariant
                i <= self.records.len(),
                self@.contains_key(entity_id@) <==> table_of(
                    self.records@.take(i as int),
                ).contains_key(entity_id@),
                self@.contains_key(entity_id@) ==> self@[entity_id@] == table_of(
                    self.records@.take(i as int),
                )[entity_id@],
            decreases i,
        {
            let ghost upto = self.records@.take(i as int);
            assert(upto.drop_last() =~= self.records@.take(i - 1));
            assert(upto.last() == self.records@[i - 1]);
            i -= 1;
            if str_equal(self.records[i].entity_id.as_str(), entity_id) {
                return Some(&self.records[i].class_id);
            }
        }
        assert(self.records@.take(0) =~= Seq::<CSVRecord>::empty());
        None
    }
}

/// Builds the class table from the records of its file, in the order of the
/// file.
pub fn get_entities_classes_dict(records: Vec<CSVRecord>) -> (table: ClassTable)
    ensures
        table@ == table_of(records@),
{
    ClassTable { records }
}

} // verus!
