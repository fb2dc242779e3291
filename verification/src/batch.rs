//! The batch writer: completed items are buffered and handed to the sink in
//! bounded batches, each under a name of its own.
//!
//! A batch is flushed by the item that makes the buffer larger than the bulk
//! size, so a full batch holds one item more than the bulk size. What is left
//! at the end of the stream is flushed as a last, smaller batch.

use vstd::prelude::*;
use vstd::arithmetic::div_mod::{
    lemma_fundamental_div_mod, lemma_fundamental_div_mod_converse_div,
    lemma_fundamental_div_mod_converse_mod, lemma_mod_bound,
};
use crate::model::{item_views, lemma_item_views_push, ItemView, WikidataItem};
use crate::text::{decimal_string, decimal_text, replace, replace_all};

verus! {

/// One unit of output: the items of a batch and the name to store them under.
#[derive(Debug)]
pub struct OutputUnit {
    pub name: String,
    /// The number of batches of the same source that were flushed before.
    pub ordinal: u64,
    pub items: Vec<WikidataItem>,
}

/// An output unit, in spec terms.
#[verifier::ext_equal]
pub struct UnitView {
    pub name: Seq<char>,
    pub ordinal: nat,
    pub items: Seq<ItemView>,
}

impl View for OutputUnit {
    type V = UnitView;

    open spec fn view(&self) -> UnitView {
        UnitView { name: self.name@, ordinal: self.ordinal as nat, items: item_views(self.items@) }
    }
}

/// The name of the batch with the given ordinal: the source's name, an
/// underscore, the ordinal and `.json`, with every `xml` in it turned into
/// `json`.
pub open spec fn unit_name(source_name: Seq<char>, ordinal: nat) -> Seq<char> {
    replace_all(source_name + "_"@ + decimal_text(ordinal) + ".json"@, "xml"@, "json"@)
}

/// Names the batch `item_bulk` of the source `file_name` after the counter
/// and advances the counter. What is returned is ready for storing.
pub fn save_entities_diff(
    item_bulk: Vec<WikidataItem>,
    file_name: &str,
    current_counter: &mut u64,
) -> (unit: OutputUnit)
    requires
        *old(current_counter) < u64::MAX,
    ensures
        *final(current_counter) == *old(current_counter) + 1,
        unit@ == (UnitView {
            name: unit_name(file_name@, *old(current_counter) as nat),
            ordinal: *old(current_counter) as nat,
            items: item_views(item_bulk@),
        }),
{
    let ordinal = *current_counter;
    let mut plain = String::from_str(file_name);
    plain.append("_");
    plain.append(decimal_string(ordinal).as_str());
    plain.append(".json");
    let name = replace(plain.as_str(), "xml", "json");
    *current_counter = ordinal + 1;
    OutputUnit { name, ordinal, items: item_bulk }
}

/// The state of a batch writer, in spec terms.
#[verifier::ext_equal]
pub struct WriterView {
    pub source_name: Seq<char>,
    pub bulk_size: nat,
    pub buffer: Seq<ItemView>,
    /// How many batches were flushed.
    pub flushes: nat,
}

/// A writer that has taken nothing yet.
pub open spec fn fresh_writer(source_name: Seq<char>, bulk_size: nat) -> WriterView {
    WriterView { source_name, bulk_size, buffer: Seq::empty(), flushes: 0 }
}

/// The batch that a flush hands out.
pub open spec fn flushed_unit(w: WriterView) -> UnitView {
    UnitView { name: unit_name(w.source_name, w.flushes), ordinal: w.flushes, items: w.buffer }
}

/// The writer after a flush.
pub open spec fn after_flush(w: WriterView) -> WriterView {
    WriterView { buffer: Seq::empty(), flushes: w.flushes + 1, ..w }
}

/// The writer after it took `item`, and the batch that this flushed, if any.
pub open spec fn after_accept(w: WriterView, item: ItemView) -> (WriterView, Option<UnitView>) {
    let filled = WriterView { buffer: w.buffer.push(item), ..w };
    if filled.buffer.len() > w.bulk_size {
        (after_flush(filled), Some(flushed_unit(filled)))
    } else {
        (filled, None)
    }
}

/// The writer at the end of the stream, and the last batch, if anything is
/// left for one.
pub open spec fn after_finish(w: WriterView) -> (WriterView, Option<UnitView>) {
    if w.buffer.len() > 0 {
        (after_flush(w), Some(flushed_unit(w)))
    } else {
        (w, None)
    }
}

/// The views of an optional output unit.
pub open spec fn unit_view(unit: Option<OutputUnit>) -> Option<UnitView> {
    match unit {
        Some(unit) => Some(unit@),
        None => None,
    }
}

/// Buffers the completed items of one source and flushes them in batches.
#[derive(Debug)]
pub struct BatchWriter {
    source_name: String,
    bulk_size: usize,
    buffer: Vec<WikidataItem>,
    flushes: u64,
}

impl View for BatchWriter {
    type V = WriterView;

    closed spec fn view(&self) -> WriterView {
        WriterView {
            source_name: self.source_name@,
            bulk_size: self.bulk_size as nat,
            buffer: item_views(self.buffer@),
            flushes: self.flushes as nat,
        }
    }
}

impl BatchWriter {
    /// A writer for the items of the source `source_name`.
    pub fn new(source_name: String, bulk_size: usize) -> (writer: BatchWriter)
        ensures
            writer@ == fresh_writer(source_name@, bulk_size as nat),
    {
        let writer = BatchWriter { source_name, bulk_size, buffer: Vec::new(), flushes: 0 };
        assert(writer@ =~= fresh_writer(source_name@, bulk_size as nat));
        writer
    }

    /// How many batches were flushed.
    pub fn flushes(&self) -> (count: u64)
        ensures
            count == self@.flushes,
    {
        self.flushes
    }

    /// How many items wait in the buffer.
    pub fn buffered(&self) -> (count: usize)
        ensures
            count == self@.buffer.len(),
    {
        self.buffer.len()
    }

    /// Hands out the buffer as a batch, whatever its size, and clears it.
    pub fn flush(&mut self) -> (unit: OutputUnit)
        requires
            old(self)@.flushes < u64::MAX,
        ensures
            final(self)@ == after_flush(old(self)@),
            unit@ == flushed_unit(old(self)@),
    {
        let mut items: Vec<WikidataItem> = Vec::new();
        std::mem::swap(&mut items, &mut self.buffer);
        let unit = save_entities_diff(items, self.source_name.as_str(), &mut self.flushes);
        assert(self@ =~= after_flush(old(self)@));
        unit
    }

    /// Takes a completed item. The item that makes the buffer larger than the
    /// bulk size flushes it.
    pub fn accept(&mut self, item: WikidataItem) -> (unit: Option<OutputUnit>)
        requires
            old(self)@.buffer.len() >= old(self)@.bulk_size ==> old(self)@.flushes < u64::MAX,
        ensures
            (final(self)@, unit_view(unit)) == after_accept(old(self)@, item@),
    {
        proof {
            lemma_item_views_push(self.buffer@, item);
        }
        self.buffer.push(item);
        if self.buffer.len() > self.bulk_size {
            Some(self.flush())
        } else {
            None
        }
    }

    /// Ends the stream: what is left in the buffer is flushed.
    pub fn finish(&mut self) -> (unit: Option<OutputUnit>)
        requires
            old(self)@.buffer.len() > 0 ==> old(self)@.flushes < u64::MAX,
        ensures
            (final(self)@, unit_view(unit)) == after_finish(old(self)@),
    {
        if self.buffer.len() > 0 {
            Some(self.flush())
        } else {
            None
        }
    }
}

/// The writer after it took `items` one by one, and the batches that this
/// flushed, in order.
pub open spec fn after_accepts(w: WriterView, items: Seq<ItemView>) -> (WriterView, Seq<UnitView>)
    decreases items.len(),
{
    if items.len() == 0 {
        (w, Seq::empty())
    } else {
        let (before, units) = after_accepts(w, items.drop_last());
        let (after, unit) = after_accept(before, items.last());
        (
            after,
            match unit {
                Some(unit) => units.push(unit),
                None => units,
            },
        )
    }
}

/// The items of the batch with ordinal `k`, where every batch holds `full`
/// of the items.
pub open spec fn full_batch(items: Seq<ItemView>, k: int, full: int) -> Seq<ItemView> {
    items.subrange(k * full, k * full + full)
}

/// Counting on by one: the quotient grows where the remainder was the
/// largest, else the remainder grows.
proof fn lemma_count_on(count: nat, full: nat)
    requires
        full > 0,
    ensures
        count % full < full,
        count % full == full - 1 ==> (count + 1) / full == count / full + 1 && (count + 1) % full
            == 0,
        count % full != full - 1 ==> (count + 1) / full == count / full && (count + 1) % full
            == count % full + 1,
        count == full * (count / full) + count % full,
{
    let q = count as int / full as int;
    let r = count as int % full as int;
    lemma_fundamental_div_mod(count as int, full as int);
    lemma_mod_bound(count as int, full as int);
    assert(full * q == q * full) by (nonlinear_arith);
    if r == full - 1 {
        assert(count + 1 == (q + 1) * full + 0) by (nonlinear_arith)
            requires
                count == q * full + r,
                r == full - 1,
        ;
        lemma_fundamental_div_mod_converse_div(count as int + 1, full as int, q + 1, 0);
        lemma_fundamental_div_mod_converse_mod(count as int + 1, full as int, q + 1, 0);
    } else {
        lemma_fundamental_div_mod_converse_div(count as int + 1, full as int, q, r + 1);
        lemma_fundamental_div_mod_converse_mod(count as int + 1, full as int, q, r + 1);
    }
}

/// Batching by threshold. A writer with bulk size `bulk_size` that takes
/// `items` one by one flushes a batch with every item that makes the buffer
/// larger than the bulk size: as many batches as `bulk_size + 1` goes into the
/// number of items, each of `bulk_size + 1` consecutive items, numbered from 0.
/// The remainder waits in the buffer, and the end of the stream flushes it as
/// one more batch, unless nothing is left.
pub proof fn law_batches_by_threshold(source_name: Seq<char>, bulk_size: nat, items: Seq<ItemView>)
    ensures
        ({
            let (w, units) = after_accepts(fresh_writer(source_name, bulk_size), items);
            let full = bulk_size + 1;
            let count = items.len() / full;
            let rest = items.len() % full;
            &&& w.source_name == source_name
            &&& w.bulk_size == bulk_size
            &&& w.flushes == count
            &&& units.len() == count
            &&& forall|k: int|
                0 <= k < count ==> #[trigger] units[k] == (UnitView {
                    name: unit_name(source_name, k as nat),
                    ordinal: k as nat,
                    items: full_batch(items, k, full as int),
                })
            &&& w.buffer == items.subrange(items.len() - rest, items.len() as int)
            &&& after_finish(w).1 == if rest == 0 {
                None
            } else {
                Some(
                    UnitView {
                        name: unit_name(source_name, count),
                        ordinal: count,
                        items: items.subrange(items.len() - rest, items.len() as int),
                    },
                )
            }
        }),
    decreases items.len(),
{
    let start = fresh_writer(source_name, bulk_size);
    let full = bulk_size + 1;
    let (w, units) = after_accepts(start, items);
    if items.len() == 0 {
        assert(0nat / full == 0 && 0nat % full == 0) by {
            lemma_fundamental_div_mod_converse_div(0, full as int, 0, 0);
            lemma_fundamental_div_mod_converse_mod(0, full as int, 0, 0);
        }
        assert(w.buffer =~= items.subrange(0, 0));
    } else {
        let earlier = items.drop_last();
        law_batches_by_threshold(source_name, bulk_size, earlier);
        lemma_count_on(earlier.len(), full);
        let (before, flushed) = after_accepts(start, earlier);
        let count = earlier.len() / full;
        let rest = earlier.len() % full;
        let filled = before.buffer.push(items.last());
        assert(filled =~= items.subrange(earlier.len() - rest, items.len() as int));
        assert forall|k: int| 0 <= k < count implies #[trigger] full_batch(items, k, full as int)
            =~= full_batch(earlier, k, full as int) by {
            assert(k * full + full <= count * full) by (nonlinear_arith)
                requires
                    0 <= k < count,
                    full > 0,
            ;
            assert(full * count == count * full) by (nonlinear_arith);
        }
        if rest == full - 1 {
            assert(earlier.len() - rest == count * full) by (nonlinear_arith)
                requires
                    earlier.len() == full * count + rest,
            ;
            assert(units =~= flushed.push(flushed_unit(WriterView { buffer: filled, ..before })));
            assert(w.buffer =~= items.subrange(items.len() as int, items.len() as int));
        } else {
            assert(units =~= flushed);
            assert(w.buffer =~= filled);
        }
    }
}

} // verus!
