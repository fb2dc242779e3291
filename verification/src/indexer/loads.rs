//! Grouping the items of stored batch files into loads for the document
//! store: a load goes out with the file that makes the number of files larger
//! than the bulk size.

use vstd::prelude::*;
use crate::indexer::model::{StoredItemView, WikidataItem};
use crate::indexer::mongo::stored_views;

verus! {

/// The state of a loader, in spec terms.
#[verifier::ext_equal]
pub struct LoaderView {
    pub bulk_size: nat,
    /// How many files were read since the last load.
    pub files: nat,
    /// The items of these files, in the order in which they were read.
    pub entities: Seq<StoredItemView>,
}

/// A loader that has read nothing yet.
pub open spec fn fresh_loader(bulk_size: nat) -> LoaderView {
    LoaderView { bulk_size, files: 0, entities: Seq::empty() }
}

/// The loader after the items of one more file, and the load that this sent
/// out, if any.
pub open spec fn after_file(loader: LoaderView, items: Seq<StoredItemView>) -> (
    LoaderView,
    Option<Seq<StoredItemView>>,
) {
    if loader.files + 1 > loader.bulk_size {
        (fresh_loader(loader.bulk_size), Some(loader.entities + items))
    } else {
        (
            LoaderView { files: loader.files + 1, entities: loader.entities + items, ..loader },
            None,
        )
    }
}

/// The loader after the last file, and the load of what was left, if
/// anything was.
pub open spec fn after_last_file(loader: LoaderView) -> (LoaderView, Option<Seq<StoredItemView>>) {
    if loader.entities.len() > 0 {
        (fresh_loader(loader.bulk_size), Some(loader.entities))
    } else {
        (loader, None)
    }
}

/// The view of an optional load.
pub open spec fn load_view(load: Option<Vec<WikidataItem>>) -> Option<Seq<StoredItemView>> {
    match load {
        Some(items) => Some(stored_views(items@)),
        None => None,
    }
}

/// Collects the items of stored batch files until they make a load.
#[derive(Debug)]
pub struct Loader {
    bulk_size: usize,
    files: usize,
    entities: Vec<WikidataItem>,
}

impl View for Loader {
    type V = LoaderView;

    closed spec fn view(&self) -> LoaderView {
        LoaderView {
            bulk_size: self.bulk_size as nat,
            files: self.files as nat,
            entities: stored_views(self.entities@),
        }
    }
}

impl Loader {
    /// A loader that sends a load out with every file after the first
    /// `bulk_size` files.
    pub fn new(bulk_size: usize) -> (loader: Loader)
        ensures
            loader@ == fresh_loader(bulk_size as nat),
    {
        let loader = Loader { bulk_size, files: 0, entities: Vec::new() };
        assert(loader@ =~= fresh_loader(bulk_size as nat));
        loader
    }

    fn take_entities(&mut self) -> (load: Vec<WikidataItem>)
        ensures
            load@ == old(self).entities@,
            final(self)@ == fresh_loader(old(self)@.bulk_size),
    {
        let mut load: Vec<WikidataItem> = Vec::new();
        std::mem::swap(&mut load, &mut self.entities);
        self.files = 0;
        assert(self@ =~= fresh_loader(old(self)@.bulk_size));
        load
    }

    /// Takes the items of one more file.
    pub fn add_file(&mut self, items: Vec<WikidataItem>) -> (load: Option<Vec<WikidataItem>>)
        ensures
            (final(self)@, load_view(load)) == after_file(old(self)@, stored_views(items@)),
    {
        let mut items = items;
        let ghost added = stored_views(items@);
        let ghost before = stored_views(self.entities@);
        self.entities.append(&mut items);
        assert(stored_views(self.entities@) =~= before + added);
        if self.files >= self.bulk_size {
            Some(self.take_entities())
        } else {
            self.files += 1;
            None
        }
    }

    /// Ends the reading: what is left goes out as a last load.
    pub fn finish(&mut self) -> (load: Option<Vec<WikidataItem>>)
        ensures
            (final(self)@, load_view(load)) == after_last_file(old(self)@),
    {
        if self.entities.len() > 0 {
            Some(self.take_entities())
        } else {
            None
        }
    }
}

} // verus!
