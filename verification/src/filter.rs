//! The membership filter: which item identifiers are processed at all.

use vstd::prelude::*;
use vstd::string::StringSliceAdditionalSpecFns;
use crate::text::{str_equal, trim, trimmed};

verus! {

/// A number computed from the bytes of a text, by which the identifiers of a
/// list are spread over its buckets.
spec fn text_hash(bytes: Seq<u8>) -> nat
    decreases bytes.len(),
{
    if bytes.len() == 0 {
        0
    } else {
        (text_hash(bytes.drop_last()) * 31 + bytes.last() as nat) % 1_000_000_007
    }
}

/// The bucket of an identifier among `count` buckets.
spec fn bucket_of(identifier: Seq<char>, count: nat) -> int {
    text_hash(vstd::utf8::encode_utf8(identifier)) as int % count as int
}

/// Whether one of the buckets holds the identifier.
spec fn in_buckets(buckets: Seq<Vec<String>>, identifier: Seq<char>) -> bool {
    exists|k: int, i: int|
        0 <= k < buckets.len() && 0 <= i < buckets[k]@.len() && #[trigger] buckets[k]@[i]@
            == identifier
}

/// Whether every identifier lies in the bucket that its text gives.
spec fn in_place(buckets: Seq<Vec<String>>) -> bool {
    forall|k: int, i: int|
        0 <= k < buckets.len() && 0 <= i < buckets[k]@.len() ==> bucket_of(
            #[trigger] buckets[k]@[i]@,
            buckets.len(),
        ) == k
}

fn hash_of(text: &str) -> (hash: u64)
    ensures
        hash == text_hash(text.spec_bytes()),
        hash < 1_000_000_007,
{
    let bytes = text.as_bytes();
    let mut hash: u64 = 0;
    let mut i: usize = 0;
    assert(bytes@.take(0) =~= Seq::<u8>::empty());
    while i < bytes.len()
        invariant
            i <= bytes.len(),
            hash == text_hash(bytes@.take(i as int)),
            hash < 1_000_000_007,
        decreases bytes.len() - i,
    {
        assert(bytes@.take(i + 1).drop_last() =~= bytes@.take(i as int));
        hash = (hash * 31 + bytes[i] as u64) % 1_000_000_007;
        i += 1;
    }
    assert(bytes@.take(i as int) =~= bytes@);
    hash
}

/// The identifiers to retain. A filter built without a list accepts every
/// identifier. The identifiers of a list are kept in buckets, so that a lookup
/// compares only the few that share a bucket.
#[derive(Debug)]
pub struct MembershipFilter {
    buckets: Option<Vec<Vec<String>>>,
}

impl MembershipFilter {
    #[verifier::type_invariant]
    spec fn well_formed(self) -> bool {
        match self.buckets {
            Some(buckets) => buckets@.len() > 0 && in_place(buckets@),
            None => true,
        }
    }

    /// Whether the filter was built without a list.
    pub closed spec fn accepts_all(&self) -> bool {
        self.buckets.is_none()
    }

    /// The identifiers of the list, where there is one.
    pub closed spec fn listed(&self) -> Set<Seq<char>> {
        match self.buckets {
            Some(buckets) => Set::new(|id: Seq<char>| in_buckets(buckets@, id)),
            None => Set::empty(),
        }
    }

    /// Whether an item with this identifier is processed.
    pub open spec fn accepts(&self, identifier: Seq<char>) -> bool {
        self.accepts_all() || self.listed().contains(identifier)
    }

    /// The filter of a run without a membership list.
    pub fn accept_all() -> (filter: MembershipFilter)
        ensures
            filter.accepts_all(),
    {
        MembershipFilter { buckets: None }
    }

    /// The filter that retains exactly the given identifiers.
    pub fn from_list(ids: Vec<String>) -> (filter: MembershipFilter)
        ensures
            !filter.accepts_all(),
            forall|id: Seq<char>|
                filter.listed().contains(id) <==> exists|i: int|
                    0 <= i < ids@.len() && #[trigger] ids@[i]@ == id,
    {
        let count: usize = ids.len() / 2 + 1;
        let mut buckets: Vec<Vec<String>> = Vec::new();
        while buckets.len() < count
            invariant
                buckets@.len() <= count,
                forall|k: int| 0 <= k < buckets@.len() ==> (#[trigger] buckets@[k])@.len() == 0,
            decreases count - buckets@.len(),
        {
            buckets.push(Vec::new());
        }
        for id in it: ids
            invariant
                it.seq() == ids@,
                buckets@.len() == count,
                count > 0,
                in_place(buckets@),
                forall|id: Seq<char>|
                    in_buckets(buckets@, id) <==> exists|j: int|
                        0 <= j < it.index() && #[trigger] ids@[j]@ == id,
        {
            assert(id == ids@[it.index() as int]);
            let ghost before = buckets@;
            let place = (hash_of(id.as_str()) % (count as u64)) as usize;
            buckets[place].push(id);
            proof {
                let last = before[place as int]@.len() as int;
                assert(buckets@[place as int]@[last] == id);
                assert forall|k: int, i: int|
                    0 <= k < buckets@.len() && 0 <= i < buckets@[k]@.len() implies bucket_of(
                    #[trigger] buckets@[k]@[i]@,
                    buckets@.len(),
                ) == k by {
                    if k == place && i == last {
                    } else {
                        assert(buckets@[k]@[i] == before[k]@[i]);
                    }
                }
                assert forall|other: Seq<char>|
                    in_buckets(buckets@, other) <==> exists|j: int|
                        0 <= j < it.index() + 1 && #[trigger] ids@[j]@ == other by {
                    if in_buckets(buckets@, other) {
                        let (k, i) = choose|k: int, i: int|
                            0 <= k < buckets@.len() && 0 <= i < buckets@[k]@.len()
                                && #[trigger] buckets@[k]@[i]@ == other;
                        if k == place && i == last {
                            assert(ids@[it.index() as int]@ == other);
                        } else {
                            assert(before[k]@[i]@ == other);
                            assert(in_buckets(before, other));
                            let j = choose|j: int| 0 <= j < it.index() && #[trigger] ids@[j]@ == other;
                            assert(ids@[j]@ == other);
                        }
                    }
                    if exists|j: int| 0 <= j < it.index() + 1 && #[trigger] ids@[j]@ == other {
                        let j = choose|j: int| 0 <= j < it.index() + 1 && #[trigger] ids@[j]@ == other;
                        if j == it.index() {
                            assert(buckets@[place as int]@[last]@ == other);
                        } else {
                            assert(in_buckets(before, other));
                            let (k, i) = choose|k: int, i: int|
                                0 <= k < before.len() && 0 <= i < before[k]@.len()
                                    && #[trigger] before[k]@[i]@ == other;
                            assert(buckets@[k]@[i]@ == other);
                        }
                    }
                }
            }
        }
        MembershipFilter { buckets: Some(buckets) }
    }

    /// Whether an item with this identifier is processed.
    pub fn contains(&self, identifier: &str) -> (found: bool)
        ensures
            found == self.accepts(identifier@),
    {
        proof {
            use_type_invariant(self);
        }
        match &self.buckets {
            None => true,
            Some(buckets) => {
                let place = (hash_of(identifier) % (buckets.len() as u64)) as usize;
                let bucket = &buckets[place];
                let mut i: usize = 0;
                while i < bucket.len()
                    invariant
                        i <= bucket.len(),
                        self.buckets == Some(*buckets),
                        place < buckets@.len(),
                        *bucket == buckets@[place as int],
                        forall|k: int| 0 <= k < i ==> #[trigger] bucket@[k]@ != identifier@,
                    decreases bucket.len() - i,
                {
                    if str_equal(bucket[i].as_str(), identifier) {
                        assert(buckets@[place as int]@[i as int]@ == identifier@);
                        return true;
                    }
                    i += 1;
                }
                proof {
                    if in_buckets(buckets@, identifier@) {
                        let (k, j) = choose|k: int, j: int|
                            0 <= k < buckets@.len() && 0 <= j < buckets@[k]@.len()
                                && #[trigger] buckets@[k]@[j]@ == identifier@;
                        assert(bucket_of(buckets@[k]@[j]@, buckets@.len()) == k);
                        assert(bucket@[j]@ == identifier@);
                    }
                }
                false
            },
        }
    }
}

/// Builds the filter of a membership list from the lines of its file: each
/// line, trimmed of the whitespace around it, is one identifier.
pub fn get_entities_to_fetch(lines: &Vec<String>) -> (filter: MembershipFilter)
    ensures
        !filter.accepts_all(),
        forall|id: Seq<char>|
            filter.listed().contains(id) <==> exists|i: int|
                0 <= i < lines@.len() && trimmed(#[trigger] lines@[i]@) == id,
{
    let mut ids: Vec<String> = Vec::new();
    let mut i: usize = 0;
    while i < lines.len()
        invariant
            i <= lines.len(),
            ids@.len() == i,
            forall|k: int| 0 <= k < i ==> (#[trigger] ids@[k])@ == trimmed(lines@[k]@),
        decreases lines.len() - i,
    {
        ids.push(trim(lines[i].as_str()));
        i += 1;
    }
    let filter = MembershipFilter::from_list(ids);
    assert forall|id: Seq<char>|
        filter.listed().contains(id) <==> exists|i: int|
            0 <= i < lines@.len() && trimmed(#[trigger] lines@[i]@) == id by {
        if filter.listed().contains(id) {
            let k = choose|k: int| 0 <= k < ids@.len() && #[trigger] ids@[k]@ == id;
            assert(trimmed(lines@[k]@) == id);
        }
        if exists|i: int| 0 <= i < lines@.len() && trimmed(#[trigger] lines@[i]@) == id {
            let k = choose|k: int| 0 <= k < lines@.len() && trimmed(#[trigger] lines@[k]@) == id;
            assert(ids@[k]@ == id);
        }
    }
    filter
}

} // verus!
