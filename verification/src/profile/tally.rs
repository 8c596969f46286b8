//! Counts by address.
use std::collections::HashMap;

use vstd::prelude::*;

verus! {

/// Addresses with their counts, in the order in which the addresses first came up.
pub type Counts = Seq<(u64, u64)>;

/// Where an address stands, if it does.
pub open spec fn place_of(counts: Counts, address: u64) -> Option<int> {
    if exists|i: int| 0 <= i < counts.len() && (#[trigger] counts[i]).0 == address {
        Some(choose|i: int| 0 <= i < counts.len() && (#[trigger] counts[i]).0 == address)
    } else {
        None
    }
}

/// The count of an address.
pub open spec fn count_of(counts: Counts, address: u64) -> int {
    match place_of(counts, address) {
        Some(i) => counts[i].1 as int,
        None => 0,
    }
}

/// The counts with one more for an address.
pub open spec fn with_one(counts: Counts, address: u64) -> Counts {
    match place_of(counts, address) {
        Some(i) => counts.update(i, (address, (counts[i].1 + 1) as u64)),
        None => counts.push((address, 1)),
    }
}

/// The sum of all counts.
pub open spec fn sum_of(counts: Counts) -> int
    decreases counts.len(),
{
    if counts.len() == 0 {
        0
    } else {
        sum_of(counts.drop_last()) + counts.last().1
    }
}

/// No address occurs twice.
pub open spec fn distinct_addresses(counts: Counts) -> bool {
    forall|i: int, j: int|
        0 <= i < j < counts.len() ==> (#[trigger] counts[i]).0 != (#[trigger] counts[j]).0
}

/// Counts by address.
#[derive(Debug)]
pub struct Tally {
    entries: Vec<(u64, u64)>,
    places: HashMap<u64, usize>,
}

impl View for Tally {
    type V = Counts;

    closed spec fn view(&self) -> Counts {
        self.entries@
    }
}

impl Tally {
    pub closed spec fn wf(&self) -> bool {
        &&& distinct_addresses(self@)
        &&& forall|i: int|
            0 <= i < self@.len() ==> self.places@.contains_key((#[trigger] self@[i]).0)
                && self.places@[self@[i].0] == i
        &&& forall|a: u64|
            self.places@.contains_key(a) ==> 0 <= #[trigger] self.places@[a] < self@.len()
                && self@[self.places@[a] as int].0 == a
    }

    /// The addresses that are counted are distinct.
    pub proof fn addresses_are_distinct(&self)
        requires
            self.wf(),
        ensures
            distinct_addresses(self@),
    {
    }

    pub fn new() -> (t: Self)
        ensures
            t.wf(),
            t@ == Counts::empty(),
    {
        Tally { entries: Vec::new(), places: HashMap::new() }
    }

    pub fn len(&self) -> (n: usize)
        ensures
            n == self@.len(),
    {
        self.entries.len()
    }

    /// An address and its count.
    pub fn entry(&self, i: usize) -> (e: (u64, u64))
        requires
            i < self@.len(),
        ensures
            e == self@[i as int],
    {
        self.entries[i]
    }

    /// Count an address once more.
    pub fn count(&mut self, address: u64)
        requires
            old(self).wf(),
            count_of(old(self)@, address) < u64::MAX,
        ensures
            final(self).wf(),
            final(self)@ == with_one(old(self)@, address),
    {
        let ghost before = self@;
        if let Some(place) = self.places.get(&address) {
            let i: usize = *place;
            assert(before[i as int].0 == address);
            assert(place_of(before, address) == Some(i as int));
            let (_, count) = self.entries[i];
            self.entries.set(i, (address, count + 1));
        } else {
            proof {
                if let Some(k) = place_of(before, address) {
                    assert(self.places@.contains_key(before[k].0));
                }
            }
            let i: usize = self.entries.len();
            self.entries.push((address, 1));
            self.places.insert(address, i);
            assert(self@ =~= before.push((address, 1)));
        }
    }
}

/// Counting an address adds one to its count, one to the sum, and nothing to any other.
pub proof fn counting_adds_one(counts: Counts, address: u64, other: u64)
    requires
        distinct_addresses(counts),
        count_of(counts, address) < u64::MAX,
    ensures
        distinct_addresses(with_one(counts, address)),
        sum_of(with_one(counts, address)) == sum_of(counts) + 1,
        count_of(with_one(counts, address), address) == count_of(counts, address) + 1,
        other != address ==> count_of(with_one(counts, address), other) == count_of(counts, other),
{
    let after = with_one(counts, address);
    match place_of(counts, address) {
        Some(i) => {
            sum_update(counts, i, after[i]);
            assert(after[i].0 == address);
            assert forall|k: int| 0 <= k < after.len() implies (#[trigger] after[k]).0
                == counts[k].0 by {}
        },
        None => {
            assert(after.drop_last() =~= counts);
            assert(after[counts.len() as int].0 == address);
            assert forall|k: int| 0 <= k < counts.len() implies (#[trigger] after[k])
                == counts[k] by {}
        },
    }
    if other != address {
        if let Some(k) = place_of(counts, other) {
            assert(after[k].0 == other);
        }
        if let Some(k) = place_of(after, other) {
            assert(counts[k].0 == other);
        }
    }
}

proof fn sum_update(counts: Counts, i: int, entry: (u64, u64))
    requires
        0 <= i < counts.len(),
    ensures
        sum_of(counts.update(i, entry)) == sum_of(counts) - counts[i].1 + entry.1,
    decreases counts.len(),
{
    let after = counts.update(i, entry);
    if i == counts.len() - 1 {
        assert(after.drop_last() =~= counts.drop_last());
    } else {
        assert(after.drop_last() =~= counts.drop_last().update(i, entry));
        sum_update(counts.drop_last(), i, entry);
    }
}

/// No count exceeds the sum of all.
pub proof fn counts_are_bounded(counts: Counts, address: u64)
    ensures
        0 <= count_of(counts, address) <= sum_of(counts),
{
    sum_is_positive(counts);
    if let Some(i) = place_of(counts, address) {
        entry_is_bounded(counts, i);
    }
}

proof fn entry_is_bounded(counts: Counts, i: int)
    requires
        0 <= i < counts.len(),
    ensures
        counts[i].1 <= sum_of(counts),
    decreases counts.len(),
{
    sum_is_positive(counts.drop_last());
    if i < counts.len() - 1 {
        entry_is_bounded(counts.drop_last(), i);
    }
}

proof fn sum_is_positive(counts: Counts)
    ensures
        sum_of(counts) >= 0,
    decreases counts.len(),
{
    if counts.len() > 0 {
        sum_is_positive(counts.drop_last());
    }
}

} // verus!
