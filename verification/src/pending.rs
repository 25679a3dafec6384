//! The ranges of checkpoints that are ready to be pruned but have not been pruned yet.

use crate::watermark::{lemma_first_chunk, PrunerWatermark};
use std::collections::BTreeMap;
use vstd::std_specs::cmp::OrdSpec;
use vstd::std_specs::iter::IteratorSpec;
use vstd::prelude::*;

verus! {

/// Ranges that wait to be pruned, from their first checkpoint to the one after their last.
/// It may hold ranges whose pruning was tried before and failed.
pub struct PendingRanges {
    ranges: BTreeMap<u64, u64>,
}

impl View for PendingRanges {
    type V = Map<u64, u64>;

    closed spec fn view(&self) -> Map<u64, u64> {
        self.ranges@
    }
}

/// `first` is the lowest key of `ranges`.
pub open spec fn is_first_key(ranges: Map<u64, u64>, first: u64) -> bool {
    &&& ranges.contains_key(first)
    &&& forall|k: u64| #[trigger] ranges.contains_key(k) ==> first <= k
}

/// The lowest key of `ranges`, if they have any.
pub open spec fn first_key(ranges: Map<u64, u64>) -> u64 {
    choose|k: u64| is_first_key(ranges, k)
}

/// The first checkpoint that has not been pruned yet, when of those below `scheduled` exactly the
/// ones in `ranges` are left to prune: the first key, or `scheduled` when nothing is left.
pub open spec fn first_unpruned(ranges: Map<u64, u64>, scheduled: u64) -> u64 {
    if ranges == Map::<u64, u64>::empty() {
        scheduled
    } else {
        first_key(ranges)
    }
}

/// No two ranges have a checkpoint in common.
pub open spec fn disjoint(ranges: Map<u64, u64>) -> bool {
    forall|a: u64, b: u64|
        #![trigger ranges.contains_key(a), ranges.contains_key(b)]
        ranges.contains_key(a) && ranges.contains_key(b) && a < b ==> ranges[a] <= b
}

/// The ranges that start below `at`.
pub open spec fn below(ranges: Map<u64, u64>, at: u64) -> Map<u64, u64> {
    Map::new(|k: u64| ranges.contains_key(k) && k < at, |k: u64| ranges[k])
}

/// The range that starts at `k` starts below `at` and reaches beyond it.
pub open spec fn straddles(ranges: Map<u64, u64>, k: u64, at: u64) -> bool {
    ranges.contains_key(k) && k < at < ranges[k]
}

/// The first checkpoint from `at` on that lies in no range which starts below `at`, for ranges that
/// have no checkpoint in common.
pub open spec fn end_below(ranges: Map<u64, u64>, at: u64) -> u64 {
    if exists|k: u64| straddles(ranges, k, at) {
        ranges[choose|k: u64| straddles(ranges, k, at)]
    } else {
        at
    }
}

/// Ranges that hold any have a first key.
pub(crate) proof fn lemma_first_key(ranges: Map<u64, u64>, k: u64)
    requires
        ranges.contains_key(k),
    ensures
        is_first_key(ranges, first_key(ranges)),
    decreases k,
{
    if !is_first_key(ranges, k) {
        let j = choose|j: u64| #[trigger] ranges.contains_key(j) && j < k;
        lemma_first_key(ranges, j);
    }
}

/// A list of ranges in order has one entry for each range, which ends where the range does, and each
/// starts after the one before.
pub proof fn law_lists_each_range_once(list: Seq<(u64, u64)>, ranges: Map<u64, u64>, k: u64)
    requires
        lists_in_order(list, ranges),
    ensures
        ranges.contains_key(k) <==> exists|i: int|
            0 <= i < list.len() && (#[trigger] list[i]).0 == k,
        forall|i: int| 0 <= i < list.len() && (#[trigger] list[i]).0 == k ==> list[i].1 == ranges[k],
        forall|i: int, j: int| 0 <= i < j < list.len() ==> (#[trigger] list[i]).0 < (
        #[trigger] list[j]).0,
{
    if ranges.contains_key(k) {
        assert(list.contains((k, ranges[k])));
        let i = choose|i: int| 0 <= i < list.len() && list[i] == (k, ranges[k]);
        assert(list[i].0 == k);
    }
}

/// Of ranges that have no checkpoint in common, those that start below `at` are kept as they are,
/// and no other. From `at` on they hold what lies below the end that is returned, and nothing from
/// there on.
pub proof fn law_keeps_what_starts_below(ranges: Map<u64, u64>, at: u64, k: u64)
    requires
        forall|a: u64, b: u64|
            #![trigger ranges.contains_key(a), ranges.contains_key(b)]
            ranges.contains_key(a) && ranges.contains_key(b) && a < b ==> ranges[a] <= b,
    ensures
        below(ranges, at).contains_key(k) <==> ranges.contains_key(k) && k < at,
        below(ranges, at).contains_key(k) ==> below(ranges, at)[k] == ranges[k] && ranges[k]
            <= end_below(ranges, at),
        at <= end_below(ranges, at),
        at < end_below(ranges, at) ==> exists|j: u64| #[trigger]
            ranges.contains_key(j) && j < at && ranges[j] == end_below(ranges, at),
{
    if exists|j: u64| straddles(ranges, j, at) {
        let j = choose|j: u64| straddles(ranges, j, at);
        assert(ranges.contains_key(j));
    }
    if ranges.contains_key(k) && k < at && at < ranges[k] {
        assert(straddles(ranges, k, at));
    }
}

/// The first checkpoint that has not been pruned is the lowest one that is left, or the end of
/// everything that was scheduled if none is left.
pub proof fn law_first_unpruned(ranges: Map<u64, u64>, scheduled: u64)
    ensures
        forall|k: u64| #[trigger]
            ranges.contains_key(k) ==> first_unpruned(ranges, scheduled) <= k,
        (exists|k: u64| ranges.contains_key(k)) ==> ranges.contains_key(
            first_unpruned(ranges, scheduled),
        ),
        (forall|k: u64| !ranges.contains_key(k)) ==> first_unpruned(ranges, scheduled) == scheduled,
        (forall|k: u64| #[trigger] ranges.contains_key(k) ==> k <= scheduled) ==> first_unpruned(
            ranges,
            scheduled,
        ) <= scheduled,
{
    if exists|k: u64| ranges.contains_key(k) {
        lemma_first_key(ranges, choose|k: u64| ranges.contains_key(k));
    } else {
        assert(ranges =~= Map::<u64, u64>::empty());
    }
}

/// `list` holds the entries of `ranges`, each once, by increasing key.
pub open spec fn lists_in_order(list: Seq<(u64, u64)>, ranges: Map<u64, u64>) -> bool {
    &&& forall|i: int, j: int| 0 <= i < j < list.len() ==> list[i].0 < list[j].0
    &&& forall|i: int|
        0 <= i < list.len() ==> ranges.contains_key(#[trigger] list[i].0) && ranges[list[i].0]
            == list[i].1
    &&& forall|k: u64| #[trigger] ranges.contains_key(k) ==> list.contains((k, ranges[k]))
}

/// What walking the map yields.
spec fn entries_of(entries: Seq<(&u64, &u64)>, ranges: Map<u64, u64>) -> bool {
    &&& forall|i: int, j: int|
        0 <= i < j < entries.len() ==> *(#[trigger] entries[i]).0 < *(#[trigger] entries[j]).0
    &&& forall|i: int|
        0 <= i < entries.len() ==> ranges.contains_key(*(#[trigger] entries[i]).0)
            && ranges[*entries[i].0] == *entries[i].1
    &&& forall|k: u64| #[trigger]
        ranges.contains_key(k) ==> exists|i: int|
            0 <= i < entries.len() && *(#[trigger] entries[i]).0 == k
}

impl Clone for PendingRanges {
    fn clone(&self) -> (copy: Self)
        ensures
            copy@ == self@,
    {
        PendingRanges { ranges: self.ranges.clone() }
    }
}

impl PendingRanges {
    proof fn lemma_entries(&self, entries: Seq<(&u64, &u64)>)
        requires
            entries == vstd::std_specs::btree::spec_btree_map_iter(&self.ranges).remaining(),
            vstd::std_specs::btree::increasing_seq(
                entries.map_values(|kv: (&u64, &u64)| *kv.0),
            ),
        ensures
            entries_of(entries, self.ranges@),
    {
        broadcast use vstd::std_specs::btree::group_btree_axioms;
        broadcast use vstd::laws_cmp::group_laws_cmp;

        let keys = entries.map_values(|kv: (&u64, &u64)| *kv.0);
        assert forall|i: int, j: int| 0 <= i < j < entries.len() implies *(
        #[trigger] entries[i]).0 < *(#[trigger] entries[j]).0 by {
            assert(keys[i].cmp_spec(&keys[j]) is Less);
        }
        assert forall|k: u64| #[trigger] self.ranges@.contains_key(k) implies exists|i: int|
            0 <= i < entries.len() && *(#[trigger] entries[i]).0 == k by {
            assert(entries.contains((&k, &self.ranges@[k])));
        }
    }

    /// No ranges.
    pub fn new() -> (pending: Self)
        ensures
            pending@ == Map::<u64, u64>::empty(),
    {
        PendingRanges { ranges: BTreeMap::new() }
    }

    /// Adds the range from `from` to `to_exclusive`, in place of one that starts where it does.
    pub fn insert(&mut self, from: u64, to_exclusive: u64)
        ensures
            final(self)@ == old(self)@.insert(from, to_exclusive),
    {
        broadcast use vstd::std_specs::btree::group_btree_axioms;
        broadcast use vstd::laws_cmp::group_laws_cmp;

        self.ranges.insert(from, to_exclusive);
    }

    /// Takes out the range that starts at `from`, and returns where it ended.
    pub fn remove(&mut self, from: u64) -> (to_exclusive: Option<u64>)
        ensures
            final(self)@ == old(self)@.remove(from),
            to_exclusive is Some <==> old(self)@.contains_key(from),
            to_exclusive matches Some(end) ==> end == old(self)@[from],
    {
        broadcast use vstd::std_specs::btree::group_btree_axioms;
        broadcast use vstd::laws_cmp::group_laws_cmp;

        self.ranges.remove(&from)
    }

    /// How many ranges there are.
    pub fn len(&self) -> (len: usize)
        ensures
            len == self@.len(),
    {
        broadcast use vstd::std_specs::btree::group_btree_axioms;
        broadcast use vstd::laws_cmp::group_laws_cmp;

        self.ranges.len()
    }

    /// The first range.
    pub fn first(&self) -> (first: Option<(u64, u64)>)
        ensures
            first is None <==> self@ == Map::<u64, u64>::empty(),
            first matches Some((from, to_exclusive)) ==> {
                &&& is_first_key(self@, from)
                &&& from == first_key(self@)
                &&& to_exclusive == self@[from]
            },
    {
        broadcast use vstd::std_specs::btree::group_btree_axioms;
        broadcast use vstd::laws_cmp::group_laws_cmp;

        let iter = self.ranges.iter();
        let ghost entries = iter.remaining();
        proof {
            self.lemma_entries(entries);
        }
        for entry in it: iter
            invariant
                it.index() == 0,
                it.seq() == entries,
                entries_of(entries, self.ranges@),
        {
            assert forall|k: u64| #[trigger] self@.contains_key(k) implies *entry.0 <= k by {
                let i = choose|i: int| 0 <= i < entries.len() && *(#[trigger] entries[i]).0 == k;
                if i > 0 {
                    assert(*entries[0].0 < *entries[i].0);
                }
            }
            assert(is_first_key(self@, *entry.0));
            return Some((*entry.0, *entry.1));
        }
        assert(self@ =~= Map::<u64, u64>::empty());
        None
    }

    /// The first checkpoint that has not been pruned yet, when of those below `scheduled` exactly
    /// the ones in these ranges are left to prune.
    pub fn first_unpruned(&self, scheduled: u64) -> (first: u64)
        ensures
            first == first_unpruned(self@, scheduled),
    {
        match self.first() {
            Some((first, _)) => first,
            None => scheduled,
        }
    }

    /// Takes out every range that starts at or above `at`. Returns the first checkpoint from `at`
    /// on that lies in none of those which stay.
    pub fn keep_below(&mut self, at: u64) -> (end: u64)
        requires
            disjoint(old(self)@),
        ensures
            final(self)@ == below(old(self)@, at),
            end == end_below(old(self)@, at),
    {
        let ghost before = self@;
        let list = self.ranges();
        let mut end: u64 = at;
        for i in 0..list.len()
            invariant
                lists_in_order(list@, before),
                disjoint(before),
                forall|k: u64| #[trigger]
                    self@.contains_key(k) ==> before.contains_key(k) && self@[k] == before[k],
                forall|k: u64|
                    before.contains_key(k) && k < at ==> #[trigger] self@.contains_key(k),
                forall|j: int|
                    0 <= j < i && at <= list[j].0 ==> !self@.contains_key(#[trigger] list[j].0),
                end == at || exists|k: u64| straddles(before, k, at) && end == before[k],
                forall|j: int| 0 <= j < i && straddles(before, #[trigger] list[j].0, at) ==> end
                    == list[j].1,
        {
            let (from, to_exclusive) = list[i];
            assert(before.contains_key(list[i as int].0));
            if at <= from {
                self.remove(from);
            } else if at < to_exclusive {
                end = to_exclusive;
                assert(straddles(before, from, at));
                assert forall|j: int|
                    0 <= j < i && straddles(before, #[trigger] list[j].0, at) implies end
                    == list[j].1 by {
                    assert(before.contains_key(list[j].0));
                }
            }
        }
        proof {
            assert forall|k: u64| #[trigger] self@.contains_key(k) implies k < at by {
                assert(list@.contains((k, before[k])));
                let j = choose|j: int| 0 <= j < list.len() && list[j] == (k, before[k]);
                assert(list[j].0 == k);
            }
            assert(self@ =~= below(before, at));
            if exists|k: u64| straddles(before, k, at) {
                let k = choose|k: u64| straddles(before, k, at);
                assert(list@.contains((k, before[k])));
                let j = choose|j: int| 0 <= j < list.len() && list[j] == (k, before[k]);
                assert(straddles(before, list[j].0, at));
            }
        }
        end
    }

    /// The ranges, by increasing first checkpoint.
    pub fn ranges(&self) -> (list: Vec<(u64, u64)>)
        ensures
            lists_in_order(list@, self@),
    {
        broadcast use vstd::std_specs::btree::group_btree_axioms;
        broadcast use vstd::laws_cmp::group_laws_cmp;

        let mut list: Vec<(u64, u64)> = Vec::new();
        let iter = self.ranges.iter();
        let ghost entries = iter.remaining();
        for entry in it: iter
            invariant
                it.seq() == entries,
                list.len() == it.index(),
                forall|i: int|
                    0 <= i < list.len() ==> list[i] == (*entries[i].0, *(#[trigger] entries[i]).1),
        {
            list.push((*entry.0, *entry.1));
        }
        proof {
            self.lemma_entries(entries);
            assert(list.len() == entries.len());
            assert forall|i: int, j: int| 0 <= i < j < list.len() implies list[i].0 < list[j].0 by {
                assert(*entries[i].0 < *entries[j].0);
            }
            assert forall|i: int| 0 <= i < list.len() implies self@.contains_key(
                #[trigger] list[i].0,
            ) && self@[list[i].0] == list[i].1 by {
                assert(self.ranges@.contains_key(*entries[i].0));
            }
            assert forall|k: u64| #[trigger] self@.contains_key(k) implies list@.contains(
                (k, self@[k]),
            ) by {
                let i = choose|i: int| 0 <= i < entries.len() && *(#[trigger] entries[i]).0 == k;
                assert(list@[i] == (k, self@[k]));
            }
        }
        list
    }

    /// Adds every chunk of `size` checkpoints that `watermark` has ready, and advances the
    /// watermark past them.
    pub fn schedule(&mut self, watermark: &mut PrunerWatermark, size: u64)
        requires
            old(watermark).well_formed(),
            old(watermark).divisible(size),
        ensures
            final(self)@ == old(self)@.union_prefer_right(old(watermark).chunks(size)),
            *final(watermark) == (PrunerWatermark {
                pruner_hi: if old(watermark).pruner_hi < old(watermark).reader_lo {
                    old(watermark).reader_lo
                } else {
                    old(watermark).pruner_hi
                },
                ..*old(watermark)
            }),
    {
        let ghost before = *watermark;
        let ghost target = self@.union_prefer_right(watermark.chunks(size));
        loop
            invariant
                watermark.well_formed(),
                watermark.divisible(size),
                target == self@.union_prefer_right(watermark.chunks(size)),
                watermark.reader_lo == before.reader_lo,
                watermark.wait_for == before.wait_for,
                before.pruner_hi <= watermark.pruner_hi,
                watermark.pruner_hi == before.pruner_hi || watermark.pruner_hi <= before.reader_lo,
            ensures
                watermark.pruner_hi >= watermark.reader_lo,
            decreases watermark.reader_lo - watermark.pruner_hi,
        {
            let ghost here = *watermark;
            match watermark.next_chunk(size) {
                Some((from, to_exclusive)) => {
                    self.insert(from, to_exclusive);
                    proof {
                        lemma_first_chunk(
                            here.pruner_hi as int,
                            here.reader_lo as int,
                            size as int,
                        );
                        assert(target =~= self@.union_prefer_right(watermark.chunks(size)));
                    }
                },
                None => {
                    break;
                },
            }
        }
        assert(watermark.chunks(size) =~= Map::<u64, u64>::empty());
        assert(target =~= self@);
    }
}

} // verus!
