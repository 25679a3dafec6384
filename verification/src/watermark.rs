//! The bounds between which a pipeline's data is pruned.

use vstd::prelude::*;

verus! {

/// What the `watermarks` table says about the data that a pipeline still has to prune.
#[derive(Clone, Copy, Debug, PartialEq, Eq, Structural)]
pub struct PrunerWatermark {
    /// How many milliseconds have to pass before these bounds may be acted upon. It is zero or
    /// negative when there is nothing to wait for.
    pub wait_for: i64,
    /// Readers may still look at this checkpoint and all later ones (exclusive upper bound).
    pub reader_lo: i64,
    /// All checkpoints below this one have been pruned (inclusive lower bound).
    pub pruner_hi: i64,
}

/// Checkpoint `c` lies in one of the ranges.
pub open spec fn covers(ranges: Map<u64, u64>, c: int) -> bool {
    exists|from: u64| #[trigger] ranges.contains_key(from) && from <= c < ranges[from]
}

/// The ranges that make up `[hi, lo)` when it is cut into pieces of `size` checkpoints, from the
/// first checkpoint of each to the one after its last. Only the last piece may be shorter.
pub open spec fn chunk_map(hi: int, lo: int, size: int) -> Map<u64, u64> {
    Map::new(
        |from: u64| hi <= from < lo && (from - hi) % size == 0,
        |from: u64| chunk_end(from as int, lo, size) as u64,
    )
}

/// Where the chunk ends that starts at `from`.
pub open spec fn chunk_end(from: int, lo: int, size: int) -> int {
    if from + size <= lo {
        from + size
    } else {
        lo
    }
}

impl PrunerWatermark {
    /// Checkpoints are counted from zero.
    pub open spec fn well_formed(self) -> bool {
        0 <= self.pruner_hi
    }

    /// Chunks of `size` checkpoints can make up what is ready to be pruned: they are not empty,
    /// or there is nothing to make up.
    pub open spec fn divisible(self, size: u64) -> bool {
        self.pruner_hi < self.reader_lo ==> size > 0
    }

    /// The ranges that are ready to be pruned, in chunks of `size` checkpoints.
    pub open spec fn chunks(self, size: u64) -> Map<u64, u64> {
        chunk_map(self.pruner_hi as int, self.reader_lo as int, size as int)
    }

    /// How many milliseconds to wait before acting on the bounds, if any.
    pub fn wait_for(&self) -> (delay_ms: Option<u64>)
        ensures
            delay_ms is Some <==> self.wait_for > 0,
            delay_ms matches Some(ms) ==> ms == self.wait_for,
    {
        if self.wait_for > 0 {
            Some(self.wait_for as u64)
        } else {
            None
        }
    }

    /// The next range to prune, of at most `size` checkpoints, as its first checkpoint and the one
    /// after its last. Advances `pruner_hi` past it. There is none when everything below
    /// `reader_lo` has been handed out.
    pub fn next_chunk(&mut self, size: u64) -> (chunk: Option<(u64, u64)>)
        requires
            old(self).well_formed(),
        ensures
            final(self).well_formed(),
            chunk is Some <==> old(self).pruner_hi < old(self).reader_lo,
            chunk is None ==> *final(self) == *old(self),
            chunk matches Some((from, to_exclusive)) ==> {
                &&& from == old(self).pruner_hi
                &&& to_exclusive == chunk_end(from as int, old(self).reader_lo as int, size as int)
                &&& *final(self) == (PrunerWatermark {
                    pruner_hi: to_exclusive as i64,
                    ..*old(self)
                })
                &&& final(self).pruner_hi == to_exclusive
                &&& to_exclusive <= old(self).reader_lo
                &&& to_exclusive == from + size || to_exclusive == old(self).reader_lo && to_exclusive
                    <= from + size
            },
    {
        if self.pruner_hi >= self.reader_lo {
            return None;
        }
        let from: u64 = self.pruner_hi as u64;
        let limit: u64 = self.reader_lo as u64;
        let to_exclusive: u64 = if size <= limit - from {
            from + size
        } else {
            limit
        };
        self.pruner_hi = to_exclusive as i64;
        Some((from, to_exclusive))
    }
}

/// Cutting off the first chunk leaves the chunks of the rest.
pub(crate) proof fn lemma_first_chunk(hi: int, lo: int, size: int)
    requires
        0 <= hi < lo <= i64::MAX,
        0 < size,
    ensures
        chunk_map(hi, lo, size) == chunk_map(chunk_end(hi, lo, size), lo, size).insert(
            hi as u64,
            chunk_end(hi, lo, size) as u64,
        ),
{
    let end = chunk_end(hi, lo, size);
    let whole = chunk_map(hi, lo, size);
    let rest = chunk_map(end, lo, size).insert(hi as u64, end as u64);
    assert((0int) % size == 0) by {
        vstd::arithmetic::div_mod::lemma_small_mod(0, size as nat);
    }
    assert forall|k: u64| whole.contains_key(k) <==> rest.contains_key(k) by {
        if hi < k && k < lo {
            if k < end {
                vstd::arithmetic::div_mod::lemma_small_mod((k - hi) as nat, size as nat);
            } else {
                vstd::arithmetic::div_mod::lemma_mod_sub_multiples_vanish(k - hi, size);
            }
        }
    }
    assert(whole =~= rest);
}

/// Every checkpoint from `hi` up to `lo` lies in exactly one chunk, each chunk holds at least one
/// checkpoint and at most `size` of them, and no chunk reaches outside of `[hi, lo)`.
pub proof fn law_chunks_partition(hi: int, lo: int, size: int)
    requires
        0 <= hi,
        lo <= i64::MAX,
        0 < size,
    ensures
        forall|from: u64| #[trigger]
            chunk_map(hi, lo, size).contains_key(from) ==> hi <= from < chunk_map(hi, lo, size)[from]
                <= lo && chunk_map(hi, lo, size)[from] - from <= size && (chunk_map(
                hi,
                lo,
                size,
            )[from] == from + size || chunk_map(hi, lo, size)[from] == lo),
        forall|c: int|
            #![trigger covers(chunk_map(hi, lo, size), c)]
            hi <= c < lo <==> covers(chunk_map(hi, lo, size), c),
        forall|a: u64, b: u64|
            #![trigger chunk_map(hi, lo, size).contains_key(a), chunk_map(hi, lo, size).contains_key(b)]
            chunk_map(hi, lo, size).contains_key(a) && chunk_map(hi, lo, size).contains_key(b) && a
                < b ==> chunk_map(hi, lo, size)[a] <= b,
{
    let m = chunk_map(hi, lo, size);
    assert forall|c: int| hi <= c < lo implies #[trigger] covers(m, c) by {
        let r = (c - hi) % size;
        vstd::arithmetic::div_mod::lemma_mod_bound(c - hi, size);
        vstd::arithmetic::div_mod::lemma_fundamental_div_mod(c - hi, size);
        let q = (c - hi) / size;
        assert(c - hi - r == size * q);
        vstd::arithmetic::div_mod::lemma_mod_multiples_basic(q, size);
        assert((size * q) % size == 0) by (nonlinear_arith)
            requires
                (q * size) % size == 0,
        ;
        vstd::arithmetic::div_mod::lemma_div_pos_is_pos(c - hi, size);
        assert(size * q >= 0) by (nonlinear_arith)
            requires
                q >= 0,
                size > 0,
        ;
        let from = (c - r) as u64;
        assert(m.contains_key(from));
    }
    assert forall|a: u64, b: u64|
        #![trigger m.contains_key(a), m.contains_key(b)]
        m.contains_key(a) && m.contains_key(b) && a < b implies m[a] <= b by {
        if b < a + size {
            let d = b - a;
            vstd::arithmetic::div_mod::lemma_small_mod(d as nat, size as nat);
            vstd::arithmetic::div_mod::lemma_sub_mod_noop(b - hi, a - hi, size);
            assert(((b - hi) - (a - hi)) % size == d);
        }
    }
}

/// A checkpoint is covered exactly when some range starts at or before it and ends after it.
pub proof fn law_covered_by_a_range(ranges: Map<u64, u64>, c: int)
    ensures
        forall|from: u64| #[trigger]
            ranges.contains_key(from) && from <= c < ranges[from] ==> covers(ranges, c),
        covers(ranges, c) ==> exists|from: u64| #[trigger]
            ranges.contains_key(from) && from <= c && c < ranges[from],
{
}

/// The chunks of a watermark: every checkpoint from `pruner_hi` up to `reader_lo` lies in exactly one,
/// no other does, and each is as long as allowed unless it is the one that ends at `reader_lo`.
pub proof fn law_chunks_of_a_watermark(watermark: PrunerWatermark, size: u64, c: int)
    requires
        0 <= watermark.pruner_hi,
        0 < size,
    ensures
        watermark.pruner_hi <= c < watermark.reader_lo <==> exists|from: u64| #[trigger]
            watermark.chunks(size).contains_key(from) && from <= c < watermark.chunks(size)[from],
        forall|from: u64| #[trigger]
            watermark.chunks(size).contains_key(from) ==> {
                let end = watermark.chunks(size)[from];
                &&& watermark.pruner_hi <= from < end <= watermark.reader_lo
                &&& end == from + size || end == watermark.reader_lo && end < from + size
            },
        forall|a: u64, b: u64|
            #![trigger watermark.chunks(size).contains_key(a), watermark.chunks(size).contains_key(b)]
            watermark.chunks(size).contains_key(a) && watermark.chunks(size).contains_key(b) && a < b
                ==> watermark.chunks(size)[a] <= b,
{
    law_chunks_partition(watermark.pruner_hi as int, watermark.reader_lo as int, size as int);
    let chunks = chunk_map(watermark.pruner_hi as int, watermark.reader_lo as int, size as int);
    assert(watermark.pruner_hi <= c < watermark.reader_lo <==> covers(chunks, c));
    if covers(chunks, c) {
        let from = choose|from: u64| #[trigger] chunks.contains_key(from) && from <= c < chunks[from];
        assert(watermark.chunks(size).contains_key(from));
    }
}

} // verus!
