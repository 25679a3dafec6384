//! What holds of each round of the pruner.

use crate::pending::{first_key, first_unpruned, law_first_unpruned, straddles};
use crate::pruner::{
    lemma_first_queued, lemma_recalled, Action, Event, Phase, PrunerView,
    MAX_CONCURRENT_PRUNER_TASKS,
};
use crate::watermark::{covers, law_chunks_partition, PrunerWatermark};
use vstd::prelude::*;

verus! {

/// What the database will be told, or is being told.
pub open spec fn told(p: PrunerView) -> i64 {
    match p.phase {
        Phase::Pruning { db_watermark } => db_watermark.pruner_hi,
        Phase::Updating { db_watermark } => db_watermark.pruner_hi,
        _ => 0,
    }
}

/// The task is in the part of a round in which ranges are pruned and the database is told.
pub open spec fn in_round(p: PrunerView) -> bool {
    p.phase is Pruning || p.phase is Updating
}

/// No attempt of the round has been started.
pub open spec fn at_start(p: PrunerView) -> bool {
    &&& p.well_formed()
    &&& in_round(p)
    &&& p.queued == p.pending
    &&& p.running == Map::<u64, u64>::empty()
}

/// What a round starts with: of `kept`, which is what still counts once the watermark was read,
/// everything, and what of the watermark is beyond it.
proof fn lemma_begin(p: PrunerView, watermark: PrunerWatermark)
    requires
        p.well_formed(),
        p.usable(watermark),
    ensures
        ({
            let kept = p.recalled(watermark);
            let after = p.begin(watermark);
            &&& at_start(after)
            &&& kept.pending.submap_of(after.pending)
            &&& forall|c: int| #[trigger]
                covers(after.pending, c) <==> covers(kept.pending, c) || (kept.scheduled <= c
                    && watermark.pruner_hi <= c < watermark.reader_lo)
            &&& forall|from: u64| #[trigger]
                after.pending.contains_key(from) && !kept.pending.contains_key(from) ==> {
                    &&& kept.scheduled <= from
                    &&& after.pending[from] - from <= p.config.max_chunk_size
                }
        }),
{
    lemma_recalled(p, watermark);
    let kept = p.recalled(watermark);
    let size = p.config.max_chunk_size;
    let rest = kept.unscheduled(watermark);
    let after = p.begin(watermark);
    let chunks = rest.chunks(size);
    if rest.pruner_hi < rest.reader_lo {
        law_chunks_partition(rest.pruner_hi as int, rest.reader_lo as int, size as int);
    }
    assert forall|from: u64| #[trigger] kept.pending.contains_key(from) implies after.pending
        .contains_key(from) && after.pending[from] == kept.pending[from] by {
        assert(!chunks.contains_key(from));
    }
    assert forall|c: int| #[trigger] covers(after.pending, c) <==> covers(kept.pending, c) || (
    kept.scheduled <= c && watermark.pruner_hi <= c < watermark.reader_lo) by {
        if covers(kept.pending, c) {
            let from = choose|from: u64| #[trigger]
                kept.pending.contains_key(from) && from <= c < kept.pending[from];
            assert(after.pending.contains_key(from));
        }
        if rest.pruner_hi <= c < rest.reader_lo {
            assert(covers(chunks, c));
            let from = choose|from: u64| #[trigger]
                chunks.contains_key(from) && from <= c < chunks[from];
            assert(after.pending.contains_key(from) && after.pending[from] == chunks[from]);
        }
        if covers(after.pending, c) {
            let from = choose|from: u64| #[trigger]
                after.pending.contains_key(from) && from <= c < after.pending[from];
            if chunks.contains_key(from) {
                assert(covers(chunks, c));
            } else {
                assert(kept.pending.contains_key(from));
            }
        }
    }
    law_first_unpruned(after.pending, after.scheduled);
}

/// A round makes everything pending from `pruner_hi` up to `reader_lo` that no earlier round has
/// scheduled. Of what was scheduled before, exactly that is pending which was pending: a range
/// that was pruned is not pruned again, and none that is pending is lost, replaced or cut short.
/// This is so unless the watermark was lowered since the task last knew it.
pub proof fn law_round_adds_what_is_new(p: PrunerView, watermark: PrunerWatermark)
    requires
        p.well_formed(),
        p.usable(watermark),
        p.known_hi <= watermark.pruner_hi,
    ensures
        at_start(p.begin(watermark)),
        p.pending.submap_of(p.begin(watermark).pending),
        forall|c: int|
            #![trigger covers(p.begin(watermark).pending, c)]
            covers(p.begin(watermark).pending, c) <==> covers(p.pending, c) || (p.scheduled <= c
                && watermark.pruner_hi <= c < watermark.reader_lo),
        forall|from: u64| #[trigger]
            p.begin(watermark).pending.contains_key(from) && !p.pending.contains_key(from) ==> {
                &&& p.scheduled <= from
                &&& p.begin(watermark).pending[from] - from <= p.config.max_chunk_size
            },
{
    lemma_begin(p, watermark);
}

/// If the watermark was lowered since the task last knew it, the round prunes everything again
/// from there up to `reader_lo`, whether it was pruned before or not. What was pending still is,
/// but for what lies beyond all that the round goes up to, which a later round will schedule again.
pub proof fn law_lowered_watermark(p: PrunerView, watermark: PrunerWatermark)
    requires
        p.well_formed(),
        p.usable(watermark),
        watermark.pruner_hi < p.known_hi,
    ensures
        at_start(p.begin(watermark)),
        p.begin(watermark).known_hi == watermark.pruner_hi,
        watermark.reader_lo <= p.begin(watermark).scheduled,
        forall|c: int|
            #![trigger covers(p.begin(watermark).pending, c)]
            watermark.pruner_hi <= c < watermark.reader_lo ==> covers(
                p.begin(watermark).pending,
                c,
            ),
        forall|c: int|
            #![trigger covers(p.begin(watermark).pending, c)]
            covers(p.pending, c) && c < p.begin(watermark).scheduled ==> covers(
                p.begin(watermark).pending,
                c,
            ),
{
    lemma_recalled(p, watermark);
    lemma_begin(p, watermark);
    let at = watermark.pruner_hi as u64;
    let kept = p.recalled(watermark);
    let after = p.begin(watermark);
    assert forall|c: int| at <= c < kept.scheduled implies covers(kept.pending, c) by {
        let k = choose|k: u64| straddles(p.pending, k, at);
        assert(straddles(p.pending, k, at));
        assert(kept.pending.contains_key(k));
    }
    assert forall|c: int| covers(p.pending, c) && c < after.scheduled implies #[trigger] covers(
        after.pending,
        c,
    ) by {
        let from = choose|from: u64| #[trigger]
            p.pending.contains_key(from) && from <= c < p.pending[from];
        if from < at {
            assert(kept.pending.contains_key(from));
            assert(covers(kept.pending, c));
        } else {
            assert(covers(kept.pending, c) || kept.scheduled <= c);
        }
    }
}

/// Once a range was pruned, exactly its checkpoints are no longer pending, and the database will be
/// told the first checkpoint that has not been pruned: the lowest of those that are left, or the
/// end of everything that was scheduled if none is left.
pub proof fn law_pruned_range_is_done(p: PrunerView, from: u64)
    requires
        p.well_formed(),
        p.phase is Pruning,
        p.running.contains_key(from),
    ensures
        ({
            let q = p.next(
                Event::TaskFinished { from, to_exclusive: p.pending[from], succeeded: true },
            );
            &&& q.well_formed()
            &&& in_round(q)
            &&& q.scheduled == p.scheduled
            &&& q.queued == p.queued
            &&& q.running == p.running.remove(from)
            &&& q.pending == p.pending.remove(from)
            &&& forall|c: int| #[trigger]
                covers(q.pending, c) <==> covers(p.pending, c) && !(from <= c < p.pending[from])
            &&& told(q) == first_unpruned(q.pending, q.scheduled)
            &&& forall|k: u64| #[trigger] q.pending.contains_key(k) ==> told(q) <= k
            &&& (exists|k: u64| q.pending.contains_key(k)) ==> q.pending.contains_key(
                told(q) as u64,
            )
            &&& (forall|k: u64| !q.pending.contains_key(k)) ==> told(q) == p.scheduled
        }),
{
    let rest = p.pending.remove(from);
    assert(p.pending.contains_key(from));
    law_first_unpruned(rest, p.scheduled);
    assert forall|c: int| #[trigger] covers(rest, c) <==> covers(p.pending, c) && !(from <= c
        < p.pending[from]) by {
        if covers(p.pending, c) {
            let k = choose|k: u64| #[trigger]
                p.pending.contains_key(k) && k <= c < p.pending[k];
            assert(k != from ==> rest.contains_key(k));
        }
        if covers(rest, c) {
            let k = choose|k: u64| #[trigger] rest.contains_key(k) && k <= c < rest[k];
            assert(p.pending.contains_key(k));
        }
    }
}

/// An attempt that failed changes nothing but that it is no longer under way: its range stays
/// pending, and the database will be told what it would have been told.
pub proof fn law_failure_changes_nothing(p: PrunerView, from: u64)
    requires
        p.well_formed(),
        p.phase is Pruning,
        p.running.contains_key(from),
    ensures
        ({
            let q = p.next(
                Event::TaskFinished { from, to_exclusive: p.pending[from], succeeded: false },
            );
            &&& q.well_formed()
            &&& in_round(q)
            &&& told(q) == told(p)
            &&& q == (PrunerView { running: p.running.remove(from), phase: q.phase, ..p })
        }),
{
    let q = p.next(Event::TaskFinished { from, to_exclusive: p.pending[from], succeeded: false });
    assert(q.well_formed());
}

/// The order in which two ranges are pruned does not matter.
pub proof fn law_order_of_completion(p: PrunerView, a: u64, b: u64)
    requires
        p.well_formed(),
        p.phase is Pruning,
        p.running.contains_key(a),
        p.running.contains_key(b),
        a != b,
    ensures
        ({
            let finish_a = Event::TaskFinished {
                from: a,
                to_exclusive: p.pending[a],
                succeeded: true,
            };
            let finish_b = Event::TaskFinished {
                from: b,
                to_exclusive: p.pending[b],
                succeeded: true,
            };
            &&& p.accepts(finish_a) && p.next(finish_a).accepts(finish_b)
            &&& p.accepts(finish_b) && p.next(finish_b).accepts(finish_a)
            &&& p.next(finish_a).next(finish_b) == p.next(finish_b).next(finish_a)
        }),
{
    let finish_a = Event::TaskFinished { from: a, to_exclusive: p.pending[a], succeeded: true };
    let finish_b = Event::TaskFinished { from: b, to_exclusive: p.pending[b], succeeded: true };
    law_pruned_range_is_done(p, a);
    law_pruned_range_is_done(p, b);
    assert(p.next(finish_a).running.contains_key(b));
    assert(p.next(finish_b).running.contains_key(a));
    assert(p.running[a] == p.pending[a] && p.running[b] == p.pending[b]);
    assert(p.accepts(finish_a) && p.next(finish_a).accepts(finish_b));
    assert(p.accepts(finish_b) && p.next(finish_b).accepts(finish_a));
    assert(p.pending.remove(a).remove(b) =~= p.pending.remove(b).remove(a));
    assert(p.running.remove(a).remove(b) =~= p.running.remove(b).remove(a));
    assert(p.next(finish_a).next(finish_b) =~= p.next(finish_b).next(finish_a));
}

/// An attempt is started for a range that none was started for in this round.
pub(crate) proof fn lemma_started(p: PrunerView, from: u64, to_exclusive: u64)
    requires
        p.well_formed(),
        p.accepts(Event::TaskStarted { from, to_exclusive }),
    ensures
        p.next(Event::TaskStarted { from, to_exclusive }).well_formed(),
        p.queued.contains_key(from),
        !p.running.contains_key(from),
{
    lemma_first_queued(p);
    let q = p.next(Event::TaskStarted { from, to_exclusive });
    assert(q.running.contains_key(from));
}

/// The state after all of `events`.
pub open spec fn after(p: PrunerView, events: Seq<Event>) -> PrunerView
    decreases events.len(),
{
    if events.len() == 0 {
        p
    } else {
        after(p, events.drop_last()).next(events.last())
    }
}

/// Each event can happen in the state that the ones before it left.
pub open spec fn accepted(p: PrunerView, events: Seq<Event>) -> bool
    decreases events.len(),
{
    events.len() > 0 ==> accepted(p, events.drop_last()) && after(p, events.drop_last()).accepts(
        events.last(),
    )
}

/// Event `i` is that the attempt was started for the range that starts at `from`.
pub open spec fn starts(events: Seq<Event>, i: int, from: u64) -> bool {
    events[i] matches Event::TaskStarted { from: f, .. } && f == from
}

/// Event `i` is that the attempt has ended for the range that starts at `from`.
pub open spec fn finishes(events: Seq<Event>, i: int, from: u64) -> bool {
    events[i] matches Event::TaskFinished { from: f, .. } && f == from
}

/// Event `i` is that the range was pruned which starts at `from`.
pub open spec fn succeeds(events: Seq<Event>, i: int, from: u64) -> bool {
    events[i] matches Event::TaskFinished { from: f, succeeded: true, .. } && f == from
}

/// One of the events is that the attempt was started for the range that starts at `from`.
pub open spec fn any_starts(events: Seq<Event>, from: u64) -> bool {
    exists|i: int| 0 <= i < events.len() && starts(events, i, from)
}

/// One of the events is that the attempt has ended for the range that starts at `from`.
pub open spec fn any_finishes(events: Seq<Event>, from: u64) -> bool {
    exists|i: int| 0 <= i < events.len() && finishes(events, i, from)
}

/// One of the events is that the range was pruned which starts at `from`.
pub open spec fn any_succeeds(events: Seq<Event>, from: u64) -> bool {
    exists|i: int| 0 <= i < events.len() && succeeds(events, i, from)
}

/// The events only say that attempts were started and have ended.
pub open spec fn of_attempts(events: Seq<Event>) -> bool {
    forall|i: int|
        0 <= i < events.len() ==> (#[trigger] events[i]) is TaskStarted || events[i] is TaskFinished
}

/// No range is attempted twice.
pub open spec fn attempted_once(events: Seq<Event>) -> bool {
    forall|i: int, j: int, from: u64|
        #![trigger starts(events, i, from), starts(events, j, from)]
        0 <= i < j < events.len() ==> !(starts(events, i, from) && starts(events, j, from))
}

proof fn lemma_of_attempts_before(events: Seq<Event>)
    requires
        events.len() > 0,
        of_attempts(events),
    ensures
        of_attempts(events.drop_last()),
        events.last() is TaskStarted || events.last() is TaskFinished,
{
    let before = events.drop_last();
    assert forall|i: int| 0 <= i < before.len() implies (#[trigger] before[i]) is TaskStarted
        || before[i] is TaskFinished by {
        assert(before[i] == events[i]);
    }
    assert(events[events.len() - 1] == events.last());
}

/// What the events say of a range, told from what they said before the last of them.
proof fn lemma_last(events: Seq<Event>, from: u64)
    requires
        events.len() > 0,
    ensures
        ({
            let before = events.drop_last();
            let last = events.len() - 1;
            &&& any_starts(events, from) <==> any_starts(before, from) || starts(events, last, from)
            &&& any_finishes(events, from) <==> any_finishes(before, from) || finishes(
                events,
                last,
                from,
            )
            &&& any_succeeds(events, from) <==> any_succeeds(before, from) || succeeds(
                events,
                last,
                from,
            )
        }),
{
    let before = events.drop_last();
    if any_starts(before, from) {
        let i = choose|i: int| 0 <= i < before.len() && starts(before, i, from);
        assert(starts(events, i, from));
    }
    if any_finishes(before, from) {
        let i = choose|i: int| 0 <= i < before.len() && finishes(before, i, from);
        assert(finishes(events, i, from));
    }
    if any_succeeds(before, from) {
        let i = choose|i: int| 0 <= i < before.len() && succeeds(before, i, from);
        assert(succeeds(events, i, from));
    }
    if any_starts(events, from) {
        let i = choose|i: int| 0 <= i < events.len() && starts(events, i, from);
        assert(i < before.len() ==> starts(before, i, from));
    }
    if any_finishes(events, from) {
        let i = choose|i: int| 0 <= i < events.len() && finishes(events, i, from);
        assert(i < before.len() ==> finishes(before, i, from));
    }
    if any_succeeds(events, from) {
        let i = choose|i: int| 0 <= i < events.len() && succeeds(events, i, from);
        assert(i < before.len() ==> succeeds(before, i, from));
    }
}

/// The attempts of a round, in whatever order they end, unless it is cut short by cancellation:
///
/// - attempts are made for the ranges that were pending at its start, at most one for each;
/// - those that were started and have not ended are under way;
/// - what is left are the ranges that none of them pruned;
/// - the database is not told before an attempt was made for every range and has ended;
/// - if it would have been told the first checkpoint that was not pruned before them, so it would
///   be after them, and in any case once nothing is left.
pub proof fn law_attempts_of_a_round(p: PrunerView, events: Seq<Event>)
    requires
        at_start(p),
        p.pending == Map::<u64, u64>::empty() ==> told(p) == p.scheduled,
        accepted(p, events),
        of_attempts(events),
    ensures
        ({
            let q = after(p, events);
            &&& q.well_formed()
            &&& in_round(q)
            &&& q.scheduled == p.scheduled
            &&& attempted_once(events)
            &&& forall|from: u64| #[trigger]
                any_starts(events, from) ==> p.pending.contains_key(from)
            &&& forall|from: u64| #[trigger]
                any_finishes(events, from) ==> any_starts(events, from)
            &&& forall|from: u64| #[trigger]
                q.queued.contains_key(from) <==> p.pending.contains_key(from) && !any_starts(
                    events,
                    from,
                )
            &&& forall|from: u64| #[trigger]
                q.running.contains_key(from) <==> any_starts(events, from) && !any_finishes(
                    events,
                    from,
                )
            &&& forall|from: u64| #[trigger]
                q.pending.contains_key(from) <==> p.pending.contains_key(from) && !any_succeeds(
                    events,
                    from,
                )
            &&& q.pending.submap_of(p.pending)
            &&& q.phase is Updating ==> forall|from: u64| #[trigger]
                p.pending.contains_key(from) ==> any_finishes(events, from)
            &&& told(p) == first_unpruned(p.pending, p.scheduled) ==> told(q) == first_unpruned(
                q.pending,
                q.scheduled,
            )
            &&& q.pending == Map::<u64, u64>::empty() ==> told(q) == q.scheduled
        }),
    decreases events.len(),
{
    let q = after(p, events);
    if events.len() > 0 {
        let before = events.drop_last();
        let r = after(p, before);
        let last = events.len() - 1;
        lemma_of_attempts_before(events);
        law_attempts_of_a_round(p, before);
        assert(r.accepts(events[last]));
        assert forall|from: u64| #![auto]
            any_starts(events, from) <==> any_starts(before, from) || starts(events, last, from) by {
            lemma_last(events, from);
        }
        assert forall|from: u64| #![auto]
            any_finishes(events, from) <==> any_finishes(before, from) || finishes(
                events,
                last,
                from,
            ) by {
            lemma_last(events, from);
        }
        assert forall|from: u64| #![auto]
            any_succeeds(events, from) <==> any_succeeds(before, from) || succeeds(
                events,
                last,
                from,
            ) by {
            lemma_last(events, from);
        }
        match events[last] {
            Event::TaskStarted { from, to_exclusive } => {
                lemma_started(r, from, to_exclusive);
                assert(any_finishes(before, from) ==> any_starts(before, from));
            },
            Event::TaskFinished { from, to_exclusive, succeeded } => {
                if succeeded {
                    law_pruned_range_is_done(r, from);
                    law_first_unpruned(q.pending, q.scheduled);
                }
                assert(any_starts(before, from));
            },
            _ => {},
        }
        assert forall|i: int, j: int, from: u64|
            #![trigger starts(events, i, from), starts(events, j, from)]
            0 <= i < j < events.len() implies !(starts(events, i, from) && starts(
            events,
            j,
            from,
        )) by {
            if starts(events, i, from) && starts(events, j, from) {
                assert(starts(before, i, from));
                assert(any_starts(before, from));
                if j < last {
                    assert(starts(before, j, from));
                }
            }
        }
        if q.phase is Updating {
            assert forall|from: u64| #[trigger] p.pending.contains_key(from) implies any_finishes(
                events,
                from,
            ) by {
                assert(!q.queued.contains_key(from));
                assert(!q.running.contains_key(from));
            }
        }
    } else if q.phase is Updating {
        assert forall|from: u64| #[trigger] p.pending.contains_key(from) implies any_finishes(
            events,
            from,
        ) by {
            assert(!q.queued.contains_key(from));
        }
    }
}

/// If every range of a round was pruned, in whatever order, the database is told `reader_lo` next.
/// This asks that `reader_lo` is not below the watermark or below what earlier rounds went up to.
pub proof fn law_full_round_tells_reader_lo(
    p: PrunerView,
    watermark: PrunerWatermark,
    events: Seq<Event>,
)
    requires
        p.well_formed(),
        p.usable(watermark),
        p.scheduled <= watermark.reader_lo,
        watermark.pruner_hi <= watermark.reader_lo,
        accepted(p.begin(watermark), events),
        of_attempts(events),
        forall|from: u64| #[trigger]
            p.begin(watermark).pending.contains_key(from) ==> any_succeeds(events, from),
    ensures
        after(p.begin(watermark), events).pending == Map::<u64, u64>::empty(),
        after(p.begin(watermark), events).action() == (Action::UpdateWatermark {
            watermark: PrunerWatermark { pruner_hi: watermark.reader_lo, ..watermark },
        }),
{
    lemma_recalled(p, watermark);
    lemma_begin(p, watermark);
    let start = p.begin(watermark);
    if watermark.pruner_hi < p.known_hi {
        let at = watermark.pruner_hi as u64;
        if exists|k: u64| straddles(p.pending, k, at) {
            let k = choose|k: u64| straddles(p.pending, k, at);
            assert(p.pending.contains_key(k));
        }
    }
    assert(start.scheduled == watermark.reader_lo);
    law_attempts_of_a_round(start, events);
    let q = after(start, events);
    assert(q.pending =~= Map::<u64, u64>::empty());
    assert forall|from: u64| !q.running.contains_key(from) by {
        if any_starts(events, from) {
            assert(start.pending.contains_key(from));
            let i = choose|i: int| 0 <= i < events.len() && succeeds(events, i, from);
            assert(finishes(events, i, from));
        }
    }
    assert forall|from: u64| !q.queued.contains_key(from) by {
        if q.queued.contains_key(from) {
            assert(q.pending.contains_key(from));
        }
    }
    assert(q.running =~= Map::<u64, u64>::empty());
    assert(q.queued =~= Map::<u64, u64>::empty());
    lemma_tells_of_watermark(start, watermark, events);
}

/// All that attempts change of what the database will be told is up to where it is pruned.
proof fn lemma_tells_of_watermark(p: PrunerView, watermark: PrunerWatermark, events: Seq<Event>)
    requires
        at_start(p),
        p.pending == Map::<u64, u64>::empty() ==> told(p) == p.scheduled,
        accepted(p, events),
        of_attempts(events),
        p.phase == (Phase::Pruning {
            db_watermark: PrunerWatermark { pruner_hi: told(p), ..watermark },
        }) || p.phase == (Phase::Updating {
            db_watermark: PrunerWatermark { pruner_hi: told(p), ..watermark },
        }),
    ensures
        ({
            let q = after(p, events);
            q.phase == (Phase::Pruning {
                db_watermark: PrunerWatermark { pruner_hi: told(q), ..watermark },
            }) || q.phase == (Phase::Updating {
                db_watermark: PrunerWatermark { pruner_hi: told(q), ..watermark },
            })
        }),
    decreases events.len(),
{
    if events.len() > 0 {
        let before = events.drop_last();
        lemma_of_attempts_before(events);
        lemma_tells_of_watermark(p, watermark, before);
    }
}

/// A pending range stays pending, as it is, until it was pruned, and as long as it is pending each
/// round attempts to prune it. This is so unless the watermark was lowered since the task last knew
/// it.
pub proof fn law_pending_until_pruned(p: PrunerView, event: Event, from: u64)
    requires
        p.well_formed(),
        p.accepts(event),
        p.pending.contains_key(from),
        forall|watermark: PrunerWatermark| #[trigger]
            p.starts_round(event, watermark) ==> p.known_hi <= watermark.pruner_hi,
    ensures
        !p.next(event).pending.contains_key(from) <==> (event matches Event::TaskFinished {
            from: finished,
            to_exclusive,
            succeeded,
        } && finished == from && succeeded),
        p.next(event).pending.contains_key(from) ==> p.next(event).pending[from]
            == p.pending[from],
        forall|watermark: PrunerWatermark| #[trigger]
            p.starts_round(event, watermark) ==> p.next(event).queued.contains_key(from) && p.next(
                event,
            ).queued[from] == p.pending[from],
{
    match (p.phase, event) {
        (Phase::Fetching, Event::Watermark { watermark }) => {
            if watermark.wait_for <= 0 {
                assert(p.starts_round(event, watermark));
                law_round_adds_what_is_new(p, watermark);
            }
        },
        (Phase::Waiting { watermark }, Event::WaitElapsed) => {
            assert(p.starts_round(event, watermark));
            law_round_adds_what_is_new(p, watermark);
        },
        _ => {},
    }
}

/// Rounds do not overlap: when one starts, and when the database is told, every attempt of the
/// rounds before has ended. At any time at most so many attempts are under way, none of them for a
/// range that another one is made for, and one that is started makes them no more than that.
pub proof fn law_attempts_under_way(p: PrunerView)
    requires
        p.well_formed(),
    ensures
        p.running.len() <= MAX_CONCURRENT_PRUNER_TASKS,
        forall|event: Event, watermark: PrunerWatermark| #[trigger]
            p.starts_round(event, watermark) ==> p.all_ended(),
        p.action() is UpdateWatermark ==> p.all_ended(),
        p.action() matches Action::StartTask { from, to_exclusive } ==> {
            &&& p.running.len() < MAX_CONCURRENT_PRUNER_TASKS
            &&& !p.running.contains_key(from)
            &&& p.pending.contains_key(from) && p.pending[from] == to_exclusive
            &&& p.accepts(Event::TaskStarted { from, to_exclusive })
        },
        p.phase is Pruning ==> p.action() is StartTask || p.running != Map::<u64, u64>::empty(),
{
    if p.can_start() {
        lemma_first_queued(p);
        assert(p.pending.contains_key(first_key(p.queued)));
    } else if p.phase is Pruning && p.running == Map::<u64, u64>::empty() {
        assert(p.running.len() == 0);
    }
}

/// Nothing is pruned before the delay that the watermark asks for has passed.
pub proof fn law_delay_is_respected(p: PrunerView, event: Event)
    requires
        p.accepts(event),
    ensures
        p.next(event).action() is StartTask ==> {
            ||| p.phase is Pruning
            ||| event is WaitElapsed
            ||| event matches Event::Watermark { watermark } && watermark.wait_for <= 0
        },
        event matches Event::Watermark { watermark } ==> watermark.wait_for > 0 ==> p.next(
            event,
        ).action() == (Action::Sleep { delay_ms: watermark.wait_for as u64 }) && p.next(event) == (
        PrunerView { phase: Phase::Waiting { watermark }, ..p }),
        event is WaitElapsed ==> p.phase is Waiting && in_round(p.next(event)),
{
}

/// The task shuts down when it is told to between rounds or while it waits, and nothing happens
/// after that.
pub proof fn law_cancellation_stops(p: PrunerView)
    ensures
        p.phase is Idle || p.phase is Waiting ==> {
            &&& p.accepts(Event::Cancelled)
            &&& p.next(Event::Cancelled).action() is Stop
            &&& p.next(Event::Cancelled).phase is Stopped
        },
        p.phase is Stopped ==> forall|event: Event| !p.accepts(event),
{
}

/// When the task is told to shut down while it prunes, it starts no further attempt in that round.
/// What was not started stays pending, and what is under way is seen to its end.
pub proof fn law_cancelled_round_starts_nothing(p: PrunerView)
    requires
        p.well_formed(),
        p.phase is Pruning,
    ensures
        p.accepts(Event::Cancelled),
        ({
            let q = p.next(Event::Cancelled);
            &&& q.well_formed()
            &&& in_round(q)
            &&& q.queued == Map::<u64, u64>::empty()
            &&& q.running == p.running
            &&& q.pending == p.pending
            &&& told(q) == told(p)
        }),
        p.queued == Map::<u64, u64>::empty() ==> {
            &&& !(p.action() is StartTask)
            &&& forall|event: Event| #[trigger]
                p.accepts(event) ==> !(event is TaskStarted) && p.next(event).queued == Map::<
                    u64,
                    u64,
                >::empty()
        },
{
}

} // verus!
