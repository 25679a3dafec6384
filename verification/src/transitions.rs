//! What each event does to the pruner, told by what can be seen of it.

use crate::pending::{first_key, law_first_unpruned, law_keeps_what_starts_below};
use crate::pruner::{
    lemma_first_queued, lemma_recalled, Action, Event, Phase, PrunerConfig, PrunerView,
};
use crate::rounds::{
    law_lowered_watermark, law_pruned_range_is_done, law_round_adds_what_is_new, lemma_started,
};
use crate::watermark::{covers, law_chunks_partition, PrunerWatermark};
use vstd::prelude::*;

verus! {

/// A new task has nothing to prune, knows nothing of the database, and waits for its first round.
pub proof fn law_starts_with_nothing(config: PrunerConfig)
    ensures
        ({
            let p = PrunerView::initial(config);
            &&& p.config == config
            &&& forall|k: u64| !(#[trigger] p.pending.contains_key(k))
            &&& forall|k: u64| !(#[trigger] p.queued.contains_key(k))
            &&& forall|k: u64| !(#[trigger] p.running.contains_key(k))
            &&& p.scheduled == 0 && p.known_hi == 0
            &&& p.gauges.pruner_hi == 0 && p.gauges.pruner_hi_in_db == 0
            &&& p.action() is AwaitTick
        }),
{
}

/// What can happen in each phase: a tick or cancellation between rounds; any outcome of reading the
/// watermark, which has to be one that can be pruned up to; the end of the wait or cancellation; the
/// start of an attempt for the lowest range that none was started for while fewer than ten are under
/// way, the end of one that is under way, or cancellation; any outcome of telling the database; and
/// nothing once the task has stopped.
pub proof fn law_what_can_happen(p: PrunerView, event: Event)
    ensures
        p.accepts(event) <==> match p.phase {
            Phase::Idle => event is Tick || event is Cancelled,
            Phase::Fetching => {
                ||| event is ConnectFailed
                ||| event is WatermarkFailed
                ||| event is NoWatermark
                ||| event matches Event::Watermark { watermark } && 0 <= watermark.pruner_hi && (
                p.config.max_chunk_size > 0 || watermark.reader_lo <= watermark.pruner_hi)
            },
            Phase::Waiting { .. } => event is WaitElapsed || event is Cancelled,
            Phase::Pruning { .. } => match event {
                Event::TaskStarted { from, to_exclusive } => {
                    &&& p.running.len() < 10
                    &&& p.queued.contains_key(from) && p.queued[from] == to_exclusive
                    &&& forall|k: u64| #[trigger] p.queued.contains_key(k) ==> from <= k
                },
                Event::TaskFinished { from, to_exclusive, succeeded } => {
                    p.running.contains_key(from) && p.running[from] == to_exclusive
                },
                Event::Cancelled => true,
                _ => false,
            },
            Phase::Updating { .. } => {
                event is ConnectFailed || event is UpdateFailed || event is Updated
            },
            Phase::Stopped => false,
        },
{
    law_first_unpruned(p.queued, 0);
    if forall|k: u64| !p.queued.contains_key(k) {
        assert(p.queued =~= Map::<u64, u64>::empty());
    }
    if let Event::TaskStarted { from, to_exclusive } = event {
        if p.queued.contains_key(from) {
            assert(p.queued != Map::<u64, u64>::empty());
            assert(p.queued.contains_key(first_key(p.queued)));
        }
    }
}

/// What the task does in each phase: it waits for a tick, reads the watermark, or sleeps as long as
/// the watermark says. While it prunes, it starts the attempt for the lowest range that none was
/// started for, as long as fewer than ten are under way; otherwise it waits for one to end, and for
/// cancellation if there are ranges left to start. Then it tells the database, and in the end stops.
pub proof fn law_what_to_do(p: PrunerView)
    requires
        p.well_formed(),
    ensures
        match p.phase {
            Phase::Idle => p.action() is AwaitTick,
            Phase::Fetching => p.action() is FetchWatermark,
            Phase::Waiting { watermark } => watermark.wait_for > 0 ==> (p.action() matches Action::Sleep {
                delay_ms,
            } && delay_ms == watermark.wait_for),
            Phase::Pruning { .. } => match p.action() {
                Action::StartTask { from, to_exclusive } => {
                    &&& p.running.len() < 10
                    &&& p.queued.contains_key(from) && p.queued[from] == to_exclusive
                    &&& p.pending.contains_key(from) && p.pending[from] == to_exclusive
                    &&& forall|k: u64| #[trigger] p.queued.contains_key(k) ==> from <= k
                },
                Action::AwaitTask { or_cancelled } => {
                    &&& exists|k: u64| p.running.contains_key(k)
                    &&& p.running.len() >= 10 || forall|k: u64| !(#[trigger] p.queued.contains_key(k))
                    &&& or_cancelled <==> exists|k: u64| #[trigger] p.queued.contains_key(k)
                },
                _ => false,
            },
            Phase::Updating { db_watermark } => p.action() matches Action::UpdateWatermark {
                watermark,
            } && watermark == db_watermark,
            Phase::Stopped => p.action() is Stop,
        },
{
    law_first_unpruned(p.queued, 0);
    if forall|k: u64| !p.queued.contains_key(k) {
        assert(p.queued =~= Map::<u64, u64>::empty());
    }
    if p.can_start() {
        lemma_first_queued(p);
        assert(p.pending.contains_key(first_key(p.queued)));
    } else if p.phase is Pruning {
        if forall|k: u64| !p.running.contains_key(k) {
            assert(p.running =~= Map::<u64, u64>::empty());
            assert(p.running.len() == 0);
        }
    }
}

/// At a tick the task reads the watermark. If that fails, or there is none, it waits for the next
/// tick. If there is something to wait for, it sleeps. Nothing else changes.
pub proof fn law_up_to_the_round(p: PrunerView, event: Event)
    requires
        p.accepts(event),
    ensures
        p.phase is Idle && event is Tick ==> p.next(event) == (PrunerView {
            phase: Phase::Fetching,
            ..p
        }),
        p.phase is Fetching && !(event is Watermark) ==> p.next(event) == (PrunerView {
            phase: Phase::Idle,
            ..p
        }),
        p.phase is Fetching ==> (event matches Event::Watermark { watermark } ==> (
        watermark.wait_for > 0 ==> p.next(event) == (PrunerView {
            phase: Phase::Waiting { watermark },
            ..p
        }))),
{
}

/// The event is that a watermark may be acted upon: it was read and there is nothing to wait for, or
/// the time to wait is over.
pub open spec fn may_act(p: PrunerView, event: Event, watermark: PrunerWatermark) -> bool {
    ||| p.phase is Fetching && event == (Event::Watermark { watermark }) && watermark.wait_for <= 0
    ||| p.phase == (Phase::Waiting { watermark }) && event is WaitElapsed
}

/// Every event from which on a watermark may be acted upon leads into a round. Every checkpoint from
/// `pruner_hi` up to `reader_lo` that no earlier round has scheduled lies in a range that is pending
/// and that the round has queued; if the watermark is lower than it was known to be, every checkpoint
/// in between does. What is pending is all queued, and nothing is under way. The first attempt is
/// started for the lowest range, and if there is none the database is told.
pub proof fn law_round_starts(p: PrunerView, event: Event, watermark: PrunerWatermark)
    requires
        p.well_formed(),
        p.accepts(event),
        may_act(p, event, watermark),
    ensures
        ({
            let q = p.next(event);
            &&& q.well_formed()
            &&& q.phase is Pruning || q.phase is Updating
            &&& forall|c: int|
                watermark.pruner_hi <= c < watermark.reader_lo && (p.scheduled <= c
                    || watermark.pruner_hi < p.known_hi) ==> #[trigger] covers(q.pending, c) && covers(
                    q.queued,
                    c,
                )
            &&& q.queued == q.pending
            &&& forall|k: u64| !(#[trigger] q.running.contains_key(k))
            &&& (exists|k: u64| q.pending.contains_key(k)) ==> {
                &&& q.action() matches Action::StartTask { from, to_exclusive }
                &&& q.pending.contains_key(from) && q.pending[from] == to_exclusive
                &&& forall|k: u64| #[trigger] q.pending.contains_key(k) ==> from <= k
            }
            &&& (forall|k: u64| !q.pending.contains_key(k)) ==> q.action() is UpdateWatermark
        }),
{
    assert(p.next(event) == p.begin(watermark));
    let q = p.next(event);
    if watermark.pruner_hi < p.known_hi {
        law_lowered_watermark(p, watermark);
    } else {
        law_round_adds_what_is_new(p, watermark);
    }
    assert(q.queued == q.pending);
    assert forall|c: int|
        watermark.pruner_hi <= c < watermark.reader_lo && (p.scheduled <= c || watermark.pruner_hi
            < p.known_hi) implies #[trigger] covers(q.pending, c) by {}
    law_what_to_do(q);
    if forall|k: u64| !q.pending.contains_key(k) {
        assert(q.pending =~= Map::<u64, u64>::empty());
    } else {
        let k = choose|k: u64| q.pending.contains_key(k);
        assert(q.queued.contains_key(k));
        assert(q.queued != Map::<u64, u64>::empty());
        assert(q.running.len() == 0);
    }
}

/// What a round adds, unless the watermark was lowered: everything that was pending still is, as it
/// was, and every further range lies beyond all that was scheduled before, between `pruner_hi` and
/// `reader_lo`. Such a range is as long as allowed unless it ends at `reader_lo`. What counts as
/// scheduled goes up to the highest of these bounds.
pub proof fn law_round_adds_whole_chunks(
    p: PrunerView,
    event: Event,
    watermark: PrunerWatermark,
    from: u64,
)
    requires
        p.well_formed(),
        p.accepts(event),
        may_act(p, event, watermark),
        p.known_hi <= watermark.pruner_hi,
    ensures
        ({
            let q = p.next(event);
            &&& p.pending.contains_key(from) ==> q.pending.contains_key(from) && q.pending[from]
                == p.pending[from]
            &&& q.pending.contains_key(from) && !p.pending.contains_key(from) ==> {
                &&& p.scheduled <= from && watermark.pruner_hi <= from
                &&& from < q.pending[from] <= watermark.reader_lo
                &&& q.pending[from] == from + p.config.max_chunk_size || q.pending[from]
                    == watermark.reader_lo && q.pending[from] < from + p.config.max_chunk_size
            }
            &&& p.scheduled <= q.scheduled && watermark.pruner_hi <= q.scheduled
                && watermark.reader_lo <= q.scheduled
            &&& q.scheduled == p.scheduled || q.scheduled == watermark.pruner_hi || q.scheduled
                == watermark.reader_lo
        }),
{
    assert(p.next(event) == p.begin(watermark));
    law_round_adds_what_is_new(p, watermark);
    let rest = p.unscheduled(watermark);
    let size = p.config.max_chunk_size;
    if rest.pruner_hi < rest.reader_lo {
        law_chunks_partition(rest.pruner_hi as int, rest.reader_lo as int, size as int);
    }
    let q = p.next(event);
    if q.pending.contains_key(from) && !p.pending.contains_key(from) {
        assert(rest.chunks(size).contains_key(from));
    }
}

/// What a round starts with if the watermark was lowered: of what was pending, the ranges that start
/// below it, as they were. Every other range lies between `pruner_hi` and `reader_lo`, beyond those
/// that are kept, and is as long as allowed unless it ends at `reader_lo`.
pub proof fn law_lowered_round_adds_whole_chunks(
    p: PrunerView,
    event: Event,
    watermark: PrunerWatermark,
    from: u64,
)
    requires
        p.well_formed(),
        p.accepts(event),
        may_act(p, event, watermark),
        watermark.pruner_hi < p.known_hi,
    ensures
        ({
            let q = p.next(event);
            &&& from < watermark.pruner_hi ==> (q.pending.contains_key(from)
                <==> p.pending.contains_key(from))
            &&& from < watermark.pruner_hi && p.pending.contains_key(from) ==> q.pending[from]
                == p.pending[from]
            &&& q.pending.contains_key(from) && watermark.pruner_hi <= from ==> {
                &&& from < q.pending[from] <= watermark.reader_lo
                &&& q.pending[from] == from + p.config.max_chunk_size || q.pending[from]
                    == watermark.reader_lo && q.pending[from] < from + p.config.max_chunk_size
            }
            &&& watermark.pruner_hi <= q.scheduled && watermark.reader_lo <= q.scheduled
            &&& q.scheduled == watermark.pruner_hi || q.scheduled == watermark.reader_lo || exists|
                k: u64,
            | #[trigger]
                p.pending.contains_key(k) && k < watermark.pruner_hi && q.scheduled == p.pending[k]
        }),
{
    assert(p.next(event) == p.begin(watermark));
    lemma_recalled(p, watermark);
    law_lowered_watermark(p, watermark);
    law_keeps_what_starts_below(p.pending, watermark.pruner_hi as u64, from);
    let kept = p.recalled(watermark);
    let rest = kept.unscheduled(watermark);
    let size = p.config.max_chunk_size;
    if rest.pruner_hi < rest.reader_lo {
        law_chunks_partition(rest.pruner_hi as int, rest.reader_lo as int, size as int);
    }
    let q = p.next(event);
    if q.pending.contains_key(from) && watermark.pruner_hi <= from {
        assert(!kept.pending.contains_key(from));
        assert(rest.chunks(size).contains_key(from));
    }
}

/// What the database will be told at the start of a round: the watermark as it was read, or the first
/// checkpoint that is left to prune if that is higher, which is the end of all that was scheduled if
/// nothing is left. The rest of the watermark stays as it was read, the configuration and what is
/// reported stay as they are, and the watermark is now known.
pub proof fn law_round_will_tell(p: PrunerView, event: Event, watermark: PrunerWatermark)
    requires
        p.well_formed(),
        p.accepts(event),
        may_act(p, event, watermark),
    ensures
        ({
            let q = p.next(event);
            let tells = match q.phase {
                Phase::Pruning { db_watermark } => db_watermark,
                Phase::Updating { db_watermark } => db_watermark,
                _ => watermark,
            };
            &&& tells.wait_for == watermark.wait_for && tells.reader_lo == watermark.reader_lo
            &&& watermark.pruner_hi <= tells.pruner_hi
            &&& forall|k: u64| #[trigger]
                q.pending.contains_key(k) ==> tells.pruner_hi == watermark.pruner_hi
                    || tells.pruner_hi <= k
            &&& (exists|k: u64| q.pending.contains_key(k)) ==> tells.pruner_hi
                == watermark.pruner_hi || q.pending.contains_key(tells.pruner_hi as u64)
            &&& (forall|k: u64| #[trigger] q.pending.contains_key(k) ==> watermark.pruner_hi < k) && (
            exists|k: u64| q.pending.contains_key(k)) ==> q.pending.contains_key(
                tells.pruner_hi as u64,
            )
            &&& (forall|k: u64| !q.pending.contains_key(k)) ==> tells.pruner_hi == q.scheduled
            &&& q.config == p.config && q.gauges == p.gauges
            &&& q.known_hi == watermark.pruner_hi
        }),
{
    assert(p.next(event) == p.begin(watermark));
    let q = p.next(event);
    law_round_starts(p, event, watermark);
    law_first_unpruned(q.pending, q.scheduled);
    if forall|k: u64| !q.pending.contains_key(k) {
        assert(q.pending =~= Map::<u64, u64>::empty());
    }
}

/// When an attempt was started, its range is under way and no longer queued. Nothing else changes.
pub proof fn law_attempt_was_started(p: PrunerView, from: u64, to_exclusive: u64)
    requires
        p.well_formed(),
        p.accepts(Event::TaskStarted { from, to_exclusive }),
    ensures
        ({
            let q = p.next(Event::TaskStarted { from, to_exclusive });
            &&& q.well_formed()
            &&& forall|k: u64| #[trigger]
                q.queued.contains_key(k) <==> p.queued.contains_key(k) && k != from
            &&& forall|k: u64| #[trigger]
                q.running.contains_key(k) <==> p.running.contains_key(k) || k == from
            &&& forall|k: u64| #[trigger] q.queued.contains_key(k) ==> q.queued[k] == p.queued[k]
            &&& q.running[from] == to_exclusive
            &&& forall|k: u64| #[trigger]
                p.running.contains_key(k) ==> q.running[k] == p.running[k]
            &&& q == (PrunerView { queued: q.queued, running: q.running, ..p })
        }),
{
    lemma_started(p, from, to_exclusive);
}

/// When an attempt has ended, its range is no longer under way. If it succeeded, exactly that range is
/// no longer pending, the database will be told the lowest checkpoint that starts a pending range, or
/// the end of all that was scheduled if there is none, and that is reported. If it failed, what is
/// pending, reported and told stays as it is. What is queued, scheduled and known stays in either
/// case. The database is told at once if no attempt is left, and otherwise the round goes on.
pub proof fn law_attempt_has_ended(p: PrunerView, from: u64, to_exclusive: u64, succeeded: bool)
    requires
        p.well_formed(),
        p.accepts(Event::TaskFinished { from, to_exclusive, succeeded }),
    ensures
        ({
            let q = p.next(Event::TaskFinished { from, to_exclusive, succeeded });
            let told = p.phase->Pruning_db_watermark;
            let tells = match q.phase {
                Phase::Pruning { db_watermark } => db_watermark,
                Phase::Updating { db_watermark } => db_watermark,
                _ => told,
            };
            let left = (exists|k: u64| q.queued.contains_key(k)) || (exists|k: u64|
                q.running.contains_key(k));
            &&& q.well_formed()
            &&& left ==> q.phase is Pruning
            &&& !left ==> q.phase is Updating
            &&& forall|k: u64| #[trigger]
                q.running.contains_key(k) <==> p.running.contains_key(k) && k != from
            &&& forall|k: u64| #[trigger] q.running.contains_key(k) ==> q.running[k] == p.running[k]
            &&& forall|k: u64| #[trigger]
                q.pending.contains_key(k) <==> p.pending.contains_key(k) && !(succeeded && k == from)
            &&& forall|k: u64| #[trigger] q.pending.contains_key(k) ==> q.pending[k] == p.pending[k]
            &&& q.queued == p.queued && q.scheduled == p.scheduled && q.known_hi == p.known_hi
                && q.config == p.config
            &&& tells.wait_for == told.wait_for && tells.reader_lo == told.reader_lo
            &&& q.gauges.pruner_hi_in_db == p.gauges.pruner_hi_in_db
            &&& !succeeded ==> tells == told && q.gauges == p.gauges
            &&& succeeded ==> {
                &&& q.gauges.pruner_hi == tells.pruner_hi
                &&& forall|k: u64| #[trigger] q.pending.contains_key(k) ==> tells.pruner_hi <= k
                &&& (exists|k: u64| q.pending.contains_key(k)) ==> q.pending.contains_key(
                    tells.pruner_hi as u64,
                ) && 0 <= tells.pruner_hi
                &&& (forall|k: u64| !q.pending.contains_key(k)) ==> tells.pruner_hi == p.scheduled
            }
        }),
{
    let q = p.next(Event::TaskFinished { from, to_exclusive, succeeded });
    assert(p.running.contains_key(from) && p.running[from] == to_exclusive);
    assert(p.pending.contains_key(from));
    assert(p.pending[from] == to_exclusive);
    if succeeded {
        law_pruned_range_is_done(p, from);
    } else {
        assert(q.well_formed());
    }
    if forall|k: u64| !q.queued.contains_key(k) {
        assert(q.queued =~= Map::<u64, u64>::empty());
    }
    if forall|k: u64| !q.running.contains_key(k) {
        assert(q.running =~= Map::<u64, u64>::empty());
    }
}

/// Cancellation stops the task between rounds and while it waits. While it prunes, nothing is queued
/// any more, and the round goes on as long as attempts are under way; what is pending, under way,
/// scheduled, known, reported and told stays as it is.
pub proof fn law_cancelled(p: PrunerView)
    requires
        p.well_formed(),
        p.accepts(Event::Cancelled),
    ensures
        ({
            let q = p.next(Event::Cancelled);
            &&& !(p.phase is Pruning) ==> q == (PrunerView { phase: Phase::Stopped, ..p })
            &&& p.phase matches Phase::Pruning { db_watermark } ==> {
                &&& forall|k: u64| !(#[trigger] q.queued.contains_key(k))
                &&& (exists|k: u64| p.running.contains_key(k)) ==> q.phase == p.phase
                &&& (forall|k: u64| !p.running.contains_key(k)) ==> q.phase == (Phase::Updating {
                    db_watermark,
                })
                &&& q == (PrunerView { queued: q.queued, phase: q.phase, ..p })
            }
        }),
{
    if forall|k: u64| !p.running.contains_key(k) {
        assert(p.running =~= Map::<u64, u64>::empty());
    }
}

/// Once the database was told, or could not be, the round is over. Only if it was raised is that
/// reported. If the database answered, its watermark is known to have come at least as far as it was
/// told. Nothing else changes: what is pending stays pending.
pub proof fn law_round_is_over(p: PrunerView, event: Event)
    requires
        p.accepts(event),
        p.phase is Updating,
    ensures
        ({
            let q = p.next(event);
            let told = p.phase->Updating_db_watermark.pruner_hi;
            &&& q.phase is Idle && q.action() is AwaitTick
            &&& q.pending == p.pending && q.queued == p.queued && q.running == p.running
            &&& q.scheduled == p.scheduled && q.config == p.config
            &&& q.gauges.pruner_hi == p.gauges.pruner_hi
            &&& event matches Event::Updated { raised } ==> {
                &&& p.known_hi <= q.known_hi && told <= q.known_hi
                &&& q.known_hi == p.known_hi || q.known_hi == told
                &&& raised ==> q.gauges.pruner_hi_in_db == told
                &&& !raised ==> q.gauges.pruner_hi_in_db == p.gauges.pruner_hi_in_db
            }
            &&& !(event is Updated) ==> q == (PrunerView { phase: Phase::Idle, ..p })
        }),
{
}

} // verus!
