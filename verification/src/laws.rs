//! What the pruner guarantees about the data in the database.

use crate::pending::{first_unpruned, law_first_unpruned};
use crate::pruner::{
    Action, Event, Phase, PrunerConfig, PrunerView, MAX_CONCURRENT_PRUNER_TASKS,
};
use crate::rounds::{
    law_attempts_under_way, law_cancelled_round_starts_nothing, law_failure_changes_nothing,
    law_pruned_range_is_done, law_round_adds_what_is_new, lemma_started,
};
use crate::watermark::{covers, PrunerWatermark};
use vstd::prelude::*;

verus! {

/// A pruner together with the database that it works on.
pub struct World {
    pub pruner: PrunerView,
    /// The checkpoints in the ranges that the pruner has pruned.
    pub pruned: Set<int>,
    /// The watermark of the pipeline up to which the database takes its data to be pruned.
    pub pruner_hi: int,
    /// What that watermark was when it was last read.
    pub read_hi: int,
    /// The lowest checkpoint that readers needed when the watermark was last read.
    pub reader_lo: int,
}

/// The checkpoints from `from` up to `to_exclusive`.
pub open spec fn interval(from: int, to_exclusive: int) -> Set<int> {
    Set::new(|c: int| from <= c < to_exclusive)
}

impl World {
    /// The task has not started its first round.
    pub open spec fn initial(self, config: PrunerConfig) -> bool {
        &&& self.pruner == PrunerView::initial(config)
        &&& self.pruned == Set::<int>::empty()
        &&& 0 <= self.pruner_hi
    }

    /// `event` takes this world to `next`.
    ///
    /// - The watermark that is read is the one in the database.
    /// - The data of a range is gone once its pruning succeeded.
    /// - An update raises the watermark, and never lowers it. When it fails, it may have been
    ///   carried out or not.
    pub open spec fn steps_to(self, event: Event, next: World) -> bool {
        &&& self.pruner.accepts(event)
        &&& next.pruner == self.pruner.next(event)
        &&& next.pruned == match event {
            Event::TaskFinished { from, to_exclusive, succeeded: true } => self.pruned.union(
                interval(from as int, to_exclusive as int),
            ),
            _ => self.pruned,
        }
        &&& if let Event::Watermark { watermark } = event {
            &&& watermark.pruner_hi == self.pruner_hi
            &&& next.read_hi == watermark.pruner_hi
            &&& next.reader_lo == watermark.reader_lo
        } else {
            &&& next.read_hi == self.read_hi
            &&& next.reader_lo == self.reader_lo
        }
        &&& match (self.pruner.phase, event) {
            (Phase::Updating { db_watermark }, Event::Updated { raised }) => {
                &&& raised <==> self.pruner_hi < db_watermark.pruner_hi
                &&& next.pruner_hi == if raised {
                    db_watermark.pruner_hi as int
                } else {
                    self.pruner_hi
                }
            },
            (Phase::Updating { db_watermark }, Event::UpdateFailed) => {
                ||| next.pruner_hi == self.pruner_hi
                ||| next.pruner_hi == db_watermark.pruner_hi && self.pruner_hi
                    < db_watermark.pruner_hi
            },
            _ => next.pruner_hi == self.pruner_hi,
        }
    }

    /// What the database will be told is the first checkpoint that has not been pruned.
    pub open spec fn will_tell(self, db_watermark: PrunerWatermark) -> bool {
        &&& self.pruner_hi == self.read_hi
        &&& self.pruner_hi <= self.pruner.scheduled
        &&& self.reader_lo <= self.pruner.scheduled
        &&& db_watermark.pruner_hi == first_unpruned(self.pruner.pending, self.pruner.scheduled)
    }

    /// What holds of every world that a pruner can reach, for data that starts at `base`.
    pub open spec fn sound(self, base: int) -> bool {
        &&& self.pruner.well_formed()
        &&& 0 <= base <= self.pruner_hi
        // The watermark has not fallen since the pruner knew it.
        &&& self.pruner.known_hi <= self.pruner_hi
        // What the database takes to be pruned has been pruned.
        &&& interval(base, self.pruner_hi).subset_of(self.pruned)
        // What was scheduled has either been pruned or is pending.
        &&& forall|c: int|
            #![trigger self.pruned.contains(c)]
            #![trigger covers(self.pruner.pending, c)]
            base <= c < self.pruner.scheduled ==> (self.pruned.contains(c) <==> !covers(
                self.pruner.pending,
                c,
            ))
        // Nothing else has been.
        &&& forall|c: int| #[trigger]
            self.pruned.contains(c) ==> base <= c < self.pruner.scheduled
        &&& forall|from: u64| #[trigger]
            self.pruner.pending.contains_key(from) ==> self.pruner_hi <= from
        &&& match self.pruner.phase {
            Phase::Waiting { watermark } => {
                &&& watermark.pruner_hi == self.pruner_hi == self.read_hi
                &&& watermark.reader_lo == self.reader_lo
            },
            Phase::Pruning { db_watermark } => self.will_tell(db_watermark),
            Phase::Updating { db_watermark } => self.will_tell(db_watermark),
            _ => true,
        }
    }

    /// What holds of every world that a pruner can reach while `reader_lo` never falls: nothing
    /// was scheduled that readers need.
    pub open spec fn spares_readers(self) -> bool {
        &&& self.pruner.scheduled <= self.reader_lo || self.pruner.scheduled <= self.pruner_hi
        &&& forall|from: u64| #[trigger]
            self.pruner.pending.contains_key(from) ==> self.pruner.pending[from] <= self.reader_lo
    }
}

proof fn lemma_begin_sound(w: World, watermark: PrunerWatermark, next: World, base: int)
    requires
        w.sound(base),
        w.pruner.usable(watermark),
        watermark.pruner_hi == w.pruner_hi,
        next.pruner == w.pruner.begin(watermark),
        next.pruned == w.pruned,
        next.pruner_hi == w.pruner_hi,
        next.read_hi == watermark.pruner_hi,
        next.reader_lo == watermark.reader_lo,
    ensures
        next.sound(base),
{
    law_round_adds_what_is_new(w.pruner, watermark);
    law_first_unpruned(next.pruner.pending, next.pruner.scheduled);
    let pending = next.pruner.pending;
    assert forall|from: u64| #[trigger] pending.contains_key(from) implies w.pruner_hi <= from by {
        assert(covers(pending, from as int));
        if covers(w.pruner.pending, from as int) {
            let k = choose|k: u64| #[trigger]
                w.pruner.pending.contains_key(k) && k <= from < w.pruner.pending[k];
        }
    }
    assert forall|c: int|
        #![trigger next.pruned.contains(c)]
        #![trigger covers(pending, c)]
        base <= c < next.pruner.scheduled implies (next.pruned.contains(c) <==> !covers(
        pending,
        c,
    )) by {
        assert(covers(pending, c) || !covers(pending, c));
        if c < w.pruner_hi {
            assert(interval(base, w.pruner_hi).contains(c));
        }
    }
}

/// Each step of the pruner keeps the database sound.
pub proof fn law_step_keeps_sound(w: World, event: Event, next: World, base: int)
    requires
        w.sound(base),
        w.steps_to(event, next),
    ensures
        next.sound(base),
{
    law_first_unpruned(w.pruner.pending, w.pruner.scheduled);
    match (w.pruner.phase, event) {
        (Phase::Fetching, Event::Watermark { watermark }) => {
            if watermark.wait_for <= 0 {
                lemma_begin_sound(w, watermark, next, base);
            }
        },
        (Phase::Waiting { watermark }, Event::WaitElapsed) => {
            lemma_begin_sound(w, watermark, next, base);
        },
        (
            Phase::Pruning { db_watermark },
            Event::TaskFinished { from, to_exclusive, succeeded },
        ) => {
            assert(w.pruner.pending.contains_key(from));
            if succeeded {
                law_pruned_range_is_done(w.pruner, from);
            } else {
                law_failure_changes_nothing(w.pruner, from);
            }
        },
        (Phase::Pruning { db_watermark }, Event::TaskStarted { from, to_exclusive }) => {
            lemma_started(w.pruner, from, to_exclusive);
        },
        (Phase::Pruning { db_watermark }, Event::Cancelled) => {
            law_cancelled_round_starts_nothing(w.pruner);
        },
        (Phase::Updating { db_watermark }, _) => {
            assert forall|c: int| interval(base, next.pruner_hi).contains(c) implies #[trigger]
                next.pruned.contains(c) by {
                if covers(w.pruner.pending, c) {
                    let k = choose|k: u64| #[trigger]
                        w.pruner.pending.contains_key(k) && k <= c < w.pruner.pending[k];
                }
            }
        },
        _ => {},
    }
}

/// `worlds` are the worlds that a new pruner goes through as `events` happen.
pub open spec fn is_run(config: PrunerConfig, worlds: Seq<World>, events: Seq<Event>) -> bool {
    &&& worlds.len() == events.len() + 1
    &&& worlds[0].initial(config)
    &&& forall|i: int|
        0 <= i < events.len() ==> (#[trigger] worlds[i]).steps_to(events[i], worlds[i + 1])
}

proof fn lemma_run_is_sound(config: PrunerConfig, worlds: Seq<World>, events: Seq<Event>, n: int)
    requires
        is_run(config, worlds, events),
        0 <= n < worlds.len(),
    ensures
        worlds[n].sound(worlds[0].pruner_hi),
    decreases n,
{
    if n > 0 {
        lemma_run_is_sound(config, worlds, events, n - 1);
        assert(worlds[n - 1].steps_to(events[n - 1], worlds[n - 1 + 1]));
        law_step_keeps_sound(worlds[n - 1], events[n - 1], worlds[n], worlds[0].pruner_hi);
    }
}

/// However long a pruner runs, in whatever order its attempts end, whichever of them fail, and
/// whatever `reader_lo` does: every checkpoint between the watermark that the pruner found in the
/// database and the one that is there now has been pruned.
pub proof fn law_watermark_is_sound(
    config: PrunerConfig,
    worlds: Seq<World>,
    events: Seq<Event>,
    n: int,
)
    requires
        is_run(config, worlds, events),
        0 <= n < worlds.len(),
    ensures
        worlds[n].sound(worlds[0].pruner_hi),
        forall|c: int|
            worlds[0].pruner_hi <= c < worlds[n].pruner_hi ==> #[trigger] worlds[n].pruned.contains(
                c,
            ),
{
    lemma_run_is_sound(config, worlds, events, n);
    assert forall|c: int| worlds[0].pruner_hi <= c < worlds[n].pruner_hi implies #[trigger]
        worlds[n].pruned.contains(c) by {
        assert(interval(worlds[0].pruner_hi, worlds[n].pruner_hi).contains(c));
    }
}

/// The range of event `i` was pruned, and holds checkpoint `c`.
pub open spec fn prunes(events: Seq<Event>, i: int, c: int) -> bool {
    events[i] matches Event::TaskFinished { from, to_exclusive, succeeded: true } && from <= c
        < to_exclusive
}

/// One of the first `n` events is that a range was pruned which holds checkpoint `c`.
pub open spec fn pruned_by(events: Seq<Event>, n: int, c: int) -> bool {
    exists|i: int| 0 <= i < n && prunes(events, i, c)
}

/// The checkpoints that have been pruned are those in the ranges for which an attempt succeeded.
pub proof fn law_pruned_by_attempts(
    config: PrunerConfig,
    worlds: Seq<World>,
    events: Seq<Event>,
    n: int,
    c: int,
)
    requires
        is_run(config, worlds, events),
        0 <= n < worlds.len(),
    ensures
        worlds[n].pruned.contains(c) <==> pruned_by(events, n, c),
    decreases n,
{
    if n > 0 {
        law_pruned_by_attempts(config, worlds, events, n - 1, c);
        assert(worlds[n - 1].steps_to(events[n - 1], worlds[n - 1 + 1]));
        if worlds[n].pruned.contains(c) {
            if worlds[n - 1].pruned.contains(c) {
                let i = choose|i: int| 0 <= i < n - 1 && prunes(events, i, c);
                assert(0 <= i < n && prunes(events, i, c));
            } else {
                assert(prunes(events, n - 1, c));
            }
        }
    }
}

/// What a round tells the database. Let `old` be the watermark that the round read, and `new` the
/// one that it passes to the update. In whatever order attempts end, and whichever of them fail:
///
/// - `old <= new`, and every checkpoint from `old` up to `new` lies in a range for which an attempt
///   succeeded;
/// - `new` is the first checkpoint that has not been pruned: everything that is left lies at or
///   above it, and `new` starts a range that is left unless none is;
/// - `new` is `old` when the range that starts at `old` is left, because attempts to prune it failed;
/// - if nothing is left, everything that was ever scheduled has been pruned, and `new` is its end.
pub proof fn law_round_tells_first_unpruned(
    config: PrunerConfig,
    worlds: Seq<World>,
    events: Seq<Event>,
    n: int,
)
    requires
        is_run(config, worlds, events),
        0 <= n < worlds.len(),
    ensures
        worlds[n].pruner.action() matches Action::UpdateWatermark { watermark } ==> {
            let w = worlds[n];
            let old_hi = w.read_hi;
            let new_hi = watermark.pruner_hi;
            &&& old_hi <= new_hi
            &&& forall|c: int| old_hi <= c < new_hi ==> #[trigger] w.pruned.contains(c)
            &&& forall|c: int| old_hi <= c < new_hi ==> #[trigger] pruned_by(events, n, c)
            &&& !w.pruned.contains(new_hi as int)
            &&& forall|k: u64| #[trigger] w.pruner.pending.contains_key(k) ==> new_hi <= k
            &&& (exists|k: u64| w.pruner.pending.contains_key(k)) ==> w.pruner.pending.contains_key(
                new_hi as u64,
            )
            &&& w.pruner.pending.contains_key(old_hi as u64) ==> new_hi == old_hi
            &&& (forall|k: u64| !w.pruner.pending.contains_key(k)) ==> new_hi
                == w.pruner.scheduled && w.reader_lo <= new_hi
        },
{
    let w = worlds[n];
    let base = worlds[0].pruner_hi;
    lemma_run_is_sound(config, worlds, events, n);
    law_first_unpruned(w.pruner.pending, w.pruner.scheduled);
    if w.pruner.action() is UpdateWatermark {
        let new_hi = w.pruner.action()->UpdateWatermark_watermark.pruner_hi;
        assert forall|c: int| w.read_hi <= c < new_hi implies #[trigger] w.pruned.contains(c) by {
            if covers(w.pruner.pending, c) {
                let k = choose|k: u64| #[trigger]
                    w.pruner.pending.contains_key(k) && k <= c < w.pruner.pending[k];
            }
        }
        assert forall|c: int| w.read_hi <= c < new_hi implies #[trigger] pruned_by(
            events,
            n,
            c,
        ) by {
            law_pruned_by_attempts(config, worlds, events, n, c);
            assert(w.pruned.contains(c));
        }
        if w.pruned.contains(new_hi as int) {
            assert(!covers(w.pruner.pending, new_hi as int));
            assert(w.pruner.pending.contains_key(new_hi as u64));
        }
    }
}

/// As long as `reader_lo` does not fall, each step of the pruner spares what readers need.
pub proof fn law_step_spares_readers(w: World, event: Event, next: World, base: int)
    requires
        w.sound(base),
        w.spares_readers(),
        w.steps_to(event, next),
        w.reader_lo <= next.reader_lo,
    ensures
        next.spares_readers(),
{
    law_step_keeps_sound(w, event, next, base);
    if exists|watermark: PrunerWatermark| w.pruner.starts_round(event, watermark) {
        let watermark = choose|watermark: PrunerWatermark| w.pruner.starts_round(event, watermark);
        law_round_adds_what_is_new(w.pruner, watermark);
        let pending = next.pruner.pending;
        assert forall|from: u64| #[trigger] pending.contains_key(from) implies pending[from]
            <= next.reader_lo by {
            let last = pending[from] - 1;
            assert(covers(pending, last));
            if covers(w.pruner.pending, last) {
                let k = choose|k: u64| #[trigger]
                    w.pruner.pending.contains_key(k) && k <= last < w.pruner.pending[k];
            }
        }
    }
}

/// As long as `reader_lo` never falls, a pruner only prunes ranges that end at or before it, and
/// what it tells the database lies between the watermark that it read and `reader_lo`, unless the
/// watermark was beyond `reader_lo` already.
pub proof fn law_rising_reader_lo(
    config: PrunerConfig,
    worlds: Seq<World>,
    events: Seq<Event>,
    n: int,
)
    requires
        is_run(config, worlds, events),
        0 <= n < worlds.len(),
        forall|i: int|
            0 <= i < n ==> (#[trigger] worlds[i]).reader_lo <= worlds[i + 1].reader_lo,
    ensures
        worlds[n].spares_readers(),
        match worlds[n].pruner.action() {
            Action::StartTask { from, to_exclusive } => to_exclusive <= worlds[n].reader_lo,
            Action::UpdateWatermark { watermark } => {
                &&& worlds[n].read_hi <= watermark.pruner_hi
                &&& worlds[n].read_hi <= worlds[n].reader_lo ==> watermark.pruner_hi
                    <= worlds[n].reader_lo
            },
            _ => true,
        },
    decreases n,
{
    if n > 0 {
        let w = worlds[n];
        law_rising_reader_lo(config, worlds, events, n - 1);
        lemma_run_is_sound(config, worlds, events, n - 1);
        lemma_run_is_sound(config, worlds, events, n);
        assert(worlds[n - 1].steps_to(events[n - 1], worlds[n - 1 + 1]));
        assert(worlds[n - 1].reader_lo <= worlds[n - 1 + 1].reader_lo);
        law_step_spares_readers(worlds[n - 1], events[n - 1], w, worlds[0].pruner_hi);
        law_first_unpruned(w.pruner.pending, w.pruner.scheduled);
        law_attempts_under_way(w.pruner);
    }
}

/// A range that was pruned is never pruned again: none of its checkpoints lies in a range that is
/// pending, under way, or started later.
pub proof fn law_pruned_only_once(
    config: PrunerConfig,
    worlds: Seq<World>,
    events: Seq<Event>,
    i: int,
    n: int,
    c: int,
)
    requires
        is_run(config, worlds, events),
        0 <= i < n < worlds.len(),
        prunes(events, i, c),
    ensures
        !covers(worlds[n].pruner.pending, c),
        !covers(worlds[n].pruner.running, c),
        worlds[n].pruner.action() matches Action::StartTask { from, to_exclusive } ==> !(from <= c
            < to_exclusive),
{
    lemma_run_is_sound(config, worlds, events, n);
    law_pruned_by_attempts(config, worlds, events, n, c);
    let p = worlds[n].pruner;
    assert(worlds[n].pruned.contains(c));
    law_attempts_under_way(p);
    if covers(p.running, c) {
        let from = choose|from: u64| #[trigger]
            p.running.contains_key(from) && from <= c < p.running[from];
        assert(p.pending.contains_key(from));
    }
}

/// The ranges, by their first checkpoints, for which an attempt was started and has not ended after
/// the first `n` events.
pub open spec fn under_way(events: Seq<Event>, n: int) -> Set<u64>
    decreases n,
{
    if n <= 0 {
        Set::empty()
    } else {
        match events[n - 1] {
            Event::TaskStarted { from, .. } => under_way(events, n - 1).insert(from),
            Event::TaskFinished { from, .. } => under_way(events, n - 1).remove(from),
            _ => under_way(events, n - 1),
        }
    }
}

/// What is under way changes as attempts are started and end, and in no other way.
proof fn lemma_running(p: PrunerView, event: Event)
    requires
        p.well_formed(),
        p.accepts(event),
    ensures
        p.next(event).running.dom() == match event {
            Event::TaskStarted { from, .. } => p.running.dom().insert(from),
            Event::TaskFinished { from, .. } => p.running.dom().remove(from),
            _ => p.running.dom(),
        },
{
}

proof fn lemma_under_way(config: PrunerConfig, worlds: Seq<World>, events: Seq<Event>, n: int)
    requires
        is_run(config, worlds, events),
        0 <= n < worlds.len(),
    ensures
        under_way(events, n) == worlds[n].pruner.running.dom(),
    decreases n,
{
    if n > 0 {
        lemma_under_way(config, worlds, events, n - 1);
        lemma_run_is_sound(config, worlds, events, n - 1);
        assert(worlds[n - 1].steps_to(events[n - 1], worlds[n - 1 + 1]));
        lemma_running(worlds[n - 1].pruner, events[n - 1]);
    } else {
        assert(under_way(events, n) =~= worlds[n].pruner.running.dom());
    }
}

/// At every moment at most so many attempts are under way. No attempt is started for a range that
/// one is under way for, none is started when so many are under way, and every attempt of a round
/// has ended before the database is told and before any attempt of a later round is started.
pub proof fn law_attempts_are_limited(
    config: PrunerConfig,
    worlds: Seq<World>,
    events: Seq<Event>,
    n: int,
)
    requires
        is_run(config, worlds, events),
        0 <= n < worlds.len(),
    ensures
        under_way(events, n) == worlds[n].pruner.running.dom(),
        under_way(events, n).finite(),
        under_way(events, n).len() <= MAX_CONCURRENT_PRUNER_TASKS,
        n < events.len() ==> match events[n] {
            Event::TaskStarted { from, .. } => {
                &&& under_way(events, n).len() < MAX_CONCURRENT_PRUNER_TASKS
                &&& !under_way(events, n).contains(from)
            },
            Event::TaskFinished { from, .. } => under_way(events, n).contains(from),
            _ => true,
        },
        n < events.len() && (exists|watermark: PrunerWatermark|
            worlds[n].pruner.starts_round(events[n], watermark)) ==> under_way(events, n)
            == Set::<u64>::empty(),
        worlds[n].pruner.action() is UpdateWatermark ==> under_way(events, n)
            == Set::<u64>::empty(),
{
    let p = worlds[n].pruner;
    lemma_run_is_sound(config, worlds, events, n);
    lemma_under_way(config, worlds, events, n);
    law_attempts_under_way(p);
    if n < events.len() {
        assert(worlds[n].steps_to(events[n], worlds[n + 1]));
        if let Event::TaskStarted { from, to_exclusive } = events[n] {
            lemma_started(p, from, to_exclusive);
        }
    }
}

} // verus!
