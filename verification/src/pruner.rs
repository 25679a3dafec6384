//! The decisions of the pruner task, which deletes old data from the database.
//!
//! The task runs in rounds. At each tick it reads the watermark of its pipeline, waits until the
//! watermark may be acted upon, attempts to prune every range that is ready, so many at a time, and
//! once all attempts have ended raises the watermark to the first checkpoint that has not been
//! pruned. A range whose pruning fails stays pending and is tried again in the next round. One that
//! was pruned is not tried again, unless the watermark is found below where it was known to be: a
//! round adds only what no earlier round has added.
//!
//! [`Pruner::step`] takes what happened and says what to do next; whoever drives it does the
//! waiting and talks to the database.

use crate::pending::{
    below, disjoint, end_below, first_key, first_unpruned, law_first_unpruned, lists_in_order,
    straddles, PendingRanges,
};
use crate::watermark::{law_chunks_partition, PrunerWatermark};
use vstd::prelude::*;

verus! {

/// How many ranges may be pruned at the same time.
pub const MAX_CONCURRENT_PRUNER_TASKS: usize = 10;

/// How a pipeline is pruned.
#[derive(Clone, Copy, Debug, PartialEq, Eq, Structural)]
pub struct PrunerConfig {
    /// Milliseconds between rounds.
    pub interval_ms: u64,
    /// Milliseconds to wait after `reader_lo` was raised, so that reads in flight can land.
    pub delay_ms: u64,
    /// How many checkpoints to keep.
    pub retention: u64,
    /// How many checkpoints to prune in one transaction.
    pub max_chunk_size: u64,
}

/// Where the task stands in its round.
#[derive(Clone, Copy, Debug, PartialEq, Eq, Structural)]
pub enum Phase {
    /// Between rounds.
    Idle,
    /// Reading the watermark.
    Fetching,
    /// Waiting until the watermark may be acted upon.
    Waiting { watermark: PrunerWatermark },
    /// Attempting to prune the pending ranges. `db_watermark` is what the database will be told.
    Pruning { db_watermark: PrunerWatermark },
    /// Telling the database.
    Updating { db_watermark: PrunerWatermark },
    /// Shut down.
    Stopped,
}

/// What can happen to the task.
#[derive(Clone, Copy, Debug, PartialEq, Eq, Structural)]
pub enum Event {
    /// It is time for the next round.
    Tick,
    /// The task is told to shut down.
    Cancelled,
    /// No connection to the database could be had.
    ConnectFailed,
    /// The watermark could not be read.
    WatermarkFailed,
    /// The pipeline has no watermark.
    NoWatermark,
    /// The watermark was read.
    Watermark { watermark: PrunerWatermark },
    /// The time to wait is over.
    WaitElapsed,
    /// The attempt to prune a range has been started.
    TaskStarted { from: u64, to_exclusive: u64 },
    /// The attempt to prune a range has ended.
    TaskFinished { from: u64, to_exclusive: u64, succeeded: bool },
    /// The database was told, and says whether this raised the watermark. If not, the watermark was
    /// as high already.
    Updated { raised: bool },
    /// The database could not be told.
    UpdateFailed,
}

/// What the task does next.
#[derive(Clone, Copy, Debug, PartialEq, Eq, Structural)]
pub enum Action {
    /// Wait for the next tick, or for cancellation.
    AwaitTick,
    /// Read the pipeline's watermark.
    FetchWatermark,
    /// Wait for so many milliseconds, or for cancellation.
    Sleep { delay_ms: u64 },
    /// Start to prune this range, beside those whose pruning is under way, unless cancelled.
    StartTask { from: u64, to_exclusive: u64 },
    /// Wait for an attempt to end and, if some have not been started, for cancellation.
    AwaitTask { or_cancelled: bool },
    /// Raise the watermark in the database to `watermark.pruner_hi`.
    UpdateWatermark { watermark: PrunerWatermark },
    /// Shut down.
    Stop,
}

/// What the task reports about its progress.
#[derive(Clone, Copy, Debug, PartialEq, Eq, Structural)]
pub struct PrunerGauges {
    /// The first checkpoint that was not pruned when a range was last pruned.
    pub pruner_hi: i64,
    /// What the database was last raised to.
    pub pruner_hi_in_db: i64,
}

/// The state of a [`Pruner`].
#[verifier::ext_equal]
pub struct PrunerView {
    pub config: PrunerConfig,
    /// What is ready to be pruned but has not been pruned yet.
    pub pending: Map<u64, u64>,
    /// What of it this round has not yet started to prune.
    pub queued: Map<u64, u64>,
    /// What of it is being pruned.
    pub running: Map<u64, u64>,
    /// The end of everything that was ready to be pruned.
    pub scheduled: u64,
    /// What the watermark in the database was last known to have reached.
    pub known_hi: i64,
    pub phase: Phase,
    pub gauges: PrunerGauges,
}

impl PrunerView {
    /// The state before the first round.
    pub open spec fn initial(config: PrunerConfig) -> PrunerView {
        PrunerView {
            config,
            pending: Map::empty(),
            queued: Map::empty(),
            running: Map::empty(),
            scheduled: 0,
            known_hi: 0,
            phase: Phase::Idle,
            gauges: PrunerGauges { pruner_hi: 0, pruner_hi_in_db: 0 },
        }
    }

    /// Pending ranges hold checkpoints that were scheduled, no two of them the same. At most so
    /// many of them are being pruned, none of which is still to be started, and the round goes on
    /// until no attempt is left. The watermark of the round is one that can be pruned up to.
    pub open spec fn well_formed(self) -> bool {
        &&& self.scheduled <= i64::MAX
        &&& forall|from: u64| #[trigger]
            self.pending.contains_key(from) ==> from < self.pending[from] <= self.scheduled
        &&& disjoint(self.pending)
        &&& self.queued.submap_of(self.pending)
        &&& self.running.submap_of(self.pending)
        &&& forall|from: u64|
            #![trigger self.queued.contains_key(from)]
            #![trigger self.running.contains_key(from)]
            !(self.queued.contains_key(from) && self.running.contains_key(from))
        &&& self.running.dom().finite()
        &&& self.running.len() <= MAX_CONCURRENT_PRUNER_TASKS
        &&& self.phase is Pruning <==> !self.all_ended()
        &&& match self.phase {
            Phase::Waiting { watermark } => self.usable(watermark),
            Phase::Pruning { db_watermark } => db_watermark.well_formed(),
            Phase::Updating { db_watermark } => db_watermark.well_formed(),
            _ => true,
        }
    }

    /// No attempt to prune a range is still to be started or under way.
    pub open spec fn all_ended(self) -> bool {
        &&& self.queued == Map::<u64, u64>::empty()
        &&& self.running == Map::<u64, u64>::empty()
    }

    /// Another attempt can be started.
    pub open spec fn can_start(self) -> bool {
        &&& self.queued != Map::<u64, u64>::empty()
        &&& self.running.len() < MAX_CONCURRENT_PRUNER_TASKS
    }

    /// The watermark can be cut into chunks of the configured size.
    pub open spec fn usable(self, watermark: PrunerWatermark) -> bool {
        &&& watermark.well_formed()
        &&& watermark.divisible(self.config.max_chunk_size)
    }

    /// The event can happen in this state. An attempt is started for the first range that none was
    /// started for, and ends only if it was started and has not ended yet.
    pub open spec fn accepts(self, event: Event) -> bool {
        match (self.phase, event) {
            (Phase::Idle, Event::Tick) => true,
            (Phase::Idle, Event::Cancelled) => true,
            (Phase::Fetching, Event::ConnectFailed) => true,
            (Phase::Fetching, Event::WatermarkFailed) => true,
            (Phase::Fetching, Event::NoWatermark) => true,
            (Phase::Fetching, Event::Watermark { watermark }) => self.usable(watermark),
            (Phase::Waiting { watermark }, Event::WaitElapsed) => true,
            (Phase::Waiting { watermark }, Event::Cancelled) => true,
            (Phase::Pruning { db_watermark }, Event::TaskStarted { from, to_exclusive }) => {
                &&& self.can_start()
                &&& from == first_key(self.queued)
                &&& to_exclusive == self.queued[from]
            },
            (
                Phase::Pruning { db_watermark },
                Event::TaskFinished { from, to_exclusive, succeeded },
            ) => self.running.contains_key(from) && self.running[from] == to_exclusive,
            (Phase::Pruning { db_watermark }, Event::Cancelled) => true,
            (Phase::Updating { db_watermark }, Event::ConnectFailed) => true,
            (Phase::Updating { db_watermark }, Event::Updated { raised }) => true,
            (Phase::Updating { db_watermark }, Event::UpdateFailed) => true,
            _ => false,
        }
    }

    /// The event starts a round that acts on `watermark`.
    pub open spec fn starts_round(self, event: Event, watermark: PrunerWatermark) -> bool {
        match (self.phase, event) {
            (Phase::Fetching, Event::Watermark { watermark: read }) => read == watermark
                && watermark.wait_for <= 0,
            (Phase::Waiting { watermark: read }, Event::WaitElapsed) => read == watermark,
            _ => false,
        }
    }

    /// What of the state still counts once `watermark` was read. The task only ever raises the
    /// watermark, so when it is lower than it was known to be, somebody wants the data above it
    /// pruned again: then nothing from there on counts as pruned or pending, but for a pending
    /// range that starts below.
    pub open spec fn recalled(self, watermark: PrunerWatermark) -> PrunerView {
        if watermark.pruner_hi < self.known_hi {
            let at = watermark.pruner_hi as u64;
            PrunerView {
                pending: below(self.pending, at),
                scheduled: end_below(self.pending, at),
                ..self
            }
        } else {
            self
        }
    }

    /// What of `watermark` no earlier round has scheduled. Everything between the watermark and
    /// `scheduled` has been pruned or is pending.
    pub open spec fn unscheduled(self, watermark: PrunerWatermark) -> PrunerWatermark {
        PrunerWatermark {
            pruner_hi: if watermark.pruner_hi < self.scheduled {
                self.scheduled as i64
            } else {
                watermark.pruner_hi
            },
            ..watermark
        }
    }

    /// The state once `watermark` may be acted upon: what it has ready, and no earlier round has
    /// scheduled, becomes pending, and everything that is pending is to be pruned. If all up to
    /// some higher checkpoint is known to be pruned, as when the database could not be told in an
    /// earlier round, it will be told now.
    pub open spec fn begin(self, watermark: PrunerWatermark) -> PrunerView {
        let kept = self.recalled(watermark);
        let rest = kept.unscheduled(watermark);
        let pending = kept.pending.union_prefer_right(rest.chunks(self.config.max_chunk_size));
        let scheduled = if rest.pruner_hi < rest.reader_lo {
            rest.reader_lo as u64
        } else {
            rest.pruner_hi as u64
        };
        let first = first_unpruned(pending, scheduled);
        let pruner_hi = if watermark.pruner_hi < first {
            first as i64
        } else {
            watermark.pruner_hi
        };
        PrunerView {
            pending,
            queued: pending,
            running: Map::empty(),
            scheduled,
            known_hi: watermark.pruner_hi,
            phase: Phase::Pruning { db_watermark: PrunerWatermark { pruner_hi, ..watermark } },
            ..self
        }.settled()
    }

    /// The state once the range that starts at `from` was pruned: it is no longer pending, and the
    /// database will be told the first checkpoint that has not been pruned.
    pub open spec fn complete(self, db_watermark: PrunerWatermark, from: u64) -> PrunerView {
        let pending = self.pending.remove(from);
        let pruner_hi = first_unpruned(pending, self.scheduled) as i64;
        PrunerView {
            pending,
            phase: Phase::Pruning { db_watermark: PrunerWatermark { pruner_hi, ..db_watermark } },
            gauges: PrunerGauges { pruner_hi, ..self.gauges },
            ..self
        }
    }

    /// The state, but that the database is told if no attempt is left.
    pub open spec fn settled(self) -> PrunerView {
        match self.phase {
            Phase::Pruning { db_watermark } => if self.all_ended() {
                PrunerView { phase: Phase::Updating { db_watermark }, ..self }
            } else {
                self
            },
            _ => self,
        }
    }

    /// The state after the event. Cancellation shuts the task down between rounds and while it
    /// waits; while it prunes, no further attempt is started, and what is under way is seen to its
    /// end.
    pub open spec fn next(self, event: Event) -> PrunerView {
        match (self.phase, event) {
            (Phase::Idle, Event::Tick) => PrunerView { phase: Phase::Fetching, ..self },
            (Phase::Fetching, Event::Watermark { watermark }) => if watermark.wait_for > 0 {
                PrunerView { phase: Phase::Waiting { watermark }, ..self }
            } else {
                self.begin(watermark)
            },
            (Phase::Waiting { watermark }, Event::WaitElapsed) => self.begin(watermark),
            (Phase::Pruning { db_watermark }, Event::TaskStarted { from, to_exclusive }) => {
                PrunerView {
                    queued: self.queued.remove(from),
                    running: self.running.insert(from, to_exclusive),
                    ..self
                }
            },
            (
                Phase::Pruning { db_watermark },
                Event::TaskFinished { from, to_exclusive, succeeded },
            ) => {
                let ended = PrunerView { running: self.running.remove(from), ..self };
                if succeeded {
                    ended.complete(db_watermark, from).settled()
                } else {
                    ended.settled()
                }
            },
            (Phase::Pruning { db_watermark }, Event::Cancelled) => {
                PrunerView { queued: Map::empty(), ..self }.settled()
            },
            (_, Event::Cancelled) => PrunerView { phase: Phase::Stopped, ..self },
            (Phase::Updating { db_watermark }, Event::Updated { raised }) => PrunerView {
                phase: Phase::Idle,
                known_hi: if self.known_hi < db_watermark.pruner_hi {
                    db_watermark.pruner_hi
                } else {
                    self.known_hi
                },
                gauges: if raised {
                    PrunerGauges { pruner_hi_in_db: db_watermark.pruner_hi, ..self.gauges }
                } else {
                    self.gauges
                },
                ..self
            },
            _ => PrunerView { phase: Phase::Idle, ..self },
        }
    }

    /// What to do in this state.
    pub open spec fn action(self) -> Action {
        match self.phase {
            Phase::Idle => Action::AwaitTick,
            Phase::Fetching => Action::FetchWatermark,
            Phase::Waiting { watermark } => Action::Sleep { delay_ms: watermark.wait_for as u64 },
            Phase::Pruning { db_watermark } => if self.can_start() {
                let from = first_key(self.queued);
                Action::StartTask { from, to_exclusive: self.queued[from] }
            } else {
                Action::AwaitTask { or_cancelled: self.queued != Map::<u64, u64>::empty() }
            },
            Phase::Updating { db_watermark } => Action::UpdateWatermark { watermark: db_watermark },
            Phase::Stopped => Action::Stop,
        }
    }
}

/// What still counts once a watermark was read is as well-formed as what counted before.
pub(crate) proof fn lemma_recalled(p: PrunerView, watermark: PrunerWatermark)
    requires
        p.well_formed(),
        watermark.well_formed(),
    ensures
        ({
            let kept = p.recalled(watermark);
            &&& kept.scheduled <= i64::MAX
            &&& forall|from: u64| #[trigger]
                kept.pending.contains_key(from) ==> from < kept.pending[from] <= kept.scheduled
            &&& disjoint(kept.pending)
            &&& kept.pending.submap_of(p.pending)
        }),
{
    if watermark.pruner_hi < p.known_hi {
        let at = watermark.pruner_hi as u64;
        let kept = p.recalled(watermark);
        assert forall|from: u64| #[trigger] kept.pending.contains_key(from) implies from
            < kept.pending[from] <= kept.scheduled by {
            assert(p.pending.contains_key(from));
            if at < p.pending[from] {
                assert(straddles(p.pending, from, at));
                let k = choose|k: u64| straddles(p.pending, k, at);
                assert(p.pending.contains_key(k));
            }
        }
        assert forall|a: u64, b: u64|
            #![trigger kept.pending.contains_key(a), kept.pending.contains_key(b)]
            kept.pending.contains_key(a) && kept.pending.contains_key(b) && a < b implies
            kept.pending[a] <= b by {
            assert(p.pending.contains_key(a) && p.pending.contains_key(b));
        }
    }
}

/// The attempt that can be started is one for a queued range.
pub(crate) proof fn lemma_first_queued(p: PrunerView)
    requires
        p.can_start(),
    ensures
        p.queued.contains_key(first_key(p.queued)),
{
    law_first_unpruned(p.queued, 0);
    if forall|k: u64| !p.queued.contains_key(k) {
        assert(p.queued =~= Map::<u64, u64>::empty());
    }
}

/// The pruner task of a pipeline.
pub struct Pruner {
    config: PrunerConfig,
    pending: PendingRanges,
    queued: PendingRanges,
    running: PendingRanges,
    scheduled: u64,
    known_hi: i64,
    phase: Phase,
    gauges: PrunerGauges,
}

impl View for Pruner {
    type V = PrunerView;

    closed spec fn view(&self) -> PrunerView {
        PrunerView {
            config: self.config,
            pending: self.pending@,
            queued: self.queued@,
            running: self.running@,
            scheduled: self.scheduled,
            known_hi: self.known_hi,
            phase: self.phase,
            gauges: self.gauges,
        }
    }
}

impl Pruner {
    /// The task before its first round. Without a configuration there is no task.
    pub fn new(config: Option<PrunerConfig>) -> (pruner: Option<Pruner>)
        ensures
            pruner is Some <==> config is Some,
            pruner matches Some(p) ==> p@ == PrunerView::initial(config->0) && p@.well_formed(),
    {
        match config {
            None => None,
            Some(config) => {
                let pruner = Pruner {
                    config,
                    pending: PendingRanges::new(),
                    queued: PendingRanges::new(),
                    running: PendingRanges::new(),
                    scheduled: 0,
                    known_hi: 0,
                    phase: Phase::Idle,
                    gauges: PrunerGauges { pruner_hi: 0, pruner_hi_in_db: 0 },
                };
                Some(pruner)
            },
        }
    }

    /// Where the task stands in its round.
    pub fn phase(&self) -> (phase: Phase)
        ensures
            phase == self@.phase,
    {
        self.phase
    }

    /// The ranges that wait to be pruned, by increasing first checkpoint.
    pub fn pending(&self) -> (ranges: Vec<(u64, u64)>)
        ensures
            lists_in_order(ranges@, self@.pending),
    {
        self.pending.ranges()
    }

    /// Those of them that this round has not yet started to prune.
    pub fn queued(&self) -> (ranges: Vec<(u64, u64)>)
        ensures
            lists_in_order(ranges@, self@.queued),
    {
        self.queued.ranges()
    }

    /// Those of them that are being pruned.
    pub fn running(&self) -> (ranges: Vec<(u64, u64)>)
        ensures
            lists_in_order(ranges@, self@.running),
    {
        self.running.ranges()
    }

    /// What the task reports about its progress.
    pub fn gauges(&self) -> (gauges: PrunerGauges)
        ensures
            gauges == self@.gauges,
    {
        self.gauges
    }

    /// What the task does now.
    pub fn action(&self) -> (action: Action)
        requires
            self@.well_formed(),
        ensures
            action == self@.action(),
    {
        match self.phase {
            Phase::Idle => Action::AwaitTick,
            Phase::Fetching => Action::FetchWatermark,
            Phase::Waiting { watermark } => Action::Sleep { delay_ms: watermark.wait_for as u64 },
            Phase::Pruning { db_watermark } => match self.queued.first() {
                Some((from, to_exclusive)) => if self.running.len() < MAX_CONCURRENT_PRUNER_TASKS {
                    Action::StartTask { from, to_exclusive }
                } else {
                    Action::AwaitTask { or_cancelled: true }
                },
                None => Action::AwaitTask { or_cancelled: false },
            },
            Phase::Updating { db_watermark } => Action::UpdateWatermark { watermark: db_watermark },
            Phase::Stopped => Action::Stop,
        }
    }

    /// Takes note of an event and says what to do next.
    pub fn step(&mut self, event: Event) -> (action: Action)
        requires
            old(self)@.well_formed(),
            old(self)@.accepts(event),
        ensures
            final(self)@.well_formed(),
            final(self)@ == old(self)@.next(event),
            action == final(self)@.action(),
    {
        match (self.phase, event) {
            (Phase::Idle, Event::Tick) => {
                self.phase = Phase::Fetching;
            },
            (Phase::Fetching, Event::Watermark { watermark }) => {
                if watermark.wait_for().is_some() {
                    self.phase = Phase::Waiting { watermark };
                } else {
                    self.start_round(watermark);
                }
            },
            (Phase::Waiting { watermark }, Event::WaitElapsed) => {
                self.start_round(watermark);
            },
            (Phase::Pruning { db_watermark }, Event::TaskStarted { from, to_exclusive }) => {
                self.start_range(from, to_exclusive);
            },
            (
                Phase::Pruning { db_watermark },
                Event::TaskFinished { from, to_exclusive, succeeded },
            ) => {
                self.end_range(db_watermark, from, succeeded);
            },
            (Phase::Pruning { db_watermark }, Event::Cancelled) => {
                self.queued = PendingRanges::new();
                self.settle();
            },
            (_, Event::Cancelled) => {
                self.phase = Phase::Stopped;
            },
            (Phase::Updating { db_watermark }, Event::Updated { raised }) => {
                if self.known_hi < db_watermark.pruner_hi {
                    self.known_hi = db_watermark.pruner_hi;
                }
                if raised {
                    self.gauges.pruner_hi_in_db = db_watermark.pruner_hi;
                }
                self.phase = Phase::Idle;
            },
            _ => {
                self.phase = Phase::Idle;
            },
        }
        self.action()
    }

    /// Goes on to tell the database if no attempt is left.
    fn settle(&mut self)
        ensures
            final(self)@ == old(self)@.settled(),
    {
        if let Phase::Pruning { db_watermark } = self.phase {
            if self.queued.first().is_none() && self.running.first().is_none() {
                self.phase = Phase::Updating { db_watermark };
            }
        }
    }

    /// Makes everything pending that the watermark has ready and no earlier round has scheduled,
    /// and has all that is pending pruned.
    fn start_round(&mut self, watermark: PrunerWatermark)
        requires
            old(self)@.well_formed(),
            old(self)@.usable(watermark),
            old(self)@.all_ended(),
        ensures
            final(self)@.well_formed(),
            final(self)@ == old(self)@.begin(watermark),
    {
        proof {
            lemma_recalled(self@, watermark);
        }
        if watermark.pruner_hi < self.known_hi {
            self.scheduled = self.pending.keep_below(watermark.pruner_hi as u64);
        }
        self.known_hi = watermark.pruner_hi;
        let mut rest = watermark;
        if (rest.pruner_hi as u64) < self.scheduled {
            rest.pruner_hi = self.scheduled as i64;
        }
        proof {
            if rest.pruner_hi < rest.reader_lo {
                law_chunks_partition(
                    rest.pruner_hi as int,
                    rest.reader_lo as int,
                    self.config.max_chunk_size as int,
                );
            }
        }
        self.pending.schedule(&mut rest, self.config.max_chunk_size);
        self.scheduled = rest.pruner_hi as u64;
        self.queued = self.pending.clone();
        proof {
            law_first_unpruned(self@.pending, self@.scheduled);
        }
        let first: u64 = self.pending.first_unpruned(self.scheduled);
        let mut db_watermark = watermark;
        if (db_watermark.pruner_hi as u64) < first {
            db_watermark.pruner_hi = first as i64;
        }
        self.phase = Phase::Pruning { db_watermark };
        self.settle();
    }

    /// Takes note that the attempt for the first queued range was started.
    fn start_range(&mut self, from: u64, to_exclusive: u64)
        requires
            old(self)@.well_formed(),
            old(self)@.accepts(Event::TaskStarted { from, to_exclusive }),
        ensures
            final(self)@.well_formed(),
            final(self)@ == old(self)@.next(Event::TaskStarted { from, to_exclusive }),
    {
        proof {
            lemma_first_queued(self@);
        }
        self.queued.remove(from);
        self.running.insert(from, to_exclusive);
        assert(self@.running.contains_key(from));
    }

    /// Takes note that the attempt for a running range has ended.
    fn end_range(&mut self, db_watermark: PrunerWatermark, from: u64, succeeded: bool)
        requires
            old(self)@.well_formed(),
            old(self)@.phase == (Phase::Pruning { db_watermark }),
            old(self)@.running.contains_key(from),
        ensures
            final(self)@.well_formed(),
            final(self)@ == old(self)@.next(
                Event::TaskFinished { from, to_exclusive: old(self)@.running[from], succeeded },
            ),
    {
        self.running.remove(from);
        if succeeded {
            self.pending.remove(from);
            proof {
                law_first_unpruned(self@.pending, self@.scheduled);
            }
            let pruner_hi: i64 = self.pending.first_unpruned(self.scheduled) as i64;
            self.phase = Phase::Pruning {
                db_watermark: PrunerWatermark { pruner_hi, ..db_watermark },
            };
            self.gauges.pruner_hi = pruner_hi;
        }
        self.settle();
    }
}

} // verus!
