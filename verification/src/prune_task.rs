//! One attempt to prune a range of checkpoints, and what is counted about it.

use vstd::prelude::*;

verus! {

/// What the attempts to prune a pipeline have come to. The counters wrap around.
#[derive(Clone, Copy, Debug, PartialEq, Eq, Structural)]
pub struct PrunerCounters {
    /// Attempts that were started.
    pub chunks_attempted: u64,
    /// Attempts that succeeded.
    pub chunks_deleted: u64,
    /// Rows that those deleted.
    pub rows_deleted: u64,
}

/// What a counter shows after it was increased by `by`.
pub open spec fn increased(counter: u64, by: int) -> u64 {
    ((counter + by) % 0x1_0000_0000_0000_0000) as u64
}

/// How far an attempt has come.
#[derive(Clone, Copy, Debug, PartialEq, Eq, Structural)]
pub enum TaskPhase {
    /// It needs a connection.
    Connecting,
    /// It has a connection, and deletes rows.
    Deleting,
    /// It has ended.
    Finished { succeeded: bool },
}

/// What can happen to an attempt. Errors are of type `E`.
#[derive(Debug, PartialEq, Eq)]
pub enum TaskEvent<E> {
    /// It got a connection.
    Connected,
    /// It got none.
    ConnectFailed { error: E },
    /// So many rows were deleted.
    Deleted { affected: usize },
    /// The rows could not be deleted.
    DeleteFailed { error: E },
}

/// What an attempt does next.
#[derive(Debug, PartialEq, Eq)]
pub enum TaskAction<E> {
    /// Get a connection to the database.
    Connect,
    /// Delete the data of the checkpoints from `from` up to `to_exclusive`.
    Delete { from: u64, to_exclusive: u64 },
    /// Report how the attempt ended.
    Finish { result: Result<(), E> },
}

/// An attempt to prune the checkpoints from `from` up to `to_exclusive`.
#[derive(Clone, Copy, Debug, PartialEq, Eq, Structural)]
pub struct PruneTask {
    pub from: u64,
    pub to_exclusive: u64,
    pub phase: TaskPhase,
}

impl PruneTask {
    /// The event can happen to the attempt as it stands.
    pub open spec fn accepts<E>(self, event: TaskEvent<E>) -> bool {
        match event {
            TaskEvent::Connected | TaskEvent::ConnectFailed { .. } => self.phase is Connecting,
            TaskEvent::Deleted { .. } | TaskEvent::DeleteFailed { .. } => self.phase is Deleting,
        }
    }

    /// Where the attempt stands after the event.
    pub open spec fn next<E>(self, event: TaskEvent<E>) -> PruneTask {
        PruneTask {
            phase: match event {
                TaskEvent::Connected => TaskPhase::Deleting,
                TaskEvent::Deleted { affected } => TaskPhase::Finished { succeeded: true },
                TaskEvent::ConnectFailed { .. } | TaskEvent::DeleteFailed { .. } => {
                    TaskPhase::Finished { succeeded: false }
                },
            },
            ..self
        }
    }

    /// What to do after the event. An attempt that failed reports the error that it failed with.
    pub open spec fn action<E>(self, event: TaskEvent<E>) -> TaskAction<E> {
        match event {
            TaskEvent::Connected => TaskAction::Delete {
                from: self.from,
                to_exclusive: self.to_exclusive,
            },
            TaskEvent::Deleted { affected } => TaskAction::Finish { result: Ok(()) },
            TaskEvent::ConnectFailed { error } => TaskAction::Finish { result: Err(error) },
            TaskEvent::DeleteFailed { error } => TaskAction::Finish { result: Err(error) },
        }
    }

    /// Starts an attempt, and counts it. The first thing to do is to [`TaskAction::Connect`].
    pub fn start(from: u64, to_exclusive: u64, counters: &mut PrunerCounters) -> (task: PruneTask)
        ensures
            task == (PruneTask { from, to_exclusive, phase: TaskPhase::Connecting }),
            *final(counters) == old(counters).after(CountedEvent::<()>::Started),
            final(counters).chunks_deleted == old(counters).chunks_deleted,
            final(counters).rows_deleted == old(counters).rows_deleted,
            old(counters).chunks_attempted < u64::MAX ==> final(counters).chunks_attempted == old(
                counters,
            ).chunks_attempted + 1,
    {
        counters.chunks_attempted = counters.chunks_attempted.wrapping_add(1);
        PruneTask { from, to_exclusive, phase: TaskPhase::Connecting }
    }

    /// Takes note of an event and says what to do next. Only an attempt that deleted its rows is
    /// counted as one that succeeded.
    pub fn step<E>(&mut self, event: TaskEvent<E>, counters: &mut PrunerCounters) -> (action:
        TaskAction<E>)
        requires
            old(self).accepts(event),
        ensures
            *final(self) == old(self).next(event),
            action == old(self).action(event),
            *final(counters) == old(counters).after(CountedEvent::Happened { event }),
            final(self).from == old(self).from,
            final(self).to_exclusive == old(self).to_exclusive,
            match event {
                TaskEvent::Connected => {
                    &&& final(self).phase == TaskPhase::Deleting
                    &&& action == (TaskAction::<E>::Delete {
                        from: old(self).from,
                        to_exclusive: old(self).to_exclusive,
                    })
                },
                TaskEvent::Deleted { .. } => {
                    &&& final(self).phase == (TaskPhase::Finished { succeeded: true })
                    &&& action == (TaskAction::<E>::Finish { result: Ok(()) })
                },
                TaskEvent::ConnectFailed { error } => {
                    &&& final(self).phase == (TaskPhase::Finished { succeeded: false })
                    &&& action == (TaskAction::<E>::Finish { result: Err(error) })
                },
                TaskEvent::DeleteFailed { error } => {
                    &&& final(self).phase == (TaskPhase::Finished { succeeded: false })
                    &&& action == (TaskAction::<E>::Finish { result: Err(error) })
                },
            },
    {
        match event {
            TaskEvent::Connected => {
                self.phase = TaskPhase::Deleting;
                TaskAction::Delete { from: self.from, to_exclusive: self.to_exclusive }
            },
            TaskEvent::Deleted { affected } => {
                counters.chunks_deleted = counters.chunks_deleted.wrapping_add(1);
                counters.rows_deleted = counters.rows_deleted.wrapping_add(affected as u64);
                self.phase = TaskPhase::Finished { succeeded: true };
                TaskAction::Finish { result: Ok(()) }
            },
            TaskEvent::ConnectFailed { error } => {
                self.phase = TaskPhase::Finished { succeeded: false };
                TaskAction::Finish { result: Err(error) }
            },
            TaskEvent::DeleteFailed { error } => {
                self.phase = TaskPhase::Finished { succeeded: false };
                TaskAction::Finish { result: Err(error) }
            },
        }
    }
}

/// `tasks` are the states that an attempt goes through from its start, as `events` happen to it, and
/// `actions` are what it does after each of them.
pub open spec fn is_attempt<E>(
    tasks: Seq<PruneTask>,
    events: Seq<TaskEvent<E>>,
    actions: Seq<TaskAction<E>>,
) -> bool {
    &&& tasks.len() == events.len() + 1
    &&& actions.len() == events.len()
    &&& tasks[0].phase is Connecting
    &&& forall|i: int|
        0 <= i < events.len() ==> #[trigger] is_step(tasks[i], events[i], tasks[i + 1], actions[i])
}

/// `event` can happen to `task`, takes it to `next`, and has it do `action`.
pub open spec fn is_step<E>(
    task: PruneTask,
    event: TaskEvent<E>,
    next: PruneTask,
    action: TaskAction<E>,
) -> bool {
    task.accepts(event) && next == task.next(event) && action == task.action(event)
}

/// An attempt ends with its deletion, or where it fails. Of every run of an attempt:
///
/// - it is for one range from start to end, and at most two events happen to it;
/// - it deletes its range once it is connected, whole, and at no other time;
/// - when it is told that rows were deleted, however many, even none, it has succeeded, reports that,
///   and is done;
/// - when it fails, it reports the error that it failed with, and is done;
/// - as long as it is not done, it can connect or fail to, or delete any number of rows or fail to,
///   as the case may be.
pub proof fn law_attempt_ends_with_its_deletion<E>(
    tasks: Seq<PruneTask>,
    events: Seq<TaskEvent<E>>,
    actions: Seq<TaskAction<E>>,
)
    requires
        is_attempt(tasks, events, actions),
    ensures
        events.len() <= 2,
        events.len() == 2 ==> events[0] is Connected && (events[1] is Deleted
            || events[1] is DeleteFailed),
        forall|i: int|
            0 <= i < tasks.len() ==> (#[trigger] tasks[i]).from == tasks[0].from
                && tasks[i].to_exclusive == tasks[0].to_exclusive,
        forall|i: int|
            #![trigger events[i]]
            #![trigger actions[i]]
            0 <= i < events.len() ==> match events[i] {
                TaskEvent::Connected => {
                    &&& i == 0
                    &&& tasks[i + 1].phase is Deleting
                    &&& actions[i] matches TaskAction::Delete { from, to_exclusive }
                    &&& from == tasks[0].from && to_exclusive == tasks[0].to_exclusive
                },
                TaskEvent::Deleted { affected } => {
                    &&& i == 1 && events.len() == 2
                    &&& tasks[i + 1].phase matches TaskPhase::Finished { succeeded: true }
                    &&& actions[i] matches TaskAction::Finish { result: Ok(()) }
                },
                TaskEvent::ConnectFailed { error } => {
                    &&& i == 0 && events.len() == 1
                    &&& tasks[i + 1].phase matches TaskPhase::Finished { succeeded: false }
                    &&& actions[i] matches TaskAction::Finish { result: Err(reported) }
                    &&& reported == error
                },
                TaskEvent::DeleteFailed { error } => {
                    &&& i == 1 && events.len() == 2
                    &&& tasks[i + 1].phase matches TaskPhase::Finished { succeeded: false }
                    &&& actions[i] matches TaskAction::Finish { result: Err(reported) }
                    &&& reported == error
                },
            },
        forall|event: TaskEvent<E>| #[trigger]
            tasks.last().accepts(event) <==> match event {
                TaskEvent::Connected => events.len() == 0,
                TaskEvent::ConnectFailed { .. } => events.len() == 0,
                TaskEvent::Deleted { .. } => events.len() == 1 && events[0] is Connected,
                TaskEvent::DeleteFailed { .. } => events.len() == 1 && events[0] is Connected,
            },
{
    if events.len() > 0 {
        assert(is_step(tasks[0], events[0], tasks[0int + 1], actions[0]));
    }
    if events.len() > 1 {
        assert(is_step(tasks[1], events[1], tasks[1int + 1], actions[1]));
    }
    if events.len() > 2 {
        assert(is_step(tasks[2], events[2], tasks[2int + 1], actions[2]));
    }
}

/// What one event does to the counters. The start of an attempt counts as one attempt. A deletion
/// counts as one success, and with as many rows as were deleted. Nothing else counts, and nothing
/// else changes, but that a counter starts again from zero past the largest number.
pub proof fn law_one_event_counts_once<E>(counters: PrunerCounters, event: CountedEvent<E>)
    ensures
        ({
            let now = counters.after(event);
            let attempts = now.chunks_attempted - counters.chunks_attempted;
            let successes = now.chunks_deleted - counters.chunks_deleted;
            let rows = now.rows_deleted - counters.rows_deleted;
            let wrap: int = 0x1_0000_0000_0000_0000;
            match event {
                CountedEvent::Started => {
                    &&& attempts == 1 || attempts == 1 - wrap
                    &&& successes == 0 && rows == 0
                },
                CountedEvent::Happened { event: TaskEvent::Deleted { affected } } => {
                    &&& attempts == 0
                    &&& successes == 1 || successes == 1 - wrap
                    &&& rows == affected || rows == affected - wrap
                },
                _ => attempts == 0 && successes == 0 && rows == 0,
            }
        }),
{
    match event {
        CountedEvent::Started => {
            lemma_increased_by(counters.chunks_attempted, 1);
        },
        CountedEvent::Happened { event: TaskEvent::Deleted { affected } } => {
            lemma_increased_by(counters.chunks_deleted, 1);
            lemma_increased_by(counters.rows_deleted, affected as int);
        },
        _ => {},
    }
}

/// An increase by less than a whole turn.
proof fn lemma_increased_by(counter: u64, by: int)
    requires
        0 <= by < 0x1_0000_0000_0000_0000,
    ensures
        increased(counter, by) == counter + by || increased(counter, by) == counter + by
            - 0x1_0000_0000_0000_0000,
{
    let m: int = 0x1_0000_0000_0000_0000;
    if counter + by < m {
        vstd::arithmetic::div_mod::lemma_small_mod((counter + by) as nat, m as nat);
    } else {
        vstd::arithmetic::div_mod::lemma_mod_sub_multiples_vanish(counter + by, m);
        vstd::arithmetic::div_mod::lemma_small_mod((counter + by - m) as nat, m as nat);
    }
}

/// Something that happened to one of the attempts of a pipeline.
pub enum CountedEvent<E> {
    /// An attempt was started.
    Started,
    /// An event happened to an attempt.
    Happened { event: TaskEvent<E> },
}

impl PrunerCounters {
    /// The counters before the first attempt.
    pub open spec fn zero() -> PrunerCounters {
        PrunerCounters { chunks_attempted: 0, chunks_deleted: 0, rows_deleted: 0 }
    }

    /// The counters after something happened to an attempt.
    pub open spec fn after<E>(self, event: CountedEvent<E>) -> PrunerCounters {
        match event {
            CountedEvent::Started => PrunerCounters {
                chunks_attempted: increased(self.chunks_attempted, 1),
                ..self
            },
            CountedEvent::Happened { event: TaskEvent::Deleted { affected } } => PrunerCounters {
                chunks_deleted: increased(self.chunks_deleted, 1),
                rows_deleted: increased(self.rows_deleted, affected as int),
                ..self
            },
            _ => self,
        }
    }

    /// The counters after all of `events`.
    pub open spec fn after_all<E>(self, events: Seq<CountedEvent<E>>) -> PrunerCounters
        decreases events.len(),
    {
        if events.len() == 0 {
            self
        } else {
            self.after_all(events.drop_last()).after(events.last())
        }
    }
}

/// How many of the attempts were started.
pub open spec fn started<E>(events: Seq<CountedEvent<E>>) -> nat
    decreases events.len(),
{
    if events.len() == 0 {
        0
    } else {
        started(events.drop_last()) + if events.last() is Started {
            1nat
        } else {
            0
        }
    }
}

/// How many of the attempts succeeded.
pub open spec fn succeeded<E>(events: Seq<CountedEvent<E>>) -> nat
    decreases events.len(),
{
    if events.len() == 0 {
        0
    } else {
        succeeded(events.drop_last()) + match events.last() {
            CountedEvent::Happened { event: TaskEvent::Deleted { affected } } => 1nat,
            _ => 0,
        }
    }
}

/// How many of the attempts failed.
pub open spec fn failed<E>(events: Seq<CountedEvent<E>>) -> nat
    decreases events.len(),
{
    if events.len() == 0 {
        0
    } else {
        failed(events.drop_last()) + match events.last() {
            CountedEvent::Happened { event: TaskEvent::ConnectFailed { .. } } => 1nat,
            CountedEvent::Happened { event: TaskEvent::DeleteFailed { .. } } => 1nat,
            _ => 0,
        }
    }
}

/// How many rows the attempts deleted that succeeded.
pub open spec fn rows<E>(events: Seq<CountedEvent<E>>) -> nat
    decreases events.len(),
{
    if events.len() == 0 {
        0
    } else {
        rows(events.drop_last()) + match events.last() {
            CountedEvent::Happened { event: TaskEvent::Deleted { affected } } => affected as nat,
            _ => 0,
        }
    }
}

/// Two increases are one.
proof fn lemma_increased(counter: u64, a: nat, b: nat)
    ensures
        increased(increased(counter, a as int), b as int) == increased(counter, (a + b) as int),
        increased(counter, 0) == counter,
{
    let m: int = 0x1_0000_0000_0000_0000;
    vstd::arithmetic::div_mod::lemma_small_mod(counter as nat, m as nat);
    vstd::arithmetic::div_mod::lemma_mod_bound(counter + a, m);
    vstd::arithmetic::div_mod::lemma_add_mod_noop_right(b as int, counter + a, m);
    assert(((counter + a) % m + b) % m == (counter + a + b) % m);
}

/// However the attempts of a pipeline run side by side: the counters have gone up by the number of
/// attempts, by the number of those that succeeded, and by the number of rows that those deleted,
/// and wrap around past the largest number that they can show.
pub proof fn law_counters_add_up<E>(counters: PrunerCounters, events: Seq<CountedEvent<E>>)
    ensures
        counters.after_all(events) == (PrunerCounters {
            chunks_attempted: increased(counters.chunks_attempted, started(events) as int),
            chunks_deleted: increased(counters.chunks_deleted, succeeded(events) as int),
            rows_deleted: increased(counters.rows_deleted, rows(events) as int),
        }),
    decreases events.len(),
{
    let c = counters;
    if events.len() == 0 {
        lemma_increased(c.chunks_attempted, 0, 0);
        lemma_increased(c.chunks_deleted, 0, 0);
        lemma_increased(c.rows_deleted, 0, 0);
    } else {
        let before = events.drop_last();
        law_counters_add_up(c, before);
        match events.last() {
            CountedEvent::Started => {
                lemma_increased(c.chunks_attempted, started(before), 1);
            },
            CountedEvent::Happened { event: TaskEvent::Deleted { affected } } => {
                lemma_increased(c.chunks_deleted, succeeded(before), 1);
                lemma_increased(c.rows_deleted, rows(before), affected as nat);
            },
            _ => {},
        }
    }
}

/// Once all of `n` attempts have ended, `k` of them with success, the counters show `n` attempts,
/// `k` that succeeded, and the sum of the rows that those deleted, which may be none. This is so
/// as long as nothing wraps around.
pub proof fn law_counters_of_finished_attempts<E>(events: Seq<CountedEvent<E>>, n: nat, k: nat)
    requires
        started(events) == n,
        succeeded(events) == k,
        succeeded(events) + failed(events) == n,
        n <= u64::MAX,
        rows(events) <= u64::MAX,
    ensures
        ({
            let counters = PrunerCounters::zero().after_all(events);
            &&& counters.chunks_attempted == n
            &&& counters.chunks_deleted == k
            &&& counters.rows_deleted == rows(events)
            &&& counters.chunks_deleted <= counters.chunks_attempted
        }),
{
    law_counters_add_up(PrunerCounters::zero(), events);
}

} // verus!
