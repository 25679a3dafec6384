//! The pruner, round by round.

use epoch_indexer::logging::{Level, WatermarkLogger, LOUD_WATERMARK_UPDATE_INTERVAL};
use epoch_indexer::pending::PendingRanges;
use epoch_indexer::prune_task::{PruneTask, PrunerCounters, TaskAction, TaskEvent, TaskPhase};
use epoch_indexer::pruner::{
    Action, Event, Phase, Pruner, PrunerConfig, PrunerGauges, MAX_CONCURRENT_PRUNER_TASKS,
};
use epoch_indexer::watermark::PrunerWatermark;

fn config(max_chunk_size: u64) -> PrunerConfig {
    PrunerConfig { interval_ms: 200, delay_ms: 100, retention: 1, max_chunk_size }
}

fn bounds(pruner_hi: i64, reader_lo: i64) -> PrunerWatermark {
    PrunerWatermark { wait_for: 0, reader_lo, pruner_hi }
}

fn new_pruner(max_chunk_size: u64) -> Pruner {
    Pruner::new(Some(config(max_chunk_size))).unwrap()
}

/// Starts as many attempts as the pruner asks for, and returns their ranges.
fn start_tasks(pruner: &mut Pruner) -> Vec<(u64, u64)> {
    let mut ranges = Vec::new();
    while let Action::StartTask { from, to_exclusive } = pruner.action() {
        pruner.step(Event::TaskStarted { from, to_exclusive });
        ranges.push((from, to_exclusive));
    }
    ranges
}

/// Starts a round, and returns the ranges for which attempts are started.
fn start(pruner: &mut Pruner, watermark: PrunerWatermark) -> Vec<(u64, u64)> {
    assert_eq!(pruner.step(Event::Tick), Action::FetchWatermark);
    let action = pruner.step(Event::Watermark { watermark });
    assert_eq!(action, pruner.action());
    start_tasks(pruner)
}

fn finish(pruner: &mut Pruner, from: u64, to_exclusive: u64, succeeded: bool) {
    assert!(pruner.running().contains(&(from, to_exclusive)));
    pruner.step(Event::TaskFinished { from, to_exclusive, succeeded });
}

/// What the database is told, once all attempts of a round have ended.
fn told(pruner: &Pruner) -> i64 {
    match pruner.action() {
        Action::UpdateWatermark { watermark } => watermark.pruner_hi,
        other => panic!("unexpected action: {:?}", other),
    }
}

#[test]
fn chunks_make_up_the_interval() {
    let mut watermark = bounds(3, 14);
    assert_eq!(watermark.next_chunk(5), Some((3, 8)));
    assert_eq!(watermark.next_chunk(5), Some((8, 13)));
    assert_eq!(watermark.next_chunk(5), Some((13, 14)));
    assert_eq!(watermark.next_chunk(5), None);
    assert_eq!(watermark, bounds(14, 14));
}

#[test]
fn huge_chunks_do_not_overflow() {
    let mut watermark = bounds(3, i64::MAX);
    assert_eq!(watermark.next_chunk(u64::MAX), Some((3, i64::MAX as u64)));
}

#[test]
fn nothing_to_prune() {
    assert_eq!(bounds(5, 5).next_chunk(1), None);
    assert_eq!(bounds(6, 5).next_chunk(1), None);
    assert_eq!(bounds(0, -1).next_chunk(1), None);
}

#[test]
fn waits_only_for_positive_delays() {
    for (wait_for, delay) in [(-5, None), (0, None), (1, Some(1)), (250, Some(250))] {
        let watermark = PrunerWatermark { wait_for, reader_lo: 1, pruner_hi: 0 };
        assert_eq!(watermark.wait_for(), delay);
    }
}

#[test]
fn pending_ranges_are_listed_in_order() {
    let mut pending = PendingRanges::new();
    assert_eq!(pending.first(), None);
    pending.insert(20, 25);
    pending.insert(10, 12);
    let mut watermark = bounds(10, 22);
    pending.schedule(&mut watermark, 5);
    assert_eq!(pending.ranges(), vec![(10, 15), (15, 20), (20, 22)]);
    assert_eq!(watermark.pruner_hi, 22);
    assert_eq!(pending.first(), Some((10, 15)));
    assert_eq!(pending.len(), 3);
    assert_eq!(pending.first_unpruned(30), 10);
    assert_eq!(PendingRanges::new().first_unpruned(30), 30);
    assert_eq!(pending.remove(10), Some(15));
    assert_eq!(pending.remove(10), None);
    assert_eq!(pending.first(), Some((15, 20)));
}

#[test]
fn no_task_without_configuration() {
    assert!(Pruner::new(None).is_none());
}

#[test]
fn round_in_order() {
    let mut pruner = new_pruner(5);
    assert_eq!(start(&mut pruner, bounds(0, 12)), vec![(0, 5), (5, 10), (10, 12)]);
    finish(&mut pruner, 0, 5, true);
    assert_eq!(pruner.gauges(), PrunerGauges { pruner_hi: 5, pruner_hi_in_db: 0 });
    finish(&mut pruner, 5, 10, true);
    finish(&mut pruner, 10, 12, true);
    assert_eq!(told(&pruner), 12);
    assert_eq!(pruner.step(Event::Updated { raised: true }), Action::AwaitTick);
    assert_eq!(pruner.gauges(), PrunerGauges { pruner_hi: 12, pruner_hi_in_db: 12 });
    assert_eq!(pruner.pending(), vec![]);
    assert_eq!(pruner.phase(), Phase::Idle);
}

#[test]
fn watermark_stops_at_the_first_range_that_is_left() {
    let mut pruner = new_pruner(5);
    start(&mut pruner, bounds(0, 15));
    finish(&mut pruner, 10, 15, true);
    assert_eq!(pruner.gauges().pruner_hi, 0);
    finish(&mut pruner, 0, 5, true);
    assert_eq!(pruner.gauges().pruner_hi, 5);
    finish(&mut pruner, 5, 10, false);
    assert_eq!(told(&pruner), 5);
    assert_eq!(pruner.pending(), vec![(5, 10)]);
}

#[test]
fn watermark_reaches_the_end_in_any_order() {
    let mut pruner = new_pruner(10);
    assert_eq!(start(&mut pruner, bounds(0, 20)), vec![(0, 10), (10, 20)]);
    finish(&mut pruner, 10, 20, true);
    assert_eq!(pruner.gauges().pruner_hi, 0);
    finish(&mut pruner, 0, 10, true);
    assert_eq!(pruner.gauges().pruner_hi, 20);
    assert_eq!(told(&pruner), 20);
    assert_eq!(pruner.pending(), vec![]);
}

#[test]
fn order_does_not_matter() {
    let orders = [[0, 1, 2], [0, 2, 1], [1, 0, 2], [1, 2, 0], [2, 0, 1], [2, 1, 0]];
    for order in orders {
        let mut pruner = new_pruner(2);
        let ranges = start(&mut pruner, bounds(0, 6));
        for i in order {
            finish(&mut pruner, ranges[i].0, ranges[i].1, true);
        }
        assert_eq!(pruner.gauges().pruner_hi, 6);
        assert_eq!(told(&pruner), 6);
    }

    let mut a = new_pruner(2);
    let mut b = new_pruner(2);
    start(&mut a, bounds(0, 6));
    start(&mut b, bounds(0, 6));
    finish(&mut a, 0, 2, true);
    finish(&mut a, 4, 6, true);
    finish(&mut b, 4, 6, true);
    finish(&mut b, 0, 2, true);
    assert_eq!(a.pending(), b.pending());
    assert_eq!(a.phase(), b.phase());
    assert_eq!(a.running(), vec![(2, 4)]);
    finish(&mut a, 2, 4, false);
    assert_eq!(told(&a), 2);
}

#[test]
fn pruned_ranges_are_not_pruned_again() {
    let mut pruner = new_pruner(10);
    assert_eq!(start(&mut pruner, bounds(0, 20)), vec![(0, 10), (10, 20)]);
    finish(&mut pruner, 0, 10, false);
    finish(&mut pruner, 10, 20, true);
    assert_eq!(told(&pruner), 0);
    pruner.step(Event::Updated { raised: false });
    assert_eq!(start(&mut pruner, bounds(0, 20)), vec![(0, 10)]);
    finish(&mut pruner, 0, 10, true);
    assert_eq!(told(&pruner), 20);
}

#[test]
fn failed_ranges_are_tried_again() {
    let mut pruner = new_pruner(5);
    start(&mut pruner, bounds(0, 7));
    finish(&mut pruner, 0, 5, true);
    finish(&mut pruner, 5, 7, false);
    assert_eq!(told(&pruner), 5);
    assert_eq!(pruner.step(Event::Updated { raised: true }), Action::AwaitTick);
    // What is new starts where the last round ended.
    assert_eq!(start(&mut pruner, bounds(5, 13)), vec![(5, 7), (7, 12), (12, 13)]);
}

#[test]
fn watermark_stays_when_its_first_range_fails() {
    let mut pruner = new_pruner(5);
    start(&mut pruner, bounds(5, 20));
    finish(&mut pruner, 15, 20, true);
    finish(&mut pruner, 5, 10, false);
    finish(&mut pruner, 10, 15, true);
    assert_eq!(told(&pruner), 5);
}

#[test]
fn failed_ranges_are_kept_beside_new_ones() {
    let mut pruner = new_pruner(5);
    start(&mut pruner, bounds(0, 5));
    finish(&mut pruner, 0, 5, false);
    assert_eq!(told(&pruner), 0);
    pruner.step(Event::Updated { raised: false });
    assert_eq!(start(&mut pruner, bounds(0, 10)), vec![(0, 5), (5, 10)]);
    finish(&mut pruner, 5, 10, true);
    assert_eq!(pruner.action(), Action::AwaitTask { or_cancelled: false });
    finish(&mut pruner, 0, 5, false);
    assert_eq!(told(&pruner), 0);
}

#[test]
fn database_is_told_again_after_a_failed_update() {
    let mut pruner = new_pruner(5);
    start(&mut pruner, bounds(0, 10));
    finish(&mut pruner, 0, 5, true);
    finish(&mut pruner, 5, 10, false);
    assert_eq!(told(&pruner), 5);
    pruner.step(Event::ConnectFailed);
    assert_eq!(start(&mut pruner, bounds(0, 10)), vec![(5, 10)]);
    finish(&mut pruner, 5, 10, true);
    assert_eq!(told(&pruner), 10);
    pruner.step(Event::UpdateFailed);
    assert_eq!(start(&mut pruner, bounds(0, 10)), vec![]);
    assert_eq!(told(&pruner), 10);
}

#[test]
fn falling_reader_lo_cuts_nothing_short() {
    let mut pruner = new_pruner(5);
    assert_eq!(start(&mut pruner, bounds(20, 30)), vec![(20, 25), (25, 30)]);
    finish(&mut pruner, 20, 25, false);
    finish(&mut pruner, 25, 30, false);
    assert_eq!(told(&pruner), 20);
    pruner.step(Event::Updated { raised: false });
    assert_eq!(start(&mut pruner, bounds(20, 22)), vec![(20, 25), (25, 30)]);
    finish(&mut pruner, 20, 25, true);
    assert_eq!(pruner.gauges().pruner_hi, 25);
    finish(&mut pruner, 25, 30, true);
    assert_eq!(told(&pruner), 30);
}

#[test]
fn empty_round_still_tells_the_database() {
    for (pruner_hi, reader_lo) in [(9, 9), (9, 4)] {
        let mut pruner = new_pruner(5);
        assert_eq!(start(&mut pruner, bounds(pruner_hi, reader_lo)), vec![]);
        assert_eq!(told(&pruner), 9);
        assert_eq!(pruner.step(Event::Updated { raised: false }), Action::AwaitTick);
        assert_eq!(pruner.gauges(), PrunerGauges { pruner_hi: 0, pruner_hi_in_db: 0 });
    }
}

#[test]
fn zero_chunk_size_is_harmless_when_there_is_nothing_to_prune() {
    let mut pruner = new_pruner(0);
    assert_eq!(start(&mut pruner, bounds(9, 9)), vec![]);
}

#[test]
fn delay_is_respected() {
    let mut pruner = new_pruner(5);
    pruner.step(Event::Tick);
    let watermark = PrunerWatermark { wait_for: 70, reader_lo: 3, pruner_hi: 0 };
    assert_eq!(pruner.step(Event::Watermark { watermark }), Action::Sleep { delay_ms: 70 });
    assert_eq!(pruner.phase(), Phase::Waiting { watermark });
    assert_eq!(pruner.pending(), vec![]);
    assert_eq!(pruner.step(Event::WaitElapsed), Action::StartTask { from: 0, to_exclusive: 3 });
}

#[test]
fn failures_end_the_round() {
    for event in [Event::ConnectFailed, Event::NoWatermark, Event::WatermarkFailed] {
        let mut pruner = new_pruner(5);
        pruner.step(Event::Tick);
        assert_eq!(pruner.step(event), Action::AwaitTick);
        assert_eq!(pruner.phase(), Phase::Idle);
    }
    for event in [Event::ConnectFailed, Event::UpdateFailed] {
        let mut pruner = new_pruner(5);
        start(&mut pruner, bounds(0, 4));
        finish(&mut pruner, 0, 4, true);
        assert_eq!(told(&pruner), 4);
        assert_eq!(pruner.step(event), Action::AwaitTick);
        assert_eq!(pruner.gauges(), PrunerGauges { pruner_hi: 4, pruner_hi_in_db: 0 });
    }
}

#[test]
fn cancellation_stops() {
    let mut pruner = new_pruner(5);
    assert_eq!(pruner.step(Event::Cancelled), Action::Stop);
    assert_eq!(pruner.phase(), Phase::Stopped);

    let mut pruner = new_pruner(5);
    pruner.step(Event::Tick);
    let watermark = PrunerWatermark { wait_for: 70, reader_lo: 3, pruner_hi: 0 };
    pruner.step(Event::Watermark { watermark });
    assert_eq!(pruner.step(Event::Cancelled), Action::Stop);
    assert_eq!(pruner.phase(), Phase::Stopped);
}

/// Every checkpoint below the watermark in the database has been pruned once, however attempts end,
/// and what the database is told lies between the watermark that was read and `reader_lo`.
#[test]
fn watermark_is_sound_over_many_rounds() {
    let mut pruner = new_pruner(3);
    let mut pruned = vec![false; 200];
    let mut pruner_hi: i64 = 0;
    let mut seed: u64 = 12;
    let mut random = move || {
        seed = seed.wrapping_mul(6364136223846793005).wrapping_add(1442695040888963407);
        (seed >> 33) as usize
    };
    for round in 1..40 {
        let reader_lo = 4 * round;
        let mut ranges = start(&mut pruner, bounds(pruner_hi, reader_lo));
        while !ranges.is_empty() {
            let (from, to_exclusive) = ranges.swap_remove(random() % ranges.len());
            assert!(to_exclusive as i64 <= reader_lo);
            let succeeded = random() % 3 != 0;
            if succeeded {
                for c in from..to_exclusive {
                    assert!(!pruned[c as usize]);
                    pruned[c as usize] = true;
                }
            }
            finish(&mut pruner, from, to_exclusive, succeeded);
            ranges.extend(start_tasks(&mut pruner));
            assert_eq!(pruner.running().len(), ranges.len());
            assert!(ranges.len() <= MAX_CONCURRENT_PRUNER_TASKS);
        }
        let hi = told(&pruner);
        assert!(pruner_hi <= hi && hi <= reader_lo);
        assert!(pruned[..hi as usize].iter().all(|p| *p) && !pruned[hi as usize]);
        let raised = random() % 4 != 0 && hi > pruner_hi;
        if raised {
            pruner_hi = hi;
        }
        pruner.step(if raised || hi <= pruner_hi {
            Event::Updated { raised }
        } else {
            Event::UpdateFailed
        });
        assert!(pruned[..pruner_hi as usize].iter().all(|p| *p));
    }
    assert!(pruner_hi > 0);
}

#[test]
fn attempts_are_counted() {
    let mut counters = PrunerCounters { chunks_attempted: 0, chunks_deleted: 0, rows_deleted: 0 };

    let mut task = PruneTask::start(3, 9, &mut counters);
    assert_eq!(task.phase, TaskPhase::Connecting);
    assert_eq!(
        task.step(TaskEvent::<&str>::Connected, &mut counters),
        TaskAction::Delete { from: 3, to_exclusive: 9 }
    );
    assert_eq!(
        task.step(TaskEvent::<&str>::Deleted { affected: 17 }, &mut counters),
        TaskAction::Finish { result: Ok(()) }
    );
    assert_eq!(
        counters,
        PrunerCounters { chunks_attempted: 1, chunks_deleted: 1, rows_deleted: 17 }
    );

    let mut task = PruneTask::start(9, 10, &mut counters);
    assert_eq!(
        task.step(TaskEvent::ConnectFailed { error: "no connection" }, &mut counters),
        TaskAction::Finish { result: Err("no connection") }
    );
    let mut task = PruneTask::start(9, 10, &mut counters);
    task.step(TaskEvent::<&str>::Connected, &mut counters);
    assert_eq!(
        task.step(TaskEvent::DeleteFailed { error: "no rows" }, &mut counters),
        TaskAction::Finish { result: Err("no rows") }
    );
    assert_eq!(task.phase, TaskPhase::Finished { succeeded: false });
    assert_eq!(
        counters,
        PrunerCounters { chunks_attempted: 3, chunks_deleted: 1, rows_deleted: 17 }
    );
}

#[test]
fn counters_add_up_over_attempts_side_by_side() {
    let mut counters = PrunerCounters { chunks_attempted: 0, chunks_deleted: 0, rows_deleted: 0 };
    let mut tasks = Vec::new();
    for i in 0..6 {
        tasks.push(PruneTask::start(i, i + 1, &mut counters));
    }
    for task in &mut tasks[1..] {
        task.step(TaskEvent::<()>::Connected, &mut counters);
    }
    tasks[4].step(TaskEvent::<()>::Deleted { affected: 0 }, &mut counters);
    tasks[0].step(TaskEvent::ConnectFailed { error: () }, &mut counters);
    tasks[5].step(TaskEvent::<()>::Deleted { affected: 7 }, &mut counters);
    tasks[2].step(TaskEvent::DeleteFailed { error: () }, &mut counters);
    tasks[1].step(TaskEvent::<()>::Deleted { affected: 30 }, &mut counters);
    tasks[3].step(TaskEvent::DeleteFailed { error: () }, &mut counters);
    assert_eq!(
        counters,
        PrunerCounters { chunks_attempted: 6, chunks_deleted: 3, rows_deleted: 37 }
    );
}

#[test]
fn progress_is_loud_every_so_many_checkpoints() {
    assert_eq!(LOUD_WATERMARK_UPDATE_INTERVAL, 50);
    let mut logger = WatermarkLogger::new();
    let levels: Vec<Level> =
        [49, 50, 51, 99, 100, 1000, 1049].into_iter().map(|c| logger.log(c)).collect();
    assert_eq!(
        levels,
        vec![
            Level::Debug,
            Level::Info,
            Level::Debug,
            Level::Debug,
            Level::Info,
            Level::Info,
            Level::Debug,
        ]
    );
    assert_eq!(logger.log(i64::MAX), Level::Info);
    assert_eq!(logger.log(i64::MIN), Level::Debug);
}

#[test]
fn counters_wrap_around() {
    let mut counters =
        PrunerCounters { chunks_attempted: u64::MAX, chunks_deleted: 0, rows_deleted: u64::MAX };
    let mut task = PruneTask::start(0, 1, &mut counters);
    task.step(TaskEvent::<()>::Connected, &mut counters);
    task.step(TaskEvent::<()>::Deleted { affected: 2 }, &mut counters);
    assert_eq!(
        counters,
        PrunerCounters { chunks_attempted: 0, chunks_deleted: 1, rows_deleted: 1 }
    );
}

#[test]
fn ten_ranges_at_a_time() {
    assert_eq!(MAX_CONCURRENT_PRUNER_TASKS, 10);
    let mut pruner = new_pruner(1);
    let ranges = start(&mut pruner, bounds(0, 12));
    assert_eq!(ranges, (0..10).map(|c| (c, c + 1)).collect::<Vec<_>>());
    assert_eq!(pruner.running(), ranges);
    assert_eq!(pruner.queued(), vec![(10, 11), (11, 12)]);
    assert_eq!(pruner.action(), Action::AwaitTask { or_cancelled: true });
    finish(&mut pruner, 4, 5, false);
    assert_eq!(pruner.action(), Action::StartTask { from: 10, to_exclusive: 11 });
    assert_eq!(start_tasks(&mut pruner), vec![(10, 11)]);
    finish(&mut pruner, 10, 11, true);
    assert_eq!(start_tasks(&mut pruner), vec![(11, 12)]);
    assert_eq!(pruner.action(), Action::AwaitTask { or_cancelled: false });
    // A range that failed is not tried again in the same round.
    assert!(!pruner.running().contains(&(4, 5)));
    assert!(pruner.pending().contains(&(4, 5)));
}

#[test]
fn all_attempts_end_before_the_database_is_told() {
    let mut pruner = new_pruner(1);
    let mut ranges = start(&mut pruner, bounds(0, 25));
    let mut ended = 0;
    while let Some((from, to_exclusive)) = ranges.pop() {
        assert!(matches!(pruner.phase(), Phase::Pruning { .. }));
        finish(&mut pruner, from, to_exclusive, from % 2 == 0);
        ranges.extend(start_tasks(&mut pruner));
        ended += 1;
    }
    assert_eq!(ended, 25);
    assert_eq!(told(&pruner), 1);
    assert_eq!(pruner.pending().len(), 12);
    assert_eq!(pruner.running(), vec![]);
}

#[test]
fn cancelled_round_starts_nothing_more() {
    let mut pruner = new_pruner(1);
    start(&mut pruner, bounds(0, 12));
    pruner.step(Event::Cancelled);
    assert_eq!(pruner.queued(), vec![]);
    assert_eq!(pruner.running().len(), 10);
    assert_eq!(pruner.pending().len(), 12);
    for c in 0..10 {
        assert_eq!(pruner.action(), Action::AwaitTask { or_cancelled: false });
        finish(&mut pruner, c, c + 1, true);
    }
    assert_eq!(told(&pruner), 10);
    assert_eq!(pruner.pending(), vec![(10, 11), (11, 12)]);
    pruner.step(Event::Updated { raised: true });
    assert_eq!(pruner.step(Event::Cancelled), Action::Stop);

    // Before anything was started, there is nothing to wait for.
    let mut pruner = new_pruner(5);
    pruner.step(Event::Tick);
    pruner.step(Event::Watermark { watermark: bounds(2, 9) });
    let watermark = bounds(2, 9);
    assert_eq!(pruner.step(Event::Cancelled), Action::UpdateWatermark { watermark });
}

#[test]
fn lowered_watermark_prunes_again() {
    let mut pruner = new_pruner(10);
    start(&mut pruner, bounds(0, 20));
    finish(&mut pruner, 0, 10, true);
    finish(&mut pruner, 10, 20, true);
    assert_eq!(told(&pruner), 20);
    pruner.step(Event::Updated { raised: true });
    // The data was written again, and the watermark was put back.
    assert_eq!(start(&mut pruner, bounds(0, 20)), vec![(0, 10), (10, 20)]);
    finish(&mut pruner, 0, 10, true);
    finish(&mut pruner, 10, 20, false);
    assert_eq!(told(&pruner), 10);
    pruner.step(Event::Updated { raised: true });
    assert_eq!(start(&mut pruner, bounds(10, 25)), vec![(10, 20), (20, 25)]);
}

#[test]
fn watermark_below_one_that_was_read_prunes_again() {
    let mut pruner = new_pruner(10);
    assert_eq!(start(&mut pruner, bounds(100, 100)), vec![]);
    pruner.step(Event::Updated { raised: false });
    assert_eq!(start(&mut pruner, bounds(85, 100)), vec![(85, 95), (95, 100)]);
}

#[test]
fn lowered_watermark_loses_nothing() {
    let mut pruner = new_pruner(10);
    start(&mut pruner, bounds(0, 40));
    for from in [0, 10, 20, 30] {
        finish(&mut pruner, from, from + 10, false);
    }
    pruner.step(Event::Updated { raised: false });
    // The watermark is raised over what is pending, and put back into the middle of a range.
    assert_eq!(start(&mut pruner, bounds(30, 40)).len(), 4);
    finish(&mut pruner, 20, 30, true);
    finish(&mut pruner, 10, 20, false);
    finish(&mut pruner, 0, 10, false);
    finish(&mut pruner, 30, 40, false);
    pruner.step(Event::Updated { raised: false });
    assert_eq!(
        start(&mut pruner, bounds(15, 38)),
        vec![(0, 10), (10, 20), (20, 30), (30, 38)]
    );
}

#[test]
fn keeps_what_starts_below() {
    let mut pending = PendingRanges::new();
    for from in [0, 10, 20] {
        pending.insert(from, from + 10);
    }
    let mut copy = pending.clone();
    assert_eq!(copy.keep_below(10), 10);
    assert_eq!(copy.ranges(), vec![(0, 10)]);
    assert_eq!(pending.keep_below(15), 20);
    assert_eq!(pending.ranges(), vec![(0, 10), (10, 20)]);
    assert_eq!(pending.keep_below(0), 0);
    assert_eq!(pending.ranges(), vec![]);
}
