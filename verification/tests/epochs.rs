//! The handlers on a small chain, and the pruner on what they wrote.

use epoch_indexer::checkpoint::{
    CheckpointCommitment, CheckpointData, CheckpointSummary, CheckpointTransaction, EndOfEpochData,
    Event, SystemState, TransactionKind,
};
use epoch_indexer::encoding::BcsError;
use epoch_indexer::epoch_ends::{epoch_end_row, KvEpochEnds, StoredEpochEnd};
use epoch_indexer::epoch_filter::{prunable_epochs, EpochFilter};
use epoch_indexer::epoch_starts::{KvEpochStarts, StoredEpochStart};
use epoch_indexer::error::ProcessError;
use epoch_indexer::pruner::{Action, Event as PrunerEvent, Pruner, PrunerConfig};
use epoch_indexer::watermark::PrunerWatermark;

/// The sums of an epoch, in the order in which its event lists them.
const SUMS: [u64; 12] = [7, 1, 1000, 11, 12, 13, 14, 15, 16, 17, 18, 19];

fn epoch_info_bytes(numbers: &[u64]) -> Vec<u8> {
    let mut bytes = Vec::new();
    for n in numbers {
        bytes.extend_from_slice(&n.to_le_bytes());
    }
    bytes
}

fn info_event(contents: Vec<u8>) -> Event {
    Event { is_system_epoch_info_event: true, contents }
}

fn other_event() -> Event {
    Event { is_system_epoch_info_event: false, contents: vec![1, 2, 3] }
}

fn transaction(kind: TransactionKind) -> CheckpointTransaction {
    CheckpointTransaction { kind, events: None, system_state: Err("not an object".to_string()) }
}

fn system_state(epoch: u64) -> SystemState {
    SystemState {
        epoch,
        protocol_version: 70,
        epoch_start_timestamp_ms: 5_000 + epoch,
        reference_gas_price: 750,
        contents: Ok(vec![epoch as u8, 0xaa]),
    }
}

/// The transaction that ends `epoch`.
fn change_epoch(epoch: u64) -> CheckpointTransaction {
    CheckpointTransaction {
        kind: TransactionKind::ChangeEpoch,
        events: Some(vec![other_event(), info_event(epoch_info_bytes(&SUMS))]),
        system_state: Ok(system_state(epoch + 1)),
    }
}

fn checkpoint(sequence_number: u64, epoch: u64, last: bool) -> CheckpointData {
    CheckpointData {
        checkpoint_summary: CheckpointSummary {
            epoch,
            sequence_number,
            network_total_transactions: 2 * sequence_number + 1,
            timestamp_ms: 100 * sequence_number,
            end_of_epoch_data: if last {
                Some(EndOfEpochData { epoch_commitments: vec![] })
            } else {
                None
            },
        },
        transactions: if last {
            vec![transaction(TransactionKind::Other), change_epoch(epoch)]
        } else {
            vec![transaction(TransactionKind::Other)]
        },
    }
}

/// A chain that starts with one checkpoint in epoch 0.
struct Chain {
    checkpoints: Vec<CheckpointData>,
    epoch: u64,
}

impl Chain {
    fn new() -> Chain {
        Chain { checkpoints: vec![checkpoint(0, 0, false)], epoch: 0 }
    }

    fn create_checkpoint(&mut self) {
        let n = self.checkpoints.len() as u64;
        self.checkpoints.push(checkpoint(n, self.epoch, false));
    }

    fn advance_epoch(&mut self) {
        let n = self.checkpoints.len() as u64;
        self.checkpoints.push(checkpoint(n, self.epoch, true));
        self.epoch += 1;
    }

    fn epoch_of(&self, checkpoint: u64) -> u64 {
        self.checkpoints[checkpoint as usize].checkpoint_summary.epoch
    }

    fn epoch_ends(&self) -> Vec<i64> {
        let mut epochs = Vec::new();
        for c in &self.checkpoints {
            for row in KvEpochEnds.process(c).unwrap() {
                epochs.push(row.epoch);
            }
        }
        epochs
    }

    fn epoch_starts(&self) -> Vec<i64> {
        let mut epochs = Vec::new();
        for c in &self.checkpoints {
            for row in KvEpochStarts.process(c).unwrap() {
                epochs.push(row.epoch);
            }
        }
        epochs
    }

    /// How far data may be pruned when `retention` checkpoints are kept.
    fn reader_lo(&self, retention: i64) -> i64 {
        (self.checkpoints.len() as i64 - retention).max(0)
    }
}

/// Deletes what the filter selects, and returns how many rows that were.
fn delete(table: &mut Vec<i64>, filter: Option<EpochFilter>) -> usize {
    let before = table.len();
    if let Some(filter) = filter {
        table.retain(|epoch| !filter.selects(*epoch));
    }
    before - table.len()
}

/// Runs one round of the pruner, in which every attempt succeeds.
fn run_round(
    config: PrunerConfig,
    reader_lo: i64,
    mut prune: impl FnMut(u64, u64),
) -> i64 {
    let mut pruner = Pruner::new(Some(config)).unwrap();
    assert_eq!(pruner.step(PrunerEvent::Tick), Action::FetchWatermark);
    let watermark = PrunerWatermark { wait_for: 0, reader_lo, pruner_hi: 0 };
    let mut action = pruner.step(PrunerEvent::Watermark { watermark });
    loop {
        action = match action {
            Action::StartTask { from, to_exclusive } => {
                prune(from, to_exclusive);
                pruner.step(PrunerEvent::TaskStarted { from, to_exclusive })
            }
            Action::AwaitTask { .. } => {
                let (from, to_exclusive) = pruner.running()[0];
                let event = PrunerEvent::TaskFinished { from, to_exclusive, succeeded: true };
                pruner.step(event)
            }
            Action::UpdateWatermark { watermark } => return watermark.pruner_hi,
            other => panic!("unexpected action: {:?}", other),
        };
    }
}

#[test]
fn test_kv_epoch_ends_advance_multiple_epochs() {
    let mut sim = Chain::new();
    // We start at epoch 0 and progress to epoch 3.
    sim.advance_epoch();
    sim.advance_epoch();
    sim.advance_epoch();

    let mut table = sim.epoch_ends();
    assert_eq!(table, vec![0, 1, 2]);

    // Ten checkpoints are kept, so the pruner has nothing to do.
    let config =
        PrunerConfig { interval_ms: 200, delay_ms: 100, retention: 10, max_chunk_size: 10 };
    run_round(config, sim.reader_lo(10), |_, _| panic!("nothing should be pruned"));

    let filter = KvEpochEnds.prune(sim.epoch_of(0), sim.epoch_of(3));
    let rows_pruned = delete(&mut table, filter);
    assert_eq!(table, vec![2]);
    assert_eq!(rows_pruned, 2);
}

#[test]
fn test_kv_epoch_ends_same_epoch() {
    let mut sim = Chain::new();
    sim.create_checkpoint();
    sim.create_checkpoint();
    sim.advance_epoch();
    sim.create_checkpoint();
    sim.create_checkpoint();
    sim.create_checkpoint();

    // Epoch 1 has not ended, and epoch 0 is within retention.
    let mut table = sim.epoch_ends();
    assert_eq!(table, vec![0]);

    let filter = KvEpochEnds.prune(sim.epoch_of(0), sim.epoch_of(4));
    let rows_pruned = delete(&mut table, filter);
    assert_eq!(table, Vec::<i64>::new());
    assert_eq!(rows_pruned, 1);
}

#[test]
fn test_kv_epoch_starts_advance_multiple_epochs() {
    let mut sim = Chain::new();
    sim.advance_epoch();
    sim.advance_epoch();
    sim.advance_epoch();

    let mut table = sim.epoch_starts();
    assert_eq!(table, vec![1, 2, 3]);

    let config = PrunerConfig { interval_ms: 200, delay_ms: 100, retention: 1, max_chunk_size: 1 };
    let pruner_hi = run_round(config, sim.reader_lo(1), |from, to_exclusive| {
        let filter = KvEpochStarts.prune(sim.epoch_of(from), sim.epoch_of(to_exclusive));
        delete(&mut table, filter);
    });
    assert_eq!(pruner_hi, 3);

    // With a retention of 1 checkpoint, 2 epochs stay in the table.
    assert_eq!(table, vec![2, 3]);
}

#[test]
fn test_kv_epoch_starts_same_epoch() {
    let mut sim = Chain::new();
    sim.advance_epoch();
    sim.create_checkpoint();
    sim.create_checkpoint();
    sim.create_checkpoint();

    let mut epochs = sim.epoch_starts();
    let config = PrunerConfig { interval_ms: 200, delay_ms: 100, retention: 1, max_chunk_size: 1 };
    run_round(config, sim.reader_lo(1), |from, to_exclusive| {
        let filter = KvEpochStarts.prune(sim.epoch_of(from), sim.epoch_of(to_exclusive));
        delete(&mut epochs, filter);
    });
    assert_eq!(epochs, vec![1]);

    // Pruning by hand now deletes nothing.
    let filter = KvEpochStarts.prune(sim.epoch_of(0), sim.epoch_of(4));
    let rows_pruned = delete(&mut epochs, filter);
    assert_eq!(epochs, vec![1]);
    assert_eq!(rows_pruned, 0);
}

#[test]
fn epoch_end_row_holds_the_sums() {
    let mut c = checkpoint(9, 7, true);
    c.checkpoint_summary.end_of_epoch_data = Some(EndOfEpochData {
        epoch_commitments: vec![CheckpointCommitment::ECMHLiveObjectSetDigest {
            digest: [0x5a; 32],
        }],
    });
    let mut commitments = vec![1, 0, 32];
    commitments.extend_from_slice(&[0x5a; 32]);
    assert_eq!(
        KvEpochEnds.process(&c),
        Ok(vec![StoredEpochEnd {
            epoch: 7,
            cp_hi: 10,
            tx_hi: 19,
            end_timestamp_ms: 900,
            safe_mode: false,
            total_stake: Some(11),
            storage_fund_reinvestment: Some(12),
            storage_charge: Some(13),
            storage_rebate: Some(14),
            storage_fund_balance: Some(15),
            stake_subsidy_amount: Some(16),
            total_gas_fees: Some(17),
            total_stake_rewards_distributed: Some(18),
            leftover_storage_fund_inflow: Some(19),
            epoch_commitments: commitments,
        }])
    );
}

#[test]
fn epoch_end_row_in_safe_mode_has_no_sums() {
    for events in [None, Some(vec![]), Some(vec![other_event()])] {
        let mut c = checkpoint(9, 7, true);
        c.transactions[1].events = events;
        assert_eq!(
            KvEpochEnds.process(&c),
            Ok(vec![StoredEpochEnd {
                epoch: 7,
                cp_hi: 10,
                tx_hi: 19,
                end_timestamp_ms: 900,
                safe_mode: true,
                total_stake: None,
                storage_fund_balance: None,
                storage_fund_reinvestment: None,
                storage_charge: None,
                storage_rebate: None,
                stake_subsidy_amount: None,
                total_gas_fees: None,
                total_stake_rewards_distributed: None,
                leftover_storage_fund_inflow: None,
                epoch_commitments: vec![0],
            }])
        );
    }
}

#[test]
fn epoch_start_row_holds_the_system_state() {
    let c = checkpoint(9, 7, true);
    assert_eq!(
        KvEpochStarts.process(&c),
        Ok(vec![StoredEpochStart {
            epoch: 8,
            protocol_version: 70,
            cp_lo: 10,
            start_timestamp_ms: 5_008,
            reference_gas_price: 750,
            system_state: vec![8, 0xaa],
        }])
    );
}

#[test]
fn epochs_meet() {
    let c = checkpoint(41, 3, true);
    let end = KvEpochEnds.process(&c).unwrap();
    let start = KvEpochStarts.process(&c).unwrap();
    assert_eq!(end[0].cp_hi, 42);
    assert_eq!(start[0].cp_lo, 42);
    assert_eq!(end[0].epoch + 1, start[0].epoch);
}

#[test]
fn other_checkpoints_give_no_rows() {
    let mut c = checkpoint(9, 7, false);
    c.transactions = vec![change_epoch(7)];
    assert_eq!(KvEpochEnds.process(&c), Ok(vec![]));
    assert_eq!(KvEpochStarts.process(&c), Ok(vec![]));
}

#[test]
fn first_end_of_epoch_transaction_counts() {
    let mut c = checkpoint(9, 7, true);
    let mut first = change_epoch(20);
    first.kind = TransactionKind::EndOfEpochTransaction;
    first.events = Some(vec![
        info_event(epoch_info_bytes(&[1; 12])),
        info_event(epoch_info_bytes(&[2; 12])),
    ]);
    c.transactions.insert(0, first);
    assert_eq!(KvEpochStarts.process(&c).unwrap()[0].epoch, 21);
    assert_eq!(KvEpochEnds.process(&c).unwrap()[0].total_stake, Some(1));
}

#[test]
fn missing_end_of_epoch_transaction() {
    let mut c = checkpoint(1234567890, 7, true);
    c.transactions = vec![transaction(TransactionKind::Other)];
    let error = ProcessError::MissingEndOfEpochTransaction { sequence_number: 1234567890 };
    assert_eq!(KvEpochEnds.process(&c).unwrap_err(), error);
    assert_eq!(KvEpochStarts.process(&c).unwrap_err(), error);
    assert_eq!(
        error.message(),
        "Failed to get end of epoch transaction in checkpoint 1234567890 with EndOfEpochData"
    );
}

#[test]
fn rows_are_due_when_all_they_need_is_there() {
    let c = checkpoint(9, 7, true);
    assert!(KvEpochEnds.is_due(&c) && KvEpochStarts.is_due(&c));

    let c = checkpoint(9, 7, false);
    assert!(!KvEpochEnds.is_due(&c) && !KvEpochStarts.is_due(&c));

    // A number that has no successor is harmless where an error comes first.
    let mut c = checkpoint(9, 7, true);
    c.checkpoint_summary.sequence_number = i64::MAX as u64;
    c.transactions = vec![];
    assert!(!KvEpochEnds.is_due(&c) && !KvEpochStarts.is_due(&c));
    let error =
        ProcessError::MissingEndOfEpochTransaction { sequence_number: i64::MAX as u64 };
    assert_eq!(KvEpochEnds.process(&c).unwrap_err(), error);
    assert_eq!(KvEpochStarts.process(&c).unwrap_err(), error);

    let mut c = checkpoint(9, 7, true);
    c.transactions[1].events = Some(vec![info_event(vec![])]);
    c.transactions[1].system_state = Err("gone".to_string());
    assert!(!KvEpochEnds.is_due(&c) && !KvEpochStarts.is_due(&c));
    c.transactions[1].events = None;
    assert!(KvEpochEnds.is_due(&c));
}

#[test]
fn missing_system_state() {
    let mut c = checkpoint(9, 7, true);
    c.transactions[1].system_state = Err("no such object".to_string());
    let error = KvEpochStarts.process(&c).unwrap_err();
    assert_eq!(error, ProcessError::MissingSystemState { reason: "no such object".to_string() });
    assert!(KvEpochEnds.process(&c).is_ok());
}

#[test]
fn unencodable_system_state() {
    let mut c = checkpoint(9, 7, true);
    let cause = || BcsError::Other { error: bcs::Error::Custom("unknown version".to_string()) };
    c.transactions[1].system_state =
        Ok(SystemState { contents: Err(cause()), ..system_state(8) });
    assert!(KvEpochStarts.is_due(&c));
    assert_eq!(
        KvEpochStarts.process(&c),
        Err(ProcessError::UnencodableSystemState { cause: cause() })
    );
}

#[test]
fn malformed_epoch_info() {
    let cases = [
        (0, BcsError::Eof),
        (95, BcsError::Eof),
        (97, BcsError::RemainingInput),
    ];
    for (length, cause) in cases {
        let mut c = checkpoint(9, 7, true);
        c.transactions[1].events = Some(vec![
            info_event(vec![0; length]),
            info_event(epoch_info_bytes(&SUMS)),
        ]);
        assert_eq!(
            KvEpochEnds.process(&c),
            Err(ProcessError::MalformedSystemEpochInfoEvent { cause })
        );
    }
}

#[test]
fn unencodable_commitments() {
    let c = checkpoint(9, 7, true);
    let cause = BcsError::ExceededMaxLen { len: 1 << 31 };
    assert_eq!(
        epoch_end_row(&c.checkpoint_summary, None, Err(cause.clone())),
        Err(ProcessError::UnencodableEpochCommitments { cause })
    );
}

#[test]
fn error_messages() {
    let number = |sequence_number| {
        ProcessError::MissingEndOfEpochTransaction { sequence_number }.message()
    };
    assert_eq!(
        number(0),
        "Failed to get end of epoch transaction in checkpoint 0 with EndOfEpochData"
    );
    assert_eq!(
        number(u64::MAX),
        "Failed to get end of epoch transaction in checkpoint 18446744073709551615 with EndOfEpochData"
    );
    assert_eq!(
        ProcessError::MissingSystemState { reason: String::new() }.message(),
        "Failed to find system state object output from end of epoch transaction"
    );
    assert_eq!(
        ProcessError::MalformedSystemEpochInfoEvent { cause: BcsError::Eof }.message(),
        "Failed to deserialize SystemEpochInfoEvent"
    );
    assert_eq!(
        ProcessError::UnencodableEpochCommitments { cause: BcsError::Eof }.message(),
        "Failed to serialize EpochCommitment-s"
    );
    assert_eq!(
        ProcessError::UnencodableSystemState { cause: BcsError::Eof }.message(),
        "Failed to serialize SystemState"
    );
}

#[test]
fn large_numbers_wrap() {
    let mut c = checkpoint(9, 7, true);
    c.checkpoint_summary.network_total_transactions = u64::MAX;
    c.checkpoint_summary.timestamp_ms = 1 << 63;
    let row = &KvEpochEnds.process(&c).unwrap()[0];
    assert_eq!(row.tx_hi, -1);
    assert_eq!(row.end_timestamp_ms, i64::MIN);
}

#[test]
fn filter_selects_the_interval() {
    let filter = prunable_epochs(2, 5).unwrap();
    assert_eq!(filter, EpochFilter { first: 2, last: 4 });
    let selected: Vec<i64> = (0..8).filter(|e| filter.selects(*e)).collect();
    assert_eq!(selected, vec![2, 3, 4]);
    assert_eq!(prunable_epochs(3, 3), None);
    assert_eq!(prunable_epochs(4, 3), None);
}

#[test]
fn filters_compose() {
    let mut in_steps: Vec<i64> = (0..10).collect();
    let mut at_once = in_steps.clone();
    let rows = delete(&mut in_steps, prunable_epochs(1, 4))
        + delete(&mut in_steps, prunable_epochs(4, 6));
    assert_eq!(rows, delete(&mut at_once, prunable_epochs(1, 6)));
    assert_eq!(in_steps, at_once);
    assert_eq!(at_once, vec![0, 6, 7, 8, 9]);
}

#[test]
fn pipeline_names() {
    assert_eq!(KvEpochEnds::NAME, "kv_epoch_ends");
    assert_eq!(KvEpochStarts::NAME, "kv_epoch_starts");
    assert_eq!(KvEpochEnds::MIN_EAGER_ROWS, 1);
    assert_eq!(KvEpochStarts::MIN_EAGER_ROWS, 1);
}
