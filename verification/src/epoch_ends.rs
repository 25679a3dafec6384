//! Rows about the end of each epoch.

use crate::cast::{to_i64, wrapped_i64};
use crate::checkpoint::{
    end_of_epoch_transaction, law_end_of_epoch_transaction_is_found, law_epoch_info_is_found,
    law_no_end_of_epoch_transaction, law_no_epoch_info, system_epoch_info_event, CheckpointData,
    CheckpointSummary, Event,
};
use crate::encoding::{
    bytes_of, decode_system_epoch_info, decoded, encode_commitments, encoded_commitments,
    law_epoch_info_is_twelve_numbers, BcsError, SystemEpochInfoEvent,
};
use crate::epoch_filter::{prunable_epochs, spec_prunable_epochs, EpochFilter};
use crate::error::ProcessError;
use vstd::prelude::*;

verus! {

/// The pipeline that writes `kv_epoch_ends`.
#[derive(Clone, Copy, Debug)]
pub struct KvEpochEnds;

/// A row of `kv_epoch_ends`.
#[derive(Debug, PartialEq, Eq)]
pub struct StoredEpochEnd {
    pub epoch: i64,
    pub cp_hi: i64,
    pub tx_hi: i64,
    pub end_timestamp_ms: i64,
    pub safe_mode: bool,
    pub total_stake: Option<i64>,
    pub storage_fund_balance: Option<i64>,
    pub storage_fund_reinvestment: Option<i64>,
    pub storage_charge: Option<i64>,
    pub storage_rebate: Option<i64>,
    pub stake_subsidy_amount: Option<i64>,
    pub total_gas_fees: Option<i64>,
    pub total_stake_rewards_distributed: Option<i64>,
    pub leftover_storage_fund_inflow: Option<i64>,
    pub epoch_commitments: Vec<u8>,
}

/// What a transaction says about the epoch that it ends.
pub enum EpochInfo {
    /// It emitted no event that sums up the epoch: the epoch ended in safe mode.
    SafeMode,
    /// It emitted one.
    Summary(SystemEpochInfoEvent),
    /// It emitted one that does not decode, because of the error.
    Malformed(BcsError),
}

/// What the first event says that sums up an epoch.
pub open spec fn epoch_info(events: Option<Vec<Event>>) -> EpochInfo {
    match system_epoch_info_event(events) {
        None => EpochInfo::SafeMode,
        Some(event) => match decoded(event.contents@) {
            Ok(info) => EpochInfo::Summary(info),
            Err(cause) => EpochInfo::Malformed(cause),
        },
    }
}

/// `column` holds `value`, or nothing if there is none.
pub open spec fn holds(column: Option<i64>, value: Option<u64>) -> bool {
    match (column, value) {
        (Some(c), Some(v)) => c == wrapped_i64(v),
        (None, None) => true,
        _ => false,
    }
}

impl StoredEpochEnd {
    /// The row tells of the end of the epoch whose last checkpoint `summary` is, which `info` sums
    /// up unless it ended in safe mode, and which made the encoded `commitments`.
    pub open spec fn tells(
        self,
        summary: CheckpointSummary,
        info: Option<SystemEpochInfoEvent>,
        commitments: Seq<u8>,
    ) -> bool {
        let value = |field: spec_fn(SystemEpochInfoEvent) -> u64|
            match info {
                Some(info) => Some(field(info)),
                None => None,
            };
        &&& self.epoch == wrapped_i64(summary.epoch)
        &&& self.cp_hi == wrapped_i64(summary.sequence_number) + 1
        &&& self.tx_hi == wrapped_i64(summary.network_total_transactions)
        &&& self.end_timestamp_ms == wrapped_i64(summary.timestamp_ms)
        &&& self.safe_mode == (info is None)
        &&& holds(self.total_stake, value(|i: SystemEpochInfoEvent| i.total_stake))
        &&& holds(
            self.storage_fund_balance,
            value(|i: SystemEpochInfoEvent| i.storage_fund_balance),
        )
        &&& holds(
            self.storage_fund_reinvestment,
            value(|i: SystemEpochInfoEvent| i.storage_fund_reinvestment),
        )
        &&& holds(self.storage_charge, value(|i: SystemEpochInfoEvent| i.storage_charge))
        &&& holds(self.storage_rebate, value(|i: SystemEpochInfoEvent| i.storage_rebate))
        &&& holds(
            self.stake_subsidy_amount,
            value(|i: SystemEpochInfoEvent| i.stake_subsidy_amount),
        )
        &&& holds(self.total_gas_fees, value(|i: SystemEpochInfoEvent| i.total_gas_fees))
        &&& holds(
            self.total_stake_rewards_distributed,
            value(|i: SystemEpochInfoEvent| i.total_stake_rewards_distributed),
        )
        &&& holds(
            self.leftover_storage_fund_inflow,
            value(|i: SystemEpochInfoEvent| i.leftover_storage_fund_inflow),
        )
        &&& self.epoch_commitments@ == commitments
    }
}

/// What the row of an epoch's end depends on could be read from the checkpoint.
pub open spec fn epoch_end_is_due(checkpoint: CheckpointData) -> bool {
    &&& checkpoint.checkpoint_summary.end_of_epoch_data is Some
    &&& end_of_epoch_transaction(checkpoint.transactions@) matches Some(transaction)
    &&& !(epoch_info(transaction.events) is Malformed)
}

/// `result` is one row about the end of an epoch, or tells why its commitments have no encoding.
pub open spec fn is_epoch_end(
    result: Result<Vec<StoredEpochEnd>, ProcessError>,
    summary: CheckpointSummary,
    info: Option<SystemEpochInfoEvent>,
    commitments: Result<Seq<u8>, BcsError>,
) -> bool {
    match commitments {
        Err(cause) => result == Err::<Vec<StoredEpochEnd>, _>(
            ProcessError::UnencodableEpochCommitments { cause },
        ),
        Ok(commitments) => {
            &&& result matches Ok(rows)
            &&& rows@.len() == 1
            &&& rows@[0].tells(summary, info, commitments)
        },
    }
}

/// `result` is what becomes of the checkpoint: one row if it is the last of its epoch.
pub open spec fn is_epoch_end_of(
    result: Result<Vec<StoredEpochEnd>, ProcessError>,
    checkpoint: CheckpointData,
) -> bool {
    let summary = checkpoint.checkpoint_summary;
    match summary.end_of_epoch_data {
        None => result matches Ok(rows) && rows@.len() == 0,
        Some(data) => match end_of_epoch_transaction(checkpoint.transactions@) {
            None => result == Err::<Vec<StoredEpochEnd>, _>(
                ProcessError::MissingEndOfEpochTransaction {
                    sequence_number: summary.sequence_number,
                },
            ),
            Some(transaction) => {
                let commitments = encoded_commitments(data.epoch_commitments@);
                match epoch_info(transaction.events) {
                    EpochInfo::Malformed(cause) => result == Err::<Vec<StoredEpochEnd>, _>(
                        ProcessError::MalformedSystemEpochInfoEvent { cause },
                    ),
                    EpochInfo::SafeMode => is_epoch_end(result, summary, None, commitments),
                    EpochInfo::Summary(info) => is_epoch_end(
                        result,
                        summary,
                        Some(info),
                        commitments,
                    ),
                }
            },
        },
    }
}

/// The row about the end of an epoch, or why its commitments have no encoding.
pub fn epoch_end_row(
    summary: &CheckpointSummary,
    info: Option<SystemEpochInfoEvent>,
    commitments: Result<Vec<u8>, BcsError>,
) -> (result: Result<Vec<StoredEpochEnd>, ProcessError>)
    requires
        wrapped_i64(summary.sequence_number) < i64::MAX,
    ensures
        is_epoch_end(result, *summary, info, bytes_of(commitments)),
        commitments matches Err(cause) ==> result == Err::<Vec<StoredEpochEnd>, _>(
            ProcessError::UnencodableEpochCommitments { cause },
        ),
        commitments matches Ok(bytes) ==> {
            &&& result matches Ok(rows)
            &&& rows@.len() == 1
            &&& rows@[0].epoch_commitments@ == bytes@
            &&& rows@[0].safe_mode <==> info is None
        },
{
    let epoch_commitments = match commitments {
        Ok(bytes) => bytes,
        Err(cause) => {
            return Err(ProcessError::UnencodableEpochCommitments { cause });
        },
    };
    let epoch: i64 = to_i64(summary.epoch);
    let cp_hi: i64 = to_i64(summary.sequence_number) + 1;
    let tx_hi: i64 = to_i64(summary.network_total_transactions);
    let end_timestamp_ms: i64 = to_i64(summary.timestamp_ms);
    let row = match info {
        Some(info) => StoredEpochEnd {
            epoch,
            cp_hi,
            tx_hi,
            end_timestamp_ms,
            safe_mode: false,
            total_stake: Some(to_i64(info.total_stake)),
            storage_fund_balance: Some(to_i64(info.storage_fund_balance)),
            storage_fund_reinvestment: Some(to_i64(info.storage_fund_reinvestment)),
            storage_charge: Some(to_i64(info.storage_charge)),
            storage_rebate: Some(to_i64(info.storage_rebate)),
            stake_subsidy_amount: Some(to_i64(info.stake_subsidy_amount)),
            total_gas_fees: Some(to_i64(info.total_gas_fees)),
            total_stake_rewards_distributed: Some(to_i64(info.total_stake_rewards_distributed)),
            leftover_storage_fund_inflow: Some(to_i64(info.leftover_storage_fund_inflow)),
            epoch_commitments,
        },
        None => StoredEpochEnd {
            epoch,
            cp_hi,
            tx_hi,
            end_timestamp_ms,
            safe_mode: true,
            total_stake: None,
            storage_fund_balance: None,
            storage_fund_reinvestment: None,
            storage_charge: None,
            storage_rebate: None,
            stake_subsidy_amount: None,
            total_gas_fees: None,
            total_stake_rewards_distributed: None,
            leftover_storage_fund_inflow: None,
            epoch_commitments,
        },
    };
    let mut rows: Vec<StoredEpochEnd> = Vec::new();
    rows.push(row);
    Ok(rows)
}

impl KvEpochEnds {
    /// The name of the pipeline.
    pub const NAME: &'static str = "kv_epoch_ends";

    /// How many rows are worth a transaction of their own.
    pub const MIN_EAGER_ROWS: usize = 1;

    /// Whether the number of the checkpoint after this one goes into a row. It has to fit then.
    pub fn is_due(&self, checkpoint: &CheckpointData) -> (due: bool)
        ensures
            due == epoch_end_is_due(*checkpoint),
    {
        if checkpoint.checkpoint_summary.end_of_epoch_data.is_none() {
            return false;
        }
        match checkpoint.end_of_epoch_transaction() {
            Some(transaction) => match transaction.system_epoch_info_event() {
                Some(event) => decode_system_epoch_info(&event.contents).is_ok(),
                None => true,
            },
            None => false,
        }
    }

    /// The rows that a checkpoint gives rise to: one about the end of its epoch if it is the last
    /// of the epoch, and none otherwise.
    pub fn process(&self, checkpoint: &CheckpointData) -> (result: Result<
        Vec<StoredEpochEnd>,
        ProcessError,
    >)
        requires
            epoch_end_is_due(*checkpoint) ==> wrapped_i64(
                checkpoint.checkpoint_summary.sequence_number,
            ) < i64::MAX,
        ensures
            is_epoch_end_of(result, *checkpoint),
    {
        let summary = &checkpoint.checkpoint_summary;
        let end_of_epoch = match &summary.end_of_epoch_data {
            Some(data) => data,
            None => {
                return Ok(Vec::new());
            },
        };
        let transaction = match checkpoint.end_of_epoch_transaction() {
            Some(transaction) => transaction,
            None => {
                return Err(
                    ProcessError::MissingEndOfEpochTransaction {
                        sequence_number: summary.sequence_number,
                    },
                );
            },
        };
        let info: Option<SystemEpochInfoEvent> = match transaction.system_epoch_info_event() {
            Some(event) => match decode_system_epoch_info(&event.contents) {
                Ok(info) => Some(info),
                Err(cause) => {
                    return Err(ProcessError::MalformedSystemEpochInfoEvent { cause });
                },
            },
            None => None,
        };
        epoch_end_row(summary, info, encode_commitments(&end_of_epoch.epoch_commitments))
    }

    /// The rows to delete when checkpoints are pruned of which the first belongs to `from_epoch`,
    /// and the one after the last to `to_epoch`.
    pub fn prune(&self, from_epoch: u64, to_epoch: u64) -> (filter: Option<EpochFilter>)
        requires
            from_epoch < to_epoch ==> wrapped_i64(to_epoch) > i64::MIN,
        ensures
            filter == spec_prunable_epochs(from_epoch, to_epoch),
            filter is Some <==> from_epoch < to_epoch,
            from_epoch < to_epoch <= i64::MAX ==> filter == Some(
                EpochFilter { first: from_epoch as i64, last: (to_epoch - 1) as i64 },
            ),
    {
        prunable_epochs(from_epoch, to_epoch)
    }
}

/// What a row about the end of an epoch says of its last checkpoint. `epoch`, `tx_hi` and
/// `end_timestamp_ms` are the numbers that the checkpoint gives, and `cp_hi` is the checkpoint after
/// it, as long as a column can hold them; otherwise they are off by a whole turn. The commitments
/// are those that were handed in. Without them there is no row, but the reason why.
pub proof fn law_epoch_end_row_repeats_the_checkpoint(
    result: Result<Vec<StoredEpochEnd>, ProcessError>,
    summary: CheckpointSummary,
    info: Option<SystemEpochInfoEvent>,
    commitments: Result<Seq<u8>, BcsError>,
)
    requires
        is_epoch_end(result, summary, info, commitments),
    ensures
        commitments matches Err(cause) ==> result == Err::<Vec<StoredEpochEnd>, _>(
            ProcessError::UnencodableEpochCommitments { cause },
        ),
        commitments matches Ok(bytes) ==> {
            let stored = |column: int, value: u64|
                column == value || column + 0x1_0000_0000_0000_0000 == value;
            &&& result matches Ok(rows)
            &&& rows@.len() == 1
            &&& stored(rows@[0].epoch as int, summary.epoch)
            &&& stored(rows@[0].cp_hi - 1, summary.sequence_number)
            &&& stored(rows@[0].tx_hi as int, summary.network_total_transactions)
            &&& stored(rows@[0].end_timestamp_ms as int, summary.timestamp_ms)
            &&& summary.epoch <= i64::MAX ==> rows@[0].epoch == summary.epoch
            &&& summary.sequence_number < i64::MAX ==> rows@[0].cp_hi == summary.sequence_number + 1
            &&& summary.network_total_transactions <= i64::MAX ==> rows@[0].tx_hi
                == summary.network_total_transactions
            &&& summary.timestamp_ms <= i64::MAX ==> rows@[0].end_timestamp_ms
                == summary.timestamp_ms
            &&& rows@[0].epoch_commitments@ == bytes
        },
{
}

/// What a row about the end of an epoch says of its sums: each column holds the sum of the same name
/// from the event, or the one that is off by a whole turn if a column cannot hold it. Without an
/// event the row is in safe mode and holds no sum.
pub proof fn law_epoch_end_row_repeats_the_sums(
    result: Result<Vec<StoredEpochEnd>, ProcessError>,
    summary: CheckpointSummary,
    info: Option<SystemEpochInfoEvent>,
    commitments: Seq<u8>,
)
    requires
        is_epoch_end(result, summary, info, Ok(commitments)),
    ensures
        result is Ok && result->Ok_0@.len() == 1,
        ({
            let row = result->Ok_0@[0];
            let stored = |column: Option<i64>, value: u64|
                column matches Some(c) && (c == value || c + 0x1_0000_0000_0000_0000 == value);
            match info {
                Some(info) => {
                    &&& !row.safe_mode
                    &&& stored(row.total_stake, info.total_stake)
                    &&& stored(row.storage_fund_balance, info.storage_fund_balance)
                    &&& stored(row.storage_fund_reinvestment, info.storage_fund_reinvestment)
                    &&& stored(row.storage_charge, info.storage_charge)
                    &&& stored(row.storage_rebate, info.storage_rebate)
                    &&& stored(row.stake_subsidy_amount, info.stake_subsidy_amount)
                    &&& stored(row.total_gas_fees, info.total_gas_fees)
                    &&& stored(
                        row.total_stake_rewards_distributed,
                        info.total_stake_rewards_distributed,
                    )
                    &&& stored(row.leftover_storage_fund_inflow, info.leftover_storage_fund_inflow)
                },
                None => {
                    &&& row.safe_mode
                    &&& row.total_stake is None
                    &&& row.storage_fund_balance is None
                    &&& row.storage_fund_reinvestment is None
                    &&& row.storage_charge is None
                    &&& row.storage_rebate is None
                    &&& row.stake_subsidy_amount is None
                    &&& row.total_gas_fees is None
                    &&& row.total_stake_rewards_distributed is None
                    &&& row.leftover_storage_fund_inflow is None
                },
            }
        }),
{
}

/// A checkpoint that is not the last of its epoch gives no row. One that is gives one row, unless no
/// transaction in it ends the epoch, which is reported with the number of the checkpoint.
pub proof fn law_epoch_ends_once(
    checkpoint: CheckpointData,
    result: Result<Vec<StoredEpochEnd>, ProcessError>,
)
    requires
        is_epoch_end_of(result, checkpoint),
    ensures
        checkpoint.checkpoint_summary.end_of_epoch_data is None ==> result is Ok
            && result->Ok_0@.len() == 0,
        checkpoint.checkpoint_summary.end_of_epoch_data is Some && result is Ok
            ==> result->Ok_0@.len() == 1,
        checkpoint.checkpoint_summary.end_of_epoch_data is Some && (forall|i: int|
            0 <= i < checkpoint.transactions@.len() ==> (#[trigger] checkpoint.transactions@[i]).kind
                is Other) ==> result == Err::<Vec<StoredEpochEnd>, _>(
            ProcessError::MissingEndOfEpochTransaction {
                sequence_number: checkpoint.checkpoint_summary.sequence_number,
            },
        ),
{
    if forall|i: int|
        0 <= i < checkpoint.transactions@.len() ==> (#[trigger] checkpoint.transactions@[i]).kind
            is Other {
        law_no_end_of_epoch_transaction(checkpoint.transactions@);
    }
}

/// Let transaction `t` be the first that ends the epoch. If none of its events sums up the epoch,
/// the row is in safe mode and holds no sum. It repeats the checkpoint and holds the encoding of its
/// commitments; if they have none, that is reported.
pub proof fn law_safe_mode_without_epoch_info(
    checkpoint: CheckpointData,
    result: Result<Vec<StoredEpochEnd>, ProcessError>,
    t: int,
)
    requires
        is_epoch_end_of(result, checkpoint),
        checkpoint.checkpoint_summary.end_of_epoch_data is Some,
        0 <= t < checkpoint.transactions@.len(),
        !(checkpoint.transactions@[t].kind is Other),
        forall|s: int| 0 <= s < t ==> (#[trigger] checkpoint.transactions@[s]).kind is Other,
        checkpoint.transactions@[t].events matches Some(events) ==> forall|j: int|
            0 <= j < events@.len() ==> !(#[trigger] events@[j]).is_system_epoch_info_event,
    ensures
        is_epoch_end(
            result,
            checkpoint.checkpoint_summary,
            None,
            encoded_commitments(
                checkpoint.checkpoint_summary.end_of_epoch_data->0.epoch_commitments@,
            ),
        ),
        result matches Ok(rows) ==> rows@.len() == 1 && rows@[0].safe_mode
            && rows@[0].total_stake is None,
{
    law_end_of_epoch_transaction_is_found(checkpoint.transactions@, t);
    law_no_epoch_info(checkpoint.transactions@[t].events);
}

/// Let transaction `t` be the first that ends the epoch, and let event `j` of it, whatever its
/// position, be the first that sums up the epoch. If it has its 96 bytes, the row is not in safe mode
/// and holds the sums of the event. It repeats the checkpoint and holds the encoding of its
/// commitments; if they have none, that is reported. An event that is shorter or longer is reported.
pub proof fn law_epoch_info_fills_the_row(
    checkpoint: CheckpointData,
    result: Result<Vec<StoredEpochEnd>, ProcessError>,
    t: int,
    j: int,
)
    requires
        is_epoch_end_of(result, checkpoint),
        checkpoint.checkpoint_summary.end_of_epoch_data is Some,
        0 <= t < checkpoint.transactions@.len(),
        !(checkpoint.transactions@[t].kind is Other),
        forall|s: int| 0 <= s < t ==> (#[trigger] checkpoint.transactions@[s]).kind is Other,
        checkpoint.transactions@[t].events is Some,
        0 <= j < checkpoint.transactions@[t].events->0@.len(),
        checkpoint.transactions@[t].events->0@[j].is_system_epoch_info_event,
        forall|i: int|
            0 <= i < j ==> !(
            #[trigger] checkpoint.transactions@[t].events->0@[i]).is_system_epoch_info_event,
    ensures
        ({
            let contents = checkpoint.transactions@[t].events->0@[j].contents@;
            &&& contents.len() < 96 ==> result == Err::<Vec<StoredEpochEnd>, _>(
                ProcessError::MalformedSystemEpochInfoEvent { cause: BcsError::Eof },
            )
            &&& contents.len() > 96 ==> result == Err::<Vec<StoredEpochEnd>, _>(
                ProcessError::MalformedSystemEpochInfoEvent { cause: BcsError::RemainingInput },
            )
            &&& contents.len() == 96 ==> decoded(contents) is Ok && is_epoch_end(
                result,
                checkpoint.checkpoint_summary,
                Some(decoded(contents)->Ok_0),
                encoded_commitments(
                    checkpoint.checkpoint_summary.end_of_epoch_data->0.epoch_commitments@,
                ),
            )
            &&& result matches Ok(rows) ==> rows@.len() == 1 && !rows@[0].safe_mode
        }),
{
    law_end_of_epoch_transaction_is_found(checkpoint.transactions@, t);
    law_epoch_info_is_found(checkpoint.transactions@[t].events->0, j);
    law_epoch_info_is_twelve_numbers(checkpoint.transactions@[t].events->0@[j].contents@);
}

/// A row is in safe mode only if no event of the transaction that ends the epoch sums it up: with
/// such an event, at any position in the list, there is no row in safe mode.
pub proof fn law_safe_mode_only_without_epoch_info(
    checkpoint: CheckpointData,
    result: Result<Vec<StoredEpochEnd>, ProcessError>,
    t: int,
    i: int,
)
    requires
        is_epoch_end_of(result, checkpoint),
        0 <= t < checkpoint.transactions@.len(),
        !(checkpoint.transactions@[t].kind is Other),
        forall|s: int| 0 <= s < t ==> (#[trigger] checkpoint.transactions@[s]).kind is Other,
        checkpoint.transactions@[t].events is Some,
        0 <= i < checkpoint.transactions@[t].events->0@.len(),
        checkpoint.transactions@[t].events->0@[i].is_system_epoch_info_event,
        result is Ok,
    ensures
        forall|r: int|
            0 <= r < result->Ok_0@.len() ==> !(#[trigger] result->Ok_0@[r]).safe_mode
                && result->Ok_0@[r].total_stake is Some,
{
    law_end_of_epoch_transaction_is_found(checkpoint.transactions@, t);
    law_epoch_info_is_found(checkpoint.transactions@[t].events->0, i);
}

/// A checkpoint is due for a row exactly when it gives one, or would if its commitments had an
/// encoding.
pub proof fn law_due_means_a_row(
    checkpoint: CheckpointData,
    result: Result<Vec<StoredEpochEnd>, ProcessError>,
)
    requires
        is_epoch_end_of(result, checkpoint),
    ensures
        epoch_end_is_due(checkpoint) <==> match result {
            Ok(rows) => rows@.len() == 1,
            Err(error) => error is UnencodableEpochCommitments,
        },
{
}

/// An epoch that ended in safe mode has none of the sums, and any other has all of them.
pub proof fn law_safe_mode_means_no_sums(
    row: StoredEpochEnd,
    summary: CheckpointSummary,
    info: Option<SystemEpochInfoEvent>,
    commitments: Seq<u8>,
)
    requires
        row.tells(summary, info, commitments),
    ensures
        row.safe_mode == (row.total_stake is None),
        row.safe_mode == (row.storage_fund_balance is None),
        row.safe_mode == (row.storage_fund_reinvestment is None),
        row.safe_mode == (row.storage_charge is None),
        row.safe_mode == (row.storage_rebate is None),
        row.safe_mode == (row.stake_subsidy_amount is None),
        row.safe_mode == (row.total_gas_fees is None),
        row.safe_mode == (row.total_stake_rewards_distributed is None),
        row.safe_mode == (row.leftover_storage_fund_inflow is None),
{
}

} // verus!
