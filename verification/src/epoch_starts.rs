//! Rows about the start of each epoch.

use crate::cast::{to_i64, wrapped_i64};
use crate::checkpoint::{
    end_of_epoch_transaction, law_end_of_epoch_transaction_is_found,
    law_no_end_of_epoch_transaction, CheckpointData, CheckpointSummary, SystemState,
};
use crate::epoch_ends::{is_epoch_end_of, StoredEpochEnd};
use crate::epoch_filter::{prunable_epochs, spec_prunable_epochs, EpochFilter};
use crate::error::ProcessError;
use vstd::prelude::*;

verus! {

/// The pipeline that writes `kv_epoch_starts`.
#[derive(Clone, Copy, Debug)]
pub struct KvEpochStarts;

/// A row of `kv_epoch_starts`.
#[derive(Debug, PartialEq, Eq)]
pub struct StoredEpochStart {
    pub epoch: i64,
    pub protocol_version: i64,
    pub cp_lo: i64,
    pub start_timestamp_ms: i64,
    pub reference_gas_price: i64,
    pub system_state: Vec<u8>,
}

impl StoredEpochStart {
    /// The row tells of the start of the epoch that `state` describes, right after the checkpoint
    /// of `summary`.
    pub open spec fn tells(
        self,
        summary: CheckpointSummary,
        state: SystemState,
        contents: Seq<u8>,
    ) -> bool {
        &&& self.epoch == wrapped_i64(state.epoch)
        &&& self.protocol_version == wrapped_i64(state.protocol_version)
        &&& self.cp_lo == wrapped_i64(summary.sequence_number) + 1
        &&& self.start_timestamp_ms == wrapped_i64(state.epoch_start_timestamp_ms)
        &&& self.reference_gas_price == wrapped_i64(state.reference_gas_price)
        &&& self.system_state@ == contents
    }
}

/// What the row of an epoch's start depends on could be read from the checkpoint.
pub open spec fn epoch_start_is_due(checkpoint: CheckpointData) -> bool {
    &&& checkpoint.checkpoint_summary.is_last_checkpoint_of_epoch()
    &&& end_of_epoch_transaction(checkpoint.transactions@) matches Some(transaction)
    &&& transaction.system_state is Ok
}

/// `result` is what becomes of the checkpoint: one row if it is the last of its epoch.
pub open spec fn is_epoch_start_of(
    result: Result<Vec<StoredEpochStart>, ProcessError>,
    checkpoint: CheckpointData,
) -> bool {
    let summary = checkpoint.checkpoint_summary;
    if !summary.is_last_checkpoint_of_epoch() {
        result matches Ok(rows) && rows@.len() == 0
    } else {
        match end_of_epoch_transaction(checkpoint.transactions@) {
            None => result == Err::<Vec<StoredEpochStart>, _>(
                ProcessError::MissingEndOfEpochTransaction {
                    sequence_number: summary.sequence_number,
                },
            ),
            Some(transaction) => match transaction.system_state {
                Err(reason) => result == Err::<Vec<StoredEpochStart>, _>(
                    ProcessError::MissingSystemState { reason },
                ),
                Ok(state) => match state.contents {
                    Err(cause) => result == Err::<Vec<StoredEpochStart>, _>(
                        ProcessError::UnencodableSystemState { cause },
                    ),
                    Ok(contents) => {
                        &&& result matches Ok(rows)
                        &&& rows@.len() == 1
                        &&& rows@[0].tells(summary, state, contents@)
                    },
                },
            },
        }
    }
}

impl KvEpochStarts {
    /// The name of the pipeline.
    pub const NAME: &'static str = "kv_epoch_starts";

    /// How many rows are worth a transaction of their own.
    pub const MIN_EAGER_ROWS: usize = 1;

    /// Whether the number of the checkpoint after this one goes into a row. It has to fit then.
    pub fn is_due(&self, checkpoint: &CheckpointData) -> (due: bool)
        ensures
            due == epoch_start_is_due(*checkpoint),
    {
        if !checkpoint.checkpoint_summary.is_last_checkpoint_of_epoch() {
            return false;
        }
        match checkpoint.end_of_epoch_transaction() {
            Some(transaction) => transaction.system_state.is_ok(),
            None => false,
        }
    }

    /// The rows that a checkpoint gives rise to: one about the start of the next epoch if it is the
    /// last of its epoch, and none otherwise. The last checkpoint of an epoch holds all there is
    /// to know about the start of the next one.
    pub fn process(&self, checkpoint: &CheckpointData) -> (result: Result<
        Vec<StoredEpochStart>,
        ProcessError,
    >)
        requires
            epoch_start_is_due(*checkpoint) ==> wrapped_i64(
                checkpoint.checkpoint_summary.sequence_number,
            ) < i64::MAX,
        ensures
            is_epoch_start_of(result, *checkpoint),
    {
        let summary = &checkpoint.checkpoint_summary;
        if !summary.is_last_checkpoint_of_epoch() {
            return Ok(Vec::new());
        }
        let transaction = match checkpoint.end_of_epoch_transaction() {
            Some(transaction) => transaction,
            None => {
                return Err(
                    ProcessError::MissingEndOfEpochTransaction {
                        sequence_number: summary.sequence_number,
                    },
                );
            },
        };
        let state = match &transaction.system_state {
            Ok(state) => state,
            Err(reason) => {
                return Err(ProcessError::MissingSystemState { reason: reason.clone() });
            },
        };
        let contents = match &state.contents {
            Ok(contents) => contents,
            Err(cause) => {
                return Err(ProcessError::UnencodableSystemState { cause: cause.clone() });
            },
        };
        let row = StoredEpochStart {
            epoch: to_i64(state.epoch),
            protocol_version: to_i64(state.protocol_version),
            cp_lo: to_i64(summary.sequence_number) + 1,
            start_timestamp_ms: to_i64(state.epoch_start_timestamp_ms),
            reference_gas_price: to_i64(state.reference_gas_price),
            system_state: contents.clone(),
        };
        let mut rows: Vec<StoredEpochStart> = Vec::new();
        rows.push(row);
        Ok(rows)
    }

    /// The rows to delete when checkpoints are pruned of which the first belongs to `from_epoch`,
    /// and the one after the last to `to_epoch`.
    pub fn prune(&self, from_epoch: u64, to_epoch: u64) -> (filter: Option<EpochFilter>)
        requires
            from_epoch < to_epoch ==> wrapped_i64(to_epoch) > i64::MIN,
        ensures
            filter == spec_prunable_epochs(from_epoch, to_epoch),
            filter is Some <==> from_epoch < to_epoch,
            from_epoch < to_epoch <= i64::MAX ==> filter == Some(
                EpochFilter { first: from_epoch as i64, last: (to_epoch - 1) as i64 },
            ),
    {
        prunable_epochs(from_epoch, to_epoch)
    }
}

/// A checkpoint that is not the last of its epoch gives no row. One that is gives one row, unless no
/// transaction in it ends the epoch, which is reported with the number of the checkpoint.
pub proof fn law_epoch_starts_once(
    checkpoint: CheckpointData,
    result: Result<Vec<StoredEpochStart>, ProcessError>,
)
    requires
        is_epoch_start_of(result, checkpoint),
    ensures
        checkpoint.checkpoint_summary.end_of_epoch_data is None ==> result is Ok
            && result->Ok_0@.len() == 0,
        checkpoint.checkpoint_summary.end_of_epoch_data is Some && result is Ok
            ==> result->Ok_0@.len() == 1,
        checkpoint.checkpoint_summary.end_of_epoch_data is Some && (forall|i: int|
            0 <= i < checkpoint.transactions@.len() ==> (#[trigger] checkpoint.transactions@[i]).kind
                is Other) ==> result == Err::<Vec<StoredEpochStart>, _>(
            ProcessError::MissingEndOfEpochTransaction {
                sequence_number: checkpoint.checkpoint_summary.sequence_number,
            },
        ),
{
    if forall|i: int|
        0 <= i < checkpoint.transactions@.len() ==> (#[trigger] checkpoint.transactions@[i]).kind
            is Other {
        law_no_end_of_epoch_transaction(checkpoint.transactions@);
    }
}

/// Let transaction `t` be the first that ends the epoch. What is handed in of the system state that
/// it wrote goes into the row unchanged: the epoch, the protocol version, the timestamp in
/// milliseconds and the gas price as the numbers they are, as long as a column can hold them, and
/// otherwise off by a whole turn; and the encoding byte by byte. `cp_lo` is the checkpoint after
/// this one. If the state was not found or cannot be encoded, that is reported with what was handed
/// in as the reason.
pub proof fn law_epoch_start_row_repeats_the_state(
    checkpoint: CheckpointData,
    result: Result<Vec<StoredEpochStart>, ProcessError>,
    t: int,
)
    requires
        is_epoch_start_of(result, checkpoint),
        checkpoint.checkpoint_summary.end_of_epoch_data is Some,
        0 <= t < checkpoint.transactions@.len(),
        !(checkpoint.transactions@[t].kind is Other),
        forall|s: int| 0 <= s < t ==> (#[trigger] checkpoint.transactions@[s]).kind is Other,
    ensures
        match checkpoint.transactions@[t].system_state {
            Err(reason) => result == Err::<Vec<StoredEpochStart>, _>(
                ProcessError::MissingSystemState { reason },
            ),
            Ok(state) => match state.contents {
                Err(cause) => result == Err::<Vec<StoredEpochStart>, _>(
                    ProcessError::UnencodableSystemState { cause },
                ),
                Ok(contents) => {
                    let number = checkpoint.checkpoint_summary.sequence_number;
                    let stored = |column: int, value: u64|
                        column == value || column + 0x1_0000_0000_0000_0000 == value;
                    &&& result matches Ok(rows)
                    &&& rows@.len() == 1
                    &&& stored(rows@[0].epoch as int, state.epoch)
                    &&& stored(rows@[0].protocol_version as int, state.protocol_version)
                    &&& stored(rows@[0].cp_lo - 1, number)
                    &&& stored(rows@[0].start_timestamp_ms as int, state.epoch_start_timestamp_ms)
                    &&& stored(rows@[0].reference_gas_price as int, state.reference_gas_price)
                    &&& state.epoch <= i64::MAX ==> rows@[0].epoch == state.epoch
                    &&& state.protocol_version <= i64::MAX ==> rows@[0].protocol_version
                        == state.protocol_version
                    &&& number < i64::MAX ==> rows@[0].cp_lo == number + 1
                    &&& state.epoch_start_timestamp_ms <= i64::MAX ==> rows@[0].start_timestamp_ms
                        == state.epoch_start_timestamp_ms
                    &&& state.reference_gas_price <= i64::MAX ==> rows@[0].reference_gas_price
                        == state.reference_gas_price
                    &&& rows@[0].system_state@ == contents@
                },
            },
        },
{
    law_end_of_epoch_transaction_is_found(checkpoint.transactions@, t);
}

/// A checkpoint is due for a row exactly when it gives one, or would if the system state had an
/// encoding.
pub proof fn law_due_means_a_row(
    checkpoint: CheckpointData,
    result: Result<Vec<StoredEpochStart>, ProcessError>,
)
    requires
        is_epoch_start_of(result, checkpoint),
    ensures
        epoch_start_is_due(checkpoint) <==> match result {
            Ok(rows) => rows@.len() == 1,
            Err(error) => error is UnencodableSystemState,
        },
{
}

/// The next epoch starts at the checkpoint where the last one ends: what the two pipelines write
/// for one checkpoint leaves no gap and does not overlap.
pub proof fn law_epochs_meet(
    checkpoint: CheckpointData,
    ends: Result<Vec<StoredEpochEnd>, ProcessError>,
    starts: Result<Vec<StoredEpochStart>, ProcessError>,
)
    requires
        is_epoch_end_of(ends, checkpoint),
        is_epoch_start_of(starts, checkpoint),
        ends is Ok,
        starts is Ok,
    ensures
        ends->Ok_0@.len() == starts->Ok_0@.len(),
        ends->Ok_0@.len() <= 1,
        ends->Ok_0@.len() == 1 <==> checkpoint.checkpoint_summary.is_last_checkpoint_of_epoch(),
        ends->Ok_0@.len() == 1 ==> ends->Ok_0@[0].cp_hi == starts->Ok_0@[0].cp_lo,
{
}

} // verus!
