//! What the handlers read of a checkpoint.

use crate::encoding::BcsError;
use vstd::prelude::*;

verus! {

/// What a transaction does, as far as it matters here.
#[derive(Clone, Copy, Debug, PartialEq, Eq, Structural)]
pub enum TransactionKind {
    ChangeEpoch,
    EndOfEpochTransaction,
    Other,
}

/// An event that a transaction emitted.
#[derive(Debug, PartialEq, Eq)]
pub struct Event {
    /// Whether the type of the event is the one that sums up an epoch.
    pub is_system_epoch_info_event: bool,
    /// The event in Binary Canonical Serialization (BCS).
    pub contents: Vec<u8>,
}

/// The state of the system that a transaction wrote.
#[derive(Debug, PartialEq, Eq)]
pub struct SystemState {
    pub epoch: u64,
    pub protocol_version: u64,
    pub epoch_start_timestamp_ms: u64,
    pub reference_gas_price: u64,
    /// The whole state in BCS, or why it cannot be encoded.
    pub contents: Result<Vec<u8>, BcsError>,
}

/// A transaction of a checkpoint.
#[derive(Debug, PartialEq, Eq)]
pub struct CheckpointTransaction {
    pub kind: TransactionKind,
    /// What the transaction emitted, if it emitted anything.
    pub events: Option<Vec<Event>>,
    /// The system state among the objects that the transaction wrote, or why it was not found.
    pub system_state: Result<SystemState, String>,
}

/// A digest of the state of the chain at the end of an epoch.
#[derive(Debug, PartialEq, Eq)]
pub enum CheckpointCommitment {
    ECMHLiveObjectSetDigest { digest: [u8; 32] },
}

/// What the last checkpoint of an epoch says about its end.
#[derive(Debug, PartialEq, Eq)]
pub struct EndOfEpochData {
    pub epoch_commitments: Vec<CheckpointCommitment>,
}

/// What a checkpoint says about itself.
#[derive(Debug, PartialEq, Eq)]
pub struct CheckpointSummary {
    pub epoch: u64,
    pub sequence_number: u64,
    pub network_total_transactions: u64,
    pub timestamp_ms: u64,
    pub end_of_epoch_data: Option<EndOfEpochData>,
}

/// A checkpoint.
#[derive(Debug, PartialEq, Eq)]
pub struct CheckpointData {
    pub checkpoint_summary: CheckpointSummary,
    pub transactions: Vec<CheckpointTransaction>,
}

impl TransactionKind {
    /// Whether the transaction ends an epoch.
    pub open spec fn spec_ends_epoch(self) -> bool {
        self is ChangeEpoch || self is EndOfEpochTransaction
    }

    /// Whether the transaction ends an epoch.
    #[verifier::when_used_as_spec(spec_ends_epoch)]
    pub fn ends_epoch(self) -> (b: bool)
        ensures
            b == self.ends_epoch(),
            b <==> self is ChangeEpoch || self is EndOfEpochTransaction,
    {
        matches!(self, TransactionKind::ChangeEpoch | TransactionKind::EndOfEpochTransaction)
    }
}

/// Transaction `i` is the first one that ends an epoch.
pub open spec fn is_first_end_of_epoch(transactions: Seq<CheckpointTransaction>, i: int) -> bool {
    &&& 0 <= i < transactions.len()
    &&& transactions[i].kind.ends_epoch()
    &&& forall|j: int| 0 <= j < i ==> !(#[trigger] transactions[j]).kind.ends_epoch()
}

/// The first transaction that ends an epoch, if there is one.
pub open spec fn end_of_epoch_transaction(transactions: Seq<CheckpointTransaction>) -> Option<
    CheckpointTransaction,
> {
    if exists|i: int| is_first_end_of_epoch(transactions, i) {
        Some(transactions[choose|i: int| is_first_end_of_epoch(transactions, i)])
    } else {
        None
    }
}

/// Event `i` is the first one that sums up an epoch.
pub open spec fn is_first_system_epoch_info(events: Seq<Event>, i: int) -> bool {
    &&& 0 <= i < events.len()
    &&& events[i].is_system_epoch_info_event
    &&& forall|j: int| 0 <= j < i ==> !(#[trigger] events[j]).is_system_epoch_info_event
}

/// The first event that sums up an epoch, if there is one.
pub open spec fn system_epoch_info_event(events: Option<Vec<Event>>) -> Option<Event> {
    match events {
        Some(events) => if exists|i: int| is_first_system_epoch_info(events@, i) {
            Some(events@[choose|i: int| is_first_system_epoch_info(events@, i)])
        } else {
            None
        },
        None => None,
    }
}

/// If transaction `i` ends an epoch, whatever its position, a transaction is found that does. It
/// is the first one: none before it ends an epoch, and it is transaction `i` if none before that does.
pub proof fn law_end_of_epoch_transaction_is_found(transactions: Seq<CheckpointTransaction>, i: int)
    requires
        0 <= i < transactions.len(),
        transactions[i].kind is ChangeEpoch || transactions[i].kind is EndOfEpochTransaction,
    ensures
        end_of_epoch_transaction(transactions) is Some,
        exists|k: int|
            0 <= k <= i && end_of_epoch_transaction(transactions) == Some(#[trigger] transactions[k])
                && !(transactions[k].kind is Other) && (forall|j: int|
                0 <= j < k ==> (#[trigger] transactions[j]).kind is Other),
        (forall|j: int| 0 <= j < i ==> (#[trigger] transactions[j]).kind is Other)
            ==> end_of_epoch_transaction(transactions) == Some(transactions[i]),
{
    lemma_first_end_of_epoch(transactions, i);
    let k = choose|k: int| is_first_end_of_epoch(transactions, k);
    assert(is_first_end_of_epoch(transactions, k));
    assert(transactions[i].kind.ends_epoch());
    assert(k <= i);
    assert(end_of_epoch_transaction(transactions) == Some(transactions[k]));
    assert forall|j: int| 0 <= j < k implies (#[trigger] transactions[j]).kind is Other by {
        assert(!transactions[j].kind.ends_epoch());
    }
}

/// Where no transaction ends an epoch, none is found.
pub proof fn law_no_end_of_epoch_transaction(transactions: Seq<CheckpointTransaction>)
    requires
        forall|i: int| 0 <= i < transactions.len() ==> (#[trigger] transactions[i]).kind is Other,
    ensures
        end_of_epoch_transaction(transactions) is None,
{
}

/// If a transaction ends an epoch, there is a first one that does.
proof fn lemma_first_end_of_epoch(transactions: Seq<CheckpointTransaction>, i: int)
    requires
        0 <= i < transactions.len(),
        transactions[i].kind.ends_epoch(),
    ensures
        exists|k: int| is_first_end_of_epoch(transactions, k),
    decreases i,
{
    if !is_first_end_of_epoch(transactions, i) {
        let j = choose|j: int| 0 <= j < i && (#[trigger] transactions[j]).kind.ends_epoch();
        lemma_first_end_of_epoch(transactions, j);
    }
}

/// If event `i` sums up an epoch, whatever its position, an event is found that does. It is the
/// first one: none before it sums up an epoch, and it is event `i` if none before that does.
pub proof fn law_epoch_info_is_found(events: Vec<Event>, i: int)
    requires
        0 <= i < events@.len(),
        events@[i].is_system_epoch_info_event,
    ensures
        system_epoch_info_event(Some(events)) is Some,
        exists|k: int|
            0 <= k <= i && system_epoch_info_event(Some(events)) == Some(#[trigger] events@[k])
                && events@[k].is_system_epoch_info_event && (forall|j: int|
                0 <= j < k ==> !(#[trigger] events@[j]).is_system_epoch_info_event),
        (forall|j: int| 0 <= j < i ==> !(#[trigger] events@[j]).is_system_epoch_info_event)
            ==> system_epoch_info_event(Some(events)) == Some(events@[i]),
{
    lemma_first_system_epoch_info(events@, i);
    let k = choose|k: int| is_first_system_epoch_info(events@, k);
    assert(is_first_system_epoch_info(events@, k));
    assert(k <= i);
    assert(system_epoch_info_event(Some(events)) == Some(events@[k]));
}

/// Where no event sums up an epoch, or there are no events, none is found.
pub proof fn law_no_epoch_info(events: Option<Vec<Event>>)
    requires
        events matches Some(events) ==> forall|i: int|
            0 <= i < events@.len() ==> !(#[trigger] events@[i]).is_system_epoch_info_event,
    ensures
        system_epoch_info_event(events) is None,
{
}

/// If an event sums up an epoch, there is a first one that does.
proof fn lemma_first_system_epoch_info(events: Seq<Event>, i: int)
    requires
        0 <= i < events.len(),
        events[i].is_system_epoch_info_event,
    ensures
        exists|k: int| is_first_system_epoch_info(events, k),
    decreases i,
{
    if !is_first_system_epoch_info(events, i) {
        let j = choose|j: int| 0 <= j < i && (#[trigger] events[j]).is_system_epoch_info_event;
        lemma_first_system_epoch_info(events, j);
    }
}

impl CheckpointSummary {
    /// Whether the epoch ends with this checkpoint.
    #[verifier::allow_in_spec]
    pub fn is_last_checkpoint_of_epoch(&self) -> bool
        returns
            self.end_of_epoch_data is Some,
    {
        self.end_of_epoch_data.is_some()
    }
}

impl CheckpointData {
    /// The first transaction that ends an epoch, if there is one.
    pub fn end_of_epoch_transaction(&self) -> (transaction: Option<&CheckpointTransaction>)
        ensures
            transaction is Some <==> end_of_epoch_transaction(self.transactions@) is Some,
            transaction matches Some(t) ==> end_of_epoch_transaction(self.transactions@) == Some(
                *t,
            ),
            transaction matches Some(t) ==> self.transactions@.contains(*t),
            transaction is None ==> forall|i: int|
                0 <= i < self.transactions@.len() ==> (#[trigger] self.transactions@[i]).kind
                    is Other,
    {
        let n: usize = self.transactions.len();
        for i in 0..n
            invariant
                n == self.transactions.len(),
                forall|j: int|
                    0 <= j < i ==> !(#[trigger] self.transactions@[j]).kind.ends_epoch(),
        {
            if self.transactions[i].kind.ends_epoch() {
                assert(is_first_end_of_epoch(self.transactions@, i as int));
                return Some(&self.transactions[i]);
            }
        }
        None
    }
}

impl CheckpointTransaction {
    /// The first event of the transaction that sums up an epoch, if there is one.
    pub fn system_epoch_info_event(&self) -> (event: Option<&Event>)
        ensures
            event is Some <==> system_epoch_info_event(self.events) is Some,
            event matches Some(e) ==> system_epoch_info_event(self.events) == Some(*e),
            event matches Some(e) ==> self.events is Some && self.events->0@.contains(*e)
                && e.is_system_epoch_info_event,
            event is None ==> (self.events matches Some(events) ==> forall|i: int|
                0 <= i < events@.len() ==> !(#[trigger] events@[i]).is_system_epoch_info_event),
    {
        let events: &Vec<Event> = match &self.events {
            Some(events) => events,
            None => {
                return None;
            },
        };
        let n: usize = events.len();
        for i in 0..n
            invariant
                n == events.len(),
                self.events == Some(*events),
                forall|j: int| 0 <= j < i ==> !(#[trigger] events@[j]).is_system_epoch_info_event,
        {
            if events[i].is_system_epoch_info_event {
                assert(is_first_system_epoch_info(self.events->0@, i as int));
                return Some(&events[i]);
            }
        }
        None
    }
}

} // verus!
