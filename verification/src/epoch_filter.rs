//! Which epochs go when a range of checkpoints is pruned.

use crate::cast::{to_i64, wrapped_i64};
use vstd::prelude::*;

verus! {

/// The rows whose epoch lies between `first` and `last`, both inclusive.
#[derive(Clone, Copy, Debug, PartialEq, Eq, Structural)]
pub struct EpochFilter {
    pub first: i64,
    pub last: i64,
}

impl EpochFilter {
    /// The filter selects the rows of `epoch`.
    pub open spec fn spec_selects(self, epoch: i64) -> bool {
        self.first <= epoch <= self.last
    }

    /// Whether the filter selects the rows of `epoch`.
    #[verifier::when_used_as_spec(spec_selects)]
    pub fn selects(self, epoch: i64) -> (b: bool)
        ensures
            b == self.selects(epoch),
            b <==> self.first <= epoch && epoch <= self.last,
    {
        self.first <= epoch && epoch <= self.last
    }
}

/// The epochs from `from_epoch` up to, but not including, `to_epoch`; none if that is no epoch.
pub open spec fn spec_prunable_epochs(from_epoch: u64, to_epoch: u64) -> Option<EpochFilter> {
    if from_epoch < to_epoch {
        Some(
            EpochFilter {
                first: wrapped_i64(from_epoch) as i64,
                last: (wrapped_i64(to_epoch) - 1) as i64,
            },
        )
    } else {
        None
    }
}

/// The rows to delete when checkpoints are pruned of which the first belongs to `from_epoch`, and
/// the one after the last to `to_epoch`. As long as that is one epoch, nothing goes.
pub fn prunable_epochs(from_epoch: u64, to_epoch: u64) -> (filter: Option<EpochFilter>)
    requires
        from_epoch < to_epoch ==> wrapped_i64(to_epoch) > i64::MIN,
    ensures
        filter == spec_prunable_epochs(from_epoch, to_epoch),
        filter is Some <==> from_epoch < to_epoch,
        from_epoch < to_epoch <= i64::MAX ==> filter == Some(
            EpochFilter { first: from_epoch as i64, last: (to_epoch - 1) as i64 },
        ),
{
    if from_epoch < to_epoch {
        Some(EpochFilter { first: to_i64(from_epoch), last: to_i64(to_epoch) - 1 })
    } else {
        None
    }
}

/// The filter selects exactly the epochs from `from_epoch` up to `to_epoch`, for epochs that a
/// column can hold.
pub proof fn law_filter_selects_interval(from_epoch: u64, to_epoch: u64, epoch: u64)
    requires
        to_epoch <= i64::MAX,
        epoch <= i64::MAX,
    ensures
        from_epoch <= epoch < to_epoch <==> (spec_prunable_epochs(from_epoch, to_epoch) matches Some(
            filter,
        ) && filter.selects(epoch as i64)),
{
}

/// The bounds of the filter are the first epoch and the one before the last, both as the numbers
/// they are, as long as a column can hold them, and otherwise off by a whole turn. There is a filter
/// exactly when there is an epoch between them, and it selects what lies between its bounds.
pub proof fn law_filter_bounds(from_epoch: u64, to_epoch: u64, epoch: i64)
    requires
        to_epoch != 0x8000_0000_0000_0000,
    ensures
        from_epoch >= to_epoch ==> spec_prunable_epochs(from_epoch, to_epoch) is None,
        from_epoch < to_epoch ==> {
            &&& spec_prunable_epochs(from_epoch, to_epoch) matches Some(filter)
            &&& filter.first == from_epoch || filter.first + 0x1_0000_0000_0000_0000 == from_epoch
            &&& filter.last + 1 == to_epoch || filter.last + 1 + 0x1_0000_0000_0000_0000 == to_epoch
            &&& filter.selects(epoch) <==> filter.first <= epoch && epoch <= filter.last
        },
{
}

/// While the checkpoints that are pruned belong to one epoch, nothing is deleted.
pub proof fn law_same_epoch_deletes_nothing(epoch: u64)
    ensures
        spec_prunable_epochs(epoch, epoch) is None,
{
}

/// Pruning up to an epoch and then from it on deletes what pruning in one go does.
pub proof fn law_filters_compose(a: u64, b: u64, c: u64, epoch: i64)
    requires
        a <= b <= c <= i64::MAX,
    ensures
        ({
            let selected = |filter: Option<EpochFilter>|
                filter matches Some(f) && f.selects(epoch);
            selected(spec_prunable_epochs(a, c)) <==> selected(spec_prunable_epochs(a, b))
                || selected(spec_prunable_epochs(b, c))
        }),
{
}

} // verus!
