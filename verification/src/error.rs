//! Why a checkpoint could not be turned into rows.

use crate::encoding::BcsError;
use vstd::prelude::*;

verus! {

/// Why a checkpoint could not be turned into rows.
#[derive(Debug, PartialEq, Eq)]
pub enum ProcessError {
    /// The last checkpoint of an epoch holds no transaction that ends the epoch.
    MissingEndOfEpochTransaction { sequence_number: u64 },
    /// The system state was not found among what the transaction wrote that ends the epoch, for
    /// `reason`.
    MissingSystemState { reason: String },
    /// The event that sums up the epoch is not what it should be, because of `cause`.
    MalformedSystemEpochInfoEvent { cause: BcsError },
    /// The commitments of the epoch cannot be encoded, because of `cause`.
    UnencodableEpochCommitments { cause: BcsError },
    /// The system state cannot be encoded, because of `cause`.
    UnencodableSystemState { cause: BcsError },
}

/// The decimal digit `d`.
pub open spec fn digit(d: int) -> char {
    ('0' as int + d) as char
}

/// `n` in decimal.
pub open spec fn decimal(n: nat) -> Seq<char>
    decreases n,
{
    if n < 10 {
        seq![digit(n as int)]
    } else {
        decimal(n / 10).push(digit((n % 10) as int))
    }
}

fn digit_str(d: u64) -> (s: &'static str)
    requires
        d < 10,
    ensures
        s@ == seq![digit(d as int)],
{
    proof {
        reveal_strlit("0");
        reveal_strlit("1");
        reveal_strlit("2");
        reveal_strlit("3");
        reveal_strlit("4");
        reveal_strlit("5");
        reveal_strlit("6");
        reveal_strlit("7");
        reveal_strlit("8");
        reveal_strlit("9");
    }
    match d {
        0 => "0",
        1 => "1",
        2 => "2",
        3 => "3",
        4 => "4",
        5 => "5",
        6 => "6",
        7 => "7",
        8 => "8",
        _ => "9",
    }
}

fn append_decimal(text: &mut String, n: u64)
    ensures
        final(text)@ == old(text)@ + decimal(n as nat),
    decreases n,
{
    if n >= 10 {
        append_decimal(text, n / 10);
    }
    text.append(digit_str(n % 10));
}

impl ProcessError {
    /// The text that describes the error, without its cause.
    pub open spec fn text(self) -> Seq<char> {
        match self {
            ProcessError::MissingEndOfEpochTransaction { sequence_number } => {
                "Failed to get end of epoch transaction in checkpoint "@ + decimal(
                    sequence_number as nat,
                ) + " with EndOfEpochData"@
            },
            ProcessError::MissingSystemState { .. } => {
                "Failed to find system state object output from end of epoch transaction"@
            },
            ProcessError::MalformedSystemEpochInfoEvent { .. } => {
                "Failed to deserialize SystemEpochInfoEvent"@
            },
            ProcessError::UnencodableEpochCommitments { .. } => {
                "Failed to serialize EpochCommitment-s"@
            },
            ProcessError::UnencodableSystemState { .. } => "Failed to serialize SystemState"@,
        }
    }

    /// Describes the error, without its cause.
    pub fn message(&self) -> (message: String)
        ensures
            message@ == self.text(),
    {
        match self {
            ProcessError::MissingEndOfEpochTransaction { sequence_number } => {
                let mut message = "Failed to get end of epoch transaction in checkpoint ".to_string();
                append_decimal(&mut message, *sequence_number);
                message.append(" with EndOfEpochData");
                message
            },
            ProcessError::MissingSystemState { .. } => {
                "Failed to find system state object output from end of epoch transaction".to_string()
            },
            ProcessError::MalformedSystemEpochInfoEvent { .. } => {
                "Failed to deserialize SystemEpochInfoEvent".to_string()
            },
            ProcessError::UnencodableEpochCommitments { .. } => {
                "Failed to serialize EpochCommitment-s".to_string()
            },
            ProcessError::UnencodableSystemState { .. } => {
                "Failed to serialize SystemState".to_string()
            },
        }
    }
}

/// The number that decimal digits spell, the highest first.
pub open spec fn spelled(digits: Seq<char>) -> int
    decreases digits.len(),
{
    if digits.len() == 0 {
        0
    } else {
        10 * spelled(digits.drop_last()) + (digits.last() as int - '0' as int)
    }
}

/// A number in decimal consists of digits, spells the number, and does not start with a zero unless
/// it is zero. So no two numbers are written alike.
pub proof fn law_decimal_spells_the_number(n: nat)
    ensures
        spelled(decimal(n)) == n,
        decimal(n).len() > 0,
        forall|i: int| 0 <= i < decimal(n).len() ==> '0' <= #[trigger] decimal(n)[i] <= '9',
        n > 0 ==> decimal(n)[0] != '0',
        n == 0 ==> decimal(n).len() == 1,
    decreases n,
{
    if n >= 10 {
        law_decimal_spells_the_number(n / 10);
        let before = decimal(n / 10);
        assert(decimal(n).drop_last() =~= before);
        assert forall|i: int| 0 <= i < decimal(n).len() implies '0' <= #[trigger] decimal(n)[i]
            <= '9' by {
            if i < before.len() {
                assert(decimal(n)[i] == before[i]);
            }
        }
    } else {
        assert(decimal(n).drop_last() =~= Seq::<char>::empty());
        assert(spelled(Seq::<char>::empty()) == 0);
    }
}

/// What each error says, whatever it holds. Only the number of the checkpoint goes into the text.
pub proof fn law_messages(error: ProcessError)
    ensures
        match error {
            ProcessError::MissingEndOfEpochTransaction { sequence_number } => exists|
                digits: Seq<char>,
            |
                {
                    &&& #[trigger] spelled(digits) == sequence_number
                    &&& digits == decimal(sequence_number as nat)
                    &&& error.text() == "Failed to get end of epoch transaction in checkpoint "@
                        + digits + " with EndOfEpochData"@
                },
            ProcessError::MissingSystemState { reason } => error.text()
                == "Failed to find system state object output from end of epoch transaction"@,
            ProcessError::MalformedSystemEpochInfoEvent { cause } => error.text()
                == "Failed to deserialize SystemEpochInfoEvent"@,
            ProcessError::UnencodableEpochCommitments { cause } => error.text()
                == "Failed to serialize EpochCommitment-s"@,
            ProcessError::UnencodableSystemState { cause } => error.text()
                == "Failed to serialize SystemState"@,
        },
{
    if let ProcessError::MissingEndOfEpochTransaction { sequence_number } = error {
        law_decimal_spells_the_number(sequence_number as nat);
        assert(spelled(decimal(sequence_number as nat)) == sequence_number);
    }
}

} // verus!
