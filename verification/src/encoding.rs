//! Binary Canonical Serialization (BCS) of what checkpoints carry.

use crate::checkpoint::CheckpointCommitment;
use vstd::prelude::*;

verus! {

/// Why `bcs` could not encode or decode a value.
#[verifier::external_type_specification]
#[verifier::external_body]
pub struct ExBcsError(bcs::Error);

/// `clone` of `bcs::Error`, which is derived: it copies the error.
pub assume_specification [<bcs::Error as Clone>::clone](error: &bcs::Error) -> (copy: bcs::Error)
    ensures
        copy == *error,
;

/// Why a value could not be encoded or decoded.
#[derive(Debug, PartialEq, Eq)]
pub enum BcsError {
    /// The bytes end before the value does.
    Eof,
    /// The bytes go on after the value has ended.
    RemainingInput,
    /// A sequence has `len` elements, which is more than it may have.
    ExceededMaxLen { len: usize },
    /// Another error of `bcs`.
    Other { error: bcs::Error },
}

impl Clone for BcsError {
    fn clone(&self) -> (copy: Self)
        ensures
            copy == *self,
    {
        match self {
            BcsError::Eof => BcsError::Eof,
            BcsError::RemainingInput => BcsError::RemainingInput,
            BcsError::ExceededMaxLen { len } => BcsError::ExceededMaxLen { len: *len },
            BcsError::Other { error } => BcsError::Other { error: error.clone() },
        }
    }
}

/// The most elements that a sequence may have in BCS.
pub const MAX_SEQUENCE_LENGTH: usize = 0x7fff_ffff;

/// How many bytes a [`SystemEpochInfoEvent`] takes.
pub const SYSTEM_EPOCH_INFO_LENGTH: usize = 96;

/// The event that sums up an epoch, as it is emitted when the epoch ends. The fields stand in the
/// order in which the event is encoded.
#[derive(Clone, Copy, Debug, PartialEq, Eq, Structural)]
pub struct SystemEpochInfoEvent {
    pub epoch: u64,
    pub protocol_version: u64,
    pub reference_gas_price: u64,
    pub total_stake: u64,
    pub storage_fund_reinvestment: u64,
    pub storage_charge: u64,
    pub storage_rebate: u64,
    pub storage_fund_balance: u64,
    pub stake_subsidy_amount: u64,
    pub total_gas_fees: u64,
    pub total_stake_rewards_distributed: u64,
    pub leftover_storage_fund_inflow: u64,
}

/// The number whose eight bytes, least significant first, start at `at`.
pub open spec fn u64_at(bytes: Seq<u8>, at: int) -> u64 {
    (bytes[at] + 0x100 * bytes[at + 1] + 0x1_0000 * bytes[at + 2] + 0x100_0000 * bytes[at + 3]
        + 0x1_0000_0000 * bytes[at + 4] + 0x100_0000_0000 * bytes[at + 5] + 0x1_0000_0000_0000
        * bytes[at + 6] + 0x100_0000_0000_0000 * bytes[at + 7]) as u64
}

/// The event that the bytes are the encoding of: its fields one after the other, and nothing else.
/// Fewer bytes end too early, and more go on for too long.
pub open spec fn decoded(bytes: Seq<u8>) -> Result<SystemEpochInfoEvent, BcsError> {
    if bytes.len() < SYSTEM_EPOCH_INFO_LENGTH {
        Err(BcsError::Eof)
    } else if bytes.len() > SYSTEM_EPOCH_INFO_LENGTH {
        Err(BcsError::RemainingInput)
    } else {
        Ok(
            SystemEpochInfoEvent {
                epoch: u64_at(bytes, 0),
                protocol_version: u64_at(bytes, 8),
                reference_gas_price: u64_at(bytes, 16),
                total_stake: u64_at(bytes, 24),
                storage_fund_reinvestment: u64_at(bytes, 32),
                storage_charge: u64_at(bytes, 40),
                storage_rebate: u64_at(bytes, 48),
                storage_fund_balance: u64_at(bytes, 56),
                stake_subsidy_amount: u64_at(bytes, 64),
                total_gas_fees: u64_at(bytes, 72),
                total_stake_rewards_distributed: u64_at(bytes, 80),
                leftover_storage_fund_inflow: u64_at(bytes, 88),
            },
        )
    }
}

/// Calls `bcs::from_bytes` for an array of twelve `u64`, which BCS encodes as the numbers one after
/// the other, eight bytes each, least significant first. The claim is that exactly inputs of the
/// right length decode, to the numbers that their bytes spell, that the error for a shorter input is
/// `Eof`, and that the one for a longer input is `RemainingInput`.
#[verifier::external_body]
fn u64s_from_bytes(bytes: &[u8]) -> (numbers: Result<[u64; 12], BcsError>)
    ensures
        numbers is Ok <==> bytes@.len() == SYSTEM_EPOCH_INFO_LENGTH,
        numbers matches Ok(n) ==> forall|i: int|
            0 <= i < 12 ==> #[trigger] n@[i] == u64_at(bytes@, 8 * i),
        numbers matches Err(error) ==> error == if bytes@.len() < SYSTEM_EPOCH_INFO_LENGTH {
            BcsError::Eof
        } else {
            BcsError::RemainingInput
        },
{
    match bcs::from_bytes(bytes) {
        Ok(numbers) => Ok(numbers),
        Err(bcs::Error::Eof) => Err(BcsError::Eof),
        Err(bcs::Error::RemainingInput) => Err(BcsError::RemainingInput),
        Err(error) => Err(BcsError::Other { error }),
    }
}

/// Decodes an event that sums up an epoch, or tells why it does not decode.
pub fn decode_system_epoch_info(bytes: &Vec<u8>) -> (event: Result<
    SystemEpochInfoEvent,
    BcsError,
>)
    ensures
        event == decoded(bytes@),
        event is Ok <==> bytes@.len() == 96,
        bytes@.len() < 96 ==> event == Err::<SystemEpochInfoEvent, _>(BcsError::Eof),
        bytes@.len() > 96 ==> event == Err::<SystemEpochInfoEvent, _>(BcsError::RemainingInput),
{
    match u64s_from_bytes(bytes.as_slice()) {
        Ok(n) => {
            let event = SystemEpochInfoEvent {
                epoch: n[0],
                protocol_version: n[1],
                reference_gas_price: n[2],
                total_stake: n[3],
                storage_fund_reinvestment: n[4],
                storage_charge: n[5],
                storage_rebate: n[6],
                storage_fund_balance: n[7],
                stake_subsidy_amount: n[8],
                total_gas_fees: n[9],
                total_stake_rewards_distributed: n[10],
                leftover_storage_fund_inflow: n[11],
            };
            Ok(event)
        },
        Err(error) => Err(error),
    }
}

/// `n` in base 128, least significant digit first, with the top bit set on all but the last.
pub open spec fn uleb128(n: nat) -> Seq<u8>
    decreases n,
{
    if n < 0x80 {
        seq![n as u8]
    } else {
        seq![(n % 0x80 + 0x80) as u8] + uleb128(n / 0x80)
    }
}

/// Byte strings one after the other, each behind its tag and its length.
pub open spec fn tagged_strings(items: Seq<(u8, Seq<u8>)>) -> Seq<u8>
    decreases items.len(),
{
    if items.len() == 0 {
        Seq::empty()
    } else {
        tagged_strings(items.drop_last()) + seq![items.last().0] + uleb128(items.last().1.len())
            + items.last().1
    }
}

/// What a list of tagged byte strings holds.
pub open spec fn contents_of(items: Seq<(u8, Vec<u8>)>) -> Seq<(u8, Seq<u8>)> {
    items.map_values(|item: (u8, Vec<u8>)| (item.0, item.1@))
}

/// Byte string `i` is the first that is too long.
pub open spec fn is_first_too_long(items: Seq<(u8, Seq<u8>)>, i: int) -> bool {
    &&& 0 <= i < items.len()
    &&& items[i].1.len() > MAX_SEQUENCE_LENGTH
    &&& forall|j: int| 0 <= j < i ==> (#[trigger] items[j]).1.len() <= MAX_SEQUENCE_LENGTH
}

/// Calls `bcs::to_bytes` for a list of pairs of a `u8` and a list of `u8`. BCS encodes a list as
/// its length in ULEB128 and then its elements, a pair as its two parts, and a `u8` as itself. The
/// claim is that this is the result, that it fails exactly when a list is longer than BCS allows,
/// and that the error is then `ExceededMaxLen` with the length of the first such list.
#[verifier::external_body]
fn tagged_strings_to_bytes(items: &Vec<(u8, Vec<u8>)>) -> (bytes: Result<Vec<u8>, BcsError>)
    ensures
        bytes is Ok <==> items@.len() <= MAX_SEQUENCE_LENGTH && forall|i: int|
            0 <= i < items@.len() ==> (#[trigger] items@[i]).1@.len() <= MAX_SEQUENCE_LENGTH,
        bytes matches Ok(b) ==> b@ == uleb128(items@.len()) + tagged_strings(contents_of(items@)),
        bytes matches Err(error) ==> error matches BcsError::ExceededMaxLen { len } && if items@.len()
            > MAX_SEQUENCE_LENGTH {
            len == items@.len()
        } else {
            exists|i: int| #[trigger]
                is_first_too_long(contents_of(items@), i) && len == items@[i].1@.len()
        },
{
    match bcs::to_bytes(items) {
        Ok(bytes) => Ok(bytes),
        Err(bcs::Error::ExceededMaxLen(len)) => Err(BcsError::ExceededMaxLen { len }),
        Err(error) => Err(BcsError::Other { error }),
    }
}

/// The tag of a commitment and the digest that it holds.
pub open spec fn commitment_parts(commitment: CheckpointCommitment) -> (u8, Seq<u8>) {
    match commitment {
        CheckpointCommitment::ECMHLiveObjectSetDigest { digest } => (0u8, digest@),
    }
}

/// The tags and digests of a list of commitments.
pub open spec fn all_parts(commitments: Seq<CheckpointCommitment>) -> Seq<(u8, Seq<u8>)> {
    commitments.map_values(|c: CheckpointCommitment| commitment_parts(c))
}

/// The encoding of a list of commitments, which it has unless it is too long.
pub open spec fn encoded_commitments(commitments: Seq<CheckpointCommitment>) -> Result<
    Seq<u8>,
    BcsError,
> {
    if commitments.len() <= MAX_SEQUENCE_LENGTH {
        Ok(uleb128(commitments.len()) + tagged_strings(all_parts(commitments)))
    } else {
        Err(BcsError::ExceededMaxLen { len: commitments.len() as usize })
    }
}

/// What a list of bytes, or the lack of one, holds.
pub open spec fn bytes_of(bytes: Result<Vec<u8>, BcsError>) -> Result<Seq<u8>, BcsError> {
    match bytes {
        Ok(bytes) => Ok(bytes@),
        Err(error) => Err(error),
    }
}

/// Encodes a list of commitments, or tells why it has no encoding.
pub fn encode_commitments(commitments: &Vec<CheckpointCommitment>) -> (bytes: Result<
    Vec<u8>,
    BcsError,
>)
    ensures
        bytes_of(bytes) == encoded_commitments(commitments@),
        bytes matches Ok(b) ==> encoded_commitments(commitments@) == Ok::<Seq<u8>, BcsError>(b@),
        bytes matches Err(error) ==> commitments@.len() > 0x7fff_ffff && error == (
        BcsError::ExceededMaxLen { len: commitments.len() }),
{
    let mut items: Vec<(u8, Vec<u8>)> = Vec::new();
    let n: usize = commitments.len();
    for i in 0..n
        invariant
            n == commitments.len(),
            items.len() == i,
            forall|j: int|
                0 <= j < i ==> (items@[j].0, (#[trigger] items@[j]).1@) == commitment_parts(
                    commitments@[j],
                ),
            forall|j: int| 0 <= j < i ==> (#[trigger] items@[j]).1@.len() == 32,
    {
        match &commitments[i] {
            CheckpointCommitment::ECMHLiveObjectSetDigest { digest } => {
                items.push((0, vstd::slice::slice_to_vec(digest.as_slice())));
            },
        }
    }
    assert(contents_of(items@) =~= all_parts(commitments@));
    tagged_strings_to_bytes(&items)
}

/// The event that sums up an epoch is its twelve numbers one after the other, in this order, each as
/// eight bytes of which the first counts once and each further one 256 times as much as the one
/// before. Fewer bytes than that end too early, and more of them are too many.
pub proof fn law_epoch_info_is_twelve_numbers(bytes: Seq<u8>)
    ensures
        bytes.len() < 96 ==> decoded(bytes) == Err::<SystemEpochInfoEvent, _>(BcsError::Eof),
        bytes.len() > 96 ==> decoded(bytes) == Err::<SystemEpochInfoEvent, _>(
            BcsError::RemainingInput,
        ),
        bytes.len() == 96 ==> {
            let number = |i: int|
                bytes[8 * i] + 0x100 * bytes[8 * i + 1] + 0x1_0000 * bytes[8 * i + 2] + 0x100_0000
                    * bytes[8 * i + 3] + 0x1_0000_0000 * bytes[8 * i + 4] + 0x100_0000_0000
                    * bytes[8 * i + 5] + 0x1_0000_0000_0000 * bytes[8 * i + 6]
                    + 0x100_0000_0000_0000 * bytes[8 * i + 7];
            &&& decoded(bytes) matches Ok(info)
            &&& info.epoch == number(0)
            &&& info.protocol_version == number(1)
            &&& info.reference_gas_price == number(2)
            &&& info.total_stake == number(3)
            &&& info.storage_fund_reinvestment == number(4)
            &&& info.storage_charge == number(5)
            &&& info.storage_rebate == number(6)
            &&& info.storage_fund_balance == number(7)
            &&& info.stake_subsidy_amount == number(8)
            &&& info.total_gas_fees == number(9)
            &&& info.total_stake_rewards_distributed == number(10)
            &&& info.leftover_storage_fund_inflow == number(11)
        },
{
}

/// Where the parts of a tagged digest stand in the encoding of a list of them.
proof fn lemma_tagged_digest_at(items: Seq<(u8, Seq<u8>)>, i: int)
    requires
        forall|j: int| 0 <= j < items.len() ==> (#[trigger] items[j]).1.len() == 32,
        0 <= i < items.len(),
    ensures
        tagged_strings(items).len() == 34 * items.len(),
        tagged_strings(items)[34 * i] == items[i].0,
        tagged_strings(items)[34 * i + 1] == 32,
        forall|k: int|
            0 <= k < 32 ==> tagged_strings(items)[34 * i + 2 + k] == #[trigger] items[i].1[k],
    decreases items.len(),
{
    let before = items.drop_last();
    let last = items.last();
    assert(uleb128(32) =~= seq![32u8]);
    assert(last.1.len() == 32);
    let prefix = tagged_strings(before);
    let all = tagged_strings(items);
    assert(all =~= prefix + seq![last.0] + seq![32u8] + last.1);
    assert forall|j: int| 0 <= j < before.len() implies (#[trigger] before[j]).1.len() == 32 by {
        assert(items[j].1.len() == 32);
    }
    if before.len() > 0 {
        lemma_tagged_digest_at(before, if i < before.len() {
            i
        } else {
            0
        });
    }
    assert(prefix.len() == 34 * before.len());
    if i < before.len() {
        assert(before[i] == items[i]);
        assert forall|m: int| 0 <= m < prefix.len() implies all[m] == prefix[m] by {}
    } else {
        assert(34 * i == prefix.len());
        assert forall|k: int| 0 <= k < 32 implies all[34 * i + 2 + k] == #[trigger] items[i].1[k] by {
            assert(all[prefix.len() + 2 + k] == last.1[k]);
        }
    }
}

/// How many bytes the length of a list of commitments takes: seven bits go to a byte.
pub open spec fn header_length(n: nat) -> int {
    if n < 0x80 {
        1
    } else if n < 0x4000 {
        2
    } else if n < 0x20_0000 {
        3
    } else if n < 0x1000_0000 {
        4
    } else {
        5
    }
}

/// The encoding of a list of commitments starts with the length of the list, seven bits to a byte,
/// the lowest first, of which all but the last have their top bit set. It goes on with 34 bytes for
/// each commitment, and ends there. There is one unless the list is longer than the format allows.
pub proof fn law_commitments_start_with_their_number(commitments: Seq<CheckpointCommitment>)
    requires
        commitments.len() <= usize::MAX,
    ensures
        commitments.len() > 0x7fff_ffff ==> encoded_commitments(commitments) == Err::<Seq<u8>, _>(
            BcsError::ExceededMaxLen { len: commitments.len() as usize },
        ),
        commitments.len() <= 0x7fff_ffff ==> {
            let n = commitments.len() as int;
            &&& encoded_commitments(commitments) matches Ok(b)
            &&& n < 0x80 ==> {
                &&& b.len() == 1 + 34 * n
                &&& b[0] == n
            }
            &&& 0x80 <= n < 0x4000 ==> {
                &&& b.len() == 2 + 34 * n
                &&& b[0] >= 0x80 && b[1] < 0x80
                &&& (b[0] - 0x80) + 0x80 * b[1] == n
            }
            &&& 0x4000 <= n < 0x20_0000 ==> {
                &&& b.len() == 3 + 34 * n
                &&& b[0] >= 0x80 && b[1] >= 0x80 && b[2] < 0x80
                &&& (b[0] - 0x80) + 0x80 * (b[1] - 0x80) + 0x4000 * b[2] == n
            }
            &&& 0x20_0000 <= n < 0x1000_0000 ==> {
                &&& b.len() == 4 + 34 * n
                &&& b[0] >= 0x80 && b[1] >= 0x80 && b[2] >= 0x80 && b[3] < 0x80
                &&& (b[0] - 0x80) + 0x80 * (b[1] - 0x80) + 0x4000 * (b[2] - 0x80) + 0x20_0000 * b[3]
                    == n
            }
            &&& 0x1000_0000 <= n ==> {
                &&& b.len() == 5 + 34 * n
                &&& b[0] >= 0x80 && b[1] >= 0x80 && b[2] >= 0x80 && b[3] >= 0x80 && b[4] < 0x80
                &&& (b[0] - 0x80) + 0x80 * (b[1] - 0x80) + 0x4000 * (b[2] - 0x80) + 0x20_0000 * (
                b[3] - 0x80) + 0x1000_0000 * b[4] == n
            }
        },
{
    if commitments.len() <= 0x7fff_ffff {
        let n = commitments.len();
        let items = all_parts(commitments);
        lemma_uleb128_bytes(n);
        lemma_parts_are_digests(commitments);
        if n > 0 {
            lemma_tagged_digest_at(items, 0);
        }
        let head = uleb128(n);
        let b = head + tagged_strings(items);
        assert(b[0] == head[0]);
        assert(head.len() >= 2 ==> b[1] == head[1]);
        assert(head.len() >= 3 ==> b[2] == head[2]);
        assert(head.len() >= 4 ==> b[3] == head[3]);
        assert(head.len() >= 5 ==> b[4] == head[4]);
    }
}

/// What was encoded can be read back byte by byte: behind the length of the list, which takes one
/// byte for fewer than 128 commitments, 34 bytes stand for commitment `i`. They are a zero, the
/// number 32, and then the bytes of its digest, from the first to the last.
pub proof fn law_commitments_byte_by_byte(
    commitments: Seq<CheckpointCommitment>,
    i: int,
    k: int,
)
    requires
        commitments.len() <= 0x7fff_ffff,
        0 <= i < commitments.len(),
        0 <= k < 32,
    ensures
        commitments.len() < 0x80 ==> {
            &&& encoded_commitments(commitments) matches Ok(b)
            &&& b[1 + 34 * i] == 0
            &&& b[2 + 34 * i] == 32
            &&& b[3 + 34 * i + k] == commitments[i]->digest[k]
        },
        ({
            let h = header_length(commitments.len());
            &&& encoded_commitments(commitments) matches Ok(b)
            &&& b.len() == h + 34 * commitments.len()
            &&& b[h + 34 * i] == 0
            &&& b[h + 34 * i + 1] == 32
            &&& b[h + 34 * i + 2 + k] == commitments[i]->digest[k]
        }),
{
    let items = all_parts(commitments);
    lemma_parts_are_digests(commitments);
    lemma_uleb128_bytes(commitments.len());
    lemma_tagged_digest_at(items, i);
    assert(items[i].1[k] == commitments[i]->digest@[k]);
}

/// The parts of a commitment are a zero and the 32 bytes of its digest.
proof fn lemma_parts_are_digests(commitments: Seq<CheckpointCommitment>)
    ensures
        all_parts(commitments).len() == commitments.len(),
        forall|j: int|
            0 <= j < commitments.len() ==> (#[trigger] all_parts(commitments)[j]).1.len() == 32
                && all_parts(commitments)[j].0 == 0 && all_parts(commitments)[j].1
                == commitments[j]->digest@,
{
    let items = all_parts(commitments);
    assert forall|j: int| 0 <= j < commitments.len() implies (#[trigger] items[j]).1.len() == 32
        && items[j].0 == 0 && items[j].1 == commitments[j]->digest@ by {
        assert(items[j] == commitment_parts(commitments[j]));
    }
}

/// The bytes of a length that the format allows.
proof fn lemma_uleb128_bytes(n: nat)
    requires
        n <= 0x7fff_ffff,
    ensures
        n < 0x80 ==> uleb128(n) == seq![n as u8],
        0x80 <= n < 0x4000 ==> uleb128(n) == seq![(n % 0x80 + 0x80) as u8, (n / 0x80) as u8],
        0x4000 <= n < 0x20_0000 ==> uleb128(n) == seq![
            (n % 0x80 + 0x80) as u8,
            (n / 0x80 % 0x80 + 0x80) as u8,
            (n / 0x80 / 0x80) as u8,
        ],
        0x20_0000 <= n < 0x1000_0000 ==> uleb128(n) == seq![
            (n % 0x80 + 0x80) as u8,
            (n / 0x80 % 0x80 + 0x80) as u8,
            (n / 0x80 / 0x80 % 0x80 + 0x80) as u8,
            (n / 0x80 / 0x80 / 0x80) as u8,
        ],
        0x1000_0000 <= n ==> uleb128(n) == seq![
            (n % 0x80 + 0x80) as u8,
            (n / 0x80 % 0x80 + 0x80) as u8,
            (n / 0x80 / 0x80 % 0x80 + 0x80) as u8,
            (n / 0x80 / 0x80 / 0x80 % 0x80 + 0x80) as u8,
            (n / 0x80 / 0x80 / 0x80 / 0x80) as u8,
        ],
{
    reveal_with_fuel(uleb128, 5);
}

/// The base-128 form of a number tells where it ends: what follows it does not matter.
proof fn lemma_uleb128_prefix(m: nat, n: nat, x: Seq<u8>, y: Seq<u8>)
    requires
        uleb128(m) + x == uleb128(n) + y,
    ensures
        m == n,
        x == y,
    decreases m,
{
    let left = uleb128(m) + x;
    let right = uleb128(n) + y;
    assert(left[0] == right[0]);
    assert(left[0] == if m < 0x80 {
        m as u8
    } else {
        (m % 0x80 + 0x80) as u8
    });
    assert(right[0] == if n < 0x80 {
        n as u8
    } else {
        (n % 0x80 + 0x80) as u8
    });
    if m >= 0x80 {
        assert(left.skip(1) =~= uleb128(m / 0x80) + x);
        assert(right.skip(1) =~= uleb128(n / 0x80) + y);
        lemma_uleb128_prefix(m / 0x80, n / 0x80, x, y);
    } else {
        assert(left.skip(1) =~= x);
        assert(right.skip(1) =~= y);
    }
}

/// Lists of tagged digests that are as long as each other and look the same are the same.
proof fn lemma_tagged_digests(a: Seq<(u8, Seq<u8>)>, b: Seq<(u8, Seq<u8>)>)
    requires
        a.len() == b.len(),
        forall|i: int| 0 <= i < a.len() ==> (#[trigger] a[i]).1.len() == 32,
        forall|i: int| 0 <= i < b.len() ==> (#[trigger] b[i]).1.len() == 32,
        tagged_strings(a) == tagged_strings(b),
    ensures
        a == b,
    decreases a.len(),
{
    if a.len() > 0 {
        let n = tagged_strings(a).len() as int;
        let left = tagged_strings(a.drop_last());
        let right = tagged_strings(b.drop_last());
        assert(uleb128(32) =~= seq![32u8]);
        assert(a.last().1.len() == 32 && b.last().1.len() == 32);
        assert(left.len() == n - 34 && right.len() == n - 34);
        assert(left =~= tagged_strings(a).take(n - 34));
        assert(right =~= tagged_strings(b).take(n - 34));
        assert(tagged_strings(a)[n - 34] == a.last().0);
        assert(tagged_strings(b)[n - 34] == b.last().0);
        assert(a.last().1 =~= tagged_strings(a).skip(n - 32));
        assert(b.last().1 =~= tagged_strings(b).skip(n - 32));
        lemma_tagged_digests(a.drop_last(), b.drop_last());
        assert(a =~= a.drop_last().push(a.last()));
        assert(b =~= b.drop_last().push(b.last()));
    } else {
        assert(a =~= b);
    }
}

/// The encoding of a list of commitments determines the list: nothing is lost in it.
pub proof fn law_encoding_determines_commitments(
    a: Seq<CheckpointCommitment>,
    b: Seq<CheckpointCommitment>,
)
    requires
        encoded_commitments(a) is Ok,
        encoded_commitments(a) == encoded_commitments(b),
    ensures
        a == b,
{
    let x = all_parts(a);
    let y = all_parts(b);
    lemma_uleb128_prefix(a.len(), b.len(), tagged_strings(x), tagged_strings(y));
    lemma_tagged_digests(x, y);
    assert forall|i: int| 0 <= i < a.len() implies a[i] == b[i] by {
        assert(x[i] == y[i]);
        assert(a[i]->digest@ == b[i]->digest@);
        assert(a[i]->digest =~= b[i]->digest);
    }
    assert(a =~= b);
}

} // verus!
