//! Binary Canonical Serialization.

use epoch_indexer::checkpoint::CheckpointCommitment;
use epoch_indexer::encoding::{
    decode_system_epoch_info, encode_commitments, BcsError, SystemEpochInfoEvent,
    MAX_SEQUENCE_LENGTH,
};

fn commitment(byte: u8) -> CheckpointCommitment {
    CheckpointCommitment::ECMHLiveObjectSetDigest { digest: [byte; 32] }
}

#[test]
fn decodes_epoch_info() {
    let mut bytes: Vec<u8> = vec![0; 96];
    bytes[0] = 0x01;
    bytes[24..32].copy_from_slice(&[0x00, 0xef, 0xcd, 0xab, 0x78, 0x56, 0x34, 0x12]);
    bytes[95] = 0xff;
    assert_eq!(
        decode_system_epoch_info(&bytes),
        Ok(SystemEpochInfoEvent {
            epoch: 1,
            protocol_version: 0,
            reference_gas_price: 0,
            total_stake: 1311768467750121216,
            storage_fund_reinvestment: 0,
            storage_charge: 0,
            storage_rebate: 0,
            storage_fund_balance: 0,
            stake_subsidy_amount: 0,
            total_gas_fees: 0,
            total_stake_rewards_distributed: 0,
            leftover_storage_fund_inflow: 0xff00_0000_0000_0000,
        })
    );
}

#[test]
fn decodes_only_the_right_length() {
    for length in 0..200 {
        let result = decode_system_epoch_info(&vec![7; length]);
        if length < 96 {
            assert_eq!(result, Err(BcsError::Eof));
        } else if length > 96 {
            assert_eq!(result, Err(BcsError::RemainingInput));
        } else {
            assert!(result.is_ok());
        }
    }
}

#[test]
fn encodes_no_commitments() {
    assert_eq!(encode_commitments(&vec![]), Ok(vec![0]));
}

#[test]
fn encodes_commitments_in_order() {
    let mut expected: Vec<u8> = vec![2];
    expected.extend_from_slice(&[0, 32]);
    expected.extend_from_slice(&[1; 32]);
    expected.extend_from_slice(&[0, 32]);
    expected.extend_from_slice(&[2; 32]);
    assert_eq!(encode_commitments(&vec![commitment(1), commitment(2)]), Ok(expected));
}

#[test]
fn different_commitments_have_different_encodings() {
    let lists = [
        vec![],
        vec![commitment(1)],
        vec![commitment(2)],
        vec![commitment(1), commitment(2)],
        vec![commitment(2), commitment(1)],
    ];
    for (i, a) in lists.iter().enumerate() {
        for (j, b) in lists.iter().enumerate() {
            assert_eq!(encode_commitments(a) == encode_commitments(b), i == j);
        }
    }
}

#[test]
fn commitments_decode_to_what_they_were() {
    let bytes = encode_commitments(&vec![commitment(3), commitment(4)]).unwrap();
    let decoded: Vec<(u8, Vec<u8>)> = bcs::from_bytes(&bytes).unwrap();
    assert_eq!(decoded, vec![(0, vec![3; 32]), (0, vec![4; 32])]);
}

#[test]
fn long_lists_have_longer_lengths() {
    let mut list = Vec::new();
    for _ in 0..300 {
        list.push(commitment(9));
    }
    let bytes = encode_commitments(&list).unwrap();
    assert_eq!(bytes.len(), 2 + 300 * 34);
    assert_eq!(bytes[..4], [0xac, 0x02, 0, 32]);
}

#[test]
fn limit_is_that_of_the_format() {
    assert_eq!(MAX_SEQUENCE_LENGTH, bcs::MAX_SEQUENCE_LENGTH);
}

#[test]
fn errors_are_copied_as_they_are() {
    let errors = [
        BcsError::Eof,
        BcsError::RemainingInput,
        BcsError::ExceededMaxLen { len: 7 },
        BcsError::Other { error: bcs::Error::Custom("odd".to_string()) },
        BcsError::Other { error: bcs::Error::Utf8 },
    ];
    for (i, a) in errors.iter().enumerate() {
        for (j, b) in errors.iter().enumerate() {
            assert_eq!(a.clone() == *b, i == j);
        }
    }
}
