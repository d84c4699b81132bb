use chain_head::encoding::{encode_extrinsics, is_encodable};
use chain_head::error::ChainHeadRpcError;
use chain_head::hex::{parse_hex_param, to_hex};
use chain_head::storage_keys::is_reserved_key;

#[test]
fn to_hex_writes_prefix_and_lowercase_digits() {
    assert_eq!(to_hex(&vec![]), "0x");
    assert_eq!(to_hex(&vec![0x00]), "0x00");
    assert_eq!(to_hex(&vec![0xab, 0x01, 0xff]), "0xab01ff");
    assert_eq!(to_hex(&vec![0x0f, 0xf0, 0x9a]), "0x0ff09a");
}

#[test]
fn to_hex_leaves_nothing_out_of_long_input() {
    let bytes: Vec<u8> = vec![0x5a; 2000];
    let text = to_hex(&bytes);
    assert_eq!(text.len(), 2 + 4000);
    assert!(text[2..].chars().all(|c| c == '5' || c == 'a'));
}

#[test]
fn parse_hex_param_reads_with_and_without_prefix() {
    assert_eq!(parse_hex_param("0x4c6f".to_string()), Ok(vec![0x4c, 0x6f]));
    assert_eq!(parse_hex_param("4c6f".to_string()), Ok(vec![0x4c, 0x6f]));
    assert_eq!(parse_hex_param("0x".to_string()), Ok(vec![]));
}

#[test]
fn parse_hex_param_reads_upper_case_digits() {
    assert_eq!(parse_hex_param("0xAB".to_string()), Ok(vec![0xab]));
    assert_eq!(parse_hex_param("0xaBcD".to_string()), Ok(vec![0xab, 0xcd]));
}

#[test]
fn parse_hex_param_empty_is_no_bytes() {
    assert_eq!(parse_hex_param(String::new()), Ok(vec![]));
}

#[test]
fn parse_hex_param_rejects_odd_length() {
    assert_eq!(
        parse_hex_param("0x123".to_string()),
        Err(ChainHeadRpcError::InvalidParam("0x123".to_string()))
    );
    assert_eq!(
        parse_hex_param("a".to_string()),
        Err(ChainHeadRpcError::InvalidParam("a".to_string()))
    );
}

#[test]
fn parse_hex_param_rejects_what_is_no_digit() {
    assert_eq!(
        parse_hex_param("0xzz".to_string()),
        Err(ChainHeadRpcError::InvalidParam("0xzz".to_string()))
    );
    assert_eq!(
        parse_hex_param("0x1g".to_string()),
        Err(ChainHeadRpcError::InvalidParam("0x1g".to_string()))
    );
    assert_eq!(
        parse_hex_param("hello!".to_string()),
        Err(ChainHeadRpcError::InvalidParam("hello!".to_string()))
    );
}

#[test]
fn parse_hex_param_strips_one_lowercase_prefix_only() {
    assert_eq!(
        parse_hex_param("0X12".to_string()),
        Err(ChainHeadRpcError::InvalidParam("0X12".to_string()))
    );
    assert_eq!(
        parse_hex_param("0x0x12".to_string()),
        Err(ChainHeadRpcError::InvalidParam("0x0x12".to_string()))
    );
}

#[test]
fn parse_hex_param_folds_case_by_bit_five() {
    // Setting bit five turns the bytes 0x10 to 0x19 into the digits 0 to 9.
    assert_eq!(parse_hex_param("\u{10}\u{11}".to_string()), Ok(vec![0x01]));
    assert_eq!(parse_hex_param("\u{19}\u{12}".to_string()), Ok(vec![0x92]));
    // Bytes just outside the digit ranges stay outside.
    assert!(parse_hex_param("\u{1a}0".to_string()).is_err());
    assert!(parse_hex_param("0G".to_string()).is_err());
    assert!(parse_hex_param("0`".to_string()).is_err());
    assert!(parse_hex_param("0/".to_string()).is_err());
    assert!(parse_hex_param("0:".to_string()).is_err());
}

#[test]
fn parse_hex_param_rejects_text_beyond_ascii() {
    assert_eq!(
        parse_hex_param("0xé1".to_string()),
        Err(ChainHeadRpcError::InvalidParam("0xé1".to_string()))
    );
}

#[test]
fn hex_round_trip_on_every_byte() {
    let bytes: Vec<u8> = (0..=255u8).collect();
    assert_eq!(parse_hex_param(to_hex(&bytes)), Ok(bytes));
}

#[test]
fn hex_round_trip_on_short_inputs() {
    for bytes in [vec![], vec![0u8], vec![0xde, 0xad, 0xbe, 0xef], vec![0xff; 33]] {
        assert_eq!(parse_hex_param(to_hex(&bytes)), Ok(bytes));
    }
}

#[test]
fn reserved_keys_are_those_under_the_child_storage_prefix() {
    assert!(is_reserved_key(&b":child_storage:".to_vec()));
    assert!(is_reserved_key(&b":child_storage:default:".to_vec()));
    assert!(is_reserved_key(&b":child_storage:default:abc".to_vec()));
    assert!(is_reserved_key(&b":child_storage:other".to_vec()));
}

#[test]
fn other_keys_are_not_reserved() {
    assert!(!is_reserved_key(&vec![]));
    assert!(!is_reserved_key(&b":child_storage".to_vec()));
    assert!(!is_reserved_key(&b":code".to_vec()));
    assert!(!is_reserved_key(&b"x:child_storage:".to_vec()));
    assert!(!is_reserved_key(&b":Child_storage:".to_vec()));
}

#[test]
fn extrinsics_are_encoded_with_compact_lengths() {
    assert_eq!(encode_extrinsics(&vec![]), Some(vec![0x00]));
    assert_eq!(
        encode_extrinsics(&vec![vec![1, 2], vec![3]]),
        Some(vec![0x08, 0x08, 1, 2, 0x04, 3])
    );
    assert_eq!(encode_extrinsics(&vec![vec![]]), Some(vec![0x04, 0x00]));
}

#[test]
fn long_extrinsic_gets_a_two_byte_length() {
    let encoded = encode_extrinsics(&vec![vec![7u8; 64]]).unwrap();
    // 64 in compact form is (64 << 2) | 1 in two bytes, low byte first.
    assert_eq!(&encoded[..3], &[0x04, 0x01, 0x01]);
    assert_eq!(encoded.len(), 3 + 64);
}

#[test]
fn ordinary_lists_are_encodable() {
    assert!(is_encodable(&vec![]));
    assert!(is_encodable(&vec![vec![0u8; 100], vec![]]));
}
