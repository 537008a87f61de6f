use mev_indexer::indexer::error::Error;
use mev_indexer::indexer::swap::{encode_swap_data, parse_swap_data};

#[test]
fn empty_data_fails_to_parse() {
    assert_eq!(parse_swap_data(&[], 9), Err(Error::FailedToParseInput));
}

#[test]
fn short_data_is_too_short() {
    // one byte up to sixteen bytes, discriminator in place: always the
    // too-short condition, never an event
    for len in 1..17usize {
        let mut data = vec![0u8; len];
        data[0] = 9;
        assert_eq!(parse_swap_data(&data, 9), Err(Error::DataTooShort));
    }
}

#[test]
fn wrong_discriminator_is_rejected() {
    let data = encode_swap_data(8, 100, 50);
    assert_eq!(parse_swap_data(&data, 9), Err(Error::InvalidDiscriminator));
    assert_eq!(parse_swap_data(&[7u8], 9), Err(Error::InvalidDiscriminator));
}

#[test]
fn round_trip_reproduces_amounts() {
    let data = encode_swap_data(9, 123_456_789_012_345, 987_654_321);
    assert_eq!(parse_swap_data(&data, 9), Ok((123_456_789_012_345, 987_654_321)));
    let data = encode_swap_data(6, u64::MAX, 0);
    assert_eq!(parse_swap_data(&data, 6), Ok((u64::MAX, 0)));
}

#[test]
fn amount_in_is_little_endian() {
    let mut data = vec![0u8; 17];
    data[0] = 9;
    data[1] = 2; // least significant byte first
    assert_eq!(parse_swap_data(&data, 9), Ok((2, 0)));
    let enc = encode_swap_data(9, 2, 0);
    assert_eq!(enc[1], 2);
    assert_eq!(&enc[2..9], &[0, 0, 0, 0, 0, 0, 0]);
}

#[test]
fn min_amount_out_is_big_endian() {
    let mut data = vec![0u8; 17];
    data[0] = 9;
    data[16] = 7; // least significant byte last
    assert_eq!(parse_swap_data(&data, 9), Ok((0, 7)));
    let enc = encode_swap_data(9, 0, 7);
    assert_eq!(&enc[9..16], &[0, 0, 0, 0, 0, 0, 0]);
    assert_eq!(enc[16], 7);
}

#[test]
fn encoded_payload_is_seventeen_bytes() {
    assert_eq!(encode_swap_data(9, u64::MAX, u64::MAX).len(), 17);
}
