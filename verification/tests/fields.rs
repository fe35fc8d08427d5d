use tgm4_replay::error::ReplayError;
use tgm4_replay::field::{read_i64, read_u32, read_u64, read_u8};

#[test]
fn a_byte_is_read_where_it_stands() {
    let bytes = [10u8, 20, 30];
    assert_eq!(read_u8(&bytes, 0), Ok(10));
    assert_eq!(read_u8(&bytes, 2), Ok(30));
}

#[test]
fn a_byte_beyond_the_end_is_truncated() {
    let bytes = [10u8, 20, 30];
    assert_eq!(read_u8(&bytes, 3), Err(ReplayError::TruncatedBuffer));
    assert_eq!(read_u8(&bytes, usize::MAX), Err(ReplayError::TruncatedBuffer));
    assert_eq!(read_u8(&[], 0), Err(ReplayError::TruncatedBuffer));
}

#[test]
fn four_bytes_are_read_lowest_first() {
    let bytes = [0xAAu8, 0x78, 0x56, 0x34, 0x12, 0xBB];
    assert_eq!(read_u32(&bytes, 1), Ok(0x1234_5678));
    assert_eq!(read_u32(&bytes, 0), Ok(0x3456_78AA));
    assert_eq!(read_u32(&bytes, 2), Ok(0xBB12_3456));
    assert_eq!(read_u32(&[0xFF, 0xFF, 0xFF, 0xFF], 0), Ok(u32::MAX));
    assert_eq!(read_u32(&[1, 0, 0, 0], 0), Ok(1));
    assert_eq!(read_u32(&[0, 0, 0, 1], 0), Ok(0x0100_0000));
}

#[test]
fn four_bytes_that_do_not_fit_are_truncated() {
    let bytes = [1u8, 2, 3, 4, 5];
    assert_eq!(read_u32(&bytes, 1), Ok(0x0504_0302));
    assert_eq!(read_u32(&bytes, 2), Err(ReplayError::TruncatedBuffer));
    assert_eq!(read_u32(&bytes, 5), Err(ReplayError::TruncatedBuffer));
    assert_eq!(read_u32(&bytes, usize::MAX), Err(ReplayError::TruncatedBuffer));
    assert_eq!(read_u32(&[1, 2, 3], 0), Err(ReplayError::TruncatedBuffer));
}

#[test]
fn eight_bytes_are_read_lowest_first() {
    let bytes = [0xEFu8, 0xCD, 0xAB, 0x89, 0x67, 0x45, 0x23, 0x01, 0x99];
    assert_eq!(read_u64(&bytes, 0), Ok(0x0123_4567_89AB_CDEF));
    assert_eq!(read_u64(&bytes, 1), Ok(0x9901_2345_6789_ABCD));
    assert_eq!(read_u64(&[0xFF; 8], 0), Ok(u64::MAX));
    assert_eq!(
        read_u64(&76561197960435530u64.to_le_bytes(), 0),
        Ok(76561197960435530)
    );
}

#[test]
fn eight_bytes_that_do_not_fit_are_truncated() {
    let bytes = [0u8; 9];
    assert_eq!(read_u64(&bytes, 1), Ok(0));
    assert_eq!(read_u64(&bytes, 2), Err(ReplayError::TruncatedBuffer));
    assert_eq!(read_u64(&bytes, usize::MAX - 3), Err(ReplayError::TruncatedBuffer));
    assert_eq!(read_u64(&[0u8; 7], 0), Err(ReplayError::TruncatedBuffer));
}

#[test]
fn signed_fields_are_twos_complement() {
    assert_eq!(read_i64(&[0xFF; 8], 0), Ok(-1));
    assert_eq!(read_i64(&i64::MIN.to_le_bytes(), 0), Ok(i64::MIN));
    assert_eq!(read_i64(&i64::MAX.to_le_bytes(), 0), Ok(i64::MAX));
    assert_eq!(read_i64(&(-1_700_000_000i64).to_le_bytes(), 0), Ok(-1_700_000_000));
    assert_eq!(read_i64(&1_745_000_000i64.to_le_bytes(), 0), Ok(1_745_000_000));
    assert_eq!(read_i64(&[0u8; 7], 0), Err(ReplayError::TruncatedBuffer));
}

#[test]
fn error_messages() {
    assert_eq!(
        ReplayError::TruncatedBuffer.message(),
        "could not convert slice to array"
    );
    assert_eq!(
        ReplayError::UnrecognizedMode.message(),
        "Error parsing the modifier"
    );
    assert_eq!(ReplayError::ClassificationAnomaly.message(), "incorrect versus");
}
