use stratum_proxy::wire::{
    put_le16, put_le32, put_le64, slice_to_le16, slice_to_le32, slice_to_le64,
};

#[test]
fn le16_reads_least_significant_byte_first() {
    assert_eq!(slice_to_le16(&[0x34, 0x12]), 0x1234);
}

#[test]
fn le32_reads_least_significant_byte_first() {
    assert_eq!(slice_to_le32(&[0x78, 0x56, 0x34, 0x12]), 0x1234_5678);
}

#[test]
fn le64_reads_least_significant_byte_first() {
    assert_eq!(
        slice_to_le64(&[0xef, 0xcd, 0xab, 0x89, 0x67, 0x45, 0x23, 0x01]),
        0x0123_4567_89ab_cdef
    );
}

#[test]
fn le_writers_invert_le_readers() {
    let mut out: Vec<u8> = Vec::new();
    put_le16(&mut out, 0xbeef);
    put_le32(&mut out, 0xdead_beef);
    put_le64(&mut out, u64::MAX - 1);
    assert_eq!(out.len(), 14);
    assert_eq!(slice_to_le16(&out[0..2]), 0xbeef);
    assert_eq!(slice_to_le32(&out[2..6]), 0xdead_beef);
    assert_eq!(slice_to_le64(&out[6..14]), u64::MAX - 1);
}
