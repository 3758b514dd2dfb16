use testchamber::remote::{
    assemble_bytes, read_remote_bytes, StatRecord, RECONSTRUCT_SYSCALL, STAT_SIZE,
};
use testchamber::trace::TraceError;

#[test]
fn round_trip_length_with_a_partial_final_word() {
    // 20 bytes at 8-byte words: 3 words are read (24 bytes) and the buffer
    // is truncated to exactly 20.
    let words: Vec<i64> = vec![0x0807060504030201, 0x100f0e0d0c0b0a09, 0x1817161514131211];
    let buf = assemble_bytes(&words, 20);
    assert_eq!(buf.len(), 20);
    let expected: Vec<u8> = (1u8..=20).collect();
    assert_eq!(buf, expected);
}

#[test]
fn an_exact_multiple_of_the_word_size_keeps_every_byte() {
    let words: Vec<i64> = vec![-1, 0];
    let buf = assemble_bytes(&words, 16);
    assert_eq!(buf.len(), 16);
    assert_eq!(&buf[0..8], &[0xff; 8]);
    assert_eq!(&buf[8..16], &[0x00; 8]);
}

#[test]
fn a_zero_sized_read_needs_no_words() {
    let words: Vec<i64> = Vec::new();
    let buf = assemble_bytes(&words, 0);
    assert_eq!(buf.len(), 0);
}

#[test]
fn words_are_laid_out_least_significant_byte_first() {
    let words: Vec<i64> = vec![0x1122334455667788];
    let buf = assemble_bytes(&words, 8);
    assert_eq!(buf, vec![0x88, 0x77, 0x66, 0x55, 0x44, 0x33, 0x22, 0x11]);
}

#[test]
fn the_record_fields_sit_at_their_fixed_offsets() {
    let mut bytes = vec![0u8; STAT_SIZE];
    bytes[0..8].copy_from_slice(&0x0123_4567_89ab_cdefu64.to_le_bytes());
    bytes[8..16].copy_from_slice(&42u64.to_le_bytes());
    bytes[16..24].copy_from_slice(&3u64.to_le_bytes());
    bytes[24..28].copy_from_slice(&0o100644u32.to_le_bytes());
    bytes[28..32].copy_from_slice(&1000u32.to_le_bytes());
    bytes[32..36].copy_from_slice(&1001u32.to_le_bytes());
    bytes[40..48].copy_from_slice(&7u64.to_le_bytes());
    bytes[48..56].copy_from_slice(&(-5i64).to_le_bytes());
    bytes[56..64].copy_from_slice(&4096u64.to_le_bytes());
    bytes[64..72].copy_from_slice(&8u64.to_le_bytes());
    let rec = StatRecord::from_bytes(&bytes);
    assert_eq!(rec.dev, 0x0123_4567_89ab_cdef);
    assert_eq!(rec.ino, 42);
    assert_eq!(rec.nlink, 3);
    assert_eq!(rec.mode, 0o100644);
    assert_eq!(rec.uid, 1000);
    assert_eq!(rec.gid, 1001);
    assert_eq!(rec.rdev, 7);
    assert_eq!(rec.size, -5);
    assert_eq!(rec.blksize, 4096);
    assert_eq!(rec.blocks, 8);
}

#[test]
fn a_range_that_would_wrap_the_address_space_is_refused() {
    match read_remote_bytes(1, u64::MAX - 4, 16, RECONSTRUCT_SYSCALL) {
        Err(TraceError::AddressRange { syscall }) => assert_eq!(syscall, RECONSTRUCT_SYSCALL),
        _ => panic!("a wrapping range must be refused before any read"),
    }
}

#[test]
fn a_failed_word_read_reports_the_word_and_the_errno() {
    // No process can have the identifier -1, so the first word read fails.
    match read_remote_bytes(-1, 0x1000, 16, 99) {
        Err(TraceError::MemRead { syscall, word_index, errno }) => {
            assert_eq!(syscall, 99);
            assert_eq!(word_index, 0);
            assert!(errno != 0);
        },
        _ => panic!("reading a nonexistent tracee must fail"),
    }
}
