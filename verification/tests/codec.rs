//! Tests of the record codec: entries, compressed records, total
//! difficulty, accumulator, and whole-file assembly.

use reth_era::e2s::{
    read_entry, write_entry, Entry, E2sError, ACCUMULATOR, COMPRESSED_BODY, COMPRESSED_HEADER,
    COMPRESSED_RECEIPTS, TOTAL_DIFFICULTY,
};
use reth_era::era1::{assemble_era1, parse_era1, validate_block_count};
use reth_era::execution_types::{
    Accumulator, BlockTuple, CompressedBody, CompressedHeader, CompressedReceipts,
    SnappyRlpCodec, TotalDifficulty, MAX_BLOCKS_PER_ERA1,
};
use reth_era::u256::U256;

#[test]
fn test_entry_write_read_roundtrip() {
    let entry = Entry::new(COMPRESSED_HEADER, vec![1, 2, 3, 4, 5]);
    let mut out: Vec<u8> = Vec::new();
    write_entry(&mut out, &entry).unwrap();
    assert_eq!(out.len(), 8 + 5);
    let (back, next) = read_entry(&out, 0).unwrap();
    assert_eq!(back.entry_type, COMPRESSED_HEADER);
    assert_eq!(back.data, vec![1, 2, 3, 4, 5]);
    assert_eq!(next, out.len());
}

#[test]
fn test_entry_read_truncated() {
    let entry = Entry::new(COMPRESSED_BODY, vec![9; 40]);
    let mut out: Vec<u8> = Vec::new();
    write_entry(&mut out, &entry).unwrap();
    // Cut the payload short: the declared length no longer fits.
    out.truncate(out.len() - 1);
    assert_eq!(read_entry(&out, 0).unwrap_err(), E2sError::Truncated);
    // A buffer shorter than one record header is truncated too.
    assert_eq!(read_entry(&[1, 2, 3], 0).unwrap_err(), E2sError::Truncated);
}

#[test]
fn test_entry_read_bad_reserved_bytes() {
    let entry = Entry::new(COMPRESSED_BODY, vec![7, 7]);
    let mut out: Vec<u8> = Vec::new();
    write_entry(&mut out, &entry).unwrap();
    out[6] = 1;
    assert_eq!(read_entry(&out, 0).unwrap_err(), E2sError::BadTag);
}

#[test]
fn test_compression_roundtrip() {
    let rlp_data = vec![1, 2, 3, 4, 5, 6, 7, 8, 9, 10];

    let compressed_header = CompressedHeader::from_rlp(&rlp_data).unwrap();
    let decompressed = compressed_header.decompress().unwrap();
    assert_eq!(decompressed, rlp_data);

    let compressed_body = CompressedBody::from_rlp(&rlp_data).unwrap();
    let decompressed = compressed_body.decompress().unwrap();
    assert_eq!(decompressed, rlp_data);

    let compressed_receipts = CompressedReceipts::from_rlp(&rlp_data).unwrap();
    let decompressed = compressed_receipts.decompress().unwrap();
    assert_eq!(decompressed, rlp_data);
}

#[test]
fn test_snappy_rlp_codec_roundtrip() {
    let codec = SnappyRlpCodec::new();
    let rlp_data = vec![0xc3, 0x01, 0x02, 0x03];
    let compressed = codec.encode(&rlp_data).unwrap();
    // The frame encoder really transforms its input.
    assert_ne!(compressed, rlp_data);
    let decoded = codec.decode(&compressed).unwrap();
    assert_eq!(decoded, rlp_data);
}

#[test]
fn test_decompress_rejects_garbage() {
    let compressed = CompressedHeader::new(vec![0xde, 0xad, 0xbe, 0xef]);
    assert_eq!(compressed.decompress().unwrap_err(), E2sError::DecompressionFailure);
}

#[test]
fn test_from_entry_rejects_wrong_tag() {
    let entry = Entry::new(TOTAL_DIFFICULTY, vec![0; 32]);

    let err = CompressedHeader::from_entry(&entry).unwrap_err();
    assert_eq!(
        err,
        E2sError::WrongEntryType { expected_tag: COMPRESSED_HEADER, actual_tag: TOTAL_DIFFICULTY }
    );

    let err = CompressedBody::from_entry(&entry).unwrap_err();
    assert_eq!(
        err,
        E2sError::WrongEntryType { expected_tag: COMPRESSED_BODY, actual_tag: TOTAL_DIFFICULTY }
    );

    let err = CompressedReceipts::from_entry(&entry).unwrap_err();
    assert_eq!(
        err,
        E2sError::WrongEntryType { expected_tag: COMPRESSED_RECEIPTS, actual_tag: TOTAL_DIFFICULTY }
    );

    let header_entry = Entry::new(COMPRESSED_HEADER, vec![0; 32]);
    let err = TotalDifficulty::from_entry(&header_entry).unwrap_err();
    assert_eq!(
        err,
        E2sError::WrongEntryType { expected_tag: TOTAL_DIFFICULTY, actual_tag: COMPRESSED_HEADER }
    );

    let err = Accumulator::from_entry(&header_entry).unwrap_err();
    assert_eq!(
        err,
        E2sError::WrongEntryType { expected_tag: ACCUMULATOR, actual_tag: COMPRESSED_HEADER }
    );
}

#[test]
fn test_total_difficulty_roundtrip() {
    let value = U256::from_u64(123456789);

    let total_difficulty = TotalDifficulty::new(value);

    let entry = total_difficulty.to_entry();

    assert_eq!(entry.entry_type, TOTAL_DIFFICULTY);

    let recovered = TotalDifficulty::from_entry(&entry).unwrap();

    assert_eq!(recovered.value, value);
}

#[test]
fn test_total_difficulty_fixed_width() {
    // Zero, a small value, and the maximum 256-bit value all
    // serialize to exactly 32 bytes.
    let zero = TotalDifficulty::new(U256::zero());
    assert_eq!(zero.to_entry().data.len(), 32);
    assert_eq!(zero.to_entry().data, vec![0u8; 32]);

    let small = TotalDifficulty::new(U256::from_u64(0x0102));
    let entry = small.to_entry();
    assert_eq!(entry.data.len(), 32);
    assert_eq!(entry.data[30], 0x01);
    assert_eq!(entry.data[31], 0x02);
    assert_eq!(&entry.data[..30], &[0u8; 30][..]);

    let max = TotalDifficulty::new(U256::from_limbs(u64::MAX, u64::MAX, u64::MAX, u64::MAX));
    let entry = max.to_entry();
    assert_eq!(entry.data.len(), 32);
    assert_eq!(entry.data, vec![0xffu8; 32]);
    let back = TotalDifficulty::from_entry(&entry).unwrap();
    assert_eq!(back.value, U256::from_limbs(u64::MAX, u64::MAX, u64::MAX, u64::MAX));
}

#[test]
fn test_total_difficulty_rejects_bad_length() {
    let entry = Entry::new(TOTAL_DIFFICULTY, vec![0; 31]);
    let err = TotalDifficulty::from_entry(&entry).unwrap_err();
    assert_eq!(err, E2sError::BadPayloadLength { expected_len: 32, actual_len: 31 });

    let entry = Entry::new(TOTAL_DIFFICULTY, vec![0; 33]);
    let err = TotalDifficulty::from_entry(&entry).unwrap_err();
    assert_eq!(err, E2sError::BadPayloadLength { expected_len: 32, actual_len: 33 });
}

#[test]
fn test_accumulator_roundtrip_and_length_check() {
    let root: Vec<u8> = (0u8..32).collect();
    let acc = Accumulator::new(root.clone()).unwrap();
    let entry = acc.to_entry();
    assert_eq!(entry.entry_type, ACCUMULATOR);
    assert_eq!(entry.data, root);
    let back = Accumulator::from_entry(&entry).unwrap();
    assert_eq!(back.root, root);

    let err = Accumulator::new(vec![0; 31]).unwrap_err();
    assert_eq!(err, E2sError::BadPayloadLength { expected_len: 32, actual_len: 31 });

    let short = Entry::new(ACCUMULATOR, vec![0; 16]);
    let err = Accumulator::from_entry(&short).unwrap_err();
    assert_eq!(err, E2sError::BadPayloadLength { expected_len: 32, actual_len: 16 });
}

fn sample_tuple(seed: u8) -> BlockTuple {
    BlockTuple::from_rlp_parts(
        &[seed, 1, 2, 3],
        &[seed, 4, 5],
        &[seed, 6],
        U256::from_u64(seed as u64 * 1000),
    )
    .unwrap()
}

#[test]
fn test_era1_file_roundtrip() {
    let tuples = vec![sample_tuple(1), sample_tuple(2), sample_tuple(3)];
    let root: Vec<u8> = (100u8..132).collect();
    let acc = Accumulator::new(root.clone()).unwrap();

    let bytes = assemble_era1(&tuples, &acc).unwrap();
    let (back, back_acc) = parse_era1(&bytes).unwrap();

    assert_eq!(back.len(), 3);
    assert_eq!(back_acc.root, root);
    for (orig, parsed) in tuples.iter().zip(back.iter()) {
        assert_eq!(parsed.header.data, orig.header.data);
        assert_eq!(parsed.body.data, orig.body.data);
        assert_eq!(parsed.receipts.data, orig.receipts.data);
        assert_eq!(parsed.total_difficulty, orig.total_difficulty);
        // And the payloads still decompress to the original RLP bytes.
        let seed = orig.header.data.clone();
        let _ = seed;
    }
    assert_eq!(back[0].header.decompress().unwrap(), vec![1, 1, 2, 3]);
    assert_eq!(back[2].receipts.decompress().unwrap(), vec![3, 6]);
}

#[test]
fn test_era1_rejects_trailing_data() {
    let tuples = vec![sample_tuple(1)];
    let acc = Accumulator::new(vec![9; 32]).unwrap();
    let mut bytes = assemble_era1(&tuples, &acc).unwrap();
    bytes.push(0);
    assert_eq!(parse_era1(&bytes).unwrap_err(), E2sError::TrailingData);
}

#[test]
fn test_era1_rejects_wrong_record_order() {
    // A body record where a header is expected.
    let body = CompressedBody::from_rlp(&[1, 2, 3]).unwrap();
    let mut bytes: Vec<u8> = Vec::new();
    write_entry(&mut bytes, &body.to_entry()).unwrap();
    let err = parse_era1(&bytes).unwrap_err();
    assert_eq!(
        err,
        E2sError::WrongEntryType { expected_tag: COMPRESSED_HEADER, actual_tag: COMPRESSED_BODY }
    );
}

#[test]
fn test_era1_block_bound() {
    // The bound itself is checked before anything else, so it can be
    // validated without building an accumulator.
    assert!(validate_block_count(MAX_BLOCKS_PER_ERA1).is_ok());
    assert_eq!(
        validate_block_count(MAX_BLOCKS_PER_ERA1 + 1).unwrap_err(),
        E2sError::TooManyBlocks
    );

    let mut tuples = Vec::new();
    for _ in 0..(MAX_BLOCKS_PER_ERA1 + 1) {
        tuples.push(sample_tuple(1));
    }
    let acc = Accumulator::new(vec![0; 32]).unwrap();
    assert_eq!(assemble_era1(&tuples, &acc).unwrap_err(), E2sError::TooManyBlocks);
}
