use l1_sync::codec::{
    decode_block_ranges_from_encoded_chunks, decode_chunk_range, read_be_u64, ChunkBlockRange,
    CodecError, CodecVersion,
};

fn block_record(number: u64) -> Vec<u8> {
    let mut record = number.to_be_bytes().to_vec();
    record.resize(60, 0);
    record
}

fn chunk_of(numbers: &[u64]) -> Vec<u8> {
    let mut chunk = vec![numbers.len() as u8];
    for n in numbers {
        chunk.extend(block_record(*n));
    }
    chunk
}

#[test]
fn version_one_exactness() {
    let mut chunk = vec![2u8];
    chunk.resize(100, 0);
    for version in [CodecVersion::CodecV0, CodecVersion::CodecV1] {
        assert_eq!(
            decode_block_ranges_from_encoded_chunks(version, vec![chunk.clone()]),
            Err(CodecError::InvalidChunkLength { expected: 121, got: 100 })
        );
    }
}

#[test]
fn version_zero_tolerance() {
    let mut chunk = chunk_of(&[5, 7]);
    chunk.resize(130, 0xff);
    assert_eq!(
        decode_block_ranges_from_encoded_chunks(CodecVersion::CodecV0, vec![chunk.clone()]),
        Ok(vec![ChunkBlockRange { start_block_number: 5, end_block_number: 7 }])
    );
    assert_eq!(
        decode_block_ranges_from_encoded_chunks(CodecVersion::CodecV1, vec![chunk]),
        Err(CodecError::InvalidChunkLength { expected: 121, got: 130 })
    );
}

#[test]
fn range_extraction() {
    let chunk = chunk_of(&[5, 7]);
    assert_eq!(chunk.len(), 121);
    for version in [CodecVersion::CodecV0, CodecVersion::CodecV1] {
        assert_eq!(
            decode_block_ranges_from_encoded_chunks(version, vec![chunk.clone()]),
            Ok(vec![ChunkBlockRange { start_block_number: 5, end_block_number: 7 }])
        );
    }
}

#[test]
fn ranges_keep_chunk_order() {
    let chunks = vec![chunk_of(&[10, 11, 12]), chunk_of(&[13]), chunk_of(&[14, 20])];
    assert_eq!(
        decode_block_ranges_from_encoded_chunks(CodecVersion::CodecV1, chunks),
        Ok(vec![
            ChunkBlockRange { start_block_number: 10, end_block_number: 12 },
            ChunkBlockRange { start_block_number: 13, end_block_number: 13 },
            ChunkBlockRange { start_block_number: 14, end_block_number: 20 },
        ])
    );
}

#[test]
fn no_chunks_give_no_ranges() {
    assert_eq!(decode_block_ranges_from_encoded_chunks(CodecVersion::CodecV0, vec![]), Ok(vec![]));
}

#[test]
fn first_failing_chunk_decides() {
    let chunks = vec![chunk_of(&[1]), vec![], vec![3u8]];
    assert_eq!(
        decode_block_ranges_from_encoded_chunks(CodecVersion::CodecV1, chunks),
        Err(CodecError::EmptyChunk)
    );
}

#[test]
fn empty_chunk_is_rejected() {
    assert_eq!(decode_chunk_range(CodecVersion::CodecV0, &vec![]), Err(CodecError::EmptyChunk));
}

#[test]
fn chunk_without_blocks_is_rejected() {
    assert_eq!(decode_chunk_range(CodecVersion::CodecV1, &vec![0u8]), Err(CodecError::EmptyChunk));
    assert_eq!(decode_chunk_range(CodecVersion::CodecV0, &vec![0u8, 9, 9]), Err(CodecError::EmptyChunk));
}

#[test]
fn largest_block_numbers() {
    let chunk = chunk_of(&[u64::MAX - 1, u64::MAX]);
    assert_eq!(
        decode_chunk_range(CodecVersion::CodecV1, &chunk),
        Ok(ChunkBlockRange { start_block_number: u64::MAX - 1, end_block_number: u64::MAX })
    );
}

#[test]
fn codec_is_deterministic() {
    let chunks = vec![chunk_of(&[3, 4, 5]), chunk_of(&[6])];
    let first = decode_block_ranges_from_encoded_chunks(CodecVersion::CodecV0, chunks.clone());
    let second = decode_block_ranges_from_encoded_chunks(CodecVersion::CodecV0, chunks);
    assert_eq!(first, second);
}

#[test]
fn version_byte_mapping() {
    assert_eq!(CodecVersion::from_u8(0), Ok(CodecVersion::CodecV0));
    assert_eq!(CodecVersion::from_u8(1), Ok(CodecVersion::CodecV1));
    assert_eq!(CodecVersion::from_u8(2), Err(CodecError::UnsupportedCodecVersion));
    assert_eq!(CodecVersion::from_u8(255), Err(CodecError::UnsupportedCodecVersion));
}

#[test]
fn big_endian_read() {
    let bytes = vec![0xaa, 0x01, 0x02, 0x03, 0x04, 0x05, 0x06, 0x07, 0x08, 0xbb];
    assert_eq!(read_be_u64(&bytes, 1), 0x0102030405060708);
}

#[test]
fn error_messages() {
    assert_eq!(CodecError::UnknownMethod.message(), "failed to get method by ID");
    assert_eq!(
        CodecError::InvalidChunkLength { expected: 121, got: 100 }.message(),
        "invalid chunk byte length"
    );
}
