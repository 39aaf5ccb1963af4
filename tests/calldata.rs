use ethers_core::abi::{Abi, Token};
use l1_sync::calldata::{decode_chunk_block_ranges, decode_commit_payload, find_method, version_from_word};
use l1_sync::codec::{ChunkBlockRange, CodecError};

const COMMIT_ABI: &str = r#"[
  {"type":"function","name":"commitBatch","stateMutability":"nonpayable","outputs":[],
   "inputs":[
     {"name":"_version","type":"uint8"},
     {"name":"_parentBatchHeader","type":"bytes"},
     {"name":"_chunks","type":"bytes[]"},
     {"name":"_skippedL1MessageBitmap","type":"bytes"}]},
  {"type":"function","name":"finalizeBatch","stateMutability":"nonpayable","outputs":[],
   "inputs":[{"name":"_batchHeader","type":"bytes"}]}
]"#;

fn commit_abi() -> Abi {
    serde_json::from_str(COMMIT_ABI).unwrap()
}

fn chunk_of(numbers: &[u64]) -> Vec<u8> {
    let mut chunk = vec![numbers.len() as u8];
    for n in numbers {
        let mut record = n.to_be_bytes().to_vec();
        record.resize(60, 0);
        chunk.extend(record);
    }
    chunk
}

fn commit_call(abi: &Abi, version: u64, chunks: Vec<Vec<u8>>) -> Vec<u8> {
    let function = abi.function("commitBatch").unwrap();
    function
        .encode_input(&[
            Token::Uint(version.into()),
            Token::Bytes(vec![0u8; 89]),
            Token::Array(chunks.into_iter().map(Token::Bytes).collect()),
            Token::Bytes(vec![]),
        ])
        .unwrap()
}

#[test]
fn short_call_data_is_malformed() {
    let abi = commit_abi();
    assert_eq!(
        decode_chunk_block_ranges(vec![0x12, 0x34, 0x56], &abi),
        Err(CodecError::MalformedCallData { len: 3 })
    );
    assert_eq!(decode_chunk_block_ranges(vec![], &abi), Err(CodecError::MalformedCallData { len: 0 }));
}

#[test]
fn unknown_selector_is_rejected() {
    let abi = commit_abi();
    assert_eq!(
        decode_chunk_block_ranges(vec![0xde, 0xad, 0xbe, 0xef, 0, 0], &abi),
        Err(CodecError::UnknownMethod)
    );
}

#[test]
fn commit_call_decodes_to_ranges() {
    let abi = commit_abi();
    let data = commit_call(&abi, 1, vec![chunk_of(&[5, 6, 7]), chunk_of(&[8, 9])]);
    assert_eq!(
        decode_chunk_block_ranges(data, &abi),
        Ok(vec![
            ChunkBlockRange { start_block_number: 5, end_block_number: 7 },
            ChunkBlockRange { start_block_number: 8, end_block_number: 9 },
        ])
    );
}

#[test]
fn commit_call_version_zero_allows_trailing_bytes() {
    let abi = commit_abi();
    let mut chunk = chunk_of(&[40, 41]);
    chunk.extend([1u8, 2, 3]);
    let data = commit_call(&abi, 0, vec![chunk.clone()]);
    assert_eq!(
        decode_chunk_block_ranges(data, &abi),
        Ok(vec![ChunkBlockRange { start_block_number: 40, end_block_number: 41 }])
    );
    let data = commit_call(&abi, 1, vec![chunk]);
    assert_eq!(
        decode_chunk_block_ranges(data, &abi),
        Err(CodecError::InvalidChunkLength { expected: 121, got: 124 })
    );
}

#[test]
fn commit_call_with_unknown_version() {
    let abi = commit_abi();
    let data = commit_call(&abi, 2, vec![chunk_of(&[1])]);
    assert_eq!(decode_chunk_block_ranges(data, &abi), Err(CodecError::UnsupportedCodecVersion));
}

#[test]
fn call_of_other_shape_is_rejected() {
    let abi = commit_abi();
    let function = abi.function("finalizeBatch").unwrap();
    let data = function.encode_input(&[Token::Bytes(vec![1, 2, 3])]).unwrap();
    assert_eq!(decode_chunk_block_ranges(data, &abi), Err(CodecError::InvalidArguments));
    let commit = abi.function("commitBatch").unwrap();
    let mut truncated = commit.short_signature().to_vec();
    truncated.extend([0u8; 10]);
    assert_eq!(decode_chunk_block_ranges(truncated, &abi), Err(CodecError::InvalidArguments));
}

#[test]
fn first_matching_selector_wins() {
    let selectors = vec![[1u8, 2, 3, 4], [9u8, 9, 9, 9], [9u8, 9, 9, 9]];
    assert_eq!(find_method(&selectors, &vec![9, 9, 9, 9, 0]), Some(1));
    assert_eq!(find_method(&selectors, &vec![1, 2, 3, 4]), Some(0));
    assert_eq!(find_method(&selectors, &vec![1, 2, 3, 5]), None);
}

#[test]
fn version_word() {
    let mut word = [0u8; 32];
    word[31] = 1;
    assert!(version_from_word(&word).is_ok());
    word[0] = 1;
    assert_eq!(version_from_word(&word), Err(CodecError::UnsupportedCodecVersion));
    let mut word = [0u8; 32];
    word[31] = 3;
    assert_eq!(decode_commit_payload(&word, vec![chunk_of(&[1])]), Err(CodecError::UnsupportedCodecVersion));
}

#[test]
fn commit_call_to_batch_entry() {
    let abi = commit_abi();
    let data = commit_call(&abi, 1, vec![chunk_of(&[5, 6, 7])]);
    let entry = l1_sync::calldata::commit_batch_entry(3, data, &abi).unwrap();
    assert_eq!(entry.key, "R-bcr3");
    assert_eq!(entry.value, vec![0xc3, 0xc2, 0x05, 0x07]);
    assert_eq!(
        l1_sync::calldata::commit_batch_entry(3, vec![1], &abi).err(),
        Some(CodecError::MalformedCallData { len: 1 })
    );
}

#[test]
fn empty_interface_knows_no_method() {
    assert_eq!(
        decode_chunk_block_ranges(vec![0xde, 0xad, 0xbe, 0xef], &Abi::default()),
        Err(CodecError::UnknownMethod)
    );
}

#[test]
fn call_decoding_is_deterministic() {
    let abi = commit_abi();
    let data = commit_call(&abi, 0, vec![chunk_of(&[1, 2]), chunk_of(&[3])]);
    assert_eq!(
        decode_chunk_block_ranges(data.clone(), &abi),
        decode_chunk_block_ranges(data, &abi)
    );
}

#[test]
fn batch_entry_passes_codec_error_through() {
    let abi = commit_abi();
    let data = commit_call(&abi, 1, vec![vec![2u8; 100]]);
    assert_eq!(
        l1_sync::calldata::commit_batch_entry(4, data, &abi).err(),
        Some(CodecError::InvalidChunkLength { expected: 121, got: 100 })
    );
}
