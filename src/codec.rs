//! Decoding of the per-chunk L2 block ranges carried in a batch-commit call.
use vstd::prelude::*;

verus! {

/// Size in bytes of one block record inside a chunk.
pub const BLOCK_RECORD_LEN: usize = 60;

/// The inclusive span of L2 blocks covered by one chunk.
#[derive(Debug, Clone, Copy, PartialEq, Eq, Structural)]
pub struct ChunkBlockRange {
    pub start_block_number: u64,
    pub end_block_number: u64,
}

/// The two chunk layouts a batch can be encoded with.
#[derive(Debug, Clone, Copy, PartialEq, Eq, Structural)]
pub enum CodecVersion {
    CodecV0,
    CodecV1,
}

/// Why a batch's call data could not be turned into block ranges.
#[derive(Debug, Clone, Copy, PartialEq, Eq, Structural)]
pub enum CodecError {
    /// The call data is too short to hold a method selector.
    MalformedCallData { len: usize },
    /// No known function has the call data's selector.
    UnknownMethod,
    /// The arguments do not decode as the matched function's parameters.
    InvalidArguments,
    /// The version argument names no known chunk layout.
    UnsupportedCodecVersion,
    /// A chunk has no count byte, or announces no block at all.
    EmptyChunk,
    /// A chunk's length does not fit its announced block count.
    InvalidChunkLength { expected: usize, got: usize },
}

impl CodecError {
    /// A human-readable description of the error.
    pub fn message(&self) -> String {
        match self {
            CodecError::MalformedCallData { .. } => String::from_str("transaction data is too short"),
            CodecError::UnknownMethod => String::from_str("failed to get method by ID"),
            CodecError::InvalidArguments => String::from_str("call arguments do not decode"),
            CodecError::UnsupportedCodecVersion => String::from_str("unexpected batch version"),
            CodecError::EmptyChunk => String::from_str("invalid chunk, no block in it"),
            CodecError::InvalidChunkLength { .. } => String::from_str("invalid chunk byte length"),
        }
    }
}

/// The codec that a version byte selects.
pub open spec fn version_spec(value: u8) -> Result<CodecVersion, CodecError> {
    if value == 0 {
        Ok(CodecVersion::CodecV0)
    } else if value == 1 {
        Ok(CodecVersion::CodecV1)
    } else {
        Err(CodecError::UnsupportedCodecVersion)
    }
}

/// The unsigned big-endian value of the eight bytes of `s` from `at` on.
pub open spec fn be_u64_at(s: Seq<u8>, at: int) -> int {
    s[at] * 0x0100_0000_0000_0000 + s[at + 1] * 0x0001_0000_0000_0000
        + s[at + 2] * 0x0000_0100_0000_0000 + s[at + 3] * 0x0000_0001_0000_0000
        + s[at + 4] * 0x0000_0000_0100_0000 + s[at + 5] * 0x0000_0000_0001_0000
        + s[at + 6] * 0x0000_0000_0000_0100 + s[at + 7]
}

/// The length a chunk announcing `n` blocks must have at least (version 0)
/// or exactly (version 1).
pub open spec fn expected_chunk_len(n: u8) -> int {
    1 + 60 * n
}

/// Where block record `i` of a chunk begins.
pub open spec fn record_start(i: int) -> int {
    1 + 60 * i
}

/// The block range one chunk decodes to under `version`.
pub open spec fn chunk_range_spec(version: CodecVersion, chunk: Seq<u8>) -> Result<ChunkBlockRange, CodecError> {
    if chunk.len() < 1 {
        Err(CodecError::EmptyChunk)
    } else {
        let n = chunk[0];
        let expected = expected_chunk_len(n);
        let fits = match version {
            CodecVersion::CodecV0 => chunk.len() >= expected,
            CodecVersion::CodecV1 => chunk.len() == expected,
        };
        if !fits {
            Err(CodecError::InvalidChunkLength { expected: expected as usize, got: chunk.len() as usize })
        } else if n == 0 {
            Err(CodecError::EmptyChunk)
        } else {
            Ok(ChunkBlockRange {
                start_block_number: be_u64_at(chunk, record_start(0)) as u64,
                end_block_number: be_u64_at(chunk, record_start(n - 1)) as u64,
            })
        }
    }
}

/// The bytes of each chunk.
pub open spec fn byte_views(chunks: Seq<Vec<u8>>) -> Seq<Seq<u8>> {
    chunks.map_values(|c: Vec<u8>| c@)
}

/// The block ranges of a sequence of chunks, in order; the first chunk that
/// fails decides the error.
pub open spec fn ranges_spec(version: CodecVersion, chunks: Seq<Seq<u8>>) -> Result<Seq<ChunkBlockRange>, CodecError>
    decreases chunks.len(),
{
    if chunks.len() == 0 {
        Ok(Seq::empty())
    } else {
        match ranges_spec(version, chunks.drop_last()) {
            Err(e) => Err(e),
            Ok(rs) => match chunk_range_spec(version, chunks.last()) {
                Err(e) => Err(e),
                Ok(r) => Ok(rs.push(r)),
            },
        }
    }
}

impl CodecVersion {
    /// The codec that a version byte selects: 0 and 1 are known.
    pub fn from_u8(value: u8) -> (r: Result<CodecVersion, CodecError>)
        ensures
            r == version_spec(value),
    {
        match value {
            0 => Ok(CodecVersion::CodecV0),
            1 => Ok(CodecVersion::CodecV1),
            _ => Err(CodecError::UnsupportedCodecVersion),
        }
    }
}

/// The big-endian `u64` held in the eight bytes of `bytes` from `at` on.
pub fn read_be_u64(bytes: &Vec<u8>, at: usize) -> (r: u64)
    requires
        at + 8 <= bytes@.len(),
    ensures
        r == be_u64_at(bytes@, at as int),
{
    // A vector's length is a usize, so every index below fits in one.
    let len = bytes.len();
    assert(at + 8 <= len);
    (bytes[at] as u64) * 0x0100_0000_0000_0000 + (bytes[at + 1] as u64) * 0x0001_0000_0000_0000
        + (bytes[at + 2] as u64) * 0x0000_0100_0000_0000 + (bytes[at + 3] as u64) * 0x0000_0001_0000_0000
        + (bytes[at + 4] as u64) * 0x0000_0000_0100_0000 + (bytes[at + 5] as u64) * 0x0000_0000_0001_0000
        + (bytes[at + 6] as u64) * 0x0000_0000_0000_0100 + (bytes[at + 7] as u64)
}

/// Decodes one chunk: its count byte, then one 60-byte record per block,
/// whose first eight bytes are the block number.
pub fn decode_chunk_range(version: CodecVersion, chunk: &Vec<u8>) -> (r: Result<ChunkBlockRange, CodecError>)
    ensures
        r == chunk_range_spec(version, chunk@),
{
    if chunk.len() < 1 {
        return Err(CodecError::EmptyChunk);
    }
    let num_blocks = chunk[0] as usize;
    let expected: usize = 1 + num_blocks * BLOCK_RECORD_LEN;
    let fits = match version {
        CodecVersion::CodecV0 => chunk.len() >= expected,
        CodecVersion::CodecV1 => chunk.len() == expected,
    };
    if !fits {
        return Err(CodecError::InvalidChunkLength { expected, got: chunk.len() });
    }
    if num_blocks == 0 {
        return Err(CodecError::EmptyChunk);
    }
    let start_block_number = read_be_u64(chunk, 1);
    let end_block_number = read_be_u64(chunk, 1 + (num_blocks - 1) * BLOCK_RECORD_LEN);
    Ok(ChunkBlockRange { start_block_number, end_block_number })
}

/// Decodes every chunk of a batch under `codec_version`, keeping their order.
pub fn decode_block_ranges_from_encoded_chunks(codec_version: CodecVersion, chunks: Vec<Vec<u8>>) -> (r: Result<Vec<ChunkBlockRange>, CodecError>)
    ensures
        match r {
            Ok(rs) => ranges_spec(codec_version, byte_views(chunks@)) == Ok::<Seq<ChunkBlockRange>, CodecError>(rs@),
            Err(e) => ranges_spec(codec_version, byte_views(chunks@)) == Err::<Seq<ChunkBlockRange>, CodecError>(e),
        },
{
    let ghost views = byte_views(chunks@);
    let mut chunk_block_ranges: Vec<ChunkBlockRange> = Vec::new();
    let mut i: usize = 0;
    while i < chunks.len()
        invariant
            i <= chunks@.len(),
            views == byte_views(chunks@),
            ranges_spec(codec_version, views.take(i as int)) == Ok::<Seq<ChunkBlockRange>, CodecError>(chunk_block_ranges@),
        decreases chunks@.len() - i,
    {
        assert(views.take(i as int + 1).drop_last() == views.take(i as int));
        assert(views.take(i as int + 1).last() == chunks@[i as int]@);
        match decode_chunk_range(codec_version, &chunks[i]) {
            Err(e) => {
                proof { lemma_ranges_prefix_error(codec_version, views, i as int + 1); }
                return Err(e);
            },
            Ok(range) => chunk_block_ranges.push(range),
        }
        i = i + 1;
    }
    assert(views.take(i as int) == views);
    Ok(chunk_block_ranges)
}

/// An error in a prefix of the chunks is the error of all of them.
proof fn lemma_ranges_prefix_error(version: CodecVersion, chunks: Seq<Seq<u8>>, k: int)
    requires
        0 <= k <= chunks.len(),
        ranges_spec(version, chunks.take(k)) is Err,
    ensures
        ranges_spec(version, chunks) == ranges_spec(version, chunks.take(k)),
    decreases chunks.len() - k,
{
    if k < chunks.len() {
        assert(chunks.take(k + 1).drop_last() == chunks.take(k));
        lemma_ranges_prefix_error(version, chunks, k + 1);
    } else {
        assert(chunks.take(k) == chunks);
    }
}

} // verus!
