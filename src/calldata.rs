//! From the call data of a batch-commit transaction to its chunk block ranges.
use vstd::prelude::*;
use ethers_core::abi::{Abi, Function, Token};
use crate::codec::{
    byte_views, decode_block_ranges_from_encoded_chunks, ranges_spec, version_spec, ChunkBlockRange,
    CodecError, CodecVersion,
};
use crate::records::{batch_entry, batch_key, ranges_encoding, StoreEntry};

verus! {

/// Length of the method selector that opens call data.
pub const METHOD_ID_LENGTH: usize = 4;

/// ethabi's contract interface (`Contract`, re-exported as `Abi`), opaque here.
#[verifier::external_type_specification]
#[verifier::external_body]
pub struct ExAbi(Abi);

/// ethabi's function descriptor, opaque here.
#[verifier::external_type_specification]
#[verifier::external_body]
pub struct ExFunction(Function);

/// ethabi's decoded argument, opaque here.
#[verifier::external_type_specification]
#[verifier::external_body]
pub struct ExToken(Token);

/// ethabi's decoding error, opaque here.
#[verifier::external_type_specification]
#[verifier::external_body]
pub struct ExAbiError(ethers_core::abi::Error);

/// Name for what `Contract::functions` walks, cloned: the interface's
/// functions in the order of their names.
pub uninterp spec fn abi_functions_of(abi: Abi) -> Seq<Function>;

/// Name for `Function::short_signature`.
pub uninterp spec fn selector_of(f: Function) -> Seq<u8>;

/// Name for `Function::decode_input`: the decoded arguments, or none when
/// `data` does not decode against the function's parameter types.
pub uninterp spec fn decoded_input_of(f: Function, data: Seq<u8>) -> Option<Seq<Token>>;

/// Name for `Token::into_uint`, as 32 big-endian bytes: none unless `t` is an
/// unsigned integer.
pub uninterp spec fn uint_word_of(t: Token) -> Option<Seq<u8>>;

/// Name for `Token::into_array`: none unless `t` is a dynamic array.
pub uninterp spec fn array_items_of(t: Token) -> Option<Seq<Token>>;

/// Name for `Token::into_bytes`: none unless `t` is a `bytes` value.
pub uninterp spec fn bytes_of(t: Token) -> Option<Seq<u8>>;

/// Relies on ethabi's `Contract::functions`: the interface's functions, cloned.
#[verifier::external_body]
fn interface_functions(abi: &Abi) -> (r: Vec<Function>)
    ensures
        r@ == abi_functions_of(*abi),
{
    abi.functions().cloned().collect()
}

/// Relies on ethabi's `Function::short_signature`: the function's selector.
#[verifier::external_body]
fn function_selector(f: &Function) -> (r: [u8; 4])
    ensures
        r@ == selector_of(*f),
{
    f.short_signature()
}

/// Relies on ethabi's `Function::decode_input`: the call's arguments decoded
/// against the function's parameter types.
#[verifier::external_body]
fn function_decode_input(f: &Function, data: &[u8]) -> (r: Result<Vec<Token>, ethers_core::abi::Error>)
    ensures
        match r {
            Ok(ts) => decoded_input_of(*f, data@) == Some(ts@),
            Err(_) => decoded_input_of(*f, data@) is None,
        },
{
    f.decode_input(data)
}

/// Relies on ethabi's `Token::into_uint` and on `U256::to_big_endian`: an
/// unsigned integer argument as 32 big-endian bytes.
#[verifier::external_body]
fn token_uint_word(t: Token) -> (r: Option<[u8; 32]>)
    ensures
        match r {
            Some(w) => uint_word_of(t) == Some(w@),
            None => uint_word_of(t) is None,
        },
{
    match t.into_uint() {
        Some(u) => {
            let mut word = [0u8; 32];
            u.to_big_endian(&mut word);
            Some(word)
        },
        None => None,
    }
}

/// Relies on ethabi's `Token::into_array`: the items of an array argument.
#[verifier::external_body]
fn token_array(t: Token) -> (r: Option<Vec<Token>>)
    ensures
        match r {
            Some(items) => array_items_of(t) == Some(items@),
            None => array_items_of(t) is None,
        },
{
    t.into_array()
}

/// Relies on ethabi's `Token::into_bytes`: the content of a `bytes` argument.
#[verifier::external_body]
fn token_bytes(t: Token) -> (r: Option<Vec<u8>>)
    ensures
        match r {
            Some(b) => bytes_of(t) == Some(b@),
            None => bytes_of(t) is None,
        },
{
    t.into_bytes()
}

/// Whether `selector` is the selector that opens `data`.
pub open spec fn selects(selector: Seq<u8>, data: Seq<u8>) -> bool {
    selector == data.take(4)
}

/// The selectors of `fs`, in order.
pub open spec fn selectors_of(fs: Seq<Function>) -> Seq<Seq<u8>> {
    fs.map_values(|f: Function| selector_of(f))
}

/// Whether `i` is the first of `sels` that opens `data`.
pub open spec fn is_first_match(sels: Seq<Seq<u8>>, data: Seq<u8>, i: int) -> bool {
    0 <= i < sels.len() && selects(sels[i], data) && forall|j: int| 0 <= j < i ==> !selects(#[trigger] sels[j], data)
}

/// The codec that a 32-byte big-endian version argument selects.
pub open spec fn version_word_spec(word: Seq<u8>) -> Result<CodecVersion, CodecError> {
    if forall|k: int| 0 <= k < 31 ==> word[k] == 0 {
        version_spec(word[31])
    } else {
        Err(CodecError::UnsupportedCodecVersion)
    }
}

/// The block ranges that a commit call with version argument `word` and
/// chunk arguments `chunks` describes.
pub open spec fn commit_payload_spec(word: Seq<u8>, chunks: Seq<Seq<u8>>) -> Result<Seq<ChunkBlockRange>, CodecError> {
    match version_word_spec(word) {
        Err(e) => Err(e),
        Ok(v) => ranges_spec(v, chunks),
    }
}

/// The content of every item, if each is a `bytes` value.
pub open spec fn chunk_bytes_spec(items: Seq<Token>) -> Option<Seq<Seq<u8>>>
    decreases items.len(),
{
    if items.len() == 0 {
        Some(Seq::empty())
    } else {
        match chunk_bytes_spec(items.drop_last()) {
            None => None,
            Some(cs) => match bytes_of(items.last()) {
                None => None,
                Some(b) => Some(cs.push(b)),
            },
        }
    }
}

/// The version word and the chunks of a commit call's decoded arguments
/// (version, parent header, chunks, bitmap), if they have that shape.
pub open spec fn commit_tokens_spec(ts: Seq<Token>) -> Option<(Seq<u8>, Seq<Seq<u8>>)> {
    if ts.len() < 3 {
        None
    } else {
        match uint_word_of(ts[0]) {
            None => None,
            Some(w) => match array_items_of(ts[2]) {
                None => None,
                Some(items) => match chunk_bytes_spec(items) {
                    None => None,
                    Some(cs) => Some((w, cs)),
                },
            },
        }
    }
}

/// What the call data `data` of a batch-commit transaction decodes to
/// against the interface `abi`.
pub open spec fn call_ranges_spec(abi: Abi, data: Seq<u8>) -> Result<Seq<ChunkBlockRange>, CodecError> {
    if data.len() < 4 {
        Err(CodecError::MalformedCallData { len: data.len() as usize })
    } else {
        let fs = abi_functions_of(abi);
        let sels = selectors_of(fs);
        if exists|i: int| is_first_match(sels, data, i) {
            let i = choose|i: int| is_first_match(sels, data, i);
            match decoded_input_of(fs[i], data.skip(4)) {
                None => Err(CodecError::InvalidArguments),
                Some(ts) => match commit_tokens_spec(ts) {
                    None => Err(CodecError::InvalidArguments),
                    Some((w, cs)) => commit_payload_spec(w, cs),
                },
            }
        } else {
            Err(CodecError::UnknownMethod)
        }
    }
}

/// The store entry, as plain values, of batch `batch_index` committed by a
/// transaction with call data `data`.
pub open spec fn batch_entry_spec(batch_index: u64, abi: Abi, data: Seq<u8>) -> Result<(Seq<char>, Seq<u8>), CodecError> {
    match call_ranges_spec(abi, data) {
        Ok(rs) => Ok((batch_key(batch_index), ranges_encoding(rs))),
        Err(e) => Err(e),
    }
}

/// The position of the first selector that opens `data`, if any.
pub fn find_method(selectors: &Vec<[u8; 4]>, data: &Vec<u8>) -> (r: Option<usize>)
    requires
        data@.len() >= 4,
    ensures
        match r {
            Some(i) => i < selectors@.len() && selects(selectors@[i as int]@, data@)
                && forall|j: int| 0 <= j < i ==> !selects(#[trigger] selectors@[j]@, data@),
            None => forall|j: int| 0 <= j < selectors@.len() ==> !selects(#[trigger] selectors@[j]@, data@),
        },
{
    let mut i: usize = 0;
    while i < selectors.len()
        invariant
            i <= selectors@.len(),
            data@.len() >= 4,
            forall|j: int| 0 <= j < i ==> !selects(#[trigger] selectors@[j]@, data@),
        decreases selectors@.len() - i,
    {
        let s = selectors[i];
        if s[0] == data[0] && s[1] == data[1] && s[2] == data[2] && s[3] == data[3] {
            assert(s@ == data@.take(4));
            return Some(i);
        }
        assert(s@[0] != data@[0] || s@[1] != data@[1] || s@[2] != data@[2] || s@[3] != data@[3]);
        i = i + 1;
    }
    None
}

/// The codec that a 32-byte big-endian version argument selects.
pub fn version_from_word(word: &[u8; 32]) -> (r: Result<CodecVersion, CodecError>)
    ensures
        r == version_word_spec(word@),
{
    let mut k: usize = 0;
    while k < 31
        invariant
            k <= 31,
            forall|j: int| 0 <= j < k ==> word@[j] == 0,
        decreases 31 - k,
    {
        if word[k] != 0 {
            return Err(CodecError::UnsupportedCodecVersion);
        }
        k = k + 1;
    }
    CodecVersion::from_u8(word[31])
}

/// The block ranges of a commit call, from its version argument and its chunks.
pub fn decode_commit_payload(word: &[u8; 32], chunks: Vec<Vec<u8>>) -> (r: Result<Vec<ChunkBlockRange>, CodecError>)
    ensures
        match r {
            Ok(rs) => commit_payload_spec(word@, byte_views(chunks@)) == Ok::<Seq<ChunkBlockRange>, CodecError>(rs@),
            Err(e) => commit_payload_spec(word@, byte_views(chunks@)) == Err::<Seq<ChunkBlockRange>, CodecError>(e),
        },
{
    match version_from_word(word) {
        Err(e) => Err(e),
        Ok(v) => decode_block_ranges_from_encoded_chunks(v, chunks),
    }
}

/// Picks the version and the chunks out of the decoded arguments of a commit
/// call, whose parameters are (version, parent header, chunks, bitmap).
fn commit_arguments(tokens: Vec<Token>) -> (r: Option<([u8; 32], Vec<Vec<u8>>)>)
    ensures
        match r {
            Some((w, cs)) => commit_tokens_spec(tokens@) == Some((w@, byte_views(cs@))),
            None => commit_tokens_spec(tokens@) is None,
        },
{
    let ghost all = tokens@;
    let mut rest = tokens;
    if rest.len() < 3 {
        return None;
    }
    let chunk_list = rest.remove(2);
    let version = rest.remove(0);
    let word = match token_uint_word(version) {
        Some(w) => w,
        None => return None,
    };
    let mut items = match token_array(chunk_list) {
        Some(items) => items,
        None => return None,
    };
    let ghost whole = items@;
    let total = items.len();
    let mut chunks: Vec<Vec<u8>> = Vec::new();
    let mut i: usize = 0;
    while items.len() > 0
        invariant
            all == tokens@,
            all.len() >= 3,
            uint_word_of(all[0]) == Some(word@),
            array_items_of(all[2]) == Some(whole),
            whole.len() == total,
            i <= whole.len(),
            items@ == whole.skip(i as int),
            chunk_bytes_spec(whole.take(i as int)) == Some(byte_views(chunks@)),
        decreases items@.len(),
    {
        let item = items.remove(0);
        assert(item == whole[i as int]);
        assert(whole.take(i as int + 1).drop_last() == whole.take(i as int));
        match token_bytes(item) {
            Some(b) => {
                let ghost before = chunks@;
                chunks.push(b);
                assert(byte_views(chunks@) =~= byte_views(before).push(b@));
            },
            None => {
                proof { lemma_chunk_bytes_prefix_none(whole, i as int + 1); }
                return None;
            },
        }
        i = i + 1;
    }
    assert(whole.take(i as int) == whole);
    Some((word, chunks))
}

/// A prefix of items that is not all `bytes` makes the whole list fail.
proof fn lemma_chunk_bytes_prefix_none(items: Seq<Token>, k: int)
    requires
        0 <= k <= items.len(),
        chunk_bytes_spec(items.take(k)) is None,
    ensures
        chunk_bytes_spec(items) is None,
    decreases items.len() - k,
{
    if k < items.len() {
        assert(items.take(k + 1).drop_last() == items.take(k));
        lemma_chunk_bytes_prefix_none(items, k + 1);
    } else {
        assert(items.take(k) == items);
    }
}

/// The call data with its selector taken off.
fn call_arguments(tx_data: &Vec<u8>) -> (r: Vec<u8>)
    requires
        tx_data@.len() >= 4,
    ensures
        r@ == tx_data@.skip(4),
{
    let mut out: Vec<u8> = Vec::new();
    let mut i: usize = METHOD_ID_LENGTH;
    while i < tx_data.len()
        invariant
            4 <= i <= tx_data@.len(),
            out@ == tx_data@.subrange(4, i as int),
        decreases tx_data@.len() - i,
    {
        out.push(tx_data[i]);
        i = i + 1;
    }
    out
}

/// Decodes the chunk block ranges of a batch-commit call: the selector picks
/// the first function of `abi` that has it, the arguments are decoded against
/// that function, and the version and chunk arguments are handed to the codec.
pub fn decode_chunk_block_ranges(tx_data: Vec<u8>, abi: &Abi) -> (r: Result<Vec<ChunkBlockRange>, CodecError>)
    ensures
        match r {
            Ok(rs) => call_ranges_spec(*abi, tx_data@) == Ok::<Seq<ChunkBlockRange>, CodecError>(rs@),
            Err(e) => call_ranges_spec(*abi, tx_data@) == Err::<Seq<ChunkBlockRange>, CodecError>(e),
        },
{
    if tx_data.len() < METHOD_ID_LENGTH {
        return Err(CodecError::MalformedCallData { len: tx_data.len() });
    }
    let functions = interface_functions(abi);
    let ghost sels = selectors_of(functions@);
    let mut selectors: Vec<[u8; 4]> = Vec::new();
    let mut i: usize = 0;
    while i < functions.len()
        invariant
            i <= functions@.len(),
            selectors@.len() == i,
            forall|j: int| 0 <= j < i ==> #[trigger] selectors@[j]@ == selector_of(functions@[j]),
        decreases functions@.len() - i,
    {
        selectors.push(function_selector(&functions[i]));
        i = i + 1;
    }
    assert forall|j: int| 0 <= j < selectors@.len() implies #[trigger] selectors@[j]@ == sels[j] by {}
    let index = match find_method(&selectors, &tx_data) {
        Some(index) => index,
        None => {
            assert forall|k: int| !is_first_match(sels, tx_data@, k) by {
                if 0 <= k < sels.len() {
                    assert(selectors@[k]@ == sels[k]);
                }
            }
            return Err(CodecError::UnknownMethod);
        },
    };
    proof {
        assert forall|j: int| 0 <= j < index implies !selects(#[trigger] sels[j], tx_data@) by {
            assert(selectors@[j]@ == sels[j]);
        }
        assert(selectors@[index as int]@ == sels[index as int]);
        assert(is_first_match(sels, tx_data@, index as int));
        let c = choose|c: int| is_first_match(sels, tx_data@, c);
        if c < index {
            assert(!selects(sels[c], tx_data@));
        }
        if index < c {
            assert(!selects(sels[index as int], tx_data@));
        }
        assert(c == index);
    }
    let arguments = call_arguments(&tx_data);
    let tokens = match function_decode_input(&functions[index], arguments.as_slice()) {
        Ok(tokens) => tokens,
        Err(_) => return Err(CodecError::InvalidArguments),
    };
    let (word, chunks) = match commit_arguments(tokens) {
        Some(parts) => parts,
        None => return Err(CodecError::InvalidArguments),
    };
    decode_commit_payload(&word, chunks)
}

/// The store entry of a committed batch, from the call data of the
/// transaction that committed it: its ranges, keyed by the batch index. A
/// decoding error comes back as it is.
pub fn commit_batch_entry(batch_index: u64, tx_data: Vec<u8>, abi: &Abi) -> (r: Result<StoreEntry, CodecError>)
    ensures
        match r {
            Ok(e) => batch_entry_spec(batch_index, *abi, tx_data@) == Ok::<(Seq<char>, Seq<u8>), CodecError>((e.key@, e.value@)),
            Err(err) => batch_entry_spec(batch_index, *abi, tx_data@) == Err::<(Seq<char>, Seq<u8>), CodecError>(err),
        },
{
    match decode_chunk_block_ranges(tx_data, abi) {
        Ok(ranges) => Ok(batch_entry(batch_index, &ranges)),
        Err(e) => Err(e),
    }
}

/// The decoding is deterministic: the same call data, against the same
/// interface, always gives the same ranges in the same order, or the same
/// error.
pub proof fn lemma_codec_deterministic(abi: Abi, a: Seq<u8>, b: Seq<u8>)
    requires
        a == b,
    ensures
        call_ranges_spec(abi, a) == call_ranges_spec(abi, b),
{
}

} // verus!
