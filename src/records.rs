//! The records the two sync engines persist, their store keys and their
//! canonical RLP encodings.
use vstd::prelude::*;
use crate::codec::ChunkBlockRange;

verus! {

/// Store key of the message-queue engine's checkpoint.
pub const MESSAGE_CHECKPOINT_KEY: &'static str = "LastSyncedL1BlockNumber";

/// Store key of the rollup engine's checkpoint.
pub const ROLLUP_CHECKPOINT_KEY: &'static str = "RLastRollupEventSyncedL1BlockNumber";

/// Prefix of the store key of a cross-chain message.
pub const MESSAGE_KEY_PREFIX: &'static str = "L1";

/// Prefix of the store key of a batch's chunk ranges.
pub const BATCH_KEY_PREFIX: &'static str = "R-bcr";

/// The big-endian bytes of `n` without leading zeros; none for zero.
pub open spec fn be_trimmed(n: nat) -> Seq<u8>
    decreases n,
{
    if n == 0 {
        Seq::empty()
    } else {
        be_trimmed(n / 256).push((n % 256) as u8)
    }
}

/// `s` without its leading zero bytes.
pub open spec fn trim_leading_zeros(s: Seq<u8>) -> Seq<u8>
    decreases s.len(),
{
    if s.len() > 0 && s[0] == 0 {
        trim_leading_zeros(s.skip(1))
    } else {
        s
    }
}

/// The RLP header of a list (or else a string) whose payload is `len`
/// bytes long, its length written in `len_bytes`.
pub open spec fn rlp_header_with(list: bool, len: nat, len_bytes: Seq<u8>) -> Seq<u8> {
    let short: int = if list { 0xc0 } else { 0x80 };
    let long: int = if list { 0xf7 } else { 0xb7 };
    if len < 56 {
        seq![(short + len) as u8]
    } else {
        seq![(long + len_bytes.len()) as u8] + len_bytes
    }
}

/// The RLP header of a list (or else a string) whose payload is `len` bytes long.
pub open spec fn rlp_header(list: bool, len: nat) -> Seq<u8> {
    rlp_header_with(list, len, be_trimmed(len))
}

/// The RLP encoding of the byte string `d`: a single byte under `0x80`
/// stands for itself, anything else follows a string header.
pub open spec fn rlp_string(d: Seq<u8>) -> Seq<u8> {
    if d.len() == 1 && d[0] < 0x80 {
        d
    } else {
        rlp_header(false, d.len()) + d
    }
}

/// The RLP encoding of an unsigned integer: the string of its trimmed
/// big-endian bytes.
pub open spec fn rlp_u64_of(v: u64) -> Seq<u8> {
    rlp_string(be_trimmed(v as nat))
}

/// The RLP encoding of the 256-bit integer whose big-endian bytes are `word`.
pub open spec fn rlp_u256_of(word: Seq<u8>) -> Seq<u8> {
    rlp_string(trim_leading_zeros(word))
}

/// The RLP encoding of an address: the string of its bytes.
pub open spec fn rlp_address_of(a: Seq<u8>) -> Seq<u8> {
    rlp_string(a)
}

/// The RLP encoding of a byte string.
pub open spec fn rlp_bytes_of(d: Seq<u8>) -> Seq<u8> {
    rlp_string(d)
}

/// The RLP header of a list whose payload is `payload_length` bytes long.
pub open spec fn rlp_list_header_of(payload_length: nat) -> Seq<u8> {
    rlp_header(true, payload_length)
}

/// The RLP encoding of the two-item list `[a, b]` of integers.
pub open spec fn rlp_u64_pair_of(a: u64, b: u64) -> Seq<u8> {
    let payload = rlp_u64_of(a) + rlp_u64_of(b);
    rlp_header(true, payload.len()) + payload
}

/// What an `rlp::RlpStream` opened with `new_list(count)` holds once
/// `payload` is appended raw as `count` items. An empty list is written at
/// once; otherwise the list header comes first, the stream writing a long
/// length through a `u32`.
pub open spec fn rlp_raw_list_of(payload: Seq<u8>, count: nat) -> Seq<u8> {
    if count == 0 {
        seq![0xc0u8] + payload
    } else {
        rlp_header_with(true, payload.len(), be_trimmed(payload.len() % 0x1_0000_0000)) + payload
    }
}

/// Relies on `alloy_rlp::encode` of a `u64`.
#[verifier::external_body]
fn rlp_u64(v: u64) -> (r: Vec<u8>)
    ensures
        r@ == rlp_u64_of(v),
{
    alloy_rlp::encode(v)
}

/// Relies on `alloy_rlp::encode` of an `alloy_primitives::U256`, built from
/// its big-endian bytes.
#[verifier::external_body]
fn rlp_u256(word: &[u8; 32]) -> (r: Vec<u8>)
    ensures
        r@ == rlp_u256_of(word@),
{
    alloy_rlp::encode(alloy_primitives::U256::from_be_bytes(*word))
}

/// Relies on `alloy_rlp::encode` of an `alloy_primitives::Address`.
#[verifier::external_body]
fn rlp_address(a: &[u8; 20]) -> (r: Vec<u8>)
    ensures
        r@ == rlp_address_of(a@),
{
    alloy_rlp::encode(alloy_primitives::Address::from(*a))
}

/// Relies on `alloy_rlp::encode` of an `alloy_primitives::Bytes`.
#[verifier::external_body]
fn rlp_bytes(d: &Vec<u8>) -> (r: Vec<u8>)
    ensures
        r@ == rlp_bytes_of(d@),
{
    alloy_rlp::encode(alloy_primitives::Bytes::copy_from_slice(d.as_slice()))
}

/// Relies on `alloy_rlp::Header::encode` for a list header.
#[verifier::external_body]
fn rlp_list_header(payload_length: usize) -> (r: Vec<u8>)
    ensures
        r@ == rlp_list_header_of(payload_length as nat),
{
    let mut out: Vec<u8> = Vec::new();
    alloy_rlp::Header { list: true, payload_length }.encode(&mut out);
    out
}

/// Relies on `rlp::encode_list` of two `u64`.
#[verifier::external_body]
fn rlp_u64_pair(a: u64, b: u64) -> (r: Vec<u8>)
    ensures
        r@ == rlp_u64_pair_of(a, b),
{
    rlp::encode_list::<u64, u64>(&[a, b]).to_vec()
}

/// Relies on `rlp::RlpStream::new_list`, `append_raw` and `out`: a list of
/// `count` items whose encodings, concatenated, are `payload`.
#[verifier::external_body]
fn rlp_raw_list(payload: &Vec<u8>, count: usize) -> (r: Vec<u8>)
    ensures
        r@ == rlp_raw_list_of(payload@, count as nat),
{
    let mut stream = rlp::RlpStream::new_list(count);
    stream.append_raw(payload.as_slice(), count);
    stream.out().to_vec()
}

/// The decimal digit `d`.
pub open spec fn digit_char(d: nat) -> char {
    seq!['0', '1', '2', '3', '4', '5', '6', '7', '8', '9'][d as int]
}

/// The decimal representation of `n`, without leading zeros.
pub open spec fn decimal(n: nat) -> Seq<char>
    decreases n,
{
    if n < 10 {
        seq![digit_char(n)]
    } else {
        decimal(n / 10).push(digit_char(n % 10))
    }
}

/// Relies on std's `Display` for `u64` through `format!`: the prefix, then the
/// number in decimal.
#[verifier::external_body]
fn indexed_key(prefix: &str, index: u64) -> (r: String)
    ensures
        r@ == prefix@ + decimal(index as nat),
{
    format!("{}{}", prefix, index)
}

/// One write to the key-value store.
pub struct StoreEntry {
    pub key: String,
    pub value: Vec<u8>,
}

/// A store entry as plain values.
pub open spec fn entry_view(e: StoreEntry) -> (Seq<char>, Seq<u8>) {
    (e.key@, e.value@)
}

/// A "message enqueued" event of the message-queue contract.
pub struct QueueTransactionEvent {
    pub sender: [u8; 20],
    pub target: [u8; 20],
    /// Big-endian 256-bit value.
    pub value: [u8; 32],
    pub queue_index: u64,
    /// Big-endian 256-bit gas limit.
    pub gas_limit: [u8; 32],
    pub data: Vec<u8>,
}

/// A cross-chain message, as it is persisted.
pub struct L1MessageTx {
    pub queue_index: u64,
    /// Big-endian 256-bit gas limit.
    pub gas: [u8; 32],
    pub to: [u8; 20],
    /// Big-endian 256-bit value.
    pub value: [u8; 32],
    pub data: Vec<u8>,
    pub sender: [u8; 20],
}

/// The fields of a message, each RLP-encoded, in order.
pub open spec fn message_payload(m: L1MessageTx) -> Seq<u8> {
    rlp_u64_of(m.queue_index) + rlp_u256_of(m.gas@) + rlp_address_of(m.to@) + rlp_u256_of(m.value@)
        + rlp_bytes_of(m.data@) + rlp_address_of(m.sender@)
}

/// The canonical encoding of a message: an RLP list of its fields.
pub open spec fn message_encoding(m: L1MessageTx) -> Seq<u8> {
    rlp_list_header_of(message_payload(m).len()) + message_payload(m)
}

/// The store key of the message with queue index `i`.
pub open spec fn message_key(i: u64) -> Seq<char> {
    seq!['L', '1'] + decimal(i as nat)
}

/// The store key of the chunk ranges of batch `i`.
pub open spec fn batch_key(i: u64) -> Seq<char> {
    seq!['R', '-', 'b', 'c', 'r'] + decimal(i as nat)
}

/// The ranges, each encoded as the two-item list (start, end), concatenated.
pub open spec fn ranges_payload(rs: Seq<ChunkBlockRange>) -> Seq<u8>
    decreases rs.len(),
{
    if rs.len() == 0 {
        Seq::empty()
    } else {
        ranges_payload(rs.drop_last()) + rlp_u64_pair_of(rs.last().start_block_number, rs.last().end_block_number)
    }
}

/// The canonical encoding of a batch's ranges: an RLP list of (start, end) lists.
pub open spec fn ranges_encoding(rs: Seq<ChunkBlockRange>) -> Seq<u8> {
    rlp_raw_list_of(ranges_payload(rs), rs.len())
}

impl L1MessageTx {
    /// The message that a "message enqueued" event announces.
    pub fn from_event(event: QueueTransactionEvent) -> (r: L1MessageTx)
        ensures
            r.queue_index == event.queue_index,
            r.gas == event.gas_limit,
            r.to == event.target,
            r.value == event.value,
            r.data@ == event.data@,
            r.sender == event.sender,
    {
        L1MessageTx {
            queue_index: event.queue_index,
            gas: event.gas_limit,
            to: event.target,
            value: event.value,
            data: event.data,
            sender: event.sender,
        }
    }

    /// The canonical encoding of the message.
    pub fn encode(&self) -> (r: Vec<u8>)
        ensures
            r@ == message_encoding(*self),
    {
        let mut payload = rlp_u64(self.queue_index);
        let mut gas = rlp_u256(&self.gas);
        payload.append(&mut gas);
        let mut to = rlp_address(&self.to);
        payload.append(&mut to);
        let mut value = rlp_u256(&self.value);
        payload.append(&mut value);
        let mut data = rlp_bytes(&self.data);
        payload.append(&mut data);
        let mut sender = rlp_address(&self.sender);
        payload.append(&mut sender);
        assert(payload@ == message_payload(*self));
        let mut out = rlp_list_header(payload.len());
        out.append(&mut payload);
        out
    }

    /// The store entry of the message: keyed by its queue index, holding its
    /// encoding.
    pub fn store_entry(&self) -> (r: StoreEntry)
        ensures
            r.key@ == message_key(self.queue_index),
            r.value@ == message_encoding(*self),
    {
        proof { reveal_strlit("L1"); }
        let key = indexed_key(MESSAGE_KEY_PREFIX, self.queue_index);
        StoreEntry { key, value: self.encode() }
    }
}

/// The store entry of a batch's chunk ranges: keyed by the batch index,
/// holding the ranges as an RLP list of (start, end) lists.
pub fn batch_entry(batch_index: u64, ranges: &Vec<ChunkBlockRange>) -> (r: StoreEntry)
    ensures
        r.key@ == batch_key(batch_index),
        r.value@ == ranges_encoding(ranges@),
{
    let mut payload: Vec<u8> = Vec::new();
    let mut i: usize = 0;
    while i < ranges.len()
        invariant
            i <= ranges@.len(),
            payload@ == ranges_payload(ranges@.take(i as int)),
        decreases ranges@.len() - i,
    {
        let range = ranges[i];
        let mut item = rlp_u64_pair(range.start_block_number, range.end_block_number);
        payload.append(&mut item);
        assert(ranges@.take(i as int + 1).drop_last() == ranges@.take(i as int));
        i = i + 1;
    }
    assert(ranges@.take(i as int) == ranges@);
    proof { reveal_strlit("R-bcr"); }
    let key = indexed_key(BATCH_KEY_PREFIX, batch_index);
    StoreEntry { key, value: rlp_raw_list(&payload, ranges.len()) }
}

} // verus!
