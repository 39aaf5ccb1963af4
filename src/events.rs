//! Selection of the decoded log events that concern one contract and one
//! engine, and the records they give rise to.
use vstd::prelude::*;
use crate::records::{message_encoding, message_key, L1MessageTx, QueueTransactionEvent, StoreEntry};

verus! {

/// A log event, decoded against the signatures of both contracts.
pub enum ChainEvent {
    QueueTransaction(QueueTransactionEvent),
    CommitBatch { batch_index: u64 },
    RevertBatch { batch_index: u64 },
    FinalizeBatch { batch_index: u64 },
    /// A log that matches no known event signature.
    Unrecognized,
}

/// The decoded logs of one transaction receipt.
pub struct ReceiptLogs {
    /// The transaction's destination; none for a contract creation.
    pub to: Option<[u8; 20]>,
    pub transaction_hash: [u8; 32],
    pub events: Vec<ChainEvent>,
}

/// Which engine the events are selected for.
#[derive(Debug, Clone, Copy, PartialEq, Eq, Structural)]
pub enum EventStream {
    /// "Message enqueued" events of the message-queue contract.
    MessageQueue,
    /// Batch commit, revert and finalize events of the rollup contract.
    Rollup,
}

/// An event with the hash of the transaction that emitted it.
pub struct SourcedEvent {
    pub event: ChainEvent,
    pub transaction_hash: [u8; 32],
}

/// Whether `stream` takes event `e`.
pub open spec fn is_wanted(stream: EventStream, e: ChainEvent) -> bool {
    match stream {
        EventStream::MessageQueue => e is QueueTransaction,
        EventStream::Rollup => e is CommitBatch || e is RevertBatch || e is FinalizeBatch,
    }
}

/// The events of `events` that `stream` takes, in order, tagged with `hash`.
pub open spec fn wanted_events(events: Seq<ChainEvent>, stream: EventStream, hash: [u8; 32]) -> Seq<SourcedEvent>
    decreases events.len(),
{
    if events.len() == 0 {
        Seq::empty()
    } else {
        let rest = wanted_events(events.drop_last(), stream, hash);
        if is_wanted(stream, events.last()) {
            rest.push(SourcedEvent { event: events.last(), transaction_hash: hash })
        } else {
            rest
        }
    }
}

/// Whether the receipt's transaction was sent to `contract`.
pub open spec fn addressed_to(r: ReceiptLogs, contract: Seq<u8>) -> bool {
    match r.to {
        Some(a) => a@ == contract,
        None => false,
    }
}

/// What one receipt contributes.
pub open spec fn receipt_events(r: ReceiptLogs, contract: Seq<u8>, stream: EventStream) -> Seq<SourcedEvent> {
    if addressed_to(r, contract) {
        wanted_events(r.events@, stream, r.transaction_hash)
    } else {
        Seq::empty()
    }
}

/// What a block's receipts contribute, receipt after receipt.
pub open spec fn filtered_events(rs: Seq<ReceiptLogs>, contract: Seq<u8>, stream: EventStream) -> Seq<SourcedEvent>
    decreases rs.len(),
{
    if rs.len() == 0 {
        Seq::empty()
    } else {
        filtered_events(rs.drop_last(), contract, stream) + receipt_events(rs.last(), contract, stream)
    }
}

/// A receipt sent elsewhere than to the contract contributes no event,
/// whatever its logs hold.
pub proof fn lemma_other_destination_contributes_nothing(
    rs: Seq<ReceiptLogs>,
    r: ReceiptLogs,
    contract: Seq<u8>,
    stream: EventStream,
)
    requires
        !addressed_to(r, contract),
    ensures
        receipt_events(r, contract, stream) == Seq::<SourcedEvent>::empty(),
        filtered_events(rs.push(r), contract, stream) == filtered_events(rs, contract, stream),
{
    assert(rs.push(r).drop_last() == rs);
    assert(filtered_events(rs, contract, stream) + Seq::<SourcedEvent>::empty() == filtered_events(rs, contract, stream));
}

/// Whether two addresses are equal.
pub fn same_address(a: &[u8; 20], b: &[u8; 20]) -> (r: bool)
    ensures
        r == (a@ == b@),
{
    let mut k: usize = 0;
    while k < 20
        invariant
            k <= 20,
            forall|j: int| 0 <= j < k ==> a@[j] == b@[j],
        decreases 20 - k,
    {
        if a[k] != b[k] {
            return false;
        }
        k = k + 1;
    }
    assert(a@ =~= b@);
    true
}

/// Whether `stream` takes event `e`.
pub fn wanted(stream: EventStream, e: &ChainEvent) -> (r: bool)
    ensures
        r == is_wanted(stream, *e),
{
    match stream {
        EventStream::MessageQueue => matches!(e, ChainEvent::QueueTransaction(_)),
        EventStream::Rollup => matches!(
            e,
            ChainEvent::CommitBatch { .. } | ChainEvent::RevertBatch { .. } | ChainEvent::FinalizeBatch { .. }
        ),
    }
}

/// The events of one receipt that `stream` takes, if it was sent to `contract`.
pub fn receipt_filtered(receipt: ReceiptLogs, contract: &[u8; 20], stream: EventStream) -> (r: Vec<SourcedEvent>)
    ensures
        r@ == receipt_events(receipt, contract@, stream),
{
    let ghost whole = receipt;
    let mut out: Vec<SourcedEvent> = Vec::new();
    let sent_here = match receipt.to {
        Some(a) => same_address(&a, contract),
        None => false,
    };
    if !sent_here {
        return out;
    }
    let hash = receipt.transaction_hash;
    let mut events = receipt.events;
    let ghost all = events@;
    let total = events.len();
    let mut i: usize = 0;
    while events.len() > 0
        invariant
            all.len() == total,
            i <= all.len(),
            events@ == all.skip(i as int),
            out@ == wanted_events(all.take(i as int), stream, hash),
        decreases events@.len(),
    {
        let e = events.remove(0);
        assert(all.take(i as int + 1).drop_last() == all.take(i as int));
        assert(e == all[i as int]);
        if wanted(stream, &e) {
            out.push(SourcedEvent { event: e, transaction_hash: hash });
        }
        i = i + 1;
    }
    assert(all.take(i as int) == all);
    out
}

/// The events of a block's receipts that `stream` takes from `contract`, in
/// receipt and log order, each with its transaction hash.
pub fn filter_events(receipts: Vec<ReceiptLogs>, contract: &[u8; 20], stream: EventStream) -> (r: Vec<SourcedEvent>)
    ensures
        r@ == filtered_events(receipts@, contract@, stream),
{
    let ghost all = receipts@;
    let mut receipts = receipts;
    let mut out: Vec<SourcedEvent> = Vec::new();
    let total = receipts.len();
    let mut i: usize = 0;
    while receipts.len() > 0
        invariant
            all.len() == total,
            i <= all.len(),
            receipts@ == all.skip(i as int),
            out@ == filtered_events(all.take(i as int), contract@, stream),
        decreases receipts@.len(),
    {
        let receipt = receipts.remove(0);
        assert(all.take(i as int + 1).drop_last() == all.take(i as int));
        assert(receipt == all[i as int]);
        let mut found = receipt_filtered(receipt, contract, stream);
        out.append(&mut found);
        i = i + 1;
    }
    assert(all.take(i as int) == all);
    out
}

/// The message that a "message enqueued" event announces.
pub open spec fn message_of(e: QueueTransactionEvent) -> L1MessageTx {
    L1MessageTx {
        queue_index: e.queue_index,
        gas: e.gas_limit,
        to: e.target,
        value: e.value,
        data: e.data,
        sender: e.sender,
    }
}

/// The store entries that a sequence of events gives rise to: one per
/// "message enqueued" event, keyed by its queue index.
pub open spec fn message_entries_spec(events: Seq<SourcedEvent>) -> Seq<(Seq<char>, Seq<u8>)>
    decreases events.len(),
{
    if events.len() == 0 {
        Seq::empty()
    } else {
        let rest = message_entries_spec(events.drop_last());
        match events.last().event {
            ChainEvent::QueueTransaction(q) => rest.push(
                (message_key(q.queue_index), message_encoding(message_of(q))),
            ),
            _ => rest,
        }
    }
}

/// The store entries of the messages that `events` announce, in order.
pub fn message_entries(events: Vec<SourcedEvent>) -> (r: Vec<StoreEntry>)
    ensures
        r@.map_values(|e: StoreEntry| (e.key@, e.value@)) == message_entries_spec(events@),
{
    let ghost all = events@;
    let mut events = events;
    let mut out: Vec<StoreEntry> = Vec::new();
    let total = events.len();
    let mut i: usize = 0;
    while events.len() > 0
        invariant
            all.len() == total,
            i <= all.len(),
            events@ == all.skip(i as int),
            out@.map_values(|e: StoreEntry| (e.key@, e.value@)) == message_entries_spec(all.take(i as int)),
        decreases events@.len(),
    {
        let sourced = events.remove(0);
        assert(all.take(i as int + 1).drop_last() == all.take(i as int));
        assert(sourced == all[i as int]);
        let ghost before = out@;
        match sourced.event {
            ChainEvent::QueueTransaction(q) => {
                let message = L1MessageTx::from_event(q);
                let entry = message.store_entry();
                out.push(entry);
                assert(out@.map_values(|e: StoreEntry| (e.key@, e.value@)) =~= before.map_values(|e: StoreEntry| (e.key@, e.value@)).push((entry.key@, entry.value@)));
            },
            _ => {},
        }
        i = i + 1;
    }
    assert(all.take(i as int) == all);
    out
}

/// The store entries of the messages that a block's receipts announce from
/// the message-queue contract `contract`.
pub fn message_block_entries(receipts: Vec<ReceiptLogs>, contract: &[u8; 20]) -> (r: Vec<StoreEntry>)
    ensures
        r@.map_values(|e: StoreEntry| (e.key@, e.value@))
            == message_entries_spec(filtered_events(receipts@, contract@, EventStream::MessageQueue)),
{
    message_entries(filter_events(receipts, contract, EventStream::MessageQueue))
}

/// The batches that commit events announce, with the transaction that
/// committed each, in order.
pub open spec fn commits_spec(events: Seq<SourcedEvent>) -> Seq<(u64, [u8; 32])>
    decreases events.len(),
{
    if events.len() == 0 {
        Seq::empty()
    } else {
        let rest = commits_spec(events.drop_last());
        match events.last().event {
            ChainEvent::CommitBatch { batch_index } => rest.push((batch_index, events.last().transaction_hash)),
            _ => rest,
        }
    }
}

/// The committed batches among `events`, each with its transaction hash;
/// revert and finalize events are passed over.
pub fn committed_batches(events: &Vec<SourcedEvent>) -> (r: Vec<(u64, [u8; 32])>)
    ensures
        r@ == commits_spec(events@),
{
    let mut out: Vec<(u64, [u8; 32])> = Vec::new();
    let mut i: usize = 0;
    while i < events.len()
        invariant
            i <= events@.len(),
            out@ == commits_spec(events@.take(i as int)),
        decreases events@.len() - i,
    {
        assert(events@.take(i as int + 1).drop_last() == events@.take(i as int));
        match &events[i].event {
            ChainEvent::CommitBatch { batch_index } => out.push((*batch_index, events[i].transaction_hash)),
            _ => {},
        }
        i = i + 1;
    }
    assert(events@.take(i as int) == events@);
    out
}

/// The store after writing `entries` in order, a later write to a key
/// replacing an earlier one.
pub open spec fn upsert_all(store: Map<Seq<char>, Seq<u8>>, entries: Seq<(Seq<char>, Seq<u8>)>) -> Map<Seq<char>, Seq<u8>>
    decreases entries.len(),
{
    if entries.len() == 0 {
        store
    } else {
        upsert_all(store, entries.drop_last()).insert(entries.last().0, entries.last().1)
    }
}

/// Whether two "message enqueued" events carry the same source data.
pub open spec fn same_message(a: QueueTransactionEvent, b: QueueTransactionEvent) -> bool {
    a.sender == b.sender && a.target == b.target && a.value == b.value && a.queue_index == b.queue_index
        && a.gas_limit == b.gas_limit && a.data@ == b.data@
}

/// Upserting a message is idempotent: storing the records of two events with
/// the same source data leaves the store as storing the first alone does.
pub proof fn lemma_idempotent_upsert(
    store: Map<Seq<char>, Seq<u8>>,
    first: QueueTransactionEvent,
    second: QueueTransactionEvent,
    h1: [u8; 32],
    h2: [u8; 32],
)
    requires
        same_message(first, second),
    ensures
        ({
            let once = seq![SourcedEvent { event: ChainEvent::QueueTransaction(first), transaction_hash: h1 }];
            let twice = once.push(SourcedEvent { event: ChainEvent::QueueTransaction(second), transaction_hash: h2 });
            upsert_all(store, message_entries_spec(twice)) == upsert_all(store, message_entries_spec(once))
        }),
{
    let once = seq![SourcedEvent { event: ChainEvent::QueueTransaction(first), transaction_hash: h1 }];
    let twice = once.push(SourcedEvent { event: ChainEvent::QueueTransaction(second), transaction_hash: h2 });
    assert(twice.drop_last() == once);
    assert(once.drop_last() == Seq::<SourcedEvent>::empty());
    let entry = (message_key(first.queue_index), message_encoding(message_of(first)));
    assert(message_encoding(message_of(second)) == entry.1);
    let e1 = message_entries_spec(once);
    let e2 = message_entries_spec(twice);
    assert(message_entries_spec(Seq::<SourcedEvent>::empty()) == Seq::<(Seq<char>, Seq<u8>)>::empty());
    assert(e1 =~= seq![entry]);
    assert(twice.last().event == ChainEvent::QueueTransaction(second));
    assert(e2 =~= seq![entry, entry]);
    assert(e2.drop_last() == e1);
    assert(e1.drop_last() == Seq::<(Seq<char>, Seq<u8>)>::empty());
    let after = upsert_all(store, e1);
    assert(after.insert(entry.0, entry.1) =~= after);
}

} // verus!
