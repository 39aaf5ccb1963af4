use std::collections::HashMap;

use l1_sync::events::{
    committed_batches, filter_events, message_entries, ChainEvent, EventStream, ReceiptLogs,
};
use l1_sync::records::QueueTransactionEvent;

const MESSENGER: [u8; 20] = [0xaa; 20];
const OTHER: [u8; 20] = [0xbb; 20];

fn queued(index: u64) -> ChainEvent {
    ChainEvent::QueueTransaction(QueueTransactionEvent {
        sender: [1; 20],
        target: [2; 20],
        value: [0; 32],
        queue_index: index,
        gas_limit: [0; 32],
        data: vec![index as u8],
    })
}

fn receipt(to: Option<[u8; 20]>, hash: u8, events: Vec<ChainEvent>) -> ReceiptLogs {
    ReceiptLogs { to, transaction_hash: [hash; 32], events }
}

fn queue_indexes(events: &[l1_sync::events::SourcedEvent]) -> Vec<(u64, u8)> {
    events
        .iter()
        .map(|e| match &e.event {
            ChainEvent::QueueTransaction(q) => (q.queue_index, e.transaction_hash[0]),
            _ => panic!("unexpected event"),
        })
        .collect()
}

#[test]
fn receipt_to_other_contract_contributes_nothing() {
    let receipts = vec![receipt(Some(OTHER), 1, vec![queued(1), queued(2)])];
    assert!(filter_events(receipts, &MESSENGER, EventStream::MessageQueue).is_empty());
}

#[test]
fn contract_creation_contributes_nothing() {
    let receipts = vec![receipt(None, 1, vec![queued(1)])];
    assert!(filter_events(receipts, &MESSENGER, EventStream::MessageQueue).is_empty());
}

#[test]
fn matching_receipts_keep_order_and_hash() {
    let receipts = vec![
        receipt(Some(MESSENGER), 1, vec![queued(4), ChainEvent::Unrecognized, queued(5)]),
        receipt(Some(OTHER), 2, vec![queued(9)]),
        receipt(Some(MESSENGER), 3, vec![ChainEvent::CommitBatch { batch_index: 1 }, queued(6)]),
    ];
    let found = filter_events(receipts, &MESSENGER, EventStream::MessageQueue);
    assert_eq!(queue_indexes(&found), vec![(4, 1), (5, 1), (6, 3)]);
}

#[test]
fn rollup_stream_keeps_batch_events() {
    let receipts = vec![receipt(
        Some(MESSENGER),
        7,
        vec![
            ChainEvent::CommitBatch { batch_index: 10 },
            queued(1),
            ChainEvent::RevertBatch { batch_index: 10 },
            ChainEvent::Unrecognized,
            ChainEvent::FinalizeBatch { batch_index: 9 },
            ChainEvent::CommitBatch { batch_index: 11 },
        ],
    )];
    let found = filter_events(receipts, &MESSENGER, EventStream::Rollup);
    assert_eq!(found.len(), 4);
    assert_eq!(committed_batches(&found), vec![(10, [7; 32]), (11, [7; 32])]);
}

#[test]
fn message_entries_of_events() {
    let receipts = vec![receipt(Some(MESSENGER), 1, vec![queued(3), queued(12)])];
    let found = filter_events(receipts, &MESSENGER, EventStream::MessageQueue);
    let entries = message_entries(found);
    let keys: Vec<String> = entries.iter().map(|e| e.key.clone()).collect();
    assert_eq!(keys, vec!["L13".to_string(), "L112".to_string()]);
}

#[test]
fn upsert_of_same_message_is_idempotent() {
    let once = message_entries(filter_events(
        vec![receipt(Some(MESSENGER), 1, vec![queued(8)])],
        &MESSENGER,
        EventStream::MessageQueue,
    ));
    let twice = message_entries(filter_events(
        vec![receipt(Some(MESSENGER), 1, vec![queued(8)]), receipt(Some(MESSENGER), 2, vec![queued(8)])],
        &MESSENGER,
        EventStream::MessageQueue,
    ));
    let mut store_once = HashMap::new();
    for e in once {
        store_once.insert(e.key, e.value);
    }
    let mut store_twice = HashMap::new();
    for e in twice {
        store_twice.insert(e.key, e.value);
    }
    assert_eq!(store_once, store_twice);
}

#[test]
fn block_entries_of_message_queue() {
    let receipts = vec![
        receipt(Some(OTHER), 1, vec![queued(1)]),
        receipt(Some(MESSENGER), 2, vec![queued(2), ChainEvent::CommitBatch { batch_index: 0 }]),
    ];
    let entries = l1_sync::events::message_block_entries(receipts, &MESSENGER);
    assert_eq!(entries.len(), 1);
    assert_eq!(entries[0].key, "L12");
}
