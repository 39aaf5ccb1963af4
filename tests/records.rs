use l1_sync::codec::ChunkBlockRange;
use l1_sync::records::{batch_entry, L1MessageTx, QueueTransactionEvent};

fn sample_event() -> QueueTransactionEvent {
    let mut gas_limit = [0u8; 32];
    gas_limit[31] = 0x0f;
    QueueTransactionEvent {
        sender: [0x22; 20],
        target: [0x11; 20],
        value: [0u8; 32],
        queue_index: 1,
        gas_limit,
        data: vec![],
    }
}

#[test]
fn message_record_encoding() {
    let message = L1MessageTx::from_event(sample_event());
    let mut expected = vec![0xee, 0x01, 0x0f, 0x94];
    expected.extend([0x11u8; 20]);
    expected.extend([0x80, 0x80, 0x94]);
    expected.extend([0x22u8; 20]);
    assert_eq!(message.encode(), expected);
}

#[test]
fn message_record_with_data_and_large_index() {
    let mut event = sample_event();
    event.queue_index = 1000;
    event.data = vec![0xab, 0xcd];
    event.value[31] = 0x80;
    let message = L1MessageTx::from_event(event);
    let encoded = message.encode();
    let mut payload = vec![0x82, 0x03, 0xe8, 0x0f, 0x94];
    payload.extend([0x11u8; 20]);
    payload.extend([0x81, 0x80, 0x82, 0xab, 0xcd, 0x94]);
    payload.extend([0x22u8; 20]);
    let mut expected = vec![0xc0 + payload.len() as u8];
    expected.extend(payload);
    assert_eq!(encoded, expected);
}

#[test]
fn message_store_entry() {
    let mut event = sample_event();
    event.queue_index = 42;
    let message = L1MessageTx::from_event(event);
    let entry = message.store_entry();
    assert_eq!(entry.key, "L142");
    assert_eq!(entry.value, message.encode());
}

#[test]
fn batch_entry_single_range() {
    let entry = batch_entry(7, &vec![ChunkBlockRange { start_block_number: 5, end_block_number: 7 }]);
    assert_eq!(entry.key, "R-bcr7");
    assert_eq!(entry.value, vec![0xc3, 0xc2, 0x05, 0x07]);
}

#[test]
fn batch_entry_two_ranges() {
    let ranges = vec![
        ChunkBlockRange { start_block_number: 1, end_block_number: 2 },
        ChunkBlockRange { start_block_number: 300, end_block_number: 400 },
    ];
    let entry = batch_entry(0, &ranges);
    assert_eq!(entry.key, "R-bcr0");
    assert_eq!(
        entry.value,
        vec![0xca, 0xc2, 0x01, 0x02, 0xc6, 0x82, 0x01, 0x2c, 0x82, 0x01, 0x90]
    );
}

#[test]
fn batch_entry_without_ranges() {
    let entry = batch_entry(18446744073709551615, &vec![]);
    assert_eq!(entry.key, "R-bcr18446744073709551615");
    assert_eq!(entry.value, vec![0xc0]);
}
