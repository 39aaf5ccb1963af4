//! Incremental ingestion of the message-queue and rollup contract logs of a
//! source chain into a key-value store, with checkpointed progress.

pub mod codec;
pub mod calldata;
pub mod records;
pub mod events;
pub mod scan;
