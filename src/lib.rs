//! Aggregation of filtered StarkNet block data read from a canonical block store.
//!
//! A [`Filter`] says which headers, transactions and events a consumer wants. A
//! [`DatabaseBlockDataAggregator`] reads one block's artifacts through a [`StorageReader`]
//! and keeps what the filter selects; [`BlockDataAggregator::aggregate_batch`] walks the
//! canonical chain from a cursor and collects consecutive blocks of one status.
mod aggregate;
mod filter;
mod ids;
mod laws;
mod model;
mod storage;

pub use aggregate::{
    BlockDataAggregator, DatabaseBlockDataAggregator, batch_outcome, batch_result_view,
    block_outcome, block_result_view, blocks_view, events_read, header_read, kept_events,
    kept_transactions, prepend_blocks,
    successor_outcome, transactions_read,
};
pub use filter::{
    EventFilter, Filter, HeaderFilter, StateUpdateFilter, TransactionFilter, any_event_filter,
    any_transaction_filter, field_matches, has_prefix, is_prefix, selected_events,
    selected_transactions,
};
pub use ids::{BlockStatus, FieldElement, GlobalBlockId};
pub use laws::{
    law_absent_start_is_retried, law_batch_along_chain, law_error_discards_batch,
    law_event_filters_are_alternatives, law_events_keep_receipt_order,
    law_no_data_iff_nothing_stored, law_no_transaction_filters,
    law_transaction_filters_are_alternatives,
};
pub use model::{
    Block, BlockHeader, BlockView, Event, EventView, StateUpdate, Transaction, TransactionKind,
    TransactionKindView, TransactionReceipt, TransactionReceiptView, TransactionView,
    copy_events, copy_fields, copy_receipts, copy_transactions, events_view, receipt_events,
    receipts_view, transactions_view,
};
pub use storage::{
    Artifact, InMemoryStorage, StorageFault, StorageReader, StoredBlock, is_first_at_height,
    is_first_block,
};
