use std::sync::Arc;

use starknet_aggregate::{
    Artifact, Block, BlockDataAggregator, BlockHeader, BlockStatus, DatabaseBlockDataAggregator,
    Event, EventFilter, FieldElement, Filter, GlobalBlockId, HeaderFilter, InMemoryStorage,
    StorageFault, StoredBlock, Transaction, TransactionFilter, TransactionKind,
    TransactionReceipt, has_prefix,
};

fn fe(n: u64) -> FieldElement {
    FieldElement::from_u64(n)
}

fn id(n: u64) -> GlobalBlockId {
    GlobalBlockId::new(n, fe(1000 + n))
}

fn invoke(hash: u64, contract: u64, calldata: Vec<u64>) -> Transaction {
    Transaction {
        hash: fe(hash),
        kind: TransactionKind::Invoke {
            contract_address: fe(contract),
            entry_point_selector: fe(7),
            calldata: calldata.into_iter().map(fe).collect(),
        },
    }
}

fn event(from: u64, key: u64) -> Event {
    Event { from_address: fe(from), keys: vec![fe(key)], data: vec![] }
}

fn header(n: u64) -> BlockHeader {
    BlockHeader {
        block_hash: id(n).hash,
        parent_block_hash: fe(999 + n),
        block_number: n,
        sequencer_address: fe(1),
        new_root: fe(2),
        timestamp: 1_700_000_000 + n,
    }
}

fn stored(n: u64, status: BlockStatus) -> StoredBlock {
    StoredBlock {
        id: id(n),
        status: Some(status),
        header: Some(header(n)),
        body: vec![invoke(10 * n, 1, vec![]), invoke(10 * n + 1, 2, vec![])],
        receipts: vec![TransactionReceipt {
            transaction_hash: fe(10 * n),
            transaction_index: 0,
            events: vec![event(1, n)],
        }],
    }
}

fn chain(statuses: &[BlockStatus]) -> InMemoryStorage {
    let blocks: Vec<StoredBlock> =
        statuses.iter().enumerate().map(|(n, s)| stored(n as u64, *s)).collect();
    let canonical = blocks.iter().map(|b| b.id).collect();
    InMemoryStorage { blocks, canonical, faults: vec![] }
}

fn no_filter() -> Filter {
    Filter { header: None, transactions: vec![], events: vec![], state_update: None }
}

fn all_events_filter() -> Filter {
    Filter {
        header: None,
        transactions: vec![],
        events: vec![EventFilter { from_address: None, keys: vec![], data: vec![] }],
        state_update: None,
    }
}

fn aggregator(storage: InMemoryStorage, filter: Filter) -> DatabaseBlockDataAggregator<InMemoryStorage> {
    DatabaseBlockDataAggregator::new(Arc::new(storage), filter)
}

fn invoke_filter(contract: Option<u64>, calldata: Vec<u64>) -> TransactionFilter {
    TransactionFilter::Invoke {
        contract_address: contract.map(fe),
        entry_point_selector: None,
        calldata: calldata.into_iter().map(fe).collect(),
    }
}

fn numbers(blocks: &[Block]) -> Vec<u64> {
    blocks.iter().map(|b| b.header.as_ref().map(|h| h.block_number).unwrap_or(u64::MAX)).collect()
}

fn with_header(mut f: Filter) -> Filter {
    f.header = Some(HeaderFilter {});
    f
}

#[test]
fn no_transaction_filters_skip_the_body() {
    let mut storage = chain(&[BlockStatus::Pending]);
    // A read of the body would fail: it must not happen.
    storage.faults.push(StorageFault { artifact: Artifact::Body, number: 0 });
    let agg = aggregator(storage, all_events_filter());
    let block = agg.aggregate_for_block(&id(0)).unwrap().unwrap();
    assert!(block.transactions.is_empty());
    assert_eq!(block.events, vec![event(1, 0)]);
    assert_eq!(block.status, BlockStatus::Pending);
}

#[test]
fn transaction_filters_are_alternatives() {
    let mut storage = chain(&[BlockStatus::Pending]);
    storage.blocks[0].body =
        vec![invoke(1, 100, vec![]), invoke(2, 200, vec![]), invoke(3, 300, vec![])];
    let mut filter = no_filter();
    filter.transactions = vec![invoke_filter(Some(100), vec![]), invoke_filter(Some(300), vec![])];
    let agg = aggregator(storage, filter);
    let block = agg.aggregate_for_block(&id(0)).unwrap().unwrap();
    assert_eq!(block.transactions, vec![invoke(1, 100, vec![]), invoke(3, 300, vec![])]);
}

#[test]
fn event_filters_are_alternatives() {
    let mut storage = chain(&[BlockStatus::Pending]);
    storage.blocks[0].receipts[0].events = vec![event(1, 5), event(2, 6), event(3, 7)];
    let mut filter = no_filter();
    filter.events = vec![
        EventFilter { from_address: Some(fe(2)), keys: vec![], data: vec![] },
        EventFilter { from_address: None, keys: vec![fe(7)], data: vec![] },
    ];
    let agg = aggregator(storage, filter);
    let block = agg.aggregate_for_block(&id(0)).unwrap().unwrap();
    assert_eq!(block.events, vec![event(2, 6), event(3, 7)]);
}

#[test]
fn batch_stops_where_status_changes() {
    let storage = chain(&[
        BlockStatus::Pending,
        BlockStatus::Pending,
        BlockStatus::AcceptedOnL2,
        BlockStatus::AcceptedOnL2,
    ]);
    let agg = aggregator(storage, with_header(no_filter()));
    let (blocks, cursor) = agg.aggregate_batch(&id(0), 10, BlockStatus::Pending).unwrap();
    assert_eq!(numbers(&blocks), vec![0, 1]);
    assert_eq!(cursor, id(2));
}

#[test]
fn batch_stops_at_the_tip() {
    let storage = chain(&[BlockStatus::AcceptedOnL1; 3]);
    let agg = aggregator(storage, with_header(no_filter()));
    let (blocks, cursor) = agg.aggregate_batch(&id(0), 10, BlockStatus::AcceptedOnL1).unwrap();
    assert_eq!(numbers(&blocks), vec![0, 1, 2]);
    assert_eq!(cursor, id(2));
}

#[test]
fn batch_stops_at_its_size() {
    let storage = chain(&[BlockStatus::AcceptedOnL2; 10]);
    let agg = aggregator(storage, with_header(no_filter()));
    let (blocks, cursor) = agg.aggregate_batch(&id(0), 4, BlockStatus::AcceptedOnL2).unwrap();
    assert_eq!(numbers(&blocks), vec![0, 1, 2, 3]);
    assert_eq!(cursor, id(3));
}

#[test]
fn batch_at_an_absent_block_is_empty() {
    let storage = chain(&[BlockStatus::Pending; 3]);
    let agg = aggregator(storage, all_events_filter());
    assert_eq!(agg.aggregate_for_block(&id(5)), Ok(None));
    let (blocks, cursor) = agg.aggregate_batch(&id(5), 10, BlockStatus::Pending).unwrap();
    assert!(blocks.is_empty());
    assert_eq!(cursor, id(5));
}

#[test]
fn events_keep_receipt_order() {
    let mut storage = chain(&[BlockStatus::Pending]);
    let e0 = event(1, 0);
    let e1 = event(1, 1);
    let e2 = event(2, 2);
    storage.blocks[0].receipts = vec![
        TransactionReceipt { transaction_hash: fe(1), transaction_index: 0, events: vec![e0.clone(), e1.clone()] },
        TransactionReceipt { transaction_hash: fe(2), transaction_index: 1, events: vec![e2.clone()] },
    ];
    let agg = aggregator(storage, all_events_filter());
    let block = agg.aggregate_for_block(&id(0)).unwrap().unwrap();
    assert_eq!(block.events, vec![e0, e1, e2]);
}

#[test]
fn storage_error_discards_the_batch() {
    let mut storage = chain(&[BlockStatus::Pending; 5]);
    storage.faults.push(StorageFault { artifact: Artifact::Receipts, number: 1 });
    let agg = aggregator(storage, all_events_filter());
    let r = agg.aggregate_batch(&id(0), 5, BlockStatus::Pending);
    assert_eq!(r, Err(StorageFault { artifact: Artifact::Receipts, number: 1 }));
}

#[test]
fn batch_of_size_zero_is_empty() {
    let storage = chain(&[BlockStatus::Pending; 2]);
    let agg = aggregator(storage, no_filter());
    let (blocks, cursor) = agg.aggregate_batch(&id(0), 0, BlockStatus::Pending).unwrap();
    assert!(blocks.is_empty());
    assert_eq!(cursor, id(0));
}

#[test]
fn header_only_when_asked() {
    let storage = chain(&[BlockStatus::Pending]);
    let agg = aggregator(storage.clone(), no_filter());
    let block = agg.aggregate_for_block(&id(0)).unwrap().unwrap();
    assert_eq!(block.header, None);
    let agg = aggregator(storage, with_header(no_filter()));
    let block = agg.aggregate_for_block(&id(0)).unwrap().unwrap();
    assert_eq!(block.header, Some(header(0)));
    assert_eq!(block.state_update, None);
    assert!(block.receipts.is_empty());
}

#[test]
fn untracked_status_reads_unspecified() {
    let mut storage = chain(&[BlockStatus::Pending]);
    storage.blocks[0].status = None;
    let agg = aggregator(storage, with_header(no_filter()));
    let block = agg.aggregate_for_block(&id(0)).unwrap().unwrap();
    assert_eq!(block.status, BlockStatus::Unspecified);
    assert_eq!(agg.status(&id(0)), Ok(BlockStatus::Unspecified));
}

#[test]
fn calldata_filter_is_a_prefix() {
    let mut storage = chain(&[BlockStatus::Pending]);
    storage.blocks[0].body = vec![
        invoke(1, 100, vec![5, 6, 7]),
        invoke(2, 100, vec![5]),
        invoke(3, 100, vec![6, 5]),
    ];
    let mut filter = no_filter();
    filter.transactions = vec![invoke_filter(None, vec![5, 6])];
    let agg = aggregator(storage, filter);
    let block = agg.aggregate_for_block(&id(0)).unwrap().unwrap();
    assert_eq!(block.transactions, vec![invoke(1, 100, vec![5, 6, 7])]);
}

#[test]
fn filter_of_another_kind_does_not_match() {
    let declare = TransactionFilter::Declare { class_hash: None, sender_address: None };
    assert!(!declare.matches(&invoke(1, 2, vec![])));
    let tx = Transaction {
        hash: fe(9),
        kind: TransactionKind::Declare { class_hash: fe(4), sender_address: fe(5) },
    };
    assert!(declare.matches(&tx));
    let wrong = TransactionFilter::Declare { class_hash: Some(fe(3)), sender_address: None };
    assert!(!wrong.matches(&tx));
}

#[test]
fn prefix_check() {
    assert!(has_prefix(&vec![fe(1), fe(2)], &vec![]));
    assert!(has_prefix(&vec![fe(1), fe(2)], &vec![fe(1)]));
    assert!(!has_prefix(&vec![fe(1), fe(2)], &vec![fe(2)]));
    assert!(!has_prefix(&vec![fe(1)], &vec![fe(1), fe(2)]));
}

#[test]
fn next_block_follows_the_canonical_chain() {
    let mut storage = chain(&[BlockStatus::Pending; 2]);
    // A competing block at height 1 that is not canonical.
    storage.blocks.push(StoredBlock { id: GlobalBlockId::new(1, fe(77)), ..stored(1, BlockStatus::Pending) });
    let agg = aggregator(storage, no_filter());
    assert_eq!(agg.next_block(&id(0)), Ok(Some(id(1))));
    assert_eq!(agg.next_block(&id(1)), Ok(None));
    assert_eq!(agg.next_block(&GlobalBlockId::new(u64::MAX, fe(0))), Ok(None));
}

#[test]
fn canonical_read_error_is_reported() {
    let mut storage = chain(&[BlockStatus::Pending; 3]);
    storage.faults.push(StorageFault { artifact: Artifact::CanonicalId, number: 2 });
    let agg = aggregator(storage, no_filter());
    let r = agg.aggregate_batch(&id(0), 5, BlockStatus::Pending);
    assert_eq!(r, Err(StorageFault { artifact: Artifact::CanonicalId, number: 2 }));
}

#[test]
fn status_read_error_is_reported() {
    let mut storage = chain(&[BlockStatus::Pending]);
    storage.faults.push(StorageFault { artifact: Artifact::Status, number: 0 });
    let agg = aggregator(storage, no_filter());
    assert_eq!(
        agg.aggregate_for_block(&id(0)),
        Err(StorageFault { artifact: Artifact::Status, number: 0 })
    );
}

#[test]
fn untracked_block_with_everything_filtered_out_is_a_record() {
    let mut storage = chain(&[BlockStatus::Pending]);
    storage.blocks[0].status = None;
    storage.blocks[0].header = None;
    storage.blocks[0].receipts = vec![];
    storage.blocks[0].body = vec![invoke(1, 100, vec![])];
    let agg = aggregator(storage, no_filter());
    let block = agg.aggregate_for_block(&id(0)).unwrap().unwrap();
    assert_eq!(block.status, BlockStatus::Unspecified);
    assert_eq!(block.header, None);
    assert!(block.transactions.is_empty());
    assert!(block.events.is_empty());
    assert!(block.receipts.is_empty());
    assert_eq!(block.state_update, None);
}

#[test]
fn untracked_block_keeps_what_the_filter_selects() {
    let mut storage = chain(&[BlockStatus::Pending]);
    storage.blocks[0].status = None;
    let mut filter = with_header(all_events_filter());
    filter.transactions = vec![invoke_filter(Some(2), vec![])];
    let agg = aggregator(storage, filter);
    let block = agg.aggregate_for_block(&id(0)).unwrap().unwrap();
    assert_eq!(block.status, BlockStatus::Unspecified);
    assert_eq!(block.header, Some(header(0)));
    assert_eq!(block.transactions, vec![invoke(1, 2, vec![])]);
    assert_eq!(block.events, vec![event(1, 0)]);
}

#[test]
fn block_known_only_by_status_is_a_record() {
    let mut storage = chain(&[BlockStatus::AcceptedOnL1]);
    storage.blocks[0].header = None;
    storage.blocks[0].body = vec![];
    storage.blocks[0].receipts = vec![];
    let agg = aggregator(storage, with_header(all_events_filter()));
    let block = agg.aggregate_for_block(&id(0)).unwrap().unwrap();
    assert_eq!(block.status, BlockStatus::AcceptedOnL1);
    assert_eq!(block.header, None);
    assert!(block.events.is_empty());
}

#[test]
fn untracked_block_presence_read_errors_are_reported() {
    let mut storage = chain(&[BlockStatus::Pending]);
    storage.blocks[0].status = None;
    storage.faults.push(StorageFault { artifact: Artifact::Body, number: 0 });
    let agg = aggregator(storage, no_filter());
    assert_eq!(
        agg.aggregate_for_block(&id(0)),
        Err(StorageFault { artifact: Artifact::Body, number: 0 })
    );
}
