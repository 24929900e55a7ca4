//! Aggregation of the filtered data of one block, and of batches of consecutive blocks.
use std::sync::Arc;

use vstd::prelude::*;

use crate::filter::{Filter, selected_events, selected_transactions};
use crate::ids::{BlockStatus, GlobalBlockId};
use crate::model::{
    Block, BlockHeader, BlockView, Event, EventView, StateUpdate, Transaction,
    TransactionReceipt, TransactionReceiptView, TransactionView, events_view, receipt_events,
    receipts_view, transactions_view,
};
use crate::storage::StorageReader;

verus! {

pub open spec fn blocks_view(s: Seq<Block>) -> Seq<BlockView> {
    s.map_values(|b: Block| b@)
}

/// The model of a result that may carry a block.
pub open spec fn block_result_view<E>(r: Result<Option<Block>, E>) -> Result<Option<BlockView>, E> {
    match r {
        Ok(Some(b)) => Ok(Some(b@)),
        Ok(None) => Ok(None),
        Err(e) => Err(e),
    }
}

/// The model of a result that may carry a batch and its cursor.
pub open spec fn batch_result_view<E>(r: Result<(Vec<Block>, GlobalBlockId), E>) -> Result<
    (Seq<BlockView>, GlobalBlockId),
    E,
> {
    match r {
        Ok((blocks, cursor)) => Ok((blocks_view(blocks@), cursor)),
        Err(e) => Err(e),
    }
}

/// Puts `prefix` in front of the blocks of a batch outcome; errors pass unchanged.
pub open spec fn prepend_blocks<E>(
    prefix: Seq<BlockView>,
    r: Result<(Seq<BlockView>, GlobalBlockId), E>,
) -> Result<(Seq<BlockView>, GlobalBlockId), E> {
    match r {
        Ok((rest, cursor)) => Ok((prefix + rest, cursor)),
        Err(e) => Err(e),
    }
}

/// What `aggregate_batch` returns when it walks from `current` with `remaining` steps
/// left, collecting blocks whose status is `status`; `data` and `successor` give what
/// aggregating a block and stepping to the next block return.
///
/// The walk stops at a block that has no data (cursor: that block), at a block of
/// another status (cursor: that block, not collected), at the tip of the chain
/// (cursor: the tip, collected), or once `remaining` blocks were examined (cursor: the
/// last block examined). An error of any read ends the whole walk with that error.
pub open spec fn batch_outcome<E>(
    data: spec_fn(GlobalBlockId) -> Result<Option<BlockView>, E>,
    successor: spec_fn(GlobalBlockId) -> Result<Option<GlobalBlockId>, E>,
    current: GlobalBlockId,
    remaining: nat,
    status: BlockStatus,
) -> Result<(Seq<BlockView>, GlobalBlockId), E>
    decreases remaining,
{
    if remaining == 0 {
        Ok((Seq::empty(), current))
    } else {
        match data(current) {
            Err(e) => Err(e),
            Ok(None) => Ok((Seq::empty(), current)),
            Ok(Some(b)) => if b.status != status {
                Ok((Seq::empty(), current))
            } else if remaining == 1 {
                Ok((seq![b], current))
            } else {
                match successor(current) {
                    Err(e) => Err(e),
                    Ok(None) => Ok((seq![b], current)),
                    Ok(Some(next)) => prepend_blocks(
                        seq![b],
                        batch_outcome(data, successor, next, (remaining - 1) as nat, status),
                    ),
                }
            },
        }
    }
}

proof fn lemma_prepend_nothing<E>(r: Result<(Seq<BlockView>, GlobalBlockId), E>)
    ensures
        prepend_blocks(Seq::empty(), r) == r,
{
    if let Ok((rest, cursor)) = r {
        assert(Seq::<BlockView>::empty() + rest =~= rest);
    }
}

/// A source of filtered block data that can walk the canonical chain.
pub trait BlockDataAggregator {
    type Error;

    /// What `aggregate_for_block` returns for `id`.
    spec fn block_data(&self, id: GlobalBlockId) -> Result<Option<BlockView>, Self::Error>;

    /// What `next_block` returns for `id`.
    spec fn successor(&self, id: GlobalBlockId) -> Result<Option<GlobalBlockId>, Self::Error>;

    /// The data of the given block, or `None` if there is none.
    fn aggregate_for_block(&self, block_id: &GlobalBlockId) -> (r: Result<
        Option<Block>,
        Self::Error,
    >)
        ensures
            block_result_view(r) == self.block_data(*block_id),
    ;

    /// The id of the block that follows `block_id` on the canonical chain, if known.
    fn next_block(&self, block_id: &GlobalBlockId) -> (r: Result<
        Option<GlobalBlockId>,
        Self::Error,
    >)
        ensures
            r == self.successor(*block_id),
    ;

    /// Collects the data of up to `size` consecutive blocks of status `status`, starting
    /// at `starting_block`, and the id to resume from.
    fn aggregate_batch(
        &self,
        starting_block: &GlobalBlockId,
        size: usize,
        status: BlockStatus,
    ) -> (r: Result<(Vec<Block>, GlobalBlockId), Self::Error>)
        ensures
            batch_result_view(r) == batch_outcome(
                |id: GlobalBlockId| self.block_data(id),
                |id: GlobalBlockId| self.successor(id),
                *starting_block,
                size as nat,
                status,
            ),
    {
        let mut blocks: Vec<Block> = Vec::with_capacity(size);
        let mut current_block = *starting_block;
        let mut i: usize = 0;
        let ghost data = |id: GlobalBlockId| self.block_data(id);
        let ghost successor = |id: GlobalBlockId| self.successor(id);
        proof {
            lemma_prepend_nothing(batch_outcome(data, successor, *starting_block, size as nat, status));
            assert(blocks_view(blocks@) =~= Seq::<BlockView>::empty());
        }
        while i < size
            invariant
                i <= size,
                data == (|id: GlobalBlockId| self.block_data(id)),
                successor == (|id: GlobalBlockId| self.successor(id)),
                batch_outcome(data, successor, *starting_block, size as nat, status) == prepend_blocks(
                    blocks_view(blocks@),
                    batch_outcome(data, successor, current_block, (size - i) as nat, status),
                ),
            decreases size - i,
        {
            let ghost prefix = blocks_view(blocks@);
            let ghost step = batch_outcome(data, successor, current_block, (size - i) as nat, status);
            match self.aggregate_for_block(&current_block) {
                Err(e) => return Err(e),
                Ok(None) => {
                    assert(blocks_view(blocks@) + Seq::<BlockView>::empty() =~= blocks_view(
                        blocks@,
                    ));
                    return Ok((blocks, current_block));
                },
                Ok(Some(block)) => {
                    if block.status() != status {
                        assert(blocks_view(blocks@) + Seq::<BlockView>::empty() =~= blocks_view(
                            blocks@,
                        ));
                        return Ok((blocks, current_block));
                    }
                    let ghost b = block@;
                    blocks.push(block);
                    assert(blocks_view(blocks@) =~= prefix + seq![b]);
                },
            }
            if i + 1 == size {
                return Ok((blocks, current_block));
            }
            match self.next_block(&current_block) {
                Err(e) => return Err(e),
                Ok(None) => return Ok((blocks, current_block)),
                Ok(Some(block_id)) => {
                    current_block = block_id;
                },
            }
            i = i + 1;
            proof {
                let b = blocks_view(blocks@).last();
                match batch_outcome(data, successor, current_block, (size - i) as nat, status) {
                    Ok((rest, cursor)) => {
                        assert(prefix + (seq![b] + rest) =~= blocks_view(blocks@) + rest);
                    },
                    Err(e) => {},
                }
            }
        }
        assert(blocks_view(blocks@) + Seq::<BlockView>::empty() =~= blocks_view(blocks@));
        Ok((blocks, current_block))
    }
}

} // verus!

verus! {

/// The header that a block record carries: read only when the filter asks for headers.
pub open spec fn header_read<R: StorageReader>(storage: R, filter: Filter, id: GlobalBlockId) -> Result<
    Option<BlockHeader>,
    R::Error,
> {
    if filter.header is Some {
        storage.header_of(id)
    } else {
        Ok(None)
    }
}

/// What a record keeps of the transactions `body`: none without transaction filters,
/// else those that some filter selects, in their order.
pub open spec fn kept_transactions(filter: Filter, body: Seq<TransactionView>) -> Seq<
    TransactionView,
> {
    if filter.transactions@.len() == 0 {
        Seq::empty()
    } else {
        selected_transactions(filter.transactions@, body)
    }
}

/// What a record keeps of the events of `receipts`: none without event filters, else
/// those that some filter selects, in receipt order and then in emission order.
pub open spec fn kept_events(filter: Filter, receipts: Seq<TransactionReceiptView>) -> Seq<
    EventView,
> {
    if filter.events@.len() == 0 {
        Seq::empty()
    } else {
        selected_events(filter.events@, receipt_events(receipts))
    }
}

/// The transactions that a record carries when the body is read only on demand: without
/// transaction filters the body is not read.
pub open spec fn transactions_read<R: StorageReader>(
    storage: R,
    filter: Filter,
    id: GlobalBlockId,
) -> Result<Seq<TransactionView>, R::Error> {
    if filter.transactions@.len() == 0 {
        Ok(Seq::empty())
    } else {
        match storage.body_of(id) {
            Ok(body) => Ok(kept_transactions(filter, body)),
            Err(e) => Err(e),
        }
    }
}

/// The events that a record carries when the receipts are read only on demand: without
/// event filters the receipts are not read.
pub open spec fn events_read<R: StorageReader>(storage: R, filter: Filter, id: GlobalBlockId) -> Result<
    Seq<EventView>,
    R::Error,
> {
    if filter.events@.len() == 0 {
        Ok(Seq::empty())
    } else {
        match storage.receipts_of(id) {
            Ok(receipts) => Ok(kept_events(filter, receipts)),
            Err(e) => Err(e),
        }
    }
}

/// The record of block `id` under `filter`.
///
/// The status is read first. Where storage tracks one, the block is present: the header
/// is read only if the filter asks for headers, the body only if there are transaction
/// filters, the receipts only if there are event filters, in that order.
///
/// Where storage tracks no status, its header, body and receipts are all read, in that
/// order, to learn whether storage holds the block. With no header, an empty body and no
/// receipts it holds nothing and the block has no data (`None`). Otherwise the record has
/// status `Unspecified` and keeps what the filter selects of what was read, which may be
/// nothing.
///
/// Each artifact is read at most once, and the first failing read gives the error.
/// Receipts and state updates are never included.
pub open spec fn block_outcome<R: StorageReader>(storage: R, filter: Filter, id: GlobalBlockId) -> Result<
    Option<BlockView>,
    R::Error,
> {
    match storage.status_of(id) {
        Err(e) => Err(e),
        Ok(Some(status)) => match header_read(storage, filter, id) {
            Err(e) => Err(e),
            Ok(header) => match transactions_read(storage, filter, id) {
                Err(e) => Err(e),
                Ok(transactions) => match events_read(storage, filter, id) {
                    Err(e) => Err(e),
                    Ok(events) => Ok(
                        Some(
                            BlockView {
                                status,
                                header,
                                state_update: None,
                                transactions,
                                receipts: Seq::empty(),
                                events,
                            },
                        ),
                    ),
                },
            },
        },
        Ok(None) => match storage.header_of(id) {
            Err(e) => Err(e),
            Ok(header) => match storage.body_of(id) {
                Err(e) => Err(e),
                Ok(body) => match storage.receipts_of(id) {
                    Err(e) => Err(e),
                    Ok(receipts) => if header is None && body.len() == 0 && receipts.len() == 0 {
                        Ok(None)
                    } else {
                        Ok(
                            Some(
                                BlockView {
                                    status: BlockStatus::Unspecified,
                                    header: if filter.header is Some {
                                        header
                                    } else {
                                        None
                                    },
                                    state_update: None,
                                    transactions: kept_transactions(filter, body),
                                    receipts: Seq::empty(),
                                    events: kept_events(filter, receipts),
                                },
                            ),
                        )
                    },
                },
            },
        },
    }
}

/// The id that follows `id`: the canonical block one height up, if storage has one.
pub open spec fn successor_outcome<R: StorageReader>(storage: R, id: GlobalBlockId) -> Result<
    Option<GlobalBlockId>,
    R::Error,
> {
    if id.number < u64::MAX {
        storage.canonical_of((id.number + 1) as u64)
    } else {
        Ok(None)
    }
}

/// Aggregates block data read from a store, under one filter.
pub struct DatabaseBlockDataAggregator<R: StorageReader> {
    storage: Arc<R>,
    filter: Filter,
}

impl<R: StorageReader> DatabaseBlockDataAggregator<R> {
    pub closed spec fn spec_storage(&self) -> R {
        *self.storage
    }

    pub closed spec fn spec_filter(&self) -> Filter {
        self.filter
    }

    pub fn new(storage: Arc<R>, filter: Filter) -> (r: Self)
        ensures
            r.spec_storage() == *storage,
            r.spec_filter() == filter,
    {
        DatabaseBlockDataAggregator { storage, filter }
    }

    /// The block's status; `Unspecified` where storage tracks none.
    pub fn status(&self, block_id: &GlobalBlockId) -> (r: Result<BlockStatus, R::Error>)
        ensures
            match self.spec_storage().status_of(*block_id) {
                Ok(Some(s)) => r == Ok::<BlockStatus, R::Error>(s),
                Ok(None) => r == Ok::<BlockStatus, R::Error>(BlockStatus::Unspecified),
                Err(e) => r == Err::<BlockStatus, R::Error>(e),
            },
    {
        let status = self.storage.read_status(block_id)?;
        match status {
            Some(s) => Ok(s),
            None => Ok(BlockStatus::Unspecified),
        }
    }

    pub fn header(&self, block_id: &GlobalBlockId) -> (r: Result<Option<BlockHeader>, R::Error>)
        ensures
            r == header_read(self.spec_storage(), self.spec_filter(), *block_id),
    {
        if self.filter.header.is_some() {
            self.storage.read_header(block_id)
        } else {
            Ok(None)
        }
    }

    /// The transactions of `body` that some transaction filter selects, in their order.
    pub fn select_transactions(&self, body: &Vec<Transaction>) -> (r: Vec<Transaction>)
        ensures
            transactions_view(r@) == selected_transactions(
                self.spec_filter().transactions@,
                transactions_view(body@),
            ),
    {
        let ghost filters = self.filter.transactions@;
        let ghost bv = transactions_view(body@);
        let mut transactions: Vec<Transaction> = Vec::new();
        for i in 0..body.len()
            invariant
                filters == self.filter.transactions@,
                bv == transactions_view(body@),
                transactions_view(transactions@) == selected_transactions(
                    filters,
                    bv.take(i as int),
                ),
        {
            let tx = &body[i];
            if self.filter_transaction(tx) {
                transactions.push(tx.clone());
            }
            proof {
                assert(bv.take(i + 1) =~= bv.take(i as int).push(tx@));
                bv.take(i as int).lemma_filter_push(
                    tx@,
                    |t: TransactionView| crate::filter::any_transaction_filter(filters, t),
                );
                assert(transactions_view(transactions@) =~= selected_transactions(
                    filters,
                    bv.take(i + 1),
                ));
            }
        }
        assert(bv.take(body.len() as int) =~= bv);
        transactions
    }

    pub fn transactions(&self, block_id: &GlobalBlockId) -> (r: Result<Vec<Transaction>, R::Error>)
        ensures
            match r {
                Ok(v) => transactions_read(self.spec_storage(), self.spec_filter(), *block_id)
                    == Ok::<Seq<TransactionView>, R::Error>(transactions_view(v@)),
                Err(e) => transactions_read(self.spec_storage(), self.spec_filter(), *block_id)
                    == Err::<Seq<TransactionView>, R::Error>(e),
            },
    {
        if self.filter.transactions.len() == 0 {
            let none: Vec<Transaction> = Vec::new();
            assert(transactions_view(none@) =~= Seq::empty());
            return Ok(none);
        }
        let body = self.storage.read_body(block_id)?;
        Ok(self.select_transactions(&body))
    }

    /// Receipts are not served: always none.
    pub fn receipts(&self, block_id: &GlobalBlockId) -> (r: Result<
        Vec<TransactionReceipt>,
        R::Error,
    >)
        ensures
            r matches Ok(v) && v@.len() == 0,
    {
        Ok(Vec::new())
    }

    /// The events of `receipts` that some event filter selects, in receipt order and then
    /// in emission order.
    pub fn select_events(&self, receipts: &Vec<TransactionReceipt>) -> (r: Vec<Event>)
        ensures
            events_view(r@) == selected_events(
                self.spec_filter().events@,
                receipt_events(receipts_view(receipts@)),
            ),
    {
        let ghost filters = self.filter.events@;
        let ghost pred = |e: EventView| crate::filter::any_event_filter(filters, e);
        let ghost rv = receipts_view(receipts@);
        let mut events: Vec<Event> = Vec::new();
        for i in 0..receipts.len()
            invariant
                filters == self.filter.events@,
                pred == (|e: EventView| crate::filter::any_event_filter(filters, e)),
                rv == receipts_view(receipts@),
                events_view(events@) == selected_events(filters, receipt_events(rv.take(i as int))),
        {
            let receipt = &receipts[i];
            let ghost before = events_view(events@);
            let ghost ev = events_view(receipt.events@);
            for j in 0..receipt.events.len()
                invariant
                    filters == self.filter.events@,
                    pred == (|e: EventView| crate::filter::any_event_filter(filters, e)),
                    ev == events_view(receipt.events@),
                    events_view(events@) == before + selected_events(filters, ev.take(j as int)),
            {
                let event = &receipt.events[j];
                let ghost mid = events_view(events@);
                if self.filter.matches_event(event) {
                    events.push(event.clone());
                    assert(events_view(events@) =~= mid.push(event@));
                }
                proof {
                    assert(ev.take(j + 1) =~= ev.take(j as int).push(event@));
                    ev.take(j as int).lemma_filter_push(event@, pred);
                    assert(events_view(events@) =~= before + selected_events(filters, ev.take(j + 1)));
                }
            }
            proof {
                assert(ev.take(receipt.events.len() as int) =~= ev);
                let heads = rv.take(i as int);
                assert(rv.take(i + 1) =~= heads.push(rv[i as int]));
                assert(rv[i as int].events == ev);
                let lists = heads.map_values(|r: TransactionReceiptView| r.events);
                assert(rv.take(i + 1).map_values(|r: TransactionReceiptView| r.events) =~= lists.push(
                    ev,
                ));
                lists.lemma_flatten_push(ev);
                Seq::filter_distributes_over_add(lists.flatten(), ev, pred);
            }
        }
        assert(rv.take(receipts.len() as int) =~= rv);
        events
    }

    pub fn events(&self, block_id: &GlobalBlockId) -> (r: Result<Vec<Event>, R::Error>)
        ensures
            match r {
                Ok(v) => events_read(self.spec_storage(), self.spec_filter(), *block_id) == Ok::<
                    Seq<EventView>,
                    R::Error,
                >(events_view(v@)),
                Err(e) => events_read(self.spec_storage(), self.spec_filter(), *block_id) == Err::<
                    Seq<EventView>,
                    R::Error,
                >(e),
            },
    {
        if self.filter.events.len() == 0 {
            let none: Vec<Event> = Vec::new();
            assert(events_view(none@) =~= Seq::empty());
            return Ok(none);
        }
        let receipts = self.storage.read_receipts(block_id)?;
        Ok(self.select_events(&receipts))
    }

    /// State updates are not served: always none.
    pub fn state_update(&self, block_id: &GlobalBlockId) -> (r: Result<
        Option<StateUpdate>,
        R::Error,
    >)
        ensures
            r matches Ok(None),
    {
        Ok(None)
    }

    /// Whether some transaction filter selects `tx`.
    pub fn filter_transaction(&self, tx: &Transaction) -> (r: bool)
        ensures
            r == crate::filter::any_transaction_filter(self.spec_filter().transactions@, tx@),
    {
        self.filter.matches_transaction(tx)
    }
}

impl<R: StorageReader> BlockDataAggregator for DatabaseBlockDataAggregator<R> {
    type Error = R::Error;

    open spec fn block_data(&self, id: GlobalBlockId) -> Result<Option<BlockView>, R::Error> {
        block_outcome(self.spec_storage(), self.spec_filter(), id)
    }

    open spec fn successor(&self, id: GlobalBlockId) -> Result<Option<GlobalBlockId>, R::Error> {
        successor_outcome(self.spec_storage(), id)
    }

    fn aggregate_for_block(&self, block_id: &GlobalBlockId) -> (r: Result<
        Option<Block>,
        R::Error,
    >) {
        // The status is read as tracked, not through `status()`: an untracked status is
        // what calls for the reads that tell whether storage holds the block at all.
        let tracked_status = self.storage.read_status(block_id)?;
        match tracked_status {
            Some(status) => {
                let header = self.header(block_id)?;
                let transactions = self.transactions(block_id)?;
                let receipts = self.receipts(block_id)?;
                let events = self.events(block_id)?;
                let state_update = self.state_update(block_id)?;
                let block = Block { status, header, state_update, transactions, receipts, events };
                assert(receipts_view(block.receipts@) =~= Seq::empty());
                Ok(Some(block))
            },
            None => {
                let stored_header = self.storage.read_header(block_id)?;
                let body = self.storage.read_body(block_id)?;
                let stored_receipts = self.storage.read_receipts(block_id)?;
                if stored_header.is_none() && body.len() == 0 && stored_receipts.len() == 0 {
                    return Ok(None);
                }
                let header = if self.filter.header.is_some() {
                    stored_header
                } else {
                    None
                };
                let transactions = if self.filter.transactions.len() == 0 {
                    let none: Vec<Transaction> = Vec::new();
                    assert(transactions_view(none@) =~= Seq::empty());
                    none
                } else {
                    self.select_transactions(&body)
                };
                let events = if self.filter.events.len() == 0 {
                    let none: Vec<Event> = Vec::new();
                    assert(events_view(none@) =~= Seq::empty());
                    none
                } else {
                    self.select_events(&stored_receipts)
                };
                let receipts = self.receipts(block_id)?;
                let state_update = self.state_update(block_id)?;
                let block = Block {
                    status: BlockStatus::Unspecified,
                    header,
                    state_update,
                    transactions,
                    receipts,
                    events,
                };
                assert(receipts_view(block.receipts@) =~= Seq::empty());
                Ok(Some(block))
            },
        }
    }

    fn next_block(&self, block_id: &GlobalBlockId) -> (r: Result<Option<GlobalBlockId>, R::Error>) {
        if block_id.number() == u64::MAX {
            return Ok(None);
        }
        self.storage.canonical_block_id(block_id.number() + 1)
    }
}

} // verus!
