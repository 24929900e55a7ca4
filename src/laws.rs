//! Properties of filtering, aggregation and batch traversal, proved over the models.
use vstd::prelude::*;

use crate::aggregate::{batch_outcome, block_outcome, events_read, transactions_read};
use crate::filter::{
    EventFilter, Filter, TransactionFilter, any_event_filter, any_transaction_filter,
    selected_events, selected_transactions,
};
use crate::ids::{BlockStatus, GlobalBlockId};
use crate::model::{
    BlockHeader, BlockView, EventView, TransactionReceiptView, TransactionView, receipt_events,
};
use crate::storage::StorageReader;

verus! {

/// Without transaction filters a block record has no transactions. A block whose body
/// holds transactions still gives a record, with none of them. Where storage tracks the
/// block's status the body plays no part in the result: two stores that agree on
/// everything else give the same record.
pub proof fn law_no_transaction_filters<R: StorageReader>(
    storage: R,
    other: R,
    filter: Filter,
    id: GlobalBlockId,
)
    requires
        filter.transactions@.len() == 0,
        other.status_of(id) == storage.status_of(id),
        other.header_of(id) == storage.header_of(id),
        other.receipts_of(id) == storage.receipts_of(id),
    ensures
        transactions_read(storage, filter, id) == Ok::<Seq<TransactionView>, R::Error>(
            Seq::empty(),
        ),
        block_outcome(storage, filter, id) matches Ok(Some(b)) ==> b.transactions.len() == 0,
        storage.status_of(id) is Ok && storage.header_of(id) is Ok && storage.receipts_of(id) is Ok
            && (storage.body_of(id) matches Ok(body) && body.len() > 0) ==> (block_outcome(
            storage,
            filter,
            id,
        ) matches Ok(Some(b)) && b.transactions.len() == 0),
        storage.status_of(id) matches Ok(Some(_)) ==> block_outcome(other, filter, id)
            == block_outcome(storage, filter, id),
{
}

/// Where every read of a block succeeds, aggregating it gives no data exactly when storage
/// holds nothing of it: no status, no header, no transaction and no receipt.
pub proof fn law_no_data_iff_nothing_stored<R: StorageReader>(
    storage: R,
    filter: Filter,
    id: GlobalBlockId,
    status: Option<BlockStatus>,
    header: Option<BlockHeader>,
    body: Seq<TransactionView>,
    receipts: Seq<TransactionReceiptView>,
)
    requires
        storage.status_of(id) == Ok::<Option<BlockStatus>, R::Error>(status),
        storage.header_of(id) == Ok::<Option<BlockHeader>, R::Error>(header),
        storage.body_of(id) == Ok::<Seq<TransactionView>, R::Error>(body),
        storage.receipts_of(id) == Ok::<Seq<TransactionReceiptView>, R::Error>(receipts),
    ensures
        block_outcome(storage, filter, id) is Ok,
        (block_outcome(storage, filter, id) == Ok::<Option<BlockView>, R::Error>(None)) <==> (
        status is None && header is None && body.len() == 0 && receipts.len() == 0),
{
}

/// With two transaction filters, a transaction is kept exactly when one of them matches it.
pub proof fn law_transaction_filters_are_alternatives(
    f1: TransactionFilter,
    f2: TransactionFilter,
    tx: TransactionView,
)
    ensures
        any_transaction_filter(seq![f1, f2], tx) == (f1.spec_matches(tx) || f2.spec_matches(tx)),
        selected_transactions(seq![f1, f2], seq![tx]) == if f1.spec_matches(tx)
            || f2.spec_matches(tx) {
            seq![tx]
        } else {
            Seq::empty()
        },
{
    let fs = seq![f1, f2];
    if f1.spec_matches(tx) {
        assert(fs[0].spec_matches(tx));
    }
    if f2.spec_matches(tx) {
        assert(fs[1].spec_matches(tx));
    }
    reveal_with_fuel(Seq::filter, 2);
    assert(seq![tx].drop_last() =~= Seq::<TransactionView>::empty());
    assert(seq![tx] =~= Seq::<TransactionView>::empty().push(tx));
}

/// With two event filters, an event is kept exactly when one of them matches it.
pub proof fn law_event_filters_are_alternatives(f1: EventFilter, f2: EventFilter, event: EventView)
    ensures
        any_event_filter(seq![f1, f2], event) == (f1.spec_matches(event) || f2.spec_matches(event)),
        selected_events(seq![f1, f2], seq![event]) == if f1.spec_matches(event) || f2.spec_matches(
            event,
        ) {
            seq![event]
        } else {
            Seq::empty()
        },
{
    let fs = seq![f1, f2];
    if f1.spec_matches(event) {
        assert(fs[0].spec_matches(event));
    }
    if f2.spec_matches(event) {
        assert(fs[1].spec_matches(event));
    }
    reveal_with_fuel(Seq::filter, 2);
    assert(seq![event].drop_last() =~= Seq::<EventView>::empty());
}

/// When every event matches, a block's events are those of its receipts in receipt order,
/// each receipt's events in emission order.
pub proof fn law_events_keep_receipt_order<R: StorageReader>(
    storage: R,
    filter: Filter,
    id: GlobalBlockId,
    r0: TransactionReceiptView,
    r1: TransactionReceiptView,
)
    requires
        filter.events@.len() > 0,
        storage.receipts_of(id) == Ok::<Seq<TransactionReceiptView>, R::Error>(seq![r0, r1]),
        forall|i: int| 0 <= i < r0.events.len() ==> any_event_filter(filter.events@, #[trigger] r0.events[i]),
        forall|i: int| 0 <= i < r1.events.len() ==> any_event_filter(filter.events@, #[trigger] r1.events[i]),
    ensures
        events_read(storage, filter, id) == Ok::<Seq<EventView>, R::Error>(r0.events + r1.events),
{
    let lists = seq![r0, r1].map_values(|r: TransactionReceiptView| r.events);
    assert(lists =~= seq![r0.events].push(r1.events));
    assert(seq![r0.events] =~= Seq::<Seq<EventView>>::empty().push(r0.events));
    Seq::<Seq<EventView>>::empty().lemma_flatten_push(r0.events);
    seq![r0.events].lemma_flatten_push(r1.events);
    assert(Seq::<Seq<EventView>>::empty().flatten() =~= Seq::<EventView>::empty());
    assert(Seq::<EventView>::empty() + r0.events =~= r0.events);
    let all = r0.events + r1.events;
    let pred = |e: EventView| any_event_filter(filter.events@, e);
    assert(receipt_events(seq![r0, r1]) == all);
    assert forall|i: int| 0 <= i < all.len() implies pred(#[trigger] all[i]) by {
        if i < r0.events.len() {
            assert(all[i] == r0.events[i]);
        } else {
            assert(all[i] == r1.events[i - r0.events.len()]);
        }
    }
    lemma_filter_keeps_all(all, pred);
}

proof fn lemma_filter_keeps_all<A>(s: Seq<A>, pred: spec_fn(A) -> bool)
    requires
        forall|i: int| 0 <= i < s.len() ==> pred(#[trigger] s[i]),
    ensures
        s.filter(pred) == s,
    decreases s.len(),
{
    reveal(Seq::filter);
    if s.len() > 0 {
        lemma_filter_keeps_all(s.drop_last(), pred);
        assert(s.drop_last().push(s.last()) =~= s);
    } else {
        assert(s =~= Seq::<A>::empty());
    }
}

/// A batch that starts at a block without data is empty, and its cursor is that block.
pub proof fn law_absent_start_is_retried<E>(
    data: spec_fn(GlobalBlockId) -> Result<Option<BlockView>, E>,
    successor: spec_fn(GlobalBlockId) -> Result<Option<GlobalBlockId>, E>,
    start: GlobalBlockId,
    size: nat,
    status: BlockStatus,
)
    requires
        data(start) == Ok::<Option<BlockView>, E>(None),
    ensures
        batch_outcome(data, successor, start, size, status) == Ok::<
            (Seq<BlockView>, GlobalBlockId),
            E,
        >((Seq::empty(), start)),
{
}

/// A read error at the second block of a batch ends the whole batch with that error, with
/// no partial batch.
pub proof fn law_error_discards_batch<E>(
    data: spec_fn(GlobalBlockId) -> Result<Option<BlockView>, E>,
    successor: spec_fn(GlobalBlockId) -> Result<Option<GlobalBlockId>, E>,
    start: GlobalBlockId,
    next: GlobalBlockId,
    first: BlockView,
    size: nat,
    error: E,
)
    requires
        size >= 2,
        data(start) == Ok::<Option<BlockView>, E>(Some(first)),
        successor(start) == Ok::<Option<GlobalBlockId>, E>(Some(next)),
        data(next) == Err::<Option<BlockView>, E>(error),
    ensures
        batch_outcome(data, successor, start, size, first.status) == Err::<
            (Seq<BlockView>, GlobalBlockId),
            E,
        >(error),
{
    assert(batch_outcome(data, successor, next, (size - 1) as nat, first.status) == Err::<
        (Seq<BlockView>, GlobalBlockId),
        E,
    >(error));
}

} // verus!

verus! {

/// A batch along a chain `ids` whose blocks have data `views`, where the first `k` blocks
/// have status `status` and block `k`, if any, another: the batch stops at block `k`
/// without collecting it, at the tip after collecting it, or after `size` blocks with
/// the last of them as cursor, whichever comes first.
pub proof fn law_batch_along_chain<E>(
    data: spec_fn(GlobalBlockId) -> Result<Option<BlockView>, E>,
    successor: spec_fn(GlobalBlockId) -> Result<Option<GlobalBlockId>, E>,
    ids: Seq<GlobalBlockId>,
    views: Seq<BlockView>,
    size: nat,
    status: BlockStatus,
    k: nat,
)
    requires
        ids.len() == views.len(),
        ids.len() > 0,
        forall|i: int| 0 <= i < ids.len() ==> data(#[trigger] ids[i]) == Ok::<Option<BlockView>, E>(Some(views[i])),
        forall|i: int|
            0 <= i < ids.len() - 1 ==> successor(#[trigger] ids[i]) == Ok::<Option<GlobalBlockId>, E>(
                Some(ids[i + 1]),
            ),
        successor(ids.last()) == Ok::<Option<GlobalBlockId>, E>(None),
        k <= ids.len(),
        forall|i: int| 0 <= i < k ==> (#[trigger] views[i]).status == status,
        k < ids.len() ==> views[k as int].status != status,
    ensures
        0 < size && k < size && k < ids.len() ==> batch_outcome(data, successor, ids[0], size, status)
            == Ok::<(Seq<BlockView>, GlobalBlockId), E>((views.take(k as int), ids[k as int])),
        0 < size && size <= k ==> batch_outcome(data, successor, ids[0], size, status) == Ok::<
            (Seq<BlockView>, GlobalBlockId),
            E,
        >((views.take(size as int), ids[size - 1])),
        k == ids.len() && ids.len() < size ==> batch_outcome(data, successor, ids[0], size, status)
            == Ok::<(Seq<BlockView>, GlobalBlockId), E>((views, ids.last())),
    decreases ids.len(),
{
    if size == 0 || k == 0 {
        assert(views.take(0) =~= Seq::<BlockView>::empty());
    } else if size == 1 {
        assert(views.take(1) =~= seq![views[0]]);
        if ids.len() == 1 {
            assert(views =~= seq![views[0]]);
        }
    } else if ids.len() == 1 {
        assert(views =~= seq![views[0]]);
        assert(views.take(1) =~= seq![views[0]]);
    } else {
        let rest_ids = ids.drop_first();
        let rest_views = views.drop_first();
        assert forall|i: int| 0 <= i < rest_ids.len() implies data(#[trigger] rest_ids[i]) == Ok::<
            Option<BlockView>,
            E,
        >(Some(rest_views[i])) by {
            assert(rest_ids[i] == ids[i + 1]);
        }
        assert forall|i: int| 0 <= i < rest_ids.len() - 1 implies successor(#[trigger] rest_ids[i])
            == Ok::<Option<GlobalBlockId>, E>(Some(rest_ids[i + 1])) by {
            assert(rest_ids[i] == ids[i + 1]);
        }
        assert(rest_ids.last() == ids.last());
        assert forall|i: int| 0 <= i < (k - 1) as nat implies (#[trigger] rest_views[i]).status
            == status by {
            assert(rest_views[i] == views[i + 1]);
        }
        law_batch_along_chain(
            data,
            successor,
            rest_ids,
            rest_views,
            (size - 1) as nat,
            status,
            (k - 1) as nat,
        );
        assert(data(ids[0]) == Ok::<Option<BlockView>, E>(Some(views[0])));
        assert(successor(ids[0]) == Ok::<Option<GlobalBlockId>, E>(Some(ids[1])));
        assert(rest_ids[0] == ids[1]);
        if k < size && k < ids.len() {
            assert(seq![views[0]] + rest_views.take(k - 1) =~= views.take(k as int));
        }
        if size <= k {
            assert(seq![views[0]] + rest_views.take(size - 1) =~= views.take(size as int));
        }
        if k == ids.len() && ids.len() < size {
            assert(seq![views[0]] + rest_views =~= views);
        }
    }
}

} // verus!
