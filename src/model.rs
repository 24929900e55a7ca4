//! The block artifacts held by storage and the filtered block record handed to callers.
use vstd::prelude::*;

use crate::ids::{BlockStatus, FieldElement};

verus! {

/// A copy of `v` with the same elements.
pub fn copy_fields(v: &Vec<FieldElement>) -> (r: Vec<FieldElement>)
    ensures
        r@ == v@,
{
    let mut r: Vec<FieldElement> = Vec::with_capacity(v.len());
    for i in 0..v.len()
        invariant
            r@ == v@.take(i as int),
    {
        r.push(v[i]);
        assert(r@ =~= v@.take(i + 1));
    }
    assert(v@.take(v.len() as int) =~= v@);
    r
}

/// What a transaction does, with the fields that filters can select on.
#[derive(Debug, PartialEq, Eq)]
pub enum TransactionKind {
    Invoke {
        contract_address: FieldElement,
        entry_point_selector: FieldElement,
        calldata: Vec<FieldElement>,
    },
    Declare { class_hash: FieldElement, sender_address: FieldElement },
    Deploy {
        class_hash: FieldElement,
        contract_address_salt: FieldElement,
        constructor_calldata: Vec<FieldElement>,
    },
}

pub enum TransactionKindView {
    Invoke {
        contract_address: FieldElement,
        entry_point_selector: FieldElement,
        calldata: Seq<FieldElement>,
    },
    Declare { class_hash: FieldElement, sender_address: FieldElement },
    Deploy {
        class_hash: FieldElement,
        contract_address_salt: FieldElement,
        constructor_calldata: Seq<FieldElement>,
    },
}

impl View for TransactionKind {
    type V = TransactionKindView;

    open spec fn view(&self) -> TransactionKindView {
        match self {
            TransactionKind::Invoke { contract_address, entry_point_selector, calldata } =>
                TransactionKindView::Invoke {
                contract_address: *contract_address,
                entry_point_selector: *entry_point_selector,
                calldata: calldata@,
            },
            TransactionKind::Declare { class_hash, sender_address } =>
                TransactionKindView::Declare {
                class_hash: *class_hash,
                sender_address: *sender_address,
            },
            TransactionKind::Deploy { class_hash, contract_address_salt, constructor_calldata } =>
                TransactionKindView::Deploy {
                class_hash: *class_hash,
                contract_address_salt: *contract_address_salt,
                constructor_calldata: constructor_calldata@,
            },
        }
    }
}

impl Clone for TransactionKind {
    fn clone(&self) -> (r: TransactionKind)
        ensures
            r@ == self@,
    {
        match self {
            TransactionKind::Invoke { contract_address, entry_point_selector, calldata } =>
                TransactionKind::Invoke {
                contract_address: *contract_address,
                entry_point_selector: *entry_point_selector,
                calldata: copy_fields(calldata),
            },
            TransactionKind::Declare { class_hash, sender_address } => TransactionKind::Declare {
                class_hash: *class_hash,
                sender_address: *sender_address,
            },
            TransactionKind::Deploy { class_hash, contract_address_salt, constructor_calldata } =>
                TransactionKind::Deploy {
                class_hash: *class_hash,
                contract_address_salt: *contract_address_salt,
                constructor_calldata: copy_fields(constructor_calldata),
            },
        }
    }
}

#[derive(Debug, PartialEq, Eq)]
pub struct Transaction {
    pub hash: FieldElement,
    pub kind: TransactionKind,
}

pub struct TransactionView {
    pub hash: FieldElement,
    pub kind: TransactionKindView,
}

impl View for Transaction {
    type V = TransactionView;

    open spec fn view(&self) -> TransactionView {
        TransactionView { hash: self.hash, kind: self.kind@ }
    }
}

impl Clone for Transaction {
    fn clone(&self) -> (r: Transaction)
        ensures
            r@ == self@,
    {
        Transaction { hash: self.hash, kind: self.kind.clone() }
    }
}

#[derive(Debug, PartialEq, Eq)]
pub struct Event {
    pub from_address: FieldElement,
    pub keys: Vec<FieldElement>,
    pub data: Vec<FieldElement>,
}

pub struct EventView {
    pub from_address: FieldElement,
    pub keys: Seq<FieldElement>,
    pub data: Seq<FieldElement>,
}

impl View for Event {
    type V = EventView;

    open spec fn view(&self) -> EventView {
        EventView { from_address: self.from_address, keys: self.keys@, data: self.data@ }
    }
}

impl Clone for Event {
    fn clone(&self) -> (r: Event)
        ensures
            r@ == self@,
    {
        Event {
            from_address: self.from_address,
            keys: copy_fields(&self.keys),
            data: copy_fields(&self.data),
        }
    }
}

/// The receipt of one transaction, with the events it emitted in emission order.
#[derive(Debug, PartialEq, Eq)]
pub struct TransactionReceipt {
    pub transaction_hash: FieldElement,
    pub transaction_index: u64,
    pub events: Vec<Event>,
}

pub struct TransactionReceiptView {
    pub transaction_hash: FieldElement,
    pub transaction_index: u64,
    pub events: Seq<EventView>,
}

impl View for TransactionReceipt {
    type V = TransactionReceiptView;

    open spec fn view(&self) -> TransactionReceiptView {
        TransactionReceiptView {
            transaction_hash: self.transaction_hash,
            transaction_index: self.transaction_index,
            events: events_view(self.events@),
        }
    }
}

impl Clone for TransactionReceipt {
    fn clone(&self) -> (r: TransactionReceipt)
        ensures
            r@ == self@,
    {
        TransactionReceipt {
            transaction_hash: self.transaction_hash,
            transaction_index: self.transaction_index,
            events: copy_events(&self.events),
        }
    }
}

#[derive(Clone, Copy, Debug, PartialEq, Eq, Structural)]
pub struct BlockHeader {
    pub block_hash: FieldElement,
    pub parent_block_hash: FieldElement,
    pub block_number: u64,
    pub sequencer_address: FieldElement,
    pub new_root: FieldElement,
    pub timestamp: u64,
}

#[derive(Clone, Copy, Debug, PartialEq, Eq, Structural)]
pub struct StateUpdate {
    pub new_root: FieldElement,
    pub old_root: FieldElement,
}

pub open spec fn transactions_view(s: Seq<Transaction>) -> Seq<TransactionView> {
    s.map_values(|t: Transaction| t@)
}

pub open spec fn events_view(s: Seq<Event>) -> Seq<EventView> {
    s.map_values(|e: Event| e@)
}

pub open spec fn receipts_view(s: Seq<TransactionReceipt>) -> Seq<TransactionReceiptView> {
    s.map_values(|r: TransactionReceipt| r@)
}

/// A copy of `v` whose elements have the same views.
pub fn copy_transactions(v: &Vec<Transaction>) -> (r: Vec<Transaction>)
    ensures
        transactions_view(r@) == transactions_view(v@),
{
    let mut r: Vec<Transaction> = Vec::with_capacity(v.len());
    for i in 0..v.len()
        invariant
            r.len() == i,
            forall|j: int| 0 <= j < i ==> (#[trigger] r@[j])@ == v@[j]@,
    {
        r.push(v[i].clone());
    }
    assert(transactions_view(r@) =~= transactions_view(v@));
    r
}

/// A copy of `v` whose elements have the same views.
pub fn copy_events(v: &Vec<Event>) -> (r: Vec<Event>)
    ensures
        events_view(r@) == events_view(v@),
{
    let mut r: Vec<Event> = Vec::with_capacity(v.len());
    for i in 0..v.len()
        invariant
            r.len() == i,
            forall|j: int| 0 <= j < i ==> (#[trigger] r@[j])@ == v@[j]@,
    {
        r.push(v[i].clone());
    }
    assert(events_view(r@) =~= events_view(v@));
    r
}

/// A copy of `v` whose elements have the same views.
pub fn copy_receipts(v: &Vec<TransactionReceipt>) -> (r: Vec<TransactionReceipt>)
    ensures
        receipts_view(r@) == receipts_view(v@),
{
    let mut r: Vec<TransactionReceipt> = Vec::with_capacity(v.len());
    for i in 0..v.len()
        invariant
            r.len() == i,
            forall|j: int| 0 <= j < i ==> (#[trigger] r@[j])@ == v@[j]@,
    {
        r.push(v[i].clone());
    }
    assert(receipts_view(r@) =~= receipts_view(v@));
    r
}

/// The filtered data of one block.
#[derive(Debug, PartialEq, Eq)]
pub struct Block {
    pub status: BlockStatus,
    pub header: Option<BlockHeader>,
    pub state_update: Option<StateUpdate>,
    pub transactions: Vec<Transaction>,
    pub receipts: Vec<TransactionReceipt>,
    pub events: Vec<Event>,
}

/// Mathematical model of a `Block`: its collections as sequences of views.
pub struct BlockView {
    pub status: BlockStatus,
    pub header: Option<BlockHeader>,
    pub state_update: Option<StateUpdate>,
    pub transactions: Seq<TransactionView>,
    pub receipts: Seq<TransactionReceiptView>,
    pub events: Seq<EventView>,
}

impl View for Block {
    type V = BlockView;

    open spec fn view(&self) -> BlockView {
        BlockView {
            status: self.status,
            header: self.header,
            state_update: self.state_update,
            transactions: transactions_view(self.transactions@),
            receipts: receipts_view(self.receipts@),
            events: events_view(self.events@),
        }
    }
}

impl Block {
    pub fn status(&self) -> (r: BlockStatus)
        ensures
            r == self.status,
    {
        self.status
    }
}

/// The events of a sequence of receipts, in receipt order and then in emission order.
pub open spec fn receipt_events(receipts: Seq<TransactionReceiptView>) -> Seq<EventView> {
    receipts.map_values(|r: TransactionReceiptView| r.events).flatten()
}

} // verus!
