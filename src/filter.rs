//! Declarative predicates over transactions and events.
//!
//! Every filter in a sequence is a separate alternative: an artifact is selected
//! when any one of them matches it.
use vstd::prelude::*;

use crate::ids::FieldElement;
use crate::model::{Event, EventView, Transaction, TransactionKind, TransactionKindView, TransactionView};

verus! {

/// An optional field constraint: `None` accepts every value.
pub open spec fn field_matches(expected: Option<FieldElement>, actual: FieldElement) -> bool {
    match expected {
        None => true,
        Some(x) => x == actual,
    }
}

/// `prefix` is an initial segment of `values`.
pub open spec fn is_prefix(prefix: Seq<FieldElement>, values: Seq<FieldElement>) -> bool {
    prefix.len() <= values.len() && values.subrange(0, prefix.len() as int) == prefix
}

fn option_field_matches(expected: &Option<FieldElement>, actual: &FieldElement) -> (r: bool)
    ensures
        r == field_matches(*expected, *actual),
{
    match expected {
        None => true,
        Some(x) => *x == *actual,
    }
}

/// Whether `prefix` is an initial segment of `values`.
pub fn has_prefix(values: &Vec<FieldElement>, prefix: &Vec<FieldElement>) -> (r: bool)
    ensures
        r == is_prefix(prefix@, values@),
{
    if prefix.len() > values.len() {
        return false;
    }
    let mut i: usize = 0;
    while i < prefix.len()
        invariant
            prefix.len() <= values.len(),
            i <= prefix.len(),
            forall|j: int| 0 <= j < i ==> values@[j] == prefix@[j],
        decreases prefix.len() - i,
    {
        if values[i] != prefix[i] {
            assert(values@.subrange(0, prefix.len() as int)[i as int] != prefix@[i as int]);
            return false;
        }
        i = i + 1;
    }
    assert(values@.subrange(0, prefix.len() as int) =~= prefix@);
    true
}

/// Selects transactions of one kind, by optional field values and a calldata prefix.
#[derive(Clone, Debug)]
pub enum TransactionFilter {
    Invoke {
        contract_address: Option<FieldElement>,
        entry_point_selector: Option<FieldElement>,
        calldata: Vec<FieldElement>,
    },
    Declare { class_hash: Option<FieldElement>, sender_address: Option<FieldElement> },
    Deploy {
        class_hash: Option<FieldElement>,
        contract_address_salt: Option<FieldElement>,
        constructor_calldata: Vec<FieldElement>,
    },
}

impl TransactionFilter {
    pub open spec fn spec_matches(&self, tx: TransactionView) -> bool {
        match (*self, tx.kind) {
            (
                TransactionFilter::Invoke { contract_address, entry_point_selector, calldata },
                TransactionKindView::Invoke {
                    contract_address: tx_contract,
                    entry_point_selector: tx_selector,
                    calldata: tx_calldata,
                },
            ) => field_matches(contract_address, tx_contract) && field_matches(
                entry_point_selector,
                tx_selector,
            ) && is_prefix(calldata@, tx_calldata),
            (
                TransactionFilter::Declare { class_hash, sender_address },
                TransactionKindView::Declare { class_hash: tx_class, sender_address: tx_sender },
            ) => field_matches(class_hash, tx_class) && field_matches(sender_address, tx_sender),
            (
                TransactionFilter::Deploy { class_hash, contract_address_salt, constructor_calldata },
                TransactionKindView::Deploy {
                    class_hash: tx_class,
                    contract_address_salt: tx_salt,
                    constructor_calldata: tx_calldata,
                },
            ) => field_matches(class_hash, tx_class) && field_matches(contract_address_salt, tx_salt)
                && is_prefix(constructor_calldata@, tx_calldata),
            _ => false,
        }
    }

    /// Whether this filter selects `tx`: same kind, every set field equal, calldata prefix.
    pub fn matches(&self, tx: &Transaction) -> (r: bool)
        ensures
            r == self.spec_matches(tx@),
    {
        match (self, &tx.kind) {
            (
                TransactionFilter::Invoke { contract_address, entry_point_selector, calldata },
                TransactionKind::Invoke {
                    contract_address: tx_contract,
                    entry_point_selector: tx_selector,
                    calldata: tx_calldata,
                },
            ) => option_field_matches(contract_address, tx_contract) && option_field_matches(
                entry_point_selector,
                tx_selector,
            ) && has_prefix(tx_calldata, calldata),
            (
                TransactionFilter::Declare { class_hash, sender_address },
                TransactionKind::Declare { class_hash: tx_class, sender_address: tx_sender },
            ) => option_field_matches(class_hash, tx_class) && option_field_matches(
                sender_address,
                tx_sender,
            ),
            (
                TransactionFilter::Deploy { class_hash, contract_address_salt, constructor_calldata },
                TransactionKind::Deploy {
                    class_hash: tx_class,
                    contract_address_salt: tx_salt,
                    constructor_calldata: tx_calldata,
                },
            ) => option_field_matches(class_hash, tx_class) && option_field_matches(
                contract_address_salt,
                tx_salt,
            ) && has_prefix(tx_calldata, constructor_calldata),
            _ => false,
        }
    }
}

/// Selects events by emitting contract and by key and data prefixes.
#[derive(Clone, Debug)]
pub struct EventFilter {
    pub from_address: Option<FieldElement>,
    pub keys: Vec<FieldElement>,
    pub data: Vec<FieldElement>,
}

impl EventFilter {
    pub open spec fn spec_matches(&self, event: EventView) -> bool {
        field_matches(self.from_address, event.from_address) && is_prefix(self.keys@, event.keys)
            && is_prefix(self.data@, event.data)
    }

    pub fn matches(&self, event: &Event) -> (r: bool)
        ensures
            r == self.spec_matches(event@),
    {
        option_field_matches(&self.from_address, &event.from_address) && has_prefix(
            &event.keys,
            &self.keys,
        ) && has_prefix(&event.data, &self.data)
    }
}

/// Asks for block headers.
#[derive(Clone, Debug)]
pub struct HeaderFilter {}

/// Asks for state updates.
#[derive(Clone, Debug)]
pub struct StateUpdateFilter {}

/// What to include of each block.
///
/// An empty sequence of transaction or event filters excludes that category altogether.
#[derive(Clone, Debug)]
pub struct Filter {
    pub header: Option<HeaderFilter>,
    pub transactions: Vec<TransactionFilter>,
    pub events: Vec<EventFilter>,
    pub state_update: Option<StateUpdateFilter>,
}

/// Some filter of the sequence selects `tx`.
pub open spec fn any_transaction_filter(filters: Seq<TransactionFilter>, tx: TransactionView) -> bool {
    exists|i: int| 0 <= i < filters.len() && #[trigger] filters[i].spec_matches(tx)
}

/// Some filter of the sequence selects `event`.
pub open spec fn any_event_filter(filters: Seq<EventFilter>, event: EventView) -> bool {
    exists|i: int| 0 <= i < filters.len() && #[trigger] filters[i].spec_matches(event)
}

/// The transactions of `body` that some filter selects, in their order.
pub open spec fn selected_transactions(
    filters: Seq<TransactionFilter>,
    body: Seq<TransactionView>,
) -> Seq<TransactionView> {
    body.filter(|tx: TransactionView| any_transaction_filter(filters, tx))
}

/// The events of `events` that some filter selects, in their order.
pub open spec fn selected_events(filters: Seq<EventFilter>, events: Seq<EventView>) -> Seq<
    EventView,
> {
    events.filter(|e: EventView| any_event_filter(filters, e))
}

impl Filter {
    /// Whether any transaction filter selects `tx`; stops at the first that does.
    pub fn matches_transaction(&self, tx: &Transaction) -> (r: bool)
        ensures
            r == any_transaction_filter(self.transactions@, tx@),
    {
        let mut i: usize = 0;
        while i < self.transactions.len()
            invariant
                i <= self.transactions.len(),
                forall|j: int| 0 <= j < i ==> !(#[trigger] self.transactions@[j]).spec_matches(tx@),
            decreases self.transactions.len() - i,
        {
            if self.transactions[i].matches(tx) {
                return true;
            }
            i = i + 1;
        }
        false
    }

    /// Whether any event filter selects `event`; stops at the first that does.
    pub fn matches_event(&self, event: &Event) -> (r: bool)
        ensures
            r == any_event_filter(self.events@, event@),
    {
        let mut i: usize = 0;
        while i < self.events.len()
            invariant
                i <= self.events.len(),
                forall|j: int| 0 <= j < i ==> !(#[trigger] self.events@[j]).spec_matches(event@),
            decreases self.events.len() - i,
        {
            if self.events[i].matches(event) {
                return true;
            }
            i = i + 1;
        }
        false
    }
}

} // verus!
