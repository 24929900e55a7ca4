//! The read-only query interface over the block store, and an in-memory store.
use vstd::prelude::*;

use crate::ids::{BlockStatus, GlobalBlockId};
use crate::model::{
    BlockHeader, Transaction, TransactionReceipt, TransactionReceiptView, TransactionView,
    copy_receipts, copy_transactions, receipts_view, transactions_view,
};

verus! {

/// Read access to stored block artifacts.
///
/// A reader is a consistent view of the store: the spec functions give what each read
/// returns, errors included, and the reads return exactly that.
pub trait StorageReader {
    type Error;

    /// The finality status recorded for `id`; `None` when none is tracked.
    spec fn status_of(&self, id: GlobalBlockId) -> Result<Option<BlockStatus>, Self::Error>;

    spec fn header_of(&self, id: GlobalBlockId) -> Result<Option<BlockHeader>, Self::Error>;

    /// The transactions of `id`, in block order.
    spec fn body_of(&self, id: GlobalBlockId) -> Result<Seq<TransactionView>, Self::Error>;

    /// The receipts of `id`, in block order, each with its events.
    spec fn receipts_of(&self, id: GlobalBlockId) -> Result<
        Seq<TransactionReceiptView>,
        Self::Error,
    >;

    /// The id of the canonical block at height `number`; `None` past the chain's tip.
    spec fn canonical_of(&self, number: u64) -> Result<Option<GlobalBlockId>, Self::Error>;

    fn read_status(&self, id: &GlobalBlockId) -> (r: Result<Option<BlockStatus>, Self::Error>)
        ensures
            r == self.status_of(*id),
    ;

    fn read_header(&self, id: &GlobalBlockId) -> (r: Result<Option<BlockHeader>, Self::Error>)
        ensures
            r == self.header_of(*id),
    ;

    fn read_body(&self, id: &GlobalBlockId) -> (r: Result<Vec<Transaction>, Self::Error>)
        ensures
            match r {
                Ok(v) => self.body_of(*id) == Ok::<Seq<TransactionView>, Self::Error>(
                    transactions_view(v@),
                ),
                Err(e) => self.body_of(*id) == Err::<Seq<TransactionView>, Self::Error>(e),
            },
    ;

    fn read_receipts(&self, id: &GlobalBlockId) -> (r: Result<
        Vec<TransactionReceipt>,
        Self::Error,
    >)
        ensures
            match r {
                Ok(v) => self.receipts_of(*id) == Ok::<Seq<TransactionReceiptView>, Self::Error>(
                    receipts_view(v@),
                ),
                Err(e) => self.receipts_of(*id) == Err::<Seq<TransactionReceiptView>, Self::Error>(
                    e,
                ),
            },
    ;

    fn canonical_block_id(&self, number: u64) -> (r: Result<Option<GlobalBlockId>, Self::Error>)
        ensures
            r == self.canonical_of(number),
    ;
}

/// The kinds of read that the store serves.
#[derive(Clone, Copy, Debug, PartialEq, Eq, Structural)]
pub enum Artifact {
    Status,
    Header,
    Body,
    Receipts,
    CanonicalId,
}

/// A read failure of the in-memory store: which read, at which height.
#[derive(Clone, Copy, Debug, PartialEq, Eq, Structural)]
pub struct StorageFault {
    pub artifact: Artifact,
    pub number: u64,
}

/// Everything the in-memory store holds for one block.
#[derive(Clone, Debug)]
pub struct StoredBlock {
    pub id: GlobalBlockId,
    pub status: Option<BlockStatus>,
    pub header: Option<BlockHeader>,
    pub body: Vec<Transaction>,
    pub receipts: Vec<TransactionReceipt>,
}

/// A block store held in memory.
///
/// The first entry of `blocks` with a given id holds that block's data, and the first
/// id of `canonical` at a height is the canonical block there. Every read that `faults`
/// lists, by artifact and height, fails with that fault.
#[derive(Clone, Debug)]
pub struct InMemoryStorage {
    pub blocks: Vec<StoredBlock>,
    pub canonical: Vec<GlobalBlockId>,
    pub faults: Vec<StorageFault>,
}

/// `i` is the first position of `blocks` that holds `id`.
pub open spec fn is_first_block(blocks: Seq<StoredBlock>, id: GlobalBlockId, i: int) -> bool {
    0 <= i < blocks.len() && blocks[i].id == id && forall|j: int|
        0 <= j < i ==> (#[trigger] blocks[j]).id != id
}

/// `i` is the first position of `ids` at height `number`.
pub open spec fn is_first_at_height(ids: Seq<GlobalBlockId>, number: u64, i: int) -> bool {
    0 <= i < ids.len() && ids[i].number == number && forall|j: int|
        0 <= j < i ==> (#[trigger] ids[j]).number != number
}

impl InMemoryStorage {
    pub open spec fn block_of(&self, id: GlobalBlockId) -> Option<StoredBlock> {
        if exists|i: int| is_first_block(self.blocks@, id, i) {
            Some(self.blocks@[choose|i: int| is_first_block(self.blocks@, id, i)])
        } else {
            None
        }
    }

    pub open spec fn fails(&self, artifact: Artifact, number: u64) -> bool {
        exists|i: int|
            0 <= i < self.faults@.len() && #[trigger] self.faults@[i] == (StorageFault {
                artifact,
                number,
            })
    }

    fn find_block(&self, id: &GlobalBlockId) -> (r: Option<usize>)
        ensures
            match r {
                Some(i) => is_first_block(self.blocks@, *id, i as int),
                None => !exists|i: int| is_first_block(self.blocks@, *id, i),
            },
    {
        for i in 0..self.blocks.len()
            invariant
                forall|j: int| 0 <= j < i ==> (#[trigger] self.blocks@[j]).id != *id,
        {
            if self.blocks[i].id == *id {
                return Some(i);
            }
        }
        None
    }

    fn check_fault(&self, artifact: Artifact, number: u64) -> (r: Result<(), StorageFault>)
        ensures
            r is Err <==> self.fails(artifact, number),
            r matches Err(f) ==> f == (StorageFault { artifact, number }),
    {
        let fault = StorageFault { artifact, number };
        for i in 0..self.faults.len()
            invariant
                fault == (StorageFault { artifact, number }),
                forall|j: int| 0 <= j < i ==> (#[trigger] self.faults@[j]) != fault,
        {
            if self.faults[i] == fault {
                return Err(fault);
            }
        }
        Ok(())
    }
}

proof fn lemma_first_block_unique(blocks: Seq<StoredBlock>, id: GlobalBlockId, i: int, k: int)
    requires
        is_first_block(blocks, id, i),
        is_first_block(blocks, id, k),
    ensures
        i == k,
{
    if i < k {
        assert(blocks[i].id != id);
    } else if k < i {
        assert(blocks[k].id != id);
    }
}

impl StorageReader for InMemoryStorage {
    type Error = StorageFault;

    open spec fn status_of(&self, id: GlobalBlockId) -> Result<Option<BlockStatus>, StorageFault> {
        if self.fails(Artifact::Status, id.number) {
            Err(StorageFault { artifact: Artifact::Status, number: id.number })
        } else {
            match self.block_of(id) {
                Some(b) => Ok(b.status),
                None => Ok(None),
            }
        }
    }

    open spec fn header_of(&self, id: GlobalBlockId) -> Result<Option<BlockHeader>, StorageFault> {
        if self.fails(Artifact::Header, id.number) {
            Err(StorageFault { artifact: Artifact::Header, number: id.number })
        } else {
            match self.block_of(id) {
                Some(b) => Ok(b.header),
                None => Ok(None),
            }
        }
    }

    open spec fn body_of(&self, id: GlobalBlockId) -> Result<Seq<TransactionView>, StorageFault> {
        if self.fails(Artifact::Body, id.number) {
            Err(StorageFault { artifact: Artifact::Body, number: id.number })
        } else {
            match self.block_of(id) {
                Some(b) => Ok(transactions_view(b.body@)),
                None => Ok(Seq::empty()),
            }
        }
    }

    open spec fn receipts_of(&self, id: GlobalBlockId) -> Result<
        Seq<TransactionReceiptView>,
        StorageFault,
    > {
        if self.fails(Artifact::Receipts, id.number) {
            Err(StorageFault { artifact: Artifact::Receipts, number: id.number })
        } else {
            match self.block_of(id) {
                Some(b) => Ok(receipts_view(b.receipts@)),
                None => Ok(Seq::empty()),
            }
        }
    }

    open spec fn canonical_of(&self, number: u64) -> Result<Option<GlobalBlockId>, StorageFault> {
        if self.fails(Artifact::CanonicalId, number) {
            Err(StorageFault { artifact: Artifact::CanonicalId, number })
        } else if exists|i: int| is_first_at_height(self.canonical@, number, i) {
            Ok(Some(self.canonical@[choose|i: int| is_first_at_height(self.canonical@, number, i)]))
        } else {
            Ok(None)
        }
    }

    fn read_status(&self, id: &GlobalBlockId) -> (r: Result<Option<BlockStatus>, StorageFault>) {
        self.check_fault(Artifact::Status, id.number)?;
        match self.find_block(id) {
            Some(i) => {
                proof {
                    lemma_first_block_unique(
                        self.blocks@,
                        *id,
                        i as int,
                        choose|k: int| is_first_block(self.blocks@, *id, k),
                    );
                }
                Ok(self.blocks[i].status)
            },
            None => Ok(None),
        }
    }

    fn read_header(&self, id: &GlobalBlockId) -> (r: Result<Option<BlockHeader>, StorageFault>) {
        self.check_fault(Artifact::Header, id.number)?;
        match self.find_block(id) {
            Some(i) => {
                proof {
                    lemma_first_block_unique(
                        self.blocks@,
                        *id,
                        i as int,
                        choose|k: int| is_first_block(self.blocks@, *id, k),
                    );
                }
                Ok(self.blocks[i].header)
            },
            None => Ok(None),
        }
    }

    fn read_body(&self, id: &GlobalBlockId) -> (r: Result<Vec<Transaction>, StorageFault>) {
        self.check_fault(Artifact::Body, id.number)?;
        match self.find_block(id) {
            Some(i) => {
                proof {
                    lemma_first_block_unique(
                        self.blocks@,
                        *id,
                        i as int,
                        choose|k: int| is_first_block(self.blocks@, *id, k),
                    );
                }
                Ok(copy_transactions(&self.blocks[i].body))
            },
            None => {
                let r: Vec<Transaction> = Vec::new();
                assert(transactions_view(r@) =~= Seq::empty());
                Ok(r)
            },
        }
    }

    fn read_receipts(&self, id: &GlobalBlockId) -> (r: Result<
        Vec<TransactionReceipt>,
        StorageFault,
    >) {
        self.check_fault(Artifact::Receipts, id.number)?;
        match self.find_block(id) {
            Some(i) => {
                proof {
                    lemma_first_block_unique(
                        self.blocks@,
                        *id,
                        i as int,
                        choose|k: int| is_first_block(self.blocks@, *id, k),
                    );
                }
                Ok(copy_receipts(&self.blocks[i].receipts))
            },
            None => {
                let r: Vec<TransactionReceipt> = Vec::new();
                assert(receipts_view(r@) =~= Seq::empty());
                Ok(r)
            },
        }
    }

    fn canonical_block_id(&self, number: u64) -> (r: Result<Option<GlobalBlockId>, StorageFault>) {
        self.check_fault(Artifact::CanonicalId, number)?;
        for i in 0..self.canonical.len()
            invariant
                !self.fails(Artifact::CanonicalId, number),
                forall|j: int| 0 <= j < i ==> (#[trigger] self.canonical@[j]).number != number,
        {
            if self.canonical[i].number == number {
                proof {
                    assert(is_first_at_height(self.canonical@, number, i as int));
                    let k = choose|k: int| is_first_at_height(self.canonical@, number, k);
                    if k < i {
                        assert(self.canonical@[k].number != number);
                    } else if i < k {
                        assert(self.canonical@[i as int].number != number);
                    }
                }
                return Ok(Some(self.canonical[i]));
            }
        }
        Ok(None)
    }
}

} // verus!
