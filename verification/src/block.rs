//! Blocks: an ordered batch of executed transactions under a header that
//! commits to them and to the block before.

use crate::clock::unix_timestamp;
use crate::digest::{digest_hex, hash_text};
use crate::mempool::transactions_view;
use crate::text::{decimal_text, push_decimal};
use crate::transaction::{status_name, Transaction, TransactionStatus, TransactionView};
use vstd::prelude::*;

verus! {

/// How far a block has come.
#[derive(Clone, Copy, Debug, PartialEq, Eq, Structural)]
pub enum BlockStatus {
    Pending,
    AcceptedOnL2,
    AcceptedOnL1,
    Rejected,
}

/// What a block says of itself.
#[derive(Debug)]
pub struct BlockHeader {
    pub block_number: u64,
    pub parent_block_hash: String,
    pub sequencer_address: String,
    pub block_timestamp: u64,
    pub transaction_count: usize,
    pub transaction_commitment: String,
    pub state_root: String,
    pub block_status: BlockStatus,
}

/// A header and the transactions it commits to, with their final statuses.
#[derive(Debug)]
pub struct L2Block {
    pub header: BlockHeader,
    pub transactions: Vec<Transaction>,
}

/// The mathematical content of a [`BlockHeader`].
pub struct BlockHeaderView {
    pub block_number: u64,
    pub parent_block_hash: Seq<char>,
    pub sequencer_address: Seq<char>,
    pub block_timestamp: u64,
    pub transaction_count: usize,
    pub transaction_commitment: Seq<char>,
    pub state_root: Seq<char>,
    pub block_status: BlockStatus,
}

/// The mathematical content of an [`L2Block`].
pub struct L2BlockView {
    pub header: BlockHeaderView,
    pub transactions: Seq<TransactionView>,
}

impl View for BlockHeader {
    type V = BlockHeaderView;

    open spec fn view(&self) -> BlockHeaderView {
        BlockHeaderView {
            block_number: self.block_number,
            parent_block_hash: self.parent_block_hash@,
            sequencer_address: self.sequencer_address@,
            block_timestamp: self.block_timestamp,
            transaction_count: self.transaction_count,
            transaction_commitment: self.transaction_commitment@,
            state_root: self.state_root@,
            block_status: self.block_status,
        }
    }
}

impl View for L2Block {
    type V = L2BlockView;

    open spec fn view(&self) -> L2BlockView {
        L2BlockView { header: self.header@, transactions: transactions_view(self.transactions@) }
    }
}

/// What the transactions of a batch contribute to its commitment, one after
/// another in batch order, with nothing between them.
pub open spec fn commitment_text(transactions: Seq<TransactionView>) -> Seq<char>
    decreases transactions.len(),
{
    if transactions.len() == 0 {
        Seq::empty()
    } else {
        commitment_text(transactions.drop_last()) + transactions.last().commitment_text()
    }
}

/// The commitment to a batch: the digest of the ids, senders and statuses of
/// its transactions, in order.
pub open spec fn commitment(transactions: Seq<TransactionView>) -> Seq<char> {
    digest_hex(commitment_text(transactions))
}

/// Whether every transaction of the batch was reverted.
pub open spec fn all_reverted(transactions: Seq<TransactionView>) -> bool {
    forall|i: int|
        0 <= i < transactions.len() ==> (#[trigger] transactions[i]).status
            == TransactionStatus::Reverted
}

/// The status of a block that holds the batch: `Rejected` if and only if
/// every transaction was reverted, `AcceptedOnL2` otherwise.
pub open spec fn status_of_batch(transactions: Seq<TransactionView>) -> BlockStatus {
    if all_reverted(transactions) {
        BlockStatus::Rejected
    } else {
        BlockStatus::AcceptedOnL2
    }
}

/// The block assembled from a batch at a given time.
pub open spec fn assembled(
    block_number: u64,
    parent_block_hash: Seq<char>,
    sequencer_address: Seq<char>,
    transactions: Seq<TransactionView>,
    timestamp: u64,
) -> L2BlockView {
    L2BlockView {
        header: BlockHeaderView {
            block_number,
            parent_block_hash,
            sequencer_address,
            block_timestamp: timestamp,
            transaction_count: transactions.len() as usize,
            transaction_commitment: commitment(transactions),
            state_root: "placeholder_state_root"@,
            block_status: BlockStatus::AcceptedOnL2,
        },
        transactions,
    }
}

impl BlockHeaderView {
    /// The text whose digest is the block's hash: number, commitment,
    /// sequencer and parent hash, joined by hyphens. Neither the status nor
    /// the timestamp enters it.
    pub open spec fn hash_text(self) -> Seq<char> {
        decimal_text(self.block_number as nat) + "-"@ + self.transaction_commitment + "-"@
            + self.sequencer_address + "-"@ + self.parent_block_hash
    }

    /// The block's hash.
    pub open spec fn hash(self) -> Seq<char> {
        digest_hex(self.hash_text())
    }

    /// The same header with another status.
    pub open spec fn with_status(self, status: BlockStatus) -> BlockHeaderView {
        BlockHeaderView { block_status: status, ..self }
    }
}

impl L2BlockView {
    /// The same block with another status.
    pub open spec fn with_status(self, status: BlockStatus) -> L2BlockView {
        L2BlockView { header: self.header.with_status(status), ..self }
    }
}

/// A block's hash does not change with its status.
pub proof fn lemma_hash_ignores_status(header: BlockHeaderView, status: BlockStatus)
    ensures
        header.with_status(status).hash() == header.hash(),
{
}

/// The status of a batch is `Rejected` exactly when each of its transactions
/// is `Reverted`, and `AcceptedOnL2` in every other case.
pub proof fn lemma_status_of_batch(transactions: Seq<TransactionView>)
    ensures
        status_of_batch(transactions) == BlockStatus::Rejected <==> all_reverted(transactions),
        status_of_batch(transactions) == BlockStatus::AcceptedOnL2 <==> !all_reverted(
            transactions,
        ),
{
}

/// Copies of the transactions, in order.
pub fn clone_transactions(transactions: &Vec<Transaction>) -> (copy: Vec<Transaction>)
    ensures
        copy@ == transactions@,
{
    let mut copy: Vec<Transaction> = Vec::new();
    let mut i: usize = 0;
    while i < transactions.len()
        invariant
            i <= transactions.len(),
            copy@ == transactions@.take(i as int),
        decreases transactions.len() - i,
    {
        copy.push(transactions[i].clone());
        assert(transactions@.take(i + 1) == transactions@.take(i as int).push(transactions@[i as int]));
        i = i + 1;
    }
    assert(transactions@.take(transactions.len() as int) == transactions@);
    copy
}

impl Clone for BlockHeader {
    fn clone(&self) -> (copy: Self)
        ensures
            copy == *self,
    {
        BlockHeader {
            block_number: self.block_number,
            parent_block_hash: self.parent_block_hash.clone(),
            sequencer_address: self.sequencer_address.clone(),
            block_timestamp: self.block_timestamp,
            transaction_count: self.transaction_count,
            transaction_commitment: self.transaction_commitment.clone(),
            state_root: self.state_root.clone(),
            block_status: self.block_status,
        }
    }
}

impl Clone for L2Block {
    fn clone(&self) -> (copy: Self)
        ensures
            copy@ == self@,
    {
        L2Block { header: self.header.clone(), transactions: clone_transactions(&self.transactions) }
    }
}

impl L2Block {
    /// Assembles a block from a batch, stamped with the current time. The
    /// block commits to the batch and starts as `AcceptedOnL2`; only its
    /// timestamp depends on when it is made.
    pub fn new(
        block_number: u64,
        parent_block_hash: String,
        sequencer_address: String,
        transactions: Vec<Transaction>,
    ) -> (block: Self)
        ensures
            block@ == assembled(
                block_number,
                parent_block_hash@,
                sequencer_address@,
                transactions_view(transactions@),
                block@.header.block_timestamp,
            ),
    {
        let timestamp = unix_timestamp();
        Self::with_timestamp(
            block_number,
            parent_block_hash,
            sequencer_address,
            transactions,
            timestamp,
        )
    }

    /// Assembles a block from a batch, stamped with `timestamp`.
    pub fn with_timestamp(
        block_number: u64,
        parent_block_hash: String,
        sequencer_address: String,
        transactions: Vec<Transaction>,
        timestamp: u64,
    ) -> (block: Self)
        ensures
            block@ == assembled(
                block_number,
                parent_block_hash@,
                sequencer_address@,
                transactions_view(transactions@),
                timestamp,
            ),
    {
        let transaction_count = transactions.len();
        let transaction_commitment = Self::calculate_commitment(transactions.as_slice());
        let state_root = String::from_str("placeholder_state_root");
        let header = BlockHeader {
            block_number,
            parent_block_hash,
            sequencer_address,
            block_timestamp: timestamp,
            transaction_count,
            transaction_commitment,
            state_root,
            block_status: BlockStatus::AcceptedOnL2,
        };
        L2Block { header, transactions }
    }

    /// The commitment to a batch: the digest of the ids, senders and statuses
    /// of its transactions, in order.
    pub fn calculate_commitment(transactions: &[Transaction]) -> (digest: String)
        ensures
            digest@ == commitment(transactions_view(transactions@)),
    {
        let ghost views = transactions_view(transactions@);
        let mut text = String::new();
        let mut i: usize = 0;
        while i < transactions.len()
            invariant
                i <= transactions.len(),
                views == transactions_view(transactions@),
                text@ == commitment_text(views.take(i as int)),
            decreases transactions.len() - i,
        {
            let tx = &transactions[i];
            proof {
                let next = views.take(i + 1);
                assert(next.drop_last() == views.take(i as int));
                assert(next.last() == tx@);
            }
            let ghost before = text@;
            push_decimal(&mut text, tx.id as u64);
            text.append("-");
            text.append(tx.sender.as_str());
            text.append("-");
            text.append(status_name(tx.status));
            assert(text@ == before + tx@.commitment_text());
            i = i + 1;
        }
        assert(views.take(transactions.len() as int) == views);
        hash_text(text.as_str())
    }

    /// The block's hash: the digest of its number, commitment, sequencer and
    /// parent hash.
    pub fn get_block_hash(&self) -> (hash: String)
        ensures
            hash@ == self@.header.hash(),
    {
        let mut text = String::new();
        push_decimal(&mut text, self.header.block_number);
        text.append("-");
        text.append(self.header.transaction_commitment.as_str());
        text.append("-");
        text.append(self.header.sequencer_address.as_str());
        text.append("-");
        text.append(self.header.parent_block_hash.as_str());
        assert(text@ == self@.header.hash_text());
        hash_text(text.as_str())
    }
}

} // verus!
