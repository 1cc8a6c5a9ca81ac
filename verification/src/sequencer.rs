//! The sequencer: it drains the mempool in order, executes what was
//! validated against the ledger, and seals each round's batch into a block
//! that names the block before it.

use crate::block::{
    all_reverted, assembled, lemma_hash_ignores_status, status_of_batch, BlockStatus, L2Block,
    L2BlockView,
};
use crate::ledger::{
    lemma_balance_within_supply, lemma_supply_after_write, names_view, LedgerView,
};
use crate::mempool::{
    fee_charged, rejection, transactions_view, Mempool, MempoolView, Rejection, Validation,
    ValidationView,
};
use crate::transaction::{
    status_follows, Transaction, TransactionStatus, TransactionType, TransactionView,
};
use vstd::prelude::*;

verus! {

/// Mempool, chain of blocks, and the number and parent hash of the next block.
pub struct Sequencer {
    mempool: Mempool,
    executed_txs: Vec<Transaction>,
    blocks: Vec<L2Block>,
    block_number: u64,
    parent_block_hash: String,
    sequencer_address: String,
}

/// The mathematical content of a [`Sequencer`].
pub struct SequencerView {
    pub mempool: MempoolView,
    /// Every transaction that went into a block, oldest first.
    pub executed: Seq<TransactionView>,
    /// The blocks, oldest first.
    pub blocks: Seq<L2BlockView>,
    /// The number of the next block.
    pub block_number: u64,
    /// The hash that the next block names as its parent.
    pub parent_block_hash: Seq<char>,
    pub sequencer_address: Seq<char>,
}

/// What one round did.
#[derive(Debug)]
pub struct RoundReport {
    /// How many transactions were pending when the round began.
    pub pending: usize,
    /// How many transactions went into the round's block; 0 means that no
    /// block was made.
    pub included: usize,
    /// The transaction whose rejection ended the round, if one did.
    pub dropped: Option<(Transaction, Rejection)>,
}

/// What a round leaves behind: the mempool, the batch, and the transaction
/// whose rejection ended it.
pub struct RoundView {
    pub mempool: MempoolView,
    pub batch: Seq<TransactionView>,
    pub dropped: Option<(TransactionView, Rejection)>,
}

/// The views of a sequence of blocks.
pub open spec fn blocks_view(blocks: Seq<L2Block>) -> Seq<L2BlockView> {
    blocks.map_values(|block: L2Block| block@)
}

/// The view of a dropped transaction and the reason for dropping it.
pub open spec fn dropped_view(dropped: Option<(Transaction, Rejection)>) -> Option<
    (TransactionView, Rejection),
> {
    match dropped {
        Some((tx, reason)) => Some((tx@, reason)),
        None => None,
    }
}

/// The parent hash of the first block.
pub open spec fn genesis_hash() -> Seq<char> {
    "genesis_hash"@
}

/// The address under which every block is sealed.
pub open spec fn default_address() -> Seq<char> {
    "sequencer_0x123"@
}

/// The check that the sequencer repeats before it executes: the claimed nonce
/// is the sender's next-expected nonce, and the balance covers the amount.
pub open spec fn revalidates(ledger: LedgerView, tx: TransactionView) -> bool {
    &&& tx.nonce == ledger.nonce_of(tx.sender)
    &&& tx.amount is Some ==> ledger.balance_of(tx.sender) >= tx.amount->0
}

/// Whether execution reverts: an invoke whose amount the sender cannot pay.
pub open spec fn reverts(ledger: LedgerView, tx: TransactionView) -> bool {
    &&& tx.nonce == ledger.nonce_of(tx.sender)
    &&& tx.tx_type == TransactionType::Invoke
    &&& tx.amount is Some
    &&& ledger.balance_of(tx.sender) < tx.amount->0
}

/// What is left of `balance` after a fee is taken from it, never less than 0.
pub open spec fn after_fee(balance: int, fee: int) -> int {
    if balance >= fee {
        balance - fee
    } else {
        0
    }
}

/// The status that execution gives a transaction. A nonce that does not
/// match makes it `Rejected`; an invoke that the sender cannot pay is
/// `Reverted`; an invoke without an amount keeps its status; everything else
/// is `Succeeded`.
pub open spec fn executed_status(ledger: LedgerView, tx: TransactionView) -> TransactionStatus {
    if tx.nonce != ledger.nonce_of(tx.sender) {
        TransactionStatus::Rejected
    } else if tx.tx_type == TransactionType::Invoke {
        match tx.amount {
            Some(amount) => if ledger.balance_of(tx.sender) < amount {
                TransactionStatus::Reverted
            } else {
                TransactionStatus::Succeeded
            },
            None => tx.status,
        }
    } else {
        TransactionStatus::Succeeded
    }
}

/// The ledger after an invoke of `amount` has moved from sender to receiver.
pub open spec fn transferred(ledger: LedgerView, tx: TransactionView, amount: u64) -> LedgerView {
    let debited = ledger.with_balance(
        tx.sender,
        (ledger.balance_of(tx.sender) - amount) as u64,
    );
    match tx.receiver {
        Some(receiver) => debited.with_balance(
            receiver,
            (debited.balance_of(receiver) + amount) as u64,
        ),
        None => debited,
    }
}

/// The balances after execution, before the nonce is advanced.
pub open spec fn settled(ledger: LedgerView, tx: TransactionView) -> LedgerView {
    if tx.tx_type == TransactionType::Invoke && tx.amount is Some {
        let amount = tx.amount->0;
        let balance = ledger.balance_of(tx.sender);
        if balance < amount {
            ledger.with_balance(tx.sender, after_fee(balance as int, tx.fee as int) as u64)
        } else {
            transferred(ledger, tx, amount)
        }
    } else {
        ledger
    }
}

/// The ledger after execution. A nonce that does not match changes no
/// balance and no nonce. Otherwise the balances are settled and the sender's
/// nonce goes up by one, whether the transaction succeeded or reverted.
pub open spec fn executed_ledger(ledger: LedgerView, tx: TransactionView) -> LedgerView {
    let nonce = ledger.nonce_of(tx.sender);
    if tx.nonce != nonce {
        ledger.with_nonce(tx.sender, nonce)
    } else {
        settled(ledger, tx).with_nonce(tx.sender, (nonce + 1) as u64)
    }
}

/// One round, from a mempool and the batch gathered so far: validate the
/// head of the queue; execute it and go on if it passed; stop where the
/// queue is empty or the head is rejected.
pub open spec fn round(mempool: MempoolView, batch: Seq<TransactionView>) -> RoundView
    decreases mempool.queue.len(),
{
    if mempool.queue.len() == 0 {
        RoundView { mempool, batch, dropped: None }
    } else {
        let head = mempool.queue[0];
        let next = mempool.after_validation();
        match rejection(mempool.ledger, head) {
            Some(reason) => RoundView {
                mempool: next,
                batch,
                dropped: Some((head.with_status(TransactionStatus::Rejected), reason)),
            },
            None => {
                let tx = head.with_status(TransactionStatus::Validated);
                round(
                    MempoolView { ledger: executed_ledger(next.ledger, tx), ..next },
                    batch.push(tx.with_status(executed_status(next.ledger, tx))),
                )
            },
        }
    }
}

/// Whether block `i` of the chain names the hash of block `i - 1` as its
/// parent.
pub open spec fn linked_at(blocks: Seq<L2BlockView>, i: int) -> bool {
    blocks[i].header.parent_block_hash == blocks[i - 1].header.hash()
}

impl SequencerView {
    /// The mempool is well formed, blocks are numbered from 1 without gaps,
    /// and the next number follows the last block's.
    pub open spec fn wf(self) -> bool {
        &&& self.mempool.wf()
        &&& self.block_number == self.blocks.len() + 1
        &&& forall|i: int|
            0 <= i < self.blocks.len() ==> (#[trigger] self.blocks[i]).header.block_number == i
                + 1
    }

    /// Each block names the hash of the block before it as its parent, the
    /// first block names the genesis hash, and the next block will name the
    /// hash of the last one.
    pub open spec fn chained(self) -> bool {
        &&& forall|i: int| 0 < i < self.blocks.len() ==> #[trigger] linked_at(self.blocks, i)
        &&& self.blocks.len() > 0 ==> self.blocks[0].header.parent_block_hash == genesis_hash()
        &&& self.parent_block_hash == if self.blocks.len() == 0 {
            genesis_hash()
        } else {
            self.blocks.last().header.hash()
        }
    }

    /// The block that seals `batch` at `timestamp`.
    pub open spec fn next_block(self, batch: Seq<TransactionView>, timestamp: u64) -> L2BlockView {
        assembled(
            self.block_number,
            self.parent_block_hash,
            self.sequencer_address,
            batch,
            timestamp,
        ).with_status(status_of_batch(batch))
    }

    /// The sequencer after `batch` is sealed at `timestamp`: the block joins
    /// the chain, its hash becomes the next parent, and the number goes up.
    pub open spec fn sealed(self, batch: Seq<TransactionView>, timestamp: u64) -> SequencerView {
        let block = self.next_block(batch, timestamp);
        SequencerView {
            blocks: self.blocks.push(block),
            block_number: (self.block_number + 1) as u64,
            parent_block_hash: block.header.hash(),
            ..self
        }
    }

    /// The sequencer after the status of block `block_number` is set; nothing
    /// changes where no block has that number.
    pub open spec fn with_block_status(self, block_number: u64, status: BlockStatus) -> SequencerView {
        if 1 <= block_number <= self.blocks.len() {
            SequencerView {
                blocks: self.blocks.update(
                    block_number - 1,
                    self.blocks[block_number - 1].with_status(status),
                ),
                ..self
            }
        } else {
            self
        }
    }
}

/// Sealing a batch keeps the chain linked: the new block names the old
/// parent hash, and the new parent hash is the new block's.
pub proof fn lemma_sealing_keeps_chain(
    sequencer: SequencerView,
    batch: Seq<TransactionView>,
    timestamp: u64,
)
    requires
        sequencer.wf(),
        sequencer.block_number < u64::MAX,
    ensures
        sequencer.sealed(batch, timestamp).wf(),
        sequencer.chained() ==> sequencer.sealed(batch, timestamp).chained(),
{
    let after = sequencer.sealed(batch, timestamp);
    let n = sequencer.blocks.len() as int;
    assert(after.blocks[n] == sequencer.next_block(batch, timestamp));
    assert forall|i: int| 0 <= i < after.blocks.len() implies (#[trigger] after.blocks[i]).header.block_number
        == i + 1 by {
        if i < n {
            assert(after.blocks[i] == sequencer.blocks[i]);
        }
    }
    if sequencer.chained() {
        assert forall|i: int| 0 < i < after.blocks.len() implies #[trigger] linked_at(
            after.blocks,
            i,
        ) by {
            if i < n {
                assert(linked_at(sequencer.blocks, i));
                assert(after.blocks[i] == sequencer.blocks[i]);
                assert(after.blocks[i - 1] == sequencer.blocks[i - 1]);
            } else {
                assert(after.blocks[i - 1] == sequencer.blocks[n - 1]);
            }
        }
        if n > 0 {
            assert(after.blocks[0] == sequencer.blocks[0]);
        }
    }
}

/// In a linked chain the first block's parent is the genesis hash and every
/// later block's parent is the hash of the block numbered one less.
pub proof fn lemma_chain_links(sequencer: SequencerView, number: int)
    requires
        sequencer.wf(),
        sequencer.chained(),
        1 <= number <= sequencer.blocks.len(),
    ensures
        sequencer.blocks[number - 1].header.block_number == number,
        number == 1 ==> sequencer.blocks[number - 1].header.parent_block_hash == genesis_hash(),
        number > 1 ==> sequencer.blocks[number - 1].header.parent_block_hash
            == sequencer.blocks[number - 2].header.hash(),
{
    if number > 1 {
        assert(linked_at(sequencer.blocks, number - 1));
    }
}

/// Changing a block's status keeps the numbering and the links, since the
/// status does not enter the hash.
pub proof fn lemma_status_keeps_chain(
    sequencer: SequencerView,
    block_number: u64,
    status: BlockStatus,
)
    requires
        sequencer.wf(),
    ensures
        sequencer.with_block_status(block_number, status).wf(),
        sequencer.chained() ==> sequencer.with_block_status(block_number, status).chained(),
{
    let after = sequencer.with_block_status(block_number, status);
    if 1 <= block_number <= sequencer.blocks.len() {
        let k = block_number - 1;
        assert forall|i: int| 0 <= i < after.blocks.len() implies (#[trigger] after.blocks[i]).header.block_number
            == i + 1 by {
            assert(sequencer.blocks[i].header.block_number == i + 1);
        }
        if sequencer.chained() {
            lemma_hash_ignores_status(sequencer.blocks[k].header, status);
            assert forall|i: int| 0 < i < after.blocks.len() implies #[trigger] linked_at(
                after.blocks,
                i,
            ) by {
                assert(linked_at(sequencer.blocks, i));
            }
        }
    }
}

/// Execution keeps the ledger well formed and never adds to the sum of all
/// balances.
pub proof fn lemma_execution_keeps_ledger(ledger: LedgerView, tx: TransactionView)
    requires
        ledger.wf(),
    ensures
        executed_ledger(ledger, tx).wf(),
        executed_ledger(ledger, tx).supply() <= ledger.supply(),
{
    let balance = ledger.balance_of(tx.sender);
    lemma_balance_within_supply(ledger, tx.sender);
    if tx.nonce == ledger.nonce_of(tx.sender) && tx.tx_type == TransactionType::Invoke
        && tx.amount is Some {
        let amount = tx.amount->0;
        if balance < amount {
            lemma_supply_after_write(
                ledger,
                tx.sender,
                after_fee(balance as int, tx.fee as int) as u64,
            );
        } else {
            let debited = ledger.with_balance(tx.sender, (balance - amount) as u64);
            lemma_supply_after_write(ledger, tx.sender, (balance - amount) as u64);
            if tx.receiver is Some {
                let receiver = tx.receiver->0;
                lemma_balance_within_supply(debited, receiver);
                lemma_supply_after_write(
                    debited,
                    receiver,
                    (debited.balance_of(receiver) + amount) as u64,
                );
            }
        }
    }
}

/// No balance goes below zero: what execution writes is the balance less the
/// amount where the transfer is paid, the balance less the fee or else zero
/// where it reverts, and the balance plus the amount for the receiver; every
/// other balance stays.
pub proof fn lemma_balances_after_execution(ledger: LedgerView, tx: TransactionView, who: Seq<char>)
    requires
        ledger.wf(),
        tx.well_formed(),
    ensures
        0 <= executed_ledger(ledger, tx).balance_of(who) <= u64::MAX,
        tx.nonce != ledger.nonce_of(tx.sender) ==> executed_ledger(ledger, tx).balance_of(who)
            == ledger.balance_of(who),
        reverts(ledger, tx) ==> executed_ledger(ledger, tx).balance_of(who) == if who
            == tx.sender {
            after_fee(ledger.balance_of(who) as int, tx.fee as int)
        } else {
            ledger.balance_of(who) as int
        },
        tx.nonce == ledger.nonce_of(tx.sender) && tx.tx_type == TransactionType::Invoke
            && tx.amount is Some && !reverts(ledger, tx) ==> executed_ledger(
            ledger,
            tx,
        ).balance_of(who)
            == ledger.balance_of(who) - (if who == tx.sender {
            tx.amount->0 as int
        } else {
            0
        }) + (if who == tx.receiver->0 {
            tx.amount->0 as int
        } else {
            0
        }),
        tx.tx_type != TransactionType::Invoke || tx.amount is None ==> executed_ledger(
            ledger,
            tx,
        ).balance_of(who) == ledger.balance_of(who),
{
    let balance = ledger.balance_of(tx.sender);
    lemma_balance_within_supply(ledger, tx.sender);
    if tx.nonce == ledger.nonce_of(tx.sender) && tx.tx_type == TransactionType::Invoke
        && tx.amount is Some {
        let amount = tx.amount->0;
        if balance >= amount {
            let debited = ledger.with_balance(tx.sender, (balance - amount) as u64);
            lemma_supply_after_write(ledger, tx.sender, (balance - amount) as u64);
            lemma_balance_within_supply(debited, tx.receiver->0);
        }
    }
}

/// A transaction whose nonce does not match is rejected by the mempool and by
/// the sequencer alike: it is never executed, it changes no balance and no
/// nonce, and its status is `Rejected`, never `Succeeded` or `Reverted`.
pub proof fn lemma_nonce_mismatch_never_executes(ledger: LedgerView, tx: TransactionView, who: Seq<char>)
    requires
        tx.nonce != ledger.nonce_of(tx.sender),
    ensures
        rejection(ledger, tx) == Some(Rejection::NonceMismatch),
        !revalidates(ledger, tx),
        executed_status(ledger, tx) == TransactionStatus::Rejected,
        executed_ledger(ledger, tx).balances == ledger.balances,
        executed_ledger(ledger, tx).accounts == ledger.accounts,
        executed_ledger(ledger, tx).nonce_of(who) == ledger.nonce_of(who),
{
}

/// The sender's nonce goes up by exactly one when a transaction is executed,
/// whether it succeeds or reverts; no other nonce moves; and validation by
/// the mempool moves no nonce at all.
pub proof fn lemma_nonce_advances_by_one(ledger: LedgerView, tx: TransactionView, who: Seq<char>)
    requires
        tx.nonce == ledger.nonce_of(tx.sender),
        tx.nonce < u64::MAX,
    ensures
        executed_ledger(ledger, tx).nonce_of(tx.sender) == ledger.nonce_of(tx.sender) + 1,
        who != tx.sender ==> executed_ledger(ledger, tx).nonce_of(who) == ledger.nonce_of(who),
        fee_charged(ledger, tx).nonces == ledger.nonces,
{
}

/// What the mempool has validated always passes the sequencer's second check
/// and never reverts: the fee left enough for the amount.
pub proof fn lemma_validated_is_executed(ledger: LedgerView, tx: TransactionView)
    requires
        rejection(ledger, tx) is None,
    ensures
        revalidates(fee_charged(ledger, tx), tx),
        !reverts(fee_charged(ledger, tx), tx),
        executed_status(fee_charged(ledger, tx), tx) != TransactionStatus::Reverted || tx.status
            == TransactionStatus::Reverted,
        executed_status(fee_charged(ledger, tx), tx) != TransactionStatus::Rejected || tx.status
            == TransactionStatus::Rejected,
{
}

/// Whether no transaction of the batch is `Reverted` or `Rejected`.
pub open spec fn none_failed(batch: Seq<TransactionView>) -> bool {
    forall|i: int|
        0 <= i < batch.len() ==> (#[trigger] batch[i]).status != TransactionStatus::Reverted
            && batch[i].status != TransactionStatus::Rejected
}

/// What a round adds to its batch has neither reverted nor been rejected, so
/// a block that a round seals is never `Rejected`.
pub proof fn lemma_round_never_fails(mempool: MempoolView, batch: Seq<TransactionView>)
    requires
        none_failed(batch),
    ensures
        none_failed(round(mempool, batch).batch),
        round(mempool, batch).batch.len() > 0 ==> status_of_batch(round(mempool, batch).batch)
            == BlockStatus::AcceptedOnL2,
    decreases mempool.queue.len(),
{
    if mempool.queue.len() > 0 && rejection(mempool.ledger, mempool.queue[0]) is None {
        let head = mempool.queue[0];
        let next = mempool.after_validation();
        let tx = head.with_status(TransactionStatus::Validated);
        lemma_validated_is_executed(mempool.ledger, tx);
        let grown = batch.push(tx.with_status(executed_status(next.ledger, tx)));
        assert forall|i: int| 0 <= i < grown.len() implies (#[trigger] grown[i]).status
            != TransactionStatus::Reverted && grown[i].status != TransactionStatus::Rejected by {
            if i < batch.len() {
                assert(grown[i] == batch[i]);
            }
        }
        lemma_round_never_fails(
            MempoolView { ledger: executed_ledger(next.ledger, tx), ..next },
            grown,
        );
    }
    let done = round(mempool, batch).batch;
    if done.len() > 0 {
        assert(done[0].status != TransactionStatus::Reverted);
    }
}

/// A round ends at a transaction whose nonce does not match: the transaction
/// leaves the queue, does not join the batch, and changes neither the ledger
/// nor the refused digests.
pub proof fn lemma_round_drops_nonce_mismatch(mempool: MempoolView, batch: Seq<TransactionView>)
    requires
        mempool.queue.len() > 0,
        mempool.queue[0].nonce != mempool.ledger.nonce_of(mempool.queue[0].sender),
    ensures
        round(mempool, batch) == (RoundView {
            mempool: MempoolView { queue: mempool.queue.drop_first(), ..mempool },
            batch,
            dropped: Some(
                (
                    mempool.queue[0].with_status(TransactionStatus::Rejected),
                    Rejection::NonceMismatch,
                ),
            ),
        }),
{
}

/// The statuses that validation and execution give follow a transaction's
/// life: a received transaction becomes `Validated` or `Rejected`, and a
/// validated one keeps its status or becomes `Succeeded`, `Reverted` or
/// `Rejected`.
pub proof fn lemma_statuses_follow_lifecycle(mempool: MempoolView, ledger: LedgerView, tx: TransactionView)
    ensures
        mempool.validation() matches ValidationView::Validated(validated) ==> status_follows(
            TransactionStatus::Received,
            validated.status,
        ),
        mempool.validation() matches ValidationView::Rejected(rejected, _) ==> status_follows(
            TransactionStatus::Received,
            rejected.status,
        ),
        tx.status == TransactionStatus::Validated ==> executed_status(ledger, tx) == tx.status
            || status_follows(tx.status, executed_status(ledger, tx)),
{
}

/// A round keeps the mempool well formed, empties or shortens the queue, and
/// forgets no refused digest.
pub proof fn lemma_round_keeps_mempool(mempool: MempoolView, batch: Seq<TransactionView>, hash: Seq<char>)
    requires
        mempool.wf(),
    ensures
        round(mempool, batch).mempool.wf(),
        round(mempool, batch).mempool.queue.len() <= mempool.queue.len(),
        round(mempool, batch).batch.len() >= batch.len(),
        round(mempool, batch).dropped is None ==> round(mempool, batch).mempool.queue.len() == 0,
        mempool.rejected.contains(hash) ==> round(mempool, batch).mempool.rejected.contains(hash),
    decreases mempool.queue.len(),
{
    if mempool.queue.len() > 0 {
        let head = mempool.queue[0];
        let next = mempool.after_validation();
        assert(head.well_formed());
        assert forall|i: int| 0 <= i < next.queue.len() implies (#[trigger] next.queue[i]).well_formed() by {
            assert(mempool.queue[i + 1].well_formed());
        }
        if rejection(mempool.ledger, head) is None {
            lemma_supply_after_write(
                mempool.ledger,
                head.sender,
                (mempool.ledger.balance_of(head.sender) - head.fee) as u64,
            );
            lemma_balance_within_supply(mempool.ledger, head.sender);
            let tx = head.with_status(TransactionStatus::Validated);
            lemma_execution_keeps_ledger(next.ledger, tx);
            lemma_round_keeps_mempool(
                MempoolView { ledger: executed_ledger(next.ledger, tx), ..next },
                batch.push(tx.with_status(executed_status(next.ledger, tx))),
                hash,
            );
        }
    }
}

impl View for Sequencer {
    type V = SequencerView;

    closed spec fn view(&self) -> SequencerView {
        SequencerView {
            mempool: self.mempool@,
            executed: transactions_view(self.executed_txs@),
            blocks: blocks_view(self.blocks@),
            block_number: self.block_number,
            parent_block_hash: self.parent_block_hash@,
            sequencer_address: self.sequencer_address@,
        }
    }
}

/// Whether every transaction of the batch was reverted.
pub fn batch_all_reverted(transactions: &Vec<Transaction>) -> (all: bool)
    ensures
        all == all_reverted(transactions_view(transactions@)),
{
    let mut i: usize = 0;
    while i < transactions.len()
        invariant
            i <= transactions.len(),
            forall|j: int|
                0 <= j < i ==> (#[trigger] transactions_view(transactions@)[j]).status
                    == TransactionStatus::Reverted,
        decreases transactions.len() - i,
    {
        if transactions[i].status != TransactionStatus::Reverted {
            assert(transactions_view(transactions@)[i as int].status
                != TransactionStatus::Reverted);
            return false;
        }
        i = i + 1;
    }
    true
}

impl Sequencer {
    /// A sequencer over `mempool` with no blocks: the next block is number 1
    /// and its parent is the genesis hash.
    pub fn new(mempool: Mempool) -> (sequencer: Self)
        ensures
            sequencer@ == (SequencerView {
                mempool: mempool@,
                executed: Seq::<TransactionView>::empty(),
                blocks: Seq::<L2BlockView>::empty(),
                block_number: 1,
                parent_block_hash: genesis_hash(),
                sequencer_address: default_address(),
            }),
            sequencer@.chained(),
            mempool@.wf() ==> sequencer@.wf(),
    {
        let sequencer = Sequencer {
            mempool,
            executed_txs: Vec::new(),
            blocks: Vec::new(),
            block_number: 1,
            parent_block_hash: String::from_str("genesis_hash"),
            sequencer_address: String::from_str("sequencer_0x123"),
        };
        assert(sequencer@.executed == Seq::<TransactionView>::empty());
        assert(sequencer@.blocks == Seq::<L2BlockView>::empty());
        sequencer
    }

    /// Runs one round: validates and executes pending transactions in order
    /// until the queue is empty or one is rejected, then seals what was
    /// executed into a block, if anything was.
    pub fn process_transactions(&mut self) -> (report: RoundReport)
        requires
            old(self)@.wf(),
            old(self)@.block_number < u64::MAX,
        ensures
            report.pending == old(self)@.mempool.queue.len(),
            report.included == round(old(self)@.mempool, Seq::empty()).batch.len(),
            dropped_view(report.dropped) == round(old(self)@.mempool, Seq::empty()).dropped,
            final(self)@.mempool == round(old(self)@.mempool, Seq::empty()).mempool,
            final(self)@.executed == old(self)@.executed + round(
                old(self)@.mempool,
                Seq::empty(),
            ).batch,
            report.included == 0 ==> final(self)@ == (SequencerView {
                mempool: final(self)@.mempool,
                ..old(self)@
            }),
            report.included > 0 ==> final(self)@ == (SequencerView {
                mempool: final(self)@.mempool,
                executed: final(self)@.executed,
                ..old(self)@.sealed(
                    round(old(self)@.mempool, Seq::empty()).batch,
                    final(self)@.blocks.last().header.block_timestamp,
                )
            }),
            final(self)@.wf(),
            old(self)@.chained() ==> final(self)@.chained(),
    {
        let ghost start = self@;
        let ghost goal = round(start.mempool, Seq::empty());
        let pending = self.mempool.pending();
        let mut batch: Vec<Transaction> = Vec::new();
        let mut dropped: Option<(Transaction, Rejection)> = None;
        let mut done = false;
        assert(transactions_view(batch@) == Seq::<TransactionView>::empty());
        assert(start.executed + Seq::<TransactionView>::empty() == start.executed);
        while !done
            invariant
                self@.mempool.wf(),
                self@ == (SequencerView {
                    mempool: self@.mempool,
                    executed: start.executed + transactions_view(batch@),
                    ..start
                }),
                goal == round(start.mempool, Seq::empty()),
                !done ==> dropped is None && round(self@.mempool, transactions_view(batch@))
                    == goal,
                done ==> goal == (RoundView {
                    mempool: self@.mempool,
                    batch: transactions_view(batch@),
                    dropped: dropped_view(dropped),
                }),
            decreases self@.mempool.queue.len(), (if done { 0nat } else { 1nat }),
        {
            let ghost before = self@.mempool;
            let ghost gathered = transactions_view(batch@);
            match self.mempool.validate_next() {
                Validation::Empty => {
                    done = true;
                },
                Validation::Rejected(tx, reason) => {
                    dropped = Some((tx, reason));
                    done = true;
                },
                Validation::Validated(tx) => {
                    let mut tx = tx;
                    proof {
                        assert(before.queue[0].well_formed());
                        lemma_validated_is_executed(before.ledger, before.queue[0]);
                        lemma_supply_after_write(
                            before.ledger,
                            before.queue[0].sender,
                            (before.ledger.balance_of(before.queue[0].sender)
                                - before.queue[0].fee) as u64,
                        );
                    }
                    if self.validate_transaction_again(&tx) {
                        self.execute_transaction(&mut tx);
                        batch.push(tx.clone());
                        self.executed_txs.push(tx);
                        proof {
                            assert(transactions_view(batch@) == gathered.push(tx@));
                            assert(transactions_view(self.executed_txs@) == (start.executed
                                + gathered).push(tx@));
                            assert(start.executed + gathered.push(tx@) == (start.executed
                                + gathered).push(tx@));
                        }
                    } else {
                        tx.update_status(TransactionStatus::Rejected);
                    }
                },
            }
        }
        let included = batch.len();
        if included > 0 {
            let ghost unsealed = self@;
            self.create_l2_block(batch);
            proof {
                lemma_sealing_keeps_chain(
                    unsealed,
                    goal.batch,
                    self@.blocks.last().header.block_timestamp,
                );
            }
        }
        RoundReport { pending, included, dropped }
    }

    /// The second check before execution: the claimed nonce is the sender's
    /// next-expected nonce, and the balance covers the amount.
    pub fn validate_transaction_again(&self, tx: &Transaction) -> (ok: bool)
        ensures
            ok == revalidates(self@.mempool.ledger, tx@),
    {
        let nonce = self.mempool.get_nonce(tx.sender.as_str());
        if tx.nonce != nonce {
            return false;
        }
        match tx.amount {
            Some(amount) => self.mempool.get_balance(tx.sender.as_str()) >= amount,
            None => true,
        }
    }

    /// Executes `tx` against the ledger and records the outcome in its
    /// status.
    pub fn execute_transaction(&mut self, tx: &mut Transaction)
        requires
            old(self)@.mempool.ledger.wf(),
            old(tx)@.well_formed(),
        ensures
            final(self)@ == (SequencerView {
                mempool: MempoolView {
                    ledger: executed_ledger(old(self)@.mempool.ledger, old(tx)@),
                    ..old(self)@.mempool
                },
                ..old(self)@
            }),
            final(tx)@ == old(tx)@.with_status(
                executed_status(old(self)@.mempool.ledger, old(tx)@),
            ),
            final(self)@.mempool.ledger.wf(),
    {
        let ghost ledger = self@.mempool.ledger;
        proof {
            lemma_execution_keeps_ledger(ledger, tx@);
            lemma_balance_within_supply(ledger, tx@.sender);
        }
        let sender = tx.sender.clone();
        let nonce = self.mempool.get_nonce(sender.as_str());
        if tx.nonce != nonce {
            self.mempool.set_nonce(sender.as_str(), nonce);
            tx.update_status(TransactionStatus::Rejected);
            return;
        }
        match tx.tx_type {
            TransactionType::Invoke => {
                match tx.amount {
                    Some(amount) => {
                        let balance = self.mempool.get_balance(sender.as_str());
                        if balance < amount {
                            let left = if balance >= tx.fee {
                                balance - tx.fee
                            } else {
                                0
                            };
                            self.mempool.set_balance(sender.as_str(), left);
                            tx.update_status(TransactionStatus::Reverted);
                        } else {
                            proof {
                                lemma_supply_after_write(
                                    ledger,
                                    sender@,
                                    (balance - amount) as u64,
                                );
                            }
                            self.mempool.set_balance(sender.as_str(), balance - amount);
                            match &tx.receiver {
                                Some(receiver) => {
                                    let credit = self.mempool.get_balance(receiver.as_str());
                                    proof {
                                        lemma_balance_within_supply(
                                            self@.mempool.ledger,
                                            receiver@,
                                        );
                                    }
                                    self.mempool.set_balance(receiver.as_str(), credit + amount);
                                },
                                None => {},
                            }
                            tx.update_status(TransactionStatus::Succeeded);
                        }
                    },
                    None => {},
                }
            },
            _ => {
                tx.update_status(TransactionStatus::Succeeded);
            },
        }
        self.mempool.set_nonce(sender.as_str(), nonce + 1);
    }

    /// Seals `transactions` into the next block: `Rejected` if every one of
    /// them was reverted, `AcceptedOnL2` otherwise. Only the block's
    /// timestamp depends on when this is done.
    pub fn create_l2_block(&mut self, transactions: Vec<Transaction>)
        requires
            old(self)@.block_number < u64::MAX,
        ensures
            final(self)@ == old(self)@.sealed(
                transactions_view(transactions@),
                final(self)@.blocks.last().header.block_timestamp,
            ),
    {
        let status = if batch_all_reverted(&transactions) {
            BlockStatus::Rejected
        } else {
            BlockStatus::AcceptedOnL2
        };
        let mut block = L2Block::new(
            self.block_number,
            self.parent_block_hash.clone(),
            self.sequencer_address.clone(),
            transactions,
        );
        block.header.block_status = status;
        self.parent_block_hash = block.get_block_hash();
        self.block_number = self.block_number + 1;
        self.blocks.push(block);
        proof {
            assert(blocks_view(self.blocks@) == blocks_view(old(self).blocks@).push(block@));
            assert(blocks_view(self.blocks@).last() == block@);
        }
    }

    /// Sets the status of block `block_number` and says whether there is
    /// such a block.
    pub fn set_block_status(&mut self, block_number: u64, status: BlockStatus) -> (found: bool)
        requires
            old(self)@.wf(),
        ensures
            found == (1 <= block_number <= old(self)@.blocks.len()),
            final(self)@ == old(self)@.with_block_status(block_number, status),
            final(self)@.wf(),
            old(self)@.chained() ==> final(self)@.chained(),
    {
        proof {
            lemma_status_keeps_chain(self@, block_number, status);
        }
        if block_number == 0 || block_number > self.blocks.len() as u64 {
            return false;
        }
        let index = (block_number - 1) as usize;
        let mut block = self.blocks[index].clone();
        block.header.block_status = status;
        self.blocks.set(index, block);
        proof {
            assert(blocks_view(self.blocks@) == blocks_view(old(self).blocks@).update(
                index as int,
                blocks_view(old(self).blocks@)[index as int].with_status(status),
            ));
        }
        true
    }

    /// Submits `tx` to the mempool and says whether it was queued.
    pub fn submit_transaction(&mut self, tx: Transaction) -> (accepted: bool)
        requires
            old(self)@.wf(),
            tx@.well_formed(),
        ensures
            accepted == old(self)@.mempool.accepts(tx@),
            final(self)@ == (SequencerView {
                mempool: old(self)@.mempool.submitted(tx@),
                ..old(self)@
            }),
            final(self)@.wf(),
    {
        self.mempool.submit_transaction(tx)
    }

    /// The balance of `account`, 0 if the ledger does not know it.
    pub fn get_balance(&self, account: &str) -> (balance: u64)
        ensures
            balance == self@.mempool.ledger.balance_of(account@),
    {
        self.mempool.get_balance(account)
    }

    /// The next-expected nonce of `account`, 0 if the ledger does not know it.
    pub fn get_nonce(&self, account: &str) -> (nonce: u64)
        ensures
            nonce == self@.mempool.ledger.nonce_of(account@),
    {
        self.mempool.get_nonce(account)
    }

    /// The accounts that hold a balance, in the order in which they appeared.
    pub fn accounts(&self) -> (names: &Vec<String>)
        ensures
            names_view(names@) == self@.mempool.ledger.accounts,
    {
        self.mempool.accounts()
    }

    /// The mempool.
    pub fn mempool(&self) -> (mempool: &Mempool)
        ensures
            mempool@ == self@.mempool,
    {
        &self.mempool
    }

    /// The blocks, oldest first.
    pub fn list_blocks(&self) -> (blocks: &Vec<L2Block>)
        ensures
            blocks_view(blocks@) == self@.blocks,
    {
        &self.blocks
    }

    /// Every transaction that went into a block, oldest first.
    pub fn executed_transactions(&self) -> (executed: &Vec<Transaction>)
        ensures
            transactions_view(executed@) == self@.executed,
    {
        &self.executed_txs
    }

    /// The number of the next block.
    pub fn block_number(&self) -> (number: u64)
        ensures
            number == self@.block_number,
    {
        self.block_number
    }

    /// The hash that the next block will name as its parent.
    pub fn parent_block_hash(&self) -> (hash: &String)
        ensures
            hash@ == self@.parent_block_hash,
    {
        &self.parent_block_hash
    }

    /// The address under which blocks are sealed.
    pub fn sequencer_address(&self) -> (address: &String)
        ensures
            address@ == self@.sequencer_address,
    {
        &self.sequencer_address
    }
}

} // verus!
