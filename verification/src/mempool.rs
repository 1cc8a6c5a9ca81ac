//! The mempool: a first-in first-out queue of submitted transactions, the
//! admission check that each one passes or fails when its turn comes, and the
//! digests of those that may never be submitted again.

use crate::ledger::{
    lemma_balance_within_supply, lemma_supply_after_write, names_view, Ledger, LedgerView,
};
use crate::transaction::{
    lemma_hash_of_identity_fields, Transaction, TransactionStatus, TransactionView,
};
use std::collections::VecDeque;
use vstd::hash_set::StringHashSet;
use vstd::prelude::*;

verus! {

/// Why the mempool turns a transaction away at validation.
#[derive(Clone, Copy, Debug, PartialEq, Eq, Structural)]
pub enum Rejection {
    /// The claimed nonce is not the sender's next-expected nonce.
    NonceMismatch,
    /// The sender's balance does not exceed the fee.
    InsufficientFeeFunds,
    /// The sender's balance does not cover the amount and the fee together.
    InsufficientTransferFunds,
}

/// What one validation step found at the head of the queue.
#[derive(Debug)]
pub enum Validation {
    /// The queue was empty.
    Empty,
    /// The transaction passed; its fee has been paid.
    Validated(Transaction),
    /// The transaction failed and has left the queue for good.
    Rejected(Transaction, Rejection),
}

/// The mathematical content of a [`Validation`].
pub enum ValidationView {
    Empty,
    Validated(TransactionView),
    Rejected(TransactionView, Rejection),
}

impl View for Validation {
    type V = ValidationView;

    open spec fn view(&self) -> ValidationView {
        match *self {
            Validation::Empty => ValidationView::Empty,
            Validation::Validated(tx) => ValidationView::Validated(tx@),
            Validation::Rejected(tx, reason) => ValidationView::Rejected(tx@, reason),
        }
    }
}

/// Queue, refused digests and ledger.
pub struct Mempool {
    transactions: VecDeque<Transaction>,
    rejected_transactions: StringHashSet,
    ledger: Ledger,
}

/// The mathematical content of a [`Mempool`].
pub struct MempoolView {
    /// The pending transactions, oldest first.
    pub queue: Seq<TransactionView>,
    /// The digests of the transactions rejected for want of funds.
    pub rejected: Set<Seq<char>>,
    /// Balances and nonces.
    pub ledger: LedgerView,
}

/// The views of a sequence of transactions.
pub open spec fn transactions_view(transactions: Seq<Transaction>) -> Seq<TransactionView> {
    transactions.map_values(|tx: Transaction| tx@)
}

/// The reason for which the ledger turns `tx` away, if it does. The three
/// checks are made in this order: nonce, fee, amount and fee together.
pub open spec fn rejection(ledger: LedgerView, tx: TransactionView) -> Option<Rejection> {
    if tx.nonce != ledger.nonce_of(tx.sender) {
        Some(Rejection::NonceMismatch)
    } else if ledger.balance_of(tx.sender) <= tx.fee {
        Some(Rejection::InsufficientFeeFunds)
    } else if tx.amount is Some && ledger.balance_of(tx.sender) < tx.amount->0 + tx.fee {
        Some(Rejection::InsufficientTransferFunds)
    } else {
        None
    }
}

/// The ledger after the sender of an admitted transaction has paid its fee.
pub open spec fn fee_charged(ledger: LedgerView, tx: TransactionView) -> LedgerView {
    ledger.with_balance(tx.sender, (ledger.balance_of(tx.sender) - tx.fee) as u64)
}

/// The five accounts that every new mempool starts with.
pub open spec fn genesis_ledger() -> LedgerView {
    let empty = LedgerView {
        balances: Map::<Seq<char>, u64>::empty(),
        nonces: Map::<Seq<char>, u64>::empty(),
        accounts: Seq::<Seq<char>>::empty(),
    };
    empty.with_balance("Alice"@, 200).with_nonce("Alice"@, 0).with_balance(
        "Bob"@,
        500,
    ).with_nonce("Bob"@, 0).with_balance("Mark"@, 0).with_nonce("Mark"@, 0).with_balance(
        "Cyndie"@,
        700,
    ).with_nonce("Cyndie"@, 0).with_balance("Mike"@, 90).with_nonce("Mike"@, 0)
}

impl MempoolView {
    /// The ledger is well formed and so is every pending transaction.
    pub open spec fn wf(self) -> bool {
        &&& self.ledger.wf()
        &&& forall|i: int| 0 <= i < self.queue.len() ==> (#[trigger] self.queue[i]).well_formed()
    }

    /// Whether a submission of `tx` is accepted: its digest is not among the
    /// refused ones.
    pub open spec fn accepts(self, tx: TransactionView) -> bool {
        !self.rejected.contains(tx.hash())
    }

    /// The mempool after `tx` is submitted: queued last as `Received`, or
    /// nothing changed where the submission is refused.
    pub open spec fn submitted(self, tx: TransactionView) -> MempoolView {
        if self.accepts(tx) {
            MempoolView {
                queue: self.queue.push(tx.with_status(TransactionStatus::Received)),
                ..self
            }
        } else {
            self
        }
    }

    /// What the next validation step finds.
    pub open spec fn validation(self) -> ValidationView {
        if self.queue.len() == 0 {
            ValidationView::Empty
        } else {
            let head = self.queue[0];
            match rejection(self.ledger, head) {
                Some(reason) => ValidationView::Rejected(
                    head.with_status(TransactionStatus::Rejected),
                    reason,
                ),
                None => ValidationView::Validated(head.with_status(TransactionStatus::Validated)),
            }
        }
    }

    /// The mempool after the next validation step. The head leaves the queue
    /// whatever the finding. A transaction that passes pays its fee; one that
    /// fails for want of funds has its digest refused from then on; one that
    /// fails on its nonce leaves no trace.
    pub open spec fn after_validation(self) -> MempoolView {
        if self.queue.len() == 0 {
            self
        } else {
            let head = self.queue[0];
            let rest = self.queue.drop_first();
            match rejection(self.ledger, head) {
                Some(Rejection::NonceMismatch) => MempoolView { queue: rest, ..self },
                Some(_) => MempoolView {
                    queue: rest,
                    rejected: self.rejected.insert(head.hash()),
                    ..self
                },
                None => MempoolView { queue: rest, ledger: fee_charged(self.ledger, head), ..self },
            }
        }
    }
}

/// A transaction that was rejected for want of funds can never be queued
/// again: whatever carries the same id, sender, kind, nonce and amount is
/// refused and changes nothing.
pub proof fn lemma_rejected_for_funds_is_refused(mempool: MempoolView, again: TransactionView)
    requires
        mempool.queue.len() > 0,
        rejection(mempool.ledger, mempool.queue[0]) == Some(Rejection::InsufficientFeeFunds)
            || rejection(mempool.ledger, mempool.queue[0]) == Some(
            Rejection::InsufficientTransferFunds,
        ),
        again.id == mempool.queue[0].id,
        again.sender == mempool.queue[0].sender,
        again.tx_type == mempool.queue[0].tx_type,
        again.nonce == mempool.queue[0].nonce,
        again.amount == mempool.queue[0].amount,
    ensures
        !mempool.after_validation().accepts(again),
        mempool.after_validation().submitted(again) == mempool.after_validation(),
{
    lemma_hash_of_identity_fields(again, mempool.queue[0]);
}

/// Neither a submission nor a validation step forgets a refused digest.
pub proof fn lemma_refusals_are_kept(mempool: MempoolView, tx: TransactionView, hash: Seq<char>)
    requires
        mempool.rejected.contains(hash),
    ensures
        mempool.submitted(tx).rejected.contains(hash),
        mempool.after_validation().rejected.contains(hash),
{
}

/// A transaction whose nonce does not match is dropped by validation: it is
/// not handed on, it pays no fee, and its digest is not refused, so the
/// ledger and the refused digests stay as they were.
pub proof fn lemma_nonce_mismatch_is_dropped(mempool: MempoolView)
    requires
        mempool.queue.len() > 0,
        mempool.queue[0].nonce != mempool.ledger.nonce_of(mempool.queue[0].sender),
    ensures
        mempool.validation() == ValidationView::Rejected(
            mempool.queue[0].with_status(TransactionStatus::Rejected),
            Rejection::NonceMismatch,
        ),
        mempool.after_validation() == (MempoolView {
            queue: mempool.queue.drop_first(),
            ..mempool
        }),
{
}

/// Validation moves no nonce, whatever it finds.
pub proof fn lemma_validation_moves_no_nonce(mempool: MempoolView)
    ensures
        mempool.after_validation().ledger.nonces == mempool.ledger.nonces,
{
}

/// A transaction that passes validation pays exactly its fee, which its
/// balance covers, and the sum of all balances goes down by the fee.
pub proof fn lemma_fee_is_paid(ledger: LedgerView, tx: TransactionView, who: Seq<char>)
    requires
        ledger.wf(),
        rejection(ledger, tx) is None,
    ensures
        fee_charged(ledger, tx).wf(),
        fee_charged(ledger, tx).supply() == ledger.supply() - tx.fee,
        fee_charged(ledger, tx).balance_of(tx.sender) == ledger.balance_of(tx.sender) - tx.fee,
        who != tx.sender ==> fee_charged(ledger, tx).balance_of(who) == ledger.balance_of(who),
{
    lemma_balance_within_supply(ledger, tx.sender);
    lemma_supply_after_write(
        ledger,
        tx.sender,
        (ledger.balance_of(tx.sender) - tx.fee) as u64,
    );
}

impl View for Mempool {
    type V = MempoolView;

    closed spec fn view(&self) -> MempoolView {
        MempoolView {
            queue: transactions_view(self.transactions@),
            rejected: self.rejected_transactions@,
            ledger: self.ledger@,
        }
    }
}

impl Mempool {
    /// A mempool with an empty queue, nothing refused, and the five starting
    /// accounts.
    pub fn new() -> (pool: Self)
        ensures
            pool@.queue == Seq::<TransactionView>::empty(),
            pool@.rejected == Set::<Seq<char>>::empty(),
            pool@.ledger == genesis_ledger(),
            pool@.wf(),
    {
        let mut ledger = Ledger::new();
        ledger.set_balance("Alice", 200);
        ledger.set_nonce("Alice", 0);
        ledger.set_balance("Bob", 500);
        ledger.set_nonce("Bob", 0);
        ledger.set_balance("Mark", 0);
        ledger.set_nonce("Mark", 0);
        ledger.set_balance("Cyndie", 700);
        ledger.set_nonce("Cyndie", 0);
        ledger.set_balance("Mike", 90);
        ledger.set_nonce("Mike", 0);
        let pool = Mempool {
            transactions: VecDeque::new(),
            rejected_transactions: StringHashSet::new(),
            ledger,
        };
        assert(pool@.queue == Seq::<TransactionView>::empty());
        pool
    }

    /// Queues `tx` as `Received`, unless its digest belongs to a transaction
    /// that was rejected for want of funds: then nothing changes. Says
    /// whether the transaction was queued.
    pub fn submit_transaction(&mut self, tx: Transaction) -> (accepted: bool)
        requires
            old(self)@.wf(),
            tx@.well_formed(),
        ensures
            accepted == old(self)@.accepts(tx@),
            final(self)@ == old(self)@.submitted(tx@),
            final(self)@.wf(),
    {
        let hash = tx.get_hash();
        if self.rejected_transactions.contains(hash.as_str()) {
            return false;
        }
        let mut tx = tx;
        tx.update_status(TransactionStatus::Received);
        self.transactions.push_back(tx);
        assert(transactions_view(self.transactions@) == transactions_view(
            old(self).transactions@,
        ).push(tx@));
        true
    }

    /// Takes the oldest pending transaction and checks it against the ledger.
    pub fn validate_next(&mut self) -> (outcome: Validation)
        requires
            old(self)@.wf(),
        ensures
            outcome@ == old(self)@.validation(),
            final(self)@ == old(self)@.after_validation(),
            final(self)@.wf(),
    {
        let popped = self.transactions.pop_front();
        match popped {
            None => Validation::Empty,
            Some(tx) => {
                let mut tx = tx;
                proof {
                    let before = transactions_view(old(self).transactions@);
                    assert(before[0] == tx@);
                    assert(transactions_view(self.transactions@) == before.drop_first());
                    assert forall|i: int|
                        0 <= i < before.drop_first().len() implies (#[trigger] before.drop_first()[i]).well_formed() by {
                        assert(before[i + 1].well_formed());
                    }
                }
                let nonce = self.ledger.get_nonce(tx.sender.as_str());
                if tx.nonce != nonce {
                    tx.update_status(TransactionStatus::Rejected);
                    return Validation::Rejected(tx, Rejection::NonceMismatch);
                }
                let balance = self.ledger.get_balance(tx.sender.as_str());
                if balance <= tx.fee {
                    tx.update_status(TransactionStatus::Rejected);
                    self.rejected_transactions.insert(tx.get_hash());
                    return Validation::Rejected(tx, Rejection::InsufficientFeeFunds);
                }
                let short = match tx.amount {
                    Some(amount) => balance - tx.fee < amount,
                    None => false,
                };
                if short {
                    tx.update_status(TransactionStatus::Rejected);
                    self.rejected_transactions.insert(tx.get_hash());
                    return Validation::Rejected(tx, Rejection::InsufficientTransferFunds);
                }
                self.ledger.set_balance(tx.sender.as_str(), balance - tx.fee);
                tx.update_status(TransactionStatus::Validated);
                Validation::Validated(tx)
            },
        }
    }

    /// Takes the oldest pending transaction, checks it against the ledger, and
    /// hands it back as `Validated` if it passed. Gives nothing when the queue
    /// is empty or the transaction failed.
    pub fn validate_transaction(&mut self) -> (validated: Option<Transaction>)
        requires
            old(self)@.wf(),
        ensures
            match validated {
                Some(tx) => old(self)@.validation() == ValidationView::Validated(tx@),
                None => !(old(self)@.validation() is Validated),
            },
            final(self)@ == old(self)@.after_validation(),
            final(self)@.wf(),
    {
        match self.validate_next() {
            Validation::Validated(tx) => Some(tx),
            _ => None,
        }
    }

    /// The number of pending transactions.
    pub fn pending(&self) -> (count: usize)
        ensures
            count == self@.queue.len(),
    {
        self.transactions.len()
    }

    /// Whether `hash` is the digest of a transaction that was rejected for
    /// want of funds.
    pub fn is_rejected(&self, hash: &str) -> (refused: bool)
        ensures
            refused == self@.rejected.contains(hash@),
    {
        self.rejected_transactions.contains(hash)
    }

    /// The balance of `account`, 0 if the ledger does not know it.
    pub fn get_balance(&self, account: &str) -> (balance: u64)
        ensures
            balance == self@.ledger.balance_of(account@),
    {
        self.ledger.get_balance(account)
    }

    /// The next-expected nonce of `account`, 0 if the ledger does not know it.
    pub fn get_nonce(&self, account: &str) -> (nonce: u64)
        ensures
            nonce == self@.ledger.nonce_of(account@),
    {
        self.ledger.get_nonce(account)
    }

    /// The accounts that hold a balance, in the order in which they appeared.
    pub fn accounts(&self) -> (names: &Vec<String>)
        ensures
            names_view(names@) == self@.ledger.accounts,
    {
        self.ledger.accounts()
    }

    /// Sets the balance of `account`.
    pub(crate) fn set_balance(&mut self, account: &str, amount: u64)
        requires
            old(self)@.ledger.wf(),
            old(self)@.ledger.supply() - old(self)@.ledger.balance_of(account@) + amount
                <= u64::MAX,
        ensures
            final(self)@ == (MempoolView {
                ledger: old(self)@.ledger.with_balance(account@, amount),
                ..old(self)@
            }),
            final(self)@.ledger.wf(),
    {
        self.ledger.set_balance(account, amount);
    }

    /// Sets the next-expected nonce of `account`.
    pub(crate) fn set_nonce(&mut self, account: &str, nonce: u64)
        ensures
            final(self)@ == (MempoolView {
                ledger: old(self)@.ledger.with_nonce(account@, nonce),
                ..old(self)@
            }),
    {
        self.ledger.set_nonce(account, nonce);
    }
}

} // verus!
