//! Transactions: what a sender asks for, how far it has come, and the digest
//! that identifies it.

use crate::digest::{digest_hex, hash_text};
use crate::text::{decimal_text, push_decimal};
use vstd::prelude::*;

verus! {

/// The three kinds of transaction.
#[derive(Clone, Copy, Debug, PartialEq, Eq, Structural)]
pub enum TransactionType {
    Declare,
    Invoke,
    DeployAccount,
}

/// How far a transaction has come. A transaction starts as `Received`; the
/// mempool makes it `Rejected` or `Validated`, the sequencer `Succeeded` or
/// `Reverted`, and the proof stages `ProofGenerated` and `AcceptedOnL1`.
#[derive(Clone, Copy, Debug, PartialEq, Eq, Structural)]
pub enum TransactionStatus {
    Received,
    Rejected,
    Validated,
    Executed,
    Reverted,
    Succeeded,
    ProofGenerated,
    AcceptedOnL1,
}

/// A transaction as submitted, with its current status.
#[derive(Debug)]
pub struct Transaction {
    pub id: usize,
    pub sender: String,
    pub receiver: Option<String>,
    pub contract_address: Option<String>,
    pub amount: Option<u64>,
    pub fee: u64,
    pub nonce: u64,
    pub tx_type: TransactionType,
    pub status: TransactionStatus,
}

/// The mathematical content of a [`Transaction`].
pub struct TransactionView {
    pub id: usize,
    pub sender: Seq<char>,
    pub receiver: Option<Seq<char>>,
    pub contract_address: Option<Seq<char>>,
    pub amount: Option<u64>,
    pub fee: u64,
    pub nonce: u64,
    pub tx_type: TransactionType,
    pub status: TransactionStatus,
}

/// The view of an optional name.
pub open spec fn name_view(name: Option<String>) -> Option<Seq<char>> {
    match name {
        Some(s) => Some(s@),
        None => None,
    }
}

impl View for Transaction {
    type V = TransactionView;

    open spec fn view(&self) -> TransactionView {
        TransactionView {
            id: self.id,
            sender: self.sender@,
            receiver: name_view(self.receiver),
            contract_address: name_view(self.contract_address),
            amount: self.amount,
            fee: self.fee,
            nonce: self.nonce,
            tx_type: self.tx_type,
            status: self.status,
        }
    }
}

/// The fee of a transaction of the given kind.
pub open spec fn fee_of(tx_type: TransactionType) -> u64 {
    match tx_type {
        TransactionType::Invoke => 5,
        TransactionType::Declare => 20,
        TransactionType::DeployAccount => 10,
    }
}

/// The name of a transaction kind as it enters a digest.
pub open spec fn type_label(tx_type: TransactionType) -> Seq<char> {
    match tx_type {
        TransactionType::Declare => "Declare"@,
        TransactionType::Invoke => "Invoke"@,
        TransactionType::DeployAccount => "DeployAccount"@,
    }
}

/// The name of a status as it enters a digest.
pub open spec fn status_label(status: TransactionStatus) -> Seq<char> {
    match status {
        TransactionStatus::Received => "Received"@,
        TransactionStatus::Rejected => "Rejected"@,
        TransactionStatus::Validated => "Validated"@,
        TransactionStatus::Executed => "Executed"@,
        TransactionStatus::Reverted => "Reverted"@,
        TransactionStatus::Succeeded => "Succeeded"@,
        TransactionStatus::ProofGenerated => "ProofGenerated"@,
        TransactionStatus::AcceptedOnL1 => "AcceptedOnL1"@,
    }
}

/// An optional amount as it enters a digest: `Some(10)` or `None`.
pub open spec fn amount_label(amount: Option<u64>) -> Seq<char> {
    match amount {
        Some(value) => "Some("@ + decimal_text(value as nat) + ")"@,
        None => "None"@,
    }
}

/// The next status in a transaction's life, one step at a time.
pub open spec fn status_follows(before: TransactionStatus, after: TransactionStatus) -> bool {
    match before {
        TransactionStatus::Received => after == TransactionStatus::Rejected || after
            == TransactionStatus::Validated,
        TransactionStatus::Validated => after == TransactionStatus::Executed || after
            == TransactionStatus::Succeeded || after == TransactionStatus::Reverted || after
            == TransactionStatus::Rejected,
        TransactionStatus::Executed => after == TransactionStatus::Succeeded || after
            == TransactionStatus::Reverted,
        TransactionStatus::Succeeded => after == TransactionStatus::ProofGenerated,
        TransactionStatus::ProofGenerated => after == TransactionStatus::AcceptedOnL1,
        TransactionStatus::Rejected => false,
        TransactionStatus::Reverted => false,
        TransactionStatus::AcceptedOnL1 => false,
    }
}

impl TransactionView {
    /// The same transaction with another status.
    pub open spec fn with_status(self, status: TransactionStatus) -> TransactionView {
        TransactionView { status, ..self }
    }

    /// An invoke that moves an amount names who receives it, and the claimed
    /// nonce leaves room for the increment that execution makes.
    pub open spec fn well_formed(self) -> bool {
        &&& self.tx_type == TransactionType::Invoke && self.amount is Some ==> self.receiver is Some
        &&& self.nonce < u64::MAX
    }

    /// The text whose digest identifies the transaction: id, sender, kind,
    /// nonce and amount, joined by hyphens.
    pub open spec fn hash_text(self) -> Seq<char> {
        decimal_text(self.id as nat) + "-"@ + self.sender + "-"@ + type_label(self.tx_type) + "-"@
            + decimal_text(self.nonce as nat) + "-"@ + amount_label(self.amount)
    }

    /// The digest that identifies the transaction.
    pub open spec fn hash(self) -> Seq<char> {
        digest_hex(self.hash_text())
    }

    /// The text that a transaction contributes to a block's commitment: id,
    /// sender and status, joined by hyphens.
    pub open spec fn commitment_text(self) -> Seq<char> {
        decimal_text(self.id as nat) + "-"@ + self.sender + "-"@ + status_label(self.status)
    }
}

/// Two transactions that agree on id, sender, kind, nonce and amount have the
/// same digest, whatever their receiver, fee and status.
pub proof fn lemma_hash_of_identity_fields(a: TransactionView, b: TransactionView)
    requires
        a.id == b.id,
        a.sender == b.sender,
        a.tx_type == b.tx_type,
        a.nonce == b.nonce,
        a.amount == b.amount,
    ensures
        a.hash() == b.hash(),
{
}

/// The name of a transaction kind.
pub fn kind_name(tx_type: TransactionType) -> (name: &'static str)
    ensures
        name@ == type_label(tx_type),
{
    match tx_type {
        TransactionType::Declare => "Declare",
        TransactionType::Invoke => "Invoke",
        TransactionType::DeployAccount => "DeployAccount",
    }
}

/// The name of a status.
pub fn status_name(status: TransactionStatus) -> (name: &'static str)
    ensures
        name@ == status_label(status),
{
    match status {
        TransactionStatus::Received => "Received",
        TransactionStatus::Rejected => "Rejected",
        TransactionStatus::Validated => "Validated",
        TransactionStatus::Executed => "Executed",
        TransactionStatus::Reverted => "Reverted",
        TransactionStatus::Succeeded => "Succeeded",
        TransactionStatus::ProofGenerated => "ProofGenerated",
        TransactionStatus::AcceptedOnL1 => "AcceptedOnL1",
    }
}

fn push_amount(out: &mut String, amount: Option<u64>)
    ensures
        final(out)@ == old(out)@ + amount_label(amount),
{
    match amount {
        Some(value) => {
            out.append("Some(");
            push_decimal(out, value);
            out.append(")");
            assert(out@ == old(out)@ + ("Some("@ + decimal_text(value as nat) + ")"@));
        },
        None => {
            out.append("None");
        },
    }
}

fn clone_name(name: &Option<String>) -> (copy: Option<String>)
    ensures
        copy == *name,
{
    match name {
        Some(s) => Some(s.clone()),
        None => None,
    }
}

impl Clone for Transaction {
    fn clone(&self) -> (copy: Self)
        ensures
            copy == *self,
    {
        Transaction {
            id: self.id,
            sender: self.sender.clone(),
            receiver: clone_name(&self.receiver),
            contract_address: clone_name(&self.contract_address),
            amount: self.amount,
            fee: self.fee,
            nonce: self.nonce,
            tx_type: self.tx_type,
            status: self.status,
        }
    }
}

impl Transaction {
    /// The digest that identifies the transaction, as 64 hexadecimal digits.
    pub fn get_hash(&self) -> (hash: String)
        ensures
            hash@ == self@.hash(),
    {
        let mut text = String::new();
        push_decimal(&mut text, self.id as u64);
        text.append("-");
        text.append(self.sender.as_str());
        text.append("-");
        text.append(kind_name(self.tx_type));
        text.append("-");
        push_decimal(&mut text, self.nonce);
        text.append("-");
        push_amount(&mut text, self.amount);
        assert(text@ == self@.hash_text());
        hash_text(text.as_str())
    }

    /// The fee of a transaction of the given kind.
    pub fn calculate_fee(tx_type: &TransactionType) -> (fee: u64)
        ensures
            fee == fee_of(*tx_type),
    {
        match tx_type {
            TransactionType::Invoke => 5,
            TransactionType::Declare => 20,
            TransactionType::DeployAccount => 10,
        }
    }

    /// A received transaction with the given id, whose fee follows from its kind.
    pub fn new(
        id: usize,
        sender: String,
        tx_type: TransactionType,
        receiver: Option<String>,
        contract_address: Option<String>,
        amount: Option<u64>,
        nonce: u64,
    ) -> (tx: Self)
        ensures
            tx@ == (TransactionView {
                id,
                sender: sender@,
                receiver: name_view(receiver),
                contract_address: name_view(contract_address),
                amount,
                fee: fee_of(tx_type),
                nonce,
                tx_type,
                status: TransactionStatus::Received,
            }),
    {
        let fee = Self::calculate_fee(&tx_type);
        Transaction {
            id,
            sender,
            receiver,
            contract_address,
            amount,
            fee,
            tx_type,
            status: TransactionStatus::Received,
            nonce,
        }
    }

    /// Replaces the status and leaves everything else as it was.
    pub fn update_status(&mut self, new_status: TransactionStatus)
        ensures
            final(self)@ == old(self)@.with_status(new_status),
    {
        self.status = new_status;
    }

    /// Whether the transaction can be queued for execution.
    pub fn is_well_formed(&self) -> (ok: bool)
        ensures
            ok == self@.well_formed(),
    {
        let routed = match self.tx_type {
            TransactionType::Invoke => self.amount.is_none() || self.receiver.is_some(),
            _ => true,
        };
        routed && self.nonce < u64::MAX
    }
}

/// A source of transaction ids: 1, 2, 3 and so on, each handed out once.
pub struct TransactionIds {
    next: usize,
}

impl View for TransactionIds {
    type V = usize;

    /// The id that will be handed out next.
    closed spec fn view(&self) -> usize {
        self.next
    }
}

impl TransactionIds {
    /// A source whose first id is 1.
    pub fn new() -> (ids: Self)
        ensures
            ids@ == 1,
    {
        TransactionIds { next: 1 }
    }

    /// Hands out the next id, or nothing once every id below `usize::MAX` is
    /// taken.
    pub fn issue(&mut self) -> (id: Option<usize>)
        ensures
            match id {
                Some(n) => n == old(self)@ && n < usize::MAX && final(self)@ == n + 1,
                None => old(self)@ == usize::MAX && final(self)@ == old(self)@,
            },
    {
        if self.next < usize::MAX {
            let id = self.next;
            self.next = id + 1;
            Some(id)
        } else {
            None
        }
    }
}

} // verus!
