//! The account ledger: a balance and a next-expected nonce for each account
//! name, and the total of all balances, which never exceeds `u64::MAX`.

use vstd::hash_map::StringHashMap;
use vstd::prelude::*;

verus! {

/// Balances and nonces by account name. An account that the ledger has never
/// seen has balance 0 and nonce 0.
pub struct Ledger {
    balances: StringHashMap<u64>,
    nonces: StringHashMap<u64>,
    accounts: Vec<String>,
}

/// The mathematical content of a [`Ledger`].
pub struct LedgerView {
    /// The balance of each account that holds one.
    pub balances: Map<Seq<char>, u64>,
    /// The next-expected nonce of each account that has one.
    pub nonces: Map<Seq<char>, u64>,
    /// The accounts that hold a balance, in the order in which they appeared.
    pub accounts: Seq<Seq<char>>,
}

/// The views of a list of names.
pub open spec fn names_view(names: Seq<String>) -> Seq<Seq<char>> {
    names.map_values(|name: String| name@)
}

/// The sum of the balances of the listed accounts.
pub open spec fn total_of(accounts: Seq<Seq<char>>, balances: Map<Seq<char>, u64>) -> nat
    decreases accounts.len(),
{
    if accounts.len() == 0 {
        0
    } else {
        total_of(accounts.drop_last(), balances) + balances[accounts.last()] as nat
    }
}

impl LedgerView {
    /// The balance of `who`, 0 for an unknown account.
    pub open spec fn balance_of(self, who: Seq<char>) -> u64 {
        if self.balances.contains_key(who) {
            self.balances[who]
        } else {
            0
        }
    }

    /// The next-expected nonce of `who`, 0 for an unknown account.
    pub open spec fn nonce_of(self, who: Seq<char>) -> u64 {
        if self.nonces.contains_key(who) {
            self.nonces[who]
        } else {
            0
        }
    }

    /// The sum of all balances.
    pub open spec fn supply(self) -> nat {
        total_of(self.accounts, self.balances)
    }

    /// The account list names each holder of a balance once, and the sum of
    /// all balances fits in a `u64`.
    pub open spec fn wf(self) -> bool {
        &&& self.accounts.no_duplicates()
        &&& forall|who: Seq<char>|
            #![trigger self.balances.contains_key(who)]
            #![trigger self.accounts.contains(who)]
            self.balances.contains_key(who) <==> self.accounts.contains(who)
        &&& self.supply() <= u64::MAX
    }

    /// The ledger after the balance of `who` is set to `amount`; an unknown
    /// account joins the end of the account list.
    pub open spec fn with_balance(self, who: Seq<char>, amount: u64) -> LedgerView {
        LedgerView {
            balances: self.balances.insert(who, amount),
            accounts: if self.balances.contains_key(who) {
                self.accounts
            } else {
                self.accounts.push(who)
            },
            ..self
        }
    }

    /// The ledger after the nonce of `who` is set to `nonce`.
    pub open spec fn with_nonce(self, who: Seq<char>, nonce: u64) -> LedgerView {
        LedgerView { nonces: self.nonces.insert(who, nonce), ..self }
    }
}

proof fn lemma_total_skips(
    accounts: Seq<Seq<char>>,
    balances: Map<Seq<char>, u64>,
    who: Seq<char>,
    amount: u64,
)
    requires
        !accounts.contains(who),
    ensures
        total_of(accounts, balances.insert(who, amount)) == total_of(accounts, balances),
    decreases accounts.len(),
{
    if accounts.len() > 0 {
        let rest = accounts.drop_last();
        assert(accounts[accounts.len() - 1] == accounts.last());
        assert forall|name: Seq<char>| rest.contains(name) implies accounts.contains(name) by {
            let i = choose|i: int| 0 <= i < rest.len() && rest[i] == name;
            assert(accounts[i] == name);
        }
        lemma_total_skips(rest, balances, who, amount);
    }
}

proof fn lemma_total_replaces(
    accounts: Seq<Seq<char>>,
    balances: Map<Seq<char>, u64>,
    who: Seq<char>,
    amount: u64,
)
    requires
        accounts.no_duplicates(),
        accounts.contains(who),
    ensures
        total_of(accounts, balances.insert(who, amount)) == total_of(accounts, balances)
            - balances[who] + amount,
        balances[who] <= total_of(accounts, balances),
    decreases accounts.len(),
{
    let rest = accounts.drop_last();
    let last = accounts.last();
    assert(accounts[accounts.len() - 1] == last);
    if last == who {
        assert(!rest.contains(who)) by {
            if rest.contains(who) {
                let i = choose|i: int| 0 <= i < rest.len() && rest[i] == who;
                assert(accounts[i] == accounts[accounts.len() - 1]);
            }
        }
        lemma_total_skips(rest, balances, who, amount);
    } else {
        let i = choose|i: int| 0 <= i < accounts.len() && accounts[i] == who;
        assert(rest[i] == who);
        lemma_total_replaces(rest, balances, who, amount);
    }
}

/// No account holds more than the sum of all balances.
pub proof fn lemma_balance_within_supply(ledger: LedgerView, who: Seq<char>)
    requires
        ledger.wf(),
    ensures
        ledger.balance_of(who) <= ledger.supply(),
{
    if ledger.balances.contains_key(who) {
        lemma_total_replaces(ledger.accounts, ledger.balances, who, 0);
    }
}

/// Setting one balance changes the sum of all balances by the difference
/// between the new balance and the old one, and keeps the ledger well formed
/// as long as the new sum fits in a `u64`.
pub proof fn lemma_supply_after_write(ledger: LedgerView, who: Seq<char>, amount: u64)
    requires
        ledger.wf(),
    ensures
        ledger.with_balance(who, amount).supply() == ledger.supply() - ledger.balance_of(who)
            + amount,
        ledger.supply() - ledger.balance_of(who) + amount <= u64::MAX ==> ledger.with_balance(
            who,
            amount,
        ).wf(),
{
    let after = ledger.with_balance(who, amount);
    if ledger.balances.contains_key(who) {
        lemma_total_replaces(ledger.accounts, ledger.balances, who, amount);
        assert forall|name: Seq<char>|
            after.balances.contains_key(name) <==> after.accounts.contains(name) by {
            assert(ledger.balances.contains_key(name) <==> ledger.accounts.contains(name));
        }
    } else {
        assert(after.accounts.drop_last() == ledger.accounts);
        assert(after.accounts.last() == who);
        lemma_total_skips(ledger.accounts, ledger.balances, who, amount);
        assert forall|name: Seq<char>|
            after.balances.contains_key(name) <==> after.accounts.contains(name) by {
            assert(ledger.balances.contains_key(name) <==> ledger.accounts.contains(name));
            if ledger.accounts.contains(name) {
                let i = choose|i: int| 0 <= i < ledger.accounts.len() && ledger.accounts[i] == name;
                assert(after.accounts[i] == name);
            }
            if name == who {
                assert(after.accounts[after.accounts.len() - 1] == who);
            }
            if after.accounts.contains(name) && name != who {
                let i = choose|i: int| 0 <= i < after.accounts.len() && after.accounts[i] == name;
                assert(ledger.accounts[i] == name);
            }
        }
        assert(after.accounts.no_duplicates()) by {
            assert forall|i: int, j: int|
                0 <= i < after.accounts.len() && 0 <= j < after.accounts.len() && i
                    != j implies after.accounts[i] != after.accounts[j] by {
                if i < ledger.accounts.len() {
                    assert(ledger.accounts.contains(after.accounts[i]));
                }
                if j < ledger.accounts.len() {
                    assert(ledger.accounts.contains(after.accounts[j]));
                }
            }
        }
    }
}

impl View for Ledger {
    type V = LedgerView;

    closed spec fn view(&self) -> LedgerView {
        LedgerView {
            balances: self.balances@,
            nonces: self.nonces@,
            accounts: names_view(self.accounts@),
        }
    }
}

impl Ledger {
    /// A ledger without accounts.
    pub fn new() -> (ledger: Self)
        ensures
            ledger@.balances == Map::<Seq<char>, u64>::empty(),
            ledger@.nonces == Map::<Seq<char>, u64>::empty(),
            ledger@.accounts == Seq::<Seq<char>>::empty(),
            ledger@.wf(),
    {
        let ledger = Ledger {
            balances: StringHashMap::new(),
            nonces: StringHashMap::new(),
            accounts: Vec::new(),
        };
        assert(ledger@.accounts == Seq::<Seq<char>>::empty());
        ledger
    }

    /// The balance of `account`, 0 if the ledger does not know it.
    pub fn get_balance(&self, account: &str) -> (balance: u64)
        ensures
            balance == self@.balance_of(account@),
    {
        match self.balances.get(account) {
            Some(balance) => *balance,
            None => 0,
        }
    }

    /// The next-expected nonce of `account`, 0 if the ledger does not know it.
    pub fn get_nonce(&self, account: &str) -> (nonce: u64)
        ensures
            nonce == self@.nonce_of(account@),
    {
        match self.nonces.get(account) {
            Some(nonce) => *nonce,
            None => 0,
        }
    }

    /// The accounts that hold a balance, in the order in which they appeared.
    pub fn accounts(&self) -> (names: &Vec<String>)
        ensures
            names_view(names@) == self@.accounts,
    {
        &self.accounts
    }

    /// Sets the balance of `account`.
    pub(crate) fn set_balance(&mut self, account: &str, amount: u64)
        requires
            old(self)@.wf(),
            old(self)@.supply() - old(self)@.balance_of(account@) + amount <= u64::MAX,
        ensures
            final(self)@ == old(self)@.with_balance(account@, amount),
            final(self)@.wf(),
            final(self)@.supply() == old(self)@.supply() - old(self)@.balance_of(account@) + amount,
    {
        proof {
            lemma_supply_after_write(self@, account@, amount);
        }
        let known = self.balances.contains_key(account);
        self.balances.insert(String::from_str(account), amount);
        if !known {
            self.accounts.push(String::from_str(account));
            assert(names_view(self.accounts@) == names_view(old(self).accounts@).push(account@));
        }
    }

    /// Sets the next-expected nonce of `account`.
    pub(crate) fn set_nonce(&mut self, account: &str, nonce: u64)
        ensures
            final(self)@ == old(self)@.with_nonce(account@, nonce),
    {
        self.nonces.insert(String::from_str(account), nonce);
    }
}

} // verus!
