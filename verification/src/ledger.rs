//! The balance ledger: what each account holds.

use vstd::prelude::*;
use crate::account::AccountId;

verus! {

/// One account's line in the ledger.
#[derive(Debug, Clone, Copy, PartialEq, Eq)]
pub struct LedgerEntry {
    pub account: AccountId,
    pub balance: u128,
}

/// The balance that the first line for `account` from index `from` on gives;
/// zero where there is no such line.
pub open spec fn balance_from(entries: Seq<LedgerEntry>, account: AccountId, from: int) -> u128
    decreases entries.len() - from,
{
    if from < 0 || from >= entries.len() {
        0
    } else if entries[from].account == account {
        entries[from].balance
    } else {
        balance_from(entries, account, from + 1)
    }
}

/// The balances that a sequence of lines gives: for each account what its
/// first line says, and zero for an account without a line.
pub open spec fn ledger_map(entries: Seq<LedgerEntry>) -> Map<AccountId, u128> {
    Map::total(|account: AccountId| balance_from(entries, account, 0))
}

/// Balances by account. An account that was never credited holds zero.
#[derive(Debug)]
pub struct BalanceLedger {
    entries: Vec<LedgerEntry>,
}

impl View for BalanceLedger {
    type V = Map<AccountId, u128>;

    /// The balance of every account.
    open spec fn view(&self) -> Map<AccountId, u128> {
        Map::total(|account: AccountId| self.holding(account))
    }
}

/// Writing the line at `index`, which is the first line for `account`,
/// changes that account's balance and no other.
proof fn lemma_update_first_line(
    entries: Seq<LedgerEntry>,
    index: int,
    account: AccountId,
    balance: u128,
    other: AccountId,
    from: int,
)
    requires
        0 <= from <= index < entries.len(),
        entries[index].account == account,
        forall|j: int| from <= j < index ==> entries[j].account != account,
    ensures
        balance_from(entries.update(index, LedgerEntry { account, balance }), other, from) == if other
            == account {
            balance
        } else {
            balance_from(entries, other, from)
        },
    decreases index - from,
{
    let updated = entries.update(index, LedgerEntry { account, balance });
    if from < index {
        lemma_update_first_line(entries, index, account, balance, other, from + 1);
    } else if other != account {
        lemma_same_tail(entries, updated, other, from + 1);
    }
}

/// Two ledgers with the same lines from `from` on give the same balances
/// from there.
proof fn lemma_same_tail(a: Seq<LedgerEntry>, b: Seq<LedgerEntry>, account: AccountId, from: int)
    requires
        a.len() == b.len(),
        0 <= from,
        forall|j: int| from <= j < a.len() ==> a[j] == b[j],
    ensures
        balance_from(a, account, from) == balance_from(b, account, from),
    decreases a.len() - from,
{
    if from < a.len() {
        lemma_same_tail(a, b, account, from + 1);
    }
}

/// A new last line for an account without a line sets that account's
/// balance and no other.
proof fn lemma_push_new_line(
    entries: Seq<LedgerEntry>,
    account: AccountId,
    balance: u128,
    other: AccountId,
    from: int,
)
    requires
        0 <= from <= entries.len(),
        forall|j: int| from <= j < entries.len() ==> entries[j].account != account,
    ensures
        balance_from(entries.push(LedgerEntry { account, balance }), other, from) == if other
            == account {
            balance
        } else {
            balance_from(entries, other, from)
        },
    decreases entries.len() - from,
{
    let pushed = entries.push(LedgerEntry { account, balance });
    if from < entries.len() {
        lemma_push_new_line(entries, account, balance, other, from + 1);
        assert(pushed[from] == entries[from]);
    } else {
        assert(pushed[from].account == account);
        assert(balance_from(pushed, other, from + 1) == 0);
    }
}

impl Clone for BalanceLedger {
    fn clone(&self) -> (copy: BalanceLedger)
        ensures
            copy@ == self@,
    {
        let copy = BalanceLedger { entries: self.entries.clone() };
        assert(copy.entries@ =~= self.entries@);
        copy
    }
}

impl BalanceLedger {
    /// What the ledger's lines give `account`.
    pub closed spec fn holding(&self, account: AccountId) -> u128 {
        balance_from(self.entries@, account, 0)
    }

    /// A ledger in which every account holds zero.
    pub fn new() -> (ledger: BalanceLedger)
        ensures
            ledger@ == Map::total(|account: AccountId| 0u128),
    {
        let ledger = BalanceLedger { entries: Vec::new() };
        assert(ledger@ =~= Map::total(|account: AccountId| 0u128));
        ledger
    }

    /// The ledger that the given lines make up.
    pub fn from_entries(entries: Vec<LedgerEntry>) -> (ledger: BalanceLedger)
        ensures
            ledger@ == ledger_map(entries@),
    {
        let ledger = BalanceLedger { entries };
        assert(ledger@ =~= ledger_map(entries@));
        ledger
    }

    /// Lines that make up this ledger.
    pub fn to_entries(&self) -> (entries: Vec<LedgerEntry>)
        ensures
            ledger_map(entries@) == self@,
    {
        let entries = self.entries.clone();
        assert(entries@ =~= self.entries@);
        assert(ledger_map(entries@) =~= self@);
        entries
    }

    /// What `account` holds.
    pub fn balance_of(&self, account: AccountId) -> (balance: u128)
        ensures
            balance == self@[account],
    {
        let mut i: usize = 0;
        while i < self.entries.len()
            invariant
                i <= self.entries.len(),
                balance_from(self.entries@, account, 0) == balance_from(
                    self.entries@,
                    account,
                    i as int,
                ),
            decreases self.entries.len() - i,
        {
            if self.entries[i].account == account {
                return self.entries[i].balance;
            }
            i = i + 1;
        }
        0
    }

    /// Sets what `account` holds; every other balance stays.
    pub fn set_balance(&mut self, account: AccountId, balance: u128)
        ensures
            final(self)@ == old(self)@.insert(account, balance),
    {
        let mut i: usize = 0;
        while i < self.entries.len()
            invariant
                i <= self.entries.len(),
                self.entries == old(self).entries,
                forall|j: int| 0 <= j < i ==> self.entries[j].account != account,
            decreases self.entries.len() - i,
        {
            if self.entries[i].account == account {
                self.entries.set(i, LedgerEntry { account, balance });
                proof {
                    assert forall|other: AccountId|
                        balance_from(self.entries@, other, 0) == #[trigger] old(self)@.insert(
                            account,
                            balance,
                        )[other] by {
                        lemma_update_first_line(
                            old(self).entries@,
                            i as int,
                            account,
                            balance,
                            other,
                            0,
                        );
                    }
                    assert(self@ =~= old(self)@.insert(account, balance));
                }
                return ;
            }
            i = i + 1;
        }
        self.entries.push(LedgerEntry { account, balance });
        proof {
            assert forall|other: AccountId|
                balance_from(self.entries@, other, 0) == #[trigger] old(self)@.insert(
                    account,
                    balance,
                )[other] by {
                lemma_push_new_line(old(self).entries@, account, balance, other, 0);
            }
            assert(self@ =~= old(self)@.insert(account, balance));
        }
    }
}

} // verus!
