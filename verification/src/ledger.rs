//! The ledger balance tracker: what the store believes it holds of each token.

use crate::models::{AccountId, ContractError};
use vstd::prelude::*;

verus! {

/// What the ledger holds of one token.
pub struct LedgerEntry {
    pub token: AccountId,
    pub amount: u128,
}

/// Per-token balances. A token without an entry has balance zero.
pub struct Ledger {
    pub entries: Vec<LedgerEntry>,
}

/// Some entry of `entries` is for `token`.
pub open spec fn has_entry(entries: Seq<LedgerEntry>, token: Seq<char>) -> bool {
    exists|i: int| 0 <= i < entries.len() && #[trigger] entries[i].token@ == token
}

/// The amount recorded for `token`, zero where there is no entry.
pub open spec fn balance_in(entries: Seq<LedgerEntry>, token: Seq<char>) -> nat {
    if has_entry(entries, token) {
        let i = choose|i: int| 0 <= i < entries.len() && #[trigger] entries[i].token@ == token;
        entries[i].amount as nat
    } else {
        0
    }
}

/// No token has two entries.
pub open spec fn distinct_tokens(entries: Seq<LedgerEntry>) -> bool {
    forall|i: int, j: int|
        0 <= i < entries.len() && 0 <= j < entries.len() && i != j ==> #[trigger] entries[i].token@
            != #[trigger] entries[j].token@
}

/// What crediting `amount` of `token` makes of the balances `m`.
pub open spec fn credited(m: Map<Seq<char>, nat>, token: Seq<char>, amount: nat) -> Map<
    Seq<char>,
    nat,
> {
    m.insert(token, m[token] + amount)
}

/// What debiting `amount` of `token` makes of the balances `m`, where the balance suffices.
pub open spec fn debited(m: Map<Seq<char>, nat>, token: Seq<char>, amount: nat) -> Map<
    Seq<char>,
    nat,
>
    recommends
        m[token] >= amount,
{
    m.insert(token, (m[token] - amount) as nat)
}

/// In a ledger without repetition the balance of a token is the amount of its entry.
pub proof fn lemma_balance_at(entries: Seq<LedgerEntry>, i: int)
    requires
        distinct_tokens(entries),
        0 <= i < entries.len(),
    ensures
        has_entry(entries, entries[i].token@),
        balance_in(entries, entries[i].token@) == entries[i].amount,
{
    let t = entries[i].token@;
    assert(entries[i].token@ == t);
    let j = choose|j: int| 0 <= j < entries.len() && #[trigger] entries[j].token@ == t;
    assert(j == i);
}

impl View for Ledger {
    type V = Map<Seq<char>, nat>;

    /// The balance of every token.
    open spec fn view(&self) -> Map<Seq<char>, nat> {
        Map::total(|t: Seq<char>| balance_in(self.entries@, t))
    }
}

impl Ledger {
    /// No token has two entries.
    pub open spec fn wf(&self) -> bool {
        distinct_tokens(self.entries@)
    }

    /// A ledger that holds nothing.
    pub fn new() -> (r: Ledger)
        ensures
            r.wf(),
            r@ == Map::total(|t: Seq<char>| 0nat),
    {
        let r = Ledger { entries: Vec::new() };
        assert(r@ =~= Map::total(|t: Seq<char>| 0nat));
        r
    }

    fn position(&self, token: &AccountId) -> (r: Option<usize>)
        requires
            self.wf(),
        ensures
            match r {
                Some(i) => i < self.entries@.len() && self.entries@[i as int].token@ == token@,
                None => !has_entry(self.entries@, token@),
            },
    {
        let mut i: usize = 0;
        while i < self.entries.len()
            invariant
                i <= self.entries@.len(),
                forall|j: int| 0 <= j < i ==> #[trigger] self.entries@[j].token@ != token@,
            decreases self.entries@.len() - i,
        {
            if self.entries[i].token == *token {
                return Some(i);
            }
            i = i + 1;
        }
        None
    }

    /// The balance held of `token`.
    pub fn balance(&self, token: &AccountId) -> (r: u128)
        requires
            self.wf(),
        ensures
            r == self@[token@],
    {
        match self.position(token) {
            Some(i) => {
                proof {
                    lemma_balance_at(self.entries@, i as int);
                }
                self.entries[i].amount
            },
            None => 0,
        }
    }

    /// Adds `amount` to the balance of `token`. An overflow of the balance is
    /// refused with `BalanceOverflow`.
    pub fn credit(&mut self, token: &AccountId, amount: u128) -> (r: Result<(), ContractError>)
        requires
            old(self).wf(),
        ensures
            final(self).wf(),
            r is Ok <==> old(self)@[token@] + amount <= u128::MAX,
            r is Ok ==> final(self)@ == credited(old(self)@, token@, amount as nat),
            r is Err ==> r == Err::<(), ContractError>(ContractError::BalanceOverflow) && *final(self)
                == *old(self),
    {
        match self.position(token) {
            Some(i) => {
                proof {
                    lemma_balance_at(self.entries@, i as int);
                }
                let cur: u128 = self.entries[i].amount;
                match cur.checked_add(amount) {
                    Some(sum) => {
                        self.entries[i].amount = sum;
                        proof {
                            assert(distinct_tokens(self.entries@)) by {
                                assert forall|a: int, b: int|
                                    0 <= a < self.entries@.len() && 0 <= b < self.entries@.len() && a
                                        != b implies #[trigger] self.entries@[a].token@
                                    != #[trigger] self.entries@[b].token@ by {
                                    assert(self.entries@[a].token@ == old(self).entries@[a].token@);
                                    assert(self.entries@[b].token@ == old(self).entries@[b].token@);
                                }
                            }
                            lemma_updated(old(self).entries@, self.entries@, i as int);
                            assert(self@ =~= credited(old(self)@, token@, amount as nat));
                        }
                        Ok(())
                    },
                    None => Err(ContractError::BalanceOverflow),
                }
            },
            None => {
                self.entries.push(LedgerEntry { token: token.clone(), amount });
                proof {
                    lemma_pushed(old(self).entries@, self.entries@);
                    assert(self@ =~= credited(old(self)@, token@, amount as nat));
                }
                Ok(())
            },
        }
    }

    /// Takes `amount` from the balance of `token`. A balance that does not
    /// cover the amount is refused with `BalanceUnderflow`: the balance never
    /// goes below zero.
    pub fn debit(&mut self, token: &AccountId, amount: u128) -> (r: Result<(), ContractError>)
        requires
            old(self).wf(),
        ensures
            final(self).wf(),
            r is Ok <==> old(self)@[token@] >= amount,
            r is Ok ==> final(self)@ == debited(old(self)@, token@, amount as nat),
            r is Err ==> r == Err::<(), ContractError>(ContractError::BalanceUnderflow) && *final(self)
                == *old(self),
    {
        match self.position(token) {
            Some(i) => {
                proof {
                    lemma_balance_at(self.entries@, i as int);
                }
                let cur: u128 = self.entries[i].amount;
                if cur >= amount {
                    self.entries[i].amount = cur - amount;
                    proof {
                        assert(distinct_tokens(self.entries@)) by {
                            assert forall|a: int, b: int|
                                0 <= a < self.entries@.len() && 0 <= b < self.entries@.len() && a
                                    != b implies #[trigger] self.entries@[a].token@
                                != #[trigger] self.entries@[b].token@ by {
                                assert(self.entries@[a].token@ == old(self).entries@[a].token@);
                                assert(self.entries@[b].token@ == old(self).entries@[b].token@);
                            }
                        }
                        lemma_updated(old(self).entries@, self.entries@, i as int);
                        assert(self@ =~= debited(old(self)@, token@, amount as nat));
                    }
                    Ok(())
                } else {
                    Err(ContractError::BalanceUnderflow)
                }
            },
            None => {
                if amount == 0 {
                    proof {
                        assert(self@ =~= debited(old(self)@, token@, amount as nat));
                    }
                    Ok(())
                } else {
                    Err(ContractError::BalanceUnderflow)
                }
            },
        }
    }
}

impl Clone for Ledger {
    /// A copy of the ledger, entry by entry.
    fn clone(&self) -> (r: Ledger)
        ensures
            r.entries@ == self.entries@,
            r@ == self@,
            r.wf() == self.wf(),
    {
        let mut entries: Vec<LedgerEntry> = Vec::new();
        let mut i: usize = 0;
        while i < self.entries.len()
            invariant
                i <= self.entries@.len(),
                entries@ == self.entries@.subrange(0, i as int),
            decreases self.entries@.len() - i,
        {
            entries.push(
                LedgerEntry { token: self.entries[i].token.clone(), amount: self.entries[i].amount },
            );
            proof {
                assert(entries@ =~= self.entries@.subrange(0, i + 1));
            }
            i = i + 1;
        }
        proof {
            assert(entries@ =~= self.entries@);
        }
        Ledger { entries }
    }
}

/// Changing the amount of one entry changes the balance of its token and of no other.
proof fn lemma_updated(before: Seq<LedgerEntry>, after: Seq<LedgerEntry>, i: int)
    requires
        distinct_tokens(before),
        distinct_tokens(after),
        0 <= i < before.len(),
        after.len() == before.len(),
        forall|j: int| 0 <= j < before.len() ==> #[trigger] after[j].token@ == before[j].token@,
        forall|j: int| 0 <= j < before.len() && j != i ==> #[trigger] after[j].amount == before[j].amount,
    ensures
        balance_in(after, before[i].token@) == after[i].amount,
        forall|t: Seq<char>| t != before[i].token@ ==> #[trigger] balance_in(after, t) == balance_in(before, t),
{
    lemma_balance_at(after, i);
    assert forall|t: Seq<char>| t != before[i].token@ implies #[trigger] balance_in(after, t)
        == balance_in(before, t) by {
        if has_entry(before, t) {
            let j = choose|j: int| 0 <= j < before.len() && #[trigger] before[j].token@ == t;
            lemma_balance_at(before, j);
            assert(after[j].token@ == t);
            lemma_balance_at(after, j);
        } else {
            if has_entry(after, t) {
                let j = choose|j: int| 0 <= j < after.len() && #[trigger] after[j].token@ == t;
                assert(before[j].token@ == t);
            }
        }
    }
}

/// A new entry for a token that had none sets the balance of that token and of no other.
proof fn lemma_pushed(before: Seq<LedgerEntry>, after: Seq<LedgerEntry>)
    requires
        distinct_tokens(before),
        after.len() == before.len() + 1,
        forall|j: int| 0 <= j < before.len() ==> #[trigger] after[j] == before[j],
        !has_entry(before, after[before.len() as int].token@),
    ensures
        distinct_tokens(after),
        balance_in(before, after[before.len() as int].token@) == 0,
        balance_in(after, after[before.len() as int].token@) == after[before.len() as int].amount,
        forall|t: Seq<char>|
            t != after[before.len() as int].token@ ==> #[trigger] balance_in(after, t) == balance_in(
                before,
                t,
            ),
{
    let n = before.len() as int;
    assert forall|a: int, b: int| 0 <= a < after.len() && 0 <= b < after.len() && a != b implies #[trigger] after[a].token@
        != #[trigger] after[b].token@ by {
        if a < n && b < n {
            assert(after[a] == before[a]);
            assert(after[b] == before[b]);
        } else if a < n {
            assert(after[a] == before[a]);
            assert(before[a].token@ == after[a].token@);
        } else {
            assert(after[b] == before[b]);
            assert(before[b].token@ == after[b].token@);
        }
    }
    lemma_balance_at(after, n);
    assert forall|t: Seq<char>| t != after[n].token@ implies #[trigger] balance_in(after, t)
        == balance_in(before, t) by {
        if has_entry(before, t) {
            let j = choose|j: int| 0 <= j < before.len() && #[trigger] before[j].token@ == t;
            lemma_balance_at(before, j);
            assert(after[j] == before[j]);
            lemma_balance_at(after, j);
        } else {
            if has_entry(after, t) {
                let j = choose|j: int| 0 <= j < after.len() && #[trigger] after[j].token@ == t;
                assert(after[j] == before[j]);
                assert(before[j].token@ == t);
            }
        }
    }
}

/// A debit followed by a credit of the same amount of the same token restores
/// every balance.
pub proof fn lemma_debit_then_credit_restores(m: Map<Seq<char>, nat>, token: Seq<char>, amount: nat)
    requires
        m.dom().contains(token),
        m[token] >= amount,
    ensures
        credited(debited(m, token, amount), token, amount) == m,
{
    assert(credited(debited(m, token, amount), token, amount) =~= m);
}

} // verus!
