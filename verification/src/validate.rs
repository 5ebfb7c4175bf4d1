//! Checking a store that comes from outside, such as one read back from
//! storage, before any operation is run on it.

use crate::accounts::distinct_accounts;
use crate::guard::{Lock, LockKey, ReentrancyGuard};
use crate::ledger::{Ledger, LedgerEntry};
use crate::models::{AccountId, Bid, BidStatus, Property};
use crate::state::{bids_ok, ended_bids_free, order_ok};
use crate::ShedaContract;
use vstd::prelude::*;

verus! {

/// Whether no name occurs twice in `list`.
pub fn accounts_are_distinct(list: &Vec<AccountId>) -> (r: bool)
    ensures
        r == distinct_accounts(list@),
{
    let mut i: usize = 0;
    while i < list.len()
        invariant
            i <= list@.len(),
            forall|a: int, b: int|
                0 <= a < i && 0 <= b < list@.len() && a != b ==> #[trigger] list@[a]@
                    != #[trigger] list@[b]@,
        decreases list@.len() - i,
    {
        let mut j: usize = i + 1;
        while j < list.len()
            invariant
                i < j <= list@.len(),
                forall|b: int| i < b < j ==> list@[i as int]@ != #[trigger] list@[b]@,
            decreases list@.len() - j,
        {
            if list[i] == list[j] {
                return false;
            }
            j = j + 1;
        }
        i = i + 1;
    }
    true
}

impl Ledger {
    /// Whether no token has two entries.
    pub fn is_well_formed(&self) -> (r: bool)
        ensures
            r == self.wf(),
    {
        let list: &Vec<LedgerEntry> = &self.entries;
        let mut i: usize = 0;
        while i < list.len()
            invariant
                list@ == self.entries@,
                i <= list@.len(),
                forall|a: int, b: int|
                    0 <= a < i && 0 <= b < list@.len() && a != b ==> #[trigger] list@[a].token@
                        != #[trigger] list@[b].token@,
            decreases list@.len() - i,
        {
            let mut j: usize = i + 1;
            while j < list.len()
                invariant
                    list@ == self.entries@,
                    i < j <= list@.len(),
                    forall|b: int| i < b < j ==> list@[i as int].token@ != #[trigger] list@[b].token@,
                decreases list@.len() - j,
            {
                if list[i].token == list[j].token {
                    proof {
                        assert(self.entries@[i as int].token@ == self.entries@[j as int].token@);
                    }
                    return false;
                }
                j = j + 1;
            }
            i = i + 1;
        }
        true
    }
}

impl ReentrancyGuard {
    /// Whether no key is held twice.
    pub fn is_well_formed(&self) -> (r: bool)
        ensures
            r == self.wf(),
    {
        let list: &Vec<Lock> = &self.held;
        let mut i: usize = 0;
        while i < list.len()
            invariant
                list@ == self.held@,
                i <= list@.len(),
                forall|a: int, b: int|
                    0 <= a < i && 0 <= b < list@.len() && a != b ==> #[trigger] list@[a].key
                        != #[trigger] list@[b].key,
            decreases list@.len() - i,
        {
            let mut j: usize = i + 1;
            while j < list.len()
                invariant
                    list@ == self.held@,
                    i < j <= list@.len(),
                    forall|b: int| i < b < j ==> list@[i as int].key != #[trigger] list@[b].key,
                decreases list@.len() - j,
            {
                if list[i].key.same(&list[j].key) {
                    proof {
                        assert(self.held@[i as int].key == self.held@[j as int].key);
                    }
                    return false;
                }
                j = j + 1;
            }
            i = i + 1;
        }
        true
    }
}

/// The id of the bid at place `j` is below that of the next bid.
pub open spec fn ascends_at(list: Seq<Bid>, j: int) -> bool {
    list[j].id < list[j + 1].id
}

/// Ids that ascend from each bid to the next ascend from each bid to every
/// later one.
proof fn lemma_ascending(list: Seq<Bid>, j: int, k: int)
    requires
        forall|i: int| 0 <= i < list.len() - 1 ==> #[trigger] ascends_at(list, i),
        0 <= j < k < list.len(),
    ensures
        list[j].id < list[k].id,
    decreases k - j,
{
    if k > j + 1 {
        lemma_ascending(list, j, k - 1);
    }
    assert(ascends_at(list, k - 1));
}

/// Whether the bids are in order for the property: each names it, has an id
/// below `counter` and has been refunded where it is rejected, and the ids
/// ascend.
pub fn bids_are_in_order(list: &Vec<Bid>, property_id: u64, counter: u64) -> (r: bool)
    ensures
        r == bids_ok(list@, property_id, counter),
{
    let mut i: usize = 0;
    while i < list.len()
        invariant
            i <= list@.len(),
            forall|j: int|
                0 <= j < i ==> (#[trigger] list@[j]).property_id == property_id && list@[j].id
                    < counter && (list@[j].status == BidStatus::Rejected ==> list@[j].settled_at
                    is Some),
            forall|j: int| 0 <= j < i - 1 ==> #[trigger] ascends_at(list@, j),
        decreases list@.len() - i,
    {
        if list[i].property_id != property_id || list[i].id >= counter {
            return false;
        }
        if list[i].status == BidStatus::Rejected && list[i].settled_at.is_none() {
            return false;
        }
        if i > 0 && list[i - 1].id >= list[i].id {
            proof {
                assert(!(list@[i - 1].id < list@[i as int].id));
            }
            return false;
        }
        proof {
            if i > 0 {
                assert(ascends_at(list@, i - 1));
            }
        }
        i = i + 1;
    }
    proof {
        assert forall|j: int, k: int| 0 <= j < k < list@.len() implies (#[trigger] list@[j]).id < (
        #[trigger] list@[k]).id by {
            lemma_ascending(list@, j, k);
        }
    }
    true
}

/// Whether no saga holds a bid of the list that is at its end.
pub fn ended_bids_are_free(locks: &ReentrancyGuard, list: &Vec<Bid>) -> (r: bool)
    requires
        locks.wf(),
    ensures
        r == ended_bids_free(locks@, list@),
{
    let mut i: usize = 0;
    while i < list.len()
        invariant
            i <= list@.len(),
            locks.wf(),
            forall|j: int|
                0 <= j < i && (#[trigger] list@[j]).status.is_terminal() ==> !locks@.dom().contains(
                    LockKey { property_id: list@[j].property_id, bid_id: Some(list@[j].id) },
                ),
        decreases list@.len() - i,
    {
        if list[i].status.terminal() && locks.is_locked(
            &LockKey::bid(list[i].property_id, list[i].id),
        ) {
            return false;
        }
        i = i + 1;
    }
    true
}

/// Whether the order names each property that exists once, and no other id.
pub fn order_is_right(order: &Vec<u64>, properties: &Vec<Option<Property>>) -> (r: bool)
    ensures
        r == order_ok(order@, properties@),
{
    let total: usize = properties.len();
    let mut k: usize = 0;
    while k < order.len()
        invariant
            k <= order@.len(),
            total == properties@.len(),
            forall|a: int|
                0 <= a < k ==> (#[trigger] order@[a]) < properties@.len()
                    && properties@[order@[a] as int] is Some,
            forall|a: int, b: int|
                0 <= a < k && 0 <= b < order@.len() && a != b ==> #[trigger] order@[a]
                    != #[trigger] order@[b],
        decreases order@.len() - k,
    {
        let id: u64 = order[k];
        if id >= properties.len() as u64 {
            return false;
        }
        if properties[crate::as_index(id, properties.len())].is_none() {
            return false;
        }
        let mut l: usize = k + 1;
        while l < order.len()
            invariant
                k < l <= order@.len(),
                forall|b: int| k < b < l ==> order@[k as int] != #[trigger] order@[b],
            decreases order@.len() - l,
        {
            if order[k] == order[l] {
                return false;
            }
            l = l + 1;
        }
        k = k + 1;
    }
    let mut i: usize = 0;
    while i < properties.len()
        invariant
            i <= properties@.len(),
            forall|a: int|
                0 <= a < i && (#[trigger] properties@[a]) is Some ==> order@.contains(a as u64),
        decreases properties@.len() - i,
    {
        if properties[i].is_some() {
            let mut found: bool = false;
            let mut m: usize = 0;
            while m < order.len()
                invariant
                    m <= order@.len(),
                    found ==> order@.contains(i as u64),
                    !found ==> forall|b: int| 0 <= b < m ==> order@[b] != i as u64,
                decreases order@.len() - m,
            {
                if order[m] == i as u64 {
                    found = true;
                }
                m = m + 1;
            }
            if !found {
                proof {
                    if order@.contains(i as u64) {
                        let w = choose|w: int| 0 <= w < order@.len() && order@[w] == i as u64;
                        assert(order@[w] != i as u64);
                    }
                }
                return false;
            }
        }
        i = i + 1;
    }
    true
}

impl ShedaContract {
    /// Whether the store is consistent. Every operation asks for a
    /// consistent store and leaves one; a store that was put together from
    /// parts is checked with this before its first use.
    pub fn is_well_formed(&self) -> (r: bool)
        ensures
            r == self.wf(),
    {
        proof {
            assert(self@.balances.dom() =~= Set::<Seq<char>>::full());
        }
        if self.properties.len() != self.bids.len() {
            return false;
        }
        if self.property_counter != self.properties.len() as u64 {
            return false;
        }
        if self.lease_counter != self.leases.len() as u64 {
            return false;
        }
        if !self.stable_coin_balances.is_well_formed() || !self.locks.is_well_formed() {
            return false;
        }
        if !accounts_are_distinct(&self.admins) || !accounts_are_distinct(&self.accepted_stablecoin) {
            return false;
        }
        if !order_is_right(&self.property_order, &self.properties) {
            return false;
        }
        let mut i: usize = 0;
        while i < self.properties.len()
            invariant
                i <= self.properties@.len(),
                self.properties@.len() == self.bids@.len(),
                forall|k: int|
                    0 <= k < i && (#[trigger] self.properties@[k]) is Some ==> {
                        &&& self.properties@[k]->0.id == k
                        &&& self.properties@[k]->0.sold is Some ==> !self.properties@[k]->0.is_for_sale
                    },
                forall|k: int|
                    0 <= k < i ==> bids_ok(
                        (#[trigger] self.bids@[k])@,
                        k as u64,
                        self.bid_counter,
                    ) && ended_bids_free(self.locks@, self.bids@[k]@),
                self.locks.wf(),
            decreases self.properties@.len() - i,
        {
            match &self.properties[i] {
                Some(p) => {
                    if p.id != i as u64 || (p.sold.is_some() && p.is_for_sale) {
                        return false;
                    }
                },
                None => {},
            }
            if !bids_are_in_order(&self.bids[i], i as u64, self.bid_counter) {
                proof {
                    assert(self@.bids[i as int] == self.bids@[i as int]@);
                }
                return false;
            }
            if !ended_bids_are_free(&self.locks, &self.bids[i]) {
                proof {
                    assert(self@.bids[i as int] == self.bids@[i as int]@);
                }
                return false;
            }
            i = i + 1;
        }
        let mut j: usize = 0;
        while j < self.leases.len()
            invariant
                j <= self.leases@.len(),
                forall|k: int| 0 <= k < j ==> (#[trigger] self.leases@[k]).id == k,
                forall|k: int|
                    0 <= k < j && (#[trigger] self.leases@[k]).active ==> self@.shows_lease(
                        self.leases@[k],
                    ),
            decreases self.leases@.len() - j,
        {
            if self.leases[j].id != j as u64 {
                return false;
            }
            if self.leases[j].active && !self.shows_lease(&self.leases[j]) {
                return false;
            }
            j = j + 1;
        }
        proof {
            assert forall|k: int| 0 <= k < self@.bids.len() implies bids_ok(
                #[trigger] self@.bids[k],
                k as u64,
                self@.bid_counter,
            ) by {
                assert(self@.bids[k] == self.bids@[k]@);
            }
            assert forall|k: int| 0 <= k < self@.bids.len() implies ended_bids_free(
                self@.locks,
                #[trigger] self@.bids[k],
            ) by {
                assert(self@.bids[k] == self.bids@[k]@);
            }
        }
        true
    }
}

} // verus!
