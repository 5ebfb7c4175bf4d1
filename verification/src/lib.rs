//! Escrowed sale and lease of property tokens.
//!
//! The library is a deterministic state machine. Every operation takes the
//! caller, the current time and its arguments, updates the owned
//! [`ShedaContract`] store and returns the requests that the host has to
//! carry out: token transfers and changes of owner in the registry. The
//! outcome of a token transfer is reported back through a callback
//! operation, which either finalizes the step or compensates it.
//!
//! * [`state`] holds the mathematical model of the store, [`bid_rules`],
//!   [`lease_rules`] and [`admin_rules`] say for each operation when it is
//!   refused and what it makes of the model.
//! * [`internal`], [`admin`], [`views`] and this module hold the operations,
//!   each proved to follow its rules.
//! * [`ledger`] and [`guard`] hold the balance tracker and the reentrancy
//!   guard.
//! * [`laws`] and [`funding`] prove what holds over whole sequences of
//!   steps: a bid keeps the terminal status it reached, only one bid of a
//!   property is accepted at a time, a sale record is written once, and the
//!   ledger covers the bids that wait for their money.
//! * [`validate`] checks a store that comes from outside.

pub mod accounts;
pub mod admin;
pub mod admin_rules;
pub mod bid_rules;
pub mod funding;
pub mod guard;
pub mod internal;
pub mod laws;
pub mod lease_rules;
pub mod ledger;
pub mod models;
pub mod sheda_contract_near;
pub mod state;
pub mod text;
pub mod transfer_hook;
pub mod validate;
pub mod views;

pub use crate::guard::{Intent, Lock, LockKey, ReentrancyGuard};
pub use crate::ledger::{Ledger, LedgerEntry};
pub use crate::models::{
    AccountId, Action, Bid, BidAction, BidStatus, ContractError, DisputeInfo, DisputeReport,
    DisputeResolution, DisputeStatus, DisputeWinner, Lease, LeaseSweepReport, OwnershipTransfer,
    Property, SettlementReport, Sold, SweepReport, TimeLockConfig, Timestamp, TransferOutcome,
    TransferRequest, WithdrawRequest,
};
pub use crate::state::State;

use crate::accounts::find_account;
use crate::state::{
    bids_ok, ended_bids_free, lemma_bid_index, lemma_lock_keeps_wf,
    lemma_order_ok_push, lemma_order_ok_remove, lemma_order_ok_update,
    lemma_property_lock_keeps_wf, lemma_put_bid,
    lemma_update_bids_ok, list_has_in_flight,
};

use vstd::prelude::*;

verus! {

/// The place in a collection of `len` items that belongs to the id `id`.
pub fn as_index(id: u64, len: usize) -> (r: usize)
    requires
        id < len,
    ensures
        r == id,
{
    id as usize
}

/// The store of the marketplace: every collection that the operations read
/// and write, owned by one value and handed to each operation.
pub struct ShedaContract {
    pub properties: Vec<Option<Property>>,
    /// The ids of the properties that exist, in the order in which they are
    /// listed to a reader.
    pub property_order: Vec<u64>,
    pub bids: Vec<Vec<Bid>>,
    pub leases: Vec<Lease>,
    pub property_counter: u64,
    pub bid_counter: u64,
    pub lease_counter: u64,
    pub admins: Vec<AccountId>,
    pub owner_id: AccountId,
    pub accepted_stablecoin: Vec<AccountId>,
    pub stable_coin_balances: Ledger,
    pub locks: ReentrancyGuard,
    pub config: TimeLockConfig,
    /// The account whose arbitration results are taken; none where
    /// arbitration is switched off.
    pub dispute_arbiter: Option<AccountId>,
}

impl View for ShedaContract {
    type V = State;

    open spec fn view(&self) -> State {
        State {
            owner_id: self.owner_id,
            admins: self.admins@,
            accepted_stablecoin: self.accepted_stablecoin@,
            properties: self.properties@,
            property_order: self.property_order@,
            bids: Seq::new(self.bids@.len(), |i: int| self.bids@[i]@),
            leases: self.leases@,
            property_counter: self.property_counter,
            bid_counter: self.bid_counter,
            lease_counter: self.lease_counter,
            balances: self.stable_coin_balances@,
            locks: self.locks@,
            config: self.config,
            dispute_arbiter: self.dispute_arbiter,
        }
    }
}

impl ShedaContract {
    /// The store is consistent: the model is, and the ledger and the guard
    /// hold no key twice.
    pub open spec fn wf(&self) -> bool {
        &&& self@.wf()
        &&& self.stable_coin_balances.wf()
        &&& self.locks.wf()
    }

    /// An empty store that belongs to `owner_id`, who is its first admin.
    pub fn new(owner_id: AccountId) -> (r: ShedaContract)
        ensures
            r.wf(),
            r@.owner_id == owner_id,
            r@.admins == seq![owner_id],
            r@.accepted_stablecoin.len() == 0,
            r@.properties.len() == 0,
            r@.property_order.len() == 0,
            r@.bids.len() == 0,
            r@.leases.len() == 0,
            r@.property_counter == 0,
            r@.bid_counter == 0,
            r@.lease_counter == 0,
            r@.balances == Map::total(|t: Seq<char>| 0nat),
            r@.locks == Map::<LockKey, Intent>::empty(),
            r@.config == (TimeLockConfig {
                bid_expiry_ns: 0,
                escrow_release_delay_ns: 0,
                lost_bid_claim_delay_ns: 0,
            }),
            r@.dispute_arbiter is None,
    {
        let mut admins: Vec<AccountId> = Vec::new();
        admins.push(owner_id.clone());
        ShedaContract {
            properties: Vec::new(),
            property_order: Vec::new(),
            bids: Vec::new(),
            leases: Vec::new(),
            property_counter: 0,
            bid_counter: 0,
            lease_counter: 0,
            admins,
            owner_id,
            accepted_stablecoin: Vec::new(),
            stable_coin_balances: Ledger::new(),
            locks: ReentrancyGuard::new(),
            config: TimeLockConfig {
                bid_expiry_ns: 0,
                escrow_release_delay_ns: 0,
                lost_bid_claim_delay_ns: 0,
            },
            dispute_arbiter: None,
        }
    }

    // ----- reading -----

    /// The property with this id, if it exists.
    pub fn property_ref(&self, property_id: u64) -> (r: Option<&Property>)
        ensures
            r is Some <==> self@.has_property(property_id),
            r is Some ==> *r->0 == self@.property(property_id),
    {
        if property_id >= self.properties.len() as u64 {
            return None;
        }
        match &self.properties[as_index(property_id, self.properties.len())] {
            Some(p) => Some(p),
            None => None,
        }
    }

    /// Where the bid with this id stands among the bids of the property.
    pub fn bid_position(&self, property_id: u64, bid_id: u64) -> (r: Option<usize>)
        requires
            self.wf(),
        ensures
            r is Some <==> self@.has_bid(property_id, bid_id),
            r is Some ==> {
                &&& property_id < self.bids@.len()
                &&& r->0 == self@.bid_index(property_id, bid_id)
                &&& r->0 < self.bids@[property_id as int]@.len()
                &&& self.bids@[property_id as int]@[r->0 as int] == self@.bid(property_id, bid_id)
                &&& self@.bid(property_id, bid_id).id == bid_id
                &&& self@.bid(property_id, bid_id).property_id == property_id
            },
    {
        if property_id >= self.bids.len() as u64 {
            return None;
        }
        let list = &self.bids[as_index(property_id, self.bids.len())];
        let mut i: usize = 0;
        while i < list.len()
            invariant
                i <= list@.len(),
                self.wf(),
                property_id < self.bids@.len(),
                list@ == self@.bid_list(property_id),
                forall|j: int| 0 <= j < i ==> (#[trigger] list@[j]).id != bid_id,
            decreases list@.len() - i,
        {
            if list[i].id == bid_id {
                proof {
                    lemma_bid_index(list@, property_id, self.bid_counter, i as int);
                }
                return Some(i);
            }
            i = i + 1;
        }
        None
    }

    /// Some bid of the property is accepted and neither settled nor abandoned.
    pub fn has_in_flight_bid(&self, property_id: u64) -> (r: bool)
        requires
            self.wf(),
        ensures
            r == list_has_in_flight(self@.bid_list(property_id)),
    {
        if property_id >= self.bids.len() as u64 {
            return false;
        }
        let list = &self.bids[as_index(property_id, self.bids.len())];
        let mut i: usize = 0;
        while i < list.len()
            invariant
                i <= list@.len(),
                list@ == self@.bid_list(property_id),
                forall|j: int| 0 <= j < i ==> !(#[trigger] list@[j]).status.is_in_flight(),
            decreases list@.len() - i,
        {
            if list[i].status.in_flight() {
                return true;
            }
            i = i + 1;
        }
        false
    }

    /// Whether a saga holds the bid.
    pub fn is_bid_locked(&self, property_id: u64, bid_id: u64) -> (r: bool)
        requires
            self.wf(),
        ensures
            r == self@.locked(property_id, bid_id),
    {
        self.locks.is_locked(&LockKey::bid(property_id, bid_id))
    }

    /// Whether a saga holds the property as a whole.
    pub fn is_property_locked(&self, property_id: u64) -> (r: bool)
        requires
            self.wf(),
        ensures
            r == self@.property_locked(property_id),
    {
        self.locks.is_locked(&LockKey::property(property_id))
    }

    // ----- writing -----

    /// Puts `b` in the place of the bid at `index`, which has the same id.
    pub(crate) fn replace_bid(&mut self, property_id: u64, index: usize, b: Bid)
        requires
            old(self).wf(),
            property_id < old(self).bids@.len(),
            index < old(self).bids@[property_id as int]@.len(),
            b.id == old(self).bids@[property_id as int]@[index as int].id,
            b.property_id == property_id,
            b.status == BidStatus::Rejected ==> b.settled_at is Some,
            b.status.is_terminal() ==> !old(self)@.locked(property_id, b.id),
        ensures
            final(self).wf(),
            final(self)@ == old(self)@.put_bid(property_id, b.id, b),
            forall|id: u64| final(self)@.has_bid(property_id, id) == old(self)@.has_bid(property_id, id),
            final(self)@.has_bid(property_id, b.id),
            final(self)@.bid(property_id, b.id) == b,
    {
        proof {
            let list = self@.bid_list(property_id);
            lemma_bid_index(list, property_id, self.bid_counter, index as int);
            lemma_update_bids_ok(list, property_id, self.bid_counter, index as int, b);
            lemma_bid_index(list.update(index as int, b), property_id, self.bid_counter, index as int);
            lemma_put_bid(self@, property_id, b.id, b);
        }
        let p: usize = as_index(property_id, self.bids.len());
        self.bids[p][index] = b;
        proof {
            assert(self@.bids =~~= old(self)@.put_bid(property_id, b.id, b).bids);
            assert(self@ =~= old(self)@.put_bid(property_id, b.id, b));
        }
    }

    /// Puts `p` in the place of the property with this id, which exists.
    pub(crate) fn replace_property(&mut self, property_id: u64, p: Option<Property>)
        requires
            old(self).wf(),
            old(self)@.has_property(property_id),
            p is Some,
            p->0.id == property_id && (p->0.sold is Some ==> !p->0.is_for_sale),
            forall|i: int|
                0 <= i < old(self).leases@.len() && (#[trigger] old(self).leases@[i]).active && old(self).leases@[i].property_id == property_id ==> p is Some && p->0.active_lease is Some
                    && p->0.active_lease->0.id == old(self).leases@[i].id,
        ensures
            final(self).wf(),
            final(self)@ == old(self)@.put_property(property_id, p),
    {
        let i: usize = as_index(property_id, self.properties.len());
        self.properties[i] = p;
        proof {
            lemma_order_ok_update(
                old(self)@.property_order,
                old(self)@.properties,
                property_id,
                p->0,
            );
            assert(self@.bids =~~= old(self)@.bids);
            assert(self@ =~= old(self)@.put_property(property_id, p));
            assert forall|k: int| 0 <= k < self@.bids.len() implies ended_bids_free(
                self@.locks,
                #[trigger] self@.bids[k],
            ) by {
                assert(ended_bids_free(old(self)@.locks, old(self)@.bids[k]));
            }
            assert forall|k: int|
                0 <= k < self@.leases.len() && (#[trigger] self@.leases[k]).active implies self@.shows_lease(
                self@.leases[k],
            ) by {
                assert(old(self)@.shows_lease(old(self)@.leases[k]));
                assert(old(self).leases@[k].active);
            }
        }
    }

    /// Deletes the property, for which there is no active lease, and takes
    /// it out of the order.
    pub(crate) fn remove_property(&mut self, property_id: u64)
        requires
            old(self).wf(),
            old(self)@.has_property(property_id),
            old(self)@.property(property_id).active_lease is None,
        ensures
            final(self).wf(),
            final(self)@ == old(self)@.delete_state(property_id),
    {
        proof {
            lemma_order_ok_remove(old(self)@.property_order, old(self)@.properties, property_id);
        }
        let i: usize = as_index(property_id, self.properties.len());
        let mut k: usize = 0;
        while k < self.property_order.len() && self.property_order[k] != property_id
            invariant
                *self == *old(self),
                k <= self.property_order@.len(),
                self.property_order@.contains(property_id),
                forall|j: int| 0 <= j < k ==> self.property_order@[j] != property_id,
            decreases self.property_order@.len() - k,
        {
            k = k + 1;
        }
        proof {
            let order = old(self)@.property_order;
            assert(k < order.len()) by {
                let w = choose|w: int| 0 <= w < order.len() && order[w] == property_id;
                assert(order[w] == property_id);
            }
            order.index_of_first_ensures(property_id);
            assert(order.index_of(property_id) == k) by {
                let at = order.index_of(property_id);
                assert(order[at] == property_id);
                if at != k {
                    assert(order[at] != order[k as int]);
                }
            }
        }
        let _gone = self.property_order.swap_remove(k);
        self.properties[i] = None;
        proof {
            assert(self@.bids =~~= old(self)@.bids);
            assert(self@ =~= old(self)@.delete_state(property_id));
            assert forall|q: int| 0 <= q < self@.bids.len() implies ended_bids_free(
                self@.locks,
                #[trigger] self@.bids[q],
            ) by {
                assert(ended_bids_free(old(self)@.locks, old(self)@.bids[q]));
            }
            assert forall|q: int|
                0 <= q < self@.leases.len() && (#[trigger] self@.leases[q]).active implies self@.shows_lease(
                self@.leases[q],
            ) by {
                assert(old(self)@.shows_lease(old(self)@.leases[q]));
            }
        }
    }

    /// Puts `lease` in the place of the lease with the same id.
    pub(crate) fn replace_lease(&mut self, lease: Lease)
        requires
            old(self).wf(),
            lease.id < old(self).leases@.len(),
            lease.active ==> old(self)@.shows_lease(lease),
        ensures
            final(self).wf(),
            final(self)@ == old(self)@.put_lease(lease),
    {
        let i: usize = as_index(lease.id, self.leases.len());
        self.leases[i] = lease;
        proof {
            assert(self@.bids =~~= old(self)@.bids);
            assert(self@ =~= old(self)@.put_lease(lease));
            assert forall|k: int| 0 <= k < self@.bids.len() implies ended_bids_free(
                self@.locks,
                #[trigger] self@.bids[k],
            ) by {
                assert(ended_bids_free(old(self)@.locks, old(self)@.bids[k]));
            }
            assert forall|k: int|
                0 <= k < self@.leases.len() && (#[trigger] self@.leases[k]).active implies self@.shows_lease(
                self@.leases[k],
            ) by {
                if k != i {
                    assert(old(self)@.shows_lease(old(self)@.leases[k]));
                }
            }
        }
    }

    /// Credits the ledger, or refuses with `BalanceOverflow`.
    pub(crate) fn credit_balance(&mut self, token: &AccountId, amount: u128) -> (r: Result<
        (),
        ContractError,
    >)
        requires
            old(self).wf(),
        ensures
            final(self).wf(),
            r is Ok <==> old(self)@.balance(token@) + amount <= u128::MAX,
            r is Ok ==> final(self)@ == old(self)@.credit(token@, amount),
            r is Err ==> r == Err::<(), ContractError>(ContractError::BalanceOverflow) && final(self)@
                == old(self)@,
    {
        let r = self.stable_coin_balances.credit(token, amount);
        proof {
            assert(self@.bids =~~= old(self)@.bids);
            if r is Ok {
                assert(self@ =~= old(self)@.credit(token@, amount));
            } else {
                assert(self@ =~= old(self)@);
            }
        }
        r
    }

    /// Debits the ledger, or refuses with `BalanceUnderflow`.
    pub(crate) fn debit_balance(&mut self, token: &AccountId, amount: u128) -> (r: Result<
        (),
        ContractError,
    >)
        requires
            old(self).wf(),
        ensures
            final(self).wf(),
            r is Ok <==> old(self)@.balance(token@) >= amount,
            r is Ok ==> final(self)@ == old(self)@.debit(token@, amount),
            r is Err ==> r == Err::<(), ContractError>(ContractError::BalanceUnderflow) && final(self)@
                == old(self)@,
    {
        let r = self.stable_coin_balances.debit(token, amount);
        proof {
            assert(self@.bids =~~= old(self)@.bids);
            if r is Ok {
                assert(self@ =~= old(self)@.debit(token@, amount));
            } else {
                assert(self@ =~= old(self)@);
            }
        }
        r
    }

    /// Takes the lock on a bid for a saga; the bid must be free.
    pub(crate) fn lock_bid(&mut self, property_id: u64, bid_id: u64, intent: Intent)
        requires
            old(self).wf(),
            !old(self)@.locked(property_id, bid_id),
            old(self)@.has_bid(property_id, bid_id) ==> !old(self)@.bid(
                property_id,
                bid_id,
            ).status.is_terminal(),
        ensures
            final(self).wf(),
            final(self)@ == old(self)@.lock(property_id, bid_id, intent),
    {
        let _taken = self.locks.acquire(LockKey::bid(property_id, bid_id), intent);
        proof {
            lemma_lock_keeps_wf(old(self)@, property_id, bid_id, intent);
            assert(self@.bids =~~= old(self)@.bids);
            assert(self@ =~= old(self)@.lock(property_id, bid_id, intent));
        }
    }

    /// Takes the lock on a property as a whole; the property must be free.
    pub(crate) fn lock_property(&mut self, property_id: u64, intent: Intent)
        requires
            old(self).wf(),
            !old(self)@.property_locked(property_id),
        ensures
            final(self).wf(),
            final(self)@ == old(self)@.lock_property(property_id, intent),
    {
        let _taken = self.locks.acquire(LockKey::property(property_id), intent);
        proof {
            lemma_property_lock_keeps_wf(old(self)@, property_id, intent);
            assert(self@.bids =~~= old(self)@.bids);
            assert(self@ =~= old(self)@.lock_property(property_id, intent));
        }
    }

    /// Gives the lock on a property as a whole back.
    pub(crate) fn unlock_property(&mut self, property_id: u64)
        requires
            old(self).wf(),
        ensures
            final(self).wf(),
            final(self)@ == old(self)@.unlock_property(property_id),
    {
        let _held = self.locks.release(&LockKey::property(property_id));
        proof {
            lemma_property_lock_keeps_wf(old(self)@, property_id, Intent::Accept);
            assert(self@.bids =~~= old(self)@.bids);
            assert(self@ =~= old(self)@.unlock_property(property_id));
        }
    }

    /// Gives the lock on a bid back.
    pub(crate) fn unlock_bid(&mut self, property_id: u64, bid_id: u64)
        requires
            old(self).wf(),
        ensures
            final(self).wf(),
            final(self)@ == old(self)@.unlock(property_id, bid_id),
    {
        let _held = self.locks.release(&LockKey::bid(property_id, bid_id));
        proof {
            assert(self@.bids =~~= old(self)@.bids);
            assert(self@ =~= old(self)@.unlock(property_id, bid_id));
        }
    }
}

impl ShedaContract {
    /// Lists a property of `caller` under the next property id, which it
    /// returns. The token that stands for the property is minted by the host.
    pub fn list_property(
        &mut self,
        caller: &AccountId,
        description: String,
        media_uri: String,
        price: u128,
        is_for_sale: bool,
        lease_duration_months: Option<u64>,
        escrow_token: Option<AccountId>,
        now: Timestamp,
    ) -> (r: Result<u64, ContractError>)
        requires
            old(self).wf(),
        ensures
            final(self).wf(),
            match old(self)@.list_property_error() {
                Some(e) => r == Err::<u64, ContractError>(e) && final(self)@ == old(self)@,
                None => r == Ok::<u64, ContractError>(old(self)@.properties.len() as u64) && final(self)@ == old(self)@.list_property_state(
                    old(self)@.new_property(
                        *caller,
                        description,
                        media_uri,
                        price,
                        is_for_sale,
                        lease_duration_months,
                        escrow_token,
                        now,
                    ),
                ),
            },
    {
        if self.property_counter == u64::MAX {
            return Err(ContractError::CounterOverflow);
        }
        let property_id: u64 = self.property_counter;
        let owner: AccountId = caller.clone();
        let property = Property {
            id: property_id,
            owner_id: owner,
            description,
            metadata_uri: media_uri,
            is_for_sale,
            price,
            lease_duration_months,
            damage_escrow: 0,
            escrow_token,
            active_lease: None,
            timestamp: now,
            sold: None,
        };
        self.properties.push(Some(property));
        self.property_order.push(property_id);
        self.bids.push(Vec::new());
        self.property_counter = property_id + 1;
        proof {
            lemma_order_ok_push(old(self)@.property_order, old(self)@.properties, property);
            let p = old(self)@.new_property(
                owner,
                description,
                media_uri,
                price,
                is_for_sale,
                lease_duration_months,
                escrow_token,
                now,
            );
            assert(self@.bids =~~= old(self)@.list_property_state(p).bids);
            assert(self@ =~= old(self)@.list_property_state(p));
            assert forall|i: int| 0 <= i < self@.bids.len() implies bids_ok(
                #[trigger] self@.bids[i],
                i as u64,
                self@.bid_counter,
            ) by {
                if i < old(self)@.bids.len() {
                    assert(self@.bids[i] == old(self)@.bids[i]);
                }
            }
        }
        Ok(property_id)
    }

    /// Records a deposit of `amount` by `sender_id` as a pending bid and
    /// credits the ledger with it. Returns the id of the bid.
    pub fn place_bid(
        &mut self,
        sender_id: AccountId,
        amount: u128,
        bid_action: BidAction,
        now: Timestamp,
    ) -> (r: Result<u64, ContractError>)
        requires
            old(self).wf(),
        ensures
            final(self).wf(),
            match old(self)@.place_bid_error(amount, bid_action, now) {
                Some(e) => r == Err::<u64, ContractError>(e) && final(self)@ == old(self)@,
                None => r == Ok::<u64, ContractError>(old(self)@.bid_counter) && final(self)@ == old(self)@.place_bid_state(sender_id, amount, bid_action, now),
            },
    {
        if find_account(&self.accepted_stablecoin, &bid_action.stablecoin_token).is_none() {
            return Err(ContractError::UnsupportedToken);
        }
        let property_id: u64 = bid_action.property_id;
        let price: u128 = match self.property_ref(property_id) {
            None => {
                return Err(ContractError::PropertyNotFound);
            },
            Some(p) => {
                let listed: bool = p.sold.is_none() && match bid_action.action {
                    Action::Purchase => p.is_for_sale,
                    Action::Lease => p.lease_duration_months.is_some(),
                };
                if !listed {
                    return Err(ContractError::PropertyNotListed);
                }
                match &p.escrow_token {
                    Some(t) => {
                        if *t != bid_action.stablecoin_token {
                            return Err(ContractError::InvalidPaymentToken);
                        }
                    },
                    None => {},
                }
                p.price
            },
        };
        if amount != price {
            return Err(ContractError::IncorrectBidAmount { expected: price, received: amount });
        }
        if self.bid_counter == u64::MAX {
            return Err(ContractError::CounterOverflow);
        }
        let expires_at: Option<Timestamp> = match now.checked_add(self.config.bid_expiry_ns) {
            None => {
                return Err(ContractError::TimestampOverflow);
            },
            Some(t) => if self.config.bid_expiry_ns == 0 {
                None
            } else {
                Some(t)
            },
        };
        match self.credit_balance(&bid_action.stablecoin_token, amount) {
            Err(e) => {
                return Err(e);
            },
            Ok(()) => {},
        }
        let bid_id: u64 = self.bid_counter;
        let bid = Bid {
            id: bid_id,
            bidder: sender_id,
            property_id,
            amount,
            created_at: now,
            updated_at: now,
            expires_at,
            action: bid_action.action,
            stablecoin_token: bid_action.stablecoin_token,
            status: BidStatus::Pending,
            document_ref: None,
            dispute_reason: None,
            settled_at: None,
        };
        let p: usize = as_index(property_id, self.bids.len());
        let ghost mid = self@;
        self.bids[p].push(bid);
        self.bid_counter = bid_id + 1;
        proof {
            let want = old(self)@.place_bid_state(sender_id, amount, bid_action, now);
            assert(bid == old(self)@.new_bid(sender_id, amount, bid_action, now));
            assert(self@.bids =~~= want.bids);
            assert(self@ =~= want);
            assert forall|i: int| 0 <= i < self@.bids.len() implies bids_ok(
                #[trigger] self@.bids[i],
                i as u64,
                self@.bid_counter,
            ) by {
                assert(bids_ok(mid.bids[i], i as u64, mid.bid_counter));
                if i == p {
                    let list = self@.bids[i];
                    assert(list == mid.bids[i].push(bid));
                    assert forall|j: int, k: int| 0 <= j < k < list.len() implies (#[trigger] list[j]).id
                        < (#[trigger] list[k]).id by {
                        if k < mid.bids[i].len() {
                            assert(mid.bids[i][j].id < mid.bids[i][k].id);
                        } else {
                            assert(mid.bids[i][j].id < mid.bid_counter);
                        }
                    }
                } else {
                    assert(self@.bids[i] == mid.bids[i]);
                }
            }
        }
        Ok(bid_id)
    }

    /// The deposit notification of the token service `token_contract`. The
    /// result is the part of the deposit that is to be returned at once:
    /// nothing where the deposit became a bid, all of it where the amount is
    /// not the price. A notification for another token than that of the
    /// notifying service is refused with `InvalidPaymentToken`. Every other
    /// refusal is an error too, and the store is as it was.
    pub fn ft_on_transfer(
        &mut self,
        token_contract: &AccountId,
        sender_id: AccountId,
        amount: u128,
        bid_action: BidAction,
        now: Timestamp,
    ) -> (r: Result<u128, ContractError>)
        requires
            old(self).wf(),
        ensures
            final(self).wf(),
            token_contract@ != bid_action.stablecoin_token@ ==> r == Err::<u128, ContractError>(
                ContractError::InvalidPaymentToken,
            ) && final(self)@ == old(self)@,
            token_contract@ == bid_action.stablecoin_token@ ==> match old(self)@.place_bid_error(
                amount,
                bid_action,
                now,
            ) {
                Some(ContractError::IncorrectBidAmount { .. }) => r == Ok::<u128, ContractError>(amount)
                    && final(self)@ == old(self)@,
                Some(e) => r == Err::<u128, ContractError>(e) && final(self)@ == old(self)@,
                None => r == Ok::<u128, ContractError>(0) && final(self)@ == old(self)@.place_bid_state(
                    sender_id,
                    amount,
                    bid_action,
                    now,
                ),
            },
    {
        if *token_contract != bid_action.stablecoin_token {
            return Err(ContractError::InvalidPaymentToken);
        }
        match self.place_bid(sender_id, amount, bid_action, now) {
            Ok(_) => Ok(0),
            Err(ContractError::IncorrectBidAmount { .. }) => Ok(amount),
            Err(e) => Err(e),
        }
    }
}

} // verus!
