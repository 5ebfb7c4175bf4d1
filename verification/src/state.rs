//! The mathematical model of the store, and what each operation makes of it.
//!
//! Every operation of the contract is specified here twice over: by the error
//! it is refused with, if any, and by the state it leaves where it is not
//! refused. The executable operations are proved to follow these functions.

use crate::accounts::{contains_account, distinct_accounts};
use crate::guard::{Intent, LockKey};
use crate::ledger::{credited, debited};
use crate::models::{
    AccountId, Action, Bid, BidAction, BidStatus, ContractError, Lease, Property, TimeLockConfig,
    Timestamp, NANOS_PER_MONTH,
};
use vstd::prelude::*;

verus! {

/// The store as plain mathematics. A property with id `i` stands at place `i`
/// of `properties` (or `None` once deleted), its bids at place `i` of `bids`
/// in the order in which they were placed, and a lease with id `i` at place
/// `i` of `leases`. Each counter is the next id to hand out. `property_order`
/// holds the ids of the properties that exist in the order in which they are
/// listed to a reader: a new property comes last, and the last one takes the
/// place of one that is deleted.
#[verifier::ext_equal]
pub struct State {
    pub owner_id: AccountId,
    pub admins: Seq<AccountId>,
    pub accepted_stablecoin: Seq<AccountId>,
    pub properties: Seq<Option<Property>>,
    pub property_order: Seq<u64>,
    pub bids: Seq<Seq<Bid>>,
    pub leases: Seq<Lease>,
    pub property_counter: u64,
    pub bid_counter: u64,
    pub lease_counter: u64,
    pub balances: Map<Seq<char>, nat>,
    pub locks: Map<LockKey, Intent>,
    pub config: TimeLockConfig,
    pub dispute_arbiter: Option<AccountId>,
}

/// Some bid of `list` has the id `id`.
pub open spec fn list_has_bid(list: Seq<Bid>, id: u64) -> bool {
    exists|i: int| 0 <= i < list.len() && #[trigger] list[i].id == id
}

/// Where the bid with id `id` stands in `list`; meaningful where there is one.
pub open spec fn list_bid_index(list: Seq<Bid>, id: u64) -> int {
    choose|i: int| 0 <= i < list.len() && #[trigger] list[i].id == id
}

/// The bids of one property: each names the property, has an id that was
/// handed out, and has been refunded where it is rejected; and the ids
/// ascend.
pub open spec fn bids_ok(list: Seq<Bid>, property_id: u64, counter: u64) -> bool {
    &&& forall|j: int|
        0 <= j < list.len() ==> (#[trigger] list[j]).property_id == property_id && list[j].id
            < counter && (list[j].status == BidStatus::Rejected ==> list[j].settled_at is Some)
    &&& forall|j: int, k: int|
        0 <= j < k < list.len() ==> (#[trigger] list[j]).id < (#[trigger] list[k]).id
}

/// The order names each property that exists once, and no other id.
pub open spec fn order_ok(order: Seq<u64>, properties: Seq<Option<Property>>) -> bool {
    &&& properties.len() <= u64::MAX
    &&& forall|k: int|
        0 <= k < order.len() ==> (#[trigger] order[k]) < properties.len()
            && properties[order[k] as int] is Some
    &&& forall|k: int, l: int|
        0 <= k < order.len() && 0 <= l < order.len() && k != l ==> #[trigger] order[k]
            != #[trigger] order[l]
    &&& forall|i: int|
        0 <= i < properties.len() && (#[trigger] properties[i]) is Some ==> order.contains(i as u64)
}

/// The order without the id: the last id takes its place.
pub open spec fn order_without(order: Seq<u64>, id: u64) -> Seq<u64> {
    if order.contains(id) {
        order.update(order.index_of(id), order.last()).drop_last()
    } else {
        order
    }
}

/// No saga holds a bid of the list that is at its end.
pub open spec fn ended_bids_free(locks: Map<LockKey, Intent>, list: Seq<Bid>) -> bool {
    forall|j: int|
        0 <= j < list.len() && (#[trigger] list[j]).status.is_terminal() ==> !locks.dom().contains(
            LockKey { property_id: list[j].property_id, bid_id: Some(list[j].id) },
        )
}

/// Some bid of `list` is accepted and not yet settled or abandoned.
pub open spec fn list_has_in_flight(list: Seq<Bid>) -> bool {
    exists|i: int| 0 <= i < list.len() && (#[trigger] list[i]).status.is_in_flight()
}

/// Among bids in order, a bid stands at one place only.
pub proof fn lemma_bid_index(list: Seq<Bid>, property_id: u64, counter: u64, i: int)
    requires
        bids_ok(list, property_id, counter),
        0 <= i < list.len(),
    ensures
        list_has_bid(list, list[i].id),
        list_bid_index(list, list[i].id) == i,
{
    let id = list[i].id;
    assert(list[i].id == id);
    let j = list_bid_index(list, id);
    if j < i {
        assert(list[j].id < list[i].id);
    }
    if i < j {
        assert(list[i].id < list[j].id);
    }
}

/// Replacing a bid by one with the same id and property keeps the list in order.
pub proof fn lemma_update_bids_ok(list: Seq<Bid>, property_id: u64, counter: u64, i: int, b: Bid)
    requires
        bids_ok(list, property_id, counter),
        0 <= i < list.len(),
        b.id == list[i].id,
        b.property_id == property_id,
        b.status == BidStatus::Rejected ==> b.settled_at is Some,
    ensures
        bids_ok(list.update(i, b), property_id, counter),
        forall|id: u64| list_has_bid(list.update(i, b), id) == list_has_bid(list, id),
        forall|id: u64|
            list_has_bid(list, id) ==> list_bid_index(list.update(i, b), id) == list_bid_index(
                list,
                id,
            ),
{
    let after = list.update(i, b);
    assert forall|j: int| 0 <= j < after.len() implies (#[trigger] after[j]).property_id
        == property_id && after[j].id < counter && (after[j].status == BidStatus::Rejected
        ==> after[j].settled_at is Some) by {
        assert(list[j].id < counter);
    }
    assert forall|j: int, k: int| 0 <= j < k < after.len() implies (#[trigger] after[j]).id < (
    #[trigger] after[k]).id by {
        assert(list[j].id < list[k].id);
    }
    assert forall|id: u64| list_has_bid(after, id) == list_has_bid(list, id) by {
        if list_has_bid(list, id) {
            let j = list_bid_index(list, id);
            assert(after[j].id == id);
        }
        if list_has_bid(after, id) {
            let j = list_bid_index(after, id);
            assert(list[j].id == id);
        }
    }
    assert forall|id: u64| list_has_bid(list, id) implies list_bid_index(after, id)
        == list_bid_index(list, id) by {
        let j = list_bid_index(list, id);
        lemma_bid_index(list, property_id, counter, j);
        assert(after[j].id == id);
        lemma_bid_index(after, property_id, counter, j);
    }
}

/// When a lease of `months` months that starts at `start` ends: `start`
/// plus the months at thirty days each; `None` where a timestamp cannot hold
/// it.
pub open spec fn lease_end(start: Timestamp, months: u64) -> Option<Timestamp> {
    if start + months * NANOS_PER_MONTH <= u64::MAX {
        Some((start + months * NANOS_PER_MONTH) as u64)
    } else {
        None
    }
}

/// At least `delay` has passed between `since` and `now`.
pub open spec fn elapsed(since: Timestamp, now: Timestamp, delay: u64) -> bool {
    now >= since && now - since >= delay
}

/// The property takes bids of this kind: it is not sold, and it is for sale
/// (for a purchase) or has a lease duration (for a lease).
pub open spec fn listed_for(p: Property, action: Action) -> bool {
    &&& p.sold is None
    &&& action == Action::Purchase ==> p.is_for_sale
    &&& action == Action::Lease ==> p.lease_duration_months is Some
}

/// The property takes payment in this token: it names no token, or this one.
pub open spec fn takes_token(p: Property, token: Seq<char>) -> bool {
    p.escrow_token is Some ==> p.escrow_token->0@ == token
}

/// Why a bid of this kind cannot be accepted and settled on the property:
/// the property is sold already, it is under lease, or the bid is for a
/// lease and the property has no lease duration. Whether the property is
/// still for sale does not matter: a bid that was taken can be accepted.
pub open spec fn settle_error(p: Property, action: Action) -> Option<ContractError> {
    if p.sold is Some {
        Some(ContractError::PropertySold)
    } else if p.active_lease is Some {
        Some(ContractError::PropertyHasActiveLease)
    } else if action == Action::Lease && p.lease_duration_months is None {
        Some(ContractError::PropertyNotListed)
    } else {
        None
    }
}

/// The property has gone to someone other than `bidder`, by sale or by lease.
pub open spec fn settled_to_other(p: Property, bidder: Seq<char>) -> bool {
    (p.sold is Some && p.sold->0.buyer_id@ != bidder) || (p.sold is None && p.active_lease is Some
        && p.active_lease->0.tenant_id@ != bidder)
}

/// When the property went to its buyer or tenant.
pub open spec fn settlement_time(p: Property) -> Timestamp {
    if p.sold is Some {
        p.sold->0.sold_at
    } else if p.active_lease is Some {
        p.active_lease->0.start_time
    } else {
        0
    }
}

/// The status in which a refund of this intent leaves the bid.
pub open spec fn refund_status(intent: Intent) -> BidStatus {
    if intent == Intent::Reject {
        BidStatus::Rejected
    } else {
        BidStatus::Cancelled
    }
}

/// The intent is that of a refund to the bidder.
pub open spec fn is_refund_intent(intent: Intent) -> bool {
    intent == Intent::Reject || intent == Intent::Cancel || intent == Intent::TimeoutRefund
        || intent == Intent::ClaimLostBid
}

/// The intent is that of a payout to the owner.
pub open spec fn is_payout_intent(intent: Intent) -> bool {
    intent == Intent::Accept || intent == Intent::ReleaseEscrow
}

impl State {
    // ----- invariant -----

    /// The state is consistent: each entity stands at the place of its id,
    /// the bids of each property are in order, no saga holds a bid that is
    /// at its end, a sold property is not for sale, an active lease is the
    /// one that its property shows, and no admin and no accepted token is
    /// named twice.
    pub open spec fn wf(self) -> bool {
        &&& self.properties.len() == self.bids.len()
        &&& self.properties.len() == self.property_counter
        &&& order_ok(self.property_order, self.properties)
        &&& self.leases.len() == self.lease_counter
        &&& forall|i: int|
            0 <= i < self.properties.len() && (#[trigger] self.properties[i]) is Some ==> {
                &&& self.properties[i]->0.id == i
                &&& self.properties[i]->0.sold is Some ==> !self.properties[i]->0.is_for_sale
            }
        &&& forall|i: int|
            0 <= i < self.bids.len() ==> bids_ok(#[trigger] self.bids[i], i as u64, self.bid_counter)
        &&& forall|i: int|
            0 <= i < self.bids.len() ==> ended_bids_free(self.locks, #[trigger] self.bids[i])
        &&& forall|i: int| 0 <= i < self.leases.len() ==> (#[trigger] self.leases[i]).id == i
        &&& forall|i: int|
            0 <= i < self.leases.len() && (#[trigger] self.leases[i]).active ==> self.shows_lease(
                self.leases[i],
            )
        &&& distinct_accounts(self.admins)
        &&& distinct_accounts(self.accepted_stablecoin)
        &&& self.balances.dom() == Set::<Seq<char>>::full()
    }

    // ----- reading -----

    /// A property with this id exists.
    pub open spec fn has_property(self, property_id: u64) -> bool {
        property_id < self.properties.len() && self.properties[property_id as int] is Some
    }

    /// The property with this id; meaningful where it exists.
    pub open spec fn property(self, property_id: u64) -> Property {
        self.properties[property_id as int]->0
    }

    /// The bids of a property, none where the id was never handed out.
    pub open spec fn bid_list(self, property_id: u64) -> Seq<Bid> {
        if property_id < self.bids.len() {
            self.bids[property_id as int]
        } else {
            Seq::empty()
        }
    }

    /// The property has a bid with this id.
    pub open spec fn has_bid(self, property_id: u64, bid_id: u64) -> bool {
        list_has_bid(self.bid_list(property_id), bid_id)
    }

    /// Where the bid stands among the bids of the property.
    pub open spec fn bid_index(self, property_id: u64, bid_id: u64) -> int {
        list_bid_index(self.bid_list(property_id), bid_id)
    }

    /// The bid with this id; meaningful where there is one.
    pub open spec fn bid(self, property_id: u64, bid_id: u64) -> Bid {
        self.bid_list(property_id)[self.bid_index(property_id, bid_id)]
    }

    /// A lease with this id exists.
    pub open spec fn has_lease(self, lease_id: u64) -> bool {
        lease_id < self.leases.len()
    }

    /// The lease with this id; meaningful where it exists.
    pub open spec fn lease(self, lease_id: u64) -> Lease {
        self.leases[lease_id as int]
    }

    /// What the ledger holds of the token.
    pub open spec fn balance(self, token: Seq<char>) -> nat {
        self.balances[token]
    }

    /// A saga holds the bid.
    pub open spec fn locked(self, property_id: u64, bid_id: u64) -> bool {
        self.locks.dom().contains(LockKey { property_id, bid_id: Some(bid_id) })
    }

    /// The intent of the saga that holds the bid; meaningful where one does.
    pub open spec fn lock_intent(self, property_id: u64, bid_id: u64) -> Intent {
        self.locks[LockKey { property_id, bid_id: Some(bid_id) }]
    }

    /// The account is an admin.
    pub open spec fn is_admin(self, account: Seq<char>) -> bool {
        contains_account(self.admins, account)
    }

    /// Deposits of the token are accepted.
    pub open spec fn accepts_token(self, token: Seq<char>) -> bool {
        contains_account(self.accepted_stablecoin, token)
    }

    // ----- writing -----

    /// The state with `p` in the place of the property.
    pub open spec fn put_property(self, property_id: u64, p: Option<Property>) -> State {
        State { properties: self.properties.update(property_id as int, p), ..self }
    }

    /// The state with `b` in the place of the bid.
    pub open spec fn put_bid(self, property_id: u64, bid_id: u64, b: Bid) -> State {
        State {
            bids: self.bids.update(
                property_id as int,
                self.bid_list(property_id).update(self.bid_index(property_id, bid_id), b),
            ),
            ..self
        }
    }

    /// The state with `lease` in the place of the lease with its id.
    pub open spec fn put_lease(self, lease: Lease) -> State {
        State { leases: self.leases.update(lease.id as int, lease), ..self }
    }

    /// The state with the amount added to the balance of the token.
    pub open spec fn credit(self, token: Seq<char>, amount: u128) -> State {
        State { balances: credited(self.balances, token, amount as nat), ..self }
    }

    /// The state with the amount taken from the balance of the token.
    pub open spec fn debit(self, token: Seq<char>, amount: u128) -> State {
        State { balances: debited(self.balances, token, amount as nat), ..self }
    }

    /// The state with the bid held for the intent.
    pub open spec fn lock(self, property_id: u64, bid_id: u64, intent: Intent) -> State {
        State {
            locks: self.locks.insert(LockKey { property_id, bid_id: Some(bid_id) }, intent),
            ..self
        }
    }

    /// The state with the bid free.
    pub open spec fn unlock(self, property_id: u64, bid_id: u64) -> State {
        State { locks: self.locks.remove(LockKey { property_id, bid_id: Some(bid_id) }), ..self }
    }

    /// A saga holds the property as a whole: a payout for one of its bids is
    /// under way.
    pub open spec fn property_locked(self, property_id: u64) -> bool {
        self.locks.dom().contains(LockKey { property_id, bid_id: None })
    }

    /// The state with the property held for the intent.
    pub open spec fn lock_property(self, property_id: u64, intent: Intent) -> State {
        State { locks: self.locks.insert(LockKey { property_id, bid_id: None }, intent), ..self }
    }

    /// The state with the property free.
    pub open spec fn unlock_property(self, property_id: u64) -> State {
        State { locks: self.locks.remove(LockKey { property_id, bid_id: None }), ..self }
    }
}

// ----- listing a property and placing a bid -----

impl State {
    /// The property that a listing creates: it gets the next id, is neither
    /// leased nor sold and holds no damage escrow.
    pub open spec fn new_property(
        self,
        owner: AccountId,
        description: String,
        metadata_uri: String,
        price: u128,
        is_for_sale: bool,
        lease_duration_months: Option<u64>,
        escrow_token: Option<AccountId>,
        now: Timestamp,
    ) -> Property {
        Property {
            id: self.properties.len() as u64,
            owner_id: owner,
            description,
            metadata_uri,
            is_for_sale,
            price,
            lease_duration_months,
            damage_escrow: 0,
            escrow_token,
            active_lease: None,
            timestamp: now,
            sold: None,
        }
    }

    /// A listing is refused only when the ids are used up.
    pub open spec fn list_property_error(self) -> Option<ContractError> {
        if self.properties.len() >= u64::MAX {
            Some(ContractError::CounterOverflow)
        } else {
            None
        }
    }

    /// The property is added behind the others, without bids.
    pub open spec fn list_property_state(self, p: Property) -> State {
        State {
            properties: self.properties.push(Some(p)),
            property_order: self.property_order.push(self.property_counter),
            bids: self.bids.push(Seq::empty()),
            property_counter: (self.property_counter + 1) as u64,
            ..self
        }
    }

    /// When a bid placed at `now` expires: never, where expiry is switched off.
    pub open spec fn bid_expiry(self, now: Timestamp) -> Option<Timestamp> {
        if self.config.bid_expiry_ns == 0 {
            None
        } else {
            Some((now + self.config.bid_expiry_ns) as u64)
        }
    }

    /// Why a deposit does not become a bid, if it does not.
    pub open spec fn place_bid_error(self, amount: u128, msg: BidAction, now: Timestamp) -> Option<
        ContractError,
    > {
        if !self.accepts_token(msg.stablecoin_token@) {
            Some(ContractError::UnsupportedToken)
        } else if !self.has_property(msg.property_id) {
            Some(ContractError::PropertyNotFound)
        } else if !listed_for(self.property(msg.property_id), msg.action) {
            Some(ContractError::PropertyNotListed)
        } else if !takes_token(self.property(msg.property_id), msg.stablecoin_token@) {
            Some(ContractError::InvalidPaymentToken)
        } else if amount != self.property(msg.property_id).price {
            Some(
                ContractError::IncorrectBidAmount {
                    expected: self.property(msg.property_id).price,
                    received: amount,
                },
            )
        } else if self.bid_counter == u64::MAX {
            Some(ContractError::CounterOverflow)
        } else if now + self.config.bid_expiry_ns > u64::MAX {
            Some(ContractError::TimestampOverflow)
        } else if self.balance(msg.stablecoin_token@) + amount > u128::MAX {
            Some(ContractError::BalanceOverflow)
        } else {
            None
        }
    }

    /// The bid that a deposit creates: pending, with the next bid id.
    pub open spec fn new_bid(self, sender: AccountId, amount: u128, msg: BidAction, now: Timestamp) -> Bid {
        Bid {
            id: self.bid_counter,
            bidder: sender,
            property_id: msg.property_id,
            amount,
            created_at: now,
            updated_at: now,
            expires_at: self.bid_expiry(now),
            action: msg.action,
            stablecoin_token: msg.stablecoin_token,
            status: BidStatus::Pending,
            document_ref: None,
            dispute_reason: None,
            settled_at: None,
        }
    }

    /// The deposit is credited to the ledger and the bid is added behind the
    /// other bids of the property.
    pub open spec fn place_bid_state(
        self,
        sender: AccountId,
        amount: u128,
        msg: BidAction,
        now: Timestamp,
    ) -> State {
        State {
            bids: self.bids.update(
                msg.property_id as int,
                self.bid_list(msg.property_id).push(self.new_bid(sender, amount, msg, now)),
            ),
            bid_counter: (self.bid_counter + 1) as u64,
            ..self
        }.credit(msg.stablecoin_token@, amount)
    }
}

/// In a consistent state the bid with an id stands among the bids of its
/// property, names both, and is the only bid of the store with its key.
pub proof fn lemma_bid_facts(s: State, property_id: u64, bid_id: u64)
    requires
        s.wf(),
        s.has_bid(property_id, bid_id),
    ensures
        property_id < s.bids.len(),
        0 <= s.bid_index(property_id, bid_id) < s.bid_list(property_id).len(),
        s.bid(property_id, bid_id).id == bid_id,
        s.bid(property_id, bid_id).property_id == property_id,
        forall|p: int, j: int|
            0 <= p < s.bids.len() && 0 <= j < s.bids[p].len() && (#[trigger] s.bids[p][j]).property_id
                == property_id && s.bids[p][j].id == bid_id ==> p == property_id && j == s.bid_index(
                property_id,
                bid_id,
            ),
{
    if property_id >= s.bids.len() {
        assert(s.bid_list(property_id).len() == 0);
    }
    let list = s.bid_list(property_id);
    let at = s.bid_index(property_id, bid_id);
    assert(bids_ok(s.bids[property_id as int], property_id, s.bid_counter));
    lemma_bid_index(list, property_id, s.bid_counter, at);
    assert forall|p: int, j: int|
        0 <= p < s.bids.len() && 0 <= j < s.bids[p].len() && (#[trigger] s.bids[p][j]).property_id
            == property_id && s.bids[p][j].id == bid_id implies p == property_id && j == at by {
        assert(bids_ok(s.bids[p], p as u64, s.bid_counter));
        lemma_bid_index(s.bids[p], p as u64, s.bid_counter, j);
    }
}

/// Debits, credits and giving a lock back keep the state consistent.
pub proof fn lemma_ledger_keeps_wf(s: State, token: Seq<char>, amount: u128, property_id: u64, bid_id: u64)
    requires
        s.wf(),
    ensures
        s.debit(token, amount).wf(),
        s.credit(token, amount).wf(),
        s.unlock(property_id, bid_id).wf(),
{
    assert(s.debit(token, amount).balances.dom() =~= Set::<Seq<char>>::full());
    assert(s.credit(token, amount).balances.dom() =~= Set::<Seq<char>>::full());
    let freed = s.unlock(property_id, bid_id);
    assert forall|i: int| 0 <= i < freed.bids.len() implies ended_bids_free(
        freed.locks,
        #[trigger] freed.bids[i],
    ) by {
        assert(ended_bids_free(s.locks, s.bids[i]));
    }
    assert forall|i: int| 0 <= i < freed.leases.len() && (#[trigger] freed.leases[i]).active implies freed.shows_lease(
        freed.leases[i],
    ) by {
        assert(s.shows_lease(s.leases[i]));
    }
}

/// To lock a bid that is not at its end keeps the state consistent.
pub proof fn lemma_lock_keeps_wf(s: State, property_id: u64, bid_id: u64, intent: Intent)
    requires
        s.wf(),
        s.has_bid(property_id, bid_id) ==> !s.bid(property_id, bid_id).status.is_terminal(),
    ensures
        s.lock(property_id, bid_id, intent).wf(),
{
    let after = s.lock(property_id, bid_id, intent);
    assert forall|i: int| 0 <= i < after.bids.len() implies ended_bids_free(
        after.locks,
        #[trigger] after.bids[i],
    ) by {
        assert(ended_bids_free(s.locks, s.bids[i]));
        let list = s.bids[i];
        assert(bids_ok(list, i as u64, s.bid_counter));
        assert forall|j: int| 0 <= j < list.len() && (#[trigger] list[j]).status.is_terminal() implies !after.locks.dom().contains(
            LockKey { property_id: list[j].property_id, bid_id: Some(list[j].id) },
        ) by {
            if list[j].property_id == property_id && list[j].id == bid_id {
                assert(list[j].id == bid_id);
                assert(i == property_id);
                assert(s.has_bid(property_id, bid_id));
                lemma_bid_facts(s, property_id, bid_id);
                assert(s.bids[i][j].property_id == property_id);
            }
        }
    }
    assert forall|i: int| 0 <= i < after.leases.len() && (#[trigger] after.leases[i]).active implies after.shows_lease(
        after.leases[i],
    ) by {
        assert(s.shows_lease(s.leases[i]));
    }
}

/// To take the amount of a bid that is not at its end out of the ledger and
/// to lock the bid keeps the state consistent.
pub proof fn lemma_hold_keeps_wf(s: State, b: Bid, intent: Intent)
    requires
        s.wf(),
        s.has_bid(b.property_id, b.id) ==> !s.bid(b.property_id, b.id).status.is_terminal(),
    ensures
        s.hold(b, intent).wf(),
        s.hold(b, intent).bids == s.bids,
{
    lemma_ledger_keeps_wf(s, b.stablecoin_token@, b.amount, b.property_id, b.id);
    let debited_state = s.debit(b.stablecoin_token@, b.amount);
    assert(debited_state.bid_list(b.property_id) == s.bid_list(b.property_id));
    lemma_lock_keeps_wf(debited_state, b.property_id, b.id, intent);
}

/// Writing a bid over the one with its id keeps the state consistent,
/// changes that bid and leaves every other bid, the ledger and the locks as
/// they were. A bid that is written as rejected has been refunded, and a
/// bid that is written as at its end is free.
pub proof fn lemma_put_bid(s: State, property_id: u64, bid_id: u64, b: Bid)
    requires
        s.wf(),
        s.has_bid(property_id, bid_id),
        b.id == bid_id,
        b.property_id == property_id,
        b.status == BidStatus::Rejected ==> b.settled_at is Some,
        b.status.is_terminal() ==> !s.locked(property_id, bid_id),
    ensures
        s.put_bid(property_id, bid_id, b).wf(),
        s.put_bid(property_id, bid_id, b).has_bid(property_id, bid_id),
        s.put_bid(property_id, bid_id, b).bid(property_id, bid_id) == b,
        s.put_bid(property_id, bid_id, b).bid_index(property_id, bid_id) == s.bid_index(
            property_id,
            bid_id,
        ),
        s.put_bid(property_id, bid_id, b).bid_list(property_id).len() == s.bid_list(
            property_id,
        ).len(),
        forall|i: int|
            0 <= i < s.bid_list(property_id).len() && i != s.bid_index(property_id, bid_id) ==> s.put_bid(
                property_id,
                bid_id,
                b,
            ).bid_list(property_id)[i] == s.bid_list(property_id)[i],
        s.put_bid(property_id, bid_id, b).bid_list(property_id)[s.bid_index(property_id, bid_id)]
            == b,
        s.put_bid(property_id, bid_id, b).balances == s.balances,
        s.put_bid(property_id, bid_id, b).locks == s.locks,
        s.put_bid(property_id, bid_id, b).properties == s.properties,
        s.put_bid(property_id, bid_id, b).leases == s.leases,
{
    let list = s.bid_list(property_id);
    let i = s.bid_index(property_id, bid_id);
    lemma_bid_facts(s, property_id, bid_id);
    assert(bids_ok(s.bids[property_id as int], property_id, s.bid_counter));
    lemma_update_bids_ok(list, property_id, s.bid_counter, i, b);
    lemma_bid_index(list.update(i, b), property_id, s.bid_counter, i);
    let after = s.put_bid(property_id, bid_id, b);
    assert forall|k: int| 0 <= k < after.bids.len() implies bids_ok(
        #[trigger] after.bids[k],
        k as u64,
        after.bid_counter,
    ) by {
        if k != property_id {
            assert(after.bids[k] == s.bids[k]);
        }
    }
    assert forall|k: int| 0 <= k < after.bids.len() implies ended_bids_free(
        after.locks,
        #[trigger] after.bids[k],
    ) by {
        assert(ended_bids_free(s.locks, s.bids[k]));
        if k == property_id {
            let l2 = after.bids[k];
            assert forall|j: int| 0 <= j < l2.len() && (#[trigger] l2[j]).status.is_terminal() implies !after.locks.dom().contains(
                LockKey { property_id: l2[j].property_id, bid_id: Some(l2[j].id) },
            ) by {
                if j != i {
                    assert(l2[j] == list[j]);
                }
            }
        } else {
            assert(after.bids[k] == s.bids[k]);
        }
    }
    assert forall|k: int| 0 <= k < after.leases.len() && (#[trigger] after.leases[k]).active implies after.shows_lease(
        after.leases[k],
    ) by {
        assert(s.shows_lease(s.leases[k]));
    }
}

/// To lock a property as a whole and to give that lock back keep the state
/// consistent and hold or free no bid.
pub proof fn lemma_property_lock_keeps_wf(s: State, property_id: u64, intent: Intent)
    requires
        s.wf(),
    ensures
        s.lock_property(property_id, intent).wf(),
        s.unlock_property(property_id).wf(),
        forall|p: u64, id: u64|
            s.lock_property(property_id, intent).locked(p, id) == #[trigger] s.locked(p, id),
        forall|p: u64, id: u64|
            s.unlock_property(property_id).locked(p, id) == #[trigger] s.locked(p, id),
{
    let held = s.lock_property(property_id, intent);
    let freed = s.unlock_property(property_id);
    assert forall|i: int| 0 <= i < held.bids.len() implies ended_bids_free(
        held.locks,
        #[trigger] held.bids[i],
    ) && ended_bids_free(freed.locks, freed.bids[i]) by {
        assert(ended_bids_free(s.locks, s.bids[i]));
    }
    assert forall|i: int| 0 <= i < held.leases.len() && (#[trigger] held.leases[i]).active implies held.shows_lease(
        held.leases[i],
    ) && freed.shows_lease(freed.leases[i]) by {
        assert(s.shows_lease(s.leases[i]));
    }
}

/// The order stays right where a property that exists is written over.
pub proof fn lemma_order_ok_update(
    order: Seq<u64>,
    properties: Seq<Option<Property>>,
    property_id: u64,
    p: Property,
)
    requires
        order_ok(order, properties),
        property_id < properties.len(),
        properties[property_id as int] is Some,
    ensures
        order_ok(order, properties.update(property_id as int, Some(p))),
{
    let after = properties.update(property_id as int, Some(p));
    assert forall|i: int| 0 <= i < after.len() && (#[trigger] after[i]) is Some implies order.contains(
        i as u64,
    ) by {
        assert(properties[i] is Some);
    }
}

/// The order stays right where a new property is added at its end.
pub proof fn lemma_order_ok_push(order: Seq<u64>, properties: Seq<Option<Property>>, p: Property)
    requires
        order_ok(order, properties),
        properties.len() < u64::MAX,
    ensures
        order_ok(order.push(properties.len() as u64), properties.push(Some(p))),
{
    let order_after = order.push(properties.len() as u64);
    let slots_after = properties.push(Some(p));
    let n = order.len() as int;
    assert forall|k: int| 0 <= k < order_after.len() implies (#[trigger] order_after[k]) < slots_after.len() && slots_after[order_after[k] as int]
        is Some by {
        if k < n {
            assert(order_after[k] == order[k]);
        }
    }
    assert forall|k: int, l: int| 0 <= k < order_after.len() && 0 <= l < order_after.len() && k != l implies #[trigger] order_after[k]
        != #[trigger] order_after[l] by {
        if k < n {
            assert(order_after[k] == order[k]);
        }
        if l < n {
            assert(order_after[l] == order[l]);
        }
    }
    assert forall|i: int| 0 <= i < slots_after.len() && (#[trigger] slots_after[i]) is Some implies order_after.contains(
        i as u64,
    ) by {
        if i < properties.len() {
            assert(properties[i] is Some);
            let k = choose|k: int| 0 <= k < order.len() && order[k] == i as u64;
            assert(order_after[k] == i as u64);
        } else {
            assert(order_after[n] == i as u64);
        }
    }
}

/// The order stays right where a property is deleted and taken out of it.
pub proof fn lemma_order_ok_remove(order: Seq<u64>, properties: Seq<Option<Property>>, property_id: u64)
    requires
        order_ok(order, properties),
        property_id < properties.len(),
        properties[property_id as int] is Some,
    ensures
        order.contains(property_id),
        0 <= order.index_of(property_id) < order.len(),
        order[order.index_of(property_id)] == property_id,
        order_ok(order_without(order, property_id), properties.update(property_id as int, None)),
        !order_without(order, property_id).contains(property_id),
{
    assert(order.contains(property_id));
    order.index_of_first_ensures(property_id);
    let at = order.index_of(property_id);
    assert(0 <= at < order.len() && order[at] == property_id) by {
        let k = choose|k: int| 0 <= k < order.len() && order[k] == property_id;
        assert(order[k] == property_id);
    }
    let order_after = order_without(order, property_id);
    let slots_after = properties.update(property_id as int, None);
    let last = order.len() - 1;
    assert forall|k: int| 0 <= k < order_after.len() implies #[trigger] order_after[k] == order[if k == at {
        last
    } else {
        k
    }] by {}
    assert forall|k: int| 0 <= k < order_after.len() implies (#[trigger] order_after[k]) < slots_after.len() && slots_after[order_after[k] as int]
        is Some by {
        let k0 = if k == at { last } else { k };
        assert(order_after[k] == order[k0]);
        assert(k0 != at);
        assert(order[k0] != order[at]);
    }
    assert forall|k: int, l: int| 0 <= k < order_after.len() && 0 <= l < order_after.len() && k != l implies #[trigger] order_after[k]
        != #[trigger] order_after[l] by {
        let k0 = if k == at { last } else { k };
        let l0 = if l == at { last } else { l };
        assert(order_after[k] == order[k0]);
        assert(order_after[l] == order[l0]);
    }
    assert forall|i: int| 0 <= i < slots_after.len() && (#[trigger] slots_after[i]) is Some implies order_after.contains(
        i as u64,
    ) by {
        assert(properties[i] is Some);
        let k = choose|k: int| 0 <= k < order.len() && order[k] == i as u64;
        assert(k != at);
        if k == last {
            assert(order_after[at] == i as u64);
        } else {
            assert(order_after[k] == i as u64);
        }
    }
    if order_after.contains(property_id) {
        let k = choose|k: int| 0 <= k < order_after.len() && order_after[k] == property_id;
        let k0 = if k == at { last } else { k };
        assert(order_after[k] == order[k0]);
        assert(order[k0] != order[at]);
    }
}

} // verus!
