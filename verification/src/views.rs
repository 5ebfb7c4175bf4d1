//! What the store shows to its readers, with amounts written in decimal.

use crate::accounts::clone_accounts;
use crate::models::{AccountId, Bid, DisputeStatus, Lease, Property};
use crate::text::{decimal, decimal_string};
use crate::{as_index, ShedaContract};
use vstd::prelude::*;

verus! {

/// A dispute status as a word.
pub struct DisputeStatusView {
    pub status: String,
}

/// A lease, with its amounts in decimal.
pub struct LeaseView {
    pub id: u64,
    pub property_id: u64,
    pub tenant_id: String,
    pub start_time: u64,
    pub end_time: u64,
    pub active: bool,
    pub dispute_status: DisputeStatusView,
    pub escrow_held: String,
}

/// A property, with its amounts in decimal.
pub struct PropertyView {
    pub id: u64,
    pub owner_id: String,
    pub description: String,
    pub metadata_uri: String,
    pub is_for_sale: bool,
    pub price: String,
    pub lease_duration_nanos: Option<u64>,
    pub damage_escrow: String,
    pub active_lease: Option<LeaseView>,
}

/// A bid, with its amount in decimal.
pub struct BidView {
    pub id: u64,
    pub bidder_id: String,
    pub property_id: u64,
    pub bid_amount: String,
    pub created_at: u64,
}

/// The word for a dispute status.
pub open spec fn dispute_status_word(status: DisputeStatus) -> Seq<char> {
    match status {
        DisputeStatus::NoDispute => "none"@,
        DisputeStatus::Raised => "raised"@,
        DisputeStatus::Resolved => "resolved"@,
        DisputeStatus::PendingResponse => "pending_response"@,
    }
}

impl DisputeStatusView {
    /// The view holds the word of the status.
    pub open spec fn shows(self, status: DisputeStatus) -> bool {
        self.status@ == dispute_status_word(status)
    }

    /// The view of the status.
    pub fn from(status: &DisputeStatus) -> (r: DisputeStatusView)
        ensures
            r.shows(*status),
    {
        let word: &'static str = match status {
            DisputeStatus::NoDispute => "none",
            DisputeStatus::Raised => "raised",
            DisputeStatus::Resolved => "resolved",
            DisputeStatus::PendingResponse => "pending_response",
        };
        DisputeStatusView { status: String::from_str(word) }
    }
}

impl LeaseView {
    /// The view shows the lease: every field is that of the lease, the
    /// status as its word and the escrow in decimal.
    pub open spec fn shows(self, lease: Lease) -> bool {
        &&& self.id == lease.id
        &&& self.property_id == lease.property_id
        &&& self.tenant_id == lease.tenant_id
        &&& self.start_time == lease.start_time
        &&& self.end_time == lease.end_time
        &&& self.active == lease.active
        &&& self.dispute_status.shows(lease.dispute_status)
        &&& self.escrow_held@ == decimal(lease.escrow_held as nat)
    }

    /// The view of the lease.
    pub fn from(lease: &Lease) -> (r: LeaseView)
        ensures
            r.shows(*lease),
    {
        LeaseView {
            id: lease.id,
            property_id: lease.property_id,
            tenant_id: lease.tenant_id.clone(),
            start_time: lease.start_time,
            end_time: lease.end_time,
            active: lease.active,
            dispute_status: DisputeStatusView::from(&lease.dispute_status),
            escrow_held: decimal_string(lease.escrow_held),
        }
    }
}

impl PropertyView {
    /// The view shows the property: every field is that of the property,
    /// the amounts in decimal.
    pub open spec fn shows(self, property: Property) -> bool {
        &&& self.id == property.id
        &&& self.owner_id == property.owner_id
        &&& self.description == property.description
        &&& self.metadata_uri == property.metadata_uri
        &&& self.is_for_sale == property.is_for_sale
        &&& self.price@ == decimal(property.price as nat)
        &&& self.lease_duration_nanos == property.lease_duration_months
        &&& self.damage_escrow@ == decimal(property.damage_escrow as nat)
        &&& self.active_lease is Some <==> property.active_lease is Some
        &&& self.active_lease is Some ==> self.active_lease->0.shows(property.active_lease->0)
    }

    /// The view of the property.
    pub fn from(property: &Property) -> (r: PropertyView)
        ensures
            r.shows(*property),
    {
        let active_lease: Option<LeaseView> = match &property.active_lease {
            Some(l) => Some(LeaseView::from(l)),
            None => None,
        };
        PropertyView {
            id: property.id,
            owner_id: property.owner_id.clone(),
            description: property.description.clone(),
            metadata_uri: property.metadata_uri.clone(),
            is_for_sale: property.is_for_sale,
            price: decimal_string(property.price),
            lease_duration_nanos: property.lease_duration_months,
            damage_escrow: decimal_string(property.damage_escrow),
            active_lease,
        }
    }
}

impl BidView {
    /// The view shows the bid: every field is that of the bid, the amount
    /// in decimal.
    pub open spec fn shows(self, bid: Bid) -> bool {
        &&& self.id == bid.id
        &&& self.bidder_id == bid.bidder
        &&& self.property_id == bid.property_id
        &&& self.bid_amount@ == decimal(bid.amount as nat)
        &&& self.created_at == bid.created_at
    }

    /// The view of the bid.
    pub fn from(bid: &Bid) -> (r: BidView)
        ensures
            r.shows(*bid),
    {
        BidView {
            id: bid.id,
            bidder_id: bid.bidder.clone(),
            property_id: bid.property_id,
            bid_amount: decimal_string(bid.amount),
            created_at: bid.created_at,
        }
    }
}

/// The properties that exist, in the order in which they are listed.
pub open spec fn listed_properties(order: Seq<u64>, slots: Seq<Option<Property>>) -> Seq<Property> {
    Seq::new(order.len(), |k: int| slots[order[k] as int]->0)
}

/// The properties among `slots` that exist and belong to `owner`, in the
/// order of their ids.
pub open spec fn properties_of(slots: Seq<Option<Property>>, owner: Seq<char>) -> Seq<Property>
    decreases slots.len(),
{
    if slots.len() == 0 {
        Seq::empty()
    } else if slots.last() is Some && slots.last()->0.owner_id@ == owner {
        properties_of(slots.drop_last(), owner).push(slots.last()->0)
    } else {
        properties_of(slots.drop_last(), owner)
    }
}

/// The leases among `leases` on which a dispute is raised, in the order of
/// their ids.
pub open spec fn disputed_leases(leases: Seq<Lease>) -> Seq<Lease>
    decreases leases.len(),
{
    if leases.len() == 0 {
        Seq::empty()
    } else if leases.last().dispute_status == DisputeStatus::Raised {
        disputed_leases(leases.drop_last()).push(leases.last())
    } else {
        disputed_leases(leases.drop_last())
    }
}

/// The page of `items` that starts at `from` and holds at most `limit` items.
pub open spec fn page<T>(items: Seq<T>, from: u64, limit: u64) -> Seq<T> {
    if from >= items.len() {
        Seq::empty()
    } else if from + limit >= items.len() {
        items.subrange(from as int, items.len() as int)
    } else {
        items.subrange(from as int, from + limit)
    }
}

/// Each view shows the property at its place.
pub open spec fn show_properties(views: Seq<PropertyView>, properties: Seq<Property>) -> bool {
    views.len() == properties.len() && forall|i: int|
        0 <= i < views.len() ==> (#[trigger] views[i]).shows(properties[i])
}

/// Each view shows the lease at its place.
pub open spec fn show_leases(views: Seq<LeaseView>, leases: Seq<Lease>) -> bool {
    views.len() == leases.len() && forall|i: int|
        0 <= i < views.len() ==> (#[trigger] views[i]).shows(leases[i])
}

/// Each view shows the bid at its place.
pub open spec fn show_bids(views: Seq<BidView>, bids: Seq<Bid>) -> bool {
    views.len() == bids.len() && forall|i: int|
        0 <= i < views.len() ==> (#[trigger] views[i]).shows(bids[i])
}

impl ShedaContract {
    /// The admins.
    pub fn get_all_admins(&self) -> (r: Vec<AccountId>)
        ensures
            r@ == self@.admins,
    {
        clone_accounts(&self.admins)
    }

    /// Whether the caller is an admin.
    pub fn is_caller_admin(&self, caller: &AccountId) -> (r: bool)
        ensures
            r == self@.is_admin(caller@),
    {
        self.is_admin(caller)
    }

    /// The owner of the store.
    pub fn get_owner_id(&self) -> (r: AccountId)
        ensures
            r == self@.owner_id,
    {
        self.owner_id.clone()
    }

    /// The number of property ids handed out.
    pub fn get_property_counter(&self) -> (r: u64)
        requires
            self.wf(),
        ensures
            r == self@.properties.len(),
    {
        self.property_counter
    }

    /// The number of bid ids handed out.
    pub fn get_bid_counter(&self) -> (r: u64)
        ensures
            r == self@.bid_counter,
    {
        self.bid_counter
    }

    /// The number of lease ids handed out.
    pub fn get_lease_counter(&self) -> (r: u64)
        requires
            self.wf(),
        ensures
            r == self@.leases.len(),
    {
        self.lease_counter
    }

    /// The accepted tokens.
    pub fn get_supported_stablecoins(&self) -> (r: Vec<AccountId>)
        ensures
            r@ == self@.accepted_stablecoin,
    {
        clone_accounts(&self.accepted_stablecoin)
    }

    /// What the ledger holds of `token`.
    pub fn get_stablecoin_balance(&self, token: &AccountId) -> (r: u128)
        requires
            self.wf(),
        ensures
            r == self@.balance(token@),
    {
        self.stable_coin_balances.balance(token)
    }

    /// The view of the property with this id, if it exists.
    pub fn get_property_by_id(&self, property_id: u64) -> (r: Option<PropertyView>)
        requires
            self.wf(),
        ensures
            r is Some <==> self@.has_property(property_id),
            r is Some ==> r->0.shows(self@.property(property_id)),
    {
        match self.property_ref(property_id) {
            Some(p) => Some(PropertyView::from(p)),
            None => None,
        }
    }

    /// The view of the lease with this id, if it exists.
    pub fn get_lease_by_id(&self, lease_id: u64) -> (r: Option<LeaseView>)
        requires
            self.wf(),
        ensures
            r is Some <==> self@.has_lease(lease_id),
            r is Some ==> r->0.shows(self@.lease(lease_id)),
    {
        match self.lease_ref(lease_id) {
            Some(l) => Some(LeaseView::from(l)),
            None => None,
        }
    }

    /// The bids of a property in the order in which they were placed.
    pub fn get_bids_for_property(&self, property_id: u64) -> (r: Vec<BidView>)
        requires
            self.wf(),
        ensures
            show_bids(r@, self@.bid_list(property_id)),
    {
        let mut out: Vec<BidView> = Vec::new();
        if property_id >= self.bids.len() as u64 {
            return out;
        }
        let list: &Vec<Bid> = &self.bids[as_index(property_id, self.bids.len())];
        let mut i: usize = 0;
        while i < list.len()
            invariant
                i <= list@.len(),
                out@.len() == i,
                forall|k: int| 0 <= k < i ==> (#[trigger] out@[k]).shows(list@[k]),
            decreases list@.len() - i,
        {
            out.push(BidView::from(&list[i]));
            i = i + 1;
        }
        out
    }

    /// The bid with this id, as it stands.
    pub fn get_bid(&self, property_id: u64, bid_id: u64) -> (r: Option<Bid>)
        requires
            self.wf(),
        ensures
            r is Some <==> self@.has_bid(property_id, bid_id),
            r is Some ==> r->0 == self@.bid(property_id, bid_id),
    {
        match self.bid_position(property_id, bid_id) {
            Some(i) => Some(self.bid_copy(property_id, i)),
            None => None,
        }
    }

    /// The property with this id, as it stands.
    pub fn get_property(&self, property_id: u64) -> (r: Option<Property>)
        requires
            self.wf(),
        ensures
            r is Some <==> self@.has_property(property_id),
            r is Some ==> r->0 == self@.property(property_id),
    {
        match self.property_ref(property_id) {
            Some(p) => Some(p.clone()),
            None => None,
        }
    }

    /// The lease with this id, as it stands.
    pub fn get_lease(&self, lease_id: u64) -> (r: Option<Lease>)
        requires
            self.wf(),
        ensures
            r is Some <==> self@.has_lease(lease_id),
            r is Some ==> r->0 == self@.lease(lease_id),
    {
        match self.lease_ref(lease_id) {
            Some(l) => Some(l.clone()),
            None => None,
        }
    }

    /// A page of the properties that exist, in the order in which they are
    /// listed: it starts behind the first `from_index` of them and holds at
    /// most `limit`. A new property is listed last; where a property is
    /// deleted, the one that was listed last takes its place.
    pub fn get_properties(&self, from_index: u64, limit: u64) -> (r: Vec<PropertyView>)
        requires
            self.wf(),
        ensures
            show_properties(
                r@,
                page(listed_properties(self@.property_order, self@.properties), from_index, limit),
            ),
    {
        let mut out: Vec<PropertyView> = Vec::new();
        let len: usize = self.property_order.len();
        if from_index >= len as u64 {
            return out;
        }
        let start: usize = as_index(from_index, len);
        let room: usize = len - start;
        let count: usize = if limit >= room as u64 {
            room
        } else {
            as_index(limit, room)
        };
        let ghost all = listed_properties(self@.property_order, self@.properties);
        let mut k: usize = 0;
        while k < count
            invariant
                self.wf(),
                k <= count,
                start + count <= len,
                len == self.property_order@.len(),
                all == listed_properties(self@.property_order, self@.properties),
                out@.len() == k,
                forall|j: int| 0 <= j < k ==> (#[trigger] out@[j]).shows(all[start + j]),
            decreases count - k,
        {
            let id: u64 = self.property_order[start + k];
            match self.property_ref(id) {
                Some(p) => {
                    out.push(PropertyView::from(p));
                },
                None => {},
            }
            k = k + 1;
        }
        proof {
            let want = page(all, from_index, limit);
            assert(want.len() == count);
            assert forall|j: int| 0 <= j < out@.len() implies (#[trigger] out@[j]).shows(want[j]) by {
                assert(want[j] == all[start + j]);
            }
        }
        out
    }

    /// The existing properties of `owner_id` in the order of their ids.
    pub fn get_property_by_owner(&self, owner_id: &AccountId) -> (r: Vec<PropertyView>)
        ensures
            show_properties(r@, properties_of(self@.properties, owner_id@)),
    {
        let mut out: Vec<PropertyView> = Vec::new();
        let mut i: usize = 0;
        let ghost slots = self.properties@;
        while i < self.properties.len()
            invariant
                i <= slots.len(),
                slots == self.properties@,
                show_properties(out@, properties_of(slots.take(i as int), owner_id@)),
            decreases slots.len() - i,
        {
            proof {
                assert(slots.take(i + 1).drop_last() =~= slots.take(i as int));
                assert(slots.take(i + 1).last() == slots[i as int]);
            }
            match &self.properties[i] {
                Some(p) => {
                    if p.owner_id == *owner_id {
                        out.push(PropertyView::from(p));
                    }
                },
                None => {},
            }
            i = i + 1;
        }
        proof {
            assert(slots.take(i as int) =~= slots);
        }
        out
    }

    /// The leases on which a dispute is raised, for an admin to read.
    pub fn get_leases_with_disputes(&self, caller: &AccountId) -> (r: Result<
        Vec<LeaseView>,
        crate::models::ContractError,
    >)
        ensures
            !self@.is_admin(caller@) ==> r is Err && r->Err_0
                == crate::models::ContractError::UnauthorizedAccess,
            self@.is_admin(caller@) ==> r is Ok && show_leases(
                r->Ok_0@,
                disputed_leases(self@.leases),
            ),
    {
        if !self.is_admin(caller) {
            return Err(crate::models::ContractError::UnauthorizedAccess);
        }
        let mut out: Vec<LeaseView> = Vec::new();
        let mut i: usize = 0;
        let ghost all = self.leases@;
        while i < self.leases.len()
            invariant
                i <= all.len(),
                all == self.leases@,
                show_leases(out@, disputed_leases(all.take(i as int))),
            decreases all.len() - i,
        {
            proof {
                assert(all.take(i + 1).drop_last() =~= all.take(i as int));
                assert(all.take(i + 1).last() == all[i as int]);
            }
            if self.leases[i].dispute_status == DisputeStatus::Raised {
                out.push(LeaseView::from(&self.leases[i]));
            }
            i = i + 1;
        }
        proof {
            assert(all.take(i as int) =~= all);
        }
        Ok(out)
    }
}

} // verus!
