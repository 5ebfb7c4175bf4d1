//! The rules of leases: disputes, their resolution, and expiry.

use crate::models::{
    AccountId, ContractError, DisputeInfo, DisputeResolution, DisputeStatus, DisputeWinner, Lease,
    OwnershipTransfer, Property, Timestamp, WithdrawRequest,
};
use crate::state::State;
use vstd::prelude::*;

verus! {

/// The smaller of what was asked for and what is held.
pub open spec fn capped(requested: u128, held: u128) -> u128 {
    if requested <= held {
        requested
    } else {
        held
    }
}

/// What is known of a dispute, with the result of the arbitration added.
pub open spec fn with_oracle_result(d: Option<DisputeInfo>, winner: DisputeWinner) -> Option<
    DisputeInfo,
> {
    match d {
        Some(info) => Some(DisputeInfo { oracle_result: Some(winner), ..info }),
        None => None,
    }
}

impl State {
    /// The property of the lease shows this lease as its active lease.
    pub open spec fn shows_lease(self, lease: Lease) -> bool {
        self.has_property(lease.property_id) && self.property(lease.property_id).active_lease is Some
            && self.property(lease.property_id).active_lease->0.id == lease.id
    }

    /// The lease is written over the one with its id, and over the copy that
    /// its property shows where it shows this lease.
    pub open spec fn store_lease(self, lease: Lease) -> State {
        if self.shows_lease(lease) {
            self.put_lease(lease).put_property(
                lease.property_id,
                Some(Property { active_lease: Some(lease), ..self.property(lease.property_id) }),
            )
        } else {
            self.put_lease(lease)
        }
    }

    // ----- raising a dispute -----

    /// Why the caller cannot raise a dispute on the lease.
    pub open spec fn raise_dispute_error(self, caller: Seq<char>, lease_id: u64) -> Option<
        ContractError,
    > {
        if !self.has_lease(lease_id) {
            Some(ContractError::LeaseNotFound)
        } else if self.lease(lease_id).tenant_id@ != caller {
            Some(ContractError::UnauthorizedAccess)
        } else if !self.lease(lease_id).active {
            Some(ContractError::LeaseNotActive)
        } else if self.lease(lease_id).dispute_status != DisputeStatus::NoDispute {
            Some(ContractError::DisputeAlreadyRaised)
        } else {
            None
        }
    }

    /// The lease with a dispute raised by `caller` at `now`.
    pub open spec fn disputed_lease(
        self,
        caller: AccountId,
        lease_id: u64,
        reason: String,
        now: Timestamp,
    ) -> Lease {
        Lease {
            dispute_status: DisputeStatus::Raised,
            dispute: Some(
                DisputeInfo {
                    raised_by: caller,
                    reason,
                    raised_at: now,
                    votes_for_tenant: 0,
                    votes_for_owner: 0,
                    oracle_result: None,
                },
            ),
            ..self.lease(lease_id)
        }
    }

    /// The dispute is raised on the lease.
    pub open spec fn raise_dispute_state(
        self,
        caller: AccountId,
        lease_id: u64,
        reason: String,
        now: Timestamp,
    ) -> State {
        self.store_lease(self.disputed_lease(caller, lease_id, reason, now))
    }

    // ----- resolving a dispute -----

    /// What the resolution pays: what was asked for, at most the escrow held.
    pub open spec fn dispute_payout(self, lease_id: u64, requested: u128) -> u128 {
        capped(requested, self.lease(lease_id).escrow_held)
    }

    /// The account is the arbiter whose results the store takes.
    pub open spec fn is_arbiter(self, account: Seq<char>) -> bool {
        self.dispute_arbiter is Some && self.dispute_arbiter->0@ == account
    }

    /// Why the result of an arbitration does not resolve the dispute on the
    /// lease.
    pub open spec fn arbitration_error(
        self,
        arbiter: Seq<char>,
        lease_id: u64,
        winner: DisputeWinner,
        requested: u128,
    ) -> Option<ContractError> {
        if !self.has_lease(lease_id) {
            Some(ContractError::LeaseNotFound)
        } else if self.lease(lease_id).dispute_status != DisputeStatus::Raised {
            Some(ContractError::DisputeAlreadyRaised)
        } else if !self.is_arbiter(arbiter) {
            Some(ContractError::UnauthorizedAccess)
        } else {
            self.dispute_payout_error(lease_id, winner, requested)
        }
    }

    /// Why the payout of a resolution cannot be made: the owner wins and the
    /// property is gone, or the ledger does not cover the payout.
    pub open spec fn dispute_payout_error(
        self,
        lease_id: u64,
        winner: DisputeWinner,
        requested: u128,
    ) -> Option<ContractError> {
        if winner == DisputeWinner::Owner && !self.has_property(self.lease(lease_id).property_id) {
            Some(ContractError::PropertyNotFound)
        } else if self.balance(self.lease(lease_id).escrow_token@) < self.dispute_payout(
            lease_id,
            requested,
        ) {
            Some(ContractError::BalanceUnderflow)
        } else {
            None
        }
    }

    /// Why the caller cannot resolve the dispute on the lease.
    pub open spec fn resolve_dispute_error(
        self,
        caller: Seq<char>,
        lease_id: u64,
        winner: DisputeWinner,
        requested: u128,
    ) -> Option<ContractError> {
        if !self.has_lease(lease_id) {
            Some(ContractError::LeaseNotFound)
        } else if self.lease(lease_id).dispute_status != DisputeStatus::Raised {
            Some(ContractError::DisputeAlreadyRaised)
        } else if !self.is_admin(caller) {
            Some(ContractError::UnauthorizedAccess)
        } else {
            self.dispute_payout_error(lease_id, winner, requested)
        }
    }

    /// The lease with its dispute resolved by `resolver` at `now`: the payout
    /// has left the escrow, and winner, payout, resolver and time are kept.
    /// Where an arbitration decided, its result is kept with the dispute.
    pub open spec fn resolved_lease(
        self,
        resolver: AccountId,
        lease_id: u64,
        winner: DisputeWinner,
        requested: u128,
        now: Timestamp,
        arbitration: bool,
    ) -> Lease {
        Lease {
            dispute_status: DisputeStatus::Resolved,
            dispute: if arbitration {
                with_oracle_result(self.lease(lease_id).dispute, winner)
            } else {
                self.lease(lease_id).dispute
            },
            resolution: Some(
                DisputeResolution {
                    winner,
                    payout: self.dispute_payout(lease_id, requested),
                    resolved_by: resolver,
                    resolved_at: now,
                },
            ),
            escrow_held: (self.lease(lease_id).escrow_held - self.dispute_payout(
                lease_id,
                requested,
            )) as u128,
            ..self.lease(lease_id)
        }
    }

    /// The dispute is resolved: the payout has left the ledger and the
    /// escrow, the lease keeps how the dispute ended, and the lease is over.
    pub open spec fn resolve_dispute_state(
        self,
        resolver: AccountId,
        lease_id: u64,
        winner: DisputeWinner,
        requested: u128,
        now: Timestamp,
        arbitration: bool,
    ) -> State {
        self.debit(
            self.lease(lease_id).escrow_token@,
            self.dispute_payout(lease_id, requested),
        ).put_lease(
            self.resolved_lease(resolver, lease_id, winner, requested, now, arbitration),
        ).retire_lease(lease_id)
    }

    /// The registry transfer that the end of a lease by resolution asks for:
    /// back from the tenant to the owner, where the lease was still active
    /// and its property exists.
    pub open spec fn resolve_dispute_transfer(self, lease_id: u64) -> Option<OwnershipTransfer> {
        if self.lease(lease_id).active {
            self.return_transfer(lease_id)
        } else {
            None
        }
    }

    /// The payout of the resolution: to the tenant or to the owner of the
    /// property, as the winner is.
    pub open spec fn resolve_dispute_request(
        self,
        lease_id: u64,
        winner: DisputeWinner,
        requested: u128,
    ) -> WithdrawRequest {
        WithdrawRequest {
            token: self.lease(lease_id).escrow_token,
            receiver_id: if winner == DisputeWinner::Tenant {
                self.lease(lease_id).tenant_id
            } else {
                self.property(self.lease(lease_id).property_id).owner_id
            },
            amount: self.dispute_payout(lease_id, requested),
        }
    }

    // ----- expiry -----

    /// The lease is active and its end has come.
    pub open spec fn lease_due(self, lease_id: u64, now: Timestamp) -> bool {
        self.has_lease(lease_id) && self.lease(lease_id).active && self.lease(lease_id).end_time
            <= now
    }

    /// The lease is made inactive, and its property shows no active lease any
    /// more where it showed this one.
    pub open spec fn retire_lease(self, lease_id: u64) -> State {
        let ended = Lease { active: false, ..self.lease(lease_id) };
        if self.shows_lease(ended) {
            self.put_lease(ended).put_property(
                ended.property_id,
                Some(Property { active_lease: None, ..self.property(ended.property_id) }),
            )
        } else {
            self.put_lease(ended)
        }
    }

    /// Expiry of one lease: a lease that is due is retired, any other lease
    /// is left alone.
    pub open spec fn expire_lease_state(self, lease_id: u64, now: Timestamp) -> State {
        if self.lease_due(lease_id, now) {
            self.retire_lease(lease_id)
        } else {
            self
        }
    }

    /// The registry transfer that gives the property of a lease back: from
    /// the tenant to the owner, where the property exists.
    pub open spec fn return_transfer(self, lease_id: u64) -> Option<OwnershipTransfer> {
        if self.has_property(self.lease(lease_id).property_id) {
            Some(
                OwnershipTransfer {
                    property_id: self.lease(lease_id).property_id,
                    from: self.lease(lease_id).tenant_id,
                    to: self.property(self.lease(lease_id).property_id).owner_id,
                },
            )
        } else {
            None
        }
    }

    /// The registry transfer that the expiry of a lease asks for: the
    /// property goes back where the lease is due.
    pub open spec fn expire_lease_transfer(self, lease_id: u64, now: Timestamp) -> Option<
        OwnershipTransfer,
    > {
        if self.lease_due(lease_id, now) {
            self.return_transfer(lease_id)
        } else {
            None
        }
    }

    /// A sweep over the leases from id `from` on, for at most `budget`
    /// leases: each lease that it looks at costs one unit of the budget and
    /// is expired where it is due. The result is the state, the registry
    /// transfers in the order of the leases, and the id of the first lease
    /// that was not looked at.
    pub open spec fn sweep_leases(self, from: int, budget: nat, now: Timestamp) -> (
        State,
        Seq<OwnershipTransfer>,
        int,
    )
        decreases budget,
    {
        if budget == 0 || from < 0 || from >= self.leases.len() {
            (self, Seq::empty(), from)
        } else {
            let rest = self.expire_lease_state(from as u64, now).sweep_leases(
                from + 1,
                (budget - 1) as nat,
                now,
            );
            match self.expire_lease_transfer(from as u64, now) {
                Some(t) => (rest.0, seq![t] + rest.1, rest.2),
                None => rest,
            }
        }
    }
}

/// Expiry is idempotent: to expire a lease a second time, at the same time or
/// later, changes nothing and asks for no registry transfer.
pub proof fn lemma_expire_lease_idempotent(s: State, lease_id: u64, now: Timestamp, later: Timestamp)
    requires
        s.wf(),
        s.has_lease(lease_id),
        now <= later,
    ensures
        s.expire_lease_state(lease_id, now).expire_lease_state(lease_id, now) == s.expire_lease_state(
            lease_id,
            now,
        ),
        s.lease_due(lease_id, now) ==> s.expire_lease_state(lease_id, now).expire_lease_state(
            lease_id,
            later,
        ) == s.expire_lease_state(lease_id, now),
        s.lease_due(lease_id, now) ==> s.expire_lease_state(lease_id, now).expire_lease_transfer(
            lease_id,
            later,
        ) is None,
{
    let once = s.expire_lease_state(lease_id, now);
    if s.lease_due(lease_id, now) {
        assert(once.leases[lease_id as int].active == false);
        assert(!once.lease_due(lease_id, later));
        assert(!once.lease_due(lease_id, now));
    }
}

/// Expiry keeps the state consistent and the number of leases, makes the
/// lease it is asked for not due, and makes no other lease due.
pub proof fn lemma_expire_lease_keeps(s: State, lease_id: u64, now: Timestamp)
    requires
        s.wf(),
        s.has_lease(lease_id),
    ensures
        s.expire_lease_state(lease_id, now).wf(),
        s.expire_lease_state(lease_id, now).leases.len() == s.leases.len(),
        !s.expire_lease_state(lease_id, now).lease_due(lease_id, now),
        forall|i: u64|
            !s.lease_due(i, now) ==> !#[trigger] s.expire_lease_state(lease_id, now).lease_due(i, now),
{
    let after = s.expire_lease_state(lease_id, now);
    if s.lease_due(lease_id, now) {
        assert(after.leases[lease_id as int].active == false);
        assert forall|i: u64| !s.lease_due(i, now) implies !#[trigger] after.lease_due(i, now) by {
            if i != lease_id && after.has_lease(i) {
                assert(after.leases[i as int] == s.leases[i as int]);
            }
        }
    }
}

/// A sweep that looks at no lease that is due changes nothing and asks for
/// no registry transfer.
pub proof fn lemma_sweep_leases_at_rest(s: State, from: int, budget: nat, now: Timestamp)
    requires
        s.leases.len() <= u64::MAX,
        forall|i: u64| from <= i < from + budget ==> !#[trigger] s.lease_due(i, now),
    ensures
        s.sweep_leases(from, budget, now).0 == s,
        s.sweep_leases(from, budget, now).1 == Seq::<OwnershipTransfer>::empty(),
    decreases budget,
{
    if budget == 0 || from < 0 || from >= s.leases.len() {
    } else {
        assert(!s.lease_due(from as u64, now));
        lemma_sweep_leases_at_rest(s, from + 1, (budget - 1) as nat, now);
    }
}

/// After a sweep no lease that it looked at is due, and none that was not
/// due before has become due.
pub proof fn lemma_sweep_leases_settles(s: State, from: int, budget: nat, now: Timestamp)
    requires
        s.wf(),
        0 <= from,
    ensures
        s.sweep_leases(from, budget, now).0.wf(),
        s.sweep_leases(from, budget, now).0.leases.len() == s.leases.len(),
        forall|i: u64|
            !s.lease_due(i, now) ==> !#[trigger] s.sweep_leases(from, budget, now).0.lease_due(i, now),
        forall|i: u64|
            from <= i < from + budget ==> !#[trigger] s.sweep_leases(from, budget, now).0.lease_due(
                i,
                now,
            ),
    decreases budget,
{
    if budget == 0 || from >= s.leases.len() {
    } else {
        let one = s.expire_lease_state(from as u64, now);
        lemma_expire_lease_keeps(s, from as u64, now);
        lemma_sweep_leases_settles(one, from + 1, (budget - 1) as nat, now);
        let end = one.sweep_leases(from + 1, (budget - 1) as nat, now).0;
        assert(end == s.sweep_leases(from, budget, now).0);
        assert forall|i: u64| !s.lease_due(i, now) implies !#[trigger] end.lease_due(i, now) by {
            assert(!one.lease_due(i, now));
        }
        assert forall|i: u64| from <= i < from + budget implies !#[trigger] end.lease_due(i, now) by {
            if i == from {
                assert(!one.lease_due(i, now));
            }
        }
    }
}

/// The sweep is idempotent: after a sweep, a second sweep at the same time
/// over leases that the first looked at changes nothing and asks for no
/// registry transfer. That is so for a second sweep with no larger a budget,
/// and for any second sweep where the first reached the last lease.
pub proof fn lemma_sweep_leases_idempotent(
    s: State,
    from: u64,
    budget: u64,
    again: u64,
    now: Timestamp,
)
    requires
        s.wf(),
        again <= budget || from + budget >= s.leases.len(),
    ensures
        s.sweep_leases(from as int, budget as nat, now).0.sweep_leases(
            from as int,
            again as nat,
            now,
        ).0 == s.sweep_leases(from as int, budget as nat, now).0,
        s.sweep_leases(from as int, budget as nat, now).0.sweep_leases(
            from as int,
            again as nat,
            now,
        ).1 == Seq::<OwnershipTransfer>::empty(),
{
    lemma_sweep_leases_settles(s, from as int, budget as nat, now);
    let once = s.sweep_leases(from as int, budget as nat, now).0;
    assert forall|i: u64| from <= i < from + again implies !#[trigger] once.lease_due(i, now) by {
        if i < from + budget {
        } else {
            assert(!once.has_lease(i));
        }
    }
    lemma_sweep_leases_at_rest(once, from as int, again as nat, now);
}

/// A sweep can be taken up where it stopped: a sweep with the budget
/// `first + second` does what a sweep with the budget `first` and then a
/// sweep with the budget `second` from the id that the first names do, and
/// the id never moves back.
pub proof fn lemma_sweep_leases_resumes(s: State, from: int, first: nat, second: nat, now: Timestamp)
    requires
        s.wf(),
        0 <= from,
    ensures
        s.sweep_leases(from, first + second, now) == ({
            let a = s.sweep_leases(from, first, now);
            let b = a.0.sweep_leases(a.2, second, now);
            (b.0, a.1 + b.1, b.2)
        }),
        s.sweep_leases(from, first, now).2 >= from,
    decreases first,
{
    let a = s.sweep_leases(from, first, now);
    let b = a.0.sweep_leases(a.2, second, now);
    if first == 0 {
        assert(a.1 + b.1 =~= b.1);
    } else if from >= s.leases.len() {
        assert(a.1 + b.1 =~= Seq::<OwnershipTransfer>::empty());
    } else {
        let one = s.expire_lease_state(from as u64, now);
        lemma_expire_lease_keeps(s, from as u64, now);
        lemma_sweep_leases_resumes(one, from + 1, (first - 1) as nat, second, now);
        let ra = one.sweep_leases(from + 1, (first - 1) as nat, now);
        let rb = ra.0.sweep_leases(ra.2, second, now);
        assert(one.sweep_leases(from + 1, (first + second - 1) as nat, now) == (
            rb.0,
            ra.1 + rb.1,
            rb.2,
        ));
        match s.expire_lease_transfer(from as u64, now) {
            Some(t) => {
                assert(seq![t] + (ra.1 + rb.1) =~= (seq![t] + ra.1) + rb.1);
            },
            None => {},
        }
    }
}

/// How many of the registry transfers are for the property.
pub open spec fn transfers_for(transfers: Seq<OwnershipTransfer>, property_id: u64) -> nat
    decreases transfers.len(),
{
    if transfers.len() == 0 {
        0
    } else {
        transfers_for(transfers.drop_first(), property_id) + if transfers[0].property_id
            == property_id {
            1nat
        } else {
            0nat
        }
    }
}

/// A sweep leaves a property that shows no active lease as it is and asks
/// for no registry transfer for it, and it leaves every inactive lease as
/// it is.
pub proof fn lemma_sweep_leases_passes_over(
    s: State,
    from: int,
    budget: nat,
    now: Timestamp,
    property_id: u64,
)
    requires
        s.wf(),
        0 <= from,
        s.has_property(property_id),
        s.property(property_id).active_lease is None,
    ensures
        s.sweep_leases(from, budget, now).0.properties[property_id as int]
            == s.properties[property_id as int],
        transfers_for(s.sweep_leases(from, budget, now).1, property_id) == 0,
        forall|i: int|
            0 <= i < s.leases.len() && !(#[trigger] s.leases[i]).active ==> s.sweep_leases(
                from,
                budget,
                now,
            ).0.leases[i] == s.leases[i],
        s.sweep_leases(from, budget, now).0.leases.len() == s.leases.len(),
    decreases budget,
{
    if budget == 0 || from >= s.leases.len() {
    } else {
        let one = s.expire_lease_state(from as u64, now);
        lemma_expire_lease_keeps(s, from as u64, now);
        if s.lease_due(from as u64, now) {
            assert(s.shows_lease(s.leases[from]));
        }
        assert(one.properties[property_id as int] == s.properties[property_id as int]);
        lemma_sweep_leases_passes_over(one, from + 1, (budget - 1) as nat, now, property_id);
        let rest = one.sweep_leases(from + 1, (budget - 1) as nat, now);
        match s.expire_lease_transfer(from as u64, now) {
            Some(t) => {
                assert((seq![t] + rest.1).drop_first() =~= rest.1);
            },
            None => {},
        }
        assert forall|i: int| 0 <= i < s.leases.len() && !(#[trigger] s.leases[i]).active implies rest.0.leases[i]
            == s.leases[i] by {
            assert(one.leases[i] == s.leases[i]);
        }
    }
}

/// A sweep that reaches a lease that is due expires it: the lease becomes
/// inactive and keeps its other fields, its property shows no active lease
/// any more and is otherwise as it was, and the sweep asks for exactly one
/// registry transfer for the property, from the tenant back to the owner.
pub proof fn lemma_sweep_leases_expires(
    s: State,
    from: int,
    budget: nat,
    now: Timestamp,
    lease_id: u64,
)
    requires
        s.wf(),
        0 <= from <= lease_id < from + budget,
        s.lease_due(lease_id, now),
    ensures
        s.has_property(s.lease(lease_id).property_id),
        s.property(s.lease(lease_id).property_id).active_lease is Some,
        s.sweep_leases(from, budget, now).0.has_lease(lease_id),
        s.sweep_leases(from, budget, now).0.lease(lease_id) == (Lease {
            active: false,
            ..s.lease(lease_id)
        }),
        s.sweep_leases(from, budget, now).0.properties[s.lease(lease_id).property_id as int]
            == Some(
            Property { active_lease: None, ..s.property(s.lease(lease_id).property_id) },
        ),
        transfers_for(s.sweep_leases(from, budget, now).1, s.lease(lease_id).property_id) == 1,
        s.sweep_leases(from, budget, now).1.contains(
            OwnershipTransfer {
                property_id: s.lease(lease_id).property_id,
                from: s.lease(lease_id).tenant_id,
                to: s.property(s.lease(lease_id).property_id).owner_id,
            },
        ),
    decreases budget,
{
    let lease = s.lease(lease_id);
    let property_id = lease.property_id;
    assert(s.shows_lease(s.leases[lease_id as int]));
    let one = s.expire_lease_state(from as u64, now);
    lemma_expire_lease_keeps(s, from as u64, now);
    let rest = one.sweep_leases(from + 1, (budget - 1) as nat, now);
    let wanted = OwnershipTransfer {
        property_id,
        from: lease.tenant_id,
        to: s.property(property_id).owner_id,
    };
    if from == lease_id {
        assert(one.properties[property_id as int] == Some(
            Property { active_lease: None, ..s.property(property_id) },
        ));
        lemma_sweep_leases_passes_over(one, from + 1, (budget - 1) as nat, now, property_id);
        assert(s.expire_lease_transfer(from as u64, now) == Some(wanted));
        let all = seq![wanted] + rest.1;
        assert(all.drop_first() =~= rest.1);
        assert(all[0] == wanted);
        assert(!one.leases[lease_id as int].active);
    } else {
        if s.lease_due(from as u64, now) {
            assert(s.shows_lease(s.leases[from]));
            assert(s.leases[from].property_id != property_id);
        }
        assert(one.leases[lease_id as int] == s.leases[lease_id as int]);
        assert(one.properties[property_id as int] == s.properties[property_id as int]);
        assert(one.lease_due(lease_id, now));
        lemma_sweep_leases_expires(one, from + 1, (budget - 1) as nat, now, lease_id);
        match s.expire_lease_transfer(from as u64, now) {
            Some(t) => {
                let all = seq![t] + rest.1;
                assert(all.drop_first() =~= rest.1);
                let k = choose|k: int| 0 <= k < rest.1.len() && rest.1[k] == wanted;
                assert(all[k + 1] == wanted);
            },
            None => {},
        }
    }
}

} // verus!
