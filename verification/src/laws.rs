//! What holds of a bid over every sequence of accept, reject, cancel and
//! timeout refund, and of the ledger over a debit and a credit.

use crate::bid_rules::{closed, lemma_sweep_keeps_bids, moved, refund_request};
use crate::guard::{Intent, LockKey};
use crate::models::{Bid, BidStatus, ContractError, Timestamp, TransferRequest};
use crate::state::{
    ended_bids_free, lemma_bid_facts, lemma_hold_keeps_wf, lemma_ledger_keeps_wf,
    lemma_property_lock_keeps_wf, lemma_put_bid, list_has_in_flight, State,
};
use vstd::prelude::*;

verus! {

/// One step in the life of a bid: a call of accept (for direct settlement or
/// for escrow), reject, cancel or timeout refund, or the report of how the
/// transfer that such a call asked for has ended.
pub enum BidStep {
    Accept { caller: Seq<char>, now: Timestamp },
    AcceptEscrow { caller: Seq<char>, now: Timestamp, budget: u64 },
    Reject { caller: Seq<char> },
    Cancel { caller: Seq<char> },
    TimeoutRefund { timeout: u64, now: Timestamp },
    RefundOutcome { success: bool, now: Timestamp },
    PayoutOutcome { success: bool, now: Timestamp, budget: u64 },
}

impl State {
    /// The error with which the step is refused, if it is.
    pub open spec fn step_error(self, property_id: u64, bid_id: u64, step: BidStep) -> Option<
        ContractError,
    > {
        match step {
            BidStep::Accept { caller, now } => self.accept_error(caller, property_id, bid_id),
            BidStep::AcceptEscrow { caller, now, budget } => self.accept_escrow_refusal(
                caller,
                property_id,
                bid_id,
                budget,
            ),
            BidStep::Reject { caller } => self.reject_error(caller, property_id, bid_id),
            BidStep::Cancel { caller } => self.cancel_error(caller, property_id, bid_id),
            BidStep::TimeoutRefund { timeout, now } => self.timeout_error(
                property_id,
                bid_id,
                timeout,
                now,
            ),
            BidStep::RefundOutcome { success, now } => self.refund_callback_error(
                property_id,
                bid_id,
                success,
            ),
            BidStep::PayoutOutcome { success, now, budget } => self.settlement_refusal(
                property_id,
                bid_id,
                success,
                now,
                budget,
            ),
        }
    }

    /// The state that the step leaves: the state as it was where the step is
    /// refused, and what the operation makes of it where it is not.
    pub open spec fn step(self, property_id: u64, bid_id: u64, step: BidStep) -> State {
        if self.step_error(property_id, bid_id, step) is Some {
            self
        } else {
            let b = self.bid(property_id, bid_id);
            match step {
                BidStep::Accept { caller, now } => self.accept_state(property_id, bid_id, now),
                BidStep::AcceptEscrow { caller, now, budget } => self.accept_escrow_state(
                    property_id,
                    bid_id,
                    now,
                    budget,
                ),
                BidStep::Reject { caller } => self.hold(b, Intent::Reject),
                BidStep::Cancel { caller } => self.hold(b, Intent::Cancel),
                BidStep::TimeoutRefund { timeout, now } => self.hold(b, Intent::TimeoutRefund),
                BidStep::RefundOutcome { success, now } => if success {
                    self.refund_done(property_id, bid_id, now)
                } else {
                    self.refund_reverted(property_id, bid_id)
                },
                BidStep::PayoutOutcome { success, now, budget } => if success {
                    self.settlement_done(property_id, bid_id, now, budget)
                } else {
                    self.settlement_reverted(property_id, bid_id, now)
                },
            }
        }
    }

    /// The state after the steps, one after the other.
    pub open spec fn steps(self, property_id: u64, bid_id: u64, steps: Seq<BidStep>) -> State
        decreases steps.len(),
    {
        if steps.len() == 0 {
            self
        } else {
            self.step(property_id, bid_id, steps[0]).steps(property_id, bid_id, steps.drop_first())
        }
    }

    /// The bid has reached the end of its life: it is in a terminal status.
    pub open spec fn bid_is_final(self, property_id: u64, bid_id: u64) -> bool {
        self.has_bid(property_id, bid_id) && self.bid(property_id, bid_id).status.is_terminal()
    }
}

/// In a consistent state no saga holds a bid that is at its end.
pub proof fn lemma_final_bid_is_free(s: State, property_id: u64, bid_id: u64)
    requires
        s.wf(),
        s.bid_is_final(property_id, bid_id),
    ensures
        !s.locked(property_id, bid_id),
{
    lemma_bid_facts(s, property_id, bid_id);
    assert(ended_bids_free(s.locks, s.bids[property_id as int]));
    assert(s.bids[property_id as int][s.bid_index(property_id, bid_id)].status.is_terminal());
}

/// On a bid that has reached the end of its life, accept, reject, cancel and
/// timeout refund are refused, and so is every report of an outcome: the
/// step leaves the whole state as it was.
pub proof fn lemma_final_bid_refuses(s: State, property_id: u64, bid_id: u64, step: BidStep)
    requires
        s.wf(),
        s.bid_is_final(property_id, bid_id),
    ensures
        s.step_error(property_id, bid_id, step) is Some,
        s.step(property_id, bid_id, step) == s,
{
    lemma_final_bid_is_free(s, property_id, bid_id);
}

/// A bid that has reached the end of its life stays as it is over every
/// sequence of accept, reject, cancel, timeout refund and outcome reports:
/// it ends in the one terminal status that it reached.
pub proof fn lemma_final_bid_stays(s: State, property_id: u64, bid_id: u64, steps: Seq<BidStep>)
    requires
        s.wf(),
        s.bid_is_final(property_id, bid_id),
    ensures
        s.steps(property_id, bid_id, steps) == s,
    decreases steps.len(),
{
    if steps.len() > 0 {
        lemma_final_bid_refuses(s, property_id, bid_id, steps[0]);
        lemma_final_bid_stays(s, property_id, bid_id, steps.drop_first());
    }
}

/// The state in which a bid is settled on its property, the locks and the
/// bid itself left aside.
pub open spec fn placed(s: State, property_id: u64, bid_id: u64, now: Timestamp) -> State {
    State {
        leases: s.leases_after(property_id, bid_id, now),
        lease_counter: s.lease_counter_after(property_id, bid_id),
        ..s.put_property(property_id, Some(s.settled_property(property_id, bid_id, now)))
    }
}

/// A settlement on a property that is neither sold nor under lease leaves a
/// consistent state, in which the bid is free and every other bid, every
/// other property and the ledger are as they were.
pub proof fn lemma_settled(s: State, property_id: u64, bid_id: u64, now: Timestamp)
    requires
        s.wf(),
        s.has_property(property_id),
        s.has_bid(property_id, bid_id),
        s.property(property_id).sold is None,
        s.property(property_id).active_lease is None,
        s.bid(property_id, bid_id).action == crate::models::Action::Lease ==> s.lease_counter
            < u64::MAX,
        s.locked(property_id, bid_id),
    ensures
        s.settled(property_id, bid_id, now).wf(),
        s.settled(property_id, bid_id, now) == placed(s, property_id, bid_id, now).unlock(
            property_id,
            bid_id,
        ).put_bid(
            property_id,
            bid_id,
            closed(
                s.bid(property_id, bid_id),
                crate::bid_rules::payout_done_status(s.lock_intent(property_id, bid_id)),
                now,
            ),
        ).unlock_property(property_id),
        s.settled(property_id, bid_id, now).bids == s.put_bid(
            property_id,
            bid_id,
            closed(
                s.bid(property_id, bid_id),
                crate::bid_rules::payout_done_status(s.lock_intent(property_id, bid_id)),
                now,
            ),
        ).bids,
        s.settled(property_id, bid_id, now).properties == s.properties.update(
            property_id as int,
            Some(s.settled_property(property_id, bid_id, now)),
        ),
        s.settled(property_id, bid_id, now).balances == s.balances,
        s.settled(property_id, bid_id, now).locks == s.locks.remove(
            LockKey { property_id, bid_id: Some(bid_id) },
        ).remove(LockKey { property_id, bid_id: None }),
{
    let b = s.bid(property_id, bid_id);
    lemma_bid_facts(s, property_id, bid_id);
    let base = placed(s, property_id, bid_id, now);
    assert(base.bids == s.bids);
    assert forall|i: int| 0 <= i < base.bids.len() implies ended_bids_free(
        base.locks,
        #[trigger] base.bids[i],
    ) by {
        assert(ended_bids_free(s.locks, s.bids[i]));
    }
    assert forall|i: int| 0 <= i < base.leases.len() && (#[trigger] base.leases[i]).active implies base.shows_lease(
        base.leases[i],
    ) by {
        if i < s.leases.len() {
            assert(base.leases[i] == s.leases[i]);
            assert(s.shows_lease(s.leases[i]));
        }
    }
    assert(base.wf());
    let done = closed(
        b,
        crate::bid_rules::payout_done_status(s.lock_intent(property_id, bid_id)),
        now,
    );
    lemma_ledger_keeps_wf(base, b.stablecoin_token@, b.amount, property_id, bid_id);
    let freed = base.unlock(property_id, bid_id);
    assert(freed.bid_list(property_id) == s.bid_list(property_id));
    lemma_put_bid(freed, property_id, bid_id, done);
    lemma_property_lock_keeps_wf(
        freed.put_bid(property_id, bid_id, done),
        property_id,
        Intent::Accept,
    );
    assert(s.settled(property_id, bid_id, now) =~= freed.put_bid(
        property_id,
        bid_id,
        done,
    ).unlock_property(property_id));
}

/// What a step that is not refused does: it keeps the state consistent,
/// changes no bid but its own, which keeps its place, its bidder, its token
/// and its amount, and changes no property but that of the bid, which stays
/// and keeps its sale record where it has one. The bid is accepted and
/// unsettled afterwards only where it was before or no bid of the property
/// was.
pub proof fn lemma_step_effect(s: State, property_id: u64, bid_id: u64, step: BidStep)
    requires
        s.wf(),
        s.step_error(property_id, bid_id, step) is None,
    ensures
        s.has_bid(property_id, bid_id),
        s.step(property_id, bid_id, step).wf(),
        s.step(property_id, bid_id, step).bids.len() == s.bids.len(),
        forall|p: int|
            0 <= p < s.bids.len() && p != property_id ==> (#[trigger] s.step(
                property_id,
                bid_id,
                step,
            ).bids[p]) == s.bids[p],
        s.step(property_id, bid_id, step).has_bid(property_id, bid_id),
        s.step(property_id, bid_id, step).bid_index(property_id, bid_id) == s.bid_index(
            property_id,
            bid_id,
        ),
        s.step(property_id, bid_id, step).bid_list(property_id).len() == s.bid_list(
            property_id,
        ).len(),
        forall|j: int|
            0 <= j < s.bid_list(property_id).len() && j != s.bid_index(property_id, bid_id) ==> (
            #[trigger] s.step(property_id, bid_id, step).bid_list(property_id)[j]) == s.bid_list(
                property_id,
            )[j],
        s.step(property_id, bid_id, step).bid(property_id, bid_id).amount == s.bid(
            property_id,
            bid_id,
        ).amount,
        s.step(property_id, bid_id, step).bid(property_id, bid_id).stablecoin_token == s.bid(
            property_id,
            bid_id,
        ).stablecoin_token,
        s.step(property_id, bid_id, step).bid(property_id, bid_id).bidder == s.bid(
            property_id,
            bid_id,
        ).bidder,
        s.step(property_id, bid_id, step).bid(property_id, bid_id).status.is_in_flight() ==> s.bid(
            property_id,
            bid_id,
        ).status.is_in_flight() || !list_has_in_flight(s.bid_list(property_id)),
        s.step(property_id, bid_id, step).properties.len() == s.properties.len(),
        forall|q: int|
            0 <= q < s.properties.len() && (q != property_id || (s.properties[q] is Some
                && s.properties[q]->0.sold is Some)) ==> (#[trigger] s.step(
                property_id,
                bid_id,
                step,
            ).properties[q]) == s.properties[q],
        s.has_property(property_id) ==> s.step(property_id, bid_id, step).has_property(property_id),
{
    let after = s.step(property_id, bid_id, step);
    let b = s.bid(property_id, bid_id);
    lemma_bid_facts(s, property_id, bid_id);
    let at = s.bid_index(property_id, bid_id);
    lemma_ledger_keeps_wf(s, b.stablecoin_token@, b.amount, property_id, bid_id);
    match step {
        BidStep::Accept { caller, now } => {
            lemma_hold_keeps_wf(s, b, Intent::Accept);
            lemma_property_lock_keeps_wf(s.hold(b, Intent::Accept), property_id, Intent::Accept);
            let held = s.hold_payout(b, Intent::Accept);
            assert(held.bid_list(property_id) == s.bid_list(property_id));
            lemma_put_bid(held, property_id, bid_id, moved(b, BidStatus::Accepted, now));
        },
        BidStep::AcceptEscrow { caller, now, budget } => {
            lemma_sweep_keeps_bids(s, property_id, 0, budget as nat, Some(bid_id));
            let swept = s.sweep(property_id, 0, budget as nat, Some(bid_id)).0;
            assert(swept.bid_list(property_id) == s.bid_list(property_id));
            assert(!swept.locked(property_id, bid_id));
            lemma_put_bid(swept, property_id, bid_id, moved(b, BidStatus::Accepted, now));
        },
        BidStep::Reject { caller } => {
            lemma_hold_keeps_wf(s, b, Intent::Reject);
        },
        BidStep::Cancel { caller } => {
            lemma_hold_keeps_wf(s, b, Intent::Cancel);
        },
        BidStep::TimeoutRefund { timeout, now } => {
            lemma_hold_keeps_wf(s, b, Intent::TimeoutRefund);
        },
        BidStep::RefundOutcome { success, now } => {
            let freed = s.unlock(property_id, bid_id);
            assert(freed.bid_list(property_id) == s.bid_list(property_id));
            if success {
                let done = closed(
                    b,
                    crate::state::refund_status(s.lock_intent(property_id, bid_id)),
                    now,
                );
                lemma_put_bid(freed, property_id, bid_id, done);
                assert(after =~= freed.put_bid(property_id, bid_id, done));
            } else {
                let credited_state = s.credit(b.stablecoin_token@, b.amount);
                lemma_ledger_keeps_wf(
                    credited_state,
                    b.stablecoin_token@,
                    b.amount,
                    property_id,
                    bid_id,
                );
                assert(after.bid_list(property_id) == s.bid_list(property_id));
            }
        },
        BidStep::PayoutOutcome { success, now, budget } => {
            if success {
                let spend = s.settlement_budget(property_id, bid_id, budget);
                lemma_sweep_keeps_bids(s, property_id, 0, spend, None);
                let swept = s.sweep(property_id, 0, spend, None).0;
                assert(swept.bid_list(property_id) == s.bid_list(property_id));
                assert(swept.locked(property_id, bid_id));
                assert(swept.lock_intent(property_id, bid_id) == s.lock_intent(property_id, bid_id));
                lemma_settled(swept, property_id, bid_id, now);
                let done = closed(
                    b,
                    crate::bid_rules::payout_done_status(s.lock_intent(property_id, bid_id)),
                    now,
                );
                let freed = placed(swept, property_id, bid_id, now).unlock(property_id, bid_id);
                assert(freed.bid_list(property_id) == s.bid_list(property_id));
                lemma_ledger_keeps_wf(
                    placed(swept, property_id, bid_id, now),
                    b.stablecoin_token@,
                    b.amount,
                    property_id,
                    bid_id,
                );
                lemma_put_bid(freed, property_id, bid_id, done);
                lemma_property_lock_keeps_wf(
                    freed.put_bid(property_id, bid_id, done),
                    property_id,
                    Intent::Accept,
                );
            } else {
                let credited_state = s.credit(b.stablecoin_token@, b.amount);
                assert(credited_state.bid_list(property_id) == s.bid_list(property_id));
                let back = moved(
                    b,
                    crate::bid_rules::payout_failed_status(s.lock_intent(property_id, bid_id)),
                    now,
                );
                lemma_put_bid(credited_state, property_id, bid_id, back);
                lemma_ledger_keeps_wf(
                    credited_state.put_bid(property_id, bid_id, back),
                    b.stablecoin_token@,
                    b.amount,
                    property_id,
                    bid_id,
                );
                lemma_property_lock_keeps_wf(
                    credited_state.put_bid(property_id, bid_id, back).unlock(property_id, bid_id),
                    property_id,
                    Intent::Accept,
                );
            }
        },
    }
}

/// Every step keeps the state consistent and keeps the bid.
pub proof fn lemma_step_keeps_wf(s: State, property_id: u64, bid_id: u64, step: BidStep)
    requires
        s.wf(),
    ensures
        s.step(property_id, bid_id, step).wf(),
        s.has_bid(property_id, bid_id) ==> s.step(property_id, bid_id, step).has_bid(
            property_id,
            bid_id,
        ),
{
    if s.step_error(property_id, bid_id, step) is None {
        lemma_step_effect(s, property_id, bid_id, step);
    }
}

/// Over every sequence of steps from a consistent state the state stays
/// consistent and the bid stays in the store, and once its status is
/// terminal the bid keeps that status to the end.
pub proof fn lemma_steps_keep_terminal(s: State, property_id: u64, bid_id: u64, steps: Seq<BidStep>)
    requires
        s.wf(),
        s.has_bid(property_id, bid_id),
    ensures
        s.steps(property_id, bid_id, steps).wf(),
        s.steps(property_id, bid_id, steps).has_bid(property_id, bid_id),
        s.bid(property_id, bid_id).status.is_terminal() ==> s.steps(property_id, bid_id, steps).bid(
            property_id,
            bid_id,
        ).status == s.bid(property_id, bid_id).status,
    decreases steps.len(),
{
    if steps.len() > 0 {
        lemma_step_keeps_wf(s, property_id, bid_id, steps[0]);
        if s.bid(property_id, bid_id).status.is_terminal() {
            lemma_final_bid_refuses(s, property_id, bid_id, steps[0]);
        }
        lemma_steps_keep_terminal(
            s.step(property_id, bid_id, steps[0]),
            property_id,
            bid_id,
            steps.drop_first(),
        );
    }
}

/// A step that takes money out of the ledger finds it covered: the balance
/// of the token goes down by exactly the amount of the bid and never below
/// zero.
pub proof fn lemma_step_debit_is_covered(s: State, property_id: u64, bid_id: u64, step: BidStep)
    requires
        s.wf(),
        s.has_bid(property_id, bid_id),
        s.step_error(property_id, bid_id, step) is None,
        step is Accept || step is Reject || step is Cancel || step is TimeoutRefund,
    ensures
        s.balance(s.bid(property_id, bid_id).stablecoin_token@) >= s.bid(property_id, bid_id).amount,
        s.step(property_id, bid_id, step).balance(s.bid(property_id, bid_id).stablecoin_token@)
            == s.balance(s.bid(property_id, bid_id).stablecoin_token@) - s.bid(
            property_id,
            bid_id,
        ).amount,
{
}

/// A debit followed by a credit of the same amount of the same token, or a
/// credit followed by the debit, restores every balance of the ledger.
pub proof fn lemma_debit_credit_round_trip(s: State, token: Seq<char>, amount: u128)
    requires
        s.wf(),
        s.balance(token) >= amount,
    ensures
        s.debit(token, amount).credit(token, amount) == s,
        s.credit(token, amount).debit(token, amount) == s,
{
    assert(s.debit(token, amount).credit(token, amount).balances =~= s.balances);
    assert(s.credit(token, amount).debit(token, amount).balances =~= s.balances);
}

/// At most one bid of the list is accepted and neither settled nor abandoned.
pub open spec fn at_most_one_in_flight(list: Seq<Bid>) -> bool {
    forall|i: int, j: int|
        0 <= i < list.len() && 0 <= j < list.len() && (#[trigger] list[i]).status.is_in_flight() && (
        #[trigger] list[j]).status.is_in_flight() ==> i == j
}

/// A sale record is written once: no step in the life of a bid changes a
/// property that has a sale record, and the property stays.
pub proof fn lemma_step_keeps_sale_record(
    s: State,
    property_id: u64,
    bid_id: u64,
    step: BidStep,
    sold_property: u64,
)
    requires
        s.wf(),
        s.has_property(sold_property),
        s.property(sold_property).sold is Some,
    ensures
        s.step(property_id, bid_id, step).has_property(sold_property),
        s.step(property_id, bid_id, step).property(sold_property) == s.property(sold_property),
{
    if s.step_error(property_id, bid_id, step) is None {
        lemma_step_effect(s, property_id, bid_id, step);
        assert(s.step(property_id, bid_id, step).properties[sold_property as int]
            == s.properties[sold_property as int]);
    }
}

/// Only one bid of a property is accepted at a time: where at most one bid
/// of the property is accepted and neither settled nor abandoned, every
/// step in the life of a bid of the property leaves it so.
pub proof fn lemma_step_keeps_single_acceptance(s: State, property_id: u64, bid_id: u64, step: BidStep)
    requires
        s.wf(),
        at_most_one_in_flight(s.bid_list(property_id)),
    ensures
        at_most_one_in_flight(s.step(property_id, bid_id, step).bid_list(property_id)),
{
    if s.step_error(property_id, bid_id, step) is None {
        lemma_step_effect(s, property_id, bid_id, step);
        lemma_bid_facts(s, property_id, bid_id);
        let list = s.bid_list(property_id);
        let after = s.step(property_id, bid_id, step).bid_list(property_id);
        let at = s.bid_index(property_id, bid_id);
        lemma_bid_facts(s.step(property_id, bid_id, step), property_id, bid_id);
        assert forall|i: int, j: int|
            0 <= i < after.len() && 0 <= j < after.len() && (#[trigger] after[i]).status.is_in_flight()
                && (#[trigger] after[j]).status.is_in_flight() implies i == j by {
            if i != at {
                assert(after[i] == list[i]);
                assert(list[i].status.is_in_flight());
            }
            if j != at {
                assert(after[j] == list[j]);
                assert(list[j].status.is_in_flight());
            }
            if i == at && j != at {
                assert(list[at].status.is_in_flight());
            }
            if j == at && i != at {
                assert(list[at].status.is_in_flight());
            }
        }
    }
}

/// The report of an outcome is taken once: after the outcome of a refund or
/// of a payout was taken, a second report for the same bid is refused.
pub proof fn lemma_outcome_is_taken_once(
    s: State,
    property_id: u64,
    bid_id: u64,
    first: BidStep,
    again: BidStep,
)
    requires
        s.wf(),
        first is RefundOutcome || first is PayoutOutcome,
        again is RefundOutcome || again is PayoutOutcome,
        s.step_error(property_id, bid_id, first) is None,
    ensures
        s.step(property_id, bid_id, first).step_error(property_id, bid_id, again) is Some,
        !s.step(property_id, bid_id, first).locked(property_id, bid_id),
{
    let after = s.step(property_id, bid_id, first);
    let b = s.bid(property_id, bid_id);
    lemma_bid_facts(s, property_id, bid_id);
    lemma_step_effect(s, property_id, bid_id, first);
    match first {
        BidStep::PayoutOutcome { success, now, budget } => {
            if success {
                let spend = s.settlement_budget(property_id, bid_id, budget);
                lemma_sweep_keeps_bids(s, property_id, 0, spend, None);
                let swept = s.sweep(property_id, 0, spend, None).0;
                assert(swept.bid_list(property_id) == s.bid_list(property_id));
                assert(swept.locked(property_id, bid_id));
                lemma_settled(swept, property_id, bid_id, now);
            }
        },
        _ => {},
    }
}

/// A batch of refunds can be taken up where it stopped: a batch with the
/// budget `first + second` does what a batch with the budget `first` and
/// then a batch with the budget `second` from the place that the first
/// names do, it is refused where one of the two is, and the place never
/// moves back.
pub proof fn lemma_sweep_resumes(
    s: State,
    property_id: u64,
    from: int,
    first: nat,
    second: nat,
    keep: Option<u64>,
)
    requires
        0 <= from,
    ensures
        s.sweep(property_id, from, first + second, keep) == ({
            let a = s.sweep(property_id, from, first, keep);
            let b = a.0.sweep(property_id, a.2, second, keep);
            (b.0, a.1 + b.1, b.2)
        }),
        s.sweep_error(property_id, from, first + second, keep) == (match s.sweep_error(
            property_id,
            from,
            first,
            keep,
        ) {
            Some(e) => Some(e),
            None => s.sweep(property_id, from, first, keep).0.sweep_error(
                property_id,
                s.sweep(property_id, from, first, keep).2,
                second,
                keep,
            ),
        }),
        s.sweep(property_id, from, first, keep).2 >= from,
    decreases first,
{
    let a = s.sweep(property_id, from, first, keep);
    let b = a.0.sweep(property_id, a.2, second, keep);
    if first == 0 {
        assert(a.1 + b.1 =~= b.1);
    } else if from >= s.bid_list(property_id).len() {
        assert(s.sweep(property_id, from, first + second, keep) == (
            s,
            Seq::<TransferRequest>::empty(),
            from,
        ));
        assert(b == (s, Seq::<TransferRequest>::empty(), from));
        assert(a.1 + b.1 =~= Seq::<TransferRequest>::empty());
    } else {
        let bid = s.bid_list(property_id)[from];
        if s.refundable(bid, keep) {
            let held = s.hold(bid, Intent::Reject);
            lemma_sweep_resumes(held, property_id, from + 1, (first - 1) as nat, second, keep);
            let ra = held.sweep(property_id, from + 1, (first - 1) as nat, keep);
            let rb = ra.0.sweep(property_id, ra.2, second, keep);
            assert(held.sweep(property_id, from + 1, (first + second - 1) as nat, keep) == (
                rb.0,
                ra.1 + rb.1,
                rb.2,
            ));
            assert(seq![refund_request(bid)] + (ra.1 + rb.1) =~= (seq![refund_request(bid)] + ra.1)
                + rb.1);
        } else {
            lemma_sweep_resumes(s, property_id, from + 1, (first - 1) as nat, second, keep);
        }
    }
}

/// How many of the refunds are for the bid.
pub open spec fn requests_for(requests: Seq<TransferRequest>, bid_id: u64) -> nat
    decreases requests.len(),
{
    if requests.len() == 0 {
        0
    } else {
        requests_for(requests.drop_first(), bid_id) + if requests[0].bid_id == bid_id {
            1nat
        } else {
            0nat
        }
    }
}

/// What the refunds ask for of the token, all in all.
pub open spec fn requested_amount(requests: Seq<TransferRequest>, token: Seq<char>) -> nat
    decreases requests.len(),
{
    if requests.len() == 0 {
        0
    } else {
        requested_amount(requests.drop_first(), token) + if requests[0].token@ == token {
            requests[0].amount as nat
        } else {
            0nat
        }
    }
}

/// What a batch of refunds that is not refused does to each bid of the
/// property. A bid that the batch looks at and that is pending and free,
/// and not the bid that the batch keeps, is locked for a rejection
/// afterwards, and exactly one refund is asked for it: its amount, in its
/// token, to its bidder. For every other bid no refund is asked, and the bid
/// is held afterwards exactly where it was held before.
pub proof fn lemma_sweep_refunds(
    s: State,
    property_id: u64,
    from: int,
    budget: nat,
    keep: Option<u64>,
    j: int,
)
    requires
        s.wf(),
        0 <= from,
        s.sweep_error(property_id, from, budget, keep) is None,
        0 <= j < s.bid_list(property_id).len(),
    ensures
        from <= j < from + budget && s.refundable(s.bid_list(property_id)[j], keep) ==> {
            &&& s.sweep(property_id, from, budget, keep).0.locked(
                property_id,
                s.bid_list(property_id)[j].id,
            )
            &&& s.sweep(property_id, from, budget, keep).0.lock_intent(
                property_id,
                s.bid_list(property_id)[j].id,
            ) == Intent::Reject
            &&& requests_for(
                s.sweep(property_id, from, budget, keep).1,
                s.bid_list(property_id)[j].id,
            ) == 1
            &&& s.sweep(property_id, from, budget, keep).1.contains(
                refund_request(s.bid_list(property_id)[j]),
            )
        },
        !(from <= j < from + budget && s.refundable(s.bid_list(property_id)[j], keep)) ==> {
            &&& s.sweep(property_id, from, budget, keep).0.locked(
                property_id,
                s.bid_list(property_id)[j].id,
            ) == s.locked(property_id, s.bid_list(property_id)[j].id)
            &&& requests_for(
                s.sweep(property_id, from, budget, keep).1,
                s.bid_list(property_id)[j].id,
            ) == 0
        },
    decreases budget,
{
    let list = s.bid_list(property_id);
    let target = list[j];
    assert(property_id < s.bids.len());
    assert(crate::state::bids_ok(s.bids[property_id as int], property_id, s.bid_counter));
    if budget == 0 || from >= list.len() {
    } else {
        let b = list[from];
        crate::state::lemma_bid_index(list, property_id, s.bid_counter, from);
        crate::state::lemma_bid_index(list, property_id, s.bid_counter, j);
        if j != from {
            assert(b.id != target.id) by {
                if j < from {
                    assert(list[j].id < list[from].id);
                } else {
                    assert(list[from].id < list[j].id);
                }
            }
        }
        if s.refundable(b, keep) {
            let held = s.hold(b, Intent::Reject);
            lemma_hold_keeps_wf(s, b, Intent::Reject);
            assert(held.bid_list(property_id) == list);
            lemma_sweep_refunds(held, property_id, from + 1, (budget - 1) as nat, keep, j);
            let rest = held.sweep(property_id, from + 1, (budget - 1) as nat, keep);
            let all = seq![refund_request(b)] + rest.1;
            assert(all.drop_first() =~= rest.1);
            assert(all[0] == refund_request(b));
            if j == from {
                assert(held.locked(property_id, target.id));
            } else {
                assert(LockKey { property_id, bid_id: Some(target.id) } != LockKey {
                    property_id: b.property_id,
                    bid_id: Some(b.id),
                });
                assert(held.locked(property_id, target.id) == s.locked(property_id, target.id));
                assert(held.refundable(target, keep) == s.refundable(target, keep));
                if from <= j < from + budget && s.refundable(target, keep) {
                    let k = choose|k: int| 0 <= k < rest.1.len() && rest.1[k] == refund_request(target);
                    assert(all[k + 1] == refund_request(target));
                }
            }
            if j == from {
                lemma_sweep_keeps_bids(held, property_id, from + 1, (budget - 1) as nat, keep);
            }
        } else {
            lemma_sweep_refunds(s, property_id, from + 1, (budget - 1) as nat, keep, j);
        }
    }
}

/// What a batch of refunds that is not refused takes out of the ledger is
/// what its refunds ask for, token by token.
pub proof fn lemma_sweep_debits(
    s: State,
    property_id: u64,
    from: int,
    budget: nat,
    keep: Option<u64>,
    token: Seq<char>,
)
    requires
        s.wf(),
        0 <= from,
        s.sweep_error(property_id, from, budget, keep) is None,
    ensures
        s.sweep(property_id, from, budget, keep).0.balance(token) + requested_amount(
            s.sweep(property_id, from, budget, keep).1,
            token,
        ) == s.balance(token),
    decreases budget,
{
    if budget == 0 || from >= s.bid_list(property_id).len() {
    } else {
        let b = s.bid_list(property_id)[from];
        assert(property_id < s.bids.len());
        assert(crate::state::bids_ok(s.bids[property_id as int], property_id, s.bid_counter));
        crate::state::lemma_bid_index(s.bid_list(property_id), property_id, s.bid_counter, from);
        if s.refundable(b, keep) {
            let held = s.hold(b, Intent::Reject);
            lemma_hold_keeps_wf(s, b, Intent::Reject);
            lemma_sweep_debits(held, property_id, from + 1, (budget - 1) as nat, keep, token);
            let rest = held.sweep(property_id, from + 1, (budget - 1) as nat, keep);
            let all = seq![refund_request(b)] + rest.1;
            assert(all.drop_first() =~= rest.1);
            assert(all[0] == refund_request(b));
        } else {
            lemma_sweep_debits(s, property_id, from + 1, (budget - 1) as nat, keep, token);
        }
    }
}

/// How the refund of a bid that a batch started ends: where the transfer is
/// confirmed the bid is rejected, where it failed the bid is pending as
/// before and the ledger has its amount again. Either way the bid is free,
/// and no other bid is changed.
pub proof fn lemma_batch_refund_ends(s: State, property_id: u64, bid_id: u64, success: bool, now: Timestamp)
    requires
        s.wf(),
        s.has_bid(property_id, bid_id),
        s.bid(property_id, bid_id).status == BidStatus::Pending,
        s.locked(property_id, bid_id),
        s.lock_intent(property_id, bid_id) == Intent::Reject,
        s.step_error(property_id, bid_id, BidStep::RefundOutcome { success, now }) is None,
    ensures
        !s.step(property_id, bid_id, BidStep::RefundOutcome { success, now }).locked(
            property_id,
            bid_id,
        ),
        success ==> s.step(property_id, bid_id, BidStep::RefundOutcome { success, now }).bid(
            property_id,
            bid_id,
        ).status == BidStatus::Rejected && s.step(
            property_id,
            bid_id,
            BidStep::RefundOutcome { success, now },
        ).balances == s.balances,
        !success ==> s.step(property_id, bid_id, BidStep::RefundOutcome { success, now }).bid(
            property_id,
            bid_id,
        ) == s.bid(property_id, bid_id) && s.step(
            property_id,
            bid_id,
            BidStep::RefundOutcome { success, now },
        ).balance(s.bid(property_id, bid_id).stablecoin_token@) == s.balance(
            s.bid(property_id, bid_id).stablecoin_token@,
        ) + s.bid(property_id, bid_id).amount,
{
    let b = s.bid(property_id, bid_id);
    lemma_bid_facts(s, property_id, bid_id);
    let freed = s.unlock(property_id, bid_id);
    lemma_ledger_keeps_wf(s, b.stablecoin_token@, b.amount, property_id, bid_id);
    assert(freed.bid_list(property_id) == s.bid_list(property_id));
    if success {
        let done = closed(b, BidStatus::Rejected, now);
        lemma_put_bid(freed, property_id, bid_id, done);
        assert(s.refund_done(property_id, bid_id, now) =~= freed.put_bid(property_id, bid_id, done));
    } else {
        let after = s.refund_reverted(property_id, bid_id);
        assert(after.bid_list(property_id) == s.bid_list(property_id));
    }
}

} // verus!
