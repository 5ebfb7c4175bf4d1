//! The ledger covers the bids: what the bids that still wait for their
//! money stand for is never more than what the ledger holds of their token.

use crate::bid_rules::{closed, moved};
use crate::guard::{Intent, LockKey};
use crate::bid_rules::lemma_sweep_keeps_bids;
use crate::laws::{lemma_settled, lemma_step_keeps_wf, placed, BidStep};
use crate::models::{Bid, BidStatus};
use crate::state::{
    bids_ok, lemma_bid_facts, lemma_bid_index, lemma_hold_keeps_wf, lemma_ledger_keeps_wf,
    lemma_property_lock_keeps_wf, lemma_put_bid, State,
};
use vstd::prelude::*;

verus! {

/// The bid waits for its money: it is pending or accepted and not yet paid
/// out, and no saga has taken its amount out of the ledger.
pub open spec fn waits_for_money(locks: Map<LockKey, Intent>, b: Bid) -> bool {
    (b.status == BidStatus::Pending || b.status == BidStatus::Accepted || b.status
        == BidStatus::DocsReleased || b.status == BidStatus::DocsConfirmed) && !locks.dom().contains(
        LockKey { property_id: b.property_id, bid_id: Some(b.id) },
    )
}

/// What the bid stands for in the ledger of `token`.
pub open spec fn stake(locks: Map<LockKey, Intent>, b: Bid, token: Seq<char>) -> int {
    if b.stablecoin_token@ == token && waits_for_money(locks, b) {
        b.amount as int
    } else {
        0
    }
}

/// What the bids of a list stand for in the ledger of `token`.
pub open spec fn list_stake(locks: Map<LockKey, Intent>, list: Seq<Bid>, token: Seq<char>) -> int
    decreases list.len(),
{
    if list.len() == 0 {
        0
    } else {
        list_stake(locks, list.drop_last(), token) + stake(locks, list.last(), token)
    }
}

/// What all bids stand for in the ledger of `token`.
pub open spec fn total_stake(
    locks: Map<LockKey, Intent>,
    bids: Seq<Seq<Bid>>,
    token: Seq<char>,
) -> int
    decreases bids.len(),
{
    if bids.len() == 0 {
        0
    } else {
        total_stake(locks, bids.drop_last(), token) + list_stake(locks, bids.last(), token)
    }
}

impl State {
    /// The ledger covers the bids: for every token, what the bids that wait
    /// for their money stand for is at most the balance.
    pub open spec fn funded(self) -> bool {
        forall|token: Seq<char>|
            #[trigger] total_stake(self.locks, self.bids, token) <= self.balance(token)
    }
}

/// The locks agree on the key of every bid but one.
pub open spec fn same_locks_but(
    a: Map<LockKey, Intent>,
    b: Map<LockKey, Intent>,
    property_id: u64,
    bid_id: u64,
) -> bool {
    forall|k: LockKey|
        k.bid_id is Some && k != (LockKey { property_id, bid_id: Some(bid_id) }) ==> (a.dom().contains(
            k,
        ) <==> #[trigger] b.dom().contains(k))
}

/// Where two lists differ at one place at most, and the locks at the key of
/// the bid at that place at most, what they stand for differs by what the
/// bid at that place stands for.
proof fn lemma_list_stake_change(
    locks: Map<LockKey, Intent>,
    locks2: Map<LockKey, Intent>,
    list: Seq<Bid>,
    list2: Seq<Bid>,
    property_id: u64,
    bid_id: u64,
    at: int,
    token: Seq<char>,
)
    requires
        list2.len() == list.len(),
        same_locks_but(locks, locks2, property_id, bid_id),
        forall|j: int|
            0 <= j < list.len() && j != at ==> list2[j] == #[trigger] list[j] && !(list[j].property_id
                == property_id && list[j].id == bid_id),
    ensures
        0 <= at < list.len() ==> list_stake(locks2, list2, token) == list_stake(locks, list, token)
            - stake(locks, list[at], token) + stake(locks2, list2[at], token),
        !(0 <= at < list.len()) ==> list_stake(locks2, list2, token) == list_stake(
            locks,
            list,
            token,
        ),
    decreases list.len(),
{
    if list.len() > 0 {
        let n = list.len() - 1;
        lemma_list_stake_change(
            locks,
            locks2,
            list.drop_last(),
            list2.drop_last(),
            property_id,
            bid_id,
            at,
            token,
        );
        if at != n {
            let b = list[n];
            assert(list2[n] == b);
            assert(LockKey { property_id: b.property_id, bid_id: Some(b.id) } != LockKey {
                property_id,
                bid_id: Some(bid_id),
            });
            assert(locks.dom().contains(LockKey { property_id: b.property_id, bid_id: Some(b.id) })
                <==> locks2.dom().contains(
                LockKey { property_id: b.property_id, bid_id: Some(b.id) },
            ));
            assert(stake(locks2, list2.last(), token) == stake(locks, list.last(), token));
        }
    }
}

/// Where two collections of bids differ in one bid at most, and the locks at
/// the key of that bid at most, what they stand for differs by what that
/// bid stands for.
proof fn lemma_total_stake_change(
    locks: Map<LockKey, Intent>,
    locks2: Map<LockKey, Intent>,
    bids: Seq<Seq<Bid>>,
    bids2: Seq<Seq<Bid>>,
    counter: u64,
    property_id: u64,
    bid_id: u64,
    at: int,
    token: Seq<char>,
)
    requires
        bids2.len() == bids.len(),
        bids.len() <= u64::MAX,
        same_locks_but(locks, locks2, property_id, bid_id),
        forall|p: int| 0 <= p < bids.len() ==> bids_ok(#[trigger] bids[p], p as u64, counter),
        forall|p: int| 0 <= p < bids.len() && p != property_id ==> bids2[p] == #[trigger] bids[p],
        property_id < bids.len(),
        0 <= at < bids[property_id as int].len(),
        bids[property_id as int][at].id == bid_id,
        bids2[property_id as int].len() == bids[property_id as int].len(),
        forall|j: int|
            0 <= j < bids[property_id as int].len() && j != at ==> bids2[property_id as int][j]
                == #[trigger] bids[property_id as int][j],
    ensures
        total_stake(locks2, bids2, token) == total_stake(locks, bids, token) - stake(
            locks,
            bids[property_id as int][at],
            token,
        ) + stake(locks2, bids2[property_id as int][at], token),
    decreases bids.len(),
{
    let n = bids.len() - 1;
    let list = bids[n];
    let list2 = bids2[n];
    assert(bids_ok(list, n as u64, counter));
    if n == property_id {
        assert forall|j: int| 0 <= j < list.len() && j != at implies list2[j] == #[trigger] list[j]
            && !(list[j].property_id == property_id && list[j].id == bid_id) by {
            if j < at {
                assert(list[j].id < list[at].id);
            } else {
                assert(list[at].id < list[j].id);
            }
        }
        lemma_list_stake_change(locks, locks2, list, list2, property_id, bid_id, at, token);
        lemma_total_stake_same(locks, locks2, bids.drop_last(), counter, property_id, bid_id, token);
        assert(bids2.drop_last() =~= bids.drop_last());
    } else {
        assert(list2 == list);
        assert forall|j: int| 0 <= j < list.len() && j != -1 implies list2[j] == #[trigger] list[j]
            && !(list[j].property_id == property_id && list[j].id == bid_id) by {
            assert(list[j].property_id == n as u64);
        }
        lemma_list_stake_change(locks, locks2, list, list2, property_id, bid_id, -1, token);
        lemma_total_stake_change(
            locks,
            locks2,
            bids.drop_last(),
            bids2.drop_last(),
            counter,
            property_id,
            bid_id,
            at,
            token,
        );
    }
}

/// Bids of other properties stand for the same whatever the locks are at
/// the key of one bid.
proof fn lemma_total_stake_same(
    locks: Map<LockKey, Intent>,
    locks2: Map<LockKey, Intent>,
    bids: Seq<Seq<Bid>>,
    counter: u64,
    property_id: u64,
    bid_id: u64,
    token: Seq<char>,
)
    requires
        bids.len() <= property_id,
        same_locks_but(locks, locks2, property_id, bid_id),
        forall|p: int| 0 <= p < bids.len() ==> bids_ok(#[trigger] bids[p], p as u64, counter),
    ensures
        total_stake(locks2, bids, token) == total_stake(locks, bids, token),
    decreases bids.len(),
{
    if bids.len() > 0 {
        let n = bids.len() - 1;
        let list = bids[n];
        assert(bids_ok(list, n as u64, counter));
        assert forall|j: int| 0 <= j < list.len() && j != -1 implies list[j] == #[trigger] list[j]
            && !(list[j].property_id == property_id && list[j].id == bid_id) by {
            assert(list[j].property_id == n as u64);
        }
        lemma_list_stake_change(locks, locks2, list, list, property_id, bid_id, -1, token);
        lemma_total_stake_same(locks, locks2, bids.drop_last(), counter, property_id, bid_id, token);
    }
}

/// A change that touches one bid, its lock and the ledger keeps the ledger
/// covering the bids, where every balance grows by at least as much as what
/// the bid stands for.
pub proof fn lemma_one_bid_keeps_funded(s: State, after: State, property_id: u64, bid_id: u64)
    requires
        s.wf(),
        s.funded(),
        s.has_bid(property_id, bid_id),
        after.bids.len() == s.bids.len(),
        forall|p: int| 0 <= p < s.bids.len() && p != property_id ==> after.bids[p] == #[trigger] s.bids[p],
        after.bid_list(property_id).len() == s.bid_list(property_id).len(),
        forall|j: int|
            0 <= j < s.bid_list(property_id).len() && j != s.bid_index(property_id, bid_id)
                ==> after.bid_list(property_id)[j] == #[trigger] s.bid_list(property_id)[j],
        same_locks_but(s.locks, after.locks, property_id, bid_id),
        forall|token: Seq<char>|
            after.balance(token) - s.balance(token) >= #[trigger] stake(
                after.locks,
                after.bid_list(property_id)[s.bid_index(property_id, bid_id)],
                token,
            ) - stake(s.locks, s.bid(property_id, bid_id), token),
    ensures
        after.funded(),
{
    assert(property_id < s.bids.len()) by {
        if property_id >= s.bids.len() {
            assert(s.bid_list(property_id).len() == 0);
        }
    }
    let at = s.bid_index(property_id, bid_id);
    assert forall|token: Seq<char>| #[trigger]
        total_stake(after.locks, after.bids, token) <= after.balance(token) by {
        lemma_total_stake_change(
            s.locks,
            after.locks,
            s.bids,
            after.bids,
            s.bid_counter,
            property_id,
            bid_id,
            at,
            token,
        );
        assert(total_stake(s.locks, s.bids, token) <= s.balance(token));
        assert(after.balance(token) - s.balance(token) >= stake(
            after.locks,
            after.bid_list(property_id)[at],
            token,
        ) - stake(s.locks, s.bid(property_id, bid_id), token));
    }
}

/// Starting the refund or the payout of a bid that waits for its money
/// keeps the ledger covering the bids.
pub proof fn lemma_hold_keeps_funded(s: State, property_id: u64, bid_id: u64, intent: Intent)
    requires
        s.wf(),
        s.funded(),
        s.has_bid(property_id, bid_id),
        waits_for_money(s.locks, s.bid(property_id, bid_id)),
        s.hold_error(s.bid(property_id, bid_id)) is None,
    ensures
        s.hold(s.bid(property_id, bid_id), intent).funded(),
        s.hold(s.bid(property_id, bid_id), intent).wf(),
{
    let b = s.bid(property_id, bid_id);
    lemma_bid_facts(s, property_id, bid_id);
    lemma_hold_keeps_wf(s, b, intent);
    let after = s.hold(b, intent);
    assert(same_locks_but(s.locks, after.locks, property_id, bid_id));
    lemma_one_bid_keeps_funded(s, after, property_id, bid_id);
}

/// A batch of refunds that is not refused keeps the ledger covering the
/// bids.
pub proof fn lemma_sweep_keeps_funded(
    s: State,
    property_id: u64,
    from: int,
    budget: nat,
    keep: Option<u64>,
)
    requires
        s.wf(),
        s.funded(),
        s.sweep_error(property_id, from, budget, keep) is None,
    ensures
        s.sweep(property_id, from, budget, keep).0.funded(),
    decreases budget,
{
    if budget == 0 || from < 0 || from >= s.bid_list(property_id).len() {
    } else {
        let b = s.bid_list(property_id)[from];
        assert(property_id < s.bids.len());
        assert(bids_ok(s.bids[property_id as int], property_id, s.bid_counter));
        lemma_bid_index(s.bid_list(property_id), property_id, s.bid_counter, from);
        if s.refundable(b, keep) {
            lemma_hold_keeps_funded(s, property_id, b.id, Intent::Reject);
            lemma_sweep_keeps_funded(
                s.hold(b, Intent::Reject),
                property_id,
                from + 1,
                (budget - 1) as nat,
                keep,
            );
        } else {
            lemma_sweep_keeps_funded(s, property_id, from + 1, (budget - 1) as nat, keep);
        }
    }
}

/// Every step in the life of a bid keeps the ledger covering the bids: no
/// accept, reject, cancel or timeout refund, and no report of an outcome,
/// takes more out of the ledger than the bid stood for.
pub proof fn lemma_step_keeps_funded(s: State, property_id: u64, bid_id: u64, step: BidStep)
    requires
        s.wf(),
        s.funded(),
    ensures
        s.step(property_id, bid_id, step).funded(),
{
    if s.step_error(property_id, bid_id, step) is Some {
    } else {
        assert(s.has_bid(property_id, bid_id));
        let b = s.bid(property_id, bid_id);
        lemma_bid_facts(s, property_id, bid_id);
        lemma_ledger_keeps_wf(s, b.stablecoin_token@, b.amount, property_id, bid_id);
        let after = s.step(property_id, bid_id, step);
        match step {
            BidStep::Accept { caller, now } => {
                lemma_hold_keeps_wf(s, b, Intent::Accept);
                lemma_property_lock_keeps_wf(s.hold(b, Intent::Accept), property_id, Intent::Accept);
                let held = s.hold_payout(b, Intent::Accept);
                assert(held.bid_list(property_id) == s.bid_list(property_id));
                lemma_put_bid(held, property_id, bid_id, moved(b, BidStatus::Accepted, now));
                assert(same_locks_but(s.locks, after.locks, property_id, bid_id));
                lemma_one_bid_keeps_funded(s, after, property_id, bid_id);
            },
            BidStep::AcceptEscrow { caller, now, budget } => {
                lemma_sweep_keeps_bids(s, property_id, 0, budget as nat, Some(bid_id));
                lemma_sweep_keeps_funded(s, property_id, 0, budget as nat, Some(bid_id));
                let swept = s.sweep(property_id, 0, budget as nat, Some(bid_id)).0;
                assert(swept.bid_list(property_id) == s.bid_list(property_id));
                assert(!swept.locked(property_id, bid_id));
                lemma_put_bid(swept, property_id, bid_id, moved(b, BidStatus::Accepted, now));
                assert(same_locks_but(swept.locks, after.locks, property_id, bid_id));
                lemma_one_bid_keeps_funded(swept, after, property_id, bid_id);
            },
            BidStep::Reject { caller } => {
                lemma_hold_keeps_funded(s, property_id, bid_id, Intent::Reject);
            },
            BidStep::Cancel { caller } => {
                lemma_hold_keeps_funded(s, property_id, bid_id, Intent::Cancel);
            },
            BidStep::TimeoutRefund { timeout, now } => {
                lemma_hold_keeps_funded(s, property_id, bid_id, Intent::TimeoutRefund);
            },
            BidStep::RefundOutcome { success, now } => {
                let freed = s.unlock(property_id, bid_id);
                assert(freed.bid_list(property_id) == s.bid_list(property_id));
                if success {
                    let done = closed(
                        b,
                        crate::state::refund_status(s.lock_intent(property_id, bid_id)),
                        now,
                    );
                    lemma_put_bid(freed, property_id, bid_id, done);
                    assert(after =~= freed.put_bid(property_id, bid_id, done));
                    assert(same_locks_but(s.locks, after.locks, property_id, bid_id));
                    lemma_one_bid_keeps_funded(s, after, property_id, bid_id);
                } else {
                    assert(after.bids == s.bids);
                    assert(same_locks_but(s.locks, after.locks, property_id, bid_id));
                    lemma_one_bid_keeps_funded(s, after, property_id, bid_id);
                }
            },
            BidStep::PayoutOutcome { success, now, budget } => {
                if success {
                    let spend = s.settlement_budget(property_id, bid_id, budget);
                    lemma_sweep_keeps_bids(s, property_id, 0, spend, None);
                    lemma_sweep_keeps_funded(s, property_id, 0, spend, None);
                    let swept = s.sweep(property_id, 0, spend, None).0;
                    assert(swept.bid_list(property_id) == s.bid_list(property_id));
                    assert(swept.locked(property_id, bid_id));
                    assert(swept.lock_intent(property_id, bid_id) == s.lock_intent(
                        property_id,
                        bid_id,
                    ));
                    lemma_settled(swept, property_id, bid_id, now);
                    let done = closed(
                        b,
                        crate::bid_rules::payout_done_status(s.lock_intent(property_id, bid_id)),
                        now,
                    );
                    let freed = placed(swept, property_id, bid_id, now).unlock(property_id, bid_id);
                    assert(freed.bid_list(property_id) == s.bid_list(property_id));
                    lemma_ledger_keeps_wf(
                        placed(swept, property_id, bid_id, now),
                        b.stablecoin_token@,
                        b.amount,
                        property_id,
                        bid_id,
                    );
                    lemma_put_bid(freed, property_id, bid_id, done);
                    assert(same_locks_but(swept.locks, after.locks, property_id, bid_id));
                    lemma_one_bid_keeps_funded(swept, after, property_id, bid_id);
                } else {
                    let credited_state = s.credit(b.stablecoin_token@, b.amount);
                    assert(credited_state.bid_list(property_id) == s.bid_list(property_id));
                    lemma_put_bid(
                        credited_state,
                        property_id,
                        bid_id,
                        moved(
                            b,
                            crate::bid_rules::payout_failed_status(
                                s.lock_intent(property_id, bid_id),
                            ),
                            now,
                        ),
                    );
                    assert(same_locks_but(s.locks, after.locks, property_id, bid_id));
                    lemma_one_bid_keeps_funded(s, after, property_id, bid_id);
                }
            },
        }
    }
}

/// Over every sequence of steps the ledger keeps covering the bids.
pub proof fn lemma_steps_keep_funded(s: State, property_id: u64, bid_id: u64, steps: Seq<BidStep>)
    requires
        s.wf(),
        s.funded(),
    ensures
        s.steps(property_id, bid_id, steps).funded(),
    decreases steps.len(),
{
    if steps.len() > 0 {
        lemma_step_keeps_funded(s, property_id, bid_id, steps[0]);
        lemma_step_keeps_wf(s, property_id, bid_id, steps[0]);
        lemma_steps_keep_funded(
            s.step(property_id, bid_id, steps[0]),
            property_id,
            bid_id,
            steps.drop_first(),
        );
    }
}

/// Where the ledger covers the bids, it covers each bid that waits for its
/// money: to take the amount of such a bid out never finds the ledger
/// short, and no batch of refunds is refused.
pub proof fn lemma_funded_covers_bid(s: State, property_id: u64, bid_id: u64)
    requires
        s.wf(),
        s.funded(),
        s.has_bid(property_id, bid_id),
        waits_for_money(s.locks, s.bid(property_id, bid_id)),
    ensures
        s.balance(s.bid(property_id, bid_id).stablecoin_token@) >= s.bid(property_id, bid_id).amount,
        s.hold_error(s.bid(property_id, bid_id)) is None,
{
    let b = s.bid(property_id, bid_id);
    let token = b.stablecoin_token@;
    lemma_bid_facts(s, property_id, bid_id);
    lemma_total_stake_at_least(s.locks, s.bids, property_id as int, s.bid_index(property_id, bid_id), token);
    assert(total_stake(s.locks, s.bids, token) <= s.balance(token));
}

/// Where the ledger covers the bids, no batch of refunds is refused: the
/// refusal of a batch tells that the store holds less than its bids stand
/// for.
pub proof fn lemma_funded_sweep_is_not_refused(
    s: State,
    property_id: u64,
    from: int,
    budget: nat,
    keep: Option<u64>,
)
    requires
        s.wf(),
        s.funded(),
    ensures
        s.sweep_error(property_id, from, budget, keep) is None,
    decreases budget,
{
    if budget == 0 || from < 0 || from >= s.bid_list(property_id).len() {
    } else {
        let b = s.bid_list(property_id)[from];
        assert(property_id < s.bids.len());
        assert(bids_ok(s.bids[property_id as int], property_id, s.bid_counter));
        lemma_bid_index(s.bid_list(property_id), property_id, s.bid_counter, from);
        if s.refundable(b, keep) {
            lemma_funded_covers_bid(s, property_id, b.id);
            lemma_hold_keeps_funded(s, property_id, b.id, Intent::Reject);
            lemma_funded_sweep_is_not_refused(
                s.hold(b, Intent::Reject),
                property_id,
                from + 1,
                (budget - 1) as nat,
                keep,
            );
        } else {
            lemma_funded_sweep_is_not_refused(s, property_id, from + 1, (budget - 1) as nat, keep);
        }
    }
}

/// What a list of bids stands for is never negative.
proof fn lemma_list_stake_nonnegative(locks: Map<LockKey, Intent>, list: Seq<Bid>, token: Seq<char>)
    ensures
        list_stake(locks, list, token) >= 0,
    decreases list.len(),
{
    if list.len() > 0 {
        lemma_list_stake_nonnegative(locks, list.drop_last(), token);
    }
}

/// What all bids stand for is never negative.
proof fn lemma_total_stake_nonnegative(
    locks: Map<LockKey, Intent>,
    bids: Seq<Seq<Bid>>,
    token: Seq<char>,
)
    ensures
        total_stake(locks, bids, token) >= 0,
    decreases bids.len(),
{
    if bids.len() > 0 {
        lemma_total_stake_nonnegative(locks, bids.drop_last(), token);
        lemma_list_stake_nonnegative(locks, bids.last(), token);
    }
}

/// What a list of bids stands for is at least what one of them stands for.
proof fn lemma_list_stake_at_least(
    locks: Map<LockKey, Intent>,
    list: Seq<Bid>,
    at: int,
    token: Seq<char>,
)
    requires
        0 <= at < list.len(),
    ensures
        list_stake(locks, list, token) >= stake(locks, list[at], token),
    decreases list.len(),
{
    if at == list.len() - 1 {
        lemma_list_stake_nonnegative(locks, list.drop_last(), token);
    } else {
        lemma_list_stake_at_least(locks, list.drop_last(), at, token);
    }
}

/// What all bids stand for is at least what one of them stands for.
proof fn lemma_total_stake_at_least(
    locks: Map<LockKey, Intent>,
    bids: Seq<Seq<Bid>>,
    p: int,
    at: int,
    token: Seq<char>,
)
    requires
        0 <= p < bids.len(),
        0 <= at < bids[p].len(),
    ensures
        total_stake(locks, bids, token) >= stake(locks, bids[p][at], token),
    decreases bids.len(),
{
    if p == bids.len() - 1 {
        lemma_total_stake_nonnegative(locks, bids.drop_last(), token);
        lemma_list_stake_at_least(locks, bids.last(), at, token);
    } else {
        lemma_total_stake_at_least(locks, bids.drop_last(), p, at, token);
        lemma_list_stake_nonnegative(locks, bids.last(), token);
    }
}

/// A store without bids is covered, whatever its ledger holds.
pub proof fn lemma_no_bids_is_funded(s: State)
    requires
        s.bids.len() == 0,
    ensures
        s.funded(),
{
}

/// A new property brings no bids: the ledger keeps covering the bids.
pub proof fn lemma_list_property_keeps_funded(s: State, p: crate::models::Property)
    requires
        s.funded(),
    ensures
        s.list_property_state(p).funded(),
{
    let after = s.list_property_state(p);
    assert(after.bids.drop_last() =~= s.bids);
    assert forall|token: Seq<char>| #[trigger]
        total_stake(after.locks, after.bids, token) <= after.balance(token) by {
        assert(list_stake(after.locks, Seq::<Bid>::empty(), token) == 0);
        assert(total_stake(s.locks, s.bids, token) <= s.balance(token));
    }
}

/// A bid added at the end of the bids of a property adds what it stands for.
proof fn lemma_total_stake_push(
    locks: Map<LockKey, Intent>,
    bids: Seq<Seq<Bid>>,
    p: int,
    b: Bid,
    token: Seq<char>,
)
    requires
        0 <= p < bids.len(),
    ensures
        total_stake(locks, bids.update(p, bids[p].push(b)), token) == total_stake(locks, bids, token)
            + stake(locks, b, token),
    decreases bids.len(),
{
    let after = bids.update(p, bids[p].push(b));
    if p == bids.len() - 1 {
        assert(after.drop_last() =~= bids.drop_last());
        assert(after.last().drop_last() =~= bids.last());
    } else {
        assert(after.drop_last() =~= bids.drop_last().update(p, bids.drop_last()[p].push(b)));
        lemma_total_stake_push(locks, bids.drop_last(), p, b, token);
    }
}

/// A deposit that becomes a bid is credited to the ledger in full: the
/// ledger keeps covering the bids.
pub proof fn lemma_place_bid_keeps_funded(
    s: State,
    sender: crate::models::AccountId,
    amount: u128,
    msg: crate::models::BidAction,
    now: crate::models::Timestamp,
)
    requires
        s.wf(),
        s.funded(),
        s.place_bid_error(amount, msg, now) is None,
    ensures
        s.place_bid_state(sender, amount, msg, now).funded(),
{
    let after = s.place_bid_state(sender, amount, msg, now);
    let b = s.new_bid(sender, amount, msg, now);
    assert forall|token: Seq<char>| #[trigger]
        total_stake(after.locks, after.bids, token) <= after.balance(token) by {
        lemma_total_stake_push(s.locks, s.bids, msg.property_id as int, b, token);
        assert(total_stake(s.locks, s.bids, token) <= s.balance(token));
    }
}

/// The steps of escrow with documents and a dispute on a bid move the bid
/// without touching the ledger, and the bid stands for no more afterwards:
/// the ledger keeps covering the bids.
pub proof fn lemma_bid_change_keeps_funded(s: State, property_id: u64, bid_id: u64, b: Bid)
    requires
        s.wf(),
        s.funded(),
        s.has_bid(property_id, bid_id),
        b.id == bid_id,
        b.property_id == property_id,
        b.amount == s.bid(property_id, bid_id).amount,
        b.stablecoin_token == s.bid(property_id, bid_id).stablecoin_token,
        waits_for_money(s.locks, b) ==> waits_for_money(s.locks, s.bid(property_id, bid_id)),
        b.status == BidStatus::Rejected ==> b.settled_at is Some,
        b.status.is_terminal() ==> !s.locked(property_id, bid_id),
    ensures
        s.put_bid(property_id, bid_id, b).funded(),
        s.put_bid(property_id, bid_id, b).wf(),
{
    lemma_put_bid(s, property_id, bid_id, b);
    let after = s.put_bid(property_id, bid_id, b);
    assert(same_locks_but(s.locks, after.locks, property_id, bid_id));
    lemma_one_bid_keeps_funded(s, after, property_id, bid_id);
}

} // verus!
