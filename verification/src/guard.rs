//! The reentrancy guard: which sagas are waiting for the outcome of a transfer.
//!
//! A lock is taken when a step asks for a transfer and given back by the
//! callback that reports the outcome. It records what the step intended, so
//! that the callback of one saga cannot finish another.

use vstd::prelude::*;

verus! {

/// What the saga that holds a lock set out to do.
#[derive(Clone, Copy, Debug, PartialEq, Eq, Structural)]
pub enum Intent {
    /// Direct settlement: the seller is being paid.
    Accept,
    /// The bidder is being refunded after a rejection.
    Reject,
    /// The bidder is being refunded after withdrawing the bid.
    Cancel,
    /// The bidder is being refunded because the accepted bid stalled.
    TimeoutRefund,
    /// The bidder of a lost bid is being refunded.
    ClaimLostBid,
    /// Escrow with documents: the seller is being paid.
    ReleaseEscrow,
}

/// A lock is held on a property as a whole (`bid_id` is `None`) or on one of its bids.
#[derive(Clone, Copy, Debug, PartialEq, Eq)]
pub struct LockKey {
    pub property_id: u64,
    pub bid_id: Option<u64>,
}

/// A key that is held, with the intent of its holder.
#[derive(Clone, Copy, Debug, PartialEq, Eq)]
pub struct Lock {
    pub key: LockKey,
    pub intent: Intent,
}

/// The set of locks that are held. No key is held twice.
pub struct ReentrancyGuard {
    pub held: Vec<Lock>,
}

/// Some lock of `held` is on `key`.
pub open spec fn holds(held: Seq<Lock>, key: LockKey) -> bool {
    exists|i: int| 0 <= i < held.len() && #[trigger] held[i].key == key
}

/// The intent with which `key` is held; meaningful where it is held.
pub open spec fn intent_in(held: Seq<Lock>, key: LockKey) -> Intent {
    held[choose|i: int| 0 <= i < held.len() && #[trigger] held[i].key == key].intent
}

/// No key occurs twice in `held`.
pub open spec fn distinct_keys(held: Seq<Lock>) -> bool {
    forall|i: int, j: int|
        0 <= i < held.len() && 0 <= j < held.len() && i != j ==> #[trigger] held[i].key
            != #[trigger] held[j].key
}

proof fn lemma_intent_at(held: Seq<Lock>, i: int)
    requires
        distinct_keys(held),
        0 <= i < held.len(),
    ensures
        holds(held, held[i].key),
        intent_in(held, held[i].key) == held[i].intent,
{
    let k = held[i].key;
    assert(held[i].key == k);
    let j = choose|j: int| 0 <= j < held.len() && #[trigger] held[j].key == k;
    assert(j == i);
}

impl LockKey {
    /// Whether the two keys are the same.
    pub fn same(&self, other: &LockKey) -> (r: bool)
        ensures
            r == (*self == *other),
    {
        self.property_id == other.property_id && match (self.bid_id, other.bid_id) {
            (Some(a), Some(b)) => a == b,
            (None, None) => true,
            _ => false,
        }
    }

    /// The key of one bid of a property.
    pub fn bid(property_id: u64, bid_id: u64) -> (r: LockKey)
        ensures
            r == (LockKey { property_id, bid_id: Some(bid_id) }),
    {
        LockKey { property_id, bid_id: Some(bid_id) }
    }

    /// The key of a property as a whole.
    pub fn property(property_id: u64) -> (r: LockKey)
        ensures
            r == (LockKey { property_id, bid_id: None }),
    {
        LockKey { property_id, bid_id: None }
    }
}

impl View for ReentrancyGuard {
    type V = Map<LockKey, Intent>;

    /// The keys that are locked, each with the intent of its holder.
    open spec fn view(&self) -> Map<LockKey, Intent> {
        Map::new(|k: LockKey| holds(self.held@, k), |k: LockKey| intent_in(self.held@, k))
    }
}

impl ReentrancyGuard {
    /// No key is held twice.
    pub open spec fn wf(&self) -> bool {
        distinct_keys(self.held@)
    }

    /// A guard that holds nothing.
    pub fn new() -> (r: ReentrancyGuard)
        ensures
            r.wf(),
            r@ == Map::<LockKey, Intent>::empty(),
    {
        let r = ReentrancyGuard { held: Vec::new() };
        assert(r@ =~= Map::<LockKey, Intent>::empty());
        r
    }

    fn position(&self, key: &LockKey) -> (r: Option<usize>)
        ensures
            match r {
                Some(i) => i < self.held@.len() && self.held@[i as int].key == *key,
                None => !holds(self.held@, *key),
            },
    {
        let mut i: usize = 0;
        while i < self.held.len()
            invariant
                i <= self.held@.len(),
                forall|j: int| 0 <= j < i ==> #[trigger] self.held@[j].key != *key,
            decreases self.held@.len() - i,
        {
            if self.held[i].key.same(key) {
                return Some(i);
            }
            i = i + 1;
        }
        None
    }

    /// The intent of the saga that holds `key`, if one does.
    pub fn holder(&self, key: &LockKey) -> (r: Option<Intent>)
        requires
            self.wf(),
        ensures
            r is Some <==> self@.dom().contains(*key),
            r is Some ==> r->0 == self@[*key],
    {
        match self.position(key) {
            Some(i) => {
                proof {
                    lemma_intent_at(self.held@, i as int);
                }
                Some(self.held[i].intent)
            },
            None => None,
        }
    }

    /// Whether `key` is held.
    pub fn is_locked(&self, key: &LockKey) -> (r: bool)
        requires
            self.wf(),
        ensures
            r == self@.dom().contains(*key),
    {
        self.position(key).is_some()
    }

    /// Takes the lock on `key` unless it is held: a second saga on the same
    /// key is turned away at once.
    pub fn acquire(&mut self, key: LockKey, intent: Intent) -> (r: bool)
        requires
            old(self).wf(),
        ensures
            final(self).wf(),
            r == !old(self)@.dom().contains(key),
            r ==> final(self)@ == old(self)@.insert(key, intent),
            !r ==> *final(self) == *old(self),
    {
        match self.position(&key) {
            Some(_) => false,
            None => {
                self.held.push(Lock { key, intent });
                proof {
                    let before = old(self).held@;
                    let after = self.held@;
                    let n = before.len() as int;
                    assert forall|a: int, b: int|
                        0 <= a < after.len() && 0 <= b < after.len() && a != b implies #[trigger] after[a].key
                        != #[trigger] after[b].key by {
                        if a < n {
                            assert(after[a] == before[a]);
                        }
                        if b < n {
                            assert(after[b] == before[b]);
                        }
                    }
                    lemma_intent_at(after, n);
                    assert forall|k: LockKey| k != key implies (holds(after, k) == holds(before, k)
                        && (holds(before, k) ==> intent_in(after, k) == intent_in(before, k))) by {
                        if holds(before, k) {
                            let j = choose|j: int| 0 <= j < before.len() && #[trigger] before[j].key == k;
                            lemma_intent_at(before, j);
                            assert(after[j] == before[j]);
                            lemma_intent_at(after, j);
                        } else if holds(after, k) {
                            let j = choose|j: int| 0 <= j < after.len() && #[trigger] after[j].key == k;
                            assert(after[j] == before[j]);
                        }
                    }
                    assert(self@ =~= old(self)@.insert(key, intent));
                }
                true
            },
        }
    }

    /// Gives the lock on `key` back. Says whether it was held.
    pub fn release(&mut self, key: &LockKey) -> (r: bool)
        requires
            old(self).wf(),
        ensures
            final(self).wf(),
            r == old(self)@.dom().contains(*key),
            final(self)@ == old(self)@.remove(*key),
    {
        match self.position(key) {
            Some(i) => {
                let _gone = self.held.remove(i);
                proof {
                    let before = old(self).held@;
                    let after = self.held@;
                    let p = i as int;
                    assert forall|a: int| 0 <= a < after.len() implies #[trigger] after[a] == before[if a
                        < p {
                        a
                    } else {
                        a + 1
                    }] by {}
                    assert forall|a: int, b: int|
                        0 <= a < after.len() && 0 <= b < after.len() && a != b implies #[trigger] after[a].key
                        != #[trigger] after[b].key by {
                        let a0 = if a < p { a } else { a + 1 };
                        let b0 = if b < p { b } else { b + 1 };
                        assert(after[a] == before[a0]);
                        assert(after[b] == before[b0]);
                    }
                    lemma_intent_at(before, p);
                    if holds(after, *key) {
                        let j = choose|j: int| 0 <= j < after.len() && #[trigger] after[j].key == *key;
                        let j0 = if j < p { j } else { j + 1 };
                        assert(after[j] == before[j0]);
                        assert(before[j0].key == before[p].key);
                    }
                    assert forall|k: LockKey| k != *key implies (holds(after, k) == holds(before, k)
                        && (holds(before, k) ==> intent_in(after, k) == intent_in(before, k))) by {
                        if holds(before, k) {
                            let j = choose|j: int| 0 <= j < before.len() && #[trigger] before[j].key == k;
                            lemma_intent_at(before, j);
                            let j1 = if j < p { j } else { j - 1 };
                            assert(after[j1] == before[j]);
                            lemma_intent_at(after, j1);
                        } else if holds(after, k) {
                            let j = choose|j: int| 0 <= j < after.len() && #[trigger] after[j].key == k;
                            let j0 = if j < p { j } else { j + 1 };
                            assert(after[j] == before[j0]);
                        }
                    }
                    assert(self@ =~= old(self)@.remove(*key));
                }
                true
            },
            None => {
                proof {
                    assert(self@ =~= old(self)@.remove(*key));
                }
                false
            },
        }
    }
}

impl Clone for ReentrancyGuard {
    /// A copy of the guard, lock by lock.
    fn clone(&self) -> (r: ReentrancyGuard)
        ensures
            r.held@ == self.held@,
            r@ == self@,
            r.wf() == self.wf(),
    {
        let mut held: Vec<Lock> = Vec::new();
        let mut i: usize = 0;
        while i < self.held.len()
            invariant
                i <= self.held@.len(),
                held@ == self.held@.subrange(0, i as int),
            decreases self.held@.len() - i,
        {
            held.push(self.held[i]);
            proof {
                assert(held@ =~= self.held@.subrange(0, i + 1));
            }
            i = i + 1;
        }
        proof {
            assert(held@ =~= self.held@);
        }
        ReentrancyGuard { held }
    }
}

} // verus!
