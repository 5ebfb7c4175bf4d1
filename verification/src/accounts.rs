//! Lists of account names without repetition.

use crate::models::AccountId;
use vstd::prelude::*;

verus! {

/// `account` is one of `list`.
pub open spec fn contains_account(list: Seq<AccountId>, account: Seq<char>) -> bool {
    exists|i: int| 0 <= i < list.len() && #[trigger] list[i]@ == account
}

/// No name occurs twice in `list`.
pub open spec fn distinct_accounts(list: Seq<AccountId>) -> bool {
    forall|i: int, j: int|
        0 <= i < list.len() && 0 <= j < list.len() && i != j ==> #[trigger] list[i]@ != #[trigger] list[j]@
}

/// Where `account` stands in `list`; meaningful where it is contained.
pub open spec fn account_index(list: Seq<AccountId>, account: Seq<char>) -> int {
    choose|i: int| 0 <= i < list.len() && #[trigger] list[i]@ == account
}

/// `list` without `account`.
pub open spec fn without_account(list: Seq<AccountId>, account: Seq<char>) -> Seq<AccountId> {
    if contains_account(list, account) {
        list.remove(account_index(list, account))
    } else {
        list
    }
}

/// `list` without `account`, whose place the last name takes.
pub open spec fn without_account_swapped(list: Seq<AccountId>, account: Seq<char>) -> Seq<
    AccountId,
> {
    if contains_account(list, account) {
        list.update(account_index(list, account), list.last()).drop_last()
    } else {
        list
    }
}

/// `list` with `account` at its end, unless it is already contained.
pub open spec fn with_account(list: Seq<AccountId>, account: AccountId) -> Seq<AccountId> {
    if contains_account(list, account@) {
        list
    } else {
        list.push(account)
    }
}

/// In a list without repetition an account stands at one place only.
pub proof fn lemma_account_index(list: Seq<AccountId>, i: int)
    requires
        distinct_accounts(list),
        0 <= i < list.len(),
    ensures
        contains_account(list, list[i]@),
        account_index(list, list[i]@) == i,
{
    let a = list[i]@;
    assert(list[i]@ == a);
    let j = account_index(list, a);
    assert(j == i);
}

/// Adding keeps the list free of repetition and makes the account a member.
pub proof fn lemma_with_account(list: Seq<AccountId>, account: AccountId)
    requires
        distinct_accounts(list),
    ensures
        distinct_accounts(with_account(list, account)),
        contains_account(with_account(list, account), account@),
        forall|a: Seq<char>|
            a != account@ ==> (contains_account(with_account(list, account), a) <==> contains_account(
                list,
                a,
            )),
{
    let after = with_account(list, account);
    if contains_account(list, account@) {
    } else {
        let n = list.len() as int;
        assert(after[n]@ == account@);
        assert forall|i: int, j: int|
            0 <= i < after.len() && 0 <= j < after.len() && i != j implies #[trigger] after[i]@
            != #[trigger] after[j]@ by {
            if i < n {
                assert(after[i] == list[i]);
            }
            if j < n {
                assert(after[j] == list[j]);
            }
        }
        assert forall|a: Seq<char>| a != account@ implies (contains_account(after, a)
            <==> contains_account(list, a)) by {
            if contains_account(list, a) {
                let i = account_index(list, a);
                assert(after[i]@ == a);
            }
            if contains_account(after, a) {
                let i = account_index(after, a);
                assert(list[i]@ == a);
            }
        }
    }
}

/// Removing keeps the list free of repetition and makes the account a non-member.
pub proof fn lemma_without_account(list: Seq<AccountId>, account: Seq<char>)
    requires
        distinct_accounts(list),
    ensures
        distinct_accounts(without_account(list, account)),
        !contains_account(without_account(list, account), account),
        forall|a: Seq<char>|
            a != account ==> (contains_account(without_account(list, account), a) <==> contains_account(
                list,
                a,
            )),
{
    let after = without_account(list, account);
    if contains_account(list, account) {
        let p = account_index(list, account);
        assert forall|i: int| 0 <= i < after.len() implies #[trigger] after[i] == list[if i < p {
            i
        } else {
            i + 1
        }] by {}
        assert forall|i: int, j: int|
            0 <= i < after.len() && 0 <= j < after.len() && i != j implies #[trigger] after[i]@
            != #[trigger] after[j]@ by {
            let i0 = if i < p { i } else { i + 1 };
            let j0 = if j < p { j } else { j + 1 };
            assert(after[i] == list[i0]);
            assert(after[j] == list[j0]);
        }
        if contains_account(after, account) {
            let i = account_index(after, account);
            let i0 = if i < p { i } else { i + 1 };
            assert(after[i] == list[i0]);
            assert(list[i0]@ == list[p]@);
        }
        assert forall|a: Seq<char>| a != account implies (contains_account(after, a)
            <==> contains_account(list, a)) by {
            if contains_account(list, a) {
                let i = account_index(list, a);
                let i1 = if i < p { i } else { i - 1 };
                assert(after[i1] == list[i]);
                assert(after[i1]@ == a);
            }
            if contains_account(after, a) {
                let i = account_index(after, a);
                let i0 = if i < p { i } else { i + 1 };
                assert(after[i] == list[i0]);
                assert(list[i0]@ == a);
            }
        }
    }
}

/// Removing with the last name taking the place keeps the list free of
/// repetition and makes the account a non-member.
pub proof fn lemma_without_account_swapped(list: Seq<AccountId>, account: Seq<char>)
    requires
        distinct_accounts(list),
    ensures
        distinct_accounts(without_account_swapped(list, account)),
        !contains_account(without_account_swapped(list, account), account),
        forall|a: Seq<char>|
            a != account ==> (contains_account(without_account_swapped(list, account), a)
                <==> contains_account(list, a)),
{
    let after = without_account_swapped(list, account);
    if contains_account(list, account) {
        let p = account_index(list, account);
        let last = list.len() - 1;
        assert forall|i: int| 0 <= i < after.len() implies #[trigger] after[i] == list[if i == p {
            last
        } else {
            i
        }] by {}
        assert forall|i: int, j: int|
            0 <= i < after.len() && 0 <= j < after.len() && i != j implies #[trigger] after[i]@
            != #[trigger] after[j]@ by {
            let i0 = if i == p { last } else { i };
            let j0 = if j == p { last } else { j };
            assert(after[i] == list[i0]);
            assert(after[j] == list[j0]);
        }
        if contains_account(after, account) {
            let i = account_index(after, account);
            let i0 = if i == p { last } else { i };
            assert(after[i] == list[i0]);
            assert(list[i0]@ == list[p]@);
        }
        assert forall|a: Seq<char>| a != account implies (contains_account(after, a)
            <==> contains_account(list, a)) by {
            if contains_account(list, a) {
                let i = account_index(list, a);
                assert(i != p);
                if i == last {
                    assert(after[p] == list[last]);
                    assert(after[p]@ == a);
                } else {
                    assert(after[i] == list[i]);
                    assert(after[i]@ == a);
                }
            }
            if contains_account(after, a) {
                let i = account_index(after, a);
                let i0 = if i == p { last } else { i };
                assert(after[i] == list[i0]);
                assert(list[i0]@ == a);
            }
        }
    }
}

/// The place of `account` in `list`, if it is there.
pub fn find_account(list: &Vec<AccountId>, account: &AccountId) -> (r: Option<usize>)
    ensures
        match r {
            Some(i) => i < list@.len() && list@[i as int]@ == account@,
            None => !contains_account(list@, account@),
        },
{
    let mut i: usize = 0;
    while i < list.len()
        invariant
            i <= list@.len(),
            forall|j: int| 0 <= j < i ==> #[trigger] list@[j]@ != account@,
        decreases list@.len() - i,
    {
        if list[i] == *account {
            return Some(i);
        }
        i = i + 1;
    }
    None
}

/// Adds `account` unless it is already in `list`. Says whether it was added.
pub fn insert_account(list: &mut Vec<AccountId>, account: AccountId) -> (r: bool)
    requires
        distinct_accounts(old(list)@),
    ensures
        distinct_accounts(final(list)@),
        r == !contains_account(old(list)@, account@),
        final(list)@ == with_account(old(list)@, account),
{
    proof {
        lemma_with_account(list@, account);
    }
    match find_account(list, &account) {
        Some(_) => false,
        None => {
            list.push(account);
            true
        },
    }
}

/// Takes `account` out of `list`. Says whether it was there.
pub fn remove_account(list: &mut Vec<AccountId>, account: &AccountId) -> (r: bool)
    requires
        distinct_accounts(old(list)@),
    ensures
        distinct_accounts(final(list)@),
        r == contains_account(old(list)@, account@),
        final(list)@ == without_account(old(list)@, account@),
{
    proof {
        lemma_without_account(list@, account@);
    }
    match find_account(list, account) {
        Some(i) => {
            proof {
                lemma_account_index(list@, i as int);
            }
            let _gone = list.remove(i);
            true
        },
        None => false,
    }
}

/// Takes `account` out of `list` and puts the last name in its place. Says
/// whether it was there.
pub fn swap_remove_account(list: &mut Vec<AccountId>, account: &AccountId) -> (r: bool)
    requires
        distinct_accounts(old(list)@),
    ensures
        distinct_accounts(final(list)@),
        r == contains_account(old(list)@, account@),
        final(list)@ == without_account_swapped(old(list)@, account@),
{
    proof {
        lemma_without_account_swapped(list@, account@);
    }
    match find_account(list, account) {
        Some(i) => {
            proof {
                lemma_account_index(list@, i as int);
            }
            let _gone = list.swap_remove(i);
            true
        },
        None => false,
    }
}

/// A copy of `list`, name by name.
pub fn clone_accounts(list: &Vec<AccountId>) -> (r: Vec<AccountId>)
    ensures
        r@ == list@,
{
    let mut out: Vec<AccountId> = Vec::new();
    let mut i: usize = 0;
    while i < list.len()
        invariant
            i <= list@.len(),
            out@ == list@.subrange(0, i as int),
        decreases list@.len() - i,
    {
        out.push(list[i].clone());
        proof {
            assert(out@ =~= list@.subrange(0, i + 1));
        }
        i = i + 1;
    }
    proof {
        assert(out@ =~= list@);
    }
    out
}

} // verus!
