use vstd::prelude::*;

use crate::account::Account;

verus! {

/// Whether `token` may be streamed under allowlist `list`: an empty list
/// accepts every token; otherwise the token must be listed.
pub open spec fn token_allowed(list: Seq<Account>, token: Account) -> bool {
    list.len() == 0 || list.contains(token)
}

/// The allowlist after adding `token` (unchanged when already listed).
pub open spec fn list_with(list: Seq<Account>, token: Account) -> Seq<Account> {
    if list.contains(token) {
        list
    } else {
        list.push(token)
    }
}

/// The predicate "is not `token`".
pub open spec fn other_than(token: Account) -> spec_fn(Account) -> bool {
    |x: Account| x != token
}

/// The allowlist after removing every occurrence of `token`.
pub open spec fn list_without(list: Seq<Account>, token: Account) -> Seq<Account> {
    list.filter(other_than(token))
}

/// No address occurs twice in `list`.
pub open spec fn no_duplicates(list: Seq<Account>) -> bool {
    forall|i: int, j: int| 0 <= i < list.len() && 0 <= j < list.len() && i != j ==> list[i] != list[j]
}

/// Whether `list` holds `token`.
pub fn list_contains(list: &Vec<Account>, token: &Account) -> (b: bool)
    ensures
        b == list@.contains(*token),
{
    let n = list.len();
    let mut i: usize = 0;
    while i < n
        invariant
            n == list@.len(),
            i <= n,
            forall|j: int| 0 <= j < i ==> list@[j] != *token,
        decreases n - i,
    {
        if list[i] == *token {
            assert(list@[i as int] == *token);
            return true;
        }
        i = i + 1;
    }
    false
}

/// Returns `true` if `token` is allowed: always when the list is empty
/// (permissive mode), else exactly when it is listed.
pub fn is_token_allowed(list: &Vec<Account>, token: &Account) -> (b: bool)
    ensures
        b == token_allowed(list@, *token),
{
    if list.len() == 0 {
        return true;
    }
    list_contains(list, token)
}

/// Adds `token` to the allowlist (no-op if already present).
pub fn add_allowed_token(list: &mut Vec<Account>, token: &Account)
    ensures
        final(list)@ == list_with(old(list)@, *token),
{
    if list_contains(list, token) {
        return;
    }
    list.push(*token);
}

/// Removes every occurrence of `token` from the allowlist (no-op if absent).
pub fn remove_allowed_token(list: &mut Vec<Account>, token: &Account)
    ensures
        final(list)@ == list_without(old(list)@, *token),
{
    let ghost pred = other_than(*token);
    let n = list.len();
    let mut kept: Vec<Account> = Vec::new();
    let mut i: usize = 0;
    proof {
        reveal(Seq::filter);
        assert(list@.take(0) =~= Seq::<Account>::empty());
    }
    while i < n
        invariant
            n == list@.len(),
            i <= n,
            pred == other_than(*token),
            kept@ == list@.take(i as int).filter(pred),
        decreases n - i,
    {
        let t = list[i];
        proof {
            reveal(Seq::filter);
            assert(list@.take(i + 1).drop_last() =~= list@.take(i as int));
            assert(list@.take(i + 1).last() == t);
        }
        if t != *token {
            kept.push(t);
        }
        i = i + 1;
    }
    proof {
        assert(list@.take(n as int) =~= list@);
    }
    *list = kept;
}

/// Law: a token that has just been added is allowed, and adding never
/// introduces a duplicate.
pub proof fn lemma_add_then_allowed(list: Seq<Account>, token: Account)
    ensures
        token_allowed(list_with(list, token), token),
        list_with(list, token).contains(token),
        no_duplicates(list) ==> no_duplicates(list_with(list, token)),
{
    if !list.contains(token) {
        assert(list.push(token)[list.len() as int] == token);
        assert forall|i: int, j: int|
            no_duplicates(list) && 0 <= i < list.len() + 1 && 0 <= j < list.len() + 1 && i != j
                implies list.push(token)[i] != list.push(token)[j] by {
            if i == list.len() {
                assert(list[j] == list.push(token)[j]);
            } else if j == list.len() {
                assert(list[i] == list.push(token)[i]);
            }
        }
    }
}

/// Law: a removed token is no longer listed, so it stays allowed only when
/// the list has become empty (permissive mode).
pub proof fn lemma_remove_then_disallowed(list: Seq<Account>, token: Account)
    ensures
        !list_without(list, token).contains(token),
        token_allowed(list_without(list, token), token) <==> list_without(list, token).len() == 0,
{
    let pred = other_than(token);
    let out = list.filter(pred);
    if out.contains(token) {
        let i = choose|i: int| 0 <= i < out.len() && out[i] == token;
        list.lemma_filter_pred(pred, i);
    }
}

/// Law: removing a token keeps every other listed token.
pub proof fn lemma_remove_keeps_others(list: Seq<Account>, token: Account, other: Account)
    requires
        other != token,
        list.contains(other),
    ensures
        list_without(list, token).contains(other),
{
    let i = choose|i: int| 0 <= i < list.len() && list[i] == other;
    list.lemma_filter_contains(other_than(token), i);
}

} // verus!
