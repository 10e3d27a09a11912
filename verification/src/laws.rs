//! The ledger's general guarantees, stated and proved over the spec-level
//! views that the operations' own contracts use. Conservation of the total
//! supply stands directly in the operations' `ensures` clauses (`transfer`
//! keeps `spec_supply` unchanged, `mint` grows it by exactly the minted
//! amount, `burn` and `clawback` shrink it by exactly the debited amount);
//! the laws below cover what a single contract does not say by itself.

use vstd::prelude::*;

use crate::errors::TokenError;
use crate::ledger::SimpleToken;
use crate::store::lemma_lookup_nonneg;

verus! {

/// Non-negativity: in a well-formed ledger every holder's balance is at least
/// 0 — also for holders the store holds no entry for. Every operation's
/// contract keeps the ledger well-formed, so this holds at all times.
pub proof fn lemma_balance_nonnegative(token: SimpleToken, holder: u64)
    requires
        token.well_formed(),
    ensures
        token.spec_balance(holder) >= 0,
{
    lemma_lookup_nonneg(token.balances@, holder);
}

/// Conservation across a sequence of calls: a chain of ledger states in which
/// each step keeps the total supply — as every successful `transfer` does, by
/// its contract — ends with the supply it began with. A mint, burn or
/// clawback step moves the supply by exactly its amount, so interleaving them
/// shifts the end of the chain by exactly the sum of those amounts.
pub proof fn lemma_supply_conserved_across_chain(chain: Seq<SimpleToken>)
    requires
        chain.len() > 0,
        forall|i: int|
            0 <= i < chain.len() - 1 ==> #[trigger] chain[i].spec_supply() == chain[i
                + 1].spec_supply(),
    ensures
        chain.last().spec_supply() == chain.first().spec_supply(),
    decreases chain.len(),
{
    if chain.len() > 1 {
        let rest = chain.drop_first();
        assert forall|i: int|
            0 <= i < rest.len() - 1 implies #[trigger] rest[i].spec_supply() == rest[i
            + 1].spec_supply() by {
            assert(rest[i] == chain[i + 1]);
            assert(rest[i + 1] == chain[i + 2]);
        }
        lemma_supply_conserved_across_chain(rest);
        assert(chain.first().spec_supply() == chain[1].spec_supply());
    }
}

/// Non-negativity, the error side: an operation that would drive a balance
/// below 0 — a transfer, burn or clawback of more than the debited holder
/// has — fails with `InsufficientBalance` (and so, by the operation's
/// contract, changes nothing).
pub proof fn lemma_overdraft_blocked(
    token: SimpleToken,
    caller: u64,
    from: u64,
    to: u64,
    amount: i128,
)
    requires
        amount >= 0,
        token.spec_balance(from) < amount,
    ensures
        caller == from && token.spec_authorized(from) ==> token.transfer_err(
            caller,
            from,
            to,
            amount,
        ) == Some(TokenError::InsufficientBalance),
        caller == from && token.spec_authorized(from) ==> token.burn_err(caller, from, amount)
            == Some(TokenError::InsufficientBalance),
        token.admin == Some(caller) ==> token.clawback_err(caller, from, amount) == Some(
            TokenError::InsufficientBalance,
        ),
{
}

/// Authorization gating: a deauthorized party blocks `transfer` and `burn`
/// with `Deauthorized` (a deauthorized recipient once the debit side passed),
/// a deauthorized recipient blocks `mint`, and no authorization state ever
/// blocks `clawback`.
pub proof fn lemma_authorization_gating(
    token: SimpleToken,
    caller: u64,
    from: u64,
    to: u64,
    amount: i128,
)
    requires
        amount >= 0,
    ensures
        caller == from && !token.spec_authorized(from) ==> token.transfer_err(
            caller,
            from,
            to,
            amount,
        ) == Some(TokenError::Deauthorized),
        caller == from && token.spec_authorized(from) && token.spec_balance(from) >= amount
            && !token.spec_authorized(to) ==> token.transfer_err(caller, from, to, amount) == Some(
            TokenError::Deauthorized,
        ),
        caller == from && !token.spec_authorized(from) ==> token.burn_err(caller, from, amount)
            == Some(TokenError::Deauthorized),
        token.admin == Some(caller) && !token.spec_authorized(to) ==> token.mint_err(
            caller,
            to,
            amount,
        ) == Some(TokenError::Deauthorized),
        token.clawback_err(caller, from, amount) != Some(TokenError::Deauthorized),
{
}

/// Clawback ignores authorization state entirely: two ledgers that agree on
/// the administrator and on every balance decide any clawback alike, whatever
/// their authorization flags hold.
pub proof fn lemma_clawback_ignores_authorization(
    t1: SimpleToken,
    t2: SimpleToken,
    caller: u64,
    from: u64,
    amount: i128,
)
    requires
        t1.admin == t2.admin,
        forall|h: u64| t1.spec_balance(h) == t2.spec_balance(h),
    ensures
        t1.clawback_err(caller, from, amount) == t2.clawback_err(caller, from, amount),
{
    assert(t1.spec_balance(from) == t2.spec_balance(from));
}

/// Admin exclusivity: with an administrator in place, a proof from any other
/// identity has every privileged operation fail with `Unauthorized`.
pub proof fn lemma_admin_exclusivity(
    token: SimpleToken,
    caller: u64,
    to: u64,
    from: u64,
    amount: i128,
)
    requires
        token.admin is Some,
        token.admin != Some(caller),
        amount >= 0,
    ensures
        token.mint_err(caller, to, amount) == Some(TokenError::Unauthorized),
        token.clawback_err(caller, from, amount) == Some(TokenError::Unauthorized),
        token.set_authorized_err(caller) == Some(TokenError::Unauthorized),
        token.set_admin_err(caller) == Some(TokenError::Unauthorized),
{
}

/// After the administrator role is reassigned, a proof from the former
/// administrator fails every privileged operation: `pre` is any ledger whose
/// administrator was `old_admin`, `post` any ledger after `set_admin` handed
/// the role to a different `new_admin` (its contract gives
/// `post.admin == Some(new_admin)`).
pub proof fn lemma_former_admin_rejected(
    pre: SimpleToken,
    post: SimpleToken,
    old_admin: u64,
    new_admin: u64,
    to: u64,
    from: u64,
    amount: i128,
)
    requires
        pre.admin == Some(old_admin),
        old_admin != new_admin,
        post.admin == Some(new_admin),
        amount >= 0,
    ensures
        post.mint_err(old_admin, to, amount) == Some(TokenError::Unauthorized),
        post.clawback_err(old_admin, from, amount) == Some(TokenError::Unauthorized),
        post.set_authorized_err(old_admin) == Some(TokenError::Unauthorized),
        post.set_admin_err(old_admin) == Some(TokenError::Unauthorized),
{
}

/// Initialization guard: with an administrator in place a second `initialize`
/// fails with `AlreadyInitialized`, whatever precision it asks for (and, by
/// `initialize`'s contract, alters nothing).
pub proof fn lemma_initialize_guard(token: SimpleToken, decimal: u32)
    requires
        token.admin is Some,
    ensures
        token.initialize_err(decimal) == Some(TokenError::AlreadyInitialized),
{
}

} // verus!
