//! The ledger state machine: the operation set over the balance store, the
//! authorization store, the administrator registry and the metadata, together
//! with the invariants every operation preserves.
//!
//! Holders are identified by plain 64-bit identities; the authorization proof
//! an operation demands is modelled by the `caller` parameter, the identity
//! the host has verified the invoker controls. Every operation validates all
//! of its preconditions before its first write, so a failing operation
//! returns its error kind with the ledger unchanged and no event appended.

use vstd::prelude::*;

use crate::errors::TokenError;
use crate::events::TokenEvent;
use crate::store::all_nonnegative;
use crate::store::is_authorized;
use crate::store::keys_unique;
use crate::store::lemma_lookup_le_sum;
use crate::store::lemma_lookup_nonneg;
use crate::store::lemma_two_lookups_le_sum;
use crate::store::lookup;
use crate::store::read_balance;
use crate::store::sum_balances;
use crate::store::sum_of;
use crate::store::write_authorization;
use crate::store::write_balance;

verus! {

/// The token metadata, written exactly once, at initialization.
pub struct TokenMetadata {
    /// Decimal precision; at most 255.
    pub decimal: u32,
    pub name: Vec<u8>,
    pub symbol: Vec<u8>,
}

/// The ledger: per-holder balances, per-holder authorization flags, the
/// single administrator, the metadata, and the audit log of emitted events.
pub struct SimpleToken {
    /// Balance entries; an absent holder has balance 0.
    pub balances: Vec<(u64, i128)>,
    /// Authorization entries; an absent holder is authorized.
    pub auth_flags: Vec<(u64, bool)>,
    /// The administrator, present exactly from initialization on.
    pub admin: Option<u64>,
    /// The metadata, present exactly from initialization on.
    pub metadata: Option<TokenMetadata>,
    /// Every event emitted so far, oldest first.
    pub events: Vec<TokenEvent>,
}

impl SimpleToken {
    /// The balance held by `holder`; 0 where no entry exists.
    pub open spec fn spec_balance(self, holder: u64) -> int {
        lookup(self.balances@, holder, 0) as int
    }

    /// Whether `holder` may send and receive; true where no entry exists.
    pub open spec fn spec_authorized(self, holder: u64) -> bool {
        lookup(self.auth_flags@, holder, true)
    }

    /// The sum of all balances.
    pub open spec fn spec_supply(self) -> int {
        sum_of(self.balances@)
    }

    /// The well-formedness invariant: entry keys are unique, no balance is
    /// negative, the total supply fits a signed 128-bit amount, and the
    /// administrator and the metadata exist together.
    pub open spec fn well_formed(self) -> bool {
        &&& keys_unique(self.balances@)
        &&& keys_unique(self.auth_flags@)
        &&& all_nonnegative(self.balances@)
        &&& self.spec_supply() <= i128::MAX
        &&& (self.admin is Some <==> self.metadata is Some)
        &&& (self.metadata matches Some(m) ==> m.decimal <= 255)
    }

    /// The failure `initialize` reports, or `None` where it succeeds.
    pub open spec fn initialize_err(self, decimal: u32) -> Option<TokenError> {
        if self.admin is Some {
            Some(TokenError::AlreadyInitialized)
        } else if decimal > 255 {
            Some(TokenError::InvalidDecimal)
        } else {
            None
        }
    }

    /// The failure `transfer` reports, or `None` where it succeeds. The proof
    /// must be from the debited holder; both parties must be authorized.
    pub open spec fn transfer_err(self, caller: u64, from: u64, to: u64, amount: i128) -> Option<
        TokenError,
    > {
        if caller != from {
            Some(TokenError::Unauthorized)
        } else if amount < 0 {
            Some(TokenError::NegativeAmount)
        } else if !self.spec_authorized(from) {
            Some(TokenError::Deauthorized)
        } else if self.spec_balance(from) < amount {
            Some(TokenError::InsufficientBalance)
        } else if !self.spec_authorized(to) {
            Some(TokenError::Deauthorized)
        } else {
            None
        }
    }

    /// The failure `burn` reports, or `None` where it succeeds.
    pub open spec fn burn_err(self, caller: u64, from: u64, amount: i128) -> Option<TokenError> {
        if caller != from {
            Some(TokenError::Unauthorized)
        } else if amount < 0 {
            Some(TokenError::NegativeAmount)
        } else if !self.spec_authorized(from) {
            Some(TokenError::Deauthorized)
        } else if self.spec_balance(from) < amount {
            Some(TokenError::InsufficientBalance)
        } else {
            None
        }
    }

    /// The failure `mint` reports, or `None` where it succeeds. Only the
    /// administrator may mint, and only to an authorized recipient.
    pub open spec fn mint_err(self, caller: u64, to: u64, amount: i128) -> Option<TokenError> {
        if amount < 0 {
            Some(TokenError::NegativeAmount)
        } else if self.admin is None {
            Some(TokenError::NotInitialized)
        } else if self.admin != Some(caller) {
            Some(TokenError::Unauthorized)
        } else if !self.spec_authorized(to) {
            Some(TokenError::Deauthorized)
        } else {
            None
        }
    }

    /// The failure `clawback` reports, or `None` where it succeeds. Clawback
    /// is the administrator's forced debit: the debited holder's
    /// authorization state never blocks it.
    pub open spec fn clawback_err(self, caller: u64, from: u64, amount: i128) -> Option<
        TokenError,
    > {
        if amount < 0 {
            Some(TokenError::NegativeAmount)
        } else if self.admin is None {
            Some(TokenError::NotInitialized)
        } else if self.admin != Some(caller) {
            Some(TokenError::Unauthorized)
        } else if self.spec_balance(from) < amount {
            Some(TokenError::InsufficientBalance)
        } else {
            None
        }
    }

    /// The failure `set_authorized` reports, or `None` where it succeeds.
    pub open spec fn set_authorized_err(self, caller: u64) -> Option<TokenError> {
        if self.admin is None {
            Some(TokenError::NotInitialized)
        } else if self.admin != Some(caller) {
            Some(TokenError::Unauthorized)
        } else {
            None
        }
    }

    /// The failure `set_admin` reports, or `None` where it succeeds.
    pub open spec fn set_admin_err(self, caller: u64) -> Option<TokenError> {
        if self.admin is None {
            Some(TokenError::NotInitialized)
        } else if self.admin != Some(caller) {
            Some(TokenError::Unauthorized)
        } else {
            None
        }
    }

    /// An empty ledger: no holder has a balance, every holder is authorized,
    /// and neither administrator nor metadata exists.
    pub fn new() -> (r: SimpleToken)
        ensures
            r.well_formed(),
            r.admin is None,
            r.metadata is None,
            r.events@ =~= Seq::<TokenEvent>::empty(),
            forall|h: u64| r.spec_balance(h) == 0,
            forall|h: u64| r.spec_authorized(h),
            r.spec_supply() == 0,
    {
        SimpleToken {
            balances: Vec::new(),
            auth_flags: Vec::new(),
            admin: None,
            metadata: None,
            events: Vec::new(),
        }
    }

    /// Whether an administrator exists, i.e. whether the ledger is
    /// initialized.
    pub fn has_administrator(&self) -> (r: bool)
        ensures
            r == (self.admin is Some),
    {
        self.admin.is_some()
    }

    /// The current administrator; fails with `NotInitialized` where none
    /// exists.
    pub fn read_administrator(&self) -> (r: Result<u64, TokenError>)
        ensures
            match r {
                Ok(a) => self.admin == Some(a),
                Err(e) => self.admin is None && e == TokenError::NotInitialized,
            },
    {
        match self.admin {
            Some(a) => Ok(a),
            None => Err(TokenError::NotInitialized),
        }
    }

    /// The bootstrap operation: writes the administrator and the metadata,
    /// both at most once. No authorization proof is demanded.
    pub fn initialize(&mut self, admin: u64, decimal: u32, name: Vec<u8>, symbol: Vec<u8>) -> (r:
        Result<(), TokenError>)
        requires
            old(self).well_formed(),
        ensures
            final(self).well_formed(),
            match old(self).initialize_err(decimal) {
                Some(e) => r == Err::<(), TokenError>(e) && *final(self) == *old(self),
                None => {
                    &&& r == Ok::<(), TokenError>(())
                    &&& final(self).admin == Some(admin)
                    &&& final(self).metadata matches Some(m) && m.decimal == decimal && m.name@
                        == name@ && m.symbol@ == symbol@
                    &&& forall|h: u64| final(self).spec_balance(h) == old(self).spec_balance(h)
                    &&& forall|h: u64| final(self).spec_authorized(h) == old(self).spec_authorized(h)
                    &&& final(self).spec_supply() == old(self).spec_supply()
                    &&& final(self).events@ == old(self).events@
                },
            },
    {
        if self.admin.is_some() {
            return Err(TokenError::AlreadyInitialized);
        }
        if decimal > 255 {
            return Err(TokenError::InvalidDecimal);
        }
        self.admin = Some(admin);
        self.metadata = Some(TokenMetadata { decimal, name, symbol });
        Ok(())
    }

    /// The balance held by `id`. A pure read: no authorization, never fails,
    /// 0 for a holder never credited.
    pub fn balance(&self, id: u64) -> (r: i128)
        ensures
            r as int == self.spec_balance(id),
    {
        read_balance(&self.balances, id)
    }

    /// Whether `id` is authorized. A pure read: never fails, true for a
    /// holder never flagged.
    pub fn authorized(&self, id: u64) -> (r: bool)
        ensures
            r == self.spec_authorized(id),
    {
        is_authorized(&self.auth_flags, id)
    }

    /// The decimal precision; fails with `NotInitialized` before
    /// initialization.
    pub fn decimals(&self) -> (r: Result<u32, TokenError>)
        ensures
            match r {
                Ok(d) => self.metadata matches Some(m) && d == m.decimal,
                Err(e) => self.metadata is None && e == TokenError::NotInitialized,
            },
    {
        match &self.metadata {
            Some(m) => Ok(m.decimal),
            None => Err(TokenError::NotInitialized),
        }
    }

    /// The token name; fails with `NotInitialized` before initialization.
    pub fn name(&self) -> (r: Result<&Vec<u8>, TokenError>)
        ensures
            match r {
                Ok(n) => self.metadata matches Some(m) && n@ == m.name@,
                Err(e) => self.metadata is None && e == TokenError::NotInitialized,
            },
    {
        match &self.metadata {
            Some(m) => Ok(&m.name),
            None => Err(TokenError::NotInitialized),
        }
    }

    /// The token symbol; fails with `NotInitialized` before initialization.
    pub fn symbol(&self) -> (r: Result<&Vec<u8>, TokenError>)
        ensures
            match r {
                Ok(s) => self.metadata matches Some(m) && s@ == m.symbol@,
                Err(e) => self.metadata is None && e == TokenError::NotInitialized,
            },
    {
        match &self.metadata {
            Some(m) => Ok(&m.symbol),
            None => Err(TokenError::NotInitialized),
        }
    }

    /// The audit log, oldest event first.
    pub fn events(&self) -> (r: &Vec<TokenEvent>)
        ensures
            r@ == self.events@,
    {
        &self.events
    }

    /// The sum of all balances. Only `mint` moves it upward, and only by
    /// exactly the minted amount, so a caller can check here that a mint has
    /// room before asking for it.
    pub fn total_supply(&self) -> (r: i128)
        requires
            self.well_formed(),
        ensures
            r as int == self.spec_supply(),
    {
        sum_balances(&self.balances)
    }

    /// Moves `amount` from `from` to `to`. Demands a proof from `from`; both
    /// parties must be authorized and `from` funded. Debit and credit are
    /// atomic: on any failure no balance changes. The total supply is
    /// conserved.
    pub fn transfer(&mut self, caller: u64, from: u64, to: u64, amount: i128) -> (r: Result<
        (),
        TokenError,
    >)
        requires
            old(self).well_formed(),
        ensures
            final(self).well_formed(),
            match old(self).transfer_err(caller, from, to, amount) {
                Some(e) => r == Err::<(), TokenError>(e) && *final(self) == *old(self),
                None => {
                    &&& r == Ok::<(), TokenError>(())
                    &&& forall|h: u64|
                        final(self).spec_balance(h) == old(self).spec_balance(h) + (if h == to {
                            amount as int
                        } else {
                            0
                        }) - (if h == from {
                            amount as int
                        } else {
                            0
                        })
                    &&& forall|h: u64| final(self).spec_authorized(h) == old(self).spec_authorized(h)
                    &&& final(self).admin == old(self).admin
                    &&& final(self).metadata == old(self).metadata
                    &&& final(self).events@ == old(self).events@.push(
                        (TokenEvent::Transfer { from, to, amount }),
                    )
                    &&& final(self).spec_supply() == old(self).spec_supply()
                },
            },
    {
        if caller != from {
            return Err(TokenError::Unauthorized);
        }
        if amount < 0 {
            return Err(TokenError::NegativeAmount);
        }
        if !is_authorized(&self.auth_flags, from) {
            return Err(TokenError::Deauthorized);
        }
        let bal_from: i128 = read_balance(&self.balances, from);
        if bal_from < amount {
            return Err(TokenError::InsufficientBalance);
        }
        if !is_authorized(&self.auth_flags, to) {
            return Err(TokenError::Deauthorized);
        }
        proof {
            lemma_lookup_nonneg(self.balances@, to);
            if from != to {
                lemma_two_lookups_le_sum(self.balances@, from, to);
            } else {
                lemma_lookup_le_sum(self.balances@, from);
            }
        }
        write_balance(&mut self.balances, from, bal_from - amount);
        let bal_to: i128 = read_balance(&self.balances, to);
        write_balance(&mut self.balances, to, bal_to + amount);
        self.events.push(TokenEvent::Transfer { from, to, amount });
        Ok(())
    }

    /// Destroys `amount` of `from`'s balance. Demands a proof from `from`,
    /// who must be authorized and funded. The total supply shrinks by exactly
    /// the burnt amount.
    pub fn burn(&mut self, caller: u64, from: u64, amount: i128) -> (r: Result<(), TokenError>)
        requires
            old(self).well_formed(),
        ensures
            final(self).well_formed(),
            match old(self).burn_err(caller, from, amount) {
                Some(e) => r == Err::<(), TokenError>(e) && *final(self) == *old(self),
                None => {
                    &&& r == Ok::<(), TokenError>(())
                    &&& forall|h: u64|
                        final(self).spec_balance(h) == old(self).spec_balance(h) - (if h == from {
                            amount as int
                        } else {
                            0
                        })
                    &&& forall|h: u64| final(self).spec_authorized(h) == old(self).spec_authorized(h)
                    &&& final(self).admin == old(self).admin
                    &&& final(self).metadata == old(self).metadata
                    &&& final(self).events@ == old(self).events@.push(
                        (TokenEvent::Burn { from, amount }),
                    )
                    &&& final(self).spec_supply() == old(self).spec_supply() - amount
                },
            },
    {
        if caller != from {
            return Err(TokenError::Unauthorized);
        }
        if amount < 0 {
            return Err(TokenError::NegativeAmount);
        }
        if !is_authorized(&self.auth_flags, from) {
            return Err(TokenError::Deauthorized);
        }
        let bal_from: i128 = read_balance(&self.balances, from);
        if bal_from < amount {
            return Err(TokenError::InsufficientBalance);
        }
        write_balance(&mut self.balances, from, bal_from - amount);
        self.events.push(TokenEvent::Burn { from, amount });
        Ok(())
    }

    /// Creates `amount` new units on `to`'s balance. Demands a proof from the
    /// current administrator; the recipient must be authorized. The total
    /// supply grows by exactly the minted amount, and must keep fitting a
    /// signed 128-bit amount.
    pub fn mint(&mut self, caller: u64, to: u64, amount: i128) -> (r: Result<(), TokenError>)
        requires
            old(self).well_formed(),
            old(self).mint_err(caller, to, amount) is None ==> old(self).spec_supply() + amount
                <= i128::MAX,
        ensures
            final(self).well_formed(),
            match old(self).mint_err(caller, to, amount) {
                Some(e) => r == Err::<(), TokenError>(e) && *final(self) == *old(self),
                None => {
                    &&& r == Ok::<(), TokenError>(())
                    &&& forall|h: u64|
                        final(self).spec_balance(h) == old(self).spec_balance(h) + (if h == to {
                            amount as int
                        } else {
                            0
                        })
                    &&& forall|h: u64| final(self).spec_authorized(h) == old(self).spec_authorized(h)
                    &&& final(self).admin == old(self).admin
                    &&& final(self).metadata == old(self).metadata
                    &&& final(self).events@ == old(self).events@.push(
                        (TokenEvent::Mint { admin: caller, to, amount }),
                    )
                    &&& final(self).spec_supply() == old(self).spec_supply() + amount
                },
            },
    {
        if amount < 0 {
            return Err(TokenError::NegativeAmount);
        }
        let admin: u64 = match self.admin {
            Some(a) => a,
            None => { return Err(TokenError::NotInitialized) },
        };
        if caller != admin {
            return Err(TokenError::Unauthorized);
        }
        if !is_authorized(&self.auth_flags, to) {
            return Err(TokenError::Deauthorized);
        }
        let bal_to: i128 = read_balance(&self.balances, to);
        proof {
            lemma_lookup_nonneg(self.balances@, to);
            lemma_lookup_le_sum(self.balances@, to);
        }
        write_balance(&mut self.balances, to, bal_to + amount);
        self.events.push(TokenEvent::Mint { admin: caller, to, amount });
        Ok(())
    }

    /// The administrator's forced debit: destroys `amount` of `from`'s
    /// balance without `from`'s consent, and regardless of `from`'s
    /// authorization state. Demands a proof from the current administrator.
    pub fn clawback(&mut self, caller: u64, from: u64, amount: i128) -> (r: Result<
        (),
        TokenError,
    >)
        requires
            old(self).well_formed(),
        ensures
            final(self).well_formed(),
            match old(self).clawback_err(caller, from, amount) {
                Some(e) => r == Err::<(), TokenError>(e) && *final(self) == *old(self),
                None => {
                    &&& r == Ok::<(), TokenError>(())
                    &&& forall|h: u64|
                        final(self).spec_balance(h) == old(self).spec_balance(h) - (if h == from {
                            amount as int
                        } else {
                            0
                        })
                    &&& forall|h: u64| final(self).spec_authorized(h) == old(self).spec_authorized(h)
                    &&& final(self).admin == old(self).admin
                    &&& final(self).metadata == old(self).metadata
                    &&& final(self).events@ == old(self).events@.push(
                        (TokenEvent::Clawback { admin: caller, from, amount }),
                    )
                    &&& final(self).spec_supply() == old(self).spec_supply() - amount
                },
            },
    {
        if amount < 0 {
            return Err(TokenError::NegativeAmount);
        }
        let admin: u64 = match self.admin {
            Some(a) => a,
            None => { return Err(TokenError::NotInitialized) },
        };
        if caller != admin {
            return Err(TokenError::Unauthorized);
        }
        let bal_from: i128 = read_balance(&self.balances, from);
        if bal_from < amount {
            return Err(TokenError::InsufficientBalance);
        }
        write_balance(&mut self.balances, from, bal_from - amount);
        self.events.push(TokenEvent::Clawback { admin: caller, from, amount });
        Ok(())
    }

    /// Overwrites `id`'s authorization flag. Demands a proof from the current
    /// administrator. No balance changes.
    pub fn set_authorized(&mut self, caller: u64, id: u64, authorize: bool) -> (r: Result<
        (),
        TokenError,
    >)
        requires
            old(self).well_formed(),
        ensures
            final(self).well_formed(),
            match old(self).set_authorized_err(caller) {
                Some(e) => r == Err::<(), TokenError>(e) && *final(self) == *old(self),
                None => {
                    &&& r == Ok::<(), TokenError>(())
                    &&& forall|h: u64|
                        final(self).spec_authorized(h) == (if h == id {
                            authorize
                        } else {
                            old(self).spec_authorized(h)
                        })
                    &&& forall|h: u64| final(self).spec_balance(h) == old(self).spec_balance(h)
                    &&& final(self).admin == old(self).admin
                    &&& final(self).metadata == old(self).metadata
                    &&& final(self).events@ == old(self).events@.push(
                        (TokenEvent::SetAuthorized { admin: caller, id, authorize }),
                    )
                    &&& final(self).spec_supply() == old(self).spec_supply()
                },
            },
    {
        let admin: u64 = match self.admin {
            Some(a) => a,
            None => { return Err(TokenError::NotInitialized) },
        };
        if caller != admin {
            return Err(TokenError::Unauthorized);
        }
        write_authorization(&mut self.auth_flags, id, authorize);
        self.events.push(TokenEvent::SetAuthorized { admin: caller, id, authorize });
        Ok(())
    }

    /// Hands the administrator role to `new_admin`. Demands a proof from the
    /// current administrator; thereafter only `new_admin` holds the role.
    pub fn set_admin(&mut self, caller: u64, new_admin: u64) -> (r: Result<(), TokenError>)
        requires
            old(self).well_formed(),
        ensures
            final(self).well_formed(),
            match old(self).set_admin_err(caller) {
                Some(e) => r == Err::<(), TokenError>(e) && *final(self) == *old(self),
                None => {
                    &&& r == Ok::<(), TokenError>(())
                    &&& final(self).admin == Some(new_admin)
                    &&& forall|h: u64| final(self).spec_balance(h) == old(self).spec_balance(h)
                    &&& forall|h: u64| final(self).spec_authorized(h) == old(self).spec_authorized(h)
                    &&& final(self).metadata == old(self).metadata
                    &&& final(self).events@ == old(self).events@.push(
                        (TokenEvent::SetAdmin { admin: caller, new_admin }),
                    )
                    &&& final(self).spec_supply() == old(self).spec_supply()
                },
            },
    {
        let admin: u64 = match self.admin {
            Some(a) => a,
            None => { return Err(TokenError::NotInitialized) },
        };
        if caller != admin {
            return Err(TokenError::Unauthorized);
        }
        self.admin = Some(new_admin);
        self.events.push(TokenEvent::SetAdmin { admin: caller, new_admin });
        Ok(())
    }
}

} // verus!
