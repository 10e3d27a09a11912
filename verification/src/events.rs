use vstd::prelude::*;

verus! {

/// One entry of the append-only audit log. A successful state-changing
/// operation appends exactly one event describing the change; a failed
/// operation appends nothing.
#[derive(Clone, Copy, Debug, PartialEq, Eq, Structural)]
pub enum TokenEvent {
    Transfer { from: u64, to: u64, amount: i128 },
    Mint { admin: u64, to: u64, amount: i128 },
    Burn { from: u64, amount: i128 },
    Clawback { admin: u64, from: u64, amount: i128 },
    SetAuthorized { admin: u64, id: u64, authorize: bool },
    SetAdmin { admin: u64, new_admin: u64 },
}

} // verus!
