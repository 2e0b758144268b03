use vstd::prelude::*;

use crate::types::AccountId;
use crate::types::Balance;

verus! {

/// Log entry recording a movement of `value` units out of `from` into `to`.
/// `from` is `None` only for the construction-time mint. `from` and `to` are
/// the fields a host should index for filtered log queries.
#[derive(Clone, Copy, Debug, PartialEq, Eq)]
pub struct Transfer {
    pub from: Option<AccountId>,
    pub to: Option<AccountId>,
    pub value: Balance,
}

/// Log entry recording that `from` authorized `to` to move up to `value`
/// units out of `from`'s balance. `from` and `to` are the fields a host
/// should index for filtered log queries.
#[derive(Clone, Copy, Debug, PartialEq, Eq)]
pub struct Approval {
    pub from: AccountId,
    pub to: AccountId,
    pub value: Balance,
}

/// One entry of the ledger's event log, in the order emitted.
#[derive(Clone, Copy, Debug, PartialEq, Eq)]
pub enum Event {
    Transfer(Transfer),
    Approval(Approval),
}

} // verus!
