use vstd::prelude::*;
use crate::ids::AccountId;

verus! {

/// The mark that the account `id` is an intermediate ledger account, to be created.
#[derive(Clone, Copy, Debug, PartialEq, Eq, Structural)]
pub struct Model {
    pub id: AccountId,
}

/// The stored mark that the account `id` is an intermediate ledger account.
#[derive(Clone, Copy, Debug, PartialEq, Eq, Structural)]
pub struct ActiveModel {
    pub id: AccountId,
}

} // verus!
