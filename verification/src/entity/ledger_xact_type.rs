use vstd::prelude::*;
use crate::domain::LedgerXactTypeCode;

verus! {

/// A stored kind of ledger transaction.
#[derive(Clone, Copy, Debug, PartialEq, Eq, Structural)]
pub struct ActiveModel {
    pub code: LedgerXactTypeCode,
}

} // verus!
