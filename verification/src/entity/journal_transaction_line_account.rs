use vstd::prelude::*;
use crate::calendar::Timestamp;
use crate::domain::{PostingRef, TransactionState, XactType};
use crate::ids::{AccountId, JournalId};

verus! {

/// A stored line of a journal transaction that names a subsidiary account.
#[derive(Clone, Copy, Debug, PartialEq, Eq, Structural)]
pub struct ActiveModel {
    pub journal_id: JournalId,
    pub timestamp: Timestamp,
    pub account_id: AccountId,
    pub xact_type: XactType,
    pub amount: i64,
    pub state: TransactionState,
    pub posting_ref: Option<PostingRef>,
}

} // verus!
