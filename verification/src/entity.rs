//! The records that the store keeps, one module per resource: `Model` is what
//! a caller hands in, `ActiveModel` what is stored and handed back.
pub mod accounting_period;
pub mod general_ledger;
pub mod interim_accounting_period;
pub mod journal;
pub mod journal_entry;
pub mod journal_transaction;
pub mod journal_transaction_column_account_cr;
pub mod journal_transaction_column_ledger_drcr;
pub mod journal_transaction_line;
pub mod journal_transaction_line_account;
pub mod journal_transaction_line_ledger;
pub mod journal_transaction_record;
pub mod journal_transaction_special_column;
pub mod ledger;
pub mod ledger_intermediate;
pub mod ledger_leaf;
pub mod ledger_line;
pub mod ledger_transaction;
pub mod ledger_xact_type;

use vstd::prelude::*;

verus! {

/// A copy of an optional text.
pub fn clone_opt_string(o: &Option<String>) -> (r: Option<String>)
    ensures
        r == *o,
{
    match o {
        Some(s) => Some(s.clone()),
        None => None,
    }
}

} // verus!
