use vstd::prelude::*;
use crate::table::Record;
use crate::entity::clone_opt_string;
use crate::ids::{AccountId, GeneralLedgerId};

verus! {

/// A general ledger to be created.
#[derive(Clone, Debug, PartialEq, Eq)]
pub struct Model {
    pub name: String,
    pub currency_code: Option<String>,
}

/// A stored general ledger, with its root ledger account.
#[derive(Clone, Debug, PartialEq, Eq)]
pub struct ActiveModel {
    pub id: GeneralLedgerId,
    pub name: String,
    pub root: AccountId,
    pub currency_code: Option<String>,
}

impl ActiveModel {
    /// A copy of the record.
    pub fn duplicate(&self) -> (r: Self)
        ensures
            r == *self,
    {
        ActiveModel {
            id: self.id,
            name: self.name.clone(),
            root: self.root,
            currency_code: clone_opt_string(&self.currency_code),
        }
    }
}


impl Record for ActiveModel {
    type Id = GeneralLedgerId;

    open spec fn spec_id(&self) -> GeneralLedgerId {
        self.id
    }

    fn id_of(&self) -> (r: GeneralLedgerId) {
        self.id
    }

    fn copy_of(&self) -> (r: Self) {
        self.duplicate()
    }
}

} // verus!
