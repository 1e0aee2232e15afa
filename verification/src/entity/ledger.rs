use vstd::prelude::*;
use crate::table::Record;
use crate::domain::LedgerType;
use crate::entity::clone_opt_string;
use crate::ids::AccountId;

verus! {

/// A ledger account to be created.
#[derive(Clone, Debug, PartialEq, Eq)]
pub struct Model {
    pub ledger_no: String,
    pub ledger_type: LedgerType,
    pub parent_id: Option<AccountId>,
    pub name: String,
    pub currency_code: Option<String>,
}

/// A stored ledger account.
#[derive(Clone, Debug, PartialEq, Eq)]
pub struct ActiveModel {
    pub id: AccountId,
    pub ledger_no: String,
    pub ledger_type: LedgerType,
    pub parent_id: Option<AccountId>,
    pub name: String,
    pub currency_code: Option<String>,
}

/// The stored account that a model becomes under an identifier.
pub open spec fn from_model(model: Model, id: AccountId) -> ActiveModel {
    ActiveModel {
        id,
        ledger_no: model.ledger_no,
        ledger_type: model.ledger_type,
        parent_id: model.parent_id,
        name: model.name,
        currency_code: model.currency_code,
    }
}

impl ActiveModel {
    /// A copy of the record.
    pub fn duplicate(&self) -> (r: Self)
        ensures
            r == *self,
    {
        ActiveModel {
            id: self.id,
            ledger_no: self.ledger_no.clone(),
            ledger_type: self.ledger_type,
            parent_id: self.parent_id,
            name: self.name.clone(),
            currency_code: clone_opt_string(&self.currency_code),
        }
    }

    /// The stored account that a model becomes under an identifier.
    pub fn from_model(model: &Model, id: AccountId) -> (r: Self)
        ensures
            r == from_model(*model, id),
    {
        ActiveModel {
            id,
            ledger_no: model.ledger_no.clone(),
            ledger_type: model.ledger_type,
            parent_id: model.parent_id,
            name: model.name.clone(),
            currency_code: clone_opt_string(&model.currency_code),
        }
    }
}


impl Record for ActiveModel {
    type Id = AccountId;

    open spec fn spec_id(&self) -> AccountId {
        self.id
    }

    fn id_of(&self) -> (r: AccountId) {
        self.id
    }

    fn copy_of(&self) -> (r: Self) {
        self.duplicate()
    }
}

} // verus!
