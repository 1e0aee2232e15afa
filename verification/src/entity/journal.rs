use vstd::prelude::*;
use crate::table::Record;
use crate::ids::JournalId;

verus! {

/// A journal to be created.
#[derive(Clone, Debug, PartialEq, Eq)]
pub struct Model {
    pub name: String,
    pub code: String,
}

/// A stored journal.
#[derive(Clone, Debug, PartialEq, Eq)]
pub struct ActiveModel {
    pub id: JournalId,
    pub name: String,
    pub code: String,
}

impl ActiveModel {
    /// A copy of the record.
    pub fn duplicate(&self) -> (r: Self)
        ensures
            r == *self,
    {
        ActiveModel { id: self.id, name: self.name.clone(), code: self.code.clone() }
    }
}


impl Record for ActiveModel {
    type Id = JournalId;

    open spec fn spec_id(&self) -> JournalId {
        self.id
    }

    fn id_of(&self) -> (r: JournalId) {
        self.id
    }

    fn copy_of(&self) -> (r: Self) {
        self.duplicate()
    }
}

} // verus!
