use vstd::prelude::*;
use crate::table::Record;
use crate::calendar::Date;
use crate::ids::{InterimPeriodId, PeriodId};

verus! {

/// An interim period of a fiscal year, to be created.
#[derive(Clone, Copy, Debug, PartialEq, Eq, Structural)]
pub struct Model {
    pub parent_id: PeriodId,
    pub start: Date,
    pub end: Date,
}

/// A stored interim period.
#[derive(Clone, Copy, Debug, PartialEq, Eq, Structural)]
pub struct ActiveModel {
    pub id: InterimPeriodId,
    pub parent_id: PeriodId,
    pub start: Date,
    pub end: Date,
}


impl Record for ActiveModel {
    type Id = InterimPeriodId;

    open spec fn spec_id(&self) -> InterimPeriodId {
        self.id
    }

    fn id_of(&self) -> (r: InterimPeriodId) {
        self.id
    }

    fn copy_of(&self) -> (r: Self) {
        *self
    }
}

} // verus!
