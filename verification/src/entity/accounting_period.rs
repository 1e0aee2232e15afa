use vstd::prelude::*;
use crate::table::Record;
use crate::calendar::Date;
use crate::domain::InterimType;
use crate::ids::PeriodId;

verus! {

/// A fiscal year to be created.
#[derive(Clone, Copy, Debug, PartialEq, Eq, Structural)]
pub struct Model {
    pub fiscal_year: i32,
    pub period_start: Date,
    pub period_type: InterimType,
}

/// A stored fiscal year, with its last day.
#[derive(Clone, Copy, Debug, PartialEq, Eq, Structural)]
pub struct ActiveModel {
    pub id: PeriodId,
    pub fiscal_year: i32,
    pub period_start: Date,
    pub period_end: Date,
    pub period_type: InterimType,
}


impl Record for ActiveModel {
    type Id = PeriodId;

    open spec fn spec_id(&self) -> PeriodId {
        self.id
    }

    fn id_of(&self) -> (r: PeriodId) {
        self.id
    }

    fn copy_of(&self) -> (r: Self) {
        *self
    }
}

} // verus!
