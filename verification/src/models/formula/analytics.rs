use vstd::prelude::*;

use crate::models::keg;

verus! {

pub type Store = keg::Store<Formula>;

/// The popularity record the manager's analytics report for one formula:
/// a usage count under the formula's name.
#[derive(Debug)]
pub struct Formula {
    pub number: i64,
    pub formula: String,
}

/// The mathematical value of an analytics record.
pub struct FormulaModel {
    pub number: i64,
    pub formula: Seq<char>,
}

impl DeepView for Formula {
    type V = FormulaModel;

    open spec fn deep_view(&self) -> FormulaModel {
        FormulaModel { number: self.number, formula: self.formula@ }
    }
}

impl Clone for Formula {
    fn clone(&self) -> (r: Self)
        ensures
            r.deep_view() == self.deep_view(),
    {
        Formula { number: self.number, formula: self.formula.clone() }
    }
}

} // verus!
