use vstd::prelude::*;

use crate::models::keg;
use crate::models::keg::StringSet;

pub mod analytics;
pub mod base;
pub mod installed;
pub mod receipt;

verus! {

/// Name to set of provided executables, as the remote index reports it.
pub type Executables = keg::Store<StringSet>;

pub type State = keg::State<Formula, installed::Formula>;

pub type Store = keg::Store<Formula>;

/// A catalog formula: the manager-reported base record enriched with the set
/// of executables it provides and an optional popularity record.
#[derive(Debug)]
pub struct Formula {
    pub base: base::Formula,
    pub executables: StringSet,
    pub analytics: Option<analytics::Formula>,
}

/// The mathematical value of a catalog formula.
pub struct FormulaModel {
    pub base: base::FormulaModel,
    pub executables: Seq<Seq<char>>,
    pub analytics: Option<analytics::FormulaModel>,
}

impl DeepView for Formula {
    type V = FormulaModel;

    open spec fn deep_view(&self) -> FormulaModel {
        FormulaModel {
            base: self.base.deep_view(),
            executables: self.executables.deep_view(),
            analytics: self.analytics.deep_view(),
        }
    }
}

impl Clone for Formula {
    fn clone(&self) -> (r: Self)
        ensures
            r.deep_view() == self.deep_view(),
    {
        Formula {
            base: self.base.clone(),
            executables: self.executables.clone(),
            analytics: match &self.analytics {
                Some(a) => Some(a.clone()),
                None => None,
            },
        }
    }
}

impl FormulaModel {
    /// The popularity count a formula is ranked by: its analytics number, or
    /// zero where no analytics record was reported.
    pub open spec fn rank(self) -> int {
        match self.analytics {
            Some(a) => a.number as int,
            None => 0,
        }
    }
}

impl Formula {
    pub fn rank(&self) -> (r: i64)
        ensures
            r as int == self.deep_view().rank(),
    {
        match &self.analytics {
            Some(a) => a.number,
            None => 0,
        }
    }
}

} // verus!
