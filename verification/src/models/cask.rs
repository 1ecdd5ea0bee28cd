use vstd::prelude::*;

use crate::models::keg;

pub mod base;
pub mod installed;

verus! {

pub type State = keg::State<Cask, installed::Cask>;

pub type Store = keg::Store<Cask>;

/// A catalog cask: the manager-reported base record, with no enrichment.
#[derive(Debug)]
pub struct Cask {
    pub base: base::Cask,
}

/// The mathematical value of a catalog cask.
pub struct CaskModel {
    pub base: base::CaskModel,
}

impl DeepView for Cask {
    type V = CaskModel;

    open spec fn deep_view(&self) -> CaskModel {
        CaskModel { base: self.base.deep_view() }
    }
}

impl Clone for Cask {
    fn clone(&self) -> (r: Self)
        ensures
            r.deep_view() == self.deep_view(),
    {
        Cask { base: self.base.clone() }
    }
}

} // verus!
