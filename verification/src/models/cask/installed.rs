use vstd::prelude::*;

use crate::models::cask;
use crate::models::keg;
use crate::models::keg::StringSet;

verus! {

pub type Store = keg::Store<Cask>;

/// Token to set of installed version-directory names found under the
/// manager's cask root.
pub type VersionsStore = keg::Store<StringSet>;

/// A catalog cask together with the locally observed evidence that it is
/// installed: the set of installed version-directory names.
#[derive(Debug)]
pub struct Cask {
    pub upstream: cask::Cask,
    pub versions: StringSet,
}

/// The mathematical value of an installed cask.
pub struct CaskModel {
    pub upstream: cask::CaskModel,
    pub versions: Seq<Seq<char>>,
}

impl DeepView for Cask {
    type V = CaskModel;

    open spec fn deep_view(&self) -> CaskModel {
        CaskModel { upstream: self.upstream.deep_view(), versions: self.versions.deep_view() }
    }
}

impl Clone for Cask {
    fn clone(&self) -> (r: Self)
        ensures
            r.deep_view() == self.deep_view(),
    {
        Cask { upstream: self.upstream.clone(), versions: self.versions.clone() }
    }
}

} // verus!
