use vstd::prelude::*;

use crate::models::cask::installed;
use crate::models::formula::base::clone_opt_string;
use crate::models::keg;
use crate::models::keg::StringSet;

verus! {

pub type State = keg::State<Cask, installed::Cask>;

pub type Store = keg::Store<Cask>;

/// The manager-reported descriptive record of a cask. Identity key: `token`.
#[derive(Debug)]
pub struct Cask {
    pub token: String,
    pub tap: String,
    pub desc: Option<String>,
    pub version: String,
    pub caveats: Option<String>,
    pub homepage: Option<String>,
    pub deprecated: bool,
    pub deprecation_reason: Option<String>,
    pub disabled: bool,
    pub disable_reason: Option<String>,
    pub names: StringSet,
}

/// The mathematical value of a base cask record.
pub struct CaskModel {
    pub token: Seq<char>,
    pub tap: Seq<char>,
    pub desc: Option<Seq<char>>,
    pub version: Seq<char>,
    pub caveats: Option<Seq<char>>,
    pub homepage: Option<Seq<char>>,
    pub deprecated: bool,
    pub deprecation_reason: Option<Seq<char>>,
    pub disabled: bool,
    pub disable_reason: Option<Seq<char>>,
    pub names: Seq<Seq<char>>,
}

impl DeepView for Cask {
    type V = CaskModel;

    open spec fn deep_view(&self) -> CaskModel {
        CaskModel {
            token: self.token@,
            tap: self.tap@,
            desc: self.desc.deep_view(),
            version: self.version@,
            caveats: self.caveats.deep_view(),
            homepage: self.homepage.deep_view(),
            deprecated: self.deprecated,
            deprecation_reason: self.deprecation_reason.deep_view(),
            disabled: self.disabled,
            disable_reason: self.disable_reason.deep_view(),
            names: self.names.deep_view(),
        }
    }
}

impl Clone for Cask {
    fn clone(&self) -> (r: Self)
        ensures
            r.deep_view() == self.deep_view(),
    {
        Cask {
            token: self.token.clone(),
            tap: self.tap.clone(),
            desc: clone_opt_string(&self.desc),
            version: self.version.clone(),
            caveats: clone_opt_string(&self.caveats),
            homepage: clone_opt_string(&self.homepage),
            deprecated: self.deprecated,
            deprecation_reason: clone_opt_string(&self.deprecation_reason),
            disabled: self.disabled,
            disable_reason: clone_opt_string(&self.disable_reason),
            names: self.names.clone(),
        }
    }
}

} // verus!
