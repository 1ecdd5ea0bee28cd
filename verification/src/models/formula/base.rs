use vstd::prelude::*;

use crate::models::formula::installed;
use crate::models::keg;
use crate::models::keg::StringSet;

verus! {

pub type State = keg::State<Formula, installed::Formula>;

pub type Store = keg::Store<Formula>;

/// The manager-reported descriptive record of a formula. Identity key: `name`.
#[derive(Debug)]
pub struct Formula {
    pub name: String,
    pub tap: String,
    pub desc: Option<String>,
    pub homepage: Option<String>,
    pub caveats: Option<String>,
    pub build_dependencies: Vec<String>,
    pub dependencies: Vec<String>,
    pub deprecated: bool,
    pub deprecation_reason: Option<String>,
    pub disabled: bool,
    pub disable_reason: Option<String>,
    pub aliases: StringSet,
    pub versions: Versions,
}

/// The mathematical value of a base formula record.
pub struct FormulaModel {
    pub name: Seq<char>,
    pub tap: Seq<char>,
    pub desc: Option<Seq<char>>,
    pub homepage: Option<Seq<char>>,
    pub caveats: Option<Seq<char>>,
    pub build_dependencies: Seq<Seq<char>>,
    pub dependencies: Seq<Seq<char>>,
    pub deprecated: bool,
    pub deprecation_reason: Option<Seq<char>>,
    pub disabled: bool,
    pub disable_reason: Option<Seq<char>>,
    pub aliases: Seq<Seq<char>>,
    pub versions: VersionsModel,
}

impl DeepView for Formula {
    type V = FormulaModel;

    open spec fn deep_view(&self) -> FormulaModel {
        FormulaModel {
            name: self.name@,
            tap: self.tap@,
            desc: self.desc.deep_view(),
            homepage: self.homepage.deep_view(),
            caveats: self.caveats.deep_view(),
            build_dependencies: self.build_dependencies.deep_view(),
            dependencies: self.dependencies.deep_view(),
            deprecated: self.deprecated,
            deprecation_reason: self.deprecation_reason.deep_view(),
            disabled: self.disabled,
            disable_reason: self.disable_reason.deep_view(),
            aliases: self.aliases.deep_view(),
            versions: self.versions.deep_view(),
        }
    }
}

/// Clones an optional string; the copy reads the same.
pub fn clone_opt_string(s: &Option<String>) -> (r: Option<String>)
    ensures
        r.deep_view() == s.deep_view(),
{
    match s {
        Some(v) => Some(v.clone()),
        None => None,
    }
}

/// Clones a list of strings; the copy reads the same, in the same order.
pub fn clone_string_vec(v: &Vec<String>) -> (r: Vec<String>)
    ensures
        r.deep_view() == v.deep_view(),
{
    let r = v.clone();
    proof {
        assert(r.deep_view() =~= v.deep_view());
    }
    r
}

impl Clone for Formula {
    fn clone(&self) -> (r: Self)
        ensures
            r.deep_view() == self.deep_view(),
    {
        Formula {
            name: self.name.clone(),
            tap: self.tap.clone(),
            desc: clone_opt_string(&self.desc),
            homepage: clone_opt_string(&self.homepage),
            caveats: clone_opt_string(&self.caveats),
            build_dependencies: clone_string_vec(&self.build_dependencies),
            dependencies: clone_string_vec(&self.dependencies),
            deprecated: self.deprecated,
            deprecation_reason: clone_opt_string(&self.deprecation_reason),
            disabled: self.disabled,
            disable_reason: clone_opt_string(&self.disable_reason),
            aliases: self.aliases.clone(),
            versions: self.versions.clone(),
        }
    }
}

/// The version pair the manager reports for a formula.
#[derive(Debug)]
pub struct Versions {
    pub stable: String,
    pub head: Option<String>,
}

/// The mathematical value of a version pair.
pub struct VersionsModel {
    pub stable: Seq<char>,
    pub head: Option<Seq<char>>,
}

impl DeepView for Versions {
    type V = VersionsModel;

    open spec fn deep_view(&self) -> VersionsModel {
        VersionsModel { stable: self.stable@, head: self.head.deep_view() }
    }
}

impl Clone for Versions {
    fn clone(&self) -> (r: Self)
        ensures
            r.deep_view() == self.deep_view(),
    {
        Versions { stable: self.stable.clone(), head: clone_opt_string(&self.head) }
    }
}

} // verus!
