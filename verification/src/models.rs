use vstd::prelude::*;

pub mod cask;
pub mod formula;
pub mod keg;

verus! {

/// A pair of views over the two unit kinds, one field per kind.
#[derive(Debug)]
pub struct State<F, C> {
    pub formulae: F,
    pub casks: C,
}

/// A unit of either kind, used where code must handle both without
/// discriminating by kind name (such as an install or uninstall request).
#[derive(Debug)]
pub enum Keg {
    Formula(formula::Formula),
    Cask(cask::Cask),
}

impl From<formula::Formula> for Keg {
    fn from(value: formula::Formula) -> (r: Self)
        ensures
            r == Keg::Formula(value),
    {
        Keg::Formula(value)
    }
}

impl vstd::std_specs::convert::FromSpecImpl<formula::Formula> for Keg {
    open spec fn obeys_from_spec() -> bool {
        true
    }

    open spec fn from_spec(value: formula::Formula) -> Keg {
        Keg::Formula(value)
    }
}

impl From<cask::Cask> for Keg {
    fn from(value: cask::Cask) -> (r: Self)
        ensures
            r == Keg::Cask(value),
    {
        Keg::Cask(value)
    }
}

impl vstd::std_specs::convert::FromSpecImpl<cask::Cask> for Keg {
    open spec fn obeys_from_spec() -> bool {
        true
    }

    open spec fn from_spec(value: cask::Cask) -> Keg {
        Keg::Cask(value)
    }
}

} // verus!
