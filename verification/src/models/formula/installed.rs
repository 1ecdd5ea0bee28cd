use vstd::prelude::*;

use crate::models::formula;
use crate::models::formula::receipt;
use crate::models::keg;

verus! {

pub type Store = keg::Store<Formula>;

/// A catalog formula together with the locally observed evidence that it is
/// installed: its parsed installation receipt.
#[derive(Debug)]
pub struct Formula {
    pub upstream: formula::Formula,
    pub receipt: receipt::Receipt,
}

/// The mathematical value of an installed formula.
pub struct FormulaModel {
    pub upstream: formula::FormulaModel,
    pub receipt: receipt::ReceiptModel,
}

impl DeepView for Formula {
    type V = FormulaModel;

    open spec fn deep_view(&self) -> FormulaModel {
        FormulaModel { upstream: self.upstream.deep_view(), receipt: self.receipt.deep_view() }
    }
}

impl Clone for Formula {
    fn clone(&self) -> (r: Self)
        ensures
            r.deep_view() == self.deep_view(),
    {
        Formula { upstream: self.upstream.clone(), receipt: self.receipt.clone() }
    }
}

} // verus!
