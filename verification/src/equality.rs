//! Equality of models with `==`.

use vstd::prelude::*;
use vstd::std_specs::cmp::PartialEqSpecImpl;
use crate::ident::Ident;
use crate::model::DiscreteDblModel;
use crate::tab_model::DiscreteTabModel;
use crate::theory::DblTheory;

verus! {

impl<Id: Ident, Th: DblTheory> PartialEq for DiscreteDblModel<Id, Th> {
    /// Two models are equal if they are bound to the same shared theory and
    /// hold the same data.
    fn eq(&self, other: &Self) -> (r: bool) {
        self.same_model(other)
    }
}

impl<Id: Ident, Th: DblTheory> PartialEqSpecImpl for DiscreteDblModel<Id, Th> {
    /// Whether two models share their theory is a matter of pointers, of
    /// which contracts cannot speak: `==` promises nothing in them.
    open spec fn obeys_eq_spec() -> bool {
        false
    }

    open spec fn eq_spec(&self, other: &Self) -> bool {
        self.theory_of() == other.theory_of() && self@.same_data(other@)
    }
}

impl<Id: Ident, ThId: Ident> PartialEq for DiscreteTabModel<Id, ThId> {
    /// Two models are equal if they are bound to the same shared theory and
    /// hold the same data.
    fn eq(&self, other: &Self) -> (r: bool) {
        self.same_model(other)
    }
}

impl<Id: Ident, ThId: Ident> PartialEqSpecImpl for DiscreteTabModel<Id, ThId> {
    /// Whether two models share their theory is a matter of pointers, of
    /// which contracts cannot speak: `==` promises nothing in them.
    open spec fn obeys_eq_spec() -> bool {
        false
    }

    open spec fn eq_spec(&self, other: &Self) -> bool {
        self.theory_of() == other.theory_of() && self@.same_data(other@)
    }
}

} // verus!
