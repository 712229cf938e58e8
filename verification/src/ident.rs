//! Identifiers: values that can be duplicated and compared.

use vstd::prelude::*;

verus! {

/// A value used as an identifier, or as a type in a theory.
///
/// Comparing two identifiers decides whether they are the same value, and
/// duplicating one yields the same value again.
pub trait Ident: Sized {
    /// Are the two values the same?
    fn same(&self, other: &Self) -> (b: bool)
        ensures
            b == (*self == *other),
    ;

    /// A second copy of the value.
    fn duplicate(&self) -> (r: Self)
        ensures
            r == *self,
    ;
}

impl Ident for u64 {
    fn same(&self, other: &Self) -> (b: bool) {
        *self == *other
    }

    fn duplicate(&self) -> (r: Self) {
        *self
    }
}

impl Ident for usize {
    fn same(&self, other: &Self) -> (b: bool) {
        *self == *other
    }

    fn duplicate(&self) -> (r: Self) {
        *self
    }
}

impl<A: Ident, B: Ident> Ident for (A, B) {
    fn same(&self, other: &Self) -> (b: bool) {
        self.0.same(&other.0) && self.1.same(&other.1)
    }

    fn duplicate(&self) -> (r: Self) {
        (self.0.duplicate(), self.1.duplicate())
    }
}

/// An interned string of the `ustr` crate: a handle to text held in a global cache.
#[verifier::external_type_specification]
#[verifier::external_body]
pub struct ExUstr(ustr::Ustr);

/// Compares two interned strings with `Ustr`'s own `==`.
///
/// `Ustr` derives its equality from its single field, the address of the
/// interned text, so the comparison holds exactly when both handles are the
/// same value.
#[verifier::external_body]
fn ustr_same(a: &ustr::Ustr, b: &ustr::Ustr) -> (r: bool)
    ensures
        r == (*a == *b),
{
    a == b
}

impl Ident for ustr::Ustr {
    fn same(&self, other: &Self) -> (b: bool) {
        ustr_same(self, other)
    }

    fn duplicate(&self) -> (r: Self) {
        *self
    }
}

/// Compares two optional identifiers.
pub fn same_option<T: Ident>(a: &Option<T>, b: &Option<T>) -> (r: bool)
    ensures
        r == (*a == *b),
{
    match (a, b) {
        (Some(x), Some(y)) => x.same(y),
        (None, None) => true,
        _ => false,
    }
}

} // verus!
