//! Validation results: success, or a non-empty list of errors.

use vstd::prelude::*;

verus! {

/// The non-empty vector of the `nonempty` crate: a first element and a vector of further ones.
#[verifier::external_type_specification]
#[verifier::reject_recursive_types(T)]
pub struct ExNonEmpty<T>(nonempty::NonEmpty<T>);

/// The elements of a non-empty vector, in order.
pub open spec fn elements<T>(errs: nonempty::NonEmpty<T>) -> Seq<T> {
    seq![errs.head] + errs.tail@
}

/// Succeeds if there are no errors, and fails with all of them otherwise.
pub fn wrap_errors<T>(errs: Vec<T>) -> (r: Result<(), nonempty::NonEmpty<T>>)
    ensures
        match r {
            Ok(_) => errs@.len() == 0,
            Err(es) => errs@.len() > 0 && elements(es) == errs@,
        },
{
    let mut errs = errs;
    if errs.len() == 0 {
        Ok(())
    } else {
        let ghost all = errs@;
        let head = errs.remove(0);
        let es = nonempty::NonEmpty { head, tail: errs };
        assert(elements(es) =~= all);
        Err(es)
    }
}

} // verus!
