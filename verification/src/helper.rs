use core::cell::RefCell;
use vstd::prelude::*;

verus! {

#[verifier::external_type_specification]
#[verifier::external_body]
#[verifier::reject_recursive_types(T)]
pub struct ExRefCell<T: ?Sized>(RefCell<T>);

/// Relies on core::cell::RefCell::new: wraps the given value in a fresh cell.
#[verifier::external_body]
fn new_cell<T>(value: T) -> RefCell<T> {
    RefCell::new(value)
}

/// Wraps each item of a vector in its own interior-mutability cell.
///
/// The cells let a caller that keeps such a vector hand out checked borrows
/// item by item; the verified selection functions in [`crate::rand`] work on
/// plain vectors and indices instead and never need the cells.
pub fn refcellify<T>(c: Vec<T>) -> (r: Vec<RefCell<T>>)
    ensures
        r@.len() == c@.len(),
{
    let mut r: Vec<RefCell<T>> = Vec::new();
    for t in it: c.into_iter()
        invariant
            r@.len() == it.index(),
    {
        r.push(new_cell(t));
    }
    r
}

} // verus!
