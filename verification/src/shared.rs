//! Shared-handle helper.
//!
//! Parameter lists, function bodies and runtime values are passed by
//! reference-counted handle, as the surface design asks; cloning such a
//! handle shares the value instead of copying it.

use std::rc::Rc;
use vstd::prelude::*;

verus! {

/// Relies on `Rc::clone`: the returned handle refers to the same allocation,
/// so it carries the same value.
#[verifier::external_body]
pub fn rc_clone<T>(v: &Rc<T>) -> (res: Rc<T>)
    ensures
        res == *v,
{
    Rc::clone(v)
}

} // verus!
