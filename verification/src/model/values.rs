//! The mathematical image of runtime values.
//!
//! `GVal` mirrors [`crate::object::Object`] over sequences and frame
//! indices; `obj_view` maps each executable value to its image.  The
//! evaluator's specification works entirely on these images.

use crate::model::syntax::{block_view, idents_view, GBlock, GIdent};
use crate::object::{BooleanObj, Object};
use vstd::prelude::*;

verus! {

pub enum GVal {
    Int { n: i64 },
    Bool { b: bool },
    Null,
    /// The unwind sentinel around a returned value.
    Ret { v: Box<GVal> },
    /// A closure: parameters, body, and the index of the captured frame.
    Closure { params: Seq<GIdent>, body: GBlock, env: int },
}

pub open spec fn obj_view(o: Object) -> GVal
    decreases o,
{
    match o {
        Object::Integer(n) => GVal::Int { n },
        Object::Boolean(b) => GVal::Bool { b: b.value },
        Object::Null(_) => GVal::Null,
        Object::Return(r) => GVal::Ret { v: Box::new(obj_view(*r.value)) },
        Object::Function(f) => GVal::Closure {
            params: idents_view(f.parameters@),
            body: block_view(*f.body),
            env: f.env as int,
        },
    }
}

/// The truthiness rule on value images.
pub open spec fn gval_truthy(v: GVal) -> bool {
    match v {
        GVal::Bool { b } => b,
        GVal::Int { n } => n != 0,
        _ => false,
    }
}

/// Truthiness commutes with taking the image.
pub proof fn lemma_truthy_view(o: Object)
    ensures
        crate::object::spec_truthy(o) == gval_truthy(obj_view(o)),
{
}

} // verus!
