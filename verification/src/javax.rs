//! `javax` members: none are known.
use vstd::prelude::*;
use crate::resolver::{FieldRef, MethodRef};
use crate::ty::Ty;

verus! {

pub fn resolve_static_field(owner: &str, name: &str) -> (r: Option<FieldRef>)
    ensures
        r is None,
{
    None
}

pub fn resolve_instance_method(receiver: &Ty, name: &str, args: &[Ty]) -> (r: Option<MethodRef>)
    ensures
        r is None,
{
    None
}

} // verus!
