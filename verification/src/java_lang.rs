//! `java.lang` names and members known by the resolver.
use vstd::prelude::*;
use vstd::string::*;
use crate::calls::{method, virtual_method};
use crate::resolver::{FieldRef, MethodModel, MethodRef};
use crate::sig::tys_view;
use crate::text::str_eq;
use crate::ty::{Ty, TyModel, erasure, string_name};

verus! {

/// `String.length()` and `String.charAt(int)`.
pub open spec fn string_method(recv: TyModel, name: Seq<char>, args: Seq<TyModel>) -> Option<MethodModel> {
    match erasure(recv) {
        TyModel::Class(owner) => if owner == string_name() && name == "length"@ && args.len() == 0 {
            Some(method(string_name(), "length"@, "()I"@, TyModel::Int))
        } else if owner == string_name() && name == "charAt"@ && args.len() == 1 && args[0] is Int {
            Some(method(string_name(), "charAt"@, "(I)C"@, TyModel::Char))
        } else {
            None
        },
        _ => None,
    }
}

/// `java.lang` classes known by simple name: `String`.
pub fn class_name(simple_name: &str) -> (r: Option<&'static str>)
    ensures
        r is Some <==> simple_name@ == "String"@,
        r matches Some(c) ==> c@ == string_name(),
{
    if str_eq(simple_name, "String") {
        Some("java/lang/String")
    } else {
        None
    }
}

/// No `java.lang` static field is known here.
pub fn resolve_static_field(owner: &str, name: &str) -> (r: Option<FieldRef>)
    ensures
        r is None,
{
    None
}

pub fn resolve_instance_method(receiver: &Ty, name: &str, args: &[Ty]) -> (r: Option<MethodRef>)
    ensures
        r matches Some(m) ==> string_method(receiver@, name@, tys_view(args@)) == Some(m.model())
            && m.is_virtual_class_call(),
        r is None ==> string_method(receiver@, name@, tys_view(args@)) is None,
{
    let e = receiver.erasure();
    match e {
        Ty::Class(owner) => {
            let o = owner.as_str();
            if str_eq(o, "java/lang/String") && str_eq(name, "length") && args.len() == 0 {
                Some(virtual_method("java/lang/String", "length", String::from_str("()I"), Ty::Int))
            } else if str_eq(o, "java/lang/String") && str_eq(name, "charAt") && args.len() == 1
                && matches!(args[0], Ty::Int) {
                Some(virtual_method("java/lang/String", "charAt", String::from_str("(I)C"), Ty::Char))
            } else {
                None
            }
        },
        _ => None,
    }
}

} // verus!
