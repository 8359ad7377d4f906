//! `System.out` and `PrintStream.println`.
use vstd::prelude::*;
use vstd::string::*;
use crate::calls;
use crate::resolver::{FieldRef, MethodRef};
use crate::sig::tys_view;
use crate::text::str_eq;
use crate::ty::{Ty, TyModel};

verus! {

/// The `System` class by simple name.
pub fn class_name(simple_name: &str) -> (r: Option<&'static str>)
    ensures
        r is Some <==> simple_name@ == "System"@,
        r matches Some(c) ==> c@ == "java/lang/System"@,
{
    if str_eq(simple_name, "System") {
        Some("java/lang/System")
    } else {
        None
    }
}

/// `System.out`.
pub fn resolve_static_field(owner: &str, name: &str) -> (r: Option<FieldRef>)
    ensures
        r is Some <==> owner@ == "java/lang/System"@ && name@ == "out"@,
        r matches Some(f) ==> f.owner@ == "java/lang/System"@ && f.name@ == "out"@
            && f.descriptor@ == "Ljava/io/PrintStream;"@ && f.ty@ == TyModel::Class(
            "java/io/PrintStream"@,
        ) && f.is_static,
{
    calls::resolve_static_field(owner, name)
}

/// `PrintStream.println` with any arguments.
pub fn resolve_instance_method(receiver: &Ty, name: &str, args: &[Ty]) -> (r: Option<MethodRef>)
    ensures
        r matches Some(m) ==> calls::print_method(receiver@, name@, tys_view(args@)) == Some(
            m.model(),
        ) && m.is_virtual_class_call(),
        r is None ==> calls::print_method(receiver@, name@, tys_view(args@)) is None,
{
    calls::print_instance_method(receiver, name, args)
}

/// The `println` descriptor for the given argument types: `(A...)V`.
pub fn print_stream_descriptor(args: &[Ty]) -> (r: String)
    ensures
        r@ == calls::println_descriptor(tys_view(args@)),
{
    calls::print_stream_descriptor(args)
}

} // verus!
