//! The platform members the compiler knows how to call.
use vstd::prelude::*;
use vstd::string::*;
use crate::opcodes::INVOKEVIRTUAL;
use crate::resolver::{FieldRef, MethodModel, MethodRef};
use crate::sig::{descriptors, push_descriptors, tys_view};
use crate::text::{push_char, str_eq};
use crate::ty::{Ty, TyModel, erasure, object_name, string_name};

verus! {

pub open spec fn method(owner: Seq<char>, name: Seq<char>, descriptor: Seq<char>, ret: TyModel) -> MethodModel {
    MethodModel { owner, name, descriptor, return_ty: ret }
}

/// The `println` descriptor for the argument types: `(A...)V`.
pub open spec fn println_descriptor(args: Seq<TyModel>) -> Seq<char> {
    seq!['('] + descriptors(args) + ")V"@
}

/// `java.lang` instance methods: `Object.hashCode`, `printStackTrace` on any
/// class (as `Throwable`'s), `String.length` and `String.charAt(int)`.
pub open spec fn lang_method(recv: TyModel, name: Seq<char>, args: Seq<TyModel>) -> Option<MethodModel> {
    match erasure(recv) {
        TyModel::Class(owner) => if owner == object_name() && name == "hashCode"@ && args.len()
            == 0 {
            Some(method(object_name(), "hashCode"@, "()I"@, TyModel::Int))
        } else if name == "printStackTrace"@ && args.len() == 0 {
            Some(method("java/lang/Throwable"@, "printStackTrace"@, "()V"@, TyModel::Void))
        } else if owner == string_name() && name == "length"@ && args.len() == 0 {
            Some(method(string_name(), "length"@, "()I"@, TyModel::Int))
        } else if owner == string_name() && name == "charAt"@ && args.len() == 1 && args[0]
            is Int {
            Some(method(string_name(), "charAt"@, "(I)C"@, TyModel::Char))
        } else {
            None
        },
        _ => None,
    }
}

/// `java.io` instance methods: `FileInputStream.read()` and `close()`.
pub open spec fn io_method(recv: TyModel, name: Seq<char>, args: Seq<TyModel>) -> Option<MethodModel> {
    match erasure(recv) {
        TyModel::Class(owner) => if owner == "java/io/FileInputStream"@ && name == "read"@
            && args.len() == 0 {
            Some(method("java/io/FileInputStream"@, "read"@, "()I"@, TyModel::Int))
        } else if owner == "java/io/FileInputStream"@ && name == "close"@ && args.len() == 0 {
            Some(method("java/io/FileInputStream"@, "close"@, "()V"@, TyModel::Void))
        } else {
            None
        },
        _ => None,
    }
}

/// `PrintStream.println` with any arguments.
pub open spec fn print_method(recv: TyModel, name: Seq<char>, args: Seq<TyModel>) -> Option<MethodModel> {
    match erasure(recv) {
        TyModel::Class(owner) => if owner == "java/io/PrintStream"@ && name == "println"@ {
            Some(method("java/io/PrintStream"@, "println"@, println_descriptor(args), TyModel::Void))
        } else {
            None
        },
        _ => None,
    }
}

/// The known instance methods, tried in this order: `java.lang`, `java.io`, `println`.
pub open spec fn known_method(recv: TyModel, name: Seq<char>, args: Seq<TyModel>) -> Option<MethodModel> {
    match lang_method(recv, name, args) {
        Some(m) => Some(m),
        None => match io_method(recv, name, args) {
            Some(m) => Some(m),
            None => print_method(recv, name, args),
        },
    }
}

pub(crate) fn virtual_method(owner: &'static str, name: &'static str, descriptor: String, ret: Ty) -> (r: MethodRef)
    ensures
        r.model() == method(owner@, name@, descriptor@, ret@),
        r.is_virtual_class_call(),
{
    MethodRef { owner, name, descriptor, return_ty: ret, opcode: INVOKEVIRTUAL, is_interface: false }
}

fn lang_instance_method(receiver: &Ty, name: &str, args: &[Ty]) -> (r: Option<MethodRef>)
    ensures
        r matches Some(m) ==> lang_method(receiver@, name@, tys_view(args@)) == Some(m.model())
            && m.is_virtual_class_call(),
        r is None ==> lang_method(receiver@, name@, tys_view(args@)) is None,
{
    let e = receiver.erasure();
    match e {
        Ty::Class(owner) => {
            let o = owner.as_str();
            if str_eq(o, "java/lang/Object") && str_eq(name, "hashCode") && args.len() == 0 {
                Some(virtual_method("java/lang/Object", "hashCode", String::from_str("()I"), Ty::Int))
            } else if str_eq(name, "printStackTrace") && args.len() == 0 {
                Some(virtual_method("java/lang/Throwable", "printStackTrace", String::from_str("()V"), Ty::Void))
            } else if str_eq(o, "java/lang/String") && str_eq(name, "length") && args.len() == 0 {
                Some(virtual_method("java/lang/String", "length", String::from_str("()I"), Ty::Int))
            } else if str_eq(o, "java/lang/String") && str_eq(name, "charAt") && args.len() == 1
                && matches!(args[0], Ty::Int) {
                Some(virtual_method("java/lang/String", "charAt", String::from_str("(I)C"), Ty::Char))
            } else {
                None
            }
        },
        _ => None,
    }
}

fn io_instance_method(receiver: &Ty, name: &str, args: &[Ty]) -> (r: Option<MethodRef>)
    ensures
        r matches Some(m) ==> io_method(receiver@, name@, tys_view(args@)) == Some(m.model())
            && m.is_virtual_class_call(),
        r is None ==> io_method(receiver@, name@, tys_view(args@)) is None,
{
    let e = receiver.erasure();
    match e {
        Ty::Class(owner) => {
            let o = owner.as_str();
            if str_eq(o, "java/io/FileInputStream") && str_eq(name, "read") && args.len() == 0 {
                Some(virtual_method("java/io/FileInputStream", "read", String::from_str("()I"), Ty::Int))
            } else if str_eq(o, "java/io/FileInputStream") && str_eq(name, "close") && args.len() == 0 {
                Some(virtual_method("java/io/FileInputStream", "close", String::from_str("()V"), Ty::Void))
            } else {
                None
            }
        },
        _ => None,
    }
}

/// The `println` descriptor for the given argument types.
pub fn print_stream_descriptor(args: &[Ty]) -> (r: String)
    ensures
        r@ == println_descriptor(tys_view(args@)),
{
    let v = args_vec(args);
    let mut s = String::new();
    push_char(&mut s, '(');
    push_descriptors(&v, &mut s);
    s.append(")V");
    assert(s@ =~= println_descriptor(tys_view(args@)));
    s
}

fn args_vec(args: &[Ty]) -> (r: Vec<Ty>)
    ensures
        tys_view(r@) == tys_view(args@),
{
    let mut v: Vec<Ty> = Vec::new();
    let mut i: usize = 0;
    while i < args.len()
        invariant
            i <= args@.len(),
            v@.len() == i,
            forall|j: int| 0 <= j < i ==> #[trigger] v@[j]@ == args@[j]@,
        decreases args@.len() - i,
    {
        v.push(args[i].copy());
        i = i + 1;
    }
    assert(tys_view(v@) =~= tys_view(args@));
    v
}

pub(crate) fn print_instance_method(receiver: &Ty, name: &str, args: &[Ty]) -> (r: Option<MethodRef>)
    ensures
        r matches Some(m) ==> print_method(receiver@, name@, tys_view(args@)) == Some(m.model())
            && m.is_virtual_class_call(),
        r is None ==> print_method(receiver@, name@, tys_view(args@)) is None,
{
    let e = receiver.erasure();
    match e {
        Ty::Class(owner) => {
            if str_eq(owner.as_str(), "java/io/PrintStream") && str_eq(name, "println") {
                Some(virtual_method("java/io/PrintStream", "println", print_stream_descriptor(args), Ty::Void))
            } else {
                None
            }
        },
        _ => None,
    }
}

/// Resolves an instance method of a platform class.
pub fn resolve_instance_method(receiver: &Ty, name: &str, args: &[Ty]) -> (r: Option<MethodRef>)
    ensures
        r matches Some(m) ==> known_method(receiver@, name@, tys_view(args@)) == Some(m.model())
            && m.is_virtual_class_call(),
        r is None ==> known_method(receiver@, name@, tys_view(args@)) is None,
{
    match lang_instance_method(receiver, name, args) {
        Some(m) => Some(m),
        None => match io_instance_method(receiver, name, args) {
            Some(m) => Some(m),
            None => print_instance_method(receiver, name, args),
        },
    }
}

/// Resolves a static field of a platform class: `System.out`.
pub fn resolve_static_field(owner: &str, name: &str) -> (r: Option<FieldRef>)
    ensures
        r is Some <==> owner@ == "java/lang/System"@ && name@ == "out"@,
        r matches Some(f) ==> f.owner@ == "java/lang/System"@ && f.name@ == "out"@
            && f.descriptor@ == "Ljava/io/PrintStream;"@ && f.ty@ == TyModel::Class(
            "java/io/PrintStream"@,
        ) && f.is_static,
{
    if str_eq(owner, "java/lang/System") && str_eq(name, "out") {
        Some(FieldRef {
            owner: "java/lang/System",
            name: "out",
            descriptor: "Ljava/io/PrintStream;",
            ty: Ty::Class(String::from_str("java/io/PrintStream")),
            is_static: true,
        })
    } else {
        None
    }
}

} // verus!
