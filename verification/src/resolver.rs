//! Resolution of platform class names, imports, static fields and instance methods.
use vstd::prelude::*;
use vstd::string::*;
use crate::calls;
use crate::opcodes::INVOKEVIRTUAL;
use crate::platform::{self, package_name_of, platform_classes, simple_name};
use crate::sig::tys_view;
use crate::text::{replace_char, replace_char_exec};
use crate::ty::{Ty, TyModel};

verus! {

/// A resolved static field.
#[derive(Debug)]
pub struct FieldRef {
    pub owner: &'static str,
    pub name: &'static str,
    pub descriptor: &'static str,
    pub ty: Ty,
    pub is_static: bool,
}

/// A resolved method, with the instruction that invokes it.
#[derive(Debug)]
pub struct MethodRef {
    pub owner: &'static str,
    pub name: &'static str,
    pub descriptor: String,
    pub return_ty: Ty,
    pub opcode: u8,
    pub is_interface: bool,
}

/// What a resolved method is: owner, name, descriptor and return type.
pub struct MethodModel {
    pub owner: Seq<char>,
    pub name: Seq<char>,
    pub descriptor: Seq<char>,
    pub return_ty: TyModel,
}

impl MethodRef {
    /// The method this reference stands for; it is always a virtual call on a class.
    pub open spec fn model(&self) -> MethodModel {
        MethodModel {
            owner: self.owner@,
            name: self.name@,
            descriptor: self.descriptor@,
            return_ty: self.return_ty@,
        }
    }

    pub open spec fn is_virtual_class_call(&self) -> bool {
        self.opcode == INVOKEVIRTUAL && !self.is_interface
    }
}

/// The platform class with this simple name (first in catalog order).
pub fn resolve_class_name(simple_name: &str) -> (r: Option<&'static str>)
    ensures
        r matches Some(c) ==> exists|i: int|
            0 <= i < platform_classes().len() && platform_classes()[i] == c@
                && platform::simple_name(platform_classes()[i]) == simple_name@ && forall|j: int|
                0 <= j < i ==> platform::simple_name(#[trigger] platform_classes()[j])
                    != simple_name@,
        r is None ==> forall|j: int|
            0 <= j < platform_classes().len() ==> platform::simple_name(
                #[trigger] platform_classes()[j],
            ) != simple_name@,
{
    platform::class_name(simple_name)
}

/// The platform class with this internal name.
pub fn resolve_internal_class_name(internal_name: &str) -> (r: Option<&'static str>)
    ensures
        r matches Some(c) ==> c@ == internal_name@ && platform_classes().contains(c@),
        r is None ==> !platform_classes().contains(internal_name@),
{
    platform::internal_class_name(internal_name)
}

/// Whether some platform class lies in the package.
pub fn known_package(package: &str) -> (r: bool)
    ensures
        r == exists|j: int|
            0 <= j < platform_classes().len() && package_name_of(#[trigger] platform_classes()[j])
                == package@,
{
    platform::package_name(package)
}

/// Resolves an import path: a wildcard import resolves (to the empty string) when
/// its package is known, any other import to the named platform class.
pub fn resolve_import(path: &str, is_wildcard: bool) -> (r: Option<&'static str>)
    ensures
        is_wildcard ==> (r is Some <==> exists|j: int|
            0 <= j < platform_classes().len() && package_name_of(#[trigger] platform_classes()[j])
                == replace_char(path@, '.', '/')),
        is_wildcard && r is Some ==> r->0@ == Seq::<char>::empty(),
        !is_wildcard ==> (r is Some <==> platform_classes().contains(replace_char(path@, '.', '/'))),
        !is_wildcard && r is Some ==> r->0@ == replace_char(path@, '.', '/'),
{
    let internal_name = replace_char_exec(path, '.', '/');
    if is_wildcard {
        if known_package(internal_name.as_str()) {
            proof {
                reveal_strlit("");
            }
            return Some("");
        }
        return None;
    }
    resolve_internal_class_name(internal_name.as_str())
}

/// Resolves a static field of a platform class.
pub fn resolve_static_field(owner: &str, name: &str) -> (r: Option<FieldRef>)
    ensures
        r is Some <==> owner@ == "java/lang/System"@ && name@ == "out"@,
        r matches Some(f) ==> f.owner@ == "java/lang/System"@ && f.name@ == "out"@
            && f.descriptor@ == "Ljava/io/PrintStream;"@ && f.ty@ == TyModel::Class(
            "java/io/PrintStream"@,
        ) && f.is_static,
{
    calls::resolve_static_field(owner, name)
}

/// Resolves an instance method of a platform class by receiver, name and argument types.
pub fn resolve_instance_method(receiver: &Ty, name: &str, args: &[Ty]) -> (r: Option<MethodRef>)
    ensures
        r matches Some(m) ==> calls::known_method(receiver@, name@, tys_view(args@)) == Some(
            m.model(),
        ) && m.is_virtual_class_call(),
        r is None ==> calls::known_method(receiver@, name@, tys_view(args@)) is None,
{
    calls::resolve_instance_method(receiver, name, args)
}

} // verus!
