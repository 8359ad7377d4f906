//! Assignability, primitive conversions, boxing and numeric promotion.
use vstd::prelude::*;
use vstd::string::*;
use crate::text::str_eq;
use crate::ty::{Ty, TyModel, erasure, is_numeric};

verus! {

/// Widening primitive conversion (JLS 5.1.2).
pub open spec fn widening(from: TyModel, to: TyModel) -> bool {
    match from {
        TyModel::Byte => to is Short || to is Int || to is Long || to is Float || to is Double,
        TyModel::Short => to is Int || to is Long || to is Float || to is Double,
        TyModel::Char => to is Int || to is Long || to is Float || to is Double,
        TyModel::Int => to is Long || to is Float || to is Double,
        TyModel::Long => to is Float || to is Double,
        TyModel::Float => to is Double,
        _ => false,
    }
}

/// Narrowing primitive conversion (JLS 5.1.3).
pub open spec fn narrowing(from: TyModel, to: TyModel) -> bool {
    match from {
        TyModel::Short => to is Byte || to is Char,
        TyModel::Char => to is Byte || to is Short,
        TyModel::Int => to is Byte || to is Short || to is Char,
        TyModel::Long => to is Byte || to is Short || to is Char || to is Int,
        TyModel::Float => to is Byte || to is Short || to is Char || to is Int || to is Long,
        TyModel::Double => to is Byte || to is Short || to is Char || to is Int || to is Long
            || to is Float,
        _ => false,
    }
}

/// A value of type `from` may be assigned to a variable of type `to`: equal
/// types, equal erasures, or a widening primitive conversion between erasures.
pub open spec fn assignable(from: TyModel, to: TyModel) -> bool {
    from == to || erasure(from) == erasure(to) || widening(erasure(from), erasure(to))
}

/// The primitive type that a wrapper class unboxes to.
pub open spec fn unboxed(t: TyModel) -> Option<TyModel> {
    match t {
        TyModel::Class(n) => if n == "java/lang/Boolean"@ {
            Some(TyModel::Boolean)
        } else if n == "java/lang/Byte"@ {
            Some(TyModel::Byte)
        } else if n == "java/lang/Character"@ {
            Some(TyModel::Char)
        } else if n == "java/lang/Short"@ {
            Some(TyModel::Short)
        } else if n == "java/lang/Integer"@ {
            Some(TyModel::Int)
        } else if n == "java/lang/Long"@ {
            Some(TyModel::Long)
        } else if n == "java/lang/Float"@ {
            Some(TyModel::Float)
        } else if n == "java/lang/Double"@ {
            Some(TyModel::Double)
        } else {
            None
        },
        _ => None,
    }
}

/// The wrapper class of a primitive type.
pub open spec fn boxed(t: TyModel) -> Option<TyModel> {
    match t {
        TyModel::Boolean => Some(TyModel::Class("java/lang/Boolean"@)),
        TyModel::Byte => Some(TyModel::Class("java/lang/Byte"@)),
        TyModel::Char => Some(TyModel::Class("java/lang/Character"@)),
        TyModel::Short => Some(TyModel::Class("java/lang/Short"@)),
        TyModel::Int => Some(TyModel::Class("java/lang/Integer"@)),
        TyModel::Long => Some(TyModel::Class("java/lang/Long"@)),
        TyModel::Float => Some(TyModel::Class("java/lang/Float"@)),
        TyModel::Double => Some(TyModel::Class("java/lang/Double"@)),
        _ => None,
    }
}

/// Binary numeric promotion (JLS 5.6.2).
pub open spec fn promoted(left: TyModel, right: TyModel) -> Option<TyModel> {
    if !is_numeric(left) || !is_numeric(right) {
        None
    } else if left is Double || right is Double {
        Some(TyModel::Double)
    } else if left is Float || right is Float {
        Some(TyModel::Float)
    } else if left is Long || right is Long {
        Some(TyModel::Long)
    } else {
        Some(TyModel::Int)
    }
}

pub fn is_widening_primitive(from: &Ty, to: &Ty) -> (r: bool)
    ensures
        r == widening(from@, to@),
{
    match from {
        Ty::Byte => matches!(to, Ty::Short | Ty::Int | Ty::Long | Ty::Float | Ty::Double),
        Ty::Short => matches!(to, Ty::Int | Ty::Long | Ty::Float | Ty::Double),
        Ty::Char => matches!(to, Ty::Int | Ty::Long | Ty::Float | Ty::Double),
        Ty::Int => matches!(to, Ty::Long | Ty::Float | Ty::Double),
        Ty::Long => matches!(to, Ty::Float | Ty::Double),
        Ty::Float => matches!(to, Ty::Double),
        _ => false,
    }
}

pub fn is_narrowing_primitive(from: &Ty, to: &Ty) -> (r: bool)
    ensures
        r == narrowing(from@, to@),
{
    match from {
        Ty::Short => matches!(to, Ty::Byte | Ty::Char),
        Ty::Char => matches!(to, Ty::Byte | Ty::Short),
        Ty::Int => matches!(to, Ty::Byte | Ty::Short | Ty::Char),
        Ty::Long => matches!(to, Ty::Byte | Ty::Short | Ty::Char | Ty::Int),
        Ty::Float => matches!(to, Ty::Byte | Ty::Short | Ty::Char | Ty::Int | Ty::Long),
        Ty::Double => matches!(
            to,
            Ty::Byte | Ty::Short | Ty::Char | Ty::Int | Ty::Long | Ty::Float
        ),
        _ => false,
    }
}

pub fn is_assignable(from: &Ty, to: &Ty) -> (r: bool)
    ensures
        r == assignable(from@, to@),
{
    if from.same(to) {
        return true;
    }
    let from_erased = from.erasure();
    let to_erased = to.erasure();
    if from_erased.same(&to_erased) {
        return true;
    }
    is_widening_primitive(&from_erased, &to_erased)
}

pub fn unboxing_type(ty: &Ty) -> (r: Option<Ty>)
    ensures
        r matches Some(p) ==> unboxed(ty@) == Some(p@),
        r is None ==> unboxed(ty@) is None,
{
    match ty {
        Ty::Class(name) => {
            let n = name.as_str();
            if str_eq(n, "java/lang/Boolean") {
                Some(Ty::Boolean)
            } else if str_eq(n, "java/lang/Byte") {
                Some(Ty::Byte)
            } else if str_eq(n, "java/lang/Character") {
                Some(Ty::Char)
            } else if str_eq(n, "java/lang/Short") {
                Some(Ty::Short)
            } else if str_eq(n, "java/lang/Integer") {
                Some(Ty::Int)
            } else if str_eq(n, "java/lang/Long") {
                Some(Ty::Long)
            } else if str_eq(n, "java/lang/Float") {
                Some(Ty::Float)
            } else if str_eq(n, "java/lang/Double") {
                Some(Ty::Double)
            } else {
                None
            }
        },
        _ => None,
    }
}

pub fn boxing_type(ty: &Ty) -> (r: Option<Ty>)
    ensures
        r matches Some(c) ==> boxed(ty@) == Some(c@),
        r is None ==> boxed(ty@) is None,
{
    match ty {
        Ty::Boolean => Some(Ty::Class(String::from_str("java/lang/Boolean"))),
        Ty::Byte => Some(Ty::Class(String::from_str("java/lang/Byte"))),
        Ty::Char => Some(Ty::Class(String::from_str("java/lang/Character"))),
        Ty::Short => Some(Ty::Class(String::from_str("java/lang/Short"))),
        Ty::Int => Some(Ty::Class(String::from_str("java/lang/Integer"))),
        Ty::Long => Some(Ty::Class(String::from_str("java/lang/Long"))),
        Ty::Float => Some(Ty::Class(String::from_str("java/lang/Float"))),
        Ty::Double => Some(Ty::Class(String::from_str("java/lang/Double"))),
        _ => None,
    }
}

pub fn numeric_promotion(left: &Ty, right: &Ty) -> (r: Option<Ty>)
    ensures
        r matches Some(t) ==> promoted(left@, right@) == Some(t@),
        r is None ==> promoted(left@, right@) is None,
{
    if !left.is_numeric() || !right.is_numeric() {
        return None;
    }
    if matches!(left, Ty::Double) || matches!(right, Ty::Double) {
        return Some(Ty::Double);
    }
    if matches!(left, Ty::Float) || matches!(right, Ty::Float) {
        return Some(Ty::Float);
    }
    if matches!(left, Ty::Long) || matches!(right, Ty::Long) {
        return Some(Ty::Long);
    }
    Some(Ty::Int)
}

/// Boxing a primitive and unboxing the result gives the primitive back, and
/// unboxing a wrapper and boxing the result gives the wrapper back.
pub proof fn law_boxing_round_trip(t: TyModel)
    ensures
        boxed(t) matches Some(c) ==> unboxed(c) == Some(t),
        unboxed(t) matches Some(p) ==> boxed(p) == Some(t),
{
    broadcast use vstd::string::group_string_axioms;

    reveal_strlit("java/lang/Boolean");
    reveal_strlit("java/lang/Byte");
    reveal_strlit("java/lang/Character");
    reveal_strlit("java/lang/Short");
    reveal_strlit("java/lang/Integer");
    reveal_strlit("java/lang/Long");
    reveal_strlit("java/lang/Float");
    reveal_strlit("java/lang/Double");
    assert("java/lang/Boolean"@[10] == 'B' && "java/lang/Boolean"@[11] == 'o');
    assert("java/lang/Byte"@[10] == 'B' && "java/lang/Byte"@[11] == 'y');
    assert("java/lang/Character"@[10] == 'C');
    assert("java/lang/Short"@[10] == 'S');
    assert("java/lang/Integer"@[10] == 'I');
    assert("java/lang/Long"@[10] == 'L');
    assert("java/lang/Float"@[10] == 'F');
    assert("java/lang/Double"@[10] == 'D');
}

/// No primitive conversion is both widening and narrowing, and widening is a
/// strict order: irreflexive, asymmetric and transitive.
pub proof fn law_widening_order(a: TyModel, b: TyModel, c: TyModel)
    ensures
        !(widening(a, b) && narrowing(a, b)),
        !widening(a, a),
        widening(a, b) ==> !widening(b, a),
        widening(a, b) && widening(b, c) ==> widening(a, c),
{
}

/// Every assignment is allowed from a type to itself.
pub proof fn law_assignable_reflexive(t: TyModel)
    ensures
        assignable(t, t),
{
}

/// Numeric promotion is symmetric, and both operands are assignable to the
/// promoted type.
pub proof fn law_promotion(a: TyModel, b: TyModel)
    ensures
        promoted(a, b) == promoted(b, a),
        promoted(a, b) matches Some(p) ==> assignable(a, p) && assignable(b, p),
{
}

} // verus!
