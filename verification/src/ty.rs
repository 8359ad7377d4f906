//! Java types as seen by the compiler, with their erasure and JVM descriptors.
use vstd::prelude::*;
use vstd::string::*;
use crate::text::{push_char, str_eq};

verus! {

/// A Java type.
#[derive(Debug)]
pub enum Ty {
    Void,
    Boolean,
    Byte,
    Char,
    Short,
    Int,
    Long,
    Float,
    Double,
    /// A class or interface type, by internal name (`java/lang/String`).
    Class(String),
    Array(Box<Ty>),
    /// A type variable, by name.
    TypeVar(String),
    /// A wildcard with an optional upper bound.
    Wildcard(Option<Box<Ty>>),
    /// An intersection `A & B`.
    Intersection(Box<Ty>, Box<Ty>),
}

/// A type parameter with its bounds.
#[derive(Debug)]
pub struct TypeParam {
    pub name: String,
    pub bounds: Vec<Ty>,
}

/// The mathematical model of a `Ty`: names are character sequences.
pub enum TyModel {
    Void,
    Boolean,
    Byte,
    Char,
    Short,
    Int,
    Long,
    Float,
    Double,
    Class(Seq<char>),
    Array(Box<TyModel>),
    TypeVar(Seq<char>),
    Wildcard(Option<Box<TyModel>>),
    Intersection(Box<TyModel>, Box<TyModel>),
}

pub open spec fn ty_view(t: Ty) -> TyModel
    decreases t,
{
    match t {
        Ty::Void => TyModel::Void,
        Ty::Boolean => TyModel::Boolean,
        Ty::Byte => TyModel::Byte,
        Ty::Char => TyModel::Char,
        Ty::Short => TyModel::Short,
        Ty::Int => TyModel::Int,
        Ty::Long => TyModel::Long,
        Ty::Float => TyModel::Float,
        Ty::Double => TyModel::Double,
        Ty::Class(n) => TyModel::Class(n@),
        Ty::Array(e) => TyModel::Array(Box::new(ty_view(*e))),
        Ty::TypeVar(n) => TyModel::TypeVar(n@),
        Ty::Wildcard(b) => match b {
            Some(b) => TyModel::Wildcard(Some(Box::new(ty_view(*b)))),
            None => TyModel::Wildcard(None),
        },
        Ty::Intersection(a, b) => TyModel::Intersection(
            Box::new(ty_view(*a)),
            Box::new(ty_view(*b)),
        ),
    }
}

impl View for Ty {
    type V = TyModel;

    open spec fn view(&self) -> TyModel {
        ty_view(*self)
    }
}

pub open spec fn object_name() -> Seq<char> {
    "java/lang/Object"@
}

pub open spec fn string_name() -> Seq<char> {
    "java/lang/String"@
}

/// Primitive numeric types (not boolean, not void).
pub open spec fn is_numeric(t: TyModel) -> bool {
    match t {
        TyModel::Byte | TyModel::Short | TyModel::Char | TyModel::Int | TyModel::Long
        | TyModel::Float | TyModel::Double => true,
        _ => false,
    }
}

/// Primitive types including boolean (not void).
pub open spec fn is_primitive(t: TyModel) -> bool {
    is_numeric(t) || t is Boolean
}

/// Reference types: what `null` and references inhabit.
pub open spec fn is_reference(t: TyModel) -> bool {
    match t {
        TyModel::Class(_) | TyModel::Array(_) | TyModel::TypeVar(_) | TyModel::Wildcard(_)
        | TyModel::Intersection(_, _) => true,
        _ => false,
    }
}

/// Erasure: type variables and wildcards become their bound (or `Object`),
/// an intersection becomes its first component.
pub open spec fn erasure(t: TyModel) -> TyModel
    decreases t,
{
    match t {
        TyModel::Array(e) => TyModel::Array(Box::new(erasure(*e))),
        TyModel::TypeVar(_) => TyModel::Class(object_name()),
        TyModel::Wildcard(b) => match b {
            Some(b) => erasure(*b),
            None => TyModel::Class(object_name()),
        },
        TyModel::Intersection(a, _) => erasure(*a),
        _ => t,
    }
}

/// An erased type contains no type variables, wildcards or intersections.
pub open spec fn is_erased(t: TyModel) -> bool
    decreases t,
{
    match t {
        TyModel::Array(e) => is_erased(*e),
        TyModel::TypeVar(_) | TyModel::Wildcard(_) | TyModel::Intersection(_, _) => false,
        _ => true,
    }
}

/// The JVM field descriptor of an erased type.
pub open spec fn erased_descriptor(t: TyModel) -> Seq<char>
    decreases t,
{
    match t {
        TyModel::Void => seq!['V'],
        TyModel::Boolean => seq!['Z'],
        TyModel::Byte => seq!['B'],
        TyModel::Char => seq!['C'],
        TyModel::Short => seq!['S'],
        TyModel::Int => seq!['I'],
        TyModel::Long => seq!['J'],
        TyModel::Float => seq!['F'],
        TyModel::Double => seq!['D'],
        TyModel::Class(n) => seq!['L'] + n + seq![';'],
        TyModel::Array(e) => seq!['['] + erased_descriptor(*e),
        _ => seq!['L'] + object_name() + seq![';'],
    }
}

/// The JVM descriptor of a type: that of its erasure.
pub open spec fn descriptor(t: TyModel) -> Seq<char> {
    erased_descriptor(erasure(t))
}

/// Number of JVM local-variable / operand-stack slots a value of the type takes.
pub open spec fn slot_size(t: TyModel) -> nat {
    match t {
        TyModel::Void => 0,
        TyModel::Long | TyModel::Double => 2,
        _ => 1,
    }
}

/// The internal name used by `new`, `checkcast` and friends: a class's name,
/// or the descriptor of any other type.
pub open spec fn internal_name(t: TyModel) -> Seq<char> {
    match erasure(t) {
        TyModel::Class(n) => n,
        e => erased_descriptor(e),
    }
}

pub proof fn lemma_erasure_is_erased(t: TyModel)
    ensures
        is_erased(erasure(t)),
    decreases t,
{
    match t {
        TyModel::Array(e) => lemma_erasure_is_erased(*e),
        TyModel::Wildcard(b) => match b {
            Some(b) => lemma_erasure_is_erased(*b),
            None => {},
        },
        TyModel::Intersection(a, _) => lemma_erasure_is_erased(*a),
        _ => {},
    }
}

pub proof fn lemma_erasure_of_erased(t: TyModel)
    requires
        is_erased(t),
    ensures
        erasure(t) == t,
    decreases t,
{
    match t {
        TyModel::Array(e) => lemma_erasure_of_erased(*e),
        _ => {},
    }
}

/// Erasure is idempotent, so a descriptor does not change when the type is erased first.
pub proof fn law_erasure_idempotent(t: TyModel)
    ensures
        erasure(erasure(t)) == erasure(t),
        descriptor(erasure(t)) == descriptor(t),
{
    lemma_erasure_is_erased(t);
    lemma_erasure_of_erased(erasure(t));
}

proof fn lemma_view_tags(t: &Ty)
    ensures
        (t@ is Void) == (*t is Void),
        (t@ is Boolean) == (*t is Boolean),
        (t@ is Byte) == (*t is Byte),
        (t@ is Char) == (*t is Char),
        (t@ is Short) == (*t is Short),
        (t@ is Int) == (*t is Int),
        (t@ is Long) == (*t is Long),
        (t@ is Float) == (*t is Float),
        (t@ is Double) == (*t is Double),
        (t@ is Class) == (*t is Class),
        (t@ is Array) == (*t is Array),
        (t@ is TypeVar) == (*t is TypeVar),
        (t@ is Wildcard) == (*t is Wildcard),
        (t@ is Intersection) == (*t is Intersection),
{
    match *t {
        Ty::Wildcard(b) => match b {
            Some(_) => {},
            None => {},
        },
        _ => {},
    }
}

impl Clone for Ty {
    fn clone(&self) -> (r: Self)
        ensures
            r@ == self@,
    {
        self.copy()
    }
}

impl Ty {
    /// `java/lang/Object` as a class type.
    pub fn object() -> (r: Ty)
        ensures
            r@ == TyModel::Class(object_name()),
    {
        Ty::Class(String::from_str("java/lang/Object"))
    }

    /// `java/lang/String` as a class type.
    pub fn string() -> (r: Ty)
        ensures
            r@ == TyModel::Class(string_name()),
    {
        Ty::Class(String::from_str("java/lang/String"))
    }

    /// A copy of the type with the same model.
    pub fn copy(&self) -> (r: Ty)
        ensures
            r@ == self@,
        decreases self,
    {
        match self {
            Ty::Void => Ty::Void,
            Ty::Boolean => Ty::Boolean,
            Ty::Byte => Ty::Byte,
            Ty::Char => Ty::Char,
            Ty::Short => Ty::Short,
            Ty::Int => Ty::Int,
            Ty::Long => Ty::Long,
            Ty::Float => Ty::Float,
            Ty::Double => Ty::Double,
            Ty::Class(n) => Ty::Class(n.clone()),
            Ty::Array(e) => Ty::Array(Box::new((**e).copy())),
            Ty::TypeVar(n) => Ty::TypeVar(n.clone()),
            Ty::Wildcard(b) => match b {
                Some(b) => Ty::Wildcard(Some(Box::new((**b).copy()))),
                None => Ty::Wildcard(None),
            },
            Ty::Intersection(a, b) => Ty::Intersection(
                Box::new((**a).copy()),
                Box::new((**b).copy()),
            ),
        }
    }

    /// Structural equality of types, by model.
    pub fn same(&self, other: &Ty) -> (r: bool)
        ensures
            r == (self@ == other@),
        decreases self,
    {
        proof {
            lemma_view_tags(self);
            lemma_view_tags(other);
        }
        match self {
            Ty::Void => match other {
                Ty::Void => true,
                _ => false,
            },
            Ty::Boolean => match other {
                Ty::Boolean => true,
                _ => false,
            },
            Ty::Byte => match other {
                Ty::Byte => true,
                _ => false,
            },
            Ty::Char => match other {
                Ty::Char => true,
                _ => false,
            },
            Ty::Short => match other {
                Ty::Short => true,
                _ => false,
            },
            Ty::Int => match other {
                Ty::Int => true,
                _ => false,
            },
            Ty::Long => match other {
                Ty::Long => true,
                _ => false,
            },
            Ty::Float => match other {
                Ty::Float => true,
                _ => false,
            },
            Ty::Double => match other {
                Ty::Double => true,
                _ => false,
            },
            Ty::Class(a) => match other {
                Ty::Class(b) => str_eq(a.as_str(), b.as_str()),
                _ => false,
            },
            Ty::TypeVar(a) => match other {
                Ty::TypeVar(b) => str_eq(a.as_str(), b.as_str()),
                _ => false,
            },
            Ty::Array(a) => match other {
                Ty::Array(b) => (**a).same(&**b),
                _ => false,
            },
            Ty::Wildcard(a) => match other {
                Ty::Wildcard(b) => match (a, b) {
                    (Some(a), Some(b)) => (**a).same(&**b),
                    (None, None) => true,
                    _ => false,
                },
                _ => false,
            },
            Ty::Intersection(a1, b1) => match other {
                Ty::Intersection(a2, b2) => (**a1).same(&**a2) && (**b1).same(&**b2),
                _ => false,
            },
        }
    }

    /// Whether this is the class type with the given internal name.
    pub fn is_class_named(&self, name: &str) -> (r: bool)
        ensures
            r == (self@ == TyModel::Class(name@)),
    {
        match self {
            Ty::Class(n) => str_eq(n.as_str(), name),
            _ => false,
        }
    }

    pub fn is_numeric(&self) -> (r: bool)
        ensures
            r == is_numeric(self@),
    {
        match self {
            Ty::Byte | Ty::Short | Ty::Char | Ty::Int | Ty::Long | Ty::Float | Ty::Double => true,
            _ => false,
        }
    }

    pub fn is_primitive(&self) -> (r: bool)
        ensures
            r == is_primitive(self@),
    {
        match self {
            Ty::Boolean | Ty::Byte | Ty::Short | Ty::Char | Ty::Int | Ty::Long | Ty::Float
            | Ty::Double => true,
            _ => false,
        }
    }

    /// The erasure of the type.
    pub fn erasure(&self) -> (r: Ty)
        ensures
            r@ == erasure(self@),
        decreases self,
    {
        match self {
            Ty::Array(e) => Ty::Array(Box::new((**e).erasure())),
            Ty::TypeVar(_) => Ty::object(),
            Ty::Wildcard(b) => match b {
                Some(b) => (**b).erasure(),
                None => Ty::object(),
            },
            Ty::Intersection(a, _) => (**a).erasure(),
            _ => self.copy(),
        }
    }

    fn erased_descriptor_into(&self, out: &mut String)
        ensures
            final(out)@ == old(out)@ + erased_descriptor(self@),
        decreases self,
    {
        match self {
            Ty::Void => push_char(out, 'V'),
            Ty::Boolean => push_char(out, 'Z'),
            Ty::Byte => push_char(out, 'B'),
            Ty::Char => push_char(out, 'C'),
            Ty::Short => push_char(out, 'S'),
            Ty::Int => push_char(out, 'I'),
            Ty::Long => push_char(out, 'J'),
            Ty::Float => push_char(out, 'F'),
            Ty::Double => push_char(out, 'D'),
            Ty::Class(n) => {
                push_char(out, 'L');
                out.append(n.as_str());
                push_char(out, ';');
                assert(final(out)@ =~= old(out)@ + erased_descriptor(self@));
            },
            Ty::Array(e) => {
                push_char(out, '[');
                (**e).erased_descriptor_into(out);
                assert(final(out)@ =~= old(out)@ + erased_descriptor(self@));
            },
            _ => {
                push_char(out, 'L');
                out.append("java/lang/Object");
                push_char(out, ';');
                assert(final(out)@ =~= old(out)@ + erased_descriptor(self@));
            },
        }
        proof {
            assert(final(out)@ =~= old(out)@ + erased_descriptor(self@));
        }
    }

    /// Appends the descriptor of this type to `out`.
    pub fn push_descriptor(&self, out: &mut String)
        ensures
            final(out)@ == old(out)@ + descriptor(self@),
    {
        let e = self.erasure();
        e.erased_descriptor_into(out);
    }

    /// The JVM descriptor of the type (`I`, `Ljava/lang/String;`, `[J`, ...).
    pub fn descriptor(&self) -> (r: String)
        ensures
            r@ == descriptor(self@),
    {
        let mut s = String::new();
        self.push_descriptor(&mut s);
        assert(s@ =~= descriptor(self@));
        s
    }

    /// Local-variable slots taken by a value of this type.
    pub fn size(&self) -> (r: usize)
        ensures
            r == slot_size(self@),
    {
        match self {
            Ty::Void => 0,
            Ty::Long | Ty::Double => 2,
            _ => 1,
        }
    }

    /// The number of local-variable slots a value of the type takes.
    pub fn slot_count(&self) -> (r: u16)
        ensures
            r == slot_size(self@),
    {
        match self {
            Ty::Void => 0,
            Ty::Long | Ty::Double => 2,
            _ => 1,
        }
    }

    /// The internal name of the type (class name, or descriptor otherwise).
    pub fn internal_name(&self) -> (r: String)
        ensures
            r@ == internal_name(self@),
    {
        let e = self.erasure();
        match e {
            Ty::Class(n) => n,
            _ => {
                let mut s = String::new();
                e.erased_descriptor_into(&mut s);
                assert(s@ =~= erased_descriptor(e@));
                s
            },
        }
    }
}

/// The type a JVM field descriptor denotes (JVMS 4.3.2), with `V` for void:
/// one base-type letter, `[` and a component descriptor, or `L`, a class name
/// without `;`, and `;`.
pub open spec fn type_of_descriptor(d: Seq<char>) -> Option<TyModel>
    decreases d.len(),
{
    if d.len() == 1 {
        if d[0] == 'B' {
            Some(TyModel::Byte)
        } else if d[0] == 'C' {
            Some(TyModel::Char)
        } else if d[0] == 'D' {
            Some(TyModel::Double)
        } else if d[0] == 'F' {
            Some(TyModel::Float)
        } else if d[0] == 'I' {
            Some(TyModel::Int)
        } else if d[0] == 'J' {
            Some(TyModel::Long)
        } else if d[0] == 'S' {
            Some(TyModel::Short)
        } else if d[0] == 'Z' {
            Some(TyModel::Boolean)
        } else if d[0] == 'V' {
            Some(TyModel::Void)
        } else {
            None
        }
    } else if d.len() >= 2 && d[0] == '[' {
        match type_of_descriptor(d.skip(1)) {
            Some(e) => Some(TyModel::Array(Box::new(e))),
            None => None,
        }
    } else if d.len() >= 2 && d[0] == 'L' && d[d.len() - 1] == ';' && !d.subrange(1, d.len() - 1).contains(';') {
        Some(TyModel::Class(d.subrange(1, d.len() - 1)))
    } else {
        None
    }
}

/// Every class name in the type, at any depth of arrays, is free of `;`.
pub open spec fn plain_names(t: TyModel) -> bool
    decreases t,
{
    match t {
        TyModel::Class(n) => !n.contains(';'),
        TyModel::Array(e) => plain_names(*e),
        _ => true,
    }
}

/// The descriptor of an erased type reads back, by the JVM's descriptor
/// grammar, as that very type: `Z` is boolean, `B` byte, `[I` an int array,
/// `Ljava/lang/String;` the class `java/lang/String`, and so on.
pub proof fn law_descriptor_reads_back(t: TyModel)
    requires
        is_erased(t),
        plain_names(t),
    ensures
        type_of_descriptor(erased_descriptor(t)) == Some(t),
        erased_descriptor(t).len() >= 1,
    decreases t,
{
    match t {
        TyModel::Array(e) => {
            law_descriptor_reads_back(*e);
            let d = erased_descriptor(t);
            assert(d.skip(1) =~= erased_descriptor(*e));
        },
        TyModel::Class(n) => {
            let d = erased_descriptor(t);
            assert(d.subrange(1, d.len() - 1) =~= n);
        },
        _ => {},
    }
}

/// Two erased types with the same descriptor are the same type: no two types
/// share a descriptor.
pub proof fn law_descriptor_injective(a: TyModel, b: TyModel)
    requires
        is_erased(a),
        plain_names(a),
        is_erased(b),
        plain_names(b),
        erased_descriptor(a) == erased_descriptor(b),
    ensures
        a == b,
{
    law_descriptor_reads_back(a);
    law_descriptor_reads_back(b);
}

} // verus!
