//! Class, method and field signatures.
use vstd::prelude::*;
use vstd::string::*;
use crate::text::{push_char, replace_char, replace_char_exec};
use crate::ty::{Ty, TyModel, TypeParam, descriptor, erasure, slot_size};

verus! {

/// The models of a sequence of types.
pub open spec fn tys_view(ts: Seq<Ty>) -> Seq<TyModel> {
    ts.map_values(|t: Ty| t@)
}

/// Concatenated descriptors of a sequence of types.
pub open spec fn descriptors(ts: Seq<TyModel>) -> Seq<char>
    decreases ts.len(),
{
    if ts.len() == 0 {
        Seq::empty()
    } else {
        descriptors(ts.drop_last()) + descriptor(ts.last())
    }
}

/// `(P1P2...)R`: the JVM method descriptor.
pub open spec fn method_descriptor(params: Seq<TyModel>, ret: TyModel) -> Seq<char> {
    seq!['('] + descriptors(params) + seq![')'] + descriptor(ret)
}

/// Total slots taken by a parameter list.
pub open spec fn slots(ts: Seq<TyModel>) -> nat
    decreases ts.len(),
{
    if ts.len() == 0 {
        0
    } else {
        slots(ts.drop_last()) + slot_size(erasure(ts.last()))
    }
}

#[derive(Debug)]
pub struct ClassSig {
    pub name: String,
    pub super_class: Option<Ty>,
    pub interfaces: Vec<Ty>,
    pub type_params: Vec<TypeParam>,
    pub access_flags: u16,
}

#[derive(Debug)]
pub struct MethodSig {
    pub name: String,
    pub params: Vec<Ty>,
    pub return_type: Ty,
    pub type_params: Vec<TypeParam>,
    pub access_flags: u16,
}

#[derive(Debug)]
pub struct FieldSig {
    pub name: String,
    pub ty: Ty,
    pub access_flags: u16,
}

impl ClassSig {
    pub fn new(name: String) -> (r: Self)
        ensures
            r.name@ == name@,
            r.super_class is None,
            r.interfaces@.len() == 0,
            r.type_params@.len() == 0,
            r.access_flags == 0,
    {
        ClassSig {
            name,
            super_class: None,
            interfaces: Vec::new(),
            type_params: Vec::new(),
            access_flags: 0,
        }
    }

    /// The class name with `.` replaced by `/`.
    pub fn internal_name(&self) -> (r: String)
        ensures
            r@ == replace_char(self.name@, '.', '/'),
    {
        replace_char_exec(self.name.as_str(), '.', '/')
    }

    /// The descriptor of the superclass, `Ljava/lang/Object;` when there is none.
    pub fn super_descriptor(&self) -> (r: String)
        ensures
            r@ == match self.super_class {
                Some(t) => descriptor(t@),
                None => "Ljava/lang/Object;"@,
            },
    {
        match &self.super_class {
            Some(t) => t.descriptor(),
            None => String::from_str("Ljava/lang/Object;"),
        }
    }
}

impl MethodSig {
    pub fn new(name: String, params: Vec<Ty>, return_type: Ty) -> (r: Self)
        ensures
            r.name@ == name@,
            r.params@ == params@,
            r.return_type@ == return_type@,
            r.type_params@.len() == 0,
            r.access_flags == 0,
    {
        MethodSig { name, params, return_type, type_params: Vec::new(), access_flags: 0 }
    }

    /// The JVM descriptor of the method: erased parameter and return descriptors.
    pub fn descriptor(&self) -> (r: String)
        ensures
            r@ == method_descriptor(tys_view(self.params@), self.return_type@),
    {
        params_descriptor(&self.params, &self.return_type)
    }

    pub fn param_count(&self) -> (r: usize)
        ensures
            r == self.params@.len(),
    {
        self.params.len()
    }

    /// Local-variable slots taken by the parameters.
    pub fn param_slots(&self) -> (r: usize)
        requires
            slots(tys_view(self.params@)) <= usize::MAX,
        ensures
            r == slots(tys_view(self.params@)),
    {
        let mut total: usize = 0;
        let mut i: usize = 0;
        while i < self.params.len()
            invariant
                i <= self.params@.len(),
                total == slots(tys_view(self.params@.subrange(0, i as int))),
                slots(tys_view(self.params@)) <= usize::MAX,
            decreases self.params@.len() - i,
        {
            proof {
                lemma_slots_prefix_mono(tys_view(self.params@), i as int + 1);
                assert(tys_view(self.params@.subrange(0, i + 1)).drop_last() =~= tys_view(
                    self.params@.subrange(0, i as int),
                ));
                assert(tys_view(self.params@).subrange(0, i + 1) =~= tys_view(
                    self.params@.subrange(0, i + 1),
                ));
            }
            total = total + self.params[i].erasure().size();
            i = i + 1;
        }
        assert(self.params@.subrange(0, i as int) =~= self.params@);
        total
    }
}

pub proof fn lemma_slots_prefix_mono(ts: Seq<TyModel>, n: int)
    requires
        0 <= n <= ts.len(),
    ensures
        slots(ts.subrange(0, n)) <= slots(ts),
    decreases ts.len(),
{
    if n < ts.len() {
        assert(ts.drop_last().subrange(0, n) =~= ts.subrange(0, n));
        lemma_slots_prefix_mono(ts.drop_last(), n);
    } else {
        assert(ts.subrange(0, n) =~= ts);
    }
}

/// Appends the descriptors of `tys` to `out`.
pub fn push_descriptors(tys: &Vec<Ty>, out: &mut String)
    ensures
        final(out)@ == old(out)@ + descriptors(tys_view(tys@)),
{
    let mut i: usize = 0;
    while i < tys.len()
        invariant
            i <= tys@.len(),
            out@ == old(out)@ + descriptors(tys_view(tys@.subrange(0, i as int))),
        decreases tys@.len() - i,
    {
        let ghost before = out@;
        tys[i].push_descriptor(out);
        proof {
            assert(tys_view(tys@.subrange(0, i + 1)).drop_last() =~= tys_view(
                tys@.subrange(0, i as int),
            ));
            assert(out@ =~= old(out)@ + descriptors(tys_view(tys@.subrange(0, i + 1))));
        }
        i = i + 1;
    }
    assert(tys@.subrange(0, i as int) =~= tys@);
}

/// `(P...)R` for the given parameter and return types.
pub fn params_descriptor(params: &Vec<Ty>, ret: &Ty) -> (r: String)
    ensures
        r@ == method_descriptor(tys_view(params@), ret@),
{
    let mut s = String::new();
    push_char(&mut s, '(');
    push_descriptors(params, &mut s);
    push_char(&mut s, ')');
    ret.push_descriptor(&mut s);
    assert(s@ =~= method_descriptor(tys_view(params@), ret@));
    s
}

/// The index of the first `;` in `d` at or after `k`; `d.len()` where there is none.
pub open spec fn semicolon_from(d: Seq<char>, k: int) -> int
    decreases d.len() - k,
{
    if k < 0 || k >= d.len() {
        d.len() as int
    } else if d[k] == ';' {
        k
    } else {
        semicolon_from(d, k + 1)
    }
}

/// The primitive type a base-type letter stands for in a field descriptor
/// (JVMS 4.3.2).
pub open spec fn base_type_letter(c: char) -> Option<TyModel> {
    if c == 'B' {
        Some(TyModel::Byte)
    } else if c == 'C' {
        Some(TyModel::Char)
    } else if c == 'D' {
        Some(TyModel::Double)
    } else if c == 'F' {
        Some(TyModel::Float)
    } else if c == 'I' {
        Some(TyModel::Int)
    } else if c == 'J' {
        Some(TyModel::Long)
    } else if c == 'S' {
        Some(TyModel::Short)
    } else if c == 'Z' {
        Some(TyModel::Boolean)
    } else {
        None
    }
}

/// Reads one field descriptor from the front of `d` (JVMS 4.3.2): the type it
/// denotes and the characters after it.
pub open spec fn read_field(d: Seq<char>) -> Option<(TyModel, Seq<char>)>
    decreases d.len(),
{
    if d.len() == 0 {
        None
    } else if d[0] == '[' {
        match read_field(d.skip(1)) {
            Some((e, r)) => Some((TyModel::Array(Box::new(e)), r)),
            None => None,
        }
    } else if d[0] == 'L' {
        let j = semicolon_from(d, 1);
        if j < d.len() {
            Some((TyModel::Class(d.subrange(1, j)), d.skip(j + 1)))
        } else {
            None
        }
    } else {
        match base_type_letter(d[0]) {
            Some(t) => Some((t, d.skip(1))),
            None => None,
        }
    }
}

/// Reads field descriptors from the front of `d` up to a `)`: the types, and
/// the characters after the `)`.
pub open spec fn read_params(d: Seq<char>) -> Option<(Seq<TyModel>, Seq<char>)>
    decreases d.len(),
{
    if d.len() == 0 {
        None
    } else if d[0] == ')' {
        Some((Seq::empty(), d.skip(1)))
    } else {
        match read_field(d) {
            Some((t, r)) => if r.len() < d.len() {
                match read_params(r) {
                    Some((ts, rest)) => Some((seq![t] + ts, rest)),
                    None => None,
                }
            } else {
                None
            },
            None => None,
        }
    }
}

/// Reads a method descriptor (JVMS 4.3.3): its parameter types and its return
/// type, `V` for void.
pub open spec fn read_method(d: Seq<char>) -> Option<(Seq<TyModel>, TyModel)> {
    if d.len() >= 1 && d[0] == '(' {
        match read_params(d.skip(1)) {
            Some((ps, rest)) => if rest == seq!['V'] {
                Some((ps, TyModel::Void))
            } else {
                match read_field(rest) {
                    Some((t, r)) => if r.len() == 0 {
                        Some((ps, t))
                    } else {
                        None
                    },
                    None => None,
                }
            },
            None => None,
        }
    } else {
        None
    }
}

/// An erased type a field can have: no `void` and no `;` in a class name, at
/// any depth of arrays.
pub open spec fn fieldable(t: TyModel) -> bool
    decreases t,
{
    match t {
        TyModel::Void | TyModel::TypeVar(_) | TyModel::Wildcard(_) | TyModel::Intersection(_, _) => false,
        TyModel::Class(n) => !n.contains(';'),
        TyModel::Array(e) => fieldable(*e),
        _ => true,
    }
}

proof fn lemma_semicolon_after_name(n: Seq<char>, tail: Seq<char>, k: int)
    requires
        !n.contains(';'),
        1 <= k <= n.len() + 1,
    ensures
        semicolon_from(seq!['L'] + n + seq![';'] + tail, k) == n.len() + 1,
    decreases n.len() + 1 - k,
{
    let d = seq!['L'] + n + seq![';'] + tail;
    if k <= n.len() {
        assert(d[k] == n[k - 1]);
        if d[k] == ';' {
            assert(n.contains(';'));
        }
        lemma_semicolon_after_name(n, tail, k + 1);
    } else {
        assert(d[k] == ';');
    }
}

proof fn lemma_read_field(t: TyModel, tail: Seq<char>)
    requires
        fieldable(t),
    ensures
        read_field(crate::ty::erased_descriptor(t) + tail) == Some((t, tail)),
        crate::ty::erased_descriptor(t).len() >= 1,
    decreases t,
{
    let d = crate::ty::erased_descriptor(t) + tail;
    match t {
        TyModel::Array(e) => {
            lemma_read_field(*e, tail);
            assert(d.skip(1) =~= crate::ty::erased_descriptor(*e) + tail);
        },
        TyModel::Class(n) => {
            assert(d =~= seq!['L'] + n + seq![';'] + tail);
            lemma_semicolon_after_name(n, tail, 1);
            assert(d.subrange(1, n.len() + 1 as int) =~= n);
            assert(d.skip(n.len() + 2 as int) =~= tail);
        },
        _ => {
            assert(d.skip(1) =~= tail);
        },
    }
}

proof fn lemma_descriptors_front(ps: Seq<TyModel>)
    requires
        ps.len() > 0,
    ensures
        descriptors(ps) == descriptor(ps[0]) + descriptors(ps.drop_first()),
    decreases ps.len(),
{
    if ps.len() == 1 {
        assert(ps.drop_first() =~= Seq::<TyModel>::empty());
        assert(ps.drop_last() =~= Seq::<TyModel>::empty());
        assert(descriptors(ps) =~= descriptor(ps[0]) + descriptors(ps.drop_first()));
    } else {
        lemma_descriptors_front(ps.drop_last());
        assert(ps.drop_last().drop_first() =~= ps.drop_first().drop_last());
        assert(ps.drop_first().last() == ps.last());
        assert(descriptors(ps) =~= descriptor(ps[0]) + descriptors(ps.drop_first()));
    }
}

proof fn lemma_read_params(ps: Seq<TyModel>, tail: Seq<char>)
    requires
        forall|i: int| 0 <= i < ps.len() ==> fieldable(#[trigger] erasure(ps[i])),
    ensures
        read_params(descriptors(ps) + seq![')'] + tail) == Some((ps.map_values(|p: TyModel| erasure(p)), tail)),
    decreases ps.len(),
{
    let d = descriptors(ps) + seq![')'] + tail;
    if ps.len() == 0 {
        assert(d =~= seq![')'] + tail);
        assert(d.skip(1) =~= tail);
        assert(ps.map_values(|p: TyModel| erasure(p)) =~= Seq::<TyModel>::empty());
    } else {
        lemma_descriptors_front(ps);
        let rest = ps.drop_first();
        assert forall|i: int| 0 <= i < rest.len() implies fieldable(#[trigger] erasure(rest[i])) by {
            assert(rest[i] == ps[i + 1]);
        }
        lemma_read_params(rest, tail);
        let r = descriptors(rest) + seq![')'] + tail;
        assert(fieldable(erasure(ps[0])));
        lemma_read_field(erasure(ps[0]), r);
        assert(d =~= crate::ty::erased_descriptor(erasure(ps[0])) + r);
        assert(d[0] != ')') by {
            assert(d[0] == crate::ty::erased_descriptor(erasure(ps[0]))[0]);
        }
        assert(ps.map_values(|p: TyModel| erasure(p)) =~= seq![erasure(ps[0])] + rest.map_values(
            |p: TyModel| erasure(p),
        ));
    }
}

/// A method descriptor reads back, by the JVM's descriptor grammar, as the
/// erasures of its parameter types, in order, and of its return type.
pub proof fn law_method_descriptor_reads_back(params: Seq<TyModel>, ret: TyModel)
    requires
        forall|i: int| 0 <= i < params.len() ==> fieldable(#[trigger] erasure(params[i])),
        erasure(ret) is Void || fieldable(erasure(ret)),
    ensures
        read_method(method_descriptor(params, ret)) == Some(
            (params.map_values(|p: TyModel| erasure(p)), erasure(ret)),
        ),
{
    let d = method_descriptor(params, ret);
    let rd = descriptor(ret);
    assert(d.skip(1) =~= descriptors(params) + seq![')'] + rd);
    lemma_read_params(params, rd);
    if erasure(ret) is Void {
        assert(rd =~= seq!['V']);
    } else {
        lemma_read_field(erasure(ret), Seq::empty());
        assert(rd + Seq::<char>::empty() =~= rd);
        assert(rd != seq!['V']) by {
            if rd == seq!['V'] {
                assert(rd[0] == 'V');
            }
        }
    }
}

} // verus!
