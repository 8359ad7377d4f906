//! Bytecode generation for method bodies: HIR expressions and statements to JVM
//! instructions whose jumps all land on labels placed in the same code.
use vstd::prelude::*;
use crate::hir::{
    AssignOp, BinaryOp, Block, Body, CapturedField, CompilationUnit, Expr, ExprId, MethodDecl,
    OuterThisInfo, Stmt, StmtId, SwitchCase, TypeDecl, TypeDeclKind, UnaryOp, case_body,
    expr_children_below, stmt_value,
};
use crate::opcodes;
use crate::ops::{
    load_opcode, store_opcode, return_opcode, neg_opcode, arithmetic_opcode, assign_op_opcode,
    int_compare_opcode, single_value_compare_opcode, int_branch, single_value_branch,
    reference_branch, is_comparison, numeric_conversion, checkcast_target, default_value_opcode,
    default_value_op, conversion_op, load_op, store_op, return_op, BranchSense,
};
use crate::ops::{is_comparison_op, checkcast_name, int_branch_op, single_value_branch_op, reference_branch_op};
use crate::ops::{assign_binary, compared_as_int, int_pair_jump, zero_jump};
use crate::numeric::{low_i32, fit_i32, char_code};
use crate::sig::{MethodSig, method_descriptor, tys_view};
use crate::text::str_eq;
use crate::ty::{Ty, TyModel, erasure, internal_name, slot_size};

verus! {

/// One JVM instruction, with labels named by number.
#[derive(Debug, Clone)]
pub enum Insn {
    Op(u8),
    Var(u8, u16),
    Iinc(u16, i16),
    Type(u8, String),
    Field(u8, String, String, String),
    Method(u8, String, String, String, bool),
    Jump(u8, u32),
    Label(u32),
    LdcInt(i32),
    LdcLong(i64),
    LdcFloat(String),
    LdcDouble(String),
    LdcString(String),
    LookupSwitch(u32, Vec<(i32, u32)>),
}

/// Whether the instruction may jump to label `l`.
pub open spec fn refers(i: Insn, l: u32) -> bool {
    match i {
        Insn::Jump(_, t) => t == l,
        Insn::LookupSwitch(d, pairs) => d == l || exists|k: int| 0 <= k < pairs@.len() && (#[trigger] pairs@[k]).1 == l,
        _ => false,
    }
}

/// Whether label `l` is placed in `code`.
pub open spec fn binds(code: Seq<Insn>, l: u32) -> bool {
    exists|j: int| 0 <= j < code.len() && #[trigger] code[j] == Insn::Label(l)
}

/// Every jump in `code` lands on a label placed in `code`, or on one of `ext`.
pub open spec fn resolved_mod(code: Seq<Insn>, ext: Set<u32>) -> bool {
    forall|i: int, l: u32| 0 <= i < code.len() && #[trigger] refers(code[i], l) ==> binds(code, l) || ext.contains(l)
}

/// Every jump in `code` lands on a label placed in `code`.
pub open spec fn resolved(code: Seq<Insn>) -> bool {
    resolved_mod(code, Set::empty())
}

pub proof fn lemma_resolved_concat(a: Seq<Insn>, b: Seq<Insn>, ext: Set<u32>)
    requires
        resolved_mod(a, ext),
        resolved_mod(b, ext),
    ensures
        resolved_mod(a + b, ext),
{
    let c = a + b;
    assert forall|i: int, l: u32| 0 <= i < c.len() && #[trigger] refers(c[i], l) implies binds(c, l) || ext.contains(l) by {
        if i < a.len() {
            assert(c[i] == a[i]);
            if binds(a, l) {
                let j = choose|j: int| 0 <= j < a.len() && #[trigger] a[j] == Insn::Label(l);
                assert(c[j] == a[j]);
            }
        } else {
            assert(c[i] == b[i - a.len()]);
            assert(refers(b[i - a.len()], l));
            if binds(b, l) {
                let j = choose|j: int| 0 <= j < b.len() && #[trigger] b[j] == Insn::Label(l);
                assert(c[a.len() + j] == b[j]);
            }
        }
    }
}

/// A fragment whose outside jump targets are all placed in it is closed.
pub proof fn lemma_resolved_close(a: Seq<Insn>, ext: Set<u32>)
    requires
        resolved_mod(a, ext),
        forall|l: u32| ext.contains(l) ==> binds(a, l),
    ensures
        resolved(a),
{
}

/// The label at `p` is placed in every fragment of `code` that covers `p`.
pub proof fn lemma_binds_in(code: Seq<Insn>, start: int, end: int, p: int, l: u32)
    requires
        0 <= start <= p < end <= code.len(),
        code[p] == Insn::Label(l),
    ensures
        binds(code.subrange(start, end), l),
{
    assert(code.subrange(start, end)[p - start] == Insn::Label(l));
}

/// A local variable: its name, slot and type.
#[derive(Debug)]
pub struct LocalSlot {
    pub name: String,
    pub slot: u16,
    pub ty: Ty,
}

/// A field of the class being generated.
#[derive(Debug)]
pub struct FieldInfo {
    pub name: String,
    pub ty: Ty,
    pub access_flags: u16,
}

/// What code generation knows while it emits one method, and the code so far.
#[derive(Debug)]
pub struct CodegenCtx {
    pub class_name: String,
    pub super_name: String,
    pub return_ty: Ty,
    pub next_local: u16,
    pub locals: Vec<LocalSlot>,
    pub fields: Vec<FieldInfo>,
    pub methods: Vec<MethodSig>,
    pub outer_this: Option<OuterThisInfo>,
    pub outer_fields: Vec<CapturedField>,
    pub enclosing_static_owner: Option<String>,
    pub code: Vec<Insn>,
    pub next_label: u32,
}

/// Everything but the code and the label counter is unchanged.
pub open spec fn same_env(a: &CodegenCtx, b: &CodegenCtx) -> bool {
    &&& a.class_name == b.class_name
    &&& a.super_name == b.super_name
    &&& a.return_ty == b.return_ty
    &&& a.next_local == b.next_local
    &&& a.locals == b.locals
    &&& a.fields == b.fields
    &&& a.methods == b.methods
    &&& a.outer_this == b.outer_this
    &&& a.outer_fields == b.outer_fields
    &&& a.enclosing_static_owner == b.enclosing_static_owner
}

/// `new` holds the code of `old` followed by a fragment whose jumps land in the
/// fragment or on `ext`.
pub open spec fn appended_mod(new: &CodegenCtx, old: &CodegenCtx, ext: Set<u32>) -> bool {
    &&& same_env(new, old)
    &&& old.code@.len() <= new.code@.len()
    &&& new.code@.subrange(0, old.code@.len() as int) == old.code@
    &&& resolved_mod(new.code@.subrange(old.code@.len() as int, new.code@.len() as int), ext)
}

/// `new` holds the code of `old` followed by a closed fragment.
pub open spec fn appended(new: &CodegenCtx, old: &CodegenCtx) -> bool {
    appended_mod(new, old, Set::empty())
}

pub proof fn lemma_chain(a: &CodegenCtx, b: &CodegenCtx, c: &CodegenCtx, ext: Set<u32>)
    requires
        appended_mod(b, a, ext),
        appended_mod(c, b, ext),
    ensures
        appended_mod(c, a, ext),
{
    let x = a.code@.len() as int;
    let y = b.code@.len() as int;
    let z = c.code@.len() as int;
    assert(c.code@.subrange(0, x) =~= c.code@.subrange(0, y).subrange(0, x));
    assert(c.code@.subrange(x, z) =~= c.code@.subrange(x, y) + c.code@.subrange(y, z));
    assert(c.code@.subrange(x, y) =~= b.code@.subrange(x, y)) by {
        assert(c.code@.subrange(0, y) == b.code@);
        assert(c.code@.subrange(x, y) =~= c.code@.subrange(0, y).subrange(x, y));
    }
    lemma_resolved_concat(c.code@.subrange(x, y), c.code@.subrange(y, z), ext);
}

pub proof fn lemma_appended_weaken(b: &CodegenCtx, a: &CodegenCtx, e1: Set<u32>, e2: Set<u32>)
    requires
        appended_mod(b, a, e1),
        e1.subset_of(e2),
    ensures
        appended_mod(b, a, e2),
{
}

pub proof fn lemma_appended_refl(a: &CodegenCtx, ext: Set<u32>)
    ensures
        appended_mod(a, a, ext),
{
    assert(a.code@.subrange(0, a.code@.len() as int) =~= a.code@);
    assert(a.code@.subrange(a.code@.len() as int, a.code@.len() as int) =~= Seq::<Insn>::empty());
}

impl CodegenCtx {
    /// A context for code of class `class_name`: no locals,
    /// fields or methods known, `java/lang/Object` as superclass, `void` result,
    /// and no code yet.
    pub fn new(class_name: String) -> (r: CodegenCtx)
        ensures
            r.class_name == class_name,
            r.super_name@ == "java/lang/Object"@,
            r.return_ty@ == TyModel::Void,
            r.next_local == 0,
            r.locals@.len() == 0,
            r.fields@.len() == 0,
            r.methods@.len() == 0,
            r.code@.len() == 0,
            r.next_label == 0,
    {
        CodegenCtx {
            class_name,
            super_name: String::from_str("java/lang/Object"),
            return_ty: Ty::Void,
            next_local: 0,
            locals: Vec::new(),
            fields: Vec::new(),
            methods: Vec::new(),
            outer_this: None,
            outer_fields: Vec::new(),
            enclosing_static_owner: None,
            code: Vec::new(),
            next_label: 0,
        }
    }

    /// Appends one instruction that jumps nowhere.
    pub fn emit(&mut self, i: Insn)
        requires
            !(i is Jump),
            !(i is LookupSwitch),
        ensures
            final(self).code@ == old(self).code@.push(i),
            final(self).next_label == old(self).next_label,
            same_env(final(self), old(self)),
            forall|ext: Set<u32>| appended_mod(final(self), old(self), ext),
    {
        self.code.push(i);
        proof {
            let n = old(self).code@.len() as int;
            assert(self.code@.subrange(0, n) =~= old(self).code@);
            assert(self.code@.subrange(n, n + 1) =~= seq![i]);
            assert forall|ext: Set<u32>| #[trigger] resolved_mod(self.code@.subrange(n, n + 1), ext) by {
                assert forall|k: int, l: u32| 0 <= k < 1 && #[trigger] refers(seq![i][k], l) implies false by {
                    assert(seq![i][k] == i);
                }
            }
        }
    }

    pub fn op(&mut self, opcode: u8)
        ensures
            final(self).code@ == old(self).code@.push(Insn::Op(opcode)),
            final(self).next_label == old(self).next_label,
            same_env(final(self), old(self)),
            forall|ext: Set<u32>| appended_mod(final(self), old(self), ext),
    {
        self.emit(Insn::Op(opcode));
    }

    /// A fresh label number.
    pub fn new_label(&mut self) -> (r: u32)
        ensures
            r == old(self).next_label,
            final(self).code == old(self).code,
            same_env(final(self), old(self)),
            forall|ext: Set<u32>| appended_mod(final(self), old(self), ext),
    {
        let l = self.next_label;
        if self.next_label < u32::MAX {
            self.next_label = self.next_label + 1;
        }
        proof {
            lemma_appended_refl(old(self), Set::empty());
            assert forall|ext: Set<u32>| appended_mod(self, old(self), ext) by {
                lemma_appended_refl(old(self), ext);
            }
        }
        l
    }

    /// Places label `l` here.
    pub fn label(&mut self, l: u32)
        ensures
            final(self).code@ == old(self).code@.push(Insn::Label(l)),
            final(self).next_label == old(self).next_label,
            same_env(final(self), old(self)),
            forall|ext: Set<u32>| appended_mod(final(self), old(self), ext),
    {
        self.emit(Insn::Label(l));
    }

    /// A jump to label `l`.
    pub fn jump(&mut self, opcode: u8, l: u32)
        ensures
            final(self).code@ == old(self).code@.push(Insn::Jump(opcode, l)),
            final(self).next_label == old(self).next_label,
            same_env(final(self), old(self)),
            forall|ext: Set<u32>| ext.contains(l) ==> appended_mod(final(self), old(self), ext),
    {
        self.code.push(Insn::Jump(opcode, l));
        proof {
            let n = old(self).code@.len() as int;
            assert(self.code@.subrange(0, n) =~= old(self).code@);
            assert(self.code@.subrange(n, n + 1) =~= seq![Insn::Jump(opcode, l)]);
        }
    }

    /// The first local named `name`, if any.
    pub fn find_local(&self, name: &str) -> (r: Option<usize>)
        ensures
            r matches Some(i) ==> first_local(self.locals@, name@, i as int),
            r is None ==> forall|i: int| 0 <= i < self.locals@.len() ==> self.locals@[i].name@ != name@,
    {
        let mut i: usize = 0;
        while i < self.locals.len()
            invariant
                i <= self.locals@.len(),
                forall|j: int| 0 <= j < i ==> self.locals@[j].name@ != name@,
            decreases self.locals@.len() - i,
        {
            if str_eq(self.locals[i].name.as_str(), name) {
                return Some(i);
            }
            i = i + 1;
        }
        None
    }

    /// The slot of local `name`.
    pub fn get_local(&self, name: &str) -> (r: Option<u16>)
        ensures
            r == local_slot(self.locals@, name@),
    {
        match self.find_local(name) {
            Some(i) => {
                proof {
                    lemma_first_local_unique(self.locals@, name@, i as int);
                }
                Some(self.locals[i].slot)
            },
            None => None,
        }
    }

    /// The type of local `name`.
    pub fn resolve_local_ty(&self, name: &str) -> (r: Option<Ty>)
        ensures
            r matches Some(t) ==> local_type(self.locals@, name@) == Some(t@),
            r is None ==> local_type(self.locals@, name@) is None,
    {
        match self.find_local(name) {
            Some(i) => {
                proof {
                    lemma_first_local_unique(self.locals@, name@, i as int);
                }
                Some(self.locals[i].ty.copy())
            },
            None => None,
        }
    }

    /// Gives `name` the next free slot and type `ty`; a name already in use is rebound.
    pub fn alloc_local(&mut self, name: &str, ty: &Ty) -> (r: u16)
        requires
            old(self).next_local + slot_size(ty@) <= u16::MAX,
        ensures
            r == old(self).next_local,
            final(self).next_local == old(self).next_local + slot_size(ty@),
            local_slot(final(self).locals@, name@) == Some(r),
            local_type(final(self).locals@, name@) == Some(ty@),
            forall|other: Seq<char>| other != name@ ==> local_slot(final(self).locals@, other) == local_slot(old(self).locals@, other)
                && local_type(final(self).locals@, other) == local_type(old(self).locals@, other),
            final(self).code == old(self).code,
            final(self).next_label == old(self).next_label,
            final(self).fields == old(self).fields,
            final(self).methods == old(self).methods,
            final(self).class_name == old(self).class_name,
            final(self).super_name == old(self).super_name,
            final(self).return_ty == old(self).return_ty,
            final(self).outer_this == old(self).outer_this,
            final(self).outer_fields == old(self).outer_fields,
            final(self).enclosing_static_owner == old(self).enclosing_static_owner,
    {
        let slot = self.next_local;
        let entry = LocalSlot { name: String::from_str(name), slot, ty: ty.copy() };
        let ghost before = self.locals@;
        match self.find_local(name) {
            Some(i) => {
                self.locals.set(i, entry);
                proof {
                    let after = self.locals@;
                    assert(first_local(after, name@, i as int));
                    lemma_first_local_unique(after, name@, i as int);
                    assert forall|other: Seq<char>| other != name@ implies local_slot(after, other)
                        == local_slot(before, other) && local_type(after, other) == local_type(before, other) by {
                        lemma_rebind_other(before, after, i as int, name@, other);
                    }
                }
            },
            None => {
                self.locals.push(entry);
                proof {
                    let after = self.locals@;
                    let k = before.len() as int;
                    assert(first_local(after, name@, k));
                    lemma_first_local_unique(after, name@, k);
                    assert forall|other: Seq<char>| other != name@ implies local_slot(after, other)
                        == local_slot(before, other) && local_type(after, other) == local_type(before, other) by {
                        lemma_push_other(before, after, name@, other);
                    }
                }
            },
        }
        self.next_local = self.next_local + ty.slot_count();
        slot
    }

    /// The field of the class named `name`, if any.
    pub fn find_field(&self, name: &str) -> (r: Option<usize>)
        ensures
            r matches Some(i) ==> i < self.fields@.len() && self.fields@[i as int].name@ == name@
                && forall|j: int| 0 <= j < i ==> self.fields@[j].name@ != name@,
            r is None ==> forall|i: int| 0 <= i < self.fields@.len() ==> self.fields@[i].name@ != name@,
    {
        let mut i: usize = 0;
        while i < self.fields.len()
            invariant
                i <= self.fields@.len(),
                forall|j: int| 0 <= j < i ==> self.fields@[j].name@ != name@,
            decreases self.fields@.len() - i,
        {
            if str_eq(self.fields[i].name.as_str(), name) {
                return Some(i);
            }
            i = i + 1;
        }
        None
    }

    /// The type of field `name`: a field of the class, or a captured outer field.
    pub fn field_ty(&self, name: &str) -> (r: Option<Ty>)
        ensures
            forall|i: int|
                0 <= i < self.fields@.len() && #[trigger] self.fields@[i].name@ == name@ && (forall|j: int|
                    0 <= j < i ==> self.fields@[j].name@ != name@) ==> (r matches Some(t) && t@ == self.fields@[i].ty@),
            r is Some <==> (exists|i: int| 0 <= i < self.fields@.len() && self.fields@[i].name@ == name@)
                || (exists|i: int| 0 <= i < self.outer_fields@.len() && self.outer_fields@[i].name@ == name@),
    {
        match self.find_field(name) {
            Some(i) => {
                let t = self.fields[i].ty.copy();
                proof {
                    assert forall|k: int|
                        0 <= k < self.fields@.len() && #[trigger] self.fields@[k].name@ == name@ && (forall|j: int|
                            0 <= j < k ==> self.fields@[j].name@ != name@) implies k == i by {
                        if k > i {
                            assert(self.fields@[i as int].name@ != name@);
                        }
                    }
                }
                Some(t)
            },
            None => match self.find_outer_field(name) {
                Some(i) => Some(self.outer_fields[i].ty.copy()),
                None => None,
            },
        }
    }

    /// Whether `name` is a static field of the class: the first field of that name
    /// has the static flag.
    pub fn field_is_static(&self, name: &str) -> (r: bool)
        ensures
            r ==> exists|i: int| 0 <= i < self.fields@.len() && self.fields@[i].name@ == name@,
            r == (exists|i: int|
                0 <= i < self.fields@.len() && #[trigger] self.fields@[i].name@ == name@ && (forall|j: int|
                    0 <= j < i ==> self.fields@[j].name@ != name@) && self.fields@[i].access_flags & opcodes::ACC_STATIC
                    != 0),
    {
        match self.find_field(name) {
            Some(i) => {
                let r = self.fields[i].access_flags & opcodes::ACC_STATIC != 0;
                proof {
                    assert forall|k: int|
                        0 <= k < self.fields@.len() && #[trigger] self.fields@[k].name@ == name@ && (forall|j: int|
                            0 <= j < k ==> self.fields@[j].name@ != name@) implies k == i by {
                        if k < i {
                        } else if k > i {
                            assert(self.fields@[i as int].name@ != name@);
                        }
                    }
                }
                r
            },
            None => false,
        }
    }

    /// The captured outer field named `name`, if any.
    pub fn find_outer_field(&self, name: &str) -> (r: Option<usize>)
        ensures
            r matches Some(i) ==> i < self.outer_fields@.len() && self.outer_fields@[i as int].name@ == name@
                && forall|j: int| 0 <= j < i ==> self.outer_fields@[j].name@ != name@,
            r is None ==> forall|i: int| 0 <= i < self.outer_fields@.len() ==> self.outer_fields@[i].name@ != name@,
    {
        let mut i: usize = 0;
        while i < self.outer_fields.len()
            invariant
                i <= self.outer_fields@.len(),
                forall|j: int| 0 <= j < i ==> self.outer_fields@[j].name@ != name@,
            decreases self.outer_fields@.len() - i,
        {
            if str_eq(self.outer_fields[i].name.as_str(), name) {
                return Some(i);
            }
            i = i + 1;
        }
        None
    }

    /// The method of the class named `name`, if any.
    pub fn method_sig(&self, name: &str) -> (r: Option<&MethodSig>)
        ensures
            r matches Some(m) ==> m.name@ == name@ && self.methods@.contains(*m),
            r is None ==> forall|i: int| 0 <= i < self.methods@.len() ==> self.methods@[i].name@ != name@,
    {
        let mut i: usize = 0;
        while i < self.methods.len()
            invariant
                i <= self.methods@.len(),
                forall|j: int| 0 <= j < i ==> self.methods@[j].name@ != name@,
            decreases self.methods@.len() - i,
        {
            if str_eq(self.methods[i].name.as_str(), name) {
                return Some(&self.methods[i]);
            }
            i = i + 1;
        }
        None
    }
}

/// `i` is the first local named `name`.
pub open spec fn first_local(ls: Seq<LocalSlot>, name: Seq<char>, i: int) -> bool {
    &&& 0 <= i < ls.len()
    &&& ls[i].name@ == name
    &&& forall|j: int| 0 <= j < i ==> ls[j].name@ != name
}

/// The slot of the first local named `name`.
pub open spec fn local_slot(ls: Seq<LocalSlot>, name: Seq<char>) -> Option<u16> {
    if exists|i: int| first_local(ls, name, i) {
        Some(ls[choose|i: int| first_local(ls, name, i)].slot)
    } else {
        None
    }
}

/// The type of the first local named `name`.
pub open spec fn local_type(ls: Seq<LocalSlot>, name: Seq<char>) -> Option<TyModel> {
    if exists|i: int| first_local(ls, name, i) {
        Some(ls[choose|i: int| first_local(ls, name, i)].ty@)
    } else {
        None
    }
}

pub proof fn lemma_first_local_unique(ls: Seq<LocalSlot>, name: Seq<char>, i: int)
    requires
        first_local(ls, name, i),
    ensures
        forall|j: int| first_local(ls, name, j) ==> j == i,
        local_slot(ls, name) == Some(ls[i].slot),
        local_type(ls, name) == Some(ls[i].ty@),
{
    assert forall|j: int| first_local(ls, name, j) implies j == i by {
        if j < i {
            assert(ls[j].name@ != name);
        } else if j > i {
            assert(ls[i].name@ != name);
        }
    }
}

proof fn lemma_rebind_other(before: Seq<LocalSlot>, after: Seq<LocalSlot>, i: int, name: Seq<char>, other: Seq<char>)
    requires
        first_local(before, name, i),
        after.len() == before.len(),
        after[i].name@ == name,
        forall|j: int| 0 <= j < before.len() && j != i ==> after[j] == before[j],
        other != name,
    ensures
        local_slot(after, other) == local_slot(before, other),
        local_type(after, other) == local_type(before, other),
{
    assert forall|j: int| first_local(after, other, j) <==> first_local(before, other, j) by {
        if 0 <= j < before.len() {
            if j == i {
            } else {
                assert(after[j] == before[j]);
                assert forall|k: int| 0 <= k < j implies (after[k].name@ != other <==> before[k].name@ != other) by {
                    if k != i {
                        assert(after[k] == before[k]);
                    }
                }
            }
        }
    }
    if exists|j: int| first_local(before, other, j) {
        let j = choose|j: int| first_local(before, other, j);
        lemma_first_local_unique(before, other, j);
        lemma_first_local_unique(after, other, j);
    }
}

proof fn lemma_push_other(before: Seq<LocalSlot>, after: Seq<LocalSlot>, name: Seq<char>, other: Seq<char>)
    requires
        after.len() == before.len() + 1,
        after[before.len() as int].name@ == name,
        forall|j: int| 0 <= j < before.len() ==> after[j] == before[j],
        other != name,
    ensures
        local_slot(after, other) == local_slot(before, other),
        local_type(after, other) == local_type(before, other),
{
    assert forall|j: int| first_local(after, other, j) <==> first_local(before, other, j) by {
        if 0 <= j < before.len() {
            assert(after[j] == before[j]);
            assert forall|k: int| 0 <= k < j implies (after[k].name@ != other <==> before[k].name@ != other) by {
                assert(after[k] == before[k]);
            }
        }
    }
    if exists|j: int| first_local(before, other, j) {
        let j = choose|j: int| first_local(before, other, j);
        lemma_first_local_unique(before, other, j);
        lemma_first_local_unique(after, other, j);
    }
}

pub open spec fn first_field_at(fs: Seq<FieldInfo>, name: Seq<char>, i: int) -> bool {
    &&& 0 <= i < fs.len()
    &&& fs[i].name@ == name
    &&& forall|j: int| 0 <= j < i ==> fs[j].name@ != name
}

pub open spec fn first_outer_at(fs: Seq<CapturedField>, name: Seq<char>, i: int) -> bool {
    &&& 0 <= i < fs.len()
    &&& fs[i].name@ == name
    &&& forall|j: int| 0 <= j < i ==> fs[j].name@ != name
}

/// The type of field `name`: the first field of the class so named, else the
/// first captured outer field so named.
pub open spec fn field_type(ctx: CodegenCtx, name: Seq<char>) -> Option<TyModel> {
    if exists|i: int| first_field_at(ctx.fields@, name, i) {
        Some(ctx.fields@[choose|i: int| first_field_at(ctx.fields@, name, i)].ty@)
    } else if exists|i: int| first_outer_at(ctx.outer_fields@, name, i) {
        Some(ctx.outer_fields@[choose|i: int| first_outer_at(ctx.outer_fields@, name, i)].ty@)
    } else {
        None
    }
}

proof fn lemma_first_field_unique(fs: Seq<FieldInfo>, name: Seq<char>, i: int)
    requires
        first_field_at(fs, name, i),
    ensures
        forall|j: int| first_field_at(fs, name, j) ==> j == i,
{
    assert forall|j: int| first_field_at(fs, name, j) implies j == i by {
        if j < i {
            assert(fs[j].name@ != name);
        } else if j > i {
            assert(fs[i].name@ != name);
        }
    }
}

proof fn lemma_first_outer_unique(fs: Seq<CapturedField>, name: Seq<char>, i: int)
    requires
        first_outer_at(fs, name, i),
    ensures
        forall|j: int| first_outer_at(fs, name, j) ==> j == i,
{
    assert forall|j: int| first_outer_at(fs, name, j) implies j == i by {
        if j < i {
            assert(fs[j].name@ != name);
        } else if j > i {
            assert(fs[i].name@ != name);
        }
    }
}

/// The return type of the first method of the class named `name`.
pub open spec fn method_return(ctx: CodegenCtx, name: Seq<char>) -> Option<TyModel> {
    if exists|i: int| 0 <= i < ctx.methods@.len() && ctx.methods@[i].name@ == name {
        let i = choose|i: int|
            0 <= i < ctx.methods@.len() && ctx.methods@[i].name@ == name && forall|j: int|
                0 <= j < i ==> ctx.methods@[j].name@ != name;
        Some(ctx.methods@[i].return_type@)
    } else {
        None
    }
}

pub open spec fn string_ty() -> TyModel {
    TyModel::Class("java/lang/String"@)
}

pub open spec fn object_ty() -> TyModel {
    TyModel::Class("java/lang/Object"@)
}

/// The type an expression has on its own, before names are looked up.
pub open spec fn base_ty(exprs: Seq<Expr>, id: int) -> TyModel
    decreases id,
{
    if !(0 <= id < exprs.len()) {
        TyModel::Int
    } else {
        match exprs[id] {
            Expr::IntLiteral(_) => TyModel::Int,
            Expr::LongLiteral(_) => TyModel::Long,
            Expr::FloatLiteral(_) => TyModel::Float,
            Expr::DoubleLiteral(_) => TyModel::Double,
            Expr::BoolLiteral(_) => TyModel::Boolean,
            Expr::CharLiteral(_) => TyModel::Char,
            Expr::StringLiteral(_) => string_ty(),
            Expr::ClassName(n) => TyModel::Class(n@),
            Expr::MethodCall { .. } => TyModel::Void,
            Expr::NewObject { class, .. } => class@,
            Expr::NewArray { element_type, .. } => TyModel::Array(Box::new(element_type@)),
            Expr::Unary { op, operand } => if op is Not {
                TyModel::Boolean
            } else if 0 <= operand < id {
                base_ty(exprs, operand as int)
            } else {
                TyModel::Int
            },
            Expr::Binary { op, left, .. } => if op is AndAnd || op is OrOr || is_comparison_op(op) {
                TyModel::Boolean
            } else if 0 <= left < id {
                base_ty(exprs, left as int)
            } else {
                TyModel::Int
            },
            Expr::Ternary { then_expr, .. } => if 0 <= then_expr < id {
                base_ty(exprs, then_expr as int)
            } else {
                TyModel::Int
            },
            Expr::Cast { ty, .. } => ty@,
            Expr::Instanceof { .. } => TyModel::Boolean,
            Expr::Assign { value, .. } => if 0 <= value < id {
                base_ty(exprs, value as int)
            } else {
                TyModel::Int
            },
            Expr::PostInc(inner) => if 0 <= inner < id {
                base_ty(exprs, inner as int)
            } else {
                TyModel::Int
            },
            Expr::PostDec(inner) => if 0 <= inner < id {
                base_ty(exprs, inner as int)
            } else {
                TyModel::Int
            },
            Expr::Parens(inner) => if 0 <= inner < id {
                base_ty(exprs, inner as int)
            } else {
                TyModel::Int
            },
            Expr::Ident(_) | Expr::FieldAccess { .. } | Expr::ArrayAccess { .. } => TyModel::Int,
            _ => object_ty(),
        }
    }
}

/// `System.out`: the field `out` read from the name `System`, or from the class
/// `java/lang/System` that the name resolved to.
pub open spec fn is_system_out(exprs: Seq<Expr>, target: int, field: Seq<char>) -> bool {
    &&& field == "out"@
    &&& 0 <= target < exprs.len()
    &&& ((exprs[target] matches Expr::Ident(n) && n@ == "System"@) || (exprs[target] matches Expr::ClassName(n)
        && n@ == "java/lang/System"@))
}

pub open spec fn is_system_out_expr(exprs: Seq<Expr>, id: int) -> bool {
    &&& 0 <= id < exprs.len()
    &&& exprs[id] matches Expr::FieldAccess { target, field } && is_system_out(exprs, target as int, field@)
}

pub open spec fn is_this(exprs: Seq<Expr>, id: int) -> bool {
    0 <= id < exprs.len() && exprs[id] is This
}

pub open spec fn is_string(t: TyModel) -> bool {
    erasure(t) == string_ty()
}

/// The type of an expression as code generation sees it: names are looked up as
/// locals, then fields; `System.out` is a `PrintStream`; known methods of `String`
/// and of the class give their return types.
pub open spec fn expr_type(ctx: CodegenCtx, exprs: Seq<Expr>, id: int) -> TyModel
    decreases id,
{
    if !(0 <= id < exprs.len()) {
        TyModel::Int
    } else {
        match exprs[id] {
            Expr::Ident(name) => match local_type(ctx.locals@, name@) {
                Some(t) => t,
                None => match field_type(ctx, name@) {
                    Some(t) => t,
                    None => TyModel::Int,
                },
            },
            Expr::FieldAccess { target, field } => if is_system_out(exprs, target as int, field@) {
                TyModel::Class("java/io/PrintStream"@)
            } else if is_this(exprs, target as int) {
                match field_type(ctx, field@) {
                    Some(t) => t,
                    None => TyModel::Int,
                }
            } else {
                base_ty(exprs, id)
            },
            Expr::MethodCall { target, method, .. } => if method@ == "println"@ && (target matches Some(
                t,
            ) && is_system_out_expr(exprs, t as int)) {
                TyModel::Void
            } else if target matches Some(t) && 0 <= t < id && is_string(expr_type(ctx, exprs, t as int)) {
                if method@ == "length"@ {
                    TyModel::Int
                } else if method@ == "charAt"@ {
                    TyModel::Char
                } else {
                    base_ty(exprs, id)
                }
            } else {
                match method_return(ctx, method@) {
                    Some(t) => t,
                    None => base_ty(exprs, id),
                }
            },
            Expr::Binary { op, left, right } => if op is AndAnd || op is OrOr || is_comparison_op(op) {
                TyModel::Boolean
            } else if op is Add && 0 <= left < id && 0 <= right < id && (is_string(
                expr_type(ctx, exprs, left as int),
            ) || is_string(expr_type(ctx, exprs, right as int))) {
                string_ty()
            } else if 0 <= left < id {
                expr_type(ctx, exprs, left as int)
            } else {
                TyModel::Int
            },
            Expr::Unary { op, operand } => if op is Not {
                TyModel::Boolean
            } else if 0 <= operand < id {
                expr_type(ctx, exprs, operand as int)
            } else {
                TyModel::Int
            },
            Expr::Assign { value, .. } => if 0 <= value < id {
                expr_type(ctx, exprs, value as int)
            } else {
                TyModel::Int
            },
            Expr::Parens(inner) => if 0 <= inner < id {
                expr_type(ctx, exprs, inner as int)
            } else {
                TyModel::Int
            },
            Expr::Cast { ty, .. } => ty@,
            _ => base_ty(exprs, id),
        }
    }
}

/// `Expr::ty`: the type of an expression on its own.
pub fn base_type(body: &Body, id: ExprId) -> (r: Ty)
    requires
        body.wf(),
        id < body.exprs@.len(),
    ensures
        r@ == base_ty(body.exprs@, id as int),
    decreases id,
{
    proof {
        assert(expr_children_below(body.exprs@[id as int], id as int));
    }
    match &body.exprs[id] {
        Expr::IntLiteral(_) => Ty::Int,
        Expr::LongLiteral(_) => Ty::Long,
        Expr::FloatLiteral(_) => Ty::Float,
        Expr::DoubleLiteral(_) => Ty::Double,
        Expr::BoolLiteral(_) => Ty::Boolean,
        Expr::CharLiteral(_) => Ty::Char,
        Expr::StringLiteral(_) => Ty::string(),
        Expr::ClassName(n) => Ty::Class(n.clone()),
        Expr::MethodCall { .. } => Ty::Void,
        Expr::NewObject { class, .. } => class.copy(),
        Expr::NewArray { element_type, .. } => Ty::Array(Box::new(element_type.copy())),
        Expr::Unary { op, operand } => if matches!(op, UnaryOp::Not) {
            Ty::Boolean
        } else {
            base_type(body, *operand)
        },
        Expr::Binary { op, left, .. } => if matches!(op, BinaryOp::AndAnd | BinaryOp::OrOr) || is_comparison(*op) {
            Ty::Boolean
        } else {
            base_type(body, *left)
        },
        Expr::Ternary { then_expr, .. } => base_type(body, *then_expr),
        Expr::Cast { ty, .. } => ty.copy(),
        Expr::Instanceof { .. } => Ty::Boolean,
        Expr::Assign { value, .. } => base_type(body, *value),
        Expr::PostInc(inner) => base_type(body, *inner),
        Expr::PostDec(inner) => base_type(body, *inner),
        Expr::Parens(inner) => base_type(body, *inner),
        Expr::Ident(_) | Expr::FieldAccess { .. } | Expr::ArrayAccess { .. } => Ty::Int,
        _ => Ty::object(),
    }
}

/// Whether `target.field` is `System.out`.
pub fn system_out(body: &Body, target: ExprId, field: &str) -> (r: bool)
    ensures
        r == is_system_out(body.exprs@, target as int, field@),
{
    if !str_eq(field, "out") || target >= body.exprs.len() {
        return false;
    }
    match &body.exprs[target] {
        Expr::Ident(n) => str_eq(n.as_str(), "System"),
        Expr::ClassName(n) => str_eq(n.as_str(), "java/lang/System"),
        _ => false,
    }
}

pub fn system_out_expr(body: &Body, id: ExprId) -> (r: bool)
    ensures
        r == is_system_out_expr(body.exprs@, id as int),
{
    if id >= body.exprs.len() {
        return false;
    }
    match &body.exprs[id] {
        Expr::FieldAccess { target, field } => system_out(body, *target, field.as_str()),
        _ => false,
    }
}

pub fn current_instance(body: &Body, id: ExprId) -> (r: bool)
    ensures
        r == is_this(body.exprs@, id as int),
{
    id < body.exprs.len() && matches!(body.exprs[id], Expr::This)
}

pub fn string_type(ty: &Ty) -> (r: bool)
    ensures
        r == is_string(ty@),
{
    ty.erasure().is_class_named("java/lang/String")
}

impl CodegenCtx {
    /// The type of field `name`, as `field_type` states it.
    pub fn field_type_of(&self, name: &str) -> (r: Option<Ty>)
        ensures
            r matches Some(t) ==> field_type(*self, name@) == Some(t@),
            r is None ==> field_type(*self, name@) is None,
    {
        match self.find_field(name) {
            Some(i) => {
                proof {
                    assert(first_field_at(self.fields@, name@, i as int));
                    lemma_first_field_unique(self.fields@, name@, i as int);
                }
                Some(self.fields[i].ty.copy())
            },
            None => match self.find_outer_field(name) {
                Some(i) => {
                    proof {
                        assert(first_outer_at(self.outer_fields@, name@, i as int));
                        lemma_first_outer_unique(self.outer_fields@, name@, i as int);
                    }
                    Some(self.outer_fields[i].ty.copy())
                },
                None => None,
            },
        }
    }

    /// The return type of the class's method `name`, as `method_return` states it.
    pub fn method_return_of(&self, name: &str) -> (r: Option<Ty>)
        ensures
            r matches Some(t) ==> method_return(*self, name@) == Some(t@),
            r is None ==> method_return(*self, name@) is None,
    {
        let mut i: usize = 0;
        while i < self.methods.len()
            invariant
                i <= self.methods@.len(),
                forall|j: int| 0 <= j < i ==> self.methods@[j].name@ != name@,
            decreases self.methods@.len() - i,
        {
            if str_eq(self.methods[i].name.as_str(), name) {
                proof {
                    let ms = self.methods@;
                    let k = choose|k: int|
                        0 <= k < ms.len() && ms[k].name@ == name@ && forall|j: int|
                            0 <= j < k ==> ms[j].name@ != name@;
                    assert(0 <= i < ms.len() && ms[i as int].name@ == name@ && forall|j: int|
                        0 <= j < i ==> ms[j].name@ != name@);
                    if k < i {
                        assert(ms[k].name@ != name@);
                    } else if k > i {
                        assert(ms[i as int].name@ != name@);
                    }
                }
                return Some(self.methods[i].return_type.copy());
            }
            i = i + 1;
        }
        None
    }
}

/// The type of an expression as code generation sees it.
pub fn expr_ty(ctx: &CodegenCtx, body: &Body, id: ExprId) -> (r: Ty)
    requires
        body.wf(),
        id < body.exprs@.len(),
    ensures
        r@ == expr_type(*ctx, body.exprs@, id as int),
    decreases id,
{
    proof {
        assert(expr_children_below(body.exprs@[id as int], id as int));
    }
    match &body.exprs[id] {
        Expr::Ident(name) => match ctx.resolve_local_ty(name.as_str()) {
            Some(t) => t,
            None => match ctx.field_type_of(name.as_str()) {
                Some(t) => t,
                None => Ty::Int,
            },
        },
        Expr::FieldAccess { target, field } => if system_out(body, *target, field.as_str()) {
            Ty::Class(String::from_str("java/io/PrintStream"))
        } else if current_instance(body, *target) {
            match ctx.field_type_of(field.as_str()) {
                Some(t) => t,
                None => Ty::Int,
            }
        } else {
            base_type(body, id)
        },
        Expr::MethodCall { target, method, .. } => {
            let println_on_out = str_eq(method.as_str(), "println") && match target {
                Some(t) => system_out_expr(body, *t),
                None => false,
            };
            if println_on_out {
                Ty::Void
            } else {
                let string_target = match target {
                    Some(t) => string_type(&expr_ty(ctx, body, *t)),
                    None => false,
                };
                if string_target {
                    if str_eq(method.as_str(), "length") {
                        Ty::Int
                    } else if str_eq(method.as_str(), "charAt") {
                        Ty::Char
                    } else {
                        base_type(body, id)
                    }
                } else {
                    match ctx.method_return_of(method.as_str()) {
                        Some(t) => t,
                        None => base_type(body, id),
                    }
                }
            }
        },
        Expr::Binary { op, left, right } => if matches!(op, BinaryOp::AndAnd | BinaryOp::OrOr)
            || is_comparison(*op) {
            Ty::Boolean
        } else {
            let lt = expr_ty(ctx, body, *left);
            if matches!(op, BinaryOp::Add) && (string_type(&lt) || string_type(&expr_ty(ctx, body, *right))) {
                Ty::string()
            } else {
                lt
            }
        },
        Expr::Unary { op, operand } => if matches!(op, UnaryOp::Not) {
            Ty::Boolean
        } else {
            expr_ty(ctx, body, *operand)
        },
        Expr::Assign { value, .. } => expr_ty(ctx, body, *value),
        Expr::Parens(inner) => expr_ty(ctx, body, *inner),
        Expr::Cast { ty, .. } => ty.copy(),
        _ => base_type(body, id),
    }
}

/// The instruction that pushes a constant of type `t`'s default value, if any.
pub open spec fn default_code(t: TyModel) -> Seq<Insn> {
    match default_value_op(t) {
        Some(o) => seq![Insn::Op(o)],
        None => Seq::empty(),
    }
}

/// Pushes the default value of `ty`.
pub fn push_default_value(ctx: &mut CodegenCtx, ty: &Ty)
    ensures
        appended(final(ctx), old(ctx)),
        final(ctx).code@ == old(ctx).code@ + default_code(ty@),
        final(ctx).next_label == old(ctx).next_label,
{
    match default_value_opcode(ty) {
        Some(o) => {
            ctx.op(o);
            proof {
                assert(ctx.code@ =~= old(ctx).code@ + default_code(ty@));
            }
        },
        None => {
            proof {
                lemma_appended_refl(ctx, Set::empty());
                assert(ctx.code@ =~= old(ctx).code@ + default_code(ty@));
            }
        },
    }
}

/// Pops a value of type `ty`, if it has one.
pub fn pop_ty(ctx: &mut CodegenCtx, ty: &Ty)
    ensures
        appended(final(ctx), old(ctx)),
        final(ctx).code@ == old(ctx).code@ + (if ty@ is Void {
            Seq::<Insn>::empty()
        } else if slot_size(ty@) == 2 {
            seq![Insn::Op(opcodes::POP2)]
        } else {
            seq![Insn::Op(opcodes::POP)]
        }),
{
    if matches!(ty, Ty::Void) {
        proof {
            lemma_appended_refl(ctx, Set::empty());
            assert(ctx.code@ =~= old(ctx).code@ + Seq::<Insn>::empty());
        }
        return;
    }
    if ty.size() == 2 {
        ctx.op(opcodes::POP2);
    } else {
        ctx.op(opcodes::POP);
    }
    proof {
        assert(ctx.code@ =~= old(ctx).code@ + (if slot_size(ty@) == 2 {
            seq![Insn::Op(opcodes::POP2)]
        } else {
            seq![Insn::Op(opcodes::POP)]
        }));
    }
}

/// Duplicates a value of type `ty`.
pub fn dup_ty(ctx: &mut CodegenCtx, ty: &Ty)
    ensures
        appended(final(ctx), old(ctx)),
        final(ctx).code@ == old(ctx).code@.push(
            Insn::Op(if slot_size(ty@) == 2 { opcodes::DUP2 } else { opcodes::DUP }),
        ),
{
    if ty.size() == 2 {
        ctx.op(opcodes::DUP2);
    } else {
        ctx.op(opcodes::DUP);
    }
}

/// The instruction that pushes the `int` constant `v`.
pub open spec fn int_const_insn(v: i64) -> Insn {
    if v == -1 {
        Insn::Op(opcodes::ICONST_M1)
    } else if 0 <= v <= 5 {
        Insn::Op((opcodes::ICONST_0 + v) as u8)
    } else {
        Insn::LdcInt(v as i32)
    }
}

/// Pushes the `int` constant `v`: `iconst_m1` to `iconst_5`, else `ldc`.
pub fn gen_int_const(ctx: &mut CodegenCtx, v: i64)
    ensures
        appended(final(ctx), old(ctx)),
        -1 <= v <= 5 ==> final(ctx).code@ == old(ctx).code@.push(int_const_insn(v)),
        (i32::MIN <= v <= i32::MAX && !(-1 <= v <= 5)) ==> final(ctx).code@ == old(ctx).code@.push(
            Insn::LdcInt(v as i32),
        ),
{
    if v == -1 {
        ctx.op(opcodes::ICONST_M1);
    } else if v == 0 {
        ctx.op(opcodes::ICONST_0);
    } else if v == 1 {
        ctx.op(opcodes::ICONST_1);
    } else if v == 2 {
        ctx.op(opcodes::ICONST_2);
    } else if v == 3 {
        ctx.op(opcodes::ICONST_3);
    } else if v == 4 {
        ctx.op(opcodes::ICONST_4);
    } else if v == 5 {
        ctx.op(opcodes::ICONST_5);
    } else {
        ctx.emit(Insn::LdcInt(low_i32(v)));
    }
}

/// Pushes the `long` constant `v`: `lconst_0`, `lconst_1`, else `ldc2_w`.
pub fn gen_long_const(ctx: &mut CodegenCtx, v: i64)
    ensures
        appended(final(ctx), old(ctx)),
        final(ctx).code@ == old(ctx).code@.push(
            if v == 0 {
                Insn::Op(opcodes::LCONST_0)
            } else if v == 1 {
                Insn::Op(opcodes::LCONST_1)
            } else {
                Insn::LdcLong(v)
            },
        ),
{
    if v == 0 {
        ctx.op(opcodes::LCONST_0);
    } else if v == 1 {
        ctx.op(opcodes::LCONST_1);
    } else {
        ctx.emit(Insn::LdcLong(v));
    }
}

/// Converts a value of type `from` to `to` where a numeric conversion applies,
/// as an assignment stores a value; nothing else is sent.
pub fn coerce_numeric(ctx: &mut CodegenCtx, from: &Ty, to: &Ty)
    ensures
        appended(final(ctx), old(ctx)),
        final(ctx).code@ == old(ctx).code@ + (if from@ == to@ {
            Seq::<Insn>::empty()
        } else {
            match conversion_op(from@, to@) {
                Some(o) => seq![Insn::Op(o)],
                None => Seq::<Insn>::empty(),
            }
        }),
{
    if from.same(to) {
        proof {
            lemma_appended_refl(ctx, Set::empty());
            assert(ctx.code@ =~= old(ctx).code@ + Seq::<Insn>::empty());
        }
        return;
    }
    match numeric_conversion(from, to) {
        Some(o) => {
            ctx.op(o);
            proof {
                assert(ctx.code@ =~= old(ctx).code@ + seq![Insn::Op(o)]);
            }
        },
        None => {
            proof {
                lemma_appended_refl(ctx, Set::empty());
                assert(ctx.code@ =~= old(ctx).code@ + Seq::<Insn>::empty());
            }
        },
    }
}

/// The `checkcast` operand `coerce` uses for a target type: a class's internal
/// name, or the descriptor of an array's element type.
pub open spec fn coerce_cast_name(to: TyModel) -> Option<Seq<char>> {
    match erasure(to) {
        TyModel::Class(n) => Some(n),
        TyModel::Array(e) => Some(crate::ty::descriptor(*e)),
        _ => None,
    }
}

/// Converts a value of type `from` to `to`: a numeric conversion (narrowing to
/// `byte`, `char` or `short` from any type), else a `checkcast` to a class, or
/// to an array's element descriptor; nothing when the types are equal.
pub fn coerce(ctx: &mut CodegenCtx, from: &Ty, to: &Ty)
    ensures
        appended(final(ctx), old(ctx)),
        from@ == to@ ==> final(ctx).code@ == old(ctx).code@,
        from@ != to@ ==> match conversion_op(from@, to@) {
            Some(o) => final(ctx).code@ == old(ctx).code@.push(Insn::Op(o)),
            None => match coerce_cast_name(to@) {
                Some(n) => final(ctx).code@.len() == old(ctx).code@.len() + 1 && final(ctx).code@.drop_last()
                    == old(ctx).code@ && (final(ctx).code@.last() matches Insn::Type(op, s) && op == opcodes::CHECKCAST
                    && s@ == n),
                None => final(ctx).code@ == old(ctx).code@,
            },
        },
{
    if from.same(to) {
        proof {
            lemma_appended_refl(ctx, Set::empty());
        }
        return;
    }
    match numeric_conversion(from, to) {
        Some(o) => {
            ctx.op(o);
        },
        None => {
            let e = to.erasure();
            match e {
                Ty::Class(name) => {
                    ctx.emit(Insn::Type(opcodes::CHECKCAST, name));
                },
                Ty::Array(elem) => {
                    let d = elem.descriptor();
                    ctx.emit(Insn::Type(opcodes::CHECKCAST, d));
                },
                _ => {
                    proof {
                        lemma_appended_refl(ctx, Set::empty());
                    }
                },
            }
        },
    }
}

/// Converts a value of type `from` to `to`: a numeric conversion, else a
/// `checkcast` to a class or array type.
pub fn cast(ctx: &mut CodegenCtx, from: &Ty, to: &Ty)
    ensures
        appended(final(ctx), old(ctx)),
        from@ == to@ ==> final(ctx).code@ == old(ctx).code@,
        from@ != to@ ==> match conversion_op(from@, to@) {
            Some(o) => final(ctx).code@ == old(ctx).code@.push(Insn::Op(o)),
            None => match checkcast_name(to@) {
                Some(n) => final(ctx).code@.len() == old(ctx).code@.len() + 1
                    && (final(ctx).code@.last() matches Insn::Type(op, s) && op == opcodes::CHECKCAST && s@ == n),
                None => final(ctx).code@ == old(ctx).code@,
            },
        },
{
    if from.same(to) {
        proof {
            lemma_appended_refl(ctx, Set::empty());
        }
        return;
    }
    match numeric_conversion(from, to) {
        Some(o) => {
            ctx.op(o);
        },
        None => match checkcast_target(to) {
            Some(name) => {
                ctx.emit(Insn::Type(opcodes::CHECKCAST, name));
            },
            None => {
                proof {
                    lemma_appended_refl(ctx, Set::empty());
                }
            },
        },
    }
}

/// The six instructions that turn the jump `jump` into a boolean: the jump to
/// a label that pushes 1, else push 0 and go past it.
pub open spec fn bool_from_jump(frag: Seq<Insn>, jump: u8) -> bool {
    &&& frag.len() == 6
    &&& frag[0] is Jump && frag[0]->Jump_0 == jump
    &&& frag[1] == Insn::Op(opcodes::ICONST_0)
    &&& frag[2] is Jump && frag[2]->Jump_0 == opcodes::GOTO
    &&& frag[3] == Insn::Label(frag[0]->Jump_1)
    &&& frag[4] == Insn::Op(opcodes::ICONST_1)
    &&& frag[5] == Insn::Label(frag[2]->Jump_1)
}

/// Pushes 1 when the jump `jump_opcode` is taken and 0 otherwise.
pub fn emit_bool_from_jump(ctx: &mut CodegenCtx, jump_opcode: u8)
    ensures
        appended(final(ctx), old(ctx)),
        final(ctx).code@.len() == old(ctx).code@.len() + 6,
        bool_from_jump(code_from(*old(ctx), *final(ctx)), jump_opcode),
{
    let ghost s0 = *ctx;
    let t = ctx.new_label();
    let e = ctx.new_label();
    let ghost s1 = *ctx;
    let ghost ext = set![t, e];
    ctx.jump(jump_opcode, t);
    ctx.op(opcodes::ICONST_0);
    ctx.jump(opcodes::GOTO, e);
    ctx.label(t);
    ctx.op(opcodes::ICONST_1);
    ctx.label(e);
    proof {
        let n = s1.code@.len() as int;
        let frag = ctx.code@.subrange(n, n + 6);
        assert(frag =~= seq![
            Insn::Jump(jump_opcode, t),
            Insn::Op(opcodes::ICONST_0),
            Insn::Jump(opcodes::GOTO, e),
            Insn::Label(t),
            Insn::Op(opcodes::ICONST_1),
            Insn::Label(e),
        ]);
        assert(frag[3] == Insn::Label(t));
        assert(frag[5] == Insn::Label(e));
        assert(code_from(s0, *ctx) =~= frag);
        assert forall|i: int, l: u32| 0 <= i < frag.len() && #[trigger] refers(frag[i], l) implies binds(frag, l) by {
            if i == 0 {
                assert(l == t);
            } else if i == 2 {
                assert(l == e);
            }
        }
        assert(ctx.code@.subrange(0, n) =~= s1.code@);
        assert(s0.code == s1.code);
    }
}

/// Emits the opcode of an arithmetic or bitwise operator, if it has one.
pub fn gen_binary_op(ctx: &mut CodegenCtx, op: BinaryOp, ty: &Ty)
    ensures
        appended(final(ctx), old(ctx)),
        final(ctx).code@ == match crate::ops::binary_op(op, ty@) {
            Some(o) => old(ctx).code@.push(Insn::Op(o)),
            None => old(ctx).code@,
        },
{
    match arithmetic_opcode(op, ty) {
        Some(o) => ctx.op(o),
        None => {
            proof {
                lemma_appended_refl(ctx, Set::empty());
            }
        },
    }
}

/// Emits the opcode of a compound assignment's operator.
pub fn emit_assign_op(ctx: &mut CodegenCtx, op: AssignOp, ty: &Ty)
    ensures
        appended(final(ctx), old(ctx)),
        final(ctx).code@ == match assign_binary(op) {
            Some(b) => match crate::ops::binary_op(b, ty@) {
                Some(o) => old(ctx).code@.push(Insn::Op(o)),
                None => old(ctx).code@,
            },
            None => old(ctx).code@,
        },
{
    match assign_op_opcode(op, ty) {
        Some(o) => ctx.op(o),
        None => {
            proof {
                lemma_appended_refl(ctx, Set::empty());
            }
        },
    }
}

/// Compares the two values on the stack by `op` and pushes the boolean result.
pub fn gen_comparison(ctx: &mut CodegenCtx, op: BinaryOp, ty: &Ty)
    ensures
        appended(final(ctx), old(ctx)),
        compared_as_int(ty@) ==> bool_from_jump(code_from(*old(ctx), *final(ctx)), int_pair_jump(op)),
        (erasure(ty@) is Long || erasure(ty@) is Float || erasure(ty@) is Double) ==> (code_from(
            *old(ctx),
            *final(ctx),
        ).len() == 7 && code_from(*old(ctx), *final(ctx))[0] == Insn::Op(
            if erasure(ty@) is Long {
                opcodes::LCMP
            } else if erasure(ty@) is Float {
                opcodes::FCMPG
            } else {
                opcodes::DCMPG
            },
        ) && bool_from_jump(code_from(*old(ctx), *final(ctx)).skip(1), zero_jump(op))),
{
    let ghost s0 = *ctx;
    let e = ty.erasure();
    let jump = match e {
        Ty::Long => {
            ctx.op(opcodes::LCMP);
            single_value_compare_opcode(op)
        },
        Ty::Float => {
            ctx.op(opcodes::FCMPG);
            single_value_compare_opcode(op)
        },
        Ty::Double => {
            ctx.op(opcodes::DCMPG);
            single_value_compare_opcode(op)
        },
        Ty::Class(_) | Ty::Array(_) => {
            proof {
                lemma_appended_refl(ctx, Set::empty());
            }
            match op {
                BinaryOp::Ne => opcodes::IF_ACMPNE,
                _ => opcodes::IF_ACMPEQ,
            }
        },
        _ => {
            proof {
                lemma_appended_refl(ctx, Set::empty());
            }
            int_compare_opcode(op)
        },
    };
    let ghost s1 = *ctx;
    emit_bool_from_jump(ctx, jump);
    proof {
        lemma_chain(&s0, &s1, ctx, Set::empty());
        if s1.code@.len() == s0.code@.len() {
            assert(code_from(s0, *ctx) =~= code_from(s1, *ctx));
        } else {
            assert(code_from(s0, *ctx).skip(1) =~= code_from(s1, *ctx));
            assert(code_from(s0, *ctx)[0] == s1.code@.last());
        }
    }
}

/// The small whole number a float literal's text spells (`0`, `1`, `2`, with an
/// optional `.` or `.0`), if it spells one.
pub open spec fn small_float(text: Seq<char>) -> Option<u8> {
    if text == "0"@ || text == "0."@ || text == "0.0"@ {
        Some(0u8)
    } else if text == "1"@ || text == "1."@ || text == "1.0"@ {
        Some(1u8)
    } else if text == "2"@ || text == "2."@ || text == "2.0"@ {
        Some(2u8)
    } else {
        None
    }
}

pub fn small_float_exec(text: &str) -> (r: Option<u8>)
    ensures
        r == small_float(text@),
{
    if str_eq(text, "0") || str_eq(text, "0.") || str_eq(text, "0.0") {
        Some(0)
    } else if str_eq(text, "1") || str_eq(text, "1.") || str_eq(text, "1.0") {
        Some(1)
    } else if str_eq(text, "2") || str_eq(text, "2.") || str_eq(text, "2.0") {
        Some(2)
    } else {
        None
    }
}

/// Reads a name: a local, a field of the class (static or not), a captured outer
/// field, or a static field of the enclosing class.
pub fn emit_name(ctx: &mut CodegenCtx, name: &str)
    ensures
        appended(final(ctx), old(ctx)),
        local_slot(old(ctx).locals@, name@) matches Some(slot) ==> (local_type(old(ctx).locals@, name@) matches Some(t)
            ==> final(ctx).code@ == old(ctx).code@.push(Insn::Var(load_op(t), slot))),
        (local_slot(old(ctx).locals@, name@) is None && !(exists|i: int|
            0 <= i < old(ctx).fields@.len() && old(ctx).fields@[i].name@ == name@) && !(exists|i: int|
            0 <= i < old(ctx).outer_fields@.len() && old(ctx).outer_fields@[i].name@ == name@)) ==> final(ctx).code@
            == old(ctx).code@ + default_code(TyModel::Int),
        forall|i: int|
            local_slot(old(ctx).locals@, name@) is None && 0 <= i < old(ctx).fields@.len()
                && #[trigger] old(ctx).fields@[i].name@ == name@ && (forall|j: int|
                0 <= j < i ==> old(ctx).fields@[j].name@ != name@) ==> own_field_read(
                *old(ctx),
                *final(ctx),
                name@,
                old(ctx).fields@[i],
            ),
{
    let ghost s0 = *ctx;
    match ctx.get_local(name) {
        Some(slot) => {
            match ctx.resolve_local_ty(name) {
                Some(ty) => ctx.emit(Insn::Var(load_opcode(&ty), slot)),
                None => {
                    proof {
                        lemma_appended_refl(ctx, Set::empty());
                    }
                },
            }
            return;
        },
        None => {},
    }
    let ty = match ctx.field_ty(name) {
        Some(t) => t,
        None => {
            push_default_value(ctx, &Ty::Int);
            return;
        },
    };
    if ctx.field_is_static(name) {
        let owner = ctx.class_name.clone();
        let d = ty.descriptor();
        let n = String::from_str(name);
        ctx.emit(Insn::Field(opcodes::GETSTATIC, owner, n, d));
        proof {
            assert forall|i: int|
                0 <= i < s0.fields@.len() && #[trigger] s0.fields@[i].name@ == name@ && (forall|j: int|
                    0 <= j < i ==> s0.fields@[j].name@ != name@) implies s0.fields@[i].access_flags & opcodes::ACC_STATIC
                != 0 by {
                let k = choose|k: int|
                    0 <= k < s0.fields@.len() && #[trigger] s0.fields@[k].name@ == name@ && (forall|j: int|
                        0 <= j < k ==> s0.fields@[j].name@ != name@) && s0.fields@[k].access_flags & opcodes::ACC_STATIC
                        != 0;
                if k < i {
                } else if k > i {
                    assert(s0.fields@[i].name@ != name@);
                }
            }
            assert(ctx.code@.drop_last() =~= s0.code@);
        }
        return;
    }
    match ctx.find_outer_field(name) {
        Some(i) => {
            let flags = ctx.outer_fields[i].access_flags;
            let oname = ctx.outer_fields[i].name.clone();
            let odesc = ctx.outer_fields[i].ty.descriptor();
            if flags & opcodes::ACC_STATIC != 0 {
                let owner = match &ctx.outer_this {
                    Some(outer) => Some(outer.ty.internal_name()),
                    None => match &ctx.enclosing_static_owner {
                        Some(o) => Some(o.clone()),
                        None => None,
                    },
                };
                match owner {
                    Some(owner) => ctx.emit(Insn::Field(opcodes::GETSTATIC, owner, oname, odesc)),
                    None => push_default_value(ctx, &ty),
                }
                return;
            }
            let outer = match &ctx.outer_this {
                Some(outer) => Some((outer.field_name.clone(), outer.ty.descriptor(), outer.ty.internal_name())),
                None => None,
            };
            match outer {
                Some((field_name, this_desc, outer_class)) => {
                    let class_name = ctx.class_name.clone();
                    ctx.emit(Insn::Var(opcodes::ALOAD, 0));
                    let ghost s1 = *ctx;
                    ctx.emit(Insn::Field(opcodes::GETFIELD, class_name, field_name, this_desc));
                    proof {
                        lemma_chain(&s0, &s1, ctx, Set::empty());
                    }
                    let ghost s2 = *ctx;
                    ctx.emit(Insn::Field(opcodes::GETFIELD, outer_class, oname, odesc));
                    proof {
                        lemma_chain(&s0, &s2, ctx, Set::empty());
                    }
                    return;
                },
                None => {},
            }
        },
        None => {},
    }
    let static_ref = match &ctx.enclosing_static_owner {
        Some(owner) => crate::resolver::resolve_static_field(owner.as_str(), name),
        None => None,
    };
    match static_ref {
        Some(f) => {
            ctx.emit(
                Insn::Field(
                    opcodes::GETSTATIC,
                    String::from_str(f.owner),
                    String::from_str(f.name),
                    String::from_str(f.descriptor),
                ),
            );
        },
        None => {
            let class_name = ctx.class_name.clone();
            ctx.emit(Insn::Var(opcodes::ALOAD, 0));
            let ghost s1 = *ctx;
            ctx.emit(Insn::Field(opcodes::GETFIELD, class_name, String::from_str(name), ty.descriptor()));
            proof {
                lemma_chain(&s0, &s1, ctx, Set::empty());
            }
        },
    }
}

/// How a method reads a field of its own class by name: a static field by
/// `getstatic` on the class; an instance field, when no captured outer field
/// and no static owner can take the name, by `aload_0` and `getfield`.
pub open spec fn own_field_read(old: CodegenCtx, new: CodegenCtx, name: Seq<char>, f: FieldInfo) -> bool {
    &&& f.access_flags & opcodes::ACC_STATIC != 0 ==> {
        &&& new.code@.len() == old.code@.len() + 1
        &&& new.code@.drop_last() == old.code@
        &&& new.code@.last() matches Insn::Field(op, o, n, d)
        &&& op == opcodes::GETSTATIC && o@ == old.class_name@ && n@ == name && d@ == crate::ty::descriptor(f.ty@)
    }
    &&& (f.access_flags & opcodes::ACC_STATIC == 0 && !(exists|k: int|
        0 <= k < old.outer_fields@.len() && old.outer_fields@[k].name@ == name) && old.enclosing_static_owner is None)
        ==> {
        &&& new.code@.len() == old.code@.len() + 2
        &&& new.code@.subrange(0, old.code@.len() as int) == old.code@
        &&& new.code@[old.code@.len() as int] == Insn::Var(opcodes::ALOAD, 0)
        &&& new.code@.last() matches Insn::Field(op, o, n, d)
        &&& op == opcodes::GETFIELD && o@ == old.class_name@ && n@ == name && d@ == crate::ty::descriptor(f.ty@)
    }
}

/// Reads `target.field` when it is `System.out` or a field of `this`; false when
/// neither, and then nothing is emitted.
pub fn gen_field_access(ctx: &mut CodegenCtx, body: &Body, target: ExprId, field: &str) -> (r: bool)
    ensures
        appended(final(ctx), old(ctx)),
        !r ==> final(ctx).code == old(ctx).code,
{
    let ghost s0 = *ctx;
    if system_out(body, target, field) {
        ctx.emit(
            Insn::Field(
                opcodes::GETSTATIC,
                String::from_str("java/lang/System"),
                String::from_str("out"),
                String::from_str("Ljava/io/PrintStream;"),
            ),
        );
        return true;
    }
    if current_instance(body, target) {
        match ctx.field_ty(field) {
            Some(ty) => {
                let class_name = ctx.class_name.clone();
                ctx.emit(Insn::Var(opcodes::ALOAD, 0));
                let ghost s1 = *ctx;
                ctx.emit(Insn::Field(opcodes::GETFIELD, class_name, String::from_str(field), ty.descriptor()));
                proof {
                    lemma_chain(&s0, &s1, ctx, Set::empty());
                }
                return true;
            },
            None => {},
        }
    }
    proof {
        lemma_appended_refl(ctx, Set::empty());
    }
    false
}

/// The instructions of an expression. Every jump in them lands on a
/// label placed among them.
pub fn gen_expr(ctx: &mut CodegenCtx, body: &Body, id: ExprId)
    requires
        body.wf(),
        id < body.exprs@.len(),
    ensures
        appended(final(ctx), old(ctx)),
        body.exprs@[id as int] matches Expr::Binary { op, left, right } ==> binary_code(
            *old(ctx),
            *final(ctx),
            body.exprs@,
            op,
            left as int,
            right as int,
        ),
        body.exprs@[id as int] matches Expr::IntLiteral(v) ==> (i32::MIN <= v <= i32::MAX ==> final(ctx).code@
            == old(ctx).code@.push(int_const_insn(v))),
        body.exprs@[id as int] matches Expr::BoolLiteral(b) ==> final(ctx).code@ == old(ctx).code@.push(
            Insn::Op(if b { opcodes::ICONST_1 } else { opcodes::ICONST_0 }),
        ),
        body.exprs@[id as int] is NullLiteral ==> final(ctx).code@ == old(ctx).code@.push(Insn::Op(opcodes::ACONST_NULL)),
        body.exprs@[id as int] matches Expr::StringLiteral(text) ==> final(ctx).code@ == old(ctx).code@.push(
            Insn::LdcString(text),
        ),
        body.exprs@[id as int] matches Expr::CharLiteral(c) ==> final(ctx).code@ == old(ctx).code@.push(
            int_const_insn(c as i64),
        ),
        body.exprs@[id as int] is This ==> final(ctx).code@ == old(ctx).code@.push(Insn::Var(opcodes::ALOAD, 0)),
        body.exprs@[id as int] matches Expr::Ident(n) ==> (local_slot(old(ctx).locals@, n@) matches Some(slot) ==> (
        local_type(old(ctx).locals@, n@) matches Some(t) ==> final(ctx).code@ == old(ctx).code@.push(
            Insn::Var(load_op(t), slot),
        ))),
        expr_code(*old(ctx), body.exprs@, id as int, code_from(*old(ctx), *final(ctx))),
    decreases id, 3int,
{
    proof {
        assert(expr_children_below(body.exprs@[id as int], id as int));
    }
    let ghost s0 = *ctx;
    match &body.exprs[id] {
        Expr::IntLiteral(v) => gen_int_const(ctx, *v),
        Expr::LongLiteral(v) => gen_long_const(ctx, *v),
        Expr::FloatLiteral(text) => match small_float_exec(text.as_str()) {
            Some(0) => ctx.op(opcodes::FCONST_0),
            Some(1) => ctx.op(opcodes::FCONST_1),
            Some(2) => ctx.op(opcodes::FCONST_2),
            _ => ctx.emit(Insn::LdcFloat(text.clone())),
        },
        Expr::DoubleLiteral(text) => match small_float_exec(text.as_str()) {
            Some(0) => ctx.op(opcodes::DCONST_0),
            Some(1) => ctx.op(opcodes::DCONST_1),
            _ => ctx.emit(Insn::LdcDouble(text.clone())),
        },
        Expr::BoolLiteral(b) => ctx.op(if *b { opcodes::ICONST_1 } else { opcodes::ICONST_0 }),
        Expr::NullLiteral => ctx.op(opcodes::ACONST_NULL),
        Expr::StringLiteral(s) => ctx.emit(Insn::LdcString(s.clone())),
        Expr::CharLiteral(c) => gen_int_const(ctx, char_code(*c)),
        Expr::This => ctx.emit(Insn::Var(opcodes::ALOAD, 0)),
        Expr::Ident(name) => emit_name(ctx, name.as_str()),
        Expr::MethodCall { target, method, args } => {
            if !gen_known_method_call(ctx, body, id, *target, method.as_str(), args) {
                match target {
                    Some(t) => discard_expr(ctx, body, *t),
                    None => {
                        proof {
                            lemma_appended_refl(ctx, Set::empty());
                        }
                    },
                }
                let mut i: usize = 0;
                while i < args.len()
                    invariant
                        body.wf(),
                        id < body.exprs@.len(),
                        i <= args@.len(),
                        forall|k: int| 0 <= k < args@.len() ==> args@[k] < id,
                        appended(ctx, &s0),
                    decreases args@.len() - i,
                {
                    let ghost s1 = *ctx;
                    discard_expr(ctx, body, args[i]);
                    proof {
                        lemma_chain(&s0, &s1, ctx, Set::empty());
                    }
                    i = i + 1;
                }
                let ty = expr_ty(ctx, body, id);
                if !matches!(ty, Ty::Void) {
                    let ghost s1 = *ctx;
                    push_default_value(ctx, &ty);
                    proof {
                        lemma_chain(&s0, &s1, ctx, Set::empty());
                    }
                }
            }
        },
        Expr::FieldAccess { target, field } => {
            if !gen_field_access(ctx, body, *target, field.as_str()) {
                discard_expr(ctx, body, *target);
                let ty = expr_ty(ctx, body, id);
                let ghost s1 = *ctx;
                push_default_value(ctx, &ty);
                proof {
                    lemma_chain(&s0, &s1, ctx, Set::empty());
                }
            }
        },
        Expr::Binary { op, left, right } => gen_binary_expr(ctx, body, id, *op, *left, *right),
        Expr::Unary { op, operand } => gen_unary_expr(ctx, body, id, *op, *operand),
        Expr::NewObject { class, args, .. } => {
            let name = class.internal_name();
            ctx.emit(Insn::Type(opcodes::NEW, name.clone()));
            let ghost s1 = *ctx;
            ctx.op(opcodes::DUP);
            proof {
                lemma_chain(&s0, &s1, ctx, Set::empty());
            }
            let mut desc = String::from_str("(");
            let mut i: usize = 0;
            while i < args.len()
                invariant
                    body.wf(),
                    id < body.exprs@.len(),
                    i <= args@.len(),
                    forall|k: int| 0 <= k < args@.len() ==> args@[k] < id,
                    appended(ctx, &s0),
                decreases args@.len() - i,
            {
                let ghost s2 = *ctx;
                gen_expr(ctx, body, args[i]);
                proof {
                    lemma_chain(&s0, &s2, ctx, Set::empty());
                }
                let arg_ty = expr_ty(ctx, body, args[i]);
                desc.append(arg_ty.erasure().descriptor().as_str());
                i = i + 1;
            }
            desc.append(")V");
            let ghost s3 = *ctx;
            ctx.emit(Insn::Method(opcodes::INVOKESPECIAL, name, String::from_str("<init>"), desc, false));
            proof {
                lemma_chain(&s0, &s3, ctx, Set::empty());
            }
        },
        Expr::Parens(inner) => gen_expr(ctx, body, *inner),
        Expr::Cast { ty, expr } => {
            gen_expr(ctx, body, *expr);
            let from = expr_ty(ctx, body, *expr);
            let ghost s1 = *ctx;
            cast(ctx, &from, ty);
            proof {
                lemma_chain(&s0, &s1, ctx, Set::empty());
            }
        },
        Expr::Assign { target, op, value } => emit_assign(ctx, body, id, *target, *op, *value),
        Expr::PostInc(inner) => emit_post_inc_dec(ctx, body, *inner, 1),
        Expr::PostDec(inner) => emit_post_inc_dec(ctx, body, *inner, -1),
        Expr::Switch { selector, cases } => emit_switch_expr(ctx, body, id, *selector, cases),
        _ => {
            let ty = expr_ty(ctx, body, id);
            push_default_value(ctx, &ty);
        },
    }
    proof {
        assert(expr_code(s0, body.exprs@, id as int, code_from(s0, *ctx))) by {
            reveal(expr_code);
            if ctx.code@.len() == s0.code@.len() + 1 {
                assert(code_from(s0, *ctx) =~= seq![ctx.code@.last()]);
            }
        }
    }
}

/// Evaluates an expression and drops its value.
pub fn discard_expr(ctx: &mut CodegenCtx, body: &Body, id: ExprId)
    requires
        body.wf(),
        id < body.exprs@.len(),
    ensures
        appended(final(ctx), old(ctx)),
    decreases id, 4int,
{
    let ghost s0 = *ctx;
    gen_expr(ctx, body, id);
    let ty = expr_ty(ctx, body, id);
    let ghost s1 = *ctx;
    pop_ty(ctx, &ty);
    proof {
        lemma_chain(&s0, &s1, ctx, Set::empty());
    }
}

/// The arguments, each evaluated in order.
fn gen_args(ctx: &mut CodegenCtx, body: &Body, parent: ExprId, args: &Vec<ExprId>)
    requires
        body.wf(),
        parent < body.exprs@.len(),
        forall|k: int| 0 <= k < args@.len() ==> args@[k] < parent,
    ensures
        appended(final(ctx), old(ctx)),
    decreases parent, 1int,
{
    let ghost s0 = *ctx;
    proof {
        lemma_appended_refl(ctx, Set::empty());
    }
    let mut i: usize = 0;
    while i < args.len()
        invariant
            body.wf(),
            parent < body.exprs@.len(),
            i <= args@.len(),
            forall|k: int| 0 <= k < args@.len() ==> args@[k] < parent,
            appended(ctx, &s0),
        decreases args@.len() - i,
    {
        let ghost s1 = *ctx;
        gen_expr(ctx, body, args[i]);
        proof {
            lemma_chain(&s0, &s1, ctx, Set::empty());
        }
        i = i + 1;
    }
}

/// The code from `at` on opens with `System.out` and ends with a call of
/// `PrintStream.println`.
/// The descriptors of the arguments' types, one after another.
pub open spec fn arg_descriptors(ctx: CodegenCtx, exprs: Seq<Expr>, args: Seq<ExprId>) -> Seq<char>
    decreases args.len(),
{
    if args.len() == 0 {
        Seq::empty()
    } else {
        arg_descriptors(ctx, exprs, args.drop_last()) + crate::ty::descriptor(expr_type(ctx, exprs, args.last() as int))
    }
}

pub open spec fn println_frame(code: Seq<Insn>, at: int) -> bool {
    &&& 0 <= at < code.len()
    &&& code[at] matches Insn::Field(op, owner, f, _)
    &&& op == opcodes::GETSTATIC
    &&& owner@ == "java/lang/System"@
    &&& f@ == "out"@
    &&& code.last() matches Insn::Method(op2, cls, m, _, itf)
    &&& op2 == opcodes::INVOKEVIRTUAL
    &&& cls@ == "java/io/PrintStream"@
    &&& m@ == "println"@
    &&& !itf
}

/// Calls `System.out.println`, `String.length`, `String.charAt`, or a method of the
/// class itself; false when the call is none of these, and then nothing is emitted.
pub fn gen_known_method_call(
    ctx: &mut CodegenCtx,
    body: &Body,
    parent: ExprId,
    target: Option<ExprId>,
    method: &str,
    args: &Vec<ExprId>,
) -> (r: bool)
    requires
        body.wf(),
        parent < body.exprs@.len(),
        target matches Some(t) ==> t < parent,
        forall|k: int| 0 <= k < args@.len() ==> args@[k] < parent,
    ensures
        appended(final(ctx), old(ctx)),
        !r ==> final(ctx).code == old(ctx).code,
        method@ == "println"@ ==> (target matches Some(t) ==> (is_system_out_expr(body.exprs@, t as int) ==> (r
            && final(ctx).code@.len() >= old(ctx).code@.len() + 2 && println_frame(
            final(ctx).code@,
            old(ctx).code@.len() as int,
        ) && (final(ctx).code@.last() matches Insn::Method(_, _, _, d, _) && d@ == "("@ + arg_descriptors(
            *old(ctx),
            body.exprs@,
            args@,
        ) + ")V"@) && exists|cuts: Seq<int>|
            #[trigger] args_code(
                *old(ctx),
                body.exprs@,
                args@,
                final(ctx).code@.subrange(old(ctx).code@.len() + 1 as int, final(ctx).code@.len() - 1 as int),
                cuts,
            )))),
    decreases parent, 2int,
{
    let ghost s0 = *ctx;
    let on_out = match target {
        Some(t) => system_out_expr(body, t),
        None => false,
    };
    if str_eq(method, "println") && on_out {
        let mut desc = String::from_str("(");
        let mut i: usize = 0;
        proof {
            reveal_strlit("(");
            assert(desc@ == "("@ + arg_descriptors(s0, body.exprs@, args@.take(0)));
        }
        while i < args.len()
            invariant
                body.wf(),
                parent < body.exprs@.len(),
                i <= args@.len(),
                forall|k: int| 0 <= k < args@.len() ==> args@[k] < parent,
                *ctx == s0,
                desc@ == "("@ + arg_descriptors(s0, body.exprs@, args@.take(i as int)),
            decreases args@.len() - i,
        {
            let arg_ty = expr_ty(ctx, body, args[i]);
            let ghost before = desc@;
            desc.append(arg_ty.descriptor().as_str());
            proof {
                assert(args@.take(i + 1).drop_last() =~= args@.take(i as int));
                assert(desc@ =~= "("@ + arg_descriptors(s0, body.exprs@, args@.take(i + 1)));
            }
            i = i + 1;
        }
        desc.append(")V");
        proof {
            assert(args@.take(args@.len() as int) =~= args@);
        }
        ctx.emit(
            Insn::Field(
                opcodes::GETSTATIC,
                String::from_str("java/lang/System"),
                String::from_str("out"),
                String::from_str("Ljava/io/PrintStream;"),
            ),
        );
        let ghost s_out = *ctx;
        proof {
            lemma_appended_refl(ctx, Set::empty());
        }
        let ghost mut cuts: Seq<int> = seq![0int];
        let mut i: usize = 0;
        while i < args.len()
            invariant
                body.wf(),
                parent < body.exprs@.len(),
                i <= args@.len(),
                forall|k: int| 0 <= k < args@.len() ==> args@[k] < parent,
                appended(ctx, &s0),
                appended(ctx, &s_out),
                args_code(s0, body.exprs@, args@.take(i as int), code_from(s_out, *ctx), cuts),
            decreases args@.len() - i,
        {
            let ghost s1 = *ctx;
            gen_expr(ctx, body, args[i]);
            proof {
                lemma_chain(&s0, &s1, ctx, Set::empty());
                lemma_chain(&s_out, &s1, ctx, Set::empty());
                lemma_args_step(s0, s_out, s1, *ctx, body.exprs@, args@, i as int, cuts);
                cuts = cuts.push(code_from(s_out, *ctx).len() as int);
            }
            i = i + 1;
        }
        proof {
            assert(args@.take(args@.len() as int) =~= args@);
        }
        let ghost s2 = *ctx;
        ctx.emit(
            Insn::Method(
                opcodes::INVOKEVIRTUAL,
                String::from_str("java/io/PrintStream"),
                String::from_str("println"),
                desc,
                false,
            ),
        );
        proof {
            lemma_chain(&s0, &s2, ctx, Set::empty());
            lemma_chain(&s_out, &s2, ctx, Set::empty());
            assert(ctx.code@.subrange(0, s_out.code@.len() as int)[s0.code@.len() as int] == ctx.code@[s0.code@.len() as int]);
            assert(args_code(s0, body.exprs@, args@, code_from(s_out, s2), cuts));
            assert(ctx.code@.subrange(s0.code@.len() + 1 as int, ctx.code@.len() - 1 as int) =~= code_from(s_out, s2)) by {
                assert(ctx.code@.subrange(0, s2.code@.len() as int) == s2.code@);
                assert forall|j: int| 0 <= j < s2.code@.len() - s_out.code@.len() implies ctx.code@.subrange(
                    s0.code@.len() + 1 as int,
                    ctx.code@.len() - 1 as int,
                )[j] == code_from(s_out, s2)[j] by {
                    assert(ctx.code@[s_out.code@.len() + j] == ctx.code@.subrange(0, s2.code@.len() as int)[s_out.code@.len() + j]);
                }
            }
        }
        return true;
    }
    match target {
        Some(t) => {
            let target_ty = expr_ty(ctx, body, t);
            if string_type(&target_ty) {
                if str_eq(method, "length") && args.len() == 0 {
                    gen_expr(ctx, body, t);
                    let ghost s1 = *ctx;
                    ctx.emit(
                        Insn::Method(
                            opcodes::INVOKEVIRTUAL,
                            String::from_str("java/lang/String"),
                            String::from_str("length"),
                            String::from_str("()I"),
                            false,
                        ),
                    );
                    proof {
                        lemma_chain(&s0, &s1, ctx, Set::empty());
                    }
                    return true;
                }
                if str_eq(method, "charAt") && args.len() == 1 {
                    gen_expr(ctx, body, t);
                    let ghost s1 = *ctx;
                    gen_expr(ctx, body, args[0]);
                    proof {
                        lemma_chain(&s0, &s1, ctx, Set::empty());
                    }
                    let ghost s2 = *ctx;
                    ctx.emit(
                        Insn::Method(
                            opcodes::INVOKEVIRTUAL,
                            String::from_str("java/lang/String"),
                            String::from_str("charAt"),
                            String::from_str("(I)C"),
                            false,
                        ),
                    );
                    proof {
                        lemma_chain(&s0, &s2, ctx, Set::empty());
                    }
                    return true;
                }
            }
            if current_instance(body, t) {
                let sig = match ctx.method_sig(method) {
                    Some(sig) => Some(sig.descriptor()),
                    None => None,
                };
                match sig {
                    Some(desc) => {
                        gen_expr(ctx, body, t);
                        let ghost s1 = *ctx;
                        gen_args(ctx, body, parent, args);
                        proof {
                            lemma_chain(&s0, &s1, ctx, Set::empty());
                        }
                        let class_name = ctx.class_name.clone();
                        let ghost s2 = *ctx;
                        ctx.emit(
                            Insn::Method(opcodes::INVOKEVIRTUAL, class_name, String::from_str(method), desc, false),
                        );
                        proof {
                            lemma_chain(&s0, &s2, ctx, Set::empty());
                        }
                        return true;
                    },
                    None => {},
                }
            }
        },
        None => {
            let sig = match ctx.method_sig(method) {
                Some(sig) => Some((sig.descriptor(), sig.access_flags & opcodes::ACC_STATIC != 0)),
                None => None,
            };
            match sig {
                Some((desc, is_static)) => {
                    if !is_static {
                        ctx.emit(Insn::Var(opcodes::ALOAD, 0));
                    } else {
                        proof {
                            lemma_appended_refl(ctx, Set::empty());
                        }
                    }
                    let ghost s1 = *ctx;
                    gen_args(ctx, body, parent, args);
                    proof {
                        lemma_chain(&s0, &s1, ctx, Set::empty());
                    }
                    let class_name = ctx.class_name.clone();
                    let ghost s2 = *ctx;
                    ctx.emit(
                        Insn::Method(
                            if is_static { opcodes::INVOKESTATIC } else { opcodes::INVOKEVIRTUAL },
                            class_name,
                            String::from_str(method),
                            desc,
                            false,
                        ),
                    );
                    proof {
                        lemma_chain(&s0, &s2, ctx, Set::empty());
                    }
                    return true;
                },
                None => {},
            }
        },
    }
    proof {
        lemma_appended_refl(ctx, Set::empty());
    }
    false
}

/// A binary operator: short-circuit logic, a comparison, string concatenation
/// through a `StringBuilder`, or arithmetic (`gen_binary_expr`, `emit_binary`).
pub fn gen_binary_expr(ctx: &mut CodegenCtx, body: &Body, parent: ExprId, op: BinaryOp, left: ExprId, right: ExprId)
    requires
        body.wf(),
        parent < body.exprs@.len(),
        left < parent,
        right < parent,
    ensures
        appended(final(ctx), old(ctx)),
        binary_code(*old(ctx), *final(ctx), body.exprs@, op, left as int, right as int),
    decreases parent, 2int,
{
    let ghost s0 = *ctx;
    let left_ty = expr_ty(ctx, body, left);
    let right_ty = expr_ty(ctx, body, right);
    match op {
        BinaryOp::AndAnd => {
            gen_short_circuit(ctx, body, parent, left, right, true);
        },
        BinaryOp::OrOr => {
            gen_short_circuit(ctx, body, parent, left, right, false);
        },
        BinaryOp::Eq | BinaryOp::Ne | BinaryOp::Lt | BinaryOp::Gt | BinaryOp::Le | BinaryOp::Ge => {
            gen_expr(ctx, body, left);
            let ghost s1 = *ctx;
            gen_expr(ctx, body, right);
            proof {
                lemma_chain(&s0, &s1, ctx, Set::empty());
            }
            let ghost s2 = *ctx;
            gen_comparison(ctx, op, &left_ty);
            proof {
                lemma_chain(&s0, &s2, ctx, Set::empty());
                if compared_as_int(left_ty@) {
                    assert(ctx.code@.skip(ctx.code@.len() - 6) =~= code_from(s2, *ctx));
                }
            }
        },
        _ => {
            if matches!(op, BinaryOp::Add) && (string_type(&left_ty) || string_type(&right_ty)) {
                emit_string_concat(ctx, body, parent, left, right);
            } else {
                gen_expr(ctx, body, left);
                let ghost s1 = *ctx;
                gen_expr(ctx, body, right);
                proof {
                    lemma_chain(&s0, &s1, ctx, Set::empty());
                }
                let ghost s2 = *ctx;
                gen_binary_op(ctx, op, &left_ty);
                proof {
                    lemma_chain(&s0, &s2, ctx, Set::empty());
                    lemma_arith_code(s0, s1, s2, *ctx, body.exprs@, op, left as int, right as int);
                }
            }
        },
    }
}

/// The code a context received between two of its states.
pub open spec fn code_from(old: CodegenCtx, new: CodegenCtx) -> Seq<Insn> {
    new.code@.subrange(old.code@.len() as int, new.code@.len() as int)
}

/// `StringBuilder.append` with the overload for a value of type `t`.
pub open spec fn is_append_insn(i: Insn, t: TyModel) -> bool {
    i matches Insn::Method(op, c, m, d, itf) && op == opcodes::INVOKEVIRTUAL && c@ == "java/lang/StringBuilder"@ && m@
        == "append"@ && d@ == append_descriptor(t) && !itf
}

/// Whether `id` is a `+` that concatenates strings.
pub open spec fn is_concat(s: CodegenCtx, exprs: Seq<Expr>, id: int) -> bool {
    &&& 0 <= id < exprs.len()
    &&& exprs[id] matches Expr::Binary { op, left, right }
    &&& op is Add
    &&& 0 <= left < id
    &&& 0 <= right < id
    &&& is_string(expr_type(s, exprs, left as int)) || is_string(expr_type(s, exprs, right as int))
}

/// The code `frag` of expression `id`, generated in the environment of `s`, as
/// far as it is stated here: a literal's constant, `this`, and the inner
/// expression of parentheses. (The code of a binary expression is stated by
/// `binary_code`.)
#[verifier::opaque]
pub open spec fn expr_code(s: CodegenCtx, exprs: Seq<Expr>, id: int, frag: Seq<Insn>) -> bool
    decreases id,
{
    if !(0 <= id < exprs.len()) {
        true
    } else {
        match exprs[id] {
            Expr::IntLiteral(v) => i32::MIN <= v <= i32::MAX ==> frag == seq![int_const_insn(v)],
            Expr::BoolLiteral(b) => frag == seq![Insn::Op(if b { opcodes::ICONST_1 } else { opcodes::ICONST_0 })],
            Expr::NullLiteral => frag == seq![Insn::Op(opcodes::ACONST_NULL)],
            Expr::StringLiteral(t) => frag == seq![Insn::LdcString(t)],
            Expr::CharLiteral(c) => frag == seq![int_const_insn(c as i64)],
            Expr::This => frag == seq![Insn::Var(opcodes::ALOAD, 0)],
            Expr::Parens(inner) => 0 <= inner < id ==> expr_code(s, exprs, inner as int, frag),
            _ => true,
        }
    }
}

/// The code `frag` that appends the operand `id` of a concatenation in the
/// environment of `s`: its own code, then the `append` for its type. (A nested
/// concatenation is flattened into its parts, whose code is not stated here.)
#[verifier::opaque]
pub open spec fn operand_part(s: CodegenCtx, exprs: Seq<Expr>, id: int, frag: Seq<Insn>) -> bool {
    if id < 0 {
        false
    } else if is_concat(s, exprs, id) {
        true
    } else {
        &&& frag.len() >= 1
        &&& is_append_insn(frag.last(), expr_type(s, exprs, id))
        &&& expr_code(s, exprs, id, frag.drop_last())
    }
}

/// `new StringBuilder()`, as three instructions.
pub open spec fn is_concat_head(h: Seq<Insn>) -> bool {
    &&& h.len() == 3
    &&& h[0] matches Insn::Type(op, n) && op == opcodes::NEW && n@ == "java/lang/StringBuilder"@
    &&& h[1] == Insn::Op(opcodes::DUP)
    &&& h[2] matches Insn::Method(op, c, m, d, itf) && op == opcodes::INVOKESPECIAL && c@ == "java/lang/StringBuilder"@
        && m@ == "<init>"@ && d@ == "()V"@ && !itf
}

/// `StringBuilder.toString()`.
pub open spec fn is_to_string(i: Insn) -> bool {
    i matches Insn::Method(op, c, m, d, itf) && op == opcodes::INVOKEVIRTUAL && c@ == "java/lang/StringBuilder"@ && m@
        == "toString"@ && d@ == "()Ljava/lang/String;"@ && !itf
}

proof fn lemma_env_lookups(a: CodegenCtx, b: CodegenCtx, n: Seq<char>)
    requires
        same_env(&a, &b),
    ensures
        field_type(a, n) == field_type(b, n),
        method_return(a, n) == method_return(b, n),
        local_type(a.locals@, n) == local_type(b.locals@, n),
{
    assert(a.fields@ == b.fields@);
    assert(a.outer_fields@ == b.outer_fields@);
    assert(a.methods@ == b.methods@);
}

/// Types do not depend on the code emitted so far, only on the environment.
pub proof fn lemma_expr_type_env(a: CodegenCtx, b: CodegenCtx, exprs: Seq<Expr>, id: int)
    requires
        same_env(&a, &b),
    ensures
        expr_type(a, exprs, id) == expr_type(b, exprs, id),
    decreases id,
{
    if 0 <= id < exprs.len() {
        match exprs[id] {
            Expr::Ident(name) => {
                lemma_env_lookups(a, b, name@);
            },
            Expr::FieldAccess { target, field } => {
                lemma_env_lookups(a, b, field@);
            },
            Expr::MethodCall { target, method, .. } => {
                lemma_env_lookups(a, b, method@);
                if let Some(t) = target {
                    if 0 <= t < id {
                        lemma_expr_type_env(a, b, exprs, t as int);
                    }
                }
            },
            Expr::Binary { left, right, .. } => {
                if 0 <= left < id {
                    lemma_expr_type_env(a, b, exprs, left as int);
                }
                if 0 <= right < id {
                    lemma_expr_type_env(a, b, exprs, right as int);
                }
            },
            Expr::Unary { operand, .. } => {
                if 0 <= operand < id {
                    lemma_expr_type_env(a, b, exprs, operand as int);
                }
            },
            Expr::Assign { value, .. } => {
                if 0 <= value < id {
                    lemma_expr_type_env(a, b, exprs, value as int);
                }
            },
            Expr::Parens(inner) => {
                if 0 <= inner < id {
                    lemma_expr_type_env(a, b, exprs, inner as int);
                }
            },
            _ => {},
        }
    }
}

pub proof fn lemma_code_from_split(a: CodegenCtx, b: CodegenCtx, c: CodegenCtx)
    requires
        appended(&b, &a),
        appended(&c, &b),
    ensures
        code_from(a, c).take(b.code@.len() - a.code@.len()) == code_from(a, b),
        code_from(a, c).skip(b.code@.len() - a.code@.len()) == code_from(b, c),
        code_from(a, c) == code_from(a, b) + code_from(b, c),
{
    let x = a.code@.len() as int;
    let y = b.code@.len() as int;
    let z = c.code@.len() as int;
    assert(c.code@.subrange(0, y) == b.code@);
    assert(code_from(a, c).take(y - x) =~= code_from(a, b)) by {
        assert forall|i: int| 0 <= i < y - x implies code_from(a, c).take(y - x)[i] == code_from(a, b)[i] by {
            assert(c.code@[x + i] == c.code@.subrange(0, y)[x + i]);
        }
    }
    assert(code_from(a, c).skip(y - x) =~= code_from(b, c));
    assert(code_from(a, c) =~= code_from(a, b) + code_from(b, c));
}

pub proof fn lemma_code_from_push(a: CodegenCtx, b: CodegenCtx, c: CodegenCtx)
    requires
        appended(&b, &a),
        c.code@.len() == b.code@.len() + 1,
        c.code@.subrange(0, b.code@.len() as int) == b.code@,
    ensures
        code_from(a, c).drop_last() == code_from(a, b),
        code_from(a, c).last() == c.code@.last(),
        code_from(a, c).len() >= 1,
{
    let x = a.code@.len() as int;
    let y = b.code@.len() as int;
    assert(code_from(a, c).drop_last() =~= code_from(a, b)) by {
        assert forall|i: int| 0 <= i < y - x implies code_from(a, c).drop_last()[i] == code_from(a, b)[i] by {
            assert(c.code@[x + i] == c.code@.subrange(0, y)[x + i]);
        }
    }
}

/// The code of a concatenation of `left` and `right`: a new `StringBuilder`,
/// the append of each operand in order, then `toString`.
pub open spec fn concat_code(s: CodegenCtx, exprs: Seq<Expr>, left: int, right: int, frag: Seq<Insn>) -> bool {
    exists|h: Seq<Insn>, a: Seq<Insn>, b: Seq<Insn>, t: Insn, m1: CodegenCtx, m2: CodegenCtx|
        #![trigger is_concat_head(h), is_to_string(t), operand_part(m1, exprs, left, a), operand_part(m2, exprs, right, b)]
        frag == h + a + b + seq![t] && is_concat_head(h) && is_to_string(t) && same_env(&m1, &s) && same_env(&m2, &s)
            && operand_part(m1, exprs, left, a) && operand_part(m2, exprs, right, b)
}

proof fn lemma_concat_code(
    s0: CodegenCtx,
    s1: CodegenCtx,
    s2: CodegenCtx,
    s3: CodegenCtx,
    s4: CodegenCtx,
    exprs: Seq<Expr>,
    left: int,
    right: int,
)
    requires
        appended(&s1, &s0),
        appended(&s2, &s1),
        appended(&s3, &s2),
        appended(&s4, &s3),
        s1.code@.len() == s0.code@.len() + 3,
        s4.code@.len() == s3.code@.len() + 1,
        concat_frame(s4.code@, s0.code@.len() as int),
        operand_part(s1, exprs, left, code_from(s1, s2)),
        operand_part(s2, exprs, right, code_from(s2, s3)),
    ensures
        concat_code(s0, exprs, left, right, code_from(s0, s4)),
{
    let n0 = s0.code@.len() as int;
    let h = code_from(s0, s1);
    let a = code_from(s1, s2);
    let b = code_from(s2, s3);
    let t = s4.code@.last();
    lemma_code_from_split(s0, s1, s2);
    lemma_chain(&s0, &s1, &s2, Set::empty());
    lemma_code_from_split(s0, s2, s3);
    lemma_chain(&s0, &s2, &s3, Set::empty());
    lemma_code_from_push(s0, s3, s4);
    assert(code_from(s0, s4) =~= h + a + b + seq![t]);
    assert(h[0] == s4.code@[n0] && h[1] == s4.code@[n0 + 1] && h[2] == s4.code@[n0 + 2]) by {
        assert(s4.code@.subrange(0, s3.code@.len() as int) == s3.code@);
        assert(s3.code@.subrange(0, s2.code@.len() as int) == s2.code@);
        assert(s2.code@.subrange(0, s1.code@.len() as int) == s1.code@);
    }
    assert(is_concat_head(h));
    assert(same_env(&s1, &s0) && same_env(&s2, &s0));
    assert(code_from(s0, s4) == h + a + b + seq![t] && is_concat_head(h) && is_to_string(t) && same_env(&s1, &s0)
        && same_env(&s2, &s0) && operand_part(s1, exprs, left, a) && operand_part(s2, exprs, right, b));
}

proof fn lemma_arith_code(
    s0: CodegenCtx,
    s1: CodegenCtx,
    s2: CodegenCtx,
    s3: CodegenCtx,
    exprs: Seq<Expr>,
    op: BinaryOp,
    left: int,
    right: int,
)
    requires
        appended(&s1, &s0),
        appended(&s2, &s1),
        appended(&s3, &s2),
        expr_code(s0, exprs, left, code_from(s0, s1)),
        expr_code(s1, exprs, right, code_from(s1, s2)),
        s3.code@ == match crate::ops::binary_op(op, expr_type(s0, exprs, left)) {
            Some(o) => s2.code@.push(Insn::Op(o)),
            None => s2.code@,
        },
    ensures
        crate::ops::binary_op(op, expr_type(s0, exprs, left)) is Some ==> operands_then_op(
            s0,
            exprs,
            left,
            right,
            code_from(s0, s3),
            crate::ops::binary_op(op, expr_type(s0, exprs, left))->0,
        ),
{
    if crate::ops::binary_op(op, expr_type(s0, exprs, left)) is Some {
        lemma_code_from_split(s0, s1, s2);
        lemma_chain(&s0, &s1, &s2, Set::empty());
        lemma_code_from_push(s0, s2, s3);
        let a = code_from(s0, s1);
        let b = code_from(s1, s2);
        let o = crate::ops::binary_op(op, expr_type(s0, exprs, left))->0;
        assert(code_from(s0, s3) =~= a + b + seq![Insn::Op(o)]);
        assert(code_from(s0, s3) == a + b + seq![Insn::Op(o)] && same_env(&s1, &s0) && expr_code(s0, exprs, left, a)
            && expr_code(s1, exprs, right, b));
    }
}

/// The code of the left operand, then of the right one, then the instruction
/// `o`; each operand's code generated in the environment of `s`.
pub open spec fn operands_then_op(s: CodegenCtx, exprs: Seq<Expr>, left: int, right: int, frag: Seq<Insn>, o: u8) -> bool {
    exists|a: Seq<Insn>, b: Seq<Insn>, m: CodegenCtx|
        #![trigger expr_code(s, exprs, left, a), expr_code(m, exprs, right, b)]
        frag == a + b + seq![Insn::Op(o)] && same_env(&m, &s) && expr_code(s, exprs, left, a) && expr_code(
            m,
            exprs,
            right,
            b,
        )
}


proof fn lemma_operand_nested(s0: CodegenCtx, s1: CodegenCtx, exprs: Seq<Expr>, id: int)
    requires
        is_concat(s0, exprs, id),
    ensures
        operand_part(s0, exprs, id, code_from(s0, s1)),
{
    reveal(operand_part);
}

proof fn lemma_operand_single(s0: CodegenCtx, s1: CodegenCtx, s2: CodegenCtx, exprs: Seq<Expr>, id: int)
    requires
        0 <= id,
        appended(&s1, &s0),
        s2.code@.len() == s1.code@.len() + 1,
        s2.code@.subrange(0, s1.code@.len() as int) == s1.code@,
        expr_code(s0, exprs, id, code_from(s0, s1)),
        is_append_insn(s2.code@.last(), expr_type(s0, exprs, id)),
    ensures
        operand_part(s0, exprs, id, code_from(s0, s2)),
{
    reveal(operand_part);
    lemma_code_from_push(s0, s1, s2);
}

/// The code `frag` of the arguments, each in order: the code between
/// `cuts[i]` and `cuts[i + 1]` is that of the `i`-th argument.
pub open spec fn args_code(s: CodegenCtx, exprs: Seq<Expr>, args: Seq<ExprId>, frag: Seq<Insn>, cuts: Seq<int>) -> bool {
    &&& cuts.len() == args.len() + 1
    &&& cuts[0] == 0
    &&& cuts[args.len() as int] == frag.len()
    &&& forall|i: int, j: int| 0 <= i <= j <= args.len() ==> #[trigger] cuts[i] <= #[trigger] cuts[j]
    &&& forall|i: int|
        0 <= i < args.len() ==> #[trigger] expr_code(s, exprs, args[i] as int, frag.subrange(cuts[i], cuts[i + 1]))
}

/// The code stated of an expression does not depend on the context.
pub proof fn lemma_expr_code_any(a: CodegenCtx, b: CodegenCtx, exprs: Seq<Expr>, id: int, frag: Seq<Insn>)
    requires
        expr_code(a, exprs, id, frag),
    ensures
        expr_code(b, exprs, id, frag),
    decreases id,
{
    reveal(expr_code);
    if 0 <= id < exprs.len() {
        match exprs[id] {
            Expr::Parens(inner) => {
                if 0 <= inner < id {
                    lemma_expr_code_any(a, b, exprs, inner as int, frag);
                }
            },
            _ => {},
        }
    }
}

proof fn lemma_args_step(
    s: CodegenCtx,
    s0: CodegenCtx,
    s1: CodegenCtx,
    s2: CodegenCtx,
    exprs: Seq<Expr>,
    args: Seq<ExprId>,
    i: int,
    cuts: Seq<int>,
)
    requires
        0 <= i < args.len(),
        appended(&s1, &s0),
        appended(&s2, &s1),
        args_code(s, exprs, args.take(i), code_from(s0, s1), cuts),
        expr_code(s1, exprs, args[i] as int, code_from(s1, s2)),
    ensures
        args_code(s, exprs, args.take(i + 1), code_from(s0, s2), cuts.push(code_from(s0, s2).len() as int)),
{
    lemma_code_from_split(s0, s1, s2);
    lemma_expr_code_any(s1, s, exprs, args[i] as int, code_from(s1, s2));
    let f1 = code_from(s0, s1);
    let f2 = code_from(s0, s2);
    let c2 = cuts.push(f2.len() as int);
    let t = args.take(i + 1);
    assert forall|j: int| 0 <= j < t.len() implies #[trigger] expr_code(s, exprs, t[j] as int, f2.subrange(c2[j], c2[j + 1])) by {
        if j < i {
            assert(cuts[j] <= cuts[j + 1] && cuts[j + 1] <= cuts[i]);
            assert(c2[j] == cuts[j] && c2[j + 1] == cuts[j + 1]);
            assert(f2 == f1 + code_from(s1, s2));
            assert(f2.subrange(c2[j], c2[j + 1]) =~= f1.subrange(cuts[j], cuts[j + 1])) by {
                assert forall|x: int| 0 <= x < cuts[j + 1] - cuts[j] implies #[trigger] f2.subrange(c2[j], c2[j + 1])[x]
                    == f1.subrange(cuts[j], cuts[j + 1])[x] by {
                    assert(f2[cuts[j] + x] == f1[cuts[j] + x]);
                }
            }
            assert(t[j] == args.take(i)[j]);
        } else {
            assert(c2[j] == f1.len() && c2[j + 1] == f2.len());
            assert(f2 == f1 + code_from(s1, s2));
            assert(f2.subrange(c2[j], c2[j + 1]) =~= code_from(s1, s2));
        }
    }
    assert forall|a: int, b: int| 0 <= a <= b <= t.len() implies #[trigger] c2[a] <= #[trigger] c2[b] by {
        if b <= i {
            assert(cuts[a] <= cuts[b]);
        } else if a <= i {
            assert(cuts[a] <= cuts[i]);
        }
    }
}

/// A string concatenation from `at`: a new `StringBuilder` built with its
/// `<init>()V`, then the appends, ending with `toString()`.
pub open spec fn concat_frame(code: Seq<Insn>, at: int) -> bool {
    &&& 0 <= at && at + 3 < code.len()
    &&& code[at] matches Insn::Type(op, n) && op == opcodes::NEW && n@ == "java/lang/StringBuilder"@
    &&& code[at + 1] == Insn::Op(opcodes::DUP)
    &&& code[at + 2] matches Insn::Method(op, c, m, d, itf) && op == opcodes::INVOKESPECIAL && c@
        == "java/lang/StringBuilder"@ && m@ == "<init>"@ && d@ == "()V"@ && !itf
    &&& code.last() matches Insn::Method(op, c, m, d, itf) && op == opcodes::INVOKEVIRTUAL && c@
        == "java/lang/StringBuilder"@ && m@ == "toString"@ && d@ == "()Ljava/lang/String;"@ && !itf
}

/// The code of a binary expression after its operands: `+` with a string
/// operand is a concatenation; an arithmetic or bitwise operator ends with its
/// opcode for the left operand's type.
pub open spec fn binary_code(old: CodegenCtx, new: CodegenCtx, exprs: Seq<Expr>, op: BinaryOp, left: int, right: int) -> bool {
    let lt = expr_type(old, exprs, left);
    let rt = expr_type(old, exprs, right);
    &&& (op is Add && (is_string(lt) || is_string(rt))) ==> concat_frame(new.code@, old.code@.len() as int)
    &&& (op is Add && (is_string(lt) || is_string(rt))) ==> concat_code(old, exprs, left, right, code_from(old, new))
    &&& (is_comparison_op(op) && compared_as_int(lt)) ==> (new.code@.len() >= old.code@.len() + 6 && bool_from_jump(
        new.code@.skip(new.code@.len() - 6),
        int_pair_jump(op),
    ))
    &&& (!(op is Add && (is_string(lt) || is_string(rt))) && !is_comparison_op(op) && !(op is AndAnd) && !(
    op is OrOr)) ==> (crate::ops::binary_op(op, lt) matches Some(o) ==> new.code@.len() > old.code@.len()
        && new.code@.last() == Insn::Op(o) && operands_then_op(old, exprs, left, right, code_from(old, new), o))
}

/// The descriptor of the `StringBuilder.append` overload for a value of type
/// `t`.
pub open spec fn append_descriptor(t: TyModel) -> Seq<char> {
    let arg = match erasure(t) {
        TyModel::Boolean => "Z"@,
        TyModel::Char => "C"@,
        TyModel::Int | TyModel::Byte | TyModel::Short => "I"@,
        TyModel::Long => "J"@,
        TyModel::Float => "F"@,
        TyModel::Double => "D"@,
        TyModel::Class(n) => if n == "java/lang/String"@ {
            "Ljava/lang/String;"@
        } else {
            "Ljava/lang/Object;"@
        },
        _ => "Ljava/lang/Object;"@,
    };
    "("@ + arg + ")Ljava/lang/StringBuilder;"@
}

pub fn string_builder_append_descriptor(ty: &Ty) -> (r: String)
    ensures
        r@ == append_descriptor(ty@),
{
    let e = ty.erasure();
    let arg = match &e {
        Ty::Boolean => "Z",
        Ty::Char => "C",
        Ty::Int | Ty::Byte | Ty::Short => "I",
        Ty::Long => "J",
        Ty::Float => "F",
        Ty::Double => "D",
        Ty::Class(n) => if str_eq(n.as_str(), "java/lang/String") {
            "Ljava/lang/String;"
        } else {
            "Ljava/lang/Object;"
        },
        _ => "Ljava/lang/Object;",
    };
    proof {
        reveal_strlit("Z");
        reveal_strlit("C");
        reveal_strlit("I");
        reveal_strlit("J");
        reveal_strlit("F");
        reveal_strlit("D");
        reveal_strlit("Ljava/lang/String;");
        reveal_strlit("Ljava/lang/Object;");
    }
    let mut out = String::from_str("(");
    out.append(arg);
    out.append(")Ljava/lang/StringBuilder;");
    out
}

/// String concatenation through a `StringBuilder`: `new`, `dup`, `<init>`, each
/// part appended, then `toString`.
pub fn emit_string_concat(ctx: &mut CodegenCtx, body: &Body, parent: ExprId, left: ExprId, right: ExprId)
    requires
        body.wf(),
        parent < body.exprs@.len(),
        left < parent,
        right < parent,
    ensures
        appended(final(ctx), old(ctx)),
        concat_frame(final(ctx).code@, old(ctx).code@.len() as int),
        concat_code(*old(ctx), body.exprs@, left as int, right as int, code_from(*old(ctx), *final(ctx))),
    decreases parent, 1int,
{
    let ghost s0 = *ctx;
    ctx.emit(Insn::Type(opcodes::NEW, String::from_str("java/lang/StringBuilder")));
    let ghost sa = *ctx;
    ctx.op(opcodes::DUP);
    let ghost sb = *ctx;
    ctx.emit(
        Insn::Method(
            opcodes::INVOKESPECIAL,
            String::from_str("java/lang/StringBuilder"),
            String::from_str("<init>"),
            String::from_str("()V"),
            false,
        ),
    );
    let ghost s1 = *ctx;
    proof {
        lemma_chain(&s0, &sa, &sb, Set::empty());
        lemma_chain(&s0, &sb, &s1, Set::empty());
    }
    append_string_part(ctx, body, left);
    let ghost s2 = *ctx;
    append_string_part(ctx, body, right);
    let ghost s3 = *ctx;
    ctx.emit(
        Insn::Method(
            opcodes::INVOKEVIRTUAL,
            String::from_str("java/lang/StringBuilder"),
            String::from_str("toString"),
            String::from_str("()Ljava/lang/String;"),
            false,
        ),
    );
    proof {
        lemma_chain(&s1, &s2, &s3, Set::empty());
        lemma_chain(&s1, &s3, ctx, Set::empty());
        lemma_chain(&s0, &s1, ctx, Set::empty());
        let n0 = s0.code@.len() as int;
        assert(s1.code@.len() == n0 + 3);
        assert(ctx.code@.subrange(0, s1.code@.len() as int) == s1.code@);
        assert(ctx.code@[n0] == ctx.code@.subrange(0, s1.code@.len() as int)[n0]);
        assert(ctx.code@[n0 + 1] == ctx.code@.subrange(0, s1.code@.len() as int)[n0 + 1]);
        assert(ctx.code@[n0 + 2] == ctx.code@.subrange(0, s1.code@.len() as int)[n0 + 2]);
        lemma_concat_code(s0, s1, s2, s3, *ctx, body.exprs@, left as int, right as int);
    }
}

/// Appends one part of a concatenation: a nested string `+` is flattened into
/// its own parts, anything else is evaluated and appended with the overload for
/// its type.
#[verifier::spinoff_prover]
pub fn append_string_part(ctx: &mut CodegenCtx, body: &Body, id: ExprId)
    requires
        body.wf(),
        id < body.exprs@.len(),
    ensures
        appended(final(ctx), old(ctx)),
        operand_part(*old(ctx), body.exprs@, id as int, code_from(*old(ctx), *final(ctx))),
    decreases id, 5int,
{
    proof {
        assert(expr_children_below(body.exprs@[id as int], id as int));
    }
    proof {
        assert(expr_children_below(body.exprs@[id as int], id as int));
    }
    let ghost s0 = *ctx;
    match &body.exprs[id] {
        Expr::Binary { op: BinaryOp::Add, left, right } => {
            let left_ty = expr_ty(ctx, body, *left);
            let right_ty = expr_ty(ctx, body, *right);
            if string_type(&left_ty) || string_type(&right_ty) {
                append_string_part(ctx, body, *left);
                let ghost s1 = *ctx;
                append_string_part(ctx, body, *right);
                proof {
                    lemma_chain(&s0, &s1, ctx, Set::empty());
                    assert(is_concat(s0, body.exprs@, id as int));
                    lemma_operand_nested(s0, *ctx, body.exprs@, id as int);
                }
                return;
            }
        },
        _ => {},
    }
    gen_expr(ctx, body, id);
    let ghost s1 = *ctx;
    let ty = expr_ty(ctx, body, id);
    let desc = string_builder_append_descriptor(&ty);
    ctx.emit(
        Insn::Method(
            opcodes::INVOKEVIRTUAL,
            String::from_str("java/lang/StringBuilder"),
            String::from_str("append"),
            desc,
            false,
        ),
    );
    proof {
        lemma_chain(&s0, &s1, ctx, Set::empty());
        lemma_expr_type_env(s1, s0, body.exprs@, id as int);
        lemma_operand_single(s0, s1, *ctx, body.exprs@, id as int);
    }
}

/// `left && right` (when `is_and`) or `left || right`, leaving 1 or 0
/// (`gen_short_circuit_and`, `gen_short_circuit_or`).
pub fn gen_short_circuit(ctx: &mut CodegenCtx, body: &Body, parent: ExprId, left: ExprId, right: ExprId, is_and: bool)
    requires
        body.wf(),
        parent < body.exprs@.len(),
        left < parent,
        right < parent,
    ensures
        appended(final(ctx), old(ctx)),
    decreases parent, 1int,
{
    let ghost s0 = *ctx;
    let short = ctx.new_label();
    let end = ctx.new_label();
    let ghost ext = set![short, end];
    let ghost s1 = *ctx;
    let test = if is_and { opcodes::IFEQ } else { opcodes::IFNE };
    gen_expr(ctx, body, left);
    proof {
        lemma_appended_weaken(ctx, &s1, Set::empty(), ext);
    }
    let ghost s2 = *ctx;
    ctx.jump(test, short);
    proof {
        assert(ext.contains(short));
        lemma_chain(&s1, &s2, ctx, ext);
    }
    let ghost s3 = *ctx;
    gen_expr(ctx, body, right);
    proof {
        lemma_appended_weaken(ctx, &s3, Set::empty(), ext);
        lemma_chain(&s1, &s3, ctx, ext);
    }
    let ghost s4 = *ctx;
    ctx.jump(test, short);
    ctx.op(if is_and { opcodes::ICONST_1 } else { opcodes::ICONST_0 });
    ctx.jump(opcodes::GOTO, end);
    let ghost p_short = ctx.code@.len() as int;
    ctx.label(short);
    ctx.op(if is_and { opcodes::ICONST_0 } else { opcodes::ICONST_1 });
    let ghost p_end = ctx.code@.len() as int;
    ctx.label(end);
    proof {
        let n4 = s4.code@.len() as int;
        let tail = ctx.code@.subrange(n4, n4 + 6);
        assert(ctx.code@.subrange(0, n4) =~= s4.code@);
        assert(tail =~= seq![
            Insn::Jump(test, short),
            Insn::Op(if is_and { opcodes::ICONST_1 } else { opcodes::ICONST_0 }),
            Insn::Jump(opcodes::GOTO, end),
            Insn::Label(short),
            Insn::Op(if is_and { opcodes::ICONST_0 } else { opcodes::ICONST_1 }),
            Insn::Label(end),
        ]);
        assert forall|i: int, l: u32| 0 <= i < tail.len() && #[trigger] refers(tail[i], l) implies binds(tail, l) || ext.contains(l) by {
            if i == 0 {
                assert(l == short);
            } else if i == 2 {
                assert(l == end);
            }
        }
        assert(appended_mod(ctx, &s4, ext));
        lemma_chain(&s1, &s4, ctx, ext);
        let n1 = s1.code@.len() as int;
        let frag = ctx.code@.subrange(n1, ctx.code@.len() as int);
        assert(ctx.code@[p_short] == Insn::Label(short));
        assert(ctx.code@[p_end] == Insn::Label(end));
        lemma_binds_in(ctx.code@, n1, ctx.code@.len() as int, p_short, short);
        lemma_binds_in(ctx.code@, n1, ctx.code@.len() as int, p_end, end);
        lemma_resolved_close(frag, ext);
        assert(s0.code == s1.code);
    }
}

/// A unary operator.
pub fn gen_unary_expr(ctx: &mut CodegenCtx, body: &Body, parent: ExprId, op: UnaryOp, operand: ExprId)
    requires
        body.wf(),
        parent < body.exprs@.len(),
        operand < parent,
    ensures
        appended(final(ctx), old(ctx)),
    decreases parent, 2int,
{
    let ghost s0 = *ctx;
    match op {
        UnaryOp::PreInc => emit_pre_inc_dec(ctx, body, operand, 1),
        UnaryOp::PreDec => emit_pre_inc_dec(ctx, body, operand, -1),
        _ => {
            gen_expr(ctx, body, operand);
            let ty = expr_ty(ctx, body, operand);
            let ghost s1 = *ctx;
            match op {
                UnaryOp::Neg => ctx.op(neg_opcode(&ty)),
                UnaryOp::Not => {
                    ctx.op(opcodes::ICONST_1);
                    let ghost s2 = *ctx;
                    ctx.op(opcodes::IXOR);
                    proof {
                        lemma_chain(&s1, &s2, ctx, Set::empty());
                    }
                },
                _ => {
                    if matches!(ty, Ty::Long) {
                        gen_long_const(ctx, -1);
                        let ghost s2 = *ctx;
                        ctx.op(opcodes::LXOR);
                        proof {
                            lemma_chain(&s1, &s2, ctx, Set::empty());
                        }
                    } else {
                        ctx.op(opcodes::ICONST_M1);
                        let ghost s2 = *ctx;
                        ctx.op(opcodes::IXOR);
                        proof {
                            lemma_chain(&s1, &s2, ctx, Set::empty());
                        }
                    }
                },
            }
            proof {
                lemma_chain(&s0, &s1, ctx, Set::empty());
            }
        },
    }
}

/// An assignment: to a local, load (for compound operators), compute, convert,
/// keep a copy as the value and store; any other target only evaluates the value
/// (`emit_assign`, `emit_local_assign`).
pub fn emit_assign(ctx: &mut CodegenCtx, body: &Body, parent: ExprId, target: ExprId, op: AssignOp, value: ExprId)
    requires
        body.wf(),
        parent < body.exprs@.len(),
        target < parent,
        value < parent,
    ensures
        appended(final(ctx), old(ctx)),
        body.exprs@[target as int] matches Expr::Ident(n) ==> (local_slot(old(ctx).locals@, n@) matches Some(slot) ==> (
        final(ctx).code@.len() > old(ctx).code@.len() && final(ctx).code@.last() == Insn::Var(
            store_op(
                match local_type(old(ctx).locals@, n@) {
                    Some(t) => t,
                    None => TyModel::Int,
                },
            ),
            slot,
        ))),
    decreases parent, 2int,
{
    let ghost s0 = *ctx;
    let local = match &body.exprs[target] {
        Expr::Ident(name) => match ctx.get_local(name.as_str()) {
            Some(slot) => Some((slot, match ctx.resolve_local_ty(name.as_str()) {
                Some(t) => t,
                None => Ty::Int,
            })),
            None => None,
        },
        _ => None,
    };
    match local {
        Some((slot, ty)) => {
            let compound = !matches!(op, AssignOp::Plain);
            if compound {
                ctx.emit(Insn::Var(load_opcode(&ty), slot));
            } else {
                proof {
                    lemma_appended_refl(ctx, Set::empty());
                }
            }
            let ghost s1 = *ctx;
            gen_expr(ctx, body, value);
            proof {
                lemma_chain(&s0, &s1, ctx, Set::empty());
            }
            let value_ty = expr_ty(ctx, body, value);
            let ghost s2 = *ctx;
            coerce_numeric(ctx, &value_ty, &ty);
            proof {
                lemma_chain(&s0, &s2, ctx, Set::empty());
            }
            if compound {
                let ghost s3 = *ctx;
                emit_assign_op(ctx, op, &ty);
                proof {
                    lemma_chain(&s0, &s3, ctx, Set::empty());
                }
            }
            let ghost s4 = *ctx;
            dup_ty(ctx, &ty);
            proof {
                lemma_chain(&s0, &s4, ctx, Set::empty());
            }
            let ghost s5 = *ctx;
            ctx.emit(Insn::Var(store_opcode(&ty), slot));
            proof {
                lemma_chain(&s0, &s5, ctx, Set::empty());
            }
        },
        None => gen_expr(ctx, body, value),
    }
}

/// `++x` / `--x` on a local: increment, then load; otherwise the default value
/// of the target's type.
pub fn emit_pre_inc_dec(ctx: &mut CodegenCtx, body: &Body, target: ExprId, amount: i16)
    requires
        body.wf(),
        target < body.exprs@.len(),
    ensures
        appended(final(ctx), old(ctx)),
{
    emit_inc_dec(ctx, body, target, amount, true);
}

/// `x++` / `x--` on a local: load, then increment; otherwise the default value
/// of the target's type.
pub fn emit_post_inc_dec(ctx: &mut CodegenCtx, body: &Body, target: ExprId, amount: i16)
    requires
        body.wf(),
        target < body.exprs@.len(),
    ensures
        appended(final(ctx), old(ctx)),
{
    emit_inc_dec(ctx, body, target, amount, false);
}

fn emit_inc_dec(ctx: &mut CodegenCtx, body: &Body, target: ExprId, amount: i16, pre: bool)
    requires
        body.wf(),
        target < body.exprs@.len(),
    ensures
        appended(final(ctx), old(ctx)),
{
    let ghost s0 = *ctx;
    let local = match &body.exprs[target] {
        Expr::Ident(name) => match ctx.get_local(name.as_str()) {
            Some(slot) => Some((slot, match ctx.resolve_local_ty(name.as_str()) {
                Some(t) => t,
                None => Ty::Int,
            })),
            None => None,
        },
        _ => None,
    };
    match local {
        Some((slot, ty)) => {
            if pre {
                ctx.emit(Insn::Iinc(slot, amount));
                let ghost s1 = *ctx;
                ctx.emit(Insn::Var(load_opcode(&ty), slot));
                proof {
                    lemma_chain(&s0, &s1, ctx, Set::empty());
                }
            } else {
                ctx.emit(Insn::Var(load_opcode(&ty), slot));
                let ghost s1 = *ctx;
                ctx.emit(Insn::Iinc(slot, amount));
                proof {
                    lemma_chain(&s0, &s1, ctx, Set::empty());
                }
            }
        },
        None => {
            let ty = expr_ty(ctx, body, target);
            push_default_value(ctx, &ty);
        },
    }
}

/// A `case` of a switch with an `int` key, and the label of its code.
#[derive(Debug, Clone, Copy)]
pub struct CaseLabel {
    pub case_index: usize,
    pub key: i32,
    pub label: u32,
}

/// Keys in non-decreasing order, as `lookupswitch` needs them.
pub open spec fn keys_sorted(v: Seq<CaseLabel>) -> bool {
    forall|i: int, j: int| 0 <= i <= j < v.len() ==> v[i].key <= v[j].key
}

/// The `int` key of a case pattern: an `int` literal in the range of `i32`.
pub open spec fn case_key(body: &Body, pattern: ExprId) -> Option<i32> {
    if pattern < body.exprs@.len() && (body.exprs@[pattern as int] matches Expr::IntLiteral(v) && i32::MIN <= v
        <= i32::MAX) {
        Some(body.exprs@[pattern as int]->IntLiteral_0 as i32)
    } else {
        None
    }
}

/// The `int` key of a case; a `default` has none.
pub open spec fn case_key_of(body: &Body, c: SwitchCase) -> Option<i32> {
    match c {
        SwitchCase::Case { pattern, .. } => case_key(body, pattern),
        SwitchCase::Default { .. } => None,
    }
}

/// The `int` key of a case pattern that is an `int` literal in range.
pub fn int_case_key(body: &Body, pattern: ExprId) -> (r: Option<i32>)
    ensures
        r == case_key(body, pattern),
        r matches Some(k) ==> pattern < body.exprs@.len() && (body.exprs@[pattern as int] matches Expr::IntLiteral(v) && v == k),
{
    if pattern >= body.exprs.len() {
        return None;
    }
    match &body.exprs[pattern] {
        Expr::IntLiteral(v) => fit_i32(*v),
        _ => None,
    }
}

/// The labelled `int` cases of a switch, sorted by key.
pub fn build_case_labels(ctx: &mut CodegenCtx, body: &Body, cases: &Vec<SwitchCase>) -> (r: Vec<CaseLabel>)
    ensures
        keys_sorted(r@),
        forall|k: int| 0 <= k < r@.len() ==> (#[trigger] r@[k]).case_index < cases@.len()
            && cases@[r@[k].case_index as int] is Case,
        forall|k: int| 0 <= k < r@.len() ==> case_key_of(body, cases@[(#[trigger] r@[k]).case_index as int]) == Some(
            r@[k].key,
        ),
        forall|c: int| 0 <= c < cases@.len() && (#[trigger] case_key_of(body, cases@[c])) is Some ==> exists|k: int|
            0 <= k < r@.len() && (#[trigger] r@[k]).case_index == c,
        forall|a: int, b: int| 0 <= a < r@.len() && 0 <= b < r@.len() && a != b ==> (#[trigger] r@[a]).case_index
            != (#[trigger] r@[b]).case_index,
        final(ctx).code == old(ctx).code,
        same_env(final(ctx), old(ctx)),
{
    let mut labels: Vec<CaseLabel> = Vec::new();
    let mut i: usize = 0;
    while i < cases.len()
        invariant
            i <= cases@.len(),
            forall|k: int| 0 <= k < labels@.len() ==> (#[trigger] labels@[k]).case_index < cases@.len()
                && cases@[labels@[k].case_index as int] is Case,
            forall|k: int| 0 <= k < labels@.len() ==> case_key_of(body, cases@[(#[trigger] labels@[k]).case_index as int])
                == Some(labels@[k].key),
            forall|c: int| 0 <= c < i && (#[trigger] case_key_of(body, cases@[c])) is Some ==> exists|k: int|
                0 <= k < labels@.len() && (#[trigger] labels@[k]).case_index == c,
            forall|k: int| 0 <= k < labels@.len() ==> (#[trigger] labels@[k]).case_index < i,
            forall|a: int, b: int| 0 <= a < b < labels@.len() ==> (#[trigger] labels@[a]).case_index
                < (#[trigger] labels@[b]).case_index,
            ctx.code == old(ctx).code,
            same_env(ctx, old(ctx)),
        decreases cases@.len() - i,
    {
        match &cases[i] {
            SwitchCase::Case { pattern, .. } => match int_case_key(body, *pattern) {
                Some(key) => {
                    let label = ctx.new_label();
                    let ghost before = labels@;
                    labels.push(CaseLabel { case_index: i, key, label });
                    proof {
                        assert(labels@[before.len() as int].case_index == i);
                        assert forall|c: int| 0 <= c < i + 1 && (#[trigger] case_key_of(body, cases@[c])) is Some
                            implies exists|k: int| 0 <= k < labels@.len() && (#[trigger] labels@[k]).case_index == c by {
                            if c < i {
                                let k = choose|k: int| 0 <= k < before.len() && (#[trigger] before[k]).case_index == c;
                                assert(labels@[k] == before[k]);
                            }
                        }
                    }
                },
                None => {},
            },
            SwitchCase::Default { .. } => {},
        }
        i = i + 1;
    }
    let ghost unsorted = labels@;
    let sorted = sort_case_labels(labels, cases);
    proof {
        assert(unsorted.no_duplicates());
        unsorted.lemma_multiset_has_no_duplicates();
        assert forall|x: CaseLabel| sorted@.to_multiset().contains(x) implies sorted@.to_multiset().count(x) == 1 by {
            assert(unsorted.to_multiset().contains(x));
        }
        sorted@.lemma_multiset_has_no_duplicates_conv();
        assert forall|a: int, b: int| 0 <= a < sorted@.len() && 0 <= b < sorted@.len() && a != b implies (
        #[trigger] sorted@[a]).case_index != (#[trigger] sorted@[b]).case_index by {
            assert(sorted@.contains(sorted@[a]));
            assert(sorted@.contains(sorted@[b]));
            let ja = choose|j: int| 0 <= j < unsorted.len() && unsorted[j] == sorted@[a];
            let jb = choose|j: int| 0 <= j < unsorted.len() && unsorted[j] == sorted@[b];
            if sorted@[a].case_index == sorted@[b].case_index {
                if ja < jb {
                    assert(unsorted[ja].case_index < unsorted[jb].case_index);
                } else if jb < ja {
                    assert(unsorted[jb].case_index < unsorted[ja].case_index);
                }
            }
        }
        assert forall|k: int| 0 <= k < sorted@.len() implies case_key_of(body, cases@[(#[trigger] sorted@[k]).case_index as int])
            == Some(sorted@[k].key) by {
            assert(sorted@.contains(sorted@[k]));
            let j = choose|j: int| 0 <= j < unsorted.len() && unsorted[j] == sorted@[k];
            assert(unsorted[j] == sorted@[k]);
        }
        assert forall|c: int| 0 <= c < cases@.len() && (#[trigger] case_key_of(body, cases@[c])) is Some implies exists|k: int|
            0 <= k < sorted@.len() && (#[trigger] sorted@[k]).case_index == c by {
            let j = choose|j: int| 0 <= j < unsorted.len() && (#[trigger] unsorted[j]).case_index == c;
            assert(unsorted.contains(unsorted[j]));
            assert(sorted@.contains(unsorted[j]));
            let k = choose|k: int| 0 <= k < sorted@.len() && sorted@[k] == unsorted[j];
            assert(sorted@[k].case_index == c);
        }
    }
    sorted
}

/// The case labels with key `x`.
pub open spec fn key_is(x: i32) -> spec_fn(CaseLabel) -> bool {
    |c: CaseLabel| c.key == x
}

/// Inserting `item` after the labels with keys up to its own and before those
/// with greater keys appends it to the labels of its key, and keeps the others.
proof fn lemma_insert_keeps_key_order(before: Seq<CaseLabel>, pos: int, item: CaseLabel, done: Seq<CaseLabel>)
    requires
        0 <= pos <= before.len(),
        forall|j: int| 0 <= j < pos ==> before[j].key <= item.key,
        forall|j: int| pos <= j < before.len() ==> before[j].key > item.key,
        forall|x: i32| #[trigger] before.filter(key_is(x)) == done.filter(key_is(x)),
    ensures
        forall|x: i32| #[trigger] before.insert(pos, item).filter(key_is(x)) == done.push(item).filter(key_is(x)),
{
    assert forall|x: i32| #[trigger] before.insert(pos, item).filter(key_is(x)) == done.push(item).filter(key_is(x)) by {
        let p = key_is(x);
        let a = before.take(pos);
        let c = before.skip(pos);
        let one = Seq::<CaseLabel>::empty().push(item);
        assert(before =~= a + c);
        assert(before.insert(pos, item) =~= a + (one + c));
        Seq::filter_distributes_over_add(a, c, p);
        Seq::filter_distributes_over_add(a, one + c, p);
        Seq::filter_distributes_over_add(one, c, p);
        done.lemma_filter_push(item, p);
        Seq::<CaseLabel>::empty().lemma_filter_push(item, p);
        Seq::<CaseLabel>::empty().lemma_filter_len(p);
        assert(Seq::<CaseLabel>::empty().filter(p) =~= Seq::<CaseLabel>::empty());
        if x == item.key {
            assert forall|j: int| 0 <= j < c.len() implies !p(#[trigger] c[j]) by {
                assert(c[j] == before[pos + j]);
            }
            assert(c.all(|y: CaseLabel| !p(y)));
            c.lemma_all_neg_filter_empty(p);
            assert(c.filter(p) =~= Seq::<CaseLabel>::empty());
            assert(a.filter(p) + c.filter(p) =~= a.filter(p));
            assert(a.filter(p) + (one.filter(p) + c.filter(p)) =~= a.filter(p).push(item));
        } else {
            assert(one.filter(p) =~= Seq::<CaseLabel>::empty());
            assert(a.filter(p) + (one.filter(p) + c.filter(p)) =~= a.filter(p) + c.filter(p));
        }
    }
}

/// Sorts case labels by key, keeping the order of equal keys.
fn sort_case_labels(v: Vec<CaseLabel>, cases: &Vec<SwitchCase>) -> (r: Vec<CaseLabel>)
    requires
        forall|k: int| 0 <= k < v@.len() ==> (#[trigger] v@[k]).case_index < cases@.len()
            && cases@[v@[k].case_index as int] is Case,
    ensures
        keys_sorted(r@),
        r@.to_multiset() == v@.to_multiset(),
        forall|x: CaseLabel| #[trigger] r@.contains(x) <==> v@.contains(x),
        forall|x: i32| #[trigger] r@.filter(key_is(x)) == v@.filter(key_is(x)),
        forall|k: int| 0 <= k < r@.len() ==> (#[trigger] r@[k]).case_index < cases@.len()
            && cases@[r@[k].case_index as int] is Case,
{
    let mut out: Vec<CaseLabel> = Vec::new();
    let mut i: usize = 0;
    proof {
        assert(out@ =~= v@.take(0));
    }
    while i < v.len()
        invariant
            i <= v@.len(),
            keys_sorted(out@),
            out@.to_multiset() == v@.take(i as int).to_multiset(),
            forall|x: i32| #[trigger] out@.filter(key_is(x)) == v@.take(i as int).filter(key_is(x)),
            forall|k: int| 0 <= k < v@.len() ==> (#[trigger] v@[k]).case_index < cases@.len()
                && cases@[v@[k].case_index as int] is Case,
            forall|k: int| 0 <= k < out@.len() ==> (#[trigger] out@[k]).case_index < cases@.len()
                && cases@[out@[k].case_index as int] is Case,
        decreases v@.len() - i,
    {
        let item = v[i];
        let mut pos: usize = 0;
        while pos < out.len() && out[pos].key <= item.key
            invariant
                pos <= out@.len(),
                forall|k: int| 0 <= k < pos ==> out@[k].key <= item.key,
            decreases out@.len() - pos,
        {
            pos = pos + 1;
        }
        let ghost before = out@;
        out.insert(pos, item);
        proof {
            assert(v@.take(i + 1) == v@.take(i as int).push(item));
            assert(out@ == before.insert(pos as int, item));
            vstd::seq_lib::to_multiset_insert(before, pos as int, item);
            vstd::seq_lib::to_multiset_build(v@.take(i as int), item);
            assert forall|j: int| pos <= j < before.len() implies before[j].key > item.key by {
                assert(before[pos as int].key > item.key);
                assert(before[pos as int].key <= before[j].key);
            }
            lemma_insert_keeps_key_order(before, pos as int, item, v@.take(i as int));
            assert forall|a: int, b: int| 0 <= a <= b < out@.len() implies out@[a].key <= out@[b].key by {
                if a < pos as int && b < pos as int {
                    assert(out@[a] == before[a] && out@[b] == before[b]);
                } else if a < pos as int && b == pos as int {
                    assert(out@[a] == before[a]);
                } else if a < pos as int {
                    assert(out@[a] == before[a] && out@[b] == before[b - 1]);
                } else if a == pos as int && b == pos as int {
                } else if a == pos as int {
                    assert(out@[b] == before[b - 1]);
                    if pos < before.len() {
                        assert(before[pos as int].key > item.key);
                        assert(before[pos as int].key <= before[b - 1].key);
                    }
                } else {
                    assert(out@[a] == before[a - 1] && out@[b] == before[b - 1]);
                }
            }
            assert forall|k: int| 0 <= k < out@.len() implies (#[trigger] out@[k]).case_index < cases@.len()
                && cases@[out@[k].case_index as int] is Case by {
                if k < pos as int {
                    assert(out@[k] == before[k]);
                } else if k > pos as int {
                    assert(out@[k] == before[k - 1]);
                }
            }
        }
        i = i + 1;
    }
    proof {
        assert(v@.take(v@.len() as int) == v@);
        assert forall|x: CaseLabel| #[trigger] out@.contains(x) <==> v@.contains(x) by {
            vstd::seq_lib::to_multiset_contains(out@, x);
            vstd::seq_lib::to_multiset_contains(v@, x);
        }
    }
    out
}

/// The index of the `default` case, if any.
pub fn default_case(cases: &Vec<SwitchCase>) -> (r: Option<usize>)
    ensures
        r matches Some(i) ==> i < cases@.len() && cases@[i as int] is Default && (forall|j: int|
            0 <= j < i ==> !(cases@[j] is Default)),
        r is None ==> forall|j: int| 0 <= j < cases@.len() ==> !(cases@[j] is Default),
{
    let mut i: usize = 0;
    while i < cases.len()
        invariant
            i <= cases@.len(),
            forall|j: int| 0 <= j < i ==> !(cases@[j] is Default),
        decreases cases@.len() - i,
    {
        if matches!(cases[i], SwitchCase::Default { .. }) {
            return Some(i);
        }
        i = i + 1;
    }
    None
}

/// The statements of a case.
fn case_stmts(case: &SwitchCase) -> (r: &Vec<StmtId>)
    ensures
        r@ == case_body(*case),
{
    match case {
        SwitchCase::Case { body, .. } => body,
        SwitchCase::Default { body, .. } => body,
    }
}

/// The expression a case yields: the first of its statements that yields,
/// returns or evaluates one.
pub fn case_value(case: &SwitchCase, body: &Body) -> (r: Option<ExprId>)
    requires
        forall|k: int| 0 <= k < case_body(*case).len() ==> case_body(*case)[k] < body.stmts@.len(),
    ensures
        r matches Some(v) ==> exists|k: int|
            0 <= k < case_body(*case).len() && stmt_value(body.stmts@[case_body(*case)[k] as int]) == Some(v),
        r is None ==> forall|k: int|
            0 <= k < case_body(*case).len() ==> stmt_value(body.stmts@[case_body(*case)[k] as int]) is None,
{
    let stmts = case_stmts(case);
    let mut i: usize = 0;
    while i < stmts.len()
        invariant
            stmts@ == case_body(*case),
            i <= stmts@.len(),
            forall|k: int| 0 <= k < case_body(*case).len() ==> case_body(*case)[k] < body.stmts@.len(),
            forall|k: int| 0 <= k < i ==> stmt_value(body.stmts@[case_body(*case)[k] as int]) is None,
        decreases stmts@.len() - i,
    {
        let sid = stmts[i];
        match &body.stmts[sid] {
            Stmt::Yield(e) => {
                return Some(*e);
            },
            Stmt::Return(Some(e)) => {
                return Some(*e);
            },
            Stmt::Expr(e) => {
                return Some(*e);
            },
            _ => {},
        }
        i = i + 1;
    }
    None
}

/// The type a switch expression yields: that of the first case value, else
/// `Object`.
pub fn switch_result_ty(ctx: &CodegenCtx, body: &Body, parent: ExprId, cases: &Vec<SwitchCase>) -> (r: Ty)
    requires
        body.wf(),
        parent < body.exprs@.len(),
        body.exprs@[parent as int] matches Expr::Switch { cases: cs, .. } && cs@ == cases@,
    ensures
        (forall|c: int, k: int|
            0 <= c < cases@.len() && 0 <= k < case_body(cases@[c]).len() ==> stmt_value(
                body.stmts@[case_body(cases@[c])[k] as int],
            ) is None) ==> r@ == object_ty(),
        (exists|c: int, k: int|
            0 <= c < cases@.len() && 0 <= k < case_body(cases@[c]).len() && stmt_value(
                body.stmts@[case_body(cases@[c])[k] as int],
            ) is Some) ==> exists|v: ExprId| r@ == expr_type(*ctx, body.exprs@, v as int),
{
    let mut i: usize = 0;
    while i < cases.len()
        invariant
            body.wf(),
            parent < body.exprs@.len(),
            body.exprs@[parent as int] matches Expr::Switch { cases: cs, .. } && cs@ == cases@,
            i <= cases@.len(),
            forall|c: int, k: int|
                0 <= c < i && 0 <= k < case_body(cases@[c]).len() ==> stmt_value(
                    body.stmts@[case_body(cases@[c])[k] as int],
                ) is None,
        decreases cases@.len() - i,
    {
        proof {
            lemma_switch_case_ok(body, parent, i as int);
        }
        match case_value(&cases[i], body) {
            Some(v) => {
                proof {
                    lemma_case_value_below(body, parent, i as int, v);
                }
                return expr_ty(ctx, body, v);
            },
            None => {},
        }
        i = i + 1;
    }
    Ty::object()
}

proof fn lemma_switch_case_ok(body: &Body, parent: ExprId, c: int)
    requires
        body.wf(),
        parent < body.exprs@.len(),
        body.exprs@[parent as int] matches Expr::Switch { cases, .. } && 0 <= c < cases@.len(),
    ensures
        body.exprs@[parent as int] matches Expr::Switch { cases, .. } && forall|k: int|
            0 <= k < case_body(cases@[c]).len() ==> case_body(cases@[c])[k] < body.stmts@.len(),
{
    if let Expr::Switch { cases, .. } = body.exprs@[parent as int] {
        assert forall|k: int| 0 <= k < case_body(cases@[c]).len() implies case_body(cases@[c])[k] < body.stmts@.len() by {
            let sid = case_body(cases@[c])[k];
            assert(0 <= sid < body.stmts@.len());
        }
    }
}

proof fn lemma_case_value_below(body: &Body, parent: ExprId, c: int, v: ExprId)
    requires
        body.wf(),
        parent < body.exprs@.len(),
        body.exprs@[parent as int] matches Expr::Switch { cases, .. } && 0 <= c < cases@.len() && exists|k: int|
            0 <= k < case_body(cases@[c]).len() && stmt_value(body.stmts@[case_body(cases@[c])[k] as int])
                == Some(v),
    ensures
        v < parent,
{
    if let Expr::Switch { cases, .. } = body.exprs@[parent as int] {
        let k = choose|k: int|
            0 <= k < case_body(cases@[c]).len() && stmt_value(body.stmts@[case_body(cases@[c])[k] as int])
                == Some(v);
        let sid = case_body(cases@[c])[k];
        assert(0 <= sid < body.stmts@.len());
    }
}

/// The value of one case, converted to the switch's type; the default value when
/// the case yields none.
pub fn emit_case_value(ctx: &mut CodegenCtx, body: &Body, parent: ExprId, cases: &Vec<SwitchCase>, c: usize, switch_ty: &Ty)
    requires
        body.wf(),
        parent < body.exprs@.len(),
        body.exprs@[parent as int] matches Expr::Switch { cases: cs, .. } && cs@ == cases@,
        c < cases@.len(),
    ensures
        appended(final(ctx), old(ctx)),
    decreases parent, 1int,
{
    proof {
        lemma_switch_case_ok(body, parent, c as int);
    }
    match case_value(&cases[c], body) {
        Some(v) => {
            proof {
                lemma_case_value_below(body, parent, c as int, v);
            }
            let ghost s0 = *ctx;
            gen_expr(ctx, body, v);
            let value_ty = expr_ty(ctx, body, v);
            let ghost s1 = *ctx;
            coerce(ctx, &value_ty, switch_ty);
            proof {
                lemma_chain(&s0, &s1, ctx, Set::empty());
            }
        },
        None => push_default_value(ctx, switch_ty),
    }
}

/// A label placed in a fragment stays placed as the code grows.
pub proof fn lemma_binds_grow(a: Seq<Insn>, b: Seq<Insn>, start: int, l: u32)
    requires
        0 <= start <= a.len() <= b.len(),
        b.subrange(0, a.len() as int) == a,
        binds(a.subrange(start, a.len() as int), l),
    ensures
        binds(b.subrange(start, b.len() as int), l),
{
    let fa = a.subrange(start, a.len() as int);
    let j = choose|j: int| 0 <= j < fa.len() && #[trigger] fa[j] == Insn::Label(l);
    assert(b[start + j] == a[start + j]);
    assert(b.subrange(start, b.len() as int)[j] == Insn::Label(l));
}

/// A switch expression over `int` keys: `lookupswitch` to one label per case,
/// each case's value, and the default case's value (or the default value).
pub fn emit_switch_expr(ctx: &mut CodegenCtx, body: &Body, parent: ExprId, selector: ExprId, cases: &Vec<SwitchCase>)
    requires
        body.wf(),
        parent < body.exprs@.len(),
        selector < parent,
        body.exprs@[parent as int] matches Expr::Switch { cases: cs, .. } && cs@ == cases@,
    ensures
        appended(final(ctx), old(ctx)),
    decreases parent, 2int,
{
    let ghost s0 = *ctx;
    let end = ctx.new_label();
    let default_label = ctx.new_label();
    let case_labels = build_case_labels(ctx, body, cases);
    let switch_ty = switch_result_ty(ctx, body, parent, cases);
    let ghost ext = Set::new(|l: u32| l == end || l == default_label || exists|k: int|
        0 <= k < case_labels@.len() && (#[trigger] case_labels@[k]).label == l);
    let ghost s1 = *ctx;
    let n1 = ctx.code.len();
    gen_expr(ctx, body, selector);
    proof {
        lemma_appended_weaken(ctx, &s1, Set::empty(), ext);
    }
    let mut pairs: Vec<(i32, u32)> = Vec::new();
    let mut i: usize = 0;
    while i < case_labels.len()
        invariant
            i <= case_labels@.len(),
            pairs@.len() == i,
            forall|k: int| 0 <= k < i ==> (#[trigger] pairs@[k]) == (case_labels@[k].key, case_labels@[k].label),
        decreases case_labels@.len() - i,
    {
        pairs.push((case_labels[i].key, case_labels[i].label));
        i = i + 1;
    }
    let ghost s2 = *ctx;
    ctx.code.push(Insn::LookupSwitch(default_label, pairs));
    proof {
        let n = s2.code@.len() as int;
        assert(ctx.code@.subrange(0, n) =~= s2.code@);
        let one = ctx.code@.subrange(n, n + 1);
        assert(one =~= seq![Insn::LookupSwitch(default_label, pairs)]);
        assert forall|q: int, l: u32| 0 <= q < one.len() && #[trigger] refers(one[q], l) implies binds(one, l) || ext.contains(l) by {
            assert(one[q] == Insn::LookupSwitch(default_label, pairs));
            if l != default_label {
                let k = choose|k: int| 0 <= k < pairs@.len() && (#[trigger] pairs@[k]).1 == l;
                assert(pairs@[k] == (case_labels@[k].key, case_labels@[k].label));
                assert(case_labels@[k].label == l);
            }
        }
        assert(appended_mod(ctx, &s2, ext));
        lemma_chain(&s1, &s2, ctx, ext);
    }
    let mut j: usize = 0;
    while j < case_labels.len()
        invariant
            body.wf(),
            parent < body.exprs@.len(),
            body.exprs@[parent as int] matches Expr::Switch { cases: cs, .. } && cs@ == cases@,
            forall|k: int| 0 <= k < case_labels@.len() ==> (#[trigger] case_labels@[k]).case_index < cases@.len(),
            j <= case_labels@.len(),
            n1 == s1.code@.len(),
            appended_mod(ctx, &s1, ext),
            ext.contains(end),
            forall|k: int| 0 <= k < j ==> binds(ctx.code@.subrange(n1 as int, ctx.code@.len() as int), (#[trigger] case_labels@[k]).label),
        decreases case_labels@.len() - j,
    {
        let cl = case_labels[j];
        let ghost s3 = *ctx;
        let p = ctx.code.len();
        ctx.label(cl.label);
        let ghost s4 = *ctx;
        emit_case_value(ctx, body, parent, cases, cl.case_index, &switch_ty);
        proof {
            lemma_appended_weaken(ctx, &s4, Set::empty(), ext);
            lemma_chain(&s3, &s4, ctx, ext);
        }
        let ghost s5 = *ctx;
        ctx.jump(opcodes::GOTO, end);
        proof {
            lemma_chain(&s3, &s5, ctx, ext);
            lemma_chain(&s1, &s3, ctx, ext);
            assert(ctx.code@[p as int] == Insn::Label(cl.label)) by {
                assert(ctx.code@.subrange(0, s4.code@.len() as int) == s4.code@);
                assert(s4.code@[p as int] == Insn::Label(cl.label));
                assert(ctx.code@[p as int] == ctx.code@.subrange(0, s4.code@.len() as int)[p as int]);
            }
            lemma_binds_in(ctx.code@, n1 as int, ctx.code@.len() as int, p as int, cl.label);
            assert forall|k: int| 0 <= k < j + 1 implies binds(ctx.code@.subrange(n1 as int, ctx.code@.len() as int), (#[trigger] case_labels@[k]).label) by {
                if k < j {
                    lemma_binds_grow(s3.code@, ctx.code@, n1 as int, case_labels@[k].label);
                }
            }
        }
        j = j + 1;
    }
    let ghost s6 = *ctx;
    let pd = ctx.code.len();
    ctx.label(default_label);
    let ghost s7 = *ctx;
    match default_case(cases) {
        Some(d) => emit_case_value(ctx, body, parent, cases, d, &switch_ty),
        None => push_default_value(ctx, &switch_ty),
    }
    proof {
        lemma_appended_weaken(ctx, &s7, Set::empty(), ext);
        lemma_chain(&s6, &s7, ctx, ext);
    }
    let ghost s8 = *ctx;
    let pe = ctx.code.len();
    ctx.label(end);
    proof {
        lemma_chain(&s6, &s8, ctx, ext);
        lemma_chain(&s1, &s6, ctx, ext);
        let len = ctx.code@.len() as int;
        let frag = ctx.code@.subrange(n1 as int, len);
        assert(ctx.code@[pe as int] == Insn::Label(end));
        assert(ctx.code@[pd as int] == Insn::Label(default_label)) by {
            assert(ctx.code@.subrange(0, s7.code@.len() as int) == s7.code@);
            assert(s7.code@[pd as int] == Insn::Label(default_label));
            assert(ctx.code@[pd as int] == ctx.code@.subrange(0, s7.code@.len() as int)[pd as int]);
        }
        lemma_binds_in(ctx.code@, n1 as int, len, pe as int, end);
        lemma_binds_in(ctx.code@, n1 as int, len, pd as int, default_label);
        assert forall|k: int| 0 <= k < case_labels@.len() implies binds(frag, (#[trigger] case_labels@[k]).label) by {
            lemma_binds_grow(s6.code@, ctx.code@, n1 as int, case_labels@[k].label);
        }
        assert forall|l: u32| ext.contains(l) implies binds(frag, l) by {
            if l != end && l != default_label {
                let k = choose|k: int| 0 <= k < case_labels@.len() && (#[trigger] case_labels@[k]).label == l;
            }
        }
        lemma_resolved_close(frag, ext);
        assert(same_env(&s1, &s0));
        assert(s1.code == s0.code);
    }
}

/// A fragment whose jumps land in it or on `e1`, where every label of `e1` is
/// placed in it or is one of `e2`, lands in it or on `e2`.
pub proof fn lemma_resolved_narrow(a: Seq<Insn>, e1: Set<u32>, e2: Set<u32>)
    requires
        resolved_mod(a, e1),
        forall|l: u32| e1.contains(l) ==> binds(a, l) || e2.contains(l),
    ensures
        resolved_mod(a, e2),
{
}

/// Jumps to `target` when the condition is false, falls through when true
///. Every other jump lands among the new instructions.
pub fn emit_jump_if_false(ctx: &mut CodegenCtx, body: &Body, id: ExprId, target: u32)
    requires
        body.wf(),
        id < body.exprs@.len(),
    ensures
        appended_mod(final(ctx), old(ctx), set![target]),
        branch_code(*old(ctx), *final(ctx), body.exprs@, id as int, target, false),
    decreases id, 1int,
{
    emit_branch(ctx, body, id, target, false);
}

/// Jumps to `target` when the condition is true, falls through when false.
pub fn emit_jump_if_true(ctx: &mut CodegenCtx, body: &Body, id: ExprId, target: u32)
    requires
        body.wf(),
        id < body.exprs@.len(),
    ensures
        appended_mod(final(ctx), old(ctx), set![target]),
        branch_code(*old(ctx), *final(ctx), body.exprs@, id as int, target, true),
    decreases id, 1int,
{
    emit_branch(ctx, body, id, target, true);
}

/// The jump `emit_comparison_branch` ends with, after the `lcmp`, `fcmpg` or
/// `dcmpg` its operand type needs.
pub open spec fn comparison_tail(t: TyModel, op: BinaryOp, sense: BranchSense, target: u32) -> Seq<Insn> {
    match erasure(t) {
        TyModel::Long => seq![Insn::Op(opcodes::LCMP), Insn::Jump(single_value_branch_op(op, sense), target)],
        TyModel::Float => seq![Insn::Op(opcodes::FCMPG), Insn::Jump(single_value_branch_op(op, sense), target)],
        TyModel::Double => seq![Insn::Op(opcodes::DCMPG), Insn::Jump(single_value_branch_op(op, sense), target)],
        TyModel::Class(_) | TyModel::Array(_) => seq![Insn::Jump(reference_branch_op(op, sense), target)],
        _ => seq![Insn::Jump(int_branch_op(op, sense), target)],
    }
}

/// `new`'s code is `old`'s followed by code that ends with `tail`.
pub open spec fn ends_with(new: CodegenCtx, old: CodegenCtx, tail: Seq<Insn>) -> bool {
    &&& new.code@.len() >= old.code@.len() + tail.len()
    &&& new.code@.subrange(new.code@.len() - tail.len(), new.code@.len() as int) == tail
}

/// What the code that jumps to `target` when the condition `id` has the value
/// `when` is: for a literal, a `goto` exactly when it has that value, else
/// nothing; for a comparison, the operands then the comparison's jump; for
/// `!`, the code of its operand with the value swapped; for any other
/// condition that is not `&&` or `||`, its value then `ifne` (or `ifeq`).
pub open spec fn branch_code(old: CodegenCtx, new: CodegenCtx, exprs: Seq<Expr>, id: int, target: u32, when: bool) -> bool
    decreases id,
{
    match exprs[id] {
        Expr::BoolLiteral(b) => new.code@ == if b == when {
            old.code@.push(Insn::Jump(opcodes::GOTO, target))
        } else {
            old.code@
        },
        Expr::Unary { op: UnaryOp::Not, operand } => if operand < id {
            branch_code(old, new, exprs, operand as int, target, !when)
        } else {
            true
        },
        Expr::Binary { op, left, right } => if op is AndAnd || op is OrOr {
            true
        } else if is_comparison_op(op) {
            ends_with(
                new,
                old,
                comparison_tail(expr_type(old, exprs, left as int), op, if when {
                    BranchSense::True
                } else {
                    BranchSense::False
                }, target),
            )
        } else {
            ends_with(new, old, seq![Insn::Jump(if when { opcodes::IFNE } else { opcodes::IFEQ }, target)])
        },
        _ => ends_with(new, old, seq![Insn::Jump(if when { opcodes::IFNE } else { opcodes::IFEQ }, target)]),
    }
}

/// Jumps to `target` when the condition's value is `when`.
fn emit_branch(ctx: &mut CodegenCtx, body: &Body, id: ExprId, target: u32, when: bool)
    requires
        body.wf(),
        id < body.exprs@.len(),
    ensures
        appended_mod(final(ctx), old(ctx), set![target]),
        branch_code(*old(ctx), *final(ctx), body.exprs@, id as int, target, when),
    decreases id, 0int,
{
    proof {
        assert(expr_children_below(body.exprs@[id as int], id as int));
    }
    let ghost s0 = *ctx;
    let ghost ext = set![target];
    match &body.exprs[id] {
        Expr::BoolLiteral(b) => {
            if *b == when {
                ctx.jump(opcodes::GOTO, target);
                proof {
                    assert(ext.contains(target));
                }
            } else {
                proof {
                    lemma_appended_refl(ctx, ext);
                }
            }
        },
        Expr::Unary { op: UnaryOp::Not, operand } => emit_branch(ctx, body, *operand, target, !when),
        Expr::Binary { op, left, right } => {
            let is_and = matches!(op, BinaryOp::AndAnd);
            let is_or = matches!(op, BinaryOp::OrOr);
            if (is_and && !when) || (is_or && when) {
                emit_branch(ctx, body, *left, target, when);
                let ghost s1 = *ctx;
                emit_branch(ctx, body, *right, target, when);
                proof {
                    lemma_chain(&s0, &s1, ctx, ext);
                }
            } else if is_and || is_or {
                let skip = ctx.new_label();
                let ghost both = set![target, skip];
                let ghost s1 = *ctx;
                emit_branch(ctx, body, *left, skip, !when);
                proof {
                    lemma_appended_weaken(ctx, &s1, set![skip], both);
                }
                let ghost s2 = *ctx;
                emit_branch(ctx, body, *right, target, when);
                proof {
                    lemma_appended_weaken(ctx, &s2, ext, both);
                    lemma_chain(&s1, &s2, ctx, both);
                }
                let ghost s3 = *ctx;
                let p = ctx.code.len();
                ctx.label(skip);
                proof {
                    lemma_chain(&s1, &s3, ctx, both);
                    let n1 = s1.code@.len() as int;
                    let frag = ctx.code@.subrange(n1, ctx.code@.len() as int);
                    lemma_binds_in(ctx.code@, n1, ctx.code@.len() as int, p as int, skip);
                    lemma_resolved_narrow(frag, both, ext);
                    assert(s0.code == s1.code);
                }
            } else if is_comparison(*op) {
                emit_comparison_branch(ctx, body, id, *op, *left, *right, if when {
                    BranchSense::True
                } else {
                    BranchSense::False
                }, target);
            } else {
                emit_test_jump(ctx, body, id, target, when);
            }
        },
        _ => emit_test_jump(ctx, body, id, target, when),
    }
}

/// Evaluates the condition and jumps on its value.
fn emit_test_jump(ctx: &mut CodegenCtx, body: &Body, id: ExprId, target: u32, when: bool)
    requires
        body.wf(),
        id < body.exprs@.len(),
    ensures
        appended_mod(final(ctx), old(ctx), set![target]),
        ends_with(*final(ctx), *old(ctx), seq![Insn::Jump(if when { opcodes::IFNE } else { opcodes::IFEQ }, target)]),
{
    let ghost s0 = *ctx;
    let ghost ext = set![target];
    gen_expr(ctx, body, id);
    proof {
        lemma_appended_weaken(ctx, &s0, Set::empty(), ext);
    }
    let ghost s1 = *ctx;
    ctx.jump(if when { opcodes::IFNE } else { opcodes::IFEQ }, target);
    proof {
        assert(ext.contains(target));
        lemma_chain(&s0, &s1, ctx, ext);
        assert(ctx.code@.subrange(ctx.code@.len() - 1, ctx.code@.len() as int) =~= seq![
            Insn::Jump(if when { opcodes::IFNE } else { opcodes::IFEQ }, target),
        ]);
    }
}

/// Compares two values and jumps to `target` as `sense` asks.
pub fn emit_comparison_branch(
    ctx: &mut CodegenCtx,
    body: &Body,
    parent: ExprId,
    op: BinaryOp,
    left: ExprId,
    right: ExprId,
    sense: BranchSense,
    target: u32,
)
    requires
        body.wf(),
        parent < body.exprs@.len(),
        left < parent,
        right < parent,
    ensures
        appended_mod(final(ctx), old(ctx), set![target]),
        ends_with(*final(ctx), *old(ctx), comparison_tail(expr_type(*old(ctx), body.exprs@, left as int), op, sense, target)),
{
    let ghost s0 = *ctx;
    let ghost ext = set![target];
    let left_ty = expr_ty(ctx, body, left);
    gen_expr(ctx, body, left);
    let ghost s1 = *ctx;
    gen_expr(ctx, body, right);
    proof {
        lemma_chain(&s0, &s1, ctx, Set::empty());
        lemma_appended_weaken(ctx, &s0, Set::empty(), ext);
    }
    let ghost s2 = *ctx;
    let e = left_ty.erasure();
    match e {
        Ty::Long => {
            ctx.op(opcodes::LCMP);
            ctx.jump(single_value_branch(op, sense), target);
        },
        Ty::Float => {
            ctx.op(opcodes::FCMPG);
            ctx.jump(single_value_branch(op, sense), target);
        },
        Ty::Double => {
            ctx.op(opcodes::DCMPG);
            ctx.jump(single_value_branch(op, sense), target);
        },
        Ty::Class(_) | Ty::Array(_) => {
            ctx.jump(reference_branch(op, sense), target);
        },
        _ => {
            ctx.jump(int_branch(op, sense), target);
        },
    }
    proof {
        let n = s2.code@.len() as int;
        let frag = ctx.code@.subrange(n, ctx.code@.len() as int);
        assert(ctx.code@.subrange(0, n) =~= s2.code@);
        assert forall|i: int, l: u32| 0 <= i < frag.len() && #[trigger] refers(frag[i], l) implies binds(frag, l) || ext.contains(l) by {
            assert(l == target);
        }
        assert(appended_mod(ctx, &s2, ext));
        lemma_chain(&s0, &s2, ctx, ext);
        let tail = comparison_tail(expr_type(s0, body.exprs@, left as int), op, sense, target);
        assert(ctx.code@.len() >= s2.code@.len() + tail.len());
        assert(ctx.code@.subrange(ctx.code@.len() - tail.len(), ctx.code@.len() as int) =~= tail);
    }
}

/// The class-level context is unchanged: only locals, code and labels move.
pub open spec fn same_class(a: &CodegenCtx, b: &CodegenCtx) -> bool {
    &&& a.class_name == b.class_name
    &&& a.super_name == b.super_name
    &&& a.return_ty == b.return_ty
    &&& a.fields == b.fields
    &&& a.methods == b.methods
    &&& a.outer_this == b.outer_this
    &&& a.outer_fields == b.outer_fields
    &&& a.enclosing_static_owner == b.enclosing_static_owner
}

/// `new` holds the code of `old` followed by a closed fragment; locals may grow.
pub open spec fn stmt_appended(new: &CodegenCtx, old: &CodegenCtx) -> bool {
    &&& same_class(new, old)
    &&& old.code@.len() <= new.code@.len()
    &&& new.code@.subrange(0, old.code@.len() as int) == old.code@
    &&& resolved(new.code@.subrange(old.code@.len() as int, new.code@.len() as int))
}

pub proof fn lemma_appended_stmt(b: &CodegenCtx, a: &CodegenCtx)
    requires
        appended(b, a),
    ensures
        stmt_appended(b, a),
{
}

pub proof fn lemma_stmt_chain(a: &CodegenCtx, b: &CodegenCtx, c: &CodegenCtx)
    requires
        stmt_appended(b, a),
        stmt_appended(c, b),
    ensures
        stmt_appended(c, a),
{
    let x = a.code@.len() as int;
    let y = b.code@.len() as int;
    let z = c.code@.len() as int;
    assert(c.code@.subrange(0, x) =~= c.code@.subrange(0, y).subrange(0, x));
    assert(c.code@.subrange(x, z) =~= c.code@.subrange(x, y) + c.code@.subrange(y, z));
    assert(c.code@.subrange(x, y) =~= b.code@.subrange(x, y)) by {
        assert(c.code@.subrange(0, y) == b.code@);
        assert(c.code@.subrange(x, y) =~= c.code@.subrange(0, y).subrange(x, y));
    }
    lemma_resolved_concat(c.code@.subrange(x, y), c.code@.subrange(y, z), Set::empty());
}

/// The code `frag` opens with the code of expression `e`.
pub open spec fn starts_with_expr(s: CodegenCtx, exprs: Seq<Expr>, e: int, frag: Seq<Insn>) -> bool {
    exists|k: int| 0 <= k <= frag.len() && #[trigger] expr_code(s, exprs, e, frag.take(k))
}

proof fn lemma_starts(s0: CodegenCtx, s1: CodegenCtx, s2: CodegenCtx, exprs: Seq<Expr>, e: int)
    requires
        s0.code@.len() <= s1.code@.len(),
        s1.code@.subrange(0, s0.code@.len() as int) == s0.code@,
        s1.code@.len() <= s2.code@.len(),
        s2.code@.subrange(0, s1.code@.len() as int) == s1.code@,
        expr_code(s0, exprs, e, code_from(s0, s1)),
    ensures
        starts_with_expr(s0, exprs, e, code_from(s0, s2)),
{
    let k = s1.code@.len() - s0.code@.len();
    let f = code_from(s0, s2);
    assert(f.take(k) =~= code_from(s0, s1)) by {
        assert forall|i: int| 0 <= i < k implies f.take(k)[i] == code_from(s0, s1)[i] by {
            assert(s2.code@[s0.code@.len() + i] == s2.code@.subrange(0, s1.code@.len() as int)[s0.code@.len() + i]);
        }
    }
    assert(0 <= k <= f.len() && expr_code(s0, exprs, e, f.take(k)));
}

/// The instructions of a statement. An `if` or a loop evaluates its parts in
/// order, without branching on the condition.
pub fn gen_stmt(ctx: &mut CodegenCtx, body: &Body, sid: StmtId)
    requires
        body.wf(),
        sid < body.stmts@.len(),
    ensures
        stmt_appended(final(ctx), old(ctx)),
        body.stmts@[sid as int] is Empty ==> final(ctx).code@ == old(ctx).code@,
        body.stmts@[sid as int] == Stmt::Return(None) ==> final(ctx).code@ == old(ctx).code@.push(
            Insn::Op(opcodes::RETURN),
        ),
        body.stmts@[sid as int] matches Stmt::Return(Some(e)) ==> (final(ctx).code@.len() > old(ctx).code@.len()
            && final(ctx).code@.last() == Insn::Op(return_op(base_ty(body.exprs@, e as int)))),
        body.stmts@[sid as int] matches Stmt::Return(Some(e)) ==> starts_with_expr(
            *old(ctx),
            body.exprs@,
            e as int,
            code_from(*old(ctx), *final(ctx)),
        ),
        body.stmts@[sid as int] matches Stmt::Expr(e) ==> starts_with_expr(
            *old(ctx),
            body.exprs@,
            e as int,
            code_from(*old(ctx), *final(ctx)),
        ),
        body.stmts@[sid as int] matches Stmt::If { condition, .. } ==> starts_with_expr(
            *old(ctx),
            body.exprs@,
            condition as int,
            code_from(*old(ctx), *final(ctx)),
        ),
        body.stmts@[sid as int] matches Stmt::While { condition, .. } ==> starts_with_expr(
            *old(ctx),
            body.exprs@,
            condition as int,
            code_from(*old(ctx), *final(ctx)),
        ),
        body.stmts@[sid as int] matches Stmt::Throw(e) ==> starts_with_expr(
            *old(ctx),
            body.exprs@,
            e as int,
            code_from(*old(ctx), *final(ctx)),
        ),
        body.stmts@[sid as int] matches Stmt::LocalVar(v) ==> (v.initializer matches Some(init) ==> starts_with_expr(
            *old(ctx),
            body.exprs@,
            init as int,
            code_from(*old(ctx), *final(ctx)),
        )),
        body.stmts@[sid as int] matches Stmt::Throw(_) ==> (final(ctx).code@.len() > old(ctx).code@.len()
            && final(ctx).code@.last() == Insn::Op(opcodes::ATHROW)),
        body.stmts@[sid as int] matches Stmt::Expr(e) ==> (!(base_ty(body.exprs@, e as int) is Void) ==> (
        final(ctx).code@.len() > old(ctx).code@.len() && final(ctx).code@.last() == Insn::Op(
            if slot_size(base_ty(body.exprs@, e as int)) == 2 {
                opcodes::POP2
            } else {
                opcodes::POP
            },
        ))),
        body.stmts@[sid as int] matches Stmt::LocalVar(v) ==> (old(ctx).next_local + slot_size(v.ty@) <= u16::MAX
            ==> (final(ctx).code@.len() > old(ctx).code@.len() && final(ctx).code@.last() == Insn::Var(
            store_op(v.ty@),
            old(ctx).next_local,
        ) && local_slot(final(ctx).locals@, v.name@) == Some(old(ctx).next_local) && local_type(
            final(ctx).locals@,
            v.name@,
        ) == Some(v.ty@))),
    decreases sid,
{
    proof {
        assert(crate::hir::stmt_children_ok(body.stmts@[sid as int], sid as int, body.exprs@.len() as int));
    }
    let ghost s0 = *ctx;
    match &body.stmts[sid] {
        Stmt::Return(Some(e)) => {
            gen_expr(ctx, body, *e);
            let ty = base_type(body, *e);
            let ghost s1 = *ctx;
            ctx.op(return_opcode(&ty));
            proof {
                lemma_chain(&s0, &s1, ctx, Set::empty());
                lemma_appended_stmt(ctx, &s0);
                assert(ctx.code@.subrange(0, s1.code@.len() as int) =~= s1.code@);
                lemma_starts(s0, s1, *ctx, body.exprs@, *e as int);
            }
        },
        Stmt::Return(None) => {
            ctx.op(opcodes::RETURN);
            proof {
                lemma_appended_stmt(ctx, &s0);
            }
        },
        Stmt::Expr(e) => {
            gen_expr(ctx, body, *e);
            let ghost se = *ctx;
            let ty = base_type(body, *e);
            if !matches!(ty, Ty::Void) {
                let ghost s1 = *ctx;
                if ty.size() == 2 {
                    ctx.op(opcodes::POP2);
                } else {
                    ctx.op(opcodes::POP);
                }
                proof {
                    lemma_chain(&s0, &s1, ctx, Set::empty());
                }
            }
            proof {
                lemma_appended_stmt(ctx, &s0);
                assert(ctx.code@.subrange(0, se.code@.len() as int) =~= se.code@);
                lemma_starts(s0, se, *ctx, body.exprs@, *e as int);
            }
        },
        Stmt::Empty => {
            proof {
                lemma_appended_refl(ctx, Set::empty());
                lemma_appended_stmt(ctx, &s0);
            }
        },
        Stmt::Block(block) => {
            gen_stmt_list(ctx, body, sid, &block.stmts);
        },
        Stmt::LocalVar(var) => {
            match var.initializer {
                Some(init) => gen_expr(ctx, body, init),
                None => {
                    proof {
                        lemma_appended_refl(ctx, Set::empty());
                    }
                },
            }
            let ghost s1 = *ctx;
            let slot = if ctx.next_local <= u16::MAX - var.ty.slot_count() {
                ctx.alloc_local(var.name.as_str(), &var.ty)
            } else {
                ctx.next_local
            };
            proof {
                assert(ctx.code == s1.code);
                lemma_appended_refl(&s1, Set::empty());
            }
            let ghost s2 = *ctx;
            ctx.emit(Insn::Var(store_opcode(&var.ty), slot));
            proof {
                assert(stmt_appended(&s1, &s0));
                assert(ctx.code@.subrange(0, s1.code@.len() as int) == s1.code@);
                assert(stmt_appended(ctx, &s2));
                lemma_stmt_chain(&s0, &s2, ctx);
                if let Some(init) = var.initializer {
                    lemma_starts(s0, s1, *ctx, body.exprs@, init as int);
                }
            }
        },
        Stmt::If { condition, then_branch, else_branch } => {
            gen_expr(ctx, body, *condition);
            proof {
                lemma_appended_stmt(ctx, &s0);
            }
            let ghost s1 = *ctx;
            gen_stmt(ctx, body, *then_branch);
            proof {
                lemma_stmt_chain(&s0, &s1, ctx);
            }
            match else_branch {
                Some(els) => {
                    let ghost s2 = *ctx;
                    gen_stmt(ctx, body, *els);
                    proof {
                        lemma_stmt_chain(&s0, &s2, ctx);
                        lemma_stmt_chain(&s1, &s2, ctx);
                    }
                },
                None => {},
            }
            proof {
                lemma_starts(s0, s1, *ctx, body.exprs@, *condition as int);
            }
        },
        Stmt::While { condition, body: loop_body } => {
            gen_expr(ctx, body, *condition);
            proof {
                lemma_appended_stmt(ctx, &s0);
            }
            let ghost s1 = *ctx;
            gen_stmt(ctx, body, *loop_body);
            proof {
                lemma_stmt_chain(&s0, &s1, ctx);
                lemma_starts(s0, s1, *ctx, body.exprs@, *condition as int);
            }
        },
        Stmt::Throw(e) => {
            gen_expr(ctx, body, *e);
            let ghost s1 = *ctx;
            ctx.op(opcodes::ATHROW);
            proof {
                lemma_chain(&s0, &s1, ctx, Set::empty());
                lemma_appended_stmt(ctx, &s0);
                assert(ctx.code@.subrange(0, s1.code@.len() as int) =~= s1.code@);
                lemma_starts(s0, s1, *ctx, body.exprs@, *e as int);
            }
        },
        _ => {
            proof {
                lemma_appended_refl(ctx, Set::empty());
                lemma_appended_stmt(ctx, &s0);
            }
        },
    }
}

/// The statements of a block, in order.
fn gen_stmt_list(ctx: &mut CodegenCtx, body: &Body, parent: StmtId, stmts: &Vec<StmtId>)
    requires
        body.wf(),
        parent < body.stmts@.len(),
        forall|k: int| 0 <= k < stmts@.len() ==> stmts@[k] < parent,
    ensures
        stmt_appended(final(ctx), old(ctx)),
    decreases parent, 0int,
{
    let ghost s0 = *ctx;
    proof {
        lemma_appended_refl(ctx, Set::empty());
    }
    let mut i: usize = 0;
    while i < stmts.len()
        invariant
            body.wf(),
            parent < body.stmts@.len(),
            forall|k: int| 0 <= k < stmts@.len() ==> stmts@[k] < parent,
            i <= stmts@.len(),
            stmt_appended(ctx, &s0),
        decreases stmts@.len() - i,
    {
        let ghost s1 = *ctx;
        gen_stmt(ctx, body, stmts[i]);
        proof {
            lemma_stmt_chain(&s0, &s1, ctx);
        }
        i = i + 1;
    }
}

/// Whether a statement always leaves the method: a return, a throw, a block that
/// ends in one, or an `if` whose both branches do.
pub open spec fn exits(stmts: Seq<Stmt>, sid: int) -> bool
    decreases sid,
{
    if !(0 <= sid < stmts.len()) {
        false
    } else {
        match stmts[sid] {
            Stmt::Return(_) | Stmt::Throw(_) => true,
            Stmt::Block(b) => b.stmts@.len() > 0 && 0 <= b.stmts@.last() < sid && exits(stmts, b.stmts@.last() as int),
            Stmt::If { then_branch, else_branch: Some(els), .. } => 0 <= then_branch < sid && 0 <= els < sid
                && exits(stmts, then_branch as int) && exits(stmts, els as int),
            _ => false,
        }
    }
}

pub fn stmt_definitely_exits(body: &Body, sid: StmtId) -> (r: bool)
    requires
        body.wf(),
        sid < body.stmts@.len(),
    ensures
        r == exits(body.stmts@, sid as int),
    decreases sid,
{
    proof {
        assert(crate::hir::stmt_children_ok(body.stmts@[sid as int], sid as int, body.exprs@.len() as int));
    }
    match &body.stmts[sid] {
        Stmt::Return(_) | Stmt::Throw(_) => true,
        Stmt::Block(b) => {
            if b.stmts.len() == 0 {
                false
            } else {
                let last = b.stmts[b.stmts.len() - 1];
                stmt_definitely_exits(body, last)
            }
        },
        Stmt::If { then_branch, else_branch: Some(els), .. } => stmt_definitely_exits(body, *then_branch)
            && stmt_definitely_exits(body, *els),
        _ => false,
    }
}

/// Whether a block ends in a statement that always leaves.
pub fn block_definitely_exits(body: &Body, block: &Block) -> (r: bool)
    requires
        body.wf(),
        body.block_ok(*block),
    ensures
        r == (block.stmts@.len() > 0 && exits(body.stmts@, block.stmts@.last() as int)),
{
    if block.stmts.len() == 0 {
        false
    } else {
        stmt_definitely_exits(body, block.stmts[block.stmts.len() - 1])
    }
}

/// The return that ends a method whose body can fall off its end: the type's
/// default value and its return instruction.
pub open spec fn default_return(t: TyModel) -> Seq<Insn> {
    match t {
        TyModel::Void => seq![Insn::Op(opcodes::RETURN)],
        TyModel::Long => seq![Insn::Op(opcodes::LCONST_0), Insn::Op(opcodes::LRETURN)],
        TyModel::Float => seq![Insn::Op(opcodes::FCONST_0), Insn::Op(opcodes::FRETURN)],
        TyModel::Double => seq![Insn::Op(opcodes::DCONST_0), Insn::Op(opcodes::DRETURN)],
        TyModel::Class(_) | TyModel::Array(_) | TyModel::TypeVar(_) | TyModel::Wildcard(_)
        | TyModel::Intersection(_, _) => seq![Insn::Op(opcodes::ACONST_NULL), Insn::Op(opcodes::ARETURN)],
        _ => seq![Insn::Op(opcodes::ICONST_0), Insn::Op(opcodes::IRETURN)],
    }
}

pub fn emit_default_return(ctx: &mut CodegenCtx, ty: &Ty)
    ensures
        appended(final(ctx), old(ctx)),
        final(ctx).code@ == old(ctx).code@ + default_return(ty@),
{
    let ghost s0 = *ctx;
    let (a, b): (u8, u8) = match ty {
        Ty::Void => {
            ctx.op(opcodes::RETURN);
            proof {
                assert(ctx.code@ =~= s0.code@ + default_return(ty@));
            }
            return;
        },
        Ty::Long => (opcodes::LCONST_0, opcodes::LRETURN),
        Ty::Float => (opcodes::FCONST_0, opcodes::FRETURN),
        Ty::Double => (opcodes::DCONST_0, opcodes::DRETURN),
        Ty::Class(_) | Ty::Array(_) | Ty::TypeVar(_) | Ty::Wildcard(_) | Ty::Intersection(_, _) => (
            opcodes::ACONST_NULL,
            opcodes::ARETURN,
        ),
        _ => (opcodes::ICONST_0, opcodes::IRETURN),
    };
    ctx.op(a);
    let ghost s1 = *ctx;
    ctx.op(b);
    proof {
        lemma_chain(&s0, &s1, ctx, Set::empty());
        assert(ctx.code@ =~= s0.code@ + default_return(ty@));
    }
}

/// The code of a method body: its statements, then a default return unless the
/// last statement always leaves.
pub fn gen_method_body(ctx: &mut CodegenCtx, body: &Body, block: &Block)
    requires
        body.wf(),
        body.block_ok(*block),
    ensures
        stmt_appended(final(ctx), old(ctx)),
        (block.stmts@.len() > 0 && exits(body.stmts@, block.stmts@.last() as int)) ==> final(ctx).code@.len()
            >= old(ctx).code@.len(),
        !(block.stmts@.len() > 0 && exits(body.stmts@, block.stmts@.last() as int)) ==> (final(ctx).code@.len()
            >= old(ctx).code@.len() + default_return(old(ctx).return_ty@).len() && final(ctx).code@.subrange(
            final(ctx).code@.len() - default_return(old(ctx).return_ty@).len(),
            final(ctx).code@.len() as int,
        ) == default_return(old(ctx).return_ty@)),
{
    let ghost s0 = *ctx;
    proof {
        lemma_appended_refl(ctx, Set::empty());
    }
    let mut i: usize = 0;
    while i < block.stmts.len()
        invariant
            body.wf(),
            body.block_ok(*block),
            i <= block.stmts@.len(),
            stmt_appended(ctx, &s0),
        decreases block.stmts@.len() - i,
    {
        let ghost s1 = *ctx;
        gen_stmt(ctx, body, block.stmts[i]);
        proof {
            lemma_stmt_chain(&s0, &s1, ctx);
        }
        i = i + 1;
    }
    if !block_definitely_exits(body, block) {
        let ret = ctx.return_ty.copy();
        let ghost s2 = *ctx;
        emit_default_return(ctx, &ret);
        proof {
            lemma_stmt_chain(&s0, &s2, ctx);
            let d = default_return(ret@);
            assert(ctx.code@.subrange(ctx.code@.len() - d.len(), ctx.code@.len() as int) =~= d);
        }
    }
}

/// A field as the class file declares it.
#[derive(Debug)]
pub struct FieldPlan {
    pub access_flags: u16,
    pub name: String,
    pub descriptor: String,
}

/// A method as the class file declares it, with its code when it has a body.
#[derive(Debug)]
pub struct MethodPlan {
    pub access_flags: u16,
    pub name: String,
    pub descriptor: String,
    pub code: Option<Vec<Insn>>,
}

/// Everything the class file of one class holds.
#[derive(Debug)]
pub struct ClassPlan {
    pub access_flags: u16,
    pub name: String,
    pub super_name: Option<String>,
    pub interfaces: Vec<String>,
    pub fields: Vec<FieldPlan>,
    pub methods: Vec<MethodPlan>,
}

/// Every method's body is well formed and its root block refers to existing statements.
pub open spec fn decl_ok(td: TypeDecl) -> bool {
    forall|i: int|
        0 <= i < td.methods@.len() ==> (#[trigger] td.methods@[i]).body.wf() && (td.methods@[i].root_block matches Some(
            b,
        ) ==> td.methods@[i].body.block_ok(b))
}

/// Whether the plan's methods include a constructor.
pub open spec fn has_constructor(ms: Seq<MethodDecl>) -> bool {
    exists|i: int| 0 <= i < ms.len() && (#[trigger] ms[i]).name@ == "<init>"@
}

/// The access flags of the class: `ACC_SUPER` is added for classes.
pub open spec fn class_access(td: TypeDecl) -> u16 {
    if td.kind == TypeDeclKind::Class {
        td.access_flags | opcodes::ACC_SUPER
    } else {
        td.access_flags
    }
}

/// The default constructor of a class whose superclass is `super_name`.
pub fn gen_default_constructor(super_name: &str) -> (r: MethodPlan)
    ensures
        r.access_flags == opcodes::ACC_PUBLIC,
        r.name@ == "<init>"@,
        r.descriptor@ == "()V"@,
        r.code matches Some(c) && c@.len() == 3 && c@[0] == Insn::Var(opcodes::ALOAD, 0) && (c@[1] matches Insn::Method(
            op,
            owner,
            name,
            desc,
            itf,
        ) && op == opcodes::INVOKESPECIAL && owner@ == super_name@ && name@ == "<init>"@ && desc@ == "()V"@ && !itf)
            && c@[2] == Insn::Op(opcodes::RETURN),
{
    let mut code: Vec<Insn> = Vec::new();
    code.push(Insn::Var(opcodes::ALOAD, 0));
    code.push(
        Insn::Method(
            opcodes::INVOKESPECIAL,
            String::from_str(super_name),
            String::from_str("<init>"),
            String::from_str("()V"),
            false,
        ),
    );
    code.push(Insn::Op(opcodes::RETURN));
    MethodPlan {
        access_flags: opcodes::ACC_PUBLIC,
        name: String::from_str("<init>"),
        descriptor: String::from_str("()V"),
        code: Some(code),
    }
}

fn copy_tys(v: &Vec<Ty>) -> (r: Vec<Ty>)
    ensures
        r@.len() == v@.len(),
        forall|i: int| 0 <= i < v@.len() ==> (#[trigger] r@[i])@ == v@[i]@,
{
    let mut out: Vec<Ty> = Vec::new();
    let mut i: usize = 0;
    while i < v.len()
        invariant
            i <= v@.len(),
            out@.len() == i,
            forall|k: int| 0 <= k < i ==> (#[trigger] out@[k])@ == v@[k]@,
        decreases v@.len() - i,
    {
        out.push(v[i].copy());
        i = i + 1;
    }
    out
}

fn copy_captured(v: &Vec<CapturedField>) -> (r: Vec<CapturedField>)
    ensures
        r@.len() == v@.len(),
{
    let mut out: Vec<CapturedField> = Vec::new();
    let mut i: usize = 0;
    while i < v.len()
        invariant
            i <= v@.len(),
            out@.len() == i,
        decreases v@.len() - i,
    {
        out.push(CapturedField { name: v[i].name.clone(), ty: v[i].ty.copy(), access_flags: v[i].access_flags });
        i = i + 1;
    }
    out
}

/// The context for generating one method of `td` (`CodegenCtx::new` with
/// `set_super_name`, `set_fields`, `set_methods` and `begin_method`): `this` in
/// slot 0 unless the method is static, then the parameters in order.
pub fn begin_method(td: &TypeDecl, super_name: &str, method: &MethodDecl) -> (r: CodegenCtx)
    ensures
        r.code@.len() == 0,
        r.return_ty@ == method.signature.return_type@,
        r.class_name@ == td.name@,
        r.super_name@ == super_name@,
{
    let mut fields: Vec<FieldInfo> = Vec::new();
    let mut i: usize = 0;
    while i < td.fields.len()
        invariant
            i <= td.fields@.len(),
        decreases td.fields@.len() - i,
    {
        let f = &td.fields[i];
        fields.push(FieldInfo { name: f.name.clone(), ty: f.ty.copy(), access_flags: f.access_flags });
        i = i + 1;
    }
    let mut methods: Vec<MethodSig> = Vec::new();
    let mut j: usize = 0;
    while j < td.methods.len()
        invariant
            j <= td.methods@.len(),
        decreases td.methods@.len() - j,
    {
        let m = &td.methods[j];
        let mut sig = MethodSig::new(m.name.clone(), copy_tys(&m.signature.params), m.signature.return_type.copy());
        sig.access_flags = m.access_flags;
        methods.push(sig);
        j = j + 1;
    }
    let (outer_this, outer_fields, enclosing_static_owner) = match &td.anonymous {
        Some(info) => (
            match &info.outer_this {
                Some(o) => Some(OuterThisInfo { field_name: o.field_name.clone(), ty: o.ty.copy() }),
                None => None,
            },
            copy_captured(&info.outer_fields),
            match &info.enclosing_static_owner {
                Some(o) => Some(o.clone()),
                None => None,
            },
        ),
        None => (None, Vec::new(), None),
    };
    let mut ctx = CodegenCtx {
        class_name: td.name.clone(),
        super_name: String::from_str(super_name),
        return_ty: method.signature.return_type.copy(),
        next_local: 0,
        locals: Vec::new(),
        fields,
        methods,
        outer_this,
        outer_fields,
        enclosing_static_owner,
        code: Vec::new(),
        next_label: 0,
    };
    if method.access_flags & opcodes::ACC_STATIC == 0 {
        let this_ty = Ty::Class(td.name.clone());
        ctx.alloc_local("this", &this_ty);
    }
    let mut k: usize = 0;
    while k < method.params.len()
        invariant
            k <= method.params@.len(),
            ctx.code@.len() == 0,
            ctx.return_ty@ == method.signature.return_type@,
            ctx.class_name@ == td.name@,
            ctx.super_name@ == super_name@,
        decreases method.params@.len() - k,
    {
        let p = &method.params[k];
        if ctx.next_local <= u16::MAX - p.ty.slot_count() {
            ctx.alloc_local(p.name.as_str(), &p.ty);
        }
        k = k + 1;
    }
    ctx
}

/// The code of one method: for a constructor, first the call of the superclass's
/// no-argument constructor; then the body. Every jump lands on a label in it.
pub fn gen_method_code(td: &TypeDecl, super_name: &str, method: &MethodDecl, block: &Block) -> (r: Vec<Insn>)
    requires
        method.body.wf(),
        method.body.block_ok(*block),
    ensures
        resolved(r@),
        method.name@ == "<init>"@ ==> (r@.len() >= 2 && r@[0] == Insn::Var(opcodes::ALOAD, 0) && (r@[1] matches Insn::Method(
            op,
            owner,
            name,
            desc,
            itf,
        ) && op == opcodes::INVOKESPECIAL && owner@ == super_name@ && name@ == "<init>"@ && desc@ == "()V"@ && !itf)),
        !(block.stmts@.len() > 0 && exits(method.body.stmts@, block.stmts@.last() as int)) ==> (r@.len()
            >= default_return(method.signature.return_type@).len() && r@.subrange(
            r@.len() - default_return(method.signature.return_type@).len(),
            r@.len() as int,
        ) == default_return(method.signature.return_type@)),
{
    let mut ctx = begin_method(td, super_name, method);
    let ghost s0 = ctx;
    proof {
        lemma_appended_refl(&ctx, Set::empty());
    }
    if str_eq(method.name.as_str(), "<init>") {
        ctx.emit(Insn::Var(opcodes::ALOAD, 0));
        let ghost s1 = ctx;
        let owner = ctx.super_name.clone();
        ctx.emit(
            Insn::Method(opcodes::INVOKESPECIAL, owner, String::from_str("<init>"), String::from_str("()V"), false),
        );
        proof {
            lemma_chain(&s0, &s1, &ctx, Set::empty());
        }
    }
    proof {
        lemma_appended_stmt(&ctx, &s0);
    }
    let ghost s2 = ctx;
    gen_method_body(&mut ctx, &method.body, block);
    proof {
        lemma_stmt_chain(&s0, &s2, &ctx);
        assert(ctx.code@.subrange(0, ctx.code@.len() as int) =~= ctx.code@);
        assert(s2.return_ty == s0.return_ty);
        if method.name@ == "<init>"@ {
            assert(ctx.code@.subrange(0, s2.code@.len() as int) == s2.code@);
            assert(ctx.code@[0] == s2.code@[0]);
            assert(ctx.code@[1] == s2.code@[1]);
        }
    }
    ctx.code
}

/// The plan of a method: its flags, name and descriptor, and code exactly when
/// it is neither abstract nor native and has a body.
pub open spec fn method_planned(m: MethodDecl, p: MethodPlan) -> bool {
    &&& p.access_flags == m.access_flags
    &&& p.name@ == m.name@
    &&& p.descriptor@ == method_descriptor(tys_view(m.signature.params@), m.signature.return_type@)
    &&& (p.code is Some <==> (m.access_flags & (opcodes::ACC_ABSTRACT | opcodes::ACC_NATIVE) == 0
        && m.root_block is Some))
}

/// The name a class file gives a class type.
pub open spec fn super_text(t: Option<Ty>) -> Option<Seq<char>> {
    match t {
        Some(t) => Some(internal_name(t@)),
        None => None,
    }
}

/// The class a default constructor calls: the superclass, or `java/lang/Object`.
pub open spec fn default_super(td: TypeDecl) -> Seq<char> {
    match td.super_class {
        Some(t) => internal_name(t@),
        None => "java/lang/Object"@,
    }
}

/// Whether a class gets a default constructor: a class that declares none.
pub open spec fn adds_default(td: TypeDecl) -> bool {
    td.kind == TypeDeclKind::Class && !has_constructor(td.methods@)
}

/// The plan of a type declaration's class file: its access flags (`ACC_SUPER`
/// added for classes), names, superclass, interfaces and fields; a default
/// constructor that calls the superclass's for a class that declares none; and
/// each method with its code unless it is abstract or native. Every method's
/// code has its jumps resolved.
pub open spec fn plan_for(td: TypeDecl, plan: ClassPlan) -> bool {
    let shift: int = if adds_default(td) { 1int } else { 0int };
    &&& plan.name@ == td.name@
    &&& plan.access_flags == class_access(td)
    &&& match plan.super_name {
        Some(s) => super_text(td.super_class) == Some(s@),
        None => td.super_class is None,
    }
    &&& plan.interfaces@.len() == td.interfaces@.len()
    &&& forall|i: int| 0 <= i < td.interfaces@.len() ==> (#[trigger] plan.interfaces@[i])@ == internal_name(td.interfaces@[i]@)
    &&& plan.fields@.len() == td.fields@.len()
    &&& forall|i: int| 0 <= i < td.fields@.len() ==> {
        &&& (#[trigger] plan.fields@[i]).name@ == td.fields@[i].name@
        &&& plan.fields@[i].access_flags == td.fields@[i].access_flags
        &&& plan.fields@[i].descriptor@ == crate::ty::descriptor(td.fields@[i].ty@)
    }
    &&& forall|i: int| 0 <= i < plan.methods@.len() ==> ((#[trigger] plan.methods@[i]).code matches Some(c) ==> resolved(
        c@,
    ))
    &&& plan.methods@.len() == td.methods@.len() + shift
    &&& adds_default(td) ==> default_constructor_plan(plan.methods@[0], default_super(td))
    &&& forall|q: int| 0 <= q < td.methods@.len() ==> method_planned(#[trigger] td.methods@[q], plan.methods@[q + shift])
}

/// A public `<init>()V` whose code loads `this`, calls the superclass's `<init>()V`
/// and returns.
pub open spec fn default_constructor_plan(m: MethodPlan, super_name: Seq<char>) -> bool {
    &&& m.access_flags == opcodes::ACC_PUBLIC
    &&& m.name@ == "<init>"@
    &&& m.descriptor@ == "()V"@
    &&& m.code matches Some(c) && c@.len() == 3 && c@[0] == Insn::Var(opcodes::ALOAD, 0) && (c@[1] matches Insn::Method(
        op,
        owner,
        name,
        desc,
        itf,
    ) && op == opcodes::INVOKESPECIAL && owner@ == super_name && name@ == "<init>"@ && desc@ == "()V"@ && !itf) && c@[2]
        == Insn::Op(opcodes::RETURN)
}

/// The plan of the first declared type's class file.
pub fn gen_class_plan(unit: &CompilationUnit) -> (r: Result<ClassPlan, String>)
    requires
        unit.type_decls@.len() > 0 ==> decl_ok(unit.type_decls@[0]),
    ensures
        r is Err <==> unit.type_decls@.len() == 0,
        r matches Err(m) ==> m@ == "no type declarations"@,
        r matches Ok(plan) ==> plan_for(unit.type_decls@[0], plan),
{
    if unit.type_decls.len() == 0 {
        return Err(String::from_str("no type declarations"));
    }
    let td = &unit.type_decls[0];
    let access = if td.kind == TypeDeclKind::Class {
        td.access_flags | opcodes::ACC_SUPER
    } else {
        td.access_flags
    };
    let super_name = match &td.super_class {
        Some(t) => Some(t.internal_name()),
        None => None,
    };
    let mut interfaces: Vec<String> = Vec::new();
    let mut i: usize = 0;
    while i < td.interfaces.len()
        invariant
            i <= td.interfaces@.len(),
            interfaces@.len() == i,
            forall|q: int| 0 <= q < i ==> (#[trigger] interfaces@[q])@ == internal_name(td.interfaces@[q]@),
        decreases td.interfaces@.len() - i,
    {
        interfaces.push(td.interfaces[i].internal_name());
        i = i + 1;
    }
    let mut fields: Vec<FieldPlan> = Vec::new();
    let mut f: usize = 0;
    while f < td.fields.len()
        invariant
            f <= td.fields@.len(),
            fields@.len() == f,
            forall|q: int| 0 <= q < f ==> {
                &&& (#[trigger] fields@[q]).name@ == td.fields@[q].name@
                &&& fields@[q].access_flags == td.fields@[q].access_flags
                &&& fields@[q].descriptor@ == crate::ty::descriptor(td.fields@[q].ty@)
            },
        decreases td.fields@.len() - f,
    {
        let fd = &td.fields[f];
        fields.push(FieldPlan { access_flags: fd.access_flags, name: fd.name.clone(), descriptor: fd.ty.descriptor() });
        f = f + 1;
    }
    let super_or_object = match &super_name {
        Some(s) => s.clone(),
        None => String::from_str("java/lang/Object"),
    };
    let mut methods: Vec<MethodPlan> = Vec::new();
    let mut has_init = false;
    let mut k: usize = 0;
    while k < td.methods.len()
        invariant
            k <= td.methods@.len(),
            has_init == exists|q: int| 0 <= q < k && (#[trigger] td.methods@[q]).name@ == "<init>"@,
        decreases td.methods@.len() - k,
    {
        if str_eq(td.methods[k].name.as_str(), "<init>") {
            has_init = true;
        }
        k = k + 1;
    }
    let added_default = td.kind == TypeDeclKind::Class && !has_init;
    if added_default {
        methods.push(gen_default_constructor(super_or_object.as_str()));
    }
    let mut m: usize = 0;
    while m < td.methods.len()
        invariant
            decl_ok(*td),
            m <= td.methods@.len(),
            methods@.len() == m + (if added_default { 1int } else { 0int }),
            forall|q: int| 0 <= q < methods@.len() ==> ((#[trigger] methods@[q]).code matches Some(c) ==> resolved(c@)),
            added_default ==> default_constructor_plan(methods@[0], default_super(*td)),
            super_or_object@ == default_super(*td),
            forall|q: int| 0 <= q < m ==> method_planned(
                #[trigger] td.methods@[q],
                methods@[q + (if added_default { 1int } else { 0int })],
            ),
        decreases td.methods@.len() - m,
    {
        let method = &td.methods[m];
        let desc = method.signature.descriptor();
        let has_no_code = method.access_flags & (opcodes::ACC_ABSTRACT | opcodes::ACC_NATIVE) != 0;
        let code = if !has_no_code {
            match &method.root_block {
                Some(block) => {
                    proof {
                        assert(decl_ok(*td));
                        assert(td.methods@[m as int].body.wf());
                    }
                    Some(gen_method_code(td, super_or_object.as_str(), method, block))
                },
                None => None,
            }
        } else {
            None
        };
        methods.push(MethodPlan { access_flags: method.access_flags, name: method.name.clone(), descriptor: desc, code });
        m = m + 1;
    }
    proof {
        assert(has_init == has_constructor(td.methods@));
    }
    Ok(ClassPlan { access_flags: access, name: td.name.clone(), super_name, interfaces, fields, methods })
}

} // verus!
