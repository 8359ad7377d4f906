//! Writing a class plan as class-file bytes with rust-asm.
use vstd::prelude::*;
use crate::codegen::{ClassPlan, FieldPlan, Insn, MethodPlan, decl_ok, gen_class_plan, plan_for};
use crate::hir::CompilationUnit;
use crate::numeric::label_index;

verus! {

#[verifier::external_type_specification]
#[verifier::external_body]
pub struct ExClassWriter(rust_asm::class_writer::ClassWriter);

#[verifier::external_type_specification]
#[verifier::external_body]
pub struct ExMethodVisitor(rust_asm::class_writer::MethodVisitor);

#[verifier::external_type_specification]
#[verifier::external_body]
pub struct ExLabel(rust_asm::insn::Label);

#[verifier::external_type_specification]
#[verifier::external_body]
pub struct ExClassWriteError(rust_asm::error::ClassWriteError);

/// The class-file major version of Java 21.
pub const JAVA_21_MAJOR: u16 = 65;

/// The class-file minor version written.
pub const JAVA_21_MINOR: u16 = 0;

/// A call made for a method: its header as the method was started, then each
/// call made on its visitor, with the arguments handed over.
pub enum MethodCall {
    Header(u16, Seq<char>, Seq<char>),
    Code,
    Insn(u8),
    Var(u8, u16),
    Iinc(u16, i16),
    Type(u8, Seq<char>),
    Field(u8, Seq<char>, Seq<char>, Seq<char>),
    Invoke(u8, Seq<char>, Seq<char>, Seq<char>, bool),
    Jump(u8, rust_asm::insn::Label),
    Place(rust_asm::insn::Label),
    LookupSwitch(rust_asm::insn::Label, Seq<(i32, rust_asm::insn::Label)>),
    LdcInt(i32),
    LdcLong(i64),
    LdcFloat(Seq<char>),
    LdcDouble(Seq<char>),
    LdcString(Seq<char>),
    Maxs(u16, u16),
}

/// A call made on a class writer, with the arguments handed over.
pub enum ClassCall {
    New(u32),
    Visit(u16, u16, u16, Seq<char>, Option<Seq<char>>, Seq<Seq<char>>),
    Field(u16, Seq<char>, Seq<char>),
    Method(Seq<MethodCall>),
}

/// The calls made on a class writer since it was made, in order.
pub uninterp spec fn class_log(cw: rust_asm::class_writer::ClassWriter) -> Seq<ClassCall>;

/// The calls made for a method visitor since it was started, in order.
pub uninterp spec fn method_log(mv: rust_asm::class_writer::MethodVisitor) -> Seq<MethodCall>;

/// The class file rust-asm's `ClassWriter::to_bytes` produces after these calls,
/// or `None` where it returns an error.
pub uninterp spec fn class_file_bytes(log: Seq<ClassCall>) -> Option<Seq<u8>>;

/// The texts of strings.
pub open spec fn texts(v: Seq<String>) -> Seq<Seq<char>> {
    v.map_values(|s: String| s@)
}

/// `ClassWriter::new`: a writer with the given options.
#[verifier::external_body]
fn writer_new(options: u32) -> (r: rust_asm::class_writer::ClassWriter)
    ensures
        class_log(r) == seq![ClassCall::New(options)],
{
    rust_asm::class_writer::ClassWriter::new(options)
}

/// `ClassWriter::visit`: the class header.
#[verifier::external_body]
fn writer_visit(
    cw: &mut rust_asm::class_writer::ClassWriter,
    major: u16,
    minor: u16,
    access_flags: u16,
    name: &str,
    super_name: Option<&str>,
    interfaces: &Vec<String>,
)
    ensures
        class_log(*final(cw)) == class_log(*old(cw)).push(
            ClassCall::Visit(
                major,
                minor,
                access_flags,
                name@,
                match super_name {
                    Some(s) => Some(s@),
                    None => None,
                },
                texts(interfaces@),
            ),
        ),
{
    let refs: Vec<&str> = interfaces.iter().map(|s| s.as_str()).collect();
    cw.visit(major, minor, access_flags, name, super_name, &refs);
}

/// `ClassWriter::visit_field` and `FieldVisitor::visit_end`: declares a field.
#[verifier::external_body]
fn writer_field(cw: &mut rust_asm::class_writer::ClassWriter, access_flags: u16, name: &str, descriptor: &str)
    ensures
        class_log(*final(cw)) == class_log(*old(cw)).push(ClassCall::Field(access_flags, name@, descriptor@)),
{
    let fv = cw.visit_field(access_flags, name, descriptor);
    fv.visit_end(cw);
}

/// `ClassWriter::visit_method`: starts a method; the writer is not changed until
/// the method's `visit_end`.
#[verifier::external_body]
fn writer_method(
    cw: &mut rust_asm::class_writer::ClassWriter,
    access_flags: u16,
    name: &str,
    descriptor: &str,
) -> (r: rust_asm::class_writer::MethodVisitor)
    ensures
        class_log(*final(cw)) == class_log(*old(cw)),
        method_log(r) == seq![MethodCall::Header(access_flags, name@, descriptor@)],
{
    cw.visit_method(access_flags, name, descriptor)
}

/// `MethodVisitor::visit_code`.
#[verifier::external_body]
fn method_code(mv: &mut rust_asm::class_writer::MethodVisitor)
    ensures
        method_log(*final(mv)) == method_log(*old(mv)).push(MethodCall::Code),
{
    mv.visit_code();
}

/// `MethodVisitor::visit_insn`.
#[verifier::external_body]
fn method_insn(mv: &mut rust_asm::class_writer::MethodVisitor, opcode: u8)
    ensures
        method_log(*final(mv)) == method_log(*old(mv)).push(MethodCall::Insn(opcode)),
{
    mv.visit_insn(opcode);
}

/// `MethodVisitor::visit_var_insn`.
#[verifier::external_body]
fn method_var(mv: &mut rust_asm::class_writer::MethodVisitor, opcode: u8, slot: u16)
    ensures
        method_log(*final(mv)) == method_log(*old(mv)).push(MethodCall::Var(opcode, slot)),
{
    mv.visit_var_insn(opcode, slot);
}

/// `MethodVisitor::visit_iinc_insn`.
#[verifier::external_body]
fn method_iinc(mv: &mut rust_asm::class_writer::MethodVisitor, slot: u16, amount: i16)
    ensures
        method_log(*final(mv)) == method_log(*old(mv)).push(MethodCall::Iinc(slot, amount)),
{
    mv.visit_iinc_insn(slot, amount);
}

/// `MethodVisitor::visit_type_insn`.
#[verifier::external_body]
fn method_type(mv: &mut rust_asm::class_writer::MethodVisitor, opcode: u8, name: &str)
    ensures
        method_log(*final(mv)) == method_log(*old(mv)).push(MethodCall::Type(opcode, name@)),
{
    mv.visit_type_insn(opcode, name);
}

/// `MethodVisitor::visit_field_insn`.
#[verifier::external_body]
fn method_field(mv: &mut rust_asm::class_writer::MethodVisitor, opcode: u8, owner: &str, name: &str, descriptor: &str)
    ensures
        method_log(*final(mv)) == method_log(*old(mv)).push(MethodCall::Field(opcode, owner@, name@, descriptor@)),
{
    mv.visit_field_insn(opcode, owner, name, descriptor);
}

/// `MethodVisitor::visit_method_insn`.
#[verifier::external_body]
fn method_call(
    mv: &mut rust_asm::class_writer::MethodVisitor,
    opcode: u8,
    owner: &str,
    name: &str,
    descriptor: &str,
    is_interface: bool,
)
    ensures
        method_log(*final(mv)) == method_log(*old(mv)).push(
            MethodCall::Invoke(opcode, owner@, name@, descriptor@, is_interface),
        ),
{
    mv.visit_method_insn(opcode, owner, name, descriptor, is_interface);
}

/// `MethodVisitor::visit_jump_insn`.
#[verifier::external_body]
fn method_jump(mv: &mut rust_asm::class_writer::MethodVisitor, opcode: u8, target: &rust_asm::insn::Label)
    ensures
        method_log(*final(mv)) == method_log(*old(mv)).push(MethodCall::Jump(opcode, *target)),
{
    mv.visit_jump_insn(opcode, *target);
}

/// `MethodVisitor::visit_label`.
#[verifier::external_body]
fn method_label(mv: &mut rust_asm::class_writer::MethodVisitor, label: &rust_asm::insn::Label)
    ensures
        method_log(*final(mv)) == method_log(*old(mv)).push(MethodCall::Place(*label)),
{
    mv.visit_label(*label);
}

/// `MethodVisitor::visit_lookup_switch`, with the keys and their targets side by side.
#[verifier::external_body]
fn method_lookup_switch(
    mv: &mut rust_asm::class_writer::MethodVisitor,
    default: &rust_asm::insn::Label,
    keys: &Vec<i32>,
    targets: &Vec<rust_asm::insn::Label>,
)
    requires
        keys@.len() == targets@.len(),
    ensures
        method_log(*final(mv)) == method_log(*old(mv)).push(
            MethodCall::LookupSwitch(*default, keys@.zip_with(targets@)),
        ),
{
    let pairs: Vec<(i32, rust_asm::insn::Label)> = keys.iter().copied().zip(targets.iter().copied()).collect();
    mv.visit_lookup_switch(*default, &pairs);
}

/// `MethodVisitor::visit_ldc_insn` of an `int`.
#[verifier::external_body]
fn method_ldc_int(mv: &mut rust_asm::class_writer::MethodVisitor, v: i32)
    ensures
        method_log(*final(mv)) == method_log(*old(mv)).push(MethodCall::LdcInt(v)),
{
    mv.visit_ldc_insn(rust_asm::insn::LdcInsnNode::int(v));
}

/// `MethodVisitor::visit_ldc_insn` of a `long`.
#[verifier::external_body]
fn method_ldc_long(mv: &mut rust_asm::class_writer::MethodVisitor, v: i64)
    ensures
        method_log(*final(mv)) == method_log(*old(mv)).push(MethodCall::LdcLong(v)),
{
    mv.visit_ldc_insn(rust_asm::insn::LdcInsnNode::long(v));
}

/// Whether std's `str::parse` for `float` accepts the text.
pub uninterp spec fn parses_as_f32(text: Seq<char>) -> bool;

/// Whether std's `str::parse` for `double` accepts the text.
pub uninterp spec fn parses_as_f64(text: Seq<char>) -> bool;

/// `MethodVisitor::visit_ldc_insn` of the `float` that std's `str::parse` for `float`
/// reads from the text; when the parse fails, nothing is sent and the result is
/// `false`.
#[verifier::external_body]
fn method_ldc_float(mv: &mut rust_asm::class_writer::MethodVisitor, text: &str) -> (r: bool)
    ensures
        r == parses_as_f32(text@),
        r ==> method_log(*final(mv)) == method_log(*old(mv)).push(MethodCall::LdcFloat(text@)),
        !r ==> method_log(*final(mv)) == method_log(*old(mv)),
{
    match text.parse() {
        Ok(v) => {
            mv.visit_ldc_insn(rust_asm::insn::LdcInsnNode::float(v));
            true
        },
        Err(_) => false,
    }
}

/// `MethodVisitor::visit_ldc_insn` of the `double` that std's `str::parse` for `double`
/// reads from the text; when the parse fails, nothing is sent and the result is
/// `false`.
#[verifier::external_body]
fn method_ldc_double(mv: &mut rust_asm::class_writer::MethodVisitor, text: &str) -> (r: bool)
    ensures
        r == parses_as_f64(text@),
        r ==> method_log(*final(mv)) == method_log(*old(mv)).push(MethodCall::LdcDouble(text@)),
        !r ==> method_log(*final(mv)) == method_log(*old(mv)),
{
    match text.parse() {
        Ok(v) => {
            mv.visit_ldc_insn(rust_asm::insn::LdcInsnNode::double(v));
            true
        },
        Err(_) => false,
    }
}

/// `MethodVisitor::visit_ldc_insn` of a string.
#[verifier::external_body]
fn method_ldc_string(mv: &mut rust_asm::class_writer::MethodVisitor, s: &str)
    ensures
        method_log(*final(mv)) == method_log(*old(mv)).push(MethodCall::LdcString(s@)),
{
    mv.visit_ldc_insn(rust_asm::insn::LdcInsnNode::string(s));
}

/// `MethodVisitor::visit_maxs`.
#[verifier::external_body]
fn method_maxs(mv: &mut rust_asm::class_writer::MethodVisitor, max_stack: u16, max_locals: u16)
    ensures
        method_log(*final(mv)) == method_log(*old(mv)).push(MethodCall::Maxs(max_stack, max_locals)),
{
    mv.visit_maxs(max_stack, max_locals);
}

/// `MethodVisitor::visit_end`: attaches the method to the class.
#[verifier::external_body]
fn method_end(mv: rust_asm::class_writer::MethodVisitor, cw: &mut rust_asm::class_writer::ClassWriter)
    ensures
        class_log(*final(cw)) == class_log(*old(cw)).push(ClassCall::Method(method_log(mv))),
{
    mv.visit_end(cw);
}

/// `Label::new`: a label with an identity of its own.
#[verifier::external_body]
fn label_new() -> rust_asm::insn::Label {
    rust_asm::insn::Label::new()
}

/// `ClassWriter::to_bytes`: the class file, or the writer's error.
#[verifier::external_body]
fn writer_to_bytes(cw: rust_asm::class_writer::ClassWriter) -> (r: Result<Vec<u8>, rust_asm::error::ClassWriteError>)
    ensures
        match r {
            Ok(b) => class_file_bytes(class_log(cw)) == Some(b@),
            Err(_) => class_file_bytes(class_log(cw)) is None,
        },
{
    cw.to_bytes()
}

/// The writer's error, as its debug text.
#[verifier::external_body]
fn write_error_text(e: &rust_asm::error::ClassWriteError) -> String {
    format!("{:?}", e)
}

/// The largest of `d` and the labels of the first `j` pairs.
pub open spec fn pairs_max(pairs: Seq<(i32, u32)>, d: u32, j: int) -> u32
    decreases j,
{
    if j <= 0 {
        d
    } else {
        let m = pairs_max(pairs, d, j - 1);
        if pairs[j - 1].1 > m {
            pairs[j - 1].1
        } else {
            m
        }
    }
}

/// The largest label number an instruction names; `None` where it names none.
pub open spec fn insn_max_label(i: Insn) -> Option<u32> {
    match i {
        Insn::Jump(_, l) => Some(l),
        Insn::Label(l) => Some(l),
        Insn::LookupSwitch(d, pairs) => Some(pairs_max(pairs@, d, pairs@.len() as int)),
        _ => None,
    }
}

/// How many labels the first `n` instructions need: one more than the largest
/// label number they name, 0 where they name none.
pub open spec fn labels_needed(code: Seq<Insn>, n: int) -> int
    decreases n,
{
    if n <= 0 {
        0
    } else {
        let before = labels_needed(code, n - 1);
        match insn_max_label(code[n - 1]) {
            Some(m) => if m >= before && m < usize::MAX {
                m + 1
            } else {
                before
            },
            None => before,
        }
    }
}

/// The largest label number the instruction names, if it names one.
fn max_label(i: &Insn) -> (r: Option<u32>)
    ensures
        r == insn_max_label(*i),
        r matches Some(m) ==> match i {
            Insn::Jump(_, l) => *l <= m,
            Insn::Label(l) => *l <= m,
            Insn::LookupSwitch(d, pairs) => *d <= m && forall|k: int| 0 <= k < pairs@.len() ==> (#[trigger] pairs@[k]).1 <= m,
            _ => true,
        },
{
    match i {
        Insn::Jump(_, l) => Some(*l),
        Insn::Label(l) => Some(*l),
        Insn::LookupSwitch(d, pairs) => {
            let mut best = *d;
            let mut j: usize = 0;
            while j < pairs.len()
                invariant
                    j <= pairs@.len(),
                    *d <= best,
                    forall|k: int| 0 <= k < j ==> (#[trigger] pairs@[k]).1 <= best,
                    best == pairs_max(pairs@, *d, j as int),
                decreases pairs@.len() - j,
            {
                if pairs[j].1 > best {
                    best = pairs[j].1;
                }
                j = j + 1;
            }
            Some(best)
        },
        _ => None,
    }
}

/// How many labels the code needs: one more than the largest label it names.
fn label_count(code: &Vec<Insn>) -> (r: usize)
    ensures
        r == labels_needed(code@, code@.len() as int),
{
    let mut n: usize = 0;
    let mut i: usize = 0;
    while i < code.len()
        invariant
            i <= code@.len(),
            n == labels_needed(code@, i as int),
        decreases code@.len() - i,
    {
        match max_label(&code[i]) {
            Some(m) => {
                let k = label_index(m);
                if k >= n && k < usize::MAX {
                    n = k + 1;
                }
            },
            None => {},
        }
        i = i + 1;
    }
    n
}

/// The writer's label for label number `l`: its entry in the table, or the one
/// spare label for a number past the table.
pub open spec fn label_for(ls: Seq<rust_asm::insn::Label>, extra: rust_asm::insn::Label, l: u32) -> rust_asm::insn::Label {
    if l < ls.len() {
        ls[l as int]
    } else {
        extra
    }
}

fn label_of(labels: &Vec<rust_asm::insn::Label>, extra: &rust_asm::insn::Label, l: u32) -> (r: rust_asm::insn::Label)
    ensures
        r == label_for(labels@, *extra, l),
{
    let k = label_index(l);
    if k < labels.len() {
        label_copy(&labels[k])
    } else {
        label_copy(extra)
    }
}

/// A copy of a label (`Label` is `Copy`): the same label.
#[verifier::external_body]
fn label_copy(l: &rust_asm::insn::Label) -> (r: rust_asm::insn::Label)
    ensures
        r == *l,
{
    *l
}

/// The call that writes one instruction, with label numbers turned into the
/// writer's labels.
pub open spec fn insn_call(i: Insn, ls: Seq<rust_asm::insn::Label>, extra: rust_asm::insn::Label) -> MethodCall {
    match i {
        Insn::Op(op) => MethodCall::Insn(op),
        Insn::Var(op, slot) => MethodCall::Var(op, slot),
        Insn::Iinc(slot, amount) => MethodCall::Iinc(slot, amount),
        Insn::Type(op, name) => MethodCall::Type(op, name@),
        Insn::Field(op, owner, name, desc) => MethodCall::Field(op, owner@, name@, desc@),
        Insn::Method(op, owner, name, desc, itf) => MethodCall::Invoke(op, owner@, name@, desc@, itf),
        Insn::Jump(op, l) => MethodCall::Jump(op, label_for(ls, extra, l)),
        Insn::Label(l) => MethodCall::Place(label_for(ls, extra, l)),
        Insn::LdcInt(v) => MethodCall::LdcInt(v),
        Insn::LdcLong(v) => MethodCall::LdcLong(v),
        Insn::LdcFloat(t) => MethodCall::LdcFloat(t@),
        Insn::LdcDouble(t) => MethodCall::LdcDouble(t@),
        Insn::LdcString(t) => MethodCall::LdcString(t@),
        Insn::LookupSwitch(d, pairs) => MethodCall::LookupSwitch(
            label_for(ls, extra, d),
            pairs@.map_values(|p: (i32, u32)| (p.0, label_for(ls, extra, p.1))),
        ),
    }
}

/// The calls that write the instructions, in order.
pub open spec fn code_calls(code: Seq<Insn>, ls: Seq<rust_asm::insn::Label>, extra: rust_asm::insn::Label) -> Seq<MethodCall> {
    code.map_values(|i: Insn| insn_call(i, ls, extra))
}

/// A `float` or `double` constant whose text std's parse accepts; other
/// instructions always.
pub open spec fn literal_ok(i: Insn) -> bool {
    match i {
        Insn::LdcFloat(t) => parses_as_f32(t@),
        Insn::LdcDouble(t) => parses_as_f64(t@),
        _ => true,
    }
}

pub open spec fn literals_ok(code: Seq<Insn>) -> bool {
    forall|i: int| 0 <= i < code.len() ==> literal_ok(#[trigger] code[i])
}

/// The calls that write one method: its header, then, where it has code, the
/// start of the code, the instructions, and sizes left to the writer (0, 0).
pub open spec fn method_calls(m: MethodPlan, ls: Seq<rust_asm::insn::Label>, extra: rust_asm::insn::Label) -> Seq<MethodCall> {
    seq![MethodCall::Header(m.access_flags, m.name@, m.descriptor@)] + match m.code {
        Some(c) => seq![MethodCall::Code] + code_calls(c@, ls, extra) + seq![MethodCall::Maxs(0, 0)],
        None => Seq::empty(),
    }
}

pub open spec fn method_literals_ok(m: MethodPlan) -> bool {
    match m.code {
        Some(c) => literals_ok(c@),
        None => true,
    }
}

pub open spec fn plan_literals_ok(plan: ClassPlan) -> bool {
    forall|j: int| 0 <= j < plan.methods@.len() ==> method_literals_ok(#[trigger] plan.methods@[j])
}

/// rust-asm's `COMPUTE_FRAMES`: the writer computes stack map frames and the
/// maximum sizes itself.
pub const WRITER_OPTIONS: u32 = 1;

/// The calls that write a class plan: a writer made with `WRITER_OPTIONS`, the
/// header, the fields, then each method with its own label table.
pub open spec fn plan_calls(plan: ClassPlan, tables: Seq<(Seq<rust_asm::insn::Label>, rust_asm::insn::Label)>) -> Seq<ClassCall> {
    seq![
        ClassCall::New(WRITER_OPTIONS),
        ClassCall::Visit(
            JAVA_21_MAJOR,
            JAVA_21_MINOR,
            plan.access_flags,
            plan.name@,
            match plan.super_name {
                Some(s) => Some(s@),
                None => None,
            },
            texts(plan.interfaces@),
        ),
    ] + plan.fields@.map_values(|f: FieldPlan| ClassCall::Field(f.access_flags, f.name@, f.descriptor@))
        + Seq::new(
        plan.methods@.len(),
        |j: int| ClassCall::Method(method_calls(plan.methods@[j], tables[j].0, tables[j].1)),
    )
}

/// What writing a plan gives: the class file of the calls that write it, for
/// some label tables, or the writer's error where there is none; an error for a
/// `float` or `double` constant whose text does not parse.
pub open spec fn written(plan: ClassPlan, r: Result<Vec<u8>, String>) -> bool {
    &&& !plan_literals_ok(plan) ==> (r matches Err(m) && m@ == "invalid floating-point literal"@)
    &&& plan_literals_ok(plan) ==> exists|t: Seq<(Seq<rust_asm::insn::Label>, rust_asm::insn::Label)>|
        t.len() == plan.methods@.len() && match r {
            Ok(b) => class_file_bytes(plan_calls(plan, t)) == Some(b@),
            Err(_) => class_file_bytes(plan_calls(plan, t)) is None,
        }
}

/// Hands the instructions of one method to the method visitor, in order; stops
/// with `false` at a `float` or `double` constant whose text does not parse.
fn write_code(mv: &mut rust_asm::class_writer::MethodVisitor, code: &Vec<Insn>) -> (ok: bool)
    ensures
        ok == literals_ok(code@),
        ok ==> exists|ls: Seq<rust_asm::insn::Label>, extra: rust_asm::insn::Label|
            method_log(*final(mv)) == method_log(*old(mv)) + code_calls(code@, ls, extra),
{
    let n = label_count(code);
    let mut labels: Vec<rust_asm::insn::Label> = Vec::new();
    let mut k: usize = 0;
    while k < n
        invariant
            k <= n,
        decreases n - k,
    {
        labels.push(label_new());
        k = k + 1;
    }
    let extra = label_new();
    let ghost start = method_log(*mv);
    let mut i: usize = 0;
    proof {
        assert(code_calls(code@.take(0), labels@, extra) =~= Seq::<MethodCall>::empty());
        assert(start + Seq::<MethodCall>::empty() =~= start);
    }
    while i < code.len()
        invariant
            i <= code@.len(),
            start == method_log(*old(mv)),
            method_log(*mv) == start + code_calls(code@.take(i as int), labels@, extra),
            literals_ok(code@.take(i as int)),
        decreases code@.len() - i,
    {
        let ghost before = method_log(*mv);
        let ghost call = insn_call(code@[i as int], labels@, extra);
        proof {
            assert(code@.take(i + 1) =~= code@.take(i as int).push(code@[i as int]));
            assert(code_calls(code@.take(i + 1), labels@, extra) =~= code_calls(code@.take(i as int), labels@, extra).push(
                call,
            ));
        }
        match &code[i] {
            Insn::Op(op) => method_insn(mv, *op),
            Insn::Var(op, slot) => method_var(mv, *op, *slot),
            Insn::Iinc(slot, amount) => method_iinc(mv, *slot, *amount),
            Insn::Type(op, name) => method_type(mv, *op, name.as_str()),
            Insn::Field(op, owner, name, desc) => method_field(mv, *op, owner.as_str(), name.as_str(), desc.as_str()),
            Insn::Method(op, owner, name, desc, itf) => method_call(
                mv,
                *op,
                owner.as_str(),
                name.as_str(),
                desc.as_str(),
                *itf,
            ),
            Insn::Jump(op, l) => {
                let target = label_of(&labels, &extra, *l);
                method_jump(mv, *op, &target);
            },
            Insn::Label(l) => {
                let label = label_of(&labels, &extra, *l);
                method_label(mv, &label);
            },
            Insn::LdcInt(v) => method_ldc_int(mv, *v),
            Insn::LdcLong(v) => method_ldc_long(mv, *v),
            Insn::LdcFloat(t) => {
                if !method_ldc_float(mv, t.as_str()) {
                    proof {
                        assert(!literal_ok(code@[i as int]));
                    }
                    return false;
                }
            },
            Insn::LdcDouble(t) => {
                if !method_ldc_double(mv, t.as_str()) {
                    proof {
                        assert(!literal_ok(code@[i as int]));
                    }
                    return false;
                }
            },
            Insn::LdcString(s) => method_ldc_string(mv, s.as_str()),
            Insn::LookupSwitch(d, pairs) => {
                let default = label_of(&labels, &extra, *d);
                let mut keys: Vec<i32> = Vec::new();
                let mut targets: Vec<rust_asm::insn::Label> = Vec::new();
                let mut j: usize = 0;
                while j < pairs.len()
                    invariant
                        j <= pairs@.len(),
                        keys@.len() == j,
                        targets@.len() == j,
                        forall|q: int| 0 <= q < j ==> #[trigger] keys@[q] == pairs@[q].0 && targets@[q] == label_for(
                            labels@,
                            extra,
                            pairs@[q].1,
                        ),
                    decreases pairs@.len() - j,
                {
                    keys.push(pairs[j].0);
                    targets.push(label_of(&labels, &extra, pairs[j].1));
                    j = j + 1;
                }
                proof {
                    assert(keys@.zip_with(targets@) =~= pairs@.map_values(
                        |p: (i32, u32)| (p.0, label_for(labels@, extra, p.1)),
                    ));
                }
                method_lookup_switch(mv, &default, &keys, &targets);
            },
        }
        proof {
            assert(method_log(*mv) == before.push(call));
            assert(start + code_calls(code@.take(i + 1), labels@, extra) =~= before.push(call));
            assert forall|q: int| 0 <= q < i + 1 implies literal_ok(#[trigger] code@.take(i + 1)[q]) by {
                if q < i {
                    assert(code@.take(i + 1)[q] == code@.take(i as int)[q]);
                }
            }
        }
        i = i + 1;
    }
    proof {
        assert(code@.take(code@.len() as int) =~= code@);
    }
    true
}

/// Writes one method: its header, and its code when it has one; `false` where a
/// constant of its code does not parse.
fn write_method(cw: &mut rust_asm::class_writer::ClassWriter, m: &MethodPlan) -> (ok: bool)
    ensures
        ok == method_literals_ok(*m),
        ok ==> exists|ls: Seq<rust_asm::insn::Label>, extra: rust_asm::insn::Label|
            class_log(*final(cw)) == class_log(*old(cw)).push(ClassCall::Method(method_calls(*m, ls, extra))),
{
    let mut mv = writer_method(cw, m.access_flags, m.name.as_str(), m.descriptor.as_str());
    match &m.code {
        Some(code) => {
            method_code(&mut mv);
            let ghost mid = method_log(mv);
            if !write_code(&mut mv, code) {
                return false;
            }
            let ghost (ls, extra) = choose|ls: Seq<rust_asm::insn::Label>, extra: rust_asm::insn::Label|
                method_log(mv) == mid + code_calls(code@, ls, extra);
            method_maxs(&mut mv, 0, 0);
            proof {
                assert(method_log(mv) =~= method_calls(*m, ls, extra));
            }
            method_end(mv, cw);
        },
        None => {
            proof {
                let ls = Seq::<rust_asm::insn::Label>::empty();
                let extra = vstd::pervasive::arbitrary::<rust_asm::insn::Label>();
                assert(method_log(mv) =~= method_calls(*m, ls, extra));
            }
            method_end(mv, cw);
        },
    }
    true
}

/// The class file of the first declared type: its plan, written.
pub fn gen_class(unit: &CompilationUnit) -> (r: Result<Vec<u8>, String>)
    requires
        unit.type_decls@.len() > 0 ==> decl_ok(unit.type_decls@[0]),
    ensures
        unit.type_decls@.len() == 0 ==> (r matches Err(m) && m@ == "no type declarations"@),
        unit.type_decls@.len() > 0 ==> exists|plan: ClassPlan| plan_for(unit.type_decls@[0], plan) && written(plan, r),
{
    let plan = gen_class_plan(unit)?;
    let r = write_class(&plan);
    proof {
        assert(plan_for(unit.type_decls@[0], plan) && written(plan, r));
    }
    r
}

/// The class file of a plan: header, fields, methods, then the bytes rust-asm
/// produces, or its error as text.
pub fn write_class(plan: &ClassPlan) -> (r: Result<Vec<u8>, String>)
    ensures
        written(*plan, r),
{
    let mut cw = writer_new(WRITER_OPTIONS);
    let super_name: Option<&str> = match &plan.super_name {
        Some(s) => Some(s.as_str()),
        None => None,
    };
    writer_visit(&mut cw, JAVA_21_MAJOR, JAVA_21_MINOR, plan.access_flags, plan.name.as_str(), super_name, &plan.interfaces);
    let ghost head = class_log(cw);
    let ghost fcalls = plan.fields@.map_values(|f: FieldPlan| ClassCall::Field(f.access_flags, f.name@, f.descriptor@));
    let mut i: usize = 0;
    proof {
        assert(head + fcalls.take(0) =~= head);
    }
    while i < plan.fields.len()
        invariant
            i <= plan.fields@.len(),
            fcalls == plan.fields@.map_values(|f: FieldPlan| ClassCall::Field(f.access_flags, f.name@, f.descriptor@)),
            class_log(cw) == head + fcalls.take(i as int),
        decreases plan.fields@.len() - i,
    {
        let f = &plan.fields[i];
        writer_field(&mut cw, f.access_flags, f.name.as_str(), f.descriptor.as_str());
        proof {
            assert(head + fcalls.take(i + 1) =~= (head + fcalls.take(i as int)).push(fcalls[i as int]));
        }
        i = i + 1;
    }
    let ghost mid = class_log(cw);
    let ghost mut t: Seq<(Seq<rust_asm::insn::Label>, rust_asm::insn::Label)> = Seq::empty();
    let mut j: usize = 0;
    proof {
        assert(fcalls.take(plan.fields@.len() as int) =~= fcalls);
    }
    while j < plan.methods.len()
        invariant
            j <= plan.methods@.len(),
            t.len() == j,
            mid == head + fcalls,
            forall|q: int| 0 <= q < j ==> method_literals_ok(#[trigger] plan.methods@[q]),
            class_log(cw) == mid + Seq::new(
                j as nat,
                |q: int| ClassCall::Method(method_calls(plan.methods@[q], t[q].0, t[q].1)),
            ),
        decreases plan.methods@.len() - j,
    {
        let ghost before = class_log(cw);
        if !write_method(&mut cw, &plan.methods[j]) {
            proof {
                assert(!method_literals_ok(plan.methods@[j as int]));
            }
            return Err(String::from_str("invalid floating-point literal"));
        }
        let ghost (ls, extra) = choose|ls: Seq<rust_asm::insn::Label>, extra: rust_asm::insn::Label|
            class_log(cw) == before.push(ClassCall::Method(method_calls(plan.methods@[j as int], ls, extra)));
        let ghost w = (ls, extra);
        proof {
            t = t.push(w);
            assert(mid + Seq::new(
                (j + 1) as nat,
                |q: int| ClassCall::Method(method_calls(plan.methods@[q], t[q].0, t[q].1)),
            ) =~= before.push(ClassCall::Method(method_calls(plan.methods@[j as int], w.0, w.1))));
        }
        j = j + 1;
    }
    proof {
        assert(class_log(cw) =~= plan_calls(*plan, t));
    }
    match writer_to_bytes(cw) {
        Ok(bytes) => Ok(bytes),
        Err(e) => Err(write_error_text(&e)),
    }
}

} // verus!
