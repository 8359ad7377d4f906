//! Opcode selection: which JVM instruction implements an operation on a type.
use vstd::prelude::*;
use vstd::string::*;
use crate::hir::{AssignOp, BinaryOp, assign_spelling, op_spelling};
use crate::opcodes::{
    ACONST_NULL, ICONST_0, LCONST_0, FCONST_0, DCONST_0, ILOAD, LLOAD, FLOAD, DLOAD, ALOAD, ISTORE, LSTORE, FSTORE, DSTORE, ASTORE, IADD, LADD, FADD, DADD, ISUB, LSUB, FSUB, DSUB, IMUL, LMUL, FMUL, DMUL, IDIV, LDIV, FDIV, DDIV, IREM, LREM, FREM, DREM, INEG, LNEG, FNEG, DNEG, ISHL, LSHL, ISHR, LSHR, IUSHR, LUSHR, IAND, LAND, IOR, LOR, IXOR, LXOR, I2L, I2F, I2D, L2I, L2F, L2D, F2I, F2L, F2D, D2I, D2L, D2F, I2B, I2C, I2S, IFEQ, IFNE, IFLT, IFGE, IFGT, IFLE, IF_ICMPEQ, IF_ICMPNE, IF_ICMPLT, IF_ICMPGE, IF_ICMPGT, IF_ICMPLE, IF_ACMPEQ, IF_ACMPNE, IRETURN, LRETURN, FRETURN, DRETURN, ARETURN, RETURN,
};
use crate::text::str_eq;
use crate::ty::{Ty, TyModel, descriptor, erasure, string_name};

verus! {

/// Whether a conditional jump is taken when the condition holds or when it fails.
#[derive(Debug, Clone, Copy, PartialEq, Eq)]
pub enum BranchSense {
    True,
    False,
}

/// Category of a value on the operand stack, as it decides typed opcodes.
pub open spec fn is_int_like(t: TyModel) -> bool {
    t is Int || t is Boolean || t is Byte || t is Char || t is Short
}

pub open spec fn load_op(t: TyModel) -> u8 {
    if is_int_like(t) {
        ILOAD
    } else if t is Long {
        LLOAD
    } else if t is Float {
        FLOAD
    } else if t is Double {
        DLOAD
    } else {
        ALOAD
    }
}

pub open spec fn store_op(t: TyModel) -> u8 {
    if is_int_like(t) {
        ISTORE
    } else if t is Long {
        LSTORE
    } else if t is Float {
        FSTORE
    } else if t is Double {
        DSTORE
    } else {
        ASTORE
    }
}

pub open spec fn return_op(t: TyModel) -> u8 {
    if t is Void {
        RETURN
    } else if is_int_like(t) {
        IRETURN
    } else if t is Long {
        LRETURN
    } else if t is Float {
        FRETURN
    } else if t is Double {
        DRETURN
    } else {
        ARETURN
    }
}

/// `base` is the int opcode; long, float and double follow it in order.
pub open spec fn typed_op(base: u8, t: TyModel) -> u8 {
    if t is Long {
        (base + 1) as u8
    } else if t is Float {
        (base + 2) as u8
    } else if t is Double {
        (base + 3) as u8
    } else {
        base
    }
}

/// `base` is the int opcode; the long one follows it.
pub open spec fn int_long_op(base: u8, t: TyModel) -> u8 {
    if t is Long {
        (base + 1) as u8
    } else {
        base
    }
}

pub fn load_opcode(ty: &Ty) -> (r: u8)
    ensures
        r == load_op(ty@),
{
    match ty {
        Ty::Int | Ty::Boolean | Ty::Byte | Ty::Char | Ty::Short => ILOAD,
        Ty::Long => LLOAD,
        Ty::Float => FLOAD,
        Ty::Double => DLOAD,
        _ => ALOAD,
    }
}

pub fn store_opcode(ty: &Ty) -> (r: u8)
    ensures
        r == store_op(ty@),
{
    match ty {
        Ty::Int | Ty::Boolean | Ty::Byte | Ty::Char | Ty::Short => ISTORE,
        Ty::Long => LSTORE,
        Ty::Float => FSTORE,
        Ty::Double => DSTORE,
        _ => ASTORE,
    }
}

pub fn return_opcode(ty: &Ty) -> (r: u8)
    ensures
        r == return_op(ty@),
{
    match ty {
        Ty::Void => RETURN,
        Ty::Int | Ty::Boolean | Ty::Byte | Ty::Char | Ty::Short => IRETURN,
        Ty::Long => LRETURN,
        Ty::Float => FRETURN,
        Ty::Double => DRETURN,
        _ => ARETURN,
    }
}

pub fn add_opcode(ty: &Ty) -> (r: u8)
    ensures
        r == typed_op(IADD, ty@),
{
    match ty {
        Ty::Long => LADD,
        Ty::Float => FADD,
        Ty::Double => DADD,
        _ => IADD,
    }
}

pub fn sub_opcode(ty: &Ty) -> (r: u8)
    ensures
        r == typed_op(ISUB, ty@),
{
    match ty {
        Ty::Long => LSUB,
        Ty::Float => FSUB,
        Ty::Double => DSUB,
        _ => ISUB,
    }
}

pub fn mul_opcode(ty: &Ty) -> (r: u8)
    ensures
        r == typed_op(IMUL, ty@),
{
    match ty {
        Ty::Long => LMUL,
        Ty::Float => FMUL,
        Ty::Double => DMUL,
        _ => IMUL,
    }
}

pub fn div_opcode(ty: &Ty) -> (r: u8)
    ensures
        r == typed_op(IDIV, ty@),
{
    match ty {
        Ty::Long => LDIV,
        Ty::Float => FDIV,
        Ty::Double => DDIV,
        _ => IDIV,
    }
}

pub fn rem_opcode(ty: &Ty) -> (r: u8)
    ensures
        r == typed_op(IREM, ty@),
{
    match ty {
        Ty::Long => LREM,
        Ty::Float => FREM,
        Ty::Double => DREM,
        _ => IREM,
    }
}

pub fn neg_opcode(ty: &Ty) -> (r: u8)
    ensures
        r == typed_op(INEG, ty@),
{
    match ty {
        Ty::Long => LNEG,
        Ty::Float => FNEG,
        Ty::Double => DNEG,
        _ => INEG,
    }
}

/// The opcode of a binary arithmetic or bitwise operator on operands of type `t`;
/// none for logical and comparison operators.
pub open spec fn binary_op(op: BinaryOp, t: TyModel) -> Option<u8> {
    match op {
        BinaryOp::Add => Some(typed_op(IADD, t)),
        BinaryOp::Sub => Some(typed_op(ISUB, t)),
        BinaryOp::Mul => Some(typed_op(IMUL, t)),
        BinaryOp::Div => Some(typed_op(IDIV, t)),
        BinaryOp::Rem => Some(typed_op(IREM, t)),
        BinaryOp::And => Some(int_long_op(IAND, t)),
        BinaryOp::Or => Some(int_long_op(IOR, t)),
        BinaryOp::Xor => Some(int_long_op(IXOR, t)),
        BinaryOp::Shl => Some(int_long_op(ISHL, t)),
        BinaryOp::Shr => Some(int_long_op(ISHR, t)),
        BinaryOp::Ushr => Some(int_long_op(IUSHR, t)),
        _ => None,
    }
}

/// The binary operator a compound assignment applies.
pub open spec fn assign_binary(op: AssignOp) -> Option<BinaryOp> {
    match op {
        AssignOp::Plain => None,
        AssignOp::Add => Some(BinaryOp::Add),
        AssignOp::Sub => Some(BinaryOp::Sub),
        AssignOp::Mul => Some(BinaryOp::Mul),
        AssignOp::Div => Some(BinaryOp::Div),
        AssignOp::Rem => Some(BinaryOp::Rem),
        AssignOp::Shl => Some(BinaryOp::Shl),
        AssignOp::Shr => Some(BinaryOp::Shr),
        AssignOp::Ushr => Some(BinaryOp::Ushr),
        AssignOp::And => Some(BinaryOp::And),
        AssignOp::Or => Some(BinaryOp::Or),
        AssignOp::Xor => Some(BinaryOp::Xor),
    }
}

/// Opcode of an arithmetic or bitwise binary operator.
pub fn arithmetic_opcode(op: BinaryOp, ty: &Ty) -> (r: Option<u8>)
    ensures
        r == binary_op(op, ty@),
{
    let long = matches!(ty, Ty::Long);
    match op {
        BinaryOp::Add => Some(add_opcode(ty)),
        BinaryOp::Sub => Some(sub_opcode(ty)),
        BinaryOp::Mul => Some(mul_opcode(ty)),
        BinaryOp::Div => Some(div_opcode(ty)),
        BinaryOp::Rem => Some(rem_opcode(ty)),
        BinaryOp::And => Some(if long { LAND } else { IAND }),
        BinaryOp::Or => Some(if long { LOR } else { IOR }),
        BinaryOp::Xor => Some(if long { LXOR } else { IXOR }),
        BinaryOp::Shl => Some(if long { LSHL } else { ISHL }),
        BinaryOp::Shr => Some(if long { LSHR } else { ISHR }),
        BinaryOp::Ushr => Some(if long { LUSHR } else { IUSHR }),
        _ => None,
    }
}

/// Opcode of the operator of a compound assignment.
pub fn assign_op_opcode(op: AssignOp, ty: &Ty) -> (r: Option<u8>)
    ensures
        r == match assign_binary(op) {
            Some(b) => binary_op(b, ty@),
            None => None,
        },
{
    match op {
        AssignOp::Plain => None,
        AssignOp::Add => arithmetic_opcode(BinaryOp::Add, ty),
        AssignOp::Sub => arithmetic_opcode(BinaryOp::Sub, ty),
        AssignOp::Mul => arithmetic_opcode(BinaryOp::Mul, ty),
        AssignOp::Div => arithmetic_opcode(BinaryOp::Div, ty),
        AssignOp::Rem => arithmetic_opcode(BinaryOp::Rem, ty),
        AssignOp::Shl => arithmetic_opcode(BinaryOp::Shl, ty),
        AssignOp::Shr => arithmetic_opcode(BinaryOp::Shr, ty),
        AssignOp::Ushr => arithmetic_opcode(BinaryOp::Ushr, ty),
        AssignOp::And => arithmetic_opcode(BinaryOp::And, ty),
        AssignOp::Or => arithmetic_opcode(BinaryOp::Or, ty),
        AssignOp::Xor => arithmetic_opcode(BinaryOp::Xor, ty),
    }
}

pub open spec fn is_comparison_op(op: BinaryOp) -> bool {
    op is Eq || op is Ne || op is Lt || op is Gt || op is Le || op is Ge
}

pub fn is_comparison(op: BinaryOp) -> (r: bool)
    ensures
        r == is_comparison_op(op),
{
    matches!(op, BinaryOp::Eq | BinaryOp::Ne | BinaryOp::Lt | BinaryOp::Gt | BinaryOp::Le | BinaryOp::Ge)
}

/// The comparison that holds exactly when `op` does not.
pub open spec fn negated(op: BinaryOp) -> BinaryOp {
    match op {
        BinaryOp::Eq => BinaryOp::Ne,
        BinaryOp::Ne => BinaryOp::Eq,
        BinaryOp::Lt => BinaryOp::Ge,
        BinaryOp::Ge => BinaryOp::Lt,
        BinaryOp::Gt => BinaryOp::Le,
        BinaryOp::Le => BinaryOp::Gt,
        _ => op,
    }
}

/// Offset of a comparison within the `ifeq`/`if_icmpeq` opcode families.
pub open spec fn relation_offset(op: BinaryOp) -> u8 {
    match op {
        BinaryOp::Eq => 0,
        BinaryOp::Ne => 1,
        BinaryOp::Lt => 2,
        BinaryOp::Ge => 3,
        BinaryOp::Gt => 4,
        _ => 5,
    }
}

/// The comparison a jump must test so that it is taken for `sense`.
pub open spec fn tested(op: BinaryOp, sense: BranchSense) -> BinaryOp {
    match sense {
        BranchSense::True => op,
        BranchSense::False => negated(op),
    }
}

/// `if_icmp<op>`, defaulting to `if_icmpeq` for a non-comparison.
pub fn int_compare_opcode(op: BinaryOp) -> (r: u8)
    ensures
        r == if is_comparison_op(op) { (IF_ICMPEQ + relation_offset(op)) as u8 } else { IF_ICMPEQ },
{
    match op {
        BinaryOp::Eq => IF_ICMPEQ,
        BinaryOp::Ne => IF_ICMPNE,
        BinaryOp::Lt => IF_ICMPLT,
        BinaryOp::Gt => IF_ICMPGT,
        BinaryOp::Le => IF_ICMPLE,
        BinaryOp::Ge => IF_ICMPGE,
        _ => IF_ICMPEQ,
    }
}

/// `if<op>` against zero, defaulting to `ifeq` for a non-comparison.
pub fn single_value_compare_opcode(op: BinaryOp) -> (r: u8)
    ensures
        r == if is_comparison_op(op) { (IFEQ + relation_offset(op)) as u8 } else { IFEQ },
{
    match op {
        BinaryOp::Eq => IFEQ,
        BinaryOp::Ne => IFNE,
        BinaryOp::Lt => IFLT,
        BinaryOp::Gt => IFGT,
        BinaryOp::Le => IFLE,
        BinaryOp::Ge => IFGE,
        _ => IFEQ,
    }
}

/// Jump taken, for `sense`, on two int operands; `if_icmpne` for a non-comparison.
pub open spec fn int_branch_op(op: BinaryOp, sense: BranchSense) -> u8 {
    if is_comparison_op(op) {
        (IF_ICMPEQ + relation_offset(tested(op, sense))) as u8
    } else {
        IF_ICMPNE
    }
}

/// Jump taken, for `sense`, on the result of `lcmp`/`fcmpg`/`dcmpg`; `ifne` otherwise.
pub open spec fn single_value_branch_op(op: BinaryOp, sense: BranchSense) -> u8 {
    if is_comparison_op(op) {
        (IFEQ + relation_offset(tested(op, sense))) as u8
    } else {
        IFNE
    }
}

/// Jump taken, for `sense`, on two references.
pub open spec fn reference_branch_op(op: BinaryOp, sense: BranchSense) -> u8 {
    if (op is Eq || op is Ne) && tested(op, sense) is Eq {
        IF_ACMPEQ
    } else {
        IF_ACMPNE
    }
}

/// Jump taken, for `sense`, on two int operands; `if_icmpne` for a non-comparison.
pub fn int_branch(op: BinaryOp, sense: BranchSense) -> (r: u8)
    ensures
        r == int_branch_op(op, sense),
{
    match (op, sense) {
        (BinaryOp::Eq, BranchSense::True) | (BinaryOp::Ne, BranchSense::False) => IF_ICMPEQ,
        (BinaryOp::Ne, BranchSense::True) | (BinaryOp::Eq, BranchSense::False) => IF_ICMPNE,
        (BinaryOp::Lt, BranchSense::True) | (BinaryOp::Ge, BranchSense::False) => IF_ICMPLT,
        (BinaryOp::Gt, BranchSense::True) | (BinaryOp::Le, BranchSense::False) => IF_ICMPGT,
        (BinaryOp::Le, BranchSense::True) | (BinaryOp::Gt, BranchSense::False) => IF_ICMPLE,
        (BinaryOp::Ge, BranchSense::True) | (BinaryOp::Lt, BranchSense::False) => IF_ICMPGE,
        _ => IF_ICMPNE,
    }
}

/// Jump taken, for `sense`, on the result of `lcmp`/`fcmpg`/`dcmpg`; `ifne` otherwise.
pub fn single_value_branch(op: BinaryOp, sense: BranchSense) -> (r: u8)
    ensures
        r == single_value_branch_op(op, sense),
{
    match (op, sense) {
        (BinaryOp::Eq, BranchSense::True) | (BinaryOp::Ne, BranchSense::False) => IFEQ,
        (BinaryOp::Ne, BranchSense::True) | (BinaryOp::Eq, BranchSense::False) => IFNE,
        (BinaryOp::Lt, BranchSense::True) | (BinaryOp::Ge, BranchSense::False) => IFLT,
        (BinaryOp::Gt, BranchSense::True) | (BinaryOp::Le, BranchSense::False) => IFGT,
        (BinaryOp::Le, BranchSense::True) | (BinaryOp::Gt, BranchSense::False) => IFLE,
        (BinaryOp::Ge, BranchSense::True) | (BinaryOp::Lt, BranchSense::False) => IFGE,
        _ => IFNE,
    }
}

/// Jump taken, for `sense`, on two references: only `==` and `!=` are exact;
/// anything else jumps on inequality.
pub fn reference_branch(op: BinaryOp, sense: BranchSense) -> (r: u8)
    ensures
        r == reference_branch_op(op, sense),
{
    match (op, sense) {
        (BinaryOp::Eq, BranchSense::True) | (BinaryOp::Ne, BranchSense::False) => IF_ACMPEQ,
        (BinaryOp::Ne, BranchSense::True) | (BinaryOp::Eq, BranchSense::False) => IF_ACMPNE,
        _ => IF_ACMPNE,
    }
}

/// A jump on the failure of a comparison is the jump on success of its negation,
/// and jumping on success agrees with the value-producing comparison opcodes.
pub proof fn law_branch_negation(op: BinaryOp)
    requires
        is_comparison_op(op),
    ensures
        is_comparison_op(negated(op)),
        negated(negated(op)) == op,
        tested(op, BranchSense::False) == tested(negated(op), BranchSense::True),
        relation_offset(tested(op, BranchSense::False)) != relation_offset(tested(op, BranchSense::True)),
{
}

/// Local-variable store and method-return opcodes follow the load opcode of the
/// same type at a fixed distance.
pub proof fn law_typed_load_store_return(t: TyModel)
    ensures
        store_op(t) == load_op(t) + (ISTORE - ILOAD),
        !(t is Void) ==> return_op(t) == load_op(t) + (IRETURN - ILOAD),
{
}

/// A numeric conversion `from -> to`, when one applies.
pub open spec fn conversion_op(from: TyModel, to: TyModel) -> Option<u8> {
    let f = erasure(from);
    let t = erasure(to);
    if is_int_like(f) && t is Long {
        Some(I2L)
    } else if is_int_like(f) && t is Float {
        Some(I2F)
    } else if is_int_like(f) && t is Double {
        Some(I2D)
    } else if f is Long && is_int_like(t) {
        Some(L2I)
    } else if f is Long && t is Float {
        Some(L2F)
    } else if f is Long && t is Double {
        Some(L2D)
    } else if f is Float && is_int_like(t) {
        Some(F2I)
    } else if f is Float && t is Long {
        Some(F2L)
    } else if f is Float && t is Double {
        Some(F2D)
    } else if f is Double && is_int_like(t) {
        Some(D2I)
    } else if f is Double && t is Long {
        Some(D2L)
    } else if f is Double && t is Float {
        Some(D2F)
    } else if t is Byte {
        Some(I2B)
    } else if t is Char {
        Some(I2C)
    } else if t is Short {
        Some(I2S)
    } else {
        None
    }
}

pub fn numeric_conversion(from: &Ty, to: &Ty) -> (r: Option<u8>)
    ensures
        r == conversion_op(from@, to@),
{
    let f = from.erasure();
    let t = to.erasure();
    let f_int = matches!(f, Ty::Int | Ty::Byte | Ty::Short | Ty::Char | Ty::Boolean);
    let t_int = matches!(t, Ty::Int | Ty::Byte | Ty::Short | Ty::Char | Ty::Boolean);
    if f_int && matches!(t, Ty::Long) {
        Some(I2L)
    } else if f_int && matches!(t, Ty::Float) {
        Some(I2F)
    } else if f_int && matches!(t, Ty::Double) {
        Some(I2D)
    } else if matches!(f, Ty::Long) && t_int {
        Some(L2I)
    } else if matches!(f, Ty::Long) && matches!(t, Ty::Float) {
        Some(L2F)
    } else if matches!(f, Ty::Long) && matches!(t, Ty::Double) {
        Some(L2D)
    } else if matches!(f, Ty::Float) && t_int {
        Some(F2I)
    } else if matches!(f, Ty::Float) && matches!(t, Ty::Long) {
        Some(F2L)
    } else if matches!(f, Ty::Float) && matches!(t, Ty::Double) {
        Some(F2D)
    } else if matches!(f, Ty::Double) && t_int {
        Some(D2I)
    } else if matches!(f, Ty::Double) && matches!(t, Ty::Long) {
        Some(D2L)
    } else if matches!(f, Ty::Double) && matches!(t, Ty::Float) {
        Some(D2F)
    } else if matches!(t, Ty::Byte) {
        Some(I2B)
    } else if matches!(t, Ty::Char) {
        Some(I2C)
    } else if matches!(t, Ty::Short) {
        Some(I2S)
    } else {
        None
    }
}

/// The type operand of a `checkcast` to `to`: a class name, or an array descriptor.
pub open spec fn checkcast_name(to: TyModel) -> Option<Seq<char>> {
    match erasure(to) {
        TyModel::Class(n) => Some(n),
        TyModel::Array(_) => Some(descriptor(to)),
        _ => None,
    }
}

pub fn checkcast_target(ty: &Ty) -> (r: Option<String>)
    ensures
        r matches Some(s) ==> checkcast_name(ty@) == Some(s@),
        r is None ==> checkcast_name(ty@) is None,
{
    let e = ty.erasure();
    match e {
        Ty::Class(name) => Some(name),
        Ty::Array(_) => Some(ty.descriptor()),
        _ => None,
    }
}

/// Descriptor of the `StringBuilder.append` overload used for a value of type `t`.
pub open spec fn append_arg(t: TyModel) -> Seq<char> {
    match erasure(t) {
        TyModel::Boolean => "Z"@,
        TyModel::Char => "C"@,
        TyModel::Int | TyModel::Byte | TyModel::Short => "I"@,
        TyModel::Long => "J"@,
        TyModel::Float => "F"@,
        TyModel::Double => "D"@,
        TyModel::Class(n) => if n == string_name() {
            "Ljava/lang/String;"@
        } else {
            "Ljava/lang/Object;"@
        },
        _ => "Ljava/lang/Object;"@,
    }
}

pub fn string_builder_append_descriptor(ty: &Ty) -> (r: String)
    ensures
        r@ == "("@ + append_arg(ty@) + ")Ljava/lang/StringBuilder;"@,
{
    let e = ty.erasure();
    let arg: &str = match &e {
        Ty::Boolean => "Z",
        Ty::Char => "C",
        Ty::Int | Ty::Byte | Ty::Short => "I",
        Ty::Long => "J",
        Ty::Float => "F",
        Ty::Double => "D",
        Ty::Class(name) => if str_eq(name.as_str(), "java/lang/String") {
            "Ljava/lang/String;"
        } else {
            "Ljava/lang/Object;"
        },
        _ => "Ljava/lang/Object;",
    };
    let mut s = String::from_str("(");
    s.append(arg);
    s.append(")Ljava/lang/StringBuilder;");
    s
}

/// The constant that stands for "no value yet" of a type: none for void,
/// `null` for references, zero otherwise.
pub open spec fn default_value_op(t: TyModel) -> Option<u8> {
    match t {
        TyModel::Void => None,
        TyModel::Long => Some(LCONST_0),
        TyModel::Float => Some(FCONST_0),
        TyModel::Double => Some(DCONST_0),
        TyModel::Class(_) | TyModel::Array(_) | TyModel::TypeVar(_) | TyModel::Wildcard(_)
        | TyModel::Intersection(_, _) => Some(ACONST_NULL),
        _ => Some(ICONST_0),
    }
}

pub fn default_value_opcode(ty: &Ty) -> (r: Option<u8>)
    ensures
        r == default_value_op(ty@),
{
    match ty {
        Ty::Void => None,
        Ty::Long => Some(LCONST_0),
        Ty::Float => Some(FCONST_0),
        Ty::Double => Some(DCONST_0),
        Ty::Class(_) | Ty::Array(_) | Ty::TypeVar(_) | Ty::Wildcard(_) | Ty::Intersection(
            _,
            _,
        ) => Some(ACONST_NULL),
        _ => Some(ICONST_0),
    }
}

/// The `if_icmp<cond>` jump that tests `op` on two ints; `if_icmpeq` for an
/// operator that is no comparison.
pub open spec fn int_pair_jump(op: BinaryOp) -> u8 {
    if is_comparison_op(op) {
        (IF_ICMPEQ + relation_offset(op)) as u8
    } else {
        IF_ICMPEQ
    }
}

/// The `if<cond>` jump that tests `op` on a three-way result; `ifeq` for an
/// operator that is no comparison.
pub open spec fn zero_jump(op: BinaryOp) -> u8 {
    if is_comparison_op(op) {
        (IFEQ + relation_offset(op)) as u8
    } else {
        IFEQ
    }
}

/// A type whose values are compared with `if_icmp<cond>`: not `long`, `float`,
/// `double` or a reference.
pub open spec fn compared_as_int(t: TyModel) -> bool {
    match erasure(t) {
        TyModel::Long | TyModel::Float | TyModel::Double | TyModel::Class(_) | TyModel::Array(_) => false,
        _ => true,
    }
}

/// The magnitude of `a`.
pub open spec fn magnitude(a: int) -> int {
    if a < 0 {
        -a
    } else {
        a
    }
}

/// Integer division rounded toward zero, as Java and the JVM divide (JLS
/// 15.17.2); zero for a zero divisor, where both throw instead.
pub open spec fn quot(a: int, b: int) -> int {
    if b == 0 {
        0
    } else if (a >= 0) == (b > 0) {
        magnitude(a) / magnitude(b)
    } else {
        -(magnitude(a) / magnitude(b))
    }
}

/// What a JVM int instruction computes from its two operands (JVMS 6.5, by
/// opcode number): the exact result, of which the instruction keeps the low
/// 32 bits.
pub open spec fn jvm_int_result(opcode: u8, a: i32, b: i32) -> Option<int> {
    if opcode == 96 {
        Some(a + b)
    } else if opcode == 100 {
        Some(a - b)
    } else if opcode == 104 {
        Some(a * b)
    } else if opcode == 108 {
        Some(quot(a as int, b as int))
    } else if opcode == 112 {
        Some(a - b * quot(a as int, b as int))
    } else if opcode == 120 {
        Some((a << ((b & 31) as u32)) as int)
    } else if opcode == 122 {
        Some((a >> ((b & 31) as u32)) as int)
    } else if opcode == 124 {
        Some(((a as u32) >> ((b & 31) as u32)) as int)
    } else if opcode == 126 {
        Some((a & b) as int)
    } else if opcode == 128 {
        Some((a | b) as int)
    } else if opcode == 130 {
        Some((a ^ b) as int)
    } else {
        None
    }
}

/// What a Java binary operator computes on two int operands (JLS 15.17 to
/// 15.22), before the result is reduced to 32 bits.
pub open spec fn java_int_result(op: BinaryOp, a: i32, b: i32) -> Option<int> {
    match op {
        BinaryOp::Add => Some(a + b),
        BinaryOp::Sub => Some(a - b),
        BinaryOp::Mul => Some(a * b),
        BinaryOp::Div => Some(quot(a as int, b as int)),
        BinaryOp::Rem => Some(a - b * quot(a as int, b as int)),
        BinaryOp::Shl => Some((a << ((b & 31) as u32)) as int),
        BinaryOp::Shr => Some((a >> ((b & 31) as u32)) as int),
        BinaryOp::Ushr => Some(((a as u32) >> ((b & 31) as u32)) as int),
        BinaryOp::And => Some((a & b) as int),
        BinaryOp::Or => Some((a | b) as int),
        BinaryOp::Xor => Some((a ^ b) as int),
        _ => None,
    }
}

/// The value `x op= v` stores in `x` for int operands (JLS 15.26.2), before
/// it is reduced to 32 bits.
pub open spec fn java_compound_result(op: AssignOp, x: i32, v: i32) -> Option<int> {
    match op {
        AssignOp::Plain => None,
        AssignOp::Add => Some(x + v),
        AssignOp::Sub => Some(x - v),
        AssignOp::Mul => Some(x * v),
        AssignOp::Div => Some(quot(x as int, v as int)),
        AssignOp::Rem => Some(x - v * quot(x as int, v as int)),
        AssignOp::Shl => Some((x << ((v & 31) as u32)) as int),
        AssignOp::Shr => Some((x >> ((v & 31) as u32)) as int),
        AssignOp::Ushr => Some(((x as u32) >> ((v & 31) as u32)) as int),
        AssignOp::And => Some((x & v) as int),
        AssignOp::Or => Some((x | v) as int),
        AssignOp::Xor => Some((x ^ v) as int),
    }
}

/// Whether a JVM `if_icmp<cond>` instruction jumps for the operands `a`, `b`
/// (JVMS 6.5, by opcode number).
pub open spec fn jvm_int_pair_jump_taken(opcode: u8, a: int, b: int) -> bool {
    if opcode == 159 {
        a == b
    } else if opcode == 160 {
        a != b
    } else if opcode == 161 {
        a < b
    } else if opcode == 162 {
        a >= b
    } else if opcode == 163 {
        a > b
    } else if opcode == 164 {
        a <= b
    } else {
        false
    }
}

/// Whether a JVM `if<cond>` instruction jumps for the value `v` (JVMS 6.5).
pub open spec fn jvm_if_taken(opcode: u8, v: int) -> bool {
    if opcode == 153 {
        v == 0
    } else if opcode == 154 {
        v != 0
    } else if opcode == 155 {
        v < 0
    } else if opcode == 156 {
        v >= 0
    } else if opcode == 157 {
        v > 0
    } else if opcode == 158 {
        v <= 0
    } else {
        false
    }
}

/// What `lcmp` pushes for `a` and `b` (JVMS 6.5): 1, 0 or -1.
pub open spec fn three_way(a: int, b: int) -> int {
    if a > b {
        1
    } else if a == b {
        0
    } else {
        -1
    }
}

/// Whether the Java comparison `a op b` holds (JLS 15.20, 15.21).
pub open spec fn java_compare(op: BinaryOp, a: int, b: int) -> bool {
    match op {
        BinaryOp::Eq => a == b,
        BinaryOp::Ne => a != b,
        BinaryOp::Lt => a < b,
        BinaryOp::Gt => a > b,
        BinaryOp::Le => a <= b,
        BinaryOp::Ge => a >= b,
        _ => false,
    }
}

/// What a JVM long instruction computes from its two operands (JVMS 6.5, by
/// opcode number): the exact result, of which the instruction keeps the low
/// 64 bits.
pub open spec fn jvm_long_result(opcode: u8, a: i64, b: i64) -> Option<int> {
    if opcode == 97 {
        Some(a + b)
    } else if opcode == 101 {
        Some(a - b)
    } else if opcode == 105 {
        Some(a * b)
    } else if opcode == 109 {
        Some(quot(a as int, b as int))
    } else if opcode == 113 {
        Some(a - b * quot(a as int, b as int))
    } else if opcode == 121 {
        Some((a << ((b & 63) as u64)) as int)
    } else if opcode == 123 {
        Some((a >> ((b & 63) as u64)) as int)
    } else if opcode == 125 {
        Some(((a as u64) >> ((b & 63) as u64)) as int)
    } else if opcode == 127 {
        Some((a & b) as int)
    } else if opcode == 129 {
        Some((a | b) as int)
    } else if opcode == 131 {
        Some((a ^ b) as int)
    } else {
        None
    }
}

/// What a Java binary operator computes on two long operands (JLS 15.17 to
/// 15.22), before the result is reduced to 64 bits.
pub open spec fn java_long_result(op: BinaryOp, a: i64, b: i64) -> Option<int> {
    match op {
        BinaryOp::Add => Some(a + b),
        BinaryOp::Sub => Some(a - b),
        BinaryOp::Mul => Some(a * b),
        BinaryOp::Div => Some(quot(a as int, b as int)),
        BinaryOp::Rem => Some(a - b * quot(a as int, b as int)),
        BinaryOp::Shl => Some((a << ((b & 63) as u64)) as int),
        BinaryOp::Shr => Some((a >> ((b & 63) as u64)) as int),
        BinaryOp::Ushr => Some(((a as u64) >> ((b & 63) as u64)) as int),
        BinaryOp::And => Some((a & b) as int),
        BinaryOp::Or => Some((a | b) as int),
        BinaryOp::Xor => Some((a ^ b) as int),
        _ => None,
    }
}

/// The instruction chosen for an arithmetic or bitwise operator on longs
/// computes what the Java operator does, for all operands.
pub proof fn law_long_operators(op: BinaryOp, a: i64, b: i64)
    ensures
        binary_op(op, TyModel::Long) matches Some(o) ==> jvm_long_result(o, a, b) == java_long_result(op, a, b),
        java_long_result(op, a, b) is Some ==> binary_op(op, TyModel::Long) is Some,
{
}

/// The instruction chosen for an arithmetic or bitwise operator on ints
/// computes what the Java operator does, for all operands; every such
/// operator has one.
pub proof fn law_int_operators(op: BinaryOp, a: i32, b: i32)
    ensures
        binary_op(op, TyModel::Int) matches Some(o) ==> jvm_int_result(o, a, b) == java_int_result(op, a, b),
        java_int_result(op, a, b) is Some ==> binary_op(op, TyModel::Int) is Some,
{
}

/// A compound assignment `x op= v` on ints applies the binary operator it is
/// spelled with, through an instruction that computes what Java stores in `x`.
pub proof fn law_compound_operators(op: AssignOp, x: i32, v: i32)
    ensures
        assign_binary(op) matches Some(b) ==> assign_spelling(op) == op_spelling(b) + seq!['='],
        assign_binary(op) matches Some(b) ==> (binary_op(b, TyModel::Int) matches Some(o) && jvm_int_result(o, x, v)
            == java_compound_result(op, x, v)),
        assign_binary(op) is None <==> java_compound_result(op, x, v) is None,
{
}

/// The `if_icmp<cond>` jump a comparison of ints uses is taken exactly when
/// the Java comparison holds, for all operands.
pub proof fn law_int_comparisons(op: BinaryOp, a: int, b: int)
    requires
        is_comparison_op(op),
    ensures
        jvm_int_pair_jump_taken((IF_ICMPEQ + relation_offset(op)) as u8, a, b) == java_compare(op, a, b),
{
}

/// After `lcmp` (and likewise `fcmpg`, `dcmpg` on ordered values), the
/// `if<cond>` jump a comparison uses is taken exactly when the comparison holds.
pub proof fn law_three_way_comparisons(op: BinaryOp, a: int, b: int)
    requires
        is_comparison_op(op),
    ensures
        jvm_if_taken((IFEQ + relation_offset(op)) as u8, three_way(a, b)) == java_compare(op, a, b),
{
}

} // verus!
