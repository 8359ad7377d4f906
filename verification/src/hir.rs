//! The high-level intermediate representation: declarations, and per-method
//! bodies whose expressions and statements live in arenas addressed by index.
use vstd::prelude::*;
use crate::sig::MethodSig;
use crate::ty::{Ty, TypeParam};

verus! {

pub type ExprId = usize;

pub type StmtId = usize;

#[derive(Debug)]
pub struct HirId(pub u32);

#[derive(Debug)]
pub struct Package {
    pub name: String,
}

#[derive(Debug)]
pub struct Import {
    pub path: String,
    pub is_static: bool,
    pub is_wildcard: bool,
    pub source_line: Option<u16>,
}

#[derive(Debug)]
pub struct CompilationUnit {
    pub package: Option<Package>,
    pub imports: Vec<Import>,
    pub type_decls: Vec<TypeDecl>,
}

#[derive(Debug, PartialEq, Eq, Clone, Copy, Structural)]
pub enum TypeDeclKind {
    Class,
    Interface,
    Enum,
    Record,
    Annotation,
}

/// The hidden `this$0` field of an anonymous class that captures its enclosing instance.
#[derive(Debug)]
pub struct OuterThisInfo {
    pub field_name: String,
    pub ty: Ty,
}

/// How an anonymous class constructor calls its superclass constructor.
#[derive(Debug)]
pub struct SuperConstructorCall {
    pub owner: Ty,
    pub params: Vec<Ty>,
    pub arg_offset: usize,
}

/// What an anonymous class needs to know about the code that declares it.
#[derive(Debug)]
pub struct AnonymousClassInfo {
    pub super_constructor: SuperConstructorCall,
    pub outer_this: Option<OuterThisInfo>,
    pub enclosing_static_owner: Option<String>,
    pub outer_fields: Vec<CapturedField>,
}

/// A field of an enclosing class visible from an anonymous class body.
#[derive(Debug)]
pub struct CapturedField {
    pub name: String,
    pub ty: Ty,
    pub access_flags: u16,
}

#[derive(Debug)]
pub struct TypeDecl {
    pub id: HirId,
    pub name: String,
    pub kind: TypeDeclKind,
    pub access_flags: u16,
    pub super_class: Option<Ty>,
    pub interfaces: Vec<Ty>,
    pub type_params: Vec<TypeParam>,
    pub fields: Vec<FieldDecl>,
    pub methods: Vec<MethodDecl>,
    pub inner_types: Vec<TypeDecl>,
    pub anonymous: Option<AnonymousClassInfo>,
}

#[derive(Debug)]
pub struct FieldDecl {
    pub id: HirId,
    pub name: String,
    pub ty: Ty,
    pub access_flags: u16,
    pub body: Body,
    pub initializer: Option<ExprId>,
}

#[derive(Debug)]
pub struct ParamDecl {
    pub name: String,
    pub ty: Ty,
}

#[derive(Debug)]
pub struct MethodDecl {
    pub id: HirId,
    pub name: String,
    pub params: Vec<ParamDecl>,
    pub signature: MethodSig,
    pub access_flags: u16,
    pub body: Body,
    pub root_block: Option<Block>,
    pub constructor_call: Option<SuperConstructorCall>,
}

/// Expression and statement arenas of one method or initializer.
#[derive(Debug)]
pub struct Body {
    pub exprs: Vec<Expr>,
    pub stmts: Vec<Stmt>,
}

#[derive(Debug)]
pub struct Block {
    pub stmts: Vec<StmtId>,
}

#[derive(Debug)]
pub struct LocalVarDecl {
    pub ty: Ty,
    pub name: String,
    pub initializer: Option<ExprId>,
}

#[derive(Debug)]
pub enum SwitchCase {
    Case { pattern: ExprId, body: Vec<StmtId>, is_arrow: bool },
    Default { body: Vec<StmtId>, is_arrow: bool },
}

#[derive(Debug)]
pub enum Stmt {
    Expr(ExprId),
    Empty,
    LocalVar(LocalVarDecl),
    If { condition: ExprId, then_branch: StmtId, else_branch: Option<StmtId> },
    While { condition: ExprId, body: StmtId },
    Do { body: StmtId, condition: ExprId },
    For {
        init: Option<StmtId>,
        condition: Option<ExprId>,
        update: Option<ExprId>,
        body: StmtId,
    },
    Return(Option<ExprId>),
    Throw(ExprId),
    Break(Option<String>),
    Continue(Option<String>),
    Yield(ExprId),
    Block(Block),
}

#[derive(Debug)]
pub struct ArrayInit {
    pub elements: Vec<ExprId>,
}

#[derive(Debug, PartialEq, Eq, Clone, Copy, Structural)]
pub enum UnaryOp {
    Neg,
    Not,
    BitNot,
    PreInc,
    PreDec,
}

#[derive(Debug, PartialEq, Eq, Clone, Copy, Structural)]
pub enum BinaryOp {
    Add,
    Sub,
    Mul,
    Div,
    Rem,
    Shl,
    Shr,
    Ushr,
    And,
    Or,
    Xor,
    AndAnd,
    OrOr,
    Eq,
    Ne,
    Lt,
    Gt,
    Le,
    Ge,
}

#[derive(Debug, PartialEq, Eq, Clone, Copy, Structural)]
pub enum AssignOp {
    Plain,
    Add,
    Sub,
    Mul,
    Div,
    Rem,
    Shl,
    Shr,
    Ushr,
    And,
    Or,
    Xor,
}

#[derive(Debug)]
pub struct LambdaParam {
    pub ty: Option<Ty>,
    pub name: String,
}

#[derive(Debug)]
pub enum LambdaBody {
    Expr(ExprId),
    Block(Block),
}

/// A `new` expression with a class body.
#[derive(Debug)]
pub struct AnonymousObject {
    pub class_name: String,
    pub constructor_params: Vec<Ty>,
    pub captures_enclosing_this: bool,
}

#[derive(Debug)]
pub enum Expr {
    IntLiteral(i64),
    LongLiteral(i64),
    /// A `float` literal, by its source text.
    FloatLiteral(String),
    /// A `double` literal, by its source text.
    DoubleLiteral(String),
    BoolLiteral(bool),
    CharLiteral(char),
    StringLiteral(String),
    NullLiteral,
    This,
    Super,
    Ident(String),
    /// A class used as the qualifier of a static member (`System` in `System.out`).
    ClassName(String),
    FieldAccess { target: ExprId, field: String },
    MethodCall { target: Option<ExprId>, method: String, args: Vec<ExprId> },
    NewObject { class: Ty, args: Vec<ExprId>, anonymous: Option<AnonymousObject> },
    NewArray { element_type: Ty, dimensions: Vec<Option<ExprId>>, initializer: Option<ArrayInit> },
    ArrayAccess { array: ExprId, index: ExprId },
    Unary { op: UnaryOp, operand: ExprId },
    Binary { op: BinaryOp, left: ExprId, right: ExprId },
    Ternary { condition: ExprId, then_expr: ExprId, else_expr: ExprId },
    Cast { ty: Ty, expr: ExprId },
    Instanceof { expr: ExprId, ty: Ty, binding: Option<String> },
    Assign { target: ExprId, op: AssignOp, value: ExprId },
    PostInc(ExprId),
    PostDec(ExprId),
    Lambda { params: Vec<LambdaParam>, body: LambdaBody, target_ty: Option<Ty> },
    MethodRef { target: ExprId, method: String },
    Parens(ExprId),
    Switch { selector: ExprId, cases: Vec<SwitchCase> },
}

/// Every expression id that `e` refers to directly is below `bound`.
pub open spec fn expr_children_below(e: Expr, bound: int) -> bool {
    match e {
        Expr::FieldAccess { target, .. } => target < bound,
        Expr::MethodCall { target, args, .. } => (target matches Some(t) ==> t < bound) && (forall|
            i: int,
        | 0 <= i < args@.len() ==> args@[i] < bound),
        Expr::NewObject { args, .. } => forall|i: int| 0 <= i < args@.len() ==> args@[i] < bound,
        Expr::NewArray { dimensions, initializer, .. } => (forall|i: int|
            0 <= i < dimensions@.len() ==> (#[trigger] dimensions@[i] matches Some(d) ==> d < bound)) && (
        initializer matches Some(init) ==> forall|i: int|
            0 <= i < init.elements@.len() ==> init.elements@[i] < bound),
        Expr::ArrayAccess { array, index } => array < bound && index < bound,
        Expr::Unary { operand, .. } => operand < bound,
        Expr::Binary { left, right, .. } => left < bound && right < bound,
        Expr::Ternary { condition, then_expr, else_expr } => condition < bound && then_expr
            < bound && else_expr < bound,
        Expr::Cast { expr, .. } => expr < bound,
        Expr::Instanceof { expr, .. } => expr < bound,
        Expr::Assign { target, value, .. } => target < bound && value < bound,
        Expr::PostInc(inner) => inner < bound,
        Expr::PostDec(inner) => inner < bound,
        Expr::Lambda { body, .. } => body matches LambdaBody::Expr(b) ==> b < bound,
        Expr::MethodRef { target, .. } => target < bound,
        Expr::Parens(inner) => inner < bound,
        Expr::Switch { selector, .. } => selector < bound,
        _ => true,
    }
}

/// The expression a switch case yields, if its body has one.
pub open spec fn stmt_value(s: Stmt) -> Option<ExprId> {
    match s {
        Stmt::Yield(e) => Some(e),
        Stmt::Return(Some(e)) => Some(e),
        Stmt::Expr(e) => Some(e),
        _ => None,
    }
}

pub open spec fn case_body(c: SwitchCase) -> Seq<StmtId> {
    match c {
        SwitchCase::Case { body, .. } => body@,
        SwitchCase::Default { body, .. } => body@,
    }
}

/// Every statement id that `s` refers to directly is below `bound`, and every
/// expression id is a valid index.
pub open spec fn stmt_children_ok(s: Stmt, bound: int, n_exprs: int) -> bool {
    match s {
        Stmt::Expr(e) => e < n_exprs,
        Stmt::LocalVar(d) => d.initializer matches Some(e) ==> e < n_exprs,
        Stmt::If { condition, then_branch, else_branch } => condition < n_exprs && then_branch
            < bound && (else_branch matches Some(b) ==> b < bound),
        Stmt::While { condition, body } => condition < n_exprs && body < bound,
        Stmt::Do { body, condition } => condition < n_exprs && body < bound,
        Stmt::For { init, condition, update, body } => (init matches Some(i) ==> i < bound) && (
        condition matches Some(c) ==> c < n_exprs) && (update matches Some(u) ==> u < n_exprs)
            && body < bound,
        Stmt::Return(Some(e)) => e < n_exprs,
        Stmt::Throw(e) => e < n_exprs,
        Stmt::Yield(e) => e < n_exprs,
        Stmt::Block(b) => forall|i: int| 0 <= i < b.stmts@.len() ==> b.stmts@[i] < bound,
        _ => true,
    }
}

impl Body {
    pub fn new() -> (r: Body)
        ensures
            r.wf(),
            r.exprs@.len() == 0,
            r.stmts@.len() == 0,
    {
        Body { exprs: Vec::new(), stmts: Vec::new() }
    }

    /// Well-formedness: the arenas are acyclic (children come before parents),
    /// and every statement and switch case refers only to existing entries.
    pub open spec fn wf(&self) -> bool {
        &&& forall|i: int| 0 <= i < self.exprs@.len() ==> expr_children_below(self.exprs@[i], i)
        &&& forall|i: int|
            0 <= i < self.stmts@.len() ==> stmt_children_ok(
                self.stmts@[i],
                i,
                self.exprs@.len() as int,
            )
        &&& forall|i: int|
            0 <= i < self.exprs@.len() ==> (#[trigger] self.exprs@[i] matches Expr::Switch { cases, .. }
                ==> forall|c: int, k: int|
                #![trigger case_body(cases@[c])[k]]
                0 <= c < cases@.len() && 0 <= k < case_body(cases@[c]).len() ==> {
                    let sid = case_body(cases@[c])[k];
                    &&& 0 <= sid < self.stmts@.len()
                    &&& (stmt_value(self.stmts@[sid as int]) matches Some(v) ==> v < i)
                    &&& (cases@[c] matches SwitchCase::Case { pattern, .. } ==> pattern < i)
                })
    }

    /// A block whose statements all exist.
    pub open spec fn block_ok(&self, b: Block) -> bool {
        forall|i: int| 0 <= i < b.stmts@.len() ==> b.stmts@[i] < self.stmts@.len()
    }
}


/// How Java writes a binary operator (JLS 15.17 to 15.24).
pub open spec fn op_spelling(op: BinaryOp) -> Seq<char> {
    match op {
        BinaryOp::Add => seq!['+'],
        BinaryOp::Sub => seq!['-'],
        BinaryOp::Mul => seq!['*'],
        BinaryOp::Div => seq!['/'],
        BinaryOp::Rem => seq!['%'],
        BinaryOp::Shl => seq!['<', '<'],
        BinaryOp::Shr => seq!['>', '>'],
        BinaryOp::Ushr => seq!['>', '>', '>'],
        BinaryOp::And => seq!['&'],
        BinaryOp::Or => seq!['|'],
        BinaryOp::Xor => seq!['^'],
        BinaryOp::AndAnd => seq!['&', '&'],
        BinaryOp::OrOr => seq!['|', '|'],
        BinaryOp::Eq => seq!['=', '='],
        BinaryOp::Ne => seq!['!', '='],
        BinaryOp::Lt => seq!['<'],
        BinaryOp::Gt => seq!['>'],
        BinaryOp::Le => seq!['<', '='],
        BinaryOp::Ge => seq!['>', '='],
    }
}

/// How Java writes an assignment operator (JLS 15.26).
pub open spec fn assign_spelling(op: AssignOp) -> Seq<char> {
    match op {
        AssignOp::Plain => seq!['='],
        AssignOp::Add => seq!['+', '='],
        AssignOp::Sub => seq!['-', '='],
        AssignOp::Mul => seq!['*', '='],
        AssignOp::Div => seq!['/', '='],
        AssignOp::Rem => seq!['%', '='],
        AssignOp::Shl => seq!['<', '<', '='],
        AssignOp::Shr => seq!['>', '>', '='],
        AssignOp::Ushr => seq!['>', '>', '>', '='],
        AssignOp::And => seq!['&', '='],
        AssignOp::Or => seq!['|', '='],
        AssignOp::Xor => seq!['^', '='],
    }
}

} // verus!
