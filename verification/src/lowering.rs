//! Lowering: from the syntax tree and expression tokens to the HIR, whose bodies are
//! well formed (children stored before their parents) by construction.
use vstd::prelude::*;
use crate::hir::{
    Body, CapturedField, Expr, ExprId, Import, Package, Stmt, StmtId, SwitchCase, TypeDecl, case_body, expr_children_below,
    stmt_children_ok, stmt_value,
};
use crate::resolver::{resolve_class_name, resolve_import, resolve_internal_class_name};
use crate::platform::{package_name_of, platform_classes};
use crate::syntax::SyntaxKind;
use crate::text::{concat_str, push_char, replace_char, replace_char_exec, str_eq, chars_of, string_of};
use crate::ty::{Ty, TyModel};
use crate::diagnostics::TextRange;

verus! {

/// Why lowering failed.
#[derive(Debug, Clone, PartialEq, Eq)]
pub enum LowerError {
    ExpectedCompilationUnit,
    UnsupportedTypeDeclaration,
    ExpectedSingleTopLevelClass,
    UnsupportedClassMember,
    MissingClassName,
    MissingImportName,
    MissingMethodName,
    MissingType,
    UnsupportedExpression,
    /// An unsupported expression at a token: its line and its byte range.
    UnsupportedExpressionAt { line: u16, range: Option<TextRange> },
    PatternVariableOutOfScope(String),
    UnknownType(String),
    /// An import that names no known class or package, with its line.
    UnknownImport { name: String, line: u16 },
}


/// An import that names no known class or package; a static import never is.
pub open spec fn import_unknown(i: Import) -> bool {
    &&& !i.is_static
    &&& if i.is_wildcard {
        !exists|j: int|
            0 <= j < platform_classes().len() && package_name_of(#[trigger] platform_classes()[j]) == replace_char(
                i.path@,
                '.',
                '/',
            )
    } else {
        !platform_classes().contains(replace_char(i.path@, '.', '/'))
    }
}

/// The message of a lowering error.
pub open spec fn error_message(e: LowerError) -> Seq<char> {
    match e {
        LowerError::ExpectedCompilationUnit => "expected compilation unit"@,
        LowerError::UnsupportedTypeDeclaration => "only class declarations are supported yet"@,
        LowerError::ExpectedSingleTopLevelClass => "expected one top-level class"@,
        LowerError::UnsupportedClassMember => "unsupported class member"@,
        LowerError::MissingClassName => "class declaration is missing a name"@,
        LowerError::MissingImportName => "import declaration is missing a name"@,
        LowerError::MissingMethodName => "method declaration is missing a name"@,
        LowerError::MissingType => "type syntax is missing"@,
        LowerError::UnsupportedExpression => "unsupported expression"@,
        LowerError::UnsupportedExpressionAt { .. } => "unsupported expression"@,
        LowerError::PatternVariableOutOfScope(name) => "pattern variable `"@ + name@ + "` is not in scope"@,
        LowerError::UnknownType(name) => "cannot find symbol: class "@ + name@,
        LowerError::UnknownImport { name, .. } => "package or class does not exist: "@ + name@,
    }
}

impl LowerError {
    /// The error's message.
    pub fn message(&self) -> (r: String)
        ensures
            r@ == error_message(*self),
    {
        match self {
            LowerError::ExpectedCompilationUnit => String::from_str("expected compilation unit"),
            LowerError::UnsupportedTypeDeclaration => String::from_str("only class declarations are supported yet"),
            LowerError::ExpectedSingleTopLevelClass => String::from_str("expected one top-level class"),
            LowerError::UnsupportedClassMember => String::from_str("unsupported class member"),
            LowerError::MissingClassName => String::from_str("class declaration is missing a name"),
            LowerError::MissingImportName => String::from_str("import declaration is missing a name"),
            LowerError::MissingMethodName => String::from_str("method declaration is missing a name"),
            LowerError::MissingType => String::from_str("type syntax is missing"),
            LowerError::UnsupportedExpression => String::from_str("unsupported expression"),
            LowerError::UnsupportedExpressionAt { .. } => String::from_str("unsupported expression"),
            LowerError::PatternVariableOutOfScope(name) => {
                let mut m = String::from_str("pattern variable `");
                m.append(name.as_str());
                m.append("` is not in scope");
                m
            },
            LowerError::UnknownType(name) => concat_str("cannot find symbol: class ", name.as_str()),
            LowerError::UnknownImport { name, .. } => concat_str("package or class does not exist: ", name.as_str()),
        }
    }
}

/// A token of an expression, as the expression lowerer reads it: its kind,
/// its text, the line it stands on and its byte range in the source.
#[derive(Debug, Clone)]
pub struct ExprToken {
    pub kind: SyntaxKind,
    pub text: String,
    pub line: u16,
    pub range: TextRange,
}

/// The line an import is reported at: its own, else the first.
pub open spec fn import_line(i: Import) -> u16 {
    match i.source_line {
        Some(l) => l,
        None => 1,
    }
}

/// Resolves type names: the current class, exact imports, `java.lang`, then
/// wildcard imports (including the class's own package).
#[derive(Debug, Clone)]
pub struct TypeResolver {
    pub exact_imports: Vec<(String, String)>,
    pub wildcard_imports: Vec<String>,
    pub current_class: Option<String>,
}

/// The part of `s` after its last `c` (all of `s` when it has none).
pub open spec fn after_last(s: Seq<char>, c: char) -> Seq<char> {
    if exists|i: int| 0 <= i < s.len() && s[i] == c {
        let i = choose|i: int| 0 <= i < s.len() && s[i] == c && forall|j: int| i < j < s.len() ==> s[j] != c;
        s.subrange(i + 1, s.len() as int)
    } else {
        s
    }
}

/// The part of `s` after its last `c`.
pub fn after_last_exec(s: &str, c: char) -> (r: String)
    ensures
        r@ == after_last(s@, c),
{
    let cs = chars_of(s);
    let mut i: usize = cs.len();
    while i > 0
        invariant
            cs@ == s@,
            i <= cs@.len(),
            forall|j: int| i <= j < cs@.len() ==> cs@[j] != c,
        decreases i,
    {
        if cs[i - 1] == c {
            let r = string_of(&cs.as_slice()[i..cs.len()]);
            proof {
                let k = (i - 1) as int;
                let w = choose|w: int| 0 <= w < s@.len() && s@[w] == c && forall|j: int| w < j < s@.len() ==> s@[j] != c;
                assert(w == k) by {
                    if w < k {
                        assert(s@[k] == c);
                    } else if w > k {
                        assert(s@[w] != c);
                    }
                }
            }
            return r;
        }
        i = i - 1;
    }
    proof {
        assert(!exists|i: int| 0 <= i < s@.len() && s@[i] == c);
    }
    String::from_str(s)
}

pub fn contains_char(s: &str, c: char) -> (r: bool)
    ensures
        r == exists|i: int| 0 <= i < s@.len() && s@[i] == c,
{
    let cs = chars_of(s);
    let mut i: usize = 0;
    while i < cs.len()
        invariant
            cs@ == s@,
            i <= cs@.len(),
            forall|j: int| 0 <= j < i ==> cs@[j] != c,
        decreases cs@.len() - i,
    {
        if cs[i] == c {
            return true;
        }
        i = i + 1;
    }
    false
}

impl TypeResolver {
    /// A resolver with no imports and no current class.
    pub fn empty() -> (r: TypeResolver)
        ensures
            r.exact_imports@.len() == 0,
            r.wildcard_imports@.len() == 0,
            r.current_class is None,
    {
        TypeResolver { exact_imports: Vec::new(), wildcard_imports: Vec::new(), current_class: None }
    }

    /// The resolver for `current_class`: its imports in order, then its package as a
    /// wildcard import. The first import that names no platform class or package
    /// is the error.
    pub fn for_class(package: Option<&Package>, imports: &Vec<Import>, current_class: &str) -> (r: Result<TypeResolver, LowerError>)
        ensures
            r matches Ok(t) ==> t.current_class matches Some(c) && c@ == current_class@,
            r matches Ok(t) ==> (package matches Some(p) ==> t.wildcard_imports@.len() > 0
                && t.wildcard_imports@.last()@ == replace_char(p.name@, '.', '/')),
            r matches Err(e) ==> e is UnknownImport,
            r is Err <==> exists|i: int| 0 <= i < imports@.len() && import_unknown(#[trigger] imports@[i]),
            forall|i: int|
                0 <= i < imports@.len() && import_unknown(#[trigger] imports@[i]) && (forall|j: int|
                    0 <= j < i ==> !import_unknown(imports@[j])) ==> r == Err::<TypeResolver, LowerError>(
                    LowerError::UnknownImport { name: imports@[i].path, line: import_line(imports@[i]) },
                ),
    {
        let mut resolver = TypeResolver {
            exact_imports: Vec::new(),
            wildcard_imports: Vec::new(),
            current_class: Some(String::from_str(current_class)),
        };
        let mut i: usize = 0;
        while i < imports.len()
            invariant
                i <= imports@.len(),
                resolver.current_class matches Some(c) && c@ == current_class@,
                forall|j: int| 0 <= j < i ==> !import_unknown(#[trigger] imports@[j]),
            decreases imports@.len() - i,
        {
            match resolver.add_import(&imports[i]) {
                Ok(()) => {},
                Err(e) => {
                    proof {
                        assert forall|k: int|
                            0 <= k < imports@.len() && import_unknown(#[trigger] imports@[k]) && (forall|j: int|
                                0 <= j < k ==> !import_unknown(imports@[j])) implies k == i by {
                            if k > i {
                                assert(import_unknown(imports@[i as int]));
                            }
                        }
                    }
                    return Err(e);
                },
            }
            i = i + 1;
        }
        match package {
            Some(p) => resolver.wildcard_imports.push(replace_char_exec(p.name.as_str(), '.', '/')),
            None => {},
        }
        Ok(resolver)
    }

    /// Adds one import: a static import is skipped; a wildcard import adds its
    /// package; any other adds its simple name; an unknown one is an error.
    pub fn add_import(&mut self, import: &Import) -> (r: Result<(), LowerError>)
        ensures
            final(self).current_class == old(self).current_class,
            import.is_static ==> r is Ok && final(self).exact_imports@ == old(self).exact_imports@
                && final(self).wildcard_imports@ == old(self).wildcard_imports@,
            r matches Err(e) ==> e == (LowerError::UnknownImport { name: import.path, line: import_line(*import) }),
            r is Err <==> import_unknown(*import),
            (r is Ok && !import.is_static && import.is_wildcard) ==> final(self).wildcard_imports@.len()
                == old(self).wildcard_imports@.len() + 1 && final(self).wildcard_imports@.last()@ == replace_char(
                import.path@,
                '.',
                '/',
            ),
            (r is Ok && !import.is_static && !import.is_wildcard) ==> final(self).exact_imports@.len()
                == old(self).exact_imports@.len() + 1 && final(self).exact_imports@.last().0@ == after_last(
                import.path@,
                '.',
            ) && final(self).exact_imports@.last().1@ == replace_char(import.path@, '.', '/'),
    {
        if import.is_static {
            return Ok(());
        }
        let path = import.path.as_str();
        if resolve_import(path, import.is_wildcard).is_none() {
            let line: u16 = match import.source_line {
                Some(l) => l,
                None => 1,
            };
            return Err(LowerError::UnknownImport { name: import.path.clone(), line });
        }
        let internal = replace_char_exec(path, '.', '/');
        if import.is_wildcard {
            self.wildcard_imports.push(internal);
        } else {
            let simple = after_last_exec(path, '.');
            self.exact_imports.push((simple, internal));
        }
        Ok(())
    }

    /// The current class, when `name` is its simple name.
    pub fn current_class_name(&self, name: &str) -> (r: Option<String>)
        ensures
            r matches Some(c) ==> self.current_class matches Some(cur) && c@ == cur@ && after_last(cur@, '/') == name@,
            r is None ==> !(self.current_class matches Some(cur) && after_last(cur@, '/') == name@),
    {
        match &self.current_class {
            Some(cur) => {
                let simple = after_last_exec(cur.as_str(), '/');
                if str_eq(simple.as_str(), name) {
                    Some(cur.clone())
                } else {
                    None
                }
            },
            None => None,
        }
    }

    /// The internal name of the current class, if any.
    pub fn current_class_ty(&self) -> (r: Ty)
        ensures
            self.current_class matches Some(c) ==> r@ == TyModel::Class(c@),
    {
        match &self.current_class {
            Some(c) => Ty::Class(c.clone()),
            None => Ty::object(),
        }
    }

    /// Resolves a type name written in source: a type variable, the current
    /// class, a qualified platform class, an exact import, a `java.lang` class, or a
    /// class of a wildcard-imported package; otherwise `UnknownType`.
    #[verifier::loop_isolation(false)]
    pub fn resolve_type_name(&self, name: &str, type_vars: &Vec<String>) -> (r: Result<Ty, LowerError>)
        ensures
            r matches Err(e) ==> (e matches LowerError::UnknownType(n) && n@ == name@),
            (self.current_class matches Some(cur) && after_last(cur@, '/') == name@ && !(exists|i: int|
                0 <= i < type_vars@.len() && type_vars@[i]@ == name@)) ==> (r matches Ok(t) && t@ == TyModel::Class(
                self.current_class->0@,
            )),
    {
        let dotted = contains_char(name, '.');
        if !dotted {
            let mut i: usize = 0;
            while i < type_vars.len()
                invariant
                    i <= type_vars@.len(),
                    forall|j: int| 0 <= j < i ==> type_vars@[j]@ != name@,
                decreases type_vars@.len() - i,
            {
                if str_eq(type_vars[i].as_str(), name) {
                    return Ok(Ty::TypeVar(String::from_str(name)));
                }
                i = i + 1;
            }
        }
        match self.current_class_name(name) {
            Some(c) => {
                return Ok(Ty::Class(c));
            },
            None => {},
        }
        if dotted {
            let internal = replace_char_exec(name, '.', '/');
            if resolve_internal_class_name(internal.as_str()).is_some() {
                return Ok(Ty::Class(internal));
            }
            return Err(LowerError::UnknownType(String::from_str(name)));
        }
        let mut k: usize = 0;
        while k < self.exact_imports.len()
            invariant
                k <= self.exact_imports@.len(),
            decreases self.exact_imports@.len() - k,
        {
            if str_eq(self.exact_imports[k].0.as_str(), name) {
                return Ok(Ty::Class(self.exact_imports[k].1.clone()));
            }
            k = k + 1;
        }
        match resolve_class_name(name) {
            Some(internal) => {
                if starts_with_java_lang(internal) {
                    return Ok(Ty::Class(String::from_str(internal)));
                }
            },
            None => {},
        }
        let mut w: usize = 0;
        while w < self.wildcard_imports.len()
            invariant
                w <= self.wildcard_imports@.len(),
            decreases self.wildcard_imports@.len() - w,
        {
            let mut internal = self.wildcard_imports[w].clone();
            internal.append("/");
            internal.append(name);
            if resolve_internal_class_name(internal.as_str()).is_some() {
                return Ok(Ty::Class(internal));
            }
            w = w + 1;
        }
        Err(LowerError::UnknownType(String::from_str(name)))
    }
}

/// Whether an internal name lies under `java/lang/`.
pub fn starts_with_java_lang(s: &str) -> (r: bool)
    ensures
        r == (s@.len() >= 10 && s@.subrange(0, 10) == "java/lang/"@),
{
    let prefix = "java/lang/";
    proof {
        reveal_strlit("java/lang/");
    }
    if s.unicode_len() < 10 {
        return false;
    }
    let head = s.substring_char(0, 10);
    str_eq(head, prefix)
}

/// `new` extends `old`: expressions and statements are only added, and the body
/// stays well formed.
pub open spec fn body_grows(new: &Body, old: &Body) -> bool {
    &&& new.wf()
    &&& old.exprs@.len() <= new.exprs@.len()
    &&& new.exprs@.subrange(0, old.exprs@.len() as int) == old.exprs@
    &&& old.stmts@.len() <= new.stmts@.len()
    &&& new.stmts@.subrange(0, old.stmts@.len() as int) == old.stmts@
}

pub proof fn lemma_grows_refl(b: &Body)
    requires
        b.wf(),
    ensures
        body_grows(b, b),
{
    assert(b.exprs@.subrange(0, b.exprs@.len() as int) =~= b.exprs@);
    assert(b.stmts@.subrange(0, b.stmts@.len() as int) =~= b.stmts@);
}

pub proof fn lemma_grows_trans(a: &Body, b: &Body, c: &Body)
    requires
        body_grows(b, a),
        body_grows(c, b),
    ensures
        body_grows(c, a),
{
    assert(c.exprs@.subrange(0, a.exprs@.len() as int) =~= c.exprs@.subrange(0, b.exprs@.len() as int).subrange(
        0,
        a.exprs@.len() as int,
    ));
    assert(c.stmts@.subrange(0, a.stmts@.len() as int) =~= c.stmts@.subrange(0, b.stmts@.len() as int).subrange(
        0,
        a.stmts@.len() as int,
    ));
}

/// An expression kind the lowerer allocates: never a `switch`.
pub open spec fn allocatable(e: Expr, n: int) -> bool {
    &&& expr_children_below(e, n)
    &&& !(e is Switch)
}

impl Body {
    /// Stores an expression whose children are already stored; its id is the old length.
    pub fn alloc_expr(&mut self, e: Expr) -> (r: ExprId)
        requires
            old(self).wf(),
            allocatable(e, old(self).exprs@.len() as int),
        ensures
            r == old(self).exprs@.len(),
            final(self).exprs@ == old(self).exprs@.push(e),
            final(self).stmts@ == old(self).stmts@,
            body_grows(final(self), old(self)),
    {
        let id = self.exprs.len();
        self.exprs.push(e);
        proof {
            let n = id as int;
            let ex = self.exprs@;
            assert forall|i: int| 0 <= i < ex.len() implies expr_children_below(ex[i], i) by {
                if i < n {
                    assert(ex[i] == old(self).exprs@[i]);
                }
            }
            assert forall|i: int| 0 <= i < self.stmts@.len() implies stmt_children_ok(
                self.stmts@[i],
                i,
                ex.len() as int,
            ) by {
                assert(stmt_children_ok(old(self).stmts@[i], i, n));
            }
            assert forall|i: int| 0 <= i < ex.len() implies (#[trigger] ex[i] matches Expr::Switch { cases, .. }
                ==> forall|c: int, k: int|
                #![trigger case_body(cases@[c])[k]]
                0 <= c < cases@.len() && 0 <= k < case_body(cases@[c]).len() ==> {
                    let sid = case_body(cases@[c])[k];
                    &&& 0 <= sid < self.stmts@.len()
                    &&& (stmt_value(self.stmts@[sid as int]) matches Some(v) ==> v < i)
                    &&& (cases@[c] matches SwitchCase::Case { pattern, .. } ==> pattern < i)
                }) by {
                if i < n {
                    assert(ex[i] == old(self).exprs@[i]);
                }
            }
            assert(ex.subrange(0, n) =~= old(self).exprs@);
            assert(self.stmts@.subrange(0, self.stmts@.len() as int) =~= self.stmts@);
        }
        id
    }

    /// Stores a statement whose children are already stored; its id is the old length.
    pub fn alloc_stmt(&mut self, s: Stmt) -> (r: StmtId)
        requires
            old(self).wf(),
            stmt_children_ok(s, old(self).stmts@.len() as int, old(self).exprs@.len() as int),
        ensures
            r == old(self).stmts@.len(),
            final(self).stmts@ == old(self).stmts@.push(s),
            final(self).exprs@ == old(self).exprs@,
            body_grows(final(self), old(self)),
    {
        let id = self.stmts.len();
        self.stmts.push(s);
        proof {
            let n = id as int;
            let st = self.stmts@;
            assert forall|i: int| 0 <= i < st.len() implies stmt_children_ok(st[i], i, self.exprs@.len() as int) by {
                if i < n {
                    assert(st[i] == old(self).stmts@[i]);
                }
            }
            assert forall|i: int| 0 <= i < self.exprs@.len() implies (#[trigger] self.exprs@[i] matches Expr::Switch {
                cases,
                ..
            } ==> forall|c: int, k: int|
                #![trigger case_body(cases@[c])[k]]
                0 <= c < cases@.len() && 0 <= k < case_body(cases@[c]).len() ==> {
                    let sid = case_body(cases@[c])[k];
                    &&& 0 <= sid < st.len()
                    &&& (stmt_value(st[sid as int]) matches Some(v) ==> v < i)
                    &&& (cases@[c] matches SwitchCase::Case { pattern, .. } ==> pattern < i)
                }) by {
                if let Expr::Switch { cases, .. } = self.exprs@[i] {
                    assert forall|c: int, k: int|
                        #![trigger case_body(cases@[c])[k]]
                        0 <= c < cases@.len() && 0 <= k < case_body(cases@[c]).len() implies {
                        let sid = case_body(cases@[c])[k];
                        &&& 0 <= sid < st.len()
                        &&& (stmt_value(st[sid as int]) matches Some(v) ==> v < i)
                        &&& (cases@[c] matches SwitchCase::Case { pattern, .. } ==> pattern < i)
                    } by {
                        let sid = case_body(cases@[c])[k];
                        assert(0 <= sid < n);
                        assert(st[sid as int] == old(self).stmts@[sid as int]);
                    }
                }
            }
            assert(st.subrange(0, n) =~= old(self).stmts@);
            assert(self.exprs@.subrange(0, self.exprs@.len() as int) =~= self.exprs@);
        }
        id
    }
}

/// What a body is lowered with: the body, name scopes, and what anonymous
/// classes need.
#[derive(Debug)]
pub struct BodyBuilder {
    pub body: Body,
    pub type_resolver: TypeResolver,
    pub local_scopes: Vec<Vec<(String, Ty)>>,
    pub pattern_names: Vec<String>,
    pub anonymous_types: Vec<TypeDecl>,
    pub anonymous_counter: u32,
    pub can_capture_this: bool,
    pub enclosing_static_owner: Option<String>,
    pub outer_fields: Vec<CapturedField>,
}

/// `new` extends `old`'s body and keeps its resolver and context.
pub open spec fn builder_grows(new: &BodyBuilder, old: &BodyBuilder) -> bool {
    &&& body_grows(&new.body, &old.body)
    &&& new.type_resolver == old.type_resolver
    &&& new.can_capture_this == old.can_capture_this
    &&& new.enclosing_static_owner == old.enclosing_static_owner
}

impl BodyBuilder {
    /// A builder with an empty body; the current class, if any,
    /// is where static fields are looked up.
    pub fn new(type_resolver: TypeResolver) -> (r: BodyBuilder)
        ensures
            r.body.wf(),
            r.body.exprs@.len() == 0,
            r.body.stmts@.len() == 0,
            r.local_scopes@.len() == 0,
            r.type_resolver == type_resolver,
            r.pattern_names@.len() == 0,
            r.anonymous_types@.len() == 0,
            r.anonymous_counter == 0,
            !r.can_capture_this,
            r.outer_fields@.len() == 0,
            match type_resolver.current_class {
                Some(c) => r.enclosing_static_owner matches Some(o) && o@ == c@,
                None => r.enclosing_static_owner is None,
            },
    {
        let owner = match &type_resolver.current_class {
            Some(c) => Some(c.clone()),
            None => None,
        };
        BodyBuilder {
            body: Body::new(),
            type_resolver,
            local_scopes: Vec::new(),
            pattern_names: Vec::new(),
            anonymous_types: Vec::new(),
            anonymous_counter: 0,
            can_capture_this: false,
            enclosing_static_owner: owner,
            outer_fields: Vec::new(),
        }
    }

    pub fn enter_scope(&mut self)
        ensures
            final(self).local_scopes@.len() == old(self).local_scopes@.len() + 1,
            final(self).local_scopes@.drop_last() == old(self).local_scopes@,
            final(self).local_scopes@.last()@.len() == 0,
            final(self).pattern_names == old(self).pattern_names,
            final(self).body == old(self).body,
            final(self).type_resolver == old(self).type_resolver,
            final(self).can_capture_this == old(self).can_capture_this,
            final(self).enclosing_static_owner == old(self).enclosing_static_owner,
    {
        self.local_scopes.push(Vec::new());
    }

    pub fn exit_scope(&mut self)
        ensures
            old(self).local_scopes@.len() > 0 ==> final(self).local_scopes@ == old(self).local_scopes@.drop_last(),
            old(self).local_scopes@.len() == 0 ==> final(self).local_scopes@ == old(self).local_scopes@,
            final(self).body == old(self).body,
            final(self).type_resolver == old(self).type_resolver,
            final(self).can_capture_this == old(self).can_capture_this,
            final(self).enclosing_static_owner == old(self).enclosing_static_owner,
    {
        if self.local_scopes.len() > 0 {
            self.local_scopes.pop();
        }
    }

    /// Binds `name` to `ty` in the innermost scope (opening one when there is none).
    pub fn define_local(&mut self, name: &str, ty: Ty)
        ensures
            final(self).local_scopes@.len() >= 1,
            final(self).local_scopes@.last()@.len() >= 1,
            final(self).local_scopes@.last()@.last().0@ == name@,
            final(self).local_scopes@.last()@.last().1 == ty,
            final(self).local_scopes@.len() == old(self).local_scopes@.len() || (old(self).local_scopes@.len() == 0
                && final(self).local_scopes@.len() == 1),
            final(self).pattern_names == old(self).pattern_names,
            final(self).body == old(self).body,
            final(self).type_resolver == old(self).type_resolver,
            final(self).can_capture_this == old(self).can_capture_this,
            final(self).enclosing_static_owner == old(self).enclosing_static_owner,
    {
        if self.local_scopes.len() == 0 {
            self.enter_scope();
        }
        let last = self.local_scopes.len() - 1;
        let mut scope = self.local_scopes.remove(last);
        scope.push((String::from_str(name), ty));
        self.local_scopes.push(scope);
    }

    /// Binds a pattern variable, remembering that it is one.
    pub fn define_pattern_local(&mut self, name: &str, ty: Ty)
        ensures
            final(self).pattern_names@.len() == old(self).pattern_names@.len() + 1,
            final(self).pattern_names@.drop_last() == old(self).pattern_names@,
            final(self).pattern_names@.last()@ == name@,
            final(self).local_scopes@.len() >= 1,
            final(self).local_scopes@.last()@.len() >= 1,
            final(self).local_scopes@.last()@.last().0@ == name@,
            final(self).local_scopes@.last()@.last().1 == ty,
            final(self).body == old(self).body,
            final(self).type_resolver == old(self).type_resolver,
            final(self).can_capture_this == old(self).can_capture_this,
            final(self).enclosing_static_owner == old(self).enclosing_static_owner,
    {
        self.pattern_names.push(String::from_str(name));
        self.define_local(name, ty);
    }

    /// The type of the innermost binding of `name`, if any.
    pub fn local_ty(&self, name: &str) -> (r: Option<Ty>)
        ensures
            r is None <==> forall|s: int, k: int|
                0 <= s < self.local_scopes@.len() && 0 <= k < self.local_scopes@[s]@.len() ==> self.local_scopes@[s]@[k].0@
                    != name@,
    {
        let mut s = self.local_scopes.len();
        while s > 0
            invariant
                s <= self.local_scopes@.len(),
                forall|a: int, k: int|
                    s <= a < self.local_scopes@.len() && 0 <= k < self.local_scopes@[a]@.len() ==> self.local_scopes@[a]@[k].0@
                        != name@,
            decreases s,
        {
            let scope = &self.local_scopes[s - 1];
            let mut k = scope.len();
            while k > 0
                invariant
                    0 < s <= self.local_scopes@.len(),
                    *scope == self.local_scopes@[s - 1],
                    k <= scope@.len(),
                    forall|j: int| k <= j < scope@.len() ==> scope@[j].0@ != name@,
                decreases k,
            {
                if str_eq(scope[k - 1].0.as_str(), name) {
                    proof {
                        assert(self.local_scopes@[s - 1]@[k - 1].0@ == name@);
                    }
                    return Some(scope[k - 1].1.copy());
                }
                k = k - 1;
            }
            s = s - 1;
        }
        None
    }

    /// Whether `name` is a pattern variable that is no longer in scope.
    pub fn pattern_name_is_out_of_scope(&self, name: &str) -> (r: bool)
        ensures
            r == ((exists|i: int| 0 <= i < self.pattern_names@.len() && self.pattern_names@[i]@ == name@) && forall|
                s: int,
                k: int,
            |
                0 <= s < self.local_scopes@.len() && 0 <= k < self.local_scopes@[s]@.len() ==> self.local_scopes@[s]@[k].0@
                    != name@),
    {
        let mut known = false;
        let mut i: usize = 0;
        while i < self.pattern_names.len()
            invariant
                i <= self.pattern_names@.len(),
                known == exists|j: int| 0 <= j < i && self.pattern_names@[j]@ == name@,
            decreases self.pattern_names@.len() - i,
        {
            if str_eq(self.pattern_names[i].as_str(), name) {
                known = true;
            }
            i = i + 1;
        }
        known && self.local_ty(name).is_none()
    }

    /// The type of an expression while lowering: names as locals, then captured
    /// outer fields; anything else as it stands.
    #[verifier::loop_isolation(false)]
    pub fn expr_ty(&self, id: ExprId) -> (r: Ty)
        requires
            self.body.wf(),
            id < self.body.exprs@.len(),
        ensures
            !(self.body.exprs@[id as int] is Ident) ==> r@ == crate::codegen::base_ty(self.body.exprs@, id as int),
    {
        match &self.body.exprs[id] {
            Expr::Ident(name) => match self.local_ty(name.as_str()) {
                Some(t) => t,
                None => {
                    let mut i: usize = 0;
                    while i < self.outer_fields.len()
                        invariant
                            i <= self.outer_fields@.len(),
                        decreases self.outer_fields@.len() - i,
                    {
                        if str_eq(self.outer_fields[i].name.as_str(), name.as_str()) {
                            return self.outer_fields[i].ty.copy();
                        }
                        i = i + 1;
                    }
                    crate::codegen::base_type(&self.body, id)
                },
            },
            _ => crate::codegen::base_type(&self.body, id),
        }
    }

    /// Stores an expression.
    pub fn alloc_expr(&mut self, e: Expr) -> (r: ExprId)
        requires
            old(self).body.wf(),
            allocatable(e, old(self).body.exprs@.len() as int),
        ensures
            r == old(self).body.exprs@.len(),
            r < final(self).body.exprs@.len(),
            final(self).body.exprs@ == old(self).body.exprs@.push(e),
            final(self).body.stmts@ == old(self).body.stmts@,
            builder_grows(final(self), old(self)),
            final(self).local_scopes == old(self).local_scopes,
            final(self).anonymous_types == old(self).anonymous_types,
            final(self).anonymous_counter == old(self).anonymous_counter,
    {
        self.body.alloc_expr(e)
    }

    /// Stores a statement.
    pub fn alloc_stmt(&mut self, s: Stmt) -> (r: StmtId)
        requires
            old(self).body.wf(),
            stmt_children_ok(s, old(self).body.stmts@.len() as int, old(self).body.exprs@.len() as int),
        ensures
            r == old(self).body.stmts@.len(),
            r < final(self).body.stmts@.len(),
            final(self).body.stmts@ == old(self).body.stmts@.push(s),
            final(self).body.exprs@ == old(self).body.exprs@,
            builder_grows(final(self), old(self)),
            final(self).local_scopes == old(self).local_scopes,
            final(self).anonymous_types == old(self).anonymous_types,
            final(self).anonymous_counter == old(self).anonymous_counter,
    {
        self.body.alloc_stmt(s)
    }
}


pub proof fn lemma_builder_refl(b: &BodyBuilder)
    requires
        b.body.wf(),
    ensures
        builder_grows(b, b),
{
    lemma_grows_refl(&b.body);
}

pub proof fn lemma_builder_trans(a: &BodyBuilder, b: &BodyBuilder, c: &BodyBuilder)
    requires
        builder_grows(b, a),
        builder_grows(c, b),
    ensures
        builder_grows(c, a),
{
    lemma_grows_trans(&a.body, &b.body, &c.body);
}

/// Growth of a builder is transitive.
pub broadcast proof fn lemma_builder_chain(a: &BodyBuilder, b: &BodyBuilder, c: &BodyBuilder)
    requires
        builder_grows(b, a),
        builder_grows(c, b),
    ensures
        #![trigger builder_grows(b, a), builder_grows(c, b)]
        builder_grows(c, a),
{
    lemma_grows_trans(&a.body, &b.body, &c.body);
}

/// The value of digits `d` in `radix`, ignoring `_` separators.
pub open spec fn digits_value(d: Seq<char>, radix: int) -> int
    decreases d.len(),
{
    if d.len() == 0 {
        0
    } else if d.last() == '_' {
        digits_value(d.drop_last(), radix)
    } else {
        digits_value(d.drop_last(), radix) * radix + digit_of(d.last())
    }
}

pub open spec fn digit_of(c: char) -> int {
    if '0' <= c && c <= '9' {
        (c as int) - ('0' as int)
    } else if 'a' <= c && c <= 'f' {
        (c as int) - ('a' as int) + 10
    } else if 'A' <= c && c <= 'F' {
        (c as int) - ('A' as int) + 10
    } else {
        0
    }
}

fn digit_exec(c: char) -> (r: i64)
    ensures
        r == digit_of(c),
        0 <= r < 16,
{
    let v = crate::numeric::char_code(c);
    if '0' <= c && c <= '9' {
        v - 48
    } else if 'a' <= c && c <= 'f' {
        v - 97 + 10
    } else if 'A' <= c && c <= 'F' {
        v - 65 + 10
    } else {
        0
    }
}

/// The radix of an integer literal and where its digits start: `0x` hex, `0b`
/// binary, a leading `0` octal, else decimal.
pub open spec fn literal_radix(t: Seq<char>) -> (int, int) {
    if t.len() >= 2 && t[0] == '0' && (t[1] == 'x' || t[1] == 'X') {
        (16, 2)
    } else if t.len() >= 2 && t[0] == '0' && (t[1] == 'b' || t[1] == 'B') {
        (2, 2)
    } else if t.len() >= 2 && t[0] == '0' {
        (8, 1)
    } else {
        (10, 0)
    }
}

/// The text without a trailing `l`/`L`.
pub open spec fn without_long_suffix(t: Seq<char>) -> Seq<char> {
    if t.len() > 0 && (t.last() == 'l' || t.last() == 'L') {
        t.drop_last()
    } else {
        t
    }
}

/// The value an integer literal spells.
pub open spec fn int_literal_value(text: Seq<char>) -> int {
    let t = without_long_suffix(text);
    let (radix, start) = literal_radix(t);
    digits_value(t.subrange(start, t.len() as int), radix)
}

/// The value of an integer literal (`parse_int_literal`, `parse_long_literal`): exact
/// when it fits in 63 bits; larger values keep their low 64 bits.
pub fn parse_int_literal(text: &str) -> (r: i64)
    ensures
        0 <= int_literal_value(text@) <= i64::MAX ==> r == int_literal_value(text@),
{
    let all = chars_of(text);
    let n0 = all.len();
    let n = if n0 > 0 && (all[n0 - 1] == 'l' || all[n0 - 1] == 'L') {
        n0 - 1
    } else {
        n0
    };
    let ghost t = without_long_suffix(text@);
    proof {
        assert(all@.subrange(0, n as int) =~= t);
    }
    let (radix, start): (i64, usize) = if n >= 2 && all[0] == '0' && (all[1] == 'x' || all[1] == 'X') {
        (16, 2)
    } else if n >= 2 && all[0] == '0' && (all[1] == 'b' || all[1] == 'B') {
        (2, 2)
    } else if n >= 2 && all[0] == '0' {
        (8, 1)
    } else {
        (10, 0)
    };
    proof {
        assert(literal_radix(t) == (radix as int, start as int));
    }
    let mut acc: i64 = 0;
    let mut exact = true;
    let mut i = start;
    while i < n
        invariant
            start <= i <= n <= all@.len(),
            all@.subrange(0, n as int) == t,
            literal_radix(t) == (radix as int, start as int),
            2 <= radix <= 16,
            exact ==> acc == digits_value(t.subrange(start as int, i as int), radix as int),
            exact ==> 0 <= acc,
            !exact ==> digits_value(t.subrange(start as int, i as int), radix as int) > i64::MAX,
        decreases n - i,
    {
        let c = all[i];
        let ghost prev = t.subrange(start as int, i as int);
        let ghost next = t.subrange(start as int, i + 1);
        proof {
            assert(next.drop_last() =~= prev);
            assert(next.last() == c);
            lemma_digits_nonneg(prev, radix as int);
        }
        if c != '_' {
            let d = digit_exec(c);
            if exact {
                match acc.checked_mul(radix) {
                    Some(m) => match m.checked_add(d) {
                        Some(v) => {
                            acc = v;
                        },
                        None => {
                            exact = false;
                            acc = m.wrapping_add(d);
                        },
                    },
                    None => {
                        exact = false;
                        acc = acc.wrapping_mul(radix).wrapping_add(d);
                    },
                }
            } else {
                acc = acc.wrapping_mul(radix).wrapping_add(d);
                proof {
                    assert(digits_value(prev, radix as int) * radix >= digits_value(prev, radix as int)) by (nonlinear_arith)
                        requires
                            digits_value(prev, radix as int) >= 0,
                            radix >= 2,
                    ;
                }
            }
        }
        i = i + 1;
    }
    acc
}

pub proof fn lemma_digits_nonneg(d: Seq<char>, radix: int)
    requires
        radix >= 2,
    ensures
        digits_value(d, radix) >= 0,
    decreases d.len(),
{
    if d.len() > 0 {
        lemma_digits_nonneg(d.drop_last(), radix);
        assert(digits_value(d.drop_last(), radix) * radix >= 0) by (nonlinear_arith)
            requires
                digits_value(d.drop_last(), radix) >= 0,
                radix >= 2,
        ;
    }
}

/// Whether a float literal ends in `f` or `F`.
pub fn has_float_suffix(text: &str) -> (r: bool)
    ensures
        r == (text@.len() > 0 && (text@.last() == 'f' || text@.last() == 'F')),
{
    let n = text.unicode_len();
    if n == 0 {
        return false;
    }
    let c = text.get_char(n - 1);
    c == 'f' || c == 'F'
}

/// The characters of `s` other than `_`, in order.
pub open spec fn without_underscores(s: Seq<char>) -> Seq<char>
    decreases s.len(),
{
    if s.len() == 0 {
        Seq::empty()
    } else {
        without_underscores(s.drop_last()) + if s.last() == '_' {
            Seq::<char>::empty()
        } else {
            seq![s.last()]
        }
    }
}

/// A float literal's text without its type suffix (`f`, `F`, `d`, `D`).
pub open spec fn without_float_suffix(s: Seq<char>) -> Seq<char> {
    if s.len() > 0 && (s.last() == 'f' || s.last() == 'F' || s.last() == 'd' || s.last() == 'D') {
        s.drop_last()
    } else {
        s
    }
}

/// A float literal's digits without `_` separators and without a type suffix.
pub fn float_literal_text(text: &str) -> (r: String)
    ensures
        r@ == without_underscores(without_float_suffix(text@)),
        forall|i: int| 0 <= i < r@.len() ==> r@[i] != '_',
{
    let cs = chars_of(text);
    let mut n = cs.len();
    if n > 0 && (cs[n - 1] == 'f' || cs[n - 1] == 'F' || cs[n - 1] == 'd' || cs[n - 1] == 'D') {
        n = n - 1;
    }
    let mut out = String::new();
    let mut i: usize = 0;
    let ghost body = without_float_suffix(text@);
    proof {
        assert(body =~= cs@.take(n as int));
        assert(out@ =~= without_underscores(cs@.take(0)));
    }
    while i < n
        invariant
            i <= n <= cs@.len(),
            cs@ == text@,
            body == cs@.take(n as int),
            forall|k: int| 0 <= k < out@.len() ==> out@[k] != '_',
            out@ == without_underscores(cs@.take(i as int)),
        decreases n - i,
    {
        proof {
            assert(cs@.take(i + 1).drop_last() =~= cs@.take(i as int));
        }
        if cs[i] != '_' {
            push_char(&mut out, cs[i]);
        }
        i = i + 1;
    }
    proof {
        assert(cs@.take(n as int) =~= body);
    }
    out
}

/// `char::from_u32`: the character with this code point, if it is one.
#[verifier::external_body]
fn char_from_code(v: u32) -> (r: Option<char>)
    ensures
        r matches Some(c) ==> c as u32 == v,
        r is None ==> !(v <= 0xD7FF || (0xE000 <= v && v <= 0x10FFFF)),
{
    std::char::from_u32(v)
}

/// The character an escape letter stands for (`\n`, `\t`, ...), if any.
pub open spec fn escape_char(c: char) -> Option<char> {
    if c == 'n' {
        Some('\n')
    } else if c == 't' {
        Some('\t')
    } else if c == 'r' {
        Some('\r')
    } else if c == 'b' {
        Some('\x08')
    } else if c == 'f' {
        Some('\x0C')
    } else if c == 's' {
        Some(' ')
    } else if c == '0' {
        Some('\0')
    } else if c == '\'' || c == '"' || c == '\\' {
        Some(c)
    } else {
        None
    }
}

fn escape_char_exec(c: char) -> (r: Option<char>)
    ensures
        r == escape_char(c),
{
    if c == 'n' {
        Some('\n')
    } else if c == 't' {
        Some('\t')
    } else if c == 'r' {
        Some('\r')
    } else if c == 'b' {
        Some('\x08')
    } else if c == 'f' {
        Some('\x0C')
    } else if c == 's' {
        Some(' ')
    } else if c == '0' {
        Some('\0')
    } else if c == '\'' || c == '"' || c == '\\' {
        Some(c)
    } else {
        None
    }
}

/// Decodes the escapes in `cs[from..to]`: simple escapes, `\uXXXX`; anything else
/// stands for itself.
fn unescape(cs: &Vec<char>, from: usize, to: usize) -> (r: String)
    requires
        from <= to <= cs@.len(),
    ensures
        (forall|k: int| from <= k < to ==> cs@[k] != '\\') ==> r@ == cs@.subrange(from as int, to as int),
{
    let mut out = String::new();
    let mut i = from;
    while i < to
        invariant
            from <= i <= to <= cs@.len(),
            (forall|k: int| from <= k < to ==> cs@[k] != '\\') ==> out@ == cs@.subrange(from as int, i as int),
        decreases to - i,
    {
        let c = cs[i];
        if c == '\\' && to - i >= 2 {
            let e = cs[i + 1];
            if e == 'u' && to - i >= 6 {
                let mut v: u32 = 0;
                let mut ok = true;
                let mut k: usize = i + 2;
                while k < i + 6
                    invariant
                        i + 2 <= k <= i + 6 <= to <= cs@.len(),
                        v < 0x10000,
                        k == i + 2 ==> v == 0,
                        v < pow16(k - (i + 2)),
                    decreases i + 6 - k,
                {
                    let d = cs[k];
                    let is_hex = ('0' <= d && d <= '9') || ('a' <= d && d <= 'f') || ('A' <= d && d <= 'F');
                    if !is_hex {
                        ok = false;
                    }
                    let dv = digit_exec(d);
                    proof {
                        assert(pow16(1) == 16 && pow16(2) == 256 && pow16(3) == 4096 && pow16(4) == 65536) by {
                            reveal_with_fuel(pow16, 5);
                        }
                        assert(v * 16 + 15 < pow16(k + 1 - (i + 2))) by (nonlinear_arith)
                            requires
                                v < pow16(k - (i + 2)),
                                pow16(k + 1 - (i + 2)) == pow16(k - (i + 2)) * 16,
                        ;
                        lemma_pow16_step(k - (i + 2));
                    }
                    v = v * 16 + (dv as u32);
                    k = k + 1;
                }
                match (ok, char_from_code(v)) {
                    (true, Some(ch)) => {
                        push_char(&mut out, ch);
                        i = i + 6;
                    },
                    _ => {
                        push_char(&mut out, c);
                        i = i + 1;
                    },
                }
            } else {
                match escape_char_exec(e) {
                    Some(ch) => {
                        push_char(&mut out, ch);
                        i = i + 2;
                    },
                    None => {
                        push_char(&mut out, e);
                        i = i + 2;
                    },
                }
            }
        } else {
            push_char(&mut out, c);
            i = i + 1;
            proof {
                if forall|k: int| from <= k < to ==> cs@[k] != '\\' {
                    assert(out@ =~= cs@.subrange(from as int, i as int));
                }
            }
        }
    }
    out
}

pub open spec fn pow16(n: int) -> int
    decreases n,
{
    if n <= 0 {
        1
    } else {
        16 * pow16(n - 1)
    }
}

proof fn lemma_pow16_step(n: int)
    requires
        0 <= n,
    ensures
        pow16(n + 1) == pow16(n) * 16,
{
}

/// The value of a string literal: the text between the quotes, escapes decoded.
pub fn string_literal_value(text: &str) -> (r: String)
    ensures
        (text@.len() >= 2 && text@[0] == '"' && text@.last() == '"' && forall|k: int|
            1 <= k < text@.len() - 1 ==> text@[k] != '\\') ==> r@ == text@.subrange(1, text@.len() - 1),
{
    let cs = chars_of(text);
    let n = cs.len();
    if n >= 2 && cs[0] == '"' && cs[n - 1] == '"' {
        unescape(&cs, 1, n - 1)
    } else {
        unescape(&cs, 0, n)
    }
}

/// The character of a char literal: the text between the quotes, an escape
/// decoded.
pub fn parse_char_literal(text: &str) -> (r: char)
    ensures
        (text@.len() == 3 && text@[0] == '\'' && text@[2] == '\'' && text@[1] != '\\') ==> r == text@[1],
{
    let cs = chars_of(text);
    let n = cs.len();
    let (from, to) = if n >= 2 && cs[0] == '\'' && cs[n - 1] == '\'' {
        (1, n - 1)
    } else {
        (0, n)
    };
    let s = unescape(&cs, from, to);
    let sc = chars_of(s.as_str());
    if sc.len() > 0 {
        sc[0]
    } else {
        '\0'
    }
}

} // verus!
