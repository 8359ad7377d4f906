//! Expression lowering: a precedence-climbing reader over an expression's
//! tokens that stores each expression after its operands.
use vstd::prelude::*;
use crate::hir::{
    AnonymousClassInfo, AnonymousObject, ArrayInit, AssignOp, BinaryOp, Block, Body, CapturedField, Expr, ExprId,
    FieldDecl, HirId, LambdaBody, LambdaParam, LocalVarDecl, MethodDecl, OuterThisInfo, ParamDecl, Stmt, StmtId,
    SuperConstructorCall, SwitchCase, TypeDecl, TypeDeclKind, UnaryOp, case_body, expr_children_below,
    stmt_children_ok, stmt_value,
};
use crate::lexer::source_fits;
use crate::lowering::{
    BodyBuilder, ExprToken, LowerError, TypeResolver, after_last, builder_grows, float_literal_text, has_float_suffix, int_literal_value,
    lemma_builder_chain, lemma_builder_refl, lemma_builder_trans, parse_char_literal, parse_int_literal, string_literal_value,
    without_float_suffix, without_underscores,
};
use crate::opcodes;
use crate::hir::{assign_spelling, op_spelling};
use crate::syntax::operator_spelling;
use crate::platform::{is_platform_interface, platform_interfaces};
use crate::parser::{Event, Parser, binding_strength, is_primitive_kind};
use crate::sig::MethodSig;
use crate::syntax::SyntaxKind;
use crate::text::push_char;
use crate::tree_lowering::{
    access_flags, child_node, child_token, expr_tokens, first_child_node, first_child_token, has_code, has_token,
    initializer_tokens, lemma_close_scan, lower_type, next_sibling, sibling_after, token_list, child_kinds,
    count_of_kind, lemma_child_kinds_start,
};
use crate::ty::{Ty, TyModel};

verus! {

broadcast use lemma_builder_chain;

/// Reads an expression from its tokens, storing what it builds in a body.
pub struct ExprLowerer {
    pub tokens: Vec<ExprToken>,
    pub pos: usize,
}

/// `new` keeps the tokens of `before` and has read on from where it stood.
pub open spec fn moved_on(new: &ExprLowerer, before: &ExprLowerer) -> bool {
    &&& new.tokens@ == before.tokens@
    &&& before.pos <= new.pos <= new.tokens@.len()
}

/// The error for an unsupported expression met at `pos`: at that token, or at
/// the last token when `pos` is past the end, or without a place where there
/// are no tokens.
pub open spec fn unsupported_at(ts: Seq<ExprToken>, pos: int) -> LowerError {
    if 0 <= pos < ts.len() {
        LowerError::UnsupportedExpressionAt { line: ts[pos].line, range: Some(ts[pos].range) }
    } else if ts.len() > 0 {
        LowerError::UnsupportedExpressionAt { line: ts.last().line, range: Some(ts.last().range) }
    } else {
        LowerError::UnsupportedExpression
    }
}

/// An unsupported-expression error, with or without a place.
pub open spec fn is_unsupported(e: LowerError) -> bool {
    e is UnsupportedExpression || e is UnsupportedExpressionAt
}

/// The builder grew, and an expression that was built is stored in it.
pub open spec fn lowered_to(new: &BodyBuilder, before: &BodyBuilder, r: Result<ExprId, LowerError>) -> bool {
    &&& builder_grows(new, before)
    &&& (r matches Ok(id) ==> id < new.body.exprs@.len())
}

/// The operator a token stands for between two operands, with its precedence
/// (higher binds tighter).
pub open spec fn binary_op_of(k: SyntaxKind) -> Option<(BinaryOp, u8)> {
    match k {
        SyntaxKind::PipePipe => Some((BinaryOp::OrOr, 1u8)),
        SyntaxKind::AmpAmp => Some((BinaryOp::AndAnd, 2u8)),
        SyntaxKind::Pipe => Some((BinaryOp::Or, 3u8)),
        SyntaxKind::Caret => Some((BinaryOp::Xor, 4u8)),
        SyntaxKind::Amp => Some((BinaryOp::And, 5u8)),
        SyntaxKind::EqEq => Some((BinaryOp::Eq, 6u8)),
        SyntaxKind::Neq => Some((BinaryOp::Ne, 6u8)),
        SyntaxKind::Lt => Some((BinaryOp::Lt, 7u8)),
        SyntaxKind::Gt => Some((BinaryOp::Gt, 7u8)),
        SyntaxKind::Le => Some((BinaryOp::Le, 7u8)),
        SyntaxKind::Ge => Some((BinaryOp::Ge, 7u8)),
        SyntaxKind::LtLt => Some((BinaryOp::Shl, 8u8)),
        SyntaxKind::GtGt => Some((BinaryOp::Shr, 8u8)),
        SyntaxKind::GtGtGt => Some((BinaryOp::Ushr, 8u8)),
        SyntaxKind::Plus => Some((BinaryOp::Add, 9u8)),
        SyntaxKind::Minus => Some((BinaryOp::Sub, 9u8)),
        SyntaxKind::Star => Some((BinaryOp::Mul, 10u8)),
        SyntaxKind::Slash => Some((BinaryOp::Div, 10u8)),
        SyntaxKind::Percent => Some((BinaryOp::Rem, 10u8)),
        _ => None,
    }
}

/// The assignment operator a token stands for.
pub open spec fn assign_op_of(k: SyntaxKind) -> Option<AssignOp> {
    match k {
        SyntaxKind::Eq => Some(AssignOp::Plain),
        SyntaxKind::PlusEq => Some(AssignOp::Add),
        SyntaxKind::MinusEq => Some(AssignOp::Sub),
        SyntaxKind::StarEq => Some(AssignOp::Mul),
        SyntaxKind::SlashEq => Some(AssignOp::Div),
        SyntaxKind::PercentEq => Some(AssignOp::Rem),
        SyntaxKind::LtLtEq => Some(AssignOp::Shl),
        SyntaxKind::GtGtEq => Some(AssignOp::Shr),
        SyntaxKind::GtGtGtEq => Some(AssignOp::Ushr),
        SyntaxKind::AmpEq => Some(AssignOp::And),
        SyntaxKind::PipeEq => Some(AssignOp::Or),
        SyntaxKind::CaretEq => Some(AssignOp::Xor),
        _ => None,
    }
}

/// The kind of the token at `i`, if there is one.
pub open spec fn kind_at(tokens: Seq<ExprToken>, i: int) -> Option<SyntaxKind> {
    if 0 <= i < tokens.len() {
        Some(tokens[i].kind)
    } else {
        None
    }
}

/// Whether a token may begin a member of a class body.
pub open spec fn starts_member(k: SyntaxKind) -> bool {
    ||| k == SyntaxKind::At
    ||| k == SyntaxKind::PublicKw
    ||| k == SyntaxKind::ProtectedKw
    ||| k == SyntaxKind::PrivateKw
    ||| k == SyntaxKind::StaticKw
    ||| k == SyntaxKind::FinalKw
    ||| k == SyntaxKind::AbstractKw
    ||| k == SyntaxKind::NativeKw
    ||| k == SyntaxKind::SynchronizedKw
    ||| k == SyntaxKind::TransientKw
    ||| k == SyntaxKind::VolatileKw
    ||| k == SyntaxKind::ClassKw
    ||| k == SyntaxKind::InterfaceKw
    ||| k == SyntaxKind::EnumKw
    ||| k == SyntaxKind::RecordKw
    ||| k == SyntaxKind::Ident
    ||| k == SyntaxKind::VoidKw
    ||| k == SyntaxKind::BooleanKw
    ||| k == SyntaxKind::ByteKw
    ||| k == SyntaxKind::CharKw
    ||| k == SyntaxKind::ShortKw
    ||| k == SyntaxKind::IntKw
    ||| k == SyntaxKind::LongKw
    ||| k == SyntaxKind::FloatKw
    ||| k == SyntaxKind::DoubleKw
}

/// Whether Unicode counts `c` as an upper-case letter.
pub uninterp spec fn is_upper(c: char) -> bool;

/// `char::is_uppercase`: its result is named `is_upper`; ASCII capitals are upper
/// case, ASCII lower-case letters, digits, `_` and `$` are not.
#[verifier::external_body]
fn char_is_uppercase(c: char) -> (r: bool)
    ensures
        r == is_upper(c),
        ('A' <= c && c <= 'Z') ==> r,
        (('a' <= c && c <= 'z') || ('0' <= c && c <= '9') || c == '_' || c == '$') ==> !r,
{
    c.is_uppercase()
}

/// Where the `)` closing a parenthesis lies, scanning from `i` with `depth`
/// parentheses open.
pub open spec fn rparen_from(ts: Seq<ExprToken>, i: int, depth: int) -> Option<int>
    decreases ts.len() - i,
{
    if i < 0 || i >= ts.len() {
        None
    } else if ts[i].kind == SyntaxKind::LParen {
        rparen_from(ts, i + 1, depth + 1)
    } else if ts[i].kind == SyntaxKind::RParen {
        let d = if depth > 0 {
            depth - 1
        } else {
            0
        };
        if d == 0 {
            Some(i)
        } else {
            rparen_from(ts, i + 1, d)
        }
    } else {
        rparen_from(ts, i + 1, depth)
    }
}

pub proof fn lemma_rparen_from_range(ts: Seq<ExprToken>, i: int, depth: int)
    ensures
        rparen_from(ts, i, depth) matches Some(r) ==> i <= r < ts.len() && ts[r].kind == SyntaxKind::RParen,
    decreases ts.len() - i,
{
    if 0 <= i < ts.len() {
        let d = if depth > 0 {
            depth - 1
        } else {
            0
        };
        lemma_rparen_from_range(ts, i + 1, depth + 1);
        lemma_rparen_from_range(ts, i + 1, d);
        lemma_rparen_from_range(ts, i + 1, depth);
    }
}

/// A token that may continue a qualified name.
pub open spec fn name_part(k: SyntaxKind) -> bool {
    k == SyntaxKind::Ident || k == SyntaxKind::Dot
}

/// Whether a cast opens at `pos`: a `(` whose `)` closes a primitive type, or a
/// name that starts with an upper-case letter and continues with names and dots.
pub open spec fn cast_shape(ts: Seq<ExprToken>, pos: int) -> bool {
    &&& kind_at(ts, pos) == Some(SyntaxKind::LParen)
    &&& rparen_from(ts, pos, 0) matches Some(close)
    &&& close > pos + 1
    &&& {
        let first = ts[pos + 1];
        ||| is_primitive_token(first.kind)
        ||| (first.kind == SyntaxKind::Ident && first.text@.len() > 0 && is_upper(first.text@[0]) && forall|k: int|
            pos + 2 <= k < close ==> name_part(#[trigger] ts[k].kind))
    }
}

/// The eight primitive type keywords.
pub open spec fn is_primitive_token(k: SyntaxKind) -> bool {
    k == SyntaxKind::IntKw || k == SyntaxKind::LongKw || k == SyntaxKind::ShortKw || k == SyntaxKind::ByteKw || k
        == SyntaxKind::CharKw || k == SyntaxKind::FloatKw || k == SyntaxKind::DoubleKw || k == SyntaxKind::BooleanKw
}

/// The first index from `j` that is not whitespace or a comment.
pub open spec fn skip_trivia(ts: Seq<ExprToken>, j: int) -> int
    decreases ts.len() - j,
{
    if 0 <= j < ts.len() && (ts[j].kind == SyntaxKind::Whitespace || ts[j].kind == SyntaxKind::Comment) {
        skip_trivia(ts, j + 1)
    } else {
        j
    }
}

/// Scanning from `i` with `depth` parentheses open: whether the one that closes
/// them all is followed by `->`, with no `->` inside.
pub open spec fn lambda_paren_from(ts: Seq<ExprToken>, i: int, depth: int) -> bool
    decreases ts.len() - i,
{
    if i < 0 || i >= ts.len() {
        false
    } else if ts[i].kind == SyntaxKind::LParen {
        lambda_paren_from(ts, i + 1, depth + 1)
    } else if ts[i].kind == SyntaxKind::RParen {
        if depth - 1 == 0 {
            let j = skip_trivia(ts, i + 1);
            0 <= j < ts.len() && ts[j].kind == SyntaxKind::Arrow
        } else {
            lambda_paren_from(ts, i + 1, depth - 1)
        }
    } else if ts[i].kind == SyntaxKind::Arrow {
        false
    } else {
        lambda_paren_from(ts, i + 1, depth)
    }
}

#[verifier::loop_isolation(false)]
impl ExprLowerer {
    /// A lowerer at the first of `tokens`.
    pub fn new(tokens: Vec<ExprToken>) -> (r: ExprLowerer)
        ensures
            r.tokens@ == tokens@,
            r.pos == 0,
    {
        ExprLowerer { tokens, pos: 0 }
    }

    /// The error for an unsupported expression at the current token.
    pub fn unsupported_here(&self) -> (r: LowerError)
        ensures
            r == unsupported_at(self.tokens@, self.pos as int),
    {
        if self.pos < self.tokens.len() {
            LowerError::UnsupportedExpressionAt { line: self.tokens[self.pos].line, range: Some(self.tokens[self.pos].range) }
        } else if self.tokens.len() > 0 {
            let k = self.tokens.len() - 1;
            LowerError::UnsupportedExpressionAt { line: self.tokens[k].line, range: Some(self.tokens[k].range) }
        } else {
            LowerError::UnsupportedExpression
        }
    }

    /// The kind of the current token.
    pub fn peek_kind(&self) -> (r: Option<SyntaxKind>)
        ensures
            r == kind_at(self.tokens@, self.pos as int),
    {
        if self.pos < self.tokens.len() {
            Some(self.tokens[self.pos].kind)
        } else {
            None
        }
    }

    /// Steps past the current token.
    pub fn bump(&mut self)
        requires
            old(self).pos < old(self).tokens@.len(),
        ensures
            final(self).tokens@ == old(self).tokens@,
            final(self).pos == old(self).pos + 1,
    {
        let _n = self.tokens.len();
        self.pos = self.pos + 1;
    }

    /// Skips the current token when it has kind `k`.
    pub fn eat(&mut self, k: SyntaxKind) -> (r: bool)
        requires
            old(self).pos <= old(self).tokens@.len(),
        ensures
            r == (kind_at(old(self).tokens@, old(self).pos as int) == Some(k)),
            final(self).tokens@ == old(self).tokens@,
            final(self).pos == (if r { old(self).pos + 1 } else { old(self).pos as int }),
    {
        if self.pos < self.tokens.len() && self.tokens[self.pos].kind == k {
            self.pos = self.pos + 1;
            true
        } else {
            false
        }
    }

    /// Skips a token of kind `k`, or fails where there is none.
    pub fn expect(&mut self, k: SyntaxKind) -> (r: Result<(), LowerError>)
        requires
            old(self).pos <= old(self).tokens@.len(),
        ensures
            r is Ok == (kind_at(old(self).tokens@, old(self).pos as int) == Some(k)),
            r matches Err(e) ==> e == unsupported_at(old(self).tokens@, old(self).pos as int),
            final(self).tokens@ == old(self).tokens@,
            final(self).pos == (if r is Ok { old(self).pos + 1 } else { old(self).pos as int }),
    {
        if self.eat(k) {
            Ok(())
        } else {
            Err(self.unsupported_here())
        }
    }

    /// Reads an identifier's text.
    pub fn expect_ident(&mut self) -> (r: Result<String, LowerError>)
        requires
            old(self).pos <= old(self).tokens@.len(),
        ensures
            r is Ok == (kind_at(old(self).tokens@, old(self).pos as int) == Some(SyntaxKind::Ident)),
            r matches Ok(s) ==> s@ == old(self).tokens@[old(self).pos as int].text@,
            r matches Err(e) ==> e == unsupported_at(old(self).tokens@, old(self).pos as int),
            final(self).tokens@ == old(self).tokens@,
            final(self).pos == (if r is Ok { old(self).pos + 1 } else { old(self).pos as int }),
    {
        if self.pos < self.tokens.len() && self.tokens[self.pos].kind == SyntaxKind::Ident {
            let s = self.tokens[self.pos].text.clone();
            self.pos = self.pos + 1;
            Ok(s)
        } else {
            Err(self.unsupported_here())
        }
    }

    /// The binary operator at the current token, with its precedence.
    pub fn peek_binary_op(&self) -> (r: Option<(BinaryOp, u8)>)
        ensures
            r == (match kind_at(self.tokens@, self.pos as int) {
                Some(k) => binary_op_of(k),
                None => None,
            }),
    {
        match self.peek_kind() {
            None => None,
            Some(k) => match k {
                SyntaxKind::PipePipe => Some((BinaryOp::OrOr, 1u8)),
                SyntaxKind::AmpAmp => Some((BinaryOp::AndAnd, 2u8)),
                SyntaxKind::Pipe => Some((BinaryOp::Or, 3u8)),
                SyntaxKind::Caret => Some((BinaryOp::Xor, 4u8)),
                SyntaxKind::Amp => Some((BinaryOp::And, 5u8)),
                SyntaxKind::EqEq => Some((BinaryOp::Eq, 6u8)),
                SyntaxKind::Neq => Some((BinaryOp::Ne, 6u8)),
                SyntaxKind::Lt => Some((BinaryOp::Lt, 7u8)),
                SyntaxKind::Gt => Some((BinaryOp::Gt, 7u8)),
                SyntaxKind::Le => Some((BinaryOp::Le, 7u8)),
                SyntaxKind::Ge => Some((BinaryOp::Ge, 7u8)),
                SyntaxKind::LtLt => Some((BinaryOp::Shl, 8u8)),
                SyntaxKind::GtGt => Some((BinaryOp::Shr, 8u8)),
                SyntaxKind::GtGtGt => Some((BinaryOp::Ushr, 8u8)),
                SyntaxKind::Plus => Some((BinaryOp::Add, 9u8)),
                SyntaxKind::Minus => Some((BinaryOp::Sub, 9u8)),
                SyntaxKind::Star => Some((BinaryOp::Mul, 10u8)),
                SyntaxKind::Slash => Some((BinaryOp::Div, 10u8)),
                SyntaxKind::Percent => Some((BinaryOp::Rem, 10u8)),
                _ => None,
            },
        }
    }

    /// The assignment operator at the current token.
    pub fn peek_assign_op(&self) -> (r: Option<AssignOp>)
        ensures
            r == (match kind_at(self.tokens@, self.pos as int) {
                Some(k) => assign_op_of(k),
                None => None,
            }),
    {
        match self.peek_kind() {
            None => None,
            Some(k) => match k {
                SyntaxKind::Eq => Some(AssignOp::Plain),
                SyntaxKind::PlusEq => Some(AssignOp::Add),
                SyntaxKind::MinusEq => Some(AssignOp::Sub),
                SyntaxKind::StarEq => Some(AssignOp::Mul),
                SyntaxKind::SlashEq => Some(AssignOp::Div),
                SyntaxKind::PercentEq => Some(AssignOp::Rem),
                SyntaxKind::LtLtEq => Some(AssignOp::Shl),
                SyntaxKind::GtGtEq => Some(AssignOp::Shr),
                SyntaxKind::GtGtGtEq => Some(AssignOp::Ushr),
                SyntaxKind::AmpEq => Some(AssignOp::And),
                SyntaxKind::PipeEq => Some(AssignOp::Or),
                SyntaxKind::CaretEq => Some(AssignOp::Xor),
                _ => None,
            },
        }
    }

    /// The index of the `)` that closes the `(` at `open`, counting nesting.
    pub fn matching_rparen(&self, open: usize) -> (r: Option<usize>)
        ensures
            r is Some <==> rparen_from(self.tokens@, open as int, 0) is Some,
            r matches Some(i) ==> rparen_from(self.tokens@, open as int, 0) == Some(i as int),
            r matches Some(i) ==> open <= i < self.tokens@.len() && self.tokens@[i as int].kind == SyntaxKind::RParen,
    {
        let mut depth: usize = 0;
        let mut i = open;
        proof {
            lemma_rparen_from_range(self.tokens@, open as int, 0);
        }
        while i < self.tokens.len()
            invariant
                open <= i,
                depth <= i - open,
                rparen_from(self.tokens@, open as int, 0) == rparen_from(self.tokens@, i as int, depth as int),
            decreases self.tokens@.len() - i,
        {
            let k = self.tokens[i].kind;
            if k == SyntaxKind::LParen {
                depth = depth + 1;
            } else if k == SyntaxKind::RParen {
                if depth > 0 {
                    depth = depth - 1;
                }
                if depth == 0 {
                    return Some(i);
                }
            }
            i = i + 1;
        }
        None
    }

    /// Whether a `(` here opens a cast: a primitive type, or a capitalised
    /// (possibly qualified) name, closed by a `)`.
    pub fn looks_like_cast(&self) -> (r: bool)
        ensures
            r == cast_shape(self.tokens@, self.pos as int),
    {
        if self.peek_kind() != Some(SyntaxKind::LParen) {
            return false;
        }
        let close = match self.matching_rparen(self.pos) {
            Some(c) => c,
            None => {
                return false;
            },
        };
        if close <= self.pos + 1 {
            return false;
        }
        let first = &self.tokens[self.pos + 1];
        if is_primitive_kind(first.kind) {
            return true;
        }
        if first.kind != SyntaxKind::Ident {
            return false;
        }
        let n = first.text.unicode_len();
        if n == 0 {
            return false;
        }
        if !char_is_uppercase(first.text.get_char(0)) {
            return false;
        }
        let mut i = self.pos + 2;
        while i < close
            invariant
                self.pos + 2 <= i <= close < self.tokens@.len(),
                forall|k: int| self.pos + 2 <= k < i ==> name_part(#[trigger] self.tokens@[k].kind),
            decreases close - i,
        {
            let k = self.tokens[i].kind;
            if k != SyntaxKind::Ident && k != SyntaxKind::Dot {
                return false;
            }
            i = i + 1;
        }
        true
    }

    /// Whether a `(` here opens the parameters of a lambda: its `)` is followed by
    /// `->`.
    pub fn is_lambda_paren(&self) -> (r: bool)
        ensures
            r == (self.pos < self.tokens@.len() && lambda_paren_from(self.tokens@, self.pos + 1, 1)),
    {
        if self.pos >= self.tokens.len() {
            return false;
        }
        let mut depth: u64 = 1;
        let mut i = self.pos + 1;
        loop
            invariant
                self.pos < i <= self.tokens@.len() + 1,
                1 <= depth <= i,
                lambda_paren_from(self.tokens@, self.pos + 1, 1) == lambda_paren_from(self.tokens@, i as int, depth as int),
            decreases self.tokens@.len() + 1 - i,
        {
            if i >= self.tokens.len() {
                return false;
            }
            let k = self.tokens[i].kind;
            if k == SyntaxKind::LParen {
                depth = depth + 1;
            } else if k == SyntaxKind::RParen {
                depth = depth - 1;
                if depth == 0 {
                    let mut j = i + 1;
                    while j < self.tokens.len() && (self.tokens[j].kind == SyntaxKind::Whitespace
                        || self.tokens[j].kind == SyntaxKind::Comment)
                        invariant
                            i < j <= self.tokens@.len(),
                            skip_trivia(self.tokens@, i + 1) == skip_trivia(self.tokens@, j as int),
                        decreases self.tokens@.len() - j,
                    {
                        j = j + 1;
                    }
                    return j < self.tokens.len() && self.tokens[j].kind == SyntaxKind::Arrow;
                }
            } else if k == SyntaxKind::Arrow {
                return false;
            }
            i = i + 1;
        }
    }

    /// Whether the token after the current one is `->`.
    pub fn at_ident_lambda(&self) -> (r: bool)
        ensures
            r == (kind_at(self.tokens@, self.pos + 1) == Some(SyntaxKind::Arrow)),
    {
        let n = self.tokens.len();
        self.pos < n && self.pos + 1 < n && self.tokens[self.pos + 1].kind == SyntaxKind::Arrow
    }

    /// Whether the current token may begin a class member.
    pub fn at_anonymous_body_member(&self) -> (r: bool)
        ensures
            r == (kind_at(self.tokens@, self.pos as int) matches Some(k) && starts_member(k)),
    {
        match self.peek_kind() {
            Some(k) => {
                k == SyntaxKind::At || k == SyntaxKind::PublicKw || k == SyntaxKind::ProtectedKw || k
                    == SyntaxKind::PrivateKw || k == SyntaxKind::StaticKw || k == SyntaxKind::FinalKw || k
                    == SyntaxKind::AbstractKw || k == SyntaxKind::NativeKw || k == SyntaxKind::SynchronizedKw
                    || k == SyntaxKind::TransientKw || k == SyntaxKind::VolatileKw || k == SyntaxKind::ClassKw
                    || k == SyntaxKind::InterfaceKw || k == SyntaxKind::EnumKw || k == SyntaxKind::RecordKw
                    || k == SyntaxKind::Ident || k == SyntaxKind::VoidKw || k == SyntaxKind::BooleanKw || k
                    == SyntaxKind::ByteKw || k == SyntaxKind::CharKw || k == SyntaxKind::ShortKw || k
                    == SyntaxKind::IntKw || k == SyntaxKind::LongKw || k == SyntaxKind::FloatKw || k
                    == SyntaxKind::DoubleKw
            },
            None => false,
        }
    }

    /// Skips a `{ ... }` block starting at the current `{`, nested braces included.
    pub fn skip_block_tokens(&mut self)
        requires
            old(self).pos < old(self).tokens@.len(),
        ensures
            final(self).tokens@ == old(self).tokens@,
            old(self).pos < final(self).pos <= final(self).tokens@.len(),
    {
        let mut depth: u64 = 1;
        let _n = self.tokens.len();
        self.pos = self.pos + 1;
        while self.pos < self.tokens.len() && depth > 0
            invariant
                self.pos <= self.tokens@.len(),
                self.tokens@ == old(self).tokens@,
                old(self).pos < self.pos,
                depth <= self.pos,
            decreases self.tokens@.len() - self.pos,
        {
            let k = self.tokens[self.pos].kind;
            if k == SyntaxKind::LBrace {
                depth = depth + 1;
            } else if k == SyntaxKind::RBrace {
                depth = depth - 1;
            }
            self.pos = self.pos + 1;
        }
    }
}

/// Each operator token is read as the operator it spells: `%` is the
/// remainder, `/` the quotient, `-=` the subtracting assignment, and so on.
pub proof fn law_operator_tokens(k: SyntaxKind)
    ensures
        binary_op_of(k) matches Some((op, _)) ==> op_spelling(op) == operator_spelling(k),
        assign_op_of(k) matches Some(a) ==> assign_spelling(a) == operator_spelling(k),
{
}

/// The expression reader binds each binary operator exactly as tightly as the
/// parser does; `instanceof`, the one other operator the parser ranks, the
/// reader handles on its own at the same level.
pub proof fn law_precedence_agrees(k: SyntaxKind)
    ensures
        binary_op_of(k) matches Some((_, p)) ==> p == binding_strength(k),
        binding_strength(k) > 0 ==> (binary_op_of(k) is Some || k == SyntaxKind::InstanceofKw),
        binding_strength(SyntaxKind::InstanceofKw) == 7,
{
}


/// The tokens from `pos` are one literal, `this` or `super`, and nothing more.
pub open spec fn lone_literal(ts: Seq<ExprToken>, pos: int) -> bool {
    &&& 0 <= pos
    &&& pos + 1 == ts.len()
    &&& is_literal_kind(ts[pos].kind)
}

/// The lone literal at `before`'s position was read to the end and stored as
/// the next expression, as `literal_lowered` says.
pub open spec fn lone_lowered(
    p: &ExprLowerer,
    before: &ExprLowerer,
    b: &BodyBuilder,
    b_before: &BodyBuilder,
    r: Result<ExprId, LowerError>,
) -> bool {
    &&& r matches Ok(id)
    &&& id == b_before.body.exprs@.len()
    &&& p.pos == p.tokens@.len()
    &&& b.body.exprs@.len() == id + 1
    &&& literal_lowered(before.tokens@[before.pos as int], b.body.exprs@[id as int])
}

#[verifier::loop_isolation(false)]
impl ExprLowerer {
    /// An expression: an assignment or anything below it. `fuel`
    /// bounds how deeply expressions may nest; past it the expression is refused.
    pub fn parse_expr(&mut self, b: &mut BodyBuilder, fuel: u32) -> (r: Result<ExprId, LowerError>)
        requires
            old(self).pos <= old(self).tokens@.len(),
            old(b).body.wf(),
        ensures
            moved_on(final(self), old(self)),
            lowered_to(final(b), old(b), r),
            (lone_literal(old(self).tokens@, old(self).pos as int) && fuel >= 6) ==> lone_lowered(
                final(self),
                old(self),
                final(b),
                old(b),
                r,
            ),
        decreases fuel,
    {
        if fuel == 0 {
            proof {
                lemma_builder_refl(b);
            }
            return Err(self.unsupported_here());
        }
        self.parse_assignment(b, fuel - 1)
    }

    /// `target op= value`, right-associative.
    pub fn parse_assignment(&mut self, b: &mut BodyBuilder, fuel: u32) -> (r: Result<ExprId, LowerError>)
        requires
            old(self).pos <= old(self).tokens@.len(),
            old(b).body.wf(),
        ensures
            moved_on(final(self), old(self)),
            lowered_to(final(b), old(b), r),
            (lone_literal(old(self).tokens@, old(self).pos as int) && fuel >= 5) ==> lone_lowered(
                final(self),
                old(self),
                final(b),
                old(b),
                r,
            ),
        decreases fuel,
    {
        if fuel == 0 {
            proof {
                lemma_builder_refl(b);
            }
            return Err(self.unsupported_here());
        }
        let target = self.parse_ternary(b, fuel - 1)?;
        let op = match self.peek_assign_op() {
            Some(op) => op,
            None => {
                return Ok(target);
            },
        };
        self.bump();
        let value = self.parse_assignment(b, fuel - 1)?;
        Ok(b.alloc_expr(Expr::Assign { target, op, value }))
    }

    /// `c ? a : b`.
    pub fn parse_ternary(&mut self, b: &mut BodyBuilder, fuel: u32) -> (r: Result<ExprId, LowerError>)
        requires
            old(self).pos <= old(self).tokens@.len(),
            old(b).body.wf(),
        ensures
            moved_on(final(self), old(self)),
            lowered_to(final(b), old(b), r),
            (lone_literal(old(self).tokens@, old(self).pos as int) && fuel >= 4) ==> lone_lowered(
                final(self),
                old(self),
                final(b),
                old(b),
                r,
            ),
        decreases fuel,
    {
        if fuel == 0 {
            proof {
                lemma_builder_refl(b);
            }
            return Err(self.unsupported_here());
        }
        let condition = self.parse_binary(b, 1, fuel - 1)?;
        if !self.eat(SyntaxKind::Question) {
            return Ok(condition);
        }
        let then_expr = self.parse_expr(b, fuel - 1)?;
        self.expect(SyntaxKind::Colon)?;
        let else_expr = self.parse_ternary(b, fuel - 1)?;
        Ok(b.alloc_expr(Expr::Ternary { condition, then_expr, else_expr }))
    }

    /// Binary operators of precedence `min_prec` and above, left-associative, and
    /// `instanceof` at the relational level.
    pub fn parse_binary(&mut self, b: &mut BodyBuilder, min_prec: u8, fuel: u32) -> (r: Result<ExprId, LowerError>)
        requires
            old(self).pos <= old(self).tokens@.len(),
            old(b).body.wf(),
        ensures
            moved_on(final(self), old(self)),
            lowered_to(final(b), old(b), r),
            r is Ok ==> stops_before(final(self).tokens@, final(self).pos as int, min_prec),
            r matches Ok(id) ==> binary_nesting(final(b).body.exprs@, id as int, min_prec),
            (lone_literal(old(self).tokens@, old(self).pos as int) && fuel >= 3) ==> lone_lowered(
                final(self),
                old(self),
                final(b),
                old(b),
                r,
            ),
        decreases fuel,
    {
        if fuel == 0 {
            proof {
                lemma_builder_refl(b);
            }
            return Err(self.unsupported_here());
        }
        let mut left = self.parse_unary(b, fuel - 1)?;
        loop
            invariant
                moved_on(self, old(self)),
                builder_grows(b, old(b)),
                left < b.body.exprs@.len(),
                binary_nesting(b.body.exprs@, left as int, min_prec),
                (lone_literal(old(self).tokens@, old(self).pos as int) && fuel >= 3) ==> lone_lowered(
                    self,
                    old(self),
                    b,
                    old(b),
                    Ok(left),
                ),
            decreases self.tokens@.len() - self.pos,
        {
            if self.peek_kind() == Some(SyntaxKind::InstanceofKw) {
                if 7 < min_prec {
                    break;
                }
                self.bump();
                let ty = self.parse_type(b)?;
                let binding = if self.peek_kind() == Some(SyntaxKind::Ident) {
                    Some(self.expect_ident()?)
                } else {
                    None
                };
                left = b.alloc_expr(Expr::Instanceof { expr: left, ty, binding });
                continue;
            }
            let (op, prec) = match self.peek_binary_op() {
                Some(p) => p,
                None => {
                    break;
                },
            };
            if prec < min_prec {
                break;
            }
            self.bump();
            let ghost b1 = *b;
            let right = self.parse_binary(b, prec + 1, fuel - 1)?;
            proof {
                assert(b.body.exprs@[left as int] == b1.body.exprs@[left as int]);
                assert(binary_nesting(b.body.exprs@, left as int, min_prec));
                assert(op_prec(op) == prec);
            }
            left = b.alloc_expr(Expr::Binary { op, left, right });
        }
        Ok(left)
    }

    /// Prefix operators and casts.
    pub fn parse_unary(&mut self, b: &mut BodyBuilder, fuel: u32) -> (r: Result<ExprId, LowerError>)
        requires
            old(self).pos <= old(self).tokens@.len(),
            old(b).body.wf(),
        ensures
            r matches Ok(id) ==> !(final(b).body.exprs@[id as int] is Binary),
            moved_on(final(self), old(self)),
            lowered_to(final(b), old(b), r),
            r matches Ok(id) ==> (prefix_unary_op(kind_at(old(self).tokens@, old(self).pos as int)) matches Some(op) ==> (
            final(b).body.exprs@[id as int] matches Expr::Unary { op: o, operand } && o == op && operand < id)),
            fuel > 0 && kind_at(old(self).tokens@, old(self).pos as int) == Some(SyntaxKind::Plus) ==> final(self).pos
                > old(self).pos,
            (lone_literal(old(self).tokens@, old(self).pos as int) && fuel >= 2) ==> lone_lowered(
                final(self),
                old(self),
                final(b),
                old(b),
                r,
            ),
        decreases fuel,
    {
        if fuel == 0 {
            proof {
                lemma_builder_refl(b);
            }
            return Err(self.unsupported_here());
        }
        proof {
            lemma_builder_refl(b);
        }
        if self.eat(SyntaxKind::Plus) {
            return self.parse_unary(b, fuel - 1);
        }
        if self.looks_like_cast() {
            self.expect(SyntaxKind::LParen)?;
            let ty = self.parse_type(b)?;
            self.expect(SyntaxKind::RParen)?;
            let expr = self.parse_unary(b, fuel - 1)?;
            return Ok(b.alloc_expr(Expr::Cast { ty, expr }));
        }
        let op = if self.eat(SyntaxKind::Minus) {
            UnaryOp::Neg
        } else if self.eat(SyntaxKind::Bang) {
            UnaryOp::Not
        } else if self.eat(SyntaxKind::Tilde) {
            UnaryOp::BitNot
        } else if self.eat(SyntaxKind::Inc) {
            UnaryOp::PreInc
        } else if self.eat(SyntaxKind::Dec) {
            UnaryOp::PreDec
        } else {
            return self.parse_postfix(b, fuel - 1);
        };
        let operand = self.parse_unary(b, fuel - 1)?;
        Ok(b.alloc_expr(Expr::Unary { op, operand }))
    }

    /// Indexing, member access, calls and postfix `++`/`--` after a primary.
    pub fn parse_postfix(&mut self, b: &mut BodyBuilder, fuel: u32) -> (r: Result<ExprId, LowerError>)
        requires
            old(self).pos <= old(self).tokens@.len(),
            old(b).body.wf(),
        ensures
            r matches Ok(id) ==> !(final(b).body.exprs@[id as int] is Binary),
            moved_on(final(self), old(self)),
            lowered_to(final(b), old(b), r),
            (lone_literal(old(self).tokens@, old(self).pos as int) && fuel >= 1) ==> lone_lowered(
                final(self),
                old(self),
                final(b),
                old(b),
                r,
            ),
        decreases fuel,
    {
        if fuel == 0 {
            proof {
                lemma_builder_refl(b);
            }
            return Err(self.unsupported_here());
        }
        let mut expr = self.parse_primary(b, fuel - 1)?;
        loop
            invariant
                moved_on(self, old(self)),
                builder_grows(b, old(b)),
                expr < b.body.exprs@.len(),
                !(b.body.exprs@[expr as int] is Binary),
                (lone_literal(old(self).tokens@, old(self).pos as int) && fuel >= 1) ==> lone_lowered(
                    self,
                    old(self),
                    b,
                    old(b),
                    Ok(expr),
                ),
            decreases self.tokens@.len() - self.pos,
        {
            if self.eat(SyntaxKind::LBrack) {
                let index = self.parse_expr(b, fuel - 1)?;
                self.expect(SyntaxKind::RBrack)?;
                expr = b.alloc_expr(Expr::ArrayAccess { array: expr, index });
                continue;
            }
            if self.eat(SyntaxKind::Dot) {
                let name = self.expect_ident()?;
                if self.eat(SyntaxKind::LParen) {
                    let args = self.parse_args_after_open_paren(b, fuel - 1)?;
                    expr = b.alloc_expr(Expr::MethodCall { target: Some(expr), method: name, args });
                } else {
                    expr = b.alloc_expr(Expr::FieldAccess { target: expr, field: name });
                }
                continue;
            }
            if self.eat(SyntaxKind::LParen) {
                let args = self.parse_args_after_open_paren(b, fuel - 1)?;
                expr = self.finish_direct_call(b, expr, args)?;
                continue;
            }
            if self.eat(SyntaxKind::Inc) {
                return Ok(b.alloc_expr(Expr::PostInc(expr)));
            }
            if self.eat(SyntaxKind::Dec) {
                return Ok(b.alloc_expr(Expr::PostDec(expr)));
            }
            return Ok(expr);
        }
    }

    /// `f(args)` on a name is a call of `f`; `a.f(args)` a call of `f` on `a`;
    /// a call of anything else is refused.
    pub fn finish_direct_call(&self, b: &mut BodyBuilder, expr: ExprId, args: Vec<ExprId>) -> (r: Result<
        ExprId,
        LowerError,
    >)
        requires
            old(b).body.wf(),
            expr < old(b).body.exprs@.len(),
            forall|i: int| 0 <= i < args@.len() ==> args@[i] < old(b).body.exprs@.len(),
        ensures
            r matches Ok(id) ==> !(final(b).body.exprs@[id as int] is Binary),
            lowered_to(final(b), old(b), r),
            r is Ok == (old(b).body.exprs@[expr as int] is Ident || old(b).body.exprs@[expr as int] is FieldAccess),
            old(b).body.exprs@[expr as int] matches Expr::Ident(m) ==> (r matches Ok(id) && final(b).body.exprs@[id as int]
                matches Expr::MethodCall { target, method, args: a } && target is None && method@ == m@ && a@ == args@),
            old(b).body.exprs@[expr as int] matches Expr::FieldAccess { target: t, field } ==> (r matches Ok(id)
                && final(b).body.exprs@[id as int] matches Expr::MethodCall { target, method, args: a } && target
                == Some(t) && method@ == field@ && a@ == args@),
    {
        let (target, method) = match &b.body.exprs[expr] {
            Expr::Ident(m) => (None, m.clone()),
            Expr::FieldAccess { target, field } => (Some(*target), field.clone()),
            _ => {
                proof {
                    lemma_builder_refl(b);
                }
                return Err(self.unsupported_here());
            },
        };
        proof {
            assert(expr_children_below(b.body.exprs@[expr as int], expr as int));
        }
        Ok(b.alloc_expr(Expr::MethodCall { target, method, args }))
    }

    /// Arguments up to the closing `)`.
    pub fn parse_args_after_open_paren(&mut self, b: &mut BodyBuilder, fuel: u32) -> (r: Result<
        Vec<ExprId>,
        LowerError,
    >)
        requires
            old(self).pos <= old(self).tokens@.len(),
            old(b).body.wf(),
        ensures
            moved_on(final(self), old(self)),
            builder_grows(final(b), old(b)),
            r matches Ok(args) ==> forall|i: int| 0 <= i < args@.len() ==> args@[i] < final(b).body.exprs@.len(),
        decreases fuel,
    {
        let mut args: Vec<ExprId> = Vec::new();
        proof {
            lemma_builder_refl(b);
        }
        if fuel == 0 {
            return Err(self.unsupported_here());
        }
        if self.eat(SyntaxKind::RParen) {
            return Ok(args);
        }
        loop
            invariant
                moved_on(self, old(self)),
                builder_grows(b, old(b)),
                forall|i: int| 0 <= i < args@.len() ==> args@[i] < b.body.exprs@.len(),
            decreases self.tokens@.len() - self.pos,
        {
            let a = self.parse_expr(b, fuel - 1)?;
            args.push(a);
            if self.eat(SyntaxKind::Comma) {
                continue;
            }
            self.expect(SyntaxKind::RParen)?;
            return Ok(args);
        }
    }
}

/// The tokens that stand for a value on their own: literals, `this` and `super`.
pub open spec fn is_literal_kind(k: SyntaxKind) -> bool {
    ||| k == SyntaxKind::IntLiteral
    ||| k == SyntaxKind::LongLiteral
    ||| k == SyntaxKind::FloatLiteral
    ||| k == SyntaxKind::DoubleLiteral
    ||| k == SyntaxKind::CharLiteral
    ||| k == SyntaxKind::StringLiteral
    ||| k == SyntaxKind::TrueKw
    ||| k == SyntaxKind::FalseKw
    ||| k == SyntaxKind::NullKw
    ||| k == SyntaxKind::ThisKw
    ||| k == SyntaxKind::SuperKw
}

/// `e` is what the literal token `t` lowers to: integers by their value (when it
/// fits), a float literal by its suffix, the others by their kind.
pub open spec fn literal_lowered(t: ExprToken, e: Expr) -> bool {
    let v = int_literal_value(t.text@);
    if t.kind == SyntaxKind::IntLiteral {
        e matches Expr::IntLiteral(x) && (0 <= v <= i64::MAX ==> x == v)
    } else if t.kind == SyntaxKind::LongLiteral {
        e matches Expr::LongLiteral(x) && (0 <= v <= i64::MAX ==> x == v)
    } else if t.kind == SyntaxKind::FloatLiteral {
        if t.text@.len() > 0 && (t.text@.last() == 'f' || t.text@.last() == 'F') {
            e matches Expr::FloatLiteral(s) && s@ == without_underscores(without_float_suffix(t.text@))
        } else {
            e matches Expr::DoubleLiteral(s) && s@ == without_underscores(without_float_suffix(t.text@))
        }
    } else if t.kind == SyntaxKind::DoubleLiteral {
        e matches Expr::DoubleLiteral(s) && s@ == without_underscores(without_float_suffix(t.text@))
    } else if t.kind == SyntaxKind::CharLiteral {
        e matches Expr::CharLiteral(c) && ((t.text@.len() == 3 && t.text@[0] == '\'' && t.text@[2] == '\''
            && t.text@[1] != '\\') ==> c == t.text@[1])
    } else if t.kind == SyntaxKind::StringLiteral {
        e matches Expr::StringLiteral(s) && ((t.text@.len() >= 2 && t.text@[0] == '"' && t.text@.last() == '"'
            && forall|k: int| 1 <= k < t.text@.len() - 1 ==> t.text@[k] != '\\') ==> s@ == t.text@.subrange(
            1,
            t.text@.len() - 1,
        ))
    } else if t.kind == SyntaxKind::TrueKw {
        e == Expr::BoolLiteral(true)
    } else if t.kind == SyntaxKind::FalseKw {
        e == Expr::BoolLiteral(false)
    } else if t.kind == SyntaxKind::NullKw {
        e == Expr::NullLiteral
    } else if t.kind == SyntaxKind::ThisKw {
        e == Expr::This
    } else {
        e == Expr::Super
    }
}

/// The primitive type a keyword names.
pub open spec fn primitive_ty(k: Option<SyntaxKind>) -> Option<Ty> {
    match k {
        Some(SyntaxKind::BooleanKw) => Some(Ty::Boolean),
        Some(SyntaxKind::ByteKw) => Some(Ty::Byte),
        Some(SyntaxKind::CharKw) => Some(Ty::Char),
        Some(SyntaxKind::ShortKw) => Some(Ty::Short),
        Some(SyntaxKind::IntKw) => Some(Ty::Int),
        Some(SyntaxKind::LongKw) => Some(Ty::Long),
        Some(SyntaxKind::FloatKw) => Some(Ty::Float),
        Some(SyntaxKind::DoubleKw) => Some(Ty::Double),
        _ => None,
    }
}

/// `t` inside `n` array types.
pub open spec fn array_of(t: Ty, n: nat) -> Ty
    decreases n,
{
    if n == 0 {
        t
    } else {
        Ty::Array(Box::new(array_of(t, (n - 1) as nat)))
    }
}

/// The `[]` pairs from token `p`: how many, and the index after them; `None`
/// where a `[` is not closed at once.
pub open spec fn dims_after(ts: Seq<ExprToken>, p: int) -> Option<(nat, int)>
    decreases ts.len() - p,
{
    if kind_at(ts, p) == Some(SyntaxKind::LBrack) {
        if kind_at(ts, p + 1) == Some(SyntaxKind::RBrack) {
            match dims_after(ts, p + 2) {
                Some((n, e)) => Some((n + 1, e)),
                None => None,
            }
        } else {
            None
        }
    } else {
        Some((0, p))
    }
}

/// The rest of a dotted name after `acc`, from token `p`: `.name` pieces; the
/// whole name and the index after it, or `None` where a `.` is not followed by
/// a name.
pub open spec fn dotted_rest(ts: Seq<ExprToken>, p: int, acc: Seq<char>) -> Option<(Seq<char>, int)>
    decreases ts.len() - p,
{
    if kind_at(ts, p) == Some(SyntaxKind::Dot) {
        if kind_at(ts, p + 1) == Some(SyntaxKind::Ident) {
            dotted_rest(ts, p + 2, acc + seq!['.'] + ts[p + 1].text@)
        } else {
            None
        }
    } else {
        Some((acc, p))
    }
}

/// A dotted name `a.b.C` from token `p`, with the index after it.
pub open spec fn dotted_name_from(ts: Seq<ExprToken>, p: int) -> Option<(Seq<char>, int)> {
    if kind_at(ts, p) == Some(SyntaxKind::Ident) {
        dotted_rest(ts, p + 1, ts[p].text@)
    } else {
        None
    }
}

/// Where a base type (a primitive type or a dotted name) from token `p` ends.
pub open spec fn type_base_end(ts: Seq<ExprToken>, p: int) -> Option<int> {
    if primitive_ty(kind_at(ts, p)) is Some {
        Some(p + 1)
    } else {
        match dotted_name_from(ts, p) {
            Some((_, e)) => Some(e),
            None => None,
        }
    }
}

/// The operator a prefix token stands for; `+` stands for none.
pub open spec fn prefix_unary_op(k: Option<SyntaxKind>) -> Option<UnaryOp> {
    match k {
        Some(SyntaxKind::Minus) => Some(UnaryOp::Neg),
        Some(SyntaxKind::Bang) => Some(UnaryOp::Not),
        Some(SyntaxKind::Tilde) => Some(UnaryOp::BitNot),
        Some(SyntaxKind::Inc) => Some(UnaryOp::PreInc),
        Some(SyntaxKind::Dec) => Some(UnaryOp::PreDec),
        _ => None,
    }
}

/// The tokens a primary expression can start with.
pub open spec fn starts_primary(k: SyntaxKind) -> bool {
    is_literal_kind(k) || k == SyntaxKind::NewKw || k == SyntaxKind::Ident || k == SyntaxKind::LParen
}

/// Whether a type is a platform interface.
pub open spec fn names_interface(t: crate::ty::TyModel) -> bool {
    t matches crate::ty::TyModel::Class(n) && platform_interfaces().contains(n)
}

/// An anonymous class: a class whose superclass is the base type, with no
/// interfaces; a `this$0` field exactly when it captures the enclosing `this`;
/// and its constructor first among its methods.
pub open spec fn anonymous_class_shape(d: TypeDecl, base: crate::ty::TyModel, captures_this: bool) -> bool {
    &&& d.kind == TypeDeclKind::Class
    &&& names_interface(base) ==> d.super_class is None && d.interfaces@.len() == 1 && d.interfaces@[0]@ == base
    &&& !names_interface(base) ==> (d.super_class matches Some(t) && t@ == base && d.interfaces@.len() == 0)
    &&& d.anonymous matches Some(a) && a.super_constructor.owner@ == (if names_interface(base) {
        crate::ty::TyModel::Class(crate::ty::object_name())
    } else {
        base
    }) && (names_interface(base) ==> a.super_constructor.params@.len() == 0)
    &&& captures_this ==> d.fields@.len() == 1 && d.fields@[0].name@ == "this$0"@
    &&& !captures_this ==> d.fields@.len() == 0
    &&& d.methods@.len() >= 1 && d.methods@[0].name@ == "<init>"@
}

/// How tightly a binary operator binds (higher binds tighter).
pub open spec fn op_prec(op: BinaryOp) -> u8 {
    match op {
        BinaryOp::OrOr => 1,
        BinaryOp::AndAnd => 2,
        BinaryOp::Or => 3,
        BinaryOp::Xor => 4,
        BinaryOp::And => 5,
        BinaryOp::Eq | BinaryOp::Ne => 6,
        BinaryOp::Lt | BinaryOp::Gt | BinaryOp::Le | BinaryOp::Ge => 7,
        BinaryOp::Shl | BinaryOp::Shr | BinaryOp::Ushr => 8,
        BinaryOp::Add | BinaryOp::Sub => 9,
        BinaryOp::Mul | BinaryOp::Div | BinaryOp::Rem => 10,
    }
}

/// The token at `pos` continues no binary expression binding at least
/// `min_prec`: it is not such an operator, nor `instanceof` where that binds.
pub open spec fn stops_before(ts: Seq<ExprToken>, pos: int, min_prec: u8) -> bool {
    &&& !(kind_at(ts, pos) matches Some(k) && binary_op_of(k) matches Some((_, p)) && p >= min_prec)
    &&& !(kind_at(ts, pos) == Some(SyntaxKind::InstanceofKw) && 7 >= min_prec)
}

/// A binary node binds at least `min_prec`, and a binary node as its right
/// operand binds strictly tighter: operators of one strength group to the left.
pub open spec fn binary_nesting(exprs: Seq<Expr>, id: int, min_prec: u8) -> bool {
    exprs[id] matches Expr::Binary { op, right, .. } ==> (op_prec(op) >= min_prec && (exprs[right as int] matches Expr::Binary {
        op: op2,
        ..
    } ==> op_prec(op2) > op_prec(op)))
}

/// The names of lambda parameters.
pub open spec fn param_names(ps: Seq<LambdaParam>) -> Seq<Seq<char>> {
    ps.map_values(|p: LambdaParam| p.name@)
}

/// Names separated by `,` and closed by `)`, from token `p`: the names and the
/// index after the `)`; `None` where the tokens do not have that form.
pub open spec fn lambda_names_from(ts: Seq<ExprToken>, p: int) -> Option<(Seq<Seq<char>>, int)>
    decreases ts.len() - p,
{
    if kind_at(ts, p) == Some(SyntaxKind::Ident) {
        if kind_at(ts, p + 1) == Some(SyntaxKind::Comma) {
            match lambda_names_from(ts, p + 2) {
                Some((ns, e)) => Some((seq![ts[p].text@] + ns, e)),
                None => None,
            }
        } else if kind_at(ts, p + 1) == Some(SyntaxKind::RParen) {
            Some((seq![ts[p].text@], p + 2))
        } else {
            None
        }
    } else {
        None
    }
}

/// A lambda's parameter list after its `(`: `)` alone, or names as above.
pub open spec fn lambda_params_of(ts: Seq<ExprToken>, p: int) -> Option<(Seq<Seq<char>>, int)> {
    if kind_at(ts, p) == Some(SyntaxKind::RParen) {
        Some((Seq::empty(), p + 1))
    } else {
        lambda_names_from(ts, p)
    }
}

#[verifier::loop_isolation(false)]
impl ExprLowerer {
    /// A literal, name, `this`/`super`, `new`, lambda or parenthesised
    /// expression.
    pub fn parse_primary(&mut self, b: &mut BodyBuilder, fuel: u32) -> (r: Result<ExprId, LowerError>)
        requires
            old(self).pos <= old(self).tokens@.len(),
            old(b).body.wf(),
        ensures
            r matches Ok(id) ==> !(final(b).body.exprs@[id as int] is Binary),
            moved_on(final(self), old(self)),
            lowered_to(final(b), old(b), r),
            r is Ok ==> old(self).pos < final(self).pos,
            (kind_at(old(self).tokens@, old(self).pos as int) matches Some(k) && is_literal_kind(k)) ==> (r matches Ok(
                id,
            ) && id == old(b).body.exprs@.len() && final(b).body.exprs@.len() == id + 1 && final(self).pos == old(
                self,
            ).pos + 1 && literal_lowered(
                old(self).tokens@[old(self).pos as int],
                final(b).body.exprs@[id as int],
            )),
            kind_at(old(self).tokens@, old(self).pos as int) is None ==> r is Err,
            (kind_at(old(self).tokens@, old(self).pos as int) == Some(SyntaxKind::Ident) && kind_at(
                old(self).tokens@,
                old(self).pos + 1,
            ) != Some(SyntaxKind::Arrow) && kind_at(old(self).tokens@, old(self).pos + 1) != Some(SyntaxKind::Dot))
                ==> match r {
                Ok(id) => id == old(b).body.exprs@.len() && final(self).pos == old(self).pos + 1 && (final(b).body.exprs@[id as int]
                    matches Expr::Ident(n) && n@ == old(self).tokens@[old(self).pos as int].text@),
                Err(e) => e matches LowerError::PatternVariableOutOfScope(n) && n@ == old(self).tokens@[old(self).pos as int].text@,
            },
            (kind_at(old(self).tokens@, old(self).pos as int) matches Some(k) && !starts_primary(k)) ==> (r
                == Err::<ExprId, LowerError>(unsupported_at(old(self).tokens@, old(self).pos as int)) && final(self).pos == old(self).pos
                && final(b).body == old(b).body),
        decreases fuel,
    {
        proof {
            lemma_builder_refl(b);
        }
        if self.pos >= self.tokens.len() {
            return Err(self.unsupported_here());
        }
        let kind = self.tokens[self.pos].kind;
        let text = self.tokens[self.pos].text.clone();
        match kind {
            SyntaxKind::IntLiteral => {
                self.pos = self.pos + 1;
                Ok(b.alloc_expr(Expr::IntLiteral(parse_int_literal(text.as_str()))))
            },
            SyntaxKind::LongLiteral => {
                self.pos = self.pos + 1;
                Ok(b.alloc_expr(Expr::LongLiteral(parse_int_literal(text.as_str()))))
            },
            SyntaxKind::FloatLiteral => {
                self.pos = self.pos + 1;
                if has_float_suffix(text.as_str()) {
                    Ok(b.alloc_expr(Expr::FloatLiteral(float_literal_text(text.as_str()))))
                } else {
                    Ok(b.alloc_expr(Expr::DoubleLiteral(float_literal_text(text.as_str()))))
                }
            },
            SyntaxKind::DoubleLiteral => {
                self.pos = self.pos + 1;
                Ok(b.alloc_expr(Expr::DoubleLiteral(float_literal_text(text.as_str()))))
            },
            SyntaxKind::CharLiteral => {
                self.pos = self.pos + 1;
                Ok(b.alloc_expr(Expr::CharLiteral(parse_char_literal(text.as_str()))))
            },
            SyntaxKind::StringLiteral => {
                self.pos = self.pos + 1;
                Ok(b.alloc_expr(Expr::StringLiteral(string_literal_value(text.as_str()))))
            },
            SyntaxKind::TrueKw => {
                self.pos = self.pos + 1;
                Ok(b.alloc_expr(Expr::BoolLiteral(true)))
            },
            SyntaxKind::FalseKw => {
                self.pos = self.pos + 1;
                Ok(b.alloc_expr(Expr::BoolLiteral(false)))
            },
            SyntaxKind::NullKw => {
                self.pos = self.pos + 1;
                Ok(b.alloc_expr(Expr::NullLiteral))
            },
            SyntaxKind::ThisKw => {
                self.pos = self.pos + 1;
                Ok(b.alloc_expr(Expr::This))
            },
            SyntaxKind::SuperKw => {
                self.pos = self.pos + 1;
                Ok(b.alloc_expr(Expr::Super))
            },
            SyntaxKind::NewKw => {
                if fuel == 0 {
                    return Err(self.unsupported_here());
                }
                self.parse_new_expr(b, fuel - 1)
            },
            SyntaxKind::Ident => {
                if self.at_ident_lambda() {
                    if fuel == 0 {
                        return Err(self.unsupported_here());
                    }
                    return self.parse_ident_lambda(b, fuel - 1);
                }
                let name = self.expect_ident()?;
                if b.pattern_name_is_out_of_scope(name.as_str()) {
                    return Err(LowerError::PatternVariableOutOfScope(name));
                }
                if self.peek_kind() == Some(SyntaxKind::Dot) && b.local_ty(name.as_str()).is_none() {
                    match b.type_resolver.resolve_type_name(name.as_str(), &Vec::new()) {
                        Ok(Ty::Class(c)) => {
                            return Ok(b.alloc_expr(Expr::ClassName(c)));
                        },
                        _ => {},
                    }
                }
                Ok(b.alloc_expr(Expr::Ident(name)))
            },
            SyntaxKind::LParen => {
                if fuel == 0 {
                    return Err(self.unsupported_here());
                }
                if self.is_lambda_paren() {
                    return self.parse_parenthesized_lambda(b, fuel - 1);
                }
                self.pos = self.pos + 1;
                let inner = self.parse_expr(b, fuel - 1)?;
                self.expect(SyntaxKind::RParen)?;
                Ok(b.alloc_expr(Expr::Parens(inner)))
            },
            _ => Err(self.unsupported_here()),
        }
    }

    /// `x -> body`.
    pub fn parse_ident_lambda(&mut self, b: &mut BodyBuilder, fuel: u32) -> (r: Result<ExprId, LowerError>)
        requires
            old(self).pos < old(self).tokens@.len(),
            old(b).body.wf(),
        ensures
            r matches Ok(id) ==> !(final(b).body.exprs@[id as int] is Binary),
            moved_on(final(self), old(self)),
            lowered_to(final(b), old(b), r),
            r is Ok ==> old(self).pos < final(self).pos,
        decreases fuel,
    {
        proof {
            lemma_builder_refl(b);
        }
        if fuel == 0 {
            return Err(self.unsupported_here());
        }
        let name = self.tokens[self.pos].text.clone();
        self.bump();
        self.expect(SyntaxKind::Arrow)?;
        let mut params: Vec<LambdaParam> = Vec::new();
        params.push(LambdaParam { ty: None, name });
        self.finish_lambda(b, params, fuel - 1)
    }

    /// `(a, b) -> body`.
    pub fn parse_parenthesized_lambda(&mut self, b: &mut BodyBuilder, fuel: u32) -> (r: Result<
        ExprId,
        LowerError,
    >)
        requires
            old(self).pos <= old(self).tokens@.len(),
            old(b).body.wf(),
        ensures
            r matches Ok(id) ==> !(final(b).body.exprs@[id as int] is Binary),
            moved_on(final(self), old(self)),
            lowered_to(final(b), old(b), r),
            r is Ok ==> old(self).pos < final(self).pos,
        decreases fuel,
    {
        proof {
            lemma_builder_refl(b);
        }
        if fuel == 0 {
            return Err(self.unsupported_here());
        }
        self.expect(SyntaxKind::LParen)?;
        let params = self.parse_lambda_params()?;
        self.expect(SyntaxKind::Arrow)?;
        self.finish_lambda(b, params, fuel - 1)
    }

    /// Lambda parameter names up to `)`.
    pub fn parse_lambda_params(&mut self) -> (r: Result<Vec<LambdaParam>, LowerError>)
        requires
            old(self).pos <= old(self).tokens@.len(),
        ensures
            moved_on(final(self), old(self)),
            r matches Ok(ps) ==> forall|i: int| 0 <= i < ps@.len() ==> ps@[i].ty is None,
            match r {
                Ok(ps) => lambda_params_of(old(self).tokens@, old(self).pos as int) == Some(
                    (param_names(ps@), final(self).pos as int),
                ),
                Err(e) => lambda_params_of(old(self).tokens@, old(self).pos as int) is None && e
                    == unsupported_at(old(self).tokens@, final(self).pos as int),
            },
    {
        let mut params: Vec<LambdaParam> = Vec::new();
        if self.eat(SyntaxKind::RParen) {
            proof {
                assert(param_names(params@) =~= Seq::<Seq<char>>::empty());
            }
            return Ok(params);
        }
        let ghost ts = self.tokens@;
        loop
            invariant
                moved_on(self, old(self)),
                ts == self.tokens@,
                self.pos <= ts.len(),
                forall|i: int| 0 <= i < params@.len() ==> params@[i].ty is None,
                lambda_params_of(ts, old(self).pos as int) == match lambda_names_from(ts, self.pos as int) {
                    Some((ns, e)) => Some((param_names(params@) + ns, e)),
                    None => None,
                },
            decreases self.tokens@.len() - self.pos,
        {
            let ghost p = self.pos as int;
            let ghost before = params@;
            let name = self.expect_ident()?;
            params.push(LambdaParam { ty: None, name });
            proof {
                assert(param_names(params@) =~= param_names(before).push(ts[p].text@));
            }
            if self.eat(SyntaxKind::Comma) {
                proof {
                    match lambda_names_from(ts, p + 2) {
                        Some((ns, e)) => {
                            assert(param_names(before) + (seq![ts[p].text@] + ns) =~= param_names(params@) + ns);
                        },
                        None => {},
                    }
                }
                continue;
            }
            self.expect(SyntaxKind::RParen)?;
            proof {
                assert(param_names(before) + seq![ts[p].text@] =~= param_names(params@));
            }
            return Ok(params);
        }
    }

    /// The body of a lambda, its parameters in scope as `Object`.
    pub fn finish_lambda(&mut self, b: &mut BodyBuilder, params: Vec<LambdaParam>, fuel: u32) -> (r: Result<
        ExprId,
        LowerError,
    >)
        requires
            old(self).pos <= old(self).tokens@.len(),
            old(b).body.wf(),
        ensures
            r matches Ok(id) ==> !(final(b).body.exprs@[id as int] is Binary),
            moved_on(final(self), old(self)),
            lowered_to(final(b), old(b), r),
            r matches Ok(id) ==> final(b).body.exprs@[id as int] is Lambda,
        decreases fuel,
    {
        proof {
            lemma_builder_refl(b);
        }
        if fuel == 0 {
            return Err(self.unsupported_here());
        }
        b.enter_scope();
        let mut i: usize = 0;
        while i < params.len()
            invariant
                i <= params@.len(),
                builder_grows(b, old(b)),
            decreases params@.len() - i,
        {
            b.define_local(params[i].name.as_str(), Ty::object());
            i = i + 1;
        }
        let ghost b1 = *b;
        let body = self.parse_lambda_body(b, fuel - 1);
        let ghost b2 = *b;
        b.exit_scope();
        proof {
            lemma_builder_trans(old(b), &b1, &b2);
            lemma_builder_refl(&b2);
            assert(builder_grows(b, &b2));
        }
        let body = body?;
        Ok(b.alloc_expr(Expr::Lambda { params, body, target_ty: None }))
    }

    /// An expression, or a block (whose statements are not lowered).
    pub fn parse_lambda_body(&mut self, b: &mut BodyBuilder, fuel: u32) -> (r: Result<LambdaBody, LowerError>)
        requires
            old(self).pos <= old(self).tokens@.len(),
            old(b).body.wf(),
        ensures
            moved_on(final(self), old(self)),
            builder_grows(final(b), old(b)),
            r matches Ok(LambdaBody::Expr(e)) ==> e < final(b).body.exprs@.len(),
        decreases fuel,
    {
        proof {
            lemma_builder_refl(b);
        }
        if fuel == 0 {
            return Err(self.unsupported_here());
        }
        if self.peek_kind() == Some(SyntaxKind::LBrace) {
            self.skip_block_tokens();
            return Ok(LambdaBody::Block(Block { stmts: Vec::new() }));
        }
        let e = self.parse_expr(b, fuel - 1)?;
        Ok(LambdaBody::Expr(e))
    }

    /// `new T(args)`, `new T(args) { body }`, or `new T[n]...{init}`.
    pub fn parse_new_expr(&mut self, b: &mut BodyBuilder, fuel: u32) -> (r: Result<ExprId, LowerError>)
        requires
            old(self).pos <= old(self).tokens@.len(),
            old(b).body.wf(),
        ensures
            r matches Ok(id) ==> !(final(b).body.exprs@[id as int] is Binary),
            moved_on(final(self), old(self)),
            lowered_to(final(b), old(b), r),
            r is Ok ==> old(self).pos < final(self).pos,
        decreases fuel,
    {
        proof {
            lemma_builder_refl(b);
        }
        if fuel == 0 {
            return Err(self.unsupported_here());
        }
        self.expect(SyntaxKind::NewKw)?;
        let element_type = self.parse_type_base(b)?;
        if self.eat(SyntaxKind::LParen) {
            let args = self.parse_args_after_open_paren(b, fuel - 1)?;
            if self.peek_kind() == Some(SyntaxKind::LBrace) || self.at_anonymous_body_member() {
                return self.finish_anonymous_object(b, element_type, args, fuel - 1);
            }
            return Ok(b.alloc_expr(Expr::NewObject { class: element_type, args, anonymous: None }));
        }
        let mut dimensions: Vec<Option<ExprId>> = Vec::new();
        while self.eat(SyntaxKind::LBrack)
            invariant
                moved_on(self, old(self)),
                old(self).pos < self.pos,
                builder_grows(b, old(b)),
                forall|i: int| 0 <= i < dimensions@.len() ==> (#[trigger] dimensions@[i] matches Some(d) ==> d
                    < b.body.exprs@.len()),
            decreases self.tokens@.len() - self.pos,
        {
            if self.eat(SyntaxKind::RBrack) {
                dimensions.push(None);
            } else {
                let size = self.parse_expr(b, fuel - 1)?;
                self.expect(SyntaxKind::RBrack)?;
                dimensions.push(Some(size));
            }
        }
        let initializer = if self.eat(SyntaxKind::LBrace) {
            Some(self.parse_array_initializer(b, fuel - 1)?)
        } else {
            None
        };
        Ok(b.alloc_expr(Expr::NewArray { element_type, dimensions, initializer }))
    }

    /// Array elements after `{`, up to `}`, a trailing comma allowed.
    pub fn parse_array_initializer(&mut self, b: &mut BodyBuilder, fuel: u32) -> (r: Result<
        ArrayInit,
        LowerError,
    >)
        requires
            old(self).pos <= old(self).tokens@.len(),
            old(b).body.wf(),
        ensures
            moved_on(final(self), old(self)),
            builder_grows(final(b), old(b)),
            r matches Ok(init) ==> forall|i: int|
                0 <= i < init.elements@.len() ==> init.elements@[i] < final(b).body.exprs@.len(),
        decreases fuel,
    {
        proof {
            lemma_builder_refl(b);
        }
        let mut elements: Vec<ExprId> = Vec::new();
        if fuel == 0 {
            return Err(self.unsupported_here());
        }
        if self.eat(SyntaxKind::RBrace) {
            return Ok(ArrayInit { elements });
        }
        loop
            invariant
                moved_on(self, old(self)),
                builder_grows(b, old(b)),
                forall|i: int| 0 <= i < elements@.len() ==> elements@[i] < b.body.exprs@.len(),
            decreases self.tokens@.len() - self.pos,
        {
            let e = self.parse_expr(b, fuel - 1)?;
            elements.push(e);
            if self.eat(SyntaxKind::Comma) {
                if self.eat(SyntaxKind::RBrace) {
                    break;
                }
                continue;
            }
            self.expect(SyntaxKind::RBrace)?;
            break;
        }
        Ok(ArrayInit { elements })
    }

    /// A type with `[]` suffixes.
    pub fn parse_type(&mut self, b: &BodyBuilder) -> (r: Result<Ty, LowerError>)
        requires
            old(self).pos <= old(self).tokens@.len(),
        ensures
            moved_on(final(self), old(self)),
            type_base_end(old(self).tokens@, old(self).pos as int) is None ==> r is Err,
            primitive_ty(kind_at(old(self).tokens@, old(self).pos as int)) matches Some(bt) ==> match dims_after(
                old(self).tokens@,
                old(self).pos + 1,
            ) {
                Some((n, e)) => r == Ok::<Ty, LowerError>(array_of(bt, n)) && final(self).pos == e,
                None => r is Err,
            },
    {
        let ghost ts = self.tokens@;
        let ghost p0 = self.pos as int;
        let mut ty = self.parse_type_base(b)?;
        let ghost m = self.pos as int;
        let ghost bt = ty;
        let ghost mut k: nat = 0;
        while self.eat(SyntaxKind::LBrack)
            invariant
                moved_on(self, old(self)),
                ts == self.tokens@,
                ty == array_of(bt, k),
                dims_after(ts, m) == match dims_after(ts, self.pos as int) {
                    Some((n, e)) => Some((n + k, e)),
                    None => None,
                },
            decreases self.tokens@.len() - self.pos,
        {
            self.expect(SyntaxKind::RBrack)?;
            ty = Ty::Array(Box::new(ty));
            proof {
                k = k + 1;
            }
        }
        Ok(ty)
    }

    /// A primitive type, or a (qualified) class name resolved in scope.
    pub fn parse_type_base(&mut self, b: &BodyBuilder) -> (r: Result<Ty, LowerError>)
        requires
            old(self).pos <= old(self).tokens@.len(),
        ensures
            moved_on(final(self), old(self)),
            kind_at(old(self).tokens@, old(self).pos as int) == Some(SyntaxKind::IntKw) ==> r == Ok::<
                Ty,
                LowerError,
            >(Ty::Int),
            kind_at(old(self).tokens@, old(self).pos as int) == Some(SyntaxKind::BooleanKw) ==> r == Ok::<
                Ty,
                LowerError,
            >(Ty::Boolean),
            primitive_ty(kind_at(old(self).tokens@, old(self).pos as int)) matches Some(t) ==> r == Ok::<Ty, LowerError>(t)
                && final(self).pos == old(self).pos + 1,
            type_base_end(old(self).tokens@, old(self).pos as int) is None ==> r is Err,
            r is Ok ==> Some(final(self).pos as int) == type_base_end(old(self).tokens@, old(self).pos as int),
    {
        if self.pos >= self.tokens.len() {
            return Err(self.unsupported_here());
        }
        let ty = match self.tokens[self.pos].kind {
            SyntaxKind::BooleanKw => Ty::Boolean,
            SyntaxKind::ByteKw => Ty::Byte,
            SyntaxKind::CharKw => Ty::Char,
            SyntaxKind::ShortKw => Ty::Short,
            SyntaxKind::IntKw => Ty::Int,
            SyntaxKind::LongKw => Ty::Long,
            SyntaxKind::FloatKw => Ty::Float,
            SyntaxKind::DoubleKw => Ty::Double,
            SyntaxKind::Ident => {
                return self.parse_type_name(b);
            },
            _ => {
                return Err(self.unsupported_here());
            },
        };
        self.pos = self.pos + 1;
        Ok(ty)
    }

    /// `a.b.C`, joined with dots and resolved.
    pub fn parse_type_name(&mut self, b: &BodyBuilder) -> (r: Result<Ty, LowerError>)
        requires
            old(self).pos <= old(self).tokens@.len(),
        ensures
            moved_on(final(self), old(self)),
            dotted_name_from(old(self).tokens@, old(self).pos as int) is None ==> r is Err,
            dotted_name_from(old(self).tokens@, old(self).pos as int) matches Some((n, e)) ==> {
                &&& final(self).pos == e
                &&& r matches Err(err) ==> (err matches LowerError::UnknownType(m) && m@ == n)
                &&& (b.type_resolver.current_class matches Some(cur) && after_last(cur@, '/') == n) ==> (r matches Ok(
                    t,
                ) && t@ == TyModel::Class(b.type_resolver.current_class->0@))
            },
    {
        let ghost ts = self.tokens@;
        let mut name = self.expect_ident()?;
        proof {
            assert(dotted_name_from(ts, old(self).pos as int) == dotted_rest(ts, self.pos as int, name@));
        }
        while self.eat(SyntaxKind::Dot)
            invariant
                moved_on(self, old(self)),
                ts == self.tokens@,
                dotted_name_from(ts, old(self).pos as int) == dotted_rest(ts, self.pos as int, name@),
            decreases self.tokens@.len() - self.pos,
        {
            let ghost before = name@;
            let ghost p = self.pos as int;
            let seg = self.expect_ident()?;
            name.append(".");
            name.append(seg.as_str());
            proof {
                reveal_strlit(".");
                assert(name@ == before + seq!['.'] + ts[p].text@);
            }
        }
        let v: Vec<String> = Vec::new();
        proof {
            assert(v@.len() == 0);
        }
        b.type_resolver.resolve_type_name(name.as_str(), &v)
    }
}

/// A character after which tokens join without a space.
pub open spec fn joins_without_space(c: char) -> bool {
    c == '\n' || c == ' ' || c == '{' || c == '('
}

/// The source text of tokens: each token's text, preceded by a space unless the
/// text so far ends in a newline, a space, `{` or `(`.
pub open spec fn source_of(ts: Seq<ExprToken>) -> Seq<char>
    decreases ts.len(),
{
    if ts.len() == 0 {
        Seq::empty()
    } else {
        let prev = source_of(ts.drop_last());
        let sep = if prev.len() > 0 && joins_without_space(prev.last()) {
            Seq::<char>::empty()
        } else {
            seq![' ']
        };
        prev + sep + ts.last().text@
    }
}

/// The source text of tokens.
pub fn token_source(tokens: &Vec<ExprToken>) -> (r: String)
    ensures
        r@ == source_of(tokens@),
{
    let mut source = String::new();
    let mut i: usize = 0;
    while i < tokens.len()
        invariant
            i <= tokens@.len(),
            source@ == source_of(tokens@.subrange(0, i as int)),
        decreases tokens@.len() - i,
    {
        proof {
            assert(tokens@.subrange(0, i + 1).drop_last() =~= tokens@.subrange(0, i as int));
        }
        let n = source.unicode_len();
        let joined = n > 0 && {
            let c = source.get_char(n - 1);
            c == '\n' || c == ' ' || c == '{' || c == '('
        };
        if !joined {
            source.append(" ");
        }
        source.append(tokens[i].text.as_str());
        proof {
            reveal_strlit(" ");
        }
        i = i + 1;
    }
    proof {
        assert(tokens@.subrange(0, tokens@.len() as int) =~= tokens@);
    }
    source
}

/// The error for an unsupported expression placed at the first token, if any.
pub fn unsupported_at_first(tokens: &Vec<ExprToken>) -> (r: LowerError)
    ensures
        r == unsupported_at(tokens@, 0),
{
    if tokens.len() > 0 {
        LowerError::UnsupportedExpressionAt { line: tokens[0].line, range: Some(tokens[0].range) }
    } else {
        LowerError::UnsupportedExpression
    }
}

/// Parses an anonymous class body as the body of `class Anonymous`; gives the
/// events and the range of its `ClassBody`. A body
/// that does not parse is refused.
pub fn parse_anonymous_class_body(tokens: &Vec<ExprToken>) -> (r: Result<(Vec<Event>, usize, usize), LowerError>)
    ensures
        r matches Ok((evs, s, e)) ==> s < e <= evs@.len(),
        r matches Err(err) ==> err == unsupported_at(tokens@, 0),
{
    let body = token_source(tokens);
    let opens_with_brace = tokens.len() > 0 && tokens[0].kind == SyntaxKind::LBrace;
    let mut source = String::from_str("class Anonymous ");
    if opens_with_brace {
        source.append(body.as_str());
    } else {
        source.append("{ ");
        source.append(body.as_str());
        source.append(" }");
    }
    if !source_fits(source.as_str()) {
        return Err(unsupported_at_first(tokens));
    }
    let parse = Parser::parse(source.as_str());
    if parse.errors.len() > 0 {
        return Err(unsupported_at_first(tokens));
    }
    let evs = parse.events;
    if evs.len() == 0 {
        return Err(unsupported_at_first(tokens));
    }
    let end = next_sibling(&evs, 0, evs.len());
    let (cs, ce) = match child_node(&evs, 0, end, SyntaxKind::ClassDecl) {
        Some(r) => r,
        None => {
            return Err(unsupported_at_first(tokens));
        },
    };
    match child_node(&evs, cs, ce, SyntaxKind::ClassBody) {
        Some((bs, be)) => Ok((evs, bs, be)),
        None => Err(unsupported_at_first(tokens)),
    }
}

/// The digit character of `d`.
pub open spec fn digit_char(d: int) -> char {
    if d == 0 {
        '0'
    } else if d == 1 {
        '1'
    } else if d == 2 {
        '2'
    } else if d == 3 {
        '3'
    } else if d == 4 {
        '4'
    } else if d == 5 {
        '5'
    } else if d == 6 {
        '6'
    } else if d == 7 {
        '7'
    } else if d == 8 {
        '8'
    } else {
        '9'
    }
}

/// The decimal digits of `n`, most significant first.
pub open spec fn decimal_text(n: nat) -> Seq<char>
    decreases n,
{
    if n < 10 {
        seq![digit_char(n as int)]
    } else {
        decimal_text(n / 10).push(digit_char((n % 10) as int))
    }
}

/// The decimal digits of `n`.
pub fn decimal(n: u32) -> (r: String)
    ensures
        r@ == decimal_text(n as nat),
    decreases n,
{
    let mut s = if n < 10 {
        String::new()
    } else {
        decimal(n / 10)
    };
    let d = n % 10;
    let c = if d == 0 {
        '0'
    } else if d == 1 {
        '1'
    } else if d == 2 {
        '2'
    } else if d == 3 {
        '3'
    } else if d == 4 {
        '4'
    } else if d == 5 {
        '5'
    } else if d == 6 {
        '6'
    } else if d == 7 {
        '7'
    } else if d == 8 {
        '8'
    } else {
        '9'
    };
    push_char(&mut s, c);
    proof {
        if n < 10 {
            assert(s@ =~= seq![digit_char(n as int)]);
        }
    }
    s
}

/// The name of the `n`th anonymous class of `owner`: `Owner$n`.
pub open spec fn anonymous_name(owner: Seq<char>, n: nat) -> Seq<char> {
    owner + "$"@ + decimal_text(n)
}

/// Different numbers have different decimal digits.
pub proof fn lemma_decimal_text_injective(a: nat, b: nat)
    requires
        decimal_text(a) == decimal_text(b),
    ensures
        a == b,
    decreases a,
{
    if a < 10 && b < 10 {
        assert(decimal_text(a) == seq![digit_char(a as int)]);
        assert(decimal_text(b) == seq![digit_char(b as int)]);
        assert(decimal_text(a)[0] == digit_char(a as int));
        assert(decimal_text(b)[0] == digit_char(b as int));
        assert(digit_char(a as int) == digit_char(b as int));
    } else if a >= 10 && b >= 10 {
        let pa = decimal_text(a / 10);
        let pb = decimal_text(b / 10);
        assert(decimal_text(a) == pa.push(digit_char((a % 10) as int)));
        assert(decimal_text(b) == pb.push(digit_char((b % 10) as int)));
        assert(decimal_text(a).drop_last() =~= pa);
        assert(decimal_text(b).drop_last() =~= pb);
        assert(decimal_text(a).last() == digit_char((a % 10) as int));
        assert(decimal_text(b).last() == digit_char((b % 10) as int));
        assert(digit_char((a % 10) as int) == digit_char((b % 10) as int));
        assert(a % 10 == b % 10);
        lemma_decimal_text_injective(a / 10, b / 10);
        assert(a == 10 * (a / 10) + a % 10) by (nonlinear_arith);
        assert(b == 10 * (b / 10) + b % 10) by (nonlinear_arith);
    } else {
        lemma_decimal_text_long(if a >= 10 { a } else { b });
        assert(decimal_text(if a >= 10 { b } else { a }).len() == 1);
    }
}

proof fn lemma_decimal_text_long(n: nat)
    requires
        n >= 10,
    ensures
        decimal_text(n).len() >= 2,
    decreases n,
{
    assert(decimal_text(n) == decimal_text(n / 10).push(digit_char((n % 10) as int)));
    if n / 10 >= 10 {
        lemma_decimal_text_long(n / 10);
    } else {
        assert(decimal_text(n / 10).len() == 1);
    }
}

/// Two anonymous classes made one after the other by the same builder are named
/// `Owner$(k + 1)` and `Owner$(k + 2)`, where `k` counts those made before: the
/// names differ.
pub proof fn law_anonymous_names(owner: Seq<char>, k: nat)
    ensures
        anonymous_name(owner, k + 1) != anonymous_name(owner, k + 2),
{
    if anonymous_name(owner, k + 1) == anonymous_name(owner, k + 2) {
        let p = owner + "$"@;
        assert(anonymous_name(owner, k + 1).subrange(p.len() as int, anonymous_name(owner, k + 1).len() as int)
            =~= decimal_text(k + 1));
        assert(anonymous_name(owner, k + 2).subrange(p.len() as int, anonymous_name(owner, k + 2).len() as int)
            =~= decimal_text(k + 2));
        lemma_decimal_text_injective(k + 1, k + 2);
    }
}

#[verifier::loop_isolation(false)]
impl ExprLowerer {
    /// The tokens of an anonymous class body, from its `{` to the matching `}`.
    pub fn take_anonymous_body_tokens(&mut self) -> (r: Result<Vec<ExprToken>, LowerError>)
        requires
            old(self).pos <= old(self).tokens@.len(),
        ensures
            moved_on(final(self), old(self)),
            r is Ok ==> old(self).pos < final(self).pos,
            r matches Err(e) ==> is_unsupported(e),
    {
        if self.peek_kind() != Some(SyntaxKind::LBrace) {
            return self.take_body_tokens_without_open_brace();
        }
        let mut depth: usize = 0;
        let mut tokens: Vec<ExprToken> = Vec::new();
        loop
            invariant
                moved_on(self, old(self)),
                depth <= self.pos,
                self.pos == old(self).pos ==> depth == 0,
            decreases self.tokens@.len() - self.pos,
        {
            if self.pos >= self.tokens.len() {
                return Err(self.unsupported_here());
            }
            let token = self.tokens[self.pos].clone();
            let kind = self.tokens[self.pos].kind;
            self.bump();
            if kind == SyntaxKind::LBrace {
                depth = depth + 1;
            } else if kind == SyntaxKind::RBrace {
                if depth > 0 {
                    depth = depth - 1;
                }
                tokens.push(token);
                if depth == 0 {
                    return Ok(tokens);
                }
                continue;
            }
            tokens.push(token);
        }
    }

    /// The tokens of a class body written without its `{`, up to the `}` that
    /// closes it, which is read but not kept.
    pub fn take_body_tokens_without_open_brace(&mut self) -> (r: Result<Vec<ExprToken>, LowerError>)
        requires
            old(self).pos <= old(self).tokens@.len(),
        ensures
            moved_on(final(self), old(self)),
            r is Ok ==> old(self).pos < final(self).pos,
            r matches Err(e) ==> is_unsupported(e),
    {
        let mut depth: usize = 0;
        let mut tokens: Vec<ExprToken> = Vec::new();
        loop
            invariant
                moved_on(self, old(self)),
                depth <= self.pos,
            decreases self.tokens@.len() - self.pos,
        {
            if self.pos >= self.tokens.len() {
                return Err(self.unsupported_here());
            }
            let token = self.tokens[self.pos].clone();
            let kind = self.tokens[self.pos].kind;
            self.bump();
            if kind == SyntaxKind::LBrace {
                depth = depth + 1;
                tokens.push(token);
            } else if kind == SyntaxKind::RBrace {
                if depth == 0 {
                    return Ok(tokens);
                }
                depth = depth - 1;
                tokens.push(token);
            } else {
                tokens.push(token);
            }
        }
    }

    /// The next anonymous class name of the current class: `Owner$N`, counting
    /// from 1. Without a current class, or past the
    /// counter's range, it is refused.
    pub fn next_anonymous_class_name(&self, b: &mut BodyBuilder) -> (r: Result<String, LowerError>)
        ensures
            final(b).body == old(b).body,
            final(b).type_resolver == old(b).type_resolver,
            final(b).can_capture_this == old(b).can_capture_this,
            final(b).enclosing_static_owner == old(b).enclosing_static_owner,
            r is Ok ==> final(b).anonymous_counter == old(b).anonymous_counter + 1,
            r is Err ==> final(b).anonymous_counter == old(b).anonymous_counter,
            final(b).anonymous_types == old(b).anonymous_types,
            r is Ok <==> (old(b).type_resolver.current_class is Some && old(b).anonymous_counter < u32::MAX),
            r matches Ok(n) ==> n@ == anonymous_name(
                old(b).type_resolver.current_class->0@,
                (old(b).anonymous_counter + 1) as nat,
            ),
    {
        let owner = match &b.type_resolver.current_class {
            Some(c) => c.clone(),
            None => {
                return Err(self.unsupported_here());
            },
        };
        if b.anonymous_counter == u32::MAX {
            return Err(self.unsupported_here());
        }
        let next = b.anonymous_counter + 1;
        b.anonymous_counter = next;
        let mut name = owner;
        name.append("$");
        name.append(decimal(next).as_str());
        proof {
            reveal_strlit("$");
        }
        Ok(name)
    }

    /// `new T(args) { body }`: the body becomes a class of its own, `Owner$N`,
    /// extending `T`, whose constructor takes the enclosing instance (where it
    /// can be captured) and then the arguments, and passes the arguments to `T`'s
    /// constructor; its methods are lowered like any class's. The class is kept
    /// with the builder, and the expression creates an instance of it
    ///. The catalog records no interfaces, so `T` is
    /// taken as the superclass, and the constructor's parameters are the
    /// arguments' types.
    pub fn finish_anonymous_object(&mut self, b: &mut BodyBuilder, base_type: Ty, args: Vec<ExprId>, fuel: u32) -> (r:
        Result<ExprId, LowerError>)
        requires
            old(self).pos <= old(self).tokens@.len(),
            old(b).body.wf(),
            forall|i: int| 0 <= i < args@.len() ==> args@[i] < old(b).body.exprs@.len(),
        ensures
            r matches Ok(id) ==> !(final(b).body.exprs@[id as int] is Binary),
            moved_on(final(self), old(self)),
            lowered_to(final(b), old(b), r),
            r is Ok ==> old(self).pos < final(self).pos,
            r matches Ok(id) ==> (final(b).body.exprs@[id as int] matches Expr::NewObject { anonymous, .. }
                && anonymous matches Some(a) && a.class_name@ == anonymous_name(
                old(b).type_resolver.current_class->0@,
                (old(b).anonymous_counter + 1) as nat,
            )),
            r is Ok ==> final(b).anonymous_types@.len() == old(b).anonymous_types@.len() + 1 && final(b).anonymous_types@.last().name@
                == anonymous_name(
                old(b).type_resolver.current_class->0@,
                (old(b).anonymous_counter + 1) as nat,
            ) && final(b).anonymous_counter == old(b).anonymous_counter + 1,
            r is Ok ==> anonymous_class_shape(final(b).anonymous_types@.last(), base_type@, old(b).can_capture_this),
            r is Ok ==> final(b).anonymous_types@.drop_last() == old(b).anonymous_types@,
            r matches Ok(id) ==> (final(b).body.exprs@[id as int] matches Expr::NewObject { class, .. } && class@
                == base_type@),
        decreases fuel,
    {
        proof {
            lemma_builder_refl(b);
        }
        if fuel == 0 {
            return Err(self.unsupported_here());
        }
        let body_tokens = self.take_anonymous_body_tokens()?;
        let (evs, bs, be) = parse_anonymous_class_body(&body_tokens)?;
        let ghost b0 = *b;
        let class_name = self.next_anonymous_class_name(b)?;
        proof {
            lemma_builder_refl(&b0);
            assert(builder_grows(b, &b0));
        }
        let is_interface = match &base_type {
            Ty::Class(n) => is_platform_interface(n.as_str()),
            _ => false,
        };
        proof {
            assert(is_interface == names_interface(base_type@));
        }
        let mut super_params: Vec<Ty> = Vec::new();
        let mut i: usize = 0;
        while i < args.len() && !is_interface
            invariant
                i <= args@.len(),
                b.body.wf(),
                forall|k: int| 0 <= k < args@.len() ==> args@[k] < b.body.exprs@.len(),
                is_interface ==> super_params@.len() == 0,
            decreases args@.len() - i,
        {
            super_params.push(b.expr_ty(args[i]));
            i = i + 1;
        }
        let super_owner = if is_interface {
            Ty::object()
        } else {
            base_type.copy()
        };
        let captures_this = b.can_capture_this;
        let this_ty = b.type_resolver.current_class_ty();
        let mut constructor_params: Vec<ParamDecl> = Vec::new();
        let mut constructor_types: Vec<Ty> = Vec::new();
        if captures_this {
            constructor_params.push(ParamDecl { name: String::from_str("this$0"), ty: this_ty.copy() });
            constructor_types.push(this_ty.copy());
        }
        let mut k: usize = 0;
        while k < super_params.len()
            invariant
                k <= super_params@.len(),
            decreases super_params@.len() - k,
        {
            let mut pname = String::from_str("arg");
            pname.append(decimal(crate::numeric::low_u32(k)).as_str());
            constructor_params.push(ParamDecl { name: pname, ty: super_params[k].copy() });
            constructor_types.push(super_params[k].copy());
            k = k + 1;
        }
        let mut resolver = b.type_resolver.clone();
        resolver.current_class = Some(class_name.clone());
        let (mut members, inner_types) = lower_class_methods(&evs, bs, be, &resolver, fuel - 1)?;
        let mut fields: Vec<FieldDecl> = Vec::new();
        let outer_this = if captures_this {
            fields.push(
                FieldDecl {
                    id: HirId(0),
                    name: String::from_str("this$0"),
                    ty: this_ty.copy(),
                    access_flags: opcodes::ACC_PRIVATE | opcodes::ACC_FINAL | opcodes::ACC_SYNTHETIC,
                    body: Body::new(),
                    initializer: None,
                },
            );
            Some(OuterThisInfo { field_name: String::from_str("this$0"), ty: this_ty.copy() })
        } else {
            None
        };
        let arg_offset: usize = if captures_this {
            1
        } else {
            0
        };
        let mut own_params: Vec<Ty> = Vec::new();
        let mut q: usize = 0;
        while q < super_params.len()
            invariant
                q <= super_params@.len(),
            decreases super_params@.len() - q,
        {
            own_params.push(super_params[q].copy());
            q = q + 1;
        }
        let constructor = MethodDecl {
            id: HirId(0),
            name: String::from_str("<init>"),
            params: constructor_params,
            signature: MethodSig::new(String::from_str("<init>"), constructor_types, Ty::Void),
            access_flags: 0,
            body: Body::new(),
            root_block: Some(Block { stmts: Vec::new() }),
            constructor_call: Some(SuperConstructorCall { owner: super_owner.copy(), params: own_params, arg_offset }),
        };
        let mut methods: Vec<MethodDecl> = Vec::new();
        methods.push(constructor);
        methods.append(&mut members);
        let mut outer_fields: Vec<CapturedField> = Vec::new();
        let mut f: usize = 0;
        while f < b.outer_fields.len()
            invariant
                f <= b.outer_fields@.len(),
            decreases b.outer_fields@.len() - f,
        {
            let of = &b.outer_fields[f];
            outer_fields.push(CapturedField { name: of.name.clone(), ty: of.ty.copy(), access_flags: of.access_flags });
            f = f + 1;
        }
        let mut call_params: Vec<Ty> = Vec::new();
        let mut c: usize = 0;
        while c < super_params.len()
            invariant
                c <= super_params@.len(),
                call_params@.len() == c,
            decreases super_params@.len() - c,
        {
            call_params.push(super_params[c].copy());
            c = c + 1;
        }
        let mut interfaces: Vec<Ty> = Vec::new();
        let super_class = if is_interface {
            interfaces.push(base_type.copy());
            None
        } else {
            Some(base_type.copy())
        };
        let anonymous_type = TypeDecl {
            id: HirId(0),
            name: class_name.clone(),
            kind: TypeDeclKind::Class,
            access_flags: 0,
            super_class,
            interfaces,
            type_params: Vec::new(),
            fields,
            methods,
            inner_types,
            anonymous: Some(
                AnonymousClassInfo {
                    super_constructor: SuperConstructorCall { owner: super_owner, params: call_params, arg_offset },
                    outer_this,
                    enclosing_static_owner: b.enclosing_static_owner.clone(),
                    outer_fields,
                },
            ),
        };
        let ghost b1 = *b;
        proof {
            assert(anonymous_class_shape(anonymous_type, base_type@, old(b).can_capture_this));
        }
        b.anonymous_types.push(anonymous_type);
        proof {
            lemma_builder_refl(&b1);
            assert(builder_grows(b, &b1));
        }
        let id = b.alloc_expr(
            Expr::NewObject {
                class: base_type,
                args,
                anonymous: Some(
                    AnonymousObject {
                        class_name,
                        constructor_params: super_params,
                        captures_enclosing_this: captures_this,
                    },
                ),
            },
        );
        Ok(id)
    }
}

/// How deeply lowering may nest (expressions in expressions, blocks in blocks,
/// classes in expressions) before the input is refused.
pub const LOWER_FUEL: u32 = 20000;

/// `new` is `before` with the targets of some lambdas filled in: the same
/// statements, as many expressions, each of the same kind with the same operands.
pub open spec fn targets_filled(new: &BodyBuilder, before: &BodyBuilder) -> bool {
    &&& new.body.wf()
    &&& new.body.stmts@ == before.body.stmts@
    &&& new.body.exprs@.len() == before.body.exprs@.len()
    &&& forall|i: int|
        0 <= i < new.body.exprs@.len() ==> (#[trigger] new.body.exprs@[i] == before.body.exprs@[i] || (
        new.body.exprs@[i] is Lambda && before.body.exprs@[i] is Lambda))
    &&& new.type_resolver == before.type_resolver
    &&& new.can_capture_this == before.can_capture_this
    &&& new.enclosing_static_owner == before.enclosing_static_owner
}

/// Where `id` leads past any parentheses around it.
pub open spec fn unwrapped(exprs: Seq<Expr>, id: int) -> int
    decreases id,
{
    if 0 <= id < exprs.len() {
        match exprs[id] {
            Expr::Parens(inner) => if 0 <= inner < id {
                unwrapped(exprs, inner as int)
            } else {
                id
            },
            _ => id,
        }
    } else {
        id
    }
}

/// The pattern variable an expression binds, past parentheses: an `instanceof`
/// with a binding gives its name, its type and the tested expression.
pub open spec fn pattern_of(exprs: Seq<Expr>, id: int) -> Option<(Seq<char>, TyModel, ExprId)>
    decreases id,
{
    if 0 <= id < exprs.len() {
        match exprs[id] {
            Expr::Instanceof { expr, ty, binding: Some(name) } => Some((name@, ty@, expr)),
            Expr::Parens(inner) => if 0 <= inner < id {
                pattern_of(exprs, inner as int)
            } else {
                None
            },
            _ => None,
        }
    } else {
        None
    }
}

/// The value an assignment expression stores, past parentheses around the
/// assignment and around the value.
pub open spec fn assigned_value(exprs: Seq<Expr>, id: int) -> Option<int>
    decreases id,
{
    if 0 <= id < exprs.len() {
        match exprs[id] {
            Expr::Assign { value, .. } => Some(unwrapped(exprs, value as int)),
            Expr::Parens(inner) => if 0 <= inner < id {
                assigned_value(exprs, inner as int)
            } else {
                None
            },
            _ => None,
        }
    } else {
        None
    }
}

/// The expression a statement gives a declared type: a local's initializer and
/// a returned value, past parentheses.
pub open spec fn declared_value(b: Body, sid: int) -> Option<int> {
    match b.stmts@[sid] {
        Stmt::LocalVar(d) => match d.initializer {
            Some(i) => Some(unwrapped(b.exprs@, i as int)),
            None => None,
        },
        Stmt::Return(Some(e)) => Some(unwrapped(b.exprs@, e as int)),
        _ => None,
    }
}

/// A lambda whose target type is known.
pub open spec fn has_target(e: Expr) -> bool {
    e matches Expr::Lambda { target_ty, .. } && target_ty is Some
}

/// Every recorded target is a lambda of `exprs`.
pub open spec fn targets_are_lambdas(targets: Seq<(ExprId, Ty)>, exprs: Seq<Expr>) -> bool {
    forall|k: int| 0 <= k < targets.len() ==> targets[k].0 < exprs.len() && (#[trigger] exprs[targets[k].0 as int]) is Lambda
}

/// `new` keeps the targets recorded in `before`, in their places.
pub open spec fn targets_kept(new: Seq<(ExprId, Ty)>, before: Seq<(ExprId, Ty)>) -> bool {
    &&& before.len() <= new.len()
    &&& forall|k: int| 0 <= k < before.len() ==> #[trigger] new[k] == before[k]
}

#[verifier::loop_isolation(false)]
impl BodyBuilder {
    /// Lowers the tokens of one expression; no tokens give `None`, and tokens left
    /// over after the expression are refused.
    pub fn lower_expr_tokens(&mut self, tokens: Vec<ExprToken>) -> (r: Result<Option<ExprId>, LowerError>)
        requires
            old(self).body.wf(),
        ensures
            builder_grows(final(self), old(self)),
            (tokens@.len() == 0) == (r matches Ok(None)),
            r matches Ok(Some(id)) ==> id < final(self).body.exprs@.len(),
            (tokens@.len() == 1 && is_literal_kind(tokens@[0].kind)) ==> (r matches Ok(Some(id)) && id
                == old(self).body.exprs@.len() && literal_lowered(tokens@[0], final(self).body.exprs@[id as int])),
    {
        self.lower_expr_tokens_with(tokens, LOWER_FUEL)
    }

    /// `lower_expr_tokens`, within a nesting budget.
    pub fn lower_expr_tokens_with(&mut self, tokens: Vec<ExprToken>, fuel: u32) -> (r: Result<Option<ExprId>, LowerError>)
        requires
            old(self).body.wf(),
        ensures
            builder_grows(final(self), old(self)),
            (tokens@.len() == 0) == (r matches Ok(None)),
            r matches Ok(Some(id)) ==> id < final(self).body.exprs@.len(),
            (tokens@.len() == 1 && is_literal_kind(tokens@[0].kind) && fuel >= 7) ==> (r matches Ok(Some(id)) && id
                == old(self).body.exprs@.len() && literal_lowered(tokens@[0], final(self).body.exprs@[id as int])),
        decreases fuel,
    {
        proof {
            lemma_builder_refl(self);
        }
        if tokens.len() == 0 {
            return Ok(None);
        }
        if fuel == 0 {
            return Err(LowerError::UnsupportedExpression);
        }
        let mut p = ExprLowerer::new(tokens);
        let e = p.parse_expr(self, fuel - 1)?;
        if p.peek_kind().is_some() {
            return Err(p.unsupported_here());
        }
        Ok(Some(e))
    }

    /// Past any parentheses around `id`.
    pub fn unwrap_parens(&self, id: ExprId) -> (r: ExprId)
        requires
            self.body.wf(),
            id < self.body.exprs@.len(),
        ensures
            r <= id,
            !(self.body.exprs@[r as int] is Parens),
            r == unwrapped(self.body.exprs@, id as int),
    {
        let mut cur = id;
        loop
            invariant
                cur <= id < self.body.exprs@.len(),
                unwrapped(self.body.exprs@, id as int) == unwrapped(self.body.exprs@, cur as int),
            decreases cur,
        {
            match &self.body.exprs[cur] {
                Expr::Parens(inner) => {
                    proof {
                        assert(expr_children_below(self.body.exprs@[cur as int], cur as int));
                    }
                    cur = *inner;
                },
                _ => {
                    return cur;
                },
            }
        }
    }

    /// The pattern variable an `instanceof` introduces, possibly in parentheses:
    /// its name, type and tested expression.
    pub fn pattern_binding(&self, id: ExprId) -> (r: Option<(String, Ty, ExprId)>)
        requires
            self.body.wf(),
            id < self.body.exprs@.len(),
        ensures
            r matches Some((_, _, e)) ==> e < id,
            match r {
                Some((n, t, e)) => pattern_of(self.body.exprs@, id as int) == Some((n@, t@, e)),
                None => pattern_of(self.body.exprs@, id as int) is None,
            },
        decreases id,
    {
        proof {
            assert(expr_children_below(self.body.exprs@[id as int], id as int));
        }
        match &self.body.exprs[id] {
            Expr::Instanceof { expr, ty, binding: Some(name) } => Some((name.clone(), ty.copy(), *expr)),
            Expr::Parens(inner) => self.pattern_binding(*inner),
            _ => None,
        }
    }

    /// Records `target_ty` for the lambda that `id` is, possibly in parentheses.
    fn push_lambda_target(&self, id: ExprId, target_ty: &Ty, targets: &mut Vec<(ExprId, Ty)>)
        requires
            self.body.wf(),
            id < self.body.exprs@.len(),
            targets_are_lambdas(old(targets)@, self.body.exprs@),
        ensures
            targets_are_lambdas(final(targets)@, self.body.exprs@),
            targets_kept(final(targets)@, old(targets)@),
            self.body.exprs@[unwrapped(self.body.exprs@, id as int)] is Lambda ==> exists|k: int|
                0 <= k < final(targets)@.len() && (#[trigger] final(targets)@[k]).0 == unwrapped(self.body.exprs@, id as int),
            self.body.exprs@[unwrapped(self.body.exprs@, id as int)] is Lambda ==> (final(targets)@.len()
                == old(targets)@.len() + 1 && final(targets)@.last().0 == unwrapped(self.body.exprs@, id as int)
                && final(targets)@.last().1@ == target_ty@),
            !(self.body.exprs@[unwrapped(self.body.exprs@, id as int)] is Lambda) ==> final(targets)@ == old(targets)@,
    {
        let u = self.unwrap_parens(id);
        match &self.body.exprs[u] {
            Expr::Lambda { .. } => {
                targets.push((u, target_ty.copy()));
                proof {
                    assert(targets@[targets@.len() - 1].0 == u);
                }
            },
            _ => {},
        }
    }

    /// Lambda targets in an expression statement: the value of an assignment takes
    /// the type of what it is assigned to.
    fn collect_expr_lambda_targets(&self, id: ExprId, targets: &mut Vec<(ExprId, Ty)>)
        requires
            self.body.wf(),
            id < self.body.exprs@.len(),
            targets_are_lambdas(old(targets)@, self.body.exprs@),
        ensures
            targets_are_lambdas(final(targets)@, self.body.exprs@),
            targets_kept(final(targets)@, old(targets)@),
            assigned_value(self.body.exprs@, id as int) is None ==> final(targets)@ == old(targets)@,
            assigned_value(self.body.exprs@, id as int) matches Some(v) ==> (self.body.exprs@[v] is Lambda ==> exists|
                k: int|
                0 <= k < final(targets)@.len() && (#[trigger] final(targets)@[k]).0 == v),
        decreases id,
    {
        proof {
            assert(expr_children_below(self.body.exprs@[id as int], id as int));
        }
        match &self.body.exprs[id] {
            Expr::Assign { target, value, .. } => {
                let t = self.expr_ty(*target);
                self.push_lambda_target(*value, &t, targets);
            },
            Expr::Parens(inner) => {
                self.collect_expr_lambda_targets(*inner, targets);
            },
            _ => {},
        }
    }

    /// The lambda targets one statement gives: a local's initializer takes the
    /// local's type, a returned lambda the method's return type, and assignments
    /// in expression, `throw` and `yield` statements the assigned type
    ///. Nested statements are statements of the body
    /// and are visited on their own.
    fn collect_lambda_targets(&self, sid: StmtId, method_return_ty: &Ty, targets: &mut Vec<(ExprId, Ty)>)
        requires
            self.body.wf(),
            sid < self.body.stmts@.len(),
            targets_are_lambdas(old(targets)@, self.body.exprs@),
        ensures
            targets_are_lambdas(final(targets)@, self.body.exprs@),
            targets_kept(final(targets)@, old(targets)@),
            declared_value(self.body, sid as int) matches Some(u) ==> (self.body.exprs@[u] is Lambda ==> exists|k: int|
                0 <= k < final(targets)@.len() && (#[trigger] final(targets)@[k]).0 == u),
            self.body.stmts@[sid as int] matches Stmt::LocalVar(d) ==> (d.initializer matches Some(i) ==> (
            self.body.exprs@[unwrapped(self.body.exprs@, i as int)] is Lambda ==> final(targets)@.last().1@ == d.ty@)),
            self.body.stmts@[sid as int] matches Stmt::Return(Some(e)) ==> (self.body.exprs@[unwrapped(
                self.body.exprs@,
                e as int,
            )] is Lambda ==> final(targets)@.last().1@ == method_return_ty@),
    {
        proof {
            assert(stmt_children_ok(self.body.stmts@[sid as int], sid as int, self.body.exprs@.len() as int));
        }
        match &self.body.stmts[sid] {
            Stmt::LocalVar(decl) => match decl.initializer {
                Some(init) => {
                    self.push_lambda_target(init, &decl.ty, targets);
                },
                None => {},
            },
            Stmt::Return(Some(e)) => {
                self.push_lambda_target(*e, method_return_ty, targets);
            },
            Stmt::Expr(e) => {
                self.collect_expr_lambda_targets(*e, targets);
            },
            Stmt::Throw(e) => {
                self.collect_expr_lambda_targets(*e, targets);
            },
            Stmt::Yield(e) => {
                self.collect_expr_lambda_targets(*e, targets);
            },
            _ => {},
        }
    }

    /// Stores `ty` as the target type of the lambda at `id`.
    fn apply_lambda_target(&mut self, id: ExprId, ty: Ty)
        requires
            old(self).body.wf(),
            id < old(self).body.exprs@.len(),
        ensures
            targets_filled(final(self), old(self)),
            old(self).body.exprs@[id as int] is Lambda ==> has_target(final(self).body.exprs@[id as int]),
            forall|i: int| 0 <= i < final(self).body.exprs@.len() && i != id ==> final(self).body.exprs@[i] == old(
                self,
            ).body.exprs@[i],
    {
        let e = self.body.exprs.remove(id);
        let new_e = match e {
            Expr::Lambda { params, body, target_ty: _ } => Expr::Lambda { params, body, target_ty: Some(ty) },
            other => other,
        };
        proof {
            assert(expr_children_below(old(self).body.exprs@[id as int], id as int));
            assert(expr_children_below(new_e, id as int));
            assert(new_e is Switch == old(self).body.exprs@[id as int] is Switch);
        }
        self.body.exprs.insert(id, new_e);
        proof {
            let ex = self.body.exprs@;
            let ox = old(self).body.exprs@;
            assert(ex =~= ox.update(id as int, new_e));
            assert forall|i: int| 0 <= i < ex.len() implies expr_children_below(ex[i], i) by {
                if i != id {
                    assert(ex[i] == ox[i]);
                }
            }
            assert forall|i: int| 0 <= i < ex.len() implies (#[trigger] ex[i] == ox[i] || (ex[i] is Lambda
                && ox[i] is Lambda)) by {
                if i != id {
                    assert(ex[i] == ox[i]);
                }
            }
            assert forall|i: int|
                0 <= i < ex.len() implies (#[trigger] ex[i] matches Expr::Switch { cases, .. } ==> forall|c: int, k: int|
                #![trigger case_body(cases@[c])[k]]
                0 <= c < cases@.len() && 0 <= k < case_body(cases@[c]).len() ==> {
                    let sid = case_body(cases@[c])[k];
                    &&& 0 <= sid < self.body.stmts@.len()
                    &&& (stmt_value(self.body.stmts@[sid as int]) matches Some(v) ==> v < i)
                    &&& (cases@[c] matches SwitchCase::Case { pattern, .. } ==> pattern < i)
                }) by {
                if i != id {
                    assert(ex[i] == ox[i]);
                    assert(old(self).body.exprs@[i] == ox[i]);
                }
            }
        }
    }

    /// Gives each lambda the type it is assigned, initialised or returned to
    ///. Every statement of the body is visited
    /// once; nested statements are statements of the body too.
    pub fn resolve_lambda_target_types(&mut self, method_return_ty: &Ty)
        requires
            old(self).body.wf(),
        ensures
            targets_filled(final(self), old(self)),
            forall|sid: int|
                0 <= sid < old(self).body.stmts@.len() ==> (#[trigger] declared_value(old(self).body, sid) matches Some(u) ==> (
                old(self).body.exprs@[u] is Lambda ==> has_target(final(self).body.exprs@[u]))),
    {
        let mut targets: Vec<(ExprId, Ty)> = Vec::new();
        let mut s: usize = 0;
        while s < self.body.stmts.len()
            invariant
                self.body.wf(),
                *self == *old(self),
                s <= self.body.stmts@.len(),
                targets_are_lambdas(targets@, self.body.exprs@),
                forall|sid: int|
                    0 <= sid < s ==> (#[trigger] declared_value(self.body, sid) matches Some(u) ==> (self.body.exprs@[u] is Lambda
                        ==> exists|k: int| 0 <= k < targets@.len() && (#[trigger] targets@[k]).0 == u)),
            decreases self.body.stmts@.len() - s,
        {
            let ghost before = targets@;
            self.collect_lambda_targets(s, method_return_ty, &mut targets);
            proof {
                assert forall|sid: int|
                    0 <= sid < s + 1 implies (#[trigger] declared_value(self.body, sid) matches Some(u) ==> (self.body.exprs@[u] is Lambda
                        ==> exists|k: int| 0 <= k < targets@.len() && (#[trigger] targets@[k]).0 == u)) by {
                    if sid < s {
                        if let Some(u) = declared_value(self.body, sid) {
                            if self.body.exprs@[u] is Lambda {
                                let k = choose|k: int| 0 <= k < before.len() && (#[trigger] before[k]).0 == u;
                                assert(targets@[k] == before[k]);
                            }
                        }
                    }
                }
            }
            s = s + 1;
        }
        let mut k: usize = 0;
        while k < targets.len()
            invariant
                k <= targets@.len(),
                targets_filled(self, old(self)),
                targets_are_lambdas(targets@, old(self).body.exprs@),
                forall|j: int| 0 <= j < k ==> has_target(#[trigger] self.body.exprs@[targets@[j].0 as int]),
                forall|sid: int|
                    0 <= sid < old(self).body.stmts@.len() ==> (#[trigger] declared_value(old(self).body, sid) matches Some(u) ==> (
                    old(self).body.exprs@[u] is Lambda ==> exists|j: int| 0 <= j < targets@.len() && (#[trigger] targets@[j]).0 == u)),
            decreases targets@.len() - k,
        {
            let ghost mid = *self;
            let t = targets[k].0;
            proof {
                assert(old(self).body.exprs@[t as int] is Lambda);
                assert(mid.body.exprs@[t as int] == old(self).body.exprs@[t as int] || (mid.body.exprs@[t as int] is Lambda
                    && old(self).body.exprs@[t as int] is Lambda));
            }
            self.apply_lambda_target(t, targets[k].1.copy());
            proof {
                assert forall|i: int| 0 <= i < self.body.exprs@.len() implies (#[trigger] self.body.exprs@[i]
                    == old(self).body.exprs@[i] || (self.body.exprs@[i] is Lambda && old(self).body.exprs@[i] is Lambda)) by {
                    assert(mid.body.exprs@[i] == old(self).body.exprs@[i] || (mid.body.exprs@[i] is Lambda
                        && old(self).body.exprs@[i] is Lambda));
                }
                assert forall|j: int| 0 <= j < k + 1 implies has_target(#[trigger] self.body.exprs@[targets@[j].0 as int]) by {
                    if j < k {
                        let ti = targets@[j].0 as int;
                        if ti != t {
                            assert(self.body.exprs@[ti] == mid.body.exprs@[ti]);
                        }
                    }
                }
            }
            k = k + 1;
        }
        proof {
            assert forall|sid: int|
                0 <= sid < old(self).body.stmts@.len() implies (#[trigger] declared_value(old(self).body, sid) matches Some(u) ==> (
                old(self).body.exprs@[u] is Lambda ==> has_target(self.body.exprs@[u]))) by {
                if let Some(u) = declared_value(old(self).body, sid) {
                    if old(self).body.exprs@[u] is Lambda {
                        let j = choose|j: int| 0 <= j < targets@.len() && (#[trigger] targets@[j]).0 == u;
                        assert(has_target(self.body.exprs@[targets@[j].0 as int]));
                    }
                }
            }
        }
    }
}

/// The statements of a block: local variable declarations, expression
/// statements and nested blocks; other statements are left out.
pub fn lower_block(evs: &Vec<Event>, start: usize, end: usize, b: &mut BodyBuilder, fuel: u32) -> (r: Result<
    Block,
    LowerError,
>)
    requires
        start < end <= evs@.len(),
        old(b).body.wf(),
    ensures
        builder_grows(final(b), old(b)),
        r matches Ok(blk) ==> final(b).body.block_ok(blk),
    decreases fuel,
{
    proof {
        lemma_builder_refl(b);
    }
    if fuel == 0 {
        return Err(LowerError::UnsupportedExpression);
    }
    let mut stmts: Vec<StmtId> = Vec::new();
    let mut i = start + 1;
    while i < end
        invariant
            start < i <= end <= evs@.len(),
            fuel > 0,
            builder_grows(b, old(b)),
            forall|k: int| 0 <= k < stmts@.len() ==> stmts@[k] < b.body.stmts@.len(),
        decreases end - i,
    {
        let next = next_sibling(evs, i, end);
        match &evs[i] {
            Event::Start(k) => {
                let k = *k;
                if k == SyntaxKind::LocalVarDecl {
                    let ids = lower_local_var_decl(evs, i, next, b, fuel - 1)?;
                    let mut j: usize = 0;
                    while j < ids.len()
                        invariant
                            j <= ids@.len(),
                            forall|q: int| 0 <= q < ids@.len() ==> ids@[q] < b.body.stmts@.len(),
                            forall|q: int| 0 <= q < stmts@.len() ==> stmts@[q] < b.body.stmts@.len(),
                        decreases ids@.len() - j,
                    {
                        stmts.push(ids[j]);
                        j = j + 1;
                    }
                } else if k == SyntaxKind::ExprStmt {
                    match lower_expr_stmt(evs, i, next, b, fuel - 1)? {
                        Some(s) => {
                            stmts.push(s);
                        },
                        None => {},
                    }
                } else if k == SyntaxKind::Block {
                    let nested = lower_block(evs, i, next, b, fuel - 1)?;
                    let s = b.alloc_stmt(Stmt::Block(nested));
                    stmts.push(s);
                }
            },
            _ => {},
        }
        i = next;
    }
    Ok(Block { stmts })
}

/// One statement per declarator: its type (inferred from the initializer for
/// `var`), its name and its initializer; each name is then in scope.
pub fn lower_local_var_decl(evs: &Vec<Event>, start: usize, end: usize, b: &mut BodyBuilder, fuel: u32) -> (r: Result<
    Vec<StmtId>,
    LowerError,
>)
    requires
        start < end <= evs@.len(),
        old(b).body.wf(),
    ensures
        builder_grows(final(b), old(b)),
        r matches Ok(ids) ==> forall|k: int| 0 <= k < ids@.len() ==> ids@[k] < final(b).body.stmts@.len(),
    decreases fuel,
{
    proof {
        lemma_builder_refl(b);
    }
    if fuel == 0 {
        return Err(LowerError::UnsupportedExpression);
    }
    let (ts, te) = match child_node(evs, start, end, SyntaxKind::Type) {
        Some(r) => r,
        None => {
            return Err(LowerError::MissingType);
        },
    };
    let explicit = lower_type(evs, ts, te, &b.type_resolver)?;
    let is_var = has_token(evs, ts, te, SyntaxKind::VarKw);
    let mut ids: Vec<StmtId> = Vec::new();
    let mut j = start + 1;
    while j < end
        invariant
            start < j <= end <= evs@.len(),
            fuel > 0,
            builder_grows(b, old(b)),
            forall|k: int| 0 <= k < ids@.len() ==> ids@[k] < b.body.stmts@.len(),
        decreases end - j,
    {
        match &evs[j] {
            Event::Start(k) => {
                if *k == SyntaxKind::VarDeclarator {
                    let de = next_sibling(evs, j, end);
                    let name = match child_token(evs, j, de, SyntaxKind::Ident) {
                        Some(n) => n,
                        None => {
                            return Err(LowerError::MissingMethodName);
                        },
                    };
                    let initializer = match initializer_tokens(evs, j, de) {
                        Some(toks) => b.lower_expr_tokens_with(toks, fuel - 1)?,
                        None => None,
                    };
                    let ty = if is_var {
                        match initializer {
                            Some(x) => b.expr_ty(x),
                            None => Ty::object(),
                        }
                    } else {
                        explicit.copy()
                    };
                    let ghost before = *b;
                    b.define_local(name.as_str(), ty.copy());
                    proof {
                        lemma_builder_refl(&before);
                        assert(builder_grows(b, &before));
                    }
                    let id = b.alloc_stmt(Stmt::LocalVar(LocalVarDecl { ty, name, initializer }));
                    ids.push(id);
                }
            },
            _ => {},
        }
        j = j + 1;
    }
    Ok(ids)
}

/// The expression of an expression statement, stored as a statement; a
/// statement without tokens gives none.
pub fn lower_expr_stmt(evs: &Vec<Event>, start: usize, end: usize, b: &mut BodyBuilder, fuel: u32) -> (r: Result<
    Option<StmtId>,
    LowerError,
>)
    requires
        start < end <= evs@.len(),
        old(b).body.wf(),
    ensures
        builder_grows(final(b), old(b)),
        r matches Ok(Some(id)) ==> id < final(b).body.stmts@.len(),
        token_list(evs@.subrange(start as int, end as int)).len() == 0 ==> r matches Ok(None),
        token_list(evs@.subrange(start as int, end as int)).len() > 0 ==> !(r matches Ok(None)),
    decreases fuel,
{
    proof {
        lemma_builder_refl(b);
    }
    let toks = expr_tokens(evs, start, end);
    if toks.len() == 0 {
        return Ok(None);
    }
    if fuel == 0 {
        return Err(LowerError::UnsupportedExpression);
    }
    match b.lower_expr_tokens_with(toks, fuel - 1)? {
        Some(x) => Ok(Some(b.alloc_stmt(Stmt::Expr(x)))),
        None => Err(LowerError::UnsupportedExpression),
    }
}

/// A lowered method: a well-formed body whose root block refers to existing
/// statements.
pub open spec fn method_ok(m: MethodDecl) -> bool {
    &&& m.body.wf()
    &&& (m.root_block matches Some(blk) ==> m.body.block_ok(blk))
}

/// A method declaration: its name, return type (`void` when it has none),
/// parameters, and, unless abstract or native, the statements of its body.
pub fn lower_method_decl(evs: &Vec<Event>, start: usize, end: usize, flags: u16, index: usize, resolver: &TypeResolver, fuel: u32) -> (r: Result<
    (MethodDecl, Vec<TypeDecl>),
    LowerError,
>)
    requires
        start < end <= evs@.len(),
    ensures
        r matches Ok((m, _)) ==> method_ok(m) && m.access_flags == flags,
        r matches Ok((m, _)) ==> (m.root_block is Some ==> has_code_spec(flags)),
        fuel == 0 ==> r is Err,
        fuel > 0 && first_child_token(evs@, start + 1, end as int, SyntaxKind::Ident) is None ==> r
            == Err::<(MethodDecl, Vec<TypeDecl>), LowerError>(LowerError::MissingMethodName),
        r matches Ok((m, _)) ==> Some(m.name@) == first_child_token(evs@, start + 1, end as int, SyntaxKind::Ident),
        r matches Ok((m, _)) ==> (m.root_block is Some <==> (has_code_spec(flags) && first_child_node(
            evs@,
            start + 1,
            end as int,
            SyntaxKind::MethodBody,
        ) is Some)),
        fuel > 0 && first_child_token(evs@, start + 1, end as int, SyntaxKind::Ident) is Some && first_child_node(
            evs@,
            start + 1,
            end as int,
            SyntaxKind::Type,
        ) is None && first_child_node(evs@, start + 1, end as int, SyntaxKind::FormalParamList) is None
            && !has_code_spec(flags) ==> r is Ok,
    decreases fuel,
{
    if fuel == 0 {
        return Err(LowerError::UnsupportedExpression);
    }
    let name = match child_token(evs, start, end, SyntaxKind::Ident) {
        Some(n) => n,
        None => {
            return Err(LowerError::MissingMethodName);
        },
    };
    let return_type = match child_node(evs, start, end, SyntaxKind::Type) {
        Some((ts, te)) => lower_type(evs, ts, te, resolver)?,
        None => Ty::Void,
    };
    let mut params: Vec<ParamDecl> = Vec::new();
    let mut param_types: Vec<Ty> = Vec::new();
    match child_node(evs, start, end, SyntaxKind::FormalParamList) {
        Some((ps, pe)) => {
            let mut i = ps + 1;
            while i < pe
                invariant
                    ps < i <= pe <= end <= evs@.len(),
                    first_child_token(evs@, start + 1, end as int, SyntaxKind::Ident) is Some,
                    first_child_node(evs@, start + 1, end as int, SyntaxKind::FormalParamList) is Some,
                decreases pe - i,
            {
                let next = next_sibling(evs, i, pe);
                match &evs[i] {
                    Event::Start(k) => {
                        if *k == SyntaxKind::FormalParam {
                            let ty = match child_node(evs, i, next, SyntaxKind::Type) {
                                Some((ts, te)) => lower_type(evs, ts, te, resolver)?,
                                None => {
                                    return Err(LowerError::MissingType);
                                },
                            };
                            let pname = match child_token(evs, i, next, SyntaxKind::Ident) {
                                Some(n) => n,
                                None => String::new(),
                            };
                            param_types.push(ty.copy());
                            params.push(ParamDecl { name: pname, ty });
                        }
                    },
                    _ => {},
                }
                i = next;
            }
        },
        None => {},
    }
    let signature = MethodSig::new(name.clone(), param_types, return_type.copy());
    let mut builder = BodyBuilder::new(resolver.clone());
    let root_block = if has_code(flags) {
        match child_node(evs, start, end, SyntaxKind::MethodBody) {
            Some((bs, be)) => match child_node(evs, bs, be, SyntaxKind::Block) {
                Some((ks, ke)) => Some(lower_block(evs, ks, ke, &mut builder, fuel - 1)?),
                None => Some(Block { stmts: Vec::new() }),
            },
            None => None,
        }
    } else {
        None
    };
    builder.resolve_lambda_target_types(&return_type);
    let id = HirId(crate::numeric::low_u32(index).wrapping_add(1));
    let BodyBuilder { body, anonymous_types, .. } = builder;
    Ok(
        (
            MethodDecl { id, name, params, signature, access_flags: flags, body, root_block, constructor_call: None },
            anonymous_types,
        ),
    )
}

pub open spec fn has_code_spec(flags: u16) -> bool {
    flags & (opcodes::ACC_ABSTRACT | opcodes::ACC_NATIVE) == 0
}

/// The methods of a class body, each with the modifiers written before it;
/// fields, constructors and nested types are refused.
#[verifier::spinoff_prover]
pub fn lower_class_methods(evs: &Vec<Event>, start: usize, end: usize, resolver: &TypeResolver, fuel: u32) -> (r: Result<
    (Vec<MethodDecl>, Vec<TypeDecl>),
    LowerError,
>)
    requires
        start < end <= evs@.len(),
    ensures
        r matches Ok((ms, _)) ==> forall|i: int| 0 <= i < ms@.len() ==> method_ok(#[trigger] ms@[i]),
        fuel == 0 ==> r is Err,
        r matches Ok((ms, _)) ==> ms@.len() == count_of_kind(child_kinds(evs@, start + 1, end as int), SyntaxKind::MethodDecl)
            && !has_refused_member(child_kinds(evs@, start + 1, end as int)),
        fuel > 0 && refused_before_method(child_kinds(evs@, start + 1, end as int)) ==> r == Err::<
            (Vec<MethodDecl>, Vec<TypeDecl>),
            LowerError,
        >(LowerError::UnsupportedClassMember),
        fuel > 0 && count_of_kind(child_kinds(evs@, start + 1, end as int), SyntaxKind::MethodDecl) == 0
            && !has_refused_member(child_kinds(evs@, start + 1, end as int)) ==> r is Ok,
    decreases fuel,
{
    if fuel == 0 {
        return Err(LowerError::UnsupportedExpression);
    }
    let ghost ck = child_kinds(evs@, start + 1, end as int);
    let ghost mut seen: Seq<SyntaxKind> = Seq::empty();
    let mut pending: u16 = 0;
    let mut methods: Vec<MethodDecl> = Vec::new();
    let mut inner: Vec<TypeDecl> = Vec::new();
    let mut i = start + 1;
    proof {
        assert(ck =~= seen + child_kinds(evs@, i as int, end as int));
    }
    while i < end
        invariant
            start < i <= end <= evs@.len(),
            fuel > 0,
            forall|q: int| 0 <= q < methods@.len() ==> method_ok(#[trigger] methods@[q]),
            ck == child_kinds(evs@, start + 1, end as int),
            ck == seen + child_kinds(evs@, i as int, end as int),
            methods@.len() == count_of_kind(seen, SyntaxKind::MethodDecl),
            !has_refused_member(seen),
        decreases end - i,
    {
        let next = next_sibling(evs, i, end);
        let ghost rest = child_kinds(evs@, next as int, end as int);
        match &evs[i] {
            Event::Start(k) => {
                let k = *k;
                proof {
                    lemma_child_kinds_start(evs@, i as int, end as int, seen, ck);
                }
                if k == SyntaxKind::ModifierList {
                    pending = access_flags(evs, i, next);
                } else if k == SyntaxKind::MethodDecl {
                    let lowered = lower_method_decl(evs, i, next, pending, methods.len(), resolver, fuel - 1);
                    match lowered {
                        Ok((m, anonymous)) => {
                            let mut anonymous = anonymous;
                            methods.push(m);
                            inner.append(&mut anonymous);
                            pending = 0;
                        },
                        Err(e) => {
                            proof {
                                lemma_method_first(ck, seen);
                            }
                            return Err(e);
                        },
                    }
                } else if k == SyntaxKind::FieldDecl || k == SyntaxKind::ConstructorDecl || k == SyntaxKind::ClassDecl
                    || k == SyntaxKind::InterfaceDecl || k == SyntaxKind::EnumDecl || k == SyntaxKind::RecordDecl {
                    proof {
                        assert(is_refused_member(ck[seen.len() as int]));
                    }
                    return Err(LowerError::UnsupportedClassMember);
                }
                proof {
                    seen = seen.push(k);
                }
            },
            _ => {
                proof {
                    assert(child_kinds(evs@, i as int, end as int) == rest);
                }
            },
        }
        i = next;
    }
    proof {
        assert(child_kinds(evs@, i as int, end as int) =~= Seq::<SyntaxKind>::empty());
        assert(seen =~= ck);
    }
    Ok((methods, inner))
}

/// A method comes before any refused member.
proof fn lemma_method_first(ck: Seq<SyntaxKind>, seen: Seq<SyntaxKind>)
    requires
        seen.len() < ck.len(),
        ck[seen.len() as int] == SyntaxKind::MethodDecl,
        forall|j: int| 0 <= j < seen.len() ==> seen[j] == ck[j],
        !has_refused_member(seen),
    ensures
        !refused_before_method(ck),
        count_of_kind(ck, SyntaxKind::MethodDecl) > 0,
{
    lemma_count_pos(ck, seen.len() as int, SyntaxKind::MethodDecl);
    assert forall|j: int| 0 <= j < ck.len() && is_refused_member(#[trigger] ck[j]) implies exists|m: int|
        0 <= m < j && ck[m] == SyntaxKind::MethodDecl by {
        if j < seen.len() {
            assert(is_refused_member(seen[j]));
        }
        assert(j != seen.len());
    }
}

proof fn lemma_count_pos(s: Seq<SyntaxKind>, j: int, k: SyntaxKind)
    requires
        0 <= j < s.len(),
        s[j] == k,
    ensures
        count_of_kind(s, k) > 0,
    decreases s.len(),
{
    if j < s.len() - 1 {
        assert(s.drop_last()[j] == s[j]);
        lemma_count_pos(s.drop_last(), j, k);
    }
}

/// The members a class body may not hold yet: fields, constructors and nested types.
pub open spec fn is_refused_member(k: SyntaxKind) -> bool {
    k == SyntaxKind::FieldDecl || k == SyntaxKind::ConstructorDecl || k == SyntaxKind::ClassDecl || k
        == SyntaxKind::InterfaceDecl || k == SyntaxKind::EnumDecl || k == SyntaxKind::RecordDecl
}

pub open spec fn has_refused_member(s: Seq<SyntaxKind>) -> bool {
    exists|j: int| 0 <= j < s.len() && is_refused_member(#[trigger] s[j])
}

/// A refused member comes before any method.
pub open spec fn refused_before_method(s: Seq<SyntaxKind>) -> bool {
    exists|j: int|
        0 <= j < s.len() && is_refused_member(#[trigger] s[j]) && forall|m: int| 0 <= m < j ==> s[m] != SyntaxKind::MethodDecl
}

} // verus!
