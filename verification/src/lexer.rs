//! The tokenizer: Java source text to a sequence of tokens with byte ranges.
use vstd::prelude::*;
use crate::syntax::{operator_spelling, word_spelling};
use crate::diagnostics::TextRange;
use crate::syntax::SyntaxKind;
use crate::text::{chars_of, str_eq, string_of};

verus! {

/// A token as the scanner recognises it, before it is mapped to a syntax kind.
#[derive(Debug, Clone, Copy, PartialEq, Eq, Structural)]
pub enum RawToken {
    Abstract,
    Assert,
    Boolean,
    Break,
    Byte,
    Case,
    Catch,
    Char,
    Class,
    Continue,
    Default,
    Do,
    Double,
    Else,
    Enum,
    Extends,
    Final,
    Finally,
    Float,
    For,
    If,
    Implements,
    Import,
    Instanceof,
    Int,
    Interface,
    Long,
    Native,
    New,
    Package,
    Private,
    Protected,
    Public,
    Return,
    Short,
    Static,
    Strictfp,
    Super,
    Switch,
    Synchronized,
    This,
    Throw,
    Throws,
    Transient,
    Try,
    Void,
    Volatile,
    While,
    Yield,
    Record,
    Sealed,
    NonSealed,
    Permits,
    Var,
    HexLiteral,
    BinLiteral,
    LongLiteral,
    IntLiteral,
    FloatLiteral,
    FloatLiteralExp,
    FloatLiteralDot,
    FloatLiteralSuffix,
    CharLiteral,
    StringLiteral,
    TextBlock,
    True,
    False,
    Null,
    Ident,
    LBrace,
    RBrace,
    LBrack,
    RBrack,
    LParen,
    RParen,
    Semi,
    Comma,
    Dot,
    Ellipsis,
    At,
    ColonColon,
    Arrow,
    Eq,
    Gt,
    Lt,
    Bang,
    Tilde,
    Question,
    Colon,
    EqEq,
    Le,
    Ge,
    Neq,
    Inc,
    Dec,
    AmpAmp,
    PipePipe,
    Plus,
    Minus,
    Star,
    Slash,
    Amp,
    Pipe,
    Caret,
    Percent,
    LtLt,
    GtGt,
    GtGtGt,
    PlusEq,
    MinusEq,
    StarEq,
    SlashEq,
    AmpEq,
    PipeEq,
    CaretEq,
    PercentEq,
    LtLtEq,
    GtGtEq,
    GtGtGtEq,
    Underscore,
}

/// The syntax kind a raw token stands for.
pub open spec fn raw_kind(raw: RawToken) -> SyntaxKind {
    match raw {
        RawToken::Abstract => SyntaxKind::AbstractKw,
        RawToken::Assert => SyntaxKind::AssertKw,
        RawToken::Boolean => SyntaxKind::BooleanKw,
        RawToken::Break => SyntaxKind::BreakKw,
        RawToken::Byte => SyntaxKind::ByteKw,
        RawToken::Case => SyntaxKind::CaseKw,
        RawToken::Catch => SyntaxKind::CatchKw,
        RawToken::Char => SyntaxKind::CharKw,
        RawToken::Class => SyntaxKind::ClassKw,
        RawToken::Continue => SyntaxKind::ContinueKw,
        RawToken::Default => SyntaxKind::DefaultKw,
        RawToken::Do => SyntaxKind::DoKw,
        RawToken::Double => SyntaxKind::DoubleKw,
        RawToken::Else => SyntaxKind::ElseKw,
        RawToken::Enum => SyntaxKind::EnumKw,
        RawToken::Extends => SyntaxKind::ExtendsKw,
        RawToken::Final => SyntaxKind::FinalKw,
        RawToken::Finally => SyntaxKind::FinallyKw,
        RawToken::Float => SyntaxKind::FloatKw,
        RawToken::For => SyntaxKind::ForKw,
        RawToken::If => SyntaxKind::IfKw,
        RawToken::Implements => SyntaxKind::ImplementsKw,
        RawToken::Import => SyntaxKind::ImportKw,
        RawToken::Instanceof => SyntaxKind::InstanceofKw,
        RawToken::Int => SyntaxKind::IntKw,
        RawToken::Interface => SyntaxKind::InterfaceKw,
        RawToken::Long => SyntaxKind::LongKw,
        RawToken::Native => SyntaxKind::NativeKw,
        RawToken::New => SyntaxKind::NewKw,
        RawToken::Package => SyntaxKind::PackageKw,
        RawToken::Private => SyntaxKind::PrivateKw,
        RawToken::Protected => SyntaxKind::ProtectedKw,
        RawToken::Public => SyntaxKind::PublicKw,
        RawToken::Return => SyntaxKind::ReturnKw,
        RawToken::Short => SyntaxKind::ShortKw,
        RawToken::Static => SyntaxKind::StaticKw,
        RawToken::Strictfp => SyntaxKind::StrictfpKw,
        RawToken::Super => SyntaxKind::SuperKw,
        RawToken::Switch => SyntaxKind::SwitchKw,
        RawToken::Synchronized => SyntaxKind::SynchronizedKw,
        RawToken::This => SyntaxKind::ThisKw,
        RawToken::Throw => SyntaxKind::ThrowKw,
        RawToken::Throws => SyntaxKind::ThrowsKw,
        RawToken::Transient => SyntaxKind::TransientKw,
        RawToken::Try => SyntaxKind::TryKw,
        RawToken::Void => SyntaxKind::VoidKw,
        RawToken::Volatile => SyntaxKind::VolatileKw,
        RawToken::While => SyntaxKind::WhileKw,
        RawToken::Yield => SyntaxKind::YieldKw,
        RawToken::Record => SyntaxKind::RecordKw,
        RawToken::Sealed => SyntaxKind::SealedKw,
        RawToken::NonSealed => SyntaxKind::NonSealedKw,
        RawToken::Permits => SyntaxKind::PermitsKw,
        RawToken::Var => SyntaxKind::VarKw,
        RawToken::HexLiteral => SyntaxKind::IntLiteral,
        RawToken::BinLiteral => SyntaxKind::IntLiteral,
        RawToken::LongLiteral => SyntaxKind::LongLiteral,
        RawToken::IntLiteral => SyntaxKind::IntLiteral,
        RawToken::FloatLiteral => SyntaxKind::FloatLiteral,
        RawToken::FloatLiteralExp => SyntaxKind::FloatLiteral,
        RawToken::FloatLiteralDot => SyntaxKind::FloatLiteral,
        RawToken::FloatLiteralSuffix => SyntaxKind::FloatLiteral,
        RawToken::CharLiteral => SyntaxKind::CharLiteral,
        RawToken::StringLiteral => SyntaxKind::StringLiteral,
        RawToken::TextBlock => SyntaxKind::TextBlockLiteral,
        RawToken::True => SyntaxKind::TrueKw,
        RawToken::False => SyntaxKind::FalseKw,
        RawToken::Null => SyntaxKind::NullKw,
        RawToken::Ident => SyntaxKind::Ident,
        RawToken::LBrace => SyntaxKind::LBrace,
        RawToken::RBrace => SyntaxKind::RBrace,
        RawToken::LBrack => SyntaxKind::LBrack,
        RawToken::RBrack => SyntaxKind::RBrack,
        RawToken::LParen => SyntaxKind::LParen,
        RawToken::RParen => SyntaxKind::RParen,
        RawToken::Semi => SyntaxKind::Semi,
        RawToken::Comma => SyntaxKind::Comma,
        RawToken::Dot => SyntaxKind::Dot,
        RawToken::Ellipsis => SyntaxKind::Ellipsis,
        RawToken::At => SyntaxKind::At,
        RawToken::ColonColon => SyntaxKind::ColonColon,
        RawToken::Arrow => SyntaxKind::Arrow,
        RawToken::Eq => SyntaxKind::Eq,
        RawToken::Gt => SyntaxKind::Gt,
        RawToken::Lt => SyntaxKind::Lt,
        RawToken::Bang => SyntaxKind::Bang,
        RawToken::Tilde => SyntaxKind::Tilde,
        RawToken::Question => SyntaxKind::Question,
        RawToken::Colon => SyntaxKind::Colon,
        RawToken::EqEq => SyntaxKind::EqEq,
        RawToken::Le => SyntaxKind::Le,
        RawToken::Ge => SyntaxKind::Ge,
        RawToken::Neq => SyntaxKind::Neq,
        RawToken::Inc => SyntaxKind::Inc,
        RawToken::Dec => SyntaxKind::Dec,
        RawToken::AmpAmp => SyntaxKind::AmpAmp,
        RawToken::PipePipe => SyntaxKind::PipePipe,
        RawToken::Plus => SyntaxKind::Plus,
        RawToken::Minus => SyntaxKind::Minus,
        RawToken::Star => SyntaxKind::Star,
        RawToken::Slash => SyntaxKind::Slash,
        RawToken::Amp => SyntaxKind::Amp,
        RawToken::Pipe => SyntaxKind::Pipe,
        RawToken::Caret => SyntaxKind::Caret,
        RawToken::Percent => SyntaxKind::Percent,
        RawToken::LtLt => SyntaxKind::LtLt,
        RawToken::GtGt => SyntaxKind::GtGt,
        RawToken::GtGtGt => SyntaxKind::GtGtGt,
        RawToken::PlusEq => SyntaxKind::PlusEq,
        RawToken::MinusEq => SyntaxKind::MinusEq,
        RawToken::StarEq => SyntaxKind::StarEq,
        RawToken::SlashEq => SyntaxKind::SlashEq,
        RawToken::AmpEq => SyntaxKind::AmpEq,
        RawToken::PipeEq => SyntaxKind::PipeEq,
        RawToken::CaretEq => SyntaxKind::CaretEq,
        RawToken::PercentEq => SyntaxKind::PercentEq,
        RawToken::LtLtEq => SyntaxKind::LtLtEq,
        RawToken::GtGtEq => SyntaxKind::GtGtEq,
        RawToken::GtGtGtEq => SyntaxKind::GtGtGtEq,
        RawToken::Underscore => SyntaxKind::Underscore,
    }
}

/// The syntax kind of a raw token.
pub fn raw_to_syntax(raw: RawToken) -> (r: SyntaxKind)
    ensures
        r == raw_kind(raw),
{
    match raw {
        RawToken::Abstract => SyntaxKind::AbstractKw,
        RawToken::Assert => SyntaxKind::AssertKw,
        RawToken::Boolean => SyntaxKind::BooleanKw,
        RawToken::Break => SyntaxKind::BreakKw,
        RawToken::Byte => SyntaxKind::ByteKw,
        RawToken::Case => SyntaxKind::CaseKw,
        RawToken::Catch => SyntaxKind::CatchKw,
        RawToken::Char => SyntaxKind::CharKw,
        RawToken::Class => SyntaxKind::ClassKw,
        RawToken::Continue => SyntaxKind::ContinueKw,
        RawToken::Default => SyntaxKind::DefaultKw,
        RawToken::Do => SyntaxKind::DoKw,
        RawToken::Double => SyntaxKind::DoubleKw,
        RawToken::Else => SyntaxKind::ElseKw,
        RawToken::Enum => SyntaxKind::EnumKw,
        RawToken::Extends => SyntaxKind::ExtendsKw,
        RawToken::Final => SyntaxKind::FinalKw,
        RawToken::Finally => SyntaxKind::FinallyKw,
        RawToken::Float => SyntaxKind::FloatKw,
        RawToken::For => SyntaxKind::ForKw,
        RawToken::If => SyntaxKind::IfKw,
        RawToken::Implements => SyntaxKind::ImplementsKw,
        RawToken::Import => SyntaxKind::ImportKw,
        RawToken::Instanceof => SyntaxKind::InstanceofKw,
        RawToken::Int => SyntaxKind::IntKw,
        RawToken::Interface => SyntaxKind::InterfaceKw,
        RawToken::Long => SyntaxKind::LongKw,
        RawToken::Native => SyntaxKind::NativeKw,
        RawToken::New => SyntaxKind::NewKw,
        RawToken::Package => SyntaxKind::PackageKw,
        RawToken::Private => SyntaxKind::PrivateKw,
        RawToken::Protected => SyntaxKind::ProtectedKw,
        RawToken::Public => SyntaxKind::PublicKw,
        RawToken::Return => SyntaxKind::ReturnKw,
        RawToken::Short => SyntaxKind::ShortKw,
        RawToken::Static => SyntaxKind::StaticKw,
        RawToken::Strictfp => SyntaxKind::StrictfpKw,
        RawToken::Super => SyntaxKind::SuperKw,
        RawToken::Switch => SyntaxKind::SwitchKw,
        RawToken::Synchronized => SyntaxKind::SynchronizedKw,
        RawToken::This => SyntaxKind::ThisKw,
        RawToken::Throw => SyntaxKind::ThrowKw,
        RawToken::Throws => SyntaxKind::ThrowsKw,
        RawToken::Transient => SyntaxKind::TransientKw,
        RawToken::Try => SyntaxKind::TryKw,
        RawToken::Void => SyntaxKind::VoidKw,
        RawToken::Volatile => SyntaxKind::VolatileKw,
        RawToken::While => SyntaxKind::WhileKw,
        RawToken::Yield => SyntaxKind::YieldKw,
        RawToken::Record => SyntaxKind::RecordKw,
        RawToken::Sealed => SyntaxKind::SealedKw,
        RawToken::NonSealed => SyntaxKind::NonSealedKw,
        RawToken::Permits => SyntaxKind::PermitsKw,
        RawToken::Var => SyntaxKind::VarKw,
        RawToken::HexLiteral => SyntaxKind::IntLiteral,
        RawToken::BinLiteral => SyntaxKind::IntLiteral,
        RawToken::LongLiteral => SyntaxKind::LongLiteral,
        RawToken::IntLiteral => SyntaxKind::IntLiteral,
        RawToken::FloatLiteral => SyntaxKind::FloatLiteral,
        RawToken::FloatLiteralExp => SyntaxKind::FloatLiteral,
        RawToken::FloatLiteralDot => SyntaxKind::FloatLiteral,
        RawToken::FloatLiteralSuffix => SyntaxKind::FloatLiteral,
        RawToken::CharLiteral => SyntaxKind::CharLiteral,
        RawToken::StringLiteral => SyntaxKind::StringLiteral,
        RawToken::TextBlock => SyntaxKind::TextBlockLiteral,
        RawToken::True => SyntaxKind::TrueKw,
        RawToken::False => SyntaxKind::FalseKw,
        RawToken::Null => SyntaxKind::NullKw,
        RawToken::Ident => SyntaxKind::Ident,
        RawToken::LBrace => SyntaxKind::LBrace,
        RawToken::RBrace => SyntaxKind::RBrace,
        RawToken::LBrack => SyntaxKind::LBrack,
        RawToken::RBrack => SyntaxKind::RBrack,
        RawToken::LParen => SyntaxKind::LParen,
        RawToken::RParen => SyntaxKind::RParen,
        RawToken::Semi => SyntaxKind::Semi,
        RawToken::Comma => SyntaxKind::Comma,
        RawToken::Dot => SyntaxKind::Dot,
        RawToken::Ellipsis => SyntaxKind::Ellipsis,
        RawToken::At => SyntaxKind::At,
        RawToken::ColonColon => SyntaxKind::ColonColon,
        RawToken::Arrow => SyntaxKind::Arrow,
        RawToken::Eq => SyntaxKind::Eq,
        RawToken::Gt => SyntaxKind::Gt,
        RawToken::Lt => SyntaxKind::Lt,
        RawToken::Bang => SyntaxKind::Bang,
        RawToken::Tilde => SyntaxKind::Tilde,
        RawToken::Question => SyntaxKind::Question,
        RawToken::Colon => SyntaxKind::Colon,
        RawToken::EqEq => SyntaxKind::EqEq,
        RawToken::Le => SyntaxKind::Le,
        RawToken::Ge => SyntaxKind::Ge,
        RawToken::Neq => SyntaxKind::Neq,
        RawToken::Inc => SyntaxKind::Inc,
        RawToken::Dec => SyntaxKind::Dec,
        RawToken::AmpAmp => SyntaxKind::AmpAmp,
        RawToken::PipePipe => SyntaxKind::PipePipe,
        RawToken::Plus => SyntaxKind::Plus,
        RawToken::Minus => SyntaxKind::Minus,
        RawToken::Star => SyntaxKind::Star,
        RawToken::Slash => SyntaxKind::Slash,
        RawToken::Amp => SyntaxKind::Amp,
        RawToken::Pipe => SyntaxKind::Pipe,
        RawToken::Caret => SyntaxKind::Caret,
        RawToken::Percent => SyntaxKind::Percent,
        RawToken::LtLt => SyntaxKind::LtLt,
        RawToken::GtGt => SyntaxKind::GtGt,
        RawToken::GtGtGt => SyntaxKind::GtGtGt,
        RawToken::PlusEq => SyntaxKind::PlusEq,
        RawToken::MinusEq => SyntaxKind::MinusEq,
        RawToken::StarEq => SyntaxKind::StarEq,
        RawToken::SlashEq => SyntaxKind::SlashEq,
        RawToken::AmpEq => SyntaxKind::AmpEq,
        RawToken::PipeEq => SyntaxKind::PipeEq,
        RawToken::CaretEq => SyntaxKind::CaretEq,
        RawToken::PercentEq => SyntaxKind::PercentEq,
        RawToken::LtLtEq => SyntaxKind::LtLtEq,
        RawToken::GtGtEq => SyntaxKind::GtGtEq,
        RawToken::GtGtGtEq => SyntaxKind::GtGtGtEq,
        RawToken::Underscore => SyntaxKind::Underscore,
    }
}


pub open spec fn is_space(c: char) -> bool {
    c == ' ' || c == '\t' || c == '\n' || c == '\r' || c == '\x0C'
}

pub open spec fn is_digit(c: char) -> bool {
    '0' <= c && c <= '9'
}

pub open spec fn is_ident_start(c: char) -> bool {
    ('a' <= c && c <= 'z') || ('A' <= c && c <= 'Z') || c == '_' || c == '$' || (c as u32) >= 0x80
}

/// The classes of characters that make up a run inside a token.
#[derive(Clone, Copy, PartialEq, Eq, Structural)]
pub enum CharClass {
    Ident,
    Decimal,
    Hex,
    Binary,
}

pub open spec fn in_class(c: char, cls: CharClass) -> bool {
    match cls {
        CharClass::Ident => is_ident_start(c) || is_digit(c),
        CharClass::Decimal => is_digit(c) || c == '_',
        CharClass::Hex => is_digit(c) || ('a' <= c && c <= 'f') || ('A' <= c && c <= 'F') || c == '_',
        CharClass::Binary => c == '0' || c == '1' || c == '_',
    }
}

/// The end of the run of `cls` characters that starts at `i`.
pub open spec fn run_end(s: Seq<char>, i: int, cls: CharClass) -> int
    decreases s.len() - i,
{
    if 0 <= i < s.len() && in_class(s[i], cls) {
        run_end(s, i + 1, cls)
    } else {
        i
    }
}

/// The index of the first newline at or after `i`, or the end of the text.
pub open spec fn line_end(s: Seq<char>, i: int) -> int
    decreases s.len() - i,
{
    if i < 0 || i >= s.len() || s[i] == '\n' {
        i
    } else {
        line_end(s, i + 1)
    }
}

/// The index just past the `*/` that closes a block comment, or the end of the text.
pub open spec fn block_comment_end(s: Seq<char>, i: int) -> int
    decreases s.len() - i,
{
    if i < 0 || i >= s.len() {
        i
    } else if i + 1 < s.len() && s[i] == '*' && s[i + 1] == '/' {
        i + 2
    } else {
        block_comment_end(s, i + 1)
    }
}

pub proof fn lemma_run_end(s: Seq<char>, i: int, cls: CharClass)
    requires
        0 <= i <= s.len(),
    ensures
        i <= run_end(s, i, cls) <= s.len(),
        forall|k: int| i <= k < run_end(s, i, cls) ==> in_class(#[trigger] s[k], cls),
    decreases s.len() - i,
{
    if i < s.len() && in_class(s[i], cls) {
        lemma_run_end(s, i + 1, cls);
    }
}

pub proof fn lemma_line_end(s: Seq<char>, i: int)
    requires
        0 <= i <= s.len(),
    ensures
        i <= line_end(s, i) <= s.len(),
    decreases s.len() - i,
{
    if i < s.len() && s[i] != '\n' {
        lemma_line_end(s, i + 1);
    }
}

pub proof fn lemma_block_comment_end(s: Seq<char>, i: int)
    requires
        0 <= i <= s.len(),
    ensures
        i <= block_comment_end(s, i) <= s.len(),
    decreases s.len() - i,
{
    if i < s.len() && !(i + 1 < s.len() && s[i] == '*' && s[i + 1] == '/') {
        lemma_block_comment_end(s, i + 1);
    }
}

/// The end of the whitespace and comments that start at `i`.
pub open spec fn trivia_end(s: Seq<char>, i: int) -> int
    decreases s.len() - i,
{
    if i < 0 || i >= s.len() {
        i
    } else if is_space(s[i]) {
        trivia_end(s, i + 1)
    } else if i + 1 < s.len() && s[i] == '/' && s[i + 1] == '/' {
        proof {
            lemma_line_end(s, i + 2);
        }
        trivia_end(s, line_end(s, i + 2))
    } else if i + 1 < s.len() && s[i] == '/' && s[i + 1] == '*' {
        proof {
            lemma_block_comment_end(s, i + 2);
        }
        trivia_end(s, block_comment_end(s, i + 2))
    } else {
        i
    }
}

pub proof fn lemma_trivia_end(s: Seq<char>, i: int)
    requires
        0 <= i <= s.len(),
    ensures
        i <= trivia_end(s, i) <= s.len(),
    decreases s.len() - i,
{
    if i < s.len() {
        if is_space(s[i]) {
            lemma_trivia_end(s, i + 1);
        } else if i + 1 < s.len() && s[i] == '/' && s[i + 1] == '/' {
            lemma_line_end(s, i + 2);
            lemma_trivia_end(s, line_end(s, i + 2));
        } else if i + 1 < s.len() && s[i] == '/' && s[i + 1] == '*' {
            lemma_block_comment_end(s, i + 2);
            lemma_trivia_end(s, block_comment_end(s, i + 2));
        }
    }
}

/// Where a quoted literal that opened before `i` ends: just past the closing `quote`,
/// or `None` when a newline or the end of the text comes first. A backslash escapes
/// the character after it.
pub open spec fn quoted_end(s: Seq<char>, i: int, quote: char) -> Option<int>
    decreases s.len() - i,
{
    if i < 0 || i >= s.len() || s[i] == '\n' {
        None
    } else if s[i] == quote {
        Some(i + 1)
    } else if s[i] == '\\' {
        if i + 1 < s.len() && s[i + 1] != '\n' {
            quoted_end(s, i + 2, quote)
        } else {
            None
        }
    } else {
        quoted_end(s, i + 1, quote)
    }
}

pub proof fn lemma_quoted_end(s: Seq<char>, i: int, quote: char)
    requires
        0 <= i <= s.len(),
    ensures
        quoted_end(s, i, quote) matches Some(e) ==> i < e <= s.len(),
    decreases s.len() - i,
{
    if i < s.len() && s[i] != '\n' && s[i] != quote {
        if s[i] == '\\' {
            if i + 1 < s.len() && s[i + 1] != '\n' {
                lemma_quoted_end(s, i + 2, quote);
            }
        } else {
            lemma_quoted_end(s, i + 1, quote);
        }
    }
}

pub open spec fn triple_quote_at(s: Seq<char>, i: int) -> bool {
    0 <= i && i + 3 <= s.len() && s[i] == '"' && s[i + 1] == '"' && s[i + 2] == '"'
}

/// Where a text block whose body starts at `i` ends: just past the closing `"""`.
pub open spec fn text_block_end(s: Seq<char>, i: int) -> Option<int>
    decreases s.len() - i,
{
    if i < 0 || i >= s.len() {
        None
    } else if triple_quote_at(s, i) {
        Some(i + 3)
    } else if s[i] == '\\' && i + 1 < s.len() {
        text_block_end(s, i + 2)
    } else {
        text_block_end(s, i + 1)
    }
}

pub proof fn lemma_text_block_end(s: Seq<char>, i: int)
    requires
        0 <= i <= s.len(),
    ensures
        text_block_end(s, i) matches Some(e) ==> i < e <= s.len(),
    decreases s.len() - i,
{
    if i < s.len() && !triple_quote_at(s, i) {
        if s[i] == '\\' && i + 1 < s.len() {
            lemma_text_block_end(s, i + 2);
        } else {
            lemma_text_block_end(s, i + 1);
        }
    }
}

pub open spec fn is_float_suffix(c: char) -> bool {
    c == 'f' || c == 'F' || c == 'd' || c == 'D'
}

pub open spec fn is_exponent_mark(c: char) -> bool {
    c == 'e' || c == 'E'
}

/// A character after `.` that stops the `.` from joining a number: another `.`, or a
/// letter that neither starts an exponent nor is a float suffix.
pub open spec fn stops_dot(c: char) -> bool {
    c == '.' || (is_ident_start(c) && !is_exponent_mark(c) && !is_float_suffix(c))
}

/// Whether the `.` at `a` belongs to a number whose integer digits span `i..a`.
pub open spec fn dot_continues_number(s: Seq<char>, i: int, a: int) -> bool {
    &&& 0 <= a < s.len()
    &&& s[a] == '.'
    &&& ((a + 1 < s.len() && is_digit(s[a + 1])) || (a > i && !(a + 1 < s.len() && stops_dot(s[a + 1]))))
}

/// Where the digits of an exponent start, when the text at `b` is one.
pub open spec fn exponent_digits(s: Seq<char>, b: int) -> Option<int> {
    if 0 <= b < s.len() && is_exponent_mark(s[b]) {
        let c0 = if b + 1 < s.len() && (s[b + 1] == '+' || s[b + 1] == '-') {
            b + 2
        } else {
            b + 1
        };
        if c0 < s.len() && is_digit(s[c0]) {
            Some(c0)
        } else {
            None
        }
    } else {
        None
    }
}

/// The kind of a decimal number token, from which parts it has.
pub open spec fn decimal_kind(starts_with_dot: bool, has_dot: bool, has_exp: bool) -> RawToken {
    if has_dot && starts_with_dot {
        RawToken::FloatLiteralDot
    } else if has_exp {
        RawToken::FloatLiteralExp
    } else if has_dot {
        RawToken::FloatLiteral
    } else {
        RawToken::FloatLiteralSuffix
    }
}

/// A numeric literal that starts at `i`: its raw token and where it ends.
pub open spec fn number_at(s: Seq<char>, i: int) -> (RawToken, int) {
    if i + 1 < s.len() && s[i] == '0' && (s[i + 1] == 'x' || s[i + 1] == 'X') {
        let e = run_end(s, i + 2, CharClass::Hex);
        if e < s.len() && (s[e] == 'L' || s[e] == 'l') {
            (RawToken::LongLiteral, e + 1)
        } else {
            (RawToken::HexLiteral, e)
        }
    } else if i + 1 < s.len() && s[i] == '0' && (s[i + 1] == 'b' || s[i + 1] == 'B') {
        let e = run_end(s, i + 2, CharClass::Binary);
        if e < s.len() && (s[e] == 'L' || s[e] == 'l') {
            (RawToken::LongLiteral, e + 1)
        } else {
            (RawToken::BinLiteral, e)
        }
    } else {
        let a = run_end(s, i, CharClass::Decimal);
        let has_dot = dot_continues_number(s, i, a);
        let b = if has_dot {
            run_end(s, a + 1, CharClass::Decimal)
        } else {
            a
        };
        let c = match exponent_digits(s, b) {
            Some(c0) => run_end(s, c0, CharClass::Decimal),
            None => b,
        };
        let has_exp = exponent_digits(s, b) is Some;
        if c < s.len() && is_float_suffix(s[c]) {
            (decimal_kind(a == i, has_dot, has_exp), c + 1)
        } else if !has_dot && !has_exp && c < s.len() && (s[c] == 'L' || s[c] == 'l') {
            (RawToken::LongLiteral, c + 1)
        } else if has_dot || has_exp {
            (decimal_kind(a == i, has_dot, has_exp), c)
        } else {
            (RawToken::IntLiteral, c)
        }
    }
}

pub proof fn lemma_number_at(s: Seq<char>, i: int)
    requires
        0 <= i < s.len(),
        is_digit(s[i]) || (s[i] == '.' && i + 1 < s.len() && is_digit(s[i + 1])),
    ensures
        i < number_at(s, i).1 <= s.len(),
{
    lemma_run_end(s, i, CharClass::Decimal);
    if i + 1 < s.len() && s[i] == '0' && (s[i + 1] == 'x' || s[i + 1] == 'X') {
        lemma_run_end(s, i + 2, CharClass::Hex);
    } else if i + 1 < s.len() && s[i] == '0' && (s[i + 1] == 'b' || s[i + 1] == 'B') {
        lemma_run_end(s, i + 2, CharClass::Binary);
    } else {
        let a = run_end(s, i, CharClass::Decimal);
        if is_digit(s[i]) {
            assert(in_class(s[i], CharClass::Decimal));
            lemma_run_end(s, i + 1, CharClass::Decimal);
            assert(a == run_end(s, i + 1, CharClass::Decimal));
            assert(a > i);
        } else {
            assert(!in_class(s[i], CharClass::Decimal));
            assert(a == i);
            assert(dot_continues_number(s, i, a));
        }
        let has_dot = dot_continues_number(s, i, a);
        if has_dot {
            lemma_run_end(s, a + 1, CharClass::Decimal);
        }
        let b = if has_dot {
            run_end(s, a + 1, CharClass::Decimal)
        } else {
            a
        };
        assert(b > i);
        match exponent_digits(s, b) {
            Some(c0) => {
                lemma_run_end(s, c0, CharClass::Decimal);
            },
            None => {},
        }
    }
}

pub open spec fn non_sealed_at(s: Seq<char>, e: int) -> bool {
    &&& 0 <= e
    &&& e + 7 <= s.len()
    &&& s[e] == '-'
    &&& s[e + 1] == 's'
    &&& s[e + 2] == 'e'
    &&& s[e + 3] == 'a'
    &&& s[e + 4] == 'l'
    &&& s[e + 5] == 'e'
    &&& s[e + 6] == 'd'
    &&& !(e + 7 < s.len() && in_class(s[e + 7], CharClass::Ident))
}

/// A word that starts at `i`: a keyword, `non-sealed`, or an identifier.
pub open spec fn word_at(s: Seq<char>, i: int) -> (RawToken, int) {
    let e = run_end(s, i, CharClass::Ident);
    let w = s.subrange(i, e);
    if w == seq!['n', 'o', 'n'] && non_sealed_at(s, e) {
        (RawToken::NonSealed, e + 7)
    } else {
        match keyword(w) {
            Some(k) => (k, e),
            None => (RawToken::Ident, e),
        }
    }
}

/// The token that starts at `i` (after trivia): its raw token, or `None` for text
/// that is no token, and where it ends.
pub open spec fn scan_at(s: Seq<char>, i: int) -> (Option<RawToken>, int) {
    if !(0 <= i < s.len()) {
        (None, i + 1)
    } else if is_ident_start(s[i]) {
        let (t, e) = word_at(s, i);
        (Some(t), e)
    } else if is_digit(s[i]) || (s[i] == '.' && i + 1 < s.len() && is_digit(s[i + 1])) {
        let (t, e) = number_at(s, i);
        (Some(t), e)
    } else if triple_quote_at(s, i) {
        match text_block_end(s, i + 3) {
            Some(e) => (Some(RawToken::TextBlock), e),
            None => (None, s.len() as int),
        }
    } else if s[i] == '"' {
        match quoted_end(s, i + 1, '"') {
            Some(e) => (Some(RawToken::StringLiteral), e),
            None => (None, line_end(s, i + 1)),
        }
    } else if s[i] == '\'' {
        match quoted_end(s, i + 1, '\'') {
            Some(e) => (Some(RawToken::CharLiteral), e),
            None => (None, line_end(s, i + 1)),
        }
    } else {
        match punct_at(s, i) {
            Some((t, n)) => (Some(t), i + n),
            None => (None, i + 1),
        }
    }
}

pub proof fn lemma_scan_at(s: Seq<char>, i: int)
    requires
        0 <= i < s.len(),
    ensures
        i < scan_at(s, i).1 <= s.len(),
{
    if is_ident_start(s[i]) {
        assert(in_class(s[i], CharClass::Ident));
        lemma_run_end(s, i + 1, CharClass::Ident);
        assert(run_end(s, i, CharClass::Ident) == run_end(s, i + 1, CharClass::Ident));
    } else if is_digit(s[i]) || (s[i] == '.' && i + 1 < s.len() && is_digit(s[i + 1])) {
        lemma_number_at(s, i);
    } else if triple_quote_at(s, i) {
        lemma_text_block_end(s, i + 3);
    } else if s[i] == '"' {
        lemma_quoted_end(s, i + 1, '"');
        lemma_line_end(s, i + 1);
    } else if s[i] == '\'' {
        lemma_quoted_end(s, i + 1, '\'');
        lemma_line_end(s, i + 1);
    }
}

/// The syntax kind of a scanned token; text that is no token is an error.
pub open spec fn scanned_kind(t: Option<RawToken>) -> SyntaxKind {
    match t {
        Some(r) => raw_kind(r),
        None => SyntaxKind::Error,
    }
}

/// The tokens of `s` from `i` on, each with its kind and its range of characters.
#[verifier::opaque]
pub open spec fn lex_from(s: Seq<char>, i: int) -> Seq<(SyntaxKind, int, int)>
    decreases s.len() - i,
{
    if i < 0 || i >= s.len() {
        Seq::empty()
    } else {
        proof {
            lemma_trivia_end(s, i);
        }
        let t = trivia_end(s, i);
        if t >= s.len() {
            Seq::empty()
        } else {
            proof {
                lemma_scan_at(s, t);
            }
            let (raw, e) = scan_at(s, t);
            seq![(scanned_kind(raw), t, e)] + lex_from(s, e)
        }
    }
}

/// The tokens from `i` on lie at or after `i`, each is non-empty, and each ends
/// before the next begins.
pub proof fn lemma_lex_from_ordered(s: Seq<char>, i: int)
    requires
        0 <= i <= s.len(),
    ensures
        forall|k: int|
            0 <= k < lex_from(s, i).len() ==> i <= (#[trigger] lex_from(s, i)[k]).1 < lex_from(s, i)[k].2
                <= s.len(),
        forall|k: int|
            0 <= k < lex_from(s, i).len() - 1 ==> (#[trigger] lex_from(s, i)[k]).2 <= lex_from(s, i)[k
                + 1].1,
    decreases s.len() - i,
{
    reveal(lex_from);
    if i < s.len() {
        lemma_trivia_end(s, i);
        let t = trivia_end(s, i);
        if t < s.len() {
            lemma_scan_at(s, t);
            let (raw, e) = scan_at(s, t);
            lemma_lex_from_ordered(s, e);
            let rest = lex_from(s, e);
            assert(lex_from(s, i) == seq![(scanned_kind(raw), t, e)] + rest);
            assert forall|k: int| 0 <= k < lex_from(s, i).len() implies i <= (#[trigger] lex_from(
                s,
                i,
            )[k]).1 < lex_from(s, i)[k].2 <= s.len() by {
                if k > 0 {
                    assert(lex_from(s, i)[k] == rest[k - 1]);
                }
            }
            assert forall|k: int| 0 <= k < lex_from(s, i).len() - 1 implies (#[trigger] lex_from(
                s,
                i,
            )[k]).2 <= lex_from(s, i)[k + 1].1 by {
                assert(lex_from(s, i)[k + 1] == rest[k]);
                if k > 0 {
                    assert(lex_from(s, i)[k] == rest[k - 1]);
                }
            }
        }
    }
}

/// The number of bytes a character takes in UTF-8.
pub open spec fn utf8_width(c: char) -> nat {
    if (c as u32) < 0x80 {
        1
    } else if (c as u32) < 0x800 {
        2
    } else if (c as u32) < 0x10000 {
        3
    } else {
        4
    }
}

/// The number of bytes `s` takes in UTF-8.
pub open spec fn byte_len(s: Seq<char>) -> nat
    decreases s.len(),
{
    if s.len() == 0 {
        0
    } else {
        byte_len(s.drop_last()) + utf8_width(s.last())
    }
}

pub proof fn lemma_byte_len_prefix(s: Seq<char>, i: int, j: int)
    requires
        0 <= i <= j <= s.len(),
    ensures
        byte_len(s.take(i)) <= byte_len(s.take(j)),
    decreases j - i,
{
    if i < j {
        assert(s.take(j).drop_last() =~= s.take(j - 1));
        lemma_byte_len_prefix(s, i, j - 1);
    }
}

/// Whether the source's byte offsets fit in 32 bits.
pub fn source_fits(source: &str) -> (r: bool)
    ensures
        r == (byte_len(source@) <= u32::MAX),
{
    let chars = chars_of(source);
    let mut total: u64 = 0;
    let mut i: usize = 0;
    while i < chars.len()
        invariant
            chars@ == source@,
            i <= chars@.len(),
            total == byte_len(chars@.take(i as int)),
            total <= u32::MAX,
        decreases chars@.len() - i,
    {
        let c = chars[i];
        let w: u64 = if (c as u32) < 0x80 {
            1
        } else if (c as u32) < 0x800 {
            2
        } else if (c as u32) < 0x10000 {
            3
        } else {
            4
        };
        proof {
            let s = chars@;
            assert(s.take(i + 1).drop_last() =~= s.take(i as int));
            assert(s.take(i + 1).last() == c);
        }
        total = total + w;
        i = i + 1;
        if total > 0xFFFF_FFFF {
            proof {
                lemma_byte_len_prefix(chars@, i as int, chars@.len() as int);
                assert(chars@.take(chars@.len() as int) =~= chars@);
            }
            return false;
        }
    }
    proof {
        assert(chars@.take(chars@.len() as int) =~= chars@);
    }
    true
}

/// A token: its kind, its byte range in the source, and its text.
#[derive(Debug, Clone)]
pub struct LexedToken {
    pub kind: SyntaxKind,
    pub range: TextRange,
    pub text: String,
}

/// Whether `t` is the token described by `(kind, start, end)` over the characters `s`.
#[verifier::opaque]
pub open spec fn token_matches(s: Seq<char>, t: LexedToken, d: (SyntaxKind, int, int)) -> bool {
    &&& t.kind == d.0
    &&& t.text@ == s.subrange(d.1, d.2)
    &&& t.range.start == byte_len(s.take(d.1))
    &&& t.range.end == byte_len(s.take(d.2))
}

/// A scanner over one source text.
pub struct Lexer {
    chars: Vec<char>,
    pos: usize,
    byte_pos: u32,
}

impl Lexer {
    /// The characters being scanned.
    pub closed spec fn source(&self) -> Seq<char> {
        self.chars@
    }

    /// The index of the next character to scan.
    pub closed spec fn position(&self) -> int {
        self.pos as int
    }

    pub closed spec fn wf(&self) -> bool {
        &&& self.pos <= self.chars@.len()
        &&& self.byte_pos == byte_len(self.chars@.take(self.pos as int))
        &&& byte_len(self.chars@) <= u32::MAX
    }

    /// The tokens still to come.
    pub open spec fn remaining(&self) -> Seq<(SyntaxKind, int, int)> {
        lex_from(self.source(), self.position())
    }

    /// The characters of the source.
    pub fn into_chars(self) -> (r: Vec<char>)
        ensures
            r@ == self.source(),
    {
        self.chars
    }

    /// The index of the next character to scan.
    pub fn pos(&self) -> (r: usize)
        ensures
            r == self.position(),
    {
        self.pos
    }

    /// A scanner at the start of `source`; byte offsets must fit in 32 bits.
    pub fn new(source: &str) -> (r: Lexer)
        requires
            byte_len(source@) <= u32::MAX,
        ensures
            r.wf(),
            r.source() == source@,
            r.position() == 0,
    {
        let chars = chars_of(source);
        assert(chars@.take(0) =~= Seq::<char>::empty());
        Lexer { chars, pos: 0, byte_pos: 0 }
    }

    /// Moves the byte offset along with the character position.
    fn advance_to(&mut self, target: usize)
        requires
            old(self).wf(),
            old(self).pos <= target <= old(self).chars@.len(),
        ensures
            final(self).wf(),
            final(self).chars == old(self).chars,
            final(self).pos == target,
    {
        while self.pos < target
            invariant
                self.wf(),
                self.pos <= target <= self.chars@.len(),
                self.chars == old(self).chars,
            decreases target - self.pos,
        {
            let c = self.chars[self.pos];
            let w: u32 = if (c as u32) < 0x80 {
                1
            } else if (c as u32) < 0x800 {
                2
            } else if (c as u32) < 0x10000 {
                3
            } else {
                4
            };
            proof {
                let s = self.chars@;
                let p = self.pos as int;
                assert(s.take(p + 1).drop_last() =~= s.take(p));
                assert(s.take(p + 1).last() == c);
                lemma_byte_len_prefix(s, p + 1, s.len() as int);
                assert(s.take(s.len() as int) =~= s);
            }
            self.byte_pos = self.byte_pos + w;
            self.pos = self.pos + 1;
        }
    }

    /// The next token, or `None` at the end of the text.
    pub fn next_token(&mut self) -> (r: Option<LexedToken>)
        requires
            old(self).wf(),
        ensures
            final(self).wf(),
            final(self).source() == old(self).source(),
            old(self).remaining().len() == 0 ==> r is None,
            old(self).remaining().len() > 0 ==> (r matches Some(t) && token_matches(
                old(self).source(),
                t,
                old(self).remaining()[0],
            )),
            old(self).remaining().len() > 0 ==> final(self).remaining() == old(self).remaining().drop_first(),
            old(self).remaining().len() > 0 ==> final(self).position() == old(self).remaining()[0].2,
            r is None ==> final(self).remaining().len() == 0,
    {
        let ghost s = self.chars@;
        proof {
            reveal(lex_from);
            reveal(token_matches);
        }
        let n = self.chars.len();
        if self.pos >= n {
            return None;
        }
        let t = trivia_end_exec(&self.chars, self.pos);
        proof {
            lemma_trivia_end(s, self.pos as int);
        }
        if t >= n {
            self.advance_to(n);
            return None;
        }
        let (raw, e) = scan_at_exec(&self.chars, t);
        proof {
            lemma_scan_at(s, t as int);
        }
        self.advance_to(t);
        let start = self.byte_pos;
        self.advance_to(e);
        let end = self.byte_pos;
        proof {
            lemma_byte_len_prefix(s, t as int, e as int);
        }
        let kind = match raw {
            Some(r) => raw_to_syntax(r),
            None => SyntaxKind::Error,
        };
        let text = string_of(&self.chars.as_slice()[t..e]);
        let tok = LexedToken { kind, range: TextRange { start, end }, text };
        proof {
            let rest = lex_from(s, e as int);
            assert(self.chars@.subrange(t as int, e as int) == s.subrange(t as int, e as int));
            assert(lex_from(s, old(self).pos as int) == seq![(scanned_kind(raw), t as int, e as int)] + rest);
            assert(old(self).remaining().drop_first() =~= rest);
        }
        Some(tok)
    }
}

/// All tokens of `source`, in order.
pub fn tokenize(source: &str) -> (r: Vec<LexedToken>)
    requires
        byte_len(source@) <= u32::MAX,
    ensures
        r@.len() == lex_from(source@, 0).len(),
        forall|k: int| 0 <= k < r@.len() ==> token_matches(source@, #[trigger] r@[k], lex_from(source@, 0)[k]),
{
    let mut lexer = Lexer::new(source);
    let mut out: Vec<LexedToken> = Vec::new();
    let ghost all = lex_from(source@, 0);
    loop
        invariant
            lexer.wf(),
            lexer.source() == source@,
            all == lex_from(source@, 0),
            out@.len() + lexer.remaining().len() == all.len(),
            lexer.remaining() == all.skip(out@.len() as int),
            forall|k: int| 0 <= k < out@.len() ==> token_matches(source@, #[trigger] out@[k], all[k]),
        decreases lexer.remaining().len(),
    {
        let ghost before = lexer.remaining();
        match lexer.next_token() {
            Some(t) => {
                proof {
                    assert(before[0] == all[out@.len() as int]);
                    assert(all.skip(out@.len() + 1 as int) =~= before.drop_first());
                }
                out.push(t);
            },
            None => {
                proof {
                    assert(before.len() == 0);
                    assert(out@.len() == all.len());
                }
                return out;
            },
        }
    }
}

/// The end of the trivia at `i`.
fn trivia_end_exec(s: &Vec<char>, i: usize) -> (r: usize)
    requires
        i <= s@.len(),
    ensures
        r == trivia_end(s@, i as int),
{
    let n = s.len();
    let mut j = i;
    proof {
        lemma_trivia_end(s@, i as int);
    }
    while j < n
        invariant
            n == s@.len(),
            i <= j <= n,
            trivia_end(s@, j as int) == trivia_end(s@, i as int),
        decreases n - j,
    {
        let c = s[j];
        if c == ' ' || c == '\t' || c == '\n' || c == '\r' || c == '\x0C' {
            j = j + 1;
        } else if n - j >= 2 && c == '/' && s[j + 1] == '/' {
            proof {
                lemma_line_end(s@, j + 2);
            }
            j = line_end_exec(s, j + 2);
        } else if n - j >= 2 && c == '/' && s[j + 1] == '*' {
            proof {
                lemma_block_comment_end(s@, j + 2);
            }
            j = block_comment_end_exec(s, j + 2);
        } else {
            return j;
        }
    }
    j
}

/// The end of the run of `cls` characters at `i`.
fn run_end_exec(s: &Vec<char>, i: usize, cls: CharClass) -> (r: usize)
    requires
        i <= s@.len(),
    ensures
        r == run_end(s@, i as int, cls),
        i <= r <= s@.len(),
{
    let mut j = i;
    while j < s.len() && char_in_class(s[j], cls)
        invariant
            i <= j <= s@.len(),
            run_end(s@, j as int, cls) == run_end(s@, i as int, cls),
        decreases s@.len() - j,
    {
        j = j + 1;
    }
    j
}

fn char_in_class(c: char, cls: CharClass) -> (r: bool)
    ensures
        r == in_class(c, cls),
{
    match cls {
        CharClass::Ident => is_ident_char(c) || ('0' <= c && c <= '9'),
        CharClass::Decimal => ('0' <= c && c <= '9') || c == '_',
        CharClass::Hex => ('0' <= c && c <= '9') || ('a' <= c && c <= 'f') || ('A' <= c && c <= 'F')
            || c == '_',
        CharClass::Binary => c == '0' || c == '1' || c == '_',
    }
}

fn is_ident_char(c: char) -> (r: bool)
    ensures
        r == is_ident_start(c),
{
    ('a' <= c && c <= 'z') || ('A' <= c && c <= 'Z') || c == '_' || c == '$' || (c as u32) >= 0x80
}

fn quoted_end_exec(s: &Vec<char>, i: usize, quote: char) -> (r: Option<usize>)
    requires
        i <= s@.len(),
    ensures
        match quoted_end(s@, i as int, quote) {
            Some(e) => i < e <= s@.len() && r == Some(e as usize),
            None => r is None,
        },
{
    let n = s.len();
    let mut j = i;
    proof {
        lemma_quoted_end(s@, i as int, quote);
    }
    while j < n
        invariant
            n == s@.len(),
            i <= j <= n,
            quoted_end(s@, j as int, quote) == quoted_end(s@, i as int, quote),
        decreases n - j,
    {
        let c = s[j];
        if c == '\n' {
            return None;
        } else if c == quote {
            return Some(j + 1);
        } else if c == '\\' {
            if n - j >= 2 && s[j + 1] != '\n' {
                j = j + 2;
            } else {
                return None;
            }
        } else {
            j = j + 1;
        }
    }
    None
}

fn text_block_end_exec(s: &Vec<char>, i: usize) -> (r: Option<usize>)
    requires
        i <= s@.len(),
    ensures
        match text_block_end(s@, i as int) {
            Some(e) => i < e <= s@.len() && r == Some(e as usize),
            None => r is None,
        },
{
    let n = s.len();
    let mut j = i;
    proof {
        lemma_text_block_end(s@, i as int);
    }
    while j < n
        invariant
            n == s@.len(),
            i <= j <= n,
            text_block_end(s@, j as int) == text_block_end(s@, i as int),
        decreases n - j,
    {
        if n - j >= 3 && s[j] == '"' && s[j + 1] == '"' && s[j + 2] == '"' {
            return Some(j + 3);
        } else if s[j] == '\\' && n - j >= 2 {
            j = j + 2;
        } else {
            j = j + 1;
        }
    }
    None
}

fn stops_dot_exec(c: char) -> (r: bool)
    ensures
        r == stops_dot(c),
{
    c == '.' || (is_ident_char(c) && !(c == 'e' || c == 'E') && !(c == 'f' || c == 'F' || c == 'd'
        || c == 'D'))
}

fn block_comment_end_exec(s: &Vec<char>, i: usize) -> (r: usize)
    requires
        i <= s@.len(),
    ensures
        r == block_comment_end(s@, i as int),
{
    let n = s.len();
    let mut k = i;
    while k < n
        invariant
            n == s@.len(),
            i <= k <= n,
            block_comment_end(s@, k as int) == block_comment_end(s@, i as int),
        decreases n - k,
    {
        if n - k >= 2 && s[k] == '*' && s[k + 1] == '/' {
            return k + 2;
        }
        k = k + 1;
    }
    k
}

fn line_end_exec(s: &Vec<char>, i: usize) -> (r: usize)
    requires
        i <= s@.len(),
    ensures
        r == line_end(s@, i as int),
{
    let mut k = i;
    while k < s.len() && s[k] != '\n'
        invariant
            i <= k <= s@.len(),
            line_end(s@, k as int) == line_end(s@, i as int),
        decreases s@.len() - k,
    {
        k = k + 1;
    }
    k
}

fn number_at_exec(s: &Vec<char>, i: usize) -> (r: (RawToken, usize))
    requires
        i < s@.len(),
        is_digit(s@[i as int]) || (s@[i as int] == '.' && i + 1 < s@.len() && is_digit(s@[i + 1])),
    ensures
        r.0 == number_at(s@, i as int).0,
        r.1 == number_at(s@, i as int).1,
{
    let n = s.len();
    proof {
        lemma_number_at(s@, i as int);
    }
    if n - i >= 2 && s[i] == '0' && (s[i + 1] == 'x' || s[i + 1] == 'X') {
        let e = run_end_exec(s, i + 2, CharClass::Hex);
        if e < n && (s[e] == 'L' || s[e] == 'l') {
            (RawToken::LongLiteral, e + 1)
        } else {
            (RawToken::HexLiteral, e)
        }
    } else if n - i >= 2 && s[i] == '0' && (s[i + 1] == 'b' || s[i + 1] == 'B') {
        let e = run_end_exec(s, i + 2, CharClass::Binary);
        if e < n && (s[e] == 'L' || s[e] == 'l') {
            (RawToken::LongLiteral, e + 1)
        } else {
            (RawToken::BinLiteral, e)
        }
    } else {
        let a = run_end_exec(s, i, CharClass::Decimal);
        let has_dot = a < n && s[a] == '.' && ((n - a >= 2 && '0' <= s[a + 1] && s[a + 1] <= '9') || (a
            > i && !(n - a >= 2 && stops_dot_exec(s[a + 1]))));
        let b = if has_dot {
            run_end_exec(s, a + 1, CharClass::Decimal)
        } else {
            a
        };
        let exp: Option<usize> = if b < n && (s[b] == 'e' || s[b] == 'E') {
            let c0 = if n - b >= 2 && (s[b + 1] == '+' || s[b + 1] == '-') {
                b + 2
            } else {
                b + 1
            };
            if c0 < n && '0' <= s[c0] && s[c0] <= '9' {
                Some(c0)
            } else {
                None
            }
        } else {
            None
        };
        let has_exp = exp.is_some();
        let c = match exp {
            Some(c0) => run_end_exec(s, c0, CharClass::Decimal),
            None => b,
        };
        let kind = if has_dot && a == i {
            RawToken::FloatLiteralDot
        } else if has_exp {
            RawToken::FloatLiteralExp
        } else if has_dot {
            RawToken::FloatLiteral
        } else {
            RawToken::FloatLiteralSuffix
        };
        proof {
            assert(has_dot == dot_continues_number(s@, i as int, a as int));
            assert(match exponent_digits(s@, b as int) {
                Some(c0) => exp == Some(c0 as usize),
                None => exp is None,
            });
            assert(kind == decimal_kind(a == i, has_dot, has_exp));
        }
        if c < n && (s[c] == 'f' || s[c] == 'F' || s[c] == 'd' || s[c] == 'D') {
            (kind, c + 1)
        } else if !has_dot && !has_exp && c < n && (s[c] == 'L' || s[c] == 'l') {
            (RawToken::LongLiteral, c + 1)
        } else if has_dot || has_exp {
            (kind, c)
        } else {
            (RawToken::IntLiteral, c)
        }
    }
}

fn word_at_exec(s: &Vec<char>, i: usize) -> (r: (RawToken, usize))
    requires
        i < s@.len(),
        is_ident_start(s@[i as int]),
    ensures
        r.0 == word_at(s@, i as int).0,
        r.1 == word_at(s@, i as int).1,
{
    let n = s.len();
    let e = run_end_exec(s, i, CharClass::Ident);
    let w = string_of(&s.as_slice()[i..e]);
    let is_non = e - i == 3 && s[i] == 'n' && s[i + 1] == 'o' && s[i + 2] == 'n';
    proof {
        assert(w@ == s@.subrange(i as int, e as int));
        if w@ == seq!['n', 'o', 'n'] {
            assert(w@.len() == 3);
            assert(w@[0] == s@[i as int]);
            assert(w@[1] == s@[i + 1]);
            assert(w@[2] == s@[i + 2]);
            assert(is_non);
        }
        if is_non {
            assert(w@ =~= seq!['n', 'o', 'n']);
        }
    }
    if is_non && n - e >= 7 && s[e] == '-' && s[e + 1] == 's' && s[e + 2] == 'e' && s[e + 3] == 'a'
        && s[e + 4] == 'l' && s[e + 5] == 'e' && s[e + 6] == 'd' && !(n - e > 7 && char_in_class(
        s[e + 7],
        CharClass::Ident,
    )) {
        return (RawToken::NonSealed, e + 7);
    }
    match keyword_exec(w.as_str()) {
        Some(k) => (k, e),
        None => (RawToken::Ident, e),
    }
}

fn scan_at_exec(s: &Vec<char>, i: usize) -> (r: (Option<RawToken>, usize))
    requires
        i < s@.len(),
    ensures
        r.0 == scan_at(s@, i as int).0,
        r.1 == scan_at(s@, i as int).1,
{
    let n = s.len();
    let c = s[i];
    if is_ident_char(c) {
        let (t, e) = word_at_exec(s, i);
        (Some(t), e)
    } else if ('0' <= c && c <= '9') || (c == '.' && n - i >= 2 && '0' <= s[i + 1] && s[i + 1] <= '9') {
        let (t, e) = number_at_exec(s, i);
        (Some(t), e)
    } else if n - i >= 3 && c == '"' && s[i + 1] == '"' && s[i + 2] == '"' {
        match text_block_end_exec(s, i + 3) {
            Some(e) => (Some(RawToken::TextBlock), e),
            None => (None, n),
        }
    } else if c == '"' {
        match quoted_end_exec(s, i + 1, '"') {
            Some(e) => (Some(RawToken::StringLiteral), e),
            None => (None, line_end_exec(s, i + 1)),
        }
    } else if c == '\'' {
        match quoted_end_exec(s, i + 1, '\'') {
            Some(e) => (Some(RawToken::CharLiteral), e),
            None => (None, line_end_exec(s, i + 1)),
        }
    } else {
        match punct_at_exec(s, i) {
            Some((t, k)) => (Some(t), i + k),
            None => (None, i + 1),
        }
    }
}

/// The operator or separator the lexer reads at `i` is the one spelled by the
/// characters there: each spelling gives its own kind (`<=` is `Le`, `>=` is
/// `Ge`, `%` is `Percent`, ...).
pub proof fn law_punct_spelling(s: Seq<char>, i: int)
    requires
        0 <= i,
    ensures
        punct_at(s, i) matches Some((t, n)) ==> i + n <= s.len() && s.subrange(i, i + n) == operator_spelling(
            raw_kind(t),
        ),
{
    if let Some((t, n)) = punct_at(s, i) {
        assert(s.subrange(i, i + n) =~= operator_spelling(raw_kind(t)));
    }
}

/// The longest operator or separator at `i`, with its length.
pub open spec fn punct_at(s: Seq<char>, i: int) -> Option<(RawToken, int)> {
    if i + 4 <= s.len() && s[i + 0] == '>' && s[i + 1] == '>' && s[i + 2] == '>' && s[i + 3] == '=' {
        Some((RawToken::GtGtGtEq, 4))
    } else if i + 3 <= s.len() && s[i + 0] == '>' && s[i + 1] == '>' && s[i + 2] == '>' {
        Some((RawToken::GtGtGt, 3))
    } else if i + 3 <= s.len() && s[i + 0] == '>' && s[i + 1] == '>' && s[i + 2] == '=' {
        Some((RawToken::GtGtEq, 3))
    } else if i + 3 <= s.len() && s[i + 0] == '<' && s[i + 1] == '<' && s[i + 2] == '=' {
        Some((RawToken::LtLtEq, 3))
    } else if i + 3 <= s.len() && s[i + 0] == '.' && s[i + 1] == '.' && s[i + 2] == '.' {
        Some((RawToken::Ellipsis, 3))
    } else if i + 2 <= s.len() && s[i + 0] == ':' && s[i + 1] == ':' {
        Some((RawToken::ColonColon, 2))
    } else if i + 2 <= s.len() && s[i + 0] == '-' && s[i + 1] == '>' {
        Some((RawToken::Arrow, 2))
    } else if i + 2 <= s.len() && s[i + 0] == '=' && s[i + 1] == '=' {
        Some((RawToken::EqEq, 2))
    } else if i + 2 <= s.len() && s[i + 0] == '<' && s[i + 1] == '=' {
        Some((RawToken::Le, 2))
    } else if i + 2 <= s.len() && s[i + 0] == '>' && s[i + 1] == '=' {
        Some((RawToken::Ge, 2))
    } else if i + 2 <= s.len() && s[i + 0] == '!' && s[i + 1] == '=' {
        Some((RawToken::Neq, 2))
    } else if i + 2 <= s.len() && s[i + 0] == '+' && s[i + 1] == '+' {
        Some((RawToken::Inc, 2))
    } else if i + 2 <= s.len() && s[i + 0] == '-' && s[i + 1] == '-' {
        Some((RawToken::Dec, 2))
    } else if i + 2 <= s.len() && s[i + 0] == '&' && s[i + 1] == '&' {
        Some((RawToken::AmpAmp, 2))
    } else if i + 2 <= s.len() && s[i + 0] == '|' && s[i + 1] == '|' {
        Some((RawToken::PipePipe, 2))
    } else if i + 2 <= s.len() && s[i + 0] == '+' && s[i + 1] == '=' {
        Some((RawToken::PlusEq, 2))
    } else if i + 2 <= s.len() && s[i + 0] == '-' && s[i + 1] == '=' {
        Some((RawToken::MinusEq, 2))
    } else if i + 2 <= s.len() && s[i + 0] == '*' && s[i + 1] == '=' {
        Some((RawToken::StarEq, 2))
    } else if i + 2 <= s.len() && s[i + 0] == '/' && s[i + 1] == '=' {
        Some((RawToken::SlashEq, 2))
    } else if i + 2 <= s.len() && s[i + 0] == '&' && s[i + 1] == '=' {
        Some((RawToken::AmpEq, 2))
    } else if i + 2 <= s.len() && s[i + 0] == '|' && s[i + 1] == '=' {
        Some((RawToken::PipeEq, 2))
    } else if i + 2 <= s.len() && s[i + 0] == '^' && s[i + 1] == '=' {
        Some((RawToken::CaretEq, 2))
    } else if i + 2 <= s.len() && s[i + 0] == '%' && s[i + 1] == '=' {
        Some((RawToken::PercentEq, 2))
    } else if i + 2 <= s.len() && s[i + 0] == '<' && s[i + 1] == '<' {
        Some((RawToken::LtLt, 2))
    } else if i + 2 <= s.len() && s[i + 0] == '>' && s[i + 1] == '>' {
        Some((RawToken::GtGt, 2))
    } else if i + 1 <= s.len() && s[i + 0] == '{' {
        Some((RawToken::LBrace, 1))
    } else if i + 1 <= s.len() && s[i + 0] == '}' {
        Some((RawToken::RBrace, 1))
    } else if i + 1 <= s.len() && s[i + 0] == '[' {
        Some((RawToken::LBrack, 1))
    } else if i + 1 <= s.len() && s[i + 0] == ']' {
        Some((RawToken::RBrack, 1))
    } else if i + 1 <= s.len() && s[i + 0] == '(' {
        Some((RawToken::LParen, 1))
    } else if i + 1 <= s.len() && s[i + 0] == ')' {
        Some((RawToken::RParen, 1))
    } else if i + 1 <= s.len() && s[i + 0] == ';' {
        Some((RawToken::Semi, 1))
    } else if i + 1 <= s.len() && s[i + 0] == ',' {
        Some((RawToken::Comma, 1))
    } else if i + 1 <= s.len() && s[i + 0] == '.' {
        Some((RawToken::Dot, 1))
    } else if i + 1 <= s.len() && s[i + 0] == '@' {
        Some((RawToken::At, 1))
    } else if i + 1 <= s.len() && s[i + 0] == '=' {
        Some((RawToken::Eq, 1))
    } else if i + 1 <= s.len() && s[i + 0] == '>' {
        Some((RawToken::Gt, 1))
    } else if i + 1 <= s.len() && s[i + 0] == '<' {
        Some((RawToken::Lt, 1))
    } else if i + 1 <= s.len() && s[i + 0] == '!' {
        Some((RawToken::Bang, 1))
    } else if i + 1 <= s.len() && s[i + 0] == '~' {
        Some((RawToken::Tilde, 1))
    } else if i + 1 <= s.len() && s[i + 0] == '?' {
        Some((RawToken::Question, 1))
    } else if i + 1 <= s.len() && s[i + 0] == ':' {
        Some((RawToken::Colon, 1))
    } else if i + 1 <= s.len() && s[i + 0] == '+' {
        Some((RawToken::Plus, 1))
    } else if i + 1 <= s.len() && s[i + 0] == '-' {
        Some((RawToken::Minus, 1))
    } else if i + 1 <= s.len() && s[i + 0] == '*' {
        Some((RawToken::Star, 1))
    } else if i + 1 <= s.len() && s[i + 0] == '/' {
        Some((RawToken::Slash, 1))
    } else if i + 1 <= s.len() && s[i + 0] == '&' {
        Some((RawToken::Amp, 1))
    } else if i + 1 <= s.len() && s[i + 0] == '|' {
        Some((RawToken::Pipe, 1))
    } else if i + 1 <= s.len() && s[i + 0] == '^' {
        Some((RawToken::Caret, 1))
    } else if i + 1 <= s.len() && s[i + 0] == '%' {
        Some((RawToken::Percent, 1))
    } else {
        None
    }
}

fn punct_at_exec(s: &Vec<char>, i: usize) -> (r: Option<(RawToken, usize)>)
    requires
        i <= s@.len(),
    ensures
        match punct_at(s@, i as int) {
            Some((t, n)) => 1 <= n <= 4 && r == Some((t, n as usize)),
            None => r is None,
        },
{
    if s.len() - i >= 4 && s[i + 0] == '>' && s[i + 1] == '>' && s[i + 2] == '>' && s[i + 3] == '=' {
        Some((RawToken::GtGtGtEq, 4))
    } else if s.len() - i >= 3 && s[i + 0] == '>' && s[i + 1] == '>' && s[i + 2] == '>' {
        Some((RawToken::GtGtGt, 3))
    } else if s.len() - i >= 3 && s[i + 0] == '>' && s[i + 1] == '>' && s[i + 2] == '=' {
        Some((RawToken::GtGtEq, 3))
    } else if s.len() - i >= 3 && s[i + 0] == '<' && s[i + 1] == '<' && s[i + 2] == '=' {
        Some((RawToken::LtLtEq, 3))
    } else if s.len() - i >= 3 && s[i + 0] == '.' && s[i + 1] == '.' && s[i + 2] == '.' {
        Some((RawToken::Ellipsis, 3))
    } else if s.len() - i >= 2 && s[i + 0] == ':' && s[i + 1] == ':' {
        Some((RawToken::ColonColon, 2))
    } else if s.len() - i >= 2 && s[i + 0] == '-' && s[i + 1] == '>' {
        Some((RawToken::Arrow, 2))
    } else if s.len() - i >= 2 && s[i + 0] == '=' && s[i + 1] == '=' {
        Some((RawToken::EqEq, 2))
    } else if s.len() - i >= 2 && s[i + 0] == '<' && s[i + 1] == '=' {
        Some((RawToken::Le, 2))
    } else if s.len() - i >= 2 && s[i + 0] == '>' && s[i + 1] == '=' {
        Some((RawToken::Ge, 2))
    } else if s.len() - i >= 2 && s[i + 0] == '!' && s[i + 1] == '=' {
        Some((RawToken::Neq, 2))
    } else if s.len() - i >= 2 && s[i + 0] == '+' && s[i + 1] == '+' {
        Some((RawToken::Inc, 2))
    } else if s.len() - i >= 2 && s[i + 0] == '-' && s[i + 1] == '-' {
        Some((RawToken::Dec, 2))
    } else if s.len() - i >= 2 && s[i + 0] == '&' && s[i + 1] == '&' {
        Some((RawToken::AmpAmp, 2))
    } else if s.len() - i >= 2 && s[i + 0] == '|' && s[i + 1] == '|' {
        Some((RawToken::PipePipe, 2))
    } else if s.len() - i >= 2 && s[i + 0] == '+' && s[i + 1] == '=' {
        Some((RawToken::PlusEq, 2))
    } else if s.len() - i >= 2 && s[i + 0] == '-' && s[i + 1] == '=' {
        Some((RawToken::MinusEq, 2))
    } else if s.len() - i >= 2 && s[i + 0] == '*' && s[i + 1] == '=' {
        Some((RawToken::StarEq, 2))
    } else if s.len() - i >= 2 && s[i + 0] == '/' && s[i + 1] == '=' {
        Some((RawToken::SlashEq, 2))
    } else if s.len() - i >= 2 && s[i + 0] == '&' && s[i + 1] == '=' {
        Some((RawToken::AmpEq, 2))
    } else if s.len() - i >= 2 && s[i + 0] == '|' && s[i + 1] == '=' {
        Some((RawToken::PipeEq, 2))
    } else if s.len() - i >= 2 && s[i + 0] == '^' && s[i + 1] == '=' {
        Some((RawToken::CaretEq, 2))
    } else if s.len() - i >= 2 && s[i + 0] == '%' && s[i + 1] == '=' {
        Some((RawToken::PercentEq, 2))
    } else if s.len() - i >= 2 && s[i + 0] == '<' && s[i + 1] == '<' {
        Some((RawToken::LtLt, 2))
    } else if s.len() - i >= 2 && s[i + 0] == '>' && s[i + 1] == '>' {
        Some((RawToken::GtGt, 2))
    } else if s.len() - i >= 1 && s[i + 0] == '{' {
        Some((RawToken::LBrace, 1))
    } else if s.len() - i >= 1 && s[i + 0] == '}' {
        Some((RawToken::RBrace, 1))
    } else if s.len() - i >= 1 && s[i + 0] == '[' {
        Some((RawToken::LBrack, 1))
    } else if s.len() - i >= 1 && s[i + 0] == ']' {
        Some((RawToken::RBrack, 1))
    } else if s.len() - i >= 1 && s[i + 0] == '(' {
        Some((RawToken::LParen, 1))
    } else if s.len() - i >= 1 && s[i + 0] == ')' {
        Some((RawToken::RParen, 1))
    } else if s.len() - i >= 1 && s[i + 0] == ';' {
        Some((RawToken::Semi, 1))
    } else if s.len() - i >= 1 && s[i + 0] == ',' {
        Some((RawToken::Comma, 1))
    } else if s.len() - i >= 1 && s[i + 0] == '.' {
        Some((RawToken::Dot, 1))
    } else if s.len() - i >= 1 && s[i + 0] == '@' {
        Some((RawToken::At, 1))
    } else if s.len() - i >= 1 && s[i + 0] == '=' {
        Some((RawToken::Eq, 1))
    } else if s.len() - i >= 1 && s[i + 0] == '>' {
        Some((RawToken::Gt, 1))
    } else if s.len() - i >= 1 && s[i + 0] == '<' {
        Some((RawToken::Lt, 1))
    } else if s.len() - i >= 1 && s[i + 0] == '!' {
        Some((RawToken::Bang, 1))
    } else if s.len() - i >= 1 && s[i + 0] == '~' {
        Some((RawToken::Tilde, 1))
    } else if s.len() - i >= 1 && s[i + 0] == '?' {
        Some((RawToken::Question, 1))
    } else if s.len() - i >= 1 && s[i + 0] == ':' {
        Some((RawToken::Colon, 1))
    } else if s.len() - i >= 1 && s[i + 0] == '+' {
        Some((RawToken::Plus, 1))
    } else if s.len() - i >= 1 && s[i + 0] == '-' {
        Some((RawToken::Minus, 1))
    } else if s.len() - i >= 1 && s[i + 0] == '*' {
        Some((RawToken::Star, 1))
    } else if s.len() - i >= 1 && s[i + 0] == '/' {
        Some((RawToken::Slash, 1))
    } else if s.len() - i >= 1 && s[i + 0] == '&' {
        Some((RawToken::Amp, 1))
    } else if s.len() - i >= 1 && s[i + 0] == '|' {
        Some((RawToken::Pipe, 1))
    } else if s.len() - i >= 1 && s[i + 0] == '^' {
        Some((RawToken::Caret, 1))
    } else if s.len() - i >= 1 && s[i + 0] == '%' {
        Some((RawToken::Percent, 1))
    } else {
        None
    }
}

/// A word the lexer reads as a keyword is read as the keyword it spells.
pub proof fn law_keyword_spelling(w: Seq<char>)
    ensures
        keyword(w) matches Some(t) ==> word_spelling(raw_kind(t)) == w,
{
}

/// The keyword or word literal spelled by `w`, if any.
pub open spec fn keyword(w: Seq<char>) -> Option<RawToken> {
    if w == "abstract"@ {
        Some(RawToken::Abstract)
    } else if w == "assert"@ {
        Some(RawToken::Assert)
    } else if w == "boolean"@ {
        Some(RawToken::Boolean)
    } else if w == "break"@ {
        Some(RawToken::Break)
    } else if w == "byte"@ {
        Some(RawToken::Byte)
    } else if w == "case"@ {
        Some(RawToken::Case)
    } else if w == "catch"@ {
        Some(RawToken::Catch)
    } else if w == "char"@ {
        Some(RawToken::Char)
    } else if w == "class"@ {
        Some(RawToken::Class)
    } else if w == "continue"@ {
        Some(RawToken::Continue)
    } else if w == "default"@ {
        Some(RawToken::Default)
    } else if w == "do"@ {
        Some(RawToken::Do)
    } else if w == "double"@ {
        Some(RawToken::Double)
    } else if w == "else"@ {
        Some(RawToken::Else)
    } else if w == "enum"@ {
        Some(RawToken::Enum)
    } else if w == "extends"@ {
        Some(RawToken::Extends)
    } else if w == "final"@ {
        Some(RawToken::Final)
    } else if w == "finally"@ {
        Some(RawToken::Finally)
    } else if w == "float"@ {
        Some(RawToken::Float)
    } else if w == "for"@ {
        Some(RawToken::For)
    } else if w == "if"@ {
        Some(RawToken::If)
    } else if w == "implements"@ {
        Some(RawToken::Implements)
    } else if w == "import"@ {
        Some(RawToken::Import)
    } else if w == "instanceof"@ {
        Some(RawToken::Instanceof)
    } else if w == "int"@ {
        Some(RawToken::Int)
    } else if w == "interface"@ {
        Some(RawToken::Interface)
    } else if w == "long"@ {
        Some(RawToken::Long)
    } else if w == "native"@ {
        Some(RawToken::Native)
    } else if w == "new"@ {
        Some(RawToken::New)
    } else if w == "package"@ {
        Some(RawToken::Package)
    } else if w == "private"@ {
        Some(RawToken::Private)
    } else if w == "protected"@ {
        Some(RawToken::Protected)
    } else if w == "public"@ {
        Some(RawToken::Public)
    } else if w == "return"@ {
        Some(RawToken::Return)
    } else if w == "short"@ {
        Some(RawToken::Short)
    } else if w == "static"@ {
        Some(RawToken::Static)
    } else if w == "strictfp"@ {
        Some(RawToken::Strictfp)
    } else if w == "super"@ {
        Some(RawToken::Super)
    } else if w == "switch"@ {
        Some(RawToken::Switch)
    } else if w == "synchronized"@ {
        Some(RawToken::Synchronized)
    } else if w == "this"@ {
        Some(RawToken::This)
    } else if w == "throw"@ {
        Some(RawToken::Throw)
    } else if w == "throws"@ {
        Some(RawToken::Throws)
    } else if w == "transient"@ {
        Some(RawToken::Transient)
    } else if w == "try"@ {
        Some(RawToken::Try)
    } else if w == "void"@ {
        Some(RawToken::Void)
    } else if w == "volatile"@ {
        Some(RawToken::Volatile)
    } else if w == "while"@ {
        Some(RawToken::While)
    } else if w == "yield"@ {
        Some(RawToken::Yield)
    } else if w == "record"@ {
        Some(RawToken::Record)
    } else if w == "sealed"@ {
        Some(RawToken::Sealed)
    } else if w == "permits"@ {
        Some(RawToken::Permits)
    } else if w == "var"@ {
        Some(RawToken::Var)
    } else if w == "true"@ {
        Some(RawToken::True)
    } else if w == "false"@ {
        Some(RawToken::False)
    } else if w == "null"@ {
        Some(RawToken::Null)
    } else if w == "_"@ {
        Some(RawToken::Underscore)
    } else {
        None
    }
}

fn keyword_exec(w: &str) -> (r: Option<RawToken>)
    ensures
        r == keyword(w@),
{
    if str_eq(w, "abstract") {
        Some(RawToken::Abstract)
    } else if str_eq(w, "assert") {
        Some(RawToken::Assert)
    } else if str_eq(w, "boolean") {
        Some(RawToken::Boolean)
    } else if str_eq(w, "break") {
        Some(RawToken::Break)
    } else if str_eq(w, "byte") {
        Some(RawToken::Byte)
    } else if str_eq(w, "case") {
        Some(RawToken::Case)
    } else if str_eq(w, "catch") {
        Some(RawToken::Catch)
    } else if str_eq(w, "char") {
        Some(RawToken::Char)
    } else if str_eq(w, "class") {
        Some(RawToken::Class)
    } else if str_eq(w, "continue") {
        Some(RawToken::Continue)
    } else if str_eq(w, "default") {
        Some(RawToken::Default)
    } else if str_eq(w, "do") {
        Some(RawToken::Do)
    } else if str_eq(w, "double") {
        Some(RawToken::Double)
    } else if str_eq(w, "else") {
        Some(RawToken::Else)
    } else if str_eq(w, "enum") {
        Some(RawToken::Enum)
    } else if str_eq(w, "extends") {
        Some(RawToken::Extends)
    } else if str_eq(w, "final") {
        Some(RawToken::Final)
    } else if str_eq(w, "finally") {
        Some(RawToken::Finally)
    } else if str_eq(w, "float") {
        Some(RawToken::Float)
    } else if str_eq(w, "for") {
        Some(RawToken::For)
    } else if str_eq(w, "if") {
        Some(RawToken::If)
    } else if str_eq(w, "implements") {
        Some(RawToken::Implements)
    } else if str_eq(w, "import") {
        Some(RawToken::Import)
    } else if str_eq(w, "instanceof") {
        Some(RawToken::Instanceof)
    } else if str_eq(w, "int") {
        Some(RawToken::Int)
    } else if str_eq(w, "interface") {
        Some(RawToken::Interface)
    } else if str_eq(w, "long") {
        Some(RawToken::Long)
    } else if str_eq(w, "native") {
        Some(RawToken::Native)
    } else if str_eq(w, "new") {
        Some(RawToken::New)
    } else if str_eq(w, "package") {
        Some(RawToken::Package)
    } else if str_eq(w, "private") {
        Some(RawToken::Private)
    } else if str_eq(w, "protected") {
        Some(RawToken::Protected)
    } else if str_eq(w, "public") {
        Some(RawToken::Public)
    } else if str_eq(w, "return") {
        Some(RawToken::Return)
    } else if str_eq(w, "short") {
        Some(RawToken::Short)
    } else if str_eq(w, "static") {
        Some(RawToken::Static)
    } else if str_eq(w, "strictfp") {
        Some(RawToken::Strictfp)
    } else if str_eq(w, "super") {
        Some(RawToken::Super)
    } else if str_eq(w, "switch") {
        Some(RawToken::Switch)
    } else if str_eq(w, "synchronized") {
        Some(RawToken::Synchronized)
    } else if str_eq(w, "this") {
        Some(RawToken::This)
    } else if str_eq(w, "throw") {
        Some(RawToken::Throw)
    } else if str_eq(w, "throws") {
        Some(RawToken::Throws)
    } else if str_eq(w, "transient") {
        Some(RawToken::Transient)
    } else if str_eq(w, "try") {
        Some(RawToken::Try)
    } else if str_eq(w, "void") {
        Some(RawToken::Void)
    } else if str_eq(w, "volatile") {
        Some(RawToken::Volatile)
    } else if str_eq(w, "while") {
        Some(RawToken::While)
    } else if str_eq(w, "yield") {
        Some(RawToken::Yield)
    } else if str_eq(w, "record") {
        Some(RawToken::Record)
    } else if str_eq(w, "sealed") {
        Some(RawToken::Sealed)
    } else if str_eq(w, "permits") {
        Some(RawToken::Permits)
    } else if str_eq(w, "var") {
        Some(RawToken::Var)
    } else if str_eq(w, "true") {
        Some(RawToken::True)
    } else if str_eq(w, "false") {
        Some(RawToken::False)
    } else if str_eq(w, "null") {
        Some(RawToken::Null)
    } else if str_eq(w, "_") {
        Some(RawToken::Underscore)
    } else {
        None
    }
}

} // verus!
