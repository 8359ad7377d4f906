//! The kinds of tokens and syntax nodes of Java source.
use vstd::prelude::*;

verus! {

/// A token or syntax-node kind.
#[derive(Debug, Clone, Copy, PartialEq, Eq, Hash, Structural)]
pub enum SyntaxKind {
    AbstractKw,
    AssertKw,
    BooleanKw,
    BreakKw,
    ByteKw,
    CaseKw,
    CatchKw,
    CharKw,
    ClassKw,
    ContinueKw,
    DefaultKw,
    DoKw,
    DoubleKw,
    ElseKw,
    EnumKw,
    ExtendsKw,
    FinalKw,
    FinallyKw,
    FloatKw,
    ForKw,
    IfKw,
    ImplementsKw,
    ImportKw,
    InstanceofKw,
    IntKw,
    InterfaceKw,
    LongKw,
    NativeKw,
    NewKw,
    PackageKw,
    PrivateKw,
    ProtectedKw,
    PublicKw,
    ReturnKw,
    ShortKw,
    StaticKw,
    StrictfpKw,
    SuperKw,
    SwitchKw,
    SynchronizedKw,
    ThisKw,
    ThrowKw,
    ThrowsKw,
    TransientKw,
    TryKw,
    VoidKw,
    VolatileKw,
    WhileKw,
    YieldKw,
    RecordKw,
    SealedKw,
    NonSealedKw,
    PermitsKw,
    VarKw,
    IntLiteral,
    LongLiteral,
    FloatLiteral,
    CharLiteral,
    StringLiteral,
    TextBlockLiteral,
    TrueKw,
    FalseKw,
    NullKw,
    Ident,
    LBrace,
    RBrace,
    LBrack,
    RBrack,
    LParen,
    RParen,
    Semi,
    Comma,
    Dot,
    Ellipsis,
    At,
    ColonColon,
    Arrow,
    Eq,
    Gt,
    Lt,
    Bang,
    Tilde,
    Question,
    Colon,
    EqEq,
    Le,
    Ge,
    Neq,
    Inc,
    Dec,
    AmpAmp,
    PipePipe,
    Plus,
    Minus,
    Star,
    Slash,
    Amp,
    Pipe,
    Caret,
    Percent,
    LtLt,
    GtGt,
    GtGtGt,
    PlusEq,
    MinusEq,
    StarEq,
    SlashEq,
    AmpEq,
    PipeEq,
    CaretEq,
    PercentEq,
    LtLtEq,
    GtGtEq,
    GtGtGtEq,
    Underscore,
    DoubleLiteral,
    Whitespace,
    Comment,
    Error,
    CompilationUnit,
    PackageDecl,
    ImportDecl,
    ModifierList,
    ClassDecl,
    InterfaceDecl,
    EnumDecl,
    RecordDecl,
    AnnotationDecl,
    PermitsClause,
    ClassBody,
    EnumBody,
    EnumConstantList,
    EnumConstant,
    RecordComponentList,
    RecordComponent,
    InstanceInit,
    StaticInit,
    ConstructorDecl,
    MethodBody,
    MethodDecl,
    FieldDecl,
    VarDeclaratorList,
    VarDeclarator,
    FormalParamList,
    ReceiverParam,
    FormalParam,
    ThrowsClause,
    ExceptionTypeList,
    Type,
    PrimitiveType,
    ClassType,
    ClassTypeSegment,
    TypeArgList,
    WildcardType,
    TypeParamList,
    TypeParam,
    TypeBound,
    QualifiedName,
    Annotation,
    Block,
    EmptyStmt,
    IfStmt,
    ForStmt,
    ForEach,
    ForInit,
    WhileStmt,
    DoStmt,
    SwitchStmt,
    SwitchBlock,
    SwitchLabel,
    SwitchRule,
    TryStmt,
    TryWithResources,
    Resource,
    FinallyClause,
    CatchClause,
    ReturnStmt,
    ThrowStmt,
    BreakStmt,
    ContinueStmt,
    SynchronizedStmt,
    AssertStmt,
    YieldStmt,
    LocalVarDecl,
    ExprStmt,
    CastExpr,
    Literal,
    ThisExpr,
    SuperExpr,
    ParenExpr,
    Name,
    MemberSelect,
    NewExpr,
    ArrayInit,
}

/// The number that stands for a kind in the syntax tree.
pub open spec fn kind_number(k: SyntaxKind) -> u16 {
    match k {
        SyntaxKind::AbstractKw => 0,
        SyntaxKind::AssertKw => 1,
        SyntaxKind::BooleanKw => 2,
        SyntaxKind::BreakKw => 3,
        SyntaxKind::ByteKw => 4,
        SyntaxKind::CaseKw => 5,
        SyntaxKind::CatchKw => 6,
        SyntaxKind::CharKw => 7,
        SyntaxKind::ClassKw => 8,
        SyntaxKind::ContinueKw => 9,
        SyntaxKind::DefaultKw => 10,
        SyntaxKind::DoKw => 11,
        SyntaxKind::DoubleKw => 12,
        SyntaxKind::ElseKw => 13,
        SyntaxKind::EnumKw => 14,
        SyntaxKind::ExtendsKw => 15,
        SyntaxKind::FinalKw => 16,
        SyntaxKind::FinallyKw => 17,
        SyntaxKind::FloatKw => 18,
        SyntaxKind::ForKw => 19,
        SyntaxKind::IfKw => 20,
        SyntaxKind::ImplementsKw => 21,
        SyntaxKind::ImportKw => 22,
        SyntaxKind::InstanceofKw => 23,
        SyntaxKind::IntKw => 24,
        SyntaxKind::InterfaceKw => 25,
        SyntaxKind::LongKw => 26,
        SyntaxKind::NativeKw => 27,
        SyntaxKind::NewKw => 28,
        SyntaxKind::PackageKw => 29,
        SyntaxKind::PrivateKw => 30,
        SyntaxKind::ProtectedKw => 31,
        SyntaxKind::PublicKw => 32,
        SyntaxKind::ReturnKw => 33,
        SyntaxKind::ShortKw => 34,
        SyntaxKind::StaticKw => 35,
        SyntaxKind::StrictfpKw => 36,
        SyntaxKind::SuperKw => 37,
        SyntaxKind::SwitchKw => 38,
        SyntaxKind::SynchronizedKw => 39,
        SyntaxKind::ThisKw => 40,
        SyntaxKind::ThrowKw => 41,
        SyntaxKind::ThrowsKw => 42,
        SyntaxKind::TransientKw => 43,
        SyntaxKind::TryKw => 44,
        SyntaxKind::VoidKw => 45,
        SyntaxKind::VolatileKw => 46,
        SyntaxKind::WhileKw => 47,
        SyntaxKind::YieldKw => 48,
        SyntaxKind::RecordKw => 49,
        SyntaxKind::SealedKw => 50,
        SyntaxKind::NonSealedKw => 51,
        SyntaxKind::PermitsKw => 52,
        SyntaxKind::VarKw => 53,
        SyntaxKind::IntLiteral => 54,
        SyntaxKind::LongLiteral => 55,
        SyntaxKind::FloatLiteral => 56,
        SyntaxKind::CharLiteral => 57,
        SyntaxKind::StringLiteral => 58,
        SyntaxKind::TextBlockLiteral => 59,
        SyntaxKind::TrueKw => 60,
        SyntaxKind::FalseKw => 61,
        SyntaxKind::NullKw => 62,
        SyntaxKind::Ident => 63,
        SyntaxKind::LBrace => 64,
        SyntaxKind::RBrace => 65,
        SyntaxKind::LBrack => 66,
        SyntaxKind::RBrack => 67,
        SyntaxKind::LParen => 68,
        SyntaxKind::RParen => 69,
        SyntaxKind::Semi => 70,
        SyntaxKind::Comma => 71,
        SyntaxKind::Dot => 72,
        SyntaxKind::Ellipsis => 73,
        SyntaxKind::At => 74,
        SyntaxKind::ColonColon => 75,
        SyntaxKind::Arrow => 76,
        SyntaxKind::Eq => 77,
        SyntaxKind::Gt => 78,
        SyntaxKind::Lt => 79,
        SyntaxKind::Bang => 80,
        SyntaxKind::Tilde => 81,
        SyntaxKind::Question => 82,
        SyntaxKind::Colon => 83,
        SyntaxKind::EqEq => 84,
        SyntaxKind::Le => 85,
        SyntaxKind::Ge => 86,
        SyntaxKind::Neq => 87,
        SyntaxKind::Inc => 88,
        SyntaxKind::Dec => 89,
        SyntaxKind::AmpAmp => 90,
        SyntaxKind::PipePipe => 91,
        SyntaxKind::Plus => 92,
        SyntaxKind::Minus => 93,
        SyntaxKind::Star => 94,
        SyntaxKind::Slash => 95,
        SyntaxKind::Amp => 96,
        SyntaxKind::Pipe => 97,
        SyntaxKind::Caret => 98,
        SyntaxKind::Percent => 99,
        SyntaxKind::LtLt => 100,
        SyntaxKind::GtGt => 101,
        SyntaxKind::GtGtGt => 102,
        SyntaxKind::PlusEq => 103,
        SyntaxKind::MinusEq => 104,
        SyntaxKind::StarEq => 105,
        SyntaxKind::SlashEq => 106,
        SyntaxKind::AmpEq => 107,
        SyntaxKind::PipeEq => 108,
        SyntaxKind::CaretEq => 109,
        SyntaxKind::PercentEq => 110,
        SyntaxKind::LtLtEq => 111,
        SyntaxKind::GtGtEq => 112,
        SyntaxKind::GtGtGtEq => 113,
        SyntaxKind::Underscore => 114,
        SyntaxKind::DoubleLiteral => 115,
        SyntaxKind::Whitespace => 116,
        SyntaxKind::Comment => 117,
        SyntaxKind::Error => 118,
        SyntaxKind::CompilationUnit => 119,
        SyntaxKind::PackageDecl => 120,
        SyntaxKind::ImportDecl => 121,
        SyntaxKind::ModifierList => 122,
        SyntaxKind::ClassDecl => 123,
        SyntaxKind::InterfaceDecl => 124,
        SyntaxKind::EnumDecl => 125,
        SyntaxKind::RecordDecl => 126,
        SyntaxKind::AnnotationDecl => 127,
        SyntaxKind::PermitsClause => 128,
        SyntaxKind::ClassBody => 129,
        SyntaxKind::EnumBody => 130,
        SyntaxKind::EnumConstantList => 131,
        SyntaxKind::EnumConstant => 132,
        SyntaxKind::RecordComponentList => 133,
        SyntaxKind::RecordComponent => 134,
        SyntaxKind::InstanceInit => 135,
        SyntaxKind::StaticInit => 136,
        SyntaxKind::ConstructorDecl => 137,
        SyntaxKind::MethodBody => 138,
        SyntaxKind::MethodDecl => 139,
        SyntaxKind::FieldDecl => 140,
        SyntaxKind::VarDeclaratorList => 141,
        SyntaxKind::VarDeclarator => 142,
        SyntaxKind::FormalParamList => 143,
        SyntaxKind::ReceiverParam => 144,
        SyntaxKind::FormalParam => 145,
        SyntaxKind::ThrowsClause => 146,
        SyntaxKind::ExceptionTypeList => 147,
        SyntaxKind::Type => 148,
        SyntaxKind::PrimitiveType => 149,
        SyntaxKind::ClassType => 150,
        SyntaxKind::ClassTypeSegment => 151,
        SyntaxKind::TypeArgList => 152,
        SyntaxKind::WildcardType => 153,
        SyntaxKind::TypeParamList => 154,
        SyntaxKind::TypeParam => 155,
        SyntaxKind::TypeBound => 156,
        SyntaxKind::QualifiedName => 157,
        SyntaxKind::Annotation => 158,
        SyntaxKind::Block => 159,
        SyntaxKind::EmptyStmt => 160,
        SyntaxKind::IfStmt => 161,
        SyntaxKind::ForStmt => 162,
        SyntaxKind::ForEach => 163,
        SyntaxKind::ForInit => 164,
        SyntaxKind::WhileStmt => 165,
        SyntaxKind::DoStmt => 166,
        SyntaxKind::SwitchStmt => 167,
        SyntaxKind::SwitchBlock => 168,
        SyntaxKind::SwitchLabel => 169,
        SyntaxKind::SwitchRule => 170,
        SyntaxKind::TryStmt => 171,
        SyntaxKind::TryWithResources => 172,
        SyntaxKind::Resource => 173,
        SyntaxKind::FinallyClause => 174,
        SyntaxKind::CatchClause => 175,
        SyntaxKind::ReturnStmt => 176,
        SyntaxKind::ThrowStmt => 177,
        SyntaxKind::BreakStmt => 178,
        SyntaxKind::ContinueStmt => 179,
        SyntaxKind::SynchronizedStmt => 180,
        SyntaxKind::AssertStmt => 181,
        SyntaxKind::YieldStmt => 182,
        SyntaxKind::LocalVarDecl => 183,
        SyntaxKind::ExprStmt => 184,
        SyntaxKind::CastExpr => 185,
        SyntaxKind::Literal => 186,
        SyntaxKind::ThisExpr => 187,
        SyntaxKind::SuperExpr => 188,
        SyntaxKind::ParenExpr => 189,
        SyntaxKind::Name => 190,
        SyntaxKind::MemberSelect => 191,
        SyntaxKind::NewExpr => 192,
        SyntaxKind::ArrayInit => 193,
    }
}

impl SyntaxKind {
    /// The number that stands for this kind in the syntax tree.
    pub fn raw(self) -> (r: u16)
        ensures
            r == kind_number(self),
    {
        match self {
            SyntaxKind::AbstractKw => 0,
            SyntaxKind::AssertKw => 1,
            SyntaxKind::BooleanKw => 2,
            SyntaxKind::BreakKw => 3,
            SyntaxKind::ByteKw => 4,
            SyntaxKind::CaseKw => 5,
            SyntaxKind::CatchKw => 6,
            SyntaxKind::CharKw => 7,
            SyntaxKind::ClassKw => 8,
            SyntaxKind::ContinueKw => 9,
            SyntaxKind::DefaultKw => 10,
            SyntaxKind::DoKw => 11,
            SyntaxKind::DoubleKw => 12,
            SyntaxKind::ElseKw => 13,
            SyntaxKind::EnumKw => 14,
            SyntaxKind::ExtendsKw => 15,
            SyntaxKind::FinalKw => 16,
            SyntaxKind::FinallyKw => 17,
            SyntaxKind::FloatKw => 18,
            SyntaxKind::ForKw => 19,
            SyntaxKind::IfKw => 20,
            SyntaxKind::ImplementsKw => 21,
            SyntaxKind::ImportKw => 22,
            SyntaxKind::InstanceofKw => 23,
            SyntaxKind::IntKw => 24,
            SyntaxKind::InterfaceKw => 25,
            SyntaxKind::LongKw => 26,
            SyntaxKind::NativeKw => 27,
            SyntaxKind::NewKw => 28,
            SyntaxKind::PackageKw => 29,
            SyntaxKind::PrivateKw => 30,
            SyntaxKind::ProtectedKw => 31,
            SyntaxKind::PublicKw => 32,
            SyntaxKind::ReturnKw => 33,
            SyntaxKind::ShortKw => 34,
            SyntaxKind::StaticKw => 35,
            SyntaxKind::StrictfpKw => 36,
            SyntaxKind::SuperKw => 37,
            SyntaxKind::SwitchKw => 38,
            SyntaxKind::SynchronizedKw => 39,
            SyntaxKind::ThisKw => 40,
            SyntaxKind::ThrowKw => 41,
            SyntaxKind::ThrowsKw => 42,
            SyntaxKind::TransientKw => 43,
            SyntaxKind::TryKw => 44,
            SyntaxKind::VoidKw => 45,
            SyntaxKind::VolatileKw => 46,
            SyntaxKind::WhileKw => 47,
            SyntaxKind::YieldKw => 48,
            SyntaxKind::RecordKw => 49,
            SyntaxKind::SealedKw => 50,
            SyntaxKind::NonSealedKw => 51,
            SyntaxKind::PermitsKw => 52,
            SyntaxKind::VarKw => 53,
            SyntaxKind::IntLiteral => 54,
            SyntaxKind::LongLiteral => 55,
            SyntaxKind::FloatLiteral => 56,
            SyntaxKind::CharLiteral => 57,
            SyntaxKind::StringLiteral => 58,
            SyntaxKind::TextBlockLiteral => 59,
            SyntaxKind::TrueKw => 60,
            SyntaxKind::FalseKw => 61,
            SyntaxKind::NullKw => 62,
            SyntaxKind::Ident => 63,
            SyntaxKind::LBrace => 64,
            SyntaxKind::RBrace => 65,
            SyntaxKind::LBrack => 66,
            SyntaxKind::RBrack => 67,
            SyntaxKind::LParen => 68,
            SyntaxKind::RParen => 69,
            SyntaxKind::Semi => 70,
            SyntaxKind::Comma => 71,
            SyntaxKind::Dot => 72,
            SyntaxKind::Ellipsis => 73,
            SyntaxKind::At => 74,
            SyntaxKind::ColonColon => 75,
            SyntaxKind::Arrow => 76,
            SyntaxKind::Eq => 77,
            SyntaxKind::Gt => 78,
            SyntaxKind::Lt => 79,
            SyntaxKind::Bang => 80,
            SyntaxKind::Tilde => 81,
            SyntaxKind::Question => 82,
            SyntaxKind::Colon => 83,
            SyntaxKind::EqEq => 84,
            SyntaxKind::Le => 85,
            SyntaxKind::Ge => 86,
            SyntaxKind::Neq => 87,
            SyntaxKind::Inc => 88,
            SyntaxKind::Dec => 89,
            SyntaxKind::AmpAmp => 90,
            SyntaxKind::PipePipe => 91,
            SyntaxKind::Plus => 92,
            SyntaxKind::Minus => 93,
            SyntaxKind::Star => 94,
            SyntaxKind::Slash => 95,
            SyntaxKind::Amp => 96,
            SyntaxKind::Pipe => 97,
            SyntaxKind::Caret => 98,
            SyntaxKind::Percent => 99,
            SyntaxKind::LtLt => 100,
            SyntaxKind::GtGt => 101,
            SyntaxKind::GtGtGt => 102,
            SyntaxKind::PlusEq => 103,
            SyntaxKind::MinusEq => 104,
            SyntaxKind::StarEq => 105,
            SyntaxKind::SlashEq => 106,
            SyntaxKind::AmpEq => 107,
            SyntaxKind::PipeEq => 108,
            SyntaxKind::CaretEq => 109,
            SyntaxKind::PercentEq => 110,
            SyntaxKind::LtLtEq => 111,
            SyntaxKind::GtGtEq => 112,
            SyntaxKind::GtGtGtEq => 113,
            SyntaxKind::Underscore => 114,
            SyntaxKind::DoubleLiteral => 115,
            SyntaxKind::Whitespace => 116,
            SyntaxKind::Comment => 117,
            SyntaxKind::Error => 118,
            SyntaxKind::CompilationUnit => 119,
            SyntaxKind::PackageDecl => 120,
            SyntaxKind::ImportDecl => 121,
            SyntaxKind::ModifierList => 122,
            SyntaxKind::ClassDecl => 123,
            SyntaxKind::InterfaceDecl => 124,
            SyntaxKind::EnumDecl => 125,
            SyntaxKind::RecordDecl => 126,
            SyntaxKind::AnnotationDecl => 127,
            SyntaxKind::PermitsClause => 128,
            SyntaxKind::ClassBody => 129,
            SyntaxKind::EnumBody => 130,
            SyntaxKind::EnumConstantList => 131,
            SyntaxKind::EnumConstant => 132,
            SyntaxKind::RecordComponentList => 133,
            SyntaxKind::RecordComponent => 134,
            SyntaxKind::InstanceInit => 135,
            SyntaxKind::StaticInit => 136,
            SyntaxKind::ConstructorDecl => 137,
            SyntaxKind::MethodBody => 138,
            SyntaxKind::MethodDecl => 139,
            SyntaxKind::FieldDecl => 140,
            SyntaxKind::VarDeclaratorList => 141,
            SyntaxKind::VarDeclarator => 142,
            SyntaxKind::FormalParamList => 143,
            SyntaxKind::ReceiverParam => 144,
            SyntaxKind::FormalParam => 145,
            SyntaxKind::ThrowsClause => 146,
            SyntaxKind::ExceptionTypeList => 147,
            SyntaxKind::Type => 148,
            SyntaxKind::PrimitiveType => 149,
            SyntaxKind::ClassType => 150,
            SyntaxKind::ClassTypeSegment => 151,
            SyntaxKind::TypeArgList => 152,
            SyntaxKind::WildcardType => 153,
            SyntaxKind::TypeParamList => 154,
            SyntaxKind::TypeParam => 155,
            SyntaxKind::TypeBound => 156,
            SyntaxKind::QualifiedName => 157,
            SyntaxKind::Annotation => 158,
            SyntaxKind::Block => 159,
            SyntaxKind::EmptyStmt => 160,
            SyntaxKind::IfStmt => 161,
            SyntaxKind::ForStmt => 162,
            SyntaxKind::ForEach => 163,
            SyntaxKind::ForInit => 164,
            SyntaxKind::WhileStmt => 165,
            SyntaxKind::DoStmt => 166,
            SyntaxKind::SwitchStmt => 167,
            SyntaxKind::SwitchBlock => 168,
            SyntaxKind::SwitchLabel => 169,
            SyntaxKind::SwitchRule => 170,
            SyntaxKind::TryStmt => 171,
            SyntaxKind::TryWithResources => 172,
            SyntaxKind::Resource => 173,
            SyntaxKind::FinallyClause => 174,
            SyntaxKind::CatchClause => 175,
            SyntaxKind::ReturnStmt => 176,
            SyntaxKind::ThrowStmt => 177,
            SyntaxKind::BreakStmt => 178,
            SyntaxKind::ContinueStmt => 179,
            SyntaxKind::SynchronizedStmt => 180,
            SyntaxKind::AssertStmt => 181,
            SyntaxKind::YieldStmt => 182,
            SyntaxKind::LocalVarDecl => 183,
            SyntaxKind::ExprStmt => 184,
            SyntaxKind::CastExpr => 185,
            SyntaxKind::Literal => 186,
            SyntaxKind::ThisExpr => 187,
            SyntaxKind::SuperExpr => 188,
            SyntaxKind::ParenExpr => 189,
            SyntaxKind::Name => 190,
            SyntaxKind::MemberSelect => 191,
            SyntaxKind::NewExpr => 192,
            SyntaxKind::ArrayInit => 193,
        }
    }

    /// The kind's name, as diagnostics print it.
    pub fn name(self) -> (r: &'static str)
        ensures
            r@ == kind_name(self),
    {
        match self {
            SyntaxKind::AbstractKw => "AbstractKw",
            SyntaxKind::AssertKw => "AssertKw",
            SyntaxKind::BooleanKw => "BooleanKw",
            SyntaxKind::BreakKw => "BreakKw",
            SyntaxKind::ByteKw => "ByteKw",
            SyntaxKind::CaseKw => "CaseKw",
            SyntaxKind::CatchKw => "CatchKw",
            SyntaxKind::CharKw => "CharKw",
            SyntaxKind::ClassKw => "ClassKw",
            SyntaxKind::ContinueKw => "ContinueKw",
            SyntaxKind::DefaultKw => "DefaultKw",
            SyntaxKind::DoKw => "DoKw",
            SyntaxKind::DoubleKw => "DoubleKw",
            SyntaxKind::ElseKw => "ElseKw",
            SyntaxKind::EnumKw => "EnumKw",
            SyntaxKind::ExtendsKw => "ExtendsKw",
            SyntaxKind::FinalKw => "FinalKw",
            SyntaxKind::FinallyKw => "FinallyKw",
            SyntaxKind::FloatKw => "FloatKw",
            SyntaxKind::ForKw => "ForKw",
            SyntaxKind::IfKw => "IfKw",
            SyntaxKind::ImplementsKw => "ImplementsKw",
            SyntaxKind::ImportKw => "ImportKw",
            SyntaxKind::InstanceofKw => "InstanceofKw",
            SyntaxKind::IntKw => "IntKw",
            SyntaxKind::InterfaceKw => "InterfaceKw",
            SyntaxKind::LongKw => "LongKw",
            SyntaxKind::NativeKw => "NativeKw",
            SyntaxKind::NewKw => "NewKw",
            SyntaxKind::PackageKw => "PackageKw",
            SyntaxKind::PrivateKw => "PrivateKw",
            SyntaxKind::ProtectedKw => "ProtectedKw",
            SyntaxKind::PublicKw => "PublicKw",
            SyntaxKind::ReturnKw => "ReturnKw",
            SyntaxKind::ShortKw => "ShortKw",
            SyntaxKind::StaticKw => "StaticKw",
            SyntaxKind::StrictfpKw => "StrictfpKw",
            SyntaxKind::SuperKw => "SuperKw",
            SyntaxKind::SwitchKw => "SwitchKw",
            SyntaxKind::SynchronizedKw => "SynchronizedKw",
            SyntaxKind::ThisKw => "ThisKw",
            SyntaxKind::ThrowKw => "ThrowKw",
            SyntaxKind::ThrowsKw => "ThrowsKw",
            SyntaxKind::TransientKw => "TransientKw",
            SyntaxKind::TryKw => "TryKw",
            SyntaxKind::VoidKw => "VoidKw",
            SyntaxKind::VolatileKw => "VolatileKw",
            SyntaxKind::WhileKw => "WhileKw",
            SyntaxKind::YieldKw => "YieldKw",
            SyntaxKind::RecordKw => "RecordKw",
            SyntaxKind::SealedKw => "SealedKw",
            SyntaxKind::NonSealedKw => "NonSealedKw",
            SyntaxKind::PermitsKw => "PermitsKw",
            SyntaxKind::VarKw => "VarKw",
            SyntaxKind::IntLiteral => "IntLiteral",
            SyntaxKind::LongLiteral => "LongLiteral",
            SyntaxKind::FloatLiteral => "FloatLiteral",
            SyntaxKind::CharLiteral => "CharLiteral",
            SyntaxKind::StringLiteral => "StringLiteral",
            SyntaxKind::TextBlockLiteral => "TextBlockLiteral",
            SyntaxKind::TrueKw => "TrueKw",
            SyntaxKind::FalseKw => "FalseKw",
            SyntaxKind::NullKw => "NullKw",
            SyntaxKind::Ident => "Ident",
            SyntaxKind::LBrace => "LBrace",
            SyntaxKind::RBrace => "RBrace",
            SyntaxKind::LBrack => "LBrack",
            SyntaxKind::RBrack => "RBrack",
            SyntaxKind::LParen => "LParen",
            SyntaxKind::RParen => "RParen",
            SyntaxKind::Semi => "Semi",
            SyntaxKind::Comma => "Comma",
            SyntaxKind::Dot => "Dot",
            SyntaxKind::Ellipsis => "Ellipsis",
            SyntaxKind::At => "At",
            SyntaxKind::ColonColon => "ColonColon",
            SyntaxKind::Arrow => "Arrow",
            SyntaxKind::Eq => "Eq",
            SyntaxKind::Gt => "Gt",
            SyntaxKind::Lt => "Lt",
            SyntaxKind::Bang => "Bang",
            SyntaxKind::Tilde => "Tilde",
            SyntaxKind::Question => "Question",
            SyntaxKind::Colon => "Colon",
            SyntaxKind::EqEq => "EqEq",
            SyntaxKind::Le => "Le",
            SyntaxKind::Ge => "Ge",
            SyntaxKind::Neq => "Neq",
            SyntaxKind::Inc => "Inc",
            SyntaxKind::Dec => "Dec",
            SyntaxKind::AmpAmp => "AmpAmp",
            SyntaxKind::PipePipe => "PipePipe",
            SyntaxKind::Plus => "Plus",
            SyntaxKind::Minus => "Minus",
            SyntaxKind::Star => "Star",
            SyntaxKind::Slash => "Slash",
            SyntaxKind::Amp => "Amp",
            SyntaxKind::Pipe => "Pipe",
            SyntaxKind::Caret => "Caret",
            SyntaxKind::Percent => "Percent",
            SyntaxKind::LtLt => "LtLt",
            SyntaxKind::GtGt => "GtGt",
            SyntaxKind::GtGtGt => "GtGtGt",
            SyntaxKind::PlusEq => "PlusEq",
            SyntaxKind::MinusEq => "MinusEq",
            SyntaxKind::StarEq => "StarEq",
            SyntaxKind::SlashEq => "SlashEq",
            SyntaxKind::AmpEq => "AmpEq",
            SyntaxKind::PipeEq => "PipeEq",
            SyntaxKind::CaretEq => "CaretEq",
            SyntaxKind::PercentEq => "PercentEq",
            SyntaxKind::LtLtEq => "LtLtEq",
            SyntaxKind::GtGtEq => "GtGtEq",
            SyntaxKind::GtGtGtEq => "GtGtGtEq",
            SyntaxKind::Underscore => "Underscore",
            SyntaxKind::DoubleLiteral => "DoubleLiteral",
            SyntaxKind::Whitespace => "Whitespace",
            SyntaxKind::Comment => "Comment",
            SyntaxKind::Error => "Error",
            SyntaxKind::CompilationUnit => "CompilationUnit",
            SyntaxKind::PackageDecl => "PackageDecl",
            SyntaxKind::ImportDecl => "ImportDecl",
            SyntaxKind::ModifierList => "ModifierList",
            SyntaxKind::ClassDecl => "ClassDecl",
            SyntaxKind::InterfaceDecl => "InterfaceDecl",
            SyntaxKind::EnumDecl => "EnumDecl",
            SyntaxKind::RecordDecl => "RecordDecl",
            SyntaxKind::AnnotationDecl => "AnnotationDecl",
            SyntaxKind::PermitsClause => "PermitsClause",
            SyntaxKind::ClassBody => "ClassBody",
            SyntaxKind::EnumBody => "EnumBody",
            SyntaxKind::EnumConstantList => "EnumConstantList",
            SyntaxKind::EnumConstant => "EnumConstant",
            SyntaxKind::RecordComponentList => "RecordComponentList",
            SyntaxKind::RecordComponent => "RecordComponent",
            SyntaxKind::InstanceInit => "InstanceInit",
            SyntaxKind::StaticInit => "StaticInit",
            SyntaxKind::ConstructorDecl => "ConstructorDecl",
            SyntaxKind::MethodBody => "MethodBody",
            SyntaxKind::MethodDecl => "MethodDecl",
            SyntaxKind::FieldDecl => "FieldDecl",
            SyntaxKind::VarDeclaratorList => "VarDeclaratorList",
            SyntaxKind::VarDeclarator => "VarDeclarator",
            SyntaxKind::FormalParamList => "FormalParamList",
            SyntaxKind::ReceiverParam => "ReceiverParam",
            SyntaxKind::FormalParam => "FormalParam",
            SyntaxKind::ThrowsClause => "ThrowsClause",
            SyntaxKind::ExceptionTypeList => "ExceptionTypeList",
            SyntaxKind::Type => "Type",
            SyntaxKind::PrimitiveType => "PrimitiveType",
            SyntaxKind::ClassType => "ClassType",
            SyntaxKind::ClassTypeSegment => "ClassTypeSegment",
            SyntaxKind::TypeArgList => "TypeArgList",
            SyntaxKind::WildcardType => "WildcardType",
            SyntaxKind::TypeParamList => "TypeParamList",
            SyntaxKind::TypeParam => "TypeParam",
            SyntaxKind::TypeBound => "TypeBound",
            SyntaxKind::QualifiedName => "QualifiedName",
            SyntaxKind::Annotation => "Annotation",
            SyntaxKind::Block => "Block",
            SyntaxKind::EmptyStmt => "EmptyStmt",
            SyntaxKind::IfStmt => "IfStmt",
            SyntaxKind::ForStmt => "ForStmt",
            SyntaxKind::ForEach => "ForEach",
            SyntaxKind::ForInit => "ForInit",
            SyntaxKind::WhileStmt => "WhileStmt",
            SyntaxKind::DoStmt => "DoStmt",
            SyntaxKind::SwitchStmt => "SwitchStmt",
            SyntaxKind::SwitchBlock => "SwitchBlock",
            SyntaxKind::SwitchLabel => "SwitchLabel",
            SyntaxKind::SwitchRule => "SwitchRule",
            SyntaxKind::TryStmt => "TryStmt",
            SyntaxKind::TryWithResources => "TryWithResources",
            SyntaxKind::Resource => "Resource",
            SyntaxKind::FinallyClause => "FinallyClause",
            SyntaxKind::CatchClause => "CatchClause",
            SyntaxKind::ReturnStmt => "ReturnStmt",
            SyntaxKind::ThrowStmt => "ThrowStmt",
            SyntaxKind::BreakStmt => "BreakStmt",
            SyntaxKind::ContinueStmt => "ContinueStmt",
            SyntaxKind::SynchronizedStmt => "SynchronizedStmt",
            SyntaxKind::AssertStmt => "AssertStmt",
            SyntaxKind::YieldStmt => "YieldStmt",
            SyntaxKind::LocalVarDecl => "LocalVarDecl",
            SyntaxKind::ExprStmt => "ExprStmt",
            SyntaxKind::CastExpr => "CastExpr",
            SyntaxKind::Literal => "Literal",
            SyntaxKind::ThisExpr => "ThisExpr",
            SyntaxKind::SuperExpr => "SuperExpr",
            SyntaxKind::ParenExpr => "ParenExpr",
            SyntaxKind::Name => "Name",
            SyntaxKind::MemberSelect => "MemberSelect",
            SyntaxKind::NewExpr => "NewExpr",
            SyntaxKind::ArrayInit => "ArrayInit",
        }
    }

    /// Whitespace and comments.
    pub fn is_trivia(self) -> (r: bool)
        ensures
            r == (self == SyntaxKind::Whitespace || self == SyntaxKind::Comment),
    {
        match self {
            SyntaxKind::Whitespace | SyntaxKind::Comment => true,
            _ => false,
        }
    }
}

/// The kind's name, as diagnostics print it.
pub open spec fn kind_name(k: SyntaxKind) -> Seq<char> {
    match k {
        SyntaxKind::AbstractKw => "AbstractKw"@,
        SyntaxKind::AssertKw => "AssertKw"@,
        SyntaxKind::BooleanKw => "BooleanKw"@,
        SyntaxKind::BreakKw => "BreakKw"@,
        SyntaxKind::ByteKw => "ByteKw"@,
        SyntaxKind::CaseKw => "CaseKw"@,
        SyntaxKind::CatchKw => "CatchKw"@,
        SyntaxKind::CharKw => "CharKw"@,
        SyntaxKind::ClassKw => "ClassKw"@,
        SyntaxKind::ContinueKw => "ContinueKw"@,
        SyntaxKind::DefaultKw => "DefaultKw"@,
        SyntaxKind::DoKw => "DoKw"@,
        SyntaxKind::DoubleKw => "DoubleKw"@,
        SyntaxKind::ElseKw => "ElseKw"@,
        SyntaxKind::EnumKw => "EnumKw"@,
        SyntaxKind::ExtendsKw => "ExtendsKw"@,
        SyntaxKind::FinalKw => "FinalKw"@,
        SyntaxKind::FinallyKw => "FinallyKw"@,
        SyntaxKind::FloatKw => "FloatKw"@,
        SyntaxKind::ForKw => "ForKw"@,
        SyntaxKind::IfKw => "IfKw"@,
        SyntaxKind::ImplementsKw => "ImplementsKw"@,
        SyntaxKind::ImportKw => "ImportKw"@,
        SyntaxKind::InstanceofKw => "InstanceofKw"@,
        SyntaxKind::IntKw => "IntKw"@,
        SyntaxKind::InterfaceKw => "InterfaceKw"@,
        SyntaxKind::LongKw => "LongKw"@,
        SyntaxKind::NativeKw => "NativeKw"@,
        SyntaxKind::NewKw => "NewKw"@,
        SyntaxKind::PackageKw => "PackageKw"@,
        SyntaxKind::PrivateKw => "PrivateKw"@,
        SyntaxKind::ProtectedKw => "ProtectedKw"@,
        SyntaxKind::PublicKw => "PublicKw"@,
        SyntaxKind::ReturnKw => "ReturnKw"@,
        SyntaxKind::ShortKw => "ShortKw"@,
        SyntaxKind::StaticKw => "StaticKw"@,
        SyntaxKind::StrictfpKw => "StrictfpKw"@,
        SyntaxKind::SuperKw => "SuperKw"@,
        SyntaxKind::SwitchKw => "SwitchKw"@,
        SyntaxKind::SynchronizedKw => "SynchronizedKw"@,
        SyntaxKind::ThisKw => "ThisKw"@,
        SyntaxKind::ThrowKw => "ThrowKw"@,
        SyntaxKind::ThrowsKw => "ThrowsKw"@,
        SyntaxKind::TransientKw => "TransientKw"@,
        SyntaxKind::TryKw => "TryKw"@,
        SyntaxKind::VoidKw => "VoidKw"@,
        SyntaxKind::VolatileKw => "VolatileKw"@,
        SyntaxKind::WhileKw => "WhileKw"@,
        SyntaxKind::YieldKw => "YieldKw"@,
        SyntaxKind::RecordKw => "RecordKw"@,
        SyntaxKind::SealedKw => "SealedKw"@,
        SyntaxKind::NonSealedKw => "NonSealedKw"@,
        SyntaxKind::PermitsKw => "PermitsKw"@,
        SyntaxKind::VarKw => "VarKw"@,
        SyntaxKind::IntLiteral => "IntLiteral"@,
        SyntaxKind::LongLiteral => "LongLiteral"@,
        SyntaxKind::FloatLiteral => "FloatLiteral"@,
        SyntaxKind::CharLiteral => "CharLiteral"@,
        SyntaxKind::StringLiteral => "StringLiteral"@,
        SyntaxKind::TextBlockLiteral => "TextBlockLiteral"@,
        SyntaxKind::TrueKw => "TrueKw"@,
        SyntaxKind::FalseKw => "FalseKw"@,
        SyntaxKind::NullKw => "NullKw"@,
        SyntaxKind::Ident => "Ident"@,
        SyntaxKind::LBrace => "LBrace"@,
        SyntaxKind::RBrace => "RBrace"@,
        SyntaxKind::LBrack => "LBrack"@,
        SyntaxKind::RBrack => "RBrack"@,
        SyntaxKind::LParen => "LParen"@,
        SyntaxKind::RParen => "RParen"@,
        SyntaxKind::Semi => "Semi"@,
        SyntaxKind::Comma => "Comma"@,
        SyntaxKind::Dot => "Dot"@,
        SyntaxKind::Ellipsis => "Ellipsis"@,
        SyntaxKind::At => "At"@,
        SyntaxKind::ColonColon => "ColonColon"@,
        SyntaxKind::Arrow => "Arrow"@,
        SyntaxKind::Eq => "Eq"@,
        SyntaxKind::Gt => "Gt"@,
        SyntaxKind::Lt => "Lt"@,
        SyntaxKind::Bang => "Bang"@,
        SyntaxKind::Tilde => "Tilde"@,
        SyntaxKind::Question => "Question"@,
        SyntaxKind::Colon => "Colon"@,
        SyntaxKind::EqEq => "EqEq"@,
        SyntaxKind::Le => "Le"@,
        SyntaxKind::Ge => "Ge"@,
        SyntaxKind::Neq => "Neq"@,
        SyntaxKind::Inc => "Inc"@,
        SyntaxKind::Dec => "Dec"@,
        SyntaxKind::AmpAmp => "AmpAmp"@,
        SyntaxKind::PipePipe => "PipePipe"@,
        SyntaxKind::Plus => "Plus"@,
        SyntaxKind::Minus => "Minus"@,
        SyntaxKind::Star => "Star"@,
        SyntaxKind::Slash => "Slash"@,
        SyntaxKind::Amp => "Amp"@,
        SyntaxKind::Pipe => "Pipe"@,
        SyntaxKind::Caret => "Caret"@,
        SyntaxKind::Percent => "Percent"@,
        SyntaxKind::LtLt => "LtLt"@,
        SyntaxKind::GtGt => "GtGt"@,
        SyntaxKind::GtGtGt => "GtGtGt"@,
        SyntaxKind::PlusEq => "PlusEq"@,
        SyntaxKind::MinusEq => "MinusEq"@,
        SyntaxKind::StarEq => "StarEq"@,
        SyntaxKind::SlashEq => "SlashEq"@,
        SyntaxKind::AmpEq => "AmpEq"@,
        SyntaxKind::PipeEq => "PipeEq"@,
        SyntaxKind::CaretEq => "CaretEq"@,
        SyntaxKind::PercentEq => "PercentEq"@,
        SyntaxKind::LtLtEq => "LtLtEq"@,
        SyntaxKind::GtGtEq => "GtGtEq"@,
        SyntaxKind::GtGtGtEq => "GtGtGtEq"@,
        SyntaxKind::Underscore => "Underscore"@,
        SyntaxKind::DoubleLiteral => "DoubleLiteral"@,
        SyntaxKind::Whitespace => "Whitespace"@,
        SyntaxKind::Comment => "Comment"@,
        SyntaxKind::Error => "Error"@,
        SyntaxKind::CompilationUnit => "CompilationUnit"@,
        SyntaxKind::PackageDecl => "PackageDecl"@,
        SyntaxKind::ImportDecl => "ImportDecl"@,
        SyntaxKind::ModifierList => "ModifierList"@,
        SyntaxKind::ClassDecl => "ClassDecl"@,
        SyntaxKind::InterfaceDecl => "InterfaceDecl"@,
        SyntaxKind::EnumDecl => "EnumDecl"@,
        SyntaxKind::RecordDecl => "RecordDecl"@,
        SyntaxKind::AnnotationDecl => "AnnotationDecl"@,
        SyntaxKind::PermitsClause => "PermitsClause"@,
        SyntaxKind::ClassBody => "ClassBody"@,
        SyntaxKind::EnumBody => "EnumBody"@,
        SyntaxKind::EnumConstantList => "EnumConstantList"@,
        SyntaxKind::EnumConstant => "EnumConstant"@,
        SyntaxKind::RecordComponentList => "RecordComponentList"@,
        SyntaxKind::RecordComponent => "RecordComponent"@,
        SyntaxKind::InstanceInit => "InstanceInit"@,
        SyntaxKind::StaticInit => "StaticInit"@,
        SyntaxKind::ConstructorDecl => "ConstructorDecl"@,
        SyntaxKind::MethodBody => "MethodBody"@,
        SyntaxKind::MethodDecl => "MethodDecl"@,
        SyntaxKind::FieldDecl => "FieldDecl"@,
        SyntaxKind::VarDeclaratorList => "VarDeclaratorList"@,
        SyntaxKind::VarDeclarator => "VarDeclarator"@,
        SyntaxKind::FormalParamList => "FormalParamList"@,
        SyntaxKind::ReceiverParam => "ReceiverParam"@,
        SyntaxKind::FormalParam => "FormalParam"@,
        SyntaxKind::ThrowsClause => "ThrowsClause"@,
        SyntaxKind::ExceptionTypeList => "ExceptionTypeList"@,
        SyntaxKind::Type => "Type"@,
        SyntaxKind::PrimitiveType => "PrimitiveType"@,
        SyntaxKind::ClassType => "ClassType"@,
        SyntaxKind::ClassTypeSegment => "ClassTypeSegment"@,
        SyntaxKind::TypeArgList => "TypeArgList"@,
        SyntaxKind::WildcardType => "WildcardType"@,
        SyntaxKind::TypeParamList => "TypeParamList"@,
        SyntaxKind::TypeParam => "TypeParam"@,
        SyntaxKind::TypeBound => "TypeBound"@,
        SyntaxKind::QualifiedName => "QualifiedName"@,
        SyntaxKind::Annotation => "Annotation"@,
        SyntaxKind::Block => "Block"@,
        SyntaxKind::EmptyStmt => "EmptyStmt"@,
        SyntaxKind::IfStmt => "IfStmt"@,
        SyntaxKind::ForStmt => "ForStmt"@,
        SyntaxKind::ForEach => "ForEach"@,
        SyntaxKind::ForInit => "ForInit"@,
        SyntaxKind::WhileStmt => "WhileStmt"@,
        SyntaxKind::DoStmt => "DoStmt"@,
        SyntaxKind::SwitchStmt => "SwitchStmt"@,
        SyntaxKind::SwitchBlock => "SwitchBlock"@,
        SyntaxKind::SwitchLabel => "SwitchLabel"@,
        SyntaxKind::SwitchRule => "SwitchRule"@,
        SyntaxKind::TryStmt => "TryStmt"@,
        SyntaxKind::TryWithResources => "TryWithResources"@,
        SyntaxKind::Resource => "Resource"@,
        SyntaxKind::FinallyClause => "FinallyClause"@,
        SyntaxKind::CatchClause => "CatchClause"@,
        SyntaxKind::ReturnStmt => "ReturnStmt"@,
        SyntaxKind::ThrowStmt => "ThrowStmt"@,
        SyntaxKind::BreakStmt => "BreakStmt"@,
        SyntaxKind::ContinueStmt => "ContinueStmt"@,
        SyntaxKind::SynchronizedStmt => "SynchronizedStmt"@,
        SyntaxKind::AssertStmt => "AssertStmt"@,
        SyntaxKind::YieldStmt => "YieldStmt"@,
        SyntaxKind::LocalVarDecl => "LocalVarDecl"@,
        SyntaxKind::ExprStmt => "ExprStmt"@,
        SyntaxKind::CastExpr => "CastExpr"@,
        SyntaxKind::Literal => "Literal"@,
        SyntaxKind::ThisExpr => "ThisExpr"@,
        SyntaxKind::SuperExpr => "SuperExpr"@,
        SyntaxKind::ParenExpr => "ParenExpr"@,
        SyntaxKind::Name => "Name"@,
        SyntaxKind::MemberSelect => "MemberSelect"@,
        SyntaxKind::NewExpr => "NewExpr"@,
        SyntaxKind::ArrayInit => "ArrayInit"@,
    }
}

/// Distinct kinds have distinct numbers.
pub proof fn law_kind_number_injective(a: SyntaxKind, b: SyntaxKind)
    requires
        kind_number(a) == kind_number(b),
    ensures
        a == b,
{
}


/// How the Java language spells an operator or separator (JLS 3.11, 3.12);
/// empty for the other kinds.
pub open spec fn operator_spelling(k: SyntaxKind) -> Seq<char> {
    match k {
        SyntaxKind::GtGtGtEq => seq!['>', '>', '>', '='],
        SyntaxKind::GtGtGt => seq!['>', '>', '>'],
        SyntaxKind::GtGtEq => seq!['>', '>', '='],
        SyntaxKind::LtLtEq => seq!['<', '<', '='],
        SyntaxKind::Ellipsis => seq!['.', '.', '.'],
        SyntaxKind::ColonColon => seq![':', ':'],
        SyntaxKind::Arrow => seq!['-', '>'],
        SyntaxKind::EqEq => seq!['=', '='],
        SyntaxKind::Le => seq!['<', '='],
        SyntaxKind::Ge => seq!['>', '='],
        SyntaxKind::Neq => seq!['!', '='],
        SyntaxKind::Inc => seq!['+', '+'],
        SyntaxKind::Dec => seq!['-', '-'],
        SyntaxKind::AmpAmp => seq!['&', '&'],
        SyntaxKind::PipePipe => seq!['|', '|'],
        SyntaxKind::PlusEq => seq!['+', '='],
        SyntaxKind::MinusEq => seq!['-', '='],
        SyntaxKind::StarEq => seq!['*', '='],
        SyntaxKind::SlashEq => seq!['/', '='],
        SyntaxKind::AmpEq => seq!['&', '='],
        SyntaxKind::PipeEq => seq!['|', '='],
        SyntaxKind::CaretEq => seq!['^', '='],
        SyntaxKind::PercentEq => seq!['%', '='],
        SyntaxKind::LtLt => seq!['<', '<'],
        SyntaxKind::GtGt => seq!['>', '>'],
        SyntaxKind::LBrace => seq!['{'],
        SyntaxKind::RBrace => seq!['}'],
        SyntaxKind::LBrack => seq!['['],
        SyntaxKind::RBrack => seq![']'],
        SyntaxKind::LParen => seq!['('],
        SyntaxKind::RParen => seq![')'],
        SyntaxKind::Semi => seq![';'],
        SyntaxKind::Comma => seq![','],
        SyntaxKind::Dot => seq!['.'],
        SyntaxKind::At => seq!['@'],
        SyntaxKind::Eq => seq!['='],
        SyntaxKind::Gt => seq!['>'],
        SyntaxKind::Lt => seq!['<'],
        SyntaxKind::Bang => seq!['!'],
        SyntaxKind::Tilde => seq!['~'],
        SyntaxKind::Question => seq!['?'],
        SyntaxKind::Colon => seq![':'],
        SyntaxKind::Plus => seq!['+'],
        SyntaxKind::Minus => seq!['-'],
        SyntaxKind::Star => seq!['*'],
        SyntaxKind::Slash => seq!['/'],
        SyntaxKind::Amp => seq!['&'],
        SyntaxKind::Pipe => seq!['|'],
        SyntaxKind::Caret => seq!['^'],
        SyntaxKind::Percent => seq!['%'],
        _ => Seq::empty(),
    }
}


/// How the Java language spells a keyword or literal word (JLS 3.9, 3.10);
/// empty for the other kinds.
pub open spec fn word_spelling(k: SyntaxKind) -> Seq<char> {
    match k {
        SyntaxKind::AbstractKw => "abstract"@,
        SyntaxKind::AssertKw => "assert"@,
        SyntaxKind::BooleanKw => "boolean"@,
        SyntaxKind::BreakKw => "break"@,
        SyntaxKind::ByteKw => "byte"@,
        SyntaxKind::CaseKw => "case"@,
        SyntaxKind::CatchKw => "catch"@,
        SyntaxKind::CharKw => "char"@,
        SyntaxKind::ClassKw => "class"@,
        SyntaxKind::ContinueKw => "continue"@,
        SyntaxKind::DefaultKw => "default"@,
        SyntaxKind::DoKw => "do"@,
        SyntaxKind::DoubleKw => "double"@,
        SyntaxKind::ElseKw => "else"@,
        SyntaxKind::EnumKw => "enum"@,
        SyntaxKind::ExtendsKw => "extends"@,
        SyntaxKind::FinalKw => "final"@,
        SyntaxKind::FinallyKw => "finally"@,
        SyntaxKind::FloatKw => "float"@,
        SyntaxKind::ForKw => "for"@,
        SyntaxKind::IfKw => "if"@,
        SyntaxKind::ImplementsKw => "implements"@,
        SyntaxKind::ImportKw => "import"@,
        SyntaxKind::InstanceofKw => "instanceof"@,
        SyntaxKind::IntKw => "int"@,
        SyntaxKind::InterfaceKw => "interface"@,
        SyntaxKind::LongKw => "long"@,
        SyntaxKind::NativeKw => "native"@,
        SyntaxKind::NewKw => "new"@,
        SyntaxKind::PackageKw => "package"@,
        SyntaxKind::PrivateKw => "private"@,
        SyntaxKind::ProtectedKw => "protected"@,
        SyntaxKind::PublicKw => "public"@,
        SyntaxKind::ReturnKw => "return"@,
        SyntaxKind::ShortKw => "short"@,
        SyntaxKind::StaticKw => "static"@,
        SyntaxKind::StrictfpKw => "strictfp"@,
        SyntaxKind::SuperKw => "super"@,
        SyntaxKind::SwitchKw => "switch"@,
        SyntaxKind::SynchronizedKw => "synchronized"@,
        SyntaxKind::ThisKw => "this"@,
        SyntaxKind::ThrowKw => "throw"@,
        SyntaxKind::ThrowsKw => "throws"@,
        SyntaxKind::TransientKw => "transient"@,
        SyntaxKind::TryKw => "try"@,
        SyntaxKind::VoidKw => "void"@,
        SyntaxKind::VolatileKw => "volatile"@,
        SyntaxKind::WhileKw => "while"@,
        SyntaxKind::YieldKw => "yield"@,
        SyntaxKind::RecordKw => "record"@,
        SyntaxKind::SealedKw => "sealed"@,
        SyntaxKind::PermitsKw => "permits"@,
        SyntaxKind::VarKw => "var"@,
        SyntaxKind::TrueKw => "true"@,
        SyntaxKind::FalseKw => "false"@,
        SyntaxKind::NullKw => "null"@,
        SyntaxKind::Underscore => "_"@,
        _ => Seq::empty(),
    }
}

} // verus!
