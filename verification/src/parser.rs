//! The recursive-descent parser: tokens to a lossless tree of syntax nodes.
use vstd::prelude::*;
use crate::lexer::{byte_len, lemma_lex_from_ordered, lex_from, token_matches, Lexer};
use crate::syntax::{kind_number, SyntaxKind};
use crate::text::string_of;
use crate::green::{
    builder_finish, builder_finish_node, builder_log, builder_new, builder_start_node, builder_token,
    green_node_text, green_text, log_depth, log_text,
};

verus! {

/// One step in building the tree: open a node, add a token, or close the open node.
#[derive(Debug, Clone)]
pub enum Event {
    Start(SyntaxKind),
    Token(SyntaxKind, String),
    Finish,
}

/// How many nodes are open after the events.
pub open spec fn depth(evs: Seq<Event>) -> int
    decreases evs.len(),
{
    if evs.len() == 0 {
        0
    } else {
        depth(evs.drop_last()) + match evs.last() {
            Event::Start(_) => 1int,
            Event::Finish => -1int,
            Event::Token(_, _) => 0int,
        }
    }
}

pub proof fn lemma_depth_bound(evs: Seq<Event>)
    ensures
        depth(evs) <= evs.len(),
    decreases evs.len(),
{
    if evs.len() > 0 {
        lemma_depth_bound(evs.drop_last());
    }
}

/// The text of the tokens among the events, in order.
pub open spec fn event_text(evs: Seq<Event>) -> Seq<char>
    decreases evs.len(),
{
    if evs.len() == 0 {
        Seq::empty()
    } else {
        event_text(evs.drop_last()) + match evs.last() {
            Event::Token(_, t) => t@,
            _ => Seq::empty(),
        }
    }
}

/// The events describe one root node that holds everything else.
pub open spec fn single_root(evs: Seq<Event>) -> bool {
    &&& evs.len() >= 2
    &&& evs[0] is Start
    &&& evs.last() is Finish
    &&& depth(evs) == 0
    &&& forall|k: int| 1 <= k < evs.len() ==> depth(#[trigger] evs.take(k)) >= 1
}

/// A parse error: what was wrong, and the byte offset of the token where it was found.
#[derive(Debug, Clone)]
pub struct ParseError {
    pub message: String,
    pub offset: usize,
}

/// A token as the parser reads it: kind, text, byte offset, and its range of characters.
#[derive(Debug, Clone)]
pub struct Token {
    pub kind: SyntaxKind,
    pub text: String,
    pub offset: usize,
    pub start: usize,
    pub end: usize,
}

/// The tokens lie in order over `src`, each covering its text.
pub open spec fn tokens_ok(src: Seq<char>, toks: Seq<Token>) -> bool {
    &&& forall|k: int|
        0 <= k < toks.len() ==> (#[trigger] toks[k]).start < toks[k].end <= src.len()
            && toks[k].text@ == src.subrange(toks[k].start as int, toks[k].end as int)
    &&& forall|k: int| 0 <= k < toks.len() - 1 ==> (#[trigger] toks[k]).end <= toks[k + 1].start
}

proof fn lemma_tokens_ok(s: Seq<char>, toks: Seq<Token>, all: Seq<(SyntaxKind, int, int)>)
    requires
        toks.len() == all.len(),
        forall|k: int|
            0 <= k < toks.len() ==> (#[trigger] toks[k]).start == all[k].1 && toks[k].end == all[k].2
                && toks[k].kind == all[k].0,
        forall|k: int| 0 <= k < toks.len() ==> (#[trigger] toks[k]).text@ == s.subrange(all[k].1, all[k].2),
        forall|k: int| 0 <= k < all.len() ==> 0 <= (#[trigger] all[k]).1 < all[k].2 <= s.len(),
        forall|k: int| 0 <= k < all.len() - 1 ==> (#[trigger] all[k]).2 <= all[k + 1].1,
    ensures
        tokens_ok(s, toks),
{
    assert forall|k: int| 0 <= k < toks.len() implies (#[trigger] toks[k]).start < toks[k].end <= s.len()
        && toks[k].text@ == s.subrange(toks[k].start as int, toks[k].end as int) by {
        assert(0 <= all[k].1 < all[k].2 <= s.len());
    }
    assert forall|k: int| 0 <= k < toks.len() - 1 implies (#[trigger] toks[k]).end <= toks[k + 1].start by {
        assert(all[k].2 <= all[k + 1].1);
        assert(toks[k + 1].start == all[k + 1].1);
    }
}

/// The end of the text consumed once `pos` tokens are consumed.
pub open spec fn consumed_end(toks: Seq<Token>, pos: int) -> int {
    if pos <= 0 {
        0
    } else {
        toks[pos - 1].end as int
    }
}

/// The parser's state: the source, its tokens, the position, and the tree built so far.
pub struct Parser {
    src: Vec<char>,
    tokens: Vec<Token>,
    pos: usize,
    trivia_end: usize,
    open: usize,
    events: Vec<Event>,
    errors: Vec<ParseError>,
}

/// The result of parsing: the tree as events, its lossless green node, and the errors.
pub struct Parse {
    pub green_node: rowan::GreenNode,
    pub events: Vec<Event>,
    pub errors: Vec<ParseError>,
    /// The number of source characters up to the end of the last token that the
    /// grammar consumed; the tokens after it stand in the root node as they are.
    pub consumed: usize,
}

impl Parser {
    pub closed spec fn source(&self) -> Seq<char> {
        self.src@
    }

    pub closed spec fn token_seq(&self) -> Seq<Token> {
        self.tokens@
    }

    pub closed spec fn position(&self) -> int {
        self.pos as int
    }

    pub closed spec fn event_seq(&self) -> Seq<Event> {
        self.events@
    }

    pub closed spec fn open_nodes(&self) -> int {
        self.open as int
    }

    /// The errors recorded so far.
    pub closed spec fn error_seq(&self) -> Seq<ParseError> {
        self.errors@
    }

    /// The parser's invariant, while inside the root node.
    #[verifier::opaque]
    pub closed spec fn inv(&self) -> bool {
        &&& tokens_ok(self.src@, self.tokens@)
        &&& self.pos <= self.tokens@.len()
        &&& self.trivia_end == consumed_end(self.tokens@, self.pos as int)
        &&& event_text(self.events@) == self.src@.take(self.trivia_end as int)
        &&& self.events@.len() >= 1
        &&& self.events@[0] == Event::Start(SyntaxKind::CompilationUnit)
        &&& self.open as int == depth(self.events@)
        &&& self.open >= 1
        &&& forall|k: int| 1 <= k <= self.events@.len() ==> depth(#[trigger] self.events@.take(k)) >= 1
    }

    /// The invariant, with the position inside the tokens.
    pub open spec fn ready(&self) -> bool {
        &&& self.inv()
        &&& self.position() <= self.token_seq().len()
    }

    /// What every grammar function keeps: the invariant, the input, the open nodes,
    /// a position that never moves back, and the events so far, which are only
    /// added to.
    pub open spec fn kept(&self, old: &Parser) -> bool {
        &&& self.ready()
        &&& self.source() == old.source()
        &&& self.token_seq() == old.token_seq()
        &&& self.position() >= old.position()
        &&& self.open_nodes() == old.open_nodes()
        &&& self.extends(old)
    }

    /// The kind of the current token, or `Error` past the end.
    pub open spec fn cur(&self) -> SyntaxKind {
        self.kind_at(self.position())
    }

    /// The kind of token `i`, or `Error` outside the tokens.
    pub open spec fn kind_at(&self, i: int) -> SyntaxKind {
        if 0 <= i < self.token_seq().len() {
            self.token_seq()[i].kind
        } else {
            SyntaxKind::Error
        }
    }

    /// The events are those of `old`, followed by more.
    pub open spec fn extends(&self, old: &Parser) -> bool {
        &&& old.event_seq().len() <= self.event_seq().len()
        &&& forall|i: int|
            0 <= i < old.event_seq().len() ==> #[trigger] self.event_seq()[i] == old.event_seq()[i]
    }

    /// Nothing was added and nothing consumed.
    pub open spec fn stopped(&self, old: &Parser) -> bool {
        &&& self.event_seq() == old.event_seq()
        &&& self.position() == old.position()
    }

    /// The first event added opens a node of kind `k`.
    pub open spec fn opened(&self, old: &Parser, k: SyntaxKind) -> bool {
        &&& self.event_seq().len() > old.event_seq().len()
        &&& self.event_seq()[old.event_seq().len() as int] == Event::Start(k)
    }

    /// The events added open a node of kind `k` and end by closing a node.
    pub open spec fn added_node(&self, old: &Parser, k: SyntaxKind) -> bool {
        &&& self.opened(old, k)
        &&& self.event_seq().len() >= old.event_seq().len() + 2
        &&& self.event_seq().last() == Event::Finish
    }

    /// Past the `[]` pairs from token `i`.
    pub open spec fn dims_end(&self, i: int) -> int
        decreases self.token_seq().len() - i,
    {
        if 0 <= i && i + 1 < self.token_seq().len() && self.kind_at(i) == SyntaxKind::LBrack
            && self.kind_at(i + 1) == SyntaxKind::RBrack {
            self.dims_end(i + 2)
        } else {
            i
        }
    }

    /// Scanning from token `j` with `depth` runs open: just past the `close` that
    /// brings the depth back to zero, or the end of the tokens.
    pub open spec fn balanced_end(&self, j: int, depth: int, open: SyntaxKind, close: SyntaxKind) -> int
        decreases self.token_seq().len() - j,
    {
        if j < 0 || j >= self.token_seq().len() {
            j
        } else if self.kind_at(j) == open {
            self.balanced_end(j + 1, if depth < self.token_seq().len() { depth + 1 } else { depth }, open, close)
        } else if self.kind_at(j) == close {
            let d = if depth > 0 { depth - 1 } else { 0 };
            if d == 0 {
                j + 1
            } else {
                self.balanced_end(j + 1, d, open, close)
            }
        } else {
            self.balanced_end(j + 1, depth, open, close)
        }
    }

    pub proof fn lemma_balanced_end(&self, j: int, depth: int, open: SyntaxKind, close: SyntaxKind)
        requires
            0 <= j,
        ensures
            j <= self.balanced_end(j, depth, open, close),
            j < self.token_seq().len() ==> j < self.balanced_end(j, depth, open, close),
            self.balanced_end(j, depth, open, close) <= self.token_seq().len() || j > self.token_seq().len(),
        decreases self.token_seq().len() - j,
    {
        if j < self.token_seq().len() {
            self.lemma_balanced_end(j + 1, if depth < self.token_seq().len() { depth + 1 } else { depth }, open, close);
            self.lemma_balanced_end(j + 1, if depth > 0 { depth - 1 } else { 0 }, open, close);
            self.lemma_balanced_end(j + 1, depth, open, close);
        }
    }

    /// Past a type name with its type arguments, from token `j`.
    pub open spec fn type_name_end(&self, j: int) -> int
        decreases self.token_seq().len() - j,
    {
        if 0 <= j < self.token_seq().len() && self.kind_at(j) == SyntaxKind::Ident {
            let j1 = j + 1;
            let j2 = if j1 < self.token_seq().len() && self.kind_at(j1) == SyntaxKind::Lt {
                self.balanced_end(j1, 0, SyntaxKind::Lt, SyntaxKind::Gt)
            } else {
                j1
            };
            proof {
                self.lemma_balanced_end(j1, 0, SyntaxKind::Lt, SyntaxKind::Gt);
            }
            if j2 < self.token_seq().len() && self.kind_at(j2) == SyntaxKind::Dot {
                self.type_name_end(j2 + 1)
            } else {
                j2
            }
        } else {
            j
        }
    }

    /// Past the annotations (`@Name` with its arguments) from token `i`.
    pub open spec fn annotations_end(&self, i: int) -> int
        decreases self.token_seq().len() - i,
    {
        if 0 <= i < self.token_seq().len() && self.kind_at(i) == SyntaxKind::At {
            let a = i + 1;
            let b = if a < self.token_seq().len() && self.kind_at(a) == SyntaxKind::Ident {
                a + 1
            } else {
                a
            };
            let c = if b < self.token_seq().len() && self.kind_at(b) == SyntaxKind::LParen {
                self.balanced_end(b, 0, SyntaxKind::LParen, SyntaxKind::RParen)
            } else {
                b
            };
            proof {
                self.lemma_balanced_end(b, 0, SyntaxKind::LParen, SyntaxKind::RParen);
            }
            self.annotations_end(c)
        } else {
            i
        }
    }

    /// A method is ahead: annotations, a return type with dimensions, a name
    /// (with dimensions) and `(`.
    pub open spec fn method_ahead(&self) -> bool {
        let n = self.token_seq().len();
        let i1 = self.annotations_end(self.position());
        let i2 = if i1 < n && primitive_or_void_kind(self.kind_at(i1)) {
            i1 + 1
        } else {
            self.type_name_end(i1)
        };
        let i3 = self.dims_end(i2);
        let i4 = if i3 < n && self.kind_at(i3) == SyntaxKind::Ident {
            self.dims_end(i3 + 1)
        } else {
            i3
        };
        self.position() <= n && i4 < n && self.kind_at(i4) == SyntaxKind::LParen
    }

    /// Scanning a `for` header from token `i` with `depth` parentheses open:
    /// whether a `:` comes at the top level before the closing `)`.
    pub open spec fn foreach_scan(&self, i: int, depth: int) -> bool
        decreases self.token_seq().len() - i,
    {
        if i < 0 || i >= self.token_seq().len() {
            false
        } else if self.kind_at(i) == SyntaxKind::LParen {
            self.foreach_scan(i + 1, if depth < self.token_seq().len() { depth + 1 } else { depth })
        } else if self.kind_at(i) == SyntaxKind::RParen {
            if depth - 1 == 0 {
                false
            } else {
                self.foreach_scan(i + 1, depth - 1)
            }
        } else if self.kind_at(i) == SyntaxKind::Colon && depth == 1 {
            true
        } else {
            self.foreach_scan(i + 1, depth)
        }
    }

    /// A `for` header of the enhanced form is ahead.
    pub open spec fn foreach_ahead(&self) -> bool {
        self.position() <= self.token_seq().len() && self.foreach_scan(self.position(), 1)
    }

    /// A cast is ahead: `(`, a primitive type or a type name, dimensions, `)`.
    pub open spec fn cast_ahead(&self) -> bool {
        let n = self.token_seq().len();
        let p = self.position();
        let i = p + 1;
        if !(0 <= p < n && self.kind_at(p) == SyntaxKind::LParen) {
            false
        } else if i < n && primitive_kind(self.kind_at(i)) {
            let e = self.dims_end(i + 1);
            e < n && self.kind_at(e) == SyntaxKind::RParen
        } else if i < n && self.kind_at(i) == SyntaxKind::Ident {
            let e = self.dims_end(self.type_name_end(i));
            e < n && self.kind_at(e) == SyntaxKind::RParen
        } else {
            false
        }
    }

    /// A local variable declaration is ahead: a primitive type or `var`, or a
    /// type name with dimensions followed by a name.
    pub open spec fn local_decl_ahead(&self) -> bool {
        let k = self.cur();
        if primitive_or_void_kind(k) || k == SyntaxKind::VarKw {
            true
        } else if k != SyntaxKind::Ident {
            false
        } else {
            let e = self.dims_end(self.type_name_end(self.position()));
            e < self.token_seq().len() && self.kind_at(e) == SyntaxKind::Ident
        }
    }

    /// A constructor is ahead: a name followed by `(` or `{`.
    pub open spec fn constructor_ahead(&self) -> bool {
        self.cur() == SyntaxKind::Ident && (self.kind_at(self.position() + 1) == SyntaxKind::LParen
            || self.kind_at(self.position() + 1) == SyntaxKind::LBrace)
    }

    /// The node a class member opens first.
    pub open spec fn member_start(&self) -> SyntaxKind {
        if self.cur() == SyntaxKind::LBrace {
            SyntaxKind::InstanceInit
        } else if self.cur() == SyntaxKind::StaticKw && self.kind_at(self.position() + 1) == SyntaxKind::LBrace {
            SyntaxKind::StaticInit
        } else {
            SyntaxKind::ModifierList
        }
    }

    /// The node a statement makes, chosen by its first token.
    pub open spec fn stmt_kind(&self) -> SyntaxKind {
        match self.cur() {
            SyntaxKind::LBrace => SyntaxKind::Block,
            SyntaxKind::IfKw => SyntaxKind::IfStmt,
            SyntaxKind::ForKw => SyntaxKind::ForStmt,
            SyntaxKind::WhileKw => SyntaxKind::WhileStmt,
            SyntaxKind::DoKw => SyntaxKind::DoStmt,
            SyntaxKind::SwitchKw => SyntaxKind::SwitchStmt,
            SyntaxKind::TryKw => SyntaxKind::TryStmt,
            SyntaxKind::ReturnKw => SyntaxKind::ReturnStmt,
            SyntaxKind::ThrowKw => SyntaxKind::ThrowStmt,
            SyntaxKind::BreakKw => SyntaxKind::BreakStmt,
            SyntaxKind::ContinueKw => SyntaxKind::ContinueStmt,
            SyntaxKind::SynchronizedKw => SyntaxKind::SynchronizedStmt,
            SyntaxKind::AssertKw => SyntaxKind::AssertStmt,
            SyntaxKind::YieldKw => SyntaxKind::YieldStmt,
            SyntaxKind::Semi => SyntaxKind::EmptyStmt,
            _ => if self.local_decl_ahead() {
                SyntaxKind::LocalVarDecl
            } else {
                SyntaxKind::ExprStmt
            },
        }
    }

    /// The node an operand opens first, where it opens one: a cast, or a primary
    /// expression chosen by its first token.
    pub open spec fn operand_start(&self) -> Option<SyntaxKind> {
        if self.cur() == SyntaxKind::LParen && self.cast_ahead() {
            Some(SyntaxKind::CastExpr)
        } else {
            primary_node(self.cur())
        }
    }

    /// Pushing a token keeps every prefix inside the root, keeps the depth, and
    /// extends the text by the token's text.
    proof fn lemma_push_token(evs: Seq<Event>, kind: SyntaxKind, t: String)
        requires
            evs.len() >= 1,
            forall|k: int| 1 <= k <= evs.len() ==> depth(#[trigger] evs.take(k)) >= 1,
        ensures
            forall|k: int|
                1 <= k <= evs.push(Event::Token(kind, t)).len() ==> depth(
                    #[trigger] evs.push(Event::Token(kind, t)).take(k),
                ) >= 1,
            depth(evs.push(Event::Token(kind, t))) == depth(evs),
            event_text(evs.push(Event::Token(kind, t))) == event_text(evs) + t@,
            evs.push(Event::Token(kind, t))[0] == evs[0],
    {
        let e = Event::Token(kind, t);
        Self::lemma_push_depth(evs, e);
        assert(evs.take(evs.len() as int) =~= evs);
        assert forall|k: int| 1 <= k <= evs.push(e).len() implies depth(#[trigger] evs.push(e).take(k)) >= 1 by {
            if k <= evs.len() {
                assert(evs.push(e).take(k) == evs.take(k));
            } else {
                assert(evs.push(e).take(k) == evs.push(e));
            }
        }
    }

    proof fn lemma_push_depth(evs: Seq<Event>, e: Event)
        ensures
            forall|k: int| 0 <= k <= evs.len() ==> #[trigger] evs.push(e).take(k) == evs.take(k),
            evs.push(e).take(evs.len() + 1int) == evs.push(e),
            evs.push(e).drop_last() == evs,
            evs.push(e).last() == e,
    {
        assert forall|k: int| 0 <= k <= evs.len() implies #[trigger] evs.push(e).take(k) == evs.take(k) by {
            assert(evs.push(e).take(k) =~= evs.take(k));
        }
        assert(evs.push(e).take(evs.len() + 1int) =~= evs.push(e));
        assert(evs.push(e).drop_last() =~= evs);
    }

    /// The kind of the current token, or `Error` past the end.
    fn kind(&self) -> (r: SyntaxKind)
        ensures
            r == (if self.position() < self.token_seq().len() {
                self.token_seq()[self.position()].kind
            } else {
                SyntaxKind::Error
            }),
    {
        if self.pos < self.tokens.len() {
            self.tokens[self.pos].kind
        } else {
            SyntaxKind::Error
        }
    }

    /// The kind of the token `ahead` places on, or `Error` past the end.
    fn look(&self, ahead: usize) -> (r: SyntaxKind)
        ensures
            r == (if self.position() + ahead < self.token_seq().len() {
                self.token_seq()[self.position() + ahead].kind
            } else {
                SyntaxKind::Error
            }),
    {
        if self.pos < self.tokens.len() && ahead < self.tokens.len() - self.pos {
            self.tokens[self.pos + ahead].kind
        } else {
            SyntaxKind::Error
        }
    }

    fn at(&self, k: SyntaxKind) -> (r: bool)
        ensures
            r == ((if self.position() < self.token_seq().len() {
                self.token_seq()[self.position()].kind
            } else {
                SyntaxKind::Error
            }) == k),
    {
        self.kind() == k
    }

    fn token_kind_at(&self, i: usize) -> (r: SyntaxKind)
        ensures
            r == (if i < self.token_seq().len() {
                self.token_seq()[i as int].kind
            } else {
                SyntaxKind::Error
            }),
    {
        if i < self.tokens.len() {
            self.tokens[i].kind
        } else {
            SyntaxKind::Error
        }
    }

    fn token_count(&self) -> (r: usize)
        ensures
            r == self.token_seq().len(),
    {
        self.tokens.len()
    }

    fn cur_pos(&self) -> (r: usize)
        ensures
            r == self.position(),
    {
        self.pos
    }

    /// Opens a node of kind `k`.
    fn start_node(&mut self, k: SyntaxKind)
        requires
            old(self).inv(),
        ensures
            final(self).inv(),
            final(self).source() == old(self).source(),
            final(self).token_seq() == old(self).token_seq(),
            final(self).position() == old(self).position(),
            final(self).open_nodes() == old(self).open_nodes() + 1,
            final(self).open_nodes() >= 2,
            final(self).event_seq() == old(self).event_seq().push(Event::Start(k)),
    {
        proof {
            reveal(Parser::inv);
            Self::lemma_push_depth(self.events@, Event::Start(k));
        }
        self.events.push(Event::Start(k));
        let n = self.events.len();
        proof {
            lemma_depth_bound(old(self).events@);
        }
        self.open = self.open + 1;
        proof {
            let evs = self.events@;
            assert(evs[0] == old(self).events@[0]);
            assert(event_text(evs) == event_text(old(self).events@));
            assert forall|k: int| 1 <= k <= evs.len() implies depth(#[trigger] evs.take(k)) >= 1 by {
                if k == evs.len() {
                    assert(evs.take(k) == evs);
                }
            }
        }
    }

    /// Closes the innermost open node, which is not the root.
    fn finish_node(&mut self)
        requires
            old(self).inv(),
            old(self).open_nodes() >= 2,
        ensures
            final(self).inv(),
            final(self).source() == old(self).source(),
            final(self).token_seq() == old(self).token_seq(),
            final(self).position() == old(self).position(),
            final(self).open_nodes() == old(self).open_nodes() - 1,
            final(self).event_seq() == old(self).event_seq().push(Event::Finish),
    {
        proof {
            reveal(Parser::inv);
            Self::lemma_push_depth(self.events@, Event::Finish);
        }
        self.events.push(Event::Finish);
        self.open = self.open - 1;
        proof {
            let evs = self.events@;
            assert(evs[0] == old(self).events@[0]);
            assert(event_text(evs) == event_text(old(self).events@));
            assert forall|k: int| 1 <= k <= evs.len() implies depth(#[trigger] evs.take(k)) >= 1 by {
                if k == evs.len() {
                    assert(evs.take(k) == evs);
                }
            }
        }
    }

    /// Adds the current token to the tree, preceded by the whitespace and comments
    /// before it, and moves past it. Past the end it does nothing.
    #[verifier::rlimit(100)]
    fn bump(&mut self)
        requires
            old(self).inv(),
        ensures
            final(self).inv(),
            final(self).source() == old(self).source(),
            final(self).token_seq() == old(self).token_seq(),
            final(self).open_nodes() == old(self).open_nodes(),
            final(self).position() == (if old(self).position() < old(self).token_seq().len() {
                old(self).position() + 1
            } else {
                old(self).position()
            }),
            final(self).position() <= final(self).token_seq().len(),
            final(self).extends(old(self)),
            final(self).error_seq() == old(self).error_seq(),
    {
        proof {
            reveal(Parser::inv);
        }
        if self.pos < self.tokens.len() {
            let start = self.tokens[self.pos].start;
            let end = self.tokens[self.pos].end;
            let kind = self.tokens[self.pos].kind;
            let text = self.tokens[self.pos].text.clone();
            let ghost s = self.src@;
            let ghost te = self.trivia_end as int;
            proof {
                let p = self.pos as int;
                assert(self.tokens@[p].start < self.tokens@[p].end);
                if p > 0 {
                    assert(self.tokens@[p - 1].end <= self.tokens@[p].start);
                }
                assert(te <= start);
            }
            if self.trivia_end < start {
                let ws = string_of(&self.src.as_slice()[self.trivia_end..start]);
                proof {
                    Self::lemma_push_token(self.events@, SyntaxKind::Whitespace, ws);
                    assert(s.take(te) + s.subrange(te, start as int) =~= s.take(start as int));
                }
                self.events.push(Event::Token(SyntaxKind::Whitespace, ws));
            }
            proof {
                assert(event_text(self.events@) == s.take(start as int));
                Self::lemma_push_token(self.events@, kind, text);
                assert(s.take(start as int) + s.subrange(start as int, end as int) =~= s.take(end as int));
            }
            self.events.push(Event::Token(kind, text));
            self.trivia_end = end;
            self.pos = self.pos + 1;
        }
    }

    /// Records an error at the current token.
    fn err(&mut self, message: String)
        requires
            old(self).inv(),
        ensures
            final(self).kept(old(self)),
            final(self).stopped(old(self)),
    {
        proof {
            reveal(Parser::inv);
        }
        let offset = if self.pos < self.tokens.len() {
            self.tokens[self.pos].offset
        } else {
            0
        };
        self.errors.push(ParseError { message, offset });
    }

    fn err_and_bump(&mut self, message: String)
        requires
            old(self).inv(),
        ensures
            final(self).kept(old(self)),
            final(self).position() == (if old(self).position() < old(self).token_seq().len() {
                old(self).position() + 1
            } else {
                old(self).position()
            }),
    {
        self.err(message);
        self.bump();
    }

    /// Consumes the current token when it is of kind `k`.
    fn eat(&mut self, k: SyntaxKind) -> (r: bool)
        requires
            old(self).ready(),
            k != SyntaxKind::Error,
        ensures
            final(self).kept(old(self)),
            r == (old(self).cur() == k),
            r ==> final(self).position() == old(self).position() + 1,
            !r ==> final(self).stopped(old(self)),
    {
        if self.at(k) {
            self.bump();
            true
        } else {
            false
        }
    }

    /// Consumes a token of kind `k`, or records `expected k, got ...`.
    fn expect(&mut self, k: SyntaxKind)
        requires
            old(self).ready(),
        ensures
            final(self).kept(old(self)),
            old(self).cur() == k && old(self).position() < old(self).token_seq().len()
                ==> final(self).position() == old(self).position() + 1,
            old(self).cur() != k ==> final(self).stopped(old(self)),
    {
        if self.at(k) {
            self.bump();
        } else {
            let mut m = String::from_str("expected ");
            m.append(k.name());
            m.append(", got ");
            m.append(self.kind().name());
            self.err(m);
        }
    }

    /// The tokens of `source`, with their character ranges, and its characters.
    #[verifier::rlimit(100)]
    #[verifier::spinoff_prover]
    fn read_tokens(source: &str) -> (r: (Vec<Token>, Vec<char>))
        requires
            byte_len(source@) <= u32::MAX,
        ensures
            r.1@ == source@,
            tokens_ok(r.1@, r.0@),
            r.0@.len() == lex_from(source@, 0).len(),
            forall|k: int|
                0 <= k < r.0@.len() ==> (#[trigger] r.0@[k]).start == lex_from(source@, 0)[k].1
                    && r.0@[k].end == lex_from(source@, 0)[k].2 && r.0@[k].kind == lex_from(source@, 0)[k].0,
    {
        let mut lexer = Lexer::new(source);
        let mut tokens: Vec<Token> = Vec::new();
        let ghost s = source@;
        let ghost all = lex_from(s, 0);
        proof {
            lemma_lex_from_ordered(s, 0);
        }
        loop
            invariant
                lexer.wf(),
                lexer.source() == s,
                all == lex_from(s, 0),
                tokens@.len() + lexer.remaining().len() == all.len(),
                lexer.remaining() == all.skip(tokens@.len() as int),
                forall|k: int|
                    0 <= k < tokens@.len() ==> (#[trigger] tokens@[k]).start == all[k].1 && tokens@[k].end
                        == all[k].2 && tokens@[k].kind == all[k].0,
                forall|k: int|
                    0 <= k < tokens@.len() ==> (#[trigger] tokens@[k]).text@ == s.subrange(all[k].1, all[k].2),
                forall|k: int| 0 <= k < all.len() ==> 0 <= (#[trigger] all[k]).1 < all[k].2 <= s.len(),
                forall|k: int| 0 <= k < all.len() - 1 ==> (#[trigger] all[k]).2 <= all[k + 1].1,
            ensures
                tokens@.len() == all.len(),
            decreases lexer.remaining().len(),
        {
            let ghost before = lexer.remaining();
            match lexer.next_token() {
                Some(t) => {
                    let end = lexer.pos();
                    let n = t.text.as_str().unicode_len();
                    proof {
                        assert(before[0] == all[tokens@.len() as int]);
                        assert(all.skip(tokens@.len() + 1 as int) =~= before.drop_first());
                        assert(t.text@ == s.subrange(before[0].1, before[0].2) && t.kind == before[0].0) by {
                            reveal(token_matches);
                        }
                        assert(n == before[0].2 - before[0].1);
                    }
                    let start = end - n;
                    let offset = t.range.start as usize;
                    let ghost old_tokens = tokens@;
                    tokens.push(Token { kind: t.kind, text: t.text, offset, start, end });
                    proof {
                        assert forall|k: int| 0 <= k < tokens@.len() implies (#[trigger] tokens@[k]).start
                            == all[k].1 && tokens@[k].end == all[k].2 && tokens@[k].kind == all[k].0 by {
                            if k < old_tokens.len() {
                                assert(tokens@[k] == old_tokens[k]);
                            }
                        }
                        assert forall|k: int| 0 <= k < tokens@.len() implies (#[trigger] tokens@[k]).text@
                            == s.subrange(all[k].1, all[k].2) by {
                            if k < old_tokens.len() {
                                assert(tokens@[k] == old_tokens[k]);
                            }
                        }
                    }
                },
                None => {
                    proof {
                        assert(before.len() == 0);
                    }
                    break;
                },
            }
        }
        let src = lexer.into_chars();
        proof {
            lemma_tokens_ok(s, tokens@, all);
        }
        (tokens, src)
    }

    /// A parser for `source`, inside a freshly opened root node.
    fn begin(source: &str) -> (r: Parser)
        requires
            byte_len(source@) <= u32::MAX,
        ensures
            r.inv(),
            r.source() == source@,
            r.position() == 0,
            r.open_nodes() == 1,
            r.event_seq() == seq![Event::Start(SyntaxKind::CompilationUnit)],
            r.token_seq().len() == lex_from(source@, 0).len(),
            r.error_seq().len() == 0,
    {
        let (tokens, src) = Self::read_tokens(source);
        let mut events: Vec<Event> = Vec::new();
        events.push(Event::Start(SyntaxKind::CompilationUnit));
        let p = Parser { src, tokens, pos: 0, trivia_end: 0, open: 1, events, errors: Vec::new() };
        proof {
            reveal(Parser::inv);
            let evs = p.events@;
            assert(evs.len() == 1);
            assert(evs.last() == Event::Start(SyntaxKind::CompilationUnit));
            assert(evs.drop_last() =~= Seq::<Event>::empty());
            assert(depth(evs.drop_last()) == 0);
            assert(event_text(evs.drop_last()) =~= Seq::<char>::empty());
            assert(depth(evs) == 1);
            assert(event_text(evs) =~= Seq::<char>::empty());
            assert(p.src@.take(0) =~= Seq::<char>::empty());
            assert forall|k: int| 1 <= k <= evs.len() implies depth(#[trigger] evs.take(k)) >= 1 by {
                assert(evs.take(k) == evs);
            }
        }
        p
    }
}

#[verifier::loop_isolation(false)]
impl Parser {
    /// Records that the input nests deeper than the parser follows.
    fn too_deep(&mut self)
        requires
            old(self).ready(),
        ensures
            final(self).kept(old(self)),
            final(self).stopped(old(self)),
    {
        self.err(String::from_str("syntax nested too deeply"));
    }

    fn at_modifier(&self) -> (r: bool)
        ensures
            r == modifier_kind(self.cur()),
    {
        let k = self.kind();
        k == SyntaxKind::PublicKw || k == SyntaxKind::ProtectedKw || k == SyntaxKind::PrivateKw || k
            == SyntaxKind::AbstractKw || k == SyntaxKind::FinalKw || k == SyntaxKind::StaticKw || k
            == SyntaxKind::StrictfpKw || k == SyntaxKind::SealedKw || k == SyntaxKind::NonSealedKw
            || k == SyntaxKind::NativeKw || k == SyntaxKind::SynchronizedKw || k
            == SyntaxKind::TransientKw || k == SyntaxKind::VolatileKw || k == SyntaxKind::DefaultKw
    }

    fn at_type_decl_start(&self) -> (r: bool)
        ensures
            r == type_decl_start_kind(self.cur()),
    {
        let k = self.kind();
        k == SyntaxKind::ClassKw || k == SyntaxKind::InterfaceKw || k == SyntaxKind::EnumKw || k
            == SyntaxKind::RecordKw || k == SyntaxKind::At || k == SyntaxKind::PublicKw || k
            == SyntaxKind::ProtectedKw || k == SyntaxKind::PrivateKw || k == SyntaxKind::AbstractKw
            || k == SyntaxKind::FinalKw || k == SyntaxKind::StaticKw || k == SyntaxKind::StrictfpKw
            || k == SyntaxKind::SealedKw || k == SyntaxKind::NonSealedKw
    }

    fn at_primitive(&self) -> (r: bool)
        ensures
            r == primitive_or_void_kind(self.cur()),
    {
        let k = self.kind();
        is_primitive_kind(k) || k == SyntaxKind::VoidKw
    }

    fn at_assign_op(&self) -> (r: bool)
        ensures
            r == assign_op_kind(self.cur()),
    {
        let k = self.kind();
        k == SyntaxKind::Eq || k == SyntaxKind::PlusEq || k == SyntaxKind::MinusEq || k
            == SyntaxKind::StarEq || k == SyntaxKind::SlashEq || k == SyntaxKind::AmpEq || k
            == SyntaxKind::PipeEq || k == SyntaxKind::CaretEq || k == SyntaxKind::PercentEq || k
            == SyntaxKind::LtLtEq || k == SyntaxKind::GtGtEq || k == SyntaxKind::GtGtGtEq
    }

    fn compilation_unit(&mut self, fuel: usize)
        requires
            old(self).ready(),
        ensures
            final(self).kept(old(self)),
            fuel == 0 ==> final(self).stopped(old(self)),
            fuel > 0 && old(self).cur() == SyntaxKind::Error ==> final(self).stopped(old(self)) && final(self).error_seq()
                == old(self).error_seq(),
            fuel > 1 && old(self).cur() == SyntaxKind::PackageKw ==> final(self).opened(old(self), SyntaxKind::PackageDecl),
            fuel > 1 && old(self).cur() == SyntaxKind::ImportKw ==> final(self).opened(old(self), SyntaxKind::ImportDecl),
            fuel > 2 && type_decl_start_kind(old(self).cur()) ==> final(self).opened(old(self), SyntaxKind::ModifierList),
        decreases fuel,
    {
        if fuel == 0 {
            self.too_deep();
            return;
        }
        let f = fuel - 1;
        if self.at(SyntaxKind::PackageKw) {
            self.package_decl(f);
        }
        let ghost entry = *self;
        while self.at(SyntaxKind::ImportKw)
            invariant
                self.kept(&entry),
                fuel > 1 && old(self).cur() == SyntaxKind::PackageKw ==> self.opened(old(self), SyntaxKind::PackageDecl),
                fuel > 1 && old(self).cur() == SyntaxKind::ImportKw ==> (self.opened(old(self), SyntaxKind::ImportDecl)
                    || self.stopped(old(self))),
                old(self).cur() != SyntaxKind::PackageKw ==> entry.stopped(old(self)),
                type_decl_start_kind(old(self).cur()) ==> self.stopped(old(self)),
                old(self).cur() == SyntaxKind::Error ==> self.stopped(old(self)) && self.error_seq() == old(self).error_seq(),
            decreases self.token_seq().len() - self.position(),
        {
            let before = self.cur_pos();
            self.import_decl(f);
            if self.cur_pos() == before {
                break;
            }
        }
        let ghost entry2 = *self;
        while self.at_type_decl_start()
            invariant
                self.kept(&entry2),
                fuel > 1 && old(self).cur() == SyntaxKind::PackageKw ==> self.opened(old(self), SyntaxKind::PackageDecl),
                fuel > 1 && old(self).cur() == SyntaxKind::ImportKw ==> self.opened(old(self), SyntaxKind::ImportDecl),
                fuel > 2 && type_decl_start_kind(old(self).cur()) ==> (self.opened(old(self), SyntaxKind::ModifierList)
                    || self.stopped(old(self))),
                old(self).cur() == SyntaxKind::Error ==> self.stopped(old(self)) && self.error_seq() == old(self).error_seq(),
            decreases self.token_seq().len() - self.position(),
        {
            let before = self.cur_pos();
            self.type_decl(f);
            if self.cur_pos() == before {
                break;
            }
        }
    }

    fn package_decl(&mut self, fuel: usize)
        requires
            old(self).ready(),
        ensures
            final(self).kept(old(self)),
            fuel > 0 ==> final(self).added_node(old(self), SyntaxKind::PackageDecl),
            fuel == 0 ==> final(self).stopped(old(self)),
        decreases fuel,
    {
        if fuel == 0 {
            self.too_deep();
            return;
        }
        let f = fuel - 1;
        self.start_node(SyntaxKind::PackageDecl);
        self.expect(SyntaxKind::PackageKw);
        self.qualified_name(f);
        self.expect(SyntaxKind::Semi);
        self.finish_node();
    }

    fn import_decl(&mut self, fuel: usize)
        requires
            old(self).ready(),
        ensures
            final(self).kept(old(self)),
            fuel > 0 ==> final(self).added_node(old(self), SyntaxKind::ImportDecl),
            fuel == 0 ==> final(self).stopped(old(self)),
        decreases fuel,
    {
        if fuel == 0 {
            self.too_deep();
            return;
        }
        let f = fuel - 1;
        self.start_node(SyntaxKind::ImportDecl);
        self.expect(SyntaxKind::ImportKw);
        self.eat(SyntaxKind::StaticKw);
        self.qualified_name(f);
        self.eat(SyntaxKind::Star);
        self.expect(SyntaxKind::Semi);
        self.finish_node();
    }

    fn type_decl(&mut self, fuel: usize)
        requires
            old(self).ready(),
        ensures
            final(self).kept(old(self)),
            fuel > 1 ==> final(self).opened(old(self), SyntaxKind::ModifierList),
        decreases fuel,
    {
        if fuel == 0 {
            self.too_deep();
            return;
        }
        let f = fuel - 1;
        self.modifier_list(f);
        let k = self.kind();
        if k == SyntaxKind::ClassKw {
            self.class_decl(f);
        } else if k == SyntaxKind::InterfaceKw {
            self.interface_decl(f);
        } else if k == SyntaxKind::EnumKw {
            self.enum_decl(f);
        } else if k == SyntaxKind::RecordKw {
            self.record_decl(f);
        } else if k == SyntaxKind::At && self.look(1) == SyntaxKind::InterfaceKw {
            self.annotation_decl(f);
        } else {
            self.err_and_bump(String::from_str("expected type declaration"));
        }
    }

    fn modifier_list(&mut self, fuel: usize)
        requires
            old(self).ready(),
        ensures
            final(self).kept(old(self)),
            fuel > 0 ==> final(self).added_node(old(self), SyntaxKind::ModifierList),
            fuel == 0 ==> final(self).stopped(old(self)),
        decreases fuel,
    {
        if fuel == 0 {
            self.too_deep();
            return;
        }
        let f = fuel - 1;
        self.start_node(SyntaxKind::ModifierList);
        let ghost entry = *self;
        loop
            invariant
                self.kept(&entry),
            decreases self.token_seq().len() - self.position(),
        {
            let before = self.cur_pos();
            if self.at_modifier() {
                self.bump();
            } else if self.at(SyntaxKind::At) {
                self.annotation(f);
            } else {
                break;
            }
            if self.cur_pos() == before {
                break;
            }
        }
        self.finish_node();
    }

    fn class_decl(&mut self, fuel: usize)
        requires
            old(self).ready(),
        ensures
            final(self).kept(old(self)),
            fuel > 0 ==> final(self).added_node(old(self), SyntaxKind::ClassDecl),
            fuel == 0 ==> final(self).stopped(old(self)),
        decreases fuel,
    {
        if fuel == 0 {
            self.too_deep();
            return;
        }
        let f = fuel - 1;
        self.start_node(SyntaxKind::ClassDecl);
        self.expect(SyntaxKind::ClassKw);
        self.expect(SyntaxKind::Ident);
        if self.at(SyntaxKind::Lt) {
            self.type_param_list(f);
        }
        if self.eat(SyntaxKind::ExtendsKw) {
            self.type_(f);
        }
        if self.eat(SyntaxKind::ImplementsKw) {
            self.type_list(f);
        }
        if self.at(SyntaxKind::PermitsKw) {
            self.permits_clause(f);
        }
        self.class_body(f);
        self.finish_node();
    }

    fn interface_decl(&mut self, fuel: usize)
        requires
            old(self).ready(),
        ensures
            final(self).kept(old(self)),
            fuel > 0 ==> final(self).added_node(old(self), SyntaxKind::InterfaceDecl),
            fuel == 0 ==> final(self).stopped(old(self)),
        decreases fuel,
    {
        if fuel == 0 {
            self.too_deep();
            return;
        }
        let f = fuel - 1;
        self.start_node(SyntaxKind::InterfaceDecl);
        self.expect(SyntaxKind::InterfaceKw);
        self.expect(SyntaxKind::Ident);
        if self.at(SyntaxKind::Lt) {
            self.type_param_list(f);
        }
        if self.eat(SyntaxKind::ExtendsKw) {
            self.type_list(f);
        }
        if self.at(SyntaxKind::PermitsKw) {
            self.permits_clause(f);
        }
        self.class_body(f);
        self.finish_node();
    }

    fn enum_decl(&mut self, fuel: usize)
        requires
            old(self).ready(),
        ensures
            final(self).kept(old(self)),
            fuel > 0 ==> final(self).added_node(old(self), SyntaxKind::EnumDecl),
            fuel == 0 ==> final(self).stopped(old(self)),
        decreases fuel,
    {
        if fuel == 0 {
            self.too_deep();
            return;
        }
        let f = fuel - 1;
        self.start_node(SyntaxKind::EnumDecl);
        self.expect(SyntaxKind::EnumKw);
        self.expect(SyntaxKind::Ident);
        if self.at(SyntaxKind::Lt) {
            self.type_param_list(f);
        }
        if self.eat(SyntaxKind::ImplementsKw) {
            self.type_list(f);
        }
        self.enum_body(f);
        self.finish_node();
    }

    fn record_decl(&mut self, fuel: usize)
        requires
            old(self).ready(),
        ensures
            final(self).kept(old(self)),
            fuel > 0 ==> final(self).added_node(old(self), SyntaxKind::RecordDecl),
            fuel == 0 ==> final(self).stopped(old(self)),
        decreases fuel,
    {
        if fuel == 0 {
            self.too_deep();
            return;
        }
        let f = fuel - 1;
        self.start_node(SyntaxKind::RecordDecl);
        self.expect(SyntaxKind::RecordKw);
        self.expect(SyntaxKind::Ident);
        if self.at(SyntaxKind::Lt) {
            self.type_param_list(f);
        }
        self.record_component_list(f);
        if self.eat(SyntaxKind::ImplementsKw) {
            self.type_list(f);
        }
        self.class_body(f);
        self.finish_node();
    }

    fn annotation_decl(&mut self, fuel: usize)
        requires
            old(self).ready(),
        ensures
            final(self).kept(old(self)),
            fuel > 0 ==> final(self).added_node(old(self), SyntaxKind::AnnotationDecl),
            fuel == 0 ==> final(self).stopped(old(self)),
        decreases fuel,
    {
        if fuel == 0 {
            self.too_deep();
            return;
        }
        let f = fuel - 1;
        self.start_node(SyntaxKind::AnnotationDecl);
        self.expect(SyntaxKind::At);
        self.expect(SyntaxKind::InterfaceKw);
        self.expect(SyntaxKind::Ident);
        self.class_body(f);
        self.finish_node();
    }

    fn permits_clause(&mut self, fuel: usize)
        requires
            old(self).ready(),
        ensures
            final(self).kept(old(self)),
            fuel > 0 ==> final(self).added_node(old(self), SyntaxKind::PermitsClause),
            fuel == 0 ==> final(self).stopped(old(self)),
        decreases fuel,
    {
        if fuel == 0 {
            self.too_deep();
            return;
        }
        let f = fuel - 1;
        self.start_node(SyntaxKind::PermitsClause);
        self.expect(SyntaxKind::PermitsKw);
        self.type_list(f);
        self.finish_node();
    }

    fn class_body(&mut self, fuel: usize)
        requires
            old(self).ready(),
        ensures
            final(self).kept(old(self)),
            fuel > 0 ==> final(self).added_node(old(self), SyntaxKind::ClassBody),
            fuel == 0 ==> final(self).stopped(old(self)),
        decreases fuel,
    {
        if fuel == 0 {
            self.too_deep();
            return;
        }
        let f = fuel - 1;
        self.start_node(SyntaxKind::ClassBody);
        self.expect(SyntaxKind::LBrace);
        self.members_until_rbrace(f);
        self.expect(SyntaxKind::RBrace);
        self.finish_node();
    }

    /// Class members up to the closing brace or the end of the tokens.
    fn members_until_rbrace(&mut self, fuel: usize)
        requires
            old(self).ready(),
        ensures
            final(self).kept(old(self)),
            fuel > 0 && (old(self).cur() == SyntaxKind::RBrace || old(self).cur() == SyntaxKind::Error) ==> final(self).stopped(old(self)),
            fuel > 2 && old(self).cur() != SyntaxKind::RBrace && old(self).cur() != SyntaxKind::Error ==> final(self).opened(old(self), old(self).member_start()),
        decreases fuel,
    {
        if fuel == 0 {
            self.too_deep();
            return;
        }
        let f = fuel - 1;
        let ghost entry = *self;
        while !self.at(SyntaxKind::RBrace) && !self.at(SyntaxKind::Error)
            invariant
                self.kept(&entry),
                entry == *old(self),
                fuel > 2 && old(self).cur() != SyntaxKind::RBrace && old(self).cur() != SyntaxKind::Error ==> (
                self.opened(old(self), old(self).member_start()) || self.stopped(old(self))),
                old(self).cur() == SyntaxKind::RBrace || old(self).cur() == SyntaxKind::Error ==> self.stopped(old(self)),
            decreases self.token_seq().len() - self.position(),
        {
            let before = self.cur_pos();
            self.class_member(f);
            if self.cur_pos() == before {
                break;
            }
        }
    }

    fn enum_body(&mut self, fuel: usize)
        requires
            old(self).ready(),
        ensures
            final(self).kept(old(self)),
            fuel > 0 ==> final(self).added_node(old(self), SyntaxKind::EnumBody),
            fuel == 0 ==> final(self).stopped(old(self)),
        decreases fuel,
    {
        if fuel == 0 {
            self.too_deep();
            return;
        }
        let f = fuel - 1;
        self.start_node(SyntaxKind::EnumBody);
        self.expect(SyntaxKind::LBrace);
        if !self.at(SyntaxKind::RBrace) {
            self.enum_constant_list(f);
        }
        if self.eat(SyntaxKind::Semi) {
            self.members_until_rbrace(f);
        }
        self.expect(SyntaxKind::RBrace);
        self.finish_node();
    }

    fn enum_constant_list(&mut self, fuel: usize)
        requires
            old(self).ready(),
        ensures
            final(self).kept(old(self)),
            fuel > 0 ==> final(self).added_node(old(self), SyntaxKind::EnumConstantList),
            fuel == 0 ==> final(self).stopped(old(self)),
        decreases fuel,
    {
        if fuel == 0 {
            self.too_deep();
            return;
        }
        let f = fuel - 1;
        self.start_node(SyntaxKind::EnumConstantList);
        let ghost entry = *self;
        loop
            invariant
                self.kept(&entry),
            decreases self.token_seq().len() - self.position(),
        {
            self.enum_constant(f);
            if !self.eat(SyntaxKind::Comma) {
                break;
            }
        }
        self.finish_node();
    }

    fn enum_constant(&mut self, fuel: usize)
        requires
            old(self).ready(),
        ensures
            final(self).kept(old(self)),
            fuel > 0 ==> final(self).added_node(old(self), SyntaxKind::EnumConstant),
            fuel == 0 ==> final(self).stopped(old(self)),
        decreases fuel,
    {
        if fuel == 0 {
            self.too_deep();
            return;
        }
        let f = fuel - 1;
        self.start_node(SyntaxKind::EnumConstant);
        self.modifier_list(f);
        self.expect(SyntaxKind::Ident);
        if self.at(SyntaxKind::LParen) {
            self.argument_list(f);
        }
        if self.at(SyntaxKind::LBrace) {
            self.class_body(f);
        }
        self.finish_node();
    }

    fn record_component_list(&mut self, fuel: usize)
        requires
            old(self).ready(),
        ensures
            final(self).kept(old(self)),
            fuel > 0 ==> final(self).added_node(old(self), SyntaxKind::RecordComponentList),
            fuel == 0 ==> final(self).stopped(old(self)),
        decreases fuel,
    {
        if fuel == 0 {
            self.too_deep();
            return;
        }
        let f = fuel - 1;
        self.start_node(SyntaxKind::RecordComponentList);
        self.expect(SyntaxKind::LParen);
        let ghost entry = *self;
        while !self.at(SyntaxKind::RParen) && !self.at(SyntaxKind::Error)
            invariant
                self.kept(&entry),
            decreases self.token_seq().len() - self.position(),
        {
            self.start_node(SyntaxKind::RecordComponent);
            self.modifier_list(f);
            self.type_(f);
            self.expect(SyntaxKind::Ident);
            self.finish_node();
            if !self.eat(SyntaxKind::Comma) {
                break;
            }
        }
        self.expect(SyntaxKind::RParen);
        self.finish_node();
    }

    fn class_member(&mut self, fuel: usize)
        requires
            old(self).ready(),
        ensures
            final(self).kept(old(self)),
            fuel > 1 ==> final(self).opened(old(self), old(self).member_start()),
        decreases fuel,
    {
        if fuel == 0 {
            self.too_deep();
            return;
        }
        let f = fuel - 1;
        if self.at(SyntaxKind::LBrace) {
            self.start_node(SyntaxKind::InstanceInit);
            self.block(f);
            self.finish_node();
            return;
        }
        if self.at(SyntaxKind::StaticKw) && self.look(1) == SyntaxKind::LBrace {
            self.start_node(SyntaxKind::StaticInit);
            self.eat(SyntaxKind::StaticKw);
            self.block(f);
            self.finish_node();
            return;
        }
        self.modifier_list(f);
        let k = self.kind();
        if k == SyntaxKind::ClassKw || k == SyntaxKind::InterfaceKw || k == SyntaxKind::EnumKw || k
            == SyntaxKind::RecordKw || (k == SyntaxKind::At && self.look(1) == SyntaxKind::InterfaceKw) {
            self.type_decl(f);
            return;
        }
        if self.is_constructor() {
            self.constructor_decl(f);
        } else if self.is_method_decl() {
            self.method_decl(f);
        } else {
            self.field_decl(f);
        }
    }

    fn is_constructor(&self) -> (r: bool)
        ensures
            r == self.constructor_ahead(),
    {
        self.at(SyntaxKind::Ident) && (self.look(1) == SyntaxKind::LParen || self.look(1)
            == SyntaxKind::LBrace)
    }

    fn constructor_decl(&mut self, fuel: usize)
        requires
            old(self).ready(),
        ensures
            final(self).kept(old(self)),
            fuel > 0 ==> final(self).added_node(old(self), SyntaxKind::ConstructorDecl),
            fuel == 0 ==> final(self).stopped(old(self)),
        decreases fuel,
    {
        if fuel == 0 {
            self.too_deep();
            return;
        }
        let f = fuel - 1;
        self.start_node(SyntaxKind::ConstructorDecl);
        self.expect(SyntaxKind::Ident);
        if self.at(SyntaxKind::LParen) {
            self.formal_param_list(f);
        }
        if self.at(SyntaxKind::ThrowsKw) {
            self.throws_clause(f);
        }
        self.start_node(SyntaxKind::MethodBody);
        self.block(f);
        self.finish_node();
        self.finish_node();
    }

    /// From `i`, past a balanced run that opens with `open` and closes with `close`.
    fn skip_balanced(&self, i: usize, open: SyntaxKind, close: SyntaxKind) -> (r: usize)
        requires
            i < self.token_seq().len(),
        ensures
            i < r <= self.token_seq().len(),
            r == self.balanced_end(i as int, 0, open, close),
    {
        let n = self.token_count();
        let mut j = i;
        let mut depth: usize = 0;
        while j < n
            invariant
                n == self.token_seq().len(),
                i <= j <= n,
                depth <= j - i,
                self.balanced_end(j as int, depth as int, open, close) == self.balanced_end(i as int, 0, open, close),
            decreases n - j,
        {
            let k = self.token_kind_at(j);
            if k == open {
                if depth < n {
                    depth = depth + 1;
                }
            } else if k == close {
                if depth > 0 {
                    depth = depth - 1;
                }
                if depth == 0 {
                    return j + 1;
                }
            }
            j = j + 1;
        }
        j
    }

    /// Past a type name with its type arguments, from `i`.
    fn skip_type_name(&self, i: usize) -> (r: usize)
        requires
            i <= self.token_seq().len(),
        ensures
            i <= r <= self.token_seq().len(),
            r == self.type_name_end(i as int),
    {
        let n = self.token_count();
        let mut j = i;
        while j < n && self.token_kind_at(j) == SyntaxKind::Ident
            invariant
                n == self.token_seq().len(),
                i <= j <= n,
                self.type_name_end(j as int) == self.type_name_end(i as int),
            decreases n - j,
        {
            j = j + 1;
            if j < n && self.token_kind_at(j) == SyntaxKind::Lt {
                j = self.skip_balanced(j, SyntaxKind::Lt, SyntaxKind::Gt);
            }
            if j < n && self.token_kind_at(j) == SyntaxKind::Dot {
                j = j + 1;
            } else {
                break;
            }
        }
        j
    }

    /// Past the `[]` pairs from `i`.
    fn skip_dims(&self, i: usize) -> (r: usize)
        requires
            i <= self.token_seq().len(),
        ensures
            i <= r <= self.token_seq().len(),
            r == self.dims_end(i as int),
    {
        let n = self.token_count();
        let mut j = i;
        while n - j >= 2 && self.token_kind_at(j) == SyntaxKind::LBrack && self.token_kind_at(j + 1)
            == SyntaxKind::RBrack
            invariant
                n == self.token_seq().len(),
                i <= j <= n,
                self.dims_end(j as int) == self.dims_end(i as int),
            decreases n - j,
        {
            j = j + 2;
        }
        j
    }

    /// Whether the member ahead is a method: annotations, a return type, a name and `(`.
    fn is_method_decl(&self) -> (r: bool)
        ensures
            r == self.method_ahead(),
    {
        let n = self.token_count();
        let mut i = self.cur_pos();
        if i > n {
            return false;
        }
        while i < n && self.token_kind_at(i) == SyntaxKind::At
            invariant
                n == self.token_seq().len(),
                i <= n,
                self.position() <= n,
                self.annotations_end(i as int) == self.annotations_end(self.position()),
            decreases n - i,
        {
            i = i + 1;
            if i < n && self.token_kind_at(i) == SyntaxKind::Ident {
                i = i + 1;
            }
            if i < n && self.token_kind_at(i) == SyntaxKind::LParen {
                i = self.skip_balanced(i, SyntaxKind::LParen, SyntaxKind::RParen);
            }
        }
        if i < n && is_primitive_or_void(self.token_kind_at(i)) {
            i = i + 1;
        } else {
            i = self.skip_type_name(i);
        }
        i = self.skip_dims(i);
        if i < n && self.token_kind_at(i) == SyntaxKind::Ident {
            i = i + 1;
            i = self.skip_dims(i);
        }
        i < n && self.token_kind_at(i) == SyntaxKind::LParen
    }

    fn method_decl(&mut self, fuel: usize)
        requires
            old(self).ready(),
        ensures
            final(self).kept(old(self)),
            fuel > 0 ==> final(self).added_node(old(self), SyntaxKind::MethodDecl),
            fuel == 0 ==> final(self).stopped(old(self)),
        decreases fuel,
    {
        if fuel == 0 {
            self.too_deep();
            return;
        }
        let f = fuel - 1;
        self.start_node(SyntaxKind::MethodDecl);
        self.type_(f);
        self.expect(SyntaxKind::Ident);
        self.formal_param_list(f);
        if self.at(SyntaxKind::ThrowsKw) {
            self.throws_clause(f);
        }
        if !self.eat(SyntaxKind::Semi) {
            self.start_node(SyntaxKind::MethodBody);
            self.block(f);
            self.finish_node();
        }
        self.finish_node();
    }

    /// `name [] = init, ...` as a `VarDeclaratorList`.
    fn var_declarator_list(&mut self, fuel: usize)
        requires
            old(self).ready(),
        ensures
            final(self).kept(old(self)),
            fuel > 0 ==> final(self).added_node(old(self), SyntaxKind::VarDeclaratorList),
            fuel == 0 ==> final(self).stopped(old(self)),
        decreases fuel,
    {
        if fuel == 0 {
            self.too_deep();
            return;
        }
        let f = fuel - 1;
        self.start_node(SyntaxKind::VarDeclaratorList);
        let ghost entry = *self;
        loop
            invariant
                self.kept(&entry),
            decreases self.token_seq().len() - self.position(),
        {
            self.start_node(SyntaxKind::VarDeclarator);
            self.expect(SyntaxKind::Ident);
            self.dims_after_name();
            if self.eat(SyntaxKind::Eq) {
                self.expr(f);
            }
            self.finish_node();
            if !self.eat(SyntaxKind::Comma) {
                break;
            }
        }
        self.finish_node();
    }

    /// `[]` pairs after a declared name.
    fn dims_after_name(&mut self)
        requires
            old(self).ready(),
        ensures
            final(self).kept(old(self)),
            final(self).cur() != SyntaxKind::LBrack,
            old(self).cur() == SyntaxKind::LBrack ==> final(self).position() > old(self).position(),
    {
        let ghost entry = *self;
        loop
            invariant
                self.kept(&entry),
                entry == *old(self),
                old(self).cur() == SyntaxKind::LBrack ==> (self.position() > old(self).position() || self.stopped(old(self))),
            decreases self.token_seq().len() - self.position(),
        {
            if !self.eat(SyntaxKind::LBrack) {
                break;
            }
            self.expect(SyntaxKind::RBrack);
        }
    }

    fn field_decl(&mut self, fuel: usize)
        requires
            old(self).ready(),
        ensures
            final(self).kept(old(self)),
            fuel > 0 ==> final(self).added_node(old(self), SyntaxKind::FieldDecl),
            fuel == 0 ==> final(self).stopped(old(self)),
        decreases fuel,
    {
        if fuel == 0 {
            self.too_deep();
            return;
        }
        let f = fuel - 1;
        self.start_node(SyntaxKind::FieldDecl);
        self.type_(f);
        self.var_declarator_list(f);
        self.expect(SyntaxKind::Semi);
        self.finish_node();
    }

    fn formal_param_list(&mut self, fuel: usize)
        requires
            old(self).ready(),
        ensures
            final(self).kept(old(self)),
            fuel > 0 ==> final(self).added_node(old(self), SyntaxKind::FormalParamList),
            fuel == 0 ==> final(self).stopped(old(self)),
        decreases fuel,
    {
        if fuel == 0 {
            self.too_deep();
            return;
        }
        let f = fuel - 1;
        self.start_node(SyntaxKind::FormalParamList);
        self.expect(SyntaxKind::LParen);
        let ghost entry = *self;
        while !self.at(SyntaxKind::RParen) && !self.at(SyntaxKind::Error)
            invariant
                self.kept(&entry),
            decreases self.token_seq().len() - self.position(),
        {
            if self.at(SyntaxKind::ThisKw) {
                self.start_node(SyntaxKind::ReceiverParam);
                self.bump();
                self.finish_node();
                break;
            }
            self.start_node(SyntaxKind::FormalParam);
            self.modifier_list(f);
            self.type_(f);
            self.eat(SyntaxKind::Ellipsis);
            self.expect(SyntaxKind::Ident);
            self.dims_after_name();
            self.finish_node();
            if !self.eat(SyntaxKind::Comma) {
                break;
            }
        }
        self.expect(SyntaxKind::RParen);
        self.finish_node();
    }

    fn throws_clause(&mut self, fuel: usize)
        requires
            old(self).ready(),
        ensures
            final(self).kept(old(self)),
            fuel > 0 ==> final(self).added_node(old(self), SyntaxKind::ThrowsClause),
            fuel == 0 ==> final(self).stopped(old(self)),
        decreases fuel,
    {
        if fuel == 0 {
            self.too_deep();
            return;
        }
        let f = fuel - 1;
        self.start_node(SyntaxKind::ThrowsClause);
        self.expect(SyntaxKind::ThrowsKw);
        self.start_node(SyntaxKind::ExceptionTypeList);
        self.type_list(f);
        self.finish_node();
        self.finish_node();
    }

    fn type_(&mut self, fuel: usize)
        requires
            old(self).ready(),
        ensures
            final(self).kept(old(self)),
            fuel > 0 ==> final(self).added_node(old(self), SyntaxKind::Type),
            fuel == 0 ==> final(self).stopped(old(self)),
        decreases fuel,
    {
        if fuel == 0 {
            self.too_deep();
            return;
        }
        let f = fuel - 1;
        self.start_node(SyntaxKind::Type);
        self.type_base(f);
        let ghost entry = *self;
        while self.at(SyntaxKind::LBrack)
            invariant
                self.kept(&entry),
            decreases self.token_seq().len() - self.position(),
        {
            self.bump();
            self.expect(SyntaxKind::RBrack);
        }
        self.finish_node();
    }

    /// `var`, a primitive type, or a class type.
    fn type_base(&mut self, fuel: usize)
        requires
            old(self).ready(),
        ensures
            final(self).kept(old(self)),
            fuel > 0 && old(self).cur() == SyntaxKind::VarKw ==> final(self).position() == old(self).position() + 1,
            fuel > 0 && primitive_or_void_kind(old(self).cur()) ==> final(self).added_node(old(self), SyntaxKind::PrimitiveType),
            fuel > 1 && old(self).cur() != SyntaxKind::VarKw && !primitive_or_void_kind(old(self).cur()) ==> final(self).added_node(
                old(self),
                SyntaxKind::ClassType,
            ),
        decreases fuel,
    {
        if fuel == 0 {
            self.too_deep();
            return;
        }
        let f = fuel - 1;
        if self.at(SyntaxKind::VarKw) {
            self.bump();
        } else if self.at_primitive() {
            self.start_node(SyntaxKind::PrimitiveType);
            self.bump();
            self.finish_node();
        } else {
            self.class_type(f);
        }
    }

    fn class_type(&mut self, fuel: usize)
        requires
            old(self).ready(),
        ensures
            final(self).kept(old(self)),
            fuel > 0 ==> final(self).added_node(old(self), SyntaxKind::ClassType),
            fuel == 0 ==> final(self).stopped(old(self)),
        decreases fuel,
    {
        if fuel == 0 {
            self.too_deep();
            return;
        }
        let f = fuel - 1;
        self.start_node(SyntaxKind::ClassType);
        self.expect(SyntaxKind::Ident);
        if self.at(SyntaxKind::Lt) {
            self.type_arg_list(f);
        }
        let ghost entry = *self;
        loop
            invariant
                self.kept(&entry),
            decreases self.token_seq().len() - self.position(),
        {
            if !self.eat(SyntaxKind::Dot) {
                break;
            }
            self.start_node(SyntaxKind::ClassTypeSegment);
            self.expect(SyntaxKind::Ident);
            if self.at(SyntaxKind::Lt) {
                self.type_arg_list(f);
            }
            self.finish_node();
        }
        self.finish_node();
    }

    fn type_arg_list(&mut self, fuel: usize)
        requires
            old(self).ready(),
        ensures
            final(self).kept(old(self)),
            fuel > 0 ==> final(self).added_node(old(self), SyntaxKind::TypeArgList),
            fuel == 0 ==> final(self).stopped(old(self)),
        decreases fuel,
    {
        if fuel == 0 {
            self.too_deep();
            return;
        }
        let f = fuel - 1;
        self.start_node(SyntaxKind::TypeArgList);
        self.expect(SyntaxKind::Lt);
        let ghost entry = *self;
        while !self.at(SyntaxKind::Gt) && !self.at(SyntaxKind::Error)
            invariant
                self.kept(&entry),
            decreases self.token_seq().len() - self.position(),
        {
            if self.at(SyntaxKind::Question) {
                self.start_node(SyntaxKind::WildcardType);
                self.bump();
                if self.eat(SyntaxKind::ExtendsKw) || self.eat(SyntaxKind::SuperKw) {
                    self.type_(f);
                }
                self.finish_node();
            } else {
                self.type_(f);
            }
            if !self.eat(SyntaxKind::Comma) {
                break;
            }
        }
        self.expect(SyntaxKind::Gt);
        self.finish_node();
    }

    fn type_param_list(&mut self, fuel: usize)
        requires
            old(self).ready(),
        ensures
            final(self).kept(old(self)),
            fuel > 0 ==> final(self).added_node(old(self), SyntaxKind::TypeParamList),
            fuel == 0 ==> final(self).stopped(old(self)),
        decreases fuel,
    {
        if fuel == 0 {
            self.too_deep();
            return;
        }
        let f = fuel - 1;
        self.start_node(SyntaxKind::TypeParamList);
        self.expect(SyntaxKind::Lt);
        let ghost entry = *self;
        while !self.at(SyntaxKind::Gt) && !self.at(SyntaxKind::Error)
            invariant
                self.kept(&entry),
            decreases self.token_seq().len() - self.position(),
        {
            self.start_node(SyntaxKind::TypeParam);
            self.expect(SyntaxKind::Ident);
            if self.eat(SyntaxKind::ExtendsKw) {
                self.start_node(SyntaxKind::TypeBound);
                self.type_list(f);
                self.finish_node();
            }
            self.finish_node();
            if !self.eat(SyntaxKind::Comma) {
                break;
            }
        }
        self.expect(SyntaxKind::Gt);
        self.finish_node();
    }

    fn type_list(&mut self, fuel: usize)
        requires
            old(self).ready(),
        ensures
            final(self).kept(old(self)),
            fuel > 1 ==> final(self).opened(old(self), SyntaxKind::Type),
            fuel > 0 ==> final(self).cur() != SyntaxKind::Comma,
        decreases fuel,
    {
        if fuel == 0 {
            self.too_deep();
            return;
        }
        let f = fuel - 1;
        self.type_(f);
        let ghost entry = *self;
        loop
            invariant
                self.kept(&entry),
            decreases self.token_seq().len() - self.position(),
        {
            if !self.eat(SyntaxKind::Comma) {
                break;
            }
            self.type_(f);
        }
    }

    fn qualified_name(&mut self, fuel: usize)
        requires
            old(self).ready(),
        ensures
            final(self).kept(old(self)),
            final(self).added_node(old(self), SyntaxKind::QualifiedName),
        decreases fuel,
    {
        self.start_node(SyntaxKind::QualifiedName);
        self.expect(SyntaxKind::Ident);
        let ghost entry = *self;
        loop
            invariant
                self.kept(&entry),
            decreases self.token_seq().len() - self.position(),
        {
            if !self.eat(SyntaxKind::Dot) {
                break;
            }
            self.expect(SyntaxKind::Ident);
        }
        self.finish_node();
    }

    fn annotation(&mut self, fuel: usize)
        requires
            old(self).ready(),
        ensures
            final(self).kept(old(self)),
            fuel > 0 ==> final(self).added_node(old(self), SyntaxKind::Annotation),
            fuel == 0 ==> final(self).stopped(old(self)),
        decreases fuel,
    {
        if fuel == 0 {
            self.too_deep();
            return;
        }
        let f = fuel - 1;
        self.start_node(SyntaxKind::Annotation);
        self.expect(SyntaxKind::At);
        self.qualified_name(f);
        if self.at(SyntaxKind::LParen) {
            self.argument_list(f);
        }
        self.finish_node();
    }

    fn block(&mut self, fuel: usize)
        requires
            old(self).ready(),
        ensures
            final(self).kept(old(self)),
            fuel > 0 ==> final(self).added_node(old(self), SyntaxKind::Block),
            fuel == 0 ==> final(self).stopped(old(self)),
        decreases fuel,
    {
        if fuel == 0 {
            self.too_deep();
            return;
        }
        let f = fuel - 1;
        self.start_node(SyntaxKind::Block);
        self.expect(SyntaxKind::LBrace);
        let ghost entry = *self;
        while !self.at(SyntaxKind::RBrace) && !self.at(SyntaxKind::Error)
            invariant
                self.kept(&entry),
            decreases self.token_seq().len() - self.position(),
        {
            let before = self.cur_pos();
            self.stmt(f);
            if self.cur_pos() == before {
                break;
            }
        }
        self.expect(SyntaxKind::RBrace);
        self.finish_node();
    }

    fn stmt(&mut self, fuel: usize)
        requires
            old(self).ready(),
        ensures
            final(self).kept(old(self)),
            fuel > 2 ==> final(self).added_node(old(self), old(self).stmt_kind()),
        decreases fuel,
    {
        if fuel == 0 {
            self.too_deep();
            return;
        }
        let f = fuel - 1;
        let k = self.kind();
        if k == SyntaxKind::LBrace {
            self.block(f);
        } else if k == SyntaxKind::IfKw {
            self.if_stmt(f);
        } else if k == SyntaxKind::ForKw {
            self.for_stmt(f);
        } else if k == SyntaxKind::WhileKw {
            self.while_stmt(f);
        } else if k == SyntaxKind::DoKw {
            self.do_stmt(f);
        } else if k == SyntaxKind::SwitchKw {
            self.switch_expr(f);
        } else if k == SyntaxKind::TryKw {
            self.try_stmt(f);
        } else if k == SyntaxKind::ReturnKw {
            self.keyword_stmt(SyntaxKind::ReturnStmt, SyntaxKind::ReturnKw, f);
        } else if k == SyntaxKind::ThrowKw {
            self.throw_stmt(f);
        } else if k == SyntaxKind::BreakKw {
            self.jump_stmt(SyntaxKind::BreakStmt, SyntaxKind::BreakKw);
        } else if k == SyntaxKind::ContinueKw {
            self.jump_stmt(SyntaxKind::ContinueStmt, SyntaxKind::ContinueKw);
        } else if k == SyntaxKind::SynchronizedKw {
            self.synchronized_stmt(f);
        } else if k == SyntaxKind::AssertKw {
            self.assert_stmt(f);
        } else if k == SyntaxKind::YieldKw {
            self.yield_stmt(f);
        } else if k == SyntaxKind::Semi {
            self.start_node(SyntaxKind::EmptyStmt);
            self.bump();
            self.finish_node();
        } else {
            self.expr_or_local_decl(f);
        }
    }

    /// `(` condition `)`.
    fn paren_condition(&mut self, fuel: usize)
        requires
            old(self).ready(),
        ensures
            final(self).kept(old(self)),
            fuel > 0 && old(self).cur() == SyntaxKind::LParen ==> final(self).position() > old(self).position(),
        decreases fuel,
    {
        if fuel == 0 {
            self.too_deep();
            return;
        }
        let f = fuel - 1;
        self.expect(SyntaxKind::LParen);
        self.expr(f);
        self.expect(SyntaxKind::RParen);
    }

    fn if_stmt(&mut self, fuel: usize)
        requires
            old(self).ready(),
        ensures
            final(self).kept(old(self)),
            fuel > 0 ==> final(self).added_node(old(self), SyntaxKind::IfStmt),
            fuel == 0 ==> final(self).stopped(old(self)),
        decreases fuel,
    {
        if fuel == 0 {
            self.too_deep();
            return;
        }
        let f = fuel - 1;
        self.start_node(SyntaxKind::IfStmt);
        self.expect(SyntaxKind::IfKw);
        self.paren_condition(f);
        self.stmt(f);
        if self.eat(SyntaxKind::ElseKw) {
            self.stmt(f);
        }
        self.finish_node();
    }

    fn for_stmt(&mut self, fuel: usize)
        requires
            old(self).ready(),
        ensures
            final(self).kept(old(self)),
            fuel > 0 ==> final(self).added_node(old(self), SyntaxKind::ForStmt),
            fuel == 0 ==> final(self).stopped(old(self)),
        decreases fuel,
    {
        if fuel == 0 {
            self.too_deep();
            return;
        }
        let f = fuel - 1;
        self.start_node(SyntaxKind::ForStmt);
        self.expect(SyntaxKind::ForKw);
        self.expect(SyntaxKind::LParen);
        if self.is_foreach() {
            self.for_each(f);
        } else {
            self.for_init(f);
            self.expect(SyntaxKind::Semi);
            if !self.at(SyntaxKind::Semi) {
                self.expr(f);
            }
            self.expect(SyntaxKind::Semi);
            if !self.at(SyntaxKind::RParen) {
                self.expr_list(f);
            }
            self.expect(SyntaxKind::RParen);
            self.stmt(f);
        }
        self.finish_node();
    }

    /// Whether a `:` comes at the top level before the `)` that closes the header.
    fn is_foreach(&self) -> (r: bool)
        ensures
            r == self.foreach_ahead(),
    {
        let n = self.token_count();
        let start = self.cur_pos();
        if start > n {
            return false;
        }
        let mut i = start;
        let mut depth: usize = 1;
        while i < n
            invariant
                n == self.token_seq().len(),
                start <= i <= n,
                start == self.position(),
                1 <= depth <= 1 + (i - start),
                self.foreach_scan(i as int, depth as int) == self.foreach_scan(start as int, 1),
            decreases n - i,
        {
            let k = self.token_kind_at(i);
            if k == SyntaxKind::LParen {
                if depth < n {
                    depth = depth + 1;
                }
            } else if k == SyntaxKind::RParen {
                depth = depth - 1;
                if depth == 0 {
                    return false;
                }
            } else if k == SyntaxKind::Colon && depth == 1 {
                return true;
            }
            i = i + 1;
        }
        false
    }

    fn for_each(&mut self, fuel: usize)
        requires
            old(self).ready(),
        ensures
            final(self).kept(old(self)),
            fuel > 0 ==> final(self).added_node(old(self), SyntaxKind::ForEach),
            fuel == 0 ==> final(self).stopped(old(self)),
        decreases fuel,
    {
        if fuel == 0 {
            self.too_deep();
            return;
        }
        let f = fuel - 1;
        self.start_node(SyntaxKind::ForEach);
        self.modifier_list(f);
        self.type_(f);
        self.expect(SyntaxKind::Ident);
        self.expect(SyntaxKind::Colon);
        self.expr(f);
        self.expect(SyntaxKind::RParen);
        self.stmt(f);
        self.finish_node();
    }

    fn for_init(&mut self, fuel: usize)
        requires
            old(self).ready(),
        ensures
            final(self).kept(old(self)),
            fuel > 0 ==> final(self).added_node(old(self), SyntaxKind::ForInit),
            fuel == 0 ==> final(self).stopped(old(self)),
        decreases fuel,
    {
        if fuel == 0 {
            self.too_deep();
            return;
        }
        let f = fuel - 1;
        self.start_node(SyntaxKind::ForInit);
        if !self.at(SyntaxKind::Semi) {
            if self.is_local_var_decl() {
                self.type_(f);
                self.var_declarator_list(f);
            } else {
                self.expr(f);
                if self.eat(SyntaxKind::Comma) {
                    self.expr_list(f);
                }
            }
        }
        self.finish_node();
    }

    fn while_stmt(&mut self, fuel: usize)
        requires
            old(self).ready(),
        ensures
            final(self).kept(old(self)),
            fuel > 0 ==> final(self).added_node(old(self), SyntaxKind::WhileStmt),
            fuel == 0 ==> final(self).stopped(old(self)),
        decreases fuel,
    {
        if fuel == 0 {
            self.too_deep();
            return;
        }
        let f = fuel - 1;
        self.start_node(SyntaxKind::WhileStmt);
        self.expect(SyntaxKind::WhileKw);
        self.paren_condition(f);
        self.stmt(f);
        self.finish_node();
    }

    fn do_stmt(&mut self, fuel: usize)
        requires
            old(self).ready(),
        ensures
            final(self).kept(old(self)),
            fuel > 0 ==> final(self).added_node(old(self), SyntaxKind::DoStmt),
            fuel == 0 ==> final(self).stopped(old(self)),
        decreases fuel,
    {
        if fuel == 0 {
            self.too_deep();
            return;
        }
        let f = fuel - 1;
        self.start_node(SyntaxKind::DoStmt);
        self.expect(SyntaxKind::DoKw);
        self.stmt(f);
        self.expect(SyntaxKind::WhileKw);
        self.paren_condition(f);
        self.expect(SyntaxKind::Semi);
        self.finish_node();
    }

    fn switch_expr(&mut self, fuel: usize)
        requires
            old(self).ready(),
        ensures
            final(self).kept(old(self)),
            fuel > 0 ==> final(self).added_node(old(self), SyntaxKind::SwitchStmt),
            fuel == 0 ==> final(self).stopped(old(self)),
        decreases fuel,
    {
        if fuel == 0 {
            self.too_deep();
            return;
        }
        let f = fuel - 1;
        self.start_node(SyntaxKind::SwitchStmt);
        self.expect(SyntaxKind::SwitchKw);
        self.paren_condition(f);
        self.start_node(SyntaxKind::SwitchBlock);
        self.expect(SyntaxKind::LBrace);
        let ghost entry = *self;
        while !self.at(SyntaxKind::RBrace) && !self.at(SyntaxKind::Error)
            invariant
                self.kept(&entry),
            decreases self.token_seq().len() - self.position(),
        {
            let before = self.cur_pos();
            self.switch_label(f);
            if self.cur_pos() == before {
                break;
            }
        }
        self.expect(SyntaxKind::RBrace);
        self.finish_node();
        self.finish_node();
    }

    /// Statements of a `case ...:` group, up to the next label or the closing brace.
    fn case_group_stmts(&mut self, stop_at_default: bool, fuel: usize)
        requires
            old(self).ready(),
        ensures
            final(self).kept(old(self)),
            fuel > 0 && (old(self).cur() == SyntaxKind::CaseKw || (stop_at_default && old(self).cur() == SyntaxKind::DefaultKw)
                || old(self).cur() == SyntaxKind::RBrace || old(self).cur() == SyntaxKind::Error) ==> final(self).stopped(old(self)),
            fuel > 3 && !(old(self).cur() == SyntaxKind::CaseKw || (stop_at_default && old(self).cur() == SyntaxKind::DefaultKw)
                || old(self).cur() == SyntaxKind::RBrace || old(self).cur() == SyntaxKind::Error) ==> final(self).opened(
                old(self),
                old(self).stmt_kind(),
            ),
        decreases fuel,
    {
        if fuel == 0 {
            self.too_deep();
            return;
        }
        let f = fuel - 1;
        let ghost entry = *self;
        while !self.at(SyntaxKind::CaseKw) && !(stop_at_default && self.at(SyntaxKind::DefaultKw))
            && !self.at(SyntaxKind::RBrace) && !self.at(SyntaxKind::Error)
            invariant
                self.kept(&entry),
                entry == *old(self),
                fuel > 3 && !(old(self).cur() == SyntaxKind::CaseKw || (stop_at_default && old(self).cur()
                    == SyntaxKind::DefaultKw) || old(self).cur() == SyntaxKind::RBrace || old(self).cur()
                    == SyntaxKind::Error) ==> (self.opened(old(self), old(self).stmt_kind()) || *self == *old(self)),
                (old(self).cur() == SyntaxKind::CaseKw || (stop_at_default && old(self).cur() == SyntaxKind::DefaultKw)
                    || old(self).cur() == SyntaxKind::RBrace || old(self).cur() == SyntaxKind::Error) ==> self.stopped(old(self)),
            decreases self.token_seq().len() - self.position(),
        {
            let before = self.cur_pos();
            self.stmt(f);
            if self.cur_pos() == before {
                break;
            }
        }
    }

    fn switch_label(&mut self, fuel: usize)
        requires
            old(self).ready(),
        ensures
            final(self).kept(old(self)),
            fuel > 0 ==> final(self).added_node(old(self), SyntaxKind::SwitchLabel),
            fuel == 0 ==> final(self).stopped(old(self)),
        decreases fuel,
    {
        if fuel == 0 {
            self.too_deep();
            return;
        }
        let f = fuel - 1;
        self.start_node(SyntaxKind::SwitchLabel);
        if self.eat(SyntaxKind::CaseKw) {
            self.expr(f);
            if self.eat(SyntaxKind::Colon) {
                self.case_group_stmts(true, f);
            } else {
                self.expect(SyntaxKind::Arrow);
                self.switch_rule(f);
            }
        } else {
            self.expect(SyntaxKind::DefaultKw);
            if self.eat(SyntaxKind::Colon) {
                self.case_group_stmts(false, f);
            } else {
                self.expect(SyntaxKind::Arrow);
                self.switch_rule(f);
            }
        }
        self.finish_node();
    }

    /// The body of a `case ... ->` rule.
    fn switch_rule(&mut self, fuel: usize)
        requires
            old(self).ready(),
        ensures
            final(self).kept(old(self)),
            fuel > 0 ==> final(self).added_node(old(self), SyntaxKind::SwitchRule),
            fuel == 0 ==> final(self).stopped(old(self)),
        decreases fuel,
    {
        if fuel == 0 {
            self.too_deep();
            return;
        }
        let f = fuel - 1;
        self.start_node(SyntaxKind::SwitchRule);
        if self.at(SyntaxKind::ThrowKw) {
            self.stmt(f);
        } else if self.at(SyntaxKind::LBrace) {
            self.block(f);
        } else {
            self.expr(f);
            self.eat(SyntaxKind::Semi);
        }
        self.finish_node();
    }

    fn try_stmt(&mut self, fuel: usize)
        requires
            old(self).ready(),
        ensures
            final(self).kept(old(self)),
            fuel > 0 ==> final(self).added_node(old(self), SyntaxKind::TryStmt),
            fuel == 0 ==> final(self).stopped(old(self)),
        decreases fuel,
    {
        if fuel == 0 {
            self.too_deep();
            return;
        }
        let f = fuel - 1;
        self.start_node(SyntaxKind::TryStmt);
        self.expect(SyntaxKind::TryKw);
        if self.at(SyntaxKind::LParen) {
            self.resources(f);
        }
        self.block(f);
        let ghost entry = *self;
        while self.at(SyntaxKind::CatchKw)
            invariant
                self.kept(&entry),
            decreases self.token_seq().len() - self.position(),
        {
            let before = self.cur_pos();
            self.catch_clause(f);
            if self.cur_pos() == before {
                break;
            }
        }
        if self.at(SyntaxKind::FinallyKw) {
            self.start_node(SyntaxKind::FinallyClause);
            self.expect(SyntaxKind::FinallyKw);
            self.block(f);
            self.finish_node();
        }
        self.finish_node();
    }

    /// `( resource; ... )` of a try-with-resources.
    fn resources(&mut self, fuel: usize)
        requires
            old(self).ready(),
        ensures
            final(self).kept(old(self)),
            fuel > 0 ==> final(self).added_node(old(self), SyntaxKind::TryWithResources),
            fuel == 0 ==> final(self).stopped(old(self)),
        decreases fuel,
    {
        if fuel == 0 {
            self.too_deep();
            return;
        }
        let f = fuel - 1;
        self.start_node(SyntaxKind::TryWithResources);
        self.expect(SyntaxKind::LParen);
        let ghost entry = *self;
        while !self.at(SyntaxKind::RParen) && !self.at(SyntaxKind::Error)
            invariant
                self.kept(&entry),
            decreases self.token_seq().len() - self.position(),
        {
            self.start_node(SyntaxKind::Resource);
            self.modifier_list(f);
            self.type_(f);
            self.expect(SyntaxKind::Ident);
            if self.eat(SyntaxKind::Eq) {
                self.expr(f);
            }
            self.finish_node();
            if !self.eat(SyntaxKind::Semi) {
                break;
            }
        }
        self.expect(SyntaxKind::RParen);
        self.finish_node();
    }

    fn catch_clause(&mut self, fuel: usize)
        requires
            old(self).ready(),
        ensures
            final(self).kept(old(self)),
            fuel > 0 ==> final(self).added_node(old(self), SyntaxKind::CatchClause),
            fuel == 0 ==> final(self).stopped(old(self)),
        decreases fuel,
    {
        if fuel == 0 {
            self.too_deep();
            return;
        }
        let f = fuel - 1;
        self.start_node(SyntaxKind::CatchClause);
        self.expect(SyntaxKind::CatchKw);
        self.expect(SyntaxKind::LParen);
        self.modifier_list(f);
        self.type_(f);
        self.expect(SyntaxKind::Ident);
        self.expect(SyntaxKind::RParen);
        self.block(f);
        self.finish_node();
    }

    /// `return [expr];`.
    fn keyword_stmt(&mut self, node: SyntaxKind, keyword: SyntaxKind, fuel: usize)
        requires
            old(self).ready(),
        ensures
            final(self).kept(old(self)),
            fuel > 0 ==> final(self).added_node(old(self), node),
            fuel == 0 ==> final(self).stopped(old(self)),
        decreases fuel,
    {
        if fuel == 0 {
            self.too_deep();
            return;
        }
        let f = fuel - 1;
        self.start_node(node);
        self.expect(keyword);
        if !self.at(SyntaxKind::Semi) {
            self.expr(f);
        }
        self.expect(SyntaxKind::Semi);
        self.finish_node();
    }

    fn throw_stmt(&mut self, fuel: usize)
        requires
            old(self).ready(),
        ensures
            final(self).kept(old(self)),
            fuel > 0 ==> final(self).added_node(old(self), SyntaxKind::ThrowStmt),
            fuel == 0 ==> final(self).stopped(old(self)),
        decreases fuel,
    {
        if fuel == 0 {
            self.too_deep();
            return;
        }
        let f = fuel - 1;
        self.start_node(SyntaxKind::ThrowStmt);
        self.expect(SyntaxKind::ThrowKw);
        self.expr(f);
        self.expect(SyntaxKind::Semi);
        self.finish_node();
    }

    /// `break [label];` and `continue [label];`.
    fn jump_stmt(&mut self, node: SyntaxKind, keyword: SyntaxKind)
        requires
            old(self).ready(),
        ensures
            final(self).kept(old(self)),
            final(self).added_node(old(self), node),
    {
        self.start_node(node);
        self.expect(keyword);
        if self.at(SyntaxKind::Ident) {
            self.bump();
        }
        self.expect(SyntaxKind::Semi);
        self.finish_node();
    }

    fn synchronized_stmt(&mut self, fuel: usize)
        requires
            old(self).ready(),
        ensures
            final(self).kept(old(self)),
            fuel > 0 ==> final(self).added_node(old(self), SyntaxKind::SynchronizedStmt),
            fuel == 0 ==> final(self).stopped(old(self)),
        decreases fuel,
    {
        if fuel == 0 {
            self.too_deep();
            return;
        }
        let f = fuel - 1;
        self.start_node(SyntaxKind::SynchronizedStmt);
        self.expect(SyntaxKind::SynchronizedKw);
        self.paren_condition(f);
        self.block(f);
        self.finish_node();
    }

    fn assert_stmt(&mut self, fuel: usize)
        requires
            old(self).ready(),
        ensures
            final(self).kept(old(self)),
            fuel > 0 ==> final(self).added_node(old(self), SyntaxKind::AssertStmt),
            fuel == 0 ==> final(self).stopped(old(self)),
        decreases fuel,
    {
        if fuel == 0 {
            self.too_deep();
            return;
        }
        let f = fuel - 1;
        self.start_node(SyntaxKind::AssertStmt);
        self.expect(SyntaxKind::AssertKw);
        self.expr(f);
        if self.eat(SyntaxKind::Colon) {
            self.expr(f);
        }
        self.expect(SyntaxKind::Semi);
        self.finish_node();
    }

    fn yield_stmt(&mut self, fuel: usize)
        requires
            old(self).ready(),
        ensures
            final(self).kept(old(self)),
            fuel > 0 ==> final(self).added_node(old(self), SyntaxKind::YieldStmt),
            fuel == 0 ==> final(self).stopped(old(self)),
        decreases fuel,
    {
        if fuel == 0 {
            self.too_deep();
            return;
        }
        let f = fuel - 1;
        self.start_node(SyntaxKind::YieldStmt);
        self.expect(SyntaxKind::YieldKw);
        self.expr(f);
        self.expect(SyntaxKind::Semi);
        self.finish_node();
    }

    /// Whether a local variable declaration starts here: a primitive type or `var`,
    /// or a type name (with arguments and dimensions) followed by a name.
    fn is_local_var_decl(&self) -> (r: bool)
        ensures
            r == self.local_decl_ahead(),
    {
        let k = self.kind();
        if is_primitive_or_void(k) || k == SyntaxKind::VarKw {
            return true;
        }
        if k != SyntaxKind::Ident {
            return false;
        }
        let n = self.token_count();
        let mut i = self.skip_type_name(self.cur_pos());
        i = self.skip_dims(i);
        i < n && self.token_kind_at(i) == SyntaxKind::Ident
    }

    fn local_var_decl(&mut self, fuel: usize)
        requires
            old(self).ready(),
        ensures
            final(self).kept(old(self)),
            fuel > 0 ==> final(self).added_node(old(self), SyntaxKind::LocalVarDecl),
            fuel == 0 ==> final(self).stopped(old(self)),
        decreases fuel,
    {
        if fuel == 0 {
            self.too_deep();
            return;
        }
        let f = fuel - 1;
        self.start_node(SyntaxKind::LocalVarDecl);
        self.type_(f);
        self.var_declarator_list(f);
        self.expect(SyntaxKind::Semi);
        self.finish_node();
    }

    fn expr_or_local_decl(&mut self, fuel: usize)
        requires
            old(self).ready(),
        ensures
            final(self).kept(old(self)),
            fuel > 1 ==> final(self).added_node(
                old(self),
                if old(self).local_decl_ahead() {
                    SyntaxKind::LocalVarDecl
                } else {
                    SyntaxKind::ExprStmt
                },
            ),
        decreases fuel,
    {
        if fuel == 0 {
            self.too_deep();
            return;
        }
        let f = fuel - 1;
        if self.is_local_var_decl() {
            self.local_var_decl(f);
        } else {
            self.start_node(SyntaxKind::ExprStmt);
            self.expr(f);
            self.expect(SyntaxKind::Semi);
            self.finish_node();
        }
    }

    fn expr(&mut self, fuel: usize)
        requires
            old(self).ready(),
        ensures
            final(self).kept(old(self)),
            fuel > 7 ==> (old(self).operand_start() matches Some(n) ==> final(self).opened(old(self), n)),
            fuel > 4 && prefix_op_kind(old(self).cur()) ==> final(self).position() > old(self).position(),
        decreases fuel,
    {
        if fuel == 0 {
            self.too_deep();
            return;
        }
        self.assignment_expr(fuel - 1);
    }

    fn assignment_expr(&mut self, fuel: usize)
        requires
            old(self).ready(),
        ensures
            final(self).kept(old(self)),
            fuel > 6 ==> (old(self).operand_start() matches Some(n) ==> final(self).opened(old(self), n)),
            fuel > 3 && prefix_op_kind(old(self).cur()) ==> final(self).position() > old(self).position(),
        decreases fuel,
    {
        if fuel == 0 {
            self.too_deep();
            return;
        }
        let f = fuel - 1;
        self.ternary_expr(f);
        if self.at_assign_op() {
            self.bump();
            self.assignment_expr(f);
        }
    }

    fn ternary_expr(&mut self, fuel: usize)
        requires
            old(self).ready(),
        ensures
            final(self).kept(old(self)),
            fuel > 5 ==> (old(self).operand_start() matches Some(n) ==> final(self).opened(old(self), n)),
            fuel > 2 && prefix_op_kind(old(self).cur()) ==> final(self).position() > old(self).position(),
        decreases fuel,
    {
        if fuel == 0 {
            self.too_deep();
            return;
        }
        let f = fuel - 1;
        self.binary_expr(0, f);
        if self.eat(SyntaxKind::Question) {
            self.expr(f);
            self.expect(SyntaxKind::Colon);
            self.ternary_expr(f);
        }
    }

    fn binary_expr(&mut self, min_prec: u8, fuel: usize)
        requires
            old(self).ready(),
        ensures
            final(self).kept(old(self)),
            fuel > 4 ==> (old(self).operand_start() matches Some(n) ==> final(self).opened(old(self), n)),
            fuel > 1 && prefix_op_kind(old(self).cur()) ==> final(self).position() > old(self).position(),
            fuel > 0 ==> binding_strength(final(self).cur()) == 0 || binding_strength(final(self).cur()) < min_prec,
        decreases fuel,
    {
        if fuel == 0 {
            self.too_deep();
            return;
        }
        let f = fuel - 1;
        self.unary_expr(f);
        let ghost entry = *self;
        loop
            invariant
                self.kept(&entry),
            decreases self.token_seq().len() - self.position(),
        {
            let prec = binop_prec(self.kind());
            if prec == 0 || prec < min_prec {
                break;
            }
            self.bump();
            self.binary_expr(prec + 1, f);
        }
    }

    fn unary_expr(&mut self, fuel: usize)
        requires
            old(self).ready(),
        ensures
            final(self).kept(old(self)),
            fuel > 3 ==> (old(self).operand_start() matches Some(n) ==> final(self).opened(old(self), n)),
            fuel > 0 && prefix_op_kind(old(self).cur()) ==> final(self).position() > old(self).position(),
        decreases fuel,
    {
        if fuel == 0 {
            self.too_deep();
            return;
        }
        let f = fuel - 1;
        let k = self.kind();
        if k == SyntaxKind::Plus || k == SyntaxKind::Minus || k == SyntaxKind::Inc || k
            == SyntaxKind::Dec || k == SyntaxKind::Tilde || k == SyntaxKind::Bang {
            self.bump();
            self.unary_expr(f);
        } else {
            self.cast_or_postfix_expr(f);
        }
    }

    fn cast_or_postfix_expr(&mut self, fuel: usize)
        requires
            old(self).ready(),
        ensures
            final(self).kept(old(self)),
            fuel > 2 ==> (old(self).operand_start() matches Some(n) ==> final(self).opened(old(self), n)),
        decreases fuel,
    {
        if fuel == 0 {
            self.too_deep();
            return;
        }
        let f = fuel - 1;
        if self.at(SyntaxKind::LParen) && self.is_cast() {
            self.start_node(SyntaxKind::CastExpr);
            self.expect(SyntaxKind::LParen);
            self.type_(f);
            self.expect(SyntaxKind::RParen);
            self.unary_expr(f);
            self.finish_node();
            self.postfix_suffix(f);
            return;
        }
        self.primary_expr(f);
        self.postfix_suffix(f);
    }

    /// Whether `(` starts a cast: a primitive type or a type name, with dimensions,
    /// and then `)`.
    fn is_cast(&self) -> (r: bool)
        ensures
            r == self.cast_ahead(),
    {
        let n = self.token_count();
        let p = self.cur_pos();
        if !(p < n && self.token_kind_at(p) == SyntaxKind::LParen) {
            return false;
        }
        let mut i = p + 1;
        if i < n && is_primitive_kind(self.token_kind_at(i)) {
            i = self.skip_dims(i + 1);
            return i < n && self.token_kind_at(i) == SyntaxKind::RParen;
        }
        if i < n && self.token_kind_at(i) == SyntaxKind::Ident {
            i = self.skip_type_name(i);
            i = self.skip_dims(i);
            if i < n && self.token_kind_at(i) == SyntaxKind::RParen {
                return true;
            }
        }
        false
    }

    fn postfix_suffix(&mut self, fuel: usize)
        requires
            old(self).ready(),
        ensures
            final(self).kept(old(self)),
            fuel > 0 && !postfix_kind(old(self).cur()) ==> final(self).stopped(old(self)),
            fuel > 0 && (old(self).cur() == SyntaxKind::Inc || old(self).cur() == SyntaxKind::Dec) ==> final(self).position()
                == old(self).position() + 1,
            fuel > 1 && postfix_kind(old(self).cur()) ==> final(self).position() > old(self).position(),
        decreases fuel,
    {
        if fuel == 0 {
            self.too_deep();
            return;
        }
        let f = fuel - 1;
        let ghost entry = *self;
        loop
            invariant
                self.kept(&entry),
                entry == *old(self),
                !postfix_kind(old(self).cur()) ==> self.stopped(old(self)),
                old(self).cur() == SyntaxKind::Inc || old(self).cur() == SyntaxKind::Dec ==> self.stopped(old(self)),
                fuel > 1 && postfix_kind(old(self).cur()) ==> (self.position() > old(self).position()
                    || self.stopped(old(self))),
            decreases self.token_seq().len() - self.position(),
        {
            let before = self.cur_pos();
            let k = self.kind();
            if k == SyntaxKind::Dot {
                self.bump();
                if self.at(SyntaxKind::NewKw) {
                    self.new_expr(f);
                } else {
                    self.expect(SyntaxKind::Ident);
                }
            } else if k == SyntaxKind::LBrack {
                self.bump();
                self.expr(f);
                self.expect(SyntaxKind::RBrack);
            } else if k == SyntaxKind::LParen {
                self.argument_list(f);
            } else if k == SyntaxKind::Inc || k == SyntaxKind::Dec {
                self.bump();
                break;
            } else {
                break;
            }
            if self.cur_pos() == before {
                break;
            }
        }
    }

    fn primary_expr(&mut self, fuel: usize)
        requires
            old(self).ready(),
        ensures
            final(self).kept(old(self)),
            fuel > 1 ==> (primary_node(old(self).cur()) matches Some(n) ==> final(self).added_node(old(self), n)),
            fuel > 0 && primary_node(old(self).cur()) is None && old(self).position() < old(self).token_seq().len()
                ==> final(self).position() == old(self).position() + 1,
        decreases fuel,
    {
        if fuel == 0 {
            self.too_deep();
            return;
        }
        let f = fuel - 1;
        let k = self.kind();
        if is_literal_kind(k) {
            self.start_node(SyntaxKind::Literal);
            self.bump();
            self.finish_node();
        } else if k == SyntaxKind::ThisKw {
            self.start_node(SyntaxKind::ThisExpr);
            self.bump();
            self.finish_node();
        } else if k == SyntaxKind::SuperKw {
            self.start_node(SyntaxKind::SuperExpr);
            self.bump();
            self.finish_node();
        } else if k == SyntaxKind::NewKw {
            self.new_expr(f);
        } else if k == SyntaxKind::SwitchKw {
            self.switch_expr(f);
        } else if k == SyntaxKind::LParen {
            self.start_node(SyntaxKind::ParenExpr);
            self.bump();
            self.expr(f);
            self.expect(SyntaxKind::RParen);
            self.finish_node();
        } else if k == SyntaxKind::Ident {
            self.name_expr();
        } else {
            let mut m = String::from_str("unexpected token in expression: ");
            m.append(k.name());
            self.err_and_bump(m);
        }
    }

    fn name_expr(&mut self)
        requires
            old(self).ready(),
        ensures
            final(self).kept(old(self)),
            final(self).added_node(old(self), SyntaxKind::Name),
    {
        self.start_node(SyntaxKind::Name);
        self.expect(SyntaxKind::Ident);
        let ghost entry = *self;
        loop
            invariant
                self.kept(&entry),
            decreases self.token_seq().len() - self.position(),
        {
            if !self.eat(SyntaxKind::Dot) {
                break;
            }
            self.start_node(SyntaxKind::MemberSelect);
            self.expect(SyntaxKind::Ident);
            self.finish_node();
        }
        self.finish_node();
    }

    fn new_expr(&mut self, fuel: usize)
        requires
            old(self).ready(),
        ensures
            final(self).kept(old(self)),
            fuel > 0 ==> final(self).added_node(old(self), SyntaxKind::NewExpr),
            fuel == 0 ==> final(self).stopped(old(self)),
        decreases fuel,
    {
        if fuel == 0 {
            self.too_deep();
            return;
        }
        let f = fuel - 1;
        self.start_node(SyntaxKind::NewExpr);
        self.expect(SyntaxKind::NewKw);
        self.start_node(SyntaxKind::Type);
        self.type_base(f);
        self.finish_node();
        if self.at(SyntaxKind::LBrack) {
            self.bump();
            if !self.at(SyntaxKind::RBrack) {
                self.expr(f);
            }
            self.expect(SyntaxKind::RBrack);
            let ghost entry = *self;
            loop
                invariant
                    self.kept(&entry),
                decreases self.token_seq().len() - self.position(),
            {
                if !self.eat(SyntaxKind::LBrack) {
                    break;
                }
                if !self.at(SyntaxKind::RBrack) {
                    self.expr(f);
                }
                self.expect(SyntaxKind::RBrack);
            }
            if self.at(SyntaxKind::LBrace) {
                self.array_init(f);
            }
        } else {
            self.argument_list(f);
            if self.at(SyntaxKind::LBrace) {
                self.class_body(f);
            }
        }
        self.finish_node();
    }

    fn array_init(&mut self, fuel: usize)
        requires
            old(self).ready(),
        ensures
            final(self).kept(old(self)),
            fuel > 0 ==> final(self).added_node(old(self), SyntaxKind::ArrayInit),
            fuel == 0 ==> final(self).stopped(old(self)),
        decreases fuel,
    {
        if fuel == 0 {
            self.too_deep();
            return;
        }
        let f = fuel - 1;
        self.start_node(SyntaxKind::ArrayInit);
        self.expect(SyntaxKind::LBrace);
        let ghost entry = *self;
        while !self.at(SyntaxKind::RBrace) && !self.at(SyntaxKind::Error)
            invariant
                self.kept(&entry),
            decreases self.token_seq().len() - self.position(),
        {
            self.expr(f);
            if !self.eat(SyntaxKind::Comma) {
                break;
            }
        }
        self.eat(SyntaxKind::Comma);
        self.expect(SyntaxKind::RBrace);
        self.finish_node();
    }

    fn argument_list(&mut self, fuel: usize)
        requires
            old(self).ready(),
        ensures
            final(self).kept(old(self)),
            fuel > 0 && old(self).cur() == SyntaxKind::LParen ==> final(self).position() > old(self).position(),
            fuel > 0 && old(self).cur() == SyntaxKind::LParen && old(self).kind_at(old(self).position() + 1) == SyntaxKind::RParen
                ==> final(self).position() == old(self).position() + 2,
        decreases fuel,
    {
        if fuel == 0 {
            self.too_deep();
            return;
        }
        let f = fuel - 1;
        self.expect(SyntaxKind::LParen);
        if !self.at(SyntaxKind::RParen) {
            self.expr_list(f);
        }
        self.expect(SyntaxKind::RParen);
    }

    fn expr_list(&mut self, fuel: usize)
        requires
            old(self).ready(),
        ensures
            final(self).kept(old(self)),
            fuel > 8 ==> (old(self).operand_start() matches Some(n) ==> final(self).opened(old(self), n)),
            fuel > 0 ==> final(self).cur() != SyntaxKind::Comma,
        decreases fuel,
    {
        if fuel == 0 {
            self.too_deep();
            return;
        }
        let f = fuel - 1;
        self.expr(f);
        let ghost entry = *self;
        loop
            invariant
                self.kept(&entry),
            decreases self.token_seq().len() - self.position(),
        {
            if !self.eat(SyntaxKind::Comma) {
                break;
            }
            self.expr(f);
        }
    }
}

/// The modifier keywords.
pub open spec fn modifier_kind(k: SyntaxKind) -> bool {
    k == SyntaxKind::PublicKw || k == SyntaxKind::ProtectedKw || k == SyntaxKind::PrivateKw || k
        == SyntaxKind::AbstractKw || k == SyntaxKind::FinalKw || k == SyntaxKind::StaticKw || k
        == SyntaxKind::StrictfpKw || k == SyntaxKind::SealedKw || k == SyntaxKind::NonSealedKw || k
        == SyntaxKind::NativeKw || k == SyntaxKind::SynchronizedKw || k == SyntaxKind::TransientKw
        || k == SyntaxKind::VolatileKw || k == SyntaxKind::DefaultKw
}

/// The tokens a type declaration can start with.
pub open spec fn type_decl_start_kind(k: SyntaxKind) -> bool {
    k == SyntaxKind::ClassKw || k == SyntaxKind::InterfaceKw || k == SyntaxKind::EnumKw || k
        == SyntaxKind::RecordKw || k == SyntaxKind::At || k == SyntaxKind::PublicKw || k
        == SyntaxKind::ProtectedKw || k == SyntaxKind::PrivateKw || k == SyntaxKind::AbstractKw || k
        == SyntaxKind::FinalKw || k == SyntaxKind::StaticKw || k == SyntaxKind::StrictfpKw || k
        == SyntaxKind::SealedKw || k == SyntaxKind::NonSealedKw
}

/// The assignment operators.
pub open spec fn assign_op_kind(k: SyntaxKind) -> bool {
    k == SyntaxKind::Eq || k == SyntaxKind::PlusEq || k == SyntaxKind::MinusEq || k == SyntaxKind::StarEq
        || k == SyntaxKind::SlashEq || k == SyntaxKind::AmpEq || k == SyntaxKind::PipeEq || k
        == SyntaxKind::CaretEq || k == SyntaxKind::PercentEq || k == SyntaxKind::LtLtEq || k
        == SyntaxKind::GtGtEq || k == SyntaxKind::GtGtGtEq
}

/// The primitive type keywords.
pub open spec fn primitive_kind(k: SyntaxKind) -> bool {
    k == SyntaxKind::IntKw || k == SyntaxKind::LongKw || k == SyntaxKind::ShortKw || k == SyntaxKind::ByteKw
        || k == SyntaxKind::CharKw || k == SyntaxKind::FloatKw || k == SyntaxKind::DoubleKw || k
        == SyntaxKind::BooleanKw
}

pub open spec fn primitive_or_void_kind(k: SyntaxKind) -> bool {
    primitive_kind(k) || k == SyntaxKind::VoidKw
}

/// The literal tokens.
pub open spec fn literal_token_kind(k: SyntaxKind) -> bool {
    k == SyntaxKind::IntLiteral || k == SyntaxKind::LongLiteral || k == SyntaxKind::FloatLiteral || k
        == SyntaxKind::DoubleLiteral || k == SyntaxKind::CharLiteral || k == SyntaxKind::StringLiteral
        || k == SyntaxKind::TextBlockLiteral || k == SyntaxKind::TrueKw || k == SyntaxKind::FalseKw || k
        == SyntaxKind::NullKw
}

/// The prefix operators.
pub open spec fn prefix_op_kind(k: SyntaxKind) -> bool {
    k == SyntaxKind::Plus || k == SyntaxKind::Minus || k == SyntaxKind::Inc || k == SyntaxKind::Dec || k
        == SyntaxKind::Tilde || k == SyntaxKind::Bang
}

/// The node a primary expression makes, by its first token; `None` where it
/// starts none.
pub open spec fn primary_node(k: SyntaxKind) -> Option<SyntaxKind> {
    if literal_token_kind(k) {
        Some(SyntaxKind::Literal)
    } else if k == SyntaxKind::ThisKw {
        Some(SyntaxKind::ThisExpr)
    } else if k == SyntaxKind::SuperKw {
        Some(SyntaxKind::SuperExpr)
    } else if k == SyntaxKind::NewKw {
        Some(SyntaxKind::NewExpr)
    } else if k == SyntaxKind::SwitchKw {
        Some(SyntaxKind::SwitchStmt)
    } else if k == SyntaxKind::LParen {
        Some(SyntaxKind::ParenExpr)
    } else if k == SyntaxKind::Ident {
        Some(SyntaxKind::Name)
    } else {
        None
    }
}

/// The tokens that continue an expression after its operand.
pub open spec fn postfix_kind(k: SyntaxKind) -> bool {
    k == SyntaxKind::Dot || k == SyntaxKind::LBrack || k == SyntaxKind::LParen || k == SyntaxKind::Inc || k
        == SyntaxKind::Dec
}

/// The binding strength of a binary operator (higher binds tighter); 0 for
/// tokens that are none.
pub open spec fn binding_strength(k: SyntaxKind) -> u8 {
    match k {
        SyntaxKind::PipePipe => 1,
        SyntaxKind::AmpAmp => 2,
        SyntaxKind::Pipe => 3,
        SyntaxKind::Caret => 4,
        SyntaxKind::Amp => 5,
        SyntaxKind::EqEq | SyntaxKind::Neq => 6,
        SyntaxKind::Lt | SyntaxKind::Gt | SyntaxKind::Le | SyntaxKind::Ge | SyntaxKind::InstanceofKw => 7,
        SyntaxKind::LtLt | SyntaxKind::GtGt | SyntaxKind::GtGtGt => 8,
        SyntaxKind::Plus | SyntaxKind::Minus => 9,
        SyntaxKind::Star | SyntaxKind::Slash | SyntaxKind::Percent => 10,
        _ => 0,
    }
}

/// The binding strength of a binary operator; 0 for tokens that are none.
pub fn binop_prec(k: SyntaxKind) -> (r: u8)
    ensures
        r == binding_strength(k),
        r <= 10,
{
    match k {
        SyntaxKind::PipePipe => 1,
        SyntaxKind::AmpAmp => 2,
        SyntaxKind::Pipe => 3,
        SyntaxKind::Caret => 4,
        SyntaxKind::Amp => 5,
        SyntaxKind::EqEq | SyntaxKind::Neq => 6,
        SyntaxKind::Lt | SyntaxKind::Gt | SyntaxKind::Le | SyntaxKind::Ge | SyntaxKind::InstanceofKw => 7,
        SyntaxKind::LtLt | SyntaxKind::GtGt | SyntaxKind::GtGtGt => 8,
        SyntaxKind::Plus | SyntaxKind::Minus => 9,
        SyntaxKind::Star | SyntaxKind::Slash | SyntaxKind::Percent => 10,
        _ => 0,
    }
}

pub fn is_primitive_kind(k: SyntaxKind) -> (r: bool)
    ensures
        r == (k == SyntaxKind::IntKw || k == SyntaxKind::LongKw || k == SyntaxKind::ShortKw || k
            == SyntaxKind::ByteKw || k == SyntaxKind::CharKw || k == SyntaxKind::FloatKw || k
            == SyntaxKind::DoubleKw || k == SyntaxKind::BooleanKw),
{
    k == SyntaxKind::IntKw || k == SyntaxKind::LongKw || k == SyntaxKind::ShortKw || k
        == SyntaxKind::ByteKw || k == SyntaxKind::CharKw || k == SyntaxKind::FloatKw || k
        == SyntaxKind::DoubleKw || k == SyntaxKind::BooleanKw
}

fn is_primitive_or_void(k: SyntaxKind) -> (r: bool)
    ensures
        r == primitive_or_void_kind(k),
{
    is_primitive_kind(k) || k == SyntaxKind::VoidKw
}

fn is_literal_kind(k: SyntaxKind) -> (r: bool)
    ensures
        r == literal_token_kind(k),
{
    k == SyntaxKind::IntLiteral || k == SyntaxKind::LongLiteral || k == SyntaxKind::FloatLiteral || k
        == SyntaxKind::DoubleLiteral || k == SyntaxKind::CharLiteral || k == SyntaxKind::StringLiteral
        || k == SyntaxKind::TextBlockLiteral || k == SyntaxKind::TrueKw || k == SyntaxKind::FalseKw
        || k == SyntaxKind::NullKw
}

/// The builder step that stands for an event.
pub open spec fn event_step(e: Event) -> (u8, u16, Seq<char>) {
    match e {
        Event::Start(k) => (0u8, kind_number(k), Seq::<char>::empty()),
        Event::Token(k, t) => (1u8, kind_number(k), t@),
        Event::Finish => (2u8, 0u16, Seq::<char>::empty()),
    }
}

pub open spec fn event_steps(evs: Seq<Event>) -> Seq<(u8, u16, Seq<char>)> {
    evs.map_values(|e: Event| event_step(e))
}

proof fn lemma_event_steps(evs: Seq<Event>)
    ensures
        log_depth(event_steps(evs)) == depth(evs),
        log_text(event_steps(evs)) == event_text(evs),
    decreases evs.len(),
{
    if evs.len() > 0 {
        assert(event_steps(evs).drop_last() =~= event_steps(evs.drop_last()));
        lemma_event_steps(evs.drop_last());
    }
}

proof fn lemma_event_steps_take(evs: Seq<Event>, k: int)
    requires
        0 <= k <= evs.len(),
    ensures
        event_steps(evs).take(k) == event_steps(evs.take(k)),
{
    assert(event_steps(evs).take(k) =~= event_steps(evs.take(k)));
}

/// Builds the green tree that the events describe.
pub fn build_green(events: &Vec<Event>) -> (r: rowan::GreenNode)
    requires
        single_root(events@),
    ensures
        green_text(r) == event_text(events@),
{
    let mut b = builder_new();
    let n = events.len();
    let mut i: usize = 0;
    while i < n
        invariant
            n == events@.len(),
            i <= n,
            single_root(events@),
            builder_log(b) == event_steps(events@.take(i as int)),
        decreases n - i,
    {
        let ghost before = events@.take(i as int);
        proof {
            assert(events@.take(i + 1) =~= before.push(events@[i as int]));
            assert(event_steps(before.push(events@[i as int])) =~= event_steps(before).push(
                event_step(events@[i as int]),
            ));
        }
        match &events[i] {
            Event::Start(k) => {
                builder_start_node(&mut b, k.raw());
            },
            Event::Token(k, t) => {
                builder_token(&mut b, k.raw(), t.as_str());
            },
            Event::Finish => {
                proof {
                    lemma_event_steps(before);
                    assert(i >= 1) by {
                        if i == 0 {
                            assert(events@[0] is Start);
                        }
                    }
                }
                builder_finish_node(&mut b);
            },
        }
        i = i + 1;
    }
    proof {
        assert(events@.take(n as int) =~= events@);
        lemma_event_steps(events@);
        assert forall|k: int| 1 <= k < event_steps(events@).len() implies log_depth(
            #[trigger] event_steps(events@).take(k),
        ) >= 1 by {
            lemma_event_steps_take(events@, k);
            lemma_event_steps(events@.take(k));
        }
    }
    builder_finish(b)
}

/// What a parse of `source` is: one root compilation-unit node whose lossless
/// green tree holds the whole source, every token and all trivia, and no
/// errors for a source without tokens.
pub open spec fn parse_of(source: Seq<char>, r: Parse) -> bool {
    &&& single_root(r.events@)
    &&& r.events@[0] == Event::Start(SyntaxKind::CompilationUnit)
    &&& green_text(r.green_node) == source
    &&& event_text(r.events@) == source
    &&& r.consumed <= source.len()
    &&& lex_from(source, 0).len() == 0 ==> r.errors@.len() == 0
}

impl Parser {
    /// Adds the tokens that the grammar left, each as it stands, to the root node.
    fn keep_rest(&mut self)
        requires
            old(self).ready(),
        ensures
            final(self).inv(),
            final(self).source() == old(self).source(),
            final(self).token_seq() == old(self).token_seq(),
            final(self).open_nodes() == old(self).open_nodes(),
            final(self).position() == final(self).token_seq().len(),
            final(self).extends(old(self)),
            final(self).error_seq() == old(self).error_seq(),
    {
        while self.pos < self.tokens.len()
            invariant
                self.inv(),
                self.position() <= self.token_seq().len(),
                self.source() == old(self).source(),
                self.token_seq() == old(self).token_seq(),
                self.open_nodes() == old(self).open_nodes(),
                self.extends(old(self)),
                self.error_seq() == old(self).error_seq(),
            decreases self.token_seq().len() - self.position(),
        {
            let ghost mid = *self;
            self.bump();
            proof {
                assert forall|i: int| 0 <= i < old(self).event_seq().len() implies #[trigger] self.event_seq()[i]
                    == old(self).event_seq()[i] by {
                    assert(self.event_seq()[i] == mid.event_seq()[i]);
                }
                assert(old(self).event_seq().len() <= self.event_seq().len());
            }
        }
    }

    /// Closes the root node, after the whitespace and comments that follow the
    /// last token.
    fn finish_root(&mut self)
        requires
            old(self).inv(),
            old(self).open_nodes() == 1,
            old(self).position() == old(self).token_seq().len(),
        ensures
            single_root(final(self).event_seq()),
            event_text(final(self).event_seq()) == final(self).source(),
            final(self).source() == old(self).source(),
            final(self).token_seq() == old(self).token_seq(),
            final(self).position() == old(self).position(),
            final(self).position() <= final(self).token_seq().len(),
            final(self).event_seq()[0] == Event::Start(SyntaxKind::CompilationUnit),
            tokens_ok(final(self).source(), final(self).token_seq()),
            final(self).error_seq() == old(self).error_seq(),
    {
        proof {
            reveal(Parser::inv);
            assert(self.trivia_end <= self.src@.len()) by {
                if self.pos > 0 {
                    assert(self.tokens@[self.pos - 1].end <= self.src@.len());
                }
            }
        }
        let len = self.src.len();
        if self.trivia_end < len {
            let ws = string_of(&self.src.as_slice()[self.trivia_end..len]);
            let ghost s = self.src@;
            let ghost te = self.trivia_end as int;
            proof {
                Self::lemma_push_token(self.events@, SyntaxKind::Whitespace, ws);
                assert(s.take(te) + s.subrange(te, len as int) =~= s.take(len as int));
            }
            let ghost before = self.events@;
            self.events.push(Event::Token(SyntaxKind::Whitespace, ws));
            proof {
                let evs = self.events@;
                assert(evs.drop_last() == before);
                assert forall|k: int| 1 <= k <= evs.len() implies depth(#[trigger] evs.take(k)) >= 1 by {
                    if k == evs.len() {
                        assert(evs.take(k) == evs);
                        assert(depth(evs) == depth(before));
                        assert(before.take(before.len() as int) == before);
                    } else {
                        assert(evs.take(k) == before.take(k));
                    }
                }
            }
            self.trivia_end = len;
        }
        proof {
            assert(self.src@.take(len as int) =~= self.src@);
            Self::lemma_push_depth(self.events@, Event::Finish);
        }
        let ghost prev = self.events@;
        self.events.push(Event::Finish);
        self.open = 0;
        proof {
            let evs = self.events@;
            assert(evs.drop_last() == prev);
            assert(event_text(evs) == event_text(prev));
            assert(evs.len() >= 2);
            assert(evs[0] is Start);
            assert forall|k: int| 1 <= k < evs.len() implies depth(#[trigger] evs.take(k)) >= 1 by {
                assert(evs.take(k) == prev.take(k));
            }
        }
    }

    /// Parses `source` as a compilation unit. The tree is lossless: tokens that
    /// the grammar leaves after the last declaration, and the trivia at the end,
    /// stand in the root node, so the tree's text is the whole source.
    #[verifier::rlimit(50)]
    #[verifier::spinoff_prover]
    pub fn parse(source: &str) -> (r: Parse)
        requires
            byte_len(source@) <= u32::MAX,
        ensures
            single_root(r.events@),
            r.events@[0] == Event::Start(SyntaxKind::CompilationUnit),
            green_text(r.green_node) == source@,
            event_text(r.events@) == source@,
            r.consumed <= source@.len(),
            lex_from(source@, 0).len() == 0 ==> r.errors@.len() == 0,
            parse_of(source@, r),
    {
        let mut p = Parser::begin(source);
        let n = p.token_count();
        let fuel: usize = if n < 1_000_000 {
            64 * n + 64
        } else {
            64_000_064
        };
        p.compilation_unit(fuel);
        let consumed = p.consumed_chars();
        p.keep_rest();
        p.finish_root();
        let green_node = build_green(&p.events);
        Parse { green_node, events: p.events, errors: p.errors, consumed }
    }
}

impl Parser {
    /// The number of characters up to the end of the last consumed token.
    fn consumed_chars(&self) -> (r: usize)
        requires
            self.inv(),
        ensures
            r == consumed_end(self.token_seq(), self.position()),
            r <= self.source().len(),
    {
        proof {
            reveal(Parser::inv);
        }
        if self.pos == 0 {
            0
        } else {
            let k = self.pos - 1;
            proof {
                assert(self.tokens@[k as int].end <= self.src@.len());
            }
            self.tokens[k].end
        }
    }
}

impl Parse {
    /// The text of the tree.
    pub fn text(&self) -> (r: String)
        ensures
            r@ == green_text(self.green_node),
    {
        green_node_text(&self.green_node)
    }
}

} // verus!
