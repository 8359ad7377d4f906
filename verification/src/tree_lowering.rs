//! Tree lowering: from the parser's event stream (a syntax tree written as
//! start, token and finish events) to the HIR of a compilation unit.
use vstd::prelude::*;
use crate::expr_lowering::{LOWER_FUEL, has_refused_member, lower_class_methods};
use crate::hir::{CompilationUnit, HirId, Import, Package, TypeDecl, TypeDeclKind};
use crate::lowering::{ExprToken, LowerError, TypeResolver};
use crate::diagnostics::TextRange;
use crate::lexer::byte_len;
use crate::parser::event_text;
use crate::text::chars_of;
use crate::opcodes;
use crate::parser::Event;
use crate::syntax::SyntaxKind;
use crate::text::{replace_char, replace_char_exec};
use crate::ty::{Ty, TyModel, object_name};

verus! {

/// The number of line breaks in `s`.
pub open spec fn newlines(s: Seq<char>) -> nat
    decreases s.len(),
{
    if s.len() == 0 {
        0
    } else {
        newlines(s.drop_last()) + if s.last() == '\n' {
            1nat
        } else {
            0nat
        }
    }
}

/// `n`, or the largest `u32` where `n` is larger.
pub open spec fn sat32(n: int) -> u32 {
    if n >= u32::MAX {
        u32::MAX
    } else {
        n as u32
    }
}

/// `n`, or the largest `u16` where `n` is larger.
pub open spec fn sat16(n: int) -> u16 {
    if n >= u16::MAX {
        u16::MAX
    } else {
        n as u16
    }
}

/// Where a token with text `t` stands after the text `before`: its line,
/// counted from one, and its byte range; each capped at its type's largest value.
pub open spec fn place_after(before: Seq<char>, t: Seq<char>) -> (u16, TextRange) {
    (
        sat16((newlines(before) + 1) as int),
        TextRange { start: sat32((byte_len(before)) as int), end: sat32((byte_len(before) + byte_len(t)) as int) },
    )
}

/// The places of the expression tokens among the events in `[from, to)`, each
/// measured from the start of the events.
pub open spec fn token_places(evs: Seq<Event>, from: int, to: int) -> Seq<(u16, TextRange)>
    decreases to - from,
{
    if from < 0 || to <= from || to > evs.len() {
        Seq::empty()
    } else {
        let rest = token_places(evs, from, to - 1);
        match evs[to - 1] {
            Event::Token(k, t) => if is_expr_token_kind(k) {
                rest.push(place_after(event_text(evs.take(to - 1)), t@))
            } else {
                rest
            },
            _ => rest,
        }
    }
}

/// The line and range of each token.
pub open spec fn place_view(ts: Seq<ExprToken>) -> Seq<(u16, TextRange)> {
    ts.map_values(|t: ExprToken| (t.line, t.range))
}

pub proof fn lemma_byte_len_concat(a: Seq<char>, b: Seq<char>)
    ensures
        byte_len(a + b) == byte_len(a) + byte_len(b),
        newlines(a + b) == newlines(a) + newlines(b),
    decreases b.len(),
{
    if b.len() == 0 {
        assert(a + b =~= a);
    } else {
        assert((a + b).drop_last() =~= a + b.drop_last());
        lemma_byte_len_concat(a, b.drop_last());
    }
}

/// The byte and line-break counts moved past the text `t`, each capped.
fn advance(bytes: u32, lines: u16, t: &str) -> (r: (u32, u16))
    ensures
        r.0 == sat32((bytes + byte_len(t@)) as int),
        r.1 == sat16((lines + newlines(t@)) as int),
{
    let cs = chars_of(t);
    let mut b: u32 = bytes;
    let mut l: u16 = lines;
    let mut i: usize = 0;
    while i < cs.len()
        invariant
            cs@ == t@,
            i <= cs@.len(),
            b == sat32((bytes + byte_len(cs@.take(i as int))) as int),
            l == sat16((lines + newlines(cs@.take(i as int))) as int),
        decreases cs@.len() - i,
    {
        let c = cs[i];
        let w: u32 = if (c as u32) < 0x80 {
            1
        } else if (c as u32) < 0x800 {
            2
        } else if (c as u32) < 0x10000 {
            3
        } else {
            4
        };
        proof {
            assert(cs@.take(i + 1).drop_last() =~= cs@.take(i as int));
            assert(cs@.take(i + 1).last() == c);
        }
        b = if b > u32::MAX - w {
            u32::MAX
        } else {
            b + w
        };
        if c == '\n' && l < u16::MAX {
            l = l + 1;
        }
        i = i + 1;
    }
    proof {
        assert(cs@.take(cs@.len() as int) =~= cs@);
    }
    (b, l)
}

/// The byte and line-break counts of the text of the events before `end`.
fn text_counts(evs: &Vec<Event>, end: usize) -> (r: (u32, u16))
    requires
        end <= evs@.len(),
    ensures
        r.0 == sat32((byte_len(event_text(evs@.take(end as int)))) as int),
        r.1 == sat16((newlines(event_text(evs@.take(end as int))) + 1) as int),
{
    let mut b: u32 = 0;
    let mut l: u16 = 1;
    let mut i: usize = 0;
    proof {
        assert(evs@.take(0) =~= Seq::<Event>::empty());
    }
    while i < end
        invariant
            i <= end <= evs@.len(),
            b == sat32((byte_len(event_text(evs@.take(i as int)))) as int),
            l == sat16((newlines(event_text(evs@.take(i as int))) + 1) as int),
        decreases end - i,
    {
        let ghost before = event_text(evs@.take(i as int));
        proof {
            assert(evs@.take(i + 1).drop_last() =~= evs@.take(i as int));
            assert(evs@.take(i + 1).last() == evs@[i as int]);
        }
        match &evs[i] {
            Event::Token(_, t) => {
                let (b2, l2) = advance(b, l, t.as_str());
                proof {
                    lemma_byte_len_concat(before, t@);
                }
                b = b2;
                l = l2;
            },
            _ => {
                proof {
                    assert(event_text(evs@.take(i + 1)) =~= before);
                }
            },
        }
        i = i + 1;
    }
    (b, l)
}

/// The line of the first token in `[start, end)` that is not trivia; the line
/// at `start` where there is none.
fn first_token_line(evs: &Vec<Event>, start: usize, end: usize) -> (r: u16)
    requires
        start <= end <= evs@.len(),
{
    let mut j = start;
    while j < end
        invariant
            start <= j <= end <= evs@.len(),
        decreases end - j,
    {
        match &evs[j] {
            Event::Token(k, _) => {
                if *k != SyntaxKind::Whitespace && *k != SyntaxKind::Comment {
                    return text_counts(evs, j).1;
                }
            },
            _ => {},
        }
        j = j + 1;
    }
    text_counts(evs, start).1
}

/// Whether a token takes part in an expression: anything but trivia and `;`.
pub open spec fn is_expr_token_kind(k: SyntaxKind) -> bool {
    k != SyntaxKind::Semi && k != SyntaxKind::Whitespace && k != SyntaxKind::Comment
}

/// The expression tokens among the events, in order, by kind and text.
pub open spec fn token_list(evs: Seq<Event>) -> Seq<(SyntaxKind, Seq<char>)>
    decreases evs.len(),
{
    if evs.len() == 0 {
        Seq::empty()
    } else {
        let rest = token_list(evs.drop_last());
        match evs.last() {
            Event::Token(k, t) => if is_expr_token_kind(k) {
                rest.push((k, t@))
            } else {
                rest
            },
            _ => rest,
        }
    }
}

/// Tokens by kind and text.
pub open spec fn token_view(ts: Seq<ExprToken>) -> Seq<(SyntaxKind, Seq<char>)> {
    ts.map_values(|t: ExprToken| (t.kind, t.text@))
}

/// Whether a token of kind `k` lies among the events.
pub open spec fn has_token_kind(evs: Seq<Event>, k: SyntaxKind) -> bool {
    exists|i: int| 0 <= i < evs.len() && ((#[trigger] evs[i]) matches Event::Token(tk, _) && tk == k)
}

/// Scanning from `i` with `depth` nodes open: the index of the finish event that
/// closes the outermost, or the end of the events.
pub open spec fn close_scan(evs: Seq<Event>, i: int, depth: int) -> int
    decreases evs.len() - i,
{
    if i < 0 || i >= evs.len() {
        evs.len() as int
    } else {
        match evs[i] {
            Event::Start(_) => close_scan(evs, i + 1, depth + 1),
            Event::Finish => if depth == 1 {
                i
            } else {
                close_scan(evs, i + 1, depth - 1)
            },
            Event::Token(_, _) => close_scan(evs, i + 1, depth),
        }
    }
}

/// The index after the element at `i`, at most `end`: past the whole node where
/// one opens at `i`.
pub open spec fn sibling_after(evs: Seq<Event>, i: int, end: int) -> int {
    match evs[i] {
        Event::Start(_) => {
            let e = close_scan(evs, i + 1, 1);
            if e < end {
                e + 1
            } else {
                end
            }
        },
        _ => i + 1,
    }
}

pub proof fn lemma_close_scan(evs: Seq<Event>, i: int, depth: int)
    requires
        0 <= i,
    ensures
        i <= close_scan(evs, i, depth) <= evs.len() || i > evs.len(),
    decreases evs.len() - i,
{
    if i < evs.len() {
        lemma_close_scan(evs, i + 1, depth + 1);
        lemma_close_scan(evs, i + 1, depth - 1);
        lemma_close_scan(evs, i + 1, depth);
    }
}

/// The first child node of kind `k` among the elements from `i` to `end`, as
/// the range of its events.
pub open spec fn first_child_node(evs: Seq<Event>, i: int, end: int, k: SyntaxKind) -> Option<(int, int)>
    decreases end - i,
{
    if i < 0 || i >= end || end > evs.len() {
        None
    } else {
        let next = sibling_after(evs, i, end);
        proof {
            lemma_close_scan(evs, i + 1, 1);
        }
        if evs[i] == Event::Start(k) {
            Some((i, next))
        } else {
            first_child_node(evs, next, end, k)
        }
    }
}

/// The text of the first direct token child of kind `k` among the elements from
/// `i` to `end`.
pub open spec fn first_child_token(evs: Seq<Event>, i: int, end: int, k: SyntaxKind) -> Option<Seq<char>>
    decreases end - i,
{
    if i < 0 || i >= end || end > evs.len() {
        None
    } else {
        let next = sibling_after(evs, i, end);
        proof {
            lemma_close_scan(evs, i + 1, 1);
        }
        match evs[i] {
            Event::Token(c, t) => if c == k {
                Some(t@)
            } else {
                first_child_token(evs, next, end, k)
            },
            _ => first_child_token(evs, next, end, k),
        }
    }
}

/// Where the node opened at `start` closes: the index of its finish event, or
/// the end of the events when it never closes.
pub fn node_end(evs: &Vec<Event>, start: usize) -> (r: usize)
    requires
        start < evs@.len(),
    ensures
        start < r <= evs@.len(),
        r == close_scan(evs@, start + 1, 1),
{
    let n = evs.len();
    let mut depth: usize = 1;
    let mut i = start + 1;
    while i < n
        invariant
            start < i <= n == evs@.len(),
            1 <= depth <= i - start,
            close_scan(evs@, i as int, depth as int) == close_scan(evs@, start + 1, 1),
        decreases n - i,
    {
        match &evs[i] {
            Event::Start(_) => {
                depth = depth + 1;
            },
            Event::Finish => {
                if depth == 1 {
                    return i;
                }
                depth = depth - 1;
            },
            Event::Token(_, _) => {},
        }
        i = i + 1;
    }
    n
}

/// The index after the element at `i` (a whole node when one opens there), at
/// most `end`.
pub fn next_sibling(evs: &Vec<Event>, i: usize, end: usize) -> (r: usize)
    requires
        i < end <= evs@.len(),
    ensures
        i < r <= end,
        r == sibling_after(evs@, i as int, end as int),
{
    match &evs[i] {
        Event::Start(_) => {
            let e = node_end(evs, i);
            if e < end {
                e + 1
            } else {
                end
            }
        },
        _ => i + 1,
    }
}

/// The first child node of kind `k` among the children in `(start, end)`, as the
/// range of its events.
pub fn child_node(evs: &Vec<Event>, start: usize, end: usize, k: SyntaxKind) -> (r: Option<(usize, usize)>)
    requires
        start < end <= evs@.len(),
    ensures
        r matches Some((s, e)) ==> start < s < e <= end && evs@[s as int] == Event::Start(k),
        match r {
            Some((s, e)) => first_child_node(evs@, start + 1, end as int, k) == Some((s as int, e as int)),
            None => first_child_node(evs@, start + 1, end as int, k) is None,
        },
{
    let mut i = start + 1;
    while i < end
        invariant
            start < i <= end <= evs@.len(),
            first_child_node(evs@, i as int, end as int, k) == first_child_node(evs@, start + 1, end as int, k),
        decreases end - i,
    {
        let next = next_sibling(evs, i, end);
        match &evs[i] {
            Event::Start(c) => {
                if *c == k {
                    return Some((i, next));
                }
            },
            _ => {},
        }
        i = next;
    }
    None
}

/// The text of the first direct token child of kind `k` in `(start, end)`.
pub fn child_token(evs: &Vec<Event>, start: usize, end: usize, k: SyntaxKind) -> (r: Option<String>)
    requires
        start < end <= evs@.len(),
    ensures
        r matches Some(t) ==> exists|i: int| start < i < end && evs@[i] == Event::Token(k, t),
        match r {
            Some(t) => first_child_token(evs@, start + 1, end as int, k) == Some(t@),
            None => first_child_token(evs@, start + 1, end as int, k) is None,
        },
{
    let mut i = start + 1;
    while i < end
        invariant
            start < i <= end <= evs@.len(),
            first_child_token(evs@, i as int, end as int, k) == first_child_token(evs@, start + 1, end as int, k),
        decreases end - i,
    {
        let next = next_sibling(evs, i, end);
        match &evs[i] {
            Event::Token(c, t) => {
                if *c == k {
                    return Some(t.clone());
                }
            },
            _ => {},
        }
        i = next;
    }
    None
}

/// Whether a token of kind `k` lies in `[start, end)` (`any` over descendant tokens).
pub fn has_token(evs: &Vec<Event>, start: usize, end: usize, k: SyntaxKind) -> (r: bool)
    requires
        start <= end <= evs@.len(),
    ensures
        r == has_token_kind(evs@.subrange(start as int, end as int), k),
{
    let mut i = start;
    while i < end
        invariant
            start <= i <= end <= evs@.len(),
            forall|j: int| start <= j < i ==> !((#[trigger] evs@[j]) matches Event::Token(tk, _) && tk == k),
        decreases end - i,
    {
        match &evs[i] {
            Event::Token(c, _) => {
                if *c == k {
                    proof {
                        assert(evs@.subrange(start as int, end as int)[i - start] == evs@[i as int]);
                    }
                    return true;
                }
            },
            _ => {},
        }
        i = i + 1;
    }
    proof {
        let s = evs@.subrange(start as int, end as int);
        assert forall|j: int| 0 <= j < s.len() implies !((#[trigger] s[j]) matches Event::Token(tk, _) && tk == k) by {
            assert(s[j] == evs@[start + j]);
        }
    }
    false
}

/// Whether an event is a token of kind `k`.
pub open spec fn is_token_of(e: Event, k: SyntaxKind) -> bool {
    e matches Event::Token(tk, _) && tk == k
}

/// The number of tokens of kind `k` among the events.
pub open spec fn count_kind(evs: Seq<Event>, k: SyntaxKind) -> nat
    decreases evs.len(),
{
    if evs.len() == 0 {
        0
    } else {
        count_kind(evs.drop_last(), k) + if is_token_of(evs.last(), k) {
            1nat
        } else {
            0nat
        }
    }
}

/// The number of tokens of kind `k` in `[start, end)`.
pub fn count_tokens(evs: &Vec<Event>, start: usize, end: usize, k: SyntaxKind) -> (r: usize)
    requires
        start <= end <= evs@.len(),
    ensures
        r == count_kind(evs@.subrange(start as int, end as int), k),
        r <= end - start,
{
    let mut n: usize = 0;
    let mut i = start;
    while i < end
        invariant
            start <= i <= end <= evs@.len(),
            n <= i - start,
            n == count_kind(evs@.subrange(start as int, i as int), k),
        decreases end - i,
    {
        proof {
            assert(evs@.subrange(start as int, i + 1).drop_last() =~= evs@.subrange(start as int, i as int));
        }
        match &evs[i] {
            Event::Token(c, _) => {
                if *c == k {
                    n = n + 1;
                }
            },
            _ => {},
        }
        i = i + 1;
    }
    n
}

/// The expression tokens in `[start, end)`: every token but trivia and `;`,
/// each with its line and byte range, measured from the start of the events.
pub fn expr_tokens(evs: &Vec<Event>, start: usize, end: usize) -> (r: Vec<ExprToken>)
    requires
        start <= end <= evs@.len(),
    ensures
        token_view(r@) == token_list(evs@.subrange(start as int, end as int)),
        place_view(r@) == token_places(evs@, start as int, end as int),
{
    let (mut b, mut l) = text_counts(evs, start);
    let mut out: Vec<ExprToken> = Vec::new();
    let mut i = start;
    proof {
        assert(place_view(out@) =~= token_places(evs@, start as int, start as int));
    }
    while i < end
        invariant
            start <= i <= end <= evs@.len(),
            token_view(out@) == token_list(evs@.subrange(start as int, i as int)),
            place_view(out@) == token_places(evs@, start as int, i as int),
            b == sat32((byte_len(event_text(evs@.take(i as int)))) as int),
            l == sat16((newlines(event_text(evs@.take(i as int))) + 1) as int),
        decreases end - i,
    {
        let ghost before = out@;
        let ghost text_before = event_text(evs@.take(i as int));
        proof {
            assert(evs@.subrange(start as int, i + 1).drop_last() =~= evs@.subrange(start as int, i as int));
            assert(evs@.take(i + 1).drop_last() =~= evs@.take(i as int));
            assert(evs@.take(i + 1).last() == evs@[i as int]);
        }
        match &evs[i] {
            Event::Token(k, t) => {
                let (b2, l2) = advance(b, l, t.as_str());
                proof {
                    lemma_byte_len_concat(text_before, t@);
                }
                if *k != SyntaxKind::Semi && *k != SyntaxKind::Whitespace && *k != SyntaxKind::Comment {
                    let (b3, _) = advance(b, 0, t.as_str());
                    out.push(ExprToken { kind: *k, text: t.clone(), line: l, range: TextRange { start: b, end: b3 } });
                    proof {
                        assert(token_view(out@) =~= token_view(before).push((*k, t@)));
                        assert(place_view(out@) =~= place_view(before).push(place_after(text_before, t@)));
                    }
                }
                b = b2;
                l = l2;
            },
            _ => {
                proof {
                    assert(event_text(evs@.take(i + 1)) =~= text_before);
                }
            },
        }
        i = i + 1;
    }
    out
}

/// The expression tokens after the first `=` in `[start, end)`, if there are any.
pub fn initializer_tokens(evs: &Vec<Event>, start: usize, end: usize) -> (r: Option<Vec<ExprToken>>)
    requires
        start <= end <= evs@.len(),
    ensures
        r matches Some(ts) ==> ts@.len() > 0,
        !has_token_kind(evs@.subrange(start as int, end as int), SyntaxKind::Eq) ==> r is None,
        forall|j: int|
            start <= j < end && is_token_of(#[trigger] evs@[j], SyntaxKind::Eq) && (forall|m: int|
                start <= m < j ==> !is_token_of(evs@[m], SyntaxKind::Eq)) ==> match r {
                Some(ts) => token_view(ts@) == token_list(evs@.subrange(j + 1, end as int)),
                None => token_list(evs@.subrange(j + 1, end as int)).len() == 0,
            },
{
    let mut i = start;
    while i < end
        invariant
            start <= i <= end <= evs@.len(),
            forall|j: int| start <= j < i ==> !((#[trigger] evs@[j]) matches Event::Token(tk, _) && tk == SyntaxKind::Eq),
        decreases end - i,
    {
        match &evs[i] {
            Event::Token(k, _) => {
                if *k == SyntaxKind::Eq {
                    proof {
                        assert(evs@.subrange(start as int, end as int)[i - start] == evs@[i as int]);
                    }
                    let ts = expr_tokens(evs, i + 1, end);
                    proof {
                        assert forall|j: int|
                            start <= j < end && is_token_of(#[trigger] evs@[j], SyntaxKind::Eq) && (forall|m: int|
                                start <= m < j ==> !is_token_of(evs@[m], SyntaxKind::Eq)) implies j == i by {
                            if j < i {
                            } else if j > i {
                                assert(is_token_of(evs@[i as int], SyntaxKind::Eq));
                            }
                        }
                        assert(token_view(ts@).len() == ts@.len());
                    }
                    if ts.len() == 0 {
                        return None;
                    }
                    return Some(ts);
                }
            },
            _ => {},
        }
        i = i + 1;
    }
    proof {
        let s = evs@.subrange(start as int, end as int);
        assert forall|j: int| 0 <= j < s.len() implies !((#[trigger] s[j]) matches Event::Token(tk, _) && tk
            == SyntaxKind::Eq) by {
            assert(s[j] == evs@[start + j]);
        }
    }
    None
}

/// The access flag a modifier keyword sets, or 0.
pub open spec fn modifier_flag(k: SyntaxKind) -> u16 {
    if k == SyntaxKind::PublicKw {
        opcodes::ACC_PUBLIC
    } else if k == SyntaxKind::PrivateKw {
        opcodes::ACC_PRIVATE
    } else if k == SyntaxKind::ProtectedKw {
        opcodes::ACC_PROTECTED
    } else if k == SyntaxKind::StaticKw {
        opcodes::ACC_STATIC
    } else if k == SyntaxKind::FinalKw {
        opcodes::ACC_FINAL
    } else if k == SyntaxKind::SynchronizedKw {
        opcodes::ACC_SYNCHRONIZED
    } else if k == SyntaxKind::NativeKw {
        opcodes::ACC_NATIVE
    } else if k == SyntaxKind::AbstractKw {
        opcodes::ACC_ABSTRACT
    } else {
        0
    }
}

/// The flags of the modifier keywords among the events, or-ed together.
pub open spec fn flags_of(evs: Seq<Event>) -> u16
    decreases evs.len(),
{
    if evs.len() == 0 {
        0
    } else {
        let rest = flags_of(evs.drop_last());
        match evs.last() {
            Event::Token(k, _) => rest | modifier_flag(k),
            _ => rest,
        }
    }
}

fn modifier_flag_exec(k: SyntaxKind) -> (r: u16)
    ensures
        r == modifier_flag(k),
{
    if k == SyntaxKind::PublicKw {
        opcodes::ACC_PUBLIC
    } else if k == SyntaxKind::PrivateKw {
        opcodes::ACC_PRIVATE
    } else if k == SyntaxKind::ProtectedKw {
        opcodes::ACC_PROTECTED
    } else if k == SyntaxKind::StaticKw {
        opcodes::ACC_STATIC
    } else if k == SyntaxKind::FinalKw {
        opcodes::ACC_FINAL
    } else if k == SyntaxKind::SynchronizedKw {
        opcodes::ACC_SYNCHRONIZED
    } else if k == SyntaxKind::NativeKw {
        opcodes::ACC_NATIVE
    } else if k == SyntaxKind::AbstractKw {
        opcodes::ACC_ABSTRACT
    } else {
        0
    }
}

/// The access flags a modifier list spells.
pub fn access_flags(evs: &Vec<Event>, start: usize, end: usize) -> (r: u16)
    requires
        start <= end <= evs@.len(),
    ensures
        r == flags_of(evs@.subrange(start as int, end as int)),
{
    let mut flags: u16 = 0;
    let mut i = start;
    while i < end
        invariant
            start <= i <= end <= evs@.len(),
            flags == flags_of(evs@.subrange(start as int, i as int)),
        decreases end - i,
    {
        proof {
            assert(evs@.subrange(start as int, i + 1).drop_last() =~= evs@.subrange(start as int, i as int));
        }
        match &evs[i] {
            Event::Token(k, _) => {
                flags = flags | modifier_flag_exec(*k);
            },
            _ => {},
        }
        i = i + 1;
    }
    flags
}

/// Whether a method with these flags has code: neither abstract nor native.
pub fn has_code(flags: u16) -> (r: bool)
    ensures
        r == (flags & (opcodes::ACC_ABSTRACT | opcodes::ACC_NATIVE) == 0),
{
    flags & (opcodes::ACC_ABSTRACT | opcodes::ACC_NATIVE) == 0
}

/// Whether a token can name a type.
pub open spec fn is_type_token(k: SyntaxKind) -> bool {
    ||| k == SyntaxKind::VoidKw
    ||| k == SyntaxKind::BooleanKw
    ||| k == SyntaxKind::ByteKw
    ||| k == SyntaxKind::CharKw
    ||| k == SyntaxKind::ShortKw
    ||| k == SyntaxKind::IntKw
    ||| k == SyntaxKind::LongKw
    ||| k == SyntaxKind::FloatKw
    ||| k == SyntaxKind::DoubleKw
    ||| k == SyntaxKind::Ident
    ||| k == SyntaxKind::VarKw
}

/// The dotted name a type spells: its identifiers and the dots between them, up
/// to type arguments or dimensions.
pub fn type_name_text(evs: &Vec<Event>, start: usize, end: usize) -> (r: Option<String>)
    requires
        start <= end <= evs@.len(),
    ensures
        r is Some <==> name_scan(evs@.subrange(start as int, end as int), Seq::empty(), false).1,
        r matches Some(s) ==> s@ == name_scan(evs@.subrange(start as int, end as int), Seq::empty(), false).0,
{
    let mut text = String::new();
    let mut has_ident = false;
    let mut i = start;
    let mut stopped = false;
    while i < end && !stopped
        invariant
            start <= i <= end <= evs@.len(),
            !stopped ==> name_scan(evs@.subrange(start as int, end as int), Seq::empty(), false) == name_scan(
                evs@.subrange(i as int, end as int),
                text@,
                has_ident,
            ),
            stopped ==> name_scan(evs@.subrange(start as int, end as int), Seq::empty(), false) == (text@, has_ident),
        decreases end - i + if stopped {
            0int
        } else {
            1int
        },
    {
        proof {
            assert(evs@.subrange(i as int, end as int).drop_first() =~= evs@.subrange(i + 1, end as int));
            assert(evs@.subrange(i as int, end as int)[0] == evs@[i as int]);
        }
        match &evs[i] {
            Event::Token(k, t) => {
                let k = *k;
                if k == SyntaxKind::Ident {
                    text.append(t.as_str());
                    has_ident = true;
                } else if k == SyntaxKind::Dot && has_ident {
                    let ghost before = text@;
                    text.append(".");
                    proof {
                        reveal_strlit(".");
                        assert(text@ =~= before.push('.'));
                    }
                } else if k == SyntaxKind::Lt || k == SyntaxKind::LBrack {
                    stopped = true;
                } else if k == SyntaxKind::Whitespace || k == SyntaxKind::Comment {
                } else if has_ident {
                    stopped = true;
                }
            },
            _ => {},
        }
        if !stopped {
            i = i + 1;
        }
    }
    proof {
        if !stopped {
            assert(evs@.subrange(i as int, end as int).len() == 0);
        }
    }
    if has_ident {
        Some(text)
    } else {
        None
    }
}

/// A type's dotted name as scanned from its tokens: identifiers and the dots
/// after one, up to `<`, `[`, or any other token once a name has begun; gives
/// the text and whether there was an identifier.
pub open spec fn name_scan(evs: Seq<Event>, text: Seq<char>, has: bool) -> (Seq<char>, bool)
    decreases evs.len(),
{
    if evs.len() == 0 {
        (text, has)
    } else {
        let rest = evs.drop_first();
        match evs[0] {
            Event::Token(k, t) => if k == SyntaxKind::Ident {
                name_scan(rest, text + t@, true)
            } else if k == SyntaxKind::Dot && has {
                name_scan(rest, text.push('.'), has)
            } else if k == SyntaxKind::Lt || k == SyntaxKind::LBrack {
                (text, has)
            } else if k == SyntaxKind::Whitespace || k == SyntaxKind::Comment {
                name_scan(rest, text, has)
            } else if has {
                (text, has)
            } else {
                name_scan(rest, text, has)
            },
            _ => name_scan(rest, text, has),
        }
    }
}

/// The kind of the first token that can name a type.
pub open spec fn first_type_kind(evs: Seq<Event>) -> Option<SyntaxKind>
    decreases evs.len(),
{
    if evs.len() == 0 {
        None
    } else {
        match evs[0] {
            Event::Token(k, _) => if is_type_token(k) {
                Some(k)
            } else {
                first_type_kind(evs.drop_first())
            },
            _ => first_type_kind(evs.drop_first()),
        }
    }
}

/// The type a keyword names: the primitive types, `void`, and `var` as `Object`.
pub open spec fn keyword_type(k: SyntaxKind) -> Option<TyModel> {
    if k == SyntaxKind::VoidKw {
        Some(TyModel::Void)
    } else if k == SyntaxKind::BooleanKw {
        Some(TyModel::Boolean)
    } else if k == SyntaxKind::ByteKw {
        Some(TyModel::Byte)
    } else if k == SyntaxKind::CharKw {
        Some(TyModel::Char)
    } else if k == SyntaxKind::ShortKw {
        Some(TyModel::Short)
    } else if k == SyntaxKind::IntKw {
        Some(TyModel::Int)
    } else if k == SyntaxKind::LongKw {
        Some(TyModel::Long)
    } else if k == SyntaxKind::FloatKw {
        Some(TyModel::Float)
    } else if k == SyntaxKind::DoubleKw {
        Some(TyModel::Double)
    } else if k == SyntaxKind::VarKw {
        Some(TyModel::Class(object_name()))
    } else {
        None
    }
}

/// `t` wrapped in `n` array levels.
pub open spec fn array_of(t: TyModel, n: nat) -> TyModel
    decreases n,
{
    if n == 0 {
        t
    } else {
        TyModel::Array(Box::new(array_of(t, (n - 1) as nat)))
    }
}

/// The type a `Type` node spells: its first type token, resolved, wrapped in one
/// array level per `[`.
pub fn lower_type(evs: &Vec<Event>, start: usize, end: usize, resolver: &TypeResolver) -> (r: Result<
    Ty,
    LowerError,
>)
    requires
        start <= end <= evs@.len(),
    ensures
        !(exists|i: int| start <= i < end && ((#[trigger] evs@[i]) matches Event::Token(k, _) && is_type_token(k)))
            ==> r == Err::<Ty, LowerError>(LowerError::MissingType),
        first_type_kind(evs@.subrange(start as int, end as int)) matches Some(k) ==> (keyword_type(k) matches Some(
            t,
        ) ==> (r matches Ok(ty) && ty@ == array_of(t, count_kind(evs@.subrange(start as int, end as int), SyntaxKind::LBrack)))),
{
    let mut i = start;
    let mut found: Option<(SyntaxKind, usize)> = None;
    while i < end && found.is_none()
        invariant
            start <= i <= end <= evs@.len(),
            found is None ==> forall|j: int| start <= j < i ==> !((#[trigger] evs@[j]) matches Event::Token(k, _)
                && is_type_token(k)),
            found is None ==> first_type_kind(evs@.subrange(start as int, end as int)) == first_type_kind(
                evs@.subrange(i as int, end as int),
            ),
            found matches Some((fk, _)) ==> first_type_kind(evs@.subrange(start as int, end as int)) == Some(fk),
            found matches Some((fk, at)) ==> start <= at < end && is_type_token(fk) && (evs@[at as int] matches Event::Token(
                k2,
                _,
            ) && k2 == fk),
        decreases end - i + if found is None {
            1int
        } else {
            0int
        },
    {
        proof {
            assert(evs@.subrange(i as int, end as int).drop_first() =~= evs@.subrange(i + 1, end as int));
        }
        match &evs[i] {
            Event::Token(k, _) => {
                let k = *k;
                if k == SyntaxKind::VoidKw || k == SyntaxKind::BooleanKw || k == SyntaxKind::ByteKw || k
                    == SyntaxKind::CharKw || k == SyntaxKind::ShortKw || k == SyntaxKind::IntKw || k
                    == SyntaxKind::LongKw || k == SyntaxKind::FloatKw || k == SyntaxKind::DoubleKw || k
                    == SyntaxKind::Ident || k == SyntaxKind::VarKw {
                    proof {
                        assert(evs@.subrange(i as int, end as int)[0] == evs@[i as int]);
                        assert(first_type_kind(evs@.subrange(i as int, end as int)) == Some(k));
                    }
                    found = Some((k, i));
                }
            },
            _ => {},
        }
        if found.is_none() {
            i = i + 1;
        }
    }
    let (kind, at) = match found {
        Some(f) => f,
        None => {
            proof {
                assert(evs@.subrange(i as int, end as int).len() == 0);
            }
            return Err(LowerError::MissingType);
        },
    };
    proof {
        assert(start <= at < end && ((evs@[at as int]) matches Event::Token(k, _) && is_type_token(k)));
    }
    let mut ty = if kind == SyntaxKind::VoidKw {
        Ty::Void
    } else if kind == SyntaxKind::BooleanKw {
        Ty::Boolean
    } else if kind == SyntaxKind::ByteKw {
        Ty::Byte
    } else if kind == SyntaxKind::CharKw {
        Ty::Char
    } else if kind == SyntaxKind::ShortKw {
        Ty::Short
    } else if kind == SyntaxKind::IntKw {
        Ty::Int
    } else if kind == SyntaxKind::LongKw {
        Ty::Long
    } else if kind == SyntaxKind::FloatKw {
        Ty::Float
    } else if kind == SyntaxKind::DoubleKw {
        Ty::Double
    } else if kind == SyntaxKind::VarKw {
        Ty::object()
    } else {
        let name = match type_name_text(evs, start, end) {
            Some(n) => n,
            None => match &evs[at] {
                Event::Token(_, t) => t.clone(),
                _ => String::new(),
            },
        };
        resolver.resolve_type_name(name.as_str(), &Vec::new())?
    };
    let ghost base = ty@;
    let dims = count_tokens(evs, start, end, SyntaxKind::LBrack);
    let mut d: usize = 0;
    while d < dims
        invariant
            d <= dims,
            ty@ == array_of(base, d as nat),
        decreases dims - d,
    {
        ty = Ty::Array(Box::new(ty));
        d = d + 1;
    }
    Ok(ty)
}

/// The dotted text of the first `QualifiedName` in `[start, end)`.
pub fn qualified_name_text(evs: &Vec<Event>, start: usize, end: usize) -> (r: Result<String, LowerError>)
    requires
        start <= end <= evs@.len(),
    ensures
        r matches Err(e) ==> e == LowerError::MissingImportName,
        r matches Ok(s) ==> s@.len() > 0,
{
    let mut i = start;
    while i < end
        invariant
            start <= i <= end <= evs@.len(),
        decreases end - i,
    {
        match &evs[i] {
            Event::Start(k) => {
                if *k == SyntaxKind::QualifiedName {
                    let e = next_sibling(evs, i, end);
                    let mut text = String::new();
                    let mut j = i + 1;
                    while j < e
                        invariant
                            i < j <= e <= end <= evs@.len(),
                        decreases e - j,
                    {
                        let next = next_sibling(evs, j, e);
                        match &evs[j] {
                            Event::Token(tk, t) => {
                                if *tk == SyntaxKind::Ident || *tk == SyntaxKind::Dot {
                                    text.append(t.as_str());
                                }
                            },
                            _ => {},
                        }
                        j = next;
                    }
                    if text.unicode_len() == 0 {
                        return Err(LowerError::MissingImportName);
                    }
                    return Ok(text);
                }
            },
            _ => {},
        }
        i = i + 1;
    }
    Err(LowerError::MissingImportName)
}

/// The kinds of the child nodes among the elements from `i` to `end`, in order.
pub open spec fn child_kinds(evs: Seq<Event>, i: int, end: int) -> Seq<SyntaxKind>
    decreases end - i,
{
    if i < 0 || i >= end || end > evs.len() {
        Seq::empty()
    } else {
        let next = sibling_after(evs, i, end);
        proof {
            lemma_close_scan(evs, i + 1, 1);
        }
        let rest = child_kinds(evs, next, end);
        match evs[i] {
            Event::Start(k) => seq![k] + rest,
            _ => rest,
        }
    }
}

pub proof fn lemma_child_kinds_start(evs: Seq<Event>, i: int, end: int, seen: Seq<SyntaxKind>, ck: Seq<SyntaxKind>)
    requires
        0 <= i < end <= evs.len(),
        evs[i] is Start,
        ck == seen + child_kinds(evs, i, end),
    ensures
        child_kinds(evs, i, end) == seq![evs[i]->Start_0] + child_kinds(evs, sibling_after(evs, i, end), end),
        ck == seen.push(evs[i]->Start_0) + child_kinds(evs, sibling_after(evs, i, end), end),
        ck[seen.len() as int] == evs[i]->Start_0,
        seen.push(evs[i]->Start_0).drop_last() == seen,
        seen.push(evs[i]->Start_0).last() == evs[i]->Start_0,
        seen.push(evs[i]->Start_0).len() == seen.len() + 1,
        forall|j: int| 0 <= j < seen.len() ==> #[trigger] seen.push(evs[i]->Start_0)[j] == seen[j],
{
    let k = evs[i]->Start_0;
    let rest = child_kinds(evs, sibling_after(evs, i, end), end);
    assert(ck =~= seen.push(k) + rest);
    assert(seen.push(k).drop_last() =~= seen);
}

/// How many times `k` occurs in `s`.
pub open spec fn count_of_kind(s: Seq<SyntaxKind>, k: SyntaxKind) -> nat
    decreases s.len(),
{
    if s.len() == 0 {
        0
    } else {
        count_of_kind(s.drop_last(), k) + if s.last() == k {
            1nat
        } else {
            0nat
        }
    }
}

/// A unit of one plain class: its top-level children are modifier lists and
/// one class declaration, which has a name and a body (if any) without members
/// other than modifier lists.
pub open spec fn plain_class_unit(evs: Seq<Event>) -> bool {
    let end = sibling_after(evs, 0, evs.len() as int);
    let ck = child_kinds(evs, 1, end);
    &&& evs.len() > 0 && evs[0] == Event::Start(SyntaxKind::CompilationUnit)
    &&& forall|j: int| 0 <= j < ck.len() ==> (#[trigger] ck[j] == SyntaxKind::ModifierList || ck[j] == SyntaxKind::ClassDecl)
    &&& count_of_kind(ck, SyntaxKind::ClassDecl) == 1
    &&& first_child_node(evs, 1, end, SyntaxKind::ClassDecl) matches Some((cs, ce)) && first_child_token(
        evs,
        cs + 1,
        ce,
        SyntaxKind::Ident,
    ) is Some && match first_child_node(evs, cs + 1, ce, SyntaxKind::ClassBody) {
        Some((bs, be)) => count_of_kind(child_kinds(evs, bs + 1, be), SyntaxKind::MethodDecl) == 0
            && !has_refused_member(child_kinds(evs, bs + 1, be)),
        None => true,
    }
}

/// The internal name of a class named `simple` in the package, if any.
pub open spec fn class_internal_name(package: Option<Package>, simple: Seq<char>) -> Seq<char> {
    match package {
        Some(p) => replace_char(p.name@, '.', '/') + "/"@ + simple,
        None => simple,
    }
}

/// What lowering the events gives: `ExpectedCompilationUnit` unless they open
/// with a compilation unit; success for a unit of one plain class; and on
/// success one well-formed class, named after the first class declaration.
pub open spec fn lowering_of(evs: Seq<Event>, r: Result<CompilationUnit, LowerError>) -> bool {
    &&& !(evs.len() > 0 && evs[0] == Event::Start(SyntaxKind::CompilationUnit)) ==> r == Err::<
        CompilationUnit,
        LowerError,
    >(LowerError::ExpectedCompilationUnit)
    &&& plain_class_unit(evs) ==> r is Ok
    &&& r matches Ok(u) ==> u.type_decls@.len() == 1 && crate::codegen::decl_ok(u.type_decls@[0])
        && u.type_decls@[0].kind == TypeDeclKind::Class
    &&& r matches Ok(u) ==> (first_child_node(evs, 1, sibling_after(evs, 0, evs.len() as int), SyntaxKind::ClassDecl)
        matches Some((cs, ce)) && first_child_token(evs, cs + 1, ce, SyntaxKind::Ident) matches Some(simple)
        && u.type_decls@[0].name@ == class_internal_name(u.package, simple))
}

/// Lowers the syntax tree of a compilation unit.
pub fn lower(evs: &Vec<Event>) -> (r: Result<CompilationUnit, LowerError>)
    ensures
        !(evs@.len() > 0 && evs@[0] == Event::Start(SyntaxKind::CompilationUnit)) ==> r == Err::<
            CompilationUnit,
            LowerError,
        >(LowerError::ExpectedCompilationUnit),
        r matches Ok(u) ==> u.type_decls@.len() == 1 && crate::codegen::decl_ok(u.type_decls@[0]),
{
    lower_compilation_unit(evs)
}

/// A compilation unit: its package, its imports and its one class, whose methods
/// are lowered. Interfaces, enums, records and
/// annotation types are refused, and so is a unit with no class or several.
#[verifier::loop_isolation(false)]
pub fn lower_compilation_unit(evs: &Vec<Event>) -> (r: Result<CompilationUnit, LowerError>)
    ensures
        lowering_of(evs@, r),
        plain_class_unit(evs@) ==> r is Ok,
        r matches Ok(u) ==> (first_child_node(evs@, 1, sibling_after(evs@, 0, evs@.len() as int), SyntaxKind::ClassDecl)
            matches Some((cs, ce)) && first_child_token(evs@, cs + 1, ce, SyntaxKind::Ident) matches Some(simple)
            && u.type_decls@[0].name@ == class_internal_name(u.package, simple)),
        !(evs@.len() > 0 && evs@[0] == Event::Start(SyntaxKind::CompilationUnit)) ==> r == Err::<
            CompilationUnit,
            LowerError,
        >(LowerError::ExpectedCompilationUnit),
        r matches Ok(u) ==> u.type_decls@.len() == 1 && crate::codegen::decl_ok(u.type_decls@[0]),
        r matches Ok(u) ==> u.type_decls@[0].kind == TypeDeclKind::Class,
{
    if evs.len() == 0 {
        return Err(LowerError::ExpectedCompilationUnit);
    }
    match &evs[0] {
        Event::Start(k) => {
            if *k != SyntaxKind::CompilationUnit {
                return Err(LowerError::ExpectedCompilationUnit);
            }
        },
        _ => {
            return Err(LowerError::ExpectedCompilationUnit);
        },
    }
    let end = next_sibling(evs, 0, evs.len());
    let mut package: Option<Package> = None;
    let mut imports: Vec<Import> = Vec::new();
    let mut classes: Vec<(usize, usize, u16)> = Vec::new();
    let mut pending: u16 = 0;
    let mut i: usize = 1;
    let ghost ck = child_kinds(evs@, 1, end as int);
    let ghost mut seen: Seq<SyntaxKind> = Seq::empty();
    proof {
        assert(ck =~= seen + child_kinds(evs@, i as int, end as int));
    }
    while i < end
        invariant
            0 < i <= end <= evs@.len(),
            end == sibling_after(evs@, 0, evs@.len() as int),
            forall|q: int| 0 <= q < classes@.len() ==> (#[trigger] classes@[q]).0 < classes@[q].1 <= evs@.len(),
            ck == child_kinds(evs@, 1, end as int),
            ck == seen + child_kinds(evs@, i as int, end as int),
            classes@.len() == count_of_kind(seen, SyntaxKind::ClassDecl),
            classes@.len() == 0 ==> first_child_node(evs@, 1, end as int, SyntaxKind::ClassDecl) == first_child_node(
                evs@,
                i as int,
                end as int,
                SyntaxKind::ClassDecl,
            ),
            classes@.len() > 0 ==> first_child_node(evs@, 1, end as int, SyntaxKind::ClassDecl) == Some(
                (classes@[0].0 as int, classes@[0].1 as int),
            ),
            (forall|j: int| 0 <= j < seen.len() ==> (#[trigger] seen[j] == SyntaxKind::ModifierList || seen[j]
                == SyntaxKind::ClassDecl)) ==> package is None && imports@.len() == 0,
        decreases end - i,
    {
        let next = next_sibling(evs, i, end);
        let ghost rest = child_kinds(evs@, next as int, end as int);
        let ghost seen0 = seen;
        match &evs[i] {
            Event::Start(k) => {
                let k = *k;
                proof {
                    lemma_child_kinds_start(evs@, i as int, end as int, seen, ck);
                    seen = seen.push(k);
                }
                if k == SyntaxKind::PackageDecl {
                    package = Some(Package { name: qualified_name_text(evs, i, next)? });
                } else if k == SyntaxKind::ImportDecl {
                    let path = qualified_name_text(evs, i, next)?;
                    let line = first_token_line(evs, i, next);
                    imports.push(
                        Import {
                            path,
                            is_static: has_token(evs, i, next, SyntaxKind::StaticKw),
                            is_wildcard: has_token(evs, i, next, SyntaxKind::Star),
                            source_line: Some(line),
                        },
                    );
                } else if k == SyntaxKind::ModifierList {
                    pending = access_flags(evs, i, next);
                } else if k == SyntaxKind::ClassDecl {
                    classes.push((i, next, pending));
                    pending = 0;
                } else if k == SyntaxKind::InterfaceDecl || k == SyntaxKind::EnumDecl || k == SyntaxKind::RecordDecl || k
                    == SyntaxKind::AnnotationDecl {
                    return Err(LowerError::UnsupportedTypeDeclaration);
                }
            },
            _ => {
                proof {
                    assert(child_kinds(evs@, i as int, end as int) == rest);
                }
            },
        }
        i = next;
    }
    proof {
        assert(child_kinds(evs@, i as int, end as int) =~= Seq::<SyntaxKind>::empty());
        assert(seen =~= ck);
    }
    if classes.len() != 1 {
        return Err(LowerError::ExpectedSingleTopLevelClass);
    }
    let (cs, ce, flags) = classes[0];
    let simple = match child_token(evs, cs, ce, SyntaxKind::Ident) {
        Some(n) => n,
        None => {
            return Err(LowerError::MissingClassName);
        },
    };
    let internal = match &package {
        Some(p) => {
            let mut s = replace_char_exec(p.name.as_str(), '.', '/');
            s.append("/");
            s.append(simple.as_str());
            s
        },
        None => simple,
    };
    let pkg_ref: Option<&Package> = match &package {
        Some(p) => Some(p),
        None => None,
    };
    let resolver = TypeResolver::for_class(pkg_ref, &imports, internal.as_str())?;
    let (methods, inner_types) = match child_node(evs, cs, ce, SyntaxKind::ClassBody) {
        Some((bs, be)) => lower_class_methods(evs, bs, be, &resolver, LOWER_FUEL)?,
        None => (Vec::new(), Vec::new()),
    };
    let td = TypeDecl {
        id: HirId(0),
        name: internal,
        kind: TypeDeclKind::Class,
        access_flags: flags,
        super_class: Some(Ty::object()),
        interfaces: Vec::new(),
        type_params: Vec::new(),
        fields: Vec::new(),
        methods,
        inner_types,
        anonymous: None,
    };
    let mut type_decls: Vec<TypeDecl> = Vec::new();
    type_decls.push(td);
    Ok(CompilationUnit { package, imports, type_decls })
}
} // verus!
