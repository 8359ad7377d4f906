//! The lossless green tree, built with rowan from the parser's events.
use vstd::prelude::*;

verus! {

#[verifier::external_type_specification]
#[verifier::external_body]
pub struct ExGreenNode(rowan::GreenNode);

#[verifier::external_type_specification]
#[verifier::external_body]
pub struct ExGreenNodeBuilder<'cache>(rowan::GreenNodeBuilder<'cache>);

/// What a green-node builder has been told so far, in order: `(0, kind, _)` opens a
/// node, `(1, kind, text)` adds a token, `(2, _, _)` closes the innermost open node.
pub uninterp spec fn builder_log(b: rowan::GreenNodeBuilder<'static>) -> Seq<(u8, u16, Seq<char>)>;

/// The text of a green node: the texts of its tokens, in order.
pub uninterp spec fn green_text(g: rowan::GreenNode) -> Seq<char>;

/// How many nodes are open after the builder steps.
pub open spec fn log_depth(log: Seq<(u8, u16, Seq<char>)>) -> int
    decreases log.len(),
{
    if log.len() == 0 {
        0
    } else {
        log_depth(log.drop_last()) + if log.last().0 == 0 {
            1int
        } else if log.last().0 == 2 {
            -1int
        } else {
            0int
        }
    }
}

/// The texts of the tokens among the builder steps, in order.
pub open spec fn log_text(log: Seq<(u8, u16, Seq<char>)>) -> Seq<char>
    decreases log.len(),
{
    if log.len() == 0 {
        Seq::empty()
    } else {
        log_text(log.drop_last()) + if log.last().0 == 1 {
            log.last().2
        } else {
            Seq::empty()
        }
    }
}

/// The steps build exactly one node at the top, which holds everything else.
pub open spec fn log_single_root(log: Seq<(u8, u16, Seq<char>)>) -> bool {
    &&& log.len() >= 2
    &&& log[0].0 == 0
    &&& log.last().0 == 2
    &&& log_depth(log) == 0
    &&& forall|k: int| 1 <= k < log.len() ==> log_depth(#[trigger] log.take(k)) >= 1
}

/// `GreenNodeBuilder::new`: a builder that has been told nothing.
#[verifier::external_body]
pub(crate) fn builder_new() -> (r: rowan::GreenNodeBuilder<'static>)
    ensures
        builder_log(r) == Seq::<(u8, u16, Seq<char>)>::empty(),
{
    rowan::GreenNodeBuilder::new()
}

/// `GreenNodeBuilder::start_node`: records that a node of `kind` opens.
#[verifier::external_body]
pub(crate) fn builder_start_node(b: &mut rowan::GreenNodeBuilder<'static>, kind: u16)
    ensures
        builder_log(*final(b)) == builder_log(*old(b)).push((0u8, kind, Seq::<char>::empty())),
{
    b.start_node(rowan::SyntaxKind(kind));
}

/// `GreenNodeBuilder::token`: records a token of `kind` with `text`.
#[verifier::external_body]
pub(crate) fn builder_token(b: &mut rowan::GreenNodeBuilder<'static>, kind: u16, text: &str)
    ensures
        builder_log(*final(b)) == builder_log(*old(b)).push((1u8, kind, text@)),
{
    b.token(rowan::SyntaxKind(kind), text);
}

/// `GreenNodeBuilder::finish_node`: closes the innermost open node; it panics when
/// no node is open, which the precondition rules out.
#[verifier::external_body]
pub(crate) fn builder_finish_node(b: &mut rowan::GreenNodeBuilder<'static>)
    requires
        log_depth(builder_log(*old(b))) > 0,
    ensures
        builder_log(*final(b)) == builder_log(*old(b)).push((2u8, 0u16, Seq::<char>::empty())),
{
    b.finish_node();
}

/// `GreenNodeBuilder::finish`: the one node built at the top; it panics unless
/// exactly one node stands there, which the precondition rules out. The node's text
/// is the texts of the tokens, in the order they were added.
#[verifier::external_body]
pub(crate) fn builder_finish(b: rowan::GreenNodeBuilder<'static>) -> (r: rowan::GreenNode)
    requires
        log_single_root(builder_log(b)),
    ensures
        green_text(r) == log_text(builder_log(b)),
{
    b.finish()
}

/// The text of a green node (its `Display`).
#[verifier::external_body]
pub(crate) fn green_node_text(g: &rowan::GreenNode) -> (r: String)
    ensures
        r@ == green_text(*g),
{
    g.to_string()
}

} // verus!
