//! The block and inline node model of a markdown document.
//!
//! Documents arrive as a flat list of [`Block`] values (headings, paragraphs,
//! fenced code blocks, lists, blockquotes); inline content of headings and
//! paragraphs is a list of [`Inline`] values. Node kinds the parser does not
//! read are collapsed into `Other`, keeping only their span.

use vstd::prelude::*;

use crate::chars::{chars_string, push_chars};
use crate::location::Span;

verus! {

/// An inline node: plain text, inline code, or emphasis-like wrappers whose
/// contents are flattened for display.
#[derive(Debug)]
pub enum Inline {
    Text { value: String },
    InlineCode { value: String },
    Emphasis { children: Vec<Inline> },
    Strong { children: Vec<Inline> },
    Link { children: Vec<Inline> },
    Other,
}

/// An item of a list block.
#[derive(Debug)]
pub struct ListItem {
    pub children: Vec<Block>,
    pub span: Option<Span>,
}

/// A block-level node. Spans cover the node and all of its children.
#[derive(Debug)]
pub enum Block {
    Heading { depth: u8, children: Vec<Inline>, span: Option<Span> },
    Paragraph { children: Vec<Inline>, span: Option<Span> },
    Code { lang: Option<String>, value: String, span: Option<Span> },
    List { items: Vec<ListItem>, span: Option<Span> },
    Blockquote { children: Vec<Block>, span: Option<Span> },
    Other { span: Option<Span> },
}

impl Block {
    /// The span of a block, whichever kind it is.
    pub open spec fn spec_span(&self) -> Option<Span> {
        match *self {
            Block::Heading { span, .. } => span,
            Block::Paragraph { span, .. } => span,
            Block::Code { span, .. } => span,
            Block::List { span, .. } => span,
            Block::Blockquote { span, .. } => span,
            Block::Other { span } => span,
        }
    }

    /// The span of a block, whichever kind it is.
    pub fn span(&self) -> (r: Option<Span>)
        ensures
            r == self.spec_span(),
    {
        match self {
            Block::Heading { span, .. } => *span,
            Block::Paragraph { span, .. } => *span,
            Block::Code { span, .. } => *span,
            Block::List { span, .. } => *span,
            Block::Blockquote { span, .. } => *span,
            Block::Other { span } => *span,
        }
    }
}

/// The flattened text of one inline node: text and inline code contribute
/// their value, emphasis, strong and link nodes their flattened children,
/// anything else nothing.
pub open spec fn spec_inline_one(node: Inline) -> Seq<char>
    decreases node,
{
    match node {
        Inline::Text { value } => value@,
        Inline::InlineCode { value } => value@,
        Inline::Emphasis { children } => spec_inline_text(children@),
        Inline::Strong { children } => spec_inline_text(children@),
        Inline::Link { children } => spec_inline_text(children@),
        Inline::Other => Seq::empty(),
    }
}

/// The flattened text of a sequence of inline nodes.
pub open spec fn spec_inline_text(nodes: Seq<Inline>) -> Seq<char>
    decreases nodes,
{
    if nodes.len() == 0 {
        Seq::empty()
    } else {
        spec_inline_text(nodes.drop_last()) + spec_inline_one(nodes.last())
    }
}

/// Append the flattened text of one inline node.
fn push_inline_one(out: &mut Vec<char>, node: &Inline)
    ensures
        final (out)@ == old(out)@ + spec_inline_one(*node),
    decreases *node,
{
    match node {
        Inline::Text { value } => {
            let cs = crate::chars::str_chars(value.as_str());
            push_chars(out, &cs);
        },
        Inline::InlineCode { value } => {
            let cs = crate::chars::str_chars(value.as_str());
            push_chars(out, &cs);
        },
        Inline::Emphasis { children } => {
            push_inline_seq(out, children);
        },
        Inline::Strong { children } => {
            push_inline_seq(out, children);
        },
        Inline::Link { children } => {
            push_inline_seq(out, children);
        },
        Inline::Other => {},
    }
}

/// Append the flattened text of a list of inline nodes.
fn push_inline_seq(out: &mut Vec<char>, nodes: &Vec<Inline>)
    ensures
        final (out)@ == old(out)@ + spec_inline_text(nodes@),
    decreases *nodes,
{
    let n = nodes.len();
    let mut i: usize = 0;
    while i < n
        invariant
            0 <= i <= n,
            n == nodes@.len(),
            out@ == old(out)@ + spec_inline_text(nodes@.take(i as int)),
        decreases n - i,
    {
        push_inline_one(out, &nodes[i]);
        proof {
            let t = nodes@.take(i + 1);
            assert(t.drop_last() =~= nodes@.take(i as int));
            assert(t.last() == nodes@[i as int]);
        }
        i = i + 1;
    }
    proof {
        assert(nodes@.take(n as int) =~= nodes@);
    }
}

/// The flattened text of one inline node, as characters.
pub(crate) fn inline_one_text(node: &Inline) -> (r: Vec<char>)
    ensures
        r@ == spec_inline_one(*node),
{
    let mut out: Vec<char> = Vec::new();
    push_inline_one(&mut out, node);
    out
}

/// The flattened text of a list of inline nodes, as characters.
pub(crate) fn inline_text_chars(nodes: &Vec<Inline>) -> (r: Vec<char>)
    ensures
        r@ == spec_inline_text(nodes@),
{
    let mut out: Vec<char> = Vec::new();
    push_inline_seq(&mut out, nodes);
    out
}

/// The flattened text of a list of inline nodes.
pub fn inline_text(nodes: &Vec<Inline>) -> (r: String)
    ensures
        r@ == spec_inline_text(nodes@),
{
    let cs = inline_text_chars(nodes);
    chars_string(&cs)
}

} // verus!
