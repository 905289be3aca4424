//! The trusted boundary to the `markdown` crate.
//!
//! `markdown::to_mdast` turns document text into a syntax tree; the
//! converters below carry that tree over into the crate's own [`Block`] and
//! [`Inline`] model, variant by variant, moving fields only. The whole
//! outcome is named by [`md_doc_of`]: the tree depends on the input text
//! alone, so parsing is deterministic.

use vstd::prelude::*;

use crate::location::Span;
use crate::node::{Block, Inline, ListItem};

verus! {

#[verifier::external_type_specification]
#[verifier::external_body]
pub struct ExMdNode(markdown::mdast::Node);

#[verifier::external_type_specification]
#[verifier::external_body]
pub struct ExMdPosition(markdown::unist::Position);

#[verifier::external_type_specification]
#[verifier::external_body]
pub struct ExMdHeading(markdown::mdast::Heading);

#[verifier::external_type_specification]
#[verifier::external_body]
pub struct ExMdCode(markdown::mdast::Code);

/// What `markdown::to_mdast` yields on the given text, carried over into the
/// crate's node model: the root's block children together with the root
/// node's own span, or the parser's message text on failure.
pub uninterp spec fn md_doc_of(input: Seq<char>) -> Result<(Seq<Block>, Option<Span>), Seq<char>>;

/// Relies on `markdown::unist::Position`: start and end carry the byte
/// offsets of the parsed region.
#[verifier::external_body]
fn conv_span(p: &Option<markdown::unist::Position>) -> (r: Option<Span>)
{
    match p {
        Some(q) => Some(Span { start: q.start.offset, end: q.end.offset }),
        None => None,
    }
}

/// Relies on `markdown::mdast::Node`: each inline variant is carried over
/// field by field; kinds the parser does not read become `Inline::Other`.
#[verifier::external_body]
fn conv_inline(n: &markdown::mdast::Node) -> (r: Inline)
{
    match n {
        markdown::mdast::Node::Text(t) => Inline::Text { value: t.value.clone() },
        markdown::mdast::Node::InlineCode(c) => Inline::InlineCode { value: c.value.clone() },
        markdown::mdast::Node::Emphasis(e) => Inline::Emphasis { children: conv_inlines(&e.children) },
        markdown::mdast::Node::Strong(s) => Inline::Strong { children: conv_inlines(&s.children) },
        markdown::mdast::Node::Link(l) => Inline::Link { children: conv_inlines(&l.children) },
        _ => Inline::Other,
    }
}

/// Relies on `markdown::mdast::Node`: converts each node of a list of inline
/// children.
#[verifier::external_body]
fn conv_inlines(nodes: &Vec<markdown::mdast::Node>) -> (r: Vec<Inline>)
{
    nodes.iter().map(conv_inline).collect()
}

/// Relies on `markdown::mdast::Node`: list children are `ListItem` nodes;
/// each is carried over with its block children and span.
#[verifier::external_body]
fn conv_items(nodes: &Vec<markdown::mdast::Node>) -> (r: Vec<ListItem>)
{
    nodes
        .iter()
        .filter_map(|n| match n {
            markdown::mdast::Node::ListItem(li) => Some(ListItem {
                children: conv_blocks(&li.children),
                span: conv_span(&li.position),
            }),
            _ => None,
        })
        .collect()
}

/// Relies on `markdown::mdast::Heading`: depth, inline children and
/// position are carried over.
#[verifier::external_body]
fn conv_heading(h: &markdown::mdast::Heading) -> (r: Block)
{
    Block::Heading {
        depth: h.depth,
        children: conv_inlines(&h.children),
        span: conv_span(&h.position),
    }
}

/// Relies on `markdown::mdast::Code`: info-string language, raw text and
/// position are carried over.
#[verifier::external_body]
fn conv_code(c: &markdown::mdast::Code) -> (r: Block)
{
    Block::Code { lang: c.lang.clone(), value: c.value.clone(), span: conv_span(&c.position) }
}

/// Relies on `markdown::mdast::Node`: each block variant is carried over
/// field by field; kinds the parser does not read keep only their span.
#[verifier::external_body]
fn conv_block(n: &markdown::mdast::Node) -> (r: Block)
{
    match n {
        markdown::mdast::Node::Heading(h) => conv_heading(h),
        markdown::mdast::Node::Paragraph(p) => Block::Paragraph { children: conv_inlines(&p.children), span: conv_span(&p.position) },
        markdown::mdast::Node::Code(c) => conv_code(c),
        markdown::mdast::Node::List(l) => Block::List { items: conv_items(&l.children), span: conv_span(&l.position) },
        markdown::mdast::Node::Blockquote(b) => Block::Blockquote { children: conv_blocks(&b.children), span: conv_span(&b.position) },
        _ => Block::Other { span: conv_span(&n.position().cloned()) },
    }
}

/// Relies on `markdown::mdast::Node`: converts each node of a list of block
/// children.
#[verifier::external_body]
fn conv_blocks(nodes: &Vec<markdown::mdast::Node>) -> (r: Vec<Block>)
{
    nodes.iter().map(conv_block).collect()
}

/// Relies on `markdown::to_mdast` with default options: the tree is a
/// function of the input text alone, so the result is exactly what
/// [`md_doc_of`] names. A non-`Root` top node cannot occur; it is reported
/// as a failure for robustness.
#[verifier::external_body]
pub(crate) fn md_parse(input: &str) -> (r: Result<(Vec<Block>, Option<Span>), String>)
    ensures
        match r {
            Ok(doc) => md_doc_of(input@) matches Ok(m) && doc.0@ == m.0 && doc.1 == m.1,
            Err(e) => md_doc_of(input@) matches Err(m) && e@ == m,
        },
{
    match markdown::to_mdast(input, &markdown::ParseOptions::default()) {
        Ok(markdown::mdast::Node::Root(root)) => {
            let span = conv_span(&root.position);
            Ok((conv_blocks(&root.children), span))
        },
        Ok(_) => Err("markdown root node is not a root".to_string()),
        Err(message) => Err(message.to_string()),
    }
}

} // verus!
