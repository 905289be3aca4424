//! Extraction of template ingredients from a section's body: fenced code
//! blocks, prose descriptions, section spans, output-path declarations, and
//! declared arguments.

use vstd::prelude::*;

use crate::chars::{
    chars_eq_str, chars_string, push_chars, spec_is_space, spec_trim, spec_trim_start, str_chars,
    trim_chars, trim_start_chars,
};
use crate::location::{spec_merge_opt, Span};
use crate::node::{
    inline_one_text, inline_text_chars, spec_inline_one, spec_inline_text, Block, Inline, ListItem,
};
use crate::types::{
    lemma_deep_view_push, Arg, ArgKind, ArgKindAny, ArgKindBoolean,
    ArgKindNumber, ArgKindString, ArgV,
};

verus! {

// ---------------------------------------------------------------------------
// Fenced code blocks
// ---------------------------------------------------------------------------
/// A fenced code block: its info-string language and its raw text.
#[derive(Debug, Clone)]
pub struct CodeBlock {
    pub lang: Option<String>,
    pub value: String,
}

/// The mathematical model of a [`CodeBlock`].
pub struct CodeBlockV {
    pub lang: Option<Seq<char>>,
    pub value: Seq<char>,
}

impl View for CodeBlock {
    type V = CodeBlockV;

    open spec fn view(&self) -> CodeBlockV {
        CodeBlockV { lang: self.lang.deep_view(), value: self.value@ }
    }
}

impl DeepView for CodeBlock {
    type V = CodeBlockV;

    open spec fn deep_view(&self) -> CodeBlockV {
        self@
    }
}

/// The code blocks held by one block node, in order, looking through lists,
/// list items and blockquotes.
pub open spec fn spec_code_one(b: Block) -> Seq<CodeBlockV>
    decreases b,
{
    match b {
        Block::Code { lang, value, .. } => seq![
            CodeBlockV { lang: lang.deep_view(), value: value@ },
        ],
        Block::List { items, .. } => spec_code_items(items@),
        Block::Blockquote { children, .. } => spec_code_seq(children@),
        _ => Seq::empty(),
    }
}

/// The code blocks of a block sequence.
pub open spec fn spec_code_seq(s: Seq<Block>) -> Seq<CodeBlockV>
    decreases s,
{
    if s.len() == 0 {
        Seq::empty()
    } else {
        spec_code_seq(s.drop_last()) + spec_code_one(s.last())
    }
}

/// The code blocks of a sequence of list items.
pub open spec fn spec_code_items(items: Seq<ListItem>) -> Seq<CodeBlockV>
    decreases items,
{
    if items.len() == 0 {
        Seq::empty()
    } else {
        spec_code_items(items.drop_last()) + spec_code_seq(items.last().children@)
    }
}

/// The code blocks of the block range `[i, hi)`.
pub open spec fn spec_code_range(nodes: Seq<Block>, i: int, hi: int) -> Seq<CodeBlockV>
    decreases hi - i,
{
    if i < 0 || i >= hi || hi > nodes.len() {
        Seq::empty()
    } else {
        spec_code_one(nodes[i]) + spec_code_range(nodes, i + 1, hi)
    }
}

/// Append the code blocks of a single block node.
fn push_code_one(acc: &mut Vec<CodeBlock>, b: &Block)
    ensures
        final (acc).deep_view() =~= old(acc).deep_view() + spec_code_one(*b),
    decreases *b,
{
    match b {
        Block::Code { lang, value, .. } => {
            let ghost pre = *acc;
            let cb = CodeBlock {
                lang: match lang {
                    Option::Some(l) => Option::Some(l.clone()),
                    Option::None => Option::None,
                },
                value: value.clone(),
            };
            proof {
                assert(cb@ == spec_code_one(*b)[0]);
            }
            acc.push(cb);
            proof {
                lemma_deep_view_push(pre, *acc, cb);
            }
        },
        Block::List { items, .. } => {
            push_code_items(acc, items);
        },
        Block::Blockquote { children, .. } => {
            push_code_seq(acc, children);
        },
        _ => {},
    }
}

/// Append the code blocks of a whole block list.
fn push_code_seq(acc: &mut Vec<CodeBlock>, s: &Vec<Block>)
    ensures
        final (acc).deep_view() =~= old(acc).deep_view() + spec_code_seq(s@),
    decreases *s,
{
    let n = s.len();
    let mut i: usize = 0;
    while i < n
        invariant
            0 <= i <= n,
            n == s@.len(),
            acc.deep_view() =~= old(acc).deep_view() + spec_code_seq(s@.take(i as int)),
        decreases n - i,
    {
        push_code_one(acc, &s[i]);
        proof {
            let t = s@.take(i + 1);
            assert(t.drop_last() =~= s@.take(i as int));
            assert(t.last() == s@[i as int]);
        }
        i = i + 1;
    }
    proof {
        assert(s@.take(n as int) =~= s@);
    }
}

/// Append the code blocks of a sequence of list items.
fn push_code_items(acc: &mut Vec<CodeBlock>, items: &Vec<ListItem>)
    ensures
        final (acc).deep_view() =~= old(acc).deep_view() + spec_code_items(items@),
    decreases *items,
{
    let n = items.len();
    let mut i: usize = 0;
    while i < n
        invariant
            0 <= i <= n,
            n == items@.len(),
            acc.deep_view() =~= old(acc).deep_view() + spec_code_items(items@.take(i as int)),
        decreases n - i,
    {
        push_code_seq(acc, &items[i].children);
        proof {
            let t = items@.take(i + 1);
            assert(t.drop_last() =~= items@.take(i as int));
            assert(t.last() == items@[i as int]);
        }
        i = i + 1;
    }
    proof {
        assert(items@.take(n as int) =~= items@);
    }
}

/// Collect the code blocks of the block range `[lo, hi)`, in order.
pub fn collect_code_blocks(nodes: &Vec<Block>, lo: usize, hi: usize) -> (r: Vec<CodeBlock>)
    requires
        lo <= hi <= nodes@.len(),
    ensures
        r.deep_view() == spec_code_range(nodes@, lo as int, hi as int),
{
    let mut acc: Vec<CodeBlock> = Vec::new();
    let mut i: usize = lo;
    while i < hi
        invariant
            lo <= i <= hi <= nodes@.len(),
            spec_code_range(nodes@, lo as int, hi as int) =~= acc.deep_view() + spec_code_range(
                nodes@,
                i as int,
                hi as int,
            ),
        decreases hi - i,
    {
        push_code_one(&mut acc, &nodes[i]);
        i = i + 1;
    }
    proof {
        assert(spec_code_range(nodes@, lo as int, hi as int) =~= acc.deep_view());
    }
    acc
}

// ---------------------------------------------------------------------------
// Descriptions
// ---------------------------------------------------------------------------
/// The prose accumulated from a body range, starting from accumulator `acc`:
/// paragraphs are joined by a blank line, and the scan stops at the first
/// heading or code block.
pub open spec fn spec_desc_from(nodes: Seq<Block>, i: int, hi: int, acc: Seq<char>) -> Seq<char>
    decreases hi - i,
{
    if i < 0 || i >= hi || hi > nodes.len() {
        acc
    } else {
        match nodes[i] {
            Block::Paragraph { children, .. } => spec_desc_from(
                nodes,
                i + 1,
                hi,
                if acc.len() == 0 {
                    spec_inline_text(children@)
                } else {
                    acc + seq!['\n', '\n'] + spec_inline_text(children@)
                },
            ),
            Block::Heading { .. } => acc,
            Block::Code { .. } => acc,
            _ => spec_desc_from(nodes, i + 1, hi, acc),
        }
    }
}

/// The description of a section body: prose before the first heading or code
/// block, trimmed.
pub open spec fn spec_description(nodes: Seq<Block>, lo: int, hi: int) -> Seq<char> {
    spec_trim(spec_desc_from(nodes, lo, hi, Seq::empty()))
}

fn desc_from(nodes: &Vec<Block>, i: usize, hi: usize, acc: Vec<char>) -> (r: Vec<char>)
    requires
        hi <= nodes@.len(),
    ensures
        r@ == spec_desc_from(nodes@, i as int, hi as int, acc@),
    decreases hi - i,
{
    if i >= hi {
        return acc;
    }
    match &nodes[i] {
        Block::Paragraph { children, .. } => {
            let text = inline_text_chars(children);
            let ghost a0 = acc@;
            let mut acc2 = acc;
            if acc2.len() == 0 {
                acc2 = text;
            } else {
                acc2.push('\n');
                acc2.push('\n');
                push_chars(&mut acc2, &text);
                proof {
                    assert(acc2@ =~= a0 + seq!['\n', '\n'] + text@);
                }
            }
            desc_from(nodes, i + 1, hi, acc2)
        },
        Block::Heading { .. } => acc,
        Block::Code { .. } => acc,
        _ => desc_from(nodes, i + 1, hi, acc),
    }
}

/// The description of a section body: paragraphs before the first heading or
/// code block, joined by blank lines and trimmed.
pub fn collect_description(nodes: &Vec<Block>, lo: usize, hi: usize) -> (r: String)
    requires
        lo <= hi <= nodes@.len(),
    ensures
        r@ == spec_description(nodes@, lo as int, hi as int),
{
    let raw = desc_from(nodes, lo, hi, Vec::new());
    let t = trim_chars(&raw);
    chars_string(&t)
}

/// Like [`spec_desc_from`], but only a heading stops the scan: used for the
/// description of a tree, taken from prose before the first child heading.
pub open spec fn spec_tree_desc_from(
    nodes: Seq<Block>,
    i: int,
    hi: int,
    acc: Seq<char>,
) -> Seq<char>
    decreases hi - i,
{
    if i < 0 || i >= hi || hi > nodes.len() {
        acc
    } else {
        match nodes[i] {
            Block::Paragraph { children, .. } => spec_tree_desc_from(
                nodes,
                i + 1,
                hi,
                if acc.len() == 0 {
                    spec_inline_text(children@)
                } else {
                    acc + seq!['\n', '\n'] + spec_inline_text(children@)
                },
            ),
            Block::Heading { .. } => acc,
            _ => spec_tree_desc_from(nodes, i + 1, hi, acc),
        }
    }
}

/// The description of a tree: prose before the first child heading, trimmed.
pub open spec fn spec_tree_description(nodes: Seq<Block>, lo: int, hi: int) -> Seq<char> {
    spec_trim(spec_tree_desc_from(nodes, lo, hi, Seq::empty()))
}

fn tree_desc_from(nodes: &Vec<Block>, i: usize, hi: usize, acc: Vec<char>) -> (r: Vec<char>)
    requires
        hi <= nodes@.len(),
    ensures
        r@ == spec_tree_desc_from(nodes@, i as int, hi as int, acc@),
    decreases hi - i,
{
    if i >= hi {
        return acc;
    }
    match &nodes[i] {
        Block::Paragraph { children, .. } => {
            let text = inline_text_chars(children);
            let ghost a0 = acc@;
            let mut acc2 = acc;
            if acc2.len() == 0 {
                acc2 = text;
            } else {
                acc2.push('\n');
                acc2.push('\n');
                push_chars(&mut acc2, &text);
                proof {
                    assert(acc2@ =~= a0 + seq!['\n', '\n'] + text@);
                }
            }
            tree_desc_from(nodes, i + 1, hi, acc2)
        },
        Block::Heading { .. } => acc,
        _ => tree_desc_from(nodes, i + 1, hi, acc),
    }
}

/// The description of a tree: prose before the first child heading, trimmed.
pub fn collect_tree_description(nodes: &Vec<Block>, lo: usize, hi: usize) -> (r: String)
    requires
        lo <= hi <= nodes@.len(),
    ensures
        r@ == spec_tree_description(nodes@, lo as int, hi as int),
{
    let raw = tree_desc_from(nodes, lo, hi, Vec::new());
    let t = trim_chars(&raw);
    chars_string(&t)
}

// ---------------------------------------------------------------------------
// Section spans
// ---------------------------------------------------------------------------
/// The span accumulated by merging the spans of the block range `[i, hi)`
/// onto `acc`.
pub open spec fn spec_span_from(nodes: Seq<Block>, i: int, hi: int, acc: Option<Span>) -> Option<
    Span,
>
    decreases hi - i,
{
    if i < 0 || i >= hi || hi > nodes.len() {
        acc
    } else {
        spec_span_from(nodes, i + 1, hi, spec_merge_opt(acc, nodes[i].spec_span()))
    }
}

/// The span of a section: its heading's span merged with the spans of its
/// body blocks.
pub fn section_span(nodes: &Vec<Block>, lo: usize, hi: usize, heading_span: &Option<Span>) -> (r:
    Option<Span>)
    requires
        lo <= hi <= nodes@.len(),
    ensures
        r == spec_span_from(nodes@, lo as int, hi as int, *heading_span),
{
    let mut acc: Option<Span> = *heading_span;
    let mut i: usize = lo;
    while i < hi
        invariant
            lo <= i <= hi <= nodes@.len(),
            spec_span_from(nodes@, lo as int, hi as int, *heading_span) == spec_span_from(
                nodes@,
                i as int,
                hi as int,
                acc,
            ),
        decreases hi - i,
    {
        let s = nodes[i].span();
        crate::location::merge_span(&mut acc, &s);
        i = i + 1;
    }
    acc
}

// ---------------------------------------------------------------------------
// Output-path inference
// ---------------------------------------------------------------------------
/// The first inline-code child with non-empty trimmed value, scanning from
/// `i`.
pub open spec fn spec_first_code(children: Seq<Inline>, i: int) -> Option<Seq<char>>
    decreases children.len() - i,
{
    if i < 0 || i >= children.len() {
        Option::None
    } else {
        match children[i] {
            Inline::InlineCode { value } => if spec_trim(value@).len() > 0 {
                Option::Some(spec_trim(value@))
            } else {
                spec_first_code(children, i + 1)
            },
            _ => spec_first_code(children, i + 1),
        }
    }
}

fn first_code(children: &Vec<Inline>, i: usize) -> (r: Option<String>)
    ensures
        r.deep_view() == spec_first_code(children@, i as int),
    decreases children@.len() - i,
{
    if i >= children.len() {
        return Option::None;
    }
    match &children[i] {
        Inline::InlineCode { value } => {
            let cs = str_chars(value.as_str());
            let t = trim_chars(&cs);
            if t.len() > 0 {
                Option::Some(chars_string(&t))
            } else {
                first_code(children, i + 1)
            }
        },
        _ => first_code(children, i + 1),
    }
}

/// The output path declared in a body range: scanning in order and stopping
/// at the first code block, a paragraph whose trimmed text ends in `:` and
/// which holds inline code supplies the path (its first non-empty inline
/// code, trimmed).
pub open spec fn spec_path_before_code(nodes: Seq<Block>, i: int, hi: int) -> Option<Seq<char>>
    decreases hi - i,
{
    if i < 0 || i >= hi || hi > nodes.len() {
        Option::None
    } else {
        match nodes[i] {
            Block::Code { .. } => Option::None,
            Block::Paragraph { children, .. } => {
                let t = spec_trim(spec_inline_text(children@));
                if t.len() > 0 && t.last() == ':' {
                    match spec_first_code(children@, 0) {
                        Option::Some(v) => Option::Some(v),
                        Option::None => spec_path_before_code(nodes, i + 1, hi),
                    }
                } else {
                    spec_path_before_code(nodes, i + 1, hi)
                }
            },
            _ => spec_path_before_code(nodes, i + 1, hi),
        }
    }
}

fn path_before_code_from(nodes: &Vec<Block>, i: usize, hi: usize) -> (r: Option<String>)
    requires
        hi <= nodes@.len(),
    ensures
        r.deep_view() == spec_path_before_code(nodes@, i as int, hi as int),
    decreases hi - i,
{
    if i >= hi {
        return Option::None;
    }
    match &nodes[i] {
        Block::Code { .. } => Option::None,
        Block::Paragraph { children, .. } => {
            let text = inline_text_chars(children);
            let t = trim_chars(&text);
            if t.len() > 0 && t[t.len() - 1] == ':' {
                match first_code(children, 0) {
                    Option::Some(v) => Option::Some(v),
                    Option::None => path_before_code_from(nodes, i + 1, hi),
                }
            } else {
                path_before_code_from(nodes, i + 1, hi)
            }
        },
        _ => path_before_code_from(nodes, i + 1, hi),
    }
}

/// The output path declared in the body range `[lo, hi)`, if any.
pub fn extract_inline_path_before_code(nodes: &Vec<Block>, lo: usize, hi: usize) -> (r: Option<
    String,
>)
    requires
        lo <= hi <= nodes@.len(),
    ensures
        r.deep_view() == spec_path_before_code(nodes@, lo as int, hi as int),
{
    path_before_code_from(nodes, lo, hi)
}

/// The output path embedded in a heading: its first non-empty inline code.
pub open spec fn spec_heading_path(b: Block) -> Option<Seq<char>> {
    match b {
        Block::Heading { children, .. } => spec_first_code(children@, 0),
        _ => Option::None,
    }
}

/// The output path embedded in the heading block at `idx`, if any.
pub fn extract_inline_path_from_heading(nodes: &Vec<Block>, idx: usize) -> (r: Option<String>)
    requires
        idx < nodes@.len(),
    ensures
        r.deep_view() == spec_heading_path(nodes@[idx as int]),
{
    match &nodes[idx] {
        Block::Heading { children, .. } => first_code(children, 0),
        _ => Option::None,
    }
}

// ---------------------------------------------------------------------------
// Argument parsing
// ---------------------------------------------------------------------------
/// The scan state while reading one argument list item: the name found so
/// far (the first inline code) and the flattened text after it.
pub struct ArgScanV {
    pub name: Option<Seq<char>>,
    pub acc: Seq<char>,
}

/// Scan the inline children of one paragraph: the first inline code becomes
/// the name; everything after it is flattened, fragments separated by a
/// single space where neither side supplies one.
pub open spec fn spec_scan_inline(children: Seq<Inline>, i: int, st: ArgScanV) -> ArgScanV
    decreases children.len() - i,
{
    if i < 0 || i >= children.len() {
        st
    } else {
        let c = children[i];
        let st2 = if st.name is None {
            match c {
                Inline::InlineCode { value } => ArgScanV { name: Option::Some(value@), acc: st.acc },
                _ => st,
            }
        } else {
            let frag = spec_inline_one(c);
            if frag.len() == 0 {
                st
            } else if st.acc.len() > 0 && st.acc.last() != ' ' && !spec_is_space(frag[0]) {
                ArgScanV { name: st.name, acc: st.acc + seq![' '] + frag }
            } else {
                ArgScanV { name: st.name, acc: st.acc + frag }
            }
        };
        spec_scan_inline(children, i + 1, st2)
    }
}

/// Scan the blocks of one list item: only paragraphs contribute.
pub open spec fn spec_scan_item(blocks: Seq<Block>, i: int, st: ArgScanV) -> ArgScanV
    decreases blocks.len() - i,
{
    if i < 0 || i >= blocks.len() {
        st
    } else {
        let st2 = match blocks[i] {
            Block::Paragraph { children, .. } => spec_scan_inline(children@, 0, st),
            _ => st,
        };
        spec_scan_item(blocks, i + 1, st2)
    }
}

/// The first index of `c` in `s` at or after `i`, or `-1`.
pub open spec fn spec_index_of(s: Seq<char>, c: char, i: int) -> int
    decreases s.len() - i,
{
    if i < 0 || i >= s.len() {
        -1
    } else if s[i] == c {
        i
    } else {
        spec_index_of(s, c, i + 1)
    }
}

pub fn index_of(s: &Vec<char>, c: char, i: usize) -> (r: Option<usize>)
    ensures
        match r {
            Option::Some(j) => j as int == spec_index_of(s@, c, i as int) && i <= j < s@.len(),
            Option::None => spec_index_of(s@, c, i as int) == -1,
        },
    decreases s@.len() - i,
{
    if i >= s.len() {
        Option::None
    } else if s[i] == c {
        Option::Some(i)
    } else {
        index_of(s, c, i + 1)
    }
}

/// Whether a character is one of the accepted description separators:
/// colon, hyphen, en dash, em dash.
pub open spec fn spec_is_separator(c: char) -> bool {
    c == ':' || c == '-' || c == '\u{2013}' || c == '\u{2014}'
}

/// The argument built from a raw inline-code name and the flattened text
/// after it: a trailing `?` on the name makes the argument optional, a
/// leading bracketed `boolean`/`string`/`number` tag sets the kind, and the
/// rest, with one leading separator stripped, is the trimmed description.
pub open spec fn spec_arg_from(raw: Seq<char>, rest: Seq<char>) -> ArgV {
    let optional = raw.len() > 0 && raw.last() == '?';
    let name = if optional {
        raw.drop_last()
    } else {
        raw
    };
    let t0 = spec_trim_start(rest);
    let close = spec_index_of(t0, ']', 1);
    let tagged = t0.len() > 0 && t0[0] == '[' && close >= 1;
    let tag = if tagged {
        t0.subrange(1, close)
    } else {
        Seq::empty()
    };
    let kind = if tagged && tag == "boolean"@ {
        ArgKind::Boolean(ArgKindBoolean)
    } else if tagged && tag == "string"@ {
        ArgKind::String(ArgKindString)
    } else if tagged && tag == "number"@ {
        ArgKind::Number(ArgKindNumber)
    } else {
        ArgKind::Any(ArgKindAny)
    };
    let t1 = if tagged && !(kind is Any) {
        spec_trim_start(t0.subrange(close + 1, t0.len() as int))
    } else {
        t0
    };
    let t2 = if t1.len() > 0 && spec_is_separator(t1[0]) {
        t1.drop_first()
    } else {
        t1
    };
    ArgV { name, description: spec_trim(t2), kind, required: !optional }
}

/// The argument declared by one list item, if its text holds an inline-code
/// name.
pub open spec fn spec_parse_arg_item(item: ListItem) -> Option<ArgV> {
    let st = spec_scan_item(item.children@, 0, ArgScanV { name: Option::None, acc: Seq::empty() });
    match st.name {
        Option::None => Option::None,
        Option::Some(raw) => Option::Some(spec_arg_from(raw, st.acc)),
    }
}

fn arg_from(raw: Vec<char>, rest: Vec<char>) -> (r: Arg)
    ensures
        r@ == spec_arg_from(raw@, rest@),
{
    let optional = raw.len() > 0 && raw[raw.len() - 1] == '?';
    let ghost raw0 = raw@;
    let mut name = raw;
    if optional {
        name.pop();
        proof {
            assert(name@ =~= raw0.drop_last());
        }
    }
    let t0 = trim_start_chars(&rest);
    let mut kind = ArgKind::Any(ArgKindAny);
    let mut after_tag: usize = 0;
    let mut tagged_known = false;
    if t0.len() > 0 && t0[0] == '[' {
        match index_of(&t0, ']', 1) {
            Option::Some(close) => {
                let tag = subrange_chars(&t0, 1, close);
                if chars_eq_str(&tag, "boolean") {
                    kind = ArgKind::Boolean(ArgKindBoolean);
                } else if chars_eq_str(&tag, "string") {
                    kind = ArgKind::String(ArgKindString);
                } else if chars_eq_str(&tag, "number") {
                    kind = ArgKind::Number(ArgKindNumber);
                }
                match kind {
                    ArgKind::Any(_) => {},
                    _ => {
                        after_tag = close + 1;
                        tagged_known = true;
                    },
                }
            },
            Option::None => {},
        }
    }
    let t1 = if tagged_known {
        let tail = subrange_chars(&t0, after_tag, t0.len());
        trim_start_chars(&tail)
    } else {
        t0
    };
    let t2 = if t1.len() > 0 && (t1[0] == ':' || t1[0] == '-' || t1[0] == '\u{2013}' || t1[0]
        == '\u{2014}') {
        subrange_chars(&t1, 1, t1.len())
    } else {
        t1
    };
    proof {
        if t1@.len() > 0 && spec_is_separator(t1@[0]) {
            assert(t2@ =~= t1@.drop_first());
        }
    }
    let desc = trim_chars(&t2);
    Arg {
        name: chars_string(&name),
        description: chars_string(&desc),
        kind,
        required: !optional,
    }
}

/// Parse one list item into an argument, when it declares one.
pub fn parse_arg_item(item: &ListItem) -> (r: Option<Arg>)
    ensures
        r.deep_view() == spec_parse_arg_item(*item),
{
    let blocks = &item.children;
    let mut name: Option<Vec<char>> = Option::None;
    let mut acc: Vec<char> = Vec::new();
    let ghost init = ArgScanV { name: Option::None, acc: Seq::empty() };
    let n = blocks.len();
    let mut i: usize = 0;
    while i < n
        invariant
            0 <= i <= n,
            n == blocks@.len(),
            spec_scan_item(blocks@, 0, init) == spec_scan_item(
                blocks@,
                i as int,
                ArgScanV { name: name.deep_view(), acc: acc@ },
            ),
        decreases n - i,
    {
        match &blocks[i] {
            Block::Paragraph { children, .. } => {
                let ghost pre = ArgScanV { name: name.deep_view(), acc: acc@ };
                let m = children.len();
                let mut j: usize = 0;
                while j < m
                    invariant
                        0 <= j <= m,
                        m == children@.len(),
                        spec_scan_inline(children@, 0, pre) == spec_scan_inline(
                            children@,
                            j as int,
                            ArgScanV { name: name.deep_view(), acc: acc@ },
                        ),
                    decreases m - j,
                {
                    let ghost stj = ArgScanV { name: name.deep_view(), acc: acc@ };
                    let is_named = match &name {
                        Option::Some(_) => true,
                        Option::None => false,
                    };
                    if !is_named {
                        match &children[j] {
                            Inline::InlineCode { value } => {
                                let nv = str_chars(value.as_str());
                                proof {
                                    crate::chars::lemma_chars_deep_view(nv);
                                }
                                name = Option::Some(nv);
                            },
                            _ => {},
                        }
                    } else {
                        let frag = inline_one_text(&children[j]);
                        if frag.len() > 0 {
                            let ghost pa = acc@;
                            if acc.len() > 0 && acc[acc.len() - 1] != ' '
                                && !crate::chars::char_is_space(frag[0]) {
                                acc.push(' ');
                                push_chars(&mut acc, &frag);
                                proof {
                                    assert(acc@ =~= pa + seq![' '] + frag@);
                                }
                            } else {
                                push_chars(&mut acc, &frag);
                            }
                        }
                    }
                    proof {
                        let stn = ArgScanV { name: name.deep_view(), acc: acc@ };
                        assert(spec_scan_inline(children@, j as int, stj) == spec_scan_inline(
                            children@,
                            j + 1,
                            stn,
                        ));
                    }
                    j = j + 1;
                }
            },
            _ => {},
        }
        i = i + 1;
    }
    match name {
        Option::None => Option::None,
        Option::Some(raw) => {
            proof {
                crate::chars::lemma_chars_deep_view(raw);
            }
            Option::Some(arg_from(raw, acc))
        },
    }
}

/// The arguments declared in the block range `[i, hi)`: the items of each
/// list, in order.
pub open spec fn spec_args_items(items: Seq<ListItem>, j: int) -> Seq<ArgV>
    decreases items.len() - j,
{
    if j < 0 || j >= items.len() {
        Seq::empty()
    } else {
        (match spec_parse_arg_item(items[j]) {
            Option::Some(a) => seq![a],
            Option::None => Seq::empty(),
        }) + spec_args_items(items, j + 1)
    }
}

/// The arguments declared in the block range `[i, hi)`.
pub open spec fn spec_args_range(nodes: Seq<Block>, i: int, hi: int) -> Seq<ArgV>
    decreases hi - i,
{
    if i < 0 || i >= hi || hi > nodes.len() {
        Seq::empty()
    } else {
        (match nodes[i] {
            Block::List { items, .. } => spec_args_items(items@, 0),
            _ => Seq::empty(),
        }) + spec_args_range(nodes, i + 1, hi)
    }
}

/// Parse the argument list declared in the block range `[lo, hi)`.
pub fn parse_args(nodes: &Vec<Block>, lo: usize, hi: usize) -> (r: Vec<Arg>)
    requires
        lo <= hi <= nodes@.len(),
    ensures
        r.deep_view() == spec_args_range(nodes@, lo as int, hi as int),
{
    let mut acc: Vec<Arg> = Vec::new();
    let mut i: usize = lo;
    while i < hi
        invariant
            lo <= i <= hi <= nodes@.len(),
            spec_args_range(nodes@, lo as int, hi as int) =~= acc.deep_view() + spec_args_range(
                nodes@,
                i as int,
                hi as int,
            ),
        decreases hi - i,
    {
        match &nodes[i] {
            Block::List { items, .. } => {
                let m = items.len();
                let mut j: usize = 0;
                while j < m
                    invariant
                        0 <= j <= m,
                        m == items@.len(),
                        lo <= i < hi <= nodes@.len(),
                        spec_args_range(nodes@, lo as int, hi as int) =~= acc.deep_view()
                            + spec_args_items(items@, j as int) + spec_args_range(
                            nodes@,
                            i + 1,
                            hi as int,
                        ),
                    decreases m - j,
                {
                    let ghost pre = acc;
                    match parse_arg_item(&items[j]) {
                        Option::Some(a) => {
                            acc.push(a);
                            proof {
                                lemma_deep_view_push(pre, acc, a);
                                assert(acc.deep_view() =~= pre.deep_view() + seq![a@]);
                            }
                        },
                        Option::None => {},
                    }
                    j = j + 1;
                }
            },
            _ => {},
        }
        i = i + 1;
    }
    proof {
        assert(spec_args_range(nodes@, lo as int, hi as int) =~= acc.deep_view());
    }
    acc
}

/// Copy out a subrange of a character vector.
pub fn subrange_chars(v: &Vec<char>, a: usize, b: usize) -> (r: Vec<char>)
    requires
        a <= b <= v@.len(),
    ensures
        r@ == v@.subrange(a as int, b as int),
{
    let mut out: Vec<char> = Vec::new();
    let mut k: usize = a;
    while k < b
        invariant
            a <= k <= b <= v@.len(),
            out@ =~= v@.subrange(a as int, k as int),
        decreases b - k,
    {
        out.push(v[k]);
        k = k + 1;
    }
    out
}

} // verus!
