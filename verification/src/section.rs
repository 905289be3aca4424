//! The section builder: turns a flat list of blocks into the document's
//! sections.
//!
//! Every heading opens a section. A section's body runs from the node after
//! its heading up to, but excluding, the next heading of equal or shallower
//! depth (or the end of the range). Each section carries its full heading
//! path: the titles of the enclosing headings plus its own.

use vstd::prelude::*;

use crate::chars::{chars_eq_str, lower_chars, spec_lower_seq, spec_trim, str_chars, trim_chars};
use crate::location::Span;
use crate::node::{inline_text, spec_inline_text, Block};

verus! {

/// One heading found in a block range.
#[derive(Debug)]
pub struct Head {
    pub idx: usize,
    pub level: u8,
    pub title: String,
    pub span: Option<Span>,
}

/// The mathematical model of a [`Head`].
pub struct HeadV {
    pub idx: int,
    pub level: u8,
    pub title: Seq<char>,
    pub span: Option<Span>,
}

impl View for Head {
    type V = HeadV;

    open spec fn view(&self) -> HeadV {
        HeadV { idx: self.idx as int, level: self.level, title: self.title@, span: self.span }
    }
}

impl DeepView for Head {
    type V = HeadV;

    open spec fn deep_view(&self) -> HeadV {
        self@
    }
}

/// A section of the document: its heading, its body range within the
/// document's blocks, and its full heading path.
#[derive(Debug)]
pub struct Section {
    pub level: u8,
    pub title: String,
    pub head_idx: usize,
    pub body_start: usize,
    pub body_end: usize,
    pub heading_span: Option<Span>,
    pub path: Vec<String>,
}

/// The mathematical model of a [`Section`].
pub struct SectionV {
    pub level: u8,
    pub title: Seq<char>,
    pub head_idx: int,
    pub body_start: int,
    pub body_end: int,
    pub heading_span: Option<Span>,
    pub path: Seq<Seq<char>>,
}

impl View for Section {
    type V = SectionV;

    open spec fn view(&self) -> SectionV {
        SectionV {
            level: self.level,
            title: self.title@,
            head_idx: self.head_idx as int,
            body_start: self.body_start as int,
            body_end: self.body_end as int,
            heading_span: self.heading_span,
            path: self.path.deep_view(),
        }
    }
}

impl DeepView for Section {
    type V = SectionV;

    open spec fn deep_view(&self) -> SectionV {
        self@
    }
}

/// Whether the block is a heading whose model is `h`.
pub open spec fn spec_head_matches(b: Block, h: HeadV) -> bool {
    match b {
        Block::Heading { depth, children, span } => h.level == depth && h.title
            == spec_inline_text(children@) && h.span == span,
        _ => false,
    }
}

/// The headings of the block range `[i, hi)`, in order.
pub open spec fn spec_heads(nodes: Seq<Block>, i: int, hi: int) -> Seq<HeadV>
    decreases hi - i,
{
    if i < 0 || i >= hi || hi > nodes.len() {
        Seq::empty()
    } else {
        let rest = spec_heads(nodes, i + 1, hi);
        match nodes[i] {
            Block::Heading { depth, children, span } => seq![
                HeadV {
                    idx: i,
                    level: depth,
                    title: spec_inline_text(children@),
                    span,
                },
            ] + rest,
            _ => rest,
        }
    }
}

/// Every found heading lies in its range, matches its block, and comes in
/// strictly increasing order of position.
pub proof fn lemma_heads_props(nodes: Seq<Block>, i: int, hi: int)
    requires
        0 <= i,
        hi <= nodes.len(),
    ensures
        forall|k: int|
            0 <= k < spec_heads(nodes, i, hi).len() ==> {
                let h = #[trigger] spec_heads(nodes, i, hi)[k];
                i <= h.idx < hi && spec_head_matches(nodes[h.idx], h)
            },
        forall|k: int|
            0 < k < spec_heads(nodes, i, hi).len() ==> spec_heads(nodes, i, hi)[k - 1].idx < (
            #[trigger] spec_heads(nodes, i, hi)[k]).idx,
    decreases hi - i,
{
    if i < hi && hi <= nodes.len() {
        lemma_heads_props(nodes, i + 1, hi);
    }
}

/// The position where the section of a level-`level` heading ends, scanning
/// the heading list from entry `j` on: the position of the first subsequent
/// heading of equal or shallower depth, or `hi`.
pub open spec fn spec_sec_end(heads: Seq<HeadV>, j: int, level: u8, hi: int) -> int
    decreases heads.len() - j,
{
    if j < 0 || j >= heads.len() {
        hi
    } else if heads[j].level <= level {
        heads[j].idx
    } else {
        spec_sec_end(heads, j + 1, level, hi)
    }
}

/// Pop every stack entry of depth `level` or deeper.
pub open spec fn spec_pop_ge(st: Seq<(u8, Seq<char>)>, level: u8) -> Seq<(u8, Seq<char>)>
    decreases st.len(),
{
    if st.len() == 0 {
        st
    } else if st.last().0 >= level {
        spec_pop_ge(st.drop_last(), level)
    } else {
        st
    }
}

/// The heading stack after the first `k` headings have been processed: each
/// heading pops the entries of equal or greater depth and pushes itself.
pub open spec fn spec_stack_after(heads: Seq<HeadV>, k: int) -> Seq<(u8, Seq<char>)>
    decreases k,
{
    if k <= 0 {
        Seq::empty()
    } else {
        let h = heads[k - 1];
        spec_pop_ge(spec_stack_after(heads, k - 1), h.level).push((h.level, h.title))
    }
}

/// The full heading path of the `k`-th heading: enclosing titles plus its
/// own.
pub open spec fn spec_path_of(heads: Seq<HeadV>, k: int) -> Seq<Seq<char>> {
    spec_stack_after(heads, k + 1).map_values(|p: (u8, Seq<char>)| p.1)
}

/// The model of the `k`-th section of the range `[lo, hi)`.
pub open spec fn spec_section_at(nodes: Seq<Block>, lo: int, hi: int, k: int) -> SectionV {
    let heads = spec_heads(nodes, lo, hi);
    let h = heads[k];
    SectionV {
        level: h.level,
        title: h.title,
        head_idx: h.idx,
        body_start: h.idx + 1,
        body_end: spec_sec_end(heads, k + 1, h.level, hi),
        heading_span: h.span,
        path: spec_path_of(heads, k),
    }
}

/// The sections of the block range `[lo, hi)`, in document order.
pub open spec fn spec_sections(nodes: Seq<Block>, lo: int, hi: int) -> Seq<SectionV> {
    Seq::new(spec_heads(nodes, lo, hi).len(), |k: int| spec_section_at(nodes, lo, hi, k))
}

/// Build the sections of the block range `[lo, hi)`.
pub fn make_sections_range(nodes: &Vec<Block>, lo: usize, hi: usize) -> (r: Vec<Section>)
    requires
        lo <= hi <= nodes@.len(),
    ensures
        r.deep_view() == spec_sections(nodes@, lo as int, hi as int),
{
    let ghost all = spec_heads(nodes@, lo as int, hi as int);
    // First pass: find the headings.
    let mut heads: Vec<Head> = Vec::new();
    let mut i: usize = lo;
    while i < hi
        invariant
            lo <= i <= hi <= nodes@.len(),
            all == heads.deep_view() + spec_heads(nodes@, i as int, hi as int),
            all == spec_heads(nodes@, lo as int, hi as int),
        decreases hi - i,
    {
        match &nodes[i] {
            Block::Heading { depth, children, span } => {
                let title = inline_text(children);
                let h = Head { idx: i, level: *depth, title, span: *span };
                heads.push(h);
                proof {
                    assert(all =~= heads.deep_view() + spec_heads(
                        nodes@,
                        i + 1,
                        hi as int,
                    ));
                }
            },
            _ => {},
        }
        i = i + 1;
    }
    proof {
        assert(all =~= heads.deep_view());
        lemma_heads_props(nodes@, lo as int, hi as int);
    }

    // Second pass: one section per heading, with stack-derived paths.
    let n = heads.len();
    let mut sections: Vec<Section> = Vec::new();
    let mut stack: Vec<(u8, String)> = Vec::new();
    let mut k: usize = 0;
    while k < n
        invariant
            0 <= k <= n,
            n == all.len(),
            heads.deep_view() == all,
            heads@.len() == n,
            lo <= hi <= nodes@.len(),
            all == spec_heads(nodes@, lo as int, hi as int),
            stack.deep_view() == spec_stack_after(all, k as int),
            sections@.len() == k,
            forall|q: int|
                0 <= q < k ==> (#[trigger] sections@[q])@ == spec_sections(
                    nodes@,
                    lo as int,
                    hi as int,
                )[q],
            forall|j: int|
                0 <= j < all.len() ==> lo <= #[trigger] all[j].idx < hi,
        decreases n - k,
    {
        let level = heads[k].level;
        // Pop entries of equal or greater depth.
        while stack.len() > 0 && stack[stack.len() - 1].0 >= level
            invariant
                spec_pop_ge(spec_stack_after(all, k as int), level) == spec_pop_ge(
                    stack.deep_view(),
                    level,
                ),
            decreases stack.len(),
        {
            let ghost pre = stack.deep_view();
            proof {
                assert(pre.last() == stack@[stack@.len() - 1].deep_view());
            }
            stack.pop();
            proof {
                assert(stack.deep_view() =~= pre.drop_last());
                assert(spec_pop_ge(pre, level) == spec_pop_ge(pre.drop_last(), level));
            }
        }
        proof {
            if stack@.len() > 0 {
                assert(stack.deep_view().last() == stack@[stack@.len() - 1].deep_view());
            }
            assert(spec_pop_ge(stack.deep_view(), level) == stack.deep_view());
        }
        // The path: titles on the stack, then this heading's own title.
        let ghost popped = stack.deep_view();
        let mut path: Vec<String> = Vec::new();
        let mut t: usize = 0;
        while t < stack.len()
            invariant
                0 <= t <= stack@.len(),
                stack.deep_view() == popped,
                path@.len() == t,
                forall|q: int| 0 <= q < t ==> #[trigger] path@[q]@ == stack@[q].1@,
            decreases stack.len() - t,
        {
            path.push(stack[t].1.clone());
            t = t + 1;
        }
        proof {
            assert forall|q: int| 0 <= q < popped.len() implies #[trigger] path.deep_view()[q]
                == popped.map_values(|p: (u8, Seq<char>)| p.1)[q] by {
                assert(popped[q] == stack@[q].deep_view());
            }
            assert(path.deep_view() =~= popped.map_values(|p: (u8, Seq<char>)| p.1));
        }
        let title = heads[k].title.clone();
        path.push(title.clone());
        stack.push((level, title.clone()));
        proof {
            assert(stack@.last() == (level, title));
            assert(stack@.last().deep_view() == (level, heads.deep_view()[k as int].title));
            assert forall|q: int| 0 <= q < stack@.len() implies #[trigger] stack.deep_view()[q]
                == spec_stack_after(all, k + 1)[q] by {
                if q < stack@.len() - 1 {
                    assert(stack.deep_view()[q] == popped[q]);
                }
            }
            assert(stack.deep_view() =~= spec_stack_after(all, k + 1));
            assert forall|q: int| 0 <= q < path@.len() implies #[trigger] path.deep_view()[q]
                == spec_path_of(all, k as int)[q] by {
                if q < path@.len() - 1 {
                    assert(path.deep_view()[q] == popped.map_values(|p: (u8, Seq<char>)| p.1)[q]);
                }
            }
            assert(path.deep_view() =~= spec_path_of(all, k as int));
        }
        // The body runs up to the next heading of equal or shallower depth.
        let mut j: usize = k + 1;
        while j < n && heads[j].level > level
            invariant
                k < j <= n,
                n == all.len(),
                heads.deep_view() == all,
                heads@.len() == n,
                spec_sec_end(all, k + 1, level, hi as int) == spec_sec_end(
                    all,
                    j as int,
                    level,
                    hi as int,
                ),
            decreases n - j,
        {
            proof {
                assert(heads.deep_view()[j as int] == heads@[j as int]@);
            }
            j = j + 1;
        }
        let end: usize = if j < n {
            proof {
                assert(heads.deep_view()[j as int] == heads@[j as int]@);
                assert(all[j as int].idx < hi);
            }
            heads[j].idx
        } else {
            hi
        };
        proof {
            assert(end as int == spec_sec_end(all, k + 1, level, hi as int));
            assert(heads.deep_view()[k as int] == heads@[k as int]@);
        }
        let head_idx = heads[k].idx;
        let sec = Section {
            level,
            title: heads[k].title.clone(),
            head_idx,
            body_start: head_idx + 1,
            body_end: end,
            heading_span: heads[k].span,
            path,
        };
        proof {
            assert(sec@ == spec_section_at(nodes@, lo as int, hi as int, k as int));
        }
        sections.push(sec);
        proof {
            assert(sections@[k as int] == sec);
        }
        k = k + 1;
    }
    proof {
        let target = spec_sections(nodes@, lo as int, hi as int);
        assert forall|q: int| 0 <= q < n implies #[trigger] sections.deep_view()[q] == target[q] by {
            assert(sections.deep_view()[q] == sections@[q]@);
        }
        assert(sections.deep_view() =~= target);
    }
    sections
}

/// Whether a trimmed, lowercased title is one of the reserved subhead
/// markers.
pub open spec fn spec_is_allowed(title: Seq<char>) -> bool {
    let t = spec_lower_seq(spec_trim(title));
    t == "args"@ || t == "arguments"@ || t == "template"@
}

/// Whether a trimmed, lowercased title is one of the reserved subhead
/// markers: `args`, `arguments`, `template`.
pub fn is_allowed(title: &str) -> (r: bool)
    ensures
        r == spec_is_allowed(title@),
{
    let cs = str_chars(title);
    let t = lower_chars(&trim_chars(&cs));
    chars_eq_str(&t, "args") || chars_eq_str(&t, "arguments") || chars_eq_str(&t, "template")
}

/// Whether a trimmed, lowercased title equals one of the given names.
pub open spec fn spec_matches_subhead(title: Seq<char>, names: Seq<Seq<char>>) -> bool {
    exists|i: int|
        0 <= i < names.len() && spec_lower_seq(spec_trim(title)) == names[i]
}

/// Whether a trimmed, lowercased title equals one of the given names.
pub fn matches_subhead(title: &str, names: &Vec<String>) -> (r: bool)
    ensures
        r == spec_matches_subhead(title@, names.deep_view()),
{
    let cs = str_chars(title);
    let t = lower_chars(&trim_chars(&cs));
    let n = names.len();
    let mut i: usize = 0;
    while i < n
        invariant
            0 <= i <= n,
            n == names@.len(),
            t@ == spec_lower_seq(spec_trim(title@)),
            forall|j: int| 0 <= j < i ==> t@ != names.deep_view()[j],
        decreases n - i,
    {
        if chars_eq_str(&t, names[i].as_str()) {
            proof {
                assert(names.deep_view()[i as int] == names@[i as int]@);
            }
            return true;
        }
        i = i + 1;
    }
    false
}

/// Whether any heading of the block range `[lo, hi)` bears a reserved
/// subhead marker as its title.
pub open spec fn spec_block_allowed_head(b: Block) -> bool {
    match b {
        Block::Heading { children, .. } => spec_is_allowed(spec_inline_text(children@)),
        _ => false,
    }
}

/// Whether any heading of the block range `[lo, hi)` bears a reserved
/// subhead marker as its title.
pub open spec fn spec_contains_allowed(nodes: Seq<Block>, lo: int, hi: int) -> bool {
    exists|i: int| lo <= i < hi && i < nodes.len() && spec_block_allowed_head(nodes[i])
}

/// Whether the block range `[lo, hi)` holds a heading with a reserved
/// subhead title.
pub fn contains_allowed(nodes: &Vec<Block>, lo: usize, hi: usize) -> (r: bool)
    requires
        lo <= hi <= nodes@.len(),
    ensures
        r == spec_contains_allowed(nodes@, lo as int, hi as int),
{
    let mut i: usize = lo;
    while i < hi
        invariant
            lo <= i <= hi <= nodes@.len(),
            forall|j: int| lo <= j < i ==> !spec_block_allowed_head(nodes@[j]),
        decreases hi - i,
    {
        match &nodes[i] {
            Block::Heading { children, .. } => {
                let title = inline_text(children);
                if is_allowed(title.as_str()) {
                    return true;
                }
            },
            _ => {},
        }
        i = i + 1;
    }
    false
}

} // verus!
