//! The structural parser: classifies a document's sections into file
//! templates, trees and collections.
//!
//! Two strategies exist. When some section bears a reserved subhead title
//! (`args`, `arguments`, `template`), recognition is anchored one level above
//! the shallowest such subhead: sections at that base level holding a subhead
//! are extracted, and their immediate child sections become sub-templates.
//! Without any reserved subhead, every section with no nested heading and
//! exactly one fenced code block becomes a minimal template. In both
//! strategies, sibling templates under one parent section are promoted to a
//! tree exactly when every one of them declares an output path.

use vstd::prelude::*;

use crate::chars::{chars_string, push_chars, push_str_chars, str_chars};
use crate::extract::{
    collect_code_blocks, collect_description, collect_tree_description,
    extract_inline_path_before_code, extract_inline_path_from_heading, parse_args, section_span,
    spec_args_range, spec_code_range, spec_description, spec_heading_path, spec_path_before_code,
    spec_span_from, spec_tree_description, CodeBlock,
};
use crate::id::{spec_id_of, EntityId};
use crate::location::{make_location, spec_make_location, Location, LocationV, Span};
use crate::node::Block;
use crate::section::{
    contains_allowed, is_allowed, make_sections_range, matches_subhead, spec_contains_allowed,
    spec_head_matches, spec_heads, spec_is_allowed, spec_matches_subhead, spec_sec_end,
    spec_sections, HeadV, Section, SectionV,
};
use crate::types::{
    lemma_deep_view_push, Arg, ArgV, Template, TemplateCollection, TemplateCollectionV,
    TemplateFile, TemplateFileKindFile, TemplateFileV, TemplateTree, TemplateTreeKindTree,
    TemplateTreeV, TemplateV,
};

verus! {

// ---------------------------------------------------------------------------
// Results and errors
// ---------------------------------------------------------------------------
/// Why a document failed to parse.
#[derive(Debug)]
pub enum ParseError {
    /// The text could not be read as markdown at all.
    StructuralParseError { message: String },
    /// No section qualified as a template under either strategy.
    NoTemplatesFound,
    /// A qualifying section's heading path normalized to an empty id.
    MissingIdentifier { heading_path: Vec<String> },
}

/// The mathematical model of a [`ParseError`].
pub enum ParseErrorV {
    StructuralParseError(Seq<char>),
    NoTemplatesFound,
    MissingIdentifier(Seq<Seq<char>>),
}

impl View for ParseError {
    type V = ParseErrorV;

    open spec fn view(&self) -> ParseErrorV {
        match self {
            ParseError::StructuralParseError { message } => ParseErrorV::StructuralParseError(message@),
            ParseError::NoTemplatesFound => ParseErrorV::NoTemplatesFound,
            ParseError::MissingIdentifier { heading_path } => ParseErrorV::MissingIdentifier(
                heading_path.deep_view(),
            ),
        }
    }
}

impl DeepView for ParseError {
    type V = ParseErrorV;

    open spec fn deep_view(&self) -> ParseErrorV {
        self@
    }
}

/// The text of a parse error.
pub open spec fn spec_parse_error_message(e: ParseErrorV) -> Seq<char> {
    match e {
        ParseErrorV::StructuralParseError(m) => "Failed to parse markdown: "@ + m,
        ParseErrorV::NoTemplatesFound => "No templates found in markdown"@,
        ParseErrorV::MissingIdentifier(path) => "Unable to derive template id from headings: "@
            + spec_join_gt(path),
    }
}

/// Heading-path segments joined with ` > ` for diagnostics.
pub open spec fn spec_join_gt(path: Seq<Seq<char>>) -> Seq<char>
    decreases path.len(),
{
    if path.len() == 0 {
        Seq::empty()
    } else if path.len() == 1 {
        path[0]
    } else {
        spec_join_gt(path.drop_last()) + " > "@ + path.last()
    }
}

impl ParseError {
    /// The display text of this error.
    pub fn message(&self) -> (r: String)
        ensures
            r@ == spec_parse_error_message(self@),
    {
        let mut out: Vec<char> = Vec::new();
        match self {
            ParseError::StructuralParseError { message } => {
                push_str_chars(&mut out, "Failed to parse markdown: ");
                push_str_chars(&mut out, message.as_str());
            },
            ParseError::NoTemplatesFound => {
                push_str_chars(&mut out, "No templates found in markdown");
            },
            ParseError::MissingIdentifier { heading_path } => {
                push_str_chars(&mut out, "Unable to derive template id from headings: ");
                let n = heading_path.len();
                let mut i: usize = 0;
                let mut joined: Vec<char> = Vec::new();
                while i < n
                    invariant
                        0 <= i <= n,
                        n == heading_path@.len(),
                        joined@ == spec_join_gt(heading_path.deep_view().take(i as int)),
                    decreases n - i,
                {
                    if i > 0 {
                        push_str_chars(&mut joined, " > ");
                    }
                    push_str_chars(&mut joined, heading_path[i].as_str());
                    proof {
                        let dv = heading_path.deep_view();
                        let t = dv.take(i + 1);
                        assert(t.drop_last() =~= dv.take(i as int));
                        assert(t.last() == dv[i as int]);
                        assert(dv[i as int] == heading_path@[i as int]@);
                        if i == 0 {
                            assert(joined@ =~= spec_join_gt(t));
                        }
                    }
                    i = i + 1;
                }
                proof {
                    assert(heading_path.deep_view().take(n as int) =~= heading_path.deep_view());
                }
                push_chars(&mut out, &joined);
            },
        }
        chars_string(&out)
    }
}

/// The result of parsing one document: a bare template, a bare tree, or a
/// collection of several entities.
#[derive(Debug)]
pub enum ParsedMarkdown {
    Template(Template),
    Tree(TemplateTree),
    Collection(TemplateCollection),
}

/// The mathematical model of a [`ParsedMarkdown`].
pub enum ParsedV {
    Template(TemplateV),
    Tree(TemplateTreeV),
    Collection(TemplateCollectionV),
}

impl View for ParsedMarkdown {
    type V = ParsedV;

    open spec fn view(&self) -> ParsedV {
        match self {
            ParsedMarkdown::Template(t) => ParsedV::Template(t@),
            ParsedMarkdown::Tree(t) => ParsedV::Tree(t@),
            ParsedMarkdown::Collection(c) => ParsedV::Collection(c@),
        }
    }
}

/// The model of a parse result.
pub open spec fn spec_result_view(r: Result<ParsedMarkdown, ParseError>) -> Result<
    ParsedV,
    ParseErrorV,
> {
    match r {
        Result::Ok(p) => Result::Ok(p@),
        Result::Err(e) => Result::Err(e@),
    }
}

// ---------------------------------------------------------------------------
// Section well-formedness
// ---------------------------------------------------------------------------
/// A section model that lies within the block range it was built from.
pub open spec fn spec_section_wf(nodes: Seq<Block>, s: SectionV) -> bool {
    &&& 0 <= s.head_idx < nodes.len()
    &&& s.body_start == s.head_idx + 1
    &&& s.body_start <= s.body_end <= nodes.len()
    &&& nodes[s.head_idx] is Heading
}

/// Heading positions are strictly increasing across the whole list.
proof fn lemma_heads_sorted(nodes: Seq<Block>, lo: int, hi: int, a: int, b: int)
    requires
        0 <= lo,
        hi <= nodes.len(),
        0 <= a < b < spec_heads(nodes, lo, hi).len(),
    ensures
        spec_heads(nodes, lo, hi)[a].idx < spec_heads(nodes, lo, hi)[b].idx,
    decreases b - a,
{
    crate::section::lemma_heads_props(nodes, lo, hi);
    if a + 1 < b {
        lemma_heads_sorted(nodes, lo, hi, a, b - 1);
    }
}

/// The end of a section lies after its heading and within the range.
proof fn lemma_sec_end_in_range(heads: Seq<HeadV>, j: int, level: u8, hi: int, base_idx: int)
    requires
        forall|m: int| 0 <= m < heads.len() ==> (#[trigger] heads[m]).idx < hi,
        forall|m: int| j <= m < heads.len() && 0 <= m ==> base_idx < (#[trigger] heads[m]).idx,
        base_idx < hi,
    ensures
        base_idx < spec_sec_end(heads, j, level, hi) <= hi,
    decreases heads.len() - j,
{
    if 0 <= j < heads.len() {
        if heads[j].level <= level {
        } else {
            lemma_sec_end_in_range(heads, j + 1, level, hi, base_idx);
        }
    }
}

// ---------------------------------------------------------------------------
// Template extraction from one section
// ---------------------------------------------------------------------------
/// The reserved titles of an argument subsection.
pub open spec fn spec_args_names() -> Seq<Seq<char>> {
    seq!["args"@, "arguments"@]
}

/// The reserved title of a template subsection.
pub open spec fn spec_template_names() -> Seq<Seq<char>> {
    seq!["template"@]
}

/// The first section, from index `j` on, whose title matches one of the
/// given names.
pub open spec fn spec_find_sub(subs: Seq<SectionV>, j: int, names: Seq<Seq<char>>) -> Option<
    SectionV,
>
    decreases subs.len() - j,
{
    if j < 0 || j >= subs.len() {
        Option::None
    } else if spec_matches_subhead(subs[j].title, names) {
        Option::Some(subs[j])
    } else {
        spec_find_sub(subs, j + 1, names)
    }
}

/// The location of a section: the document path with the section's span.
pub open spec fn spec_sec_location(nodes: Seq<Block>, s: SectionV, path: Seq<char>) -> LocationV {
    spec_make_location(path, spec_span_from(nodes, s.body_start, s.body_end, s.heading_span))
}

/// The first code block of a `template` subsection, if one was found and
/// holds any code.
pub open spec fn spec_primary_code(nodes: Seq<Block>, tpl: Option<SectionV>) -> Option<
    crate::extract::CodeBlockV,
> {
    match tpl {
        Option::Some(t) => {
            let cs = spec_code_range(nodes, t.body_start, t.body_end);
            if cs.len() > 0 {
                Option::Some(cs[0])
            } else {
                Option::None
            }
        },
        Option::None => Option::None,
    }
}

/// The inferred output path of a section: a declaring paragraph in its body,
/// or inline code in its own heading.
pub open spec fn spec_sec_path(nodes: Seq<Block>, s: SectionV) -> Option<Seq<char>> {
    match spec_path_before_code(nodes, s.body_start, s.body_end) {
        Option::Some(v) => Option::Some(v),
        Option::None => spec_heading_path(nodes[s.head_idx]),
    }
}

/// Extract a full template from a candidate section: name and description
/// from the section itself, arguments from an `args`/`arguments`
/// subsection, content from a `template` subsection's first code block or,
/// failing that, from the section's single code block. A section without
/// resolvable content is discarded (`Ok(None)`); a heading path that
/// normalizes to an empty id is a fatal `MissingIdentifier`.
pub open spec fn spec_parse_template(nodes: Seq<Block>, s: SectionV, path: Seq<char>) -> Result<
    Option<TemplateFileV>,
    ParseErrorV,
> {
    let id = spec_id_of(s.path);
    if id.len() == 0 {
        Result::Err(ParseErrorV::MissingIdentifier(s.path))
    } else {
        let subs = spec_sections(nodes, s.body_start, s.body_end);
        let args = match spec_find_sub(subs, 0, spec_args_names()) {
            Option::Some(a) => spec_args_range(nodes, a.body_start, a.body_end),
            Option::None => Seq::empty(),
        };
        let primary = spec_primary_code(nodes, spec_find_sub(subs, 0, spec_template_names()));
        let all = spec_code_range(nodes, s.body_start, s.body_end);
        let content1 = match primary {
            Option::Some(cb) => cb.value,
            Option::None => Seq::empty(),
        };
        let fallback = content1.len() == 0 && all.len() == 1;
        let lang = if fallback {
            all[0].lang
        } else {
            match primary {
                Option::Some(cb) => cb.lang,
                Option::None => Option::None,
            }
        };
        let content = if fallback {
            all[0].value
        } else {
            content1
        };
        if content.len() == 0 {
            Result::Ok(Option::None)
        } else {
            Result::Ok(
                Option::Some(
                    TemplateFileV {
                        id,
                        name: s.title,
                        description: spec_description(nodes, s.body_start, s.body_end),
                        args,
                        lang,
                        content,
                        path: spec_sec_path(nodes, s),
                        location: spec_sec_location(nodes, s, path),
                    },
                ),
            )
        }
    }
}

/// Extract a minimal template from a section holding exactly one code
/// block and no reserved subhead: the code block supplies language and
/// content, and no arguments are declared.
pub open spec fn spec_minimal_template(nodes: Seq<Block>, s: SectionV, path: Seq<char>) -> Result<
    TemplateFileV,
    ParseErrorV,
> {
    let id = spec_id_of(s.path);
    if id.len() == 0 {
        Result::Err(ParseErrorV::MissingIdentifier(s.path))
    } else {
        let cs = spec_code_range(nodes, s.body_start, s.body_end);
        Result::Ok(
            TemplateFileV {
                id,
                name: s.title,
                description: spec_description(nodes, s.body_start, s.body_end),
                args: Seq::empty(),
                lang: cs[0].lang,
                content: cs[0].value,
                path: spec_sec_path(nodes, s),
                location: spec_sec_location(nodes, s, path),
            },
        )
    }
}

/// Every section built from a range is well formed within it.
pub proof fn lemma_sections_wf(nodes: Seq<Block>, lo: int, hi: int)
    requires
        0 <= lo,
        hi <= nodes.len(),
    ensures
        forall|k: int|
            0 <= k < spec_sections(nodes, lo, hi).len() ==> spec_section_wf(
                nodes,
                #[trigger] spec_sections(nodes, lo, hi)[k],
            ),
{
    let heads = spec_heads(nodes, lo, hi);
    crate::section::lemma_heads_props(nodes, lo, hi);
    assert forall|k: int| 0 <= k < spec_sections(nodes, lo, hi).len() implies spec_section_wf(
        nodes,
        spec_sections(nodes, lo, hi)[k],
    ) by {
        let s = spec_sections(nodes, lo, hi)[k];
        assert(spec_head_matches(nodes[heads[k].idx], heads[k]));
        assert forall|m: int| k + 1 <= m < heads.len() && 0 <= m implies heads[k].idx < (
        #[trigger] heads[m]).idx by {
            lemma_heads_sorted(nodes, lo, hi, k, m);
        }
        lemma_sec_end_in_range(heads, k + 1, heads[k].level, hi, heads[k].idx);
    }
}

/// The model of an optional extracted file.
pub open spec fn spec_opt_file_view(r: Result<Option<TemplateFile>, ParseError>) -> Result<
    Option<TemplateFileV>,
    ParseErrorV,
> {
    match r {
        Result::Ok(Option::Some(f)) => Result::Ok(Option::Some(f@)),
        Result::Ok(Option::None) => Result::Ok(Option::None),
        Result::Err(e) => Result::Err(e@),
    }
}

/// Find the first subsection whose title matches one of the names.
fn find_sub(subs: &Vec<Section>, names: &Vec<String>) -> (r: Option<usize>)
    ensures
        match r {
            Option::Some(j) => j < subs@.len() && spec_find_sub(
                subs.deep_view(),
                0,
                names.deep_view(),
            ) == Option::Some(subs@[j as int]@),
            Option::None => spec_find_sub(subs.deep_view(), 0, names.deep_view()) is None,
        },
{
    let n = subs.len();
    let mut j: usize = 0;
    while j < n
        invariant
            0 <= j <= n,
            n == subs@.len(),
            spec_find_sub(subs.deep_view(), 0, names.deep_view()) == spec_find_sub(
                subs.deep_view(),
                j as int,
                names.deep_view(),
            ),
        decreases n - j,
    {
        proof {
            assert(subs.deep_view()[j as int] == subs@[j as int]@);
        }
        if matches_subhead(subs[j].title.as_str(), names) {
            return Option::Some(j);
        }
        j = j + 1;
    }
    Option::None
}

/// The two reserved argument-subsection names.
fn args_names() -> (r: Vec<String>)
    ensures
        r.deep_view() == spec_args_names(),
{
    let mut names: Vec<String> = Vec::new();
    names.push(crate::chars::lit_string("args"));
    names.push(crate::chars::lit_string("arguments"));
    proof {
        assert(names.deep_view() =~= spec_args_names());
    }
    names
}

/// The reserved template-subsection name.
fn template_names() -> (r: Vec<String>)
    ensures
        r.deep_view() == spec_template_names(),
{
    let mut names: Vec<String> = Vec::new();
    names.push(crate::chars::lit_string("template"));
    proof {
        assert(names.deep_view() =~= spec_template_names());
    }
    names
}

/// The location of a section within the document.
fn sec_location(nodes: &Vec<Block>, s: &Section, path: &str) -> (r: Location)
    requires
        spec_section_wf(nodes@, s@),
    ensures
        r@ == spec_sec_location(nodes@, s@, path@),
{
    let span = section_span(nodes, s.body_start, s.body_end, &s.heading_span);
    make_location(path, &span)
}

/// The inferred output path of a section.
fn sec_path(nodes: &Vec<Block>, s: &Section) -> (r: Option<String>)
    requires
        spec_section_wf(nodes@, s@),
    ensures
        r.deep_view() == spec_sec_path(nodes@, s@),
{
    match extract_inline_path_before_code(nodes, s.body_start, s.body_end) {
        Option::Some(v) => Option::Some(v),
        Option::None => extract_inline_path_from_heading(nodes, s.head_idx),
    }
}

/// Extract a full template from a candidate section; see
/// [`spec_parse_template`].
pub fn parse_template_from_section(nodes: &Vec<Block>, s: &Section, path: &str) -> (r: Result<
    Option<TemplateFile>,
    ParseError,
>)
    requires
        spec_section_wf(nodes@, s@),
    ensures
        spec_opt_file_view(r) == spec_parse_template(nodes@, s@, path@),
{
    let id = EntityId::new().from_segments(&s.path);
    if id.as_str().is_empty() {
        return Result::Err(
            ParseError::MissingIdentifier {
                heading_path: crate::types::clone_strings(&s.path),
            },
        );
    }
    let subs = make_sections_range(nodes, s.body_start, s.body_end);
    proof {
        lemma_sections_wf(nodes@, s@.body_start, s@.body_end);
    }
    let args = match find_sub(&subs, &args_names()) {
        Option::Some(aj) => {
            proof {
                assert(subs.deep_view()[aj as int] == subs@[aj as int]@);
            }
            parse_args(nodes, subs[aj].body_start, subs[aj].body_end)
        },
        Option::None => {
            let v: Vec<Arg> = Vec::new();
            proof {
                assert(v.deep_view() =~= Seq::<ArgV>::empty());
            }
            v
        },
    };
    let mut lang: Option<String> = Option::None;
    let mut content: String = String::new();
    match find_sub(&subs, &template_names()) {
        Option::Some(tj) => {
            proof {
                assert(subs.deep_view()[tj as int] == subs@[tj as int]@);
            }
            let codes = collect_code_blocks(nodes, subs[tj].body_start, subs[tj].body_end);
            if codes.len() > 0 {
                proof {
                    assert(codes.deep_view()[0] == codes@[0]@);
                }
                lang = crate::types::clone_opt_string(&codes[0].lang);
                content = codes[0].value.clone();
            }
        },
        Option::None => {},
    }
    let all = collect_code_blocks(nodes, s.body_start, s.body_end);
    if content.as_str().is_empty() && all.len() == 1 {
        proof {
            assert(all.deep_view()[0] == all@[0]@);
        }
        lang = crate::types::clone_opt_string(&all[0].lang);
        content = all[0].value.clone();
    }
    if content.as_str().is_empty() {
        return Result::Ok(Option::None);
    }
    let file = TemplateFile {
        kind: TemplateFileKindFile,
        id,
        name: s.title.clone(),
        description: collect_description(nodes, s.body_start, s.body_end),
        args,
        lang,
        content,
        path: sec_path(nodes, s),
        location: sec_location(nodes, s, path),
    };
    Result::Ok(Option::Some(file))
}

// ---------------------------------------------------------------------------
// Extraction strategies
// ---------------------------------------------------------------------------
/// One extracted file template together with the heading path of the
/// section it came from, kept for grouping into trees.
#[derive(Debug)]
pub struct Extracted {
    pub path: Vec<String>,
    pub file: TemplateFile,
}

/// The mathematical model of an [`Extracted`] entry.
pub struct ExtractedV {
    pub path: Seq<Seq<char>>,
    pub file: TemplateFileV,
}

impl View for Extracted {
    type V = ExtractedV;

    open spec fn view(&self) -> ExtractedV {
        ExtractedV { path: self.path.deep_view(), file: self.file@ }
    }
}

impl DeepView for Extracted {
    type V = ExtractedV;

    open spec fn deep_view(&self) -> ExtractedV {
        self@
    }
}

/// Prefix extracted entries onto the success side of a result.
pub open spec fn spec_prepend_ex(
    ts: Seq<ExtractedV>,
    r: Result<Seq<ExtractedV>, ParseErrorV>,
) -> Result<Seq<ExtractedV>, ParseErrorV> {
    match r {
        Result::Ok(rest) => Result::Ok(ts + rest),
        Result::Err(e) => Result::Err(e),
    }
}

/// Prefix trees onto the success side of a result.
pub open spec fn spec_prepend_trees(
    ts: Seq<TemplateTreeV>,
    r: Result<Seq<TemplateTreeV>, ParseErrorV>,
) -> Result<Seq<TemplateTreeV>, ParseErrorV> {
    match r {
        Result::Ok(rest) => Result::Ok(ts + rest),
        Result::Err(e) => Result::Err(e),
    }
}

proof fn lemma_prepend_assoc_ex(
    a: Seq<ExtractedV>,
    b: Seq<ExtractedV>,
    r: Result<Seq<ExtractedV>, ParseErrorV>,
)
    ensures
        spec_prepend_ex(a, spec_prepend_ex(b, r)) == spec_prepend_ex(a + b, r),
{
    match r {
        Result::Ok(rest) => {
            assert(a + (b + rest) =~= (a + b) + rest);
        },
        Result::Err(_) => {},
    }
}

proof fn lemma_prepend_assoc_trees(
    a: Seq<TemplateTreeV>,
    b: Seq<TemplateTreeV>,
    r: Result<Seq<TemplateTreeV>, ParseErrorV>,
)
    ensures
        spec_prepend_trees(a, spec_prepend_trees(b, r)) == spec_prepend_trees(a + b, r),
{
    match r {
        Result::Ok(rest) => {
            assert(a + (b + rest) =~= (a + b) + rest);
        },
        Result::Err(_) => {},
    }
}

/// Heading-based extraction, scanning the sections from index `i` on.
/// A section at the base level holding a reserved subhead is a candidate:
/// it may yield its own template, and its immediate child sections (one
/// level deeper, not themselves reserved markers) yield sub-templates —
/// full ones when they hold a reserved subhead, minimal ones when they
/// hold exactly one code block.
pub open spec fn spec_extract(
    nodes: Seq<Block>,
    sections: Seq<SectionV>,
    base: u8,
    path: Seq<char>,
    i: int,
    in_cand: bool,
) -> Result<Seq<ExtractedV>, ParseErrorV>
    decreases sections.len() - i,
{
    if i < 0 || i >= sections.len() {
        Result::Ok(Seq::empty())
    } else {
        let s = sections[i];
        if s.level == base && spec_contains_allowed(nodes, s.body_start, s.body_end) {
            match spec_parse_template(nodes, s, path) {
                Result::Err(e) => Result::Err(e),
                Result::Ok(opt) => spec_prepend_ex(
                    match opt {
                        Option::Some(f) => seq![ExtractedV { path: s.path, file: f }],
                        Option::None => Seq::empty(),
                    },
                    spec_extract(nodes, sections, base, path, i + 1, true),
                ),
            }
        } else if s.level <= base {
            spec_extract(nodes, sections, base, path, i + 1, false)
        } else if in_cand && s.level == base + 1 && !spec_is_allowed(s.title) {
            if spec_contains_allowed(nodes, s.body_start, s.body_end) {
                match spec_parse_template(nodes, s, path) {
                    Result::Err(e) => Result::Err(e),
                    Result::Ok(opt) => spec_prepend_ex(
                        match opt {
                            Option::Some(f) => seq![ExtractedV { path: s.path, file: f }],
                            Option::None => Seq::empty(),
                        },
                        spec_extract(nodes, sections, base, path, i + 1, in_cand),
                    ),
                }
            } else if spec_code_range(nodes, s.body_start, s.body_end).len() == 1 {
                match spec_minimal_template(nodes, s, path) {
                    Result::Err(e) => Result::Err(e),
                    Result::Ok(f) => spec_prepend_ex(
                        seq![ExtractedV { path: s.path, file: f }],
                        spec_extract(nodes, sections, base, path, i + 1, in_cand),
                    ),
                }
            } else {
                spec_extract(nodes, sections, base, path, i + 1, in_cand)
            }
        } else {
            spec_extract(nodes, sections, base, path, i + 1, in_cand)
        }
    }
}

/// Code-block fallback extraction: every section with no nested heading and
/// exactly one fenced code block yields a minimal template.
pub open spec fn spec_fallback(
    nodes: Seq<Block>,
    sections: Seq<SectionV>,
    path: Seq<char>,
    i: int,
) -> Result<Seq<ExtractedV>, ParseErrorV>
    decreases sections.len() - i,
{
    if i < 0 || i >= sections.len() {
        Result::Ok(Seq::empty())
    } else {
        let s = sections[i];
        if spec_heads(nodes, s.body_start, s.body_end).len() == 0 && spec_code_range(
            nodes,
            s.body_start,
            s.body_end,
        ).len() == 1 {
            match spec_minimal_template(nodes, s, path) {
                Result::Err(e) => Result::Err(e),
                Result::Ok(f) => spec_prepend_ex(
                    seq![ExtractedV { path: s.path, file: f }],
                    spec_fallback(nodes, sections, path, i + 1),
                ),
            }
        } else {
            spec_fallback(nodes, sections, path, i + 1)
        }
    }
}

// ---------------------------------------------------------------------------
// Tree assembly
// ---------------------------------------------------------------------------
/// The parent heading path of an extracted entry: its path without the last
/// segment.
pub open spec fn spec_parent_of(p: Seq<Seq<char>>) -> Seq<Seq<char>> {
    if p.len() == 0 {
        p
    } else {
        p.drop_last()
    }
}

/// The distinct parent paths of the extracted entries, in first-occurrence
/// order.
pub open spec fn spec_parents(ex: Seq<ExtractedV>) -> Seq<Seq<Seq<char>>>
    decreases ex.len(),
{
    if ex.len() == 0 {
        Seq::empty()
    } else {
        let ps = spec_parents(ex.drop_last());
        let pp = spec_parent_of(ex.last().path);
        if ps.contains(pp) {
            ps
        } else {
            ps.push(pp)
        }
    }
}

/// The extracted files whose parent path is `pp`, in order.
pub open spec fn spec_members(ex: Seq<ExtractedV>, pp: Seq<Seq<char>>) -> Seq<TemplateFileV>
    decreases ex.len(),
{
    if ex.len() == 0 {
        Seq::empty()
    } else {
        spec_members(ex.drop_last(), pp) + (if spec_parent_of(ex.last().path) == pp {
            seq![ex.last().file]
        } else {
            Seq::empty()
        })
    }
}

/// The first section with the given full heading path, from index `j` on.
pub open spec fn spec_find_section(
    sections: Seq<SectionV>,
    j: int,
    pp: Seq<Seq<char>>,
) -> Option<SectionV>
    decreases sections.len() - j,
{
    if j < 0 || j >= sections.len() {
        Option::None
    } else if sections[j].path == pp {
        Option::Some(sections[j])
    } else {
        spec_find_section(sections, j + 1, pp)
    }
}

/// Whether every member declares an output path.
pub open spec fn spec_all_have_path(mem: Seq<TemplateFileV>) -> bool {
    forall|i: int| 0 <= i < mem.len() ==> (#[trigger] mem[i]).path is Some
}

/// Whether a sibling group is promoted to a tree: its parent path is
/// non-empty and names an existing section, the group is non-empty, and
/// every member declares an output path.
pub open spec fn spec_group_promoted(
    sections: Seq<SectionV>,
    ex: Seq<ExtractedV>,
    pp: Seq<Seq<char>>,
) -> bool {
    &&& pp.len() > 0
    &&& spec_find_section(sections, 0, pp) is Some
    &&& spec_members(ex, pp).len() > 0
    &&& spec_all_have_path(spec_members(ex, pp))
}

/// The tree built for a promoted group: identifier from the parent path,
/// name and description from the parent section, members in extraction
/// order.
pub open spec fn spec_tree_of(
    nodes: Seq<Block>,
    sections: Seq<SectionV>,
    ex: Seq<ExtractedV>,
    pp: Seq<Seq<char>>,
    path: Seq<char>,
) -> TemplateTreeV {
    let psec = spec_find_section(sections, 0, pp)->Some_0;
    TemplateTreeV {
        id: spec_id_of(pp),
        name: psec.title,
        description: spec_tree_description(nodes, psec.body_start, psec.body_end),
        files: spec_members(ex, pp).map_values(|f: TemplateFileV| TemplateV::File(f)),
        location: spec_sec_location(nodes, psec, path),
    }
}

/// Assemble trees from the parent groups, in first-occurrence order: each
/// promoted group yields one tree; a promoted group whose parent path
/// normalizes to an empty id is a fatal `MissingIdentifier`.
pub open spec fn spec_assemble(
    nodes: Seq<Block>,
    sections: Seq<SectionV>,
    ex: Seq<ExtractedV>,
    parents: Seq<Seq<Seq<char>>>,
    path: Seq<char>,
    k: int,
) -> Result<Seq<TemplateTreeV>, ParseErrorV>
    decreases parents.len() - k,
{
    if k < 0 || k >= parents.len() {
        Result::Ok(Seq::empty())
    } else {
        let pp = parents[k];
        if spec_group_promoted(sections, ex, pp) {
            if spec_id_of(pp).len() == 0 {
                Result::Err(ParseErrorV::MissingIdentifier(pp))
            } else {
                spec_prepend_trees(
                    seq![spec_tree_of(nodes, sections, ex, pp, path)],
                    spec_assemble(nodes, sections, ex, parents, path, k + 1),
                )
            }
        } else {
            spec_assemble(nodes, sections, ex, parents, path, k + 1)
        }
    }
}

// ---------------------------------------------------------------------------
// Strategy choice and result shaping
// ---------------------------------------------------------------------------
/// The shallowest depth at which any reserved subhead occurs, from section
/// `i` on.
pub open spec fn spec_min_allowed(sections: Seq<SectionV>, i: int) -> Option<u8>
    decreases sections.len() - i,
{
    if i < 0 || i >= sections.len() {
        Option::None
    } else {
        let rest = spec_min_allowed(sections, i + 1);
        if spec_is_allowed(sections[i].title) {
            match rest {
                Option::None => Option::Some(sections[i].level),
                Option::Some(m) => Option::Some(
                    if sections[i].level < m {
                        sections[i].level
                    } else {
                        m
                    },
                ),
            }
        } else {
            rest
        }
    }
}

/// The base level of heading-based recognition: one above the shallowest
/// subhead, at least one.
pub open spec fn spec_base_level(minl: u8) -> u8 {
    if minl <= 2 {
        1
    } else {
        (minl - 1) as u8
    }
}

/// The first section shallower than the base level: it supplies a
/// collection's name and description.
pub open spec fn spec_find_meta(sections: Seq<SectionV>, j: int, base: u8) -> Option<SectionV>
    decreases sections.len() - j,
{
    if j < 0 || j >= sections.len() {
        Option::None
    } else if sections[j].level < base {
        Option::Some(sections[j])
    } else {
        spec_find_meta(sections, j + 1, base)
    }
}

/// A document's collection name when no meta section exists: the file stem,
/// or `Untitled`.
pub open spec fn spec_stem_name(stem: Option<Seq<char>>) -> Seq<char> {
    match stem {
        Option::Some(s) => s,
        Option::None => "Untitled"@,
    }
}

/// The extracted files as template union values.
pub open spec fn spec_files_of(ex: Seq<ExtractedV>) -> Seq<TemplateV> {
    ex.map_values(|e: ExtractedV| TemplateV::File(e.file))
}

/// The assembled trees as template union values.
pub open spec fn spec_trees_as(trees: Seq<TemplateTreeV>) -> Seq<TemplateV> {
    trees.map_values(|t: TemplateTreeV| TemplateV::Tree(t))
}

/// Shape the parse result from what was extracted: nothing at all is
/// `NoTemplatesFound`; exactly one template and no tree is a bare template;
/// exactly one tree and no template is a bare tree; anything else is a
/// collection holding every extracted file and every tree.
pub open spec fn spec_finish(
    nodes: Seq<Block>,
    ex: Seq<ExtractedV>,
    trees: Seq<TemplateTreeV>,
    meta: Option<SectionV>,
    stem: Option<Seq<char>>,
    path: Seq<char>,
    root_span: Option<Span>,
) -> Result<ParsedV, ParseErrorV> {
    if ex.len() == 0 && trees.len() == 0 {
        Result::Err(ParseErrorV::NoTemplatesFound)
    } else if ex.len() == 1 && trees.len() == 0 {
        Result::Ok(ParsedV::Template(TemplateV::File(ex[0].file)))
    } else if ex.len() == 0 && trees.len() == 1 {
        Result::Ok(ParsedV::Tree(trees[0]))
    } else {
        Result::Ok(
            ParsedV::Collection(
                TemplateCollectionV {
                    name: match meta {
                        Option::Some(m) => m.title,
                        Option::None => spec_stem_name(stem),
                    },
                    description: match meta {
                        Option::Some(m) => spec_description(nodes, m.body_start, m.body_end),
                        Option::None => Seq::empty(),
                    },
                    templates: spec_files_of(ex) + spec_trees_as(trees),
                    location: match meta {
                        Option::Some(m) => spec_sec_location(nodes, m, path),
                        Option::None => spec_make_location(path, root_span),
                    },
                },
            ),
        )
    }
}

/// The model of an optional borrowed file stem.
pub open spec fn spec_stem_view(stem: Option<&str>) -> Option<Seq<char>> {
    match stem {
        Option::Some(s) => Option::Some(s@),
        Option::None => Option::None,
    }
}

/// What parsing a document's blocks yields; the whole behaviour of
/// [`parse_document`].
pub open spec fn spec_parse_blocks(
    nodes: Seq<Block>,
    stem: Option<Seq<char>>,
    path: Seq<char>,
    root_span: Option<Span>,
) -> Result<ParsedV, ParseErrorV> {
    let sections = spec_sections(nodes, 0, nodes.len() as int);
    match spec_min_allowed(sections, 0) {
        Option::Some(minl) => {
            let base = spec_base_level(minl);
            match spec_extract(nodes, sections, base, path, 0, false) {
                Result::Err(e) => Result::Err(e),
                Result::Ok(ex) => match spec_assemble(
                    nodes,
                    sections,
                    ex,
                    spec_parents(ex),
                    path,
                    0,
                ) {
                    Result::Err(e) => Result::Err(e),
                    Result::Ok(trees) => spec_finish(
                        nodes,
                        ex,
                        trees,
                        spec_find_meta(sections, 0, base),
                        stem,
                        path,
                        root_span,
                    ),
                },
            }
        },
        Option::None => match spec_fallback(nodes, sections, path, 0) {
            Result::Err(e) => Result::Err(e),
            Result::Ok(ex) => match spec_assemble(nodes, sections, ex, spec_parents(ex), path, 0) {
                Result::Err(e) => Result::Err(e),
                Result::Ok(trees) => spec_finish(
                    nodes,
                    ex,
                    trees,
                    Option::None,
                    stem,
                    path,
                    root_span,
                ),
            },
        },
    }
}

/// Extract a minimal template from a section with exactly one code block
/// and no reserved subhead; see [`spec_minimal_template`].
pub fn minimal_from_section(nodes: &Vec<Block>, s: &Section, path: &str) -> (r: Result<
    TemplateFile,
    ParseError,
>)
    requires
        spec_section_wf(nodes@, s@),
        spec_code_range(nodes@, s@.body_start, s@.body_end).len() == 1,
    ensures
        match r {
            Result::Ok(f) => spec_minimal_template(nodes@, s@, path@) == Result::<
                TemplateFileV,
                ParseErrorV,
            >::Ok(f@),
            Result::Err(e) => spec_minimal_template(nodes@, s@, path@) == Result::<
                TemplateFileV,
                ParseErrorV,
            >::Err(e@),
        },
{
    let id = EntityId::new().from_segments(&s.path);
    if id.as_str().is_empty() {
        return Result::Err(
            ParseError::MissingIdentifier {
                heading_path: crate::types::clone_strings(&s.path),
            },
        );
    }
    let codes = collect_code_blocks(nodes, s.body_start, s.body_end);
    proof {
        assert(codes.deep_view()[0] == codes@[0]@);
    }
    let no_args: Vec<Arg> = Vec::new();
    proof {
        assert(no_args.deep_view() =~= Seq::<ArgV>::empty());
    }
    let file = TemplateFile {
        kind: TemplateFileKindFile,
        id,
        name: s.title.clone(),
        description: collect_description(nodes, s.body_start, s.body_end),
        args: no_args,
        lang: crate::types::clone_opt_string(&codes[0].lang),
        content: codes[0].value.clone(),
        path: sec_path(nodes, s),
        location: sec_location(nodes, s, path),
    };
    Result::Ok(file)
}

/// Compare two string lists by contents.
fn string_vecs_eq(a: &Vec<String>, b: &Vec<String>) -> (r: bool)
    ensures
        r == (a.deep_view() == b.deep_view()),
{
    if a.len() != b.len() {
        proof {
            assert(a.deep_view().len() != b.deep_view().len());
        }
        return false;
    }
    let n = a.len();
    let mut i: usize = 0;
    while i < n
        invariant
            0 <= i <= n,
            n == a@.len() == b@.len(),
            forall|q: int| 0 <= q < i ==> a@[q]@ == b@[q]@,
        decreases n - i,
    {
        let ac = str_chars(a[i].as_str());
        if !crate::chars::chars_eq_str(&ac, b[i].as_str()) {
            proof {
                assert(a.deep_view()[i as int] == a@[i as int]@);
                assert(b.deep_view()[i as int] == b@[i as int]@);
            }
            return false;
        }
        i = i + 1;
    }
    proof {
        assert forall|q: int| 0 <= q < n implies #[trigger] a.deep_view()[q]
            == b.deep_view()[q] by {
            assert(a.deep_view()[q] == a@[q]@);
            assert(b.deep_view()[q] == b@[q]@);
        }
        assert(a.deep_view() =~= b.deep_view());
    }
    true
}

/// The parent heading path: the path without its last segment.
fn parent_of(p: &Vec<String>) -> (r: Vec<String>)
    ensures
        r.deep_view() == spec_parent_of(p.deep_view()),
{
    let mut out: Vec<String> = Vec::new();
    if p.len() == 0 {
        proof {
            assert(out.deep_view() =~= p.deep_view());
        }
        return out;
    }
    let n = p.len() - 1;
    let mut i: usize = 0;
    while i < n
        invariant
            0 <= i <= n,
            n == p@.len() - 1,
            out@.len() == i,
            forall|q: int| 0 <= q < i ==> (#[trigger] out@[q])@ == p@[q]@,
        decreases n - i,
    {
        out.push(p[i].clone());
        i = i + 1;
    }
    proof {
        assert forall|q: int| 0 <= q < n implies #[trigger] out.deep_view()[q] == spec_parent_of(
            p.deep_view(),
        )[q] by {
            assert(out.deep_view()[q] == out@[q]@);
            assert(spec_parent_of(p.deep_view())[q] == p@[q]@);
        }
        assert(out.deep_view() =~= spec_parent_of(p.deep_view()));
    }
    out
}

/// Whether a list of parent paths already holds the given one.
fn parents_contain(ps: &Vec<Vec<String>>, p: &Vec<String>) -> (r: bool)
    ensures
        r == ps.deep_view().contains(p.deep_view()),
{
    let n = ps.len();
    let mut i: usize = 0;
    while i < n
        invariant
            0 <= i <= n,
            n == ps@.len(),
            forall|q: int| 0 <= q < i ==> #[trigger] ps.deep_view()[q] != p.deep_view(),
        decreases n - i,
    {
        if string_vecs_eq(&ps[i], p) {
            proof {
                assert(ps.deep_view()[i as int] == ps@[i as int].deep_view());
            }
            return true;
        }
        proof {
            assert(ps.deep_view()[i as int] == ps@[i as int].deep_view());
        }
        i = i + 1;
    }
    proof {
        if ps.deep_view().contains(p.deep_view()) {
            let w = choose|w: int|
                0 <= w < ps.deep_view().len() && ps.deep_view()[w] == p.deep_view();
            assert(false);
        }
    }
    false
}

/// Heading-based extraction over all sections; see [`spec_extract`].
fn extract_all(nodes: &Vec<Block>, sections: &Vec<Section>, base: u8, path: &str) -> (r: Result<
    Vec<Extracted>,
    ParseError,
>)
    requires
        1 <= base <= 254,
        forall|k: int|
            0 <= k < sections.deep_view().len() ==> spec_section_wf(
                nodes@,
                #[trigger] sections.deep_view()[k],
            ),
    ensures
        match r {
            Result::Ok(v) => spec_extract(nodes@, sections.deep_view(), base, path@, 0, false)
                == Result::<Seq<ExtractedV>, ParseErrorV>::Ok(v.deep_view()),
            Result::Err(e) => spec_extract(nodes@, sections.deep_view(), base, path@, 0, false)
                == Result::<Seq<ExtractedV>, ParseErrorV>::Err(e@),
        },
{
    let ghost secs = sections.deep_view();
    let mut acc: Vec<Extracted> = Vec::new();
    let mut in_cand = false;
    let n = sections.len();
    let mut i: usize = 0;
    while i < n
        invariant
            0 <= i <= n,
            n == sections@.len(),
            secs == sections.deep_view(),
            1 <= base <= 254,
            forall|k: int| 0 <= k < secs.len() ==> spec_section_wf(nodes@, #[trigger] secs[k]),
            spec_extract(nodes@, secs, base, path@, 0, false) == spec_prepend_ex(
                acc.deep_view(),
                spec_extract(nodes@, secs, base, path@, i as int, in_cand),
            ),
        decreases n - i,
    {
        proof {
            assert(secs[i as int] == sections@[i as int]@);
        }
        let s = &sections[i];
        let ghost tail0 = spec_extract(nodes@, secs, base, path@, i as int, in_cand);
        if s.level == base && contains_allowed(nodes, s.body_start, s.body_end) {
            match parse_template_from_section(nodes, s, path) {
                Result::Err(e) => {
                    return Result::Err(e);
                },
                Result::Ok(Option::Some(f)) => {
                    let ghost pre = acc;
                    let item = Extracted { path: crate::types::clone_strings(&s.path), file: f };
                    acc.push(item);
                    proof {
                        lemma_deep_view_push(pre, acc, item);
                        lemma_prepend_assoc_ex(
                            pre.deep_view(),
                            seq![item@],
                            spec_extract(nodes@, secs, base, path@, i + 1, true),
                        );
                        assert(acc.deep_view() =~= pre.deep_view() + seq![item@]);
                    }
                },
                Result::Ok(Option::None) => {},
            }
            in_cand = true;
        } else if s.level <= base {
            in_cand = false;
        } else if in_cand && s.level == base + 1 && !is_allowed(s.title.as_str()) {
            if contains_allowed(nodes, s.body_start, s.body_end) {
                match parse_template_from_section(nodes, s, path) {
                    Result::Err(e) => {
                        return Result::Err(e);
                    },
                    Result::Ok(Option::Some(f)) => {
                        let ghost pre = acc;
                        let item = Extracted {
                            path: crate::types::clone_strings(&s.path),
                            file: f,
                        };
                        acc.push(item);
                        proof {
                            lemma_deep_view_push(pre, acc, item);
                            lemma_prepend_assoc_ex(
                                pre.deep_view(),
                                seq![item@],
                                spec_extract(nodes@, secs, base, path@, i + 1, in_cand),
                            );
                            assert(acc.deep_view() =~= pre.deep_view() + seq![item@]);
                        }
                    },
                    Result::Ok(Option::None) => {},
                }
            } else {
                let codes = collect_code_blocks(nodes, s.body_start, s.body_end);
                if codes.len() == 1 {
                    match minimal_from_section(nodes, s, path) {
                        Result::Err(e) => {
                            return Result::Err(e);
                        },
                        Result::Ok(f) => {
                            let ghost pre = acc;
                            let item = Extracted {
                                path: crate::types::clone_strings(&s.path),
                                file: f,
                            };
                            acc.push(item);
                            proof {
                                lemma_deep_view_push(pre, acc, item);
                                lemma_prepend_assoc_ex(
                                    pre.deep_view(),
                                    seq![item@],
                                    spec_extract(nodes@, secs, base, path@, i + 1, in_cand),
                                );
                                assert(acc.deep_view() =~= pre.deep_view() + seq![item@]);
                            }
                        },
                    }
                }
            }
        }
        i = i + 1;
    }
    proof {
        assert(spec_extract(nodes@, secs, base, path@, n as int, in_cand) == Result::<
            Seq<ExtractedV>,
            ParseErrorV,
        >::Ok(Seq::empty()));
        assert(acc.deep_view() + Seq::<ExtractedV>::empty() =~= acc.deep_view());
    }
    Result::Ok(acc)
}

/// Whether the block range holds any heading.
fn contains_heading(nodes: &Vec<Block>, lo: usize, hi: usize) -> (r: bool)
    requires
        lo <= hi <= nodes@.len(),
    ensures
        r == (spec_heads(nodes@, lo as int, hi as int).len() > 0),
{
    let mut i: usize = lo;
    while i < hi
        invariant
            lo <= i <= hi <= nodes@.len(),
            spec_heads(nodes@, lo as int, hi as int) == spec_heads(nodes@, i as int, hi as int),
        decreases hi - i,
    {
        match &nodes[i] {
            Block::Heading { .. } => {
                return true;
            },
            _ => {},
        }
        i = i + 1;
    }
    false
}

/// Code-block fallback extraction over all sections; see [`spec_fallback`].
fn fallback_all(nodes: &Vec<Block>, sections: &Vec<Section>, path: &str) -> (r: Result<
    Vec<Extracted>,
    ParseError,
>)
    requires
        forall|k: int|
            0 <= k < sections.deep_view().len() ==> spec_section_wf(
                nodes@,
                #[trigger] sections.deep_view()[k],
            ),
    ensures
        match r {
            Result::Ok(v) => spec_fallback(nodes@, sections.deep_view(), path@, 0) == Result::<
                Seq<ExtractedV>,
                ParseErrorV,
            >::Ok(v.deep_view()),
            Result::Err(e) => spec_fallback(nodes@, sections.deep_view(), path@, 0) == Result::<
                Seq<ExtractedV>,
                ParseErrorV,
            >::Err(e@),
        },
{
    let ghost secs = sections.deep_view();
    let mut acc: Vec<Extracted> = Vec::new();
    let n = sections.len();
    let mut i: usize = 0;
    while i < n
        invariant
            0 <= i <= n,
            n == sections@.len(),
            secs == sections.deep_view(),
            forall|k: int| 0 <= k < secs.len() ==> spec_section_wf(nodes@, #[trigger] secs[k]),
            spec_fallback(nodes@, secs, path@, 0) == spec_prepend_ex(
                acc.deep_view(),
                spec_fallback(nodes@, secs, path@, i as int),
            ),
        decreases n - i,
    {
        proof {
            assert(secs[i as int] == sections@[i as int]@);
        }
        let s = &sections[i];
        if !contains_heading(nodes, s.body_start, s.body_end) {
            let codes = collect_code_blocks(nodes, s.body_start, s.body_end);
            if codes.len() == 1 {
                match minimal_from_section(nodes, s, path) {
                    Result::Err(e) => {
                        return Result::Err(e);
                    },
                    Result::Ok(f) => {
                        let ghost pre = acc;
                        let item = Extracted {
                            path: crate::types::clone_strings(&s.path),
                            file: f,
                        };
                        acc.push(item);
                        proof {
                            lemma_deep_view_push(pre, acc, item);
                            lemma_prepend_assoc_ex(
                                pre.deep_view(),
                                seq![item@],
                                spec_fallback(nodes@, secs, path@, i + 1),
                            );
                            assert(acc.deep_view() =~= pre.deep_view() + seq![item@]);
                        }
                    },
                }
            }
        }
        i = i + 1;
    }
    proof {
        assert(acc.deep_view() + Seq::<ExtractedV>::empty() =~= acc.deep_view());
    }
    Result::Ok(acc)
}

/// The distinct parent paths of the extracted entries, in first-occurrence
/// order.
fn collect_parents(ex: &Vec<Extracted>) -> (r: Vec<Vec<String>>)
    ensures
        r.deep_view() == spec_parents(ex.deep_view()),
{
    let mut parents: Vec<Vec<String>> = Vec::new();
    let n = ex.len();
    let mut i: usize = 0;
    while i < n
        invariant
            0 <= i <= n,
            n == ex@.len(),
            parents.deep_view() == spec_parents(ex.deep_view().take(i as int)),
        decreases n - i,
    {
        proof {
            assert(ex.deep_view()[i as int] == ex@[i as int]@);
        }
        let pp = parent_of(&ex[i].path);
        let ghost pre = parents;
        let had = parents_contain(&parents, &pp);
        if !had {
            parents.push(pp);
            proof {
                lemma_deep_view_push(pre, parents, pp);
            }
        }
        proof {
            let t = ex.deep_view().take(i + 1);
            assert(t.drop_last() =~= ex.deep_view().take(i as int));
            assert(t.last() == ex.deep_view()[i as int]);
            if !had {
                assert(parents.deep_view() =~= spec_parents(t));
            }
        }
        i = i + 1;
    }
    proof {
        assert(ex.deep_view().take(n as int) =~= ex.deep_view());
    }
    parents
}

/// The extracted files whose parent path is `pp`, copied in order.
fn collect_members(ex: &Vec<Extracted>, pp: &Vec<String>) -> (r: Vec<TemplateFile>)
    ensures
        r.deep_view() == spec_members(ex.deep_view(), pp.deep_view()),
{
    let mut mem: Vec<TemplateFile> = Vec::new();
    let n = ex.len();
    let mut i: usize = 0;
    while i < n
        invariant
            0 <= i <= n,
            n == ex@.len(),
            mem.deep_view() == spec_members(ex.deep_view().take(i as int), pp.deep_view()),
        decreases n - i,
    {
        proof {
            assert(ex.deep_view()[i as int] == ex@[i as int]@);
        }
        let par = parent_of(&ex[i].path);
        let ghost pre = mem;
        if string_vecs_eq(&par, pp) {
            let f = crate::types::clone_template_file(&ex[i].file);
            mem.push(f);
            proof {
                lemma_deep_view_push(pre, mem, f);
            }
        }
        proof {
            let t = ex.deep_view().take(i + 1);
            assert(t.drop_last() =~= ex.deep_view().take(i as int));
            assert(t.last() == ex.deep_view()[i as int]);
            if spec_parent_of(t.last().path) == pp.deep_view() {
                assert(mem.deep_view() =~= pre.deep_view() + seq![t.last().file]);
            } else {
                assert(mem.deep_view() =~= pre.deep_view() + Seq::<TemplateFileV>::empty());
            }
        }
        i = i + 1;
    }
    proof {
        assert(ex.deep_view().take(n as int) =~= ex.deep_view());
    }
    mem
}

/// The first section bearing the given full heading path.
fn find_section(sections: &Vec<Section>, pp: &Vec<String>) -> (r: Option<usize>)
    ensures
        match r {
            Option::Some(j) => j < sections@.len() && spec_find_section(
                sections.deep_view(),
                0,
                pp.deep_view(),
            ) == Option::Some(sections@[j as int]@),
            Option::None => spec_find_section(sections.deep_view(), 0, pp.deep_view()) is None,
        },
{
    let n = sections.len();
    let mut j: usize = 0;
    while j < n
        invariant
            0 <= j <= n,
            n == sections@.len(),
            spec_find_section(sections.deep_view(), 0, pp.deep_view()) == spec_find_section(
                sections.deep_view(),
                j as int,
                pp.deep_view(),
            ),
        decreases n - j,
    {
        proof {
            assert(sections.deep_view()[j as int] == sections@[j as int]@);
        }
        if string_vecs_eq(&sections[j].path, pp) {
            return Option::Some(j);
        }
        j = j + 1;
    }
    Option::None
}

/// Whether every member declares an output path.
fn all_have_path(mem: &Vec<TemplateFile>) -> (r: bool)
    ensures
        r == spec_all_have_path(mem.deep_view()),
{
    let n = mem.len();
    let mut i: usize = 0;
    while i < n
        invariant
            0 <= i <= n,
            n == mem@.len(),
            forall|q: int| 0 <= q < i ==> (#[trigger] mem.deep_view()[q]).path is Some,
        decreases n - i,
    {
        proof {
            assert(mem.deep_view()[i as int] == mem@[i as int]@);
        }
        match &mem[i].path {
            Option::Some(_) => {},
            Option::None => {
                return false;
            },
        }
        i = i + 1;
    }
    true
}

/// Assemble trees from the extracted entries; see [`spec_assemble`].
fn assemble_trees(
    nodes: &Vec<Block>,
    sections: &Vec<Section>,
    ex: &Vec<Extracted>,
    parents: &Vec<Vec<String>>,
    path: &str,
) -> (r: Result<Vec<TemplateTree>, ParseError>)
    requires
        forall|k: int|
            0 <= k < sections.deep_view().len() ==> spec_section_wf(
                nodes@,
                #[trigger] sections.deep_view()[k],
            ),
    ensures
        match r {
            Result::Ok(v) => spec_assemble(
                nodes@,
                sections.deep_view(),
                ex.deep_view(),
                parents.deep_view(),
                path@,
                0,
            ) == Result::<Seq<TemplateTreeV>, ParseErrorV>::Ok(v.deep_view()),
            Result::Err(e) => spec_assemble(
                nodes@,
                sections.deep_view(),
                ex.deep_view(),
                parents.deep_view(),
                path@,
                0,
            ) == Result::<Seq<TemplateTreeV>, ParseErrorV>::Err(e@),
        },
{
    let ghost secs = sections.deep_view();
    let ghost exv = ex.deep_view();
    let ghost pars = parents.deep_view();
    let mut trees: Vec<TemplateTree> = Vec::new();
    let n = parents.len();
    let mut k: usize = 0;
    while k < n
        invariant
            0 <= k <= n,
            n == parents@.len(),
            secs == sections.deep_view(),
            exv == ex.deep_view(),
            pars == parents.deep_view(),
            forall|q: int| 0 <= q < secs.len() ==> spec_section_wf(nodes@, #[trigger] secs[q]),
            spec_assemble(nodes@, secs, exv, pars, path@, 0) == spec_prepend_trees(
                trees.deep_view(),
                spec_assemble(nodes@, secs, exv, pars, path@, k as int),
            ),
        decreases n - k,
    {
        proof {
            assert(pars[k as int] == parents@[k as int].deep_view());
        }
        let pp = &parents[k];
        let mem = collect_members(ex, pp);
        let found = find_section(sections, pp);
        let promoted = pp.len() > 0 && mem.len() > 0 && all_have_path(&mem) && (match found {
            Option::Some(_) => true,
            Option::None => false,
        });
        if promoted {
            let id = EntityId::new().from_segments(pp);
            if id.as_str().is_empty() {
                return Result::Err(
                    ParseError::MissingIdentifier {
                        heading_path: crate::types::clone_strings(pp),
                    },
                );
            }
            let pj = match found {
                Option::Some(j) => j,
                Option::None => 0,
            };
            proof {
                assert(sections.deep_view()[pj as int] == sections@[pj as int]@);
            }
            let psec = &sections[pj];
            // The tree's members as template union values.
            let mut files: Vec<Template> = Vec::new();
            let m = mem.len();
            let ghost memv = mem.deep_view();
            let mut mi: usize = 0;
            let mut mem_work = mem;
            while mi < m
                invariant
                    0 <= mi <= m,
                    m == memv.len(),
                    mem_work@.len() == m - mi,
                    forall|q: int|
                        0 <= q < m - mi ==> (#[trigger] mem_work@[q])@ == memv[mi + q],
                    files@.len() == mi,
                    forall|q: int|
                        0 <= q < mi ==> (#[trigger] files@[q]) is TemplateFile && files@[q]->TemplateFile_0@
                            == memv[q],
                decreases m - mi,
            {
                let f = mem_work.remove(0);
                files.push(Template::TemplateFile(f));
                mi = mi + 1;
            }
            let tree = TemplateTree {
                kind: TemplateTreeKindTree,
                id,
                name: psec.title.clone(),
                description: collect_tree_description(nodes, psec.body_start, psec.body_end),
                files,
                location: sec_location(nodes, psec, path),
            };
            proof {
                crate::types::lemma_templates_view_index(tree.files@);
                assert forall|q: int| 0 <= q < m implies #[trigger] crate::types::spec_templates_view(
                    tree.files@,
                )[q] == memv.map_values(|f: TemplateFileV| TemplateV::File(f))[q] by {
                    assert(crate::types::spec_templates_view(tree.files@)[q]
                        == crate::types::spec_template_view(tree.files@[q]));
                }
                assert(crate::types::spec_templates_view(tree.files@) =~= memv.map_values(
                    |f: TemplateFileV| TemplateV::File(f),
                ));
                assert(tree@ == spec_tree_of(nodes@, secs, exv, pars[k as int], path@));
            }
            let ghost pre = trees;
            trees.push(tree);
            proof {
                lemma_deep_view_push(pre, trees, tree);
                lemma_prepend_assoc_trees(
                    pre.deep_view(),
                    seq![tree@],
                    spec_assemble(nodes@, secs, exv, pars, path@, k + 1),
                );
                assert(trees.deep_view() =~= pre.deep_view() + seq![tree@]);
            }
        }
        k = k + 1;
    }
    proof {
        assert(trees.deep_view() + Seq::<TemplateTreeV>::empty() =~= trees.deep_view());
    }
    Result::Ok(trees)
}

/// The shallowest depth of any reserved subhead among the sections.
fn min_allowed(sections: &Vec<Section>) -> (r: Option<u8>)
    ensures
        r == spec_min_allowed(sections.deep_view(), 0),
{
    let n = sections.len();
    let mut cur: Option<u8> = Option::None;
    let mut i: usize = n;
    while i > 0
        invariant
            0 <= i <= n,
            n == sections@.len(),
            cur == spec_min_allowed(sections.deep_view(), i as int),
        decreases i,
    {
        i = i - 1;
        proof {
            assert(sections.deep_view()[i as int] == sections@[i as int]@);
        }
        if is_allowed(sections[i].title.as_str()) {
            let lvl = sections[i].level;
            cur = match cur {
                Option::None => Option::Some(lvl),
                Option::Some(m) => Option::Some(
                    if lvl < m {
                        lvl
                    } else {
                        m
                    },
                ),
            };
        }
    }
    cur
}

/// Parse a document given as its block list, together with the root span of
/// the document and its origin (diagnostic path and file stem).
pub fn parse_document(
    path: &str,
    file_stem: Option<&str>,
    blocks: &Vec<Block>,
    root_span: &Option<Span>,
) -> (r: Result<ParsedMarkdown, ParseError>)
    ensures
        spec_result_view(r) == spec_parse_blocks(
            blocks@,
            spec_stem_view(file_stem),
            path@,
            *root_span,
        ),
{
    let len = blocks.len();
    let sections = make_sections_range(blocks, 0, len);
    proof {
        lemma_sections_wf(blocks@, 0, len as int);
    }
    let minl = min_allowed(&sections);
    let (ex, meta): (Vec<Extracted>, Option<usize>) = match minl {
        Option::Some(m) => {
            let base: u8 = if m <= 2 {
                1
            } else {
                m - 1
            };
            let ex = match extract_all(blocks, &sections, base, path) {
                Result::Ok(v) => v,
                Result::Err(e) => {
                    return Result::Err(e);
                },
            };
            // The collection meta section: the first one above the base level.
            let mut meta: Option<usize> = Option::None;
            let sn = sections.len();
            let mut j: usize = 0;
            while j < sn && meta.is_none()
                invariant
                    0 <= j <= sn,
                    sn == sections@.len(),
                    meta is None ==> spec_find_meta(sections.deep_view(), 0, base)
                        == spec_find_meta(sections.deep_view(), j as int, base),
                    match meta {
                        Option::Some(w) => w < sections@.len() && spec_find_meta(
                            sections.deep_view(),
                            0,
                            base,
                        ) == Option::Some(sections@[w as int]@),
                        Option::None => true,
                    },
                decreases sn - j + (if meta is None {
                    1int
                } else {
                    0int
                }),
            {
                proof {
                    assert(sections.deep_view()[j as int] == sections@[j as int]@);
                }
                if sections[j].level < base {
                    meta = Option::Some(j);
                } else {
                    j = j + 1;
                }
            }
            proof {
                if meta is None {
                    assert(spec_find_meta(sections.deep_view(), 0, base) is None);
                }
            }
            (ex, meta)
        },
        Option::None => {
            let ex = match fallback_all(blocks, &sections, path) {
                Result::Ok(v) => v,
                Result::Err(e) => {
                    return Result::Err(e);
                },
            };
            (ex, Option::None)
        },
    };
    let parents = collect_parents(&ex);
    let trees = match assemble_trees(blocks, &sections, &ex, &parents, path) {
        Result::Ok(v) => v,
        Result::Err(e) => {
            return Result::Err(e);
        },
    };
    finish(blocks, &sections, ex, trees, meta, file_stem, path, root_span)
}

/// Shape the final result from the extracted files and trees; see
/// [`spec_finish`].
#[verifier::rlimit(30)]
fn finish(
    nodes: &Vec<Block>,
    sections: &Vec<Section>,
    ex: Vec<Extracted>,
    trees: Vec<TemplateTree>,
    meta: Option<usize>,
    file_stem: Option<&str>,
    path: &str,
    root_span: &Option<Span>,
) -> (r: Result<ParsedMarkdown, ParseError>)
    requires
        forall|k: int|
            0 <= k < sections.deep_view().len() ==> spec_section_wf(
                nodes@,
                #[trigger] sections.deep_view()[k],
            ),
        match meta {
            Option::Some(w) => w < sections@.len(),
            Option::None => true,
        },
    ensures
        spec_result_view(r) == spec_finish(
            nodes@,
            ex.deep_view(),
            trees.deep_view(),
            match meta {
                Option::Some(w) => Option::Some(sections@[w as int]@),
                Option::None => Option::None,
            },
            spec_stem_view(file_stem),
            path@,
            *root_span,
        ),
{
    let ghost exv = ex.deep_view();
    let ghost treesv = trees.deep_view();
    if ex.len() == 0 && trees.len() == 0 {
        return Result::Err(ParseError::NoTemplatesFound);
    }
    let mut ex_work = ex;
    let mut trees_work = trees;
    if ex_work.len() == 1 && trees_work.len() == 0 {
        let e = ex_work.remove(0);
        proof {
            assert(e@ == exv[0]);
        }
        return Result::Ok(ParsedMarkdown::Template(Template::TemplateFile(e.file)));
    }
    if ex_work.len() == 0 && trees_work.len() == 1 {
        let t = trees_work.remove(0);
        proof {
            assert(t@ == treesv[0]);
        }
        return Result::Ok(ParsedMarkdown::Tree(t));
    }
    // A collection holding every extracted file, then every tree.
    let mut templates: Vec<Template> = Vec::new();
    let n = ex_work.len();
    let mut i: usize = 0;
    while i < n
        invariant
            0 <= i <= n,
            n == exv.len(),
            ex_work@.len() == n - i,
            forall|q: int| 0 <= q < n - i ==> (#[trigger] ex_work@[q])@ == exv[i + q],
            templates@.len() == i,
            forall|q: int|
                0 <= q < i ==> (#[trigger] templates@[q]) is TemplateFile
                    && templates@[q]->TemplateFile_0@ == exv[q].file,
        decreases n - i,
    {
        let e = ex_work.remove(0);
        templates.push(Template::TemplateFile(e.file));
        i = i + 1;
    }
    let m = trees_work.len();
    let mut j: usize = 0;
    while j < m
        invariant
            0 <= j <= m,
            m == treesv.len(),
            n == exv.len(),
            trees_work@.len() == m - j,
            forall|q: int| 0 <= q < m - j ==> (#[trigger] trees_work@[q])@ == treesv[j + q],
            templates@.len() == n + j,
            forall|q: int|
                0 <= q < n ==> (#[trigger] templates@[q]) is TemplateFile
                    && templates@[q]->TemplateFile_0@ == exv[q].file,
            forall|q: int|
                n <= q < n + j ==> (#[trigger] templates@[q]) is TemplateTree
                    && templates@[q]->TemplateTree_0@ == treesv[q - n],
        decreases m - j,
    {
        let t = trees_work.remove(0);
        templates.push(Template::TemplateTree(t));
        j = j + 1;
    }
    proof {
        crate::types::lemma_templates_view_index(templates@);
        assert forall|q: int| 0 <= q < n + m implies #[trigger] crate::types::spec_templates_view(
            templates@,
        )[q] == (spec_files_of(exv) + spec_trees_as(treesv))[q] by {
            assert(crate::types::spec_templates_view(templates@)[q]
                == crate::types::spec_template_view(templates@[q]));
        }
        assert(crate::types::spec_templates_view(templates@) =~= spec_files_of(exv)
            + spec_trees_as(treesv));
    }
    let (name, description, location): (String, String, Location) = match meta {
        Option::Some(w) => {
            proof {
                assert(sections.deep_view()[w as int] == sections@[w as int]@);
            }
            let msec = &sections[w];
            (
                msec.title.clone(),
                collect_description(nodes, msec.body_start, msec.body_end),
                sec_location(nodes, msec, path),
            )
        },
        Option::None => {
            let name = match file_stem {
                Option::Some(s) => crate::chars::lit_string(s),
                Option::None => crate::chars::lit_string("Untitled"),
            };
            let desc = crate::chars::lit_string("");
            proof {
                reveal_strlit("");
                assert(desc@ =~= Seq::<char>::empty());
            }
            (name, desc, make_location(path, root_span))
        },
    };
    Result::Ok(
        ParsedMarkdown::Collection(
            TemplateCollection { name, description, templates, location },
        ),
    )
}

/// The diagnostic form of a source path: backslashes replaced by slashes.
pub open spec fn spec_norm_path(p: Seq<char>) -> Seq<char> {
    p.map_values(
        |c: char|
            if c == '\\' {
                '/'
            } else {
                c
            },
    )
}

/// Replace backslashes by slashes in a source path.
pub fn normalize_source_path(path: &str) -> (r: String)
    ensures
        r@ == spec_norm_path(path@),
{
    let cs = str_chars(path);
    let mut out: Vec<char> = Vec::new();
    let n = cs.len();
    let mut i: usize = 0;
    while i < n
        invariant
            0 <= i <= n,
            n == cs@.len(),
            cs@ == path@,
            out@.len() == i,
            forall|q: int| 0 <= q < i ==> out@[q] == spec_norm_path(path@)[q],
        decreases n - i,
    {
        if cs[i] == '\\' {
            out.push('/');
        } else {
            out.push(cs[i]);
        }
        i = i + 1;
    }
    proof {
        assert(out@ =~= spec_norm_path(path@));
    }
    chars_string(&out)
}

/// The last index of `c` in `s`, or `-1`.
pub open spec fn spec_last_index_of(s: Seq<char>, c: char) -> int
    decreases s.len(),
{
    if s.len() == 0 {
        -1
    } else if s.last() == c {
        s.len() - 1
    } else {
        spec_last_index_of(s.drop_last(), c)
    }
}

pub fn last_index_of(v: &Vec<char>, c: char) -> (r: Option<usize>)
    ensures
        match r {
            Option::Some(j) => j < v@.len() && j as int == spec_last_index_of(v@, c),
            Option::None => spec_last_index_of(v@, c) == -1,
        },
{
    let mut i: usize = v.len();
    proof {
        assert(v@.take(v@.len() as int) =~= v@);
    }
    while i > 0
        invariant
            0 <= i <= v@.len(),
            spec_last_index_of(v@, c) == spec_last_index_of(v@.take(i as int), c),
        decreases i,
    {
        i = i - 1;
        proof {
            let t = v@.take(i + 1);
            assert(t.last() == v@[i as int]);
            assert(t.drop_last() =~= v@.take(i as int));
        }
        if v[i] == c {
            return Option::Some(i);
        }
    }
    proof {
        assert(v@.take(0) =~= Seq::<char>::empty());
    }
    Option::None
}

/// The file stem of a path: the component after the last slash, without the
/// extension after its last dot; a dot at the start of the component does
/// not begin an extension. An empty component has no stem.
pub open spec fn spec_file_stem(p: Seq<char>) -> Option<Seq<char>> {
    let comp = p.subrange(spec_last_index_of(p, '/') + 1, p.len() as int);
    if comp.len() == 0 {
        Option::None
    } else {
        let dot = spec_last_index_of(comp, '.');
        if dot > 0 {
            Option::Some(comp.take(dot))
        } else {
            Option::Some(comp)
        }
    }
}

/// The file stem of a path.
pub fn file_stem_of(path: &str) -> (r: Option<String>)
    ensures
        r.deep_view() == spec_file_stem(path@),
{
    let cs = str_chars(path);
    let total = cs.len();
    let start: usize = match last_index_of(&cs, '/') {
        Option::Some(j) => {
            proof {
                assert(j < total);
            }
            j + 1
        },
        Option::None => 0,
    };
    let comp = crate::extract::subrange_chars(&cs, start, cs.len());
    if comp.len() == 0 {
        return Option::None;
    }
    let stem = match last_index_of(&comp, '.') {
        Option::Some(d) if d > 0 => crate::extract::subrange_chars(&comp, 0, d),
        _ => comp,
    };
    proof {
        if spec_last_index_of(comp@, '.') > 0 {
            assert(stem@ =~= comp@.take(spec_last_index_of(comp@, '.')));
        }
    }
    Option::Some(chars_string(&stem))
}

/// What parsing one source document yields: the markdown tree of its text,
/// classified with the normalized path and its file stem.
pub open spec fn spec_parse_doc(path: Seq<char>, text: Seq<char>) -> Result<
    ParsedV,
    ParseErrorV,
> {
    let np = spec_norm_path(path);
    match crate::md::md_doc_of(text) {
        Result::Ok(doc) => spec_parse_blocks(doc.0, spec_file_stem(np), np, doc.1),
        Result::Err(m) => Result::Err(ParseErrorV::StructuralParseError(m)),
    }
}

/// Parse one source document from its path and text. The path serves
/// diagnostics only; its file stem names a collection that has no heading
/// above the recognition level.
pub fn parse_path_text(path: &str, text: &str) -> (r: Result<ParsedMarkdown, ParseError>)
    ensures
        spec_result_view(r) == spec_parse_doc(path@, text@),
{
    let np = normalize_source_path(path);
    let stem = file_stem_of(np.as_str());
    match crate::md::md_parse(text) {
        Result::Ok((blocks, span)) => {
            let stem_ref: Option<&str> = match &stem {
                Option::Some(s) => Option::Some(s.as_str()),
                Option::None => Option::None,
            };
            parse_document(np.as_str(), stem_ref, &blocks, &span)
        },
        Result::Err(message) => Result::Err(ParseError::StructuralParseError { message }),
    }
}

/// Parse one markdown document from its text. The diagnostic path is empty
/// (in-memory input); the file stem, when given, names a collection that
/// has no heading above the recognition level.
pub fn parse_str(file_stem: Option<&str>, input: &str) -> (r: Result<ParsedMarkdown, ParseError>)
    ensures
        match crate::md::md_doc_of(input@) {
            Result::Ok(doc) => spec_result_view(r) == spec_parse_blocks(
                doc.0,
                spec_stem_view(file_stem),
                Seq::empty(),
                doc.1,
            ),
            Result::Err(m) => spec_result_view(r) == Result::<ParsedV, ParseErrorV>::Err(
                ParseErrorV::StructuralParseError(m),
            ),
        },
{
    match crate::md::md_parse(input) {
        Result::Ok((blocks, span)) => {
            let r = parse_document("", file_stem, &blocks, &span);
            proof {
                reveal_strlit("");
                assert(""@ =~= Seq::<char>::empty());
            }
            r
        },
        Result::Err(message) => Result::Err(ParseError::StructuralParseError { message }),
    }
}

// ---------------------------------------------------------------------------
// Laws
// ---------------------------------------------------------------------------
/// Parsing the same document twice yields structurally equal results: the
/// parse result is a function of the blocks, the file stem, the diagnostic
/// path and the root span alone, so any two results meeting the contract of
/// [`parse_document`] on equal inputs have equal models.
pub proof fn lemma_parse_idempotent(
    r1: Result<ParsedMarkdown, ParseError>,
    r2: Result<ParsedMarkdown, ParseError>,
    nodes: Seq<Block>,
    stem: Option<Seq<char>>,
    path: Seq<char>,
    root_span: Option<Span>,
)
    requires
        spec_result_view(r1) == spec_parse_blocks(nodes, stem, path, root_span),
        spec_result_view(r2) == spec_parse_blocks(nodes, stem, path, root_span),
    ensures
        spec_result_view(r1) == spec_result_view(r2),
{
}

proof fn lemma_fallback_empty(
    nodes: Seq<Block>,
    sections: Seq<SectionV>,
    path: Seq<char>,
    i: int,
)
    requires
        forall|k: int|
            i <= k < sections.len() ==> spec_code_range(
                nodes,
                (#[trigger] sections[k]).body_start,
                sections[k].body_end,
            ).len() != 1,
    ensures
        spec_fallback(nodes, sections, path, i) == Result::<Seq<ExtractedV>, ParseErrorV>::Ok(
            Seq::empty(),
        ),
    decreases sections.len() - i,
{
    if 0 <= i < sections.len() {
        lemma_fallback_empty(nodes, sections, path, i + 1);
    }
}

/// A document with no reserved subhead anywhere and no section holding
/// exactly one fenced code block parses to `NoTemplatesFound`.
pub proof fn lemma_no_templates_found(
    nodes: Seq<Block>,
    stem: Option<Seq<char>>,
    path: Seq<char>,
    root_span: Option<Span>,
)
    requires
        spec_min_allowed(spec_sections(nodes, 0, nodes.len() as int), 0) is None,
        forall|k: int|
            0 <= k < spec_sections(nodes, 0, nodes.len() as int).len() ==> spec_code_range(
                nodes,
                (#[trigger] spec_sections(nodes, 0, nodes.len() as int)[k]).body_start,
                spec_sections(nodes, 0, nodes.len() as int)[k].body_end,
            ).len() != 1,
    ensures
        spec_parse_blocks(nodes, stem, path, root_span) == Result::<ParsedV, ParseErrorV>::Err(
            ParseErrorV::NoTemplatesFound,
        ),
{
    let sections = spec_sections(nodes, 0, nodes.len() as int);
    lemma_fallback_empty(nodes, sections, path, 0);
    assert(spec_parents(Seq::<ExtractedV>::empty()) =~= Seq::<Seq<Seq<char>>>::empty());
}

/// Tree promotion is all-or-nothing: one member without an output path
/// keeps the whole sibling group from forming a tree.
pub proof fn lemma_tree_all_or_nothing(
    sections: Seq<SectionV>,
    ex: Seq<ExtractedV>,
    pp: Seq<Seq<char>>,
    i: int,
)
    requires
        0 <= i < spec_members(ex, pp).len(),
        spec_members(ex, pp)[i].path is None,
    ensures
        !spec_group_promoted(sections, ex, pp),
{
}

/// With no promoted sibling group at all, assembly yields no tree: the
/// extracted templates remain loose standalone entries.
pub proof fn lemma_no_promotion_no_trees(
    nodes: Seq<Block>,
    sections: Seq<SectionV>,
    ex: Seq<ExtractedV>,
    parents: Seq<Seq<Seq<char>>>,
    path: Seq<char>,
    k: int,
)
    requires
        forall|j: int|
            k <= j < parents.len() ==> !spec_group_promoted(sections, ex, #[trigger] parents[j]),
    ensures
        spec_assemble(nodes, sections, ex, parents, path, k) == Result::<
            Seq<TemplateTreeV>,
            ParseErrorV,
        >::Ok(Seq::empty()),
    decreases parents.len() - k,
{
    if 0 <= k < parents.len() {
        lemma_no_promotion_no_trees(nodes, sections, ex, parents, path, k + 1);
    }
}

/// A promoted sibling group yields exactly its tree in the assembly result,
/// whenever assembly succeeds.
pub proof fn lemma_promoted_group_yields_tree(
    nodes: Seq<Block>,
    sections: Seq<SectionV>,
    ex: Seq<ExtractedV>,
    parents: Seq<Seq<Seq<char>>>,
    path: Seq<char>,
    k: int,
    j: int,
)
    requires
        0 <= k <= j < parents.len(),
        spec_assemble(nodes, sections, ex, parents, path, k) is Ok,
        spec_group_promoted(sections, ex, parents[j]),
    ensures
        spec_assemble(nodes, sections, ex, parents, path, k)->Ok_0.contains(
            spec_tree_of(nodes, sections, ex, parents[j], path),
        ),
    decreases j - k,
{
    let t = spec_tree_of(nodes, sections, ex, parents[j], path);
    if k == j {
        let rest = spec_assemble(nodes, sections, ex, parents, path, k + 1);
        assert(rest is Ok);
        let whole = seq![t] + rest->Ok_0;
        assert(whole[0] == t);
        assert(whole.contains(t));
    } else {
        if spec_group_promoted(sections, ex, parents[k]) {
            let rest = spec_assemble(nodes, sections, ex, parents, path, k + 1);
            assert(rest is Ok);
            lemma_promoted_group_yields_tree(nodes, sections, ex, parents, path, k + 1, j);
            let w = choose|w: int| 0 <= w < rest->Ok_0.len() && rest->Ok_0[w] == t;
            let whole = seq![spec_tree_of(nodes, sections, ex, parents[k], path)] + rest->Ok_0;
            assert(whole[w + 1] == t);
            assert(whole.contains(t));
        } else {
            lemma_promoted_group_yields_tree(nodes, sections, ex, parents, path, k + 1, j);
        }
    }
}

} // verus!
