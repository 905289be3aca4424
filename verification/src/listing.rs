//! Pure text helpers for the template listing: argument lines, cleaned
//! descriptions, path display, language detection and line lookup. The
//! listing's output itself is assembled by the program around the library.

use vstd::prelude::*;

use crate::chars::{
    chars_string, push_chars, push_str_chars, spec_trim, str_chars, trim_chars,
};
use crate::extract::{index_of, spec_index_of, subrange_chars};
use crate::parse::{last_index_of, spec_last_index_of};
use crate::types::{Arg, ArgKind, TemplateFile};

verus! {

/// A run of spaces.
pub open spec fn spec_spaces(count: nat) -> Seq<char> {
    Seq::new(count, |i: int| ' ')
}

/// A run of `count` spaces.
pub fn spaces(count: usize) -> (r: String)
    ensures
        r@ == spec_spaces(count as nat),
{
    let mut out: Vec<char> = Vec::new();
    let mut i: usize = 0;
    while i < count
        invariant
            0 <= i <= count,
            out@.len() == i,
            forall|q: int| 0 <= q < i ==> out@[q] == ' ',
        decreases count - i,
    {
        out.push(' ');
        i = i + 1;
    }
    proof {
        assert(out@ =~= spec_spaces(count as nat));
    }
    chars_string(&out)
}

/// A path for display: `[no path]` stands in for an empty one.
pub open spec fn spec_format_path(p: Seq<char>) -> Seq<char> {
    if p.len() == 0 {
        "[no path]"@
    } else {
        p
    }
}

/// A path for display: `[no path]` stands in for an empty one.
pub fn format_path(path: &str) -> (r: String)
    ensures
        r@ == spec_format_path(path@),
{
    if path.is_empty() {
        crate::chars::lit_string("[no path]")
    } else {
        crate::chars::lit_string(path)
    }
}

/// The type word shown for an argument; an untyped argument is shown as a
/// string.
pub open spec fn spec_shown_type(k: ArgKind) -> Seq<char> {
    match k {
        ArgKind::Boolean(_) => "boolean"@,
        ArgKind::String(_) => "string"@,
        ArgKind::Number(_) => "number"@,
        ArgKind::Any(_) => "string"@,
    }
}

/// One listed argument: its name, its bracketed type, and its trimmed
/// description when it has one.
pub open spec fn spec_format_argument(a: crate::types::ArgV) -> Seq<char> {
    if spec_trim(a.description).len() == 0 {
        a.name + " ["@ + spec_shown_type(a.kind) + "]"@
    } else {
        a.name + " ["@ + spec_shown_type(a.kind) + "]: "@ + spec_trim(a.description)
    }
}

/// Format one argument for the listing.
pub fn format_argument(arg: &Arg) -> (r: String)
    ensures
        r@ == spec_format_argument(arg@),
{
    let mut out: Vec<char> = Vec::new();
    push_str_chars(&mut out, arg.name.as_str());
    push_str_chars(&mut out, " [");
    match arg.kind {
        ArgKind::Boolean(_) => push_str_chars(&mut out, "boolean"),
        ArgKind::String(_) => push_str_chars(&mut out, "string"),
        ArgKind::Number(_) => push_str_chars(&mut out, "number"),
        ArgKind::Any(_) => push_str_chars(&mut out, "string"),
    }
    let dc = str_chars(arg.description.as_str());
    let dt = trim_chars(&dc);
    if dt.len() == 0 {
        push_str_chars(&mut out, "]");
    } else {
        push_str_chars(&mut out, "]: ");
        push_chars(&mut out, &dt);
    }
    chars_string(&out)
}

/// Whether a description line only declares an output path: a backticked
/// path ending in a colon, or a colon-terminated line without spaces.
pub open spec fn spec_is_inline_path_marker(l: Seq<char>) -> bool {
    (l.len() >= 2 && l[0] == '`' && l[l.len() - 2] == '`' && l[l.len() - 1] == ':') || (l.len()
        >= 1 && l.last() == ':' && spec_index_of(l.take(l.len() - 1), ' ', 0) < 0)
}

/// Whether a description line only declares an output path.
pub fn is_inline_path_marker(line: &str) -> (r: bool)
    ensures
        r == spec_is_inline_path_marker(line@),
{
    let cs = str_chars(line);
    let n = cs.len();
    if n >= 2 && cs[0] == '`' && cs[n - 2] == '`' && cs[n - 1] == ':' {
        return true;
    }
    if n >= 1 && cs[n - 1] == ':' {
        let stem = subrange_chars(&cs, 0, n - 1);
        proof {
            assert(stem@ =~= line@.take(line@.len() - 1));
        }
        match index_of(&stem, ' ', 0) {
            Option::None => {
                return true;
            },
            Option::Some(_) => {
                return false;
            },
        }
    }
    false
}

/// A path with every leading `./` removed.
pub open spec fn spec_strip_dot_slash(p: Seq<char>) -> Seq<char>
    decreases p.len(),
{
    if p.len() >= 2 && p[0] == '.' && p[1] == '/' {
        spec_strip_dot_slash(p.subrange(2, p.len() as int))
    } else {
        p
    }
}

fn strip_dot_slash(p: Vec<char>) -> (r: Vec<char>)
    ensures
        r@ == spec_strip_dot_slash(p@),
    decreases p@.len(),
{
    if p.len() >= 2 && p[0] == '.' && p[1] == '/' {
        let rest = subrange_chars(&p, 2, p.len());
        strip_dot_slash(rest)
    } else {
        p
    }
}

/// The extension of a path: what follows the last dot of its last
/// component, provided that dot is not the component's first character.
pub open spec fn spec_extension(p: Seq<char>) -> Option<Seq<char>> {
    let comp = p.subrange(spec_last_index_of(p, '/') + 1, p.len() as int);
    let dot = spec_last_index_of(comp, '.');
    if dot > 0 && dot + 1 < comp.len() {
        Option::Some(comp.subrange(dot + 1, comp.len() as int))
    } else {
        Option::None
    }
}

/// The language shown for a file: the extension of its output path when one
/// is declared, else its trimmed fenced-block language.
pub open spec fn spec_detect_language(t: crate::types::TemplateFileV) -> Option<Seq<char>> {
    let from_path = match t.path {
        Option::Some(p) => spec_extension(spec_strip_dot_slash(p)),
        Option::None => Option::None,
    };
    match from_path {
        Option::Some(e) => Option::Some(e),
        Option::None => match t.lang {
            Option::Some(l) => if spec_trim(l).len() > 0 {
                Option::Some(spec_trim(l))
            } else {
                Option::None
            },
            Option::None => Option::None,
        },
    }
}

/// Detect the language shown for a file in the listing.
pub fn detect_language(file: &TemplateFile) -> (r: Option<String>)
    ensures
        r.deep_view() == spec_detect_language(file@),
{
    match &file.path {
        Option::Some(p) => {
            let cs = str_chars(p.as_str());
            let stripped = strip_dot_slash(cs);
            let total = stripped.len();
            let start: usize = match last_index_of(&stripped, '/') {
                Option::Some(j) => {
                    proof {
                        assert(j < total);
                    }
                    j + 1
                },
                Option::None => 0,
            };
            let comp = subrange_chars(&stripped, start, total);
            match last_index_of(&comp, '.') {
                Option::Some(d) if d > 0 && d + 1 < comp.len() => {
                    let ext = subrange_chars(&comp, d + 1, comp.len());
                    return Option::Some(chars_string(&ext));
                },
                _ => {},
            }
            lang_fallback(file)
        },
        Option::None => lang_fallback(file),
    }
}

fn lang_fallback(file: &TemplateFile) -> (r: Option<String>)
    requires
        match file@.path {
            Option::Some(p) => spec_extension(spec_strip_dot_slash(p)) is None,
            Option::None => true,
        },
    ensures
        r.deep_view() == spec_detect_language(file@),
{
    match &file.lang {
        Option::Some(l) => {
            let lc = str_chars(l.as_str());
            let lt = trim_chars(&lc);
            if lt.len() > 0 {
                Option::Some(chars_string(&lt))
            } else {
                Option::None
            }
        },
        Option::None => Option::None,
    }
}

/// How many recorded line-start offsets lie at or before a position,
/// counting from index `i`.
pub open spec fn spec_count_le(offsets: Seq<usize>, pos: usize, i: int) -> int
    decreases offsets.len() - i,
{
    if i < 0 || i >= offsets.len() {
        0
    } else {
        (if offsets[i] <= pos {
            1int
        } else {
            0int
        }) + spec_count_le(offsets, pos, i + 1)
    }
}

/// The one-based line number of a byte position, given the line-start
/// offsets of a document in order: the number of starts at or before the
/// position, and at least one.
pub fn line_of_offset(offsets: &Vec<usize>, pos: usize) -> (r: usize)
    requires
        offsets@.len() < usize::MAX,
    ensures
        r as int == (if spec_count_le(offsets@, pos, 0) > 0 {
            spec_count_le(offsets@, pos, 0)
        } else {
            1int
        }),
{
    let n = offsets.len();
    let mut count: usize = 0;
    let mut i: usize = 0;
    while i < n
        invariant
            0 <= i <= n,
            n == offsets@.len() < usize::MAX,
            count <= i,
            spec_count_le(offsets@, pos, 0) == count + spec_count_le(offsets@, pos, i as int),
        decreases n - i,
    {
        if offsets[i] <= pos {
            count = count + 1;
        }
        i = i + 1;
    }
    if count == 0 {
        1
    } else {
        count
    }
}

/// The lines of a text, split at newlines with a trailing carriage return
/// removed from each.
pub open spec fn spec_lines(s: Seq<char>) -> Seq<Seq<char>>
    decreases s.len(),
{
    if s.len() == 0 {
        Seq::empty()
    } else {
        let nl = spec_index_of(s, '\n', 0);
        if nl < 0 || nl >= s.len() {
            seq![spec_strip_cr(s)]
        } else {
            seq![spec_strip_cr(s.take(nl))] + spec_lines(s.subrange(nl + 1, s.len() as int))
        }
    }
}

/// A line with its trailing carriage return removed.
pub open spec fn spec_strip_cr(l: Seq<char>) -> Seq<char> {
    if l.len() > 0 && l.last() == '\r' {
        l.drop_last()
    } else {
        l
    }
}

fn lines_of(s: Vec<char>) -> (r: Vec<Vec<char>>)
    ensures
        r.deep_view() == spec_lines(s@),
    decreases s@.len(),
{
    let mut out: Vec<Vec<char>> = Vec::new();
    if s.len() == 0 {
        proof {
            assert(out.deep_view() =~= spec_lines(s@));
        }
        return out;
    }
    match index_of(&s, '\n', 0) {
        Option::None => {
            let line = strip_cr(s);
            let ghost lv = line@;
            out.push(line);
            proof {
                assert(out.deep_view() =~~= seq![lv]);
            }
            out
        },
        Option::Some(nl) => {
            let head = subrange_chars(&s, 0, nl);
            proof {
                assert(head@ =~= s@.take(nl as int));
            }
            let line = strip_cr(head);
            let ghost lv = line@;
            let total = s.len();
            let tail = subrange_chars(&s, nl + 1, total);
            let rest = lines_of(tail);
            let ghost restv = rest.deep_view();
            out.push(line);
            let mut rest_work = rest;
            let m = rest_work.len();
            let mut k: usize = 0;
            while k < m
                invariant
                    0 <= k <= m,
                    m == restv.len(),
                    rest_work@.len() == m - k,
                    forall|q: int| 0 <= q < m - k ==> (#[trigger] rest_work@[q])@ == restv[k + q],
                    out.deep_view() =~~= seq![lv] + restv.take(k as int),
                decreases m - k,
            {
                let ghost pre = out;
                let piece = rest_work.remove(0);
                let ghost pv = piece@;
                out.push(piece);
                proof {
                    crate::types::lemma_deep_view_push(pre, out, piece);
                    crate::chars::lemma_chars_deep_view(piece);
                    assert(out.deep_view() =~~= seq![lv] + restv.take(k + 1));
                }
                k = k + 1;
            }
            proof {
                assert(restv.take(m as int) =~= restv);
                assert(out.deep_view() =~~= spec_lines(s@));
            }
            out
        },
    }
}

fn strip_cr(l: Vec<char>) -> (r: Vec<char>)
    ensures
        r@ == spec_strip_cr(l@),
{
    if l.len() > 0 && l[l.len() - 1] == '\r' {
        let total = l.len();
        let r = subrange_chars(&l, 0, total - 1);
        proof {
            assert(r@ =~= l@.drop_last());
        }
        r
    } else {
        l
    }
}

/// The cleaned lines of a description: each line trimmed, runs of blank
/// lines collapsed to one, and path-marker lines dropped.
pub open spec fn spec_clean_fold(
    lines: Seq<Seq<char>>,
    i: int,
    acc: Seq<Seq<char>>,
    prev_blank: bool,
) -> Seq<Seq<char>>
    decreases lines.len() - i,
{
    if i < 0 || i >= lines.len() {
        acc
    } else {
        let t = spec_trim(lines[i]);
        if t.len() == 0 {
            if !prev_blank {
                spec_clean_fold(lines, i + 1, acc.push(Seq::empty()), true)
            } else {
                spec_clean_fold(lines, i + 1, acc, true)
            }
        } else if spec_is_inline_path_marker(t) {
            spec_clean_fold(lines, i + 1, acc, prev_blank)
        } else {
            spec_clean_fold(lines, i + 1, acc.push(t), false)
        }
    }
}

/// The cleaned lines with trailing blanks removed.
pub open spec fn spec_drop_trailing_blanks(ls: Seq<Seq<char>>) -> Seq<Seq<char>>
    decreases ls.len(),
{
    if ls.len() > 0 && ls.last().len() == 0 {
        spec_drop_trailing_blanks(ls.drop_last())
    } else {
        ls
    }
}

/// Lines joined with newlines.
pub open spec fn spec_join_nl(ls: Seq<Seq<char>>) -> Seq<char>
    decreases ls.len(),
{
    if ls.len() == 0 {
        Seq::empty()
    } else if ls.len() == 1 {
        ls[0]
    } else {
        spec_join_nl(ls.drop_last()) + seq!['\n'] + ls.last()
    }
}

/// What cleaning a description yields: nothing when no line survives, else
/// the surviving lines joined with newlines.
pub open spec fn spec_clean_description(s: Seq<char>) -> Option<Seq<char>> {
    let kept = spec_drop_trailing_blanks(
        spec_clean_fold(spec_lines(s), 0, Seq::empty(), true),
    );
    if kept.len() == 0 {
        Option::None
    } else {
        Option::Some(spec_join_nl(kept))
    }
}

/// Clean a description for the listing: trim every line, collapse blank
/// runs, drop output-path marker lines and trailing blanks.
#[verifier::loop_isolation(false)]
pub fn clean_description(input: &str) -> (r: Option<String>)
    ensures
        r.deep_view() == spec_clean_description(input@),
{
    let cs = str_chars(input);
    let lines = lines_of(cs);
    let ghost linesv = lines.deep_view();
    let mut kept: Vec<Vec<char>> = Vec::new();
    proof {
        assert(kept.deep_view() =~= Seq::<Seq<char>>::empty());
    }
    let mut prev_blank = true;
    let n = lines.len();
    let mut i: usize = 0;
    while i < n
        invariant
            0 <= i <= n,
            n == linesv.len(),
            spec_clean_fold(linesv, 0, Seq::empty(), true) == spec_clean_fold(
                linesv,
                i as int,
                kept.deep_view(),
                prev_blank,
            ),
        decreases n - i,
    {
        proof {
            assert(linesv[i as int] == lines@[i as int]@);
        }
        let t = trim_chars(&lines[i]);
        if t.len() == 0 {
            if !prev_blank {
                let ghost pre = kept;
                let blank: Vec<char> = Vec::new();
                let ghost bv = blank@;
                kept.push(blank);
                proof {
                    crate::types::lemma_deep_view_push(pre, kept, blank);
                    crate::chars::lemma_chars_deep_view(blank);
                    assert(bv =~= Seq::<char>::empty());
                    assert(kept.deep_view() =~~= pre.deep_view().push(Seq::<char>::empty()));
                }
            }
            prev_blank = true;
        } else if is_inline_path_marker(chars_string(&t).as_str()) {
            // Dropped: the line only declares an output path.
        } else {
            let ghost pre = kept;
            let ghost tv = t@;
            kept.push(t);
            proof {
                crate::types::lemma_deep_view_push(pre, kept, t);
                crate::chars::lemma_chars_deep_view(t);
                assert(kept.deep_view() =~~= pre.deep_view().push(tv));
            }
            prev_blank = false;
        }
        i = i + 1;
    }
    let ghost folded = spec_clean_fold(linesv, 0, Seq::empty(), true);
    // Remove trailing blank lines.
    while kept.len() > 0 && kept[kept.len() - 1].len() == 0
        invariant
            spec_drop_trailing_blanks(folded) == spec_drop_trailing_blanks(kept.deep_view()),
        decreases kept@.len(),
    {
        let ghost pre = kept.deep_view();
        proof {
            assert(pre.last() == kept@[kept@.len() - 1]@);
        }
        kept.pop();
        proof {
            assert(kept.deep_view() =~~= pre.drop_last());
        }
    }
    proof {
        if kept@.len() > 0 {
            assert(kept.deep_view().last() == kept@[kept@.len() - 1]@);
        }
        assert(spec_drop_trailing_blanks(kept.deep_view()) == kept.deep_view());
    }
    if kept.len() == 0 {
        return Option::None;
    }
    // Join the surviving lines with newlines.
    let mut out: Vec<char> = Vec::new();
    let ghost keptv = kept.deep_view();
    let m = kept.len();
    let mut k: usize = 0;
    while k < m
        invariant
            0 <= k <= m,
            m == keptv.len(),
            keptv == kept.deep_view(),
            kept@.len() == m,
            out@ == spec_join_nl(keptv.take(k as int)),
        decreases m - k,
    {
        proof {
            assert(keptv[k as int] == kept@[k as int]@);
        }
        if k > 0 {
            out.push('\n');
        }
        push_chars(&mut out, &kept[k]);
        proof {
            let tk = keptv.take(k + 1);
            assert(tk.drop_last() =~= keptv.take(k as int));
            assert(tk.last() == keptv[k as int]);
            if k == 0 {
                assert(out@ =~= spec_join_nl(tk));
            }
        }
        k = k + 1;
    }
    proof {
        assert(keptv.take(m as int) =~= keptv);
    }
    Option::Some(chars_string(&out))
}

} // verus!
