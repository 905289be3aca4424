//! Placeholder discovery in template strings: every `{{ ... }}` token is
//! scanned, helper and section syntax is stripped, and the referenced
//! argument names are collected, each with its occurrences.
//!
//! Positions are character offsets into the template string.

use vstd::prelude::*;

use crate::chars::{
    chars_eq, chars_string, spec_is_space, spec_trim, str_chars, trim_chars,
};
use crate::extract::{index_of, spec_index_of, subrange_chars};
use crate::genargs::spec_ascii_lower_seq;

verus! {

/// One occurrence of a placeholder: the character range of its token.
#[derive(Debug, Clone, Copy, PartialEq, Eq, Structural)]
pub struct PlaceholderOccurrence {
    pub start: usize,
    pub end: usize,
}

/// One discovered placeholder: its name and every occurrence, in scan
/// order.
#[derive(Debug, Clone)]
pub struct Placeholder {
    pub name: String,
    pub occurrences: Vec<PlaceholderOccurrence>,
}

/// The mathematical model of a [`Placeholder`].
pub struct PlaceholderV {
    pub name: Seq<char>,
    pub occurrences: Seq<PlaceholderOccurrence>,
}

impl View for Placeholder {
    type V = PlaceholderV;

    open spec fn view(&self) -> PlaceholderV {
        PlaceholderV { name: self.name@, occurrences: self.occurrences@ }
    }
}

impl DeepView for Placeholder {
    type V = PlaceholderV;

    open spec fn deep_view(&self) -> PlaceholderV {
        self@
    }
}

/// One scanned token reference.
pub struct TokenV {
    pub name: Seq<char>,
    pub occ: PlaceholderOccurrence,
}

// ---------------------------------------------------------------------------
// Character-sequence helpers
// ---------------------------------------------------------------------------
/// The first position at or after `i` where `a` is immediately followed by
/// `b`, or `-1`.
pub open spec fn spec_find2(s: Seq<char>, i: int, a: char, b: char) -> int
    decreases s.len() - i,
{
    if i < 0 || i + 1 >= s.len() {
        -1
    } else if s[i] == a && s[i + 1] == b {
        i
    } else {
        spec_find2(s, i + 1, a, b)
    }
}

fn find2(s: &Vec<char>, i: usize, a: char, b: char) -> (r: Option<usize>)
    ensures
        match r {
            Option::Some(j) => i <= j && j + 1 < s@.len() && j as int == spec_find2(
                s@,
                i as int,
                a,
                b,
            ),
            Option::None => spec_find2(s@, i as int, a, b) == -1,
        },
    decreases s@.len() - i,
{
    if s.len() < 2 || i >= s.len() - 1 {
        Option::None
    } else if s[i] == a && s[i + 1] == b {
        Option::Some(i)
    } else {
        find2(s, i + 1, a, b)
    }
}

/// The sequence with every leading character from the marker set removed.
pub open spec fn spec_strip_lead(s: Seq<char>, marks: Seq<char>) -> Seq<char>
    decreases s.len(),
{
    if s.len() > 0 && marks.contains(s[0]) {
        spec_strip_lead(s.drop_first(), marks)
    } else {
        s
    }
}

/// The sequence with every trailing character from the marker set removed.
pub open spec fn spec_strip_trail(s: Seq<char>, marks: Seq<char>) -> Seq<char>
    decreases s.len(),
{
    if s.len() > 0 && marks.contains(s.last()) {
        spec_strip_trail(s.drop_last(), marks)
    } else {
        s
    }
}

fn marks_has(marks: &Vec<char>, c: char) -> (r: bool)
    ensures
        r == marks@.contains(c),
{
    let n = marks.len();
    let mut i: usize = 0;
    while i < n
        invariant
            0 <= i <= n,
            n == marks@.len(),
            forall|q: int| 0 <= q < i ==> marks@[q] != c,
        decreases n - i,
    {
        if marks[i] == c {
            return true;
        }
        i = i + 1;
    }
    proof {
        if marks@.contains(c) {
            let w = choose|w: int| 0 <= w < marks@.len() && marks@[w] == c;
            assert(false);
        }
    }
    false
}

/// Remove every leading and trailing character from the marker set.
fn strip_marks(s: &Vec<char>, marks: &Vec<char>) -> (r: Vec<char>)
    ensures
        r@ == spec_strip_trail(spec_strip_lead(s@, marks@), marks@),
    decreases s@.len(),
{
    if s.len() > 0 && marks_has(marks, s[0]) {
        let rest = subrange_chars(s, 1, s.len());
        proof {
            assert(rest@ =~= s@.drop_first());
        }
        strip_marks(&rest, marks)
    } else if s.len() > 0 && marks_has(marks, s[s.len() - 1]) {
        let rest = subrange_chars(s, 0, s.len() - 1);
        proof {
            assert(rest@ =~= s@.drop_last());
            lemma_strip_lead_fixed(s@, marks@);
            lemma_strip_lead_fixed(rest@, marks@);
        }
        strip_marks(&rest, marks)
    } else {
        proof {
            lemma_strip_lead_fixed(s@, marks@);
            if s@.len() > 0 {
                assert(!marks@.contains(s@.last()));
            }
        }
        let mut out: Vec<char> = Vec::new();
        crate::chars::push_chars(&mut out, s);
        proof {
            assert(out@ =~= s@);
        }
        out
    }
}

/// A sequence whose first character is kept keeps its whole shape under
/// leading stripping.
proof fn lemma_strip_lead_fixed(s: Seq<char>, marks: Seq<char>)
    requires
        s.len() == 0 || !marks.contains(s[0]),
    ensures
        spec_strip_lead(s, marks) == s,
{
}

/// The sequence with every leading `../` removed.
pub open spec fn spec_strip_dotdot(s: Seq<char>) -> Seq<char>
    decreases s.len(),
{
    if s.len() >= 3 && s[0] == '.' && s[1] == '.' && s[2] == '/' {
        spec_strip_dotdot(s.subrange(3, s.len() as int))
    } else {
        s
    }
}

fn strip_dotdot(s: Vec<char>) -> (r: Vec<char>)
    ensures
        r@ == spec_strip_dotdot(s@),
    decreases s@.len(),
{
    if s.len() >= 3 && s[0] == '.' && s[1] == '.' && s[2] == '/' {
        let rest = subrange_chars(&s, 3, s.len());
        strip_dotdot(rest)
    } else {
        s
    }
}

/// The whitespace-separated words of a sequence, scanned from `i` with the
/// current word `cur`.
pub open spec fn spec_split_from(
    s: Seq<char>,
    i: int,
    cur: Seq<char>,
    acc: Seq<Seq<char>>,
) -> Seq<Seq<char>>
    decreases s.len() - i,
{
    if i < 0 || i >= s.len() {
        if cur.len() > 0 {
            acc.push(cur)
        } else {
            acc
        }
    } else if spec_is_space(s[i]) {
        if cur.len() > 0 {
            spec_split_from(s, i + 1, Seq::empty(), acc.push(cur))
        } else {
            spec_split_from(s, i + 1, Seq::empty(), acc)
        }
    } else {
        spec_split_from(s, i + 1, cur.push(s[i]), acc)
    }
}

/// The whitespace-separated words of a sequence.
pub open spec fn spec_split_ws(s: Seq<char>) -> Seq<Seq<char>> {
    spec_split_from(s, 0, Seq::empty(), Seq::empty())
}

#[verifier::loop_isolation(false)]
fn split_ws(s: &Vec<char>) -> (r: Vec<Vec<char>>)
    ensures
        r.deep_view() == spec_split_ws(s@),
{
    let n = s.len();
    let mut acc: Vec<Vec<char>> = Vec::new();
    let mut cur: Vec<char> = Vec::new();
    proof {
        assert(acc.deep_view() =~= Seq::<Seq<char>>::empty());
        assert(cur@ =~= Seq::<char>::empty());
    }
    let mut i: usize = 0;
    while i < n
        invariant
            0 <= i <= n,
            spec_split_ws(s@) == spec_split_from(s@, i as int, cur@, acc.deep_view()),
        decreases n - i,
    {
        if crate::chars::char_is_space(s[i]) {
            if cur.len() > 0 {
                let ghost pre = acc;
                let ghost donev = cur@;
                let done = cur;
                acc.push(done);
                cur = Vec::new();
                proof {
                    crate::types::lemma_deep_view_push(pre, acc, done);
                    crate::chars::lemma_chars_deep_view(done);
                    assert(acc.deep_view() =~~= pre.deep_view().push(donev));
                    assert(cur@ =~= Seq::<char>::empty());
                    assert(spec_split_from(s@, i as int, donev, pre.deep_view())
                        == spec_split_from(s@, i + 1, Seq::empty(), pre.deep_view().push(donev)));
                }
            } else {
                proof {
                    assert(cur@ =~= Seq::<char>::empty());
                }
            }
        } else {
            cur.push(s[i]);
        }
        i = i + 1;
    }
    if cur.len() > 0 {
        let ghost pre = acc;
        let ghost donev = cur@;
        let done = cur;
        acc.push(done);
        proof {
            crate::types::lemma_deep_view_push(pre, acc, done);
            crate::chars::lemma_chars_deep_view(done);
            assert(acc.deep_view() =~~= pre.deep_view().push(donev));
        }
        acc
    } else {
        acc
    }
}

// ---------------------------------------------------------------------------
// Placeholder names
// ---------------------------------------------------------------------------
/// The marker characters stripped from a token's ends.
pub open spec fn spec_name_marks() -> Seq<char> {
    seq!['|', ',', ')', '(']
}

/// Whether a character may appear in a placeholder name.
pub open spec fn spec_name_char(c: char) -> bool {
    ('0' <= c && c <= '9') || ('a' <= c && c <= 'z') || ('A' <= c && c <= 'Z') || c == '_' || c
        == '.'
}

/// The argument name referenced by one token, if any: alias syntax,
/// comments, block-helper keywords, `this`, `@`-variables and tokens with
/// characters outside names are dropped; surrounding punctuation, `../`
/// prefixes and a trailing `=` binding are stripped.
pub open spec fn spec_norm_candidate(token: Seq<char>) -> Seq<char> {
    let c0 = spec_trim(token);
    let c1 = spec_trim(
        spec_strip_trail(spec_strip_lead(c0, spec_name_marks()), spec_name_marks()),
    );
    let c2 = spec_strip_dotdot(c1);
    let eq = spec_index_of(c2, '=', 0);
    let c3 = if eq >= 0 {
        spec_trim(c2.take(eq))
    } else {
        c2
    };
    spec_trim(spec_strip_trail(spec_strip_lead(c3, seq!['|']), seq!['|']))
}

pub open spec fn spec_norm_name(token: Seq<char>) -> Option<Seq<char>> {
    if spec_index_of(token, '|', 0) >= 0 {
        Option::None
    } else {
        let c4 = spec_norm_candidate(token);
        if c4.len() == 0 || c4 == "."@ || spec_ascii_lower_seq(c4) == "this"@ {
            Option::None
        } else if c4[0] == '@' {
            Option::None
        } else if spec_ascii_lower_seq(c4) == "as"@ || spec_ascii_lower_seq(c4) == "in"@
            || spec_ascii_lower_seq(c4) == "let"@ {
            Option::None
        } else if forall|i: int| 0 <= i < c4.len() ==> spec_name_char(#[trigger] c4[i]) {
            Option::Some(c4)
        } else {
            Option::None
        }
    }
}

/// Normalize one token into a placeholder name, if it references one.
#[verifier::loop_isolation(false)]
pub fn normalize_placeholder_name(token: &str) -> (r: Option<String>)
    ensures
        r.deep_view() == spec_norm_name(token@),
{
    let cs = str_chars(token);
    match index_of(&cs, '|', 0) {
        Option::Some(_) => {
            return Option::None;
        },
        Option::None => {},
    }
    let c0 = trim_chars(&cs);
    let mut marks: Vec<char> = Vec::new();
    marks.push('|');
    marks.push(',');
    marks.push(')');
    marks.push('(');
    proof {
        assert(marks@ =~= spec_name_marks());
    }
    let c1 = trim_chars(&strip_marks(&c0, &marks));
    let c2 = strip_dotdot(c1);
    let c3 = match index_of(&c2, '=', 0) {
        Option::Some(eq) => {
            let before = subrange_chars(&c2, 0, eq);
            proof {
                assert(before@ =~= c2@.take(eq as int));
            }
            trim_chars(&before)
        },
        Option::None => c2,
    };
    let mut bar: Vec<char> = Vec::new();
    bar.push('|');
    proof {
        assert(bar@ =~= seq!['|']);
    }
    let c4 = trim_chars(&strip_marks(&c3, &bar));
    proof {
        assert(c4@ == spec_norm_candidate(token@));
    }
    if c4.len() == 0 {
        return Option::None;
    }
    let low = crate::genargs::ascii_lower_chars(&c4);
    if crate::chars::chars_eq_str(&c4, ".") || crate::chars::chars_eq_str(&low, "this") {
        return Option::None;
    }
    if c4[0] == '@' {
        return Option::None;
    }
    if crate::chars::chars_eq_str(&low, "as") || crate::chars::chars_eq_str(&low, "in")
        || crate::chars::chars_eq_str(&low, "let") {
        return Option::None;
    }
    let n = c4.len();
    let mut i: usize = 0;
    while i < n
        invariant
            0 <= i <= n,
            n == c4@.len(),
            forall|q: int| 0 <= q < i ==> spec_name_char(#[trigger] c4@[q]),
        decreases n - i,
    {
        let c = c4[i];
        if !(('0' <= c && c <= '9') || ('a' <= c && c <= 'z') || ('A' <= c && c <= 'Z') || c == '_'
            || c == '.') {
            return Option::None;
        }
        i = i + 1;
    }
    Option::Some(chars_string(&c4))
}

/// The names collected from the tokens at index `i` on.
pub open spec fn spec_names_of(tokens: Seq<Seq<char>>, i: int) -> Seq<Seq<char>>
    decreases tokens.len() - i,
{
    if i < 0 || i >= tokens.len() {
        Seq::empty()
    } else {
        (match spec_norm_name(tokens[i]) {
            Option::Some(n) => seq![n],
            Option::None => Seq::empty(),
        }) + spec_names_of(tokens, i + 1)
    }
}

/// The argument names referenced by the inside of one `{{ ... }}` token:
/// comments, closing tags and `else` clauses reference nothing; block
/// helpers (`#`, `^`), partials (`>`) and unescaped references (`&`)
/// contribute their operands; a bare token references itself, and a helper
/// call its operands.
pub open spec fn spec_token_names(inner: Seq<char>) -> Seq<Seq<char>> {
    let t0 = spec_trim(inner);
    if t0.len() == 0 {
        Seq::empty()
    } else {
        let t1 = spec_trim(spec_strip_trail(spec_strip_lead(t0, seq!['~']), seq!['~']));
        if t1.len() == 0 {
            Seq::empty()
        } else if t1[0] == '!' || t1[0] == '/' {
            Seq::empty()
        } else if t1 == "else"@ || (t1.len() >= 5 && t1.take(5) == "else "@) {
            Seq::empty()
        } else {
            let parts = spec_split_ws(t1);
            if parts.len() == 0 {
                Seq::empty()
            } else {
                let first = parts[0];
                if first.len() > 0 && (first[0] == '#' || first[0] == '^') {
                    spec_names_of(parts, 1)
                } else if first.len() > 0 && first[0] == '>' {
                    spec_names_of(parts, 2)
                } else if first.len() > 0 && first[0] == '&' {
                    (match spec_norm_name(first.drop_first()) {
                        Option::Some(n) => seq![n],
                        Option::None => Seq::empty(),
                    }) + spec_names_of(parts, 1)
                } else if parts.len() == 1 {
                    match spec_norm_name(first) {
                        Option::Some(n) => seq![n],
                        Option::None => Seq::empty(),
                    }
                } else {
                    spec_names_of(parts, 1)
                }
            }
        }
    }
}

#[verifier::loop_isolation(false)]
fn names_from(tokens: &Vec<Vec<char>>, from: usize) -> (r: Vec<String>)
    requires
        from <= tokens@.len(),
    ensures
        r.deep_view() == spec_names_of(tokens.deep_view(), from as int),
{
    let n = tokens.len();
    let mut acc: Vec<String> = Vec::new();
    proof {
        assert(acc.deep_view() =~= Seq::<Seq<char>>::empty());
    }
    let mut i: usize = from;
    while i < n
        invariant
            from <= i <= n,
            spec_names_of(tokens.deep_view(), from as int) =~= acc.deep_view() + spec_names_of(
                tokens.deep_view(),
                i as int,
            ),
        decreases n - i,
    {
        proof {
            assert(tokens.deep_view()[i as int] == tokens@[i as int]@);
        }
        let ts = chars_string(&tokens[i]);
        match normalize_placeholder_name(ts.as_str()) {
            Option::Some(name) => {
                let ghost pre = acc;
                acc.push(name);
                proof {
                    crate::types::lemma_deep_view_push(pre, acc, name);
                    assert(acc.deep_view() =~= pre.deep_view() + seq![name@]);
                }
            },
            Option::None => {},
        }
        i = i + 1;
    }
    proof {
        assert(spec_names_of(tokens.deep_view(), from as int) =~= acc.deep_view());
    }
    acc
}

/// The argument names referenced by one token's inside.
fn token_names(inner: &Vec<char>) -> (r: Vec<String>)
    ensures
        r.deep_view() == spec_token_names(inner@),
{
    let t0 = trim_chars(inner);
    let none: Vec<String> = Vec::new();
    proof {
        assert(none.deep_view() =~= Seq::<Seq<char>>::empty());
    }
    if t0.len() == 0 {
        return none;
    }
    let mut tilde: Vec<char> = Vec::new();
    tilde.push('~');
    proof {
        assert(tilde@ =~= seq!['~']);
    }
    let t1 = trim_chars(&strip_marks(&t0, &tilde));
    if t1.len() == 0 {
        return none;
    }
    if t1[0] == '!' || t1[0] == '/' {
        return none;
    }
    if crate::chars::chars_eq_str(&t1, "else") {
        return none;
    }
    if t1.len() >= 5 {
        let head = subrange_chars(&t1, 0, 5);
        if crate::chars::chars_eq_str(&head, "else ") {
            return none;
        }
    }
    let parts = split_ws(&t1);
    if parts.len() == 0 {
        return none;
    }
    proof {
        assert(parts.deep_view()[0] == parts@[0]@);
    }
    let first = &parts[0];
    if first.len() > 0 && (first[0] == '#' || first[0] == '^') {
        names_from(&parts, 1)
    } else if first.len() > 0 && first[0] == '>' {
        if parts.len() >= 2 {
            names_from(&parts, 2)
        } else {
            proof {
                assert(spec_names_of(parts.deep_view(), 2) =~= Seq::<Seq<char>>::empty());
            }
            none
        }
    } else if first.len() > 0 && first[0] == '&' {
        let tail = subrange_chars(first, 1, first.len());
        proof {
            assert(tail@ =~= parts.deep_view()[0].drop_first());
        }
        let ts = chars_string(&tail);
        let mut acc: Vec<String> = Vec::new();
        match normalize_placeholder_name(ts.as_str()) {
            Option::Some(name) => {
                acc.push(name);
            },
            Option::None => {},
        }
        let ghost named = acc.deep_view();
        proof {
            assert(named =~= (match spec_norm_name(parts.deep_view()[0].drop_first()) {
                Option::Some(n) => seq![n],
                Option::None => Seq::<Seq<char>>::empty(),
            }));
        }
        let rest = names_from(&parts, 1);
        let ghost restv = rest.deep_view();
        crate::catalog::append_strings(&mut acc, rest);
        proof {
            assert(acc.deep_view() =~= named + restv);
        }
        acc
    } else if parts.len() == 1 {
        let ts = chars_string(first);
        let mut acc: Vec<String> = Vec::new();
        match normalize_placeholder_name(ts.as_str()) {
            Option::Some(name) => {
                acc.push(name);
            },
            Option::None => {},
        }
        proof {
            assert(acc.deep_view() =~= spec_token_names(inner@));
        }
        acc
    } else {
        names_from(&parts, 1)
    }
}

// ---------------------------------------------------------------------------
// Scanning
// ---------------------------------------------------------------------------
/// Every token reference of a template, scanning from character `cursor`.
pub open spec fn spec_scan(s: Seq<char>, cursor: int) -> Seq<TokenV>
    decreases s.len() - cursor,
{
    if cursor < 0 || cursor > s.len() {
        Seq::empty()
    } else {
        let start = spec_find2(s, cursor, '{', '{');
        if start < 0 {
            Seq::empty()
        } else {
            let idx0 = start + 2;
            let idx = if idx0 < s.len() && s[idx0] == '{' {
                idx0 + 1
            } else {
                idx0
            };
            let close = spec_find2(s, idx, '}', '}');
            if close < 0 {
                Seq::empty()
            } else {
                let closing: int = if close + 2 < s.len() && s[close + 2] == '}' {
                    3
                } else {
                    2
                };
                let cur2 = if close + closing <= s.len() {
                    close + closing
                } else {
                    s.len() as int
                };
                if cursor < cur2 <= s.len() {
                    spec_token_names(s.subrange(idx, close)).map_values(
                        |n: Seq<char>|
                            TokenV {
                                name: n,
                                occ: PlaceholderOccurrence {
                                    start: start as usize,
                                    end: cur2 as usize,
                                },
                            },
                    ) + spec_scan(s, cur2)
                } else {
                    Seq::empty()
                }
            }
        }
    }
}

/// One scanned token reference, carrying its name and occurrence.
#[derive(Debug)]
pub struct TokenMatch {
    pub name: String,
    pub occ: PlaceholderOccurrence,
}

impl View for TokenMatch {
    type V = TokenV;

    open spec fn view(&self) -> TokenV {
        TokenV { name: self.name@, occ: self.occ }
    }
}

impl DeepView for TokenMatch {
    type V = TokenV;

    open spec fn deep_view(&self) -> TokenV {
        self@
    }
}

/// Scan a template for every placeholder token reference, in order.
#[verifier::loop_isolation(false)]
#[verifier::rlimit(50)]
pub fn scan_template(template: &str) -> (r: Vec<TokenMatch>)
    ensures
        r.deep_view() == spec_scan(template@, 0),
{
    let s = str_chars(template);
    let total = s.len();
    let mut acc: Vec<TokenMatch> = Vec::new();
    proof {
        assert(acc.deep_view() =~= Seq::<TokenV>::empty());
    }
    let mut cursor: usize = 0;
    let mut done = false;
    while !done
        invariant
            0 <= cursor <= total,
            total == s@.len(),
            s@ == template@,
            !done ==> spec_scan(template@, 0) =~= acc.deep_view() + spec_scan(
                template@,
                cursor as int,
            ),
            done ==> spec_scan(template@, 0) =~= acc.deep_view(),
        decreases total - cursor + (if done {
            0int
        } else {
            1int
        }),
    {
        let start = match find2(&s, cursor, '{', '{') {
            Option::Some(j) => j,
            Option::None => {
                done = true;
                continue ;
            },
        };
        let idx0 = start + 2;
        let idx = if idx0 < total && s[idx0] == '{' {
            idx0 + 1
        } else {
            idx0
        };
        let close = match find2(&s, idx, '}', '}') {
            Option::Some(j) => j,
            Option::None => {
                done = true;
                continue ;
            },
        };
        if close < idx {
            proof {
                assert(false);
            }
            done = true;
            continue ;
        }
        let closing: usize = if close + 2 < total && s[close + 2] == '}' {
            3
        } else {
            2
        };
        let cur2 = if close + closing <= total {
            close + closing
        } else {
            total
        };
        if !(cursor < cur2 && cur2 <= total) {
            proof {
                assert(false);
            }
            done = true;
            continue ;
        }
        let inner = subrange_chars(&s, idx, close);
        let names = token_names(&inner);
        let ghost namesv = names.deep_view();
        let occ = PlaceholderOccurrence { start, end: cur2 };
        let ghost mapped = spec_token_names(s@.subrange(idx as int, close as int)).map_values(
            |nn: Seq<char>| TokenV { name: nn, occ: PlaceholderOccurrence { start, end: cur2 } },
        );
        proof {
            assert(spec_scan(template@, cursor as int) == mapped + spec_scan(
                template@,
                cur2 as int,
            ));
            assert(mapped.len() == namesv.len());
            assert(mapped.skip(0) =~= mapped);
        }
        let n = names.len();
        let mut k: usize = 0;
        let mut nwork = names;
        while k < n
            invariant
                0 <= k <= n,
                n == namesv.len(),
                nwork@.len() == n - k,
                forall|q: int| 0 <= q < n - k ==> (#[trigger] nwork@[q])@ == namesv[k + q],
                spec_scan(template@, 0) =~= acc.deep_view() + mapped.skip(k as int) + spec_scan(
                    template@,
                    cur2 as int,
                ),
            decreases n - k,
        {
            let nm = nwork.remove(0);
            let ghost pre = acc;
            let tm = TokenMatch { name: nm, occ };
            acc.push(tm);
            proof {
                crate::types::lemma_deep_view_push(pre, acc, tm);
                assert(tm@ == mapped[k as int]);
                assert(mapped.skip(k as int) =~= seq![mapped[k as int]] + mapped.skip(k + 1));
                assert(acc.deep_view() =~= pre.deep_view().push(tm@));
                assert(spec_scan(template@, 0) =~= acc.deep_view() + mapped.skip(k + 1)
                    + spec_scan(template@, cur2 as int));
            }
            k = k + 1;
        }
        proof {
            assert(mapped.skip(n as int) =~= Seq::<TokenV>::empty());
            assert(spec_scan(template@, 0) =~= acc.deep_view() + spec_scan(
                template@,
                cur2 as int,
            ));
        }
        cursor = cur2;
    }
    acc
}

// ---------------------------------------------------------------------------
// Grouping into placeholders
// ---------------------------------------------------------------------------
/// Lexicographic order on character sequences, by code point.
pub open spec fn spec_lex_lt(a: Seq<char>, b: Seq<char>) -> bool
    decreases a.len(),
{
    if b.len() == 0 {
        false
    } else if a.len() == 0 {
        true
    } else if a[0] != b[0] {
        a[0] < b[0]
    } else {
        spec_lex_lt(a.drop_first(), b.drop_first())
    }
}

#[verifier::loop_isolation(false)]
fn lex_lt(a: &Vec<char>, b: &Vec<char>) -> (r: bool)
    ensures
        r == spec_lex_lt(a@, b@),
{
    let an = a.len();
    let bn = b.len();
    proof {
        assert(a@.skip(0) =~= a@);
        assert(b@.skip(0) =~= b@);
    }
    let mut i: usize = 0;
    while i < an && i < bn
        invariant
            0 <= i <= an,
            0 <= i <= bn,
            spec_lex_lt(a@, b@) == spec_lex_lt(a@.skip(i as int), b@.skip(i as int)),
        decreases an - i,
    {
        proof {
            assert(a@.skip(i as int)[0] == a@[i as int]);
            assert(b@.skip(i as int)[0] == b@[i as int]);
            assert(a@.skip(i as int).drop_first() =~= a@.skip(i + 1));
            assert(b@.skip(i as int).drop_first() =~= b@.skip(i + 1));
        }
        if a[i] != b[i] {
            return a[i] < b[i];
        }
        i = i + 1;
    }
    proof {
        if i >= bn {
            assert(b@.skip(i as int).len() == 0);
        } else {
            assert(a@.skip(i as int).len() == 0);
            assert(b@.skip(i as int).len() > 0);
        }
    }
    an < bn
}

/// The bucket position for a name: the first bucket not ordered before it,
/// scanning from `j`.
pub open spec fn spec_find_pos(bs: Seq<PlaceholderV>, name: Seq<char>, j: int) -> int
    decreases bs.len() - j,
{
    if j < 0 || j >= bs.len() {
        bs.len() as int
    } else if !spec_lex_lt(bs[j].name, name) {
        j
    } else {
        spec_find_pos(bs, name, j + 1)
    }
}

/// Insert one occurrence into the name-sorted bucket list: appended to the
/// existing bucket of its name, or opening a new bucket at its ordered
/// position.
pub open spec fn spec_insert_ph(
    bs: Seq<PlaceholderV>,
    name: Seq<char>,
    occ: PlaceholderOccurrence,
) -> Seq<PlaceholderV> {
    let p = spec_find_pos(bs, name, 0);
    if p < bs.len() && bs[p].name == name {
        bs.update(p, PlaceholderV { name, occurrences: bs[p].occurrences.push(occ) })
    } else {
        bs.insert(p, PlaceholderV { name, occurrences: seq![occ] })
    }
}

/// The buckets accumulated from the token references at index `i` on.
pub open spec fn spec_buckets(ms: Seq<TokenV>, i: int, acc: Seq<PlaceholderV>) -> Seq<
    PlaceholderV,
>
    decreases ms.len() - i,
{
    if i < 0 || i >= ms.len() {
        acc
    } else {
        spec_buckets(ms, i + 1, spec_insert_ph(acc, ms[i].name, ms[i].occ))
    }
}

/// What placeholder discovery yields: the referenced names in lexicographic
/// order, each with its occurrences in scan order.
pub open spec fn spec_discover(s: Seq<char>) -> Seq<PlaceholderV> {
    spec_buckets(spec_scan(s, 0), 0, Seq::empty())
}

/// Discover the placeholders of a template string: every referenced
/// argument name, in lexicographic order, with its occurrences in scan
/// order (positions are character offsets).
#[verifier::loop_isolation(false)]
pub fn discover_placeholders(template: &str) -> (r: Vec<Placeholder>)
    ensures
        r.deep_view() == spec_discover(template@),
{
    let ms = scan_template(template);
    let ghost msv = ms.deep_view();
    let mut buckets: Vec<Placeholder> = Vec::new();
    proof {
        assert(buckets.deep_view() =~= Seq::<PlaceholderV>::empty());
    }
    let n = ms.len();
    let mut work = ms;
    let mut i: usize = 0;
    while i < n
        invariant
            0 <= i <= n,
            n == msv.len(),
            work@.len() == n - i,
            forall|q: int| 0 <= q < n - i ==> (#[trigger] work@[q])@ == msv[i + q],
            spec_discover(template@) == spec_buckets(msv, i as int, buckets.deep_view()),
        decreases n - i,
    {
        let m = work.remove(0);
        let ghost pre = buckets.deep_view();
        let name_chars = str_chars(m.name.as_str());
        // Find the ordered position of this name.
        let bn = buckets.len();
        let mut p: usize = 0;
        let mut found = false;
        while p < bn && !found
            invariant
                0 <= p <= bn,
                bn == buckets@.len(),
                buckets.deep_view() == pre,
                name_chars@ == m.name@,
                !found ==> spec_find_pos(pre, m.name@, 0) == spec_find_pos(pre, m.name@, p as int),
                found ==> p < bn && spec_find_pos(pre, m.name@, 0) == p as int,
            decreases bn - p + (if found {
                0int
            } else {
                1int
            }),
        {
            proof {
                assert(pre[p as int] == buckets@[p as int]@);
            }
            let bname = str_chars(buckets[p].name.as_str());
            if !lex_lt(&bname, &name_chars) {
                found = true;
            } else {
                p = p + 1;
            }
        }
        proof {
            assert(spec_find_pos(pre, m.name@, 0) == p as int);
        }
        if found {
            proof {
                assert(pre[p as int] == buckets@[p as int]@);
            }
            let bname = str_chars(buckets[p].name.as_str());
            if crate::chars::chars_eq(&bname, &name_chars) {
                let mut b = buckets.remove(p);
                b.occurrences.push(m.occ);
                let ghost bb = b@;
                buckets.insert(p, b);
                proof {
                    assert forall|q: int| 0 <= q < buckets@.len() implies #[trigger] buckets.deep_view()[q]
                        == spec_insert_ph(pre, m.name@, m.occ)[q] by {
                        assert(buckets.deep_view()[q] == buckets@[q]@);
                    }
                    assert(buckets.deep_view() =~~= spec_insert_ph(pre, m.name@, m.occ));
                }
            } else {
                let nb = Placeholder {
                    name: m.name,
                    occurrences: {
                        let mut o: Vec<PlaceholderOccurrence> = Vec::new();
                        o.push(m.occ);
                        o
                    },
                };
                let ghost nbv = nb@;
                buckets.insert(p, nb);
                proof {
                    assert forall|q: int| 0 <= q < buckets@.len() implies #[trigger] buckets.deep_view()[q]
                        == spec_insert_ph(pre, m.name@, m.occ)[q] by {
                        assert(buckets.deep_view()[q] == buckets@[q]@);
                    }
                    assert(buckets.deep_view() =~~= spec_insert_ph(pre, m.name@, m.occ));
                }
            }
        } else {
            let nb = Placeholder {
                name: m.name,
                occurrences: {
                    let mut o: Vec<PlaceholderOccurrence> = Vec::new();
                    o.push(m.occ);
                    o
                },
            };
            let ghost nbv = nb@;
            buckets.push(nb);
            proof {
                assert forall|q: int| 0 <= q < buckets@.len() implies #[trigger] buckets.deep_view()[q]
                    == spec_insert_ph(pre, m.name@, m.occ)[q] by {
                    assert(buckets.deep_view()[q] == buckets@[q]@);
                }
                assert(buckets.deep_view() =~~= spec_insert_ph(pre, m.name@, m.occ));
            }
        }
        i = i + 1;
    }
    buckets
}

} // verus!
