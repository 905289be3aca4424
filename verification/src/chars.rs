//! Character classification and string utilities.
//!
//! Unicode character properties (alphanumeric, whitespace, lowercase mapping)
//! are supplied by the standard library through trusted wrappers; on the ASCII
//! range their results are pinned down exactly, so specifications over ASCII
//! text are fully determined.

use vstd::prelude::*;

verus! {

/// Whether a non-ASCII character has the Unicode `Alphabetic` or `Number`
/// property, as `char::is_alphanumeric` decides it.
pub uninterp spec fn uni_alphanumeric(c: char) -> bool;

/// Whether a non-ASCII character has the Unicode `White_Space` property,
/// as `char::is_whitespace` decides it.
pub uninterp spec fn uni_whitespace(c: char) -> bool;

/// The Unicode lowercase mapping of a non-ASCII character,
/// as `char::to_lowercase` yields it.
pub uninterp spec fn uni_lowercase(c: char) -> Seq<char>;

/// ASCII letters and digits.
pub open spec fn spec_ascii_alnum(c: char) -> bool {
    ('0' <= c && c <= '9') || ('a' <= c && c <= 'z') || ('A' <= c && c <= 'Z')
}

/// The ASCII lowercase form of a character (identity outside `A`..`Z`).
pub open spec fn spec_ascii_lower(c: char) -> char {
    if 'A' <= c && c <= 'Z' {
        ((c as u8) + 32) as char
    } else {
        c
    }
}

/// Whether a character counts as alphanumeric, matching
/// `char::is_alphanumeric`: on ASCII exactly the letters and digits,
/// elsewhere the Unicode property.
pub open spec fn spec_is_word(c: char) -> bool {
    if (c as u32) < 128 {
        spec_ascii_alnum(c)
    } else {
        uni_alphanumeric(c)
    }
}

/// Whether a character counts as whitespace, matching `char::is_whitespace`:
/// on ASCII exactly tab through carriage return and the space, elsewhere the
/// Unicode `White_Space` property.
pub open spec fn spec_is_space(c: char) -> bool {
    if (c as u32) < 128 {
        (9 <= c as u32 && c as u32 <= 13) || c == ' '
    } else {
        uni_whitespace(c)
    }
}

/// The lowercase expansion of a character, matching `char::to_lowercase`:
/// on ASCII a single character with `A`..`Z` mapped down, elsewhere the
/// Unicode mapping.
pub open spec fn spec_lower(c: char) -> Seq<char> {
    if (c as u32) < 128 {
        seq![spec_ascii_lower(c)]
    } else {
        uni_lowercase(c)
    }
}

/// Relies on `char::is_alphanumeric`: the result depends on the character
/// alone; on ASCII it holds exactly of letters and digits.
#[verifier::external_body]
pub(crate) fn char_is_word(c: char) -> (r: bool)
    ensures
        (c as u32) >= 128 ==> r == uni_alphanumeric(c),
        r == spec_is_word(c),
{
    c.is_alphanumeric()
}

/// Relies on `char::is_whitespace`: the result depends on the character
/// alone; on ASCII it holds exactly of tab through carriage return and space.
#[verifier::external_body]
pub(crate) fn char_is_space(c: char) -> (r: bool)
    ensures
        (c as u32) >= 128 ==> r == uni_whitespace(c),
        r == spec_is_space(c),
{
    c.is_whitespace()
}

/// Relies on `char::to_lowercase`: the expansion depends on the character
/// alone; on ASCII it is the single ASCII-lowercased character.
#[verifier::external_body]
pub(crate) fn char_to_lower(c: char) -> (r: Vec<char>)
    ensures
        (c as u32) >= 128 ==> r@ == uni_lowercase(c),
        r@ == spec_lower(c),
{
    c.to_lowercase().collect()
}

/// Relies on `str::chars`: yields exactly the characters of the string,
/// which are the string's view.
#[verifier::external_body]
pub(crate) fn str_chars(s: &str) -> (r: Vec<char>)
    ensures
        r@ == s@,
{
    s.chars().collect()
}

/// Relies on `String: FromIterator<char>`: concatenates exactly the given
/// characters into a string.
#[verifier::external_body]
pub(crate) fn chars_string(v: &Vec<char>) -> (r: String)
    ensures
        r@ == v@,
{
    v.iter().collect()
}

/// ASCII-lowercase a character.
pub(crate) fn ascii_lower(c: char) -> (r: char)
    ensures
        r == spec_ascii_lower(c),
{
    if 'A' <= c && c <= 'Z' {
        ((c as u8) + 32) as char
    } else {
        c
    }
}

/// A sequence with its leading whitespace removed.
pub open spec fn spec_trim_start(s: Seq<char>) -> Seq<char>
    decreases s.len(),
{
    if s.len() == 0 {
        s
    } else if spec_is_space(s[0]) {
        spec_trim_start(s.drop_first())
    } else {
        s
    }
}

/// A sequence with its trailing whitespace removed.
pub open spec fn spec_trim_end(s: Seq<char>) -> Seq<char>
    decreases s.len(),
{
    if s.len() == 0 {
        s
    } else if spec_is_space(s.last()) {
        spec_trim_end(s.drop_last())
    } else {
        s
    }
}

/// A sequence with whitespace removed from both ends.
pub open spec fn spec_trim(s: Seq<char>) -> Seq<char> {
    spec_trim_end(spec_trim_start(s))
}

/// The lowercase expansion of a whole sequence of characters.
pub open spec fn spec_lower_seq(s: Seq<char>) -> Seq<char>
    decreases s.len(),
{
    if s.len() == 0 {
        Seq::empty()
    } else {
        spec_lower_seq(s.drop_last()) + spec_lower(s.last())
    }
}

proof fn lemma_trim_start_at(s: Seq<char>, i: int)
    requires
        0 <= i <= s.len(),
        forall|k: int| 0 <= k < i ==> spec_is_space(s[k]),
        i < s.len() ==> !spec_is_space(s[i]),
    ensures
        spec_trim_start(s) == s.subrange(i, s.len() as int),
    decreases i,
{
    if i == 0 {
        assert(s.subrange(0, s.len() as int) =~= s);
        if s.len() > 0 {
            assert(!spec_is_space(s[0]));
        }
    } else {
        let t = s.drop_first();
        assert(spec_is_space(s[0]));
        assert(forall|k: int| 0 <= k < i - 1 ==> spec_is_space(t[k]));
        lemma_trim_start_at(t, i - 1);
        assert(t.subrange(i - 1, t.len() as int) =~= s.subrange(i, s.len() as int));
    }
}

proof fn lemma_trim_end_at(s: Seq<char>, j: int)
    requires
        0 <= j <= s.len(),
        forall|k: int| j <= k < s.len() ==> spec_is_space(s[k]),
        j > 0 ==> !spec_is_space(s[j - 1]),
    ensures
        spec_trim_end(s) == s.subrange(0, j),
    decreases s.len() - j,
{
    if j == s.len() {
        if s.len() == 0 {
            assert(s.subrange(0, 0) =~= s);
        } else if spec_is_space(s.last()) {
            assert(false);
        } else {
            assert(s.subrange(0, s.len() as int) =~= s);
        }
    } else {
        let t = s.drop_last();
        assert(spec_is_space(s.last()));
        lemma_trim_end_at(t, j);
        assert(t.subrange(0, j) =~= s.subrange(0, j));
    }
}

/// Remove whitespace from both ends of a character sequence.
pub(crate) fn trim_chars(v: &Vec<char>) -> (r: Vec<char>)
    ensures
        r@ == spec_trim(v@),
{
    let n = v.len();
    let mut i: usize = 0;
    while i < n && char_is_space(v[i])
        invariant
            0 <= i <= n,
            n == v@.len(),
            forall|k: int| 0 <= k < i ==> spec_is_space(v@[k]),
        decreases n - i,
    {
        i = i + 1;
    }
    proof {
        lemma_trim_start_at(v@, i as int);
    }
    let ghost st = spec_trim_start(v@);
    let mut j: usize = n;
    while j > i && char_is_space(v[j - 1])
        invariant
            i <= j <= n,
            n == v@.len(),
            st == v@.subrange(i as int, n as int),
            forall|k: int| j <= k < n ==> spec_is_space(v@[k]),
        decreases j,
    {
        j = j - 1;
    }
    proof {
        assert(forall|k: int| (j - i) <= k < st.len() ==> spec_is_space(st[k]));
        if j > i {
            assert(st[j - i - 1] == v@[j - 1]);
        }
        lemma_trim_end_at(st, j - i);
    }
    let mut out: Vec<char> = Vec::new();
    let mut k: usize = i;
    while k < j
        invariant
            i <= k <= j <= n,
            n == v@.len(),
            out@ =~= v@.subrange(i as int, k as int),
        decreases j - k,
    {
        out.push(v[k]);
        k = k + 1;
    }
    proof {
        assert(st.subrange(0, j - i) =~= v@.subrange(i as int, j as int));
        assert(out@ =~= spec_trim(v@));
    }
    out
}

/// Copy a string slice into an owned string.
pub(crate) fn lit_string(s: &str) -> (r: String)
    ensures
        r@ == s@,
{
    let cs = str_chars(s);
    chars_string(&cs)
}

/// The deep view of a character vector is its view.
pub proof fn lemma_chars_deep_view(v: Vec<char>)
    ensures
        v.deep_view() == v@,
{
    assert(v.deep_view() =~= v@);
}

/// Remove leading whitespace from a character sequence.
pub(crate) fn trim_start_chars(v: &Vec<char>) -> (r: Vec<char>)
    ensures
        r@ == spec_trim_start(v@),
{
    let n = v.len();
    let mut i: usize = 0;
    while i < n && char_is_space(v[i])
        invariant
            0 <= i <= n,
            n == v@.len(),
            forall|k: int| 0 <= k < i ==> spec_is_space(v@[k]),
        decreases n - i,
    {
        i = i + 1;
    }
    proof {
        lemma_trim_start_at(v@, i as int);
    }
    let mut out: Vec<char> = Vec::new();
    let mut k: usize = i;
    while k < n
        invariant
            i <= k <= n,
            n == v@.len(),
            out@ =~= v@.subrange(i as int, k as int),
        decreases n - k,
    {
        out.push(v[k]);
        k = k + 1;
    }
    out
}

/// Append the lowercase expansion of each character of `v` to `out`.
pub(crate) fn push_lower_seq(out: &mut Vec<char>, v: &Vec<char>)
    ensures
        final(out)@ == old(out)@ + spec_lower_seq(v@),
{
    let n = v.len();
    let mut i: usize = 0;
    while i < n
        invariant
            0 <= i <= n,
            n == v@.len(),
            out@ == old(out)@ + spec_lower_seq(v@.take(i as int)),
        decreases n - i,
    {
        let low = char_to_lower(v[i]);
        let mut k: usize = 0;
        let ghost before = out@;
        while k < low.len()
            invariant
                0 <= k <= low@.len(),
                out@ == before + low@.take(k as int),
            decreases low@.len() - k,
        {
            out.push(low[k]);
            k = k + 1;
        }
        proof {
            assert(low@.take(low@.len() as int) =~= low@);
            let t = v@.take(i + 1);
            assert(t.drop_last() =~= v@.take(i as int));
            assert(t.last() == v@[i as int]);
            assert(out@ == old(out)@ + spec_lower_seq(v@.take(i + 1)));
        }
        i = i + 1;
    }
    proof {
        assert(v@.take(n as int) =~= v@);
    }
}

/// The lowercase expansion of a whole character sequence.
pub(crate) fn lower_chars(v: &Vec<char>) -> (r: Vec<char>)
    ensures
        r@ == spec_lower_seq(v@),
{
    let mut out: Vec<char> = Vec::new();
    push_lower_seq(&mut out, v);
    out
}

/// Compare a character sequence against a string slice, by characters.
pub(crate) fn chars_eq_str(v: &Vec<char>, s: &str) -> (r: bool)
    ensures
        r == (v@ == s@),
{
    let sc = str_chars(s);
    chars_eq(v, &sc)
}

/// Compare two character sequences.
pub(crate) fn chars_eq(a: &Vec<char>, b: &Vec<char>) -> (r: bool)
    ensures
        r == (a@ == b@),
{
    if a.len() != b.len() {
        return false;
    }
    let n = a.len();
    let mut i: usize = 0;
    while i < n
        invariant
            0 <= i <= n,
            n == a@.len() == b@.len(),
            forall|k: int| 0 <= k < i ==> a@[k] == b@[k],
        decreases n - i,
    {
        if a[i] != b[i] {
            return false;
        }
        i = i + 1;
    }
    proof {
        assert(a@ =~= b@);
    }
    true
}

/// Append the characters of a string slice to a character vector.
pub(crate) fn push_str_chars(out: &mut Vec<char>, s: &str)
    ensures
        final (out)@ == old(out)@ + s@,
{
    let cs = str_chars(s);
    let mut k: usize = 0;
    while k < cs.len()
        invariant
            0 <= k <= cs@.len(),
            cs@ == s@,
            out@ =~= old(out)@ + cs@.take(k as int),
        decreases cs@.len() - k,
    {
        out.push(cs[k]);
        k = k + 1;
    }
    proof {
        assert(cs@.take(cs@.len() as int) =~= cs@);
    }
}

/// Append the characters of another character vector.
pub(crate) fn push_chars(out: &mut Vec<char>, s: &Vec<char>)
    ensures
        final (out)@ == old(out)@ + s@,
{
    let mut k: usize = 0;
    while k < s.len()
        invariant
            0 <= k <= s@.len(),
            out@ =~= old(out)@ + s@.take(k as int),
        decreases s@.len() - k,
    {
        out.push(s[k]);
        k = k + 1;
    }
    proof {
        assert(s@.take(s@.len() as int) =~= s@);
    }
}

/// The decimal digit character for a value below ten.
pub open spec fn spec_digit(d: int) -> char {
    ((48 + d) as u8) as char
}

/// The decimal representation of a natural number.
pub open spec fn spec_digits(n: nat) -> Seq<char>
    decreases n,
{
    if n < 10 {
        seq![spec_digit(n as int)]
    } else {
        spec_digits(n / 10) + seq![spec_digit((n % 10) as int)]
    }
}

/// Append the decimal representation of `n` to `out`.
pub(crate) fn push_usize_digits(out: &mut Vec<char>, n: usize)
    ensures
        final(out)@ == old(out)@ + spec_digits(n as nat),
    decreases n,
{
    if n < 10 {
        out.push(((48 + n as u8)) as char);
    } else {
        push_usize_digits(out, n / 10);
        out.push((48 + (n % 10) as u8) as char);
    }
}

} // verus!
