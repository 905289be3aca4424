//! Deterministic identifier derivation from heading paths.
//!
//! Each heading-path segment is normalized independently: alphanumerics pass
//! through lowercased, any other character emits a single `_` separator only
//! when output exists and the previous emitted character was not already a
//! separator, and a trailing separator is stripped. Non-empty normalized
//! segments are joined with `_`.

use vstd::prelude::*;

use crate::chars::{
    ascii_lower, char_is_word, char_to_lower, chars_string, push_chars, spec_ascii_alnum,
    spec_ascii_lower, spec_is_word, spec_lower, str_chars,
};

verus! {

/// One step of segment normalization: the accumulated output and
/// separator flag after consuming the characters of `s` from index `i` on,
/// with the trailing separator stripped at the end.
pub open spec fn spec_normalize_from(s: Seq<char>, i: int, acc: Seq<char>, sep: bool) -> Seq<char>
    decreases s.len() - i,
{
    if i < 0 || i >= s.len() {
        if acc.len() > 0 && acc.last() == '_' {
            acc.drop_last()
        } else {
            acc
        }
    } else {
        let c = s[i];
        if spec_ascii_alnum(c) {
            spec_normalize_from(s, i + 1, acc.push(spec_ascii_lower(c)), false)
        } else if spec_is_word(c) {
            spec_normalize_from(s, i + 1, acc + spec_lower(c), false)
        } else if acc.len() > 0 && !sep {
            spec_normalize_from(s, i + 1, acc.push('_'), true)
        } else {
            spec_normalize_from(s, i + 1, acc, sep)
        }
    }
}

/// The normalized form of one heading-path segment.
pub open spec fn spec_normalize(s: Seq<char>) -> Seq<char> {
    spec_normalize_from(s, 0, Seq::empty(), false)
}

/// The identifier derived from a list of segments: normalized non-empty
/// segments joined with `_`.
pub open spec fn spec_id_of(segments: Seq<Seq<char>>) -> Seq<char>
    decreases segments.len(),
{
    if segments.len() == 0 {
        Seq::empty()
    } else {
        let rest = spec_id_of(segments.drop_last());
        let n = spec_normalize(segments.last());
        if n.len() == 0 {
            rest
        } else if rest.len() == 0 {
            n
        } else {
            rest + seq!['_'] + n
        }
    }
}

/// Generates deterministic identifiers for hierarchical entities.
#[derive(Debug, Clone, Copy)]
pub struct EntityId;

impl EntityId {
    /// Create a new generator.
    pub fn new() -> (r: Self)
        ensures
            r == EntityId,
    {
        EntityId
    }

    /// Normalize a single segment to a `snake_case` component.
    pub fn normalize_segment(input: &str) -> (r: String)
        ensures
            r@ == spec_normalize(input@),
    {
        let cs = str_chars(input);
        let n = cs.len();
        let mut acc: Vec<char> = Vec::new();
        let mut sep = false;
        let mut i: usize = 0;
        while i < n
            invariant
                0 <= i <= n,
                n == cs@.len(),
                spec_normalize(cs@) == spec_normalize_from(cs@, i as int, acc@, sep),
            decreases n - i,
        {
            let c = cs[i];
            if ('0' <= c && c <= '9') || ('a' <= c && c <= 'z') || ('A' <= c && c <= 'Z') {
                acc.push(ascii_lower(c));
                sep = false;
            } else if char_is_word(c) {
                let low = char_to_lower(c);
                push_chars(&mut acc, &low);
                sep = false;
            } else if acc.len() > 0 && !sep {
                acc.push('_');
                sep = true;
            }
            i = i + 1;
        }
        if acc.len() > 0 && acc[acc.len() - 1] == '_' {
            acc.pop();
        }
        chars_string(&acc)
    }

    /// Produce an identifier from an ordered list of human-readable segments.
    ///
    /// Empty or fully sanitized segments are skipped. Remaining segments are
    /// joined with underscores in lowercase `snake_case` form.
    pub fn from_segments(&self, segments: &Vec<String>) -> (r: String)
        ensures
            r@ == spec_id_of(segments.deep_view()),
    {
        let mut acc: Vec<char> = Vec::new();
        let n = segments.len();
        let mut i: usize = 0;
        while i < n
            invariant
                0 <= i <= n,
                n == segments@.len(),
                acc@ == spec_id_of(segments.deep_view().take(i as int)),
            decreases n - i,
        {
            let norm = Self::normalize_segment(segments[i].as_str());
            let norm_chars = str_chars(norm.as_str());
            if norm_chars.len() > 0 {
                if acc.len() > 0 {
                    acc.push('_');
                }
                push_chars(&mut acc, &norm_chars);
            }
            proof {
                let dv = segments.deep_view();
                let t = dv.take(i + 1);
                assert(t.drop_last() =~= dv.take(i as int));
                assert(t.last() == dv[i as int]);
                assert(dv[i as int] == segments@[i as int]@);
                if norm_chars@.len() > 0 && spec_id_of(dv.take(i as int)).len() > 0 {
                    assert(acc@ =~= spec_id_of(dv.take(i as int)) + seq!['_'] + norm_chars@);
                }
            }
            i = i + 1;
        }
        proof {
            assert(segments.deep_view().take(n as int) =~= segments.deep_view());
        }
        chars_string(&acc)
    }
}

/// Identifier derivation is deterministic: equal heading paths always yield
/// equal identifiers, in this process and in any other.
pub proof fn lemma_id_deterministic(a: Seq<Seq<char>>, b: Seq<Seq<char>>)
    requires
        a == b,
    ensures
        spec_id_of(a) == spec_id_of(b),
{
}

/// A segment already in normal form: non-empty, made of lowercase ASCII
/// letters and digits alone.
pub open spec fn spec_plain_segment(s: Seq<char>) -> bool {
    s.len() > 0 && forall|i: int|
        0 <= i < s.len() ==> (('a' <= #[trigger] s[i] && s[i] <= 'z') || ('0' <= s[i] && s[i]
            <= '9'))
}

/// A heading path whose segments are all in normal form.
pub open spec fn spec_plain_path(p: Seq<Seq<char>>) -> bool {
    forall|i: int| 0 <= i < p.len() ==> spec_plain_segment(#[trigger] p[i])
}

proof fn lemma_norm_plain_from(s: Seq<char>, i: int)
    requires
        spec_plain_segment(s),
        0 <= i <= s.len(),
    ensures
        spec_normalize_from(s, i, s.take(i), false) == s,
    decreases s.len() - i,
{
    if i == s.len() {
        assert(s.take(i) =~= s);
        assert(s.last() != '_');
    } else {
        let c = s[i];
        assert(spec_ascii_alnum(c));
        assert(spec_ascii_lower(c) == c);
        assert(s.take(i).push(c) =~= s.take(i + 1));
        lemma_norm_plain_from(s, i + 1);
    }
}

/// A segment already in normal form normalizes to itself.
pub proof fn lemma_normalize_plain(s: Seq<char>)
    requires
        spec_plain_segment(s),
    ensures
        spec_normalize(s) == s,
{
    assert(s.take(0) =~= Seq::<char>::empty());
    lemma_norm_plain_from(s, 0);
}

proof fn lemma_plain_id_nonempty(p: Seq<Seq<char>>)
    requires
        spec_plain_path(p),
        p.len() > 0,
    ensures
        spec_id_of(p).len() > 0,
{
    lemma_normalize_plain(p.last());
}

proof fn lemma_plain_id_no_underscore_tail(x: Seq<char>, y: Seq<char>)
    requires
        forall|i: int| 0 <= i < y.len() ==> #[trigger] y[i] != '_',
    ensures
        crate::parse::spec_last_index_of(x + seq!['_'] + y, '_') == x.len(),
    decreases y.len(),
{
    let s = x + seq!['_'] + y;
    if y.len() == 0 {
        assert(s.last() == '_');
    } else {
        assert(s.last() == y.last());
        assert(s.last() != '_');
        assert(s.drop_last() =~= x + seq!['_'] + y.drop_last());
        lemma_plain_id_no_underscore_tail(x, y.drop_last());
    }
}

/// On heading paths whose segments are already in normal form, identifier
/// derivation never collides: different paths yield different identifiers.
/// (Outside this fragment collisions exist — normalization maps distinct
/// separators to one underscore — and the registry checks for them
/// explicitly rather than assuming their absence.)
pub proof fn lemma_plain_paths_injective(a: Seq<Seq<char>>, b: Seq<Seq<char>>)
    requires
        spec_plain_path(a),
        spec_plain_path(b),
        spec_id_of(a) == spec_id_of(b),
    ensures
        a == b,
    decreases a.len(),
{
    if a.len() == 0 {
        if b.len() > 0 {
            lemma_plain_id_nonempty(b);
            assert(false);
        } else {
            assert(a =~= b);
        }
    } else if b.len() == 0 {
        lemma_plain_id_nonempty(a);
        assert(false);
    } else {
        let na = a.last();
        let nb = b.last();
        let ra = spec_id_of(a.drop_last());
        let rb = spec_id_of(b.drop_last());
        lemma_normalize_plain(na);
        lemma_normalize_plain(nb);
        assert(spec_plain_path(a.drop_last()));
        assert(spec_plain_path(b.drop_last()));
        if a.drop_last().len() == 0 {
            assert(ra.len() == 0);
        } else {
            lemma_plain_id_nonempty(a.drop_last());
        }
        if b.drop_last().len() == 0 {
            assert(rb.len() == 0);
        } else {
            lemma_plain_id_nonempty(b.drop_last());
        }
        if ra.len() == 0 && rb.len() == 0 {
            assert(na == nb);
            assert(a =~= b);
        } else if ra.len() == 0 {
            // One identifier is a plain segment, the other carries an
            // underscore the segment cannot: impossible.
            let id = rb + seq!['_'] + nb;
            assert(id[rb.len() as int] == '_');
            assert(na[rb.len() as int] != '_');
            assert(false);
        } else if rb.len() == 0 {
            let id = ra + seq!['_'] + na;
            assert(id[ra.len() as int] == '_');
            assert(nb[ra.len() as int] != '_');
            assert(false);
        } else {
            let ida = ra + seq!['_'] + na;
            let idb = rb + seq!['_'] + nb;
            assert(forall|i: int| 0 <= i < na.len() ==> #[trigger] na[i] != '_');
            assert(forall|i: int| 0 <= i < nb.len() ==> #[trigger] nb[i] != '_');
            lemma_plain_id_no_underscore_tail(ra, na);
            lemma_plain_id_no_underscore_tail(rb, nb);
            assert(ra.len() == rb.len());
            assert(ra =~= ida.take(ra.len() as int));
            assert(rb =~= idb.take(rb.len() as int));
            assert(ra == rb);
            assert(na =~= ida.subrange(ra.len() as int + 1, ida.len() as int));
            assert(nb =~= idb.subrange(rb.len() as int + 1, idb.len() as int));
            assert(na == nb);
            lemma_plain_paths_injective(a.drop_last(), b.drop_last());
            assert(a.len() == b.len());
            assert forall|q: int| 0 <= q < a.len() implies a[q] == b[q] by {
                if q < a.len() - 1 {
                    assert(a[q] == a.drop_last()[q]);
                    assert(b[q] == b.drop_last()[q]);
                }
            }
            assert(a =~= b);
        }
    }
}

} // verus!
