//! Parsing of `key=value` generation arguments into JSON values.

use vstd::prelude::*;

use crate::chars::{
    chars_string, push_str_chars, spec_ascii_lower, spec_trim, str_chars, trim_chars,
};
use crate::extract::spec_index_of;
use crate::tool::{JsonMember, JsonValue, JsonValueV};

verus! {

/// The ASCII-lowercased form of a character sequence.
pub open spec fn spec_ascii_lower_seq(s: Seq<char>) -> Seq<char> {
    Seq::new(s.len(), |i: int| spec_ascii_lower(s[i]))
}

pub fn ascii_lower_chars(v: &Vec<char>) -> (r: Vec<char>)
    ensures
        r@ == spec_ascii_lower_seq(v@),
{
    let n = v.len();
    let mut out: Vec<char> = Vec::new();
    let mut i: usize = 0;
    while i < n
        invariant
            0 <= i <= n,
            n == v@.len(),
            out@.len() == i,
            forall|q: int| 0 <= q < i ==> out@[q] == spec_ascii_lower(v@[q]),
        decreases n - i,
    {
        out.push(crate::chars::ascii_lower(v[i]));
        i = i + 1;
    }
    proof {
        assert(out@ =~= spec_ascii_lower_seq(v@));
    }
    out
}

/// The integer value accumulated from decimal digits, or nothing when a
/// non-digit occurs.
pub open spec fn spec_parse_digits(s: Seq<char>, i: int, acc: int) -> Option<int>
    decreases s.len() - i,
{
    if i < 0 || i >= s.len() {
        Option::Some(acc)
    } else if '0' <= s[i] && s[i] <= '9' {
        spec_parse_digits(s, i + 1, acc * 10 + (s[i] as int - 48))
    } else {
        Option::None
    }
}

proof fn lemma_digits_monotone(s: Seq<char>, i: int, acc: int)
    requires
        acc >= 0,
        spec_parse_digits(s, i, acc) is Some,
    ensures
        spec_parse_digits(s, i, acc)->Some_0 >= acc,
    decreases s.len() - i,
{
    if 0 <= i < s.len() && '0' <= s[i] && s[i] <= '9' {
        lemma_digits_monotone(s, i + 1, acc * 10 + (s[i] as int - 48));
    }
}

/// What parsing a decimal integer yields, following the shape of
/// `i64::from_str`: an optional sign, then at least one ASCII digit, and
/// the value must fit in an `i64`.
pub open spec fn spec_parse_i64(s: Seq<char>) -> Option<i64> {
    let neg = s.len() > 0 && s[0] == '-';
    let start: int = if s.len() > 0 && (s[0] == '-' || s[0] == '+') {
        1
    } else {
        0
    };
    if s.len() <= start {
        Option::None
    } else {
        match spec_parse_digits(s, start, 0) {
            Option::None => Option::None,
            Option::Some(v) => {
                let sv = if neg {
                    -v
                } else {
                    v
                };
                if i64::MIN <= sv <= i64::MAX {
                    Option::Some(sv as i64)
                } else {
                    Option::None
                }
            },
        }
    }
}

/// Parse a decimal integer.
#[verifier::loop_isolation(false)]
pub fn parse_i64(s: &Vec<char>) -> (r: Option<i64>)
    ensures
        r == spec_parse_i64(s@),
{
    let n = s.len();
    let neg = n > 0 && s[0] == '-';
    let start: usize = if n > 0 && (s[0] == '-' || s[0] == '+') {
        1
    } else {
        0
    };
    if n <= start {
        return Option::None;
    }
    let bound: i128 = 9223372036854775808i128;
    let mut acc: i128 = 0;
    let ghost mut g: int = 0;
    let mut big = false;
    let mut i: usize = start;
    while i < n
        invariant
            start <= i <= n,
            spec_parse_digits(s@, start as int, 0) == spec_parse_digits(s@, i as int, g),
            !big ==> acc as int == g && 0 <= acc <= bound,
            big ==> g > bound,
            g >= 0,
        decreases n - i,
    {
        let c = s[i];
        if !('0' <= c && c <= '9') {
            return Option::None;
        }
        let d = (c as u8) - 48;
        proof {
            g = g * 10 + (c as int - 48);
        }
        if !big {
            if acc <= 922337203685477580i128 {
                acc = acc * 10 + (d as i128);
                if acc > bound {
                    big = true;
                }
            } else {
                big = true;
                proof {
                    assert(g > bound);
                }
            }
        }
        i = i + 1;
    }
    proof {
        assert(spec_parse_digits(s@, i as int, g) == Option::Some(g));
    }
    if big {
        proof {
            lemma_digits_monotone(s@, n as int, g);
        }
        return Option::None;
    }
    if neg {
        Option::Some((-acc) as i64)
    } else {
        if acc > 9223372036854775807i128 {
            Option::None
        } else {
            Option::Some(acc as i64)
        }
    }
}

/// What a raw argument value means: the words `true`, `false` and `null`
/// (ASCII case-insensitively) mean themselves, a decimal integer is a
/// number, and anything else — fractional literals included — passes
/// through as a string.
pub open spec fn spec_parse_value(raw: Seq<char>) -> JsonValueV {
    let low = spec_ascii_lower_seq(raw);
    if low == "true"@ {
        JsonValueV::Bool(true)
    } else if low == "false"@ {
        JsonValueV::Bool(false)
    } else if low == "null"@ {
        JsonValueV::Null
    } else {
        match spec_parse_i64(raw) {
            Option::Some(v) => JsonValueV::Int(v),
            Option::None => JsonValueV::Str(raw),
        }
    }
}

/// Interpret a raw argument value.
pub fn parse_value(raw: &str) -> (r: JsonValue)
    ensures
        r@ == spec_parse_value(raw@),
{
    let cs = str_chars(raw);
    let low = ascii_lower_chars(&cs);
    if crate::chars::chars_eq_str(&low, "true") {
        JsonValue::Bool(true)
    } else if crate::chars::chars_eq_str(&low, "false") {
        JsonValue::Bool(false)
    } else if crate::chars::chars_eq_str(&low, "null") {
        JsonValue::Null
    } else {
        match parse_i64(&cs) {
            Option::Some(v) => JsonValue::Int(v),
            Option::None => JsonValue::Str(crate::chars::lit_string(raw)),
        }
    }
}

/// What parsing one `key=value` pair yields: the trimmed key and the
/// interpreted trimmed value, or the failure text when the `=` is missing
/// or the key is empty.
pub open spec fn spec_parse_arg_pair(raw: Seq<char>) -> Result<(Seq<char>, JsonValueV), Seq<char>> {
    let eq = spec_index_of(raw, '=', 0);
    if eq < 0 {
        Result::Err("invalid argument '"@ + raw + "', expected key=value"@)
    } else {
        let key = spec_trim(raw.take(eq));
        let value = spec_trim(raw.subrange(eq + 1, raw.len() as int));
        if key.len() == 0 {
            Result::Err("argument name cannot be empty in '"@ + raw + "'"@)
        } else {
            Result::Ok((key, spec_parse_value(value)))
        }
    }
}

/// Parse one `key=value` argument pair.
pub fn parse_arg_pair(raw: &str) -> (r: Result<(String, JsonValue), String>)
    ensures
        match r {
            Result::Ok((k, v)) => spec_parse_arg_pair(raw@) == Result::<
                (Seq<char>, JsonValueV),
                Seq<char>,
            >::Ok((k@, v@)),
            Result::Err(m) => spec_parse_arg_pair(raw@) == Result::<
                (Seq<char>, JsonValueV),
                Seq<char>,
            >::Err(m@),
        },
{
    let cs = str_chars(raw);
    let eq = match crate::extract::index_of(&cs, '=', 0) {
        Option::Some(j) => j,
        Option::None => {
            let mut out: Vec<char> = Vec::new();
            push_str_chars(&mut out, "invalid argument '");
            push_str_chars(&mut out, raw);
            push_str_chars(&mut out, "', expected key=value");
            return Result::Err(chars_string(&out));
        },
    };
    let key_raw = crate::extract::subrange_chars(&cs, 0, eq);
    let key = trim_chars(&key_raw);
    proof {
        assert(key_raw@ =~= raw@.take(eq as int));
    }
    let total = cs.len();
    let val_raw = crate::extract::subrange_chars(&cs, eq + 1, total);
    let value = trim_chars(&val_raw);
    if key.len() == 0 {
        let mut out: Vec<char> = Vec::new();
        push_str_chars(&mut out, "argument name cannot be empty in '");
        push_str_chars(&mut out, raw);
        push_str_chars(&mut out, "'");
        return Result::Err(chars_string(&out));
    }
    let vs = chars_string(&value);
    let v = parse_value(vs.as_str());
    Result::Ok((chars_string(&key), v))
}

/// When the first pair carries no `=`, it is consumed as the positional
/// output path: removed from the list, and returned unless its trimmed text
/// is empty.
pub fn extract_positional_out(pairs: &mut Vec<String>) -> (r: Option<String>)
    ensures
        ({
            let p0 = old(pairs).deep_view();
            if p0.len() > 0 && spec_index_of(p0[0], '=', 0) < 0 {
                final (pairs).deep_view() == p0.drop_first() && (match r {
                    Option::Some(s) => s@ == spec_trim(p0[0]) && spec_trim(p0[0]).len() > 0,
                    Option::None => spec_trim(p0[0]).len() == 0,
                })
            } else {
                final (pairs).deep_view() == p0 && r is None
            }
        }),
{
    if pairs.len() == 0 {
        return Option::None;
    }
    let c0 = str_chars(pairs[0].as_str());
    proof {
        assert(old(pairs).deep_view()[0] == pairs@[0]@);
    }
    match crate::extract::index_of(&c0, '=', 0) {
        Option::Some(_) => {
            return Option::None;
        },
        Option::None => {},
    }
    let first = pairs.remove(0);
    proof {
        assert forall|q: int| 0 <= q < pairs@.len() implies #[trigger] pairs.deep_view()[q] == old(
            pairs,
        ).deep_view().drop_first()[q] by {
            assert(pairs.deep_view()[q] == pairs@[q]@);
        }
        assert(pairs.deep_view() =~= old(pairs).deep_view().drop_first());
    }
    let fc = str_chars(first.as_str());
    let t = trim_chars(&fc);
    if t.len() == 0 {
        Option::None
    } else {
        Option::Some(chars_string(&t))
    }
}

/// Whether an object already has a member with the given key.
pub open spec fn spec_has_key(members: Seq<(Seq<char>, JsonValueV)>, key: Seq<char>) -> bool {
    exists|i: int| 0 <= i < members.len() && (#[trigger] members[i]).0 == key
}

/// What building a context from `key=value` pairs yields: the members in
/// order, or the first failure — a malformed pair, or a duplicated key.
pub open spec fn spec_build_context(
    pairs: Seq<Seq<char>>,
    i: int,
    acc: Seq<(Seq<char>, JsonValueV)>,
) -> Result<Seq<(Seq<char>, JsonValueV)>, Seq<char>>
    decreases pairs.len() - i,
{
    if i < 0 || i >= pairs.len() {
        Result::Ok(acc)
    } else {
        match spec_parse_arg_pair(pairs[i]) {
            Result::Err(m) => Result::Err(m),
            Result::Ok((k, v)) => if spec_has_key(acc, k) {
                Result::Err("Duplicate argument '"@ + k + "'."@)
            } else {
                spec_build_context(pairs, i + 1, acc.push((k, v)))
            },
        }
    }
}

/// Build the rendering context from `key=value` pairs.
#[verifier::loop_isolation(false)]
pub fn build_context_map(pairs: &Vec<String>) -> (r: Result<Vec<JsonMember>, String>)
    ensures
        match r {
            Result::Ok(ms) => spec_build_context(pairs.deep_view(), 0, Seq::empty()) == Result::<
                Seq<(Seq<char>, JsonValueV)>,
                Seq<char>,
            >::Ok(crate::tool::spec_json_members_view(ms@)),
            Result::Err(m) => spec_build_context(pairs.deep_view(), 0, Seq::empty()) == Result::<
                Seq<(Seq<char>, JsonValueV)>,
                Seq<char>,
            >::Err(m@),
        },
{
    let mut acc: Vec<JsonMember> = Vec::new();
    proof {
        crate::tool::lemma_json_members_index(acc@);
        assert(crate::tool::spec_json_members_view(acc@) =~= Seq::<(Seq<char>, JsonValueV)>::empty());
    }
    let n = pairs.len();
    let mut i: usize = 0;
    while i < n
        invariant
            0 <= i <= n,
            n == pairs@.len(),
            spec_build_context(pairs.deep_view(), 0, Seq::empty()) == spec_build_context(
                pairs.deep_view(),
                i as int,
                crate::tool::spec_json_members_view(acc@),
            ),
        decreases n - i,
    {
        proof {
            assert(pairs.deep_view()[i as int] == pairs@[i as int]@);
        }
        let (key, value) = match parse_arg_pair(pairs[i].as_str()) {
            Result::Ok(kv) => kv,
            Result::Err(m) => {
                return Result::Err(m);
            },
        };
        // A duplicated key is an error.
        let mut dup = false;
        let m = acc.len();
        let mut j: usize = 0;
        while j < m
            invariant
                0 <= j <= m,
                m == acc@.len(),
                dup ==> spec_has_key(crate::tool::spec_json_members_view(acc@), key@),
                !dup ==> forall|q: int|
                    0 <= q < j ==> (#[trigger] crate::tool::spec_json_members_view(acc@)[q]).0
                        != key@,
            decreases m - j,
        {
            proof {
                crate::tool::lemma_json_members_index(acc@);
            }
            let kc = str_chars(acc[j].key.as_str());
            if crate::chars::chars_eq_str(&kc, key.as_str()) {
                dup = true;
                proof {
                    assert(crate::tool::spec_json_members_view(acc@)[j as int].0 == key@);
                }
            }
            j = j + 1;
        }
        proof {
            crate::tool::lemma_json_members_index(acc@);
        }
        if dup {
            let mut out: Vec<char> = Vec::new();
            push_str_chars(&mut out, "Duplicate argument '");
            push_str_chars(&mut out, key.as_str());
            push_str_chars(&mut out, "'.");
            return Result::Err(chars_string(&out));
        }
        let ghost pre = acc@;
        let member = JsonMember { key, value };
        acc.push(member);
        proof {
            assert(acc@.drop_last() =~= pre);
            assert(acc@.last() == member);
        }
        i = i + 1;
    }
    Result::Ok(acc)
}

} // verus!
