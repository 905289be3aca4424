//! Source provenance: byte spans and locations attached to extracted entities.

use vstd::prelude::*;

use crate::chars::{chars_string, push_str_chars, push_usize_digits, spec_digits, str_chars};

verus! {

/// A half-open range of byte offsets into a source document.
#[derive(Debug, Clone, Copy, PartialEq, Eq, Structural)]
pub struct Span {
    pub start: usize,
    pub end: usize,
}

/// The union of two spans: the least start and the greatest end.
pub open spec fn spec_merge(a: Span, b: Span) -> Span {
    Span {
        start: if b.start < a.start {
            b.start
        } else {
            a.start
        },
        end: if b.end > a.end {
            b.end
        } else {
            a.end
        },
    }
}

/// Extend an optional span with a further optional span.
pub open spec fn spec_merge_opt(base: Option<Span>, c: Option<Span>) -> Option<Span> {
    match c {
        Option::None => base,
        Option::Some(s) => match base {
            Option::None => Option::Some(s),
            Option::Some(b) => Option::Some(spec_merge(b, s)),
        },
    }
}

impl Span {
    /// The smallest span covering both `self` and `other`.
    pub fn merged_with(&self, other: &Span) -> (r: Span)
        ensures
            r == spec_merge(*self, *other),
    {
        Span {
            start: if other.start < self.start {
                other.start
            } else {
                self.start
            },
            end: if other.end > self.end {
                other.end
            } else {
                self.end
            },
        }
    }
}

/// Extend an optional span with a further optional span.
pub fn merge_span(base: &mut Option<Span>, candidate: &Option<Span>)
    ensures
        *final (base) == spec_merge_opt(*old(base), *candidate),
{
    match candidate {
        Option::None => {},
        Option::Some(s) => {
            match base {
                Option::None => {
                    *base = Option::Some(*s);
                },
                Option::Some(b) => {
                    *base = Option::Some(b.merged_with(s));
                },
            }
        },
    }
}

/// Source provenance of an extracted entity: document path and byte span.
/// The path is empty for in-memory input.
#[derive(Debug, Clone)]
pub struct Location {
    pub path: String,
    pub span: Span,
}

/// The mathematical model of a [`Location`].
pub struct LocationV {
    pub path: Seq<char>,
    pub span: Span,
}

impl View for Location {
    type V = LocationV;

    open spec fn view(&self) -> LocationV {
        LocationV { path: self.path@, span: self.span }
    }
}

impl DeepView for Location {
    type V = LocationV;

    open spec fn deep_view(&self) -> LocationV {
        self@
    }
}

/// Build a location from a document path and an optional span; a missing
/// span collapses to the zero span.
pub open spec fn spec_make_location(path: Seq<char>, span: Option<Span>) -> LocationV {
    LocationV {
        path,
        span: match span {
            Option::Some(s) => s,
            Option::None => Span { start: 0, end: 0 },
        },
    }
}

/// Build a location from a document path and an optional span.
pub fn make_location(path: &str, span: &Option<Span>) -> (r: Location)
    ensures
        r@ == spec_make_location(path@, *span),
{
    let cs = str_chars(path);
    Location {
        path: chars_string(&cs),
        span: match span {
            Option::Some(s) => *s,
            Option::None => Span { start: 0, end: 0 },
        },
    }
}

/// The display form of a location: `path:start-end`, with the sentinel
/// `<memory>` in place of an empty path.
pub open spec fn spec_format_location(l: LocationV) -> Seq<char> {
    (if l.path.len() == 0 {
        "<memory>"@
    } else {
        l.path
    }) + ":"@ + spec_digits(l.span.start as nat) + "-"@ + spec_digits(l.span.end as nat)
}

/// A location packaged for display in diagnostics.
#[derive(Debug, Clone)]
pub struct FormattedLocation(pub Location);

impl FormattedLocation {
    /// The display form of the wrapped location.
    pub fn render(&self) -> (r: String)
        ensures
            r@ == spec_format_location(self.0@),
    {
        let mut out: Vec<char> = Vec::new();
        if self.0.path.as_str().is_empty() {
            push_str_chars(&mut out, "<memory>");
        } else {
            push_str_chars(&mut out, self.0.path.as_str());
        }
        let ghost head = if self.0@.path.len() == 0 {
            "<memory>"@
        } else {
            self.0@.path
        };
        out.push(':');
        proof {
            reveal_strlit(":");
            assert(out@ =~= head + ":"@);
        }
        push_usize_digits(&mut out, self.0.span.start);
        out.push('-');
        proof {
            reveal_strlit("-");
            assert(out@ =~= head + ":"@ + spec_digits(self.0@.span.start as nat) + "-"@);
        }
        push_usize_digits(&mut out, self.0.span.end);
        proof {
            assert(out@ =~= spec_format_location(self.0@));
        }
        chars_string(&out)
    }
}

} // verus!
