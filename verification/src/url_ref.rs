//! References written as URLs: `scheme://host/path`, `scheme:/path`.

use crate::text::{glue, lemma_trim_start_head, trim_start, trim_start_char};
use vstd::prelude::*;

verus! {

/// What this library reads of a parsed URL.
#[derive(Clone, Debug, PartialEq, Eq)]
pub struct UrlParts {
    /// The host as the URL spells it, where the URL has one.
    pub host: Option<String>,
    /// The path, percent-encoded.
    pub path: String,
    /// Whether the path is opaque: the scheme's colon is not followed by a
    /// slash, as in `mailto:someone`. Such a URL has no host, and its path
    /// names no place below one.
    pub cannot_be_a_base: bool,
}

/// The mathematical value of a `UrlParts`.
pub ghost struct UrlModel {
    pub host: Option<Seq<char>>,
    pub path: Seq<char>,
    pub cannot_be_a_base: bool,
}

impl View for UrlParts {
    type V = UrlModel;

    open spec fn view(&self) -> UrlModel {
        UrlModel {
            host: self.host.deep_view(),
            path: self.path@,
            cannot_be_a_base: self.cannot_be_a_base,
        }
    }
}

impl DeepView for UrlParts {
    type V = UrlModel;

    open spec fn deep_view(&self) -> UrlModel {
        self@
    }
}

/// The host and path of the URL that the `url` crate parses `input` into,
/// and whether that path is opaque; `None` where it rejects `input`.
pub uninterp spec fn url_parse(input: Seq<char>) -> Option<UrlModel>;

/// Calls `url::Url::parse` on `input` and reads the result with
/// `Url::host_str`, `Url::path` and `Url::cannot_be_a_base`. Nothing is
/// claimed of the outcome but that it is a function of `input`, which
/// `url_parse` names.
#[verifier::external_body]
fn parse_url(input: &str) -> (parts: Option<UrlParts>)
    ensures
        parts.deep_view() == url_parse(input@),
{
    match url::Url::parse(input) {
        Ok(u) => Some(
            UrlParts {
                host: u.host_str().map(str::to_string),
                path: u.path().to_string(),
                cannot_be_a_base: u.cannot_be_a_base(),
            },
        ),
        Err(_) => None,
    }
}

/// Whether `c` may stand in a scheme: an ASCII letter or digit, `+`, `-`
/// or `.`.
pub open spec fn is_scheme_char(c: char) -> bool {
    ('a' <= c && c <= 'z') || ('A' <= c && c <= 'Z') || ('0' <= c && c <= '9') || c == '+' || c
        == '-' || c == '.'
}

/// Whether `c` is an ASCII letter.
pub open spec fn is_ascii_letter(c: char) -> bool {
    ('a' <= c && c <= 'z') || ('A' <= c && c <= 'Z')
}

/// Whether `c` is a space or a control character below it. URL parsers pass
/// over such characters at both ends of a reference.
pub open spec fn is_blank(c: char) -> bool {
    c <= ' '
}

/// Whether `c` is a tab, a line feed or a carriage return. URL parsers pass
/// over these wherever they stand in a reference.
pub open spec fn is_skipped(c: char) -> bool {
    c == '\t' || c == '\n' || c == '\r'
}

/// Whether a scheme of `reference` can span from `start` to the colon at
/// `end`: blanks at most come before it, it starts with a letter, and up to
/// the colon it holds nothing but scheme characters and what a parser
/// passes over.
pub open spec fn scheme_spans(reference: Seq<char>, start: int, end: int) -> bool {
    &&& 0 <= start < end < reference.len()
    &&& forall|i: int| 0 <= i < start ==> is_blank(#[trigger] reference[i])
    &&& is_ascii_letter(reference[start])
    &&& forall|i: int|
        start < i < end ==> is_scheme_char(#[trigger] reference[i]) || is_skipped(reference[i])
    &&& reference[end] == ':'
}

/// Whether `reference` can open with a scheme. No reference is a URL
/// without one.
pub open spec fn has_scheme(reference: Seq<char>) -> bool {
    exists|start: int, end: int| scheme_spans(reference, start, end)
}

/// Whether a URL decomposes into a host and a path: its path is not opaque.
/// `http://host/p`, `file:///p` and `foo://` do, the last into no host and
/// an empty path; `mailto:someone` and `host:p` do not.
pub open spec fn is_hierarchical(u: UrlModel) -> bool {
    !u.cannot_be_a_base
}

/// The text of a host, empty where there is none.
pub open spec fn host_text(host: Option<Seq<char>>) -> Seq<char> {
    match host {
        Some(h) => h,
        None => Seq::empty(),
    }
}

/// The path segment that a URL stands for: its host followed by its path,
/// without leading slashes. A URL that is not hierarchical stands for none.
pub open spec fn url_segment_of(u: UrlModel) -> Option<Seq<char>> {
    if is_hierarchical(u) {
        Some(trim_start(host_text(u.host) + u.path, '/'))
    } else {
        None
    }
}

/// The path segment that `reference` stands for when read as a URL: that of
/// the URL it parses into, where it can open with a scheme.
pub open spec fn parsed_host(reference: Seq<char>) -> Option<Seq<char>> {
    if has_scheme(reference) {
        match url_parse(reference) {
            Some(u) => url_segment_of(u),
            None => None,
        }
    } else {
        None
    }
}

/// Whether `reference` can open with a scheme.
pub fn opens_with_scheme(reference: &str) -> (b: bool)
    ensures
        b == has_scheme(reference@),
{
    let n: usize = reference.unicode_len();
    let mut start: usize = 0;
    while start < n && reference.get_char(start) <= ' '
        invariant
            n == reference@.len(),
            start <= n,
            forall|i: int| 0 <= i < start ==> is_blank(#[trigger] reference@[i]),
        decreases n - start,
    {
        start += 1;
    }
    if start == n {
        assert forall|s: int, e: int| !scheme_spans(reference@, s, e) by {
            if scheme_spans(reference@, s, e) {
                assert(is_blank(reference@[s]));
            }
        }
        return false;
    }
    let first: char = reference.get_char(start);
    if !(('a' <= first && first <= 'z') || ('A' <= first && first <= 'Z')) {
        assert forall|s: int, e: int| !scheme_spans(reference@, s, e) by {
            if scheme_spans(reference@, s, e) {
                if s < start {
                    assert(is_blank(reference@[s]));
                } else if s > start {
                    assert(is_blank(reference@[start as int]));
                }
            }
        }
        return false;
    }
    let mut k: usize = start + 1;
    while k < n
        invariant
            n == reference@.len(),
            start < k <= n,
            is_ascii_letter(reference@[start as int]),
            forall|i: int| 0 <= i < start ==> is_blank(#[trigger] reference@[i]),
            forall|i: int|
                start < i < k ==> reference@[i] != ':' && (is_scheme_char(#[trigger] reference@[i])
                    || is_skipped(reference@[i])),
        decreases n - k,
    {
        let c: char = reference.get_char(k);
        if c == ':' {
            assert(scheme_spans(reference@, start as int, k as int));
            return true;
        }
        let scheme_char: bool = ('a' <= c && c <= 'z') || ('A' <= c && c <= 'Z') || ('0' <= c && c
            <= '9') || c == '+' || c == '-' || c == '.';
        if !scheme_char && c != '\t' && c != '\n' && c != '\r' {
            assert forall|s: int, e: int| !scheme_spans(reference@, s, e) by {
                if scheme_spans(reference@, s, e) {
                    lemma_scheme_start(reference@, s, e, start as int);
                    if e > k {
                        assert(is_scheme_char(reference@[k as int]) || is_skipped(
                            reference@[k as int],
                        ));
                    }
                }
            }
            return false;
        }
        k += 1;
    }
    assert forall|s: int, e: int| !scheme_spans(reference@, s, e) by {
        if scheme_spans(reference@, s, e) {
            lemma_scheme_start(reference@, s, e, start as int);
        }
    }
    false
}

/// A scheme starts at the first character that is no blank.
pub proof fn lemma_scheme_start(reference: Seq<char>, start: int, end: int, first: int)
    requires
        scheme_spans(reference, start, end),
        0 <= first < reference.len(),
        !is_blank(reference[first]),
        forall|i: int| 0 <= i < first ==> is_blank(#[trigger] reference[i]),
    ensures
        start == first,
{
    if start < first {
        assert(is_blank(reference[start]));
    } else if start > first {
        assert(is_blank(reference[first]));
    }
}

/// The path segment of a parsed URL: host and path glued together, leading
/// slashes removed. `None` for a URL with an opaque path.
pub fn url_segment(parts: &UrlParts) -> (segment: Option<String>)
    ensures
        segment.deep_view() == url_segment_of(parts@),
        segment matches Some(t) ==> t@.len() == 0 || t@[0] != '/',
{
    if parts.cannot_be_a_base {
        return None;
    }
    let path: &str = parts.path.as_str();
    let joined: String = match &parts.host {
        Some(host) => glue(host.as_str(), path),
        None => {
            assert(Seq::<char>::empty() + path@ =~= path@);
            String::from_str(path)
        },
    };
    proof {
        lemma_trim_start_head(joined@, '/');
    }
    Some(String::from_str(trim_start_char(joined.as_str(), '/')))
}

/// Reads `reference` as a URL and gives the path segment it stands for:
/// host and path glued together, leading slashes removed. `None` where
/// `reference` has no scheme, is no URL, or is a URL with an opaque path.
pub fn parse_host(reference: &str) -> (segment: Option<String>)
    ensures
        segment.deep_view() == parsed_host(reference@),
        segment matches Some(t) ==> t@.len() == 0 || t@[0] != '/',
        segment is Some ==> has_scheme(reference@),
{
    if !opens_with_scheme(reference) {
        return None;
    }
    match parse_url(reference) {
        Some(parts) => url_segment(&parts),
        None => None,
    }
}

/// A reference without a colon does not read as a URL.
pub proof fn lemma_url_needs_colon(reference: Seq<char>)
    requires
        !reference.contains(':'),
    ensures
        parsed_host(reference) is None,
{
}

/// A reference does not read as a URL where the first character that is
/// no blank, at `at`, is no letter.
pub proof fn lemma_url_needs_letter(reference: Seq<char>, at: int)
    requires
        0 <= at < reference.len(),
        forall|i: int| 0 <= i < at ==> is_blank(reference[i]),
        !is_blank(reference[at]),
        !is_ascii_letter(reference[at]),
    ensures
        parsed_host(reference) is None,
{
    assert forall|s: int, e: int| !scheme_spans(reference, s, e) by {
        if scheme_spans(reference, s, e) {
            lemma_scheme_start(reference, s, e, at);
        }
    }
}

/// A reference does not read as a URL where, behind a character at `first`
/// that is no blank and before any colon, a character stands at `at` that
/// is neither a scheme character nor a tab or line break.
pub proof fn lemma_url_needs_scheme(reference: Seq<char>, first: int, at: int)
    requires
        0 <= first < at < reference.len(),
        !is_blank(reference[first]),
        forall|i: int| 0 <= i <= at ==> reference[i] != ':',
        !is_scheme_char(reference[at]),
        !is_skipped(reference[at]),
    ensures
        parsed_host(reference) is None,
{
    assert forall|s: int, e: int| !scheme_spans(reference, s, e) by {
        if scheme_spans(reference, s, e) {
            if first < s {
                assert(is_blank(reference[first]));
            }
            assert(is_scheme_char(reference[at]) || is_skipped(reference[at]));
        }
    }
}

/// In a reference that reads as a URL and holds no blank before its first
/// colon, the scheme is what stands before that colon: a letter, then
/// scheme characters.
pub proof fn lemma_url_scheme_is_prefix(reference: Seq<char>, colon: int)
    requires
        parsed_host(reference) is Some,
        0 <= colon < reference.len(),
        reference[colon] == ':',
        forall|i: int| 0 <= i < colon ==> reference[i] != ':' && !is_blank(reference[i]),
    ensures
        colon > 0,
        is_ascii_letter(reference[0]),
        forall|i: int| 0 < i < colon ==> is_scheme_char(reference[i]),
{
    let (s, e) = choose|s: int, e: int| scheme_spans(reference, s, e);
    if s > 0 {
        assert(is_blank(reference[0]));
    }
    if e > colon {
        assert(is_scheme_char(reference[colon]) || is_skipped(reference[colon]));
    }
    assert forall|i: int| 0 < i < colon implies is_scheme_char(reference[i]) by {
        assert(is_scheme_char(reference[i]) || is_skipped(reference[i]));
    }
}

} // verus!
