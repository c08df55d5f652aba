//! References written in the SCP-like shorthand `[user@]host:path`.

use crate::text::{
    ends_with, ends_with_str, glue, holds_char, lemma_trim_start_head, trim_start, trim_start_char,
};
use vstd::prelude::*;

verus! {

/// The shorthand as a regular expression: an optional `user@`, a host of at
/// least two characters (a word character, then word characters, hyphens or
/// dots), a colon, and the path. One-letter hosts are left out so that a
/// drive letter (`C:\path`) is not taken for a host. The pattern is searched
/// for; a reference reads as shorthand only where the match is the whole of
/// it.
pub const SSH_PATTERN: &'static str = r"(?:.+@)?(\w[\w\-\.]+):(.+)";

/// What the first match of the regular expression `pattern` in `haystack`
/// captures, as the `regex` crate finds it: one entry for each group of the
/// pattern, the whole match at index 0, and `None` for a group that took no
/// part in the match. `None` where the crate refuses `pattern` or finds no
/// match in `haystack`.
pub uninterp spec fn regex_captures(pattern: Seq<char>, haystack: Seq<char>) -> Option<
    Seq<Option<Seq<char>>>,
>;

/// Compiles `pattern` with `regex::Regex::new`, searches `haystack` with
/// `Regex::captures` and copies each group out of the `Captures`. Nothing is
/// claimed of the outcome but that it is a function of `pattern` and
/// `haystack`, which `regex_captures` names.
#[verifier::external_body]
fn captures(pattern: &str, haystack: &str) -> (groups: Option<Vec<Option<String>>>)
    ensures
        groups.deep_view() == regex_captures(pattern@, haystack@),
{
    let re = regex::Regex::new(pattern).ok()?;
    let caps = re.captures(haystack)?;
    Some(caps.iter().map(|m| m.map(|m| m.as_str().to_string())).collect())
}

/// Whether `reference` reads as shorthand with this host and this path:
/// it is `host`, a colon and `path`, after nothing or after a user part that
/// ends in `@`. The host has two characters or more and no slash among them,
/// and the path is not empty.
pub open spec fn is_shorthand_split(reference: Seq<char>, host: Seq<char>, path: Seq<char>) -> bool {
    let tail = host + seq![':'] + path;
    &&& host.len() >= 2
    &&& !host.contains('/')
    &&& path.len() >= 1
    &&& ends_with(reference, tail)
    &&& (reference.len() == tail.len() || reference[reference.len() - tail.len() - 1] == '@')
}

/// The path segment for a host and the path on it: `host/path`, where the
/// path first loses its leading slashes and then the whole does.
pub open spec fn shorthand_segment_of(host: Seq<char>, path: Seq<char>) -> Seq<char> {
    trim_start(host + seq!['/'] + trim_start(path, '/'), '/')
}

/// The path segment for the groups of a match of `SSH_PATTERN` in
/// `reference`: group 1 is the host and group 2 the path. There is one only
/// where the match, group 0, is the whole of `reference` and host and path
/// split it as the shorthand says.
pub open spec fn ssh_segment_of(reference: Seq<char>, groups: Seq<Option<Seq<char>>>) -> Option<
    Seq<char>,
> {
    if groups.len() >= 3 && groups[0] == Some(reference) && groups[1] is Some && groups[2] is Some
        && is_shorthand_split(reference, groups[1]->0, groups[2]->0) {
        Some(shorthand_segment_of(groups[1]->0, groups[2]->0))
    } else {
        None
    }
}

/// The path segment that `reference` stands for when read as shorthand.
pub open spec fn parsed_ssh(reference: Seq<char>) -> Option<Seq<char>> {
    match regex_captures(SSH_PATTERN@, reference) {
        Some(groups) => ssh_segment_of(reference, groups),
        None => None,
    }
}

/// Whether `reference` reads as shorthand with this host and this path.
pub fn splits_as_shorthand(reference: &str, host: &str, path: &str) -> (b: bool)
    ensures
        b == is_shorthand_split(reference@, host@, path@),
{
    proof {
        reveal_strlit(":");
        assert(":"@ =~= seq![':']);
    }
    if host.unicode_len() < 2 || holds_char(host, '/') || path.unicode_len() < 1 {
        return false;
    }
    let before: String = glue(host, ":");
    let tail: String = glue(before.as_str(), path);
    if !ends_with_str(reference, tail.as_str()) {
        return false;
    }
    let n: usize = reference.unicode_len();
    let m: usize = tail.as_str().unicode_len();
    n == m || reference.get_char(n - m - 1) == '@'
}

/// The path segment for `host` and `path`.
pub fn shorthand_segment(host: &str, path: &str) -> (segment: String)
    ensures
        segment@ == shorthand_segment_of(host@, path@),
        segment@.len() == 0 || segment@[0] != '/',
{
    proof {
        reveal_strlit("/");
        assert("/"@ =~= seq!['/']);
    }
    let rooted: String = glue(host, "/");
    let joined: String = glue(rooted.as_str(), trim_start_char(path, '/'));
    proof {
        lemma_trim_start_head(joined@, '/');
    }
    String::from_str(trim_start_char(joined.as_str(), '/'))
}

/// The path segment for the groups that a match of `SSH_PATTERN` in
/// `reference` captured. A match that is only a part of `reference` gives
/// none.
pub fn ssh_segment(reference: &str, groups: &Vec<Option<String>>) -> (segment: Option<String>)
    ensures
        segment.deep_view() == ssh_segment_of(reference@, groups.deep_view()),
        segment matches Some(t) ==> t@.len() == 0 || t@[0] != '/',
{
    if groups.len() < 3 {
        return None;
    }
    match (&groups[0], &groups[1], &groups[2]) {
        (Some(whole), Some(host), Some(path)) => {
            if *whole == String::from_str(reference) && splits_as_shorthand(
                reference,
                host.as_str(),
                path.as_str(),
            ) {
                Some(shorthand_segment(host.as_str(), path.as_str()))
            } else {
                None
            }
        },
        _ => None,
    }
}

/// Reads `reference` as `[user@]host:path` and gives the path segment it
/// stands for: `host/path`, leading slashes removed from the path and from
/// the whole. `None` where `reference` as a whole is no such shorthand, as
/// where it holds no colon.
pub fn parse_ssh(reference: &str) -> (segment: Option<String>)
    ensures
        segment.deep_view() == parsed_ssh(reference@),
        segment matches Some(t) ==> t@.len() == 0 || t@[0] != '/',
        !reference@.contains(':') ==> segment is None,
{
    proof {
        if !reference@.contains(':') {
            lemma_shorthand_needs_colon(reference@);
        }
    }
    match captures(SSH_PATTERN, reference) {
        Some(groups) => ssh_segment(reference, &groups),
        None => None,
    }
}

/// A reference that reads as shorthand is, as a text, a host, a colon and a
/// path behind an optional user part, and its segment is that host, a slash
/// and that path without its leading slashes. No other reference reads as
/// shorthand, whatever the pattern finds in it.
pub proof fn lemma_shorthand_shape(reference: Seq<char>)
    ensures
        parsed_ssh(reference) matches Some(segment) ==> exists|host: Seq<char>, path: Seq<char>|
            #[trigger] is_shorthand_split(reference, host, path) && segment == host + seq!['/']
                + trim_start(path, '/'),
{
    if let Some(groups) = regex_captures(SSH_PATTERN@, reference) {
        if ssh_segment_of(reference, groups) is Some {
            let host = groups[1]->0;
            let path = groups[2]->0;
            lemma_rooted_host_segment(host, path);
            assert(is_shorthand_split(reference, host, path));
        }
    }
}

/// Behind a host that is not empty and holds no slash, the outer trimming
/// of a segment removes nothing.
pub proof fn lemma_rooted_host_segment(host: Seq<char>, path: Seq<char>)
    requires
        host.len() > 0,
        !host.contains('/'),
    ensures
        shorthand_segment_of(host, path) == host + seq!['/'] + trim_start(path, '/'),
{
    let glued = host + seq!['/'] + trim_start(path, '/');
    assert(glued[0] == host[0]);
    assert(host.contains(host[0]));
}

/// A reference without a colon does not read as shorthand.
pub proof fn lemma_shorthand_needs_colon(reference: Seq<char>)
    requires
        !reference.contains(':'),
    ensures
        parsed_ssh(reference) is None,
{
    if let Some(groups) = regex_captures(SSH_PATTERN@, reference) {
        if ssh_segment_of(reference, groups) is Some {
            let host = groups[1]->0;
            let path = groups[2]->0;
            let tail = host + seq![':'] + path;
            let from = reference.len() - tail.len();
            assert(reference.skip(from)[host.len() as int] == tail[host.len() as int]);
            assert(reference[from + host.len()] == ':');
        }
    }
}

} // verus!
