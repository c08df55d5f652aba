//! From a repository reference to the relative path segment it stands for.

use crate::ssh_ref::{
    is_shorthand_split, lemma_rooted_host_segment, lemma_shorthand_needs_colon, parse_ssh,
    parsed_ssh, regex_captures, ssh_segment_of, SSH_PATTERN,
};
use crate::text::{lemma_trim_start_head, trim_start};
use crate::url_ref::{
    has_scheme, host_text, is_hierarchical, lemma_url_needs_colon, parse_host, parsed_host,
    url_parse, UrlModel,
};
use vstd::prelude::*;

verus! {

/// The path segment that `reference` stands for: what it gives as a URL;
/// failing that, what it gives as `[user@]host:path`; failing both,
/// `reference` itself.
pub open spec fn normalized(reference: Seq<char>) -> Seq<char> {
    match parsed_host(reference) {
        Some(segment) => segment,
        None => match parsed_ssh(reference) {
            Some(segment) => segment,
            None => reference,
        },
    }
}

/// Normalizes a repository reference into a relative path segment. The URL
/// reading is tried first, then the shorthand; a reference that is neither
/// comes back as it is, and so does every reference without a colon. A
/// trailing `.git` is kept. The segment is relative unless it is the
/// reference itself.
pub fn normalize(reference: &str) -> (segment: String)
    ensures
        segment@ == normalized(reference@),
        segment@.len() > 0 && segment@[0] == '/' ==> segment@ == reference@,
        !reference@.contains(':') ==> segment@ == reference@,
{
    proof {
        lemma_segment_is_relative(reference@);
        if !reference@.contains(':') {
            lemma_reference_without_colon(reference@);
        }
    }
    match parse_host(reference) {
        Some(segment) => segment,
        None => match parse_ssh(reference) {
            Some(segment) => segment,
            None => String::from_str(reference),
        },
    }
}

/// A reference that opens with a scheme and parses as a URL whose path is
/// not opaque is normalized to the host followed by the path, without
/// leading slashes; to the path alone where the URL has no host.
pub proof fn lemma_url_reference(reference: Seq<char>, url: UrlModel)
    requires
        has_scheme(reference),
        url_parse(reference) == Some(url),
        is_hierarchical(url),
    ensures
        normalized(reference) == trim_start(host_text(url.host) + url.path, '/'),
{
}

/// A reference that is no URL and that the shorthand matches as a whole,
/// with host `host` and path `path`, is normalized to `host/path`, the path
/// without its leading slashes. For a path without a leading slash that is
/// host, slash and path as they stand.
pub proof fn lemma_shorthand_reference(
    reference: Seq<char>,
    groups: Seq<Option<Seq<char>>>,
    host: Seq<char>,
    path: Seq<char>,
)
    requires
        parsed_host(reference) is None,
        regex_captures(SSH_PATTERN@, reference) == Some(groups),
        groups.len() >= 3,
        groups[0] == Some(reference),
        groups[1] == Some(host),
        groups[2] == Some(path),
        is_shorthand_split(reference, host, path),
    ensures
        normalized(reference) == host + seq!['/'] + trim_start(path, '/'),
        path[0] != '/' ==> normalized(reference) == host + seq!['/'] + path,
{
    lemma_rooted_host_segment(host, path);
}

/// A reference that is neither a URL nor shorthand is normalized to itself.
pub proof fn lemma_plain_reference(reference: Seq<char>)
    requires
        parsed_host(reference) is None,
        parsed_ssh(reference) is None,
    ensures
        normalized(reference) == reference,
{
}

/// A reference without a colon is neither a URL nor shorthand, and is
/// normalized to itself.
pub proof fn lemma_reference_without_colon(reference: Seq<char>)
    requires
        !reference.contains(':'),
    ensures
        parsed_host(reference) is None,
        parsed_ssh(reference) is None,
        normalized(reference) == reference,
{
    lemma_url_needs_colon(reference);
    lemma_shorthand_needs_colon(reference);
}

/// Normalizing a segment once more changes nothing where the segment is
/// itself neither a URL nor shorthand, as is every segment without a colon.
/// Where it is one of them, nothing of the kind is promised.
pub proof fn lemma_plain_segment_is_stable(reference: Seq<char>)
    requires
        !normalized(reference).contains(':') || (parsed_host(normalized(reference)) is None
            && parsed_ssh(normalized(reference)) is None),
    ensures
        normalized(normalized(reference)) == normalized(reference),
{
    if !normalized(reference).contains(':') {
        lemma_reference_without_colon(normalized(reference));
    }
}

/// Only a reference that came back as it is can give a segment that starts
/// with a slash.
pub proof fn lemma_segment_is_relative(reference: Seq<char>)
    ensures
        normalized(reference).len() > 0 && normalized(reference)[0] == '/' ==> {
            &&& normalized(reference) == reference
            &&& parsed_host(reference) is None
            &&& parsed_ssh(reference) is None
        },
{
    match url_parse(reference) {
        Some(u) => {
            lemma_trim_start_head(host_text(u.host) + u.path, '/');
        },
        None => {},
    }
    match regex_captures(SSH_PATTERN@, reference) {
        Some(groups) => {
            if ssh_segment_of(reference, groups) is Some {
                let host = groups[1]->0;
                let path = groups[2]->0;
                lemma_trim_start_head(host + seq!['/'] + trim_start(path, '/'), '/');
            }
        },
        None => {},
    }
}

} // verus!
