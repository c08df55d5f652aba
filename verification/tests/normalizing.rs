use clone_path::normalize;
use clone_path::ssh_ref::parse_ssh;
use clone_path::url_ref::parse_host;

#[test]
fn file_url_is_normalized_to_its_path() {
    assert_eq!(normalize("file:///foo/bar"), "foo/bar");
}

#[test]
fn http_url_with_one_slash_is_normalized_to_host_and_path() {
    assert_eq!(normalize("http:/foo/bar"), "foo/bar");
}

#[test]
fn http_url_with_two_slashes_is_normalized_to_host_and_path() {
    assert_eq!(normalize("http://foo/bar"), "foo/bar");
}

#[test]
fn short_host_shorthand_is_normalized_to_host_and_path() {
    assert_eq!(normalize("foo:bar.git"), "foo/bar.git");
}

#[test]
fn dotted_host_shorthand_is_normalized_to_host_and_path() {
    assert_eq!(normalize("github.com:foo/bar.git"), "github.com/foo/bar.git");
}

#[test]
fn shorthand_with_user_and_rooted_path_is_normalized_to_host_and_path() {
    assert_eq!(normalize("git@github.com:/foo/bar.git"), "github.com/foo/bar.git");
}

#[test]
fn plain_paths_are_normalized_to_themselves() {
    for s in ["foo", "foo/bar", "/foo/bar"] {
        assert_eq!(normalize(s), s);
    }
}

#[test]
fn empty_reference_is_normalized_to_itself() {
    assert_eq!(normalize(""), "");
}

#[test]
fn one_letter_left_of_the_colon_is_no_host() {
    assert_eq!(normalize("C:\\path"), "C:\\path");
    assert_eq!(normalize("a:b"), "a:b");
}

#[test]
fn url_reading_comes_before_shorthand() {
    let reference = "http://foo/bar";
    assert_eq!(parse_host(reference), Some("foo/bar".to_string()));
    assert_eq!(parse_ssh(reference), Some("http/foo/bar".to_string()));
    assert_eq!(normalize(reference), "foo/bar");
}

#[test]
fn shorthand_is_read_where_the_url_reading_fails() {
    let reference = "git@github.com:foo/bar.git";
    assert_eq!(parse_host(reference), None);
    assert_eq!(normalize(reference), parse_ssh(reference).unwrap());
    assert_eq!(normalize(reference), "github.com/foo/bar.git");
}

#[test]
fn normalizing_keeps_a_trailing_git_suffix() {
    assert_eq!(normalize("https://github.com/foo/bar.git"), "github.com/foo/bar.git");
}

#[test]
fn structured_references_give_relative_segments() {
    for s in ["file:////foo", "https://github.com//foo", "git@github.com://foo", "unix:/run"] {
        assert!(!normalize(s).starts_with('/'), "{}", s);
    }
}

#[test]
fn normalized_segment_comes_back_unchanged() {
    assert_eq!(normalize(&normalize("http://foo/bar")), "foo/bar");
    assert_eq!(normalize("foo/bar"), "foo/bar");
}

#[test]
fn normalizing_twice_may_differ_from_normalizing_once() {
    let once = normalize("http://foo/x@bar:baz");
    assert_eq!(once, "foo/x@bar:baz");
    assert_eq!(normalize(&once), "bar/baz");
}

#[test]
fn shorthand_inside_a_reference_is_not_read() {
    for s in ["foo/bar:baz", "github.com/foo:bar", "C:foo:bar", "web+demo:foo", "@foo:bar"] {
        assert_eq!(normalize(s), s);
    }
}

#[test]
fn reference_without_a_colon_is_normalized_to_itself() {
    for s in ["foo", "foo/bar", "/foo/bar", "git@github.com", "a b", "\u{fc}/\u{e9}", "//x//"] {
        assert_eq!(parse_host(s), None, "{}", s);
        assert_eq!(parse_ssh(s), None, "{}", s);
        assert_eq!(normalize(s), s);
    }
}

#[test]
fn url_with_nothing_behind_its_slashes_is_normalized_to_the_empty_segment() {
    assert_eq!(normalize("foo://"), "");
    assert_eq!(normalize("ssh://?x"), "");
}
