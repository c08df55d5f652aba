//! Trimming and gluing of character sequences, with the executable
//! counterparts on `&str`.

use vstd::prelude::*;

verus! {

/// `s` without its leading run of `c`.
pub open spec fn trim_start(s: Seq<char>, c: char) -> Seq<char>
    decreases s.len(),
{
    if s.len() > 0 && s[0] == c {
        trim_start(s.drop_first(), c)
    } else {
        s
    }
}

/// Trimming may begin after any number of leading copies of `c`, and it
/// ends at the first character that is not `c`.
pub proof fn lemma_trim_start_skip(s: Seq<char>, c: char, k: int)
    requires
        0 <= k <= s.len(),
        forall|i: int| 0 <= i < k ==> s[i] == c,
    ensures
        trim_start(s, c) == trim_start(s.skip(k), c),
        k == s.len() || s[k] != c ==> trim_start(s, c) == s.skip(k),
    decreases k,
{
    if k == 0 {
        assert(s.skip(0) =~= s);
    } else {
        assert(s.drop_first().skip(k - 1) =~= s.skip(k));
        lemma_trim_start_skip(s.drop_first(), c, k - 1);
    }
}

/// What is left after trimming does not start with `c`.
pub proof fn lemma_trim_start_head(s: Seq<char>, c: char)
    ensures
        trim_start(s, c).len() == 0 || trim_start(s, c)[0] != c,
    decreases s.len(),
{
    if s.len() > 0 && s[0] == c {
        lemma_trim_start_head(s.drop_first(), c);
    }
}

/// The part of `s` that follows its leading run of `c`.
pub fn trim_start_char<'a>(s: &'a str, c: char) -> (r: &'a str)
    ensures
        r@ == trim_start(s@, c),
{
    let n: usize = s.unicode_len();
    let mut k: usize = 0;
    while k < n && s.get_char(k) == c
        invariant
            n == s@.len(),
            k <= n,
            forall|i: int| 0 <= i < k ==> s@[i] == c,
        decreases n - k,
    {
        k += 1;
    }
    proof {
        lemma_trim_start_skip(s@, c, k as int);
    }
    s.substring_char(k, n)
}

/// Whether `s` ends with `suffix`.
pub open spec fn ends_with(s: Seq<char>, suffix: Seq<char>) -> bool {
    suffix.len() <= s.len() && s.skip(s.len() - suffix.len()) == suffix
}

/// `s` without its trailing copies of `suffix`, however many there are.
/// An empty `suffix` trims nothing.
pub open spec fn trim_end(s: Seq<char>, suffix: Seq<char>) -> Seq<char>
    decreases s.len(),
{
    if suffix.len() > 0 && ends_with(s, suffix) {
        trim_end(s.take(s.len() - suffix.len()), suffix)
    } else {
        s
    }
}

/// What is left after trimming does not end with a non-empty `suffix`.
pub proof fn lemma_trim_end_tail(s: Seq<char>, suffix: Seq<char>)
    requires
        suffix.len() > 0,
    ensures
        !ends_with(trim_end(s, suffix), suffix),
    decreases s.len(),
{
    if ends_with(s, suffix) {
        lemma_trim_end_tail(s.take(s.len() - suffix.len()), suffix);
    }
}

/// Whether the first `end` characters of `s` end with `suffix`.
fn prefix_ends_with(s: &str, end: usize, suffix: &str) -> (b: bool)
    requires
        end <= s@.len(),
    ensures
        b == ends_with(s@.take(end as int), suffix@),
{
    let m: usize = suffix.unicode_len();
    if m > end {
        return false;
    }
    let start: usize = end - m;
    let ghost head = s@.take(end as int);
    let mut j: usize = 0;
    while j < m
        invariant
            m == suffix@.len(),
            start + m == end,
            end <= s@.len(),
            j <= m,
            head == s@.take(end as int),
            forall|i: int| 0 <= i < j ==> s@[start + i] == suffix@[i],
        decreases m - j,
    {
        if s.get_char(start + j) != suffix.get_char(j) {
            assert(head.skip(head.len() - suffix@.len())[j as int] == s@[start + j]);
            return false;
        }
        j += 1;
    }
    assert(head.skip(head.len() - suffix@.len()) =~= suffix@);
    true
}

/// Whether `s` ends with `suffix`.
pub fn ends_with_str(s: &str, suffix: &str) -> (b: bool)
    ensures
        b == ends_with(s@, suffix@),
{
    let n: usize = s.unicode_len();
    assert(s@.take(n as int) =~= s@);
    prefix_ends_with(s, n, suffix)
}

/// Whether `c` occurs in `s`.
pub fn holds_char(s: &str, c: char) -> (b: bool)
    ensures
        b == s@.contains(c),
{
    let n: usize = s.unicode_len();
    let mut k: usize = 0;
    while k < n
        invariant
            n == s@.len(),
            k <= n,
            forall|i: int| 0 <= i < k ==> s@[i] != c,
        decreases n - k,
    {
        if s.get_char(k) == c {
            return true;
        }
        k += 1;
    }
    false
}

/// The part of `s` that precedes its trailing copies of `suffix`.
pub fn trim_end_str<'a>(s: &'a str, suffix: &str) -> (r: &'a str)
    ensures
        r@ == trim_end(s@, suffix@),
{
    let m: usize = suffix.unicode_len();
    if m == 0 {
        return s;
    }
    let mut end: usize = s.unicode_len();
    assert(s@.take(end as int) =~= s@);
    while prefix_ends_with(s, end, suffix)
        invariant
            m == suffix@.len(),
            m > 0,
            end <= s@.len(),
            trim_end(s@, suffix@) == trim_end(s@.take(end as int), suffix@),
        decreases end,
    {
        assert(s@.take(end as int).take(end - m) =~= s@.take(end - m));
        end -= m;
    }
    s.substring_char(0, end)
}

/// `a` followed by `b`.
pub fn glue(a: &str, b: &str) -> (r: String)
    ensures
        r@ == a@ + b@,
{
    let mut r = String::from_str(a);
    r.append(b);
    r
}

} // verus!
