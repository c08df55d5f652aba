//! From a path segment to the directory that the clone is written to.

use crate::normalizer::{normalize, normalized};
use crate::text::{ends_with, glue, lemma_trim_end_tail, trim_end, trim_end_str};
use vstd::prelude::*;

verus! {

/// The base directory where the caller names none.
pub const DEFAULT_BASE_PATH: &'static str = "~/code";

/// The suffix that a target directory never carries.
pub const GIT_SUFFIX: &'static str = ".git";

/// `GIT_SUFFIX` as a sequence of characters.
pub open spec fn git_suffix() -> Seq<char> {
    seq!['.', 'g', 'i', 't']
}

/// Whether a path starts at the root.
pub open spec fn is_rooted(path: Seq<char>) -> bool {
    path.len() > 0 && path[0] == '/'
}

/// `component` adjoined to the path `base`. A rooted component replaces
/// `base`. Otherwise it follows `base`, after a separating `/` unless `base`
/// is empty or brings one.
pub open spec fn joined(base: Seq<char>, component: Seq<char>) -> Seq<char> {
    if is_rooted(component) {
        component
    } else if base.len() > 0 && base.last() != '/' {
        base + seq!['/'] + component
    } else {
        base + component
    }
}

/// The directory for a clone: `base`, then `category`, then `segment`
/// without its trailing `.git`, each adjoined to what precedes it.
pub open spec fn target_of(base: Seq<char>, category: Seq<char>, segment: Seq<char>) -> Seq<char> {
    joined(joined(base, category), trim_end(segment, git_suffix()))
}

/// Adjoins `component` to the path `base`.
pub fn join(base: &str, component: &str) -> (path: String)
    ensures
        path@ == joined(base@, component@),
{
    if component.unicode_len() > 0 && component.get_char(0) == '/' {
        return String::from_str(component);
    }
    let n: usize = base.unicode_len();
    if n > 0 && base.get_char(n - 1) != '/' {
        proof {
            reveal_strlit("/");
            assert("/"@ =~= seq!['/']);
        }
        let parent: String = glue(base, "/");
        glue(parent.as_str(), component)
    } else {
        glue(base, component)
    }
}

/// The directory for a clone of the repository behind `segment`, below
/// `base` and `category`. The segment loses its trailing `.git` before it is
/// adjoined. Nothing is looked up on disk and nothing is created.
pub fn build_target(base: &str, category: &str, segment: &str) -> (target: String)
    ensures
        target@ == target_of(base@, category@, segment@),
        !ends_with(target@, git_suffix()),
{
    proof {
        reveal_strlit(".git");
        assert(GIT_SUFFIX@ =~= git_suffix());
        lemma_target_has_no_git_suffix(base@, category@, segment@);
    }
    let group: String = join(base, category);
    join(group.as_str(), trim_end_str(segment, GIT_SUFFIX))
}

/// The directory for a clone of the repository that `reference` names:
/// the reference is normalized and the segment adjoined below `base` and
/// `category`.
pub fn clone_target(base: &str, category: &str, reference: &str) -> (target: String)
    ensures
        target@ == target_of(base@, category@, normalized(reference@)),
        !ends_with(target@, git_suffix()),
{
    let segment: String = normalize(reference);
    build_target(base, category, segment.as_str())
}

/// A target directory never ends in `.git`, whatever it is made of.
pub proof fn lemma_target_has_no_git_suffix(
    base: Seq<char>,
    category: Seq<char>,
    segment: Seq<char>,
)
    ensures
        !ends_with(target_of(base, category, segment), git_suffix()),
{
    let group = joined(base, category);
    let tail = trim_end(segment, git_suffix());
    let target = joined(group, tail);
    lemma_trim_end_tail(segment, git_suffix());
    if ends_with(target, git_suffix()) {
        let from = target.len() - 4;
        assert(forall|i: int| 0 <= i < 4 ==> target.skip(from)[i] == git_suffix()[i]);
        if is_rooted(tail) {
        } else if tail.len() >= 4 {
            assert(tail.skip(tail.len() - 4) =~= target.skip(from));
        } else {
            // A `/` stands right before `tail`, among the last four characters.
            let k = target.len() - tail.len() - 1;
            assert(target[k] == '/');
            assert(target.skip(from)[k - from] == target[k]);
        }
    }
}

} // verus!
