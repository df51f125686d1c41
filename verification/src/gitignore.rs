//! Discovery of a repository's ignore rules.
//!
//! The host reports, for the directory a walk starts in and for each of
//! its parents in turn, whether it holds a `.git` directory and what
//! became of reading its `.gitignore`. The nearest directory with either
//! is the repository root, and the rules are those of its `.gitignore`.

use vstd::prelude::*;
use crate::pattern::{glob_regex, regex_compiles, sources, IgnoreRule};
use crate::show_file::FileReadError;
use crate::text::{chars_of, split_chars, split_on, string_of, trim, trim_chars, views};

verus! {

/// What the host found of a directory's `.gitignore`.
#[derive(Debug, Clone)]
pub enum GitignoreFile {
    /// There is none.
    Absent,
    /// It was read; this is its content.
    Content(String),
    /// It exists, but reading it failed; the text says how.
    Unreadable(String),
}

/// What the host found in one directory on the way up from the start of a
/// walk.
#[derive(Debug, Clone)]
pub struct Ancestor {
    /// Whether the directory holds a directory named `.git`.
    pub has_git_dir: bool,
    /// The directory's `.gitignore`.
    pub gitignore: GitignoreFile,
}

impl Ancestor {
    /// Whether the directory looks like the root of a repository, so that
    /// a search for the root need not go above it.
    pub fn is_root(&self) -> (b: bool)
        ensures
            b == marks_root(*self),
    {
        let absent = match self.gitignore {
            GitignoreFile::Absent => true,
            _ => false,
        };
        self.has_git_dir || !absent
    }
}

/// Whether a directory looks like the root of a repository: it holds a
/// `.git` directory or a `.gitignore`.
pub open spec fn marks_root(a: Ancestor) -> bool {
    a.has_git_dir || !(a.gitignore is Absent)
}

/// The index of the first directory of `ancestors` that looks like a
/// repository root, if any does.
pub open spec fn repo_root(ancestors: Seq<Ancestor>) -> Option<int>
    decreases ancestors.len(),
{
    if ancestors.len() == 0 {
        None
    } else {
        match repo_root(ancestors.drop_last()) {
            Some(i) => Some(i),
            None => if marks_root(ancestors.last()) {
                Some(ancestors.len() - 1)
            } else {
                None
            },
        }
    }
}

/// [`repo_root`] is the least index of a directory that looks like a root,
/// and there is none exactly when no directory does.
pub proof fn lemma_repo_root_is_nearest(ancestors: Seq<Ancestor>)
    ensures
        match repo_root(ancestors) {
            Some(i) => {
                &&& 0 <= i < ancestors.len()
                &&& marks_root(ancestors[i])
                &&& forall|j: int| 0 <= j < i ==> !marks_root(#[trigger] ancestors[j])
            },
            None => forall|j: int| 0 <= j < ancestors.len() ==> !marks_root(#[trigger] ancestors[j]),
        },
    decreases ancestors.len(),
{
    if ancestors.len() > 0 {
        lemma_repo_root_is_nearest(ancestors.drop_last());
        assert forall|j: int| 0 <= j < ancestors.len() - 1 implies ancestors[j]
            == ancestors.drop_last()[j] by {}
    }
}

/// The rule that one line of a `.gitignore` stands for: none for a blank
/// line, a comment (a line whose first character after trimming is `#`) or
/// a pattern that the engine refuses, else the regular expression of the
/// trimmed line.
pub open spec fn line_rule(line: Seq<char>) -> Option<Seq<char>> {
    let pattern = trim(line);
    if pattern.len() == 0 || pattern.first() == '#' {
        None
    } else if regex_compiles(glob_regex(pattern)) {
        Some(glob_regex(pattern))
    } else {
        None
    }
}

/// The rules of a list of lines, in the order of the lines.
pub open spec fn rules_of_lines(lines: Seq<Seq<char>>) -> Seq<Seq<char>>
    decreases lines.len(),
{
    if lines.len() == 0 {
        Seq::empty()
    } else {
        let before = rules_of_lines(lines.drop_last());
        match line_rule(lines.last()) {
            Some(rule) => before.push(rule),
            None => before,
        }
    }
}

/// The rules of a `.gitignore` with this content, in file order.
pub open spec fn gitignore_rules(content: Seq<char>) -> Seq<Seq<char>> {
    rules_of_lines(split_on(content, '\n', '\n'))
}

/// The pattern of a line of a `.gitignore` that the engine refuses: the
/// trimmed line, if it is a pattern and its translation does not compile.
pub open spec fn line_refusal(line: Seq<char>) -> Option<Seq<char>> {
    let pattern = trim(line);
    if pattern.len() == 0 || pattern.first() == '#' {
        None
    } else if regex_compiles(glob_regex(pattern)) {
        None
    } else {
        Some(pattern)
    }
}

/// The refused patterns of a list of lines, in the order of the lines.
pub open spec fn refusals_of_lines(lines: Seq<Seq<char>>) -> Seq<Seq<char>>
    decreases lines.len(),
{
    if lines.len() == 0 {
        Seq::empty()
    } else {
        let before = refusals_of_lines(lines.drop_last());
        match line_refusal(lines.last()) {
            Some(pattern) => before.push(pattern),
            None => before,
        }
    }
}

/// The patterns of a `.gitignore` with this content that give no rule
/// because the engine refuses them, in file order.
pub open spec fn gitignore_refusals(content: Seq<char>) -> Seq<Seq<char>> {
    refusals_of_lines(split_on(content, '\n', '\n'))
}

/// The refused patterns of the repository root's `.gitignore`, if there is
/// a root and its `.gitignore` was read.
pub open spec fn discovered_refusals(ancestors: Seq<Ancestor>) -> Seq<Seq<char>> {
    match repo_root(ancestors) {
        None => Seq::empty(),
        Some(i) => match ancestors[i].gitignore {
            GitignoreFile::Content(text) => gitignore_refusals(text@),
            _ => Seq::empty(),
        },
    }
}

/// The strings of a list as their views.
pub open spec fn pattern_texts(v: Seq<String>) -> Seq<Seq<char>> {
    v.map_values(|s: String| s@)
}

/// Nothing above the repository root counts: the directories up to and
/// including the root give the same root, the same rules and the same
/// refused patterns as the whole list.
pub proof fn lemma_nothing_above_the_root_counts(ancestors: Seq<Ancestor>, n: int)
    requires
        0 <= n <= ancestors.len(),
        repo_root(ancestors) matches Some(i) && i < n,
    ensures
        repo_root(ancestors.take(n)) == repo_root(ancestors),
        discovered_rules(ancestors.take(n)) == discovered_rules(ancestors),
        discovered_refusals(ancestors.take(n)) == discovered_refusals(ancestors),
{
    let head = ancestors.take(n);
    lemma_repo_root_is_nearest(ancestors);
    lemma_repo_root_is_nearest(head);
    let i = repo_root(ancestors)->0;
    assert(head[i] == ancestors[i]);
    match repo_root(head) {
        Some(k) => {
            assert(head[k] == ancestors[k]);
            if k < i {
                assert(!marks_root(ancestors[k]));
            }
            if i < k {
                assert(!marks_root(head[i]));
            }
        },
        None => {
            assert(!marks_root(head[i]));
        },
    }
}

/// The rules found from these directories: those of the repository root's
/// `.gitignore`. Without a root, or without a `.gitignore` in it, there are
/// none; a `.gitignore` that could not be read is an error with its cause.
pub open spec fn discovered_rules(ancestors: Seq<Ancestor>) -> Result<Seq<Seq<char>>, Seq<char>> {
    match repo_root(ancestors) {
        None => Ok(Seq::empty()),
        Some(i) => match ancestors[i].gitignore {
            GitignoreFile::Absent => Ok(Seq::empty()),
            GitignoreFile::Content(text) => Ok(gitignore_rules(text@)),
            GitignoreFile::Unreadable(cause) => Err(cause@),
        },
    }
}

/// Finds the repository root among the directories from the start of a
/// walk upwards: the index of the nearest one that holds a `.git`
/// directory or a `.gitignore`, or `None` when the search reaches the top
/// without finding one.
pub fn find_repo_root(ancestors: &Vec<Ancestor>) -> (root: Option<usize>)
    ensures
        match root {
            Some(i) => {
                &&& i < ancestors.len()
                &&& marks_root(ancestors[i as int])
                &&& forall|j: int| 0 <= j < i ==> !marks_root(#[trigger] ancestors[j])
                &&& repo_root(ancestors@) == Some(i as int)
            },
            None => {
                &&& forall|j: int| 0 <= j < ancestors.len() ==> !marks_root(#[trigger] ancestors[j])
                &&& repo_root(ancestors@) is None
            },
        },
{
    let mut i: usize = 0;
    while i < ancestors.len()
        invariant
            i <= ancestors.len(),
            forall|j: int| 0 <= j < i ==> !marks_root(#[trigger] ancestors[j]),
        decreases ancestors.len() - i,
    {
        if ancestors[i].is_root() {
            assert(marks_root(ancestors@[i as int]));
            assert(repo_root(ancestors@) == Some(i as int)) by {
                lemma_repo_root_is_nearest(ancestors@);
                if let Some(k) = repo_root(ancestors@) {
                    if k < i {
                        assert(!marks_root(ancestors@[k]));
                    }
                }
            }
            return Some(i);
        }
        assert(!marks_root(ancestors@[i as int]));
        i += 1;
    }
    assert(repo_root(ancestors@) is None) by {
        lemma_repo_root_is_nearest(ancestors@);
        if let Some(k) = repo_root(ancestors@) {
            assert(!marks_root(ancestors@[k]));
        }
    }
    None
}

/// Parses the content of a `.gitignore` into rules, in file order. Blank
/// lines and comments give no rule, and neither does a pattern that the
/// engine refuses: it is left out and the rest still counts. The patterns
/// left out are what [`refused_patterns`] returns.
pub fn parse_gitignore(content: &str) -> (rules: Vec<IgnoreRule>)
    ensures
        sources(rules@) == gitignore_rules(content@),
{
    let chars = chars_of(content);
    let lines = split_chars(&chars, '\n', '\n');
    let mut rules: Vec<IgnoreRule> = Vec::new();
    let mut i: usize = 0;
    assert(views(lines@).take(0) == Seq::<Seq<char>>::empty());
    assert(sources(rules@) == Seq::<Seq<char>>::empty());
    while i < lines.len()
        invariant
            i <= lines.len(),
            sources(rules@) == rules_of_lines(views(lines@).take(i as int)),
        decreases lines.len() - i,
    {
        let pattern = trim_chars(&lines[i]);
        proof {
            assert(views(lines@).take(i + 1).drop_last() == views(lines@).take(i as int));
            assert(views(lines@).take(i + 1).last() == lines[i as int]@);
        }
        if pattern.len() > 0 && pattern[0] != '#' {
            let glob = string_of(&pattern);
            match IgnoreRule::compile(glob.as_str()) {
                Ok(rule) => {
                    let ghost before = rules@;
                    rules.push(rule);
                    assert(sources(rules@) == sources(before).push(rule@));
                },
                Err(_) => {},
            }
        }
        i += 1;
    }
    assert(views(lines@).take(lines.len() as int) == views(lines@));
    rules
}

/// The patterns of a `.gitignore` that [`parse_gitignore`] leaves out
/// because the engine refuses them, trimmed, in file order. A host that
/// wants to tell its user of them finds them here.
pub fn refused_patterns(content: &str) -> (refused: Vec<String>)
    ensures
        pattern_texts(refused@) == gitignore_refusals(content@),
{
    let chars = chars_of(content);
    let lines = split_chars(&chars, '\n', '\n');
    let mut refused: Vec<String> = Vec::new();
    let mut i: usize = 0;
    assert(views(lines@).take(0) == Seq::<Seq<char>>::empty());
    assert(pattern_texts(refused@) == Seq::<Seq<char>>::empty());
    while i < lines.len()
        invariant
            i <= lines.len(),
            pattern_texts(refused@) == refusals_of_lines(views(lines@).take(i as int)),
        decreases lines.len() - i,
    {
        let pattern = trim_chars(&lines[i]);
        proof {
            assert(views(lines@).take(i + 1).drop_last() == views(lines@).take(i as int));
            assert(views(lines@).take(i + 1).last() == lines[i as int]@);
        }
        if pattern.len() > 0 && pattern[0] != '#' {
            let glob = string_of(&pattern);
            match IgnoreRule::compile(glob.as_str()) {
                Ok(_) => {},
                Err(_) => {
                    let ghost before = refused@;
                    refused.push(glob);
                    assert(pattern_texts(refused@) == pattern_texts(before).push(pattern@));
                },
            }
        }
        i += 1;
    }
    assert(views(lines@).take(lines.len() as int) == views(lines@));
    refused
}

/// The patterns that [`find_gitignore_patterns`] leaves out because the
/// engine refuses them: those of the repository root's `.gitignore`.
pub fn find_refused_patterns(ancestors: &Vec<Ancestor>) -> (refused: Vec<String>)
    ensures
        pattern_texts(refused@) == discovered_refusals(ancestors@),
{
    let none: Vec<String> = Vec::new();
    assert(pattern_texts(none@) == Seq::<Seq<char>>::empty());
    match find_repo_root(ancestors) {
        None => none,
        Some(i) => match &ancestors[i].gitignore {
            GitignoreFile::Content(text) => refused_patterns(text.as_str()),
            _ => none,
        },
    }
}

/// Collects the ignore rules for a walk from what the host found in the
/// directories from its start upwards.
pub fn find_gitignore_patterns(ancestors: &Vec<Ancestor>) -> (r: Result<
    Vec<IgnoreRule>,
    FileReadError,
>)
    ensures
        match discovered_rules(ancestors@) {
            Ok(found) => r matches Ok(rules) && sources(rules@) == found,
            Err(cause) => r matches Err(FileReadError::Io(text)) && text@ == cause,
        },
        (forall|j: int| 0 <= j < ancestors.len() ==> !marks_root(#[trigger] ancestors[j])) ==> (r matches Ok(
            rules,
        ) && rules.len() == 0),
{
    proof {
        lemma_repo_root_is_nearest(ancestors@);
    }
    match find_repo_root(ancestors) {
        None => {
            let rules: Vec<IgnoreRule> = Vec::new();
            assert(sources(rules@) == Seq::<Seq<char>>::empty());
            Ok(rules)
        },
        Some(i) => match &ancestors[i].gitignore {
            GitignoreFile::Absent => {
                let rules: Vec<IgnoreRule> = Vec::new();
                assert(sources(rules@) == Seq::<Seq<char>>::empty());
                Ok(rules)
            },
            GitignoreFile::Content(text) => Ok(parse_gitignore(text.as_str())),
            GitignoreFile::Unreadable(cause) => Err(FileReadError::Io(cause.clone())),
        },
    }
}

} // verus!
