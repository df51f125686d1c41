//! Ignore patterns: the translation of a gitignore-style glob into an
//! anchored regular expression, and rules compiled from such expressions.
//!
//! Regular expressions are compiled and run by the `regex` crate. Its
//! behaviour is not modelled here: the two uninterpreted functions
//! [`regex_compiles`] and [`regex_is_match`] stand for what it computes, and
//! everything else in this module is proved relative to them.

use vstd::prelude::*;
use crate::text::{chars_of, string_of};

verus! {

/// Whether `Regex::new` of the `regex` crate accepts `pattern`.
pub uninterp spec fn regex_compiles(pattern: Seq<char>) -> bool;

/// Whether the regular expression compiled from `pattern` finds a match
/// anywhere in `text` (`Regex::is_match` of the `regex` crate). Meaningful
/// only where [`regex_compiles`] holds of `pattern`.
pub uninterp spec fn regex_is_match(pattern: Seq<char>, text: Seq<char>) -> bool;

/// Compiles `pattern` with `regex::Regex::new` and, where that succeeds,
/// searches `text` with `Regex::is_match`.
///
/// Trusted: the result is `None` exactly when compilation fails, and
/// otherwise holds the answer of `is_match`; both depend on nothing but the
/// two strings.
#[verifier::external_body]
fn regex_search(pattern: &str, text: &str) -> (r: Option<bool>)
    ensures
        r is Some <==> regex_compiles(pattern@),
        r matches Some(b) ==> b == regex_is_match(pattern@, text@),
{
    match regex::Regex::new(pattern) {
        Ok(re) => Some(re.is_match(text)),
        Err(_) => None,
    }
}

/// The characters of a glob that are regular-expression metacharacters and
/// are matched literally.
pub open spec fn is_escaped(c: char) -> bool {
    ||| c == '\\'
    ||| c == '.'
    ||| c == '+'
    ||| c == '('
    ||| c == ')'
    ||| c == '|'
    ||| c == '['
    ||| c == ']'
    ||| c == '{'
    ||| c == '}'
    ||| c == '^'
    ||| c == '$'
}

/// The regular expression for one character of a glob: `*` is any run of
/// characters, `?` any single character, every other character itself.
pub open spec fn translate_char(c: char) -> Seq<char> {
    if c == '*' {
        seq!['.', '*']
    } else if c == '?' {
        seq!['.']
    } else if is_escaped(c) {
        seq!['\\', c]
    } else {
        seq![c]
    }
}

/// The regular expression for a run of glob characters.
pub open spec fn translate(glob: Seq<char>) -> Seq<char>
    decreases glob.len(),
{
    if glob.len() == 0 {
        Seq::empty()
    } else {
        translate(glob.drop_last()) + translate_char(glob.last())
    }
}

/// The part of a glob that is matched: a leading `!` and then a trailing
/// `/` are dropped. Neither changes what the rule does: a pattern marked
/// with `!` hides what it matches like any other pattern, it does not
/// bring back what another pattern hides, and a pattern marked with `/`
/// matches files as well as directories.
pub open spec fn glob_core(glob: Seq<char>) -> Seq<char> {
    let positive = if glob.len() > 0 && glob.first() == '!' {
        glob.drop_first()
    } else {
        glob
    };
    if positive.len() > 0 && positive.last() == '/' {
        positive.drop_last()
    } else {
        positive
    }
}

/// The anchored regular expression that a glob stands for.
pub open spec fn glob_regex(glob: Seq<char>) -> Seq<char> {
    seq!['^'] + translate(glob_core(glob)) + seq!['$']
}

/// Whether `rule`, a regular expression, hides an entry with this bare name
/// and this path relative to the root of the walk.
pub open spec fn rule_excludes(rule: Seq<char>, name: Seq<char>, rel_path: Seq<char>) -> bool {
    regex_is_match(rule, name) || regex_is_match(rule, rel_path)
}

/// Whether any of `rules` hides the entry. The rules have no order of
/// precedence and none of them un-hides.
pub open spec fn ignored(rules: Seq<Seq<char>>, name: Seq<char>, rel_path: Seq<char>) -> bool {
    exists|i: int| 0 <= i < rules.len() && rule_excludes(#[trigger] rules[i], name, rel_path)
}

/// The regular expressions of a list of rules.
pub open spec fn sources(rules: Seq<IgnoreRule>) -> Seq<Seq<char>> {
    rules.map_values(|r: IgnoreRule| r@)
}

/// Decides [`is_escaped`].
pub fn char_is_escaped(c: char) -> (r: bool)
    ensures
        r == is_escaped(c),
{
    c == '\\' || c == '.' || c == '+' || c == '(' || c == ')' || c == '|' || c == '[' || c == ']'
        || c == '{' || c == '}' || c == '^' || c == '$'
}

/// Translates a gitignore-style glob into the regular expression that
/// matches exactly the names the glob matches, in full.
pub fn glob_to_regex(glob: &str) -> (regex: String)
    ensures
        regex@ == glob_regex(glob@),
{
    let g = chars_of(glob);
    let mut from: usize = 0;
    let mut to: usize = g.len();
    if from < to && g[from] == '!' {
        from = 1;
    }
    if from < to && g[to - 1] == '/' {
        to = to - 1;
    }
    let ghost core = g@.subrange(from as int, to as int);
    assert(core == glob_core(glob@));
    let mut out: Vec<char> = Vec::new();
    out.push('^');
    let mut i: usize = from;
    assert(core.take(0) == Seq::<char>::empty());
    while i < to
        invariant
            from <= i <= to <= g.len(),
            core == g@.subrange(from as int, to as int),
            out@ == seq!['^'] + translate(core.take(i - from)),
        decreases to - i,
    {
        let c = g[i];
        proof {
            assert(core.take(i + 1 - from).drop_last() == core.take(i - from));
            assert(core.take(i + 1 - from).last() == c);
        }
        if c == '*' {
            out.push('.');
            out.push('*');
        } else if c == '?' {
            out.push('.');
        } else if char_is_escaped(c) {
            out.push('\\');
            out.push(c);
        } else {
            out.push(c);
        }
        assert(out@ == seq!['^'] + translate(core.take(i + 1 - from)));
        i += 1;
    }
    assert(core.take(to - from) == core);
    out.push('$');
    string_of(&out)
}

/// A pattern that the regular-expression engine refused.
#[derive(Debug)]
pub struct CompileError {
    /// The pattern as it was given.
    pub pattern: String,
}

/// A compiled ignore rule: a regular expression that the engine accepts.
/// Its view is the text of that expression.
#[derive(Debug)]
pub struct IgnoreRule {
    source: String,
}

impl View for IgnoreRule {
    type V = Seq<char>;

    closed spec fn view(&self) -> Seq<char> {
        self.source@
    }
}

impl IgnoreRule {
    #[verifier::type_invariant]
    spec fn compiled(&self) -> bool {
        regex_compiles(self.source@)
    }

    /// Compiles a regular expression into a rule. Fails exactly when the
    /// engine refuses the expression.
    pub fn from_regex(source: &str) -> (r: Result<IgnoreRule, CompileError>)
        ensures
            r is Ok <==> regex_compiles(source@),
            r matches Ok(rule) ==> rule@ == source@,
            r matches Err(e) ==> e.pattern@ == source@,
    {
        match regex_search(source, "") {
            Some(_) => Ok(IgnoreRule { source: source.to_owned() }),
            None => Err(CompileError { pattern: source.to_owned() }),
        }
    }

    /// Compiles a gitignore-style glob into a rule. Fails exactly when the
    /// engine refuses the translation of the glob.
    pub fn compile(pattern: &str) -> (r: Result<IgnoreRule, CompileError>)
        ensures
            r is Ok <==> regex_compiles(glob_regex(pattern@)),
            r matches Ok(rule) ==> rule@ == glob_regex(pattern@),
            r matches Err(e) ==> e.pattern@ == pattern@,
    {
        let source = glob_to_regex(pattern);
        match IgnoreRule::from_regex(source.as_str()) {
            Ok(rule) => Ok(rule),
            Err(_) => Err(CompileError { pattern: pattern.to_owned() }),
        }
    }

    /// The text of the rule's regular expression.
    pub fn as_str(&self) -> (s: &str)
        ensures
            s@ == self@,
    {
        self.source.as_str()
    }

    /// Whether the rule's expression finds a match in `text`.
    pub fn is_match(&self, text: &str) -> (b: bool)
        ensures
            b == regex_is_match(self@, text@),
    {
        proof {
            use_type_invariant(self);
        }
        match regex_search(self.source.as_str(), text) {
            Some(b) => b,
            None => false,
        }
    }

    /// Whether the rule hides an entry, given its bare name and its path
    /// relative to the root of the walk.
    pub fn excludes(&self, name: &str, rel_path: &str) -> (b: bool)
        ensures
            b == rule_excludes(self@, name@, rel_path@),
    {
        self.is_match(name) || self.is_match(rel_path)
    }

    /// A copy of the rule.
    pub fn duplicate(&self) -> (copy: IgnoreRule)
        ensures
            copy@ == self@,
    {
        proof {
            use_type_invariant(self);
        }
        IgnoreRule { source: self.source.clone() }
    }
}

/// Whether any rule of `rules` hides the entry.
pub fn is_ignored(rules: &Vec<IgnoreRule>, name: &str, rel_path: &str) -> (b: bool)
    ensures
        b == ignored(sources(rules@), name@, rel_path@),
{
    let mut i: usize = 0;
    while i < rules.len()
        invariant
            i <= rules.len(),
            forall|j: int| 0 <= j < i ==> !rule_excludes(#[trigger] sources(rules@)[j], name@, rel_path@),
        decreases rules.len() - i,
    {
        if rules[i].excludes(name, rel_path) {
            assert(rule_excludes(sources(rules@)[i as int], name@, rel_path@));
            return true;
        }
        i += 1;
    }
    false
}

} // verus!
