//! The directory tree renderer.
//!
//! A directory is modelled by the list of its entries, each with its name,
//! its kind and, for a directory, its own entries. Rendering hides what the
//! ignore rules match, orders each level by name and draws one line per
//! entry, nested levels indented under the entry they belong to.

use vstd::prelude::*;
use vstd::string::StringExecFns;
use crate::gitignore::{discovered_rules, find_gitignore_patterns, Ancestor};
use crate::pattern::{ignored, is_ignored, sources, IgnoreRule};
use crate::show_file::FileReadError;
use crate::text::chars_of;

verus! {

/// One entry of a directory. `children` is what the entry holds when it is
/// a directory; it is not looked at otherwise.
#[derive(Debug)]
pub struct DirEntry {
    pub name: String,
    pub is_dir: bool,
    pub children: Vec<DirEntry>,
}

impl DirEntry {
    /// An entry that is a file.
    pub fn file(name: &str) -> (entry: DirEntry)
        ensures
            entry.name@ == name@,
            !entry.is_dir,
            entry.children@.len() == 0,
    {
        DirEntry { name: name.to_owned(), is_dir: false, children: Vec::new() }
    }

    /// An entry that is a directory holding `children`.
    pub fn dir(name: &str, children: Vec<DirEntry>) -> (entry: DirEntry)
        ensures
            entry.name@ == name@,
            entry.is_dir,
            entry.children == children,
    {
        DirEntry { name: name.to_owned(), is_dir: true, children }
    }
}

/// `a` is `b` or comes before it in lexicographic order, characters
/// compared by code point.
pub open spec fn name_le(a: Seq<char>, b: Seq<char>) -> bool
    decreases a.len(),
{
    if a.len() == 0 {
        true
    } else if b.len() == 0 {
        false
    } else if a.first() == b.first() {
        name_le(a.drop_first(), b.drop_first())
    } else {
        (a.first() as u32) < (b.first() as u32)
    }
}

/// The path of an entry relative to the root of the walk, given that of its
/// directory: empty for the root itself, and ending in `/` otherwise.
pub open spec fn rel_path(rel_dir: Seq<char>, name: Seq<char>) -> Seq<char> {
    rel_dir + name
}

/// The relative path of a directory entry, as its own entries see it.
pub open spec fn child_dir(rel_dir: Seq<char>, name: Seq<char>) -> Seq<char> {
    rel_dir + name + seq!['/']
}

/// Whether the entry at index `i` is shown, that is, no rule hides it.
pub open spec fn shown(
    entries: Seq<DirEntry>,
    rel_dir: Seq<char>,
    rules: Seq<Seq<char>>,
    i: int,
) -> bool {
    !ignored(rules, entries[i].name@, rel_path(rel_dir, entries[i].name@))
}

/// For each entry of a directory, whether a rule hides it.
pub open spec fn hidden(entries: Seq<DirEntry>, rel_dir: Seq<char>, rules: Seq<Seq<char>>) -> Seq<
    bool,
> {
    Seq::new(entries.len(), |i: int| !shown(entries, rel_dir, rules, i))
}

/// Whether index `i` is shown by a list of flags that mark what is hidden.
/// What the list does not reach is shown.
pub open spec fn unmarked(flags: Seq<bool>, i: int) -> bool {
    !(0 <= i < flags.len() && flags[i])
}

/// The indices below `n` that the flags do not mark, ascending.
pub open spec fn shown_below(flags: Seq<bool>, n: nat) -> Seq<int>
    decreases n,
{
    if n == 0 {
        Seq::empty()
    } else {
        let before = shown_below(flags, (n - 1) as nat);
        if unmarked(flags, n - 1) {
            before.push(n - 1)
        } else {
            before
        }
    }
}

/// `sorted` with index `i` put behind the last index whose entry's name is
/// not greater than that of entry `i`.
pub open spec fn insert_by_name(entries: Seq<DirEntry>, sorted: Seq<int>, i: int) -> Seq<int>
    decreases sorted.len(),
{
    if sorted.len() == 0 {
        seq![i]
    } else if name_le(entries[sorted.last()].name@, entries[i].name@) {
        sorted.push(i)
    } else {
        insert_by_name(entries, sorted.drop_last(), i).push(sorted.last())
    }
}

/// The indices `idx` ordered by the names of their entries; indices whose
/// entries have the same name keep their order.
pub open spec fn sort_by_name(entries: Seq<DirEntry>, idx: Seq<int>) -> Seq<int>
    decreases idx.len(),
{
    if idx.len() == 0 {
        Seq::empty()
    } else {
        insert_by_name(entries, sort_by_name(entries, idx.drop_last()), idx.last())
    }
}

/// The order in which entries are drawn, given which of them are hidden:
/// the others, by name.
pub open spec fn drawing_order(entries: Seq<DirEntry>, flags: Seq<bool>) -> Seq<int> {
    sort_by_name(entries, shown_below(flags, entries.len()))
}

/// The order in which a directory's entries are drawn: the ones that no
/// rule hides, by name.
pub open spec fn listing(entries: Seq<DirEntry>, rel_dir: Seq<char>, rules: Seq<Seq<char>>) -> Seq<
    int,
> {
    drawing_order(entries, hidden(entries, rel_dir, rules))
}

/// A list of machine indices as mathematical integers.
pub open spec fn as_ints(v: Seq<usize>) -> Seq<int> {
    v.map_values(|j: usize| j as int)
}

/// Where [`insert_by_name`] puts the new index: behind position `p - 1`,
/// when every later index names a greater entry and the one at `p - 1`
/// does not.
proof fn lemma_insert_position(entries: Seq<DirEntry>, sorted: Seq<int>, i: int, p: int)
    requires
        0 <= p <= sorted.len(),
        forall|k: int|
            p <= k < sorted.len() ==> !name_le(
                entries[#[trigger] sorted[k]].name@,
                entries[i].name@,
            ),
        p > 0 ==> name_le(entries[sorted[p - 1]].name@, entries[i].name@),
    ensures
        insert_by_name(entries, sorted, i) == sorted.insert(p, i),
    decreases sorted.len(),
{
    if sorted.len() == 0 {
        assert(sorted.insert(p, i) == seq![i]);
    } else if p == sorted.len() {
        assert(sorted.insert(p, i) == sorted.push(i));
    } else {
        assert(!name_le(entries[sorted[sorted.len() - 1]].name@, entries[i].name@));
        lemma_insert_position(entries, sorted.drop_last(), i, p);
        assert(sorted.drop_last().insert(p, i).push(sorted.last()) == sorted.insert(p, i));
    }
}

/// Decides [`name_le`].
pub fn name_le_chars(a: &Vec<char>, b: &Vec<char>) -> (r: bool)
    ensures
        r == name_le(a@, b@),
{
    let mut i: usize = 0;
    assert(a@.skip(0) == a@ && b@.skip(0) == b@);
    while i < a.len() && i < b.len() && a[i] == b[i]
        invariant
            i <= a.len(),
            i <= b.len(),
            name_le(a@, b@) == name_le(a@.skip(i as int), b@.skip(i as int)),
        decreases a.len() - i,
    {
        assert(a@.skip(i as int).drop_first() == a@.skip(i + 1));
        assert(b@.skip(i as int).drop_first() == b@.skip(i + 1));
        i += 1;
    }
    if i == a.len() {
        true
    } else if i == b.len() {
        false
    } else {
        let x: u32 = a[i] as u32;
        let y: u32 = b[i] as u32;
        x < y
    }
}

/// Computes [`hidden`]: asks the rules about every entry of a directory.
pub fn hidden_entries(entries: &Vec<DirEntry>, rel_dir: &str, rules: &Vec<IgnoreRule>) -> (flags:
    Vec<bool>)
    ensures
        flags@ == hidden(entries@, rel_dir@, sources(rules@)),
{
    let mut flags: Vec<bool> = Vec::new();
    let mut i: usize = 0;
    while i < entries.len()
        invariant
            i <= entries.len(),
            flags.len() == i,
            forall|j: int|
                0 <= j < i ==> #[trigger] flags[j] == !shown(entries@, rel_dir@, sources(rules@), j),
        decreases entries.len() - i,
    {
        let mut path = rel_dir.to_owned();
        path.append(entries[i].name.as_str());
        flags.push(is_ignored(rules, entries[i].name.as_str(), path.as_str()));
        i += 1;
    }
    assert(flags@ =~= hidden(entries@, rel_dir@, sources(rules@)));
    flags
}

/// Computes [`drawing_order`]: the indices of the entries that `flags`
/// does not mark as hidden, ordered by the names of the entries.
pub fn order_entries(entries: &Vec<DirEntry>, flags: &Vec<bool>) -> (order: Vec<usize>)
    ensures
        as_ints(order@) == drawing_order(entries@, flags@),
        forall|k: int| 0 <= k < order.len() ==> #[trigger] order[k] < entries.len(),
{
    let mut names: Vec<Vec<char>> = Vec::new();
    let mut order: Vec<usize> = Vec::new();
    let mut i: usize = 0;
    while i < entries.len()
        invariant
            i <= entries.len(),
            names.len() == i,
            forall|j: int| 0 <= j < i ==> (#[trigger] names[j])@ == entries[j].name@,
            forall|k: int| 0 <= k < order.len() ==> #[trigger] order[k] < i,
            as_ints(order@) == sort_by_name(entries@, shown_below(flags@, i as nat)),
        decreases entries.len() - i,
    {
        let name = chars_of(entries[i].name.as_str());
        let marked = i < flags.len() && flags[i];
        proof {
            let idx = shown_below(flags@, (i + 1) as nat);
            if !marked {
                assert(idx.drop_last() == shown_below(flags@, i as nat));
            }
        }
        if !marked {
            let mut p: usize = order.len();
            while p > 0 && !name_le_chars(&names[order[p - 1]], &name)
                invariant
                    p <= order.len(),
                    i < entries.len(),
                    names.len() == i,
                    name@ == entries[i as int].name@,
                    forall|j: int| 0 <= j < i ==> (#[trigger] names[j])@ == entries[j].name@,
                    forall|k: int| 0 <= k < order.len() ==> #[trigger] order[k] < i,
                    forall|k: int|
                        p <= k < order.len() ==> !name_le(
                            entries[#[trigger] as_ints(order@)[k]].name@,
                            entries[i as int].name@,
                        ),
                decreases p,
            {
                p -= 1;
            }
            proof {
                lemma_insert_position(entries@, as_ints(order@), i as int, p as int);
                assert(as_ints(order@.insert(p as int, i)) == as_ints(order@).insert(
                    p as int,
                    i as int,
                ));
            }
            order.insert(p, i);
        }
        names.push(name);
        i += 1;
    }
    order
}

/// Computes [`listing`]: the indices of the entries to draw, in drawing
/// order.
pub fn listing_order(entries: &Vec<DirEntry>, rel_dir: &str, rules: &Vec<IgnoreRule>) -> (order:
    Vec<usize>)
    ensures
        as_ints(order@) == listing(entries@, rel_dir@, sources(rules@)),
        forall|k: int| 0 <= k < order.len() ==> #[trigger] order[k] < entries.len(),
{
    let flags = hidden_entries(entries, rel_dir, rules);
    order_entries(entries, &flags)
}

/// What is drawn in front of an entry's name: a corner for the last entry
/// of its directory, a tee for the others.
pub open spec fn connector(last: bool) -> Seq<char> {
    if last {
        seq!['└', '─', '─', ' ']
    } else {
        seq!['├', '─', '─', ' ']
    }
}

/// What the lines below a directory entry get in addition to its own
/// prefix: blanks under a last entry, a bar under the others.
pub open spec fn indent(last: bool) -> Seq<char> {
    if last {
        seq![' ', ' ', ' ', ' ']
    } else {
        seq!['│', ' ', ' ', ' ']
    }
}

/// The depth that is left one level down. No limit stays no limit.
pub open spec fn deeper(depth: Option<nat>) -> Option<nat> {
    match depth {
        Some(d) => Some((d - 1) as nat),
        None => None,
    }
}

/// A depth limit as a mathematical value.
pub open spec fn depth_model(depth: Option<usize>) -> Option<nat> {
    match depth {
        Some(d) => Some(d as nat),
        None => None,
    }
}

/// The lines of the tree below a directory with these entries, top to
/// bottom, each without its line break. A depth of zero draws nothing.
pub open spec fn tree_lines(
    entries: Seq<DirEntry>,
    prefix: Seq<char>,
    rel_dir: Seq<char>,
    rules: Seq<Seq<char>>,
    depth: Option<nat>,
) -> Seq<Seq<char>>
    decreases entries, 1nat, 0nat,
{
    if depth == Some(0nat) {
        Seq::empty()
    } else {
        lines_from(entries, listing(entries, rel_dir, rules), 0, prefix, rel_dir, rules, depth)
    }
}

/// The lines for the entries at positions `k` and later of the drawing
/// order `order`: for each its own line and then, if it is a directory, the
/// lines of what it holds, one level deeper.
pub open spec fn lines_from(
    entries: Seq<DirEntry>,
    order: Seq<int>,
    k: int,
    prefix: Seq<char>,
    rel_dir: Seq<char>,
    rules: Seq<Seq<char>>,
    depth: Option<nat>,
) -> Seq<Seq<char>>
    decreases entries, 0nat, order.len() - k,
{
    if k < 0 || k >= order.len() {
        Seq::empty()
    } else {
        let j = order[k];
        let last = k == order.len() - 1;
        let entry = entries[j];
        let nested = if 0 <= j < entries.len() && entry.is_dir {
            tree_lines(
                entry.children@,
                prefix + indent(last),
                child_dir(rel_dir, entry.name@),
                rules,
                deeper(depth),
            )
        } else {
            Seq::empty()
        };
        seq![prefix + connector(last) + entry.name@] + nested + lines_from(
            entries,
            order,
            k + 1,
            prefix,
            rel_dir,
            rules,
            depth,
        )
    }
}

/// The text of a list of lines: each line followed by a line break.
pub open spec fn join_lines(lines: Seq<Seq<char>>) -> Seq<char>
    decreases lines.len(),
{
    if lines.len() == 0 {
        Seq::empty()
    } else {
        join_lines(lines.drop_last()) + lines.last() + seq!['\n']
    }
}

/// The rendering of a directory: the text of its [`tree_lines`].
pub open spec fn render(
    entries: Seq<DirEntry>,
    prefix: Seq<char>,
    rel_dir: Seq<char>,
    rules: Seq<Seq<char>>,
    depth: Option<nat>,
) -> Seq<char> {
    join_lines(tree_lines(entries, prefix, rel_dir, rules, depth))
}

/// The text of two lists of lines, one after the other, is the text of the
/// first followed by the text of the second.
pub proof fn lemma_join_lines_concat(a: Seq<Seq<char>>, b: Seq<Seq<char>>)
    ensures
        join_lines(a + b) == join_lines(a) + join_lines(b),
    decreases b.len(),
{
    if b.len() == 0 {
        assert(a + b == a);
    } else {
        lemma_join_lines_concat(a, b.drop_last());
        assert((a + b).drop_last() == a + b.drop_last());
        assert((a + b).last() == b.last());
    }
}

pub(crate) fn connector_str(last: bool) -> (s: &'static str)
    ensures
        s@ == connector(last),
{
    if last {
        proof {
            reveal_strlit("└── ");
        }
        assert("└── "@ == connector(true));
        "└── "
    } else {
        proof {
            reveal_strlit("├── ");
        }
        assert("├── "@ == connector(false));
        "├── "
    }
}

pub(crate) fn indent_str(last: bool) -> (s: &'static str)
    ensures
        s@ == indent(last),
{
    if last {
        proof {
            reveal_strlit("    ");
        }
        assert("    "@ == indent(true));
        "    "
    } else {
        proof {
            reveal_strlit("│   ");
        }
        assert("│   "@ == indent(false));
        "│   "
    }
}

/// Renders the directory with these entries. `rel_dir` is the directory's
/// path relative to the root of the walk, empty for the root and ending in
/// `/` otherwise; every line starts with `prefix`.
pub fn generate_tree_with_patterns(
    entries: &Vec<DirEntry>,
    prefix: &str,
    rel_dir: &str,
    ignore: &Vec<IgnoreRule>,
    depth: Option<usize>,
) -> (out: String)
    ensures
        out@ == render(entries@, prefix@, rel_dir@, sources(ignore@), depth_model(depth)),
    decreases entries,
{
    let mut out = String::new();
    if let Some(0) = depth {
        return out;
    }
    let order = listing_order(entries, rel_dir, ignore);
    let ghost rules = sources(ignore@);
    let ghost plan = as_ints(order@);
    let ghost limit = depth_model(depth);
    let ghost mut done: Seq<Seq<char>> = Seq::empty();
    let len = order.len();
    let mut k: usize = 0;
    assert(done + lines_from(entries@, plan, 0, prefix@, rel_dir@, rules, limit) == lines_from(
        entries@,
        plan,
        0,
        prefix@,
        rel_dir@,
        rules,
        limit,
    ));
    while k < len
        invariant
            k <= len == order.len(),
            plan == as_ints(order@),
            rules == sources(ignore@),
            limit == depth_model(depth),
            limit != Some(0nat),
            forall|i: int| 0 <= i < order.len() ==> #[trigger] order[i] < entries.len(),
            out@ == join_lines(done),
            done + lines_from(entries@, plan, k as int, prefix@, rel_dir@, rules, limit)
                == lines_from(entries@, plan, 0, prefix@, rel_dir@, rules, limit),
        decreases len - k,
    {
        let j = order[k];
        let last = k == len - 1;
        let entry = &entries[j];
        let ghost line = prefix@ + connector(last) + entry.name@;
        let ghost rest = lines_from(entries@, plan, k + 1, prefix@, rel_dir@, rules, limit);
        assert(plan[k as int] == j);
        out.append(prefix);
        out.append(connector_str(last));
        out.append(entry.name.as_str());
        out.append("\n");
        proof {
            reveal_strlit("\n");
            assert("\n"@ == seq!['\n']);
            assert(done.push(line).drop_last() == done);
            assert(out@ == join_lines(done.push(line)));
        }
        let ghost mut nested: Seq<Seq<char>> = Seq::empty();
        if entry.is_dir {
            let mut new_prefix = prefix.to_owned();
            new_prefix.append(indent_str(last));
            let mut new_rel = rel_dir.to_owned();
            new_rel.append(entry.name.as_str());
            new_rel.append("/");
            proof {
                reveal_strlit("/");
                assert("/"@ == seq!['/']);
            }
            let new_depth = match depth {
                Some(d) => Some((d - 1) as usize),
                None => None,
            };
            let below = generate_tree_with_patterns(
                &entry.children,
                new_prefix.as_str(),
                new_rel.as_str(),
                ignore,
                new_depth,
            );
            proof {
                nested =
                tree_lines(
                    entry.children@,
                    prefix@ + indent(last),
                    child_dir(rel_dir@, entry.name@),
                    rules,
                    deeper(limit),
                );
                lemma_join_lines_concat(done.push(line), nested);
            }
            out.append(below.as_str());
        }
        proof {
            assert(lines_from(entries@, plan, k as int, prefix@, rel_dir@, rules, limit) == seq![
                line,
            ] + nested + rest);
            assert(done.push(line) + nested + rest == done + (seq![line] + nested + rest));
            done = done.push(line) + nested;
        }
        k += 1;
    }
    assert(done + Seq::<Seq<char>>::empty() == done);
    out
}


/// What the host found on disk for one walk: the entries of the directory
/// the walk starts in, and the directories from there upwards, the start
/// directory first, in which ignore rules are looked for.
#[derive(Debug)]
pub struct Snapshot {
    pub entries: Vec<DirEntry>,
    pub ancestors: Vec<Ancestor>,
}

/// The rules of an optional list, as regular expressions.
pub open spec fn given_sources(ignore: Option<&Vec<IgnoreRule>>) -> Option<Seq<Seq<char>>> {
    match ignore {
        Some(rules) => Some(sources(rules@)),
        None => None,
    }
}

/// Renders the tree below the directory of a snapshot, every line starting
/// with `prefix`. Entries that a rule of `ignore` matches are left out
/// with all they hold. Without `ignore`, the rules of the repository the
/// directory lies in are used: none if no repository is found, and an
/// error, with no rendering, if the repository's `.gitignore` cannot be
/// read. `depth` bounds the number of levels drawn; `Some(0)` draws nothing
/// and `None` is no bound.
pub fn generate_tree(
    root: &Snapshot,
    prefix: &str,
    ignore: Option<&Vec<IgnoreRule>>,
    depth: Option<usize>,
) -> (r: Result<String, FileReadError>)
    ensures
        match (given_sources(ignore), discovered_rules(root.ancestors@)) {
            (None, Err(cause)) => r matches Err(FileReadError::Io(text)) && text@ == cause,
            (None, Ok(rules)) => r matches Ok(out) && out@ == render(
                root.entries@,
                prefix@,
                Seq::empty(),
                rules,
                depth_model(depth),
            ),
            (Some(rules), _) => r matches Ok(out) && out@ == render(
                root.entries@,
                prefix@,
                Seq::empty(),
                rules,
                depth_model(depth),
            ),
        },
        depth == Some(0usize) ==> (r matches Ok(out) ==> out@.len() == 0),
{
    proof {
        reveal_strlit("");
        assert(""@ == Seq::<char>::empty());
    }
    match ignore {
        Some(rules) => Ok(generate_tree_with_patterns(&root.entries, prefix, "", rules, depth)),
        None => match find_gitignore_patterns(&root.ancestors) {
            Ok(rules) => Ok(generate_tree_with_patterns(&root.entries, prefix, "", &rules, depth)),
            Err(e) => Err(e),
        },
    }
}

} // verus!
