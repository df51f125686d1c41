//! What holds of every rendering: the order within a level, the indentation
//! of nested levels, the effect of a depth limit and of the ignore rules.

use vstd::prelude::*;
use crate::pattern::{ignored, regex_is_match, rule_excludes};
use crate::tree::{
    connector,
    indent,
    insert_by_name,
    lines_from,
    listing,
    name_le,
    rel_path,
    render,
    shown,
    hidden,
    shown_below,
    sort_by_name,
    tree_lines,
    unmarked,
    DirEntry,
};

verus! {

/// `a` comes strictly before `b`.
pub open spec fn name_lt(a: Seq<char>, b: Seq<char>) -> bool {
    name_le(a, b) && a != b
}

/// No two entries of a directory have the same name.
pub open spec fn distinct_names(entries: Seq<DirEntry>) -> bool {
    forall|a: int, b: int|
        0 <= a < b < entries.len() ==> (#[trigger] entries[a]).name@ != (
        #[trigger] entries[b]).name@
}

/// The indices `order` name entries in ascending order of name.
pub open spec fn ascending(entries: Seq<DirEntry>, order: Seq<int>) -> bool {
    forall|p: int, q: int|
        0 <= p < q < order.len() ==> name_le(
            entries[#[trigger] order[p]].name@,
            entries[#[trigger] order[q]].name@,
        )
}

/// Of two names, one is not greater than the other.
pub proof fn lemma_name_le_total(a: Seq<char>, b: Seq<char>)
    ensures
        name_le(a, b) || name_le(b, a),
    decreases a.len(),
{
    if a.len() > 0 && b.len() > 0 {
        if a.first() == b.first() {
            lemma_name_le_total(a.drop_first(), b.drop_first());
        } else {
            vstd::utf8::char_u32_cast(a.first(), a.first() as u32);
            vstd::utf8::char_u32_cast(b.first(), b.first() as u32);
        }
    }
}

/// The order of names is transitive.
pub proof fn lemma_name_le_transitive(a: Seq<char>, b: Seq<char>, c: Seq<char>)
    requires
        name_le(a, b),
        name_le(b, c),
    ensures
        name_le(a, c),
    decreases a.len(),
{
    if a.len() > 0 {
        if a.first() == b.first() && b.first() == c.first() {
            lemma_name_le_transitive(a.drop_first(), b.drop_first(), c.drop_first());
        }
    }
}

/// The indices that are shown: each is below the bound and not marked,
/// they ascend, and none that is not marked is missing.
pub proof fn lemma_shown_below(flags: Seq<bool>, n: nat)
    ensures
        forall|p: int|
            0 <= p < shown_below(flags, n).len() ==> {
                let i = #[trigger] shown_below(flags, n)[p];
                0 <= i < n && unmarked(flags, i)
            },
        forall|p: int, q: int|
            0 <= p < q < shown_below(flags, n).len() ==> #[trigger] shown_below(flags, n)[p]
                < #[trigger] shown_below(flags, n)[q],
        forall|i: int|
            0 <= i < n && unmarked(flags, i) ==> #[trigger] shown_below(flags, n).contains(i),
    decreases n,
{
    if n > 0 {
        let before = shown_below(flags, (n - 1) as nat);
        let all = shown_below(flags, n);
        lemma_shown_below(flags, (n - 1) as nat);
        assert forall|i: int| 0 <= i < n && unmarked(flags, i) implies all.contains(i) by {
            if i < n - 1 {
                assert(before.contains(i));
                let p = choose|p: int| 0 <= p < before.len() && before[p] == i;
                assert(all[p] == i);
            } else {
                assert(all[all.len() - 1] == i);
            }
        }
    }
}

/// Inserting keeps what was there and adds the new index, keeps an
/// ascending order ascending, and makes no duplicate of what was not there.
pub proof fn lemma_insert_by_name(entries: Seq<DirEntry>, sorted: Seq<int>, i: int)
    ensures
        insert_by_name(entries, sorted, i).len() == sorted.len() + 1,
        forall|x: int| #[trigger]
            insert_by_name(entries, sorted, i).contains(x) <==> (sorted.contains(x) || x == i),
        ascending(entries, sorted) ==> ascending(entries, insert_by_name(entries, sorted, i)),
        sorted.no_duplicates() && !sorted.contains(i) ==> insert_by_name(
            entries,
            sorted,
            i,
        ).no_duplicates(),
    decreases sorted.len(),
{
    let r = insert_by_name(entries, sorted, i);
    if sorted.len() == 0 {
        assert(r[0] == i);
    } else if name_le(entries[sorted.last()].name@, entries[i].name@) {
        assert(r == sorted.push(i));
        assert forall|x: int| r.contains(x) <==> (sorted.contains(x) || x == i) by {
            if sorted.contains(x) {
                let p = choose|p: int| 0 <= p < sorted.len() && sorted[p] == x;
                assert(r[p] == x);
            }
            if x == i {
                assert(r[r.len() - 1] == i);
            }
        }
        if ascending(entries, sorted) {
            assert forall|p: int, q: int| 0 <= p < q < r.len() implies name_le(
                entries[#[trigger] r[p]].name@,
                entries[#[trigger] r[q]].name@,
            ) by {
                if q == r.len() - 1 {
                    if p < sorted.len() - 1 {
                        assert(name_le(
                            entries[sorted[p]].name@,
                            entries[sorted[sorted.len() - 1]].name@,
                        ));
                        lemma_name_le_transitive(
                            entries[sorted[p]].name@,
                            entries[sorted.last()].name@,
                            entries[i].name@,
                        );
                    }
                } else {
                    assert(name_le(entries[sorted[p]].name@, entries[sorted[q]].name@));
                }
            }
        }
    } else {
        let head = sorted.drop_last();
        let inner = insert_by_name(entries, head, i);
        lemma_insert_by_name(entries, head, i);
        assert(r == inner.push(sorted.last()));
        assert forall|x: int| r.contains(x) <==> (sorted.contains(x) || x == i) by {
            if r.contains(x) {
                let p = choose|p: int| 0 <= p < r.len() && r[p] == x;
                if p < inner.len() {
                    assert(inner[p] == x);
                    assert(inner.contains(x));
                    if head.contains(x) {
                        let t = choose|t: int| 0 <= t < head.len() && head[t] == x;
                        assert(sorted[t] == x);
                    }
                } else {
                    assert(sorted[sorted.len() - 1] == x);
                }
            }
            if sorted.contains(x) {
                let t = choose|t: int| 0 <= t < sorted.len() && sorted[t] == x;
                if t < head.len() {
                    assert(head[t] == x);
                    assert(head.contains(x));
                    assert(inner.contains(x));
                    let p = choose|p: int| 0 <= p < inner.len() && inner[p] == x;
                    assert(r[p] == x);
                } else {
                    assert(r[r.len() - 1] == x);
                }
            }
            if x == i {
                assert(inner.contains(x));
                let p = choose|p: int| 0 <= p < inner.len() && inner[p] == x;
                assert(r[p] == x);
            }
        }
        if ascending(entries, sorted) {
            assert(ascending(entries, head)) by {
                assert forall|p: int, q: int| 0 <= p < q < head.len() implies name_le(
                    entries[#[trigger] head[p]].name@,
                    entries[#[trigger] head[q]].name@,
                ) by {
                    assert(name_le(entries[sorted[p]].name@, entries[sorted[q]].name@));
                }
            }
            assert forall|p: int, q: int| 0 <= p < q < r.len() implies name_le(
                entries[#[trigger] r[p]].name@,
                entries[#[trigger] r[q]].name@,
            ) by {
                if q == r.len() - 1 {
                    assert(inner.contains(inner[p]));
                    if inner[p] == i {
                        lemma_name_le_total(entries[sorted.last()].name@, entries[i].name@);
                    } else {
                        assert(head.contains(inner[p]));
                        let t = choose|t: int| 0 <= t < head.len() && head[t] == inner[p];
                        assert(name_le(
                            entries[sorted[t]].name@,
                            entries[sorted[sorted.len() - 1]].name@,
                        ));
                    }
                } else {
                    assert(name_le(entries[inner[p]].name@, entries[inner[q]].name@));
                }
            }
        }
        if sorted.no_duplicates() && !sorted.contains(i) {
            assert(head.no_duplicates());
            assert(!head.contains(i)) by {
                if head.contains(i) {
                    let t = choose|t: int| 0 <= t < head.len() && head[t] == i;
                    assert(sorted[t] == i);
                }
            }
            assert(!inner.contains(sorted.last())) by {
                if inner.contains(sorted.last()) {
                    assert(head.contains(sorted.last()) || sorted.last() == i);
                    if head.contains(sorted.last()) {
                        let t = choose|t: int| 0 <= t < head.len() && head[t] == sorted.last();
                        assert(sorted[t] == sorted[sorted.len() - 1]);
                    } else {
                        assert(sorted[sorted.len() - 1] == i);
                    }
                }
            }
            assert forall|p: int, q: int| 0 <= p < r.len() && 0 <= q < r.len() && p != q implies r[p]
                != r[q] by {
                if p < inner.len() && q < inner.len() {
                    assert(inner[p] != inner[q]);
                } else if p < inner.len() {
                    assert(inner.contains(inner[p]));
                } else {
                    assert(inner.contains(inner[q]));
                }
            }
        }
    }
}

/// Sorting keeps exactly the indices it was given, in ascending order of
/// name, and makes no duplicates.
pub proof fn lemma_sort_by_name(entries: Seq<DirEntry>, idx: Seq<int>)
    ensures
        sort_by_name(entries, idx).len() == idx.len(),
        forall|x: int| #[trigger] sort_by_name(entries, idx).contains(x) <==> idx.contains(x),
        ascending(entries, sort_by_name(entries, idx)),
        idx.no_duplicates() ==> sort_by_name(entries, idx).no_duplicates(),
    decreases idx.len(),
{
    let r = sort_by_name(entries, idx);
    if idx.len() == 0 {
        assert forall|x: int| r.contains(x) <==> idx.contains(x) by {}
    } else {
        let head = idx.drop_last();
        let inner = sort_by_name(entries, head);
        lemma_sort_by_name(entries, head);
        lemma_insert_by_name(entries, inner, idx.last());
        assert forall|x: int| r.contains(x) <==> idx.contains(x) by {
            if head.contains(x) {
                let t = choose|t: int| 0 <= t < head.len() && head[t] == x;
                assert(idx[t] == x);
            }
            if idx.contains(x) {
                let t = choose|t: int| 0 <= t < idx.len() && idx[t] == x;
                if t < head.len() {
                    assert(head[t] == x);
                }
            }
            if x == idx.last() {
                assert(idx[idx.len() - 1] == x);
            }
        }
        if idx.no_duplicates() {
            assert(head.no_duplicates());
            assert(!head.contains(idx.last())) by {
                if head.contains(idx.last()) {
                    let t = choose|t: int| 0 <= t < head.len() && head[t] == idx.last();
                    assert(idx[t] == idx[idx.len() - 1]);
                }
            }
        }
    }
}

/// The drawing order of a directory holds exactly the indices of its shown
/// entries, each once, in ascending order of name.
pub proof fn lemma_listing(entries: Seq<DirEntry>, rel_dir: Seq<char>, rules: Seq<Seq<char>>)
    ensures
        forall|i: int| #[trigger]
            listing(entries, rel_dir, rules).contains(i) <==> (0 <= i < entries.len() && shown(
                entries,
                rel_dir,
                rules,
                i,
            )),
        listing(entries, rel_dir, rules).no_duplicates(),
        ascending(entries, listing(entries, rel_dir, rules)),
{
    let flags = hidden(entries, rel_dir, rules);
    let idx = shown_below(flags, entries.len());
    lemma_shown_below(flags, entries.len());
    lemma_sort_by_name(entries, idx);
    assert(idx.no_duplicates());
    assert forall|i: int| #[trigger]
        listing(entries, rel_dir, rules).contains(i) <==> (0 <= i < entries.len() && shown(
            entries,
            rel_dir,
            rules,
            i,
        )) by {
        if idx.contains(i) {
            let p = choose|p: int| 0 <= p < idx.len() && idx[p] == i;
            assert(idx[p] == i);
            assert(unmarked(flags, i));
        }
        if 0 <= i < entries.len() && shown(entries, rel_dir, rules, i) {
            assert(unmarked(flags, i));
            assert(idx.contains(i));
        }
    }
}

/// Within one directory the entries are drawn in strictly ascending order
/// of name: of two entries, the one drawn first has the smaller name.
pub proof fn lemma_level_is_strictly_sorted(
    entries: Seq<DirEntry>,
    rel_dir: Seq<char>,
    rules: Seq<Seq<char>>,
)
    requires
        distinct_names(entries),
    ensures
        forall|p: int, q: int|
            0 <= p < q < listing(entries, rel_dir, rules).len() ==> name_lt(
                entries[#[trigger] listing(entries, rel_dir, rules)[p]].name@,
                entries[#[trigger] listing(entries, rel_dir, rules)[q]].name@,
            ),
{
    let order = listing(entries, rel_dir, rules);
    lemma_listing(entries, rel_dir, rules);
    assert forall|p: int, q: int| 0 <= p < q < order.len() implies name_lt(
        entries[#[trigger] order[p]].name@,
        entries[#[trigger] order[q]].name@,
    ) by {
        assert(order.contains(order[p]));
        assert(order.contains(order[q]));
        assert(order[p] != order[q]);
        if order[p] < order[q] {
            assert(entries[order[p]].name@ != entries[order[q]].name@);
        } else {
            assert(entries[order[q]].name@ != entries[order[p]].name@);
        }
    }
}

/// Every line of a rendering starts with the prefix it was rendered with.
/// So the lines below a directory entry, which are rendered with the
/// entry's own prefix extended by the indentation for its position, all
/// sit under that one indentation.
pub proof fn lemma_lines_start_with_prefix(
    entries: Seq<DirEntry>,
    prefix: Seq<char>,
    rel_dir: Seq<char>,
    rules: Seq<Seq<char>>,
    depth: Option<nat>,
)
    ensures
        forall|n: int|
            0 <= n < tree_lines(entries, prefix, rel_dir, rules, depth).len() ==> prefix.is_prefix_of(
                #[trigger] tree_lines(entries, prefix, rel_dir, rules, depth)[n],
            ),
    decreases entries, 1nat, 0nat,
{
    if depth != Some(0nat) {
        lemma_lines_from_start_with_prefix(
            entries,
            listing(entries, rel_dir, rules),
            0,
            prefix,
            rel_dir,
            rules,
            depth,
        );
        assert(tree_lines(entries, prefix, rel_dir, rules, depth) == lines_from(
            entries,
            listing(entries, rel_dir, rules),
            0,
            prefix,
            rel_dir,
            rules,
            depth,
        ));
    } else {
        assert(tree_lines(entries, prefix, rel_dir, rules, depth).len() == 0);
    }
}

proof fn lemma_lines_from_start_with_prefix(
    entries: Seq<DirEntry>,
    order: Seq<int>,
    k: int,
    prefix: Seq<char>,
    rel_dir: Seq<char>,
    rules: Seq<Seq<char>>,
    depth: Option<nat>,
)
    ensures
        forall|n: int|
            0 <= n < lines_from(entries, order, k, prefix, rel_dir, rules, depth).len()
                ==> prefix.is_prefix_of(
                #[trigger] lines_from(entries, order, k, prefix, rel_dir, rules, depth)[n],
            ),
    decreases entries, 0nat, order.len() - k,
{
    if 0 <= k < order.len() {
        let j = order[k];
        let last = k == order.len() - 1;
        let entry = entries[j];
        let own = prefix + connector(last) + entry.name@;
        let inner_prefix = prefix + indent(last);
        let nested = if 0 <= j < entries.len() && entry.is_dir {
            tree_lines(
                entry.children@,
                inner_prefix,
                crate::tree::child_dir(rel_dir, entry.name@),
                rules,
                crate::tree::deeper(depth),
            )
        } else {
            Seq::empty()
        };
        let rest = lines_from(entries, order, k + 1, prefix, rel_dir, rules, depth);
        if 0 <= j < entries.len() && entry.is_dir {
            lemma_lines_start_with_prefix(
                entry.children@,
                inner_prefix,
                crate::tree::child_dir(rel_dir, entry.name@),
                rules,
                crate::tree::deeper(depth),
            );
        }
        lemma_lines_from_start_with_prefix(entries, order, k + 1, prefix, rel_dir, rules, depth);
        let all = lines_from(entries, order, k, prefix, rel_dir, rules, depth);
        assert(all == seq![own] + nested + rest);
        assert forall|n: int| 0 <= n < all.len() implies prefix.is_prefix_of(#[trigger] all[n]) by {
            if n == 0 {
                assert(own.subrange(0, prefix.len() as int) =~= prefix);
            } else if n < 1 + nested.len() {
                let line = nested[n - 1];
                assert(inner_prefix.is_prefix_of(line));
                assert(line.subrange(0, prefix.len() as int) =~= inner_prefix.subrange(
                    0,
                    prefix.len() as int,
                ));
                assert(inner_prefix.subrange(0, prefix.len() as int) =~= prefix);
            } else {
                assert(all[n] == rest[n - 1 - nested.len()]);
            }
        }
    }
}

/// What is drawn for one entry of a directory: its own line, made of the
/// directory's prefix, the connector for the entry's position and its
/// name; then, if it is a directory, the lines of what it holds, every one
/// of them under the directory's prefix extended by the indentation for
/// that same position; then the entries that follow.
pub proof fn lemma_entry_block(
    entries: Seq<DirEntry>,
    order: Seq<int>,
    k: int,
    prefix: Seq<char>,
    rel_dir: Seq<char>,
    rules: Seq<Seq<char>>,
    depth: Option<nat>,
)
    requires
        0 <= k < order.len(),
        0 <= order[k] < entries.len(),
    ensures
        ({
            let entry = entries[order[k]];
            let last = k == order.len() - 1;
            let nested = if entry.is_dir {
                tree_lines(
                    entry.children@,
                    prefix + indent(last),
                    crate::tree::child_dir(rel_dir, entry.name@),
                    rules,
                    crate::tree::deeper(depth),
                )
            } else {
                Seq::empty()
            };
            &&& lines_from(entries, order, k, prefix, rel_dir, rules, depth) == seq![
                prefix + connector(last) + entry.name@,
            ] + nested + lines_from(entries, order, k + 1, prefix, rel_dir, rules, depth)
            &&& entry.is_dir ==> forall|n: int|
                0 <= n < tree_lines(
                    entry.children@,
                    prefix + indent(last),
                    crate::tree::child_dir(rel_dir, entry.name@),
                    rules,
                    crate::tree::deeper(depth),
                ).len() ==> (prefix + indent(last)).is_prefix_of(
                    #[trigger] tree_lines(
                        entry.children@,
                        prefix + indent(last),
                        crate::tree::child_dir(rel_dir, entry.name@),
                        rules,
                        crate::tree::deeper(depth),
                    )[n],
                )
        }),
{
    let entry = entries[order[k]];
    let last = k == order.len() - 1;
    if entry.is_dir {
        lemma_lines_start_with_prefix(
            entry.children@,
            prefix + indent(last),
            crate::tree::child_dir(rel_dir, entry.name@),
            rules,
            crate::tree::deeper(depth),
        );
    }
}

/// A depth of zero draws nothing, whatever the directory holds and
/// whatever the rules are.
pub proof fn lemma_depth_zero_draws_nothing(
    entries: Seq<DirEntry>,
    prefix: Seq<char>,
    rel_dir: Seq<char>,
    rules: Seq<Seq<char>>,
)
    ensures
        tree_lines(entries, prefix, rel_dir, rules, Some(0nat)).len() == 0,
        render(entries, prefix, rel_dir, rules, Some(0nat)) == Seq::<char>::empty(),
{
}

/// The lines of one level alone: one per entry of the drawing order from
/// position `k` on, and nothing of what the entries hold.
pub open spec fn level_lines(
    entries: Seq<DirEntry>,
    order: Seq<int>,
    k: int,
    prefix: Seq<char>,
) -> Seq<Seq<char>> {
    Seq::new(
        if k <= order.len() {
            (order.len() - k) as nat
        } else {
            0nat
        },
        |m: int| prefix + connector(k + m == order.len() - 1) + entries[order[k + m]].name@,
    )
}

/// A depth of one draws the shown entries of the directory itself, by
/// name, one line each, and no line for anything they hold, whether they
/// are files or directories.
pub proof fn lemma_depth_one_lists_children(
    entries: Seq<DirEntry>,
    prefix: Seq<char>,
    rel_dir: Seq<char>,
    rules: Seq<Seq<char>>,
)
    ensures
        tree_lines(entries, prefix, rel_dir, rules, Some(1nat)) == level_lines(
            entries,
            listing(entries, rel_dir, rules),
            0,
            prefix,
        ),
{
    lemma_depth_one_from(entries, listing(entries, rel_dir, rules), 0, prefix, rel_dir, rules);
}

proof fn lemma_depth_one_from(
    entries: Seq<DirEntry>,
    order: Seq<int>,
    k: int,
    prefix: Seq<char>,
    rel_dir: Seq<char>,
    rules: Seq<Seq<char>>,
)
    requires
        0 <= k,
    ensures
        lines_from(entries, order, k, prefix, rel_dir, rules, Some(1nat)) == level_lines(
            entries,
            order,
            k,
            prefix,
        ),
    decreases order.len() - k,
{
    if k < order.len() {
        lemma_depth_one_from(entries, order, k + 1, prefix, rel_dir, rules);
        let j = order[k];
        let entry = entries[j];
        let own = prefix + connector(k == order.len() - 1) + entry.name@;
        let rest = lines_from(entries, order, k + 1, prefix, rel_dir, rules, Some(1nat));
        assert(crate::tree::deeper(Some(1nat)) == Some(0nat));
        assert(tree_lines(
            entry.children@,
            prefix + indent(k == order.len() - 1),
            crate::tree::child_dir(rel_dir, entry.name@),
            rules,
            Some(0nat),
        ) == Seq::<Seq<char>>::empty());
        assert(lines_from(entries, order, k, prefix, rel_dir, rules, Some(1nat)) == seq![own]
            + Seq::<Seq<char>>::empty() + rest);
        assert(seq![own] + Seq::<Seq<char>>::empty() + rest =~= level_lines(
            entries,
            order,
            k,
            prefix,
        ));
    } else {
        assert(lines_from(entries, order, k, prefix, rel_dir, rules, Some(1nat)) =~= level_lines(
            entries,
            order,
            k,
            prefix,
        ));
    }
}

/// Two directories whose entries have the same names, index by index, are
/// drawn in the same order.
pub proof fn lemma_listing_depends_on_names(
    a: Seq<DirEntry>,
    b: Seq<DirEntry>,
    rel_dir: Seq<char>,
    rules: Seq<Seq<char>>,
)
    requires
        a.len() == b.len(),
        forall|i: int| 0 <= i < a.len() ==> (#[trigger] a[i]).name@ == b[i].name@,
    ensures
        listing(a, rel_dir, rules) == listing(b, rel_dir, rules),
{
    assert(hidden(a, rel_dir, rules) =~= hidden(b, rel_dir, rules));
    lemma_shown_below(hidden(a, rel_dir, rules), a.len());
    lemma_sort_depends_on_names(a, b, shown_below(hidden(a, rel_dir, rules), a.len()));
}

proof fn lemma_sort_depends_on_names(a: Seq<DirEntry>, b: Seq<DirEntry>, idx: Seq<int>)
    requires
        a.len() == b.len(),
        forall|i: int| 0 <= i < a.len() ==> (#[trigger] a[i]).name@ == b[i].name@,
        forall|p: int| 0 <= p < idx.len() ==> 0 <= #[trigger] idx[p] < a.len(),
    ensures
        sort_by_name(a, idx) == sort_by_name(b, idx),
    decreases idx.len(),
{
    if idx.len() > 0 {
        let head = idx.drop_last();
        lemma_sort_depends_on_names(a, b, head);
        lemma_sort_by_name(a, head);
        let inner = sort_by_name(a, head);
        assert forall|p: int| 0 <= p < inner.len() implies 0 <= #[trigger] inner[p] < a.len() by {
            assert(inner.contains(inner[p]));
            assert(head.contains(inner[p]));
            let t = choose|t: int| 0 <= t < head.len() && head[t] == inner[p];
            assert(idx[t] == inner[p]);
        }
        lemma_insert_depends_on_names(a, b, inner, idx.last());
    }
}

proof fn lemma_insert_depends_on_names(a: Seq<DirEntry>, b: Seq<DirEntry>, sorted: Seq<int>, i: int)
    requires
        a.len() == b.len(),
        forall|i: int| 0 <= i < a.len() ==> (#[trigger] a[i]).name@ == b[i].name@,
        forall|p: int| 0 <= p < sorted.len() ==> 0 <= #[trigger] sorted[p] < a.len(),
        0 <= i < a.len(),
    ensures
        insert_by_name(a, sorted, i) == insert_by_name(b, sorted, i),
    decreases sorted.len(),
{
    if sorted.len() > 0 {
        assert(a[sorted[sorted.len() - 1]].name@ == b[sorted[sorted.len() - 1]].name@);
        assert(a[i].name@ == b[i].name@);
        let head = sorted.drop_last();
        assert forall|p: int| 0 <= p < head.len() implies 0 <= #[trigger] head[p] < a.len() by {
            assert(head[p] == sorted[p]);
        }
        lemma_insert_depends_on_names(a, b, head, i);
    }
}

proof fn lemma_lines_from_ignore_entry(
    entries: Seq<DirEntry>,
    i: int,
    replacement: DirEntry,
    order: Seq<int>,
    k: int,
    prefix: Seq<char>,
    rel_dir: Seq<char>,
    rules: Seq<Seq<char>>,
    depth: Option<nat>,
)
    requires
        0 <= i < entries.len(),
        0 <= k,
        !order.contains(i),
        forall|p: int| 0 <= p < order.len() ==> 0 <= #[trigger] order[p] < entries.len(),
    ensures
        lines_from(entries.update(i, replacement), order, k, prefix, rel_dir, rules, depth)
            == lines_from(entries, order, k, prefix, rel_dir, rules, depth),
    decreases order.len() - k,
{
    if k < order.len() {
        assert(order[k] != i) by {
            if order[k] == i {
                assert(order.contains(i));
            }
        }
        lemma_lines_from_ignore_entry(
            entries,
            i,
            replacement,
            order,
            k + 1,
            prefix,
            rel_dir,
            rules,
            depth,
        );
    }
}

/// An entry whose bare name a rule matches leaves no trace in the
/// rendering of its directory: it has no place in the drawing order, and
/// the lines are the same whatever stands in its place under that name --
/// a file, an empty directory or a directory full of entries.
pub proof fn lemma_ignored_entry_leaves_no_trace(
    entries: Seq<DirEntry>,
    i: int,
    replacement: DirEntry,
    prefix: Seq<char>,
    rel_dir: Seq<char>,
    rules: Seq<Seq<char>>,
    rule: int,
    depth: Option<nat>,
)
    requires
        0 <= i < entries.len(),
        0 <= rule < rules.len(),
        regex_is_match(rules[rule], entries[i].name@),
        replacement.name@ == entries[i].name@,
    ensures
        !listing(entries, rel_dir, rules).contains(i),
        tree_lines(entries.update(i, replacement), prefix, rel_dir, rules, depth) == tree_lines(
            entries,
            prefix,
            rel_dir,
            rules,
            depth,
        ),
        render(entries.update(i, replacement), prefix, rel_dir, rules, depth) == render(
            entries,
            prefix,
            rel_dir,
            rules,
            depth,
        ),
{
    assert(rule_excludes(rules[rule], entries[i].name@, rel_path(rel_dir, entries[i].name@)));
    assert(ignored(rules, entries[i].name@, rel_path(rel_dir, entries[i].name@)));
    assert(!shown(entries, rel_dir, rules, i));
    lemma_listing(entries, rel_dir, rules);
    let order = listing(entries, rel_dir, rules);
    assert forall|p: int| 0 <= p < order.len() implies 0 <= #[trigger] order[p] < entries.len() by {
        assert(order.contains(order[p]));
    }
    let swapped = entries.update(i, replacement);
    lemma_listing_depends_on_names(swapped, entries, rel_dir, rules);
    lemma_lines_from_ignore_entry(
        entries,
        i,
        replacement,
        listing(entries, rel_dir, rules),
        0,
        prefix,
        rel_dir,
        rules,
        depth,
    );
}

} // verus!
