//! The walk draws what the renderer draws.
//!
//! A [`TreeWalk`](crate::walk::TreeWalk) sees a directory tree one listing
//! at a time. This module shows that, fed the listings of a tree, it ends
//! with the rendering of that tree, and that it asks for the directories
//! that the rendering draws into, each once, and for no others.

use vstd::prelude::*;
use crate::tree::{
    child_dir,
    connector,
    deeper,
    indent,
    join_lines,
    lemma_join_lines_concat,
    lines_from,
    listing,
    render,
    tree_lines,
    DirEntry,
};
use crate::tree_laws::{lemma_listing, lemma_listing_depends_on_names};
use crate::walk::{
    below,
    descends,
    draw,
    feed,
    leave,
    left_in,
    lemma_draw_is_progress,
    settle,
    walk_start,
    work,
    FrameModel,
    PendingModel,
    WalkModel,
    WalkRequestModel,
};

verus! {

/// A listing as a host reports it agrees with a directory of a tree: the
/// same entries in the same order, each with its name and its kind. What
/// the reported entries hold does not matter.
pub open spec fn same_listing(fed: Seq<DirEntry>, model: Seq<DirEntry>) -> bool {
    &&& fed.len() == model.len()
    &&& forall|i: int|
        0 <= i < fed.len() ==> (#[trigger] fed[i]).name@ == model[i].name@ && fed[i].is_dir
            == model[i].is_dir
}

/// A frame of a walk stands for a directory of a tree.
pub open spec fn frame_matches(f: FrameModel, model: Seq<DirEntry>, rules: Seq<Seq<char>>) -> bool {
    &&& same_listing(f.entries, model)
    &&& f.next <= listing(f.entries, f.rel_dir, rules).len()
    &&& f.depth != Some(0nat)
}

/// The frames of a walk stand for these directories of a tree, one each.
pub open spec fn frames_match(
    frames: Seq<FrameModel>,
    models: Seq<Seq<DirEntry>>,
    rules: Seq<Seq<char>>,
) -> bool {
    &&& frames.len() == models.len()
    &&& forall|i: int|
        0 <= i < frames.len() ==> frame_matches(#[trigger] frames[i], models[i], rules)
}

/// The lines of a frame's directory that are still to come, with all that
/// lies below them.
pub open spec fn frame_rest(f: FrameModel, model: Seq<DirEntry>, rules: Seq<Seq<char>>) -> Seq<
    Seq<char>,
> {
    lines_from(
        model,
        listing(model, f.rel_dir, rules),
        f.next as int,
        f.prefix,
        f.rel_dir,
        rules,
        f.depth,
    )
}

/// The lines still to come from the directories a walk is in the middle
/// of, innermost first.
pub open spec fn rest_lines(
    frames: Seq<FrameModel>,
    models: Seq<Seq<DirEntry>>,
    rules: Seq<Seq<char>>,
) -> Seq<Seq<char>>
    decreases frames.len(),
{
    if frames.len() == 0 {
        Seq::empty()
    } else {
        frame_rest(frames.last(), models.last(), rules) + rest_lines(
            frames.drop_last(),
            models.drop_last(),
            rules,
        )
    }
}

/// The number of directories that are listed to render a directory: the
/// directory itself and, level by level, every directory that is drawn
/// and lies within the depth limit.
pub open spec fn reads(
    entries: Seq<DirEntry>,
    rel_dir: Seq<char>,
    rules: Seq<Seq<char>>,
    depth: Option<nat>,
) -> nat
    decreases entries, 1nat, 0nat,
{
    if depth == Some(0nat) {
        0
    } else {
        1 + reads_from(entries, listing(entries, rel_dir, rules), 0, rel_dir, rules, depth)
    }
}

/// The number of directories that are listed below the entries at
/// positions `k` and later of a drawing order.
pub open spec fn reads_from(
    entries: Seq<DirEntry>,
    order: Seq<int>,
    k: int,
    rel_dir: Seq<char>,
    rules: Seq<Seq<char>>,
    depth: Option<nat>,
) -> nat
    decreases entries, 0nat, order.len() - k,
{
    if k < 0 || k >= order.len() {
        0
    } else {
        let j = order[k];
        let entry = entries[j];
        let nested = if 0 <= j < entries.len() && entry.is_dir {
            reads(entry.children@, child_dir(rel_dir, entry.name@), rules, deeper(depth))
        } else {
            0
        };
        nested + reads_from(entries, order, k + 1, rel_dir, rules, depth)
    }
}

/// The number of directories still to list below the directories a walk
/// is in the middle of.
pub open spec fn reads_left(
    frames: Seq<FrameModel>,
    models: Seq<Seq<DirEntry>>,
    rules: Seq<Seq<char>>,
) -> nat
    decreases frames.len(),
{
    if frames.len() == 0 {
        0
    } else {
        reads_from(
            models.last(),
            listing(models.last(), frames.last().rel_dir, rules),
            frames.last().next as int,
            frames.last().rel_dir,
            rules,
            frames.last().depth,
        ) + reads_left(frames.drop_last(), models.drop_last(), rules)
    }
}

/// The entry of a tree's directory that a walk has drawn last in its
/// innermost frame.
pub open spec fn last_drawn(w: WalkModel) -> int {
    let top = w.frames.last();
    listing(top.entries, top.rel_dir, w.rules)[top.next - 1]
}

/// Where a walk stands after it has asked for a directory, relative to
/// where it stood before: what it has drawn since and what it asks for
/// make up what was to come, and nothing else has changed.
pub open spec fn asked_for_next(
    w: WalkModel,
    models: Seq<Seq<DirEntry>>,
    w1: WalkModel,
    path: Seq<char>,
) -> bool {
    let models1 = models.take(w1.frames.len() as int);
    &&& 0 < w1.frames.len() <= w.frames.len()
    &&& w1.rules == w.rules
    &&& frames_match(w1.frames, models1, w.rules)
    &&& w1.frames.last().next >= 1
    &&& 0 <= last_drawn(w1) < models1.last().len()
    &&& w1.pending matches Some(asked) && asked.depth != Some(0nat) && asked.path == path && {
        let child = models1.last()[last_drawn(w1)].children@;
        &&& w1.output + render(child, asked.prefix, asked.rel_dir, w.rules, asked.depth)
            + join_lines(rest_lines(w1.frames, models1, w.rules)) == w.output + join_lines(
            rest_lines(w.frames, models, w.rules),
        )
        &&& reads(child, asked.rel_dir, w.rules, asked.depth) + reads_left(
            w1.frames,
            models1,
            w.rules,
        ) == reads_left(w.frames, models, w.rules)
    }
}

proof fn lemma_frame_unfold(f: FrameModel, model: Seq<DirEntry>, rules: Seq<Seq<char>>)
    requires
        frame_matches(f, model, rules),
        left_in(f, rules) > 0,
    ensures
        listing(f.entries, f.rel_dir, rules) == listing(model, f.rel_dir, rules),
        ({
            let order = listing(model, f.rel_dir, rules);
            let j = order[f.next as int];
            let last = f.next == order.len() - 1;
            let moved = FrameModel { next: f.next + 1, ..f };
            &&& f.next < order.len()
            &&& 0 <= j < model.len()
            &&& f.entries[j].name@ == model[j].name@
            &&& f.entries[j].is_dir == model[j].is_dir
            &&& frame_matches(moved, model, rules)
            &&& frame_rest(f, model, rules) == seq![f.prefix + connector(last) + model[j].name@]
                + (if model[j].is_dir {
                tree_lines(
                    model[j].children@,
                    f.prefix + indent(last),
                    child_dir(f.rel_dir, model[j].name@),
                    rules,
                    deeper(f.depth),
                )
            } else {
                Seq::empty()
            }) + frame_rest(moved, model, rules)
            &&& reads_from(model, order, f.next as int, f.rel_dir, rules, f.depth) == (if model[j].is_dir {
                reads(
                    model[j].children@,
                    child_dir(f.rel_dir, model[j].name@),
                    rules,
                    deeper(f.depth),
                )
            } else {
                0
            }) + reads_from(model, order, (f.next + 1) as int, f.rel_dir, rules, f.depth)
        }),
{
    lemma_listing_depends_on_names(f.entries, model, f.rel_dir, rules);
    lemma_listing(model, f.rel_dir, rules);
    let order = listing(model, f.rel_dir, rules);
    assert(order.contains(order[f.next as int]));
}

proof fn lemma_rest_of_top(
    frames: Seq<FrameModel>,
    models: Seq<Seq<DirEntry>>,
    top: FrameModel,
    rules: Seq<Seq<char>>,
)
    requires
        frames.len() > 0,
        frames.len() == models.len(),
    ensures
        rest_lines(frames.drop_last().push(top), models, rules) == frame_rest(
            top,
            models.last(),
            rules,
        ) + rest_lines(frames.drop_last(), models.drop_last(), rules),
        reads_left(frames.drop_last().push(top), models, rules) == reads_from(
            models.last(),
            listing(models.last(), top.rel_dir, rules),
            top.next as int,
            top.rel_dir,
            rules,
            top.depth,
        ) + reads_left(frames.drop_last(), models.drop_last(), rules),
{
    let moved = frames.drop_last().push(top);
    assert(moved.drop_last() == frames.drop_last());
    assert(moved.last() == top);
}

/// The text that drawing the next entry leaves to the directory below it:
/// the rendering of what the entry holds, if it is a directory.
pub open spec fn below_text(w: WalkModel, models: Seq<Seq<DirEntry>>) -> Seq<char> {
    let top = w.frames.last();
    let entry = models.last()[listing(top.entries, top.rel_dir, w.rules)[top.next as int]];
    if entry.is_dir {
        render(entry.children@, below(w).prefix, below(w).rel_dir, w.rules, below(w).depth)
    } else {
        Seq::empty()
    }
}

/// The number of directories to list below the next entry.
pub open spec fn below_reads(w: WalkModel, models: Seq<Seq<DirEntry>>) -> nat {
    let top = w.frames.last();
    let entry = models.last()[listing(top.entries, top.rel_dir, w.rules)[top.next as int]];
    if entry.is_dir {
        reads(entry.children@, below(w).rel_dir, w.rules, below(w).depth)
    } else {
        0
    }
}

proof fn lemma_outer_frames_match(w: WalkModel, models: Seq<Seq<DirEntry>>)
    requires
        w.frames.len() > 0,
        frames_match(w.frames, models, w.rules),
    ensures
        frame_matches(w.frames.last(), models.last(), w.rules),
        frames_match(w.frames.drop_last(), models.drop_last(), w.rules),
{
    let outer = w.frames.drop_last();
    let outer_models = models.drop_last();
    assert(frame_matches(w.frames[w.frames.len() - 1], models[w.frames.len() - 1], w.rules));
    assert forall|i: int| 0 <= i < outer.len() implies frame_matches(
        #[trigger] outer[i],
        outer_models[i],
        w.rules,
    ) by {
        assert(frame_matches(w.frames[i], models[i], w.rules));
    }
}

proof fn lemma_leave_step(w: WalkModel, models: Seq<Seq<DirEntry>>)
    requires
        w.frames.len() > 0,
        frames_match(w.frames, models, w.rules),
        left_in(w.frames.last(), w.rules) == 0,
    ensures
        frames_match(leave(w).frames, models.drop_last(), w.rules),
        rest_lines(w.frames, models, w.rules) == rest_lines(
            leave(w).frames,
            models.drop_last(),
            w.rules,
        ),
        reads_left(w.frames, models, w.rules) == reads_left(
            leave(w).frames,
            models.drop_last(),
            w.rules,
        ),
{
    let top = w.frames.last();
    let model = models.last();
    lemma_outer_frames_match(w, models);
    lemma_listing_depends_on_names(top.entries, model, top.rel_dir, w.rules);
    assert(frame_rest(top, model, w.rules) =~= Seq::<Seq<char>>::empty());
    assert(rest_lines(w.frames, models, w.rules) =~= rest_lines(
        w.frames.drop_last(),
        models.drop_last(),
        w.rules,
    ));
}

proof fn lemma_single_line(line: Seq<char>)
    ensures
        join_lines(seq![line]) == line + seq!['\n'],
{
    assert(seq![line].drop_last() =~= Seq::<Seq<char>>::empty());
    assert(join_lines(Seq::<Seq<char>>::empty()) =~= Seq::<char>::empty());
    assert(join_lines(seq![line]) =~= line + seq!['\n']);
}

proof fn lemma_draw_step(w: WalkModel, models: Seq<Seq<DirEntry>>)
    requires
        w.frames.len() > 0,
        frames_match(w.frames, models, w.rules),
        left_in(w.frames.last(), w.rules) > 0,
    ensures
        frames_match(draw(w).frames, models, w.rules),
        draw(w).frames.len() == w.frames.len(),
        draw(w).frames.last().next == w.frames.last().next + 1,
        ({
            let top = w.frames.last();
            let j = listing(top.entries, top.rel_dir, w.rules)[top.next as int];
            &&& 0 <= j < models.last().len()
            &&& top.entries[j].is_dir == models.last()[j].is_dir
            &&& last_drawn(draw(w)) == j
        }),
        draw(w).output + below_text(w, models) + join_lines(
            rest_lines(draw(w).frames, models, w.rules),
        ) == w.output + join_lines(rest_lines(w.frames, models, w.rules)),
        below_reads(w, models) + reads_left(draw(w).frames, models, w.rules) == reads_left(
            w.frames,
            models,
            w.rules,
        ),
{
    let rules = w.rules;
    let top = w.frames.last();
    let model = models.last();
    let outer = w.frames.drop_last();
    let outer_models = models.drop_last();
    lemma_outer_frames_match(w, models);
    lemma_frame_unfold(top, model, rules);
    let order = listing(model, top.rel_dir, rules);
    let j = order[top.next as int];
    let last = top.next == order.len() - 1;
    let moved = FrameModel { next: top.next + 1, ..top };
    let line = top.prefix + connector(last) + model[j].name@;
    let nested = if model[j].is_dir {
        tree_lines(
            model[j].children@,
            top.prefix + indent(last),
            child_dir(top.rel_dir, model[j].name@),
            rules,
            deeper(top.depth),
        )
    } else {
        Seq::empty()
    };
    let after = frame_rest(moved, model, rules);
    let outside = rest_lines(outer, outer_models, rules);
    let d = draw(w);
    lemma_rest_of_top(w.frames, models, moved, rules);
    assert(d.frames == outer.push(moved));
    assert(d.frames.last() == moved);
    assert(d.output =~= w.output + (line + seq!['\n']));
    assert(frames_match(d.frames, models, rules)) by {
        assert forall|i: int| 0 <= i < d.frames.len() implies frame_matches(
            #[trigger] d.frames[i],
            models[i],
            rules,
        ) by {
            if i < outer.len() {
                assert(frame_matches(w.frames[i], models[i], rules));
            }
        }
    }
    assert(below_text(w, models) == join_lines(nested));
    assert(rest_lines(w.frames, models, rules) =~= seq![line] + (nested + (after + outside)));
    assert(rest_lines(d.frames, models, rules) == after + outside);
    lemma_single_line(line);
    lemma_join_lines_concat(seq![line], nested + (after + outside));
    lemma_join_lines_concat(nested, after + outside);
    assert(d.output + join_lines(nested) + join_lines(after + outside) =~= w.output + (line
        + seq!['\n'] + (join_lines(nested) + join_lines(after + outside))));
}

proof fn lemma_nothing_below(w: WalkModel, models: Seq<Seq<DirEntry>>)
    requires
        w.frames.len() > 0,
        frames_match(w.frames, models, w.rules),
        left_in(w.frames.last(), w.rules) > 0,
        !descends(w),
    ensures
        below_text(w, models) == Seq::<char>::empty(),
        below_reads(w, models) == 0,
{
    lemma_outer_frames_match(w, models);
    lemma_frame_unfold(w.frames.last(), models.last(), w.rules);
    let top = w.frames.last();
    let entry = models.last()[listing(top.entries, top.rel_dir, w.rules)[top.next as int]];
    if entry.is_dir {
        assert(below(w).depth == Some(0nat));
        assert(tree_lines(entry.children@, below(w).prefix, below(w).rel_dir, w.rules, Some(0nat))
            =~= Seq::<Seq<char>>::empty());
    }
}

proof fn lemma_asked_after_draw(
    w: WalkModel,
    models: Seq<Seq<DirEntry>>,
    w1: WalkModel,
    path: Seq<char>,
)
    requires
        w.frames.len() > 0,
        frames_match(w.frames, models, w.rules),
        left_in(w.frames.last(), w.rules) > 0,
        !descends(w),
        asked_for_next(draw(w), models, w1, path),
    ensures
        asked_for_next(w, models, w1, path),
{
    lemma_draw_step(w, models);
    lemma_nothing_below(w, models);
    let d = draw(w);
    assert(d.output + below_text(w, models) =~= d.output);
}

proof fn lemma_asked_after_leave(
    w: WalkModel,
    models: Seq<Seq<DirEntry>>,
    w1: WalkModel,
    path: Seq<char>,
)
    requires
        w.frames.len() > 0,
        frames_match(w.frames, models, w.rules),
        left_in(w.frames.last(), w.rules) == 0,
        asked_for_next(leave(w), models.drop_last(), w1, path),
    ensures
        asked_for_next(w, models, w1, path),
{
    lemma_leave_step(w, models);
    assert(models.drop_last().take(w1.frames.len() as int) =~= models.take(
        w1.frames.len() as int,
    ));
}

proof fn lemma_asked_at_once(w: WalkModel, models: Seq<Seq<DirEntry>>)
    requires
        w.frames.len() > 0,
        frames_match(w.frames, models, w.rules),
        left_in(w.frames.last(), w.rules) > 0,
        descends(w),
    ensures
        asked_for_next(
            w,
            models,
            WalkModel { pending: Some(below(w)), ..draw(w) },
            below(w).path,
        ),
{
    lemma_draw_step(w, models);
    lemma_outer_frames_match(w, models);
    let w1 = WalkModel { pending: Some(below(w)), ..draw(w) };
    assert(models.take(w1.frames.len() as int) =~= models);
    assert(last_drawn(w1) == last_drawn(draw(w)));
}

/// What [`settle`] comes to, for a walk whose frames stand for directories
/// of a tree: if it ends the walk, the text is what was drawn before and
/// what was still to come; if it asks for a directory, that directory is
/// the one below the entry drawn last, and the text so far together with
/// what is then still to come is what was to come before.
pub proof fn lemma_settle(w: WalkModel, models: Seq<Seq<DirEntry>>)
    requires
        w.pending is None,
        frames_match(w.frames, models, w.rules),
    ensures
        match settle(w).1 {
            WalkRequestModel::Done { output } => {
                &&& output == w.output + join_lines(rest_lines(w.frames, models, w.rules))
                &&& reads_left(w.frames, models, w.rules) == 0
            },
            WalkRequestModel::ReadDir { path } => asked_for_next(w, models, settle(w).0, path),
            WalkRequestModel::Failed { .. } => false,
        },
    decreases work(w.frames, w.rules),
{
    if w.frames.len() == 0 {
        assert(w.output + join_lines(rest_lines(w.frames, models, w.rules)) =~= w.output);
    } else if left_in(w.frames.last(), w.rules) == 0 {
        lemma_leave_step(w, models);
        lemma_settle(leave(w), models.drop_last());
        assert(settle(w) == settle(leave(w)));
        match settle(w).1 {
            WalkRequestModel::ReadDir { path } => {
                lemma_asked_after_leave(w, models, settle(w).0, path);
            },
            _ => {},
        }
    } else if descends(w) {
        lemma_asked_at_once(w, models);
    } else {
        lemma_draw_step(w, models);
        lemma_nothing_below(w, models);
        lemma_draw_is_progress(w);
        lemma_settle(draw(w), models);
        assert(settle(w) == settle(draw(w)));
        match settle(w).1 {
            WalkRequestModel::ReadDir { path } => {
                lemma_asked_after_draw(w, models, settle(w).0, path);
            },
            _ => {
                assert(draw(w).output + below_text(w, models) =~= draw(w).output);
            },
        }
    }
}

/// What [`feed`] comes to, for a walk whose frames stand for directories
/// of a tree and which is fed a listing that agrees with the directory it
/// asked for.
pub proof fn lemma_feed(
    w: WalkModel,
    models: Seq<Seq<DirEntry>>,
    asked_model: Seq<DirEntry>,
    fed: Seq<DirEntry>,
)
    requires
        w.pending matches Some(asked) && asked.depth != Some(0nat),
        frames_match(w.frames, models, w.rules),
        same_listing(fed, asked_model),
    ensures
        ({
            let asked = w.pending->0;
            let before = WalkModel {
                output: w.output + render(
                    asked_model,
                    asked.prefix,
                    asked.rel_dir,
                    w.rules,
                    asked.depth,
                ),
                ..w
            };
            match feed(w, Ok(fed)).1 {
                WalkRequestModel::Done { output } => {
                    &&& output == before.output + join_lines(rest_lines(w.frames, models, w.rules))
                    &&& reads(asked_model, asked.rel_dir, w.rules, asked.depth) + reads_left(
                        w.frames,
                        models,
                        w.rules,
                    ) == 1
                },
                WalkRequestModel::ReadDir { path } => {
                    let w1 = feed(w, Ok(fed)).0;
                    let models1 = models.push(asked_model).take(w1.frames.len() as int);
                    &&& 0 < w1.frames.len() <= w.frames.len() + 1
                    &&& w1.rules == w.rules
                    &&& frames_match(w1.frames, models1, w.rules)
                    &&& w1.frames.last().next >= 1
                    &&& 0 <= last_drawn(w1) < models1.last().len()
                    &&& w1.pending matches Some(next) && next.depth != Some(0nat) && next.path
                        == path && {
                        let child = models1.last()[last_drawn(w1)].children@;
                        &&& w1.output + render(child, next.prefix, next.rel_dir, w.rules, next.depth)
                            + join_lines(rest_lines(w1.frames, models1, w.rules)) == before.output
                            + join_lines(rest_lines(w.frames, models, w.rules))
                        &&& reads(child, next.rel_dir, w.rules, next.depth) + reads_left(
                            w1.frames,
                            models1,
                            w.rules,
                        ) + 1 == reads(asked_model, asked.rel_dir, w.rules, asked.depth)
                            + reads_left(w.frames, models, w.rules)
                    }
                },
                WalkRequestModel::Failed { .. } => false,
            }
        }),
{
    let asked = w.pending->0;
    let rules = w.rules;
    let frame = FrameModel {
        path: asked.path,
        prefix: asked.prefix,
        rel_dir: asked.rel_dir,
        depth: asked.depth,
        entries: fed,
        next: 0,
    };
    let entered = WalkModel { frames: w.frames.push(frame), pending: None, ..w };
    let models_in = models.push(asked_model);
    assert(frames_match(entered.frames, models_in, rules)) by {
        assert forall|i: int| 0 <= i < entered.frames.len() implies frame_matches(
            #[trigger] entered.frames[i],
            models_in[i],
            rules,
        ) by {
            if i < w.frames.len() {
                assert(frame_matches(w.frames[i], models[i], rules));
            }
        }
    }
    assert(entered.frames.drop_last() == w.frames);
    assert(models_in.drop_last() == models);
    assert(frame_rest(frame, asked_model, rules) == tree_lines(
        asked_model,
        asked.prefix,
        asked.rel_dir,
        rules,
        asked.depth,
    ));
    let inner = tree_lines(asked_model, asked.prefix, asked.rel_dir, rules, asked.depth);
    let outside = rest_lines(w.frames, models, rules);
    assert(rest_lines(entered.frames, models_in, rules) == inner + outside);
    lemma_join_lines_concat(inner, outside);
    lemma_settle(entered, models_in);
    assert(w.output + (join_lines(inner) + join_lines(outside)) =~= w.output + join_lines(inner)
        + join_lines(outside));
    assert(reads_left(entered.frames, models_in, rules) + 1 == reads(
        asked_model,
        asked.rel_dir,
        rules,
        asked.depth,
    ) + reads_left(w.frames, models, rules));
}

/// A walk of a tree, run to its end: every directory it asks for is
/// listed from the tree by `host`, at most `fuel` times. The result is the
/// text the walk ends with, or `None` if it fails or `fuel` runs out.
pub open spec fn walk_to_end(
    w: WalkModel,
    models: Seq<Seq<DirEntry>>,
    asked_model: Seq<DirEntry>,
    host: spec_fn(Seq<DirEntry>) -> Seq<DirEntry>,
    fuel: nat,
) -> Option<Seq<char>>
    decreases fuel,
{
    if fuel == 0 {
        None
    } else {
        let (w1, request) = feed(w, Ok(host(asked_model)));
        match request {
            WalkRequestModel::Done { output } => Some(output),
            WalkRequestModel::Failed { .. } => None,
            WalkRequestModel::ReadDir { .. } => {
                let models1 = models.push(asked_model).take(w1.frames.len() as int);
                walk_to_end(
                    w1,
                    models1,
                    models1.last()[last_drawn(w1)].children@,
                    host,
                    (fuel - 1) as nat,
                )
            },
        }
    }
}

/// The text that a walk of the tree `root` ends with, when `host` lists
/// the directories it asks for. See [`walk_to_end`].
pub open spec fn walked(
    root: Seq<DirEntry>,
    path: Seq<char>,
    prefix: Seq<char>,
    rules: Seq<Seq<char>>,
    depth: Option<nat>,
    host: spec_fn(Seq<DirEntry>) -> Seq<DirEntry>,
    fuel: nat,
) -> Option<Seq<char>> {
    let (w, request) = walk_start(path, prefix, rules, depth);
    match request {
        WalkRequestModel::Done { output } => Some(output),
        WalkRequestModel::Failed { .. } => None,
        WalkRequestModel::ReadDir { .. } => walk_to_end(w, Seq::empty(), root, host, fuel),
    }
}

/// A host lists directories faithfully: what it reports for a directory
/// agrees with the directory.
pub open spec fn faithful(host: spec_fn(Seq<DirEntry>) -> Seq<DirEntry>) -> bool {
    forall|model: Seq<DirEntry>| same_listing(#[trigger] host(model), model)
}

proof fn lemma_walk_to_end(
    w: WalkModel,
    models: Seq<Seq<DirEntry>>,
    asked_model: Seq<DirEntry>,
    host: spec_fn(Seq<DirEntry>) -> Seq<DirEntry>,
    fuel: nat,
)
    requires
        w.pending matches Some(asked) && asked.depth != Some(0nat),
        frames_match(w.frames, models, w.rules),
        faithful(host),
        fuel >= reads(asked_model, w.pending->0.rel_dir, w.rules, w.pending->0.depth) + reads_left(
            w.frames,
            models,
            w.rules,
        ),
    ensures
        walk_to_end(w, models, asked_model, host, fuel) == Some(
            w.output + render(
                asked_model,
                w.pending->0.prefix,
                w.pending->0.rel_dir,
                w.rules,
                w.pending->0.depth,
            ) + join_lines(rest_lines(w.frames, models, w.rules)),
        ),
    decreases fuel,
{
    let asked = w.pending->0;
    assert(same_listing(host(asked_model), asked_model));
    assert(reads(asked_model, asked.rel_dir, w.rules, asked.depth) >= 1);
    lemma_feed(w, models, asked_model, host(asked_model));
    let (w1, request) = feed(w, Ok(host(asked_model)));
    match request {
        WalkRequestModel::ReadDir { .. } => {
            let models1 = models.push(asked_model).take(w1.frames.len() as int);
            lemma_walk_to_end(
                w1,
                models1,
                models1.last()[last_drawn(w1)].children@,
                host,
                (fuel - 1) as nat,
            );
        },
        _ => {},
    }
}

proof fn lemma_walk_runs_short(
    w: WalkModel,
    models: Seq<Seq<DirEntry>>,
    asked_model: Seq<DirEntry>,
    host: spec_fn(Seq<DirEntry>) -> Seq<DirEntry>,
    fuel: nat,
)
    requires
        w.pending matches Some(asked) && asked.depth != Some(0nat),
        frames_match(w.frames, models, w.rules),
        faithful(host),
        fuel < reads(asked_model, w.pending->0.rel_dir, w.rules, w.pending->0.depth) + reads_left(
            w.frames,
            models,
            w.rules,
        ),
    ensures
        walk_to_end(w, models, asked_model, host, fuel) is None,
    decreases fuel,
{
    if fuel > 0 {
        assert(same_listing(host(asked_model), asked_model));
        lemma_feed(w, models, asked_model, host(asked_model));
        let (w1, request) = feed(w, Ok(host(asked_model)));
        match request {
            WalkRequestModel::ReadDir { .. } => {
                let models1 = models.push(asked_model).take(w1.frames.len() as int);
                lemma_walk_runs_short(
                    w1,
                    models1,
                    models1.last()[last_drawn(w1)].children@,
                    host,
                    (fuel - 1) as nat,
                );
            },
            _ => {},
        }
    }
}

/// A walk draws what the renderer draws. For every tree, every prefix,
/// every set of rules and every depth limit, a walk that is fed the
/// listings of the tree by a faithful host ends with exactly the
/// rendering of the tree, once it has been given [`reads`] listings: one
/// for the root and one for every directory that is drawn within the
/// limit.
pub proof fn lemma_walk_renders_tree(
    root: Seq<DirEntry>,
    path: Seq<char>,
    prefix: Seq<char>,
    rules: Seq<Seq<char>>,
    depth: Option<nat>,
    host: spec_fn(Seq<DirEntry>) -> Seq<DirEntry>,
    fuel: nat,
)
    requires
        faithful(host),
        fuel >= reads(root, Seq::empty(), rules, depth),
    ensures
        walked(root, path, prefix, rules, depth, host, fuel) == Some(
            render(root, prefix, Seq::empty(), rules, depth),
        ),
{
    let (w, request) = walk_start(path, prefix, rules, depth);
    if depth == Some(0nat) {
        assert(render(root, prefix, Seq::empty(), rules, depth) =~= Seq::<char>::empty());
    } else {
        let none: Seq<Seq<DirEntry>> = Seq::empty();
        assert(frames_match(w.frames, none, rules));
        assert(rest_lines(w.frames, none, rules) =~= Seq::<Seq<char>>::empty());
        assert(reads_left(w.frames, none, rules) == 0);
        lemma_walk_to_end(w, none, root, host, fuel);
        assert(w.output + render(root, prefix, Seq::empty(), rules, depth) + join_lines(
            Seq::<Seq<char>>::empty(),
        ) =~= render(root, prefix, Seq::empty(), rules, depth));
    }
}

/// A walk asks for every directory it draws into, and for each of them
/// once: with fewer listings than [`reads`] it has not come to its end.
pub proof fn lemma_walk_needs_every_listing(
    root: Seq<DirEntry>,
    path: Seq<char>,
    prefix: Seq<char>,
    rules: Seq<Seq<char>>,
    depth: Option<nat>,
    host: spec_fn(Seq<DirEntry>) -> Seq<DirEntry>,
    fuel: nat,
)
    requires
        faithful(host),
        fuel < reads(root, Seq::empty(), rules, depth),
    ensures
        walked(root, path, prefix, rules, depth, host, fuel) is None,
{
    let (w, request) = walk_start(path, prefix, rules, depth);
    let none: Seq<Seq<DirEntry>> = Seq::empty();
    assert(depth != Some(0nat));
    assert(frames_match(w.frames, none, rules));
    assert(reads_left(w.frames, none, rules) == 0);
    lemma_walk_runs_short(w, none, root, host, fuel);
}

} // verus!
