//! What holds of a command that lists a directory, from its first probe
//! to its output.

use vstd::prelude::*;
use crate::action::{
    command_text,
    continued,
    executed,
    ActionModel,
    DirectoryProbe,
    ExecutionModel,
    Observation,
};
use crate::error::AgentErrorModel;
use crate::gitignore::{discovered_rules, Ancestor};
use crate::tree::{render, DirEntry};
use crate::walk::{feed, walk_start, WalkModel, WalkRequestModel};
use crate::walk_laws::{
    last_drawn,
    lemma_walk_renders_tree,
    reads,
    same_listing,
    walk_to_end,
    walked,
};

verus! {

/// A host lists directories faithfully: what it reports for a directory
/// of a tree agrees with the directory.
pub open spec fn lists_faithfully(host: spec_fn(Seq<DirEntry>) -> Vec<DirEntry>) -> bool {
    forall|model: Seq<DirEntry>| same_listing(#[trigger] host(model)@, model)
}

/// An action that is walking a tree, run to its end: every directory its
/// walk asks for is listed from the tree by `host`, at most `fuel` times.
/// The result is the label and the output the action ends with, or the
/// error, or `None` if `fuel` runs out.
pub open spec fn listed_to_end(
    action: ActionModel,
    walk: WalkModel,
    models: Seq<Seq<DirEntry>>,
    asked_model: Seq<DirEntry>,
    host: spec_fn(Seq<DirEntry>) -> Vec<DirEntry>,
    fuel: nat,
) -> Option<Result<(Seq<char>, Seq<char>), AgentErrorModel>>
    decreases fuel,
{
    if fuel == 0 {
        None
    } else {
        match continued(action, walk, Observation::Listing { listed: Ok(host(asked_model)) }) {
            Ok(ExecutionModel::Finished { label, output }) => Some(Ok((label, output))),
            Ok(ExecutionModel::Walking { walk: next, .. }) => {
                let models1 = models.push(asked_model).take(next.frames.len() as int);
                listed_to_end(
                    action,
                    next,
                    models1,
                    models1.last()[last_drawn(next)].children@,
                    host,
                    (fuel - 1) as nat,
                )
            },
            Err(e) => Some(Err(e)),
        }
    }
}

/// What a command to list the directory at `path` comes to when the
/// directory exists, `ancestors` is what lies above it, the tree below it
/// is `root` and `host` lists the directories that are asked for.
pub open spec fn listed(
    path: Seq<char>,
    ancestors: Vec<Ancestor>,
    root: Seq<DirEntry>,
    host: spec_fn(Seq<DirEntry>) -> Vec<DirEntry>,
    fuel: nat,
) -> Option<Result<(Seq<char>, Seq<char>), AgentErrorModel>> {
    let action = ActionModel::ListDirectory { path };
    match executed(
        action,
        Observation::Directory { found: DirectoryProbe::Present { ancestors } },
    ) {
        Ok(ExecutionModel::Finished { label, output }) => Some(Ok((label, output))),
        Ok(ExecutionModel::Walking { walk, .. }) => listed_to_end(
            action,
            walk,
            Seq::empty(),
            root,
            host,
            fuel,
        ),
        Err(e) => Some(Err(e)),
    }
}

proof fn lemma_listed_to_end(
    action: ActionModel,
    walk: WalkModel,
    models: Seq<Seq<DirEntry>>,
    asked_model: Seq<DirEntry>,
    host: spec_fn(Seq<DirEntry>) -> Vec<DirEntry>,
    fuel: nat,
)
    requires
        walk_to_end(walk, models, asked_model, |m: Seq<DirEntry>| host(m)@, fuel) is Some,
    ensures
        listed_to_end(action, walk, models, asked_model, host, fuel) == Some(
            Ok::<(Seq<char>, Seq<char>), AgentErrorModel>(
                (
                    command_text(action),
                    walk_to_end(walk, models, asked_model, |m: Seq<DirEntry>| host(m)@, fuel)->0,
                ),
            ),
        ),
    decreases fuel,
{
    let seen = |m: Seq<DirEntry>| host(m)@;
    assert(seen(asked_model) == host(asked_model)@);
    let (next, request) = feed(walk, Ok(host(asked_model)@));
    match request {
        WalkRequestModel::ReadDir { .. } => {
            let models1 = models.push(asked_model).take(next.frames.len() as int);
            lemma_listed_to_end(
                action,
                next,
                models1,
                models1.last()[last_drawn(next)].children@,
                host,
                (fuel - 1) as nat,
            );
        },
        _ => {},
    }
}

/// A command to list a directory gives the full rendering of the tree
/// below it. For every tree and every host that lists its directories
/// faithfully, the command ends with its own text as the label and, as
/// the output, the rendering of the whole tree -- no prefix, no depth
/// limit -- by the rules of the `.gitignore` of the repository the
/// directory lies in.
pub proof fn lemma_list_directory_renders_tree(
    path: Seq<char>,
    ancestors: Vec<Ancestor>,
    root: Seq<DirEntry>,
    host: spec_fn(Seq<DirEntry>) -> Vec<DirEntry>,
    fuel: nat,
)
    requires
        lists_faithfully(host),
        discovered_rules(ancestors@) matches Ok(rules) && fuel >= reads(
            root,
            Seq::empty(),
            rules,
            None,
        ),
    ensures
        listed(path, ancestors, root, host, fuel) == Some(
            Ok::<(Seq<char>, Seq<char>), AgentErrorModel>(
                (
                    command_text(ActionModel::ListDirectory { path }),
                    render(
                        root,
                        Seq::empty(),
                        Seq::empty(),
                        discovered_rules(ancestors@)->Ok_0,
                        None,
                    ),
                ),
            ),
        ),
{
    let rules = discovered_rules(ancestors@)->Ok_0;
    let action = ActionModel::ListDirectory { path };
    let seen = |m: Seq<DirEntry>| host(m)@;
    assert(crate::walk_laws::faithful(seen)) by {
        assert forall|model: Seq<DirEntry>| same_listing(#[trigger] seen(model), model) by {
            assert(same_listing(host(model)@, model));
        }
    }
    lemma_walk_renders_tree(root, path, Seq::empty(), rules, None, seen, fuel);
    let (walk, request) = walk_start(path, Seq::empty(), rules, None);
    assert(walked(root, path, Seq::empty(), rules, None, seen, fuel) == walk_to_end(
        walk,
        Seq::empty(),
        root,
        seen,
        fuel,
    ));
    lemma_listed_to_end(action, walk, Seq::empty(), root, host, fuel);
}

} // verus!
