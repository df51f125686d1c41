//! The tree renderer as a machine that reads one directory at a time.
//!
//! A [`TreeWalk`] never touches the disk. It names the directory it needs
//! next; its host lists that directory and feeds the listing back, and so
//! on until the walk is done. Only directories that are drawn and lie
//! within the depth limit are ever asked for. [`feed`] says what the
//! machine does with every listing.

use vstd::prelude::*;
use vstd::string::StringExecFns;
use crate::pattern::{sources, IgnoreRule};
use crate::text::chars_of;
use crate::tree::{
    as_ints,
    child_dir,
    connector,
    connector_str,
    deeper,
    depth_model,
    indent,
    indent_str,
    listing,
    listing_order,
    DirEntry,
};

verus! {

/// A directory that the walk has asked for and not yet been given.
pub struct PendingModel {
    pub path: Seq<char>,
    pub prefix: Seq<char>,
    pub rel_dir: Seq<char>,
    pub depth: Option<nat>,
}

/// A directory whose entries are being drawn: where it is, how its lines
/// start, the levels left from it on, its listing, and how many of the
/// entries to draw have been drawn.
pub struct FrameModel {
    pub path: Seq<char>,
    pub prefix: Seq<char>,
    pub rel_dir: Seq<char>,
    pub depth: Option<nat>,
    pub entries: Seq<DirEntry>,
    pub next: nat,
}

/// A walk: the rules it goes by, the directories it is in the middle of,
/// outermost first, the directory it waits for, and the text so far.
pub struct WalkModel {
    pub rules: Seq<Seq<char>>,
    pub frames: Seq<FrameModel>,
    pub pending: Option<PendingModel>,
    pub output: Seq<char>,
}

/// What a walk asks of its host.
pub enum WalkRequestModel {
    /// List the directory at `path` and feed the listing back.
    ReadDir { path: Seq<char> },
    /// The walk is over; this is the rendering.
    Done { output: Seq<char> },
    /// The walk is over because a directory could not be listed.
    Failed { cause: Seq<char> },
}

/// The path of the entry `name` of the directory at `dir`.
pub open spec fn join_path(dir: Seq<char>, name: Seq<char>) -> Seq<char> {
    if dir.len() == 0 {
        name
    } else if dir.last() == '/' {
        dir + name
    } else {
        dir + seq!['/'] + name
    }
}

/// What is said when a listing is fed to a walk that asked for none.
pub open spec fn unasked_text() -> Seq<char> {
    "No directory was asked for"@
}

/// The entries of a frame that are still to draw.
pub open spec fn left_in(f: FrameModel, rules: Seq<Seq<char>>) -> nat {
    let total = listing(f.entries, f.rel_dir, rules).len();
    if f.next <= total {
        (total - f.next) as nat
    } else {
        0
    }
}

/// A bound on the steps a walk can take without a new listing.
pub open spec fn work(frames: Seq<FrameModel>, rules: Seq<Seq<char>>) -> nat
    decreases frames.len(),
{
    if frames.len() == 0 {
        0
    } else {
        work(frames.drop_last(), rules) + 1 + left_in(frames.last(), rules)
    }
}

/// The walk without its innermost directory.
pub open spec fn leave(w: WalkModel) -> WalkModel {
    WalkModel { frames: w.frames.drop_last(), ..w }
}

/// The walk after it has drawn the line of the next entry of its
/// innermost directory.
pub open spec fn draw(w: WalkModel) -> WalkModel {
    let top = w.frames.last();
    let order = listing(top.entries, top.rel_dir, w.rules);
    let entry = top.entries[order[top.next as int]];
    let last = top.next == order.len() - 1;
    WalkModel {
        frames: w.frames.drop_last().push(FrameModel { next: top.next + 1, ..top }),
        output: w.output + top.prefix + connector(last) + entry.name@ + seq!['\n'],
        ..w
    }
}

/// The directory below the next entry of the innermost directory.
pub open spec fn below(w: WalkModel) -> PendingModel {
    let top = w.frames.last();
    let order = listing(top.entries, top.rel_dir, w.rules);
    let entry = top.entries[order[top.next as int]];
    let last = top.next == order.len() - 1;
    PendingModel {
        path: join_path(top.path, entry.name@),
        prefix: top.prefix + indent(last),
        rel_dir: child_dir(top.rel_dir, entry.name@),
        depth: deeper(top.depth),
    }
}

/// Whether the next entry of the innermost directory is a directory that
/// the walk goes into.
pub open spec fn descends(w: WalkModel) -> bool {
    let top = w.frames.last();
    let order = listing(top.entries, top.rel_dir, w.rules);
    top.entries[order[top.next as int]].is_dir && deeper(top.depth) != Some(0nat)
}

/// Draws as far as the listings at hand allow: entry after entry of the
/// innermost directory, leaving a directory when it is drawn to the end,
/// until an entry is a directory to go into, which is then asked for, or
/// until nothing is left, which ends the walk.
pub open spec fn settle(w: WalkModel) -> (WalkModel, WalkRequestModel)
    decreases work(w.frames, w.rules),
{
    if w.frames.len() == 0 {
        (w, WalkRequestModel::Done { output: w.output })
    } else if left_in(w.frames.last(), w.rules) == 0 {
        settle(leave(w))
    } else if descends(w) {
        (
            WalkModel { pending: Some(below(w)), ..draw(w) },
            WalkRequestModel::ReadDir { path: below(w).path },
        )
    } else {
        proof {
            lemma_draw_is_progress(w);
        }
        settle(draw(w))
    }
}

/// Drawing a line leaves less to do.
pub proof fn lemma_draw_is_progress(w: WalkModel)
    requires
        w.frames.len() > 0,
        left_in(w.frames.last(), w.rules) > 0,
    ensures
        work(draw(w).frames, w.rules) < work(w.frames, w.rules),
{
    let top = w.frames.last();
    let moved = FrameModel { next: top.next + 1, ..top };
    assert(draw(w).frames.drop_last() == w.frames.drop_last());
    assert(draw(w).frames.last() == moved);
}

/// The start of a walk of the directory at `path`: with a depth of zero
/// it is over at once and has drawn nothing, otherwise the directory is
/// asked for.
pub open spec fn walk_start(
    path: Seq<char>,
    prefix: Seq<char>,
    rules: Seq<Seq<char>>,
    depth: Option<nat>,
) -> (WalkModel, WalkRequestModel) {
    let w = WalkModel { rules, frames: Seq::empty(), pending: None, output: Seq::empty() };
    if depth == Some(0nat) {
        (w, WalkRequestModel::Done { output: Seq::empty() })
    } else {
        (
            WalkModel {
                pending: Some(PendingModel { path, prefix, rel_dir: Seq::empty(), depth }),
                ..w
            },
            WalkRequestModel::ReadDir { path },
        )
    }
}

/// What a walk does with the listing of the directory it asked for: the
/// directory becomes the innermost one and drawing goes on. A directory
/// that could not be listed ends the walk, and so does a listing that was
/// not asked for.
pub open spec fn feed(w: WalkModel, listed: Result<Seq<DirEntry>, Seq<char>>) -> (
    WalkModel,
    WalkRequestModel,
) {
    let halted = WalkModel { frames: Seq::empty(), pending: None, ..w };
    match w.pending {
        None => (halted, WalkRequestModel::Failed { cause: unasked_text() }),
        Some(asked) => match listed {
            Err(cause) => (halted, WalkRequestModel::Failed { cause }),
            Ok(entries) => settle(
                WalkModel {
                    frames: w.frames.push(
                        FrameModel {
                            path: asked.path,
                            prefix: asked.prefix,
                            rel_dir: asked.rel_dir,
                            depth: asked.depth,
                            entries,
                            next: 0,
                        },
                    ),
                    pending: None,
                    ..w
                },
            ),
        },
    }
}

/// What a walk asks of its host.
#[derive(Debug)]
pub enum WalkRequest {
    /// List the directory at `path` and feed the listing back.
    ReadDir { path: String },
    /// The walk is over; this is the rendering.
    Done { output: String },
    /// The walk is over because a directory could not be listed.
    Failed { cause: String },
}

impl View for WalkRequest {
    type V = WalkRequestModel;

    open spec fn view(&self) -> WalkRequestModel {
        match self {
            WalkRequest::ReadDir { path } => WalkRequestModel::ReadDir { path: path@ },
            WalkRequest::Done { output } => WalkRequestModel::Done { output: output@ },
            WalkRequest::Failed { cause } => WalkRequestModel::Failed { cause: cause@ },
        }
    }
}

/// The view of a listing or of the reason why there is none.
pub open spec fn listed_view(listed: Result<Vec<DirEntry>, String>) -> Result<
    Seq<DirEntry>,
    Seq<char>,
> {
    match listed {
        Ok(entries) => Ok(entries@),
        Err(cause) => Err(cause@),
    }
}

struct Pending {
    path: String,
    prefix: String,
    rel_dir: String,
    depth: Option<usize>,
}

/// One directory that is being drawn. `order` is the drawing order of
/// `entries`, worked out once when the listing comes in; it is fixed by
/// `entries`, `rel_dir` and the rules, so the view leaves it out.
struct Frame {
    path: String,
    prefix: String,
    rel_dir: String,
    depth: Option<usize>,
    entries: Vec<DirEntry>,
    order: Vec<usize>,
    next: usize,
}

impl View for Pending {
    type V = PendingModel;

    closed spec fn view(&self) -> PendingModel {
        PendingModel {
            path: self.path@,
            prefix: self.prefix@,
            rel_dir: self.rel_dir@,
            depth: depth_model(self.depth),
        }
    }
}

impl View for Frame {
    type V = FrameModel;

    closed spec fn view(&self) -> FrameModel {
        FrameModel {
            path: self.path@,
            prefix: self.prefix@,
            rel_dir: self.rel_dir@,
            depth: depth_model(self.depth),
            entries: self.entries@,
            next: self.next as nat,
        }
    }
}

impl Frame {
    spec fn sound(&self, rules: Seq<Seq<char>>) -> bool {
        &&& as_ints(self.order@) == listing(self.entries@, self.rel_dir@, rules)
        &&& self.next <= self.order.len()
        &&& forall|k: int| 0 <= k < self.order.len() ==> #[trigger] self.order[k] < self.entries.len()
        &&& self.depth != Some(0usize)
    }
}

spec fn frame_models(frames: Seq<Frame>) -> Seq<FrameModel> {
    frames.map_values(|f: Frame| f@)
}

/// A walk of a directory tree in progress.
pub struct TreeWalk {
    rules: Vec<IgnoreRule>,
    frames: Vec<Frame>,
    pending: Option<Pending>,
    output: String,
}

impl View for TreeWalk {
    type V = WalkModel;

    closed spec fn view(&self) -> WalkModel {
        WalkModel {
            rules: sources(self.rules@),
            frames: frame_models(self.frames@),
            pending: match self.pending {
                Some(p) => Some(p@),
                None => None,
            },
            output: self.output@,
        }
    }
}

/// Computes [`join_path`].
pub fn join_path_str(dir: &str, name: &str) -> (path: String)
    ensures
        path@ == join_path(dir@, name@),
{
    let d = chars_of(dir);
    let mut path = dir.to_owned();
    if d.len() > 0 && d[d.len() - 1] != '/' {
        path.append("/");
        proof {
            reveal_strlit("/");
            assert("/"@ == seq!['/']);
        }
    }
    path.append(name);
    proof {
        if d.len() == 0 {
            assert(dir@ + name@ == name@);
        }
    }
    path
}

impl TreeWalk {
    #[verifier::type_invariant]
    spec fn sound(&self) -> bool {
        &&& forall|i: int|
            0 <= i < self.frames.len() ==> (#[trigger] self.frames[i]).sound(sources(self.rules@))
        &&& self.pending matches Some(asked) ==> asked.depth != Some(0usize)
    }

    /// Starts a walk of the directory at `path`. Every line will start
    /// with `prefix`; entries that a rule of `rules` matches are left out;
    /// `depth` bounds the number of levels drawn.
    pub fn start(path: &str, prefix: &str, rules: Vec<IgnoreRule>, depth: Option<usize>) -> (r: (
        TreeWalk,
        WalkRequest,
    ))
        ensures
            (r.0@, r.1@) == walk_start(path@, prefix@, sources(rules@), depth_model(depth)),
    {
        let mut walk = TreeWalk { rules, frames: Vec::new(), pending: None, output: String::new() };
        assert(walk@.frames =~= Seq::empty());
        if let Some(0) = depth {
            return (walk, WalkRequest::Done { output: String::new() });
        }
        proof {
            reveal_strlit("");
            assert(""@ == Seq::<char>::empty());
        }
        walk.pending =
        Some(
            Pending { path: path.to_owned(), prefix: prefix.to_owned(), rel_dir: "".to_owned(), depth },
        );
        (walk, WalkRequest::ReadDir { path: path.to_owned() })
    }

    /// Takes the listing of the directory that was asked for, or the
    /// reason why it could not be listed, and says what is to happen next.
    /// What the listed entries hold is not looked at: a directory among
    /// them is asked for in its turn.
    pub fn feed(self, listed: Result<Vec<DirEntry>, String>) -> (r: (TreeWalk, WalkRequest))
        ensures
            (r.0@, r.1@) == feed(self@, listed_view(listed)),
    {
        proof {
            use_type_invariant(&self);
        }
        let ghost w = self@;
        let TreeWalk { rules, frames, pending, output } = self;
        match pending {
            None => {
                let halted = TreeWalk { rules, frames: Vec::new(), pending: None, output };
                assert(halted@.frames =~= Seq::empty());
                (halted, WalkRequest::Failed { cause: "No directory was asked for".to_owned() })
            },
            Some(asked) => match listed {
                Err(cause) => {
                    let halted = TreeWalk { rules, frames: Vec::new(), pending: None, output };
                    assert(halted@.frames =~= Seq::empty());
                    (halted, WalkRequest::Failed { cause })
                },
                Ok(entries) => {
                    let order = listing_order(&entries, asked.rel_dir.as_str(), &rules);
                    let frame = Frame {
                        path: asked.path,
                        prefix: asked.prefix,
                        rel_dir: asked.rel_dir,
                        depth: asked.depth,
                        entries,
                        order,
                        next: 0,
                    };
                    let mut frames = frames;
                    let ghost before = frames@;
                    frames.push(frame);
                    assert(frame_models(frames@) =~= w.frames.push(frame@));
                    TreeWalk::settle(rules, frames, output)
                },
            },
        }
    }

    fn settle(rules: Vec<IgnoreRule>, frames: Vec<Frame>, output: String) -> (r: (
        TreeWalk,
        WalkRequest,
    ))
        requires
            forall|i: int| 0 <= i < frames.len() ==> (#[trigger] frames[i]).sound(sources(rules@)),
        ensures
            (r.0@, r.1@) == settle(
                WalkModel {
                    rules: sources(rules@),
                    frames: frame_models(frames@),
                    pending: None,
                    output: output@,
                },
            ),
    {
        let ghost start = WalkModel {
            rules: sources(rules@),
            frames: frame_models(frames@),
            pending: None,
            output: output@,
        };
        let mut stack = frames;
        let mut text = output;
        loop
            invariant
                start == (WalkModel {
                    rules: sources(rules@),
                    frames: frame_models(frames@),
                    pending: None,
                    output: output@,
                }),
                forall|i: int|
                    0 <= i < stack.len() ==> (#[trigger] stack[i]).sound(sources(rules@)),
                settle(
                    WalkModel {
                        rules: sources(rules@),
                        frames: frame_models(stack@),
                        pending: None,
                        output: text@,
                    },
                ) == settle(start),
            decreases work(frame_models(stack@), sources(rules@)),
        {
            let ghost w = WalkModel {
                rules: sources(rules@),
                frames: frame_models(stack@),
                pending: None,
                output: text@,
            };
            if stack.len() == 0 {
                let walk = TreeWalk { rules, frames: stack, pending: None, output: text.clone() };
                assert(w.frames.len() == 0);
                assert(walk@.frames =~= w.frames);
                assert(walk@ == w);
                assert(settle(w) == (w, WalkRequestModel::Done { output: w.output }));
                return (walk, WalkRequest::Done { output: text });
            }
            let mut top = stack.pop().unwrap();
            proof {
                assert(top.sound(sources(rules@)));
                assert(w.frames.last() == top@);
                assert(frame_models(stack@) =~= w.frames.drop_last());
            }
            if top.next >= top.order.len() {
                assert(left_in(w.frames.last(), w.rules) == 0);
                assert(settle(w) == settle(leave(w)));
                continue ;
            }
            assert(left_in(w.frames.last(), w.rules) > 0);
            let j = top.order[top.next];
            let last = top.next == top.order.len() - 1;
            assert(as_ints(top.order@)[top.next as int] == j);
            text.append(top.prefix.as_str());
            text.append(connector_str(last));
            text.append(top.entries[j].name.as_str());
            text.append("\n");
            proof {
                reveal_strlit("\n");
                assert("\n"@ == seq!['\n']);
                assert(text@ =~= draw(w).output);
                lemma_draw_is_progress(w);
            }
            let goes_down = top.entries[j].is_dir && match top.depth {
                Some(d) => d != 1,
                None => true,
            };
            let asked = if goes_down {
                let mut prefix = top.prefix.clone();
                prefix.append(indent_str(last));
                let mut rel_dir = top.rel_dir.clone();
                rel_dir.append(top.entries[j].name.as_str());
                rel_dir.append("/");
                proof {
                    reveal_strlit("/");
                    assert("/"@ == seq!['/']);
                }
                let depth = match top.depth {
                    Some(d) => Some((d - 1) as usize),
                    None => None,
                };
                Some(
                    Pending {
                        path: join_path_str(top.path.as_str(), top.entries[j].name.as_str()),
                        prefix,
                        rel_dir,
                        depth,
                    },
                )
            } else {
                None
            };
            top.next = top.next + 1;
            stack.push(top);
            proof {
                assert(frame_models(stack@) =~= draw(w).frames);
            }
            match asked {
                Some(asked) => {
                    let path = asked.path.clone();
                    let walk = TreeWalk { rules, frames: stack, pending: Some(asked), output: text };
                    proof {
                        assert(descends(w));
                        assert(asked@ == below(w));
                        assert(walk@ == WalkModel { pending: Some(below(w)), ..draw(w) });
                    }
                    return (walk, WalkRequest::ReadDir { path });
                },
                None => {
                    assert(!descends(w));
                    assert(settle(w) == settle(draw(w)));
                },
            }
        }
    }
}

} // verus!
