//! Collecting the item ids of a server's address space.
//!
//! A flat server lists its leaves directly.  Otherwise the walk first tries
//! a flat listing of the whole space and, when that gives nothing, walks
//! the tree: at each level it lists the branches, then the leaves (whose
//! full ids it asks for), then descends into each branch and comes back up.
//! At most `max_tags` ids are collected, and the walk goes no deeper than
//! 50 levels.
//!
//! The worker performs each browse call the walk asks for and hands back
//! what came of it.

use vstd::prelude::*;

use vstd::string::*;

use crate::client::types::{BranchNode, OpcError};

verus! {

/// `OPC_NS_FLAT`: the server's address space is flat.
pub const OPC_NS_FLAT: u32 = 2;
/// `OPC_BRANCH`: list branches.
pub const OPC_BRANCH: u32 = 1;
/// `OPC_LEAF`: list leaves.
pub const OPC_LEAF: u32 = 2;
/// `OPC_FLAT`: list every item id below the position.
pub const OPC_FLAT: u32 = 3;
/// Deepest level the walk descends to.
pub const MAX_DEPTH: usize = 50;

/// A browse call the walk asks the worker to make.
pub enum BrowseRequest {
    /// `QueryOrganization`.
    QueryOrganization,
    /// Open an enumerator over the ids of type `browse_type` at the position.
    List { browse_type: u32 },
    /// The next id of the open enumerator.
    NextItem,
    /// `GetItemID` of a leaf's browse name.
    ItemId { browse_name: String },
    /// Move down into a branch.
    Down { branch: String },
    /// Move up one level.
    Up,
    /// The walk is over.
    Finish(Result<Vec<String>, OpcError>),
}

/// What came of the last request.
pub enum BrowseReply {
    Organization(Result<u32, OpcError>),
    Listed(Result<(), OpcError>),
    /// The next id, or `None` at the end of the enumerator.
    Item(Option<Result<String, OpcError>>),
    ItemId(Result<String, OpcError>),
    Moved(Result<(), OpcError>),
}

/// Where one level of the tree walk is.
#[derive(Clone, Copy, PartialEq, Eq, Structural)]
pub enum LevelStage {
    /// Just entered; the limits decide whether to look at it.
    Enter,
    /// Waiting for the branch enumerator.
    OpeningBranches,
    /// Reading branch names.
    Branches,
    /// Waiting for the leaf enumerator.
    OpeningLeaves,
    /// Reading leaves.
    Leaves,
    /// Waiting for the full id of a leaf.
    Resolving,
    /// Descending into branch `next`.
    Descending,
    /// Climbing back from branch `next`.
    Climbing,
}

/// One level of the tree walk.
pub struct Level {
    pub stage: LevelStage,
    pub branches: Vec<String>,
    /// The branch to descend into next.
    pub next: usize,
    /// The leaf whose id is being resolved.
    pub pending: String,
}

/// The part of the walk before the tree walk.
#[derive(Clone, Copy, PartialEq, Eq, Structural)]
pub enum WalkPhase {
    Start,
    /// Waiting for the leaf enumerator of a flat server.
    OpeningFlatLeaves,
    /// Reading the leaves of a flat server.
    FlatLeaves,
    /// Waiting for the flat enumerator of a hierarchical server.
    OpeningFlat,
    /// Waiting for the first id of the flat enumerator.
    FlatFirst,
    /// Reading the rest of the flat enumerator.
    FlatRest,
    /// Walking the tree.
    Tree,
    Done,
}

/// The walk's state.
pub struct BrowseWalk {
    max_tags: usize,
    tags: Vec<String>,
    phase: WalkPhase,
    levels: Vec<Level>,
}

/// One level of the tree walk as a value.
#[verifier::ext_equal]
pub struct LevelView {
    pub stage: LevelStage,
    pub branches: Seq<Seq<char>>,
    pub next: nat,
    pub pending: Seq<char>,
}

/// A level as a value.
pub open spec fn level_view(l: Level) -> LevelView {
    LevelView {
        stage: l.stage,
        branches: l.branches@.map_values(|s: String| s@),
        next: l.next as nat,
        pending: l.pending@,
    }
}

/// The walk as a value: its limit, the ids collected, where it is, and the
/// levels of the tree walk, outermost first.
#[verifier::ext_equal]
pub struct WalkView {
    pub max_tags: usize,
    pub tags: Seq<Seq<char>>,
    pub phase: WalkPhase,
    pub levels: Seq<LevelView>,
}

/// A request as a value.
pub enum Ask {
    QueryOrganization,
    List(u32),
    NextItem,
    ItemId(Seq<char>),
    Down(Seq<char>),
    Up,
    /// The walk ended with these ids.
    Finished(Seq<Seq<char>>),
    /// The walk ended with this error.
    Failed(OpcError),
}

/// The value of a request.
pub open spec fn ask_of(r: BrowseRequest) -> Ask {
    match r {
        BrowseRequest::QueryOrganization => Ask::QueryOrganization,
        BrowseRequest::List { browse_type } => Ask::List(browse_type),
        BrowseRequest::NextItem => Ask::NextItem,
        BrowseRequest::ItemId { browse_name } => Ask::ItemId(browse_name@),
        BrowseRequest::Down { branch } => Ask::Down(branch@),
        BrowseRequest::Up => Ask::Up,
        BrowseRequest::Finish(Ok(v)) => Ask::Finished(v@.map_values(|s: String| s@)),
        BrowseRequest::Finish(Err(e)) => Ask::Failed(e),
    }
}

/// `w` with the given phase, ids and levels.
pub open spec fn walk_with(w: WalkView, phase: WalkPhase, tags: Seq<Seq<char>>, levels: Seq<LevelView>) -> WalkView {
    WalkView { max_tags: w.max_tags, tags, phase, levels }
}

/// `w` in phase `phase`.
pub open spec fn in_phase(w: WalkView, phase: WalkPhase) -> WalkView {
    walk_with(w, phase, w.tags, w.levels)
}

/// `w` with its innermost level replaced by `top`.
pub open spec fn with_top(w: WalkView, top: LevelView) -> WalkView {
    walk_with(w, w.phase, w.tags, w.levels.update(w.levels.len() - 1, top))
}

/// `w` with its innermost level at stage `stage`.
pub open spec fn with_stage(w: WalkView, stage: LevelStage) -> WalkView {
    let top = w.levels.last();
    with_top(w, LevelView { stage, branches: top.branches, next: top.next, pending: top.pending })
}

/// `w` with `tag` collected, when it has room for one more id.
pub open spec fn kept(w: WalkView, tag: Seq<char>) -> WalkView {
    if w.tags.len() < w.max_tags {
        walk_with(w, w.phase, w.tags.push(tag), w.levels)
    } else {
        w
    }
}

/// The walk ends with `result`: the collected ids, or the error.
pub open spec fn finished(w: WalkView, result: Result<(), OpcError>) -> (WalkView, Ask) {
    (walk_with(w, WalkPhase::Done, w.tags, Seq::empty()), match result {
        Ok(_) => Ask::Finished(w.tags),
        Err(e) => Ask::Failed(e),
    })
}

/// The innermost level is done with `result`: the walk ends with it when
/// that level was the outermost; otherwise the level above climbs back up.
pub open spec fn left(w: WalkView, result: Result<(), OpcError>) -> (WalkView, Ask) {
    let rest = w.levels.drop_last();
    if rest.len() == 0 {
        finished(w, result)
    } else {
        (with_stage(walk_with(w, w.phase, w.tags, rest), LevelStage::Climbing), Ask::Up)
    }
}

/// The innermost level was just entered: past the depth limit or with the
/// ids at their limit it is left at once, else its branches are listed.
pub open spec fn entered(w: WalkView) -> (WalkView, Ask) {
    if w.levels.len() - 1 > MAX_DEPTH || w.tags.len() >= w.max_tags {
        left(w, Ok(()))
    } else {
        (with_stage(w, LevelStage::OpeningBranches), Ask::List(OPC_BRANCH))
    }
}

/// The innermost level descends into its next branch, or is left when no
/// branch remains or the ids are at their limit.
pub open spec fn branch_taken(w: WalkView) -> (WalkView, Ask) {
    let top = w.levels.last();
    if top.next >= top.branches.len() || w.tags.len() >= w.max_tags {
        left(w, Ok(()))
    } else {
        (with_stage(w, LevelStage::Descending), Ask::Down(top.branches[top.next as int]))
    }
}

/// The innermost level moves past the branch it tried.
pub open spec fn advanced(w: WalkView) -> WalkView {
    let top = w.levels.last();
    with_top(w, LevelView {
        stage: LevelStage::Enter,
        branches: top.branches,
        next: if top.next < top.branches.len() { top.next + 1 } else { top.next },
        pending: top.pending,
    })
}

/// A level just entered.
pub open spec fn fresh_level() -> LevelView {
    LevelView { stage: LevelStage::Enter, branches: Seq::empty(), next: 0, pending: Seq::empty() }
}

/// The tree walk starts at the current position.
pub open spec fn tree_started(w: WalkView) -> (WalkView, Ask) {
    entered(walk_with(w, WalkPhase::Tree, w.tags, seq![fresh_level()]))
}

/// After an id of a listing: the walk ends at the limit, else reads on.
pub open spec fn listing_goes_on(w: WalkView) -> (WalkView, Ask) {
    if w.tags.len() >= w.max_tags {
        finished(w, Ok(()))
    } else {
        (w, Ask::NextItem)
    }
}

/// After a leaf of the tree walk: the level is left at the limit, else its
/// leaves are read on.
pub open spec fn leaves_go_on(w: WalkView) -> (WalkView, Ask) {
    if w.tags.len() >= w.max_tags {
        left(w, Ok(()))
    } else {
        (w, Ask::NextItem)
    }
}

/// One step of the tree walk: the innermost level's stage and the reply
/// decide the next state and request.  A reply that does not answer the
/// pending request repeats it.
pub open spec fn tree_walk_step(w: WalkView, reply: BrowseReply) -> (WalkView, Ask) {
    let top = w.levels.last();
    match top.stage {
        LevelStage::Enter => entered(w),
        LevelStage::OpeningBranches => match reply {
            BrowseReply::Listed(Ok(_)) => (with_stage(w, LevelStage::Branches), Ask::NextItem),
            BrowseReply::Listed(Err(e)) => left(w, Err(e)),
            _ => (w, Ask::List(OPC_BRANCH)),
        },
        LevelStage::Branches => match reply {
            BrowseReply::Item(None) => (with_stage(w, LevelStage::OpeningLeaves), Ask::List(OPC_LEAF)),
            BrowseReply::Item(Some(Ok(name))) => (
                with_top(w, LevelView {
                    stage: top.stage,
                    branches: top.branches.push(name@),
                    next: top.next,
                    pending: top.pending,
                }),
                Ask::NextItem,
            ),
            _ => (w, Ask::NextItem),
        },
        LevelStage::OpeningLeaves => match reply {
            BrowseReply::Listed(Ok(_)) => leaves_go_on(with_stage(w, LevelStage::Leaves)),
            BrowseReply::Listed(Err(e)) => left(w, Err(e)),
            _ => (w, Ask::List(OPC_LEAF)),
        },
        LevelStage::Leaves => match reply {
            BrowseReply::Item(None) => branch_taken(w),
            BrowseReply::Item(Some(Err(e))) => left(w, Err(e)),
            BrowseReply::Item(Some(Ok(name))) => (
                with_top(w, LevelView {
                    stage: LevelStage::Resolving,
                    branches: top.branches,
                    next: top.next,
                    pending: name@,
                }),
                Ask::ItemId(name@),
            ),
            _ => (w, Ask::NextItem),
        },
        LevelStage::Resolving => match reply {
            BrowseReply::ItemId(r) => {
                let tag = match r {
                    Ok(id) => id@,
                    Err(_) => top.pending,
                };
                leaves_go_on(with_stage(kept(w, tag), LevelStage::Leaves))
            },
            _ => (w, Ask::ItemId(top.pending)),
        },
        LevelStage::Descending => match reply {
            BrowseReply::Moved(Ok(_)) => if w.levels.len() >= MAX_DEPTH + 2 {
                (with_stage(w, LevelStage::Climbing), Ask::Up)
            } else {
                entered(walk_with(w, w.phase, w.tags, w.levels.push(fresh_level())))
            },
            BrowseReply::Moved(Err(_)) => branch_taken(advanced(w)),
            _ => branch_taken(w),
        },
        LevelStage::Climbing => match reply {
            BrowseReply::Moved(Ok(_)) => branch_taken(advanced(w)),
            BrowseReply::Moved(Err(_)) => left(w, Ok(())),
            _ => (w, Ask::Up),
        },
    }
}

/// One step of the walk: its phase and the reply to the last request
/// decide the next state and request.  A reply that does not answer the
/// pending request repeats it.
pub open spec fn walk_step(w: WalkView, reply: BrowseReply) -> (WalkView, Ask) {
    match w.phase {
        WalkPhase::Done => finished(w, Ok(())),
        WalkPhase::Start => match reply {
            BrowseReply::Organization(Ok(org)) => if org == OPC_NS_FLAT {
                (in_phase(w, WalkPhase::OpeningFlatLeaves), Ask::List(OPC_LEAF))
            } else {
                (in_phase(w, WalkPhase::OpeningFlat), Ask::List(OPC_FLAT))
            },
            BrowseReply::Organization(Err(e)) => finished(w, Err(e)),
            _ => (w, Ask::QueryOrganization),
        },
        WalkPhase::OpeningFlatLeaves => match reply {
            BrowseReply::Listed(Ok(_)) => listing_goes_on(in_phase(w, WalkPhase::FlatLeaves)),
            BrowseReply::Listed(Err(e)) => finished(w, Err(e)),
            _ => (w, Ask::List(OPC_LEAF)),
        },
        WalkPhase::FlatLeaves => match reply {
            BrowseReply::Item(None) => finished(w, Ok(())),
            BrowseReply::Item(Some(Err(e))) => finished(w, Err(e)),
            BrowseReply::Item(Some(Ok(tag))) => listing_goes_on(kept(w, tag@)),
            _ => (w, Ask::NextItem),
        },
        WalkPhase::OpeningFlat => match reply {
            BrowseReply::Listed(Ok(_)) => (in_phase(w, WalkPhase::FlatFirst), Ask::NextItem),
            BrowseReply::Listed(Err(_)) => tree_started(w),
            _ => (w, Ask::List(OPC_FLAT)),
        },
        WalkPhase::FlatFirst => match reply {
            BrowseReply::Item(Some(Ok(tag))) => listing_goes_on(in_phase(kept(w, tag@), WalkPhase::FlatRest)),
            BrowseReply::Item(_) => tree_started(w),
            _ => (w, Ask::NextItem),
        },
        WalkPhase::FlatRest => match reply {
            BrowseReply::Item(None) => finished(w, Ok(())),
            BrowseReply::Item(Some(Err(_))) => (w, Ask::NextItem),
            BrowseReply::Item(Some(Ok(tag))) => listing_goes_on(kept(w, tag@)),
            _ => (w, Ask::NextItem),
        },
        WalkPhase::Tree => tree_walk_step(w, reply),
    }
}

/// The id a reply carries for the ids being collected: a listed id, a
/// resolved full id, or, when resolving failed, the browse name of the
/// leaf being resolved.
pub open spec fn reply_id(w: WalkView, reply: BrowseReply) -> Option<Seq<char>> {
    match reply {
        BrowseReply::Item(Some(Ok(t))) => Some(t@),
        BrowseReply::ItemId(Ok(id)) => Some(id@),
        BrowseReply::ItemId(Err(_)) => if w.levels.len() > 0 {
            Some(w.levels.last().pending)
        } else {
            None
        },
        _ => None,
    }
}

/// A hierarchical server whose flat listing cannot be opened, or hands out
/// no first id, is walked as a tree: the walk enters the tree at the
/// current position with one level and first asks for its branches; only
/// when no id may be collected at all does it end, with the ids it has.
pub proof fn lemma_empty_flat_listing_walks_tree(w: WalkView, reply: BrowseReply)
    requires
        (w.phase == WalkPhase::FlatFirst && reply is Item && !(reply matches BrowseReply::Item(Some(Ok(_)))))
            || (w.phase == WalkPhase::OpeningFlat && reply matches BrowseReply::Listed(Err(_))),
    ensures
        walk_step(w, reply).0.tags == w.tags,
        walk_step(w, reply).0.max_tags == w.max_tags,
        w.tags.len() < w.max_tags ==> walk_step(w, reply).0.phase == WalkPhase::Tree && walk_step(
            w,
            reply,
        ).0.levels.len() == 1 && walk_step(w, reply).1 == Ask::List(OPC_BRANCH),
        w.tags.len() >= w.max_tags ==> walk_step(w, reply).0.phase == WalkPhase::Done && walk_step(w, reply).1
            == Ask::Finished(w.tags),
{
}

/// A step keeps the ids collected so far and adds at most one: the id the
/// reply carries, and only while fewer than `max_tags` are held.
pub proof fn lemma_step_collects_reply_id(w: WalkView, reply: BrowseReply)
    requires
        w.phase == WalkPhase::Tree ==> w.levels.len() >= 1,
    ensures
        ({
            let t = walk_step(w, reply).0.tags;
            t == w.tags || (t == w.tags.push(t.last()) && reply_id(w, reply) == Some(t.last()) && w.tags.len()
                < w.max_tags)
        }),
{
}

impl BrowseWalk {
    /// The walk as a value.
    pub closed spec fn view(&self) -> WalkView {
        WalkView {
            max_tags: self.max_tags,
            tags: self.tags@.map_values(|s: String| s@),
            phase: self.phase,
            levels: self.levels@.map_values(|l: Level| level_view(l)),
        }
    }

    /// The ids collected so far.
    pub open spec fn tags(&self) -> Seq<Seq<char>> {
        self.view().tags
    }

    /// The limit on collected ids.
    pub open spec fn max_tags(&self) -> usize {
        self.view().max_tags
    }

    /// Where the walk is.
    pub open spec fn phase(&self) -> WalkPhase {
        self.view().phase
    }

    /// How many levels deep the tree walk is.
    pub open spec fn depth(&self) -> nat {
        self.view().levels.len()
    }

    /// The collected ids stay within the bound, levels exist only during the
    /// tree walk, and no level lies deeper than the limit.
    pub closed spec fn wf(&self) -> bool {
        &&& self.tags@.len() <= self.max_tags
        &&& self.levels@.len() <= MAX_DEPTH + 2
        &&& (self.phase != WalkPhase::Tree ==> self.levels@.len() == 0)
        &&& (self.phase == WalkPhase::Tree ==> self.levels@.len() >= 1)
        &&& forall|i: int| 0 <= i < self.levels@.len() ==> #[trigger] self.levels@[i].next <= self.levels@[i].branches@.len()
    }

    /// A well-formed walk never holds more than `max_tags` ids.
    pub proof fn lemma_within_limit(&self)
        requires
            self.wf(),
        ensures
            self.tags().len() <= self.max_tags(),
    {
    }

    /// A walk collecting at most `max_tags` ids, and its first request.
    pub fn new(max_tags: usize) -> (r: (Self, BrowseRequest))
        ensures
            r.0.wf(),
            r.0.max_tags() == max_tags,
            r.0.tags().len() == 0,
            r.0.phase() == WalkPhase::Start,
            r.1 is QueryOrganization,
    {
        let w = BrowseWalk { max_tags, tags: Vec::new(), phase: WalkPhase::Start, levels: Vec::new() };
        assert(w.tags() =~= Seq::<Seq<char>>::empty());
        (w, BrowseRequest::QueryOrganization)
    }

    /// Adds `tag` to the collected ids.
    fn keep(&mut self, tag: String)
        requires
            old(self).wf(),
            old(self).tags@.len() < old(self).max_tags,
        ensures
            final(self).wf(),
            final(self).tags() == old(self).tags().push(tag@),
            final(self).max_tags == old(self).max_tags,
            final(self).phase == old(self).phase,
            final(self).levels == old(self).levels,
            final(self)@ == walk_with(old(self)@, old(self)@.phase, old(self)@.tags.push(tag@), old(self)@.levels),
    {
        let ghost v = tag@;
        self.tags.push(tag);
        assert(self.tags() =~= old(self).tags().push(v));
    }

    /// Ends the walk with `result`.
    fn finish(&mut self, result: Result<(), OpcError>) -> (req: BrowseRequest)
        requires
            old(self).wf(),
        ensures
            final(self).wf(),
            final(self).phase() == WalkPhase::Done,
            final(self).tags() == old(self).tags(),
            final(self).max_tags() == old(self).max_tags(),
            result matches Err(e) ==> req == BrowseRequest::Finish(Err(e)),
            result is Ok ==> (req matches BrowseRequest::Finish(Ok(v)) && v@.map_values(|s: String| s@)
                == old(self).tags()),
            req matches BrowseRequest::Finish(Ok(v)) ==> v@.map_values(|s: String| s@) == final(self).tags(),
            (final(self)@, ask_of(req)) == finished(old(self)@, result),
    {
        self.phase = WalkPhase::Done;
        self.levels = Vec::new();
        match result {
            Err(e) => BrowseRequest::Finish(Err(e)),
            Ok(()) => {
                let mut out: Vec<String> = Vec::new();
                std::mem::swap(&mut out, &mut self.tags);
                let r = BrowseRequest::Finish(Ok(out.clone()));
                self.tags = out;
                r
            },
        }
    }

    /// The tree walk's next request from the innermost level, which was
    /// just entered or resumed.
    fn enter_level(&mut self) -> (req: BrowseRequest)
        requires
            old(self).wf(),
            old(self).phase == WalkPhase::Tree,
        ensures
            final(self).wf(),
            final(self).phase == WalkPhase::Tree || final(self).phase == WalkPhase::Done,
            final(self).tags() == old(self).tags(),
            final(self).max_tags() == old(self).max_tags(),
            req matches BrowseRequest::Finish(Ok(v)) ==> v@.map_values(|s: String| s@) == final(self).tags(),
            (final(self)@, ask_of(req)) == entered(old(self)@),
    {
        let d = self.levels.len() - 1;
        if d > MAX_DEPTH || self.tags.len() >= self.max_tags {
            return self.leave_level(Ok(()));
        }
        let mut top = self.levels.pop().unwrap();
        top.stage = LevelStage::OpeningBranches;
        self.levels.push(top);
        BrowseRequest::List { browse_type: OPC_BRANCH }
    }

    /// The innermost level is done with `result`: the walk ends when it was
    /// the outermost one; otherwise the level above climbs back up (a failed
    /// inner level is passed over).
    fn leave_level(&mut self, result: Result<(), OpcError>) -> (req: BrowseRequest)
        requires
            old(self).wf(),
            old(self).phase == WalkPhase::Tree,
        ensures
            final(self).wf(),
            final(self).phase == WalkPhase::Tree || final(self).phase == WalkPhase::Done,
            final(self).tags() == old(self).tags(),
            final(self).max_tags() == old(self).max_tags(),
            req matches BrowseRequest::Finish(Ok(v)) ==> v@.map_values(|s: String| s@) == final(self).tags(),
            (final(self)@, ask_of(req)) == left(old(self)@, result),
    {
        let _done = self.levels.pop();
        if self.levels.len() == 0 {
            self.phase = WalkPhase::Start;
            return self.finish(result);
        }
        let mut top = self.levels.pop().unwrap();
        top.stage = LevelStage::Climbing;
        self.levels.push(top);
        BrowseRequest::Up
    }

    /// The level's next branch to descend into, or the level's end.
    fn next_branch(&mut self) -> (req: BrowseRequest)
        requires
            old(self).wf(),
            old(self).phase == WalkPhase::Tree,
        ensures
            final(self).wf(),
            final(self).tags() == old(self).tags(),
            final(self).max_tags() == old(self).max_tags(),
            req matches BrowseRequest::Finish(Ok(v)) ==> v@.map_values(|s: String| s@) == final(self).tags(),
            (final(self)@, ask_of(req)) == branch_taken(old(self)@),
    {
        let d = self.levels.len() - 1;
        let next = self.levels[d].next;
        if next >= self.levels[d].branches.len() || self.tags.len() >= self.max_tags {
            return self.leave_level(Ok(()));
        }
        let branch = self.levels[d].branches[next].clone();
        let mut top = self.levels.pop().unwrap();
        top.stage = LevelStage::Descending;
        self.levels.push(top);
        BrowseRequest::Down { branch }
    }

    /// Takes what came of the last request and gives the next one: the new
    /// state and request are those [`walk_step`] gives.
    pub fn step(&mut self, reply: BrowseReply) -> (req: BrowseRequest)
        requires
            old(self).wf(),
        ensures
            final(self).wf(),
            final(self).max_tags() == old(self).max_tags(),
            final(self).tags().len() >= old(self).tags().len(),
            final(self).tags().take(old(self).tags().len() as int) == old(self).tags(),
            final(self).tags().len() <= old(self).tags().len() + 1,
            final(self).tags().len() == old(self).tags().len() + 1 ==> old(self).tags().len() < old(
                self,
            ).max_tags(),
            old(self).phase() == WalkPhase::Done ==> final(self).phase() == WalkPhase::Done && final(self).tags()
                == old(self).tags(),
            old(self).phase() == WalkPhase::Start ==> (reply matches BrowseReply::Organization(Ok(org)) ==> req
                == (BrowseRequest::List { browse_type: if org == OPC_NS_FLAT { OPC_LEAF } else { OPC_FLAT } })),
            old(self).phase() == WalkPhase::Start ==> (reply matches BrowseReply::Organization(Err(e)) ==> req
                == BrowseRequest::Finish(Err(e))),
            old(self).phase() == WalkPhase::FlatLeaves ==> (reply matches BrowseReply::Item(Some(Err(e))) ==> req
                == BrowseRequest::Finish(Err(e))),
            old(self).phase() == WalkPhase::FlatRest ==> (reply matches BrowseReply::Item(Some(Err(_)))
                ==> (req is NextItem && final(self).tags() == old(self).tags())),
            old(self).phase() == WalkPhase::OpeningFlat ==> (reply matches BrowseReply::Listed(Err(_))
                ==> (final(self).phase() == WalkPhase::Tree || final(self).phase() == WalkPhase::Done)),
            req matches BrowseRequest::Finish(Ok(v)) ==> v@.map_values(|s: String| s@) == final(self).tags(),
            (final(self)@, ask_of(req)) == walk_step(old(self)@, reply),
    {
        let ghost before = self.tags();
        let r = self.step_inner(reply);
        assert(self.tags().take(before.len() as int) =~= before) by {
            if self.tags().len() == before.len() + 1 {
                assert(self.tags() =~= before.push(self.tags().last()));
            }
        }
        r
    }

    fn step_inner(&mut self, reply: BrowseReply) -> (req: BrowseRequest)
        requires
            old(self).wf(),
        ensures
            final(self).wf(),
            final(self).max_tags() == old(self).max_tags(),
            final(self).tags() == old(self).tags() || (final(self).tags().len() == old(self).tags().len() + 1
                && final(self).tags().drop_last() == old(self).tags() && old(self).tags().len() < old(
                self,
            ).max_tags()),
            old(self).phase() == WalkPhase::Done ==> final(self).phase() == WalkPhase::Done && final(self).tags()
                == old(self).tags(),
            old(self).phase() == WalkPhase::Start ==> (reply matches BrowseReply::Organization(Ok(org)) ==> req
                == (BrowseRequest::List { browse_type: if org == OPC_NS_FLAT { OPC_LEAF } else { OPC_FLAT } })),
            old(self).phase() == WalkPhase::Start ==> (reply matches BrowseReply::Organization(Err(e)) ==> req
                == BrowseRequest::Finish(Err(e))),
            old(self).phase() == WalkPhase::FlatLeaves ==> (reply matches BrowseReply::Item(Some(Err(e))) ==> req
                == BrowseRequest::Finish(Err(e))),
            old(self).phase() == WalkPhase::FlatRest ==> (reply matches BrowseReply::Item(Some(Err(_)))
                ==> (req is NextItem && final(self).tags() == old(self).tags())),
            old(self).phase() == WalkPhase::OpeningFlat ==> (reply matches BrowseReply::Listed(Err(_))
                ==> (final(self).phase() == WalkPhase::Tree || final(self).phase() == WalkPhase::Done)),
            req matches BrowseRequest::Finish(Ok(v)) ==> v@.map_values(|s: String| s@) == final(self).tags(),
            (final(self)@, ask_of(req)) == walk_step(old(self)@, reply),
    {
        let phase = self.phase;
        match phase {
            WalkPhase::Done => {
                let r = self.finish(Ok(()));
                return r;
            },
            WalkPhase::Start => {
                match reply {
                    BrowseReply::Organization(Ok(org)) => {
                        if org == OPC_NS_FLAT {
                            self.phase = WalkPhase::OpeningFlatLeaves;
                            BrowseRequest::List { browse_type: OPC_LEAF }
                        } else {
                            self.phase = WalkPhase::OpeningFlat;
                            BrowseRequest::List { browse_type: OPC_FLAT }
                        }
                    },
                    BrowseReply::Organization(Err(e)) => self.finish(Err(e)),
                    _ => BrowseRequest::QueryOrganization,
                }
            },
            WalkPhase::OpeningFlatLeaves => {
                match reply {
                    BrowseReply::Listed(Ok(())) => {
                        self.phase = WalkPhase::FlatLeaves;
                        if self.tags.len() >= self.max_tags {
                            self.finish(Ok(()))
                        } else {
                            BrowseRequest::NextItem
                        }
                    },
                    BrowseReply::Listed(Err(e)) => self.finish(Err(e)),
                    _ => BrowseRequest::List { browse_type: OPC_LEAF },
                }
            },
            WalkPhase::FlatLeaves => {
                match reply {
                    BrowseReply::Item(None) => self.finish(Ok(())),
                    BrowseReply::Item(Some(Err(e))) => self.finish(Err(e)),
                    BrowseReply::Item(Some(Ok(tag))) => {
                        if self.tags.len() < self.max_tags {
                            self.keep(tag);
                        }
                        if self.tags.len() >= self.max_tags {
                            self.finish(Ok(()))
                        } else {
                            BrowseRequest::NextItem
                        }
                    },
                    _ => BrowseRequest::NextItem,
                }
            },
            WalkPhase::OpeningFlat => {
                match reply {
                    BrowseReply::Listed(Ok(())) => {
                        self.phase = WalkPhase::FlatFirst;
                        BrowseRequest::NextItem
                    },
                    BrowseReply::Listed(Err(_)) => self.start_tree(),
                    _ => BrowseRequest::List { browse_type: OPC_FLAT },
                }
            },
            WalkPhase::FlatFirst => {
                match reply {
                    BrowseReply::Item(Some(Ok(tag))) => {
                        if self.tags.len() < self.max_tags {
                            self.keep(tag);
                        }
                        self.phase = WalkPhase::FlatRest;
                        if self.tags.len() >= self.max_tags {
                            self.finish(Ok(()))
                        } else {
                            BrowseRequest::NextItem
                        }
                    },
                    BrowseReply::Item(_) => self.start_tree(),
                    _ => BrowseRequest::NextItem,
                }
            },
            WalkPhase::FlatRest => {
                match reply {
                    BrowseReply::Item(None) => self.finish(Ok(())),
                    BrowseReply::Item(Some(Err(_))) => BrowseRequest::NextItem,
                    BrowseReply::Item(Some(Ok(tag))) => {
                        if self.tags.len() < self.max_tags {
                            self.keep(tag);
                        }
                        if self.tags.len() >= self.max_tags {
                            self.finish(Ok(()))
                        } else {
                            BrowseRequest::NextItem
                        }
                    },
                    _ => BrowseRequest::NextItem,
                }
            },
            WalkPhase::Tree => self.tree_step(reply),
        }
    }

    /// Starts the tree walk at the current position.
    fn start_tree(&mut self) -> (req: BrowseRequest)
        requires
            old(self).wf(),
            old(self).phase != WalkPhase::Tree,
        ensures
            final(self).wf(),
            final(self).phase == WalkPhase::Tree || final(self).phase == WalkPhase::Done,
            final(self).tags() == old(self).tags(),
            final(self).max_tags() == old(self).max_tags(),
            req matches BrowseRequest::Finish(Ok(v)) ==> v@.map_values(|s: String| s@) == final(self).tags(),
            (final(self)@, ask_of(req)) == tree_started(old(self)@),
    {
        let ghost w0 = walk_with(self@, WalkPhase::Tree, self@.tags, seq![fresh_level()]);
        self.phase = WalkPhase::Tree;
        self.levels = Vec::new();
        let first = Level { stage: LevelStage::Enter, branches: Vec::new(), next: 0, pending: String::new() };
        assert(level_view(first) =~= fresh_level());
        self.levels.push(first);
        assert(self@.levels =~= w0.levels);
        assert(self@ =~= w0);
        self.enter_level()
    }

    /// One step of the tree walk.
    fn tree_step(&mut self, reply: BrowseReply) -> (req: BrowseRequest)
        requires
            old(self).wf(),
            old(self).phase == WalkPhase::Tree,
        ensures
            final(self).wf(),
            final(self).max_tags() == old(self).max_tags(),
            final(self).tags() == old(self).tags() || (final(self).tags().len() == old(self).tags().len() + 1
                && final(self).tags().drop_last() == old(self).tags() && old(self).tags().len() < old(
                self,
            ).max_tags()),
            req matches BrowseRequest::Finish(Ok(v)) ==> v@.map_values(|s: String| s@) == final(self).tags(),
            (final(self)@, ask_of(req)) == tree_walk_step(old(self)@, reply),
    {
        let d = self.levels.len() - 1;
        let stage = self.levels[d].stage;
        match stage {
            LevelStage::Enter => self.enter_level(),
            LevelStage::OpeningBranches => {
                match reply {
                    BrowseReply::Listed(Ok(())) => {
                        self.set_stage(LevelStage::Branches);
                        BrowseRequest::NextItem
                    },
                    BrowseReply::Listed(Err(e)) => self.leave_level(Err(e)),
                    _ => BrowseRequest::List { browse_type: OPC_BRANCH },
                }
            },
            LevelStage::Branches => {
                match reply {
                    BrowseReply::Item(None) => {
                        self.set_stage(LevelStage::OpeningLeaves);
                        BrowseRequest::List { browse_type: OPC_LEAF }
                    },
                    BrowseReply::Item(Some(Ok(name))) => {
                        let ghost w0 = self@;
                        let ghost nv = name@;
                        let mut top = self.levels.pop().unwrap();
                        top.branches.push(name);
                        proof {
                            let t0 = w0.levels.last();
                            assert(level_view(top) =~= (LevelView {
                                stage: t0.stage,
                                branches: t0.branches.push(nv),
                                next: t0.next,
                                pending: t0.pending,
                            }));
                        }
                        self.levels.push(top);
                        assert(self@.levels =~= w0.levels.update(w0.levels.len() - 1, level_view(top)));
                        BrowseRequest::NextItem
                    },
                    _ => BrowseRequest::NextItem,
                }
            },
            LevelStage::OpeningLeaves => {
                match reply {
                    BrowseReply::Listed(Ok(())) => {
                        self.set_stage(LevelStage::Leaves);
                        if self.tags.len() >= self.max_tags {
                            self.leave_level(Ok(()))
                        } else {
                            BrowseRequest::NextItem
                        }
                    },
                    BrowseReply::Listed(Err(e)) => self.leave_level(Err(e)),
                    _ => BrowseRequest::List { browse_type: OPC_LEAF },
                }
            },
            LevelStage::Leaves => {
                match reply {
                    BrowseReply::Item(None) => self.next_branch(),
                    BrowseReply::Item(Some(Err(e))) => self.leave_level(Err(e)),
                    BrowseReply::Item(Some(Ok(name))) => {
                        let ghost w0 = self@;
                        let mut top = self.levels.pop().unwrap();
                        top.stage = LevelStage::Resolving;
                        top.pending = name.clone();
                        self.levels.push(top);
                        assert(self@.levels =~= w0.levels.update(w0.levels.len() - 1, level_view(top)));
                        BrowseRequest::ItemId { browse_name: name }
                    },
                    _ => BrowseRequest::NextItem,
                }
            },
            LevelStage::Resolving => {
                match reply {
                    BrowseReply::ItemId(result) => {
                        let tag = match result {
                            Ok(id) => id,
                            Err(_) => self.levels[d].pending.clone(),
                        };
                        if self.tags.len() < self.max_tags {
                            self.keep(tag);
                        }
                        self.set_stage(LevelStage::Leaves);
                        if self.tags.len() >= self.max_tags {
                            self.leave_level(Ok(()))
                        } else {
                            BrowseRequest::NextItem
                        }
                    },
                    _ => BrowseRequest::ItemId { browse_name: self.levels[d].pending.clone() },
                }
            },
            LevelStage::Descending => {
                match reply {
                    BrowseReply::Moved(Ok(())) => {
                        if self.levels.len() >= MAX_DEPTH + 2 {
                            self.set_stage(LevelStage::Climbing);
                            return BrowseRequest::Up;
                        }
                        let ghost w0 = self@;
                        let fresh = Level { stage: LevelStage::Enter, branches: Vec::new(), next: 0, pending: String::new() };
                        assert(level_view(fresh) =~= fresh_level());
                        self.levels.push(fresh);
                        assert(self@.levels =~= w0.levels.push(fresh_level()));
                        assert(self@ =~= walk_with(w0, w0.phase, w0.tags, w0.levels.push(fresh_level())));
                        self.enter_level()
                    },
                    BrowseReply::Moved(Err(_)) => {
                        self.advance_branch();
                        self.next_branch()
                    },
                    _ => self.next_branch(),
                }
            },
            LevelStage::Climbing => {
                match reply {
                    BrowseReply::Moved(Ok(())) => {
                        self.advance_branch();
                        self.next_branch()
                    },
                    BrowseReply::Moved(Err(_)) => self.leave_level(Ok(())),
                    _ => BrowseRequest::Up,
                }
            },
        }
    }

    /// Sets the innermost level's stage.
    fn set_stage(&mut self, stage: LevelStage)
        requires
            old(self).wf(),
            old(self).phase == WalkPhase::Tree,
        ensures
            final(self).wf(),
            final(self).tags == old(self).tags,
            final(self).max_tags == old(self).max_tags,
            final(self).phase == old(self).phase,
            final(self).levels@.len() == old(self).levels@.len(),
            final(self)@ == with_stage(old(self)@, stage),
    {
        let mut top = self.levels.pop().unwrap();
        top.stage = stage;
        self.levels.push(top);
    }

    /// The innermost level moves on to its next branch.
    fn advance_branch(&mut self)
        requires
            old(self).wf(),
            old(self).phase == WalkPhase::Tree,
        ensures
            final(self).wf(),
            final(self).tags == old(self).tags,
            final(self).max_tags == old(self).max_tags,
            final(self).phase == old(self).phase,
            final(self).levels@.len() == old(self).levels@.len(),
            final(self)@ == advanced(old(self)@),
    {
        let mut top = self.levels.pop().unwrap();
        if top.next < top.branches.len() {
            top.next = top.next + 1;
        }
        top.stage = LevelStage::Enter;
        self.levels.push(top);
    }
}

/// The id of child branch `name` of the branch at `parent`: `parent.name`,
/// or just `name` at the root (no or an empty parent path).
pub open spec fn child_branch_id(parent: Option<Seq<char>>, name: Seq<char>) -> Seq<char> {
    match parent {
        Some(p) => if p.len() == 0 {
            name
        } else {
            p + "."@ + name
        },
        None => name,
    }
}

/// A child branch of the branch at `parent`, with its full id.
pub fn branch_node(parent: &Option<String>, name: String) -> (b: BranchNode)
    ensures
        b.name@ == name@,
        b.id@ == child_branch_id(
            match parent {
                Some(p) => Some(p@),
                None => None,
            },
            name@,
        ),
{
    let id = match parent {
        Some(p) => {
            if p.as_str().unicode_len() == 0 {
                name.clone()
            } else {
                let mut id = p.clone();
                id.append(".");
                id.append(name.as_str());
                id
            }
        },
        None => name.clone(),
    };
    BranchNode { id, name }
}

} // verus!
