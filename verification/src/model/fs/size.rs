//! How big a selection is: the walk that counts files and bytes below one or
//! more locations.
//!
//! As with copying, the walk performs no input or output itself: it hands out
//! one [`SizeAction`] at a time and takes the outcome back.
use crate::model::fs::entry::{EntryKind, FileEntry, entries};
use crate::model::fs::ops::{add_u64, add_usize, children_of, reversed, sum_u64, sum_usize};
use crate::model::vfs::{Location, LocationView, copy_locations, locations};
use crate::text::copy_bytes;
use vstd::prelude::*;

verus! {

/// Identifies one request.
#[derive(Debug, Clone, Copy, PartialEq, Eq, Hash, Structural)]
pub struct SizeRequestId(u64);

impl SizeRequestId {
    /// The number behind the identifier.
    pub closed spec fn number(self) -> nat {
        self.0 as nat
    }
}

/// Hands out [`SizeRequestId`]s in increasing order.
#[derive(Debug)]
pub struct SizeIdSource(u64);

impl SizeIdSource {
    /// How many identifiers have been handed out.
    pub closed spec fn issued(&self) -> nat {
        self.0 as nat
    }

    /// The next identifier: greater than every one handed out before.
    pub fn allocate(&mut self) -> (r: SizeRequestId)
        requires
            old(self).issued() < u64::MAX,
        ensures
            r.number() == old(self).issued() + 1,
            final(self).issued() == old(self).issued() + 1,
    {
        self.0 = self.0 + 1;
        SizeRequestId(self.0)
    }
}

impl Default for SizeIdSource {
    fn default() -> (r: Self)
        ensures
            r.issued() == 0,
    {
        SizeIdSource(0)
    }
}

/// One request: the selected locations.
#[derive(Debug)]
pub struct SizeRequest {
    pub id: SizeRequestId,
    pub roots: Vec<Location>,
    /// Whether cancellation has been requested.
    pub cancel: bool,
}

impl SizeRequest {
    /// A request that nobody has cancelled.
    pub fn new(id: SizeRequestId, roots: Vec<Location>) -> (r: Self)
        ensures
            r.id == id,
            r.roots == roots,
            !r.cancel,
    {
        SizeRequest { id, roots, cancel: false }
    }

    /// Requests cancellation; the walk notices at its next step.
    pub fn request_cancel(&mut self)
        ensures
            final(self).cancel,
            final(self).id == old(self).id,
            final(self).roots == old(self).roots,
    {
        self.cancel = true;
    }

    /// Whether cancellation has been requested.
    pub fn is_cancelled(&self) -> (r: bool)
        ensures
            r == self.cancel,
    {
        self.cancel
    }
}

/// Hashes by identifier alone.
impl std::hash::Hash for SizeRequest {
    fn hash<H: std::hash::Hasher>(&self, state: &mut H) {
        self.id.0.hash(state);
    }
}

/// What the walk reports. Every event carries the totals so far.
#[derive(Debug, Clone, Copy, PartialEq, Eq, Structural)]
pub enum SizeEvent {
    /// Another file has been counted.
    Progress { files: usize, bytes: u64 },
    /// Everything has been visited.
    Finished { files: usize, bytes: u64 },
    /// The walk was stopped; the totals are partial.
    Cancelled { files: usize, bytes: u64 },
}

/// What the walk is waiting for.
#[derive(Debug)]
pub enum SizeStage<L> {
    Ready,
    Resolve { location: L },
    Stat { location: L },
    List { location: L },
    Over,
}

/// What the application is to do next.
#[derive(Debug)]
pub enum SizeAction<L = Location> {
    /// Find the backend of a location.
    Resolve { location: L },
    Stat { location: L },
    List { location: L },
    /// Deliver the last event without fail, and stop.
    Finish { event: SizeEvent },
    /// Stop.
    Halt,
}

/// The outcome of a [`SizeAction`].
#[derive(Debug)]
pub enum SizeReply<F = FileEntry, V = Vec<FileEntry>> {
    Start,
    /// Whether there is a backend.
    Backend(bool),
    /// The entry, if it could be read.
    Entry(Option<F>),
    /// The listing, if it could be read.
    Listing(Option<V>),
}

/// The model of a [`SizeReply`].
pub type SizeReplyView = SizeReply<FileEntry<Seq<u8>>, Seq<FileEntry<Seq<u8>>>>;

impl View for SizeStage<Location> {
    type V = SizeStage<LocationView>;

    open spec fn view(&self) -> SizeStage<LocationView> {
        match self {
            SizeStage::Ready => SizeStage::Ready,
            SizeStage::Resolve { location } => SizeStage::Resolve { location: location@ },
            SizeStage::Stat { location } => SizeStage::Stat { location: location@ },
            SizeStage::List { location } => SizeStage::List { location: location@ },
            SizeStage::Over => SizeStage::Over,
        }
    }
}

impl View for SizeAction {
    type V = SizeAction<LocationView>;

    open spec fn view(&self) -> SizeAction<LocationView> {
        match self {
            SizeAction::Resolve { location } => SizeAction::Resolve { location: location@ },
            SizeAction::Stat { location } => SizeAction::Stat { location: location@ },
            SizeAction::List { location } => SizeAction::List { location: location@ },
            SizeAction::Finish { event } => SizeAction::Finish { event: *event },
            SizeAction::Halt => SizeAction::Halt,
        }
    }
}

impl View for SizeReply {
    type V = SizeReplyView;

    open spec fn view(&self) -> SizeReplyView {
        match self {
            SizeReply::Start => SizeReply::Start,
            SizeReply::Backend(b) => SizeReply::Backend(*b),
            SizeReply::Entry(e) => SizeReply::Entry(
                match e {
                    Some(e) => Some(e@),
                    None => None,
                },
            ),
            SizeReply::Listing(v) => SizeReply::Listing(
                match v {
                    Some(v) => Some(entries(v@)),
                    None => None,
                },
            ),
        }
    }
}

/// The state of a walk.
#[verifier::ext_equal]
pub struct SizeState {
    pub roots: Seq<LocationView>,
    /// What is still to be visited, next last.
    pub todo: Seq<LocationView>,
    pub files: usize,
    pub bytes: u64,
    pub stage: SizeStage<LocationView>,
}

/// What a step of the walk gives out: perhaps a progress event, and the next
/// action.
pub type SizeOut = (Option<SizeEvent>, SizeAction<LocationView>);

/// Visits the next location. Cancellation is noticed here, between any two
/// locations and after the last one.
pub open spec fn visit_next(s: SizeState, cancel: bool) -> (SizeState, SizeAction<LocationView>) {
    if cancel {
        (
            SizeState { stage: SizeStage::Over, ..s },
            SizeAction::Finish { event: SizeEvent::Cancelled { files: s.files, bytes: s.bytes } },
        )
    } else if s.todo.len() == 0 {
        (
            SizeState { stage: SizeStage::Over, ..s },
            SizeAction::Finish { event: SizeEvent::Finished { files: s.files, bytes: s.bytes } },
        )
    } else {
        let location = s.todo.last();
        (
            SizeState { todo: s.todo.drop_last(), stage: SizeStage::Resolve { location }, ..s },
            SizeAction::Resolve { location },
        )
    }
}

/// One step of the walk. What cannot be read counts as nothing, and a reply
/// that does not answer what was asked for halts the walk.
pub open spec fn size_step(s: SizeState, reply: SizeReplyView, cancel: bool) -> (
    SizeState,
    SizeOut,
) {
    match (s.stage, reply) {
        (SizeStage::Ready, SizeReply::Start) => {
            let (t, action) = visit_next(
                SizeState { todo: s.roots.reverse(), ..s },
                cancel && s.roots.len() > 0,
            );
            (t, (None, action))
        },
        (SizeStage::Resolve { location }, SizeReply::Backend(found)) => if found {
            (
                SizeState { stage: SizeStage::Stat { location }, ..s },
                (None, SizeAction::Stat { location }),
            )
        } else {
            let (t, action) = visit_next(s, cancel);
            (t, (None, action))
        },
        (SizeStage::Stat { location }, SizeReply::Entry(e)) => match e {
            Some(meta) => if meta.kind == EntryKind::Directory {
                (
                    SizeState { stage: SizeStage::List { location }, ..s },
                    (None, SizeAction::List { location }),
                )
            } else {
                let counted = SizeState {
                    files: sum_usize(s.files, 1),
                    bytes: sum_u64(s.bytes, meta.size),
                    ..s
                };
                let (t, action) = visit_next(counted, cancel);
                (
                    t,
                    (
                        Some(SizeEvent::Progress { files: counted.files, bytes: counted.bytes }),
                        action,
                    ),
                )
            },
            None => {
                let (t, action) = visit_next(s, cancel);
                (t, (None, action))
            },
        },
        (SizeStage::List { location }, SizeReply::Listing(v)) => match v {
            Some(list) => {
                let (t, action) = visit_next(
                    SizeState { todo: s.todo + children_of(location, list), ..s },
                    cancel,
                );
                (t, (None, action))
            },
            None => {
                let (t, action) = visit_next(s, cancel);
                (t, (None, action))
            },
        },
        _ => (SizeState { stage: SizeStage::Over, ..s }, (None, SizeAction::Halt)),
    }
}

/// The state before the first step.
pub open spec fn initial_size_state(roots: Seq<LocationView>) -> SizeState {
    SizeState { roots, todo: Seq::empty(), files: 0, bytes: 0, stage: SizeStage::Ready }
}

/// A walk in progress.
#[derive(Debug)]
pub struct SizeWalk {
    roots: Vec<Location>,
    todo: Vec<Location>,
    files: usize,
    bytes: u64,
    stage: SizeStage<Location>,
}

impl View for SizeWalk {
    type V = SizeState;

    closed spec fn view(&self) -> SizeState {
        SizeState {
            roots: locations(self.roots@),
            todo: locations(self.todo@),
            files: self.files,
            bytes: self.bytes,
            stage: self.stage@,
        }
    }
}

impl SizeWalk {
    /// The walk for a request, before its first step.
    pub fn new(request: &SizeRequest) -> (r: SizeWalk)
        ensures
            r@ == initial_size_state(locations(request.roots@)),
    {
        let r = SizeWalk {
            roots: copy_locations(&request.roots),
            todo: Vec::new(),
            files: 0,
            bytes: 0,
            stage: SizeStage::Ready,
        };
        assert(locations(r.todo@) =~= Seq::empty());
        r
    }

    fn visit_next(&mut self, cancel: bool) -> (r: SizeAction)
        ensures
            (final(self)@, r@) == visit_next(old(self)@, cancel),
    {
        if cancel {
            self.stage = SizeStage::Over;
            return SizeAction::Finish {
                event: SizeEvent::Cancelled { files: self.files, bytes: self.bytes },
            };
        }
        if self.todo.len() > 0 {
            proof {
                assert(locations(self.todo@.drop_last()) =~= locations(self.todo@).drop_last());
            }
        }
        match self.todo.pop() {
            None => {
                self.stage = SizeStage::Over;
                SizeAction::Finish {
                    event: SizeEvent::Finished { files: self.files, bytes: self.bytes },
                }
            },
            Some(location) => {
                let asked = location.clone();
                self.stage = SizeStage::Resolve { location };
                SizeAction::Resolve { location: asked }
            },
        }
    }

    fn push_children(&mut self, location: &Location, list: &Vec<FileEntry>)
        ensures
            final(self)@ == (SizeState {
                todo: old(self)@.todo + children_of(location@, entries(list@)),
                ..old(self)@
            }),
    {
        let ghost start = self@;
        let ghost want = children_of(location@, entries(list@));
        let mut i: usize = list.len();
        assert(start.todo + want.take(0) =~= start.todo);
        while i > 0
            invariant
                i <= list@.len(),
                want == children_of(location@, entries(list@)),
                self@ == (SizeState { todo: start.todo + want.take(list@.len() - i), ..start }),
            decreases i,
        {
            i = i - 1;
            let child = location.join(copy_bytes(list[i].name.as_slice()));
            proof {
                let k = list@.len() - 1 - i;
                assert(want[k] == child@);
                assert(locations(self.todo@.push(child)) =~= locations(self.todo@).push(child@));
                assert(start.todo + want.take(k + 1) =~= (start.todo + want.take(k)).push(want[k]));
            }
            self.todo.push(child);
        }
        assert(want.take(list@.len() as int) =~= want);
    }

    /// One step: the outcome of the last action, and whether cancellation has
    /// been requested by now, give the next action and perhaps a progress
    /// event that may be dropped.
    pub fn step(&mut self, reply: SizeReply, cancel: bool) -> (r: (Option<SizeEvent>, SizeAction))
        ensures
            (final(self)@, (r.0, r.1@)) == size_step(old(self)@, reply@, cancel),
    {
        let ghost start = self@;
        let mut stage = SizeStage::Over;
        core::mem::swap(&mut stage, &mut self.stage);
        match (stage, reply) {
            (SizeStage::Ready, SizeReply::Start) => {
                self.stage = SizeStage::Ready;
                let any = self.roots.len() > 0;
                self.todo = reversed(&self.roots);
                let action = self.visit_next(cancel && any);
                (None, action)
            },
            (SizeStage::Resolve { location }, SizeReply::Backend(found)) => {
                if found {
                    let asked = location.clone();
                    self.stage = SizeStage::Stat { location };
                    (None, SizeAction::Stat { location: asked })
                } else {
                    self.stage = SizeStage::Resolve { location };
                    let action = self.visit_next(cancel);
                    (None, action)
                }
            },
            (SizeStage::Stat { location }, SizeReply::Entry(e)) => match e {
                Some(meta) => {
                    if meta.kind == EntryKind::Directory {
                        let asked = location.clone();
                        self.stage = SizeStage::List { location };
                        (None, SizeAction::List { location: asked })
                    } else {
                        self.stage = SizeStage::Stat { location };
                        self.files = add_usize(self.files, 1);
                        self.bytes = add_u64(self.bytes, meta.size);
                        let note = SizeEvent::Progress { files: self.files, bytes: self.bytes };
                        let action = self.visit_next(cancel);
                        (Some(note), action)
                    }
                },
                None => {
                    self.stage = SizeStage::Stat { location };
                    let action = self.visit_next(cancel);
                    (None, action)
                },
            },
            (SizeStage::List { location }, SizeReply::Listing(v)) => match v {
                Some(list) => {
                    self.push_children(&location, &list);
                    self.stage = SizeStage::List { location };
                    let action = self.visit_next(cancel);
                    (None, action)
                },
                None => {
                    self.stage = SizeStage::List { location };
                    let action = self.visit_next(cancel);
                    (None, action)
                },
            },
            _ => {
                self.stage = SizeStage::Over;
                (None, SizeAction::Halt)
            },
        }
    }
}

// ---------------------------------------------------------------------------
// Laws
// ---------------------------------------------------------------------------

/// What lies at a location, as far as a walk can see it.
pub enum Tree {
    /// Nothing that can be read.
    Absent,
    /// Anything but a directory.
    File { size: u64 },
    /// A directory with a tree for each entry of its listing.
    Dir { list: Seq<FileEntry<Seq<u8>>>, trees: Seq<Tree> },
}

/// How many files are in a list of trees.
pub open spec fn files_in(forest: Seq<Tree>) -> nat
    decreases forest,
{
    if forest.len() == 0 {
        0
    } else {
        (match forest.last() {
            Tree::Absent => 0nat,
            Tree::File { .. } => 1nat,
            Tree::Dir { trees, .. } => files_in(trees),
        }) + files_in(forest.drop_last())
    }
}

/// How many bytes are in the files of a list of trees.
pub open spec fn bytes_in(forest: Seq<Tree>) -> nat
    decreases forest,
{
    if forest.len() == 0 {
        0
    } else {
        (match forest.last() {
            Tree::Absent => 0nat,
            Tree::File { size } => size as nat,
            Tree::Dir { trees, .. } => bytes_in(trees),
        }) + bytes_in(forest.drop_last())
    }
}

/// Whether every directory has a tree for each of its entries.
pub open spec fn forest_ok(forest: Seq<Tree>) -> bool
    decreases forest,
{
    forest.len() > 0 ==> forest_ok(forest.drop_last()) && (forest.last() matches Tree::Dir {
        list,
        trees,
    } ==> list.len() == trees.len() && forest_ok(trees))
}

/// The number of nodes in a list of trees.
pub open spec fn nodes_in(forest: Seq<Tree>) -> nat
    decreases forest,
{
    if forest.len() == 0 {
        0
    } else {
        1 + (match forest.last() {
            Tree::Dir { trees, .. } => nodes_in(trees),
            _ => 0nat,
        }) + nodes_in(forest.drop_last())
    }
}

/// The trees in reverse order.
pub open spec fn turned(forest: Seq<Tree>) -> Seq<Tree> {
    forest.reverse()
}

proof fn sums_of_concat(a: Seq<Tree>, b: Seq<Tree>)
    ensures
        files_in(a + b) == files_in(a) + files_in(b),
        bytes_in(a + b) == bytes_in(a) + bytes_in(b),
        nodes_in(a + b) == nodes_in(a) + nodes_in(b),
        forest_ok(a) && forest_ok(b) ==> forest_ok(a + b),
    decreases b.len(),
{
    if b.len() == 0 {
        assert(a + b =~= a);
    } else {
        assert((a + b).drop_last() =~= a + b.drop_last());
        assert((a + b).last() == b.last());
        sums_of_concat(a, b.drop_last());
    }
}

proof fn sums_of_one(t: Tree)
    ensures
        files_in(seq![t]) == (match t {
            Tree::Absent => 0nat,
            Tree::File { .. } => 1nat,
            Tree::Dir { trees, .. } => files_in(trees),
        }),
        bytes_in(seq![t]) == (match t {
            Tree::Absent => 0nat,
            Tree::File { size } => size as nat,
            Tree::Dir { trees, .. } => bytes_in(trees),
        }),
        nodes_in(seq![t]) == 1 + (match t {
            Tree::Dir { trees, .. } => nodes_in(trees),
            _ => 0nat,
        }),
        forest_ok(seq![t]) == (t matches Tree::Dir { list, trees } ==> list.len() == trees.len()
            && forest_ok(trees)),
{
    let s = seq![t];
    assert(s.drop_last() =~= Seq::empty());
    assert(s.last() == t);
    assert(files_in(s.drop_last()) == 0);
    assert(bytes_in(s.drop_last()) == 0);
    assert(nodes_in(s.drop_last()) == 0);
    assert(forest_ok(s.drop_last()));
}

proof fn sums_of_turned(forest: Seq<Tree>)
    ensures
        files_in(turned(forest)) == files_in(forest),
        bytes_in(turned(forest)) == bytes_in(forest),
        nodes_in(turned(forest)) == nodes_in(forest),
        forest_ok(forest) ==> forest_ok(turned(forest)),
    decreases forest.len(),
{
    if forest.len() == 0 {
        assert(turned(forest) =~= forest);
    } else {
        let last = seq![forest.last()];
        let rest = forest.drop_last();
        sums_of_turned(rest);
        sums_of_concat(last, turned(rest));
        sums_of_concat(rest, last);
        sums_of_one(forest.last());
        assert(turned(forest) =~= last + turned(rest));
        assert(rest + last =~= forest);
    }
}

/// The outcome of a walk whose locations hold the given trees: the current
/// location holds the last one.
pub open spec fn walked(s: SizeState, forest: Seq<Tree>) -> SizeAction<LocationView>
    decreases nodes_in(forest),
    via walked_decreases
{
    if forest.len() == 0 {
        SizeAction::Halt
    } else {
        let (t, out, rest) = visited(s, forest);
        if t.stage is Over {
            out
        } else {
            walked(t, rest)
        }
    }
}

#[via_fn]
proof fn walked_decreases(s: SizeState, forest: Seq<Tree>) {
    if forest.len() > 0 {
        if let Tree::Dir { list, trees } = forest.last() {
            sums_of_turned(trees);
            sums_of_concat(forest.drop_last(), turned(trees));
        }
    }
}

/// The visit of one location that holds the last of the trees: the state and
/// the action after it, and the trees of what is to be visited then.
pub open spec fn visited(s: SizeState, forest: Seq<Tree>) -> (
    SizeState,
    SizeAction<LocationView>,
    Seq<Tree>,
) {
    let below = forest.drop_last();
    match forest.last() {
        Tree::Absent => {
            let (t, out) = size_step(s, SizeReply::Backend(false), false);
            (t, out.1, below)
        },
        Tree::File { size } => {
            let found = size_step(s, SizeReply::Backend(true), false).0;
            let meta = FileEntry {
                name: Seq::empty(),
                kind: EntryKind::File,
                size,
                modified: None,
                is_symlink: false,
                mode: None,
            };
            let (t, out) = size_step(found, SizeReply::Entry(Some(meta)), false);
            (t, out.1, below)
        },
        Tree::Dir { list, trees } => {
            let found = size_step(s, SizeReply::Backend(true), false).0;
            let meta = FileEntry {
                name: Seq::empty(),
                kind: EntryKind::Directory,
                size: 0,
                modified: None,
                is_symlink: false,
                mode: None,
            };
            let opened = size_step(found, SizeReply::Entry(Some(meta)), false).0;
            let (t, out) = size_step(opened, SizeReply::Listing(Some(list)), false);
            (t, out.1, below + turned(trees))
        },
    }
}

/// A walk that nobody cancels counts every file below its roots once and adds
/// up their sizes.
pub proof fn walk_counts_the_whole_tree(s: SizeState, forest: Seq<Tree>)
    requires
        s.stage is Resolve,
        forest.len() == s.todo.len() + 1,
        forest_ok(forest),
        s.files + files_in(forest) <= usize::MAX,
        s.bytes + bytes_in(forest) <= u64::MAX,
    ensures
        walked(s, forest) == (SizeAction::<LocationView>::Finish {
            event: SizeEvent::Finished {
                files: (s.files + files_in(forest)) as usize,
                bytes: (s.bytes + bytes_in(forest)) as u64,
            },
        }),
    decreases nodes_in(forest),
{
    let (t, out, rest) = visited(s, forest);
    let below = forest.drop_last();
    match forest.last() {
        Tree::Dir { list, trees } => {
            sums_of_turned(trees);
            sums_of_concat(below, turned(trees));
            assert(rest == below + turned(trees));
        },
        _ => {},
    }
    if t.stage is Over {
        assert(rest.len() == 0);
    } else {
        walk_counts_the_whole_tree(t, rest);
    }
}

/// Totals never shrink, and the last event carries the totals reached.
pub proof fn size_totals_are_cumulative(s: SizeState, reply: SizeReplyView, cancel: bool)
    ensures
        ({
            let (t, out) = size_step(s, reply, cancel);
            &&& t.files >= s.files
            &&& t.bytes >= s.bytes
            &&& out.0 matches Some(e) ==> e == (SizeEvent::Progress {
                files: t.files,
                bytes: t.bytes,
            })
            &&& out.1 matches SizeAction::Finish { event } ==> event == (SizeEvent::Finished {
                files: t.files,
                bytes: t.bytes,
            }) || event == (SizeEvent::Cancelled { files: t.files, bytes: t.bytes })
        }),
{
}

/// Once cancellation is requested no further location is visited, and the
/// walk ends as cancelled the next time it would have gone on.
pub proof fn cancelled_walk_visits_nothing_more(s: SizeState, reply: SizeReplyView)
    requires
        s.roots.len() > 0,
    ensures
        ({
            let out = size_step(s, reply, true).1;
            &&& !(out.1 is Resolve)
            &&& out.1 matches SizeAction::Finish { event } ==> event is Cancelled
        }),
{
}

/// What a walk does with a location: one that cannot be reached or read
/// counts as nothing, a directory is listed, and anything else counts as one
/// file of its size.
pub proof fn locations_are_counted_by_what_they_are(
    s: SizeState,
    location: LocationView,
    found: FileEntry<Seq<u8>>,
)
    requires
        s.files < usize::MAX,
        s.bytes + found.size <= u64::MAX,
    ensures
        ({
            let resolve = SizeState { stage: SizeStage::Resolve { location }, ..s };
            let stat = SizeState { stage: SizeStage::Stat { location }, ..s };
            let list = SizeState { stage: SizeStage::List { location }, ..s };
            let (t, out) = size_step(stat, SizeReply::Entry(Some(found)), false);
            &&& size_step(resolve, SizeReply::Backend(true), false).1.1 == (SizeAction::Stat {
                location,
            })
            &&& size_step(resolve, SizeReply::Backend(false), false).0.files == s.files
            &&& size_step(resolve, SizeReply::Backend(false), false).0.bytes == s.bytes
            &&& size_step(stat, SizeReply::Entry(None), false).0.files == s.files
            &&& size_step(stat, SizeReply::Entry(None), false).0.bytes == s.bytes
            &&& size_step(list, SizeReply::Listing(None), false).0.files == s.files
            &&& size_step(list, SizeReply::Listing(None), false).0.bytes == s.bytes
            &&& found.kind == EntryKind::Directory ==> {
                &&& out.1 == (SizeAction::List { location })
                &&& t.files == s.files && t.bytes == s.bytes
            }
            &&& found.kind != EntryKind::Directory ==> {
                &&& t.files == s.files + 1
                &&& t.bytes == s.bytes + found.size
                &&& out.0 == Some(SizeEvent::Progress { files: t.files, bytes: t.bytes })
            }
        }),
{
}

/// The end of a walk carries the totals; it is a regular one when nothing is
/// left and nobody has cancelled.
pub proof fn walks_end_with_their_totals(s: SizeState, location: LocationView)
    requires
        s.stage == (SizeStage::Resolve { location }),
    ensures
        size_step(s, SizeReply::Backend(false), true).1.1 == (SizeAction::<LocationView>::Finish {
            event: SizeEvent::Cancelled { files: s.files, bytes: s.bytes },
        }),
        s.todo.len() == 0 ==> size_step(s, SizeReply::Backend(false), false).1.1 == (SizeAction::<
            LocationView,
        >::Finish { event: SizeEvent::Finished { files: s.files, bytes: s.bytes } }),
        s.todo.len() > 0 ==> size_step(s, SizeReply::Backend(false), false).1.1 == (
        SizeAction::Resolve { location: s.todo.last() }),
{
}

} // verus!
