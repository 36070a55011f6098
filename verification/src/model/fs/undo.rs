//! Undo: what can be taken back, in what words, and the steps that do it.
//!
//! A copy cannot be taken back: it may have replaced what was there. A move,
//! a renaming, a deletion into the trash and a creation can.
use crate::model::fs::trash::{TrashId, TrashIdView};
use crate::model::remote::{RemoteManager, pool_key_of};
use crate::model::vfs::{
    Backend, Caps, Location, LocationView, RENAME_IN_PLACE_BIT, caps_include, file_scheme,
    location_text,
};
use crate::modules::local::local_caps;
use crate::modules::resolve;
use crate::path::file_name_of;
use crate::text::{
    copy_of, copy_opt, decimal, decimal_of, lossy, opt_text, same_opt, same_text, shown,
};
use vstd::prelude::*;

verus! {

/// One action that can be undone.
#[derive(Debug, PartialEq, Eq)]
pub enum UndoEntry<L = Location, I = TrashId, V = Vec<(Location, Location)>> {
    /// A finished move: where each item was, and where it is now.
    Move { pairs: V },
    Rename { from: L, to: L },
    /// A deletion into the trash; `original` is for display only.
    Trash { id: I, original: L },
    /// A new folder or file.
    New { created: L },
}

/// The model of an [`UndoEntry`].
pub type UndoEntryView = UndoEntry<
    LocationView,
    TrashIdView,
    Seq<(LocationView, LocationView)>,
>;

/// The views of a list of pairs.
pub open spec fn pair_views(v: Seq<(Location, Location)>) -> Seq<(LocationView, LocationView)> {
    Seq::new(v.len(), |i: int| (v[i].0@, v[i].1@))
}

impl View for UndoEntry {
    type V = UndoEntryView;

    open spec fn view(&self) -> UndoEntryView {
        match self {
            UndoEntry::Move { pairs } => UndoEntry::Move { pairs: pair_views(pairs@) },
            UndoEntry::Rename { from, to } => UndoEntry::Rename { from: from@, to: to@ },
            UndoEntry::Trash { id, original } => UndoEntry::Trash {
                id: id@,
                original: original@,
            },
            UndoEntry::New { created } => UndoEntry::New { created: created@ },
        }
    }
}

fn copy_pairs(v: &Vec<(Location, Location)>) -> (r: Vec<(Location, Location)>)
    ensures
        pair_views(r@) == pair_views(v@),
{
    let mut out: Vec<(Location, Location)> = Vec::new();
    for i in 0..v.len()
        invariant
            out@.len() == i,
            forall|j: int|
                0 <= j < i ==> (#[trigger] out@[j]).0@ == v@[j].0@ && out@[j].1@ == v@[j].1@,
    {
        out.push((v[i].0.clone(), v[i].1.clone()));
    }
    assert(pair_views(out@) =~= pair_views(v@));
    out
}

impl Clone for UndoEntry {
    fn clone(&self) -> (r: Self)
        ensures
            r@ == self@,
    {
        match self {
            UndoEntry::Move { pairs } => UndoEntry::Move { pairs: copy_pairs(pairs) },
            UndoEntry::Rename { from, to } => UndoEntry::Rename {
                from: from.clone(),
                to: to.clone(),
            },
            UndoEntry::Trash { id, original } => UndoEntry::Trash {
                id: id.clone(),
                original: original.clone(),
            },
            UndoEntry::New { created } => UndoEntry::New { created: created.clone() },
        }
    }
}

/// The name that a label shows for a location: the last component of its
/// path, or all of it where there is none.
pub open spec fn name_shown(l: LocationView) -> Seq<char> {
    match file_name_of(l.path) {
        Some(name) => shown(name),
        None => location_text(l),
    }
}

/// The label of an entry.
pub open spec fn label_of(entry: UndoEntryView) -> Seq<char> {
    match entry {
        UndoEntry::Move { pairs } => if pairs.len() == 0 {
            "Nothing to undo"@
        } else if pairs.len() == 1 {
            "Moved \""@ + name_shown(pairs[0].0) + "\""@
        } else {
            "Moved "@ + decimal(pairs.len()) + " items"@
        },
        UndoEntry::Rename { from, .. } => "Renamed \""@ + name_shown(from) + "\""@,
        UndoEntry::Trash { original, .. } => "Deleted \""@ + name_shown(original) + "\""@,
        UndoEntry::New { created } => "Created \""@ + name_shown(created) + "\""@,
    }
}

fn display_name(location: &Location) -> (r: String)
    ensures
        r@ == name_shown(location@),
{
    match location.path.file_name() {
        Some(name) => lossy(name.as_slice()),
        None => location.to_string(),
    }
}

impl UndoEntry {
    /// Short wording for the notice that offers the undo.
    pub fn label(&self) -> (r: String)
        ensures
            r@ == label_of(self@),
    {
        match self {
            UndoEntry::Move { pairs } => {
                if pairs.len() == 0 {
                    copy_of("Nothing to undo")
                } else if pairs.len() == 1 {
                    assert(pair_views(pairs@)[0].0 == pairs@[0].0@);
                    copy_of("Moved \"").concat(display_name(&pairs[0].0).as_str()).concat("\"")
                } else {
                    copy_of("Moved ").concat(decimal_of(pairs.len() as u64).as_str()).concat(
                        " items",
                    )
                }
            },
            UndoEntry::Rename { from, .. } => copy_of("Renamed \"").concat(
                display_name(from).as_str(),
            ).concat("\""),
            UndoEntry::Trash { original, .. } => copy_of("Deleted \"").concat(
                display_name(original).as_str(),
            ).concat("\""),
            UndoEntry::New { created } => copy_of("Created \"").concat(
                display_name(created).as_str(),
            ).concat("\""),
        }
    }
}

/// Whether two locations have one backend.
pub open spec fn share_backend(a: LocationView, b: LocationView) -> bool {
    a.scheme == b.scheme && a.authority == b.authority
}

/// Whether renaming back undoes a renaming: both ends have one backend, it
/// can be reached, and it renames in place.
pub fn can_undo_rename<B: Backend>(
    from: &Location,
    to: &Location,
    manager: &RemoteManager<B>,
) -> (r: bool)
    ensures
        r == (share_backend(from@, to@) && if from@.scheme == file_scheme() {
            caps_include(local_caps(), Caps { bits: RENAME_IN_PLACE_BIT })
        } else {
            match pool_key_of(from@) {
                Some(key) => manager.connections().dom().contains(key) && caps_include(
                    manager.connections()[key].caps_view(),
                    Caps { bits: RENAME_IN_PLACE_BIT },
                ),
                None => false,
            }
        }),
{
    if !same_text(from.scheme.as_str(), to.scheme.as_str()) || !same_opt(
        &from.authority,
        &to.authority,
    ) {
        return false;
    }
    match resolve(from, manager) {
        Some(backend) => backend.caps().contains(Caps::rename_in_place()),
        None => false,
    }
}

// ---------------------------------------------------------------------------
// The stack
// ---------------------------------------------------------------------------

/// The actions of this session that can still be undone, latest last.
#[derive(Debug)]
pub struct UndoStack {
    entries: Vec<UndoEntry>,
}

impl View for UndoStack {
    type V = Seq<UndoEntryView>;

    closed spec fn view(&self) -> Seq<UndoEntryView> {
        Seq::new(self.entries@.len(), |i: int| self.entries@[i]@)
    }
}

/// The view of an optional entry.
pub open spec fn opt_entry(o: Option<UndoEntry>) -> Option<UndoEntryView> {
    match o {
        Some(entry) => Some(entry@),
        None => None,
    }
}

impl Default for UndoStack {
    fn default() -> (r: Self)
        ensures
            r@ == Seq::<UndoEntryView>::empty(),
    {
        let r = UndoStack { entries: Vec::new() };
        assert(r@ =~= Seq::empty());
        r
    }
}

impl UndoStack {
    /// An empty stack.
    pub fn new() -> (r: Self)
        ensures
            r@ == Seq::<UndoEntryView>::empty(),
    {
        UndoStack::default()
    }

    /// Puts an entry on top.
    pub fn push(&mut self, entry: UndoEntry)
        ensures
            final(self)@ == old(self)@.push(entry@),
    {
        let ghost before = self@;
        let ghost e = entry@;
        self.entries.push(entry);
        assert(self@ =~= before.push(e));
    }

    /// Takes the entry from the top.
    pub fn pop(&mut self) -> (r: Option<UndoEntry>)
        ensures
            old(self)@.len() == 0 ==> r is None && final(self)@ == old(self)@,
            old(self)@.len() > 0 ==> opt_entry(r) == Some(old(self)@.last()) && final(self)@
                == old(self)@.drop_last(),
    {
        let ghost before = self@;
        let r = self.entries.pop();
        proof {
            if before.len() > 0 {
                assert(self@ =~= before.drop_last());
            } else {
                assert(self@ =~= before);
            }
        }
        r
    }

    /// Whether there is nothing to undo.
    pub fn is_empty(&self) -> (r: bool)
        ensures
            r == (self@.len() == 0),
    {
        self.entries.len() == 0
    }

    /// The label of the entry on top, which stays there.
    pub fn peek_label(&self) -> (r: Option<String>)
        ensures
            opt_text(r) == if self@.len() == 0 {
                None
            } else {
                Some(label_of(self@.last()))
            },
    {
        let n = self.entries.len();
        if n == 0 {
            None
        } else {
            Some(self.entries[n - 1].label())
        }
    }
}

// ---------------------------------------------------------------------------
// Undoing
// ---------------------------------------------------------------------------

/// What an undo is waiting for.
#[derive(Debug)]
pub enum UndoStage<L = Location> {
    Ready,
    /// The backend that moves an item back.
    ResolveMove { from: L, to: L },
    /// The move.
    Move,
    /// The backend that removes a new item.
    ResolveRemove { created: L },
    /// The removal, or the restoring from the trash.
    Last,
    Over,
}

impl View for UndoStage {
    type V = UndoStage<LocationView>;

    open spec fn view(&self) -> UndoStage<LocationView> {
        match self {
            UndoStage::Ready => UndoStage::Ready,
            UndoStage::ResolveMove { from, to } => UndoStage::ResolveMove { from: from@, to: to@ },
            UndoStage::Move => UndoStage::Move,
            UndoStage::ResolveRemove { created } => UndoStage::ResolveRemove { created: created@ },
            UndoStage::Last => UndoStage::Last,
            UndoStage::Over => UndoStage::Over,
        }
    }
}

/// What the application is to do next.
#[derive(Debug)]
pub enum UndoAction<L = Location, I = TrashId, T = String> {
    /// Find the backend of a location.
    Resolve { location: L },
    Rename { from: L, to: L },
    Remove { location: L },
    /// Restore an item from the trash.
    Restore { id: I },
    /// Report what went wrong, if anything did, and stop.
    Finish { error: Option<T> },
    /// Stop.
    Halt,
}

/// The model of an [`UndoAction`].
pub type UndoActionView = UndoAction<LocationView, TrashIdView, Seq<char>>;

impl View for UndoAction {
    type V = UndoActionView;

    open spec fn view(&self) -> UndoActionView {
        match self {
            UndoAction::Resolve { location } => UndoAction::Resolve { location: location@ },
            UndoAction::Rename { from, to } => UndoAction::Rename { from: from@, to: to@ },
            UndoAction::Remove { location } => UndoAction::Remove { location: location@ },
            UndoAction::Restore { id } => UndoAction::Restore { id: id@ },
            UndoAction::Finish { error } => UndoAction::Finish { error: opt_text(*error) },
            UndoAction::Halt => UndoAction::Halt,
        }
    }
}

/// The outcome of an [`UndoAction`].
#[derive(Debug)]
pub enum UndoReply<T = String> {
    Start,
    /// Whether there is a backend.
    Backend(bool),
    Done,
    /// The wording of what went wrong.
    Failed(T),
}

impl View for UndoReply {
    type V = UndoReply<Seq<char>>;

    open spec fn view(&self) -> UndoReply<Seq<char>> {
        match self {
            UndoReply::Start => UndoReply::Start,
            UndoReply::Backend(b) => UndoReply::Backend(*b),
            UndoReply::Done => UndoReply::Done,
            UndoReply::Failed(t) => UndoReply::Failed(t@),
        }
    }
}

/// The state of an undo.
#[verifier::ext_equal]
pub struct UndoState {
    pub entry: UndoEntryView,
    /// The pairs still to be moved back, next last.
    pub todo: Seq<(LocationView, LocationView)>,
    /// The first thing that went wrong.
    pub error: Option<Seq<char>>,
    pub stage: UndoStage<LocationView>,
}

/// The wording when a location has no backend.
pub open spec fn no_backend(l: LocationView) -> Seq<char> {
    "no backend for scheme \""@ + l.scheme + "\""@
}

/// Keeps the first error.
pub open spec fn first_of(old_error: Option<Seq<char>>, text: Seq<char>) -> Option<Seq<char>> {
    match old_error {
        Some(e) => Some(e),
        None => Some(text),
    }
}

/// The end of an undo.
pub open spec fn undo_end(s: UndoState, error: Option<Seq<char>>) -> (UndoState, UndoActionView) {
    (UndoState { error, stage: UndoStage::Over, ..s }, UndoAction::Finish { error })
}

/// Turns to the next pair.
pub open spec fn next_pair(s: UndoState) -> (UndoState, UndoActionView) {
    if s.todo.len() == 0 {
        undo_end(s, s.error)
    } else {
        let (from, to) = s.todo.last();
        (
            UndoState { todo: s.todo.drop_last(), stage: UndoStage::ResolveMove { from, to }, ..s },
            UndoAction::Resolve { location: to },
        )
    }
}

/// One step of an undo. Every pair of a move is tried, whatever became of the
/// others; the first error is reported.
pub open spec fn undo_step(s: UndoState, reply: UndoReply<Seq<char>>) -> (
    UndoState,
    UndoActionView,
) {
    match (s.stage, reply) {
        (UndoStage::Ready, UndoReply::Start) => match s.entry {
            UndoEntry::Move { pairs } => next_pair(UndoState { todo: pairs.reverse(), ..s }),
            UndoEntry::Rename { from, to } => next_pair(UndoState { todo: seq![(from, to)], ..s }),
            UndoEntry::Trash { id, .. } => (
                UndoState { stage: UndoStage::Last, ..s },
                UndoAction::Restore { id },
            ),
            UndoEntry::New { created } => (
                UndoState { stage: UndoStage::ResolveRemove { created }, ..s },
                UndoAction::Resolve { location: created },
            ),
        },
        (UndoStage::ResolveMove { from, to }, UndoReply::Backend(found)) => if found {
            (
                UndoState { stage: UndoStage::Move, ..s },
                UndoAction::Rename { from: to, to: from },
            )
        } else {
            next_pair(UndoState { error: first_of(s.error, no_backend(to)), ..s })
        },
        (UndoStage::Move, UndoReply::Done) => next_pair(s),
        (UndoStage::Move, UndoReply::Failed(text)) => next_pair(
            UndoState { error: first_of(s.error, text), ..s },
        ),
        (UndoStage::ResolveRemove { created }, UndoReply::Backend(found)) => if found {
            (
                UndoState { stage: UndoStage::Last, ..s },
                UndoAction::Remove { location: created },
            )
        } else {
            undo_end(s, Some(no_backend(created)))
        },
        (UndoStage::Last, UndoReply::Done) => undo_end(s, None),
        (UndoStage::Last, UndoReply::Failed(text)) => undo_end(s, Some(text)),
        _ => (UndoState { stage: UndoStage::Over, ..s }, UndoAction::Halt),
    }
}

/// The state of an undo before its first step.
pub open spec fn undo_start(entry: UndoEntryView) -> UndoState {
    UndoState { entry, todo: Seq::empty(), error: None, stage: UndoStage::Ready }
}

/// An undo in progress.
#[derive(Debug)]
pub struct UndoJob {
    entry: UndoEntry,
    todo: Vec<(Location, Location)>,
    error: Option<String>,
    stage: UndoStage,
}

impl View for UndoJob {
    type V = UndoState;

    closed spec fn view(&self) -> UndoState {
        UndoState {
            entry: self.entry@,
            todo: pair_views(self.todo@),
            error: opt_text(self.error),
            stage: self.stage@,
        }
    }
}

/// The undo of an entry that was taken off the stack.
pub fn apply(entry: UndoEntry) -> (r: UndoJob)
    ensures
        r@ == undo_start(entry@),
{
    let r = UndoJob { entry, todo: Vec::new(), error: None, stage: UndoStage::Ready };
    assert(pair_views(r.todo@) =~= Seq::empty());
    r
}

/// A list of pairs in reverse order.
fn turned_pairs(v: &Vec<(Location, Location)>) -> (r: Vec<(Location, Location)>)
    ensures
        pair_views(r@) == pair_views(v@).reverse(),
{
    let mut out: Vec<(Location, Location)> = Vec::new();
    let n = v.len();
    for i in 0..n
        invariant
            n == v@.len(),
            out@.len() == i,
            forall|j: int|
                0 <= j < i ==> (#[trigger] out@[j]).0@ == v@[n - 1 - j].0@ && out@[j].1@ == v@[n - 1
                    - j].1@,
    {
        let k = n - 1 - i;
        out.push((v[k].0.clone(), v[k].1.clone()));
    }
    assert(pair_views(out@) =~= pair_views(v@).reverse());
    out
}

impl UndoJob {
    fn end(&mut self, error: Option<String>) -> (r: UndoAction)
        ensures
            (final(self)@, r@) == undo_end(old(self)@, opt_text(error)),
    {
        self.error = copy_opt(&error);
        self.stage = UndoStage::Over;
        UndoAction::Finish { error }
    }

    fn next_pair(&mut self) -> (r: UndoAction)
        ensures
            (final(self)@, r@) == next_pair(old(self)@),
    {
        if self.todo.len() > 0 {
            proof {
                assert(pair_views(self.todo@.drop_last()) =~= pair_views(self.todo@).drop_last());
                assert(pair_views(self.todo@).last() == (
                    self.todo@.last().0@,
                    self.todo@.last().1@,
                ));
            }
        }
        match self.todo.pop() {
            None => {
                let error = copy_opt(&self.error);
                self.end(error)
            },
            Some((from, to)) => {
                let location = to.clone();
                self.stage = UndoStage::ResolveMove { from, to };
                UndoAction::Resolve { location }
            },
        }
    }

    fn note(&mut self, text: String)
        ensures
            final(self)@ == (UndoState {
                error: first_of(old(self)@.error, text@),
                ..old(self)@
            }),
    {
        if self.error.is_none() {
            self.error = Some(text);
        }
    }

    fn begin(&mut self) -> (r: UndoAction)
        requires
            old(self)@.stage is Ready,
        ensures
            (final(self)@, r@) == undo_step(old(self)@, UndoReply::Start),
    {
        let ghost start = self@;
        match &self.entry {
            UndoEntry::Move { pairs } => {
                self.todo = turned_pairs(pairs);
                self.next_pair()
            },
            UndoEntry::Rename { from, to } => {
                let mut todo: Vec<(Location, Location)> = Vec::new();
                todo.push((from.clone(), to.clone()));
                assert(pair_views(todo@) =~= seq![(from@, to@)]);
                self.todo = todo;
                self.next_pair()
            },
            UndoEntry::Trash { id, .. } => {
                let id = id.clone();
                self.stage = UndoStage::Last;
                UndoAction::Restore { id }
            },
            UndoEntry::New { created } => {
                let location = created.clone();
                self.stage = UndoStage::ResolveRemove { created: created.clone() };
                UndoAction::Resolve { location }
            },
        }
    }

    /// One step: the outcome of the last action gives the next one.
    pub fn step(&mut self, reply: UndoReply) -> (r: UndoAction)
        ensures
            (final(self)@, r@) == undo_step(old(self)@, reply@),
    {
        let mut stage = UndoStage::Over;
        core::mem::swap(&mut stage, &mut self.stage);
        match (stage, reply) {
            (UndoStage::Ready, UndoReply::Start) => {
                self.stage = UndoStage::Ready;
                self.begin()
            },
            (UndoStage::ResolveMove { from, to }, UndoReply::Backend(found)) => {
                if found {
                    self.stage = UndoStage::Move;
                    UndoAction::Rename { from: to, to: from }
                } else {
                    let text = copy_of("no backend for scheme \"").concat(
                        to.scheme.as_str(),
                    ).concat("\"");
                    self.note(text);
                    self.stage = UndoStage::ResolveMove { from, to };
                    self.next_pair()
                }
            },
            (UndoStage::Move, UndoReply::Done) => {
                self.stage = UndoStage::Move;
                self.next_pair()
            },
            (UndoStage::Move, UndoReply::Failed(text)) => {
                self.stage = UndoStage::Move;
                self.note(text);
                self.next_pair()
            },
            (UndoStage::ResolveRemove { created }, UndoReply::Backend(found)) => {
                if found {
                    self.stage = UndoStage::Last;
                    UndoAction::Remove { location: created }
                } else {
                    let text = copy_of("no backend for scheme \"").concat(
                        created.scheme.as_str(),
                    ).concat("\"");
                    self.end(Some(text))
                }
            },
            (UndoStage::Last, UndoReply::Done) => self.end(None),
            (UndoStage::Last, UndoReply::Failed(text)) => self.end(Some(text)),
            _ => {
                self.stage = UndoStage::Over;
                UndoAction::Halt
            },
        }
    }
}

// ---------------------------------------------------------------------------
// Laws
// ---------------------------------------------------------------------------

/// What is pushed is what is popped next, and nothing else on the stack
/// changes.
pub proof fn pop_gives_back_what_was_pushed(stack: Seq<UndoEntryView>, entry: UndoEntryView)
    ensures
        stack.push(entry).last() == entry,
        stack.push(entry).drop_last() == stack,
        stack.push(entry).len() > 0,
{
    assert(stack.push(entry).drop_last() =~= stack);
}

/// The moves of an undo whose backends are all there, where `outcomes` tells
/// what went wrong with each: the renamings asked for, and how it ends.
pub open spec fn moved_back(s: UndoState, outcomes: Seq<Option<Seq<char>>>) -> (
    Seq<UndoActionView>,
    UndoActionView,
)
    decreases outcomes.len(),
{
    if outcomes.len() == 0 {
        (Seq::empty(), undo_step(s, UndoReply::Backend(true)).1)
    } else {
        let (t, asked) = undo_step(s, UndoReply::Backend(true));
        let (u, next) = undo_step(
            t,
            match outcomes[0] {
                Some(text) => UndoReply::Failed(text),
                None => UndoReply::Done,
            },
        );
        if outcomes.len() == 1 {
            (seq![asked], next)
        } else {
            let (rest, last) = moved_back(u, outcomes.skip(1));
            (seq![asked] + rest, last)
        }
    }
}

/// The first error among outcomes, after one that came before.
pub open spec fn first_error(before: Option<Seq<char>>, outcomes: Seq<Option<Seq<char>>>) -> Option<
    Seq<char>,
>
    decreases outcomes.len(),
{
    if outcomes.len() == 0 || before is Some {
        before
    } else {
        first_error(outcomes[0], outcomes.skip(1))
    }
}

/// Undoing a move renames every item back from where it is to where it was,
/// in order, whatever becomes of the others, and reports the first error.
pub proof fn every_pair_is_moved_back(
    s: UndoState,
    pairs: Seq<(LocationView, LocationView)>,
    outcomes: Seq<Option<Seq<char>>>,
)
    requires
        pairs.len() > 0,
        outcomes.len() == pairs.len(),
        s.todo == pairs.reverse(),
    ensures
        moved_back(next_pair(s).0, outcomes) == (
            Seq::new(
                pairs.len(),
                |i: int| UndoActionView::Rename { from: pairs[i].1, to: pairs[i].0 },
            ),
            UndoActionView::Finish { error: first_error(s.error, outcomes) },
        ),
    decreases pairs.len(),
{
    let s0 = next_pair(s).0;
    let wanted = Seq::new(
        pairs.len(),
        |i: int| UndoActionView::Rename { from: pairs[i].1, to: pairs[i].0 },
    );
    assert(s.todo.last() == pairs[0]);
    assert(s.todo.drop_last() =~= pairs.skip(1).reverse());
    let (t, asked) = undo_step(s0, UndoReply::Backend(true));
    assert(asked == wanted[0]);
    let reply = match outcomes[0] {
        Some(text) => UndoReply::Failed(text),
        None => UndoReply::Done,
    };
    let kept = match (t.error, outcomes[0]) {
        (None, o) => o,
        (e, _) => e,
    };
    let mid = UndoState { error: kept, ..t };
    assert(undo_step(t, reply) == next_pair(mid));
    let rest = outcomes.skip(1);
    assert(first_error(s.error, outcomes) == first_error(kept, rest)) by {
        if s.error is Some {
            assert(first_error(kept, rest) == kept);
        }
    }
    if pairs.len() == 1 {
        assert(seq![asked] =~= wanted);
        assert(rest.len() == 0);
    } else {
        every_pair_is_moved_back(mid, pairs.skip(1), rest);
        let (more, last) = moved_back(next_pair(mid).0, rest);
        assert(seq![asked] + more =~= wanted);
    }
}

/// Undoing undoes: a move and a renaming are turned round, a deletion is
/// restored by its identifier, and what was created is removed.
pub proof fn undo_inverts(entry: UndoEntryView)
    ensures
        entry matches UndoEntry::Rename { from, to } ==> {
            let (s, asked) = undo_step(undo_start(entry), UndoReply::Start);
            &&& asked == (UndoActionView::Resolve { location: to })
            &&& undo_step(s, UndoReply::Backend(true)).1 == (UndoActionView::Rename {
                from: to,
                to: from,
            })
        },
        entry matches UndoEntry::Trash { id, original } ==> undo_step(
            undo_start(entry),
            UndoReply::Start,
        ).1 == (UndoActionView::Restore { id }),
        entry matches UndoEntry::New { created } ==> {
            let (s, asked) = undo_step(undo_start(entry), UndoReply::Start);
            &&& asked == (UndoActionView::Resolve { location: created })
            &&& undo_step(s, UndoReply::Backend(true)).1 == (UndoActionView::Remove {
                location: created,
            })
        },
{
}

/// The wording of each entry.
pub proof fn entries_are_labelled(
    pairs: Seq<(LocationView, LocationView)>,
    from: LocationView,
    to: LocationView,
    id: TrashIdView,
    name: Seq<u8>,
)
    requires
        file_name_of(from.path) == Some(name),
    ensures
        pairs.len() == 0 ==> label_of(UndoEntry::Move { pairs }) == "Nothing to undo"@,
        pairs.len() == 1 && pairs[0].0 == from ==> label_of(UndoEntry::Move { pairs })
            == "Moved \""@ + shown(name) + "\""@,
        pairs.len() > 1 ==> label_of(UndoEntry::Move { pairs }) == "Moved "@ + decimal(pairs.len())
            + " items"@,
        label_of(UndoEntry::Rename { from, to }) == "Renamed \""@ + shown(name) + "\""@,
        label_of(UndoEntry::Trash { id, original: from }) == "Deleted \""@ + shown(name) + "\""@,
        label_of(UndoEntry::New { created: from }) == "Created \""@ + shown(name) + "\""@,
        file_name_of(to.path) is None ==> label_of(UndoEntry::New { created: to })
            == "Created \""@ + location_text(to) + "\""@,
{
}

/// A place that no backend serves is an error, and the first error stays. An
/// undo of a single thing ends with its outcome.
pub proof fn undo_reports_what_went_wrong(
    s: UndoState,
    from: LocationView,
    to: LocationView,
    text: Seq<char>,
)
    ensures
        ({
            let moving = UndoState { stage: UndoStage::ResolveMove { from, to }, ..s };
            let failed = undo_step(moving, UndoReply::Backend(false)).0;
            &&& s.error is None ==> failed.error == Some(
                "no backend for scheme \""@ + to.scheme + "\""@,
            )
            &&& s.error is Some ==> failed.error == s.error
            &&& undo_step(moving, UndoReply::Backend(true)).1 == (UndoActionView::Rename {
                from: to,
                to: from,
            })
        }),
        ({
            let moved = UndoState { stage: UndoStage::Move, ..s };
            &&& undo_step(moved, UndoReply::Done).0.error == s.error
            &&& s.error is None ==> undo_step(moved, UndoReply::Failed(text)).0.error == Some(text)
            &&& s.error is Some ==> undo_step(moved, UndoReply::Failed(text)).0.error == s.error
            &&& s.todo.len() == 0 ==> undo_step(moved, UndoReply::Done).1 == (
            UndoActionView::Finish { error: s.error })
            &&& s.todo.len() > 0 ==> undo_step(moved, UndoReply::Done).1 == (
            UndoActionView::Resolve { location: s.todo.last().1 })
        }),
        ({
            let last = UndoState { stage: UndoStage::Last, ..s };
            &&& undo_step(last, UndoReply::Done).1 == (UndoActionView::Finish { error: None })
            &&& undo_step(last, UndoReply::Failed(text)).1 == (UndoActionView::Finish {
                error: Some(text),
            })
        }),
        ({
            let new = UndoState { stage: UndoStage::ResolveRemove { created: to }, ..s };
            &&& undo_step(new, UndoReply::Backend(true)).1 == (UndoActionView::Remove {
                location: to,
            })
            &&& undo_step(new, UndoReply::Backend(false)).1 == (UndoActionView::Finish {
                error: Some("no backend for scheme \""@ + to.scheme + "\""@),
            })
        }),
{
}

/// Renaming back is possible only on one server.
pub proof fn backends_are_shared_on_one_server(a: LocationView, b: LocationView)
    ensures
        share_backend(a, b) <==> a.scheme == b.scheme && a.authority == b.authority,
{
}

} // verus!
