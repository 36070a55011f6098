//! Copying and moving: the engine that decides every step of an operation,
//! and the clipboard that feeds it.
//!
//! The engine performs no input or output. It hands out one [`OpAction`] at a
//! time; the application performs it and hands the outcome back as an
//! [`OpReply`], together with whether cancellation has been requested by
//! then. [`op_step`] is the whole transition function.
use crate::model::fs::entry::{EntryKind, FileEntry, entries};
use crate::model::vfs::{
    Caps, Location, LocationView, RENAME_IN_PLACE_BIT, VfsError, VfsErrorView, caps_include,
    child_of, copy_locations, location_text, locations, opt_location, parent_location,
    same_location,
};
use crate::path::{FsPath, file_name_of};
use crate::text::{
    chars_of, concat_bytes, copy_bytes, copy_of, decimal, decimal_of, lossy, rfind, rfind_char,
    same_opt, same_text, shown, string_of,
};
use vstd::prelude::*;
use vstd::slice::slice_subrange;
use vstd::string::*;
use vstd::utf8::*;

verus! {

/// The size from which buffered bytes are handed to the destination.
pub const COPY_CHUNK_BYTES: usize = 1_048_576;

/// How many "keep both" names are tried.
pub const RENAME_ATTEMPTS: u32 = 1000;

// ---------------------------------------------------------------------------
// Requests
// ---------------------------------------------------------------------------

/// Identifies one submitted operation.
#[derive(Debug, Clone, Copy, PartialEq, Eq, Hash, Structural)]
pub struct OpId(u64);

impl OpId {
    /// The number behind the identifier.
    pub closed spec fn number(self) -> nat {
        self.0 as nat
    }
}

/// Hands out [`OpId`]s in increasing order.
#[derive(Debug)]
pub struct OpIdSource(u64);

impl OpIdSource {
    /// How many identifiers have been handed out.
    pub closed spec fn issued(&self) -> nat {
        self.0 as nat
    }

    /// The next identifier: greater than every one handed out before.
    pub fn allocate(&mut self) -> (r: OpId)
        requires
            old(self).issued() < u64::MAX,
        ensures
            r.number() == old(self).issued() + 1,
            final(self).issued() == old(self).issued() + 1,
    {
        self.0 = self.0 + 1;
        OpId(self.0)
    }
}

impl Default for OpIdSource {
    fn default() -> (r: Self)
        ensures
            r.issued() == 0,
    {
        OpIdSource(0)
    }
}

#[derive(Debug, Clone, Copy, PartialEq, Eq, Structural)]
pub enum OpKind {
    Copy,
    Move,
}

/// One submitted job: the top-level `sources`, and where they go.
#[derive(Debug)]
pub struct OpRequest {
    pub id: OpId,
    pub kind: OpKind,
    pub sources: Vec<Location>,
    pub dest_dir: Location,
    /// Whether cancellation has been requested.
    pub cancel: bool,
}

impl OpRequest {
    /// A job that nobody has cancelled.
    pub fn new(id: OpId, kind: OpKind, sources: Vec<Location>, dest_dir: Location) -> (r: Self)
        ensures
            r.id == id,
            r.kind == kind,
            r.sources == sources,
            r.dest_dir == dest_dir,
            !r.cancel,
    {
        OpRequest { id, kind, sources, dest_dir, cancel: false }
    }

    /// Requests cancellation; the engine notices at its next check.
    pub fn request_cancel(&mut self)
        ensures
            final(self).cancel,
            final(self).id == old(self).id,
            final(self).kind == old(self).kind,
            final(self).sources == old(self).sources,
            final(self).dest_dir == old(self).dest_dir,
    {
        self.cancel = true;
    }

    /// Whether cancellation has been requested.
    pub fn is_cancelled(&self) -> (r: bool)
        ensures
            r == self.cancel,
    {
        self.cancel
    }
}

/// Hashes by identifier alone: two requests that look alike are still two.
impl std::hash::Hash for OpRequest {
    fn hash<H: std::hash::Hasher>(&self, state: &mut H) {
        self.id.0.hash(state);
    }
}

/// Something is already where a source is about to go.
#[derive(Debug)]
pub struct Conflict<L = Location> {
    pub source: L,
    pub dest: L,
}

#[derive(Debug, Clone, Copy, PartialEq, Eq, Structural)]
pub enum ConflictChoice {
    Overwrite,
    Skip,
    /// Keep both: the source goes to a name that is still free.
    RenameCopy,
}

/// The answer to a [`Conflict`].
#[derive(Debug, Clone, Copy, PartialEq, Eq, Structural)]
pub struct ConflictDecision {
    pub choice: ConflictChoice,
    /// Answer every later conflict of the operation the same way.
    pub apply_to_all: bool,
}

/// What the engine tells about a running operation. The parameters are the
/// representations of locations, names and the list of failures.
#[derive(Debug)]
pub enum OpEvent<L = Location, N = Vec<u8>, X = Vec<(Location, VfsError)>> {
    /// The totals a progress bar needs, from a best-effort scan.
    Started { files_total: usize, bytes_total: u64 },
    /// A file is about to be copied.
    FileStarted { name: N },
    /// Cumulative totals so far.
    Progress { files_done: usize, bytes_done: u64 },
    /// A decision is needed before the operation goes on.
    Conflict { conflict: Conflict<L> },
    /// The operation ran to its end, with the failures of single items.
    Finished { errors: X },
    /// The operation stopped early.
    Cancelled,
}

/// The failures of single items, in the order in which they happened.
pub type FailuresView = Seq<(LocationView, VfsErrorView)>;

/// The model of an [`OpEvent`].
pub type OpEventView = OpEvent<LocationView, Seq<u8>, FailuresView>;

/// The views of a list of failures.
pub open spec fn failures(v: Seq<(Location, VfsError)>) -> FailuresView {
    Seq::new(v.len(), |i: int| (v[i].0@, v[i].1@))
}

impl View for OpEvent {
    type V = OpEventView;

    open spec fn view(&self) -> OpEventView {
        match self {
            OpEvent::Started { files_total, bytes_total } => OpEvent::Started {
                files_total: *files_total,
                bytes_total: *bytes_total,
            },
            OpEvent::FileStarted { name } => OpEvent::FileStarted { name: name@ },
            OpEvent::Progress { files_done, bytes_done } => OpEvent::Progress {
                files_done: *files_done,
                bytes_done: *bytes_done,
            },
            OpEvent::Conflict { conflict } => OpEvent::Conflict {
                conflict: Conflict { source: conflict.source@, dest: conflict.dest@ },
            },
            OpEvent::Finished { errors } => OpEvent::Finished { errors: failures(errors@) },
            OpEvent::Cancelled => OpEvent::Cancelled,
        }
    }
}

/// The view of an optional event.
pub open spec fn opt_event(o: Option<OpEvent>) -> Option<OpEventView> {
    match o {
        Some(e) => Some(e@),
        None => None,
    }
}

// ---------------------------------------------------------------------------
// The clipboard
// ---------------------------------------------------------------------------

#[derive(Debug, Clone, Copy, PartialEq, Eq, Structural)]
pub enum ClipboardOp {
    Copy,
    Cut,
}

/// What was copied or cut last.
#[derive(Debug)]
pub struct Clipboard {
    op: Option<ClipboardOp>,
    locations: Vec<Location>,
}

impl View for Clipboard {
    type V = (Option<ClipboardOp>, Seq<LocationView>);

    closed spec fn view(&self) -> (Option<ClipboardOp>, Seq<LocationView>) {
        (self.op, locations(self.locations@))
    }
}

impl Default for Clipboard {
    fn default() -> (r: Self)
        ensures
            r@ == (None::<ClipboardOp>, Seq::<LocationView>::empty()),
    {
        let r = Clipboard { op: None, locations: Vec::new() };
        assert(locations(r.locations@) =~= Seq::empty());
        r
    }
}

impl Clone for Clipboard {
    fn clone(&self) -> (r: Self)
        ensures
            r@ == self@,
    {
        Clipboard { op: self.op, locations: copy_locations(&self.locations) }
    }
}

impl Clipboard {
    /// An empty clipboard.
    pub fn new() -> (r: Self)
        ensures
            r@ == (None::<ClipboardOp>, Seq::<LocationView>::empty()),
    {
        Clipboard::default()
    }

    /// Holds `locations` for copying.
    pub fn set_copy(&mut self, locations: Vec<Location>)
        ensures
            final(self)@ == (
                Some(ClipboardOp::Copy),
                crate::model::vfs::locations(locations@),
            ),
    {
        self.op = Some(ClipboardOp::Copy);
        self.locations = locations;
    }

    /// Holds `locations` for moving.
    pub fn set_cut(&mut self, locations: Vec<Location>)
        ensures
            final(self)@ == (
                Some(ClipboardOp::Cut),
                crate::model::vfs::locations(locations@),
            ),
    {
        self.op = Some(ClipboardOp::Cut);
        self.locations = locations;
    }

    /// How the contents are to be pasted.
    pub fn op(&self) -> (r: Option<ClipboardOp>)
        ensures
            r == self@.0,
    {
        self.op
    }

    /// The contents.
    pub fn locations(&self) -> (r: &[Location])
        ensures
            crate::model::vfs::locations(r@) == self@.1,
    {
        self.locations.as_slice()
    }

    /// Whether there is nothing to paste.
    pub fn is_empty(&self) -> (r: bool)
        ensures
            r == (self@.1.len() == 0),
    {
        self.locations.len() == 0
    }

    /// Forgets the contents, as after pasting what was cut.
    pub fn clear(&mut self)
        ensures
            final(self)@ == (None::<ClipboardOp>, Seq::<LocationView>::empty()),
    {
        self.op = None;
        self.locations.clear();
        assert(locations(self.locations@) =~= Seq::empty());
    }
}

// ---------------------------------------------------------------------------
// "Keep both" names
// ---------------------------------------------------------------------------

/// A file name's stem and its extension with the dot. Only the last dot
/// counts, and a leading dot does not.
pub open spec fn stem_and_extension(name: Seq<char>) -> (Seq<char>, Seq<char>) {
    let d = rfind(name, '.');
    if d > 0 {
        (name.take(d), name.skip(d))
    } else {
        (name, Seq::empty())
    }
}

/// The shown name of the last component of a path, empty where there is none.
pub open spec fn shown_name(path: Seq<u8>) -> Seq<char> {
    match file_name_of(path) {
        Some(name) => shown(name),
        None => Seq::empty(),
    }
}

/// The `n`th "keep both" name for `path`.
pub open spec fn copy_name(path: Seq<u8>, n: nat) -> Seq<char> {
    let (stem, extension) = stem_and_extension(shown_name(path));
    if n == 1 {
        stem + " (copy)"@ + extension
    } else {
        stem + " (copy "@ + decimal(n) + ")"@ + extension
    }
}

/// The `n`th "keep both" destination, beside `dest`.
pub open spec fn copy_candidate(dest: LocationView, n: nat) -> Option<LocationView> {
    match parent_location(dest) {
        Some(parent) => Some(child_of(parent, encode_utf8(copy_name(dest.path, n)))),
        None => None,
    }
}

/// Splits a file name at its last dot.
pub fn split_extension(path: &FsPath) -> (r: (String, String))
    ensures
        (r.0@, r.1@) == stem_and_extension(shown_name(path@)),
{
    let name = match path.file_name() {
        Some(n) => lossy(n.as_slice()),
        None => String::new(),
    };
    let cs = chars_of(name.as_str());
    match rfind_char(cs.as_slice(), '.') {
        Some(i) if i > 0 => {
            let n = cs.len();
            let extension = slice_subrange(cs.as_slice(), i, n);
            assert(extension@ =~= cs@.skip(i as int));
            (string_of(slice_subrange(cs.as_slice(), 0, i)), string_of(extension))
        },
        _ => (name, String::new()),
    }
}

fn candidate(dest: &Location, n: u32) -> (r: Option<Location>)
    ensures
        opt_location(r) == copy_candidate(dest@, n as nat),
{
    let (stem, extension) = split_extension(&dest.path);
    let name = if n == 1 {
        stem.concat(" (copy)").concat(extension.as_str())
    } else {
        stem.concat(" (copy ").concat(decimal_of(n as u64).as_str()).concat(")").concat(
            extension.as_str(),
        )
    };
    match dest.parent() {
        Some(parent) => Some(parent.join(name)),
        None => None,
    }
}

// ---------------------------------------------------------------------------
// The engine's vocabulary
// ---------------------------------------------------------------------------

/// What is left to do, innermost last.
#[derive(Debug)]
pub enum Task<L> {
    /// Copy `source` to `dest`, whatever it is.
    Item { source: L, dest: L },
    /// Remove a directory whose children have been moved.
    RemoveDir { source: L },
}

/// Why a partly written file is being discarded.
#[derive(Debug)]
pub enum Cause<L, E> {
    Cancelled,
    Failed { source: L, error: E },
}

/// What the engine is waiting for. The parameters are the representations of
/// locations, bytes and errors.
#[derive(Debug)]
pub enum Stage<L, B, E> {
    /// For the start.
    Ready,
    /// For the backend that could rename `source`.
    FastResolve { source: L },
    /// For what is at the place that `source` would be renamed to.
    FastStat { source: L },
    /// For the renaming of `source`.
    FastRename { source: L },
    /// For the backend of the destination.
    DestResolve,
    CountResolve { location: L },
    CountStat { location: L },
    CountList { location: L },
    /// For the delivery of the totals.
    Announced,
    ItemResolve { source: L, dest: L },
    ItemStat { source: L, dest: L },
    /// For what is at the destination of a directory.
    DirStat { source: L, dest: L },
    /// For whether the directory to fill exists.
    DirEnsure { source: L, dest: L },
    DirMake { source: L, dest: L },
    DirList { source: L, dest: L },
    /// For what is at the destination of a file of so many `bytes`.
    FileStat { source: L, dest: L, bytes: u64 },
    /// For a decision. `size` is that of a file, and absent for a directory.
    Asking { source: L, dest: L, size: Option<u64> },
    /// For whether the `n`th "keep both" name is free.
    Probing { source: L, dest: L, size: Option<u64>, n: u32 },
    OpenRead { source: L, dest: L },
    OpenWrite { source: L, dest: L },
    /// For the next bytes of `source`; `buffer` has not been written yet.
    Reading { source: L, dest: L, buffer: B },
    /// For the writing of `len` bytes, the `last` ones or not.
    Writing { source: L, dest: L, len: u64, last: bool },
    Closing { source: L, dest: L },
    /// For the closing of a file that is to be discarded.
    AbortClose { dest: L, cause: Cause<L, E> },
    /// For the removal of a file that is being discarded.
    AbortRemove { cause: Cause<L, E> },
    /// For the removal of what has been moved.
    Removing { source: L },
    /// For nothing any more.
    Over,
}

/// What the application is to do next.
#[derive(Debug)]
pub enum OpAction<L = Location, B = Vec<u8>, X = Vec<(Location, VfsError)>> {
    /// Find the backend of a location.
    Resolve { location: L },
    Rename { from: L, to: L },
    Stat { location: L },
    List { location: L },
    Mkdir { location: L },
    Remove { location: L },
    OpenRead { location: L },
    OpenWrite { location: L },
    /// Read from the file opened for reading.
    Read,
    /// Write to the file opened for writing.
    Write { bytes: B },
    /// Close the file opened for writing; answer when its bytes are durable.
    Close,
    /// Deliver the totals without fail.
    Announce { files_total: usize, bytes_total: u64 },
    /// Deliver a conflict without fail and wait for the decision.
    Ask { conflict: Conflict<L> },
    /// Deliver the end of the operation without fail, and stop.
    Finish { errors: X },
    /// Deliver the cancellation without fail, and stop.
    Cancelled,
    /// Stop; nobody is listening.
    Halt,
}

/// The outcome of an [`OpAction`].
#[derive(Debug)]
pub enum OpReply<F = FileEntry, V = Vec<FileEntry>, B = Vec<u8>, E = VfsError> {
    /// The operation begins.
    Start,
    /// What the backend of the location can do, if there is one.
    Backend(Option<Caps>),
    Entry(Result<F, E>),
    Listing(Result<V, E>),
    Done(Result<(), E>),
    /// The next bytes, a failure, or the end of the file.
    Chunk(Option<Result<B, E>>),
    /// Whether anybody received what was to be delivered.
    Delivered(bool),
    /// The decision, if anybody took one.
    Decision(Option<ConflictDecision>),
}

/// The model of a [`Task`].
pub type TaskView = Task<LocationView>;

/// The model of a [`Cause`].
pub type CauseView = Cause<LocationView, VfsErrorView>;

/// The model of a [`Stage`].
pub type StageView = Stage<LocationView, Seq<u8>, VfsErrorView>;

/// The model of an [`OpAction`].
pub type OpActionView = OpAction<LocationView, Seq<u8>, FailuresView>;

/// The model of an [`OpReply`].
pub type OpReplyView = OpReply<
    FileEntry<Seq<u8>>,
    Seq<FileEntry<Seq<u8>>>,
    Seq<u8>,
    VfsErrorView,
>;

impl View for Task<Location> {
    type V = TaskView;

    open spec fn view(&self) -> TaskView {
        match self {
            Task::Item { source, dest } => Task::Item { source: source@, dest: dest@ },
            Task::RemoveDir { source } => Task::RemoveDir { source: source@ },
        }
    }
}

/// The views of a list of tasks.
pub open spec fn tasks(v: Seq<Task<Location>>) -> Seq<TaskView> {
    Seq::new(v.len(), |i: int| v[i]@)
}

impl View for Cause<Location, VfsError> {
    type V = CauseView;

    open spec fn view(&self) -> CauseView {
        match self {
            Cause::Cancelled => Cause::Cancelled,
            Cause::Failed { source, error } => Cause::Failed { source: source@, error: error@ },
        }
    }
}

impl View for Stage<Location, Vec<u8>, VfsError> {
    type V = StageView;

    open spec fn view(&self) -> StageView {
        match self {
            Stage::Ready => Stage::Ready,
            Stage::FastResolve { source } => Stage::FastResolve { source: source@ },
            Stage::FastStat { source } => Stage::FastStat { source: source@ },
            Stage::FastRename { source } => Stage::FastRename { source: source@ },
            Stage::DestResolve => Stage::DestResolve,
            Stage::CountResolve { location } => Stage::CountResolve { location: location@ },
            Stage::CountStat { location } => Stage::CountStat { location: location@ },
            Stage::CountList { location } => Stage::CountList { location: location@ },
            Stage::Announced => Stage::Announced,
            Stage::ItemResolve { source, dest } => Stage::ItemResolve {
                source: source@,
                dest: dest@,
            },
            Stage::ItemStat { source, dest } => Stage::ItemStat { source: source@, dest: dest@ },
            Stage::DirStat { source, dest } => Stage::DirStat { source: source@, dest: dest@ },
            Stage::DirEnsure { source, dest } => Stage::DirEnsure { source: source@, dest: dest@ },
            Stage::DirMake { source, dest } => Stage::DirMake { source: source@, dest: dest@ },
            Stage::DirList { source, dest } => Stage::DirList { source: source@, dest: dest@ },
            Stage::FileStat { source, dest, bytes } => Stage::FileStat {
                source: source@,
                dest: dest@,
                bytes: *bytes,
            },
            Stage::Asking { source, dest, size } => Stage::Asking {
                source: source@,
                dest: dest@,
                size: *size,
            },
            Stage::Probing { source, dest, size, n } => Stage::Probing {
                source: source@,
                dest: dest@,
                size: *size,
                n: *n,
            },
            Stage::OpenRead { source, dest } => Stage::OpenRead { source: source@, dest: dest@ },
            Stage::OpenWrite { source, dest } => Stage::OpenWrite { source: source@, dest: dest@ },
            Stage::Reading { source, dest, buffer } => Stage::Reading {
                source: source@,
                dest: dest@,
                buffer: buffer@,
            },
            Stage::Writing { source, dest, len, last } => Stage::Writing {
                source: source@,
                dest: dest@,
                len: *len,
                last: *last,
            },
            Stage::Closing { source, dest } => Stage::Closing { source: source@, dest: dest@ },
            Stage::AbortClose { dest, cause } => Stage::AbortClose { dest: dest@, cause: cause@ },
            Stage::AbortRemove { cause } => Stage::AbortRemove { cause: cause@ },
            Stage::Removing { source } => Stage::Removing { source: source@ },
            Stage::Over => Stage::Over,
        }
    }
}

impl View for OpAction {
    type V = OpActionView;

    open spec fn view(&self) -> OpActionView {
        match self {
            OpAction::Resolve { location } => OpAction::Resolve { location: location@ },
            OpAction::Rename { from, to } => OpAction::Rename { from: from@, to: to@ },
            OpAction::Stat { location } => OpAction::Stat { location: location@ },
            OpAction::List { location } => OpAction::List { location: location@ },
            OpAction::Mkdir { location } => OpAction::Mkdir { location: location@ },
            OpAction::Remove { location } => OpAction::Remove { location: location@ },
            OpAction::OpenRead { location } => OpAction::OpenRead { location: location@ },
            OpAction::OpenWrite { location } => OpAction::OpenWrite { location: location@ },
            OpAction::Read => OpAction::Read,
            OpAction::Write { bytes } => OpAction::Write { bytes: bytes@ },
            OpAction::Close => OpAction::Close,
            OpAction::Announce { files_total, bytes_total } => OpAction::Announce {
                files_total: *files_total,
                bytes_total: *bytes_total,
            },
            OpAction::Ask { conflict } => OpAction::Ask {
                conflict: Conflict { source: conflict.source@, dest: conflict.dest@ },
            },
            OpAction::Finish { errors } => OpAction::Finish { errors: failures(errors@) },
            OpAction::Cancelled => OpAction::Cancelled,
            OpAction::Halt => OpAction::Halt,
        }
    }
}

impl View for OpReply {
    type V = OpReplyView;

    open spec fn view(&self) -> OpReplyView {
        match self {
            OpReply::Start => OpReply::Start,
            OpReply::Backend(caps) => OpReply::Backend(*caps),
            OpReply::Entry(r) => OpReply::Entry(
                match r {
                    Ok(e) => Ok(e@),
                    Err(e) => Err(e@),
                },
            ),
            OpReply::Listing(r) => OpReply::Listing(
                match r {
                    Ok(v) => Ok(entries(v@)),
                    Err(e) => Err(e@),
                },
            ),
            OpReply::Done(r) => OpReply::Done(
                match r {
                    Ok(_) => Ok(()),
                    Err(e) => Err(e@),
                },
            ),
            OpReply::Chunk(r) => OpReply::Chunk(
                match r {
                    Some(Ok(b)) => Some(Ok(b@)),
                    Some(Err(e)) => Some(Err(e@)),
                    None => None,
                },
            ),
            OpReply::Delivered(b) => OpReply::Delivered(*b),
            OpReply::Decision(d) => OpReply::Decision(*d),
        }
    }
}

// ---------------------------------------------------------------------------
// The transition function
// ---------------------------------------------------------------------------

/// The state of an operation.
#[verifier::ext_equal]
pub struct OpState {
    pub kind: OpKind,
    pub sources: Seq<LocationView>,
    pub dest_dir: LocationView,
    /// Sources that may still be renamed in place, in reverse order.
    pub queue: Seq<LocationView>,
    /// Sources that have to be copied.
    pub remaining: Seq<LocationView>,
    /// What is still to be counted, next last.
    pub counting: Seq<LocationView>,
    pub files_total: usize,
    pub bytes_total: u64,
    pub files_done: usize,
    pub bytes_done: u64,
    /// The choice for every further conflict.
    pub remembered: Option<ConflictChoice>,
    pub errors: FailuresView,
    pub todo: Seq<TaskView>,
    pub stage: StageView,
}

/// What a step gives out: at most one event that may be dropped, and the next
/// action.
#[verifier::ext_equal]
pub struct OpOut {
    pub note: Option<OpEventView>,
    pub action: OpActionView,
}

/// A sum that stops at the largest `u64`.
pub open spec fn sum_u64(a: u64, b: u64) -> u64 {
    if a + b > u64::MAX {
        u64::MAX
    } else {
        (a + b) as u64
    }
}

/// A sum that stops at the largest `usize`.
pub open spec fn sum_usize(a: usize, b: usize) -> usize {
    if a + b > usize::MAX {
        usize::MAX
    } else {
        (a + b) as usize
    }
}

/// An output without an event.
pub open spec fn only(action: OpActionView) -> OpOut {
    OpOut { note: None, action }
}

/// `s`, waiting for something else.
pub open spec fn at_stage(s: OpState, stage: StageView) -> OpState {
    OpState { stage, ..s }
}

/// Whether two locations belong to one backend.
pub open spec fn on_same_backend(a: LocationView, b: LocationView) -> bool {
    a.scheme == b.scheme && a.authority == b.authority
}

/// The failure of a location that no backend serves.
pub open spec fn no_backend(scheme: Seq<char>) -> VfsErrorView {
    VfsError::Other { message: "no backend for scheme \""@ + scheme + "\""@ }
}

/// The failure of a write.
pub open spec fn write_failed(dest: LocationView) -> VfsErrorView {
    VfsError::Other { message: "writing "@ + location_text(dest) + " failed"@ }
}

/// The current totals as an event.
pub open spec fn progress(s: OpState) -> OpEventView {
    OpEvent::Progress { files_done: s.files_done, bytes_done: s.bytes_done }
}

/// Takes up the next task. This is where a cancellation stops the operation
/// between two items.
pub open spec fn advance(s: OpState, cancel: bool) -> (OpState, OpActionView) {
    if s.todo.len() == 0 {
        (at_stage(s, Stage::Over), OpAction::Finish { errors: s.errors })
    } else {
        let rest = OpState { todo: s.todo.drop_last(), ..s };
        match s.todo.last() {
            Task::Item { source, dest } => if cancel {
                (at_stage(s, Stage::Over), OpAction::Cancelled)
            } else {
                (
                    at_stage(rest, Stage::ItemResolve { source, dest }),
                    OpAction::Resolve { location: source },
                )
            },
            Task::RemoveDir { source } => (
                at_stage(rest, Stage::Removing { source }),
                OpAction::Remove { location: source },
            ),
        }
    }
}

/// `s` with one more failure.
pub open spec fn with_failure(s: OpState, at: LocationView, error: VfsErrorView) -> OpState {
    OpState { errors: s.errors.push((at, error)), ..s }
}

/// Takes up the next task after a failure.
pub open spec fn fail(s: OpState, at: LocationView, error: VfsErrorView, cancel: bool) -> (
    OpState,
    OpActionView,
) {
    advance(with_failure(s, at, error), cancel)
}

/// Begins to fill `dest` from `source`: a file when `size` is known, else a
/// directory.
pub open spec fn begin(
    s: OpState,
    source: LocationView,
    dest: LocationView,
    size: Option<u64>,
) -> (OpState, OpActionView) {
    match size {
        Some(_) => (
            at_stage(s, Stage::OpenRead { source, dest }),
            OpAction::OpenRead { location: source },
        ),
        None => (
            at_stage(s, Stage::DirEnsure { source, dest }),
            OpAction::Stat { location: dest },
        ),
    }
}

/// Tries the `n`th "keep both" name; the last one is taken without asking.
pub open spec fn probe(
    s: OpState,
    source: LocationView,
    dest: LocationView,
    size: Option<u64>,
    n: u32,
) -> (OpState, OpActionView) {
    match copy_candidate(dest, n as nat) {
        None => begin(s, source, dest, size),
        Some(other) => if n >= RENAME_ATTEMPTS {
            begin(s, source, other, size)
        } else {
            (
                at_stage(s, Stage::Probing { source, dest, size, n }),
                OpAction::Stat { location: other },
            )
        },
    }
}

/// `s` with one more file of `bytes` bytes done.
pub open spec fn file_done(s: OpState, bytes: u64) -> OpState {
    OpState {
        files_done: sum_usize(s.files_done, 1),
        bytes_done: sum_u64(s.bytes_done, bytes),
        ..s
    }
}

/// Acts on a decision. A skipped file counts as done.
pub open spec fn settle(
    s: OpState,
    source: LocationView,
    dest: LocationView,
    size: Option<u64>,
    choice: ConflictChoice,
    cancel: bool,
) -> (OpState, OpOut) {
    match choice {
        ConflictChoice::Overwrite => {
            let (t, action) = begin(s, source, dest, size);
            (t, only(action))
        },
        ConflictChoice::Skip => match size {
            Some(bytes) => {
                let done = file_done(s, bytes);
                let (t, action) = advance(done, cancel);
                (t, OpOut { note: Some(progress(done)), action })
            },
            None => {
                let (t, action) = advance(s, cancel);
                (t, only(action))
            },
        },
        ConflictChoice::RenameCopy => {
            let (t, action) = probe(s, source, dest, size, 1);
            (t, only(action))
        },
    }
}

/// Handles a conflict: by the remembered choice, or by asking.
pub open spec fn clash(
    s: OpState,
    source: LocationView,
    dest: LocationView,
    size: Option<u64>,
    cancel: bool,
) -> (OpState, OpOut) {
    match s.remembered {
        Some(choice) => settle(s, source, dest, size, choice, cancel),
        None => (
            at_stage(s, Stage::Asking { source, dest, size }),
            only(OpAction::Ask { conflict: Conflict { source, dest } }),
        ),
    }
}

/// Reads on, unless the operation has been cancelled: then what has been
/// written so far is discarded.
pub open spec fn read_on(
    s: OpState,
    source: LocationView,
    dest: LocationView,
    buffer: Seq<u8>,
    cancel: bool,
) -> (OpState, OpActionView) {
    if cancel {
        (
            at_stage(s, Stage::AbortClose { dest, cause: Cause::Cancelled }),
            OpAction::Close,
        )
    } else {
        (at_stage(s, Stage::Reading { source, dest, buffer }), OpAction::Read)
    }
}

/// Counts the next location, or announces the totals.
pub open spec fn count_on(s: OpState) -> (OpState, OpActionView) {
    if s.counting.len() == 0 {
        (
            at_stage(s, Stage::Announced),
            OpAction::Announce { files_total: s.files_total, bytes_total: s.bytes_total },
        )
    } else {
        let location = s.counting.last();
        (
            at_stage(
                OpState { counting: s.counting.drop_last(), ..s },
                Stage::CountResolve { location },
            ),
            OpAction::Resolve { location },
        )
    }
}

/// The children of a directory, the first one last.
pub open spec fn children_of(
    location: LocationView,
    list: Seq<FileEntry<Seq<u8>>>,
) -> Seq<LocationView> {
    Seq::new(list.len(), |i: int| child_of(location, list[list.len() - 1 - i].name))
}

/// The tasks for the children of a directory, the first one last.
pub open spec fn child_tasks(
    source: LocationView,
    dest: LocationView,
    list: Seq<FileEntry<Seq<u8>>>,
) -> Seq<TaskView> {
    Seq::new(
        list.len(),
        |i: int|
            Task::Item {
                source: child_of(source, list[list.len() - 1 - i].name),
                dest: child_of(dest, list[list.len() - 1 - i].name),
            },
    )
}

/// The tasks for the top-level sources, the first one last. A source without
/// a name has no task.
pub open spec fn top_tasks(sources: Seq<LocationView>, dest_dir: LocationView) -> Seq<TaskView>
    decreases sources.len(),
{
    if sources.len() == 0 {
        Seq::empty()
    } else {
        let rest = top_tasks(sources.skip(1), dest_dir);
        match file_name_of(sources[0].path) {
            Some(name) => rest.push(
                Task::Item { source: sources[0], dest: child_of(dest_dir, name) },
            ),
            None => rest,
        }
    }
}

/// What follows once the sources that can be renamed have been: nothing, or
/// the copying of the others.
pub open spec fn after_renames(s: OpState) -> (OpState, OpActionView) {
    if s.remaining.len() == 0 {
        (at_stage(s, Stage::Over), OpAction::Finish { errors: s.errors })
    } else {
        (at_stage(s, Stage::DestResolve), OpAction::Resolve { location: s.dest_dir })
    }
}

/// Tries to rename the next source in place.
pub open spec fn rename_on(s: OpState) -> (OpState, OpActionView)
    decreases s.queue.len(),
{
    if s.queue.len() == 0 {
        after_renames(s)
    } else {
        let source = s.queue.last();
        let rest = OpState { queue: s.queue.drop_last(), ..s };
        if on_same_backend(source, s.dest_dir) {
            (
                at_stage(rest, Stage::FastResolve { source }),
                OpAction::Resolve { location: s.dest_dir },
            )
        } else {
            rename_on(OpState { remaining: s.remaining.push(source), ..rest })
        }
    }
}

/// The beginning of an operation.
pub open spec fn first_step(s: OpState) -> (OpState, OpActionView) {
    match s.kind {
        OpKind::Move => rename_on(
            OpState { queue: s.sources.reverse(), remaining: Seq::empty(), ..s },
        ),
        OpKind::Copy => after_renames(OpState { remaining: s.sources, ..s }),
    }
}

/// Renaming in place: a source is renamed where the backend can do that and
/// nothing is in the way; anything else leaves it to be copied, which asks
/// before it overwrites. A source without a name is dropped, and one that is
/// found where it is to go already stays as it is.
#[verifier::opaque]
pub open spec fn rename_step(s: OpState, reply: OpReplyView) -> (OpState, OpActionView) {
    match (s.stage, reply) {
        (Stage::FastResolve { source }, OpReply::Backend(caps)) => {
            if caps is Some && caps_include(caps->0, Caps { bits: RENAME_IN_PLACE_BIT }) {
                match file_name_of(source.path) {
                    Some(name) => (
                        at_stage(s, Stage::FastStat { source }),
                        OpAction::Stat {
                            location: if same_location(source, child_of(s.dest_dir, name)) {
                                source
                            } else {
                                child_of(s.dest_dir, name)
                            },
                        },
                    ),
                    None => rename_on(s),
                }
            } else {
                rename_on(OpState { remaining: s.remaining.push(source), ..s })
            }
        },
        (Stage::FastStat { source }, OpReply::Entry(r)) => {
            let kept = OpState { remaining: s.remaining.push(source), ..s };
            match file_name_of(source.path) {
                Some(name) => {
                    let to = child_of(s.dest_dir, name);
                    match (r, same_location(source, to)) {
                        (Ok(_), true) => rename_on(s),
                        (Err(_), false) => (
                            at_stage(s, Stage::FastRename { source }),
                            OpAction::Rename { from: source, to },
                        ),
                        _ => rename_on(kept),
                    }
                },
                None => rename_on(kept),
            }
        },
        (Stage::FastRename { source }, OpReply::Done(r)) => match r {
            Ok(_) => rename_on(s),
            Err(_) => rename_on(OpState { remaining: s.remaining.push(source), ..s }),
        },
        (Stage::DestResolve, OpReply::Backend(caps)) => match caps {
            Some(_) => count_on(OpState { counting: s.remaining.reverse(), ..s }),
            None => {
                let errors = seq![(s.dest_dir, no_backend(s.dest_dir.scheme))];
                (
                    at_stage(OpState { errors, ..s }, Stage::Over),
                    OpAction::Finish { errors },
                )
            },
        },
        _ => (at_stage(s, Stage::Over), OpAction::Halt),
    }
}

/// Counting: every file below the sources, skipping what cannot be read.
#[verifier::opaque]
pub open spec fn count_step(s: OpState, reply: OpReplyView) -> (OpState, OpActionView) {
    match (s.stage, reply) {
        (Stage::CountResolve { location }, OpReply::Backend(caps)) => match caps {
            Some(_) => (
                at_stage(s, Stage::CountStat { location }),
                OpAction::Stat { location },
            ),
            None => count_on(s),
        },
        (Stage::CountStat { location }, OpReply::Entry(r)) => match r {
            Ok(meta) => if meta.kind == EntryKind::Directory {
                (at_stage(s, Stage::CountList { location }), OpAction::List { location })
            } else {
                count_on(
                    OpState {
                        files_total: sum_usize(s.files_total, 1),
                        bytes_total: sum_u64(s.bytes_total, meta.size),
                        ..s
                    },
                )
            },
            Err(_) => count_on(s),
        },
        (Stage::CountList { location }, OpReply::Listing(r)) => match r {
            Ok(list) => count_on(
                OpState { counting: s.counting + children_of(location, list), ..s },
            ),
            Err(_) => count_on(s),
        },
        _ => (at_stage(s, Stage::Over), OpAction::Halt),
    }
}

/// Taking up an item: what it is decides how it is copied. A directory that
/// meets a directory is merged; anything else in the way is a conflict.
#[verifier::opaque]
pub open spec fn item_step(s: OpState, reply: OpReplyView, cancel: bool) -> (OpState, OpOut) {
    match (s.stage, reply) {
        (Stage::ItemResolve { source, dest }, OpReply::Backend(caps)) => match caps {
            Some(_) => (
                at_stage(s, Stage::ItemStat { source, dest }),
                only(OpAction::Stat { location: source }),
            ),
            None => {
                let (t, action) = fail(s, source, no_backend(source.scheme), cancel);
                (t, only(action))
            },
        },
        (Stage::ItemStat { source, dest }, OpReply::Entry(r)) => match r {
            Ok(meta) => if meta.kind == EntryKind::Directory {
                (
                    at_stage(s, Stage::DirStat { source, dest }),
                    only(OpAction::Stat { location: dest }),
                )
            } else {
                let name = match file_name_of(source.path) {
                    Some(name) => name,
                    None => Seq::empty(),
                };
                (
                    at_stage(s, Stage::FileStat { source, dest, bytes: meta.size }),
                    OpOut {
                        note: Some(OpEvent::FileStarted { name }),
                        action: OpAction::Stat { location: dest },
                    },
                )
            },
            Err(error) => {
                let (t, action) = fail(s, source, error, cancel);
                (t, only(action))
            },
        },
        (Stage::DirStat { source, dest }, OpReply::Entry(r)) => {
            if r is Ok && r->Ok_0.kind != EntryKind::Directory {
                clash(s, source, dest, None, cancel)
            } else {
                let (t, action) = begin(s, source, dest, None);
                (t, only(action))
            }
        },
        (Stage::FileStat { source, dest, bytes }, OpReply::Entry(r)) => match r {
            Ok(_) => clash(s, source, dest, Some(bytes), cancel),
            Err(_) => {
                let (t, action) = begin(s, source, dest, Some(bytes));
                (t, only(action))
            },
        },
        (Stage::Asking { source, dest, size }, OpReply::Decision(d)) => match d {
            Some(decision) => {
                let t = if decision.apply_to_all {
                    OpState { remembered: Some(decision.choice), ..s }
                } else {
                    s
                };
                settle(t, source, dest, size, decision.choice, cancel)
            },
            None => (at_stage(s, Stage::Over), only(OpAction::Cancelled)),
        },
        (Stage::Probing { source, dest, size, n }, OpReply::Entry(r)) => match r {
            Ok(_) => {
                let next = if n >= RENAME_ATTEMPTS {
                    n
                } else {
                    (n + 1) as u32
                };
                let (t, action) = probe(s, source, dest, size, next);
                (t, only(action))
            },
            Err(_) => {
                let other = match copy_candidate(dest, n as nat) {
                    Some(other) => other,
                    None => dest,
                };
                let (t, action) = begin(s, source, other, size);
                (t, only(action))
            },
        },
        _ => (at_stage(s, Stage::Over), only(OpAction::Halt)),
    }
}

/// Filling a directory: it is made where it is missing, then its children are
/// taken up one by one; a moved directory is removed after them.
#[verifier::opaque]
pub open spec fn dir_step(s: OpState, reply: OpReplyView, cancel: bool) -> (OpState, OpActionView) {
    match (s.stage, reply) {
        (Stage::DirEnsure { source, dest }, OpReply::Entry(r)) => match r {
            Ok(_) => (
                at_stage(s, Stage::DirList { source, dest }),
                OpAction::List { location: source },
            ),
            Err(_) => (
                at_stage(s, Stage::DirMake { source, dest }),
                OpAction::Mkdir { location: dest },
            ),
        },
        (Stage::DirMake { source, dest }, OpReply::Done(r)) => match r {
            Ok(_) => (
                at_stage(s, Stage::DirList { source, dest }),
                OpAction::List { location: source },
            ),
            Err(error) => fail(s, dest, error, cancel),
        },
        (Stage::DirList { source, dest }, OpReply::Listing(r)) => match r {
            Ok(list) => {
                let after = if s.kind == OpKind::Move {
                    s.todo.push(Task::RemoveDir { source })
                } else {
                    s.todo
                };
                advance(OpState { todo: after + child_tasks(source, dest, list), ..s }, cancel)
            },
            Err(error) => fail(s, source, error, cancel),
        },
        (Stage::Removing { source }, OpReply::Done(r)) => match r {
            Ok(_) => advance(s, cancel),
            Err(error) => fail(s, source, error, cancel),
        },
        _ => (at_stage(s, Stage::Over), OpAction::Halt),
    }
}

/// Copying the bytes of a file: they are buffered until there are enough of
/// them, and a file is done once it is closed. Only then is a moved source
/// removed.
#[verifier::opaque]
pub open spec fn copy_step(s: OpState, reply: OpReplyView, cancel: bool) -> (OpState, OpOut) {
    match (s.stage, reply) {
        (Stage::OpenRead { source, dest }, OpReply::Done(r)) => match r {
            Ok(_) => (
                at_stage(s, Stage::OpenWrite { source, dest }),
                only(OpAction::OpenWrite { location: dest }),
            ),
            Err(error) => {
                let (t, action) = fail(s, source, error, cancel);
                (t, only(action))
            },
        },
        (Stage::OpenWrite { source, dest }, OpReply::Done(r)) => match r {
            Ok(_) => {
                let (t, action) = read_on(s, source, dest, Seq::empty(), cancel);
                (t, only(action))
            },
            Err(error) => {
                let (t, action) = fail(s, source, error, cancel);
                (t, only(action))
            },
        },
        (Stage::Reading { source, dest, buffer }, OpReply::Chunk(r)) => match r {
            Some(Ok(bytes)) => {
                let all = buffer + bytes;
                if all.len() >= COPY_CHUNK_BYTES {
                    (
                        at_stage(
                            s,
                            Stage::Writing { source, dest, len: all.len() as u64, last: false },
                        ),
                        only(OpAction::Write { bytes: all }),
                    )
                } else {
                    let (t, action) = read_on(s, source, dest, all, cancel);
                    (t, only(action))
                }
            },
            Some(Err(error)) => (
                at_stage(s, Stage::AbortClose { dest, cause: Cause::Failed { source, error } }),
                only(OpAction::Close),
            ),
            None => if buffer.len() > 0 {
                (
                    at_stage(
                        s,
                        Stage::Writing { source, dest, len: buffer.len() as u64, last: true },
                    ),
                    only(OpAction::Write { bytes: buffer }),
                )
            } else {
                (at_stage(s, Stage::Closing { source, dest }), only(OpAction::Close))
            },
        },
        (Stage::Writing { source, dest, len, last }, OpReply::Done(r)) => match r {
            Ok(_) => {
                let t = OpState { bytes_done: sum_u64(s.bytes_done, len), ..s };
                if last {
                    (at_stage(t, Stage::Closing { source, dest }), only(OpAction::Close))
                } else {
                    let (u, action) = read_on(t, source, dest, Seq::empty(), cancel);
                    (u, OpOut { note: Some(progress(t)), action })
                }
            },
            Err(_) => {
                let (t, action) = fail(s, source, write_failed(dest), cancel);
                (t, only(action))
            },
        },
        (Stage::Closing { source, dest }, OpReply::Done(r)) => match r {
            Ok(_) => {
                let t = file_done(s, 0);
                let note = Some(progress(t));
                if s.kind == OpKind::Move {
                    (
                        at_stage(t, Stage::Removing { source }),
                        OpOut { note, action: OpAction::Remove { location: source } },
                    )
                } else {
                    let (u, action) = advance(t, cancel);
                    (u, OpOut { note, action })
                }
            },
            Err(_) => {
                let (t, action) = fail(s, source, write_failed(dest), cancel);
                (t, only(action))
            },
        },
        (Stage::AbortClose { dest, cause }, OpReply::Done(_)) => (
            at_stage(s, Stage::AbortRemove { cause }),
            only(OpAction::Remove { location: dest }),
        ),
        (Stage::AbortRemove { cause }, OpReply::Done(_)) => match cause {
            Cause::Cancelled => (at_stage(s, Stage::Over), only(OpAction::Cancelled)),
            Cause::Failed { source, error } => {
                let (t, action) = fail(s, source, error, cancel);
                (t, only(action))
            },
        },
        _ => (at_stage(s, Stage::Over), only(OpAction::Halt)),
    }
}

/// One step of an operation: the next state and what to do. A reply that does
/// not answer what was asked for halts the operation.
pub open spec fn op_step(s: OpState, reply: OpReplyView, cancel: bool) -> (OpState, OpOut) {
    match s.stage {
        Stage::Ready => if reply is Start {
            let (t, action) = first_step(s);
            (t, only(action))
        } else {
            (at_stage(s, Stage::Over), only(OpAction::Halt))
        },
        Stage::FastResolve { .. }
        | Stage::FastStat { .. }
        | Stage::FastRename { .. }
        | Stage::DestResolve => {
            let (t, action) = rename_step(s, reply);
            (t, only(action))
        },
        Stage::CountResolve { .. } | Stage::CountStat { .. } | Stage::CountList { .. } => {
            let (t, action) = count_step(s, reply);
            (t, only(action))
        },
        Stage::Announced => if reply == OpReplyView::Delivered(true) {
            let (t, action) = advance(
                OpState { todo: top_tasks(s.remaining, s.dest_dir), ..s },
                cancel,
            );
            (t, only(action))
        } else {
            (at_stage(s, Stage::Over), only(OpAction::Halt))
        },
        Stage::ItemResolve { .. }
        | Stage::ItemStat { .. }
        | Stage::DirStat { .. }
        | Stage::FileStat { .. }
        | Stage::Asking { .. }
        | Stage::Probing { .. } => item_step(s, reply, cancel),
        Stage::DirEnsure { .. }
        | Stage::DirMake { .. }
        | Stage::DirList { .. }
        | Stage::Removing { .. } => {
            let (t, action) = dir_step(s, reply, cancel);
            (t, only(action))
        },
        Stage::OpenRead { .. }
        | Stage::OpenWrite { .. }
        | Stage::Reading { .. }
        | Stage::Writing { .. }
        | Stage::Closing { .. }
        | Stage::AbortClose { .. }
        | Stage::AbortRemove { .. } => copy_step(s, reply, cancel),
        Stage::Over => (s, only(OpAction::Halt)),
    }
}

// ---------------------------------------------------------------------------
// The engine
// ---------------------------------------------------------------------------

/// A running operation.
#[derive(Debug)]
pub struct OpEngine {
    kind: OpKind,
    sources: Vec<Location>,
    dest_dir: Location,
    queue: Vec<Location>,
    remaining: Vec<Location>,
    counting: Vec<Location>,
    files_total: usize,
    bytes_total: u64,
    files_done: usize,
    bytes_done: u64,
    remembered: Option<ConflictChoice>,
    errors: Vec<(Location, VfsError)>,
    todo: Vec<Task<Location>>,
    stage: Stage<Location, Vec<u8>, VfsError>,
}

/// What a step gives out.
#[derive(Debug)]
pub struct OpOutput {
    /// An event that may be dropped.
    pub note: Option<OpEvent>,
    /// What to do next.
    pub action: OpAction,
}

impl View for OpOutput {
    type V = OpOut;

    open spec fn view(&self) -> OpOut {
        OpOut { note: opt_event(self.note), action: self.action@ }
    }
}

impl View for OpEngine {
    type V = OpState;

    closed spec fn view(&self) -> OpState {
        OpState {
            kind: self.kind,
            sources: locations(self.sources@),
            dest_dir: self.dest_dir@,
            queue: locations(self.queue@),
            remaining: locations(self.remaining@),
            counting: locations(self.counting@),
            files_total: self.files_total,
            bytes_total: self.bytes_total,
            files_done: self.files_done,
            bytes_done: self.bytes_done,
            remembered: self.remembered,
            errors: failures(self.errors@),
            todo: tasks(self.todo@),
            stage: self.stage@,
        }
    }
}

/// The state before the first step.
pub open spec fn initial_state(
    kind: OpKind,
    sources: Seq<LocationView>,
    dest_dir: LocationView,
) -> OpState {
    OpState {
        kind,
        sources,
        dest_dir,
        queue: Seq::empty(),
        remaining: Seq::empty(),
        counting: Seq::empty(),
        files_total: 0,
        bytes_total: 0,
        files_done: 0,
        bytes_done: 0,
        remembered: None,
        errors: Seq::empty(),
        todo: Seq::empty(),
        stage: Stage::Ready,
    }
}

fn quiet(action: OpAction) -> (r: OpOutput)
    ensures
        r@ == only(action@),
{
    OpOutput { note: None, action }
}

fn missing_backend(scheme: &str) -> (r: VfsError)
    ensures
        r@ == no_backend(scheme@),
{
    VfsError::Other { message: copy_of("no backend for scheme \"").concat(scheme).concat("\"") }
}

fn failed_write(dest: &Location) -> (r: VfsError)
    ensures
        r@ == write_failed(dest@),
{
    VfsError::Other {
        message: copy_of("writing ").concat(dest.to_string().as_str()).concat(" failed"),
    }
}

/// Adds up to the largest `u64`.
pub fn add_u64(a: u64, b: u64) -> (r: u64)
    ensures
        r == sum_u64(a, b),
{
    a.saturating_add(b)
}

/// Adds up to the largest `usize`.
pub fn add_usize(a: usize, b: usize) -> (r: usize)
    ensures
        r == sum_usize(a, b),
{
    a.saturating_add(b)
}

fn same_backend(a: &Location, b: &Location) -> (r: bool)
    ensures
        r == on_same_backend(a@, b@),
{
    same_text(a.scheme.as_str(), b.scheme.as_str()) && same_opt(&a.authority, &b.authority)
}

/// The locations in reverse order.
pub fn reversed(v: &Vec<Location>) -> (r: Vec<Location>)
    ensures
        locations(r@) == locations(v@).reverse(),
{
    let mut out: Vec<Location> = Vec::new();
    let mut i: usize = v.len();
    while i > 0
        invariant
            i <= v@.len(),
            out@.len() == v@.len() - i,
            forall|j: int| 0 <= j < out@.len() ==> (#[trigger] out@[j])@ == v@[v@.len() - 1 - j]@,
        decreases i,
    {
        i = i - 1;
        out.push(v[i].clone());
    }
    assert(locations(out@) =~= locations(v@).reverse());
    out
}

fn copy_failures(v: &Vec<(Location, VfsError)>) -> (r: Vec<(Location, VfsError)>)
    ensures
        failures(r@) == failures(v@),
{
    let mut out: Vec<(Location, VfsError)> = Vec::new();
    for i in 0..v.len()
        invariant
            out@.len() == i,
            forall|j: int|
                0 <= j < i ==> (#[trigger] out@[j]).0@ == v@[j].0@ && out@[j].1@ == v@[j].1@,
    {
        out.push((v[i].0.clone(), v[i].1.clone()));
    }
    assert(failures(out@) =~= failures(v@));
    out
}

proof fn tasks_of_push(v: Seq<Task<Location>>, t: Task<Location>)
    ensures
        tasks(v.push(t)) == tasks(v).push(t@),
{
    assert(tasks(v.push(t)) =~= tasks(v).push(t@));
}

proof fn tasks_of_pop(v: Seq<Task<Location>>)
    requires
        v.len() > 0,
    ensures
        tasks(v.drop_last()) == tasks(v).drop_last(),
        tasks(v).last() == v.last()@,
{
    assert(tasks(v.drop_last()) =~= tasks(v).drop_last());
}

proof fn locations_of_push(v: Seq<Location>, l: Location)
    ensures
        locations(v.push(l)) == locations(v).push(l@),
{
    assert(locations(v.push(l)) =~= locations(v).push(l@));
}

proof fn locations_of_pop(v: Seq<Location>)
    requires
        v.len() > 0,
    ensures
        locations(v.drop_last()) == locations(v).drop_last(),
        locations(v).last() == v.last()@,
{
    assert(locations(v.drop_last()) =~= locations(v).drop_last());
}

proof fn failures_of_push(v: Seq<(Location, VfsError)>, f: (Location, VfsError))
    ensures
        failures(v.push(f)) == failures(v).push((f.0@, f.1@)),
{
    assert(failures(v.push(f)) =~= failures(v).push((f.0@, f.1@)));
}

impl OpEngine {
    /// The engine for a request, before its first step.
    pub fn new(request: &OpRequest) -> (r: OpEngine)
        ensures
            r@ == initial_state(
                request.kind,
                locations(request.sources@),
                request.dest_dir@,
            ),
    {
        let r = OpEngine {
            kind: request.kind,
            sources: copy_locations(&request.sources),
            dest_dir: request.dest_dir.clone(),
            queue: Vec::new(),
            remaining: Vec::new(),
            counting: Vec::new(),
            files_total: 0,
            bytes_total: 0,
            files_done: 0,
            bytes_done: 0,
            remembered: None,
            errors: Vec::new(),
            todo: Vec::new(),
            stage: Stage::Ready,
        };
        assert(r@ =~= initial_state(
            request.kind,
            locations(request.sources@),
            request.dest_dir@,
        ));
        r
    }

    /// Takes the stage out; the engine counts as over until the next one is
    /// set.
    fn take_stage(&mut self) -> (r: Stage<Location, Vec<u8>, VfsError>)
        ensures
            r@ == old(self)@.stage,
            final(self)@ == at_stage(old(self)@, Stage::Over),
    {
        let mut stage = Stage::Over;
        core::mem::swap(&mut stage, &mut self.stage);
        stage
    }

    fn record(&mut self, at: Location, error: VfsError)
        ensures
            final(self)@ == with_failure(old(self)@, at@, error@),
    {
        proof {
            failures_of_push(self.errors@, (at, error));
        }
        self.errors.push((at, error));
    }

    fn keep(&mut self, source: Location)
        ensures
            final(self)@ == (OpState {
                remaining: old(self)@.remaining.push(source@),
                ..old(self)@
            }),
    {
        proof {
            locations_of_push(self.remaining@, source);
        }
        self.remaining.push(source);
    }

    fn finish(&mut self) -> (r: OpAction)
        ensures
            final(self)@ == at_stage(old(self)@, Stage::Over),
            r@ == (OpActionView::Finish { errors: old(self)@.errors }),
    {
        self.stage = Stage::Over;
        OpAction::Finish { errors: copy_failures(&self.errors) }
    }

    fn halt(&mut self) -> (r: OpAction)
        ensures
            final(self)@ == at_stage(old(self)@, Stage::Over),
            r@ == OpActionView::Halt,
    {
        self.stage = Stage::Over;
        OpAction::Halt
    }

    fn next_task(&mut self, cancel: bool) -> (r: OpAction)
        ensures
            (final(self)@, r@) == advance(old(self)@, cancel),
    {
        if self.todo.len() == 0 {
            return self.finish();
        }
        proof {
            tasks_of_pop(self.todo@);
        }
        let is_item = match &self.todo[self.todo.len() - 1] {
            Task::Item { .. } => true,
            Task::RemoveDir { .. } => false,
        };
        if is_item && cancel {
            self.stage = Stage::Over;
            return OpAction::Cancelled;
        }
        let task = self.todo.pop();
        match task {
            Some(Task::Item { source, dest }) => {
                let location = source.clone();
                self.stage = Stage::ItemResolve { source, dest };
                OpAction::Resolve { location }
            },
            Some(Task::RemoveDir { source }) => {
                let location = source.clone();
                self.stage = Stage::Removing { source };
                OpAction::Remove { location }
            },
            None => OpAction::Halt,
        }
    }

    fn fail(&mut self, at: Location, error: VfsError, cancel: bool) -> (r: OpAction)
        ensures
            (final(self)@, r@) == fail(old(self)@, at@, error@, cancel),
    {
        self.record(at, error);
        self.next_task(cancel)
    }

    fn begin(&mut self, source: Location, dest: Location, size: Option<u64>) -> (r: OpAction)
        ensures
            (final(self)@, r@) == begin(old(self)@, source@, dest@, size),
    {
        match size {
            Some(_) => {
                let location = source.clone();
                self.stage = Stage::OpenRead { source, dest };
                OpAction::OpenRead { location }
            },
            None => {
                let location = dest.clone();
                self.stage = Stage::DirEnsure { source, dest };
                OpAction::Stat { location }
            },
        }
    }

    fn probe(&mut self, source: Location, dest: Location, size: Option<u64>, n: u32) -> (r:
        OpAction)
        ensures
            (final(self)@, r@) == probe(old(self)@, source@, dest@, size, n),
    {
        match candidate(&dest, n) {
            None => self.begin(source, dest, size),
            Some(other) => {
                if n >= RENAME_ATTEMPTS {
                    self.begin(source, other, size)
                } else {
                    self.stage = Stage::Probing { source, dest, size, n };
                    OpAction::Stat { location: other }
                }
            },
        }
    }

    fn progress_note(&self) -> (r: Option<OpEvent>)
        ensures
            opt_event(r) == Some(progress(self@)),
    {
        Some(OpEvent::Progress { files_done: self.files_done, bytes_done: self.bytes_done })
    }

    fn count_file(&mut self, bytes: u64)
        ensures
            final(self)@ == file_done(old(self)@, bytes),
    {
        self.files_done = add_usize(self.files_done, 1);
        self.bytes_done = add_u64(self.bytes_done, bytes);
    }

    fn settle(
        &mut self,
        source: Location,
        dest: Location,
        size: Option<u64>,
        choice: ConflictChoice,
        cancel: bool,
    ) -> (r: OpOutput)
        ensures
            (final(self)@, r@) == settle(old(self)@, source@, dest@, size, choice, cancel),
    {
        match choice {
            ConflictChoice::Overwrite => {
                let action = self.begin(source, dest, size);
                quiet(action)
            },
            ConflictChoice::Skip => match size {
                Some(bytes) => {
                    self.count_file(bytes);
                    let note = self.progress_note();
                    let action = self.next_task(cancel);
                    OpOutput { note, action }
                },
                None => {
                    let action = self.next_task(cancel);
                    quiet(action)
                },
            },
            ConflictChoice::RenameCopy => {
                let action = self.probe(source, dest, size, 1);
                quiet(action)
            },
        }
    }

    fn clash(&mut self, source: Location, dest: Location, size: Option<u64>, cancel: bool) -> (r:
        OpOutput)
        ensures
            (final(self)@, r@) == clash(old(self)@, source@, dest@, size, cancel),
    {
        match self.remembered {
            Some(choice) => self.settle(source, dest, size, choice, cancel),
            None => {
                let conflict = Conflict { source: source.clone(), dest: dest.clone() };
                self.stage = Stage::Asking { source, dest, size };
                quiet(OpAction::Ask { conflict })
            },
        }
    }

    fn read_on(&mut self, source: Location, dest: Location, buffer: Vec<u8>, cancel: bool) -> (r:
        OpAction)
        ensures
            (final(self)@, r@) == read_on(old(self)@, source@, dest@, buffer@, cancel),
    {
        if cancel {
            self.stage = Stage::AbortClose { dest, cause: Cause::Cancelled };
            OpAction::Close
        } else {
            self.stage = Stage::Reading { source, dest, buffer };
            OpAction::Read
        }
    }

    fn count_on(&mut self) -> (r: OpAction)
        ensures
            (final(self)@, r@) == count_on(old(self)@),
    {
        if self.counting.len() > 0 {
            proof {
                locations_of_pop(self.counting@);
            }
        }
        match self.counting.pop() {
            None => {
                self.stage = Stage::Announced;
                OpAction::Announce {
                    files_total: self.files_total,
                    bytes_total: self.bytes_total,
                }
            },
            Some(location) => {
                let asked = location.clone();
                self.stage = Stage::CountResolve { location };
                OpAction::Resolve { location: asked }
            },
        }
    }

    fn after_renames(&mut self) -> (r: OpAction)
        ensures
            (final(self)@, r@) == after_renames(old(self)@),
    {
        if self.remaining.len() == 0 {
            self.finish()
        } else {
            self.stage = Stage::DestResolve;
            OpAction::Resolve { location: self.dest_dir.clone() }
        }
    }

    fn rename_on(&mut self) -> (r: OpAction)
        ensures
            (final(self)@, r@) == rename_on(old(self)@),
        decreases old(self)@.queue.len(),
    {
        if self.queue.len() == 0 {
            return self.after_renames();
        }
        proof {
            locations_of_pop(self.queue@);
        }
        match self.queue.pop() {
            None => OpAction::Halt,
            Some(source) => {
                if same_backend(&source, &self.dest_dir) {
                    self.stage = Stage::FastResolve { source };
                    OpAction::Resolve { location: self.dest_dir.clone() }
                } else {
                    self.keep(source);
                    self.rename_on()
                }
            },
        }
    }

    fn first_step(&mut self) -> (r: OpAction)
        ensures
            (final(self)@, r@) == first_step(old(self)@),
    {
        match self.kind {
            OpKind::Move => {
                self.queue = reversed(&self.sources);
                self.remaining = Vec::new();
                assert(locations(self.remaining@) =~= Seq::empty());
                self.rename_on()
            },
            OpKind::Copy => {
                self.remaining = copy_locations(&self.sources);
                self.after_renames()
            },
        }
    }

    fn rename_step(
        &mut self,
        stage: Stage<Location, Vec<u8>, VfsError>,
        reply: OpReply,
    ) -> (r: OpAction)
        ensures
            (final(self)@, r@) == rename_step(at_stage(old(self)@, stage@), reply@),
    {
        proof {
            reveal(rename_step);
        }
        let ghost start = self@;
        match (stage, reply) {
            (Stage::FastResolve { source }, OpReply::Backend(caps)) => {
                let fast = match caps {
                    Some(c) => c.contains(Caps::rename_in_place()),
                    None => false,
                };
                if fast {
                    match source.path.file_name() {
                        Some(name) => {
                            let to = self.dest_dir.join(name);
                            let location = if source == to {
                                source.clone()
                            } else {
                                to
                            };
                            self.stage = Stage::FastStat { source };
                            OpAction::Stat { location }
                        },
                        None => {
                            self.stage = Stage::FastResolve { source };
                            self.rename_on()
                        },
                    }
                } else {
                    self.stage = Stage::FastResolve { source: source.clone() };
                    self.keep(source);
                    self.rename_on()
                }
            },
            (Stage::FastStat { source }, OpReply::Entry(r)) => {
                if let Some(name) = source.path.file_name() {
                    let to = self.dest_dir.join(name);
                    let there = source == to;
                    if r.is_ok() && there {
                        self.stage = Stage::FastStat { source };
                        return self.rename_on();
                    }
                    if r.is_err() && !there {
                        let from = source.clone();
                        self.stage = Stage::FastRename { source };
                        return OpAction::Rename { from, to };
                    }
                }
                self.stage = Stage::FastStat { source: source.clone() };
                self.keep(source);
                self.rename_on()
            },
            (Stage::FastRename { source }, OpReply::Done(r)) => {
                let failed = r.is_err();
                self.stage = Stage::FastRename { source: source.clone() };
                if failed {
                    self.keep(source);
                }
                self.rename_on()
            },
            (Stage::DestResolve, OpReply::Backend(caps)) => {
                self.stage = Stage::DestResolve;
                if caps.is_some() {
                    self.counting = reversed(&self.remaining);
                    self.count_on()
                } else {
                    let error = missing_backend(self.dest_dir.scheme.as_str());
                    let mut errors: Vec<(Location, VfsError)> = Vec::new();
                    errors.push((self.dest_dir.clone(), error));
                    assert(failures(errors@) =~= seq![
                        (start.dest_dir, no_backend(start.dest_dir.scheme)),
                    ]);
                    self.errors = errors;
                    self.finish()
                }
            },
            _ => self.halt(),
        }
    }

    fn push_children(&mut self, location: &Location, list: &Vec<FileEntry>)
        ensures
            final(self)@ == (OpState {
                counting: old(self)@.counting + children_of(location@, entries(list@)),
                ..old(self)@
            }),
    {
        let ghost start = self@;
        let ghost want = children_of(location@, entries(list@));
        let mut i: usize = list.len();
        assert(want.take(0) =~= Seq::empty());
        assert(start.counting + want.take(0) =~= start.counting);
        while i > 0
            invariant
                i <= list@.len(),
                want == children_of(location@, entries(list@)),
                self@ == (OpState { counting: start.counting + want.take(list@.len() - i), ..start }),
            decreases i,
        {
            i = i - 1;
            let child = location.join(copy_bytes(list[i].name.as_slice()));
            proof {
                locations_of_push(self.counting@, child);
                let k = list@.len() - 1 - i;
                assert(want[k] == child@);
                assert(want.take(k + 1) =~= want.take(k).push(want[k]));
                assert(start.counting + want.take(k + 1) =~= (start.counting + want.take(k)).push(
                    want[k],
                ));
            }
            self.counting.push(child);
        }
        assert(want.take(list@.len() as int) =~= want);
    }

    fn push_child_tasks(&mut self, source: &Location, dest: &Location, list: &Vec<FileEntry>)
        ensures
            final(self)@ == (OpState {
                todo: old(self)@.todo + child_tasks(source@, dest@, entries(list@)),
                ..old(self)@
            }),
    {
        let ghost start = self@;
        let ghost want = child_tasks(source@, dest@, entries(list@));
        let mut i: usize = list.len();
        assert(want.take(0) =~= Seq::empty());
        assert(start.todo + want.take(0) =~= start.todo);
        while i > 0
            invariant
                i <= list@.len(),
                want == child_tasks(source@, dest@, entries(list@)),
                self@ == (OpState { todo: start.todo + want.take(list@.len() - i), ..start }),
            decreases i,
        {
            i = i - 1;
            let child = Task::Item {
                source: source.join(copy_bytes(list[i].name.as_slice())),
                dest: dest.join(copy_bytes(list[i].name.as_slice())),
            };
            proof {
                tasks_of_push(self.todo@, child);
                let k = list@.len() - 1 - i;
                assert(want[k] == child@);
                assert(want.take(k + 1) =~= want.take(k).push(want[k]));
                assert(start.todo + want.take(k + 1) =~= (start.todo + want.take(k)).push(want[k]));
            }
            self.todo.push(child);
        }
        assert(want.take(list@.len() as int) =~= want);
    }

    fn count_step(
        &mut self,
        stage: Stage<Location, Vec<u8>, VfsError>,
        reply: OpReply,
    ) -> (r: OpAction)
        ensures
            (final(self)@, r@) == count_step(at_stage(old(self)@, stage@), reply@),
    {
        proof {
            reveal(count_step);
        }
        match (stage, reply) {
            (Stage::CountResolve { location }, OpReply::Backend(caps)) => {
                if caps.is_some() {
                    let asked = location.clone();
                    self.stage = Stage::CountStat { location };
                    OpAction::Stat { location: asked }
                } else {
                    self.stage = Stage::CountResolve { location };
                    self.count_on()
                }
            },
            (Stage::CountStat { location }, OpReply::Entry(r)) => match r {
                Ok(meta) => {
                    if meta.kind == EntryKind::Directory {
                        let asked = location.clone();
                        self.stage = Stage::CountList { location };
                        OpAction::List { location: asked }
                    } else {
                        self.stage = Stage::CountStat { location };
                        self.files_total = add_usize(self.files_total, 1);
                        self.bytes_total = add_u64(self.bytes_total, meta.size);
                        self.count_on()
                    }
                },
                Err(_) => {
                    self.stage = Stage::CountStat { location };
                    self.count_on()
                },
            },
            (Stage::CountList { location }, OpReply::Listing(r)) => match r {
                Ok(list) => {
                    self.push_children(&location, &list);
                    self.stage = Stage::CountList { location };
                    self.count_on()
                },
                Err(_) => {
                    self.stage = Stage::CountList { location };
                    self.count_on()
                },
            },
            _ => self.halt(),
        }
    }

    fn item_step(
        &mut self,
        stage: Stage<Location, Vec<u8>, VfsError>,
        reply: OpReply,
        cancel: bool,
    ) -> (r: OpOutput)
        ensures
            (final(self)@, r@) == item_step(at_stage(old(self)@, stage@), reply@, cancel),
    {
        proof {
            reveal(item_step);
        }
        match (stage, reply) {
            (Stage::ItemResolve { source, dest }, OpReply::Backend(caps)) => {
                if caps.is_some() {
                    let location = source.clone();
                    self.stage = Stage::ItemStat { source, dest };
                    quiet(OpAction::Stat { location })
                } else {
                    let error = missing_backend(source.scheme.as_str());
                    self.stage = Stage::ItemResolve { source: source.clone(), dest };
                    let action = self.fail(source, error, cancel);
                    quiet(action)
                }
            },
            (Stage::ItemStat { source, dest }, OpReply::Entry(r)) => match r {
                Ok(meta) => {
                    let location = dest.clone();
                    if meta.kind == EntryKind::Directory {
                        self.stage = Stage::DirStat { source, dest };
                        quiet(OpAction::Stat { location })
                    } else {
                        let name = match source.path.file_name() {
                            Some(name) => name,
                            None => {
                                let empty: Vec<u8> = Vec::new();
                                assert(empty@ =~= Seq::empty());
                                empty
                            },
                        };
                        self.stage = Stage::FileStat { source, dest, bytes: meta.size };
                        OpOutput {
                            note: Some(OpEvent::FileStarted { name }),
                            action: OpAction::Stat { location },
                        }
                    }
                },
                Err(error) => {
                    self.stage = Stage::ItemStat { source: source.clone(), dest };
                    let action = self.fail(source, error, cancel);
                    quiet(action)
                },
            },
            (Stage::DirStat { source, dest }, OpReply::Entry(r)) => {
                let blocked = match &r {
                    Ok(meta) => meta.kind != EntryKind::Directory,
                    Err(_) => false,
                };
                self.stage = Stage::DirStat { source: source.clone(), dest: dest.clone() };
                if blocked {
                    self.clash(source, dest, None, cancel)
                } else {
                    let action = self.begin(source, dest, None);
                    quiet(action)
                }
            },
            (Stage::FileStat { source, dest, bytes }, OpReply::Entry(r)) => {
                self.stage = Stage::FileStat { source: source.clone(), dest: dest.clone(), bytes };
                if r.is_ok() {
                    self.clash(source, dest, Some(bytes), cancel)
                } else {
                    let action = self.begin(source, dest, Some(bytes));
                    quiet(action)
                }
            },
            (Stage::Asking { source, dest, size }, OpReply::Decision(d)) => match d {
                Some(decision) => {
                    self.stage = Stage::Asking { source: source.clone(), dest: dest.clone(), size };
                    if decision.apply_to_all {
                        self.remembered = Some(decision.choice);
                    }
                    self.settle(source, dest, size, decision.choice, cancel)
                },
                None => {
                    self.stage = Stage::Over;
                    quiet(OpAction::Cancelled)
                },
            },
            (Stage::Probing { source, dest, size, n }, OpReply::Entry(r)) => {
                self.stage = Stage::Probing {
                    source: source.clone(),
                    dest: dest.clone(),
                    size,
                    n,
                };
                if r.is_ok() {
                    let next = if n >= RENAME_ATTEMPTS {
                        n
                    } else {
                        n + 1
                    };
                    let action = self.probe(source, dest, size, next);
                    quiet(action)
                } else {
                    let other = match candidate(&dest, n) {
                        Some(other) => other,
                        None => dest,
                    };
                    let action = self.begin(source, other, size);
                    quiet(action)
                }
            },
            _ => {
                let action = self.halt();
                quiet(action)
            },
        }
    }

    fn dir_step(
        &mut self,
        stage: Stage<Location, Vec<u8>, VfsError>,
        reply: OpReply,
        cancel: bool,
    ) -> (r: OpAction)
        ensures
            (final(self)@, r@) == dir_step(at_stage(old(self)@, stage@), reply@, cancel),
    {
        proof {
            reveal(dir_step);
        }
        match (stage, reply) {
            (Stage::DirEnsure { source, dest }, OpReply::Entry(r)) => {
                if r.is_ok() {
                    let location = source.clone();
                    self.stage = Stage::DirList { source, dest };
                    OpAction::List { location }
                } else {
                    let location = dest.clone();
                    self.stage = Stage::DirMake { source, dest };
                    OpAction::Mkdir { location }
                }
            },
            (Stage::DirMake { source, dest }, OpReply::Done(r)) => match r {
                Ok(_) => {
                    let location = source.clone();
                    self.stage = Stage::DirList { source, dest };
                    OpAction::List { location }
                },
                Err(error) => {
                    self.stage = Stage::DirMake { source, dest: dest.clone() };
                    self.fail(dest, error, cancel)
                },
            },
            (Stage::DirList { source, dest }, OpReply::Listing(r)) => match r {
                Ok(list) => {
                    self.stage = Stage::DirList { source: source.clone(), dest: dest.clone() };
                    if self.kind == OpKind::Move {
                        let task = Task::RemoveDir { source: source.clone() };
                        proof {
                            tasks_of_push(self.todo@, task);
                        }
                        self.todo.push(task);
                    }
                    self.push_child_tasks(&source, &dest, &list);
                    self.next_task(cancel)
                },
                Err(error) => {
                    self.stage = Stage::DirList { source: source.clone(), dest };
                    self.fail(source, error, cancel)
                },
            },
            (Stage::Removing { source }, OpReply::Done(r)) => match r {
                Ok(_) => {
                    self.stage = Stage::Removing { source };
                    self.next_task(cancel)
                },
                Err(error) => {
                    self.stage = Stage::Removing { source: source.clone() };
                    self.fail(source, error, cancel)
                },
            },
            _ => self.halt(),
        }
    }

    fn read_step(
        &mut self,
        source: Location,
        dest: Location,
        buffer: Vec<u8>,
        r: Option<Result<Vec<u8>, VfsError>>,
        cancel: bool,
    ) -> (out: OpOutput)
        ensures
            (final(self)@, out@) == copy_step(
                at_stage(
                    old(self)@,
                    Stage::Reading { source: source@, dest: dest@, buffer: buffer@ },
                ),
                OpReply::Chunk(r)@,
                cancel,
            ),
    {
        proof {
            reveal(copy_step);
        }
        match r {
            Some(Ok(bytes)) => {
                let all = concat_bytes(buffer.as_slice(), bytes.as_slice());
                if all.len() >= COPY_CHUNK_BYTES {
                    self.stage = Stage::Writing {
                        source,
                        dest,
                        len: all.len() as u64,
                        last: false,
                    };
                    quiet(OpAction::Write { bytes: all })
                } else {
                    let action = self.read_on(source, dest, all, cancel);
                    quiet(action)
                }
            },
            Some(Err(error)) => {
                self.stage = Stage::AbortClose { dest, cause: Cause::Failed { source, error } };
                quiet(OpAction::Close)
            },
            None => {
                if buffer.len() > 0 {
                    self.stage = Stage::Writing {
                        source,
                        dest,
                        len: buffer.len() as u64,
                        last: true,
                    };
                    quiet(OpAction::Write { bytes: buffer })
                } else {
                    self.stage = Stage::Closing { source, dest };
                    quiet(OpAction::Close)
                }
            },
        }
    }

    fn copy_step(
        &mut self,
        stage: Stage<Location, Vec<u8>, VfsError>,
        reply: OpReply,
        cancel: bool,
    ) -> (r: OpOutput)
        ensures
            (final(self)@, r@) == copy_step(at_stage(old(self)@, stage@), reply@, cancel),
    {
        proof {
            reveal(copy_step);
        }
        match (stage, reply) {
            (Stage::OpenRead { source, dest }, OpReply::Done(r)) => match r {
                Ok(_) => {
                    let location = dest.clone();
                    self.stage = Stage::OpenWrite { source, dest };
                    quiet(OpAction::OpenWrite { location })
                },
                Err(error) => {
                    self.stage = Stage::OpenRead { source: source.clone(), dest };
                    let action = self.fail(source, error, cancel);
                    quiet(action)
                },
            },
            (Stage::OpenWrite { source, dest }, OpReply::Done(r)) => match r {
                Ok(_) => {
                    let buffer: Vec<u8> = Vec::new();
                    assert(buffer@ =~= Seq::empty());
                    let action = self.read_on(source, dest, buffer, cancel);
                    quiet(action)
                },
                Err(error) => {
                    self.stage = Stage::OpenWrite { source: source.clone(), dest };
                    let action = self.fail(source, error, cancel);
                    quiet(action)
                },
            },
            (Stage::Reading { source, dest, buffer }, OpReply::Chunk(r)) => {
                self.read_step(source, dest, buffer, r, cancel)
            },
            (Stage::Writing { source, dest, len, last }, OpReply::Done(r)) => {
                self.stage = Stage::Writing {
                    source: source.clone(),
                    dest: dest.clone(),
                    len,
                    last,
                };
                if r.is_err() {
                    let error = failed_write(&dest);
                    let action = self.fail(source, error, cancel);
                    return quiet(action);
                }
                self.bytes_done = add_u64(self.bytes_done, len);
                if last {
                    self.stage = Stage::Closing { source, dest };
                    quiet(OpAction::Close)
                } else {
                    let note = self.progress_note();
                    let buffer: Vec<u8> = Vec::new();
                    assert(buffer@ =~= Seq::empty());
                    let action = self.read_on(source, dest, buffer, cancel);
                    OpOutput { note, action }
                }
            },
            (Stage::Closing { source, dest }, OpReply::Done(r)) => {
                self.stage = Stage::Closing { source: source.clone(), dest: dest.clone() };
                if r.is_err() {
                    let error = failed_write(&dest);
                    let action = self.fail(source, error, cancel);
                    return quiet(action);
                }
                self.count_file(0);
                let note = self.progress_note();
                if self.kind == OpKind::Move {
                    let location = source.clone();
                    self.stage = Stage::Removing { source };
                    OpOutput { note, action: OpAction::Remove { location } }
                } else {
                    let action = self.next_task(cancel);
                    OpOutput { note, action }
                }
            },
            (Stage::AbortClose { dest, cause }, OpReply::Done(_)) => {
                self.stage = Stage::AbortRemove { cause };
                quiet(OpAction::Remove { location: dest })
            },
            (Stage::AbortRemove { cause }, OpReply::Done(_)) => match cause {
                Cause::Cancelled => {
                    self.stage = Stage::Over;
                    quiet(OpAction::Cancelled)
                },
                Cause::Failed { source, error } => {
                    self.stage = Stage::AbortRemove {
                        cause: Cause::Failed { source: source.clone(), error: error.clone() },
                    };
                    let action = self.fail(source, error, cancel);
                    quiet(action)
                },
            },
            _ => {
                let action = self.halt();
                quiet(action)
            },
        }
    }

    fn top_tasks(&mut self)
        ensures
            final(self)@ == (OpState {
                todo: top_tasks(old(self)@.remaining, old(self)@.dest_dir),
                ..old(self)@
            }),
    {
        let ghost start = self@;
        let ghost all = self@.remaining;
        self.todo = Vec::new();
        assert(all.skip(all.len() as int) =~= Seq::empty());
        assert(tasks(self.todo@) =~= Seq::empty());
        let mut i: usize = self.remaining.len();
        while i > 0
            invariant
                i <= self.remaining@.len(),
                all == start.remaining,
                all.len() == self.remaining@.len(),
                self@ == (OpState { todo: top_tasks(all.skip(i as int), start.dest_dir), ..start }),
            decreases i,
        {
            i = i - 1;
            proof {
                assert(all.skip(i as int)[0] == self.remaining@[i as int]@);
                assert(all.skip(i as int).skip(1) =~= all.skip(i + 1));
            }
            if let Some(name) = self.remaining[i].path.file_name() {
                let task = Task::Item {
                    source: self.remaining[i].clone(),
                    dest: self.dest_dir.join(name),
                };
                proof {
                    tasks_of_push(self.todo@, task);
                }
                self.todo.push(task);
            }
        }
        assert(all.skip(0) =~= all);
    }

    /// One step: the outcome of the last action, and whether cancellation has
    /// been requested by now, give the next action.
    pub fn step(&mut self, reply: OpReply, cancel: bool) -> (r: OpOutput)
        ensures
            (final(self)@, r@) == op_step(old(self)@, reply@, cancel),
    {
        let ghost start = self@;
        let stage = self.take_stage();
        assert(at_stage(self@, stage@) =~= start);
        match stage {
            Stage::Ready => match reply {
                OpReply::Start => {
                    self.stage = Stage::Ready;
                    let action = self.first_step();
                    quiet(action)
                },
                _ => {
                    let action = self.halt();
                    quiet(action)
                },
            },
            Stage::FastResolve { .. }
            | Stage::FastStat { .. }
            | Stage::FastRename { .. }
            | Stage::DestResolve => {
                let action = self.rename_step(stage, reply);
                quiet(action)
            },
            Stage::CountResolve { .. } | Stage::CountStat { .. } | Stage::CountList { .. } => {
                let action = self.count_step(stage, reply);
                quiet(action)
            },
            Stage::Announced => match reply {
                OpReply::Delivered(true) => {
                    self.stage = Stage::Announced;
                    self.top_tasks();
                    let action = self.next_task(cancel);
                    quiet(action)
                },
                _ => {
                    let action = self.halt();
                    quiet(action)
                },
            },
            Stage::ItemResolve { .. }
            | Stage::ItemStat { .. }
            | Stage::DirStat { .. }
            | Stage::FileStat { .. }
            | Stage::Asking { .. }
            | Stage::Probing { .. } => self.item_step(stage, reply, cancel),
            Stage::DirEnsure { .. }
            | Stage::DirMake { .. }
            | Stage::DirList { .. }
            | Stage::Removing { .. } => {
                let action = self.dir_step(stage, reply, cancel);
                quiet(action)
            },
            Stage::OpenRead { .. }
            | Stage::OpenWrite { .. }
            | Stage::Reading { .. }
            | Stage::Writing { .. }
            | Stage::Closing { .. }
            | Stage::AbortClose { .. }
            | Stage::AbortRemove { .. } => self.copy_step(stage, reply, cancel),
            Stage::Over => quiet(OpAction::Halt),
        }
    }
}

} // verus!
