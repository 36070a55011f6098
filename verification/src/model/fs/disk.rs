//! The vocabulary between the jobs of this directory, which decide, and the
//! application, which touches the disk: one action is handed out, its outcome
//! is handed back.
use crate::model::vfs::{Location, VfsError, VfsErrorView, local_view};
use crate::modules::local::{IoKind, io_error, io_failure};
use crate::path::{FsPath, paths};
use vstd::prelude::*;

verus! {

/// A failed system call.
#[derive(Debug)]
pub struct DiskFailure<T = String> {
    pub kind: IoKind,
    /// The system's own wording.
    pub message: T,
}

impl View for DiskFailure {
    type V = DiskFailure<Seq<char>>;

    open spec fn view(&self) -> DiskFailure<Seq<char>> {
        DiskFailure { kind: self.kind, message: self.message@ }
    }
}

/// The view of an optional failure.
pub open spec fn opt_failure(o: Option<DiskFailure>) -> Option<DiskFailure<Seq<char>>> {
    match o {
        Some(f) => Some(f@),
        None => None,
    }
}

/// What the system says of a path without following a link at its end.
#[derive(Debug, Clone, Copy, PartialEq, Eq, Structural)]
pub struct DiskStat {
    /// The device that the path lies on.
    pub dev: u64,
    /// Whether it is a real directory; a link to one is not.
    pub is_dir: bool,
    pub mode: u32,
}

/// What the application is to do next.
#[derive(Debug)]
pub enum DiskAction<P = FsPath, T = String> {
    /// Describe a path, without following a link at its end.
    Stat { path: P },
    /// Whether a path leads to anything.
    Exists { path: P },
    ReadText { path: P },
    /// Create one directory that only its owner can use.
    CreateDir { path: P },
    /// Create a directory and what is missing above it.
    CreateDirAll { path: P },
    /// Write a file that must not exist yet.
    WriteNew { path: P, contents: T },
    Rename { from: P, to: P },
    /// Remove a file, or a link itself.
    RemoveFile { path: P },
    /// Remove an empty directory.
    RemoveDir { path: P },
    ListDir { path: P },
    /// Tell the time.
    Clock,
}

/// The model of a [`DiskAction`].
pub type DiskActionView = DiskAction<Seq<u8>, Seq<char>>;

impl View for DiskAction {
    type V = DiskActionView;

    open spec fn view(&self) -> DiskActionView {
        match self {
            DiskAction::Stat { path } => DiskAction::Stat { path: path@ },
            DiskAction::Exists { path } => DiskAction::Exists { path: path@ },
            DiskAction::ReadText { path } => DiskAction::ReadText { path: path@ },
            DiskAction::CreateDir { path } => DiskAction::CreateDir { path: path@ },
            DiskAction::CreateDirAll { path } => DiskAction::CreateDirAll { path: path@ },
            DiskAction::WriteNew { path, contents } => DiskAction::WriteNew {
                path: path@,
                contents: contents@,
            },
            DiskAction::Rename { from, to } => DiskAction::Rename { from: from@, to: to@ },
            DiskAction::RemoveFile { path } => DiskAction::RemoveFile { path: path@ },
            DiskAction::RemoveDir { path } => DiskAction::RemoveDir { path: path@ },
            DiskAction::ListDir { path } => DiskAction::ListDir { path: path@ },
            DiskAction::Clock => DiskAction::Clock,
        }
    }
}

/// The outcome of a [`DiskAction`].
#[derive(Debug)]
pub enum DiskReply<T = String, V = Vec<FsPath>> {
    /// Nothing has been asked for yet.
    Start,
    Done,
    Failed(DiskFailure<T>),
    Stat(DiskStat),
    Exists(bool),
    Text(T),
    /// Seconds since the epoch.
    Clock(u64),
    /// The paths of the entries of a directory, up to where reading it
    /// failed, if it did.
    Listing { paths: V, cut: Option<DiskFailure<T>> },
}

/// The model of a [`DiskReply`].
pub type DiskReplyView = DiskReply<Seq<char>, Seq<Seq<u8>>>;

impl View for DiskReply {
    type V = DiskReplyView;

    open spec fn view(&self) -> DiskReplyView {
        match self {
            DiskReply::Start => DiskReply::Start,
            DiskReply::Done => DiskReply::Done,
            DiskReply::Failed(f) => DiskReply::Failed(f@),
            DiskReply::Stat(s) => DiskReply::Stat(*s),
            DiskReply::Exists(b) => DiskReply::Exists(*b),
            DiskReply::Text(t) => DiskReply::Text(t@),
            DiskReply::Clock(n) => DiskReply::Clock(*n),
            DiskReply::Listing { paths: list, cut } => DiskReply::Listing {
                paths: paths(list@),
                cut: opt_failure(*cut),
            },
        }
    }
}

/// What a job asks for: an action, or nothing more because it is over.
#[derive(Debug)]
pub enum Next<A, R> {
    Do(A),
    Finish(R),
    /// The reply did not answer what was asked for.
    Halt,
}

/// The wording of a failure at a path.
pub open spec fn path_failure(path: Seq<u8>, failure: DiskFailure<Seq<char>>) -> VfsErrorView {
    io_failure(local_view(path), failure.kind, failure.message)
}

/// Words a failure at a path.
pub fn path_err(path: &FsPath, failure: &DiskFailure) -> (r: VfsError)
    ensures
        r@ == path_failure(path@, failure@),
{
    io_error(&Location::local(path), failure.kind, failure.message.as_str())
}

} // verus!
