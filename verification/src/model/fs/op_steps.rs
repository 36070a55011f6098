//! What a single step of a copy or a move does, stage by stage.
use crate::model::fs::entry::{EntryKind, FileEntry};
use crate::model::fs::ops::{
    Conflict, ConflictChoice, ConflictDecision, OpActionView, OpEventView, OpKind, OpOut, OpReply,
    OpState, Stage, StageView, Task, TaskView, child_tasks, children_of, copy_step, count_step,
    dir_step, item_step, op_step, rename_on, rename_step, top_tasks,
};
use crate::model::vfs::{
    Caps, LocationView, RENAME_IN_PLACE_BIT, VfsError, VfsErrorView, caps_include, child_of,
    location_text, same_location,
};
use crate::path::file_name_of;
use vstd::prelude::*;

verus! {

/// What an operation goes on with: the next item, unless cancellation has
/// been requested; the removal of a directory that has been moved, even then;
/// or its end, which reports every failure.
pub open spec fn goes_on(
    s: OpState,
    todo: Seq<TaskView>,
    cancel: bool,
    t: OpState,
    action: OpActionView,
) -> bool {
    if todo.len() == 0 {
        t.stage is Over && action == (OpActionView::Finish { errors: s.errors })
    } else {
        match todo.last() {
            Task::Item { source, dest } => if cancel {
                t.stage is Over && action is Cancelled
            } else {
                &&& t.stage == (StageView::ItemResolve { source, dest })
                &&& t.todo == todo.drop_last()
                &&& action == (OpActionView::Resolve { location: source })
            },
            Task::RemoveDir { source } => {
                &&& t.stage == (StageView::Removing { source })
                &&& t.todo == todo.drop_last()
                &&& action == (OpActionView::Remove { location: source })
            },
        }
    }
}

/// Whether a step put a failure on record, with the place that it is about,
/// and went on with the next task.
pub open spec fn reports(
    s: OpState,
    cancel: bool,
    t: OpState,
    action: OpActionView,
    at: LocationView,
    error: VfsErrorView,
) -> bool {
    &&& t.errors == s.errors.push((at, error))
    &&& t.files_done == s.files_done
    &&& goes_on(OpState { errors: s.errors.push((at, error)), ..s }, s.todo, cancel, t, action)
}

/// A failure costs one item only: it is put on record with the place that it
/// is about, and the operation goes on with the next.
pub proof fn failures_are_reported_and_passed_over(
    s: OpState,
    source: LocationView,
    dest: LocationView,
    error: VfsErrorView,
    len: u64,
    last: bool,
    cancel: bool,
)
    ensures
        ({
            let before = OpState { stage: Stage::ItemResolve { source, dest }, ..s };
            let (t, out) = op_step(before, OpReply::Backend(None), cancel);
            reports(
                before,
                cancel,
                t,
                out.action,
                source,
                VfsError::Other { message: "no backend for scheme \""@ + source.scheme + "\""@ },
            )
        }),
        ({
            let before = OpState { stage: Stage::ItemStat { source, dest }, ..s };
            let (t, out) = op_step(before, OpReply::Entry(Err(error)), cancel);
            reports(before, cancel, t, out.action, source, error)
        }),
        ({
            let before = OpState { stage: Stage::DirMake { source, dest }, ..s };
            let (t, out) = op_step(before, OpReply::Done(Err(error)), cancel);
            reports(before, cancel, t, out.action, dest, error)
        }),
        ({
            let before = OpState { stage: Stage::DirList { source, dest }, ..s };
            let (t, out) = op_step(before, OpReply::Listing(Err(error)), cancel);
            reports(before, cancel, t, out.action, source, error)
        }),
        ({
            let before = OpState { stage: Stage::OpenRead { source, dest }, ..s };
            let (t, out) = op_step(before, OpReply::Done(Err(error)), cancel);
            reports(before, cancel, t, out.action, source, error)
        }),
        ({
            let before = OpState { stage: Stage::OpenWrite { source, dest }, ..s };
            let (t, out) = op_step(before, OpReply::Done(Err(error)), cancel);
            reports(before, cancel, t, out.action, source, error)
        }),
        ({
            let before = OpState { stage: Stage::Writing { source, dest, len, last }, ..s };
            let (t, out) = op_step(before, OpReply::Done(Err(error)), cancel);
            reports(
                before,
                cancel,
                t,
                out.action,
                source,
                VfsError::Other { message: "writing "@ + location_text(dest) + " failed"@ },
            )
        }),
        ({
            let before = OpState { stage: Stage::Closing { source, dest }, ..s };
            let (t, out) = op_step(before, OpReply::Done(Err(error)), cancel);
            reports(
                before,
                cancel,
                t,
                out.action,
                source,
                VfsError::Other { message: "writing "@ + location_text(dest) + " failed"@ },
            )
        }),
        ({
            let before = OpState { stage: Stage::Removing { source }, ..s };
            let (t, out) = op_step(before, OpReply::Done(Err(error)), cancel);
            reports(before, cancel, t, out.action, source, error)
        }),
{
    reveal(item_step);
    reveal(dir_step);
    reveal(copy_step);
}

/// A file whose source cannot be read to the end is discarded: it is closed
/// and removed, and the failure is reported then.
pub proof fn unreadable_files_are_discarded(
    s: OpState,
    source: LocationView,
    dest: LocationView,
    buffer: Seq<u8>,
    error: VfsErrorView,
    closed: Result<(), VfsErrorView>,
    removed: Result<(), VfsErrorView>,
    cancel: bool,
)
    ensures
        ({
            let before = OpState { stage: Stage::Reading { source, dest, buffer }, ..s };
            let (t, out) = op_step(before, OpReply::Chunk(Some(Err(error))), cancel);
            let (u, next) = op_step(t, OpReply::Done(closed), cancel);
            let (v, end) = op_step(u, OpReply::Done(removed), cancel);
            &&& out.action == OpActionView::Close
            &&& next.action == (OpActionView::Remove { location: dest })
            &&& reports(u, cancel, v, end.action, source, error)
            &&& u.todo == s.todo && u.errors == s.errors
        }),
{
    reveal(copy_step);
}

/// A file that is in the way is a conflict, and so is anything but a
/// directory where a directory is to go. It is settled by the choice that is
/// remembered, or by asking about the two places.
pub proof fn conflicts_are_asked_about(
    s: OpState,
    source: LocationView,
    dest: LocationView,
    bytes: u64,
    found: FileEntry<Seq<u8>>,
    error: VfsErrorView,
    cancel: bool,
)
    ensures
        ({
            let before = OpState { stage: Stage::FileStat { source, dest, bytes }, ..s };
            let (t, out) = op_step(before, OpReply::Entry(Ok(found)), cancel);
            &&& s.remembered is None ==> {
                &&& out.action == (OpActionView::Ask { conflict: Conflict { source, dest } })
                &&& t.stage == (StageView::Asking { source, dest, size: Some(bytes) })
            }
            &&& s.remembered == Some(ConflictChoice::Overwrite) ==> {
                &&& out.action == (OpActionView::OpenRead { location: source })
                &&& t.stage == (StageView::OpenRead { source, dest })
            }
            &&& op_step(before, OpReply::Entry(Err(error)), cancel).1.action == (
            OpActionView::OpenRead { location: source })
            &&& op_step(before, OpReply::Entry(Err(error)), cancel).0.stage == (
            StageView::OpenRead { source, dest })
        }),
        ({
            let before = OpState { stage: Stage::DirStat { source, dest }, ..s };
            let (t, out) = op_step(before, OpReply::Entry(Ok(found)), cancel);
            &&& found.kind != EntryKind::Directory && s.remembered is None ==> {
                &&& out.action == (OpActionView::Ask { conflict: Conflict { source, dest } })
                &&& t.stage == (StageView::Asking { source, dest, size: None })
            }
            &&& found.kind == EntryKind::Directory || s.remembered == Some(
                ConflictChoice::Overwrite,
            ) ==> {
                &&& out.action == (OpActionView::Stat { location: dest })
                &&& t.stage == (StageView::DirEnsure { source, dest })
            }
            &&& op_step(before, OpReply::Entry(Err(error)), cancel).0.stage == (
            StageView::DirEnsure { source, dest })
        }),
{
    reveal(item_step);
}

/// What a decision leads to: overwriting fills the very place, skipping goes
/// on with the next task, and no decision at all ends the operation. Only a
/// decision for all conflicts is remembered.
pub proof fn decisions_are_carried_out(
    s: OpState,
    source: LocationView,
    dest: LocationView,
    size: Option<u64>,
    decision: ConflictDecision,
    cancel: bool,
)
    requires
        s.stage == (StageView::Asking { source, dest, size }),
    ensures
        ({
            let (t, out) = op_step(s, OpReply::Decision(Some(decision)), cancel);
            &&& t.remembered == (if decision.apply_to_all {
                Some(decision.choice)
            } else {
                s.remembered
            })
            &&& decision.choice == ConflictChoice::Overwrite ==> if size is Some {
                &&& out.action == (OpActionView::OpenRead { location: source })
                &&& t.stage == (StageView::OpenRead { source, dest })
            } else {
                &&& out.action == (OpActionView::Stat { location: dest })
                &&& t.stage == (StageView::DirEnsure { source, dest })
            }
            &&& decision.choice == ConflictChoice::Skip ==> {
                &&& goes_on(s, s.todo, cancel, t, out.action)
                &&& t.errors == s.errors
                &&& size is None ==> t.files_done == s.files_done && t.bytes_done == s.bytes_done
                &&& size matches Some(bytes) ==> s.files_done < usize::MAX ==> s.bytes_done + bytes
                    <= u64::MAX ==> {
                    &&& t.files_done == s.files_done + 1
                    &&& t.bytes_done == s.bytes_done + bytes
                    &&& out.note == Some(
                        OpEventView::Progress { files_done: t.files_done, bytes_done: t.bytes_done },
                    )
                }
            }
            &&& op_step(s, OpReply::Decision(None), cancel).1.action == OpActionView::Cancelled
            &&& op_step(s, OpReply::Decision(None), cancel).0.stage is Over
        }),
{
    reveal(item_step);
}

/// What an item is decides how it is copied: a directory by looking at the
/// directory to fill, anything else by announcing its name and looking at
/// the file to write.
pub proof fn items_are_copied_by_what_they_are(
    s: OpState,
    source: LocationView,
    dest: LocationView,
    caps: Caps,
    found: FileEntry<Seq<u8>>,
    cancel: bool,
)
    ensures
        ({
            let before = OpState { stage: Stage::ItemResolve { source, dest }, ..s };
            let (t, out) = op_step(before, OpReply::Backend(Some(caps)), cancel);
            &&& t.stage == (StageView::ItemStat { source, dest })
            &&& out.action == (OpActionView::Stat { location: source })
        }),
        ({
            let before = OpState { stage: Stage::ItemStat { source, dest }, ..s };
            let (t, out) = op_step(before, OpReply::Entry(Ok(found)), cancel);
            &&& out.action == (OpActionView::Stat { location: dest })
            &&& found.kind == EntryKind::Directory ==> t.stage == (StageView::DirStat {
                source,
                dest,
            }) && out.note is None
            &&& found.kind != EntryKind::Directory ==> {
                &&& t.stage == (StageView::FileStat { source, dest, bytes: found.size })
                &&& file_name_of(source.path) matches Some(name) ==> out.note == Some(
                    OpEventView::FileStarted { name },
                )
            }
        }),
{
    reveal(item_step);
}

/// A directory that is missing is made; then the source is listed, and its
/// children are taken up in the order of the listing, each to go to the same
/// name below the destination. The directory itself is removed behind them
/// if it is moved, and only then.
pub proof fn directories_are_filled(
    s: OpState,
    source: LocationView,
    dest: LocationView,
    list: Seq<FileEntry<Seq<u8>>>,
    found: FileEntry<Seq<u8>>,
    error: VfsErrorView,
    i: int,
    cancel: bool,
)
    ensures
        ({
            let before = OpState { stage: Stage::DirEnsure { source, dest }, ..s };
            let there = op_step(before, OpReply::Entry(Ok(found)), cancel);
            let missing = op_step(before, OpReply::Entry(Err(error)), cancel);
            let made = op_step(missing.0, OpReply::Done(Ok(())), cancel);
            &&& there.1.action == (OpActionView::List { location: source })
            &&& there.0.stage == (StageView::DirList { source, dest })
            &&& missing.1.action == (OpActionView::Mkdir { location: dest })
            &&& made.1.action == (OpActionView::List { location: source })
            &&& made.0.stage == (StageView::DirList { source, dest })
        }),
        ({
            let before = OpState { stage: Stage::DirList { source, dest }, ..s };
            let (t, out) = op_step(before, OpReply::Listing(Ok(list)), cancel);
            let below = if s.kind == OpKind::Move {
                s.todo.push(Task::RemoveDir { source })
            } else {
                s.todo
            };
            exists|todo: Seq<TaskView>|
                {
                    &&& #[trigger] goes_on(s, todo, cancel, t, out.action)
                    &&& todo.len() == below.len() + list.len()
                    &&& todo.take(below.len() as int) == below
                    &&& 0 <= i < list.len() ==> todo[todo.len() - 1 - i] == (Task::Item {
                        source: child_of(source, list[i].name),
                        dest: child_of(dest, list[i].name),
                    })
                }
        }),
{
    reveal(dir_step);
    let below = if s.kind == OpKind::Move {
        s.todo.push(Task::RemoveDir { source })
    } else {
        s.todo
    };
    let todo = below + child_tasks(source, dest, list);
    let before = OpState { stage: Stage::DirList { source, dest }, ..s };
    let (t, out) = op_step(before, OpReply::Listing(Ok(list)), cancel);
    assert(todo.take(below.len() as int) =~= below);
    assert(goes_on(s, todo, cancel, t, out.action));
}

/// A file is read, then written, and nothing else happens in between; when
/// it is closed it counts as done. A moved file's source is removed then.
pub proof fn files_are_done_when_closed(
    s: OpState,
    source: LocationView,
    dest: LocationView,
    len: u64,
    cancel: bool,
)
    requires
        s.files_done < usize::MAX,
        s.bytes_done + len <= u64::MAX,
    ensures
        ({
            let before = OpState { stage: Stage::OpenRead { source, dest }, ..s };
            let (t, out) = op_step(before, OpReply::Done(Ok(())), cancel);
            &&& out.action == (OpActionView::OpenWrite { location: dest })
            &&& t.stage == (StageView::OpenWrite { source, dest })
        }),
        ({
            let before = OpState { stage: Stage::OpenWrite { source, dest }, ..s };
            let (t, out) = op_step(before, OpReply::Done(Ok(())), false);
            out.action == OpActionView::Read
        }),
        ({
            let before = OpState { stage: Stage::Writing { source, dest, len, last: true }, ..s };
            let (t, out) = op_step(before, OpReply::Done(Ok(())), cancel);
            &&& out.action == OpActionView::Close
            &&& t.stage == (StageView::Closing { source, dest })
            &&& t.bytes_done == s.bytes_done + len
            &&& t.files_done == s.files_done
        }),
        ({
            let before = OpState { stage: Stage::Writing { source, dest, len, last: false }, ..s };
            let (t, out) = op_step(before, OpReply::Done(Ok(())), false);
            &&& out.action == OpActionView::Read
            &&& t.bytes_done == s.bytes_done + len
            &&& out.note == Some(
                OpEventView::Progress { files_done: s.files_done, bytes_done: t.bytes_done },
            )
        }),
        ({
            let before = OpState { stage: Stage::Closing { source, dest }, ..s };
            let (t, out) = op_step(before, OpReply::Done(Ok(())), cancel);
            &&& t.files_done == s.files_done + 1
            &&& t.bytes_done == s.bytes_done
            &&& t.errors == s.errors
            &&& out.note == Some(
                OpEventView::Progress {
                    files_done: (s.files_done + 1) as usize,
                    bytes_done: s.bytes_done,
                },
            )
            &&& s.kind == OpKind::Move ==> out.action == (OpActionView::Remove {
                location: source,
            }) && t.stage == (StageView::Removing { source })
            &&& s.kind == OpKind::Copy ==> goes_on(s, s.todo, cancel, t, out.action)
        }),
        ({
            let before = OpState { stage: Stage::Removing { source }, ..s };
            let (t, out) = op_step(before, OpReply::Done(Ok(())), cancel);
            &&& t.errors == s.errors
            &&& goes_on(s, s.todo, cancel, t, out.action)
        }),
{
    reveal(copy_step);
    reveal(dir_step);
}

/// Bytes are handed on in pieces of a mebibyte.
pub proof fn chunks_are_a_mebibyte(
    s: OpState,
    source: LocationView,
    dest: LocationView,
    buffer: Seq<u8>,
    bytes: Seq<u8>,
)
    requires
        s.stage == (StageView::Reading { source, dest, buffer }),
    ensures
        ({
            let (t, out) = op_step(s, OpReply::Chunk(Some(Ok(bytes))), false);
            &&& buffer.len() + bytes.len() >= 1_048_576 ==> out.action == (OpActionView::Write {
                bytes: buffer + bytes,
            })
            &&& buffer.len() + bytes.len() < 1_048_576 ==> out.action == OpActionView::Read
                && t.stage == (StageView::Reading { source, dest, buffer: buffer + bytes })
        }),
{
    reveal(copy_step);
}

/// Every file below the sources is counted once, with its size; directories
/// are listed and their children counted in turn. What cannot be read does
/// not count.
pub proof fn files_are_counted(
    s: OpState,
    location: LocationView,
    caps: Caps,
    found: FileEntry<Seq<u8>>,
    list: Seq<FileEntry<Seq<u8>>>,
    error: VfsErrorView,
    cancel: bool,
)
    requires
        s.files_total < usize::MAX,
        s.bytes_total + found.size <= u64::MAX,
    ensures
        ({
            let before = OpState { stage: Stage::CountResolve { location }, ..s };
            let (t, out) = op_step(before, OpReply::Backend(Some(caps)), cancel);
            &&& out.action == (OpActionView::Stat { location })
            &&& t.stage == (StageView::CountStat { location })
            &&& counts_on(s, s.counting, op_step(before, OpReply::Backend(None), cancel))
        }),
        ({
            let before = OpState { stage: Stage::CountStat { location }, ..s };
            let (t, out) = op_step(before, OpReply::Entry(Ok(found)), cancel);
            &&& found.kind == EntryKind::Directory ==> {
                &&& out.action == (OpActionView::List { location })
                &&& t.stage == (StageView::CountList { location })
                &&& t.files_total == s.files_total && t.bytes_total == s.bytes_total
            }
            &&& found.kind != EntryKind::Directory ==> counts_on(
                OpState {
                    files_total: (s.files_total + 1) as usize,
                    bytes_total: (s.bytes_total + found.size) as u64,
                    ..s
                },
                s.counting,
                (t, out),
            )
            &&& counts_on(s, s.counting, op_step(before, OpReply::Entry(Err(error)), cancel))
        }),
        ({
            let before = OpState { stage: Stage::CountList { location }, ..s };
            let below = Seq::new(
                list.len(),
                |i: int| child_of(location, list[list.len() - 1 - i].name),
            );
            &&& counts_on(
                s,
                s.counting + below,
                op_step(before, OpReply::Listing(Ok(list)), cancel),
            )
            &&& counts_on(s, s.counting, op_step(before, OpReply::Listing(Err(error)), cancel))
        }),
{
    reveal(count_step);
    let below = Seq::new(list.len(), |i: int| child_of(location, list[list.len() - 1 - i].name));
    assert(children_of(location, list) =~= below);
}

/// What counting goes on with: the last of what is left, or the totals.
pub open spec fn counts_on(
    s: OpState,
    counting: Seq<LocationView>,
    step: (OpState, OpOut),
) -> bool {
    let (t, out) = step;
    &&& t.files_total == s.files_total
    &&& t.bytes_total == s.bytes_total
    &&& if counting.len() == 0 {
        &&& t.stage is Announced
        &&& out.action == (OpActionView::Announce {
            files_total: s.files_total,
            bytes_total: s.bytes_total,
        })
    } else {
        &&& t.stage == (StageView::CountResolve { location: counting.last() })
        &&& t.counting == counting.drop_last()
        &&& out.action == (OpActionView::Resolve { location: counting.last() })
    }
}

/// A copy is about all of its sources; without any there is nothing to do. A
/// destination that no backend serves fails at once. Counting begins with the
/// first source.
pub proof fn copies_begin_with_the_destination(s: OpState, caps: Caps, cancel: bool)
    ensures
        ({
            let before = OpState { stage: Stage::Ready, kind: OpKind::Copy, ..s };
            let (t, out) = op_step(before, OpReply::Start, cancel);
            &&& t.remaining == s.sources
            &&& s.sources.len() == 0 ==> out.action == (OpActionView::Finish { errors: s.errors })
            &&& s.sources.len() > 0 ==> out.action == (OpActionView::Resolve {
                location: s.dest_dir,
            }) && t.stage is DestResolve
        }),
        ({
            let before = OpState { stage: Stage::DestResolve, ..s };
            let (t, out) = op_step(before, OpReply::Backend(None), cancel);
            &&& out.action == (OpActionView::Finish {
                errors: seq![
                    (
                        s.dest_dir,
                        VfsError::Other {
                            message: "no backend for scheme \""@ + s.dest_dir.scheme + "\""@,
                        },
                    ),
                ],
            })
            &&& s.remaining.len() > 0 ==> op_step(
                before,
                OpReply::Backend(Some(caps)),
                cancel,
            ).1.action == (OpActionView::Resolve { location: s.remaining[0] })
        }),
{
    reveal(rename_step);
}

/// Sources that can be renamed in place are: the place to go is looked at
/// first, and the source goes to its own name in the destination.
pub proof fn moves_rename_where_they_can(
    s: OpState,
    source: LocationView,
    name: Seq<u8>,
    caps: Caps,
    error: VfsErrorView,
    cancel: bool,
)
    requires
        file_name_of(source.path) == Some(name),
        !same_location(source, child_of(s.dest_dir, name)),
    ensures
        ({
            let before = OpState { stage: Stage::FastResolve { source }, ..s };
            let (t, out) = op_step(before, OpReply::Backend(Some(caps)), cancel);
            caps_include(caps, Caps { bits: RENAME_IN_PLACE_BIT }) ==> {
                &&& out.action == (OpActionView::Stat { location: child_of(s.dest_dir, name) })
                &&& t.stage == (StageView::FastStat { source })
            }
        }),
        ({
            let before = OpState { stage: Stage::FastStat { source }, ..s };
            let (t, out) = op_step(before, OpReply::Entry(Err(error)), cancel);
            &&& out.action == (OpActionView::Rename {
                from: source,
                to: child_of(s.dest_dir, name),
            })
            &&& t.remaining == s.remaining
        }),
{
    reveal(rename_step);
}

/// The sources of a move are tried in order: one on the backend of the
/// destination asks for that backend, any other is left to be copied. A
/// source that was renamed is done with; the others are copied in order.
pub proof fn moves_try_every_source(s: OpState, source: LocationView, cancel: bool)
    requires
        s.queue.len() == 0,
    ensures
        ({
            let before = OpState { stage: Stage::FastRename { source }, ..s };
            let (t, out) = op_step(before, OpReply::Done(Ok(())), cancel);
            &&& t.remaining == s.remaining
            &&& s.remaining.len() == 0 ==> out.action == (OpActionView::Finish {
                errors: s.errors,
            })
            &&& s.remaining.len() > 0 ==> out.action == (OpActionView::Resolve {
                location: s.dest_dir,
            }) && t.stage is DestResolve
        }),
        ({
            let queued = OpState {
                stage: Stage::FastRename { source },
                queue: seq![source],
                ..s
            };
            let (t, out) = op_step(queued, OpReply::Done(Ok(())), cancel);
            if source.scheme == s.dest_dir.scheme && source.authority == s.dest_dir.authority {
                &&& out.action == (OpActionView::Resolve { location: s.dest_dir })
                &&& t.stage == (StageView::FastResolve { source })
                &&& t.remaining == s.remaining
            } else {
                t.remaining == s.remaining.push(source)
            }
        }),
{
    reveal(rename_step);
    reveal_with_fuel(rename_on, 2);
    assert(seq![source].drop_last() =~= Seq::<LocationView>::empty());
    assert(s.queue =~= Seq::<LocationView>::empty());
}

proof fn every_top_is_a_task(sources: Seq<LocationView>, dest_dir: LocationView, i: int)
    requires
        forall|j: int|
            0 <= j < sources.len() ==> file_name_of((#[trigger] sources[j]).path) is Some,
        0 <= i < sources.len(),
    ensures
        top_tasks(sources, dest_dir).len() == sources.len(),
        top_tasks(sources, dest_dir)[sources.len() - 1 - i] == (Task::Item {
            source: sources[i],
            dest: child_of(dest_dir, file_name_of(sources[i].path)->0),
        }),
    decreases sources.len(),
{
    let rest = sources.skip(1);
    assert(file_name_of(sources[0].path) is Some);
    assert forall|j: int| 0 <= j < rest.len() implies file_name_of(
        (#[trigger] rest[j]).path,
    ) is Some by {
        assert(rest[j] == sources[j + 1]);
    }
    if rest.len() > 0 {
        every_top_is_a_task(rest, dest_dir, if i > 0 {
            i - 1
        } else {
            0
        });
        if i > 0 {
            assert(rest[i - 1] == sources[i]);
        }
    } else {
        assert(top_tasks(rest, dest_dir).len() == 0);
    }
}

/// Once the totals have been delivered the sources are taken up in order,
/// each to go to its own name in the destination.
pub proof fn every_source_is_taken_up(s: OpState, i: int, cancel: bool)
    requires
        s.stage is Announced,
        forall|j: int|
            0 <= j < s.remaining.len() ==> file_name_of((#[trigger] s.remaining[j]).path) is Some,
        0 <= i < s.remaining.len(),
    ensures
        ({
            let (t, out) = op_step(s, OpReply::Delivered(true), cancel);
            exists|todo: Seq<TaskView>|
                {
                    &&& #[trigger] goes_on(s, todo, cancel, t, out.action)
                    &&& todo.len() == s.remaining.len()
                    &&& todo[todo.len() - 1 - i] == (Task::Item {
                        source: s.remaining[i],
                        dest: child_of(s.dest_dir, file_name_of(s.remaining[i].path)->0),
                    })
                }
        }),
{
    every_top_is_a_task(s.remaining, s.dest_dir, i);
    let todo = top_tasks(s.remaining, s.dest_dir);
    let (t, out) = op_step(s, OpReply::Delivered(true), cancel);
    assert(goes_on(s, todo, cancel, t, out.action));
}

} // verus!
