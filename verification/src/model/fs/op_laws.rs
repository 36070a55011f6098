//! What holds of every copy and every move, whatever the backends answer.
use crate::model::fs::entry::{EntryKind, FileEntry};
use crate::model::fs::ops::{
    COPY_CHUNK_BYTES, Cause, ConflictChoice, ConflictDecision, OpAction, OpActionView, OpEvent,
    OpKind, OpOut, OpReply, OpReplyView, OpState, Stage, StageView, Task, TaskView, advance,
    at_stage, child_tasks, copy_candidate, copy_step, count_step, dir_step, file_done,
    initial_state, item_step, no_backend, on_same_backend, only, op_step, rename_on, rename_step,
    settle, shown_name, stem_and_extension, top_tasks, with_failure, write_failed,
};
use crate::model::vfs::{LocationView, VfsErrorView, child_of, parent_location, same_location};
use crate::path::file_name_of;
use crate::text::{decimal, rfind_props, shown};
use vstd::prelude::*;
use vstd::utf8::*;

verus! {

/// What the application hands to a step: the outcome of the last action, and
/// whether cancellation has been requested.
pub type OpInput = (OpReplyView, bool);

/// The state of an operation after a run of inputs.
pub open spec fn state_after(s: OpState, inputs: Seq<OpInput>) -> OpState
    decreases inputs.len(),
{
    if inputs.len() == 0 {
        s
    } else {
        let (reply, cancel) = inputs.last();
        op_step(state_after(s, inputs.drop_last()), reply, cancel).0
    }
}

/// What every state of an operation satisfies: a copy has nothing to remove
/// or rename, and nobody is asked once a choice is remembered.
pub open spec fn op_invariant(s: OpState) -> bool {
    &&& s.kind == OpKind::Copy ==> {
        &&& forall|i: int| 0 <= i < s.todo.len() ==> (#[trigger] s.todo[i]) is Item
        &&& s.queue.len() == 0
        &&& !(s.stage is FastResolve)
        &&& !(s.stage is FastStat)
        &&& !(s.stage is FastRename)
        &&& !(s.stage is Removing)
    }
    &&& s.stage is Asking ==> s.remembered is None
}

proof fn top_tasks_are_items(sources: Seq<LocationView>, dest_dir: LocationView)
    ensures
        forall|i: int|
            0 <= i < top_tasks(sources, dest_dir).len() ==> (#[trigger] top_tasks(
                sources,
                dest_dir,
            )[i]) is Item,
    decreases sources.len(),
{
    if sources.len() > 0 {
        top_tasks_are_items(sources.skip(1), dest_dir);
    }
}

proof fn rename_on_facts(s: OpState)
    requires
        s.kind == OpKind::Move || s.queue.len() == 0,
    ensures
        ({
            let (t, action) = rename_on(s);
            &&& t.kind == s.kind
            &&& t.dest_dir == s.dest_dir
            &&& t.todo == s.todo
            &&& t.remembered == s.remembered
            &&& t.errors == s.errors
            &&& t.files_done == s.files_done
            &&& t.bytes_done == s.bytes_done
            &&& t.stage is Over || t.stage is DestResolve || (t.stage is FastResolve && s.kind
                == OpKind::Move)
            &&& action is Finish || action is Resolve
            &&& action is Finish ==> t.stage is Over && action->errors == t.errors
            &&& s.queue.len() == 0 ==> t.queue == s.queue
            &&& forall|l: LocationView|
                s.remaining.contains(l) ==> #[trigger] t.remaining.contains(l)
        }),
    decreases s.queue.len(),
{
    if s.queue.len() > 0 {
        let source = s.queue.last();
        let rest = OpState { queue: s.queue.drop_last(), ..s };
        if !on_same_backend(source, s.dest_dir) {
            let pushed = s.remaining.push(source);
            rename_on_facts(OpState { remaining: pushed, ..rest });
            assert forall|l: LocationView| s.remaining.contains(l) implies #[trigger] rename_on(
                s,
            ).0.remaining.contains(l) by {
                let k = choose|k: int| 0 <= k < s.remaining.len() && s.remaining[k] == l;
                assert(pushed[k] == l);
                assert(pushed.contains(l));
            }
        }
    }
}

/// What one step does, from `s` to `t`.
pub open spec fn step_facts(
    s: OpState,
    reply: OpReplyView,
    cancel: bool,
    t: OpState,
    out: OpOut,
) -> bool {
    &&& t.kind == s.kind
    &&& op_invariant(t)
    &&& t.files_done >= s.files_done
    &&& t.bytes_done >= s.bytes_done
    &&& out.note matches Some(OpEvent::Progress { files_done, bytes_done }) ==> files_done
        == t.files_done && bytes_done == t.bytes_done
    &&& out.action is Finish || out.action is Cancelled || out.action is Halt ==> t.stage is Over
    &&& out.action matches OpAction::Finish { errors } ==> errors == t.errors
    &&& out.action matches OpAction::Write { bytes } ==> {
        &&& bytes.len() > 0
        &&& t.stage matches Stage::Writing { last, .. } && (!last ==> bytes.len()
            >= COPY_CHUNK_BYTES)
    }
    &&& cancel ==> !(out.action is Read) && !(t.stage is ItemResolve)
    &&& t.dest_dir == s.dest_dir
    &&& t.stage matches Stage::FastStat { source } ==> (file_name_of(
        source.path,
    ) matches Some(name) && out.action == (OpActionView::Stat {
        location: if same_location(source, child_of(s.dest_dir, name)) {
            source
        } else {
            child_of(s.dest_dir, name)
        },
    }))
    &&& t.stage is OpenRead ==> s.stage is FileStat || s.stage is Asking || s.stage is Probing
    &&& out.action matches OpAction::Rename { from, to } ==> {
        &&& s.stage == (StageView::FastStat { source: from })
        &&& reply matches OpReply::Entry(r) && r is Err
        &&& file_name_of(from.path) matches Some(name) && to == child_of(s.dest_dir, name)
        &&& !same_location(from, to)
    }
    &&& out.action is Ask ==> s.remembered is None
    &&& s.remembered is Some ==> t.remembered == s.remembered
    &&& out.action matches OpAction::Remove { location } ==> removal_is_due(s, reply, location)
}

/// Whether `location` is due for removal: a partly written file, a moved file
/// whose copy has just been closed without a failure, or a moved directory
/// whose children have all been taken up.
pub open spec fn removal_is_due(s: OpState, reply: OpReplyView, location: LocationView) -> bool {
    ||| s.stage matches Stage::AbortClose { dest, .. } && dest == location
    ||| s.kind == OpKind::Move && {
        ||| s.stage matches Stage::Closing { source, .. } && source == location && (
        reply matches OpReply::Done(r) && r is Ok)
        ||| s.todo.len() > 0 && s.todo.last() == (TaskView::RemoveDir { source: location })
        ||| s.stage matches Stage::DirList { source, .. } && source == location && reply
            == OpReplyView::Listing(Ok(Seq::empty()))
    }
}

proof fn advance_facts(s: OpState, cancel: bool)
    requires
        s.kind == OpKind::Copy ==> s.queue.len() == 0 && (forall|i: int|
            0 <= i < s.todo.len() ==> (#[trigger] s.todo[i]) is Item),
    ensures
        ({
            let (t, action) = advance(s, cancel);
            &&& t == (OpState { todo: t.todo, stage: t.stage, ..s })
            &&& t.stage is Over || t.stage is ItemResolve || t.stage is Removing
            &&& s.kind == OpKind::Copy ==> !(t.stage is Removing) && (forall|i: int|
                0 <= i < t.todo.len() ==> (#[trigger] t.todo[i]) is Item)
            &&& action is Finish || action is Cancelled ==> t.stage is Over
            &&& action matches OpAction::Finish { errors } ==> errors == s.errors
            &&& action is Finish || action is Cancelled || action is Resolve || action is Remove
            &&& cancel ==> !(t.stage is ItemResolve)
            &&& action matches OpAction::Remove { location } ==> s.todo.len() > 0 && s.todo.last()
                == (TaskView::RemoveDir { source: location }) && s.kind == OpKind::Move
        }),
{
    if s.todo.len() > 0 {
        let last = s.todo[s.todo.len() - 1];
        assert(s.kind == OpKind::Copy ==> last is Item);
        let rest = s.todo.drop_last();
        assert forall|i: int| 0 <= i < rest.len() && s.kind == OpKind::Copy implies (
        #[trigger] rest[i]) is Item by {
            assert(rest[i] == s.todo[i]);
        }
    }
}

proof fn settle_facts(
    s: OpState,
    reply: OpReplyView,
    source: LocationView,
    dest: LocationView,
    size: Option<u64>,
    choice: ConflictChoice,
    cancel: bool,
)
    requires
        op_invariant(at_stage(s, Stage::Over)),
        !(s.stage is Removing || s.stage is FastResolve || s.stage is FastStat || s.stage is FastRename),
        size is Some ==> s.stage is FileStat || s.stage is Asking,
    ensures
        ({
            let (t, out) = settle(s, source, dest, size, choice, cancel);
            &&& step_facts(s, reply, cancel, t, out)
            &&& t.remembered == s.remembered
            &&& !(out.action is Ask)
        }),
{
    advance_facts(s, cancel);
    if let Some(bytes) = size {
        advance_facts(file_done(s, bytes), cancel);
    }
}

proof fn item_facts(s: OpState, reply: OpReplyView, cancel: bool)
    requires
        op_invariant(s),
        !(s.stage is FastStat),
    ensures
        ({
            let (t, out) = item_step(s, reply, cancel);
            step_facts(s, reply, cancel, t, out)
        }),
{
    reveal(item_step);
    match (s.stage, reply) {
        (Stage::ItemResolve { source, dest }, OpReply::Backend(caps)) => {
            advance_facts(with_failure(s, source, no_backend(source.scheme)), cancel);
        },
        (Stage::ItemStat { source, dest }, OpReply::Entry(r)) => {
            if let Err(error) = r {
                advance_facts(with_failure(s, source, error), cancel);
            }
        },
        (Stage::DirStat { source, dest }, OpReply::Entry(r)) => {
            if let Some(choice) = s.remembered {
                settle_facts(s, reply, source, dest, None, choice, cancel);
            }
        },
        (Stage::FileStat { source, dest, bytes }, OpReply::Entry(r)) => {
            if let Some(choice) = s.remembered {
                settle_facts(s, reply, source, dest, Some(bytes), choice, cancel);
            }
        },
        (Stage::Asking { source, dest, size }, OpReply::Decision(d)) => {
            if let Some(decision) = d {
                let t = if decision.apply_to_all {
                    OpState { remembered: Some(decision.choice), ..s }
                } else {
                    s
                };
                settle_facts(t, reply, source, dest, size, decision.choice, cancel);
            }
        },
        _ => {},
    }
}

proof fn dir_facts(s: OpState, reply: OpReplyView, cancel: bool)
    requires
        op_invariant(s),
        !(s.stage is FastStat),
    ensures
        ({
            let (t, action) = dir_step(s, reply, cancel);
            step_facts(s, reply, cancel, t, only(action))
        }),
{
    reveal(dir_step);
    match (s.stage, reply) {
        (Stage::DirMake { source, dest }, OpReply::Done(r)) => {
            if let Err(error) = r {
                advance_facts(with_failure(s, dest, error), cancel);
            }
        },
        (Stage::DirList { source, dest }, OpReply::Listing(r)) => match r {
            Ok(list) => {
                let after = if s.kind == OpKind::Move {
                    s.todo.push(Task::RemoveDir { source })
                } else {
                    s.todo
                };
                let children = child_tasks(source, dest, list);
                let todo = after + children;
                assert forall|i: int| 0 <= i < todo.len() && s.kind == OpKind::Copy implies (
                #[trigger] todo[i]) is Item by {
                    if i < after.len() {
                        assert(todo[i] == s.todo[i]);
                    } else {
                        assert(todo[i] == children[i - after.len()]);
                    }
                }
                if list.len() > 0 {
                    assert(todo.last() == children.last());
                } else {
                    assert(list =~= Seq::empty());
                    assert(todo =~= after);
                }
                advance_facts(OpState { todo, ..s }, cancel);
            },
            Err(error) => {
                advance_facts(with_failure(s, source, error), cancel);
            },
        },
        (Stage::Removing { source }, OpReply::Done(r)) => {
            advance_facts(s, cancel);
            if let Err(error) = r {
                advance_facts(with_failure(s, source, error), cancel);
            }
        },
        _ => {},
    }
}

proof fn copy_facts(s: OpState, reply: OpReplyView, cancel: bool)
    requires
        op_invariant(s),
        !(s.stage is FastStat),
    ensures
        ({
            let (t, out) = copy_step(s, reply, cancel);
            step_facts(s, reply, cancel, t, out)
        }),
{
    reveal(copy_step);
    match (s.stage, reply) {
        (Stage::OpenRead { source, dest }, OpReply::Done(r)) => {
            if let Err(error) = r {
                advance_facts(with_failure(s, source, error), cancel);
            }
        },
        (Stage::OpenWrite { source, dest }, OpReply::Done(r)) => {
            if let Err(error) = r {
                advance_facts(with_failure(s, source, error), cancel);
            }
        },
        (Stage::Writing { source, dest, len, last }, OpReply::Done(r)) => {
            advance_facts(with_failure(s, source, write_failed(dest)), cancel);
        },
        (Stage::Closing { source, dest }, OpReply::Done(r)) => {
            advance_facts(with_failure(s, source, write_failed(dest)), cancel);
            advance_facts(file_done(s, 0), cancel);
        },
        (Stage::AbortRemove { cause }, OpReply::Done(_)) => {
            if let Cause::Failed { source, error } = cause {
                advance_facts(with_failure(s, source, error), cancel);
            }
        },
        _ => {},
    }
}

proof fn start_facts(s: OpState, reply: OpReplyView, cancel: bool)
    requires
        op_invariant(s),
        s.stage is Ready || s.stage is FastResolve || s.stage is FastStat || s.stage is FastRename
            || s.stage is DestResolve || s.stage is CountResolve || s.stage is CountStat || s.stage is CountList
            || s.stage is Announced,
    ensures
        ({
            let (t, out) = op_step(s, reply, cancel);
            step_facts(s, reply, cancel, t, out)
        }),
{
    reveal(rename_step);
    reveal(count_step);
    match s.stage {
        Stage::Ready => {
            if s.kind == OpKind::Move {
                rename_on_facts(
                    OpState { queue: s.sources.reverse(), remaining: Seq::empty(), ..s },
                );
            }
        },
        Stage::FastResolve { source } => {
            rename_on_facts(s);
            rename_on_facts(OpState { remaining: s.remaining.push(source), ..s });
        },
        Stage::FastStat { source } => {
            rename_on_facts(s);
            rename_on_facts(OpState { remaining: s.remaining.push(source), ..s });
        },
        Stage::FastRename { source } => {
            rename_on_facts(s);
            rename_on_facts(OpState { remaining: s.remaining.push(source), ..s });
        },
        Stage::Announced => {
            top_tasks_are_items(s.remaining, s.dest_dir);
            let todo = top_tasks(s.remaining, s.dest_dir);
            advance_facts(OpState { todo, ..s }, cancel);
            if todo.len() > 0 {
                assert(todo[todo.len() - 1] is Item);
            }
        },
        _ => {},
    }
}

/// Every step from a state with the invariant keeps it and does only what
/// [`step_facts`] allows.
pub proof fn every_step(s: OpState, reply: OpReplyView, cancel: bool)
    requires
        op_invariant(s),
    ensures
        step_facts(s, reply, cancel, op_step(s, reply, cancel).0, op_step(s, reply, cancel).1),
{
    match s.stage {
        Stage::Ready
        | Stage::FastResolve { .. }
        | Stage::FastStat { .. }
        | Stage::FastRename { .. }
        | Stage::DestResolve
        | Stage::CountResolve { .. }
        | Stage::CountStat { .. }
        | Stage::CountList { .. }
        | Stage::Announced => {
            start_facts(s, reply, cancel);
        },
        Stage::ItemResolve { .. }
        | Stage::ItemStat { .. }
        | Stage::DirStat { .. }
        | Stage::FileStat { .. }
        | Stage::Asking { .. }
        | Stage::Probing { .. } => {
            item_facts(s, reply, cancel);
        },
        Stage::DirEnsure { .. }
        | Stage::DirMake { .. }
        | Stage::DirList { .. }
        | Stage::Removing { .. } => {
            dir_facts(s, reply, cancel);
        },
        Stage::Over => {},
        _ => {
            copy_facts(s, reply, cancel);
        },
    }
}

/// The invariant holds after any run of inputs.
pub proof fn invariant_always_holds(
    kind: OpKind,
    sources: Seq<LocationView>,
    dest_dir: LocationView,
    inputs: Seq<OpInput>,
)
    ensures
        op_invariant(state_after(initial_state(kind, sources, dest_dir), inputs)),
        state_after(initial_state(kind, sources, dest_dir), inputs).kind == kind,
    decreases inputs.len(),
{
    if inputs.len() > 0 {
        invariant_always_holds(kind, sources, dest_dir, inputs.drop_last());
        let s = state_after(initial_state(kind, sources, dest_dir), inputs.drop_last());
        every_step(s, inputs.last().0, inputs.last().1);
    }
}

/// A copy never renames anything, and removes nothing but a file that it was
/// writing itself and has to discard.
pub proof fn copy_leaves_sources_alone(
    sources: Seq<LocationView>,
    dest_dir: LocationView,
    inputs: Seq<OpInput>,
    reply: OpReplyView,
    cancel: bool,
)
    ensures
        ({
            let s = state_after(initial_state(OpKind::Copy, sources, dest_dir), inputs);
            let action = op_step(s, reply, cancel).1.action;
            &&& !(action is Rename)
            &&& action matches OpAction::Remove { location } ==> (
            s.stage matches Stage::AbortClose { dest, .. } && location == dest)
        }),
{
    invariant_always_holds(OpKind::Copy, sources, dest_dir, inputs);
    let s = state_after(initial_state(OpKind::Copy, sources, dest_dir), inputs);
    every_step(s, reply, cancel);
}

/// The source of a moved file is removed only when its copy has been closed
/// without a failure; a moved directory only when its children have all been
/// taken up.
pub proof fn move_removes_only_what_was_copied(
    kind: OpKind,
    sources: Seq<LocationView>,
    dest_dir: LocationView,
    inputs: Seq<OpInput>,
    reply: OpReplyView,
    cancel: bool,
)
    ensures
        ({
            let s = state_after(initial_state(kind, sources, dest_dir), inputs);
            op_step(s, reply, cancel).1.action matches OpAction::Remove { location }
                ==> removal_is_due(s, reply, location)
        }),
{
    invariant_always_holds(kind, sources, dest_dir, inputs);
    every_step(state_after(initial_state(kind, sources, dest_dir), inputs), reply, cancel);
}

/// Once a choice applies to all, it stays and nobody is asked again.
pub proof fn apply_to_all_never_asks_again(
    kind: OpKind,
    sources: Seq<LocationView>,
    dest_dir: LocationView,
    inputs: Seq<OpInput>,
    reply: OpReplyView,
    cancel: bool,
)
    requires
        state_after(initial_state(kind, sources, dest_dir), inputs).remembered is Some,
    ensures
        ({
            let s = state_after(initial_state(kind, sources, dest_dir), inputs);
            let (t, out) = op_step(s, reply, cancel);
            t.remembered == s.remembered && !(out.action is Ask)
        }),
{
    invariant_always_holds(kind, sources, dest_dir, inputs);
    every_step(state_after(initial_state(kind, sources, dest_dir), inputs), reply, cancel);
}

/// A decision that applies to all is remembered.
pub proof fn apply_to_all_is_remembered(s: OpState, choice: ConflictChoice, cancel: bool)
    requires
        s.stage is Asking,
    ensures
        ({
            let decision = ConflictDecision { choice, apply_to_all: true };
            op_step(s, OpReply::Decision(Some(decision)), cancel).0.remembered == Some(choice)
        }),
{
    reveal(item_step);
}

/// Skipping opens, makes and writes nothing.
pub proof fn skipping_touches_nothing(s: OpState, apply_to_all: bool, cancel: bool)
    requires
        s.stage is Asking,
    ensures
        ({
            let decision = ConflictDecision { choice: ConflictChoice::Skip, apply_to_all };
            let action = op_step(s, OpReply::Decision(Some(decision)), cancel).1.action;
            action is Finish || action is Cancelled || action is Resolve || action is Remove
        }),
{
    reveal(item_step);
}

/// A directory that meets a directory is merged into it without a question.
pub proof fn directories_merge(s: OpState, meta: FileEntry<Seq<u8>>, cancel: bool)
    requires
        s.stage is DirStat,
        meta.kind == EntryKind::Directory,
    ensures
        s.stage matches Stage::DirStat { source, dest } && op_step(
            s,
            OpReply::Entry(Ok(meta)),
            cancel,
        ) == (at_stage(s, Stage::DirEnsure { source, dest }), only(OpAction::Stat { location: dest })),
{
    reveal(item_step);
}

/// Once cancellation is noticed while a file is being written, the file is
/// closed and removed and the operation ends as cancelled, whatever the
/// closing and the removal come to.
pub proof fn cancelled_file_is_discarded(
    s: OpState,
    dest: LocationView,
    closed: Result<(), VfsErrorView>,
    removed: Result<(), VfsErrorView>,
    c1: bool,
    c2: bool,
)
    requires
        s.stage == (StageView::AbortClose { dest, cause: Cause::Cancelled }),
    ensures
        ({
            let (t, first) = op_step(s, OpReply::Done(closed), c1);
            let (u, second) = op_step(t, OpReply::Done(removed), c2);
            &&& first == only(OpAction::Remove { location: dest })
            &&& second == only(OpAction::Cancelled)
            &&& u.stage is Over
        }),
{
    reveal(copy_step);
}

/// While cancellation is requested nothing more is read and no further item
/// is taken up.
pub proof fn cancelling_reads_nothing_more(
    kind: OpKind,
    sources: Seq<LocationView>,
    dest_dir: LocationView,
    inputs: Seq<OpInput>,
    reply: OpReplyView,
)
    ensures
        ({
            let s = state_after(initial_state(kind, sources, dest_dir), inputs);
            let (t, out) = op_step(s, reply, true);
            !(out.action is Read) && !(t.stage is ItemResolve)
        }),
{
    invariant_always_holds(kind, sources, dest_dir, inputs);
    every_step(state_after(initial_state(kind, sources, dest_dir), inputs), reply, true);
}

/// The end of a file while everything goes well: the bytes handed to the
/// destination, and the state after them.
pub open spec fn drained(s: OpState, chunks: Seq<Seq<u8>>) -> (OpState, Seq<u8>)
    decreases chunks.len(),
{
    let reply = if chunks.len() == 0 {
        OpReply::Chunk(None)
    } else {
        OpReply::Chunk(Some(Ok(chunks[0])))
    };
    let (t, out) = op_step(s, reply, false);
    let (u, bytes) = match out.action {
        OpAction::Write { bytes } => (op_step(t, OpReply::Done(Ok(())), false).0, bytes),
        _ => (t, Seq::empty()),
    };
    if chunks.len() == 0 {
        (u, bytes)
    } else {
        let (end, more) = drained(u, chunks.skip(1));
        (end, bytes + more)
    }
}

/// The concatenation of chunks.
pub open spec fn joined_chunks(chunks: Seq<Seq<u8>>) -> Seq<u8>
    decreases chunks.len(),
{
    if chunks.len() == 0 {
        Seq::empty()
    } else {
        chunks[0] + joined_chunks(chunks.skip(1))
    }
}

/// A file's destination receives exactly the bytes read from its source, in
/// order, however they are cut into chunks; then it is closed.
pub proof fn copied_bytes_are_the_bytes_read(
    s: OpState,
    source: LocationView,
    dest: LocationView,
    buffer: Seq<u8>,
    chunks: Seq<Seq<u8>>,
)
    requires
        s.stage == (StageView::Reading { source, dest, buffer }),
    ensures
        drained(s, chunks).1 == buffer + joined_chunks(chunks),
        drained(s, chunks).0 == (OpState {
            bytes_done: drained(s, chunks).0.bytes_done,
            stage: StageView::Closing { source, dest },
            ..s
        }),
    decreases chunks.len(),
{
    reveal(copy_step);
    if chunks.len() == 0 {
        assert(buffer + joined_chunks(chunks) =~= buffer);
        if buffer.len() == 0 {
            assert(buffer =~= Seq::empty());
        }
    } else {
        let all = buffer + chunks[0];
        let (t, out) = op_step(s, OpReply::Chunk(Some(Ok(chunks[0]))), false);
        if all.len() >= COPY_CHUNK_BYTES {
            let u = op_step(t, OpReply::Done(Ok(())), false).0;
            copied_bytes_are_the_bytes_read(u, source, dest, Seq::empty(), chunks.skip(1));
            assert(drained(s, chunks).1 =~= buffer + joined_chunks(chunks));
        } else {
            copied_bytes_are_the_bytes_read(t, source, dest, all, chunks.skip(1));
            assert(drained(s, chunks).1 =~= buffer + joined_chunks(chunks));
        }
    }
}

/// Nothing empty is written, and only the last write of a file is shorter
/// than a full chunk.
pub proof fn writes_are_full_chunks(
    kind: OpKind,
    sources: Seq<LocationView>,
    dest_dir: LocationView,
    inputs: Seq<OpInput>,
    reply: OpReplyView,
    cancel: bool,
)
    ensures
        ({
            let s = state_after(initial_state(kind, sources, dest_dir), inputs);
            let (t, out) = op_step(s, reply, cancel);
            out.action matches OpAction::Write { bytes } ==> {
                &&& bytes.len() > 0
                &&& t.stage matches Stage::Writing { last, .. } && (!last ==> bytes.len()
                    >= COPY_CHUNK_BYTES)
            }
        }),
{
    invariant_always_holds(kind, sources, dest_dir, inputs);
    every_step(state_after(initial_state(kind, sources, dest_dir), inputs), reply, cancel);
}

/// Totals never shrink, and a progress event carries the totals reached.
pub proof fn progress_is_cumulative(
    kind: OpKind,
    sources: Seq<LocationView>,
    dest_dir: LocationView,
    inputs: Seq<OpInput>,
    reply: OpReplyView,
    cancel: bool,
)
    ensures
        ({
            let s = state_after(initial_state(kind, sources, dest_dir), inputs);
            let (t, out) = op_step(s, reply, cancel);
            &&& t.files_done >= s.files_done
            &&& t.bytes_done >= s.bytes_done
            &&& out.note matches Some(OpEvent::Progress { files_done, bytes_done }) ==> files_done
                == t.files_done && bytes_done == t.bytes_done
        }),
{
    invariant_always_holds(kind, sources, dest_dir, inputs);
    every_step(state_after(initial_state(kind, sources, dest_dir), inputs), reply, cancel);
}

/// An operation that has ended stays ended; the end is the only time at which
/// a final event is given out, and a regular end reports every failure.
pub proof fn the_end_is_final(
    kind: OpKind,
    sources: Seq<LocationView>,
    dest_dir: LocationView,
    inputs: Seq<OpInput>,
    reply: OpReplyView,
    cancel: bool,
)
    ensures
        ({
            let s = state_after(initial_state(kind, sources, dest_dir), inputs);
            let (t, out) = op_step(s, reply, cancel);
            &&& s.stage is Over ==> t == s && out == only(OpAction::Halt)
            &&& out.action is Finish || out.action is Cancelled || out.action is Halt
                ==> t.stage is Over
            &&& out.action matches OpAction::Finish { errors } ==> errors == t.errors
        }),
{
    invariant_always_holds(kind, sources, dest_dir, inputs);
    every_step(state_after(initial_state(kind, sources, dest_dir), inputs), reply, cancel);
}

/// Nothing is ever renamed onto something: whenever an operation asks for a
/// renaming, the action just before was a look at the very place that it
/// renames to, and nothing was found there.
pub proof fn renames_replace_nothing(
    kind: OpKind,
    sources: Seq<LocationView>,
    dest_dir: LocationView,
    inputs: Seq<OpInput>,
    reply: OpReplyView,
    cancel: bool,
)
    ensures
        ({
            let first = initial_state(kind, sources, dest_dir);
            let action = op_step(state_after(first, inputs), reply, cancel).1.action;
            action matches OpAction::Rename { from, to } ==> {
                let before = op_step(
                    state_after(first, inputs.drop_last()),
                    inputs.last().0,
                    inputs.last().1,
                ).1.action;
                &&& inputs.len() > 0
                &&& before == (OpActionView::Stat { location: to })
                &&& reply matches OpReply::Entry(r) && r is Err
            }
        }),
{
    let first = initial_state(kind, sources, dest_dir);
    let s = state_after(first, inputs);
    invariant_always_holds(kind, sources, dest_dir, inputs);
    every_step(s, reply, cancel);
    if inputs.len() > 0 {
        let (was, stop) = inputs.last();
        invariant_always_holds(kind, sources, dest_dir, inputs.drop_last());
        every_step(state_after(first, inputs.drop_last()), was, stop);
    }
}

/// A file begins to be written only where a look has found nothing, where
/// the choice is to overwrite what is there, or under a name that keeps both.
pub proof fn files_are_replaced_only_by_choice(
    s: OpState,
    reply: OpReplyView,
    cancel: bool,
    source: LocationView,
    dest: LocationView,
)
    requires
        op_step(s, reply, cancel).0.stage == (StageView::OpenRead { source, dest }),
        op_invariant(s),
    ensures
        match s.stage {
            Stage::FileStat { source: from, dest: to, .. } => {
                ||| from == source && to == dest && (reply matches OpReply::Entry(r) && r is Err)
                ||| from == source && to == dest && s.remembered == Some(ConflictChoice::Overwrite)
                ||| from == source && to == dest && s.remembered == Some(
                    ConflictChoice::RenameCopy,
                ) && parent_location(to) is None
            },
            Stage::Asking { source: from, dest: to, .. } => {
                reply matches OpReply::Decision(d) && (d matches Some(decision) && {
                    ||| from == source && to == dest && decision.choice
                        == ConflictChoice::Overwrite
                    ||| from == source && to == dest && decision.choice
                        == ConflictChoice::RenameCopy && parent_location(to) is None
                })
            },
            Stage::Probing { source: from, dest: to, n, .. } => {
                &&& from == source
                &&& reply matches OpReply::Entry(r) && {
                    ||| r is Err && copy_candidate(to, n as nat) == Some(dest)
                    ||| r is Ok && n >= 999 && (n == 999 ==> copy_candidate(to, 1000) == Some(
                        dest,
                    ))
                    ||| parent_location(to) is None
                }
            },
            _ => false,
        },
{
    every_step(s, reply, cancel);
    reveal(item_step);
}

/// A source that is where it is to go already stays there: nothing is asked
/// for it again if it is found, and if it is not it is left to the copying,
/// which reports it.
pub proof fn sources_in_place_stay(
    s: OpState,
    source: LocationView,
    reply: Result<FileEntry<Seq<u8>>, VfsErrorView>,
    cancel: bool,
)
    requires
        s.stage == (StageView::FastStat { source }),
        s.kind == OpKind::Move,
        file_name_of(source.path) matches Some(name) && same_location(
            source,
            child_of(s.dest_dir, name),
        ),
    ensures
        ({
            let (t, out) = op_step(s, OpReply::Entry(reply), cancel);
            match reply {
                Ok(_) => (t, out.action) == rename_on(s),
                Err(_) => t.remaining.contains(source) && !(out.action is Rename),
            }
        }),
{
    reveal(rename_step);
    let kept = OpState { remaining: s.remaining.push(source), ..s };
    assert(kept.remaining.last() == source);
    assert(kept.remaining.contains(source));
    rename_on_facts(kept);
}

/// What is in the way of a renaming is left to the copying, which asks before
/// it overwrites: the source is among what is to be copied.
pub proof fn blocked_renames_are_copied(
    s: OpState,
    source: LocationView,
    found: FileEntry<Seq<u8>>,
    cancel: bool,
)
    requires
        s.stage == (StageView::FastStat { source }),
        s.kind == OpKind::Move,
        file_name_of(source.path) matches Some(name) ==> !same_location(
            source,
            child_of(s.dest_dir, name),
        ),
    ensures
        op_step(s, OpReply::Entry(Ok(found)), cancel).0.remaining.contains(source),
        !(op_step(s, OpReply::Entry(Ok(found)), cancel).1.action is Rename),
{
    reveal(rename_step);
    let kept = OpState { remaining: s.remaining.push(source), ..s };
    assert(kept.remaining.last() == source);
    assert(kept.remaining.contains(source));
    rename_on_facts(kept);
}

/// Whatever goes wrong with a renaming in place, the source is copied instead
/// and no failure is reported for it.
pub proof fn failed_rename_falls_back_to_copying(
    s: OpState,
    source: LocationView,
    error: VfsErrorView,
    cancel: bool,
)
    requires
        s.stage == (StageView::FastRename { source }),
        s.kind == OpKind::Move,
    ensures
        op_step(s, OpReply::Done(Err(error)), cancel).0.remaining.contains(source),
        op_step(s, OpReply::Done(Err(error)), cancel).0.errors == s.errors,
{
    reveal(rename_step);
    let kept = OpState { remaining: s.remaining.push(source), ..s };
    assert(kept.remaining.last() == source);
    assert(kept.remaining.contains(source));
    rename_on_facts(kept);
}

// ---------------------------------------------------------------------------
// Keeping both
// ---------------------------------------------------------------------------

/// What the last step of a run asked for.
pub open spec fn action_after(first: OpState, inputs: Seq<OpInput>) -> OpActionView {
    let (reply, cancel) = inputs.last();
    op_step(state_after(first, inputs.drop_last()), reply, cancel).1.action
}

/// Whether the last `n` steps of a run looked at the first `n` names that keep
/// both, one after the other, and something was found under each but the last,
/// of which nothing is known yet.
pub open spec fn has_looked_at(
    first: OpState,
    inputs: Seq<OpInput>,
    dest: LocationView,
    n: int,
) -> bool {
    &&& n <= inputs.len()
    &&& forall|k: int|
        1 <= k <= n ==> (#[trigger] copy_candidate(dest, k as nat) matches Some(other)
            && action_after(first, inputs.take(inputs.len() - n + k)) == (OpActionView::Stat {
            location: other,
        }))
    &&& forall|k: int|
        1 <= k < n ==> (#[trigger] inputs[inputs.len() - n + k]).0 is Entry && inputs[inputs.len()
            - n + k].0->Entry_0 is Ok
}

proof fn looking_goes_in_order(first: OpState, inputs: Seq<OpInput>)
    requires
        first.stage is Ready,
        op_invariant(first),
    ensures
        state_after(first, inputs).stage matches Stage::Probing { source, dest, size, n } ==> {
            &&& 1 <= n < 1000
            &&& has_looked_at(first, inputs, dest, n as int)
        },
        op_invariant(state_after(first, inputs)),
    decreases inputs.len(),
{
    if inputs.len() > 0 {
        let before = inputs.drop_last();
        let (reply, cancel) = inputs.last();
        let s = state_after(first, before);
        looking_goes_in_order(first, before);
        every_step(s, reply, cancel);
        if let Stage::Probing { source, dest, size, n } = state_after(first, inputs).stage {
            only_items_are_probed(s, reply, cancel);
            reveal(item_step);
            assert(inputs.take(inputs.len() as int) =~= inputs);
            assert(copy_candidate(dest, n as nat) is Some);
            assert(action_after(first, inputs) == (OpActionView::Stat {
                location: copy_candidate(dest, n as nat)->0,
            }));
            if n > 1 {
                let m = (n - 1) as int;
                assert(s.stage is Probing);
                assert(has_looked_at(first, before, dest, m));
                assert forall|k: int| 1 <= k <= n implies (#[trigger] copy_candidate(
                    dest,
                    k as nat,
                ) matches Some(other) && action_after(
                    first,
                    inputs.take(inputs.len() - n + k),
                ) == (OpActionView::Stat { location: other })) by {
                    if k < n {
                        assert(copy_candidate(dest, k as nat) is Some);
                        assert(before.take(before.len() - m + k) =~= inputs.take(
                            inputs.len() - n + k,
                        ));
                    }
                }
                assert forall|k: int| 1 <= k < n implies (#[trigger] inputs[inputs.len() - n
                    + k]).0 is Entry && inputs[inputs.len() - n + k].0->Entry_0 is Ok by {
                    if k < m {
                        assert(before[before.len() - m + k] == inputs[inputs.len() - n + k]);
                    }
                }
            } else {
                assert forall|k: int| 1 <= k <= n implies (#[trigger] copy_candidate(
                    dest,
                    k as nat,
                ) matches Some(other) && action_after(
                    first,
                    inputs.take(inputs.len() - n + k),
                ) == (OpActionView::Stat { location: other })) by {
                    assert(inputs.take(inputs.len() - n + k) =~= inputs);
                }
            }
        }
    }
}

/// A name that keeps both is looked at only from where a conflict is settled.
proof fn only_items_are_probed(s: OpState, reply: OpReplyView, cancel: bool)
    requires
        op_invariant(s),
    ensures
        op_step(s, reply, cancel).0.stage is Probing ==> s.stage is Probing || s.stage is Asking
            || s.stage is FileStat || s.stage is DirStat,
{
    reveal(rename_step);
    reveal(count_step);
    reveal(item_step);
    reveal(dir_step);
    reveal(copy_step);
    match s.stage {
        Stage::Ready => {
            if s.kind == OpKind::Move {
                rename_on_facts(
                    OpState { queue: s.sources.reverse(), remaining: Seq::empty(), ..s },
                );
            }
        },
        Stage::FastResolve { source }
        | Stage::FastStat { source }
        | Stage::FastRename { source } => {
            rename_on_facts(s);
            rename_on_facts(OpState { remaining: s.remaining.push(source), ..s });
        },
        _ => {},
    }
}

/// Keeping both replaces nothing: what is opened or made for a choice to keep
/// both has the first name that nothing was found under. Every name before it
/// was looked at and taken, and the last thing the operation did was to look
/// at this one. Only when 999 names are taken is the thousandth used without
/// a look.
pub proof fn keeping_both_takes_the_first_free_name(
    kind: OpKind,
    sources: Seq<LocationView>,
    dest_dir: LocationView,
    inputs: Seq<OpInput>,
    reply: OpReplyView,
    cancel: bool,
    dest: LocationView,
    place: LocationView,
)
    requires
        ({
            let s = state_after(initial_state(kind, sources, dest_dir), inputs);
            let t = op_step(s, reply, cancel).0;
            &&& s.stage matches Stage::Probing { dest: wanted, .. } && wanted == dest
            &&& match t.stage {
                Stage::OpenRead { dest: at, .. } => at == place,
                Stage::DirEnsure { dest: at, .. } => at == place,
                _ => false,
            }
        }),
    ensures
        ({
            let first = initial_state(kind, sources, dest_dir);
            let s = state_after(first, inputs);
            &&& s.stage matches Stage::Probing { n, .. } && {
                &&& has_looked_at(first, inputs, dest, n as int)
                &&& reply matches OpReply::Entry(r) && if r is Err {
                    &&& 1 <= n <= 999
                    &&& copy_candidate(dest, n as nat) == Some(place)
                    &&& action_after(first, inputs) == (OpActionView::Stat { location: place })
                } else {
                    &&& n == 999
                    &&& copy_candidate(dest, 1000) == Some(place)
                }
            }
        }),
{
    let first = initial_state(kind, sources, dest_dir);
    let s = state_after(first, inputs);
    looking_goes_in_order(first, inputs);
    reveal(item_step);
    if let Stage::Probing { source, dest: wanted, size, n } = s.stage {
        let m = n as int;
        assert(copy_candidate(dest, m as nat) is Some);
        assert(inputs.take(inputs.len() - m + m) =~= inputs);
    }
}

/// A conflict that is settled by keeping both is settled by looking at the
/// first name that does, and by nothing else.
pub proof fn keeping_both_begins_with_a_look(
    s: OpState,
    reply: OpReplyView,
    cancel: bool,
    source: LocationView,
    dest: LocationView,
    place: LocationView,
)
    requires
        copy_candidate(dest, 1) == Some(place),
        match s.stage {
            Stage::Asking { source: from, dest: to, .. } => from == source && to == dest && (
            reply matches OpReply::Decision(Some(d)) && d.choice == ConflictChoice::RenameCopy),
            Stage::FileStat { source: from, dest: to, .. } => from == source && to == dest
                && s.remembered == Some(ConflictChoice::RenameCopy) && (
            reply matches OpReply::Entry(r) && r is Ok),
            Stage::DirStat { source: from, dest: to } => from == source && to == dest
                && s.remembered == Some(ConflictChoice::RenameCopy) && (
            reply matches OpReply::Entry(Ok(meta)) && meta.kind != EntryKind::Directory),
            _ => false,
        },
    ensures
        op_step(s, reply, cancel).1 == only(OpAction::Stat { location: place }),
        op_step(s, reply, cancel).0.stage matches Stage::Probing { source: from, dest: to, n, .. }
            && from == source && to == dest && n == 1,
{
    reveal(item_step);
}

/// A file's stem and extension make up its name. The extension is empty or
/// begins with the name's last dot, and no name is all extension.
pub proof fn names_split_at_the_last_dot(name: Seq<char>)
    ensures
        ({
            let (stem, extension) = stem_and_extension(name);
            &&& stem + extension == name
            &&& name.len() > 0 ==> stem.len() > 0
            &&& extension.len() > 0 ==> extension[0] == '.' && forall|i: int|
                0 < i < extension.len() ==> extension[i] != '.'
            &&& extension.len() == 0 ==> forall|i: int| 0 < i < name.len() ==> name[i] != '.'
        }),
{
    rfind_props(name, '.');
    let (stem, extension) = stem_and_extension(name);
    assert(stem + extension =~= name);
}

/// The names that keep both: the first is marked as a copy, the others are
/// numbered, and the extension stays last.
pub proof fn copies_are_named_after_the_file(dest: LocationView, n: nat)
    requires
        n > 0,
        parent_location(dest) is Some,
    ensures
        copy_candidate(dest, n) is Some,
        ({
            let name = match file_name_of(dest.path) {
                Some(bytes) => shown(bytes),
                None => Seq::empty(),
            };
            let (stem, extension) = stem_and_extension(name);
            let mark = if n == 1 {
                " (copy)"@
            } else {
                " (copy "@ + decimal(n) + ")"@
            };
            copy_candidate(dest, n) == Some(
                child_of(parent_location(dest)->0, encode_utf8(stem + mark + extension)),
            )
        }),
{
    let (stem, extension) = stem_and_extension(shown_name(dest.path));
    assert(stem + " (copy "@ + decimal(n) + ")"@ + extension =~= stem + (" (copy "@ + decimal(n)
        + ")"@) + extension);
}

/// An operation begins with nothing counted, nothing done, nothing failed and
/// no choice remembered.
pub proof fn operations_begin_with_nothing(
    kind: OpKind,
    sources: Seq<LocationView>,
    dest_dir: LocationView,
)
    ensures
        ({
            let s = initial_state(kind, sources, dest_dir);
            &&& s.kind == kind && s.sources == sources && s.dest_dir == dest_dir
            &&& s.files_total == 0 && s.bytes_total == 0
            &&& s.files_done == 0 && s.bytes_done == 0
            &&& s.remembered is None
            &&& s.errors.len() == 0
            &&& s.todo.len() == 0
            &&& s.stage is Ready
        }),
{
}


} // verus!
