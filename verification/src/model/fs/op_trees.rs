//! What a copy or a move makes of a whole tree when nothing goes wrong.
use crate::model::fs::entry::{EntryKind, FileEntry};
use crate::model::fs::op_laws::{copied_bytes_are_the_bytes_read, drained, joined_chunks};
use crate::model::fs::ops::{
    OpAction, OpActionView, OpKind, OpReply, OpReplyView, OpState, StageView, Task, TaskView,
    advance, at_stage, child_tasks, copy_step, dir_step, item_step, op_step,
};
use crate::model::vfs::{Caps, LocationView, VfsErrorView, child_of};
use vstd::prelude::*;

verus! {

/// What is at a source, and what a look at its destination finds.
pub enum Content {
    /// A file, or anything else that is no directory, read in these chunks.
    /// Nothing is at its destination.
    File { meta: FileEntry<Seq<u8>>, absent: VfsErrorView, chunks: Seq<Seq<u8>> },
    /// A directory with the content of each entry of its listing. Its
    /// destination is missing, or a directory already.
    Dir {
        meta: FileEntry<Seq<u8>>,
        there: Result<FileEntry<Seq<u8>>, VfsErrorView>,
        list: Seq<FileEntry<Seq<u8>>>,
        inside: Seq<Content>,
    },
}

/// Something that an operation has done.
pub enum Made {
    Dir(LocationView),
    File { at: LocationView, bytes: Seq<u8> },
    Removed(LocationView),
}

/// The removal of what was moved.
pub open spec fn removal_of(kind: OpKind, source: LocationView) -> Seq<Made> {
    if kind == OpKind::Move {
        seq![Made::Removed(source)]
    } else {
        Seq::empty()
    }
}

/// The making of a directory that is not there.
pub open spec fn making_of(
    dest: LocationView,
    there: Result<FileEntry<Seq<u8>>, VfsErrorView>,
) -> Seq<Made> {
    if there is Ok {
        Seq::empty()
    } else {
        seq![Made::Dir(dest)]
    }
}

/// What has to be done for a destination to become what a source is: every
/// directory is there before what is in it, every file has the bytes of its
/// source, and a moved source goes after its destination is complete.
pub open spec fn replica(
    kind: OpKind,
    source: LocationView,
    dest: LocationView,
    content: Content,
) -> Seq<Made>
    decreases content,
{
    match content {
        Content::File { chunks, .. } => seq![
            Made::File { at: dest, bytes: joined_chunks(chunks) },
        ] + removal_of(kind, source),
        Content::Dir { there, list, inside, .. } => making_of(dest, there) + replicas(
            kind,
            source,
            dest,
            list,
            inside,
        ) + removal_of(kind, source),
    }
}

/// What has to be done for the entries of a directory.
pub open spec fn replicas(
    kind: OpKind,
    source: LocationView,
    dest: LocationView,
    list: Seq<FileEntry<Seq<u8>>>,
    inside: Seq<Content>,
) -> Seq<Made>
    decreases inside,
{
    if list.len() == 0 || inside.len() == 0 {
        Seq::empty()
    } else {
        replica(kind, child_of(source, list[0].name), child_of(dest, list[0].name), inside[0])
            + replicas(kind, source, dest, list.skip(1), inside.skip(1))
    }
}

/// Whether a content is what it is described as, and every directory has a
/// content for each of its entries.
pub open spec fn content_ok(content: Content) -> bool
    decreases content,
{
    match content {
        Content::File { meta, .. } => meta.kind != EntryKind::Directory,
        Content::Dir { meta, there, list, inside } => {
            &&& meta.kind == EntryKind::Directory
            &&& there is Ok ==> there->Ok_0.kind == EntryKind::Directory
            &&& list.len() == inside.len()
            &&& contents_ok(inside)
        },
    }
}

/// Whether [`content_ok`] holds of a list of contents.
pub open spec fn contents_ok(inside: Seq<Content>) -> bool
    decreases inside,
{
    inside.len() > 0 ==> content_ok(inside[0]) && contents_ok(inside.skip(1))
}

/// What an action does to the tree.
pub open spec fn made_by(action: OpActionView) -> Seq<Made> {
    match action {
        OpAction::Mkdir { location } => seq![Made::Dir(location)],
        OpAction::Remove { location } => seq![Made::Removed(location)],
        _ => Seq::empty(),
    }
}

/// The file that an action begins, with the bytes that are written to it.
pub open spec fn filled(action: OpActionView, bytes: Seq<u8>) -> Seq<Made> {
    match action {
        OpAction::OpenWrite { location } => seq![Made::File { at: location, bytes }],
        _ => Seq::empty(),
    }
}

/// Where an operation is: what was done so far, the state, and the action
/// that follows.
pub struct Progressed {
    pub done: Seq<Made>,
    pub state: OpState,
    pub action: OpActionView,
}

/// One step, which adds nothing to what was done.
pub open spec fn stepped(s: OpState, reply: OpReplyView) -> (OpState, OpActionView) {
    let (t, out) = op_step(s, reply, false);
    (t, out.action)
}

/// A file that has just been found missing at its destination, up to where it
/// is closed.
pub open spec fn file_filled(s: OpState, chunks: Seq<Seq<u8>>) -> Progressed {
    let (a, opened) = stepped(s, OpReply::Done(Ok(())));
    let b = stepped(a, OpReply::Done(Ok(()))).0;
    let (c, bytes) = drained(b, chunks);
    let (d, action) = stepped(c, OpReply::Done(Ok(())));
    Progressed { done: filled(opened, bytes), state: d, action }
}

/// A directory that is about to be filled, up to where its listing has been
/// read.
pub open spec fn dir_listed(
    s: OpState,
    there: Result<FileEntry<Seq<u8>>, VfsErrorView>,
    list: Seq<FileEntry<Seq<u8>>>,
) -> Progressed {
    let (a, made) = stepped(s, OpReply::Entry(there));
    let b = if made is Mkdir {
        stepped(a, OpReply::Done(Ok(()))).0
    } else {
        a
    };
    let (c, action) = stepped(b, OpReply::Listing(Ok(list)));
    Progressed { done: made_by(made), state: c, action }
}

/// The end of an item: a moved source is removed now.
pub open spec fn concluded(p: Progressed, kind: OpKind) -> Progressed {
    if kind == OpKind::Move {
        let (t, action) = stepped(p.state, OpReply::Done(Ok(())));
        Progressed { done: p.done + made_by(p.action), state: t, action }
    } else {
        p
    }
}

/// An operation that has just taken up an item with some content, up to where
/// it turns to what comes after it. Nothing fails but the looks at what is
/// not there.
pub open spec fn taken_up(s: OpState, content: Content, caps: Caps) -> Progressed
    decreases content,
{
    let a = stepped(s, OpReply::Backend(Some(caps))).0;
    match content {
        Content::File { meta, absent, chunks } => {
            let b = stepped(a, OpReply::Entry(Ok(meta))).0;
            let c = stepped(b, OpReply::Entry(Err(absent))).0;
            concluded(file_filled(c, chunks), s.kind)
        },
        Content::Dir { meta, there, list, inside } => {
            let b = stepped(a, OpReply::Entry(Ok(meta))).0;
            let c = stepped(b, OpReply::Entry(there)).0;
            concluded(all_taken_up(dir_listed(c, there, list), list, inside, caps), s.kind)
        },
    }
}

/// The same for each of the entries of a directory in turn.
pub open spec fn all_taken_up(
    p: Progressed,
    list: Seq<FileEntry<Seq<u8>>>,
    inside: Seq<Content>,
    caps: Caps,
) -> Progressed
    decreases inside,
{
    if list.len() == 0 || inside.len() == 0 {
        p
    } else {
        let one = taken_up(p.state, inside[0], caps);
        all_taken_up(
            Progressed { done: p.done + one.done, ..one },
            list.skip(1),
            inside.skip(1),
            caps,
        )
    }
}

/// `s` with the counts of another state.
pub open spec fn with_counts(s: OpState, other: OpState) -> OpState {
    OpState { files_done: other.files_done, bytes_done: other.bytes_done, ..s }
}

/// `s` after the directory `source` has been listed, but for its entries.
spec fn listed_base(s: OpState, source: LocationView) -> OpState {
    if s.kind == OpKind::Move {
        OpState { todo: s.todo.push(Task::RemoveDir { source }), ..s }
    } else {
        s
    }
}

proof fn item_is_looked_at(
    s: OpState,
    source: LocationView,
    dest: LocationView,
    caps: Caps,
    meta: FileEntry<Seq<u8>>,
    there: Result<FileEntry<Seq<u8>>, VfsErrorView>,
)
    requires
        s.stage == (StageView::ItemResolve { source, dest }),
        meta.kind != EntryKind::Directory ==> there is Err,
        there is Ok ==> there->Ok_0.kind == EntryKind::Directory,
    ensures
        ({
            let a = stepped(s, OpReply::Backend(Some(caps))).0;
            let b = stepped(a, OpReply::Entry(Ok(meta))).0;
            let c = stepped(b, OpReply::Entry(there)).0;
            c == if meta.kind == EntryKind::Directory {
                at_stage(s, StageView::DirEnsure { source, dest })
            } else {
                at_stage(s, StageView::OpenRead { source, dest })
            }
        }),
{
    reveal(item_step);
    let a = stepped(s, OpReply::Backend(Some(caps))).0;
    assert(a == at_stage(s, StageView::ItemStat { source, dest }));
    let b = stepped(a, OpReply::Entry(Ok(meta))).0;
    if meta.kind == EntryKind::Directory {
        assert(b == at_stage(s, StageView::DirStat { source, dest }));
    } else {
        assert(b == at_stage(s, StageView::FileStat { source, dest, bytes: meta.size }));
    }
}

proof fn source_is_removed(s: OpState, source: LocationView)
    requires
        s.stage == (StageView::Removing { source }),
    ensures
        stepped(s, OpReply::Done(Ok(()))) == advance(s, false),
{
    reveal(dir_step);
}

proof fn file_is_filled(
    s: OpState,
    source: LocationView,
    dest: LocationView,
    chunks: Seq<Seq<u8>>,
)
    requires
        s.stage == (StageView::OpenRead { source, dest }),
    ensures
        ({
            let p = file_filled(s, chunks);
            let t = with_counts(s, p.state);
            &&& p.done == seq![Made::File { at: dest, bytes: joined_chunks(chunks) }]
            &&& (p.state, p.action) == if s.kind == OpKind::Move {
                (
                    at_stage(t, StageView::Removing { source }),
                    OpActionView::Remove { location: source },
                )
            } else {
                advance(t, false)
            }
        }),
{
    reveal(copy_step);
    let (a, opened) = stepped(s, OpReply::Done(Ok(())));
    assert(a == at_stage(s, StageView::OpenWrite { source, dest }));
    let b = stepped(a, OpReply::Done(Ok(()))).0;
    assert(b == at_stage(s, StageView::Reading { source, dest, buffer: Seq::empty() }));
    copied_bytes_are_the_bytes_read(b, source, dest, Seq::empty(), chunks);
    let (c, bytes) = drained(b, chunks);
    assert(bytes =~= joined_chunks(chunks));
    assert(c.stage == (StageView::Closing { source, dest }));
}

proof fn dir_is_listed(
    s: OpState,
    source: LocationView,
    dest: LocationView,
    there: Result<FileEntry<Seq<u8>>, VfsErrorView>,
    list: Seq<FileEntry<Seq<u8>>>,
)
    requires
        s.stage == (StageView::DirEnsure { source, dest }),
    ensures
        ({
            let p = dir_listed(s, there, list);
            let base = listed_base(s, source);
            let full = OpState { todo: base.todo + child_tasks(source, dest, list), ..base };
            &&& p.done == making_of(dest, there)
            &&& (p.state, p.action) == advance(full, false)
        }),
{
    reveal(dir_step);
    let (a, made) = stepped(s, OpReply::Entry(there));
    let b = if made is Mkdir {
        stepped(a, OpReply::Done(Ok(()))).0
    } else {
        a
    };
    assert(b == at_stage(s, StageView::DirList { source, dest }));
}

/// When nothing is in the way and nothing fails, a copy makes its destination
/// what the source is, down to the last byte of the last file, and does
/// nothing else; a move does the same and removes each source after its
/// destination is complete. A directory that is there already is merged into.
/// The operation then turns to its next task.
pub proof fn whole_tree_is_copied(
    s: OpState,
    source: LocationView,
    dest: LocationView,
    content: Content,
    caps: Caps,
)
    requires
        s.stage == (StageView::ItemResolve { source, dest }),
        content_ok(content),
    ensures
        ({
            let end = taken_up(s, content, caps);
            &&& end.done == replica(s.kind, source, dest, content)
            &&& (end.state, end.action) == advance(with_counts(s, end.state), false)
        }),
    decreases content,
{
    let end = taken_up(s, content, caps);
    match content {
        Content::File { meta, absent, chunks } => {
            item_is_looked_at(s, source, dest, caps, meta, Err(absent));
            let c = at_stage(s, StageView::OpenRead { source, dest });
            file_is_filled(c, source, dest, chunks);
            let p = file_filled(c, chunks);
            if s.kind == OpKind::Move {
                source_is_removed(p.state, source);
            }
            assert(end.done =~= replica(s.kind, source, dest, content));
        },
        Content::Dir { meta, there, list, inside } => {
            item_is_looked_at(s, source, dest, caps, meta, there);
            let c = at_stage(s, StageView::DirEnsure { source, dest });
            dir_is_listed(c, source, dest, there, list);
            let p = dir_listed(c, there, list);
            let base = listed_base(c, source);
            all_are_copied(base, p, source, dest, list, inside, caps);
            let all = all_taken_up(p, list, inside, caps);
            if s.kind == OpKind::Move {
                assert(base.todo.drop_last() =~= s.todo);
                source_is_removed(all.state, source);
            }
            assert(end.done =~= replica(s.kind, source, dest, content));
        },
    }
}

proof fn all_are_copied(
    s: OpState,
    p: Progressed,
    source: LocationView,
    dest: LocationView,
    list: Seq<FileEntry<Seq<u8>>>,
    inside: Seq<Content>,
    caps: Caps,
)
    requires
        list.len() == inside.len(),
        contents_ok(inside),
        (p.state, p.action) == advance(
            OpState { todo: s.todo + child_tasks(source, dest, list), ..s },
            false,
        ),
    ensures
        ({
            let all = all_taken_up(p, list, inside, caps);
            &&& all.done == p.done + replicas(s.kind, source, dest, list, inside)
            &&& (all.state, all.action) == advance(with_counts(s, all.state), false)
        }),
    decreases inside,
{
    let full = OpState { todo: s.todo + child_tasks(source, dest, list), ..s };
    let all = all_taken_up(p, list, inside, caps);
    if list.len() == 0 {
        assert(full.todo =~= s.todo);
        assert(all.done =~= p.done + replicas(s.kind, source, dest, list, inside));
    } else {
        let x = child_of(source, list[0].name);
        let y = child_of(dest, list[0].name);
        let rest = list.skip(1);
        assert(full.todo.last() == (TaskView::Item { source: x, dest: y }));
        assert(full.todo.drop_last() =~= s.todo + child_tasks(source, dest, rest));
        whole_tree_is_copied(p.state, x, y, inside[0], caps);
        let one = taken_up(p.state, inside[0], caps);
        let next = with_counts(s, one.state);
        let q = Progressed { done: p.done + one.done, ..one };
        all_are_copied(next, q, source, dest, rest, inside.skip(1), caps);
        assert(all.done =~= p.done + replicas(s.kind, source, dest, list, inside));
    }
}

} // verus!
