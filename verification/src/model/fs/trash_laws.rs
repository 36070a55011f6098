//! What holds of the trash as a whole: a record can be read back, restoring
//! undoes trashing, nothing is lost when a step fails, and a removal stays
//! where it was told to go.
use crate::model::fs::disk::{
    DiskAction, DiskActionView, DiskFailure, DiskReply, DiskReplyView, DiskStat, Next,
    path_failure,
};
use crate::model::fs::format::date_of;
use crate::model::fs::removal::{
    EmptyNext, EmptyStage, EmptyState, RemoveNext, RemoveStage, RemoveState, RemoveTask,
    RemoveTaskView, dir_tasks, empty_start, empty_step, empty_warning, next_task, remove_step,
    visits,
};
use crate::model::fs::trash::{
    MAX_SLOTS, RecordOutcome, RestoreNext, RestoreStage, RestoreState, Restored, RestoredView,
    TrashId, TrashIdView, TrashInfoView, TrashNext, TrashRecordView, TrashSiteView, TrashStage,
    TrashStageView, TrashState, TrashedItemView, climb_start, deletion_date, first_field,
    first_slot, home_trash, id_of, info_in, info_text, last_field, listed, original_of, record_of,
    record_outcome, record_target, recorded_path, restore_step, rows_of, same_id, slot_file,
    slot_info, trash_start, trash_step, uid_in, warnings_of_records, word_len,
};
use crate::model::vfs::{VfsError, VfsErrorView, local_view};
use crate::modules::local::{IoKind, io_failure, kind_of};
use crate::path::{
    DOT, SEP, base_len, drop_is_rooted, drop_segment, drop_segment_shorter, file_name_of, is_blank,
    is_entry_name, join_of_stripped, joined, last_segment, name_extension, name_stem, normal_end,
    parent_of, same_path, stripped,
};
use crate::percent::{decode_of_encode_percent, escaped, escaped_is_ascii, unescaped};
use crate::text::{
    all_digits, decimal, is_digit, is_space, lines, lines_of_joined, lines_of_one, parsed_unsigned,
    shown, trimmed, trimmed_start, zero_padded,
};
use vstd::prelude::*;
use vstd::utf8::*;

verus! {

// ---------------------------------------------------------------------------
// Records
// ---------------------------------------------------------------------------

/// Whether a text can be the value of a field: one line without white space
/// at its end.
pub open spec fn is_field(s: Seq<char>) -> bool {
    &&& !s.contains('\n')
    &&& s.len() > 0 ==> !is_space(s.last())
}

proof fn info_lines(info: TrashInfoView)
    requires
        is_field(info.deletion_date),
    ensures
        lines(info_text(info)) == seq![
            "[Trash Info]"@,
            "Path="@ + escaped(info.path),
            "DeletionDate="@ + info.deletion_date,
        ],
{
    reveal_strlit("[Trash Info]\nPath=");
    reveal_strlit("[Trash Info]");
    reveal_strlit("Path=");
    reveal_strlit("\nDeletionDate=");
    reveal_strlit("DeletionDate=");
    reveal_strlit("\n");
    let nl = seq!['\n'];
    let head = "[Trash Info]"@;
    let path = "Path="@ + escaped(info.path);
    let date = "DeletionDate="@ + info.deletion_date;
    escaped_is_ascii(info.path);
    assert forall|i: int| 0 <= i < path.len() implies path[i] != '\n' && path[i] != '\r' by {
        if i >= "Path="@.len() {
            assert(path[i] == escaped(info.path)[i - "Path="@.len()]);
        }
    }
    assert forall|i: int| 0 <= i < date.len() implies date[i] != '\n' by {
        if i >= "DeletionDate="@.len() {
            let c = info.deletion_date[i - "DeletionDate="@.len()];
            assert(date[i] == c);
            assert(info.deletion_date.contains(c));
        }
    }
    if info.deletion_date.len() > 0 {
        assert(date.last() == info.deletion_date.last());
    }
    assert(info_text(info) =~= (head + nl) + ((path + nl) + (date + nl)));
    lines_of_one(head);
    lines_of_one(path);
    lines_of_one(date);
    lines_of_joined(path + nl, date + nl);
    lines_of_joined(head + nl, (path + nl) + (date + nl));
    assert(lines(info_text(info)) =~= seq![head, path, date]);
}

/// Reading a written record gives it back, whatever bytes the path holds.
pub proof fn record_round_trip(info: TrashInfoView)
    requires
        is_field(info.deletion_date),
    ensures
        info_in(info_text(info)) == Some(info),
{
    info_lines(info);
    reveal_strlit("[Trash Info]");
    reveal_strlit("Path=");
    reveal_strlit("DeletionDate=");
    let head = "[Trash Info]"@;
    let path = "Path="@ + escaped(info.path);
    let date = "DeletionDate="@ + info.deletion_date;
    let file = lines(info_text(info));
    escaped_is_ascii(info.path);
    assert(path[0] == 'P');
    assert(date[0] == 'D');
    if escaped(info.path).len() > 0 {
        assert(path.last() == escaped(info.path).last());
        assert(escaped(info.path).last() == escaped(info.path)[escaped(info.path).len() - 1]);
    } else {
        assert(path.last() == '=');
    }
    if info.deletion_date.len() > 0 {
        assert(date.last() == info.deletion_date.last());
    } else {
        assert(date.last() == '=');
    }
    assert(trimmed(path) == path);
    assert(trimmed(date) == date);
    assert(file.last() == date);
    assert(file.drop_last().last() == path);
    assert("DeletionDate="@.is_prefix_of(date)) by {
        assert(date.take("DeletionDate="@.len() as int) =~= "DeletionDate="@);
    }
    assert(date.skip("DeletionDate="@.len() as int) =~= info.deletion_date);
    assert(!"Path="@.is_prefix_of(date)) by {
        assert(date[0] != "Path="@[0]);
    }
    assert("Path="@.is_prefix_of(path)) by {
        assert(path.take("Path="@.len() as int) =~= "Path="@);
    }
    assert(path.skip("Path="@.len() as int) =~= escaped(info.path));
    assert(last_field(file, "DeletionDate="@) == Some(info.deletion_date));
    assert(last_field(file.drop_last(), "Path="@) == Some(escaped(info.path)));
    assert(last_field(file, "Path="@) == Some(escaped(info.path)));
    decode_of_encode_percent(info.path);
}

proof fn decimal_is_digits(n: nat)
    ensures
        all_digits(decimal(n)),
        decimal(n).len() > 0,
    decreases n,
{
    if n >= 10 {
        decimal_is_digits(n / 10);
    }
}

proof fn padded_is_digits(n: nat, width: nat)
    ensures
        all_digits(zero_padded(decimal(n), width)),
        zero_padded(decimal(n), width).len() > 0,
{
    decimal_is_digits(n);
}

/// A deletion date can be kept in a record.
pub proof fn deletion_date_is_a_field(secs: u64)
    ensures
        is_field(deletion_date(secs)),
{
    reveal_strlit("-");
    reveal_strlit("T");
    reveal_strlit(":");
    let (y, m, d) = date_of(secs as int / 86_400);
    let of_day = secs as int % 86_400;
    padded_is_digits(y as nat, 4);
    padded_is_digits(m as nat, 2);
    padded_is_digits(d as nat, 2);
    padded_is_digits((of_day / 3600) as nat, 2);
    padded_is_digits((of_day % 3600 / 60) as nat, 2);
    padded_is_digits((of_day % 60) as nat, 2);
    let s = deletion_date(secs);
    let a = zero_padded(decimal(y as nat), 4) + "-"@;
    let b = a + zero_padded(decimal(m as nat), 2) + "-"@;
    let c = b + zero_padded(decimal(d as nat), 2) + "T"@;
    let e = c + zero_padded(decimal((of_day / 3600) as nat), 2) + ":"@;
    let f = e + zero_padded(decimal((of_day % 3600 / 60) as nat), 2) + ":"@;
    let last = zero_padded(decimal((of_day % 60) as nat), 2);
    assert(s == f + last);
    assert(s.last() == last.last());
    assert(is_digit(last[last.len() - 1]));
    no_break_joined(zero_padded(decimal(y as nat), 4), "-"@);
    no_break_joined(a, zero_padded(decimal(m as nat), 2));
    no_break_joined(a + zero_padded(decimal(m as nat), 2), "-"@);
    no_break_joined(b, zero_padded(decimal(d as nat), 2));
    no_break_joined(b + zero_padded(decimal(d as nat), 2), "T"@);
    no_break_joined(c, zero_padded(decimal((of_day / 3600) as nat), 2));
    no_break_joined(c + zero_padded(decimal((of_day / 3600) as nat), 2), ":"@);
    no_break_joined(e, zero_padded(decimal((of_day % 3600 / 60) as nat), 2));
    no_break_joined(e + zero_padded(decimal((of_day % 3600 / 60) as nat), 2), ":"@);
    no_break_joined(f, last);
}

proof fn no_break_joined(a: Seq<char>, b: Seq<char>)
    requires
        forall|i: int| 0 <= i < a.len() ==> a[i] != '\n',
        forall|i: int| 0 <= i < b.len() ==> b[i] != '\n',
    ensures
        forall|i: int| 0 <= i < (a + b).len() ==> (a + b)[i] != '\n',
        !(a + b).contains('\n'),
{
}

// ---------------------------------------------------------------------------
// Trashing and restoring
// ---------------------------------------------------------------------------

/// Whether a path starts at the root.
pub open spec fn is_rooted(p: Seq<u8>) -> bool {
    p.len() > 0 && p[0] == SEP
}

/// Whether the tops of devices that a job has in mind start at the root.
pub open spec fn tops_are_rooted(stage: TrashStageView) -> bool {
    match stage {
        TrashStage::Climb { topdir, dir, .. } => is_rooted(topdir) && is_rooted(dir),
        TrashStage::Status { topdir } => is_rooted(topdir),
        TrashStage::Shared { topdir, .. } => is_rooted(topdir),
        TrashStage::Owned { site }
        | TrashStage::Make { site }
        | TrashStage::Files { site }
        | TrashStage::Info { site } => site.topdir is Some ==> is_rooted(site.topdir->0),
        TrashStage::SlotFile { site, .. }
        | TrashStage::SlotInfo { site, .. }
        | TrashStage::Time { site, .. }
        | TrashStage::Write { site, .. }
        | TrashStage::Move { site, .. } => site.topdir is Some ==> is_rooted(site.topdir->0),
        _ => true,
    }
}

proof fn normal_end_is_rooted(p: Seq<u8>)
    requires
        is_rooted(p),
    ensures
        is_rooted(normal_end(p)),
    decreases p.len(),
{
    drop_segment_shorter(p);
    if p.len() > 1 {
        drop_is_rooted(p);
        if is_blank(last_segment(p)) {
            normal_end_is_rooted(drop_segment(p));
        }
    }
}

/// What lies above a path that starts at the root starts there too.
pub proof fn parent_is_rooted(p: Seq<u8>)
    requires
        is_rooted(p),
        parent_of(p) is Some,
    ensures
        is_rooted(parent_of(p)->0),
{
    normal_end_is_rooted(p);
    let t = normal_end(p);
    if t.len() > 1 {
        drop_is_rooted(t);
        normal_end_is_rooted(drop_segment(t));
    } else {
        assert(t != seq![DOT]) by {
            assert(t[0] == SEP);
        }
    }
}

/// Whatever the disk answers, a job on a file that starts at the root only
/// considers tops of devices that do.
pub proof fn tops_stay_rooted(s: TrashState, reply: DiskReplyView)
    requires
        is_rooted(s.path),
        tops_are_rooted(s.stage),
    ensures
        tops_are_rooted(trash_step(s, reply).0.stage),
{
    if parent_of(s.path) is Some {
        parent_is_rooted(s.path);
    }
    let start = climb_start(s.path);
    assert(is_rooted(start));
    if parent_of(start) is Some {
        parent_is_rooted(start);
    }
    if let TrashStage::Climb { topdir, dir, .. } = s.stage {
        if parent_of(dir) is Some {
            parent_is_rooted(dir);
        }
    }
}

/// The first step of restoring an item whose record says `info`.
pub open spec fn restore_with(id: TrashIdView, info: TrashInfoView) -> (RestoreState, RestoreNext) {
    restore_step(
        RestoreState { id, stage: RestoreStage::Record },
        DiskReply::Text(info_text(info)),
    )
}

/// Restoring undoes trashing. The record that a job writes for a file, read
/// back, leads to the file's path: byte for byte out of the trash of the home
/// directory, component for component out of one at the top of a device. The
/// directory asked for is the one above that path, and the item is moved from
/// where it was put.
pub proof fn restore_undoes_trash(
    path: Seq<u8>,
    name: Seq<u8>,
    site: TrashSiteView,
    n: u32,
    secs: u64,
)
    requires
        is_rooted(path),
        site.topdir is Some ==> is_rooted(site.topdir->0),
    ensures
        ({
            let id = id_of(name, site, n);
            let info = record_of(path, site, secs);
            let back = original_of(id, info);
            let (s, next) = restore_with(id, info);
            &&& same_path(back, path)
            &&& site.topdir is None ==> back == path
            &&& parent_of(back) matches Some(dir) ==> (dir.len() > 0 ==> next == (
            Next::<DiskActionView, RestoredView>::Do(DiskAction::Exists { path: dir })))
            &&& ({
                let (t, moved) = if s.stage is Parent {
                    restore_step(s, DiskReply::Exists(true))
                } else {
                    (s, next)
                };
                &&& moved == (Next::<DiskActionView, RestoredView>::Do(
                    DiskAction::Rename { from: id.files_path, to: back },
                ))
                &&& ({
                    let (u, cleaned) = restore_step(t, DiskReply::Done);
                    &&& cleaned == (Next::<DiskActionView, RestoredView>::Do(
                        DiskAction::RemoveFile { path: id.info_path },
                    ))
                    &&& restore_step(u, DiskReply::Done).1 == (Next::<
                        DiskActionView,
                        RestoredView,
                    >::Finish(Restored { outcome: Ok(back), warning: None }))
                })
            })
        }),
{
    let info = record_of(path, site, secs);
    deletion_date_is_a_field(secs);
    record_round_trip(info);
    match site.topdir {
        Some(top) => {
            if stripped(path, top) is Some {
                join_of_stripped(path, top);
            } else {
                assert(joined(top, path) == path);
            }
        },
        None => {},
    }
}

/// The record is written before the file moves, and the file that moves is
/// the one that was asked for: a move is only asked for once the writing of
/// its record has been confirmed.
pub proof fn record_comes_before_the_move(s: TrashState, reply: DiskReplyView)
    ensures
        trash_step(s, reply).1 matches Next::Do(DiskAction::Rename { from, to }) ==> {
            &&& s.stage is Write
            &&& reply is Done
            &&& from == s.path
            &&& file_name_of(s.path) is Some
            &&& to == slot_file(s.stage->Write_site.trash, file_name_of(s.path)->0, s.stage->Write_n as nat)
        },
        trash_step(s, reply).1 matches Next::Finish(Ok(id)) ==> s.stage is Move && reply is Done
            && id == id_of(file_name_of(s.path)->0, s.stage->Move_site, s.stage->Move_n),
{
}

/// A file that cannot be moved leaves no record behind: the record that was
/// written for it is removed, and whatever comes of that, the job fails with
/// the reason why the file could not be moved.
pub proof fn failed_move_is_undone(
    s: TrashState,
    site: TrashSiteView,
    n: u32,
    failure: DiskFailure<Seq<char>>,
    reply: DiskReplyView,
)
    requires
        s.stage == (TrashStage::<Seq<u8>, Seq<char>>::Move { site, n }),
        file_name_of(s.path) is Some,
        reply is Done || reply is Failed,
    ensures
        ({
            let (t, next) = trash_step(s, DiskReply::Failed(failure));
            &&& next == (TrashNext::Do(
                DiskAction::RemoveFile {
                    path: slot_info(site.trash, file_name_of(s.path)->0, n as nat),
                },
            ))
            &&& trash_step(t, reply).1 == (TrashNext::Finish(Err(path_failure(s.path, failure))))
        }),
{
}

/// The rest of a search for a free name, where `taken` tells which paths
/// exist.
pub open spec fn after_slots(s: TrashState, taken: spec_fn(Seq<u8>) -> bool) -> (
    TrashState,
    TrashNext,
)
    decreases
            (if s.stage is SlotFile {
                MAX_SLOTS - s.stage->SlotFile_n
            } else {
                0
            }),
{
    match (s.stage, file_name_of(s.path)) {
        (TrashStage::SlotFile { site, n }, Some(name)) => {
            let file = taken(slot_file(site.trash, name, n as nat));
            let info = taken(slot_info(site.trash, name, n as nat));
            let (t, next) = trash_step(s, DiskReply::Exists(file));
            let (t, next) = if t.stage is SlotInfo {
                trash_step(t, DiskReply::Exists(info))
            } else {
                (t, next)
            };
            if n < MAX_SLOTS && t.stage is SlotFile {
                after_slots(t, taken)
            } else {
                (t, next)
            }
        },
        _ => (s, Next::Halt),
    }
}

/// A file gets the first name that is free among the files and the records;
/// if all names are taken the job fails and says so.
pub proof fn the_first_free_name_is_used(
    s: TrashState,
    site: TrashSiteView,
    n: u32,
    taken: spec_fn(Seq<u8>) -> bool,
)
    requires
        s.stage == (TrashStage::<Seq<u8>, Seq<char>>::SlotFile { site, n }),
        n < MAX_SLOTS,
        file_name_of(s.path) is Some,
    ensures
        ({
            let name = file_name_of(s.path)->0;
            match first_slot(site.trash, name, taken, n as nat) {
                Some(k) => after_slots(s, taken) == (
                    TrashState { stage: TrashStage::Time { site, n: k as u32 }, ..s },
                    TrashNext::Do(DiskAction::Clock),
                ) && !taken(slot_file(site.trash, name, k)) && !taken(
                    slot_info(site.trash, name, k),
                ),
                None => after_slots(s, taken).1 == (TrashNext::Finish(
                    Err(
                        VfsError::Other {
                            message: "couldn't find a free trash slot for "@ + shown(name),
                        },
                    ),
                )),
            }
        }),
    decreases MAX_SLOTS - n,
{
    let name = file_name_of(s.path)->0;
    let file = taken(slot_file(site.trash, name, n as nat));
    let info = taken(slot_info(site.trash, name, n as nat));
    if file || info {
        let (t, next) = trash_step(s, DiskReply::Exists(file));
        let (t, next) = if t.stage is SlotInfo {
            trash_step(t, DiskReply::Exists(info))
        } else {
            (t, next)
        };
        if n + 1 < MAX_SLOTS {
            assert(t.stage == (TrashStage::<Seq<u8>, Seq<char>>::SlotFile { site, n: (n + 1) as u32 }));
            the_first_free_name_is_used(t, site, (n + 1) as u32, taken);
        } else {
            assert(first_slot(site.trash, name, taken, (n + 1) as nat) is None);
        }
    }
}

/// A restored item never lands in a directory that does not exist: nothing is
/// moved unless the record was read, and the directory above its path was
/// found or the path has none.
pub proof fn restore_moves_only_into_existing_directories(s: RestoreState, reply: DiskReplyView)
    ensures
        restore_step(s, reply).1 matches Next::Do(DiskAction::Rename { from, to }) ==> {
            &&& from == s.id.files_path
            &&& (s.stage is Parent && reply == (DiskReplyView::Exists(true)) && to == s.stage->Parent_original)
                || (s.stage is Record && (parent_of(to) is None || parent_of(to)->0.len() == 0))
        },
{
}

// ---------------------------------------------------------------------------
// Removing
// ---------------------------------------------------------------------------

/// Whether `p` is `root` or lies below it.
pub open spec fn is_under(root: Seq<u8>, p: Seq<u8>) -> bool {
    p == root || (root.len() < p.len() && root.is_prefix_of(p) && (root.last() == SEP
        || p[root.len() as int] == SEP))
}

/// The path that an action changes something at.
pub open spec fn removed_path(next: RemoveNext) -> Option<Seq<u8>> {
    match next {
        Next::Do(DiskAction::RemoveFile { path }) => Some(path),
        Next::Do(DiskAction::RemoveDir { path }) => Some(path),
        _ => None,
    }
}

/// Whether all that a removal has in mind is under its root.
pub open spec fn stays_under(s: RemoveState) -> bool {
    &&& s.root.len() > 0
    &&& match s.stage {
        RemoveStage::Stat { path } | RemoveStage::List { path } | RemoveStage::Unlink { path } =>
            is_under(s.root, path),
        _ => true,
    }
    &&& forall|i: int|
        0 <= i < s.todo.len() ==> match #[trigger] s.todo[i] {
            RemoveTask::Visit(p) => is_under(s.root, p),
            RemoveTask::RemoveDir(p) => is_under(s.root, p),
            RemoveTask::Fail(_) => true,
        }
}

/// Whether a listing answers for a directory: every path in it is the
/// directory's with an entry name behind it.
pub open spec fn lists(dir: Seq<u8>, list: Seq<Seq<u8>>) -> bool {
    forall|i: int|
        0 <= i < list.len() ==> exists|name: Seq<u8>| #[trigger]
            is_entry_name(name) && (#[trigger] list[i]) == joined(dir, name)
}

/// What lies below a path under the root is under the root.
pub proof fn entries_are_under(root: Seq<u8>, dir: Seq<u8>, name: Seq<u8>)
    requires
        root.len() > 0,
        is_under(root, dir),
        is_entry_name(name),
    ensures
        is_under(root, joined(dir, name)),
{
    let j = joined(dir, name);
    assert(name[0] != SEP);
    assert(dir.is_prefix_of(j)) by {
        assert(j.take(dir.len() as int) =~= dir);
    }
    assert(root.is_prefix_of(j)) by {
        assert(j.take(root.len() as int) =~= root);
    }
    if dir == root {
        if root.last() != SEP {
            assert(j[root.len() as int] == SEP);
        }
    } else {
        assert(j[root.len() as int] == dir[root.len() as int]);
    }
}

/// A removal never touches anything but its root and what lies below it, as
/// long as listings list what is below a directory.
pub proof fn removal_stays_under_its_root(s: RemoveState, reply: DiskReplyView)
    requires
        stays_under(s),
        s.stage matches RemoveStage::List { path } ==> (reply matches DiskReply::Listing {
            paths: list,
            ..
        } ==> lists(path, list)),
    ensures
        stays_under(remove_step(s, reply).0),
        remove_step(s, reply).0.root == s.root,
        removed_path(remove_step(s, reply).1) matches Some(p) ==> is_under(s.root, p),
{
    match (s.stage, reply) {
        (RemoveStage::List { path }, DiskReply::Listing { paths: list, cut }) => {
            let todo = s.todo + dir_tasks(path, list, cut);
            assert forall|i: int| 0 <= i < todo.len() implies match #[trigger] todo[i] {
                RemoveTask::Visit(p) => is_under(s.root, p),
                RemoveTask::RemoveDir(p) => is_under(s.root, p),
                RemoveTask::Fail(_) => true,
            } by {
                if i < s.todo.len() {
                    assert(todo[i] == s.todo[i]);
                } else if i > s.todo.len() {
                    let k = list.len() - 1 - (i - s.todo.len() - 1);
                    assert(todo[i] == RemoveTaskView::Visit(list[k]));
                    let name = choose|name: Seq<u8>| #[trigger]
                        is_entry_name(name) && list[k] == joined(path, name);
                    assert(is_entry_name(name) && list[k] == joined(path, name));
                    entries_are_under(s.root, path, name);
                }
            }
            let mid = RemoveState { todo, ..s };
            assert(stays_under(mid));
            next_task_stays_under(mid);
        },
        (RemoveStage::Ready, DiskReply::Start) => {
            let mid = RemoveState { todo: seq![RemoveTask::Visit(s.root)], ..s };
            next_task_stays_under(mid);
        },
        (RemoveStage::Unlink { path }, DiskReply::Done) => {
            next_task_stays_under(s);
        },
        _ => {},
    }
}

proof fn next_task_stays_under(s: RemoveState)
    requires
        stays_under(s),
    ensures
        stays_under(next_task(s).0),
        next_task(s).0.root == s.root,
        removed_path(next_task(s).1) matches Some(p) ==> is_under(s.root, p),
{
    if s.todo.len() > 0 {
        let last = s.todo[s.todo.len() - 1];
        assert(s.todo.last() == last);
        let rest = s.todo.drop_last();
        assert forall|i: int| 0 <= i < rest.len() implies match #[trigger] rest[i] {
            RemoveTask::Visit(p) => is_under(s.root, p),
            RemoveTask::RemoveDir(p) => is_under(s.root, p),
            RemoveTask::Fail(_) => true,
        } by {
            assert(rest[i] == s.todo[i]);
        }
    }
}

/// A link is never followed: a removal lists a path, and so reaches what is
/// below it, only when the path was just described as a real directory.
pub proof fn links_are_never_followed(s: RemoveState, reply: DiskReplyView)
    ensures
        remove_step(s, reply).1 matches Next::Do(DiskAction::ListDir { path }) ==> s.stage == (
        RemoveStage::Stat { path }) && (reply matches DiskReply::Stat(stat) && stat.is_dir),
        s.stage matches RemoveStage::Stat { path } ==> (reply matches DiskReply::Stat(stat)
            && !stat.is_dir ==> remove_step(s, reply).1 == (RemoveNext::Do(
            DiskAction::RemoveFile { path },
        ))),
{
}

/// What is at a path, as far as a removal can see it.
pub enum Node {
    /// Anything but a directory.
    Leaf,
    /// A directory with a node for each path of its listing.
    Dir { list: Seq<Seq<u8>>, nodes: Seq<Node> },
}

/// The paths that have to go for a path to go, in an order in which each
/// directory is empty when its turn comes.
pub open spec fn removals(path: Seq<u8>, node: Node) -> Seq<Seq<u8>>
    decreases node,
{
    match node {
        Node::Leaf => seq![path],
        Node::Dir { list, nodes } => removals_of(list, nodes).push(path),
    }
}

/// The paths that have to go for each of a list of paths to go.
pub open spec fn removals_of(list: Seq<Seq<u8>>, nodes: Seq<Node>) -> Seq<Seq<u8>>
    decreases nodes,
{
    if nodes.len() == 0 || list.len() == 0 {
        Seq::empty()
    } else {
        removals(list[0], nodes[0]) + removals_of(list.skip(1), nodes.skip(1))
    }
}

/// Whether every directory has a node for each of its entries.
pub open spec fn node_ok(node: Node) -> bool
    decreases node,
{
    node matches Node::Dir { list, nodes } ==> list.len() == nodes.len() && nodes_ok(nodes)
}

/// Whether [`node_ok`] holds of a list of nodes.
pub open spec fn nodes_ok(nodes: Seq<Node>) -> bool
    decreases nodes,
{
    nodes.len() > 0 ==> node_ok(nodes[0]) && nodes_ok(nodes.skip(1))
}

/// What is removed when a path with a node is visited and all goes well, and
/// the state in which the removal turns to what was to be done after it.
pub open spec fn visit(s: RemoveState, path: Seq<u8>, node: Node) -> (Seq<Seq<u8>>, RemoveState)
    decreases node,
{
    let at = RemoveState { stage: RemoveStage::Stat { path }, ..s };
    match node {
        Node::Leaf => {
            let stat = DiskStat { dev: 0, is_dir: false, mode: 0 };
            let (t, next) = remove_step(at, DiskReply::Stat(stat));
            (path_list(removed_path(next)), t)
        },
        Node::Dir { list, nodes } => {
            let stat = DiskStat { dev: 0, is_dir: true, mode: 0 };
            let t = remove_step(at, DiskReply::Stat(stat)).0;
            let (u, next) = remove_step(t, DiskReply::Listing { paths: list, cut: None });
            let (gone, v, last) = visit_all(u, next, list, nodes);
            (gone + path_list(removed_path(last)), v)
        },
    }
}

/// A path as a list.
pub open spec fn path_list(p: Option<Seq<u8>>) -> Seq<Seq<u8>> {
    match p {
        Some(p) => seq![p],
        None => Seq::empty(),
    }
}

/// What is removed when each of a list of paths is visited in turn, and the
/// state and the action that follow.
pub open spec fn visit_all(
    s: RemoveState,
    next: RemoveNext,
    list: Seq<Seq<u8>>,
    nodes: Seq<Node>,
) -> (Seq<Seq<u8>>, RemoveState, RemoveNext)
    decreases nodes,
{
    if nodes.len() == 0 || list.len() == 0 {
        (Seq::empty(), s, next)
    } else {
        match (s.stage, next) {
            (RemoveStage::Stat { path }, Next::Do(DiskAction::Stat { path: asked })) if path
                == asked => {
                let (gone, t) = visit(s, path, nodes[0]);
                let (u, next) = remove_step(t, DiskReply::Done);
                let (more, v, last) = visit_all(u, next, list.skip(1), nodes.skip(1));
                (gone + more, v, last)
            },
            _ => (Seq::empty(), s, next),
        }
    }
}

/// When nothing fails, a removal removes its path and everything below it,
/// each entry once, and each directory after all that was in it.
pub proof fn whole_tree_is_removed(s: RemoveState, path: Seq<u8>, node: Node)
    requires
        node_ok(node),
    ensures
        visit(s, path, node) == (
            removals(path, node),
            RemoveState { stage: RemoveStage::Unlink { path }, ..s },
        ),
    decreases node,
{
    let at = RemoveState { stage: RemoveStage::Stat { path }, ..s };
    match node {
        Node::Leaf => {},
        Node::Dir { list, nodes } => {
            let stat = DiskStat { dev: 0, is_dir: true, mode: 0 };
            let t = remove_step(at, DiskReply::Stat(stat)).0;
            let (u, next) = remove_step(t, DiskReply::Listing { paths: list, cut: None });
            let before = RemoveState {
                todo: s.todo.push(RemoveTask::RemoveDir(path)),
                stage: RemoveStage::List { path },
                ..s
            };
            let mid = RemoveState { todo: before.todo + visits(list), ..before };
            assert(t.todo + dir_tasks(path, list, None) =~= mid.todo);
            assert((u, next) == next_task(mid));
            all_are_removed(before, list, nodes);
            let (gone, v, last) = visit_all(u, next, list, nodes);
            assert(gone == removals_of(list, nodes));
            assert(before.todo.drop_last() =~= s.todo);
            assert(v =~= (RemoveState { stage: RemoveStage::Unlink { path }, ..s }));
            assert(last == (RemoveNext::Do(DiskAction::RemoveDir { path })));
            assert(gone + seq![path] =~= removals(path, node));
        },
    }
}

proof fn all_are_removed(s: RemoveState, list: Seq<Seq<u8>>, nodes: Seq<Node>)
    requires
        list.len() == nodes.len(),
        nodes_ok(nodes),
        s.todo.len() > 0,
        s.todo.last() is RemoveDir,
    ensures
        ({
            let (u, next) = next_task(RemoveState { todo: s.todo + visits(list), ..s });
            let (gone, v, last) = visit_all(u, next, list, nodes);
            &&& gone == removals_of(list, nodes)
            &&& (RemoveState { stage: RemoveStage::Over, ..v }, last) == (
                RemoveState { stage: RemoveStage::Over, ..next_task(s).0 },
                next_task(s).1,
            )
            &&& v.stage == next_task(s).0.stage
        }),
    decreases nodes,
{
    let full = RemoveState { todo: s.todo + visits(list), ..s };
    let (u, next) = next_task(full);
    if list.len() == 0 {
        assert(full.todo =~= s.todo);
    } else {
        let path = list[0];
        assert(full.todo.last() == RemoveTaskView::Visit(path));
        let rest = RemoveState { todo: s.todo + visits(list.skip(1)), ..s };
        assert(full.todo.drop_last() =~= rest.todo);
        whole_tree_is_removed(u, path, nodes[0]);
        let (gone, t) = visit(u, path, nodes[0]);
        assert(t.todo =~= rest.todo);
        let (u2, next2) = remove_step(t, DiskReply::Done);
        let after = RemoveState { stage: RemoveStage::Unlink { path }, ..s };
        assert(t =~= (RemoveState { todo: after.todo + visits(list.skip(1)), ..after }));
        all_are_removed(after, list.skip(1), nodes.skip(1));
        assert(removals_of(list, nodes) == gone + removals_of(list.skip(1), nodes.skip(1)));
    }
}

// ---------------------------------------------------------------------------
// A whole emptying
// ---------------------------------------------------------------------------

/// An emptying after a run of replies, with what was seen on the way.
pub struct EmptyRun {
    pub state: EmptyState,
    /// The entries that the listings have named.
    pub listed: Seq<Seq<u8>>,
    /// The entries whose removal has begun.
    pub begun: Seq<Seq<u8>>,
    /// The warnings about the removals that have failed.
    pub failed: Seq<Seq<char>>,
}

/// The entries that a reply names.
pub open spec fn newly_listed(s: EmptyState, reply: DiskReplyView) -> Seq<Seq<u8>> {
    match (s.stage, reply) {
        (EmptyStage::List, DiskReply::Listing { paths: list, .. }) => list,
        _ => Seq::empty(),
    }
}

/// The entry whose removal a step begins: whichever it takes from those that
/// are still to be removed.
pub open spec fn newly_begun(s: EmptyState, reply: DiskReplyView) -> Seq<Seq<u8>> {
    let waiting = match (s.stage, reply) {
        (EmptyStage::List, DiskReply::Listing { paths: list, .. }) => list,
        _ => s.entries.reverse(),
    };
    waiting.take(waiting.len() - empty_step(s, reply).0.entries.len())
}

/// The warning about a removal that a reply makes fail.
pub open spec fn newly_failed(s: EmptyState, reply: DiskReplyView) -> Seq<Seq<char>> {
    match s.stage {
        EmptyStage::Remove { job } => match remove_step(job, reply) {
            (job, Next::Finish(Some(f))) => seq![empty_warning(job.root, f)],
            _ => Seq::empty(),
        },
        _ => Seq::empty(),
    }
}

/// The emptying of a trash after a run of replies.
pub open spec fn empty_run(trash: Option<Seq<u8>>, replies: Seq<DiskReplyView>) -> EmptyRun
    decreases replies.len(),
{
    if replies.len() == 0 {
        EmptyRun {
            state: empty_start(trash),
            listed: Seq::empty(),
            begun: Seq::empty(),
            failed: Seq::empty(),
        }
    } else {
        let before = empty_run(trash, replies.drop_last());
        let reply = replies.last();
        EmptyRun {
            state: empty_step(before.state, reply).0,
            listed: before.listed + newly_listed(before.state, reply),
            begun: before.begun + newly_begun(before.state, reply),
            failed: before.failed + newly_failed(before.state, reply),
        }
    }
}

/// A step that takes an entry from those to be removed takes one, and looks
/// at it at once.
pub proof fn begun_removals_are_under_way(s: EmptyState, reply: DiskReplyView)
    requires
        s.stage is List ==> s.entries.len() == 0,
    ensures
        newly_begun(s, reply).len() <= 1,
        newly_begun(s, reply).len() == 1 ==> empty_step(s, reply).1 == (EmptyNext::Do(
            DiskAction::Stat { path: newly_begun(s, reply)[0] },
        )),
{
    if let EmptyStage::Remove { job } = s.stage {
        if s.entries.len() > 0 {
            assert(s.entries.reverse()[0] == s.entries.last());
        }
    }
}

proof fn nothing_is_skipped(trash: Option<Seq<u8>>, replies: Seq<DiskReplyView>)
    ensures
        ({
            let run = empty_run(trash, replies);
            &&& run.begun + run.state.entries.reverse() == run.listed
            &&& run.state.warnings == run.failed
            &&& run.state.stage is Ready || run.state.stage is List ==> run.state.entries.len()
                == 0
        }),
    decreases replies.len(),
{
    let run = empty_run(trash, replies);
    if replies.len() == 0 {
        assert(run.begun + run.state.entries.reverse() =~= run.listed);
    } else {
        let before = empty_run(trash, replies.drop_last());
        let reply = replies.last();
        nothing_is_skipped(trash, replies.drop_last());
        let s = before.state;
        let t = run.state;
        let waiting = match (s.stage, reply) {
            (EmptyStage::List, DiskReply::Listing { paths: list, .. }) => list,
            _ => s.entries.reverse(),
        };
        assert(t.entries.reverse() =~= waiting.skip(waiting.len() - t.entries.len()));
        assert(newly_begun(s, reply) + t.entries.reverse() =~= waiting);
        assert(before.begun + waiting =~= run.listed) by {
            if s.stage is List && reply is Listing {
                assert(before.begun + s.entries.reverse() =~= before.begun);
            }
        }
        assert(run.begun + t.entries.reverse() =~= before.begun + waiting);
        assert(t.warnings =~= run.failed);
    }
}

/// Emptying the trash skips nothing: whichever removals fail, by the time it
/// ends every entry that was listed has been attempted, once and in order, and
/// there is a warning for each that could not be removed and for no other.
pub proof fn every_entry_is_attempted(
    trash: Option<Seq<u8>>,
    replies: Seq<DiskReplyView>,
    last: DiskReplyView,
    warnings: Seq<Seq<char>>,
)
    requires
        empty_step(empty_run(trash, replies).state, last).1 == EmptyNext::Finish(warnings),
    ensures
        ({
            let run = empty_run(trash, replies.push(last));
            &&& run.begun == run.listed
            &&& run.failed == warnings
        }),
{
    let all = replies.push(last);
    assert(all.drop_last() =~= replies);
    nothing_is_skipped(trash, replies);
    nothing_is_skipped(trash, all);
    let run = empty_run(trash, all);
    assert(run.state.entries.len() == 0);
    assert(run.begun + run.state.entries.reverse() =~= run.begun);
}

// ---------------------------------------------------------------------------
// The top of a device
// ---------------------------------------------------------------------------

/// What a disk says of every path: its description, or why there is none.
pub type DiskView = spec_fn(Seq<u8>) -> Result<DiskStat, DiskFailure<Seq<char>>>;

/// The job on a file after `n` descriptions have been asked for and given.
pub open spec fn after_stats(path: Seq<u8>, home: Seq<u8>, disk: DiskView, n: nat) -> (
    TrashState,
    TrashNext,
)
    decreases n,
{
    if n == 0 {
        trash_step(trash_start(path, home), DiskReply::Start)
    } else {
        let (s, next) = after_stats(path, home, disk, (n - 1) as nat);
        match next {
            Next::Do(DiskAction::Stat { path: asked }) => trash_step(
                s,
                match disk(asked) {
                    Ok(stat) => DiskReply::Stat(stat),
                    Err(failure) => DiskReply::Failed(failure),
                },
            ),
            _ => (s, next),
        }
    }
}

/// Whether a path can be described and lies on a device.
pub open spec fn is_on(disk: DiskView, dev: u64, path: Seq<u8>) -> bool {
    disk(path) matches Ok(stat) && stat.dev == dev
}

/// The path `k` directories above another.
pub open spec fn above(path: Seq<u8>, k: nat) -> Option<Seq<u8>>
    decreases k,
{
    if k == 0 {
        Some(path)
    } else {
        match above(path, (k - 1) as nat) {
            Some(dir) => parent_of(dir),
            None => None,
        }
    }
}

/// Whether the directory `k` above `dir` is the highest one on a device: all
/// directories from `dir` up to it lie on the device, `dir` itself aside, and
/// the one above it, if there is one that can be described, does not.
pub open spec fn is_top(disk: DiskView, dev: u64, dir: Seq<u8>, k: nat, top: Seq<u8>) -> bool {
    &&& above(dir, k) == Some(top)
    &&& forall|j: nat|
        0 < j <= k ==> (#[trigger] above(dir, j) matches Some(d) && is_on(disk, dev, d))
    &&& parent_of(top) matches Some(d) ==> !is_on(disk, dev, d)
}

/// Whether the trash of the home directory is known to lie on a device: its
/// own, or that of the directory above it where it does not exist yet.
pub open spec fn home_is_on(disk: DiskView, dev: u64, home: Seq<u8>) -> bool {
    ||| is_on(disk, dev, home)
    ||| disk(home) is Err && is_on(
        disk,
        dev,
        match parent_of(home) {
            Some(dir) => dir,
            None => home,
        },
    )
}

proof fn end_is_no_longer(p: Seq<u8>)
    ensures
        normal_end(p).len() <= p.len(),
    decreases p.len(),
{
    drop_segment_shorter(p);
    if p.len() > base_len(p) && is_blank(last_segment(p)) {
        end_is_no_longer(drop_segment(p));
    }
}

proof fn parent_is_shorter(p: Seq<u8>)
    ensures
        parent_of(p) matches Some(dir) ==> dir.len() < p.len(),
{
    let t = normal_end(p);
    end_is_no_longer(p);
    drop_segment_shorter(t);
    end_is_no_longer(drop_segment(t));
}

proof fn above_parent(dir: Seq<u8>, k: nat)
    ensures
        parent_of(dir) matches Some(up) ==> above(dir, k + 1) == above(up, k),
    decreases k,
{
    if let Some(up) = parent_of(dir) {
        reveal_with_fuel(above, 2);
        if k > 0 {
            above_parent(dir, (k - 1) as nat);
        }
    }
}

/// Above every directory there is a highest one on a device.
proof fn a_top_exists(disk: DiskView, dev: u64, dir: Seq<u8>) -> (r: (nat, Seq<u8>))
    ensures
        is_top(disk, dev, dir, r.0, r.1),
    decreases dir.len(),
{
    match parent_of(dir) {
        Some(up) if is_on(disk, dev, up) => {
            parent_is_shorter(dir);
            let (k, top) = a_top_exists(disk, dev, up);
            above_parent(dir, k);
            assert forall|j: nat| 0 < j <= k + 1 implies (#[trigger] above(dir, j) matches Some(d)
                && is_on(disk, dev, d)) by {
                let i = (j - 1) as nat;
                above_parent(dir, i);
                assert(i + 1 == j);
                if i > 0 {
                    assert(above(up, i) is Some);
                } else {
                    assert(above(up, 0) == Some(up));
                }
            }
            (k + 1, top)
        },
        _ => {
            (0, dir)
        },
    }
}

/// How far a job has come when it describes the file a second time, to climb
/// from there.
proof fn climbing_begins(path: Seq<u8>, home: Seq<u8>, disk: DiskView, dev: u64) -> (n: nat)
    requires
        is_on(disk, dev, path),
        !home_is_on(disk, dev, home),
    ensures
        after_stats(path, home, disk, n).0 == (TrashState { path, home, stage: TrashStage::Again }),
        after_stats(path, home, disk, n).1 == TrashNext::Do(DiskAction::Stat { path }),
{
    reveal_with_fuel(after_stats, 4);
    if disk(home) is Ok {
        2
    } else {
        3
    }
}

proof fn climbing_goes_on(
    path: Seq<u8>,
    home: Seq<u8>,
    disk: DiskView,
    dev: u64,
    dir: Seq<u8>,
    n: nat,
    k: nat,
    top: Seq<u8>,
    j: nat,
)
    requires
        is_on(disk, dev, path),
        dir == (match parent_of(path) {
            Some(up) => up,
            None => seq![0x2Fu8],
        }),
        after_stats(path, home, disk, n).0 == (TrashState { path, home, stage: TrashStage::Again }),
        after_stats(path, home, disk, n).1 == TrashNext::Do(DiskAction::Stat { path }),
        is_top(disk, dev, dir, k, top),
        j <= k,
    ensures
        above(dir, j) matches Some(d) && {
            let (s, next) = after_stats(path, home, disk, n + 1 + j);
            match parent_of(d) {
                Some(up) => {
                    &&& s == (TrashState {
                        path,
                        home,
                        stage: TrashStage::Climb { dev, topdir: d, dir: up },
                    })
                    &&& next == TrashNext::Do(DiskAction::Stat { path: up })
                },
                None => s.stage == (TrashStageView::Status { topdir: d }),
            }
        },
    decreases j,
{
    if j == 0 {
        assert(above(dir, 0) == Some(dir));
    } else {
        climbing_goes_on(path, home, disk, dev, dir, n, k, top, (j - 1) as nat);
        assert(above(dir, j) is Some && is_on(disk, dev, above(dir, j)->0));
        assert(n + 1 + j - 1 == n + 1 + (j - 1));
    }
}

/// The trash of a device is at its top: a file that does not lie on the
/// device of the home trash is trashed at the highest directory of its own
/// device. That directory lies above the file; it and every directory between
/// it and the one that the file is in lie on the file's device, and the next
/// one above it, if there is one that can be described, does not.
pub proof fn the_top_is_the_highest_on_the_device(
    path: Seq<u8>,
    home: Seq<u8>,
    disk: DiskView,
    dev: u64,
    dir: Seq<u8>,
)
    requires
        parent_of(path) matches Some(up) ==> dir == up,
        parent_of(path) is None ==> dir == seq![0x2Fu8],
        is_on(disk, dev, path),
        !home_is_on(disk, dev, home),
    ensures
        exists|n: nat, k: nat, top: Seq<u8>|
            {
                &&& #[trigger] after_stats(path, home, disk, n).0.stage == (TrashStageView::Status {
                    topdir: top,
                })
                &&& #[trigger] is_top(disk, dev, dir, k, top)
            },
{
    let n = climbing_begins(path, home, disk, dev);
    let (k, top) = a_top_exists(disk, dev, dir);
    climbing_goes_on(path, home, disk, dev, dir, n, k, top, k);
    match parent_of(top) {
        Some(up) => {
            let m = n + 1 + k + 1;
            assert(m - 1 == n + 1 + k);
            assert(after_stats(path, home, disk, m).0.stage == (TrashStageView::Status {
                topdir: top,
            }));
        },
        None => {
            assert(after_stats(path, home, disk, n + 1 + k).0.stage == (TrashStageView::Status {
                topdir: top,
            }));
        },
    }
}

/// A file on the device of the home trash goes into the home trash.
pub proof fn files_on_the_home_device_go_home(
    path: Seq<u8>,
    home: Seq<u8>,
    disk: DiskView,
    dev: u64,
)
    requires
        is_on(disk, dev, path),
        home_is_on(disk, dev, home),
    ensures
        exists|n: nat|
            {
                let (s, next) = #[trigger] after_stats(path, home, disk, n);
                &&& s.stage matches TrashStage::Files { site } && site.trash == home
                    && site.topdir is None
                &&& next == TrashNext::Do(
                    DiskAction::CreateDirAll { path: joined(home, encode_utf8("files"@)) },
                )
            },
{
    reveal_with_fuel(after_stats, 4);
    if disk(home) is Ok {
        assert(after_stats(path, home, disk, 2).0.stage is Files);
    } else {
        assert(after_stats(path, home, disk, 3).0.stage is Files);
    }
}

/// A file that cannot be described is not trashed.
pub proof fn missing_files_are_not_trashed(
    path: Seq<u8>,
    home: Seq<u8>,
    disk: DiskView,
    failure: DiskFailure<Seq<char>>,
)
    requires
        disk(path) == Err::<DiskStat, DiskFailure<Seq<char>>>(failure),
    ensures
        after_stats(path, home, disk, 1).1 == TrashNext::Finish(
            Err(io_failure(local_view(path), failure.kind, failure.message)),
        ),
{
    reveal_with_fuel(after_stats, 2);
}

// ---------------------------------------------------------------------------
// The user's own trash
// ---------------------------------------------------------------------------

/// A shared trash is used only if it is a real directory with the sticky bit.
/// Then the user's trash is inside it, under the user's number; else it is
/// beside it, with the number in its name.
pub proof fn shared_trashes_are_used_with_care(
    s: TrashState,
    topdir: Seq<u8>,
    uid: u32,
    stat: DiskStat,
    failure: DiskFailure<Seq<char>>,
)
    requires
        s.stage == (TrashStageView::Shared { topdir, uid }),
    ensures
        ({
            let inside = joined(
                joined(topdir, encode_utf8(".Trash"@)),
                encode_utf8(decimal(uid as nat)),
            );
            let beside = joined(topdir, encode_utf8(".Trash-"@ + decimal(uid as nat)));
            let (t, next) = trash_step(s, DiskReply::Stat(stat));
            &&& next == TrashNext::Do(
                DiskAction::Stat {
                    path: if stat.is_dir && stat.mode & 0x200 != 0 {
                        inside
                    } else {
                        beside
                    },
                },
            )
            &&& t.stage matches TrashStage::Owned { site } && {
                &&& next == TrashNext::Do(DiskAction::Stat { path: site.trash })
                &&& site.topdir == Some(topdir)
                &&& site.uid == uid
                &&& site.shared <==> stat.is_dir && stat.mode & 0x200 != 0
            }
            &&& trash_step(s, DiskReply::Failed(failure)).1 == TrashNext::Do(
                DiskAction::Stat { path: beside },
            )
            &&& trash_step(s, DiskReply::Failed(failure)).0.stage matches TrashStage::Owned { site }
                && site.trash == beside && site.topdir == Some(topdir) && site.uid == uid
                && !site.shared
        }),
{
}

/// The shared trash is looked for at the top of the device, once the user is
/// known; without a user the job fails.
pub proof fn the_shared_trash_is_looked_for(
    s: TrashState,
    topdir: Seq<u8>,
    text: Seq<char>,
    failure: DiskFailure<Seq<char>>,
)
    requires
        s.stage == (TrashStageView::Status { topdir }),
    ensures
        uid_in(text) matches Some(uid) ==> trash_step(s, DiskReply::Text(text)) == (
            TrashState { stage: TrashStage::Shared { topdir, uid: uid as u32 }, ..s },
            TrashNext::Do(DiskAction::Stat { path: joined(topdir, encode_utf8(".Trash"@)) }),
        ),
        uid_in(text) is None ==> trash_step(s, DiskReply::Text(text)).1 == TrashNext::Finish(
            Err(
                VfsError::Other {
                    message: "couldn't parse the current user id from /proc/self/status"@,
                },
            ),
        ),
        trash_step(s, DiskReply::Failed(failure)).1 == TrashNext::Finish(
            Err(
                VfsError::Other {
                    message: "couldn't read /proc/self/status: "@ + failure.message,
                },
            ),
        ),
{
}

/// The user's own trash is used if it is a directory, made if it is missing,
/// and else given up: for the one beside the shared trash where it was inside
/// it, for good where it was not.
pub proof fn own_trashes_are_made_when_missing(
    s: TrashState,
    topdir: Seq<u8>,
    site: TrashSiteView,
    stat: DiskStat,
    failure: DiskFailure<Seq<char>>,
)
    requires
        site.topdir == Some(topdir),
    ensures
        ({
            let owned = TrashState { stage: TrashStage::Owned { site }, ..s };
            let make = TrashState { stage: TrashStage::Make { site }, ..s };
            let used = (
                TrashState { stage: TrashStage::Files { site }, ..s },
                TrashNext::Do(
                    DiskAction::CreateDirAll { path: joined(site.trash, encode_utf8("files"@)) },
                ),
            );
            let beside = joined(topdir, encode_utf8(".Trash-"@ + decimal(site.uid as nat)));
            let refused = |next: TrashNext, why: Seq<char>|
                if site.shared {
                    next == TrashNext::Do(DiskAction::Stat { path: beside })
                } else {
                    next == TrashNext::Finish(
                        Err(
                            VfsError::Other {
                                message: "couldn't create a trash directory on "@ + shown(topdir)
                                    + " ("@ + why + ") \u{2014} delete permanently instead"@,
                            },
                        ),
                    )
                };
            &&& stat.is_dir ==> trash_step(owned, DiskReply::Stat(stat)) == used
            &&& !stat.is_dir ==> refused(
                trash_step(owned, DiskReply::Stat(stat)).1,
                shown(site.trash) + " exists and isn't a directory"@,
            )
            &&& failure.kind == IoKind::NotFound ==> trash_step(owned, DiskReply::Failed(failure))
                == (make, TrashNext::Do(DiskAction::CreateDir { path: site.trash }))
            &&& failure.kind != IoKind::NotFound ==> refused(
                trash_step(owned, DiskReply::Failed(failure)).1,
                failure.message,
            )
            &&& trash_step(make, DiskReply::Done) == used
            &&& refused(trash_step(make, DiskReply::Failed(failure)).1, failure.message)
        }),
{
}

/// Both directories of a trash are made before anything is put there. Where
/// one cannot be, the trash beside the shared one is tried instead, or the
/// job fails with the reason.
pub proof fn both_directories_are_made(
    s: TrashState,
    name: Seq<u8>,
    site: TrashSiteView,
    failure: DiskFailure<Seq<char>>,
)
    requires
        file_name_of(s.path) == Some(name),
    ensures
        ({
            let files = TrashState { stage: TrashStage::Files { site }, ..s };
            let info = TrashState { stage: TrashStage::Info { site }, ..s };
            let (files_dir, info_dir) = (
                joined(site.trash, encode_utf8("files"@)),
                joined(site.trash, encode_utf8("info"@)),
            );
            let refused = |next: TrashNext, dir: Seq<u8>|
                match site.topdir {
                    Some(topdir) if site.shared => next == TrashNext::Do(
                        DiskAction::Stat {
                            path: joined(
                                topdir,
                                encode_utf8(".Trash-"@ + decimal(site.uid as nat)),
                            ),
                        },
                    ),
                    _ => next == TrashNext::Finish(
                        Err(io_failure(local_view(dir), failure.kind, failure.message)),
                    ),
                };
            &&& trash_step(files, DiskReply::Done) == (
                info,
                TrashNext::Do(DiskAction::CreateDirAll { path: info_dir }),
            )
            &&& trash_step(info, DiskReply::Done) == (
                TrashState { stage: TrashStage::SlotFile { site, n: 0 }, ..s },
                TrashNext::Do(DiskAction::Exists { path: joined(files_dir, name) }),
            )
            &&& refused(trash_step(files, DiskReply::Failed(failure)).1, files_dir)
            &&& refused(trash_step(info, DiskReply::Failed(failure)).1, info_dir)
        }),
{
}

/// A name that is taken is followed by the same one with a number behind a
/// dot; the record has the name of the file and the ending of a record.
pub proof fn taken_names_are_numbered(trash: Seq<u8>, name: Seq<u8>, n: nat)
    ensures
        slot_file(trash, name, 0) == joined(joined(trash, encode_utf8("files"@)), name),
        slot_info(trash, name, 0) == joined(
            joined(trash, encode_utf8("info"@)),
            name + encode_utf8(".trashinfo"@),
        ),
        n > 0 ==> slot_file(trash, name, n) == joined(
            joined(trash, encode_utf8("files"@)),
            name + seq![0x2Eu8] + encode_utf8(decimal(n)),
        ),
        n > 0 ==> slot_info(trash, name, n) == joined(
            joined(trash, encode_utf8("info"@)),
            name + seq![0x2Eu8] + encode_utf8(decimal(n)) + encode_utf8(".trashinfo"@),
        ),
{
    assert(name.push(DOT) =~= name + seq![0x2Eu8]);
}

/// What a job hands back: where the file and its record are now, and the top
/// of the device that they are on.
pub proof fn trashed_files_are_where_they_were_put(
    s: TrashState,
    name: Seq<u8>,
    site: TrashSiteView,
    n: u32,
)
    requires
        file_name_of(s.path) == Some(name),
        s.stage == (TrashStageView::Move { site, n }),
    ensures
        trash_step(s, DiskReply::Done).1 == TrashNext::Finish(
            Ok(
                TrashId {
                    info_path: slot_info(site.trash, name, n as nat),
                    files_path: slot_file(site.trash, name, n as nat),
                    topdir: site.topdir,
                },
            ),
        ),
{
}

/// The home trash is below the directory of the user's data; a variable that
/// is set says where that is, else it is below home.
pub proof fn the_home_trash_is_below_the_data(set: Seq<u8>, home: Seq<u8>)
    requires
        set.len() > 0,
        home.len() > 0,
    ensures
        forall|h: Option<Seq<u8>>| #[trigger]
            home_trash(Some(set), h) == Some(joined(set, encode_utf8("Trash"@))),
        home_trash(None, Some(home)) == Some(
            joined(joined(home, encode_utf8(".local/share"@)), encode_utf8("Trash"@)),
        ),
        home_trash(Some(Seq::empty()), Some(home)) == home_trash(None, Some(home)),
        home_trash(None, None) is None,
        home_trash(None, Some(Seq::empty())) is None,
{
}

/// The time of a deletion is written as year, month, day, hour, minute and
/// second, in this order.
pub proof fn deletion_dates_are_written_out(days: nat, h: nat, m: nat, sec: nat, secs: u64)
    requires
        h < 24,
        m < 60,
        sec < 60,
        secs == days * 86_400 + h * 3600 + m * 60 + sec,
    ensures
        ({
            let (year, month, day) = date_of(days as int);
            deletion_date(secs) == zero_padded(decimal(year as nat), 4) + "-"@ + zero_padded(
                decimal(month as nat),
                2,
            ) + "-"@ + zero_padded(decimal(day as nat), 2) + "T"@ + zero_padded(decimal(h), 2)
                + ":"@ + zero_padded(decimal(m), 2) + ":"@ + zero_padded(decimal(sec), 2)
        }),
{
    let of_day = h * 3600 + m * 60 + sec;
    assert(secs as int / 86_400 == days && secs as int % 86_400 == of_day) by (nonlinear_arith)
        requires
            secs == days * 86_400 + of_day,
            0 <= of_day < 86_400,
    ;
    assert(of_day / 3600 == h);
    assert(of_day % 3600 / 60 == m);
    assert(of_day % 60 == sec);
}

// ---------------------------------------------------------------------------
// Listing and restoring
// ---------------------------------------------------------------------------

/// What comes of a record. One of another kind of file is passed over; one
/// that cannot be read, says no path or has lost its file gives a warning;
/// any other gives a row with what the record and the file say.
pub proof fn records_become_rows(trash: Seq<u8>, record: TrashRecordView)
    ensures
        ({
            let out = record_outcome(trash, record);
            let target = record_target(trash, record.info_path);
            &&& out is Ignored <==> target is None
            &&& out is Item <==> {
                &&& target is Some
                &&& record.contents matches Some(text) && info_in(text) is Some
                &&& record.stat is Some
            }
            &&& out matches RecordOutcome::Item(row) ==> {
                &&& row.id == (TrashId {
                    info_path: record.info_path,
                    files_path: target->0,
                    topdir: None,
                })
                &&& row.original_path == info_in(record.contents->0)->0.path
                &&& row.deletion_date == info_in(record.contents->0)->0.deletion_date
                &&& row.size == record.stat->0.size
                &&& row.is_symlink == record.stat->0.is_symlink
                &&& row.kind == kind_of(record.stat->0)
            }
            &&& out matches RecordOutcome::Warning(text) ==> {
                let place = shown(record.info_path);
                text == match record.contents {
                    None => "saola-files: couldn't read "@ + place,
                    Some(contents) => if info_in(contents) is None {
                        "saola-files: "@ + place
                            + " isn't a valid .trashinfo file \u{2014} skipping"@
                    } else {
                        "saola-files: "@ + place + " has no matching trashed file at "@ + shown(
                            target->0,
                        ) + " \u{2014} skipping"@
                    },
                }
            }
        }),
{
}

/// A record is about the file of its own name among the trashed files, and
/// only what ends like a record is one.
pub proof fn records_name_their_files(trash: Seq<u8>, info_path: Seq<u8>)
    ensures
        record_target(trash, info_path) is Some <==> (file_name_of(info_path) matches Some(name)
            && name_extension(name) == Some(encode_utf8("trashinfo"@))),
        record_target(trash, info_path) matches Some(path) ==> path == joined(
            joined(trash, encode_utf8("files"@)),
            name_stem(file_name_of(info_path)->0),
        ),
{
}

/// The rows of a trash, and the warnings about it, are those of its records,
/// in order.
pub proof fn rows_follow_the_records(trash: Seq<u8>, list: Seq<TrashRecordView>)
    ensures
        ({
            let outcomes = list.map_values(|r: TrashRecordView| record_outcome(trash, r));
            &&& rows_of(trash, list) == outcomes.filter(
                |o: RecordOutcome<TrashedItemView, Seq<char>>| o is Item,
            ).map_values(|o: RecordOutcome<TrashedItemView, Seq<char>>| o->Item_0)
            &&& warnings_of_records(trash, list) == outcomes.filter(
                |o: RecordOutcome<TrashedItemView, Seq<char>>| o is Warning,
            ).map_values(|o: RecordOutcome<TrashedItemView, Seq<char>>| o->Warning_0)
        }),
    decreases list.len(),
{
    let read = |r: TrashRecordView| record_outcome(trash, r);
    let row = |o: RecordOutcome<TrashedItemView, Seq<char>>| o is Item;
    let warned = |o: RecordOutcome<TrashedItemView, Seq<char>>| o is Warning;
    reveal(Seq::filter);
    let outcomes = list.map_values(read);
    if list.len() > 0 {
        rows_follow_the_records(trash, list.drop_last());
        assert(outcomes.drop_last() =~= list.drop_last().map_values(read));
        assert(outcomes.last() == record_outcome(trash, list.last()));
    } else {
        assert(outcomes =~= Seq::empty());
    }
    assert(rows_of(trash, list) =~= outcomes.filter(row).map_values(
        |o: RecordOutcome<TrashedItemView, Seq<char>>| o->Item_0,
    ));
    assert(warnings_of_records(trash, list) =~= outcomes.filter(warned).map_values(
        |o: RecordOutcome<TrashedItemView, Seq<char>>| o->Warning_0,
    ));
}

/// A trash without records is empty, and one that cannot be read says why.
pub proof fn missing_trashes_are_empty(trash: Seq<u8>, failure: DiskFailure<Seq<char>>)
    ensures
        failure.kind == IoKind::NotFound ==> listed(trash, Err(failure)) == Ok::<
            Seq<TrashedItemView>,
            VfsErrorView,
        >(Seq::empty()),
        failure.kind != IoKind::NotFound ==> listed(trash, Err(failure)) == Err::<
            Seq<TrashedItemView>,
            VfsErrorView,
        >(
            io_failure(
                local_view(joined(trash, encode_utf8("info"@))),
                failure.kind,
                failure.message,
            ),
        ),
{
}

/// A restored item is moved back, then its record is removed, and where it is
/// now is handed out; a record that stays behind only gives a warning.
pub proof fn restored_items_lose_their_record(
    s: RestoreState,
    original: Seq<u8>,
    failure: DiskFailure<Seq<char>>,
)
    ensures
        ({
            let parent = RestoreState { stage: RestoreStage::Parent { original }, ..s };
            let moving = RestoreState { stage: RestoreStage::Move { original }, ..s };
            let clean = RestoreState { stage: RestoreStage::Clean { original }, ..s };
            &&& restore_step(parent, DiskReply::Exists(true)) == (
                moving,
                RestoreNext::Do(DiskAction::Rename { from: s.id.files_path, to: original }),
            )
            &&& parent_of(original) matches Some(dir) ==> restore_step(
                parent,
                DiskReply::Exists(false),
            ).1 == RestoreNext::Finish(
                Restored {
                    outcome: Err(VfsError::NotFound { location: shown(dir) }),
                    warning: None,
                },
            )
            &&& restore_step(moving, DiskReply::Done) == (
                clean,
                RestoreNext::Do(DiskAction::RemoveFile { path: s.id.info_path }),
            )
            &&& restore_step(moving, DiskReply::Failed(failure)).1 == RestoreNext::Finish(
                Restored {
                    outcome: Err(
                        io_failure(
                            local_view(s.id.files_path),
                            failure.kind,
                            failure.message,
                        ),
                    ),
                    warning: None,
                },
            )
            &&& restore_step(clean, DiskReply::Done).1 == RestoreNext::Finish(
                Restored { outcome: Ok(original), warning: None },
            )
            &&& restore_step(clean, DiskReply::Failed(failure)).1 == RestoreNext::Finish(
                Restored {
                    outcome: Ok(original),
                    warning: Some(
                        "saola-files: restored "@ + shown(original)
                            + " but couldn't remove its trash record "@ + shown(s.id.info_path)
                            + ": "@ + failure.message,
                    ),
                },
            )
        }),
{
}

/// The record is read first; without one that can be read and says a path,
/// nothing is moved.
pub proof fn the_record_is_read_first(
    id: TrashIdView,
    text: Seq<char>,
    failure: DiskFailure<Seq<char>>,
)
    ensures
        ({
            let ready = RestoreState { id, stage: RestoreStage::Ready };
            let record = RestoreState { id, stage: RestoreStage::Record };
            &&& restore_step(ready, DiskReply::Start) == (
                record,
                RestoreNext::Do(DiskAction::ReadText { path: id.info_path }),
            )
            &&& restore_step(record, DiskReply::Failed(failure)).1 == RestoreNext::Finish(
                Restored {
                    outcome: Err(
                        io_failure(local_view(id.info_path), failure.kind, failure.message),
                    ),
                    warning: None,
                },
            )
            &&& info_in(text) is None ==> restore_step(record, DiskReply::Text(text)).1
                == RestoreNext::Finish(
                Restored {
                    outcome: Err(
                        VfsError::Other {
                            message: shown(id.info_path) + " isn't a valid .trashinfo file"@,
                        },
                    ),
                    warning: None,
                },
            )
        }),
{
}

// ---------------------------------------------------------------------------
// Reading records and the status of the process
// ---------------------------------------------------------------------------

/// The user is the first number on the first line that begins with `Uid:`.
pub proof fn the_user_is_the_first_number(
    status: Seq<char>,
    k: int,
    blank: char,
    word: Seq<char>,
    rest: Seq<char>,
)
    requires
        0 <= k < lines(status).len(),
        forall|i: int| 0 <= i < k ==> !"Uid:"@.is_prefix_of(#[trigger] lines(status)[i]),
        lines(status)[k] == "Uid:"@ + (seq![blank] + word + rest),
        is_space(blank),
        word.len() > 0,
        forall|i: int| 0 <= i < word.len() ==> !is_space(#[trigger] word[i]),
        rest.len() == 0 || is_space(rest[0]),
    ensures
        uid_in(status) == parsed_unsigned(word, 0xFFFF_FFFF),
{
    let file = lines(status);
    let tail = seq![blank] + word + rest;
    first_field_at(file, "Uid:"@, k);
    let line = file[k];
    assert(line.skip("Uid:"@.len() as int) =~= tail);
    assert(line.take("Uid:"@.len() as int) =~= "Uid:"@);
    assert(tail.skip(1) =~= word + rest);
    assert(tail[0] == blank);
    assert((word + rest)[0] == word[0]);
    assert(!is_space(word[0]));
    assert(trimmed_start(tail) == trimmed_start(tail.skip(1)));
    assert(trimmed_start(word + rest) == word + rest);
    word_len_is(word, rest);
    assert((word + rest).take(word.len() as int) =~= word);
}

proof fn first_field_at(file: Seq<Seq<char>>, key: Seq<char>, k: int)
    requires
        0 <= k < file.len(),
        forall|i: int| 0 <= i < k ==> !key.is_prefix_of(#[trigger] file[i]),
        key.is_prefix_of(file[k]),
    ensures
        first_field(file, key) == Some(file[k].skip(key.len() as int)),
    decreases file.len(),
{
    if k > 0 {
        assert(!key.is_prefix_of(file[0]));
        let more = file.skip(1);
        assert forall|i: int| 0 <= i < k - 1 implies !key.is_prefix_of(#[trigger] more[i]) by {
            assert(more[i] == file[i + 1]);
        }
        first_field_at(more, key, k - 1);
    }
}

proof fn word_len_is(word: Seq<char>, rest: Seq<char>)
    requires
        forall|i: int| 0 <= i < word.len() ==> !is_space(#[trigger] word[i]),
        rest.len() == 0 || is_space(rest[0]),
    ensures
        word_len(word + rest) == word.len(),
    decreases word.len(),
{
    if word.len() == 0 {
        assert(word + rest =~= rest);
    } else {
        let more = word.skip(1);
        assert(!is_space(word[0]));
        assert forall|i: int| 0 <= i < more.len() implies !is_space(#[trigger] more[i]) by {
            assert(more[i] == word[i + 1]);
        }
        word_len_is(more, rest);
        assert((word + rest).skip(1) =~= more + rest);
    }
}

/// A record needs a path, and the last line that gives one counts; a date is
/// not needed.
pub proof fn records_need_a_path(
    contents: Seq<char>,
    file: Seq<Seq<char>>,
    line: Seq<char>,
    key: Seq<char>,
)
    ensures
        info_in(contents) is None <==> last_field(lines(contents), "Path="@) is None,
        info_in(contents) matches Some(info) ==> {
            &&& last_field(lines(contents), "Path="@) matches Some(value) && info.path == unescaped(
                encode_utf8(value),
            )
            &&& last_field(lines(contents), "DeletionDate="@) matches Some(date)
                ==> info.deletion_date == date
            &&& last_field(lines(contents), "DeletionDate="@) is None
                ==> info.deletion_date.len() == 0
        },
        last_field(Seq::empty(), key) is None,
        key.is_prefix_of(trimmed(line)) ==> last_field(file.push(line), key) == Some(
            trimmed(line).skip(key.len() as int),
        ),
        !key.is_prefix_of(trimmed(line)) ==> last_field(file.push(line), key) == last_field(
            file,
            key,
        ),
{
    assert(file.push(line).drop_last() =~= file);
}

/// What is recorded of a path: all of it in the home trash, and what follows
/// the top of its device elsewhere; put back behind the top it gives the path.
pub proof fn recorded_paths_are_relative_to_the_top(
    path: Seq<u8>,
    top: Seq<u8>,
    id: TrashIdView,
    info: TrashInfoView,
    site: TrashSiteView,
    secs: u64,
)
    ensures
        site.topdir is None ==> record_of(path, site, secs).path == path,
        site.topdir == Some(top) ==> record_of(path, site, secs).path == (match stripped(
            path,
            top,
        ) {
            Some(rest) => rest,
            None => path,
        }),
        record_of(path, site, secs).deletion_date == deletion_date(secs),
        id.topdir is None ==> original_of(id, info) == info.path,
        id.topdir == Some(top) ==> original_of(id, info) == joined(top, info.path),
{
}

/// Two identifiers are the same if all their paths are.
pub proof fn identifiers_are_compared_by_path(a: TrashIdView, b: TrashIdView)
    ensures
        same_id(a, b) ==> same_path(a.info_path, b.info_path) && same_path(
            a.files_path,
            b.files_path,
        ) && (a.topdir is Some <==> b.topdir is Some),
        a.topdir is None && b.topdir is None && same_path(a.info_path, b.info_path) && same_path(
            a.files_path,
            b.files_path,
        ) ==> same_id(a, b),
        a.topdir matches Some(x) ==> b.topdir matches Some(y) ==> same_path(
            a.info_path,
            b.info_path,
        ) && same_path(a.files_path, b.files_path) ==> (same_id(a, b) <==> same_path(x, y)),
{
}

/// A name is free if neither a file nor a record has it; a taken one is
/// followed by the next, and after a thousand the job fails. The record of a
/// free name is written with the path and the date, and then the file is
/// moved to that name.
pub proof fn names_are_tried_one_after_the_other(
    s: TrashState,
    name: Seq<u8>,
    site: TrashSiteView,
    n: u32,
    secs: u64,
)
    requires
        file_name_of(s.path) == Some(name),
        n < 1000,
    ensures
        ({
            let at = |stage: TrashStageView| TrashState { stage, ..s };
            let file = at(TrashStage::SlotFile { site, n });
            let record = at(TrashStage::SlotInfo { site, n });
            let next = trash_step(file, DiskReply::Exists(true));
            &&& trash_step(file, DiskReply::Exists(false)) == (
                record,
                TrashNext::Do(DiskAction::Exists { path: slot_info(site.trash, name, n as nat) }),
            )
            &&& trash_step(record, DiskReply::Exists(true)) == next
            &&& n < 999 ==> next == (
                at(TrashStage::SlotFile { site, n: (n + 1) as u32 }),
                TrashNext::Do(
                    DiskAction::Exists { path: slot_file(site.trash, name, (n + 1) as nat) },
                ),
            )
            &&& n == 999 ==> next.1 == TrashNext::Finish(
                Err(
                    VfsError::Other {
                        message: "couldn't find a free trash slot for "@ + shown(name),
                    },
                ),
            )
            &&& trash_step(record, DiskReply::Exists(false)) == (
                at(TrashStage::Time { site, n }),
                TrashNext::Do(DiskAction::Clock),
            )
            &&& trash_step(at(TrashStage::Time { site, n }), DiskReply::Clock(secs)) == (
                at(TrashStage::Write { site, n }),
                TrashNext::Do(
                    DiskAction::WriteNew {
                        path: slot_info(site.trash, name, n as nat),
                        contents: "[Trash Info]\nPath="@ + escaped(
                            recorded_path(s.path, site.topdir),
                        ) + "\nDeletionDate="@ + deletion_date(secs) + "\n"@,
                    },
                ),
            )
            &&& trash_step(at(TrashStage::Write { site, n }), DiskReply::Done) == (
                at(TrashStage::Move { site, n }),
                TrashNext::Do(
                    DiskAction::Rename {
                        from: s.path,
                        to: slot_file(site.trash, name, n as nat),
                    },
                ),
            )
        }),
{
}

/// A path without a last name cannot be trashed.
pub proof fn nameless_paths_are_not_trashed(s: TrashState, site: TrashSiteView)
    requires
        file_name_of(s.path) is None,
    ensures
        trash_step(
            TrashState { stage: TrashStage::Info { site }, ..s },
            DiskReply::Done,
        ).1 == TrashNext::Finish(
            Err(VfsError::Other { message: shown(s.path) + " has no file name to trash"@ }),
        ),
{
}

} // verus!
