//! Removing files for good: one path with everything below it, or all that is
//! in the trash. Links are removed, never followed.
use crate::model::fs::disk::{
    DiskAction, DiskActionView, DiskFailure, DiskReply, DiskReplyView, DiskStat, Next, opt_failure,
    path_err, path_failure,
};
use crate::model::fs::trash::{files_dir, files_dir_of, info_dir, info_dir_of};
use crate::model::vfs::VfsError;
use crate::path::{FsPath, joined, opt_path, paths};
use crate::text::{copy_of, copy_texts, shown, texts};
use vstd::prelude::*;
use vstd::utf8::*;

verus! {

// ---------------------------------------------------------------------------
// One tree
// ---------------------------------------------------------------------------

/// Something that is still to be done.
#[derive(Debug)]
pub enum RemoveTask<P = FsPath, T = String> {
    /// Remove whatever is at a path.
    Visit(P),
    /// Remove a directory that has been emptied.
    RemoveDir(P),
    /// Fail: the listing of a directory broke off here.
    Fail(DiskFailure<T>),
}

/// The model of a [`RemoveTask`].
pub type RemoveTaskView = RemoveTask<Seq<u8>, Seq<char>>;

impl View for RemoveTask {
    type V = RemoveTaskView;

    open spec fn view(&self) -> RemoveTaskView {
        match self {
            RemoveTask::Visit(p) => RemoveTask::Visit(p@),
            RemoveTask::RemoveDir(p) => RemoveTask::RemoveDir(p@),
            RemoveTask::Fail(f) => RemoveTask::Fail(f@),
        }
    }
}

/// The views of a list of tasks.
pub open spec fn tasks(v: Seq<RemoveTask>) -> Seq<RemoveTaskView> {
    Seq::new(v.len(), |i: int| v[i]@)
}

/// What a removal is waiting for.
#[derive(Debug)]
pub enum RemoveStage<P = FsPath> {
    Ready,
    /// The description of a path.
    Stat { path: P },
    /// The listing of a directory.
    List { path: P },
    /// The removal of a single file or directory.
    Unlink { path: P },
    Over,
}

impl View for RemoveStage {
    type V = RemoveStage<Seq<u8>>;

    open spec fn view(&self) -> RemoveStage<Seq<u8>> {
        match self {
            RemoveStage::Ready => RemoveStage::Ready,
            RemoveStage::Stat { path } => RemoveStage::Stat { path: path@ },
            RemoveStage::List { path } => RemoveStage::List { path: path@ },
            RemoveStage::Unlink { path } => RemoveStage::Unlink { path: path@ },
            RemoveStage::Over => RemoveStage::Over,
        }
    }
}

/// What a removal asks for. When it is over it tells what stopped it, if
/// anything did.
pub type RemoveNext = Next<DiskActionView, Option<DiskFailure<Seq<char>>>>;

/// The view of what a removal asks for.
pub open spec fn remove_next(n: Next<DiskAction, Option<DiskFailure>>) -> RemoveNext {
    match n {
        Next::Do(action) => Next::Do(action@),
        Next::Finish(f) => Next::Finish(opt_failure(f)),
        Next::Halt => Next::Halt,
    }
}

/// The state of a removal.
#[verifier::ext_equal]
pub struct RemoveState {
    pub root: Seq<u8>,
    /// What is still to be done, next last.
    pub todo: Seq<RemoveTaskView>,
    pub stage: RemoveStage<Seq<u8>>,
}

/// The removal of a path, before its first step.
pub open spec fn remove_start(root: Seq<u8>) -> RemoveState {
    RemoveState { root, todo: Seq::empty(), stage: RemoveStage::Ready }
}

/// The end of a removal.
pub open spec fn remove_end(s: RemoveState, failure: Option<DiskFailure<Seq<char>>>) -> (
    RemoveState,
    RemoveNext,
) {
    (RemoveState { stage: RemoveStage::Over, ..s }, Next::Finish(failure))
}

/// Turns to the next task.
pub open spec fn next_task(s: RemoveState) -> (RemoveState, RemoveNext) {
    if s.todo.len() == 0 {
        remove_end(s, None)
    } else {
        let rest = RemoveState { todo: s.todo.drop_last(), ..s };
        match s.todo.last() {
            RemoveTask::Visit(path) => (
                RemoveState { stage: RemoveStage::Stat { path }, ..rest },
                Next::Do(DiskAction::Stat { path }),
            ),
            RemoveTask::RemoveDir(path) => (
                RemoveState { stage: RemoveStage::Unlink { path }, ..rest },
                Next::Do(DiskAction::RemoveDir { path }),
            ),
            RemoveTask::Fail(f) => remove_end(rest, Some(f)),
        }
    }
}

/// What is to be done for the entries of a directory, next last.
pub open spec fn visits(list: Seq<Seq<u8>>) -> Seq<RemoveTaskView> {
    Seq::new(list.len(), |i: int| RemoveTask::Visit(list[list.len() - 1 - i]))
}

/// What is to be done for a directory: its entries, then the directory.
pub open spec fn dir_tasks(
    path: Seq<u8>,
    list: Seq<Seq<u8>>,
    cut: Option<DiskFailure<Seq<char>>>,
) -> Seq<RemoveTaskView> {
    seq![
        match cut {
            Some(f) => RemoveTask::Fail(f),
            None => RemoveTask::RemoveDir(path),
        },
    ] + visits(list)
}

/// One step of a removal. The first failure ends it.
pub open spec fn remove_step(s: RemoveState, reply: DiskReplyView) -> (RemoveState, RemoveNext) {
    match (s.stage, reply) {
        (RemoveStage::Ready, DiskReply::Start) => next_task(
            RemoveState { todo: seq![RemoveTask::Visit(s.root)], ..s },
        ),
        (RemoveStage::Stat { path }, DiskReply::Stat(stat)) => if stat.is_dir {
            (
                RemoveState { stage: RemoveStage::List { path }, ..s },
                Next::Do(DiskAction::ListDir { path }),
            )
        } else {
            (
                RemoveState { stage: RemoveStage::Unlink { path }, ..s },
                Next::Do(DiskAction::RemoveFile { path }),
            )
        },
        (RemoveStage::Stat { path }, DiskReply::Failed(f)) => remove_end(s, Some(f)),
        (RemoveStage::List { path }, DiskReply::Listing { paths: list, cut }) => next_task(
            RemoveState { todo: s.todo + dir_tasks(path, list, cut), ..s },
        ),
        (RemoveStage::List { path }, DiskReply::Failed(f)) => remove_end(s, Some(f)),
        (RemoveStage::Unlink { path }, DiskReply::Done) => next_task(s),
        (RemoveStage::Unlink { path }, DiskReply::Failed(f)) => remove_end(s, Some(f)),
        _ => (RemoveState { stage: RemoveStage::Over, ..s }, Next::Halt),
    }
}

/// The removal of one path with everything below it.
#[derive(Debug)]
pub struct RemoveJob {
    root: FsPath,
    todo: Vec<RemoveTask>,
    stage: RemoveStage,
}

impl View for RemoveJob {
    type V = RemoveState;

    closed spec fn view(&self) -> RemoveState {
        RemoveState { root: self.root@, todo: tasks(self.todo@), stage: self.stage@ }
    }
}

impl RemoveJob {
    /// The removal of a path, before its first step.
    pub fn new(root: FsPath) -> (r: RemoveJob)
        ensures
            r@ == remove_start(root@),
    {
        let r = RemoveJob { root, todo: Vec::new(), stage: RemoveStage::Ready };
        assert(tasks(r.todo@) =~= Seq::empty());
        r
    }

    /// The path that is removed.
    pub fn root(&self) -> (r: &FsPath)
        ensures
            r@ == self@.root,
    {
        &self.root
    }

    fn end(&mut self, failure: Option<DiskFailure>) -> (r: Next<DiskAction, Option<DiskFailure>>)
        ensures
            (final(self)@, remove_next(r)) == remove_end(old(self)@, opt_failure(failure)),
    {
        self.stage = RemoveStage::Over;
        Next::Finish(failure)
    }

    fn next_task(&mut self) -> (r: Next<DiskAction, Option<DiskFailure>>)
        ensures
            (final(self)@, remove_next(r)) == next_task(old(self)@),
    {
        if self.todo.len() > 0 {
            proof {
                assert(tasks(self.todo@.drop_last()) =~= tasks(self.todo@).drop_last());
                assert(tasks(self.todo@).last() == self.todo@.last()@);
            }
        }
        match self.todo.pop() {
            None => self.end(None),
            Some(RemoveTask::Visit(path)) => {
                let asked = path.clone();
                self.stage = RemoveStage::Stat { path };
                Next::Do(DiskAction::Stat { path: asked })
            },
            Some(RemoveTask::RemoveDir(path)) => {
                let asked = path.clone();
                self.stage = RemoveStage::Unlink { path };
                Next::Do(DiskAction::RemoveDir { path: asked })
            },
            Some(RemoveTask::Fail(f)) => self.end(Some(f)),
        }
    }

    fn push(&mut self, task: RemoveTask)
        ensures
            final(self)@ == (RemoveState { todo: old(self)@.todo.push(task@), ..old(self)@ }),
    {
        proof {
            assert(tasks(self.todo@.push(task)) =~= tasks(self.todo@).push(task@));
        }
        self.todo.push(task);
    }

    fn push_dir(&mut self, path: FsPath, list: Vec<FsPath>, cut: Option<DiskFailure>)
        ensures
            final(self)@ == (RemoveState {
                todo: old(self)@.todo + dir_tasks(path@, paths(list@), opt_failure(cut)),
                ..old(self)@
            }),
    {
        let ghost start = self@;
        let ghost all = dir_tasks(path@, paths(list@), opt_failure(cut));
        match cut {
            Some(f) => self.push(RemoveTask::Fail(f)),
            None => self.push(RemoveTask::RemoveDir(path)),
        }
        assert(start.todo.push(all[0]) =~= start.todo + all.take(1));
        let mut list = list;
        let ghost names = paths(list@);
        let n = list.len();
        for i in 0..n
            invariant
                n == names.len(),
                list@.len() == n - i,
                names.take(n - i) == paths(list@),
                all.len() == n + 1,
                forall|k: int|
                    0 <= k < n ==> (#[trigger] all[k + 1]) == RemoveTask::<_, Seq<char>>::Visit(
                        names[n - 1 - k],
                    ),
                self@ == (RemoveState { todo: start.todo + all.take(i + 1), ..start }),
        {
            proof {
                assert(names.take(n - i).last() == list@.last()@);
                assert(paths(list@.drop_last()) =~= names.take(n - i - 1));
                assert(all[i + 1] == RemoveTask::<_, Seq<char>>::Visit(names[n - 1 - i]));
                assert((start.todo + all.take(i + 1)).push(all[i + 1]) =~= start.todo + all.take(
                    i + 2,
                ));
            }
            match list.pop() {
                Some(entry) => self.push(RemoveTask::Visit(entry)),
                None => {},
            }
        }
        assert(all.take(all.len() as int) =~= all);
    }

    /// One step: the outcome of the last action gives the next one.
    pub fn step(&mut self, reply: DiskReply) -> (r: Next<DiskAction, Option<DiskFailure>>)
        ensures
            (final(self)@, remove_next(r)) == remove_step(old(self)@, reply@),
    {
        let mut stage = RemoveStage::Over;
        core::mem::swap(&mut stage, &mut self.stage);
        match (stage, reply) {
            (RemoveStage::Ready, DiskReply::Start) => {
                self.stage = RemoveStage::Ready;
                self.todo = Vec::new();
                assert(tasks(self.todo@) =~= Seq::empty());
                let root = self.root.clone();
                self.push(RemoveTask::Visit(root));
                assert(self@.todo =~= seq![RemoveTask::Visit(self@.root)]);
                self.next_task()
            },
            (RemoveStage::Stat { path }, DiskReply::Stat(stat)) => {
                let asked = path.clone();
                if stat.is_dir {
                    self.stage = RemoveStage::List { path };
                    Next::Do(DiskAction::ListDir { path: asked })
                } else {
                    self.stage = RemoveStage::Unlink { path };
                    Next::Do(DiskAction::RemoveFile { path: asked })
                }
            },
            (RemoveStage::Stat { path: _ }, DiskReply::Failed(f)) => self.end(Some(f)),
            (RemoveStage::List { path }, DiskReply::Listing { paths: list, cut }) => {
                let dir = path.clone();
                self.stage = RemoveStage::List { path };
                self.push_dir(dir, list, cut);
                self.next_task()
            },
            (RemoveStage::List { path: _ }, DiskReply::Failed(f)) => self.end(Some(f)),
            (RemoveStage::Unlink { path }, DiskReply::Done) => {
                self.stage = RemoveStage::Unlink { path };
                self.next_task()
            },
            (RemoveStage::Unlink { path: _ }, DiskReply::Failed(f)) => self.end(Some(f)),
            _ => {
                self.stage = RemoveStage::Over;
                Next::Halt
            },
        }
    }
}

/// The job that removes a path for good.
pub fn delete_permanently(path: &FsPath) -> (r: RemoveJob)
    ensures
        r@ == remove_start(path@),
{
    RemoveJob::new(path.clone())
}

/// The wording of what stopped the removal of a path.
pub fn delete_error(path: &FsPath, failure: &DiskFailure) -> (r: VfsError)
    ensures
        r@ == path_failure(path@, failure@),
{
    path_err(path, failure)
}

// ---------------------------------------------------------------------------
// The trash
// ---------------------------------------------------------------------------

/// What an emptying is waiting for.
#[derive(Debug)]
pub enum EmptyStage<J = RemoveJob> {
    Ready,
    /// The listing of a directory of the trash.
    List,
    /// The removal of an entry.
    Remove { job: J },
    Over,
}

impl View for EmptyStage {
    type V = EmptyStage<RemoveState>;

    open spec fn view(&self) -> EmptyStage<RemoveState> {
        match self {
            EmptyStage::Ready => EmptyStage::Ready,
            EmptyStage::List => EmptyStage::List,
            EmptyStage::Remove { job } => EmptyStage::Remove { job: job@ },
            EmptyStage::Over => EmptyStage::Over,
        }
    }
}

/// What an emptying asks for; when it is over it hands out its warnings.
pub type EmptyNext = Next<DiskActionView, Seq<Seq<char>>>;

/// The view of what an emptying asks for.
pub open spec fn empty_next(n: Next<DiskAction, Vec<String>>) -> EmptyNext {
    match n {
        Next::Do(action) => Next::Do(action@),
        Next::Finish(w) => Next::Finish(texts(w@)),
        Next::Halt => Next::Halt,
    }
}

/// The state of an emptying.
#[verifier::ext_equal]
pub struct EmptyState {
    /// The directories still to be emptied, next last.
    pub dirs: Seq<Seq<u8>>,
    /// The entries still to be removed, next last.
    pub entries: Seq<Seq<u8>>,
    pub warnings: Seq<Seq<char>>,
    pub stage: EmptyStage<RemoveState>,
}

/// Turns to the next directory.
pub open spec fn next_dir(s: EmptyState) -> (EmptyState, EmptyNext) {
    if s.dirs.len() == 0 {
        (EmptyState { stage: EmptyStage::Over, ..s }, Next::Finish(s.warnings))
    } else {
        (
            EmptyState { dirs: s.dirs.drop_last(), stage: EmptyStage::List, ..s },
            Next::Do(DiskAction::ListDir { path: s.dirs.last() }),
        )
    }
}

/// Turns to the next entry.
pub open spec fn next_entry(s: EmptyState) -> (EmptyState, EmptyNext) {
    if s.entries.len() == 0 {
        next_dir(s)
    } else {
        let job = remove_step(remove_start(s.entries.last()), DiskReply::Start).0;
        (
            EmptyState { entries: s.entries.drop_last(), stage: EmptyStage::Remove { job }, ..s },
            Next::Do(DiskAction::Stat { path: s.entries.last() }),
        )
    }
}

/// The warning about an entry that could not be removed.
pub open spec fn empty_warning(path: Seq<u8>, failure: DiskFailure<Seq<char>>) -> Seq<char> {
    "saola-files: couldn't remove "@ + shown(path) + " while emptying the trash: "@
        + failure.message
}

/// One step of an emptying. An entry that cannot be removed is skipped with a
/// warning, a directory that cannot be listed without one.
pub open spec fn empty_step(s: EmptyState, reply: DiskReplyView) -> (EmptyState, EmptyNext) {
    match (s.stage, reply) {
        (EmptyStage::Ready, DiskReply::Start) => next_dir(s),
        (EmptyStage::List, DiskReply::Listing { paths: list, cut }) => next_entry(
            EmptyState { entries: list.reverse(), ..s },
        ),
        (EmptyStage::List, DiskReply::Failed(_)) => next_dir(s),
        (EmptyStage::Remove { job }, reply) => match remove_step(job, reply) {
            (job, Next::Do(action)) => (
                EmptyState { stage: EmptyStage::Remove { job }, ..s },
                Next::Do(action),
            ),
            (job, Next::Finish(None)) => next_entry(s),
            (job, Next::Finish(Some(f))) => next_entry(
                EmptyState { warnings: s.warnings.push(empty_warning(job.root, f)), ..s },
            ),
            (job, Next::Halt) => (EmptyState { stage: EmptyStage::Over, ..s }, Next::Halt),
        },
        _ => (EmptyState { stage: EmptyStage::Over, ..s }, Next::Halt),
    }
}

/// The emptying of a trash, before its first step: the files go first, then
/// the records.
pub open spec fn empty_start(trash: Option<Seq<u8>>) -> EmptyState {
    EmptyState {
        dirs: match trash {
            Some(dir) => seq![info_dir(dir), files_dir(dir)],
            None => Seq::empty(),
        },
        entries: Seq::empty(),
        warnings: Seq::empty(),
        stage: EmptyStage::Ready,
    }
}

/// The emptying of a trash.
#[derive(Debug)]
pub struct EmptyJob {
    dirs: Vec<FsPath>,
    entries: Vec<FsPath>,
    warnings: Vec<String>,
    stage: EmptyStage,
}

impl View for EmptyJob {
    type V = EmptyState;

    closed spec fn view(&self) -> EmptyState {
        EmptyState {
            dirs: paths(self.dirs@),
            entries: paths(self.entries@),
            warnings: texts(self.warnings@),
            stage: self.stage@,
        }
    }
}

/// The emptying of a trash.
pub fn empty_from(trash: &FsPath) -> (r: EmptyJob)
    ensures
        r@ == empty_start(Some(trash@)),
{
    let mut dirs: Vec<FsPath> = Vec::new();
    dirs.push(info_dir_of(trash));
    dirs.push(files_dir_of(trash));
    let r = EmptyJob { dirs, entries: Vec::new(), warnings: Vec::new(), stage: EmptyStage::Ready };
    assert(r@ =~= empty_start(Some(trash@)));
    r
}

/// The emptying of the trash of the home directory; without a home there is
/// nothing to do.
pub fn empty(trash: Option<FsPath>) -> (r: EmptyJob)
    ensures
        r@ == empty_start(opt_path(trash)),
{
    match trash {
        Some(dir) => empty_from(&dir),
        None => {
            let r = EmptyJob {
                dirs: Vec::new(),
                entries: Vec::new(),
                warnings: Vec::new(),
                stage: EmptyStage::Ready,
            };
            assert(r@ =~= empty_start(None));
            r
        },
    }
}

/// A list of paths in reverse order.
fn turned(list: Vec<FsPath>) -> (r: Vec<FsPath>)
    ensures
        paths(r@) == paths(list@).reverse(),
{
    let ghost all = paths(list@);
    let mut list = list;
    let mut out: Vec<FsPath> = Vec::new();
    let n = list.len();
    for i in 0..n
        invariant
            n == all.len(),
            list@.len() == n - i,
            out@.len() == i,
            all.take(n - i) == paths(list@),
            forall|j: int| 0 <= j < i ==> (#[trigger] out@[j])@ == all[n - 1 - j],
    {
        proof {
            assert(all.take(n - i).last() == list@.last()@);
            assert(paths(list@.drop_last()) =~= all.take(n - i - 1));
        }
        match list.pop() {
            Some(p) => out.push(p),
            None => {},
        }
    }
    assert(paths(out@) =~= all.reverse());
    out
}

impl EmptyJob {
    fn next_dir(&mut self) -> (r: Next<DiskAction, Vec<String>>)
        ensures
            (final(self)@, empty_next(r)) == next_dir(old(self)@),
    {
        if self.dirs.len() > 0 {
            proof {
                assert(paths(self.dirs@.drop_last()) =~= paths(self.dirs@).drop_last());
            }
        }
        match self.dirs.pop() {
            None => {
                self.stage = EmptyStage::Over;
                Next::Finish(copy_texts(&self.warnings))
            },
            Some(path) => {
                self.stage = EmptyStage::List;
                Next::Do(DiskAction::ListDir { path })
            },
        }
    }

    fn next_entry(&mut self) -> (r: Next<DiskAction, Vec<String>>)
        ensures
            (final(self)@, empty_next(r)) == next_entry(old(self)@),
    {
        if self.entries.len() > 0 {
            proof {
                assert(paths(self.entries@.drop_last()) =~= paths(self.entries@).drop_last());
            }
        }
        match self.entries.pop() {
            None => self.next_dir(),
            Some(path) => {
                let mut job = RemoveJob::new(path.clone());
                let _ = job.step(DiskReply::Start);
                self.stage = EmptyStage::Remove { job };
                Next::Do(DiskAction::Stat { path })
            },
        }
    }

    fn warn(&mut self, path: &FsPath, failure: &DiskFailure)
        ensures
            final(self)@ == (EmptyState {
                warnings: old(self)@.warnings.push(empty_warning(path@, failure@)),
                ..old(self)@
            }),
    {
        let text = copy_of("saola-files: couldn't remove ").concat(path.display().as_str()).concat(
            " while emptying the trash: ",
        ).concat(failure.message.as_str());
        proof {
            assert(texts(self.warnings@.push(text)) =~= texts(self.warnings@).push(text@));
        }
        self.warnings.push(text);
    }

    /// One step: the outcome of the last action gives the next one.
    pub fn step(&mut self, reply: DiskReply) -> (r: Next<DiskAction, Vec<String>>)
        ensures
            (final(self)@, empty_next(r)) == empty_step(old(self)@, reply@),
    {
        let mut stage = EmptyStage::Over;
        core::mem::swap(&mut stage, &mut self.stage);
        match (stage, reply) {
            (EmptyStage::Ready, DiskReply::Start) => {
                self.stage = EmptyStage::Ready;
                self.next_dir()
            },
            (EmptyStage::List, DiskReply::Listing { paths: list, cut: _ }) => {
                self.stage = EmptyStage::List;
                self.entries = turned(list);
                self.next_entry()
            },
            (EmptyStage::List, DiskReply::Failed(_)) => {
                self.stage = EmptyStage::List;
                self.next_dir()
            },
            (EmptyStage::Remove { job: mut removal }, reply) => {
                match removal.step(reply) {
                    Next::Do(action) => {
                        self.stage = EmptyStage::Remove { job: removal };
                        Next::Do(action)
                    },
                    Next::Finish(None) => {
                        self.next_entry()
                    },
                    Next::Finish(Some(f)) => {
                        self.warn(removal.root(), &f);
                        self.next_entry()
                    },
                    Next::Halt => {
                        self.stage = EmptyStage::Over;
                        Next::Halt
                    },
                }
            },
            _ => {
                self.stage = EmptyStage::Over;
                Next::Halt
            },
        }
    }
}

/// Emptying a trash begins with the files and ends with the records; without
/// a trash there is nothing to do.
pub proof fn files_are_emptied_before_records(trash: Seq<u8>, failure: DiskFailure<Seq<char>>)
    ensures
        ({
            let (s, next) = empty_step(empty_start(Some(trash)), DiskReply::Start);
            let (t, second) = empty_step(s, DiskReply::Failed(failure));
            let (u, last) = empty_step(t, DiskReply::Failed(failure));
            &&& next == EmptyNext::Do(
                DiskAction::ListDir { path: joined(trash, encode_utf8("files"@)) },
            )
            &&& second == EmptyNext::Do(
                DiskAction::ListDir { path: joined(trash, encode_utf8("info"@)) },
            )
            &&& last == EmptyNext::Finish(Seq::empty())
        }),
        empty_step(empty_start(None), DiskReply::Start).1 == EmptyNext::Finish(Seq::empty()),
{
}

/// The warning about an entry that stays behind names it and says why.
pub proof fn entries_that_stay_are_named(path: Seq<u8>, failure: DiskFailure<Seq<char>>)
    ensures
        empty_warning(path, failure) == "saola-files: couldn't remove "@ + shown(path)
            + " while emptying the trash: "@ + failure.message,
{
}

/// A removal describes its path first; a directory is listed and removed after
/// its entries, anything else is removed as a file. The first failure ends it
/// and is the outcome.
pub proof fn removals_end_at_the_first_failure(
    s: RemoveState,
    path: Seq<u8>,
    stat: DiskStat,
    failure: DiskFailure<Seq<char>>,
)
    ensures
        ({
            let at = |stage: RemoveStage<Seq<u8>>| RemoveState { stage, ..s };
            &&& remove_step(remove_start(path), DiskReply::Start).1 == RemoveNext::Do(
                DiskAction::Stat { path },
            )
            &&& stat.is_dir ==> remove_step(
                at(RemoveStage::Stat { path }),
                DiskReply::Stat(stat),
            ).1 == RemoveNext::Do(DiskAction::ListDir { path })
            &&& !stat.is_dir ==> remove_step(
                at(RemoveStage::Stat { path }),
                DiskReply::Stat(stat),
            ).1 == RemoveNext::Do(DiskAction::RemoveFile { path })
            &&& remove_step(at(RemoveStage::Stat { path }), DiskReply::Failed(failure)).1
                == RemoveNext::Finish(Some(failure))
            &&& remove_step(at(RemoveStage::List { path }), DiskReply::Failed(failure)).1
                == RemoveNext::Finish(Some(failure))
            &&& remove_step(at(RemoveStage::Unlink { path }), DiskReply::Failed(failure)).1
                == RemoveNext::Finish(Some(failure))
            &&& s.todo.len() == 0 ==> remove_step(
                at(RemoveStage::Unlink { path }),
                DiskReply::Done,
            ).1 == RemoveNext::Finish(None)
            &&& s.todo.len() > 0 && s.todo.last() == RemoveTaskView::RemoveDir(path)
                ==> remove_step(at(RemoveStage::Unlink { path }), DiskReply::Done).1
                == RemoveNext::Do(DiskAction::RemoveDir { path })
            &&& remove_step(
                at(RemoveStage::List { path }),
                DiskReply::Listing { paths: Seq::empty(), cut: Some(failure) },
            ).1 == RemoveNext::Finish(Some(failure))
        }),
{
    let tasks = dir_tasks(path, Seq::empty(), Some(failure));
    assert(tasks =~= seq![RemoveTaskView::Fail(failure)]);
    assert((s.todo + tasks).last() == RemoveTaskView::Fail(failure));
}

} // verus!
