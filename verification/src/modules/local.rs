//! The local file system: how its failures are worded, what a directory entry
//! is, and how raw change notifications become [`DirEvent`]s.
//!
//! Two peculiarities of the notifications are handled here. A renaming comes
//! as two halves that share a cookie and need not be adjacent; the first half
//! waits for the second for a short while and then counts as a removal. And
//! once notifications have been lost, in the kernel or on the way to the
//! listener, the only thing left to say is that the directory has to be
//! listed again.
use crate::model::fs::entry::{EntryKind, FileEntry, permission_bits, permissions_of};
use crate::model::fs::ops::{add_u64, sum_u64};
use crate::model::vfs::{
    Backend, Caps, DirEvent, DirEventView, LOCAL_PATH_BIT, Location, LocationView,
    RENAME_IN_PLACE_BIT, SET_PERMISSIONS_BIT, THUMBNAILS_BIT, TRASH_BIT, VfsError, VfsErrorView,
    WATCH_BIT, caps_include, dir_events, file_scheme, location_text,
};
use crate::path::opt_vec;
use crate::text::copy_bytes;
use crate::time::Timestamp;
use vstd::prelude::*;
use vstd::string::*;

verus! {

/// How long the first half of a renaming waits for the second, in
/// milliseconds.
pub const RENAME_PAIR_WINDOW: u64 = 50;

// ---------------------------------------------------------------------------
// The backend
// ---------------------------------------------------------------------------

/// The backend of the local file system. It holds no state.
#[derive(Debug)]
pub struct LocalBackend;

/// What the local file system can do: everything but a trash of its own and
/// changing permissions.
pub open spec fn local_caps() -> Caps {
    Caps { bits: WATCH_BIT | RENAME_IN_PLACE_BIT | LOCAL_PATH_BIT | THUMBNAILS_BIT }
}

impl LocalBackend {
    pub const SCHEME: &'static str = "file";

    /// The backend.
    pub fn new() -> (r: Self)
        ensures
            r.scheme_view() == file_scheme(),
            r.caps_view() == local_caps(),
    {
        LocalBackend
    }
}

impl Default for LocalBackend {
    fn default() -> (r: Self)
        ensures
            r.scheme_view() == file_scheme(),
            r.caps_view() == local_caps(),
    {
        LocalBackend
    }
}

impl Backend for LocalBackend {
    open spec fn scheme_view(&self) -> Seq<char> {
        file_scheme()
    }

    open spec fn caps_view(&self) -> Caps {
        local_caps()
    }

    fn scheme(&self) -> (r: &'static str) {
        proof {
            reveal_strlit("file");
            assert("file"@ =~= file_scheme());
        }
        "file"
    }

    fn caps(&self) -> (r: Caps) {
        Caps::watch() | Caps::rename_in_place() | Caps::local_path() | Caps::thumbnails()
    }
}

/// The local backend watches and gives out local paths, but does not claim a
/// trash.
pub proof fn local_caps_are_honest()
    ensures
        caps_include(local_caps(), Caps { bits: WATCH_BIT }),
        caps_include(local_caps(), Caps { bits: LOCAL_PATH_BIT }),
        caps_include(local_caps(), Caps { bits: RENAME_IN_PLACE_BIT }),
        caps_include(local_caps(), Caps { bits: THUMBNAILS_BIT }),
        !caps_include(local_caps(), Caps { bits: TRASH_BIT }),
        !caps_include(local_caps(), Caps { bits: SET_PERMISSIONS_BIT }),
{
    assert(1u16 | 4u16 | 16u16 | 32u16 == 53u16) by (bit_vector);
    assert(53u16 & 1 == 1u16 && 53u16 & 16 == 16u16 && 53u16 & 4 == 4u16 && 53u16 & 32 == 32u16
        && 53u16 & 2 == 0u16 && 53u16 & 8 == 0u16) by (bit_vector);
}

// ---------------------------------------------------------------------------
// Failures and entries
// ---------------------------------------------------------------------------

/// The kinds of system failure that have a wording of their own.
#[derive(Debug, Clone, Copy, PartialEq, Eq, Structural)]
pub enum IoKind {
    NotFound,
    PermissionDenied,
    AlreadyExists,
    NotADirectory,
    IsADirectory,
    Other,
}

/// The wording of a system failure.
pub open spec fn io_failure(
    location: LocationView,
    kind: IoKind,
    message: Seq<char>,
) -> VfsErrorView {
    let place = location_text(location);
    match kind {
        IoKind::NotFound => VfsError::NotFound { location: place },
        IoKind::PermissionDenied => VfsError::PermissionDenied { location: place },
        IoKind::AlreadyExists => VfsError::AlreadyExists { location: place },
        IoKind::NotADirectory => VfsError::NotADirectory { location: place },
        IoKind::IsADirectory => VfsError::IsADirectory { location: place },
        IoKind::Other => VfsError::Other { message: place + ": "@ + message },
    }
}

/// Words a system failure; `message` is the system's own text for it.
pub fn io_error(location: &Location, kind: IoKind, message: &str) -> (r: VfsError)
    ensures
        r@ == io_failure(location@, kind, message@),
        r@ is NotFound <==> kind is NotFound,
        r@ is PermissionDenied <==> kind is PermissionDenied,
        r@ is AlreadyExists <==> kind is AlreadyExists,
        r@ is NotADirectory <==> kind is NotADirectory,
        r@ is IsADirectory <==> kind is IsADirectory,
        kind is Other ==> r@ == (VfsErrorView::Other {
            message: location_text(location@) + ": "@ + message@,
        }),
{
    let place = location.to_string();
    match kind {
        IoKind::NotFound => VfsError::NotFound { location: place },
        IoKind::PermissionDenied => VfsError::PermissionDenied { location: place },
        IoKind::AlreadyExists => VfsError::AlreadyExists { location: place },
        IoKind::NotADirectory => VfsError::NotADirectory { location: place },
        IoKind::IsADirectory => VfsError::IsADirectory { location: place },
        IoKind::Other => VfsError::Other { message: place.concat(": ").concat(message) },
    }
}

/// What the system reports of a directory entry, without following links.
#[derive(Debug, Clone, Copy, PartialEq, Eq, Structural)]
pub struct RawStat {
    pub is_symlink: bool,
    pub is_dir: bool,
    pub is_file: bool,
    pub size: u64,
    pub modified: Option<Timestamp>,
    /// The mode with all its bits, those of the kind included.
    pub mode: Option<u32>,
}

/// The kind of an entry. A link is never what it points at.
pub open spec fn kind_of(stat: RawStat) -> EntryKind {
    if stat.is_symlink {
        EntryKind::Other
    } else if stat.is_dir {
        EntryKind::Directory
    } else if stat.is_file {
        EntryKind::File
    } else {
        EntryKind::Other
    }
}

/// The kind of an entry.
pub fn stat_kind(stat: &RawStat) -> (r: EntryKind)
    ensures
        r == kind_of(*stat),
        r == EntryKind::Directory <==> stat.is_dir && !stat.is_symlink,
        r == EntryKind::File <==> stat.is_file && !stat.is_dir && !stat.is_symlink,
{
    if stat.is_symlink {
        EntryKind::Other
    } else if stat.is_dir {
        EntryKind::Directory
    } else if stat.is_file {
        EntryKind::File
    } else {
        EntryKind::Other
    }
}

/// The entry for a name and what the system reports of it.
pub fn entry_from_metadata(name: Vec<u8>, stat: &RawStat) -> (r: FileEntry)
    ensures
        r@ == (FileEntry {
            name: name@,
            kind: kind_of(*stat),
            size: stat.size,
            modified: stat.modified,
            is_symlink: stat.is_symlink,
            mode: permission_bits(stat.mode),
        }),
        r.kind == EntryKind::Directory <==> stat.is_dir && !stat.is_symlink,
        r.kind == EntryKind::File <==> stat.is_file && !stat.is_dir && !stat.is_symlink,
        stat.mode matches Some(bits) ==> r.mode == Some(bits & 0xFFF),
        stat.mode is None ==> r.mode is None,
{
    FileEntry {
        name,
        kind: stat_kind(stat),
        size: stat.size,
        modified: stat.modified,
        is_symlink: stat.is_symlink,
        mode: permissions_of(stat.mode),
    }
}

// ---------------------------------------------------------------------------
// Change notifications
// ---------------------------------------------------------------------------

/// A raw notification. More than one flag may be set.
#[derive(Debug)]
pub struct RawEvent<N = Option<Vec<u8>>> {
    /// Notifications were lost.
    pub overflow: bool,
    /// The watch is gone.
    pub ignored: bool,
    pub moved_from: bool,
    pub moved_to: bool,
    pub create: bool,
    pub delete: bool,
    /// Contents, attributes or times have changed.
    pub changed: bool,
    /// What the two halves of a renaming share.
    pub cookie: u32,
    /// The entry concerned; absent for the directory itself.
    pub name: N,
}

/// The model of a [`RawEvent`].
pub type RawEventView = RawEvent<Option<Seq<u8>>>;

impl View for RawEvent {
    type V = RawEventView;

    open spec fn view(&self) -> RawEventView {
        RawEvent {
            overflow: self.overflow,
            ignored: self.ignored,
            moved_from: self.moved_from,
            moved_to: self.moved_to,
            create: self.create,
            delete: self.delete,
            changed: self.changed,
            cookie: self.cookie,
            name: opt_vec(self.name),
        }
    }
}

/// The first half of a renaming: until when it waits, and for what.
#[derive(Debug)]
pub struct PendingMove<N = Vec<u8>> {
    pub cookie: u32,
    pub name: N,
    pub deadline: u64,
}

/// The model of a [`PendingMove`].
pub type PendingView = PendingMove<Seq<u8>>;

impl View for PendingMove {
    type V = PendingView;

    open spec fn view(&self) -> PendingView {
        PendingMove { cookie: self.cookie, name: self.name@, deadline: self.deadline }
    }
}

/// The views of the waiting halves.
pub open spec fn pendings(v: Seq<PendingMove>) -> Seq<PendingView> {
    Seq::new(v.len(), |i: int| v[i]@)
}

/// The waiting halves with another cookie.
pub open spec fn without_cookie(p: Seq<PendingView>, cookie: u32) -> Seq<PendingView> {
    p.filter(|m: PendingView| m.cookie != cookie)
}

/// The first waiting half with this cookie.
pub open spec fn pending_with(p: Seq<PendingView>, cookie: u32) -> Option<PendingView>
    decreases p.len(),
{
    if p.len() == 0 {
        None
    } else if p[0].cookie == cookie {
        Some(p[0])
    } else {
        pending_with(p.skip(1), cookie)
    }
}

/// When a half that arrives at `now` gives up.
pub open spec fn deadline_from(now: u64) -> u64 {
    sum_u64(now, RENAME_PAIR_WINDOW)
}

/// What a notification comes to.
#[derive(Debug)]
pub enum WatchStep<E = DirEvent> {
    /// Tell the listener.
    Emit(E),
    /// Nothing to tell yet.
    Nothing,
    /// Nothing will come any more.
    Stop,
}

/// The model of a [`WatchStep`].
pub type WatchStepView = WatchStep<DirEventView>;

impl View for WatchStep {
    type V = WatchStepView;

    open spec fn view(&self) -> WatchStepView {
        match self {
            WatchStep::Emit(e) => WatchStep::Emit(e@),
            WatchStep::Nothing => WatchStep::Nothing,
            WatchStep::Stop => WatchStep::Stop,
        }
    }
}

/// What a notification does to the waiting halves, and what it comes to.
pub open spec fn translated(p: Seq<PendingView>, raw: RawEventView, now: u64) -> (
    Seq<PendingView>,
    WatchStepView,
) {
    if raw.overflow {
        (Seq::empty(), WatchStep::Emit(DirEvent::Overflow))
    } else if raw.ignored {
        (p, WatchStep::Stop)
    } else {
        match raw.name {
            None => (p, WatchStep::Nothing),
            Some(name) => if raw.moved_from {
                (
                    without_cookie(p, raw.cookie).push(
                        PendingMove { cookie: raw.cookie, name, deadline: deadline_from(now) },
                    ),
                    WatchStep::Nothing,
                )
            } else if raw.moved_to {
                match pending_with(p, raw.cookie) {
                    Some(m) => (
                        without_cookie(p, raw.cookie),
                        WatchStep::Emit(DirEvent::Renamed { from: m.name, to: name }),
                    ),
                    None => (p, WatchStep::Emit(DirEvent::Created(name))),
                }
            } else if raw.create {
                (p, WatchStep::Emit(DirEvent::Created(name)))
            } else if raw.delete {
                (p, WatchStep::Emit(DirEvent::Removed(name)))
            } else if raw.changed {
                (p, WatchStep::Emit(DirEvent::Changed(name)))
            } else {
                (p, WatchStep::Nothing)
            },
        }
    }
}

/// The halves that have given up by `now`.
pub open spec fn expired(p: Seq<PendingView>, now: u64) -> Seq<PendingView> {
    p.filter(|m: PendingView| m.deadline <= now)
}

/// The halves that go on waiting after `now`.
pub open spec fn waiting(p: Seq<PendingView>, now: u64) -> Seq<PendingView> {
    p.filter(|m: PendingView| m.deadline > now)
}

/// A removal for each of the halves.
pub open spec fn removals(p: Seq<PendingView>) -> Seq<DirEventView> {
    Seq::new(p.len(), |i: int| DirEvent::Removed(p[i].name))
}

/// Turns raw notifications into [`DirEvent`]s and keeps track of whether the
/// listener has missed any.
#[derive(Debug)]
pub struct Watcher {
    pending: Vec<PendingMove>,
    overflowed: bool,
}

impl Watcher {
    /// The waiting halves of renamings, oldest first.
    pub closed spec fn pending_view(&self) -> Seq<PendingView> {
        pendings(self.pending@)
    }

    /// Whether the listener has missed something and not been told yet.
    pub closed spec fn missed(&self) -> bool {
        self.overflowed
    }

    /// A watcher for which nothing has happened yet.
    pub fn new() -> (r: Self)
        ensures
            r.pending_view() == Seq::<PendingView>::empty(),
            !r.missed(),
    {
        let r = Watcher { pending: Vec::new(), overflowed: false };
        assert(r.pending_view() =~= Seq::empty());
        r
    }

    /// The earliest time at which a waiting half gives up.
    pub fn next_deadline(&self) -> (r: Option<u64>)
        ensures
            r is Some <==> self.pending_view().len() > 0,
            r matches Some(at) ==> (exists|i: int|
                0 <= i < self.pending_view().len() && (#[trigger] self.pending_view()[i]).deadline
                    == at) && (forall|i: int|
                0 <= i < self.pending_view().len() ==> (#[trigger] self.pending_view()[i]).deadline
                    >= at),
    {
        if self.pending.len() == 0 {
            return None;
        }
        let mut best: u64 = self.pending[0].deadline;
        let ghost mut at: int = 0;
        for i in 1..self.pending.len()
            invariant
                self.pending@.len() > 0,
                0 <= at < self.pending@.len(),
                self.pending@[at].deadline == best,
                forall|j: int| 0 <= j < i ==> (#[trigger] self.pending@[j]).deadline >= best,
        {
            if self.pending[i].deadline < best {
                best = self.pending[i].deadline;
                proof {
                    at = i as int;
                }
            }
        }
        assert(self.pending_view()[at].deadline == best);
        Some(best)
    }

    /// Gives up on the halves whose time has come by `now`: each counts as a
    /// removal.
    pub fn expire(&mut self, now: u64) -> (r: Vec<DirEvent>)
        ensures
            dir_events(r@) == removals(expired(old(self).pending_view(), now)),
            final(self).pending_view() == waiting(old(self).pending_view(), now),
            final(self).missed() == old(self).missed(),
    {
        let mut rest: Vec<PendingMove> = Vec::new();
        let mut out: Vec<DirEvent> = Vec::new();
        let ghost all = self.pending_view();
        let ghost due = |m: PendingView| m.deadline <= now;
        let ghost stay = |m: PendingView| m.deadline > now;
        assert(dir_events(out@) =~= removals(all.take(0).filter(due)));
        assert(pendings(rest@) =~= all.take(0).filter(stay));
        for i in 0..self.pending.len()
            invariant
                all == pendings(self.pending@),
                self.overflowed == old(self).overflowed,
                due == (|m: PendingView| m.deadline <= now),
                stay == (|m: PendingView| m.deadline > now),
                dir_events(out@) == removals(all.take(i as int).filter(due)),
                pendings(rest@) == all.take(i as int).filter(stay),
        {
            let m = &self.pending[i];
            let ghost before = dir_events(out@);
            let ghost kept = pendings(rest@);
            proof {
                assert(all.take(i + 1) =~= all.take(i as int).push(all[i as int]));
                all.take(i as int).lemma_filter_push(all[i as int], due);
                all.take(i as int).lemma_filter_push(all[i as int], stay);
            }
            let name = copy_bytes(m.name.as_slice());
            if m.deadline <= now {
                out.push(DirEvent::Removed(name));
                assert(dir_events(out@) =~= before.push(DirEvent::Removed(all[i as int].name)));
                assert(dir_events(out@) =~= removals(all.take(i + 1).filter(due)));
            } else {
                rest.push(PendingMove { cookie: m.cookie, name, deadline: m.deadline });
                assert(pendings(rest@) =~= kept.push(all[i as int]));
            }
        }
        assert(all.take(all.len() as int) =~= all);
        self.pending = rest;
        out
    }

    fn drop_cookie(&mut self, cookie: u32)
        ensures
            final(self).pending_view() == without_cookie(old(self).pending_view(), cookie),
            final(self).missed() == old(self).missed(),
    {
        let mut rest: Vec<PendingMove> = Vec::new();
        let ghost all = self.pending_view();
        let ghost other = |m: PendingView| m.cookie != cookie;
        assert(pendings(rest@) =~= all.take(0).filter(other));
        for i in 0..self.pending.len()
            invariant
                all == pendings(self.pending@),
                self.overflowed == old(self).overflowed,
                other == (|m: PendingView| m.cookie != cookie),
                pendings(rest@) == all.take(i as int).filter(other),
        {
            let m = &self.pending[i];
            let ghost kept = pendings(rest@);
            proof {
                assert(all.take(i + 1) =~= all.take(i as int).push(all[i as int]));
                all.take(i as int).lemma_filter_push(all[i as int], other);
            }
            if m.cookie != cookie {
                let name = copy_bytes(m.name.as_slice());
                rest.push(PendingMove { cookie: m.cookie, name, deadline: m.deadline });
                assert(pendings(rest@) =~= kept.push(all[i as int]));
            }
        }
        assert(all.take(all.len() as int) =~= all);
        self.pending = rest;
    }

    fn find_cookie(&self, cookie: u32) -> (r: Option<usize>)
        ensures
            match r {
                Some(i) => i < self.pending_view().len() && pending_with(
                    self.pending_view(),
                    cookie,
                ) == Some(self.pending_view()[i as int]),
                None => pending_with(self.pending_view(), cookie) is None,
            },
    {
        let ghost all = self.pending_view();
        assert(all.skip(0) =~= all);
        for i in 0..self.pending.len()
            invariant
                all == pendings(self.pending@),
                pending_with(all, cookie) == pending_with(all.skip(i as int), cookie),
        {
            assert(all.skip(i as int)[0] == all[i as int]);
            assert(all.skip(i as int).skip(1) =~= all.skip(i + 1));
            if self.pending[i].cookie == cookie {
                return Some(i);
            }
        }
        None
    }

    /// Takes in a raw notification that arrived at `now`.
    pub fn translate(&mut self, raw: RawEvent, now: u64) -> (r: WatchStep)
        ensures
            (final(self).pending_view(), r@) == translated(old(self).pending_view(), raw@, now),
            final(self).missed() == old(self).missed(),
    {
        if raw.overflow {
            self.pending = Vec::new();
            assert(self.pending_view() =~= Seq::empty());
            return WatchStep::Emit(DirEvent::Overflow);
        }
        if raw.ignored {
            return WatchStep::Stop;
        }
        let RawEvent { name, cookie, moved_from, moved_to, create, delete, changed, .. } = raw;
        match name {
            None => WatchStep::Nothing,
            Some(name) => {
                if moved_from {
                    self.drop_cookie(cookie);
                    let m = PendingMove { cookie, name, deadline: add_u64(now, RENAME_PAIR_WINDOW) };
                    proof {
                        assert(pendings(self.pending@.push(m)) =~= pendings(self.pending@).push(m@));
                    }
                    self.pending.push(m);
                    WatchStep::Nothing
                } else if moved_to {
                    match self.find_cookie(cookie) {
                        Some(i) => {
                            let from = copy_bytes(self.pending[i].name.as_slice());
                            self.drop_cookie(cookie);
                            WatchStep::Emit(DirEvent::Renamed { from, to: name })
                        },
                        None => WatchStep::Emit(DirEvent::Created(name)),
                    }
                } else if create {
                    WatchStep::Emit(DirEvent::Created(name))
                } else if delete {
                    WatchStep::Emit(DirEvent::Removed(name))
                } else if changed {
                    WatchStep::Emit(DirEvent::Changed(name))
                } else {
                    WatchStep::Nothing
                }
            },
        }
    }

    /// What to hand to the listener for `event`: the event itself, or the news
    /// that something was missed, as long as that has not got through.
    pub fn offer(&self, event: DirEvent) -> (r: DirEvent)
        ensures
            r@ == (if self.missed() {
                DirEventView::Overflow
            } else {
                event@
            }),
    {
        if self.overflowed {
            DirEvent::Overflow
        } else {
            event
        }
    }

    /// Takes in whether the last offer got through.
    pub fn offered(&mut self, delivered: bool)
        ensures
            final(self).missed() == !delivered,
            final(self).pending_view() == old(self).pending_view(),
    {
        self.overflowed = !delivered;
    }
}

// ---------------------------------------------------------------------------
// Laws
// ---------------------------------------------------------------------------

/// Whether a notification is the first half of a renaming of `name`.
pub open spec fn is_first_half(raw: RawEventView, cookie: u32, name: Seq<u8>) -> bool {
    !raw.overflow && !raw.ignored && raw.moved_from && raw.cookie == cookie && raw.name == Some(
        name,
    )
}

/// Whether a notification is the second half of a renaming to `name`.
pub open spec fn is_second_half(raw: RawEventView, cookie: u32, name: Seq<u8>) -> bool {
    !raw.overflow && !raw.ignored && !raw.moved_from && raw.moved_to && raw.cookie == cookie
        && raw.name == Some(name)
}

proof fn pending_with_pushed(p: Seq<PendingView>, m: PendingView)
    requires
        forall|i: int| 0 <= i < p.len() ==> (#[trigger] p[i]).cookie != m.cookie,
    ensures
        pending_with(p.push(m), m.cookie) == Some(m),
    decreases p.len(),
{
    let q = p.push(m);
    if p.len() > 0 {
        assert(q[0] == p[0]);
        assert(q.skip(1) =~= p.skip(1).push(m));
        assert forall|i: int| 0 <= i < p.skip(1).len() implies (#[trigger] p.skip(1)[i]).cookie
            != m.cookie by {
            assert(p.skip(1)[i] == p[i + 1]);
        }
        pending_with_pushed(p.skip(1), m);
    } else {
        assert(q[0] == m);
    }
}

/// Two halves of one renaming come out as one event, and leave nothing
/// waiting that was not waiting before.
pub proof fn halves_pair_up(
    p: Seq<PendingView>,
    first: RawEventView,
    second: RawEventView,
    cookie: u32,
    from: Seq<u8>,
    to: Seq<u8>,
    t1: u64,
    t2: u64,
)
    requires
        is_first_half(first, cookie, from),
        is_second_half(second, cookie, to),
    ensures
        ({
            let (q, s1) = translated(p, first, t1);
            let (r, s2) = translated(q, second, t2);
            &&& s1 is Nothing
            &&& s2 == WatchStepView::Emit(DirEvent::Renamed { from, to })
            &&& r == without_cookie(p, cookie)
        }),
{
    let other = |m: PendingView| m.cookie != cookie;
    let kept = without_cookie(p, cookie);
    let m = PendingMove { cookie, name: from, deadline: deadline_from(t1) };
    broadcast use vstd::seq_lib::group_filter_ensures;

    assert forall|i: int| 0 <= i < kept.len() implies (#[trigger] kept[i]).cookie != m.cookie by {
        assert(other(kept[i]));
    }
    pending_with_pushed(kept, m);
    kept.lemma_filter_push(m, other);
    filter_all(kept, other);
}

proof fn filter_all(s: Seq<PendingView>, f: spec_fn(PendingView) -> bool)
    requires
        forall|i: int| 0 <= i < s.len() ==> #[trigger] f(s[i]),
    ensures
        s.filter(f) == s,
    decreases s.len(),
{
    reveal(Seq::filter);
    if s.len() > 0 {
        assert forall|i: int| 0 <= i < s.drop_last().len() implies #[trigger] f(s.drop_last()[i]) by {
            assert(s.drop_last()[i] == s[i]);
        }
        filter_all(s.drop_last(), f);
        assert(s.drop_last().push(s.last()) =~= s);
        assert(f(s[s.len() - 1]));
    }
}

proof fn filter_none(s: Seq<PendingView>, f: spec_fn(PendingView) -> bool)
    requires
        forall|i: int| 0 <= i < s.len() ==> !#[trigger] f(s[i]),
    ensures
        s.filter(f) == Seq::<PendingView>::empty(),
    decreases s.len(),
{
    reveal(Seq::filter);
    if s.len() > 0 {
        assert forall|i: int| 0 <= i < s.drop_last().len() implies !#[trigger] f(
            s.drop_last()[i],
        ) by {
            assert(s.drop_last()[i] == s[i]);
        }
        filter_none(s.drop_last(), f);
        assert(!f(s[s.len() - 1]));
    }
}

/// A first half without its second counts as a removal once its time has
/// come, and not before.
pub proof fn lone_half_is_a_removal(raw: RawEventView, cookie: u32, name: Seq<u8>, at: u64, now: u64)
    requires
        is_first_half(raw, cookie, name),
    ensures
        ({
            let q = translated(Seq::empty(), raw, at).0;
            if now >= deadline_from(at) {
                removals(expired(q, now)) == seq![DirEventView::Removed(name)] && waiting(q, now)
                    == Seq::<PendingView>::empty()
            } else {
                removals(expired(q, now)) == Seq::<DirEventView>::empty() && waiting(q, now) == q
            }
        }),
{
    let due = |m: PendingView| m.deadline <= now;
    let stay = |m: PendingView| m.deadline > now;
    let empty = Seq::<PendingView>::empty();
    filter_none(empty, |m: PendingView| m.cookie != cookie);
    let q = translated(empty, raw, at).0;
    let m = PendingMove { cookie, name, deadline: deadline_from(at) };
    assert(q =~= seq![m]);
    if now >= deadline_from(at) {
        filter_all(q, due);
        filter_none(q, stay);
        assert(removals(q) =~= seq![DirEventView::Removed(name)]);
    } else {
        filter_none(q, due);
        filter_all(q, stay);
        assert(removals(empty) =~= Seq::<DirEventView>::empty());
    }
}

/// A second half without its first is a creation, told at once.
pub proof fn lone_second_half_is_a_creation(
    p: Seq<PendingView>,
    raw: RawEventView,
    cookie: u32,
    name: Seq<u8>,
    now: u64,
)
    requires
        is_second_half(raw, cookie, name),
        pending_with(p, cookie) is None,
    ensures
        translated(p, raw, now) == (p, WatchStepView::Emit(DirEvent::Created(name))),
{
}

/// Giving up loses no half: each one either goes on waiting or is told as a
/// removal.
pub proof fn expiry_loses_nothing(p: Seq<PendingView>, now: u64, m: PendingView)
    requires
        p.contains(m),
    ensures
        waiting(p, now).contains(m) || expired(p, now).contains(m),
{
    let i = choose|i: int| 0 <= i < p.len() && p[i] == m;
    if m.deadline <= now {
        p.lemma_filter_contains(|m: PendingView| m.deadline <= now, i);
    } else {
        p.lemma_filter_contains(|m: PendingView| m.deadline > now, i);
    }
}

/// Every failure but one of no kind of its own is told by its kind and names
/// the place that it is about.
pub proof fn failures_name_their_place(location: LocationView, kind: IoKind, message: Seq<char>)
    ensures
        ({
            let e = io_failure(location, kind, message);
            let place = location_text(location);
            &&& kind is NotFound ==> e == (VfsErrorView::NotFound { location: place })
            &&& kind is PermissionDenied ==> e == (VfsErrorView::PermissionDenied {
                location: place,
            })
            &&& kind is AlreadyExists ==> e == (VfsErrorView::AlreadyExists { location: place })
            &&& kind is NotADirectory ==> e == (VfsErrorView::NotADirectory { location: place })
            &&& kind is IsADirectory ==> e == (VfsErrorView::IsADirectory { location: place })
            &&& kind is Other ==> e == (VfsErrorView::Other { message: place + ": "@ + message })
        }),
{
}

/// What is told of an entry follows from what happened to it, and lost
/// notifications outrank everything: then nothing waits any more and the
/// directory has to be listed again. Once the watch is gone nothing follows.
pub proof fn events_say_what_happened(p: Seq<PendingView>, raw: RawEventView, now: u64)
    ensures
        ({
            let (rest, step) = translated(p, raw, now);
            let alone = !raw.overflow && !raw.ignored && !raw.moved_from && !raw.moved_to;
            &&& raw.overflow ==> rest.len() == 0 && step == WatchStepView::Emit(DirEvent::Overflow)
            &&& step == WatchStepView::Emit(DirEvent::Overflow) ==> raw.overflow
            &&& step is Stop <==> raw.ignored && !raw.overflow
            &&& raw.name is None && !raw.overflow && !raw.ignored ==> step is Nothing && rest == p
            &&& raw.name matches Some(name) ==> {
                &&& alone && raw.create ==> rest == p && step == WatchStepView::Emit(
                    DirEvent::Created(name),
                )
                &&& alone && raw.delete && !raw.create ==> rest == p && step
                    == WatchStepView::Emit(DirEvent::Removed(name))
                &&& alone && raw.changed && !raw.create && !raw.delete ==> rest == p && step
                    == WatchStepView::Emit(DirEvent::Changed(name))
            }
            &&& alone && !raw.create && !raw.delete && !raw.changed ==> step is Nothing && rest
                == p
        }),
{
}

/// The first half of a renaming waits for fifty milliseconds.
pub proof fn halves_wait_for_fifty_milliseconds(
    p: Seq<PendingView>,
    raw: RawEventView,
    cookie: u32,
    name: Seq<u8>,
    now: u64,
)
    requires
        is_first_half(raw, cookie, name),
        now <= u64::MAX - 50,
    ensures
        ({
            let (rest, step) = translated(p, raw, now);
            &&& step is Nothing
            &&& rest.len() > 0
            &&& rest.last() == (PendingMove { cookie, name, deadline: (now + 50) as u64 })
        }),
{
}

} // verus!
