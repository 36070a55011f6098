//! Remote connections: the pool of those that are open, what a connection
//! attempt asks and reports, and the files fetched for opening.
use crate::model::vfs::{
    Location, LocationView, VfsError, VfsErrorView, decoded_root, location_text, same_location,
};
use crate::path::{
    FsPath, SEP, components_of, equal_paths, file_name_of, joined, opt_path, same_path,
};
use crate::text::{
    bytes_of, concat_bytes, copy_of, decimal, decimal_of, decode_of_encode, is_digit, lossy,
    same_opt, same_text, shown, value_of_decimal,
};
use vstd::prelude::*;
use vstd::string::*;
use vstd::utf8::*;

verus! {

/// How long a prompt waits for its answer, in seconds.
pub const PROMPT_TIMEOUT: u64 = 120;

/// Identifies one connection attempt.
#[derive(Debug, Clone, Copy, PartialEq, Eq, Hash, Structural)]
pub struct ConnectId(u64);

impl ConnectId {
    /// The number behind the identifier.
    pub closed spec fn number(self) -> nat {
        self.0 as nat
    }
}

/// Hands out [`ConnectId`]s in increasing order.
#[derive(Debug)]
pub struct ConnectIdSource(u64);

impl ConnectIdSource {
    /// How many identifiers have been handed out.
    pub closed spec fn issued(&self) -> nat {
        self.0 as nat
    }

    /// The next identifier: greater than every one handed out before.
    pub fn allocate(&mut self) -> (r: ConnectId)
        requires
            old(self).issued() < u64::MAX,
        ensures
            r.number() == old(self).issued() + 1,
            final(self).issued() == old(self).issued() + 1,
    {
        self.0 = self.0 + 1;
        ConnectId(self.0)
    }
}

impl Default for ConnectIdSource {
    fn default() -> (r: Self)
        ensures
            r.issued() == 0,
    {
        ConnectIdSource(0)
    }
}

/// What is asked about a server that is not known yet.
#[derive(Debug)]
pub struct HostKeyPrompt<S = String> {
    pub host: S,
    pub port: u16,
    pub key_type: S,
    pub fingerprint: S,
}

impl View for HostKeyPrompt {
    type V = HostKeyPrompt<Seq<char>>;

    open spec fn view(&self) -> HostKeyPrompt<Seq<char>> {
        HostKeyPrompt {
            host: self.host@,
            port: self.port,
            key_type: self.key_type@,
            fingerprint: self.fingerprint@,
        }
    }
}

/// Which secret is asked for.
#[derive(Debug)]
pub enum AuthStage<P = FsPath, S = String> {
    /// The passphrase of a key file; no answer means to go on without it.
    KeyPassphrase { key_path: P },
    /// The password of a user; no answer ends the attempt.
    Password { user: S },
}

/// The model of an [`AuthStage`].
pub type AuthStageView = AuthStage<Seq<u8>, Seq<char>>;

impl View for AuthStage {
    type V = AuthStageView;

    open spec fn view(&self) -> AuthStageView {
        match self {
            AuthStage::KeyPassphrase { key_path } => AuthStage::KeyPassphrase {
                key_path: key_path@,
            },
            AuthStage::Password { user } => AuthStage::Password { user: user@ },
        }
    }
}

/// What a connection attempt reports. Every event has to be delivered.
#[derive(Debug)]
pub enum ConnectEvent<S = String, P = FsPath, E = VfsError> {
    HostKeyPrompt { prompt: HostKeyPrompt<S> },
    AuthPrompt { stage: AuthStage<P, S> },
    /// The connection is in the pool.
    Connected,
    Failed(E),
}

/// The model of a [`ConnectEvent`].
pub type ConnectEventView = ConnectEvent<Seq<char>, Seq<u8>, VfsErrorView>;

impl View for ConnectEvent {
    type V = ConnectEventView;

    open spec fn view(&self) -> ConnectEventView {
        match self {
            ConnectEvent::HostKeyPrompt { prompt } => ConnectEvent::HostKeyPrompt {
                prompt: prompt@,
            },
            ConnectEvent::AuthPrompt { stage } => ConnectEvent::AuthPrompt { stage: stage@ },
            ConnectEvent::Connected => ConnectEvent::Connected,
            ConnectEvent::Failed(e) => ConnectEvent::Failed(e@),
        }
    }
}

/// One connection attempt.
#[derive(Debug)]
pub struct ConnectRequest {
    pub id: ConnectId,
    pub location: Location,
    /// Whether cancellation has been requested.
    pub cancel: bool,
}

impl ConnectRequest {
    /// An attempt that nobody has cancelled.
    pub fn new(id: ConnectId, location: Location) -> (r: Self)
        ensures
            r.id == id,
            r.location == location,
            !r.cancel,
    {
        ConnectRequest { id, location, cancel: false }
    }

    /// Requests cancellation; the attempt notices before its next step.
    pub fn request_cancel(&mut self)
        ensures
            final(self).cancel,
            final(self).id == old(self).id,
            final(self).location == old(self).location,
    {
        self.cancel = true;
    }

    /// Whether cancellation has been requested.
    pub fn is_cancelled(&self) -> (r: bool)
        ensures
            r == self.cancel,
    {
        self.cancel
    }
}

/// Hashes by identifier alone.
impl std::hash::Hash for ConnectRequest {
    fn hash<H: std::hash::Hasher>(&self, state: &mut H) {
        self.id.0.hash(state);
    }
}

// ---------------------------------------------------------------------------
// The pool
// ---------------------------------------------------------------------------

/// What a connection is filed under: the scheme and the authority.
pub type PoolKeyView = (Seq<char>, Seq<char>);

/// The key of a location; local ones have none.
pub open spec fn pool_key_of(location: LocationView) -> Option<PoolKeyView> {
    match location.authority {
        Some(authority) => Some((location.scheme, authority)),
        None => None,
    }
}

/// What a fetched file is filed under: the location up to the spelling of its
/// path.
pub type DownloadKeyView = (Seq<char>, Option<Seq<char>>, Seq<Seq<u8>>);

/// The key of a fetched file.
pub open spec fn download_key_of(location: LocationView) -> DownloadKeyView {
    (location.scheme, location.authority, components_of(location.path))
}

/// The connections of a pool. A later one replaces an earlier one with the
/// same key.
pub open spec fn pool_map<B>(pool: Seq<(String, String, B)>) -> Map<PoolKeyView, B>
    decreases pool.len(),
{
    if pool.len() == 0 {
        Map::empty()
    } else {
        let last = pool.last();
        pool_map(pool.drop_last()).insert((last.0@, last.1@), last.2)
    }
}

/// The files fetched so far. A later one replaces an earlier one.
pub open spec fn download_map(v: Seq<(Location, FsPath)>) -> Map<DownloadKeyView, Seq<u8>>
    decreases v.len(),
{
    if v.len() == 0 {
        Map::empty()
    } else {
        download_map(v.drop_last()).insert(download_key_of(v.last().0@), v.last().1@)
    }
}

/// The open connections and the fetched files. The parameter is the backend
/// that a connection gives.
#[derive(Debug)]
pub struct RemoteManager<B> {
    pool: Vec<(String, String, B)>,
    downloads: Vec<(Location, FsPath)>,
    issued: u64,
}

/// How a file is to be made available locally.
#[derive(Debug)]
pub enum Download<P = FsPath> {
    /// It has been fetched before.
    Cached { path: P },
    /// It has to be fetched to `dest`.
    Fetch { dest: P },
}

impl View for Download {
    type V = Download<Seq<u8>>;

    open spec fn view(&self) -> Download<Seq<u8>> {
        match self {
            Download::Cached { path } => Download::Cached { path: path@ },
            Download::Fetch { dest } => Download::Fetch { dest: dest@ },
        }
    }
}

/// The name of the local copy of a remote file. The number makes it different
/// from the names of other copies.
pub open spec fn download_name(location: LocationView, pid: nat, number: nat) -> Seq<char> {
    let authority = match location.authority {
        Some(a) => a,
        None => "remote"@,
    };
    let name = match file_name_of(location.path) {
        Some(n) => shown(n),
        None => "download"@,
    };
    "saola-files-"@ + decimal(pid) + "-"@ + decimal(number) + "-"@ + authority + "-"@ + name
}

/// The place of the local copy of a remote file.
pub open spec fn download_path(
    temp_dir: Seq<u8>,
    location: LocationView,
    pid: nat,
    number: nat,
) -> Seq<u8> {
    joined(temp_dir, encode_utf8(download_name(location, pid, number)))
}

/// Whether a path is that of a fetched file.
pub open spec fn is_copy(fetched: Map<DownloadKeyView, Seq<u8>>, path: Seq<u8>) -> bool {
    exists|k: DownloadKeyView|
        fetched.dom().contains(k) && same_path(#[trigger] fetched[k], path)
}

/// The first number from `number` on that leads to no fetched file.
pub open spec fn free_number(
    fetched: Map<DownloadKeyView, Seq<u8>>,
    temp_dir: Seq<u8>,
    location: LocationView,
    pid: nat,
    number: nat,
) -> nat
    decreases u64::MAX - number,
{
    if number >= u64::MAX || !is_copy(fetched, download_path(temp_dir, location, pid, number)) {
        number
    } else {
        free_number(fetched, temp_dir, location, pid, number + 1)
    }
}

/// Where the local copy of a file is or goes, and the number that the next one
/// is tried under. A copy that is still there is used again; a new one goes to
/// the first free place.
pub open spec fn planned_download(
    fetched: Map<DownloadKeyView, Seq<u8>>,
    next: nat,
    location: LocationView,
    cached_exists: bool,
    temp_dir: Seq<u8>,
    pid: nat,
) -> (Download<Seq<u8>>, nat) {
    let key = download_key_of(location);
    let number = free_number(fetched, temp_dir, location, pid, next);
    if fetched.dom().contains(key) && cached_exists {
        (Download::Cached { path: fetched[key] }, next)
    } else {
        (
            Download::Fetch { dest: download_path(temp_dir, location, pid, number) },
            if number < u64::MAX {
                number + 1
            } else {
                number
            },
        )
    }
}

/// The fetched files after one more has been fetched. What was at its place
/// is there no longer.
pub open spec fn with_copy(
    fetched: Map<DownloadKeyView, Seq<u8>>,
    key: DownloadKeyView,
    path: Seq<u8>,
) -> Map<DownloadKeyView, Seq<u8>> {
    Map::new(
        |k: DownloadKeyView| fetched.dom().contains(k) && !same_path(fetched[k], path),
        |k: DownloadKeyView| fetched[k],
    ).insert(key, path)
}

/// How the writing of a local copy went.
#[derive(Debug)]
pub enum WriteOutcome<S = String> {
    Written,
    /// The system refused it.
    Failed { message: S },
    /// The writer itself broke down.
    Broken { message: S },
}

impl View for WriteOutcome {
    type V = WriteOutcome<Seq<char>>;

    open spec fn view(&self) -> WriteOutcome<Seq<char>> {
        match self {
            WriteOutcome::Written => WriteOutcome::Written,
            WriteOutcome::Failed { message } => WriteOutcome::Failed { message: message@ },
            WriteOutcome::Broken { message } => WriteOutcome::Broken { message: message@ },
        }
    }
}

/// The failure of a fetch whose local copy could not be written.
pub open spec fn download_failure(
    location: LocationView,
    outcome: WriteOutcome<Seq<char>>,
) -> VfsErrorView {
    match outcome {
        WriteOutcome::Broken { message } => VfsError::Other {
            message: "internal error downloading "@ + location_text(location) + ": "@ + message,
        },
        WriteOutcome::Failed { message } => VfsError::Other {
            message: "downloading "@ + location_text(location) + " to a temp file failed: "@
                + message,
        },
        WriteOutcome::Written => VfsError::Other { message: Seq::empty() },
    }
}

/// The bytes of a file from the chunks that were read, or the first failure.
pub open spec fn gathered(chunks: Seq<Result<Seq<u8>, VfsErrorView>>) -> Result<
    Seq<u8>,
    VfsErrorView,
>
    decreases chunks.len(),
{
    if chunks.len() == 0 {
        Ok(Seq::empty())
    } else {
        match gathered(chunks.drop_last()) {
            Ok(bytes) => match chunks.last() {
                Ok(chunk) => Ok(bytes + chunk),
                Err(e) => Err(e),
            },
            Err(e) => Err(e),
        }
    }
}

/// The views of the chunks of a file.
pub open spec fn chunk_views(v: Seq<Result<Vec<u8>, VfsError>>) -> Seq<
    Result<Seq<u8>, VfsErrorView>,
> {
    Seq::new(
        v.len(),
        |i: int|
            match v[i] {
                Ok(b) => Ok(b@),
                Err(e) => Err(e@),
            },
    )
}

/// Puts the chunks of a file together; the first failure is the outcome.
pub fn gather(chunks: &Vec<Result<Vec<u8>, VfsError>>) -> (r: Result<Vec<u8>, VfsError>)
    ensures
        (match r {
            Ok(b) => Ok(b@),
            Err(e) => Err(e@),
        }) == gathered(chunk_views(chunks@)),
{
    let ghost all = chunk_views(chunks@);
    let mut bytes: Vec<u8> = Vec::new();
    assert(gathered(all.take(0)) == Ok::<Seq<u8>, VfsErrorView>(Seq::empty()));
    assert(bytes@ =~= Seq::empty());
    for i in 0..chunks.len()
        invariant
            all == chunk_views(chunks@),
            gathered(all.take(i as int)) == Ok::<Seq<u8>, VfsErrorView>(bytes@),
    {
        proof {
            assert(all.take(i + 1).drop_last() =~= all.take(i as int));
            assert(all.take(i + 1).last() == all[i as int]);
        }
        match &chunks[i] {
            Ok(chunk) => {
                bytes = concat_bytes(bytes.as_slice(), chunk.as_slice());
            },
            Err(e) => {
                proof {
                    gathered_stops(all, i + 1);
                }
                return Err(e.clone());
            },
        }
    }
    assert(all.take(all.len() as int) =~= all);
    Ok(bytes)
}

proof fn gathered_stops(chunks: Seq<Result<Seq<u8>, VfsErrorView>>, k: int)
    requires
        0 <= k <= chunks.len(),
        gathered(chunks.take(k)) is Err,
    ensures
        gathered(chunks) == gathered(chunks.take(k)),
    decreases chunks.len(),
{
    if k == chunks.len() {
        assert(chunks.take(k) =~= chunks);
    } else {
        assert(chunks.drop_last().take(k) =~= chunks.take(k));
        gathered_stops(chunks.drop_last(), k);
    }
}

proof fn keys_of_downloads(v: Seq<(Location, FsPath)>)
    ensures
        forall|k: DownloadKeyView|
            download_map(v).dom().contains(k) <==> exists|j: int|
                0 <= j < v.len() && download_key_of((#[trigger] v[j]).0@) == k,
    decreases v.len(),
{
    if v.len() > 0 {
        let rest = v.drop_last();
        keys_of_downloads(rest);
        assert forall|k: DownloadKeyView|
            download_map(v).dom().contains(k) <==> exists|j: int|
                0 <= j < v.len() && download_key_of((#[trigger] v[j]).0@) == k by {
            if k == download_key_of(v.last().0@) {
                assert(download_key_of(v[v.len() - 1].0@) == k);
            }
            if download_map(rest).dom().contains(k) {
                let j = choose|j: int|
                    0 <= j < rest.len() && download_key_of((#[trigger] rest[j]).0@) == k;
                assert(download_key_of(v[j].0@) == k);
            }
            if exists|j: int| 0 <= j < v.len() && download_key_of((#[trigger] v[j]).0@) == k {
                let j = choose|j: int|
                    0 <= j < v.len() && download_key_of((#[trigger] v[j]).0@) == k;
                if j < rest.len() {
                    assert(download_key_of(rest[j].0@) == k);
                }
            }
        }
    }
}

fn place_of(location: &Location, temp_dir: &FsPath, pid: u32, number: u64) -> (r: FsPath)
    ensures
        r@ == download_path(temp_dir@, location@, pid as nat, number as nat),
{
    let mut name = copy_of("saola-files-");
    name.append(decimal_of(pid as u64).as_str());
    name.append("-");
    name.append(decimal_of(number).as_str());
    name.append("-");
    match &location.authority {
        Some(a) => name.append(a.as_str()),
        None => name.append("remote"),
    }
    name.append("-");
    match location.path.file_name() {
        Some(n) => name.append(lossy(n.as_slice()).as_str()),
        None => name.append("download"),
    }
    let child = bytes_of(name.as_str());
    temp_dir.join_bytes(child.as_slice())
}

impl<B> RemoteManager<B> {
    /// The open connections.
    pub closed spec fn connections(&self) -> Map<PoolKeyView, B> {
        pool_map(self.pool@)
    }

    /// The fetched files.
    pub closed spec fn fetched(&self) -> Map<DownloadKeyView, Seq<u8>> {
        download_map(self.downloads@)
    }

    /// The number that the next local copy is tried under.
    pub closed spec fn next_number(&self) -> nat {
        self.issued as nat
    }

    /// A manager without connections.
    pub fn new() -> (r: Self)
        ensures
            r.connections() == Map::<PoolKeyView, B>::empty(),
            r.fetched() == Map::<DownloadKeyView, Seq<u8>>::empty(),
            r.next_number() == 0,
    {
        RemoteManager { pool: Vec::new(), downloads: Vec::new(), issued: 0 }
    }

    /// The open connection that serves `location`, if there is one.
    pub fn pooled(&self, location: &Location) -> (r: Option<&B>)
        ensures
            match pool_key_of(location@) {
                None => r is None,
                Some(key) => if self.connections().dom().contains(key) {
                    r is Some && *r->0 == self.connections()[key]
                } else {
                    r is None
                },
            },
    {
        match &location.authority {
            None => None,
            Some(authority) => {
                let ghost key = (location@.scheme, authority@);
                let mut i: usize = self.pool.len();
                assert(self.pool@.take(self.pool@.len() as int) =~= self.pool@);
                while i > 0
                    invariant
                        i <= self.pool@.len(),
                        pool_key_of(location@) == Some(key),
                        key == (location.scheme@, authority@),
                        self.connections().dom().contains(key) == pool_map(
                            self.pool@.take(i as int),
                        ).dom().contains(key),
                        self.connections().dom().contains(key) ==> self.connections()[key]
                            == pool_map(self.pool@.take(i as int))[key],
                    decreases i,
                {
                    assert(self.pool@.take(i as int).drop_last() =~= self.pool@.take(i - 1));
                    let entry = &self.pool[i - 1];
                    if same_text(entry.0.as_str(), location.scheme.as_str()) && same_text(
                        entry.1.as_str(),
                        authority.as_str(),
                    ) {
                        return Some(&entry.2);
                    }
                    i = i - 1;
                }
                None
            },
        }
    }

    /// Files a connection under the scheme and authority of `location`; a
    /// local location has no effect.
    pub fn register(&mut self, location: &Location, backend: B)
        ensures
            final(self).connections() == (match pool_key_of(location@) {
                Some(key) => old(self).connections().insert(key, backend),
                None => old(self).connections(),
            }),
            final(self).fetched() == old(self).fetched(),
            final(self).next_number() == old(self).next_number(),
    {
        if let Some(authority) = &location.authority {
            let ghost before = self.pool@;
            self.pool.push((location.scheme.clone(), authority.clone(), backend));
            assert(self.pool@.drop_last() =~= before);
        }
    }

    /// Drops the connection that serves `location`.
    pub fn forget(&mut self, location: &Location)
        ensures
            final(self).connections() == (match pool_key_of(location@) {
                Some(key) => old(self).connections().remove(key),
                None => old(self).connections(),
            }),
            final(self).fetched() == old(self).fetched(),
            final(self).next_number() == old(self).next_number(),
    {
        if let Some(authority) = &location.authority {
            let ghost key = (location@.scheme, authority@);
            let ghost all = self.pool@;
            let mut i: usize = self.pool.len();
            while i > 0
                invariant
                    i <= self.pool@.len(),
                    key == (location.scheme@, authority@),
                    pool_map(self.pool@).remove(key) == pool_map(all).remove(key),
                    forall|j: int|
                        i <= j < self.pool@.len() ==> ((#[trigger] self.pool@[j]).0@, self.pool@[j].1@)
                            != key,
                    self.downloads@ == old(self).downloads@,
                    self.issued == old(self).issued,
                decreases i,
            {
                i = i - 1;
                let hit = same_text(self.pool[i].0.as_str(), location.scheme.as_str())
                    && same_text(self.pool[i].1.as_str(), authority.as_str());
                if hit {
                    let ghost before = self.pool@;
                    self.pool.remove(i);
                    proof {
                        removed_entry(before, i as int, key);
                        assert forall|j: int| i <= j < self.pool@.len() implies (
                        (#[trigger] self.pool@[j]).0@, self.pool@[j].1@) != key by {
                            assert(self.pool@[j] == before[j + 1]);
                        }
                    }
                }
            }
            proof {
                key_absent(self.pool@, key);
                assert(pool_map(self.pool@).remove(key) =~= pool_map(self.pool@));
            }
        }
    }

    /// Whether a path is that of a fetched file.
    fn holds_copy(&self, path: &FsPath) -> (r: bool)
        ensures
            r == is_copy(self.fetched(), path@),
    {
        for i in 0..self.downloads.len()
            invariant
                forall|j: int|
                    0 <= j < i ==> !same_path(
                        self.fetched()[download_key_of((#[trigger] self.downloads@[j]).0@)],
                        path@,
                    ),
        {
            let ghost key = download_key_of(self.downloads@[i as int].0@);
            proof {
                keys_of_downloads(self.downloads@);
                assert(self.fetched().dom().contains(key));
            }
            if let Some(copy) = self.cached(&self.downloads[i].0) {
                if equal_paths(copy.as_bytes(), path.as_bytes()) {
                    return true;
                }
            }
        }
        proof {
            keys_of_downloads(self.downloads@);
            if is_copy(self.fetched(), path@) {
                let k = choose|k: DownloadKeyView|
                    self.fetched().dom().contains(k) && same_path(
                        #[trigger] self.fetched()[k],
                        path@,
                    );
                let j = choose|j: int|
                    0 <= j < self.downloads@.len() && download_key_of(
                        (#[trigger] self.downloads@[j]).0@,
                    ) == k;
                assert(download_key_of(self.downloads@[j].0@) == k);
            }
        }
        false
    }

    /// Where the local copy of `location` is or goes. `cached_exists` says
    /// whether a copy fetched earlier is still there. A new copy goes to a
    /// place that nothing has gone to before.
    pub fn plan_download(
        &mut self,
        location: &Location,
        cached_exists: bool,
        temp_dir: &FsPath,
        pid: u32,
    ) -> (r: Download)
        ensures
            final(self).connections() == old(self).connections(),
            final(self).fetched() == old(self).fetched(),
            (r@, final(self).next_number()) == planned_download(
                old(self).fetched(),
                old(self).next_number(),
                location@,
                cached_exists,
                temp_dir@,
                pid as nat,
            ),
    {
        if cached_exists {
            if let Some(path) = self.cached(location) {
                return Download::Cached { path };
            }
        }
        let ghost fetched = self.fetched();
        let mut number: u64 = self.issued;
        let mut dest = place_of(location, temp_dir, pid, number);
        while number < u64::MAX && self.holds_copy(&dest)
            invariant
                fetched == self.fetched(),
                dest@ == download_path(temp_dir@, location@, pid as nat, number as nat),
                free_number(
                    fetched,
                    temp_dir@,
                    location@,
                    pid as nat,
                    self.issued as nat,
                ) == free_number(fetched, temp_dir@, location@, pid as nat, number as nat),
            decreases u64::MAX - number,
        {
            number = number + 1;
            dest = place_of(location, temp_dir, pid, number);
        }
        self.issued = number.saturating_add(1);
        Download::Fetch { dest }
    }

    /// The local copy fetched earlier, if any.
    pub fn cached(&self, location: &Location) -> (r: Option<FsPath>)
        ensures
            opt_path(r) == (if self.fetched().dom().contains(download_key_of(location@)) {
                Some(self.fetched()[download_key_of(location@)])
            } else {
                None
            }),
    {
        let ghost key = download_key_of(location@);
        let mut i: usize = self.downloads.len();
        assert(self.downloads@.take(self.downloads@.len() as int) =~= self.downloads@);
        while i > 0
            invariant
                i <= self.downloads@.len(),
                key == download_key_of(location@),
                self.fetched().dom().contains(key) == download_map(
                    self.downloads@.take(i as int),
                ).dom().contains(key),
                self.fetched().dom().contains(key) ==> self.fetched()[key] == download_map(
                    self.downloads@.take(i as int),
                )[key],
            decreases i,
        {
            assert(self.downloads@.take(i as int).drop_last() =~= self.downloads@.take(i - 1));
            let other = &self.downloads[i - 1].0;
            if same_text(other.scheme.as_str(), location.scheme.as_str()) && same_opt(
                &other.authority,
                &location.authority,
            ) && equal_paths(other.path.as_bytes(), location.path.as_bytes()) {
                return Some(self.downloads[i - 1].1.clone());
            }
            i = i - 1;
        }
        None
    }

    fn without_copy(&self, path: &FsPath) -> (r: Vec<(Location, FsPath)>)
        ensures
            download_map(r@) == Map::new(
                |k: DownloadKeyView|
                    self.fetched().dom().contains(k) && !same_path(self.fetched()[k], path@),
                |k: DownloadKeyView| self.fetched()[k],
            ),
    {
        let ghost all = self.fetched();
        let mut kept: Vec<(Location, FsPath)> = Vec::new();
        assert(self.downloads@.take(0) =~= Seq::empty());
        for i in 0..self.downloads.len()
            invariant
                all == self.fetched(),
                forall|k: DownloadKeyView| #[trigger]
                    download_map(kept@).dom().contains(k) <==> download_map(
                        self.downloads@.take(i as int),
                    ).dom().contains(k) && !same_path(all[k], path@),
                forall|k: DownloadKeyView| #[trigger]
                    download_map(kept@).dom().contains(k) ==> download_map(kept@)[k] == all[k],
        {
            let ghost key = download_key_of(self.downloads@[i as int].0@);
            let ghost before = kept@;
            let ghost seen = download_map(self.downloads@.take(i as int));
            proof {
                keys_of_downloads(self.downloads@);
                assert(all.dom().contains(key));
                assert(self.downloads@.take(i + 1).drop_last() =~= self.downloads@.take(i as int));
                assert(self.downloads@.take(i + 1).last() == self.downloads@[i as int]);
                assert(download_map(self.downloads@.take(i + 1)).dom() =~= seen.dom().insert(key));
            }
            if let Some(copy) = self.cached(&self.downloads[i].0) {
                if !equal_paths(copy.as_bytes(), path.as_bytes()) {
                    let ghost found = copy@;
                    kept.push((self.downloads[i].0.clone(), copy));
                    assert(kept@.drop_last() =~= before);
                    assert(download_map(kept@) =~= download_map(before).insert(key, found));
                }
            }
            assert forall|k: DownloadKeyView| #[trigger]
                download_map(kept@).dom().contains(k) <==> download_map(
                    self.downloads@.take(i + 1),
                ).dom().contains(k) && !same_path(all[k], path@) by {
                assert(download_map(before).dom().contains(k) <==> seen.dom().contains(k)
                    && !same_path(all[k], path@));
            }
            assert forall|k: DownloadKeyView| #[trigger]
                download_map(kept@).dom().contains(k) implies download_map(kept@)[k] == all[k] by {
                assert(k != key ==> download_map(before).dom().contains(k));
            }
        }
        assert(self.downloads@.take(self.downloads@.len() as int) =~= self.downloads@);
        assert(download_map(kept@) =~= Map::new(
            |k: DownloadKeyView| all.dom().contains(k) && !same_path(all[k], path@),
            |k: DownloadKeyView| all[k],
        ));
        kept
    }

    /// Concludes a fetch: the copy is remembered if it was written, and what
    /// it replaced is forgotten.
    pub fn finish_download(&mut self, location: &Location, dest: FsPath, outcome: WriteOutcome) -> (r:
        Result<FsPath, VfsError>)
        ensures
            outcome is Written ==> r is Ok && r->Ok_0@ == dest@ && final(self).fetched()
                == with_copy(old(self).fetched(), download_key_of(location@), dest@),
            !(outcome is Written) ==> r is Err && r->Err_0@ == download_failure(
                location@,
                outcome@,
            ) && final(self).fetched() == old(self).fetched(),
            final(self).connections() == old(self).connections(),
            final(self).next_number() == old(self).next_number(),
    {
        match outcome {
            WriteOutcome::Written => {
                let mut kept = self.without_copy(&dest);
                let ghost before = kept@;
                kept.push((location.clone(), dest.clone()));
                assert(kept@.drop_last() =~= before);
                self.downloads = kept;
                Ok(dest)
            },
            WriteOutcome::Failed { message } => Err(
                VfsError::Other {
                    message: copy_of("downloading ").concat(location.to_string().as_str()).concat(
                        " to a temp file failed: ",
                    ).concat(message.as_str()),
                },
            ),
            WriteOutcome::Broken { message } => Err(
                VfsError::Other {
                    message: copy_of("internal error downloading ").concat(
                        location.to_string().as_str(),
                    ).concat(": ").concat(message.as_str()),
                },
            ),
        }
    }

    /// Concludes a connection attempt: a backend is in the pool before its
    /// success is reported.
    pub fn conclude(&mut self, request: &ConnectRequest, outcome: Result<B, VfsError>) -> (r:
        ConnectEvent)
        ensures
            match outcome {
                Ok(backend) => r@ is Connected && final(self).connections() == (
                match pool_key_of(request.location@) {
                    Some(key) => old(self).connections().insert(key, backend),
                    None => old(self).connections(),
                }),
                Err(e) => r@ == ConnectEventView::Failed(e@) && final(self).connections() == old(
                    self,
                ).connections(),
            },
            final(self).fetched() == old(self).fetched(),
            final(self).next_number() == old(self).next_number(),
    {
        match outcome {
            Ok(backend) => {
                self.register(&request.location, backend);
                ConnectEvent::Connected
            },
            Err(e) => ConnectEvent::Failed(e),
        }
    }
}

impl<B> Default for RemoteManager<B> {
    fn default() -> (r: Self)
        ensures
            r.connections() == Map::<PoolKeyView, B>::empty(),
            r.fetched() == Map::<DownloadKeyView, Seq<u8>>::empty(),
            r.next_number() == 0,
    {
        RemoteManager::new()
    }
}

proof fn key_absent<B>(pool: Seq<(String, String, B)>, key: PoolKeyView)
    requires
        forall|j: int| 0 <= j < pool.len() ==> ((#[trigger] pool[j]).0@, pool[j].1@) != key,
    ensures
        !pool_map(pool).dom().contains(key),
    decreases pool.len(),
{
    if pool.len() > 0 {
        assert(pool[pool.len() - 1] == pool.last());
        assert forall|j: int| 0 <= j < pool.drop_last().len() implies ((
        #[trigger] pool.drop_last()[j]).0@, pool.drop_last()[j].1@) != key by {
            assert(pool.drop_last()[j] == pool[j]);
        }
        key_absent(pool.drop_last(), key);
    }
}

proof fn removed_entry<B>(pool: Seq<(String, String, B)>, i: int, key: PoolKeyView)
    requires
        0 <= i < pool.len(),
        (pool[i].0@, pool[i].1@) == key,
    ensures
        pool_map(pool.remove(i)).remove(key) == pool_map(pool).remove(key),
    decreases pool.len(),
{
    let without = pool.remove(i);
    if i == pool.len() - 1 {
        assert(without =~= pool.drop_last());
        assert(pool_map(pool).remove(key) =~= pool_map(pool.drop_last()).remove(key));
    } else {
        removed_entry(pool.drop_last(), i, key);
        assert(without.drop_last() =~= pool.drop_last().remove(i));
        assert(without.last() == pool.last());
        let last = pool.last();
        let k = (last.0@, last.1@);
        assert(pool_map(without).remove(key) =~= pool_map(pool).remove(key)) by {
            if k == key {
                assert(pool_map(without).remove(key) =~= pool_map(without.drop_last()).remove(key));
                assert(pool_map(pool).remove(key) =~= pool_map(pool.drop_last()).remove(key));
            } else {
                assert(pool_map(without).remove(key) =~= pool_map(without.drop_last()).remove(
                    key,
                ).insert(k, last.2));
                assert(pool_map(pool).remove(key) =~= pool_map(pool.drop_last()).remove(key).insert(
                    k,
                    last.2,
                ));
            }
        }
    }
}

// ---------------------------------------------------------------------------
// Dispatching
// ---------------------------------------------------------------------------

/// How a connection attempt begins.
#[derive(Debug)]
pub enum ConnectPlan<E = VfsError> {
    /// With the handshake of the SFTP backend.
    Sftp,
    /// Not at all.
    Fail(E),
}

impl View for ConnectPlan {
    type V = ConnectPlan<VfsErrorView>;

    open spec fn view(&self) -> ConnectPlan<VfsErrorView> {
        match self {
            ConnectPlan::Sftp => ConnectPlan::Sftp,
            ConnectPlan::Fail(e) => ConnectPlan::Fail(e@),
        }
    }
}

/// The failure of an attempt that was cancelled.
pub open spec fn cancelled_failure() -> VfsErrorView {
    VfsError::Unavailable { message: "connection cancelled"@ }
}

/// The failure of an attempt to reach a scheme that nothing serves.
pub open spec fn unsupported_failure(scheme: Seq<char>) -> VfsErrorView {
    VfsError::Unavailable {
        message: "no backend for scheme \""@ + scheme
            + "\" (this build was compiled without it)"@,
    }
}

/// The failure of an attempt that was cancelled.
pub fn cancelled_error() -> (r: VfsError)
    ensures
        r@ == cancelled_failure(),
{
    VfsError::Unavailable { message: copy_of("connection cancelled") }
}

/// Decides how an attempt begins; `cancelled` is the state of its flag.
pub fn plan_connect(request: &ConnectRequest, cancelled: bool) -> (r: ConnectPlan)
    ensures
        r@ == (if cancelled {
            ConnectPlan::Fail(cancelled_failure())
        } else if request.location@.scheme == "sftp"@ {
            ConnectPlan::Sftp
        } else {
            ConnectPlan::Fail(unsupported_failure(request.location@.scheme))
        }),
{
    if cancelled {
        return ConnectPlan::Fail(cancelled_error());
    }
    if same_text(request.location.scheme.as_str(), "sftp") {
        return ConnectPlan::Sftp;
    }
    let message = copy_of("no backend for scheme \"").concat(
        request.location.scheme.as_str(),
    ).concat("\" (this build was compiled without it)");
    ConnectPlan::Fail(VfsError::Unavailable { message })
}

// ---------------------------------------------------------------------------
// Laws
// ---------------------------------------------------------------------------

/// Connections are found by scheme and authority alone: two locations on one
/// server share theirs, whatever their paths.
pub proof fn pooling_ignores_the_path(a: LocationView, b: LocationView)
    requires
        a.scheme == b.scheme,
        a.authority == b.authority,
    ensures
        pool_key_of(a) == pool_key_of(b),
{
}

/// Locations on different servers never share a connection.
pub proof fn pooling_separates_servers(a: LocationView, b: LocationView)
    requires
        pool_key_of(a) is Some,
        pool_key_of(a) == pool_key_of(b),
    ensures
        a.scheme == b.scheme,
        a.authority == b.authority,
{
}

/// Fetched files are found again exactly for equal locations.
pub proof fn downloads_are_found_by_location(a: LocationView, b: LocationView)
    ensures
        download_key_of(a) == download_key_of(b) <==> same_location(a, b),
{
}

/// The fetched files after a run of fetches, each with its location's key and
/// its place.
pub open spec fn fetched_after(fetches: Seq<(DownloadKeyView, Seq<u8>)>) -> Map<
    DownloadKeyView,
    Seq<u8>,
>
    decreases fetches.len(),
{
    if fetches.len() == 0 {
        Map::empty()
    } else {
        let (key, path) = fetches.last();
        with_copy(fetched_after(fetches.drop_last()), key, path)
    }
}

/// Two remote files never share a local copy, whatever was fetched in
/// whatever order: what is handed out for one location is never what was
/// fetched for another.
pub proof fn copies_are_never_shared(fetches: Seq<(DownloadKeyView, Seq<u8>)>)
    ensures
        ({
            let fetched = fetched_after(fetches);
            forall|a: DownloadKeyView, b: DownloadKeyView|
                fetched.dom().contains(a) && fetched.dom().contains(b) && a != b ==> !same_path(
                    #[trigger] fetched[a],
                    #[trigger] fetched[b],
                )
        }),
    decreases fetches.len(),
{
    if fetches.len() > 0 {
        let before = fetched_after(fetches.drop_last());
        let fetched = fetched_after(fetches);
        let (key, path) = fetches.last();
        copies_are_never_shared(fetches.drop_last());
        assert forall|a: DownloadKeyView, b: DownloadKeyView|
            fetched.dom().contains(a) && fetched.dom().contains(b) && a != b implies !same_path(
            #[trigger] fetched[a],
            #[trigger] fetched[b],
        ) by {
            if a != key {
                assert(fetched[a] == before[a]);
            }
            if b != key {
                assert(fetched[b] == before[b]);
            }
        }
    }
}

/// A manager and the files that it has had written, as downloads go by.
pub struct Fetching {
    pub fetched: Map<DownloadKeyView, Seq<u8>>,
    pub next: nat,
    /// The local files, by the components of their paths.
    pub disk: Map<Seq<Seq<u8>>, Seq<u8>>,
    /// What each remote file held when it was fetched last.
    pub contents: Map<DownloadKeyView, Seq<u8>>,
}

/// Whether a copy that was fetched is still there.
pub open spec fn copy_exists(f: Fetching, location: LocationView) -> bool {
    let key = download_key_of(location);
    f.fetched.dom().contains(key) && f.disk.dom().contains(components_of(f.fetched[key]))
}

/// One download of a remote file with some contents, which succeeds: the
/// place that is handed out, and what it leaves behind.
pub open spec fn downloaded(
    f: Fetching,
    location: LocationView,
    contents: Seq<u8>,
    temp_dir: Seq<u8>,
    pid: nat,
) -> (Seq<u8>, Fetching) {
    let key = download_key_of(location);
    let (plan, next) = planned_download(
        f.fetched,
        f.next,
        location,
        copy_exists(f, location),
        temp_dir,
        pid,
    );
    match plan {
        Download::Cached { path } => (path, Fetching { next, ..f }),
        Download::Fetch { dest } => (
            dest,
            Fetching {
                fetched: with_copy(f.fetched, key, dest),
                next,
                disk: f.disk.insert(components_of(dest), contents),
                contents: f.contents.insert(key, contents),
            },
        ),
    }
}

/// Whether every copy that is there holds what its own remote file held, and
/// no two files share one.
pub open spec fn copies_are_true(f: Fetching) -> bool {
    &&& forall|k: DownloadKeyView| #[trigger]
        f.fetched.dom().contains(k) ==> f.contents.dom().contains(k) && (f.disk.dom().contains(
            components_of(f.fetched[k]),
        ) ==> f.disk[components_of(f.fetched[k])] == f.contents[k])
    &&& forall|a: DownloadKeyView, b: DownloadKeyView|
        f.fetched.dom().contains(a) && f.fetched.dom().contains(b) && a != b ==> !same_path(
            #[trigger] f.fetched[a],
            #[trigger] f.fetched[b],
        )
}

/// Whatever is handed out for a remote file holds what that file held when it
/// was fetched, and never what another held; every copy stays true, so that
/// this holds of the next download as well. Copies that vanish from the disk
/// change nothing about that.
pub proof fn downloads_hand_out_the_right_file(
    f: Fetching,
    location: LocationView,
    contents: Seq<u8>,
    temp_dir: Seq<u8>,
    pid: nat,
)
    requires
        copies_are_true(f),
    ensures
        ({
            let (path, g) = downloaded(f, location, contents, temp_dir, pid);
            let key = download_key_of(location);
            &&& copies_are_true(g)
            &&& g.fetched.dom().contains(key) && g.fetched[key] == path
            &&& g.disk.dom().contains(components_of(path))
            &&& g.disk[components_of(path)] == g.contents[key]
            &&& !copy_exists(f, location) ==> g.contents[key] == contents
        }),
{
    let (path, g) = downloaded(f, location, contents, temp_dir, pid);
    let key = download_key_of(location);
    if !copy_exists(f, location) {
        assert forall|k: DownloadKeyView| #[trigger]
            g.fetched.dom().contains(k) implies g.contents.dom().contains(k) && (
        g.disk.dom().contains(components_of(g.fetched[k])) ==> g.disk[components_of(g.fetched[k])]
            == g.contents[k]) by {
            if k != key {
                assert(f.fetched.dom().contains(k));
                assert(!same_path(f.fetched[k], path));
            }
        }
        assert forall|a: DownloadKeyView, b: DownloadKeyView|
            g.fetched.dom().contains(a) && g.fetched.dom().contains(b) && a != b implies !same_path(
            #[trigger] g.fetched[a],
            #[trigger] g.fetched[b],
        ) by {
            if a != key {
                assert(g.fetched[a] == f.fetched[a]);
            }
            if b != key {
                assert(g.fetched[b] == f.fetched[b]);
            }
        }
    }
}

/// Two remote files have copies of their own: after one has been downloaded
/// and then another, the two places differ, each holds what its own file held,
/// and the first is handed out again without being fetched again. The numbers
/// must not have run out.
pub proof fn downloads_keep_apart(
    f: Fetching,
    a: LocationView,
    b: LocationView,
    x: Seq<u8>,
    y: Seq<u8>,
    z: Seq<u8>,
    temp_dir: Seq<u8>,
    pid: nat,
)
    requires
        copies_are_true(f),
        !same_location(a, b),
        ({
            let g = downloaded(f, a, x, temp_dir, pid).1;
            free_number(g.fetched, temp_dir, b, pid, g.next) < u64::MAX
        }),
    ensures
        ({
            let (p, g) = downloaded(f, a, x, temp_dir, pid);
            let (q, h) = downloaded(g, b, y, temp_dir, pid);
            &&& !same_path(p, q)
            &&& h.disk[components_of(p)] == h.contents[download_key_of(a)]
            &&& h.disk[components_of(q)] == h.contents[download_key_of(b)]
            &&& !copy_exists(f, a) ==> h.disk[components_of(p)] == x
            &&& !copy_exists(g, b) ==> h.disk[components_of(q)] == y
            &&& downloaded(h, a, z, temp_dir, pid) == (p, h)
        }),
{
    let (p, g) = downloaded(f, a, x, temp_dir, pid);
    let (q, h) = downloaded(g, b, y, temp_dir, pid);
    let (ka, kb) = (download_key_of(a), download_key_of(b));
    downloads_hand_out_the_right_file(f, a, x, temp_dir, pid);
    downloads_hand_out_the_right_file(g, b, y, temp_dir, pid);
    copies_go_to_new_places(g.fetched, temp_dir, b, pid, g.next);
    assert(ka != kb);
    assert(g.fetched[ka] == p);
    if copy_exists(g, b) {
        assert(g.fetched[kb] == q);
    } else {
        assert(!is_copy(g.fetched, q));
        assert(!same_path(g.fetched[ka], q));
    }
    assert(h.fetched.dom().contains(ka) && h.fetched[ka] == p);
    assert(copy_exists(h, a));
}

/// A fetched file stays where it is while others are fetched to new places.
pub proof fn other_fetches_leave_a_copy_alone(
    fetched: Map<DownloadKeyView, Seq<u8>>,
    mine: DownloadKeyView,
    other: DownloadKeyView,
    path: Seq<u8>,
)
    requires
        fetched.dom().contains(mine),
        mine != other,
        !is_copy(fetched, path),
    ensures
        with_copy(fetched, other, path).dom().contains(mine),
        with_copy(fetched, other, path)[mine] == fetched[mine],
{
}

/// A new copy goes to a place that no fetched file is at.
pub proof fn copies_go_to_new_places(
    fetched: Map<DownloadKeyView, Seq<u8>>,
    temp_dir: Seq<u8>,
    location: LocationView,
    pid: nat,
    number: nat,
)
    ensures
        ({
            let n = free_number(fetched, temp_dir, location, pid, number);
            &&& n >= number
            &&& n < u64::MAX ==> !is_copy(fetched, download_path(temp_dir, location, pid, n))
        }),
    decreases u64::MAX - number,
{
    if number < u64::MAX && is_copy(fetched, download_path(temp_dir, location, pid, number)) {
        copies_go_to_new_places(fetched, temp_dir, location, pid, number + 1);
    }
}

proof fn names_differ(a: LocationView, b: LocationView, pid: nat, m: nat, n: nat)
    requires
        m < n,
    ensures
        download_name(a, pid, m) != download_name(b, pid, n),
{
    let head = "saola-files-"@ + decimal(pid) + "-"@;
    let x = download_name(a, pid, m);
    let y = download_name(b, pid, n);
    reveal_strlit("-");
    value_of_decimal(m);
    value_of_decimal(n);
    let s = decimal(m);
    let t = decimal(n);
    if x == y {
        let k = head.len() as int;
        assert forall|i: int| 0 <= i < s.len() implies x[k + i] == s[i] by {}
        assert forall|i: int| 0 <= i < t.len() implies y[k + i] == t[i] by {}
        assert(x[k + s.len()] == '-');
        assert(y[k + t.len()] == '-');
        if s.len() < t.len() {
            assert(is_digit(t[s.len() as int]));
        } else if t.len() < s.len() {
            assert(is_digit(s[t.len() as int]));
        }
        assert forall|i: int| 0 <= i < s.len() implies s[i] == t[i] by {
            assert(x[k + i] == y[k + i]);
        }
        assert(s =~= t);
    }
}

/// Copies with different numbers go to different places, so that no two
/// fetches that are under way at the same time meet.
pub proof fn numbers_keep_places_apart(
    temp_dir: Seq<u8>,
    a: LocationView,
    b: LocationView,
    pid: nat,
    m: nat,
    n: nat,
)
    requires
        m != n,
    ensures
        download_path(temp_dir, a, pid, m) != download_path(temp_dir, b, pid, n),
{
    let x = download_name(a, pid, m);
    let y = download_name(b, pid, n);
    if m < n {
        names_differ(a, b, pid, m, n);
    } else {
        names_differ(b, a, pid, n, m);
    }
    reveal_strlit("saola-files-");
    decode_of_encode(x);
    decode_of_encode(y);
    name_is_relative(x);
    name_is_relative(y);
    let (p, q) = (encode_utf8(x), encode_utf8(y));
    if joined(temp_dir, p) == joined(temp_dir, q) {
        let k = joined(temp_dir, p).len() - p.len();
        assert(joined(temp_dir, p).skip(k) =~= p);
        assert(joined(temp_dir, q).skip(k) =~= q);
    }
}

proof fn name_is_relative(name: Seq<char>)
    requires
        name.len() > 0,
        name[0] == 's',
    ensures
        encode_utf8(name).len() > 0,
        encode_utf8(name)[0] != SEP,
{
    let p = encode_utf8(name);
    decode_of_encode(name);
    if p.len() > 0 && p[0] == SEP {
        decoded_root(p);
    }
}

/// The name of a local copy tells the process, the number, the server and the
/// file.
pub proof fn copies_are_named_after_the_file(
    location: LocationView,
    temp_dir: Seq<u8>,
    pid: nat,
    number: nat,
)
    ensures
        ({
            let start = "saola-files-"@ + decimal(pid) + "-"@ + decimal(number) + "-"@;
            let name = download_name(location, pid, number);
            &&& download_path(temp_dir, location, pid, number) == joined(
                temp_dir,
                encode_utf8(name),
            )
            &&& location.authority matches Some(server) ==> file_name_of(location.path) matches Some(
                file,
            ) ==> name == start + server + "-"@ + shown(file)
            &&& location.authority is None ==> (file_name_of(location.path) matches Some(file)
                ==> name == start + "remote"@ + "-"@ + shown(file))
            &&& location.authority matches Some(server) ==> (file_name_of(location.path) is None
                ==> name == start + server + "-"@ + "download"@)
        }),
{
}

/// A file holds its chunks one behind the other; the first failure among them
/// is the outcome.
pub proof fn chunks_are_put_together(
    chunks: Seq<Result<Seq<u8>, VfsErrorView>>,
    bytes: Seq<u8>,
    error: VfsErrorView,
)
    ensures
        gathered(Seq::empty()) == Ok::<Seq<u8>, VfsErrorView>(Seq::empty()),
        gathered(chunks) matches Ok(start) ==> {
            &&& gathered(chunks.push(Ok(bytes))) == Ok::<Seq<u8>, VfsErrorView>(start + bytes)
            &&& gathered(chunks.push(Err(error))) == Err::<Seq<u8>, VfsErrorView>(error)
        },
        gathered(chunks) is Err ==> gathered(chunks.push(Ok(bytes))) == gathered(chunks)
            && gathered(chunks.push(Err(error))) == gathered(chunks),
{
    assert(chunks.push(Ok(bytes)).drop_last() =~= chunks);
    assert(chunks.push(Err(error)).drop_last() =~= chunks);
}

/// The wording of the failures of connections and fetches.
pub proof fn remote_failures_are_worded(
    location: LocationView,
    message: Seq<char>,
    scheme: Seq<char>,
)
    ensures
        download_failure(location, WriteOutcome::Failed { message }) == (VfsErrorView::Other {
            message: "downloading "@ + location_text(location) + " to a temp file failed: "@
                + message,
        }),
        download_failure(location, WriteOutcome::Broken { message }) == (VfsErrorView::Other {
            message: "internal error downloading "@ + location_text(location) + ": "@ + message,
        }),
        cancelled_failure() == (VfsErrorView::Unavailable { message: "connection cancelled"@ }),
        unsupported_failure(scheme) == (VfsErrorView::Unavailable {
            message: "no backend for scheme \""@ + scheme
                + "\" (this build was compiled without it)"@,
        }),
{
}

/// A copy that was fetched and is still there is used again; otherwise the
/// file is fetched to a place of its own, and the next one is tried under a
/// later number.
pub proof fn copies_that_are_there_are_used(
    fetched: Map<DownloadKeyView, Seq<u8>>,
    next: nat,
    location: LocationView,
    cached_exists: bool,
    temp_dir: Seq<u8>,
    pid: nat,
)
    ensures
        ({
            let key = (location.scheme, location.authority, components_of(location.path));
            let (plan, after) = planned_download(
                fetched,
                next,
                location,
                cached_exists,
                temp_dir,
                pid,
            );
            &&& fetched.dom().contains(key) && cached_exists ==> plan == (Download::Cached {
                path: fetched[key],
            })
            &&& !(fetched.dom().contains(key) && cached_exists) ==> plan is Fetch
            &&& plan matches Download::Fetch { dest } ==> exists|number: nat|
                {
                    &&& dest == #[trigger] download_path(temp_dir, location, pid, number)
                    &&& number >= u64::MAX || !is_copy(fetched, dest)
                    &&& next <= number
                    &&& number < u64::MAX ==> after == number + 1
                }
            &&& plan is Cached ==> after == next
        }),
{
    let number = free_number(fetched, temp_dir, location, pid, next);
    free_numbers_are_free(fetched, temp_dir, location, pid, next);
}

proof fn free_numbers_are_free(
    fetched: Map<DownloadKeyView, Seq<u8>>,
    temp_dir: Seq<u8>,
    location: LocationView,
    pid: nat,
    number: nat,
)
    ensures
        ({
            let n = free_number(fetched, temp_dir, location, pid, number);
            &&& n >= u64::MAX || !is_copy(fetched, download_path(temp_dir, location, pid, n))
            &&& n >= number
        }),
    decreases u64::MAX - number,
{
    if !(number >= u64::MAX || !is_copy(
        fetched,
        download_path(temp_dir, location, pid, number),
    )) {
        free_numbers_are_free(fetched, temp_dir, location, pid, number + 1);
    }
}

} // verus!
