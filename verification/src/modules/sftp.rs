//! The SFTP backend: its wording, its conversions, and the decisions of the
//! connection handshake.
//!
//! The handshake has three parts, each a small machine that asks the
//! application for one piece of outside work at a time: whether to trust the
//! server's key ([`check_host_key`], [`judge_prompt`]), who the user is
//! ([`AuthLadder`]: the agent, then the default key files, then a password),
//! and the phases around them ([`Handshake`]).
use crate::model::fs::entry::{EntryKind, FileEntry, permission_bits, permissions_of};
use crate::model::remote::{AuthStage, HostKeyPrompt, cancelled_error, cancelled_failure};
use crate::model::vfs::{
    Backend, Caps, Location, LocationView, RENAME_IN_PLACE_BIT, VfsError, VfsErrorView,
    location_text,
};
use crate::path::{FsPath, joined, opt_path};
use crate::text::{
    bytes_of, chars_of, copy_of, cut, decimal, decimal_of, opt_text, parse_unsigned,
    parsed_unsigned, rfind, rfind_char, same_text, shown, split_once, string_of,
};
use crate::time::Timestamp;
use vstd::prelude::*;
use vstd::slice::slice_subrange;
use vstd::string::*;
use vstd::utf8::*;

verus! {

/// The port where none is given.
pub const DEFAULT_PORT: u16 = 22;

/// How long connecting may take, in seconds.
pub const CONNECT_TIMEOUT: u64 = 20;

pub const SCHEME: &'static str = "sftp";

// ---------------------------------------------------------------------------
// The backend
// ---------------------------------------------------------------------------

/// An authenticated session. The parameter is the session itself, which only
/// the application can use.
#[derive(Debug)]
pub struct SftpBackend<S> {
    pub session: S,
}

impl<S> Backend for SftpBackend<S> {
    open spec fn scheme_view(&self) -> Seq<char> {
        "sftp"@
    }

    /// Renaming is one operation of the server. There is nothing to watch, no
    /// trash, no local path, and thumbnails would be too slow.
    open spec fn caps_view(&self) -> Caps {
        Caps { bits: RENAME_IN_PLACE_BIT }
    }

    fn scheme(&self) -> (r: &'static str) {
        "sftp"
    }

    fn caps(&self) -> (r: Caps) {
        Caps::rename_in_place()
    }
}

/// The path of a location as the protocol wants it.
pub fn wire_path(location: &Location) -> (r: String)
    ensures
        r@ == shown(location@.path),
{
    location.path.display()
}

/// What a server reports of an entry, without following links.
#[derive(Debug, Clone, Copy, PartialEq, Eq, Structural)]
pub struct RemoteStat {
    pub is_symlink: bool,
    pub is_dir: bool,
    pub is_file: bool,
    pub size: u64,
    pub modified: Option<Timestamp>,
    pub permissions: Option<u32>,
}

/// The kind of a remote entry.
pub open spec fn remote_kind(stat: RemoteStat) -> EntryKind {
    if stat.is_dir {
        EntryKind::Directory
    } else if stat.is_file {
        EntryKind::File
    } else {
        EntryKind::Other
    }
}

/// The entry for a name and what the server reports of it.
pub open spec fn remote_entry(name: Seq<u8>, stat: RemoteStat) -> FileEntry<Seq<u8>> {
    FileEntry {
        name,
        kind: remote_kind(stat),
        size: stat.size,
        modified: stat.modified,
        is_symlink: stat.is_symlink,
        mode: permission_bits(stat.permissions),
    }
}

/// Builds the entry for a name and what the server reports of it.
pub fn entry_from_metadata(name: Vec<u8>, stat: &RemoteStat) -> (r: FileEntry)
    ensures
        r@ == remote_entry(name@, *stat),
        r.name@ == name@,
        r.kind == EntryKind::Directory <==> stat.is_dir,
        r.kind == EntryKind::File <==> stat.is_file && !stat.is_dir,
        r.size == stat.size,
        r.modified == stat.modified,
        r.is_symlink == stat.is_symlink,
        r.mode is Some <==> stat.permissions is Some,
        stat.permissions matches Some(bits) ==> r.mode == Some(bits & 0xFFF),
{
    let kind = if stat.is_dir {
        EntryKind::Directory
    } else if stat.is_file {
        EntryKind::File
    } else {
        EntryKind::Other
    };
    let mode = permissions_of(stat.permissions);
    FileEntry {
        name,
        kind,
        size: stat.size,
        modified: stat.modified,
        is_symlink: stat.is_symlink,
        mode,
    }
}

/// Whether a listed name is a real entry rather than the directory itself or
/// its parent.
pub open spec fn is_real_name(name: Seq<char>) -> bool {
    name != "."@ && name != ".."@
}

/// Decides [`is_real_name`].
pub fn keeps_name(name: &str) -> (r: bool)
    ensures
        r == is_real_name(name@),
{
    !same_text(name, ".") && !same_text(name, "..")
}

/// The real entries of a listing, in order.
pub open spec fn remote_listing(raw: Seq<(Seq<char>, RemoteStat)>) -> Seq<FileEntry<Seq<u8>>>
    decreases raw.len(),
{
    if raw.len() == 0 {
        Seq::empty()
    } else {
        let rest = remote_listing(raw.drop_last());
        let (name, stat) = raw.last();
        if is_real_name(name) {
            rest.push(remote_entry(encode_utf8(name), stat))
        } else {
            rest
        }
    }
}

/// The views of a raw listing.
pub open spec fn raw_listing(v: Seq<(String, RemoteStat)>) -> Seq<(Seq<char>, RemoteStat)> {
    Seq::new(v.len(), |i: int| (v[i].0@, v[i].1))
}

/// The entries of a directory from what the server lists.
pub fn list_entries(raw: &Vec<(String, RemoteStat)>) -> (r: Vec<FileEntry>)
    ensures
        crate::model::fs::entry::entries(r@) == remote_listing(raw_listing(raw@)),
{
    let ghost all = raw_listing(raw@);
    let mut out: Vec<FileEntry> = Vec::new();
    assert(crate::model::fs::entry::entries(out@) =~= remote_listing(all.take(0)));
    for i in 0..raw.len()
        invariant
            all == raw_listing(raw@),
            crate::model::fs::entry::entries(out@) == remote_listing(all.take(i as int)),
    {
        let ghost before = crate::model::fs::entry::entries(out@);
        proof {
            assert(all.take(i + 1).drop_last() =~= all.take(i as int));
            assert(all.take(i + 1).last() == all[i as int]);
        }
        if keeps_name(raw[i].0.as_str()) {
            let entry = entry_from_metadata(bytes_of(raw[i].0.as_str()), &raw[i].1);
            out.push(entry);
            assert(crate::model::fs::entry::entries(out@) =~= before.push(entry@));
        }
    }
    assert(all.take(all.len() as int) =~= all);
    out
}

/// A time as the protocol carries it: whole seconds since the epoch, where
/// they fit.
pub fn system_time_to_u32(time: Timestamp) -> (r: Option<u32>)
    ensures
        r is Some <==> 0 <= time.secs <= u32::MAX,
        r is Some ==> r->0 == time.secs,
{
    if 0 <= time.secs && time.secs <= 0xFFFF_FFFF {
        Some(time.secs as u32)
    } else {
        None
    }
}

/// What went wrong on the server or on the way to it.
#[derive(Debug, Clone, Copy, PartialEq, Eq, Structural)]
pub enum SftpFailure {
    NoSuchFile,
    PermissionDenied,
    NoConnection,
    ConnectionLost,
    /// Any other status of the server.
    OtherStatus,
    /// Anything but a status: the connection, a malformed reply.
    Transport,
}

/// The wording of a remote failure.
pub open spec fn sftp_failure(
    location: LocationView,
    failure: SftpFailure,
    message: Seq<char>,
) -> VfsErrorView {
    let place = location_text(location);
    match failure {
        SftpFailure::NoSuchFile => VfsError::NotFound { location: place },
        SftpFailure::PermissionDenied => VfsError::PermissionDenied { location: place },
        SftpFailure::NoConnection | SftpFailure::ConnectionLost => VfsError::Unavailable {
            message: place + ": the connection to the server was lost"@,
        },
        SftpFailure::OtherStatus => VfsError::Other { message: place + ": "@ + message },
        SftpFailure::Transport => VfsError::Unavailable { message: place + ": "@ + message },
    }
}

/// Words a remote failure; `message` is the library's own text for it.
pub fn sftp_error(location: &Location, failure: SftpFailure, message: &str) -> (r: VfsError)
    ensures
        r@ == sftp_failure(location@, failure, message@),
        r@ is NotFound <==> failure is NoSuchFile,
        r@ is PermissionDenied <==> failure is PermissionDenied,
        r@ is Unavailable <==> failure is NoConnection || failure is ConnectionLost
            || failure is Transport,
        r@ matches VfsError::NotFound { location: place } ==> place == location_text(location@),
        r@ matches VfsError::PermissionDenied { location: place } ==> place == location_text(
            location@,
        ),
        failure is OtherStatus ==> r@ == (VfsErrorView::Other {
            message: location_text(location@) + ": "@ + message@,
        }),
        failure is Transport ==> r@ == (VfsErrorView::Unavailable {
            message: location_text(location@) + ": "@ + message@,
        }),
        failure is NoConnection || failure is ConnectionLost ==> r@ == (VfsErrorView::Unavailable {
            message: location_text(location@) + ": the connection to the server was lost"@,
        }),
{
    let place = location.to_string();
    match failure {
        SftpFailure::NoSuchFile => VfsError::NotFound { location: place },
        SftpFailure::PermissionDenied => VfsError::PermissionDenied { location: place },
        SftpFailure::NoConnection | SftpFailure::ConnectionLost => VfsError::Unavailable {
            message: place.concat(": the connection to the server was lost"),
        },
        SftpFailure::OtherStatus => VfsError::Other {
            message: place.concat(": ").concat(message),
        },
        SftpFailure::Transport => VfsError::Unavailable {
            message: place.concat(": ").concat(message),
        },
    }
}

/// The failure of a write whose channel is gone.
pub fn channel_closed(location: &Location) -> (r: VfsError)
    ensures
        r@ == (VfsErrorView::Other {
            message: "write channel to "@ + location_text(location@) + " closed"@,
        }),
{
    VfsError::Other {
        message: copy_of("write channel to ").concat(location.to_string().as_str()).concat(
            " closed",
        ),
    }
}

// ---------------------------------------------------------------------------
// The authority
// ---------------------------------------------------------------------------

/// The user, the host and the port that an authority names.
pub open spec fn authority_parts(authority: Seq<char>) -> (Option<Seq<char>>, Seq<char>, u16) {
    let (user, rest) = match cut(authority, '@') {
        Some((user, rest)) => (
            if user.len() > 0 {
                Some(user)
            } else {
                None
            },
            rest,
        ),
        None => (None, authority),
    };
    let i = rfind(rest, ':');
    if i > 0 {
        match parsed_unsigned(rest.skip(i + 1), 0xFFFF) {
            Some(port) => (user, rest.take(i), port as u16),
            None => (user, rest, DEFAULT_PORT),
        }
    } else {
        (user, rest, DEFAULT_PORT)
    }
}

/// Takes an authority apart. Without a port, or with one that is none, the
/// port is the default one; an address with colons in it is not understood.
pub fn parse_authority(authority: &str) -> (r: (Option<String>, String, u16))
    ensures
        (opt_text(r.0), r.1@, r.2) == authority_parts(authority@),
{
    let cs = chars_of(authority);
    let (user, rest) = match split_once(cs.as_slice(), '@') {
        Some((u, rest)) => (
            if u.len() > 0 {
                Some(string_of(u))
            } else {
                None
            },
            rest,
        ),
        None => (None, cs.as_slice()),
    };
    match rfind_char(rest, ':') {
        Some(i) if i > 0 => {
            let n = rest.len();
            let digits = slice_subrange(rest, i + 1, n);
            assert(digits@ =~= rest@.skip(i + 1));
            match parse_unsigned(digits, 0xFFFF) {
                Some(port) => (user, string_of(slice_subrange(rest, 0, i)), port as u16),
                None => (user, string_of(rest), DEFAULT_PORT),
            }
        },
        _ => (user, string_of(rest), DEFAULT_PORT),
    }
}

/// The user where none is given: the current one, or `root`.
pub fn default_user(user: Option<String>) -> (r: String)
    ensures
        r@ == (match opt_text(user) {
            Some(u) => if u.len() > 0 {
                u
            } else {
                "root"@
            },
            None => "root"@,
        }),
{
    match user {
        Some(u) => {
            if u.as_str().is_empty() {
                copy_of("root")
            } else {
                u
            }
        },
        None => copy_of("root"),
    }
}

/// The home directory; an empty value counts as none.
pub fn home_dir(home: Option<Vec<u8>>) -> (r: Option<FsPath>)
    ensures
        opt_path(r) == (match home {
            Some(h) => if h@.len() > 0 {
                Some(h@)
            } else {
                None
            },
            None => None,
        }),
{
    match home {
        Some(h) => {
            if h.len() > 0 {
                Some(FsPath::from_bytes(h))
            } else {
                None
            }
        },
        None => None,
    }
}

// ---------------------------------------------------------------------------
// The server's key
// ---------------------------------------------------------------------------

/// What the list of known hosts says of the server's key.
#[derive(Debug)]
pub enum KnownHost<S = String> {
    /// It is the recorded one.
    Matches,
    /// The server is not in the list.
    Unknown,
    /// Another key is recorded, or the list cannot be read.
    Refused { message: S },
    /// The check itself broke down.
    Broken { message: S },
}

impl View for KnownHost {
    type V = KnownHost<Seq<char>>;

    open spec fn view(&self) -> KnownHost<Seq<char>> {
        match self {
            KnownHost::Matches => KnownHost::Matches,
            KnownHost::Unknown => KnownHost::Unknown,
            KnownHost::Refused { message } => KnownHost::Refused { message: message@ },
            KnownHost::Broken { message } => KnownHost::Broken { message: message@ },
        }
    }
}

/// What to do about the server's key.
#[derive(Debug)]
pub enum KeyVerdict<S = String> {
    /// Go on.
    Accept,
    /// Record the key, as well as possible, and go on.
    Learn,
    /// Ask whether to trust the key.
    Ask { prompt: HostKeyPrompt<S> },
    /// Give up.
    Reject { reason: S },
}

impl View for KeyVerdict {
    type V = KeyVerdict<Seq<char>>;

    open spec fn view(&self) -> KeyVerdict<Seq<char>> {
        match self {
            KeyVerdict::Accept => KeyVerdict::Accept,
            KeyVerdict::Learn => KeyVerdict::Learn,
            KeyVerdict::Ask { prompt } => KeyVerdict::Ask { prompt: prompt@ },
            KeyVerdict::Reject { reason } => KeyVerdict::Reject { reason: reason@ },
        }
    }
}

/// What the list of known hosts leads to. Only an unknown server is asked
/// about; a changed key is refused outright.
pub open spec fn host_key_verdict(
    known: KnownHost<Seq<char>>,
    prompt: HostKeyPrompt<Seq<char>>,
) -> KeyVerdict<Seq<char>> {
    match known {
        KnownHost::Matches => KeyVerdict::Accept,
        KnownHost::Unknown => KeyVerdict::Ask { prompt },
        KnownHost::Refused { message } => KeyVerdict::Reject {
            reason: "known_hosts check failed: "@ + message,
        },
        KnownHost::Broken { message } => KeyVerdict::Reject {
            reason: "internal error checking known_hosts: "@ + message,
        },
    }
}

/// Decides about the server's key.
pub fn check_host_key(known: KnownHost, prompt: HostKeyPrompt) -> (r: KeyVerdict)
    ensures
        r@ == host_key_verdict(known@, prompt@),
{
    match known {
        KnownHost::Matches => KeyVerdict::Accept,
        KnownHost::Unknown => KeyVerdict::Ask { prompt },
        KnownHost::Refused { message } => KeyVerdict::Reject {
            reason: copy_of("known_hosts check failed: ").concat(message.as_str()),
        },
        KnownHost::Broken { message } => KeyVerdict::Reject {
            reason: copy_of("internal error checking known_hosts: ").concat(message.as_str()),
        },
    }
}

/// What came of asking about a key.
#[derive(Debug, Clone, Copy, PartialEq, Eq, Structural)]
pub enum KeyAnswer {
    /// Nobody was there to be asked.
    Undelivered,
    Trusted,
    /// Refused, or left without an answer.
    Refused,
    TimedOut,
}

/// What the answer about a key leads to.
pub open spec fn answer_verdict(answer: KeyAnswer) -> KeyVerdict<Seq<char>> {
    match answer {
        KeyAnswer::Undelivered => KeyVerdict::Reject {
            reason: "nobody was listening for the host-key prompt"@,
        },
        KeyAnswer::Trusted => KeyVerdict::Learn,
        KeyAnswer::Refused => KeyVerdict::Reject { reason: "the host key was not trusted"@ },
        KeyAnswer::TimedOut => KeyVerdict::Reject {
            reason: "timed out waiting for host-key confirmation"@,
        },
    }
}

/// Decides about the server's key once it has been asked about.
pub fn judge_prompt(answer: KeyAnswer) -> (r: KeyVerdict)
    ensures
        r@ == answer_verdict(answer),
{
    match answer {
        KeyAnswer::Undelivered => KeyVerdict::Reject {
            reason: copy_of("nobody was listening for the host-key prompt"),
        },
        KeyAnswer::Trusted => KeyVerdict::Learn,
        KeyAnswer::Refused => KeyVerdict::Reject { reason: copy_of("the host key was not trusted") },
        KeyAnswer::TimedOut => KeyVerdict::Reject {
            reason: copy_of("timed out waiting for host-key confirmation"),
        },
    }
}

/// A key is accepted only when it is the recorded one or a human has trusted
/// it, and it is recorded only in the second case; a key that differs from
/// the recorded one is never asked about.
pub proof fn keys_need_a_record_or_a_human(
    known: KnownHost<Seq<char>>,
    prompt: HostKeyPrompt<Seq<char>>,
    answer: KeyAnswer,
)
    ensures
        host_key_verdict(known, prompt) is Accept <==> known is Matches,
        host_key_verdict(known, prompt) is Ask <==> known is Unknown,
        known is Refused ==> host_key_verdict(known, prompt) is Reject,
        !(host_key_verdict(known, prompt) is Learn),
        answer_verdict(answer) is Learn <==> answer is Trusted,
        answer_verdict(answer) is Learn || answer_verdict(answer) is Reject,
{
}

// ---------------------------------------------------------------------------
// Authentication
// ---------------------------------------------------------------------------

/// How many default key files there are.
pub const KEY_COUNT: usize = 3;

/// The names of the default key files, in the order in which they are tried.
pub open spec fn key_name(key: usize) -> Seq<char> {
    if key == 0 {
        "id_ed25519"@
    } else if key == 1 {
        "id_ecdsa"@
    } else {
        "id_rsa"@
    }
}

/// The path of a default key file.
pub open spec fn key_path(home: Seq<u8>, key: usize) -> Seq<u8> {
    joined(joined(home, encode_utf8(".ssh"@)), encode_utf8(key_name(key)))
}

/// What authentication is waiting for. `key` is the default key file at hand.
#[derive(Debug, Clone, Copy, PartialEq, Eq, Structural)]
pub enum AuthPhase {
    Start,
    /// For the number of identities that the agent holds.
    Agent,
    /// For the server's word on one of them.
    Identity { index: usize, count: usize },
    /// For whether a key file is there.
    Looking { key: usize },
    /// For whether it can be read without a passphrase.
    Loading { key: usize },
    /// For its passphrase.
    AskingPhrase { key: usize },
    /// For whether it can be read with the passphrase.
    Unlocking { key: usize },
    /// For the server's word on the key.
    TryingKey { key: usize },
    /// For the password.
    AskingPassword,
    /// For the server's word on the password.
    TryingPassword,
    Over,
}

/// What the application is to do next.
#[derive(Debug)]
pub enum AuthAction<P = FsPath, S = String, E = VfsError> {
    /// Count the identities of the agent; none if there is no agent.
    CountIdentities,
    /// Offer an identity of the agent to the server.
    TryIdentity { index: usize },
    /// See whether a file is there.
    LookFor { path: P },
    /// Read a key file.
    Load { path: P, passphrase: Option<S> },
    /// Ask for a secret and wait for the answer.
    Ask { stage: AuthStage<P, S> },
    /// Offer the key read last to the server.
    TryKey,
    /// Offer a password to the server.
    TryPassword { password: S },
    /// Authentication has succeeded.
    Accepted,
    /// Authentication has failed.
    Failed { error: E },
}

/// The model of an [`AuthAction`].
pub type AuthActionView = AuthAction<Seq<u8>, Seq<char>, VfsErrorView>;

impl View for AuthAction {
    type V = AuthActionView;

    open spec fn view(&self) -> AuthActionView {
        match self {
            AuthAction::CountIdentities => AuthAction::CountIdentities,
            AuthAction::TryIdentity { index } => AuthAction::TryIdentity { index: *index },
            AuthAction::LookFor { path } => AuthAction::LookFor { path: path@ },
            AuthAction::Load { path, passphrase } => AuthAction::Load {
                path: path@,
                passphrase: opt_text(*passphrase),
            },
            AuthAction::Ask { stage } => AuthAction::Ask { stage: stage@ },
            AuthAction::TryKey => AuthAction::TryKey,
            AuthAction::TryPassword { password } => AuthAction::TryPassword {
                password: password@,
            },
            AuthAction::Accepted => AuthAction::Accepted,
            AuthAction::Failed { error } => AuthAction::Failed { error: error@ },
        }
    }
}

/// What came of asking for a secret.
#[derive(Debug)]
pub enum SecretAnswer<S = String> {
    /// Nobody was there to be asked.
    Undelivered,
    /// Skipped, or left without an answer.
    Nothing,
    Secret(S),
}

/// The outcome of an [`AuthAction`].
#[derive(Debug)]
pub enum AuthReply<S = String> {
    Start,
    Identities(usize),
    /// Whether the server accepted what was offered.
    Verdict(bool),
    /// Whether the file is there.
    Found(bool),
    /// Whether the key could be read.
    Loaded(bool),
    Answer(SecretAnswer<S>),
}

/// The model of an [`AuthReply`].
pub type AuthReplyView = AuthReply<Seq<char>>;

impl View for AuthReply {
    type V = AuthReplyView;

    open spec fn view(&self) -> AuthReplyView {
        match self {
            AuthReply::Start => AuthReply::Start,
            AuthReply::Identities(n) => AuthReply::Identities(*n),
            AuthReply::Verdict(b) => AuthReply::Verdict(*b),
            AuthReply::Found(b) => AuthReply::Found(*b),
            AuthReply::Loaded(b) => AuthReply::Loaded(*b),
            AuthReply::Answer(a) => AuthReply::Answer(
                match a {
                    SecretAnswer::Undelivered => SecretAnswer::Undelivered,
                    SecretAnswer::Nothing => SecretAnswer::Nothing,
                    SecretAnswer::Secret(t) => SecretAnswer::Secret(t@),
                },
            ),
        }
    }
}

/// Who is to be authenticated, and with what.
#[verifier::ext_equal]
pub struct AuthSubject {
    pub user: Seq<char>,
    pub host: Seq<char>,
    pub home: Option<Seq<u8>>,
}

/// Goes on with a default key file, or with the password when there is none
/// left.
pub open spec fn next_key(a: AuthSubject, key: usize) -> (AuthPhase, AuthActionView) {
    match a.home {
        Some(home) => if key < KEY_COUNT {
            (AuthPhase::Looking { key }, AuthAction::LookFor { path: key_path(home, key) })
        } else {
            (
                AuthPhase::AskingPassword,
                AuthAction::Ask { stage: AuthStage::Password { user: a.user } },
            )
        },
        None => (
            AuthPhase::AskingPassword,
            AuthAction::Ask { stage: AuthStage::Password { user: a.user } },
        ),
    }
}

/// The key file after this one.
pub open spec fn key_after(key: usize) -> usize {
    if key >= KEY_COUNT {
        key
    } else {
        (key + 1) as usize
    }
}

/// The path of the key file at hand.
pub open spec fn path_at(a: AuthSubject, key: usize) -> Seq<u8> {
    match a.home {
        Some(home) => key_path(home, key),
        None => Seq::empty(),
    }
}

/// The server turned the user away.
pub open spec fn denied(a: AuthSubject) -> (AuthPhase, AuthActionView) {
    (
        AuthPhase::Over,
        AuthAction::Failed { error: VfsError::PermissionDenied { location: a.host } },
    )
}

/// One step of the authentication. An answer that was not asked for ends it.
pub open spec fn auth_step(a: AuthSubject, phase: AuthPhase, reply: AuthReplyView) -> (
    AuthPhase,
    AuthActionView,
) {
    match (phase, reply) {
        (AuthPhase::Start, AuthReply::Start) => (AuthPhase::Agent, AuthAction::CountIdentities),
        (AuthPhase::Agent, AuthReply::Identities(count)) => if count > 0 {
            (AuthPhase::Identity { index: 0, count }, AuthAction::TryIdentity { index: 0 })
        } else {
            next_key(a, 0)
        },
        (AuthPhase::Identity { index, count }, AuthReply::Verdict(ok)) => if ok {
            (AuthPhase::Over, AuthAction::Accepted)
        } else if index + 1 < count {
            (
                AuthPhase::Identity { index: (index + 1) as usize, count },
                AuthAction::TryIdentity { index: (index + 1) as usize },
            )
        } else {
            next_key(a, 0)
        },
        (AuthPhase::Looking { key }, AuthReply::Found(found)) => if found {
            (
                AuthPhase::Loading { key },
                AuthAction::Load { path: path_at(a, key), passphrase: None },
            )
        } else {
            next_key(a, key_after(key))
        },
        (AuthPhase::Loading { key }, AuthReply::Loaded(ok)) => if ok {
            (AuthPhase::TryingKey { key }, AuthAction::TryKey)
        } else {
            (
                AuthPhase::AskingPhrase { key },
                AuthAction::Ask { stage: AuthStage::KeyPassphrase { key_path: path_at(a, key) } },
            )
        },
        (AuthPhase::AskingPhrase { key }, AuthReply::Answer(answer)) => match answer {
            SecretAnswer::Secret(text) => (
                AuthPhase::Unlocking { key },
                AuthAction::Load { path: path_at(a, key), passphrase: Some(text) },
            ),
            _ => next_key(a, key_after(key)),
        },
        (AuthPhase::Unlocking { key }, AuthReply::Loaded(ok)) => if ok {
            (AuthPhase::TryingKey { key }, AuthAction::TryKey)
        } else {
            next_key(a, key_after(key))
        },
        (AuthPhase::TryingKey { key }, AuthReply::Verdict(ok)) => if ok {
            (AuthPhase::Over, AuthAction::Accepted)
        } else {
            next_key(a, key_after(key))
        },
        (AuthPhase::AskingPassword, AuthReply::Answer(answer)) => match answer {
            SecretAnswer::Secret(password) => (
                AuthPhase::TryingPassword,
                AuthAction::TryPassword { password },
            ),
            SecretAnswer::Nothing => denied(a),
            SecretAnswer::Undelivered => (
                AuthPhase::Over,
                AuthAction::Failed {
                    error: VfsError::Unavailable {
                        message: "nobody was listening for the password prompt"@,
                    },
                },
            ),
        },
        (AuthPhase::TryingPassword, AuthReply::Verdict(ok)) => if ok {
            (AuthPhase::Over, AuthAction::Accepted)
        } else {
            denied(a)
        },
        _ => denied(a),
    }
}

/// The authentication of a user: the agent first, then the default key files,
/// then a password.
#[derive(Debug)]
pub struct AuthLadder {
    user: String,
    host: String,
    home: Option<FsPath>,
    phase: AuthPhase,
}

impl AuthLadder {
    /// Who is to be authenticated.
    pub closed spec fn subject(&self) -> AuthSubject {
        AuthSubject { user: self.user@, host: self.host@, home: opt_path(self.home) }
    }

    /// What the authentication is waiting for.
    pub closed spec fn waits_for(&self) -> AuthPhase {
        self.phase
    }

    /// An authentication that has not begun.
    pub fn new(user: String, host: String, home: Option<FsPath>) -> (r: AuthLadder)
        ensures
            r.subject() == (AuthSubject { user: user@, host: host@, home: opt_path(home) }),
            r.waits_for() == AuthPhase::Start,
    {
        AuthLadder { user, host, home, phase: AuthPhase::Start }
    }

    fn key_file(&self, key: usize) -> (r: FsPath)
        ensures
            r@ == path_at(self.subject(), key),
    {
        match &self.home {
            Some(home) => {
                let ssh = bytes_of(".ssh");
                let name = if key == 0 {
                    bytes_of("id_ed25519")
                } else if key == 1 {
                    bytes_of("id_ecdsa")
                } else {
                    bytes_of("id_rsa")
                };
                home.join_bytes(ssh.as_slice()).join_bytes(name.as_slice())
            },
            None => {
                let none: Vec<u8> = Vec::new();
                assert(none@ =~= Seq::empty());
                FsPath::from_bytes(none)
            },
        }
    }

    fn try_next_key(&mut self, key: usize) -> (r: AuthAction)
        ensures
            (final(self).waits_for(), r@) == next_key(old(self).subject(), key),
            final(self).subject() == old(self).subject(),
    {
        if self.home.is_some() && key < KEY_COUNT {
            self.phase = AuthPhase::Looking { key };
            return AuthAction::LookFor { path: self.key_file(key) };
        }
        self.phase = AuthPhase::AskingPassword;
        AuthAction::Ask { stage: AuthStage::Password { user: self.user.clone() } }
    }

    fn deny(&mut self) -> (r: AuthAction)
        ensures
            (final(self).waits_for(), r@) == denied(old(self).subject()),
            final(self).subject() == old(self).subject(),
    {
        self.phase = AuthPhase::Over;
        AuthAction::Failed { error: VfsError::PermissionDenied { location: self.host.clone() } }
    }

    fn after(key: usize) -> (r: usize)
        ensures
            r == key_after(key),
    {
        if key >= KEY_COUNT {
            key
        } else {
            key + 1
        }
    }

    /// One step: the outcome of the last action gives the next one.
    pub fn step(&mut self, reply: AuthReply) -> (r: AuthAction)
        ensures
            (final(self).waits_for(), r@) == auth_step(
                old(self).subject(),
                old(self).waits_for(),
                reply@,
            ),
            final(self).subject() == old(self).subject(),
    {
        match (self.phase, reply) {
            (AuthPhase::Start, AuthReply::Start) => {
                self.phase = AuthPhase::Agent;
                AuthAction::CountIdentities
            },
            (AuthPhase::Agent, AuthReply::Identities(count)) => {
                if count > 0 {
                    self.phase = AuthPhase::Identity { index: 0, count };
                    AuthAction::TryIdentity { index: 0 }
                } else {
                    self.try_next_key(0)
                }
            },
            (AuthPhase::Identity { index, count }, AuthReply::Verdict(ok)) => {
                if ok {
                    self.phase = AuthPhase::Over;
                    AuthAction::Accepted
                } else if index < count && index + 1 < count {
                    self.phase = AuthPhase::Identity { index: index + 1, count };
                    AuthAction::TryIdentity { index: index + 1 }
                } else {
                    self.try_next_key(0)
                }
            },
            (AuthPhase::Looking { key }, AuthReply::Found(found)) => {
                if found {
                    self.phase = AuthPhase::Loading { key };
                    AuthAction::Load { path: self.key_file(key), passphrase: None }
                } else {
                    self.try_next_key(Self::after(key))
                }
            },
            (AuthPhase::Loading { key }, AuthReply::Loaded(ok)) => {
                if ok {
                    self.phase = AuthPhase::TryingKey { key };
                    AuthAction::TryKey
                } else {
                    self.phase = AuthPhase::AskingPhrase { key };
                    AuthAction::Ask {
                        stage: AuthStage::KeyPassphrase { key_path: self.key_file(key) },
                    }
                }
            },
            (AuthPhase::AskingPhrase { key }, AuthReply::Answer(answer)) => match answer {
                SecretAnswer::Secret(text) => {
                    self.phase = AuthPhase::Unlocking { key };
                    AuthAction::Load { path: self.key_file(key), passphrase: Some(text) }
                },
                _ => self.try_next_key(Self::after(key)),
            },
            (AuthPhase::Unlocking { key }, AuthReply::Loaded(ok)) => {
                if ok {
                    self.phase = AuthPhase::TryingKey { key };
                    AuthAction::TryKey
                } else {
                    self.try_next_key(Self::after(key))
                }
            },
            (AuthPhase::TryingKey { key }, AuthReply::Verdict(ok)) => {
                if ok {
                    self.phase = AuthPhase::Over;
                    AuthAction::Accepted
                } else {
                    self.try_next_key(Self::after(key))
                }
            },
            (AuthPhase::AskingPassword, AuthReply::Answer(answer)) => match answer {
                SecretAnswer::Secret(password) => {
                    self.phase = AuthPhase::TryingPassword;
                    AuthAction::TryPassword { password }
                },
                SecretAnswer::Nothing => self.deny(),
                SecretAnswer::Undelivered => {
                    self.phase = AuthPhase::Over;
                    AuthAction::Failed {
                        error: VfsError::Unavailable {
                            message: copy_of("nobody was listening for the password prompt"),
                        },
                    }
                },
            },
            (AuthPhase::TryingPassword, AuthReply::Verdict(ok)) => {
                if ok {
                    self.phase = AuthPhase::Over;
                    AuthAction::Accepted
                } else {
                    self.deny()
                }
            },
            _ => self.deny(),
        }
    }
}

/// How far authentication still is from its end, at most.
pub open spec fn auth_distance(phase: AuthPhase) -> nat {
    match phase {
        AuthPhase::Start => 0x1_0000_0000_0000_0002_0000,
        AuthPhase::Agent => 0x1_0000_0000_0000_0001_0000,
        AuthPhase::Identity { index, count } => if index < count {
            (100 + count - index) as nat
        } else {
            100
        },
        AuthPhase::Looking { key } => if key < KEY_COUNT {
            (10 * (KEY_COUNT - key) + 9) as nat
        } else {
            9
        },
        AuthPhase::Loading { key } => if key < KEY_COUNT {
            (10 * (KEY_COUNT - key) + 8) as nat
        } else {
            8
        },
        AuthPhase::AskingPhrase { key } => if key < KEY_COUNT {
            (10 * (KEY_COUNT - key) + 7) as nat
        } else {
            7
        },
        AuthPhase::Unlocking { key } => if key < KEY_COUNT {
            (10 * (KEY_COUNT - key) + 6) as nat
        } else {
            6
        },
        AuthPhase::TryingKey { key } => if key < KEY_COUNT {
            (10 * (KEY_COUNT - key) + 5) as nat
        } else {
            5
        },
        AuthPhase::AskingPassword => 2,
        AuthPhase::TryingPassword => 1,
        AuthPhase::Over => 0,
    }
}

/// Authentication always ends: every step brings it nearer to its end.
pub proof fn auth_always_ends(a: AuthSubject, phase: AuthPhase, reply: AuthReplyView)
    requires
        !(phase is Over),
    ensures
        auth_distance(auth_step(a, phase, reply).0) < auth_distance(phase),
{
}

/// Authentication succeeds only on the server's word.
pub proof fn only_the_server_accepts(a: AuthSubject, phase: AuthPhase, reply: AuthReplyView)
    ensures
        auth_step(a, phase, reply).1 is Accepted ==> reply == AuthReplyView::Verdict(true),
        auth_step(a, phase, reply).1 is Accepted || auth_step(a, phase, reply).1 is Failed
            <==> auth_step(a, phase, reply).0 is Over,
{
}

/// A passphrase is asked for only when the key could not be read without one,
/// and a password only when every key file has been dealt with; it is offered
/// once.
pub proof fn secrets_are_asked_for_last(a: AuthSubject, phase: AuthPhase, reply: AuthReplyView)
    ensures
        ({
            let (next, action) = auth_step(a, phase, reply);
            &&& next is AskingPhrase ==> phase is Loading && reply == AuthReplyView::Loaded(false)
            &&& next is AskingPassword && a.home is Some ==> {
                ||| phase matches AuthPhase::Looking { key } && key + 1 >= KEY_COUNT
                ||| phase matches AuthPhase::AskingPhrase { key } && key + 1 >= KEY_COUNT
                ||| phase matches AuthPhase::Unlocking { key } && key + 1 >= KEY_COUNT
                ||| phase matches AuthPhase::TryingKey { key } && key + 1 >= KEY_COUNT
            }
            &&& action is TryPassword ==> phase is AskingPassword
            &&& phase is TryingPassword ==> next is Over
        }),
{
}

// ---------------------------------------------------------------------------
// The handshake
// ---------------------------------------------------------------------------

/// What a handshake is waiting for.
#[derive(Debug, Clone, Copy, PartialEq, Eq, Structural)]
pub enum HandshakePhase {
    Start,
    Dialing,
    Authenticating,
    OpeningChannel,
    RequestingSubsystem,
    StartingSession,
    Over,
}

/// What the application is to do next.
#[derive(Debug)]
pub enum HandshakeAction<S = String, E = VfsError> {
    /// Connect and exchange keys.
    Dial { host: S, port: u16 },
    /// Run an [`AuthLadder`].
    Authenticate { user: S, host: S },
    OpenChannel,
    RequestSubsystem,
    StartSession,
    /// The session is ready.
    Connected,
    Failed { error: E },
}

/// The model of a [`HandshakeAction`].
pub type HandshakeActionView = HandshakeAction<Seq<char>, VfsErrorView>;

impl View for HandshakeAction {
    type V = HandshakeActionView;

    open spec fn view(&self) -> HandshakeActionView {
        match self {
            HandshakeAction::Dial { host, port } => HandshakeAction::Dial {
                host: host@,
                port: *port,
            },
            HandshakeAction::Authenticate { user, host } => HandshakeAction::Authenticate {
                user: user@,
                host: host@,
            },
            HandshakeAction::OpenChannel => HandshakeAction::OpenChannel,
            HandshakeAction::RequestSubsystem => HandshakeAction::RequestSubsystem,
            HandshakeAction::StartSession => HandshakeAction::StartSession,
            HandshakeAction::Connected => HandshakeAction::Connected,
            HandshakeAction::Failed { error } => HandshakeAction::Failed { error: error@ },
        }
    }
}

/// The outcome of a [`HandshakeAction`].
#[derive(Debug)]
pub enum HandshakeReply<S = String, E = VfsError> {
    Start,
    /// The step went well.
    Ready,
    /// The step failed. `reason` is why the server's key was rejected, where
    /// that is what happened.
    Broken { message: S, reason: Option<S> },
    /// Connecting took too long.
    TimedOut,
    /// Authentication failed.
    Refused { error: E },
}

/// The model of a [`HandshakeReply`].
pub type HandshakeReplyView = HandshakeReply<Seq<char>, VfsErrorView>;

impl View for HandshakeReply {
    type V = HandshakeReplyView;

    open spec fn view(&self) -> HandshakeReplyView {
        match self {
            HandshakeReply::Start => HandshakeReply::Start,
            HandshakeReply::Ready => HandshakeReply::Ready,
            HandshakeReply::Broken { message, reason } => HandshakeReply::Broken {
                message: message@,
                reason: opt_text(*reason),
            },
            HandshakeReply::TimedOut => HandshakeReply::TimedOut,
            HandshakeReply::Refused { error } => HandshakeReply::Refused { error: error@ },
        }
    }
}

/// Whom a handshake is with.
#[verifier::ext_equal]
pub struct Peer {
    pub user: Seq<char>,
    pub host: Seq<char>,
    pub port: u16,
}

/// The failure of the connection itself.
pub open spec fn dial_failure(
    p: Peer,
    message: Seq<char>,
    reason: Option<Seq<char>>,
) -> VfsErrorView {
    match reason {
        Some(reason) => VfsError::Unavailable {
            message: p.host + ":"@ + decimal(p.port as nat) + ": "@ + reason,
        },
        None => VfsError::Unavailable {
            message: "could not reach "@ + p.host + ":"@ + decimal(p.port as nat) + ": "@ + message,
        },
    }
}

/// The failure of a connection that took too long.
pub open spec fn dial_timeout(p: Peer) -> VfsErrorView {
    VfsError::Unavailable {
        message: "timed out connecting to "@ + p.host + ":"@ + decimal(p.port as nat),
    }
}

/// The failure of a later step of the protocol.
pub open spec fn ssh_failure(p: Peer, message: Seq<char>) -> VfsErrorView {
    VfsError::Unavailable { message: p.host + ": "@ + message }
}

/// The failure to start a session.
pub open spec fn session_failure(p: Peer, message: Seq<char>) -> VfsErrorView {
    VfsError::Unavailable {
        message: "sftp subsystem on "@ + p.host + " failed to start: "@ + message,
    }
}

/// The end of a handshake that failed.
pub open spec fn handshake_failed(error: VfsErrorView) -> (HandshakePhase, HandshakeActionView) {
    (HandshakePhase::Over, HandshakeAction::Failed { error })
}

/// One step of a handshake. Cancellation is noticed before connecting, before
/// authenticating and before opening the channel.
pub open spec fn handshake_step(
    p: Peer,
    phase: HandshakePhase,
    reply: HandshakeReplyView,
    cancel: bool,
) -> (HandshakePhase, HandshakeActionView) {
    match (phase, reply) {
        (HandshakePhase::Start, HandshakeReply::Start) => if cancel {
            handshake_failed(cancelled_failure())
        } else {
            (HandshakePhase::Dialing, HandshakeAction::Dial { host: p.host, port: p.port })
        },
        (HandshakePhase::Dialing, HandshakeReply::Ready) => if cancel {
            handshake_failed(cancelled_failure())
        } else {
            (
                HandshakePhase::Authenticating,
                HandshakeAction::Authenticate { user: p.user, host: p.host },
            )
        },
        (HandshakePhase::Dialing, HandshakeReply::Broken { message, reason }) => handshake_failed(
            dial_failure(p, message, reason),
        ),
        (HandshakePhase::Dialing, HandshakeReply::TimedOut) => handshake_failed(dial_timeout(p)),
        (HandshakePhase::Authenticating, HandshakeReply::Ready) => if cancel {
            handshake_failed(cancelled_failure())
        } else {
            (HandshakePhase::OpeningChannel, HandshakeAction::OpenChannel)
        },
        (HandshakePhase::Authenticating, HandshakeReply::Refused { error }) => handshake_failed(
            error,
        ),
        (HandshakePhase::OpeningChannel, HandshakeReply::Ready) => (
            HandshakePhase::RequestingSubsystem,
            HandshakeAction::RequestSubsystem,
        ),
        (HandshakePhase::OpeningChannel, HandshakeReply::Broken { message, .. })
            => handshake_failed(ssh_failure(p, message)),
        (HandshakePhase::RequestingSubsystem, HandshakeReply::Ready) => (
            HandshakePhase::StartingSession,
            HandshakeAction::StartSession,
        ),
        (HandshakePhase::RequestingSubsystem, HandshakeReply::Broken { message, .. })
            => handshake_failed(ssh_failure(p, message)),
        (HandshakePhase::StartingSession, HandshakeReply::Ready) => (
            HandshakePhase::Over,
            HandshakeAction::Connected,
        ),
        (HandshakePhase::StartingSession, HandshakeReply::Broken { message, .. })
            => handshake_failed(session_failure(p, message)),
        _ => handshake_failed(cancelled_failure()),
    }
}

/// The handshake with a server.
#[derive(Debug)]
pub struct Handshake {
    user: String,
    host: String,
    port: u16,
    phase: HandshakePhase,
}

/// Whom the authority of a location names; `fallback` is the user where it
/// names none.
pub open spec fn peer_of(location: LocationView, fallback: Seq<char>) -> Peer {
    let authority = match location.authority {
        Some(a) => a,
        None => Seq::empty(),
    };
    let (user, host, port) = authority_parts(authority);
    Peer {
        user: match user {
            Some(u) => u,
            None => fallback,
        },
        host,
        port,
    }
}

impl Handshake {
    /// Whom the handshake is with.
    pub closed spec fn peer(&self) -> Peer {
        Peer { user: self.user@, host: self.host@, port: self.port }
    }

    /// What the handshake is waiting for.
    pub closed spec fn waits_for(&self) -> HandshakePhase {
        self.phase
    }

    /// A handshake that has not begun; `fallback` is the user where the
    /// location names none.
    pub fn new(location: &Location, fallback: String) -> (r: Handshake)
        ensures
            r.peer() == peer_of(location@, fallback@),
            r.waits_for() == HandshakePhase::Start,
    {
        let (user, host, port) = match &location.authority {
            Some(a) => parse_authority(a.as_str()),
            None => {
                let none = String::new();
                assert(none@ =~= Seq::empty());
                parse_authority(none.as_str())
            },
        };
        let user = match user {
            Some(u) => u,
            None => fallback,
        };
        Handshake { user, host, port, phase: HandshakePhase::Start }
    }

    fn fail(&mut self, error: VfsError) -> (r: HandshakeAction)
        ensures
            (final(self).waits_for(), r@) == handshake_failed(error@),
            final(self).peer() == old(self).peer(),
    {
        self.phase = HandshakePhase::Over;
        HandshakeAction::Failed { error }
    }

    fn dial_error(&self, message: &str, reason: &Option<String>) -> (r: VfsError)
        ensures
            r@ == dial_failure(self.peer(), message@, opt_text(*reason)),
    {
        let port = decimal_of(self.port as u64);
        let message = match reason {
            Some(reason) => self.host.clone().concat(":").concat(port.as_str()).concat(
                ": ",
            ).concat(reason.as_str()),
            None => copy_of("could not reach ").concat(self.host.as_str()).concat(":").concat(
                port.as_str(),
            ).concat(": ").concat(message),
        };
        VfsError::Unavailable { message }
    }

    fn timeout_error(&self) -> (r: VfsError)
        ensures
            r@ == dial_timeout(self.peer()),
    {
        let port = decimal_of(self.port as u64);
        VfsError::Unavailable {
            message: copy_of("timed out connecting to ").concat(self.host.as_str()).concat(
                ":",
            ).concat(port.as_str()),
        }
    }

    fn ssh_error(&self, message: &str) -> (r: VfsError)
        ensures
            r@ == ssh_failure(self.peer(), message@),
    {
        VfsError::Unavailable { message: self.host.clone().concat(": ").concat(message) }
    }

    fn session_error(&self, message: &str) -> (r: VfsError)
        ensures
            r@ == session_failure(self.peer(), message@),
    {
        VfsError::Unavailable {
            message: copy_of("sftp subsystem on ").concat(self.host.as_str()).concat(
                " failed to start: ",
            ).concat(message),
        }
    }

    /// One step: the outcome of the last action, and whether cancellation has
    /// been requested by now, give the next action.
    pub fn step(&mut self, reply: HandshakeReply, cancel: bool) -> (r: HandshakeAction)
        ensures
            (final(self).waits_for(), r@) == handshake_step(
                old(self).peer(),
                old(self).waits_for(),
                reply@,
                cancel,
            ),
            final(self).peer() == old(self).peer(),
    {
        match (self.phase, reply) {
            (HandshakePhase::Start, HandshakeReply::Start) => {
                if cancel {
                    self.fail(cancelled_error())
                } else {
                    self.phase = HandshakePhase::Dialing;
                    HandshakeAction::Dial { host: self.host.clone(), port: self.port }
                }
            },
            (HandshakePhase::Dialing, HandshakeReply::Ready) => {
                if cancel {
                    self.fail(cancelled_error())
                } else {
                    self.phase = HandshakePhase::Authenticating;
                    HandshakeAction::Authenticate {
                        user: self.user.clone(),
                        host: self.host.clone(),
                    }
                }
            },
            (HandshakePhase::Dialing, HandshakeReply::Broken { message, reason }) => {
                let error = self.dial_error(message.as_str(), &reason);
                self.fail(error)
            },
            (HandshakePhase::Dialing, HandshakeReply::TimedOut) => {
                let error = self.timeout_error();
                self.fail(error)
            },
            (HandshakePhase::Authenticating, HandshakeReply::Ready) => {
                if cancel {
                    self.fail(cancelled_error())
                } else {
                    self.phase = HandshakePhase::OpeningChannel;
                    HandshakeAction::OpenChannel
                }
            },
            (HandshakePhase::Authenticating, HandshakeReply::Refused { error }) => {
                self.fail(error)
            },
            (HandshakePhase::OpeningChannel, HandshakeReply::Ready) => {
                self.phase = HandshakePhase::RequestingSubsystem;
                HandshakeAction::RequestSubsystem
            },
            (HandshakePhase::OpeningChannel, HandshakeReply::Broken { message, .. }) => {
                let error = self.ssh_error(message.as_str());
                self.fail(error)
            },
            (HandshakePhase::RequestingSubsystem, HandshakeReply::Ready) => {
                self.phase = HandshakePhase::StartingSession;
                HandshakeAction::StartSession
            },
            (HandshakePhase::RequestingSubsystem, HandshakeReply::Broken { message, .. }) => {
                let error = self.ssh_error(message.as_str());
                self.fail(error)
            },
            (HandshakePhase::StartingSession, HandshakeReply::Ready) => {
                self.phase = HandshakePhase::Over;
                HandshakeAction::Connected
            },
            (HandshakePhase::StartingSession, HandshakeReply::Broken { message, .. }) => {
                let error = self.session_error(message.as_str());
                self.fail(error)
            },
            _ => self.fail(cancelled_error()),
        }
    }
}

/// A handshake reports success only when the session itself is ready, which
/// it cannot be without authentication, and authentication begins only after
/// connecting.
pub proof fn handshake_runs_in_order(
    p: Peer,
    phase: HandshakePhase,
    reply: HandshakeReplyView,
    cancel: bool,
)
    ensures
        ({
            let (next, action) = handshake_step(p, phase, reply, cancel);
            &&& next is Authenticating ==> phase is Dialing && reply is Ready
            &&& next is OpeningChannel ==> phase is Authenticating && reply is Ready
            &&& next is RequestingSubsystem ==> phase is OpeningChannel && reply is Ready
            &&& next is StartingSession ==> phase is RequestingSubsystem && reply is Ready
            &&& action is Connected ==> phase is StartingSession && reply is Ready
            &&& action is Connected || action is Failed <==> next is Over
        }),
{
}

/// While cancellation is requested a handshake neither connects, nor
/// authenticates, nor opens a channel.
pub proof fn cancelled_handshake_goes_no_further(
    p: Peer,
    phase: HandshakePhase,
    reply: HandshakeReplyView,
)
    ensures
        ({
            let action = handshake_step(p, phase, reply, true).1;
            !(action is Dial) && !(action is Authenticate) && !(action is OpenChannel)
        }),
{
}

} // verus!
