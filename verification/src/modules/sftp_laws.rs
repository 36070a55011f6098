//! What holds of every listing, every authority and every handshake of the
//! SFTP backend.
use crate::model::fs::entry::EntryKind;
use crate::model::remote::{AuthStage, HostKeyPrompt};
use crate::model::vfs::{LocationView, VfsError, VfsErrorView};
use crate::modules::sftp::{
    AuthAction, AuthActionView, AuthPhase, AuthReply, AuthSubject, HandshakeActionView,
    HandshakePhase, HandshakeReply, HandshakeReplyView, KeyAnswer, KeyVerdict, KnownHost, Peer,
    RemoteStat, SecretAnswer, answer_verdict, auth_step, authority_parts, handshake_step,
    host_key_verdict, peer_of, remote_listing,
};
use crate::path::joined;
use crate::text::{
    cuts_are_at_the_first, decimal, parsed_unsigned, rfind, rfind_is, value_of_decimal,
};
use vstd::prelude::*;
use vstd::utf8::*;

verus! {

/// Every name that a server lists becomes one entry, in order, but for the
/// directory itself and its parent. An entry is a directory exactly where the
/// server says so.
pub proof fn every_listed_name_is_an_entry(raw: Seq<(Seq<char>, RemoteStat)>)
    ensures
        ({
            let named = raw.filter(
                |item: (Seq<char>, RemoteStat)| item.0 != "."@ && item.0 != ".."@,
            );
            let list = remote_listing(raw);
            &&& list.len() == named.len()
            &&& forall|i: int|
                0 <= i < list.len() ==> {
                    let (name, stat) = named[i];
                    let entry = #[trigger] list[i];
                    &&& entry.name == encode_utf8(name)
                    &&& entry.kind == EntryKind::Directory <==> stat.is_dir
                    &&& entry.kind == EntryKind::File <==> stat.is_file && !stat.is_dir
                    &&& entry.size == stat.size
                    &&& entry.modified == stat.modified
                    &&& entry.is_symlink == stat.is_symlink
                }
        }),
    decreases raw.len(),
{
    let keep = |item: (Seq<char>, RemoteStat)| item.0 != "."@ && item.0 != ".."@;
    reveal(Seq::filter);
    if raw.len() > 0 {
        every_listed_name_is_an_entry(raw.drop_last());
    }
}

/// A directory that the server lists is listed as a directory, whatever
/// stands around it.
pub proof fn listed_directories_are_directories(raw: Seq<(Seq<char>, RemoteStat)>, i: int)
    requires
        0 <= i < raw.len(),
        raw[i].0 != "."@,
        raw[i].0 != ".."@,
    ensures
        exists|j: int|
            0 <= j < remote_listing(raw).len() && {
                let entry = #[trigger] remote_listing(raw)[j];
                &&& entry.name == encode_utf8(raw[i].0)
                &&& entry.kind == EntryKind::Directory <==> raw[i].1.is_dir
                &&& entry.size == raw[i].1.size
            },
    decreases raw.len(),
{
    let list = remote_listing(raw);
    let rest = remote_listing(raw.drop_last());
    if i == raw.len() - 1 {
        assert(list[list.len() - 1].name == encode_utf8(raw[i].0));
    } else {
        listed_directories_are_directories(raw.drop_last(), i);
        let j = choose|j: int|
            0 <= j < rest.len() && {
                let entry = #[trigger] rest[j];
                &&& entry.name == encode_utf8(raw.drop_last()[i].0)
                &&& entry.kind == EntryKind::Directory <==> raw.drop_last()[i].1.is_dir
                &&& entry.size == raw.drop_last()[i].1.size
            };
        assert(list[j] == rest[j]);
    }
}

/// What stands behind the user of an authority is read as a host and a port.
proof fn host_and_port(host: Seq<char>, text: Seq<char>)
    requires
        host.len() > 0,
        !text.contains(':'),
    ensures
        ({
            let rest = host + ":"@ + text;
            let i = rfind(rest, ':');
            &&& i == host.len()
            &&& rest.take(i) == host
            &&& rest.skip(i + 1) == text
        }),
{
    reveal_strlit(":");
    let rest = host + ":"@ + text;
    let i = host.len() as int;
    assert forall|j: int| i < j < rest.len() implies rest[j] != ':' by {
        assert(rest[j] == text[j - i - 1]);
    }
    rfind_is(rest, ':', i);
    assert(rest.take(i) =~= host);
    assert(rest.skip(i + 1) =~= text);
}

/// An authority names a user before the first `@`, a host, and a port behind
/// the last colon. Without a port that can be read the port is 22 and the
/// rest is all host; without a user none is named.
pub proof fn authorities_are_taken_apart(
    user: Seq<char>,
    host: Seq<char>,
    text: Seq<char>,
    port: nat,
)
    requires
        !user.contains('@'),
        !host.contains('@'),
        !host.contains(':'),
        host.len() > 0,
        !text.contains(':'),
        !text.contains('@'),
        port <= 0xFFFF,
    ensures
        ({
            let named = if user.len() > 0 {
                Some(user)
            } else {
                None
            };
            let front = user + seq!['@'];
            &&& authority_parts(front + host) == (named, host, 22u16)
            &&& authority_parts(host) == (None::<Seq<char>>, host, 22u16)
            &&& authority_parts(front + (host + ":"@ + decimal(port))) == (
                named,
                host,
                port as u16,
            )
            &&& authority_parts(host + ":"@ + decimal(port)) == (
                None::<Seq<char>>,
                host,
                port as u16,
            )
            &&& parsed_unsigned(text, 0xFFFF) is None ==> {
                &&& authority_parts(front + (host + ":"@ + text)) == (
                    named,
                    host + ":"@ + text,
                    22u16,
                )
                &&& authority_parts(host + ":"@ + text) == (
                    None::<Seq<char>>,
                    host + ":"@ + text,
                    22u16,
                )
            }
        }),
{
    reveal_strlit(":");
    value_of_decimal(port);
    let number = decimal(port);
    assert(!number.contains('@') && !number.contains(':'));
    host_and_port(host, number);
    host_and_port(host, text);
    rfind_is(host, ':', -1);
    let (a, b) = (host + ":"@ + number, host + ":"@ + text);
    assert(!a.contains('@')) by {
        if a.contains('@') {
            let j = choose|j: int| 0 <= j < a.len() && a[j] == '@';
            assert(j < host.len() ==> host[j] == '@');
            assert(j > host.len() ==> number[j - host.len() - 1] == '@');
        }
    }
    assert(!b.contains('@')) by {
        if b.contains('@') {
            let j = choose|j: int| 0 <= j < b.len() && b[j] == '@';
            assert(j < host.len() ==> host[j] == '@');
            assert(j > host.len() ==> text[j - host.len() - 1] == '@');
        }
    }
    cuts_are_at_the_first(user, '@', host);
    cuts_are_at_the_first(user, '@', a);
    cuts_are_at_the_first(user, '@', b);
    cuts_are_at_the_first(host, '@', user);
    cuts_are_at_the_first(a, '@', user);
    cuts_are_at_the_first(b, '@', user);
    assert(number.len() > 0 && number[0] != '+');
}

/// A handshake is with the user and the host that the location names; where
/// it names no user, with the one handed in.
pub proof fn handshakes_are_with_the_named_server(location: LocationView, fallback: Seq<char>)
    ensures
        ({
            let p = peer_of(location, fallback);
            let (user, host, port) = authority_parts(
                match location.authority {
                    Some(a) => a,
                    None => Seq::empty(),
                },
            );
            &&& p.host == host
            &&& p.port == port
            &&& user is None ==> p.user == fallback
            &&& user matches Some(u) ==> p.user == u
        }),
{
}

/// A refusal of a key says why.
pub proof fn refused_keys_are_explained(message: Seq<char>, prompt: HostKeyPrompt<Seq<char>>)
    ensures
        host_key_verdict(KnownHost::Refused { message }, prompt) == (KeyVerdict::Reject {
            reason: "known_hosts check failed: "@ + message,
        }),
        host_key_verdict(KnownHost::Broken { message }, prompt) == (KeyVerdict::Reject {
            reason: "internal error checking known_hosts: "@ + message,
        }),
        host_key_verdict(KnownHost::Unknown, prompt) == (KeyVerdict::Ask { prompt }),
        answer_verdict(KeyAnswer::Undelivered) == (KeyVerdict::Reject {
            reason: "nobody was listening for the host-key prompt"@,
        }),
        answer_verdict(KeyAnswer::Refused) == (KeyVerdict::Reject {
            reason: "the host key was not trusted"@,
        }),
        answer_verdict(KeyAnswer::TimedOut) == (KeyVerdict::Reject {
            reason: "timed out waiting for host-key confirmation"@,
        }),
{
}

/// The three default key files, by their place in the order of trying.
pub open spec fn is_key_file(home: Seq<u8>, key: usize, path: Seq<u8>) -> bool {
    let dir = joined(home, encode_utf8(".ssh"@));
    ||| key == 0 && path == joined(dir, encode_utf8("id_ed25519"@))
    ||| key == 1 && path == joined(dir, encode_utf8("id_ecdsa"@))
    ||| key == 2 && path == joined(dir, encode_utf8("id_rsa"@))
}

/// The identities of the agent are offered first, all of them, one after the
/// other.
pub proof fn every_identity_is_offered(a: AuthSubject, index: usize, count: usize)
    requires
        index < count,
    ensures
        auth_step(a, AuthPhase::Start, AuthReply::Start) == (
            AuthPhase::Agent,
            AuthActionView::CountIdentities,
        ),
        auth_step(a, AuthPhase::Agent, AuthReply::Identities(count)) == (
            AuthPhase::Identity { index: 0, count },
            AuthActionView::TryIdentity { index: 0 },
        ),
        index + 1 < count ==> auth_step(
            a,
            AuthPhase::Identity { index, count },
            AuthReply::Verdict(false),
        ) == (
            AuthPhase::Identity { index: (index + 1) as usize, count },
            AuthActionView::TryIdentity { index: (index + 1) as usize },
        ),
        auth_step(a, AuthPhase::Identity { index, count }, AuthReply::Verdict(true)).1 is Accepted,
        index + 1 == count ==> {
            let (next, action) = auth_step(
                a,
                AuthPhase::Identity { index, count },
                AuthReply::Verdict(false),
            );
            &&& (next, action) == auth_step(a, AuthPhase::Agent, AuthReply::Identities(0))
            &&& match a.home {
                Some(home) => next == AuthPhase::Looking { key: 0 } && action == (
                AuthActionView::LookFor {
                    path: joined(joined(home, encode_utf8(".ssh"@)), encode_utf8("id_ed25519"@)),
                }),
                None => next is AskingPassword && action == (AuthActionView::Ask {
                    stage: AuthStage::Password { user: a.user },
                }),
            }
        },
{
}

/// The key files are tried in turn. One that is there is read, without a
/// passphrase first; one that cannot be read is asked about and read again
/// with the answer; one that was read is offered. Whatever goes wrong with
/// one, the next follows, and the password follows the last.
pub proof fn every_key_file_is_tried(a: AuthSubject, home: Seq<u8>, key: usize, secret: Seq<char>)
    requires
        a.home == Some(home),
        key < 3,
    ensures
        ({
            let found = auth_step(a, AuthPhase::Looking { key }, AuthReply::Found(true));
            &&& found.0 == AuthPhase::Loading { key }
            &&& found.1 matches AuthAction::Load { path, passphrase } && is_key_file(
                home,
                key,
                path,
            ) && passphrase is None
        }),
        auth_step(a, AuthPhase::Loading { key }, AuthReply::Loaded(true)) == (
            AuthPhase::TryingKey { key },
            AuthActionView::TryKey,
        ),
        ({
            let asked = auth_step(a, AuthPhase::Loading { key }, AuthReply::Loaded(false));
            &&& asked.0 == AuthPhase::AskingPhrase { key }
            &&& asked.1 matches AuthAction::Ask { stage } && (
            stage matches AuthStage::KeyPassphrase { key_path } && is_key_file(home, key, key_path))
        }),
        ({
            let answered = auth_step(
                a,
                AuthPhase::AskingPhrase { key },
                AuthReply::Answer(SecretAnswer::Secret(secret)),
            );
            &&& answered.0 == AuthPhase::Unlocking { key }
            &&& answered.1 matches AuthAction::Load { path, passphrase } && is_key_file(
                home,
                key,
                path,
            ) && passphrase == Some(secret)
        }),
        auth_step(a, AuthPhase::Unlocking { key }, AuthReply::Loaded(true)) == (
            AuthPhase::TryingKey { key },
            AuthActionView::TryKey,
        ),
        auth_step(a, AuthPhase::TryingKey { key }, AuthReply::Verdict(true)).1 is Accepted,
        ({
            let next = auth_step(a, AuthPhase::Looking { key }, AuthReply::Found(false));
            &&& next == auth_step(
                a,
                AuthPhase::AskingPhrase { key },
                AuthReply::Answer(SecretAnswer::Nothing),
            )
            &&& next == auth_step(
                a,
                AuthPhase::AskingPhrase { key },
                AuthReply::Answer(SecretAnswer::Undelivered),
            )
            &&& next == auth_step(a, AuthPhase::Unlocking { key }, AuthReply::Loaded(false))
            &&& next == auth_step(a, AuthPhase::TryingKey { key }, AuthReply::Verdict(false))
            &&& if key < 2 {
                &&& next.0 == (AuthPhase::Looking { key: (key + 1) as usize })
                &&& next.1 matches AuthAction::LookFor { path } && is_key_file(
                    home,
                    (key + 1) as usize,
                    path,
                )
            } else {
                next == (
                    AuthPhase::AskingPassword,
                    AuthActionView::Ask { stage: AuthStage::Password { user: a.user } },
                )
            }
        }),
{
}

/// The password that was given is the one that is offered, once. Without one,
/// or when the server refuses it, permission is denied; when nobody could be
/// asked, the server is out of reach.
pub proof fn the_password_is_offered_once(a: AuthSubject, password: Seq<char>)
    ensures
        auth_step(
            a,
            AuthPhase::AskingPassword,
            AuthReply::Answer(SecretAnswer::Secret(password)),
        ) == (AuthPhase::TryingPassword, AuthActionView::TryPassword { password }),
        auth_step(a, AuthPhase::TryingPassword, AuthReply::Verdict(true)) == (
            AuthPhase::Over,
            AuthActionView::Accepted,
        ),
        ({
            let refused = (
                AuthPhase::Over,
                AuthActionView::Failed { error: VfsError::PermissionDenied { location: a.host } },
            );
            &&& auth_step(a, AuthPhase::TryingPassword, AuthReply::Verdict(false)) == refused
            &&& auth_step(
                a,
                AuthPhase::AskingPassword,
                AuthReply::Answer(SecretAnswer::Nothing),
            ) == refused
        }),
        auth_step(
            a,
            AuthPhase::AskingPassword,
            AuthReply::Answer(SecretAnswer::Undelivered),
        ) == (
            AuthPhase::Over,
            AuthActionView::Failed {
                error: VfsError::Unavailable {
                    message: "nobody was listening for the password prompt"@,
                },
            },
        ),
{
}

/// When every step goes well and nobody cancels, a handshake connects to the
/// host and port, authenticates the user there, opens a channel, asks for
/// the subsystem on it, starts the session and is done.
pub proof fn handshakes_go_through_every_step(p: Peer)
    ensures
        handshake_step(p, HandshakePhase::Start, HandshakeReply::Start, false) == (
            HandshakePhase::Dialing,
            HandshakeActionView::Dial { host: p.host, port: p.port },
        ),
        handshake_step(p, HandshakePhase::Dialing, HandshakeReply::Ready, false) == (
            HandshakePhase::Authenticating,
            HandshakeActionView::Authenticate { user: p.user, host: p.host },
        ),
        handshake_step(p, HandshakePhase::Authenticating, HandshakeReply::Ready, false) == (
            HandshakePhase::OpeningChannel,
            HandshakeActionView::OpenChannel,
        ),
        forall|cancel: bool|
            #[trigger] handshake_step(
                p,
                HandshakePhase::OpeningChannel,
                HandshakeReply::Ready,
                cancel,
            ) == (HandshakePhase::RequestingSubsystem, HandshakeActionView::RequestSubsystem),
        forall|cancel: bool|
            #[trigger] handshake_step(
                p,
                HandshakePhase::RequestingSubsystem,
                HandshakeReply::Ready,
                cancel,
            ) == (HandshakePhase::StartingSession, HandshakeActionView::StartSession),
        forall|cancel: bool|
            #[trigger] handshake_step(
                p,
                HandshakePhase::StartingSession,
                HandshakeReply::Ready,
                cancel,
            ) == (HandshakePhase::Over, HandshakeActionView::Connected),
{
}

/// A handshake that breaks off ends at once and says what went wrong, and
/// with which server.
pub proof fn broken_handshakes_are_explained(
    p: Peer,
    message: Seq<char>,
    reason: Option<Seq<char>>,
    error: VfsErrorView,
    cancel: bool,
)
    ensures
        ({
            let address = p.host + ":"@ + decimal(p.port as nat);
            let broken = HandshakeReplyView::Broken { message, reason };
            &&& handshake_step(p, HandshakePhase::Dialing, broken, cancel) == (
                HandshakePhase::Over,
                HandshakeActionView::Failed {
                    error: VfsError::Unavailable {
                        message: match reason {
                            Some(why) => address + ": "@ + why,
                            None => "could not reach "@ + address + ": "@ + message,
                        },
                    },
                },
            )
            &&& handshake_step(p, HandshakePhase::Dialing, HandshakeReply::TimedOut, cancel) == (
                HandshakePhase::Over,
                HandshakeActionView::Failed {
                    error: VfsError::Unavailable {
                        message: "timed out connecting to "@ + address,
                    },
                },
            )
            &&& handshake_step(
                p,
                HandshakePhase::Authenticating,
                HandshakeReply::Refused { error },
                cancel,
            ) == (HandshakePhase::Over, HandshakeActionView::Failed { error })
            &&& handshake_step(p, HandshakePhase::OpeningChannel, broken, cancel) == (
                HandshakePhase::Over,
                HandshakeActionView::Failed {
                    error: VfsError::Unavailable { message: p.host + ": "@ + message },
                },
            )
            &&& handshake_step(p, HandshakePhase::RequestingSubsystem, broken, cancel) == (
                HandshakePhase::Over,
                HandshakeActionView::Failed {
                    error: VfsError::Unavailable { message: p.host + ": "@ + message },
                },
            )
            &&& handshake_step(p, HandshakePhase::StartingSession, broken, cancel) == (
                HandshakePhase::Over,
                HandshakeActionView::Failed {
                    error: VfsError::Unavailable {
                        message: "sftp subsystem on "@ + p.host + " failed to start: "@ + message,
                    },
                },
            )
        }),
{
    let address = p.host + ":"@ + decimal(p.port as nat);
    assert("could not reach "@ + p.host + ":"@ + decimal(p.port as nat) + ": "@ + message
        =~= "could not reach "@ + address + ": "@ + message);
    assert("timed out connecting to "@ + p.host + ":"@ + decimal(p.port as nat)
        =~= "timed out connecting to "@ + address);
}

} // verus!
