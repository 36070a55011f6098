use saola_files::model::remote::HostKeyPrompt;
use saola_files::model::vfs::{Backend, Caps, Location, VfsError};
use saola_files::modules::sftp::{
    check_host_key, default_user, judge_prompt, list_entries, parse_authority, sftp_error,
    system_time_to_u32, wire_path, AuthAction, AuthLadder, AuthReply, Handshake, HandshakeAction,
    HandshakeReply, KeyAnswer, KeyVerdict, KnownHost, RemoteStat, SecretAnswer, SftpBackend,
    SftpFailure,
};
use saola_files::path::FsPath;
use saola_files::time::Timestamp;

#[test]
fn parses_user_host_and_port() {
    assert_eq!(
        parse_authority("jordan@10.0.0.10:2222"),
        (Some("jordan".to_owned()), "10.0.0.10".to_owned(), 2222)
    );
}

#[test]
fn defaults_to_port_22_with_no_port_given() {
    assert_eq!(
        parse_authority("jordan@10.0.0.10"),
        (Some("jordan".to_owned()), "10.0.0.10".to_owned(), 22)
    );
}

#[test]
fn a_bare_host_has_no_user() {
    assert_eq!(parse_authority("example.com"), (None, "example.com".to_owned(), 22));
}

#[test]
fn a_bare_host_with_a_port_still_has_no_user() {
    assert_eq!(parse_authority("example.com:2200"), (None, "example.com".to_owned(), 2200));
}

#[test]
fn a_non_numeric_port_keeps_the_whole_remainder_as_the_host() {
    assert_eq!(
        parse_authority("jordan@host:notaport"),
        (Some("jordan".to_owned()), "host:notaport".to_owned(), 22)
    );
}

#[test]
fn an_empty_user_before_the_at_sign_is_treated_as_no_user() {
    assert_eq!(parse_authority("@host"), (None, "host".to_owned(), 22));
}

#[test]
fn round_trips_through_locations_display_and_parse() {
    let location = Location::parse("sftp://jordan@10.0.0.10:2222/srv");
    let authority = location.authority.as_deref().unwrap_or_default();
    assert_eq!(
        parse_authority(authority),
        (Some("jordan".to_owned()), "10.0.0.10".to_owned(), 2222)
    );
}

#[test]
fn wire_path_renders_the_locations_path_as_a_plain_string() {
    let location = Location {
        scheme: "sftp".to_owned(),
        authority: Some("jordan@host".to_owned()),
        path: FsPath::new("/srv/data"),
    };
    assert_eq!(wire_path(&location), "/srv/data");
}

#[test]
fn sftp_error_words_no_such_file_as_not_found() {
    let location = Location::parse("sftp://jordan@host/missing");
    assert!(matches!(
        sftp_error(&location, SftpFailure::NoSuchFile, "no such file"),
        VfsError::NotFound { .. }
    ));
}

#[test]
fn sftp_error_falls_back_to_unavailable_for_a_transport_failure() {
    let location = Location::parse("sftp://jordan@host/x");
    assert!(matches!(
        sftp_error(&location, SftpFailure::Transport, "connection reset"),
        VfsError::Unavailable { .. }
    ));
}

#[test]
fn every_other_status_has_its_error() {
    let at = Location::parse("sftp://jordan@host/x");
    assert!(matches!(
        sftp_error(&at, SftpFailure::PermissionDenied, "m"),
        VfsError::PermissionDenied { .. }
    ));
    assert!(matches!(
        sftp_error(&at, SftpFailure::NoConnection, "m"),
        VfsError::Unavailable { .. }
    ));
    assert!(matches!(
        sftp_error(&at, SftpFailure::ConnectionLost, "m"),
        VfsError::Unavailable { .. }
    ));
    assert!(matches!(sftp_error(&at, SftpFailure::OtherStatus, "m"), VfsError::Other { .. }));
}

#[test]
fn system_time_to_u32_converts_a_reasonable_timestamp() {
    let time = Timestamp::from_secs(1_700_000_000);
    assert_eq!(system_time_to_u32(time), Some(1_700_000_000));
}

#[test]
fn system_time_to_u32_is_none_before_the_epoch() {
    let time = Timestamp::from_secs(-1);
    assert_eq!(system_time_to_u32(time), None);
    assert_eq!(system_time_to_u32(Timestamp::from_secs(1 << 32)), None);
}

#[test]
fn a_server_can_rename_but_not_watch() {
    let backend = SftpBackend { session: 0u8 };
    assert_eq!(backend.scheme(), "sftp");
    assert!(backend.caps().contains(Caps::rename_in_place()));
    assert!(!backend.caps().contains(Caps::watch()));
    assert!(!backend.caps().contains(Caps::local_path()));
}

#[test]
fn the_directory_itself_and_its_parent_are_not_listed() {
    let stat = || RemoteStat {
        is_symlink: false,
        is_dir: false,
        is_file: true,
        size: 1,
        modified: None,
        permissions: None,
    };
    let raw = vec![
        (".".to_owned(), stat()),
        ("a".to_owned(), stat()),
        ("..".to_owned(), stat()),
        (".b".to_owned(), stat()),
    ];
    let names: Vec<Vec<u8>> = list_entries(&raw).into_iter().map(|e| e.name).collect();
    assert_eq!(names, vec![b"a".to_vec(), b".b".to_vec()]);
}

#[test]
fn a_user_that_is_not_known_has_a_stand_in() {
    assert_eq!(default_user(Some("jordan".to_owned())), "jordan");
    assert!(!default_user(None).is_empty());
}

fn prompt() -> HostKeyPrompt {
    HostKeyPrompt {
        host: "host".to_owned(),
        port: 22,
        key_type: "ssh-ed25519".to_owned(),
        fingerprint: "SHA256:abc".to_owned(),
    }
}

#[test]
fn only_an_unknown_key_is_asked_about() {
    assert!(matches!(check_host_key(KnownHost::Matches, prompt()), KeyVerdict::Accept));
    assert!(matches!(check_host_key(KnownHost::Unknown, prompt()), KeyVerdict::Ask { .. }));
    let changed = KnownHost::Refused { message: "changed".to_owned() };
    assert!(matches!(check_host_key(changed, prompt()), KeyVerdict::Reject { .. }));
    let broken = KnownHost::Broken { message: "unreadable".to_owned() };
    assert!(matches!(check_host_key(broken, prompt()), KeyVerdict::Reject { .. }));
}

#[test]
fn only_a_yes_is_remembered() {
    assert!(matches!(judge_prompt(KeyAnswer::Trusted), KeyVerdict::Learn));
    for answer in [KeyAnswer::Refused, KeyAnswer::TimedOut, KeyAnswer::Undelivered] {
        assert!(matches!(judge_prompt(answer), KeyVerdict::Reject { .. }));
    }
}

#[test]
fn a_password_is_the_last_thing_that_is_tried() {
    let mut ladder = AuthLadder::new(
        "jordan".to_owned(),
        "host".to_owned(),
        Some(FsPath::new("/home/jordan")),
    );
    assert!(matches!(ladder.step(AuthReply::Start), AuthAction::CountIdentities));
    let mut action = ladder.step(AuthReply::Identities(1));
    let mut looked = 0;
    loop {
        let reply = match action {
            AuthAction::TryIdentity { .. } => AuthReply::Verdict(false),
            AuthAction::LookFor { path } => {
                looked += 1;
                assert!(path.display().starts_with("/home/jordan/.ssh/"));
                AuthReply::Found(false)
            }
            AuthAction::Ask { .. } => {
                AuthReply::Answer(SecretAnswer::Secret("hunter2".to_owned()))
            }
            AuthAction::TryPassword { password } => {
                assert_eq!(password, "hunter2");
                AuthReply::Verdict(true)
            }
            AuthAction::Accepted => break,
            other => panic!("{other:?}"),
        };
        action = ladder.step(reply);
    }
    assert_eq!(looked, 3);
}

#[test]
fn an_identity_that_is_accepted_ends_the_ladder() {
    let mut ladder = AuthLadder::new("jordan".to_owned(), "host".to_owned(), None);
    ladder.step(AuthReply::Start);
    assert!(matches!(
        ladder.step(AuthReply::Identities(2)),
        AuthAction::TryIdentity { index: 0 }
    ));
    assert!(matches!(ladder.step(AuthReply::Verdict(true)), AuthAction::Accepted));
}

#[test]
fn without_a_password_nobody_gets_in() {
    let mut ladder = AuthLadder::new("jordan".to_owned(), "host".to_owned(), None);
    ladder.step(AuthReply::Start);
    assert!(matches!(ladder.step(AuthReply::Identities(0)), AuthAction::Ask { .. }));
    assert!(matches!(
        ladder.step(AuthReply::Answer(SecretAnswer::Nothing)),
        AuthAction::Failed { .. }
    ));
}

#[test]
fn a_handshake_goes_through_its_stages() {
    let location = Location::parse("sftp://jordan@host:2200/srv");
    let mut handshake = Handshake::new(&location, "nobody".to_owned());
    match handshake.step(HandshakeReply::Start, false) {
        HandshakeAction::Dial { host, port } => {
            assert_eq!(host, "host");
            assert_eq!(port, 2200);
        }
        other => panic!("{other:?}"),
    }
    match handshake.step(HandshakeReply::Ready, false) {
        HandshakeAction::Authenticate { user, .. } => assert_eq!(user, "jordan"),
        other => panic!("{other:?}"),
    }
    assert!(matches!(handshake.step(HandshakeReply::Ready, false), HandshakeAction::OpenChannel));
    assert!(matches!(
        handshake.step(HandshakeReply::Ready, false),
        HandshakeAction::RequestSubsystem
    ));
    assert!(matches!(handshake.step(HandshakeReply::Ready, false), HandshakeAction::StartSession));
    assert!(matches!(handshake.step(HandshakeReply::Ready, false), HandshakeAction::Connected));
}

#[test]
fn a_handshake_can_time_out_or_be_cancelled() {
    let location = Location::parse("sftp://host/srv");
    let mut handshake = Handshake::new(&location, "nobody".to_owned());
    handshake.step(HandshakeReply::Start, false);
    assert!(matches!(
        handshake.step(HandshakeReply::TimedOut, false),
        HandshakeAction::Failed { error: VfsError::Unavailable { .. } }
    ));
    let mut handshake = Handshake::new(&location, "nobody".to_owned());
    handshake.step(HandshakeReply::Start, false);
    assert!(matches!(
        handshake.step(HandshakeReply::Ready, true),
        HandshakeAction::Failed { .. }
    ));
}
