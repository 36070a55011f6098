use saola_files::model::fs::entry::{EntryKind, FileEntry};
use saola_files::model::vfs::{Backend, Caps, DirEvent, FakeBackend, Location, VfsError};
use saola_files::path::FsPath;
use std::hash::{Hash, Hasher};

fn entry(name: &str, kind: EntryKind) -> FileEntry {
    FileEntry {
        name: name.as_bytes().to_vec(),
        kind,
        size: 0,
        modified: None,
        is_symlink: false,
        mode: None,
    }
}

fn sftp(authority: &str, path: &str) -> Location {
    Location {
        scheme: "sftp".to_owned(),
        authority: Some(authority.to_owned()),
        path: FsPath::new(path),
    }
}

#[test]
fn local_location_displays_as_a_bare_path() {
    let location = Location::local("/home/jordan/Downloads");
    assert_eq!(location.to_string(), "/home/jordan/Downloads");
}

#[test]
fn remote_location_displays_with_scheme_and_authority() {
    let location = Location {
        scheme: "sftp".to_owned(),
        authority: Some("jordan@10.0.0.10".to_owned()),
        path: FsPath::new("/srv"),
    };
    assert_eq!(location.to_string(), "sftp://jordan@10.0.0.10/srv");
}

#[test]
fn parent_and_join_round_trip() {
    let location = Location::local("/a/b");
    let parent = location.parent().unwrap();
    assert_eq!(parent, Location::local("/a"));
    assert_eq!(parent.join("b"), location);
    assert_eq!(Location::local("/").parent(), None);
}

#[test]
fn parse_handles_local_and_remote_forms() {
    assert_eq!(Location::parse("/home/jordan"), Location::local("/home/jordan"));
    assert_eq!(
        Location::parse("sftp://jordan@host/srv"),
        Location {
            scheme: "sftp".to_owned(),
            authority: Some("jordan@host".to_owned()),
            path: FsPath::new("/srv"),
        }
    );
    // No path at all after the authority: implied root.
    assert_eq!(
        Location::parse("sftp://jordan@host"),
        Location {
            scheme: "sftp".to_owned(),
            authority: Some("jordan@host".to_owned()),
            path: FsPath::new("/"),
        }
    );
}

#[test]
fn what_is_shown_of_a_server_can_be_typed_again() {
    for text in ["sftp://jordan@host/srv", "sftp://h:22/a/b.txt", "ftp://x/"] {
        assert_eq!(Location::parse(text).to_string(), text);
    }
}

#[test]
fn is_local_distinguishes_file_scheme_from_remote() {
    assert!(Location::local("/a").is_local());
    let remote = sftp("h", "/");
    assert!(!remote.is_local());
}

#[test]
fn caps_bits_combine_and_check() {
    let caps = Caps::trash() | Caps::local_path();
    assert!(caps.contains(Caps::trash()));
    assert!(caps.contains(Caps::local_path()));
    assert!(!caps.contains(Caps::watch()));
}

#[test]
fn every_capability_is_a_bit_of_its_own() {
    let all = [
        Caps::watch(),
        Caps::trash(),
        Caps::rename_in_place(),
        Caps::set_permissions(),
        Caps::local_path(),
        Caps::thumbnails(),
    ];
    for (i, a) in all.iter().enumerate() {
        assert!(a.contains(Caps::empty()));
        for (j, b) in all.iter().enumerate() {
            assert_eq!(a.contains(*b), i == j);
        }
    }
}

#[test]
fn vfs_error_wording_is_human_readable() {
    let err = VfsError::PermissionDenied { location: "/root/secret".to_owned() };
    assert_eq!(err.to_string(), "You don't have permission to open /root/secret");
}

#[test]
fn every_vfs_error_variant_words_something_human_readable() {
    let cases = [
        VfsError::NotFound { location: "/x".to_owned() },
        VfsError::AlreadyExists { location: "/x".to_owned() },
        VfsError::NotADirectory { location: "/x".to_owned() },
        VfsError::IsADirectory { location: "/x".to_owned() },
        VfsError::Unavailable { message: "the server hung up".to_owned() },
        VfsError::Other { message: "something else went wrong".to_owned() },
    ];
    for case in cases {
        assert!(!case.to_string().is_empty());
    }
}

#[test]
fn dir_event_variants_are_plain_data() {
    let created = DirEvent::Created(b"a".to_vec());
    let removed = DirEvent::Removed(b"a".to_vec());
    let changed = DirEvent::Changed(b"a".to_vec());
    let renamed = DirEvent::Renamed { from: b"a".to_vec(), to: b"b".to_vec() };
    assert_ne!(created, renamed);
    assert_ne!(removed, changed);
    assert_ne!(changed, DirEvent::Overflow);
    assert_eq!(created, DirEvent::Created(b"a".to_vec()));
    assert_eq!(DirEvent::<Vec<u8>>::Overflow, DirEvent::Overflow);
}

#[test]
fn fake_backend_lists_seeded_directories() {
    let backend = FakeBackend::new().with_dir(
        "/home",
        vec![entry("a.txt", EntryKind::File), entry("docs", EntryKind::Directory)],
    );
    let result = backend.list(&Location::local("/home"));
    assert_eq!(result.unwrap().len(), 2);
}

#[test]
fn fake_backend_reports_configured_caps_and_no_watch_stream() {
    let backend = FakeBackend::new().with_caps(Caps::trash());
    assert_eq!(backend.caps(), Caps::trash());
    assert!(backend.watch(&Location::local("/home")).is_none());
}

#[test]
fn fake_backend_mutating_calls_are_worded_not_panicking() {
    let backend = FakeBackend::new();
    let loc = Location::local("/x");
    assert!(backend.read(&loc).is_err());
    assert!(backend.write(&loc).is_err());
    assert!(backend.mkdir(&loc).is_err());
    assert!(backend.rename(&loc, &loc).is_err());
    assert!(backend.remove(&loc).is_err());
    assert!(backend.set_times(&loc, None, None).is_err());
}

#[test]
fn fake_backend_errors_on_unseeded_directories() {
    let backend = FakeBackend::new();
    let result = backend.list(&Location::local("/nowhere"));
    assert!(matches!(result, Err(VfsError::NotFound { .. })));
}

#[test]
fn fake_backend_metadata_finds_seeded_entries() {
    let backend = FakeBackend::new().with_dir("/home", vec![entry("a.txt", EntryKind::File)]);
    let result = backend.metadata(&Location::local("/home/a.txt"));
    assert_eq!(result.unwrap().name, b"a.txt".to_vec());
}

#[test]
fn a_directory_seeded_twice_has_its_latest_contents() {
    let backend = FakeBackend::new()
        .with_dir("/d", vec![entry("old", EntryKind::File)])
        .with_dir("/d", vec![entry("a", EntryKind::File), entry("b", EntryKind::File)]);
    assert_eq!(backend.list(&Location::local("/d")).unwrap().len(), 2);
    assert_eq!(backend.scheme(), "fake");
}

#[test]
fn a_path_that_holds_the_mark_of_a_scheme_reads_back() {
    for path in ["/a://b", "/://", "/a/b://c/d"] {
        let location = Location::local(path);
        assert_eq!(Location::parse(&location.to_string()), location);
        assert!(Location::parse(path).is_local());
    }
    assert_eq!(Location::parse("a/b://c"), Location::local("a/b://c"));
    assert_eq!(Location::parse("ftp://host").scheme, "ftp");
}

#[test]
fn joining_and_parents_undo_each_other() {
    for path in ["/", "/srv", "/srv/", "a", "a//b/.", ".", ""] {
        let location = Location {
            scheme: "sftp".to_owned(),
            authority: Some("u@host".to_owned()),
            path: FsPath::new(path),
        };
        let child = location.join("name");
        assert_eq!(child.parent(), Some(location.clone()));
        if let (Some(parent), Some(name)) = (location.parent(), location.path.file_name()) {
            assert_eq!(parent.join(name), location);
        }
    }
    assert_eq!(Location::local("/").parent(), None);
}

#[test]
fn equal_locations_hash_alike() {
    let hash_of = |l: &Location| {
        let mut hasher = std::collections::hash_map::DefaultHasher::new();
        l.hash(&mut hasher);
        hasher.finish()
    };
    assert_eq!(hash_of(&Location::local("/a//b/")), hash_of(&Location::local("/a/b")));
    assert_ne!(hash_of(&Location::local("/a/b")), hash_of(&Location::local("/ab")));
}
