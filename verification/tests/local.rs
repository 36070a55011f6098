use saola_files::model::fs::entry::EntryKind;
use saola_files::model::vfs::{Backend, Caps, DirEvent, Location, VfsError};
use saola_files::modules::local::{
    entry_from_metadata, io_error, IoKind, LocalBackend, RawEvent, RawStat, WatchStep, Watcher,
    RENAME_PAIR_WINDOW,
};

fn backend() -> LocalBackend {
    LocalBackend::new()
}

fn stat() -> RawStat {
    RawStat {
        is_symlink: false,
        is_dir: false,
        is_file: true,
        size: 2,
        modified: None,
        mode: Some(0o100644),
    }
}

fn raw(name: &str) -> RawEvent {
    RawEvent {
        overflow: false,
        ignored: false,
        moved_from: false,
        moved_to: false,
        create: false,
        delete: false,
        changed: false,
        cookie: 0,
        name: Some(name.as_bytes().to_vec()),
    }
}

fn emitted(step: WatchStep) -> DirEvent {
    match step {
        WatchStep::Emit(e) => e,
        _ => panic!("nothing was reported"),
    }
}

#[test]
fn caps_claim_watch_now_but_still_not_trash() {
    let caps = backend().caps();
    assert!(caps.contains(Caps::watch()));
    assert!(!caps.contains(Caps::trash()));
    assert!(caps.contains(Caps::local_path()));
}

#[test]
fn missing_directory_is_not_found() {
    let missing = Location::local("/nonexistent/saola-files-test-dir");
    let result = io_error(&missing, IoKind::NotFound, "gone");
    assert!(matches!(result, VfsError::NotFound { .. }));
}

#[test]
fn permission_denied_is_worded_not_panicked() {
    let locked = Location::local("/locked");
    let result = io_error(&locked, IoKind::PermissionDenied, "denied");
    assert!(matches!(result, VfsError::PermissionDenied { .. }));
}

#[test]
fn every_kind_of_failure_has_its_error() {
    let at = Location::local("/x");
    assert!(matches!(io_error(&at, IoKind::AlreadyExists, "m"), VfsError::AlreadyExists { .. }));
    assert!(matches!(io_error(&at, IoKind::NotADirectory, "m"), VfsError::NotADirectory { .. }));
    assert!(matches!(io_error(&at, IoKind::IsADirectory, "m"), VfsError::IsADirectory { .. }));
    match io_error(&at, IoKind::Other, "disk on fire") {
        VfsError::Other { message } => assert!(message.contains("disk on fire")),
        other => panic!("{other:?}"),
    }
}

#[test]
fn symlinks_are_never_followed_for_kind() {
    let mut link = stat();
    link.is_symlink = true;
    link.is_file = false;
    let link = entry_from_metadata(b"link".to_vec(), &link);
    assert!(link.is_symlink);
    assert_eq!(link.kind, EntryKind::Other);
}

#[test]
fn lists_a_temp_directory() {
    let file = entry_from_metadata(b"a.txt".to_vec(), &stat());
    assert_eq!(file.kind, EntryKind::File);
    assert_eq!(file.size, 2);
    assert_eq!(file.mode, Some(0o644));
    let mut dir = stat();
    dir.is_dir = true;
    dir.is_file = false;
    assert_eq!(entry_from_metadata(b"sub".to_vec(), &dir).kind, EntryKind::Directory);
}

#[test]
fn watch_reports_an_external_create() {
    let mut watcher = Watcher::new();
    let mut event = raw("new.txt");
    event.create = true;
    assert_eq!(emitted(watcher.translate(event, 0)), DirEvent::Created(b"new.txt".to_vec()));
}

#[test]
fn watch_reports_an_external_remove() {
    let mut watcher = Watcher::new();
    let mut event = raw("gone.txt");
    event.delete = true;
    assert_eq!(emitted(watcher.translate(event, 0)), DirEvent::Removed(b"gone.txt".to_vec()));
}

#[test]
fn watch_reports_an_external_rename_as_one_paired_event() {
    let mut watcher = Watcher::new();
    let mut from = raw("old.txt");
    from.moved_from = true;
    from.cookie = 9;
    assert!(matches!(watcher.translate(from, 0), WatchStep::Nothing));
    let mut to = raw("new.txt");
    to.moved_to = true;
    to.cookie = 9;
    assert_eq!(
        emitted(watcher.translate(to, 1)),
        DirEvent::Renamed { from: b"old.txt".to_vec(), to: b"new.txt".to_vec() }
    );
    assert_eq!(watcher.next_deadline(), None);
}

#[test]
fn watch_reports_a_move_out_as_a_removal_once_the_pairing_window_closes() {
    let mut watcher = Watcher::new();
    let mut from = raw("leaving.txt");
    from.moved_from = true;
    from.cookie = 9;
    assert!(matches!(watcher.translate(from, 100), WatchStep::Nothing));
    assert_eq!(watcher.next_deadline(), Some(100 + RENAME_PAIR_WINDOW));
    assert!(watcher.expire(100).is_empty());
    assert_eq!(
        watcher.expire(100 + RENAME_PAIR_WINDOW),
        vec![DirEvent::Removed(b"leaving.txt".to_vec())]
    );
    assert!(watcher.expire(u64::MAX).is_empty());
}

#[test]
fn what_moves_in_alone_was_created() {
    let mut watcher = Watcher::new();
    let mut to = raw("arriving.txt");
    to.moved_to = true;
    to.cookie = 3;
    assert_eq!(emitted(watcher.translate(to, 0)), DirEvent::Created(b"arriving.txt".to_vec()));
}

#[test]
fn lost_events_are_made_up_for_by_an_overflow() {
    let mut watcher = Watcher::new();
    let event = DirEvent::Created(b"a".to_vec());
    assert_eq!(watcher.offer(DirEvent::Created(b"a".to_vec())), event);
    watcher.offered(false);
    assert_eq!(watcher.offer(DirEvent::Created(b"b".to_vec())), DirEvent::Overflow);
    watcher.offered(true);
    assert_eq!(
        watcher.offer(DirEvent::Created(b"c".to_vec())),
        DirEvent::Created(b"c".to_vec())
    );
}

#[test]
fn the_system_can_end_or_overflow_a_watch() {
    let mut watcher = Watcher::new();
    let mut event = raw("x");
    event.overflow = true;
    assert_eq!(emitted(watcher.translate(event, 0)), DirEvent::Overflow);
    let mut event = raw("x");
    event.ignored = true;
    assert!(matches!(watcher.translate(event, 0), WatchStep::Stop));
    let mut event = raw("x");
    event.changed = true;
    assert_eq!(emitted(watcher.translate(event, 0)), DirEvent::Changed(b"x".to_vec()));
}
