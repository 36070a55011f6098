use saola_files::model::fs::disk::{DiskAction, DiskFailure, DiskReply, DiskStat, Next};
use saola_files::model::fs::entry::EntryKind;
use saola_files::model::fs::format::civil_from_days;
use saola_files::model::fs::removal::{delete_error, delete_permanently, empty, empty_from};
use saola_files::model::fs::trash::{
    data_home_from, files_dir_of, format_deletion_date, home_trash_dir, info_dir_of,
    is_valid_shared_trash, list, list_from, parse_uid, record_files_path, restore, trash,
    trash_into, TrashId, TrashInfo, TrashRecord, TrashedItem,
};
use saola_files::model::fs::undo::{
    apply, can_undo_rename, UndoAction, UndoEntry, UndoReply, UndoStack,
};
use saola_files::model::remote::RemoteManager;
use saola_files::model::vfs::{FakeBackend, Location, VfsError};
use saola_files::modules::local::{IoKind, RawStat};
use saola_files::path::FsPath;
use saola_files::percent::encode_percent;
use std::collections::BTreeMap;

#[derive(Clone, PartialEq, Debug)]
enum Node {
    Dir(u32),
    File(Vec<u8>),
    Link,
}

/// A tree of files in memory. What is below `/mnt` is on another device.
struct Disk {
    nodes: BTreeMap<Vec<u8>, Node>,
    log: Vec<String>,
    stuck: bool,
}

fn failure(kind: IoKind) -> DiskReply {
    DiskReply::Failed(DiskFailure { kind, message: "it failed".to_owned() })
}

fn p(s: &str) -> FsPath {
    FsPath::new(s)
}

impl Disk {
    fn new(dirs: &[&str], files: &[(&str, &[u8])]) -> Self {
        let mut disk = Disk { nodes: BTreeMap::new(), log: vec![], stuck: false };
        for d in ["", "/", "/proc", "/proc/self"].iter().chain(dirs) {
            disk.nodes.insert(d.as_bytes().to_vec(), Node::Dir(0o755));
        }
        disk.nodes.insert(
            b"/proc/self/status".to_vec(),
            Node::File(b"Name:\tsaola\nUid:\t1000\t1000\t1000\t1000\n".to_vec()),
        );
        for (path, contents) in files {
            disk.nodes.insert(path.as_bytes().to_vec(), Node::File(contents.to_vec()));
        }
        disk
    }

    fn get(&self, path: &FsPath) -> Option<&Node> {
        self.nodes.get(path.as_bytes())
    }

    fn has(&self, path: &str) -> bool {
        self.nodes.contains_key(path.as_bytes())
    }

    fn text(&self, path: &FsPath) -> String {
        match self.get(path) {
            Some(Node::File(c)) => String::from_utf8(c.clone()).unwrap(),
            other => panic!("{other:?}"),
        }
    }

    fn children(&self, dir: &[u8]) -> Vec<Vec<u8>> {
        let mut prefix = dir.to_vec();
        prefix.push(b'/');
        self.nodes
            .keys()
            .filter(|k| {
                k.len() > prefix.len()
                    && k.starts_with(&prefix)
                    && !k[prefix.len()..].contains(&b'/')
            })
            .cloned()
            .collect()
    }

    fn dev(path: &[u8]) -> u64 {
        if path.starts_with(b"/mnt") { 2 } else { 1 }
    }

    fn parent_is_dir(&self, path: &FsPath) -> bool {
        match path.parent() {
            Some(parent) => matches!(self.get(&parent), Some(Node::Dir(_))),
            None => false,
        }
    }

    fn perform(&mut self, action: DiskAction) -> DiskReply {
        match action {
            DiskAction::Stat { path } => match self.get(&path) {
                Some(node) => {
                    let (is_dir, mode) = match node {
                        Node::Dir(mode) => (true, *mode),
                        Node::File(_) => (false, 0o644),
                        Node::Link => (false, 0o1777),
                    };
                    DiskReply::Stat(DiskStat { dev: Disk::dev(path.as_bytes()), is_dir, mode })
                }
                None => failure(IoKind::NotFound),
            },
            DiskAction::Exists { path } => DiskReply::Exists(self.get(&path).is_some()),
            DiskAction::ReadText { path } => match self.get(&path) {
                Some(Node::File(c)) => DiskReply::Text(String::from_utf8(c.clone()).unwrap()),
                _ => failure(IoKind::NotFound),
            },
            DiskAction::CreateDir { path } => {
                if self.get(&path).is_some() {
                    return failure(IoKind::AlreadyExists);
                }
                self.nodes.insert(path.to_bytes(), Node::Dir(0o700));
                DiskReply::Done
            }
            DiskAction::CreateDirAll { path } => {
                let mut at = Some(path);
                while let Some(dir) = at {
                    self.nodes.entry(dir.to_bytes()).or_insert(Node::Dir(0o755));
                    at = dir.parent();
                }
                DiskReply::Done
            }
            DiskAction::WriteNew { path, contents } => {
                self.log.push("write".to_owned());
                if self.get(&path).is_some() {
                    return failure(IoKind::AlreadyExists);
                }
                self.nodes.insert(path.to_bytes(), Node::File(contents.into_bytes()));
                DiskReply::Done
            }
            DiskAction::Rename { from, to } => {
                self.log.push("rename".to_owned());
                if self.stuck || self.get(&from).is_none() || !self.parent_is_dir(&to) {
                    return failure(IoKind::NotFound);
                }
                let (a, b) = (from.to_bytes(), to.to_bytes());
                let moved: Vec<Vec<u8>> = self
                    .nodes
                    .keys()
                    .filter(|k| **k == a || (k.starts_with(&a) && k.get(a.len()) == Some(&b'/')))
                    .cloned()
                    .collect();
                for k in moved {
                    let node = self.nodes.remove(&k).unwrap();
                    let mut new = b.clone();
                    new.extend_from_slice(&k[a.len()..]);
                    self.nodes.insert(new, node);
                }
                DiskReply::Done
            }
            DiskAction::RemoveFile { path } => match self.get(&path) {
                Some(Node::File(_)) | Some(Node::Link) => {
                    self.nodes.remove(path.as_bytes());
                    DiskReply::Done
                }
                Some(Node::Dir(_)) => failure(IoKind::IsADirectory),
                None => failure(IoKind::NotFound),
            },
            DiskAction::RemoveDir { path } => match self.get(&path) {
                Some(Node::Dir(_)) if self.children(path.as_bytes()).is_empty() => {
                    self.nodes.remove(path.as_bytes());
                    DiskReply::Done
                }
                _ => failure(IoKind::Other),
            },
            DiskAction::ListDir { path } => match self.get(&path) {
                Some(Node::Dir(_)) => DiskReply::Listing {
                    paths: self
                        .children(path.as_bytes())
                        .into_iter()
                        .map(FsPath::from_bytes)
                        .collect(),
                    cut: None,
                },
                _ => failure(IoKind::NotFound),
            },
            DiskAction::Clock => DiskReply::Clock(1_754_742_600),
        }
    }

    fn trash(&mut self, path: &FsPath) -> Result<TrashId, VfsError> {
        let mut job = trash_into(path, &p("/home/Trash"));
        let mut reply = DiskReply::Start;
        for _ in 0..5_000 {
            reply = match job.step(reply) {
                Next::Do(action) => self.perform(action),
                Next::Finish(result) => return result,
                Next::Halt => panic!("halted"),
            };
        }
        panic!("does not end")
    }

    fn restore(&mut self, id: &TrashId) -> Result<FsPath, VfsError> {
        let mut job = restore(id);
        let mut reply = DiskReply::Start;
        for _ in 0..100 {
            reply = match job.step(reply) {
                Next::Do(action) => self.perform(action),
                Next::Finish(restored) => return restored.outcome,
                Next::Halt => panic!("halted"),
            };
        }
        panic!("does not end")
    }

    fn delete(&mut self, path: &FsPath) -> Option<DiskFailure> {
        let mut job = delete_permanently(path);
        let mut reply = DiskReply::Start;
        for _ in 0..1_000 {
            reply = match job.step(reply) {
                Next::Do(action) => self.perform(action),
                Next::Finish(result) => return result,
                Next::Halt => panic!("halted"),
            };
        }
        panic!("does not end")
    }

    fn empty(&mut self) -> Vec<String> {
        let mut job = empty_from(&p("/home/Trash"));
        let mut reply = DiskReply::Start;
        for _ in 0..1_000 {
            reply = match job.step(reply) {
                Next::Do(action) => self.perform(action),
                Next::Finish(warnings) => return warnings,
                Next::Halt => panic!("halted"),
            };
        }
        panic!("does not end")
    }

    fn records(&self) -> Result<Vec<TrashRecord>, DiskFailure> {
        let trash = p("/home/Trash");
        let info = info_dir_of(&trash);
        if self.get(&info).is_none() {
            return Err(DiskFailure { kind: IoKind::NotFound, message: "gone".to_owned() });
        }
        let mut out = Vec::new();
        for path in self.children(info.as_bytes()) {
            let info_path = FsPath::from_bytes(path);
            let contents = match self.get(&info_path) {
                Some(Node::File(c)) => String::from_utf8(c.clone()).ok(),
                _ => None,
            };
            let stat = record_files_path(&trash, &info_path).and_then(|f| self.get(&f)).map(|n| {
                RawStat {
                    is_symlink: matches!(n, Node::Link),
                    is_dir: matches!(n, Node::Dir(_)),
                    is_file: matches!(n, Node::File(_)),
                    size: match n {
                        Node::File(c) => c.len() as u64,
                        _ => 0,
                    },
                    modified: None,
                    mode: None,
                }
            });
            out.push(TrashRecord { info_path, contents, stat });
        }
        Ok(out)
    }

    fn list(&self) -> (Vec<TrashedItem>, Vec<String>) {
        let (items, warnings) = list_from(&p("/home/Trash"), self.records());
        match items {
            Ok(items) => (items, warnings),
            Err(e) => panic!("{}", e.to_string()),
        }
    }
}

fn os(s: &str) -> Option<Vec<u8>> {
    Some(s.as_bytes().to_vec())
}

#[test]
fn xdg_data_home_wins_when_set() {
    assert_eq!(data_home_from(os("/data"), os("/home/j")), Some(p("/data")));
}

#[test]
fn falls_back_to_home_local_share() {
    assert_eq!(data_home_from(None, os("/home/j")), Some(p("/home/j/.local/share")));
}

#[test]
fn trash_empty_env_vars_count_as_unset() {
    assert_eq!(data_home_from(os(""), os("/home/j")), Some(p("/home/j/.local/share")));
}

#[test]
fn no_home_means_no_data_home() {
    assert_eq!(data_home_from(None, None), None);
    assert_eq!(home_trash_dir(None, None), None);
    assert_eq!(home_trash_dir(os("/data"), None), Some(p("/data/Trash")));
}

#[test]
fn trash_civil_from_days_matches_known_dates() {
    assert_eq!(civil_from_days(0), (1970, 1, 1));
    assert_eq!(civil_from_days(10_957), (2000, 1, 1));
    assert_eq!(civil_from_days(-1), (1969, 12, 31));
}

#[test]
fn format_deletion_date_now_matches_the_spec_shape() {
    let formatted = format_deletion_date(1_754_742_600);
    assert_eq!(formatted.len(), 19, "got {formatted:?}");
    assert_eq!(formatted.as_bytes()[4], b'-');
    assert_eq!(formatted.as_bytes()[7], b'-');
    assert_eq!(formatted.as_bytes()[10], b'T');
    assert_eq!(formatted.as_bytes()[13], b':');
    assert_eq!(formatted.as_bytes()[16], b':');
    assert_eq!(formatted, "2025-08-09T12:30:00");
}

#[test]
fn trash_info_parses_path_and_deletion_date() {
    let contents =
        "[Trash Info]\nPath=/home/jordan/My%20File.txt\nDeletionDate=2026-08-09T12:30:00\n";
    let info = TrashInfo::parse(contents).unwrap();
    assert_eq!(info.path, p("/home/jordan/My File.txt"));
    assert_eq!(info.deletion_date, "2026-08-09T12:30:00");
}

#[test]
fn trash_info_without_a_path_is_unparseable() {
    assert!(TrashInfo::parse("[Trash Info]\nDeletionDate=2026-08-09T12:30:00\n").is_none());
}

#[test]
fn trash_info_tolerates_extra_or_reordered_lines() {
    let contents = "[Trash Info]\nDeletionDate=2026-08-09T12:30:00\nPath=/a/b\n";
    let info = TrashInfo::parse(contents).unwrap();
    assert_eq!(info.path, p("/a/b"));
}

#[test]
fn records_can_be_read_back() {
    let info = TrashInfo {
        path: FsPath::from_bytes(b"/a b/caf\xe9".to_vec()),
        deletion_date: "2026-08-09T12:30:00".to_owned(),
    };
    let back = TrashInfo::parse(&info.to_text()).unwrap();
    assert_eq!(back.path.to_bytes(), b"/a b/caf\xe9".to_vec());
    assert_eq!(back.deletion_date, info.deletion_date);
}

#[test]
fn pick_unique_slot_uses_the_base_name_when_free() {
    let mut disk = Disk::new(&["/home"], &[("/home/report.txt", b"x")]);
    let id = disk.trash(&p("/home/report.txt")).unwrap();
    assert_eq!(*id.files_path(), files_dir_of(&p("/home/Trash")).join_bytes(b"report.txt"));
    assert_eq!(id.info_path, p("/home/Trash/info/report.txt.trashinfo"));
}

#[test]
fn pick_unique_slot_numbers_past_a_collision() {
    let mut disk = Disk::new(
        &["/home", "/home/Trash", "/home/Trash/files", "/home/Trash/info"],
        &[
            ("/home/a.txt", b"x"),
            ("/home/Trash/files/a.txt", b"x"),
            ("/home/Trash/info/a.txt.trashinfo", b"x"),
        ],
    );
    let id = disk.trash(&p("/home/a.txt")).unwrap();
    assert_eq!(*id.files_path(), p("/home/Trash/files/a.txt.1"));
    assert_eq!(id.info_path, p("/home/Trash/info/a.txt.1.trashinfo"));
}

#[test]
fn is_valid_shared_trash_requires_a_real_sticky_directory() {
    let stat = |is_dir, mode| Some(DiskStat { dev: 1, is_dir, mode });
    assert!(!is_valid_shared_trash(None), "missing dir");
    assert!(!is_valid_shared_trash(stat(true, 0o755)), "no sticky bit yet");
    assert!(is_valid_shared_trash(stat(true, 0o1777)), "sticky bit now set");
}

#[test]
fn is_valid_shared_trash_rejects_a_symlink() {
    assert!(!is_valid_shared_trash(Some(DiskStat { dev: 1, is_dir: false, mode: 0o1777 })));
}

#[test]
fn resolve_topdir_trash_uses_the_shared_uid_subdir_when_valid() {
    let mut disk = Disk::new(&["/home", "/home/Trash", "/mnt"], &[("/mnt/a.txt", b"x")]);
    disk.nodes.insert(b"/mnt/.Trash".to_vec(), Node::Dir(0o1777));
    let id = disk.trash(&p("/mnt/a.txt")).unwrap();
    assert_eq!(*id.files_path(), p("/mnt/.Trash/1000/files/a.txt"));
    assert_eq!(id.info_path, p("/mnt/.Trash/1000/info/a.txt.trashinfo"));
    assert_eq!(id.topdir, Some(p("/mnt")));
    // The record names the path below the top directory.
    assert!(disk.text(&id.info_path).contains("Path=a.txt\n"));
    assert_eq!(disk.restore(&id).unwrap(), p("/mnt/a.txt"));
}

#[test]
fn resolve_topdir_trash_falls_back_when_shared_trash_is_missing() {
    let mut disk = Disk::new(&["/home", "/home/Trash", "/mnt"], &[("/mnt/a.txt", b"x")]);
    let id = disk.trash(&p("/mnt/a.txt")).unwrap();
    assert_eq!(*id.files_path(), p("/mnt/.Trash-1000/files/a.txt"));
    assert!(disk.has("/mnt/.Trash-1000/files"));
}

#[test]
fn resolve_topdir_trash_falls_back_when_shared_trash_has_no_sticky_bit() {
    let mut disk =
        Disk::new(&["/home", "/home/Trash", "/mnt", "/mnt/.Trash"], &[("/mnt/a.txt", b"x")]);
    let id = disk.trash(&p("/mnt/a.txt")).unwrap();
    assert_eq!(*id.files_path(), p("/mnt/.Trash-1000/files/a.txt"));
}

#[test]
fn trash_into_and_restore_round_trip_an_ordinary_file() {
    let mut disk = Disk::new(&["/home", "/src"], &[("/src/notes.txt", b"hello")]);
    let path = p("/src/notes.txt");
    let id = disk.trash(&path).unwrap();
    assert!(!disk.has("/src/notes.txt"), "the original name is gone from its folder");
    assert_eq!(disk.text(id.files_path()), "hello");

    let restored = disk.restore(&id).unwrap();
    assert_eq!(restored, path);
    assert_eq!(disk.text(&path), "hello");
    assert!(disk.get(id.files_path()).is_none(), "removed from files/ on restore");
    assert!(disk.get(&id.info_path).is_none(), "the record is cleaned up too");
}

#[test]
fn trash_into_and_restore_round_trip_a_non_utf8_name() {
    let mut disk = Disk::new(&["/home", "/src"], &[]);
    let raw = b"/src/caf\xe9.txt".to_vec();
    disk.nodes.insert(raw.clone(), Node::File(b"x".to_vec()));
    let path = FsPath::from_bytes(raw.clone());
    let id = disk.trash(&path).unwrap();
    let restored = disk.restore(&id).unwrap();
    assert_eq!(restored.to_bytes(), raw);
    assert_eq!(disk.text(&path), "x");
}

#[test]
fn trash_into_writes_a_spec_shaped_trashinfo_file() {
    let mut disk = Disk::new(&["/home", "/src"], &[("/src/doc.odt", b"x")]);
    let id = disk.trash(&p("/src/doc.odt")).unwrap();
    let contents = disk.text(&id.info_path);
    assert!(contents.starts_with("[Trash Info]\n"));
    assert!(contents.contains(&format!("Path={}\n", encode_percent(b"/src/doc.odt"))));
    assert!(contents.contains("DeletionDate=2025-08-09T12:30:00"));
    // The record is there before anything moves.
    assert_eq!(disk.log, vec!["write", "rename"]);
}

#[test]
fn trash_into_never_follows_a_symlinked_directory() {
    let mut disk =
        Disk::new(&["/home", "/src", "/src/real-dir"], &[("/src/real-dir/inside.txt", b"x")]);
    disk.nodes.insert(b"/src/link-to-dir".to_vec(), Node::Link);
    let id = disk.trash(&p("/src/link-to-dir")).unwrap();
    assert!(disk.has("/src/real-dir/inside.txt"));
    assert_eq!(disk.get(id.files_path()), Some(&Node::Link));
}

#[test]
fn a_move_that_fails_leaves_no_record() {
    let mut disk = Disk::new(&["/home", "/src"], &[("/src/a.txt", b"x")]);
    disk.stuck = true;
    assert!(disk.trash(&p("/src/a.txt")).is_err());
    assert!(disk.has("/src/a.txt"));
    assert!(!disk.has("/home/Trash/info/a.txt.trashinfo"));
}

#[test]
fn restore_fails_without_moving_anything_when_the_original_parent_is_gone() {
    let mut disk = Disk::new(&["/home", "/src"], &[("/src/orphan.txt", b"x")]);
    let id = disk.trash(&p("/src/orphan.txt")).unwrap();
    disk.nodes.remove(b"/src".as_slice());
    assert!(disk.restore(&id).is_err());
    assert!(disk.get(id.files_path()).is_some(), "the trashed copy is untouched");
    assert!(disk.get(&id.info_path).is_some());
}

#[test]
fn list_from_reports_every_trashed_item() {
    let mut disk =
        Disk::new(&["/home", "/src"], &[("/src/a.txt", b"aaa"), ("/src/b.txt", b"bb")]);
    disk.trash(&p("/src/a.txt")).unwrap();
    disk.trash(&p("/src/b.txt")).unwrap();
    let (items, warnings) = disk.list();
    assert!(warnings.is_empty());
    assert_eq!(items.len(), 2);
    assert_eq!(items[0].original_path, p("/src/a.txt"));
    assert_eq!(items[0].size, 3);
    assert_eq!(items[0].kind, EntryKind::File);
    assert_eq!(items[1].original_path, p("/src/b.txt"));
}

#[test]
fn list_from_an_empty_or_absent_trash_is_an_empty_list() {
    let disk = Disk::new(&["/home"], &[]);
    assert!(disk.list().0.is_empty());
}

#[test]
fn a_trash_that_cannot_be_read_is_an_error() {
    let denied = DiskFailure { kind: IoKind::PermissionDenied, message: "denied".to_owned() };
    let (result, _) = list_from(&p("/home/Trash"), Err(denied));
    assert!(matches!(result, Err(VfsError::PermissionDenied { .. })));
    let (result, _) = list(None, Ok(vec![]));
    assert!(result.unwrap().is_empty());
}

#[test]
fn empty_from_removes_files_and_directory_trees_alike() {
    let mut disk = Disk::new(
        &["/home", "/src", "/src/a-folder"],
        &[("/src/solo.txt", b"x"), ("/src/a-folder/nested.txt", b"x")],
    );
    disk.trash(&p("/src/solo.txt")).unwrap();
    disk.trash(&p("/src/a-folder")).unwrap();
    assert_eq!(disk.list().0.len(), 2);

    assert!(disk.empty().is_empty());
    assert!(disk.list().0.is_empty());
    assert!(disk.children(b"/home/Trash/files").is_empty());
    assert!(disk.children(b"/home/Trash/info").is_empty());
}

#[test]
fn emptying_goes_on_after_a_failure() {
    let trash = p("/home/Trash");
    let denied =
        || DiskFailure { kind: IoKind::PermissionDenied, message: "not permitted".to_owned() };
    let file = DiskStat { dev: 1, is_dir: false, mode: 0o644 };
    let mut job = empty_from(&trash);
    let mut reply = DiskReply::Start;
    let mut looked_at = Vec::new();
    let warnings = loop {
        reply = match job.step(reply) {
            Next::Do(DiskAction::ListDir { path }) if path == files_dir_of(&trash) => {
                let paths = vec![p("/home/Trash/files/a"), p("/home/Trash/files/b")];
                DiskReply::Listing { paths, cut: None }
            }
            Next::Do(DiskAction::ListDir { .. }) => DiskReply::Failed(denied()),
            Next::Do(DiskAction::Stat { path }) => {
                looked_at.push(path.display());
                DiskReply::Stat(file)
            }
            Next::Do(DiskAction::RemoveFile { path }) if path.display().ends_with("/a") => {
                DiskReply::Failed(denied())
            }
            Next::Do(DiskAction::RemoveFile { .. }) => DiskReply::Done,
            Next::Finish(warnings) => break warnings,
            _ => panic!("asked for something else"),
        };
    };
    assert_eq!(looked_at, ["/home/Trash/files/a", "/home/Trash/files/b"]);
    assert_eq!(warnings.len(), 1);
    assert!(warnings[0].contains("/home/Trash/files/a"));
}

#[test]
fn without_a_home_there_is_nothing_to_empty() {
    let mut job = empty(None);
    match job.step(DiskReply::Start) {
        Next::Finish(warnings) => assert!(warnings.is_empty()),
        _ => panic!("asked for something"),
    }
    assert!(trash(&p("/a"), None).is_err());
}

#[test]
fn delete_permanently_removes_a_plain_file() {
    let mut disk = Disk::new(&["/d"], &[("/d/gone.txt", b"x")]);
    assert!(disk.delete(&p("/d/gone.txt")).is_none());
    assert!(!disk.has("/d/gone.txt"));
}

#[test]
fn delete_permanently_removes_a_directory_tree() {
    let mut disk =
        Disk::new(&["/d", "/d/tree", "/d/tree/nested"], &[("/d/tree/nested/leaf.txt", b"x")]);
    assert!(disk.delete(&p("/d/tree")).is_none());
    assert!(!disk.has("/d/tree"));
    assert!(!disk.has("/d/tree/nested/leaf.txt"));
    assert!(disk.has("/d"));
}

#[test]
fn delete_permanently_never_follows_a_symlinked_directory() {
    let mut disk = Disk::new(&["/d", "/d/real"], &[("/d/real/keep.txt", b"x")]);
    disk.nodes.insert(b"/d/link".to_vec(), Node::Link);
    assert!(disk.delete(&p("/d/link")).is_none());
    assert!(!disk.has("/d/link"), "the symlink itself is gone");
    assert!(disk.has("/d/real/keep.txt"), "the real target is untouched");
}

#[test]
fn what_is_not_there_cannot_be_deleted() {
    let mut disk = Disk::new(&["/d"], &[]);
    let failed = disk.delete(&p("/d/none")).unwrap();
    assert!(matches!(delete_error(&p("/d/none"), &failed), VfsError::NotFound { .. }));
}

#[test]
fn the_user_is_the_one_that_runs_the_process() {
    assert_eq!(parse_uid("Name:\tx\nUid:\t1000\t1001\t1002\t1003\n"), Some(1000));
    assert_eq!(parse_uid("Name:\tx\n"), None);
    assert_eq!(parse_uid("Uid:\tnobody\n"), None);
}

#[test]
fn stack_starts_empty() {
    let stack = UndoStack::new();
    assert!(stack.is_empty());
    assert_eq!(stack.peek_label(), None);
}

#[test]
fn push_then_pop_round_trips_the_same_entry() {
    let mut stack = UndoStack::new();
    let entry = UndoEntry::New { created: Location::local("/tmp/New Folder") };
    stack.push(entry.clone());
    assert!(!stack.is_empty());
    assert_eq!(stack.pop(), Some(entry));
    assert!(stack.is_empty());
}

#[test]
fn pop_on_an_empty_stack_is_none() {
    let mut stack = UndoStack::new();
    assert_eq!(stack.pop(), None);
}

#[test]
fn peek_label_reflects_the_most_recently_pushed_entry() {
    let mut stack = UndoStack::new();
    stack.push(UndoEntry::New { created: Location::local("/tmp/a") });
    stack.push(UndoEntry::New { created: Location::local("/tmp/b") });
    assert_eq!(stack.peek_label(), Some("Created \"b\"".to_owned()));
}

#[test]
fn move_label_names_a_lone_item_but_counts_a_multi_move() {
    let one: UndoEntry = UndoEntry::Move {
        pairs: vec![(Location::local("/a/x.txt"), Location::local("/b/x.txt"))],
    };
    assert_eq!(one.label(), "Moved \"x.txt\"");

    let many: UndoEntry = UndoEntry::Move {
        pairs: vec![
            (Location::local("/a/x.txt"), Location::local("/b/x.txt")),
            (Location::local("/a/y.txt"), Location::local("/b/y.txt")),
        ],
    };
    assert_eq!(many.label(), "Moved 2 items");
}

#[test]
fn rename_trash_new_labels_name_the_original() {
    let rename: UndoEntry = UndoEntry::Rename {
        from: Location::local("/a/old.txt"),
        to: Location::local("/a/new.txt"),
    };
    assert_eq!(rename.label(), "Renamed \"old.txt\"");

    let created: UndoEntry = UndoEntry::New { created: Location::local("/a/New Folder") };
    assert_eq!(created.label(), "Created \"New Folder\"");
}

fn nobody() -> RemoteManager<FakeBackend> {
    RemoteManager::new()
}

#[test]
fn can_undo_rename_is_true_for_two_local_locations() {
    assert!(can_undo_rename(
        &Location::local("/a/old.txt"),
        &Location::local("/a/new.txt"),
        &nobody()
    ));
}

#[test]
fn can_undo_rename_is_false_across_schemes() {
    let local = Location::local("/a/x.txt");
    let remote = Location {
        scheme: "sftp".to_owned(),
        authority: Some("host".to_owned()),
        path: p("/a/x.txt"),
    };
    assert!(!can_undo_rename(&local, &remote, &nobody()));
}

#[test]
fn can_undo_rename_is_false_for_an_unregistered_scheme() {
    let a = Location { scheme: "gopher".to_owned(), authority: None, path: p("/a") };
    let b = Location { scheme: "gopher".to_owned(), authority: None, path: p("/b") };
    assert!(!can_undo_rename(&a, &b, &nobody()));
}

#[test]
fn apply_trash_restores_via_the_real_trash_id() {
    let mut disk = Disk::new(&["/home", "/src"], &[("/src/doc.txt", b"contents")]);
    let path = p("/src/doc.txt");
    let id = disk.trash(&path).unwrap();
    assert!(!disk.has("/src/doc.txt"), "moved into the trash by trash_into");

    let mut job = apply(UndoEntry::Trash { id, original: Location::local(&path) });
    let id = match job.step(UndoReply::Start) {
        UndoAction::Restore { id } => id,
        other => panic!("{other:?}"),
    };
    disk.restore(&id).unwrap();
    assert!(matches!(job.step(UndoReply::Done), UndoAction::Finish { error: None }));
    assert_eq!(disk.text(&path), "contents");
}
