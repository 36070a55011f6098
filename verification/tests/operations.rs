use saola_files::model::fs::entry::{EntryKind, FileEntry};
use saola_files::model::fs::ops::{
    split_extension, Clipboard, ClipboardOp, ConflictChoice, ConflictDecision, OpAction, OpEngine,
    OpEvent, OpIdSource, OpKind, OpReply, OpRequest,
};
use saola_files::model::fs::size::{
    SizeAction, SizeEvent, SizeIdSource, SizeReply, SizeRequest, SizeWalk,
};
use saola_files::model::fs::undo::{apply, UndoAction, UndoEntry, UndoReply};
use saola_files::model::vfs::{Caps, Location, VfsError};
use saola_files::path::FsPath;
use std::collections::BTreeMap;
use std::hash::{Hash, Hasher};

#[derive(Clone, PartialEq, Debug)]
enum Node {
    Dir,
    File(Vec<u8>),
}

/// A tree of files in memory.
struct Disk {
    nodes: BTreeMap<Vec<u8>, Node>,
    caps: Caps,
    reading: Option<(Vec<u8>, usize)>,
    writing: Option<Vec<u8>>,
    /// Whether renaming fails, as it does between devices.
    apart: bool,
}

const CHUNK: usize = 64 * 1024;

fn key(location: &Location) -> Vec<u8> {
    location.path.to_bytes()
}

fn gone(location: &Location) -> VfsError {
    VfsError::NotFound { location: location.to_string() }
}

impl Disk {
    fn new(nodes: &[(&str, Option<&[u8]>)]) -> Self {
        let mut map = BTreeMap::new();
        for (path, contents) in nodes {
            let node = match contents {
                Some(c) => Node::File(c.to_vec()),
                None => Node::Dir,
            };
            map.insert(path.as_bytes().to_vec(), node);
        }
        Disk {
            nodes: map,
            caps: Caps::rename_in_place() | Caps::local_path(),
            reading: None,
            writing: None,
            apart: false,
        }
    }

    fn read(&self, path: &str) -> Option<Vec<u8>> {
        match self.nodes.get(path.as_bytes()) {
            Some(Node::File(c)) => Some(c.clone()),
            _ => None,
        }
    }

    fn has(&self, path: &str) -> bool {
        self.nodes.contains_key(path.as_bytes())
    }

    fn children(&self, dir: &[u8]) -> Vec<Vec<u8>> {
        let mut prefix = dir.to_vec();
        prefix.push(b'/');
        self.nodes
            .keys()
            .filter(|k| k.starts_with(&prefix) && !k[prefix.len()..].contains(&b'/'))
            .cloned()
            .collect()
    }

    fn entry(&self, path: &[u8]) -> Option<FileEntry> {
        let node = self.nodes.get(path)?;
        let (kind, size) = match node {
            Node::Dir => (EntryKind::Directory, 0),
            Node::File(c) => (EntryKind::File, c.len() as u64),
        };
        Some(FileEntry {
            name: FsPath::from_bytes(path.to_vec()).file_name().unwrap_or_default(),
            kind,
            size,
            modified: None,
            is_symlink: false,
            mode: None,
        })
    }

    fn list(&self, path: &[u8]) -> Option<Vec<FileEntry>> {
        match self.nodes.get(path) {
            Some(Node::Dir) => {
                Some(self.children(path).iter().filter_map(|c| self.entry(c)).collect())
            }
            _ => None,
        }
    }

    /// Renames as the system does: a file replaces a file, and a directory an
    /// empty directory.
    fn rename(&mut self, from: &Location, to: &Location) -> Result<(), VfsError> {
        let (a, b) = (key(from), key(to));
        if self.apart {
            return Err(VfsError::Other { message: "cross-device link".to_owned() });
        }
        if !self.nodes.contains_key(&a) {
            return Err(gone(from));
        }
        if a == b {
            return Ok(());
        }
        match (self.nodes.get(&a), self.nodes.get(&b)) {
            (Some(Node::File(_)), Some(Node::Dir)) => {
                return Err(VfsError::IsADirectory { location: to.to_string() });
            }
            (Some(Node::Dir), Some(Node::File(_))) => {
                return Err(VfsError::NotADirectory { location: to.to_string() });
            }
            (Some(Node::Dir), Some(Node::Dir)) if !self.children(&b).is_empty() => {
                return Err(VfsError::AlreadyExists { location: to.to_string() });
            }
            _ => {}
        }
        self.nodes.remove(&b);
        let moved: Vec<Vec<u8>> = self
            .nodes
            .keys()
            .filter(|k| **k == a || (k.starts_with(&a) && k.get(a.len()) == Some(&b'/')))
            .cloned()
            .collect();
        for k in moved {
            let node = self.nodes.remove(&k).unwrap();
            let mut new = b.clone();
            new.extend_from_slice(&k[a.len()..]);
            self.nodes.insert(new, node);
        }
        Ok(())
    }

    fn remove(&mut self, location: &Location) -> Result<(), VfsError> {
        let k = key(location);
        if !self.children(&k).is_empty() {
            return Err(VfsError::Other { message: "not empty".to_owned() });
        }
        match self.nodes.remove(&k) {
            Some(_) => Ok(()),
            None => Err(gone(location)),
        }
    }

    fn run(&mut self, request: &mut OpRequest, answer: ConflictDecision, cancel: bool) -> Vec<OpEvent> {
        let mut engine = OpEngine::new(request);
        let mut seen = Vec::new();
        let mut reply = OpReply::Start;
        for _ in 0..10_000 {
            let out = engine.step(reply, request.is_cancelled());
            if let Some(note) = out.note {
                seen.push(note);
                if cancel {
                    request.request_cancel();
                }
            }
            reply = match out.action {
                OpAction::Resolve { location } => {
                    OpReply::Backend(if location.is_local() { Some(self.caps) } else { None })
                }
                OpAction::Rename { from, to } => OpReply::Done(self.rename(&from, &to)),
                OpAction::Stat { location } => {
                    OpReply::Entry(self.entry(&key(&location)).ok_or_else(|| gone(&location)))
                }
                OpAction::List { location } => {
                    OpReply::Listing(self.list(&key(&location)).ok_or_else(|| gone(&location)))
                }
                OpAction::Mkdir { location } => {
                    self.nodes.insert(key(&location), Node::Dir);
                    OpReply::Done(Ok(()))
                }
                OpAction::Remove { location } => OpReply::Done(self.remove(&location)),
                OpAction::OpenRead { location } => match self.nodes.get(&key(&location)) {
                    Some(Node::File(_)) => {
                        self.reading = Some((key(&location), 0));
                        OpReply::Done(Ok(()))
                    }
                    _ => OpReply::Done(Err(gone(&location))),
                },
                OpAction::OpenWrite { location } => {
                    self.nodes.insert(key(&location), Node::File(vec![]));
                    self.writing = Some(key(&location));
                    OpReply::Done(Ok(()))
                }
                OpAction::Read => {
                    let (path, at) = self.reading.clone().unwrap();
                    let bytes = match self.nodes.get(&path) {
                        Some(Node::File(c)) => c[at..c.len().min(at + CHUNK)].to_vec(),
                        _ => panic!("not a file"),
                    };
                    self.reading = Some((path, at + bytes.len()));
                    OpReply::Chunk(if bytes.is_empty() { None } else { Some(Ok(bytes)) })
                }
                OpAction::Write { bytes } => {
                    let path = self.writing.clone().unwrap();
                    match self.nodes.get_mut(&path) {
                        Some(Node::File(c)) => c.extend(bytes),
                        _ => panic!("not a file"),
                    }
                    OpReply::Done(Ok(()))
                }
                OpAction::Close => {
                    self.writing = None;
                    OpReply::Done(Ok(()))
                }
                OpAction::Announce { files_total, bytes_total } => {
                    seen.push(OpEvent::Started { files_total, bytes_total });
                    OpReply::Delivered(true)
                }
                OpAction::Ask { conflict } => {
                    seen.push(OpEvent::Conflict { conflict });
                    OpReply::Decision(Some(answer))
                }
                OpAction::Finish { errors } => {
                    seen.push(OpEvent::Finished { errors });
                    return seen;
                }
                OpAction::Cancelled => {
                    seen.push(OpEvent::Cancelled);
                    return seen;
                }
                OpAction::Halt => panic!("halted"),
            };
        }
        panic!("does not end")
    }

    fn measure(&self, request: &mut SizeRequest, cancel_after: Option<usize>) -> Vec<SizeEvent> {
        let mut walk = SizeWalk::new(request);
        let mut seen = Vec::new();
        let mut reply = SizeReply::Start;
        for _ in 0..10_000 {
            let (note, action) = walk.step(reply, request.is_cancelled());
            if let Some(event) = note {
                seen.push(event);
                if cancel_after == Some(seen.len()) {
                    request.request_cancel();
                }
            }
            reply = match action {
                SizeAction::Resolve { location } => SizeReply::Backend(location.is_local()),
                SizeAction::Stat { location } => SizeReply::Entry(self.entry(&key(&location))),
                SizeAction::List { location } => SizeReply::Listing(self.list(&key(&location))),
                SizeAction::Finish { event } => {
                    seen.push(event);
                    return seen;
                }
                SizeAction::Halt => panic!("halted"),
            };
        }
        panic!("does not end")
    }

    fn undo(&mut self, entry: UndoEntry) -> Option<String> {
        let mut job = apply(entry);
        let mut reply = UndoReply::Start;
        for _ in 0..100 {
            let done = |r: Result<(), VfsError>| match r {
                Ok(()) => UndoReply::Done,
                Err(e) => UndoReply::Failed(e.to_string()),
            };
            reply = match job.step(reply) {
                UndoAction::Resolve { location } => UndoReply::Backend(location.is_local()),
                UndoAction::Rename { from, to } => done(self.rename(&from, &to)),
                UndoAction::Remove { location } => done(self.remove(&location)),
                UndoAction::Restore { .. } => panic!("nothing was trashed"),
                UndoAction::Finish { error } => return error,
                UndoAction::Halt => panic!("halted"),
            };
        }
        panic!("does not end")
    }
}

fn decision(choice: ConflictChoice, apply_to_all: bool) -> ConflictDecision {
    ConflictDecision { choice, apply_to_all }
}

fn skip() -> ConflictDecision {
    decision(ConflictChoice::Skip, false)
}

fn request(kind: OpKind, sources: &[&str], dest: &str) -> OpRequest {
    let mut ids = OpIdSource::default();
    OpRequest::new(
        ids.allocate(),
        kind,
        sources.iter().map(|s| Location::local(*s)).collect(),
        Location::local(dest),
    )
}

fn finished_clean(events: &[OpEvent]) -> bool {
    matches!(events.last(), Some(OpEvent::Finished { errors }) if errors.is_empty())
}

#[test]
fn clipboard_starts_empty() {
    let clipboard = Clipboard::new();
    assert!(clipboard.is_empty());
    assert_eq!(clipboard.op(), None);
}

#[test]
fn set_copy_and_set_cut_replace_op_and_contents() {
    let mut clipboard = Clipboard::new();
    clipboard.set_copy(vec![Location::local("/a")]);
    assert_eq!(clipboard.op(), Some(ClipboardOp::Copy));
    assert_eq!(clipboard.locations(), &[Location::local("/a")]);

    clipboard.set_cut(vec![Location::local("/b"), Location::local("/c")]);
    assert_eq!(clipboard.op(), Some(ClipboardOp::Cut));
    assert_eq!(clipboard.locations().len(), 2);
}

#[test]
fn clear_empties_the_clipboard() {
    let mut clipboard = Clipboard::new();
    clipboard.set_copy(vec![Location::local("/a")]);
    clipboard.clear();
    assert!(clipboard.is_empty());
    assert_eq!(clipboard.op(), None);
}

#[test]
fn op_id_source_hands_out_increasing_distinct_ids() {
    let mut ids = OpIdSource::default();
    let a = ids.allocate();
    let b = ids.allocate();
    assert_ne!(a, b);
}

#[test]
fn op_request_hash_depends_only_on_id() {
    let mut ids = OpIdSource::default();
    let id = ids.allocate();
    let a = OpRequest::new(id, OpKind::Copy, vec![Location::local("/a")], Location::local("/dest"));
    // A different `sources`/`dest_dir` with the *same* id still hashes
    // identically.
    let b = OpRequest::new(id, OpKind::Move, vec![], Location::local("/other"));
    let hash_of = |r: &OpRequest| {
        let mut hasher = std::collections::hash_map::DefaultHasher::new();
        r.hash(&mut hasher);
        hasher.finish()
    };
    assert_eq!(hash_of(&a), hash_of(&b));
}

#[test]
fn split_extension_finds_the_last_dot() {
    assert_eq!(
        split_extension(&FsPath::new("report.tar.gz")),
        ("report.tar".to_owned(), ".gz".to_owned())
    );
    assert_eq!(split_extension(&FsPath::new("readme")), ("readme".to_owned(), String::new()));
}

#[test]
fn split_extension_treats_a_leading_dot_as_no_extension() {
    assert_eq!(split_extension(&FsPath::new(".bashrc")), (".bashrc".to_owned(), String::new()));
}

#[test]
fn copy_streams_a_file_tree_between_two_local_roots() {
    let mut disk = Disk::new(&[
        ("/src", None),
        ("/src/a.txt", Some(b"hello")),
        ("/src/sub", None),
        ("/src/sub/b.txt", Some(b"world")),
        ("/dst", None),
    ]);
    let mut request = request(OpKind::Copy, &["/src"], "/dst");
    let events = disk.run(&mut request, skip(), false);
    assert!(finished_clean(&events));
    assert!(matches!(events[0], OpEvent::Started { files_total: 2, bytes_total: 10 }));
    assert_eq!(disk.read("/dst/src/a.txt").unwrap(), b"hello");
    assert_eq!(disk.read("/dst/src/sub/b.txt").unwrap(), b"world");
    // The source tree is untouched — this was a copy, not a move.
    assert!(disk.has("/src/a.txt"));
}

#[test]
fn copy_preserves_non_utf8_names() {
    let mut disk = Disk::new(&[("/src", None), ("/dst", None)]);
    let raw = b"/src/caf\xe9.txt".to_vec();
    disk.nodes.insert(raw.clone(), Node::File(b"x".to_vec()));
    let mut ids = OpIdSource::default();
    let mut request = OpRequest::new(
        ids.allocate(),
        OpKind::Copy,
        vec![Location::local(raw)],
        Location::local("/dst"),
    );
    let events = disk.run(&mut request, skip(), false);
    assert!(finished_clean(&events));
    assert_eq!(
        disk.nodes.get(b"/dst/caf\xe9.txt".as_slice()),
        Some(&Node::File(b"x".to_vec()))
    );
}

#[test]
fn move_within_one_root_takes_the_rename_fast_path_and_deletes_the_source() {
    let mut disk =
        Disk::new(&[("/from", None), ("/from/f.txt", Some(b"data")), ("/to", None)]);
    let mut request = request(OpKind::Move, &["/from/f.txt"], "/to");
    let events = disk.run(&mut request, skip(), false);
    assert!(finished_clean(&events));
    assert_eq!(events.len(), 1);
    assert!(!disk.has("/from/f.txt"));
    assert_eq!(disk.read("/to/f.txt").unwrap(), b"data");
}

#[test]
fn move_deletes_the_source_tree_after_a_streamed_copy() {
    let mut disk = Disk::new(&[
        ("/src", None),
        ("/src/dir", None),
        ("/src/dir/f.txt", Some(b"data")),
        ("/dst", None),
    ]);
    disk.apart = true;
    let mut request = request(OpKind::Move, &["/src/dir"], "/dst");
    let events = disk.run(&mut request, skip(), false);
    assert!(finished_clean(&events));
    assert!(!disk.has("/src/dir"));
    assert_eq!(disk.read("/dst/dir/f.txt").unwrap(), b"data");
}

#[test]
fn conflict_overwrite_replaces_the_existing_destination() {
    let mut disk = Disk::new(&[
        ("/src", None),
        ("/src/f.txt", Some(b"new")),
        ("/dst", None),
        ("/dst/f.txt", Some(b"old-longer-content")),
    ]);
    let mut request = request(OpKind::Copy, &["/src/f.txt"], "/dst");
    let events = disk.run(&mut request, decision(ConflictChoice::Overwrite, false), false);
    assert!(events.iter().any(|e| matches!(e, OpEvent::Conflict { .. })));
    assert!(finished_clean(&events));
    assert_eq!(disk.read("/dst/f.txt").unwrap(), b"new");
}

#[test]
fn conflict_skip_leaves_the_existing_destination_untouched() {
    let mut disk = Disk::new(&[
        ("/src", None),
        ("/src/f.txt", Some(b"new")),
        ("/dst", None),
        ("/dst/f.txt", Some(b"old")),
    ]);
    let mut request = request(OpKind::Copy, &["/src/f.txt"], "/dst");
    let events = disk.run(&mut request, skip(), false);
    assert!(finished_clean(&events));
    assert_eq!(disk.read("/dst/f.txt").unwrap(), b"old");
}

#[test]
fn conflict_rename_copy_keeps_both_files() {
    let mut disk = Disk::new(&[
        ("/src", None),
        ("/src/f.txt", Some(b"new")),
        ("/dst", None),
        ("/dst/f.txt", Some(b"old")),
    ]);
    let mut request = request(OpKind::Copy, &["/src/f.txt"], "/dst");
    let events = disk.run(&mut request, decision(ConflictChoice::RenameCopy, false), false);
    assert!(finished_clean(&events));
    assert_eq!(disk.read("/dst/f.txt").unwrap(), b"old");
    assert_eq!(disk.read("/dst/f (copy).txt").unwrap(), b"new");
}

#[test]
fn a_second_copy_is_numbered() {
    let mut disk = Disk::new(&[
        ("/src", None),
        ("/src/f.txt", Some(b"new")),
        ("/dst", None),
        ("/dst/f.txt", Some(b"old")),
        ("/dst/f (copy).txt", Some(b"first")),
    ]);
    let mut request = request(OpKind::Copy, &["/src/f.txt"], "/dst");
    let events = disk.run(&mut request, decision(ConflictChoice::RenameCopy, false), false);
    assert!(finished_clean(&events));
    assert_eq!(disk.read("/dst/f (copy).txt").unwrap(), b"first");
    assert_eq!(disk.read("/dst/f (copy 2).txt").unwrap(), b"new");
}

#[test]
fn conflict_apply_to_all_answers_every_later_conflict_without_prompting() {
    let mut disk = Disk::new(&[
        ("/src", None),
        ("/src/a.txt", Some(b"a-new")),
        ("/src/b.txt", Some(b"b-new")),
        ("/dst", None),
        ("/dst/a.txt", Some(b"a-old")),
        ("/dst/b.txt", Some(b"b-old")),
    ]);
    let mut request = request(OpKind::Copy, &["/src/a.txt", "/src/b.txt"], "/dst");
    let events = disk.run(&mut request, decision(ConflictChoice::Overwrite, true), false);
    let conflict_count = events.iter().filter(|e| matches!(e, OpEvent::Conflict { .. })).count();
    assert_eq!(conflict_count, 1, "only the first conflict should prompt");
    assert!(finished_clean(&events));
    assert_eq!(disk.read("/dst/a.txt").unwrap(), b"a-new");
    assert_eq!(disk.read("/dst/b.txt").unwrap(), b"b-new");
}

#[test]
fn cancel_mid_copy_stops_early_and_removes_the_partial_destination() {
    let payload = vec![7u8; 32 * 1024 * 1024];
    let mut disk = Disk::new(&[("/src", None), ("/dst", None)]);
    disk.nodes.insert(b"/src/big.bin".to_vec(), Node::File(payload.clone()));
    let mut request = request(OpKind::Copy, &["/src/big.bin"], "/dst");
    let events = disk.run(&mut request, skip(), true);
    assert!(matches!(events.last(), Some(OpEvent::Cancelled)));
    assert!(
        !disk.has("/dst/big.bin"),
        "a cancelled copy must not leave a partial file behind"
    );
    assert_eq!(disk.read("/src/big.bin").unwrap().len(), payload.len());
}

#[test]
fn a_source_that_is_gone_is_reported_and_the_rest_goes_on() {
    let mut disk =
        Disk::new(&[("/src", None), ("/src/b.txt", Some(b"b")), ("/dst", None)]);
    let mut request = request(OpKind::Copy, &["/src/a.txt", "/src/b.txt"], "/dst");
    let events = disk.run(&mut request, skip(), false);
    match events.last() {
        Some(OpEvent::Finished { errors }) => {
            assert_eq!(errors.len(), 1);
            assert_eq!(errors[0].0, Location::local("/src/a.txt"));
        }
        other => panic!("{other:?}"),
    }
    assert_eq!(disk.read("/dst/b.txt").unwrap(), b"b");
}

#[test]
fn size_id_source_hands_out_increasing_distinct_ids() {
    let mut ids = SizeIdSource::default();
    let a = ids.allocate();
    let b = ids.allocate();
    assert_ne!(a, b);
}

#[test]
fn size_request_hash_depends_only_on_id() {
    let mut ids = SizeIdSource::default();
    let id = ids.allocate();
    let a = SizeRequest::new(id, vec![Location::local("/a")]);
    let b = SizeRequest::new(id, vec![]);
    let hash_of = |r: &SizeRequest| {
        let mut hasher = std::collections::hash_map::DefaultHasher::new();
        r.hash(&mut hasher);
        hasher.finish()
    };
    assert_eq!(hash_of(&a), hash_of(&b));
}

fn sizes(roots: &[&str]) -> SizeRequest {
    let mut ids = SizeIdSource::default();
    SizeRequest::new(ids.allocate(), roots.iter().map(|r| Location::local(*r)).collect())
}

#[test]
fn counts_a_single_file_directly() {
    let disk = Disk::new(&[("/a.txt", Some(b"hello"))]);
    let events = disk.measure(&mut sizes(&["/a.txt"]), None);
    assert!(matches!(events.last(), Some(SizeEvent::Finished { files: 1, bytes: 5 })));
}

#[test]
fn recursively_totals_a_directory_tree() {
    let disk = Disk::new(&[
        ("/r", None),
        ("/r/a.txt", Some(b"hello")), // 5 bytes
        ("/r/sub", None),
        ("/r/sub/b.txt", Some(b"world!")), // 6 bytes
    ]);
    let events = disk.measure(&mut sizes(&["/r"]), None);
    assert!(matches!(events.last(), Some(SizeEvent::Finished { files: 2, bytes: 11 })));
    // Progress events counted up along the way, not just a single
    // jump at the end.
    assert!(events.iter().any(|e| matches!(e, SizeEvent::Progress { .. })));
}

#[test]
fn sums_multiple_roots_in_one_request() {
    let disk = Disk::new(&[("/a.txt", Some(b"12345")), ("/b.txt", Some(b"1234567890"))]);
    let events = disk.measure(&mut sizes(&["/a.txt", "/b.txt"]), None);
    assert!(matches!(events.last(), Some(SizeEvent::Finished { files: 2, bytes: 15 })));
}

#[test]
fn cancel_mid_walk_stops_early_and_reports_partial_totals() {
    let mut disk = Disk::new(&[("/r", None)]);
    for n in 0..500 {
        disk.nodes.insert(format!("/r/f{n}.txt").into_bytes(), Node::File(b"x".to_vec()));
    }
    let events = disk.measure(&mut sizes(&["/r"]), Some(1));
    match events.last() {
        Some(SizeEvent::Cancelled { files, .. }) => assert!(*files < 500),
        other => panic!("{other:?}"),
    }
}

#[test]
fn an_unresolvable_scheme_finishes_at_zero_rather_than_hanging() {
    let mut ids = SizeIdSource::default();
    let mut request = SizeRequest::new(
        ids.allocate(),
        vec![Location {
            scheme: "nonexistent".to_owned(),
            authority: None,
            path: FsPath::new("/x"),
        }],
    );
    let events = Disk::new(&[]).measure(&mut request, None);
    assert!(matches!(events.last(), Some(SizeEvent::Finished { files: 0, bytes: 0 })));
}

#[test]
fn apply_rename_moves_the_entry_back_to_its_original_name() {
    let mut disk = Disk::new(&[("/d", None), ("/d/new.txt", Some(b"hello"))]);
    let entry = UndoEntry::Rename {
        from: Location::local("/d/old.txt"),
        to: Location::local("/d/new.txt"),
    };
    assert_eq!(disk.undo(entry), None);
    assert!(!disk.has("/d/new.txt"));
    assert_eq!(disk.read("/d/old.txt").unwrap(), b"hello");
}

#[test]
fn apply_move_reverses_every_pair_even_if_paired_with_others() {
    let mut disk = Disk::new(&[
        ("/src", None),
        ("/dst", None),
        ("/dst/a.txt", Some(b"aaa")),
        ("/dst/b.txt", Some(b"bbb")),
    ]);
    let pair = |name: &str| {
        (
            Location::local(format!("/src/{name}")),
            Location::local(format!("/dst/{name}")),
        )
    };
    let entry = UndoEntry::Move { pairs: vec![pair("a.txt"), pair("b.txt")] };
    assert_eq!(disk.undo(entry), None);
    assert_eq!(disk.read("/src/a.txt").unwrap(), b"aaa");
    assert_eq!(disk.read("/src/b.txt").unwrap(), b"bbb");
    assert!(!disk.has("/dst/a.txt"));
    assert!(!disk.has("/dst/b.txt"));
}

#[test]
fn a_pair_that_is_gone_does_not_keep_the_others_from_moving_back() {
    let mut disk = Disk::new(&[
        ("/src", None),
        ("/dst", None),
        ("/dst/a.txt", Some(b"aaa")),
        ("/dst/b.txt", Some(b"bbb")),
    ]);
    let pair = |name: &str| {
        (
            Location::local(format!("/src/{name}")),
            Location::local(format!("/dst/{name}")),
        )
    };
    let entry = UndoEntry::Move { pairs: vec![pair("a.txt"), pair("gone.txt"), pair("b.txt")] };
    assert!(disk.undo(entry).is_some());
    assert_eq!(disk.read("/src/a.txt").unwrap(), b"aaa");
    assert_eq!(disk.read("/src/b.txt").unwrap(), b"bbb");
    assert!(!disk.has("/dst/a.txt"));
    assert!(!disk.has("/dst/b.txt"));
}

/// A file that is to be moved to where another one is.
fn blocked() -> Disk {
    Disk::new(&[
        ("/src", None),
        ("/src/f.txt", Some(b"new")),
        ("/dst", None),
        ("/dst/f.txt", Some(b"old")),
    ])
}

#[test]
fn a_move_asks_before_it_overwrites() {
    let mut disk = blocked();
    let events = disk.run(&mut request(OpKind::Move, &["/src/f.txt"], "/dst"), skip(), false);
    let asked = events.iter().any(|e| {
        matches!(e, OpEvent::Conflict { conflict }
            if conflict.source == Location::local("/src/f.txt")
                && conflict.dest == Location::local("/dst/f.txt"))
    });
    assert!(asked);
    assert!(finished_clean(&events));
    assert_eq!(disk.read("/src/f.txt").unwrap(), b"new");
    assert_eq!(disk.read("/dst/f.txt").unwrap(), b"old");

    let overwrite = decision(ConflictChoice::Overwrite, false);
    let events = disk.run(&mut request(OpKind::Move, &["/src/f.txt"], "/dst"), overwrite, false);
    assert!(finished_clean(&events));
    assert!(!disk.has("/src/f.txt"));
    assert_eq!(disk.read("/dst/f.txt").unwrap(), b"new");

    let mut disk = blocked();
    let both = decision(ConflictChoice::RenameCopy, false);
    let events = disk.run(&mut request(OpKind::Move, &["/src/f.txt"], "/dst"), both, false);
    assert!(finished_clean(&events));
    assert!(!disk.has("/src/f.txt"));
    assert_eq!(disk.read("/dst/f.txt").unwrap(), b"old");
    assert_eq!(disk.read("/dst/f (copy).txt").unwrap(), b"new");
}

#[test]
fn moving_a_file_to_where_it_is_leaves_it_alone() {
    let mut disk = blocked();
    let events = disk.run(&mut request(OpKind::Move, &["/src/f.txt"], "/src/"), skip(), false);
    assert!(finished_clean(&events));
    assert_eq!(events.len(), 1);
    assert_eq!(disk.read("/src/f.txt").unwrap(), b"new");

    // If nothing is there, that is reported.
    let events = disk.run(&mut request(OpKind::Move, &["/src/gone"], "/src"), skip(), false);
    match events.last() {
        Some(OpEvent::Finished { errors }) => {
            assert_eq!(errors.len(), 1);
            assert_eq!(errors[0].0, Location::local("/src/gone"));
        }
        _ => panic!("not finished"),
    }
}

#[test]
fn two_moved_files_of_one_name_do_not_replace_each_other() {
    let mut disk = Disk::new(&[
        ("/a", None),
        ("/a/f", Some(b"1")),
        ("/b", None),
        ("/b/f", Some(b"2")),
        ("/dst", None),
    ]);
    let events = disk.run(&mut request(OpKind::Move, &["/a/f", "/b/f"], "/dst"), skip(), false);
    assert!(events.iter().any(|e| matches!(e, OpEvent::Conflict { .. })));
    assert_eq!(disk.read("/dst/f").unwrap(), b"1");
    assert_eq!(disk.read("/b/f").unwrap(), b"2");
}

#[test]
fn apply_new_removes_the_freshly_created_entry() {
    let mut disk = Disk::new(&[("/d", None), ("/d/New Folder", None)]);
    let entry = UndoEntry::New { created: Location::local("/d/New Folder") };
    assert_eq!(disk.undo(entry), None);
    assert!(!disk.has("/d/New Folder"));
}

#[test]
fn apply_rename_reports_an_error_without_panicking_when_the_source_is_gone() {
    let mut disk = Disk::new(&[("/d", None)]);
    let entry = UndoEntry::Rename {
        from: Location::local("/d/old.txt"),
        to: Location::local("/d/never-existed.txt"),
    };
    assert!(disk.undo(entry).is_some());
}
