use saola_files::model::fs::entry::{EntryKind, FileEntry};
use saola_files::model::remote::{
    cancelled_error, gather, plan_connect, ConnectEvent, ConnectIdSource, ConnectPlan, ConnectRequest, Download,
    RemoteManager, WriteOutcome,
};
use saola_files::model::vfs::{Backend, FakeBackend, Location, VfsError};
use saola_files::modules::{resolve, Resolved};
use saola_files::path::FsPath;
use std::collections::BTreeMap;
use std::hash::{Hash, Hasher};

fn sftp_location(authority: &str, path: &str) -> Location {
    Location {
        scheme: "sftp".to_owned(),
        authority: Some(authority.to_owned()),
        path: FsPath::new(path),
    }
}

#[test]
fn a_fresh_manager_has_nothing_pooled() {
    let manager = RemoteManager::<FakeBackend>::new();
    assert!(manager.pooled(&sftp_location("jordan@host", "/")).is_none());
}

#[test]
fn register_then_pooled_round_trips_for_the_same_authority() {
    let mut manager = RemoteManager::<FakeBackend>::new();
    let backend = FakeBackend::new();
    let location = sftp_location("jordan@host", "/srv");
    manager.register(&location, backend);

    let found = manager.pooled(&location);
    assert!(found.is_some());
    assert_eq!(found.unwrap().scheme(), "fake");
}

#[test]
fn pooling_is_keyed_by_scheme_and_authority_not_path() {
    let mut manager = RemoteManager::<FakeBackend>::new();
    manager.register(&sftp_location("a@host", "/one"), FakeBackend::new());

    // A different path under the *same* authority still finds it —
    // the pool doesn't care which directory you were last browsing.
    assert!(manager.pooled(&sftp_location("a@host", "/two")).is_some());
    // A different authority does not.
    assert!(manager.pooled(&sftp_location("b@host", "/one")).is_none());
}

#[test]
fn a_local_location_never_pools_anything() {
    let mut manager = RemoteManager::<FakeBackend>::new();
    manager.register(&Location::local("/home/jordan"), FakeBackend::new());
    assert!(manager.pooled(&Location::local("/home/jordan")).is_none());
}

#[test]
fn forget_evicts_a_pooled_connection() {
    let mut manager = RemoteManager::<FakeBackend>::new();
    let location = sftp_location("jordan@host", "/");
    manager.register(&location, FakeBackend::new());
    assert!(manager.pooled(&location).is_some());

    manager.forget(&location);
    assert!(manager.pooled(&location).is_none());
}

#[test]
fn connect_request_hash_depends_only_on_id() {
    let mut ids = ConnectIdSource::default();
    let id = ids.allocate();
    let a = ConnectRequest::new(id, sftp_location("a@host", "/"));
    let b = ConnectRequest::new(id, sftp_location("b@other", "/elsewhere"));
    let hash_of = |r: &ConnectRequest| {
        let mut hasher = std::collections::hash_map::DefaultHasher::new();
        r.hash(&mut hasher);
        hasher.finish()
    };
    assert_eq!(hash_of(&a), hash_of(&b));
}

#[test]
fn connect_id_source_hands_out_distinct_ids() {
    let mut ids = ConnectIdSource::default();
    assert_ne!(ids.allocate(), ids.allocate());
}

#[test]
fn connecting_to_an_unsupported_scheme_fails_cleanly_never_panics() {
    let mut manager = RemoteManager::<FakeBackend>::new();
    let mut ids = ConnectIdSource::default();
    let location = Location {
        scheme: "ftp".to_owned(),
        authority: Some("host".to_owned()),
        path: FsPath::new("/"),
    };
    let request = ConnectRequest::new(ids.allocate(), location.clone());
    let error = match plan_connect(&request, false) {
        ConnectPlan::Fail(e) => e,
        ConnectPlan::Sftp => panic!("accepted"),
    };
    let event = manager.conclude(&request, Err(error));
    assert!(matches!(event, ConnectEvent::Failed(_)));
    assert!(manager.pooled(&location).is_none());
}

#[test]
fn a_connection_that_succeeds_is_pooled() {
    let mut manager = RemoteManager::<FakeBackend>::new();
    let mut ids = ConnectIdSource::default();
    let request = ConnectRequest::new(ids.allocate(), sftp_location("a@host", "/"));
    assert!(matches!(plan_connect(&request, false), ConnectPlan::Sftp));
    let event = manager.conclude(&request, Ok(FakeBackend::new()));
    assert!(matches!(event, ConnectEvent::Connected));
    assert!(manager.pooled(&sftp_location("a@host", "/x")).is_some());
}

#[test]
fn a_cancelled_request_is_refused() {
    let mut ids = ConnectIdSource::default();
    let mut request = ConnectRequest::new(ids.allocate(), sftp_location("a@host", "/"));
    request.request_cancel();
    match plan_connect(&request, request.is_cancelled()) {
        ConnectPlan::Fail(e) => assert_eq!(e.to_string(), cancelled_error().to_string()),
        ConnectPlan::Sftp => panic!("accepted"),
    }
}

#[test]
fn request_cancel_is_observable_through_is_cancelled() {
    let mut ids = ConnectIdSource::default();
    let mut request = ConnectRequest::new(ids.allocate(), sftp_location("a@host", "/"));
    assert!(!request.is_cancelled());
    request.request_cancel();
    assert!(request.is_cancelled());
}

/// Local copies in memory, by path.
#[derive(Default)]
struct Copies {
    files: BTreeMap<Vec<u8>, Vec<u8>>,
}

impl Copies {
    /// Downloads a file whose bytes come from `read`.
    fn download(
        &mut self,
        manager: &mut RemoteManager<FakeBackend>,
        location: &Location,
        read: impl FnOnce() -> Result<Vec<u8>, VfsError>,
    ) -> Result<FsPath, VfsError> {
        let there = |p: &FsPath| self.files.contains_key(&p.to_bytes());
        let exists = manager.cached(location).is_some_and(|p| there(&p));
        let dest = match manager.plan_download(location, exists, &FsPath::new("/tmp"), 7) {
            Download::Cached { path } => return Ok(path),
            Download::Fetch { dest } => dest,
        };
        let bytes = gather(&vec![read()])?;
        self.files.insert(dest.to_bytes(), bytes);
        manager.finish_download(location, dest, WriteOutcome::Written)
    }

    fn get(&self, path: &FsPath) -> Option<&Vec<u8>> {
        self.files.get(&path.to_bytes())
    }
}

#[test]
fn download_to_temp_writes_the_backends_bytes_and_marks_it_read_only() {
    let mut manager = RemoteManager::<FakeBackend>::new();
    let backend = FakeBackend::new().with_dir(
        "/remote",
        vec![FileEntry {
            name: b"note.txt".to_vec(),
            kind: EntryKind::File,
            size: 0,
            modified: None,
            is_symlink: false,
            mode: None,
        }],
    );
    // The backend never reads: its failure is the result, and nothing is
    // remembered.
    let location = Location {
        scheme: "fake".to_owned(),
        authority: Some("host".to_owned()),
        path: FsPath::new("/remote/note.txt"),
    };
    let mut copies = Copies::default();
    let read = || backend.read(&location).map(|()| vec![]);
    let result = copies.download(&mut manager, &location, read);
    assert!(result.is_err());
    assert!(manager.cached(&location).is_none());
    assert!(copies.files.is_empty());
}

#[test]
fn files_of_one_name_have_copies_of_their_own() {
    let mut manager = RemoteManager::<FakeBackend>::new();
    let mut copies = Copies::default();
    let (a, b) = (sftp_location("a@host", "/a/f"), sftp_location("a@host", "/b/f"));
    let p = copies.download(&mut manager, &a, || Ok(b"first".to_vec())).unwrap();
    let q = copies.download(&mut manager, &b, || Ok(b"second".to_vec())).unwrap();
    assert_ne!(p, q);
    assert_eq!(copies.get(&p).unwrap(), b"first");
    assert_eq!(copies.get(&q).unwrap(), b"second");
    // Neither is fetched again.
    let again = copies.download(&mut manager, &a, || panic!("read again")).unwrap();
    assert_eq!(again, p);
    let again = copies.download(&mut manager, &b, || panic!("read again")).unwrap();
    assert_eq!(again, q);
}

#[test]
fn downloads_under_way_at_the_same_time_do_not_meet() {
    let mut manager = RemoteManager::<FakeBackend>::new();
    let mut plan = |path: &str| {
        let location = sftp_location("a@host", path);
        match manager.plan_download(&location, false, &FsPath::new("/tmp"), 7) {
            Download::Fetch { dest } => dest.display(),
            Download::Cached { .. } => panic!("nothing was fetched yet"),
        }
    };
    assert_eq!(plan("/a/f"), "/tmp/saola-files-7-0-a@host-f");
    assert_eq!(plan("/b/f"), "/tmp/saola-files-7-1-a@host-f");
    assert_eq!(plan("/"), "/tmp/saola-files-7-2-a@host-download");
}

#[test]
fn a_copy_that_is_replaced_is_forgotten() {
    let mut manager = RemoteManager::<FakeBackend>::new();
    let (a, b) = (sftp_location("a@host", "/a/f"), sftp_location("a@host", "/b/f"));
    let place = FsPath::new("/tmp/saola-files-7-0-a@host-f");
    manager.finish_download(&a, place.clone(), WriteOutcome::Written).unwrap();
    // A new copy keeps away from it.
    match manager.plan_download(&b, false, &FsPath::new("/tmp"), 7) {
        Download::Fetch { dest } => assert_ne!(dest, place),
        Download::Cached { .. } => panic!("nothing was fetched yet"),
    }
    manager.finish_download(&b, place.clone(), WriteOutcome::Written).unwrap();
    assert!(manager.cached(&a).is_none());
    assert_eq!(manager.cached(&b), Some(place));
}

#[test]
fn chunks_are_joined_up_to_the_first_failure() {
    assert_eq!(gather(&vec![Ok(vec![1, 2]), Ok(vec![]), Ok(vec![3])]).unwrap(), vec![1, 2, 3]);
    let lost = VfsError::Unavailable { message: "lost".to_owned() };
    assert!(gather(&vec![Ok(vec![1]), Err(lost), Ok(vec![2])]).is_err());
}

#[test]
fn a_download_is_fetched_once() {
    let mut manager = RemoteManager::<FakeBackend>::new();
    let location = sftp_location("a@host", "/srv/note.txt");
    let dest = match manager.plan_download(&location, false, &FsPath::new("/tmp"), 7) {
        Download::Fetch { dest } => dest,
        Download::Cached { .. } => panic!("nothing was fetched yet"),
    };
    assert!(dest.display().starts_with("/tmp/"));
    assert!(dest.display().ends_with("note.txt"));
    let got = manager.finish_download(&location, dest.clone(), WriteOutcome::Written).unwrap();
    assert_eq!(got, dest);
    match manager.plan_download(&location, true, &FsPath::new("/tmp"), 7) {
        Download::Cached { path } => assert_eq!(path, dest),
        Download::Fetch { .. } => panic!("fetched twice"),
    }
    // A copy that is gone is fetched again.
    assert!(matches!(
        manager.plan_download(&location, false, &FsPath::new("/tmp"), 7),
        Download::Fetch { .. }
    ));
}

#[test]
fn a_download_that_fails_is_not_remembered() {
    let mut manager = RemoteManager::<FakeBackend>::new();
    let location = sftp_location("a@host", "/srv/note.txt");
    let failed = WriteOutcome::Failed { message: "disk full".to_owned() };
    assert!(manager.finish_download(&location, FsPath::new("/tmp/x"), failed).is_err());
    let broken = WriteOutcome::Broken { message: "task gone".to_owned() };
    assert!(manager.finish_download(&location, FsPath::new("/tmp/x"), broken).is_err());
    assert!(manager.cached(&location).is_none());
}

#[test]
fn file_scheme_resolves_to_local_backend() {
    let manager = RemoteManager::<FakeBackend>::new();
    let backend = resolve(&Location::local("/"), &manager).expect("file scheme should resolve");
    assert_eq!(backend.scheme(), "file");
}

#[test]
fn unknown_scheme_resolves_to_nothing() {
    let manager = RemoteManager::<FakeBackend>::new();
    let location = Location {
        scheme: "gopher".to_owned(),
        authority: None,
        path: FsPath::new("/"),
    };
    assert!(resolve(&location, &manager).is_none());
}

#[test]
fn a_pooled_connection_resolves() {
    let mut manager = RemoteManager::<FakeBackend>::new();
    let location = sftp_location("a@host", "/");
    assert!(resolve(&location, &manager).is_none());
    manager.register(&location, FakeBackend::new());
    assert!(matches!(resolve(&location, &manager), Some(Resolved::Remote(_))));
}
