use saola_files::md5::{digest, hex_digest};
use saola_files::model::pictures::{make_thumbnail, read_picture};
use saola_files::model::thumbs::{
    cache_path, cache_root_from, canonical_uri, exceeds_max_size, find_origin, generate_blocking,
    is_complete, mtime_to_string, read_cache_metadata, write_png_with_metadata, FileBytes,
    ImageThumbnailer, MadeView, MimeText, NameText, Registry, ThumbAction, ThumbCache, ThumbHandle,
    ThumbReply, ThumbRequest, ThumbSize, Thumbnailer,
};
use saola_files::model::vfs::Location;
use saola_files::path::FsPath;
use saola_files::time::Timestamp;
use std::collections::BTreeMap;
use std::io::Cursor;

fn os(s: &str) -> Option<Vec<u8>> {
    Some(s.as_bytes().to_vec())
}

fn solid(width: u32, height: u32) -> ThumbHandle {
    let mut rgba = Vec::new();
    for _ in 0..width * height {
        rgba.extend([200, 100, 50, 255]);
    }
    ThumbHandle { width, height, rgba }
}

fn png_of(width: u32, height: u32) -> Vec<u8> {
    let image = image::RgbaImage::from_pixel(width, height, image::Rgba([200, 100, 50, 255]));
    let mut out = Cursor::new(Vec::new());
    image.write_to(&mut out, image::ImageFormat::Png).unwrap();
    out.into_inner()
}

/// Files in memory, with their modes.
#[derive(Default)]
struct Files {
    files: BTreeMap<Vec<u8>, (Vec<u8>, u32)>,
    read_only: bool,
    locked: bool,
}

impl Files {
    fn with(path: &str, contents: Vec<u8>) -> Self {
        let mut files = Files::default();
        files.files.insert(path.as_bytes().to_vec(), (contents, 0o644));
        files
    }

    fn get(&self, path: &FsPath) -> Option<&Vec<u8>> {
        self.files.get(&path.to_bytes()).map(|f| &f.0)
    }

    fn run(
        &mut self,
        registry: &Registry,
        root: Option<&str>,
        request: &ThumbRequest,
    ) -> (Option<ThumbHandle>, Option<String>) {
        let mut job = generate_blocking(registry, root.map(FsPath::new), request);
        let mut reply = ThumbReply::Start;
        for _ in 0..50 {
            reply = match job.step(reply) {
                ThumbAction::ReadBytes { path } => ThumbReply::Bytes(self.get(&path).cloned()),
                ThumbAction::CreateDirAll { .. } => {
                    if self.read_only {
                        ThumbReply::Failed("read-only".to_owned())
                    } else {
                        ThumbReply::Done
                    }
                }
                ThumbAction::Stamp => ThumbReply::Stamp { pid: 7, nanos: 42 },
                ThumbAction::WriteFile { path, contents } => {
                    self.files.insert(path.to_bytes(), (contents, 0o644));
                    ThumbReply::Done
                }
                ThumbAction::Protect { path } => {
                    if self.locked {
                        ThumbReply::Failed("not permitted".to_owned())
                    } else {
                        self.files.get_mut(&path.to_bytes()).unwrap().1 = 0o600;
                        ThumbReply::Done
                    }
                }
                ThumbAction::Rename { from, to } => {
                    let file = self.files.remove(&from.to_bytes()).unwrap();
                    self.files.insert(to.to_bytes(), file);
                    ThumbReply::Done
                }
                ThumbAction::RemoveFile { path } => {
                    self.files.remove(&path.to_bytes());
                    ThumbReply::Done
                }
                ThumbAction::Finish { image, warning } => return (image, warning),
                ThumbAction::Halt => panic!("halted"),
            };
        }
        panic!("does not end")
    }
}

fn request(path: &str, mimetype: &str, secs: i64) -> ThumbRequest {
    ThumbRequest {
        location: Location::local(path),
        mimetype: mimetype.to_owned(),
        modified: Timestamp::from_secs(secs),
    }
}

#[test]
fn matches_rfc_1321_test_vectors() {
    assert_eq!(hex_digest(b""), "d41d8cd98f00b204e9800998ecf8427e");
    assert_eq!(hex_digest(b"a"), "0cc175b9c0f1b6a831c399e269772661");
    assert_eq!(hex_digest(b"abc"), "900150983cd24fb0d6963f7d28e17f72");
    assert_eq!(hex_digest(b"message digest"), "f96b697d7cb7938d525a2f31aaf161d0");
    assert_eq!(hex_digest(b"abcdefghijklmnopqrstuvwxyz"), "c3fcd3d76192e4007dfb496cca67e13b");
    assert_eq!(
        hex_digest(b"ABCDEFGHIJKLMNOPQRSTUVWXYZabcdefghijklmnopqrstuvwxyz0123456789"),
        "d174ab98d277d9f5a5611c2c9f419d9f"
    );
    assert_eq!(
        hex_digest(
            b"12345678901234567890123456789012345678901234567890123456789012345678901234567890"
        ),
        "57edf4a22be3c955ac49da2e2107b67a"
    );
}

#[test]
fn digest_length_is_always_32_hex_characters() {
    assert_eq!(hex_digest(b"file:///home/jordan/photo.jpg").len(), 32);
    assert_eq!(digest(&[0; 55]).len(), 16);
    assert_eq!(digest(&[0; 56]).len(), 16);
}

#[test]
fn canonical_uri_percent_encodes_the_path() {
    assert_eq!(
        canonical_uri(&FsPath::new("/home/jordan/My File.jpg")),
        "file:///home/jordan/My%20File.jpg"
    );
}

#[test]
fn cache_path_uses_the_md5_of_the_uri_under_the_size_directory() {
    let root = FsPath::new("/cache/thumbnails");
    let uri = "file:///home/jordan/photo.jpg";
    let path = cache_path(&root, uri, ThumbSize::Normal);
    let name = format!("{}.png", hex_digest(uri.as_bytes()));
    assert_eq!(path, root.join_bytes(b"normal").join_bytes(name.as_bytes()));
}

#[test]
fn cache_path_is_stable_and_deterministic_for_the_same_uri() {
    let root = FsPath::new("/cache/thumbnails");
    let uri = "file:///a/b.png";
    assert_eq!(
        cache_path(&root, uri, ThumbSize::Normal),
        cache_path(&root, uri, ThumbSize::Normal)
    );
}

#[test]
fn different_uris_produce_different_cache_paths() {
    let root = FsPath::new("/cache/thumbnails");
    assert_ne!(
        cache_path(&root, "file:///a", ThumbSize::Normal),
        cache_path(&root, "file:///b", ThumbSize::Normal)
    );
}

#[test]
fn cache_root_chain_prefers_xdg_then_home_then_none() {
    assert_eq!(
        cache_root_from(os("/xdg-cache"), os("/home/j")),
        Some(FsPath::new("/xdg-cache/thumbnails"))
    );
    assert_eq!(
        cache_root_from(None, os("/home/j")),
        Some(FsPath::new("/home/j/.cache/thumbnails"))
    );
    assert_eq!(cache_root_from(None, None), None);
    // Empty env vars count as unset.
    assert_eq!(
        cache_root_from(os(""), os("/home/j")),
        Some(FsPath::new("/home/j/.cache/thumbnails"))
    );
}

#[test]
fn exceeds_max_size_gates_on_the_configured_cap() {
    assert!(!exceeds_max_size(10 * 1024 * 1024, 64));
    assert!(exceeds_max_size(65 * 1024 * 1024, 64));
    assert!(exceeds_max_size(1, 0));
    assert!(!exceeds_max_size(u64::MAX, u64::MAX));
}

#[test]
fn times_are_whole_seconds_since_the_epoch() {
    assert_eq!(mtime_to_string(Timestamp::from_secs(1_699_999_999)), "1699999999");
    assert_eq!(mtime_to_string(Timestamp { secs: 5, nanos: 999_999_999 }), "5");
    assert_eq!(mtime_to_string(Timestamp::from_secs(-1)), "0");
}

#[test]
fn png_metadata_round_trips_through_a_real_file() {
    let image = solid(4, 4);
    let file = write_png_with_metadata("file:///a/b.jpg", "1699999999", &image).unwrap();

    let (uri, mtime) = read_cache_metadata(&file).unwrap();
    assert_eq!(uri, "file:///a/b.jpg");
    assert_eq!(mtime, "1699999999");

    // The pixels themselves also round-trip, not just the metadata.
    let decoded = read_picture(&file, "entry.png").unwrap();
    assert_eq!((decoded.width, decoded.height), (4, 4));
    assert_eq!(decoded.rgba, image.rgba);
}

#[test]
fn read_cache_metadata_is_none_for_a_missing_file() {
    assert!(read_cache_metadata(b"").is_none());
    assert!(read_cache_metadata(b"no png at all").is_none());
}

#[test]
fn read_cache_metadata_is_none_for_a_png_with_no_thumb_chunks() {
    assert!(read_cache_metadata(&png_of(2, 2)).is_none());
}

#[test]
fn both_texts_are_needed_and_the_last_of_each_counts() {
    let text = |k: &str, v: &str| (k.to_owned(), v.to_owned());
    assert_eq!(find_origin(&vec![text("Thumb::URI", "a")]), None);
    assert_eq!(find_origin(&vec![text("Thumb::MTime", "1")]), None);
    assert_eq!(
        find_origin(&vec![
            text("Thumb::URI", "a"),
            text("Thumb::MTime", "1"),
            text("Other", "x"),
            text("Thumb::URI", "b"),
        ]),
        Some(("b".to_owned(), "1".to_owned()))
    );
}

#[test]
fn a_picture_has_as_many_pixels_as_it_claims() {
    assert!(is_complete(&solid(3, 2)));
    assert!(!is_complete(&ThumbHandle { width: 3, height: 2, rgba: vec![0; 23] }));
}

#[test]
fn write_cache_atomic_writes_0600_permissions_and_a_readable_entry() {
    let mut files = Files::with("/d/source.png", png_of(8, 8));
    let (image, warning) =
        files.run(&Registry::with_defaults(), Some("/c"), &request("/d/source.png", "image/png", 42));
    assert!(image.is_some());
    assert!(warning.is_none());

    let uri = canonical_uri(&FsPath::new("/d/source.png"));
    let path = cache_path(&FsPath::new("/c"), &uri, ThumbSize::Normal);
    let (bytes, mode) = files.files.get(&path.to_bytes()).unwrap();
    assert_eq!(mode & 0o777, 0o600);
    let (cached_uri, cached_mtime) = read_cache_metadata(bytes).unwrap();
    assert_eq!(cached_uri, uri);
    assert_eq!(cached_mtime, "42");

    // No leftover temp file after a successful write.
    assert_eq!(files.files.len(), 2);
}

#[test]
fn generate_blocking_generates_and_caches_on_a_miss_then_hits_the_cache_next_time() {
    let mut files = Files::with("/d/source.png", png_of(20, 10));
    let registry = Registry::with_defaults();
    let request = request("/d/source.png", "image/png", 1000);

    let (first, _) = files.run(&registry, Some("/c"), &request);
    assert!(first.is_some());
    let uri = canonical_uri(&FsPath::new("/d/source.png"));
    assert!(files.get(&cache_path(&FsPath::new("/c"), &uri, ThumbSize::Normal)).is_some());

    // Delete the source — a second call must come back from the disk
    // cache alone (proves the cache, not a fresh decode, served this).
    files.files.remove(b"/d/source.png".as_slice());
    let (second, _) = files.run(&registry, Some("/c"), &request);
    assert_eq!(second.unwrap().rgba, first.unwrap().rgba);
}

#[test]
fn generate_blocking_ignores_a_cache_entry_with_a_different_mtime() {
    let mut files = Files::with("/d/source.png", png_of(6, 6));
    let uri = canonical_uri(&FsPath::new("/d/source.png"));
    let path = cache_path(&FsPath::new("/c"), &uri, ThumbSize::Normal);
    let stale = write_png_with_metadata(&uri, "1", &solid(6, 6)).unwrap();
    files.files.insert(path.to_bytes(), (stale, 0o600));

    let (result, _) = files.run(
        &Registry::with_defaults(),
        Some("/c"),
        &request("/d/source.png", "image/png", 2),
    );
    assert!(result.is_some());

    // The cache entry on disk was overwritten with the fresh MTime,
    // not left stale.
    let (_, cached_mtime) = read_cache_metadata(files.get(&path).unwrap()).unwrap();
    assert_eq!(cached_mtime, "2");
}

#[test]
fn generate_blocking_returns_none_for_an_unsupported_mimetype() {
    let mut files = Files::with("/d/archive.tar", b"not an image".to_vec());
    let (image, _) = files.run(
        &Registry::with_defaults(),
        Some("/d"),
        &request("/d/archive.tar", "application/x-tar", 0),
    );
    assert!(image.is_none());
}

#[test]
fn generate_blocking_returns_none_for_a_non_local_location() {
    let request = ThumbRequest {
        location: Location {
            scheme: "sftp".to_owned(),
            authority: Some("host".to_owned()),
            path: FsPath::new("/photo.jpg"),
        },
        mimetype: "image/jpeg".to_owned(),
        modified: Timestamp::from_secs(0),
    };
    let mut files = Files::default();
    assert!(files.run(&Registry::with_defaults(), None, &request).0.is_none());
}

#[test]
fn generate_blocking_still_returns_an_image_when_the_cache_root_is_none() {
    let mut files = Files::with("/d/source.png", png_of(4, 4));
    let (image, _) =
        files.run(&Registry::with_defaults(), None, &request("/d/source.png", "image/png", 0));
    assert!(image.is_some());
    assert_eq!(files.files.len(), 1);
}

#[test]
fn a_cache_that_cannot_be_written_costs_nothing_but_a_warning() {
    let mut files = Files::with("/d/source.png", png_of(4, 4));
    files.read_only = true;
    let asked = request("/d/source.png", "image/png", 0);
    let (image, warning) = files.run(&Registry::with_defaults(), Some("/c"), &asked);
    assert!(image.is_some());
    assert!(warning.unwrap().contains("read-only"));
    assert_eq!(files.files.len(), 1);

    // What was written before the failure is removed.
    files.read_only = false;
    files.locked = true;
    let (image, warning) = files.run(&Registry::with_defaults(), Some("/c"), &asked);
    assert!(image.is_some());
    assert!(warning.unwrap().contains("not permitted"));
    assert_eq!(files.files.len(), 1);
}

#[test]
fn thumbnails_are_no_longer_than_the_size_allows() {
    let mut files = Files::with("/d/big.png", png_of(300, 150));
    let (image, _) =
        files.run(&Registry::with_defaults(), None, &request("/d/big.png", "image/png", 0));
    let image = image.unwrap();
    assert_eq!((image.width, image.height), (128, 64));
    assert_eq!(ThumbSize::Normal.max_pixels(), 128);
    assert_eq!(ThumbSize::Normal.dir_name(), "normal");
}

#[test]
fn thumbnails_keep_the_aspect_of_the_picture() {
    let made = |width: u32, height: u32, max: u32| {
        let t = ImageThumbnailer.generate(&png_of(width, height), "a.png", max).unwrap();
        assert!(is_complete(&t));
        (t.width, t.height)
    };
    assert_eq!(made(300, 150, 128), (128, 64));
    assert_eq!(made(10, 40, 128), (32, 128));
    assert_eq!(made(2, 2, 128), (128, 128));
    // No side vanishes.
    assert_eq!(made(400, 1, 16), (16, 1));
    // The pixels are those of the picture.
    let t = ImageThumbnailer.generate(&png_of(8, 4), "a.png", 4).unwrap();
    assert_eq!(t, solid(4, 2));
}

#[test]
fn a_picture_is_read_in_the_format_of_its_name() {
    assert_eq!(read_picture(&png_of(3, 2), "x.png").unwrap(), solid(3, 2));
    assert!(read_picture(&png_of(3, 2), "x.jpg").is_err());
    assert!(read_picture(&png_of(3, 2), "x.unheard-of").is_err());
    assert!(read_picture(&png_of(3, 2), "x").is_err());
    assert!(read_picture(b"no picture", "x.png").is_err());
    assert!(make_thumbnail(b"no picture", "x.png", 128).is_err());
}

#[test]
fn a_cache_entry_gives_its_pixels_back() {
    let mut picture = solid(5, 3);
    picture.rgba[7] = 9;
    let entry = write_png_with_metadata("file:///a", "1", &picture).unwrap();
    assert_eq!(read_picture(&entry, "thumbnail.png").unwrap(), picture);
}

#[test]
fn registry_dispatches_image_mimetypes_to_the_image_thumbnailer() {
    let registry = Registry::with_defaults();
    assert!(registry.find("image/png").is_some());
    assert!(registry.find("image/jpeg").is_some());
}

#[test]
fn registry_has_no_thumbnailer_for_an_unclaimed_mimetype() {
    let registry = Registry::with_defaults();
    assert!(registry.find("application/pdf").is_none());
}

#[test]
fn empty_registry_dispatches_nothing() {
    let registry = Registry::<ImageThumbnailer>::empty();
    assert!(registry.find("image/png").is_none());
}

/// One of two thumbnailers.
enum Either {
    AlwaysHandles,
    Image(ImageThumbnailer),
}

impl Thumbnailer for Either {
    fn claims(&self, _mimetype: MimeText) -> bool {
        matches!(self, Either::AlwaysHandles)
    }

    fn thumbnail(&self, _bytes: FileBytes, _name: NameText, _max_pixels: u32) -> MadeView {
        unreachable!()
    }

    fn handles(&self, mimetype: &str) -> bool {
        match self {
            Either::AlwaysHandles => true,
            Either::Image(t) => t.handles(mimetype),
        }
    }

    fn generate(&self, bytes: &[u8], name: &str, max_pixels: u32) -> Result<ThumbHandle, String> {
        match self {
            Either::AlwaysHandles => {
                Err("marker: AlwaysHandles was the one dispatched to".to_owned())
            }
            Either::Image(t) => t.generate(bytes, name, max_pixels),
        }
    }
}

#[test]
fn a_registered_thumbnailer_takes_precedence_over_a_later_one_for_the_same_mimetype() {
    let mut registry = Registry::empty();
    registry.register(Either::AlwaysHandles);
    registry.register(Either::Image(ImageThumbnailer));
    // `AlwaysHandles` was registered first, so *it* is what `find`
    // returns for a mimetype `ImageThumbnailer` would also claim.
    let dispatched = registry.find("image/png").unwrap();
    let err = dispatched.generate(b"", "irrelevant", 128).unwrap_err();
    assert_eq!(err, "marker: AlwaysHandles was the one dispatched to");
}

fn handle() -> ThumbHandle {
    ThumbHandle { width: 1, height: 1, rgba: vec![0, 0, 0, 255] }
}

#[test]
fn lru_returns_what_was_inserted() {
    let mut cache = ThumbCache::new(4);
    let location = Location::local("/a.jpg");
    let mtime = Timestamp::from_secs(7);
    assert!(cache.is_empty());
    cache.insert(location.clone(), mtime, handle());
    assert!(cache.get_for(&location, mtime).is_some());
    assert_eq!(cache.len(), 1);
    assert!(!cache.is_empty());
}

#[test]
fn lru_misses_on_a_different_mtime_than_what_was_cached() {
    let mut cache = ThumbCache::new(4);
    let location = Location::local("/a.jpg");
    let original = Timestamp::from_secs(1);
    let changed = Timestamp::from_secs(2);
    cache.insert(location.clone(), original, handle());
    assert!(cache.get_for(&location, changed).is_none());
}

#[test]
fn lru_evicts_the_least_recently_touched_entry_once_full() {
    let mut cache = ThumbCache::new(2);
    let mtime = Timestamp::from_secs(7);
    let a = Location::local("/a.jpg");
    let b = Location::local("/b.jpg");
    let c = Location::local("/c.jpg");

    cache.insert(a.clone(), mtime, handle());
    cache.insert(b.clone(), mtime, handle());
    // Touch `a` so `b` becomes the least-recently-used entry.
    assert!(cache.get_for(&a, mtime).is_some());
    cache.insert(c.clone(), mtime, handle());

    assert_eq!(cache.len(), 2);
    assert!(cache.get_for(&a, mtime).is_some(), "recently touched, kept");
    assert!(cache.get_for(&c, mtime).is_some(), "just inserted, kept");
    assert!(cache.get_for(&b, mtime).is_none(), "least-recently-used, evicted");
}

#[test]
fn lru_reinserting_an_existing_key_updates_it_without_growing() {
    let mut cache = ThumbCache::new(4);
    let location = Location::local("/a.jpg");
    let first_mtime = Timestamp::from_secs(1);
    let second_mtime = Timestamp::from_secs(2);

    cache.insert(location.clone(), first_mtime, handle());
    cache.insert(location.clone(), second_mtime, handle());

    assert_eq!(cache.len(), 1);
    assert!(cache.get_for(&location, first_mtime).is_none());
    assert!(cache.get_for(&location, second_mtime).is_some());
}

#[test]
fn lru_capacity_is_never_exceeded_across_many_inserts() {
    let mut cache = ThumbCache::new(8);
    let mtime = Timestamp::from_secs(7);
    for i in 0..100 {
        cache.insert(Location::local(format!("/{i}.jpg")), mtime, handle());
    }
    assert_eq!(cache.len(), 8);
}

#[test]
fn a_cache_of_no_size_still_holds_one() {
    let mut cache = ThumbCache::new(0);
    let mtime = Timestamp::from_secs(7);
    cache.insert(Location::local("/a"), mtime, handle());
    cache.insert(Location::local("/b"), mtime, handle());
    assert_eq!(cache.len(), 1);
    assert!(cache.get_for(&Location::local("/b"), mtime).is_some());
}
