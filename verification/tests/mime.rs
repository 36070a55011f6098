use saola_files::model::mime::{category, pick_mime, Category, MimeDb};

#[test]
fn empty_mime_is_unknown() {
    assert_eq!(category(""), Category::Unknown);
}

#[test]
fn directory_mime_is_directory() {
    assert_eq!(category("inode/directory"), Category::Directory);
}

#[test]
fn plain_text_is_text_not_code() {
    assert_eq!(category("text/plain"), Category::Text);
}

#[test]
fn markup_and_structured_data_are_code() {
    assert_eq!(category("text/html"), Category::Code);
    assert_eq!(category("text/css"), Category::Code);
    assert_eq!(category("application/json"), Category::Code);
    assert_eq!(category("application/xml"), Category::Code);
    assert_eq!(category("application/vnd.api+json"), Category::Code);
    assert_eq!(category("text/x-rust"), Category::Code);
    assert_eq!(category("text/x-python"), Category::Code);
}

#[test]
fn image_audio_video_split_by_top_level_type() {
    assert_eq!(category("image/png"), Category::Image);
    assert_eq!(category("audio/flac"), Category::Audio);
    assert_eq!(category("video/mp4"), Category::Video);
}

#[test]
fn known_archive_essences_are_archive() {
    assert_eq!(category("application/zip"), Category::Archive);
    assert_eq!(category("application/x-tar"), Category::Archive);
    assert_eq!(category("application/x-7z-compressed"), Category::Archive);
}

#[test]
fn desktop_entries_are_config() {
    assert_eq!(category("application/x-desktop"), Category::Config);
}

#[test]
fn unrecognized_binary_mimetype_is_generic() {
    assert_eq!(category("application/octet-stream"), Category::Generic);
    assert_eq!(category("application/x-made-up-vendor-type"), Category::Generic);
}

fn bare() -> MimeDb {
    MimeDb::with(xdg_mime::SharedMimeInfo::new_for_directory("/nonexistent-saola-mime"))
}

/// The database of this machine, if it has one.
fn shared() -> Option<MimeDb> {
    let db = MimeDb::with(xdg_mime::SharedMimeInfo::new());
    if db.guess(b"a.png", None) == "application/octet-stream" {
        None
    } else {
        Some(db)
    }
}

#[test]
fn guess_resolves_common_extensions_from_the_real_mime_db() {
    if let Some(db) = shared() {
        assert_eq!(db.guess(b"photo.png", None), "image/png");
        assert_eq!(db.guess(b"readme.txt", None), "text/plain");
    }
}

#[test]
fn guess_falls_back_to_octet_stream_for_unknown_extensions() {
    let db = shared().unwrap_or_else(bare);
    let guess = db.guess(b"mystery.saola-made-up-extension", None);
    assert_eq!(guess, "application/octet-stream");
}

#[test]
fn guess_handles_a_non_utf8_name_without_panicking() {
    // Doesn't panic; the lossy conversion still leaves the `.txt`
    // extension intact for the glob matcher.
    if let Some(db) = shared() {
        assert_eq!(db.guess(b"caf\xe9.txt", None), "text/plain");
    }
    assert_eq!(bare().guess(b"caf\xe9.txt", None), "application/octet-stream");
}

#[test]
fn a_file_known_to_be_empty_has_a_type_of_its_own() {
    assert_eq!(bare().guess(b"nothing", Some(b"")), "application/x-zerosize");
}

#[test]
fn bytes_sharpen_a_guess() {
    // A database without rules looks at no byte.
    assert_eq!(bare().guess(b"nothing", Some(b"plain words")), "application/x-zerosize");
    if let Some(db) = shared() {
        // A name that decides alone is believed.
        assert_eq!(db.guess(b"photo.png", Some(b"")), "image/png");
        assert_eq!(db.guess(b"nothing", Some(b"plain words")), "text/plain");
    }
}

#[test]
fn what_needs_no_rule_is_always_guessed() {
    assert_eq!(
        bare().guess_without_rules(b"nothing", b""),
        Some("application/x-zerosize".to_owned())
    );
    assert_eq!(bare().guess_without_rules(b"nothing", b"plain words"), None);
    if let Some(db) = shared() {
        assert_eq!(db.guess_without_rules(b"photo.png", b"\x89PNG"), Some("image/png".to_owned()));
    }
}

#[test]
fn the_best_type_comes_first() {
    assert_eq!(pick_mime(&vec!["a/b".to_owned(), "c/d".to_owned()]), "a/b");
    assert_eq!(pick_mime(&vec![]), "application/octet-stream");
}
