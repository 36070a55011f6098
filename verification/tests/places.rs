use saola_files::config::SavedServer;
use saola_files::model::places::{
    bookmarks_file, build, format_bookmarks, load_bookmarks, parse_bookmarks, trash_location,
    user_dirs_file, Bookmark, PlaceKind, UserDirs,
};
use saola_files::model::vfs::Location;
use saola_files::path::FsPath;

const SAMPLE_USER_DIRS: &str = "\
# This file is written by xdg-user-dirs-update
# If you want to change or add directories, just edit the line you're
# interested in. All local changes will be retained on the next run.
XDG_DESKTOP_DIR=\"$HOME/Desktop\"
XDG_DOWNLOAD_DIR=\"$HOME/Downloads\"
XDG_TEMPLATES_DIR=\"$HOME/Templates\"
XDG_PUBLICSHARE_DIR=\"$HOME/Public\"
XDG_DOCUMENTS_DIR=\"$HOME/Documents\"
XDG_MUSIC_DIR=\"$HOME/Music\"
XDG_PICTURES_DIR=\"$HOME/Pictures\"
XDG_VIDEOS_DIR=\"$HOME/Videos\"
";

#[test]
fn user_dirs_parse_expands_home_and_skips_comments() {
    let home = FsPath::new("/home/jordan");
    let dirs = UserDirs::parse(SAMPLE_USER_DIRS, &home);
    assert_eq!(dirs.desktop, Some(FsPath::new("/home/jordan/Desktop")));
    assert_eq!(dirs.download, Some(FsPath::new("/home/jordan/Downloads")));
    assert_eq!(dirs.videos, Some(FsPath::new("/home/jordan/Videos")));
}

#[test]
fn user_dirs_tolerates_a_directory_pointed_outside_home() {
    // xdg-user-dirs allows an absolute path with no `$HOME` prefix at
    // all (a symlinked-elsewhere Music folder, say).
    let dirs =
        UserDirs::parse("XDG_MUSIC_DIR=\"/mnt/library/Music\"", &FsPath::new("/home/jordan"));
    assert_eq!(dirs.music, Some(FsPath::new("/mnt/library/Music")));
}

#[test]
fn user_dirs_ignores_unrecognized_keys_and_malformed_lines() {
    let dirs = UserDirs::parse(
        "SOME_OTHER_KEY=\"$HOME/Whatever\"\nnot even a valid line\nXDG_MUSIC_DIR=\"$HOME/Music\"",
        &FsPath::new("/home/jordan"),
    );
    assert_eq!(dirs.music, Some(FsPath::new("/home/jordan/Music")));
    assert_eq!(dirs.desktop, None);
}

#[test]
fn user_dirs_default_is_every_field_none() {
    assert_eq!(UserDirs::default(), UserDirs::parse("", &FsPath::new("/x")));
}

#[test]
fn a_missing_user_dirs_file_names_nothing() {
    assert_eq!(UserDirs::load(None, &FsPath::new("/x")), UserDirs::default());
    let dirs = UserDirs::load(Some(SAMPLE_USER_DIRS.to_owned()), &FsPath::new("/x"));
    assert_eq!(dirs.pictures, Some(FsPath::new("/x/Pictures")));
}

#[test]
fn bookmarks_parse_plain_and_labeled_entries() {
    let contents = "file:///home/jordan/Projects Projects\nfile:///home/jordan/Notes\n";
    let bookmarks = parse_bookmarks(contents);
    assert_eq!(bookmarks.len(), 2);
    assert_eq!(bookmarks[0].label, "Projects");
    assert_eq!(bookmarks[0].location, Location::local("/home/jordan/Projects"));
    // No label given: falls back to the path's basename.
    assert_eq!(bookmarks[1].label, "Notes");
}

#[test]
fn bookmarks_skip_unrecognized_schemes_but_keep_the_rest() {
    let contents = "smb://server/share Share\nfile:///home/jordan/Projects Projects\n";
    let bookmarks = parse_bookmarks(contents);
    assert_eq!(bookmarks.len(), 1);
    assert_eq!(bookmarks[0].label, "Projects");
}

#[test]
fn bookmarks_decode_percent_escaped_spaces() {
    let bookmarks = parse_bookmarks("file:///home/jordan/My%20Documents\n");
    assert_eq!(bookmarks[0].location, Location::local("/home/jordan/My Documents"));
    assert_eq!(bookmarks[0].label, "My Documents");
}

#[test]
fn bookmarks_round_trip_through_format_and_parse() {
    let original = vec![
        Bookmark {
            label: "Projects".to_owned(),
            location: Location::local("/home/jordan/Projects"),
        },
        Bookmark {
            label: "My Documents".to_owned(),
            location: Location::local("/home/jordan/My Documents"),
        },
    ];
    let formatted = format_bookmarks(&original);
    let round_tripped = parse_bookmarks(&formatted);
    assert_eq!(round_tripped, original);
}

#[test]
fn empty_bookmarks_file_yields_no_bookmarks() {
    assert!(parse_bookmarks("").is_empty());
    assert!(load_bookmarks(None).is_empty());
}

#[test]
fn build_orders_home_then_dirs_then_bookmarks_then_trash_then_servers() {
    let home = FsPath::new("/home/jordan");
    let user_dirs = UserDirs {
        download: Some(FsPath::new("/home/jordan/Downloads")),
        music: Some(FsPath::new("/home/jordan/Music")),
        ..UserDirs::default()
    };
    let bookmarks = vec![Bookmark {
        label: "Projects".to_owned(),
        location: Location::local("/home/jordan/Projects"),
    }];
    let servers = vec![SavedServer {
        name: "homelab".to_owned(),
        uri: "sftp://jordan@10.0.0.10/srv".to_owned(),
    }];

    let places = build(&home, &user_dirs, &bookmarks, &servers);
    let labels: Vec<&str> = places.iter().map(|p| p.label.as_str()).collect();
    assert_eq!(labels, vec!["Home", "Downloads", "Music", "Projects", "Trash", "homelab"]);
    assert_eq!(places[0].kind, PlaceKind::Home);
    assert_eq!(places[1].kind, PlaceKind::Downloads);
    assert_eq!(places[2].kind, PlaceKind::Music);
    assert_eq!(places[3].kind, PlaceKind::Bookmark);
    assert_eq!(places[4].kind, PlaceKind::Trash);
    assert_eq!(places[5].kind, PlaceKind::Server);
    assert_eq!(
        places[5].location,
        Location {
            scheme: "sftp".to_owned(),
            authority: Some("jordan@10.0.0.10".to_owned()),
            path: FsPath::new("/srv"),
        }
    );
    assert_eq!(places[4].location, trash_location());
}

#[test]
fn build_skips_user_dirs_that_never_resolved() {
    let places = build(&FsPath::new("/home/jordan"), &UserDirs::default(), &[], &[]);
    // Home + Trash only — no XDG dirs, no bookmarks, no servers.
    let labels: Vec<&str> = places.iter().map(|p| p.label.as_str()).collect();
    assert_eq!(labels, vec!["Home", "Trash"]);
}

#[test]
fn both_files_are_under_the_configuration_home() {
    let home = FsPath::new("/home/j");
    assert_eq!(user_dirs_file(None, &home), FsPath::new("/home/j/.config/user-dirs.dirs"));
    assert_eq!(
        bookmarks_file(Some(b"/xdg".to_vec()), &home),
        FsPath::new("/xdg/gtk-3.0/bookmarks")
    );
}
