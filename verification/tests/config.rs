use saola_files::config::{
    config_dir_from, Config, ConfigError, CustomAction, SavedServer, SortKey, View, WindowSurface,
    DEFAULT_THUMBNAIL_MAX_MB,
};
use saola_files::path::FsPath;

fn os(s: &str) -> Option<Vec<u8>> {
    Some(s.as_bytes().to_vec())
}

fn parsed(text: &str) -> Config {
    match Config::parse(text) {
        Ok(c) => c,
        Err(e) => panic!("{}", e.to_string()),
    }
}

fn warnings(text: &str) -> Vec<String> {
    match Config::parse_with_warnings(text) {
        Ok((_, w)) => w,
        Err(e) => panic!("{}", e.to_string()),
    }
}

#[test]
fn cli_dir_wins_over_everything() {
    let dir = config_dir_from(Some(&FsPath::new("/cli")), os("/saola"), os("/xdg"), os("/home/j"));
    assert_eq!(dir, Some(FsPath::new("/cli")));
}

#[test]
fn saola_config_dir_beats_xdg() {
    let dir = config_dir_from(None, os("/saola"), os("/xdg"), os("/home/j"));
    assert_eq!(dir, Some(FsPath::new("/saola")));
}

#[test]
fn xdg_gets_saola_suffix() {
    let dir = config_dir_from(None, None, os("/xdg"), os("/home/j"));
    assert_eq!(dir, Some(FsPath::new("/xdg/saola")));
}

#[test]
fn home_fallback_and_empty_vars_count_as_unset() {
    let dir = config_dir_from(None, os(""), os(""), os("/home/j"));
    assert_eq!(dir, Some(FsPath::new("/home/j/.config/saola")));
}

#[test]
fn no_home_means_no_config() {
    assert_eq!(config_dir_from(None, None, None, os("")), None);
}

#[test]
fn the_file_is_in_the_directory() {
    assert_eq!(
        Config::resolve_path(None, None, os("/xdg"), None),
        Some(FsPath::new("/xdg/saola/files.toml"))
    );
    assert_eq!(Config::resolve_path(None, None, None, None), None);
}

#[test]
fn empty_document_is_all_defaults() {
    assert_eq!(parsed(""), Config::default());
}

#[test]
fn invalid_toml_is_the_only_hard_error() {
    assert!(Config::parse("view = ").is_err());
}

#[test]
fn missing_file_loads_defaults() {
    let (config, _) = Config::load(Some(&FsPath::new("/nonexistent/files.toml")), None);
    assert_eq!(config, Config::default());
}

#[test]
fn no_possible_path_loads_defaults() {
    assert_eq!(Config::load(None, None).0, Config::default());
}

#[test]
fn a_broken_file_loads_defaults_and_warns() {
    let (config, warnings) =
        Config::load(Some(&FsPath::new("/c/files.toml")), Some("view = ".to_owned()));
    assert_eq!(config, Config::default());
    assert_eq!(warnings.len(), 1);
    assert!(warnings[0].contains("/c/files.toml"));
}

#[test]
fn a_sound_file_is_loaded() {
    let (config, warnings) =
        Config::load(Some(&FsPath::new("/c/files.toml")), Some("view = \"grid\"".to_owned()));
    assert_eq!(config.view, View::Grid);
    assert!(warnings.is_empty());
}

#[test]
fn terminal_knob() {
    let config = parsed("terminal = \"foot\"");
    assert_eq!(config.terminal.as_deref(), Some("foot"));
    // Wrong type falls through like an absent knob.
    assert_eq!(parsed("terminal = 3").terminal, None);
}

#[test]
fn surface_knob() {
    assert_eq!(parsed("surface = \"ink\"").surface, WindowSurface::Ink);
    // Unrecognized value warns and keeps the default; the rest of the
    // document still parses.
    let config = parsed("surface = \"vellum\"\nshow-hidden = true");
    assert_eq!(config.surface, WindowSurface::Paper);
    assert!(config.show_hidden);
}

#[test]
fn view_knob() {
    assert_eq!(parsed("view = \"grid\"").view, View::Grid);
    // Unrecognized value warns and keeps the default; the rest of the
    // document still parses.
    let config = parsed("view = \"mosaic\"\nshow-hidden = true");
    assert_eq!(config.view, View::List);
    assert!(config.show_hidden);
}

#[test]
fn sort_knobs() {
    let config = parsed("sort = \"modified\"\nsort-descending = true");
    assert_eq!(config.sort, SortKey::Modified);
    assert!(config.sort_descending);
    assert_eq!(parsed("sort = \"bogosort\"").sort, SortKey::Name);
    // Non-boolean warns and defaults.
    assert!(!parsed("sort-descending = \"yes\"").sort_descending);
}

#[test]
fn thumbnail_knobs() {
    let config = parsed("thumbnails = false\nthumbnail-max-mb = 128");
    assert!(!config.thumbnails);
    assert_eq!(config.thumbnail_max_mb, 128);
    // A negative cap is wrong-shaped, not "zero": warn and default.
    assert_eq!(parsed("thumbnail-max-mb = -1").thumbnail_max_mb, DEFAULT_THUMBNAIL_MAX_MB);
}

#[test]
fn confirm_empty_trash_knob() {
    assert!(!parsed("confirm-empty-trash = false").confirm_empty_trash);
}

#[test]
fn actions_parse_with_filters() {
    let config = parsed(
        r#"
            [[action]]
            name = "Edit as text"
            exec = "alacritty -e nvim %f"
            mimetypes = ["text/*", "application/json"]

            [[action]]
            name = "Checksum"
            exec = "sha256sum %F"
            "#,
    );
    assert_eq!(config.actions.len(), 2);
    assert_eq!(config.actions[0].mimetypes.len(), 2);
    // Absent filters mean "applies everywhere".
    assert!(config.actions[1].mimetypes.is_empty());
    assert!(config.actions[1].schemes.is_empty());
    assert_eq!(
        config.actions[0],
        CustomAction {
            name: "Edit as text".to_owned(),
            command: "alacritty -e nvim %f".to_owned(),
            mimetypes: vec!["text/*".to_owned(), "application/json".to_owned()],
            schemes: vec![],
        }
    );
}

#[test]
fn broken_action_entries_are_skipped_not_fatal() {
    let config = parsed(
        r#"
            [[action]]
            name = "No exec here"

            [[action]]
            name = "Survivor"
            exec = "true"
            mimetypes = "text/*"
            "#,
    );
    // First entry lacks exec (skipped); second survives, with its
    // wrong-shaped mimetypes (a bare string, not an array) ignored.
    assert_eq!(config.actions.len(), 1);
    assert_eq!(config.actions[0].name, "Survivor");
    assert!(config.actions[0].mimetypes.is_empty());
}

#[test]
fn action_as_scalar_is_ignored() {
    let config = parsed("action = \"not a section\"");
    assert!(config.actions.is_empty());
}

#[test]
fn servers_parse_and_broken_entries_skip() {
    let config = parsed(
        r#"
            [[server]]
            name = "homelab"
            uri = "sftp://jordan@10.0.0.10/srv"

            [[server]]
            name = "no uri"
            "#,
    );
    assert_eq!(config.servers.len(), 1);
    assert_eq!(config.servers[0].uri, "sftp://jordan@10.0.0.10/srv");
    assert_eq!(
        config.servers[0],
        SavedServer {
            name: "homelab".to_owned(),
            uri: "sftp://jordan@10.0.0.10/srv".to_owned(),
        }
    );
}

#[test]
fn every_name_of_a_knob_is_known() {
    assert_eq!(WindowSurface::parse("paper"), Some(WindowSurface::Paper));
    assert_eq!(WindowSurface::parse("ink"), Some(WindowSurface::Ink));
    assert_eq!(WindowSurface::parse("Ink"), None);
    assert_eq!(View::parse("list"), Some(View::List));
    assert_eq!(View::parse("grid"), Some(View::Grid));
    assert_eq!(View::parse(""), None);
    assert_eq!(SortKey::parse("name"), Some(SortKey::Name));
    assert_eq!(SortKey::parse("size"), Some(SortKey::Size));
    assert_eq!(SortKey::parse("modified"), Some(SortKey::Modified));
    assert_eq!(SortKey::parse("type"), Some(SortKey::Type));
    assert_eq!(SortKey::parse("kind"), None);
}

#[test]
fn only_odd_values_warn() {
    assert!(warnings("view = \"grid\"\nunknown = 3").is_empty());
    assert_eq!(warnings("view = \"mosaic\"\nshow-hidden = 1").len(), 2);
    assert_eq!(warnings("thumbnail-max-mb = -1").len(), 1);
}

#[test]
fn an_unreadable_document_names_the_trouble() {
    let e: ConfigError = match Config::parse("= 1") {
        Ok(_) => panic!("accepted"),
        Err(e) => e,
    };
    assert!(e.to_string().contains(&e.message));
    assert!(!e.message.is_empty());
}
