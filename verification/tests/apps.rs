use saola_files::model::apps::{
    build_argv, collect_desktop_files_one_dir, desktop_id, discover_desktop_entries, file_uri, merge_associations, open,
    open_terminal_here, parse_desktop_entry, parse_mimeapps_list, resolve_terminal,
    resolve_xdg_dirs, tokenize_exec, AppItem, AppsDb, DesktopFile,
};
use saola_files::path::FsPath;

fn os(s: &str) -> Vec<u8> {
    s.as_bytes().to_vec()
}

fn words(list: &[&str]) -> Vec<Vec<u8>> {
    list.iter().map(|w| os(w)).collect()
}

/// Builds the database from files in memory as it is built from directories:
/// the lists of the configuration directories, then the desktop files of the
/// data directories, one level of vendor directories included.
fn build(files: &[(&str, &str)], configs: &[&str], data: &[&str]) -> AppsDb {
    let mut lists = Vec::new();
    for dir in configs {
        let path = format!("{dir}/mimeapps.list");
        lists.extend(files.iter().filter(|f| f.0 == path).map(|f| f.1.to_owned()));
    }
    let mut found = Vec::new();
    for dir in data {
        let apps = format!("{dir}/applications/");
        let mut items: Vec<AppItem> = Vec::new();
        for (path, contents) in files {
            let contents = Some(contents.to_string());
            let Some(rest) = path.strip_prefix(&apps) else {
                continue;
            };
            items.push(match rest.split_once('/') {
                Some((vendor, _)) => AppItem::Dir {
                    path: FsPath::new(&format!("{apps}{vendor}")),
                    items: vec![(FsPath::new(path), contents)],
                },
                None => AppItem::File { path: FsPath::new(path), contents },
            });
        }
        found.extend(collect_desktop_files_one_dir(&items));
    }
    AppsDb::build(&lists, &found)
}

fn file(id: &str, contents: &str) -> DesktopFile {
    DesktopFile { id: id.to_owned(), contents: contents.to_owned() }
}

#[test]
fn parses_a_minimal_desktop_entry() {
    let contents = "[Desktop Entry]\nType=Application\nName=Alacritty\nExec=alacritty %f\nMimeType=text/plain;\n";
    let entry = parse_desktop_entry("alacritty", contents).unwrap();
    assert_eq!(entry.name, "Alacritty");
    assert_eq!(entry.command, "alacritty %f");
    assert!(!entry.terminal);
    assert_eq!(entry.mime_types, vec!["text/plain"]);
}

#[test]
fn missing_exec_is_not_launchable() {
    let contents = "[Desktop Entry]\nName=No Exec Here\n";
    assert!(parse_desktop_entry("no-exec", contents).is_none());
}

#[test]
fn missing_name_falls_back_to_the_id() {
    let contents = "[Desktop Entry]\nExec=true\n";
    let entry = parse_desktop_entry("true-app", contents).unwrap();
    assert_eq!(entry.name, "true-app");
}

#[test]
fn only_the_desktop_entry_section_is_read() {
    let contents =
        "[Desktop Action foo]\nExec=should-not-be-seen\n\n[Desktop Entry]\nExec=real-exec\n";
    let entry = parse_desktop_entry("x", contents).unwrap();
    assert_eq!(entry.command, "real-exec");
}

#[test]
fn terminal_no_display_and_hidden_flags_parse() {
    let contents = "[Desktop Entry]\nExec=vim %f\nTerminal=true\nNoDisplay=true\nHidden=true\n";
    let entry = parse_desktop_entry("vim", contents).unwrap();
    assert!(entry.terminal);
    assert!(entry.no_display);
    assert!(entry.hidden);
}

#[test]
fn parses_default_and_added_associations() {
    let file = parse_mimeapps_list(
        "[Default Applications]\ntext/plain=nvim.desktop\n\n[Added Associations]\ntext/plain=nvim.desktop;vscode.desktop;\n",
    );
    assert_eq!(
        file.default_applications.get("text/plain"),
        Some(&vec!["nvim.desktop".to_owned()])
    );
    assert_eq!(
        file.added_associations.get("text/plain"),
        Some(&vec!["nvim.desktop".to_owned(), "vscode.desktop".to_owned()])
    );
}

#[test]
fn merge_prefers_earlier_files_default_applications_first() {
    let high = parse_mimeapps_list("[Default Applications]\ntext/plain=nvim.desktop\n");
    let low = parse_mimeapps_list(
        "[Default Applications]\ntext/plain=vscode.desktop\n[Added Associations]\ntext/plain=gedit.desktop\n",
    );
    let merged = merge_associations(&[high, low]);
    assert_eq!(
        merged.get("text/plain"),
        Some(&vec![
            "nvim.desktop".to_owned(),
            "vscode.desktop".to_owned(),
            "gedit.desktop".to_owned(),
        ])
    );
}

#[test]
fn removed_associations_veto_an_id_across_the_chain() {
    let high = parse_mimeapps_list("[Removed Associations]\ntext/plain=vscode.desktop\n");
    let low =
        parse_mimeapps_list("[Default Applications]\ntext/plain=vscode.desktop;nvim.desktop\n");
    let merged = merge_associations(&[high, low]);
    assert_eq!(merged.get("text/plain"), Some(&vec!["nvim.desktop".to_owned()]));
}

#[test]
fn unknown_sections_and_malformed_lines_are_skipped() {
    let file = parse_mimeapps_list(
        "[Some Unknown Section]\ntext/plain=x.desktop\n[Default Applications]\nnot-a-kv-line\ntext/plain=nvim.desktop\n",
    );
    assert!(file.default_applications.contains_key("text/plain"));
    assert_eq!(file.default_applications.len(), 1);
}

#[test]
fn build_discovers_desktop_files_and_resolves_the_default() {
    let db = build(
        &[
            ("/config/mimeapps.list", "[Default Applications]\ntext/plain=nvim.desktop\n"),
            (
                "/data/applications/nvim.desktop",
                "[Desktop Entry]\nName=Neovim\nExec=nvim %f\nMimeType=text/plain;\n",
            ),
        ],
        &["/config"],
        &["/data"],
    );
    let default = db.default_for("text/plain").expect("should resolve nvim");
    assert_eq!(default.name, "Neovim");
    assert_eq!(db.entry("nvim.desktop").unwrap().name, "Neovim");
}

#[test]
fn build_discovers_one_level_of_vendor_subdirectory() {
    let db = build(
        &[(
            "/data/applications/vendor/tool.desktop",
            "[Desktop Entry]\nName=Vendor Tool\nExec=vendortool %f\n",
        )],
        &[],
        &["/data"],
    );
    assert_eq!(db.entry("vendor-tool.desktop").unwrap().name, "Vendor Tool");
}

#[test]
fn higher_priority_data_dir_shadows_a_same_id_entry() {
    let db = build(
        &[
            (
                "/low/applications/editor.desktop",
                "[Desktop Entry]\nName=Low Priority Editor\nExec=low-editor %f\n",
            ),
            (
                "/high/applications/editor.desktop",
                "[Desktop Entry]\nName=High Priority Editor\nExec=high-editor %f\n",
            ),
        ],
        &[],
        &["/high", "/low"],
    );
    assert_eq!(db.entry("editor.desktop").unwrap().name, "High Priority Editor");
}

#[test]
fn candidates_for_lists_the_default_first_then_other_matching_apps() {
    let db = build(
        &[
            ("/config/mimeapps.list", "[Default Applications]\ntext/plain=nvim.desktop\n"),
            (
                "/data/applications/nvim.desktop",
                "[Desktop Entry]\nName=Neovim\nExec=nvim %f\nMimeType=text/plain;\n",
            ),
            (
                "/data/applications/gedit.desktop",
                "[Desktop Entry]\nName=Gedit\nExec=gedit %f\nMimeType=text/plain;\n",
            ),
            (
                "/data/applications/hidden.desktop",
                "[Desktop Entry]\nName=Hidden Editor\nExec=hidden %f\nMimeType=text/plain;\nNoDisplay=true\n",
            ),
        ],
        &["/config"],
        &["/data"],
    );
    let names: Vec<&str> =
        db.candidates_for("text/plain").iter().map(|e| e.name.as_str()).collect();
    assert_eq!(names, vec!["Neovim", "Gedit"]); // default first, then alphabetized, hidden excluded
}

#[test]
fn candidates_without_a_default_are_in_order_of_name() {
    let db = AppsDb::build(
        &[],
        &[
            file("z.desktop", "[Desktop Entry]\nName=Zed\nExec=z\nMimeType=text/plain;\n"),
            file("a.desktop", "[Desktop Entry]\nName=Ape\nExec=a\nMimeType=text/plain;\n"),
            file("o.desktop", "[Desktop Entry]\nName=Other\nExec=o\nMimeType=image/png;\n"),
        ],
    );
    let names: Vec<&str> =
        db.candidates_for("text/plain").iter().map(|e| e.name.as_str()).collect();
    assert_eq!(names, vec!["Ape", "Zed"]);
}

#[test]
fn a_default_that_is_not_installed_is_passed_over() {
    let db = AppsDb::build(
        &["[Default Applications]\ntext/plain=gone.desktop;nvim.desktop\n".to_owned()],
        &[file("nvim.desktop", "[Desktop Entry]\nName=Neovim\nExec=nvim %f\n")],
    );
    assert_eq!(db.default_for("text/plain").unwrap().name, "Neovim");
    assert!(db.entry("gone.desktop").is_none());
}

#[test]
fn missing_directories_degrade_to_an_empty_db_not_an_error() {
    let db = build(
        &[],
        &["/nonexistent-saola-files-config"],
        &["/nonexistent-saola-files-data"],
    );
    assert!(db.default_for("text/plain").is_none());
    assert!(db.candidates_for("text/plain").is_empty());
}

#[test]
fn xdg_home_vars_take_precedence_over_defaults() {
    let (configs, data) = resolve_xdg_dirs(
        Some(os("/x/config")),
        None,
        Some(os("/x/data")),
        None,
        Some(os("/home/j")),
    );
    assert_eq!(configs[0], FsPath::new("/x/config"));
    assert_eq!(configs[1], FsPath::new("/etc/xdg"));
    assert_eq!(data[0], FsPath::new("/x/data"));
    assert_eq!(data[1], FsPath::new("/usr/local/share"));
    assert_eq!(data[2], FsPath::new("/usr/share"));
}

#[test]
fn apps_empty_env_vars_count_as_unset() {
    let (configs, _data) =
        resolve_xdg_dirs(Some(os("")), None, None, None, Some(os("/home/j")));
    assert_eq!(configs[0], FsPath::new("/home/j/.config"));
}

#[test]
fn no_home_still_yields_the_system_wide_dirs() {
    let (configs, data) = resolve_xdg_dirs(None, None, None, None, None);
    assert_eq!(configs, vec![FsPath::new("/etc/xdg")]);
    assert_eq!(data, vec![FsPath::new("/usr/local/share"), FsPath::new("/usr/share")]);
}

#[test]
fn lists_of_directories_are_split_at_colons() {
    let (configs, data) = resolve_xdg_dirs(None, Some(os("/a:/b")), None, Some(os("/c")), None);
    assert_eq!(configs, vec![FsPath::new("/a"), FsPath::new("/b")]);
    assert_eq!(data, vec![FsPath::new("/c")]);
}

#[test]
fn tokenizes_plain_and_quoted_words() {
    assert_eq!(tokenize_exec("nvim %f --flag"), vec!["nvim", "%f", "--flag"]);
    assert_eq!(tokenize_exec(r#""/opt/my app/bin" %f"#), vec!["/opt/my app/bin", "%f"]);
}

#[test]
fn tokenize_unescapes_quoted_backslash_sequences() {
    assert_eq!(tokenize_exec(r#"echo "say \"hi\"""#), vec!["echo", "say \"hi\""]);
}

#[test]
fn singular_field_code_spawns_once_per_target() {
    let targets = vec![FsPath::new("/a.txt"), FsPath::new("/b.txt")];
    let argv = build_argv("nvim %f", &targets);
    assert_eq!(argv.len(), 2);
    assert_eq!(argv[0], words(&["nvim", "/a.txt"]));
    assert_eq!(argv[1], words(&["nvim", "/b.txt"]));
}

#[test]
fn list_field_code_spawns_once_with_every_target() {
    let targets = vec![FsPath::new("/a.txt"), FsPath::new("/b.txt")];
    let argv = build_argv("code %F", &targets);
    assert_eq!(argv.len(), 1);
    assert_eq!(argv[0], words(&["code", "/a.txt", "/b.txt"]));
}

#[test]
fn no_field_code_spawns_once_with_targets_ignored() {
    let targets = vec![FsPath::new("/a.txt")];
    let argv = build_argv("htop", &targets);
    assert_eq!(argv, vec![words(&["htop"])]);
}

#[test]
fn url_field_code_percent_encodes_spaces() {
    let targets = vec![FsPath::new("/a dir/b.txt")];
    let argv = build_argv("open %u", &targets);
    assert_eq!(argv[0], words(&["open", "file:///a%20dir/b.txt"]));
}

#[test]
fn deprecated_and_meta_field_codes_are_dropped() {
    let argv = build_argv("app %i --name %c %k", &[]);
    assert_eq!(argv, vec![words(&["app", "--name"])]);
}

#[test]
fn literal_percent_percent_unescapes_to_one_percent() {
    let argv = build_argv("printf 100%%", &[]);
    assert_eq!(argv, vec![words(&["printf", "100%"])]);
}

#[test]
fn empty_exec_yields_no_spawns() {
    assert!(build_argv("   ", &[]).is_empty());
}

#[test]
fn a_name_that_is_no_text_is_handed_on_as_it_is() {
    let target = FsPath::from_bytes(vec![b'/', 0xff]);
    assert_eq!(build_argv("cat %f", &[target.clone()])[0][1], vec![b'/', 0xff]);
    // A URI is text, so there the name is shown instead.
    assert_eq!(file_uri(&target), "file:///\u{FFFD}");
    assert_eq!(file_uri(&FsPath::new("/ä b%")), "file:///ä%20b%25");
}

#[test]
fn config_terminal_wins_over_env_and_default() {
    assert_eq!(resolve_terminal(Some("foot"), Some(b"xterm")), os("foot"));
}

#[test]
fn env_terminal_wins_over_default() {
    assert_eq!(resolve_terminal(None, Some(b"xterm")), os("xterm"));
}

#[test]
fn falls_back_to_alacritty() {
    assert_eq!(resolve_terminal(None, None), os("alacritty"));
}

#[test]
fn empty_config_and_env_values_count_as_unset() {
    assert_eq!(resolve_terminal(Some(""), Some(b"")), os("alacritty"));
}

#[test]
fn a_terminal_program_is_started_in_the_terminal() {
    let mut entry =
        parse_desktop_entry("vim.desktop", "[Desktop Entry]\nExec=vim %f\nTerminal=true\n").unwrap();
    let spawned = open(&entry, &[FsPath::new("/d/a.txt")], b"foot");
    assert_eq!(spawned.len(), 1);
    assert_eq!(spawned[0].program, os("foot"));
    assert_eq!(spawned[0].args, words(&["-e", "vim", "/d/a.txt"]));
    entry.terminal = false;
    let spawned = open(&entry, &[FsPath::new("/d/a.txt")], b"foot");
    assert_eq!(spawned[0].program, os("vim"));
    assert_eq!(spawned[0].args, words(&["/d/a.txt"]));
}

#[test]
fn a_terminal_opens_beside_a_file_and_inside_a_directory() {
    let here = open_terminal_here(b"foot", true, &FsPath::new("/d"));
    assert_eq!(here.program, os("foot"));
    assert_eq!(here.dir, Some(FsPath::new("/d")));
    let beside = open_terminal_here(b"foot", false, &FsPath::new("/d/a.txt"));
    assert_eq!(beside.dir, Some(FsPath::new("/d")));
}

#[test]
fn files_that_cannot_be_launched_are_not_discovered() {
    let found = discover_desktop_entries(&[
        file("a.desktop", "[Desktop Entry]\nName=A\n"),
        file("b.desktop", "[Desktop Entry]\nExec=b\n"),
    ]);
    assert_eq!(found.len(), 1);
    assert_eq!(found[0].id, "b.desktop");
}

#[test]
fn ids_come_from_desktop_files_alone() {
    assert_eq!(desktop_id(&FsPath::new("/x/a.desktop"), None), Some("a.desktop".to_owned()));
    assert_eq!(desktop_id(&FsPath::new("/x/a.txt"), None), None);
}
