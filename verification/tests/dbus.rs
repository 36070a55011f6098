use saola_files::cli::Cli;
use saola_files::integration::dbus::{
    absolute, browse_event, decode_file_uri, encode_file_uri, forward_plan, forward_subject,
    percent_decode, plan_for_target, properties_event, reveal_event, role_for, Event, ForwardPlan,
    NameRequest, Role,
};
use saola_files::model::vfs::Location;
use saola_files::path::FsPath;

/// Something that takes events, as the channel to the application does.
trait EventSink {
    fn emit(&mut self, event: Event);
}

impl EventSink for Vec<Event> {
    fn emit(&mut self, event: Event) {
        self.push(event);
    }
}

#[test]
fn encode_decode_round_trips_an_ascii_path() {
    let path = FsPath::new("/home/jordan/Documents/notes.txt");
    let uri = encode_file_uri(&path);
    assert_eq!(uri, "file:///home/jordan/Documents/notes.txt");
    assert_eq!(decode_file_uri(&uri), Some(Location::local(&path)));
}

#[test]
fn encode_escapes_a_space_and_decode_reverses_it() {
    let path = FsPath::new("/home/jordan/My Documents/a file.txt");
    let uri = encode_file_uri(&path);
    assert!(uri.contains("%20"));
    assert_eq!(decode_file_uri(&uri), Some(Location::local(&path)));
}

#[test]
fn encode_decode_preserves_non_utf8_bytes() {
    let path = FsPath::from_bytes(vec![b'/', b'a', 0xFF, 0xFE, b'b']);
    let uri = encode_file_uri(&path);
    // The wire form itself must be valid UTF-8 (a real `String`) even
    // though the path it encodes isn't.
    assert!(uri.is_ascii());
    assert_eq!(decode_file_uri(&uri), Some(Location::local(&path)));
}

#[test]
fn decode_accepts_a_bare_local_path_with_no_scheme() {
    assert_eq!(
        decode_file_uri("/home/jordan/notes.txt"),
        Some(Location::local("/home/jordan/notes.txt"))
    );
}

#[test]
fn decode_passes_a_non_file_scheme_to_location_parse() {
    assert_eq!(
        decode_file_uri("sftp://jordan@example.com/srv/data"),
        Some(Location::parse("sftp://jordan@example.com/srv/data"))
    );
}

#[test]
fn decode_rejects_an_empty_uri() {
    assert_eq!(decode_file_uri(""), None);
    assert_eq!(decode_file_uri("file://"), None);
}

#[test]
fn percent_decode_passes_a_malformed_escape_through_literally() {
    assert_eq!(percent_decode(b"100%"), b"100%");
    assert_eq!(percent_decode(b"100%zz"), b"100%zz");
    assert_eq!(percent_decode(b"50%2"), b"50%2");
}

#[test]
fn percent_decode_takes_digits_of_either_case() {
    assert_eq!(percent_decode(b"%2f%2F%41"), b"//A");
}

#[test]
fn reveal_event_picks_the_first_decodable_uri() {
    let event = reveal_event(&[
        "".to_owned(),
        "file:///home/jordan/a.txt".to_owned(),
        "file:///home/jordan/b.txt".to_owned(),
    ]);
    assert_eq!(event, Event::Reveal(Location::local("/home/jordan/a.txt")));
}

#[test]
fn reveal_event_with_no_uris_just_raises() {
    assert_eq!(reveal_event(&[]), Event::Raise);
}

#[test]
fn browse_event_decodes_a_folder_uri() {
    assert_eq!(
        browse_event(&["file:///home/jordan/Downloads".to_owned()]),
        Event::Browse(Location::local("/home/jordan/Downloads"))
    );
    assert_eq!(browse_event(&["".to_owned()]), Event::Raise);
}

#[test]
fn properties_event_keeps_every_decodable_uri_not_just_the_first() {
    let event =
        properties_event(&["file:///a".to_owned(), "".to_owned(), "file:///b".to_owned()]);
    assert_eq!(event, Event::Properties(vec![Location::local("/a"), Location::local("/b")]));
}

#[test]
fn properties_event_with_nothing_decodable_just_raises() {
    assert_eq!(properties_event(&["".to_owned()]), Event::Raise);
}

#[test]
fn handler_methods_forward_through_the_sink_trait() {
    let mut sink: Vec<Event> = Vec::new();
    sink.emit(reveal_event(&["file:///a".to_owned()]));
    sink.emit(Event::Raise);
    assert_eq!(sink, vec![Event::Reveal(Location::local("/a")), Event::Raise]);
}

#[test]
fn name_taken_is_the_only_error_treated_as_a_second_instance() {
    let request = |result: zbus::Result<()>| match result {
        Ok(()) => NameRequest::Granted,
        Err(zbus::Error::NameTaken) => NameRequest::Taken,
        Err(_) => NameRequest::Failed,
    };
    assert_eq!(role_for(request(Err(zbus::Error::NameTaken))), Role::Secondary);
    assert_eq!(role_for(request(Err(zbus::Error::InvalidReply))), Role::Standalone);
    assert_eq!(role_for(request(Ok(()))), Role::Primary);
}

#[test]
fn plan_for_target_picks_the_unambiguous_method() {
    assert_eq!(
        plan_for_target(&FsPath::new("/tmp/dir"), true),
        ForwardPlan::ShowFolders(encode_file_uri(&FsPath::new("/tmp/dir")))
    );
    assert_eq!(
        plan_for_target(&FsPath::new("/tmp/file.txt"), false),
        ForwardPlan::ShowItems(encode_file_uri(&FsPath::new("/tmp/file.txt")))
    );
}

#[test]
fn forward_plan_prefers_select_over_target() {
    let cli = Cli {
        select: Some(FsPath::new("/tmp/a.txt")),
        target: Some(b"/tmp/b".to_vec()),
        config_dir: None,
    };
    assert_eq!(
        forward_plan(&cli, None, true),
        ForwardPlan::ShowItems(encode_file_uri(&FsPath::new("/tmp/a.txt")))
    );
}

#[test]
fn forward_plan_with_neither_activates() {
    assert_eq!(forward_plan(&Cli::default(), None, false), ForwardPlan::Activate);
}

#[test]
fn forward_plan_probes_a_real_target_and_falls_back_to_show_items_when_gone() {
    // What is gone is no directory.
    let cli = Cli {
        select: None,
        target: Some(b"/definitely/not/a/real/path/anywhere".to_vec()),
        config_dir: None,
    };
    let plan = forward_plan(&cli, None, false);
    assert!(matches!(plan, ForwardPlan::ShowItems(_)));
    assert!(matches!(forward_plan(&cli, None, true), ForwardPlan::ShowFolders(_)));
}

#[test]
fn a_relative_target_is_seen_from_the_working_directory() {
    let cli = Cli { select: None, target: Some(b"./docs/".to_vec()), config_dir: None };
    assert_eq!(
        forward_plan(&cli, Some(&FsPath::new("/home/j")), true),
        ForwardPlan::ShowFolders("file:///home/j/docs/".to_owned())
    );
}

#[test]
fn absolute_leaves_an_already_absolute_path_unchanged() {
    assert_eq!(absolute(&FsPath::new("/a/b"), None), FsPath::new("/a/b"));
}

#[test]
fn a_uri_is_handed_over_as_it_is() {
    let cli = |target: &str| Cli {
        target: Some(target.as_bytes().to_vec()),
        select: None,
        config_dir: None,
    };
    let cwd = FsPath::new("/home/j");
    let uri = "sftp://jordan@host/srv";
    assert_eq!(
        forward_plan(&cli(uri), Some(&cwd), false),
        ForwardPlan::ShowFolders(uri.to_owned())
    );
    assert_eq!(forward_subject(&cli(uri), Some(&cwd)), Some(Location::parse(uri)));
    assert_eq!(decode_file_uri(uri), Some(Location::parse(uri)));
    assert_eq!(browse_event(&[uri.to_owned()]), Event::Browse(Location::parse(uri)));

    let file = "file:///tmp/a%20b";
    assert_eq!(
        forward_plan(&cli(file), Some(&cwd), false),
        ForwardPlan::ShowItems(file.to_owned())
    );
    assert_eq!(
        forward_plan(&cli(file), Some(&cwd), true),
        ForwardPlan::ShowFolders(file.to_owned())
    );
    assert_eq!(forward_subject(&cli(file), Some(&cwd)), Some(Location::local("/tmp/a b")));

    // A path that only looks like a URI stays a path.
    assert_eq!(
        forward_subject(&cli("x/sftp://y"), Some(&cwd)),
        Some(Location::local("/home/j/x/sftp:/y"))
    );
    // And so does what is to be revealed.
    let revealed = Cli { select: Some(FsPath::new("/a")), ..cli(uri) };
    assert_eq!(forward_subject(&revealed, None), Some(Location::local("/a")));
}
