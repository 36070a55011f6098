use saola_files::cli::{parse, Cli, Invocation, USAGE};
use saola_files::path::FsPath;
use std::hash::{Hash, Hasher};

fn parse_strs(args: &[&str]) -> Result<Invocation, String> {
    parse(&args.iter().map(|a| a.as_bytes().to_vec()).collect())
}

fn run(args: &[&str]) -> Cli {
    match parse_strs(args) {
        Ok(Invocation::Run(cli)) => cli,
        other => panic!("expected Run, got {other:?}"),
    }
}

#[test]
fn no_args_is_a_plain_run() {
    assert_eq!(run(&[]), Cli::default());
}

#[test]
fn version_and_help_short_circuit() {
    assert_eq!(parse_strs(&["--version"]), Ok(Invocation::Version));
    assert_eq!(parse_strs(&["-V"]), Ok(Invocation::Version));
    assert_eq!(parse_strs(&["--help"]), Ok(Invocation::Help));
    // …even when other arguments are present.
    assert_eq!(parse_strs(&["/tmp", "-h"]), Ok(Invocation::Help));
}

#[test]
fn positional_target_and_flags_in_both_spellings() {
    let cli = run(&["--config-dir", "/tmp/conf", "/home/j/Downloads"]);
    assert_eq!(cli.config_dir, Some(FsPath::new("/tmp/conf")));
    assert_eq!(cli.target, Some(b"/home/j/Downloads".to_vec()));

    let cli = run(&["--config-dir=/tmp/conf", "--select=/tmp/a.txt"]);
    assert_eq!(cli.config_dir, Some(FsPath::new("/tmp/conf")));
    assert_eq!(cli.select, Some(FsPath::new("/tmp/a.txt")));
}

#[test]
fn missing_flag_values_error() {
    assert!(parse_strs(&["--select"]).is_err());
    assert!(parse_strs(&["--config-dir"]).is_err());
}

#[test]
fn unknown_flags_error_but_dash_is_a_filename() {
    assert!(parse_strs(&["--frobnicate"]).is_err());
    assert!(parse_strs(&["-x"]).is_err());
    assert_eq!(run(&["-"]).target, Some(b"-".to_vec()));
}

#[test]
fn two_positionals_error() {
    assert!(parse_strs(&["/a", "/b"]).is_err());
}

#[test]
fn non_utf8_target_survives() {
    let raw = vec![b'/', 0xff, 0xfe];
    let result = parse(&vec![raw.clone()]);
    assert_eq!(
        result,
        Ok(Invocation::Run(Cli { target: Some(raw), ..Cli::default() }))
    );
}

#[test]
fn non_utf8_flag_value_survives_as_two_arguments() {
    let raw = vec![b'/', 0x80];
    let result = parse(&vec![b"--select".to_vec(), raw.clone()]);
    assert_eq!(
        result,
        Ok(Invocation::Run(Cli { select: Some(FsPath::from_bytes(raw)), ..Cli::default() }))
    );
}

#[test]
fn each_mistake_has_its_message() {
    assert_eq!(parse_strs(&["--select"]), Err("--select needs a path".to_owned()));
    assert_eq!(
        parse_strs(&["/a", "--config-dir"]),
        Err("--config-dir needs a directory".to_owned())
    );
    assert_eq!(parse_strs(&["-x"]), Err("unrecognized option: -x".to_owned()));
    assert_eq!(
        parse_strs(&["/a", "/b"]),
        Err("at most one PATH|URI may be given".to_owned())
    );
}

#[test]
fn the_first_thing_wrong_or_final_counts() {
    assert_eq!(parse_strs(&["-V", "--bogus"]), Ok(Invocation::Version));
    assert!(parse_strs(&["--bogus", "-V"]).is_err());
    // The value of an option is never an option itself.
    assert_eq!(run(&["--select", "-h"]).select, Some(FsPath::new("-h")));
}

#[test]
fn a_later_value_replaces_an_earlier_one() {
    assert_eq!(run(&["--select=/a", "--select", "/b"]).select, Some(FsPath::new("/b")));
    assert_eq!(run(&["--select=", "-"]).select, Some(FsPath::new("")));
}

#[test]
fn the_help_names_every_option() {
    for option in ["--select <PATH>", "--config-dir <DIR>", "-V, --version", "-h, --help"] {
        assert!(USAGE.contains(option));
    }
}

#[test]
fn options_can_be_copied_and_told_apart() {
    let args = vec![b"--select".to_vec(), b"/a".to_vec(), b"/b".to_vec()];
    let invocation = parse(&args).unwrap();
    assert_eq!(invocation.clone(), invocation);
    let cli = Cli { target: Some(b"/b".to_vec()), select: None, config_dir: None };
    assert_eq!(cli.clone(), cli);
    let hash_of = |c: &Cli| {
        let mut hasher = std::collections::hash_map::DefaultHasher::new();
        c.hash(&mut hasher);
        hasher.finish()
    };
    assert_eq!(hash_of(&cli), hash_of(&cli.clone()));
}
