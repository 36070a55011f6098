//! The command line.
//!
//! ```text
//! saola-files [OPTIONS] [PATH|URI]
//! ```
//!
//! Arguments are bytes: a path need not be text. Only what has to be matched
//! as an option is looked at as text.
use crate::path::{FsPath, opt_path, opt_vec};
use crate::text::{
    byte_rows, chars_of, copy_bytes, copy_of, decode, decode_of_encode, decoded, has_prefix,
    same_text, string_of,
};
use vstd::prelude::*;
use vstd::slice::slice_subrange;
use vstd::utf8::*;

verus! {

/// The options of a run.
#[derive(Debug, PartialEq, Eq, Hash)]
pub struct Cli<B = Vec<u8>, P = FsPath> {
    /// The path or URI to open.
    pub target: Option<B>,
    /// The path to reveal in its directory.
    pub select: Option<P>,
    /// Where the configuration is read from instead of the usual places.
    pub config_dir: Option<P>,
}

/// The model of a [`Cli`].
pub type CliView = Cli<Seq<u8>, Seq<u8>>;

impl View for Cli {
    type V = CliView;

    open spec fn view(&self) -> CliView {
        Cli {
            target: opt_vec(self.target),
            select: opt_path(self.select),
            config_dir: opt_path(self.config_dir),
        }
    }
}

impl Clone for Cli {
    fn clone(&self) -> (r: Self)
        ensures
            r@ == self@,
    {
        Cli {
            target: match &self.target {
                Some(t) => Some(copy_bytes(t.as_slice())),
                None => None,
            },
            select: match &self.select {
                Some(p) => Some(p.clone()),
                None => None,
            },
            config_dir: match &self.config_dir {
                Some(p) => Some(p.clone()),
                None => None,
            },
        }
    }
}

impl Default for Cli {
    fn default() -> (r: Self)
        ensures
            r@ == no_options(),
    {
        Cli { target: None, select: None, config_dir: None }
    }
}

/// A run without options.
pub open spec fn no_options() -> CliView {
    Cli { target: None, select: None, config_dir: None }
}

/// What the process was asked to do.
#[derive(Debug, PartialEq, Eq)]
pub enum Invocation<C = Cli> {
    Run(C),
    Version,
    Help,
}

impl View for Invocation {
    type V = Invocation<CliView>;

    open spec fn view(&self) -> Invocation<CliView> {
        match self {
            Invocation::Run(c) => Invocation::Run(c@),
            Invocation::Version => Invocation::Version,
            Invocation::Help => Invocation::Help,
        }
    }
}

impl Clone for Invocation {
    fn clone(&self) -> (r: Self)
        ensures
            r@ == self@,
    {
        match self {
            Invocation::Run(c) => Invocation::Run(c.clone()),
            Invocation::Version => Invocation::Version,
            Invocation::Help => Invocation::Help,
        }
    }
}

/// The help text.
pub const USAGE: &'static str = "\
Usage: saola-files [OPTIONS] [PATH|URI]

  PATH|URI            directory: browse it; file: reveal it in its parent
  --select <PATH>     reveal PATH (open its parent with it selected)
  --config-dir <DIR>  read files.toml from DIR
  -V, --version       print version and exit
  -h, --help          print this help and exit";

/// What an argument is.
pub enum ArgKind {
    Version,
    Help,
    /// `--select`, whose value follows.
    Select,
    /// `--select=` with its value.
    SelectIs(Seq<u8>),
    /// `--config-dir`, whose value follows.
    ConfigDir,
    /// `--config-dir=` with its value.
    ConfigDirIs(Seq<u8>),
    /// An option that does not exist.
    Unknown(Seq<char>),
    Positional,
}

/// What an argument is. A dash alone is a file name, and so is what is no
/// text.
pub open spec fn arg_kind(arg: Seq<u8>) -> ArgKind {
    match decoded(arg) {
        Some(t) => if t == "-V"@ || t == "--version"@ {
            ArgKind::Version
        } else if t == "-h"@ || t == "--help"@ {
            ArgKind::Help
        } else if t == "--select"@ {
            ArgKind::Select
        } else if "--select="@.is_prefix_of(t) {
            ArgKind::SelectIs(encode_utf8(t.skip("--select="@.len() as int)))
        } else if t == "--config-dir"@ {
            ArgKind::ConfigDir
        } else if "--config-dir="@.is_prefix_of(t) {
            ArgKind::ConfigDirIs(encode_utf8(t.skip("--config-dir="@.len() as int)))
        } else if t.len() > 1 && t[0] == '-' {
            ArgKind::Unknown(t)
        } else {
            ArgKind::Positional
        },
        None => ArgKind::Positional,
    }
}

/// What the rest of the arguments asks for, after `cli` has been read.
pub open spec fn parsed(args: Seq<Seq<u8>>, cli: CliView) -> Result<Invocation<CliView>, Seq<char>>
    decreases args.len(),
{
    if args.len() == 0 {
        Ok(Invocation::Run(cli))
    } else {
        match arg_kind(args[0]) {
            ArgKind::Version => Ok(Invocation::Version),
            ArgKind::Help => Ok(Invocation::Help),
            ArgKind::Select => if args.len() > 1 {
                parsed(args.skip(2), Cli { select: Some(args[1]), ..cli })
            } else {
                Err("--select needs a path"@)
            },
            ArgKind::SelectIs(v) => parsed(args.skip(1), Cli { select: Some(v), ..cli }),
            ArgKind::ConfigDir => if args.len() > 1 {
                parsed(args.skip(2), Cli { config_dir: Some(args[1]), ..cli })
            } else {
                Err("--config-dir needs a directory"@)
            },
            ArgKind::ConfigDirIs(v) => parsed(args.skip(1), Cli { config_dir: Some(v), ..cli }),
            ArgKind::Unknown(t) => Err("unrecognized option: "@ + t),
            ArgKind::Positional => if cli.target is Some {
                Err("at most one PATH|URI may be given"@)
            } else {
                parsed(args.skip(1), Cli { target: Some(args[0]), ..cli })
            },
        }
    }
}

/// The view of an invocation or an error.
pub open spec fn invocation_result(r: Result<Invocation, String>) -> Result<
    Invocation<CliView>,
    Seq<char>,
> {
    match r {
        Ok(i) => Ok(i@),
        Err(m) => Err(m@),
    }
}

/// An argument, looked at.
enum Arg {
    Version,
    Help,
    Select,
    SelectIs(FsPath),
    ConfigDir,
    ConfigDirIs(FsPath),
    Unknown(String),
    Positional,
}

spec fn arg_view(a: Arg) -> ArgKind {
    match a {
        Arg::Version => ArgKind::Version,
        Arg::Help => ArgKind::Help,
        Arg::Select => ArgKind::Select,
        Arg::SelectIs(p) => ArgKind::SelectIs(p@),
        Arg::ConfigDir => ArgKind::ConfigDir,
        Arg::ConfigDirIs(p) => ArgKind::ConfigDirIs(p@),
        Arg::Unknown(t) => ArgKind::Unknown(t@),
        Arg::Positional => ArgKind::Positional,
    }
}

fn after_prefix(cs: &[char], prefix: &str) -> (r: FsPath)
    requires
        prefix@.is_prefix_of(cs@),
    ensures
        r@ == encode_utf8(cs@.skip(prefix@.len() as int)),
{
    let rest = slice_subrange(cs, prefix.unicode_len(), cs.len());
    assert(rest@ =~= cs@.skip(prefix@.len() as int));
    FsPath::new(string_of(rest).as_str())
}

fn look_at(arg: &[u8]) -> (r: Arg)
    ensures
        arg_view(r) == arg_kind(arg@),
{
    let text = match decode(arg) {
        None => {
            return Arg::Positional;
        },
        Some(t) => t,
    };
    let t = text.as_str();
    let cs = chars_of(t);
    if same_text(t, "-V") || same_text(t, "--version") {
        Arg::Version
    } else if same_text(t, "-h") || same_text(t, "--help") {
        Arg::Help
    } else if same_text(t, "--select") {
        Arg::Select
    } else if has_prefix(cs.as_slice(), "--select=") {
        Arg::SelectIs(after_prefix(cs.as_slice(), "--select="))
    } else if same_text(t, "--config-dir") {
        Arg::ConfigDir
    } else if has_prefix(cs.as_slice(), "--config-dir=") {
        Arg::ConfigDirIs(after_prefix(cs.as_slice(), "--config-dir="))
    } else if cs.len() > 1 && cs[0] == '-' {
        Arg::Unknown(text)
    } else {
        Arg::Positional
    }
}

/// Reads the arguments behind the name of the program.
pub fn parse(args: &Vec<Vec<u8>>) -> (r: Result<Invocation, String>)
    ensures
        invocation_result(r) == parsed(byte_rows(args@), no_options()),
{
    let ghost all = byte_rows(args@);
    let mut cli = Cli::default();
    let mut i: usize = 0;
    let n = args.len();
    assert(all.skip(0) =~= all);
    while i < n
        invariant
            n == args@.len(),
            all == byte_rows(args@),
            i <= n,
            parsed(all, no_options()) == parsed(all.skip(i as int), cli@),
        decreases n - i,
    {
        proof {
            let rest = all.skip(i as int);
            assert(rest[0] == args@[i as int]@);
            assert(rest.skip(1) =~= all.skip(i + 1));
            if i + 1 < n {
                assert(rest[1] == args@[i + 1]@);
                assert(rest.skip(2) =~= all.skip(i + 2));
            }
        }
        match look_at(args[i].as_slice()) {
            Arg::Version => {
                return Ok(Invocation::Version);
            },
            Arg::Help => {
                return Ok(Invocation::Help);
            },
            Arg::Select => {
                if n - i < 2 {
                    return Err(copy_of("--select needs a path"));
                }
                cli.select = Some(FsPath::from_bytes(copy_bytes(args[i + 1].as_slice())));
                i = i + 2;
            },
            Arg::SelectIs(p) => {
                cli.select = Some(p);
                i = i + 1;
            },
            Arg::ConfigDir => {
                if n - i < 2 {
                    return Err(copy_of("--config-dir needs a directory"));
                }
                cli.config_dir = Some(FsPath::from_bytes(copy_bytes(args[i + 1].as_slice())));
                i = i + 2;
            },
            Arg::ConfigDirIs(p) => {
                cli.config_dir = Some(p);
                i = i + 1;
            },
            Arg::Unknown(t) => {
                return Err(copy_of("unrecognized option: ").concat(t.as_str()));
            },
            Arg::Positional => {
                if cli.target.is_some() {
                    return Err(copy_of("at most one PATH|URI may be given"));
                }
                cli.target = Some(copy_bytes(args[i].as_slice()));
                i = i + 1;
            },
        }
    }
    assert(all.skip(i as int).len() == 0);
    Ok(Invocation::Run(cli))
}

// ---------------------------------------------------------------------------
// Laws
// ---------------------------------------------------------------------------

/// An option and its value mean the same as two arguments and as one, joined
/// by `=`, wherever they stand and whatever follows.
pub proof fn both_spellings_agree(value: Seq<char>, rest: Seq<Seq<u8>>, cli: CliView)
    ensures
        parsed(seq![encode_utf8("--select"@), encode_utf8(value)] + rest, cli) == parsed(
            seq![encode_utf8("--select="@ + value)] + rest,
            cli,
        ),
        parsed(seq![encode_utf8("--config-dir"@), encode_utf8(value)] + rest, cli) == parsed(
            seq![encode_utf8("--config-dir="@ + value)] + rest,
            cli,
        ),
{
    literals();
    decode_of_encode("--select"@);
    decode_of_encode("--select="@ + value);
    decode_of_encode("--config-dir"@);
    decode_of_encode("--config-dir="@ + value);
    let a = seq![encode_utf8("--select"@), encode_utf8(value)] + rest;
    let b = seq![encode_utf8("--select="@ + value)] + rest;
    assert(a.skip(2) =~= rest);
    assert(b.skip(1) =~= rest);
    let t = "--select="@ + value;
    assert(t.take("--select="@.len() as int) =~= "--select="@);
    assert("--select="@.is_prefix_of(t));
    assert(t.skip("--select="@.len() as int) =~= value);
    assert(t[8] == '=');
    assert(arg_kind(a[0]) is Select);
    assert(arg_kind(b[0]) == ArgKind::SelectIs(encode_utf8(value)));
    let c = seq![encode_utf8("--config-dir"@), encode_utf8(value)] + rest;
    let d = seq![encode_utf8("--config-dir="@ + value)] + rest;
    assert(c.skip(2) =~= rest);
    assert(d.skip(1) =~= rest);
    let u = "--config-dir="@ + value;
    assert(u.take("--config-dir="@.len() as int) =~= "--config-dir="@);
    assert("--config-dir="@.is_prefix_of(u));
    assert(u.skip("--config-dir="@.len() as int) =~= value);
    assert(u[2] == 'c');
    assert(!"--select="@.is_prefix_of(u)) by {
        assert("--select="@[2] == 's');
    }
    assert(!"--select="@.is_prefix_of("--config-dir"@)) by {
        assert("--select="@[2] == 's');
    }
    assert(arg_kind(c[0]) is ConfigDir);
    assert(arg_kind(d[0]) == ArgKind::ConfigDirIs(encode_utf8(value)));
}

proof fn literals()
    ensures
        "-V"@.len() == 2,
        "-h"@.len() == 2,
        "--version"@.len() == 9,
        "--version"@[2] == 'v',
        "--help"@.len() == 6,
        "--select"@.len() == 8,
        "--select"@[2] == 's',
        "--select="@.len() == 9,
        "--select="@[2] == 's',
        "--select="@[8] == '=',
        "--config-dir"@.len() == 12,
        "--config-dir"@[2] == 'c',
        "--config-dir="@.len() == 13,
        "--config-dir="@[2] == 'c',
{
    reveal_strlit("-V");
    reveal_strlit("-h");
    reveal_strlit("--version");
    reveal_strlit("--help");
    reveal_strlit("--select");
    reveal_strlit("--select=");
    reveal_strlit("--config-dir");
    reveal_strlit("--config-dir=");
}

/// What is no text is never taken for an option: it is the target, byte for
/// byte.
pub proof fn bytes_that_are_no_text_are_targets(arg: Seq<u8>)
    requires
        decoded(arg) is None,
    ensures
        parsed(seq![arg], no_options()) == Ok::<Invocation<CliView>, Seq<char>>(
            Invocation::Run(Cli { target: Some(arg), ..no_options() }),
        ),
{
    let args = seq![arg];
    assert(args.skip(1) =~= Seq::empty());
    assert(parsed(Seq::empty(), Cli { target: Some(arg), ..no_options() }) == Ok::<
        Invocation<CliView>,
        Seq<char>,
    >(Invocation::Run(Cli { target: Some(arg), ..no_options() })));
}

/// The options that end the reading: a version or a help option wherever it
/// stands behind what was read without an error, in either spelling.
pub proof fn version_and_help_end_the_reading(
    text: Seq<char>,
    rest: Seq<Seq<u8>>,
    cli: CliView,
)
    ensures
        text == "-V"@ || text == "--version"@ ==> parsed(seq![encode_utf8(text)] + rest, cli)
            == Ok::<Invocation<CliView>, Seq<char>>(Invocation::Version),
        text == "-h"@ || text == "--help"@ ==> parsed(seq![encode_utf8(text)] + rest, cli) == Ok::<
            Invocation<CliView>,
            Seq<char>,
        >(Invocation::Help),
{
    decode_of_encode(text);
    reveal_strlit("-V");
    reveal_strlit("--version");
    reveal_strlit("-h");
    reveal_strlit("--help");
    assert("-V"@[1] == 'V' && "-h"@[1] == 'h' && "--version"@[2] == 'v' && "--help"@[2] == 'h');
    assert((seq![encode_utf8(text)] + rest)[0] == encode_utf8(text));
}

/// An option takes the argument behind it, and without one that is an error.
/// Each fills its own place and leaves the others.
pub proof fn options_take_their_values(value: Seq<u8>, rest: Seq<Seq<u8>>, cli: CliView)
    ensures
        ({
            let select = encode_utf8("--select"@);
            let config = encode_utf8("--config-dir"@);
            &&& parsed(seq![select, value] + rest, cli) == parsed(
                rest,
                Cli { target: cli.target, select: Some(value), config_dir: cli.config_dir },
            )
            &&& parsed(seq![config, value] + rest, cli) == parsed(
                rest,
                Cli { target: cli.target, select: cli.select, config_dir: Some(value) },
            )
            &&& parsed(seq![select], cli) == Err::<Invocation<CliView>, Seq<char>>(
                "--select needs a path"@,
            )
            &&& parsed(seq![config], cli) == Err::<Invocation<CliView>, Seq<char>>(
                "--config-dir needs a directory"@,
            )
            &&& parsed(Seq::empty(), cli) == Ok::<Invocation<CliView>, Seq<char>>(
                Invocation::Run(cli),
            )
        }),
{
    decode_of_encode("--select"@);
    decode_of_encode("--config-dir"@);
    reveal_strlit("--select");
    reveal_strlit("--config-dir");
    reveal_strlit("-V");
    reveal_strlit("--version");
    reveal_strlit("-h");
    reveal_strlit("--help");
    reveal_strlit("--select=");
    assert("--select"@[2] == 's' && "--config-dir"@[2] == 'c' && "--version"@[2] == 'v'
        && "--help"@[2] == 'h' && "--select="@[2] == 's');
    let select = encode_utf8("--select"@);
    let config = encode_utf8("--config-dir"@);
    assert((seq![select, value] + rest).skip(2) =~= rest);
    assert((seq![config, value] + rest).skip(2) =~= rest);
}

/// What looks like an option and is none is an error, and so is a second
/// target; a lone dash, and what does not begin with one, is a target.
pub proof fn other_arguments_are_targets(text: Seq<char>, rest: Seq<Seq<u8>>, cli: CliView)
    ensures
        ({
            let args = seq![encode_utf8(text)] + rest;
            &&& text.len() == 0 || text[0] != '-' || text.len() == 1 ==> {
                &&& cli.target is Some ==> parsed(args, cli) == Err::<
                    Invocation<CliView>,
                    Seq<char>,
                >("at most one PATH|URI may be given"@)
                &&& cli.target is None ==> parsed(args, cli) == parsed(
                    rest,
                    Cli {
                        target: Some(encode_utf8(text)),
                        select: cli.select,
                        config_dir: cli.config_dir,
                    },
                )
            }
            &&& text.len() > 1 && text[0] == '-' && text[1] != '-' && text != "-V"@ && text
                != "-h"@ ==> parsed(args, cli) == Err::<Invocation<CliView>, Seq<char>>(
                "unrecognized option: "@ + text,
            )
            &&& text.len() > 2 && text[0] == '-' && text[1] == '-' && text[2] != 's' && text[2]
                != 'c' && text != "--version"@ && text != "--help"@ ==> parsed(args, cli) == Err::<
                Invocation<CliView>,
                Seq<char>,
            >("unrecognized option: "@ + text)
        }),
{
    decode_of_encode(text);
    reveal_strlit("-V");
    reveal_strlit("--version");
    reveal_strlit("-h");
    reveal_strlit("--help");
    reveal_strlit("--select");
    reveal_strlit("--select=");
    reveal_strlit("--config-dir");
    reveal_strlit("--config-dir=");
    assert("--select"@[2] == 's' && "--config-dir"@[2] == 'c' && "--select="@[2] == 's'
        && "--config-dir="@[2] == 'c' && "--select"@[1] == '-' && "--config-dir"@[1] == '-'
        && "--select="@[1] == '-' && "--config-dir="@[1] == '-' && "--version"@[1] == '-'
        && "--help"@[1] == '-' && "-V"@[0] == '-' && "-h"@[0] == '-' && "--version"@[0] == '-'
        && "--help"@[0] == '-' && "--select"@[0] == '-' && "--config-dir"@[0] == '-'
        && "--select="@[0] == '-' && "--config-dir="@[0] == '-' && "-V"@[1] == 'V' && "-h"@[1]
        == 'h');
    let args = seq![encode_utf8(text)] + rest;
    assert(args.skip(1) =~= rest);
    assert(args[0] == encode_utf8(text));
}

} // verus!
