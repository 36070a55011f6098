//! Requests over the session bus: what the calls of other programs mean, and
//! what a second start of this program asks of the first.
//!
//! Paths travel as `file://` URIs with every unusual byte escaped, so that
//! names that are no text survive. A URI travels as it is.
use crate::cli::{Cli, CliView};
use crate::model::thumbs::{canonical_uri, uri_for};
use crate::model::vfs::{
    Location, LocationView, copy_locations, file_scheme, has_scheme, local_view, locations,
    opt_location, parsed_location, scheme_len, scheme_mark,
};
use crate::path::{FsPath, absolute_path};
use crate::percent::{decode_bytes, decode_of_encode_percent, escaped, unescaped};
use crate::text::{
    bytes_of, chars_of, copy_bytes, decode, decoded, find_sub, find_text, has_prefix, opt_text,
    string_of, texts,
};
use vstd::prelude::*;
use vstd::slice::slice_subrange;
use vstd::utf8::*;

verus! {

/// What a call means.
#[derive(Debug, PartialEq, Eq)]
pub enum Event<L = Location, V = Vec<Location>> {
    /// Bring the window to the front.
    Raise,
    /// Show the directory of a location, with it selected.
    Reveal(L),
    /// Show a location.
    Browse(L),
    /// Show the properties of locations.
    Properties(V),
}

/// The model of an [`Event`].
pub type EventView = Event<LocationView, Seq<LocationView>>;

impl View for Event {
    type V = EventView;

    open spec fn view(&self) -> EventView {
        match self {
            Event::Raise => Event::Raise,
            Event::Reveal(l) => Event::Reveal(l@),
            Event::Browse(l) => Event::Browse(l@),
            Event::Properties(v) => Event::Properties(locations(v@)),
        }
    }
}

impl Clone for Event {
    fn clone(&self) -> (r: Self)
        ensures
            r@ == self@,
    {
        match self {
            Event::Raise => Event::Raise,
            Event::Reveal(l) => Event::Reveal(l.clone()),
            Event::Browse(l) => Event::Browse(l.clone()),
            Event::Properties(v) => Event::Properties(copy_locations(v)),
        }
    }
}

/// The URI that a path travels as.
pub fn encode_file_uri(path: &FsPath) -> (r: String)
    ensures
        r@ == uri_for(path@),
{
    canonical_uri(path)
}

/// Undoes the escapes in a byte string; what is no escape stays.
pub fn percent_decode(input: &[u8]) -> (r: Vec<u8>)
    ensures
        r@ == unescaped(input@),
{
    decode_bytes(input)
}

/// The location that a URI names. A plain path is taken as it is, and another
/// scheme as a location of its own. An empty path names nothing.
pub open spec fn location_in(uri: Seq<char>) -> Option<LocationView> {
    if "file://"@.is_prefix_of(uri) {
        let path = unescaped(encode_utf8(uri.skip("file://"@.len() as int)));
        if path.len() == 0 {
            None
        } else {
            Some(local_view(path))
        }
    } else if find_sub(uri, "://"@) < uri.len() {
        Some(parsed_location(uri))
    } else if uri.len() == 0 {
        None
    } else {
        Some(local_view(encode_utf8(uri)))
    }
}

/// The location that a URI names.
pub fn decode_file_uri(uri: &str) -> (r: Option<Location>)
    ensures
        opt_location(r) == location_in(uri@),
{
    let cs = chars_of(uri);
    if has_prefix(cs.as_slice(), "file://") {
        let rest = slice_subrange(cs.as_slice(), "file://".unicode_len(), cs.len());
        assert(rest@ =~= uri@.skip("file://"@.len() as int));
        let encoded = bytes_of(string_of(rest).as_str());
        let bytes = percent_decode(encoded.as_slice());
        return if bytes.len() == 0 {
            None
        } else {
            Some(Location::local(bytes))
        };
    }
    proof {
        reveal_strlit("://");
    }
    if find_text(cs.as_slice(), "://") < cs.len() {
        return Some(Location::parse(uri));
    }
    if cs.len() == 0 {
        None
    } else {
        Some(Location::local(uri))
    }
}

/// The first location that a list of URIs names.
pub open spec fn first_location(uris: Seq<Seq<char>>) -> Option<LocationView>
    decreases uris.len(),
{
    if uris.len() == 0 {
        None
    } else {
        match location_in(uris[0]) {
            Some(l) => Some(l),
            None => first_location(uris.skip(1)),
        }
    }
}

/// The locations that a list of URIs names, in their order.
pub open spec fn all_locations(uris: Seq<Seq<char>>) -> Seq<LocationView>
    decreases uris.len(),
{
    if uris.len() == 0 {
        Seq::empty()
    } else {
        match location_in(uris.last()) {
            Some(l) => all_locations(uris.drop_last()).push(l),
            None => all_locations(uris.drop_last()),
        }
    }
}

fn find_location(uris: &[String]) -> (r: Option<Location>)
    ensures
        opt_location(r) == first_location(texts(uris@)),
{
    let ghost all = texts(uris@);
    assert(all.skip(0) =~= all);
    for i in 0..uris.len()
        invariant
            all == texts(uris@),
            first_location(all) == first_location(all.skip(i as int)),
    {
        assert(all.skip(i as int)[0] == uris@[i as int]@);
        if let Some(l) = decode_file_uri(uris[i].as_str()) {
            return Some(l);
        }
        assert(all.skip(i as int).skip(1) =~= all.skip(i + 1));
    }
    assert(all.skip(all.len() as int).len() == 0);
    None
}

/// The request to show items: the first that is named is revealed.
pub fn reveal_event(uris: &[String]) -> (r: Event)
    ensures
        r@ == match first_location(texts(uris@)) {
            Some(l) => EventView::Reveal(l),
            None => EventView::Raise,
        },
{
    match find_location(uris) {
        Some(l) => Event::Reveal(l),
        None => Event::Raise,
    }
}

/// The request to show folders: the first that is named is shown.
pub fn browse_event(uris: &[String]) -> (r: Event)
    ensures
        r@ == match first_location(texts(uris@)) {
            Some(l) => EventView::Browse(l),
            None => EventView::Raise,
        },
{
    match find_location(uris) {
        Some(l) => Event::Browse(l),
        None => Event::Raise,
    }
}

/// The request to show properties: of all items that are named.
pub fn properties_event(uris: &[String]) -> (r: Event)
    ensures
        r@ == if all_locations(texts(uris@)).len() == 0 {
            EventView::Raise
        } else {
            EventView::Properties(all_locations(texts(uris@)))
        },
{
    let ghost all = texts(uris@);
    let mut out: Vec<Location> = Vec::new();
    assert(all.take(0) =~= Seq::empty());
    assert(locations(out@) =~= all_locations(all.take(0)));
    for i in 0..uris.len()
        invariant
            all == texts(uris@),
            locations(out@) == all_locations(all.take(i as int)),
    {
        let ghost before = locations(out@);
        proof {
            assert(all.take(i + 1).drop_last() =~= all.take(i as int));
            assert(all.take(i + 1).last() == uris@[i as int]@);
        }
        if let Some(l) = decode_file_uri(uris[i].as_str()) {
            let ghost v = l@;
            out.push(l);
            assert(locations(out@) =~= before.push(v));
        }
    }
    assert(all.take(all.len() as int) =~= all);
    assert(locations(out@).len() == out@.len());
    if out.len() == 0 {
        Event::Raise
    } else {
        Event::Properties(out)
    }
}

// ---------------------------------------------------------------------------
// One instance
// ---------------------------------------------------------------------------

/// How the attempt to become the one instance went.
#[derive(Debug, Clone, Copy, PartialEq, Eq, Structural)]
pub enum NameRequest {
    Granted,
    /// Another process has the name.
    Taken,
    /// Anything else went wrong.
    Failed,
}

/// What this process is to be.
#[derive(Debug, Clone, Copy, PartialEq, Eq, Structural)]
pub enum Role {
    /// The one instance, which answers calls.
    Primary,
    /// A second start, which hands its request over and ends.
    Secondary,
    /// An instance on its own: there is no bus.
    Standalone,
}

/// What this process is to be: only a name that is taken makes it a second
/// start.
pub fn role_for(request: NameRequest) -> (r: Role)
    ensures
        r == match request {
            NameRequest::Granted => Role::Primary,
            NameRequest::Taken => Role::Secondary,
            NameRequest::Failed => Role::Standalone,
        },
{
    match request {
        NameRequest::Granted => Role::Primary,
        NameRequest::Taken => Role::Secondary,
        NameRequest::Failed => Role::Standalone,
    }
}

/// What a second start asks of the first instance.
#[derive(Debug, PartialEq, Eq)]
pub enum ForwardPlan<T = String> {
    Activate,
    ShowItems(T),
    ShowFolders(T),
}

impl View for ForwardPlan {
    type V = ForwardPlan<Seq<char>>;

    open spec fn view(&self) -> ForwardPlan<Seq<char>> {
        match self {
            ForwardPlan::Activate => ForwardPlan::Activate,
            ForwardPlan::ShowItems(t) => ForwardPlan::ShowItems(t@),
            ForwardPlan::ShowFolders(t) => ForwardPlan::ShowFolders(t@),
        }
    }
}

/// The URI that a command line is about: a target with a scheme, unless a path
/// is to be revealed.
pub open spec fn uri_target(cli: CliView) -> Option<Seq<char>> {
    match (cli.select, cli.target) {
        (None, Some(t)) => match decoded(t) {
            Some(text) => if has_scheme(text) {
                Some(text)
            } else {
                None
            },
            None => None,
        },
        _ => None,
    }
}

/// The path that a command line is about: the one to reveal, else a target
/// without a scheme. It is made absolute, because the first instance has a
/// working directory of its own.
pub open spec fn path_target(cli: CliView, cwd: Option<Seq<u8>>) -> Option<Seq<u8>> {
    match (cli.select, cli.target) {
        (Some(p), _) => Some(absolute_path(p, cwd)),
        (None, Some(t)) => if uri_target(cli) is None {
            Some(absolute_path(t, cwd))
        } else {
            None
        },
        (None, None) => None,
    }
}

/// What a command line is about: what its URI names, or its path.
pub open spec fn subject_of(cli: CliView, cwd: Option<Seq<u8>>) -> Option<LocationView> {
    match uri_target(cli) {
        Some(uri) => location_in(uri),
        None => match path_target(cli, cwd) {
            Some(path) => Some(local_view(path)),
            None => None,
        },
    }
}

/// The view of a borrowed path.
pub open spec fn path_ref(p: Option<&FsPath>) -> Option<Seq<u8>> {
    match p {
        Some(p) => Some(p@),
        None => None,
    }
}

/// A path against the working directory of this process.
pub fn absolute(path: &FsPath, cwd: Option<&FsPath>) -> (r: FsPath)
    ensures
        r@ == absolute_path(path@, path_ref(cwd)),
{
    path.absolute(cwd)
}

fn target_uri(cli: &Cli) -> (r: Option<String>)
    ensures
        opt_text(r) == uri_target(cli@),
{
    if cli.select.is_some() {
        return None;
    }
    match &cli.target {
        Some(t) => match decode(t.as_slice()) {
            Some(text) => {
                let cs = chars_of(text.as_str());
                match scheme_len(cs.as_slice()) {
                    Some(_) => Some(text),
                    None => None,
                }
            },
            None => None,
        },
        None => None,
    }
}

/// What a command line is about. Unless a path is to be revealed, it depends
/// on its kind what is asked for.
pub fn forward_subject(cli: &Cli, cwd: Option<&FsPath>) -> (r: Option<Location>)
    ensures
        opt_location(r) == subject_of(cli@, path_ref(cwd)),
{
    if let Some(uri) = target_uri(cli) {
        return decode_file_uri(uri.as_str());
    }
    match &cli.select {
        Some(p) => Some(Location::local(absolute(p, cwd))),
        None => match &cli.target {
            Some(t) => Some(
                Location::local(absolute(&FsPath::from_bytes(copy_bytes(t.as_slice())), cwd)),
            ),
            None => None,
        },
    }
}

/// The request for a path that is or is not a directory.
pub open spec fn target_plan(path: Seq<u8>, is_dir: bool) -> ForwardPlan<Seq<char>> {
    if is_dir {
        ForwardPlan::ShowFolders(uri_for(path))
    } else {
        ForwardPlan::ShowItems(uri_for(path))
    }
}

/// The request for a path that is or is not a directory.
pub fn plan_for_target(path: &FsPath, is_dir: bool) -> (r: ForwardPlan)
    ensures
        r@ == target_plan(path@, is_dir),
{
    let uri = encode_file_uri(path);
    if is_dir {
        ForwardPlan::ShowFolders(uri)
    } else {
        ForwardPlan::ShowItems(uri)
    }
}

/// The request for a command line whose subject is or is not a directory. A
/// path to reveal is revealed even if it is one. A URI is handed over as it
/// is; one of another scheme opens what it names.
pub open spec fn plan_of(
    cli: CliView,
    cwd: Option<Seq<u8>>,
    is_dir: bool,
) -> ForwardPlan<Seq<char>> {
    match uri_target(cli) {
        Some(uri) => if is_dir || !"file://"@.is_prefix_of(uri) {
            ForwardPlan::ShowFolders(uri)
        } else {
            ForwardPlan::ShowItems(uri)
        },
        None => match path_target(cli, cwd) {
            Some(path) => target_plan(path, cli.select is None && is_dir),
            None => ForwardPlan::Activate,
        },
    }
}

/// What a second start asks of the first instance. `is_dir` tells whether
/// what the command line is about is a local directory.
pub fn forward_plan(cli: &Cli, cwd: Option<&FsPath>, is_dir: bool) -> (r: ForwardPlan)
    ensures
        r@ == plan_of(cli@, path_ref(cwd), is_dir),
{
    if let Some(uri) = target_uri(cli) {
        let cs = chars_of(uri.as_str());
        return if is_dir || !has_prefix(cs.as_slice(), "file://") {
            ForwardPlan::ShowFolders(uri)
        } else {
            ForwardPlan::ShowItems(uri)
        };
    }
    match &cli.select {
        Some(p) => plan_for_target(&absolute(p, cwd), false),
        None => match &cli.target {
            Some(t) => plan_for_target(
                &absolute(&FsPath::from_bytes(copy_bytes(t.as_slice())), cwd),
                is_dir,
            ),
            None => ForwardPlan::Activate,
        },
    }
}

// ---------------------------------------------------------------------------
// Laws
// ---------------------------------------------------------------------------

/// A path that travels as a URI arrives as it was sent, whatever bytes it
/// holds.
pub proof fn paths_survive_the_bus(path: Seq<u8>)
    requires
        path.len() > 0,
    ensures
        location_in(uri_for(path)) == Some(local_view(path)),
{
    let uri = uri_for(path);
    assert(uri.take("file://"@.len() as int) =~= "file://"@);
    assert("file://"@.is_prefix_of(uri));
    assert(uri.skip("file://"@.len() as int) =~= escaped(path));
    decode_of_encode_percent(path);
}

/// A second start shows in the first instance what it would have shown
/// itself: what is handed over names there exactly what the command line is
/// about here.
pub proof fn forwarded_requests_arrive(cli: CliView, cwd: Option<Seq<u8>>, is_dir: bool)
    requires
        path_target(cli, cwd) matches Some(path) ==> path.len() > 0,
    ensures
        match plan_of(cli, cwd, is_dir) {
            ForwardPlan::ShowItems(uri) => first_location(seq![uri]) == subject_of(cli, cwd),
            ForwardPlan::ShowFolders(uri) => first_location(seq![uri]) == subject_of(cli, cwd),
            ForwardPlan::Activate => cli.select is None && cli.target is None,
        },
{
    if let Some(path) = path_target(cli, cwd) {
        paths_survive_the_bus(path);
    }
    reveal_with_fuel(first_location, 2);
}

/// A URI of another scheme than `file` is handed over as it is, opens what it
/// names, and names there what it is read as anywhere else.
pub proof fn forwarded_uris_open_their_backend(
    cli: CliView,
    cwd: Option<Seq<u8>>,
    is_dir: bool,
    text: Seq<char>,
)
    requires
        cli.select is None,
        cli.target matches Some(t) && decoded(t) == Some(text),
        has_scheme(text),
        !"file://"@.is_prefix_of(text),
    ensures
        plan_of(cli, cwd, is_dir) == ForwardPlan::ShowFolders(text),
        location_in(text) == Some(parsed_location(text)),
{
    reveal_strlit("://");
    assert("://"@ =~= scheme_mark());
}

/// What a URI names: a `file` URI the path behind its mark, with its escapes
/// undone; any other URI what it is read as; and a plain path itself. What is
/// empty names nothing.
pub proof fn uris_name_locations(path: Seq<char>, uri: Seq<char>)
    ensures
        ({
            let bytes = unescaped(encode_utf8(path));
            &&& bytes.len() > 0 ==> location_in("file://"@ + path) == Some(
                LocationView { scheme: "file"@, authority: None, path: bytes },
            )
            &&& bytes.len() == 0 ==> location_in("file://"@ + path) is None
        }),
        !"file://"@.is_prefix_of(uri) && find_sub(uri, "://"@) < uri.len() ==> location_in(uri)
            == Some(parsed_location(uri)),
        uri.len() > 0 && find_sub(uri, "://"@) >= uri.len() ==> location_in(uri) == Some(
            LocationView { scheme: "file"@, authority: None, path: encode_utf8(uri) },
        ) || "file://"@.is_prefix_of(uri),
        location_in(Seq::empty()) is None,
{
    reveal_strlit("file://");
    reveal_strlit("file");
    reveal_strlit("://");
    assert("file"@ =~= file_scheme());
    let s = "file://"@ + path;
    assert(s.take(7) =~= "file://"@);
    assert(s.skip(7) =~= path);
    let none = Seq::<char>::empty();
    assert(!"file://"@.is_prefix_of(none));
}

/// Of several URIs the first that names something counts.
pub proof fn the_first_named_location_counts(uris: Seq<Seq<char>>, k: int)
    requires
        0 <= k <= uris.len(),
        forall|i: int| 0 <= i < k ==> location_in(#[trigger] uris[i]) is None,
        k < uris.len() ==> location_in(uris[k]) is Some,
    ensures
        k < uris.len() ==> first_location(uris) == location_in(uris[k]),
        k == uris.len() ==> first_location(uris) is None,
    decreases uris.len(),
{
    if k > 0 {
        assert(location_in(uris[0]) is None);
        let rest = uris.skip(1);
        assert forall|i: int| 0 <= i < k - 1 implies location_in(#[trigger] rest[i]) is None by {
            assert(rest[i] == uris[i + 1]);
        }
        the_first_named_location_counts(rest, k - 1);
    }
}

/// All the locations that URIs name are kept, in order.
pub proof fn all_named_locations_are_kept(uris: Seq<Seq<char>>)
    ensures
        all_locations(uris) == uris.map_values(|u: Seq<char>| location_in(u)).filter(
            |l: Option<LocationView>| l is Some,
        ).map_values(|l: Option<LocationView>| l->0),
    decreases uris.len(),
{
    let read = |u: Seq<char>| location_in(u);
    let is = |l: Option<LocationView>| l is Some;
    reveal(Seq::filter);
    let all = uris.map_values(read);
    if uris.len() > 0 {
        all_named_locations_are_kept(uris.drop_last());
        assert(all.drop_last() =~= uris.drop_last().map_values(read));
        assert(all.last() == location_in(uris.last()));
    } else {
        assert(all =~= Seq::empty());
    }
    assert(all_locations(uris) =~= all.filter(is).map_values(|l: Option<LocationView>| l->0));
}

/// What a second start asks for. A path to reveal is revealed, whatever it
/// is; a target is shown as a folder if it is one, and else revealed; without
/// either the window is raised.
pub proof fn requests_follow_the_command_line(
    path: Seq<u8>,
    text: Seq<char>,
    config_dir: Option<Seq<u8>>,
    target: Option<Seq<u8>>,
    cwd: Option<Seq<u8>>,
    is_dir: bool,
)
    ensures
        plan_of(Cli { target, select: Some(path), config_dir }, cwd, is_dir)
            == ForwardPlan::ShowItems("file://"@ + escaped(absolute_path(path, cwd))),
        plan_of(Cli { target: None, select: None, config_dir }, cwd, is_dir) == ForwardPlan::<
            Seq<char>,
        >::Activate,
        decoded(path) is None || !has_scheme(decoded(path)->0) ==> plan_of(
            Cli { target: Some(path), select: None, config_dir },
            cwd,
            is_dir,
        ) == (if is_dir {
            ForwardPlan::ShowFolders("file://"@ + escaped(absolute_path(path, cwd)))
        } else {
            ForwardPlan::ShowItems("file://"@ + escaped(absolute_path(path, cwd)))
        }),
        decoded(path) == Some(text) && has_scheme(text) ==> plan_of(
            Cli { target: Some(path), select: None, config_dir },
            cwd,
            is_dir,
        ) == (if is_dir || !"file://"@.is_prefix_of(text) {
            ForwardPlan::ShowFolders(text)
        } else {
            ForwardPlan::ShowItems(text)
        }),
{
}

} // verus!
