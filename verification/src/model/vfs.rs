//! Where files live: [`Location`], what a backend can do ([`Caps`]), how it
//! fails ([`VfsError`]), and what changes it reports ([`DirEvent`]).
use crate::model::fs::entry::{FileEntry, copy_entries, entries};
use crate::path::{
    FsPath, IntoPath, SEP, components_of, equal_paths, file_name_of, is_entry_name, joined,
    joined_of_parent, parent_of, parent_of_joined, same_path,
};
use crate::text::{
    chars_of, copy_of, copy_opt, find, find_char, find_is, find_props, find_sub, find_sub_is,
    find_sub_props, find_text, opt_text, same_bytes, same_opt, same_text, shown, string_of,
};
use crate::time::Timestamp;
use vstd::prelude::*;
use vstd::slice::{slice_subrange, slice_to_vec};
use vstd::string::*;
use vstd::utf8::*;

verus! {

// ---------------------------------------------------------------------------
// Location
// ---------------------------------------------------------------------------

/// Where a directory view points: a URI-shaped triple, kept structured so
/// that paths are compared and joined without parsing them again. Local
/// locations have the scheme `file` and no authority.
#[derive(Debug, Hash)]
pub struct Location {
    pub scheme: String,
    /// `user@host[:port]` for remote schemes.
    pub authority: Option<String>,
    pub path: FsPath,
}

/// The model of a [`Location`].
#[verifier::ext_equal]
pub struct LocationView {
    pub scheme: Seq<char>,
    pub authority: Option<Seq<char>>,
    pub path: Seq<u8>,
}

impl View for Location {
    type V = LocationView;

    open spec fn view(&self) -> LocationView {
        LocationView {
            scheme: self.scheme@,
            authority: opt_text(self.authority),
            path: self.path@,
        }
    }
}

/// The views of a list of locations.
pub open spec fn locations(v: Seq<Location>) -> Seq<LocationView> {
    Seq::new(v.len(), |i: int| v[i]@)
}

/// The view of an optional location.
pub open spec fn opt_location(o: Option<Location>) -> Option<LocationView> {
    match o {
        Some(l) => Some(l@),
        None => None,
    }
}

/// The scheme of the local file system.
pub open spec fn file_scheme() -> Seq<char> {
    seq!['f', 'i', 'l', 'e']
}

/// The mark between a scheme and the rest of a URI.
pub open spec fn scheme_mark() -> Seq<char> {
    seq![':', '/', '/']
}

/// The root path.
pub open spec fn root_path() -> Seq<u8> {
    seq![SEP]
}

/// The local location of a path.
pub open spec fn local_view(path: Seq<u8>) -> LocationView {
    LocationView { scheme: file_scheme(), authority: None, path }
}

/// Whether two locations are equal: same scheme and authority, and paths with
/// the same components.
pub open spec fn same_location(a: LocationView, b: LocationView) -> bool {
    a.scheme == b.scheme && a.authority == b.authority && same_path(a.path, b.path)
}

/// `l` with another path.
pub open spec fn at_path(l: LocationView, path: Seq<u8>) -> LocationView {
    LocationView { scheme: l.scheme, authority: l.authority, path }
}

/// `name` below `l`.
pub open spec fn child_of(l: LocationView, name: Seq<u8>) -> LocationView {
    at_path(l, joined(l.path, name))
}

/// The location one level up.
pub open spec fn parent_location(l: LocationView) -> Option<LocationView> {
    match parent_of(l.path) {
        Some(p) => Some(at_path(l, p)),
        None => None,
    }
}

/// Whether a text begins with a scheme: some text without a `/`, and `://`.
pub open spec fn has_scheme(s: Seq<char>) -> bool {
    let i = find_sub(s, scheme_mark());
    0 < i < s.len() && !s.take(i).contains('/')
}

/// What a text denotes: `scheme://[authority]/path`, or a bare local path
/// when there is no scheme.
pub open spec fn parsed_location(s: Seq<char>) -> LocationView {
    let i = find_sub(s, scheme_mark());
    if !has_scheme(s) {
        local_view(encode_utf8(s))
    } else {
        let rest = s.skip(i + 3);
        let j = find(rest, '/');
        LocationView {
            scheme: s.take(i),
            authority: if j == 0 {
                None
            } else {
                Some(rest.take(j))
            },
            path: if j < rest.len() {
                encode_utf8(rest.skip(j))
            } else {
                root_path()
            },
        }
    }
}

/// The text form of a location: a bare path for local ones, a URI otherwise.
pub open spec fn location_text(l: LocationView) -> Seq<char> {
    match l.authority {
        Some(a) => l.scheme + scheme_mark() + a + shown(l.path),
        None => if l.scheme == file_scheme() {
            shown(l.path)
        } else {
            l.scheme + scheme_mark() + shown(l.path)
        },
    }
}

proof fn literals()
    ensures
        "file"@ == file_scheme(),
        "://"@ == scheme_mark(),
        encode_utf8("/"@) == root_path(),
{
    reveal_strlit("file");
    reveal_strlit("://");
    reveal_strlit("/");
    assert("file"@ =~= file_scheme());
    assert("://"@ =~= scheme_mark());
    assert("/"@ =~= seq!['/']);
    is_ascii_chars_encode_utf8("/"@);
    assert(encode_utf8("/"@) =~= root_path());
}

/// The length of the scheme that a text begins with.
pub fn scheme_len(cs: &[char]) -> (r: Option<usize>)
    ensures
        r is Some <==> has_scheme(cs@),
        r matches Some(i) ==> i == find_sub(cs@, scheme_mark()) && i + 3 <= cs@.len(),
{
    proof {
        literals();
        find_sub_props(cs@, scheme_mark());
    }
    let i = find_text(cs, "://");
    if i == 0 || i == cs.len() {
        return None;
    }
    let before = slice_subrange(cs, 0, i);
    assert(before@ =~= cs@.take(i as int));
    proof {
        find_props(before@, '/');
    }
    if find_char(before, '/') < i {
        None
    } else {
        Some(i)
    }
}

impl Location {
    /// A local location.
    pub fn local<P: IntoPath>(path: P) -> (r: Location)
        ensures
            r@ == local_view(path.path_view()),
    {
        proof {
            literals();
        }
        Location { scheme: "file".to_owned(), authority: None, path: path.into_path() }
    }

    /// Whether this location is on the local file system.
    pub fn is_local(&self) -> (r: bool)
        ensures
            r == (self@.scheme == file_scheme()),
    {
        proof {
            literals();
        }
        same_text(self.scheme.as_str(), "file")
    }

    /// The location one level up; none at the root.
    pub fn parent(&self) -> (r: Option<Location>)
        ensures
            opt_location(r) == parent_location(self@),
    {
        match self.path.parent() {
            Some(path) => Some(
                Location {
                    scheme: self.scheme.clone(),
                    authority: copy_opt(&self.authority),
                    path,
                },
            ),
            None => None,
        }
    }

    /// `name` below this location.
    pub fn join<P: IntoPath>(&self, name: P) -> (r: Location)
        ensures
            r@ == child_of(self@, name.path_view()),
    {
        let child = name.into_path();
        Location {
            scheme: self.scheme.clone(),
            authority: copy_opt(&self.authority),
            path: self.path.join_bytes(child.as_bytes()),
        }
    }

    /// Reads a location typed by hand or kept in a file.
    pub fn parse(input: &str) -> (r: Location)
        ensures
            r@ == parsed_location(input@),
    {
        proof {
            literals();
        }
        let cs = chars_of(input);
        let i = match scheme_len(cs.as_slice()) {
            Some(i) => i,
            None => return Location::local(input),
        };
        let rest = slice_subrange(cs.as_slice(), i + 3, cs.len());
        assert(rest@ =~= input@.skip(i + 3));
        let j = find_char(rest, '/');
        let scheme = string_of(slice_subrange(cs.as_slice(), 0, i));
        let authority = if j == 0 {
            None
        } else {
            Some(string_of(slice_subrange(rest, 0, j)))
        };
        let path = if j < rest.len() {
            let tail = slice_subrange(rest, j, rest.len());
            assert(tail@ =~= rest@.skip(j as int));
            FsPath::new(string_of(tail).as_str())
        } else {
            FsPath::new("/")
        };
        Location { scheme, authority, path }
    }

    /// The text form, for breadcrumbs, messages and titles.
    pub fn to_string(&self) -> (r: String)
        ensures
            r@ == location_text(self@),
    {
        proof {
            literals();
        }
        match &self.authority {
            Some(authority) => {
                let mut out = self.scheme.clone();
                out.append("://");
                out.append(authority.as_str());
                out.append(self.path.display().as_str());
                out
            },
            None => {
                if self.is_local() {
                    self.path.display()
                } else {
                    let mut out = self.scheme.clone();
                    out.append("://");
                    out.append(self.path.display().as_str());
                    out
                }
            },
        }
    }
}

impl Clone for Location {
    fn clone(&self) -> (r: Self)
        ensures
            r@ == self@,
    {
        Location {
            scheme: self.scheme.clone(),
            authority: copy_opt(&self.authority),
            path: self.path.clone(),
        }
    }
}

impl PartialEq for Location {
    fn eq(&self, other: &Self) -> (r: bool) {
        same_text(self.scheme.as_str(), other.scheme.as_str()) && same_opt(
            &self.authority,
            &other.authority,
        ) && equal_paths(self.path.as_bytes(), other.path.as_bytes())
    }
}

impl vstd::std_specs::cmp::PartialEqSpecImpl for Location {
    open spec fn obeys_eq_spec() -> bool {
        true
    }

    open spec fn eq_spec(&self, other: &Self) -> bool {
        same_location(self@, other@)
    }
}

impl Eq for Location {

}

/// Clones a list of locations.
pub fn copy_locations(v: &Vec<Location>) -> (r: Vec<Location>)
    ensures
        locations(r@) == locations(v@),
{
    let mut out: Vec<Location> = Vec::new();
    for i in 0..v.len()
        invariant
            out@.len() == i,
            forall|j: int| 0 <= j < i ==> (#[trigger] out@[j])@ == v@[j]@,
    {
        out.push(v[i].clone());
    }
    assert(locations(out@) =~= locations(v@));
    out
}

/// Whether `l` has a text form that denotes it again: a local path, which
/// begins with no scheme if it is relative, or a URI with a plain scheme, an
/// authority that ends at the path, and an absolute path; the path is UTF-8.
pub open spec fn has_text_form(l: LocationView) -> bool {
    &&& valid_utf8(l.path)
    &&& if l.scheme == file_scheme() && l.authority is None {
        l.path.len() > 0 && l.path[0] == SEP || !has_scheme(decode_utf8(l.path))
    } else {
        &&& l.scheme.len() > 0
        &&& !l.scheme.contains('/')
        &&& l.path.len() > 0 && l.path[0] == SEP
        &&& (l.authority matches Some(a) ==> a.len() > 0 && find(a, '/') >= a.len())
    }
}

/// The text of a path that starts at the root starts with the separator.
pub proof fn decoded_root(p: Seq<u8>)
    requires
        valid_utf8(p),
        p.len() > 0,
        p[0] == SEP,
    ensures
        decode_utf8(p).len() > 0,
        decode_utf8(p)[0] == '/',
        encode_utf8(decode_utf8(p)) == p,
{
    decode_utf8_encode_utf8(p);
    let c = decode_first_scalar(p) as char;
    assert(SEP & 0x80 == 0) by (bit_vector);
    assert(is_leading_byte_width_1(p[0]));
    assert((SEP & 0x7F) as u32 == 0x2F) by (bit_vector);
    assert(decode_first_scalar(p) == 0x2F);
    assert(c == '/');
    assert(decode_utf8(p)[0] == c);
}

proof fn mark_position(scheme: Seq<char>, tail: Seq<char>)
    requires
        scheme.len() > 0,
        !scheme.contains('/'),
    ensures
        find_sub(scheme + scheme_mark() + tail, scheme_mark()) == scheme.len(),
{
    let m = scheme_mark();
    let s = scheme + m + tail;
    let n = scheme.len() as int;
    assert(s.skip(n).subrange(0, 3) =~= m);
    assert forall|j: int| 0 <= j < n implies !m.is_prefix_of(#[trigger] s.skip(j)) by {
        if m.is_prefix_of(s.skip(j)) {
            let t = s.skip(j).subrange(0, 3);
            assert(t == m);
            assert(t[0] == ':' && t[1] == '/' && t[2] == '/');
            assert(s[j] == ':' && s[j + 1] == '/' && s[j + 2] == '/');
            assert(s[n] == ':');
            assert(j + 2 < n);
            assert(scheme[j + 1] == '/');
        }
    }
    find_sub_is(s, m, n);
}

/// Reading back the text form of a location gives the location.
pub proof fn parse_of_display(l: LocationView)
    requires
        has_text_form(l),
    ensures
        parsed_location(location_text(l)) == l,
{
    let text = location_text(l);
    let d = decode_utf8(l.path);
    decode_utf8_encode_utf8(l.path);
    if l.scheme == file_scheme() && l.authority is None {
        if l.path.len() > 0 && l.path[0] == SEP {
            decoded_root(l.path);
            let i = find_sub(d, scheme_mark());
            find_sub_props(d, scheme_mark());
            if 0 < i {
                assert(d.take(i)[0] == '/');
            }
        }
        assert(parsed_location(text) =~= l);
    } else {
        decoded_root(l.path);
        let tail = match l.authority {
            Some(a) => a + d,
            None => d,
        };
        assert(text =~= l.scheme + scheme_mark() + tail);
        mark_position(l.scheme, tail);
        let n = l.scheme.len() as int;
        assert(text.take(n) =~= l.scheme);
        assert(text.skip(n + 3) =~= tail);
        match l.authority {
            Some(a) => {
                find_props(a, '/');
                assert forall|j: int| 0 <= j < a.len() implies tail[j] != '/' by {
                    assert(tail[j] == a[j]);
                }
                find_is(tail, '/', a.len() as int);
                assert(tail.take(a.len() as int) =~= a);
                assert(tail.skip(a.len() as int) =~= d);
            },
            None => {
                find_is(tail, '/', 0);
                assert(tail.skip(0) =~= d);
            },
        }
        assert(parsed_location(text) =~= l);
    }
}

/// The parent of what is joined to a location is that location, on the same
/// server; the root has no parent.
pub proof fn parent_undoes_join(l: LocationView, name: Seq<u8>)
    requires
        is_entry_name(name),
    ensures
        parent_location(child_of(l, name)) matches Some(p) && same_location(p, l),
        parent_location(at_path(l, root_path())) is None,
{
    parent_of_joined(l.path, name);
}

/// Joining the parent of a location with its file name gives the location
/// back.
pub proof fn join_undoes_parent(l: LocationView)
    requires
        parent_location(l) is Some,
        file_name_of(l.path) is Some,
    ensures
        same_location(child_of(parent_location(l)->0, file_name_of(l.path)->0), l),
{
    joined_of_parent(l.path);
}

// ---------------------------------------------------------------------------
// Capabilities
// ---------------------------------------------------------------------------

/// What a backend can do, as a set of flags.
#[derive(Debug, Clone, Copy, PartialEq, Eq, Structural)]
pub struct Caps {
    pub bits: u16,
}

pub const WATCH_BIT: u16 = 1;

pub const TRASH_BIT: u16 = 2;

pub const RENAME_IN_PLACE_BIT: u16 = 4;

pub const SET_PERMISSIONS_BIT: u16 = 8;

pub const LOCAL_PATH_BIT: u16 = 16;

pub const THUMBNAILS_BIT: u16 = 32;

/// Whether every flag of `part` is in `whole`.
pub open spec fn caps_include(whole: Caps, part: Caps) -> bool {
    whole.bits & part.bits == part.bits
}

impl Caps {
    /// A live stream of [`DirEvent`]s is available.
    pub fn watch() -> (r: Caps)
        ensures
            r.bits == WATCH_BIT,
    {
        Caps { bits: WATCH_BIT }
    }

    /// Deleting goes through a recoverable trash.
    pub fn trash() -> (r: Caps)
        ensures
            r.bits == TRASH_BIT,
    {
        Caps { bits: TRASH_BIT }
    }

    /// Renaming needs no copying.
    pub fn rename_in_place() -> (r: Caps)
        ensures
            r.bits == RENAME_IN_PLACE_BIT,
    {
        Caps { bits: RENAME_IN_PLACE_BIT }
    }

    /// Permissions can be changed.
    pub fn set_permissions() -> (r: Caps)
        ensures
            r.bits == SET_PERMISSIONS_BIT,
    {
        Caps { bits: SET_PERMISSIONS_BIT }
    }

    /// Entries have a local path that an application can open.
    pub fn local_path() -> (r: Caps)
        ensures
            r.bits == LOCAL_PATH_BIT,
    {
        Caps { bits: LOCAL_PATH_BIT }
    }

    /// Thumbnails can be made from the contents.
    pub fn thumbnails() -> (r: Caps)
        ensures
            r.bits == THUMBNAILS_BIT,
    {
        Caps { bits: THUMBNAILS_BIT }
    }

    /// No capability at all.
    pub fn empty() -> (r: Caps)
        ensures
            r.bits == 0,
    {
        Caps { bits: 0 }
    }

    /// Whether every flag of `other` is set.
    pub fn contains(&self, other: Caps) -> (r: bool)
        ensures
            r == caps_include(*self, other),
    {
        self.bits & other.bits == other.bits
    }
}

impl std::ops::BitOr<Caps> for Caps {
    type Output = Caps;

    fn bitor(self, other: Caps) -> (r: Caps) {
        Caps { bits: self.bits | other.bits }
    }
}

impl vstd::std_specs::ops::BitOrSpecImpl<Caps> for Caps {
    open spec fn obeys_bitor_spec() -> bool {
        true
    }

    open spec fn bitor_req(self, other: Caps) -> bool {
        true
    }

    open spec fn bitor_spec(self, other: Caps) -> Caps {
        Caps { bits: self.bits | other.bits }
    }
}

/// A union includes both its parts, and nothing that neither part touches.
pub proof fn union_includes_parts(a: Caps, b: Caps, c: Caps)
    ensures
        caps_include(Caps { bits: a.bits | b.bits }, a),
        caps_include(Caps { bits: a.bits | b.bits }, b),
        caps_include(Caps { bits: a.bits | b.bits }, c) && a.bits & c.bits == 0 ==> caps_include(b, c),
{
    let (x, y, z) = (a.bits, b.bits, c.bits);
    assert((x | y) & x == x && (x | y) & y == y && ((x | y) & z == z && x & z == 0 ==> y & z == z))
        by (bit_vector);
}

// ---------------------------------------------------------------------------
// Errors
// ---------------------------------------------------------------------------

/// A failure, worded for a human. The parameter is the representation of the
/// text in it.
#[derive(Debug, PartialEq, Eq)]
pub enum VfsError<T = String> {
    NotFound { location: T },
    PermissionDenied { location: T },
    AlreadyExists { location: T },
    NotADirectory { location: T },
    IsADirectory { location: T },
    /// The backend itself cannot be reached.
    Unavailable { message: T },
    /// Anything that fits nowhere above.
    Other { message: T },
}

/// The model of a [`VfsError`].
pub type VfsErrorView = VfsError<Seq<char>>;

impl View for VfsError {
    type V = VfsErrorView;

    open spec fn view(&self) -> VfsErrorView {
        match self {
            VfsError::NotFound { location } => VfsError::NotFound { location: location@ },
            VfsError::PermissionDenied { location } => VfsError::PermissionDenied {
                location: location@,
            },
            VfsError::AlreadyExists { location } => VfsError::AlreadyExists { location: location@ },
            VfsError::NotADirectory { location } => VfsError::NotADirectory { location: location@ },
            VfsError::IsADirectory { location } => VfsError::IsADirectory { location: location@ },
            VfsError::Unavailable { message } => VfsError::Unavailable { message: message@ },
            VfsError::Other { message } => VfsError::Other { message: message@ },
        }
    }
}

impl Clone for VfsError {
    fn clone(&self) -> (r: Self)
        ensures
            r@ == self@,
    {
        match self {
            VfsError::NotFound { location } => VfsError::NotFound { location: location.clone() },
            VfsError::PermissionDenied { location } => VfsError::PermissionDenied {
                location: location.clone(),
            },
            VfsError::AlreadyExists { location } => VfsError::AlreadyExists {
                location: location.clone(),
            },
            VfsError::NotADirectory { location } => VfsError::NotADirectory {
                location: location.clone(),
            },
            VfsError::IsADirectory { location } => VfsError::IsADirectory {
                location: location.clone(),
            },
            VfsError::Unavailable { message } => VfsError::Unavailable { message: message.clone() },
            VfsError::Other { message } => VfsError::Other { message: message.clone() },
        }
    }
}

/// The wording of an error.
pub open spec fn error_text(e: VfsErrorView) -> Seq<char> {
    match e {
        VfsError::NotFound { location } => location + " doesn't exist"@,
        VfsError::PermissionDenied { location } => "You don't have permission to open "@ + location,
        VfsError::AlreadyExists { location } => location + " already exists"@,
        VfsError::NotADirectory { location } => location + " isn't a folder"@,
        VfsError::IsADirectory { location } => location + " is a folder"@,
        VfsError::Unavailable { message } => message,
        VfsError::Other { message } => message,
    }
}

impl VfsError {
    /// The message shown in place of the listing.
    pub fn to_string(&self) -> (r: String)
        ensures
            r@ == error_text(self@),
    {
        match self {
            VfsError::NotFound { location } => location.clone().concat(" doesn't exist"),
            VfsError::PermissionDenied { location } => {
                copy_of("You don't have permission to open ").concat(location.as_str())
            },
            VfsError::AlreadyExists { location } => location.clone().concat(" already exists"),
            VfsError::NotADirectory { location } => location.clone().concat(" isn't a folder"),
            VfsError::IsADirectory { location } => location.clone().concat(" is a folder"),
            VfsError::Unavailable { message } => message.clone(),
            VfsError::Other { message } => message.clone(),
        }
    }
}

/// The view of a result whose success carries nothing.
pub open spec fn unit_result(r: Result<(), VfsError>) -> Result<(), VfsErrorView> {
    match r {
        Ok(_) => Ok(()),
        Err(e) => Err(e@),
    }
}

/// No error is worded as nothing, provided its own text is not empty.
pub proof fn every_error_says_something(e: VfsErrorView)
    requires
        e matches VfsError::Unavailable { message } ==> message.len() > 0,
        e matches VfsError::Other { message } ==> message.len() > 0,
    ensures
        error_text(e).len() > 0,
{
    reveal_strlit(" doesn't exist");
    reveal_strlit("You don't have permission to open ");
    reveal_strlit(" already exists");
    reveal_strlit(" isn't a folder");
    reveal_strlit(" is a folder");
}

// ---------------------------------------------------------------------------
// Changes
// ---------------------------------------------------------------------------

/// A change under a watched directory. The parameter is the representation of
/// a name.
#[derive(Debug, PartialEq, Eq)]
pub enum DirEvent<N = Vec<u8>> {
    Created(N),
    Removed(N),
    Renamed { from: N, to: N },
    Changed(N),
    /// Some changes were lost; only listing the directory again is correct.
    Overflow,
}

/// The model of a [`DirEvent`].
pub type DirEventView = DirEvent<Seq<u8>>;

impl View for DirEvent {
    type V = DirEventView;

    open spec fn view(&self) -> DirEventView {
        match self {
            DirEvent::Created(n) => DirEvent::Created(n@),
            DirEvent::Removed(n) => DirEvent::Removed(n@),
            DirEvent::Renamed { from, to } => DirEvent::Renamed { from: from@, to: to@ },
            DirEvent::Changed(n) => DirEvent::Changed(n@),
            DirEvent::Overflow => DirEvent::Overflow,
        }
    }
}

/// The views of a list of changes.
pub open spec fn dir_events(v: Seq<DirEvent>) -> Seq<DirEventView> {
    Seq::new(v.len(), |i: int| v[i]@)
}

// ---------------------------------------------------------------------------
// Backends
// ---------------------------------------------------------------------------

/// What every protocol backend says of itself. The operations that touch a
/// disk or a network belong to the application.
pub trait Backend {
    /// The URI scheme served.
    spec fn scheme_view(&self) -> Seq<char>;

    /// What this backend can do.
    spec fn caps_view(&self) -> Caps;

    /// The URI scheme served.
    fn scheme(&self) -> (r: &'static str)
        ensures
            r@ == self.scheme_view(),
    ;

    /// What this backend can do.
    fn caps(&self) -> (r: Caps)
        ensures
            r == self.caps_view(),
    ;
}

/// An in-memory backend with seeded directories. It lists and stats; every
/// other operation fails with a worded error.
#[derive(Debug)]
pub struct FakeBackend {
    caps: Caps,
    dirs: Vec<(FsPath, Vec<FileEntry>)>,
}

/// The directories seeded so far, by their components. A later seed of a
/// directory replaces an earlier one.
pub open spec fn seeded(
    dirs: Seq<(FsPath, Vec<FileEntry>)>,
) -> Map<Seq<Seq<u8>>, Seq<FileEntry<Seq<u8>>>>
    decreases dirs.len(),
{
    if dirs.len() == 0 {
        Map::empty()
    } else {
        let (path, list) = dirs.last();
        seeded(dirs.drop_last()).insert(components_of(path@), entries(list@))
    }
}

/// The first entry of a listing with the given name.
pub open spec fn entry_named(list: Seq<FileEntry<Seq<u8>>>, name: Seq<u8>) -> Option<
    FileEntry<Seq<u8>>,
>
    decreases list.len(),
{
    if list.len() == 0 {
        None
    } else if list[0].name == name {
        Some(list[0])
    } else {
        entry_named(list.skip(1), name)
    }
}

/// The view of the result of a listing.
pub open spec fn list_result(r: Result<Vec<FileEntry>, VfsError>) -> Result<
    Seq<FileEntry<Seq<u8>>>,
    VfsErrorView,
> {
    match r {
        Ok(v) => Ok(entries(v@)),
        Err(e) => Err(e@),
    }
}

/// The view of the result of a stat.
pub open spec fn entry_result(r: Result<FileEntry, VfsError>) -> Result<
    FileEntry<Seq<u8>>,
    VfsErrorView,
> {
    match r {
        Ok(v) => Ok(v@),
        Err(e) => Err(e@),
    }
}

/// What listing a seeded directory gives.
pub open spec fn fake_list(
    dirs: Map<Seq<Seq<u8>>, Seq<FileEntry<Seq<u8>>>>,
    location: LocationView,
) -> Result<Seq<FileEntry<Seq<u8>>>, VfsErrorView> {
    if dirs.dom().contains(components_of(location.path)) {
        Ok(dirs[components_of(location.path)])
    } else {
        Err(VfsError::NotFound { location: location_text(location) })
    }
}

/// What the stat of an entry of a seeded directory gives.
pub open spec fn fake_metadata(
    dirs: Map<Seq<Seq<u8>>, Seq<FileEntry<Seq<u8>>>>,
    location: LocationView,
) -> Result<FileEntry<Seq<u8>>, VfsErrorView> {
    let parent = match parent_of(location.path) {
        Some(p) => p,
        None => location.path,
    };
    let found = match file_name_of(location.path) {
        Some(name) => if dirs.dom().contains(components_of(parent)) {
            entry_named(dirs[components_of(parent)], name)
        } else {
            None
        },
        None => None,
    };
    match found {
        Some(e) => Ok(e),
        None => Err(VfsError::NotFound { location: location_text(location) }),
    }
}

/// The refusal of an operation that the in-memory backend does not have.
pub open spec fn fake_refusal(what: Seq<char>, location: LocationView) -> VfsErrorView {
    VfsError::Other { message: "FakeBackend can't "@ + what + location_text(location) }
}

fn find_entry<'a>(list: &'a Vec<FileEntry>, name: &[u8]) -> (r: Option<&'a FileEntry>)
    ensures
        match r {
            Some(e) => entry_named(entries(list@), name@) == Some(e@),
            None => entry_named(entries(list@), name@) is None,
        },
{
    let ghost all = entries(list@);
    assert(all.skip(0) =~= all);
    for i in 0..list.len()
        invariant
            all == entries(list@),
            entry_named(all, name@) == entry_named(all.skip(i as int), name@),
    {
        assert(all.skip(i as int).skip(1) =~= all.skip(i + 1));
        assert(all.skip(i as int)[0] == list@[i as int]@);
        if same_bytes(list[i].name.as_slice(), name) {
            return Some(&list[i]);
        }
    }
    None
}

impl FakeBackend {
    /// The seeded directories.
    pub closed spec fn dirs_view(&self) -> Map<Seq<Seq<u8>>, Seq<FileEntry<Seq<u8>>>> {
        seeded(self.dirs@)
    }

    /// A backend without capabilities and without directories.
    pub fn new() -> (r: Self)
        ensures
            r.caps_view() == (Caps { bits: 0 }),
            r.dirs_view() == Map::<Seq<Seq<u8>>, Seq<FileEntry<Seq<u8>>>>::empty(),
    {
        FakeBackend { caps: Caps::empty(), dirs: Vec::new() }
    }

    /// The same backend with other capabilities.
    pub fn with_caps(self, caps: Caps) -> (r: Self)
        ensures
            r.caps_view() == caps,
            r.dirs_view() == self.dirs_view(),
    {
        FakeBackend { caps, dirs: self.dirs }
    }

    /// The same backend with one more directory, its entries as given.
    pub fn with_dir<P: IntoPath>(self, path: P, entries: Vec<FileEntry>) -> (r: Self)
        ensures
            r.caps_view() == self.caps_view(),
            r.dirs_view() == self.dirs_view().insert(
                components_of(path.path_view()),
                crate::model::fs::entry::entries(entries@),
            ),
    {
        let FakeBackend { caps, mut dirs } = self;
        let ghost before = dirs@;
        dirs.push((path.into_path(), entries));
        assert(dirs@.drop_last() =~= before);
        FakeBackend { caps, dirs }
    }

    fn lookup(&self, path: &FsPath) -> (r: Option<&Vec<FileEntry>>)
        ensures
            r is Some <==> self.dirs_view().dom().contains(components_of(path@)),
            r is Some ==> entries(r->0@) == self.dirs_view()[components_of(path@)],
    {
        let mut i: usize = self.dirs.len();
        assert(self.dirs@.take(self.dirs@.len() as int) =~= self.dirs@);
        while i > 0
            invariant
                i <= self.dirs@.len(),
                self.dirs_view().dom().contains(components_of(path@)) == seeded(
                    self.dirs@.take(i as int),
                ).dom().contains(components_of(path@)),
                self.dirs_view().dom().contains(components_of(path@))
                    ==> self.dirs_view()[components_of(path@)] == seeded(
                    self.dirs@.take(i as int),
                )[components_of(path@)],
            decreases i,
        {
            assert(self.dirs@.take(i as int).drop_last() =~= self.dirs@.take(i - 1));
            if equal_paths(self.dirs[i - 1].0.as_bytes(), path.as_bytes()) {
                return Some(&self.dirs[i - 1].1);
            }
            i = i - 1;
        }
        None
    }

    /// The entries of a seeded directory.
    pub fn list(&self, location: &Location) -> (r: Result<Vec<FileEntry>, VfsError>)
        ensures
            list_result(r) == fake_list(self.dirs_view(), location@),
    {
        match self.lookup(&location.path) {
            Some(v) => Ok(copy_entries(v)),
            None => Err(VfsError::NotFound { location: location.to_string() }),
        }
    }

    /// One entry of a seeded directory.
    pub fn metadata(&self, location: &Location) -> (r: Result<FileEntry, VfsError>)
        ensures
            entry_result(r) == fake_metadata(self.dirs_view(), location@),
    {
        let parent = match location.path.parent() {
            Some(p) => p,
            None => location.path.clone(),
        };
        if let Some(name) = location.path.file_name() {
            if let Some(list) = self.lookup(&parent) {
                if let Some(e) = find_entry(list, name.as_slice()) {
                    return Ok(e.clone());
                }
            }
        }
        Err(VfsError::NotFound { location: location.to_string() })
    }

    fn refuse(&self, what: &str, location: &Location) -> (r: Result<(), VfsError>)
        ensures
            unit_result(r) == Err::<(), VfsErrorView>(fake_refusal(what@, location@)),
    {
        let message = copy_of("FakeBackend can't ").concat(what).concat(
            location.to_string().as_str(),
        );
        Err(VfsError::Other { message })
    }

    /// Always refused.
    pub fn read(&self, location: &Location) -> (r: Result<(), VfsError>)
        ensures
            unit_result(r) == Err::<(), VfsErrorView>(fake_refusal("read "@, location@)),
    {
        self.refuse("read ", location)
    }

    /// Always refused.
    pub fn write(&self, location: &Location) -> (r: Result<(), VfsError>)
        ensures
            unit_result(r) == Err::<(), VfsErrorView>(fake_refusal("write "@, location@)),
    {
        self.refuse("write ", location)
    }

    /// Always refused.
    pub fn mkdir(&self, location: &Location) -> (r: Result<(), VfsError>)
        ensures
            unit_result(r) == Err::<(), VfsErrorView>(fake_refusal("mkdir "@, location@)),
    {
        self.refuse("mkdir ", location)
    }

    /// Always refused, naming the source.
    pub fn rename(&self, from: &Location, _to: &Location) -> (r: Result<(), VfsError>)
        ensures
            unit_result(r) == Err::<(), VfsErrorView>(fake_refusal("rename "@, from@)),
    {
        self.refuse("rename ", from)
    }

    /// Always refused.
    pub fn remove(&self, location: &Location) -> (r: Result<(), VfsError>)
        ensures
            unit_result(r) == Err::<(), VfsErrorView>(fake_refusal("remove "@, location@)),
    {
        self.refuse("remove ", location)
    }

    /// Always refused.
    pub fn set_times(
        &self,
        location: &Location,
        _accessed: Option<Timestamp>,
        _modified: Option<Timestamp>,
    ) -> (r: Result<(), VfsError>)
        ensures
            unit_result(r) == Err::<(), VfsErrorView>(fake_refusal("set times on "@, location@)),
    {
        self.refuse("set times on ", location)
    }

    /// There is never anything to watch.
    pub fn watch(&self, _location: &Location) -> (r: Option<Vec<DirEvent>>)
        ensures
            r is None,
    {
        None
    }
}

impl Default for FakeBackend {
    fn default() -> (r: Self)
        ensures
            r.caps_view() == (Caps { bits: 0 }),
            r.dirs_view() == Map::<Seq<Seq<u8>>, Seq<FileEntry<Seq<u8>>>>::empty(),
    {
        FakeBackend::new()
    }
}

impl Backend for FakeBackend {
    open spec fn scheme_view(&self) -> Seq<char> {
        "fake"@
    }

    closed spec fn caps_view(&self) -> Caps {
        self.caps
    }

    fn scheme(&self) -> (r: &'static str) {
        "fake"
    }

    fn caps(&self) -> (r: Caps) {
        self.caps
    }
}

/// The wording of each error.
pub proof fn errors_are_worded(place: Seq<char>)
    ensures
        error_text(VfsError::NotFound { location: place }) == place + " doesn't exist"@,
        error_text(VfsError::PermissionDenied { location: place })
            == "You don't have permission to open "@ + place,
        error_text(VfsError::AlreadyExists { location: place }) == place + " already exists"@,
        error_text(VfsError::NotADirectory { location: place }) == place + " isn't a folder"@,
        error_text(VfsError::IsADirectory { location: place }) == place + " is a folder"@,
        error_text(VfsError::Unavailable { message: place }) == place,
        error_text(VfsError::Other { message: place }) == place,
{
}

/// A local location is shown as its path, any other as a URI.
pub proof fn locations_are_shown(scheme: Seq<char>, authority: Seq<char>, path: Seq<u8>)
    ensures
        location_text(
            LocationView { scheme: "file"@, authority: None, path },
        ) == shown(path),
        location_text(LocationView { scheme, authority: Some(authority), path }) == scheme
            + "://"@ + authority + shown(path),
        scheme != "file"@ ==> location_text(LocationView { scheme, authority: None, path })
            == scheme + "://"@ + shown(path),
{
    literals();
}

/// What is below a location, and what is above it, lies on the same server.
pub proof fn neighbours_are_on_the_same_server(l: LocationView, name: Seq<u8>)
    ensures
        child_of(l, name).scheme == l.scheme,
        child_of(l, name).authority == l.authority,
        child_of(l, name).path == joined(l.path, name),
        parent_location(l) matches Some(up) ==> up.scheme == l.scheme && up.authority
            == l.authority && parent_of(l.path) == Some(up.path),
        parent_location(l) is None <==> parent_of(l.path) is None,
{
}

/// Locations are the same if they are on the same server and their paths are
/// the same, and only then.
pub proof fn same_locations_are_on_one_server(a: LocationView, b: LocationView)
    ensures
        same_location(a, b) <==> a.scheme == b.scheme && a.authority == b.authority
            && components_of(a.path) == components_of(b.path),
{
}

/// A text without a scheme is a local path. One with a scheme names a server
/// up to the next separator, if anything stands there, and the root of it if
/// no path follows.
pub proof fn locations_are_read(scheme: Seq<char>, server: Seq<char>, tail: Seq<char>)
    requires
        scheme.len() > 0,
        !scheme.contains('/'),
        !scheme.contains(':'),
        !server.contains('/'),
        tail.len() == 0 || tail[0] == '/',
    ensures
        ({
            let l = parsed_location(scheme + "://"@ + (server + tail));
            &&& l.scheme == scheme
            &&& l.authority == (if server.len() > 0 {
                Some(server)
            } else {
                None
            })
            &&& l.path == (if tail.len() > 0 {
                encode_utf8(tail)
            } else {
                encode_utf8("/"@)
            })
        }),
        parsed_location(scheme) == (LocationView {
            scheme: "file"@,
            authority: None,
            path: encode_utf8(scheme),
        }),
{
    literals();
    reveal_strlit("://");
    let mark = scheme_mark();
    let s = scheme + "://"@ + (server + tail);
    assert(s.subrange(scheme.len() as int, scheme.len() as int + 3) =~= mark);
    assert forall|j: int| 0 <= j < scheme.len() implies !mark.is_prefix_of(s.skip(j)) by {
        assert(s.skip(j)[0] == scheme[j]);
        assert(scheme.contains(scheme[j]));
        if mark.is_prefix_of(s.skip(j)) {
            assert(s.skip(j).take(3)[0] == ':');
        }
    }
    assert(mark.is_prefix_of(s.skip(scheme.len() as int))) by {
        assert(s.skip(scheme.len() as int).take(3) =~= mark);
    }
    find_sub_is(s, mark, scheme.len() as int);
    assert(s.take(scheme.len() as int) =~= scheme);
    let rest = s.skip(scheme.len() as int + 3);
    assert(rest =~= server + tail);
    assert forall|j: int| 0 <= j < server.len() implies rest[j] != '/' by {
        assert(server.contains(server[j]));
    }
    find_is(rest, '/', server.len() as int);
    assert(rest.take(server.len() as int) =~= server);
    assert(rest.skip(server.len() as int) =~= tail);
    find_sub_props(scheme, mark);
    assert(find_sub(scheme, mark) == scheme.len()) by {
        let i = find_sub(scheme, mark);
        if i < scheme.len() {
            assert(mark.is_prefix_of(scheme.skip(i)));
            assert(scheme.skip(i).take(3)[0] == ':');
            assert(scheme.skip(i)[0] == scheme[i]);
            assert(scheme.contains(scheme[i]));
        }
    }
}

/// The in-memory backend lists what it was seeded with and describes the
/// entries of those listings; anything else is not found.
pub proof fn seeded_directories_are_listed(
    dirs: Map<Seq<Seq<u8>>, Seq<FileEntry<Seq<u8>>>>,
    location: LocationView,
    parent: Seq<u8>,
    name: Seq<u8>,
    list: Seq<FileEntry<Seq<u8>>>,
    i: int,
)
    requires
        parent_of(location.path) == Some(parent),
        file_name_of(location.path) == Some(name),
    ensures
        ({
            let missing = VfsErrorView::NotFound { location: location_text(location) };
            let key = components_of(location.path);
            let above = components_of(parent);
            &&& dirs.dom().contains(key) ==> fake_list(dirs, location) == Ok::<
                Seq<FileEntry<Seq<u8>>>,
                VfsErrorView,
            >(dirs[key])
            &&& !dirs.dom().contains(key) ==> fake_list(dirs, location) == Err::<
                Seq<FileEntry<Seq<u8>>>,
                VfsErrorView,
            >(missing)
            &&& !dirs.dom().contains(above) ==> fake_metadata(dirs, location) == Err::<
                FileEntry<Seq<u8>>,
                VfsErrorView,
            >(missing)
            &&& dirs.dom().contains(above) && dirs[above] == list && 0 <= i < list.len()
                && list[i].name == name && (forall|j: int|
                0 <= j < i ==> (#[trigger] list[j]).name != name) ==> fake_metadata(
                dirs,
                location,
            ) == Ok::<FileEntry<Seq<u8>>, VfsErrorView>(list[i])
        }),
{
    entry_is_named(list, name, i);
}

proof fn entry_is_named(list: Seq<FileEntry<Seq<u8>>>, name: Seq<u8>, i: int)
    ensures
        0 <= i < list.len() && list[i].name == name && (forall|j: int|
            0 <= j < i ==> (#[trigger] list[j]).name != name) ==> entry_named(list, name) == Some(
            list[i],
        ),
    decreases list.len(),
{
    if 0 < i < list.len() && list[i].name == name && (forall|j: int|
        0 <= j < i ==> (#[trigger] list[j]).name != name) {
        assert(list[0].name != name);
        let rest = list.skip(1);
        assert forall|j: int| 0 <= j < i - 1 implies (#[trigger] rest[j]).name != name by {
            assert(rest[j] == list[j + 1]);
        }
        entry_is_named(rest, name, i - 1);
    }
}

} // verus!
