//! The fixed rows of the sidebar: home, the well-known user directories, the
//! bookmarks, the trash and the saved servers, merged into one ordered list.
//! Mounted volumes are not among them: those come and go on their own.
use crate::config::SavedServer;
use crate::model::vfs::{
    Location, LocationView, file_scheme, local_view, parsed_location, root_path, same_location,
};
use crate::path::{FsPath, SEP, file_name_of, joined, opt_path, opt_vec};
use crate::percent::{
    decode_of_encode_percent, decode_percent, encode_percent, escaped, escaped_is_ascii, unescaped,
};
use crate::text::{
    bytes_of, chars_of, concat_bytes, copy_of, cut, cuts_are_at_the_first, find_is, find_props,
    has_prefix, is_space, is_text, lines, lines_of, lines_of_joined, lines_of_one, lossy, rows,
    same_text, shown, split_once, string_of, trim, trimmed,
};
use vstd::prelude::*;
use vstd::slice::slice_subrange;
use vstd::utf8::*;

verus! {

// ---------------------------------------------------------------------------
// Places
// ---------------------------------------------------------------------------

/// What a place is; decides its icon.
#[derive(Debug, Clone, Copy, PartialEq, Eq, Structural)]
pub enum PlaceKind {
    Home,
    Desktop,
    Downloads,
    Documents,
    Music,
    Pictures,
    Videos,
    Bookmark,
    Server,
    Trash,
}

/// One row of the sidebar.
#[derive(Debug)]
pub struct Place {
    pub label: String,
    pub location: Location,
    pub kind: PlaceKind,
}

/// The model of a [`Place`].
#[verifier::ext_equal]
pub struct PlaceView {
    pub label: Seq<char>,
    pub location: LocationView,
    pub kind: PlaceKind,
}

impl View for Place {
    type V = PlaceView;

    open spec fn view(&self) -> PlaceView {
        PlaceView { label: self.label@, location: self.location@, kind: self.kind }
    }
}

/// The views of a list of places.
pub open spec fn places(v: Seq<Place>) -> Seq<PlaceView> {
    Seq::new(v.len(), |i: int| v[i]@)
}

// ---------------------------------------------------------------------------
// User directories
// ---------------------------------------------------------------------------

/// The well-known user directories, as `user-dirs.dirs` names them. A
/// directory that the file does not name is absent.
#[derive(Debug, PartialEq, Eq)]
pub struct UserDirs {
    pub desktop: Option<FsPath>,
    pub download: Option<FsPath>,
    pub templates: Option<FsPath>,
    pub public_share: Option<FsPath>,
    pub documents: Option<FsPath>,
    pub music: Option<FsPath>,
    pub pictures: Option<FsPath>,
    pub videos: Option<FsPath>,
}

/// The model of [`UserDirs`].
#[verifier::ext_equal]
pub struct UserDirsView {
    pub desktop: Option<Seq<u8>>,
    pub download: Option<Seq<u8>>,
    pub templates: Option<Seq<u8>>,
    pub public_share: Option<Seq<u8>>,
    pub documents: Option<Seq<u8>>,
    pub music: Option<Seq<u8>>,
    pub pictures: Option<Seq<u8>>,
    pub videos: Option<Seq<u8>>,
}

impl View for UserDirs {
    type V = UserDirsView;

    open spec fn view(&self) -> UserDirsView {
        UserDirsView {
            desktop: opt_path(self.desktop),
            download: opt_path(self.download),
            templates: opt_path(self.templates),
            public_share: opt_path(self.public_share),
            documents: opt_path(self.documents),
            music: opt_path(self.music),
            pictures: opt_path(self.pictures),
            videos: opt_path(self.videos),
        }
    }
}

/// The directories when nothing is known.
pub open spec fn no_dirs() -> UserDirsView {
    UserDirsView {
        desktop: None,
        download: None,
        templates: None,
        public_share: None,
        documents: None,
        music: None,
        pictures: None,
        videos: None,
    }
}

/// The path that a quoted value denotes: a leading `$HOME` stands for the
/// home directory, and nothing else is expanded. An empty path is none.
pub open spec fn quoted_path(value: Seq<char>, home: Seq<u8>) -> Option<Seq<u8>> {
    if value.len() >= 2 && value[0] == '"' && value.last() == '"' {
        let inner = value.subrange(1, value.len() - 1);
        let path = if "$HOME"@.is_prefix_of(inner) {
            home + encode_utf8(inner.skip("$HOME"@.len() as int))
        } else {
            encode_utf8(inner)
        };
        if path.len() == 0 {
            None
        } else {
            Some(path)
        }
    } else {
        None
    }
}

/// The key and the path that a line of the file assigns. Blank lines,
/// comments and lines without a usable value assign nothing.
pub open spec fn dir_assignment(line: Seq<char>, home: Seq<u8>) -> Option<(Seq<char>, Seq<u8>)> {
    let line = trimmed(line);
    if line.len() == 0 || line[0] == '#' {
        None
    } else {
        match cut(line, '=') {
            Some((key, value)) => match quoted_path(trimmed(value), home) {
                Some(path) => Some((trimmed(key), path)),
                None => None,
            },
            None => None,
        }
    }
}

/// The path that the last assignment to `key` gives.
pub open spec fn dir_named(file: Seq<Seq<char>>, key: Seq<char>, home: Seq<u8>) -> Option<Seq<u8>>
    decreases file.len(),
{
    if file.len() == 0 {
        None
    } else {
        match dir_assignment(file.last(), home) {
            Some((k, path)) if k == key => Some(path),
            _ => dir_named(file.drop_last(), key, home),
        }
    }
}

/// The directories that the lines of the file name.
pub open spec fn dirs_of(file: Seq<Seq<char>>, home: Seq<u8>) -> UserDirsView {
    UserDirsView {
        desktop: dir_named(file, "XDG_DESKTOP_DIR"@, home),
        download: dir_named(file, "XDG_DOWNLOAD_DIR"@, home),
        templates: dir_named(file, "XDG_TEMPLATES_DIR"@, home),
        public_share: dir_named(file, "XDG_PUBLICSHARE_DIR"@, home),
        documents: dir_named(file, "XDG_DOCUMENTS_DIR"@, home),
        music: dir_named(file, "XDG_MUSIC_DIR"@, home),
        pictures: dir_named(file, "XDG_PICTURES_DIR"@, home),
        videos: dir_named(file, "XDG_VIDEOS_DIR"@, home),
    }
}

/// Reads a quoted value.
fn parse_quoted_path(value: &[char], home: &FsPath) -> (r: Option<FsPath>)
    ensures
        opt_path(r) == quoted_path(value@, home@),
{
    let n = value.len();
    if n < 2 || value[0] != '"' || value[n - 1] != '"' {
        return None;
    }
    let inner = slice_subrange(value, 1, n - 1);
    let bytes = if has_prefix(inner, "$HOME") {
        let skip = "$HOME".unicode_len();
        let rest = slice_subrange(inner, skip, inner.len());
        assert(rest@ =~= inner@.skip("$HOME"@.len() as int));
        let tail = bytes_of(string_of(rest).as_str());
        concat_bytes(home.as_bytes(), tail.as_slice())
    } else {
        bytes_of(string_of(inner).as_str())
    };
    if bytes.len() == 0 {
        None
    } else {
        Some(FsPath::from_bytes(bytes))
    }
}

/// The view of an assignment.
pub open spec fn assignment_view(o: Option<(&[char], FsPath)>) -> Option<(Seq<char>, Seq<u8>)> {
    match o {
        Some((key, path)) => Some((key@, path@)),
        None => None,
    }
}

/// Reads one line of the file.
fn parse_dir_line<'a>(line: &'a [char], home: &FsPath) -> (r: Option<(&'a [char], FsPath)>)
    ensures
        assignment_view(r) == dir_assignment(line@, home@),
{
    let line = trim(line);
    if line.len() == 0 || line[0] == '#' {
        return None;
    }
    match split_once(line, '=') {
        Some((key, value)) => match parse_quoted_path(trim(value), home) {
            Some(path) => Some((trim(key), path)),
            None => None,
        },
        None => None,
    }
}

/// `path` if the key is the wanted one, else what was there.
fn assign(current: Option<FsPath>, key: &[char], wanted: &str, path: &FsPath) -> (r: Option<FsPath>)
    ensures
        opt_path(r) == if key@ == wanted@ {
            Some(path@)
        } else {
            opt_path(current)
        },
{
    if is_text(key, wanted) {
        Some(path.clone())
    } else {
        current
    }
}

impl Default for UserDirs {
    fn default() -> (r: Self)
        ensures
            r@ == no_dirs(),
    {
        UserDirs {
            desktop: None,
            download: None,
            templates: None,
            public_share: None,
            documents: None,
            music: None,
            pictures: None,
            videos: None,
        }
    }
}

impl UserDirs {
    /// The directories that a `user-dirs.dirs` file names. Without the file
    /// (`None`) nothing is known.
    pub fn load(contents: Option<String>, home: &FsPath) -> (r: Self)
        ensures
            r@ == match contents {
                Some(text) => dirs_of(lines(text@), home@),
                None => no_dirs(),
            },
    {
        match contents {
            Some(text) => UserDirs::parse(text.as_str(), home),
            None => UserDirs::default(),
        }
    }

    /// Reads the contents of a `user-dirs.dirs` file.
    pub fn parse(contents: &str, home: &FsPath) -> (r: Self)
        ensures
            r@ == dirs_of(lines(contents@), home@),
    {
        let cs = chars_of(contents);
        let file = lines_of(cs.as_slice());
        let ghost all = lines(contents@);
        let mut dirs = UserDirs::default();
        assert(all.take(0) =~= Seq::empty());
        assert(dirs@ =~= dirs_of(all.take(0), home@));
        for i in 0..file.len()
            invariant
                rows(file@) == all,
                dirs@ == dirs_of(all.take(i as int), home@),
        {
            let ghost before = dirs@;
            let line = file[i].as_slice();
            proof {
                assert(rows(file@)[i as int] == line@);
                assert(all.take(i + 1).drop_last() =~= all.take(i as int));
                assert(all.take(i + 1).last() == line@);
            }
            if let Some((key, path)) = parse_dir_line(line, home) {
                let UserDirs {
                    desktop,
                    download,
                    templates,
                    public_share,
                    documents,
                    music,
                    pictures,
                    videos,
                } = dirs;
                dirs =
                UserDirs {
                    desktop: assign(desktop, key, "XDG_DESKTOP_DIR", &path),
                    download: assign(download, key, "XDG_DOWNLOAD_DIR", &path),
                    templates: assign(templates, key, "XDG_TEMPLATES_DIR", &path),
                    public_share: assign(public_share, key, "XDG_PUBLICSHARE_DIR", &path),
                    documents: assign(documents, key, "XDG_DOCUMENTS_DIR", &path),
                    music: assign(music, key, "XDG_MUSIC_DIR", &path),
                    pictures: assign(pictures, key, "XDG_PICTURES_DIR", &path),
                    videos: assign(videos, key, "XDG_VIDEOS_DIR", &path),
                };
                assert(dir_assignment(line@, home@) == Some((key@, path@)));
            }
            assert(dirs@ =~= dirs_of(all.take(i + 1), home@));
        }
        assert(all.take(all.len() as int) =~= all);
        dirs
    }
}

/// The configuration directory: `$XDG_CONFIG_HOME` if it is set and not
/// empty, else `.config` below home.
pub open spec fn config_home_of(xdg: Option<Seq<u8>>, home: Seq<u8>) -> Seq<u8> {
    match xdg {
        Some(value) if value.len() > 0 => value,
        _ => joined(home, encode_utf8(".config"@)),
    }
}

/// The configuration directory, from the value of `$XDG_CONFIG_HOME`.
pub fn xdg_config_home(xdg: Option<Vec<u8>>, home: &FsPath) -> (r: FsPath)
    ensures
        r@ == config_home_of(opt_vec(xdg), home@),
{
    match xdg {
        Some(value) => {
            if value.len() > 0 {
                return FsPath::from_bytes(value);
            }
        },
        None => {},
    }
    home.join_bytes(bytes_of(".config").as_slice())
}

/// Where the `user-dirs.dirs` file lies.
pub fn user_dirs_file(xdg: Option<Vec<u8>>, home: &FsPath) -> (r: FsPath)
    ensures
        r@ == joined(config_home_of(opt_vec(xdg), home@), encode_utf8("user-dirs.dirs"@)),
{
    xdg_config_home(xdg, home).join_bytes(bytes_of("user-dirs.dirs").as_slice())
}

/// Where the bookmarks file lies.
pub fn bookmarks_file(xdg: Option<Vec<u8>>, home: &FsPath) -> (r: FsPath)
    ensures
        r@ == joined(config_home_of(opt_vec(xdg), home@), encode_utf8("gtk-3.0/bookmarks"@)),
{
    xdg_config_home(xdg, home).join_bytes(bytes_of("gtk-3.0/bookmarks").as_slice())
}

// ---------------------------------------------------------------------------
// Bookmarks
// ---------------------------------------------------------------------------

/// A folder that the user chose to keep at hand.
#[derive(Debug)]
pub struct Bookmark {
    pub label: String,
    pub location: Location,
}

/// The model of a [`Bookmark`].
#[verifier::ext_equal]
pub struct BookmarkView {
    pub label: Seq<char>,
    pub location: LocationView,
}

impl View for Bookmark {
    type V = BookmarkView;

    open spec fn view(&self) -> BookmarkView {
        BookmarkView { label: self.label@, location: self.location@ }
    }
}

impl PartialEq for Bookmark {
    fn eq(&self, other: &Self) -> (r: bool) {
        same_text(self.label.as_str(), other.label.as_str()) && self.location == other.location
    }
}

impl vstd::std_specs::cmp::PartialEqSpecImpl for Bookmark {
    open spec fn obeys_eq_spec() -> bool {
        true
    }

    open spec fn eq_spec(&self, other: &Self) -> bool {
        self@.label == other@.label && same_location(self@.location, other@.location)
    }
}

impl Eq for Bookmark {

}

/// The views of a list of bookmarks.
pub open spec fn bookmarks(v: Seq<Bookmark>) -> Seq<BookmarkView> {
    Seq::new(v.len(), |i: int| v[i]@)
}

/// The view of an optional bookmark.
pub open spec fn opt_bookmark(o: Option<Bookmark>) -> Option<BookmarkView> {
    match o {
        Some(b) => Some(b@),
        None => None,
    }
}

/// The name that a path goes by when it has no label: its last component, or
/// all of it where there is none.
pub open spec fn path_label(path: Seq<u8>) -> Seq<char> {
    match file_name_of(path) {
        Some(name) => shown(name),
        None => shown(path),
    }
}

/// The bookmark on a line: a `file://` URI, and after the first space an
/// optional label. Lines with another scheme hold none.
pub open spec fn bookmark_on(line: Seq<char>) -> Option<BookmarkView> {
    let line = trimmed(line);
    let (uri, label) = match cut(line, ' ') {
        Some((uri, label)) => (uri, trimmed(label)),
        None => (line, Seq::empty()),
    };
    if line.len() > 0 && "file://"@.is_prefix_of(uri) {
        let path = unescaped(encode_utf8(uri.skip("file://"@.len() as int)));
        Some(
            BookmarkView {
                label: if label.len() > 0 {
                    label
                } else {
                    path_label(path)
                },
                location: local_view(path),
            },
        )
    } else {
        None
    }
}

/// The bookmarks on the lines of a file, in their order.
pub open spec fn bookmarks_of(file: Seq<Seq<char>>) -> Seq<BookmarkView>
    decreases file.len(),
{
    if file.len() == 0 {
        Seq::empty()
    } else {
        match bookmark_on(file.last()) {
            Some(b) => bookmarks_of(file.drop_last()).push(b),
            None => bookmarks_of(file.drop_last()),
        }
    }
}

/// The bookmarks that a file holds; none without the file.
pub fn load_bookmarks(contents: Option<String>) -> (r: Vec<Bookmark>)
    ensures
        bookmarks(r@) == match contents {
            Some(text) => bookmarks_of(lines(text@)),
            None => Seq::empty(),
        },
{
    match contents {
        Some(text) => parse_bookmarks(text.as_str()),
        None => {
            let r: Vec<Bookmark> = Vec::new();
            assert(bookmarks(r@) =~= Seq::empty());
            r
        },
    }
}

/// Reads the contents of a bookmarks file.
pub fn parse_bookmarks(contents: &str) -> (r: Vec<Bookmark>)
    ensures
        bookmarks(r@) == bookmarks_of(lines(contents@)),
{
    let cs = chars_of(contents);
    let file = lines_of(cs.as_slice());
    let ghost all = lines(contents@);
    let mut out: Vec<Bookmark> = Vec::new();
    assert(all.take(0) =~= Seq::empty());
    assert(bookmarks(out@) =~= bookmarks_of(all.take(0)));
    for i in 0..file.len()
        invariant
            rows(file@) == all,
            bookmarks(out@) == bookmarks_of(all.take(i as int)),
    {
        let ghost before = bookmarks(out@);
        let line = file[i].as_slice();
        proof {
            assert(rows(file@)[i as int] == line@);
            assert(all.take(i + 1).drop_last() =~= all.take(i as int));
            assert(all.take(i + 1).last() == line@);
        }
        if let Some(bookmark) = parse_bookmark_line(line) {
            let ghost b = bookmark@;
            out.push(bookmark);
            assert(bookmarks(out@) =~= before.push(b));
        }
    }
    assert(all.take(all.len() as int) =~= all);
    out
}

/// Reads one line of a bookmarks file.
fn parse_bookmark_line(line: &[char]) -> (r: Option<Bookmark>)
    ensures
        opt_bookmark(r) == bookmark_on(line@),
{
    let line = trim(line);
    if line.len() == 0 {
        return None;
    }
    let (uri, label) = match split_once(line, ' ') {
        Some((uri, label)) => (uri, string_of(trim(label))),
        None => (line, String::new()),
    };
    if !has_prefix(uri, "file://") {
        return None;
    }
    let encoded = slice_subrange(uri, "file://".unicode_len(), uri.len());
    assert(encoded@ =~= uri@.skip("file://"@.len() as int));
    let path = FsPath::from_bytes(decode_percent(string_of(encoded).as_str()));
    let label = if label.as_str().unicode_len() > 0 {
        label
    } else {
        match path.file_name() {
            Some(name) => lossy(name.as_slice()),
            None => path.display(),
        }
    };
    Some(Bookmark { label, location: Location::local(path) })
}

/// The line that keeps a bookmark.
pub open spec fn bookmark_line(b: BookmarkView) -> Seq<char> {
    "file://"@ + escaped(b.location.path) + seq![' '] + b.label
}

/// The file that keeps a list of bookmarks.
pub open spec fn bookmarks_text(list: Seq<BookmarkView>) -> Seq<char>
    decreases list.len(),
{
    if list.len() == 0 {
        Seq::empty()
    } else {
        bookmarks_text(list.drop_last()) + bookmark_line(list.last()) + seq!['\n']
    }
}

/// Writes a list of bookmarks.
pub fn format_bookmarks(list: &[Bookmark]) -> (r: String)
    ensures
        r@ == bookmarks_text(bookmarks(list@)),
{
    let mut out = String::new();
    let ghost all = bookmarks(list@);
    assert(all.take(0) =~= Seq::empty());
    assert(out@ =~= bookmarks_text(all.take(0)));
    for i in 0..list.len()
        invariant
            all == bookmarks(list@),
            out@ == bookmarks_text(all.take(i as int)),
    {
        let ghost before = out@;
        proof {
            assert(all.take(i + 1).drop_last() =~= all.take(i as int));
            assert(all.take(i + 1).last() == list@[i as int]@);
        }
        out.append("file://");
        out.append(encode_percent(list[i].location.path.as_bytes()).as_str());
        out.push(' ');
        out.append(list[i].label.as_str());
        out.push('\n');
        assert(out@ =~= before + bookmark_line(list@[i as int]@) + seq!['\n']);
    }
    assert(all.take(all.len() as int) =~= all);
    out
}

// ---------------------------------------------------------------------------
// The list
// ---------------------------------------------------------------------------

/// The place of the trash: a scheme of its own, at the root.
pub open spec fn trash_place() -> LocationView {
    LocationView { scheme: "trash"@, authority: None, path: root_path() }
}

/// The location that the trash row leads to.
pub fn trash_location() -> (r: Location)
    ensures
        r@ == trash_place(),
{
    let mut path: Vec<u8> = Vec::new();
    path.push(SEP);
    let r = Location {
        scheme: copy_of("trash"),
        authority: None,
        path: FsPath::from_bytes(path),
    };
    assert(r@.path =~= root_path());
    r
}

/// The row of a user directory, where there is one.
pub open spec fn dir_rows(label: Seq<char>, kind: PlaceKind, dir: Option<Seq<u8>>) -> Seq<
    PlaceView,
> {
    match dir {
        Some(path) => seq![PlaceView { label, location: local_view(path), kind }],
        None => Seq::empty(),
    }
}

/// The rows of the bookmarks.
pub open spec fn bookmark_rows(list: Seq<BookmarkView>) -> Seq<PlaceView> {
    Seq::new(
        list.len(),
        |i: int|
            PlaceView {
                label: list[i].label,
                location: list[i].location,
                kind: PlaceKind::Bookmark,
            },
    )
}

/// The rows of the saved servers.
pub open spec fn server_rows(servers: Seq<SavedServer>) -> Seq<PlaceView> {
    Seq::new(
        servers.len(),
        |i: int|
            PlaceView {
                label: servers[i].name@,
                location: parsed_location(servers[i].uri@),
                kind: PlaceKind::Server,
            },
    )
}

/// The sidebar's fixed rows: home, the user directories that are known, the
/// bookmarks, the trash, the servers.
pub open spec fn place_rows(
    home: Seq<u8>,
    dirs: UserDirsView,
    list: Seq<BookmarkView>,
    servers: Seq<SavedServer>,
) -> Seq<PlaceView> {
    seq![PlaceView { label: "Home"@, location: local_view(home), kind: PlaceKind::Home }]
        + dir_rows("Desktop"@, PlaceKind::Desktop, dirs.desktop)
        + dir_rows("Downloads"@, PlaceKind::Downloads, dirs.download)
        + dir_rows("Documents"@, PlaceKind::Documents, dirs.documents)
        + dir_rows("Music"@, PlaceKind::Music, dirs.music)
        + dir_rows("Pictures"@, PlaceKind::Pictures, dirs.pictures)
        + dir_rows("Videos"@, PlaceKind::Videos, dirs.videos)
        + bookmark_rows(list)
        + seq![PlaceView { label: "Trash"@, location: trash_place(), kind: PlaceKind::Trash }]
        + server_rows(servers)
}

/// Adds the row of a user directory.
fn push_dir(out: &mut Vec<Place>, label: &str, kind: PlaceKind, dir: &Option<FsPath>)
    ensures
        places(final(out)@) == places(old(out)@) + dir_rows(label@, kind, opt_path(*dir)),
{
    if let Some(path) = dir {
        out.push(Place { label: copy_of(label), location: Location::local(path), kind });
    }
    assert(places(out@) =~= places(old(out)@) + dir_rows(label@, kind, opt_path(*dir)));
}

/// Builds the sidebar's fixed rows, in display order.
pub fn build(
    home: &FsPath,
    user_dirs: &UserDirs,
    bookmark_list: &[Bookmark],
    servers: &[SavedServer],
) -> (r: Vec<Place>)
    ensures
        places(r@) == place_rows(home@, user_dirs@, bookmarks(bookmark_list@), servers@),
{
    let mut out: Vec<Place> = Vec::new();
    out.push(
        Place { label: copy_of("Home"), location: Location::local(home), kind: PlaceKind::Home },
    );
    assert(places(out@) =~= seq![
        PlaceView { label: "Home"@, location: local_view(home@), kind: PlaceKind::Home },
    ]);
    push_dir(&mut out, "Desktop", PlaceKind::Desktop, &user_dirs.desktop);
    push_dir(&mut out, "Downloads", PlaceKind::Downloads, &user_dirs.download);
    push_dir(&mut out, "Documents", PlaceKind::Documents, &user_dirs.documents);
    push_dir(&mut out, "Music", PlaceKind::Music, &user_dirs.music);
    push_dir(&mut out, "Pictures", PlaceKind::Pictures, &user_dirs.pictures);
    push_dir(&mut out, "Videos", PlaceKind::Videos, &user_dirs.videos);
    let ghost base = places(out@);
    let ghost marks = bookmark_rows(bookmarks(bookmark_list@));
    assert(base + marks.take(0) =~= base);
    for i in 0..bookmark_list.len()
        invariant
            marks == bookmark_rows(bookmarks(bookmark_list@)),
            places(out@) == base + marks.take(i as int),
    {
        let ghost before = places(out@);
        out.push(
            Place {
                label: bookmark_list[i].label.clone(),
                location: bookmark_list[i].location.clone(),
                kind: PlaceKind::Bookmark,
            },
        );
        assert(places(out@) =~= before.push(marks[i as int]));
        assert(before.push(marks[i as int]) =~= base + marks.take(i + 1));
    }
    assert(marks.take(marks.len() as int) =~= marks);
    let ghost base = places(out@);
    out.push(
        Place { label: copy_of("Trash"), location: trash_location(), kind: PlaceKind::Trash },
    );
    let ghost trash = PlaceView {
        label: "Trash"@,
        location: trash_place(),
        kind: PlaceKind::Trash,
    };
    assert(places(out@) =~= base + seq![trash]);
    let ghost base = places(out@);
    let ghost saved = server_rows(servers@);
    assert(base + saved.take(0) =~= base);
    for i in 0..servers.len()
        invariant
            saved == server_rows(servers@),
            places(out@) == base + saved.take(i as int),
    {
        let ghost before = places(out@);
        out.push(
            Place {
                label: servers[i].name.clone(),
                location: Location::parse(servers[i].uri.as_str()),
                kind: PlaceKind::Server,
            },
        );
        assert(places(out@) =~= before.push(saved[i as int]));
        assert(before.push(saved[i as int]) =~= base + saved.take(i + 1));
    }
    assert(saved.take(saved.len() as int) =~= saved);
    out
}

// ---------------------------------------------------------------------------
// Laws
// ---------------------------------------------------------------------------

/// Whether a line of a bookmarks file can keep `b`: it is local, and its
/// label is a non-empty text of one line without white space at its ends.
pub open spec fn can_be_kept(b: BookmarkView) -> bool {
    &&& b.location == local_view(b.location.path)
    &&& b.label.len() > 0
    &&& !is_space(b.label[0])
    &&& !is_space(b.label.last())
    &&& !b.label.contains('\n')
}

proof fn line_round_trip(b: BookmarkView)
    requires
        can_be_kept(b),
    ensures
        bookmark_on(bookmark_line(b)) == Some(b),
        !bookmark_line(b).contains('\n'),
        bookmark_line(b).last() != '\r',
        bookmark_line(b).len() > 0,
{
    reveal_strlit("file://");
    let e = escaped(b.location.path);
    escaped_is_ascii(b.location.path);
    let uri = "file://"@ + e;
    let l = bookmark_line(b);
    assert(l == uri + seq![' '] + b.label);
    assert forall|i: int| 0 <= i < uri.len() implies 0x21 <= (#[trigger] uri[i]) as u32
        <= 0x7E by {
        if i >= "file://"@.len() {
            assert(uri[i] == e[i - "file://"@.len()]);
        }
    }
    assert(l[0] == 'f');
    assert(l.last() == b.label.last());
    assert(trimmed(l) == l);
    assert forall|i: int| 0 <= i < uri.len() implies l[i] != ' ' by {
        assert(l[i] == uri[i]);
    }
    assert(l[uri.len() as int] == ' ');
    find_is(l, ' ', uri.len() as int);
    assert(l.take(uri.len() as int) =~= uri);
    assert(l.skip(uri.len() as int + 1) =~= b.label);
    assert(trimmed(b.label) == b.label);
    assert(uri.take("file://"@.len() as int) =~= "file://"@);
    assert("file://"@.is_prefix_of(uri));
    assert(uri.skip("file://"@.len() as int) =~= e);
    decode_of_encode_percent(b.location.path);
    assert(bookmark_on(l)->0 =~= b);
    assert forall|i: int| 0 <= i < l.len() implies l[i] != '\n' by {
        if i < uri.len() {
            assert(l[i] == uri[i]);
        } else if i > uri.len() {
            assert(l[i] == b.label[i - uri.len() - 1]);
            assert(b.label.contains(b.label[i - uri.len() - 1]));
        }
    }
}

/// Reading a written list of bookmarks gives it back, whatever bytes the
/// paths hold.
pub proof fn bookmarks_round_trip(list: Seq<BookmarkView>)
    requires
        forall|i: int| 0 <= i < list.len() ==> can_be_kept(#[trigger] list[i]),
    ensures
        bookmarks_of(lines(bookmarks_text(list))) == list,
    decreases list.len(),
{
    if list.len() > 0 {
        let rest = list.drop_last();
        let b = list.last();
        assert forall|i: int| 0 <= i < rest.len() implies can_be_kept(#[trigger] rest[i]) by {
            assert(rest[i] == list[i]);
        }
        bookmarks_round_trip(rest);
        line_round_trip(b);
        let head = bookmarks_text(rest);
        let tail = bookmark_line(b) + seq!['\n'];
        assert(bookmarks_text(list) =~= head + tail);
        lines_of_one(bookmark_line(b));
        lines_of_joined(head, tail);
        let all = lines(head) + seq![bookmark_line(b)];
        assert(lines(bookmarks_text(list)) =~= all);
        assert(all.drop_last() =~= lines(head));
        assert(all.last() == bookmark_line(b));
        assert(bookmarks_of(all) =~= list);
    } else {
        assert(list =~= Seq::empty());
    }
}

/// Home comes first, and what follows it is in a fixed order: the rows of one
/// input never depend on those of another.
pub proof fn home_comes_first(
    home: Seq<u8>,
    dirs: UserDirsView,
    list: Seq<BookmarkView>,
    servers: Seq<SavedServer>,
)
    ensures
        place_rows(home, dirs, list, servers)[0] == (PlaceView {
            label: "Home"@,
            location: local_view(home),
            kind: PlaceKind::Home,
        }),
        place_rows(home, dirs, list, servers) == place_rows(home, dirs, Seq::empty(), Seq::empty())
            .drop_last() + bookmark_rows(list) + seq![
            PlaceView { label: "Trash"@, location: trash_place(), kind: PlaceKind::Trash },
        ] + server_rows(servers),
{
    let none = place_rows(home, dirs, Seq::empty(), Seq::empty());
    assert(bookmark_rows(Seq::empty()) =~= Seq::empty());
    assert(server_rows(Seq::empty()) =~= Seq::empty());
    assert(place_rows(home, dirs, list, servers) =~= none.drop_last() + bookmark_rows(list) + seq![
        PlaceView { label: "Trash"@, location: trash_place(), kind: PlaceKind::Trash },
    ] + server_rows(servers));
}

/// Which variable names which directory; the last line that assigns one
/// counts.
pub proof fn variables_name_the_user_directories(
    file: Seq<Seq<char>>,
    line: Seq<char>,
    key: Seq<char>,
    home: Seq<u8>,
)
    ensures
        ({
            let dirs = dirs_of(file, home);
            &&& dirs.desktop == dir_named(file, "XDG_DESKTOP_DIR"@, home)
            &&& dirs.download == dir_named(file, "XDG_DOWNLOAD_DIR"@, home)
            &&& dirs.templates == dir_named(file, "XDG_TEMPLATES_DIR"@, home)
            &&& dirs.public_share == dir_named(file, "XDG_PUBLICSHARE_DIR"@, home)
            &&& dirs.documents == dir_named(file, "XDG_DOCUMENTS_DIR"@, home)
            &&& dirs.music == dir_named(file, "XDG_MUSIC_DIR"@, home)
            &&& dirs.pictures == dir_named(file, "XDG_PICTURES_DIR"@, home)
            &&& dirs.videos == dir_named(file, "XDG_VIDEOS_DIR"@, home)
        }),
        dir_named(Seq::empty(), key, home) is None,
        dir_named(file.push(line), key, home) == (match dir_assignment(line, home) {
            Some((k, path)) if k == key => Some(path),
            _ => dir_named(file, key, home),
        }),
{
    assert(file.push(line).drop_last() =~= file);
}

/// A line assigns a quoted path to a key. A path that begins with `$HOME`
/// begins with the home directory; any other is taken as it stands. What is
/// not quoted, or stands behind `#`, assigns nothing.
pub proof fn assignments_are_quoted(
    line: Seq<char>,
    key: Seq<char>,
    value: Seq<char>,
    inner: Seq<char>,
    home: Seq<u8>,
)
    requires
        trimmed(line) == key + seq!['='] + value,
        !key.contains('='),
        key.len() > 0,
    ensures
        key[0] == '#' ==> dir_assignment(line, home) is None,
        key[0] != '#' && trimmed(value) == seq!['"'] + ("$HOME"@ + inner) + seq!['"']
            && home.len() > 0 ==> dir_assignment(line, home) == Some(
            (trimmed(key), home + encode_utf8(inner)),
        ),
        key[0] != '#' && trimmed(value) == seq!['"'] + inner + seq!['"']
            && !"$HOME"@.is_prefix_of(inner) && encode_utf8(inner).len() > 0 ==> dir_assignment(
            line,
            home,
        ) == Some((trimmed(key), encode_utf8(inner))),
        trimmed(value).len() == 0 || trimmed(value)[0] != '"' || trimmed(value).last() != '"'
            ==> dir_assignment(line, home) is None,
{
    reveal_strlit("$HOME");
    cuts_are_at_the_first(key, '=', value);
    let text = trimmed(line);
    assert(text[0] == key[0]);
    let long = "$HOME"@ + inner;
    assert(long.take(5) =~= "$HOME"@);
    assert(long.skip(5) =~= inner);
    let (a, b) = (seq!['"'] + long + seq!['"'], seq!['"'] + inner + seq!['"']);
    assert(a.subrange(1, a.len() - 1) =~= long);
    assert(b.subrange(1, b.len() - 1) =~= inner);
}

/// The row of each directory that is known, the row of each bookmark and of
/// each server: their labels, where they lead, and what they are. The rows of
/// the directories stand between home and the bookmarks, in a fixed order.
pub proof fn rows_lead_where_they_say(
    home: Seq<u8>,
    dirs: UserDirsView,
    list: Seq<BookmarkView>,
    servers: Seq<SavedServer>,
    path: Seq<u8>,
    i: int,
)
    ensures
        ({
            let none = UserDirsView {
                desktop: None,
                download: None,
                templates: None,
                public_share: None,
                documents: None,
                music: None,
                pictures: None,
                videos: None,
            };
            let second = |d: UserDirsView| place_rows(home, d, list, servers)[1];
            let local = LocationView { scheme: "file"@, authority: None, path };
            &&& second(UserDirsView { desktop: Some(path), ..dirs }) == (PlaceView {
                label: "Desktop"@,
                location: local,
                kind: PlaceKind::Desktop,
            })
            &&& second(UserDirsView { desktop: None, download: Some(path), ..dirs }) == (
            PlaceView { label: "Downloads"@, location: local, kind: PlaceKind::Downloads })
            &&& second(
                UserDirsView { desktop: None, download: None, documents: Some(path), ..dirs },
            ) == (PlaceView {
                label: "Documents"@,
                location: local,
                kind: PlaceKind::Documents,
            })
            &&& second(UserDirsView { music: Some(path), pictures: dirs.pictures, ..none }) == (
            PlaceView { label: "Music"@, location: local, kind: PlaceKind::Music })
            &&& second(UserDirsView { pictures: Some(path), videos: dirs.videos, ..none }) == (
            PlaceView { label: "Pictures"@, location: local, kind: PlaceKind::Pictures })
            &&& second(UserDirsView { videos: Some(path), ..none }) == (PlaceView {
                label: "Videos"@,
                location: local,
                kind: PlaceKind::Videos,
            })
            &&& 0 <= i < list.len() ==> place_rows(home, none, list, servers)[1 + i] == (
            PlaceView {
                label: list[i].label,
                location: list[i].location,
                kind: PlaceKind::Bookmark,
            })
            &&& place_rows(home, none, list, servers)[1 + list.len() as int] == (PlaceView {
                label: "Trash"@,
                location: LocationView {
                    scheme: "trash"@,
                    authority: None,
                    path: seq![0x2Fu8],
                },
                kind: PlaceKind::Trash,
            })
            &&& 0 <= i < servers.len() ==> place_rows(home, none, list, servers)[2 + list.len() as int
                + i] == (PlaceView {
                label: servers[i].name@,
                location: parsed_location(servers[i].uri@),
                kind: PlaceKind::Server,
            })
        }),
{
    reveal_strlit("file");
    assert("file"@ =~= file_scheme());
}

/// A bookmark without a label goes by the last name of its path.
pub proof fn bookmarks_without_a_label_go_by_their_path(line: Seq<char>, uri: Seq<char>)
    requires
        trimmed(line) == "file://"@ + uri,
        !uri.contains(' '),
    ensures
        ({
            let path = unescaped(encode_utf8(uri));
            bookmark_on(line) == Some(
                BookmarkView {
                    label: match file_name_of(path) {
                        Some(name) => shown(name),
                        None => shown(path),
                    },
                    location: LocationView { scheme: "file"@, authority: None, path },
                },
            )
        }),
{
    reveal_strlit("file://");
    reveal_strlit("file");
    assert("file"@ =~= file_scheme());
    let text = trimmed(line);
    assert(!text.contains(' ')) by {
        if text.contains(' ') {
            let k = choose|k: int| 0 <= k < text.len() && text[k] == ' ';
            if k >= 7 {
                assert(uri[k - 7] == ' ');
            }
        }
    }
    cuts_are_at_the_first(text, ' ', Seq::empty());
    assert(text.take(7) =~= "file://"@);
    assert(text.skip(7) =~= uri);
}

/// Lines of another form hold no bookmark, and every other line holds one.
pub proof fn other_lines_hold_no_bookmark(file: Seq<Seq<char>>, line: Seq<char>)
    ensures
        !"file://"@.is_prefix_of(trimmed(line)) ==> bookmark_on(line) is None,
        bookmark_on(line) is None ==> bookmarks_of(file.push(line)) == bookmarks_of(file),
        bookmark_on(line) matches Some(b) ==> bookmarks_of(file.push(line)) == bookmarks_of(
            file,
        ).push(b),
        bookmarks_of(Seq::empty()).len() == 0,
{
    reveal_strlit("file://");
    assert(file.push(line).drop_last() =~= file);
    let text = trimmed(line);
    find_props(text, ' ');
    if let Some((uri, label)) = cut(text, ' ') {
        if "file://"@.is_prefix_of(uri) {
            assert(uri.take(7) =~= text.take(7));
        }
    }
}

/// Where the configuration of the user is: where its variable says, else
/// below home.
pub proof fn the_configuration_is_below_home(set: Seq<u8>, home: Seq<u8>)
    requires
        set.len() > 0,
    ensures
        config_home_of(Some(set), home) == set,
        config_home_of(None, home) == joined(home, encode_utf8(".config"@)),
        config_home_of(Some(Seq::empty()), home) == joined(home, encode_utf8(".config"@)),
{
}

} // verus!
