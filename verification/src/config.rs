//! `files.toml`, the configuration.
//!
//! Only a text that is no TOML at all is an error. Every lesser problem
//! concerns one setting: it is worded as a warning, that setting falls back
//! to its default, and every other setting is kept.
//!
//! The directory is the one given on the command line, else
//! `$SAOLA_CONFIG_DIR`, else `$XDG_CONFIG_HOME/saola`, else
//! `~/.config/saola`; a variable set to nothing counts as unset.
use crate::document::{
    TomlModel, TomlTable, TomlValue, lookup, read_document, toml_document, value_model,
    values_model, values_model_at,
};
use crate::path::{FsPath, joined, opt_path, opt_vec};
use crate::text::{bytes_of, copy_of, opt_text, same_text, shown, texts};
use vstd::prelude::*;
use vstd::string::*;
use vstd::utf8::*;
use vstd::view::View as _;

verus! {

/// The largest file to make a thumbnail of, in MiB, where nothing else is
/// set.
pub const DEFAULT_THUMBNAIL_MAX_MB: u64 = 64;

/// Which ground the window is drawn on.
#[derive(Debug, Clone, Copy, PartialEq, Eq, Structural)]
pub enum WindowSurface {
    Paper,
    Ink,
}

/// How a directory is presented.
#[derive(Debug, Clone, Copy, PartialEq, Eq, Structural)]
pub enum View {
    List,
    Grid,
}

/// Which column a directory is sorted by.
#[derive(Debug, Clone, Copy, PartialEq, Eq, Structural)]
pub enum SortKey {
    Name,
    Size,
    Modified,
    Type,
}

impl Default for WindowSurface {
    fn default() -> (r: Self)
        ensures
            r == WindowSurface::Paper,
    {
        WindowSurface::Paper
    }
}

impl Default for View {
    fn default() -> (r: Self)
        ensures
            r == View::List,
    {
        View::List
    }
}

impl Default for SortKey {
    fn default() -> (r: Self)
        ensures
            r == SortKey::Name,
    {
        SortKey::Name
    }
}

/// The surface that a text names.
pub open spec fn surface_named(s: Seq<char>) -> Option<WindowSurface> {
    if s == "paper"@ {
        Some(WindowSurface::Paper)
    } else if s == "ink"@ {
        Some(WindowSurface::Ink)
    } else {
        None
    }
}

/// The view that a text names.
pub open spec fn view_named(s: Seq<char>) -> Option<View> {
    if s == "list"@ {
        Some(View::List)
    } else if s == "grid"@ {
        Some(View::Grid)
    } else {
        None
    }
}

/// The sort key that a text names.
pub open spec fn sort_named(s: Seq<char>) -> Option<SortKey> {
    if s == "name"@ {
        Some(SortKey::Name)
    } else if s == "size"@ {
        Some(SortKey::Size)
    } else if s == "modified"@ {
        Some(SortKey::Modified)
    } else if s == "type"@ {
        Some(SortKey::Type)
    } else {
        None
    }
}

impl WindowSurface {
    /// The surface that a text names.
    pub fn parse(value: &str) -> (r: Option<Self>)
        ensures
            r == surface_named(value@),
    {
        if same_text(value, "paper") {
            Some(WindowSurface::Paper)
        } else if same_text(value, "ink") {
            Some(WindowSurface::Ink)
        } else {
            None
        }
    }
}

impl View {
    /// The view that a text names.
    pub fn parse(value: &str) -> (r: Option<Self>)
        ensures
            r == view_named(value@),
    {
        if same_text(value, "list") {
            Some(View::List)
        } else if same_text(value, "grid") {
            Some(View::Grid)
        } else {
            None
        }
    }
}

impl SortKey {
    /// The sort key that a text names.
    pub fn parse(value: &str) -> (r: Option<Self>)
        ensures
            r == sort_named(value@),
    {
        if same_text(value, "name") {
            Some(SortKey::Name)
        } else if same_text(value, "size") {
            Some(SortKey::Size)
        } else if same_text(value, "modified") {
            Some(SortKey::Modified)
        } else if same_text(value, "type") {
            Some(SortKey::Type)
        } else {
            None
        }
    }
}

/// A command of the user's own for the context menu. Without types or schemes
/// it applies everywhere.
#[derive(Debug, PartialEq, Eq)]
pub struct CustomAction {
    pub name: String,
    /// The command line to run.
    pub command: String,
    pub mimetypes: Vec<String>,
    pub schemes: Vec<String>,
}

/// The model of a [`CustomAction`].
#[verifier::ext_equal]
pub struct ActionModel {
    pub name: Seq<char>,
    pub command: Seq<char>,
    pub mimetypes: Seq<Seq<char>>,
    pub schemes: Seq<Seq<char>>,
}

impl vstd::view::View for CustomAction {
    type V = ActionModel;

    open spec fn view(&self) -> ActionModel {
        ActionModel {
            name: self.name@,
            command: self.command@,
            mimetypes: texts(self.mimetypes@),
            schemes: texts(self.schemes@),
        }
    }
}

/// The views of a list of actions.
pub open spec fn action_models(v: Seq<CustomAction>) -> Seq<ActionModel> {
    Seq::new(v.len(), |i: int| v[i]@)
}

/// A saved remote location.
#[derive(Debug, PartialEq, Eq)]
pub struct SavedServer {
    pub name: String,
    pub uri: String,
}

/// The model of a [`SavedServer`].
#[verifier::ext_equal]
pub struct ServerModel {
    pub name: Seq<char>,
    pub uri: Seq<char>,
}

impl vstd::view::View for SavedServer {
    type V = ServerModel;

    open spec fn view(&self) -> ServerModel {
        ServerModel { name: self.name@, uri: self.uri@ }
    }
}

/// The views of a list of servers.
pub open spec fn server_models(v: Seq<SavedServer>) -> Seq<ServerModel> {
    Seq::new(v.len(), |i: int| v[i]@)
}

/// The settings.
#[derive(Debug, PartialEq, Eq)]
pub struct Config {
    /// The terminal to run things in.
    pub terminal: Option<String>,
    pub surface: WindowSurface,
    pub view: View,
    pub sort: SortKey,
    pub sort_descending: bool,
    pub show_hidden: bool,
    pub thumbnails: bool,
    pub thumbnail_max_mb: u64,
    pub confirm_empty_trash: bool,
    pub actions: Vec<CustomAction>,
    pub servers: Vec<SavedServer>,
}

/// The model of a [`Config`].
#[verifier::ext_equal]
pub struct ConfigModel {
    pub terminal: Option<Seq<char>>,
    pub surface: WindowSurface,
    pub view: View,
    pub sort: SortKey,
    pub sort_descending: bool,
    pub show_hidden: bool,
    pub thumbnails: bool,
    pub thumbnail_max_mb: u64,
    pub confirm_empty_trash: bool,
    pub actions: Seq<ActionModel>,
    pub servers: Seq<ServerModel>,
}

impl vstd::view::View for Config {
    type V = ConfigModel;

    open spec fn view(&self) -> ConfigModel {
        ConfigModel {
            terminal: opt_text(self.terminal),
            surface: self.surface,
            view: self.view,
            sort: self.sort,
            sort_descending: self.sort_descending,
            show_hidden: self.show_hidden,
            thumbnails: self.thumbnails,
            thumbnail_max_mb: self.thumbnail_max_mb,
            confirm_empty_trash: self.confirm_empty_trash,
            actions: action_models(self.actions@),
            servers: server_models(self.servers@),
        }
    }
}

/// The settings where nothing is set.
pub open spec fn default_config() -> ConfigModel {
    ConfigModel {
        terminal: None,
        surface: WindowSurface::Paper,
        view: View::List,
        sort: SortKey::Name,
        sort_descending: false,
        show_hidden: false,
        thumbnails: true,
        thumbnail_max_mb: DEFAULT_THUMBNAIL_MAX_MB,
        confirm_empty_trash: true,
        actions: Seq::empty(),
        servers: Seq::empty(),
    }
}

impl Default for Config {
    fn default() -> (r: Self)
        ensures
            r@ == default_config(),
    {
        let r = Config {
            terminal: None,
            surface: WindowSurface::Paper,
            view: View::List,
            sort: SortKey::Name,
            sort_descending: false,
            show_hidden: false,
            thumbnails: true,
            thumbnail_max_mb: DEFAULT_THUMBNAIL_MAX_MB,
            confirm_empty_trash: true,
            actions: Vec::new(),
            servers: Vec::new(),
        };
        assert(r@ =~= default_config());
        r
    }
}

/// The text is no TOML document; the message says why.
#[derive(Debug)]
pub struct ConfigError {
    pub message: String,
}

impl ConfigError {
    /// Why the text is no TOML document.
    pub fn to_string(&self) -> (r: String)
        ensures
            r@ == self.message@,
    {
        self.message.clone()
    }
}

// ---------------------------------------------------------------------------
// What a document says
// ---------------------------------------------------------------------------

/// The entries of a table.
pub type TableModel = Seq<(Seq<char>, TomlModel)>;

/// A string setting; any other value counts as absent.
pub open spec fn text_at(t: TableModel, key: Seq<char>) -> Option<Seq<char>> {
    match lookup(t, key) {
        Some(TomlModel::Str(s)) => Some(s),
        _ => None,
    }
}

/// A boolean setting.
pub open spec fn bool_at(t: TableModel, key: Seq<char>) -> Option<bool> {
    match lookup(t, key) {
        Some(TomlModel::Bool(b)) => Some(b),
        _ => None,
    }
}

/// A setting that is a number of at least zero.
pub open spec fn count_at(t: TableModel, key: Seq<char>) -> Option<u64> {
    match lookup(t, key) {
        Some(TomlModel::Int(n)) => if n >= 0 {
            Some(n as u64)
        } else {
            None
        },
        _ => None,
    }
}

/// The tables among the values of an array, in order.
pub open spec fn tables_in(a: Seq<TomlModel>) -> Seq<TableModel>
    decreases a.len(),
{
    if a.len() == 0 {
        Seq::empty()
    } else {
        match a.last() {
            TomlModel::Table(t) => tables_in(a.drop_last()).push(t),
            _ => tables_in(a.drop_last()),
        }
    }
}

/// The strings among the values of an array, in order.
pub open spec fn texts_in(a: Seq<TomlModel>) -> Seq<Seq<char>>
    decreases a.len(),
{
    if a.len() == 0 {
        Seq::empty()
    } else {
        match a.last() {
            TomlModel::Str(s) => texts_in(a.drop_last()).push(s),
            _ => texts_in(a.drop_last()),
        }
    }
}

/// The sections of a kind.
pub open spec fn sections_at(t: TableModel, section: Seq<char>) -> Seq<TableModel> {
    match lookup(t, section) {
        Some(TomlModel::Array(a)) => tables_in(a),
        _ => Seq::empty(),
    }
}

/// A list of strings.
pub open spec fn list_at(t: TableModel, key: Seq<char>) -> Seq<Seq<char>> {
    match lookup(t, key) {
        Some(TomlModel::Array(a)) => texts_in(a),
        _ => Seq::empty(),
    }
}

/// The action of a section; it needs a name and a command.
pub open spec fn action_of(t: TableModel) -> Option<ActionModel> {
    match (text_at(t, "name"@), text_at(t, "exec"@)) {
        (Some(name), Some(command)) => Some(
            ActionModel {
                name,
                command,
                mimetypes: list_at(t, "mimetypes"@),
                schemes: list_at(t, "schemes"@),
            },
        ),
        _ => None,
    }
}

/// The server of a section; it needs a name and an address.
pub open spec fn server_of(t: TableModel) -> Option<ServerModel> {
    match (text_at(t, "name"@), text_at(t, "uri"@)) {
        (Some(name), Some(uri)) => Some(ServerModel { name, uri }),
        _ => None,
    }
}

/// The actions of the sections that have one.
pub open spec fn actions_of(sections: Seq<TableModel>) -> Seq<ActionModel>
    decreases sections.len(),
{
    if sections.len() == 0 {
        Seq::empty()
    } else {
        match action_of(sections.last()) {
            Some(a) => actions_of(sections.drop_last()).push(a),
            None => actions_of(sections.drop_last()),
        }
    }
}

/// The servers of the sections that have one.
pub open spec fn servers_of(sections: Seq<TableModel>) -> Seq<ServerModel>
    decreases sections.len(),
{
    if sections.len() == 0 {
        Seq::empty()
    } else {
        match server_of(sections.last()) {
            Some(a) => servers_of(sections.drop_last()).push(a),
            None => servers_of(sections.drop_last()),
        }
    }
}

/// The settings of a document.
pub open spec fn config_of(t: TableModel) -> ConfigModel {
    ConfigModel {
        terminal: text_at(t, "terminal"@),
        surface: match text_at(t, "surface"@) {
            Some(s) => surface_named(s).unwrap_or(WindowSurface::Paper),
            None => WindowSurface::Paper,
        },
        view: match text_at(t, "view"@) {
            Some(s) => view_named(s).unwrap_or(View::List),
            None => View::List,
        },
        sort: match text_at(t, "sort"@) {
            Some(s) => sort_named(s).unwrap_or(SortKey::Name),
            None => SortKey::Name,
        },
        sort_descending: bool_at(t, "sort-descending"@).unwrap_or(false),
        show_hidden: bool_at(t, "show-hidden"@).unwrap_or(false),
        thumbnails: bool_at(t, "thumbnails"@).unwrap_or(true),
        thumbnail_max_mb: count_at(t, "thumbnail-max-mb"@).unwrap_or(DEFAULT_THUMBNAIL_MAX_MB),
        confirm_empty_trash: bool_at(t, "confirm-empty-trash"@).unwrap_or(true),
        actions: actions_of(sections_at(t, "action"@)),
        servers: servers_of(sections_at(t, "server"@)),
    }
}

// ---------------------------------------------------------------------------
// What a document gets wrong
// ---------------------------------------------------------------------------

/// The warning about a text that names no option.
pub open spec fn unrecognized(knob: Seq<char>, value: Seq<char>) -> Seq<char> {
    "files.toml: unrecognized "@ + knob + " \""@ + value + "\" — using default"@
}

/// The warning about a setting that is no boolean.
pub open spec fn not_a_bool(knob: Seq<char>) -> Seq<char> {
    "files.toml: "@ + knob + " must be true or false — using default"@
}

/// The warning about a setting that is no count.
pub open spec fn not_a_count(knob: Seq<char>) -> Seq<char> {
    "files.toml: "@ + knob + " must be a non-negative integer — using default"@
}

/// The warning about a section written as something else.
pub open spec fn not_a_section(section: Seq<char>) -> Seq<char> {
    "files.toml: "@ + section + " must be written as [["@ + section + "]] sections — ignoring"@
}

/// The beginning of a warning about a named section.
pub open spec fn section_label(section: Seq<char>, name: Seq<char>) -> Seq<char> {
    "files.toml: [["@ + section + "]] \""@ + name + "\""@
}

/// The warnings about a setting that names an option.
pub open spec fn option_warnings(t: TableModel, knob: Seq<char>, known: bool) -> Seq<Seq<char>> {
    match text_at(t, knob) {
        Some(s) => if known {
            Seq::empty()
        } else {
            seq![unrecognized(knob, s)]
        },
        None => Seq::empty(),
    }
}

/// The warnings about a boolean setting.
pub open spec fn bool_warnings(t: TableModel, knob: Seq<char>) -> Seq<Seq<char>> {
    if lookup(t, knob) is Some && bool_at(t, knob) is None {
        seq![not_a_bool(knob)]
    } else {
        Seq::empty()
    }
}

/// The warnings about a count.
pub open spec fn count_warnings(t: TableModel, knob: Seq<char>) -> Seq<Seq<char>> {
    if lookup(t, knob) is Some && count_at(t, knob) is None {
        seq![not_a_count(knob)]
    } else {
        Seq::empty()
    }
}

/// A warning for each value of an array that is no string.
pub open spec fn member_warnings(a: Seq<TomlModel>, warning: Seq<char>) -> Seq<Seq<char>>
    decreases a.len(),
{
    if a.len() == 0 {
        Seq::empty()
    } else {
        match a.last() {
            TomlModel::Str(_) => member_warnings(a.drop_last(), warning),
            _ => member_warnings(a.drop_last(), warning).push(warning),
        }
    }
}

/// The warnings about a list of strings.
pub open spec fn list_warnings(
    t: TableModel,
    section: Seq<char>,
    name: Seq<char>,
    field: Seq<char>,
) -> Seq<Seq<char>> {
    let label = section_label(section, name) + ": "@ + field;
    match lookup(t, field) {
        None => Seq::empty(),
        Some(TomlModel::Array(a)) => member_warnings(
            a,
            label + " entries must be strings — skipping one"@,
        ),
        Some(_) => seq![label + " must be an array of strings — ignoring it"@],
    }
}

/// The warnings about the way a kind of section is written.
pub open spec fn section_warnings(t: TableModel, section: Seq<char>) -> Seq<Seq<char>> {
    match lookup(t, section) {
        None => Seq::empty(),
        Some(TomlModel::Array(_)) => Seq::empty(),
        Some(_) => seq![not_a_section(section)],
    }
}

/// The warnings about one action.
pub open spec fn action_warnings(t: TableModel) -> Seq<Seq<char>> {
    match text_at(t, "name"@) {
        None => seq!["files.toml: an [[action]] is missing its name — skipping it"@],
        Some(name) => match text_at(t, "exec"@) {
            None => seq![section_label("action"@, name) + " has no exec — skipping it"@],
            Some(_) => list_warnings(t, "action"@, name, "mimetypes"@) + list_warnings(
                t,
                "action"@,
                name,
                "schemes"@,
            ),
        },
    }
}

/// The warnings about one server.
pub open spec fn server_warnings(t: TableModel) -> Seq<Seq<char>> {
    match text_at(t, "name"@) {
        None => seq!["files.toml: a [[server]] is missing its name — skipping it"@],
        Some(name) => match text_at(t, "uri"@) {
            None => seq![section_label("server"@, name) + " has no uri — skipping it"@],
            Some(_) => Seq::empty(),
        },
    }
}

/// The warnings about every action.
pub open spec fn actions_warnings(sections: Seq<TableModel>) -> Seq<Seq<char>>
    decreases sections.len(),
{
    if sections.len() == 0 {
        Seq::empty()
    } else {
        actions_warnings(sections.drop_last()) + action_warnings(sections.last())
    }
}

/// The warnings about every server.
pub open spec fn servers_warnings(sections: Seq<TableModel>) -> Seq<Seq<char>>
    decreases sections.len(),
{
    if sections.len() == 0 {
        Seq::empty()
    } else {
        servers_warnings(sections.drop_last()) + server_warnings(sections.last())
    }
}

/// Whether the text at a key, if any, names an option.
pub open spec fn names_surface(t: TableModel) -> bool {
    text_at(t, "surface"@) matches Some(s) ==> surface_named(s) is Some
}

/// Whether the text at a key, if any, names an option.
pub open spec fn names_view(t: TableModel) -> bool {
    text_at(t, "view"@) matches Some(s) ==> view_named(s) is Some
}

/// Whether the text at a key, if any, names an option.
pub open spec fn names_sort(t: TableModel) -> bool {
    text_at(t, "sort"@) matches Some(s) ==> sort_named(s) is Some
}

/// Every warning about a document, in the order of the settings.
pub open spec fn warnings_of(t: TableModel) -> Seq<Seq<char>> {
    option_warnings(t, "surface"@, names_surface(t)) + option_warnings(t, "view"@, names_view(t))
        + option_warnings(t, "sort"@, names_sort(t)) + bool_warnings(t, "sort-descending"@)
        + bool_warnings(t, "show-hidden"@) + bool_warnings(t, "thumbnails"@) + count_warnings(
        t,
        "thumbnail-max-mb"@,
    ) + bool_warnings(t, "confirm-empty-trash"@) + section_warnings(t, "action"@)
        + actions_warnings(sections_at(t, "action"@)) + section_warnings(t, "server"@)
        + servers_warnings(sections_at(t, "server"@))
}

// ---------------------------------------------------------------------------
// Reading a document
// ---------------------------------------------------------------------------

fn warn(out: &mut Vec<String>, message: String)
    ensures
        texts(final(out)@) == texts(old(out)@).push(message@),
{
    out.push(message);
    assert(texts(out@) =~= texts(old(out)@).push(message@));
}

fn read_str<'a>(t: &'a TomlTable, key: &str) -> (r: Option<&'a String>)
    ensures
        match r {
            Some(s) => text_at(t@, key@) == Some(s@),
            None => text_at(t@, key@) is None,
        },
{
    match t.get(key) {
        Some(TomlValue::Str(s)) => Some(s),
        _ => None,
    }
}

fn read_bool(t: &TomlTable, key: &str, out: &mut Vec<String>) -> (r: Option<bool>)
    ensures
        r == bool_at(t@, key@),
        texts(final(out)@) == texts(old(out)@) + bool_warnings(t@, key@),
{
    assert(texts(out@) + Seq::<Seq<char>>::empty() =~= texts(out@));
    match t.get(key) {
        Some(TomlValue::Bool(b)) => Some(*b),
        Some(_) => {
            let message = copy_of("files.toml: ").concat(key).concat(
                " must be true or false — using default",
            );
            warn(out, message);
            assert(texts(out@) =~= texts(old(out)@) + seq![not_a_bool(key@)]);
            None
        },
        None => None,
    }
}

fn read_u64(t: &TomlTable, key: &str, out: &mut Vec<String>) -> (r: Option<u64>)
    ensures
        r == count_at(t@, key@),
        texts(final(out)@) == texts(old(out)@) + count_warnings(t@, key@),
{
    assert(texts(out@) + Seq::<Seq<char>>::empty() =~= texts(out@));
    let found = match t.get(key) {
        None => return None,
        Some(TomlValue::Int(n)) => {
            if *n >= 0 {
                return Some(*n as u64);
            }
        },
        Some(_) => {},
    };
    let message = copy_of("files.toml: ").concat(key).concat(
        " must be a non-negative integer — using default",
    );
    warn(out, message);
    assert(texts(out@) =~= texts(old(out)@) + seq![not_a_count(key@)]);
    None
}

fn warn_unrecognized(knob: &str, value: &str, out: &mut Vec<String>)
    ensures
        texts(final(out)@) == texts(old(out)@) + seq![unrecognized(knob@, value@)],
{
    let message = copy_of("files.toml: unrecognized ").concat(knob).concat(" \"").concat(
        value,
    ).concat("\" — using default");
    warn(out, message);
    assert(texts(out@) =~= texts(old(out)@) + seq![unrecognized(knob@, value@)]);
}

fn label(section: &str, name: &str) -> (r: String)
    ensures
        r@ == section_label(section@, name@),
{
    copy_of("files.toml: [[").concat(section).concat("]] \"").concat(name).concat("\"")
}

fn read_str_list(
    t: &TomlTable,
    section: &str,
    name: &str,
    field: &str,
    out: &mut Vec<String>,
) -> (r: Vec<String>)
    ensures
        texts(r@) == list_at(t@, field@),
        texts(final(out)@) == texts(old(out)@) + list_warnings(t@, section@, name@, field@),
{
    let mut list: Vec<String> = Vec::new();
    assert(texts(list@) =~= Seq::empty());
    assert(texts(out@) + Seq::<Seq<char>>::empty() =~= texts(out@));
    let prefix = label(section, name).concat(": ").concat(field);
    match t.get(field) {
        None => list,
        Some(TomlValue::Array(a)) => {
            let ghost all = values_model(a@);
            let ghost warning = prefix@ + " entries must be strings — skipping one"@;
            let ghost start = texts(out@);
            proof {
                values_model_at(a@);
                assert(all.take(0) =~= Seq::empty());
            }
            for i in 0..a.len()
                invariant
                    all == values_model(a@),
                    all.len() == a@.len(),
                    forall|j: int| 0 <= j < all.len() ==> (#[trigger] all[j]) == value_model(a@[j]),
                    warning == prefix@ + " entries must be strings — skipping one"@,
                    texts(list@) == texts_in(all.take(i as int)),
                    texts(out@) == start + member_warnings(all.take(i as int), warning),
            {
                let ghost before = texts(list@);
                proof {
                    assert(all.take(i + 1).drop_last() =~= all.take(i as int));
                    assert(all.take(i + 1).last() == all[i as int]);
                }
                match &a[i] {
                    TomlValue::Str(s) => {
                        list.push(s.clone());
                        assert(texts(list@) =~= before.push(s@));
                    },
                    _ => {
                        let message = prefix.clone().concat(
                            " entries must be strings — skipping one",
                        );
                        warn(out, message);
                        assert(texts(out@) =~= start + member_warnings(all.take(i + 1), warning));
                    },
                }
            }
            assert(all.take(all.len() as int) =~= all);
            list
        },
        Some(_) => {
            warn(out, prefix.concat(" must be an array of strings — ignoring it"));
            assert(texts(out@) =~= texts(old(out)@) + list_warnings(
                t@,
                section@,
                name@,
                field@,
            ));
            list
        },
    }
}

fn warn_about_section(t: &TomlTable, section: &str, out: &mut Vec<String>)
    ensures
        texts(final(out)@) == texts(old(out)@) + section_warnings(t@, section@),
{
    assert(texts(out@) + Seq::<Seq<char>>::empty() =~= texts(out@));
    match t.get(section) {
        None => {},
        Some(TomlValue::Array(_)) => {},
        Some(_) => {
            let message = copy_of("files.toml: ").concat(section).concat(
                " must be written as [[",
            ).concat(section).concat("]] sections — ignoring");
            warn(out, message);
            assert(texts(out@) =~= texts(old(out)@) + seq![not_a_section(section@)]);
        },
    }
}

fn read_action(t: &TomlTable, out: &mut Vec<String>) -> (r: Option<CustomAction>)
    ensures
        (match r {
            Some(a) => Some(a@),
            None => None,
        }) == action_of(t@),
        texts(final(out)@) == texts(old(out)@) + action_warnings(t@),
{
    let ghost start = texts(out@);
    let name = match read_str(t, "name") {
        Some(n) => n.clone(),
        None => {
            warn(out, copy_of("files.toml: an [[action]] is missing its name — skipping it"));
            assert(texts(out@) =~= start + action_warnings(t@));
            return None;
        },
    };
    let command = match read_str(t, "exec") {
        Some(e) => e.clone(),
        None => {
            warn(out, label("action", name.as_str()).concat(" has no exec — skipping it"));
            assert(texts(out@) =~= start + action_warnings(t@));
            return None;
        },
    };
    let mimetypes = read_str_list(t, "action", name.as_str(), "mimetypes", out);
    let schemes = read_str_list(t, "action", name.as_str(), "schemes", out);
    assert(texts(out@) =~= start + action_warnings(t@));
    Some(CustomAction { name, command, mimetypes, schemes })
}

fn read_server(t: &TomlTable, out: &mut Vec<String>) -> (r: Option<SavedServer>)
    ensures
        (match r {
            Some(a) => Some(a@),
            None => None,
        }) == server_of(t@),
        texts(final(out)@) == texts(old(out)@) + server_warnings(t@),
{
    let ghost start = texts(out@);
    let name = match read_str(t, "name") {
        Some(n) => n.clone(),
        None => {
            warn(out, copy_of("files.toml: a [[server]] is missing its name — skipping it"));
            assert(texts(out@) =~= start + server_warnings(t@));
            return None;
        },
    };
    let uri = match read_str(t, "uri") {
        Some(u) => u.clone(),
        None => {
            warn(out, label("server", name.as_str()).concat(" has no uri — skipping it"));
            assert(texts(out@) =~= start + server_warnings(t@));
            return None;
        },
    };
    assert(texts(out@) =~= start + server_warnings(t@));
    Some(SavedServer { name, uri })
}

fn read_actions(t: &TomlTable, out: &mut Vec<String>) -> (r: Vec<CustomAction>)
    ensures
        action_models(r@) == actions_of(sections_at(t@, "action"@)),
        texts(final(out)@) == texts(old(out)@) + section_warnings(t@, "action"@)
            + actions_warnings(sections_at(t@, "action"@)),
{
    let mut list: Vec<CustomAction> = Vec::new();
    assert(action_models(list@) =~= Seq::empty());
    warn_about_section(t, "action", out);
    let ghost start = texts(out@);
    assert(start + Seq::<Seq<char>>::empty() =~= start);
    if let Some(TomlValue::Array(a)) = t.get("action") {
        let ghost all = values_model(a@);
        proof {
            values_model_at(a@);
            assert(all.take(0) =~= Seq::empty());
        }
        for i in 0..a.len()
            invariant
                all == values_model(a@),
                all.len() == a@.len(),
                forall|j: int| 0 <= j < all.len() ==> (#[trigger] all[j]) == value_model(a@[j]),
                action_models(list@) == actions_of(tables_in(all.take(i as int))),
                texts(out@) == start + actions_warnings(tables_in(all.take(i as int))),
        {
            let ghost before = action_models(list@);
            let ghost sections = tables_in(all.take(i as int));
            proof {
                assert(all.take(i + 1).drop_last() =~= all.take(i as int));
                assert(all.take(i + 1).last() == all[i as int]);
            }
            if let TomlValue::Table(section) = &a[i] {
                let found = read_action(section, out);
                proof {
                    let next = tables_in(all.take(i + 1));
                    assert(next == sections.push(section@));
                    assert(next.drop_last() =~= sections);
                    assert(texts(out@) =~= start + actions_warnings(next));
                }
                if let Some(action) = found {
                    list.push(action);
                    assert(action_models(list@) =~= before.push(action@));
                }
            }
        }
        assert(all.take(all.len() as int) =~= all);
    }
    list
}

fn read_servers(t: &TomlTable, out: &mut Vec<String>) -> (r: Vec<SavedServer>)
    ensures
        server_models(r@) == servers_of(sections_at(t@, "server"@)),
        texts(final(out)@) == texts(old(out)@) + section_warnings(t@, "server"@)
            + servers_warnings(sections_at(t@, "server"@)),
{
    let mut list: Vec<SavedServer> = Vec::new();
    assert(server_models(list@) =~= Seq::empty());
    warn_about_section(t, "server", out);
    let ghost start = texts(out@);
    assert(start + Seq::<Seq<char>>::empty() =~= start);
    if let Some(TomlValue::Array(a)) = t.get("server") {
        let ghost all = values_model(a@);
        proof {
            values_model_at(a@);
            assert(all.take(0) =~= Seq::empty());
        }
        for i in 0..a.len()
            invariant
                all == values_model(a@),
                all.len() == a@.len(),
                forall|j: int| 0 <= j < all.len() ==> (#[trigger] all[j]) == value_model(a@[j]),
                server_models(list@) == servers_of(tables_in(all.take(i as int))),
                texts(out@) == start + servers_warnings(tables_in(all.take(i as int))),
        {
            let ghost before = server_models(list@);
            let ghost sections = tables_in(all.take(i as int));
            proof {
                assert(all.take(i + 1).drop_last() =~= all.take(i as int));
                assert(all.take(i + 1).last() == all[i as int]);
            }
            if let TomlValue::Table(section) = &a[i] {
                let found = read_server(section, out);
                proof {
                    let next = tables_in(all.take(i + 1));
                    assert(next == sections.push(section@));
                    assert(next.drop_last() =~= sections);
                    assert(texts(out@) =~= start + servers_warnings(next));
                }
                if let Some(server) = found {
                    list.push(server);
                    assert(server_models(list@) =~= before.push(server@));
                }
            }
        }
        assert(all.take(all.len() as int) =~= all);
    }
    list
}

impl Config {
    fn read_surface(t: &TomlTable, out: &mut Vec<String>) -> (r: WindowSurface)
        ensures
            r == config_of(t@).surface,
            texts(final(out)@) == texts(old(out)@) + option_warnings(
                t@,
                "surface"@,
                names_surface(t@),
            ),
    {
        assert(texts(out@) + Seq::<Seq<char>>::empty() =~= texts(out@));
        match read_str(t, "surface") {
            Some(value) => match WindowSurface::parse(value.as_str()) {
                Some(s) => s,
                None => {
                    warn_unrecognized("surface", value.as_str(), out);
                    WindowSurface::Paper
                },
            },
            None => WindowSurface::Paper,
        }
    }

    fn read_view(t: &TomlTable, out: &mut Vec<String>) -> (r: View)
        ensures
            r == config_of(t@).view,
            texts(final(out)@) == texts(old(out)@) + option_warnings(t@, "view"@, names_view(t@)),
    {
        assert(texts(out@) + Seq::<Seq<char>>::empty() =~= texts(out@));
        match read_str(t, "view") {
            Some(value) => match View::parse(value.as_str()) {
                Some(s) => s,
                None => {
                    warn_unrecognized("view", value.as_str(), out);
                    View::List
                },
            },
            None => View::List,
        }
    }

    fn read_sort(t: &TomlTable, out: &mut Vec<String>) -> (r: SortKey)
        ensures
            r == config_of(t@).sort,
            texts(final(out)@) == texts(old(out)@) + option_warnings(t@, "sort"@, names_sort(t@)),
    {
        assert(texts(out@) + Seq::<Seq<char>>::empty() =~= texts(out@));
        match read_str(t, "sort") {
            Some(value) => match SortKey::parse(value.as_str()) {
                Some(s) => s,
                None => {
                    warn_unrecognized("sort", value.as_str(), out);
                    SortKey::Name
                },
            },
            None => SortKey::Name,
        }
    }

    /// The settings of a document, and the warnings about it.
    pub fn from_document(t: &TomlTable) -> (r: (Config, Vec<String>))
        ensures
            r.0@ == config_of(t@),
            texts(r.1@) == warnings_of(t@),
    {
        let mut out: Vec<String> = Vec::new();
        assert(texts(out@) =~= Seq::empty());
        let terminal = match read_str(t, "terminal") {
            Some(s) => Some(s.clone()),
            None => None,
        };
        let surface = Config::read_surface(t, &mut out);
        let view = Config::read_view(t, &mut out);
        let sort = Config::read_sort(t, &mut out);
        let sort_descending = read_bool(t, "sort-descending", &mut out).unwrap_or(false);
        let show_hidden = read_bool(t, "show-hidden", &mut out).unwrap_or(false);
        let thumbnails = read_bool(t, "thumbnails", &mut out).unwrap_or(true);
        let thumbnail_max_mb = read_u64(t, "thumbnail-max-mb", &mut out).unwrap_or(
            DEFAULT_THUMBNAIL_MAX_MB,
        );
        let confirm_empty_trash = read_bool(t, "confirm-empty-trash", &mut out).unwrap_or(true);
        let actions = read_actions(t, &mut out);
        let servers = read_servers(t, &mut out);
        let config = Config {
            terminal,
            surface,
            view,
            sort,
            sort_descending,
            show_hidden,
            thumbnails,
            thumbnail_max_mb,
            confirm_empty_trash,
            actions,
            servers,
        };
        assert(config@ =~= config_of(t@));
        assert(texts(out@) =~= warnings_of(t@));
        (config, out)
    }

    /// Reads the settings and the warnings about them.
    pub fn parse_with_warnings(contents: &str) -> (r: Result<(Config, Vec<String>), ConfigError>)
        ensures
            match toml_document(contents@) {
                Ok(t) => r is Ok && r->Ok_0.0@ == config_of(t) && texts(r->Ok_0.1@) == warnings_of(t),
                Err(message) => r is Err && r->Err_0.message@ == message,
            },
    {
        match read_document(contents) {
            Ok(t) => Ok(Config::from_document(&t)),
            Err(message) => Err(ConfigError { message }),
        }
    }

    /// Reads the settings. Only a text that is no TOML document is an error.
    pub fn parse(contents: &str) -> (r: Result<Config, ConfigError>)
        ensures
            match toml_document(contents@) {
                Ok(t) => r is Ok && r->Ok_0@ == config_of(t),
                Err(message) => r is Err && r->Err_0.message@ == message,
            },
    {
        match Config::parse_with_warnings(contents) {
            Ok((config, _)) => Ok(config),
            Err(e) => Err(e),
        }
    }

    /// The settings at start: those of the file, where there is one that can
    /// be read, and else the default ones. A text that is no TOML document
    /// gives the default settings and one warning, which names the file.
    pub fn load(path: Option<&FsPath>, contents: Option<String>) -> (r: (Config, Vec<String>))
        ensures
            match (path, contents) {
                (Some(p), Some(text)) => match toml_document(text@) {
                    Ok(t) => r.0@ == config_of(t) && texts(r.1@) == warnings_of(t),
                    Err(message) => r.0@ == default_config() && texts(r.1@) == seq![
                        shown(p@) + " is not valid TOML ("@ + message + ") — using defaults"@,
                    ],
                },
                _ => r.0@ == default_config() && r.1@.len() == 0,
            },
    {
        match (path, contents) {
            (Some(p), Some(text)) => match Config::parse_with_warnings(text.as_str()) {
                Ok(found) => found,
                Err(e) => {
                    let mut out: Vec<String> = Vec::new();
                    assert(texts(out@) =~= Seq::empty());
                    let message = p.display().concat(" is not valid TOML (").concat(
                        e.message.as_str(),
                    ).concat(") — using defaults");
                    warn(&mut out, message);
                    assert(texts(out@) =~= seq![message@]);
                    (Config::default(), out)
                },
            },
            _ => (Config::default(), Vec::new()),
        }
    }

    /// Where the configuration is, from the environment.
    pub fn resolve_path(
        cli: Option<&FsPath>,
        saola: Option<Vec<u8>>,
        xdg: Option<Vec<u8>>,
        home: Option<Vec<u8>>,
    ) -> (r: Option<FsPath>)
        ensures
            opt_path(r) == (match config_dir(opt_ref(cli), opt_vec(saola), opt_vec(xdg), opt_vec(home)) {
                Some(dir) => Some(joined(dir, encode_utf8("files.toml"@))),
                None => None,
            }),
    {
        match config_dir_from(cli, saola, xdg, home) {
            Some(dir) => {
                let name = bytes_of("files.toml");
                Some(dir.join_bytes(name.as_slice()))
            },
            None => None,
        }
    }
}

// ---------------------------------------------------------------------------
// The directory
// ---------------------------------------------------------------------------

/// The view of an optional borrowed path.
pub open spec fn opt_ref(o: Option<&FsPath>) -> Option<Seq<u8>> {
    match o {
        Some(p) => Some(p@),
        None => None,
    }
}

/// A variable set to nothing counts as unset.
pub open spec fn set_value(o: Option<Seq<u8>>) -> Option<Seq<u8>> {
    match o {
        Some(v) => if v.len() > 0 {
            Some(v)
        } else {
            None
        },
        None => None,
    }
}

/// The configuration directory.
pub open spec fn config_dir(
    cli: Option<Seq<u8>>,
    saola: Option<Seq<u8>>,
    xdg: Option<Seq<u8>>,
    home: Option<Seq<u8>>,
) -> Option<Seq<u8>> {
    match cli {
        Some(dir) => Some(dir),
        None => match set_value(saola) {
            Some(dir) => Some(dir),
            None => match set_value(xdg) {
                Some(dir) => Some(joined(dir, encode_utf8("saola"@))),
                None => match set_value(home) {
                    Some(dir) => Some(joined(dir, encode_utf8(".config/saola"@))),
                    None => None,
                },
            },
        },
    }
}

/// The configuration directory, from the command line and the environment.
pub fn config_dir_from(
    cli: Option<&FsPath>,
    saola: Option<Vec<u8>>,
    xdg: Option<Vec<u8>>,
    home: Option<Vec<u8>>,
) -> (r: Option<FsPath>)
    ensures
        opt_path(r) == config_dir(opt_ref(cli), opt_vec(saola), opt_vec(xdg), opt_vec(home)),
{
    if let Some(dir) = cli {
        return Some(dir.clone());
    }
    if let Some(dir) = saola {
        if dir.len() > 0 {
            return Some(FsPath::from_bytes(dir));
        }
    }
    if let Some(dir) = xdg {
        if dir.len() > 0 {
            let child = bytes_of("saola");
            return Some(FsPath::from_bytes(dir).join_bytes(child.as_slice()));
        }
    }
    if let Some(dir) = home {
        if dir.len() > 0 {
            let child = bytes_of(".config/saola");
            return Some(FsPath::from_bytes(dir).join_bytes(child.as_slice()));
        }
    }
    None
}

// ---------------------------------------------------------------------------
// Laws
// ---------------------------------------------------------------------------

/// An empty document gives the default settings, without a warning.
pub proof fn empty_document_is_all_defaults()
    ensures
        config_of(Seq::empty()) == default_config(),
        warnings_of(Seq::empty()) == Seq::<Seq<char>>::empty(),
{
    assert(config_of(Seq::empty()) =~= default_config());
    assert(warnings_of(Seq::empty()) =~= Seq::<Seq<char>>::empty());
}

/// Settings are independent: two documents that agree on a key agree on that
/// setting, whatever else they say and get wrong.
pub proof fn settings_are_independent(a: TableModel, b: TableModel)
    ensures
        ({
            let (x, y) = (config_of(a), config_of(b));
            &&& lookup(a, "terminal"@) == lookup(b, "terminal"@) ==> x.terminal == y.terminal
            &&& lookup(a, "surface"@) == lookup(b, "surface"@) ==> x.surface == y.surface
            &&& lookup(a, "view"@) == lookup(b, "view"@) ==> x.view == y.view
            &&& lookup(a, "sort"@) == lookup(b, "sort"@) ==> x.sort == y.sort
            &&& lookup(a, "sort-descending"@) == lookup(b, "sort-descending"@)
                ==> x.sort_descending == y.sort_descending
            &&& lookup(a, "show-hidden"@) == lookup(b, "show-hidden"@) ==> x.show_hidden
                == y.show_hidden
            &&& lookup(a, "thumbnails"@) == lookup(b, "thumbnails"@) ==> x.thumbnails
                == y.thumbnails
            &&& lookup(a, "thumbnail-max-mb"@) == lookup(b, "thumbnail-max-mb"@)
                ==> x.thumbnail_max_mb == y.thumbnail_max_mb
            &&& lookup(a, "confirm-empty-trash"@) == lookup(b, "confirm-empty-trash"@)
                ==> x.confirm_empty_trash == y.confirm_empty_trash
            &&& lookup(a, "action"@) == lookup(b, "action"@) ==> x.actions == y.actions
            &&& lookup(a, "server"@) == lookup(b, "server"@) ==> x.servers == y.servers
        }),
{
}

/// What a section adds to a list.
pub open spec fn one_or_none<T>(o: Option<T>) -> Seq<T> {
    match o {
        Some(x) => seq![x],
        None => Seq::empty(),
    }
}

/// A broken section is skipped, wherever it stands; the others survive in
/// order, and each that is not broken adds its action or its server.
pub proof fn broken_sections_are_skipped(
    before: Seq<TableModel>,
    section: TableModel,
    after: Seq<TableModel>,
)
    ensures
        actions_of(before.push(section) + after) == actions_of(before) + one_or_none(
            action_of(section),
        ) + actions_of(after),
        servers_of(before.push(section) + after) == servers_of(before) + one_or_none(
            server_of(section),
        ) + servers_of(after),
    decreases after.len(),
{
    let all = before.push(section) + after;
    if after.len() == 0 {
        assert(all =~= before.push(section));
        assert(all.drop_last() =~= before);
    } else {
        let rest = after.drop_last();
        broken_sections_are_skipped(before, section, rest);
        assert(all.drop_last() =~= before.push(section) + rest);
        assert(all.last() == after.last());
    }
    assert(actions_of(all) =~= actions_of(before) + one_or_none(action_of(section)) + actions_of(
        after,
    ));
    assert(servers_of(all) =~= servers_of(before) + one_or_none(server_of(section)) + servers_of(
        after,
    ));
}

/// A directory from the command line wins over the whole environment, and
/// empty variables change nothing.
pub proof fn command_line_wins(
    dir: Seq<u8>,
    saola: Option<Seq<u8>>,
    xdg: Option<Seq<u8>>,
    home: Option<Seq<u8>>,
)
    ensures
        config_dir(Some(dir), saola, xdg, home) == Some(dir),
        config_dir(None, Some(Seq::empty()), xdg, home) == config_dir(None, None, xdg, home),
        config_dir(None, saola, Some(Seq::empty()), home) == config_dir(None, saola, None, home),
        config_dir(None, saola, xdg, Some(Seq::empty())) == config_dir(None, saola, xdg, None),
{
}

/// The first value that a table gives a key is the one that counts.
pub proof fn keys_are_looked_up(t: TableModel, key: Seq<char>, i: int)
    requires
        0 <= i <= t.len(),
        forall|j: int| 0 <= j < i ==> (#[trigger] t[j]).0 != key,
        i < t.len() ==> t[i].0 == key,
    ensures
        i < t.len() ==> lookup(t, key) == Some(t[i].1),
        i == t.len() ==> lookup(t, key) is None,
    decreases t.len(),
{
    if i > 0 {
        assert(t[0].0 != key);
        let rest = t.skip(1);
        assert forall|j: int| 0 <= j < i - 1 implies (#[trigger] rest[j]).0 != key by {
            assert(rest[j] == t[j + 1]);
        }
        keys_are_looked_up(rest, key, i - 1);
    }
}

/// What each setting is: the value of its key, where that is of the right
/// kind, and else a default. Switches are off by default, but for thumbnails
/// and for asking before the trash is emptied; the largest file with a
/// thumbnail has 64 MiB.
pub proof fn settings_follow_their_keys(t: TableModel)
    ensures
        ({
            let c = config_of(t);
            &&& match lookup(t, "terminal"@) {
                Some(TomlModel::Str(s)) => c.terminal == Some(s),
                _ => c.terminal is None,
            }
            &&& match lookup(t, "sort-descending"@) {
                Some(TomlModel::Bool(b)) => c.sort_descending == b,
                _ => !c.sort_descending,
            }
            &&& match lookup(t, "show-hidden"@) {
                Some(TomlModel::Bool(b)) => c.show_hidden == b,
                _ => !c.show_hidden,
            }
            &&& match lookup(t, "thumbnails"@) {
                Some(TomlModel::Bool(b)) => c.thumbnails == b,
                _ => c.thumbnails,
            }
            &&& match lookup(t, "confirm-empty-trash"@) {
                Some(TomlModel::Bool(b)) => c.confirm_empty_trash == b,
                _ => c.confirm_empty_trash,
            }
            &&& match lookup(t, "thumbnail-max-mb"@) {
                Some(TomlModel::Int(n)) if n >= 0 => c.thumbnail_max_mb == n,
                _ => c.thumbnail_max_mb == 64,
            }
        }),
{
}

/// The options go by their names, and anything else falls back to the first
/// of them.
pub proof fn options_go_by_their_names(t: TableModel)
    ensures
        ({
            let c = config_of(t);
            let is = |key: Seq<char>, name: Seq<char>|
                lookup(t, key) == Some(TomlModel::Str(name));
            &&& c.surface == WindowSurface::Ink <==> is("surface"@, "ink"@)
            &&& c.view == View::Grid <==> is("view"@, "grid"@)
            &&& c.sort == SortKey::Size <==> is("sort"@, "size"@)
            &&& c.sort == SortKey::Modified <==> is("sort"@, "modified"@)
            &&& c.sort == SortKey::Type <==> is("sort"@, "type"@)
        }),
        forall|s: Seq<char>| #[trigger]
            surface_named(s) is Some <==> s == "paper"@ || s == "ink"@,
        forall|s: Seq<char>| #[trigger] view_named(s) is Some <==> s == "list"@ || s == "grid"@,
        forall|s: Seq<char>| #[trigger]
            sort_named(s) is Some <==> s == "name"@ || s == "size"@ || s == "modified"@ || s
                == "type"@,
        surface_named("paper"@) == Some(WindowSurface::Paper),
        view_named("list"@) == Some(View::List),
        sort_named("name"@) == Some(SortKey::Name),
{
    reveal_strlit("paper");
    reveal_strlit("ink");
    reveal_strlit("list");
    reveal_strlit("grid");
    reveal_strlit("name");
    reveal_strlit("size");
    reveal_strlit("modified");
    reveal_strlit("type");
    assert("name"@[0] == 'n' && "size"@[0] == 's' && "modified"@[0] == 'm' && "type"@[0] == 't');
    assert("paper"@[0] == 'p' && "ink"@[0] == 'i' && "list"@[0] == 'l' && "grid"@[0] == 'g');
}

/// A section gives an action if it names it and its command, and a server if
/// it names it and its address; the lists of an action are those strings that
/// its keys list.
pub proof fn sections_need_their_keys(t: TableModel, a: Seq<TomlModel>)
    ensures
        match (lookup(t, "name"@), lookup(t, "exec"@)) {
            (Some(TomlModel::Str(name)), Some(TomlModel::Str(command))) => action_of(
                t,
            ) matches Some(action) && action.name == name && action.command == command && (lookup(
                t,
                "mimetypes"@,
            ) == Some(TomlModel::Array(a)) ==> action.mimetypes == texts_in(a)) && (lookup(
                t,
                "schemes"@,
            ) == Some(TomlModel::Array(a)) ==> action.schemes == texts_in(a)),
            _ => action_of(t) is None,
        },
        match (lookup(t, "name"@), lookup(t, "uri"@)) {
            (Some(TomlModel::Str(name)), Some(TomlModel::Str(uri))) => server_of(t)
                matches Some(server) && server.name == name && server.uri == uri,
            _ => server_of(t) is None,
        },
        texts_in(a) == a.filter(|v: TomlModel| v is Str).map_values(|v: TomlModel| v->Str_0),
        tables_in(a) == a.filter(|v: TomlModel| v is Table).map_values(|v: TomlModel| v->Table_0),
    decreases a.len(),
{
    reveal(Seq::filter);
    if a.len() > 0 {
        sections_need_their_keys(t, a.drop_last());
    }
    assert(texts_in(a) =~= a.filter(|v: TomlModel| v is Str).map_values(
        |v: TomlModel| v->Str_0,
    ));
    assert(tables_in(a) =~= a.filter(|v: TomlModel| v is Table).map_values(
        |v: TomlModel| v->Table_0,
    ));
}

/// The sections of the two kinds stand under their names.
pub proof fn sections_stand_under_their_names(t: TableModel, a: Seq<TomlModel>)
    ensures
        lookup(t, "action"@) == Some(TomlModel::Array(a)) ==> config_of(t).actions == actions_of(
            tables_in(a),
        ),
        lookup(t, "server"@) == Some(TomlModel::Array(a)) ==> config_of(t).servers == servers_of(
            tables_in(a),
        ),
        !(lookup(t, "action"@) matches Some(TomlModel::Array(_))) ==> config_of(t).actions.len()
            == 0,
        !(lookup(t, "server"@) matches Some(TomlModel::Array(_))) ==> config_of(t).servers.len()
            == 0,
{
}

/// A setting of the wrong kind is warned about, once, and one of the right
/// kind or none is not.
pub proof fn wrong_settings_are_warned_about(t: TableModel, key: Seq<char>)
    ensures
        lookup(t, key) is None ==> bool_warnings(t, key).len() == 0 && count_warnings(t, key).len()
            == 0 && section_warnings(t, key).len() == 0,
        lookup(t, key) matches Some(v) ==> {
            &&& bool_warnings(t, key) == (if v is Bool {
                Seq::empty()
            } else {
                seq!["files.toml: "@ + key + " must be true or false — using default"@]
            })
            &&& count_warnings(t, key) == (if v is Int && v->Int_0 >= 0 {
                Seq::empty()
            } else {
                seq![
                    "files.toml: "@ + key
                        + " must be a non-negative integer — using default"@,
                ]
            })
            &&& section_warnings(t, key) == (if v is Array {
                Seq::empty()
            } else {
                seq![
                    "files.toml: "@ + key + " must be written as [["@ + key
                        + "]] sections — ignoring"@,
                ]
            })
        },
        forall|known: bool, s: Seq<char>|
            lookup(t, key) == Some(TomlModel::Str(s)) ==> #[trigger] option_warnings(t, key, known)
                == (if known {
                Seq::empty()
            } else {
                seq![#[trigger] unrecognized(key, s)]
            }),
        forall|s: Seq<char>| #[trigger]
            unrecognized(key, s) == "files.toml: unrecognized "@ + key + " \""@ + s
                + "\" — using default"@,
{
}

/// The warnings about the sections.
pub proof fn broken_sections_are_warned_about(t: TableModel, name: Seq<char>)
    ensures
        !(lookup(t, "name"@) is Some && lookup(t, "name"@)->0 is Str) ==> {
            &&& action_warnings(t) == seq![
                "files.toml: an [[action]] is missing its name — skipping it"@,
            ]
            &&& server_warnings(t) == seq![
                "files.toml: a [[server]] is missing its name — skipping it"@,
            ]
        },
        lookup(t, "name"@) == Some(TomlModel::Str(name)) ==> {
            &&& action_of(t) is None ==> action_warnings(t) == seq![
                "files.toml: [[action]] \""@ + name + "\" has no exec — skipping it"@,
            ]
            &&& server_of(t) is None ==> server_warnings(t) == seq![
                "files.toml: [[server]] \""@ + name + "\" has no uri — skipping it"@,
            ]
            &&& server_of(t) is Some ==> server_warnings(t).len() == 0
        },
{
    reveal_strlit("files.toml: [[");
    reveal_strlit("]] \"");
    reveal_strlit("\"");
    reveal_strlit("action");
    reveal_strlit("server");
    reveal_strlit("files.toml: [[action]] \"");
    reveal_strlit("files.toml: [[server]] \"");
    reveal_strlit(" has no exec — skipping it");
    reveal_strlit("\" has no exec — skipping it");
    reveal_strlit(" has no uri — skipping it");
    reveal_strlit("\" has no uri — skipping it");
    assert(section_label("action"@, name) + " has no exec — skipping it"@
        =~= "files.toml: [[action]] \""@ + name + "\" has no exec — skipping it"@);
    assert(section_label("server"@, name) + " has no uri — skipping it"@
        =~= "files.toml: [[server]] \""@ + name + "\" has no uri — skipping it"@);
}

/// Without a directory from the command line, the directory is the one that
/// the application's own variable names, else one below the directory of all
/// configuration, else one below home.
pub proof fn variables_name_the_directory(own: Seq<u8>, xdg: Seq<u8>, home: Seq<u8>)
    requires
        own.len() > 0,
        xdg.len() > 0,
        home.len() > 0,
    ensures
        forall|x: Option<Seq<u8>>, h: Option<Seq<u8>>| #[trigger]
            config_dir(None, Some(own), x, h) == Some(own),
        forall|h: Option<Seq<u8>>| #[trigger]
            config_dir(None, None, Some(xdg), h) == Some(joined(xdg, encode_utf8("saola"@))),
        config_dir(None, None, None, Some(home)) == Some(
            joined(home, encode_utf8(".config/saola"@)),
        ),
        config_dir(None, None, None, None) is None,
{
}

/// Every setting is checked, in a fixed order: the options, the switches and
/// the number as they stand in the file's description, then the sections.
pub proof fn every_setting_is_checked(t: TableModel, name: Seq<char>)
    ensures
        warnings_of(t) == option_warnings(
            t,
            "surface"@,
            text_at(t, "surface"@) matches Some(s) ==> surface_named(s) is Some,
        ) + option_warnings(
            t,
            "view"@,
            text_at(t, "view"@) matches Some(s) ==> view_named(s) is Some,
        ) + option_warnings(
            t,
            "sort"@,
            text_at(t, "sort"@) matches Some(s) ==> sort_named(s) is Some,
        ) + bool_warnings(t, "sort-descending"@) + bool_warnings(t, "show-hidden"@)
            + bool_warnings(t, "thumbnails"@) + count_warnings(t, "thumbnail-max-mb"@)
            + bool_warnings(t, "confirm-empty-trash"@) + section_warnings(t, "action"@)
            + actions_warnings(sections_at(t, "action"@)) + section_warnings(t, "server"@)
            + servers_warnings(sections_at(t, "server"@)),
        lookup(t, "name"@) == Some(TomlModel::Str(name)) && action_of(t) is Some
            ==> action_warnings(t) == list_warnings(t, "action"@, name, "mimetypes"@)
            + list_warnings(t, "action"@, name, "schemes"@),
{
}

/// The warnings about a list of an action: one for the whole of it where it
/// is no list, and one for each of its values that is no text.
pub proof fn wrong_lists_are_warned_about(
    t: TableModel,
    section: Seq<char>,
    name: Seq<char>,
    field: Seq<char>,
    a: Seq<TomlModel>,
    v: TomlModel,
    sections: Seq<TableModel>,
    s: TableModel,
)
    ensures
        ({
            let label = "files.toml: [["@ + section + "]] \""@ + name + "\""@ + ": "@ + field;
            let one = label + " entries must be strings — skipping one"@;
            &&& lookup(t, field) is None ==> list_warnings(t, section, name, field).len() == 0
            &&& lookup(t, field) == Some(TomlModel::Array(a)) ==> list_warnings(
                t,
                section,
                name,
                field,
            ) == member_warnings(a, one)
            &&& lookup(t, field) == Some(v) && !(v is Array) ==> list_warnings(
                t,
                section,
                name,
                field,
            ) == seq![label + " must be an array of strings — ignoring it"@]
            &&& v is Str ==> member_warnings(a.push(v), one) == member_warnings(a, one)
            &&& !(v is Str) ==> member_warnings(a.push(v), one) == member_warnings(a, one).push(
                one,
            )
            &&& member_warnings(Seq::empty(), one).len() == 0
        }),
        actions_warnings(sections.push(s)) == actions_warnings(sections) + action_warnings(s),
        servers_warnings(sections.push(s)) == servers_warnings(sections) + server_warnings(s),
        actions_warnings(Seq::empty()).len() == 0,
        servers_warnings(Seq::empty()).len() == 0,
{
    assert(a.push(v).drop_last() =~= a);
    assert(sections.push(s).drop_last() =~= sections);
}

} // verus!
