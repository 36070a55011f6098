//! Which application opens a file, and with what command line: desktop
//! entries, the association lists, the fields of a command, and the terminal.
use crate::order::{is_order, order_of, ordered};
use crate::path::{
    FsPath, file_name_bytes, file_name_of, joined, name_extension, opt_bytes, opt_path, opt_vec,
    parent_of, paths, split_name,
};
use crate::text::{
    byte_rows, bytes_of, chars_of, copy_bytes, copy_of, copy_texts, cut, cut_view, decode, decoded,
    has_text, is_space, is_text, is_white_space, lines, lines_of, opt_text, rows, same_bytes,
    same_text, shown, split, split_bytes, split_on, split_once, string_of, texts, trim, trimmed,
};
use vstd::prelude::*;
use vstd::slice::slice_subrange;
use vstd::utf8::*;

verus! {

// ---------------------------------------------------------------------------
// Grouped key files
// ---------------------------------------------------------------------------

/// Whether the lines that follow `file` belong to the group with this header:
/// it is the last header in `file`.
pub open spec fn in_group(file: Seq<Seq<char>>, header: Seq<char>) -> bool
    decreases file.len(),
{
    if file.len() == 0 {
        false
    } else {
        let line = trimmed(file.last());
        if line.len() > 0 && line[0] == '[' {
            line == header
        } else {
            in_group(file.drop_last(), header)
        }
    }
}

/// The two sides of the `=` on a line that is neither blank, nor a comment,
/// nor a header.
pub open spec fn sides(line: Seq<char>) -> Option<(Seq<char>, Seq<char>)> {
    let line = trimmed(line);
    if line.len() == 0 || line[0] == '#' || line[0] == '[' {
        None
    } else {
        cut(line, '=')
    }
}

/// The value that a group gives a key: the last one wins.
pub open spec fn group_value(file: Seq<Seq<char>>, header: Seq<char>, key: Seq<char>) -> Option<
    Seq<char>,
>
    decreases file.len(),
{
    if file.len() == 0 {
        None
    } else {
        let before = file.drop_last();
        match sides(file.last()) {
            Some((k, v)) if in_group(before, header) && trimmed(k) == key => Some(trimmed(v)),
            _ => group_value(before, header, key),
        }
    }
}

/// The items of a list separated by semicolons, without white space around
/// them and without empty ones.
pub open spec fn list_items(value: Seq<char>) -> Seq<Seq<char>> {
    named_items(split(value, ';'))
}

/// The items of a list that are not empty, without white space around them.
pub open spec fn named_items(pieces: Seq<Seq<char>>) -> Seq<Seq<char>>
    decreases pieces.len(),
{
    if pieces.len() == 0 {
        Seq::empty()
    } else {
        let rest = named_items(pieces.drop_last());
        let item = trimmed(pieces.last());
        if item.len() > 0 {
            rest.push(item)
        } else {
            rest
        }
    }
}

/// Whether a character is `lower`, a lower-case ASCII letter, in either case.
pub open spec fn is_letter(c: char, lower: char) -> bool {
    c == lower || c as int + 0x20 == lower as int
}

/// Whether a value says yes: `true`, in any mixture of cases.
pub open spec fn is_true(value: Seq<char>) -> bool {
    value.len() == 4 && is_letter(value[0], 't') && is_letter(value[1], 'r') && is_letter(
        value[2],
        'u',
    ) && is_letter(value[3], 'e')
}

fn says_true(value: &str) -> (r: bool)
    ensures
        r == is_true(value@),
{
    let cs = chars_of(value);
    cs.len() == 4 && (cs[0] == 't' || cs[0] == 'T') && (cs[1] == 'r' || cs[1] == 'R') && (cs[2]
        == 'u' || cs[2] == 'U') && (cs[3] == 'e' || cs[3] == 'E')
}

fn sides_of<'a>(line: &'a [char]) -> (r: Option<(&'a [char], &'a [char])>)
    ensures
        cut_view(r) == sides(line@),
{
    let line = trim(line);
    if line.len() == 0 || line[0] == '#' || line[0] == '[' {
        None
    } else {
        split_once(line, '=')
    }
}

fn group_after(line: &[char], header: &str, inside: bool) -> (r: bool)
    ensures
        r == (if trimmed(line@).len() > 0 && trimmed(line@)[0] == '[' {
            trimmed(line@) == header@
        } else {
            inside
        }),
{
    let line = trim(line);
    if line.len() > 0 && line[0] == '[' {
        is_text(line, header)
    } else {
        inside
    }
}

fn group_value_of(file: &Vec<Vec<char>>, header: &str, key: &str) -> (r: Option<String>)
    ensures
        opt_text(r) == group_value(rows(file@), header@, key@),
{
    let ghost all = rows(file@);
    let mut inside = false;
    let mut found: Option<String> = None;
    assert(all.take(0) =~= Seq::empty());
    for i in 0..file.len()
        invariant
            all == rows(file@),
            inside == in_group(all.take(i as int), header@),
            opt_text(found) == group_value(all.take(i as int), header@, key@),
    {
        let line = file[i].as_slice();
        proof {
            assert(all[i as int] == line@);
            assert(all.take(i + 1).drop_last() =~= all.take(i as int));
            assert(all.take(i + 1).last() == line@);
        }
        if inside {
            if let Some((k, v)) = sides_of(line) {
                if is_text(trim(k), key) {
                    found = Some(string_of(trim(v)));
                }
            }
        }
        inside = group_after(line, header, inside);
    }
    assert(all.take(all.len() as int) =~= all);
    found
}

fn list_items_of(value: &[char]) -> (r: Vec<String>)
    ensures
        texts(r@) == list_items(value@),
{
    let pieces = split_on(value, ';');
    let ghost all = rows(pieces@);
    let mut out: Vec<String> = Vec::new();
    assert(all.take(0) =~= Seq::empty());
    assert(texts(out@) =~= named_items(all.take(0)));
    for i in 0..pieces.len()
        invariant
            all == rows(pieces@),
            texts(out@) == named_items(all.take(i as int)),
    {
        let ghost before = texts(out@);
        let item = trim(pieces[i].as_slice());
        proof {
            assert(all[i as int] == pieces@[i as int]@);
            assert(all.take(i + 1).drop_last() =~= all.take(i as int));
            assert(all.take(i + 1).last() == all[i as int]);
        }
        if item.len() > 0 {
            out.push(string_of(item));
            assert(texts(out@) =~= before.push(item@));
        }
    }
    assert(all.take(all.len() as int) =~= all);
    out
}

// ---------------------------------------------------------------------------
// Desktop entries
// ---------------------------------------------------------------------------

/// An installed application.
#[derive(Debug, PartialEq, Eq)]
pub struct DesktopEntry<T = String, V = Vec<String>> {
    /// The name that association lists know it by.
    pub id: T,
    pub name: T,
    /// The command line, with fields for the files to open.
    pub command: T,
    /// Whether it wants to run in a terminal.
    pub terminal: bool,
    pub no_display: bool,
    pub hidden: bool,
    pub mime_types: V,
}

/// The model of a [`DesktopEntry`].
pub type DesktopEntryView = DesktopEntry<Seq<char>, Seq<Seq<char>>>;

impl View for DesktopEntry {
    type V = DesktopEntryView;

    open spec fn view(&self) -> DesktopEntryView {
        DesktopEntry {
            id: self.id@,
            name: self.name@,
            command: self.command@,
            terminal: self.terminal,
            no_display: self.no_display,
            hidden: self.hidden,
            mime_types: texts(self.mime_types@),
        }
    }
}

impl Clone for DesktopEntry {
    fn clone(&self) -> (r: Self)
        ensures
            r@ == self@,
    {
        DesktopEntry {
            id: self.id.clone(),
            name: self.name.clone(),
            command: self.command.clone(),
            terminal: self.terminal,
            no_display: self.no_display,
            hidden: self.hidden,
            mime_types: copy_texts(&self.mime_types),
        }
    }
}

/// The view of an optional entry.
pub open spec fn opt_desktop(o: Option<DesktopEntry>) -> Option<DesktopEntryView> {
    match o {
        Some(e) => Some(e@),
        None => None,
    }
}

/// The view of an optional reference to an entry.
pub open spec fn opt_desktop_ref(o: Option<&DesktopEntry>) -> Option<DesktopEntryView> {
    match o {
        Some(e) => Some(e@),
        None => None,
    }
}

/// The value that the main group of a desktop file gives a key; empty if it
/// gives none.
pub open spec fn desktop_value(file: Seq<Seq<char>>, key: Seq<char>) -> Seq<char> {
    match group_value(file, "[Desktop Entry]"@, key) {
        Some(v) => v,
        None => Seq::empty(),
    }
}

/// The application that a desktop file describes. One without a command is
/// none; one without a name goes by its identifier.
pub open spec fn desktop_entry(id: Seq<char>, contents: Seq<char>) -> Option<DesktopEntryView> {
    let file = lines(contents);
    let name = desktop_value(file, "Name"@);
    let command = desktop_value(file, "Exec"@);
    if command.len() == 0 {
        None
    } else {
        Some(
            DesktopEntry {
                id,
                name: if name.len() == 0 {
                    id
                } else {
                    name
                },
                command,
                terminal: is_true(desktop_value(file, "Terminal"@)),
                no_display: is_true(desktop_value(file, "NoDisplay"@)),
                hidden: is_true(desktop_value(file, "Hidden"@)),
                mime_types: list_items(desktop_value(file, "MimeType"@)),
            },
        )
    }
}

fn desktop_value_of(file: &Vec<Vec<char>>, key: &str) -> (r: String)
    ensures
        r@ == desktop_value(rows(file@), key@),
{
    match group_value_of(file, "[Desktop Entry]", key) {
        Some(v) => v,
        None => {
            let none = String::new();
            assert(none@ =~= Seq::empty());
            none
        },
    }
}

/// Reads a desktop file.
pub fn parse_desktop_entry(id: &str, contents: &str) -> (r: Option<DesktopEntry>)
    ensures
        opt_desktop(r) == desktop_entry(id@, contents@),
{
    let cs = chars_of(contents);
    let file = lines_of(cs.as_slice());
    let command = desktop_value_of(&file, "Exec");
    if command.as_str().unicode_len() == 0 {
        return None;
    }
    let name = desktop_value_of(&file, "Name");
    let types = chars_of(desktop_value_of(&file, "MimeType").as_str());
    Some(
        DesktopEntry {
            id: copy_of(id),
            name: if name.as_str().unicode_len() == 0 {
                copy_of(id)
            } else {
                name
            },
            command,
            terminal: says_true(desktop_value_of(&file, "Terminal").as_str()),
            no_display: says_true(desktop_value_of(&file, "NoDisplay").as_str()),
            hidden: says_true(desktop_value_of(&file, "Hidden").as_str()),
            mime_types: list_items_of(types.as_slice()),
        },
    )
}

/// The identifier of a desktop file: its name, suffix and all, behind the
/// name of the directory it is nested in. Only names that are text and end in
/// `.desktop` have one.
pub open spec fn entry_id(path: Seq<u8>, prefix: Option<Seq<char>>) -> Option<Seq<char>> {
    match file_name_of(path) {
        Some(name) => if name_extension(name) == Some(encode_utf8("desktop"@)) {
            match (decoded(name), prefix) {
                (Some(text), Some(p)) => Some(p + "-"@ + text),
                (Some(text), None) => Some(text),
                _ => None,
            }
        } else {
            None
        },
        None => None,
    }
}

/// The view of an optional piece of text.
pub open spec fn opt_str(o: Option<&str>) -> Option<Seq<char>> {
    match o {
        Some(s) => Some(s@),
        None => None,
    }
}

/// The identifier of a desktop file.
pub fn desktop_id(path: &FsPath, prefix: Option<&str>) -> (r: Option<String>)
    ensures
        opt_text(r) == entry_id(path@, opt_str(prefix)),
{
    let name = match file_name_bytes(path.as_bytes()) {
        None => {
            return None;
        },
        Some(name) => name,
    };
    match split_name(name).1 {
        None => {
            return None;
        },
        Some(ext) => {
            if !same_bytes(ext, bytes_of("desktop").as_slice()) {
                return None;
            }
        },
    }
    match decode(name) {
        None => None,
        Some(text) => match prefix {
            Some(p) => Some(copy_of(p).concat("-").concat(text.as_str())),
            None => Some(text),
        },
    }
}

// ---------------------------------------------------------------------------
// Association lists
// ---------------------------------------------------------------------------

/// Identifiers of applications by type of content.
#[derive(Debug)]
pub struct Associations {
    /// A later entry for a type replaces an earlier one.
    entries: Vec<(String, Vec<String>)>,
}

/// The map that a list of entries denotes.
pub closed spec fn association_map(entries: Seq<(String, Vec<String>)>) -> Map<
    Seq<char>,
    Seq<Seq<char>>,
>
    decreases entries.len(),
{
    if entries.len() == 0 {
        Map::empty()
    } else {
        association_map(entries.drop_last()).insert(entries.last().0@, texts(entries.last().1@))
    }
}

impl View for Associations {
    type V = Map<Seq<char>, Seq<Seq<char>>>;

    closed spec fn view(&self) -> Map<Seq<char>, Seq<Seq<char>>> {
        association_map(self.entries@)
    }
}

proof fn association_keys(entries: Seq<(String, Vec<String>)>, key: Seq<char>)
    ensures
        association_map(entries).dom().contains(key) <==> exists|i: int|
            0 <= i < entries.len() && (#[trigger] entries[i]).0@ == key,
    decreases entries.len(),
{
    if entries.len() > 0 {
        let rest = entries.drop_last();
        association_keys(rest, key);
        if exists|i: int| 0 <= i < entries.len() && (#[trigger] entries[i]).0@ == key {
            let i = choose|i: int| 0 <= i < entries.len() && (#[trigger] entries[i]).0@ == key;
            if i < rest.len() {
                assert(rest[i].0@ == key);
            }
        }
        if association_map(rest).dom().contains(key) {
            let i = choose|i: int| 0 <= i < rest.len() && (#[trigger] rest[i]).0@ == key;
            assert(entries[i].0@ == key);
        }
        assert(entries[entries.len() - 1] == entries.last());
    }
}

/// The identifiers listed for a type; none if it is not listed.
pub open spec fn listed_ids(m: Map<Seq<char>, Seq<Seq<char>>>, key: Seq<char>) -> Seq<Seq<char>> {
    if m.dom().contains(key) {
        m[key]
    } else {
        Seq::empty()
    }
}

impl Default for Associations {
    fn default() -> (r: Self)
        ensures
            r@ == Map::<Seq<char>, Seq<Seq<char>>>::empty(),
    {
        Associations { entries: Vec::new() }
    }
}

impl Associations {
    /// The identifiers listed for a type.
    pub fn get(&self, key: &str) -> (r: Option<&Vec<String>>)
        ensures
            r is Some <==> self@.dom().contains(key@),
            r is Some ==> texts(r->0@) == self@[key@],
    {
        let mut i: usize = self.entries.len();
        assert(self.entries@.take(self.entries@.len() as int) =~= self.entries@);
        while i > 0
            invariant
                i <= self.entries@.len(),
                self@.dom().contains(key@) == association_map(
                    self.entries@.take(i as int),
                ).dom().contains(key@),
                self@.dom().contains(key@) ==> self@[key@] == association_map(
                    self.entries@.take(i as int),
                )[key@],
            decreases i,
        {
            assert(self.entries@.take(i as int).drop_last() =~= self.entries@.take(i - 1));
            assert(self.entries@.take(i as int).last() == self.entries@[i - 1]);
            if same_text(self.entries[i - 1].0.as_str(), key) {
                return Some(&self.entries[i - 1].1);
            }
            i = i - 1;
        }
        None
    }

    /// Whether a type is listed.
    pub fn contains_key(&self, key: &str) -> (r: bool)
        ensures
            r == self@.dom().contains(key@),
    {
        self.get(key).is_some()
    }

    /// How many types are listed.
    pub fn len(&self) -> (r: usize)
        ensures
            self@.dom().finite(),
            r == self@.dom().len(),
    {
        let ghost all = self.entries@;
        let mut n: usize = 0;
        assert(all.take(0).len() == 0);
        assert(association_map(all.take(0)).dom() =~= Set::empty());
        for i in 0..self.entries.len()
            invariant
                all == self.entries@,
                n <= i,
                association_map(all.take(i as int)).dom().finite(),
                n == association_map(all.take(i as int)).dom().len(),
        {
            let ghost before = all.take(i as int);
            let mut seen = false;
            for j in 0..i
                invariant
                    i < all.len(),
                    all == self.entries@,
                    seen == exists|k: int| 0 <= k < j && (#[trigger] all[k]).0@ == all[i as int].0@,
            {
                if same_text(self.entries[j].0.as_str(), self.entries[i].0.as_str()) {
                    assert(all[j as int].0@ == all[i as int].0@);
                    seen = true;
                }
            }
            proof {
                let key = all[i as int].0@;
                association_keys(before, key);
                if seen {
                    let k = choose|k: int| 0 <= k < i && (#[trigger] all[k]).0@ == key;
                    assert(before[k].0@ == key);
                } else if association_map(before).dom().contains(key) {
                    let k = choose|k: int| 0 <= k < before.len() && (#[trigger] before[k]).0@ == key;
                    assert(all[k].0@ == key);
                }
                assert(all.take(i + 1).drop_last() =~= before);
                assert(all.take(i + 1).last() == all[i as int]);
                assert(association_map(all.take(i + 1)).dom() =~= association_map(
                    before,
                ).dom().insert(key));
            }
            if !seen {
                n = n + 1;
            }
        }
        assert(all.take(all.len() as int) =~= all);
        n
    }

    fn set(&mut self, key: String, ids: Vec<String>)
        ensures
            final(self)@ == old(self)@.insert(key@, texts(ids@)),
    {
        let ghost before = self.entries@;
        self.entries.push((key, ids));
        assert(self.entries@.drop_last() =~= before);
        assert(self.entries@.last() == (key, ids));
    }

    fn extend(&mut self, key: String, more: &Vec<String>)
        ensures
            final(self)@ == old(self)@.insert(key@, listed_ids(old(self)@, key@) + texts(more@)),
    {
        let mut ids = match self.get(key.as_str()) {
            Some(ids) => copy_texts(ids),
            None => {
                let none: Vec<String> = Vec::new();
                assert(texts(none@) =~= Seq::empty());
                none
            },
        };
        let ghost start = texts(ids@);
        assert(start + texts(more@).take(0) =~= start);
        for i in 0..more.len()
            invariant
                texts(ids@) == start + texts(more@).take(i as int),
        {
            let ghost before = texts(ids@);
            let id = more[i].clone();
            ids.push(id);
            assert(texts(ids@) =~= before.push(texts(more@)[i as int]));
            assert(before.push(texts(more@)[i as int]) =~= start + texts(more@).take(i + 1));
        }
        assert(texts(more@).take(more@.len() as int) =~= texts(more@));
        self.set(key, ids);
    }
}

/// One association list.
#[derive(Debug)]
pub struct MimeAppsFile<A = Associations> {
    pub default_applications: A,
    pub added_associations: A,
    pub removed_associations: A,
}

/// The model of a [`MimeAppsFile`].
pub type MimeAppsView = MimeAppsFile<Map<Seq<char>, Seq<Seq<char>>>>;

impl View for MimeAppsFile {
    type V = MimeAppsView;

    open spec fn view(&self) -> MimeAppsView {
        MimeAppsFile {
            default_applications: self.default_applications@,
            added_associations: self.added_associations@,
            removed_associations: self.removed_associations@,
        }
    }
}

/// The views of a list of association lists.
pub open spec fn mime_files(v: Seq<MimeAppsFile>) -> Seq<MimeAppsView> {
    Seq::new(v.len(), |i: int| v[i]@)
}

/// What a group of an association list says: the identifiers of every line
/// for a type, in their order.
pub open spec fn group_map(file: Seq<Seq<char>>, header: Seq<char>) -> Map<
    Seq<char>,
    Seq<Seq<char>>,
>
    decreases file.len(),
{
    if file.len() == 0 {
        Map::empty()
    } else {
        let before = file.drop_last();
        let m = group_map(before, header);
        match sides(file.last()) {
            Some((k, v)) if in_group(before, header) && list_items(v).len() > 0 => m.insert(
                trimmed(k),
                listed_ids(m, trimmed(k)) + list_items(v),
            ),
            _ => m,
        }
    }
}

/// What an association list says.
pub open spec fn mime_file(contents: Seq<char>) -> MimeAppsView {
    let file = lines(contents);
    MimeAppsFile {
        default_applications: group_map(file, "[Default Applications]"@),
        added_associations: group_map(file, "[Added Associations]"@),
        removed_associations: group_map(file, "[Removed Associations]"@),
    }
}

fn group_map_of(file: &Vec<Vec<char>>, header: &str) -> (r: Associations)
    ensures
        r@ == group_map(rows(file@), header@),
{
    let ghost all = rows(file@);
    let mut inside = false;
    let mut found = Associations::default();
    assert(all.take(0) =~= Seq::empty());
    for i in 0..file.len()
        invariant
            all == rows(file@),
            inside == in_group(all.take(i as int), header@),
            found@ == group_map(all.take(i as int), header@),
    {
        let line = file[i].as_slice();
        proof {
            assert(all[i as int] == line@);
            assert(all.take(i + 1).drop_last() =~= all.take(i as int));
            assert(all.take(i + 1).last() == line@);
        }
        if inside {
            if let Some((k, v)) = sides_of(line) {
                let ids = list_items_of(v);
                assert(texts(ids@).len() == ids@.len());
                if ids.len() > 0 {
                    found.extend(string_of(trim(k)), &ids);
                }
            }
        }
        inside = group_after(line, header, inside);
    }
    assert(all.take(all.len() as int) =~= all);
    found
}

/// Reads an association list.
pub fn parse_mimeapps_list(contents: &str) -> (r: MimeAppsFile)
    ensures
        r@ == mime_file(contents@),
{
    let cs = chars_of(contents);
    let file = lines_of(cs.as_slice());
    MimeAppsFile {
        default_applications: group_map_of(&file, "[Default Applications]"),
        added_associations: group_map_of(&file, "[Added Associations]"),
        removed_associations: group_map_of(&file, "[Removed Associations]"),
    }
}

/// Whether any list removes an application for a type.
pub open spec fn is_vetoed(files: Seq<MimeAppsView>, key: Seq<char>, id: Seq<char>) -> bool {
    exists|i: int|
        0 <= i < files.len() && listed_ids(
            (#[trigger] files[i]).removed_associations,
            key,
        ).contains(id)
}

/// `ids` behind `before`, without those that are removed anywhere or there
/// already.
pub open spec fn with_ids(
    files: Seq<MimeAppsView>,
    key: Seq<char>,
    before: Seq<Seq<char>>,
    ids: Seq<Seq<char>>,
) -> Seq<Seq<char>>
    decreases ids.len(),
{
    if ids.len() == 0 {
        before
    } else {
        let rest = with_ids(files, key, before, ids.drop_last());
        if is_vetoed(files, key, ids.last()) || rest.contains(ids.last()) {
            rest
        } else {
            rest.push(ids.last())
        }
    }
}

/// The applications for a type according to the first `n` lists: in each the
/// defaults, then the additions.
pub open spec fn merged_upto(files: Seq<MimeAppsView>, key: Seq<char>, n: int) -> Seq<Seq<char>>
    decreases n,
{
    if n <= 0 {
        Seq::empty()
    } else {
        let file = files[n - 1];
        with_ids(
            files,
            key,
            with_ids(
                files,
                key,
                merged_upto(files, key, n - 1),
                listed_ids(file.default_applications, key),
            ),
            listed_ids(file.added_associations, key),
        )
    }
}

/// Whether any list names an application for a type.
pub open spec fn is_named(files: Seq<MimeAppsView>, key: Seq<char>) -> bool {
    exists|i: int|
        0 <= i < files.len() && ((#[trigger] files[i]).default_applications.dom().contains(key)
            || files[i].added_associations.dom().contains(key))
}

/// What a chain of association lists says together, the first of them first.
pub open spec fn merged(files: Seq<MimeAppsView>) -> Map<Seq<char>, Seq<Seq<char>>> {
    Map::new(
        |key: Seq<char>| is_named(files, key),
        |key: Seq<char>| merged_upto(files, key, files.len() as int),
    )
}

fn vetoed(files: &[MimeAppsFile], key: &str, id: &str) -> (r: bool)
    ensures
        r == is_vetoed(mime_files(files@), key@, id@),
{
    let ghost all = mime_files(files@);
    for i in 0..files.len()
        invariant
            all == mime_files(files@),
            forall|j: int|
                0 <= j < i ==> !listed_ids(
                    (#[trigger] all[j]).removed_associations,
                    key@,
                ).contains(id@),
    {
        assert(all[i as int] == files@[i as int]@);
        if let Some(ids) = files[i].removed_associations.get(key) {
            if has_text(ids, id) {
                assert(listed_ids(all[i as int].removed_associations, key@).contains(id@));
                return true;
            }
        }
    }
    false
}

fn add_ids(
    files: &[MimeAppsFile],
    key: &str,
    before: Vec<String>,
    ids: Option<&Vec<String>>,
) -> (r: Vec<String>)
    ensures
        texts(r@) == with_ids(
            mime_files(files@),
            key@,
            texts(before@),
            match ids {
                Some(ids) => texts(ids@),
                None => Seq::empty(),
            },
        ),
{
    let mut out = before;
    if let Some(ids) = ids {
        let ghost all = texts(ids@);
        assert(all.take(0) =~= Seq::empty());
        for i in 0..ids.len()
            invariant
                all == texts(ids@),
                texts(out@) == with_ids(
                    mime_files(files@),
                    key@,
                    texts(before@),
                    all.take(i as int),
                ),
        {
            let ghost rest = texts(out@);
            proof {
                assert(all.take(i + 1).drop_last() =~= all.take(i as int));
                assert(all.take(i + 1).last() == ids@[i as int]@);
            }
            if !vetoed(files, key, ids[i].as_str()) && !has_text(&out, ids[i].as_str()) {
                let id = ids[i].clone();
                out.push(id);
                assert(texts(out@) =~= rest.push(all[i as int]));
            }
        }
        assert(all.take(all.len() as int) =~= all);
    }
    out
}

fn merged_for(files: &[MimeAppsFile], key: &str) -> (r: Vec<String>)
    ensures
        texts(r@) == merged_upto(mime_files(files@), key@, files@.len() as int),
{
    let mut out: Vec<String> = Vec::new();
    assert(texts(out@) =~= Seq::empty());
    for i in 0..files.len()
        invariant
            texts(out@) == merged_upto(mime_files(files@), key@, i as int),
    {
        assert(mime_files(files@)[i as int] == files@[i as int]@);
        out = add_ids(files, key, out, files[i].default_applications.get(key));
        out = add_ids(files, key, out, files[i].added_associations.get(key));
    }
    out
}

spec fn is_part_of_merge(files: Seq<MimeAppsView>, m: Map<Seq<char>, Seq<Seq<char>>>) -> bool {
    forall|key: Seq<char>| #[trigger]
        m.dom().contains(key) ==> is_named(files, key) && m[key] == merged_upto(
            files,
            key,
            files.len() as int,
        )
}

fn merge_keys(files: &[MimeAppsFile], from: &Associations, out: Associations) -> (r: Associations)
    requires
        is_part_of_merge(mime_files(files@), out@),
        forall|key: Seq<char>| #[trigger]
            from@.dom().contains(key) ==> is_named(mime_files(files@), key),
    ensures
        is_part_of_merge(mime_files(files@), r@),
        forall|key: Seq<char>| out@.dom().contains(key) ==> #[trigger] r@.dom().contains(key),
        forall|key: Seq<char>| from@.dom().contains(key) ==> #[trigger] r@.dom().contains(key),
{
    let ghost start = out@;
    let mut out = out;
    for i in 0..from.entries.len()
        invariant
            is_part_of_merge(mime_files(files@), out@),
            forall|key: Seq<char>| #[trigger]
                from@.dom().contains(key) ==> is_named(mime_files(files@), key),
            forall|key: Seq<char>|
                start.dom().contains(key) ==> #[trigger] out@.dom().contains(key),
            forall|j: int|
                0 <= j < i ==> out@.dom().contains((#[trigger] from.entries@[j]).0@),
    {
        let key = from.entries[i].0.as_str();
        proof {
            association_keys(from.entries@, key@);
            assert(from.entries@[i as int].0@ == key@);
            assert(from@.dom().contains(key@));
        }
        if out.get(key).is_none() {
            let ids = merged_for(files, key);
            let k = copy_of(key);
            out.set(k, ids);
        }
    }
    proof {
        assert forall|key: Seq<char>| from@.dom().contains(key) implies #[trigger] out@.dom().contains(
            key,
        ) by {
            association_keys(from.entries@, key);
            let i = choose|i: int|
                0 <= i < from.entries@.len() && (#[trigger] from.entries@[i]).0@ == key;
            assert(out@.dom().contains(from.entries@[i].0@));
        }
    }
    out
}

/// Merges a chain of association lists, the first of them first. A removal
/// anywhere in the chain holds everywhere.
pub fn merge_associations(files: &[MimeAppsFile]) -> (r: Associations)
    ensures
        r@ == merged(mime_files(files@)),
{
    let ghost all = mime_files(files@);
    let mut out = Associations::default();
    for i in 0..files.len()
        invariant
            all == mime_files(files@),
            is_part_of_merge(all, out@),
            forall|j: int, key: Seq<char>|
                0 <= j < i && #[trigger] seen(all, j, key) ==> out@.dom().contains(key),
    {
        proof {
            assert(all[i as int] == files@[i as int]@);
            assert forall|key: Seq<char>| #[trigger]
                files@[i as int].default_applications@.dom().contains(key) implies is_named(
                all,
                key,
            ) by {
                assert(all[i as int].default_applications.dom().contains(key));
            }
            assert forall|key: Seq<char>| #[trigger]
                files@[i as int].added_associations@.dom().contains(key) implies is_named(
                all,
                key,
            ) by {
                assert(all[i as int].added_associations.dom().contains(key));
            }
        }
        out = merge_keys(files, &files[i].default_applications, out);
        out = merge_keys(files, &files[i].added_associations, out);
    }
    proof {
        assert forall|key: Seq<char>| is_named(all, key) implies #[trigger] out@.dom().contains(
            key,
        ) by {
            let i = choose|i: int|
                0 <= i < all.len() && ((#[trigger] all[i]).default_applications.dom().contains(key)
                    || all[i].added_associations.dom().contains(key));
            assert(seen(all, i, key));
        }
        assert(out@ =~= merged(all));
    }
    out
}

spec fn seen(files: Seq<MimeAppsView>, i: int, key: Seq<char>) -> bool {
    files[i].default_applications.dom().contains(key)
        || files[i].added_associations.dom().contains(key)
}

// ---------------------------------------------------------------------------
// The database
// ---------------------------------------------------------------------------

/// A desktop file that was found: its identifier and its contents.
#[derive(Debug)]
pub struct DesktopFile<T = String> {
    pub id: T,
    pub contents: T,
}

impl View for DesktopFile {
    type V = DesktopFile<Seq<char>>;

    open spec fn view(&self) -> DesktopFile<Seq<char>> {
        DesktopFile { id: self.id@, contents: self.contents@ }
    }
}

/// The views of a list of desktop files.
pub open spec fn desktop_files(v: Seq<DesktopFile>) -> Seq<DesktopFile<Seq<char>>> {
    Seq::new(v.len(), |i: int| v[i]@)
}

/// The views of a list of applications.
pub open spec fn desktop_entries(v: Seq<DesktopEntry>) -> Seq<DesktopEntryView> {
    Seq::new(v.len(), |i: int| v[i]@)
}

/// The views of a list of references to applications.
pub open spec fn desktop_refs(v: Seq<&DesktopEntry>) -> Seq<DesktopEntryView> {
    Seq::new(v.len(), |i: int| v[i]@)
}

/// The application with an identifier.
pub open spec fn entry_with(entries: Seq<DesktopEntryView>, id: Seq<char>) -> Option<
    DesktopEntryView,
>
    decreases entries.len(),
{
    if entries.len() == 0 {
        None
    } else if entries[0].id == id {
        Some(entries[0])
    } else {
        entry_with(entries.skip(1), id)
    }
}

/// The applications that a list of desktop files describes. Of the files with
/// one identifier the first that describes an application counts.
pub open spec fn installed(files: Seq<DesktopFile<Seq<char>>>) -> Seq<DesktopEntryView>
    decreases files.len(),
{
    if files.len() == 0 {
        Seq::empty()
    } else {
        let rest = installed(files.drop_last());
        let file = files.last();
        match desktop_entry(file.id, file.contents) {
            Some(entry) if entry_with(rest, file.id) is None => rest.push(entry),
            _ => rest,
        }
    }
}

fn find_entry<'a>(entries: &'a Vec<DesktopEntry>, id: &str) -> (r: Option<&'a DesktopEntry>)
    ensures
        opt_desktop_ref(r) == entry_with(desktop_entries(entries@), id@),
{
    let ghost all = desktop_entries(entries@);
    assert(all.skip(0) =~= all);
    for i in 0..entries.len()
        invariant
            all == desktop_entries(entries@),
            entry_with(all, id@) == entry_with(all.skip(i as int), id@),
    {
        assert(all.skip(i as int)[0] == entries@[i as int]@);
        if same_text(entries[i].id.as_str(), id) {
            return Some(&entries[i]);
        }
        assert(all.skip(i as int).skip(1) =~= all.skip(i + 1));
    }
    assert(all.skip(all.len() as int).len() == 0);
    None
}

/// Something in a directory of applications. Text that could not be read is
/// absent.
#[derive(Debug)]
pub enum AppItem<P = FsPath, T = Option<String>, V = Vec<(FsPath, Option<String>)>> {
    File { path: P, contents: T },
    /// A directory, with the paths in it and what they hold.
    Dir { path: P, items: V },
}

/// The model of an [`AppItem`].
pub type AppItemView = AppItem<Seq<u8>, Option<Seq<char>>, Seq<(Seq<u8>, Option<Seq<char>>)>>;

/// The views of files in a nested directory.
pub open spec fn nested_items(v: Seq<(FsPath, Option<String>)>) -> Seq<
    (Seq<u8>, Option<Seq<char>>),
> {
    Seq::new(v.len(), |i: int| (v[i].0@, opt_text(v[i].1)))
}

impl View for AppItem {
    type V = AppItemView;

    open spec fn view(&self) -> AppItemView {
        match self {
            AppItem::File { path, contents } => AppItem::File {
                path: path@,
                contents: opt_text(*contents),
            },
            AppItem::Dir { path, items } => AppItem::Dir {
                path: path@,
                items: nested_items(items@),
            },
        }
    }
}

/// The views of the items of a directory.
pub open spec fn app_items(v: Seq<AppItem>) -> Seq<AppItemView> {
    Seq::new(v.len(), |i: int| v[i]@)
}

/// A file as a desktop file, if it is one that could be read.
pub open spec fn as_desktop_file(
    path: Seq<u8>,
    contents: Option<Seq<char>>,
    prefix: Option<Seq<char>>,
) -> Seq<DesktopFile<Seq<char>>> {
    match (entry_id(path, prefix), contents) {
        (Some(id), Some(contents)) => seq![DesktopFile { id, contents }],
        _ => Seq::empty(),
    }
}

/// The desktop files in a nested directory.
pub open spec fn nested_files(
    items: Seq<(Seq<u8>, Option<Seq<char>>)>,
    prefix: Seq<char>,
) -> Seq<DesktopFile<Seq<char>>>
    decreases items.len(),
{
    if items.len() == 0 {
        Seq::empty()
    } else {
        nested_files(items.drop_last(), prefix) + as_desktop_file(
            items.last().0,
            items.last().1,
            Some(prefix),
        )
    }
}

/// The desktop files of one item. The files of a nested directory carry its
/// name, which therefore has to be text.
pub open spec fn item_files(item: AppItemView) -> Seq<DesktopFile<Seq<char>>> {
    match item {
        AppItem::File { path, contents } => as_desktop_file(path, contents, None),
        AppItem::Dir { path, items } => match file_name_of(path) {
            Some(name) => match decoded(name) {
                Some(prefix) => nested_files(items, prefix),
                None => Seq::empty(),
            },
            None => Seq::empty(),
        },
    }
}

/// The desktop files in a directory of applications, one level of nested
/// directories included.
pub open spec fn dir_files(items: Seq<AppItemView>) -> Seq<DesktopFile<Seq<char>>>
    decreases items.len(),
{
    if items.len() == 0 {
        Seq::empty()
    } else {
        dir_files(items.drop_last()) + item_files(items.last())
    }
}

fn add_desktop_file(
    path: &FsPath,
    contents: &Option<String>,
    prefix: Option<&str>,
    out: &mut Vec<DesktopFile>,
)
    ensures
        desktop_files(final(out)@) == desktop_files(old(out)@) + as_desktop_file(
            path@,
            opt_text(*contents),
            opt_str(prefix),
        ),
{
    let ghost before = desktop_files(out@);
    if let Some(text) = contents {
        if let Some(id) = desktop_id(path, prefix) {
            let file = DesktopFile { id, contents: copy_of(text.as_str()) };
            let ghost v = file@;
            out.push(file);
            assert(desktop_files(out@) =~= before + seq![v]);
            return;
        }
    }
    assert(desktop_files(out@) =~= before + Seq::empty());
}

/// The desktop files in a directory of applications, in the order of its
/// items.
pub fn collect_desktop_files_one_dir(items: &[AppItem]) -> (r: Vec<DesktopFile>)
    ensures
        desktop_files(r@) == dir_files(app_items(items@)),
{
    let ghost all = app_items(items@);
    let mut out: Vec<DesktopFile> = Vec::new();
    assert(all.take(0) =~= Seq::empty());
    assert(desktop_files(out@) =~= dir_files(all.take(0)));
    for i in 0..items.len()
        invariant
            all == app_items(items@),
            desktop_files(out@) == dir_files(all.take(i as int)),
    {
        let ghost start = desktop_files(out@);
        proof {
            assert(all.take(i + 1).drop_last() =~= all.take(i as int));
            assert(all.take(i + 1).last() == items@[i as int]@);
        }
        match &items[i] {
            AppItem::File { path, contents } => {
                add_desktop_file(path, contents, None, &mut out);
            },
            AppItem::Dir { path, items: nested } => {
                let prefix = match file_name_bytes(path.as_bytes()) {
                    Some(name) => decode(name),
                    None => None,
                };
                if let Some(prefix) = prefix {
                    let ghost inner = nested_items(nested@);
                    assert(inner.take(0) =~= Seq::empty());
                    assert(start + nested_files(inner.take(0), prefix@) =~= start);
                    for j in 0..nested.len()
                        invariant
                            inner == nested_items(nested@),
                            desktop_files(out@) == start + nested_files(
                                inner.take(j as int),
                                prefix@,
                            ),
                    {
                        proof {
                            assert(inner.take(j + 1).drop_last() =~= inner.take(j as int));
                            assert(inner.take(j + 1).last() == (
                                nested@[j as int].0@,
                                opt_text(nested@[j as int].1),
                            ));
                        }
                        add_desktop_file(
                            &nested[j].0,
                            &nested[j].1,
                            Some(prefix.as_str()),
                            &mut out,
                        );
                        assert(desktop_files(out@) =~= start + nested_files(
                            inner.take(j + 1),
                            prefix@,
                        ));
                    }
                    assert(inner.take(inner.len() as int) =~= inner);
                } else {
                    assert(start + Seq::empty() =~= start);
                }
            },
        }
    }
    assert(all.take(all.len() as int) =~= all);
    out
}

/// Reads the desktop files that were found, those of the directories that
/// count most first.
pub fn discover_desktop_entries(files: &[DesktopFile]) -> (r: Vec<DesktopEntry>)
    ensures
        desktop_entries(r@) == installed(desktop_files(files@)),
{
    let ghost all = desktop_files(files@);
    let mut out: Vec<DesktopEntry> = Vec::new();
    assert(all.take(0) =~= Seq::empty());
    assert(desktop_entries(out@) =~= installed(all.take(0)));
    for i in 0..files.len()
        invariant
            all == desktop_files(files@),
            desktop_entries(out@) == installed(all.take(i as int)),
    {
        let ghost before = desktop_entries(out@);
        proof {
            assert(all.take(i + 1).drop_last() =~= all.take(i as int));
            assert(all.take(i + 1).last() == files@[i as int]@);
        }
        if find_entry(&out, files[i].id.as_str()).is_none() {
            if let Some(entry) = parse_desktop_entry(
                files[i].id.as_str(),
                files[i].contents.as_str(),
            ) {
                let ghost e = entry@;
                out.push(entry);
                assert(desktop_entries(out@) =~= before.push(e));
            }
        }
    }
    assert(all.take(all.len() as int) =~= all);
    out
}

/// The applications and which of them open what.
#[derive(Debug)]
pub struct AppsDb {
    entries: Vec<DesktopEntry>,
    associations: Associations,
}

/// The model of an [`AppsDb`].
#[verifier::ext_equal]
pub struct AppsView {
    pub entries: Seq<DesktopEntryView>,
    pub associations: Map<Seq<char>, Seq<Seq<char>>>,
}

impl View for AppsDb {
    type V = AppsView;

    closed spec fn view(&self) -> AppsView {
        AppsView {
            entries: desktop_entries(self.entries@),
            associations: self.associations@,
        }
    }
}

/// The first of a list of identifiers that names an application.
pub open spec fn first_installed(entries: Seq<DesktopEntryView>, ids: Seq<Seq<char>>) -> Option<
    DesktopEntryView,
>
    decreases ids.len(),
{
    if ids.len() == 0 {
        None
    } else {
        match entry_with(entries, ids[0]) {
            Some(entry) => Some(entry),
            None => first_installed(entries, ids.skip(1)),
        }
    }
}

/// The application that opens a type by default.
pub open spec fn default_app(db: AppsView, mimetype: Seq<char>) -> Option<DesktopEntryView> {
    first_installed(db.entries, listed_ids(db.associations, mimetype))
}

/// Whether an application is offered for a type besides the default one.
pub open spec fn is_offered(db: AppsView, mimetype: Seq<char>, entry: DesktopEntryView) -> bool {
    &&& !entry.no_display
    &&& !entry.hidden
    &&& entry.mime_types.contains(mimetype)
    &&& default_app(db, mimetype) matches Some(d) ==> d.id != entry.id
}

/// The applications offered besides the default one, of the first `n`.
pub open spec fn offered_upto(db: AppsView, mimetype: Seq<char>, n: int) -> Seq<DesktopEntryView>
    decreases n,
{
    if n <= 0 {
        Seq::empty()
    } else {
        let rest = offered_upto(db, mimetype, n - 1);
        if is_offered(db, mimetype, db.entries[n - 1]) {
            rest.push(db.entries[n - 1])
        } else {
            rest
        }
    }
}

/// The applications offered besides the default one.
pub open spec fn offered(db: AppsView, mimetype: Seq<char>) -> Seq<DesktopEntryView> {
    offered_upto(db, mimetype, db.entries.len() as int)
}

/// The names of applications, as sort keys.
pub open spec fn name_keys(entries: Seq<DesktopEntryView>) -> Seq<Seq<u8>> {
    Seq::new(entries.len(), |i: int| encode_utf8(entries[i].name))
}

/// Whether a list offers the applications for a type: the default one first,
/// if there is one, then the others by name.
pub open spec fn is_menu(db: AppsView, mimetype: Seq<char>, menu: Seq<DesktopEntryView>) -> bool {
    exists|order: Seq<usize>| #[trigger]
        is_order(name_keys(offered(db, mimetype)), order) && menu == (match default_app(
            db,
            mimetype,
        ) {
            Some(d) => seq![d],
            None => Seq::empty(),
        }) + ordered(offered(db, mimetype), order)
}

impl AppsDb {
    /// The database from the association lists and the desktop files that
    /// were found, each in the order in which their directories count.
    pub fn build(lists: &[String], files: &[DesktopFile]) -> (r: Self)
        ensures
            r@ == (AppsView {
                entries: installed(desktop_files(files@)),
                associations: merged(
                    Seq::new(lists@.len(), |i: int| mime_file(lists@[i]@)),
                ),
            }),
    {
        let mut all: Vec<MimeAppsFile> = Vec::new();
        for i in 0..lists.len()
            invariant
                all@.len() == i,
                forall|j: int| 0 <= j < i ==> (#[trigger] all@[j])@ == mime_file(lists@[j]@),
        {
            all.push(parse_mimeapps_list(lists[i].as_str()));
        }
        assert(mime_files(all@) =~= Seq::new(lists@.len(), |i: int| mime_file(lists@[i]@)));
        AppsDb {
            entries: discover_desktop_entries(files),
            associations: merge_associations(all.as_slice()),
        }
    }

    /// The application with an identifier.
    pub fn entry(&self, id: &str) -> (r: Option<&DesktopEntry>)
        ensures
            opt_desktop_ref(r) == entry_with(self@.entries, id@),
    {
        find_entry(&self.entries, id)
    }

    /// The application that opens a type by default.
    pub fn default_for(&self, mimetype: &str) -> (r: Option<&DesktopEntry>)
        ensures
            opt_desktop_ref(r) == default_app(self@, mimetype@),
    {
        match self.associations.get(mimetype) {
            None => None,
            Some(ids) => {
                let ghost all = texts(ids@);
                assert(all.skip(0) =~= all);
                for i in 0..ids.len()
                    invariant
                        all == texts(ids@),
                        default_app(self@, mimetype@) == first_installed(self@.entries, all),
                        first_installed(self@.entries, all) == first_installed(
                            self@.entries,
                            all.skip(i as int),
                        ),
                {
                    assert(all.skip(i as int)[0] == ids@[i as int]@);
                    if let Some(entry) = find_entry(&self.entries, ids[i].as_str()) {
                        return Some(entry);
                    }
                    assert(all.skip(i as int).skip(1) =~= all.skip(i + 1));
                }
                assert(all.skip(all.len() as int).len() == 0);
                None
            },
        }
    }

    /// Every application offered for a type.
    pub fn candidates_for(&self, mimetype: &str) -> (r: Vec<&DesktopEntry>)
        ensures
            is_menu(self@, mimetype@, desktop_refs(r@)),
    {
        let default = self.default_for(mimetype);
        let mut rest: Vec<&DesktopEntry> = Vec::new();
        let mut keys: Vec<Vec<u8>> = Vec::new();
        assert(desktop_refs(rest@) =~= Seq::empty());
        for i in 0..self.entries.len()
            invariant
                opt_desktop_ref(default) == default_app(self@, mimetype@),
                desktop_refs(rest@) == offered_upto(self@, mimetype@, i as int),
                keys@.len() == rest@.len(),
                forall|j: int|
                    0 <= j < keys@.len() ==> (#[trigger] keys@[j])@ == encode_utf8(
                        rest@[j].name@,
                    ),
        {
            let ghost before = desktop_refs(rest@);
            let entry = &self.entries[i];
            assert(self@.entries[i as int] == entry@);
            let is_default = match default {
                Some(d) => same_text(d.id.as_str(), entry.id.as_str()),
                None => false,
            };
            if !entry.no_display && !entry.hidden && !is_default && has_text(
                &entry.mime_types,
                mimetype,
            ) {
                keys.push(bytes_of(entry.name.as_str()));
                rest.push(entry);
                assert(desktop_refs(rest@) =~= before.push(entry@));
            }
        }
        let order = order_of(&keys);
        let ghost others = offered(self@, mimetype@);
        assert(byte_rows(keys@) =~= name_keys(others)) by {
            assert forall|j: int| 0 <= j < keys@.len() implies byte_rows(keys@)[j] == name_keys(
                others,
            )[j] by {
                assert(keys@[j]@ == encode_utf8(rest@[j].name@));
                assert(desktop_refs(rest@)[j] == rest@[j]@);
            }
        }
        let mut out: Vec<&DesktopEntry> = Vec::new();
        match default {
            Some(d) => {
                out.push(d);
                assert(desktop_refs(out@) =~= seq![d@]);
            },
            None => {
                assert(desktop_refs(out@) =~= Seq::empty());
            },
        }
        let ghost head = desktop_refs(out@);
        let ghost tail = ordered(others, order@);
        assert(head + tail.take(0) =~= head);
        for i in 0..order.len()
            invariant
                others == desktop_refs(rest@),
                tail == ordered(others, order@),
                is_order(name_keys(others), order@),
                desktop_refs(out@) == head + tail.take(i as int),
        {
            let ghost before = desktop_refs(out@);
            assert(order@[i as int] < name_keys(others).len());
            let entry = rest[order[i]];
            assert(tail[i as int] == others[order@[i as int] as int]);
            assert(others[order@[i as int] as int] == entry@);
            out.push(entry);
            assert(desktop_refs(out@) =~= before.push(tail[i as int]));
            assert(before.push(tail[i as int]) =~= head + tail.take(i + 1));
        }
        assert(tail.take(tail.len() as int) =~= tail);
        out
    }
}

/// Paths as text that `:` separates.
pub open spec fn path_list(value: Seq<u8>) -> Seq<Seq<u8>> {
    split(value, 0x3A)
}

/// A value that is set and not empty.
pub open spec fn non_empty(value: Option<Seq<u8>>) -> Option<Seq<u8>> {
    match value {
        Some(v) if v.len() > 0 => Some(v),
        _ => None,
    }
}

/// A base directory of the user: the variable's value, else a directory below
/// home, if there is one.
pub open spec fn user_base(value: Option<Seq<u8>>, home: Option<Seq<u8>>, below: Seq<char>) -> Seq<
    Seq<u8>,
> {
    match (non_empty(value), non_empty(home)) {
        (Some(dir), _) => seq![dir],
        (None, Some(home)) => seq![joined(home, encode_utf8(below))],
        (None, None) => Seq::empty(),
    }
}

/// The directories of configuration, the one that counts most first.
pub open spec fn config_chain(
    config_home: Option<Seq<u8>>,
    config_dirs: Option<Seq<u8>>,
    home: Option<Seq<u8>>,
) -> Seq<Seq<u8>> {
    user_base(config_home, home, ".config"@) + match non_empty(config_dirs) {
        Some(dirs) => path_list(dirs),
        None => seq![encode_utf8("/etc/xdg"@)],
    }
}

/// The directories of data, the one that counts most first.
pub open spec fn data_chain(
    data_home: Option<Seq<u8>>,
    data_dirs: Option<Seq<u8>>,
    home: Option<Seq<u8>>,
) -> Seq<Seq<u8>> {
    user_base(data_home, home, ".local/share"@) + match non_empty(data_dirs) {
        Some(dirs) => path_list(dirs),
        None => seq![encode_utf8("/usr/local/share"@), encode_utf8("/usr/share"@)],
    }
}

fn non_empty_value(value: Option<Vec<u8>>) -> (r: Option<Vec<u8>>)
    ensures
        opt_vec(r) == non_empty(opt_vec(value)),
{
    match value {
        Some(v) => {
            if v.len() > 0 {
                Some(v)
            } else {
                None
            }
        },
        None => None,
    }
}

fn user_base_of(value: Option<Vec<u8>>, home: &Option<Vec<u8>>, below: &str) -> (r: Vec<FsPath>)
    requires
        opt_vec(*home) == non_empty(opt_vec(*home)),
    ensures
        paths(r@) == user_base(opt_vec(value), opt_vec(*home), below@),
{
    let mut out: Vec<FsPath> = Vec::new();
    match non_empty_value(value) {
        Some(dir) => {
            out.push(FsPath::from_bytes(dir));
        },
        None => {
            if let Some(home) = home {
                let dir = FsPath::from_bytes(copy_bytes(home.as_slice()));
                out.push(dir.join_bytes(bytes_of(below).as_slice()));
            }
        },
    }
    assert(paths(out@) =~= user_base(opt_vec(value), opt_vec(*home), below@));
    out
}

fn push_path_list(out: Vec<FsPath>, dirs: &Vec<u8>) -> (r: Vec<FsPath>)
    ensures
        paths(r@) == paths(out@) + path_list(dirs@),
{
    let pieces = split_bytes(dirs.as_slice(), 0x3A);
    let ghost head = paths(out@);
    let ghost all = byte_rows(pieces@);
    let mut out = out;
    assert(head + all.take(0) =~= head);
    for i in 0..pieces.len()
        invariant
            all == byte_rows(pieces@),
            paths(out@) == head + all.take(i as int),
    {
        let ghost before = paths(out@);
        let dir = FsPath::from_bytes(copy_bytes(pieces[i].as_slice()));
        out.push(dir);
        assert(paths(out@) =~= before.push(all[i as int]));
        assert(before.push(all[i as int]) =~= head + all.take(i + 1));
    }
    assert(all.take(all.len() as int) =~= all);
    out
}

/// The directories of configuration and those of data, from the values of the
/// variables that name them. An empty value counts as unset.
pub fn resolve_xdg_dirs(
    config_home: Option<Vec<u8>>,
    config_dirs: Option<Vec<u8>>,
    data_home: Option<Vec<u8>>,
    data_dirs: Option<Vec<u8>>,
    home: Option<Vec<u8>>,
) -> (r: (Vec<FsPath>, Vec<FsPath>))
    ensures
        paths(r.0@) == config_chain(opt_vec(config_home), opt_vec(config_dirs), opt_vec(home)),
        paths(r.1@) == data_chain(opt_vec(data_home), opt_vec(data_dirs), opt_vec(home)),
{
    let home = non_empty_value(home);
    let mut configs = user_base_of(config_home, &home, ".config");
    let ghost base = paths(configs@);
    match non_empty_value(config_dirs) {
        Some(dirs) => {
            configs = push_path_list(configs, &dirs);
        },
        None => {
            configs.push(FsPath::new("/etc/xdg"));
            assert(paths(configs@) =~= base + seq![encode_utf8("/etc/xdg"@)]);
        },
    }
    let mut data = user_base_of(data_home, &home, ".local/share");
    let ghost base = paths(data@);
    match non_empty_value(data_dirs) {
        Some(dirs) => {
            data = push_path_list(data, &dirs);
        },
        None => {
            data.push(FsPath::new("/usr/local/share"));
            data.push(FsPath::new("/usr/share"));
            assert(paths(data@) =~= base + seq![
                encode_utf8("/usr/local/share"@),
                encode_utf8("/usr/share"@),
            ]);
        },
    }
    (configs, data)
}

// ---------------------------------------------------------------------------
// Command lines
// ---------------------------------------------------------------------------

/// Whether a backslash inside quotes stands before a character that it
/// quotes.
pub open spec fn is_escapable(c: char) -> bool {
    c == '"' || c == '\\' || c == '`' || c == '$'
}

/// The words of the rest of a command, where `word` has been read of the
/// current one, `open` tells whether there is a current one, and `quoted`
/// whether it is inside quotes.
pub open spec fn words_from(s: Seq<char>, word: Seq<char>, open: bool, quoted: bool) -> Seq<
    Seq<char>,
>
    decreases s.len(),
{
    if s.len() == 0 {
        if open {
            seq![word]
        } else {
            Seq::empty()
        }
    } else if s[0] == '"' {
        words_from(s.skip(1), word, true, !quoted)
    } else if s[0] == '\\' && quoted {
        if s.len() > 1 && is_escapable(s[1]) {
            words_from(s.skip(2), word.push(s[1]), open, quoted)
        } else {
            words_from(s.skip(1), word.push('\\'), open, quoted)
        }
    } else if is_space(s[0]) && !quoted {
        if open {
            seq![word] + words_from(s.skip(1), Seq::empty(), false, quoted)
        } else {
            words_from(s.skip(1), word, open, quoted)
        }
    } else {
        words_from(s.skip(1), word.push(s[0]), true, quoted)
    }
}

/// The words of a command: white space separates them outside double quotes.
pub open spec fn words_of(command: Seq<char>) -> Seq<Seq<char>> {
    words_from(command, Seq::empty(), false, false)
}

/// Splits a command into words.
pub fn tokenize_exec(command: &str) -> (r: Vec<String>)
    ensures
        texts(r@) == words_of(command@),
{
    let cs = chars_of(command);
    let mut out: Vec<String> = Vec::new();
    let mut word = String::new();
    let mut open = false;
    let mut quoted = false;
    let mut i: usize = 0;
    let n = cs.len();
    assert(cs@.skip(0) =~= cs@);
    assert(word@ =~= Seq::empty());
    assert(texts(out@) + words_of(command@) =~= words_of(command@));
    while i < n
        invariant
            n == cs@.len(),
            cs@ == command@,
            i <= n,
            words_of(command@) == texts(out@) + words_from(cs@.skip(i as int), word@, open, quoted),
        decreases n - i,
    {
        let c = cs[i];
        let ghost rest = cs@.skip(i as int);
        proof {
            assert(rest[0] == c);
            assert(rest.skip(1) =~= cs@.skip(i + 1));
            if i + 1 < n {
                assert(rest[1] == cs@[i + 1]);
                assert(rest.skip(2) =~= cs@.skip(i + 2));
            }
        }
        if c == '"' {
            quoted = !quoted;
            open = true;
            i = i + 1;
        } else if c == '\\' && quoted {
            if n - i > 1 && (cs[i + 1] == '"' || cs[i + 1] == '\\' || cs[i + 1] == '`' || cs[i + 1]
                == '$') {
                word.push(cs[i + 1]);
                i = i + 2;
            } else {
                word.push('\\');
                i = i + 1;
            }
        } else if is_white_space(c) && !quoted {
            if open {
                let ghost before = texts(out@);
                let ghost w = word@;
                out.push(word);
                word = String::new();
                open = false;
                proof {
                    assert(word@ =~= Seq::empty());
                    assert(texts(out@) =~= before.push(w));
                    let tail = words_from(cs@.skip(i + 1), Seq::empty(), false, quoted);
                    assert(before + (seq![w] + tail) =~= before.push(w) + tail);
                }
            }
            i = i + 1;
        } else {
            word.push(c);
            open = true;
            i = i + 1;
        }
    }
    let ghost before = texts(out@);
    assert(cs@.skip(i as int).len() == 0);
    if open {
        out.push(word);
        assert(texts(out@) =~= before + seq![word@]);
    } else {
        assert(before + Seq::<Seq<char>>::empty() =~= before);
    }
    out
}

/// A word with each `%%` turned into `%`.
pub open spec fn unescaped_word(s: Seq<char>) -> Seq<char>
    decreases s.len(),
{
    if s.len() == 0 {
        Seq::empty()
    } else if s.len() > 1 && s[0] == '%' && s[1] == '%' {
        seq!['%'] + unescaped_word(s.skip(2))
    } else {
        seq![s[0]] + unescaped_word(s.skip(1))
    }
}

fn unescape_word(word: &str) -> (r: String)
    ensures
        r@ == unescaped_word(word@),
{
    let cs = chars_of(word);
    let mut out = String::new();
    let mut i: usize = 0;
    let n = cs.len();
    assert(cs@.skip(0) =~= cs@);
    assert(out@ + unescaped_word(cs@) =~= unescaped_word(cs@));
    while i < n
        invariant
            n == cs@.len(),
            cs@ == word@,
            i <= n,
            unescaped_word(word@) == out@ + unescaped_word(cs@.skip(i as int)),
        decreases n - i,
    {
        let ghost rest = cs@.skip(i as int);
        let ghost before = out@;
        proof {
            assert(rest[0] == cs@[i as int]);
            assert(rest.skip(1) =~= cs@.skip(i + 1));
            if i + 1 < n {
                assert(rest[1] == cs@[i + 1]);
                assert(rest.skip(2) =~= cs@.skip(i + 2));
            }
        }
        if n - i > 1 && cs[i] == '%' && cs[i + 1] == '%' {
            out.push('%');
            assert(before + (seq!['%'] + unescaped_word(cs@.skip(i + 2))) =~= out@ + unescaped_word(
                cs@.skip(i + 2),
            ));
            i = i + 2;
        } else {
            let c = cs[i];
            out.push(c);
            assert(before + (seq![c] + unescaped_word(cs@.skip(i + 1))) =~= out@ + unescaped_word(
                cs@.skip(i + 1),
            ));
            i = i + 1;
        }
    }
    assert(cs@.skip(i as int).len() == 0);
    assert(out@ + unescaped_word(cs@.skip(i as int)) =~= out@);
    out
}

/// A text with spaces and percent signs escaped.
pub open spec fn lightly_escaped(s: Seq<char>) -> Seq<char>
    decreases s.len(),
{
    if s.len() == 0 {
        Seq::empty()
    } else {
        lightly_escaped(s.drop_last()) + (if s.last() == ' ' {
            "%20"@
        } else if s.last() == '%' {
            "%25"@
        } else {
            seq![s.last()]
        })
    }
}

/// The URI that a path is handed to an application as.
pub open spec fn uri_of(path: Seq<u8>) -> Seq<char> {
    "file://"@ + lightly_escaped(shown(path))
}

/// The URI that a path is handed to an application as.
pub fn file_uri(path: &FsPath) -> (r: String)
    ensures
        r@ == uri_of(path@),
{
    let cs = chars_of(path.display().as_str());
    let mut out = copy_of("file://");
    assert(cs@.take(0) =~= Seq::empty());
    assert("file://"@ + lightly_escaped(cs@.take(0)) =~= "file://"@);
    for i in 0..cs.len()
        invariant
            out@ == "file://"@ + lightly_escaped(cs@.take(i as int)),
    {
        let ghost before = out@;
        proof {
            assert(cs@.take(i + 1).drop_last() =~= cs@.take(i as int));
        }
        if cs[i] == ' ' {
            out.append("%20");
            assert(out@ =~= "file://"@ + (lightly_escaped(cs@.take(i as int)) + "%20"@));
        } else if cs[i] == '%' {
            out.append("%25");
            assert(out@ =~= "file://"@ + (lightly_escaped(cs@.take(i as int)) + "%25"@));
        } else {
            let c = cs[i];
            out.push(c);
            assert(out@ =~= "file://"@ + (lightly_escaped(cs@.take(i as int)) + seq![c]));
        }
    }
    assert(cs@.take(cs@.len() as int) =~= cs@);
    out
}

/// What a word of a command stands for.
pub enum WordKind {
    /// The paths of the files.
    Paths,
    /// The URIs of the files.
    Uris,
    /// Nothing.
    Dropped,
    /// Itself.
    Plain,
}

/// What a word of a command stands for.
pub open spec fn word_kind(word: Seq<char>) -> WordKind {
    if word == "%f"@ || word == "%F"@ {
        WordKind::Paths
    } else if word == "%u"@ || word == "%U"@ {
        WordKind::Uris
    } else if word == "%i"@ || word == "%c"@ || word == "%k"@ || word == "%d"@ || word == "%D"@
        || word == "%n"@ || word == "%N"@ || word == "%v"@ || word == "%m"@ {
        WordKind::Dropped
    } else {
        WordKind::Plain
    }
}

/// The arguments that a word of a command gives.
pub open spec fn word_args(word: Seq<char>, targets: Seq<Seq<u8>>) -> Seq<Seq<u8>> {
    match word_kind(word) {
        WordKind::Paths => targets,
        WordKind::Uris => Seq::new(targets.len(), |i: int| encode_utf8(uri_of(targets[i]))),
        WordKind::Dropped => Seq::empty(),
        WordKind::Plain => seq![encode_utf8(unescaped_word(word))],
    }
}

/// The arguments that a command gives.
pub open spec fn args_of(words: Seq<Seq<char>>, targets: Seq<Seq<u8>>) -> Seq<Seq<u8>>
    decreases words.len(),
{
    if words.len() == 0 {
        Seq::empty()
    } else {
        args_of(words.drop_last(), targets) + word_args(words.last(), targets)
    }
}

/// The command lines to start for a command and the files to open: one with
/// all files, one for each file, or one without files, as its fields ask.
pub open spec fn command_lines(command: Seq<char>, targets: Seq<Seq<u8>>) -> Seq<Seq<Seq<u8>>> {
    let words = words_of(command);
    if words.len() == 0 {
        Seq::empty()
    } else if words.contains("%F"@) || words.contains("%U"@) {
        seq![args_of(words, targets)]
    } else if (words.contains("%f"@) || words.contains("%u"@)) && targets.len() > 0 {
        Seq::new(targets.len(), |i: int| args_of(words, seq![targets[i]]))
    } else {
        seq![args_of(words, Seq::empty())]
    }
}

fn word_args_of(word: &str, targets: &[FsPath], out: Vec<Vec<u8>>) -> (r: Vec<Vec<u8>>)
    ensures
        byte_rows(r@) == byte_rows(out@) + word_args(word@, paths(targets@)),
{
    let ghost head = byte_rows(out@);
    let ghost tail = word_args(word@, paths(targets@));
    let mut out = out;
    if same_text(word, "%f") || same_text(word, "%F") {
        assert(head + tail.take(0) =~= head);
        for i in 0..targets.len()
            invariant
                tail == paths(targets@),
                byte_rows(out@) == head + tail.take(i as int),
        {
            let ghost before = byte_rows(out@);
            let arg = targets[i].to_bytes();
            out.push(arg);
            assert(byte_rows(out@) =~= before.push(tail[i as int]));
            assert(before.push(tail[i as int]) =~= head + tail.take(i + 1));
        }
        assert(tail.take(tail.len() as int) =~= tail);
    } else if same_text(word, "%u") || same_text(word, "%U") {
        assert(word_kind(word@) is Uris || word_kind(word@) is Paths);
        assert(head + tail.take(0) =~= head);
        for i in 0..targets.len()
            invariant
                tail.len() == targets@.len(),
                forall|j: int|
                    0 <= j < tail.len() ==> (#[trigger] tail[j]) == encode_utf8(
                        uri_of(targets@[j]@),
                    ),
                byte_rows(out@) == head + tail.take(i as int),
        {
            let ghost before = byte_rows(out@);
            let arg = bytes_of(file_uri(&targets[i]).as_str());
            out.push(arg);
            assert(byte_rows(out@) =~= before.push(tail[i as int]));
            assert(before.push(tail[i as int]) =~= head + tail.take(i + 1));
        }
        assert(tail.take(tail.len() as int) =~= tail);
    } else if same_text(word, "%i") || same_text(word, "%c") || same_text(word, "%k") || same_text(
        word,
        "%d",
    ) || same_text(word, "%D") || same_text(word, "%n") || same_text(word, "%N") || same_text(
        word,
        "%v",
    ) || same_text(word, "%m") {
        assert(head + tail =~= head);
    } else {
        out.push(bytes_of(unescape_word(word).as_str()));
        assert(byte_rows(out@) =~= head + tail);
    }
    out
}

fn expand_tokens(words: &Vec<String>, targets: &[FsPath]) -> (r: Vec<Vec<u8>>)
    ensures
        byte_rows(r@) == args_of(texts(words@), paths(targets@)),
{
    let ghost all = texts(words@);
    let mut out: Vec<Vec<u8>> = Vec::new();
    assert(all.take(0) =~= Seq::empty());
    assert(byte_rows(out@) =~= args_of(all.take(0), paths(targets@)));
    for i in 0..words.len()
        invariant
            all == texts(words@),
            byte_rows(out@) == args_of(all.take(i as int), paths(targets@)),
    {
        proof {
            assert(all.take(i + 1).drop_last() =~= all.take(i as int));
            assert(all.take(i + 1).last() == words@[i as int]@);
        }
        out = word_args_of(words[i].as_str(), targets, out);
    }
    assert(all.take(all.len() as int) =~= all);
    out
}

/// The views of a list of command lines.
pub open spec fn line_rows(v: Seq<Vec<Vec<u8>>>) -> Seq<Seq<Seq<u8>>> {
    Seq::new(v.len(), |i: int| byte_rows(v[i]@))
}

/// The command lines to start for a command and the files to open.
pub fn build_argv(command: &str, targets: &[FsPath]) -> (r: Vec<Vec<Vec<u8>>>)
    ensures
        line_rows(r@) == command_lines(command@, paths(targets@)),
{
    let words = tokenize_exec(command);
    let mut out: Vec<Vec<Vec<u8>>> = Vec::new();
    assert(texts(words@).len() == words@.len());
    if words.len() == 0 {
        assert(line_rows(out@) =~= Seq::empty());
        return out;
    }
    if has_text(&words, "%F") || has_text(&words, "%U") {
        out.push(expand_tokens(&words, targets));
        assert(line_rows(out@) =~= seq![args_of(texts(words@), paths(targets@))]);
        return out;
    }
    if (has_text(&words, "%f") || has_text(&words, "%u")) && targets.len() > 0 {
        for i in 0..targets.len()
            invariant
                out@.len() == i,
                forall|j: int|
                    0 <= j < i ==> byte_rows((#[trigger] out@[j])@) == args_of(
                        texts(words@),
                        seq![targets@[j]@],
                    ),
        {
            let one = slice_subrange(targets, i, i + 1);
            assert(paths(one@) =~= seq![targets@[i as int]@]);
            out.push(expand_tokens(&words, one));
        }
        assert(line_rows(out@) =~= command_lines(command@, paths(targets@)));
        return out;
    }
    let none = slice_subrange(targets, 0, 0);
    assert(paths(none@) =~= Seq::empty());
    out.push(expand_tokens(&words, none));
    assert(line_rows(out@) =~= seq![args_of(texts(words@), Seq::empty())]);
    out
}

/// The terminal: the configured one, else the one of the environment, else
/// the one that comes with the desktop. Empty values count as unset.
pub open spec fn terminal_of(config: Option<Seq<char>>, env: Option<Seq<u8>>) -> Seq<u8> {
    match (config, env) {
        (Some(t), _) if t.len() > 0 => encode_utf8(t),
        (_, Some(t)) if t.len() > 0 => t,
        _ => encode_utf8("alacritty"@),
    }
}

/// The terminal.
pub fn resolve_terminal(config_terminal: Option<&str>, env_terminal: Option<&[u8]>) -> (r: Vec<u8>)
    ensures
        r@ == terminal_of(opt_str(config_terminal), opt_bytes(env_terminal)),
{
    if let Some(t) = config_terminal {
        if t.unicode_len() > 0 {
            return bytes_of(t);
        }
    }
    if let Some(t) = env_terminal {
        if t.len() > 0 {
            return copy_bytes(t);
        }
    }
    bytes_of("alacritty")
}

/// A process to start.
#[derive(Debug)]
pub struct Spawn<B = Vec<u8>, V = Vec<Vec<u8>>, P = Option<FsPath>> {
    pub program: B,
    pub args: V,
    /// The directory to start it in, if not the current one.
    pub dir: P,
}

/// The model of a [`Spawn`].
pub type SpawnView = Spawn<Seq<u8>, Seq<Seq<u8>>, Option<Seq<u8>>>;

impl View for Spawn {
    type V = SpawnView;

    open spec fn view(&self) -> SpawnView {
        Spawn {
            program: self.program@,
            args: byte_rows(self.args@),
            dir: opt_path(self.dir),
        }
    }
}

/// The views of a list of processes.
pub open spec fn spawns(v: Seq<Spawn>) -> Seq<SpawnView> {
    Seq::new(v.len(), |i: int| v[i]@)
}

/// The process that runs a command line, in the terminal if asked for.
pub open spec fn spawn_of(line: Seq<Seq<u8>>, in_terminal: bool, terminal: Seq<u8>) -> SpawnView {
    if in_terminal {
        Spawn { program: terminal, args: seq![encode_utf8("-e"@)] + line, dir: None }
    } else {
        Spawn { program: line[0], args: line.skip(1), dir: None }
    }
}

/// The processes that run a list of command lines; an empty line runs
/// nothing.
pub open spec fn spawns_of(all: Seq<Seq<Seq<u8>>>, in_terminal: bool, terminal: Seq<u8>) -> Seq<
    SpawnView,
>
    decreases all.len(),
{
    if all.len() == 0 {
        Seq::empty()
    } else {
        let rest = spawns_of(all.drop_last(), in_terminal, terminal);
        if all.last().len() == 0 {
            rest
        } else {
            rest.push(spawn_of(all.last(), in_terminal, terminal))
        }
    }
}

fn copy_args(args: &[Vec<u8>], out: Vec<Vec<u8>>) -> (r: Vec<Vec<u8>>)
    ensures
        byte_rows(r@) == byte_rows(out@) + byte_rows(args@),
{
    let ghost head = byte_rows(out@);
    let ghost tail = byte_rows(args@);
    let mut out = out;
    assert(head + tail.take(0) =~= head);
    for i in 0..args.len()
        invariant
            tail == byte_rows(args@),
            byte_rows(out@) == head + tail.take(i as int),
    {
        let ghost before = byte_rows(out@);
        let arg = copy_bytes(args[i].as_slice());
        out.push(arg);
        assert(byte_rows(out@) =~= before.push(tail[i as int]));
        assert(before.push(tail[i as int]) =~= head + tail.take(i + 1));
    }
    assert(tail.take(tail.len() as int) =~= tail);
    out
}

/// The processes that open files with an application, to be started in turn
/// until one cannot be.
pub fn open(entry: &DesktopEntry, targets: &[FsPath], terminal: &[u8]) -> (r: Vec<Spawn>)
    ensures
        spawns(r@) == spawns_of(
            command_lines(entry@.command, paths(targets@)),
            entry@.terminal,
            terminal@,
        ),
{
    let all = build_argv(entry.command.as_str(), targets);
    let ghost rows = line_rows(all@);
    let mut out: Vec<Spawn> = Vec::new();
    assert(rows.take(0) =~= Seq::empty());
    assert(spawns(out@) =~= spawns_of(rows.take(0), entry@.terminal, terminal@));
    for i in 0..all.len()
        invariant
            rows == line_rows(all@),
            spawns(out@) == spawns_of(rows.take(i as int), entry@.terminal, terminal@),
    {
        let ghost before = spawns(out@);
        let line = all[i].as_slice();
        proof {
            assert(rows[i as int] == byte_rows(line@));
            assert(rows.take(i + 1).drop_last() =~= rows.take(i as int));
            assert(rows.take(i + 1).last() == rows[i as int]);
        }
        if line.len() > 0 {
            let none: Vec<Vec<u8>> = Vec::new();
            assert(byte_rows(none@) =~= Seq::empty());
            let spawn = if entry.terminal {
                let mut args = none;
                args.push(bytes_of("-e"));
                assert(byte_rows(args@) =~= seq![encode_utf8("-e"@)]);
                Spawn { program: copy_bytes(terminal), args: copy_args(line, args), dir: None }
            } else {
                let rest = slice_subrange(line, 1, line.len());
                assert(byte_rows(rest@) =~= byte_rows(line@).skip(1));
                let program = copy_bytes(line[0].as_slice());
                let args = copy_args(rest, none);
                assert(byte_rows(args@) =~= byte_rows(line@).skip(1));
                Spawn { program, args, dir: None }
            };
            assert(spawn@ == spawn_of(byte_rows(line@), entry@.terminal, terminal@));
            let ghost v = spawn@;
            out.push(spawn);
            assert(spawns(out@) =~= before.push(v));
        }
    }
    assert(rows.take(rows.len() as int) =~= rows);
    out
}

/// The process that opens a terminal at a path: in a directory itself, beside
/// a file.
pub fn open_terminal_here(terminal: &[u8], is_dir: bool, path: &FsPath) -> (r: Spawn)
    ensures
        r@ == (Spawn {
            program: terminal@,
            args: Seq::<Seq<u8>>::empty(),
            dir: Some(
                if is_dir {
                    path@
                } else {
                    match parent_of(path@) {
                        Some(dir) => dir,
                        None => path@,
                    }
                },
            ),
        }),
{
    let dir = if is_dir {
        path.clone()
    } else {
        match path.parent() {
            Some(dir) => dir,
            None => path.clone(),
        }
    };
    let none: Vec<Vec<u8>> = Vec::new();
    assert(byte_rows(none@) =~= Seq::empty());
    Spawn { program: copy_bytes(terminal), args: none, dir: Some(dir) }
}

// ---------------------------------------------------------------------------
// Laws
// ---------------------------------------------------------------------------

/// A text as a quoted argument: in double quotes, with a backslash before
/// each character that needs one.
pub open spec fn quoted_word(s: Seq<char>) -> Seq<char> {
    seq!['"'] + escaped_word(s) + seq!['"']
}

/// A text with a backslash before each character that needs one.
pub open spec fn escaped_word(s: Seq<char>) -> Seq<char>
    decreases s.len(),
{
    if s.len() == 0 {
        Seq::empty()
    } else if is_escapable(s[0]) {
        seq!['\\', s[0]] + escaped_word(s.skip(1))
    } else {
        seq![s[0]] + escaped_word(s.skip(1))
    }
}

proof fn escaped_word_is_read(s: Seq<char>, word: Seq<char>)
    ensures
        words_from(escaped_word(s) + seq!['"'], word, true, true) == seq![word + s],
    decreases s.len(),
{
    let text = escaped_word(s) + seq!['"'];
    if s.len() == 0 {
        assert(text =~= seq!['"']);
        assert(text.skip(1) =~= Seq::empty());
        assert(words_from(Seq::empty(), word, true, false) =~= seq![word]);
        assert(word + s =~= word);
    } else if is_escapable(s[0]) {
        assert(text[0] == '\\' && text[1] == s[0]);
        assert(text.skip(2) =~= escaped_word(s.skip(1)) + seq!['"']);
        escaped_word_is_read(s.skip(1), word.push(s[0]));
        assert(word.push(s[0]) + s.skip(1) =~= word + s);
    } else {
        assert(text[0] == s[0]);
        assert(text.skip(1) =~= escaped_word(s.skip(1)) + seq!['"']);
        escaped_word_is_read(s.skip(1), word.push(s[0]));
        assert(word.push(s[0]) + s.skip(1) =~= word + s);
    }
}

/// A quoted argument is one word, and that word is the argument, whatever
/// characters it holds.
pub proof fn quoted_word_is_one_word(s: Seq<char>)
    ensures
        words_of(quoted_word(s)) == seq![s],
{
    let text = quoted_word(s);
    assert(text[0] == '"');
    assert(text.skip(1) =~= escaped_word(s) + seq!['"']);
    escaped_word_is_read(s, Seq::empty());
    assert(Seq::<char>::empty() + s =~= s);
}

proof fn with_ids_props(
    files: Seq<MimeAppsView>,
    key: Seq<char>,
    before: Seq<Seq<char>>,
    ids: Seq<Seq<char>>,
)
    requires
        before.no_duplicates(),
        forall|i: int| 0 <= i < before.len() ==> !is_vetoed(files, key, #[trigger] before[i]),
    ensures
        ({
            let r = with_ids(files, key, before, ids);
            &&& r.no_duplicates()
            &&& forall|i: int| 0 <= i < r.len() ==> !is_vetoed(files, key, #[trigger] r[i])
            &&& before.is_prefix_of(r)
            &&& forall|i: int|
                0 <= i < ids.len() && !is_vetoed(files, key, #[trigger] ids[i]) ==> r.contains(
                    ids[i],
                )
        }),
    decreases ids.len(),
{
    if ids.len() > 0 {
        let most = ids.drop_last();
        with_ids_props(files, key, before, most);
        let rest = with_ids(files, key, before, most);
        let r = with_ids(files, key, before, ids);
        assert(before.is_prefix_of(r)) by {
            assert(r.take(before.len() as int) =~= before);
        }
        assert forall|i: int| 0 <= i < ids.len() && !is_vetoed(
            files,
            key,
            #[trigger] ids[i],
        ) implies r.contains(ids[i]) by {
            if i < most.len() {
                assert(most[i] == ids[i]);
                let j = choose|j: int| 0 <= j < rest.len() && rest[j] == ids[i];
                assert(r[j] == ids[i]);
            } else if !rest.contains(ids.last()) {
                assert(r[r.len() - 1] == ids[i]);
            }
        }
    } else {
        assert(before.take(before.len() as int) =~= before);
    }
}

/// What a chain of lists says of a type: no application twice, none that any
/// of the lists removes, and all that a list names and none removes.
pub proof fn merged_lists(files: Seq<MimeAppsView>, key: Seq<char>, n: int)
    requires
        0 <= n <= files.len(),
    ensures
        ({
            let r = merged_upto(files, key, n);
            &&& r.no_duplicates()
            &&& forall|i: int| 0 <= i < r.len() ==> !is_vetoed(files, key, #[trigger] r[i])
            &&& forall|j: int, id: Seq<char>|
                0 <= j < n && !is_vetoed(files, key, id) && #[trigger] names(files, j, key, id)
                    ==> r.contains(id)
        }),
    decreases n,
{
    if n > 0 {
        merged_lists(files, key, n - 1);
        let old = merged_upto(files, key, n - 1);
        let defaults = listed_ids(files[n - 1].default_applications, key);
        let added = listed_ids(files[n - 1].added_associations, key);
        let mid = with_ids(files, key, old, defaults);
        with_ids_props(files, key, old, defaults);
        with_ids_props(files, key, mid, added);
        let r = merged_upto(files, key, n);
        assert forall|j: int, id: Seq<char>|
            0 <= j < n && !is_vetoed(files, key, id) && #[trigger] names(
                files,
                j,
                key,
                id,
            ) implies r.contains(id) by {
            if j < n - 1 {
                assert(old.contains(id));
                let k = choose|k: int| 0 <= k < old.len() && old[k] == id;
                assert(mid[k] == id);
                assert(r[k] == id);
            } else if defaults.contains(id) {
                let k = choose|k: int| 0 <= k < defaults.len() && defaults[k] == id;
                assert(mid.contains(defaults[k]));
                let m = choose|m: int| 0 <= m < mid.len() && mid[m] == id;
                assert(r[m] == id);
            } else {
                let k = choose|k: int| 0 <= k < added.len() && added[k] == id;
                assert(r.contains(added[k]));
            }
        }
    }
}

/// Whether a list names an application for a type.
pub open spec fn names(files: Seq<MimeAppsView>, j: int, key: Seq<char>, id: Seq<char>) -> bool {
    listed_ids(files[j].default_applications, key).contains(id) || listed_ids(
        files[j].added_associations,
        key,
    ).contains(id)
}

/// What the lists that count more say is never changed by those that count
/// less, only added to.
pub proof fn earlier_lists_come_first(files: Seq<MimeAppsView>, key: Seq<char>, m: int, n: int)
    requires
        0 <= m <= n <= files.len(),
    ensures
        merged_upto(files, key, m).is_prefix_of(merged_upto(files, key, n)),
    decreases n,
{
    let a = merged_upto(files, key, m);
    if m == n {
        assert(a.take(a.len() as int) =~= a);
    } else {
        earlier_lists_come_first(files, key, m, n - 1);
        merged_lists(files, key, n - 1);
        let old = merged_upto(files, key, n - 1);
        let defaults = listed_ids(files[n - 1].default_applications, key);
        let added = listed_ids(files[n - 1].added_associations, key);
        with_ids_props(files, key, old, defaults);
        with_ids_props(files, key, with_ids(files, key, old, defaults), added);
        let r = merged_upto(files, key, n);
        assert(r.take(a.len() as int) =~= a);
    }
}

proof fn entry_with_props(entries: Seq<DesktopEntryView>, id: Seq<char>)
    ensures
        entry_with(entries, id) is None <==> (forall|i: int|
            0 <= i < entries.len() ==> (#[trigger] entries[i]).id != id),
        entry_with(entries, id) is Some ==> entry_with(entries, id)->0.id == id
            && entries.contains(entry_with(entries, id)->0),
    decreases entries.len(),
{
    if entries.len() > 0 {
        let rest = entries.skip(1);
        entry_with_props(rest, id);
        assert(entries[0] == entries[0]);
        if entry_with(rest, id) is None {
            assert forall|i: int| 0 < i < entries.len() implies (#[trigger] entries[i]).id != id by {
                assert(rest[i - 1] == entries[i]);
            }
        } else {
            let e = entry_with(rest, id)->0;
            let k = choose|k: int| 0 <= k < rest.len() && rest[k] == e;
            assert(entries[k + 1] == e);
            assert(entries.contains(e));
        }
    }
}

/// No two applications have one identifier, and the file that counts most
/// decides: what is installed from the first files stays, whatever follows.
pub proof fn first_file_of_an_id_counts(files: Seq<DesktopFile<Seq<char>>>, n: int)
    requires
        0 <= n <= files.len(),
    ensures
        installed(files.take(n)).is_prefix_of(installed(files)),
        forall|i: int, j: int|
            0 <= i < j < installed(files).len() ==> (#[trigger] installed(files)[i]).id != (
            #[trigger] installed(files)[j]).id,
    decreases files.len(),
{
    let all = installed(files);
    if files.len() > 0 {
        let most = files.drop_last();
        let rest = installed(most);
        entry_with_props(rest, files.last().id);
        if n < files.len() {
            first_file_of_an_id_counts(most, n);
            assert(most.take(n) =~= files.take(n));
            let a = installed(files.take(n));
            assert(all.take(a.len() as int) =~= a);
        } else {
            first_file_of_an_id_counts(most, most.len() as int);
            assert(files.take(n) =~= files);
            assert(all.take(all.len() as int) =~= all);
        }
        assert forall|i: int, j: int| 0 <= i < j < all.len() implies (#[trigger] all[i]).id != (
        #[trigger] all[j]).id by {
            assert(all[i] == rest[i]);
            if j < rest.len() {
                assert(all[j] == rest[j]);
            }
        }
    } else {
        assert(files.take(n) =~= files);
        assert(all.take(0) =~= all);
    }
}

/// The application that opens a type by default is installed and is among
/// those that the lists name for the type.
pub proof fn default_is_installed(db: AppsView, mimetype: Seq<char>)
    ensures
        default_app(db, mimetype) matches Some(e) ==> db.entries.contains(e) && listed_ids(
            db.associations,
            mimetype,
        ).contains(e.id),
{
    let ids = listed_ids(db.associations, mimetype);
    first_installed_props(db.entries, ids);
}

proof fn first_installed_props(entries: Seq<DesktopEntryView>, ids: Seq<Seq<char>>)
    ensures
        first_installed(entries, ids) matches Some(e) ==> entries.contains(e) && ids.contains(e.id),
    decreases ids.len(),
{
    if ids.len() > 0 {
        entry_with_props(entries, ids[0]);
        first_installed_props(entries, ids.skip(1));
        match entry_with(entries, ids[0]) {
            Some(e) => {
                assert(ids[0] == e.id);
            },
            None => {
                if let Some(e) = first_installed(entries, ids.skip(1)) {
                    let k = choose|k: int| 0 <= k < ids.skip(1).len() && ids.skip(1)[k] == e.id;
                    assert(ids[k + 1] == e.id);
                }
            },
        }
    }
}

} // verus!
