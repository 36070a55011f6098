//! The trash: where a deleted file goes, the record that is kept of it, and
//! the way back.
//!
//! The trash is a local affair. A file goes to the trash of the home
//! directory if it lies on the same device, else to a trash at the top of its
//! own device, because a rename never crosses devices.
use crate::model::fs::disk::{
    DiskAction, DiskActionView, DiskFailure, DiskReply, DiskReplyView, DiskStat, Next, path_err,
    path_failure,
};
use crate::model::fs::entry::EntryKind;
use crate::model::fs::format::{civil_from_days, date_is, date_of, year_is_positive};
use crate::model::vfs::{VfsError, VfsErrorView, root_path};
use crate::modules::local::{IoKind, RawStat, kind_of, stat_kind};
use crate::path::{
    DOT, FsPath, SEP, equal_paths, file_name_bytes, file_name_of, joined, name_extension,
    name_stem, opt_path, opt_vec, parent_of, same_path, split_name, stripped,
};
use crate::percent::{decode_percent, encode_percent, escaped, unescaped};
use crate::text::{
    bytes_of, chars_of, concat_bytes, copy_bytes, copy_of, decimal, decimal_of, decimal_padded,
    has_prefix, is_space, is_white_space, lines, lines_of, lossy, opt_text, parse_unsigned,
    parsed_unsigned, rows, same_bytes, shown, string_of, texts, trim, trim_start, trimmed,
    trimmed_start, zero_padded,
};
use vstd::prelude::*;
use vstd::slice::slice_subrange;
use vstd::utf8::*;

verus! {

/// The mode bit that keeps users from each other's entries in a shared
/// directory.
pub const STICKY_BIT: u32 = 0x200;

/// How many names are tried for an entry of the trash.
pub const MAX_SLOTS: u32 = 1000;

// ---------------------------------------------------------------------------
// Directories
// ---------------------------------------------------------------------------

/// Where user data lives: `$XDG_DATA_HOME`, else `.local/share` below home.
/// An empty value counts as unset.
pub open spec fn data_home(xdg: Option<Seq<u8>>, home: Option<Seq<u8>>) -> Option<Seq<u8>> {
    match xdg {
        Some(dir) if dir.len() > 0 => Some(dir),
        _ => match home {
            Some(dir) if dir.len() > 0 => Some(joined(dir, encode_utf8(".local/share"@))),
            _ => None,
        },
    }
}

/// Where user data lives, from the values of the two variables.
pub fn data_home_from(xdg_data_home: Option<Vec<u8>>, home: Option<Vec<u8>>) -> (r: Option<FsPath>)
    ensures
        opt_path(r) == data_home(opt_vec(xdg_data_home), opt_vec(home)),
{
    match xdg_data_home {
        Some(dir) => {
            if dir.len() > 0 {
                return Some(FsPath::from_bytes(dir));
            }
        },
        None => {},
    }
    match home {
        Some(dir) => {
            if dir.len() > 0 {
                return Some(FsPath::from_bytes(dir).join_bytes(bytes_of(".local/share").as_slice()));
            }
            None
        },
        None => None,
    }
}

/// The trash of the home directory.
pub open spec fn home_trash(xdg: Option<Seq<u8>>, home: Option<Seq<u8>>) -> Option<Seq<u8>> {
    match data_home(xdg, home) {
        Some(dir) => Some(joined(dir, encode_utf8("Trash"@))),
        None => None,
    }
}

/// The trash of the home directory, from the values of the two variables.
pub fn home_trash_dir(xdg_data_home: Option<Vec<u8>>, home: Option<Vec<u8>>) -> (r: Option<FsPath>)
    ensures
        opt_path(r) == home_trash(opt_vec(xdg_data_home), opt_vec(home)),
{
    match data_home_from(xdg_data_home, home) {
        Some(dir) => Some(dir.join_bytes(bytes_of("Trash").as_slice())),
        None => None,
    }
}

/// Where a trash keeps the trashed files.
pub open spec fn files_dir(trash: Seq<u8>) -> Seq<u8> {
    joined(trash, encode_utf8("files"@))
}

/// Where a trash keeps the records.
pub open spec fn info_dir(trash: Seq<u8>) -> Seq<u8> {
    joined(trash, encode_utf8("info"@))
}

/// Where a trash keeps the trashed files.
pub fn files_dir_of(trash: &FsPath) -> (r: FsPath)
    ensures
        r@ == files_dir(trash@),
{
    trash.join_bytes(bytes_of("files").as_slice())
}

/// Where a trash keeps the records.
pub fn info_dir_of(trash: &FsPath) -> (r: FsPath)
    ensures
        r@ == info_dir(trash@),
{
    trash.join_bytes(bytes_of("info").as_slice())
}

/// Whether a shared trash can be trusted: a real directory with the sticky
/// bit.
pub open spec fn is_shared_trash(stat: DiskStat) -> bool {
    stat.is_dir && stat.mode & STICKY_BIT != 0
}

/// Decides [`is_shared_trash`]; a directory that cannot be described is none.
pub fn is_valid_shared_trash(stat: Option<DiskStat>) -> (r: bool)
    ensures
        r == (stat is Some && is_shared_trash(stat->0)),
{
    match stat {
        Some(stat) => stat.is_dir && stat.mode & STICKY_BIT != 0,
        None => false,
    }
}

/// The first word of a text.
pub open spec fn first_word(s: Seq<char>) -> Option<Seq<char>> {
    let t = trimmed_start(s);
    if t.len() == 0 {
        None
    } else {
        Some(t.take(word_len(t)))
    }
}

/// The number of characters before the first white space.
pub open spec fn word_len(s: Seq<char>) -> int
    decreases s.len(),
{
    if s.len() == 0 || is_space(s[0]) {
        0
    } else {
        1 + word_len(s.skip(1))
    }
}

/// What follows `key` on the first line that starts with it.
pub open spec fn first_field(file: Seq<Seq<char>>, key: Seq<char>) -> Option<Seq<char>>
    decreases file.len(),
{
    if file.len() == 0 {
        None
    } else if key.is_prefix_of(file[0]) {
        Some(file[0].skip(key.len() as int))
    } else {
        first_field(file.skip(1), key)
    }
}

/// The user id in a process status: the first word of the line `Uid:`.
pub open spec fn uid_in(status: Seq<char>) -> Option<nat> {
    match first_field(lines(status), "Uid:"@) {
        Some(rest) => match first_word(rest) {
            Some(word) => parsed_unsigned(word, u32::MAX as nat),
            None => None,
        },
        None => None,
    }
}

fn first_word_of(cs: &[char]) -> (r: Option<&[char]>)
    ensures
        r is Some <==> first_word(cs@) is Some,
        r is Some ==> r->0@ == first_word(cs@)->0,
{
    let t = trim_start(cs);
    if t.len() == 0 {
        return None;
    }
    let mut i: usize = 0;
    assert(t@.skip(0) =~= t@);
    while i < t.len() && !is_white_space(t[i])
        invariant
            i <= t@.len(),
            word_len(t@) == i + word_len(t@.skip(i as int)),
        decreases t@.len() - i,
    {
        assert(t@.skip(i as int).skip(1) =~= t@.skip(i + 1));
        i = i + 1;
    }
    Some(slice_subrange(t, 0, i))
}

fn first_field_of<'a>(file: &'a Vec<Vec<char>>, key: &str) -> (r: Option<&'a [char]>)
    ensures
        r is Some <==> first_field(rows(file@), key@) is Some,
        r is Some ==> r->0@ == first_field(rows(file@), key@)->0,
{
    let ghost all = rows(file@);
    assert(all.skip(0) =~= all);
    for i in 0..file.len()
        invariant
            all == rows(file@),
            first_field(all, key@) == first_field(all.skip(i as int), key@),
    {
        let line = file[i].as_slice();
        assert(all.skip(i as int)[0] == line@);
        if has_prefix(line, key) {
            let rest = slice_subrange(line, key.unicode_len(), line.len());
            assert(rest@ =~= line@.skip(key@.len() as int));
            return Some(rest);
        }
        assert(all.skip(i as int).skip(1) =~= all.skip(i + 1));
    }
    assert(all.skip(all.len() as int).len() == 0);
    None
}

/// The user id in a process status.
pub fn parse_uid(status: &str) -> (r: Option<u32>)
    ensures
        r is Some <==> uid_in(status@) is Some,
        r is Some ==> r->0 as nat == uid_in(status@)->0,
{
    let cs = chars_of(status);
    let file = lines_of(cs.as_slice());
    match first_field_of(&file, "Uid:") {
        Some(rest) => match first_word_of(rest) {
            Some(word) => match parse_unsigned(word, 0xFFFF_FFFF) {
                Some(n) => Some(n as u32),
                None => None,
            },
            None => None,
        },
        None => None,
    }
}

// ---------------------------------------------------------------------------
// Records
// ---------------------------------------------------------------------------

/// What a record says.
#[derive(Debug)]
pub struct TrashInfo<P = FsPath, T = String> {
    /// Where the file was; relative to the top of its device for a trash
    /// there.
    pub path: P,
    pub deletion_date: T,
}

/// The model of a [`TrashInfo`].
pub type TrashInfoView = TrashInfo<Seq<u8>, Seq<char>>;

impl View for TrashInfo {
    type V = TrashInfoView;

    open spec fn view(&self) -> TrashInfoView {
        TrashInfo { path: self.path@, deletion_date: self.deletion_date@ }
    }
}

/// The view of an optional record.
pub open spec fn opt_info(o: Option<TrashInfo>) -> Option<TrashInfoView> {
    match o {
        Some(info) => Some(info@),
        None => None,
    }
}

/// What follows `key` on the last line that starts with it, white space at
/// the ends of lines aside.
pub open spec fn last_field(file: Seq<Seq<char>>, key: Seq<char>) -> Option<Seq<char>>
    decreases file.len(),
{
    if file.len() == 0 {
        None
    } else if key.is_prefix_of(trimmed(file.last())) {
        Some(trimmed(file.last()).skip(key.len() as int))
    } else {
        last_field(file.drop_last(), key)
    }
}

/// The record in a text. One without a path is none; one without a date has
/// an empty date.
pub open spec fn info_in(contents: Seq<char>) -> Option<TrashInfoView> {
    let file = lines(contents);
    match last_field(file, "Path="@) {
        Some(value) => Some(
            TrashInfo {
                path: unescaped(encode_utf8(value)),
                deletion_date: match last_field(file, "DeletionDate="@) {
                    Some(date) => date,
                    None => Seq::empty(),
                },
            },
        ),
        None => None,
    }
}

/// The text of a record.
pub open spec fn info_text(info: TrashInfoView) -> Seq<char> {
    "[Trash Info]\nPath="@ + escaped(info.path) + "\nDeletionDate="@ + info.deletion_date + "\n"@
}

fn last_field_of(file: &Vec<Vec<char>>, key: &str) -> (r: Option<String>)
    ensures
        opt_text(r) == last_field(rows(file@), key@),
{
    let ghost all = rows(file@);
    let mut i: usize = file.len();
    assert(all.take(all.len() as int) =~= all);
    while i > 0
        invariant
            i <= file@.len(),
            all == rows(file@),
            last_field(all, key@) == last_field(all.take(i as int), key@),
        decreases i,
    {
        let line = trim(file[i - 1].as_slice());
        assert(all.take(i as int).last() == file@[i - 1]@);
        if has_prefix(line, key) {
            let rest = slice_subrange(line, key.unicode_len(), line.len());
            assert(rest@ =~= line@.skip(key@.len() as int));
            return Some(string_of(rest));
        }
        assert(all.take(i as int).drop_last() =~= all.take(i - 1));
        i = i - 1;
    }
    None
}

impl TrashInfo {
    /// Reads a record.
    pub fn parse(contents: &str) -> (r: Option<TrashInfo>)
        ensures
            opt_info(r) == info_in(contents@),
    {
        let cs = chars_of(contents);
        let file = lines_of(cs.as_slice());
        match last_field_of(&file, "Path=") {
            Some(value) => {
                let deletion_date = match last_field_of(&file, "DeletionDate=") {
                    Some(date) => date,
                    None => {
                        let none = String::new();
                        assert(none@ =~= Seq::empty());
                        none
                    },
                };
                Some(
                    TrashInfo {
                        path: FsPath::from_bytes(decode_percent(value.as_str())),
                        deletion_date,
                    },
                )
            },
            None => None,
        }
    }

    /// Writes the record.
    pub fn to_text(&self) -> (r: String)
        ensures
            r@ == info_text(self@),
    {
        let mut out = copy_of("[Trash Info]\nPath=");
        out.append(encode_percent(self.path.as_bytes()).as_str());
        out.append("\nDeletionDate=");
        out.append(self.deletion_date.as_str());
        out.append("\n");
        out
    }
}

/// The date of a deletion, in UTC.
pub open spec fn deletion_date(secs: u64) -> Seq<char> {
    let (y, m, d) = date_of(secs as int / 86_400);
    let of_day = secs as int % 86_400;
    zero_padded(decimal(y as nat), 4) + "-"@ + zero_padded(decimal(m as nat), 2) + "-"@
        + zero_padded(decimal(d as nat), 2) + "T"@ + zero_padded(
        decimal((of_day / 3600) as nat),
        2,
    ) + ":"@ + zero_padded(decimal((of_day % 3600 / 60) as nat), 2) + ":"@ + zero_padded(
        decimal((of_day % 60) as nat),
        2,
    )
}

/// The date of a deletion at a time in seconds since the epoch.
pub fn format_deletion_date(secs: u64) -> (r: String)
    ensures
        r@ == deletion_date(secs),
{
    let days: i64 = (secs / 86_400) as i64;
    let of_day: u64 = secs % 86_400;
    let (y, m, d) = civil_from_days(days);
    proof {
        date_is(y as int, m as int, d as int);
        year_is_positive(y as int, m as int, d as int);
    }
    let mut out = decimal_padded(y as u64, 4);
    out.append("-");
    out.append(decimal_padded(m as u64, 2).as_str());
    out.append("-");
    out.append(decimal_padded(d as u64, 2).as_str());
    out.append("T");
    out.append(decimal_padded(of_day / 3600, 2).as_str());
    out.append(":");
    out.append(decimal_padded(of_day % 3600 / 60, 2).as_str());
    out.append(":");
    out.append(decimal_padded(of_day % 60, 2).as_str());
    out
}

/// The `n`-th name that is tried for an entry of the trash.
pub open spec fn slot_name(name: Seq<u8>, n: nat) -> Seq<u8> {
    if n == 0 {
        name
    } else {
        name.push(DOT) + encode_utf8(decimal(n))
    }
}

/// Where the `n`-th name would keep the file.
pub open spec fn slot_file(trash: Seq<u8>, name: Seq<u8>, n: nat) -> Seq<u8> {
    joined(files_dir(trash), slot_name(name, n))
}

/// Where the `n`-th name would keep the record.
pub open spec fn slot_info(trash: Seq<u8>, name: Seq<u8>, n: nat) -> Seq<u8> {
    joined(info_dir(trash), slot_name(name, n) + encode_utf8(".trashinfo"@))
}

fn slot_name_of(name: &[u8], n: u32) -> (r: Vec<u8>)
    ensures
        r@ == slot_name(name@, n as nat),
{
    let mut out = copy_bytes(name);
    if n > 0 {
        out.push(DOT);
        concat_bytes(out.as_slice(), bytes_of(decimal_of(n as u64).as_str()).as_slice())
    } else {
        out
    }
}

fn slot_file_of(trash: &FsPath, name: &[u8], n: u32) -> (r: FsPath)
    ensures
        r@ == slot_file(trash@, name@, n as nat),
{
    files_dir_of(trash).join_bytes(slot_name_of(name, n).as_slice())
}

fn slot_info_of(trash: &FsPath, name: &[u8], n: u32) -> (r: FsPath)
    ensures
        r@ == slot_info(trash@, name@, n as nat),
{
    let slot = slot_name_of(name, n);
    let full = concat_bytes(slot.as_slice(), bytes_of(".trashinfo").as_slice());
    info_dir_of(trash).join_bytes(full.as_slice())
}

/// The first of the names that is free, where `taken_files` and `taken_info`
/// tell which paths exist.
pub open spec fn first_slot(
    trash: Seq<u8>,
    name: Seq<u8>,
    taken: spec_fn(Seq<u8>) -> bool,
    n: nat,
) -> Option<nat>
    decreases MAX_SLOTS - n,
{
    if n >= MAX_SLOTS {
        None
    } else if !taken(slot_file(trash, name, n)) && !taken(slot_info(trash, name, n)) {
        Some(n)
    } else {
        first_slot(trash, name, taken, n + 1)
    }
}

// ---------------------------------------------------------------------------
// Trashed items
// ---------------------------------------------------------------------------

/// All it takes to restore a trashed item.
#[derive(Debug)]
pub struct TrashId<P = FsPath> {
    pub info_path: P,
    pub files_path: P,
    /// The top of the device for a trash there; absent for the trash of the
    /// home directory.
    pub topdir: Option<P>,
}

/// The model of a [`TrashId`].
pub type TrashIdView = TrashId<Seq<u8>>;

impl View for TrashId {
    type V = TrashIdView;

    open spec fn view(&self) -> TrashIdView {
        TrashId {
            info_path: self.info_path@,
            files_path: self.files_path@,
            topdir: opt_path(self.topdir),
        }
    }
}

/// Clones an optional path.
fn copy_path(o: &Option<FsPath>) -> (r: Option<FsPath>)
    ensures
        opt_path(r) == opt_path(*o),
{
    match o {
        Some(p) => Some(p.clone()),
        None => None,
    }
}

impl Clone for TrashId {
    fn clone(&self) -> (r: Self)
        ensures
            r@ == self@,
    {
        TrashId {
            info_path: self.info_path.clone(),
            files_path: self.files_path.clone(),
            topdir: copy_path(&self.topdir),
        }
    }
}

/// Whether two optional paths denote the same place.
pub open spec fn same_opt_path(a: Option<Seq<u8>>, b: Option<Seq<u8>>) -> bool {
    match (a, b) {
        (Some(a), Some(b)) => same_path(a, b),
        (None, None) => true,
        _ => false,
    }
}

/// Whether two identifiers denote the same item.
pub open spec fn same_id(a: TrashIdView, b: TrashIdView) -> bool {
    same_path(a.info_path, b.info_path) && same_path(a.files_path, b.files_path) && same_opt_path(
        a.topdir,
        b.topdir,
    )
}

impl PartialEq for TrashId {
    fn eq(&self, other: &Self) -> (r: bool) {
        self.info_path == other.info_path && self.files_path == other.files_path && match (
            &self.topdir,
            &other.topdir,
        ) {
            (Some(a), Some(b)) => equal_paths(a.as_bytes(), b.as_bytes()),
            (None, None) => true,
            _ => false,
        }
    }
}

impl vstd::std_specs::cmp::PartialEqSpecImpl for TrashId {
    open spec fn obeys_eq_spec() -> bool {
        true
    }

    open spec fn eq_spec(&self, other: &Self) -> bool {
        same_id(self@, other@)
    }
}

impl Eq for TrashId {

}

impl TrashId {
    /// Where the trashed file is.
    pub fn files_path(&self) -> (r: &FsPath)
        ensures
            r@ == self@.files_path,
    {
        &self.files_path
    }
}

/// One row of the trash view.
#[derive(Debug)]
pub struct TrashedItem<P = FsPath, T = String> {
    pub id: TrashId<P>,
    /// Where the item came from.
    pub original_path: P,
    /// As the record has it.
    pub deletion_date: T,
    pub kind: EntryKind,
    pub size: u64,
    pub is_symlink: bool,
}

/// The model of a [`TrashedItem`].
pub type TrashedItemView = TrashedItem<Seq<u8>, Seq<char>>;

impl View for TrashedItem {
    type V = TrashedItemView;

    open spec fn view(&self) -> TrashedItemView {
        TrashedItem {
            id: self.id@,
            original_path: self.original_path@,
            deletion_date: self.deletion_date@,
            kind: self.kind,
            size: self.size,
            is_symlink: self.is_symlink,
        }
    }
}

/// The views of a list of items.
pub open spec fn items(v: Seq<TrashedItem>) -> Seq<TrashedItemView> {
    Seq::new(v.len(), |i: int| v[i]@)
}

/// An entry of the directory of records, with what was found there: the text
/// of the record and the description of the trashed file, as far as they
/// could be read.
#[derive(Debug)]
pub struct TrashRecord<P = FsPath, T = String> {
    pub info_path: P,
    pub contents: Option<T>,
    pub stat: Option<RawStat>,
}

/// The model of a [`TrashRecord`].
pub type TrashRecordView = TrashRecord<Seq<u8>, Seq<char>>;

impl View for TrashRecord {
    type V = TrashRecordView;

    open spec fn view(&self) -> TrashRecordView {
        TrashRecord {
            info_path: self.info_path@,
            contents: opt_text(self.contents),
            stat: self.stat,
        }
    }
}

/// The views of a list of records.
pub open spec fn records(v: Seq<TrashRecord>) -> Seq<TrashRecordView> {
    Seq::new(v.len(), |i: int| v[i]@)
}

/// The trashed file that an entry of the directory of records is about; only
/// entries with the suffix of a record are about one.
pub open spec fn record_target(trash: Seq<u8>, info_path: Seq<u8>) -> Option<Seq<u8>> {
    match file_name_of(info_path) {
        Some(name) => if name_extension(name) == Some(encode_utf8("trashinfo"@)) {
            Some(joined(files_dir(trash), name_stem(name)))
        } else {
            None
        },
        None => None,
    }
}

/// The trashed file that an entry of the directory of records is about.
pub fn record_files_path(trash: &FsPath, info_path: &FsPath) -> (r: Option<FsPath>)
    ensures
        opt_path(r) == record_target(trash@, info_path@),
{
    match file_name_bytes(info_path.as_bytes()) {
        Some(name) => {
            let (stem, ext) = split_name(name);
            match ext {
                Some(ext) => {
                    if same_bytes(ext, bytes_of("trashinfo").as_slice()) {
                        Some(files_dir_of(trash).join_bytes(stem))
                    } else {
                        None
                    }
                },
                None => None,
            }
        },
        None => None,
    }
}

/// What comes of one record: a row, a warning, or nothing.
#[derive(Debug)]
pub enum RecordOutcome<I = TrashedItem, T = String> {
    Item(I),
    Warning(T),
    Ignored,
}

impl View for RecordOutcome {
    type V = RecordOutcome<TrashedItemView, Seq<char>>;

    open spec fn view(&self) -> RecordOutcome<TrashedItemView, Seq<char>> {
        match self {
            RecordOutcome::Item(i) => RecordOutcome::Item(i@),
            RecordOutcome::Warning(t) => RecordOutcome::Warning(t@),
            RecordOutcome::Ignored => RecordOutcome::Ignored,
        }
    }
}

/// What comes of one record. An unreadable record, one without a path, and
/// one without its file are left out with a warning.
pub open spec fn record_outcome(trash: Seq<u8>, record: TrashRecordView) -> RecordOutcome<
    TrashedItemView,
    Seq<char>,
> {
    match record_target(trash, record.info_path) {
        None => RecordOutcome::Ignored,
        Some(files_path) => match record.contents {
            None => RecordOutcome::Warning("saola-files: couldn't read "@ + shown(record.info_path)),
            Some(contents) => match info_in(contents) {
                None => RecordOutcome::Warning(
                    "saola-files: "@ + shown(record.info_path)
                        + " isn't a valid .trashinfo file \u{2014} skipping"@,
                ),
                Some(info) => match record.stat {
                    None => RecordOutcome::Warning(
                        "saola-files: "@ + shown(record.info_path)
                            + " has no matching trashed file at "@ + shown(files_path)
                            + " \u{2014} skipping"@,
                    ),
                    Some(stat) => RecordOutcome::Item(
                        TrashedItem {
                            id: TrashId { info_path: record.info_path, files_path, topdir: None },
                            original_path: info.path,
                            deletion_date: info.deletion_date,
                            kind: kind_of(stat),
                            size: stat.size,
                            is_symlink: stat.is_symlink,
                        },
                    ),
                },
            },
        },
    }
}

/// Reads one record.
fn read_record(trash: &FsPath, record: TrashRecord) -> (r: RecordOutcome)
    ensures
        r@ == record_outcome(trash@, record@),
{
    let files_path = match record_files_path(trash, &record.info_path) {
        None => {
            return RecordOutcome::Ignored;
        },
        Some(p) => p,
    };
    let shown_path = record.info_path.display();
    let contents = match record.contents {
        None => {
            return RecordOutcome::Warning(
                copy_of("saola-files: couldn't read ").concat(shown_path.as_str()),
            );
        },
        Some(t) => t,
    };
    let info = match TrashInfo::parse(contents.as_str()) {
        None => {
            return RecordOutcome::Warning(
                copy_of("saola-files: ").concat(shown_path.as_str()).concat(
                    " isn't a valid .trashinfo file \u{2014} skipping",
                ),
            );
        },
        Some(info) => info,
    };
    match record.stat {
        None => RecordOutcome::Warning(
            copy_of("saola-files: ").concat(shown_path.as_str()).concat(
                " has no matching trashed file at ",
            ).concat(files_path.display().as_str()).concat(" \u{2014} skipping"),
        ),
        Some(stat) => RecordOutcome::Item(
            TrashedItem {
                id: TrashId { info_path: record.info_path, files_path, topdir: None },
                original_path: info.path,
                deletion_date: info.deletion_date,
                kind: stat_kind(&stat),
                size: stat.size,
                is_symlink: stat.is_symlink,
            },
        ),
    }
}

/// The rows that a list of records gives, in their order.
pub open spec fn rows_of(trash: Seq<u8>, list: Seq<TrashRecordView>) -> Seq<TrashedItemView>
    decreases list.len(),
{
    if list.len() == 0 {
        Seq::empty()
    } else {
        let rest = rows_of(trash, list.drop_last());
        match record_outcome(trash, list.last()) {
            RecordOutcome::Item(item) => rest.push(item),
            _ => rest,
        }
    }
}

/// The warnings that a list of records gives, in their order.
pub open spec fn warnings_of_records(trash: Seq<u8>, list: Seq<TrashRecordView>) -> Seq<Seq<char>>
    decreases list.len(),
{
    if list.len() == 0 {
        Seq::empty()
    } else {
        let rest = warnings_of_records(trash, list.drop_last());
        match record_outcome(trash, list.last()) {
            RecordOutcome::Warning(text) => rest.push(text),
            _ => rest,
        }
    }
}

fn read_records(trash: &FsPath, list: Vec<TrashRecord>) -> (r: (Vec<TrashedItem>, Vec<String>))
    ensures
        items(r.0@) == rows_of(trash@, records(list@)),
        texts(r.1@) == warnings_of_records(trash@, records(list@)),
{
    let ghost all = records(list@);
    let mut rest = list;
    let mut taken: Vec<TrashRecord> = Vec::new();
    let mut out: Vec<TrashedItem> = Vec::new();
    let mut warnings: Vec<String> = Vec::new();
    let n = rest.len();
    for i in 0..n
        invariant
            n == all.len(),
            rest@.len() == n - i,
            taken@.len() == i,
            all.take(n - i) == records(rest@),
            forall|j: int| 0 <= j < i ==> (#[trigger] taken@[j])@ == all[n - 1 - j],
    {
        proof {
            assert(all.take(n - i).last() == rest@.last()@);
            assert(records(rest@.drop_last()) =~= all.take(n - i - 1));
        }
        match rest.pop() {
            Some(record) => taken.push(record),
            None => {},
        }
    }
    assert(all.take(0) =~= Seq::empty());
    assert(items(out@) =~= rows_of(trash@, all.take(0)));
    assert(texts(warnings@) =~= warnings_of_records(trash@, all.take(0)));
    for i in 0..n
        invariant
            n == all.len(),
            taken@.len() == n - i,
            forall|j: int| 0 <= j < n - i ==> (#[trigger] taken@[j])@ == all[n - 1 - j],
            items(out@) == rows_of(trash@, all.take(i as int)),
            texts(warnings@) == warnings_of_records(trash@, all.take(i as int)),
    {
        proof {
            assert(taken@[n - i - 1]@ == all[i as int]);
            assert(all.take(i + 1).drop_last() =~= all.take(i as int));
            assert(all.take(i + 1).last() == all[i as int]);
        }
        let ghost before = (items(out@), texts(warnings@));
        match taken.pop() {
            Some(record) => match read_record(trash, record) {
                RecordOutcome::Item(item) => {
                    let ghost v = item@;
                    out.push(item);
                    assert(items(out@) =~= before.0.push(v));
                },
                RecordOutcome::Warning(text) => {
                    let ghost v = text@;
                    warnings.push(text);
                    assert(texts(warnings@) =~= before.1.push(v));
                },
                RecordOutcome::Ignored => {},
            },
            None => {},
        }
    }
    assert(all.take(all.len() as int) =~= all);
    (out, warnings)
}

/// The view of a listing of records.
pub open spec fn listing_view(listing: Result<Vec<TrashRecord>, DiskFailure>) -> Result<
    Seq<TrashRecordView>,
    DiskFailure<Seq<char>>,
> {
    match listing {
        Ok(list) => Ok(records(list@)),
        Err(failure) => Err(failure@),
    }
}

/// The view of a list of items or an error.
pub open spec fn items_result(r: Result<Vec<TrashedItem>, VfsError>) -> Result<
    Seq<TrashedItemView>,
    VfsErrorView,
> {
    match r {
        Ok(list) => Ok(items(list@)),
        Err(e) => Err(e@),
    }
}

/// The rows of a trash. A trash without a directory of records is empty.
pub open spec fn listed(
    trash: Seq<u8>,
    listing: Result<Seq<TrashRecordView>, DiskFailure<Seq<char>>>,
) -> Result<Seq<TrashedItemView>, VfsErrorView> {
    match listing {
        Ok(list) => Ok(rows_of(trash, list)),
        Err(failure) => if failure.kind == IoKind::NotFound {
            Ok(Seq::empty())
        } else {
            Err(path_failure(info_dir(trash), failure))
        },
    }
}

/// Lists a trash from the entries of its directory of records, or from why
/// that could not be read; the second part are warnings for the log.
pub fn list_from(trash: &FsPath, listing: Result<Vec<TrashRecord>, DiskFailure>) -> (r: (
    Result<Vec<TrashedItem>, VfsError>,
    Vec<String>,
))
    ensures
        items_result(r.0) == listed(trash@, listing_view(listing)),
        texts(r.1@) == match listing_view(listing) {
            Ok(list) => warnings_of_records(trash@, list),
            Err(_) => Seq::empty(),
        },
{
    match listing {
        Ok(list) => {
            let (out, warnings) = read_records(trash, list);
            (Ok(out), warnings)
        },
        Err(failure) => {
            let quiet: Vec<String> = Vec::new();
            assert(texts(quiet@) =~= Seq::empty());
            if let IoKind::NotFound = failure.kind {
                let none: Vec<TrashedItem> = Vec::new();
                assert(items(none@) =~= Seq::empty());
                (Ok(none), quiet)
            } else {
                (Err(path_err(&info_dir_of(trash), &failure)), quiet)
            }
        },
    }
}

/// Lists the trash of the home directory. Without a home there is none, and
/// it is empty.
pub fn list(trash: Option<FsPath>, listing: Result<Vec<TrashRecord>, DiskFailure>) -> (r: (
    Result<Vec<TrashedItem>, VfsError>,
    Vec<String>,
))
    ensures
        items_result(r.0) == match trash {
            Some(dir) => listed(dir@, listing_view(listing)),
            None => Ok(Seq::empty()),
        },
        texts(r.1@) == match (trash, listing_view(listing)) {
            (Some(dir), Ok(list)) => warnings_of_records(dir@, list),
            _ => Seq::empty(),
        },
{
    match trash {
        Some(dir) => list_from(&dir, listing),
        None => {
            let none: Vec<TrashedItem> = Vec::new();
            let quiet: Vec<String> = Vec::new();
            assert(items(none@) =~= Seq::empty());
            assert(texts(quiet@) =~= Seq::empty());
            (Ok(none), quiet)
        },
    }
}

// ---------------------------------------------------------------------------
// Trashing
// ---------------------------------------------------------------------------

/// A trash that was chosen for a file.
#[derive(Debug)]
pub struct TrashSite<P = FsPath> {
    pub trash: P,
    /// The top of the device; absent for the trash of the home directory.
    pub topdir: Option<P>,
    pub uid: u32,
    /// Whether it lies in a trash that users share.
    pub shared: bool,
}

/// The model of a [`TrashSite`].
pub type TrashSiteView = TrashSite<Seq<u8>>;

impl View for TrashSite {
    type V = TrashSiteView;

    open spec fn view(&self) -> TrashSiteView {
        TrashSite {
            trash: self.trash@,
            topdir: opt_path(self.topdir),
            uid: self.uid,
            shared: self.shared,
        }
    }
}

/// What a job that trashes a file is waiting for.
#[derive(Debug)]
pub enum TrashStage<P = FsPath, T = String> {
    Ready,
    /// The description of the file.
    Item,
    /// The description of the home trash.
    Home { dev: u64 },
    /// The description of the directory above it.
    AboveHome { dev: u64 },
    /// The description of the file, for the search of its device's top.
    Again,
    /// The description of a directory above `topdir`.
    Climb { dev: u64, topdir: P, dir: P },
    /// The process status.
    Status { topdir: P },
    /// The description of the shared trash.
    Shared { topdir: P, uid: u32 },
    /// The description of the user's own directory.
    Owned { site: TrashSite<P> },
    /// The creation of that directory.
    Make { site: TrashSite<P> },
    /// The creation of the directory of files.
    Files { site: TrashSite<P> },
    /// The creation of the directory of records.
    Info { site: TrashSite<P> },
    /// Whether a name is taken among the files.
    SlotFile { site: TrashSite<P>, n: u32 },
    /// Whether a name is taken among the records.
    SlotInfo { site: TrashSite<P>, n: u32 },
    /// The time.
    Time { site: TrashSite<P>, n: u32 },
    /// The writing of the record.
    Write { site: TrashSite<P>, n: u32 },
    /// The move.
    Move { site: TrashSite<P>, n: u32 },
    /// The removal of the record after a failed move.
    Undo { failure: DiskFailure<T> },
    Over,
}

/// The model of a [`TrashStage`].
pub type TrashStageView = TrashStage<Seq<u8>, Seq<char>>;

impl View for TrashStage {
    type V = TrashStageView;

    open spec fn view(&self) -> TrashStageView {
        match self {
            TrashStage::Ready => TrashStage::Ready,
            TrashStage::Item => TrashStage::Item,
            TrashStage::Home { dev } => TrashStage::Home { dev: *dev },
            TrashStage::AboveHome { dev } => TrashStage::AboveHome { dev: *dev },
            TrashStage::Again => TrashStage::Again,
            TrashStage::Climb { dev, topdir, dir } => TrashStage::Climb {
                dev: *dev,
                topdir: topdir@,
                dir: dir@,
            },
            TrashStage::Status { topdir } => TrashStage::Status { topdir: topdir@ },
            TrashStage::Shared { topdir, uid } => TrashStage::Shared { topdir: topdir@, uid: *uid },
            TrashStage::Owned { site } => TrashStage::Owned { site: site@ },
            TrashStage::Make { site } => TrashStage::Make { site: site@ },
            TrashStage::Files { site } => TrashStage::Files { site: site@ },
            TrashStage::Info { site } => TrashStage::Info { site: site@ },
            TrashStage::SlotFile { site, n } => TrashStage::SlotFile { site: site@, n: *n },
            TrashStage::SlotInfo { site, n } => TrashStage::SlotInfo { site: site@, n: *n },
            TrashStage::Time { site, n } => TrashStage::Time { site: site@, n: *n },
            TrashStage::Write { site, n } => TrashStage::Write { site: site@, n: *n },
            TrashStage::Move { site, n } => TrashStage::Move { site: site@, n: *n },
            TrashStage::Undo { failure } => TrashStage::Undo { failure: failure@ },
            TrashStage::Over => TrashStage::Over,
        }
    }
}

/// What a job that trashes a file asks for.
pub type TrashNext = Next<DiskActionView, Result<TrashIdView, VfsErrorView>>;

/// Where a job goes, and what it asks for there.
pub type TrashTurn = (TrashStageView, TrashNext);

/// The view of what a job asks for.
pub open spec fn trash_next(n: Next<DiskAction, Result<TrashId, VfsError>>) -> TrashNext {
    match n {
        Next::Do(action) => Next::Do(action@),
        Next::Finish(Ok(id)) => Next::Finish(Ok(id@)),
        Next::Finish(Err(e)) => Next::Finish(Err(e@)),
        Next::Halt => Next::Halt,
    }
}

/// The view of a turn.
pub open spec fn trash_turn(t: (TrashStage, Next<DiskAction, Result<TrashId, VfsError>>)) -> TrashTurn {
    (t.0@, trash_next(t.1))
}

/// The state of a job that trashes a file.
#[verifier::ext_equal]
pub struct TrashState {
    pub path: Seq<u8>,
    /// The trash of the home directory.
    pub home: Seq<u8>,
    pub stage: TrashStageView,
}

/// The end of a job with an error.
pub open spec fn give_up(e: VfsErrorView) -> TrashTurn {
    (TrashStage::Over, Next::Finish(Err(e)))
}

/// The user's own trash at the top of a device: in the shared trash there, or
/// beside it.
pub open spec fn own_site(topdir: Seq<u8>, uid: u32, shared: bool) -> TrashSiteView {
    TrashSite {
        trash: if shared {
            joined(joined(topdir, encode_utf8(".Trash"@)), encode_utf8(decimal(uid as nat)))
        } else {
            joined(topdir, encode_utf8(".Trash-"@ + decimal(uid as nat)))
        },
        topdir: Some(topdir),
        uid,
        shared,
    }
}

/// Starts to look for the user's own trash at the top of a device.
pub open spec fn own_turn(topdir: Seq<u8>, uid: u32, shared: bool) -> TrashTurn {
    let site = own_site(topdir, uid, shared);
    (TrashStage::Owned { site }, Next::Do(DiskAction::Stat { path: site.trash }))
}

/// Starts to use a trash.
pub open spec fn use_turn(site: TrashSiteView) -> TrashTurn {
    (
        TrashStage::Files { site },
        Next::Do(DiskAction::CreateDirAll { path: files_dir(site.trash) }),
    )
}

/// The user's own directory cannot be had. Inside a shared trash that is no
/// loss yet: there is the one beside it.
pub open spec fn refused_turn(site: TrashSiteView, message: Seq<char>) -> TrashTurn {
    match site.topdir {
        Some(topdir) => if site.shared {
            own_turn(topdir, site.uid, false)
        } else {
            give_up(
                VfsError::Other {
                    message: "couldn't create a trash directory on "@ + shown(topdir) + " ("@
                        + message + ") \u{2014} delete permanently instead"@,
                },
            )
        },
        None => give_up(VfsError::Other { message }),
    }
}

/// A directory inside a trash cannot be had.
pub open spec fn unusable_turn(
    site: TrashSiteView,
    dir: Seq<u8>,
    failure: DiskFailure<Seq<char>>,
) -> TrashTurn {
    match site.topdir {
        Some(topdir) if site.shared => own_turn(topdir, site.uid, false),
        _ => give_up(path_failure(dir, failure)),
    }
}

/// Tries the `n`-th name.
pub open spec fn slot_turn(path: Seq<u8>, site: TrashSiteView, n: u32) -> TrashTurn {
    match file_name_of(path) {
        None => give_up(
            VfsError::Other { message: shown(path) + " has no file name to trash"@ },
        ),
        Some(name) => if n >= MAX_SLOTS {
            give_up(
                VfsError::Other {
                    message: "couldn't find a free trash slot for "@ + shown(name),
                },
            )
        } else {
            (
                TrashStage::SlotFile { site, n },
                Next::Do(DiskAction::Exists { path: slot_file(site.trash, name, n as nat) }),
            )
        },
    }
}

/// The next name after a taken one.
pub open spec fn next_slot(path: Seq<u8>, site: TrashSiteView, n: u32) -> TrashTurn {
    if n < MAX_SLOTS {
        slot_turn(path, site, (n + 1) as u32)
    } else {
        slot_turn(path, site, n)
    }
}

/// Asks for the user id.
pub open spec fn status_turn(topdir: Seq<u8>) -> TrashTurn {
    (
        TrashStage::Status { topdir },
        Next::Do(DiskAction::ReadText { path: encode_utf8("/proc/self/status"@) }),
    )
}

/// Looks one directory above `topdir`.
pub open spec fn climb_turn(dev: u64, topdir: Seq<u8>) -> TrashTurn {
    match parent_of(topdir) {
        Some(dir) => (
            TrashStage::Climb { dev, topdir, dir },
            Next::Do(DiskAction::Stat { path: dir }),
        ),
        None => status_turn(topdir),
    }
}

/// Goes on once the device of the home trash is known, if it is.
pub open spec fn home_turn(s: TrashState, dev: u64, home_dev: Option<u64>) -> TrashTurn {
    if home_dev == Some(dev) {
        use_turn(TrashSite { trash: s.home, topdir: None, uid: 0, shared: false })
    } else {
        (TrashStage::Again, Next::Do(DiskAction::Stat { path: s.path }))
    }
}

/// The directory that a search for the top of a file's device starts from.
pub open spec fn climb_start(path: Seq<u8>) -> Seq<u8> {
    match parent_of(path) {
        Some(dir) => dir,
        None => root_path(),
    }
}

/// What a record keeps of a path: all of it in the trash of the home
/// directory, the part below the top of the device elsewhere.
pub open spec fn recorded_path(path: Seq<u8>, topdir: Option<Seq<u8>>) -> Seq<u8> {
    match topdir {
        Some(top) => match stripped(path, top) {
            Some(rest) => rest,
            None => path,
        },
        None => path,
    }
}

/// The record of a file trashed at a time.
pub open spec fn record_of(path: Seq<u8>, site: TrashSiteView, secs: u64) -> TrashInfoView {
    TrashInfo {
        path: recorded_path(path, site.topdir),
        deletion_date: deletion_date(secs),
    }
}

/// The identifier of a trashed file.
pub open spec fn id_of(name: Seq<u8>, site: TrashSiteView, n: u32) -> TrashIdView {
    TrashId {
        info_path: slot_info(site.trash, name, n as nat),
        files_path: slot_file(site.trash, name, n as nat),
        topdir: site.topdir,
    }
}

/// The search for the trash to use.
pub open spec fn search_step(s: TrashState, reply: DiskReplyView) -> TrashTurn {
    match (s.stage, reply) {
        (TrashStage::Ready, DiskReply::Start) => (
            TrashStage::Item,
            Next::Do(DiskAction::Stat { path: s.path }),
        ),
        (TrashStage::Item, DiskReply::Stat(stat)) => (
            TrashStage::Home { dev: stat.dev },
            Next::Do(DiskAction::Stat { path: s.home }),
        ),
        (TrashStage::Item, DiskReply::Failed(f)) => give_up(path_failure(s.path, f)),
        (TrashStage::Home { dev }, DiskReply::Stat(stat)) => home_turn(s, dev, Some(stat.dev)),
        (TrashStage::Home { dev }, DiskReply::Failed(_)) => (
            TrashStage::AboveHome { dev },
            Next::Do(
                DiskAction::Stat {
                    path: match parent_of(s.home) {
                        Some(dir) => dir,
                        None => s.home,
                    },
                },
            ),
        ),
        (TrashStage::AboveHome { dev }, DiskReply::Stat(stat)) => home_turn(s, dev, Some(stat.dev)),
        (TrashStage::AboveHome { dev }, DiskReply::Failed(_)) => home_turn(s, dev, None),
        (TrashStage::Again, DiskReply::Stat(stat)) => climb_turn(stat.dev, climb_start(s.path)),
        (TrashStage::Again, DiskReply::Failed(_)) => status_turn(root_path()),
        (TrashStage::Climb { dev, topdir, dir }, DiskReply::Stat(stat)) => if stat.dev == dev {
            climb_turn(dev, dir)
        } else {
            status_turn(topdir)
        },
        (TrashStage::Climb { dev, topdir, dir }, DiskReply::Failed(_)) => status_turn(topdir),
        (TrashStage::Status { topdir }, DiskReply::Text(text)) => match uid_in(text) {
            Some(uid) => (
                TrashStage::Shared { topdir, uid: uid as u32 },
                Next::Do(DiskAction::Stat { path: joined(topdir, encode_utf8(".Trash"@)) }),
            ),
            None => give_up(
                VfsError::Other {
                    message: "couldn't parse the current user id from /proc/self/status"@,
                },
            ),
        },
        (TrashStage::Status { topdir }, DiskReply::Failed(f)) => give_up(
            VfsError::Other { message: "couldn't read /proc/self/status: "@ + f.message },
        ),
        (TrashStage::Shared { topdir, uid }, DiskReply::Stat(stat)) => own_turn(
            topdir,
            uid,
            is_shared_trash(stat),
        ),
        (TrashStage::Shared { topdir, uid }, DiskReply::Failed(_)) => own_turn(topdir, uid, false),
        (TrashStage::Owned { site }, DiskReply::Stat(stat)) => if stat.is_dir {
            use_turn(site)
        } else {
            refused_turn(site, shown(site.trash) + " exists and isn't a directory"@)
        },
        (TrashStage::Owned { site }, DiskReply::Failed(f)) => if f.kind == IoKind::NotFound {
            (TrashStage::Make { site }, Next::Do(DiskAction::CreateDir { path: site.trash }))
        } else {
            refused_turn(site, f.message)
        },
        (TrashStage::Make { site }, DiskReply::Done) => use_turn(site),
        (TrashStage::Make { site }, DiskReply::Failed(f)) => refused_turn(site, f.message),
        _ => (TrashStage::Over, Next::Halt),
    }
}

/// The preparation of the trash that was found, and then the move into it.
pub open spec fn fill_step(s: TrashState, reply: DiskReplyView) -> TrashTurn {
    match (s.stage, reply) {
        (TrashStage::Files { site }, DiskReply::Done) => (
            TrashStage::Info { site },
            Next::Do(DiskAction::CreateDirAll { path: info_dir(site.trash) }),
        ),
        (TrashStage::Files { site }, DiskReply::Failed(f)) => unusable_turn(
            site,
            files_dir(site.trash),
            f,
        ),
        (TrashStage::Info { site }, DiskReply::Done) => slot_turn(s.path, site, 0),
        (TrashStage::Info { site }, DiskReply::Failed(f)) => unusable_turn(
            site,
            info_dir(site.trash),
            f,
        ),
        _ => match file_name_of(s.path) {
            Some(name) => move_step(s, name, reply),
            None => (TrashStage::Over, Next::Halt),
        },
    }
}

/// The move into the trash under the first free name.
pub open spec fn move_step(s: TrashState, name: Seq<u8>, reply: DiskReplyView) -> TrashTurn {
    match (s.stage, reply) {
        (TrashStage::SlotFile { site, n }, DiskReply::Exists(taken)) => if taken {
            next_slot(s.path, site, n)
        } else {
            (
                TrashStage::SlotInfo { site, n },
                Next::Do(DiskAction::Exists { path: slot_info(site.trash, name, n as nat) }),
            )
        },
        (TrashStage::SlotInfo { site, n }, DiskReply::Exists(taken)) => if taken {
            next_slot(s.path, site, n)
        } else {
            (TrashStage::Time { site, n }, Next::Do(DiskAction::Clock))
        },
        (TrashStage::Time { site, n }, DiskReply::Clock(secs)) => (
            TrashStage::Write { site, n },
            Next::Do(
                DiskAction::WriteNew {
                    path: slot_info(site.trash, name, n as nat),
                    contents: info_text(record_of(s.path, site, secs)),
                },
            ),
        ),
        (TrashStage::Write { site, n }, DiskReply::Done) => (
            TrashStage::Move { site, n },
            Next::Do(
                DiskAction::Rename { from: s.path, to: slot_file(site.trash, name, n as nat) },
            ),
        ),
        (TrashStage::Write { site, n }, DiskReply::Failed(f)) => give_up(
            path_failure(slot_info(site.trash, name, n as nat), f),
        ),
        (TrashStage::Move { site, n }, DiskReply::Done) => (
            TrashStage::Over,
            Next::Finish(Ok(id_of(name, site, n))),
        ),
        (TrashStage::Move { site, n }, DiskReply::Failed(f)) => (
            TrashStage::Undo { failure: f },
            Next::Do(DiskAction::RemoveFile { path: slot_info(site.trash, name, n as nat) }),
        ),
        (TrashStage::Undo { failure }, DiskReply::Done) => give_up(path_failure(s.path, failure)),
        (TrashStage::Undo { failure }, DiskReply::Failed(_)) => give_up(
            path_failure(s.path, failure),
        ),
        _ => (TrashStage::Over, Next::Halt),
    }
}

/// Whether a job is still looking for the trash to use.
pub open spec fn is_searching(stage: TrashStageView) -> bool {
    match stage {
        TrashStage::Ready
        | TrashStage::Item
        | TrashStage::Home { .. }
        | TrashStage::AboveHome { .. }
        | TrashStage::Again
        | TrashStage::Climb { .. }
        | TrashStage::Status { .. }
        | TrashStage::Shared { .. }
        | TrashStage::Owned { .. }
        | TrashStage::Make { .. } => true,
        _ => false,
    }
}

/// One turn of a job that trashes a file.
pub open spec fn trash_move(s: TrashState, reply: DiskReplyView) -> TrashTurn {
    if is_searching(s.stage) {
        search_step(s, reply)
    } else {
        fill_step(s, reply)
    }
}

/// One step of a job that trashes a file.
pub open spec fn trash_step(s: TrashState, reply: DiskReplyView) -> (TrashState, TrashNext) {
    let (stage, next) = trash_move(s, reply);
    (TrashState { stage, ..s }, next)
}

/// The state of a job before its first step.
pub open spec fn trash_start(path: Seq<u8>, home: Seq<u8>) -> TrashState {
    TrashState { path, home, stage: TrashStage::Ready }
}

/// A job that trashes a file. The record is written before the file moves,
/// and removed again if the move fails, so that a file is never in the trash
/// without one.
#[derive(Debug)]
pub struct TrashJob {
    path: FsPath,
    home: FsPath,
    stage: TrashStage,
}

impl View for TrashJob {
    type V = TrashState;

    closed spec fn view(&self) -> TrashState {
        TrashState { path: self.path@, home: self.home@, stage: self.stage@ }
    }
}

type ExecTurn = (TrashStage, Next<DiskAction, Result<TrashId, VfsError>>);

fn exec_give_up(e: VfsError) -> (r: ExecTurn)
    ensures
        trash_turn(r) == give_up(e@),
{
    (TrashStage::Over, Next::Finish(Err(e)))
}

fn exec_own(topdir: &FsPath, uid: u32, shared: bool) -> (r: ExecTurn)
    ensures
        trash_turn(r) == own_turn(topdir@, uid, shared),
{
    let id = decimal_of(uid as u64);
    let trash = if shared {
        topdir.join_bytes(bytes_of(".Trash").as_slice()).join_bytes(bytes_of(id.as_str()).as_slice())
    } else {
        let name = copy_of(".Trash-").concat(id.as_str());
        topdir.join_bytes(bytes_of(name.as_str()).as_slice())
    };
    let path = trash.clone();
    let site = TrashSite { trash, topdir: Some(topdir.clone()), uid, shared };
    (TrashStage::Owned { site }, Next::Do(DiskAction::Stat { path }))
}

fn exec_use(site: TrashSite) -> (r: ExecTurn)
    ensures
        trash_turn(r) == use_turn(site@),
{
    let path = files_dir_of(&site.trash);
    (TrashStage::Files { site }, Next::Do(DiskAction::CreateDirAll { path }))
}

fn exec_refused(site: &TrashSite, message: &str) -> (r: ExecTurn)
    ensures
        trash_turn(r) == refused_turn(site@, message@),
{
    match &site.topdir {
        Some(topdir) => {
            if site.shared {
                exec_own(topdir, site.uid, false)
            } else {
                let text = copy_of("couldn't create a trash directory on ").concat(
                    topdir.display().as_str(),
                ).concat(" (").concat(message).concat(") \u{2014} delete permanently instead");
                exec_give_up(VfsError::Other { message: text })
            }
        },
        None => exec_give_up(VfsError::Other { message: copy_of(message) }),
    }
}

fn exec_unusable(site: &TrashSite, dir: &FsPath, failure: &DiskFailure) -> (r: ExecTurn)
    ensures
        trash_turn(r) == unusable_turn(site@, dir@, failure@),
{
    match &site.topdir {
        Some(topdir) => {
            if site.shared {
                return exec_own(topdir, site.uid, false);
            }
        },
        None => {},
    }
    exec_give_up(path_err(dir, failure))
}

fn exec_slot(path: &FsPath, site: TrashSite, n: u32) -> (r: ExecTurn)
    ensures
        trash_turn(r) == slot_turn(path@, site@, n),
{
    match path.file_name() {
        None => exec_give_up(
            VfsError::Other { message: path.display().concat(" has no file name to trash") },
        ),
        Some(name) => {
            if n >= MAX_SLOTS {
                exec_give_up(
                    VfsError::Other {
                        message: copy_of("couldn't find a free trash slot for ").concat(
                            lossy(name.as_slice()).as_str(),
                        ),
                    },
                )
            } else {
                let slot = slot_file_of(&site.trash, name.as_slice(), n);
                (TrashStage::SlotFile { site, n }, Next::Do(DiskAction::Exists { path: slot }))
            }
        },
    }
}

fn exec_next_slot(path: &FsPath, site: TrashSite, n: u32) -> (r: ExecTurn)
    ensures
        trash_turn(r) == next_slot(path@, site@, n),
{
    if n < MAX_SLOTS {
        exec_slot(path, site, n + 1)
    } else {
        exec_slot(path, site, n)
    }
}

fn exec_status(topdir: FsPath) -> (r: ExecTurn)
    ensures
        trash_turn(r) == status_turn(topdir@),
{
    (
        TrashStage::Status { topdir },
        Next::Do(DiskAction::ReadText { path: FsPath::new("/proc/self/status") }),
    )
}

fn exec_climb(dev: u64, topdir: FsPath) -> (r: ExecTurn)
    ensures
        trash_turn(r) == climb_turn(dev, topdir@),
{
    match topdir.parent() {
        Some(dir) => {
            let path = dir.clone();
            (TrashStage::Climb { dev, topdir, dir }, Next::Do(DiskAction::Stat { path }))
        },
        None => exec_status(topdir),
    }
}

fn root_dir() -> (r: FsPath)
    ensures
        r@ == root_path(),
{
    let mut bytes: Vec<u8> = Vec::new();
    bytes.push(SEP);
    assert(bytes@ =~= root_path());
    FsPath::from_bytes(bytes)
}

fn exec_record(path: &FsPath, site: &TrashSite, secs: u64) -> (r: TrashInfo)
    ensures
        r@ == record_of(path@, site@, secs),
{
    let recorded = match &site.topdir {
        Some(top) => match path.strip_prefix(top) {
            Some(rest) => rest,
            None => path.clone(),
        },
        None => path.clone(),
    };
    TrashInfo { path: recorded, deletion_date: format_deletion_date(secs) }
}

impl TrashJob {
    /// The job for a file and the trash of the home directory.
    pub fn new(path: FsPath, home_trash: FsPath) -> (r: TrashJob)
        ensures
            r@ == trash_start(path@, home_trash@),
    {
        TrashJob { path, home: home_trash, stage: TrashStage::Ready }
    }

    fn home_known(&self, dev: u64, home_dev: Option<u64>) -> (r: ExecTurn)
        ensures
            trash_turn(r) == home_turn(self@, dev, home_dev),
    {
        let same = match home_dev {
            Some(d) => d == dev,
            None => false,
        };
        if same {
            exec_use(TrashSite { trash: self.home.clone(), topdir: None, uid: 0, shared: false })
        } else {
            (TrashStage::Again, Next::Do(DiskAction::Stat { path: self.path.clone() }))
        }
    }

    fn above_home(&self) -> (r: FsPath)
        ensures
            r@ == (match parent_of(self@.home) {
                Some(dir) => dir,
                None => self@.home,
            }),
    {
        match self.home.parent() {
            Some(dir) => dir,
            None => self.home.clone(),
        }
    }

    fn climb_from(&self) -> (r: FsPath)
        ensures
            r@ == climb_start(self@.path),
    {
        match self.path.parent() {
            Some(dir) => dir,
            None => root_dir(),
        }
    }

    fn search(&self, stage: TrashStage, reply: DiskReply) -> (r: ExecTurn)
        requires
            is_searching(stage@),
        ensures
            trash_turn(r) == search_step(TrashState { stage: stage@, ..self@ }, reply@),
    {
        match (stage, reply) {
            (TrashStage::Ready, DiskReply::Start) => (
                TrashStage::Item,
                Next::Do(DiskAction::Stat { path: self.path.clone() }),
            ),
            (TrashStage::Item, DiskReply::Stat(stat)) => (
                TrashStage::Home { dev: stat.dev },
                Next::Do(DiskAction::Stat { path: self.home.clone() }),
            ),
            (TrashStage::Item, DiskReply::Failed(f)) => exec_give_up(path_err(&self.path, &f)),
            (TrashStage::Home { dev }, DiskReply::Stat(stat)) => self.home_known(
                dev,
                Some(stat.dev),
            ),
            (TrashStage::Home { dev }, DiskReply::Failed(_)) => (
                TrashStage::AboveHome { dev },
                Next::Do(DiskAction::Stat { path: self.above_home() }),
            ),
            (TrashStage::AboveHome { dev }, DiskReply::Stat(stat)) => self.home_known(
                dev,
                Some(stat.dev),
            ),
            (TrashStage::AboveHome { dev }, DiskReply::Failed(_)) => self.home_known(dev, None),
            (TrashStage::Again, DiskReply::Stat(stat)) => exec_climb(stat.dev, self.climb_from()),
            (TrashStage::Again, DiskReply::Failed(_)) => exec_status(root_dir()),
            (TrashStage::Climb { dev, topdir, dir }, DiskReply::Stat(stat)) => {
                if stat.dev == dev {
                    exec_climb(dev, dir)
                } else {
                    exec_status(topdir)
                }
            },
            (TrashStage::Climb { dev: _, topdir, dir: _ }, DiskReply::Failed(_)) => exec_status(
                topdir,
            ),
            (TrashStage::Status { topdir }, DiskReply::Text(text)) => match parse_uid(
                text.as_str(),
            ) {
                Some(uid) => {
                    let path = topdir.join_bytes(bytes_of(".Trash").as_slice());
                    (TrashStage::Shared { topdir, uid }, Next::Do(DiskAction::Stat { path }))
                },
                None => exec_give_up(
                    VfsError::Other {
                        message: copy_of(
                            "couldn't parse the current user id from /proc/self/status",
                        ),
                    },
                ),
            },
            (TrashStage::Status { topdir: _ }, DiskReply::Failed(f)) => exec_give_up(
                VfsError::Other {
                    message: copy_of("couldn't read /proc/self/status: ").concat(
                        f.message.as_str(),
                    ),
                },
            ),
            (TrashStage::Shared { topdir, uid }, DiskReply::Stat(stat)) => exec_own(
                &topdir,
                uid,
                is_valid_shared_trash(Some(stat)),
            ),
            (TrashStage::Shared { topdir, uid }, DiskReply::Failed(_)) => exec_own(
                &topdir,
                uid,
                false,
            ),
            (TrashStage::Owned { site }, DiskReply::Stat(stat)) => {
                if stat.is_dir {
                    exec_use(site)
                } else {
                    let text = site.trash.display().concat(" exists and isn't a directory");
                    exec_refused(&site, text.as_str())
                }
            },
            (TrashStage::Owned { site }, DiskReply::Failed(f)) => {
                if let IoKind::NotFound = f.kind {
                    let path = site.trash.clone();
                    (TrashStage::Make { site }, Next::Do(DiskAction::CreateDir { path }))
                } else {
                    exec_refused(&site, f.message.as_str())
                }
            },
            (TrashStage::Make { site }, DiskReply::Done) => exec_use(site),
            (TrashStage::Make { site }, DiskReply::Failed(f)) => exec_refused(
                &site,
                f.message.as_str(),
            ),
            _ => (TrashStage::Over, Next::Halt),
        }
    }

    fn fill(&self, stage: TrashStage, reply: DiskReply) -> (r: ExecTurn)
        ensures
            trash_turn(r) == fill_step(TrashState { stage: stage@, ..self@ }, reply@),
    {
        match (stage, reply) {
            (TrashStage::Files { site }, DiskReply::Done) => {
                let path = info_dir_of(&site.trash);
                (TrashStage::Info { site }, Next::Do(DiskAction::CreateDirAll { path }))
            },
            (TrashStage::Files { site }, DiskReply::Failed(f)) => exec_unusable(
                &site,
                &files_dir_of(&site.trash),
                &f,
            ),
            (TrashStage::Info { site }, DiskReply::Done) => exec_slot(&self.path, site, 0),
            (TrashStage::Info { site }, DiskReply::Failed(f)) => exec_unusable(
                &site,
                &info_dir_of(&site.trash),
                &f,
            ),
            (stage, reply) => match self.path.file_name() {
                Some(name) => self.place(name.as_slice(), stage, reply),
                None => (TrashStage::Over, Next::Halt),
            },
        }
    }

    fn place(&self, name: &[u8], stage: TrashStage, reply: DiskReply) -> (r: ExecTurn)
        ensures
            trash_turn(r) == move_step(TrashState { stage: stage@, ..self@ }, name@, reply@),
    {
        match (stage, reply) {
            (TrashStage::SlotFile { site, n }, DiskReply::Exists(taken)) => {
                if taken {
                    exec_next_slot(&self.path, site, n)
                } else {
                    let path = slot_info_of(&site.trash, name, n);
                    (TrashStage::SlotInfo { site, n }, Next::Do(DiskAction::Exists { path }))
                }
            },
            (TrashStage::SlotInfo { site, n }, DiskReply::Exists(taken)) => {
                if taken {
                    exec_next_slot(&self.path, site, n)
                } else {
                    (TrashStage::Time { site, n }, Next::Do(DiskAction::Clock))
                }
            },
            (TrashStage::Time { site, n }, DiskReply::Clock(secs)) => {
                let path = slot_info_of(&site.trash, name, n);
                let contents = exec_record(&self.path, &site, secs).to_text();
                (TrashStage::Write { site, n }, Next::Do(DiskAction::WriteNew { path, contents }))
            },
            (TrashStage::Write { site, n }, DiskReply::Done) => {
                let to = slot_file_of(&site.trash, name, n);
                let from = self.path.clone();
                (TrashStage::Move { site, n }, Next::Do(DiskAction::Rename { from, to }))
            },
            (TrashStage::Write { site, n }, DiskReply::Failed(f)) => exec_give_up(
                path_err(&slot_info_of(&site.trash, name, n), &f),
            ),
            (TrashStage::Move { site, n }, DiskReply::Done) => {
                let id = TrashId {
                    info_path: slot_info_of(&site.trash, name, n),
                    files_path: slot_file_of(&site.trash, name, n),
                    topdir: copy_path(&site.topdir),
                };
                (TrashStage::Over, Next::Finish(Ok(id)))
            },
            (TrashStage::Move { site, n }, DiskReply::Failed(f)) => {
                let path = slot_info_of(&site.trash, name, n);
                (TrashStage::Undo { failure: f }, Next::Do(DiskAction::RemoveFile { path }))
            },
            (TrashStage::Undo { failure }, DiskReply::Done) => exec_give_up(
                path_err(&self.path, &failure),
            ),
            (TrashStage::Undo { failure }, DiskReply::Failed(_)) => exec_give_up(
                path_err(&self.path, &failure),
            ),
            _ => (TrashStage::Over, Next::Halt),
        }
    }

    /// One step: the outcome of the last action gives the next one.
    pub fn step(&mut self, reply: DiskReply) -> (r: Next<DiskAction, Result<TrashId, VfsError>>)
        ensures
            (final(self)@, trash_next(r)) == trash_step(old(self)@, reply@),
    {
        let mut stage = TrashStage::Over;
        core::mem::swap(&mut stage, &mut self.stage);
        let searching = match &stage {
            TrashStage::Ready
            | TrashStage::Item
            | TrashStage::Home { .. }
            | TrashStage::AboveHome { .. }
            | TrashStage::Again
            | TrashStage::Climb { .. }
            | TrashStage::Status { .. }
            | TrashStage::Shared { .. }
            | TrashStage::Owned { .. }
            | TrashStage::Make { .. } => true,
            _ => false,
        };
        let (next_stage, next) = if searching {
            self.search(stage, reply)
        } else {
            self.fill(stage, reply)
        };
        self.stage = next_stage;
        next
    }
}

/// A job that trashes a file into `home_trash`, or into a trash on the file's
/// own device.
pub fn trash_into(path: &FsPath, home_trash: &FsPath) -> (r: TrashJob)
    ensures
        r@ == trash_start(path@, home_trash@),
{
    TrashJob::new(path.clone(), home_trash.clone())
}

/// A job that trashes a file; there is none without a home trash.
pub fn trash(path: &FsPath, home_trash: Option<FsPath>) -> (r: Result<TrashJob, VfsError>)
    ensures
        match home_trash {
            Some(dir) => r matches Ok(job) && job@ == trash_start(path@, dir@),
            None => r matches Err(e) && e@ == (VfsError::Other {
                message: "no $HOME to resolve a trash directory from"@,
            }),
        },
{
    match home_trash {
        Some(dir) => Ok(trash_into(path, &dir)),
        None => Err(
            VfsError::Other { message: copy_of("no $HOME to resolve a trash directory from") },
        ),
    }
}

// ---------------------------------------------------------------------------
// Restoring
// ---------------------------------------------------------------------------

/// What a job that restores an item is waiting for.
#[derive(Debug)]
pub enum RestoreStage<P = FsPath> {
    Ready,
    /// The record.
    Record,
    /// Whether the directory that the item came from exists.
    Parent { original: P },
    /// The move.
    Move { original: P },
    /// The removal of the record.
    Clean { original: P },
    Over,
}

impl View for RestoreStage {
    type V = RestoreStage<Seq<u8>>;

    open spec fn view(&self) -> RestoreStage<Seq<u8>> {
        match self {
            RestoreStage::Ready => RestoreStage::Ready,
            RestoreStage::Record => RestoreStage::Record,
            RestoreStage::Parent { original } => RestoreStage::Parent { original: original@ },
            RestoreStage::Move { original } => RestoreStage::Move { original: original@ },
            RestoreStage::Clean { original } => RestoreStage::Clean { original: original@ },
            RestoreStage::Over => RestoreStage::Over,
        }
    }
}

/// What a finished job says: where the item is now, or why it is not, and
/// perhaps a warning for the log.
#[derive(Debug)]
pub struct Restored<P = FsPath, E = VfsError, T = String> {
    pub outcome: Result<P, E>,
    pub warning: Option<T>,
}

/// The model of a [`Restored`].
pub type RestoredView = Restored<Seq<u8>, VfsErrorView, Seq<char>>;

impl View for Restored {
    type V = RestoredView;

    open spec fn view(&self) -> RestoredView {
        Restored {
            outcome: match self.outcome {
                Ok(path) => Ok(path@),
                Err(e) => Err(e@),
            },
            warning: opt_text(self.warning),
        }
    }
}

/// What a job that restores an item asks for.
pub type RestoreNext = Next<DiskActionView, RestoredView>;

/// The view of what a job asks for.
pub open spec fn restore_next(n: Next<DiskAction, Restored>) -> RestoreNext {
    match n {
        Next::Do(action) => Next::Do(action@),
        Next::Finish(r) => Next::Finish(r@),
        Next::Halt => Next::Halt,
    }
}

/// The state of a job that restores an item.
#[verifier::ext_equal]
pub struct RestoreState {
    pub id: TrashIdView,
    pub stage: RestoreStage<Seq<u8>>,
}

/// The path that a record gives for an item.
pub open spec fn original_of(id: TrashIdView, info: TrashInfoView) -> Seq<u8> {
    match id.topdir {
        Some(top) => joined(top, info.path),
        None => info.path,
    }
}

/// The end of a job without having moved anything.
pub open spec fn not_restored(s: RestoreState, e: VfsErrorView) -> (RestoreState, RestoreNext) {
    (
        RestoreState { stage: RestoreStage::Over, ..s },
        Next::Finish(Restored { outcome: Err(e), warning: None }),
    )
}

/// Moves the item back.
pub open spec fn move_back(s: RestoreState, original: Seq<u8>) -> (RestoreState, RestoreNext) {
    (
        RestoreState { stage: RestoreStage::Move { original }, ..s },
        Next::Do(DiskAction::Rename { from: s.id.files_path, to: original }),
    )
}

/// One step of a job that restores an item. Nothing is touched unless the
/// directory that the item came from exists.
pub open spec fn restore_step(s: RestoreState, reply: DiskReplyView) -> (
    RestoreState,
    RestoreNext,
) {
    match (s.stage, reply) {
        (RestoreStage::Ready, DiskReply::Start) => (
            RestoreState { stage: RestoreStage::Record, ..s },
            Next::Do(DiskAction::ReadText { path: s.id.info_path }),
        ),
        (RestoreStage::Record, DiskReply::Text(contents)) => match info_in(contents) {
            None => not_restored(
                s,
                VfsError::Other {
                    message: shown(s.id.info_path) + " isn't a valid .trashinfo file"@,
                },
            ),
            Some(info) => {
                let original = original_of(s.id, info);
                match parent_of(original) {
                    Some(dir) if dir.len() > 0 => (
                        RestoreState { stage: RestoreStage::Parent { original }, ..s },
                        Next::Do(DiskAction::Exists { path: dir }),
                    ),
                    _ => move_back(s, original),
                }
            },
        },
        (RestoreStage::Record, DiskReply::Failed(f)) => not_restored(
            s,
            path_failure(s.id.info_path, f),
        ),
        (RestoreStage::Parent { original }, DiskReply::Exists(there)) => if there {
            move_back(s, original)
        } else {
            not_restored(
                s,
                VfsError::NotFound {
                    location: match parent_of(original) {
                        Some(dir) => shown(dir),
                        None => Seq::empty(),
                    },
                },
            )
        },
        (RestoreStage::Move { original }, DiskReply::Done) => (
            RestoreState { stage: RestoreStage::Clean { original }, ..s },
            Next::Do(DiskAction::RemoveFile { path: s.id.info_path }),
        ),
        (RestoreStage::Move { original }, DiskReply::Failed(f)) => not_restored(
            s,
            path_failure(s.id.files_path, f),
        ),
        (RestoreStage::Clean { original }, DiskReply::Done) => (
            RestoreState { stage: RestoreStage::Over, ..s },
            Next::Finish(Restored { outcome: Ok(original), warning: None }),
        ),
        (RestoreStage::Clean { original }, DiskReply::Failed(f)) => (
            RestoreState { stage: RestoreStage::Over, ..s },
            Next::Finish(
                Restored {
                    outcome: Ok(original),
                    warning: Some(
                        "saola-files: restored "@ + shown(original)
                            + " but couldn't remove its trash record "@ + shown(s.id.info_path)
                            + ": "@ + f.message,
                    ),
                },
            ),
        ),
        _ => (RestoreState { stage: RestoreStage::Over, ..s }, Next::Halt),
    }
}

/// A job that restores a trashed item.
#[derive(Debug)]
pub struct RestoreJob {
    id: TrashId,
    stage: RestoreStage,
}

impl View for RestoreJob {
    type V = RestoreState;

    closed spec fn view(&self) -> RestoreState {
        RestoreState { id: self.id@, stage: self.stage@ }
    }
}

/// A job that restores a trashed item.
pub fn restore(id: &TrashId) -> (r: RestoreJob)
    ensures
        r@ == (RestoreState { id: id@, stage: RestoreStage::Ready }),
{
    RestoreJob { id: id.clone(), stage: RestoreStage::Ready }
}

impl RestoreJob {
    fn fail(&mut self, e: VfsError) -> (r: Next<DiskAction, Restored>)
        ensures
            (final(self)@, restore_next(r)) == not_restored(old(self)@, e@),
    {
        self.stage = RestoreStage::Over;
        Next::Finish(Restored { outcome: Err(e), warning: None })
    }

    fn move_back(&mut self, original: FsPath) -> (r: Next<DiskAction, Restored>)
        ensures
            (final(self)@, restore_next(r)) == move_back(old(self)@, original@),
    {
        let to = original.clone();
        self.stage = RestoreStage::Move { original };
        Next::Do(DiskAction::Rename { from: self.id.files_path.clone(), to })
    }

    fn with_record(&mut self, contents: String) -> (r: Next<DiskAction, Restored>)
        requires
            old(self)@.stage is Record,
        ensures
            (final(self)@, restore_next(r)) == restore_step(
                old(self)@,
                DiskReply::Text(contents@),
            ),
    {
        match TrashInfo::parse(contents.as_str()) {
            None => {
                let message = self.id.info_path.display().concat(
                    " isn't a valid .trashinfo file",
                );
                self.fail(VfsError::Other { message })
            },
            Some(info) => {
                let original = match &self.id.topdir {
                    Some(top) => top.join_bytes(info.path.as_bytes()),
                    None => info.path,
                };
                match original.parent() {
                    Some(dir) => {
                        if dir.as_bytes().len() > 0 {
                            self.stage = RestoreStage::Parent { original };
                            Next::Do(DiskAction::Exists { path: dir })
                        } else {
                            self.move_back(original)
                        }
                    },
                    None => self.move_back(original),
                }
            },
        }
    }

    /// One step: the outcome of the last action gives the next one.
    pub fn step(&mut self, reply: DiskReply) -> (r: Next<DiskAction, Restored>)
        ensures
            (final(self)@, restore_next(r)) == restore_step(old(self)@, reply@),
    {
        let mut stage = RestoreStage::Over;
        core::mem::swap(&mut stage, &mut self.stage);
        match (stage, reply) {
            (RestoreStage::Ready, DiskReply::Start) => {
                self.stage = RestoreStage::Record;
                Next::Do(DiskAction::ReadText { path: self.id.info_path.clone() })
            },
            (RestoreStage::Record, DiskReply::Text(contents)) => {
                self.stage = RestoreStage::Record;
                self.with_record(contents)
            },
            (RestoreStage::Record, DiskReply::Failed(f)) => {
                let e = path_err(&self.id.info_path, &f);
                self.fail(e)
            },
            (RestoreStage::Parent { original }, DiskReply::Exists(there)) => {
                if there {
                    self.move_back(original)
                } else {
                    let location = match original.parent() {
                        Some(dir) => dir.display(),
                        None => {
                            let none = String::new();
                            assert(none@ =~= Seq::empty());
                            none
                        },
                    };
                    self.fail(VfsError::NotFound { location })
                }
            },
            (RestoreStage::Move { original }, DiskReply::Done) => {
                self.stage = RestoreStage::Clean { original };
                Next::Do(DiskAction::RemoveFile { path: self.id.info_path.clone() })
            },
            (RestoreStage::Move { original: _ }, DiskReply::Failed(f)) => {
                let e = path_err(&self.id.files_path, &f);
                self.fail(e)
            },
            (RestoreStage::Clean { original }, DiskReply::Done) => {
                self.stage = RestoreStage::Over;
                Next::Finish(Restored { outcome: Ok(original), warning: None })
            },
            (RestoreStage::Clean { original }, DiskReply::Failed(f)) => {
                self.stage = RestoreStage::Over;
                let warning = copy_of("saola-files: restored ").concat(
                    original.display().as_str(),
                ).concat(" but couldn't remove its trash record ").concat(
                    self.id.info_path.display().as_str(),
                ).concat(": ").concat(f.message.as_str());
                Next::Finish(Restored { outcome: Ok(original), warning: Some(warning) })
            },
            _ => {
                self.stage = RestoreStage::Over;
                Next::Halt
            },
        }
    }
}

} // verus!
