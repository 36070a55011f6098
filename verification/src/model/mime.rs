//! Types of content: what a file name or the first bytes of a file suggest,
//! and the coarse category that decides an icon.
//!
//! The database of types is the one of the `xdg-mime` crate. A guess is made
//! from a name and from bytes that are already at hand, so that it works for
//! files on a server as well.
use crate::text::{
    chars_of, copy_of, find, find_is, find_props, has_prefix, has_suffix, is_text, lossy, opt_text,
    rows, same_text, shown, split, split_on, texts,
};
use vstd::prelude::*;

verus! {

/// The database of types of the `xdg-mime` crate.
#[verifier::external_type_specification]
#[verifier::external_body]
pub struct ExSharedMimeInfo(xdg_mime::SharedMimeInfo);

/// The types that a database lists for a file name, best first.
pub uninterp spec fn name_table(db: xdg_mime::SharedMimeInfo) -> Map<Seq<char>, Seq<Seq<char>>>;

/// The type that the rules of a database give for a file name and the first
/// bytes of the file. Where they give none there is no entry: a rule of no
/// bytes and a cycle of subclasses cannot be applied.
pub uninterp spec fn content_table(db: xdg_mime::SharedMimeInfo) -> Map<
    (Seq<char>, Seq<u8>),
    Seq<char>,
>;

/// `SharedMimeInfo::get_mime_types_from_file_name`, each type as its text
/// without parameters: the types that the database has for a file name. There
/// is always one: `application/octet-stream` where no rule matches.
#[verifier::external_body]
fn types_of_name(db: &xdg_mime::SharedMimeInfo, name: &str) -> (r: Vec<String>)
    ensures
        texts(r@) == name_table(*db)[name@],
        r@.len() > 0,
{
    let found = db.get_mime_types_from_file_name(name);
    found.iter().map(|m| m.essence_str().to_owned()).collect()
}

/// The type of content that nothing is known of.
pub open spec fn unknown_type() -> Seq<char> {
    "application/octet-stream"@
}

/// Whether the types of a file name leave nothing to find out from the bytes.
pub open spec fn name_decides(types: Seq<Seq<char>>) -> bool {
    types.len() == 1 && types[0] != unknown_type()
}

/// Whether a type can be found from a file name and bytes: the name decides
/// alone, there are no bytes, or the rules give a type.
pub open spec fn can_sniff(
    db: xdg_mime::SharedMimeInfo,
    name: Seq<char>,
    bytes: Seq<u8>,
) -> bool {
    ||| name_decides(name_table(db)[name])
    ||| bytes.len() == 0
    ||| content_table(db).dom().contains((name, bytes))
}

/// The type of an empty file.
pub open spec fn empty_type() -> Seq<char> {
    "application/x-zerosize"@
}

/// The type of a file with a name and bytes: the one of the name if that
/// decides alone, and otherwise what the rules give.
pub open spec fn sniffed_type(
    db: xdg_mime::SharedMimeInfo,
    name: Seq<char>,
    bytes: Seq<u8>,
) -> Seq<char> {
    if name_decides(name_table(db)[name]) {
        name_table(db)[name][0]
    } else {
        content_table(db)[(name, bytes)]
    }
}

/// `GuessBuilder::guess` for a file name and some bytes, as its text without
/// parameters. A name with one known type decides. Otherwise an empty file has
/// a type of its own, unless its name has the unknown type with parameters,
/// and to other bytes the rules of the database are applied, which has to be
/// possible: a rule of no bytes panics, and a cycle of subclasses is followed
/// without end.
#[verifier::external_body]
fn type_of_content(db: &xdg_mime::SharedMimeInfo, name: &str, bytes: &[u8]) -> (r: String)
    requires
        can_sniff(*db, name@, bytes@),
    ensures
        name_decides(name_table(*db)[name@]) ==> r@ == name_table(*db)[name@][0],
        !name_decides(name_table(*db)[name@]) ==> r@ == content_table(*db)[(name@, bytes@)],
        !name_decides(name_table(*db)[name@]) && bytes@.len() == 0 ==> r@ == empty_type() || r@
            == unknown_type(),
{
    let mut builder = db.guess_mime_type();
    builder.file_name(name);
    builder.data(bytes);
    builder.guess().mime_type().essence_str().to_owned()
}

/// The best of a list of types.
pub open spec fn best_type(types: Seq<Seq<char>>) -> Seq<char> {
    if types.len() > 0 {
        types[0]
    } else {
        unknown_type()
    }
}

/// The best of a list of types; the unknown type if there are none.
pub fn pick_mime(types: &Vec<String>) -> (r: String)
    ensures
        r@ == best_type(texts(types@)),
{
    if types.len() > 0 {
        types[0].clone()
    } else {
        copy_of("application/octet-stream")
    }
}

/// Decides [`name_decides`].
fn decides(types: &Vec<String>) -> (r: bool)
    ensures
        r == name_decides(texts(types@)),
{
    types.len() == 1 && !same_text(types[0].as_str(), "application/octet-stream")
}

/// The database of types.
pub struct MimeDb {
    pub inner: xdg_mime::SharedMimeInfo,
}

impl MimeDb {
    /// The database that was loaded.
    pub fn with(inner: xdg_mime::SharedMimeInfo) -> (r: Self)
        ensures
            r.inner == inner,
    {
        MimeDb { inner }
    }

    /// The type of a file with this name, sharpened by its first bytes where
    /// those are known. Unknown bytes are not the same as no bytes: a file
    /// that is known to be empty has a type of its own. Bytes are only looked
    /// at with a database whose rules can be applied to them.
    pub fn guess(&self, name: &[u8], sniff: Option<&[u8]>) -> (r: String)
        requires
            sniff matches Some(bytes) ==> can_sniff(self.inner, shown(name@), bytes@),
        ensures
            r@ == match sniff {
                Some(bytes) => sniffed_type(self.inner, shown(name@), bytes@),
                None => best_type(name_table(self.inner)[shown(name@)]),
            },
            sniff matches Some(bytes) ==> bytes@.len() == 0 ==> name_decides(
                name_table(self.inner)[shown(name@)],
            ) || r@ == empty_type() || r@ == unknown_type(),
    {
        let text = lossy(name);
        match sniff {
            Some(bytes) => type_of_content(&self.inner, text.as_str(), bytes),
            None => {
                let types = types_of_name(&self.inner, text.as_str());
                pick_mime(&types)
            },
        }
    }
}

impl MimeDb {
    /// The type of a file with this name and these first bytes, with whatever
    /// database, as far as no rule has to be applied to the bytes: where the
    /// name does not decide alone and there are bytes, there is none.
    pub fn guess_without_rules(&self, name: &[u8], bytes: &[u8]) -> (r: Option<String>)
        ensures
            opt_text(r) == (if name_decides(name_table(self.inner)[shown(name@)]) || bytes@.len()
                == 0 {
                Some(sniffed_type(self.inner, shown(name@), bytes@))
            } else {
                None
            }),
    {
        let types = types_of_name(&self.inner, lossy(name).as_str());
        if bytes.len() == 0 || decides(&types) {
            Some(self.guess(name, Some(bytes)))
        } else {
            None
        }
    }
}

/// The coarse category of a type of content.
#[derive(Debug, Clone, Copy, PartialEq, Eq, Structural)]
pub enum Category {
    Directory,
    Text,
    Code,
    Image,
    Audio,
    Video,
    Archive,
    Config,
    /// Some kind of file that is none of the others.
    Generic,
    /// No type at all.
    Unknown,
}

/// The part of a type before the first `/`, or all of it.
pub open spec fn top_level(mime: Seq<char>) -> Seq<char> {
    split(mime, '/')[0]
}

/// Types of source code, markup and structured data.
pub open spec fn is_code(mime: Seq<char>) -> bool {
    ||| mime == "application/json"@
    ||| mime == "application/xml"@
    ||| mime == "application/javascript"@
    ||| mime == "application/x-yaml"@
    ||| mime == "application/x-sh"@
    ||| mime == "application/x-shellscript"@
    ||| mime == "text/html"@
    ||| mime == "text/css"@
    ||| "+json"@.is_suffix_of(mime)
    ||| "+xml"@.is_suffix_of(mime)
    ||| "text/x-"@.is_prefix_of(mime)
}

/// Types of archives.
pub open spec fn is_archive(mime: Seq<char>) -> bool {
    ||| mime == "application/zip"@
    ||| mime == "application/x-tar"@
    ||| mime == "application/gzip"@
    ||| mime == "application/x-gzip"@
    ||| mime == "application/x-bzip"@
    ||| mime == "application/x-bzip2"@
    ||| mime == "application/x-xz"@
    ||| mime == "application/x-7z-compressed"@
    ||| mime == "application/x-rar"@
    ||| mime == "application/vnd.rar"@
    ||| mime == "application/java-archive"@
    ||| mime == "application/x-compressed-tar"@
    ||| mime == "application/x-zstd-compressed-tar"@
}

/// The category of a type.
pub open spec fn category_of(mime: Seq<char>) -> Category {
    if mime.len() == 0 {
        Category::Unknown
    } else if mime == "inode/directory"@ {
        Category::Directory
    } else if mime == "application/x-desktop"@ {
        Category::Config
    } else if is_code(mime) {
        Category::Code
    } else if top_level(mime) == "text"@ {
        Category::Text
    } else if top_level(mime) == "image"@ {
        Category::Image
    } else if top_level(mime) == "audio"@ {
        Category::Audio
    } else if top_level(mime) == "video"@ {
        Category::Video
    } else if is_archive(mime) {
        Category::Archive
    } else {
        Category::Generic
    }
}

fn is_code_mime(mime: &str) -> (r: bool)
    ensures
        r == is_code(mime@),
{
    let cs = chars_of(mime);
    same_text(mime, "application/json") || same_text(mime, "application/xml") || same_text(
        mime,
        "application/javascript",
    ) || same_text(mime, "application/x-yaml") || same_text(mime, "application/x-sh") || same_text(
        mime,
        "application/x-shellscript",
    ) || same_text(mime, "text/html") || same_text(mime, "text/css") || has_suffix(
        cs.as_slice(),
        "+json",
    ) || has_suffix(cs.as_slice(), "+xml") || has_prefix(cs.as_slice(), "text/x-")
}

fn is_archive_mime(mime: &str) -> (r: bool)
    ensures
        r == is_archive(mime@),
{
    same_text(mime, "application/zip") || same_text(mime, "application/x-tar") || same_text(
        mime,
        "application/gzip",
    ) || same_text(mime, "application/x-gzip") || same_text(mime, "application/x-bzip")
        || same_text(mime, "application/x-bzip2") || same_text(mime, "application/x-xz")
        || same_text(mime, "application/x-7z-compressed") || same_text(mime, "application/x-rar")
        || same_text(mime, "application/vnd.rar") || same_text(mime, "application/java-archive")
        || same_text(mime, "application/x-compressed-tar") || same_text(
        mime,
        "application/x-zstd-compressed-tar",
    )
}

/// The category of a type.
pub fn category(mime: &str) -> (r: Category)
    ensures
        r == category_of(mime@),
{
    let cs = chars_of(mime);
    if cs.len() == 0 {
        return Category::Unknown;
    }
    if same_text(mime, "inode/directory") {
        return Category::Directory;
    }
    if same_text(mime, "application/x-desktop") {
        return Category::Config;
    }
    if is_code_mime(mime) {
        return Category::Code;
    }
    let pieces = split_on(cs.as_slice(), '/');
    assert(rows(pieces@)[0] == top_level(mime@));
    assert(rows(pieces@).len() > 0);
    let top = pieces[0].as_slice();
    if is_text(top, "text") {
        return Category::Text;
    }
    if is_text(top, "image") {
        return Category::Image;
    }
    if is_text(top, "audio") {
        return Category::Audio;
    }
    if is_text(top, "video") {
        return Category::Video;
    }
    if is_archive_mime(mime) {
        return Category::Archive;
    }
    Category::Generic
}

// ---------------------------------------------------------------------------
// Laws
// ---------------------------------------------------------------------------

/// Only the empty type is unknown: every other has a category.
pub proof fn every_type_has_a_category(mime: Seq<char>)
    ensures
        category_of(mime) == Category::Unknown <==> mime.len() == 0,
{
}

/// Whether a type is one of the known archives.
pub open spec fn is_known_archive(mime: Seq<char>) -> bool {
    ||| mime == "application/gzip"@
    ||| mime == "application/java-archive"@
    ||| mime == "application/vnd.rar"@
    ||| mime == "application/x-7z-compressed"@
    ||| mime == "application/x-bzip"@
    ||| mime == "application/x-bzip2"@
    ||| mime == "application/x-compressed-tar"@
    ||| mime == "application/x-gzip"@
    ||| mime == "application/x-rar"@
    ||| mime == "application/x-tar"@
    ||| mime == "application/x-xz"@
    ||| mime == "application/x-zstd-compressed-tar"@
    ||| mime == "application/zip"@
}

/// Whether a type is one of the known kinds of code that only their names
/// tell.
pub open spec fn is_known_code(mime: Seq<char>) -> bool {
    ||| mime == "application/javascript"@
    ||| mime == "application/json"@
    ||| mime == "application/x-sh"@
    ||| mime == "application/x-shellscript"@
    ||| mime == "application/x-yaml"@
    ||| mime == "application/xml"@
    ||| mime == "text/css"@
    ||| mime == "text/html"@
}

proof fn applications_are_no_media(mime: Seq<char>)
    requires
        mime.len() > 1,
        mime[0] == 'a',
        mime[1] == 'p',
    ensures
        top_level(mime) != "text"@,
        top_level(mime) != "image"@,
        top_level(mime) != "audio"@,
        top_level(mime) != "video"@,
{
    reveal_strlit("text");
    reveal_strlit("image");
    reveal_strlit("audio");
    reveal_strlit("video");
    assert("text"@[0] == 't' && "image"@[0] == 'i' && "video"@[0] == 'v' && "audio"@[1] == 'u');
    find_props(mime, '/');
    let i = find(mime, '/');
    assert(i >= 2);
    if i < mime.len() {
        assert(top_level(mime) == mime.take(i));
        assert(mime.take(i)[0] == 'a' && mime.take(i)[1] == 'p');
    } else {
        assert(top_level(mime) == mime);
    }
}

/// Archives are those types that are known as archives, and no others.
pub proof fn archives_are_known_by_name(mime: Seq<char>)
    ensures
        category_of(mime) == Category::Archive <==> is_known_archive(mime),
{
    reveal_strlit("application/zip");
    reveal_strlit("application/x-tar");
    reveal_strlit("application/gzip");
    reveal_strlit("application/x-gzip");
    reveal_strlit("application/x-bzip");
    reveal_strlit("application/x-bzip2");
    reveal_strlit("application/x-xz");
    reveal_strlit("application/x-7z-compressed");
    reveal_strlit("application/x-rar");
    reveal_strlit("application/vnd.rar");
    reveal_strlit("application/java-archive");
    reveal_strlit("application/x-compressed-tar");
    reveal_strlit("application/x-zstd-compressed-tar");
    reveal_strlit("application/json");
    reveal_strlit("application/xml");
    reveal_strlit("application/javascript");
    reveal_strlit("application/x-yaml");
    reveal_strlit("application/x-sh");
    reveal_strlit("application/x-shellscript");
    reveal_strlit("text/html");
    reveal_strlit("text/css");
    reveal_strlit("inode/directory");
    reveal_strlit("application/x-desktop");
    reveal_strlit("+json");
    reveal_strlit("+xml");
    reveal_strlit("text/x-");
    assert("application/zip"@.last() == 'p' && "application/zip"@[0] == 'a' && "application/zip"@[1] == 'p');
    assert("application/x-tar"@.last() == 'r' && "application/x-tar"@[0] == 'a' && "application/x-tar"@[1] == 'p');
    assert("application/gzip"@.last() == 'p' && "application/gzip"@[0] == 'a' && "application/gzip"@[1] == 'p');
    assert("application/x-gzip"@.last() == 'p' && "application/x-gzip"@[0] == 'a' && "application/x-gzip"@[1] == 'p');
    assert("application/x-bzip"@.last() == 'p' && "application/x-bzip"@[0] == 'a' && "application/x-bzip"@[1] == 'p');
    assert("application/x-bzip2"@.last() == '2' && "application/x-bzip2"@[0] == 'a' && "application/x-bzip2"@[1] == 'p');
    assert("application/x-xz"@.last() == 'z' && "application/x-xz"@[0] == 'a' && "application/x-xz"@[1] == 'p');
    assert("application/x-7z-compressed"@.last() == 'd' && "application/x-7z-compressed"@[0] == 'a' && "application/x-7z-compressed"@[1] == 'p');
    assert("application/x-rar"@.last() == 'r' && "application/x-rar"@[0] == 'a' && "application/x-rar"@[1] == 'p');
    assert("application/vnd.rar"@.last() == 'r' && "application/vnd.rar"@[0] == 'a' && "application/vnd.rar"@[1] == 'p');
    assert("application/java-archive"@.last() == 'e' && "application/java-archive"@[0] == 'a' && "application/java-archive"@[1] == 'p');
    assert("application/x-compressed-tar"@.last() == 'r' && "application/x-compressed-tar"@[0] == 'a' && "application/x-compressed-tar"@[1] == 'p');
    assert("application/x-zstd-compressed-tar"@.last() == 'r' && "application/x-zstd-compressed-tar"@[0] == 'a' && "application/x-zstd-compressed-tar"@[1] == 'p');
    assert("application/json"@.last() == 'n' && "application/json"@[0] == 'a' && "application/json"@[1] == 'p');
    assert("application/xml"@.last() == 'l' && "application/xml"@[0] == 'a' && "application/xml"@[1] == 'p');
    assert("application/javascript"@.last() == 't' && "application/javascript"@[0] == 'a' && "application/javascript"@[1] == 'p');
    assert("application/x-yaml"@.last() == 'l' && "application/x-yaml"@[0] == 'a' && "application/x-yaml"@[1] == 'p');
    assert("application/x-sh"@.last() == 'h' && "application/x-sh"@[0] == 'a' && "application/x-sh"@[1] == 'p');
    assert("application/x-shellscript"@.last() == 't' && "application/x-shellscript"@[0] == 'a' && "application/x-shellscript"@[1] == 'p');
    assert("text/html"@.last() == 'l' && "text/html"@[0] == 't' && "text/html"@[1] == 'e');
    assert("text/css"@.last() == 's' && "text/css"@[0] == 't' && "text/css"@[1] == 'e');
    assert("inode/directory"@.last() == 'y' && "inode/directory"@[0] == 'i' && "inode/directory"@[1] == 'n');
    assert("application/x-desktop"@.last() == 'p' && "application/x-desktop"@[0] == 'a' && "application/x-desktop"@[1] == 'p');
    assert("+json"@.last() == 'n' && "+xml"@.last() == 'l' && "text/x-"@[0] == 't');
    if is_known_archive(mime) {
        applications_are_no_media(mime);
        assert(mime.last() != 'n' && mime.last() != 'l' && mime.last() != 't' && mime.last() != 'h'
            && mime.last() != 's');
        assert(!"+json"@.is_suffix_of(mime)) by {
            if "+json"@.is_suffix_of(mime) {
                assert(mime.subrange(mime.len() - 5, mime.len() as int).last() == mime.last());
            }
        }
        assert(!"+xml"@.is_suffix_of(mime)) by {
            if "+xml"@.is_suffix_of(mime) {
                assert(mime.subrange(mime.len() - 4, mime.len() as int).last() == mime.last());
            }
        }
        assert(!"text/x-"@.is_prefix_of(mime)) by {
            if "text/x-"@.is_prefix_of(mime) {
                assert(mime.take(7)[0] == mime[0]);
            }
        }
    }
}

/// Code is what is known as code, what is written in a language of its own
/// under `text/x-`, and what is structured as JSON or XML.
pub proof fn code_is_known_by_its_form(mime: Seq<char>, rest: Seq<char>)
    ensures
        is_known_code(mime) ==> category_of(mime) == Category::Code,
        category_of("text/x-"@ + rest) == Category::Code,
        category_of(rest + "+json"@) == Category::Code,
        category_of(rest + "+xml"@) == Category::Code,
        category_of(mime) == Category::Code ==> is_known_code(mime) || "text/x-"@.is_prefix_of(
            mime,
        ) || "+json"@.is_suffix_of(mime) || "+xml"@.is_suffix_of(mime),
{
    reveal_strlit("application/json");
    reveal_strlit("application/xml");
    reveal_strlit("application/javascript");
    reveal_strlit("application/x-yaml");
    reveal_strlit("application/x-sh");
    reveal_strlit("application/x-shellscript");
    reveal_strlit("text/html");
    reveal_strlit("text/css");
    reveal_strlit("inode/directory");
    reveal_strlit("application/x-desktop");
    reveal_strlit("+json");
    reveal_strlit("+xml");
    reveal_strlit("text/x-");
    assert("application/json"@.last() == 'n' && "application/json"@[0] == 'a' && "application/json"@[1] == 'p');
    assert("application/xml"@.last() == 'l' && "application/xml"@[0] == 'a' && "application/xml"@[1] == 'p');
    assert("application/javascript"@.last() == 't' && "application/javascript"@[0] == 'a' && "application/javascript"@[1] == 'p');
    assert("application/x-yaml"@.last() == 'l' && "application/x-yaml"@[0] == 'a' && "application/x-yaml"@[1] == 'p');
    assert("application/x-sh"@.last() == 'h' && "application/x-sh"@[0] == 'a' && "application/x-sh"@[1] == 'p');
    assert("application/x-shellscript"@.last() == 't' && "application/x-shellscript"@[0] == 'a' && "application/x-shellscript"@[1] == 'p');
    assert("text/html"@.last() == 'l' && "text/html"@[0] == 't' && "text/html"@[1] == 'e');
    assert("text/css"@.last() == 's' && "text/css"@[0] == 't' && "text/css"@[1] == 'e');
    assert("inode/directory"@.last() == 'y' && "inode/directory"@[0] == 'i' && "inode/directory"@[1] == 'n');
    assert("application/x-desktop"@.last() == 'p' && "application/x-desktop"@[0] == 'a' && "application/x-desktop"@[1] == 'p');
    assert("+json"@.last() == 'n' && "+xml"@.last() == 'l' && "text/x-"@[0] == 't');
    let (a, b, c) = ("text/x-"@ + rest, rest + "+json"@, rest + "+xml"@);
    assert(a.take(7) =~= "text/x-"@);
    assert(a[0] == 't');
    assert(b.skip(b.len() - 5) =~= "+json"@);
    assert(b.subrange(b.len() - 5, b.len() as int) =~= "+json"@);
    assert(c.subrange(c.len() - 4, c.len() as int) =~= "+xml"@);
    assert(b.last() == 'n' && c.last() == 'l');
}

/// What is no code has the category of its top level, if that is one of text,
/// images, sound and film; directories and desktop entries have their own.
pub proof fn media_are_known_by_their_top_level(top: Seq<char>, sub: Seq<char>)
    requires
        !top.contains('/'),
        !is_code(top + seq!['/'] + sub),
    ensures
        ({
            let mime = top + seq!['/'] + sub;
            &&& top == "text"@ ==> category_of(mime) == Category::Text
            &&& top == "image"@ ==> category_of(mime) == Category::Image
            &&& top == "audio"@ ==> category_of(mime) == Category::Audio
            &&& top == "video"@ ==> category_of(mime) == Category::Video
        }),
        category_of("inode/directory"@) == Category::Directory,
        category_of("application/x-desktop"@) == Category::Config,
        forall|m: Seq<char>| #[trigger]
            category_of(m) == Category::Directory ==> m == "inode/directory"@,
        forall|m: Seq<char>| #[trigger]
            category_of(m) == Category::Config ==> m == "application/x-desktop"@,
{
    reveal_strlit("text");
    reveal_strlit("image");
    reveal_strlit("audio");
    reveal_strlit("video");
    reveal_strlit("inode/directory");
    reveal_strlit("application/x-desktop");
    let mime = top + seq!['/'] + sub;
    find_is(mime, '/', top.len() as int);
    assert(mime.take(top.len() as int) =~= top);
    assert(top_level(mime) == top);
    assert("text"@[0] == 't' && "image"@[0] == 'i' && "image"@[1] == 'm' && "audio"@[1] == 'u'
        && "video"@[0] == 'v' && "audio"@[0] == 'a');
    assert("inode/directory"@[0] == 'i' && "inode/directory"@[1] == 'n'
        && "application/x-desktop"@[0] == 'a' && "application/x-desktop"@[1] == 'p');
    if top.len() > 1 {
        assert(mime[0] == top[0] && mime[1] == top[1]);
    }
}

/// Without bytes the first type of a name counts.
pub proof fn the_first_type_counts(types: Seq<Seq<char>>)
    ensures
        types.len() > 0 ==> best_type(types) == types[0],
        types.len() == 0 ==> best_type(types) == "application/octet-stream"@,
        name_decides(types) <==> types.len() == 1 && types[0] != "application/octet-stream"@,
{
}

} // verus!
