//! Thumbnails: where the shared cache keeps them, when an entry of the cache
//! may be used, how one is made and stored, and the small cache of decoded
//! ones in memory.
//!
//! A cache entry is a PNG file named after the digest of the picture's URI.
//! It carries the URI and the time of the picture it was made from, and is
//! used only if both still match.
use crate::md5::{hex_digest, hex_of, md5_of};
use crate::model::fs::ops::shown_name;
use crate::model::pictures::{
    MAX_SIDE, PictureModel, is_fitted, make_thumbnail, picture_in, picture_pixels, read_picture,
    shown_picture, small_picture, thumb_result,
};
use crate::model::vfs::{Location, LocationView, file_scheme, location_text, same_location};
use crate::path::{FsPath, joined, opt_path, opt_vec};
use crate::percent::{encode_percent, escaped, escaped_is_ascii};
use crate::text::{
    bytes_of, chars_of, copy_bytes, copy_of, decimal, decimal_of, has_prefix, lossy, opt_text,
    same_text,
};
use crate::time::Timestamp;
use vstd::prelude::*;
use vstd::utf8::*;

verus! {

// ---------------------------------------------------------------------------
// Where entries are kept
// ---------------------------------------------------------------------------

/// The size that a thumbnail is made in.
#[derive(Debug, Clone, Copy, PartialEq, Eq, Structural)]
pub enum ThumbSize {
    Normal,
}

impl ThumbSize {
    /// The directory of the cache for this size.
    pub fn dir_name(self) -> (r: &'static str)
        ensures
            r@ == "normal"@,
    {
        match self {
            ThumbSize::Normal => "normal",
        }
    }

    /// The longest side, in pixels.
    pub fn max_pixels(self) -> (r: u32)
        ensures
            r == 128,
    {
        match self {
            ThumbSize::Normal => 128,
        }
    }
}

/// The URI that identifies a picture.
pub open spec fn uri_for(path: Seq<u8>) -> Seq<char> {
    "file://"@ + escaped(path)
}

/// The URI that identifies a picture.
pub fn canonical_uri(path: &FsPath) -> (r: String)
    ensures
        r@ == uri_for(path@),
{
    copy_of("file://").concat(encode_percent(path.as_bytes()).as_str())
}

/// Where the cache keeps the entry of a URI.
pub open spec fn entry_path(root: Seq<u8>, uri: Seq<char>) -> Seq<u8> {
    joined(
        joined(root, encode_utf8("normal"@)),
        encode_utf8(hex_of(md5_of(encode_utf8(uri))) + ".png"@),
    )
}

/// Where the cache keeps the entry of a URI.
pub fn cache_path(cache_root: &FsPath, uri: &str, size: ThumbSize) -> (r: FsPath)
    ensures
        r@ == entry_path(cache_root@, uri@),
{
    let name = hex_digest(bytes_of(uri).as_slice()).concat(".png");
    cache_root.join_bytes(bytes_of(size.dir_name()).as_slice()).join_bytes(
        bytes_of(name.as_str()).as_slice(),
    )
}

/// Where the cache lies: below `$XDG_CACHE_HOME`, else below `.cache` at
/// home. Empty values count as unset.
pub open spec fn cache_root(xdg: Option<Seq<u8>>, home: Option<Seq<u8>>) -> Option<Seq<u8>> {
    match xdg {
        Some(dir) if dir.len() > 0 => Some(joined(dir, encode_utf8("thumbnails"@))),
        _ => match home {
            Some(dir) if dir.len() > 0 => Some(joined(dir, encode_utf8(".cache/thumbnails"@))),
            _ => None,
        },
    }
}

/// Where the cache lies, from the values of the two variables.
pub fn cache_root_from(xdg_cache_home: Option<Vec<u8>>, home: Option<Vec<u8>>) -> (r: Option<
    FsPath,
>)
    ensures
        opt_path(r) == cache_root(opt_vec(xdg_cache_home), opt_vec(home)),
{
    match xdg_cache_home {
        Some(dir) => {
            if dir.len() > 0 {
                return Some(FsPath::from_bytes(dir).join_bytes(bytes_of("thumbnails").as_slice()));
            }
        },
        None => {},
    }
    match home {
        Some(dir) => {
            if dir.len() > 0 {
                return Some(
                    FsPath::from_bytes(dir).join_bytes(bytes_of(".cache/thumbnails").as_slice()),
                );
            }
            None
        },
        None => None,
    }
}

/// Whether a file is too large for a thumbnail: above `max_mb` mebibytes.
pub fn exceeds_max_size(size_bytes: u64, max_mb: u64) -> (r: bool)
    ensures
        r == (size_bytes > max_mb * 1_048_576),
{
    if max_mb > u64::MAX / 1_048_576 {
        return false;
    }
    size_bytes > max_mb * 1_048_576
}

/// A time as a cache entry carries it: whole seconds since the epoch, zero
/// before it.
pub open spec fn time_key(modified: Timestamp) -> Seq<char> {
    decimal(
        if modified.secs < 0 {
            0
        } else {
            modified.secs as nat
        },
    )
}

/// A time as a cache entry carries it.
pub fn mtime_to_string(modified: Timestamp) -> (r: String)
    ensures
        r@ == time_key(modified),
{
    if modified.secs < 0 {
        decimal_of(0)
    } else {
        decimal_of(modified.secs as u64)
    }
}

// ---------------------------------------------------------------------------
// Entries
// ---------------------------------------------------------------------------

/// The pixels of a thumbnail, four bytes each, row by row.
#[derive(Debug, PartialEq, Eq)]
pub struct ThumbHandle<B = Vec<u8>> {
    pub width: u32,
    pub height: u32,
    pub rgba: B,
}

/// The model of a [`ThumbHandle`].
pub type ThumbView = ThumbHandle<Seq<u8>>;

impl View for ThumbHandle {
    type V = ThumbView;

    open spec fn view(&self) -> ThumbView {
        ThumbHandle { width: self.width, height: self.height, rgba: self.rgba@ }
    }
}

impl Clone for ThumbHandle {
    fn clone(&self) -> (r: Self)
        ensures
            r@ == self@,
    {
        ThumbHandle {
            width: self.width,
            height: self.height,
            rgba: copy_bytes(self.rgba.as_slice()),
        }
    }
}

/// The view of an optional thumbnail.
pub open spec fn opt_thumb(o: Option<ThumbHandle>) -> Option<ThumbView> {
    match o {
        Some(t) => Some(t@),
        None => None,
    }
}

/// Whether there are as many pixels as the sides say.
pub open spec fn is_picture(t: ThumbView) -> bool {
    t.rgba.len() == 4 * t.width * t.height
}

/// Decides [`is_picture`].
pub fn is_complete(t: &ThumbHandle) -> (r: bool)
    ensures
        r == is_picture(t@),
{
    assert(0 <= t.width * t.height <= 0xFFFF_FFFF * 0xFFFF_FFFF) by (nonlinear_arith)
        requires
            0 <= t.width <= 0xFFFF_FFFF,
            0 <= t.height <= 0xFFFF_FFFF,
    ;
    let pixels: u128 = (t.width as u128) * (t.height as u128);
    assert(4 * t.width * t.height == 4 * (t.width * t.height)) by (nonlinear_arith);
    t.rgba.len() as u128 == 4 * pixels
}

/// What the `png` crate makes of pixels and two texts with their keywords:
/// the bytes of the file, or the message that says why there are none.
pub uninterp spec fn png_file(
    width: u32,
    height: u32,
    pixels: Seq<u8>,
    first: (Seq<char>, Seq<char>),
    second: (Seq<char>, Seq<char>),
) -> Result<Seq<u8>, Seq<char>>;

/// The uncompressed texts before the pixels of a PNG file, as the `png` crate
/// reads them, in their order; none where it reads no PNG file.
pub uninterp spec fn png_texts(bytes: Seq<u8>) -> Option<Seq<(Seq<char>, Seq<char>)>>;

/// Whether a text has only characters that a PNG text can hold.
pub open spec fn is_latin1(s: Seq<char>) -> bool {
    forall|i: int| 0 <= i < s.len() ==> (#[trigger] s[i]) as u32 <= 0xFF
}

/// Whether a text can be a keyword in a PNG file.
pub open spec fn is_png_keyword(s: Seq<char>) -> bool {
    &&& 1 <= s.len() <= 79
    &&& forall|i: int| 0 <= i < s.len() ==> 0 < (#[trigger] s[i]) as u32 <= 0xFF
}

/// The view of the bytes of a file or an error.
pub open spec fn bytes_result(r: Result<Vec<u8>, String>) -> Result<Seq<u8>, Seq<char>> {
    match r {
        Ok(b) => Ok(b@),
        Err(m) => Err(m@),
    }
}

/// `png::Encoder` with two text chunks, on pixels of four bytes: the bytes of
/// the file or the displayed error. There is a file whenever there is a pixel
/// and the texts can be held. From it `png::Decoder` reads the two texts back,
/// and the reader of the `image` crate the pixels, unless the texts or the
/// sides are so large that their limits may interfere.
#[verifier::external_body]
fn encode_png(
    width: u32,
    height: u32,
    pixels: &[u8],
    first: (&str, &str),
    second: (&str, &str),
) -> (r: Result<Vec<u8>, String>)
    requires
        pixels@.len() == 4 * width * height,
        is_png_keyword(first.0@),
        is_png_keyword(second.0@),
    ensures
        bytes_result(r) == png_file(
            width,
            height,
            pixels@,
            (first.0@, first.1@),
            (second.0@, second.1@),
        ),
        width > 0 && height > 0 && is_latin1(first.1@) && is_latin1(second.1@) ==> r is Ok,
        r is Ok && width <= 0x1_0000 && height <= 0x1_0000 && first.1@.len() <= 0x10_0000
            && second.1@.len() <= 0x10_0000 ==> png_texts(r->Ok_0@) == Some(
            seq![(first.0@, first.1@), (second.0@, second.1@)],
        ),
        r is Ok && width <= 0x1000 && height <= 0x1000 && first.1@.len() <= 0x10_0000
            && second.1@.len() <= 0x10_0000 ==> (picture_in(
            r->Ok_0@,
            "thumbnail.png"@,
        ) matches Ok(p) && picture_pixels(p) == (ThumbHandle { width, height, rgba: pixels@ })),
{
    let mut out: Vec<u8> = Vec::new();
    let mut encoder = png::Encoder::new(&mut out, width, height);
    encoder.set_color(png::ColorType::Rgba);
    encoder.set_depth(png::BitDepth::Eight);
    encoder.add_text_chunk(first.0.to_owned(), first.1.to_owned()).map_err(|e| e.to_string())?;
    encoder.add_text_chunk(second.0.to_owned(), second.1.to_owned()).map_err(|e| e.to_string())?;
    let mut writer = encoder.write_header().map_err(|e| e.to_string())?;
    writer.write_image_data(pixels).map_err(|e| e.to_string())?;
    writer.finish().map_err(|e| e.to_string())?;
    Ok(out)
}

/// The view of a list of texts with their keywords.
pub open spec fn text_pairs(v: Seq<(String, String)>) -> Seq<(Seq<char>, Seq<char>)> {
    Seq::new(v.len(), |i: int| (v[i].0@, v[i].1@))
}

/// The view of an optional list of texts with their keywords.
pub open spec fn opt_pairs(o: Option<Vec<(String, String)>>) -> Option<
    Seq<(Seq<char>, Seq<char>)>,
> {
    match o {
        Some(v) => Some(text_pairs(v@)),
        None => None,
    }
}

/// `png::Decoder::read_info`, of which the uncompressed texts are handed out:
/// those that stand before the pixels, in their order. What is no PNG file
/// gives none.
#[verifier::external_body]
fn decode_png_texts(bytes: &[u8]) -> (r: Option<Vec<(String, String)>>)
    ensures
        opt_pairs(r) == png_texts(bytes@),
{
    let reader = png::Decoder::new(std::io::Cursor::new(bytes)).read_info().ok()?;
    let chunks = &reader.info().uncompressed_latin1_text;
    Some(chunks.iter().map(|c| (c.keyword.clone(), c.text.clone())).collect())
}

/// The last text with a keyword.
pub open spec fn text_under(list: Seq<(Seq<char>, Seq<char>)>, key: Seq<char>) -> Option<Seq<char>>
    decreases list.len(),
{
    if list.len() == 0 {
        None
    } else if list.last().0 == key {
        Some(list.last().1)
    } else {
        text_under(list.drop_last(), key)
    }
}

/// The URI and the time that a cache entry carries, if it carries both.
pub open spec fn origin_in(list: Seq<(Seq<char>, Seq<char>)>) -> Option<(Seq<char>, Seq<char>)> {
    match (text_under(list, "Thumb::URI"@), text_under(list, "Thumb::MTime"@)) {
        (Some(uri), Some(mtime)) => Some((uri, mtime)),
        _ => None,
    }
}

/// The URI and the time that a file carries as a cache entry.
pub open spec fn origin_of(list: Option<Seq<(Seq<char>, Seq<char>)>>) -> Option<
    (Seq<char>, Seq<char>),
> {
    match list {
        Some(list) => origin_in(list),
        None => None,
    }
}

/// The view of an optional pair of texts.
pub open spec fn opt_pair(o: Option<(String, String)>) -> Option<(Seq<char>, Seq<char>)> {
    match o {
        Some((a, b)) => Some((a@, b@)),
        None => None,
    }
}

fn find_text_under(list: &Vec<(String, String)>, key: &str) -> (r: Option<String>)
    ensures
        opt_text(r) == text_under(text_pairs(list@), key@),
{
    let ghost all = text_pairs(list@);
    let mut i: usize = list.len();
    assert(all.take(all.len() as int) =~= all);
    while i > 0
        invariant
            i <= list@.len(),
            all == text_pairs(list@),
            text_under(all, key@) == text_under(all.take(i as int), key@),
        decreases i,
    {
        assert(all.take(i as int).last() == (list@[i - 1].0@, list@[i - 1].1@));
        if same_text(list[i - 1].0.as_str(), key) {
            return Some(list[i - 1].1.clone());
        }
        assert(all.take(i as int).drop_last() =~= all.take(i - 1));
        i = i - 1;
    }
    None
}

/// The URI and the time among the texts of a cache entry.
pub fn find_origin(list: &Vec<(String, String)>) -> (r: Option<(String, String)>)
    ensures
        opt_pair(r) == origin_in(text_pairs(list@)),
{
    match (find_text_under(list, "Thumb::URI"), find_text_under(list, "Thumb::MTime")) {
        (Some(uri), Some(mtime)) => Some((uri, mtime)),
        _ => None,
    }
}

/// The URI and the time that a file carries as a cache entry.
pub fn read_cache_metadata(bytes: &[u8]) -> (r: Option<(String, String)>)
    ensures
        opt_pair(r) == origin_of(png_texts(bytes@)),
{
    match decode_png_texts(bytes) {
        Some(list) => find_origin(&list),
        None => None,
    }
}

/// The file of a cache entry.
pub open spec fn entry_file(uri: Seq<char>, mtime: Seq<char>, t: ThumbView) -> Result<
    Seq<u8>,
    Seq<char>,
> {
    png_file(t.width, t.height, t.rgba, ("Thumb::URI"@, uri), ("Thumb::MTime"@, mtime))
}

/// The pixels in a cache entry.
pub open spec fn entry_picture(contents: Seq<u8>) -> MadeView {
    shown_picture(contents, "thumbnail.png"@)
}

/// Writes a cache entry. What is written for a picture of usual size is read
/// back with the URI and the time it was written for, and with its pixels.
pub fn write_png_with_metadata(uri: &str, mtime: &str, image: &ThumbHandle) -> (r: Result<
    Vec<u8>,
    String,
>)
    requires
        is_picture(image@),
    ensures
        bytes_result(r) == entry_file(uri@, mtime@, image@),
        image.width > 0 && image.height > 0 && is_latin1(uri@) && is_latin1(mtime@) ==> r is Ok,
        r is Ok && image.width <= 0x1_0000 && image.height <= 0x1_0000 && uri@.len() <= 0x10_0000
            && mtime@.len() <= 0x10_0000 ==> origin_of(png_texts(r->Ok_0@)) == Some(
            (uri@, mtime@),
        ),
        r is Ok && image.width <= 0x1000 && image.height <= 0x1000 && uri@.len() <= 0x10_0000
            && mtime@.len() <= 0x10_0000 ==> entry_picture(r->Ok_0@) == MadeView::Ok(image@),
{
    proof {
        reveal_strlit("Thumb::URI");
        reveal_strlit("Thumb::MTime");
        let list = seq![("Thumb::URI"@, uri@), ("Thumb::MTime"@, mtime@)];
        let first = seq![("Thumb::URI"@, uri@)];
        assert(list.drop_last() =~= first);
        assert(first.last() == ("Thumb::URI"@, uri@));
        assert("Thumb::URI"@.len() != "Thumb::MTime"@.len());
        assert(text_under(first, "Thumb::URI"@) == Some(uri@));
    }
    encode_png(
        image.width,
        image.height,
        image.rgba.as_slice(),
        ("Thumb::URI", uri),
        ("Thumb::MTime", mtime),
    )
}

// ---------------------------------------------------------------------------
// Thumbnailers
// ---------------------------------------------------------------------------

/// The model of the text of a type.
pub type MimeText = Seq<char>;

/// The model of the bytes of a file.
pub type FileBytes = Seq<u8>;

/// The model of a file name.
pub type NameText = Seq<char>;

/// The model of a thumbnail or of the reason why there is none.
pub type MadeView = Result<ThumbView, Seq<char>>;

/// Something that makes thumbnails of files of some types.
pub trait Thumbnailer {
    /// Whether it makes thumbnails of a type.
    spec fn claims(&self, mimetype: MimeText) -> bool;

    /// The thumbnail that it makes of a file.
    spec fn thumbnail(&self, bytes: FileBytes, name: NameText, max_pixels: u32) -> MadeView;

    /// Decides `claims`.
    fn handles(&self, mimetype: &str) -> (r: bool)
        ensures
            r == self.claims(mimetype@),
    ;

    /// Makes a thumbnail of a file from its bytes and its name: all its
    /// pixels, no longer than `max_pixels` on its longest side.
    fn generate(&self, bytes: &[u8], name: &str, max_pixels: u32) -> (r: Result<
        ThumbHandle,
        String,
    >)
        requires
            max_pixels <= MAX_SIDE,
        ensures
            thumb_result(r) == self.thumbnail(bytes@, name@, max_pixels),
            r matches Ok(t) ==> is_picture(t@),
            r matches Ok(t) ==> max_pixels > 0 ==> t.width <= max_pixels && t.height <= max_pixels,
    ;
}

/// The thumbnailer of pictures.
#[derive(Debug, Clone, Copy)]
pub struct ImageThumbnailer;

impl Thumbnailer for ImageThumbnailer {
    open spec fn claims(&self, mimetype: MimeText) -> bool {
        "image/"@.is_prefix_of(mimetype)
    }

    fn handles(&self, mimetype: &str) -> (r: bool) {
        let cs = chars_of(mimetype);
        has_prefix(cs.as_slice(), "image/")
    }

    open spec fn thumbnail(&self, bytes: FileBytes, name: NameText, max_pixels: u32) -> MadeView {
        small_picture(bytes, name, max_pixels)
    }

    fn generate(&self, bytes: &[u8], name: &str, max_pixels: u32) -> (r: Result<
        ThumbHandle,
        String,
    >)
        ensures
            r matches Ok(t) ==> max_pixels > 0 ==> (picture_in(bytes@, name@) matches Ok(p)
                && is_fitted(
                p,
                PictureModel { width: t.width, height: t.height, ..p },
                max_pixels,
            )),
    {
        make_thumbnail(bytes, name, max_pixels)
    }
}

/// The thumbnailers, those that are asked first first.
#[derive(Debug)]
pub struct Registry<T = ImageThumbnailer> {
    pub thumbnailers: Vec<T>,
}

/// The first of a list of thumbnailers that claims a type.
pub open spec fn claimant<T: Thumbnailer>(list: Seq<T>, mimetype: Seq<char>) -> Option<T>
    decreases list.len(),
{
    if list.len() == 0 {
        None
    } else if list[0].claims(mimetype) {
        Some(list[0])
    } else {
        claimant(list.skip(1), mimetype)
    }
}

impl<T: Thumbnailer> Registry<T> {
    /// No thumbnailers.
    pub fn empty() -> (r: Self)
        ensures
            r.thumbnailers@ == Seq::<T>::empty(),
    {
        Registry { thumbnailers: Vec::new() }
    }

    /// Adds a thumbnailer that is asked after all others.
    pub fn register(&mut self, thumbnailer: T)
        ensures
            final(self).thumbnailers@ == old(self).thumbnailers@.push(thumbnailer),
    {
        self.thumbnailers.push(thumbnailer);
    }

    /// The thumbnailer for a type: the first that claims it.
    pub fn find(&self, mimetype: &str) -> (r: Option<&T>)
        ensures
            match r {
                Some(t) => claimant(self.thumbnailers@, mimetype@) == Some(*t),
                None => claimant(self.thumbnailers@, mimetype@) is None,
            },
    {
        let ghost all = self.thumbnailers@;
        assert(all.skip(0) =~= all);
        for i in 0..self.thumbnailers.len()
            invariant
                all == self.thumbnailers@,
                claimant(all, mimetype@) == claimant(all.skip(i as int), mimetype@),
        {
            assert(all.skip(i as int)[0] == all[i as int]);
            if self.thumbnailers[i].handles(mimetype) {
                return Some(&self.thumbnailers[i]);
            }
            assert(all.skip(i as int).skip(1) =~= all.skip(i + 1));
        }
        assert(all.skip(all.len() as int).len() == 0);
        None
    }
}

impl Registry<ImageThumbnailer> {
    /// The thumbnailers that come with the application.
    pub fn with_defaults() -> (r: Self)
        ensures
            r.thumbnailers@ == seq![ImageThumbnailer],
    {
        let mut r = Registry::empty();
        r.register(ImageThumbnailer);
        assert(r.thumbnailers@ =~= seq![ImageThumbnailer]);
        r
    }
}

impl Default for Registry<ImageThumbnailer> {
    fn default() -> (r: Self)
        ensures
            r.thumbnailers@ == seq![ImageThumbnailer],
    {
        Registry::with_defaults()
    }
}

// ---------------------------------------------------------------------------
// Making a thumbnail
// ---------------------------------------------------------------------------

/// A thumbnail that is wanted.
#[derive(Debug)]
pub struct ThumbRequest {
    pub location: Location,
    pub mimetype: String,
    /// The time of the file.
    pub modified: Timestamp,
}

/// What the making of a thumbnail is waiting for.
#[derive(Debug)]
pub enum ThumbStage<H = ThumbHandle, P = FsPath, T = String> {
    Ready,
    /// The bytes of the cache entry.
    Cached,
    /// The bytes of the file.
    Source,
    /// The creation of the directory of the cache entry.
    Dir { image: H },
    /// What makes the name of a temporary file unique.
    Stamp { image: H },
    /// The writing of the temporary file.
    Write { image: H, tmp: P },
    /// The protection of the temporary file from other users.
    Protect { image: H, tmp: P },
    /// The renaming of the temporary file.
    Rename { image: H },
    /// The removal of the temporary file after a failure.
    Clean { image: H, message: T },
    Over,
}

/// The model of a [`ThumbStage`].
pub type ThumbStageView = ThumbStage<ThumbView, Seq<u8>, Seq<char>>;

impl View for ThumbStage {
    type V = ThumbStageView;

    open spec fn view(&self) -> ThumbStageView {
        match self {
            ThumbStage::Ready => ThumbStage::Ready,
            ThumbStage::Cached => ThumbStage::Cached,
            ThumbStage::Source => ThumbStage::Source,
            ThumbStage::Dir { image } => ThumbStage::Dir { image: image@ },
            ThumbStage::Stamp { image } => ThumbStage::Stamp { image: image@ },
            ThumbStage::Write { image, tmp } => ThumbStage::Write { image: image@, tmp: tmp@ },
            ThumbStage::Protect { image, tmp } => ThumbStage::Protect { image: image@, tmp: tmp@ },
            ThumbStage::Rename { image } => ThumbStage::Rename { image: image@ },
            ThumbStage::Clean { image, message } => ThumbStage::Clean {
                image: image@,
                message: message@,
            },
            ThumbStage::Over => ThumbStage::Over,
        }
    }
}

/// What the application is to do next.
#[derive(Debug)]
pub enum ThumbAction<H = ThumbHandle, P = FsPath, B = Vec<u8>, T = String> {
    ReadBytes { path: P },
    CreateDirAll { path: P },
    /// Tell the process id and the time in nanoseconds.
    Stamp,
    WriteFile { path: P, contents: B },
    /// Make a file readable and writable by its owner alone.
    Protect { path: P },
    Rename { from: P, to: P },
    RemoveFile { path: P },
    /// Hand out the thumbnail, if there is one, log the warning, if there is
    /// one, and stop.
    Finish { image: Option<H>, warning: Option<T> },
    /// Stop.
    Halt,
}

/// The model of a [`ThumbAction`].
pub type ThumbActionView = ThumbAction<ThumbView, Seq<u8>, Seq<u8>, Seq<char>>;

impl View for ThumbAction {
    type V = ThumbActionView;

    open spec fn view(&self) -> ThumbActionView {
        match self {
            ThumbAction::ReadBytes { path } => ThumbAction::ReadBytes { path: path@ },
            ThumbAction::CreateDirAll { path } => ThumbAction::CreateDirAll { path: path@ },
            ThumbAction::Stamp => ThumbAction::Stamp,
            ThumbAction::WriteFile { path, contents } => ThumbAction::WriteFile {
                path: path@,
                contents: contents@,
            },
            ThumbAction::Protect { path } => ThumbAction::Protect { path: path@ },
            ThumbAction::Rename { from, to } => ThumbAction::Rename { from: from@, to: to@ },
            ThumbAction::RemoveFile { path } => ThumbAction::RemoveFile { path: path@ },
            ThumbAction::Finish { image, warning } => ThumbAction::Finish {
                image: opt_thumb(*image),
                warning: opt_text(*warning),
            },
            ThumbAction::Halt => ThumbAction::Halt,
        }
    }
}

/// The outcome of a [`ThumbAction`].
#[derive(Debug)]
pub enum ThumbReply<B = Vec<u8>, T = String> {
    Start,
    /// The bytes, if the file could be read.
    Bytes(Option<B>),
    Stamp { pid: u64, nanos: u64 },
    Done,
    /// The wording of what went wrong.
    Failed(T),
}

/// The model of a [`ThumbReply`].
pub type ThumbReplyView = ThumbReply<Seq<u8>, Seq<char>>;

impl View for ThumbReply {
    type V = ThumbReplyView;

    open spec fn view(&self) -> ThumbReplyView {
        match self {
            ThumbReply::Start => ThumbReply::Start,
            ThumbReply::Bytes(b) => ThumbReply::Bytes(opt_vec(*b)),
            ThumbReply::Stamp { pid, nanos } => ThumbReply::Stamp { pid: *pid, nanos: *nanos },
            ThumbReply::Done => ThumbReply::Done,
            ThumbReply::Failed(t) => ThumbReply::Failed(t@),
        }
    }
}

/// The state of the making of a thumbnail.
#[verifier::ext_equal]
pub struct ThumbState<T> {
    /// Where the cache lies, if there is one.
    pub root: Option<Seq<u8>>,
    pub location: LocationView,
    pub modified: Timestamp,
    /// The thumbnailer for the type of the file, if there is one.
    pub maker: Option<T>,
    pub stage: ThumbStageView,
}

/// The directory of a cache that entries are kept in.
pub open spec fn entry_dir(root: Seq<u8>) -> Seq<u8> {
    joined(root, encode_utf8("normal"@))
}

/// The name of a cache entry.
pub open spec fn entry_name(uri: Seq<char>) -> Seq<char> {
    hex_of(md5_of(encode_utf8(uri))) + ".png"@
}

/// The temporary file that becomes a cache entry.
pub open spec fn temporary_path(root: Seq<u8>, uri: Seq<char>, pid: u64, nanos: u64) -> Seq<u8> {
    joined(
        entry_dir(root),
        encode_utf8(
            "."@ + entry_name(uri) + ".tmp-"@ + decimal(pid as nat) + "-"@ + decimal(nanos as nat),
        ),
    )
}

/// The end with or without a thumbnail.
pub open spec fn thumb_end<T>(s: ThumbState<T>, image: Option<ThumbView>) -> (
    ThumbState<T>,
    ThumbActionView,
) {
    (
        ThumbState { stage: ThumbStage::Over, ..s },
        ThumbAction::Finish { image, warning: None },
    )
}

/// The end with a thumbnail that could not be stored.
pub open spec fn thumb_warn<T>(s: ThumbState<T>, image: ThumbView, message: Seq<char>) -> (
    ThumbState<T>,
    ThumbActionView,
) {
    (
        ThumbState { stage: ThumbStage::Over, ..s },
        ThumbAction::Finish {
            image: Some(image),
            warning: Some(
                "saola-files: could not cache a thumbnail for "@ + location_text(s.location)
                    + ": "@ + message,
            ),
        },
    )
}

/// Makes a new thumbnail, if there is a thumbnailer.
pub open spec fn thumb_make<T>(s: ThumbState<T>) -> (ThumbState<T>, ThumbActionView) {
    if s.maker is Some {
        (
            ThumbState { stage: ThumbStage::Source, ..s },
            ThumbAction::ReadBytes { path: s.location.path },
        )
    } else {
        thumb_end(s, None)
    }
}

/// The thumbnail of a file with the bytes that were read, if there is one.
pub open spec fn thumb_made<T: Thumbnailer>(s: ThumbState<T>, bytes: Option<Seq<u8>>) -> Option<
    ThumbView,
> {
    match (s.maker, bytes) {
        (Some(maker), Some(b)) => match maker.thumbnail(b, shown_name(s.location.path), 128) {
            Ok(t) => Some(t),
            Err(_) => None,
        },
        _ => None,
    }
}

/// Removes the temporary file after a failure.
pub open spec fn thumb_clean<T>(
    s: ThumbState<T>,
    image: ThumbView,
    tmp: Seq<u8>,
    message: Seq<char>,
) -> (
    ThumbState<T>,
    ThumbActionView,
) {
    (
        ThumbState { stage: ThumbStage::Clean { image, message }, ..s },
        ThumbAction::RemoveFile { path: tmp },
    )
}

/// One step of the making of a thumbnail: what the cache has is used if it
/// was made from the file as it is; else a thumbnail is made, and stored so
/// that nobody ever sees half of it. A failure to store it costs nothing but
/// a warning.
pub open spec fn thumb_step<T: Thumbnailer>(s: ThumbState<T>, reply: ThumbReplyView) -> (
    ThumbState<T>,
    ThumbActionView,
) {
    let uri = uri_for(s.location.path);
    let mtime = time_key(s.modified);
    match (s.stage, reply) {
        (ThumbStage::Ready, ThumbReply::Start) => if s.location.scheme != file_scheme() {
            thumb_end(s, None)
        } else {
            match s.root {
                Some(root) => (
                    ThumbState { stage: ThumbStage::Cached, ..s },
                    ThumbAction::ReadBytes { path: entry_path(root, uri) },
                ),
                None => thumb_make(s),
            }
        },
        (ThumbStage::Cached, ThumbReply::Bytes(bytes)) => match (bytes, s.root) {
            (Some(b), Some(_)) if origin_of(png_texts(b)) == Some((uri, mtime)) =>
                match entry_picture(b) {
                    Ok(t) => thumb_end(s, Some(t)),
                    Err(_) => thumb_make(s),
                },
            _ => thumb_make(s),
        },
        (ThumbStage::Source, ThumbReply::Bytes(bytes)) => match (thumb_made(s, bytes), s.root) {
            (Some(t), Some(root)) => (
                ThumbState { stage: ThumbStage::Dir { image: t }, ..s },
                ThumbAction::CreateDirAll { path: entry_dir(root) },
            ),
            (image, _) => thumb_end(s, image),
        },
        (ThumbStage::Dir { image }, ThumbReply::Done) => (
            ThumbState { stage: ThumbStage::Stamp { image }, ..s },
            ThumbAction::Stamp,
        ),
        (ThumbStage::Dir { image }, ThumbReply::Failed(m)) => thumb_warn(s, image, m),
        (ThumbStage::Stamp { image }, ThumbReply::Stamp { pid, nanos }) => match s.root {
            Some(root) => {
                let tmp = temporary_path(root, uri, pid, nanos);
                match entry_file(uri, mtime, image) {
                    Ok(contents) => (
                        ThumbState { stage: ThumbStage::Write { image, tmp }, ..s },
                        ThumbAction::WriteFile { path: tmp, contents },
                    ),
                    Err(m) => thumb_warn(s, image, m),
                }
            },
            None => thumb_end(s, Some(image)),
        },
        (ThumbStage::Write { image, tmp }, ThumbReply::Done) => (
            ThumbState { stage: ThumbStage::Protect { image, tmp }, ..s },
            ThumbAction::Protect { path: tmp },
        ),
        (ThumbStage::Write { image, tmp }, ThumbReply::Failed(m)) => thumb_clean(s, image, tmp, m),
        (ThumbStage::Protect { image, tmp }, ThumbReply::Done) => match s.root {
            Some(root) => (
                ThumbState { stage: ThumbStage::Rename { image }, ..s },
                ThumbAction::Rename { from: tmp, to: entry_path(root, uri) },
            ),
            None => thumb_end(s, Some(image)),
        },
        (ThumbStage::Protect { image, tmp }, ThumbReply::Failed(m)) => thumb_clean(
            s,
            image,
            tmp,
            m,
        ),
        (ThumbStage::Rename { image }, ThumbReply::Done) => thumb_end(s, Some(image)),
        (ThumbStage::Rename { image }, ThumbReply::Failed(m)) => thumb_warn(s, image, m),
        (ThumbStage::Clean { image, message }, ThumbReply::Done) => thumb_warn(s, image, message),
        (ThumbStage::Clean { image, message }, ThumbReply::Failed(_)) => thumb_warn(
            s,
            image,
            message,
        ),
        _ => (ThumbState { stage: ThumbStage::Over, ..s }, ThumbAction::Halt),
    }
}

/// Whether a cache entry is one for the file of a job, as it is, with some
/// pixels.
pub open spec fn is_entry_for<T>(s: ThumbState<T>, contents: Seq<u8>, image: ThumbView) -> bool {
    &&& origin_of(png_texts(contents)) == Some((uri_for(s.location.path), time_key(s.modified)))
    &&& entry_picture(contents) == MadeView::Ok(image)
}

/// Whether the thumbnail that a stage holds has all its pixels, and no more
/// than the size allows.
pub open spec fn holds_picture(stage: ThumbStageView) -> bool {
    match stage {
        ThumbStage::Dir { image } | ThumbStage::Stamp { image } => is_picture(image) && image.width
            <= 128 && image.height <= 128,
        _ => true,
    }
}

/// The making of a thumbnail.
#[derive(Debug)]
pub struct ThumbJob<'a, T> {
    root: Option<FsPath>,
    location: Location,
    modified: Timestamp,
    maker: Option<&'a T>,
    stage: ThumbStage,
}

impl<'a, T> View for ThumbJob<'a, T> {
    type V = ThumbState<T>;

    closed spec fn view(&self) -> ThumbState<T> {
        ThumbState {
            root: opt_path(self.root),
            location: self.location@,
            modified: self.modified,
            maker: match self.maker {
                Some(maker) => Some(*maker),
                None => None,
            },
            stage: self.stage@,
        }
    }
}

/// The making of the thumbnail that is wanted.
pub fn generate_blocking<'a, T: Thumbnailer>(
    registry: &'a Registry<T>,
    cache_root: Option<FsPath>,
    request: &ThumbRequest,
) -> (r: ThumbJob<'a, T>)
    ensures
        r@ == (ThumbState {
            root: opt_path(cache_root),
            location: request.location@,
            modified: request.modified,
            maker: claimant(registry.thumbnailers@, request.mimetype@),
            stage: ThumbStage::Ready,
        }),
{
    ThumbJob {
        root: cache_root,
        location: request.location.clone(),
        modified: request.modified,
        maker: registry.find(request.mimetype.as_str()),
        stage: ThumbStage::Ready,
    }
}

impl<'a, T: Thumbnailer> ThumbJob<'a, T> {
    fn uri(&self) -> (r: String)
        ensures
            r@ == uri_for(self@.location.path),
    {
        canonical_uri(&self.location.path)
    }

    fn end(&mut self, image: Option<ThumbHandle>) -> (r: ThumbAction)
        ensures
            (final(self)@, r@) == thumb_end(old(self)@, opt_thumb(image)),
    {
        self.stage = ThumbStage::Over;
        ThumbAction::Finish { image, warning: None }
    }

    fn warn(&mut self, image: ThumbHandle, message: &str) -> (r: ThumbAction)
        ensures
            (final(self)@, r@) == thumb_warn(old(self)@, image@, message@),
    {
        self.stage = ThumbStage::Over;
        let text = copy_of("saola-files: could not cache a thumbnail for ").concat(
            self.location.to_string().as_str(),
        ).concat(": ").concat(message);
        ThumbAction::Finish { image: Some(image), warning: Some(text) }
    }

    fn make(&mut self) -> (r: ThumbAction)
        ensures
            (final(self)@, r@) == thumb_make(old(self)@),
    {
        if self.maker.is_some() {
            self.stage = ThumbStage::Source;
            ThumbAction::ReadBytes { path: self.location.path.clone() }
        } else {
            self.end(None)
        }
    }

    fn clean(&mut self, image: ThumbHandle, tmp: FsPath, message: String) -> (r: ThumbAction)
        ensures
            (final(self)@, r@) == thumb_clean(old(self)@, image@, tmp@, message@),
    {
        self.stage = ThumbStage::Clean { image, message };
        ThumbAction::RemoveFile { path: tmp }
    }

    fn begin(&mut self) -> (r: ThumbAction)
        requires
            old(self)@.stage is Ready,
        ensures
            (final(self)@, r@) == thumb_step(old(self)@, ThumbReply::Start),
    {
        if !self.location.is_local() {
            return self.end(None);
        }
        let path = match &self.root {
            Some(root) => Some(cache_path(root, self.uri().as_str(), ThumbSize::Normal)),
            None => None,
        };
        match path {
            Some(path) => {
                self.stage = ThumbStage::Cached;
                ThumbAction::ReadBytes { path }
            },
            None => self.make(),
        }
    }

    fn cached_image(&self, bytes: &[u8]) -> (r: Option<ThumbHandle>)
        ensures
            opt_thumb(r) == (if origin_of(png_texts(bytes@)) == Some(
                (uri_for(self@.location.path), time_key(self@.modified)),
            ) {
                match entry_picture(bytes@) {
                    Ok(t) => Some(t),
                    Err(_) => None,
                }
            } else {
                None
            }),
    {
        let uri = self.uri();
        let mtime = mtime_to_string(self.modified);
        match read_cache_metadata(bytes) {
            Some((found_uri, found_mtime)) => {
                if same_text(found_uri.as_str(), uri.as_str()) && same_text(
                    found_mtime.as_str(),
                    mtime.as_str(),
                ) {
                    match read_picture(bytes, "thumbnail.png") {
                        Ok(t) => Some(t),
                        Err(_) => None,
                    }
                } else {
                    None
                }
            },
            None => None,
        }
    }

    fn with_entry(&mut self, bytes: Option<Vec<u8>>) -> (r: ThumbAction)
        requires
            old(self)@.stage is Cached,
        ensures
            (final(self)@, r@) == thumb_step(old(self)@, ThumbReply::Bytes(opt_vec(bytes))),
    {
        let image = match (&bytes, &self.root) {
            (Some(b), Some(_)) => self.cached_image(b.as_slice()),
            _ => None,
        };
        match image {
            Some(t) => self.end(Some(t)),
            None => self.make(),
        }
    }

    fn with_source(&mut self, bytes: Option<Vec<u8>>) -> (r: ThumbAction)
        requires
            old(self)@.stage is Source,
        ensures
            (final(self)@, r@) == thumb_step(old(self)@, ThumbReply::Bytes(opt_vec(bytes))),
            holds_picture(final(self)@.stage),
    {
        let name = match self.location.path.file_name() {
            Some(n) => lossy(n.as_slice()),
            None => String::new(),
        };
        assert(name@ =~= shown_name(self.location.path@));
        let image = match (self.maker, &bytes) {
            (Some(maker), Some(b)) => match maker.generate(
                b.as_slice(),
                name.as_str(),
                ThumbSize::Normal.max_pixels(),
            ) {
                Ok(t) => Some(t),
                Err(_) => None,
            },
            _ => None,
        };
        assert(opt_thumb(image) == thumb_made(self@, opt_vec(bytes)));
        let dir = match &self.root {
            Some(root) => Some(root.join_bytes(bytes_of("normal").as_slice())),
            None => None,
        };
        match (image, dir) {
            (Some(t), Some(path)) => {
                self.stage = ThumbStage::Dir { image: t };
                ThumbAction::CreateDirAll { path }
            },
            (image, _) => self.end(image),
        }
    }

    fn with_stamp(&mut self, image: ThumbHandle, pid: u64, nanos: u64) -> (r: ThumbAction)
        requires
            old(self)@.stage == (ThumbStage::<ThumbView, Seq<u8>, Seq<char>>::Stamp {
                image: image@,
            }),
            holds_picture(old(self)@.stage),
        ensures
            (final(self)@, r@) == thumb_step(old(self)@, ThumbReply::Stamp { pid, nanos }),
            old(self)@.root is Some && image.width > 0 && image.height > 0 ==> r@ is WriteFile,
            r@ matches ThumbAction::WriteFile { contents, .. } ==> (uri_for(
                old(self)@.location.path,
            ).len() <= 0x10_0000 ==> is_entry_for(old(self)@, contents, image@)),
    {
        let uri = self.uri();
        let mtime = mtime_to_string(self.modified);
        proof {
            uri_is_latin1(self@.location.path);
            time_key_is_latin1(self@.modified);
        }
        let tmp = match &self.root {
            Some(root) => {
                let name = copy_of(".").concat(
                    hex_digest(bytes_of(uri.as_str()).as_slice()).concat(".png").as_str(),
                ).concat(".tmp-").concat(decimal_of(pid).as_str()).concat("-").concat(
                    decimal_of(nanos).as_str(),
                );
                let dir = root.join_bytes(bytes_of("normal").as_slice());
                Some(dir.join_bytes(bytes_of(name.as_str()).as_slice()))
            },
            None => None,
        };
        match tmp {
            Some(tmp) => match write_png_with_metadata(uri.as_str(), mtime.as_str(), &image) {
                Ok(contents) => {
                    let path = tmp.clone();
                    self.stage = ThumbStage::Write { image, tmp };
                    ThumbAction::WriteFile { path, contents }
                },
                Err(m) => self.warn(image, m.as_str()),
            },
            None => self.end(Some(image)),
        }
    }

    fn put_in_place(&mut self, image: ThumbHandle, tmp: FsPath) -> (r: ThumbAction)
        requires
            old(self)@.stage == (ThumbStage::<ThumbView, Seq<u8>, Seq<char>>::Protect {
                image: image@,
                tmp: tmp@,
            }),
        ensures
            (final(self)@, r@) == thumb_step(old(self)@, ThumbReply::Done),
    {
        let to = match &self.root {
            Some(root) => Some(cache_path(root, self.uri().as_str(), ThumbSize::Normal)),
            None => None,
        };
        match to {
            Some(to) => {
                self.stage = ThumbStage::Rename { image };
                ThumbAction::Rename { from: tmp, to }
            },
            None => self.end(Some(image)),
        }
    }

    /// One step: the outcome of the last action gives the next one. An entry
    /// that is written is one that will be used: it carries the URI and the
    /// time that it will be compared with, and the pixels of the thumbnail.
    pub fn step(&mut self, reply: ThumbReply) -> (r: ThumbAction)
        requires
            holds_picture(old(self)@.stage),
        ensures
            (final(self)@, r@) == thumb_step(old(self)@, reply@),
            holds_picture(final(self)@.stage),
            old(self)@.stage matches ThumbStage::Stamp { image } ==> (reply@ is Stamp && old(
                self,
            )@.root is Some && image.width > 0 && image.height > 0 ==> r@ is WriteFile),
            old(self)@.stage matches ThumbStage::Stamp { image } ==> (
            r@ matches ThumbAction::WriteFile { contents, .. } ==> (uri_for(
                old(self)@.location.path,
            ).len() <= 0x10_0000 ==> is_entry_for(old(self)@, contents, image))),
    {
        let mut stage = ThumbStage::Over;
        core::mem::swap(&mut stage, &mut self.stage);
        match (stage, reply) {
            (ThumbStage::Ready, ThumbReply::Start) => {
                self.stage = ThumbStage::Ready;
                self.begin()
            },
            (ThumbStage::Cached, ThumbReply::Bytes(bytes)) => {
                self.stage = ThumbStage::Cached;
                self.with_entry(bytes)
            },
            (ThumbStage::Source, ThumbReply::Bytes(bytes)) => {
                self.stage = ThumbStage::Source;
                self.with_source(bytes)
            },
            (ThumbStage::Dir { image }, ThumbReply::Done) => {
                self.stage = ThumbStage::Stamp { image };
                ThumbAction::Stamp
            },
            (ThumbStage::Dir { image }, ThumbReply::Failed(m)) => self.warn(image, m.as_str()),
            (ThumbStage::Stamp { image }, ThumbReply::Stamp { pid, nanos }) => {
                let copy = image.clone();
                self.stage = ThumbStage::Stamp { image };
                self.with_stamp(copy, pid, nanos)
            },
            (ThumbStage::Write { image, tmp }, ThumbReply::Done) => {
                let path = tmp.clone();
                self.stage = ThumbStage::Protect { image, tmp };
                ThumbAction::Protect { path }
            },
            (ThumbStage::Write { image, tmp }, ThumbReply::Failed(m)) => self.clean(image, tmp, m),
            (ThumbStage::Protect { image, tmp }, ThumbReply::Done) => {
                let copy = image.clone();
                let path = tmp.clone();
                self.stage = ThumbStage::Protect { image, tmp };
                self.put_in_place(copy, path)
            },
            (ThumbStage::Protect { image, tmp }, ThumbReply::Failed(m)) => self.clean(
                image,
                tmp,
                m,
            ),
            (ThumbStage::Rename { image }, ThumbReply::Done) => self.end(Some(image)),
            (ThumbStage::Rename { image }, ThumbReply::Failed(m)) => self.warn(image, m.as_str()),
            (ThumbStage::Clean { image, message }, ThumbReply::Done) => self.warn(
                image,
                message.as_str(),
            ),
            (ThumbStage::Clean { image, message }, ThumbReply::Failed(_)) => self.warn(
                image,
                message.as_str(),
            ),
            _ => {
                self.stage = ThumbStage::Over;
                ThumbAction::Halt
            },
        }
    }
}

proof fn uri_is_latin1(path: Seq<u8>)
    ensures
        is_latin1(uri_for(path)),
{
    reveal_strlit("file://");
    escaped_is_ascii(path);
    let s = uri_for(path);
    assert forall|i: int| 0 <= i < s.len() implies (#[trigger] s[i]) as u32 <= 0xFF by {
        if i >= "file://"@.len() {
            assert(s[i] == escaped(path)[i - "file://"@.len()]);
        }
    }
}

proof fn decimal_is_short(n: nat, width: nat)
    requires
        n < pow10(width),
        width > 0,
    ensures
        is_latin1(decimal(n)),
        decimal(n).len() <= width,
    decreases n,
{
    if n >= 10 {
        reveal_with_fuel(pow10, 2);
        assert(width > 1);
        decimal_is_short(n / 10, (width - 1) as nat);
    }
}

spec fn pow10(n: nat) -> nat
    decreases n,
{
    if n == 0 {
        1
    } else {
        10 * pow10((n - 1) as nat)
    }
}

proof fn time_key_is_latin1(modified: Timestamp)
    ensures
        is_latin1(time_key(modified)),
        time_key(modified).len() <= 20,
{
    reveal_with_fuel(pow10, 21);
    assert(pow10(20) == 100_000_000_000_000_000_000);
    decimal_is_short(
        if modified.secs < 0 {
            0
        } else {
            modified.secs as nat
        },
        20,
    );
}

// ---------------------------------------------------------------------------
// Decoded thumbnails in memory
// ---------------------------------------------------------------------------

/// A thumbnail that is kept decoded.
#[derive(Debug)]
pub struct Kept<H, L = Location> {
    pub location: L,
    /// The time of the file that it was made from.
    pub modified: Timestamp,
    pub handle: H,
}

/// The views of a list of kept thumbnails.
pub open spec fn kept_views<H>(v: Seq<Kept<H>>) -> Seq<Kept<H, LocationView>> {
    Seq::new(
        v.len(),
        |i: int| Kept { location: v[i].location@, modified: v[i].modified, handle: v[i].handle },
    )
}

/// The index of the entry for a location, or the length if there is none.
pub open spec fn kept_at<H>(list: Seq<Kept<H, LocationView>>, location: LocationView) -> int
    decreases list.len(),
{
    if list.len() == 0 || same_location(list[0].location, location) {
        0
    } else {
        1 + kept_at(list.skip(1), location)
    }
}

/// The list with the entry at `i` moved to the end.
pub open spec fn touched<H>(list: Seq<Kept<H, LocationView>>, i: int) -> Seq<Kept<H, LocationView>> {
    list.remove(i).push(list[i])
}

/// The decoded thumbnails that were used last; a bounded number of them.
#[derive(Debug)]
pub struct ThumbCache<H = ThumbHandle> {
    capacity: usize,
    /// The one that has not been used for the longest time first.
    entries: Vec<Kept<H>>,
}

impl<H> View for ThumbCache<H> {
    type V = Seq<Kept<H, LocationView>>;

    closed spec fn view(&self) -> Seq<Kept<H, LocationView>> {
        kept_views(self.entries@)
    }
}

/// What inserting a thumbnail makes of a list that holds at most `capacity`.
/// An entry for the location is replaced; otherwise the entry that has not
/// been used for the longest time makes room.
pub open spec fn with_kept<H>(
    list: Seq<Kept<H, LocationView>>,
    capacity: nat,
    entry: Kept<H, LocationView>,
) -> Seq<Kept<H, LocationView>> {
    let i = kept_at(list, entry.location);
    if i < list.len() {
        list.remove(i).push(Kept { location: list[i].location, ..entry })
    } else if list.len() >= capacity {
        list.skip(1).push(entry)
    } else {
        list.push(entry)
    }
}

impl<H> ThumbCache<H> {
    /// How many thumbnails are kept at most.
    pub closed spec fn limit(&self) -> nat {
        self.capacity as nat
    }

    /// There is room for one, there are no more than the limit, and no
    /// location is kept twice.
    #[verifier::type_invariant]
    spec fn is_ok(self) -> bool {
        &&& 0 < self.capacity
        &&& self.entries@.len() <= self.capacity
        &&& is_distinct(kept_views(self.entries@))
    }

    /// A cache for at most `capacity` thumbnails, and at least one.
    pub fn new(capacity: usize) -> (r: Self)
        ensures
            r@ == Seq::<Kept<H, LocationView>>::empty(),
            r.limit() == if capacity == 0 {
                1
            } else {
                capacity as nat
            },
    {
        let r = ThumbCache {
            capacity: if capacity == 0 {
                1
            } else {
                capacity
            },
            entries: Vec::new(),
        };
        assert(r@ =~= Seq::empty());
        r
    }

    fn position(&self, location: &Location) -> (r: usize)
        ensures
            r == kept_at(self@, location@),
            r <= self.entries@.len(),
    {
        let ghost all = self@;
        assert(all.skip(0) =~= all);
        for i in 0..self.entries.len()
            invariant
                all == self@,
                kept_at(all, location@) == i + kept_at(all.skip(i as int), location@),
        {
            assert(all.skip(i as int)[0].location == self.entries@[i as int].location@);
            if self.entries[i].location == *location {
                return i;
            }
            assert(all.skip(i as int).skip(1) =~= all.skip(i + 1));
        }
        assert(all.skip(all.len() as int).len() == 0);
        self.entries.len()
    }

    /// The thumbnail of a location, if it was made from the file as it was at
    /// `modified`. It then counts as just used.
    pub fn get_for(&mut self, location: &Location, modified: Timestamp) -> (r: Option<&H>)
        ensures
            final(self).limit() == old(self).limit(),
            is_distinct(final(self)@),
            final(self)@.len() <= final(self).limit(),
            ({
                let i = kept_at(old(self)@, location@);
                if i < old(self)@.len() && old(self)@[i].modified == modified {
                    &&& r == Some(&old(self)@[i].handle)
                    &&& final(self)@ == touched(old(self)@, i)
                } else {
                    r is None && final(self)@ == old(self)@
                }
            }),
    {
        proof {
            use_type_invariant(&*self);
        }
        let ghost before = self@;
        let i = self.position(location);
        if i >= self.entries.len() || self.entries[i].modified != modified {
            return None;
        }
        let mut entries: Vec<Kept<H>> = Vec::new();
        core::mem::swap(&mut entries, &mut self.entries);
        let entry = entries.remove(i);
        entries.push(entry);
        proof {
            assert(kept_views(entries@) =~= touched(before, i as int));
            touching_keeps_distinct(before, i as int);
        }
        self.entries = entries;
        let n = self.entries.len();
        Some(&self.entries[n - 1].handle)
    }

    /// Keeps the thumbnail of a location.
    pub fn insert(&mut self, location: Location, modified: Timestamp, handle: H)
        ensures
            final(self).limit() == old(self).limit(),
            is_distinct(final(self)@),
            final(self)@.len() <= final(self).limit(),
            final(self)@ == with_kept(
                old(self)@,
                old(self).limit(),
                Kept { location: location@, modified, handle },
            ),
    {
        proof {
            use_type_invariant(&*self);
        }
        let ghost before = self@;
        let ghost entry = Kept { location: location@, modified, handle };
        let ghost wanted = with_kept(before, self.limit(), entry);
        let i = self.position(&location);
        let mut entries: Vec<Kept<H>> = Vec::new();
        core::mem::swap(&mut entries, &mut self.entries);
        if i < entries.len() {
            let old_entry = entries.remove(i);
            entries.push(Kept { location: old_entry.location, modified, handle });
        } else {
            if entries.len() >= self.capacity {
                let _ = entries.remove(0);
            }
            entries.push(Kept { location, modified, handle });
        }
        proof {
            assert(kept_views(entries@) =~= wanted);
            insert_then_get(before, self.limit(), entry);
        }
        self.entries = entries;
    }

    /// How many thumbnails are kept.
    pub fn len(&self) -> (r: usize)
        ensures
            r == self@.len(),
    {
        self.entries.len()
    }

    /// Whether no thumbnail is kept.
    pub fn is_empty(&self) -> (r: bool)
        ensures
            r == (self@.len() == 0),
    {
        self.entries.len() == 0
    }
}

// ---------------------------------------------------------------------------
// Laws
// ---------------------------------------------------------------------------

/// A cache entry is used only if it carries the URI of the file and its time,
/// and then its own pixels are handed out.
pub proof fn stale_entries_are_not_used<T: Thumbnailer>(s: ThumbState<T>, reply: ThumbReplyView)
    requires
        s.stage is Cached,
    ensures
        thumb_step(s, reply).1 matches ThumbAction::Finish { image, .. } ==> (
        image matches Some(t) ==> (reply matches ThumbReply::Bytes(Some(b)) && is_entry_for(
            s,
            b,
            t,
        ))),
{
}

/// An entry is used again for the file and the time that it was written for:
/// what was written for a thumbnail, read back by a later job for the same
/// file at the same time, gives that thumbnail without looking at the file.
pub proof fn written_entries_are_used<T: Thumbnailer>(
    s: ThumbState<T>,
    contents: Seq<u8>,
    image: ThumbView,
)
    requires
        s.stage is Cached,
        s.root is Some,
        is_entry_for(s, contents, image),
    ensures
        thumb_step(s, ThumbReply::Bytes(Some(contents))) == thumb_end(s, Some(image)),
{
}

/// What the thumbnailer makes of the bytes of a file is what a job without a
/// cache hands out, and what one with a cache goes on to store.
pub proof fn made_thumbnails_are_used<T: Thumbnailer>(
    s: ThumbState<T>,
    maker: T,
    bytes: Seq<u8>,
    image: ThumbView,
)
    requires
        s.stage is Source,
        s.maker == Some(maker),
        maker.thumbnail(bytes, shown_name(s.location.path), 128) == MadeView::Ok(image),
    ensures
        ({
            let (t, action) = thumb_step(s, ThumbReply::Bytes(Some(bytes)));
            if s.root is Some {
                t.stage == (ThumbStageView::Dir { image })
            } else {
                (t, action) == thumb_end(s, Some(image))
            }
        }),
{
}

/// A cache entry only ever comes into being by renaming a temporary file that
/// was written in full and protected; a failure before that removes the
/// temporary file.
pub proof fn entries_appear_at_once<T: Thumbnailer>(s: ThumbState<T>, reply: ThumbReplyView)
    ensures
        thumb_step(s, reply).1 matches ThumbAction::Rename { from, to } ==> {
            &&& s.stage is Protect
            &&& reply is Done
            &&& from == s.stage->Protect_tmp
            &&& s.root is Some
            &&& to == entry_path(s.root->0, uri_for(s.location.path))
        },
        thumb_step(s, reply).0.stage is Protect ==> s.stage is Write && reply is Done,
        (s.stage is Write || s.stage is Protect) && reply is Failed ==> thumb_step(s, reply).1 == (
        ThumbActionView::RemoveFile {
            path: if s.stage is Write {
                s.stage->Write_tmp
            } else {
                s.stage->Protect_tmp
            },
        }),
{
}

/// Storing a thumbnail never costs it: once it has been made, the job ends by
/// handing it out, whatever fails.
pub proof fn made_thumbnails_are_handed_out<T: Thumbnailer>(s: ThumbState<T>, reply: ThumbReplyView)
    ensures
        match s.stage {
            ThumbStage::Dir { image }
            | ThumbStage::Stamp { image }
            | ThumbStage::Rename { image } =>
                thumb_step(s, reply).1 matches ThumbAction::Finish { image: out, .. } ==> out
                    == Some(image),
            ThumbStage::Write { image, .. } | ThumbStage::Protect { image, .. } =>
                thumb_step(s, reply).1 matches ThumbAction::Finish { image: out, .. } ==> out
                    == Some(image),
            ThumbStage::Clean { image, .. } =>
                thumb_step(s, reply).1 matches ThumbAction::Finish { image: out, .. } ==> out
                    == Some(image),
            _ => true,
        },
{
}

/// A file on a server has no thumbnail, and neither has one of a type that no
/// thumbnailer claims, unless the cache has it.
pub proof fn only_local_files_of_known_types<T: Thumbnailer>(s: ThumbState<T>, reply: ThumbReplyView)
    ensures
        s.stage is Ready && reply is Start && s.location.scheme != file_scheme() ==> thumb_step(
            s,
            reply,
        ).1 == (ThumbActionView::Finish { image: None, warning: None }),
        thumb_step(s, reply).0.stage is Source ==> s.maker is Some,
{
}

/// Of two thumbnailers that claim a type, the one registered first is used,
/// and registering another never changes a choice that was made.
pub proof fn first_registered_wins<T: Thumbnailer>(list: Seq<T>, more: T, mimetype: Seq<char>)
    ensures
        claimant(list, mimetype) is Some ==> claimant(list.push(more), mimetype) == claimant(
            list,
            mimetype,
        ),
        claimant(list, mimetype) is None ==> claimant(list.push(more), mimetype) == (
        if more.claims(mimetype) {
            Some(more)
        } else {
            None
        }),
    decreases list.len(),
{
    let longer = list.push(more);
    if list.len() == 0 {
        assert(longer[0] == more);
        assert(longer.skip(1) =~= Seq::empty());
        assert(claimant(Seq::<T>::empty(), mimetype) is None);
    } else {
        assert(longer[0] == list[0]);
        assert(longer.skip(1) =~= list.skip(1).push(more));
        first_registered_wins(list.skip(1), more, mimetype);
    }
}

/// Whether no two entries are for one location.
pub open spec fn is_distinct<H>(list: Seq<Kept<H, LocationView>>) -> bool {
    forall|i: int, j: int|
        0 <= i < j < list.len() ==> !same_location(
            (#[trigger] list[i]).location,
            (#[trigger] list[j]).location,
        )
}

proof fn kept_at_props<H>(list: Seq<Kept<H, LocationView>>, location: LocationView)
    ensures
        0 <= kept_at(list, location) <= list.len(),
        kept_at(list, location) < list.len() ==> same_location(
            list[kept_at(list, location)].location,
            location,
        ),
        forall|j: int|
            0 <= j < kept_at(list, location) ==> !same_location(
                (#[trigger] list[j]).location,
                location,
            ),
    decreases list.len(),
{
    if list.len() > 0 && !same_location(list[0].location, location) {
        kept_at_props(list.skip(1), location);
        assert forall|j: int| 0 <= j < kept_at(list, location) implies !same_location(
            (#[trigger] list[j]).location,
            location,
        ) by {
            if j > 0 {
                assert(list.skip(1)[j - 1] == list[j]);
            }
        }
    }
}

proof fn kept_at_is<H>(list: Seq<Kept<H, LocationView>>, location: LocationView, i: int)
    requires
        0 <= i < list.len(),
        same_location(list[i].location, location),
        is_distinct(list),
    ensures
        kept_at(list, location) == i,
{
    kept_at_props(list, location);
    let k = kept_at(list, location);
    if k < i {
        assert(same_location(list[k].location, list[i].location));
    }
}

proof fn touching_keeps_distinct<H>(list: Seq<Kept<H, LocationView>>, used: int)
    requires
        is_distinct(list),
        0 <= used < list.len(),
    ensures
        is_distinct(touched(list, used)),
{
    let after = touched(list, used);
    assert forall|i: int, j: int| 0 <= i < j < after.len() implies !same_location(
        (#[trigger] after[i]).location,
        (#[trigger] after[j]).location,
    ) by {
        let a = if i < used {
            i
        } else {
            i + 1
        };
        let b = if j == after.len() - 1 {
            used
        } else if j < used {
            j
        } else {
            j + 1
        };
        assert(after[i] == list[a] && after[j] == list[b]);
        if a < b {
            assert(!same_location(list[a].location, list[b].location));
        } else {
            assert(!same_location(list[b].location, list[a].location));
        }
    }
}

/// Looking a thumbnail up changes nothing but the order: the others keep
/// theirs, and the one that is found is found again, at the safe end.
pub proof fn get_changes_only_the_order<H>(
    list: Seq<Kept<H, LocationView>>,
    location: LocationView,
)
    requires
        is_distinct(list),
        kept_at(list, location) < list.len(),
    ensures
        ({
            let i = kept_at(list, location);
            let after = touched(list, i);
            &&& is_distinct(after)
            &&& after.len() == list.len()
            &&& after.drop_last() == list.remove(i)
            &&& kept_at(after, location) == after.len() - 1
            &&& after.last() == list[i]
        }),
{
    let i = kept_at(list, location);
    kept_at_props(list, location);
    touching_keeps_distinct(list, i);
    let after = touched(list, i);
    assert(after.drop_last() =~= list.remove(i));
    kept_at_is(after, location, after.len() - 1);
}

/// What was kept last is found: it is the entry for its location, whatever
/// was there before, and no other entry is for that location. No more than
/// the limit is ever kept.
pub proof fn insert_then_get<H>(
    list: Seq<Kept<H, LocationView>>,
    capacity: nat,
    entry: Kept<H, LocationView>,
)
    requires
        is_distinct(list),
        0 < capacity,
        list.len() <= capacity,
    ensures
        ({
            let after = with_kept(list, capacity, entry);
            let i = kept_at(after, entry.location);
            &&& is_distinct(after)
            &&& after.len() <= capacity
            &&& i == after.len() - 1
            &&& after[i].modified == entry.modified
            &&& after[i].handle == entry.handle
            &&& same_location(after[i].location, entry.location)
        }),
{
    kept_at_props(list, entry.location);
    let k = kept_at(list, entry.location);
    let after = with_kept(list, capacity, entry);
    assert forall|i: int, j: int| 0 <= i < j < after.len() implies !same_location(
        (#[trigger] after[i]).location,
        (#[trigger] after[j]).location,
    ) by {
        if k < list.len() {
            let a = if i < k {
                i
            } else {
                i + 1
            };
            assert(after[i] == list[a]);
            if j == after.len() - 1 {
                assert(after[j].location == list[k].location);
                if a < k {
                    assert(!same_location(list[a].location, list[k].location));
                } else {
                    assert(!same_location(list[k].location, list[a].location));
                }
            } else {
                let b = if j < k {
                    j
                } else {
                    j + 1
                };
                assert(after[j] == list[b]);
                assert(!same_location(list[a].location, list[b].location));
            }
        } else {
            let shift: int = if list.len() >= capacity {
                1
            } else {
                0
            };
            assert(after[i] == list[i + shift]);
            if j < after.len() - 1 {
                assert(after[j] == list[j + shift]);
                assert(!same_location(list[i + shift].location, list[j + shift].location));
            } else {
                assert(after[j] == entry);
                assert(!same_location(list[i + shift].location, entry.location));
            }
        }
    }
    kept_at_is(after, entry.location, after.len() - 1);
}

/// The entry that makes room is the one that has not been used for the
/// longest time: all others stay, in their order, and a use moves an entry to
/// the safe end.
pub proof fn least_recently_used_goes_first<H>(
    list: Seq<Kept<H, LocationView>>,
    capacity: nat,
    entry: Kept<H, LocationView>,
    used: int,
)
    requires
        list.len() == capacity,
        0 <= used < list.len(),
        kept_at(touched(list, used), entry.location) >= list.len(),
    ensures
        ({
            let after = with_kept(touched(list, used), capacity, entry);
            &&& capacity > 1 ==> after[after.len() - 2] == list[used]
            &&& after == touched(list, used).skip(1).push(entry)
            &&& used > 0 ==> after.drop_last() == list.skip(1).remove(used - 1).push(list[used])
        }),
{
    let mid = touched(list, used);
    if used > 0 {
        assert(mid.skip(1) =~= list.skip(1).remove(used - 1).push(list[used]));
        assert(with_kept(mid, capacity, entry).drop_last() =~= mid.skip(1));
    }
}

/// Where things are: the entry of a picture in the directory for its size,
/// under the digest of its URI; the cache where its variable says, else below
/// home.
pub proof fn entries_are_named_by_digest(
    root: Seq<u8>,
    path: Seq<u8>,
    set: Seq<u8>,
    home: Seq<u8>,
    pid: u64,
    nanos: u64,
)
    requires
        set.len() > 0,
        home.len() > 0,
    ensures
        ({
            let uri = "file://"@ + escaped(path);
            let name = hex_of(md5_of(encode_utf8(uri))) + ".png"@;
            let dir = joined(root, encode_utf8("normal"@));
            &&& uri_for(path) == uri
            &&& entry_path(root, uri) == joined(dir, encode_utf8(name))
            &&& entry_dir(root) == dir
            &&& temporary_path(root, uri, pid, nanos) == joined(
                dir,
                encode_utf8(
                    "."@ + name + ".tmp-"@ + decimal(pid as nat) + "-"@ + decimal(nanos as nat),
                ),
            )
        }),
        forall|h: Option<Seq<u8>>| #[trigger]
            cache_root(Some(set), h) == Some(joined(set, encode_utf8("thumbnails"@))),
        cache_root(None, Some(home)) == Some(joined(home, encode_utf8(".cache/thumbnails"@))),
        cache_root(Some(Seq::empty()), Some(home)) == cache_root(None, Some(home)),
        cache_root(None, None) is None,
        cache_root(None, Some(Seq::empty())) is None,
{
}

/// An entry is for the URI and the time under its two keywords, the last of
/// each; it needs both.
pub proof fn entries_carry_uri_and_time(
    list: Seq<(Seq<char>, Seq<char>)>,
    key: Seq<char>,
    text: Seq<char>,
    modified: Timestamp,
)
    ensures
        origin_in(list) matches Some((uri, mtime)) ==> {
            &&& text_under(list, "Thumb::URI"@) == Some(uri)
            &&& text_under(list, "Thumb::MTime"@) == Some(mtime)
        },
        origin_in(list) is None ==> text_under(list, "Thumb::URI"@) is None || text_under(
            list,
            "Thumb::MTime"@,
        ) is None,
        text_under(list.push((key, text)), key) == Some(text),
        forall|other: Seq<char>|
            other != key ==> #[trigger] text_under(list.push((key, text)), other) == text_under(
                list,
                other,
            ),
        text_under(Seq::empty(), key) is None,
        modified.secs >= 0 ==> time_key(modified) == decimal(modified.secs as nat),
        modified.secs < 0 ==> time_key(modified) == decimal(0),
{
    assert(list.push((key, text)).drop_last() =~= list);
}

/// The steps of storing a thumbnail: its directory is made, then a temporary
/// file is written, protected and renamed to the entry.
pub proof fn thumbnails_are_stored_step_by_step<T: Thumbnailer>(
    s: ThumbState<T>,
    root: Seq<u8>,
    image: ThumbView,
    tmp: Seq<u8>,
    message: Seq<char>,
    pid: u64,
    nanos: u64,
)
    requires
        s.root == Some(root),
    ensures
        ({
            let at = |stage: ThumbStageView| ThumbState { stage, ..s };
            let uri = "file://"@ + escaped(s.location.path);
            let warned = ThumbActionView::Finish {
                image: Some(image),
                warning: Some(
                    "saola-files: could not cache a thumbnail for "@ + location_text(s.location)
                        + ": "@ + message,
                ),
            };
            &&& thumb_step(at(ThumbStage::Dir { image }), ThumbReply::Done).1
                == ThumbActionView::Stamp
            &&& thumb_step(at(ThumbStage::Dir { image }), ThumbReply::Failed(message)).1 == warned
            &&& thumb_step(at(ThumbStage::Write { image, tmp }), ThumbReply::Done).1 == (
            ThumbActionView::Protect { path: tmp })
            &&& thumb_step(at(ThumbStage::Write { image, tmp }), ThumbReply::Failed(message)).1
                == (ThumbActionView::RemoveFile { path: tmp })
            &&& thumb_step(at(ThumbStage::Protect { image, tmp }), ThumbReply::Done).1 == (
            ThumbActionView::Rename { from: tmp, to: entry_path(root, uri) })
            &&& thumb_step(at(ThumbStage::Protect { image, tmp }), ThumbReply::Failed(message)).1
                == (ThumbActionView::RemoveFile { path: tmp })
            &&& thumb_step(at(ThumbStage::Rename { image }), ThumbReply::Done).1 == (
            ThumbActionView::Finish { image: Some(image), warning: None })
            &&& thumb_step(at(ThumbStage::Rename { image }), ThumbReply::Failed(message)).1
                == warned
            &&& thumb_step(at(ThumbStage::Clean { image, message }), ThumbReply::Done).1 == warned
            &&& png_file(
                image.width,
                image.height,
                image.rgba,
                ("Thumb::URI"@, uri),
                ("Thumb::MTime"@, time_key(s.modified)),
            ) matches Ok(contents) ==> thumb_step(
                at(ThumbStage::Stamp { image }),
                ThumbReply::Stamp { pid, nanos },
            ).1 == (ThumbActionView::WriteFile {
                path: temporary_path(root, uri, pid, nanos),
                contents,
            })
        }),
{
}

/// A job looks into the cache first, if there is one, and makes a thumbnail
/// of the bytes of the file if the cache has none; the longest side has 128
/// pixels at most.
pub proof fn the_cache_is_looked_into_first<T: Thumbnailer>(
    s: ThumbState<T>,
    root: Seq<u8>,
    maker: T,
    bytes: Seq<u8>,
)
    requires
        s.location.scheme == "file"@,
        s.maker == Some(maker),
    ensures
        ({
            let at = |stage: ThumbStageView, root: Option<Seq<u8>>|
                ThumbState { stage, root, ..s };
            let uri = "file://"@ + escaped(s.location.path);
            let read = ThumbActionView::ReadBytes { path: s.location.path };
            &&& thumb_step(at(ThumbStage::Ready, Some(root)), ThumbReply::Start).1 == (
            ThumbActionView::ReadBytes { path: entry_path(root, uri) })
            &&& thumb_step(at(ThumbStage::Ready, None), ThumbReply::Start).1 == read
            &&& thumb_step(at(ThumbStage::Cached, Some(root)), ThumbReply::Bytes(None)).1 == read
            &&& maker.thumbnail(bytes, shown_name(s.location.path), 128) matches Ok(t) ==> {
                &&& thumb_step(
                    at(ThumbStage::Source, Some(root)),
                    ThumbReply::Bytes(Some(bytes)),
                ).1 == (ThumbActionView::CreateDirAll {
                    path: joined(root, encode_utf8("normal"@)),
                })
                &&& thumb_step(at(ThumbStage::Source, None), ThumbReply::Bytes(Some(bytes))).1 == (
                ThumbActionView::Finish { image: Some(t), warning: None })
            }
            &&& maker.thumbnail(bytes, shown_name(s.location.path), 128) is Err ==> thumb_step(
                at(ThumbStage::Source, Some(root)),
                ThumbReply::Bytes(Some(bytes)),
            ).1 == (ThumbActionView::Finish { image: None, warning: None })
        }),
{
    reveal_strlit("file");
    assert("file"@ =~= file_scheme());
}

/// The thumbnailer of pictures claims the types of images, and no others.
pub proof fn pictures_are_claimed(maker: ImageThumbnailer, sub: Seq<char>, mime: Seq<char>)
    ensures
        maker.claims("image/"@ + sub),
        maker.claims(mime) ==> "image/"@.is_prefix_of(mime),
{
    assert(("image/"@ + sub).take("image/"@.len() as int) =~= "image/"@);
}

} // verus!
