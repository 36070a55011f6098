//! Which icon stands for what. Shape tells kinds apart, never colour.
use crate::config::Config;
use crate::model::fs::entry::EntryKind;
use crate::model::mime::Category;
use crate::model::places::{Bookmark, PlaceKind};
use vstd::prelude::*;

verus! {

/// The icons of the shared set that this application uses.
#[derive(Debug, Clone, Copy, PartialEq, Eq, Structural)]
pub enum Icon {
    Link,
    Folder,
    File,
    FileText,
    FileCode,
    FileImage,
    FileAudio,
    FileVideo,
    FileArchive,
    FileCog,
    FileQuestion,
    House,
    Download,
    Image,
    Music,
    Film,
    Bookmark,
    Server,
    Trash2,
    Usb,
    HardDrive,
}

/// The icon of a category of files.
pub open spec fn category_icon(category: Category) -> Icon {
    match category {
        Category::Directory => Icon::Folder,
        Category::Text => Icon::FileText,
        Category::Code => Icon::FileCode,
        Category::Image => Icon::FileImage,
        Category::Audio => Icon::FileAudio,
        Category::Video => Icon::FileVideo,
        Category::Archive => Icon::FileArchive,
        Category::Config => Icon::FileCog,
        Category::Generic => Icon::File,
        Category::Unknown => Icon::FileQuestion,
    }
}

/// The icon of an entry: a link looks like a link whatever it points at, a
/// directory like a folder, and a file like its category.
pub fn for_entry(kind: EntryKind, is_symlink: bool, category: Category) -> (r: Icon)
    ensures
        r == if is_symlink {
            Icon::Link
        } else if kind == EntryKind::Directory {
            Icon::Folder
        } else {
            category_icon(category)
        },
{
    if is_symlink {
        return Icon::Link;
    }
    if kind == EntryKind::Directory {
        return Icon::Folder;
    }
    match category {
        Category::Directory => Icon::Folder,
        Category::Text => Icon::FileText,
        Category::Code => Icon::FileCode,
        Category::Image => Icon::FileImage,
        Category::Audio => Icon::FileAudio,
        Category::Video => Icon::FileVideo,
        Category::Archive => Icon::FileArchive,
        Category::Config => Icon::FileCog,
        Category::Generic => Icon::File,
        Category::Unknown => Icon::FileQuestion,
    }
}

/// The icon of a place.
pub open spec fn place_icon(kind: PlaceKind) -> Icon {
    match kind {
        PlaceKind::Home => Icon::House,
        PlaceKind::Downloads => Icon::Download,
        PlaceKind::Pictures => Icon::Image,
        PlaceKind::Music => Icon::Music,
        PlaceKind::Videos => Icon::Film,
        PlaceKind::Desktop => Icon::Folder,
        PlaceKind::Documents => Icon::Folder,
        PlaceKind::Bookmark => Icon::Bookmark,
        PlaceKind::Server => Icon::Server,
        PlaceKind::Trash => Icon::Trash2,
    }
}

/// The icon of a place.
pub fn for_place(kind: PlaceKind) -> (r: Icon)
    ensures
        r == place_icon(kind),
{
    match kind {
        PlaceKind::Home => Icon::House,
        PlaceKind::Downloads => Icon::Download,
        PlaceKind::Pictures => Icon::Image,
        PlaceKind::Music => Icon::Music,
        PlaceKind::Videos => Icon::Film,
        PlaceKind::Desktop | PlaceKind::Documents => Icon::Folder,
        PlaceKind::Bookmark => Icon::Bookmark,
        PlaceKind::Server => Icon::Server,
        PlaceKind::Trash => Icon::Trash2,
    }
}

/// The icon of a mounted volume.
pub fn for_mount(removable: bool) -> (r: Icon)
    ensures
        r == if removable {
            Icon::Usb
        } else {
            Icon::HardDrive
        },
{
    if removable {
        Icon::Usb
    } else {
        Icon::HardDrive
    }
}

// ---------------------------------------------------------------------------
// Laws
// ---------------------------------------------------------------------------

/// No two categories of files look alike, and no two places do but the two
/// that are plain folders.
pub proof fn icons_tell_kinds_apart(a: Category, b: Category, x: PlaceKind, y: PlaceKind)
    ensures
        a != b ==> category_icon(a) != category_icon(b),
        x != y && place_icon(x) == place_icon(y) ==> place_icon(x) == Icon::Folder,
{
}

/// Which icon a category has.
pub proof fn categories_have_their_icons(c: Category)
    ensures
        ({
            let icon = category_icon(c);
            &&& icon == Icon::Folder <==> c is Directory
            &&& icon == Icon::FileText <==> c is Text
            &&& icon == Icon::FileCode <==> c is Code
            &&& icon == Icon::FileImage <==> c is Image
            &&& icon == Icon::FileAudio <==> c is Audio
            &&& icon == Icon::FileVideo <==> c is Video
            &&& icon == Icon::FileArchive <==> c is Archive
            &&& icon == Icon::FileCog <==> c is Config
            &&& icon == Icon::File <==> c is Generic
            &&& icon == Icon::FileQuestion <==> c is Unknown
        }),
{
}

/// Which icon a place has.
pub proof fn places_have_their_icons(kind: PlaceKind)
    ensures
        ({
            let icon = place_icon(kind);
            &&& icon == Icon::House <==> kind is Home
            &&& icon == Icon::Download <==> kind is Downloads
            &&& icon == Icon::Image <==> kind is Pictures
            &&& icon == Icon::Music <==> kind is Music
            &&& icon == Icon::Film <==> kind is Videos
            &&& icon == Icon::Folder <==> kind is Desktop || kind is Documents
            &&& icon == Icon::Bookmark <==> kind is Bookmark
            &&& icon == Icon::Server <==> kind is Server
            &&& icon == Icon::Trash2 <==> kind is Trash
        }),
{
}

} // verus!
