use saola_files::icons::{for_entry, for_mount, for_place, Icon};
use saola_files::model::fs::entry::EntryKind;
use saola_files::model::mime::Category;
use saola_files::model::places::PlaceKind;

#[test]
fn symlinks_always_get_the_link_glyph() {
    assert_eq!(for_entry(EntryKind::Directory, true, Category::Directory), Icon::Link);
    assert_eq!(for_entry(EntryKind::File, true, Category::Text), Icon::Link);
}

#[test]
fn directories_get_the_folder_glyph_regardless_of_category() {
    assert_eq!(for_entry(EntryKind::Directory, false, Category::Generic), Icon::Folder);
}

#[test]
fn files_differentiate_by_category_shape_not_hue() {
    assert_eq!(for_entry(EntryKind::File, false, Category::Text), Icon::FileText);
    assert_eq!(for_entry(EntryKind::File, false, Category::Code), Icon::FileCode);
    assert_eq!(for_entry(EntryKind::File, false, Category::Image), Icon::FileImage);
    assert_eq!(for_entry(EntryKind::File, false, Category::Audio), Icon::FileAudio);
    assert_eq!(for_entry(EntryKind::File, false, Category::Video), Icon::FileVideo);
    assert_eq!(for_entry(EntryKind::File, false, Category::Archive), Icon::FileArchive);
    assert_eq!(for_entry(EntryKind::File, false, Category::Config), Icon::FileCog);
    assert_eq!(for_entry(EntryKind::File, false, Category::Generic), Icon::File);
    assert_eq!(for_entry(EntryKind::File, false, Category::Unknown), Icon::FileQuestion);
}

#[test]
fn for_place_maps_every_kind_to_a_distinct_reserved_glyph() {
    assert_eq!(for_place(PlaceKind::Home), Icon::House);
    assert_eq!(for_place(PlaceKind::Downloads), Icon::Download);
    assert_eq!(for_place(PlaceKind::Pictures), Icon::Image);
    assert_eq!(for_place(PlaceKind::Music), Icon::Music);
    assert_eq!(for_place(PlaceKind::Videos), Icon::Film);
    assert_eq!(for_place(PlaceKind::Bookmark), Icon::Bookmark);
    assert_eq!(for_place(PlaceKind::Server), Icon::Server);
    assert_eq!(for_place(PlaceKind::Trash), Icon::Trash2);
}

#[test]
fn for_place_falls_back_to_the_folder_glyph_for_desktop_and_documents() {
    assert_eq!(for_place(PlaceKind::Desktop), Icon::Folder);
    assert_eq!(for_place(PlaceKind::Documents), Icon::Folder);
}

#[test]
fn for_mount_differentiates_removable_by_shape_not_hue() {
    assert_eq!(for_mount(true), Icon::Usb);
    assert_eq!(for_mount(false), Icon::HardDrive);
}
