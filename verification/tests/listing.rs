use saola_files::config::SortKey;
use saola_files::model::fs::entry::{EntryKind, FileEntry};
use saola_files::model::fs::format::{civil_from_days, format_system_time, human_size};
use saola_files::model::fs::sort::{compare, natural_cmp};
use saola_files::time::Timestamp;
use std::cmp::Ordering;

fn file(name: &str, size: u64, modified: Option<u64>) -> FileEntry {
    FileEntry {
        name: name.as_bytes().to_vec(),
        kind: EntryKind::File,
        size,
        modified: modified.map(|secs| Timestamp::from_secs(secs as i64)),
        is_symlink: false,
        mode: None,
    }
}

fn dir(name: &str) -> FileEntry {
    FileEntry {
        name: name.as_bytes().to_vec(),
        kind: EntryKind::Directory,
        size: 0,
        modified: None,
        is_symlink: false,
        mode: None,
    }
}

#[test]
fn non_utf8_name_round_trips_and_displays_lossily() {
    let raw = b"\xff\xfe".to_vec();
    let entry = FileEntry {
        name: raw.clone(),
        kind: EntryKind::File,
        size: 0,
        modified: None,
        is_symlink: false,
        mode: None,
    };

    // The bytes survive untouched in the model...
    assert_eq!(entry.name, raw);
    assert_eq!(entry.name.as_slice(), b"\xff\xfe");
    // ...and the display path never panics, degrading to replacement
    // characters instead of losing the row entirely.
    assert!(entry.display_name().contains('\u{FFFD}'));
}

#[test]
fn utf8_name_displays_unchanged() {
    let entry = FileEntry {
        name: "résumé.pdf".as_bytes().to_vec(),
        kind: EntryKind::File,
        size: 1024,
        modified: None,
        is_symlink: false,
        mode: None,
    };
    assert_eq!(entry.display_name(), "résumé.pdf");
}

#[test]
fn format_civil_from_days_matches_known_dates() {
    assert_eq!(civil_from_days(0), (1970, 1, 1));
    assert_eq!(civil_from_days(10_957), (2000, 1, 1));
    assert_eq!(civil_from_days(-1), (1969, 12, 31));
}

#[test]
fn leap_days_are_counted() {
    assert_eq!(civil_from_days(10_957 + 59), (2000, 2, 29));
    assert_eq!(civil_from_days(10_957 + 60), (2000, 3, 1));
    // 1900 was no leap year.
    assert_eq!(civil_from_days(-25_508), (1900, 3, 1));
    assert_eq!(civil_from_days(-25_509), (1900, 2, 28));
}

#[test]
fn human_size_scales_units() {
    assert_eq!(human_size(0), "0 B");
    assert_eq!(human_size(1023), "1023 B");
    assert_eq!(human_size(1024), "1.0 KB");
    assert_eq!(human_size(1024 * 1024 * 3), "3.0 MB");
}

#[test]
fn human_size_rounds_like_floating_point_does() {
    let units = ["B", "KB", "MB", "GB", "TB"];
    let expected = |bytes: u64| -> String {
        if bytes < 1024 {
            return format!("{bytes} B");
        }
        let mut size = bytes as f64;
        let mut unit = 0;
        while size >= 1024.0 && unit < units.len() - 1 {
            size /= 1024.0;
            unit += 1;
        }
        format!("{size:.1} {}", units[unit])
    };
    let mut n: u64 = 1;
    for _ in 0..5_000 {
        n = n.wrapping_mul(6_364_136_223_846_793_005).wrapping_add(1_442_695_040_888_963_407);
        for shift in [0, 7, 13, 20, 33, 40, 50] {
            let bytes = n >> shift;
            assert_eq!(human_size(bytes), expected(bytes), "{bytes}");
        }
    }
    for bytes in [1075, 1126, 1127, 1_048_575, 1_048_576, 1_101_004, u64::MAX] {
        assert_eq!(human_size(bytes), expected(bytes), "{bytes}");
    }
}

#[test]
fn format_system_time_renders_year_month_day_hour_minute() {
    // 2000-01-01 00:00:00 UTC is 10_957 days after the epoch.
    let time = Timestamp::from_secs(10_957 * 86_400);
    assert_eq!(format_system_time(time), "2000-01-01 00:00");
}

#[test]
fn minutes_are_cut_not_rounded() {
    let time = Timestamp { secs: 10_957 * 86_400 + 13 * 3_600 + 5 * 60 + 59, nanos: 999_999_999 };
    assert_eq!(format_system_time(time), "2000-01-01 13:05");
}

#[test]
fn natural_order_compares_digit_runs_numerically() {
    assert_eq!(natural_cmp(b"img2.png", b"img10.png"), Ordering::Less);
    assert_eq!(natural_cmp(b"img10.png", b"img2.png"), Ordering::Greater);
    assert_eq!(natural_cmp(b"a", b"a"), Ordering::Equal);
    assert_eq!(natural_cmp(b"a1", b"a01"), Ordering::Less); // "1" < "01": fewer leading zeros wins
    assert_eq!(natural_cmp(b"a", b"ab"), Ordering::Less); // shorter prefix sorts first
    assert_eq!(natural_cmp(b"file000", b"file0"), Ordering::Greater); // longer run of zeros
}

#[test]
fn natural_order_is_an_order() {
    let names: [&[u8]; 9] =
        [b"", b"a", b"A", b"a1", b"a01", b"a2", b"a10", b"a10b", b"b"];
    for a in names {
        for b in names {
            assert_eq!(natural_cmp(a, b), natural_cmp(b, a).reverse());
            for c in names {
                if natural_cmp(a, b) == Ordering::Less && natural_cmp(b, c) == Ordering::Less {
                    assert_eq!(natural_cmp(a, c), Ordering::Less);
                }
            }
        }
    }
}

#[test]
fn dirs_always_sort_first_regardless_of_key_or_direction() {
    let entries = [file("aaa.txt", 1, None), dir("zzz")];
    assert_eq!(compare(&entries[0], &entries[1], SortKey::Name, false), Ordering::Greater);
    assert_eq!(compare(&entries[0], &entries[1], SortKey::Name, true), Ordering::Greater);
    assert_eq!(compare(&entries[0], &entries[1], SortKey::Size, true), Ordering::Greater);
}

#[test]
fn size_ascending_and_descending() {
    let small = file("a", 10, None);
    let big = file("b", 1000, None);
    assert_eq!(compare(&small, &big, SortKey::Size, false), Ordering::Less);
    assert_eq!(compare(&small, &big, SortKey::Size, true), Ordering::Greater);
}

#[test]
fn modified_orders_unknown_times_consistently() {
    let unknown = file("a", 0, None);
    let known = file("b", 0, Some(1000));
    let ascending = compare(&unknown, &known, SortKey::Modified, false);
    let descending = compare(&unknown, &known, SortKey::Modified, true);
    assert_ne!(ascending, descending);
}

#[test]
fn type_sort_groups_by_extension_then_name() {
    let a = file("b.txt", 0, None);
    let b = file("a.txt", 0, None);
    let c = file("a.zip", 0, None);
    assert_eq!(compare(&b, &a, SortKey::Type, false), Ordering::Less); // same ext, name breaks tie
    assert_eq!(compare(&a, &c, SortKey::Type, false), Ordering::Less); // "txt" < "zip"
}
