use saola_files::model::udisks::{
    snapshot, BusInterface, BusObject, BusProperty, BusValue, FakeMountsSource, Mount,
    UdisksMounts,
};
use saola_files::path::FsPath;

fn mount(label: &str, mount_point: &str, removable: bool) -> Mount {
    Mount { label: label.to_owned(), mount_point: FsPath::new(mount_point), removable }
}

fn text(s: &str) -> BusValue {
    BusValue::Text(s.to_owned())
}

fn object_path(s: &str) -> BusValue {
    BusValue::Object(s.to_owned())
}

fn object(path: &str, interfaces: Vec<(&str, Vec<(&str, BusValue)>)>) -> BusObject {
    let mut list = Vec::new();
    for (name, values) in interfaces {
        let mut properties = Vec::new();
        for (key, value) in values {
            properties.push(BusProperty { name: key.to_owned(), value });
        }
        list.push(BusInterface { name: name.to_owned(), properties });
    }
    BusObject { path: path.to_owned(), interfaces: list }
}

fn mount_points_value(path: &str) -> BusValue {
    let mut bytes = path.as_bytes().to_vec();
    bytes.push(0);
    BusValue::Bytes(vec![Some(bytes)])
}

#[test]
fn a_fake_source_streams_a_mount_appearing_then_disappearing() {
    let usb = mount("USB Drive", "/media/jordan/USB Drive", true);
    let source = FakeMountsSource::new(vec![vec![], vec![usb.clone()], vec![]]);

    let mut stream = source.watch().into_iter();
    assert_eq!(stream.next(), Some(vec![]));
    assert_eq!(stream.next(), Some(vec![usb]));
    assert_eq!(stream.next(), Some(vec![]));
    assert_eq!(stream.next(), None);
}

#[test]
fn a_fake_source_with_no_scripted_snapshots_ends_immediately() {
    let source = FakeMountsSource::new(vec![]);
    assert_eq!(source.watch().into_iter().next(), None);
}

#[test]
fn a_mounted_labeled_filesystem_on_a_removable_drive_is_reported() {
    let objects = vec![
        object(
            "/org/freedesktop/UDisks2/drives/USB_Drive",
            vec![("org.freedesktop.UDisks2.Drive", vec![("Removable", BusValue::Bool(true))])],
        ),
        object(
            "/org/freedesktop/UDisks2/block_devices/sdb1",
            vec![
                (
                    "org.freedesktop.UDisks2.Block",
                    vec![
                        ("IdLabel", text("USB Drive")),
                        ("Drive", object_path("/org/freedesktop/UDisks2/drives/USB_Drive")),
                    ],
                ),
                (
                    "org.freedesktop.UDisks2.Filesystem",
                    vec![("MountPoints", mount_points_value("/media/jordan/USB Drive"))],
                ),
            ],
        ),
    ];

    let mounts = snapshot(&objects);
    assert_eq!(mounts.len(), 1);
    assert_eq!(mounts[0].label, "USB Drive");
    assert_eq!(mounts[0].mount_point, FsPath::new("/media/jordan/USB Drive"));
    assert!(mounts[0].removable);
}

#[test]
fn an_unmounted_filesystem_is_not_reported() {
    let objects = vec![object(
        "/org/freedesktop/UDisks2/block_devices/sdb1",
        vec![(
            "org.freedesktop.UDisks2.Filesystem",
            vec![("MountPoints", BusValue::Bytes(vec![]))],
        )],
    )];
    assert!(snapshot(&objects).is_empty());
}

#[test]
fn a_non_filesystem_object_is_not_reported() {
    let objects = vec![object(
        "/org/freedesktop/UDisks2/drives/USB_Drive",
        vec![("org.freedesktop.UDisks2.Drive", vec![("Removable", BusValue::Bool(true))])],
    )];
    assert!(snapshot(&objects).is_empty());
}

#[test]
fn hint_ignore_hides_a_mounted_filesystem() {
    let objects = vec![object(
        "/org/freedesktop/UDisks2/block_devices/loop0",
        vec![
            ("org.freedesktop.UDisks2.Block", vec![("HintIgnore", BusValue::Bool(true))]),
            (
                "org.freedesktop.UDisks2.Filesystem",
                vec![("MountPoints", mount_points_value("/var/lib/snapd/snap"))],
            ),
        ],
    )];
    assert!(snapshot(&objects).is_empty());
}

#[test]
fn a_missing_label_falls_back_to_the_mount_point_basename() {
    let objects = vec![object(
        "/org/freedesktop/UDisks2/block_devices/sda1",
        vec![(
            "org.freedesktop.UDisks2.Filesystem",
            vec![("MountPoints", mount_points_value("/mnt/backup"))],
        )],
    )];
    let mounts = snapshot(&objects);
    assert_eq!(mounts[0].label, "backup");
    // No Drive property at all: conservatively not removable.
    assert!(!mounts[0].removable);
}

#[test]
fn an_internal_drive_is_not_removable() {
    let objects = vec![
        object(
            "/org/freedesktop/UDisks2/drives/Internal",
            vec![("org.freedesktop.UDisks2.Drive", vec![("Removable", BusValue::Bool(false))])],
        ),
        object(
            "/org/freedesktop/UDisks2/block_devices/nvme0n1p2",
            vec![
                (
                    "org.freedesktop.UDisks2.Block",
                    vec![("Drive", object_path("/org/freedesktop/UDisks2/drives/Internal"))],
                ),
                (
                    "org.freedesktop.UDisks2.Filesystem",
                    vec![("MountPoints", mount_points_value("/data"))],
                ),
            ],
        ),
    ];
    assert!(!snapshot(&objects)[0].removable);
}

#[test]
fn mounts_are_sorted_alphabetically_by_label() {
    let objects = vec![
        object(
            "/org/freedesktop/UDisks2/block_devices/sdb1",
            vec![(
                "org.freedesktop.UDisks2.Filesystem",
                vec![("MountPoints", mount_points_value("/media/zeta"))],
            )],
        ),
        object(
            "/org/freedesktop/UDisks2/block_devices/sdc1",
            vec![(
                "org.freedesktop.UDisks2.Filesystem",
                vec![("MountPoints", mount_points_value("/media/alpha"))],
            )],
        ),
    ];
    let mounts = snapshot(&objects);
    let labels: Vec<&str> = mounts.iter().map(|m| m.label.as_str()).collect();
    assert_eq!(labels, vec!["alpha", "zeta"]);
}

#[test]
fn an_empty_tree_yields_no_mounts() {
    assert!(snapshot(&vec![]).is_empty());
}

#[test]
fn rebuilding_the_same_tree_produces_an_equal_snapshot() {
    let objects = vec![object(
        "/org/freedesktop/UDisks2/block_devices/sdb1",
        vec![(
            "org.freedesktop.UDisks2.Filesystem",
            vec![("MountPoints", mount_points_value("/media/usb"))],
        )],
    )];
    assert_eq!(snapshot(&objects), snapshot(&objects));
}

#[test]
fn only_a_list_that_changed_is_news() {
    let mut feed = UdisksMounts::new();
    let usb = mount("USB", "/media/usb", true);
    assert_eq!(feed.offer(vec![]), Some(vec![]));
    assert_eq!(feed.offer(vec![]), None);
    assert_eq!(feed.offer(vec![usb.clone()]), Some(vec![usb.clone()]));
    assert_eq!(feed.offer(vec![usb]), None);
    assert_eq!(feed.offer(vec![]), Some(vec![]));
}
