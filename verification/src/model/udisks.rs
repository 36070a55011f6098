//! Mounted volumes: what the disk service's tree of objects says is mounted
//! and worth showing, and which changes of that are news.
//!
//! The tree is rebuilt whole on every signal of the service, so that nothing
//! has to be patched; a list that equals the last one is not sent again.
use crate::model::places::path_label;
use crate::order::{
    bytes_less, is_order, order_of, ordered, ordered_lists_ascend, orders_are_unique,
};
use crate::path::{FsPath, equal_paths, file_name_of, opt_path, opt_vec, same_path};
use crate::text::{byte_rows, bytes_of, copy_bytes, lossy, same_text, shown};
use vstd::prelude::*;
use vstd::slice::slice_subrange;
use vstd::utf8::*;

verus! {

/// A mounted volume that is worth showing.
#[derive(Debug, PartialEq, Eq)]
pub struct Mount<P = FsPath, T = String> {
    /// The label of the file system, or one made from the mount point.
    pub label: T,
    pub mount_point: P,
    /// Whether the drive can be taken out.
    pub removable: bool,
}

/// The model of a [`Mount`].
pub type MountView = Mount<Seq<u8>, Seq<char>>;

impl View for Mount {
    type V = MountView;

    open spec fn view(&self) -> MountView {
        Mount { label: self.label@, mount_point: self.mount_point@, removable: self.removable }
    }
}

impl Clone for Mount {
    fn clone(&self) -> (r: Self)
        ensures
            r@ == self@,
    {
        Mount {
            label: self.label.clone(),
            mount_point: self.mount_point.clone(),
            removable: self.removable,
        }
    }
}

/// The views of a list of mounts.
pub open spec fn mounts(v: Seq<Mount>) -> Seq<MountView> {
    Seq::new(v.len(), |i: int| v[i]@)
}

/// The view of an optional mount.
pub open spec fn opt_mount(o: Option<Mount>) -> Option<MountView> {
    match o {
        Some(m) => Some(m@),
        None => None,
    }
}

/// A value on the bus, as far as it matters here.
#[derive(Debug)]
pub enum BusValue<T = String, V = Vec<Option<Vec<u8>>>> {
    Bool(bool),
    Text(T),
    /// The path of an object.
    Object(T),
    /// An array of byte strings; an element of another type is absent.
    Bytes(V),
    /// Anything else.
    Other,
}

/// The model of a [`BusValue`].
pub type BusValueView = BusValue<Seq<char>, Seq<Option<Seq<u8>>>>;

/// The views of a list of optional byte strings.
pub open spec fn opt_rows(v: Seq<Option<Vec<u8>>>) -> Seq<Option<Seq<u8>>> {
    Seq::new(v.len(), |i: int| opt_vec(v[i]))
}

impl View for BusValue {
    type V = BusValueView;

    open spec fn view(&self) -> BusValueView {
        match self {
            BusValue::Bool(b) => BusValue::Bool(*b),
            BusValue::Text(t) => BusValue::Text(t@),
            BusValue::Object(t) => BusValue::Object(t@),
            BusValue::Bytes(v) => BusValue::Bytes(opt_rows(v@)),
            BusValue::Other => BusValue::Other,
        }
    }
}

/// A property of an object.
#[derive(Debug)]
pub struct BusProperty<T = String, V = BusValue> {
    pub name: T,
    pub value: V,
}

/// The model of a list of properties.
pub type PropertiesView = Seq<BusProperty<Seq<char>, BusValueView>>;

/// The views of a list of properties.
pub open spec fn properties(v: Seq<BusProperty>) -> PropertiesView {
    Seq::new(v.len(), |i: int| BusProperty { name: v[i].name@, value: v[i].value@ })
}

/// An interface of an object.
#[derive(Debug)]
pub struct BusInterface<T = String, V = Vec<BusProperty>> {
    pub name: T,
    pub properties: V,
}

/// The model of a list of interfaces.
pub type InterfacesView = Seq<BusInterface<Seq<char>, PropertiesView>>;

/// The views of a list of interfaces.
pub open spec fn interfaces(v: Seq<BusInterface>) -> InterfacesView {
    Seq::new(
        v.len(),
        |i: int| BusInterface { name: v[i].name@, properties: properties(v[i].properties@) },
    )
}

/// An object of the service.
#[derive(Debug)]
pub struct BusObject<T = String, V = Vec<BusInterface>> {
    pub path: T,
    pub interfaces: V,
}

/// The model of a [`BusObject`].
pub type BusObjectView = BusObject<Seq<char>, InterfacesView>;

impl View for BusObject {
    type V = BusObjectView;

    open spec fn view(&self) -> BusObjectView {
        BusObject { path: self.path@, interfaces: interfaces(self.interfaces@) }
    }
}

/// The views of a list of objects.
pub open spec fn objects(v: Seq<BusObject>) -> Seq<BusObjectView> {
    Seq::new(v.len(), |i: int| v[i]@)
}

/// The value of a property.
pub open spec fn property(list: PropertiesView, name: Seq<char>) -> Option<BusValueView>
    decreases list.len(),
{
    if list.len() == 0 {
        None
    } else if list[0].name == name {
        Some(list[0].value)
    } else {
        property(list.skip(1), name)
    }
}

/// The properties of an interface.
pub open spec fn interface(list: InterfacesView, name: Seq<char>) -> Option<PropertiesView>
    decreases list.len(),
{
    if list.len() == 0 {
        None
    } else if list[0].name == name {
        Some(list[0].properties)
    } else {
        interface(list.skip(1), name)
    }
}

/// The object at a path.
pub open spec fn object_at(tree: Seq<BusObjectView>, path: Seq<char>) -> Option<BusObjectView>
    decreases tree.len(),
{
    if tree.len() == 0 {
        None
    } else if tree[0].path == path {
        Some(tree[0])
    } else {
        object_at(tree.skip(1), path)
    }
}

fn find_property<'a>(list: &'a Vec<BusProperty>, name: &str) -> (r: Option<&'a BusValue>)
    ensures
        match r {
            Some(v) => property(properties(list@), name@) == Some(v@),
            None => property(properties(list@), name@) is None,
        },
{
    let ghost all = properties(list@);
    assert(all.skip(0) =~= all);
    for i in 0..list.len()
        invariant
            all == properties(list@),
            property(all, name@) == property(all.skip(i as int), name@),
    {
        assert(all.skip(i as int)[0] == all[i as int]);
        if same_text(list[i].name.as_str(), name) {
            return Some(&list[i].value);
        }
        assert(all.skip(i as int).skip(1) =~= all.skip(i + 1));
    }
    assert(all.skip(all.len() as int).len() == 0);
    None
}

fn find_interface<'a>(list: &'a Vec<BusInterface>, name: &str) -> (r: Option<&'a Vec<BusProperty>>)
    ensures
        match r {
            Some(v) => interface(interfaces(list@), name@) == Some(properties(v@)),
            None => interface(interfaces(list@), name@) is None,
        },
{
    let ghost all = interfaces(list@);
    assert(all.skip(0) =~= all);
    for i in 0..list.len()
        invariant
            all == interfaces(list@),
            interface(all, name@) == interface(all.skip(i as int), name@),
    {
        assert(all.skip(i as int)[0] == all[i as int]);
        if same_text(list[i].name.as_str(), name) {
            return Some(&list[i].properties);
        }
        assert(all.skip(i as int).skip(1) =~= all.skip(i + 1));
    }
    assert(all.skip(all.len() as int).len() == 0);
    None
}

fn find_object<'a>(tree: &'a Vec<BusObject>, path: &str) -> (r: Option<&'a BusObject>)
    ensures
        match r {
            Some(o) => object_at(objects(tree@), path@) == Some(o@),
            None => object_at(objects(tree@), path@) is None,
        },
{
    let ghost all = objects(tree@);
    assert(all.skip(0) =~= all);
    for i in 0..tree.len()
        invariant
            all == objects(tree@),
            object_at(all, path@) == object_at(all.skip(i as int), path@),
    {
        assert(all.skip(i as int)[0] == all[i as int]);
        if same_text(tree[i].path.as_str(), path) {
            return Some(&tree[i]);
        }
        assert(all.skip(i as int).skip(1) =~= all.skip(i + 1));
    }
    assert(all.skip(all.len() as int).len() == 0);
    None
}

/// Bytes without the zeros at their end.
pub open spec fn without_nuls(bytes: Seq<u8>) -> Seq<u8>
    decreases bytes.len(),
{
    if bytes.len() > 0 && bytes.last() == 0 {
        without_nuls(bytes.drop_last())
    } else {
        bytes
    }
}

/// The first of the mount points of a file system, which the service ends
/// with a zero byte. A file system that is not mounted has none.
pub open spec fn first_mount(fs: PropertiesView) -> Option<Seq<u8>> {
    match property(fs, "MountPoints"@) {
        Some(BusValue::Bytes(list)) => if list.len() > 0 && list[0] is Some && without_nuls(
            list[0]->0,
        ).len() > 0 {
            Some(without_nuls(list[0]->0))
        } else {
            None
        },
        _ => None,
    }
}

/// Whether a block device says that it is not for users.
pub open spec fn is_ignored(block: Option<PropertiesView>) -> bool {
    match block {
        Some(list) => property(list, "HintIgnore"@) == Some(BusValueView::Bool(true)),
        None => false,
    }
}

/// The label of a volume: the one of its file system, else the name of its
/// mount point.
pub open spec fn volume_label(block: Option<PropertiesView>, mount_point: Seq<u8>) -> Seq<char> {
    match block {
        Some(list) => match property(list, "IdLabel"@) {
            Some(BusValue::Text(t)) if t.len() > 0 => t,
            _ => path_label(mount_point),
        },
        None => path_label(mount_point),
    }
}

/// Whether the drive of a block device says that it can be taken out.
pub open spec fn is_removable(tree: Seq<BusObjectView>, block: Option<PropertiesView>) -> bool {
    match block {
        Some(list) => match property(list, "Drive"@) {
            Some(BusValue::Object(path)) => match object_at(tree, path) {
                Some(drive) => match interface(
                    drive.interfaces,
                    "org.freedesktop.UDisks2.Drive"@,
                ) {
                    Some(props) => property(props, "Removable"@) == Some(BusValueView::Bool(true)),
                    None => false,
                },
                None => false,
            },
            _ => false,
        },
        None => false,
    }
}

/// The mount that an object is, if it is one worth showing.
pub open spec fn mount_of(tree: Seq<BusObjectView>, object: BusObjectView) -> Option<MountView> {
    let block = interface(object.interfaces, "org.freedesktop.UDisks2.Block"@);
    match interface(object.interfaces, "org.freedesktop.UDisks2.Filesystem"@) {
        Some(fs) => match first_mount(fs) {
            Some(mount_point) => if is_ignored(block) {
                None
            } else {
                Some(
                    Mount {
                        label: volume_label(block, mount_point),
                        mount_point,
                        removable: is_removable(tree, block),
                    },
                )
            },
            None => None,
        },
        None => None,
    }
}

/// The mounts among the first `n` objects.
pub open spec fn mounts_upto(tree: Seq<BusObjectView>, n: int) -> Seq<MountView>
    decreases n,
{
    if n <= 0 {
        Seq::empty()
    } else {
        match mount_of(tree, tree[n - 1]) {
            Some(m) => mounts_upto(tree, n - 1).push(m),
            None => mounts_upto(tree, n - 1),
        }
    }
}

/// The labels of mounts, as sort keys.
pub open spec fn label_keys(list: Seq<MountView>) -> Seq<Seq<u8>> {
    Seq::new(list.len(), |i: int| encode_utf8(list[i].label))
}

/// Whether a list is the mounts of a tree by label.
pub open spec fn is_snapshot(tree: Seq<BusObjectView>, list: Seq<MountView>) -> bool {
    exists|order: Seq<usize>| #[trigger]
        is_order(label_keys(mounts_upto(tree, tree.len() as int)), order) && list == ordered(
            mounts_upto(tree, tree.len() as int),
            order,
        )
}

fn trim_nuls(bytes: &[u8]) -> (r: Vec<u8>)
    ensures
        r@ == without_nuls(bytes@),
{
    let mut n: usize = bytes.len();
    assert(bytes@.take(bytes@.len() as int) =~= bytes@);
    while n > 0 && bytes[n - 1] == 0
        invariant
            n <= bytes@.len(),
            without_nuls(bytes@) == without_nuls(bytes@.take(n as int)),
        decreases n,
    {
        assert(bytes@.take(n as int).drop_last() =~= bytes@.take(n - 1));
        n = n - 1;
    }
    copy_bytes(slice_subrange(bytes, 0, n))
}

fn first_mount_point(fs: &Vec<BusProperty>) -> (r: Option<FsPath>)
    ensures
        opt_path(r) == first_mount(properties(fs@)),
{
    match find_property(fs, "MountPoints") {
        Some(BusValue::Bytes(list)) => {
            if list.len() == 0 {
                return None;
            }
            assert(opt_rows(list@)[0] == opt_vec(list@[0]));
            match &list[0] {
                Some(bytes) => {
                    let path = trim_nuls(bytes.as_slice());
                    if path.len() > 0 {
                        Some(FsPath::from_bytes(path))
                    } else {
                        None
                    }
                },
                None => None,
            }
        },
        _ => None,
    }
}

fn says_yes(list: &Vec<BusProperty>, name: &str) -> (r: bool)
    ensures
        r == (property(properties(list@), name@) == Some(BusValueView::Bool(true))),
{
    match find_property(list, name) {
        Some(BusValue::Bool(b)) => *b,
        _ => false,
    }
}

fn fallback_label(mount_point: &FsPath) -> (r: String)
    ensures
        r@ == path_label(mount_point@),
{
    match mount_point.file_name() {
        Some(name) => lossy(name.as_slice()),
        None => mount_point.display(),
    }
}

fn removable(tree: &Vec<BusObject>, block: &Vec<BusProperty>) -> (r: bool)
    ensures
        r == is_removable(objects(tree@), Some(properties(block@))),
{
    match find_property(block, "Drive") {
        Some(BusValue::Object(path)) => match find_object(tree, path.as_str()) {
            Some(drive) => match find_interface(
                &drive.interfaces,
                "org.freedesktop.UDisks2.Drive",
            ) {
                Some(props) => says_yes(props, "Removable"),
                None => false,
            },
            None => false,
        },
        _ => false,
    }
}

fn mount_from_object(tree: &Vec<BusObject>, object: &BusObject) -> (r: Option<Mount>)
    ensures
        opt_mount(r) == mount_of(objects(tree@), object@),
{
    let mount_point = match find_interface(
        &object.interfaces,
        "org.freedesktop.UDisks2.Filesystem",
    ) {
        Some(fs) => match first_mount_point(fs) {
            Some(p) => p,
            None => {
                return None;
            },
        },
        None => {
            return None;
        },
    };
    match find_interface(&object.interfaces, "org.freedesktop.UDisks2.Block") {
        Some(block) => {
            if says_yes(block, "HintIgnore") {
                return None;
            }
            let label = match find_property(block, "IdLabel") {
                Some(BusValue::Text(t)) => {
                    if t.as_str().unicode_len() > 0 {
                        t.clone()
                    } else {
                        fallback_label(&mount_point)
                    }
                },
                _ => fallback_label(&mount_point),
            };
            let removable = removable(tree, block);
            Some(Mount { label, mount_point, removable })
        },
        None => {
            let label = fallback_label(&mount_point);
            Some(Mount { label, mount_point, removable: false })
        },
    }
}

/// The mounts of a tree, by label.
pub fn snapshot(tree: &Vec<BusObject>) -> (r: Vec<Mount>)
    ensures
        is_snapshot(objects(tree@), mounts(r@)),
{
    let ghost all = objects(tree@);
    let mut found: Vec<Mount> = Vec::new();
    let mut keys: Vec<Vec<u8>> = Vec::new();
    assert(mounts(found@) =~= Seq::empty());
    for i in 0..tree.len()
        invariant
            all == objects(tree@),
            mounts(found@) == mounts_upto(all, i as int),
            keys@.len() == found@.len(),
            forall|j: int|
                0 <= j < keys@.len() ==> (#[trigger] keys@[j])@ == encode_utf8(found@[j].label@),
    {
        let ghost before = mounts(found@);
        assert(all[i as int] == tree@[i as int]@);
        if let Some(m) = mount_from_object(tree, &tree[i]) {
            let ghost v = m@;
            keys.push(bytes_of(m.label.as_str()));
            found.push(m);
            assert(mounts(found@) =~= before.push(v));
        }
    }
    let ghost list = mounts(found@);
    let order = order_of(&keys);
    assert(byte_rows(keys@) =~= label_keys(list)) by {
        assert forall|j: int| 0 <= j < keys@.len() implies byte_rows(keys@)[j] == label_keys(
            list,
        )[j] by {
            assert(keys@[j]@ == encode_utf8(found@[j].label@));
        }
    }
    let mut out: Vec<Mount> = Vec::new();
    let ghost wanted = ordered(list, order@);
    for i in 0..order.len()
        invariant
            list == mounts(found@),
            wanted == ordered(list, order@),
            is_order(label_keys(list), order@),
            mounts(out@) == wanted.take(i as int),
    {
        let ghost before = mounts(out@);
        assert(order@[i as int] < label_keys(list).len());
        let m = found[order[i]].clone();
        assert(wanted[i as int] == list[order@[i as int] as int]);
        out.push(m);
        assert(mounts(out@) =~= before.push(wanted[i as int]));
        assert(before.push(wanted[i as int]) =~= wanted.take(i + 1));
    }
    assert(wanted.take(wanted.len() as int) =~= wanted);
    out
}

// ---------------------------------------------------------------------------
// Changes
// ---------------------------------------------------------------------------

/// Whether two mounts are shown alike.
pub open spec fn same_mount(a: MountView, b: MountView) -> bool {
    a.label == b.label && same_path(a.mount_point, b.mount_point) && a.removable == b.removable
}

/// Whether two lists are shown alike.
pub open spec fn same_mounts(a: Seq<MountView>, b: Seq<MountView>) -> bool {
    a.len() == b.len() && forall|i: int|
        0 <= i < a.len() ==> same_mount(#[trigger] a[i], #[trigger] b[i])
}

fn equal_mounts(a: &Vec<Mount>, b: &Vec<Mount>) -> (r: bool)
    ensures
        r == same_mounts(mounts(a@), mounts(b@)),
{
    if a.len() != b.len() {
        return false;
    }
    for i in 0..a.len()
        invariant
            a@.len() == b@.len(),
            forall|j: int|
                0 <= j < i ==> same_mount(#[trigger] mounts(a@)[j], #[trigger] mounts(b@)[j]),
    {
        if !same_text(a[i].label.as_str(), b[i].label.as_str()) || !equal_paths(
            a[i].mount_point.as_bytes(),
            b[i].mount_point.as_bytes(),
        ) || a[i].removable != b[i].removable {
            assert(!same_mount(mounts(a@)[i as int], mounts(b@)[i as int]));
            return false;
        }
    }
    true
}

/// Clones a list of mounts.
pub fn copy_mounts(v: &Vec<Mount>) -> (r: Vec<Mount>)
    ensures
        mounts(r@) == mounts(v@),
{
    let mut out: Vec<Mount> = Vec::new();
    for i in 0..v.len()
        invariant
            out@.len() == i,
            forall|j: int| 0 <= j < i ==> (#[trigger] out@[j])@ == v@[j]@,
    {
        out.push(v[i].clone());
    }
    assert(mounts(out@) =~= mounts(v@));
    out
}

/// The view of an optional list of mounts.
pub open spec fn opt_mounts(o: Option<Vec<Mount>>) -> Option<Seq<MountView>> {
    match o {
        Some(v) => Some(mounts(v@)),
        None => None,
    }
}

/// What has been sent so far of a changing list of mounts.
#[derive(Debug)]
pub struct UdisksMounts {
    last_sent: Option<Vec<Mount>>,
}

impl View for UdisksMounts {
    type V = Option<Seq<MountView>>;

    closed spec fn view(&self) -> Option<Seq<MountView>> {
        opt_mounts(self.last_sent)
    }
}

/// Whether a list is news after the last one sent.
pub open spec fn is_news(last: Option<Seq<MountView>>, current: Seq<MountView>) -> bool {
    match last {
        Some(list) => !same_mounts(list, current),
        None => true,
    }
}

impl UdisksMounts {
    /// Nothing has been sent yet.
    pub fn new() -> (r: Self)
        ensures
            r@ is None,
    {
        UdisksMounts { last_sent: None }
    }

    /// The list to send, if the current one is news.
    pub fn offer(&mut self, current: Vec<Mount>) -> (r: Option<Vec<Mount>>)
        ensures
            is_news(old(self)@, mounts(current@)) ==> opt_mounts(r) == Some(mounts(current@))
                && final(self)@ == Some(mounts(current@)),
            !is_news(old(self)@, mounts(current@)) ==> r is None && final(self)@ == old(self)@,
    {
        let news = match &self.last_sent {
            Some(list) => !equal_mounts(list, &current),
            None => true,
        };
        if news {
            self.last_sent = Some(copy_mounts(&current));
            Some(current)
        } else {
            None
        }
    }
}

impl Default for UdisksMounts {
    fn default() -> (r: Self)
        ensures
            r@ is None,
    {
        UdisksMounts::new()
    }
}

/// The views of a list of lists of mounts.
pub open spec fn mount_lists(v: Seq<Vec<Mount>>) -> Seq<Seq<MountView>> {
    Seq::new(v.len(), |i: int| mounts(v[i]@))
}

/// A source of mount lists that are fixed beforehand.
#[derive(Debug)]
pub struct FakeMountsSource {
    snapshots: Vec<Vec<Mount>>,
}

impl View for FakeMountsSource {
    type V = Seq<Seq<MountView>>;

    closed spec fn view(&self) -> Seq<Seq<MountView>> {
        mount_lists(self.snapshots@)
    }
}

impl FakeMountsSource {
    /// A source that gives these lists in turn.
    pub fn new(snapshots: Vec<Vec<Mount>>) -> (r: Self)
        ensures
            r@ == mount_lists(snapshots@),
    {
        FakeMountsSource { snapshots }
    }

    /// The lists, in the order in which they are given.
    pub fn watch(&self) -> (r: Vec<Vec<Mount>>)
        ensures
            mount_lists(r@) == self@,
    {
        let mut out: Vec<Vec<Mount>> = Vec::new();
        for i in 0..self.snapshots.len()
            invariant
                out@.len() == i,
                forall|j: int|
                    0 <= j < i ==> mounts((#[trigger] out@[j])@) == mounts(self.snapshots@[j]@),
        {
            out.push(copy_mounts(&self.snapshots[i]));
        }
        assert(mount_lists(out@) =~= self@);
        out
    }
}

// ---------------------------------------------------------------------------
// Laws
// ---------------------------------------------------------------------------

/// A tree has one list of mounts: rebuilding it gives the same list again.
pub proof fn snapshots_are_unique(tree: Seq<BusObjectView>, a: Seq<MountView>, b: Seq<MountView>)
    requires
        is_snapshot(tree, a),
        is_snapshot(tree, b),
    ensures
        a == b,
{
    let keys = label_keys(mounts_upto(tree, tree.len() as int));
    let x = choose|order: Seq<usize>| #[trigger]
        is_order(keys, order) && a == ordered(mounts_upto(tree, tree.len() as int), order);
    let y = choose|order: Seq<usize>| #[trigger]
        is_order(keys, order) && b == ordered(mounts_upto(tree, tree.len() as int), order);
    orders_are_unique(keys, x, y);
}

/// What was just sent is no news, so that a signal that changes nothing sends
/// nothing.
pub proof fn the_same_list_is_no_news(list: Seq<MountView>)
    ensures
        !is_news(Some(list), list),
        is_news(None, list),
{
}

/// Properties, interfaces and objects are found by their names, the first one
/// of each.
pub proof fn names_are_looked_up(
    list: PropertiesView,
    faces: InterfacesView,
    tree: Seq<BusObjectView>,
    name: Seq<char>,
    i: int,
)
    ensures
        0 <= i < list.len() && list[i].name == name && (forall|j: int|
            0 <= j < i ==> (#[trigger] list[j]).name != name) ==> property(list, name) == Some(
            list[i].value,
        ),
        0 <= i < faces.len() && faces[i].name == name && (forall|j: int|
            0 <= j < i ==> (#[trigger] faces[j]).name != name) ==> interface(faces, name) == Some(
            faces[i].properties,
        ),
        0 <= i < tree.len() && tree[i].path == name && (forall|j: int|
            0 <= j < i ==> (#[trigger] tree[j]).path != name) ==> object_at(tree, name) == Some(
            tree[i],
        ),
        (forall|j: int| 0 <= j < list.len() ==> (#[trigger] list[j]).name != name) ==> property(
            list,
            name,
        ) is None,
    decreases list.len() + faces.len() + tree.len(),
{
    if list.len() > 0 || faces.len() > 0 || tree.len() > 0 {
        let (a, b, c) = (
            if list.len() > 0 {
                list.skip(1)
            } else {
                list
            },
            if faces.len() > 0 {
                faces.skip(1)
            } else {
                faces
            },
            if tree.len() > 0 {
                tree.skip(1)
            } else {
                tree
            },
        );
        names_are_looked_up(a, b, c, name, i - 1);
        assert(forall|j: int| 0 <= j < a.len() ==> list.len() > 0 ==> (#[trigger] a[j]) == list[j
            + 1]);
        assert(forall|j: int| 0 <= j < b.len() ==> faces.len() > 0 ==> (#[trigger] b[j])
            == faces[j + 1]);
        assert(forall|j: int| 0 <= j < c.len() ==> tree.len() > 0 ==> (#[trigger] c[j]) == tree[j
            + 1]);
        if list.len() > 0 && i > 0 && (forall|j: int|
            0 <= j < i ==> (#[trigger] list[j]).name != name) {
            assert(list[0].name != name);
        }
        if list.len() > 0 && (forall|j: int|
            0 <= j < list.len() ==> (#[trigger] list[j]).name != name) {
            assert(list[0].name != name);
        }
        if faces.len() > 0 && i > 0 && (forall|j: int|
            0 <= j < i ==> (#[trigger] faces[j]).name != name) {
            assert(faces[0].name != name);
        }
        if tree.len() > 0 && i > 0 && (forall|j: int|
            0 <= j < i ==> (#[trigger] tree[j]).path != name) {
            assert(tree[0].path != name);
        }
    }
}

/// The zeros at the end of a mount point do not belong to it, and nothing
/// else is taken from it.
pub proof fn only_trailing_zeros_go(bytes: Seq<u8>)
    ensures
        ({
            let r = without_nuls(bytes);
            &&& r.len() <= bytes.len()
            &&& r == bytes.take(r.len() as int)
            &&& r.len() > 0 ==> r.last() != 0
            &&& forall|i: int| r.len() <= i < bytes.len() ==> #[trigger] bytes[i] == 0
        }),
    decreases bytes.len(),
{
    if bytes.len() > 0 && bytes.last() == 0 {
        only_trailing_zeros_go(bytes.drop_last());
        let r = without_nuls(bytes);
        assert(bytes.drop_last().take(r.len() as int) =~= bytes.take(r.len() as int));
        assert forall|i: int| r.len() <= i < bytes.len() implies #[trigger] bytes[i] == 0 by {
            if i < bytes.len() - 1 {
                assert(bytes[i] == bytes.drop_last()[i]);
            }
        }
    } else {
        assert(bytes.take(bytes.len() as int) =~= bytes);
    }
}

/// A volume is shown if it is a file system that is mounted somewhere and its
/// block device does not ask to be ignored.
pub proof fn mounted_file_systems_are_shown(
    tree: Seq<BusObjectView>,
    object: BusObjectView,
    fs: PropertiesView,
    points: Seq<Option<Seq<u8>>>,
    point: Seq<u8>,
)
    requires
        interface(object.interfaces, "org.freedesktop.UDisks2.Filesystem"@) == Some(fs),
        property(fs, "MountPoints"@) == Some(BusValueView::Bytes(points)),
        points.len() > 0,
        points[0] == Some(point),
    ensures
        ({
            let block = interface(object.interfaces, "org.freedesktop.UDisks2.Block"@);
            let ignored = block matches Some(list) && property(list, "HintIgnore"@) == Some(
                BusValueView::Bool(true),
            );
            &&& mount_of(tree, object) is Some <==> without_nuls(point).len() > 0 && !ignored
            &&& mount_of(tree, object) matches Some(m) ==> m.mount_point == without_nuls(point)
        }),
{
}

/// What is no file system, or is not mounted, is not shown.
pub proof fn nothing_else_is_shown(tree: Seq<BusObjectView>, object: BusObjectView)
    ensures
        mount_of(tree, object) is Some ==> {
            let fs = interface(object.interfaces, "org.freedesktop.UDisks2.Filesystem"@);
            &&& fs is Some
            &&& property(fs->0, "MountPoints"@) matches Some(BusValue::Bytes(points))
                && points.len() > 0
        },
{
}

/// A volume goes by the label of its file system, and without one by the last
/// name of its mount point; it is removable if its drive says so.
pub proof fn volumes_are_described(
    tree: Seq<BusObjectView>,
    list: PropertiesView,
    point: Seq<u8>,
    label: Seq<char>,
    drive: Seq<char>,
)
    ensures
        property(list, "IdLabel"@) == Some(BusValueView::Text(label)) && label.len() > 0
            ==> volume_label(Some(list), point) == label,
        property(list, "IdLabel"@) is None || property(list, "IdLabel"@) == Some(
            BusValueView::Text(Seq::empty()),
        ) ==> volume_label(Some(list), point) == volume_label(None, point),
        file_name_of(point) matches Some(name) ==> volume_label(None, point) == shown(name),
        file_name_of(point) is None ==> volume_label(None, point) == shown(point),
        property(list, "Drive"@) == Some(BusValueView::Object(drive)) ==> (is_removable(
            tree,
            Some(list),
        ) <==> (object_at(tree, drive) matches Some(found) && (interface(
            found.interfaces,
            "org.freedesktop.UDisks2.Drive"@,
        ) matches Some(props) && property(props, "Removable"@) == Some(BusValueView::Bool(true))))),
        property(list, "Drive"@) is None ==> !is_removable(tree, Some(list)),
        !is_removable(tree, None),
{
}

/// The volumes of a tree are those of its objects.
pub proof fn every_volume_is_listed(tree: Seq<BusObjectView>, n: int)
    requires
        0 <= n <= tree.len(),
    ensures
        mounts_upto(tree, n) == tree.take(n).map_values(|o: BusObjectView| mount_of(tree, o)).filter(
            |m: Option<MountView>| m is Some,
        ).map_values(|m: Option<MountView>| m->0),
    decreases n,
{
    let found = |o: BusObjectView| mount_of(tree, o);
    let is = |m: Option<MountView>| m is Some;
    reveal(Seq::filter);
    let all = tree.take(n).map_values(found);
    if n > 0 {
        every_volume_is_listed(tree, n - 1);
        assert(all.drop_last() =~= tree.take(n - 1).map_values(found));
        assert(all.last() == mount_of(tree, tree[n - 1]));
    } else {
        assert(all =~= Seq::empty());
    }
    assert(mounts_upto(tree, n) =~= all.filter(is).map_values(|m: Option<MountView>| m->0));
}

/// A list is news unless it is shown just like the last one that was sent:
/// a volume more or less, another label, another place or another kind of
/// drive all are.
pub proof fn every_change_is_news(last: Seq<MountView>, current: Seq<MountView>, i: int)
    ensures
        is_news(None, current),
        last.len() != current.len() ==> is_news(Some(last), current),
        0 <= i < last.len() && last.len() == current.len() && (last[i].label != current[i].label
            || last[i].removable != current[i].removable || !same_path(
            last[i].mount_point,
            current[i].mount_point,
        )) ==> is_news(Some(last), current),
{
    if 0 <= i < last.len() && last.len() == current.len() && same_mounts(last, current) {
        assert(same_mount(last[i], current[i]));
    }
}

/// The volumes of a snapshot are those of the tree, by label.
pub proof fn snapshots_are_sorted_by_label(
    tree: Seq<BusObjectView>,
    list: Seq<MountView>,
    i: int,
    j: int,
)
    requires
        is_snapshot(tree, list),
        0 <= i < j < list.len(),
    ensures
        list.len() == mounts_upto(tree, tree.len() as int).len(),
        !bytes_less(encode_utf8(list[j].label), encode_utf8(list[i].label)),
{
    let all = mounts_upto(tree, tree.len() as int);
    let order = choose|order: Seq<usize>| #[trigger]
        is_order(label_keys(all), order) && list == ordered(all, order);
    ordered_lists_ascend(label_keys(all), order, i, j);
    assert(order[i] < all.len() && order[j] < all.len());
}

} // verus!
