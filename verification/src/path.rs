//! Unix paths as byte strings.
//!
//! A path is whatever bytes the system handed over; nothing here decodes
//! them. Two paths are equal when their components are: repeated separators,
//! trailing separators and `.` components make no difference, except for a
//! leading `.`.
use crate::text::{
    byte_rows, concat_bytes, copy_bytes, find, find_byte, find_is, find_props, lossy, same_bytes,
    shown, split, split_bytes,
};
use vstd::prelude::*;
use vstd::slice::{slice_subrange, slice_to_vec};
use vstd::utf8::*;

verus! {

pub const SEP: u8 = 0x2F;

pub const DOT: u8 = 0x2E;

// ---------------------------------------------------------------------------
// The model
// ---------------------------------------------------------------------------

/// The length of the part before the named components: the root `/`, or a
/// leading `.` component.
pub open spec fn base_len(p: Seq<u8>) -> int {
    if p.len() > 0 && p[0] == SEP {
        1
    } else if p.len() > 0 && p[0] == DOT && (p.len() == 1 || p[1] == SEP) {
        1
    } else {
        0
    }
}

/// The start of the last segment: just behind the last separator of the
/// body, or the start of the body.
pub open spec fn last_start(p: Seq<u8>, i: int) -> int
    decreases i,
{
    if i <= base_len(p) || p[i - 1] == SEP {
        i
    } else {
        last_start(p, i - 1)
    }
}

/// The last segment of the body.
pub open spec fn last_segment(p: Seq<u8>) -> Seq<u8> {
    p.skip(last_start(p, p.len() as int))
}

/// `p` without its last segment and the separator before it.
pub open spec fn drop_segment(p: Seq<u8>) -> Seq<u8> {
    let s = last_start(p, p.len() as int);
    if s > base_len(p) {
        p.take(s - 1)
    } else {
        p.take(s)
    }
}

/// Whether a segment names nothing.
pub open spec fn is_blank(seg: Seq<u8>) -> bool {
    seg.len() == 0 || seg == seq![DOT]
}

/// `p` without trailing separators and `.` segments.
pub open spec fn normal_end(p: Seq<u8>) -> Seq<u8>
    decreases p.len(),
{
    proof {
        drop_segment_shorter(p);
    }
    if p.len() > base_len(p) && is_blank(last_segment(p)) {
        normal_end(drop_segment(p))
    } else {
        p
    }
}

proof fn last_start_bounds(p: Seq<u8>, i: int)
    requires
        base_len(p) <= i <= p.len(),
    ensures
        base_len(p) <= last_start(p, i) <= i,
        last_start(p, i) > base_len(p) ==> p[last_start(p, i) - 1] == SEP,
        forall|j: int| last_start(p, i) <= j < i ==> p[j] != SEP,
    decreases i,
{
    if i > base_len(p) && p[i - 1] != SEP {
        last_start_bounds(p, i - 1);
    }
}

proof fn last_start_is(p: Seq<u8>, i: int, s: int)
    requires
        base_len(p) <= s <= i <= p.len(),
        s > base_len(p) ==> p[s - 1] == SEP,
        forall|j: int| s <= j < i ==> p[j] != SEP,
    ensures
        last_start(p, i) == s,
    decreases i,
{
    if i > s {
        last_start_is(p, i - 1, s);
    }
}

/// Dropping a segment of a non-empty body makes the path shorter.
pub proof fn drop_segment_shorter(p: Seq<u8>)
    ensures
        p.len() > base_len(p) ==> drop_segment(p).len() < p.len(),
{
    if p.len() > base_len(p) {
        last_start_bounds(p, p.len() as int);
    }
}

/// Dropping a segment of a path that starts at the root keeps the root.
pub proof fn drop_is_rooted(p: Seq<u8>)
    requires
        p.len() > 1,
        p[0] == SEP,
    ensures
        drop_segment(p).len() > 0,
        drop_segment(p)[0] == SEP,
{
    last_start_bounds(p, p.len() as int);
}

/// The last named component: neither a `..` nor absent.
pub open spec fn file_name_of(p: Seq<u8>) -> Option<Seq<u8>> {
    let t = normal_end(p);
    if t.len() > base_len(t) && last_segment(t) != seq![DOT, DOT] {
        Some(last_segment(t))
    } else {
        None
    }
}

/// The path without its last component. The root and the empty path have no
/// parent.
pub open spec fn parent_of(p: Seq<u8>) -> Option<Seq<u8>> {
    let t = normal_end(p);
    if t.len() > base_len(t) {
        Some(normal_end(drop_segment(t)))
    } else if t == seq![DOT] {
        Some(Seq::empty())
    } else {
        None
    }
}

/// `child` below `p`; an absolute `child` stands on its own.
pub open spec fn joined(p: Seq<u8>, child: Seq<u8>) -> Seq<u8> {
    if child.len() > 0 && child[0] == SEP {
        child
    } else if p.len() > 0 && p.last() != SEP {
        p.push(SEP) + child
    } else {
        p + child
    }
}

/// The index of the last dot of a file name, or `-1`.
pub open spec fn last_dot(name: Seq<u8>) -> int
    decreases name.len(),
{
    if name.len() == 0 || name.last() == DOT {
        name.len() - 1
    } else {
        last_dot(name.drop_last())
    }
}

/// What follows the last dot of a file name, provided something precedes it.
pub open spec fn name_extension(name: Seq<u8>) -> Option<Seq<u8>> {
    let d = last_dot(name);
    if d > 0 {
        Some(name.skip(d + 1))
    } else {
        None
    }
}

/// The extension of the last named component.
pub open spec fn extension_of(p: Seq<u8>) -> Option<Seq<u8>> {
    match file_name_of(p) {
        Some(name) => name_extension(name),
        None => None,
    }
}

/// The file name without its extension.
pub open spec fn name_stem(name: Seq<u8>) -> Seq<u8> {
    let d = last_dot(name);
    if d > 0 {
        name.take(d)
    } else {
        name
    }
}

/// Whether a body segment is a component.
pub open spec fn is_part(seg: Seq<u8>) -> bool {
    !is_blank(seg)
}

/// The components of a path. The root is `/` and a leading current directory
/// is `.`; neither can be confused with a body component.
pub open spec fn components_of(p: Seq<u8>) -> Seq<Seq<u8>> {
    let b = base_len(p);
    let head = if b == 1 {
        seq![p.take(1)]
    } else {
        Seq::empty()
    };
    head + split(p.skip(b), SEP).filter(|seg: Seq<u8>| is_part(seg))
}

/// Whether two paths denote the same sequence of components.
pub open spec fn same_path(a: Seq<u8>, b: Seq<u8>) -> bool {
    components_of(a) == components_of(b)
}

/// Whether the components of `prefix` are the first components of `p`.
pub open spec fn path_starts_with(p: Seq<u8>, prefix: Seq<u8>) -> bool {
    components_of(prefix).is_prefix_of(components_of(p))
}

/// The components of a body: its segments that name something.
pub open spec fn parts(body: Seq<u8>) -> Seq<Seq<u8>> {
    split(body, SEP).filter(|seg: Seq<u8>| is_part(seg))
}

/// What follows the first segment of a body.
pub open spec fn after_segment(body: Seq<u8>) -> Seq<u8> {
    let i = find(body, SEP);
    if i < body.len() {
        body.skip(i + 1)
    } else {
        Seq::empty()
    }
}

/// A body without its leading separators and `.` segments.
pub open spec fn normal_start(body: Seq<u8>) -> Seq<u8>
    decreases body.len(),
{
    proof {
        find_props(body, SEP);
    }
    if body.len() > 0 && is_blank(body.take(find(body, SEP))) {
        normal_start(after_segment(body))
    } else {
        body
    }
}

/// A body without its first `n` components.
pub open spec fn skip_parts(body: Seq<u8>, n: nat) -> Seq<u8>
    decreases n,
{
    let rest = normal_start(body);
    if n == 0 {
        rest
    } else {
        skip_parts(after_segment(rest), (n - 1) as nat)
    }
}

/// What remains of `p` behind the components of `prefix`, if those begin `p`.
pub open spec fn stripped(p: Seq<u8>, prefix: Seq<u8>) -> Option<Seq<u8>> {
    let n = components_of(prefix).len();
    if !path_starts_with(p, prefix) {
        None
    } else if n == 0 {
        Some(normal_end(p))
    } else {
        Some(normal_end(skip_parts(p.skip(base_len(p)), (n - base_len(p)) as nat)))
    }
}

/// The path reached from `start` by a list of names, one below the other.
pub open spec fn below(start: Seq<u8>, names: Seq<Seq<u8>>) -> Seq<u8>
    decreases names.len(),
{
    if names.len() == 0 {
        start
    } else {
        joined(below(start, names.drop_last()), names.last())
    }
}

/// A path seen from the root, without needless separators and `.` segments. A
/// path that is not absolute starts at the working directory; without one, or
/// if it is empty, it stays as it is. Exactly two leading separators are kept,
/// and so is a trailing one.
pub open spec fn absolute_path(p: Seq<u8>, cwd: Option<Seq<u8>>) -> Seq<u8> {
    if p.len() == 0 || (p[0] != SEP && cwd is None) {
        p
    } else {
        let start = if p[0] != SEP {
            cwd->0
        } else if p.len() > 1 && p[1] == SEP && !(p.len() > 2 && p[2] == SEP) {
            seq![SEP, SEP]
        } else {
            seq![SEP]
        };
        let path = below(start, parts(p.skip(base_len(p))));
        if p.last() == SEP {
            joined(path, Seq::empty())
        } else {
            path
        }
    }
}

// ---------------------------------------------------------------------------
// Scanning
// ---------------------------------------------------------------------------

fn base(p: &[u8]) -> (r: usize)
    ensures
        r == base_len(p@),
        r <= p@.len(),
{
    if p.len() > 0 && p[0] == SEP {
        1
    } else if p.len() > 0 && p[0] == DOT && (p.len() == 1 || p[1] == SEP) {
        1
    } else {
        0
    }
}

fn segment_start(p: &[u8]) -> (r: usize)
    ensures
        r == last_start(p@, p@.len() as int),
        base_len(p@) <= r <= p@.len(),
{
    let b = base(p);
    let mut i: usize = p.len();
    while i > b && p[i - 1] != SEP
        invariant
            b == base_len(p@),
            b <= i <= p@.len(),
            last_start(p@, p@.len() as int) == last_start(p@, i as int),
        decreases i,
    {
        i = i - 1;
    }
    i
}

fn blank(seg: &[u8]) -> (r: bool)
    ensures
        r == is_blank(seg@),
{
    if seg.len() == 1 && seg[0] == DOT {
        assert(seg@ =~= seq![DOT]);
        return true;
    }
    assert(seg@.len() == 1 ==> seg@[0] != DOT);
    seg.len() == 0
}

fn without_segment(p: &[u8]) -> (r: &[u8])
    ensures
        r@ == drop_segment(p@),
{
    let s = segment_start(p);
    if s > base(p) {
        slice_subrange(p, 0, s - 1)
    } else {
        slice_subrange(p, 0, s)
    }
}

fn without_blank_end(p: &[u8]) -> (r: &[u8])
    ensures
        r@ == normal_end(p@),
    decreases p@.len(),
{
    if p.len() > base(p) {
        let s = segment_start(p);
        let seg = slice_subrange(p, s, p.len());
        assert(seg@ =~= last_segment(p@));
        if blank(seg) {
            proof {
                drop_segment_shorter(p@);
            }
            return without_blank_end(without_segment(p));
        }
    }
    p
}

fn past_segment(body: &[u8]) -> (r: &[u8])
    ensures
        r@ == after_segment(body@),
{
    let i = find_byte(body, SEP);
    if i < body.len() {
        let r = slice_subrange(body, i + 1, body.len());
        assert(r@ =~= body@.skip(i + 1));
        r
    } else {
        let r = slice_subrange(body, 0, 0);
        assert(r@ =~= Seq::empty());
        r
    }
}

fn without_blank_start(body: &[u8]) -> (r: &[u8])
    ensures
        r@ == normal_start(body@),
    decreases body@.len(),
{
    if body.len() > 0 {
        proof {
            find_props(body@, SEP);
        }
        let i = find_byte(body, SEP);
        let seg = slice_subrange(body, 0, i);
        assert(seg@ =~= body@.take(i as int));
        if blank(seg) {
            return without_blank_start(past_segment(body));
        }
    }
    body
}

fn without_parts(body: &[u8], n: usize) -> (r: &[u8])
    ensures
        r@ == skip_parts(body@, n as nat),
    decreases n,
{
    let rest = without_blank_start(body);
    if n == 0 {
        rest
    } else {
        without_parts(past_segment(rest), n - 1)
    }
}

fn is_dot_dot(seg: &[u8]) -> (r: bool)
    ensures
        r == (seg@ == seq![DOT, DOT]),
{
    if seg.len() == 2 && seg[0] == DOT && seg[1] == DOT {
        assert(seg@ =~= seq![DOT, DOT]);
        true
    } else {
        false
    }
}

fn dot_index(name: &[u8]) -> (r: Option<usize>)
    ensures
        r is Some <==> last_dot(name@) > 0,
        r is Some ==> r->0 == last_dot(name@) && 0 < r->0 < name@.len(),
{
    let mut i: usize = name.len();
    assert(name@.take(name@.len() as int) =~= name@);
    while i > 0 && name[i - 1] != DOT
        invariant
            i <= name@.len(),
            last_dot(name@) == last_dot(name@.take(i as int)),
        decreases i,
    {
        assert(name@.take(i as int).drop_last() =~= name@.take(i - 1));
        i = i - 1;
    }
    if i > 1 {
        Some(i - 1)
    } else {
        None
    }
}

/// The last named component of a raw path.
pub fn file_name_bytes(p: &[u8]) -> (r: Option<&[u8]>)
    ensures
        opt_bytes(r) == file_name_of(p@),
{
    let t = without_blank_end(p);
    if t.len() > base(t) {
        let s = segment_start(t);
        let seg = slice_subrange(t, s, t.len());
        assert(seg@ =~= last_segment(t@));
        if !is_dot_dot(seg) {
            return Some(seg);
        }
    }
    None
}

/// The view of an optional byte slice.
pub open spec fn opt_bytes(o: Option<&[u8]>) -> Option<Seq<u8>> {
    match o {
        Some(b) => Some(b@),
        None => None,
    }
}

/// The extension of a raw path.
pub fn extension_bytes(p: &[u8]) -> (r: Option<&[u8]>)
    ensures
        opt_bytes(r) == extension_of(p@),
{
    match file_name_bytes(p) {
        Some(name) => match dot_index(name) {
            Some(d) => {
                let n = name.len();
                let ext = slice_subrange(name, d + 1, n);
                assert(ext@ =~= name@.skip(d + 1));
                Some(ext)
            },
            None => None,
        },
        None => None,
    }
}

/// A file name split into its stem and its extension.
pub fn split_name(name: &[u8]) -> (r: (&[u8], Option<&[u8]>))
    ensures
        r.0@ == name_stem(name@),
        opt_bytes(r.1) == name_extension(name@),
{
    match dot_index(name) {
        Some(d) => {
            let n = name.len();
                let ext = slice_subrange(name, d + 1, n);
            assert(ext@ =~= name@.skip(d + 1));
            (slice_subrange(name, 0, d), Some(ext))
        },
        None => (name, None),
    }
}

/// The components of a raw path.
pub fn components(p: &[u8]) -> (r: Vec<Vec<u8>>)
    ensures
        byte_rows(r@) == components_of(p@),
{
    let b = base(p);
    let mut out: Vec<Vec<u8>> = Vec::new();
    if b == 1 {
        let head = slice_to_vec(slice_subrange(p, 0, 1));
        out.push(head);
        assert(byte_rows(out@) =~= seq![p@.take(1)]);
    } else {
        assert(byte_rows(out@) =~= Seq::empty());
    }
    let ghost head = byte_rows(out@);
    let body = slice_subrange(p, b, p.len());
    assert(body@ =~= p@.skip(b as int));
    let segs = split_bytes(body, SEP);
    let ghost all = byte_rows(segs@);
    let ghost keep = |seg: Seq<u8>| is_part(seg);
    for i in 0..segs.len()
        invariant
            all == byte_rows(segs@),
            keep == (|seg: Seq<u8>| is_part(seg)),
            byte_rows(out@) == head + all.take(i as int).filter(keep),
    {
        let ghost before = byte_rows(out@);
        proof {
            assert(all.take(i + 1) =~= all.take(i as int).push(all[i as int]));
            all.take(i as int).lemma_filter_push(all[i as int], keep);
        }
        if !blank(segs[i].as_slice()) {
            let seg = copy_bytes(segs[i].as_slice());
            out.push(seg);
            assert(byte_rows(out@) =~= before.push(all[i as int]));
            assert(byte_rows(out@) =~= head + all.take(i + 1).filter(keep));
        }
    }
    assert(all.take(all.len() as int) =~= all);
    out
}

fn same_rows(a: &Vec<Vec<u8>>, b: &Vec<Vec<u8>>, n: usize) -> (r: bool)
    requires
        n <= a@.len(),
        n <= b@.len(),
    ensures
        r == (byte_rows(a@).take(n as int) == byte_rows(b@).take(n as int)),
{
    for i in 0..n
        invariant
            n <= a@.len(),
            n <= b@.len(),
            forall|j: int| 0 <= j < i ==> byte_rows(a@)[j] == byte_rows(b@)[j],
    {
        if !same_bytes(a[i].as_slice(), b[i].as_slice()) {
            assert(byte_rows(a@).take(n as int)[i as int] != byte_rows(b@).take(n as int)[i as int]);
            return false;
        }
    }
    assert(byte_rows(a@).take(n as int) =~= byte_rows(b@).take(n as int));
    true
}

/// Compares two raw paths by their components.
pub fn equal_paths(a: &[u8], b: &[u8]) -> (r: bool)
    ensures
        r == same_path(a@, b@),
{
    let x = components(a);
    let y = components(b);
    assert(byte_rows(x@).take(x@.len() as int) =~= byte_rows(x@));
    assert(byte_rows(y@).take(y@.len() as int) =~= byte_rows(y@));
    if x.len() != y.len() {
        return false;
    }
    same_rows(&x, &y, x.len())
}

// ---------------------------------------------------------------------------
// The owned type
// ---------------------------------------------------------------------------

/// An owned path.
#[derive(Debug)]
pub struct FsPath {
    bytes: Vec<u8>,
}

impl View for FsPath {
    type V = Seq<u8>;

    closed spec fn view(&self) -> Seq<u8> {
        self.bytes@
    }
}

impl Clone for FsPath {
    fn clone(&self) -> (r: Self)
        ensures
            r@ == self@,
    {
        FsPath { bytes: copy_bytes(self.bytes.as_slice()) }
    }
}

impl PartialEq for FsPath {
    fn eq(&self, other: &Self) -> (r: bool) {
        equal_paths(self.bytes.as_slice(), other.bytes.as_slice())
    }
}

impl vstd::std_specs::cmp::PartialEqSpecImpl for FsPath {
    open spec fn obeys_eq_spec() -> bool {
        true
    }

    open spec fn eq_spec(&self, other: &Self) -> bool {
        same_path(self@, other@)
    }
}

impl Eq for FsPath {

}

/// Hashes by components, as equality goes by components.
impl std::hash::Hash for FsPath {
    fn hash<H: std::hash::Hasher>(&self, state: &mut H) {
        let names = components(self.bytes.as_slice());
        (names.len() as u64).hash(state);
        for i in 0..names.len() {
            let name = &names[i];
            (name.len() as u64).hash(state);
            for j in 0..name.len() {
                (name[j] as u64).hash(state);
            }
        }
    }
}

impl Default for FsPath {
    fn default() -> (r: Self)
        ensures
            r@ == Seq::<u8>::empty(),
    {
        FsPath { bytes: Vec::new() }
    }
}

/// The view of an optional path.
pub open spec fn opt_path(o: Option<FsPath>) -> Option<Seq<u8>> {
    match o {
        Some(p) => Some(p@),
        None => None,
    }
}

/// The view of an optional byte string.
pub open spec fn opt_vec(o: Option<Vec<u8>>) -> Option<Seq<u8>> {
    match o {
        Some(p) => Some(p@),
        None => None,
    }
}

/// The views of a list of paths.
pub open spec fn paths(v: Seq<FsPath>) -> Seq<Seq<u8>> {
    Seq::new(v.len(), |i: int| v[i]@)
}

impl FsPath {
    /// A path from its bytes.
    pub fn from_bytes(bytes: Vec<u8>) -> (r: FsPath)
        ensures
            r@ == bytes@,
    {
        FsPath { bytes }
    }

    /// A path from text.
    pub fn new(s: &str) -> (r: FsPath)
        ensures
            r@ == encode_utf8(s@),
    {
        FsPath { bytes: crate::text::bytes_of(s) }
    }

    /// The bytes of the path.
    pub fn as_bytes(&self) -> (r: &[u8])
        ensures
            r@ == self@,
    {
        self.bytes.as_slice()
    }

    /// A copy of the bytes of the path.
    pub fn to_bytes(&self) -> (r: Vec<u8>)
        ensures
            r@ == self@,
    {
        copy_bytes(self.bytes.as_slice())
    }

    /// Whether the path starts at the root.
    pub fn is_absolute(&self) -> (r: bool)
        ensures
            r == (self@.len() > 0 && self@[0] == SEP),
    {
        self.bytes.len() > 0 && self.bytes[0] == SEP
    }

    /// The path without its last component.
    pub fn parent(&self) -> (r: Option<FsPath>)
        ensures
            opt_path(r) == parent_of(self@),
    {
        let t = without_blank_end(self.bytes.as_slice());
        if t.len() > base(t) {
            let up = without_blank_end(without_segment(t));
            Some(FsPath { bytes: copy_bytes(up) })
        } else if t.len() == 1 && t[0] == DOT {
            assert(t@ =~= seq![DOT]);
            let r = FsPath { bytes: Vec::new() };
            assert(r@ =~= Seq::empty());
            Some(r)
        } else {
            assert(t@ != seq![DOT]);
            None
        }
    }

    /// `child` below this path.
    pub fn join_bytes(&self, child: &[u8]) -> (r: FsPath)
        ensures
            r@ == joined(self@, child@),
    {
        if child.len() > 0 && child[0] == SEP {
            return FsPath { bytes: copy_bytes(child) };
        }
        if self.bytes.len() > 0 && self.bytes[self.bytes.len() - 1] != SEP {
            let mut head = copy_bytes(self.bytes.as_slice());
            head.push(SEP);
            FsPath { bytes: concat_bytes(head.as_slice(), child) }
        } else {
            FsPath { bytes: concat_bytes(self.bytes.as_slice(), child) }
        }
    }

    /// The last named component.
    pub fn file_name(&self) -> (r: Option<Vec<u8>>)
        ensures
            opt_vec(r) == file_name_of(self@),
    {
        match file_name_bytes(self.bytes.as_slice()) {
            Some(name) => Some(copy_bytes(name)),
            None => None,
        }
    }

    /// The extension of the last named component.
    pub fn extension(&self) -> (r: Option<Vec<u8>>)
        ensures
            opt_vec(r) == extension_of(self@),
    {
        match extension_bytes(self.bytes.as_slice()) {
            Some(ext) => Some(copy_bytes(ext)),
            None => None,
        }
    }

    /// Whether the components of `prefix` begin this path.
    pub fn starts_with(&self, prefix: &FsPath) -> (r: bool)
        ensures
            r == path_starts_with(self@, prefix@),
    {
        let x = components(self.bytes.as_slice());
        let y = components(prefix.bytes.as_slice());
        if y.len() > x.len() {
            return false;
        }
        assert(byte_rows(y@).take(y@.len() as int) =~= byte_rows(y@));
        same_rows(&y, &x, y.len())
    }

    /// What remains of this path behind `prefix`, if that begins it.
    pub fn strip_prefix(&self, prefix: &FsPath) -> (r: Option<FsPath>)
        ensures
            opt_path(r) == stripped(self@, prefix@),
    {
        if !self.starts_with(prefix) {
            return None;
        }
        let p = self.bytes.as_slice();
        let n = components(prefix.bytes.as_slice()).len();
        if n == 0 {
            return Some(FsPath { bytes: copy_bytes(without_blank_end(p)) });
        }
        let b = base(p);
        let body = slice_subrange(p, b, p.len());
        assert(body@ =~= p@.skip(b as int));
        let rest = without_parts(body, n - b);
        Some(FsPath { bytes: copy_bytes(without_blank_end(rest)) })
    }

    /// This path seen from the root, starting at the working directory if it is
    /// not absolute.
    pub fn absolute(&self, cwd: Option<&FsPath>) -> (r: FsPath)
        ensures
            r@ == absolute_path(
                self@,
                match cwd {
                    Some(c) => Some(c@),
                    None => None::<Seq<u8>>,
                },
            ),
    {
        let p = self.as_bytes();
        let n = p.len();
        if n == 0 {
            return self.clone();
        }
        let b = base(p);
        let mut path = if p[0] != SEP {
            match cwd {
                Some(c) => c.clone(),
                None => {
                    return self.clone();
                },
            }
        } else if n > 1 && p[1] == SEP && !(n > 2 && p[2] == SEP) {
            let two = vec![SEP, SEP];
            assert(two@ =~= seq![SEP, SEP]);
            FsPath::from_bytes(two)
        } else {
            let one = vec![SEP];
            assert(one@ =~= seq![SEP]);
            FsPath::from_bytes(one)
        };
        let names = components(p);
        let ghost start = path@;
        let ghost all = parts(self@.skip(b as int));
        assert(byte_rows(names@).skip(b as int) =~= all);
        assert(all.take(0) =~= Seq::empty());
        for i in b..names.len()
            invariant
                byte_rows(names@).skip(b as int) == all,
                path@ == below(start, all.take(i - b)),
        {
            assert(all.take(i - b + 1).drop_last() =~= all.take(i - b));
            assert(all.take(i - b + 1).last() == names@[i as int]@);
            path = path.join_bytes(names[i].as_slice());
        }
        assert(all.take(all.len() as int) =~= all);
        if p[n - 1] == SEP {
            let none: Vec<u8> = Vec::new();
            assert(none@ =~= Seq::empty());
            path = path.join_bytes(none.as_slice());
        }
        path
    }

    /// The path as text for display.
    pub fn display(&self) -> (r: String)
        ensures
            r@ == shown(self@),
    {
        lossy(self.bytes.as_slice())
    }
}

/// Values that name a path.
pub trait IntoPath: Sized {
    /// The bytes of the path named.
    spec fn path_view(&self) -> Seq<u8>;

    /// The path named.
    fn into_path(self) -> (r: FsPath)
        ensures
            r@ == self.path_view(),
    ;
}

impl IntoPath for FsPath {
    open spec fn path_view(&self) -> Seq<u8> {
        self@
    }

    fn into_path(self) -> (r: FsPath) {
        self
    }
}

impl<'a> IntoPath for &'a FsPath {
    open spec fn path_view(&self) -> Seq<u8> {
        self@
    }

    fn into_path(self) -> (r: FsPath) {
        self.clone()
    }
}

impl<'a> IntoPath for &'a str {
    open spec fn path_view(&self) -> Seq<u8> {
        encode_utf8(self@)
    }

    fn into_path(self) -> (r: FsPath) {
        FsPath::new(self)
    }
}

impl IntoPath for String {
    open spec fn path_view(&self) -> Seq<u8> {
        encode_utf8(self@)
    }

    fn into_path(self) -> (r: FsPath) {
        FsPath::new(self.as_str())
    }
}

impl IntoPath for Vec<u8> {
    open spec fn path_view(&self) -> Seq<u8> {
        self@
    }

    fn into_path(self) -> (r: FsPath) {
        FsPath::from_bytes(self)
    }
}

// ---------------------------------------------------------------------------
// Laws
// ---------------------------------------------------------------------------

/// Whether `name` can be a single directory entry: not empty, not `.` or
/// `..`, without separators.
pub open spec fn is_entry_name(name: Seq<u8>) -> bool {
    &&& name.len() > 0
    &&& name != seq![DOT]
    &&& name != seq![DOT, DOT]
    &&& forall|i: int| 0 <= i < name.len() ==> name[i] != SEP
}

proof fn join_entry(p: Seq<u8>, name: Seq<u8>)
    requires
        is_entry_name(name),
    ensures
        ({
            let j = joined(p, name);
            &&& base_len(j) == base_len(p)
            &&& last_segment(j) == name
            &&& normal_end(j) == j
            &&& j.len() > base_len(j)
            &&& normal_end(drop_segment(j)) == normal_end(p)
        }),
{
    let j = joined(p, name);
    assert(name[0] != SEP);
    assert(base_len(name) == 0) by {
        if name.len() == 1 && name[0] == DOT {
            assert(name =~= seq![DOT]);
        }
    }
    let s: int = j.len() - name.len();
    assert(j.skip(s) =~= name);
    assert forall|k: int| s <= k < j.len() implies j[k] != SEP by {
        assert(j[k] == name[k - s]);
    }
    if p.len() == 0 {
        assert(j =~= name);
        last_start_is(j, j.len() as int, 0);
        assert(drop_segment(j) =~= p);
    } else {
        assert(j[0] == p[0]);
        assert(base_len(j) == base_len(p));
        if s > base_len(p) {
            assert(j[s - 1] == SEP);
        }
        last_start_is(j, j.len() as int, s);
        if p.last() != SEP || p.len() == base_len(p) {
            assert(drop_segment(j) =~= p);
        } else {
            last_start_is(p, p.len() as int, p.len() as int);
            assert(last_segment(p) =~= Seq::empty());
            assert(drop_segment(j) =~= drop_segment(p));
            drop_segment_shorter(p);
        }
    }
    assert(last_segment(j) =~= name);
}

/// Joining an entry name to a directory and taking the parent gives the
/// directory back, with its blank trailing segments trimmed; the file name
/// is the entry.
pub proof fn parent_of_joined(p: Seq<u8>, name: Seq<u8>)
    requires
        is_entry_name(name),
    ensures
        parent_of(joined(p, name)) == Some(normal_end(p)),
        same_path(normal_end(p), p),
        file_name_of(joined(p, name)) == Some(name),
{
    join_entry(p, name);
    components_of_normal_end(p);
}

/// Joining the parent of a path with its file name gives the path back.
pub proof fn joined_of_parent(p: Seq<u8>)
    requires
        parent_of(p) is Some,
        file_name_of(p) is Some,
    ensures
        same_path(joined(parent_of(p)->0, file_name_of(p)->0), p),
{
    let t = normal_end(p);
    let head = drop_segment(t);
    let name = last_segment(t);
    components_of_normal_end(p);
    components_of_normal_end(head);
    last_start_bounds(t, t.len() as int);
    parts_of_segment(name);
    parts_of_dropped(t);
    components_of_joined(normal_end(head), name);
    assert(components_of(t) =~= components_of(head).push(name));
}

/// Dropping the last segment of a body takes its component away, if it is
/// one, and nothing else.
proof fn parts_of_dropped(p: Seq<u8>)
    requires
        p.len() > base_len(p),
    ensures
        ({
            let b = base_len(p);
            let head = drop_segment(p);
            &&& base_len(head) == b
            &&& head.take(b) == p.take(b)
            &&& parts(p.skip(b)) == parts(head.skip(b)) + parts(last_segment(p))
        }),
{
    let b = base_len(p);
    let head = drop_segment(p);
    let s = last_start(p, p.len() as int);
    last_start_bounds(p, p.len() as int);
    if b == 1 && p[0] == DOT && s == 1 {
        assert(p[1] == SEP);
    }
    if s > b {
        assert(p[s - 1] == SEP);
        if b == 0 {
            assert(s - 1 > 0);
            assert(!(p[0] == DOT && p[1] == SEP));
        }
        assert(head[0] == p[0]);
        assert(p.skip(b) =~= head.skip(b).push(SEP) + last_segment(p));
        parts_around(head.skip(b), last_segment(p));
    } else {
        assert(head.skip(b) =~= Seq::empty());
        assert(p.skip(b) =~= last_segment(p));
        parts_of_segment(Seq::empty());
        assert(parts(Seq::empty()) + parts(last_segment(p)) =~= parts(last_segment(p)));
    }
    assert(head.take(b) =~= p.take(b));
}

/// Trimming changes no component.
proof fn components_of_normal_end(p: Seq<u8>)
    ensures
        components_of(normal_end(p)) == components_of(p),
        ({
            let t = normal_end(p);
            t.len() > base_len(t) ==> !is_blank(last_segment(t))
        }),
    decreases p.len(),
{
    drop_segment_shorter(p);
    if p.len() > base_len(p) && is_blank(last_segment(p)) {
        parts_of_dropped(p);
        last_start_bounds(p, p.len() as int);
        parts_of_segment(last_segment(p));
        components_of_normal_end(drop_segment(p));
        assert(components_of(drop_segment(p)) =~= components_of(p));
    }
}

proof fn split_around(a: Seq<u8>, b: Seq<u8>)
    ensures
        split(a.push(SEP) + b, SEP) == split(a, SEP) + split(b, SEP),
    decreases a.len(),
{
    let s = a.push(SEP) + b;
    find_props(a, SEP);
    let i = find(a, SEP);
    assert forall|j: int| 0 <= j < i implies s[j] != SEP by {
        assert(s[j] == a[j]);
    }
    find_is(s, SEP, i);
    assert(s.take(i) =~= a.take(i));
    if i < a.len() {
        split_around(a.skip(i + 1), b);
        assert(s.skip(i + 1) =~= a.skip(i + 1).push(SEP) + b);
        assert(split(s, SEP) =~= split(a, SEP) + split(b, SEP));
    } else {
        assert(a.take(i) =~= a);
        assert(s.skip(i + 1) =~= b);
    }
}

/// The components on both sides of a separator.
proof fn parts_around(a: Seq<u8>, b: Seq<u8>)
    ensures
        parts(a.push(SEP) + b) == parts(a) + parts(b),
{
    split_around(a, b);
    Seq::filter_distributes_over_add(
        split(a, SEP),
        split(b, SEP),
        |seg: Seq<u8>| is_part(seg),
    );
}

/// The components of a body without separators.
proof fn parts_of_segment(seg: Seq<u8>)
    requires
        forall|i: int| 0 <= i < seg.len() ==> seg[i] != SEP,
    ensures
        parts(seg) == if is_blank(seg) {
            Seq::<Seq<u8>>::empty()
        } else {
            seq![seg]
        },
{
    find_is(seg, SEP, seg.len() as int);
    assert(split(seg, SEP) =~= seq![seg]);
    let keep = |s: Seq<u8>| is_part(s);
    assert(Seq::<Seq<u8>>::empty().push(seg) =~= seq![seg]);
    Seq::<Seq<u8>>::empty().lemma_filter_push(seg, keep);
    reveal(Seq::filter);
    assert(Seq::<Seq<u8>>::empty().filter(keep) =~= Seq::empty());
    assert(parts(seg) =~= if is_blank(seg) {
        Seq::<Seq<u8>>::empty()
    } else {
        seq![seg]
    });
}

/// The first segment of a body and the rest.
proof fn parts_from_front(body: Seq<u8>)
    ensures
        parts(body) == parts(body.take(find(body, SEP))) + parts(after_segment(body)),
{
    find_props(body, SEP);
    let i = find(body, SEP);
    if i < body.len() {
        assert(body =~= body.take(i).push(SEP) + body.skip(i + 1));
        parts_around(body.take(i), body.skip(i + 1));
    } else {
        assert(body.take(i) =~= body);
        parts_of_segment(Seq::empty());
        assert(parts(body) + parts(Seq::empty()) =~= parts(body));
    }
}

proof fn first_segment_is_plain(body: Seq<u8>)
    ensures
        parts(body.take(find(body, SEP))) == if is_blank(body.take(find(body, SEP))) {
            Seq::<Seq<u8>>::empty()
        } else {
            seq![body.take(find(body, SEP))]
        },
{
    find_props(body, SEP);
    parts_of_segment(body.take(find(body, SEP)));
}

proof fn parts_of_normal_start(body: Seq<u8>)
    ensures
        parts(normal_start(body)) == parts(body),
        ({
            let r = normal_start(body);
            r.len() > 0 ==> !is_blank(r.take(find(r, SEP)))
        }),
    decreases body.len(),
{
    find_props(body, SEP);
    if body.len() > 0 && is_blank(body.take(find(body, SEP))) {
        parts_from_front(body);
        first_segment_is_plain(body);
        assert(parts(body) =~= parts(after_segment(body)));
        parts_of_normal_start(after_segment(body));
    }
}

proof fn parts_of_skipped(body: Seq<u8>, n: nat)
    requires
        n <= parts(body).len(),
    ensures
        parts(skip_parts(body, n)) == parts(body).skip(n as int),
        ({
            let r = skip_parts(body, n);
            r.len() > 0 ==> !is_blank(r.take(find(r, SEP)))
        }),
    decreases n,
{
    parts_of_normal_start(body);
    if n > 0 {
        let rest = normal_start(body);
        if rest.len() == 0 {
            parts_of_segment(rest);
        }
        parts_from_front(rest);
        first_segment_is_plain(rest);
        assert(parts(body).skip(1) =~= parts(after_segment(rest)));
        parts_of_skipped(after_segment(rest), (n - 1) as nat);
        assert(parts(body).skip(1).skip(n - 1) =~= parts(body).skip(n as int));
    } else {
        assert(parts(body).skip(0) =~= parts(body));
    }
}

/// A body whose first segment names something.
spec fn starts_named(body: Seq<u8>) -> bool {
    body.len() == 0 || (base_len(body) == 0 && body[0] != SEP)
}

proof fn parts_of_normal_end(body: Seq<u8>)
    requires
        starts_named(body),
    ensures
        parts(normal_end(body)) == parts(body),
        starts_named(normal_end(body)),
    decreases body.len(),
{
    drop_segment_shorter(body);
    if body.len() > 0 && is_blank(last_segment(body)) {
        last_start_bounds(body, body.len() as int);
        let s = last_start(body, body.len() as int);
        let head = drop_segment(body);
        parts_of_segment(last_segment(body));
        if s > 0 {
            assert(body =~= head.push(SEP) + last_segment(body));
            parts_around(head, last_segment(body));
            assert(parts(body) =~= parts(head));
            assert(body[s - 1] == SEP);
            assert(s - 1 > 0);
            assert(head[0] == body[0]);
            if head.len() > 1 {
                assert(head[1] == body[1]);
            } else {
                assert(body[1] == SEP);
            }
        } else {
            assert(body.skip(0) =~= body);
            assert(head =~= Seq::empty());
            parts_of_segment(head);
        }
        parts_of_normal_end(head);
    }
}

/// Putting what remains behind a prefix back below that prefix gives a path
/// with the components of the original one.
pub proof fn join_of_stripped(p: Seq<u8>, prefix: Seq<u8>)
    requires
        prefix.len() > 0,
        prefix[0] == SEP,
        stripped(p, prefix) is Some,
    ensures
        same_path(joined(prefix, stripped(p, prefix)->0), p),
{
    let n = components_of(prefix).len();
    let body = prefix.skip(1);
    assert(components_of(prefix) == seq![prefix.take(1)] + parts(body));
    assert(components_of(prefix)[0] == prefix.take(1));
    assert(components_of(prefix)[0] == components_of(p)[0]);
    assert(prefix.take(1)[0] == SEP);
    if base_len(p) == 0 {
        let keep = |seg: Seq<u8>| is_part(seg);
        assert(p.skip(0) =~= p);
        assert(components_of(p) =~= parts(p));
        segments_have_no_separator(p);
        split(p, SEP).lemma_filter_contains_rev(keep, components_of(p)[0]);
        assert(components_of(p).contains(components_of(p)[0]));
        assert(split(p, SEP).contains(components_of(p)[0]));
        assert(false);
    }
    assert(p.take(1)[0] == SEP);
    let q = p.skip(1);
    assert(components_of(p) == seq![p.take(1)] + parts(q));
    assert(p.take(1) =~= prefix.take(1));
    assert forall|i: int| 0 <= i < parts(body).len() implies parts(body)[i] == parts(q)[i] by {
        assert(components_of(prefix)[i + 1] == components_of(p)[i + 1]);
    }
    let m = (n - 1) as nat;
    assert(parts(q).take(m as int) =~= parts(body));
    parts_of_skipped(q, m);
    let rest = skip_parts(q, m);
    find_props(rest, SEP);
    if rest.len() > 0 {
        let first = rest.take(find(rest, SEP));
        if rest[0] == SEP {
            assert(first.len() == 0);
        }
        if base_len(rest) == 1 {
            if rest.len() == 1 {
                find_is(rest, SEP, 1);
            } else {
                find_is(rest, SEP, 1);
            }
            assert(first =~= seq![DOT]);
        }
    }
    parts_of_normal_end(rest);
    let tail = normal_end(rest);
    let j = joined(prefix, tail);
    assert(j[0] == SEP);
    assert(j.take(1) =~= prefix.take(1));
    if prefix.last() != SEP {
        assert(j.skip(1) =~= body.push(SEP) + tail);
        parts_around(body, tail);
    } else if prefix.len() == 1 {
        assert(j.skip(1) =~= tail);
        assert(body =~= Seq::empty());
        parts_of_segment(body);
        assert(parts(body) + parts(tail) =~= parts(tail));
    } else {
        let inner = body.drop_last();
        assert(body =~= inner.push(SEP) + Seq::<u8>::empty());
        assert(j.skip(1) =~= inner.push(SEP) + tail);
        parts_around(inner, tail);
        parts_around(inner, Seq::empty());
        parts_of_segment(Seq::empty());
        assert(parts(body) =~= parts(inner));
    }
    assert(parts(j.skip(1)) == parts(body) + parts(tail));
    assert(parts(q).take(m as int) + parts(q).skip(m as int) =~= parts(q));
    assert(components_of(j) =~= components_of(p));
}

/// One more name below a path is one more component.
pub proof fn components_of_joined(p: Seq<u8>, name: Seq<u8>)
    requires
        !is_blank(name),
        forall|i: int| 0 <= i < name.len() ==> name[i] != SEP,
    ensures
        components_of(joined(p, name)) == components_of(p).push(name),
        p.len() > 0 ==> joined(p, name)[0] == p[0],
{
    let q = joined(p, name);
    let b = base_len(p);
    let body = p.skip(b);
    assert(name[0] != SEP);
    parts_of_segment(name);
    parts_of_segment(Seq::empty());
    if p.len() == 0 {
        if name.len() == 1 && name[0] == DOT {
            assert(name =~= seq![DOT]);
        }
        assert(q =~= name);
        assert(q.skip(0) =~= q);
        assert(body =~= Seq::empty());
    } else {
        assert(q[0] == p[0]);
        assert(base_len(q) == b);
        assert(q.take(b) =~= p.take(b));
        if p.last() != SEP {
            parts_around(body, name);
            assert(q.skip(b) =~= body.push(SEP) + name);
        } else if p.len() == b {
            assert(body =~= Seq::empty());
            assert(q.skip(b) =~= name);
        } else {
            let inner = body.drop_last();
            parts_around(inner, Seq::empty());
            parts_around(inner, name);
            assert(body =~= inner.push(SEP) + Seq::<u8>::empty());
            assert(q.skip(b) =~= inner.push(SEP) + name);
            assert(parts(inner) + parts(Seq::empty()) =~= parts(inner));
        }
    }
    assert(components_of(q) =~= components_of(p).push(name));
}

proof fn components_of_below(start: Seq<u8>, names: Seq<Seq<u8>>)
    requires
        start.len() > 0,
        start[0] == SEP,
        forall|k: int|
            0 <= k < names.len() ==> !is_blank(#[trigger] names[k]) && (forall|i: int|
                0 <= i < names[k].len() ==> names[k][i] != SEP),
    ensures
        components_of(below(start, names)) == components_of(start) + names,
        below(start, names).len() > 0,
        below(start, names)[0] == SEP,
    decreases names.len(),
{
    if names.len() > 0 {
        let rest = names.drop_last();
        assert forall|k: int| 0 <= k < rest.len() implies !is_blank(#[trigger] rest[k]) && (forall|
            i: int,
        |
            0 <= i < rest[k].len() ==> rest[k][i] != SEP) by {
            assert(rest[k] == names[k]);
        }
        components_of_below(start, rest);
        assert(names.last() == names[names.len() - 1]);
        components_of_joined(below(start, rest), names.last());
        assert(components_of(start) + names =~= (components_of(start) + rest).push(names.last()));
    } else {
        assert(components_of(start) + names =~= components_of(start));
    }
}

/// A separator at the end changes no component.
pub proof fn components_of_trailing(p: Seq<u8>)
    requires
        p.len() > 0,
        p[0] == SEP,
    ensures
        components_of(joined(p, Seq::empty())) == components_of(p),
        joined(p, Seq::empty())[0] == SEP,
{
    let q = joined(p, Seq::empty());
    if p.last() != SEP {
        let body = p.skip(1);
        parts_of_segment(Seq::empty());
        parts_around(body, Seq::empty());
        assert(q.skip(1) =~= body.push(SEP) + Seq::<u8>::empty());
        assert(q.take(1) =~= p.take(1));
        assert(parts(body) + parts(Seq::empty()) =~= parts(body));
    } else {
        assert(q =~= p);
    }
}

/// No component is blank or holds a separator.
proof fn parts_are_names(body: Seq<u8>)
    ensures
        forall|k: int|
            0 <= k < parts(body).len() ==> !is_blank(#[trigger] parts(body)[k]) && (forall|i: int|
                0 <= i < parts(body)[k].len() ==> parts(body)[k][i] != SEP),
    decreases body.len(),
{
    find_props(body, SEP);
    let i = find(body, SEP);
    let first = body.take(i);
    parts_of_segment(first);
    parts_from_front(body);
    if i < body.len() {
        let rest = parts(after_segment(body));
        parts_are_names(after_segment(body));
        assert forall|k: int| 0 <= k < parts(body).len() implies !is_blank(
            #[trigger] parts(body)[k],
        ) && (forall|j: int| 0 <= j < parts(body)[k].len() ==> parts(body)[k][j] != SEP) by {
            if k >= parts(first).len() {
                assert(parts(body)[k] == rest[k - parts(first).len()]);
            }
        }
    } else {
        assert(first =~= body);
    }
}

/// What is made absolute is absolute, and denotes the same path: the
/// components of an absolute path stay, and those of another come behind the
/// components of the working directory.
pub proof fn absolute_is_the_same_path(p: Seq<u8>, cwd: Seq<u8>)
    requires
        p.len() > 0,
        cwd.len() > 0,
        cwd[0] == SEP,
    ensures
        absolute_path(p, Some(cwd)).len() > 0,
        absolute_path(p, Some(cwd))[0] == SEP,
        p[0] == SEP ==> same_path(absolute_path(p, Some(cwd)), p),
        p[0] != SEP ==> components_of(absolute_path(p, Some(cwd))) == components_of(cwd) + parts(
            p.skip(base_len(p)),
        ),
{
    let body = p.skip(base_len(p));
    let names = parts(body);
    parts_are_names(body);
    let start = if p[0] != SEP {
        cwd
    } else if p.len() > 1 && p[1] == SEP && !(p.len() > 2 && p[2] == SEP) {
        seq![SEP, SEP]
    } else {
        seq![SEP]
    };
    components_of_below(start, names);
    let path = below(start, names);
    if p.last() == SEP {
        components_of_trailing(path);
    }
    if p[0] == SEP {
        parts_of_segment(Seq::empty());
        parts_around(Seq::empty(), Seq::empty());
        assert(seq![SEP].skip(1) =~= Seq::empty());
        assert(seq![SEP, SEP].skip(1) =~= Seq::<u8>::empty().push(SEP) + Seq::<u8>::empty());
        assert(components_of(start) =~= seq![p.take(1)]) by {
            assert(start.take(1) =~= p.take(1));
        }
        assert(components_of(p) =~= components_of(start) + names);
    }
}

proof fn segments_have_no_separator(s: Seq<u8>)
    ensures
        forall|seg: Seq<u8>| #[trigger]
            split(s, SEP).contains(seg) ==> (forall|i: int|
                0 <= i < seg.len() ==> seg[i] != SEP),
    decreases s.len(),
{
    find_props(s, SEP);
    let i = find(s, SEP);
    if i < s.len() {
        segments_have_no_separator(s.skip(i + 1));
        assert forall|seg: Seq<u8>| #[trigger] split(s, SEP).contains(seg) implies (forall|k: int|
            0 <= k < seg.len() ==> seg[k] != SEP) by {
            let k = split(s, SEP).index_of(seg);
            if k > 0 {
                assert(split(s.skip(i + 1), SEP)[k - 1] == seg);
                assert(split(s.skip(i + 1), SEP).contains(seg));
            }
        }
    }
}

/// A child is put behind a separator, unless there is one already or nothing
/// stands before it; an absolute path stands for itself.
pub proof fn children_are_behind_a_separator(p: Seq<u8>, child: Seq<u8>)
    ensures
        child.len() > 0 && child[0] == 0x2F ==> joined(p, child) == child,
        !(child.len() > 0 && child[0] == 0x2F) ==> {
            &&& p.len() > 0 && p.last() != 0x2F ==> joined(p, child) == p + seq![0x2Fu8] + child
            &&& p.len() == 0 || p.last() == 0x2F ==> joined(p, child) == p + child
        },
{
    assert(p.push(SEP) =~= p + seq![0x2Fu8]);
}

proof fn last_dot_is(name: Seq<u8>, d: int)
    requires
        -1 <= d < name.len(),
        d >= 0 ==> name[d] == DOT,
        forall|j: int| d < j < name.len() ==> name[j] != DOT,
    ensures
        last_dot(name) == d,
    decreases name.len(),
{
    if name.len() > 0 && d < name.len() - 1 {
        assert(name.last() != DOT);
        last_dot_is(name.drop_last(), d);
    }
}

/// The extension stands behind the last dot of a name, if something stands
/// before it; the stem is what stands before. A name without such a dot is
/// all stem.
pub proof fn extensions_are_behind_the_last_dot(stem: Seq<u8>, ext: Seq<u8>)
    requires
        !ext.contains(0x2E),
    ensures
        stem.len() > 0 ==> name_extension(stem + seq![0x2Eu8] + ext) == Some(ext) && name_stem(
            stem + seq![0x2Eu8] + ext,
        ) == stem,
        name_extension(ext) is None && name_stem(ext) == ext,
        name_extension(seq![0x2Eu8] + ext) is None && name_stem(seq![0x2Eu8] + ext)
            == seq![0x2Eu8] + ext,
{
    let name = stem + seq![0x2Eu8] + ext;
    let d = stem.len() as int;
    assert forall|j: int| d < j < name.len() implies name[j] != DOT by {
        assert(name[j] == ext[j - d - 1]);
        assert(ext.contains(ext[j - d - 1]));
    }
    last_dot_is(name, d);
    assert(name.take(d) =~= stem);
    assert(name.skip(d + 1) =~= ext);
    assert forall|j: int| 0 <= j < ext.len() implies ext[j] != DOT by {
        assert(ext.contains(ext[j]));
    }
    last_dot_is(ext, -1);
    let hidden = seq![0x2Eu8] + ext;
    assert forall|j: int| 0 < j < hidden.len() implies hidden[j] != DOT by {
        assert(hidden[j] == ext[j - 1]);
        assert(ext.contains(ext[j - 1]));
    }
    last_dot_is(hidden, 0);
}

} // verus!
