//! Text primitives shared by every parser and formatter in the crate.
//!
//! Parsing works on slices of characters, and every function here is stated
//! against a small spec function on `Seq<char>` (or `Seq<u8>` for the byte
//! variants), so that the grammars built on top of them stay readable.
use vstd::prelude::*;
use vstd::slice::{slice_subrange, slice_to_vec};
use vstd::string::*;
use vstd::utf8::*;

verus! {

/// `String::push` appends one character.
pub assume_specification[ String::push ](s: &mut String, c: char)
    ensures
        final(s)@ == old(s)@.push(c),
;

// ---------------------------------------------------------------------------
// Conversions
// ---------------------------------------------------------------------------

/// The views of a list of strings.
pub open spec fn texts(v: Seq<String>) -> Seq<Seq<char>> {
    Seq::new(v.len(), |i: int| v[i]@)
}

/// The views of a list of character rows.
pub open spec fn rows(v: Seq<Vec<char>>) -> Seq<Seq<char>> {
    Seq::new(v.len(), |i: int| v[i]@)
}

/// The view of an optional string.
pub open spec fn opt_text(o: Option<String>) -> Option<Seq<char>> {
    match o {
        Some(s) => Some(s@),
        None => None,
    }
}

/// The characters of `s`.
pub fn chars_of(s: &str) -> (r: Vec<char>)
    ensures
        r@ == s@,
{
    let mut out: Vec<char> = Vec::new();
    for c in it: s.chars()
        invariant
            out@ == it.seq().take(it.index() as int),
            it.seq() == s@,
    {
        out.push(c);
    }
    out
}

/// A string holding exactly `cs`.
pub fn string_of(cs: &[char]) -> (r: String)
    ensures
        r@ == cs@,
{
    let mut out = String::new();
    for i in 0..cs.len()
        invariant
            out@ == cs@.take(i as int),
    {
        out.push(cs[i]);
    }
    assert(cs@.take(cs@.len() as int) =~= cs@);
    out
}

/// A copy of `s`.
pub fn copy_of(s: &str) -> (r: String)
    ensures
        r@ == s@,
{
    s.to_owned()
}

/// Clones an optional string.
pub fn copy_opt(s: &Option<String>) -> (r: Option<String>)
    ensures
        opt_text(r) == opt_text(*s),
{
    match s {
        Some(t) => Some(t.clone()),
        None => None,
    }
}

/// Clones a list of strings.
pub fn copy_texts(v: &Vec<String>) -> (r: Vec<String>)
    ensures
        texts(r@) == texts(v@),
{
    let mut out: Vec<String> = Vec::new();
    for i in 0..v.len()
        invariant
            out@.len() == i,
            forall|j: int| 0 <= j < i ==> (#[trigger] out@[j])@ == v@[j]@,
    {
        out.push(v[i].clone());
    }
    assert(texts(out@) =~= texts(v@));
    out
}

/// The UTF-8 bytes of `s`.
pub fn bytes_of(s: &str) -> (r: Vec<u8>)
    ensures
        r@ == encode_utf8(s@),
{
    let b = s.as_bytes();
    slice_to_vec(b)
}

/// A copy of `b`.
pub fn copy_bytes(b: &[u8]) -> (r: Vec<u8>)
    ensures
        r@ == b@,
{
    slice_to_vec(b)
}

/// The concatenation of two byte strings.
pub fn concat_bytes(a: &[u8], b: &[u8]) -> (r: Vec<u8>)
    ensures
        r@ == a@ + b@,
{
    let mut out = slice_to_vec(a);
    for i in 0..b.len()
        invariant
            out@ == a@ + b@.take(i as int),
    {
        out.push(b[i]);
        assert(a@ + b@.take(i + 1) =~= (a@ + b@.take(i as int)).push(b@[i as int]));
    }
    assert(b@.take(b@.len() as int) =~= b@);
    out
}

/// What `String::from_utf8_lossy` makes of a byte string.
pub uninterp spec fn utf8_lossy(bytes: Seq<u8>) -> Seq<char>;

/// `String::from_utf8_lossy`: the decoded text of valid UTF-8, and text with
/// replacement characters for anything else. Which characters come out for
/// invalid input is left to the name `utf8_lossy`.
#[verifier::external_body]
fn from_utf8_lossy(bytes: &[u8]) -> (r: String)
    ensures
        r@ == utf8_lossy(bytes@),
        valid_utf8(bytes@) ==> r@ == decode_utf8(bytes@),
{
    String::from_utf8_lossy(bytes).into_owned()
}

/// The text form of a byte string: its decoding where it is UTF-8, and
/// otherwise text with replacement characters.
pub open spec fn shown(bytes: Seq<u8>) -> Seq<char> {
    if valid_utf8(bytes) {
        decode_utf8(bytes)
    } else {
        utf8_lossy(bytes)
    }
}

/// The text form of a byte string, for display only.
pub fn lossy(bytes: &[u8]) -> (r: String)
    ensures
        r@ == shown(bytes@),
{
    from_utf8_lossy(bytes)
}

/// `String::from_utf8`: the decoded text exactly when `bytes` is valid UTF-8.
#[verifier::external_body]
fn from_utf8(bytes: &[u8]) -> (r: Option<String>)
    ensures
        r is Some <==> valid_utf8(bytes@),
        r is Some ==> r->0@ == decode_utf8(bytes@),
{
    String::from_utf8(bytes.to_vec()).ok()
}

/// The text encoded by `bytes`, if they are valid UTF-8.
pub open spec fn decoded(bytes: Seq<u8>) -> Option<Seq<char>> {
    if valid_utf8(bytes) {
        Some(decode_utf8(bytes))
    } else {
        None
    }
}

/// Decodes `bytes` as UTF-8.
pub fn decode(bytes: &[u8]) -> (r: Option<String>)
    ensures
        opt_text(r) == decoded(bytes@),
{
    from_utf8(bytes)
}

/// Decoding what `encode_utf8` produced gives the text back.
pub proof fn decode_of_encode(s: Seq<char>)
    ensures
        decoded(encode_utf8(s)) == Some(s),
{
    encode_utf8_valid_utf8(s);
    encode_utf8_decode_utf8(s);
}

// ---------------------------------------------------------------------------
// Comparing
// ---------------------------------------------------------------------------

/// Whether `cs` is exactly the text `s`.
pub fn is_text(cs: &[char], s: &str) -> (r: bool)
    ensures
        r == (cs@ == s@),
{
    let t = chars_of(s);
    same_chars(cs, t.as_slice())
}

/// Whether two character slices are equal.
pub fn same_chars(a: &[char], b: &[char]) -> (r: bool)
    ensures
        r == (a@ == b@),
{
    if a.len() != b.len() {
        return false;
    }
    for i in 0..a.len()
        invariant
            a@.len() == b@.len(),
            forall|j: int| 0 <= j < i ==> a@[j] == b@[j],
    {
        if a[i] != b[i] {
            return false;
        }
    }
    assert(a@ =~= b@);
    true
}

/// Whether two byte slices are equal.
pub fn same_bytes(a: &[u8], b: &[u8]) -> (r: bool)
    ensures
        r == (a@ == b@),
{
    if a.len() != b.len() {
        return false;
    }
    for i in 0..a.len()
        invariant
            a@.len() == b@.len(),
            forall|j: int| 0 <= j < i ==> a@[j] == b@[j],
    {
        if a[i] != b[i] {
            return false;
        }
    }
    assert(a@ =~= b@);
    true
}

/// Whether two strings hold the same text.
pub fn same_text(a: &str, b: &str) -> (r: bool)
    ensures
        r == (a@ == b@),
{
    let x = chars_of(a);
    is_text(x.as_slice(), b)
}

/// Whether two optional strings are equal.
pub fn same_opt(a: &Option<String>, b: &Option<String>) -> (r: bool)
    ensures
        r == (opt_text(*a) == opt_text(*b)),
{
    match (a, b) {
        (Some(x), Some(y)) => same_text(x.as_str(), y.as_str()),
        (None, None) => true,
        _ => false,
    }
}

/// Whether `list` holds the text `s`.
pub fn has_text(list: &Vec<String>, s: &str) -> (r: bool)
    ensures
        r == texts(list@).contains(s@),
{
    for i in 0..list.len()
        invariant
            forall|j: int| 0 <= j < i ==> texts(list@)[j] != s@,
    {
        if same_text(list[i].as_str(), s) {
            assert(texts(list@)[i as int] == s@);
            return true;
        }
    }
    false
}

/// Whether `cs` starts with the text `p`.
pub fn has_prefix(cs: &[char], p: &str) -> (r: bool)
    ensures
        r == p@.is_prefix_of(cs@),
{
    let t = chars_of(p);
    if t.len() > cs.len() {
        return false;
    }
    let head = slice_subrange(cs, 0, t.len());
    same_chars(t.as_slice(), head)
}

/// Whether `cs` ends with the text `p`.
pub fn has_suffix(cs: &[char], p: &str) -> (r: bool)
    ensures
        r == p@.is_suffix_of(cs@),
{
    let t = chars_of(p);
    if t.len() > cs.len() {
        return false;
    }
    let tail = slice_subrange(cs, cs.len() - t.len(), cs.len());
    same_chars(t.as_slice(), tail)
}

/// Whether the byte string `b` starts with the bytes `p`.
pub fn has_byte_prefix(b: &[u8], p: &[u8]) -> (r: bool)
    ensures
        r == p@.is_prefix_of(b@),
{
    if p.len() > b.len() {
        return false;
    }
    same_bytes(p, slice_subrange(b, 0, p.len()))
}

// ---------------------------------------------------------------------------
// White space
// ---------------------------------------------------------------------------

/// The characters with the Unicode property `White_Space`.
pub open spec fn is_space(c: char) -> bool {
    let n = c as u32;
    ||| 0x9 <= n <= 0xD
    ||| n == 0x20
    ||| n == 0x85
    ||| n == 0xA0
    ||| n == 0x1680
    ||| 0x2000 <= n <= 0x200A
    ||| n == 0x2028
    ||| n == 0x2029
    ||| n == 0x202F
    ||| n == 0x205F
    ||| n == 0x3000
}

/// Decides [`is_space`].
pub fn is_white_space(c: char) -> (r: bool)
    ensures
        r == is_space(c),
{
    let n = c as u32;
    (0x9 <= n && n <= 0xD) || n == 0x20 || n == 0x85 || n == 0xA0 || n == 0x1680 || (0x2000 <= n
        && n <= 0x200A) || n == 0x2028 || n == 0x2029 || n == 0x202F || n == 0x205F || n == 0x3000
}

/// `s` without its leading white space.
pub open spec fn trimmed_start(s: Seq<char>) -> Seq<char>
    decreases s.len(),
{
    if s.len() > 0 && is_space(s[0]) {
        trimmed_start(s.skip(1))
    } else {
        s
    }
}

/// `s` without its trailing white space.
pub open spec fn trimmed_end(s: Seq<char>) -> Seq<char>
    decreases s.len(),
{
    if s.len() > 0 && is_space(s.last()) {
        trimmed_end(s.drop_last())
    } else {
        s
    }
}

/// `s` without white space at either end.
pub open spec fn trimmed(s: Seq<char>) -> Seq<char> {
    trimmed_end(trimmed_start(s))
}

/// Drops leading white space.
pub fn trim_start(cs: &[char]) -> (r: &[char])
    ensures
        r@ == trimmed_start(cs@),
        r@.len() <= cs@.len(),
{
    let mut i: usize = 0;
    assert(cs@.skip(0) =~= cs@);
    while i < cs.len() && is_white_space(cs[i])
        invariant
            i <= cs@.len(),
            trimmed_start(cs@) == trimmed_start(cs@.skip(i as int)),
        decreases cs@.len() - i,
    {
        assert(cs@.skip(i as int).skip(1) =~= cs@.skip(i + 1));
        i = i + 1;
    }
    slice_subrange(cs, i, cs.len())
}

/// Drops trailing white space.
pub fn trim_end(cs: &[char]) -> (r: &[char])
    ensures
        r@ == trimmed_end(cs@),
        r@.len() <= cs@.len(),
{
    let mut i: usize = cs.len();
    assert(cs@.take(cs@.len() as int) =~= cs@);
    while i > 0 && is_white_space(cs[i - 1])
        invariant
            i <= cs@.len(),
            trimmed_end(cs@) == trimmed_end(cs@.take(i as int)),
        decreases i,
    {
        assert(cs@.take(i as int).drop_last() =~= cs@.take(i - 1));
        i = i - 1;
    }
    slice_subrange(cs, 0, i)
}

/// Drops white space at either end.
pub fn trim(cs: &[char]) -> (r: &[char])
    ensures
        r@ == trimmed(cs@),
        r@.len() <= cs@.len(),
{
    trim_end(trim_start(cs))
}

// ---------------------------------------------------------------------------
// Searching and splitting
// ---------------------------------------------------------------------------

/// The index of the first `c` in `s`, or `s.len()` if there is none.
pub open spec fn find<T>(s: Seq<T>, c: T) -> int
    decreases s.len(),
{
    if s.len() == 0 || s[0] == c {
        0
    } else {
        1 + find(s.skip(1), c)
    }
}

/// The defining property of [`find`].
pub proof fn find_props<T>(s: Seq<T>, c: T)
    ensures
        0 <= find(s, c) <= s.len(),
        find(s, c) < s.len() ==> s[find(s, c)] == c,
        forall|j: int| 0 <= j < find(s, c) ==> s[j] != c,
        s.contains(c) <==> find(s, c) < s.len(),
    decreases s.len(),
{
    if s.len() == 0 || s[0] == c {
    } else {
        find_props(s.skip(1), c);
        assert forall|j: int| 0 <= j < find(s, c) implies s[j] != c by {
            if j > 0 {
                assert(s[j] == s.skip(1)[j - 1]);
            }
        }
        if s.contains(c) {
            let k = choose|k: int| 0 <= k < s.len() && s[k] == c;
            assert(s.skip(1)[k - 1] == c);
        }
    }
}

/// Any index with the property of [`find`] is the result of [`find`].
pub proof fn find_is<T>(s: Seq<T>, c: T, i: int)
    requires
        0 <= i <= s.len(),
        i < s.len() ==> s[i] == c,
        forall|j: int| 0 <= j < i ==> s[j] != c,
    ensures
        find(s, c) == i,
{
    find_props(s, c);
    let f = find(s, c);
    if f < i {
        assert(s[f] != c);
    }
    if i < f {
        assert(s[i] != c);
    }
}

/// Searches for the first `c`.
pub fn find_char(cs: &[char], c: char) -> (r: usize)
    ensures
        r == find(cs@, c),
        r <= cs@.len(),
        r < cs@.len() ==> cs@[r as int] == c,
        forall|j: int| 0 <= j < r ==> cs@[j] != c,
{
    let mut i: usize = 0;
    while i < cs.len() && cs[i] != c
        invariant
            i <= cs@.len(),
            forall|j: int| 0 <= j < i ==> cs@[j] != c,
        decreases cs@.len() - i,
    {
        i = i + 1;
    }
    proof {
        find_is(cs@, c, i as int);
    }
    i
}

/// Searches for the first byte `c`.
pub fn find_byte(b: &[u8], c: u8) -> (r: usize)
    ensures
        r == find(b@, c),
        r <= b@.len(),
        r < b@.len() ==> b@[r as int] == c,
        forall|j: int| 0 <= j < r ==> b@[j] != c,
{
    let mut i: usize = 0;
    while i < b.len() && b[i] != c
        invariant
            i <= b@.len(),
            forall|j: int| 0 <= j < i ==> b@[j] != c,
        decreases b@.len() - i,
    {
        i = i + 1;
    }
    proof {
        find_is(b@, c, i as int);
    }
    i
}

/// The index of the last `c` in `s`, or `-1` if there is none.
pub open spec fn rfind<T>(s: Seq<T>, c: T) -> int
    decreases s.len(),
{
    if s.len() == 0 || s.last() == c {
        s.len() - 1
    } else {
        rfind(s.drop_last(), c)
    }
}

/// The defining property of [`rfind`].
pub proof fn rfind_props<T>(s: Seq<T>, c: T)
    ensures
        -1 <= rfind(s, c) < s.len(),
        rfind(s, c) >= 0 ==> s[rfind(s, c)] == c,
        forall|j: int| rfind(s, c) < j < s.len() ==> s[j] != c,
    decreases s.len(),
{
    if s.len() > 0 && s.last() != c {
        rfind_props(s.drop_last(), c);
        assert forall|j: int| rfind(s, c) < j < s.len() implies s[j] != c by {
            if j < s.len() - 1 {
                assert(s[j] == s.drop_last()[j]);
            }
        }
    }
}

/// Any index with the property of [`rfind`] is the result of [`rfind`].
pub proof fn rfind_is<T>(s: Seq<T>, c: T, i: int)
    requires
        -1 <= i < s.len(),
        i >= 0 ==> s[i] == c,
        forall|j: int| i < j < s.len() ==> s[j] != c,
    ensures
        rfind(s, c) == i,
{
    rfind_props(s, c);
    let f = rfind(s, c);
    if f < i {
        assert(s[i] != c);
    }
    if i < f {
        assert(s[f] != c);
    }
}

/// Searches for the last `c`.
pub fn rfind_char(cs: &[char], c: char) -> (r: Option<usize>)
    ensures
        r is Some <==> rfind(cs@, c) >= 0,
        r is Some ==> r->0 == rfind(cs@, c) && r->0 < cs@.len(),
{
    let mut i: usize = cs.len();
    assert(cs@.take(cs@.len() as int) =~= cs@);
    while i > 0 && cs[i - 1] != c
        invariant
            i <= cs@.len(),
            rfind(cs@, c) == rfind(cs@.take(i as int), c),
        decreases i,
    {
        assert(cs@.take(i as int).drop_last() =~= cs@.take(i - 1));
        i = i - 1;
    }
    if i > 0 {
        Some(i - 1)
    } else {
        None
    }
}

/// The index of the first occurrence of `p` in `s`, or `s.len()` if there is
/// none. `p` is not empty.
pub open spec fn find_sub(s: Seq<char>, p: Seq<char>) -> int
    decreases s.len(),
{
    if p.is_prefix_of(s) || s.len() == 0 {
        0
    } else {
        1 + find_sub(s.skip(1), p)
    }
}

/// The defining property of [`find_sub`].
pub proof fn find_sub_props(s: Seq<char>, p: Seq<char>)
    requires
        p.len() > 0,
    ensures
        0 <= find_sub(s, p) <= s.len(),
        find_sub(s, p) < s.len() ==> p.is_prefix_of(s.skip(find_sub(s, p))) && find_sub(s, p)
            + p.len() <= s.len(),
        forall|j: int| 0 <= j < find_sub(s, p) ==> !p.is_prefix_of(#[trigger] s.skip(j)),
    decreases s.len(),
{
    assert(s.skip(0) =~= s);
    if !p.is_prefix_of(s) && s.len() > 0 {
        find_sub_props(s.skip(1), p);
        let f = find_sub(s.skip(1), p);
        assert(s.skip(1).skip(f) =~= s.skip(f + 1));
        assert forall|j: int| 0 <= j < find_sub(s, p) implies !p.is_prefix_of(
            #[trigger] s.skip(j),
        ) by {
            if j > 0 {
                assert(s.skip(1).skip(j - 1) =~= s.skip(j));
            }
        }
    }
}

/// Any index with the property of [`find_sub`] is its result.
pub proof fn find_sub_is(s: Seq<char>, p: Seq<char>, i: int)
    requires
        p.len() > 0,
        0 <= i <= s.len(),
        i < s.len() ==> p.is_prefix_of(s.skip(i)),
        forall|j: int| 0 <= j < i ==> !p.is_prefix_of(#[trigger] s.skip(j)),
    ensures
        find_sub(s, p) == i,
{
    find_sub_props(s, p);
    let f = find_sub(s, p);
    if f < i {
        assert(!p.is_prefix_of(s.skip(f)));
    }
    if i < f {
        assert(!p.is_prefix_of(s.skip(i)));
    }
}

/// Searches for the first occurrence of the non-empty text `p`.
pub fn find_text(cs: &[char], p: &str) -> (r: usize)
    requires
        p@.len() > 0,
    ensures
        r == find_sub(cs@, p@),
        r <= cs@.len(),
        r < cs@.len() ==> r + p@.len() <= cs@.len(),
{
    let mut i: usize = 0;
    while i < cs.len() && !has_prefix(slice_subrange(cs, i, cs.len()), p)
        invariant
            i <= cs@.len(),
            forall|j: int| 0 <= j < i ==> !p@.is_prefix_of(#[trigger] cs@.skip(j)),
        decreases cs@.len() - i,
    {
        assert(cs@.skip(i as int) =~= cs@.subrange(i as int, cs@.len() as int));
        i = i + 1;
    }
    proof {
        assert(cs@.skip(i as int) =~= cs@.subrange(i as int, cs@.len() as int));
        find_sub_is(cs@, p@, i as int);
        find_sub_props(cs@, p@);
    }
    i
}

/// `s` cut at the first `c`, which belongs to neither half.
pub open spec fn cut(s: Seq<char>, c: char) -> Option<(Seq<char>, Seq<char>)> {
    let i = find(s, c);
    if i < s.len() {
        Some((s.take(i), s.skip(i + 1)))
    } else {
        None
    }
}

/// The views of the two halves of a cut.
pub open spec fn cut_view(o: Option<(&[char], &[char])>) -> Option<(Seq<char>, Seq<char>)> {
    match o {
        Some((a, b)) => Some((a@, b@)),
        None => None,
    }
}

/// A text is cut around the first `c` in it, and a text without `c` is not
/// cut.
pub proof fn cuts_are_at_the_first(a: Seq<char>, c: char, b: Seq<char>)
    requires
        !a.contains(c),
    ensures
        cut(a + seq![c] + b, c) == Some((a, b)),
        cut(a, c) is None,
{
    let s = a + seq![c] + b;
    find_is(s, c, a.len() as int);
    find_is(a, c, a.len() as int);
    assert(s.take(a.len() as int) =~= a);
    assert(s.skip(a.len() as int + 1) =~= b);
}

/// Cuts at the first `c`.
pub fn split_once<'a>(cs: &'a [char], c: char) -> (r: Option<(&'a [char], &'a [char])>)
    ensures
        cut_view(r) == cut(cs@, c),
{
    let i = find_char(cs, c);
    if i < cs.len() {
        Some((slice_subrange(cs, 0, i), slice_subrange(cs, i + 1, cs.len())))
    } else {
        None
    }
}

/// The pieces of `s` between the occurrences of `c`; always at least one.
pub open spec fn split<T>(s: Seq<T>, c: T) -> Seq<Seq<T>>
    decreases s.len(),
{
    proof {
        find_props(s, c);
    }
    let i = find(s, c);
    if i >= s.len() {
        seq![s]
    } else {
        seq![s.take(i)] + split(s.skip(i + 1), c)
    }
}

/// Splits at every `c`.
pub fn split_on(cs: &[char], c: char) -> (r: Vec<Vec<char>>)
    ensures
        rows(r@) == split(cs@, c),
{
    let mut out: Vec<Vec<char>> = Vec::new();
    let mut start: usize = 0;
    assert(cs@.skip(0) =~= cs@);
    assert(rows(out@) + split(cs@, c) =~= split(cs@, c));
    loop
        invariant_except_break
            start <= cs@.len(),
            split(cs@, c) == rows(out@) + split(cs@.skip(start as int), c),
        ensures
            rows(out@) == split(cs@, c),
        decreases cs@.len() + 1 - start,
    {
        let rest = slice_subrange(cs, start, cs.len());
        assert(rest@ =~= cs@.skip(start as int));
        let i = find_char(rest, c);
        let ghost before = rows(out@);
        let piece = slice_to_vec(slice_subrange(rest, 0, i));
        out.push(piece);
        assert(rows(out@) =~= before.push(rest@.take(i as int)));
        if i == rest.len() {
            assert(rest@.take(i as int) =~= rest@);
            assert(before + seq![rest@] =~= rows(out@));
            break;
        }
        proof {
            assert(rest@.skip(i + 1) =~= cs@.skip(start + i + 1));
            assert(before + (seq![rest@.take(i as int)] + split(rest@.skip(i + 1), c))
                =~= rows(out@) + split(cs@.skip(start + i + 1), c));
        }
        start = start + i + 1;
    }
    out
}

/// The views of a list of byte strings.
pub open spec fn byte_rows(v: Seq<Vec<u8>>) -> Seq<Seq<u8>> {
    Seq::new(v.len(), |i: int| v[i]@)
}

/// Splits a byte string at every `c`.
pub fn split_bytes(b: &[u8], c: u8) -> (r: Vec<Vec<u8>>)
    ensures
        byte_rows(r@) == split(b@, c),
{
    let mut out: Vec<Vec<u8>> = Vec::new();
    let mut start: usize = 0;
    assert(b@.skip(0) =~= b@);
    assert(byte_rows(out@) + split(b@, c) =~= split(b@, c));
    loop
        invariant_except_break
            start <= b@.len(),
            split(b@, c) == byte_rows(out@) + split(b@.skip(start as int), c),
        ensures
            byte_rows(out@) == split(b@, c),
        decreases b@.len() + 1 - start,
    {
        let rest = slice_subrange(b, start, b.len());
        assert(rest@ =~= b@.skip(start as int));
        let i = find_byte(rest, c);
        let ghost before = byte_rows(out@);
        let piece = slice_to_vec(slice_subrange(rest, 0, i));
        out.push(piece);
        assert(byte_rows(out@) =~= before.push(rest@.take(i as int)));
        if i == rest.len() {
            assert(rest@.take(i as int) =~= rest@);
            assert(before + seq![rest@] =~= byte_rows(out@));
            break;
        }
        proof {
            assert(rest@.skip(i + 1) =~= b@.skip(start + i + 1));
            assert(before + (seq![rest@.take(i as int)] + split(rest@.skip(i + 1), c))
                =~= byte_rows(out@) + split(b@.skip(start + i + 1), c));
        }
        start = start + i + 1;
    }
    out
}

/// A line without a carriage return at its end.
pub open spec fn without_cr(s: Seq<char>) -> Seq<char> {
    if s.len() > 0 && s.last() == '\r' {
        s.drop_last()
    } else {
        s
    }
}

/// The lines of a text: each ends at `\n` or `\r\n`, the last one may end
/// with the text.
pub open spec fn lines(s: Seq<char>) -> Seq<Seq<char>>
    decreases s.len(),
{
    proof {
        find_props(s, '\n');
    }
    let i = find(s, '\n');
    if s.len() == 0 {
        Seq::empty()
    } else if i >= s.len() {
        seq![s]
    } else {
        seq![without_cr(s.take(i))] + lines(s.skip(i + 1))
    }
}

/// A line that ends with `\n`, alone.
pub proof fn lines_of_one(line: Seq<char>)
    requires
        !line.contains('\n'),
        line.len() == 0 || line.last() != '\r',
    ensures
        lines(line + seq!['\n']) == seq![line],
{
    let s = line + seq!['\n'];
    assert forall|j: int| 0 <= j < line.len() implies s[j] != '\n' by {
        assert(line.contains(line[j]));
    }
    find_is(s, '\n', line.len() as int);
    assert(s.take(line.len() as int) =~= line);
    assert(s.skip(line.len() as int + 1) =~= Seq::empty());
    assert(lines(Seq::empty()) =~= Seq::empty());
    assert(lines(s) =~= seq![without_cr(line)]);
}

/// The lines of two texts, the first of which ends with a line.
pub proof fn lines_of_joined(a: Seq<char>, b: Seq<char>)
    requires
        a.len() == 0 || a.last() == '\n',
    ensures
        lines(a + b) == lines(a) + lines(b),
    decreases a.len(),
{
    if a.len() == 0 {
        assert(a + b =~= b);
        assert(lines(a) + lines(b) =~= lines(b));
    } else {
        find_props(a, '\n');
        let i = find(a, '\n');
        assert(a.last() == '\n');
        assert(i < a.len());
        let s = a + b;
        assert forall|j: int| 0 <= j < i implies s[j] != '\n' by {
            assert(s[j] == a[j]);
        }
        find_is(s, '\n', i);
        assert(s.take(i) =~= a.take(i));
        assert(s.skip(i + 1) =~= a.skip(i + 1) + b);
        lines_of_joined(a.skip(i + 1), b);
        assert(lines(s) =~= lines(a) + lines(b));
    }
}

/// Splits a text into lines.
pub fn lines_of(cs: &[char]) -> (r: Vec<Vec<char>>)
    ensures
        rows(r@) == lines(cs@),
{
    let mut out: Vec<Vec<char>> = Vec::new();
    let mut start: usize = 0;
    assert(cs@.skip(0) =~= cs@);
    assert(rows(out@) + lines(cs@) =~= lines(cs@));
    while start < cs.len()
        invariant
            start <= cs@.len(),
            lines(cs@) == rows(out@) + lines(cs@.skip(start as int)),
        decreases cs@.len() - start,
    {
        let rest = slice_subrange(cs, start, cs.len());
        assert(rest@ =~= cs@.skip(start as int));
        let i = find_char(rest, '\n');
        let ghost before = rows(out@);
        if i == rest.len() {
            out.push(slice_to_vec(rest));
            assert(rows(out@) =~= before.push(rest@));
            assert(cs@.skip(cs@.len() as int).len() == 0);
            assert(before + seq![rest@] =~= rows(out@) + lines(cs@.skip(cs@.len() as int)));
            start = cs.len();
        } else {
            let line = slice_subrange(rest, 0, i);
            let line = if i > 0 && line[i - 1] == '\r' {
                slice_subrange(line, 0, i - 1)
            } else {
                line
            };
            assert(line@ =~= without_cr(rest@.take(i as int)));
            out.push(slice_to_vec(line));
            assert(rows(out@) =~= before.push(line@));
            proof {
                assert(rest@.skip(i + 1) =~= cs@.skip(start + i + 1));
                assert(before + (seq![line@] + lines(rest@.skip(i + 1))) =~= rows(out@) + lines(
                    cs@.skip(start + i + 1),
                ));
            }
            start = start + i + 1;
        }
    }
    assert(cs@.skip(start as int).len() == 0);
    assert(rows(out@) + lines(cs@.skip(start as int)) =~= rows(out@));
    out
}

// ---------------------------------------------------------------------------
// Numbers
// ---------------------------------------------------------------------------

/// The character of a decimal digit.
pub open spec fn digit(d: int) -> char {
    (0x30 + d) as char
}

/// Decides the character of a decimal digit.
pub fn digit_char(d: u8) -> (r: char)
    requires
        d < 10,
    ensures
        r == digit(d as int),
{
    (0x30 + d) as char
}

/// Whether `c` is an ASCII decimal digit.
pub open spec fn is_digit(c: char) -> bool {
    '0' <= c <= '9'
}

/// The decimal digits of `n`, without leading zeros.
pub open spec fn decimal(n: nat) -> Seq<char>
    decreases n,
{
    if n < 10 {
        seq![digit(n as int)]
    } else {
        decimal(n / 10).push(digit((n % 10) as int))
    }
}

/// `s` padded on the left with zeros to at least `width` characters.
pub open spec fn zero_padded(s: Seq<char>, width: nat) -> Seq<char> {
    if s.len() >= width {
        s
    } else {
        Seq::new((width - s.len()) as nat, |i: int| '0') + s
    }
}

/// Writes `n` in decimal.
pub fn decimal_of(n: u64) -> (r: String)
    ensures
        r@ == decimal(n as nat),
    decreases n,
{
    if n < 10 {
        let mut s = String::new();
        s.push(digit_char(n as u8));
        assert(s@ =~= seq![digit(n as int)]);
        s
    } else {
        let mut s = decimal_of(n / 10);
        s.push(digit_char((n % 10) as u8));
        s
    }
}

/// Writes `n` in decimal, padded with zeros to `width`.
pub fn decimal_padded(n: u64, width: usize) -> (r: String)
    ensures
        r@ == zero_padded(decimal(n as nat), width as nat),
{
    let d = decimal_of(n);
    let len = d.as_str().unicode_len();
    if len >= width {
        return d;
    }
    let mut out = String::new();
    for i in 0..width - len
        invariant
            out@ == Seq::new(i as nat, |k: int| '0'),
    {
        out.push('0');
        assert(out@ =~= Seq::new((i + 1) as nat, |k: int| '0'));
    }
    out.append(d.as_str());
    out
}

/// The value of an upper-case hexadecimal digit's character.
pub open spec fn hex_digit(d: int) -> char {
    if d < 10 {
        (0x30 + d) as char
    } else {
        (0x37 + d) as char
    }
}

/// The value of a lower-case hexadecimal digit's character.
pub open spec fn hex_lower(d: int) -> char {
    if d < 10 {
        (0x30 + d) as char
    } else {
        (0x57 + d) as char
    }
}

/// The value of a hexadecimal digit of either case.
pub open spec fn hex_value(c: char) -> Option<int> {
    if '0' <= c <= '9' {
        Some(c as int - 0x30)
    } else if 'a' <= c <= 'f' {
        Some(c as int - 0x57)
    } else if 'A' <= c <= 'F' {
        Some(c as int - 0x37)
    } else {
        None
    }
}

/// The upper-case hexadecimal digit of `d`.
pub fn hex_upper_char(d: u8) -> (r: char)
    requires
        d < 16,
    ensures
        r == hex_digit(d as int),
{
    if d < 10 {
        (0x30 + d) as char
    } else {
        (0x37 + d) as char
    }
}

/// The lower-case hexadecimal digit of `d`.
pub fn hex_lower_char(d: u8) -> (r: char)
    requires
        d < 16,
    ensures
        r == hex_lower(d as int),
{
    if d < 10 {
        (0x30 + d) as char
    } else {
        (0x57 + d) as char
    }
}

/// The value of the hexadecimal digit `b`, given as a byte.
pub open spec fn hex_byte_value(b: u8) -> Option<int> {
    hex_value(b as char)
}

/// Reads a hexadecimal digit.
pub fn hex_of_byte(b: u8) -> (r: Option<u8>)
    ensures
        r is Some <==> hex_byte_value(b) is Some,
        r is Some ==> r->0 as int == hex_byte_value(b)->0 && r->0 < 16,
{
    if 0x30 <= b && b <= 0x39 {
        Some(b - 0x30)
    } else if 0x61 <= b && b <= 0x66 {
        Some(b - 0x57)
    } else if 0x41 <= b && b <= 0x46 {
        Some(b - 0x37)
    } else {
        None
    }
}

/// The number a string of decimal digits denotes.
pub open spec fn digits_value(s: Seq<char>) -> nat
    decreases s.len(),
{
    if s.len() == 0 {
        0
    } else {
        10 * digits_value(s.drop_last()) + (s.last() as nat - 0x30) as nat
    }
}

/// Whether `s` consists of decimal digits only.
pub open spec fn all_digits(s: Seq<char>) -> bool {
    forall|i: int| 0 <= i < s.len() ==> is_digit(#[trigger] s[i])
}

/// A number reads back from its digits, and is written with digits only.
pub proof fn value_of_decimal(n: nat)
    ensures
        digits_value(decimal(n)) == n,
        all_digits(decimal(n)),
    decreases n,
{
    reveal_with_fuel(digits_value, 2);
    if n < 10 {
        assert(decimal(n).drop_last() =~= Seq::empty());
    } else {
        value_of_decimal(n / 10);
        assert(decimal(n).drop_last() =~= decimal(n / 10));
    }
}

/// A number as `str::parse` reads one for an unsigned type with the largest
/// value `max`: an optional `+`, then at least one digit, in range.
pub open spec fn parsed_unsigned(s: Seq<char>, max: nat) -> Option<nat> {
    let d = if s.len() > 0 && s[0] == '+' {
        s.skip(1)
    } else {
        s
    };
    if d.len() > 0 && all_digits(d) && digits_value(d) <= max {
        Some(digits_value(d))
    } else {
        None
    }
}

proof fn digits_value_grows(s: Seq<char>, k: int)
    requires
        0 <= k <= s.len(),
    ensures
        digits_value(s.take(k)) <= digits_value(s),
    decreases s.len(),
{
    if k == s.len() {
        assert(s.take(k) =~= s);
    } else {
        digits_value_grows(s.drop_last(), k);
        assert(s.drop_last().take(k) =~= s.take(k));
    }
}

/// Reads an unsigned number no larger than `max`.
pub fn parse_unsigned(cs: &[char], max: u64) -> (r: Option<u64>)
    ensures
        r is Some <==> parsed_unsigned(cs@, max as nat) is Some,
        r is Some ==> r->0 as nat == parsed_unsigned(cs@, max as nat)->0,
{
    let d = if cs.len() > 0 && cs[0] == '+' {
        slice_subrange(cs, 1, cs.len())
    } else {
        cs
    };
    if d.len() == 0 {
        return None;
    }
    let mut n: u64 = 0;
    for i in 0..d.len()
        invariant
            d@ == (if cs@.len() > 0 && cs@[0] == '+' {
                cs@.skip(1)
            } else {
                cs@
            }),
            n == digits_value(d@.take(i as int)),
            n <= max,
            forall|j: int| 0 <= j < i ==> is_digit(#[trigger] d@[j]),
    {
        let c = d[i];
        if !('0' <= c && c <= '9') {
            assert(!is_digit(d@[i as int]));
            return None;
        }
        let v: u128 = 10 * (n as u128) + (c as u32 - 0x30) as u128;
        proof {
            assert(d@.take(i + 1).drop_last() =~= d@.take(i as int));
            assert(v == digits_value(d@.take(i + 1)));
            digits_value_grows(d@, i + 1);
        }
        if v > max as u128 {
            return None;
        }
        n = v as u64;
    }
    assert(d@.take(d@.len() as int) =~= d@);
    Some(n)
}

/// Trimming takes white space from both ends, all of it and nothing else.
pub proof fn trimming_takes_white_space(s: Seq<char>) -> (r: (int, int))
    ensures
        0 <= r.0 <= r.1 <= s.len(),
        trimmed(s) == s.subrange(r.0, r.1),
        forall|i: int| 0 <= i < r.0 || r.1 <= i < s.len() ==> is_space(#[trigger] s[i]),
        trimmed(s).len() > 0 ==> !is_space(trimmed(s)[0]) && !is_space(trimmed(s).last()),
{
    let a = trim_front(s);
    let t = s.skip(a);
    let b = trim_back(t);
    assert(t.take(b) =~= s.subrange(a, a + b));
    assert forall|i: int| 0 <= i < a || a + b <= i < s.len() implies is_space(
        #[trigger] s[i],
    ) by {
        if i >= a {
            assert(s[i] == t[i - a]);
        }
    }
    if b > 0 {
        assert(t.take(b)[0] == t[0]);
    }
    (a, a + b)
}

proof fn trim_front(s: Seq<char>) -> (a: int)
    ensures
        0 <= a <= s.len(),
        trimmed_start(s) == s.skip(a),
        forall|i: int| 0 <= i < a ==> is_space(#[trigger] s[i]),
        a < s.len() ==> !is_space(s[a]),
    decreases s.len(),
{
    if s.len() > 0 && is_space(s[0]) {
        let a = trim_front(s.skip(1));
        assert(s.skip(1).skip(a) =~= s.skip(a + 1));
        assert forall|i: int| 0 <= i < a + 1 implies is_space(#[trigger] s[i]) by {
            if i > 0 {
                assert(s[i] == s.skip(1)[i - 1]);
            }
        }
        if a + 1 < s.len() {
            assert(s[a + 1] == s.skip(1)[a]);
        }
        a + 1
    } else {
        assert(s.skip(0) =~= s);
        0
    }
}

proof fn trim_back(s: Seq<char>) -> (b: int)
    ensures
        0 <= b <= s.len(),
        trimmed_end(s) == s.take(b),
        forall|i: int| b <= i < s.len() ==> is_space(#[trigger] s[i]),
        b > 0 ==> !is_space(s[b - 1]),
    decreases s.len(),
{
    if s.len() > 0 && is_space(s.last()) {
        let b = trim_back(s.drop_last());
        assert(s.drop_last().take(b) =~= s.take(b));
        assert forall|i: int| b <= i < s.len() implies is_space(#[trigger] s[i]) by {
            if i < s.len() - 1 {
                assert(s[i] == s.drop_last()[i]);
            }
        }
        b
    } else {
        assert(s.take(s.len() as int) =~= s);
        s.len() as int
    }
}

/// Blanks, tabs and the ends of lines are white space; letters, digits and
/// the marks of ASCII are not.
pub proof fn white_space_is_blank(c: char)
    ensures
        is_space(' ') && is_space('\t') && is_space('\n') && is_space('\r'),
        0x21 <= c as u32 <= 0x7E ==> !is_space(c),
{
}

/// A text is split at every separator: what stands before the first one is
/// the first piece, and a text without one is its only piece.
pub proof fn pieces_stand_between_separators<T>(a: Seq<T>, c: T, b: Seq<T>)
    requires
        !a.contains(c),
    ensures
        split(a, c) == seq![a],
        split(a + seq![c] + b, c) == seq![a] + split(b, c),
{
    let s = a + seq![c] + b;
    assert forall|j: int| 0 <= j < a.len() implies a[j] != c && s[j] != c by {
        assert(a.contains(a[j]));
    }
    find_is(a, c, a.len() as int);
    find_is(s, c, a.len() as int);
    assert(s.take(a.len() as int) =~= a);
    assert(s.skip(a.len() as int + 1) =~= b);
}

/// Padding puts zeros before a number up to a width, and never cuts.
pub proof fn padding_keeps_the_digits(s: Seq<char>, width: nat)
    ensures
        ({
            let r = zero_padded(s, width);
            &&& r.len() == (if s.len() > width {
                s.len()
            } else {
                width
            })
            &&& r.skip(r.len() - s.len()) == s
            &&& forall|i: int| 0 <= i < r.len() - s.len() ==> #[trigger] r[i] == '0'
        }),
{
    let r = zero_padded(s, width);
    assert(r.skip(r.len() - s.len()) =~= s);
}

/// Numbers are read from decimal digits; an optional sign before them, and
/// no more than `max`.
pub proof fn numbers_are_read_from_digits(s: Seq<char>, max: nat)
    ensures
        s.len() > 0 && all_digits(s) && digits_value(s) <= max ==> parsed_unsigned(s, max) == Some(
            digits_value(s),
        ) && parsed_unsigned(seq!['+'] + s, max) == Some(digits_value(s)),
        s.len() > 0 && all_digits(s) && digits_value(s) > max ==> parsed_unsigned(s, max) is None,
        s.len() == 0 ==> parsed_unsigned(s, max) is None,
        s.len() > 0 && s[0] != '+' && !all_digits(s) ==> parsed_unsigned(s, max) is None,
{
    assert((seq!['+'] + s).skip(1) =~= s);
    if s.len() > 0 && all_digits(s) {
        assert(is_digit(s[0]));
    }
}

/// A line ends at a line feed, with or without a carriage return before it;
/// the last one may end with the text, and then it is kept as it is.
pub proof fn lines_end_at_line_feeds(a: Seq<char>, b: Seq<char>)
    requires
        !a.contains('\n'),
    ensures
        lines(a + seq!['\r', '\n'] + b) == seq![a] + lines(b),
        a.len() == 0 || a.last() != '\r' ==> lines(a + seq!['\n'] + b) == seq![a] + lines(b),
        a.len() > 0 ==> lines(a) == seq![a],
        lines(Seq::empty()).len() == 0,
{
    assert forall|j: int| 0 <= j < a.len() implies a[j] != '\n' by {
        assert(a.contains(a[j]));
    }
    let (s, t) = (a + seq!['\r', '\n'] + b, a + seq!['\n'] + b);
    let n = a.len() as int;
    assert forall|j: int| 0 <= j < n + 1 implies s[j] != '\n' by {
        assert(j < n ==> s[j] == a[j]);
    }
    assert forall|j: int| 0 <= j < n implies t[j] != '\n' by {
        assert(t[j] == a[j]);
    }
    find_is(s, '\n', n + 1);
    find_is(t, '\n', n);
    find_is(a, '\n', n);
    assert(s.take(n + 1) =~= a.push('\r'));
    assert(a.push('\r').drop_last() =~= a);
    assert(s.skip(n + 2) =~= b);
    assert(t.take(n) =~= a);
    assert(t.skip(n + 1) =~= b);
}

/// The sixteen digits: 0 to 9, then the first six letters, in either case.
pub proof fn hexadecimal_digits(d: int)
    ensures
        0 <= d < 10 ==> hex_digit(d) as int == '0' as int + d && hex_lower(d) as int == '0' as int
            + d,
        10 <= d < 16 ==> hex_digit(d) as int == 'A' as int + (d - 10) && hex_lower(d) as int
            == 'a' as int + (d - 10),
        0 <= d < 16 ==> hex_value(hex_digit(d)) == Some(d) && hex_value(hex_lower(d)) == Some(d),
{
}

} // verus!
