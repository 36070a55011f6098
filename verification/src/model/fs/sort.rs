//! The order of directory entries: directories first, and names in the order
//! in which a reader would count them.
use std::cmp::Ordering;
use crate::config::SortKey;
use crate::model::fs::entry::{EntryKind, FileEntry};
use crate::order::{bytes_chain, bytes_differ, bytes_less};
use crate::path::{extension_bytes, extension_of};
use crate::time::{Timestamp, is_earlier, timestamps_are_totally_ordered};
use vstd::prelude::*;
use vstd::slice::slice_subrange;

verus! {

/// Where one thing stands relative to another.
#[derive(Debug, Clone, Copy, PartialEq, Eq, Structural)]
enum Side {
    Before,
    Same,
    After,
}

// ---------------------------------------------------------------------------
// The order of names
// ---------------------------------------------------------------------------

/// Whether a byte is an ASCII digit.
pub open spec fn is_digit_byte(b: u8) -> bool {
    0x30 <= b <= 0x39
}

/// The length of the digits that a name starts with.
pub open spec fn run_len(s: Seq<u8>) -> nat
    decreases s.len(),
{
    if s.len() > 0 && is_digit_byte(s[0]) {
        1 + run_len(s.skip(1))
    } else {
        0
    }
}

/// The number that a string of digits denotes.
pub open spec fn number_of(s: Seq<u8>) -> int
    decreases s.len(),
{
    if s.len() == 0 {
        0
    } else {
        10 * number_of(s.drop_last()) + (s.last() - 0x30)
    }
}

/// The digits that a name starts with.
pub open spec fn head_run(s: Seq<u8>) -> Seq<u8> {
    s.take(run_len(s) as int)
}

/// Whether both names start with digits.
pub open spec fn both_count(a: Seq<u8>, b: Seq<u8>) -> bool {
    is_digit_byte(a[0]) && is_digit_byte(b[0])
}

/// Whether the head of `a` comes before that of `b`: digits by their number,
/// and equal numbers by the length in which they are written; anything else
/// by its first byte.
pub open spec fn head_less(a: Seq<u8>, b: Seq<u8>) -> bool {
    if both_count(a, b) {
        number_of(head_run(a)) < number_of(head_run(b)) || (number_of(head_run(a)) == number_of(
            head_run(b),
        ) && run_len(a) < run_len(b))
    } else {
        a[0] < b[0]
    }
}

/// Whether two names have the same head.
pub open spec fn head_same(a: Seq<u8>, b: Seq<u8>) -> bool {
    if both_count(a, b) {
        number_of(head_run(a)) == number_of(head_run(b)) && run_len(a) == run_len(b)
    } else {
        a[0] == b[0]
    }
}

/// A name without its head: without the digits it starts with, or without its
/// first byte.
pub open spec fn after_head(s: Seq<u8>) -> Seq<u8> {
    if is_digit_byte(s[0]) {
        s.skip(run_len(s) as int)
    } else {
        s.skip(1)
    }
}

/// Whether `a` comes before `b` in the natural order.
pub open spec fn natural_less(a: Seq<u8>, b: Seq<u8>) -> bool
    decreases a.len(),
{
    if b.len() == 0 {
        false
    } else if a.len() == 0 {
        true
    } else {
        proof {
            run_len_bounds(a);
        }
        head_less(a, b) || (head_same(a, b) && natural_less(after_head(a), after_head(b)))
    }
}

/// The defining property of [`run_len`].
pub proof fn run_len_bounds(s: Seq<u8>)
    ensures
        run_len(s) <= s.len(),
        s.len() > 0 && is_digit_byte(s[0]) ==> run_len(s) > 0,
        forall|i: int| 0 <= i < run_len(s) ==> is_digit_byte(#[trigger] s[i]),
        run_len(s) < s.len() ==> !is_digit_byte(s[run_len(s) as int]),
    decreases s.len(),
{
    if s.len() > 0 && is_digit_byte(s[0]) {
        run_len_bounds(s.skip(1));
        assert forall|i: int| 0 <= i < run_len(s) implies is_digit_byte(#[trigger] s[i]) by {
            if i > 0 {
                assert(s[i] == s.skip(1)[i - 1]);
            }
        }
        if run_len(s) < s.len() {
            assert(s[run_len(s) as int] == s.skip(1)[run_len(s.skip(1)) as int]);
        }
    }
}

proof fn run_len_is(s: Seq<u8>, n: int)
    requires
        0 <= n <= s.len(),
        forall|i: int| 0 <= i < n ==> is_digit_byte(#[trigger] s[i]),
        n < s.len() ==> !is_digit_byte(s[n]),
    ensures
        run_len(s) == n,
{
    run_len_bounds(s);
    let r = run_len(s) as int;
    if r < n {
        assert(is_digit_byte(s[r]));
    }
    if n < r {
        assert(is_digit_byte(s[n]));
    }
}

spec fn pow10(n: nat) -> int
    decreases n,
{
    if n == 0 {
        1
    } else {
        10 * pow10((n - 1) as nat)
    }
}

spec fn all_digit_bytes(s: Seq<u8>) -> bool {
    forall|i: int| 0 <= i < s.len() ==> is_digit_byte(#[trigger] s[i])
}

proof fn pow10_grows(a: nat, b: nat)
    requires
        a <= b,
    ensures
        1 <= pow10(a) <= pow10(b),
    decreases b,
{
    if b > 0 {
        if a < b {
            pow10_grows(a, (b - 1) as nat);
        } else {
            pow10_grows((a - 1) as nat, (b - 1) as nat);
        }
    }
}

proof fn number_from_front(s: Seq<u8>)
    requires
        s.len() > 0,
    ensures
        number_of(s) == (s[0] - 0x30) * pow10((s.len() - 1) as nat) + number_of(s.skip(1)),
    decreases s.len(),
{
    let n = (s.len() - 1) as nat;
    if s.len() == 1 {
        assert(s.drop_last() =~= Seq::empty());
        assert(s.skip(1) =~= Seq::empty());
        assert(number_of(s.drop_last()) == 0);
        assert(number_of(s.skip(1)) == 0);
        assert((s[0] - 0x30) * pow10(0) == s[0] - 0x30) by (nonlinear_arith)
            requires
                pow10(0) == 1,
        ;
    } else {
        let t = s.drop_last();
        number_from_front(t);
        assert(t.skip(1) =~= s.skip(1).drop_last());
        assert(s.skip(1).last() == s.last());
        let d = s[0] - 0x30;
        let p = pow10((n - 1) as nat);
        assert(pow10(n) == 10 * p);
        assert(10 * (d * p) == d * (10 * p)) by (nonlinear_arith);
    }
}

proof fn number_bounds(s: Seq<u8>)
    requires
        all_digit_bytes(s),
    ensures
        0 <= number_of(s) < pow10(s.len()),
    decreases s.len(),
{
    if s.len() > 0 {
        let t = s.drop_last();
        assert forall|i: int| 0 <= i < t.len() implies is_digit_byte(#[trigger] t[i]) by {
            assert(t[i] == s[i]);
        }
        number_bounds(t);
        assert(is_digit_byte(s[s.len() - 1]));
    }
}

proof fn number_lower(s: Seq<u8>)
    requires
        all_digit_bytes(s),
        s.len() > 0,
        s[0] != 0x30,
    ensures
        number_of(s) >= pow10((s.len() - 1) as nat),
{
    number_from_front(s);
    let t = s.skip(1);
    assert forall|i: int| 0 <= i < t.len() implies is_digit_byte(#[trigger] t[i]) by {
        assert(t[i] == s[i + 1]);
    }
    number_bounds(t);
    pow10_grows(0, (s.len() - 1) as nat);
    assert(is_digit_byte(s[0]));
    let d = s[0] - 0x30;
    let p = pow10((s.len() - 1) as nat);
    assert(d * p >= p) by (nonlinear_arith)
        requires
            d >= 1,
            p >= 1,
    ;
}

proof fn longer_is_larger(a: Seq<u8>, b: Seq<u8>)
    requires
        all_digit_bytes(a),
        all_digit_bytes(b),
        a.len() < b.len(),
        b[0] != 0x30,
    ensures
        number_of(a) < number_of(b),
{
    number_bounds(a);
    number_lower(b);
    pow10_grows(a.len(), (b.len() - 1) as nat);
}

proof fn bytes_order_is_number_order(a: Seq<u8>, b: Seq<u8>)
    requires
        all_digit_bytes(a),
        all_digit_bytes(b),
        a.len() == b.len(),
        bytes_less(a, b),
    ensures
        number_of(a) < number_of(b),
    decreases a.len(),
{
    number_from_front(a);
    number_from_front(b);
    let (x, y) = (a.skip(1), b.skip(1));
    assert forall|i: int| 0 <= i < x.len() implies is_digit_byte(#[trigger] x[i]) by {
        assert(x[i] == a[i + 1]);
    }
    assert forall|i: int| 0 <= i < y.len() implies is_digit_byte(#[trigger] y[i]) by {
        assert(y[i] == b[i + 1]);
    }
    number_bounds(x);
    number_bounds(y);
    let p = pow10((a.len() - 1) as nat);
    let (d, e) = (a[0] - 0x30, b[0] - 0x30);
    if a[0] < b[0] {
        assert(d * p + p <= e * p) by (nonlinear_arith)
            requires
                d + 1 <= e,
                p >= 0,
        ;
    } else {
        bytes_order_is_number_order(x, y);
    }
}

proof fn same_number_same_digits(a: Seq<u8>, b: Seq<u8>)
    requires
        all_digit_bytes(a),
        all_digit_bytes(b),
        a.len() == b.len(),
        number_of(a) == number_of(b),
    ensures
        a == b,
{
    bytes_differ(a, b);
    if bytes_less(a, b) {
        bytes_order_is_number_order(a, b);
    }
    if bytes_less(b, a) {
        bytes_order_is_number_order(b, a);
    }
}

proof fn run_is_digits(s: Seq<u8>)
    ensures
        all_digit_bytes(head_run(s)),
        head_run(s).len() == run_len(s),
        run_len(s) <= s.len(),
{
    run_len_bounds(s);
    assert forall|i: int| 0 <= i < head_run(s).len() implies is_digit_byte(
        #[trigger] head_run(s)[i],
    ) by {
        assert(head_run(s)[i] == s[i]);
    }
}

// ---------------------------------------------------------------------------
// The natural order is a total order
// ---------------------------------------------------------------------------

/// Of two names, one comes first unless they are equal, and never both.
pub proof fn natural_order_is_total(a: Seq<u8>, b: Seq<u8>)
    ensures
        a == b || natural_less(a, b) || natural_less(b, a),
        !(natural_less(a, b) && natural_less(b, a)),
        !natural_less(a, a),
    decreases a.len() + b.len(),
{
    run_len_bounds(a);
    run_len_bounds(b);
    natural_is_irreflexive(a);
    if a.len() == 0 || b.len() == 0 {
        if a.len() == 0 && b.len() == 0 {
            assert(a =~= b);
        }
    } else {
        natural_order_is_total(after_head(a), after_head(b));
        if head_same(a, b) && after_head(a) == after_head(b) {
            if both_count(a, b) {
                run_is_digits(a);
                run_is_digits(b);
                same_number_same_digits(head_run(a), head_run(b));
                assert(a =~= head_run(a) + after_head(a));
                assert(b =~= head_run(b) + after_head(b));
            } else {
                assert(a =~= seq![a[0]] + after_head(a));
                assert(b =~= seq![b[0]] + after_head(b));
            }
        }
    }
}

proof fn natural_is_irreflexive(a: Seq<u8>)
    ensures
        !natural_less(a, a),
    decreases a.len(),
{
    if a.len() > 0 {
        run_len_bounds(a);
        natural_is_irreflexive(after_head(a));
    }
}

/// The natural order is transitive.
pub proof fn natural_order_is_transitive(a: Seq<u8>, b: Seq<u8>, c: Seq<u8>)
    requires
        natural_less(a, b),
        natural_less(b, c),
    ensures
        natural_less(a, c),
    decreases a.len(),
{
    if a.len() > 0 {
        run_len_bounds(a);
        if head_same(a, b) && head_same(b, c) && !head_less(a, b) && !head_less(b, c) {
            natural_order_is_transitive(after_head(a), after_head(b), after_head(c));
        }
    }
}

// ---------------------------------------------------------------------------
// Comparing names
// ---------------------------------------------------------------------------

fn digits_at_front(s: &[u8]) -> (r: usize)
    ensures
        r == run_len(s@),
        r <= s@.len(),
{
    let mut i: usize = 0;
    while i < s.len() && 0x30 <= s[i] && s[i] <= 0x39
        invariant
            i <= s@.len(),
            forall|j: int| 0 <= j < i ==> is_digit_byte(#[trigger] s@[j]),
        decreases s@.len() - i,
    {
        i = i + 1;
    }
    proof {
        run_len_is(s@, i as int);
    }
    i
}

/// The digits without leading zeros; a zero keeps one digit.
fn significant(run: &[u8]) -> (r: &[u8])
    requires
        all_digit_bytes(run@),
        run@.len() > 0,
    ensures
        all_digit_bytes(r@),
        number_of(r@) == number_of(run@),
        0 < r@.len() <= run@.len(),
        r@.len() == 1 || r@[0] != 0x30,
{
    let mut i: usize = 0;
    let n = run.len();
    assert(run@.skip(0) =~= run@);
    while i + 1 < n && run[i] == 0x30
        invariant
            n == run@.len(),
            i < n,
            number_of(run@.skip(i as int)) == number_of(run@),
        decreases n - i,
    {
        proof {
            let s = run@.skip(i as int);
            number_from_front(s);
            assert(s.skip(1) =~= run@.skip(i + 1));
            assert(0 * pow10((s.len() - 1) as nat) == 0) by (nonlinear_arith);
        }
        i = i + 1;
    }
    let r = slice_subrange(run, i, n);
    proof {
        assert(r@ =~= run@.skip(i as int));
        assert forall|j: int| 0 <= j < r@.len() implies is_digit_byte(#[trigger] r@[j]) by {
            assert(r@[j] == run@[j + i]);
        }
    }
    r
}

fn side_of_bytes(a: &[u8], b: &[u8]) -> (r: Side)
    ensures
        r == Side::Before <==> bytes_less(a@, b@),
        r == Side::Same <==> a@ == b@,
        r == Side::After <==> bytes_less(b@, a@),
{
    proof {
        bytes_differ(a@, b@);
    }
    let mut i: usize = 0;
    assert(a@.skip(0) =~= a@);
    assert(b@.skip(0) =~= b@);
    while i < a.len() && i < b.len() && a[i] == b[i]
        invariant
            i <= a@.len(),
            i <= b@.len(),
            a@.take(i as int) =~= b@.take(i as int),
            bytes_less(a@, b@) == bytes_less(a@.skip(i as int), b@.skip(i as int)),
            bytes_less(b@, a@) == bytes_less(b@.skip(i as int), a@.skip(i as int)),
        decreases a@.len() - i,
    {
        proof {
            let (x, y) = (a@.skip(i as int), b@.skip(i as int));
            assert(x[0] == a@[i as int] && y[0] == b@[i as int]);
            assert(x.skip(1) =~= a@.skip(i + 1));
            assert(y.skip(1) =~= b@.skip(i + 1));
            assert(a@.take(i + 1) =~= a@.take(i as int).push(a@[i as int]));
            assert(b@.take(i + 1) =~= b@.take(i as int).push(b@[i as int]));
        }
        i = i + 1;
    }
    proof {
        let (x, y) = (a@.skip(i as int), b@.skip(i as int));
        if i < a@.len() && i < b@.len() {
            assert(x[0] == a@[i as int] && y[0] == b@[i as int]);
        }
        if i == a@.len() && i == b@.len() {
            assert(a@.take(i as int) =~= a@);
            assert(b@.take(i as int) =~= b@);
        }
    }
    if i < a.len() && i < b.len() {
        if a[i] < b[i] {
            Side::Before
        } else {
            Side::After
        }
    } else if i < b.len() {
        Side::Before
    } else if i < a.len() {
        Side::After
    } else {
        Side::Same
    }
}

fn side_of_numbers(a: &[u8], b: &[u8]) -> (r: Side)
    requires
        all_digit_bytes(a@),
        all_digit_bytes(b@),
        a@.len() > 0,
        b@.len() > 0,
    ensures
        r == Side::Before <==> number_of(a@) < number_of(b@),
        r == Side::Same <==> number_of(a@) == number_of(b@),
        r == Side::After <==> number_of(a@) > number_of(b@),
{
    let x = significant(a);
    let y = significant(b);
    if x.len() < y.len() {
        proof {
            longer_is_larger(x@, y@);
        }
        return Side::Before;
    }
    if x.len() > y.len() {
        proof {
            longer_is_larger(y@, x@);
        }
        return Side::After;
    }
    let side = side_of_bytes(x, y);
    proof {
        if bytes_less(x@, y@) {
            bytes_order_is_number_order(x@, y@);
        }
        if bytes_less(y@, x@) {
            bytes_order_is_number_order(y@, x@);
        }
    }
    side
}

fn side_of_names(a: &[u8], b: &[u8]) -> (r: Side)
    ensures
        r == Side::Before <==> natural_less(a@, b@),
        r == Side::Same <==> a@ == b@,
        r == Side::After <==> natural_less(b@, a@),
    decreases a@.len(),
{
    proof {
        natural_order_is_total(a@, b@);
    }
    if a.len() == 0 || b.len() == 0 {
        return if a.len() > 0 {
            Side::After
        } else if b.len() > 0 {
            Side::Before
        } else {
            Side::Same
        };
    }
    let x = a[0];
    let y = b[0];
    if 0x30 <= x && x <= 0x39 && 0x30 <= y && y <= 0x39 {
        let i = digits_at_front(a);
        let j = digits_at_front(b);
        let (m, n) = (a.len(), b.len());
        let run_a = slice_subrange(a, 0, i);
        let run_b = slice_subrange(b, 0, j);
        proof {
            run_len_bounds(a@);
            run_len_bounds(b@);
            run_is_digits(a@);
            run_is_digits(b@);
            assert(run_a@ =~= head_run(a@));
            assert(run_b@ =~= head_run(b@));
        }
        match side_of_numbers(run_a, run_b) {
            Side::Before => Side::Before,
            Side::After => Side::After,
            Side::Same => {
                if i < j {
                    Side::Before
                } else if i > j {
                    Side::After
                } else {
                    let rest_a = slice_subrange(a, i, m);
                    let rest_b = slice_subrange(b, j, n);
                    proof {
                        assert(rest_a@ =~= after_head(a@));
                        assert(rest_b@ =~= after_head(b@));
                        same_number_same_digits(run_a@, run_b@);
                        assert(a@ =~= run_a@ + rest_a@);
                        assert(b@ =~= run_b@ + rest_b@);
                    }
                    side_of_names(rest_a, rest_b)
                }
            },
        }
    } else if x < y {
        Side::Before
    } else if x > y {
        Side::After
    } else {
        let (m, n) = (a.len(), b.len());
        let rest_a = slice_subrange(a, 1, m);
        let rest_b = slice_subrange(b, 1, n);
        proof {
            assert(rest_a@ =~= after_head(a@));
            assert(rest_b@ =~= after_head(b@));
            assert(a@ =~= seq![a@[0]] + rest_a@);
            assert(b@ =~= seq![b@[0]] + rest_b@);
        }
        side_of_names(rest_a, rest_b)
    }
}

fn ordering_of(side: Side) -> (r: Ordering)
    ensures
        r == Ordering::Less <==> side == Side::Before,
        r == Ordering::Equal <==> side == Side::Same,
        r == Ordering::Greater <==> side == Side::After,
{
    match side {
        Side::Before => Ordering::Less,
        Side::Same => Ordering::Equal,
        Side::After => Ordering::Greater,
    }
}

/// Compares two names in the natural order.
pub fn natural_cmp(a: &[u8], b: &[u8]) -> (r: Ordering)
    ensures
        r == Ordering::Less <==> natural_less(a@, b@),
        r == Ordering::Equal <==> a@ == b@,
        r == Ordering::Greater <==> natural_less(b@, a@),
{
    ordering_of(side_of_names(a, b))
}

// ---------------------------------------------------------------------------
// The order of entries
// ---------------------------------------------------------------------------

/// Directories come before everything else.
pub open spec fn dir_rank(e: FileEntry<Seq<u8>>) -> int {
    if e.kind == EntryKind::Directory {
        0
    } else {
        1
    }
}

/// The extension of an entry's name, empty where it has none.
pub open spec fn entry_extension(e: FileEntry<Seq<u8>>) -> Seq<u8> {
    match extension_of(e.name) {
        Some(x) => x,
        None => Seq::empty(),
    }
}

/// Whether a time comes before another; an unknown time comes first.
pub open spec fn time_less(a: Option<Timestamp>, b: Option<Timestamp>) -> bool {
    match (a, b) {
        (None, Some(_)) => true,
        (Some(x), Some(y)) => is_earlier(x, y),
        _ => false,
    }
}

/// Whether `a` comes before `b` by a key alone.
pub open spec fn key_less(a: FileEntry<Seq<u8>>, b: FileEntry<Seq<u8>>, key: SortKey) -> bool {
    match key {
        SortKey::Name => natural_less(a.name, b.name),
        SortKey::Size => a.size < b.size,
        SortKey::Modified => time_less(a.modified, b.modified),
        SortKey::Type => bytes_less(entry_extension(a), entry_extension(b)) || (entry_extension(a)
            == entry_extension(b) && natural_less(a.name, b.name)),
    }
}

/// Whether `a` comes before `b` in a listing.
pub open spec fn entry_less(
    a: FileEntry<Seq<u8>>,
    b: FileEntry<Seq<u8>>,
    key: SortKey,
    descending: bool,
) -> bool {
    if dir_rank(a) != dir_rank(b) {
        dir_rank(a) < dir_rank(b)
    } else if descending {
        key_less(b, a, key)
    } else {
        key_less(a, b, key)
    }
}

fn side_of_times(a: &Option<Timestamp>, b: &Option<Timestamp>) -> (r: Side)
    ensures
        r == Side::Before <==> time_less(*a, *b),
        r == Side::After <==> time_less(*b, *a),
{
    match (a, b) {
        (None, None) => Side::Same,
        (None, Some(_)) => Side::Before,
        (Some(_), None) => Side::After,
        (Some(x), Some(y)) => {
            if x.is_before(y) {
                Side::Before
            } else if y.is_before(x) {
                Side::After
            } else {
                Side::Same
            }
        },
    }
}

fn extension_or_empty<'a>(e: &'a FileEntry, none: &'a [u8]) -> (r: &'a [u8])
    requires
        none@.len() == 0,
    ensures
        r@ == entry_extension(e@),
{
    match extension_bytes(e.name.as_slice()) {
        Some(x) => x,
        None => {
            assert(none@ =~= Seq::empty());
            none
        },
    }
}

fn side_by_key(a: &FileEntry, b: &FileEntry, key: SortKey) -> (r: Side)
    ensures
        r == Side::Before <==> key_less(a@, b@, key),
        r == Side::After <==> key_less(b@, a@, key),
{
    proof {
        natural_order_is_total(a@.name, b@.name);
        bytes_differ(entry_extension(a@), entry_extension(b@));
        if a@.modified is Some && b@.modified is Some {
            timestamps_are_totally_ordered(a@.modified->0, b@.modified->0);
        }
    }
    match key {
        SortKey::Name => side_of_names(a.name.as_slice(), b.name.as_slice()),
        SortKey::Size => {
            if a.size < b.size {
                Side::Before
            } else if a.size > b.size {
                Side::After
            } else {
                Side::Same
            }
        },
        SortKey::Modified => side_of_times(&a.modified, &b.modified),
        SortKey::Type => {
            let none: Vec<u8> = Vec::new();
            let x = extension_or_empty(a, none.as_slice());
            let y = extension_or_empty(b, none.as_slice());
            match side_of_bytes(x, y) {
                Side::Same => side_of_names(a.name.as_slice(), b.name.as_slice()),
                other => other,
            }
        },
    }
}

fn side_in_listing(a: &FileEntry, b: &FileEntry, key: SortKey, descending: bool) -> (r: Side)
    ensures
        r == Side::Before <==> entry_less(a@, b@, key, descending),
        r == Side::After <==> entry_less(b@, a@, key, descending),
{
    let dir_a = a.kind == EntryKind::Directory;
    let dir_b = b.kind == EntryKind::Directory;
    if dir_a != dir_b {
        return if dir_a {
            Side::Before
        } else {
            Side::After
        };
    }
    match side_by_key(a, b, key) {
        Side::Same => Side::Same,
        Side::Before => {
            if descending {
                Side::After
            } else {
                Side::Before
            }
        },
        Side::After => {
            if descending {
                Side::Before
            } else {
                Side::After
            }
        },
    }
}

/// Compares two entries by a key, directories always first.
pub fn compare(a: &FileEntry, b: &FileEntry, key: SortKey, descending: bool) -> (r: Ordering)
    ensures
        r == Ordering::Less <==> entry_less(a@, b@, key, descending),
        r == Ordering::Greater <==> entry_less(b@, a@, key, descending),
{
    ordering_of(side_in_listing(a, b, key, descending))
}

/// Directories come first by every key and in both directions.
pub proof fn directories_come_first(
    a: FileEntry<Seq<u8>>,
    b: FileEntry<Seq<u8>>,
    key: SortKey,
    descending: bool,
)
    requires
        a.kind == EntryKind::Directory,
        b.kind != EntryKind::Directory,
    ensures
        entry_less(a, b, key, descending),
        !entry_less(b, a, key, descending),
{
}

/// Among directories, and among everything else, the descending order is the
/// ascending one turned round.
pub proof fn descending_turns_groups_round(
    a: FileEntry<Seq<u8>>,
    b: FileEntry<Seq<u8>>,
    key: SortKey,
)
    requires
        dir_rank(a) == dir_rank(b),
    ensures
        entry_less(a, b, key, true) == entry_less(b, a, key, false),
{
}

/// No entry comes both before and after another.
pub proof fn entry_order_is_strict(
    a: FileEntry<Seq<u8>>,
    b: FileEntry<Seq<u8>>,
    key: SortKey,
    descending: bool,
)
    ensures
        !(entry_less(a, b, key, descending) && entry_less(b, a, key, descending)),
{
    natural_order_is_total(a.name, b.name);
    bytes_differ(entry_extension(a), entry_extension(b));
    if a.modified is Some && b.modified is Some {
        timestamps_are_totally_ordered(a.modified->0, b.modified->0);
    }
}

/// The order of a listing is transitive.
pub proof fn entry_order_is_transitive(
    a: FileEntry<Seq<u8>>,
    b: FileEntry<Seq<u8>>,
    c: FileEntry<Seq<u8>>,
    key: SortKey,
    descending: bool,
)
    requires
        entry_less(a, b, key, descending),
        entry_less(b, c, key, descending),
    ensures
        entry_less(a, c, key, descending),
{
    let (x, y, z) = if descending {
        (c, b, a)
    } else {
        (a, b, c)
    };
    if natural_less(x.name, y.name) && natural_less(y.name, z.name) {
        natural_order_is_transitive(x.name, y.name, z.name);
    }
    let (ex, ey, ez) = (entry_extension(x), entry_extension(y), entry_extension(z));
    if bytes_less(ex, ey) && bytes_less(ey, ez) {
        bytes_chain(ex, ey, ez);
    }
}

/// The earlier of two times comes first when times ascend, and last when they
/// descend. A time that is not known comes before every other.
pub proof fn earlier_entries_come_first(a: FileEntry<Seq<u8>>, b: FileEntry<Seq<u8>>)
    requires
        (a.kind == EntryKind::Directory) == (b.kind == EntryKind::Directory),
        b.modified is Some,
        a.modified matches Some(x) ==> {
            ||| x.secs < b.modified->0.secs
            ||| x.secs == b.modified->0.secs && x.nanos < b.modified->0.nanos
        },
    ensures
        entry_less(a, b, SortKey::Modified, false),
        entry_less(b, a, SortKey::Modified, true),
        !entry_less(b, a, SortKey::Modified, false),
        !entry_less(a, b, SortKey::Modified, true),
{
}

/// Entries of the same time, or both of an unknown one, have no order by it.
pub proof fn equal_times_have_no_order(
    a: FileEntry<Seq<u8>>,
    b: FileEntry<Seq<u8>>,
    descending: bool,
)
    requires
        (a.kind == EntryKind::Directory) == (b.kind == EntryKind::Directory),
        a.modified == b.modified,
    ensures
        !entry_less(a, b, SortKey::Modified, descending),
{
}

/// The smaller of two entries comes first when sizes ascend, and last when
/// they descend; entries of one size have no order by it.
pub proof fn smaller_entries_come_first(a: FileEntry<Seq<u8>>, b: FileEntry<Seq<u8>>)
    requires
        (a.kind == EntryKind::Directory) == (b.kind == EntryKind::Directory),
    ensures
        entry_less(a, b, SortKey::Size, false) <==> a.size < b.size,
        entry_less(a, b, SortKey::Size, true) <==> a.size > b.size,
{
}

/// By type, the extension decides byte by byte, entries without one come
/// first, and within one extension the names decide as they do by name.
pub proof fn extensions_decide_before_names(a: FileEntry<Seq<u8>>, b: FileEntry<Seq<u8>>)
    requires
        (a.kind == EntryKind::Directory) == (b.kind == EntryKind::Directory),
    ensures
        extension_of(a.name) is None && (extension_of(b.name) matches Some(y) && y.len() > 0)
            ==> entry_less(a, b, SortKey::Type, false) && entry_less(b, a, SortKey::Type, true),
        extension_of(a.name) matches Some(x) ==> extension_of(b.name) matches Some(y)
            ==> bytes_less(x, y) ==> entry_less(a, b, SortKey::Type, false) && entry_less(
            b,
            a,
            SortKey::Type,
            true,
        ),
        extension_of(a.name) == extension_of(b.name) ==> {
            &&& entry_less(a, b, SortKey::Type, false) == entry_less(a, b, SortKey::Name, false)
            &&& entry_less(a, b, SortKey::Type, true) == entry_less(a, b, SortKey::Name, true)
        },
{
    bytes_differ(entry_extension(a), entry_extension(b));
}

/// By name, entries come in the natural order of their names, and the other
/// way round when they descend.
pub proof fn names_come_in_natural_order(a: FileEntry<Seq<u8>>, b: FileEntry<Seq<u8>>)
    requires
        (a.kind == EntryKind::Directory) == (b.kind == EntryKind::Directory),
    ensures
        entry_less(a, b, SortKey::Name, false) <==> natural_less(a.name, b.name),
        entry_less(a, b, SortKey::Name, true) <==> natural_less(b.name, a.name),
{
}

/// Names that begin alike are ordered by how they go on, unless the beginning
/// ends within a number.
pub proof fn common_beginnings_do_not_matter(p: Seq<u8>, a: Seq<u8>, b: Seq<u8>)
    requires
        p.len() > 0 ==> !(0x30 <= p.last() <= 0x39),
    ensures
        natural_less(p + a, p + b) == natural_less(a, b),
    decreases p.len(),
{
    if p.len() == 0 {
        assert(p + a =~= a);
        assert(p + b =~= b);
    } else {
        let (x, y) = (p + a, p + b);
        run_len_bounds(p);
        let n = run_len(p) as int;
        assert(n < p.len()) by {
            if n == p.len() {
                assert(is_digit_byte(p[n - 1]));
            }
        }
        assert forall|i: int| 0 <= i < n implies is_digit_byte(#[trigger] x[i]) by {
            assert(x[i] == p[i]);
        }
        assert forall|i: int| 0 <= i < n implies is_digit_byte(#[trigger] y[i]) by {
            assert(y[i] == p[i]);
        }
        run_len_is(x, n);
        run_len_is(y, n);
        assert(head_run(x) =~= head_run(y));
        let m = if is_digit_byte(p[0]) {
            n
        } else {
            1
        };
        let q = p.skip(m);
        assert(after_head(x) =~= q + a);
        assert(after_head(y) =~= q + b);
        common_beginnings_do_not_matter(q, a, b);
    }
}

/// How two names go on decides: by their numbers, and by how briefly these
/// are written, where both go on with digits; else by the next byte. A name
/// that ends comes before one that goes on.
pub proof fn numbers_count_and_bytes_follow(x: Seq<u8>, y: Seq<u8>, a: Seq<u8>, b: Seq<u8>)
    requires
        forall|i: int| 0 <= i < x.len() ==> 0x30 <= #[trigger] x[i] <= 0x39,
        forall|i: int| 0 <= i < y.len() ==> 0x30 <= #[trigger] y[i] <= 0x39,
        a.len() > 0 ==> !(0x30 <= a[0] <= 0x39),
        b.len() > 0 ==> !(0x30 <= b[0] <= 0x39),
    ensures
        x.len() > 0 && y.len() > 0 ==> {
            &&& number_of(x) < number_of(y) ==> natural_less(x + a, y + b)
            &&& number_of(x) == number_of(y) && x.len() < y.len() ==> natural_less(x + a, y + b)
            &&& x == y ==> natural_less(x + a, y + b) == natural_less(a, b)
        },
        a.len() > 0 && b.len() > 0 && a[0] < b[0] ==> natural_less(a, b),
        a.len() > 0 && y.len() > 0 ==> {
            &&& a[0] < y[0] ==> natural_less(a, y + b)
            &&& y[0] < a[0] ==> natural_less(y + b, a)
        },
        a.len() == 0 && b.len() > 0 ==> natural_less(a, b),
        a.len() == 0 && y.len() > 0 ==> natural_less(a, y + b),
{
    assert forall|i: int| 0 <= i < x.len() implies is_digit_byte(#[trigger] (x + a)[i]) by {
        assert((x + a)[i] == x[i]);
    }
    assert forall|i: int| 0 <= i < y.len() implies is_digit_byte(#[trigger] (y + b)[i]) by {
        assert((y + b)[i] == y[i]);
    }
    run_len_is(x + a, x.len() as int);
    run_len_is(y + b, y.len() as int);
    assert(head_run(x + a) =~= x);
    assert(head_run(y + b) =~= y);
    if x.len() > 0 && y.len() > 0 {
        assert((x + a)[0] == x[0] && (y + b)[0] == y[0]);
        assert(after_head(x + a) =~= a);
        assert(after_head(y + b) =~= b);
    }
    if y.len() > 0 {
        assert((y + b)[0] == y[0]);
    }
}

/// A run of digits is read as the number that it writes down.
pub proof fn digits_are_read_as_numbers(s: Seq<u8>, digit: u8)
    ensures
        number_of(s.push(digit)) == 10 * number_of(s) + (digit - 0x30),
        number_of(Seq::empty()) == 0,
{
    assert(s.push(digit).drop_last() =~= s);
}

} // verus!
