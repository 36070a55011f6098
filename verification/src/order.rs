//! The order of byte strings, and lists put into it.
use crate::text::byte_rows;
use vstd::prelude::*;

verus! {

/// Whether `a` comes before `b` byte by byte.
pub open spec fn bytes_less(a: Seq<u8>, b: Seq<u8>) -> bool
    decreases a.len(),
{
    if b.len() == 0 {
        false
    } else if a.len() == 0 {
        true
    } else {
        a[0] < b[0] || (a[0] == b[0] && bytes_less(a.skip(1), b.skip(1)))
    }
}

/// Of two byte strings one comes first unless they are equal, and never both.
pub proof fn bytes_differ(a: Seq<u8>, b: Seq<u8>)
    ensures
        a == b || bytes_less(a, b) || bytes_less(b, a),
        !(bytes_less(a, b) && bytes_less(b, a)),
        !bytes_less(a, a),
    decreases a.len(),
{
    if a.len() == 0 || b.len() == 0 {
        if a.len() == 0 && b.len() == 0 {
            assert(a =~= b);
        }
        if a.len() > 0 {
            bytes_differ(a.skip(1), a.skip(1));
        }
    } else {
        bytes_differ(a.skip(1), b.skip(1));
        bytes_differ(a.skip(1), a.skip(1));
        if a[0] == b[0] && a.skip(1) == b.skip(1) {
            assert(a =~= seq![a[0]] + a.skip(1));
            assert(b =~= seq![b[0]] + b.skip(1));
        }
    }
}

/// The order is transitive.
pub proof fn bytes_chain(a: Seq<u8>, b: Seq<u8>, c: Seq<u8>)
    requires
        bytes_less(a, b),
        bytes_less(b, c),
    ensures
        bytes_less(a, c),
    decreases a.len(),
{
    if a.len() > 0 && a[0] == b[0] && b[0] == c[0] {
        bytes_chain(a.skip(1), b.skip(1), c.skip(1));
    }
}

/// Decides [`bytes_less`].
pub fn is_less(a: &[u8], b: &[u8]) -> (r: bool)
    ensures
        r == bytes_less(a@, b@),
{
    let mut i: usize = 0;
    assert(a@.skip(0) =~= a@);
    assert(b@.skip(0) =~= b@);
    while i < a.len() && i < b.len()
        invariant
            i <= a@.len(),
            i <= b@.len(),
            bytes_less(a@, b@) == bytes_less(a@.skip(i as int), b@.skip(i as int)),
        decreases a@.len() - i,
    {
        assert(a@.skip(i as int)[0] == a@[i as int]);
        assert(b@.skip(i as int)[0] == b@[i as int]);
        if a[i] != b[i] {
            return a[i] < b[i];
        }
        assert(a@.skip(i as int).skip(1) =~= a@.skip(i + 1));
        assert(b@.skip(i as int).skip(1) =~= b@.skip(i + 1));
        i = i + 1;
    }
    i < b.len()
}

/// Whether the item at `i` belongs before the item at `j`: its key comes
/// first, or the keys are equal and it was first before.
pub open spec fn goes_before(keys: Seq<Seq<u8>>, i: int, j: int) -> bool {
    bytes_less(keys[i], keys[j]) || (keys[i] == keys[j] && i < j)
}

/// Whether `order` lists the indices of `keys` from the first in order to the
/// last, each once. There is one such list.
pub open spec fn is_order(keys: Seq<Seq<u8>>, order: Seq<usize>) -> bool {
    &&& order.len() == keys.len()
    &&& forall|i: int| 0 <= i < order.len() ==> (#[trigger] order[i]) < keys.len()
    &&& forall|i: int, j: int|
        0 <= i < j < order.len() ==> goes_before(
            keys,
            #[trigger] order[i] as int,
            #[trigger] order[j] as int,
        )
}

/// The items in the order of their keys.
pub open spec fn ordered<T>(items: Seq<T>, order: Seq<usize>) -> Seq<T> {
    Seq::new(order.len(), |i: int| items[order[i] as int])
}

proof fn before_chain(keys: Seq<Seq<u8>>, i: int, j: int, k: int)
    requires
        goes_before(keys, i, j),
        goes_before(keys, j, k),
    ensures
        goes_before(keys, i, k),
{
    if bytes_less(keys[i], keys[j]) && bytes_less(keys[j], keys[k]) {
        bytes_chain(keys[i], keys[j], keys[k]);
    }
}

/// The order of a list of keys.
pub fn order_of(keys: &Vec<Vec<u8>>) -> (r: Vec<usize>)
    ensures
        is_order(byte_rows(keys@), r@),
{
    let ghost all = byte_rows(keys@);
    let mut out: Vec<usize> = Vec::new();
    for i in 0..keys.len()
        invariant
            all == byte_rows(keys@),
            out@.len() == i,
            forall|a: int| 0 <= a < i ==> (#[trigger] out@[a]) < i,
            forall|a: int, b: int|
                0 <= a < b < i ==> goes_before(
                    all,
                    #[trigger] out@[a] as int,
                    #[trigger] out@[b] as int,
                ),
    {
        let mut p: usize = out.len();
        while p > 0 && is_less(keys[i].as_slice(), keys[out[p - 1]].as_slice())
            invariant
                all == byte_rows(keys@),
                i < keys@.len(),
                out@.len() == i,
                p <= i,
                forall|a: int| 0 <= a < i ==> (#[trigger] out@[a]) < i,
                forall|a: int| p <= a < i ==> goes_before(all, i as int, #[trigger] out@[a] as int),
            decreases p,
        {
            p = p - 1;
            assert(all[out@[p as int] as int] == keys@[out@[p as int] as int]@);
        }
        let ghost before = out@;
        proof {
            if p > 0 {
                let last = before[p - 1] as int;
                assert(all[last] == keys@[last]@);
                assert(all[i as int] == keys@[i as int]@);
                bytes_differ(all[last], all[i as int]);
                assert(goes_before(all, last, i as int));
                assert forall|a: int| 0 <= a < p implies goes_before(
                    all,
                    #[trigger] before[a] as int,
                    i as int,
                ) by {
                    if a < p - 1 {
                        before_chain(all, before[a] as int, last, i as int);
                    }
                }
            }
        }
        out.insert(p, i);
        proof {
            assert forall|a: int| 0 <= a < i + 1 implies (#[trigger] out@[a]) < i + 1 by {
                if a < p {
                    assert(out@[a] == before[a]);
                } else if a > p {
                    assert(out@[a] == before[a - 1]);
                }
            }
            assert forall|a: int, b: int| 0 <= a < b < i + 1 implies goes_before(
                all,
                #[trigger] out@[a] as int,
                #[trigger] out@[b] as int,
            ) by {
                if b < p {
                    assert(out@[a] == before[a] && out@[b] == before[b]);
                } else if b == p {
                    assert(out@[a] == before[a]);
                } else if a < p {
                    assert(out@[a] == before[a] && out@[b] == before[b - 1]);
                } else if a == p {
                    assert(out@[b] == before[b - 1]);
                } else {
                    assert(out@[a] == before[a - 1] && out@[b] == before[b - 1]);
                }
            }
        }
    }
    out
}

// ---------------------------------------------------------------------------
// Laws
// ---------------------------------------------------------------------------

/// Putting a list in order loses nothing: every index occurs.
pub proof fn nothing_is_lost(keys: Seq<Seq<u8>>, order: Seq<usize>, k: int)
    requires
        is_order(keys, order),
        0 <= k < keys.len(),
    ensures
        exists|i: int| 0 <= i < order.len() && order[i] == k,
{
    let n = keys.len() as int;
    if forall|i: int| 0 <= i < order.len() ==> order[i] != k {
        let hit = Seq::new(order.len(), |i: int| order[i] as int);
        assert(hit.no_duplicates()) by {
            assert forall|i: int, j: int|
                0 <= i < hit.len() && 0 <= j < hit.len() && i != j implies hit[i] != hit[j] by {
                if i < j {
                    assert(goes_before(keys, order[i] as int, order[j] as int));
                    bytes_differ(keys[order[i] as int], keys[order[i] as int]);
                } else {
                    assert(goes_before(keys, order[j] as int, order[i] as int));
                    bytes_differ(keys[order[j] as int], keys[order[j] as int]);
                }
            }
        }
        hit.unique_seq_to_set();
        vstd::set_lib::lemma_int_range(0, n);
        let others = vstd::set_lib::set_int_range(0, n).remove(k);
        assert(hit.to_set().subset_of(others)) by {
            assert forall|x: int| hit.to_set().contains(x) implies others.contains(x) by {
                let i = choose|i: int| 0 <= i < hit.len() && hit[i] == x;
                assert(order[i] < keys.len());
            }
        }
        vstd::set_lib::lemma_len_subset(hit.to_set(), others);
    }
}

proof fn goes_one_way(keys: Seq<Seq<u8>>, i: int, j: int)
    ensures
        !(goes_before(keys, i, j) && goes_before(keys, j, i)),
{
    bytes_differ(keys[i], keys[j]);
}

/// A list of keys has one order.
pub proof fn orders_are_unique(keys: Seq<Seq<u8>>, a: Seq<usize>, b: Seq<usize>)
    requires
        is_order(keys, a),
        is_order(keys, b),
    ensures
        a == b,
{
    assert forall|k: int| 0 <= k < keys.len() implies a[k] == b[k] by {
        order_agrees(keys, a, b, k);
    }
    assert(a =~= b);
}

proof fn order_agrees(keys: Seq<Seq<u8>>, a: Seq<usize>, b: Seq<usize>, k: int)
    requires
        is_order(keys, a),
        is_order(keys, b),
        0 <= k < keys.len(),
    ensures
        forall|i: int| 0 <= i <= k ==> a[i] == b[i],
    decreases k,
{
    if k > 0 {
        order_agrees(keys, a, b, k - 1);
    }
    if a[k] != b[k] {
        nothing_is_lost(keys, b, a[k] as int);
        nothing_is_lost(keys, a, b[k] as int);
        let p = choose|i: int| 0 <= i < b.len() && b[i] == a[k];
        let q = choose|i: int| 0 <= i < a.len() && a[i] == b[k];
        if p < k {
            assert(a[p] == a[k]);
            goes_one_way(keys, a[p] as int, a[k] as int);
            assert(goes_before(keys, a[p] as int, a[k] as int));
        }
        if q < k {
            assert(b[q] == b[k]);
            goes_one_way(keys, b[q] as int, b[k] as int);
            assert(goes_before(keys, b[q] as int, b[k] as int));
        }
        assert(p > k && q > k);
        assert(goes_before(keys, b[k] as int, b[p] as int));
        assert(goes_before(keys, a[k] as int, a[q] as int));
        goes_one_way(keys, a[k] as int, b[k] as int);
    }
}

/// The first byte in which two strings differ decides, and the beginning of a
/// string comes before the string.
pub proof fn the_first_difference_decides(a: Seq<u8>, b: Seq<u8>, i: int)
    requires
        0 <= i < b.len(),
        i <= a.len(),
        a.take(i) == b.take(i),
        i == a.len() || a[i] < b[i],
    ensures
        bytes_less(a, b),
        !bytes_less(b, a),
    decreases i,
{
    if i > 0 {
        assert(a.take(i)[0] == a[0] && b.take(i)[0] == b[0]);
        assert(a.skip(1).take(i - 1) =~= a.take(i).skip(1));
        assert(b.skip(1).take(i - 1) =~= b.take(i).skip(1));
        assert(i < a.len() ==> a.skip(1)[i - 1] == a[i] && b.skip(1)[i - 1] == b[i]);
        the_first_difference_decides(a.skip(1), b.skip(1), i - 1);
    }
    bytes_differ(a, b);
}

/// An ordered list never goes down: an item comes before another only if its
/// key does, or if the keys are equal and it came before it already.
pub proof fn ordered_lists_ascend(keys: Seq<Seq<u8>>, order: Seq<usize>, i: int, j: int)
    requires
        is_order(keys, order),
        0 <= i < j < order.len(),
    ensures
        order.len() == keys.len(),
        !bytes_less(keys[order[j] as int], keys[order[i] as int]),
        keys[order[i] as int] == keys[order[j] as int] ==> order[i] < order[j],
{
    let (a, b) = (order[i] as int, order[j] as int);
    assert(goes_before(keys, a, b));
    bytes_differ(keys[a], keys[b]);
}

} // verus!
