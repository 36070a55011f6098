//! Percent escapes, as in URIs.
use crate::text::{bytes_of, hex_byte_value, hex_digit, hex_of_byte, hex_upper_char};
use vstd::prelude::*;
use vstd::utf8::*;

verus! {

/// The byte that introduces an escape.
pub const PERCENT: u8 = 0x25;

/// Whether a byte stands for itself: letters, digits, `-`, `_`, `.`, `~` and
/// the separator.
pub open spec fn is_plain(b: u8) -> bool {
    ||| 0x41 <= b <= 0x5A
    ||| 0x61 <= b <= 0x7A
    ||| 0x30 <= b <= 0x39
    ||| b == 0x2D
    ||| b == 0x5F
    ||| b == 0x2E
    ||| b == 0x7E
    ||| b == 0x2F
}

/// The escaped form of one byte.
pub open spec fn escaped_byte(b: u8) -> Seq<char> {
    if is_plain(b) {
        seq![b as char]
    } else {
        seq!['%', hex_digit(b as int / 16), hex_digit(b as int % 16)]
    }
}

/// The escaped form of a byte string.
pub open spec fn escaped(bytes: Seq<u8>) -> Seq<char>
    decreases bytes.len(),
{
    if bytes.len() == 0 {
        Seq::empty()
    } else {
        escaped(bytes.drop_last()) + escaped_byte(bytes.last())
    }
}

/// The value of the escape that starts `s`, if one does.
pub open spec fn escape_at_front(s: Seq<u8>) -> Option<u8> {
    if s.len() >= 3 && s[0] == PERCENT && hex_byte_value(s[1]) is Some && hex_byte_value(
        s[2],
    ) is Some {
        Some((hex_byte_value(s[1])->0 * 16 + hex_byte_value(s[2])->0) as u8)
    } else {
        None
    }
}

/// The bytes that a text with escapes denotes. What is no escape stands for
/// itself.
pub open spec fn unescaped(s: Seq<u8>) -> Seq<u8>
    decreases s.len(),
{
    if s.len() == 0 {
        Seq::empty()
    } else {
        match escape_at_front(s) {
            Some(b) => seq![b] + unescaped(s.skip(3)),
            None => seq![s[0]] + unescaped(s.skip(1)),
        }
    }
}

/// Escapes a byte string.
pub fn encode_percent(bytes: &[u8]) -> (r: String)
    ensures
        r@ == escaped(bytes@),
{
    let mut out = String::new();
    assert(bytes@.take(0) =~= Seq::empty());
    assert(out@ =~= escaped(bytes@.take(0)));
    for i in 0..bytes.len()
        invariant
            out@ == escaped(bytes@.take(i as int)),
    {
        let b = bytes[i];
        let ghost before = out@;
        proof {
            assert(bytes@.take(i + 1).drop_last() =~= bytes@.take(i as int));
            assert(bytes@.take(i + 1).last() == b);
        }
        if (0x41 <= b && b <= 0x5A) || (0x61 <= b && b <= 0x7A) || (0x30 <= b && b <= 0x39) || b
            == 0x2D || b == 0x5F || b == 0x2E || b == 0x7E || b == 0x2F {
            out.push(b as char);
            assert(out@ =~= before + escaped_byte(b));
        } else {
            out.push('%');
            out.push(hex_upper_char(b / 16));
            out.push(hex_upper_char(b % 16));
            assert(out@ =~= before + escaped_byte(b));
        }
    }
    assert(bytes@.take(bytes@.len() as int) =~= bytes@);
    out
}

/// Undoes the escapes in a byte string.
pub fn decode_bytes(s: &[u8]) -> (r: Vec<u8>)
    ensures
        r@ == unescaped(s@),
{
    let mut out: Vec<u8> = Vec::new();
    let mut i: usize = 0;
    assert(s@.skip(0) =~= s@);
    assert(out@ + unescaped(s@) =~= unescaped(s@));
    let n = s.len();
    while i < n
        invariant
            n == s@.len(),
            i <= n,
            out@ + unescaped(s@.skip(i as int)) == unescaped(s@),
        decreases n - i,
    {
        let ghost rest = s@.skip(i as int);
        let ghost before = out@;
        proof {
            assert(rest[0] == s@[i as int]);
            assert(rest.skip(1) =~= s@.skip(i + 1));
            if i + 3 <= n {
                assert(rest[1] == s@[i + 1]);
                assert(rest[2] == s@[i + 2]);
                assert(rest.skip(3) =~= s@.skip(i + 3));
            }
        }
        if n - i >= 3 && s[i] == PERCENT {
            if let (Some(hi), Some(lo)) = (hex_of_byte(s[i + 1]), hex_of_byte(s[i + 2])) {
                let b: u8 = hi * 16 + lo;
                out.push(b);
                proof {
                    assert(escape_at_front(rest) == Some(b));
                    assert(out@ + unescaped(s@.skip(i + 3)) =~= before + unescaped(rest));
                }
                i = i + 3;
                continue;
            }
        }
        out.push(s[i]);
        proof {
            assert(escape_at_front(rest) is None);
            assert(out@ + unescaped(s@.skip(i + 1)) =~= before + unescaped(rest));
        }
        i = i + 1;
    }
    assert(s@.skip(i as int).len() == 0);
    assert(out@ + unescaped(s@.skip(i as int)) =~= out@);
    out
}

/// Undoes the escapes in a text.
pub fn decode_percent(input: &str) -> (r: Vec<u8>)
    ensures
        r@ == unescaped(encode_utf8(input@)),
{
    let bytes = bytes_of(input);
    decode_bytes(bytes.as_slice())
}

// ---------------------------------------------------------------------------
// Laws
// ---------------------------------------------------------------------------

/// The bytes of an ASCII text.
pub open spec fn ascii_bytes(s: Seq<char>) -> Seq<u8> {
    Seq::new(s.len(), |i: int| s[i] as u8)
}

/// An escaped text is ASCII and holds no character that ends a line or
/// separates words.
pub proof fn escaped_is_ascii(bytes: Seq<u8>)
    ensures
        is_ascii_chars(escaped(bytes)),
        forall|i: int|
            0 <= i < escaped(bytes).len() ==> 0x21 <= (#[trigger] escaped(bytes)[i]) as u32 <= 0x7E,
        encode_utf8(escaped(bytes)) == ascii_bytes(escaped(bytes)),
    decreases bytes.len(),
{
    let s = escaped(bytes);
    if bytes.len() > 0 {
        escaped_is_ascii(bytes.drop_last());
        let head = escaped(bytes.drop_last());
        let tail = escaped_byte(bytes.last());
        assert forall|i: int| 0 <= i < s.len() implies 0x21 <= (#[trigger] s[i]) as u32 <= 0x7E by {
            if i < head.len() {
                assert(s[i] == head[i]);
            } else {
                assert(s[i] == tail[i - head.len()]);
            }
        }
    }
    assert(is_ascii_chars(s));
    is_ascii_chars_encode_utf8(s);
    assert(encode_utf8(s) =~= ascii_bytes(s));
}

proof fn unescaped_front(b: u8, rest: Seq<u8>)
    ensures
        unescaped(ascii_bytes(escaped_byte(b)) + rest) == seq![b] + unescaped(rest),
{
    let e = escaped_byte(b);
    let s = ascii_bytes(e) + rest;
    if is_plain(b) {
        assert(s[0] == b);
        assert(s.skip(1) =~= rest);
        assert(escape_at_front(s) is None);
    } else {
        let (hi, lo) = (b as int / 16, b as int % 16);
        assert(s[0] == PERCENT);
        assert(s[1] == hex_digit(hi) as u8);
        assert(s[2] == hex_digit(lo) as u8);
        assert(hex_byte_value(s[1]) == Some(hi));
        assert(hex_byte_value(s[2]) == Some(lo));
        assert(hi * 16 + lo == b);
        assert(escape_at_front(s) == Some(b));
        assert(s.skip(3) =~= rest);
    }
}

proof fn unescaped_of_escaped(bytes: Seq<u8>, rest: Seq<u8>)
    ensures
        unescaped(ascii_bytes(escaped(bytes)) + rest) == bytes + unescaped(rest),
    decreases bytes.len(),
{
    if bytes.len() == 0 {
        assert(ascii_bytes(escaped(bytes)) + rest =~= rest);
        assert(bytes + unescaped(rest) =~= unescaped(rest));
    } else {
        let head = bytes.drop_last();
        let b = bytes.last();
        let tail = ascii_bytes(escaped_byte(b)) + rest;
        assert(ascii_bytes(escaped(bytes)) + rest =~= ascii_bytes(escaped(head)) + tail);
        unescaped_of_escaped(head, tail);
        unescaped_front(b, rest);
        assert(head + (seq![b] + unescaped(rest)) =~= bytes + unescaped(rest));
    }
}

/// Undoing the escapes of an escaped byte string gives it back, whatever its
/// bytes.
pub proof fn decode_of_encode_percent(bytes: Seq<u8>)
    ensures
        unescaped(encode_utf8(escaped(bytes))) == bytes,
{
    escaped_is_ascii(bytes);
    unescaped_of_escaped(bytes, Seq::empty());
    let s = ascii_bytes(escaped(bytes));
    assert(s + Seq::<u8>::empty() =~= s);
    assert(bytes + unescaped(Seq::empty()) =~= bytes);
}

/// Letters, digits and five marks stand for themselves; every other byte is
/// written as a percent sign and two upper-case hexadecimal digits.
pub proof fn bytes_are_escaped_one_by_one(bytes: Seq<u8>, b: u8)
    ensures
        escaped(Seq::empty()) == Seq::<char>::empty(),
        ({
            let c = b as char;
            let plain = 'A' <= c <= 'Z' || 'a' <= c <= 'z' || '0' <= c <= '9' || c == '-' || c
                == '_' || c == '.' || c == '~' || c == '/';
            let hex = |d: int|
                if d < 10 {
                    ('0' as int + d) as char
                } else {
                    ('A' as int + d - 10) as char
                };
            &&& plain ==> escaped(bytes.push(b)) == escaped(bytes).push(c)
            &&& !plain ==> escaped(bytes.push(b)) == escaped(bytes).push('%').push(
                hex(b as int / 16),
            ).push(hex(b as int % 16))
        }),
{
    assert(bytes.push(b).drop_last() =~= bytes);
    let r = escaped(bytes);
    let (x, y) = (hex_digit(b as int / 16), hex_digit(b as int % 16));
    assert(r + seq!['%', x, y] =~= r.push('%').push(x).push(y));
    assert(r + seq![b as char] =~= r.push(b as char));
}

/// A percent sign and two hexadecimal digits of either case stand for the
/// byte with that number; a percent sign before anything else stands for
/// itself, as every other byte does.
pub proof fn escapes_are_read_one_by_one(high: u8, low: u8, b: u8, rest: Seq<u8>)
    ensures
        unescaped(Seq::empty()) == Seq::<u8>::empty(),
        b != 0x25 ==> unescaped(seq![b] + rest) == seq![b] + unescaped(rest),
        hex_byte_value(high) matches Some(h) ==> hex_byte_value(low) matches Some(l) ==> unescaped(
            seq![0x25u8, high, low] + rest,
        ) == seq![(h * 16 + l) as u8] + unescaped(rest),
        hex_byte_value(high) is None || hex_byte_value(low) is None ==> unescaped(
            seq![0x25u8, high, low] + rest,
        ) == seq![0x25u8] + unescaped(seq![high, low] + rest),
        unescaped(seq![0x25u8]) == seq![0x25u8],
        unescaped(seq![0x25u8, high]) == seq![0x25u8] + unescaped(seq![high]),
        hex_byte_value(b) matches Some(v) ==> {
            ||| 0x30 <= b <= 0x39 && v == b - 0x30
            ||| 0x41 <= b <= 0x46 && v == b - 0x41 + 10
            ||| 0x61 <= b <= 0x66 && v == b - 0x61 + 10
        },
        (0x30 <= b <= 0x39 || 0x41 <= b <= 0x46 || 0x61 <= b <= 0x66) ==> hex_byte_value(b) is Some,
{
    reveal_with_fuel(unescaped, 2);
    let long = seq![0x25u8, high, low] + rest;
    assert(long.skip(3) =~= rest);
    assert(long.skip(1) =~= seq![high, low] + rest);
    assert((seq![b] + rest).skip(1) =~= rest);
    assert(seq![0x25u8].skip(1) =~= Seq::<u8>::empty());
    assert(seq![0x25u8] + Seq::<u8>::empty() =~= seq![0x25u8]);
    assert(seq![0x25u8, high].skip(1) =~= seq![high]);
}

} // verus!
