//! The MD5 message digest (RFC 1321). It names cache files here; nothing
//! relies on it to be hard to forge.
use crate::text::{copy_bytes, hex_lower, hex_lower_char};
use vstd::prelude::*;
use vstd::slice::slice_subrange;

verus! {

/// How far each step rotates.
pub open spec fn shifts() -> Seq<u32> {
    seq![
        7, 12, 17, 22, 7, 12, 17, 22, 7, 12, 17, 22, 7, 12, 17, 22,
        5, 9, 14, 20, 5, 9, 14, 20, 5, 9, 14, 20, 5, 9, 14, 20,
        4, 11, 16, 23, 4, 11, 16, 23, 4, 11, 16, 23, 4, 11, 16, 23,
        6, 10, 15, 21, 6, 10, 15, 21, 6, 10, 15, 21, 6, 10, 15, 21,
    ]
}

/// The constant of each step: the whole part of 2^32 |sin(i + 1)|.
pub open spec fn sines() -> Seq<u32> {
    seq![
        0xd76aa478, 0xe8c7b756, 0x242070db, 0xc1bdceee,
        0xf57c0faf, 0x4787c62a, 0xa8304613, 0xfd469501,
        0x698098d8, 0x8b44f7af, 0xffff5bb1, 0x895cd7be,
        0x6b901122, 0xfd987193, 0xa679438e, 0x49b40821,
        0xf61e2562, 0xc040b340, 0x265e5a51, 0xe9b6c7aa,
        0xd62f105d, 0x02441453, 0xd8a1e681, 0xe7d3fbc8,
        0x21e1cde6, 0xc33707d6, 0xf4d50d87, 0x455a14ed,
        0xa9e3e905, 0xfcefa3f8, 0x676f02d9, 0x8d2a4c8a,
        0xfffa3942, 0x8771f681, 0x6d9d6122, 0xfde5380c,
        0xa4beea44, 0x4bdecfa9, 0xf6bb4b60, 0xbebfbc70,
        0x289b7ec6, 0xeaa127fa, 0xd4ef3085, 0x04881d05,
        0xd9d4d039, 0xe6db99e5, 0x1fa27cf8, 0xc4ac5665,
        0xf4292244, 0x432aff97, 0xab9423a7, 0xfc93a039,
        0x655b59c3, 0x8f0ccc92, 0xffeff47d, 0x85845dd1,
        0x6fa87e4f, 0xfe2ce6e0, 0xa3014314, 0x4e0811a1,
        0xf7537e82, 0xbd3af235, 0x2ad7d2bb, 0xeb86d391,
    ]
}

fn shift_table() -> (r: [u32; 64])
    ensures
        r@ == shifts(),
{
    let r: [u32; 64] = [
        7, 12, 17, 22, 7, 12, 17, 22, 7, 12, 17, 22, 7, 12, 17, 22,
        5, 9, 14, 20, 5, 9, 14, 20, 5, 9, 14, 20, 5, 9, 14, 20,
        4, 11, 16, 23, 4, 11, 16, 23, 4, 11, 16, 23, 4, 11, 16, 23,
        6, 10, 15, 21, 6, 10, 15, 21, 6, 10, 15, 21, 6, 10, 15, 21,
    ];
    assert(r@ =~= shifts());
    r
}

fn sine_table() -> (r: [u32; 64])
    ensures
        r@ == sines(),
{
    let r: [u32; 64] = [
        0xd76aa478, 0xe8c7b756, 0x242070db, 0xc1bdceee,
        0xf57c0faf, 0x4787c62a, 0xa8304613, 0xfd469501,
        0x698098d8, 0x8b44f7af, 0xffff5bb1, 0x895cd7be,
        0x6b901122, 0xfd987193, 0xa679438e, 0x49b40821,
        0xf61e2562, 0xc040b340, 0x265e5a51, 0xe9b6c7aa,
        0xd62f105d, 0x02441453, 0xd8a1e681, 0xe7d3fbc8,
        0x21e1cde6, 0xc33707d6, 0xf4d50d87, 0x455a14ed,
        0xa9e3e905, 0xfcefa3f8, 0x676f02d9, 0x8d2a4c8a,
        0xfffa3942, 0x8771f681, 0x6d9d6122, 0xfde5380c,
        0xa4beea44, 0x4bdecfa9, 0xf6bb4b60, 0xbebfbc70,
        0x289b7ec6, 0xeaa127fa, 0xd4ef3085, 0x04881d05,
        0xd9d4d039, 0xe6db99e5, 0x1fa27cf8, 0xc4ac5665,
        0xf4292244, 0x432aff97, 0xab9423a7, 0xfc93a039,
        0x655b59c3, 0x8f0ccc92, 0xffeff47d, 0x85845dd1,
        0x6fa87e4f, 0xfe2ce6e0, 0xa3014314, 0x4e0811a1,
        0xf7537e82, 0xbd3af235, 0x2ad7d2bb, 0xeb86d391,
    ];
    assert(r@ =~= sines());
    r
}

/// The four words of the state.
#[derive(Debug, Clone, Copy, PartialEq, Eq, Structural)]
pub struct Md5State {
    pub a: u32,
    pub b: u32,
    pub c: u32,
    pub d: u32,
}

/// The state before the first block.
pub open spec fn initial_state() -> Md5State {
    Md5State { a: 0x67452301, b: 0xefcdab89, c: 0x98badcfe, d: 0x10325476 }
}

/// The number of zero bytes in the padding of a message.
pub open spec fn zeros_for(len: nat) -> nat {
    ((55 - len) % 64) as nat
}

/// The bytes of a number, the lowest first.
pub open spec fn low_first(n: nat, count: nat) -> Seq<u8>
    decreases count,
{
    if count == 0 {
        Seq::empty()
    } else {
        seq![(n % 256) as u8] + low_first(n / 256, (count - 1) as nat)
    }
}

/// A message with its padding: a one bit, zeros, and the length in bits.
pub open spec fn padded(message: Seq<u8>) -> Seq<u8> {
    message + seq![0x80u8] + Seq::new(zeros_for(message.len()), |i: int| 0u8) + low_first(
        (message.len() * 8) % 0x1_0000_0000_0000_0000,
        8,
    )
}

/// The word whose bytes start at `i`, the lowest first.
pub open spec fn word_at(bytes: Seq<u8>, i: int) -> u32 {
    (bytes[i] + 0x100 * bytes[i + 1] + 0x1_0000 * bytes[i + 2] + 0x100_0000 * bytes[i + 3]) as u32
}

/// `x` rotated to the left by `n` bits.
pub open spec fn rotated(x: u32, n: u32) -> u32 {
    (x << n) | (x >> sub_bits(n))
}

/// What is left of 32 bits behind `n`.
pub open spec fn sub_bits(n: u32) -> u32 {
    (32 - n) as u32
}

/// What a step mixes of the three words it does not replace.
pub open spec fn mixed(s: Md5State, i: int) -> u32 {
    if i < 16 {
        (s.b & s.c) | (!s.b & s.d)
    } else if i < 32 {
        (s.d & s.b) | (!s.d & s.c)
    } else if i < 48 {
        s.b ^ s.c ^ s.d
    } else {
        s.c ^ (s.b | !s.d)
    }
}

/// Which word of the block a step adds.
pub open spec fn word_index(i: int) -> int {
    if i < 16 {
        i
    } else if i < 32 {
        (5 * i + 1) % 16
    } else if i < 48 {
        (3 * i + 5) % 16
    } else {
        (7 * i) % 16
    }
}

/// One of the 64 steps on a block.
pub open spec fn md5_step(s: Md5State, block: Seq<u8>, i: int) -> Md5State {
    let f = mixed(s, i).wrapping_add(s.a).wrapping_add(sines()[i]).wrapping_add(
        word_at(block, 4 * word_index(i)),
    );
    Md5State { a: s.d, b: s.b.wrapping_add(rotated(f, shifts()[i])), c: s.b, d: s.c }
}

/// The first `n` steps on a block.
pub open spec fn md5_steps(s: Md5State, block: Seq<u8>, n: int) -> Md5State
    decreases n,
{
    if n <= 0 {
        s
    } else {
        md5_step(md5_steps(s, block, n - 1), block, n - 1)
    }
}

/// The state after a block.
pub open spec fn after_block(s: Md5State, block: Seq<u8>) -> Md5State {
    let t = md5_steps(s, block, 64);
    Md5State {
        a: s.a.wrapping_add(t.a),
        b: s.b.wrapping_add(t.b),
        c: s.c.wrapping_add(t.c),
        d: s.d.wrapping_add(t.d),
    }
}

/// The state after the first `n` blocks of a message.
pub open spec fn after_blocks(bytes: Seq<u8>, n: int) -> Md5State
    decreases n,
{
    if n <= 0 {
        initial_state()
    } else {
        after_block(after_blocks(bytes, n - 1), bytes.subrange(64 * (n - 1), 64 * n))
    }
}

/// The digest of a message.
pub open spec fn md5_of(message: Seq<u8>) -> Seq<u8> {
    let bytes = padded(message);
    let s = after_blocks(bytes, bytes.len() as int / 64);
    low_first(s.a as nat, 4) + low_first(s.b as nat, 4) + low_first(s.c as nat, 4) + low_first(
        s.d as nat,
        4,
    )
}

/// Bytes as two hexadecimal digits each.
pub open spec fn hex_of(bytes: Seq<u8>) -> Seq<char>
    decreases bytes.len(),
{
    if bytes.len() == 0 {
        Seq::empty()
    } else {
        hex_of(bytes.drop_last()).push(hex_lower(bytes.last() as int / 16)).push(
            hex_lower(bytes.last() as int % 16),
        )
    }
}

fn push_low_first(out: Vec<u8>, n: u64, count: usize) -> (r: Vec<u8>)
    ensures
        r@ == out@ + low_first(n as nat, count as nat),
    decreases count,
{
    if count == 0 {
        assert(out@ + low_first(n as nat, 0) =~= out@);
        out
    } else {
        let mut out = out;
        let ghost before = out@;
        out.push((n % 256) as u8);
        let r = push_low_first(out, n / 256, count - 1);
        assert(r@ =~= before + low_first(n as nat, count as nat));
        r
    }
}

fn pad(message: &[u8]) -> (r: Vec<u8>)
    ensures
        r@ == padded(message@),
        r@.len() % 64 == 0,
{
    let len = message.len();
    let mut out = copy_bytes(message);
    out.push(0x80);
    let ghost head = message@ + seq![0x80u8];
    assert(out@ =~= head);
    let zeros: usize = if len % 64 <= 55 {
        55 - len % 64
    } else {
        119 - len % 64
    };
    assert(zeros as nat == zeros_for(message@.len()));
    for i in 0..zeros
        invariant
            out@ == head + Seq::new(i as nat, |j: int| 0u8),
    {
        let ghost before = out@;
        out.push(0);
        assert(out@ =~= head + Seq::new((i + 1) as nat, |j: int| 0u8));
    }
    let bits: u64 = (len as u64).wrapping_mul(8);
    assert(bits as nat == (message@.len() * 8) % 0x1_0000_0000_0000_0000);
    let out = push_low_first(out, bits, 8);
    proof {
        low_first_len(bits as nat, 8);
    }
    out
}

proof fn low_first_len(n: nat, count: nat)
    ensures
        low_first(n, count).len() == count,
    decreases count,
{
    if count > 0 {
        low_first_len(n / 256, (count - 1) as nat);
    }
}

fn read_word(bytes: &[u8], i: usize) -> (r: u32)
    requires
        i + 3 < bytes@.len(),
    ensures
        r == word_at(bytes@, i as int),
{
    bytes[i] as u32 + 0x100 * (bytes[i + 1] as u32) + 0x1_0000 * (bytes[i + 2] as u32) + 0x100_0000
        * (bytes[i + 3] as u32)
}

fn rotate(x: u32, n: u32) -> (r: u32)
    requires
        0 < n < 32,
    ensures
        r == rotated(x, n),
{
    (x << n) | (x >> (32 - n))
}

proof fn shifts_are_small(i: int)
    requires
        0 <= i < 64,
    ensures
        0 < shifts()[i] < 32,
{
}

fn run_step(s: Md5State, block: &[u8], i: usize, k: &[u32; 64], r: &[u32; 64]) -> (t: Md5State)
    requires
        block@.len() == 64,
        i < 64,
        k@ == sines(),
        r@ == shifts(),
    ensures
        t == md5_step(s, block@, i as int),
{
    let f = if i < 16 {
        (s.b & s.c) | (!s.b & s.d)
    } else if i < 32 {
        (s.d & s.b) | (!s.d & s.c)
    } else if i < 48 {
        s.b ^ s.c ^ s.d
    } else {
        s.c ^ (s.b | !s.d)
    };
    let g = if i < 16 {
        i
    } else if i < 32 {
        (5 * i + 1) % 16
    } else if i < 48 {
        (3 * i + 5) % 16
    } else {
        (7 * i) % 16
    };
    let word = read_word(block, 4 * g);
    let f = f.wrapping_add(s.a).wrapping_add(k[i]).wrapping_add(word);
    proof {
        shifts_are_small(i as int);
    }
    Md5State { a: s.d, b: s.b.wrapping_add(rotate(f, r[i])), c: s.b, d: s.c }
}

/// The digest of a message.
pub fn digest(message: &[u8]) -> (r: Vec<u8>)
    ensures
        r@ == md5_of(message@),
{
    let bytes = pad(message);
    let k = sine_table();
    let turns = shift_table();
    let mut s = Md5State { a: 0x67452301, b: 0xefcdab89, c: 0x98badcfe, d: 0x10325476 };
    let blocks = bytes.len() / 64;
    for n in 0..blocks
        invariant
            bytes@.len() % 64 == 0,
            blocks == bytes@.len() as int / 64,
            k@ == sines(),
            turns@ == shifts(),
            s == after_blocks(bytes@, n as int),
    {
        let block = slice_subrange(bytes.as_slice(), 64 * n, 64 * n + 64);
        assert(block@ =~= bytes@.subrange(64 * n, 64 * (n + 1)));
        let mut t = s;
        for i in 0..64usize
            invariant
                block@.len() == 64,
                k@ == sines(),
                turns@ == shifts(),
                t == md5_steps(s, block@, i as int),
        {
            t = run_step(t, block, i, &k, &turns);
        }
        s = Md5State {
            a: s.a.wrapping_add(t.a),
            b: s.b.wrapping_add(t.b),
            c: s.c.wrapping_add(t.c),
            d: s.d.wrapping_add(t.d),
        };
    }
    let out: Vec<u8> = Vec::new();
    let out = push_low_first(out, s.a as u64, 4);
    let out = push_low_first(out, s.b as u64, 4);
    let out = push_low_first(out, s.c as u64, 4);
    let out = push_low_first(out, s.d as u64, 4);
    assert(out@ =~= md5_of(message@));
    out
}

/// The digest of a message in hexadecimal.
pub fn hex_digest(message: &[u8]) -> (r: String)
    ensures
        r@ == hex_of(md5_of(message@)),
{
    let bytes = digest(message);
    let mut out = String::new();
    assert(bytes@.take(0) =~= Seq::empty());
    assert(out@ =~= hex_of(bytes@.take(0)));
    for i in 0..bytes.len()
        invariant
            out@ == hex_of(bytes@.take(i as int)),
    {
        proof {
            assert(bytes@.take(i + 1).drop_last() =~= bytes@.take(i as int));
        }
        out.push(hex_lower_char(bytes[i] / 16));
        out.push(hex_lower_char(bytes[i] % 16));
    }
    assert(bytes@.take(bytes@.len() as int) =~= bytes@);
    out
}

// ---------------------------------------------------------------------------
// Laws
// ---------------------------------------------------------------------------

proof fn hex_len(bytes: Seq<u8>)
    ensures
        hex_of(bytes).len() == 2 * bytes.len(),
    decreases bytes.len(),
{
    if bytes.len() > 0 {
        hex_len(bytes.drop_last());
    }
}

/// A digest is always 16 bytes, and 32 hexadecimal digits.
pub proof fn digest_length(message: Seq<u8>)
    ensures
        md5_of(message).len() == 16,
        hex_of(md5_of(message)).len() == 32,
{
    let bytes = padded(message);
    let s = after_blocks(bytes, bytes.len() as int / 64);
    low_first_len(s.a as nat, 4);
    low_first_len(s.b as nat, 4);
    low_first_len(s.c as nat, 4);
    low_first_len(s.d as nat, 4);
    hex_len(md5_of(message));
}

/// A padded message is a whole number of blocks.
pub proof fn padding_fills_blocks(message: Seq<u8>)
    ensures
        padded(message).len() % 64 == 0,
        padded(message).len() > message.len(),
        message.is_prefix_of(padded(message)),
{
    low_first_len((message.len() * 8) % 0x1_0000_0000_0000_0000, 8);
    assert(padded(message).take(message.len() as int) =~= message);
}

} // verus!
