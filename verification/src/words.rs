//! Fixed-width identifiers and big-endian byte codecs.
//!
//! Account ids (x-only public keys) and transaction ids are 32-byte strings.
//! They are held as four big-endian `u64` words, so that structural equality
//! is available in contracts and lexicographic byte order coincides with
//! word-tuple order.

use vstd::prelude::*;

verus! {

/// A 32-byte string as four big-endian `u64` words; `w0` holds the first
/// (most significant) eight bytes.
#[derive(Clone, Copy, Debug, PartialEq, Eq, Structural, Hash)]
pub struct Bytes32 {
    pub w0: u64,
    pub w1: u64,
    pub w2: u64,
    pub w3: u64,
}

/// An account is identified by the 32-byte x-only public key that signs for it.
pub type AccountId = Bytes32;

/// The transaction outpoint a deposit was made at.
#[derive(Clone, Copy, Debug, PartialEq, Eq, Structural, Hash)]
pub struct OutPoint {
    pub txid: Bytes32,
    pub out_idx: u32,
}

/// Byte `i` (0 = most significant) of `x` in big-endian order.
pub open spec fn u64_be_byte(x: u64, i: int) -> u8
    recommends
        0 <= i < 8,
{
    let sh = ((7 - i) * 8) as u64;
    let masked = (x >> sh) & 0xff;
    masked as u8
}

/// The eight bytes of `x` in big-endian order.
pub open spec fn u64_be(x: u64) -> Seq<u8> {
    Seq::new(8, |i: int| u64_be_byte(x, i))
}

/// The value packed back from eight bytes, most significant first.
pub open spec fn u64_pack(b0: u8, b1: u8, b2: u8, b3: u8, b4: u8, b5: u8, b6: u8, b7: u8) -> u64 {
    let x0 = (b0 as u64) << 56u64;
    let x1 = (b1 as u64) << 48u64;
    let x2 = (b2 as u64) << 40u64;
    let x3 = (b3 as u64) << 32u64;
    let x4 = (b4 as u64) << 24u64;
    let x5 = (b5 as u64) << 16u64;
    let x6 = (b6 as u64) << 8u64;
    let x7 = b7 as u64;
    x0 | x1 | x2 | x3 | x4 | x5 | x6 | x7
}

/// The value read back from eight big-endian bytes.
pub open spec fn u64_of_be(s: Seq<u8>) -> u64
    recommends
        s.len() == 8,
{
    u64_pack(s[0], s[1], s[2], s[3], s[4], s[5], s[6], s[7])
}

/// The 32 bytes of a [`Bytes32`], most significant word first.
pub open spec fn bytes32_be(b: Bytes32) -> Seq<u8> {
    u64_be(b.w0) + u64_be(b.w1) + u64_be(b.w2) + u64_be(b.w3)
}

/// Packing the eight big-endian bytes of `x` yields `x` again.
proof fn lemma_u64_pack_unpack(x: u64, b0: u8, b1: u8, b2: u8, b3: u8, b4: u8, b5: u8, b6: u8, b7: u8)
    requires
        b0 == u64_be_byte(x, 0),
        b1 == u64_be_byte(x, 1),
        b2 == u64_be_byte(x, 2),
        b3 == u64_be_byte(x, 3),
        b4 == u64_be_byte(x, 4),
        b5 == u64_be_byte(x, 5),
        b6 == u64_be_byte(x, 6),
        b7 == u64_be_byte(x, 7),
    ensures
        u64_pack(b0, b1, b2, b3, b4, b5, b6, b7) == x,
{
    assert(u64_pack(b0, b1, b2, b3, b4, b5, b6, b7) == x) by (bit_vector)
        requires
            b0 == ((x >> 56u64) & 0xff) as u8,
            b1 == ((x >> 48u64) & 0xff) as u8,
            b2 == ((x >> 40u64) & 0xff) as u8,
            b3 == ((x >> 32u64) & 0xff) as u8,
            b4 == ((x >> 24u64) & 0xff) as u8,
            b5 == ((x >> 16u64) & 0xff) as u8,
            b6 == ((x >> 8u64) & 0xff) as u8,
            b7 == ((x >> 0u64) & 0xff) as u8;
}

/// Each byte of the packed value is the byte that was packed.
proof fn lemma_u64_unpack_pack(b0: u8, b1: u8, b2: u8, b3: u8, b4: u8, b5: u8, b6: u8, b7: u8)
    ensures
        u64_be_byte(u64_pack(b0, b1, b2, b3, b4, b5, b6, b7), 0) == b0,
        u64_be_byte(u64_pack(b0, b1, b2, b3, b4, b5, b6, b7), 1) == b1,
        u64_be_byte(u64_pack(b0, b1, b2, b3, b4, b5, b6, b7), 2) == b2,
        u64_be_byte(u64_pack(b0, b1, b2, b3, b4, b5, b6, b7), 3) == b3,
        u64_be_byte(u64_pack(b0, b1, b2, b3, b4, b5, b6, b7), 4) == b4,
        u64_be_byte(u64_pack(b0, b1, b2, b3, b4, b5, b6, b7), 5) == b5,
        u64_be_byte(u64_pack(b0, b1, b2, b3, b4, b5, b6, b7), 6) == b6,
        u64_be_byte(u64_pack(b0, b1, b2, b3, b4, b5, b6, b7), 7) == b7,
{
    let x = u64_pack(b0, b1, b2, b3, b4, b5, b6, b7);
    assert({
        &&& ((x >> 56u64) & 0xff) as u8 == b0
        &&& ((x >> 48u64) & 0xff) as u8 == b1
        &&& ((x >> 40u64) & 0xff) as u8 == b2
        &&& ((x >> 32u64) & 0xff) as u8 == b3
        &&& ((x >> 24u64) & 0xff) as u8 == b4
        &&& ((x >> 16u64) & 0xff) as u8 == b5
        &&& ((x >> 8u64) & 0xff) as u8 == b6
        &&& ((x >> 0u64) & 0xff) as u8 == b7
    }) by (bit_vector)
        requires
            x == u64_pack(b0, b1, b2, b3, b4, b5, b6, b7);
}

/// Reading back the eight big-endian bytes of `x` yields `x`.
pub proof fn lemma_u64_be_round_trip(x: u64)
    ensures
        u64_of_be(u64_be(x)) == x,
{
    let s = u64_be(x);
    lemma_u64_pack_unpack(x, s[0], s[1], s[2], s[3], s[4], s[5], s[6], s[7]);
}

/// Writing the bytes of the value read from `s` yields `s` again.
pub proof fn lemma_u64_of_be_inverse(s: Seq<u8>)
    requires
        s.len() == 8,
    ensures
        u64_be(u64_of_be(s)) == s,
{
    lemma_u64_unpack_pack(s[0], s[1], s[2], s[3], s[4], s[5], s[6], s[7]);
    assert(u64_be(u64_of_be(s)) =~= s);
}

/// Appends the eight big-endian bytes of `x` to `out`.
pub fn u64_write_be(x: u64, out: &mut Vec<u8>)
    ensures
        final(out)@ == old(out)@ + u64_be(x),
{
    let mut i: usize = 0;
    while i < 8
        invariant
            i <= 8,
            out@ == old(out)@ + u64_be(x).take(i as int),
        decreases 8 - i,
    {
        let sh: u64 = (7 - i as u64) * 8;
        let byte_val: u64 = (x >> sh) & 0xff;
        assert((x >> sh) & 0xff < 256) by (bit_vector);
        out.push(byte_val as u8);
        i = i + 1;
        proof {
            assert(out@ =~= old(out)@ + u64_be(x).take(i as int));
        }
    }
    proof {
        assert(out@ =~= old(out)@ + u64_be(x));
    }
}

/// Reads a `u64` from eight big-endian bytes starting at `off`.
pub fn u64_read_be(b: &Vec<u8>, off: usize) -> (r: u64)
    requires
        off + 8 <= b@.len(),
    ensures
        r == u64_of_be(b@.subrange(off as int, off as int + 8)),
{
    let n: usize = b.len();
    assert(off + 8 <= n);
    let x0: u64 = (b[off] as u64) << 56u64;
    let x1: u64 = (b[off + 1] as u64) << 48u64;
    let x2: u64 = (b[off + 2] as u64) << 40u64;
    let x3: u64 = (b[off + 3] as u64) << 32u64;
    let x4: u64 = (b[off + 4] as u64) << 24u64;
    let x5: u64 = (b[off + 5] as u64) << 16u64;
    let x6: u64 = (b[off + 6] as u64) << 8u64;
    let x7: u64 = b[off + 7] as u64;
    let r: u64 = x0 | x1 | x2 | x3 | x4 | x5 | x6 | x7;
    proof {
        let s = b@.subrange(off as int, off as int + 8);
        assert(s[0] == b@[off as int]);
        assert(s[1] == b@[off as int + 1]);
        assert(s[2] == b@[off as int + 2]);
        assert(s[3] == b@[off as int + 3]);
        assert(s[4] == b@[off as int + 4]);
        assert(s[5] == b@[off as int + 5]);
        assert(s[6] == b@[off as int + 6]);
        assert(s[7] == b@[off as int + 7]);
    }
    r
}

impl Bytes32 {
    /// The all-zero string.
    pub fn zero() -> (r: Bytes32)
        ensures
            r == (Bytes32 { w0: 0u64, w1: 0u64, w2: 0u64, w3: 0u64 }),
    {
        Bytes32 { w0: 0, w1: 0, w2: 0, w3: 0 }
    }

    /// Appends the 32 bytes to `out`.
    pub fn write_bytes(&self, out: &mut Vec<u8>)
        ensures
            final(out)@ == old(out)@ + bytes32_be(*self),
    {
        u64_write_be(self.w0, out);
        u64_write_be(self.w1, out);
        u64_write_be(self.w2, out);
        u64_write_be(self.w3, out);
        proof {
            assert(out@ =~= old(out)@ + bytes32_be(*self));
        }
    }

    /// The 32 bytes as a fresh vector.
    pub fn to_bytes(&self) -> (r: Vec<u8>)
        ensures
            r@ == bytes32_be(*self),
    {
        let mut out: Vec<u8> = Vec::new();
        self.write_bytes(&mut out);
        out
    }

    /// Reads a [`Bytes32`] from 32 bytes starting at `off`.
    pub fn read_bytes(b: &Vec<u8>, off: usize) -> (r: Bytes32)
        requires
            off + 32 <= b@.len(),
        ensures
            bytes32_be(r) == b@.subrange(off as int, off as int + 32),
    {
        let n: usize = b.len();
        assert(off + 32 <= n);
        let r = Bytes32 {
            w0: u64_read_be(b, off),
            w1: u64_read_be(b, off + 8),
            w2: u64_read_be(b, off + 16),
            w3: u64_read_be(b, off + 24),
        };
        proof {
            lemma_u64_of_be_inverse(b@.subrange(off as int, off as int + 8));
            lemma_u64_of_be_inverse(b@.subrange(off as int + 8, off as int + 16));
            lemma_u64_of_be_inverse(b@.subrange(off as int + 16, off as int + 24));
            lemma_u64_of_be_inverse(b@.subrange(off as int + 24, off as int + 32));
            assert(bytes32_be(r) =~= b@.subrange(off as int, off as int + 32));
        }
        r
    }

    /// Builds the id from a 32-byte string.
    pub fn from_bytes(b: &Vec<u8>) -> (r: Bytes32)
        requires
            b@.len() == 32,
        ensures
            bytes32_be(r) == b@,
    {
        let r = Bytes32::read_bytes(b, 0);
        proof {
            assert(b@.subrange(0, 32) =~= b@);
        }
        r
    }

    /// Lexicographic byte order coincides with word-tuple order.
    pub fn le(&self, other: &Bytes32) -> (r: bool)
        ensures
            r == bytes32_word_le(*self, *other),
    {
        if self.w0 != other.w0 {
            self.w0 < other.w0
        } else if self.w1 != other.w1 {
            self.w1 < other.w1
        } else if self.w2 != other.w2 {
            self.w2 < other.w2
        } else {
            self.w3 <= other.w3
        }
    }
}

/// Word-lexicographic order on 32-byte strings.
pub open spec fn bytes32_word_le(a: Bytes32, b: Bytes32) -> bool {
    if a.w0 != b.w0 {
        a.w0 < b.w0
    } else if a.w1 != b.w1 {
        a.w1 < b.w1
    } else if a.w2 != b.w2 {
        a.w2 < b.w2
    } else {
        a.w3 <= b.w3
    }
}

} // verus!
