//! Fixed-width integers as byte sequences, little-endian and big-endian, and
//! the copying of byte runs into a buffer.

use vstd::prelude::*;

verus! {

/// The value of two bytes read as a little-endian integer.
pub open spec fn u16_from_le(b: Seq<u8>) -> nat
    recommends
        b.len() == 2,
{
    (b[0] as nat) + 256 * (b[1] as nat)
}

/// The value of four bytes read as a little-endian integer.
pub open spec fn u32_from_le(b: Seq<u8>) -> nat
    recommends
        b.len() == 4,
{
    (b[0] as nat) + 256 * ((b[1] as nat) + 256 * ((b[2] as nat) + 256 * (b[3] as nat)))
}

/// The value of eight bytes read as a little-endian integer.
pub open spec fn u64_from_le(b: Seq<u8>) -> nat
    recommends
        b.len() == 8,
{
    (b[0] as nat) + 256 * ((b[1] as nat) + 256 * ((b[2] as nat) + 256 * ((b[3] as nat) + 256 * ((
    b[4] as nat) + 256 * ((b[5] as nat) + 256 * ((b[6] as nat) + 256 * (b[7] as nat)))))))
}

/// The value of eight bytes read as a big-endian integer.
pub open spec fn u64_from_be(b: Seq<u8>) -> nat
    recommends
        b.len() == 8,
{
    (b[7] as nat) + 256 * ((b[6] as nat) + 256 * ((b[5] as nat) + 256 * ((b[4] as nat) + 256 * ((
    b[3] as nat) + 256 * ((b[2] as nat) + 256 * ((b[1] as nat) + 256 * (b[0] as nat)))))))
}

/// The four bytes of an integer, least significant first.
pub open spec fn u32_le_bytes(x: u32) -> Seq<u8> {
    let x1 = x / 256;
    let x2 = x1 / 256;
    let x3 = x2 / 256;
    seq![(x % 256) as u8, (x1 % 256) as u8, (x2 % 256) as u8, (x3 % 256) as u8]
}

/// The eight bytes of an integer, least significant first.
pub open spec fn u64_le_bytes(x: u64) -> Seq<u8> {
    let x1 = x / 256;
    let x2 = x1 / 256;
    let x3 = x2 / 256;
    let x4 = x3 / 256;
    let x5 = x4 / 256;
    let x6 = x5 / 256;
    let x7 = x6 / 256;
    seq![
        (x % 256) as u8,
        (x1 % 256) as u8,
        (x2 % 256) as u8,
        (x3 % 256) as u8,
        (x4 % 256) as u8,
        (x5 % 256) as u8,
        (x6 % 256) as u8,
        (x7 % 256) as u8,
    ]
}

/// The eight bytes of an integer, most significant first.
pub open spec fn u64_be_bytes(x: u64) -> Seq<u8> {
    u64_le_bytes(x).reverse()
}

/// Reading back the little-endian bytes of a 32-bit integer gives the integer.
pub proof fn lemma_u32_le_round_trip(x: u32)
    ensures
        u32_le_bytes(x).len() == 4,
        u32_from_le(u32_le_bytes(x)) == x,
{
}

/// Reading back the little-endian bytes of a 64-bit integer gives the integer.
pub proof fn lemma_u64_le_round_trip(x: u64)
    ensures
        u64_le_bytes(x).len() == 8,
        u64_from_le(u64_le_bytes(x)) == x,
{
}

/// Reading back the big-endian bytes of a 64-bit integer gives the integer.
pub proof fn lemma_u64_be_round_trip(x: u64)
    ensures
        u64_be_bytes(x).len() == 8,
        u64_from_be(u64_be_bytes(x)) == x,
{
    lemma_u64_le_round_trip(x);
    let le = u64_le_bytes(x);
    let be = u64_be_bytes(x);
    assert(be.len() == 8);
    assert(be[0] == le[7] && be[1] == le[6] && be[2] == le[5] && be[3] == le[4]);
    assert(be[4] == le[3] && be[5] == le[2] && be[6] == le[1] && be[7] == le[0]);
}

/// Number of bytes held by a length field: its first four bytes, little-endian.
pub fn count_from_le(array: &[u8]) -> (count: usize)
    requires
        array@.len() >= 4,
    ensures
        count == u32_from_le(array@.subrange(0, 4)),
{
    let b0: usize = array[0] as usize;
    let b1: usize = array[1] as usize;
    let b2: usize = array[2] as usize;
    let b3: usize = array[3] as usize;
    b0 + 256 * (b1 + 256 * (b2 + 256 * b3))
}

/// The little-endian integer in the eight bytes that start at `at`.
pub fn read_u64_le(src: &[u8], at: usize) -> (value: u64)
    requires
        at + 8 <= src@.len(),
    ensures
        value == u64_from_le(src@.subrange(at as int, at + 8)),
{
    let mut value: u64 = 0;
    let mut i: usize = 8;
    let ghost b = src@.subrange(at as int, at + 8);
    while i > 0
        invariant
            i <= 8,
            at + 8 <= src.len(),
            b == src@.subrange(at as int, at + 8),
            i == 8 ==> value == 0,
            i == 7 ==> value == b[7],
            i == 6 ==> value == (b[6] as nat) + 256 * (b[7] as nat),
            i == 5 ==> value == (b[5] as nat) + 256 * ((b[6] as nat) + 256 * (b[7] as nat)),
            i == 4 ==> value == (b[4] as nat) + 256 * ((b[5] as nat) + 256 * ((b[6] as nat) + 256
                * (b[7] as nat))),
            i == 3 ==> value == (b[3] as nat) + 256 * ((b[4] as nat) + 256 * ((b[5] as nat) + 256
                * ((b[6] as nat) + 256 * (b[7] as nat)))),
            i == 2 ==> value == (b[2] as nat) + 256 * ((b[3] as nat) + 256 * ((b[4] as nat) + 256
                * ((b[5] as nat) + 256 * ((b[6] as nat) + 256 * (b[7] as nat))))),
            i == 1 ==> value == (b[1] as nat) + 256 * ((b[2] as nat) + 256 * ((b[3] as nat) + 256
                * ((b[4] as nat) + 256 * ((b[5] as nat) + 256 * ((b[6] as nat) + 256 * (
            b[7] as nat)))))),
            i == 0 ==> value == u64_from_le(b),
        decreases i,
    {
        i = i - 1;
        let byte: u64 = src[at + i] as u64;
        assert(byte == b[i as int]);
        value = byte + 256 * value;
    }
    value
}

/// The four bytes of `x`, least significant first.
pub fn u32_to_le(x: u32) -> (bytes: [u8; 4])
    ensures
        bytes@ == u32_le_bytes(x),
{
    let x1: u32 = x / 256;
    let x2: u32 = x1 / 256;
    let x3: u32 = x2 / 256;
    let bytes: [u8; 4] = [(x % 256) as u8, (x1 % 256) as u8, (x2 % 256) as u8, (x3 % 256) as u8];
    assert(bytes@ =~= u32_le_bytes(x));
    bytes
}

/// The eight bytes of `x`, most significant first.
pub fn u64_to_be(x: u64) -> (bytes: [u8; 8])
    ensures
        bytes@ == u64_be_bytes(x),
{
    let x1: u64 = x / 256;
    let x2: u64 = x1 / 256;
    let x3: u64 = x2 / 256;
    let x4: u64 = x3 / 256;
    let x5: u64 = x4 / 256;
    let x6: u64 = x5 / 256;
    let x7: u64 = x6 / 256;
    let bytes: [u8; 8] = [
        (x7 % 256) as u8,
        (x6 % 256) as u8,
        (x5 % 256) as u8,
        (x4 % 256) as u8,
        (x3 % 256) as u8,
        (x2 % 256) as u8,
        (x1 % 256) as u8,
        (x % 256) as u8,
    ];
    assert(bytes@ =~= u64_be_bytes(x));
    bytes
}

/// The sixty-four bytes of `src` that start at `at`.
pub fn read_array_64(src: &[u8], at: usize) -> (bytes: [u8; 64])
    requires
        at + 64 <= src@.len(),
    ensures
        bytes@ == src@.subrange(at as int, at + 64),
{
    let mut bytes: [u8; 64] = [0u8; 64];
    let mut i: usize = 0;
    while i < 64
        invariant
            i <= 64,
            at + 64 <= src.len(),
            forall|j: int| 0 <= j < i ==> bytes@[j] == src@[at + j],
        decreases 64 - i,
    {
        bytes[i] = src[at + i];
        i = i + 1;
    }
    assert(bytes@ =~= src@.subrange(at as int, at + 64));
    bytes
}

/// The buffer `dst` with the bytes `src` laid over it from position `at` on.
pub open spec fn overlay(dst: Seq<u8>, at: int, src: Seq<u8>) -> Seq<u8>
    recommends
        0 <= at,
        at + src.len() <= dst.len(),
{
    Seq::new(
        dst.len(),
        |i: int|
            if at <= i < at + src.len() {
                src[i - at]
            } else {
                dst[i]
            },
    )
}

/// Copies `src` into `dst` from position `at` on and leaves the rest of `dst`
/// as it was.
pub fn copy_into(dst: &mut [u8], at: usize, src: &[u8])
    requires
        at + src@.len() <= old(dst)@.len(),
    ensures
        final(dst)@ == overlay(old(dst)@, at as int, src@),
{
    let n = src.len();
    let mut i: usize = 0;
    while i < n
        invariant
            i <= n,
            n == src@.len(),
            at + n <= dst.len(),
            dst@.len() == old(dst)@.len(),
            forall|j: int| 0 <= j < at ==> dst@[j] == old(dst)@[j],
            forall|j: int| at + i <= j < dst@.len() ==> dst@[j] == old(dst)@[j],
            forall|j: int| at <= j < at + i ==> dst@[j] == src@[j - at],
        decreases n - i,
    {
        dst[at + i] = src[i];
        i = i + 1;
    }
    assert(dst@ =~= overlay(old(dst)@, at as int, src@));
}

/// Whether two byte strings are equal.
pub fn bytes_equal(a: &[u8], b: &[u8]) -> (same: bool)
    ensures
        same == (a@ == b@),
{
    if a.len() != b.len() {
        return false;
    }
    let n = a.len();
    let mut i: usize = 0;
    while i < n
        invariant
            i <= n,
            n == a@.len(),
            n == b@.len(),
            forall|j: int| 0 <= j < i ==> a@[j] == b@[j],
        decreases n - i,
    {
        if a[i] != b[i] {
            return false;
        }
        i = i + 1;
    }
    assert(a@ =~= b@);
    true
}

} // verus!
