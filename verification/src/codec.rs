//! The bit codec: stateless conversion between a byte sequence and an ordered
//! sequence of bits, most-significant bit of each byte first.

use vstd::prelude::*;

verus! {

/// Bit `k` of byte `b`, most-significant bit first: bit 0 is the 128s place,
/// bit 7 the units place.
pub open spec fn bit_of_byte(b: u8, k: int) -> bool
    recommends
        0 <= k < 8,
{
    (b >> (7 - k) as u8) & 1 == 1
}

/// The bit stream that encodes `bytes`: eight bits per byte, in byte order,
/// most-significant bit first within each byte.
pub open spec fn bits_of(bytes: Seq<u8>) -> Seq<bool> {
    Seq::new(8 * bytes.len(), |i: int| bit_of_byte(bytes[i / 8], i % 8))
}

/// 1 if bit `i` of `bits` is set, 0 if it is clear or lies past the end.
pub open spec fn bitv(bits: Seq<bool>, i: int) -> int {
    if 0 <= i < bits.len() && bits[i] {
        1
    } else {
        0
    }
}

/// Byte `j` of the packed form of `bits`.  Bits past the end of `bits` read
/// as zero, so a short bit stream leaves trailing positions clear.
pub open spec fn packed_byte(bits: Seq<bool>, j: int) -> u8 {
    (bitv(bits, 8 * j) * 128 + bitv(bits, 8 * j + 1) * 64 + bitv(bits, 8 * j + 2) * 32 + bitv(
        bits,
        8 * j + 3,
    ) * 16 + bitv(bits, 8 * j + 4) * 8 + bitv(bits, 8 * j + 5) * 4 + bitv(bits, 8 * j + 6) * 2
        + bitv(bits, 8 * j + 7)) as u8
}

/// The `n`-byte buffer that packing `bits` produces.
pub open spec fn packed_bytes(bits: Seq<bool>, n: nat) -> Seq<u8> {
    Seq::new(n, |j: int| packed_byte(bits, j))
}

/// Encodes `bytes` as its bit stream, most-significant bit of each byte
/// first, producing exactly `8 * bytes.len()` bits.
pub fn encode(bytes: &Vec<u8>) -> (r: Vec<bool>)
    ensures
        r@ == bits_of(bytes@),
{
    let n = bytes.len();
    let mut r: Vec<bool> = Vec::new();
    let mut i: usize = 0;
    while i < n
        invariant
            i <= n,
            n == bytes@.len(),
            r@.len() == 8 * i,
            forall|t: int| 0 <= t < 8 * i ==> r@[t] == bits_of(bytes@)[t],
        decreases n - i,
    {
        let b = bytes[i];
        let mut k: usize = 0;
        while k < 8
            invariant
                k <= 8,
                i < n,
                n == bytes@.len(),
                b == bytes@[i as int],
                r@.len() == 8 * i + k,
                forall|t: int| 0 <= t < 8 * i + k ==> r@[t] == bits_of(bytes@)[t],
            decreases 8 - k,
        {
            let shift: u8 = (7 - k) as u8;
            r.push((b >> shift) & 1 == 1);
            proof {
                let t = 8 * (i as int) + k;
                assert(t / 8 == i as int && t % 8 == k as int);
                assert(bits_of(bytes@)[t] == bit_of_byte(b, k as int));
                assert(r@[t] == bit_of_byte(b, k as int));
            }
            k = k + 1;
        }
        i = i + 1;
    }
    proof {
        assert(r@ =~= bits_of(bytes@));
    }
    r
}

/// True when bit `i` of `bits` is set; positions past the end read as clear.
fn bit_at(bits: &Vec<bool>, i: usize) -> (r: bool)
    ensures
        r == (bitv(bits@, i as int) == 1),
{
    if i < bits.len() {
        bits[i]
    } else {
        false
    }
}

/// Assembles byte `j` of the packed form of `bits`, most-significant bit
/// first, with missing bits read as zero.
fn byte_at(bits: &Vec<bool>, j: usize) -> (r: u8)
    requires
        8 * j + 7 <= usize::MAX,
    ensures
        r == packed_byte(bits@, j as int),
{
    let base: usize = 8 * j;
    let mut r: u8 = 0;
    if bit_at(bits, base) {
        r = r + 128;
    }
    if bit_at(bits, base + 1) {
        r = r + 64;
    }
    if bit_at(bits, base + 2) {
        r = r + 32;
    }
    if bit_at(bits, base + 3) {
        r = r + 16;
    }
    if bit_at(bits, base + 4) {
        r = r + 8;
    }
    if bit_at(bits, base + 5) {
        r = r + 4;
    }
    if bit_at(bits, base + 6) {
        r = r + 2;
    }
    if bit_at(bits, base + 7) {
        r = r + 1;
    }
    r
}

/// Packs `bits` into `buf`, eight bits per byte, most-significant bit first:
/// bit `i` lands in byte `i / 8` at position `7 - i % 8`.  Positions that no
/// bit reaches are left zero, so a short bit stream leaves trailing bytes
/// zero.
pub fn pack(bits: &Vec<bool>, buf: &mut Vec<u8>)
    requires
        8 * old(buf).len() <= usize::MAX,
    ensures
        final(buf)@ == packed_bytes(bits@, old(buf).len() as nat),
{
    let n = buf.len();
    let mut j: usize = 0;
    while j < n
        invariant
            j <= n,
            n == buf@.len(),
            8 * n <= usize::MAX,
            forall|t: int| 0 <= t < j ==> buf@[t] == packed_byte(bits@, t),
        decreases n - j,
    {
        let v = byte_at(bits, j);
        buf[j] = v;
        j = j + 1;
    }
    proof {
        assert(final(buf)@ =~= packed_bytes(bits@, old(buf)@.len()));
    }
}

/// Packing the encoding of a byte sequence yields every byte back unchanged:
/// bit `8j + k` of the stream is bit `k` of byte `j`, and reassembling the
/// eight bits most-significant first restores the byte.
pub proof fn lemma_packed_byte_roundtrip(bytes: Seq<u8>, j: int)
    requires
        0 <= j < bytes.len(),
    ensures
        packed_byte(bits_of(bytes), j) == bytes[j],
{
    let b = bytes[j];
    let bits = bits_of(bytes);
    assert((8 * j + 0) / 8 == j && (8 * j + 0) % 8 == 0);
    assert((8 * j + 1) / 8 == j && (8 * j + 1) % 8 == 1);
    assert((8 * j + 2) / 8 == j && (8 * j + 2) % 8 == 2);
    assert((8 * j + 3) / 8 == j && (8 * j + 3) % 8 == 3);
    assert((8 * j + 4) / 8 == j && (8 * j + 4) % 8 == 4);
    assert((8 * j + 5) / 8 == j && (8 * j + 5) % 8 == 5);
    assert((8 * j + 6) / 8 == j && (8 * j + 6) % 8 == 6);
    assert((8 * j + 7) / 8 == j && (8 * j + 7) % 8 == 7);
    assert(((b >> 7) & 1) == 0 || ((b >> 7) & 1) == 1) by (bit_vector);
    assert(((b >> 6) & 1) == 0 || ((b >> 6) & 1) == 1) by (bit_vector);
    assert(((b >> 5) & 1) == 0 || ((b >> 5) & 1) == 1) by (bit_vector);
    assert(((b >> 4) & 1) == 0 || ((b >> 4) & 1) == 1) by (bit_vector);
    assert(((b >> 3) & 1) == 0 || ((b >> 3) & 1) == 1) by (bit_vector);
    assert(((b >> 2) & 1) == 0 || ((b >> 2) & 1) == 1) by (bit_vector);
    assert(((b >> 1) & 1) == 0 || ((b >> 1) & 1) == 1) by (bit_vector);
    assert(((b >> 0) & 1) == 0 || ((b >> 0) & 1) == 1) by (bit_vector);
    assert(bitv(bits, 8 * j + 0) == ((b >> 7) & 1) as int);
    assert(bitv(bits, 8 * j + 1) == ((b >> 6) & 1) as int);
    assert(bitv(bits, 8 * j + 2) == ((b >> 5) & 1) as int);
    assert(bitv(bits, 8 * j + 3) == ((b >> 4) & 1) as int);
    assert(bitv(bits, 8 * j + 4) == ((b >> 3) & 1) as int);
    assert(bitv(bits, 8 * j + 5) == ((b >> 2) & 1) as int);
    assert(bitv(bits, 8 * j + 6) == ((b >> 1) & 1) as int);
    assert(bitv(bits, 8 * j + 7) == ((b >> 0) & 1) as int);
    assert(((b >> 7) & 1) * 128 + ((b >> 6) & 1) * 64 + ((b >> 5) & 1) * 32 + ((b >> 4) & 1) * 16
        + ((b >> 3) & 1) * 8 + ((b >> 2) & 1) * 4 + ((b >> 1) & 1) * 2 + ((b >> 0) & 1) == b)
        by (bit_vector);
}

/// Round trip over whole sequences: packing the encoding of `bytes` into a
/// buffer of exactly `bytes.len()` bytes reproduces `bytes`.
pub proof fn lemma_pack_encode_roundtrip(bytes: Seq<u8>)
    ensures
        packed_bytes(bits_of(bytes), bytes.len()) == bytes,
{
    let p = packed_bytes(bits_of(bytes), bytes.len());
    assert forall|j: int| 0 <= j < bytes.len() implies p[j] == bytes[j] by {
        lemma_packed_byte_roundtrip(bytes, j);
    }
    assert(p =~= bytes);
}

/// Bit order: encoding a single byte and packing the eight bits back,
/// most-significant bit first on both sides, reproduces the byte unchanged.
pub proof fn lemma_bit_order(v: u8)
    ensures
        packed_bytes(bits_of(seq![v]), 1) == seq![v],
{
    lemma_pack_encode_roundtrip(seq![v]);
}

} // verus!

