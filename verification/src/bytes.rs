//! Big-endian 16 bit words and LSB-first bit packing: the two primitive
//! layouts that every Modbus payload is built from, with the executable
//! readers and writers and the round-trip lemmas about them.
#![allow(unused_imports)]
use vstd::prelude::*;

verus! {

/// The most significant byte of a word (transmitted first).
pub open spec fn hi(w: u16) -> u8 {
    (w / 256) as u8
}

/// The least significant byte of a word (transmitted second).
pub open spec fn lo(w: u16) -> u8 {
    (w % 256) as u8
}

/// The word read big-endian from the byte pair `(h, l)`.
pub open spec fn be16(h: u8, l: u8) -> u16 {
    (h as int * 256 + l as int) as u16
}

/// Splitting a word into bytes and reading them back is the identity.
pub proof fn lemma_be16_split(w: u16)
    ensures
        be16(hi(w), lo(w)) == w,
{
}

/// `1`, if coil `i` exists and is set, else `0`.
pub open spec fn coil_bit(coils: Seq<bool>, i: int) -> u8 {
    if 0 <= i < coils.len() && coils[i] {
        1
    } else {
        0
    }
}

/// The weight of bit `j` of a byte, LSB first.
pub open spec fn bit_weight(j: int) -> int {
    if j <= 0 {
        1
    } else if j == 1 {
        2
    } else if j == 2 {
        4
    } else if j == 3 {
        8
    } else if j == 4 {
        16
    } else if j == 5 {
        32
    } else if j == 6 {
        64
    } else {
        128
    }
}

/// Bit `j` of the byte `b`, LSB first.
pub open spec fn bit_of(b: u8, j: int) -> bool {
    (b as int / bit_weight(j)) % 2 == 1
}

/// Byte `k` of a bit-packed coil array: each coil occupies one bit, least
/// significant bit first, and bits past the end of the array are `0`.
pub open spec fn coil_byte(coils: Seq<bool>, k: int) -> u8 {
    (coil_bit(coils, 8 * k) + 2 * coil_bit(coils, 8 * k + 1) + 4 * coil_bit(coils, 8 * k + 2) + 8
        * coil_bit(coils, 8 * k + 3) + 16 * coil_bit(coils, 8 * k + 4) + 32 * coil_bit(
        coils,
        8 * k + 5,
    ) + 64 * coil_bit(coils, 8 * k + 6) + 128 * coil_bit(coils, 8 * k + 7)) as u8
}

/// The number of bytes that `n` bit-packed coils occupy.
pub open spec fn coil_byte_count(n: nat) -> nat {
    (n + 7) / 8
}

/// The bit-packed form of a coil array.
pub open spec fn packed_coils(coils: Seq<bool>) -> Seq<u8> {
    Seq::new(coil_byte_count(coils.len()), |k: int| coil_byte(coils, k))
}

/// The first `n` bits of `bytes`, LSB first within each byte, as coils.
pub open spec fn unpacked_coils(bytes: Seq<u8>, n: nat) -> Seq<bool> {
    Seq::new(n, |i: int| bit_of(bytes[i / 8], i % 8))
}

/// Reading bit `j` back out of a packed coil byte yields the packed coil.
proof fn lemma_coil_byte_bit(coils: Seq<bool>, k: int, j: int)
    requires
        0 <= j < 8,
    ensures
        bit_of(coil_byte(coils, k), j) == (coil_bit(coils, 8 * k + j) == 1),
{
    let b0 = coil_bit(coils, 8 * k);
    let b1 = coil_bit(coils, 8 * k + 1);
    let b2 = coil_bit(coils, 8 * k + 2);
    let b3 = coil_bit(coils, 8 * k + 3);
    let b4 = coil_bit(coils, 8 * k + 4);
    let b5 = coil_bit(coils, 8 * k + 5);
    let b6 = coil_bit(coils, 8 * k + 6);
    let b7 = coil_bit(coils, 8 * k + 7);
    let s = b0 + 2 * b1 + 4 * b2 + 8 * b3 + 16 * b4 + 32 * b5 + 64 * b6 + 128 * b7;
    assert(coil_byte(coils, k) == s as u8);
    assert(b0 <= 1 && b1 <= 1 && b2 <= 1 && b3 <= 1 && b4 <= 1 && b5 <= 1 && b6 <= 1 && b7 <= 1);
    assert(s <= 255);
    assert(s as u8 as int == s as int);
    if j == 0 {
        assert((s as int / 1) % 2 == b0 as int) by (nonlinear_arith)
            requires
                s == b0 + 2 * b1 + 4 * b2 + 8 * b3 + 16 * b4 + 32 * b5 + 64 * b6 + 128 * b7,
                b0 <= 1 && b1 <= 1 && b2 <= 1 && b3 <= 1 && b4 <= 1 && b5 <= 1 && b6 <= 1 && b7
                    <= 1,
        ;
    } else if j == 1 {
        assert((s as int / 2) % 2 == b1 as int) by (nonlinear_arith)
            requires
                s == b0 + 2 * b1 + 4 * b2 + 8 * b3 + 16 * b4 + 32 * b5 + 64 * b6 + 128 * b7,
                b0 <= 1 && b1 <= 1 && b2 <= 1 && b3 <= 1 && b4 <= 1 && b5 <= 1 && b6 <= 1 && b7
                    <= 1,
        ;
    } else if j == 2 {
        assert((s as int / 4) % 2 == b2 as int) by (nonlinear_arith)
            requires
                s == b0 + 2 * b1 + 4 * b2 + 8 * b3 + 16 * b4 + 32 * b5 + 64 * b6 + 128 * b7,
                b0 <= 1 && b1 <= 1 && b2 <= 1 && b3 <= 1 && b4 <= 1 && b5 <= 1 && b6 <= 1 && b7
                    <= 1,
        ;
    } else if j == 3 {
        assert((s as int / 8) % 2 == b3 as int) by (nonlinear_arith)
            requires
                s == b0 + 2 * b1 + 4 * b2 + 8 * b3 + 16 * b4 + 32 * b5 + 64 * b6 + 128 * b7,
                b0 <= 1 && b1 <= 1 && b2 <= 1 && b3 <= 1 && b4 <= 1 && b5 <= 1 && b6 <= 1 && b7
                    <= 1,
        ;
    } else if j == 4 {
        assert((s as int / 16) % 2 == b4 as int) by (nonlinear_arith)
            requires
                s == b0 + 2 * b1 + 4 * b2 + 8 * b3 + 16 * b4 + 32 * b5 + 64 * b6 + 128 * b7,
                b0 <= 1 && b1 <= 1 && b2 <= 1 && b3 <= 1 && b4 <= 1 && b5 <= 1 && b6 <= 1 && b7
                    <= 1,
        ;
    } else if j == 5 {
        assert((s as int / 32) % 2 == b5 as int) by (nonlinear_arith)
            requires
                s == b0 + 2 * b1 + 4 * b2 + 8 * b3 + 16 * b4 + 32 * b5 + 64 * b6 + 128 * b7,
                b0 <= 1 && b1 <= 1 && b2 <= 1 && b3 <= 1 && b4 <= 1 && b5 <= 1 && b6 <= 1 && b7
                    <= 1,
        ;
    } else if j == 6 {
        assert((s as int / 64) % 2 == b6 as int) by (nonlinear_arith)
            requires
                s == b0 + 2 * b1 + 4 * b2 + 8 * b3 + 16 * b4 + 32 * b5 + 64 * b6 + 128 * b7,
                b0 <= 1 && b1 <= 1 && b2 <= 1 && b3 <= 1 && b4 <= 1 && b5 <= 1 && b6 <= 1 && b7
                    <= 1,
        ;
    } else {
        assert((s as int / 128) % 2 == b7 as int) by (nonlinear_arith)
            requires
                s == b0 + 2 * b1 + 4 * b2 + 8 * b3 + 16 * b4 + 32 * b5 + 64 * b6 + 128 * b7,
                b0 <= 1 && b1 <= 1 && b2 <= 1 && b3 <= 1 && b4 <= 1 && b5 <= 1 && b6 <= 1 && b7
                    <= 1,
        ;
    }
}

/// Unpacking the first `coils.len()` bits of the packed form restores the
/// coil array: bit packing loses nothing.
pub proof fn lemma_coils_round_trip(coils: Seq<bool>)
    ensures
        unpacked_coils(packed_coils(coils), coils.len()) == coils,
{
    let packed = packed_coils(coils);
    assert forall|i: int| 0 <= i < coils.len() implies unpacked_coils(packed, coils.len())[i]
        == coils[i] by {
        let k = i / 8;
        let j = i % 8;
        assert(8 * k + j == i);
        assert(0 <= k < packed.len());
        lemma_coil_byte_bit(coils, k, j);
    }
    assert(unpacked_coils(packed, coils.len()) =~= coils);
}

/// The big-endian byte string of a word array.
pub open spec fn packed_words(words: Seq<u16>) -> Seq<u8> {
    Seq::new(
        2 * words.len(),
        |i: int|
            if i % 2 == 0 {
                hi(words[i / 2])
            } else {
                lo(words[i / 2])
            },
    )
}

/// The word array read big-endian from `bytes` (whose length must be even to
/// read every byte).
pub open spec fn unpacked_words(bytes: Seq<u8>) -> Seq<u16> {
    Seq::new(bytes.len() / 2, |k: int| be16(bytes[2 * k], bytes[2 * k + 1]))
}

/// Reading the big-endian byte string back restores the word array.
pub proof fn lemma_words_round_trip(words: Seq<u16>)
    ensures
        unpacked_words(packed_words(words)) == words,
{
    let packed = packed_words(words);
    assert forall|k: int| 0 <= k < words.len() implies unpacked_words(packed)[k] == words[k] by {
        assert(packed[2 * k] == hi(words[k]));
        assert(packed[2 * k + 1] == lo(words[k]));
        lemma_be16_split(words[k]);
    }
    assert(unpacked_words(packed) =~= words);
}

/// Appends the two big-endian bytes of `w`.
pub fn push_u16(out: &mut Vec<u8>, w: u16)
    ensures
        final(out)@ == old(out)@.push(hi(w)).push(lo(w)),
{
    out.push((w / 256) as u8);
    out.push((w % 256) as u8);
}

/// Reads the big-endian word at offset `i`.
pub fn read_u16(b: &[u8], i: usize) -> (w: u16)
    requires
        i + 1 < b@.len(),
    ensures
        w == be16(b@[i as int], b@[i as int + 1]),
{
    let h: u8 = b[i];
    let l: u8 = b[i + 1];
    (h as u16) * 256 + (l as u16)
}

/// The weight of bit `j` of a byte, LSB first.
fn bit_weight_of(j: usize) -> (w: u8)
    requires
        j < 8,
    ensures
        w as int == bit_weight(j as int),
        w >= 1,
{
    if j == 0 {
        1
    } else if j == 1 {
        2
    } else if j == 2 {
        4
    } else if j == 3 {
        8
    } else if j == 4 {
        16
    } else if j == 5 {
        32
    } else if j == 6 {
        64
    } else {
        128
    }
}

/// Byte `k` of the bit-packed form of `coils`.
fn coil_byte_at(coils: &[bool], k: usize) -> (b: u8)
    requires
        coils@.len() <= 2040,
        (k as int) < coil_byte_count(coils@.len() as nat),
    ensures
        b == coil_byte(coils@, k as int),
{
    let mut b: u8 = 0;
    let mut j: usize = 0;
    let n = coils.len();
    while j < 8
        invariant
            0 <= j <= 8,
            n == coils@.len() <= 2040,
            8 * k + 7 < 2048,
            b as int == coil_byte_partial(coils@, k as int, j as int),
        decreases 8 - j,
    {
        proof {
            assert(coil_byte_partial(coils@, k as int, j as int + 1) == coil_byte_partial(
                coils@,
                k as int,
                j as int,
            ) + bit_weight(j as int) * coil_bit(coils@, 8 * (k as int) + j as int));
            lemma_coil_byte_partial_bound(coils@, k as int, j as int + 1);
            assert(2 * bit_weight(j as int) <= 256);
        }
        if 8 * k + j < n && coils[8 * k + j] {
            proof {
                assert(coil_bit(coils@, 8 * (k as int) + j as int) == 1);
                assert(b as int + bit_weight(j as int) == coil_byte_partial(
                    coils@,
                    k as int,
                    j as int + 1,
                ));
            }
            b = b + bit_weight_of(j);
        } else {
            proof {
                assert(coil_bit(coils@, 8 * (k as int) + j as int) == 0);
                assert(b as int == coil_byte_partial(coils@, k as int, j as int + 1));
            }
        }
        j = j + 1;
    }
    proof {
        lemma_coil_byte_partial_full(coils@, k as int);
    }
    b
}

/// The partial sum of the first `j` bit weights of byte `k`.
spec fn coil_byte_partial(coils: Seq<bool>, k: int, j: int) -> int
    decreases j,
{
    if j <= 0 {
        0
    } else {
        coil_byte_partial(coils, k, j - 1) + bit_weight(j - 1) * coil_bit(coils, 8 * k + j - 1)
    }
}

/// The partial sums stay below the weight of the next bit.
proof fn lemma_coil_byte_partial_bound(coils: Seq<bool>, k: int, j: int)
    requires
        0 <= j <= 8,
    ensures
        0 <= coil_byte_partial(coils, k, j) < 2 * bit_weight(j - 1),
    decreases j,
{
    if j > 0 {
        lemma_coil_byte_partial_bound(coils, k, j - 1);
    }
}

/// The full partial sum is the packed byte.
proof fn lemma_coil_byte_partial_full(coils: Seq<bool>, k: int)
    ensures
        coil_byte_partial(coils, k, 8) == coil_byte(coils, k) as int,
{
    lemma_coil_byte_partial_bound(coils, k, 8);
    let b0 = coil_bit(coils, 8 * k);
    let b1 = coil_bit(coils, 8 * k + 1);
    let b2 = coil_bit(coils, 8 * k + 2);
    let b3 = coil_bit(coils, 8 * k + 3);
    let b4 = coil_bit(coils, 8 * k + 4);
    let b5 = coil_bit(coils, 8 * k + 5);
    let b6 = coil_bit(coils, 8 * k + 6);
    let b7 = coil_bit(coils, 8 * k + 7);
    assert(coil_byte_partial(coils, k, 0) == 0);
    assert(coil_byte_partial(coils, k, 1) == b0);
    assert(coil_byte_partial(coils, k, 2) == b0 + 2 * b1);
    assert(coil_byte_partial(coils, k, 3) == b0 + 2 * b1 + 4 * b2);
    assert(coil_byte_partial(coils, k, 4) == b0 + 2 * b1 + 4 * b2 + 8 * b3);
    assert(coil_byte_partial(coils, k, 5) == b0 + 2 * b1 + 4 * b2 + 8 * b3 + 16 * b4);
    assert(coil_byte_partial(coils, k, 6) == b0 + 2 * b1 + 4 * b2 + 8 * b3 + 16 * b4 + 32 * b5);
    assert(coil_byte_partial(coils, k, 7) == b0 + 2 * b1 + 4 * b2 + 8 * b3 + 16 * b4 + 32 * b5 + 64
        * b6);
    assert(coil_byte_partial(coils, k, 8) == b0 + 2 * b1 + 4 * b2 + 8 * b3 + 16 * b4 + 32 * b5 + 64
        * b6 + 128 * b7);
    assert(b0 + 2 * b1 + 4 * b2 + 8 * b3 + 16 * b4 + 32 * b5 + 64 * b6 + 128 * b7 <= 255);
}

/// Appends the bit-packed form of `coils`.
pub fn push_packed_coils(out: &mut Vec<u8>, coils: &[bool])
    requires
        coils@.len() <= 2040,
    ensures
        final(out)@ == old(out)@ + packed_coils(coils@),
{
    let n = coils.len();
    let byte_count = (n + 7) / 8;
    let mut k: usize = 0;
    proof {
        assert(out@ =~= old(out)@ + packed_coils(coils@).take(0));
    }
    while k < byte_count
        invariant
            n == coils@.len() <= 2040,
            byte_count as int == coil_byte_count(coils@.len() as nat),
            0 <= k <= byte_count,
            out@ == old(out)@ + packed_coils(coils@).take(k as int),
        decreases byte_count - k,
    {
        let b = coil_byte_at(coils, k);
        out.push(b);
        proof {
            assert(packed_coils(coils@).take(k as int + 1) =~= packed_coils(coils@).take(
                k as int,
            ).push(coil_byte(coils@, k as int)));
        }
        k = k + 1;
    }
    proof {
        assert(packed_coils(coils@).take(byte_count as int) =~= packed_coils(coils@));
    }
}

/// Reads `count` bit-packed coils starting at offset `start`.
pub fn read_packed_coils(b: &[u8], start: usize, count: usize) -> (coils: Vec<bool>)
    requires
        count <= 2040,
        start + coil_byte_count(count as nat) <= b@.len(),
    ensures
        coils@ == unpacked_coils(b@.skip(start as int), count as nat),
{
    let blen = b.len();
    let mut coils: Vec<bool> = Vec::new();
    let mut i: usize = 0;
    while i < count
        invariant
            0 <= i <= count,
            count <= 2040,
            blen == b@.len(),
            start + coil_byte_count(count as nat) <= b@.len(),
            coils@ == unpacked_coils(b@.skip(start as int), count as nat).take(i as int),
        decreases count - i,
    {
        proof {
            assert(i / 8 < coil_byte_count(count as nat));
        }
        let byte: u8 = b[start + i / 8];
        let w = bit_weight_of(i % 8);
        let bit: bool = (byte / w) % 2 == 1;
        proof {
            assert(b@.skip(start as int)[i as int / 8] == b@[start as int + i as int / 8]);
            assert(bit == bit_of(b@.skip(start as int)[i as int / 8], i as int % 8));
            assert(unpacked_coils(b@.skip(start as int), count as nat).take(i as int + 1)
                =~= unpacked_coils(b@.skip(start as int), count as nat).take(i as int).push(bit));
        }
        coils.push(bit);
        i = i + 1;
    }
    proof {
        assert(unpacked_coils(b@.skip(start as int), count as nat).take(count as int)
            =~= unpacked_coils(b@.skip(start as int), count as nat));
    }
    coils
}

/// Appends the big-endian byte string of `words`.
pub fn push_packed_words(out: &mut Vec<u8>, words: &[u16])
    ensures
        final(out)@ == old(out)@ + packed_words(words@),
{
    let mut k: usize = 0;
    proof {
        assert(out@ =~= old(out)@ + packed_words(words@).take(0));
    }
    while k < words.len()
        invariant
            0 <= k <= words@.len(),
            out@ == old(out)@ + packed_words(words@).take(2 * k as int),
        decreases words@.len() - k,
    {
        let w = words[k];
        push_u16(out, w);
        proof {
            assert(packed_words(words@)[2 * k as int] == hi(words@[k as int]));
            assert(packed_words(words@)[2 * k as int + 1] == lo(words@[k as int]));
            assert(packed_words(words@).take(2 * (k as int + 1)) =~= packed_words(words@).take(
                2 * k as int,
            ).push(hi(words@[k as int])).push(lo(words@[k as int])));
        }
        k = k + 1;
    }
    proof {
        assert(packed_words(words@).take(2 * words@.len() as int) =~= packed_words(words@));
    }
}

/// Reads `count` big-endian words starting at offset `start`.
pub fn read_packed_words(b: &[u8], start: usize, count: usize) -> (words: Vec<u16>)
    requires
        start + 2 * count <= b@.len(),
    ensures
        words@ == unpacked_words(b@.subrange(start as int, start as int + 2 * count as int)),
{
    let ghost region = b@.subrange(start as int, start as int + 2 * count as int);
    let blen = b.len();
    let mut words: Vec<u16> = Vec::new();
    let mut k: usize = 0;
    while k < count
        invariant
            0 <= k <= count,
            blen == b@.len(),
            start + 2 * count <= b@.len(),
            region == b@.subrange(start as int, start as int + 2 * count as int),
            words@ == unpacked_words(region).take(k as int),
        decreases count - k,
    {
        let w = read_u16(b, start + 2 * k);
        proof {
            assert(region[2 * k as int] == b@[start as int + 2 * k as int]);
            assert(region[2 * k as int + 1] == b@[start as int + 2 * k as int + 1]);
            assert(unpacked_words(region).take(k as int + 1) =~= unpacked_words(region).take(
                k as int,
            ).push(w));
        }
        words.push(w);
        k = k + 1;
    }
    proof {
        assert(unpacked_words(region).take(count as int) =~= unpacked_words(region));
    }
    words
}

/// Appends a copy of `data`.
pub fn push_bytes(out: &mut Vec<u8>, data: &[u8])
    ensures
        final(out)@ == old(out)@ + data@,
{
    let mut i: usize = 0;
    proof {
        assert(out@ =~= old(out)@ + data@.take(0));
    }
    while i < data.len()
        invariant
            0 <= i <= data@.len(),
            out@ == old(out)@ + data@.take(i as int),
        decreases data@.len() - i,
    {
        out.push(data[i]);
        proof {
            assert(data@.take(i as int + 1) =~= data@.take(i as int).push(data@[i as int]));
        }
        i = i + 1;
    }
    proof {
        assert(data@.take(data@.len() as int) =~= data@);
    }
}

/// Copies the bytes of `b` from `start` (inclusive) to `end` (exclusive).
pub fn copy_range(b: &[u8], start: usize, end: usize) -> (out: Vec<u8>)
    requires
        start <= end <= b@.len(),
    ensures
        out@ == b@.subrange(start as int, end as int),
{
    let mut out: Vec<u8> = Vec::new();
    let mut i: usize = start;
    while i < end
        invariant
            start <= i <= end <= b@.len(),
            out@ == b@.subrange(start as int, i as int),
        decreases end - i,
    {
        out.push(b[i]);
        proof {
            assert(b@.subrange(start as int, i as int + 1) =~= b@.subrange(
                start as int,
                i as int,
            ).push(b@[i as int]));
        }
        i = i + 1;
    }
    out
}

} // verus!
