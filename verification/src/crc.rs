//! The Modbus variant of CRC16: polynomial `0xA001` (reflected), initial
//! value `0xFFFF`, no final XOR, processed one byte at a time.
//!
//! Besides the checksum itself, this module proves that every CRC step is
//! injective, and from that: two byte sequences of equal length that differ
//! in exactly one position never share a checksum.  The RTU codec turns that
//! into its corruption-rejection guarantee.
#![allow(unused_imports)]
use vstd::prelude::*;

verus! {

/// One shift step: shift right, and fold the polynomial in when the low bit
/// was set.
pub open spec fn crc_bit_step(c: u16) -> u16 {
    if c & 1 == 1 {
        (c >> 1) ^ 0xA001
    } else {
        c >> 1
    }
}

/// `k` successive shift steps.
pub open spec fn crc_bit_steps(c: u16, k: nat) -> u16
    decreases k,
{
    if k == 0 {
        c
    } else {
        crc_bit_step(crc_bit_steps(c, (k - 1) as nat))
    }
}

/// Folding one byte into the running checksum: XOR it into the low byte,
/// then eight shift steps.
pub open spec fn crc_byte_step(c: u16, b: u8) -> u16 {
    crc_bit_steps(c ^ (b as u16), 8)
}

/// The checksum of `bytes` continued from the running value `c`.
pub open spec fn crc16_from(c: u16, bytes: Seq<u8>) -> u16
    decreases bytes.len(),
{
    if bytes.len() == 0 {
        c
    } else {
        crc16_from(crc_byte_step(c, bytes[0]), bytes.drop_first())
    }
}

/// The Modbus CRC16 of `bytes`.
pub open spec fn crc16(bytes: Seq<u8>) -> u16 {
    crc16_from(0xFFFF, bytes)
}

/// Computes the Modbus CRC16 of the first `n` bytes of `data`.
pub fn compute_crc16_prefix(data: &[u8], n: usize) -> (c: u16)
    requires
        n <= data@.len(),
    ensures
        c == crc16(data@.take(n as int)),
{
    let ghost s = data@.take(n as int);
    let mut c: u16 = 0xFFFF;
    let mut i: usize = 0;
    proof {
        assert(s.skip(0) =~= s);
    }
    while i < n
        invariant
            0 <= i <= n <= data@.len(),
            s == data@.take(n as int),
            crc16(s) == crc16_from(c, s.skip(i as int)),
        decreases n - i,
    {
        let b: u8 = data[i];
        let mut next: u16 = c ^ (b as u16);
        let mut j: usize = 0;
        while j < 8
            invariant
                0 <= j <= 8,
                next == crc_bit_steps(c ^ (b as u16), j as nat),
            decreases 8 - j,
        {
            if next & 1 == 1 {
                next = (next >> 1) ^ 0xA001;
            } else {
                next = next >> 1;
            }
            j = j + 1;
        }
        proof {
            assert(next == crc_byte_step(c, b));
            assert(s.skip(i as int)[0] == s[i as int]);
            assert(s[i as int] == data@[i as int]);
            assert(s.skip(i as int).drop_first() =~= s.skip(i as int + 1));
        }
        c = next;
        i = i + 1;
    }
    proof {
        assert(s.skip(n as int) =~= Seq::<u8>::empty());
    }
    c
}

/// Computes the Modbus CRC16 of `data`.
pub fn compute_crc16(data: &[u8]) -> (c: u16)
    ensures
        c == crc16(data@),
{
    let c = compute_crc16_prefix(data, data.len());
    proof {
        assert(data@.take(data@.len() as int) =~= data@);
    }
    c
}

/// A single shift step never merges two distinct running values.
proof fn lemma_bit_step_injective(c1: u16, c2: u16)
    requires
        crc_bit_step(c1) == crc_bit_step(c2),
    ensures
        c1 == c2,
{
    assert(crc_bit_step(c1) == crc_bit_step(c2) ==> c1 == c2) by (bit_vector);
}

/// `k` shift steps never merge two distinct running values.
proof fn lemma_bit_steps_injective(c1: u16, c2: u16, k: nat)
    requires
        crc_bit_steps(c1, k) == crc_bit_steps(c2, k),
    ensures
        c1 == c2,
    decreases k,
{
    if k > 0 {
        lemma_bit_step_injective(crc_bit_steps(c1, (k - 1) as nat), crc_bit_steps(c2, (k - 1) as nat));
        lemma_bit_steps_injective(c1, c2, (k - 1) as nat);
    }
}

/// Folding the same byte into distinct running values keeps them distinct.
proof fn lemma_byte_step_injective_state(c1: u16, c2: u16, b: u8)
    requires
        c1 != c2,
    ensures
        crc_byte_step(c1, b) != crc_byte_step(c2, b),
{
    assert(c1 != c2 ==> c1 ^ (b as u16) != c2 ^ (b as u16)) by (bit_vector);
    if crc_byte_step(c1, b) == crc_byte_step(c2, b) {
        lemma_bit_steps_injective(c1 ^ (b as u16), c2 ^ (b as u16), 8);
    }
}

/// Folding distinct bytes into the same running value yields distinct values.
proof fn lemma_byte_step_injective_byte(c: u16, b1: u8, b2: u8)
    requires
        b1 != b2,
    ensures
        crc_byte_step(c, b1) != crc_byte_step(c, b2),
{
    assert(b1 != b2 ==> c ^ (b1 as u16) != c ^ (b2 as u16)) by (bit_vector);
    if crc_byte_step(c, b1) == crc_byte_step(c, b2) {
        lemma_bit_steps_injective(c ^ (b1 as u16), c ^ (b2 as u16), 8);
    }
}

/// Continuing two distinct running values over the same bytes keeps them
/// distinct.
proof fn lemma_crc16_from_injective(c1: u16, c2: u16, bytes: Seq<u8>)
    requires
        c1 != c2,
    ensures
        crc16_from(c1, bytes) != crc16_from(c2, bytes),
    decreases bytes.len(),
{
    if bytes.len() > 0 {
        lemma_byte_step_injective_state(c1, c2, bytes[0]);
        lemma_crc16_from_injective(
            crc_byte_step(c1, bytes[0]),
            crc_byte_step(c2, bytes[0]),
            bytes.drop_first(),
        );
    }
}

/// Two equal-length byte sequences that differ in exactly one position never
/// share a checksum, whatever running value they start from: the Modbus CRC16
/// detects every single-byte (hence every single-bit) corruption.
pub proof fn lemma_crc16_from_detects_single_byte_change(c: u16, s1: Seq<u8>, s2: Seq<u8>, j: int)
    requires
        s1.len() == s2.len(),
        0 <= j < s1.len(),
        s1[j] != s2[j],
        forall|k: int| 0 <= k < s1.len() && k != j ==> s1[k] == s2[k],
    ensures
        crc16_from(c, s1) != crc16_from(c, s2),
    decreases s1.len(),
{
    if j == 0 {
        lemma_byte_step_injective_byte(c, s1[0], s2[0]);
        if s1.len() == 1 {
            assert(s1.drop_first() =~= Seq::<u8>::empty());
            assert(s2.drop_first() =~= Seq::<u8>::empty());
        } else {
            assert(s1.drop_first() =~= s2.drop_first());
        }
        lemma_crc16_from_injective(
            crc_byte_step(c, s1[0]),
            crc_byte_step(c, s2[0]),
            s1.drop_first(),
        );
    } else {
        assert(s1[0] == s2[0]);
        lemma_crc16_from_detects_single_byte_change(
            crc_byte_step(c, s1[0]),
            s1.drop_first(),
            s2.drop_first(),
            j - 1,
        );
    }
}

/// The headline form of the corruption guarantee, from the standard initial
/// value.
pub proof fn lemma_crc16_detects_single_byte_change(s1: Seq<u8>, s2: Seq<u8>, j: int)
    requires
        s1.len() == s2.len(),
        0 <= j < s1.len(),
        s1[j] != s2[j],
        forall|k: int| 0 <= k < s1.len() && k != j ==> s1[k] == s2[k],
    ensures
        crc16(s1) != crc16(s2),
{
    lemma_crc16_from_detects_single_byte_change(0xFFFF, s1, s2, j);
}

} // verus!
