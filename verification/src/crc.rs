//! The 16-bit CRC that protects every packet on the wire.
//!
//! The reference algorithm is bit-serial: the register starts at `0xffff`,
//! each payload bit is folded in with the reflected polynomial `0x8408`, and
//! the final register is complemented. That algorithm is the specification
//! here ([`crc16`]); the executable [`crc16_table_driven`] processes a byte
//! per step through a 256-entry lookup table and is proved to compute the
//! same function.

use vstd::prelude::*;

verus! {

/// One step of the bit-serial reference algorithm: compare the low bits of
/// the register and of the shift register, shift the register right, and
/// fold in the polynomial when the compared bits differ.
pub open spec fn crc_bit_step(crc: u16, sr: u16) -> u16 {
    if (crc ^ sr) & 1 == 1 {
        (crc >> 1) ^ 0x8408
    } else {
        crc >> 1
    }
}

/// Folding one byte into the register: eight bit steps, the byte serving as
/// the shift register.
pub open spec fn crc_byte_step(crc: u16, b: u8) -> u16 {
    let s0 = b as u16;
    let c1 = crc_bit_step(crc, s0);
    let c2 = crc_bit_step(c1, s0 >> 1);
    let c3 = crc_bit_step(c2, s0 >> 2);
    let c4 = crc_bit_step(c3, s0 >> 3);
    let c5 = crc_bit_step(c4, s0 >> 4);
    let c6 = crc_bit_step(c5, s0 >> 5);
    let c7 = crc_bit_step(c6, s0 >> 6);
    crc_bit_step(c7, s0 >> 7)
}

/// The register after folding in `bytes`, starting from `acc`.
pub open spec fn crc_fold(bytes: Seq<u8>, acc: u16) -> u16
    decreases bytes.len(),
{
    if bytes.len() == 0 {
        acc
    } else {
        crc_fold(bytes.drop_first(), crc_byte_step(acc, bytes.first()))
    }
}

/// The CRC of a byte sequence: register seeded with `0xffff`, complemented
/// at the end.
pub open spec fn crc16(bytes: Seq<u8>) -> u16 {
    !crc_fold(bytes, 0xffff)
}

/// One step of the recurrence that generates a lookup-table entry.
pub open spec fn table_step(r: u16) -> u16 {
    if r & 1 == 1 {
        (r >> 1) ^ 0x8408
    } else {
        r >> 1
    }
}

/// The lookup-table entry for index `j`: eight table steps from `j`.
pub open spec fn table_entry(j: u8) -> u16 {
    table_step(table_step(table_step(table_step(
        table_step(table_step(table_step(table_step(j as u16))))))))
}

/// A table lookup on the low byte of `crc ^ b` advances the register exactly
/// as the eight bit steps of the reference algorithm do.
pub proof fn lemma_table_equiv(crc: u16, b: u8)
    ensures
        crc_byte_step(crc, b) == (crc >> 8) ^ table_entry((crc as u8) ^ b),
{
    assert(crc_byte_step(crc, b) == (crc >> 8) ^ table_entry((crc as u8) ^ b)) by (bit_vector);
}

/// Builds the 256-entry lookup table, each entry proved to match
/// [`table_entry`].
fn build_table() -> (t: Vec<u16>)
    ensures
        t@.len() == 256,
        forall|j: int| 0 <= j < 256 ==> t@[j] == table_entry(j as u8),
{
    let mut t: Vec<u16> = Vec::new();
    let mut j: usize = 0;
    while j < 256
        invariant
            j <= 256,
            t@.len() == j,
            forall|k: int| 0 <= k < j ==> t@[k] == table_entry(k as u8),
        decreases 256 - j,
    {
        let mut r: u16 = j as u16;
        r = if r & 1 == 1 { (r >> 1) ^ 0x8408 } else { r >> 1 };
        r = if r & 1 == 1 { (r >> 1) ^ 0x8408 } else { r >> 1 };
        r = if r & 1 == 1 { (r >> 1) ^ 0x8408 } else { r >> 1 };
        r = if r & 1 == 1 { (r >> 1) ^ 0x8408 } else { r >> 1 };
        r = if r & 1 == 1 { (r >> 1) ^ 0x8408 } else { r >> 1 };
        r = if r & 1 == 1 { (r >> 1) ^ 0x8408 } else { r >> 1 };
        r = if r & 1 == 1 { (r >> 1) ^ 0x8408 } else { r >> 1 };
        r = if r & 1 == 1 { (r >> 1) ^ 0x8408 } else { r >> 1 };
        assert(r == table_entry(j as u8));
        t.push(r);
        j = j + 1;
    }
    t
}

/// The table-driven CRC: one table lookup per input byte. Returns exactly
/// the value of the bit-serial reference algorithm [`crc16`].
pub fn crc16_table_driven(bytes: &[u8]) -> (c: u16)
    ensures
        c == crc16(bytes@),
{
    let table = build_table();
    let mut crc: u16 = 0xffff;
    let mut i: usize = 0;
    proof {
        assert(bytes@.skip(0) =~= bytes@);
    }
    while i < bytes.len()
        invariant
            i <= bytes@.len(),
            table@.len() == 256,
            forall|j: int| 0 <= j < 256 ==> table@[j] == table_entry(j as u8),
            crc_fold(bytes@.skip(i as int), crc) == crc_fold(bytes@, 0xffff),
        decreases bytes@.len() - i,
    {
        let b = bytes[i];
        let idx: usize = ((#[verifier::truncate] (crc as u8)) ^ b) as usize;
        let prev: Ghost<u16> = Ghost(crc);
        crc = (crc >> 8) ^ table[idx];
        proof {
            lemma_table_equiv(prev@, b);
            assert(bytes@.skip(i as int).first() == bytes@[i as int]);
            assert(bytes@.skip(i as int).drop_first() =~= bytes@.skip(i + 1 as int));
        }
        i = i + 1;
    }
    proof {
        assert(bytes@.skip(i as int) =~= Seq::<u8>::empty());
    }
    !crc
}

/// Folding the same byte into two distinct registers keeps them distinct:
/// the byte step is injective in the register.
proof fn lemma_byte_step_injective(c1: u16, c2: u16, b: u8)
    requires
        c1 != c2,
    ensures
        crc_byte_step(c1, b) != crc_byte_step(c2, b),
{
    assert(c1 != c2 ==> crc_byte_step(c1, b) != crc_byte_step(c2, b)) by (bit_vector);
}

/// Folding two bytes that differ in exactly one bit into the same register
/// yields distinct registers.
proof fn lemma_byte_step_flip(c: u16, b1: u8, b2: u8, k: u8)
    requires
        k < 8,
        b2 == b1 ^ (1u8 << k),
    ensures
        crc_byte_step(c, b1) != crc_byte_step(c, b2),
{
    assert(crc_byte_step(c, b1) != crc_byte_step(c, b2)) by (bit_vector)
        requires
            k < 8 && b2 == b1 ^ (1u8 << k),
    ;
}

/// Distinct registers stay distinct through any common byte sequence.
proof fn lemma_fold_injective(s: Seq<u8>, a1: u16, a2: u16)
    requires
        a1 != a2,
    ensures
        crc_fold(s, a1) != crc_fold(s, a2),
    decreases s.len(),
{
    if s.len() != 0 {
        lemma_byte_step_injective(a1, a2, s.first());
        lemma_fold_injective(
            s.drop_first(),
            crc_byte_step(a1, s.first()),
            crc_byte_step(a2, s.first()),
        );
    }
}

/// Two byte sequences that differ in exactly one bit fold to distinct
/// registers, whatever the common starting register.
proof fn lemma_fold_single_bit_flip(s1: Seq<u8>, s2: Seq<u8>, i: int, k: u8, acc: u16)
    requires
        s1.len() == s2.len(),
        0 <= i < s1.len(),
        k < 8,
        s2[i] == s1[i] ^ (1u8 << k),
        forall|j: int| 0 <= j < s1.len() && j != i ==> s1[j] == s2[j],
    ensures
        crc_fold(s1, acc) != crc_fold(s2, acc),
    decreases s1.len(),
{
    if i == 0 {
        lemma_byte_step_flip(acc, s1.first(), s2.first(), k);
        assert(s1.drop_first() =~= s2.drop_first());
        lemma_fold_injective(
            s1.drop_first(),
            crc_byte_step(acc, s1.first()),
            crc_byte_step(acc, s2.first()),
        );
    } else {
        assert(s1.first() == s2.first());
        lemma_fold_single_bit_flip(
            s1.drop_first(),
            s2.drop_first(),
            i - 1,
            k,
            crc_byte_step(acc, s1.first()),
        );
    }
}

/// Law: the CRC detects every single-bit error. Two byte sequences of equal
/// length that differ in exactly one bit have distinct CRCs.
pub proof fn lemma_crc16_single_bit_flip(s1: Seq<u8>, s2: Seq<u8>, i: int, k: u8)
    requires
        s1.len() == s2.len(),
        0 <= i < s1.len(),
        k < 8,
        s2[i] == s1[i] ^ (1u8 << k),
        forall|j: int| 0 <= j < s1.len() && j != i ==> s1[j] == s2[j],
    ensures
        crc16(s1) != crc16(s2),
{
    lemma_fold_single_bit_flip(s1, s2, i, k, 0xffff);
    let a = crc_fold(s1, 0xffff);
    let b = crc_fold(s2, 0xffff);
    assert(a != b ==> !a != !b) by (bit_vector);
}

} // verus!
