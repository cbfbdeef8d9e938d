//! Decoding of the fields of a 16-bit CHIP-8 instruction.
use vstd::prelude::*;

verus! {

/// The top nibble of an instruction: which family of operations it belongs to.
pub open spec fn op_code_of(op: u16) -> u8 {
    (op / 4096) as u8
}

/// The low twelve bits of an instruction: an address `NNN`.
pub open spec fn address_of(op: u16) -> u16 {
    op % 4096
}

/// The low byte of an instruction: a constant `KK`.
pub open spec fn constant_of(op: u16) -> u8 {
    (op % 256) as u8
}

/// The low nibble of an instruction: a constant `N`.
pub open spec fn nibble_of(op: u16) -> u8 {
    (op % 16) as u8
}

/// The second nibble of an instruction: the register index `X`.
pub open spec fn x_of(op: u16) -> u8 {
    ((op / 256) % 16) as u8
}

/// The third nibble of an instruction: the register index `Y`.
pub open spec fn y_of(op: u16) -> u8 {
    ((op / 16) % 16) as u8
}

/// Bit `i` (0 is the least significant) of a byte.
pub open spec fn bit_of(b: u8, i: int) -> bool {
    (b as int / pow2_byte(i)) % 2 == 1
}

/// `2^i` for the bit positions of a byte.
pub open spec fn pow2_byte(i: int) -> int {
    if i <= 0 { 1 }
    else if i == 1 { 2 }
    else if i == 2 { 4 }
    else if i == 3 { 8 }
    else if i == 4 { 16 }
    else if i == 5 { 32 }
    else if i == 6 { 64 }
    else { 128 }
}

/// The next value of the 8-bit shift register used as the source of random
/// numbers: the value shifted left by one, with the exclusive or of its bits
/// 7, 5, 4 and 3 shifted in at the bottom.
pub open spec fn lsfr_next(val: u8) -> u8 {
    let feedback = (val as int / 128 + val as int / 32 + val as int / 16 + val as int / 8) % 2;
    ((val as int * 2) % 256 + feedback) as u8
}

/// The family of an instruction (its top nibble).
pub fn get_op_code(input: u16) -> (r: u8)
    ensures
        r == op_code_of(input),
        r < 16,
{
    let v: u16 = (input & 0b1111000000000000) >> 12;
    assert(v == input / 4096 && v < 16) by (bit_vector)
        requires
            v == (input & 0b1111000000000000u16) >> 12u16,
    ;
    v as u8
}

/// The address `NNN` of an instruction (its low twelve bits).
pub fn get_address(input: u16) -> (r: u16)
    ensures
        r == address_of(input),
        r < 4096,
{
    let v: u16 = input & 0b0000111111111111;
    assert(v == input % 4096) by (bit_vector)
        requires
            v == input & 0b0000111111111111u16,
    ;
    v
}

/// The constant `KK` of an instruction (its low byte).
pub fn get_constant(input: u16) -> (r: u8)
    ensures
        r == constant_of(input),
{
    let v: u16 = input & 0b0000000011111111;
    assert(v == input % 256) by (bit_vector)
        requires
            v == input & 0b0000000011111111u16,
    ;
    v as u8
}

/// The constant `N` of an instruction (its low nibble).
pub fn get_4_bit_constant(input: u16) -> (r: u8)
    ensures
        r == nibble_of(input),
        r < 16,
{
    let v: u16 = input & 0b0000000000001111;
    assert(v == input % 16) by (bit_vector)
        requires
            v == input & 0b0000000000001111u16,
    ;
    v as u8
}

/// The register index `X` of an instruction (its second nibble).
pub fn get_x(input: u16) -> (r: u8)
    ensures
        r == x_of(input),
        r < 16,
{
    let v: u16 = (input & 0b0000111100000000) >> 8;
    assert(v == (input / 256) % 16) by (bit_vector)
        requires
            v == (input & 0b0000111100000000u16) >> 8u16,
    ;
    v as u8
}

/// The register index `Y` of an instruction (its third nibble).
pub fn get_y(input: u16) -> (r: u8)
    ensures
        r == y_of(input),
        r < 16,
{
    let v: u16 = (input & 0b0000000011110000) >> 4;
    assert(v == (input / 16) % 16) by (bit_vector)
        requires
            v == (input & 0b0000000011110000u16) >> 4u16,
    ;
    v as u8
}

/// One step of the shift register that stands in for a random source.
pub fn lsfr(val: u8) -> (r: u8)
    ensures
        r == lsfr_next(val),
{
    let bit: u8 = ((val >> 7) ^ (val >> 5) ^ (val >> 4) ^ (val >> 3)) & 1;
    let r: u8 = (val << 1) | bit;
    assert(r == ((val as int * 2) % 256 + (val as int / 128 + val as int / 32 + val as int / 16
        + val as int / 8) % 2)) by (bit_vector)
        requires
            bit == ((val >> 7u8) ^ (val >> 5u8) ^ (val >> 4u8) ^ (val >> 3u8)) & 1u8,
            r == (val << 1u8) | bit,
    ;
    r
}

/// An instruction is its family, then its address; the address is the register
/// index `X`, then the constant `KK`; the constant is `Y`, then `N`.
pub proof fn law_decode_recompose(op: u16)
    ensures
        op == op_code_of(op) as int * 4096 + address_of(op) as int,
        address_of(op) == x_of(op) as int * 256 + constant_of(op) as int,
        constant_of(op) == y_of(op) as int * 16 + nibble_of(op) as int,
        op_code_of(op) < 16,
        x_of(op) < 16,
        y_of(op) < 16,
        nibble_of(op) < 16,
{
}

/// Bit `i` of a byte is what shifting it right by `i` leaves in the lowest bit.
pub proof fn lemma_bit_of_shift(b: u8, i: u8)
    requires
        i < 8,
    ensures
        bit_of(b, i as int) == ((b >> i) & 1u8 == 1u8),
{
    if i == 0 {
        assert(((b as int / 1) % 2 == 1) == ((b >> 0u8) & 1u8 == 1u8)) by (bit_vector);
    } else if i == 1 {
        assert(((b as int / 2) % 2 == 1) == ((b >> 1u8) & 1u8 == 1u8)) by (bit_vector);
    } else if i == 2 {
        assert(((b as int / 4) % 2 == 1) == ((b >> 2u8) & 1u8 == 1u8)) by (bit_vector);
    } else if i == 3 {
        assert(((b as int / 8) % 2 == 1) == ((b >> 3u8) & 1u8 == 1u8)) by (bit_vector);
    } else if i == 4 {
        assert(((b as int / 16) % 2 == 1) == ((b >> 4u8) & 1u8 == 1u8)) by (bit_vector);
    } else if i == 5 {
        assert(((b as int / 32) % 2 == 1) == ((b >> 5u8) & 1u8 == 1u8)) by (bit_vector);
    } else if i == 6 {
        assert(((b as int / 64) % 2 == 1) == ((b >> 6u8) & 1u8 == 1u8)) by (bit_vector);
    } else {
        assert(((b as int / 128) % 2 == 1) == ((b >> 7u8) & 1u8 == 1u8)) by (bit_vector);
    }
}

proof fn lemma_shift_bit_ops(a: u8, b: u8, i: u8)
    by (bit_vector)
    requires
        i < 8,
    ensures
        (((a | b) >> i) & 1u8 == 1u8) == (((a >> i) & 1u8 == 1u8) || ((b >> i) & 1u8 == 1u8)),
        (((a & b) >> i) & 1u8 == 1u8) == (((a >> i) & 1u8 == 1u8) && ((b >> i) & 1u8 == 1u8)),
        (((a ^ b) >> i) & 1u8 == 1u8) == (((a >> i) & 1u8 == 1u8) != ((b >> i) & 1u8 == 1u8)),
{
}

/// Bitwise or, and, exclusive or act bit by bit.
pub proof fn lemma_bit_ops(a: u8, b: u8, i: int)
    requires
        0 <= i < 8,
    ensures
        bit_of(a | b, i) == (bit_of(a, i) || bit_of(b, i)),
        bit_of(a & b, i) == (bit_of(a, i) && bit_of(b, i)),
        bit_of(a ^ b, i) == (bit_of(a, i) != bit_of(b, i)),
{
    let k = i as u8;
    lemma_bit_of_shift(a, k);
    lemma_bit_of_shift(b, k);
    lemma_bit_of_shift(a | b, k);
    lemma_bit_of_shift(a & b, k);
    lemma_bit_of_shift(a ^ b, k);
    lemma_shift_bit_ops(a, b, k);
}

proof fn lemma_shift_lsfr(v: u8, r: u8)
    by (bit_vector)
    requires
        r == (v << 1u8) | (((v >> 7u8) ^ (v >> 5u8) ^ (v >> 4u8) ^ (v >> 3u8)) & 1u8),
    ensures
        forall|i: u8| 1 <= i < 8 ==> #[trigger] ((r >> i) & 1u8) == ((v >> ((i - 1) as u8)) & 1u8),
        (r & 1u8 == 1u8) == ((((v >> 7u8) & 1u8 == 1u8) != ((v >> 5u8) & 1u8 == 1u8)) != (((v
            >> 4u8) & 1u8 == 1u8) != ((v >> 3u8) & 1u8 == 1u8))),
{
}

/// The shift register moves every bit one place up, drops bit 7, and takes
/// as its new bit 0 the exclusive or of the old bits 7, 5, 4 and 3.
pub proof fn law_lsfr_bits(v: u8)
    ensures
        forall|i: int| 1 <= i < 8 ==> #[trigger] bit_of(lsfr_next(v), i) == bit_of(v, i - 1),
        bit_of(lsfr_next(v), 0) == ((bit_of(v, 7) != bit_of(v, 5)) != (bit_of(v, 4) != bit_of(v, 3))),
{
    let r = lsfr_next(v);
    let bit: u8 = ((v >> 7) ^ (v >> 5) ^ (v >> 4) ^ (v >> 3)) & 1;
    let w: u8 = (v << 1) | bit;
    assert(w == ((v as int * 2) % 256 + (v as int / 128 + v as int / 32 + v as int / 16 + v as int
        / 8) % 2)) by (bit_vector)
        requires
            bit == ((v >> 7u8) ^ (v >> 5u8) ^ (v >> 4u8) ^ (v >> 3u8)) & 1u8,
            w == (v << 1u8) | bit,
    ;
    assert(w == r);
    lemma_shift_lsfr(v, r);
    assert forall|i: int| 1 <= i < 8 implies #[trigger] bit_of(r, i) == bit_of(v, i - 1) by {
        lemma_bit_of_shift(r, i as u8);
        lemma_bit_of_shift(v, (i - 1) as u8);
        assert(((r >> (i as u8)) & 1u8) == ((v >> ((i as u8 - 1) as u8)) & 1u8));
    }
    lemma_bit_of_shift(r, 0);
    lemma_bit_of_shift(v, 7);
    lemma_bit_of_shift(v, 5);
    lemma_bit_of_shift(v, 4);
    lemma_bit_of_shift(v, 3);
    assert((r >> 0u8) == r) by (bit_vector);
}

} // verus!
