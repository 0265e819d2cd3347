//! Flag register layout and the arithmetic of the 8-bit operations.
//!
//! Everything here is mathematical: the values an operation produces and the
//! flags it leaves in F, stated over plain integers. The instructions of
//! `cpu` are specified in these terms.
use vstd::prelude::*;

verus! {

/// Bit of F that is set when a result is zero.
pub const ZERO_FLAG: u8 = 7;

/// Bit of F that is set by subtracting operations.
pub const SUBTRACT_FLAG: u8 = 6;

/// Bit of F that records a carry out of (or borrow into) the low nibble.
pub const HALF_CARRY_FLAG: u8 = 5;

/// Bit of F that records a carry out of (or borrow into) the whole byte.
pub const CARRY_FLAG: u8 = 4;

/// Whether bit `bit` of `f` is set.
pub open spec fn bit_set(f: u8, bit: u8) -> bool {
    f & (1u8 << bit) != 0
}

/// `f` with bit `bit` forced to `value` and every other bit kept.
pub open spec fn with_bit(f: u8, bit: u8, value: bool) -> u8 {
    if value {
        f | (1u8 << bit)
    } else {
        f & !(1u8 << bit)
    }
}

/// F after an operation that decides all four flags: zero, subtract,
/// half-carry and carry take the given values, the low nibble is kept.
pub open spec fn with_flags(f: u8, z: bool, n: bool, h: bool, c: bool) -> u8 {
    (f & 0x0F) | (if z { 0x80u8 } else { 0u8 }) | (if n { 0x40u8 } else { 0u8 }) | (if h {
        0x20u8
    } else {
        0u8
    }) | (if c { 0x10u8 } else { 0u8 })
}

/// Setting the four flag bits one at a time gives `with_flags`.
pub proof fn lemma_four_bits(f: u8, z: bool, n: bool, h: bool, c: bool)
    ensures
        with_bit(with_bit(with_bit(with_bit(f, 7, z), 6, n), 5, h), 4, c) == with_flags(
            f,
            z,
            n,
            h,
            c,
        ),
{
    assert(with_bit(with_bit(with_bit(with_bit(f, 7, z), 6, n), 5, h), 4, c) == with_flags(
        f,
        z,
        n,
        h,
        c,
    )) by (bit_vector);
}

/// What `with_flags` writes can be read back bit by bit, and it depends on
/// the old F through its low nibble only.
pub proof fn lemma_flags_read_back(f: u8, z: bool, n: bool, h: bool, c: bool)
    ensures
        bit_set(with_flags(f, z, n, h, c), ZERO_FLAG) == z,
        bit_set(with_flags(f, z, n, h, c), SUBTRACT_FLAG) == n,
        bit_set(with_flags(f, z, n, h, c), HALF_CARRY_FLAG) == h,
        bit_set(with_flags(f, z, n, h, c), CARRY_FLAG) == c,
        with_flags(f, z, n, h, c) & 0x0F == f & 0x0F,
        forall|g: u8|
            g & 0x0F == f & 0x0F ==> #[trigger] with_flags(g, z, n, h, c) == with_flags(
                f,
                z,
                n,
                h,
                c,
            ),
{
    assert(bit_set(with_flags(f, z, n, h, c), 7) == z) by (bit_vector);
    assert(bit_set(with_flags(f, z, n, h, c), 6) == n) by (bit_vector);
    assert(bit_set(with_flags(f, z, n, h, c), 5) == h) by (bit_vector);
    assert(bit_set(with_flags(f, z, n, h, c), 4) == c) by (bit_vector);
    assert(with_flags(f, z, n, h, c) & 0x0F == f & 0x0F) by (bit_vector);
    assert forall|g: u8| g & 0x0F == f & 0x0F implies #[trigger] with_flags(g, z, n, h, c)
        == with_flags(f, z, n, h, c) by {
        assert(g & 0x0F == f & 0x0F ==> with_flags(g, z, n, h, c) == with_flags(f, z, n, h, c))
            by (bit_vector);
    }
}

/// The low nibble of a byte, as the hardware masks it.
pub proof fn lemma_low_nibble(x: u8)
    ensures
        x & 0x0F == x % 16,
{
    assert(x & 0x0F == x % 16) by (bit_vector);
}

/// Shifting right and putting the carry in bit 7 is halving plus 128 for a
/// set carry; bit 0 is the remainder of halving.
pub proof fn lemma_rotate_bits(a: u8, carry: u8)
    requires
        carry <= 1,
    ensures
        (a >> 1) | (carry << 7) == a / 2 + carry * 128,
        a & 0x01 == a % 2,
{
    assert((a >> 1) | (carry << 7) == a / 2 + carry * 128) by (bit_vector)
        requires
            carry <= 1,
    ;
    assert(a & 0x01 == a % 2) by (bit_vector);
}

/// 8-bit increment, wrapping from 0xFF to 0x00.
pub open spec fn inc_value(v: u8) -> u8 {
    if v == 0xFF {
        0
    } else {
        (v + 1) as u8
    }
}

/// 8-bit decrement, wrapping from 0x00 to 0xFF.
pub open spec fn dec_value(v: u8) -> u8 {
    if v == 0 {
        0xFF
    } else {
        (v - 1) as u8
    }
}

/// F after incrementing `v`: zero from the result, subtract cleared,
/// half-carry when the result's low nibble is 0 (a carry left bit 3),
/// carry untouched.
pub open spec fn inc_flags(f: u8, v: u8) -> u8 {
    with_flags(
        f,
        inc_value(v) == 0,
        false,
        inc_value(v) % 16 == 0,
        bit_set(f, CARRY_FLAG),
    )
}

/// F after decrementing `v`: zero from the result, subtract set,
/// half-carry when the operand's low nibble was 0 (a borrow into bit 4),
/// carry untouched.
pub open spec fn dec_flags(f: u8, v: u8) -> u8 {
    with_flags(f, dec_value(v) == 0, true, v % 16 == 0, bit_set(f, CARRY_FLAG))
}

/// The carry flag of `f` as a number.
pub open spec fn carry_in(f: u8) -> int {
    if bit_set(f, CARRY_FLAG) {
        1
    } else {
        0
    }
}

/// The full sum of an add-with-carry, before truncation.
pub open spec fn adc_sum(a: u8, n: u8, f: u8) -> int {
    a + n + carry_in(f)
}

/// The accumulator after an add-with-carry: the sum modulo 256.
pub open spec fn adc_value(a: u8, n: u8, f: u8) -> u8 {
    (adc_sum(a, n, f) % 256) as u8
}

/// F after an add-with-carry.
pub open spec fn adc_flags(f: u8, a: u8, n: u8) -> u8 {
    with_flags(
        f,
        adc_value(a, n, f) == 0,
        false,
        a % 16 + n % 16 + carry_in(f) > 15,
        adc_sum(a, n, f) > 255,
    )
}

/// F after comparing `a` with `n` (a subtraction whose result is dropped).
pub open spec fn cp_flags(f: u8, a: u8, n: u8) -> u8 {
    with_flags(f, a == n, true, a % 16 < n % 16, a < n)
}

/// The accumulator after rotating right through the carry: the old carry
/// enters at bit 7.
pub open spec fn rra_value(a: u8, carry: bool) -> u8 {
    (a / 2 + if carry {
        128int
    } else {
        0int
    }) as u8
}

/// F after rotating right through the carry: the old bit 0 becomes the
/// carry, and zero, subtract and half-carry are cleared whatever the result.
pub open spec fn rra_flags(f: u8, a: u8) -> u8 {
    with_flags(f, false, false, false, a % 2 == 1)
}

/// The accumulator and carry after `count` rotations through the carry.
pub open spec fn rra_repeat(a: u8, carry: bool, count: nat) -> (u8, bool)
    decreases count,
{
    if count == 0 {
        (a, carry)
    } else {
        rra_repeat(rra_value(a, carry), a % 2 == 1, (count - 1) as nat)
    }
}

/// The signed value of a relative-jump offset (two's complement).
pub open spec fn signed_offset(n: u8) -> int {
    if n < 128 {
        n as int
    } else {
        n - 256
    }
}

/// The target of a relative jump from `pc`, wrapping around the 16-bit space.
pub open spec fn jump_target(pc: u16, n: u8) -> u16 {
    ((pc + signed_offset(n)) % 0x10000) as u16
}

/// Incrementing and then decrementing gives the value back, and the flags
/// left behind are those of the decrement alone: the zero and half-carry
/// flags that the increment set have no effect on them.
pub proof fn lemma_increment_then_decrement(f: u8, v: u8)
    ensures
        dec_value(inc_value(v)) == v,
        dec_flags(inc_flags(f, v), inc_value(v)) == dec_flags(f, inc_value(v)),
        bit_set(dec_flags(inc_flags(f, v), inc_value(v)), ZERO_FLAG) == (v == 0),
        bit_set(dec_flags(inc_flags(f, v), inc_value(v)), HALF_CARRY_FLAG) == (inc_value(v) % 16
            == 0),
{
    let g = inc_flags(f, v);
    lemma_flags_read_back(f, inc_value(v) == 0, false, inc_value(v) % 16 == 0, bit_set(f, 4));
    assert(bit_set(g, CARRY_FLAG) == bit_set(f, CARRY_FLAG));
    assert(g & 0x0F == f & 0x0F);
    let w = inc_value(v);
    lemma_flags_read_back(f, dec_value(w) == 0, true, w % 16 == 0, bit_set(f, 4));
}

/// Rotating right through the carry is a rotation of the 9 bits made of the
/// carry and the accumulator: nine rotations give both back.
pub proof fn lemma_rra_nine_times(a: u8, carry: bool)
    ensures
        rra_repeat(a, carry, 9) == (a, carry),
{
    let (a1, c1) = (rra_value(a, carry), a % 2 == 1);
    let (a2, c2) = (rra_value(a1, c1), a1 % 2 == 1);
    let (a3, c3) = (rra_value(a2, c2), a2 % 2 == 1);
    let (a4, c4) = (rra_value(a3, c3), a3 % 2 == 1);
    let (a5, c5) = (rra_value(a4, c4), a4 % 2 == 1);
    let (a6, c6) = (rra_value(a5, c5), a5 % 2 == 1);
    let (a7, c7) = (rra_value(a6, c6), a6 % 2 == 1);
    let (a8, c8) = (rra_value(a7, c7), a7 % 2 == 1);
    let (a9, c9) = (rra_value(a8, c8), a8 % 2 == 1);
    assert(rra_repeat(a, carry, 9) == rra_repeat(a1, c1, 8));
    assert(rra_repeat(a1, c1, 8) == rra_repeat(a2, c2, 7));
    assert(rra_repeat(a2, c2, 7) == rra_repeat(a3, c3, 6));
    assert(rra_repeat(a3, c3, 6) == rra_repeat(a4, c4, 5));
    assert(rra_repeat(a4, c4, 5) == rra_repeat(a5, c5, 4));
    assert(rra_repeat(a5, c5, 4) == rra_repeat(a6, c6, 3));
    assert(rra_repeat(a6, c6, 3) == rra_repeat(a7, c7, 2));
    assert(rra_repeat(a7, c7, 2) == rra_repeat(a8, c8, 1));
    assert(rra_repeat(a8, c8, 1) == rra_repeat(a9, c9, 0));
    lemma_rotation_period(a, carry, a1, c1, a2, c2, a3, c3, a4, c4, a5, c5, a6, c6, a7, c7, a8, c8, a9, c9);
}

proof fn lemma_rotation_period(
    a0: u8,
    c0: bool,
    a1: u8,
    c1: bool,
    a2: u8,
    c2: bool,
    a3: u8,
    c3: bool,
    a4: u8,
    c4: bool,
    a5: u8,
    c5: bool,
    a6: u8,
    c6: bool,
    a7: u8,
    c7: bool,
    a8: u8,
    c8: bool,
    a9: u8,
    c9: bool,
)
    by (bit_vector)
    requires
        a1 == rra_value(a0, c0) && c1 == (a0 % 2 == 1),
        a2 == rra_value(a1, c1) && c2 == (a1 % 2 == 1),
        a3 == rra_value(a2, c2) && c3 == (a2 % 2 == 1),
        a4 == rra_value(a3, c3) && c4 == (a3 % 2 == 1),
        a5 == rra_value(a4, c4) && c5 == (a4 % 2 == 1),
        a6 == rra_value(a5, c5) && c6 == (a5 % 2 == 1),
        a7 == rra_value(a6, c6) && c7 == (a6 % 2 == 1),
        a8 == rra_value(a7, c7) && c8 == (a7 % 2 == 1),
        a9 == rra_value(a8, c8) && c9 == (a8 % 2 == 1),
    ensures
        a9 == a0 && c9 == c0,
{
}

} // verus!
