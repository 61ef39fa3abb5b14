//! Bit utilities: testing a bit, setting a bit, extracting a range of bits.

use vstd::prelude::*;

verus! {

/// Bit `pos` of `x`. A 16-bit word has no bits beyond position 15: they read as zero.
pub open spec fn spec_bit_at(x: u16, pos: u8) -> bool {
    pos < 16 && (x >> (pos as u16)) & 1u16 == 1u16
}

/// `x` with bit `pos` made equal to `v`. Positions beyond 15 do not exist and leave `x` as it is.
pub open spec fn spec_set_bit_at(x: u16, pos: u16, v: bool) -> u16 {
    if pos >= 16 {
        x
    } else if v {
        x | (1u16 << pos)
    } else {
        x & !(1u16 << pos)
    }
}

/// The `n` lowest bits set, for `n` below 16.
pub open spec fn low_mask(n: u16) -> u16 {
    ((1u16 << n) - 1) as u16
}

/// The bits `right ..= left` of `e`, read as an unsigned number whose lowest bit is bit `right`.
/// An empty range (`right > left`) is zero, and so are the bits beyond position 15.
pub open spec fn spec_sub_sum(e: u16, left: int, right: int) -> u16 {
    if right > left || right < 0 || right >= 16 {
        0u16
    } else if left - right >= 15 {
        e >> (right as u16)
    } else {
        (e >> (right as u16)) & low_mask((left - right + 1) as u16)
    }
}

/// `x` with bit `pos` of a 32-bit word made equal to `v`; positions beyond 31 leave `x` as it is.
pub open spec fn spec_set_bit(x: u32, pos: u8, v: bool) -> u32 {
    if pos >= 32 {
        x
    } else if v {
        x | (1u32 << (pos as u32))
    } else {
        x & !(1u32 << (pos as u32))
    }
}

/// Tests bit `pos` of `opcode`.
pub fn bit_at(opcode: u16, pos: u8) -> (r: bool)
    ensures
        r == spec_bit_at(opcode, pos),
{
    if pos >= 16 {
        false
    } else {
        let p: u16 = pos as u16;
        assert((opcode & (1u16 << p) != 0) == ((opcode >> p) & 1u16 == 1u16)) by (bit_vector)
            requires
                p < 16,
        ;
        opcode & (1u16 << p) != 0
    }
}

/// Returns `opcode` with bit `pos` set to `v`.
pub fn set_bit_at(opcode: u16, pos: u16, v: bool) -> (r: u16)
    ensures
        r == spec_set_bit_at(opcode, pos, v),
        pos < 16 ==> spec_bit_at(r, pos as u8) == v,
        forall|other: u8| other != pos ==> spec_bit_at(r, other) == spec_bit_at(opcode, other),
{
    proof {
        lemma_set_bit_at(opcode, pos, v);
    }
    if pos >= 16 {
        opcode
    } else if v {
        opcode | (1u16 << pos)
    } else {
        opcode & ((1u16 << pos) ^ 0xFFFF)
    }
}

/// Setting a bit changes that bit and no other.
pub proof fn lemma_set_bit_at(x: u16, pos: u16, v: bool)
    ensures
        pos < 16 ==> spec_bit_at(spec_set_bit_at(x, pos, v), pos as u8) == v,
        forall|other: u8|
            other != pos ==> #[trigger] spec_bit_at(spec_set_bit_at(x, pos, v), other)
                == spec_bit_at(x, other),
        pos < 16 ==> ((1u16 << pos) ^ 0xFFFF) == !(1u16 << pos),
{
    if pos < 16 {
        assert(((x | (1u16 << pos)) >> pos) & 1u16 == 1u16 && ((x & !(1u16 << pos)) >> pos) & 1u16
            == 0u16 && ((1u16 << pos) ^ 0xFFFF) == !(1u16 << pos)) by (bit_vector)
            requires
                pos < 16,
        ;
        assert forall|other: u8| other != pos implies #[trigger] spec_bit_at(
            spec_set_bit_at(x, pos, v),
            other,
        ) == spec_bit_at(x, other) by {
            if other < 16 {
                let o: u16 = other as u16;
                assert(((x | (1u16 << pos)) >> o) & 1u16 == (x >> o) & 1u16 && ((x & !(1u16
                    << pos)) >> o) & 1u16 == (x >> o) & 1u16) by (bit_vector)
                    requires
                        pos < 16,
                        o < 16,
                        o != pos,
                ;
            }
        }
    }
}

/// One more bit at the low end of a range doubles the value above it and adds the bit.
proof fn lemma_sub_sum_step(e: u16, left: u8, right: u8)
    requires
        right <= left,
    ensures
        spec_sub_sum(e, left as int, right as int) == (spec_sub_sum(e, left as int, right + 1)
            << 1u16) + (if spec_bit_at(e, right) {
            1u16
        } else {
            0u16
        }),
{
    let r: u16 = right as u16;
    let hi: u16 = spec_sub_sum(e, left as int, right + 1);
    let lo: u16 = spec_sub_sum(e, left as int, right as int);
    let b: u16 = if spec_bit_at(e, right) {
        1u16
    } else {
        0u16
    };
    if right >= 16 {
        assert((0u16 << 1u16) + 0u16 == 0u16) by (bit_vector);
    } else {
        // the number of bits above bit `right`, as far as the word has any
        let k: u16 = if left - right >= 16 {
            16u16
        } else {
            (left - right) as u16
        };
        assert(lo == (hi << 1u16) + b) by (bit_vector)
            requires
                r < 16,
                k <= 16,
                b == (if (e >> r) & 1u16 == 1u16 {
                    1u16
                } else {
                    0u16
                }),
                hi == (if k == 0 || r >= 15 {
                    0u16
                } else if k >= 16 {
                    e >> ((r + 1) as u16)
                } else {
                    (e >> ((r + 1) as u16)) & (((1u16 << k) - 1) as u16)
                }),
                lo == (if k >= 15 {
                    e >> r
                } else {
                    (e >> r) & (((1u16 << ((k + 1) as u16)) - 1) as u16)
                }),
        ;
    }
}

/// Extracts the bits `right ..= left` of `e` as an unsigned number.
pub fn sub_sum(e: u16, left: u8, right: u8) -> (sum: u16)
    ensures
        sum == spec_sub_sum(e, left as int, right as int),
{
    let mut sum: u16 = 0;
    if right > left {
        return sum;
    }
    let mut i: u8 = left;
    let mut done: bool = false;
    while !done
        invariant
            right <= i <= left,
            !done ==> sum == spec_sub_sum(e, left as int, i + 1),
            done ==> sum == spec_sub_sum(e, left as int, right as int),
        decreases i - right + (if done { 0int } else { 1int }),
    {
        proof {
            lemma_sub_sum_step(e, left, i);
        }
        let bit: u16 = if bit_at(e, i) {
            1
        } else {
            0
        };
        sum = (sum << 1) + bit;
        if i == right {
            done = true;
        } else {
            i = i - 1;
        }
    }
    sum
}

/// Sets bit `pos` of the 32-bit word `num` to `value`.
pub fn set_bit(num: &mut u32, pos: u8, value: bool)
    ensures
        *final(num) == spec_set_bit(*old(num), pos, value),
{
    if pos < 32 {
        let bit: u32 = 1u32 << (pos as u32);
        if value {
            *num = *num | bit;
        } else {
            assert(bit ^ 0xFFFF_FFFFu32 == !bit) by (bit_vector);
            *num = *num & (bit ^ 0xFFFF_FFFF);
        }
    }
}

} // verus!
