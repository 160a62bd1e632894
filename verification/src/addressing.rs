//! Index arithmetic for statevector updates.
//!
//! Amplitude indices have one bit per qubit, qubit 0 being the most
//! significant bit.  A single-qubit operator on qubit `t` couples pairs of
//! amplitudes whose indices agree everywhere except at the bit for `t`.
//! `get_indexes` maps a compact index over the unaffected bits to such a
//! pair, by inserting a zero bit (and then also a one bit) at the position
//! for `t`.

use vstd::prelude::*;

verus! {

use vstd::arithmetic::power2::{
    pow2,
    lemma_pow2_adds,
    lemma_pow2_strictly_increases,
    lemma_pow2_pos,
    lemma2_to64,
};
use vstd::arithmetic::div_mod::{lemma_fundamental_div_mod, lemma_mod_bound};
use vstd::bits::{
    lemma_usize_shr_is_div,
    lemma_usize_shl_is_mul,
    lemma_usize_pow2_no_overflow,
    lemma_usize_low_bits_mask_is_mod,
    low_bits_mask,
};
use crate::MAX_QUBIT_COUNT;

/// The value obtained by shifting the bits of `i` at positions `p` and above
/// one place up, leaving a zero bit at position `p`.
pub open spec fn insert_zero_bit(i: nat, p: nat) -> nat {
    (i / pow2(p)) * pow2(p + 1) + i % pow2(p)
}

/// Bit `p` of `x` (0 or 1), counting from the least significant end.
pub open spec fn nth_bit(x: nat, p: nat) -> nat {
    (x / pow2(p)) % 2
}

/// The bit position (from the least significant end) that qubit
/// `gate_position` occupies in an amplitude index of `qubit_count` bits.
pub open spec fn reversed_position(gate_position: u8, qubit_count: u8) -> nat
    recommends
        gate_position < qubit_count,
{
    (qubit_count - gate_position - 1) as nat
}

/// The pair of full-space indices coupled by a single-qubit operator on
/// qubit `gate_position`, for the compact index `i` over the remaining bits.
pub open spec fn spec_get_indexes(i: nat, gate_position: u8, qubit_count: u8) -> (nat, nat) {
    let p = reversed_position(gate_position, qubit_count);
    (insert_zero_bit(i, p), insert_zero_bit(i, p) + pow2(p))
}

/// Returns the two amplitude indices that differ only at the bit for qubit
/// `gate_position`: the first has that bit 0, the second has it 1.  Every
/// compact index yields a distinct pair, and together the pairs cover the
/// whole space of `pow2(qubit_count)` indices.
pub fn get_indexes(i: usize, gate_position: u8, qubit_count: u8) -> (r: (usize, usize))
    requires
        gate_position < qubit_count,
        qubit_count <= MAX_QUBIT_COUNT,
        i < pow2((qubit_count - 1) as nat),
    ensures
        (r.0 as nat, r.1 as nat) == spec_get_indexes(i as nat, gate_position, qubit_count),
        r.0 < pow2(qubit_count as nat),
        r.1 < pow2(qubit_count as nat),
        r.0 != r.1,
        nth_bit(r.0 as nat, reversed_position(gate_position, qubit_count)) == 0,
        nth_bit(r.1 as nat, reversed_position(gate_position, qubit_count)) == 1,
        r.1 == r.0 + pow2(reversed_position(gate_position, qubit_count)),
{
    let reversed_gate_position: u8 = qubit_count - gate_position - 1;
    let ghost p = reversed_gate_position as nat;
    proof {
        lemma2_to64();
        lemma_usize_pow2_no_overflow(p);
        lemma_pow2_strictly_increases(p, 64);
        lemma_usize_shl_is_mul(1usize, reversed_gate_position as usize);
    }
    let mask: usize = (1usize << reversed_gate_position) - 1;
    proof {
        assert(mask == low_bits_mask(p)) by {
            vstd::bits::lemma_low_bits_mask_values();
            assert(low_bits_mask(p) == pow2(p) - 1) by {
                vstd::bits::lemma_usize_low_bits_mask_is_mod(0usize, p);
                lemma_pow2_pos(p);
                assert(pow2(p) >= 1);
                lemma_mask_is_pow2_minus_one(p);
            }
        }
        lemma_usize_low_bits_mask_is_mod(i, p);
    }
    let lowbits = i & mask;
    proof {
        lemma_usize_shr_is_div(i, reversed_gate_position as usize);
        lemma_pow2_adds(p, 1);
        lemma_pow2_adds((qubit_count - 1) as nat, 1);
        assert(pow2(1) == 2);
        lemma_div_bound(i as nat, p, (qubit_count - 1) as nat);
        lemma_pow2_adds(((qubit_count - 1) as nat - p) as nat, p + 1);
        assert((i >> reversed_gate_position as usize) as nat * pow2(p + 1) <= usize::MAX) by {
            lemma_pow2_strictly_increases(qubit_count as nat, 64);
            lemma_pow2_pos(p + 1);
            let d0 = i as nat / pow2(p);
            let a0 = pow2(((qubit_count - 1) as nat - p) as nat);
            let b0 = pow2(p + 1);
            assert(d0 * b0 + b0 <= pow2(qubit_count as nat)) by (nonlinear_arith)
                requires
                    d0 < a0,
                    a0 * b0 == pow2(qubit_count as nat),
                    b0 > 0,
            {
                assert((d0 + 1) * b0 <= a0 * b0);
                assert((d0 + 1) * b0 == d0 * b0 + b0);
            }
        }
        lemma_usize_shl_is_mul(i >> reversed_gate_position as usize, (reversed_gate_position + 1) as usize);
    }
    let remainder = (i >> reversed_gate_position) << (reversed_gate_position + 1);
    let index0 = remainder | lowbits;
    let index1 = index0 | (1usize << reversed_gate_position);
    proof {
        let d = i as nat / pow2(p);
        let m = i as nat % pow2(p);
        lemma_mod_bound(i as int, pow2(p) as int);
        assert(index0 == remainder + lowbits && index1 == index0 + (1usize << reversed_gate_position))
            by (bit_vector)
            requires
                index0 == remainder | lowbits,
                index1 == index0 | (1usize << reversed_gate_position),
                remainder == (i >> reversed_gate_position as usize) << ((reversed_gate_position + 1) as usize),
                lowbits == i & (((1usize << reversed_gate_position as usize) - 1) as usize),
                reversed_gate_position < 64,
        {}
        assert(index0 as nat == insert_zero_bit(i as nat, p));
        // Bounds and the bit at position p.
        lemma_pow2_adds(((qubit_count - 1) as nat - p) as nat, p);
        assert(d * pow2(p + 1) + m + pow2(p) < pow2(qubit_count as nat)
            && (d * pow2(p + 1) + m) / pow2(p) % 2 == 0
            && (d * pow2(p + 1) + m + pow2(p)) / pow2(p) % 2 == 1)
            by (nonlinear_arith)
            requires
                m < pow2(p),
                d < pow2(((qubit_count - 1) as nat - p) as nat),
                pow2(p + 1) == 2 * pow2(p),
                pow2(p) > 0,
                pow2(((qubit_count - 1) as nat - p) as nat) * pow2(p + 1) == pow2(qubit_count as nat),
        {
            assert(d * pow2(p + 1) + m == (2 * d) * pow2(p) + m);
            assert(((2 * d) * pow2(p) + m) / pow2(p) == 2 * d) by {
                vstd::arithmetic::div_mod::lemma_fundamental_div_mod_converse(
                    ((2 * d) * pow2(p) + m) as int, pow2(p) as int, 2 * d as int, m as int);
            }
            assert(d * pow2(p + 1) + m + pow2(p) == (2 * d + 1) * pow2(p) + m);
            assert(((2 * d + 1) * pow2(p) + m) / pow2(p) == 2 * d + 1) by {
                vstd::arithmetic::div_mod::lemma_fundamental_div_mod_converse(
                    ((2 * d + 1) * pow2(p) + m) as int, pow2(p) as int, 2 * d + 1 as int, m as int);
            }
            assert((2 * d + 1) * pow2(p) + m < pow2(((qubit_count - 1) as nat - p) as nat) * pow2(p + 1));
        }
        lemma_pow2_pos(p);
    }
    (index0, index1)
}

/// `low_bits_mask(p)` written as `pow2(p) - 1`.
proof fn lemma_mask_is_pow2_minus_one(p: nat)
    ensures
        low_bits_mask(p) == pow2(p) - 1,
    decreases p,
{
    if p == 0 {
        lemma2_to64();
        assert(low_bits_mask(0) == 0) by {
            vstd::bits::lemma_low_bits_mask_values();
        }
    } else {
        lemma_mask_is_pow2_minus_one((p - 1) as nat);
        vstd::bits::lemma_low_bits_mask_unfold(p);
        vstd::arithmetic::power2::lemma_pow2_unfold(p);
    }
}

/// Dividing a value below `pow2(hi)` by `pow2(p)` stays below `pow2(hi - p)`.
proof fn lemma_div_bound(i: nat, p: nat, hi: nat)
    requires
        i < pow2(hi),
        p <= hi,
    ensures
        i / pow2(p) < pow2((hi - p) as nat),
{
    lemma_pow2_adds((hi - p) as nat, p);
    lemma_pow2_pos(p);
    assert(i / pow2(p) < pow2((hi - p) as nat)) by (nonlinear_arith)
        requires
            i < pow2(hi),
            pow2(hi) == pow2((hi - p) as nat) * pow2(p),
            pow2(p) > 0,
    {
        lemma_fundamental_div_mod(i as int, pow2(p) as int);
        lemma_mod_bound(i as int, pow2(p) as int);
    }
}

} // verus!
