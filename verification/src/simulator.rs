//! The simulation entry points: sampling counts, the raw statevector, and
//! exact probabilities, with an optional little-endian reordering of the
//! result.

use vstd::prelude::*;

verus! {

use vstd::arithmetic::power2::{pow2, lemma_pow2_pos, lemma2_to64};
use vstd::bits::{lemma_usize_shl_is_mul, lemma_usize_pow2_no_overflow};
use crate::MAX_QUBIT_COUNT;
use crate::SimError;
use crate::circuit::{Circuit, CircuitState, gate_mentions};
use crate::complex::{
    Amp,
    str_eq,
    B_ONE,
    B_ZERO,
    B64_ONE,
    spec_f64_of,
    spec_f64_add,
    spec_f64_mul,
    spec_f64_lt,
    f64_of,
    f64_add,
    f64_mul,
    f64_lt,
    random_unit,
};
use crate::engine::{get_final_statevector, find_circuit, spec_find_circuit, spec_no_measure_gates};
use crate::engine::{spec_subcircuit_rel, spec_initial_statevector, spec_empty_map, RControl};
use vstd::multiset::Multiset;
use crate::measurement::{self, seq_sum, spec_map_is_empty, get_bit_count_from_measurements};
use crate::measurement::{map_wf, spec_pairs, spec_results_len, spec_max_bit, spec_probabilities_loop};

/// The bits of `state` reversed, consuming `qbits` bits from the least
/// significant end into an accumulator.
pub open spec fn rev_acc(qbits: nat, state: nat, acc: nat) -> nat
    decreases qbits,
{
    if qbits == 0 {
        acc
    } else {
        rev_acc((qbits - 1) as nat, state / 2, acc * 2 + state % 2)
    }
}

/// The `qbits`-bit reversal of `state`.
pub open spec fn spec_reversed_bits(qbits: u8, state: nat) -> nat {
    rev_acc(qbits as nat, state, 0)
}

/// The vector with every position replaced by the one at the bit-reversed
/// index.
pub open spec fn spec_reorder<T>(v: Seq<T>, qbits: u8) -> Seq<T> {
    Seq::new(v.len(), |i: int| v[spec_reversed_bits(qbits, i as nat) as int])
}

/// The accumulator shifts the result: reversing on top of `acc` appends
/// the reversal of the consumed bits below it, and that reversal stays
/// under `pow2(qbits)`.
proof fn lemma_rev_acc(qbits: nat, state: nat, acc: nat)
    ensures
        rev_acc(qbits, state, acc) == acc * pow2(qbits) + rev_acc(qbits, state, 0),
        rev_acc(qbits, state, 0) < pow2(qbits),
    decreases qbits,
{
    if qbits == 0 {
        assert(pow2(0) == 1) by {
            lemma2_to64();
        }
    } else {
        vstd::arithmetic::power2::lemma_pow2_unfold(qbits);
        let q1 = (qbits - 1) as nat;
        lemma_rev_acc(q1, state / 2, (acc * 2 + state % 2) as nat);
        lemma_rev_acc(q1, state / 2, (state % 2) as nat);
        lemma_rev_acc(q1, state / 2, 0);
        assert((acc * 2 + state % 2) * pow2(q1) == acc * (2 * pow2(q1)) + (state % 2) * pow2(q1))
            by (nonlinear_arith)
        {}
        lemma_pow2_pos(q1);
        assert((state % 2) * pow2(q1) + rev_acc(q1, state / 2, 0) < 2 * pow2(q1))
            by (nonlinear_arith)
            requires
                state % 2 < 2,
                rev_acc(q1, state / 2, 0) < pow2(q1),
                pow2(q1) > 0,
        {}
    }
}

/// Reversing a value made of a top bit over `qbits - 1` low bits peels
/// the top bit to the bottom.
proof fn lemma_rev_split(qbits: nat, y: nat, z: nat)
    requires
        qbits >= 1,
        y < 2,
        z < pow2((qbits - 1) as nat),
    ensures
        rev_acc(qbits, y * pow2((qbits - 1) as nat) + z, 0) == rev_acc((qbits - 1) as nat, z, 0) * 2
            + y,
    decreases qbits,
{
    let q1 = (qbits - 1) as nat;
    let x = y * pow2(q1) + z;
    lemma_pow2_pos(q1);
    if qbits == 1 {
        assert(pow2(0) == 1) by {
            lemma2_to64();
        }
        assert(z == 0);
        assert(x == y);
        assert(rev_acc(1, y, 0) == rev_acc(0, y / 2, y % 2));
        assert(rev_acc(0, y / 2, y % 2) == y % 2);
        assert(y % 2 == y);
        assert(rev_acc(0, z, 0) == 0);
    } else {
        let q2 = (q1 - 1) as nat;
        vstd::arithmetic::power2::lemma_pow2_unfold(q1);
        assert(pow2(q1) == 2 * pow2(q2));
        assert(x % 2 == z % 2 && x / 2 == y * pow2(q2) + z / 2) by (nonlinear_arith)
            requires
                x == y * (2 * pow2(q2)) + z,
                pow2(q2) > 0,
        {
            vstd::arithmetic::div_mod::lemma_fundamental_div_mod(z as int, 2);
            vstd::arithmetic::div_mod::lemma_fundamental_div_mod_converse(
                x as int,
                2,
                (y * pow2(q2) + z / 2) as int,
                (z % 2) as int,
            );
        }
        assert(z / 2 < pow2((q1 - 1) as nat)) by (nonlinear_arith)
            requires
                z < pow2(q1),
                pow2(q1) == 2 * pow2((q1 - 1) as nat),
        {}
        lemma_rev_split(q1, y, z / 2);
        // rev(q, x) = rev(q1, x/2, acc = x%2)
        lemma_rev_acc(q1, x / 2, (x % 2) as nat);
        lemma_rev_acc(q1, x / 2, 0);
        // right side: rev(q1, z) = rev(q2, z/2, acc = z%2)
        lemma_rev_acc(q2, z / 2, (z % 2) as nat);
        lemma_rev_acc(q2, z / 2, 0);
        assert(rev_acc(qbits, x, 0) == rev_acc(q1, x / 2, (x % 2) as nat));
        assert(rev_acc(q1, z, 0) == rev_acc(q2, z / 2, (z % 2) as nat));
        assert(2 * ((z % 2) * pow2(q2)) == (z % 2) * pow2(q1)) by (nonlinear_arith)
            requires
                pow2(q1) == 2 * pow2(q2),
        {}
        assert(rev_acc(qbits, x, 0) == (z % 2) * pow2(q1) + rev_acc(q1, y * pow2(q2) + z / 2, 0));
        assert(rev_acc(q1, y * pow2(q2) + z / 2, 0) == rev_acc(q2, z / 2, 0) * 2 + y);
        assert(rev_acc(q1, z, 0) * 2 == ((z % 2) * pow2(q2) + rev_acc(q2, z / 2, 0)) * 2);
    }
}

/// Bit reversal is an involution: reversing twice gives the value back.
pub proof fn lemma_reversed_bits_involution(qbits: u8, state: nat)
    requires
        state < pow2(qbits as nat),
    ensures
        spec_reversed_bits(qbits, spec_reversed_bits(qbits, state)) == state,
    decreases qbits,
{
    if qbits == 0 {
        assert(pow2(0) == 1) by {
            lemma2_to64();
        }
    } else {
        let q = qbits as nat;
        let q1 = (q - 1) as nat;
        vstd::arithmetic::power2::lemma_pow2_unfold(q);
        lemma_pow2_pos(q1);
        assert(state / 2 < pow2(q1) && state % 2 < 2) by (nonlinear_arith)
            requires
                state < 2 * pow2(q1),
                pow2(q1) > 0,
        {
            vstd::arithmetic::div_mod::lemma_fundamental_div_mod(state as int, 2);
        }
        lemma_rev_acc(q1, state / 2, (state % 2) as nat);
        lemma_rev_acc(q1, state / 2, 0);
        assert(rev_acc(q, state, 0) == (state % 2) * pow2(q1) + rev_acc(q1, state / 2, 0));
        lemma_rev_split(q, state % 2, rev_acc(q1, state / 2, 0));
        lemma_reversed_bits_involution((qbits - 1) as u8, state / 2);
        vstd::arithmetic::div_mod::lemma_fundamental_div_mod(state as int, 2);
    }
}

/// Reverses the low `qbits` bits of `state`.
pub fn get_reversed_qbits_state(qbits: u8, state: usize) -> (r: usize)
    requires
        qbits <= MAX_QUBIT_COUNT,
        state < pow2(qbits as nat),
    ensures
        r == spec_reversed_bits(qbits, state as nat),
        r < pow2(qbits as nat),
{
    let ghost q0 = qbits as nat;
    let ghost s0 = state as nat;
    let mut qbits = qbits;
    let mut state = state;
    let mut rev: usize = 0;
    proof {
        lemma_rev_acc(qbits as nat, state as nat, rev as nat);
        lemma2_to64();
    }
    while qbits > 0
        invariant
            qbits <= MAX_QUBIT_COUNT,
            rev_acc(q0, s0, 0) == rev_acc(qbits as nat, state as nat, rev as nat),
            rev_acc(q0, s0, 0) < pow2(q0),
            pow2(q0) <= pow2(30),
            pow2(30) == 0x40000000,
            rev as nat * pow2(qbits as nat) <= rev_acc(q0, s0, 0),
        decreases qbits,
    {
        proof {
            lemma_pow2_pos(qbits as nat);
            vstd::arithmetic::power2::lemma_pow2_unfold(qbits as nat);
            lemma_rev_acc((qbits - 1) as nat, (state / 2) as nat, (rev * 2 + state % 2) as nat);
            lemma_rev_acc((qbits - 1) as nat, (state / 2) as nat, 0);
            assert((rev * 2 + state % 2) * pow2((qbits - 1) as nat) == rev * (2 * pow2(
                (qbits - 1) as nat,
            )) + (state % 2) * pow2((qbits - 1) as nat)) by (nonlinear_arith)
            {}
            assert(rev * 2 + state % 2 <= 0x7fffffffusize) by {
                lemma_pow2_pos((qbits - 1) as nat);
                assert((rev * 2 + state % 2) * pow2((qbits - 1) as nat) <= rev_acc(q0, s0, 0))
                    by (nonlinear_arith)
                    requires
                        (rev * 2 + state % 2) * pow2((qbits - 1) as nat) == rev * (2 * pow2((
                        qbits - 1) as nat)) + (state % 2) * pow2((qbits - 1) as nat),
                        rev * (2 * pow2((qbits - 1) as nat)) + (state % 2) * pow2((qbits - 1) as nat)
                            + rev_acc((qbits - 1) as nat, (state / 2) as nat, 0) == rev_acc(
                            q0,
                            s0,
                            0,
                        ),
                {}
                assert(rev * 2 + state % 2 <= (rev * 2 + state % 2) * pow2((qbits - 1) as nat))
                    by (nonlinear_arith)
                    requires
                        pow2((qbits - 1) as nat) >= 1,
                {}
            }
            assert(rev << 1usize == rev * 2 && state & 1 == state % 2 && state >> 1usize == state
                / 2 && ((rev << 1usize) ^ (state & 1)) == rev * 2 + state % 2) by (bit_vector)
                requires
                    rev <= 0x4000_0000usize,
            {}
        }
        rev = rev << 1;
        if state & 1 == 1 {
            rev = rev ^ 1;
        } else {
            rev = rev ^ 0;
        }
        state = state >> 1;
        qbits -= 1;
    }
    proof {
        lemma_rev_acc(q0, s0, 0);
    }
    rev
}

/// Applies the bit-reversal permutation in place: entry `i` moves to the
/// position given by reversing its `qubit_count`-bit index.  Applying it
/// twice gives the original vector back.
pub fn reorder_vector<T: Copy>(vector: Vec<T>, qubit_count: u8) -> (r: Vec<T>)
    requires
        vector@.len() == pow2(qubit_count as nat),
        qubit_count <= MAX_QUBIT_COUNT,
    ensures
        r@ == spec_reorder(vector@, qubit_count),
        r@.to_multiset() == vector@.to_multiset(),
{
    let ghost orig = vector@;
    let mut vector = vector;
    let length: usize = vector.len();
    let mut i: usize = 0;
    while i < length
        invariant
            vector@.len() == pow2(qubit_count as nat),
            length == vector@.len(),
            qubit_count <= MAX_QUBIT_COUNT,
            orig.len() == vector@.len(),
            0 <= i <= length,
            vector@.to_multiset() == orig.to_multiset(),
            forall|k: int| 0 <= k < vector@.len() ==> (#[trigger] vector@[k]) == {
                let rk = spec_reversed_bits(qubit_count, k as nat) as int;
                if (if k <= rk { k } else { rk }) < i {
                    orig[rk]
                } else {
                    orig[k]
                }
            },
        decreases length - i,
    {
        let fst = i;
        let snd = get_reversed_qbits_state(qubit_count, i);
        proof {
            lemma_reversed_bits_involution(qubit_count, i as nat);
        }
        let ghost before = vector@;
        if fst < snd {
            let a = vector[fst];
            let b = vector[snd];
            vector[fst] = b;
            vector[snd] = a;
            proof {
                broadcast use vstd::multiset::group_multiset_axioms;

                before.to_multiset_ensures();
                vstd::seq_lib::to_multiset_update(before, fst as int, b);
                vstd::seq_lib::to_multiset_update(before.update(fst as int, b), snd as int, a);
                assert(before.contains(a) && before.contains(b));
                assert(before.to_multiset().count(a) > 0 && before.to_multiset().count(b) > 0);
                assert(vector@.to_multiset() =~= before.to_multiset());
            }
        }
        proof {
            lemma_reversed_bits_involution(qubit_count, fst as nat);
            assert forall|k: int| 0 <= k < vector@.len() implies (#[trigger] vector@[k]) == {
                let rk = spec_reversed_bits(qubit_count, k as nat) as int;
                if (if k <= rk { k } else { rk }) < i + 1 {
                    orig[rk]
                } else {
                    orig[k]
                }
            } by {
                lemma_rev_acc(qubit_count as nat, k as nat, 0);
                lemma_reversed_bits_involution(qubit_count, k as nat);
                let rk = spec_reversed_bits(qubit_count, k as nat) as int;
                if fst < snd {
                    if k == fst {
                        assert(rk == snd as int);
                        assert(before[snd as int] == orig[snd as int]);
                        assert(vector@[k] == orig[rk]);
                    } else if k == snd {
                        assert(rk == fst as int);
                        assert(before[fst as int] == orig[fst as int]);
                        assert(vector@[k] == orig[rk]);
                    } else {
                        assert(vector@[k] == before[k]);
                        assert(rk != fst as int ==> true);
                        if rk == fst as int {
                            assert(k == snd as int);
                        }
                    }
                } else {
                    assert(vector@[k] == before[k]);
                    if k == fst as int && rk == fst as int {
                        assert(vector@[k] == orig[k]);
                    }
                    if rk == fst as int && k != fst as int {
                        assert(k == snd as int);
                        assert(snd as int <= fst as int);
                    }
                }
            }
        }
        i += 1;
    }
    proof {
        assert forall|k: int| 0 <= k < vector@.len() implies vector@[k] == spec_reorder(
            orig,
            qubit_count,
        )[k] by {
            lemma_rev_acc(qubit_count as nat, k as nat, 0);
        }
        assert(vector@ =~= spec_reorder(orig, qubit_count));
    }
    vector
}

/// The number of qubits a circuit needs: one more than the largest qubit
/// index any of its gates references, and zero for a circuit that
/// references none.
pub fn get_qubit_count_from_circuit(circuit: &Circuit) -> (r: u16)
    ensures
        forall|s: int, g: int, q: u8|
            0 <= s < circuit.steps@.len() && 0 <= g < circuit.steps@[s].gates@.len()
                && #[trigger] gate_mentions(circuit.steps@[s].gates@[g], q) ==> (q as u16) < r,
        r <= 256,
        r > 1 ==> exists|s: int, g: int|
            0 <= s < circuit.steps@.len() && 0 <= g < circuit.steps@[s].gates@.len()
                && #[trigger] gate_mentions(circuit.steps@[s].gates@[g], (r - 1) as u8),
        r >= 1 ==> exists|s: int|
            0 <= s < circuit.steps@.len() && #[trigger] circuit.steps@[s].gates@.len() > 0,
        (exists|s: int|
            0 <= s < circuit.steps@.len() && #[trigger] circuit.steps@[s].gates@.len() > 0) ==> r
            >= 1,
{
    let mut qubit_count: u16 = 0;
    let mut s: usize = 0;
    while s < circuit.steps.len()
        invariant
            0 <= s <= circuit.steps@.len(),
            qubit_count <= 256,
            forall|s0: int, g: int, q: u8|
                0 <= s0 < s && 0 <= g < circuit.steps@[s0].gates@.len() && #[trigger] gate_mentions(
                    circuit.steps@[s0].gates@[g],
                    q,
                ) ==> (q as u16) < qubit_count,
            qubit_count > 1 ==> exists|s0: int, g: int|
                0 <= s0 < circuit.steps@.len() && 0 <= g < circuit.steps@[s0].gates@.len()
                    && #[trigger] gate_mentions(
                    circuit.steps@[s0].gates@[g],
                    (qubit_count - 1) as u8,
                ),
            qubit_count >= 1 ==> exists|s0: int|
                0 <= s0 < circuit.steps@.len() && #[trigger] circuit.steps@[s0].gates@.len() > 0,
            (exists|s0: int|
                0 <= s0 < s && #[trigger] circuit.steps@[s0].gates@.len() > 0) ==> qubit_count
                >= 1,
        decreases circuit.steps@.len() - s,
    {
        let step = &circuit.steps[s];
        let mut g: usize = 0;
        while g < step.gates.len()
            invariant
                0 <= g <= step.gates@.len(),
                step == circuit.steps@[s as int],
                0 <= s < circuit.steps@.len(),
                qubit_count <= 256,
                forall|s0: int, g0: int, q: u8|
                    0 <= s0 < s && 0 <= g0 < circuit.steps@[s0].gates@.len()
                        && #[trigger] gate_mentions(circuit.steps@[s0].gates@[g0], q) ==> (
                    q as u16) < qubit_count,
                forall|g0: int, q: u8|
                    0 <= g0 < g && #[trigger] gate_mentions(step.gates@[g0], q) ==> (q as u16)
                        < qubit_count,
                qubit_count > 1 ==> exists|s0: int, g0: int|
                    0 <= s0 < circuit.steps@.len() && 0 <= g0 < circuit.steps@[s0].gates@.len()
                        && #[trigger] gate_mentions(
                        circuit.steps@[s0].gates@[g0],
                        (qubit_count - 1) as u8,
                    ),
                qubit_count >= 1 ==> exists|s0: int|
                    0 <= s0 < circuit.steps@.len() && #[trigger] circuit.steps@[s0].gates@.len()
                        > 0,
                ((g > 0 || exists|s0: int|
                    0 <= s0 < s && #[trigger] circuit.steps@[s0].gates@.len() > 0) ==> qubit_count
                    >= 1),
            decreases step.gates@.len() - g,
        {
            let mx = step.gates[g].get_max_qubit_index();
            if mx as u16 + 1 > qubit_count {
                qubit_count = mx as u16 + 1;
                proof {
                    assert(circuit.steps@[s as int].gates@.len() > 0);
                    if qubit_count > 1 {
                        assert(gate_mentions(
                            circuit.steps@[s as int].gates@[g as int],
                            (qubit_count - 1) as u8,
                        ));
                    }
                }
            }
            g += 1;
        }
        s += 1;
    }
    qubit_count
}

/// Resolves the requested endianness: big endian when absent, and an
/// error for any string other than "bigendian" or "littleendian".
fn parse_endianess(endianess: &Option<String>) -> (r: Result<bool, SimError>)
    ensures
        r == spec_parse_endianess(*endianess),
{
    match endianess {
        None => Ok(false),
        Some(s) => {
            if str_eq(s.as_str(), "bigendian") {
                Ok(false)
            } else if str_eq(s.as_str(), "littleendian") {
                Ok(true)
            } else {
                Err(SimError::UnknownEndianness)
            }
        },
    }
}

/// Whether little-endian output is requested, or the configuration error
/// for an unknown endianness string.
pub open spec fn spec_parse_endianess(endianess: Option<String>) -> Result<bool, SimError> {
    match endianess {
        None => Ok(false),
        Some(s) => if s@ == "bigendian"@ {
            Ok(false)
        } else if s@ == "littleendian"@ {
            Ok(true)
        } else {
            Err(SimError::UnknownEndianness)
        },
    }
}

/// The qubit count to simulate with: the given one, or one more than the
/// largest referenced qubit index.  Fails when the count is above
/// `MAX_QUBIT_COUNT` or when the named circuit is absent.
fn resolve_qubit_count(
    circuits: &Vec<CircuitState>,
    current_circuit_id: i32,
    qubit_count: Option<u8>,
) -> (r: Result<u8, SimError>)
    ensures
        (r matches Ok(c) ==> c <= MAX_QUBIT_COUNT),
        (qubit_count matches Some(c) ==> if c <= MAX_QUBIT_COUNT {
            r == Ok::<u8, SimError>(c)
        } else {
            r == Err::<u8, SimError>(SimError::QubitCountTooLarge { qubit_count: c as u16 })
        }),
        qubit_count is None && spec_find_circuit(
            circuits@,
            current_circuit_id,
            circuits@.len() as int,
        ) is None ==> r == Err::<u8, SimError>(
            SimError::UnknownCircuit { circuit_id: current_circuit_id },
        ),
{
    let wide: u16 = match qubit_count {
        Some(c) => c as u16,
        None => {
            match find_circuit(circuits, current_circuit_id) {
                Some(j) => get_qubit_count_from_circuit(&circuits[j].circuit),
                None => {
                    return Err(SimError::UnknownCircuit { circuit_id: current_circuit_id });
                },
            }
        },
    };
    if wide > MAX_QUBIT_COUNT as u16 {
        return Err(SimError::QubitCountTooLarge { qubit_count: wide });
    }
    Ok(wide as u8)
}

/// Simulates the named circuit and samples it: the counts of each
/// classical outcome over `shots` runs.  A qubit count of zero yields an
/// empty result; zero shots yield an all-zero histogram; otherwise the
/// counts add up to `shots`.  Structural and configuration errors are
/// reported instead.
pub fn simulate(
    circuits: &Vec<CircuitState>,
    current_circuit_id: i32,
    shots: u32,
    endianess: Option<String>,
    qubit_count: Option<u8>,
) -> (r: Result<Vec<u32>, SimError>)
    ensures
        (spec_parse_endianess(endianess) matches Err(e) ==> r == Err::<Vec<u32>, SimError>(e)),
        (r matches Ok(counts) ==> counts@.len() == 0 || seq_sum(counts@, counts@.len() as int)
            == shots),
        (r matches Ok(counts) ==> (shots == 0 ==> forall|j: int|
            0 <= j < counts@.len() ==> (#[trigger] counts@[j]) == 0u32)),
        qubit_count == Some(0u8) && (spec_parse_endianess(endianess) is Ok) ==> (r
            matches Ok(counts) && counts@.len() == 0),
        (qubit_count matches Some(c) ==> (c > MAX_QUBIT_COUNT && (spec_parse_endianess(endianess)
            is Ok) ==> r == Err::<Vec<u32>, SimError>(
            SimError::QubitCountTooLarge { qubit_count: c as u16 },
        ))),
        (qubit_count matches Some(c) ==> (0 < c <= MAX_QUBIT_COUNT && (spec_parse_endianess(
            endianess,
        ) is Ok) && shots == 0 ==> (r matches Ok(counts) && counts@.len() == pow2(c as nat)))),
        (qubit_count matches Some(c) ==> (0 < c ==> (r matches Ok(counts) ==> counts@.len()
            > 0))),
        (qubit_count matches Some(c) ==> (0 < c && spec_no_measure_gates(circuits@) ==> (r
            matches Ok(counts) ==> counts@.len() == pow2(c as nat)))),
        (r matches Ok(counts) ==> (shots > 0 && counts@.len() > 0 ==> (exists|c: u8,
            sv: Seq<Amp>,
            m: Seq<Option<u8>>,
        |
            {
                &&& 0 < c <= MAX_QUBIT_COUNT
                &&& (qubit_count matches Some(c0) ==> c0 == c)
                &&& map_wf(m, c)
                &&& #[trigger] spec_subcircuit_rel(
                    spec_initial_statevector(c),
                    sv,
                    spec_empty_map(c),
                    m,
                    current_circuit_id,
                    0,
                    c,
                    circuits@,
                    Seq::<RControl>::empty(),
                    circuits@.len() as nat,
                    false,
                )
                &&& counts@.len() == spec_results_len(m, c)
            }))),
{
    let little_endian = match parse_endianess(&endianess) {
        Ok(b) => b,
        Err(e) => {
            return Err(e);
        },
    };
    let count = match resolve_qubit_count(circuits, current_circuit_id, qubit_count) {
        Ok(c) => c,
        Err(e) => {
            return Err(e);
        },
    };
    if count == 0 {
        return Ok(Vec::new());
    }
    if shots == 0 {
        proof {
            lemma2_to64();
            lemma_usize_pow2_no_overflow(count as nat);
            lemma_usize_shl_is_mul(1usize, count as usize);
        }
        let len: usize = 1usize << count;
        let mut zeros: Vec<u32> = Vec::new();
        let mut k: usize = 0;
        while k < len
            invariant
                0 <= k <= len,
                zeros@.len() == k,
                forall|j: int| 0 <= j < k ==> (#[trigger] zeros@[j]) == 0u32,
            decreases len - k,
        {
            zeros.push(0u32);
            k += 1;
        }
        proof {
            lemma_zero_sum(zeros@, zeros@.len() as int);
        }
        return Ok(zeros);
    }
    let (final_statevector, measurements) = match get_final_statevector(
        circuits,
        current_circuit_id,
        count,
    ) {
        Ok(p) => p,
        Err(e) => {
            return Err(e);
        },
    };
    let empty = measurements.is_empty();
    let bit_count = get_bit_count_from_measurements(&measurements);
    proof {
        lemma_pow2_pos(bit_count as nat);
        lemma_pow2_pos(count as nat);
    }
    let results = measurement::measure(final_statevector, shots, measurements, count);
    if little_endian {
        let exponent: u8 = if empty {
            count
        } else {
            bit_count
        };
        let reordered = reorder_vector(results, exponent);
        proof {
            lemma_sum_same_multiset(reordered@, results@);
        }
        Ok(reordered)
    } else {
        Ok(results)
    }
}

/// A histogram of zeros sums to zero.
proof fn lemma_zero_sum(s: Seq<u32>, k: int)
    requires
        0 <= k <= s.len(),
        forall|j: int| 0 <= j < s.len() ==> (#[trigger] s[j]) == 0u32,
    ensures
        seq_sum(s, k) == 0,
    decreases k,
{
    if k > 0 {
        lemma_zero_sum(s, k - 1);
    }
}

/// Two histograms with the same counts in some order have the same sum.
proof fn lemma_sum_same_multiset(a: Seq<u32>, b: Seq<u32>)
    requires
        a.to_multiset() == b.to_multiset(),
    ensures
        seq_sum(a, a.len() as int) == seq_sum(b, b.len() as int),
{
    lemma_sum_multiset(a, a.len() as int);
    lemma_sum_multiset(b, b.len() as int);
}

/// A sequence's sum is a function of its multiset of values.
proof fn lemma_sum_multiset(s: Seq<u32>, k: int)
    requires
        k == s.len(),
    ensures
        seq_sum(s, k) == multiset_sum(s.to_multiset()),
    decreases k,
{
    broadcast use vstd::multiset::group_multiset_axioms;

    if k == 0 {
        s.to_multiset_ensures();
        assert(s.to_multiset() =~= Multiset::<u32>::empty()) by {
            assert(s.to_multiset().len() == 0);
        }
    } else {
        let s1 = s.drop_last();
        lemma_sum_multiset(s1, k - 1);
        s1.to_multiset_ensures();
        assert(s1.push(s.last()) =~= s);
        assert(s.to_multiset() =~= s1.to_multiset().insert(s.last()));
        lemma_multiset_sum_insert(s1.to_multiset(), s.last());
        lemma_sum_prefix(s, s1, k - 1);
    }
}

/// The sum of a multiset of counts.
pub open spec fn multiset_sum(m: Multiset<u32>) -> int
    decreases m.len(),
{
    if m.len() == 0 {
        0
    } else {
        let x = m.choose();
        x + multiset_sum(m.remove(x))
    }
}

/// Inserting a count adds it to the multiset's sum.
proof fn lemma_multiset_sum_insert(m: Multiset<u32>, x: u32)
    ensures
        multiset_sum(m.insert(x)) == multiset_sum(m) + x,
    decreases m.len(), 1int,
{
    broadcast use vstd::multiset::group_multiset_axioms;

    let mi = m.insert(x);
    let y = mi.choose();
    assert(mi.len() == m.len() + 1);
    assert(mi.count(y) > 0);
    if y == x {
        assert(mi.remove(x) =~= m);
    } else {
        assert(m.count(y) > 0);
        lemma_multiset_sum_insert(m.remove(y), x);
        assert(mi.remove(y) =~= m.remove(y).insert(x));
        lemma_multiset_sum_remove(m, y);
    }
}

/// Removing a present count subtracts it from the multiset's sum.
proof fn lemma_multiset_sum_remove(m: Multiset<u32>, x: u32)
    requires
        m.count(x) > 0,
    ensures
        multiset_sum(m) == x + multiset_sum(m.remove(x)),
    decreases m.len(), 0int,
{
    broadcast use vstd::multiset::group_multiset_axioms;

    let y = m.choose();
    assert(m.len() > 0);
    assert(m.count(y) > 0);
    if y == x {
    } else {
        lemma_multiset_sum_remove(m.remove(y), x);
        lemma_multiset_sum_insert(m.remove(y).remove(x), y);
        assert(m.remove(x).remove(y) =~= m.remove(y).remove(x));
        assert(m.remove(x) =~= m.remove(y).remove(x).insert(y));
    }
}

/// Prefix sums agree on a shared prefix.
proof fn lemma_sum_prefix(a: Seq<u32>, b: Seq<u32>, k: int)
    requires
        0 <= k <= a.len(),
        k <= b.len(),
        forall|j: int| 0 <= j < k ==> a[j] == b[j],
    ensures
        seq_sum(a, k) == seq_sum(b, k),
    decreases k,
{
    if k > 0 {
        lemma_sum_prefix(a, b, k - 1);
    }
}


/// Reordering is an involution: applying the bit-reversal permutation
/// twice restores every vector of length `pow2(qubit_count)`.
pub proof fn lemma_reorder_involution<T>(v: Seq<T>, qubit_count: u8)
    requires
        v.len() == pow2(qubit_count as nat),
        qubit_count <= MAX_QUBIT_COUNT,
    ensures
        spec_reorder(spec_reorder(v, qubit_count), qubit_count) == v,
{
    let r1 = spec_reorder(v, qubit_count);
    let r2 = spec_reorder(r1, qubit_count);
    assert forall|i: int| 0 <= i < v.len() implies r2[i] == v[i] by {
        lemma_rev_acc(qubit_count as nat, i as nat, 0);
        let ri = spec_reversed_bits(qubit_count, i as nat) as int;
        lemma_rev_acc(qubit_count as nat, ri as nat, 0);
        lemma_reversed_bits_involution(qubit_count, i as nat);
    }
    assert(r2 =~= v);
}

/// Simulates the named circuit and returns its final statevector, in big
/// or little endian amplitude order.  A qubit count of zero yields an
/// empty result.
pub fn get_statevector(
    circuits: &Vec<CircuitState>,
    current_circuit_id: i32,
    endianess: Option<String>,
    qubit_count: Option<u8>,
) -> (r: Result<Vec<Amp>, SimError>)
    ensures
        (spec_parse_endianess(endianess) matches Err(e) ==> r == Err::<Vec<Amp>, SimError>(e)),
        (r matches Ok(amplitudes) ==> (qubit_count matches Some(c) ==> (c == 0
            && amplitudes@.len() == 0) || amplitudes@.len() == pow2(c as nat))),
        qubit_count == Some(0u8) && (spec_parse_endianess(endianess) is Ok) ==> (r
            matches Ok(amplitudes) && amplitudes@.len() == 0),
        (qubit_count matches Some(c) ==> (c > MAX_QUBIT_COUNT && (spec_parse_endianess(endianess)
            is Ok) ==> r == Err::<Vec<Amp>, SimError>(
            SimError::QubitCountTooLarge { qubit_count: c as u16 },
        ))),
        (qubit_count matches Some(c) ==> (0 < c <= MAX_QUBIT_COUNT && (spec_parse_endianess(
            endianess,
        ) is Ok) && (spec_find_circuit(circuits@, current_circuit_id, circuits@.len() as int)
            matches Some(j) && circuits@[j].circuit.steps@.len() == 0) ==> (r
            matches Ok(amplitudes) && amplitudes@.len() == pow2(c as nat) && amplitudes@[0] == (Amp {
            re: B_ONE,
            im: B_ZERO,
        }) && (forall|k: int|
            0 < k < amplitudes@.len() ==> (#[trigger] amplitudes@[k]) == (Amp {
                re: B_ZERO,
                im: B_ZERO,
            }))))),
        (spec_parse_endianess(endianess) matches Ok(little) ==> (r matches Ok(amplitudes)
            ==> amplitudes@.len() == 0 || (exists|c: u8, sv: Seq<Amp>, m: Seq<Option<u8>>|
            {
                &&& 0 < c <= MAX_QUBIT_COUNT
                &&& (qubit_count matches Some(c0) ==> c0 == c)
                &&& map_wf(m, c)
                &&& #[trigger] spec_subcircuit_rel(
                    spec_initial_statevector(c),
                    sv,
                    spec_empty_map(c),
                    m,
                    current_circuit_id,
                    0,
                    c,
                    circuits@,
                    Seq::<RControl>::empty(),
                    circuits@.len() as nat,
                    false,
                )
                &&& amplitudes@ == (if little {
                    spec_reorder(sv, c)
                } else {
                    sv
                })
            }))),
{
    let little_endian = match parse_endianess(&endianess) {
        Ok(b) => b,
        Err(e) => {
            return Err(e);
        },
    };
    let count = match resolve_qubit_count(circuits, current_circuit_id, qubit_count) {
        Ok(c) => c,
        Err(e) => {
            return Err(e);
        },
    };
    if count == 0 {
        return Ok(Vec::new());
    }
    let (final_statevector, _measurements) = match get_final_statevector(
        circuits,
        current_circuit_id,
        count,
    ) {
        Ok(p) => p,
        Err(e) => {
            return Err(e);
        },
    };
    if little_endian {
        let ghost before = final_statevector@;
        let reordered = reorder_vector(final_statevector, count);
        proof {
            if before[0] == (Amp { re: B_ONE, im: B_ZERO }) && (forall|k: int|
                0 < k < before.len() ==> (#[trigger] before[k]) == (Amp {
                    re: B_ZERO,
                    im: B_ZERO,
                })) {
                lemma_reorder_of_initial(before, count);
            }
        }
        Ok(reordered)
    } else {
        Ok(final_statevector)
    }
}

/// Bit reversal fixes index zero, so reordering the initial statevector
/// |0...0> gives it back unchanged.
proof fn lemma_reorder_of_initial(sv: Seq<Amp>, qubit_count: u8)
    requires
        sv.len() == pow2(qubit_count as nat),
        qubit_count <= MAX_QUBIT_COUNT,
        sv[0] == (Amp { re: B_ONE, im: B_ZERO }),
        forall|k: int| 0 < k < sv.len() ==> (#[trigger] sv[k]) == (Amp { re: B_ZERO, im: B_ZERO }),
    ensures
        spec_reorder(sv, qubit_count)[0] == (Amp { re: B_ONE, im: B_ZERO }),
        forall|k: int|
            0 < k < sv.len() ==> (#[trigger] spec_reorder(sv, qubit_count)[k]) == (Amp {
                re: B_ZERO,
                im: B_ZERO,
            }),
{
    lemma_pow2_pos(qubit_count as nat);
    lemma_rev_zero(qubit_count as nat);
    assert(spec_reorder(sv, qubit_count)[0] == sv[spec_reversed_bits(qubit_count, 0) as int]);
    assert forall|k: int| 0 < k < sv.len() implies (#[trigger] spec_reorder(sv, qubit_count)[k])
        == (Amp { re: B_ZERO, im: B_ZERO }) by {
        lemma_rev_acc(qubit_count as nat, k as nat, 0);
        lemma_reversed_bits_involution(qubit_count, k as nat);
        if spec_reversed_bits(qubit_count, k as nat) == 0 {
            lemma_rev_zero(qubit_count as nat);
            assert(spec_reversed_bits(qubit_count, spec_reversed_bits(qubit_count, k as nat))
                == k);
        }
    }
}

/// Reversing the all-zero index gives zero.
proof fn lemma_rev_zero(qbits: nat)
    ensures
        rev_acc(qbits, 0, 0) == 0,
    decreases qbits,
{
    if qbits > 0 {
        lemma_rev_zero((qbits - 1) as nat);
    }
}

/// Simulates the named circuit and returns the exact probability of each
/// classical outcome, as f32 bit patterns, in big or little endian
/// order.  A qubit count of zero yields an empty result.
pub fn get_probabilities(
    circuits: &Vec<CircuitState>,
    current_circuit_id: i32,
    endianess: Option<String>,
    qubit_count: Option<u8>,
) -> (r: Result<Vec<u32>, SimError>)
    ensures
        (spec_parse_endianess(endianess) matches Err(e) ==> r == Err::<Vec<u32>, SimError>(e)),
        qubit_count == Some(0u8) && (spec_parse_endianess(endianess) is Ok) ==> (r
            matches Ok(probabilities) && probabilities@.len() == 0),
        (qubit_count matches Some(c) ==> (c > MAX_QUBIT_COUNT && (spec_parse_endianess(endianess)
            is Ok) ==> r == Err::<Vec<u32>, SimError>(
            SimError::QubitCountTooLarge { qubit_count: c as u16 },
        ))),
        (qubit_count matches Some(c) ==> (0 < c ==> (r matches Ok(probabilities)
            ==> probabilities@.len() > 0))),
        (qubit_count matches Some(c) ==> (0 < c && spec_no_measure_gates(circuits@) ==> (r
            matches Ok(probabilities) ==> probabilities@.len() == pow2(c as nat)))),
        (spec_parse_endianess(endianess) matches Ok(little) ==> (r matches Ok(probabilities)
            ==> probabilities@.len() == 0 || (exists|c: u8, sv: Seq<Amp>, m: Seq<Option<u8>>|
            {
                &&& 0 < c <= MAX_QUBIT_COUNT
                &&& (qubit_count matches Some(c0) ==> c0 == c)
                &&& map_wf(m, c)
                &&& #[trigger] spec_subcircuit_rel(
                    spec_initial_statevector(c),
                    sv,
                    spec_empty_map(c),
                    m,
                    current_circuit_id,
                    0,
                    c,
                    circuits@,
                    Seq::<RControl>::empty(),
                    circuits@.len() as nat,
                    false,
                )
                &&& (probabilities@ == ({
                    let hist = spec_probabilities_loop(
                        sv,
                        spec_pairs(m, m.len() as int),
                        Seq::new(spec_results_len(m, c), |j: int| B_ZERO),
                        c as i8,
                        (spec_max_bit(m, m.len() as int) + 1) as i8,
                        pow2(c as nat) as int,
                    );
                    let exponent: u8 = if spec_map_is_empty(m) {
                        c
                    } else {
                        ((spec_max_bit(m, m.len() as int) + 1) as u8)
                    };
                    if little {
                        spec_reorder(hist, exponent)
                    } else {
                        hist
                    }
                }))
            }))),
{
    let little_endian = match parse_endianess(&endianess) {
        Ok(b) => b,
        Err(e) => {
            return Err(e);
        },
    };
    let count = match resolve_qubit_count(circuits, current_circuit_id, qubit_count) {
        Ok(c) => c,
        Err(e) => {
            return Err(e);
        },
    };
    if count == 0 {
        return Ok(Vec::new());
    }
    let (final_statevector, measurements) = match get_final_statevector(
        circuits,
        current_circuit_id,
        count,
    ) {
        Ok(p) => p,
        Err(e) => {
            return Err(e);
        },
    };
    let empty = measurements.is_empty();
    let bit_count = get_bit_count_from_measurements(&measurements);
    proof {
        lemma_pow2_pos(bit_count as nat);
        lemma_pow2_pos(count as nat);
    }
    let probabilities = measurement::get_probabilities(final_statevector, measurements, count);
    let ghost hist0 = probabilities@;
    if little_endian {
        let exponent: u8 = if empty {
            count
        } else {
            bit_count
        };
        let reordered = reorder_vector(probabilities, exponent);
        proof {
            assert(reordered@ == spec_reorder(hist0, exponent));
        }
        Ok(reordered)
    } else {
        Ok(probabilities)
    }
}

} // verus!
