//! Sampling and probability extraction from a final statevector.
//!
//! A measurement map assigns each measured qubit a classical bit.  Sampling
//! draws basis states with probability proportional to their squared
//! magnitude and projects them through the map into a histogram;
//! `get_probabilities` performs the same projection on the exact squared
//! magnitudes instead, with no randomness.

use vstd::prelude::*;

verus! {

use vstd::arithmetic::power2::{pow2, lemma2_to64, lemma_pow2_pos};
use vstd::bits::{lemma_usize_shl_is_mul, lemma_usize_pow2_no_overflow};
use crate::MAX_QUBIT_COUNT;
use crate::complex::{
    Amp,
    B_ZERO,
    B64_ONE,
    spec_f64_of,
    spec_f64_add,
    spec_f64_mul,
    spec_f64_lt,
    spec_cnorm_sqr,
    spec_fadd,
    cnorm_sqr,
    fadd,
    f64_of,
    f64_add,
    f64_mul,
    f64_lt,
    random_unit,
};

/// Which classical bit each qubit writes to: entry `q` is the bit assigned
/// to qubit `q`, or nothing when the qubit was not measured.
#[derive(Clone, Debug)]
pub struct MeasurementMap {
    pub entries: Vec<Option<u8>>,
}

/// A measurement map for `n` qubits: one entry per qubit, each assigned
/// bit inside the register.
pub open spec fn map_wf(m: Seq<Option<u8>>, n: u8) -> bool {
    &&& m.len() == n as nat
    &&& forall|k: int| 0 <= k < m.len() ==> ((#[trigger] m[k]) is Some ==> m[k]->0 < n)
}

/// Whether no qubit is measured.
pub open spec fn spec_map_is_empty(m: Seq<Option<u8>>) -> bool {
    forall|k: int| 0 <= k < m.len() ==> (#[trigger] m[k]) is None
}

/// The largest classical bit assigned among the first `k` entries, or 0
/// when none is assigned.
pub open spec fn spec_max_bit(m: Seq<Option<u8>>, k: int) -> u8
    decreases k,
{
    if k <= 0 {
        0
    } else {
        let prev = spec_max_bit(m, k - 1);
        match m[k - 1] {
            Some(b) => if b > prev {
                b
            } else {
                prev
            },
            None => prev,
        }
    }
}

impl MeasurementMap {
    /// A map for `n` qubits with no qubit measured.
    pub fn new(qubit_count: u8) -> (r: MeasurementMap)
        ensures
            map_wf(r.entries@, qubit_count),
            spec_map_is_empty(r.entries@),
    {
        let mut entries: Vec<Option<u8>> = Vec::new();
        let mut k: usize = 0;
        while k < qubit_count as usize
            invariant
                0 <= k <= qubit_count as usize,
                entries@.len() == k,
                forall|j: int| 0 <= j < k ==> (#[trigger] entries@[j]) is None,
            decreases qubit_count as usize - k,
        {
            entries.push(None);
            k += 1;
        }
        MeasurementMap { entries }
    }

    /// Whether no qubit is measured.
    pub fn is_empty(&self) -> (r: bool)
        ensures
            r == spec_map_is_empty(self.entries@),
    {
        let mut k: usize = 0;
        while k < self.entries.len()
            invariant
                0 <= k <= self.entries@.len(),
                forall|j: int| 0 <= j < k ==> (#[trigger] self.entries@[j]) is None,
            decreases self.entries@.len() - k,
        {
            if self.entries[k].is_some() {
                return false;
            }
            k += 1;
        }
        true
    }
}

/// One more than the largest assigned classical bit: the width of the
/// classical register the histogram covers.
pub fn get_bit_count_from_measurements(measurements: &MeasurementMap) -> (r: u8)
    requires
        measurements.entries@.len() <= MAX_QUBIT_COUNT,
        forall|k: int| 0 <= k < measurements.entries@.len()
            ==> ((#[trigger] measurements.entries@[k]) is Some
                ==> measurements.entries@[k]->0 < MAX_QUBIT_COUNT),
    ensures
        r == spec_max_bit(measurements.entries@, measurements.entries@.len() as int) + 1,
        r <= MAX_QUBIT_COUNT,
{
    let mut max: u8 = 0;
    let mut k: usize = 0;
    while k < measurements.entries.len()
        invariant
            0 <= k <= measurements.entries@.len(),
            max == spec_max_bit(measurements.entries@, k as int),
            forall|j: int| 0 <= j < measurements.entries@.len()
                ==> ((#[trigger] measurements.entries@[j]) is Some
                    ==> measurements.entries@[j]->0 < MAX_QUBIT_COUNT),
            max < MAX_QUBIT_COUNT,
        decreases measurements.entries@.len() - k,
    {
        match measurements.entries[k] {
            Some(bit) => {
                if bit > max {
                    max = bit;
                }
            },
            None => {},
        }
        k += 1;
    }
    proof {
        lemma_max_bit_le(measurements.entries@, measurements.entries@.len() as int);
    }
    max + 1
}

/// The running maximum never exceeds the largest value present, so it
/// stays below `u8::MAX` whenever every assigned bit does.
proof fn lemma_max_bit_le(m: Seq<Option<u8>>, k: int)
    requires
        0 <= k <= m.len(),
    ensures
        spec_max_bit(m, k) == 0 || exists|j: int|
            0 <= j < k && m[j] == Some(spec_max_bit(m, k)),
    decreases k,
{
    if k > 0 {
        lemma_max_bit_le(m, k - 1);
    }
}

/// The assigned bits as a list of (qubit, bit) pairs in ascending qubit
/// order, both sides widened to `i8` for the projection arithmetic.
pub open spec fn spec_pairs(m: Seq<Option<u8>>, k: int) -> Seq<(i8, i8)>
    decreases k,
{
    if k <= 0 {
        Seq::empty()
    } else {
        let prev = spec_pairs(m, k - 1);
        match m[k - 1] {
            Some(b) => prev.push(((k - 1) as i8, b as i8)),
            None => prev,
        }
    }
}

/// Reads the measurement map into (qubit, bit) pairs of `i8`.
pub fn convert_measurements_to_i8(measurements: &MeasurementMap) -> (r: Vec<(i8, i8)>)
    requires
        measurements.entries@.len() <= MAX_QUBIT_COUNT,
    ensures
        r@ == spec_pairs(measurements.entries@, measurements.entries@.len() as int),
{
    let mut pairs: Vec<(i8, i8)> = Vec::new();
    let mut k: usize = 0;
    while k < measurements.entries.len()
        invariant
            0 <= k <= measurements.entries@.len(),
            measurements.entries@.len() <= MAX_QUBIT_COUNT,
            pairs@ == spec_pairs(measurements.entries@, k as int),
        decreases measurements.entries@.len() - k,
    {
        match measurements.entries[k] {
            Some(bit) => {
                pairs.push((k as i8, bit as i8));
            },
            None => {},
        }
        k += 1;
    }
    pairs
}

/// One projection term: the bit of `index` belonging to qubit `q`, moved
/// to the place of classical bit `b`.
pub open spec fn spec_bit_term(q: i8, b: i8, qubit_count: i8, bit_count: i8, index: usize) -> usize {
    let masked = index & (1usize << ((qubit_count - q - 1) as usize));
    let diff = b - q + (qubit_count - bit_count);
    if diff > 0 {
        masked >> (diff as usize)
    } else if diff < 0 {
        masked << ((-diff) as usize)
    } else {
        masked
    }
}

/// The classical position of a basis state: the XOR of the projection
/// terms of the first `k` measured qubits, or the state itself when no
/// qubit is measured.
pub open spec fn spec_bit_position(
    ms: Seq<(i8, i8)>,
    k: int,
    qubit_count: i8,
    bit_count: i8,
    index: usize,
) -> usize
    decreases k,
{
    if k <= 0 {
        0
    } else {
        let prev = spec_bit_position(ms, k - 1, qubit_count, bit_count, index);
        prev ^ spec_bit_term(ms[k - 1].0, ms[k - 1].1, qubit_count, bit_count, index)
    }
}

/// Projects a sampled basis state through the measurement map: each
/// measured qubit writes its bit of the state into its classical bit
/// (folded with XOR), and an empty map returns the state unchanged.
pub fn get_bit_position_from_measurements(
    measurements: &Vec<(i8, i8)>,
    qubit_count: i8,
    bit_count: i8,
    index: usize,
) -> (r: usize)
    requires
        0 < qubit_count <= MAX_QUBIT_COUNT,
        0 < bit_count <= qubit_count,
        forall|k: int| 0 <= k < measurements@.len()
            ==> 0 <= (#[trigger] measurements@[k]).0 < qubit_count && 0 <= measurements@[k].1
                < bit_count,
        index < pow2(qubit_count as nat),
    ensures
        measurements@.len() == 0 ==> r == index,
        measurements@.len() > 0 ==> r == spec_bit_position(
            measurements@,
            measurements@.len() as int,
            qubit_count,
            bit_count,
            index,
        ),
        measurements@.len() > 0 ==> r < pow2(bit_count as nat),
{
    if measurements.len() == 0 {
        return index;
    }
    let ghost ms = measurements@;
    let mut bit_position: usize = 0;
    let mut k: usize = 0;
    proof {
        lemma2_to64();
        lemma_usize_shl_is_mul(1usize, bit_count as usize);
        lemma_usize_pow2_no_overflow(bit_count as nat);
        assert(0usize < (1usize << (bit_count as usize))) by {
            lemma_pow2_pos(bit_count as nat);
        }
    }
    while k < measurements.len()
        invariant
            0 <= k <= ms.len(),
            ms == measurements@,
            0 < qubit_count <= MAX_QUBIT_COUNT,
            0 < bit_count <= qubit_count,
            forall|j: int| 0 <= j < ms.len()
                ==> 0 <= (#[trigger] ms[j]).0 < qubit_count && 0 <= ms[j].1 < bit_count,
            index < pow2(qubit_count as nat),
            bit_position == spec_bit_position(ms, k as int, qubit_count, bit_count, index),
            bit_position < (1usize << (bit_count as usize)),
            (1usize << (bit_count as usize)) == pow2(bit_count as nat),
        decreases ms.len() - k,
    {
        let (qubit, bit) = measurements[k];
        let diff: i8 = bit - qubit + (qubit_count - bit_count);
        let shift_amount: u8 = (qubit_count - qubit - 1) as u8;
        let mut masked: usize = index & (1usize << (shift_amount as usize));
        if diff > 0 {
            masked = masked >> (diff as usize);
        }
        if diff < 0 {
            masked = masked << ((-diff) as usize);
        }
        proof {
            let q = qubit;
            let b = bit;
            assert(masked == spec_bit_term(q, b, qubit_count, bit_count, index));
            assert(masked < (1usize << (bit_count as usize))
                && (bit_position ^ masked) < (1usize << (bit_count as usize))) by (bit_vector)
                requires
                    masked == {
                        let m0 = index & (1usize << (((qubit_count - q - 1)) as usize));
                        let d = b - q + (qubit_count - bit_count);
                        if d > 0 {
                            m0 >> (d as usize)
                        } else if d < 0 {
                            m0 << ((-d) as usize)
                        } else {
                            m0
                        }
                    },
                    0 <= q < qubit_count,
                    0 <= b < bit_count,
                    0 < bit_count <= qubit_count,
                    qubit_count <= 30,
                    bit_position < (1usize << (bit_count as usize)),
            {}
        }
        bit_position = bit_position ^ masked;
        k += 1;
    }
    bit_position
}

/// The running f64 sum of squared magnitudes over the first `k`
/// amplitudes, accumulated exactly as sampling reads it.
pub open spec fn spec_cumulative(sv: Seq<Amp>, k: int) -> u64
    decreases k,
{
    if k <= 0 {
        0u64
    } else {
        spec_f64_add(
            spec_cumulative(sv, k - 1),
            spec_f64_add(
                spec_f64_mul(spec_f64_of(sv[k - 1].re), spec_f64_of(sv[k - 1].re)),
                spec_f64_mul(spec_f64_of(sv[k - 1].im), spec_f64_of(sv[k - 1].im)),
            ),
        )
    }
}

/// Draws one basis state: a uniform number in [0, 1) is compared against
/// the running sum of squared magnitudes, and the first state that pushes
/// the sum past the draw is returned.  If rounding keeps the sum below
/// the draw for every state, the last state is returned rather than
/// failing: the sum of a normalized vector is 1 up to rounding.  The
/// result is exactly that for some draw below one: the first index whose
/// cumulative sum exceeds the draw, or the last index when none does.
pub fn sample(statevector: &Vec<Amp>, len: usize) -> (r: usize)
    requires
        len == statevector@.len(),
        len > 0,
    ensures
        r < len,
        exists|u: u64|
            u < B64_ONE && (forall|k: int|
                0 <= k < r ==> !spec_f64_lt(u, #[trigger] spec_cumulative(statevector@, k + 1)))
                && (#[trigger] spec_f64_lt(u, spec_cumulative(statevector@, r + 1)) || (r == len
                - 1 && !spec_f64_lt(u, spec_cumulative(statevector@, len as int)))),
{
    let u = random_unit();
    let mut running: u64 = 0;
    let mut i: usize = 0;
    while i < len
        invariant
            len == statevector@.len(),
            0 <= i <= len,
            u < B64_ONE,
            running == spec_cumulative(statevector@, i as int),
            forall|k: int|
                0 <= k < i ==> !spec_f64_lt(u, #[trigger] spec_cumulative(statevector@, k + 1)),
        decreases len - i,
    {
        let re = f64_of(statevector[i].re);
        let im = f64_of(statevector[i].im);
        running = f64_add(running, f64_add(f64_mul(re, re), f64_mul(im, im)));
        proof {
            assert(running == spec_cumulative(statevector@, i + 1));
        }
        if f64_lt(u, running) {
            return i;
        }
        i += 1;
    }
    proof {
        assert(!spec_f64_lt(u, spec_cumulative(statevector@, (len as int - 1) + 1)));
        assert(spec_cumulative(statevector@, (len as int - 1) + 1) == spec_cumulative(
            statevector@,
            len as int,
        ));
    }
    len - 1
}

/// The sum of a histogram's counts.
pub open spec fn seq_sum(s: Seq<u32>, k: int) -> int
    decreases k,
{
    if k <= 0 {
        0
    } else {
        seq_sum(s, k - 1) + s[k - 1]
    }
}

/// Every count is at most the sum over the whole histogram.
proof fn lemma_seq_sum_element(s: Seq<u32>, k: int, j: int)
    requires
        0 <= j < k <= s.len(),
    ensures
        s[j] <= seq_sum(s, k),
        seq_sum(s, k) >= 0,
    decreases k,
{
    if k > 0 {
        if j == k - 1 {
            lemma_seq_sum_nonneg(s, k - 1);
        } else {
            lemma_seq_sum_element(s, k - 1, j);
        }
    }
}

/// A histogram's sum is never negative.
proof fn lemma_seq_sum_nonneg(s: Seq<u32>, k: int)
    requires
        k <= s.len(),
    ensures
        seq_sum(s, k) >= 0,
    decreases k,
{
    if k > 0 {
        lemma_seq_sum_nonneg(s, k - 1);
    }
}

/// Bumping one count raises the sum by one and leaves other counts alone.
proof fn lemma_seq_sum_update(s: Seq<u32>, k: int, j: int, v: u32)
    requires
        0 <= j < s.len(),
        0 <= k <= s.len(),
        v == s[j] + 1,
    ensures
        seq_sum(s.update(j, v), k) == seq_sum(s, k) + if j < k {
            1int
        } else {
            0int
        },
    decreases k,
{
    if k > 0 {
        lemma_seq_sum_update(s, k - 1, j, v);
    }
}

/// The number of classical outcomes: the full state space when nothing is
/// measured, else the space of the assigned classical bits.
pub open spec fn spec_results_len(m: Seq<Option<u8>>, qubit_count: u8) -> nat {
    if spec_map_is_empty(m) {
        pow2(qubit_count as nat)
    } else {
        pow2((spec_max_bit(m, m.len() as int) + 1) as nat)
    }
}

/// The classical outcome that basis state `s` projects onto: the state
/// itself when no qubit is measured, else its measured bits packed into
/// classical positions by the map's pairs.
pub open spec fn spec_outcome_of(ms: Seq<(i8, i8)>, qubit_count: i8, bit_count: i8, s: usize) -> int {
    if ms.len() == 0 {
        s as int
    } else {
        spec_bit_position(ms, ms.len() as int, qubit_count, bit_count, s) as int
    }
}

/// Samples the statevector `shots` times and histograms the outcomes,
/// projected through the measurement map.  The histogram's length is the
/// number of classical outcomes and its counts add up to `shots`; with
/// zero shots it is all zeros.
pub fn measure(
    statevector: Vec<Amp>,
    shots: u32,
    measurements: MeasurementMap,
    qubit_count: u8,
) -> (r: Vec<u32>)
    requires
        statevector@.len() == pow2(qubit_count as nat),
        qubit_count <= MAX_QUBIT_COUNT,
        map_wf(measurements.entries@, qubit_count),
    ensures
        r@.len() == spec_results_len(measurements.entries@, qubit_count),
        seq_sum(r@, r@.len() as int) == shots,
        forall|j: int| 0 <= j < r@.len() ==> (#[trigger] r@[j]) <= shots,
        forall|p: int|
            0 <= p < r@.len() && (#[trigger] r@[p]) > 0 ==> (exists|s: usize|
                s < pow2(qubit_count as nat) && (#[trigger] spec_outcome_of(
                    spec_pairs(measurements.entries@, measurements.entries@.len() as int),
                    qubit_count as i8,
                    (spec_max_bit(measurements.entries@, measurements.entries@.len() as int)
                        + 1) as i8,
                    s,
                )) == p),
{
    let len: usize = statevector.len();
    proof {
        lemma_pow2_pos(qubit_count as nat);
    }
    let bit_count: u8 = get_bit_count_from_measurements(&measurements);
    proof {
        lemma_max_bit_le(measurements.entries@, measurements.entries@.len() as int);
        lemma2_to64();
    }
    assert(bit_count <= qubit_count || spec_map_is_empty(measurements.entries@) || qubit_count == 0);
    let empty = measurements.is_empty();
    let results_len: usize = if empty {
        len
    } else {
        proof {
            lemma_usize_shl_is_mul(1usize, bit_count as usize);
            lemma_usize_pow2_no_overflow(bit_count as nat);
        }
        1usize << bit_count
    };
    proof {
        lemma_pow2_pos(bit_count as nat);
    }
    let mut measurement_results: Vec<u32> = Vec::new();
    let mut k: usize = 0;
    while k < results_len
        invariant
            0 <= k <= results_len,
            measurement_results@.len() == k,
            forall|j: int| 0 <= j < k ==> (#[trigger] measurement_results@[j]) == 0u32,
        decreases results_len - k,
    {
        measurement_results.push(0u32);
        k += 1;
    }
    proof {
        lemma_seq_sum_zero(measurement_results@, results_len as int);
    }
    if shots == 0 {
        return measurement_results;
    }
    let i8_count: i8 = qubit_count as i8;
    let i8_bit_count: i8 = bit_count as i8;
    let i8_measurements = convert_measurements_to_i8(&measurements);
    proof {
        lemma_pairs_bounds(measurements.entries@, measurements.entries@.len() as int, qubit_count);
        lemma_pairs_empty(measurements.entries@, measurements.entries@.len() as int);
    }
    let mut i: u32 = 0;
    while i < shots
        invariant
            statevector@.len() == pow2(qubit_count as nat) == len,
            len > 0,
            0 <= i <= shots,
            measurement_results@.len() == results_len,
            results_len == spec_results_len(measurements.entries@, qubit_count),
            seq_sum(measurement_results@, results_len as int) == i,
            qubit_count <= MAX_QUBIT_COUNT,
            i8_count == qubit_count as i8,
            i8_bit_count == bit_count as i8,
            0 < bit_count,
            (i8_measurements@.len() == 0) <==> spec_map_is_empty(measurements.entries@),
            spec_map_is_empty(measurements.entries@) ==> results_len == len,
            !spec_map_is_empty(measurements.entries@) ==> {
                &&& i8_measurements@.len() > 0
                &&& 0 < qubit_count
                &&& bit_count <= qubit_count
                &&& results_len == pow2(bit_count as nat)
            },
            forall|j: int| 0 <= j < i8_measurements@.len()
                ==> 0 <= (#[trigger] i8_measurements@[j]).0 < i8_count && 0
                    <= i8_measurements@[j].1 < i8_bit_count,
            i8_measurements@ == spec_pairs(
                measurements.entries@,
                measurements.entries@.len() as int,
            ),
            forall|p: int|
                0 <= p < measurement_results@.len() && (#[trigger] measurement_results@[p]) > 0
                    ==> (exists|s: usize|
                    s < pow2(qubit_count as nat) && (#[trigger] spec_outcome_of(
                        i8_measurements@,
                        i8_count,
                        i8_bit_count,
                        s,
                    )) == p),
        decreases shots - i,
    {
        let s = sample(&statevector, len);
        let bit_position: usize = if i8_measurements.len() == 0 {
            s
        } else {
            get_bit_position_from_measurements(&i8_measurements, i8_count, i8_bit_count, s)
        };
        assert(bit_position < results_len);
        let old_count = measurement_results[bit_position];
        proof {
            lemma_seq_sum_element(measurement_results@, results_len as int, bit_position as int);
        }
        let ghost before = measurement_results@;
        measurement_results[bit_position] = old_count + 1;
        proof {
            lemma_seq_sum_update(before, results_len as int, bit_position as int, (old_count + 1) as u32);
            assert(spec_outcome_of(i8_measurements@, i8_count, i8_bit_count, s)
                == bit_position as int);
        }
        i += 1;
    }
    proof {
        assert forall|j: int| 0 <= j < measurement_results@.len() implies (
        #[trigger] measurement_results@[j]) <= shots by {
            lemma_seq_sum_element(measurement_results@, results_len as int, j);
        }
    }
    measurement_results
}

/// A freshly filled histogram of zeros sums to zero.
proof fn lemma_seq_sum_zero(s: Seq<u32>, k: int)
    requires
        0 <= k <= s.len(),
        forall|j: int| 0 <= j < s.len() ==> (#[trigger] s[j]) == 0u32,
    ensures
        seq_sum(s, k) == 0,
    decreases k,
{
    if k > 0 {
        lemma_seq_sum_zero(s, k - 1);
    }
}

/// The pairs read from a well-formed map stay inside the register and
/// inside the classical range.
proof fn lemma_pairs_bounds(m: Seq<Option<u8>>, k: int, n: u8)
    requires
        map_wf(m, n),
        n <= MAX_QUBIT_COUNT,
        0 <= k <= m.len(),
    ensures
        forall|j: int| 0 <= j < spec_pairs(m, k).len()
            ==> 0 <= (#[trigger] spec_pairs(m, k)[j]).0 < n as i8 && 0 <= spec_pairs(m, k)[j].1
                <= spec_max_bit(m, m.len() as int) as i8,
    decreases k,
{
    if k > 0 {
        lemma_pairs_bounds(m, k - 1, n);
        lemma_max_bit_ge(m, m.len() as int, k - 1);
        lemma_max_bit_le(m, m.len() as int);
        let prev = spec_pairs(m, k - 1);
        let cur = spec_pairs(m, k);
        assert forall|j: int| 0 <= j < cur.len() implies 0 <= (#[trigger] cur[j]).0 < n as i8 && 0
            <= cur[j].1 <= spec_max_bit(m, m.len() as int) as i8 by {
            if j < prev.len() {
                assert(cur[j] == prev[j]);
            }
        }
    }
}

/// Each assigned bit is at most the maximum over the whole map.
proof fn lemma_max_bit_ge(m: Seq<Option<u8>>, k: int, j: int)
    requires
        0 <= j < k <= m.len(),
    ensures
        m[j] is Some ==> m[j]->0 <= spec_max_bit(m, k),
    decreases k,
{
    if j < k - 1 {
        lemma_max_bit_ge(m, k - 1, j);
        assert(spec_max_bit(m, k) >= spec_max_bit(m, k - 1));
    }
}

/// A map with no assigned bit yields no pairs, and one with an assigned
/// bit yields at least one pair.
proof fn lemma_pairs_empty(m: Seq<Option<u8>>, k: int)
    requires
        0 <= k <= m.len(),
    ensures
        spec_pairs(m, k).len() == 0 <==> (forall|j: int| 0 <= j < k ==> (#[trigger] m[j]) is None),
    decreases k,
{
    if k > 0 {
        lemma_pairs_empty(m, k - 1);
    }
}

/// The exact probability histogram: entry `p` accumulates, in statevector
/// order, the squared magnitude of every basis state that the measurement
/// map projects onto `p`.  Probabilities are f32 bit patterns.
pub open spec fn spec_probabilities_loop(
    sv: Seq<Amp>,
    ms: Seq<(i8, i8)>,
    probs: Seq<u32>,
    qubit_count: i8,
    bit_count: i8,
    k: int,
) -> Seq<u32>
    decreases k,
{
    if k <= 0 {
        probs
    } else {
        let prev = spec_probabilities_loop(sv, ms, probs, qubit_count, bit_count, k - 1);
        let pos = if ms.len() == 0 {
            (k - 1) as usize
        } else {
            spec_bit_position(ms, ms.len() as int, qubit_count, bit_count, (k - 1) as usize)
        };
        prev.update(pos as int, spec_fadd(prev[pos as int], spec_cnorm_sqr(sv[k - 1])))
    }
}

/// Computes the exact probability histogram for the statevector under the
/// measurement map: the deterministic counterpart of `measure`.
pub fn get_probabilities(
    statevector: Vec<Amp>,
    measurements: MeasurementMap,
    qubit_count: u8,
) -> (r: Vec<u32>)
    requires
        statevector@.len() == pow2(qubit_count as nat),
        qubit_count <= MAX_QUBIT_COUNT,
        map_wf(measurements.entries@, qubit_count),
    ensures
        r@.len() == spec_results_len(measurements.entries@, qubit_count),
        r@ == spec_probabilities_loop(
            statevector@,
            spec_pairs(measurements.entries@, measurements.entries@.len() as int),
            Seq::new(spec_results_len(measurements.entries@, qubit_count), |j: int| B_ZERO),
            qubit_count as i8,
            (spec_max_bit(measurements.entries@, measurements.entries@.len() as int) + 1) as i8,
            pow2(qubit_count as nat) as int,
        ),
{
    let len: usize = statevector.len();
    proof {
        lemma_pow2_pos(qubit_count as nat);
    }
    let bit_count: u8 = get_bit_count_from_measurements(&measurements);
    proof {
        lemma_max_bit_le(measurements.entries@, measurements.entries@.len() as int);
        lemma2_to64();
    }
    let empty = measurements.is_empty();
    let probabilities_len: usize = if empty {
        len
    } else {
        proof {
            lemma_usize_shl_is_mul(1usize, bit_count as usize);
            lemma_usize_pow2_no_overflow(bit_count as nat);
        }
        1usize << bit_count
    };
    proof {
        lemma_pow2_pos(bit_count as nat);
    }
    let mut probabilities: Vec<u32> = Vec::new();
    let mut k: usize = 0;
    while k < probabilities_len
        invariant
            0 <= k <= probabilities_len,
            probabilities@.len() == k,
            forall|j: int| 0 <= j < k ==> (#[trigger] probabilities@[j]) == B_ZERO,
        decreases probabilities_len - k,
    {
        probabilities.push(B_ZERO);
        k += 1;
    }
    assert(probabilities@ =~= Seq::new(
        spec_results_len(measurements.entries@, qubit_count),
        |j: int| B_ZERO,
    ));
    let i8_count: i8 = qubit_count as i8;
    let i8_bit_count: i8 = bit_count as i8;
    let i8_measurements = convert_measurements_to_i8(&measurements);
    proof {
        lemma_pairs_bounds(measurements.entries@, measurements.entries@.len() as int, qubit_count);
        lemma_pairs_empty(measurements.entries@, measurements.entries@.len() as int);
    }
    let ghost initial = probabilities@;
    let ghost ms = i8_measurements@;
    let mut i: usize = 0;
    while i < len
        invariant
            statevector@.len() == pow2(qubit_count as nat) == len,
            0 <= i <= len,
            ms == i8_measurements@,
            probabilities@.len() == probabilities_len,
            probabilities_len == spec_results_len(measurements.entries@, qubit_count),
            probabilities@ == spec_probabilities_loop(
                statevector@,
                ms,
                initial,
                i8_count,
                i8_bit_count,
                i as int,
            ),
            qubit_count <= MAX_QUBIT_COUNT,
            i8_count == qubit_count as i8,
            i8_bit_count == bit_count as i8,
            0 < bit_count,
            (ms.len() == 0) <==> spec_map_is_empty(measurements.entries@),
            spec_map_is_empty(measurements.entries@) ==> probabilities_len == len,
            !spec_map_is_empty(measurements.entries@) ==> {
                &&& ms.len() > 0
                &&& 0 < qubit_count
                &&& bit_count <= qubit_count
                &&& probabilities_len == pow2(bit_count as nat)
            },
            forall|j: int| 0 <= j < ms.len()
                ==> 0 <= (#[trigger] ms[j]).0 < i8_count && 0 <= ms[j].1 < i8_bit_count,
        decreases len - i,
    {
        let bit_position: usize = if i8_measurements.len() == 0 {
            i
        } else {
            get_bit_position_from_measurements(&i8_measurements, i8_count, i8_bit_count, i)
        };
        assert(bit_position < probabilities_len);
        let old_p = probabilities[bit_position];
        probabilities[bit_position] = fadd(old_p, cnorm_sqr(statevector[i]));
        i += 1;
    }
    proof {
        assert(spec_pairs(measurements.entries@, measurements.entries@.len() as int) == ms);
        assert((spec_max_bit(measurements.entries@, measurements.entries@.len() as int) + 1) as i8
            == i8_bit_count);
    }
    probabilities
}

} // verus!
