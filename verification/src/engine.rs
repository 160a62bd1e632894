//! The statevector evolution engine.
//!
//! The driver walks a circuit's steps in index order and applies each gate
//! to the statevector in place, performing every structural check on the
//! way: qubit reuse inside a step, use of a measured qubit, arity, unknown
//! names or control states, classical-bit range.  Composite gates
//! ("aggregate", "qft", "qft-dagger" and nested "circuit" gates with their
//! powers and adjoints) expand into sequences of primitive applications.
//! The two update kernels carry exact contracts.  Every structural check
//! is mirrored by `spec_gate_precheck`, so the driver's contract forces
//! exactly the right error on a bad gate and promises success on a good
//! one.  The effect of every non-recursive gate — primitive, measurement,
//! aggregate, and Fourier transform — is stated end to end: basis
//! rotations, the applied operator under its accumulated controls, and
//! the rotations' undoing; the operator itself is pinned for constant
//! families and bound existentially where its entries come out of the
//! platform-dependent trigonometric calls.  Only the expansion of nested
//! "circuit" gates is specified structurally rather than as one closed
//! function of the input.

use vstd::prelude::*;

verus! {

use vstd::arithmetic::power2::{pow2, lemma_pow2_adds, lemma_pow2_pos, lemma2_to64, lemma_pow2_strictly_increases};
use vstd::bits::{lemma_usize_shl_is_mul, lemma_usize_pow2_no_overflow};
use crate::MAX_QUBIT_COUNT;
use crate::SimError;
use crate::addressing::{get_indexes, spec_get_indexes, insert_zero_bit, reversed_position};
use crate::circuit::{Gate, Control, Step, CircuitState, sorted_step_order};
use crate::complex::{Amp, spec_cmul, spec_cadd, cmul, cadd, B_ZERO, B_ONE, str_eq, f32_of_u64, fpowf, B_TWO};
use crate::gate_mapper::{
    resolve_single_operator,
    get_qubit_rotation_operator,
    get_qubit_undo_rotation_operator,
    resolve_double_operator,
};
use crate::gates::{
    Op1,
    Op2,
    hadamard,
    pauli_z_root,
    pauli_z_root_dagger,
    swap,
    spec_hadamard,
    spec_swap,
    spec_x_basis_to_standard_basis_rotation,
    spec_y_basis_to_standard_basis_rotation,
    spec_standard_basis_to_x_basis_rotation,
    spec_standard_basis_to_y_basis_rotation,
};
use crate::gate_mapper::{
    spec_single_operator_err,
    spec_single_operator_fixed,
    spec_double_operator_err,
    spec_double_operator_fixed,
    opt_string_view,
};
use crate::measurement::{MeasurementMap, map_wf, spec_map_is_empty};

/// The state of a control qubit that activates its operation.
#[derive(Clone, Copy, PartialEq, Eq, Structural, Debug)]
pub enum ControlKind {
    /// Computational zero.
    Zero,
    /// Computational one.
    One,
    /// X-basis plus.
    Plus,
    /// X-basis minus.
    Minus,
    /// Y-basis plus-i.
    PlusI,
    /// Y-basis minus-i.
    MinusI,
}

/// A resolved control: a qubit index and the state that activates it.
#[derive(Clone, Copy, PartialEq, Eq, Structural, Debug)]
pub struct RControl {
    pub target: u8,
    pub kind: ControlKind,
}

/// Whether a control state selects the branch where the control qubit
/// reads as logical one after its basis rotation.
pub open spec fn spec_control_bit(kind: ControlKind) -> bool {
    kind == ControlKind::One || kind == ControlKind::Minus || kind == ControlKind::MinusI
}

/// The branch a control state selects.
pub fn control_bit(kind: ControlKind) -> (r: bool)
    ensures
        r == spec_control_bit(kind),
{
    match kind {
        ControlKind::One | ControlKind::Minus | ControlKind::MinusI => true,
        _ => false,
    }
}

/// Controls listed in strictly ascending qubit order.
pub open spec fn rcontrols_sorted(cs: Seq<RControl>) -> bool {
    forall|a: int, b: int|
        0 <= a < b < cs.len() ==> (#[trigger] cs[a]).target < (#[trigger] cs[b]).target
}

/// Control qubits inside a register of `n` qubits.
pub open spec fn rcontrols_in_range(cs: Seq<RControl>, n: u8) -> bool {
    forall|k: int| 0 <= k < cs.len() ==> (#[trigger] cs[k]).target < n
}

/// No control sits on qubit `t`.
pub open spec fn rcontrols_avoid(cs: Seq<RControl>, t: u8) -> bool {
    forall|k: int| 0 <= k < cs.len() ==> (#[trigger] cs[k]).target != t
}

/// Well-formed controls for a single-target operation: strictly ascending
/// qubit order, inside the register, and away from the target.
pub open spec fn controls_wf1(cs: Seq<RControl>, target: u8, n: u8) -> bool {
    &&& rcontrols_in_range(cs, n)
    &&& rcontrols_avoid(cs, target)
    &&& rcontrols_sorted(cs)
    &&& cs.len() < n
}

/// Well-formed controls for a two-target operation.
pub open spec fn controls_wf2(cs: Seq<RControl>, t1: u8, t2: u8, n: u8) -> bool {
    &&& rcontrols_in_range(cs, n)
    &&& rcontrols_avoid(cs, t1)
    &&& rcontrols_avoid(cs, t2)
    &&& rcontrols_sorted(cs)
    &&& cs.len() + 1 < n
}

/// The position a control occupies in the index space that remains after
/// the target bit of a single-target operation is removed.
pub open spec fn spec_control_position1(c: u8, target: u8) -> u8 {
    if c < target {
        c
    } else {
        (c - 1) as u8
    }
}

/// The position a control occupies after the two target bits are removed.
pub open spec fn spec_control_position2(c: u8, t1: u8, t2: u8) -> u8 {
    if c < t1 && c < t2 {
        c
    } else if (c < t1 && c > t2) || (c > t1 && c < t2) {
        (c - 1) as u8
    } else {
        (c - 2) as u8
    }
}

/// The compact index narrowed through the first `k` controls of a
/// single-target operation: each control inserts its selected bit.
pub open spec fn spec_narrow1(i: nat, cs: Seq<RControl>, k: int, target: u8, n: u8) -> nat
    decreases k,
{
    if k <= 0 {
        i
    } else {
        let prev = spec_narrow1(i, cs, k - 1, target, n);
        let c = cs[k - 1];
        let pos = spec_control_position1(c.target, target);
        let n_size = (n - cs.len() + (k - 1)) as u8;
        let pair = spec_get_indexes(prev, pos, n_size);
        if spec_control_bit(c.kind) {
            pair.1
        } else {
            pair.0
        }
    }
}

/// The compact index narrowed through the first `k` controls of a
/// two-target operation.
pub open spec fn spec_narrow2(i: nat, cs: Seq<RControl>, k: int, t1: u8, t2: u8, n: u8) -> nat
    decreases k,
{
    if k <= 0 {
        i
    } else {
        let prev = spec_narrow2(i, cs, k - 1, t1, t2, n);
        let c = cs[k - 1];
        let pos = spec_control_position2(c.target, t1, t2);
        let n_size = (n - 1 - cs.len() + (k - 1)) as u8;
        let pair = spec_get_indexes(prev, pos, n_size);
        if spec_control_bit(c.kind) {
            pair.1
        } else {
            pair.0
        }
    }
}

/// One 2x2 update: the amplitudes at the coupled pair are replaced by the
/// rows of the operator applied to them.
pub open spec fn spec_apply1_at(sv: Seq<Amp>, op: Op1, i0: int, i1: int) -> Seq<Amp> {
    let s0 = sv[i0];
    let s1 = sv[i1];
    sv.update(i0, spec_cadd(spec_cmul(op.m00, s0), spec_cmul(op.m01, s1))).update(
        i1,
        spec_cadd(spec_cmul(op.m10, s0), spec_cmul(op.m11, s1)),
    )
}

/// The statevector after the single-target kernel has processed the first
/// `k` compact indices.
pub open spec fn spec_apply_operator_loop(
    sv: Seq<Amp>,
    op: Op1,
    target: u8,
    cs: Seq<RControl>,
    n: u8,
    k: int,
) -> Seq<Amp>
    decreases k,
{
    if k <= 0 {
        sv
    } else {
        let prev = spec_apply_operator_loop(sv, op, target, cs, n, k - 1);
        let affected = spec_narrow1((k - 1) as nat, cs, cs.len() as int, target, n);
        let pair = spec_get_indexes(affected, target, n);
        spec_apply1_at(prev, op, pair.0 as int, pair.1 as int)
    }
}

/// The statevector after a single-target operator, with controls, has
/// acted on every compact index.
pub open spec fn spec_apply_operator(
    sv: Seq<Amp>,
    op: Op1,
    target: u8,
    cs: Seq<RControl>,
    n: u8,
) -> Seq<Amp> {
    spec_apply_operator_loop(sv, op, target, cs, n, pow2((n - 1 - cs.len()) as nat) as int)
}

/// One 4x4 update on the coupled quadruple.
pub open spec fn spec_apply2_at(sv: Seq<Amp>, op: Op2, i00: int, i01: int, i10: int, i11: int) -> Seq<
    Amp,
> {
    let s00 = sv[i00];
    let s01 = sv[i01];
    let s10 = sv[i10];
    let s11 = sv[i11];
    sv.update(
        i00,
        spec_cadd(
            spec_cadd(spec_cadd(spec_cmul(op.m00, s00), spec_cmul(op.m01, s01)), spec_cmul(op.m02, s10)),
            spec_cmul(op.m03, s11),
        ),
    ).update(
        i01,
        spec_cadd(
            spec_cadd(spec_cadd(spec_cmul(op.m10, s00), spec_cmul(op.m11, s01)), spec_cmul(op.m12, s10)),
            spec_cmul(op.m13, s11),
        ),
    ).update(
        i10,
        spec_cadd(
            spec_cadd(spec_cadd(spec_cmul(op.m20, s00), spec_cmul(op.m21, s01)), spec_cmul(op.m22, s10)),
            spec_cmul(op.m23, s11),
        ),
    ).update(
        i11,
        spec_cadd(
            spec_cadd(spec_cadd(spec_cmul(op.m30, s00), spec_cmul(op.m31, s01)), spec_cmul(op.m32, s10)),
            spec_cmul(op.m33, s11),
        ),
    )
}

/// The coupled quadruple of full indices for compact index `i`: the
/// narrowed index is split at the higher target, then each half at the
/// lower one.
pub open spec fn spec_quad(i: nat, cs: Seq<RControl>, t1: u8, t2: u8, n: u8) -> (nat, nat, nat, nat) {
    let affected = spec_narrow2(i, cs, cs.len() as int, t1, t2, n);
    let first = if t1 > t2 { t1 } else { t2 };
    let last = if t1 > t2 { t2 } else { t1 };
    let pair = spec_get_indexes(affected, first, n);
    let pair0 = spec_get_indexes(pair.0, last, n);
    let pair1 = spec_get_indexes(pair.1, last, n);
    (pair0.0, pair0.1, pair1.0, pair1.1)
}

/// The statevector after the two-target kernel has processed the first
/// `k` compact indices.
pub open spec fn spec_apply_double_loop(
    sv: Seq<Amp>,
    op: Op2,
    t1: u8,
    t2: u8,
    cs: Seq<RControl>,
    n: u8,
    k: int,
) -> Seq<Amp>
    decreases k,
{
    if k <= 0 {
        sv
    } else {
        let prev = spec_apply_double_loop(sv, op, t1, t2, cs, n, k - 1);
        let q = spec_quad((k - 1) as nat, cs, t1, t2, n);
        spec_apply2_at(prev, op, q.0 as int, q.1 as int, q.2 as int, q.3 as int)
    }
}

/// The statevector after a two-target operator, with controls, has acted
/// on every compact index.
pub open spec fn spec_apply_double_operator(
    sv: Seq<Amp>,
    op: Op2,
    t1: u8,
    t2: u8,
    cs: Seq<RControl>,
    n: u8,
) -> Seq<Amp> {
    spec_apply_double_loop(sv, op, t1, t2, cs, n, pow2((n - 2 - cs.len()) as nat) as int)
}

/// In a strictly ascending control list that avoids `target`, the `k`-th
/// control leaves room for those above it: its reduced position fits the
/// index space the narrowing loop uses.
#[verifier::rlimit(50)]
proof fn lemma_control_position1_bound(cs: Seq<RControl>, k: int, target: u8, n: u8)
    requires
        controls_wf1(cs, target, n),
        target < n,
        0 <= k < cs.len(),
    ensures
        spec_control_position1(cs[k].target, target) < n - cs.len() + k,
    decreases cs.len() - k,
{
    let c = cs[k].target;
    if k == cs.len() - 1 {
        if c < target {
            assert(target < n);
        }
    } else {
        lemma_control_position1_bound(cs, k + 1, target, n);
        let c2 = cs[k + 1].target;
        assert(c < c2);
        if c < target {
            if c2 < target {
            } else {
                assert(c2 > target);
                assert(c + 1 < c2);
            }
        }
    }
}

/// The same bound for two targets.
#[verifier::rlimit(50)]
proof fn lemma_control_position2_bound(cs: Seq<RControl>, k: int, t1: u8, t2: u8, n: u8)
    requires
        controls_wf2(cs, t1, t2, n),
        t1 != t2,
        t1 < n,
        t2 < n,
        0 <= k < cs.len(),
    ensures
        spec_control_position2(cs[k].target, t1, t2) < n - 1 - cs.len() + k,
    decreases cs.len() - k,
{
    let c = cs[k].target;
    let below = (if t1 < c { 1int } else { 0 }) + (if t2 < c { 1int } else { 0 });
    if k == cs.len() - 1 {
        // c, together with the targets above it, forms a strict chain below n.
        if below == 0 {
            assert(c < t1 || c < t2);
            if t1 < t2 {
                assert(c < t1 && c < t2);
            } else {
                assert(c < t2 && c < t1);
            }
            assert(c + 2 <= n);
            // position c must satisfy c < n - 1; from c < t1 < n or deeper chain
            let lo = if t1 < t2 { t1 } else { t2 };
            let hi = if t1 < t2 { t2 } else { t1 };
            assert(c < lo < hi < n);
        } else if below == 1 {
            let hi = if t1 > c { t1 } else { t2 };
            assert(c < hi < n);
        }
    } else {
        lemma_control_position2_bound(cs, k + 1, t1, t2, n);
        let c2 = cs[k + 1].target;
        let below2 = (if t1 < c2 { 1int } else { 0 }) + (if t2 < c2 { 1int } else { 0 });
        assert(below <= below2);
        if below == below2 {
        } else if below + 1 == below2 {
            // exactly one target sits between c and c2
            assert(c + 1 < c2 || (c + 1 == c2 && false)) by {
                if c + 1 == c2 {
                    assert((t1 > c && t1 < c2) || (t2 > c && t2 < c2));
                }
            }
        } else {
            // both targets sit strictly between c and c2
            assert(c + 2 < c2) by {
                let lo = if t1 < t2 { t1 } else { t2 };
                let hi = if t1 < t2 { t2 } else { t1 };
                assert(c < lo && lo < hi && hi < c2);
            }
        }
    }
}

/// Narrowing through `k` controls keeps the compact index below the
/// corresponding power of two (single-target case).
#[verifier::rlimit(80)]
proof fn lemma_narrow1_bound(i: nat, cs: Seq<RControl>, k: int, target: u8, n: u8)
    requires
        controls_wf1(cs, target, n),
        target < n,
        n <= MAX_QUBIT_COUNT,
        0 <= k <= cs.len(),
        i < pow2((n - 1 - cs.len()) as nat),
    ensures
        spec_narrow1(i, cs, k, target, n) < pow2((n - 1 - cs.len() + k) as nat),
    decreases k,
{
    if k == 0 {
    } else {
        lemma_narrow1_bound(i, cs, k - 1, target, n);
        let prev = spec_narrow1(i, cs, k - 1, target, n);
        let c = cs[k - 1];
        let pos = spec_control_position1(c.target, target);
        let n_size = (n - cs.len() + (k - 1)) as u8;
        lemma_control_position1_bound(cs, k - 1, target, n);
        lemma_get_indexes_bounds(prev, pos, n_size);
    }
}

/// The same for the two-target narrowing.
#[verifier::rlimit(80)]
proof fn lemma_narrow2_bound(i: nat, cs: Seq<RControl>, k: int, t1: u8, t2: u8, n: u8)
    requires
        controls_wf2(cs, t1, t2, n),
        t1 != t2,
        t1 < n,
        t2 < n,
        n <= MAX_QUBIT_COUNT,
        0 <= k <= cs.len(),
        i < pow2((n - 2 - cs.len()) as nat),
    ensures
        spec_narrow2(i, cs, k, t1, t2, n) < pow2((n - 2 - cs.len() + k) as nat),
    decreases k,
{
    if k == 0 {
    } else {
        lemma_narrow2_bound(i, cs, k - 1, t1, t2, n);
        let prev = spec_narrow2(i, cs, k - 1, t1, t2, n);
        let c = cs[k - 1];
        let pos = spec_control_position2(c.target, t1, t2);
        let n_size = (n - 1 - cs.len() + (k - 1)) as u8;
        lemma_control_position2_bound(cs, k - 1, t1, t2, n);
        lemma_get_indexes_bounds(prev, pos, n_size);
    }
}

/// The pair produced by one insertion step stays below the next power of
/// two: inserting a bit into an index below `pow2(m - 1)` gives indices
/// below `pow2(m)`.
proof fn lemma_get_indexes_bounds(i: nat, gate_position: u8, m: u8)
    requires
        gate_position < m,
        m <= MAX_QUBIT_COUNT,
        i < pow2((m - 1) as nat),
    ensures
        spec_get_indexes(i, gate_position, m).0 < pow2(m as nat),
        spec_get_indexes(i, gate_position, m).1 < pow2(m as nat),
        spec_get_indexes(i, gate_position, m).0 < spec_get_indexes(i, gate_position, m).1,
    decreases m,
{
    let p = reversed_position(gate_position, m);
    lemma_insert_zero_bit_bound(i, p, (m - 1) as nat);
    lemma_pow2_pos(p);
}

/// Inserting a zero bit at position `p` into an index below `pow2(m)`
/// leaves room for the set bit as well: both variants stay below
/// `pow2(m + 1)`.
pub proof fn lemma_insert_zero_bit_bound(i: nat, p: nat, m: nat)
    requires
        p <= m,
        i < pow2(m),
    ensures
        insert_zero_bit(i, p) + pow2(p) < pow2(m + 1),
{
    let d = i / pow2(p);
    let r = i % pow2(p);
    lemma_pow2_pos(p);
    lemma_pow2_adds((m - p) as nat, p);
    lemma_pow2_adds((m - p) as nat, p + 1);
    lemma_pow2_adds(p, 1);
    lemma2_to64();
    vstd::arithmetic::div_mod::lemma_fundamental_div_mod(i as int, pow2(p) as int);
    vstd::arithmetic::div_mod::lemma_mod_bound(i as int, pow2(p) as int);
    assert(d < pow2((m - p) as nat)) by (nonlinear_arith)
        requires
            i < pow2(m),
            pow2(m) == pow2((m - p) as nat) * pow2(p),
            pow2(p) > 0,
            i == d * pow2(p) + r,
            0 <= r < pow2(p),
    {}
    assert(d * pow2(p + 1) + r + pow2(p) < pow2(m + 1)) by (nonlinear_arith)
        requires
            d < pow2((m - p) as nat),
            0 <= r < pow2(p),
            pow2(p + 1) == 2 * pow2(p),
            pow2(p) > 0,
            pow2((m - p) as nat) * pow2(p + 1) == pow2(m + 1),
    {
        assert(d * pow2(p + 1) + r + pow2(p) < (d + 1) * pow2(p + 1));
        assert((d + 1) * pow2(p + 1) <= pow2((m - p) as nat) * pow2(p + 1));
    }
}

/// Applies a single-qubit operator, under the given controls, to the
/// statevector in place.
#[verifier::rlimit(100)]
pub fn apply_operator(
    operator: Op1,
    statevector: &mut Vec<Amp>,
    target: u8,
    controls: &Vec<RControl>,
    qubit_count: u8,
)
    requires
        old(statevector)@.len() == pow2(qubit_count as nat),
        qubit_count <= MAX_QUBIT_COUNT,
        target < qubit_count,
        controls_wf1(controls@, target, qubit_count),
    ensures
        final(statevector)@ == spec_apply_operator(old(statevector)@, operator, target, controls@, qubit_count),
{
    let controls_count: u8 = controls.len() as u8;
    let ghost cs = controls@;
    let shift: u8 = qubit_count - controls_count - 1;
    proof {
        lemma2_to64();
        lemma_usize_pow2_no_overflow(shift as nat);
        lemma_usize_shl_is_mul(1usize, shift as usize);
        lemma_pow2_strictly_increases(shift as nat, 64);
    }
    let n: usize = 1usize << shift;
    assert(n == pow2(shift as nat));
    let mut i: usize = 0;
    while i < n
        invariant
            n == pow2((qubit_count - 1 - cs.len()) as nat),
            0 <= i <= n,
            cs == controls@,
            controls@.len() == controls_count,
            controls_wf1(cs, target, qubit_count),
            target < qubit_count,
            qubit_count <= MAX_QUBIT_COUNT,
            statevector@.len() == pow2(qubit_count as nat),
            statevector@ == spec_apply_operator_loop(
                old(statevector)@,
                operator,
                target,
                cs,
                qubit_count,
                i as int,
            ),
        decreases n - i,
    {
        let mut n_size: u8 = qubit_count - controls_count;
        let mut affected: usize = i;
        let mut k: usize = 0;
        proof {
            lemma_narrow1_bound(i as nat, cs, 0, target, qubit_count);
        }
        while k < controls.len()
            invariant
                cs == controls@,
                controls@.len() == controls_count,
                controls_wf1(cs, target, qubit_count),
                target < qubit_count,
                qubit_count <= MAX_QUBIT_COUNT,
                0 <= k <= cs.len(),
                i < pow2((qubit_count - 1 - cs.len()) as nat),
                n_size == qubit_count - controls_count + k,
                affected == spec_narrow1(i as nat, cs, k as int, target, qubit_count),
                affected < pow2((qubit_count - 1 - cs.len() + k) as nat),
            decreases cs.len() - k,
        {
            let c = controls[k];
            let control_position: u8 = if c.target < target {
                c.target
            } else {
                c.target - 1
            };
            proof {
                lemma_control_position1_bound(cs, k as int, target, qubit_count);
            }
            let (affected0, affected1) = get_indexes(affected, control_position, n_size);
            affected = if control_bit(c.kind) {
                affected1
            } else {
                affected0
            };
            proof {
                lemma_narrow1_bound(i as nat, cs, (k + 1) as int, target, qubit_count);
            }
            n_size += 1;
            k += 1;
        }
        let (index0, index1) = get_indexes(affected, target, qubit_count);
        let sv0 = statevector[index0];
        let sv1 = statevector[index1];
        let m00 = operator.m00;
        let m01 = operator.m01;
        let m10 = operator.m10;
        let m11 = operator.m11;
        statevector[index0] = cadd(cmul(m00, sv0), cmul(m01, sv1));
        statevector[index1] = cadd(cmul(m10, sv0), cmul(m11, sv1));
        i += 1;
    }
}

/// Applies a two-qubit operator, under the given controls, to the
/// statevector in place.
#[verifier::rlimit(100)]
pub fn apply_double_target_operator(
    operator: Op2,
    statevector: &mut Vec<Amp>,
    target1: u8,
    target2: u8,
    controls: &Vec<RControl>,
    qubit_count: u8,
)
    requires
        old(statevector)@.len() == pow2(qubit_count as nat),
        qubit_count <= MAX_QUBIT_COUNT,
        target1 < qubit_count,
        target2 < qubit_count,
        target1 != target2,
        controls_wf2(controls@, target1, target2, qubit_count),
    ensures
        final(statevector)@ == spec_apply_double_operator(
            old(statevector)@,
            operator,
            target1,
            target2,
            controls@,
            qubit_count,
        ),
{
    let controls_count: u8 = controls.len() as u8;
    let ghost cs = controls@;
    let shift: u8 = qubit_count - controls_count - 2;
    proof {
        lemma2_to64();
        lemma_usize_pow2_no_overflow(shift as nat);
        lemma_usize_shl_is_mul(1usize, shift as usize);
        lemma_pow2_strictly_increases(shift as nat, 64);
    }
    let n: usize = 1usize << shift;
    assert(n == pow2(shift as nat));
    let first: u8 = if target1 > target2 {
        target1
    } else {
        target2
    };
    let last: u8 = if target1 > target2 {
        target2
    } else {
        target1
    };
    let mut i: usize = 0;
    while i < n
        invariant
            n == pow2((qubit_count - 2 - cs.len()) as nat),
            0 <= i <= n,
            cs == controls@,
            controls@.len() == controls_count,
            controls_wf2(cs, target1, target2, qubit_count),
            target1 < qubit_count,
            target2 < qubit_count,
            target1 != target2,
            first == (if target1 > target2 { target1 } else { target2 }),
            last == (if target1 > target2 { target2 } else { target1 }),
            qubit_count <= MAX_QUBIT_COUNT,
            statevector@.len() == pow2(qubit_count as nat),
            statevector@ == spec_apply_double_loop(
                old(statevector)@,
                operator,
                target1,
                target2,
                cs,
                qubit_count,
                i as int,
            ),
        decreases n - i,
    {
        let mut n_size: u8 = qubit_count - controls_count - 1;
        let mut affected: usize = i;
        let mut k: usize = 0;
        proof {
            lemma_narrow2_bound(i as nat, cs, 0, target1, target2, qubit_count);
        }
        while k < controls.len()
            invariant
                cs == controls@,
                controls@.len() == controls_count,
                controls_wf2(cs, target1, target2, qubit_count),
                target1 < qubit_count,
                target2 < qubit_count,
                target1 != target2,
                qubit_count <= MAX_QUBIT_COUNT,
                0 <= k <= cs.len(),
                i < pow2((qubit_count - 2 - cs.len()) as nat),
                n_size == qubit_count - 1 - controls_count + k,
                affected == spec_narrow2(i as nat, cs, k as int, target1, target2, qubit_count),
                affected < pow2((qubit_count - 2 - cs.len() + k) as nat),
            decreases cs.len() - k,
        {
            let c = controls[k];
            let control_position: u8 = if c.target < target1 && c.target < target2 {
                c.target
            } else if (c.target < target1 && c.target > target2) || (c.target > target1 && c.target
                < target2) {
                c.target - 1
            } else {
                c.target - 2
            };
            proof {
                lemma_control_position2_bound(cs, k as int, target1, target2, qubit_count);
            }
            let (affected0, affected1) = get_indexes(affected, control_position, n_size);
            affected = if control_bit(c.kind) {
                affected1
            } else {
                affected0
            };
            proof {
                lemma_narrow2_bound(i as nat, cs, (k + 1) as int, target1, target2, qubit_count);
            }
            n_size += 1;
            k += 1;
        }
        proof {
            lemma_pow2_strictly_increases((qubit_count - 2) as nat, (qubit_count - 1) as nat);
        }
        let (index0, index1) = get_indexes(affected, first, qubit_count);
        proof {
            lemma_insert_zero_bit_bound(
                spec_narrow2(i as nat, cs, cs.len() as int, target1, target2, qubit_count),
                reversed_position(first, qubit_count),
                (qubit_count - 2) as nat,
            );
        }
        let (index00, index01) = get_indexes(index0, last, qubit_count);
        let (index10, index11) = get_indexes(index1, last, qubit_count);
        let sv00 = statevector[index00];
        let sv01 = statevector[index01];
        let sv10 = statevector[index10];
        let sv11 = statevector[index11];
        statevector[index00] = cadd(
            cadd(cadd(cmul(operator.m00, sv00), cmul(operator.m01, sv01)), cmul(operator.m02, sv10)),
            cmul(operator.m03, sv11),
        );
        statevector[index01] = cadd(
            cadd(cadd(cmul(operator.m10, sv00), cmul(operator.m11, sv01)), cmul(operator.m12, sv10)),
            cmul(operator.m13, sv11),
        );
        statevector[index10] = cadd(
            cadd(cadd(cmul(operator.m20, sv00), cmul(operator.m21, sv01)), cmul(operator.m22, sv10)),
            cmul(operator.m23, sv11),
        );
        statevector[index11] = cadd(
            cadd(cadd(cmul(operator.m30, sv00), cmul(operator.m31, sv01)), cmul(operator.m32, sv10)),
            cmul(operator.m33, sv11),
        );
        i += 1;
    }
}


/// A strictly ascending list of values below `n`: element `k` is at least
/// `k`.
proof fn lemma_chain_lower(s: Seq<u8>, k: int)
    requires
        forall|a: int, b: int| 0 <= a < b < s.len() ==> (#[trigger] s[a]) < (#[trigger] s[b]),
        0 <= k < s.len(),
    ensures
        s[k] >= k,
    decreases k,
{
    if k > 0 {
        lemma_chain_lower(s, k - 1);
    }
}

/// In the same list, element `k` leaves room for those above it.
proof fn lemma_chain_upper(s: Seq<u8>, k: int, n: u8)
    requires
        forall|a: int, b: int| 0 <= a < b < s.len() ==> (#[trigger] s[a]) < (#[trigger] s[b]),
        forall|j: int| 0 <= j < s.len() ==> (#[trigger] s[j]) < n,
        0 <= k < s.len(),
    ensures
        s[k] <= n - s.len() + k,
    decreases s.len() - k,
{
    if k < s.len() - 1 {
        lemma_chain_upper(s, k + 1, n);
    }
}

/// A strictly ascending list of values below `n` that all avoid one value
/// below `n` has fewer than `n` elements.
proof fn lemma_excluded_one(s: Seq<u8>, t: u8, n: u8)
    requires
        forall|a: int, b: int| 0 <= a < b < s.len() ==> (#[trigger] s[a]) < (#[trigger] s[b]),
        forall|j: int| 0 <= j < s.len() ==> (#[trigger] s[j]) < n,
        forall|j: int| 0 <= j < s.len() ==> (#[trigger] s[j]) != t,
        t < n,
    ensures
        s.len() < n,
{
    if s.len() >= n {
        lemma_chain_lower(s, s.len() - 1);
        assert(s.len() <= n);
        lemma_chain_lower(s, t as int);
        lemma_chain_upper(s, t as int, n);
        assert(s[t as int] == t);
    }
}

/// With two distinct avoided values the list is shorter still: taking the
/// second avoided value's slot out of the range compresses the list into
/// a register one smaller, where the first avoided value still is absent.
proof fn lemma_excluded_two(s: Seq<u8>, t1: u8, t2: u8, n: u8)
    requires
        forall|a: int, b: int| 0 <= a < b < s.len() ==> (#[trigger] s[a]) < (#[trigger] s[b]),
        forall|j: int| 0 <= j < s.len() ==> (#[trigger] s[j]) < n,
        forall|j: int| 0 <= j < s.len() ==> (#[trigger] s[j]) != t1,
        forall|j: int| 0 <= j < s.len() ==> (#[trigger] s[j]) != t2,
        t1 != t2,
        t1 < n,
        t2 < n,
    ensures
        s.len() + 1 < n,
{
    let c = Seq::new(s.len(), |k: int| if s[k] > t2 { (s[k] - 1) as u8 } else { s[k] });
    let t1c: u8 = if t1 > t2 { (t1 - 1) as u8 } else { t1 };
    assert forall|a: int, b: int| 0 <= a < b < c.len() implies (#[trigger] c[a]) < (#[trigger] c[b]) by {
        assert(s[a] < s[b]);
    }
    assert forall|j: int| 0 <= j < c.len() implies (#[trigger] c[j]) < (n - 1) as u8 by {
        assert(s[j] != t2);
    }
    assert forall|j: int| 0 <= j < c.len() implies (#[trigger] c[j]) != t1c by {
        assert(s[j] != t1 && s[j] != t2);
    }
    lemma_excluded_one(c, t1c, (n - 1) as u8);
}

/// The targets of a control list, for the chain lemmas.
pub open spec fn targets_of(cs: Seq<RControl>) -> Seq<u8> {
    Seq::new(cs.len(), |k: int| cs[k].target)
}

/// Sorted controls below `n` that avoid a target qubit leave room for it.
proof fn lemma_controls_len1(cs: Seq<RControl>, target: u8, n: u8)
    requires
        rcontrols_sorted(cs),
        rcontrols_in_range(cs, n),
        rcontrols_avoid(cs, target),
        target < n,
    ensures
        cs.len() < n,
        controls_wf1(cs, target, n),
{
    lemma_excluded_one(targets_of(cs), target, n);
}

/// Sorted controls below `n` that avoid two target qubits leave room for
/// both.
proof fn lemma_controls_len2(cs: Seq<RControl>, t1: u8, t2: u8, n: u8)
    requires
        rcontrols_sorted(cs),
        rcontrols_in_range(cs, n),
        rcontrols_avoid(cs, t1),
        rcontrols_avoid(cs, t2),
        t1 != t2,
        t1 < n,
        t2 < n,
    ensures
        cs.len() + 1 < n,
        controls_wf2(cs, t1, t2, n),
{
    lemma_excluded_two(targets_of(cs), t1, t2, n);
}

/// Copies a control list.
fn copy_controls(cs: &Vec<RControl>) -> (r: Vec<RControl>)
    ensures
        r@ == cs@,
{
    let mut r: Vec<RControl> = Vec::new();
    let mut k: usize = 0;
    while k < cs.len()
        invariant
            0 <= k <= cs@.len(),
            r@ == cs@.take(k as int),
        decreases cs@.len() - k,
    {
        r.push(cs[k]);
        k += 1;
    }
    proof {
        assert(cs@.take(cs@.len() as int) =~= cs@);
    }
    r
}

/// Whether some control sits on qubit `t`.
fn contains_target(cs: &Vec<RControl>, t: u8) -> (r: bool)
    ensures
        r == !rcontrols_avoid(cs@, t),
{
    let mut k: usize = 0;
    while k < cs.len()
        invariant
            0 <= k <= cs@.len(),
            forall|j: int| 0 <= j < k ==> (#[trigger] cs@[j]).target != t,
        decreases cs@.len() - k,
    {
        if cs[k].target == t {
            return true;
        }
        k += 1;
    }
    false
}

/// Inserts a control after every control on a lower qubit: the insertion
/// step that keeps an accumulated control list sorted.
pub open spec fn spec_insert_control(sorted: Seq<RControl>, c: RControl) -> Seq<RControl>
    decreases sorted.len(),
{
    if sorted.len() == 0 {
        seq![c]
    } else if sorted.last().target <= c.target {
        sorted.push(c)
    } else {
        spec_insert_control(sorted.drop_last(), c).push(sorted.last())
    }
}

/// `spec_insert_control` places the control exactly at the first position
/// from the end whose predecessor sits on a lower qubit.
proof fn lemma_insert_control_at(sorted: Seq<RControl>, c: RControl, j: int)
    requires
        0 <= j <= sorted.len(),
        forall|k: int| j <= k < sorted.len() ==> (#[trigger] sorted[k]).target > c.target,
        j > 0 ==> sorted[j - 1].target <= c.target,
    ensures
        spec_insert_control(sorted, c) =~= sorted.take(j).push(c) + sorted.skip(j),
    decreases sorted.len(),
{
    if sorted.len() == 0 {
    } else if sorted.last().target <= c.target {
        assert(j == sorted.len());
    } else {
        assert(j < sorted.len());
        lemma_insert_control_at(sorted.drop_last(), c, j);
        assert(sorted.drop_last().take(j) =~= sorted.take(j));
        assert((sorted.drop_last().take(j).push(c) + sorted.drop_last().skip(j)).push(sorted.last())
            =~= sorted.take(j).push(c) + sorted.skip(j));
    }
}

/// Inserts a control into a sorted control list, keeping it sorted.
/// Fails, leaving the list unchanged, when a control on the same qubit is
/// already present.
fn insert_control(cur: &mut Vec<RControl>, c: RControl) -> (ok: bool)
    requires
        rcontrols_sorted(old(cur)@),
    ensures
        ok ==> final(cur)@ == spec_insert_control(old(cur)@, c),
        ok ==> rcontrols_avoid(old(cur)@, c.target),
        ok ==> {
            &&& rcontrols_sorted(final(cur)@)
            &&& final(cur)@.len() == old(cur)@.len() + 1
            &&& forall|t: u8| !rcontrols_avoid(final(cur)@, t) <==> (!rcontrols_avoid(old(cur)@, t)
                || t == c.target)
            &&& forall|n: u8| rcontrols_in_range(old(cur)@, n) && c.target < n
                ==> rcontrols_in_range(final(cur)@, n)
        },
        !ok ==> final(cur)@ == old(cur)@ && !rcontrols_avoid(old(cur)@, c.target),
        rcontrols_avoid(old(cur)@, c.target) ==> ok,
{
    let mut j: usize = cur.len();
    while j > 0 && cur[j - 1].target > c.target
        invariant
            0 <= j <= cur@.len(),
            cur@ == old(cur)@,
            forall|k: int| j <= k < cur@.len() ==> (#[trigger] cur@[k]).target > c.target,
        decreases j,
    {
        j -= 1;
    }
    if j > 0 && cur[j - 1].target == c.target {
        proof {
            assert(!rcontrols_avoid(cur@, c.target));
        }
        return false;
    }
    proof {
        assert forall|k: int| 0 <= k < cur@.len() implies (#[trigger] cur@[k]).target != c.target by {
            if k >= j {
                assert(cur@[k].target > c.target);
            } else if k == j - 1 {
            } else {
                assert(cur@[k].target < cur@[j - 1].target);
            }
        }
    }
    let ghost before = cur@;
    cur.insert(j, c);
    proof {
        assert(cur@ == before.take(j as int).push(c) + before.skip(j as int));
        lemma_insert_control_at(before, c, j as int);
        assert(cur@ =~= spec_insert_control(before, c));
        assert(j > 0 ==> before[j as int - 1].target < c.target);
        assert forall|a: int, b: int| 0 <= a < b < cur@.len() implies (#[trigger] cur@[a]).target
            < (#[trigger] cur@[b]).target by {
            if a < j {
                assert(cur@[a] == before[a]);
            } else if a > j {
                assert(cur@[a] == before[a - 1]);
            }
            if b < j {
                assert(cur@[b] == before[b]);
            } else if b > j {
                assert(cur@[b] == before[b - 1]);
            }
        }
        assert forall|t: u8| !rcontrols_avoid(cur@, t) implies (!rcontrols_avoid(before, t) || t
            == c.target) by {
            let k = choose|k: int| 0 <= k < cur@.len() && cur@[k].target == t;
            if k < j {
                assert(before[k].target == t);
            } else if k > j {
                assert(before[k - 1].target == t);
            }
        }
        assert forall|t: u8| (!rcontrols_avoid(before, t) || t == c.target) implies !rcontrols_avoid(
            cur@,
            t,
        ) by {
            if t == c.target {
                assert(cur@[j as int].target == t);
            } else if !rcontrols_avoid(before, t) {
                let k = choose|k: int| 0 <= k < before.len() && before[k].target == t;
                if k < j {
                    assert(cur@[k].target == t);
                } else {
                    assert(cur@[k + 1].target == t);
                }
            }
        }
        assert forall|n: u8|
            rcontrols_in_range(before, n) && c.target < n implies rcontrols_in_range(cur@, n) by {
            assert forall|k: int| 0 <= k < cur@.len() implies (#[trigger] cur@[k]).target < n by {
                if k < j {
                    assert(cur@[k] == before[k]);
                } else if k > j {
                    assert(cur@[k] == before[k - 1]);
                }
            }
        }
    }
    true
}


/// The accumulated control list of a gate: the controls of the enclosing
/// "circuit" gates with each of this gate's own controls, shifted by the
/// qubit offset, inserted in sorted position.
pub open spec fn spec_combined_controls(
    outer: Seq<RControl>,
    controls: Seq<crate::circuit::Control>,
    qubit_start: u8,
    k: int,
) -> Seq<RControl>
    decreases k,
{
    if k <= 0 {
        outer
    } else {
        let prev = spec_combined_controls(outer, controls, qubit_start, k - 1);
        let c = controls[k - 1];
        match spec_parse_state(c.state@) {
            Some(kind) => spec_insert_control(
                prev,
                RControl { target: (c.target + qubit_start) as u8, kind },
            ),
            None => prev,
        }
    }
}

/// The statevector after the first `k` controls with superposition states
/// have been rotated into (`undo` false) or back out of (`undo` true) the
/// computational basis.
pub open spec fn spec_rotations(sv: Seq<Amp>, cs: Seq<RControl>, n: u8, k: int, undo: bool) -> Seq<
    Amp,
>
    decreases k,
{
    if k <= 0 {
        sv
    } else {
        let prev = spec_rotations(sv, cs, n, k - 1, undo);
        let c = cs[k - 1];
        match c.kind {
            ControlKind::Plus | ControlKind::Minus => spec_apply_operator(
                prev,
                if undo {
                    spec_standard_basis_to_x_basis_rotation()
                } else {
                    spec_x_basis_to_standard_basis_rotation()
                },
                c.target,
                Seq::empty(),
                n,
            ),
            ControlKind::PlusI | ControlKind::MinusI => spec_apply_operator(
                prev,
                if undo {
                    spec_standard_basis_to_y_basis_rotation()
                } else {
                    spec_y_basis_to_standard_basis_rotation()
                },
                c.target,
                Seq::empty(),
                n,
            ),
            _ => prev,
        }
    }
}

/// A gate that applies one catalogue operator to one target: not a
/// barrier, not a measurement, and not one of the composite kinds.
pub open spec fn spec_is_single_primitive(gate: Gate) -> bool {
    &&& gate.name@ != "barrier"@
    &&& gate.name@ != "aggregate"@
    &&& gate.name@ != "qft"@
    &&& gate.name@ != "qft-dagger"@
    &&& gate.name@ != "circuit"@
    &&& gate.name@ != "measure-x"@
    &&& gate.name@ != "measure-y"@
    &&& gate.name@ != "measure-z"@
    &&& gate.targets@.len() == 1
}

/// The complete effect of a single-target primitive gate on the
/// statevector, for the operator `op` its name resolved to: rotate the
/// superposition controls into the computational basis, apply `op` under
/// the accumulated controls, and rotate back.
pub open spec fn spec_primitive1_effect(
    sv: Seq<Amp>,
    gate: Gate,
    qubit_start: u8,
    n: u8,
    outer: Seq<RControl>,
    op: Op1,
) -> Seq<Amp> {
    let cs = spec_combined_controls(outer, gate.controls@, qubit_start, gate.controls@.len() as int);
    let target = (gate.targets@[0] + qubit_start) as u8;
    spec_rotations(
        spec_apply_operator(spec_rotations(sv, cs, n, cs.len() as int, false), op, target, cs, n),
        cs,
        n,
        cs.len() as int,
        true,
    )
}

/// A gate that applies one catalogue operator to two targets.
pub open spec fn spec_is_double_primitive(gate: Gate) -> bool {
    &&& gate.name@ != "barrier"@
    &&& gate.name@ != "aggregate"@
    &&& gate.name@ != "qft"@
    &&& gate.name@ != "qft-dagger"@
    &&& gate.name@ != "circuit"@
    &&& gate.targets@.len() == 2
}

/// The complete effect of a two-target primitive gate on the statevector,
/// like `spec_primitive1_effect` with the 4x4 kernel.
pub open spec fn spec_primitive2_effect(
    sv: Seq<Amp>,
    gate: Gate,
    qubit_start: u8,
    n: u8,
    outer: Seq<RControl>,
    op: Op2,
) -> Seq<Amp> {
    let cs = spec_combined_controls(outer, gate.controls@, qubit_start, gate.controls@.len() as int);
    let t1 = (gate.targets@[0] + qubit_start) as u8;
    let t2 = (gate.targets@[1] + qubit_start) as u8;
    spec_rotations(
        spec_apply_double_operator(
            spec_rotations(sv, cs, n, cs.len() as int, false),
            op,
            t1,
            t2,
            cs,
            n,
        ),
        cs,
        n,
        cs.len() as int,
        true,
    )
}

/// The target of an aggregated gate: the last of its listed targets,
/// shifted by the qubit offset.
pub open spec fn spec_aggregated_target(ag: crate::circuit::AggregatedGate, qubit_start: u8) -> u8 {
    (ag.targets@.last() + qubit_start) as u8
}

/// The statevector after the first `k` members of an aggregate have each
/// applied their operator under the shared control list: the operator is
/// pinned exactly when the member's family is constant, and otherwise
/// only bound to exist, its trigonometric entries being
/// platform-dependent.
pub open spec fn spec_aggregate_rel(
    sv: Seq<Amp>,
    out: Seq<Amp>,
    members: Seq<crate::circuit::AggregatedGate>,
    conjugate: bool,
    qubit_start: u8,
    n: u8,
    cs: Seq<RControl>,
    k: int,
) -> bool
    decreases k,
{
    if k <= 0 {
        out == sv
    } else {
        exists|mid: Seq<Amp>, op: Op1|
            {
                &&& spec_aggregate_rel(sv, mid, members, conjugate, qubit_start, n, cs, k - 1)
                &&& (spec_single_operator_fixed(members[k - 1].name@, conjugate) matches Some(f)
                    ==> op == f)
                &&& members[k - 1].targets@.len() > 0
                &&& out == #[trigger] spec_apply_operator(
                    mid,
                    op,
                    spec_aggregated_target(members[k - 1], qubit_start),
                    cs,
                    n,
                )
            }
    }
}

/// The complete effect of an aggregate gate: each member's operator in
/// turn under the shared controls, inside one rotation pair.
pub open spec fn spec_aggregate_effect_rel(
    sv: Seq<Amp>,
    out: Seq<Amp>,
    gate: Gate,
    conjugate: bool,
    qubit_start: u8,
    n: u8,
    outer: Seq<RControl>,
) -> bool {
    let cs = spec_combined_controls(outer, gate.controls@, qubit_start, gate.controls@.len() as int);
    exists|mid: Seq<Amp>|
        {
            &&& spec_aggregate_rel(
                spec_rotations(sv, cs, n, cs.len() as int, false),
                mid,
                gate.gates@,
                conjugate,
                qubit_start,
                n,
                cs,
                gate.gates@.len() as int,
            )
            &&& out == #[trigger] spec_rotations(mid, cs, n, cs.len() as int, true)
        }
}

/// The control list of one controlled phase root inside a Fourier
/// transform: the shared controls with one more control, on the given
/// qubit, watching for computational one.
pub open spec fn spec_qft_control(cs: Seq<RControl>, qubit: u8) -> Seq<RControl> {
    spec_insert_control(cs, RControl { target: qubit, kind: ControlKind::One })
}

/// A controlled phase root's shape: ones and zeros everywhere except the
/// lower right phase entry, which comes out of the platform-dependent
/// trigonometric calls and is not pinned.
pub open spec fn spec_diag_phase_op(op: Op1) -> bool {
    &&& op.m00 == (Amp { re: B_ONE, im: B_ZERO })
    &&& op.m01 == (Amp { re: B_ZERO, im: B_ZERO })
    &&& op.m10 == (Amp { re: B_ZERO, im: B_ZERO })
}

/// One Fourier pass, begun at target `i`: the Hadamard on that target
/// followed by controlled phase roots against targets `i+1` up to
/// (excluding) `j`.
pub open spec fn spec_qft_pass_rel(
    sv: Seq<Amp>,
    out: Seq<Amp>,
    ts: Seq<u8>,
    cs: Seq<RControl>,
    n: u8,
    i: int,
    j: int,
) -> bool
    decreases j - i,
{
    if j <= i + 1 {
        out == spec_apply_operator(sv, spec_hadamard(), ts[i], cs, n)
    } else {
        exists|mid: Seq<Amp>, op: Op1|
            {
                &&& spec_qft_pass_rel(sv, mid, ts, cs, n, i, j - 1)
                &&& spec_diag_phase_op(op)
                &&& out == #[trigger] spec_apply_operator(
                    mid,
                    op,
                    ts[i],
                    spec_qft_control(cs, ts[j - 1]),
                    n,
                )
            }
    }
}

/// The first `i` Fourier passes.
pub open spec fn spec_qft_passes_rel(
    sv: Seq<Amp>,
    out: Seq<Amp>,
    ts: Seq<u8>,
    cs: Seq<RControl>,
    n: u8,
    i: int,
) -> bool
    decreases i,
{
    if i <= 0 {
        out == sv
    } else {
        exists|mid: Seq<Amp>|
            {
                &&& spec_qft_passes_rel(sv, mid, ts, cs, n, i - 1)
                &&& #[trigger] spec_qft_pass_rel(mid, out, ts, cs, n, i - 1, ts.len() as int)
            }
    }
}

/// The first `k` stages of the reversal network: stage `i` swaps target
/// `i` with target `len - 1 - i` while they have not met in the middle.
pub open spec fn spec_swap_network(sv: Seq<Amp>, ts: Seq<u8>, cs: Seq<RControl>, n: u8, k: int) -> Seq<
    Amp,
>
    decreases k,
{
    if k <= 0 {
        sv
    } else {
        let prev = spec_swap_network(sv, ts, cs, n, k - 1);
        let i = k - 1;
        if i < ts.len() - 1 - i {
            spec_apply_double_operator(prev, spec_swap(), ts[i], ts[ts.len() - 1 - i], cs, n)
        } else {
            prev
        }
    }
}

/// The whole Fourier transform: every pass, then the reversal network.
pub open spec fn spec_qft_rel(
    sv: Seq<Amp>,
    out: Seq<Amp>,
    ts: Seq<u8>,
    cs: Seq<RControl>,
    n: u8,
) -> bool {
    exists|mid: Seq<Amp>|
        spec_qft_passes_rel(sv, mid, ts, cs, n, ts.len() as int) && out
            == #[trigger] spec_swap_network(mid, ts, cs, n, ts.len() as int)
}

/// One adjoint Fourier pass for target `i`, before its closing Hadamard:
/// the conjugated phase roots against targets `len - 1` down, `k - 1` of
/// them.
pub open spec fn spec_qft_dagger_pass_rel(
    sv: Seq<Amp>,
    out: Seq<Amp>,
    ts: Seq<u8>,
    cs: Seq<RControl>,
    n: u8,
    i: int,
    k: int,
) -> bool
    decreases k,
{
    if k <= 1 {
        out == sv
    } else {
        exists|mid: Seq<Amp>, op: Op1|
            {
                &&& spec_qft_dagger_pass_rel(sv, mid, ts, cs, n, i, k - 1)
                &&& spec_diag_phase_op(op)
                &&& out == #[trigger] spec_apply_operator(
                    mid,
                    op,
                    ts[i],
                    spec_qft_control(cs, ts[ts.len() - (k - 1)]),
                    n,
                )
            }
    }
}

/// The first `count` adjoint passes, beginning at the last target.
pub open spec fn spec_qft_dagger_passes_rel(
    sv: Seq<Amp>,
    out: Seq<Amp>,
    ts: Seq<u8>,
    cs: Seq<RControl>,
    n: u8,
    count: int,
) -> bool
    decreases count,
{
    if count <= 0 {
        out == sv
    } else {
        let i = ts.len() - count;
        exists|mid: Seq<Amp>, mid2: Seq<Amp>|
            {
                &&& spec_qft_dagger_passes_rel(sv, mid, ts, cs, n, count - 1)
                &&& #[trigger] spec_qft_dagger_pass_rel(mid, mid2, ts, cs, n, i, ts.len() - i)
                &&& out == spec_apply_operator(mid2, spec_hadamard(), ts[i], cs, n)
            }
    }
}

/// The whole adjoint Fourier transform: the reversal network, then every
/// pass in reverse order with conjugated roots.
pub open spec fn spec_qft_dagger_rel(
    sv: Seq<Amp>,
    out: Seq<Amp>,
    ts: Seq<u8>,
    cs: Seq<RControl>,
    n: u8,
) -> bool {
    spec_qft_dagger_passes_rel(
        spec_swap_network(sv, ts, cs, n, ts.len() as int),
        out,
        ts,
        cs,
        n,
        ts.len() as int,
    )
}

/// A target list shifted by the qubit offset.
pub open spec fn spec_mapped_targets(targets: Seq<u8>, qubit_start: u8) -> Seq<u8> {
    Seq::new(targets.len(), |k: int| (targets[k] + qubit_start) as u8)
}

/// The complete effect of a Fourier-transform gate: the transform, or
/// its adjoint, across the shifted targets under the accumulated
/// controls, inside one rotation pair.
pub open spec fn spec_qft_effect_rel(
    sv: Seq<Amp>,
    out: Seq<Amp>,
    gate: Gate,
    qubit_start: u8,
    n: u8,
    outer: Seq<RControl>,
    dagger: bool,
) -> bool {
    let cs = spec_combined_controls(outer, gate.controls@, qubit_start, gate.controls@.len() as int);
    let ts = spec_mapped_targets(gate.targets@, qubit_start);
    let rotated = spec_rotations(sv, cs, n, cs.len() as int, false);
    exists|mid: Seq<Amp>|
        {
            &&& if dagger {
                spec_qft_dagger_rel(rotated, mid, ts, cs, n)
            } else {
                spec_qft_rel(rotated, mid, ts, cs, n)
            }
            &&& out == #[trigger] spec_rotations(mid, cs, n, cs.len() as int, true)
        }
}

/// Whether a gate is none of the composite kinds and not a barrier.
pub open spec fn spec_not_composite(gate: Gate) -> bool {
    &&& gate.name@ != "barrier"@
    &&& gate.name@ != "aggregate"@
    &&& gate.name@ != "qft"@
    &&& gate.name@ != "qft-dagger"@
    &&& gate.name@ != "circuit"@
}

/// Whether a gate is one of the three measurement gates.
pub open spec fn spec_is_measurement(gate: Gate) -> bool {
    gate.name@ == "measure-x"@ || gate.name@ == "measure-y"@ || gate.name@ == "measure-z"@
}

/// The classical bit a measurement writes to: its override, or the
/// measured qubit itself.
pub open spec fn spec_measured_bit(gate: Gate, target: u8) -> u8 {
    match gate.bit {
        Some(b) => b,
        None => target,
    }
}

/// Reads a control-state string into its kind, when it is one of the six
/// accepted states.
pub open spec fn spec_parse_state(s: Seq<char>) -> Option<ControlKind> {
    if s == "0"@ {
        Some(ControlKind::Zero)
    } else if s == "1"@ {
        Some(ControlKind::One)
    } else if s == "+"@ {
        Some(ControlKind::Plus)
    } else if s == "-"@ {
        Some(ControlKind::Minus)
    } else if s == "+i"@ {
        Some(ControlKind::PlusI)
    } else if s == "-i"@ {
        Some(ControlKind::MinusI)
    } else {
        None
    }
}

/// Reads a control-state string into its kind.
pub fn parse_control_state(state: &str) -> (r: Option<ControlKind>)
    ensures
        r == spec_parse_state(state@),
{
    if str_eq(state, "0") {
        Some(ControlKind::Zero)
    } else if str_eq(state, "1") {
        Some(ControlKind::One)
    } else if str_eq(state, "+") {
        Some(ControlKind::Plus)
    } else if str_eq(state, "-") {
        Some(ControlKind::Minus)
    } else if str_eq(state, "+i") {
        Some(ControlKind::PlusI)
    } else if str_eq(state, "-i") {
        Some(ControlKind::MinusI)
    } else {
        None
    }
}

/// The position of the last circuit with the given id among the first `k`
/// entries: when several circuits share an id, the one provided last
/// wins.
pub open spec fn spec_find_circuit(circuits: Seq<CircuitState>, id: i32, k: int) -> Option<int>
    decreases k,
{
    if k <= 0 {
        None
    } else if circuits[k - 1].circuit_id == id {
        Some(k - 1)
    } else {
        spec_find_circuit(circuits, id, k - 1)
    }
}

/// Finds the circuit with the given id, the last provided one winning.
pub(crate) fn find_circuit(circuits: &Vec<CircuitState>, id: i32) -> (r: Option<usize>)
    ensures
        match r {
            Some(j) => j < circuits@.len() && spec_find_circuit(circuits@, id, circuits@.len() as int)
                == Some(j as int),
            None => spec_find_circuit(circuits@, id, circuits@.len() as int) is None,
        },
{
    let mut k: usize = circuits.len();
    while k > 0
        invariant
            0 <= k <= circuits@.len(),
            spec_find_circuit(circuits@, id, circuits@.len() as int) == spec_find_circuit(
                circuits@,
                id,
                k as int,
            ),
        decreases k,
    {
        if circuits[k - 1].circuit_id == id {
            return Some(k - 1);
        }
        k -= 1;
    }
    None
}

/// The fresh statevector |0...0>: amplitude 1 at index 0, else 0.
pub fn make_statevector(qubit_count: u8) -> (r: Vec<Amp>)
    requires
        qubit_count <= MAX_QUBIT_COUNT,
    ensures
        r@.len() == pow2(qubit_count as nat),
        r@[0] == (Amp { re: B_ONE, im: B_ZERO }),
        forall|j: int| 0 < j < r@.len() ==> (#[trigger] r@[j]) == (Amp { re: B_ZERO, im: B_ZERO }),
{
    proof {
        lemma2_to64();
        lemma_usize_pow2_no_overflow(qubit_count as nat);
        lemma_usize_shl_is_mul(1usize, qubit_count as usize);
        lemma_pow2_pos(qubit_count as nat);
    }
    let len: usize = 1usize << qubit_count;
    let mut statevector: Vec<Amp> = Vec::new();
    let mut k: usize = 0;
    while k < len
        invariant
            0 <= k <= len,
            statevector@.len() == k,
            forall|j: int| 0 <= j < k ==> (#[trigger] statevector@[j]) == (Amp {
                re: B_ZERO,
                im: B_ZERO,
            }),
        decreases len - k,
    {
        statevector.push(Amp::zero());
        k += 1;
    }
    statevector[0] = Amp::one();
    statevector
}

/// The length a statevector keeps through the single-target kernel.
proof fn lemma_apply_operator_len(sv: Seq<Amp>, op: Op1, target: u8, cs: Seq<RControl>, n: u8, k: int)
    requires
        sv.len() == pow2(n as nat),
        n <= MAX_QUBIT_COUNT,
        target < n,
        controls_wf1(cs, target, n),
        k <= pow2((n - 1 - cs.len()) as nat),
    ensures
        spec_apply_operator_loop(sv, op, target, cs, n, k).len() == sv.len(),
    decreases k,
{
    if k > 0 {
        lemma_apply_operator_len(sv, op, target, cs, n, k - 1);
        lemma_narrow1_bound((k - 1) as nat, cs, cs.len() as int, target, n);
        lemma_get_indexes_bounds(
            spec_narrow1((k - 1) as nat, cs, cs.len() as int, target, n),
            target,
            n,
        );
    }
}

/// The length a statevector keeps through the two-target kernel.
proof fn lemma_apply_double_len(
    sv: Seq<Amp>,
    op: Op2,
    t1: u8,
    t2: u8,
    cs: Seq<RControl>,
    n: u8,
    k: int,
)
    requires
        sv.len() == pow2(n as nat),
        n <= MAX_QUBIT_COUNT,
        t1 < n,
        t2 < n,
        t1 != t2,
        controls_wf2(cs, t1, t2, n),
        k <= pow2((n - 2 - cs.len()) as nat),
    ensures
        spec_apply_double_loop(sv, op, t1, t2, cs, n, k).len() == sv.len(),
    decreases k,
{
    if k > 0 {
        lemma_apply_double_len(sv, op, t1, t2, cs, n, k - 1);
        let first: u8 = if t1 > t2 { t1 } else { t2 };
        let last: u8 = if t1 > t2 { t2 } else { t1 };
        lemma_narrow2_bound((k - 1) as nat, cs, cs.len() as int, t1, t2, n);
        let affected = spec_narrow2((k - 1) as nat, cs, cs.len() as int, t1, t2, n);
        lemma_pow2_strictly_increases((n - 2) as nat, (n - 1) as nat);
        lemma_get_indexes_bounds(affected, first, n);
        lemma_insert_zero_bit_bound(affected, reversed_position(first, n), (n - 2) as nat);
        let pair = spec_get_indexes(affected, first, n);
        lemma_get_indexes_bounds(pair.0, last, n);
        lemma_get_indexes_bounds(pair.1, last, n);
    }
}

/// Rotates every control that watches for a superposition state into the
/// computational basis, so that the control-selection step can read it as
/// a plain bit.
fn rotate_single_qubit_states_to_match_control_states(
    statevector: &mut Vec<Amp>,
    controls: &Vec<RControl>,
    qubit_count: u8,
)
    requires
        old(statevector)@.len() == pow2(qubit_count as nat),
        qubit_count <= MAX_QUBIT_COUNT,
        rcontrols_in_range(controls@, qubit_count),
    ensures
        final(statevector)@.len() == pow2(qubit_count as nat),
        final(statevector)@ == spec_rotations(
            old(statevector)@,
            controls@,
            qubit_count,
            controls@.len() as int,
            false,
        ),
{
    let none: Vec<RControl> = Vec::new();
    proof {
        assert(none@ =~= Seq::<RControl>::empty());
    }
    let mut k: usize = 0;
    while k < controls.len()
        invariant
            statevector@.len() == pow2(qubit_count as nat),
            qubit_count <= MAX_QUBIT_COUNT,
            rcontrols_in_range(controls@, qubit_count),
            none@ == Seq::<RControl>::empty(),
            0 <= k <= controls@.len(),
            statevector@ == spec_rotations(
                old(statevector)@,
                controls@,
                qubit_count,
                k as int,
                false,
            ),
        decreases controls@.len() - k,
    {
        let c = controls[k];
        match c.kind {
            ControlKind::Plus | ControlKind::Minus => {
                let op = get_qubit_rotation_operator(true);
                proof {
                    lemma_apply_operator_len(statevector@, op, c.target, none@, qubit_count,
                        pow2((qubit_count - 1) as nat) as int);
                }
                apply_operator(op, statevector, c.target, &none, qubit_count);
            },
            ControlKind::PlusI | ControlKind::MinusI => {
                let op = get_qubit_rotation_operator(false);
                proof {
                    lemma_apply_operator_len(statevector@, op, c.target, none@, qubit_count,
                        pow2((qubit_count - 1) as nat) as int);
                }
                apply_operator(op, statevector, c.target, &none, qubit_count);
            },
            _ => {},
        }
        k += 1;
    }
}

/// Undoes the basis rotations of
/// `rotate_single_qubit_states_to_match_control_states`.
fn undo_rotate_single_qubit_states_to_match_control_states(
    statevector: &mut Vec<Amp>,
    controls: &Vec<RControl>,
    qubit_count: u8,
)
    requires
        old(statevector)@.len() == pow2(qubit_count as nat),
        qubit_count <= MAX_QUBIT_COUNT,
        rcontrols_in_range(controls@, qubit_count),
    ensures
        final(statevector)@.len() == pow2(qubit_count as nat),
        final(statevector)@ == spec_rotations(
            old(statevector)@,
            controls@,
            qubit_count,
            controls@.len() as int,
            true,
        ),
{
    let none: Vec<RControl> = Vec::new();
    proof {
        assert(none@ =~= Seq::<RControl>::empty());
    }
    let mut k: usize = 0;
    while k < controls.len()
        invariant
            statevector@.len() == pow2(qubit_count as nat),
            qubit_count <= MAX_QUBIT_COUNT,
            rcontrols_in_range(controls@, qubit_count),
            none@ == Seq::<RControl>::empty(),
            0 <= k <= controls@.len(),
            statevector@ == spec_rotations(
                old(statevector)@,
                controls@,
                qubit_count,
                k as int,
                true,
            ),
        decreases controls@.len() - k,
    {
        let c = controls[k];
        match c.kind {
            ControlKind::Plus | ControlKind::Minus => {
                let op = get_qubit_undo_rotation_operator(true);
                proof {
                    lemma_apply_operator_len(statevector@, op, c.target, none@, qubit_count,
                        pow2((qubit_count - 1) as nat) as int);
                }
                apply_operator(op, statevector, c.target, &none, qubit_count);
            },
            ControlKind::PlusI | ControlKind::MinusI => {
                let op = get_qubit_undo_rotation_operator(false);
                proof {
                    lemma_apply_operator_len(statevector@, op, c.target, none@, qubit_count,
                        pow2((qubit_count - 1) as nat) as int);
                }
                apply_operator(op, statevector, c.target, &none, qubit_count);
            },
            _ => {},
        }
        k += 1;
    }
}

/// The pairwise-distinct, in-range target list a validated gate provides
/// to the composite expansions.
pub open spec fn qft_targets_ok(ts: Seq<u8>, cs: Seq<RControl>, n: u8) -> bool {
    &&& forall|j: int| 0 <= j < ts.len() ==> (#[trigger] ts[j]) < n && rcontrols_avoid(cs, ts[j])
    &&& forall|a: int, b: int| 0 <= a < b < ts.len() ==> (#[trigger] ts[a]) != (#[trigger] ts[b])
}

/// Swaps target `i` with target `len - 1 - i` across the target list: the
/// reversal network that ends a quantum Fourier transform.
fn swap_qubits(
    statevector: &mut Vec<Amp>,
    targets: &Vec<u8>,
    controls: &Vec<RControl>,
    qubit_count: u8,
)
    requires
        old(statevector)@.len() == pow2(qubit_count as nat),
        qubit_count <= MAX_QUBIT_COUNT,
        rcontrols_sorted(controls@),
        rcontrols_in_range(controls@, qubit_count),
        qft_targets_ok(targets@, controls@, qubit_count),
    ensures
        final(statevector)@.len() == pow2(qubit_count as nat),
        final(statevector)@ == spec_swap_network(
            old(statevector)@,
            targets@,
            controls@,
            qubit_count,
            targets@.len() as int,
        ),
{
    let no_targets: usize = targets.len();
    let mut i: usize = 0;
    while i < no_targets
        invariant
            statevector@.len() == pow2(qubit_count as nat),
            qubit_count <= MAX_QUBIT_COUNT,
            rcontrols_sorted(controls@),
            rcontrols_in_range(controls@, qubit_count),
            qft_targets_ok(targets@, controls@, qubit_count),
            no_targets == targets@.len(),
            0 <= i <= no_targets,
            statevector@ == spec_swap_network(
                old(statevector)@,
                targets@,
                controls@,
                qubit_count,
                i as int,
            ),
        decreases no_targets - i,
    {
        if i < no_targets - 1 - i {
            let t1 = targets[i];
            let t2 = targets[no_targets - 1 - i];
            let op = swap();
            proof {
                lemma_controls_len2(controls@, t1, t2, qubit_count);
                lemma_apply_double_len(statevector@, op, t1, t2, controls@, qubit_count,
                    pow2((qubit_count - 2 - controls@.len()) as nat) as int);
            }
            apply_double_target_operator(op, statevector, t1, t2, controls, qubit_count);
        } else {
            // the middle target, if any, stays in place
        }
        i += 1;
    }
}

/// Applies the quantum Fourier transform across the target list: for each
/// target in turn a Hadamard followed by controlled phase roots against
/// the later targets, then the reversal swap network.
fn apply_qft_gate(
    statevector: &mut Vec<Amp>,
    targets: &Vec<u8>,
    controls: &Vec<RControl>,
    qubit_count: u8,
)
    requires
        old(statevector)@.len() == pow2(qubit_count as nat),
        qubit_count <= MAX_QUBIT_COUNT,
        rcontrols_sorted(controls@),
        rcontrols_in_range(controls@, qubit_count),
        qft_targets_ok(targets@, controls@, qubit_count),
    ensures
        final(statevector)@.len() == pow2(qubit_count as nat),
        spec_qft_rel(old(statevector)@, final(statevector)@, targets@, controls@, qubit_count),
{
    let no_targets: usize = targets.len();
    let mut i: usize = 0;
    while i < no_targets
        invariant
            statevector@.len() == pow2(qubit_count as nat),
            qubit_count <= MAX_QUBIT_COUNT,
            rcontrols_sorted(controls@),
            rcontrols_in_range(controls@, qubit_count),
            qft_targets_ok(targets@, controls@, qubit_count),
            no_targets == targets@.len(),
            0 <= i <= no_targets,
            spec_qft_passes_rel(
                old(statevector)@,
                statevector@,
                targets@,
                controls@,
                qubit_count,
                i as int,
            ),
        decreases no_targets - i,
    {
        let ghost pass_base = statevector@;
        let target = targets[i];
        let op = hadamard();
        proof {
            lemma_controls_len1(controls@, target, qubit_count);
            lemma_apply_operator_len(statevector@, op, target, controls@, qubit_count,
                pow2((qubit_count - 1 - controls@.len()) as nat) as int);
        }
        apply_operator(op, statevector, target, controls, qubit_count);
        let mut j: usize = i + 1;
        while j < no_targets
            invariant
                statevector@.len() == pow2(qubit_count as nat),
                qubit_count <= MAX_QUBIT_COUNT,
                rcontrols_sorted(controls@),
                rcontrols_in_range(controls@, qubit_count),
                qft_targets_ok(targets@, controls@, qubit_count),
                no_targets == targets@.len(),
                0 <= i < no_targets,
                target == targets@[i as int],
                i < j <= no_targets,
                spec_qft_pass_rel(
                    pass_base,
                    statevector@,
                    targets@,
                    controls@,
                    qubit_count,
                    i as int,
                    j as int,
                ),
            decreases no_targets - j,
        {
            let mut full_controls = copy_controls(controls);
            let ok = insert_control(
                &mut full_controls,
                RControl { target: targets[j], kind: ControlKind::One },
            );
            assert(ok);
            let root = fpowf(B_TWO, f32_of_u64((j - i) as u64));
            let op = pauli_z_root(root);
            let ghost before = statevector@;
            proof {
                assert(rcontrols_avoid(full_controls@, target));
                assert(rcontrols_in_range(full_controls@, qubit_count));
                lemma_controls_len1(full_controls@, target, qubit_count);
                lemma_apply_operator_len(statevector@, op, target, full_controls@, qubit_count,
                    pow2((qubit_count - 1 - full_controls@.len()) as nat) as int);
            }
            apply_operator(op, statevector, target, &full_controls, qubit_count);
            proof {
                assert(full_controls@ == spec_qft_control(controls@, targets@[j as int]));
                assert(spec_diag_phase_op(op));
                assert(spec_qft_pass_rel(
                    pass_base,
                    statevector@,
                    targets@,
                    controls@,
                    qubit_count,
                    i as int,
                    j + 1,
                )) by {
                    assert(spec_qft_pass_rel(
                        pass_base,
                        before,
                        targets@,
                        controls@,
                        qubit_count,
                        i as int,
                        (j as int + 1) - 1,
                    ));
                    assert(statevector@ == spec_apply_operator(
                        before,
                        op,
                        targets@[i as int],
                        spec_qft_control(controls@, targets@[(j as int + 1) - 1]),
                        qubit_count,
                    ));
                }
            }
            j += 1;
        }
        proof {
            assert(spec_qft_passes_rel(
                old(statevector)@,
                statevector@,
                targets@,
                controls@,
                qubit_count,
                i + 1,
            )) by {
                assert(spec_qft_passes_rel(
                    old(statevector)@,
                    pass_base,
                    targets@,
                    controls@,
                    qubit_count,
                    (i as int + 1) - 1,
                ));
                assert(spec_qft_pass_rel(
                    pass_base,
                    statevector@,
                    targets@,
                    controls@,
                    qubit_count,
                    (i as int + 1) - 1,
                    targets@.len() as int,
                ));
            }
        }
        i += 1;
    }
    let ghost before_swap = statevector@;
    swap_qubits(statevector, targets, controls, qubit_count);
    proof {
        assert(spec_qft_rel(
            old(statevector)@,
            statevector@,
            targets@,
            controls@,
            qubit_count,
        ));
    }
}

/// Applies the adjoint quantum Fourier transform: the swap network first,
/// then the passes in reverse order with conjugated phase roots.
fn apply_qft_dagger_gate(
    statevector: &mut Vec<Amp>,
    targets: &Vec<u8>,
    controls: &Vec<RControl>,
    qubit_count: u8,
)
    requires
        old(statevector)@.len() == pow2(qubit_count as nat),
        qubit_count <= MAX_QUBIT_COUNT,
        rcontrols_sorted(controls@),
        rcontrols_in_range(controls@, qubit_count),
        qft_targets_ok(targets@, controls@, qubit_count),
    ensures
        final(statevector)@.len() == pow2(qubit_count as nat),
        spec_qft_dagger_rel(
            old(statevector)@,
            final(statevector)@,
            targets@,
            controls@,
            qubit_count,
        ),
{
    swap_qubits(statevector, targets, controls, qubit_count);
    let ghost swapped = statevector@;
    let no_targets: usize = targets.len();
    let mut ii: usize = no_targets;
    while ii > 0
        invariant
            statevector@.len() == pow2(qubit_count as nat),
            qubit_count <= MAX_QUBIT_COUNT,
            rcontrols_sorted(controls@),
            rcontrols_in_range(controls@, qubit_count),
            qft_targets_ok(targets@, controls@, qubit_count),
            no_targets == targets@.len(),
            0 <= ii <= no_targets,
            spec_qft_dagger_passes_rel(
                swapped,
                statevector@,
                targets@,
                controls@,
                qubit_count,
                no_targets - ii,
            ),
        decreases ii,
    {
        let ghost pass_base = statevector@;
        let i: usize = ii - 1;
        let target = targets[i];
        let mut k: usize = 1;
        while k < no_targets - i
            invariant
                statevector@.len() == pow2(qubit_count as nat),
                qubit_count <= MAX_QUBIT_COUNT,
                rcontrols_sorted(controls@),
                rcontrols_in_range(controls@, qubit_count),
                qft_targets_ok(targets@, controls@, qubit_count),
                no_targets == targets@.len(),
                0 <= i < no_targets,
                i + 1 == ii,
                target == targets@[i as int],
                1 <= k <= no_targets - i,
                spec_qft_dagger_pass_rel(
                    pass_base,
                    statevector@,
                    targets@,
                    controls@,
                    qubit_count,
                    i as int,
                    k as int,
                ),
            decreases no_targets - i - k,
        {
            let mut full_controls = copy_controls(controls);
            let ok = insert_control(
                &mut full_controls,
                RControl { target: targets[no_targets - k], kind: ControlKind::One },
            );
            assert(ok);
            let root = fpowf(B_TWO, f32_of_u64((no_targets - i - k) as u64));
            let op = pauli_z_root_dagger(root);
            let ghost before = statevector@;
            proof {
                assert(rcontrols_avoid(full_controls@, target));
                assert(rcontrols_in_range(full_controls@, qubit_count));
                lemma_controls_len1(full_controls@, target, qubit_count);
                lemma_apply_operator_len(statevector@, op, target, full_controls@, qubit_count,
                    pow2((qubit_count - 1 - full_controls@.len()) as nat) as int);
            }
            apply_operator(op, statevector, target, &full_controls, qubit_count);
            proof {
                assert(full_controls@ == spec_qft_control(
                    controls@,
                    targets@[no_targets - k as int],
                ));
                assert(spec_diag_phase_op(op));
                assert(spec_qft_dagger_pass_rel(
                    pass_base,
                    statevector@,
                    targets@,
                    controls@,
                    qubit_count,
                    i as int,
                    k + 1,
                )) by {
                    assert(spec_qft_dagger_pass_rel(
                        pass_base,
                        before,
                        targets@,
                        controls@,
                        qubit_count,
                        i as int,
                        (k as int + 1) - 1,
                    ));
                    assert(statevector@ == spec_apply_operator(
                        before,
                        op,
                        targets@[i as int],
                        spec_qft_control(
                            controls@,
                            targets@[targets@.len() - ((k as int + 1) - 1)],
                        ),
                        qubit_count,
                    ));
                }
            }
            k += 1;
        }
        let op = hadamard();
        proof {
            lemma_controls_len1(controls@, target, qubit_count);
            lemma_apply_operator_len(statevector@, op, target, controls@, qubit_count,
                pow2((qubit_count - 1 - controls@.len()) as nat) as int);
        }
        let ghost before_h = statevector@;
        apply_operator(op, statevector, target, controls, qubit_count);
        proof {
            assert(spec_qft_dagger_passes_rel(
                swapped,
                statevector@,
                targets@,
                controls@,
                qubit_count,
                no_targets - ii + 1,
            )) by {
                let ghost c1 = (no_targets - ii + 1) as int;
                assert(targets@.len() - c1 == i as int);
                assert(spec_qft_dagger_passes_rel(
                    swapped,
                    pass_base,
                    targets@,
                    controls@,
                    qubit_count,
                    c1 - 1,
                ));
                assert(spec_qft_dagger_pass_rel(
                    pass_base,
                    before_h,
                    targets@,
                    controls@,
                    qubit_count,
                    targets@.len() - c1,
                    targets@.len() - (targets@.len() - c1),
                ));
                assert(statevector@ == spec_apply_operator(
                    before_h,
                    spec_hadamard(),
                    targets@[targets@.len() - c1],
                    controls@,
                    qubit_count,
                ));
            }
        }
        ii -= 1;
    }
}


/// The step's used-qubit set after validating and marking the first `k`
/// targets of a gate, or the first structural error among them: a target
/// outside the register, on a measured qubit, on a qubit this step
/// already used, or on a qubit an enclosing "circuit" gate controls.
pub open spec fn spec_check_targets(
    targets: Seq<u8>,
    qubit_start: u8,
    n: u8,
    meas: Seq<Option<u8>>,
    afected: Seq<bool>,
    outer: Seq<RControl>,
    step: u16,
    k: int,
) -> Result<Seq<bool>, SimError>
    decreases k,
{
    if k <= 0 {
        Ok(afected)
    } else {
        match spec_check_targets(targets, qubit_start, n, meas, afected, outer, step, k - 1) {
            Err(e) => Err(e),
            Ok(af) => {
                let wide = targets[k - 1] + qubit_start;
                if wide >= n {
                    Err(SimError::QubitOutOfRange { qubit: wide as u16, step })
                } else if meas[wide as int] is Some {
                    Err(SimError::QubitMeasured { qubit: wide as u8, step })
                } else if af[wide as int] {
                    Err(SimError::QubitReused { qubit: wide as u8, step })
                } else if !rcontrols_avoid(outer, wide as u8) {
                    Err(SimError::QubitReused { qubit: wide as u8, step })
                } else {
                    Ok(af.update(wide as int, true))
                }
            },
        }
    }
}

/// The used-qubit set and accumulated control list after validating the
/// first `k` controls of a gate on top of `state`, or the first
/// structural error: a control outside the register, on a measured or
/// already used qubit, with an unknown state string, or colliding with an
/// accumulated control.
pub open spec fn spec_check_controls(
    controls: Seq<Control>,
    qubit_start: u8,
    n: u8,
    meas: Seq<Option<u8>>,
    state: Result<(Seq<bool>, Seq<RControl>), SimError>,
    step: u16,
    k: int,
) -> Result<(Seq<bool>, Seq<RControl>), SimError>
    decreases k,
{
    if k <= 0 {
        state
    } else {
        match spec_check_controls(controls, qubit_start, n, meas, state, step, k - 1) {
            Err(e) => Err(e),
            Ok(st) => {
                let c = controls[k - 1];
                let wide = c.target + qubit_start;
                if wide >= n {
                    Err(SimError::QubitOutOfRange { qubit: wide as u16, step })
                } else if meas[wide as int] is Some {
                    Err(SimError::QubitMeasured { qubit: wide as u8, step })
                } else if st.0[wide as int] {
                    Err(SimError::QubitReused { qubit: wide as u8, step })
                } else {
                    match spec_parse_state(c.state@) {
                        None => Err(SimError::UnknownControlState { step }),
                        Some(kind) => if !rcontrols_avoid(st.1, wide as u8) {
                            Err(SimError::QubitReused { qubit: wide as u8, step })
                        } else {
                            Ok(
                                (
                                    st.0.update(wide as int, true),
                                    spec_insert_control(
                                        st.1,
                                        RControl { target: wide as u8, kind },
                                    ),
                                ),
                            )
                        },
                    }
                }
            },
        }
    }
}

/// Everything the driver checks of a gate before touching an amplitude:
/// its targets, its controls, that it acts on something, and its arity.
/// The result carries the step's used-qubit set and the accumulated
/// control list the application then runs under.
pub open spec fn spec_gate_precheck(
    gate: Gate,
    qubit_start: u8,
    n: u8,
    meas: Seq<Option<u8>>,
    afected: Seq<bool>,
    outer: Seq<RControl>,
    step: u16,
) -> Result<(Seq<bool>, Seq<RControl>), SimError> {
    let after_targets = spec_check_targets(
        gate.targets@,
        qubit_start,
        n,
        meas,
        afected,
        outer,
        step,
        gate.targets@.len() as int,
    );
    let state0: Result<(Seq<bool>, Seq<RControl>), SimError> = match after_targets {
        Err(e) => Err(e),
        Ok(af) => Ok((af, outer)),
    };
    match spec_check_controls(
        gate.controls@,
        qubit_start,
        n,
        meas,
        state0,
        step,
        gate.controls@.len() as int,
    ) {
        Err(e) => Err(e),
        Ok(st) => {
            if gate.targets@.len() == 0 && gate.gates@.len() == 0 {
                Err(SimError::NoTargets { step })
            } else if gate.name@ == "aggregate"@ && gate.targets@.len() > 1 {
                Err(SimError::TooManyTargets { step })
            } else if gate.name@ != "aggregate"@ && gate.name@ != "qft"@ && gate.name@
                != "qft-dagger"@ && gate.name@ != "circuit"@ && gate.targets@.len() > 2 {
                Err(SimError::TooManyTargets { step })
            } else {
                Ok(st)
            }
        },
    }
}

/// A target-validation error stays once hit.
proof fn lemma_check_targets_absorb(
    targets: Seq<u8>,
    qubit_start: u8,
    n: u8,
    meas: Seq<Option<u8>>,
    afected: Seq<bool>,
    outer: Seq<RControl>,
    step: u16,
    k: int,
    len: int,
)
    requires
        0 <= k <= len,
        spec_check_targets(targets, qubit_start, n, meas, afected, outer, step, k) is Err,
    ensures
        spec_check_targets(targets, qubit_start, n, meas, afected, outer, step, len)
            == spec_check_targets(targets, qubit_start, n, meas, afected, outer, step, k),
    decreases len - k,
{
    if k < len {
        lemma_check_targets_absorb(targets, qubit_start, n, meas, afected, outer, step, k + 1, len);
    }
}

/// A control-validation error stays once hit, and an erroneous incoming
/// state passes through.
proof fn lemma_check_controls_absorb(
    controls: Seq<Control>,
    qubit_start: u8,
    n: u8,
    meas: Seq<Option<u8>>,
    state: Result<(Seq<bool>, Seq<RControl>), SimError>,
    step: u16,
    k: int,
    len: int,
)
    requires
        0 <= k <= len,
        spec_check_controls(controls, qubit_start, n, meas, state, step, k) is Err,
    ensures
        spec_check_controls(controls, qubit_start, n, meas, state, step, len)
            == spec_check_controls(controls, qubit_start, n, meas, state, step, k),
    decreases len - k,
{
    if k < len {
        lemma_check_controls_absorb(controls, qubit_start, n, meas, state, step, k + 1, len);
    }
}


/// A target-validation error decides the whole precheck.
proof fn lemma_precheck_err_propagates(
    gate: Gate,
    qubit_start: u8,
    n: u8,
    meas: Seq<Option<u8>>,
    afected: Seq<bool>,
    outer: Seq<RControl>,
    step: u16,
    k: int,
)
    requires
        0 <= k <= gate.targets@.len(),
        spec_check_targets(gate.targets@, qubit_start, n, meas, afected, outer, step, k) is Err,
    ensures
        spec_gate_precheck(gate, qubit_start, n, meas, afected, outer, step) == Result::<
            (Seq<bool>, Seq<RControl>),
            SimError,
        >::Err(
            spec_check_targets(
                gate.targets@,
                qubit_start,
                n,
                meas,
                afected,
                outer,
                step,
                k,
            )->Err_0,
        ),
{
    lemma_check_targets_absorb(
        gate.targets@,
        qubit_start,
        n,
        meas,
        afected,
        outer,
        step,
        k,
        gate.targets@.len() as int,
    );
    let e = spec_check_targets(gate.targets@, qubit_start, n, meas, afected, outer, step, k)->Err_0;
    lemma_check_controls_absorb(
        gate.controls@,
        qubit_start,
        n,
        meas,
        Err(e),
        step,
        0,
        gate.controls@.len() as int,
    );
}

/// A control-validation error decides the whole precheck.
proof fn lemma_precheck_err_propagates_controls(
    gate: Gate,
    qubit_start: u8,
    n: u8,
    meas: Seq<Option<u8>>,
    afected: Seq<bool>,
    outer: Seq<RControl>,
    step: u16,
    af_t: Seq<bool>,
    k: int,
)
    requires
        0 <= k <= gate.controls@.len(),
        spec_check_targets(
            gate.targets@,
            qubit_start,
            n,
            meas,
            afected,
            outer,
            step,
            gate.targets@.len() as int,
        ) == Ok::<Seq<bool>, SimError>(af_t),
        spec_check_controls(
            gate.controls@,
            qubit_start,
            n,
            meas,
            Ok((af_t, outer)),
            step,
            k,
        ) is Err,
    ensures
        spec_gate_precheck(gate, qubit_start, n, meas, afected, outer, step) == Result::<
            (Seq<bool>, Seq<RControl>),
            SimError,
        >::Err(
            spec_check_controls(
                gate.controls@,
                qubit_start,
                n,
                meas,
                Ok((af_t, outer)),
                step,
                k,
            )->Err_0,
        ),
{
    lemma_check_controls_absorb(
        gate.controls@,
        qubit_start,
        n,
        meas,
        Ok((af_t, outer)),
        step,
        k,
        gate.controls@.len() as int,
    );
}



/// The initial statevector |0...0>: amplitude one at index zero.
pub open spec fn spec_initial_statevector(n: u8) -> Seq<Amp> {
    Seq::new(
        pow2(n as nat) as nat,
        |i: int|
            if i == 0 {
                Amp { re: B_ONE, im: B_ZERO }
            } else {
                Amp { re: B_ZERO, im: B_ZERO }
            },
    )
}

/// The measurement map of `n` unmeasured qubits.
pub open spec fn spec_empty_map(n: u8) -> Seq<Option<u8>> {
    Seq::new(n as nat, |i: int| None::<u8>)
}

/// An execution order for a step list: every position exactly once, in
/// ascending step-index order, stable for equal indices.
pub open spec fn spec_order_ok(order: Seq<usize>, steps: Seq<Step>) -> bool {
    &&& order.len() == steps.len()
    &&& forall|j: int| 0 <= j < order.len() ==> (#[trigger] order[j]) < steps.len()
    &&& crate::circuit::step_order_sorted(order, steps)
    &&& forall|i: int| 0 <= i < steps.len() ==> order.contains(#[trigger] (i as usize))
}

/// A trivially true marker over an intermediate configuration of a run.
/// The chaining relations below quantify over such configurations, with the
/// marker as the instantiation pattern, so a proof introduces a witness by
/// naming the marker on it first.
pub open spec fn spec_rel_witness(sv: Seq<Amp>, m: Seq<Option<u8>>) -> bool {
    true
}

/// A trivially true marker over a choice of circuit index and step order:
/// the instantiation pattern for the quantifier of `spec_subcircuit_rel`.
pub open spec fn spec_order_witness(j: int, order: Seq<usize>) -> bool {
    true
}

/// How one gate application relates the statevector and measurement map
/// before it to those after it: the union of the per-kind effect
/// relations, with nested "circuit" gates unfolded under the fuel.
pub open spec fn spec_gate_rel(
    svi: Seq<Amp>,
    svo: Seq<Amp>,
    mi: Seq<Option<u8>>,
    mo: Seq<Option<u8>>,
    gate: Gate,
    conjugate: bool,
    qubit_start: u8,
    n: u8,
    circuits: Seq<CircuitState>,
    outer: Seq<RControl>,
    fuel: nat,
) -> bool
    decreases fuel, 0int, 0int, 0int,
{
    let cs = spec_combined_controls(outer, gate.controls@, qubit_start, gate.controls@.len() as int);
    if gate.name@ == "barrier"@ {
        svo == svi && mo == mi
    } else if gate.name@ == "circuit"@ {
        let qs2 = (gate.targets@[0] + qubit_start) as u8;
        let power = if conjugate {
            -(gate.circuit_power->0 as int)
        } else {
            gate.circuit_power->0 as int
        };
        let reps = (if power >= 0 {
            power
        } else {
            -power
        }) as nat;
        let rev = power < 0;
        &&& gate.circuit_id is Some
        &&& gate.circuit_power is Some
        &&& gate.targets@.len() > 0
        &&& fuel > 0
        &&& exists|mid: Seq<Amp>|
            {
                &&& #[trigger] spec_rel_witness(mid, mi)
                &&& spec_reps_rel(
                    spec_rotations(svi, cs, n, cs.len() as int, false),
                    mid,
                    mi,
                    mo,
                    gate.circuit_id->0,
                    qs2,
                    n,
                    circuits,
                    cs,
                    (fuel - 1) as nat,
                    reps,
                    rev,
                )
                &&& svo == spec_rotations(mid, cs, n, cs.len() as int, true)
            }
    } else if gate.name@ == "aggregate"@ {
        mo == mi && spec_aggregate_effect_rel(svi, svo, gate, conjugate, qubit_start, n, outer)
    } else if gate.name@ == "qft"@ || gate.name@ == "qft-dagger"@ {
        let dagger = if gate.name@ == "qft"@ {
            conjugate
        } else {
            !conjugate
        };
        mo == mi && spec_qft_effect_rel(svi, svo, gate, qubit_start, n, outer, dagger)
    } else if gate.targets@.len() == 2 {
        mo == mi && exists|op: Op2|
            (spec_double_operator_fixed(gate.name@, conjugate) matches Some(f) ==> op == f) && svo
                == #[trigger] spec_primitive2_effect(svi, gate, qubit_start, n, outer, op)
    } else if spec_is_measurement(gate) {
        let target = (gate.targets@[0] + qubit_start) as u8;
        let bit = spec_measured_bit(gate, target);
        &&& gate.targets@.len() == 1
        &&& mo == mi.update(target as int, Some(bit))
        &&& if gate.name@ == "measure-z"@ {
            svo == spec_rotations(
                spec_rotations(svi, cs, n, cs.len() as int, false),
                cs,
                n,
                cs.len() as int,
                true,
            )
        } else {
            exists|op: Op1|
                (spec_single_operator_fixed(gate.name@, conjugate) matches Some(f) ==> op == f)
                    && svo == #[trigger] spec_primitive1_effect(
                    svi,
                    gate,
                    qubit_start,
                    n,
                    outer,
                    op,
                )
        }
    } else {
        &&& gate.targets@.len() == 1
        &&& mo == mi
        &&& exists|op: Op1|
            (spec_single_operator_fixed(gate.name@, conjugate) matches Some(f) ==> op == f) && svo
                == #[trigger] spec_primitive1_effect(svi, gate, qubit_start, n, outer, op)
    }
}

/// The gates of one step, applied in listed order — or, for the adjoint
/// path, in reverse order with each gate conjugated.  `c` gates have been
/// applied.
pub open spec fn spec_step_rel(
    svi: Seq<Amp>,
    svo: Seq<Amp>,
    mi: Seq<Option<u8>>,
    mo: Seq<Option<u8>>,
    gates: Seq<Gate>,
    qubit_start: u8,
    n: u8,
    circuits: Seq<CircuitState>,
    outer: Seq<RControl>,
    fuel: nat,
    c: int,
    reverse: bool,
) -> bool
    decreases fuel, 1int, c, 0int,
{
    if c <= 0 {
        svo == svi && mo == mi
    } else {
        let g = if reverse {
            gates.len() - c
        } else {
            c - 1
        };
        exists|svm: Seq<Amp>, mm: Seq<Option<u8>>|
            {
                &&& #[trigger] spec_rel_witness(svm, mm)
                &&& spec_step_rel(svi, svm, mi, mm, gates, qubit_start, n, circuits, outer, fuel, c - 1, reverse)
                &&& spec_gate_rel(
                    svm,
                    svo,
                    mm,
                    mo,
                    gates[g],
                    reverse,
                    qubit_start,
                    n,
                    circuits,
                    outer,
                    fuel,
                )
            }
    }
}

/// The steps of a circuit, visited through an execution order — ascending
/// for a forward run, descending with conjugated gates for the adjoint.
/// `k` steps have been applied.
pub open spec fn spec_order_rel(
    svi: Seq<Amp>,
    svo: Seq<Amp>,
    mi: Seq<Option<u8>>,
    mo: Seq<Option<u8>>,
    steps: Seq<Step>,
    order: Seq<usize>,
    qubit_start: u8,
    n: u8,
    circuits: Seq<CircuitState>,
    outer: Seq<RControl>,
    fuel: nat,
    k: int,
    reverse: bool,
) -> bool
    decreases fuel, 2int, k, 0int,
{
    if k <= 0 {
        svo == svi && mo == mi
    } else {
        let idx = (if reverse {
            order[order.len() - k]
        } else {
            order[k - 1]
        }) as int;
        exists|svm: Seq<Amp>, mm: Seq<Option<u8>>|
            {
                &&& #[trigger] spec_rel_witness(svm, mm)
                &&& spec_order_rel(svi, svm, mi, mm, steps, order, qubit_start, n, circuits, outer, fuel, k - 1, reverse)
                &&& spec_step_rel(
                    svm,
                    svo,
                    mm,
                    mo,
                    steps[idx].gates@,
                    qubit_start,
                    n,
                    circuits,
                    outer,
                    fuel,
                    steps[idx].gates@.len() as int,
                    reverse,
                )
            }
    }
}

/// One whole run of a named circuit: the last circuit provided under the
/// id, its steps in a stable ascending-index order (descending and
/// conjugated for the adjoint), each step's gates under the accumulated
/// controls.
pub open spec fn spec_subcircuit_rel(
    svi: Seq<Amp>,
    svo: Seq<Amp>,
    mi: Seq<Option<u8>>,
    mo: Seq<Option<u8>>,
    circuit_id: i32,
    qubit_start: u8,
    n: u8,
    circuits: Seq<CircuitState>,
    outer: Seq<RControl>,
    fuel: nat,
    reverse: bool,
) -> bool
    decreases fuel, 3int, 0int, 0int,
{
    exists|j: int, order: Seq<usize>|
        {
            &&& #[trigger] spec_order_witness(j, order)
            &&& spec_find_circuit(circuits, circuit_id, circuits.len() as int) == Some(j)
            &&& spec_order_ok(order, circuits[j].circuit.steps@)
            &&& spec_order_rel(
                svi,
                svo,
                mi,
                mo,
                circuits[j].circuit.steps@,
                order,
                qubit_start,
                n,
                circuits,
                outer,
                fuel,
                order.len() as int,
                reverse,
            )
        }
}

/// Some number of repetitions of a sub-circuit, each a whole run.
pub open spec fn spec_reps_rel(
    svi: Seq<Amp>,
    svo: Seq<Amp>,
    mi: Seq<Option<u8>>,
    mo: Seq<Option<u8>>,
    circuit_id: i32,
    qubit_start: u8,
    n: u8,
    circuits: Seq<CircuitState>,
    outer: Seq<RControl>,
    fuel: nat,
    reps: nat,
    reverse: bool,
) -> bool
    decreases fuel, 4int, reps, 0int,
{
    if reps == 0 {
        svo == svi && mo == mi
    } else {
        exists|svm: Seq<Amp>, mm: Seq<Option<u8>>|
            {
                &&& #[trigger] spec_rel_witness(svm, mm)
                &&& spec_reps_rel(svi, svm, mi, mm, circuit_id, qubit_start, n, circuits, outer, fuel, (reps - 1) as nat, reverse)
                &&& spec_subcircuit_rel(
                    svm,
                    svo,
                    mm,
                    mo,
                    circuit_id,
                    qubit_start,
                    n,
                    circuits,
                    outer,
                    fuel,
                    reverse,
                )
            }
    }
}



/// Whether none of the provided circuits carries a measurement gate, so
/// a run leaves the measurement map empty.
pub open spec fn spec_no_measure_gates(circuits: Seq<CircuitState>) -> bool {
    forall|e: int, st: int, g: int|
        0 <= e < circuits.len() && 0 <= st < circuits[e].circuit.steps@.len() && 0 <= g
            < circuits[e].circuit.steps@[st].gates@.len() ==> !spec_is_measurement(
            #[trigger] circuits[e].circuit.steps@[st].gates@[g],
        )
}

/// Resolves, validates and applies one gate of a step, recursing into
/// composite gates.  `full_controls` carries the controls accumulated from
/// enclosing "circuit" gates; `afected_qubits` records which qubits this
/// step has already used.  Every structural error of the circuit is
/// reported here.
#[verifier::rlimit(100)]
fn apply_generic_gate(
    gate: &Gate,
    take_hermitian_conjugate: bool,
    step: u16,
    qubit_start: u8,
    qubit_count: u8,
    circuits: &Vec<CircuitState>,
    full_controls: &Vec<RControl>,
    statevector: &mut Vec<Amp>,
    measurements: &mut MeasurementMap,
    afected_qubits: &mut Vec<bool>,
    fuel: usize,
) -> (r: Result<(), SimError>)
    requires
        old(statevector)@.len() == pow2(qubit_count as nat),
        qubit_count <= MAX_QUBIT_COUNT,
        map_wf(old(measurements).entries@, qubit_count),
        old(afected_qubits)@.len() == qubit_count as nat,
        rcontrols_sorted(full_controls@),
        rcontrols_in_range(full_controls@, qubit_count),
    ensures
        final(statevector)@.len() == pow2(qubit_count as nat),
        map_wf(final(measurements).entries@, qubit_count),
        final(afected_qubits)@.len() == qubit_count as nat,
        forall|q: int|
            0 <= q < qubit_count as nat && old(afected_qubits)@[q] ==> final(afected_qubits)@[q],
        r is Ok && gate.name@ != "barrier"@ ==> forall|k: int|
            0 <= k < gate.targets@.len() ==> {
                let at = #[trigger] gate.targets@[k] + qubit_start;
                at < qubit_count && final(afected_qubits)@[at as int]
            },
        gate.name@ != "barrier"@ ==> (spec_gate_precheck(
            *gate,
            qubit_start,
            qubit_count,
            old(measurements).entries@,
            old(afected_qubits)@,
            full_controls@,
            step,
        ) matches Err(e) ==> r == Err::<(), SimError>(e)),
        r is Ok && gate.name@ != "barrier"@ ==> spec_gate_precheck(
            *gate,
            qubit_start,
            qubit_count,
            old(measurements).entries@,
            old(afected_qubits)@,
            full_controls@,
            step,
        ) is Ok,
        spec_no_measure_gates(circuits@) && !spec_is_measurement(*gate) && spec_map_is_empty(
            old(measurements).entries@,
        ) ==> spec_map_is_empty(final(measurements).entries@),
        gate.name@ == "barrier"@ ==> r is Ok && final(statevector)@ == old(statevector)@
            && final(measurements).entries@ == old(measurements).entries@
            && final(afected_qubits)@ == old(afected_qubits)@,
        (spec_gate_precheck(
            *gate,
            qubit_start,
            qubit_count,
            old(measurements).entries@,
            old(afected_qubits)@,
            full_controls@,
            step,
        ) is Ok) && spec_is_single_primitive(*gate) ==> (r is Ok <==> spec_single_operator_err(
            gate.name@,
            gate.theta,
            gate.phi,
            gate.lambda,
            opt_string_view(gate.root),
            step,
        ) is None),
        (spec_gate_precheck(
            *gate,
            qubit_start,
            qubit_count,
            old(measurements).entries@,
            old(afected_qubits)@,
            full_controls@,
            step,
        ) is Ok) && spec_is_single_primitive(*gate) ==> (r matches Err(e)
            ==> Some(e) == spec_single_operator_err(
            gate.name@,
            gate.theta,
            gate.phi,
            gate.lambda,
            opt_string_view(gate.root),
            step,
        )),
        (spec_gate_precheck(
            *gate,
            qubit_start,
            qubit_count,
            old(measurements).entries@,
            old(afected_qubits)@,
            full_controls@,
            step,
        ) is Ok) && spec_is_double_primitive(*gate) ==> (r is Ok <==> spec_double_operator_err(
            gate.name@,
            gate.theta,
            gate.phi,
            gate.lambda,
            opt_string_view(gate.root),
            step,
        ) is None),
        (spec_gate_precheck(
            *gate,
            qubit_start,
            qubit_count,
            old(measurements).entries@,
            old(afected_qubits)@,
            full_controls@,
            step,
        ) is Ok) && spec_is_double_primitive(*gate) ==> (r matches Err(e)
            ==> Some(e) == spec_double_operator_err(
            gate.name@,
            gate.theta,
            gate.phi,
            gate.lambda,
            opt_string_view(gate.root),
            step,
        )),
        (spec_gate_precheck(
            *gate,
            qubit_start,
            qubit_count,
            old(measurements).entries@,
            old(afected_qubits)@,
            full_controls@,
            step,
        ) is Ok) && spec_not_composite(*gate) && gate.name@ == "measure-z"@
            && gate.targets@.len() == 1 ==> (r is Ok <==> spec_measured_bit(
            *gate,
            (gate.targets@[0] + qubit_start) as u8,
        ) < qubit_count),
        (spec_gate_precheck(
            *gate,
            qubit_start,
            qubit_count,
            old(measurements).entries@,
            old(afected_qubits)@,
            full_controls@,
            step,
        ) is Ok) && spec_not_composite(*gate) && (gate.name@ == "measure-x"@ || gate.name@
            == "measure-y"@) && gate.targets@.len() == 1 ==> (r is Ok <==> (spec_measured_bit(
            *gate,
            (gate.targets@[0] + qubit_start) as u8,
        ) < qubit_count && spec_single_operator_err(
            gate.name@,
            gate.theta,
            gate.phi,
            gate.lambda,
            opt_string_view(gate.root),
            step,
        ) is None)),
        (spec_gate_precheck(
            *gate,
            qubit_start,
            qubit_count,
            old(measurements).entries@,
            old(afected_qubits)@,
            full_controls@,
            step,
        ) is Ok) && (gate.name@ == "qft"@ || gate.name@ == "qft-dagger"@) ==> r is Ok,
        (spec_gate_precheck(
            *gate,
            qubit_start,
            qubit_count,
            old(measurements).entries@,
            old(afected_qubits)@,
            full_controls@,
            step,
        ) is Ok) && gate.name@ == "circuit"@ && gate.circuit_id is None ==> r == Err::<
            (),
            SimError,
        >(SimError::MissingParameter { step }),
        (spec_gate_precheck(
            *gate,
            qubit_start,
            qubit_count,
            old(measurements).entries@,
            old(afected_qubits)@,
            full_controls@,
            step,
        ) is Ok) && gate.name@ == "circuit"@ && gate.circuit_id is Some
            && gate.circuit_power is None ==> r == Err::<(), SimError>(
            SimError::MissingParameter { step },
        ),
        (spec_gate_precheck(
            *gate,
            qubit_start,
            qubit_count,
            old(measurements).entries@,
            old(afected_qubits)@,
            full_controls@,
            step,
        ) is Ok) && gate.name@ == "circuit"@ && gate.circuit_id is Some
            && gate.circuit_power is Some && gate.targets@.len() == 0 ==> r == Err::<
            (),
            SimError,
        >(SimError::NoTargets { step }),
        (spec_gate_precheck(
            *gate,
            qubit_start,
            qubit_count,
            old(measurements).entries@,
            old(afected_qubits)@,
            full_controls@,
            step,
        ) is Ok) && gate.name@ == "circuit"@ && gate.circuit_id is Some
            && gate.circuit_power is Some && gate.targets@.len() > 0 && fuel == 0 ==> r == Err::<
            (),
            SimError,
        >(SimError::NestingTooDeep),
        (spec_gate_precheck(
            *gate,
            qubit_start,
            qubit_count,
            old(measurements).entries@,
            old(afected_qubits)@,
            full_controls@,
            step,
        ) is Ok) && gate.name@ == "circuit"@ && gate.circuit_id is Some
            && gate.circuit_power is Some && gate.targets@.len() > 0 && fuel > 0 && (
        if take_hermitian_conjugate {
            -(gate.circuit_power->0 as int)
        } else {
            gate.circuit_power->0 as int
        }) == 0 ==> r is Ok,
        (spec_gate_precheck(
            *gate,
            qubit_start,
            qubit_count,
            old(measurements).entries@,
            old(afected_qubits)@,
            full_controls@,
            step,
        ) is Ok) && gate.name@ == "circuit"@ && gate.circuit_id is Some
            && gate.circuit_power is Some && gate.targets@.len() > 0 && fuel > 0 && (
        if take_hermitian_conjugate {
            -(gate.circuit_power->0 as int)
        } else {
            gate.circuit_power->0 as int
        }) != 0 && spec_find_circuit(circuits@, gate.circuit_id->0, circuits@.len() as int)
            is None ==> r == Err::<(), SimError>(
            SimError::UnknownCircuit { circuit_id: gate.circuit_id->0 },
        ),
        r is Ok ==> spec_gate_rel(
            old(statevector)@,
            final(statevector)@,
            old(measurements).entries@,
            final(measurements).entries@,
            *gate,
            take_hermitian_conjugate,
            qubit_start,
            qubit_count,
            circuits@,
            full_controls@,
            fuel as nat,
        ),
        r is Ok && spec_is_single_primitive(*gate) ==> exists|op: Op1|
            (spec_single_operator_fixed(gate.name@, take_hermitian_conjugate) matches Some(f)
                ==> op == f) && final(statevector)@ == #[trigger] spec_primitive1_effect(
                old(statevector)@,
                *gate,
                qubit_start,
                qubit_count,
                full_controls@,
                op,
            ),
        r is Ok && spec_is_double_primitive(*gate) ==> exists|op: Op2|
            (spec_double_operator_fixed(gate.name@, take_hermitian_conjugate) matches Some(f)
                ==> op == f) && final(statevector)@ == #[trigger] spec_primitive2_effect(
                old(statevector)@,
                *gate,
                qubit_start,
                qubit_count,
                full_controls@,
                op,
            ),
        r is Ok && spec_not_composite(*gate) && spec_is_measurement(*gate)
            && gate.targets@.len() == 1 ==> {
            let target = (gate.targets@[0] + qubit_start) as u8;
            let bit = spec_measured_bit(*gate, target);
            &&& bit < qubit_count
            &&& final(measurements).entries@ == old(measurements).entries@.update(
                target as int,
                Some(bit),
            )
        },
        r is Ok && spec_not_composite(*gate) && gate.name@ == "measure-z"@
            && gate.targets@.len() == 1 ==> {
            let cs = spec_combined_controls(
                full_controls@,
                gate.controls@,
                qubit_start,
                gate.controls@.len() as int,
            );
            final(statevector)@ == spec_rotations(
                spec_rotations(old(statevector)@, cs, qubit_count, cs.len() as int, false),
                cs,
                qubit_count,
                cs.len() as int,
                true,
            )
        },
        r is Ok && spec_not_composite(*gate) && (gate.name@ == "measure-x"@ || gate.name@
            == "measure-y"@) && gate.targets@.len() == 1 ==> exists|op: Op1|
            (spec_single_operator_fixed(gate.name@, take_hermitian_conjugate) matches Some(f)
                ==> op == f) && final(statevector)@ == #[trigger] spec_primitive1_effect(
                old(statevector)@,
                *gate,
                qubit_start,
                qubit_count,
                full_controls@,
                op,
            ),
        r is Ok && gate.name@ == "aggregate"@ ==> spec_aggregate_effect_rel(
            old(statevector)@,
            final(statevector)@,
            *gate,
            take_hermitian_conjugate,
            qubit_start,
            qubit_count,
            full_controls@,
        ),
        r is Ok && ((gate.name@ == "qft"@ && !take_hermitian_conjugate) || (gate.name@
            == "qft-dagger"@ && take_hermitian_conjugate)) ==> spec_qft_effect_rel(
            old(statevector)@,
            final(statevector)@,
            *gate,
            qubit_start,
            qubit_count,
            full_controls@,
            false,
        ),
        r is Ok && ((gate.name@ == "qft"@ && take_hermitian_conjugate) || (gate.name@
            == "qft-dagger"@ && !take_hermitian_conjugate)) ==> spec_qft_effect_rel(
            old(statevector)@,
            final(statevector)@,
            *gate,
            qubit_start,
            qubit_count,
            full_controls@,
            true,
        ),
    decreases fuel, 0int,
{
    proof {
        // the special gate names are pairwise distinct
        reveal_strlit("measure-x");
        reveal_strlit("measure-y");
        reveal_strlit("measure-z");
        reveal_strlit("barrier");
        reveal_strlit("aggregate");
        reveal_strlit("qft");
        reveal_strlit("qft-dagger");
        reveal_strlit("circuit");
        assert("measure-x"@[8] == 'x' && "measure-y"@[8] == 'y' && "measure-z"@[8] == 'z');
        assert("measure-x"@ != "measure-z"@);
        assert("measure-y"@ != "measure-z"@);
        assert("measure-x"@ != "measure-y"@);
        assert("aggregate"@.len() == 9 && "barrier"@.len() == 7 && "qft"@.len() == 3
            && "qft-dagger"@.len() == 10 && "circuit"@.len() == 7 && "measure-x"@.len() == 9
            && "measure-z"@.len() == 9);
        assert("aggregate"@[0] == 'a' && "measure-x"@[0] == 'm' && "measure-y"@[0] == 'm'
            && "measure-z"@[0] == 'm');
        assert("barrier"@[0] == 'b' && "circuit"@[0] == 'c');
        assert("aggregate"@ != "barrier"@ && "aggregate"@ != "qft"@ && "aggregate"@
            != "qft-dagger"@ && "aggregate"@ != "circuit"@ && "aggregate"@ != "measure-x"@
            && "aggregate"@ != "measure-y"@ && "aggregate"@ != "measure-z"@);
        assert("barrier"@ != "circuit"@ && "barrier"@ != "qft"@ && "barrier"@ != "qft-dagger"@
            && "barrier"@ != "measure-x"@ && "barrier"@ != "measure-y"@ && "barrier"@
            != "measure-z"@);
        assert("circuit"@ != "qft"@ && "circuit"@ != "qft-dagger"@ && "circuit"@ != "measure-x"@
            && "circuit"@ != "measure-y"@ && "circuit"@ != "measure-z"@);
        assert("qft"@ != "qft-dagger"@ && "qft"@ != "measure-x"@ && "qft"@ != "measure-y"@
            && "qft"@ != "measure-z"@ && "qft-dagger"@ != "measure-x"@ && "qft-dagger"@
            != "measure-y"@ && "qft-dagger"@ != "measure-z"@);
    }
    // barrier gates separate a drawing into regions and act on nothing
    if str_eq(gate.name.as_str(), "barrier") {
        return Ok(());
    }
    let mut actual_targets: Vec<u8> = Vec::new();
    let mut t: usize = 0;
    while t < gate.targets.len()
        invariant
            statevector@.len() == pow2(qubit_count as nat),
            qubit_count <= MAX_QUBIT_COUNT,
            map_wf(measurements.entries@, qubit_count),
            afected_qubits@.len() == qubit_count as nat,
            forall|q: int|
                0 <= q < qubit_count as nat && old(afected_qubits)@[q] ==> afected_qubits@[q],
            forall|k: int|
                0 <= k < t ==> ((#[trigger] gate.targets@[k]) + qubit_start < qubit_count
                    && afected_qubits@[(gate.targets@[k] + qubit_start) as int]),
            rcontrols_sorted(full_controls@),
            rcontrols_in_range(full_controls@, qubit_count),
            0 <= t <= gate.targets@.len(),
            gate.name@ != "barrier"@,
            statevector@ == old(statevector)@,
            measurements.entries@ == old(measurements).entries@,
            spec_check_targets(
                gate.targets@,
                qubit_start,
                qubit_count,
                old(measurements).entries@,
                old(afected_qubits)@,
                full_controls@,
                step,
                t as int,
            ) == Ok::<Seq<bool>, SimError>(afected_qubits@),
            actual_targets@.len() == t as nat,
            forall|k: int|
                0 <= k < t ==> actual_targets@[k] == ((#[trigger] gate.targets@[k] + qubit_start)
                    as u8),
            forall|j: int| 0 <= j < actual_targets@.len() ==> {
                &&& (#[trigger] actual_targets@[j]) < qubit_count
                &&& afected_qubits@[actual_targets@[j] as int]
                &&& rcontrols_avoid(full_controls@, actual_targets@[j])
            },
            forall|a: int, b: int|
                0 <= a < b < actual_targets@.len() ==> (#[trigger] actual_targets@[a])
                    != (#[trigger] actual_targets@[b]),
        decreases gate.targets@.len() - t,
    {
        let wide: u16 = gate.targets[t] as u16 + qubit_start as u16;
        if wide >= qubit_count as u16 {
            proof {
                lemma_precheck_err_propagates(
                    *gate,
                    qubit_start,
                    qubit_count,
                    old(measurements).entries@,
                    old(afected_qubits)@,
                    full_controls@,
                    step,
                    t + 1,
                );
            }
            return Err(SimError::QubitOutOfRange { qubit: wide, step });
        }
        let actual_target: u8 = wide as u8;
        if measurements.entries[actual_target as usize].is_some() {
            proof {
                lemma_precheck_err_propagates(
                    *gate,
                    qubit_start,
                    qubit_count,
                    old(measurements).entries@,
                    old(afected_qubits)@,
                    full_controls@,
                    step,
                    t + 1,
                );
            }
            return Err(SimError::QubitMeasured { qubit: actual_target, step });
        }
        if afected_qubits[actual_target as usize] {
            proof {
                lemma_precheck_err_propagates(
                    *gate,
                    qubit_start,
                    qubit_count,
                    old(measurements).entries@,
                    old(afected_qubits)@,
                    full_controls@,
                    step,
                    t + 1,
                );
            }
            return Err(SimError::QubitReused { qubit: actual_target, step });
        }
        if contains_target(full_controls, actual_target) {
            proof {
                lemma_precheck_err_propagates(
                    *gate,
                    qubit_start,
                    qubit_count,
                    old(measurements).entries@,
                    old(afected_qubits)@,
                    full_controls@,
                    step,
                    t + 1,
                );
            }
            return Err(SimError::QubitReused { qubit: actual_target, step });
        }
        afected_qubits[actual_target as usize] = true;
        actual_targets.push(actual_target);
        t += 1;
    }
    let ghost af_targets = afected_qubits@;
    proof {
        assert(spec_check_targets(
            gate.targets@,
            qubit_start,
            qubit_count,
            old(measurements).entries@,
            old(afected_qubits)@,
            full_controls@,
            step,
            gate.targets@.len() as int,
        ) == Ok::<Seq<bool>, SimError>(af_targets));
    }
    let mut combined = copy_controls(full_controls);
    let mut c: usize = 0;
    while c < gate.controls.len()
        invariant
            statevector@.len() == pow2(qubit_count as nat),
            qubit_count <= MAX_QUBIT_COUNT,
            map_wf(measurements.entries@, qubit_count),
            afected_qubits@.len() == qubit_count as nat,
            forall|q: int|
                0 <= q < qubit_count as nat && old(afected_qubits)@[q] ==> afected_qubits@[q],
            forall|k: int|
                0 <= k < gate.targets@.len() ==> ((#[trigger] gate.targets@[k]) + qubit_start
                    < qubit_count && afected_qubits@[(gate.targets@[k] + qubit_start) as int]),
            0 <= c <= gate.controls@.len(),
            gate.name@ != "barrier"@,
            statevector@ == old(statevector)@,
            measurements.entries@ == old(measurements).entries@,
            spec_check_targets(
                gate.targets@,
                qubit_start,
                qubit_count,
                old(measurements).entries@,
                old(afected_qubits)@,
                full_controls@,
                step,
                gate.targets@.len() as int,
            ) == Ok::<Seq<bool>, SimError>(af_targets),
            spec_check_controls(
                gate.controls@,
                qubit_start,
                qubit_count,
                old(measurements).entries@,
                Ok((af_targets, full_controls@)),
                step,
                c as int,
            ) == Ok::<(Seq<bool>, Seq<RControl>), SimError>((afected_qubits@, combined@)),
            actual_targets@.len() == gate.targets@.len(),
            forall|k: int|
                0 <= k < gate.targets@.len() ==> actual_targets@[k] == ((
                #[trigger] gate.targets@[k] + qubit_start) as u8),
            rcontrols_sorted(combined@),
            rcontrols_in_range(combined@, qubit_count),
            combined@ == spec_combined_controls(
                full_controls@,
                gate.controls@,
                qubit_start,
                c as int,
            ),
            forall|j: int| 0 <= j < actual_targets@.len() ==> {
                &&& (#[trigger] actual_targets@[j]) < qubit_count
                &&& afected_qubits@[actual_targets@[j] as int]
                &&& rcontrols_avoid(combined@, actual_targets@[j])
            },
            forall|a: int, b: int|
                0 <= a < b < actual_targets@.len() ==> (#[trigger] actual_targets@[a])
                    != (#[trigger] actual_targets@[b]),
        decreases gate.controls@.len() - c,
    {
        let control = &gate.controls[c];
        let wide: u16 = control.target as u16 + qubit_start as u16;
        if wide >= qubit_count as u16 {
            proof {
                lemma_precheck_err_propagates_controls(
                    *gate,
                    qubit_start,
                    qubit_count,
                    old(measurements).entries@,
                    old(afected_qubits)@,
                    full_controls@,
                    step,
                    af_targets,
                    c + 1,
                );
            }
            return Err(SimError::QubitOutOfRange { qubit: wide, step });
        }
        let actual_control: u8 = wide as u8;
        if measurements.entries[actual_control as usize].is_some() {
            proof {
                lemma_precheck_err_propagates_controls(
                    *gate,
                    qubit_start,
                    qubit_count,
                    old(measurements).entries@,
                    old(afected_qubits)@,
                    full_controls@,
                    step,
                    af_targets,
                    c + 1,
                );
            }
            return Err(SimError::QubitMeasured { qubit: actual_control, step });
        }
        if afected_qubits[actual_control as usize] {
            proof {
                lemma_precheck_err_propagates_controls(
                    *gate,
                    qubit_start,
                    qubit_count,
                    old(measurements).entries@,
                    old(afected_qubits)@,
                    full_controls@,
                    step,
                    af_targets,
                    c + 1,
                );
            }
            return Err(SimError::QubitReused { qubit: actual_control, step });
        }
        let kind = match parse_control_state(control.state.as_str()) {
            Some(kind) => kind,
            None => {
                proof {
                    lemma_precheck_err_propagates_controls(
                        *gate,
                        qubit_start,
                        qubit_count,
                        old(measurements).entries@,
                        old(afected_qubits)@,
                        full_controls@,
                        step,
                        af_targets,
                        c + 1,
                    );
                }
                return Err(SimError::UnknownControlState { step });
            },
        };
        afected_qubits[actual_control as usize] = true;
        let ok = insert_control(&mut combined, RControl { target: actual_control, kind });
        if !ok {
            proof {
                lemma_precheck_err_propagates_controls(
                    *gate,
                    qubit_start,
                    qubit_count,
                    old(measurements).entries@,
                    old(afected_qubits)@,
                    full_controls@,
                    step,
                    af_targets,
                    c + 1,
                );
            }
            return Err(SimError::QubitReused { qubit: actual_control, step });
        }
        c += 1;
    }
    let ghost precheck = spec_gate_precheck(
        *gate,
        qubit_start,
        qubit_count,
        old(measurements).entries@,
        old(afected_qubits)@,
        full_controls@,
        step,
    );
    if actual_targets.len() == 0 && gate.gates.len() == 0 {
        return Err(SimError::NoTargets { step });
    }
    let is_aggregate = str_eq(gate.name.as_str(), "aggregate");
    let is_qft = str_eq(gate.name.as_str(), "qft");
    let is_qft_dagger = str_eq(gate.name.as_str(), "qft-dagger");
    let is_circuit = str_eq(gate.name.as_str(), "circuit");
    if is_aggregate && actual_targets.len() > 1 {
        return Err(SimError::TooManyTargets { step });
    } else if !is_qft && !is_qft_dagger && !is_circuit && actual_targets.len() > 2 {
        return Err(SimError::TooManyTargets { step });
    }
    proof {
        assert(precheck == Ok::<(Seq<bool>, Seq<RControl>), SimError>((
            afected_qubits@,
            combined@,
        )));
    }
    rotate_single_qubit_states_to_match_control_states(statevector, &combined, qubit_count);
    let ghost sv_rot = statevector@;
    if is_circuit {
        let circuit_id = match gate.circuit_id {
            Some(id) => id,
            None => {
                return Err(SimError::MissingParameter { step });
            },
        };
        let circuit_power = match gate.circuit_power {
            Some(p) => p,
            None => {
                return Err(SimError::MissingParameter { step });
            },
        };
        if actual_targets.len() == 0 {
            return Err(SimError::NoTargets { step });
        }
        if fuel == 0 {
            return Err(SimError::NestingTooDeep);
        }
        let inner_start = actual_targets[0];
        let mut power: i64 = circuit_power as i64;
        if take_hermitian_conjugate {
            power = -power;
        }
        if power > 0 {
            let mut rep: i64 = 0;
            while rep < power
                invariant
                    statevector@.len() == pow2(qubit_count as nat),
                    map_wf(measurements.entries@, qubit_count),
                    afected_qubits@.len() == qubit_count as nat,
                    qubit_count <= MAX_QUBIT_COUNT,
                    rcontrols_sorted(combined@),
                    rcontrols_in_range(combined@, qubit_count),
                    fuel >= 1,
                    0 <= rep <= power,
                    precheck is Ok,
                    spec_reps_rel(
                        sv_rot,
                        statevector@,
                        old(measurements).entries@,
                        measurements.entries@,
                        circuit_id,
                        inner_start,
                        qubit_count,
                        circuits@,
                        combined@,
                        (fuel - 1) as nat,
                        rep as nat,
                        false,
                    ),
                    spec_no_measure_gates(circuits@) && spec_map_is_empty(
                        old(measurements).entries@,
                    ) ==> spec_map_is_empty(measurements.entries@),
                    rep > 0 ==> spec_find_circuit(
                        circuits@,
                        circuit_id,
                        circuits@.len() as int,
                    ) is Some,
                    precheck == spec_gate_precheck(
                        *gate,
                        qubit_start,
                        qubit_count,
                        old(measurements).entries@,
                        old(afected_qubits)@,
                        full_controls@,
                        step,
                    ),
                    gate.name@ == "circuit"@,
                    gate.name@ != "barrier"@ && gate.name@ != "qft"@ && gate.name@
                        != "qft-dagger"@ && gate.name@ != "aggregate"@ && gate.name@
                        != "measure-x"@ && gate.name@ != "measure-y"@ && gate.name@
                        != "measure-z"@,
                    gate.circuit_id == Some(circuit_id),
                    gate.circuit_power is Some,
                    gate.targets@.len() > 0,
                    power as int == (if take_hermitian_conjugate {
                        -(gate.circuit_power->0 as int)
                    } else {
                        gate.circuit_power->0 as int
                    }),
                    forall|q: int|
                        0 <= q < qubit_count as nat && old(afected_qubits)@[q] ==> afected_qubits@[q],
                    forall|k: int|
                        0 <= k < gate.targets@.len() ==> ((#[trigger] gate.targets@[k]) + qubit_start
                            < qubit_count && afected_qubits@[(gate.targets@[k] + qubit_start) as int]),
                decreases power - rep,
            {
                let ghost prev_sv = statevector@;
                let ghost prev_m = measurements.entries@;
                let res = apply_circuit_gate(
                    inner_start,
                    qubit_count,
                    circuits,
                    circuit_id,
                    &combined,
                    statevector,
                    measurements,
                    fuel - 1,
                );
                if let Err(e) = res {
                    return Err(e);
                }
                proof {
                    assert(spec_reps_rel(
                        sv_rot,
                        statevector@,
                        old(measurements).entries@,
                        measurements.entries@,
                        circuit_id,
                        inner_start,
                        qubit_count,
                        circuits@,
                        combined@,
                        (fuel - 1) as nat,
                        (rep + 1) as nat,
                        false,
                    )) by {
                        assert(spec_rel_witness(prev_sv, prev_m));
                        assert(spec_reps_rel(
                            sv_rot,
                            prev_sv,
                            old(measurements).entries@,
                            prev_m,
                            circuit_id,
                            inner_start,
                            qubit_count,
                            circuits@,
                            combined@,
                            (fuel - 1) as nat,
                            ((rep + 1) as nat - 1) as nat,
                            false,
                        ));
                        assert(spec_subcircuit_rel(
                            prev_sv,
                            statevector@,
                            prev_m,
                            measurements.entries@,
                            circuit_id,
                            inner_start,
                            qubit_count,
                            circuits@,
                            combined@,
                            (fuel - 1) as nat,
                            false,
                        ));
                    }
                }
                rep += 1;
            }
        } else {
            let reps: i64 = -power;
            let mut rep: i64 = 0;
            while rep < reps
                invariant
                    statevector@.len() == pow2(qubit_count as nat),
                    map_wf(measurements.entries@, qubit_count),
                    afected_qubits@.len() == qubit_count as nat,
                    qubit_count <= MAX_QUBIT_COUNT,
                    rcontrols_sorted(combined@),
                    rcontrols_in_range(combined@, qubit_count),
                    fuel >= 1,
                    0 <= rep <= reps,
                    precheck is Ok,
                    spec_reps_rel(
                        sv_rot,
                        statevector@,
                        old(measurements).entries@,
                        measurements.entries@,
                        circuit_id,
                        inner_start,
                        qubit_count,
                        circuits@,
                        combined@,
                        (fuel - 1) as nat,
                        rep as nat,
                        true,
                    ),
                    spec_no_measure_gates(circuits@) && spec_map_is_empty(
                        old(measurements).entries@,
                    ) ==> spec_map_is_empty(measurements.entries@),
                    rep > 0 ==> spec_find_circuit(
                        circuits@,
                        circuit_id,
                        circuits@.len() as int,
                    ) is Some,
                    precheck == spec_gate_precheck(
                        *gate,
                        qubit_start,
                        qubit_count,
                        old(measurements).entries@,
                        old(afected_qubits)@,
                        full_controls@,
                        step,
                    ),
                    gate.name@ == "circuit"@,
                    gate.name@ != "barrier"@ && gate.name@ != "qft"@ && gate.name@
                        != "qft-dagger"@ && gate.name@ != "aggregate"@ && gate.name@
                        != "measure-x"@ && gate.name@ != "measure-y"@ && gate.name@
                        != "measure-z"@,
                    gate.circuit_id == Some(circuit_id),
                    gate.circuit_power is Some,
                    gate.targets@.len() > 0,
                    reps as int == -(if take_hermitian_conjugate {
                        -(gate.circuit_power->0 as int)
                    } else {
                        gate.circuit_power->0 as int
                    }),
                    forall|q: int|
                        0 <= q < qubit_count as nat && old(afected_qubits)@[q] ==> afected_qubits@[q],
                    forall|k: int|
                        0 <= k < gate.targets@.len() ==> ((#[trigger] gate.targets@[k]) + qubit_start
                            < qubit_count && afected_qubits@[(gate.targets@[k] + qubit_start) as int]),
                decreases reps - rep,
            {
                let ghost prev_sv = statevector@;
                let ghost prev_m = measurements.entries@;
                let res = apply_reverse_circuit_gate(
                    inner_start,
                    qubit_count,
                    circuits,
                    circuit_id,
                    &combined,
                    statevector,
                    measurements,
                    fuel - 1,
                );
                if let Err(e) = res {
                    return Err(e);
                }
                proof {
                    assert(spec_reps_rel(
                        sv_rot,
                        statevector@,
                        old(measurements).entries@,
                        measurements.entries@,
                        circuit_id,
                        inner_start,
                        qubit_count,
                        circuits@,
                        combined@,
                        (fuel - 1) as nat,
                        (rep + 1) as nat,
                        true,
                    )) by {
                        assert(spec_rel_witness(prev_sv, prev_m));
                        assert(spec_reps_rel(
                            sv_rot,
                            prev_sv,
                            old(measurements).entries@,
                            prev_m,
                            circuit_id,
                            inner_start,
                            qubit_count,
                            circuits@,
                            combined@,
                            (fuel - 1) as nat,
                            ((rep + 1) as nat - 1) as nat,
                            true,
                        ));
                        assert(spec_subcircuit_rel(
                            prev_sv,
                            statevector@,
                            prev_m,
                            measurements.entries@,
                            circuit_id,
                            inner_start,
                            qubit_count,
                            circuits@,
                            combined@,
                            (fuel - 1) as nat,
                            true,
                        ));
                    }
                }
                rep += 1;
            }
        }
        let ghost sv_pre_undo = statevector@;
        undo_rotate_single_qubit_states_to_match_control_states(
            statevector,
            &combined,
            qubit_count,
        );
        proof {
            let powerspec = if take_hermitian_conjugate {
                -(gate.circuit_power->0 as int)
            } else {
                gate.circuit_power->0 as int
            };
            let repspec = (if powerspec >= 0 {
                powerspec
            } else {
                -powerspec
            }) as nat;
            assert(spec_reps_rel(
                sv_rot,
                sv_pre_undo,
                old(measurements).entries@,
                measurements.entries@,
                circuit_id,
                inner_start,
                qubit_count,
                circuits@,
                combined@,
                (fuel - 1) as nat,
                repspec,
                powerspec < 0,
            ));
            assert(statevector@ == spec_rotations(
                sv_pre_undo,
                combined@,
                qubit_count,
                combined@.len() as int,
                true,
            ));
            assert(spec_rel_witness(sv_pre_undo, old(measurements).entries@));
        }
        return Ok(());
    } else if is_aggregate {
        let ghost sv_rotated = statevector@;
        let ghost cs = combined@;
        let mut g: usize = 0;
        while g < gate.gates.len()
            invariant
                statevector@.len() == pow2(qubit_count as nat),
                map_wf(measurements.entries@, qubit_count),
                afected_qubits@.len() == qubit_count as nat,
                qubit_count <= MAX_QUBIT_COUNT,
                rcontrols_sorted(combined@),
                rcontrols_in_range(combined@, qubit_count),
                cs == combined@,
                precheck is Ok,
                measurements.entries@ == old(measurements).entries@,
                precheck == spec_gate_precheck(
                    *gate,
                    qubit_start,
                    qubit_count,
                    old(measurements).entries@,
                    old(afected_qubits)@,
                    full_controls@,
                    step,
                ),
                gate.name@ == "aggregate"@,
                gate.name@ != "barrier"@ && gate.name@ != "qft"@ && gate.name@ != "qft-dagger"@
                    && gate.name@ != "circuit"@ && gate.name@ != "measure-x"@ && gate.name@
                    != "measure-y"@ && gate.name@ != "measure-z"@,

                spec_aggregate_rel(
                    sv_rotated,
                    statevector@,
                    gate.gates@,
                    take_hermitian_conjugate,
                    qubit_start,
                    qubit_count,
                    cs,
                    g as int,
                ),
                0 <= g <= gate.gates@.len(),
                forall|q: int|
                    0 <= q < qubit_count as nat && old(afected_qubits)@[q] ==> afected_qubits@[q],
                forall|k: int|
                    0 <= k < gate.targets@.len() ==> ((#[trigger] gate.targets@[k]) + qubit_start
                        < qubit_count && afected_qubits@[(gate.targets@[k] + qubit_start) as int]),
            decreases gate.gates@.len() - g,
        {
            let aggregated = &gate.gates[g];
            if aggregated.targets.len() == 0 {
                return Err(SimError::NoTargets { step });
            }
            let mut at: usize = 0;
            let mut last_target: u8 = 0;
            while at < aggregated.targets.len()
                invariant
                    statevector@.len() == pow2(qubit_count as nat),
                    qubit_count <= MAX_QUBIT_COUNT,
                    map_wf(measurements.entries@, qubit_count),
                    afected_qubits@.len() == qubit_count as nat,
                    forall|q: int|
                        0 <= q < qubit_count as nat && old(afected_qubits)@[q] ==> afected_qubits@[q],
                    forall|k: int|
                        0 <= k < gate.targets@.len() ==> ((#[trigger] gate.targets@[k]) + qubit_start
                            < qubit_count && afected_qubits@[(gate.targets@[k] + qubit_start) as int]),
                    rcontrols_sorted(combined@),
                    rcontrols_in_range(combined@, qubit_count),
                    0 <= at <= aggregated.targets@.len(),
                    precheck is Ok,
                    measurements.entries@ == old(measurements).entries@,
                    precheck == spec_gate_precheck(
                        *gate,
                        qubit_start,
                        qubit_count,
                        old(measurements).entries@,
                        old(afected_qubits)@,
                        full_controls@,
                        step,
                    ),
                    gate.name@ == "aggregate"@,
                    gate.name@ != "barrier"@ && gate.name@ != "qft"@ && gate.name@ != "qft-dagger"@
                        && gate.name@ != "circuit"@ && gate.name@ != "measure-x"@ && gate.name@
                        != "measure-y"@ && gate.name@ != "measure-z"@,

                    at > 0 ==> last_target < qubit_count && rcontrols_avoid(
                        combined@,
                        last_target,
                    ),
                    at > 0 ==> last_target == ((aggregated.targets@[at - 1] + qubit_start) as u8),
                decreases aggregated.targets@.len() - at,
            {
                let wide: u16 = aggregated.targets[at] as u16 + qubit_start as u16;
                if wide >= qubit_count as u16 {
                    return Err(SimError::QubitOutOfRange { qubit: wide, step });
                }
                let actual: u8 = wide as u8;
                if measurements.entries[actual as usize].is_some() {
                    return Err(SimError::QubitMeasured { qubit: actual, step });
                }
                if afected_qubits[actual as usize] {
                    return Err(SimError::QubitReused { qubit: actual, step });
                }
                if contains_target(&combined, actual) {
                    return Err(SimError::QubitReused { qubit: actual, step });
                }
                afected_qubits[actual as usize] = true;
                last_target = actual;
                at += 1;
            }
            let op = match resolve_single_operator(
                aggregated.name.as_str(),
                aggregated.theta,
                aggregated.phi,
                aggregated.lambda,
                aggregated.root.as_ref(),
                take_hermitian_conjugate,
                step,
            ) {
                Ok(op) => op,
                Err(e) => {
                    return Err(e);
                },
            };
            proof {
                lemma_controls_len1(combined@, last_target, qubit_count);
                lemma_apply_operator_len(statevector@, op, last_target, combined@, qubit_count,
                    pow2((qubit_count - 1 - combined@.len()) as nat) as int);
            }
            apply_operator(op, statevector, last_target, &combined, qubit_count);
            proof {
                assert(last_target == spec_aggregated_target(gate.gates@[g as int], qubit_start));
                assert(spec_aggregate_rel(
                    sv_rotated,
                    statevector@,
                    gate.gates@,
                    take_hermitian_conjugate,
                    qubit_start,
                    qubit_count,
                    cs,
                    g + 1,
                ));
            }
            g += 1;
        }
        undo_rotate_single_qubit_states_to_match_control_states(
            statevector,
            &combined,
            qubit_count,
        );
        return Ok(());
    } else if is_qft {
        proof {
            assert(actual_targets@ =~= spec_mapped_targets(gate.targets@, qubit_start));
        }
        if take_hermitian_conjugate {
            apply_qft_dagger_gate(statevector, &actual_targets, &combined, qubit_count);
        } else {
            apply_qft_gate(statevector, &actual_targets, &combined, qubit_count);
        }
        undo_rotate_single_qubit_states_to_match_control_states(
            statevector,
            &combined,
            qubit_count,
        );
        return Ok(());
    } else if is_qft_dagger {
        proof {
            assert(actual_targets@ =~= spec_mapped_targets(gate.targets@, qubit_start));
        }
        if take_hermitian_conjugate {
            apply_qft_gate(statevector, &actual_targets, &combined, qubit_count);
        } else {
            apply_qft_dagger_gate(statevector, &actual_targets, &combined, qubit_count);
        }
        undo_rotate_single_qubit_states_to_match_control_states(
            statevector,
            &combined,
            qubit_count,
        );
        return Ok(());
    } else if actual_targets.len() == 2 {
        let op = match resolve_double_operator(
            gate.name.as_str(),
            gate.theta,
            gate.phi,
            gate.lambda,
            gate.root.as_ref(),
            take_hermitian_conjugate,
            step,
        ) {
            Ok(op) => op,
            Err(e) => {
                return Err(e);
            },
        };
        let t1 = actual_targets[0];
        let t2 = actual_targets[1];
        proof {
            lemma_controls_len2(combined@, t1, t2, qubit_count);
            lemma_apply_double_len(statevector@, op, t1, t2, combined@, qubit_count,
                pow2((qubit_count - 2 - combined@.len()) as nat) as int);
        }
        apply_double_target_operator(op, statevector, t1, t2, &combined, qubit_count);
        undo_rotate_single_qubit_states_to_match_control_states(
            statevector,
            &combined,
            qubit_count,
        );
        proof {
            assert(statevector@ == spec_primitive2_effect(
                old(statevector)@,
                *gate,
                qubit_start,
                qubit_count,
                full_controls@,
                op,
            ));
        }
        return Ok(());
    } else {
        if actual_targets.len() == 0 {
            return Err(SimError::NoTargets { step });
        }
        let target = actual_targets[0];
        let is_mx = str_eq(gate.name.as_str(), "measure-x");
        let is_my = !is_mx && str_eq(gate.name.as_str(), "measure-y");
        let is_mz = !is_mx && !is_my && str_eq(gate.name.as_str(), "measure-z");
        if is_mx || is_my || is_mz {
            let bit = match gate.bit {
                Some(bit) => bit,
                None => target,
            };
            if bit >= qubit_count {
                return Err(SimError::MeasurementBitOutOfRange { bit, qubit: target });
            }
            measurements.entries[target as usize] = Some(bit);
            if is_mz {
                // deferred measurement: a Z-basis read records the classical
                // bit and leaves the amplitudes alone
                undo_rotate_single_qubit_states_to_match_control_states(
                    statevector,
                    &combined,
                    qubit_count,
                );
                return Ok(());
            }
        }
        let op = match resolve_single_operator(
            gate.name.as_str(),
            gate.theta,
            gate.phi,
            gate.lambda,
            gate.root.as_ref(),
            take_hermitian_conjugate,
            step,
        ) {
            Ok(op) => op,
            Err(e) => {
                return Err(e);
            },
        };
        proof {
            lemma_controls_len1(combined@, target, qubit_count);
            lemma_apply_operator_len(statevector@, op, target, combined@, qubit_count,
                pow2((qubit_count - 1 - combined@.len()) as nat) as int);
        }
        apply_operator(op, statevector, target, &combined, qubit_count);
        undo_rotate_single_qubit_states_to_match_control_states(
            statevector,
            &combined,
            qubit_count,
        );
        proof {
            assert(statevector@ == spec_primitive1_effect(
                old(statevector)@,
                *gate,
                qubit_start,
                qubit_count,
                full_controls@,
                op,
            ));
        }
        return Ok(());
    }
}

/// Runs a named sub-circuit once at the given qubit offset, with the
/// accumulated controls applied to each of its gates.
fn apply_circuit_gate(
    qubit_start: u8,
    qubit_count: u8,
    circuits: &Vec<CircuitState>,
    circuit_id: i32,
    full_controls: &Vec<RControl>,
    statevector: &mut Vec<Amp>,
    measurements: &mut MeasurementMap,
    fuel: usize,
) -> (r: Result<(), SimError>)
    requires
        old(statevector)@.len() == pow2(qubit_count as nat),
        qubit_count <= MAX_QUBIT_COUNT,
        map_wf(old(measurements).entries@, qubit_count),
        rcontrols_sorted(full_controls@),
        rcontrols_in_range(full_controls@, qubit_count),
    ensures
        final(statevector)@.len() == pow2(qubit_count as nat),
        map_wf(final(measurements).entries@, qubit_count),
        spec_find_circuit(circuits@, circuit_id, circuits@.len() as int) is None ==> r == Err::<
            (),
            SimError,
        >(SimError::UnknownCircuit { circuit_id }),
        r is Ok ==> spec_find_circuit(circuits@, circuit_id, circuits@.len() as int) is Some,
        (spec_find_circuit(circuits@, circuit_id, circuits@.len() as int) matches Some(j)
            && circuits@[j].circuit.steps@.len() == 0) ==> r is Ok && final(statevector)@ == old(
            statevector,
        )@ && final(measurements).entries@ == old(measurements).entries@,
        spec_no_measure_gates(circuits@) && spec_map_is_empty(old(measurements).entries@)
            ==> spec_map_is_empty(final(measurements).entries@),
        r is Ok ==> spec_subcircuit_rel(
            old(statevector)@,
            final(statevector)@,
            old(measurements).entries@,
            final(measurements).entries@,
            circuit_id,
            qubit_start,
            qubit_count,
            circuits@,
            full_controls@,
            fuel as nat,
            false,
        ),
    decreases fuel, 1int,
{
    let found = match find_circuit(circuits, circuit_id) {
        Some(j) => j,
        None => {
            return Err(SimError::UnknownCircuit { circuit_id });
        },
    };
    let circuit = &circuits[found].circuit;
    let order = sorted_step_order(&circuit.steps);
    let mut k: usize = 0;
    while k < order.len()
        invariant
            statevector@.len() == pow2(qubit_count as nat),
            map_wf(measurements.entries@, qubit_count),
            qubit_count <= MAX_QUBIT_COUNT,
            rcontrols_sorted(full_controls@),
            rcontrols_in_range(full_controls@, qubit_count),
            circuit == &circuits@[found as int].circuit,
            found < circuits@.len(),
            spec_find_circuit(circuits@, circuit_id, circuits@.len() as int) == Some(found as int),
            order@.len() == circuit.steps@.len(),
            forall|j: int| 0 <= j < order@.len() ==> (#[trigger] order@[j]) < circuit.steps@.len(),
            0 <= k <= order@.len(),
            order@.len() == 0 ==> statevector@ == old(statevector)@ && measurements.entries@
                == old(measurements).entries@,
            spec_no_measure_gates(circuits@) && spec_map_is_empty(old(measurements).entries@)
                ==> spec_map_is_empty(measurements.entries@),
            spec_order_rel(
                old(statevector)@,
                statevector@,
                old(measurements).entries@,
                measurements.entries@,
                circuits@[found as int].circuit.steps@,
                order@,
                qubit_start,
                qubit_count,
                circuits@,
                full_controls@,
                fuel as nat,
                k as int,
                false,
            ),
        decreases order@.len() - k,
    {
        let ghost step_sv = statevector@;
        let ghost step_m = measurements.entries@;
        let step = &circuit.steps[order[k]];
        let mut afected_qubits: Vec<bool> = Vec::new();
        let mut f: usize = 0;
        while f < qubit_count as usize
            invariant
                0 <= f <= qubit_count as usize,
                afected_qubits@.len() == f,
            decreases qubit_count as usize - f,
        {
            afected_qubits.push(false);
            f += 1;
        }
        let mut g: usize = 0;
        while g < step.gates.len()
            invariant
                statevector@.len() == pow2(qubit_count as nat),
                map_wf(measurements.entries@, qubit_count),
                afected_qubits@.len() == qubit_count as nat,
                qubit_count <= MAX_QUBIT_COUNT,
                rcontrols_sorted(full_controls@),
                rcontrols_in_range(full_controls@, qubit_count),
                spec_find_circuit(circuits@, circuit_id, circuits@.len() as int) == Some(
                    found as int,
                ),
                found < circuits@.len(),
                circuits@[found as int].circuit.steps@.len() > 0,
                0 <= g <= step.gates@.len(),
                spec_no_measure_gates(circuits@) && spec_map_is_empty(old(measurements).entries@)
                    ==> spec_map_is_empty(measurements.entries@),
                step == circuits@[found as int].circuit.steps@[order@[k as int] as int],
                0 <= k < order@.len(),
                0 <= order@[k as int] < circuits@[found as int].circuit.steps@.len(),
                spec_step_rel(
                    step_sv,
                    statevector@,
                    step_m,
                    measurements.entries@,
                    step.gates@,
                    qubit_start,
                    qubit_count,
                    circuits@,
                    full_controls@,
                    fuel as nat,
                    g as int,
                    false,
                ),
                spec_order_rel(
                    old(statevector)@,
                    step_sv,
                    old(measurements).entries@,
                    step_m,
                    circuits@[found as int].circuit.steps@,
                    order@,
                    qubit_start,
                    qubit_count,
                    circuits@,
                    full_controls@,
                    fuel as nat,
                    k as int,
                    false,
                ),
            decreases step.gates@.len() - g,
        {
            proof {
                if spec_no_measure_gates(circuits@) {
                    assert(!spec_is_measurement(
                        circuits@[found as int].circuit.steps@[order@[k as int] as int].gates@[g as int],
                    ));
                }
            }
            let ghost prev_sv = statevector@;
            let ghost prev_m = measurements.entries@;
            let res = apply_generic_gate(
                &step.gates[g],
                false,
                step.index,
                qubit_start,
                qubit_count,
                circuits,
                full_controls,
                statevector,
                measurements,
                &mut afected_qubits,
                fuel,
            );
            if let Err(e) = res {
                return Err(e);
            }
            proof {
                assert(spec_step_rel(
                    step_sv,
                    statevector@,
                    step_m,
                    measurements.entries@,
                    step.gates@,
                    qubit_start,
                    qubit_count,
                    circuits@,
                    full_controls@,
                    fuel as nat,
                    g + 1,
                    false,
                )) by {
                    assert(spec_rel_witness(prev_sv, prev_m));
                    assert(spec_step_rel(
                        step_sv,
                        prev_sv,
                        step_m,
                        prev_m,
                        step.gates@,
                        qubit_start,
                        qubit_count,
                        circuits@,
                        full_controls@,
                        fuel as nat,
                        (g + 1) - 1,
                        false,
                    ));
                    assert(spec_gate_rel(
                        prev_sv,
                        statevector@,
                        prev_m,
                        measurements.entries@,
                        step.gates@[(g + 1) - 1],
                        false,
                        qubit_start,
                        qubit_count,
                        circuits@,
                        full_controls@,
                        fuel as nat,
                    ));
                }
            }
            g += 1;
        }
        proof {
            assert(spec_order_rel(
                old(statevector)@,
                statevector@,
                old(measurements).entries@,
                measurements.entries@,
                circuits@[found as int].circuit.steps@,
                order@,
                qubit_start,
                qubit_count,
                circuits@,
                full_controls@,
                fuel as nat,
                k + 1,
                false,
            )) by {
                assert(spec_rel_witness(step_sv, step_m));
                assert(spec_order_rel(
                    old(statevector)@,
                    step_sv,
                    old(measurements).entries@,
                    step_m,
                    circuits@[found as int].circuit.steps@,
                    order@,
                    qubit_start,
                    qubit_count,
                    circuits@,
                    full_controls@,
                    fuel as nat,
                    (k + 1) - 1,
                    false,
                ));
                assert(spec_step_rel(
                    step_sv,
                    statevector@,
                    step_m,
                    measurements.entries@,
                    circuits@[found as int].circuit.steps@[order@[(k + 1) - 1] as int].gates@,
                    qubit_start,
                    qubit_count,
                    circuits@,
                    full_controls@,
                    fuel as nat,
                    circuits@[found as int].circuit.steps@[order@[(k + 1) - 1] as int].gates@.len() as int,
                    false,
                ));
            }
        }
        k += 1;
    }
    proof {
        assert(spec_order_ok(order@, circuits@[found as int].circuit.steps@));
        assert(spec_order_witness(found as int, order@));
        assert(spec_subcircuit_rel(
            old(statevector)@,
            statevector@,
            old(measurements).entries@,
            measurements.entries@,
            circuit_id,
            qubit_start,
            qubit_count,
            circuits@,
            full_controls@,
            fuel as nat,
            false,
        ));
    }
    Ok(())
}

/// Runs a named sub-circuit backwards, conjugating every gate: the
/// hermitian adjoint of `apply_circuit_gate`.
fn apply_reverse_circuit_gate(
    qubit_start: u8,
    qubit_count: u8,
    circuits: &Vec<CircuitState>,
    circuit_id: i32,
    full_controls: &Vec<RControl>,
    statevector: &mut Vec<Amp>,
    measurements: &mut MeasurementMap,
    fuel: usize,
) -> (r: Result<(), SimError>)
    requires
        old(statevector)@.len() == pow2(qubit_count as nat),
        qubit_count <= MAX_QUBIT_COUNT,
        map_wf(old(measurements).entries@, qubit_count),
        rcontrols_sorted(full_controls@),
        rcontrols_in_range(full_controls@, qubit_count),
    ensures
        final(statevector)@.len() == pow2(qubit_count as nat),
        map_wf(final(measurements).entries@, qubit_count),
        spec_find_circuit(circuits@, circuit_id, circuits@.len() as int) is None ==> r == Err::<
            (),
            SimError,
        >(SimError::UnknownCircuit { circuit_id }),
        r is Ok ==> spec_find_circuit(circuits@, circuit_id, circuits@.len() as int) is Some,
        (spec_find_circuit(circuits@, circuit_id, circuits@.len() as int) matches Some(j)
            && circuits@[j].circuit.steps@.len() == 0) ==> r is Ok && final(statevector)@ == old(
            statevector,
        )@ && final(measurements).entries@ == old(measurements).entries@,
        spec_no_measure_gates(circuits@) && spec_map_is_empty(old(measurements).entries@)
            ==> spec_map_is_empty(final(measurements).entries@),
        r is Ok ==> spec_subcircuit_rel(
            old(statevector)@,
            final(statevector)@,
            old(measurements).entries@,
            final(measurements).entries@,
            circuit_id,
            qubit_start,
            qubit_count,
            circuits@,
            full_controls@,
            fuel as nat,
            true,
        ),
    decreases fuel, 1int,
{
    let found = match find_circuit(circuits, circuit_id) {
        Some(j) => j,
        None => {
            return Err(SimError::UnknownCircuit { circuit_id });
        },
    };
    let circuit = &circuits[found].circuit;
    let order = sorted_step_order(&circuit.steps);
    let mut k: usize = order.len();
    while k > 0
        invariant
            statevector@.len() == pow2(qubit_count as nat),
            map_wf(measurements.entries@, qubit_count),
            qubit_count <= MAX_QUBIT_COUNT,
            rcontrols_sorted(full_controls@),
            rcontrols_in_range(full_controls@, qubit_count),
            circuit == &circuits@[found as int].circuit,
            found < circuits@.len(),
            spec_find_circuit(circuits@, circuit_id, circuits@.len() as int) == Some(found as int),
            order@.len() == circuit.steps@.len(),
            forall|j: int| 0 <= j < order@.len() ==> (#[trigger] order@[j]) < circuit.steps@.len(),
            0 <= k <= order@.len(),
            order@.len() == 0 ==> statevector@ == old(statevector)@ && measurements.entries@
                == old(measurements).entries@,
            spec_no_measure_gates(circuits@) && spec_map_is_empty(old(measurements).entries@)
                ==> spec_map_is_empty(measurements.entries@),
            spec_order_rel(
                old(statevector)@,
                statevector@,
                old(measurements).entries@,
                measurements.entries@,
                circuits@[found as int].circuit.steps@,
                order@,
                qubit_start,
                qubit_count,
                circuits@,
                full_controls@,
                fuel as nat,
                order@.len() - k,
                true,
            ),
        decreases k,
    {
        let ghost step_sv = statevector@;
        let ghost step_m = measurements.entries@;
        let step = &circuit.steps[order[k - 1]];
        let mut afected_qubits: Vec<bool> = Vec::new();
        let mut f: usize = 0;
        while f < qubit_count as usize
            invariant
                0 <= f <= qubit_count as usize,
                afected_qubits@.len() == f,
            decreases qubit_count as usize - f,
        {
            afected_qubits.push(false);
            f += 1;
        }
        let mut g: usize = step.gates.len();
        while g > 0
            invariant
                statevector@.len() == pow2(qubit_count as nat),
                map_wf(measurements.entries@, qubit_count),
                afected_qubits@.len() == qubit_count as nat,
                qubit_count <= MAX_QUBIT_COUNT,
                rcontrols_sorted(full_controls@),
                rcontrols_in_range(full_controls@, qubit_count),
                spec_find_circuit(circuits@, circuit_id, circuits@.len() as int) == Some(
                    found as int,
                ),
                found < circuits@.len(),
                circuits@[found as int].circuit.steps@.len() > 0,
                0 <= g <= step.gates@.len(),
                spec_no_measure_gates(circuits@) && spec_map_is_empty(old(measurements).entries@)
                    ==> spec_map_is_empty(measurements.entries@),
                step == circuits@[found as int].circuit.steps@[order@[k as int - 1] as int],
                0 < k <= order@.len(),
                0 <= order@[k as int - 1] < circuits@[found as int].circuit.steps@.len(),
                spec_step_rel(
                    step_sv,
                    statevector@,
                    step_m,
                    measurements.entries@,
                    step.gates@,
                    qubit_start,
                    qubit_count,
                    circuits@,
                    full_controls@,
                    fuel as nat,
                    step.gates@.len() - g,
                    true,
                ),
                spec_order_rel(
                    old(statevector)@,
                    step_sv,
                    old(measurements).entries@,
                    step_m,
                    circuits@[found as int].circuit.steps@,
                    order@,
                    qubit_start,
                    qubit_count,
                    circuits@,
                    full_controls@,
                    fuel as nat,
                    order@.len() - k,
                    true,
                ),
            decreases g,
        {
            proof {
                if spec_no_measure_gates(circuits@) {
                    assert(!spec_is_measurement(
                        circuits@[found as int].circuit.steps@[order@[k as int - 1] as int].gates@[g as int
                            - 1],
                    ));
                }
            }
            let ghost prev_sv = statevector@;
            let ghost prev_m = measurements.entries@;
            let res = apply_generic_gate(
                &step.gates[g - 1],
                true,
                step.index,
                qubit_start,
                qubit_count,
                circuits,
                full_controls,
                statevector,
                measurements,
                &mut afected_qubits,
                fuel,
            );
            if let Err(e) = res {
                return Err(e);
            }
            proof {
                let ghost glen = step.gates@.len() as int;
                assert(spec_step_rel(
                    step_sv,
                    statevector@,
                    step_m,
                    measurements.entries@,
                    step.gates@,
                    qubit_start,
                    qubit_count,
                    circuits@,
                    full_controls@,
                    fuel as nat,
                    glen - (g - 1),
                    true,
                )) by {
                    assert(spec_rel_witness(prev_sv, prev_m));
                    assert(spec_step_rel(
                        step_sv,
                        prev_sv,
                        step_m,
                        prev_m,
                        step.gates@,
                        qubit_start,
                        qubit_count,
                        circuits@,
                        full_controls@,
                        fuel as nat,
                        (glen - (g - 1)) - 1,
                        true,
                    ));
                    assert(spec_gate_rel(
                        prev_sv,
                        statevector@,
                        prev_m,
                        measurements.entries@,
                        step.gates@[glen - (glen - (g - 1))],
                        true,
                        qubit_start,
                        qubit_count,
                        circuits@,
                        full_controls@,
                        fuel as nat,
                    ));
                }
            }
            g -= 1;
        }
        proof {
            let ghost done = order@.len() - (k - 1);
            assert(spec_order_rel(
                old(statevector)@,
                statevector@,
                old(measurements).entries@,
                measurements.entries@,
                circuits@[found as int].circuit.steps@,
                order@,
                qubit_start,
                qubit_count,
                circuits@,
                full_controls@,
                fuel as nat,
                done,
                true,
            )) by {
                assert(spec_rel_witness(step_sv, step_m));
                assert(spec_order_rel(
                    old(statevector)@,
                    step_sv,
                    old(measurements).entries@,
                    step_m,
                    circuits@[found as int].circuit.steps@,
                    order@,
                    qubit_start,
                    qubit_count,
                    circuits@,
                    full_controls@,
                    fuel as nat,
                    done - 1,
                    true,
                ));
                assert(order@.len() - done == k - 1);
                assert(spec_step_rel(
                    step_sv,
                    statevector@,
                    step_m,
                    measurements.entries@,
                    circuits@[found as int].circuit.steps@[order@[order@.len() - done] as int].gates@,
                    qubit_start,
                    qubit_count,
                    circuits@,
                    full_controls@,
                    fuel as nat,
                    circuits@[found as int].circuit.steps@[order@[order@.len() - done] as int].gates@.len() as int,
                    true,
                ));
            }
        }
        k -= 1;
    }
    proof {
        assert(spec_order_ok(order@, circuits@[found as int].circuit.steps@));
        assert(spec_order_witness(found as int, order@));
        assert(spec_subcircuit_rel(
            old(statevector)@,
            statevector@,
            old(measurements).entries@,
            measurements.entries@,
            circuit_id,
            qubit_start,
            qubit_count,
            circuits@,
            full_controls@,
            fuel as nat,
            true,
        ));
    }
    Ok(())
}

/// Evolves the fresh statevector |0...0> through the named circuit and
/// returns it together with the measurement map the circuit built.  Any
/// structural fault of the circuit is reported instead, leaving no
/// partial result.
pub fn get_final_statevector(
    circuits: &Vec<CircuitState>,
    current_circuit_id: i32,
    qubit_count: u8,
) -> (r: Result<(Vec<Amp>, MeasurementMap), SimError>)
    requires
        qubit_count <= MAX_QUBIT_COUNT,
    ensures
        (r matches Ok(p) ==> p.0@.len() == pow2(qubit_count as nat) && map_wf(
            p.1.entries@,
            qubit_count,
        )),
        spec_find_circuit(circuits@, current_circuit_id, circuits@.len() as int) is None ==> r
            == Err::<(Vec<Amp>, MeasurementMap), SimError>(
            SimError::UnknownCircuit { circuit_id: current_circuit_id },
        ),
        (r matches Ok(p) ==> spec_find_circuit(
            circuits@,
            current_circuit_id,
            circuits@.len() as int,
        ) is Some),
        spec_no_measure_gates(circuits@) ==> (r matches Ok(p) ==> spec_map_is_empty(
            p.1.entries@,
        )),
        (spec_find_circuit(circuits@, current_circuit_id, circuits@.len() as int) matches Some(j)
            && circuits@[j].circuit.steps@.len() == 0) ==> (r matches Ok(p) && p.0@.len() == pow2(
            qubit_count as nat,
        ) && p.0@[0] == (Amp { re: B_ONE, im: B_ZERO }) && (forall|k: int|
            0 < k < p.0@.len() ==> (#[trigger] p.0@[k]) == (Amp { re: B_ZERO, im: B_ZERO }))
            && spec_map_is_empty(p.1.entries@)),
        (r matches Ok(p) ==> spec_subcircuit_rel(
            spec_initial_statevector(qubit_count),
            p.0@,
            spec_empty_map(qubit_count),
            p.1.entries@,
            current_circuit_id,
            0,
            qubit_count,
            circuits@,
            Seq::<RControl>::empty(),
            circuits@.len() as nat,
            false,
        )),
{
    let mut statevector = make_statevector(qubit_count);
    let mut measurements = MeasurementMap::new(qubit_count);
    proof {
        assert(statevector@ =~= spec_initial_statevector(qubit_count));
        assert(measurements.entries@ =~= spec_empty_map(qubit_count));
    }
    let no_controls: Vec<RControl> = Vec::new();
    let fuel: usize = circuits.len();
    let res = apply_circuit_gate(
        0,
        qubit_count,
        circuits,
        current_circuit_id,
        &no_controls,
        &mut statevector,
        &mut measurements,
        fuel,
    );
    proof {
        assert(no_controls@ =~= Seq::<RControl>::empty());
    }
    match res {
        Ok(()) => Ok((statevector, measurements)),
        Err(e) => Err(e),
    }
}


/// The compact index of a full index `j` whose bit `p` is clear: drops
/// bit `p`, the inverse of `insert_zero_bit`.
pub open spec fn remove_bit(j: nat, p: nat) -> nat {
    (j / pow2(p + 1)) * pow2(p) + j % pow2(p)
}

/// Inserting a zero bit yields an index whose bit `p` is clear, and
/// removing that bit gives the compact index back.
proof fn lemma_remove_insert(i: nat, p: nat)
    ensures
        crate::addressing::nth_bit(insert_zero_bit(i, p), p) == 0,
        remove_bit(insert_zero_bit(i, p), p) == i,
{
    let d = i / pow2(p);
    let m = i % pow2(p);
    let x = insert_zero_bit(i, p);
    lemma_pow2_pos(p);
    lemma_pow2_pos(p + 1);
    lemma_pow2_adds(p, 1);
    lemma2_to64();
    vstd::arithmetic::div_mod::lemma_fundamental_div_mod(i as int, pow2(p) as int);
    vstd::arithmetic::div_mod::lemma_mod_bound(i as int, pow2(p) as int);
    assert(x == d * pow2(p + 1) + m);
    assert(x / pow2(p) == 2 * d && x % pow2(p) == m && x / pow2(p + 1) == d) by (nonlinear_arith)
        requires
            x == d * pow2(p + 1) + m,
            pow2(p + 1) == 2 * pow2(p),
            0 <= m < pow2(p),
            pow2(p) > 0,
    {
        vstd::arithmetic::div_mod::lemma_fundamental_div_mod_converse(
            x as int,
            pow2(p) as int,
            2 * d as int,
            m as int,
        );
        vstd::arithmetic::div_mod::lemma_fundamental_div_mod_converse(
            x as int,
            pow2(p + 1) as int,
            d as int,
            m as int,
        );
    }
}

/// An index whose bit `p` is clear is the insertion of its own compact
/// index, its partner with bit `p` set stays inside the register, and the
/// compact index stays inside the compact space.
proof fn lemma_insert_remove(j: nat, p: nat, n: nat)
    requires
        crate::addressing::nth_bit(j, p) == 0,
        p < n,
        j < pow2(n),
    ensures
        insert_zero_bit(remove_bit(j, p), p) == j,
        j + pow2(p) < pow2(n),
        crate::addressing::nth_bit((j + pow2(p)) as nat, p) == 1,
        remove_bit(j, p) < pow2((n - 1) as nat),
{
    let a = j / pow2(p + 1);
    let r = j % pow2(p + 1);
    lemma_pow2_pos(p);
    lemma_pow2_pos(p + 1);
    lemma_pow2_adds(p, 1);
    lemma2_to64();
    vstd::arithmetic::div_mod::lemma_fundamental_div_mod(j as int, pow2(p + 1) as int);
    vstd::arithmetic::div_mod::lemma_mod_bound(j as int, pow2(p + 1) as int);
    // bit p of j clear means the remainder below 2^(p+1) is below 2^p
    assert(r < pow2(p)) by (nonlinear_arith)
        requires
            j == a * pow2(p + 1) + r,
            0 <= r < pow2(p + 1),
            pow2(p + 1) == 2 * pow2(p),
            pow2(p) > 0,
            (j / pow2(p)) % 2 == 0,
    {
        if r >= pow2(p) {
            vstd::arithmetic::div_mod::lemma_fundamental_div_mod_converse(
                j as int,
                pow2(p) as int,
                (2 * a + 1) as int,
                (r - pow2(p)) as int,
            );
        }
    }
    assert(j % pow2(p) == r && j / pow2(p) == 2 * a) by (nonlinear_arith)
        requires
            j == a * pow2(p + 1) + r,
            0 <= r < pow2(p),
            pow2(p + 1) == 2 * pow2(p),
            pow2(p) > 0,
    {
        vstd::arithmetic::div_mod::lemma_fundamental_div_mod_converse(
            j as int,
            pow2(p) as int,
            (2 * a) as int,
            r as int,
        );
    }
    let c = remove_bit(j, p);
    assert(c == a * pow2(p) + r);
    assert(c / pow2(p) == a && c % pow2(p) == r) by (nonlinear_arith)
        requires
            c == a * pow2(p) + r,
            0 <= r < pow2(p),
            pow2(p) > 0,
    {
        vstd::arithmetic::div_mod::lemma_fundamental_div_mod_converse(
            c as int,
            pow2(p) as int,
            a as int,
            r as int,
        );
    }
    assert(insert_zero_bit(c, p) == a * pow2(p + 1) + r);
    // the partner and the compact index stay in range
    lemma_pow2_adds((n - p - 1) as nat, p + 1);
    assert(a < pow2((n - p - 1) as nat)) by (nonlinear_arith)
        requires
            j == a * pow2(p + 1) + r,
            j < pow2(n),
            pow2(n) == pow2((n - p - 1) as nat) * pow2(p + 1),
            0 <= r,
            pow2(p + 1) > 0,
    {}
    assert(j + pow2(p) < pow2(n)) by (nonlinear_arith)
        requires
            j == a * pow2(p + 1) + r,
            a + 1 <= pow2((n - p - 1) as nat),
            r < pow2(p),
            pow2(p + 1) == 2 * pow2(p),
            pow2(n) == pow2((n - p - 1) as nat) * pow2(p + 1),
            pow2(p) > 0,
    {
        assert(j + pow2(p) < (a + 1) * pow2(p + 1));
        assert((a + 1) * pow2(p + 1) <= pow2((n - p - 1) as nat) * pow2(p + 1));
    }
    assert((j + pow2(p)) / pow2(p) == 2 * a + 1) by (nonlinear_arith)
        requires
            j == a * pow2(p + 1) + r,
            0 <= r < pow2(p),
            pow2(p + 1) == 2 * pow2(p),
            pow2(p) > 0,
    {
        vstd::arithmetic::div_mod::lemma_fundamental_div_mod_converse(
            (j + pow2(p)) as int,
            pow2(p) as int,
            (2 * a + 1) as int,
            r as int,
        );
    }
    lemma_pow2_adds((n - p - 1) as nat, p);
    lemma_pow2_subtracts_helper(p, n);
    assert(c < pow2((n - 1) as nat)) by (nonlinear_arith)
        requires
            c == a * pow2(p) + r,
            a + 1 <= pow2((n - p - 1) as nat),
            r < pow2(p),
            pow2((n - 1) as nat) == pow2((n - p - 1) as nat) * pow2(p),
            pow2(p) > 0,
    {
        assert(c < (a + 1) * pow2(p));
        assert((a + 1) * pow2(p) <= pow2((n - p - 1) as nat) * pow2(p));
    }
}

/// `pow2(n - 1)` splits as `pow2(n - p - 1) * pow2(p)`.
proof fn lemma_pow2_subtracts_helper(p: nat, n: nat)
    requires
        p < n,
    ensures
        pow2((n - 1) as nat) == pow2((n - p - 1) as nat) * pow2(p),
{
    lemma_pow2_adds((n - p - 1) as nat, p);
}

/// Distinct compact indices produce disjoint pairs.
proof fn lemma_insert_injective(i1: nat, i2: nat, p: nat)
    requires
        insert_zero_bit(i1, p) == insert_zero_bit(i2, p),
    ensures
        i1 == i2,
{
    lemma_remove_insert(i1, p);
    lemma_remove_insert(i2, p);
}

/// What the single-target kernel leaves at one coupled pair after its
/// first `k` iterations: the 2x2 rows over the original amplitudes once
/// the pair's compact index has been processed, the original amplitudes
/// before that.
proof fn lemma_apply_operator_loop_pointwise(
    sv: Seq<Amp>,
    op: Op1,
    target: u8,
    n: u8,
    k: int,
    j: nat,
)
    requires
        sv.len() == pow2(n as nat),
        n <= MAX_QUBIT_COUNT,
        target < n,
        j < pow2(n as nat),
        crate::addressing::nth_bit(j, reversed_position(target, n)) == 0,
        0 <= k <= pow2((n - 1) as nat),
    ensures
        ({
            let p = reversed_position(target, n);
            let x = spec_apply_operator_loop(sv, op, target, Seq::empty(), n, k);
            let partner = (j + pow2(p)) as nat;
            if remove_bit(j, p) < k {
                x[j as int] == spec_cadd(
                    spec_cmul(op.m00, sv[j as int]),
                    spec_cmul(op.m01, sv[partner as int]),
                ) && x[partner as int] == spec_cadd(
                    spec_cmul(op.m10, sv[j as int]),
                    spec_cmul(op.m11, sv[partner as int]),
                )
            } else {
                x[j as int] == sv[j as int] && x[partner as int] == sv[partner as int]
            }
        }),
    decreases k,
{
    let p = reversed_position(target, n);
    lemma_insert_remove(j, p, n as nat);
    lemma_pow2_pos(p);
    if k > 0 {
        lemma_apply_operator_loop_pointwise(sv, op, target, n, k - 1, j);
        lemma_apply_operator_len(sv, op, target, Seq::empty(), n, k - 1);
        let i = (k - 1) as nat;
        let affected = spec_narrow1(i, Seq::empty(), 0, target, n);
        assert(affected == i);
        let pair = spec_get_indexes(i, target, n);
        lemma_remove_insert(i, p);
        lemma_narrow1_bound(i, Seq::empty(), 0, target, n);
        lemma_get_indexes_bounds(i, target, n);
        lemma_insert_remove(pair.0, p, n as nat);
        assert(pair.0 == insert_zero_bit(i, p));
        assert(pair.1 == pair.0 + pow2(p));
        if remove_bit(j, p) == i {
            assert(pair.0 == j);
            assert(pair.1 == j + pow2(p));
        } else {
            // the processed pair is disjoint from j's pair
            assert(pair.0 != j);
            assert(pair.1 != j + pow2(p));
            // pair.0 has bit p clear while j's partner has it set
            assert(crate::addressing::nth_bit(pair.0, p) == 0);
            assert(crate::addressing::nth_bit((j + pow2(p)) as nat, p) == 1);
            assert(pair.0 != j + pow2(p));
            assert(crate::addressing::nth_bit(pair.1, p) == 1);
            assert(pair.1 != j);
        }
    }
}

/// The single-qubit kernel, run without controls, acts exactly as the
/// 2x2 operator on every coupled amplitude pair: the pair of any full
/// index with a clear target bit is replaced by the operator's rows over
/// its two old amplitudes, and every amplitude belongs to exactly one
/// such pair.
pub proof fn lemma_apply_operator_pointwise(sv: Seq<Amp>, op: Op1, target: u8, n: u8, j: nat)
    requires
        sv.len() == pow2(n as nat),
        n <= MAX_QUBIT_COUNT,
        target < n,
        j < pow2(n as nat),
        crate::addressing::nth_bit(j, reversed_position(target, n)) == 0,
    ensures
        ({
            let p = reversed_position(target, n);
            let x = spec_apply_operator(sv, op, target, Seq::empty(), n);
            let partner = j + pow2(p);
            &&& partner < pow2(n as nat)
            &&& x[j as int] == spec_cadd(
                spec_cmul(op.m00, sv[j as int]),
                spec_cmul(op.m01, sv[partner as int]),
            )
            &&& x[partner as int] == spec_cadd(
                spec_cmul(op.m10, sv[j as int]),
                spec_cmul(op.m11, sv[partner as int]),
            )
        }),
{
    let p = reversed_position(target, n);
    lemma_insert_remove(j, p, n as nat);
    lemma_apply_operator_loop_pointwise(sv, op, target, n, pow2((n - 1) as nat) as int, j);
}

} // verus!
