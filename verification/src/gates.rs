//! The catalogue of gates: the unitary matrix of each named gate.
//!
//! Matrices hold amplitudes as IEEE-754 bit patterns (see `complex`).
//! Constant gates have exact bit patterns and a spec twin that states the
//! whole matrix.  Gates parametrized by an angle or a root go through the
//! platform-dependent trigonometric calls, of which nothing is promised:
//! their contracts state the matrix's fixed entries and its shape — which
//! entries coincide, which are negations of which — but not the
//! trigonometric values themselves.

use vstd::prelude::*;

verus! {

use crate::complex::{
    Amp,
    B_ZERO, B_ONE, B_MINUS_ONE, B_HALF, B_NEG_HALF, B_TWO, B_THREE, B_FOUR, B_EIGHT,
    B_PI, B_FRAC_1_SQRT_2, B_NEG_FRAC_1_SQRT_2,
    spec_fneg, spec_fadd, spec_fsub, spec_fmul, spec_fdiv,
    spec_cneg, spec_cmul,
    fneg, fadd, fsub, fmul, fdiv, fcos, fsin, cneg, cmul,
};

/// A single-qubit operator: a 2x2 complex matrix, row major.
#[derive(Clone, Copy, PartialEq, Eq, Structural, Debug)]
pub struct Op1 {
    pub m00: Amp,
    pub m01: Amp,
    pub m10: Amp,
    pub m11: Amp,
}

/// A two-qubit operator: a 4x4 complex matrix, row major.
#[derive(Clone, Copy, PartialEq, Eq, Structural, Debug)]
pub struct Op2 {
    pub m00: Amp, pub m01: Amp, pub m02: Amp, pub m03: Amp,
    pub m10: Amp, pub m11: Amp, pub m12: Amp, pub m13: Amp,
    pub m20: Amp, pub m21: Amp, pub m22: Amp, pub m23: Amp,
    pub m30: Amp, pub m31: Amp, pub m32: Amp, pub m33: Amp,
}

/// Builds `cos a + i sin a`, which is `exp(i a)` for a real angle.  The
/// trigonometric results are platform-dependent, so the value is not
/// pinned.
pub(crate) fn expi(a: u32) -> Amp {
    Amp { re: fcos(a), im: fsin(a) }
}

/// The amplitude scaled componentwise by the real factor `s`.
pub open spec fn spec_scale(a: Amp, s: u32) -> Amp {
    Amp { re: spec_fmul(a.re, s), im: spec_fmul(a.im, s) }
}

/// Scales an amplitude componentwise by a real factor.
pub(crate) fn amp_scale(a: Amp, s: u32) -> (r: Amp)
    ensures
        r == spec_scale(a, s),
{
    Amp { re: fmul(a.re, s), im: fmul(a.im, s) }
}

/// The matrix of the identity, as `identity` builds it.
pub open spec fn spec_identity() -> Op1 {
    Op1 {
        m00: Amp { re: B_ONE, im: B_ZERO },
        m01: Amp { re: B_ZERO, im: B_ZERO },
        m10: Amp { re: B_ZERO, im: B_ZERO },
        m11: Amp { re: B_ONE, im: B_ZERO },
    }
}

/// Builds the matrix of the identity.
pub fn identity() -> (r: Op1)
    ensures
        r == spec_identity(),
{
    Op1 {
        m00: Amp { re: B_ONE, im: B_ZERO },
        m01: Amp { re: B_ZERO, im: B_ZERO },
        m10: Amp { re: B_ZERO, im: B_ZERO },
        m11: Amp { re: B_ONE, im: B_ZERO },
    }
}

/// The matrix of the Pauli X gate, as `pauli_x` builds it.
pub open spec fn spec_pauli_x() -> Op1 {
    Op1 {
        m00: Amp { re: B_ZERO, im: B_ZERO },
        m01: Amp { re: B_ONE, im: B_ZERO },
        m10: Amp { re: B_ONE, im: B_ZERO },
        m11: Amp { re: B_ZERO, im: B_ZERO },
    }
}

/// Builds the matrix of the Pauli X gate.
pub fn pauli_x() -> (r: Op1)
    ensures
        r == spec_pauli_x(),
{
    Op1 {
        m00: Amp { re: B_ZERO, im: B_ZERO },
        m01: Amp { re: B_ONE, im: B_ZERO },
        m10: Amp { re: B_ONE, im: B_ZERO },
        m11: Amp { re: B_ZERO, im: B_ZERO },
    }
}

/// The matrix of the Pauli Y gate, as `pauli_y` builds it.
pub open spec fn spec_pauli_y() -> Op1 {
    Op1 {
        m00: Amp { re: B_ZERO, im: B_ZERO },
        m01: Amp { re: B_ZERO, im: B_MINUS_ONE },
        m10: Amp { re: B_ZERO, im: B_ONE },
        m11: Amp { re: B_ZERO, im: B_ZERO },
    }
}

/// Builds the matrix of the Pauli Y gate.
pub fn pauli_y() -> (r: Op1)
    ensures
        r == spec_pauli_y(),
{
    Op1 {
        m00: Amp { re: B_ZERO, im: B_ZERO },
        m01: Amp { re: B_ZERO, im: B_MINUS_ONE },
        m10: Amp { re: B_ZERO, im: B_ONE },
        m11: Amp { re: B_ZERO, im: B_ZERO },
    }
}

/// The matrix of the Pauli Z gate, as `pauli_z` builds it.
pub open spec fn spec_pauli_z() -> Op1 {
    Op1 {
        m00: Amp { re: B_ONE, im: B_ZERO },
        m01: Amp { re: B_ZERO, im: B_ZERO },
        m10: Amp { re: B_ZERO, im: B_ZERO },
        m11: Amp { re: B_MINUS_ONE, im: B_ZERO },
    }
}

/// Builds the matrix of the Pauli Z gate.
pub fn pauli_z() -> (r: Op1)
    ensures
        r == spec_pauli_z(),
{
    Op1 {
        m00: Amp { re: B_ONE, im: B_ZERO },
        m01: Amp { re: B_ZERO, im: B_ZERO },
        m10: Amp { re: B_ZERO, im: B_ZERO },
        m11: Amp { re: B_MINUS_ONE, im: B_ZERO },
    }
}

/// The matrix of the axis-cycling C gate, as `c_gate` builds it.
pub open spec fn spec_c_gate() -> Op1 {
    Op1 {
        m00: Amp { re: B_HALF, im: B_NEG_HALF },
        m01: Amp { re: B_NEG_HALF, im: B_NEG_HALF },
        m10: Amp { re: B_HALF, im: B_NEG_HALF },
        m11: Amp { re: B_HALF, im: B_HALF },
    }
}

/// Builds the matrix of the axis-cycling C gate.
pub fn c_gate() -> (r: Op1)
    ensures
        r == spec_c_gate(),
{
    Op1 {
        m00: Amp { re: B_HALF, im: B_NEG_HALF },
        m01: Amp { re: B_NEG_HALF, im: B_NEG_HALF },
        m10: Amp { re: B_HALF, im: B_NEG_HALF },
        m11: Amp { re: B_HALF, im: B_HALF },
    }
}

/// The matrix of the adjoint of the C gate, as `c_dagger` builds it.
pub open spec fn spec_c_dagger() -> Op1 {
    Op1 {
        m00: Amp { re: B_HALF, im: B_HALF },
        m01: Amp { re: B_HALF, im: B_HALF },
        m10: Amp { re: B_NEG_HALF, im: B_HALF },
        m11: Amp { re: B_HALF, im: B_NEG_HALF },
    }
}

/// Builds the matrix of the adjoint of the C gate.
pub fn c_dagger() -> (r: Op1)
    ensures
        r == spec_c_dagger(),
{
    Op1 {
        m00: Amp { re: B_HALF, im: B_HALF },
        m01: Amp { re: B_HALF, im: B_HALF },
        m10: Amp { re: B_NEG_HALF, im: B_HALF },
        m11: Amp { re: B_HALF, im: B_NEG_HALF },
    }
}

/// The matrix of the Hadamard gate, as `hadamard` builds it.
pub open spec fn spec_hadamard() -> Op1 {
    Op1 {
        m00: Amp { re: B_FRAC_1_SQRT_2, im: B_ZERO },
        m01: Amp { re: B_FRAC_1_SQRT_2, im: B_ZERO },
        m10: Amp { re: B_FRAC_1_SQRT_2, im: B_ZERO },
        m11: Amp { re: B_NEG_FRAC_1_SQRT_2, im: B_ZERO },
    }
}

/// Builds the matrix of the Hadamard gate.
pub fn hadamard() -> (r: Op1)
    ensures
        r == spec_hadamard(),
{
    Op1 {
        m00: Amp { re: B_FRAC_1_SQRT_2, im: B_ZERO },
        m01: Amp { re: B_FRAC_1_SQRT_2, im: B_ZERO },
        m10: Amp { re: B_FRAC_1_SQRT_2, im: B_ZERO },
        m11: Amp { re: B_NEG_FRAC_1_SQRT_2, im: B_ZERO },
    }
}

/// The matrix of the XY-plane Hadamard variant, as `hadamard_xy` builds it.
pub open spec fn spec_hadamard_xy() -> Op1 {
    Op1 {
        m00: Amp { re: B_ZERO, im: B_ZERO },
        m01: Amp { re: B_FRAC_1_SQRT_2, im: B_FRAC_1_SQRT_2 },
        m10: Amp { re: B_FRAC_1_SQRT_2, im: B_NEG_FRAC_1_SQRT_2 },
        m11: Amp { re: B_ZERO, im: B_ZERO },
    }
}

/// Builds the matrix of the XY-plane Hadamard variant.
pub fn hadamard_xy() -> (r: Op1)
    ensures
        r == spec_hadamard_xy(),
{
    Op1 {
        m00: Amp { re: B_ZERO, im: B_ZERO },
        m01: Amp { re: B_FRAC_1_SQRT_2, im: B_FRAC_1_SQRT_2 },
        m10: Amp { re: B_FRAC_1_SQRT_2, im: B_NEG_FRAC_1_SQRT_2 },
        m11: Amp { re: B_ZERO, im: B_ZERO },
    }
}

/// The matrix of the YZ-plane Hadamard variant, as `hadamard_yz` builds it.
pub open spec fn spec_hadamard_yz() -> Op1 {
    Op1 {
        m00: Amp { re: B_FRAC_1_SQRT_2, im: B_ZERO },
        m01: Amp { re: B_ZERO, im: B_NEG_FRAC_1_SQRT_2 },
        m10: Amp { re: B_ZERO, im: B_FRAC_1_SQRT_2 },
        m11: Amp { re: B_NEG_FRAC_1_SQRT_2, im: B_ZERO },
    }
}

/// Builds the matrix of the YZ-plane Hadamard variant.
pub fn hadamard_yz() -> (r: Op1)
    ensures
        r == spec_hadamard_yz(),
{
    Op1 {
        m00: Amp { re: B_FRAC_1_SQRT_2, im: B_ZERO },
        m01: Amp { re: B_ZERO, im: B_NEG_FRAC_1_SQRT_2 },
        m10: Amp { re: B_ZERO, im: B_FRAC_1_SQRT_2 },
        m11: Amp { re: B_NEG_FRAC_1_SQRT_2, im: B_ZERO },
    }
}

/// The matrix of the ZX-plane Hadamard variant, as `hadamard_zx` builds it.
pub open spec fn spec_hadamard_zx() -> Op1 {
    Op1 {
        m00: Amp { re: B_FRAC_1_SQRT_2, im: B_ZERO },
        m01: Amp { re: B_FRAC_1_SQRT_2, im: B_ZERO },
        m10: Amp { re: B_FRAC_1_SQRT_2, im: B_ZERO },
        m11: Amp { re: B_NEG_FRAC_1_SQRT_2, im: B_ZERO },
    }
}

/// Builds the matrix of the ZX-plane Hadamard variant.
pub fn hadamard_zx() -> (r: Op1)
    ensures
        r == spec_hadamard_zx(),
{
    Op1 {
        m00: Amp { re: B_FRAC_1_SQRT_2, im: B_ZERO },
        m01: Amp { re: B_FRAC_1_SQRT_2, im: B_ZERO },
        m10: Amp { re: B_FRAC_1_SQRT_2, im: B_ZERO },
        m11: Amp { re: B_NEG_FRAC_1_SQRT_2, im: B_ZERO },
    }
}

/// The matrix of the V gate, a square root of Pauli X, as `v_gate` builds it.
pub open spec fn spec_v_gate() -> Op1 {
    Op1 {
        m00: Amp { re: B_HALF, im: B_HALF },
        m01: Amp { re: B_HALF, im: B_NEG_HALF },
        m10: Amp { re: B_HALF, im: B_NEG_HALF },
        m11: Amp { re: B_HALF, im: B_HALF },
    }
}

/// Builds the matrix of the V gate, a square root of Pauli X.
pub fn v_gate() -> (r: Op1)
    ensures
        r == spec_v_gate(),
{
    Op1 {
        m00: Amp { re: B_HALF, im: B_HALF },
        m01: Amp { re: B_HALF, im: B_NEG_HALF },
        m10: Amp { re: B_HALF, im: B_NEG_HALF },
        m11: Amp { re: B_HALF, im: B_HALF },
    }
}

/// The matrix of the adjoint of the V gate, as `v_dagger` builds it.
pub open spec fn spec_v_dagger() -> Op1 {
    Op1 {
        m00: Amp { re: B_HALF, im: B_NEG_HALF },
        m01: Amp { re: B_HALF, im: B_HALF },
        m10: Amp { re: B_HALF, im: B_HALF },
        m11: Amp { re: B_HALF, im: B_NEG_HALF },
    }
}

/// Builds the matrix of the adjoint of the V gate.
pub fn v_dagger() -> (r: Op1)
    ensures
        r == spec_v_dagger(),
{
    Op1 {
        m00: Amp { re: B_HALF, im: B_NEG_HALF },
        m01: Amp { re: B_HALF, im: B_HALF },
        m10: Amp { re: B_HALF, im: B_HALF },
        m11: Amp { re: B_HALF, im: B_NEG_HALF },
    }
}

/// The matrix of the H variant gate, as `h_gate` builds it.
pub open spec fn spec_h_gate() -> Op1 {
    Op1 {
        m00: Amp { re: B_FRAC_1_SQRT_2, im: B_ZERO },
        m01: Amp { re: B_NEG_FRAC_1_SQRT_2, im: B_ZERO },
        m10: Amp { re: B_FRAC_1_SQRT_2, im: B_ZERO },
        m11: Amp { re: B_FRAC_1_SQRT_2, im: B_ZERO },
    }
}

/// Builds the matrix of the H variant gate.
pub fn h_gate() -> (r: Op1)
    ensures
        r == spec_h_gate(),
{
    Op1 {
        m00: Amp { re: B_FRAC_1_SQRT_2, im: B_ZERO },
        m01: Amp { re: B_NEG_FRAC_1_SQRT_2, im: B_ZERO },
        m10: Amp { re: B_FRAC_1_SQRT_2, im: B_ZERO },
        m11: Amp { re: B_FRAC_1_SQRT_2, im: B_ZERO },
    }
}

/// The matrix of the adjoint of the H variant gate, as `h_dagger` builds it.
pub open spec fn spec_h_dagger() -> Op1 {
    Op1 {
        m00: Amp { re: B_FRAC_1_SQRT_2, im: B_ZERO },
        m01: Amp { re: B_FRAC_1_SQRT_2, im: B_ZERO },
        m10: Amp { re: B_NEG_FRAC_1_SQRT_2, im: B_ZERO },
        m11: Amp { re: B_FRAC_1_SQRT_2, im: B_ZERO },
    }
}

/// Builds the matrix of the adjoint of the H variant gate.
pub fn h_dagger() -> (r: Op1)
    ensures
        r == spec_h_dagger(),
{
    Op1 {
        m00: Amp { re: B_FRAC_1_SQRT_2, im: B_ZERO },
        m01: Amp { re: B_FRAC_1_SQRT_2, im: B_ZERO },
        m10: Amp { re: B_NEG_FRAC_1_SQRT_2, im: B_ZERO },
        m11: Amp { re: B_FRAC_1_SQRT_2, im: B_ZERO },
    }
}

/// The matrix of the rotation from the Y basis to the computational basis, as `y_basis_to_standard_basis_rotation` builds it.
pub open spec fn spec_y_basis_to_standard_basis_rotation() -> Op1 {
    Op1 {
        m00: Amp { re: B_FRAC_1_SQRT_2, im: B_ZERO },
        m01: Amp { re: B_ZERO, im: B_NEG_FRAC_1_SQRT_2 },
        m10: Amp { re: B_FRAC_1_SQRT_2, im: B_ZERO },
        m11: Amp { re: B_ZERO, im: B_FRAC_1_SQRT_2 },
    }
}

/// Builds the matrix of the rotation from the Y basis to the computational basis.
pub fn y_basis_to_standard_basis_rotation() -> (r: Op1)
    ensures
        r == spec_y_basis_to_standard_basis_rotation(),
{
    Op1 {
        m00: Amp { re: B_FRAC_1_SQRT_2, im: B_ZERO },
        m01: Amp { re: B_ZERO, im: B_NEG_FRAC_1_SQRT_2 },
        m10: Amp { re: B_FRAC_1_SQRT_2, im: B_ZERO },
        m11: Amp { re: B_ZERO, im: B_FRAC_1_SQRT_2 },
    }
}

/// The matrix of the rotation from the computational basis to the Y basis, as `standard_basis_to_y_basis_rotation` builds it.
pub open spec fn spec_standard_basis_to_y_basis_rotation() -> Op1 {
    Op1 {
        m00: Amp { re: B_FRAC_1_SQRT_2, im: B_ZERO },
        m01: Amp { re: B_FRAC_1_SQRT_2, im: B_ZERO },
        m10: Amp { re: B_ZERO, im: B_FRAC_1_SQRT_2 },
        m11: Amp { re: B_ZERO, im: B_NEG_FRAC_1_SQRT_2 },
    }
}

/// Builds the matrix of the rotation from the computational basis to the Y basis.
pub fn standard_basis_to_y_basis_rotation() -> (r: Op1)
    ensures
        r == spec_standard_basis_to_y_basis_rotation(),
{
    Op1 {
        m00: Amp { re: B_FRAC_1_SQRT_2, im: B_ZERO },
        m01: Amp { re: B_FRAC_1_SQRT_2, im: B_ZERO },
        m10: Amp { re: B_ZERO, im: B_FRAC_1_SQRT_2 },
        m11: Amp { re: B_ZERO, im: B_NEG_FRAC_1_SQRT_2 },
    }
}

/// The matrix of the rotation from the computational basis to the X basis, as `standard_basis_to_x_basis_rotation` builds it.
pub open spec fn spec_standard_basis_to_x_basis_rotation() -> Op1 {
    Op1 {
        m00: Amp { re: B_FRAC_1_SQRT_2, im: B_ZERO },
        m01: Amp { re: B_FRAC_1_SQRT_2, im: B_ZERO },
        m10: Amp { re: B_FRAC_1_SQRT_2, im: B_ZERO },
        m11: Amp { re: B_NEG_FRAC_1_SQRT_2, im: B_ZERO },
    }
}

/// Builds the matrix of the rotation from the computational basis to the X basis.
pub fn standard_basis_to_x_basis_rotation() -> (r: Op1)
    ensures
        r == spec_standard_basis_to_x_basis_rotation(),
{
    Op1 {
        m00: Amp { re: B_FRAC_1_SQRT_2, im: B_ZERO },
        m01: Amp { re: B_FRAC_1_SQRT_2, im: B_ZERO },
        m10: Amp { re: B_FRAC_1_SQRT_2, im: B_ZERO },
        m11: Amp { re: B_NEG_FRAC_1_SQRT_2, im: B_ZERO },
    }
}

/// The matrix of the rotation from the X basis to the computational basis, as `x_basis_to_standard_basis_rotation` builds it.
pub open spec fn spec_x_basis_to_standard_basis_rotation() -> Op1 {
    Op1 {
        m00: Amp { re: B_FRAC_1_SQRT_2, im: B_ZERO },
        m01: Amp { re: B_FRAC_1_SQRT_2, im: B_ZERO },
        m10: Amp { re: B_FRAC_1_SQRT_2, im: B_ZERO },
        m11: Amp { re: B_NEG_FRAC_1_SQRT_2, im: B_ZERO },
    }
}

/// Builds the matrix of the rotation from the X basis to the computational basis.
pub fn x_basis_to_standard_basis_rotation() -> (r: Op1)
    ensures
        r == spec_x_basis_to_standard_basis_rotation(),
{
    Op1 {
        m00: Amp { re: B_FRAC_1_SQRT_2, im: B_ZERO },
        m01: Amp { re: B_FRAC_1_SQRT_2, im: B_ZERO },
        m10: Amp { re: B_FRAC_1_SQRT_2, im: B_ZERO },
        m11: Amp { re: B_NEG_FRAC_1_SQRT_2, im: B_ZERO },
    }
}

/// Builds the matrix of the T gate, a pi/4 phase.  Entries that come out of the
/// platform-dependent trigonometric calls are not pinned; the
/// contract states the matrix's fixed entries and its shape.
pub fn t_gate() -> (r: Op1)
    ensures
        r.m00 == (Amp { re: B_ONE, im: B_ZERO }),
        r.m01 == (Amp { re: B_ZERO, im: B_ZERO }),
        r.m10 == (Amp { re: B_ZERO, im: B_ZERO }),
{
    let a: u32 = fdiv(B_PI,B_FOUR);
    Op1 {
        m00: Amp { re: B_ONE, im: B_ZERO },
        m01: Amp { re: B_ZERO, im: B_ZERO },
        m10: Amp { re: B_ZERO, im: B_ZERO },
        m11: expi(a),
    }
}

/// Builds the matrix of the adjoint of the T gate.  Entries that come out of the
/// platform-dependent trigonometric calls are not pinned; the
/// contract states the matrix's fixed entries and its shape.
pub fn t_dagger() -> (r: Op1)
    ensures
        r.m00 == (Amp { re: B_ONE, im: B_ZERO }),
        r.m01 == (Amp { re: B_ZERO, im: B_ZERO }),
        r.m10 == (Amp { re: B_ZERO, im: B_ZERO }),
{
    let a: u32 = fneg(fdiv(B_PI,B_FOUR));
    Op1 {
        m00: Amp { re: B_ONE, im: B_ZERO },
        m01: Amp { re: B_ZERO, im: B_ZERO },
        m10: Amp { re: B_ZERO, im: B_ZERO },
        m11: expi(a),
    }
}

/// The matrix of the S gate, a pi/2 phase, as `s_gate` builds it.
pub open spec fn spec_s_gate() -> Op1 {
    Op1 {
        m00: Amp { re: B_ONE, im: B_ZERO },
        m01: Amp { re: B_ZERO, im: B_ZERO },
        m10: Amp { re: B_ZERO, im: B_ZERO },
        m11: Amp { re: B_ZERO, im: B_ONE },
    }
}

/// Builds the matrix of the S gate, a pi/2 phase.
pub fn s_gate() -> (r: Op1)
    ensures
        r == spec_s_gate(),
{
    Op1 {
        m00: Amp { re: B_ONE, im: B_ZERO },
        m01: Amp { re: B_ZERO, im: B_ZERO },
        m10: Amp { re: B_ZERO, im: B_ZERO },
        m11: Amp { re: B_ZERO, im: B_ONE },
    }
}

/// The matrix of the adjoint of the S gate, as `s_dagger` builds it.
pub open spec fn spec_s_dagger() -> Op1 {
    Op1 {
        m00: Amp { re: B_ONE, im: B_ZERO },
        m01: Amp { re: B_ZERO, im: B_ZERO },
        m10: Amp { re: B_ZERO, im: B_ZERO },
        m11: Amp { re: B_ZERO, im: B_MINUS_ONE },
    }
}

/// Builds the matrix of the adjoint of the S gate.
pub fn s_dagger() -> (r: Op1)
    ensures
        r == spec_s_dagger(),
{
    Op1 {
        m00: Amp { re: B_ONE, im: B_ZERO },
        m01: Amp { re: B_ZERO, im: B_ZERO },
        m10: Amp { re: B_ZERO, im: B_ZERO },
        m11: Amp { re: B_ZERO, im: B_MINUS_ONE },
    }
}

/// Builds the matrix of the generic single-qubit rotation `u3`.  Entries that come out of the
/// platform-dependent trigonometric calls are not pinned; the
/// contract states the matrix's fixed entries and its shape.
pub fn u3(theta: u32, phi: u32, lambda_: u32) -> (r: Op1)
    ensures
        r.m00.im == B_ZERO,
{
    let ht: u32 = fdiv(theta,B_TWO);
    let ct: u32 = fcos(ht);
    let st: u32 = fsin(ht);
    Op1 {
        m00: Amp { re: ct, im: B_ZERO },
        m01: cneg(amp_scale(expi(lambda_),st)),
        m10: amp_scale(expi(phi),st),
        m11: amp_scale(expi(fadd(phi,lambda_)),ct),
    }
}

/// Builds the matrix of the `u2` rotation.  Entries that come out of the
/// platform-dependent trigonometric calls are not pinned; the
/// contract states the matrix's fixed entries and its shape.
pub fn u2(phi: u32, lambda_: u32) -> (r: Op1)
    ensures
        r.m00 == (Amp { re: B_FRAC_1_SQRT_2, im: B_ZERO }),
{
    Op1 {
        m00: Amp { re: B_FRAC_1_SQRT_2, im: B_ZERO },
        m01: cneg(amp_scale(expi(lambda_),B_FRAC_1_SQRT_2)),
        m10: amp_scale(expi(phi),B_FRAC_1_SQRT_2),
        m11: amp_scale(expi(fadd(phi,lambda_)),B_FRAC_1_SQRT_2),
    }
}

/// Builds the matrix of the `u1` phase gate.  Entries that come out of the
/// platform-dependent trigonometric calls are not pinned; the
/// contract states the matrix's fixed entries and its shape.
pub fn u1(lambda_: u32) -> (r: Op1)
    ensures
        r.m00 == (Amp { re: B_ONE, im: B_ZERO }),
        r.m01 == (Amp { re: B_ZERO, im: B_ZERO }),
        r.m10 == (Amp { re: B_ZERO, im: B_ZERO }),
{
    Op1 {
        m00: Amp { re: B_ONE, im: B_ZERO },
        m01: Amp { re: B_ZERO, im: B_ZERO },
        m10: Amp { re: B_ZERO, im: B_ZERO },
        m11: expi(lambda_),
    }
}

/// Builds the matrix of the phase gate `p`.  Entries that come out of the
/// platform-dependent trigonometric calls are not pinned; the
/// contract states the matrix's fixed entries and its shape.
pub fn p_gate(theta: u32) -> (r: Op1)
    ensures
        r.m00 == (Amp { re: B_ONE, im: B_ZERO }),
        r.m01 == (Amp { re: B_ZERO, im: B_ZERO }),
        r.m10 == (Amp { re: B_ZERO, im: B_ZERO }),
{
    Op1 {
        m00: Amp { re: B_ONE, im: B_ZERO },
        m01: Amp { re: B_ZERO, im: B_ZERO },
        m10: Amp { re: B_ZERO, im: B_ZERO },
        m11: expi(theta),
    }
}

/// Builds the matrix of a rotation about the X axis.  Entries that come out of the
/// platform-dependent trigonometric calls are not pinned; the
/// contract states the matrix's fixed entries and its shape.
pub fn rx_theta(theta: u32) -> (r: Op1)
    ensures
        r.m10 == r.m01,
        r.m11 == r.m00,
        r.m00.im == B_ZERO,
        r.m11.im == B_ZERO,
{
    let ht: u32 = fdiv(theta,B_TWO);
    let a: Amp = Amp { re: fcos(ht), im: B_ZERO };
    let b: Amp = amp_scale(Amp { re: B_ZERO, im: B_MINUS_ONE },fsin(ht));
    Op1 {
        m00: a,
        m01: b,
        m10: b,
        m11: a,
    }
}

/// Builds the matrix of a root of the Pauli X gate.  Entries that come out of the
/// platform-dependent trigonometric calls are not pinned; the
/// contract states the matrix's fixed entries and its shape.
pub fn pauli_x_root(root: u32) -> (r: Op1)
    ensures
        r.m10 == r.m01,
        r.m11 == r.m00,
{
    let theta: u32 = fdiv(B_PI,root);
    let ht: u32 = fdiv(theta,B_TWO);
    let e: Amp = expi(ht);
    let a: Amp = cmul(Amp { re: fcos(ht), im: B_ZERO },e);
    let b: Amp = cmul(amp_scale(Amp { re: B_ZERO, im: B_MINUS_ONE },fsin(ht)),e);
    Op1 {
        m00: a,
        m01: b,
        m10: b,
        m11: a,
    }
}

/// Builds the matrix of the adjoint of a root of the Pauli X gate.  Entries that come out of the
/// platform-dependent trigonometric calls are not pinned; the
/// contract states the matrix's fixed entries and its shape.
pub fn pauli_x_root_dagger(root: u32) -> (r: Op1)
    ensures
        r.m10 == r.m01,
        r.m11 == r.m00,
{
    let theta: u32 = fdiv(B_PI,root);
    let ht: u32 = fdiv(theta,B_TWO);
    let e: Amp = expi(fneg(ht));
    let a: Amp = cmul(Amp { re: fcos(ht), im: B_ZERO },e);
    let b: Amp = cmul(amp_scale(Amp { re: B_ZERO, im: B_ONE },fsin(ht)),e);
    Op1 {
        m00: a,
        m01: b,
        m10: b,
        m11: a,
    }
}

/// Builds the matrix of a rotation about the Y axis.  Entries that come out of the
/// platform-dependent trigonometric calls are not pinned; the
/// contract states the matrix's fixed entries and its shape.
pub fn ry_theta(theta: u32) -> (r: Op1)
    ensures
        r.m11 == r.m00,
        r.m01 == spec_cneg(r.m10),
        r.m00.im == B_ZERO,
        r.m10.im == B_ZERO,
        r.m11.im == B_ZERO,
{
    let ht: u32 = fdiv(theta,B_TWO);
    let a: Amp = Amp { re: fcos(ht), im: B_ZERO };
    let b: Amp = Amp { re: fsin(ht), im: B_ZERO };
    Op1 {
        m00: a,
        m01: cneg(b),
        m10: b,
        m11: a,
    }
}

/// Builds the matrix of a root of the Pauli Y gate.  Entries that come out of the
/// platform-dependent trigonometric calls are not pinned; the
/// contract states the matrix's fixed entries and its shape.
pub fn pauli_y_root(root: u32) -> (r: Op1)
    ensures
        r.m11 == r.m00,
        r.m01 == spec_cneg(r.m10),
{
    let theta: u32 = fdiv(B_PI,root);
    let ht: u32 = fdiv(theta,B_TWO);
    let e: Amp = expi(ht);
    let a: Amp = cmul(Amp { re: fcos(ht), im: B_ZERO },e);
    let b: Amp = cmul(Amp { re: fsin(ht), im: B_ZERO },e);
    Op1 {
        m00: a,
        m01: cneg(b),
        m10: b,
        m11: a,
    }
}

/// Builds the matrix of the adjoint of a root of the Pauli Y gate.  Entries that come out of the
/// platform-dependent trigonometric calls are not pinned; the
/// contract states the matrix's fixed entries and its shape.
pub fn pauli_y_root_dagger(root: u32) -> (r: Op1)
    ensures
        r.m11 == r.m00,
        r.m10 == spec_cneg(r.m01),
{
    let theta: u32 = fdiv(B_PI,root);
    let ht: u32 = fdiv(theta,B_TWO);
    let e: Amp = expi(fneg(ht));
    let a: Amp = cmul(Amp { re: fcos(ht), im: B_ZERO },e);
    let b: Amp = cmul(Amp { re: fsin(ht), im: B_ZERO },e);
    Op1 {
        m00: a,
        m01: b,
        m10: cneg(b),
        m11: a,
    }
}

/// Builds the matrix of a rotation about the Z axis.  Entries that come out of the
/// platform-dependent trigonometric calls are not pinned; the
/// contract states the matrix's fixed entries and its shape.
pub fn rz_theta(theta: u32) -> (r: Op1)
    ensures
        r.m01 == (Amp { re: B_ZERO, im: B_ZERO }),
        r.m10 == (Amp { re: B_ZERO, im: B_ZERO }),
{
    let ht: u32 = fdiv(theta,B_TWO);
    Op1 {
        m00: expi(fneg(ht)),
        m01: Amp { re: B_ZERO, im: B_ZERO },
        m10: Amp { re: B_ZERO, im: B_ZERO },
        m11: expi(ht),
    }
}

/// Builds the matrix of a root of the Pauli Z gate.  Entries that come out of the
/// platform-dependent trigonometric calls are not pinned; the
/// contract states the matrix's fixed entries and its shape.
pub fn pauli_z_root(root: u32) -> (r: Op1)
    ensures
        r.m00 == (Amp { re: B_ONE, im: B_ZERO }),
        r.m01 == (Amp { re: B_ZERO, im: B_ZERO }),
        r.m10 == (Amp { re: B_ZERO, im: B_ZERO }),
{
    let theta: u32 = fdiv(B_PI,root);
    Op1 {
        m00: Amp { re: B_ONE, im: B_ZERO },
        m01: Amp { re: B_ZERO, im: B_ZERO },
        m10: Amp { re: B_ZERO, im: B_ZERO },
        m11: expi(theta),
    }
}

/// Builds the matrix of the adjoint of a root of the Pauli Z gate.  Entries that come out of the
/// platform-dependent trigonometric calls are not pinned; the
/// contract states the matrix's fixed entries and its shape.
pub fn pauli_z_root_dagger(root: u32) -> (r: Op1)
    ensures
        r.m00 == (Amp { re: B_ONE, im: B_ZERO }),
        r.m01 == (Amp { re: B_ZERO, im: B_ZERO }),
        r.m10 == (Amp { re: B_ZERO, im: B_ZERO }),
{
    let theta: u32 = fdiv(B_PI,root);
    Op1 {
        m00: Amp { re: B_ONE, im: B_ZERO },
        m01: Amp { re: B_ZERO, im: B_ZERO },
        m10: Amp { re: B_ZERO, im: B_ZERO },
        m11: expi(fneg(theta)),
    }
}

/// The matrix of the Hadamard gate composed with the adjoint S gate, read before a Y measurement, as `hadamard_times_s_dagger` builds it.
pub open spec fn spec_hadamard_times_s_dagger() -> Op1 {
    Op1 {
        m00: Amp { re: B_FRAC_1_SQRT_2, im: B_ZERO },
        m01: Amp { re: B_ZERO, im: B_NEG_FRAC_1_SQRT_2 },
        m10: Amp { re: B_FRAC_1_SQRT_2, im: B_ZERO },
        m11: Amp { re: B_ZERO, im: B_FRAC_1_SQRT_2 },
    }
}

/// Builds the matrix of the Hadamard gate composed with the adjoint S gate, read before a Y measurement.
pub fn hadamard_times_s_dagger() -> (r: Op1)
    ensures
        r == spec_hadamard_times_s_dagger(),
{
    Op1 {
        m00: Amp { re: B_FRAC_1_SQRT_2, im: B_ZERO },
        m01: Amp { re: B_ZERO, im: B_NEG_FRAC_1_SQRT_2 },
        m10: Amp { re: B_FRAC_1_SQRT_2, im: B_ZERO },
        m11: Amp { re: B_ZERO, im: B_FRAC_1_SQRT_2 },
    }
}

/// The matrix of the swap gate, as `swap` builds it.
pub open spec fn spec_swap() -> Op2 {
    Op2 {
        m00: Amp { re: B_ONE, im: B_ZERO },
        m01: Amp { re: B_ZERO, im: B_ZERO },
        m02: Amp { re: B_ZERO, im: B_ZERO },
        m03: Amp { re: B_ZERO, im: B_ZERO },
        m10: Amp { re: B_ZERO, im: B_ZERO },
        m11: Amp { re: B_ZERO, im: B_ZERO },
        m12: Amp { re: B_ONE, im: B_ZERO },
        m13: Amp { re: B_ZERO, im: B_ZERO },
        m20: Amp { re: B_ZERO, im: B_ZERO },
        m21: Amp { re: B_ONE, im: B_ZERO },
        m22: Amp { re: B_ZERO, im: B_ZERO },
        m23: Amp { re: B_ZERO, im: B_ZERO },
        m30: Amp { re: B_ZERO, im: B_ZERO },
        m31: Amp { re: B_ZERO, im: B_ZERO },
        m32: Amp { re: B_ZERO, im: B_ZERO },
        m33: Amp { re: B_ONE, im: B_ZERO },
    }
}

/// Builds the matrix of the swap gate.
pub fn swap() -> (r: Op2)
    ensures
        r == spec_swap(),
{
    Op2 {
        m00: Amp { re: B_ONE, im: B_ZERO },
        m01: Amp { re: B_ZERO, im: B_ZERO },
        m02: Amp { re: B_ZERO, im: B_ZERO },
        m03: Amp { re: B_ZERO, im: B_ZERO },
        m10: Amp { re: B_ZERO, im: B_ZERO },
        m11: Amp { re: B_ZERO, im: B_ZERO },
        m12: Amp { re: B_ONE, im: B_ZERO },
        m13: Amp { re: B_ZERO, im: B_ZERO },
        m20: Amp { re: B_ZERO, im: B_ZERO },
        m21: Amp { re: B_ONE, im: B_ZERO },
        m22: Amp { re: B_ZERO, im: B_ZERO },
        m23: Amp { re: B_ZERO, im: B_ZERO },
        m30: Amp { re: B_ZERO, im: B_ZERO },
        m31: Amp { re: B_ZERO, im: B_ZERO },
        m32: Amp { re: B_ZERO, im: B_ZERO },
        m33: Amp { re: B_ONE, im: B_ZERO },
    }
}

/// Builds the matrix of the swap gate with an added phase.  Entries that come out of the
/// platform-dependent trigonometric calls are not pinned; the
/// contract states the matrix's fixed entries and its shape.
pub fn swap_with_add_phase(phase: u32) -> (r: Op2)
    ensures
        r.m00 == (Amp { re: B_ONE, im: B_ZERO }),
        r.m01 == (Amp { re: B_ZERO, im: B_ZERO }),
        r.m02 == (Amp { re: B_ZERO, im: B_ZERO }),
        r.m03 == (Amp { re: B_ZERO, im: B_ZERO }),
        r.m10 == (Amp { re: B_ZERO, im: B_ZERO }),
        r.m11 == (Amp { re: B_ZERO, im: B_ZERO }),
        r.m13 == (Amp { re: B_ZERO, im: B_ZERO }),
        r.m20 == (Amp { re: B_ZERO, im: B_ZERO }),
        r.m21 == r.m12,
        r.m22 == (Amp { re: B_ZERO, im: B_ZERO }),
        r.m23 == (Amp { re: B_ZERO, im: B_ZERO }),
        r.m30 == (Amp { re: B_ZERO, im: B_ZERO }),
        r.m31 == (Amp { re: B_ZERO, im: B_ZERO }),
        r.m32 == (Amp { re: B_ZERO, im: B_ZERO }),
        r.m33 == (Amp { re: B_ONE, im: B_ZERO }),
{
    let e: Amp = expi(phase);
    Op2 {
        m00: Amp { re: B_ONE, im: B_ZERO },
        m01: Amp { re: B_ZERO, im: B_ZERO },
        m02: Amp { re: B_ZERO, im: B_ZERO },
        m03: Amp { re: B_ZERO, im: B_ZERO },
        m10: Amp { re: B_ZERO, im: B_ZERO },
        m11: Amp { re: B_ZERO, im: B_ZERO },
        m12: e,
        m13: Amp { re: B_ZERO, im: B_ZERO },
        m20: Amp { re: B_ZERO, im: B_ZERO },
        m21: e,
        m22: Amp { re: B_ZERO, im: B_ZERO },
        m23: Amp { re: B_ZERO, im: B_ZERO },
        m30: Amp { re: B_ZERO, im: B_ZERO },
        m31: Amp { re: B_ZERO, im: B_ZERO },
        m32: Amp { re: B_ZERO, im: B_ZERO },
        m33: Amp { re: B_ONE, im: B_ZERO },
    }
}

/// The matrix of the imaginary swap gate, as `iswap` builds it.
pub open spec fn spec_iswap() -> Op2 {
    Op2 {
        m00: Amp { re: B_ONE, im: B_ZERO },
        m01: Amp { re: B_ZERO, im: B_ZERO },
        m02: Amp { re: B_ZERO, im: B_ZERO },
        m03: Amp { re: B_ZERO, im: B_ZERO },
        m10: Amp { re: B_ZERO, im: B_ZERO },
        m11: Amp { re: B_ZERO, im: B_ZERO },
        m12: Amp { re: B_ZERO, im: B_ONE },
        m13: Amp { re: B_ZERO, im: B_ZERO },
        m20: Amp { re: B_ZERO, im: B_ZERO },
        m21: Amp { re: B_ZERO, im: B_ONE },
        m22: Amp { re: B_ZERO, im: B_ZERO },
        m23: Amp { re: B_ZERO, im: B_ZERO },
        m30: Amp { re: B_ZERO, im: B_ZERO },
        m31: Amp { re: B_ZERO, im: B_ZERO },
        m32: Amp { re: B_ZERO, im: B_ZERO },
        m33: Amp { re: B_ONE, im: B_ZERO },
    }
}

/// Builds the matrix of the imaginary swap gate.
pub fn iswap() -> (r: Op2)
    ensures
        r == spec_iswap(),
{
    Op2 {
        m00: Amp { re: B_ONE, im: B_ZERO },
        m01: Amp { re: B_ZERO, im: B_ZERO },
        m02: Amp { re: B_ZERO, im: B_ZERO },
        m03: Amp { re: B_ZERO, im: B_ZERO },
        m10: Amp { re: B_ZERO, im: B_ZERO },
        m11: Amp { re: B_ZERO, im: B_ZERO },
        m12: Amp { re: B_ZERO, im: B_ONE },
        m13: Amp { re: B_ZERO, im: B_ZERO },
        m20: Amp { re: B_ZERO, im: B_ZERO },
        m21: Amp { re: B_ZERO, im: B_ONE },
        m22: Amp { re: B_ZERO, im: B_ZERO },
        m23: Amp { re: B_ZERO, im: B_ZERO },
        m30: Amp { re: B_ZERO, im: B_ZERO },
        m31: Amp { re: B_ZERO, im: B_ZERO },
        m32: Amp { re: B_ZERO, im: B_ZERO },
        m33: Amp { re: B_ONE, im: B_ZERO },
    }
}

/// The matrix of the adjoint of the imaginary swap gate, as `iswap_dagger` builds it.
pub open spec fn spec_iswap_dagger() -> Op2 {
    Op2 {
        m00: Amp { re: B_ONE, im: B_ZERO },
        m01: Amp { re: B_ZERO, im: B_ZERO },
        m02: Amp { re: B_ZERO, im: B_ZERO },
        m03: Amp { re: B_ZERO, im: B_ZERO },
        m10: Amp { re: B_ZERO, im: B_ZERO },
        m11: Amp { re: B_ZERO, im: B_ZERO },
        m12: Amp { re: B_ZERO, im: B_MINUS_ONE },
        m13: Amp { re: B_ZERO, im: B_ZERO },
        m20: Amp { re: B_ZERO, im: B_ZERO },
        m21: Amp { re: B_ZERO, im: B_MINUS_ONE },
        m22: Amp { re: B_ZERO, im: B_ZERO },
        m23: Amp { re: B_ZERO, im: B_ZERO },
        m30: Amp { re: B_ZERO, im: B_ZERO },
        m31: Amp { re: B_ZERO, im: B_ZERO },
        m32: Amp { re: B_ZERO, im: B_ZERO },
        m33: Amp { re: B_ONE, im: B_ZERO },
    }
}

/// Builds the matrix of the adjoint of the imaginary swap gate.
pub fn iswap_dagger() -> (r: Op2)
    ensures
        r == spec_iswap_dagger(),
{
    Op2 {
        m00: Amp { re: B_ONE, im: B_ZERO },
        m01: Amp { re: B_ZERO, im: B_ZERO },
        m02: Amp { re: B_ZERO, im: B_ZERO },
        m03: Amp { re: B_ZERO, im: B_ZERO },
        m10: Amp { re: B_ZERO, im: B_ZERO },
        m11: Amp { re: B_ZERO, im: B_ZERO },
        m12: Amp { re: B_ZERO, im: B_MINUS_ONE },
        m13: Amp { re: B_ZERO, im: B_ZERO },
        m20: Amp { re: B_ZERO, im: B_ZERO },
        m21: Amp { re: B_ZERO, im: B_MINUS_ONE },
        m22: Amp { re: B_ZERO, im: B_ZERO },
        m23: Amp { re: B_ZERO, im: B_ZERO },
        m30: Amp { re: B_ZERO, im: B_ZERO },
        m31: Amp { re: B_ZERO, im: B_ZERO },
        m32: Amp { re: B_ZERO, im: B_ZERO },
        m33: Amp { re: B_ONE, im: B_ZERO },
    }
}

/// The matrix of the fermionic swap gate, as `fswap` builds it.
pub open spec fn spec_fswap() -> Op2 {
    Op2 {
        m00: Amp { re: B_ONE, im: B_ZERO },
        m01: Amp { re: B_ZERO, im: B_ZERO },
        m02: Amp { re: B_ZERO, im: B_ZERO },
        m03: Amp { re: B_ZERO, im: B_ZERO },
        m10: Amp { re: B_ZERO, im: B_ZERO },
        m11: Amp { re: B_ZERO, im: B_ZERO },
        m12: Amp { re: B_ONE, im: B_ZERO },
        m13: Amp { re: B_ZERO, im: B_ZERO },
        m20: Amp { re: B_ZERO, im: B_ZERO },
        m21: Amp { re: B_ONE, im: B_ZERO },
        m22: Amp { re: B_ZERO, im: B_ZERO },
        m23: Amp { re: B_ZERO, im: B_ZERO },
        m30: Amp { re: B_ZERO, im: B_ZERO },
        m31: Amp { re: B_ZERO, im: B_ZERO },
        m32: Amp { re: B_ZERO, im: B_ZERO },
        m33: Amp { re: B_MINUS_ONE, im: B_ZERO },
    }
}

/// Builds the matrix of the fermionic swap gate.
pub fn fswap() -> (r: Op2)
    ensures
        r == spec_fswap(),
{
    Op2 {
        m00: Amp { re: B_ONE, im: B_ZERO },
        m01: Amp { re: B_ZERO, im: B_ZERO },
        m02: Amp { re: B_ZERO, im: B_ZERO },
        m03: Amp { re: B_ZERO, im: B_ZERO },
        m10: Amp { re: B_ZERO, im: B_ZERO },
        m11: Amp { re: B_ZERO, im: B_ZERO },
        m12: Amp { re: B_ONE, im: B_ZERO },
        m13: Amp { re: B_ZERO, im: B_ZERO },
        m20: Amp { re: B_ZERO, im: B_ZERO },
        m21: Amp { re: B_ONE, im: B_ZERO },
        m22: Amp { re: B_ZERO, im: B_ZERO },
        m23: Amp { re: B_ZERO, im: B_ZERO },
        m30: Amp { re: B_ZERO, im: B_ZERO },
        m31: Amp { re: B_ZERO, im: B_ZERO },
        m32: Amp { re: B_ZERO, im: B_ZERO },
        m33: Amp { re: B_MINUS_ONE, im: B_ZERO },
    }
}

/// The matrix of the square root of the swap gate, as `sqrt_swap` builds it.
pub open spec fn spec_sqrt_swap() -> Op2 {
    Op2 {
        m00: Amp { re: B_ONE, im: B_ZERO },
        m01: Amp { re: B_ZERO, im: B_ZERO },
        m02: Amp { re: B_ZERO, im: B_ZERO },
        m03: Amp { re: B_ZERO, im: B_ZERO },
        m10: Amp { re: B_ZERO, im: B_ZERO },
        m11: Amp { re: B_HALF, im: B_HALF },
        m12: Amp { re: B_HALF, im: B_NEG_HALF },
        m13: Amp { re: B_ZERO, im: B_ZERO },
        m20: Amp { re: B_ZERO, im: B_ZERO },
        m21: Amp { re: B_HALF, im: B_NEG_HALF },
        m22: Amp { re: B_HALF, im: B_HALF },
        m23: Amp { re: B_ZERO, im: B_ZERO },
        m30: Amp { re: B_ZERO, im: B_ZERO },
        m31: Amp { re: B_ZERO, im: B_ZERO },
        m32: Amp { re: B_ZERO, im: B_ZERO },
        m33: Amp { re: B_ONE, im: B_ZERO },
    }
}

/// Builds the matrix of the square root of the swap gate.
pub fn sqrt_swap() -> (r: Op2)
    ensures
        r == spec_sqrt_swap(),
{
    Op2 {
        m00: Amp { re: B_ONE, im: B_ZERO },
        m01: Amp { re: B_ZERO, im: B_ZERO },
        m02: Amp { re: B_ZERO, im: B_ZERO },
        m03: Amp { re: B_ZERO, im: B_ZERO },
        m10: Amp { re: B_ZERO, im: B_ZERO },
        m11: Amp { re: B_HALF, im: B_HALF },
        m12: Amp { re: B_HALF, im: B_NEG_HALF },
        m13: Amp { re: B_ZERO, im: B_ZERO },
        m20: Amp { re: B_ZERO, im: B_ZERO },
        m21: Amp { re: B_HALF, im: B_NEG_HALF },
        m22: Amp { re: B_HALF, im: B_HALF },
        m23: Amp { re: B_ZERO, im: B_ZERO },
        m30: Amp { re: B_ZERO, im: B_ZERO },
        m31: Amp { re: B_ZERO, im: B_ZERO },
        m32: Amp { re: B_ZERO, im: B_ZERO },
        m33: Amp { re: B_ONE, im: B_ZERO },
    }
}

/// The matrix of the adjoint of the square root of the swap gate, as `sqrt_swap_dagger` builds it.
pub open spec fn spec_sqrt_swap_dagger() -> Op2 {
    Op2 {
        m00: Amp { re: B_ONE, im: B_ZERO },
        m01: Amp { re: B_ZERO, im: B_ZERO },
        m02: Amp { re: B_ZERO, im: B_ZERO },
        m03: Amp { re: B_ZERO, im: B_ZERO },
        m10: Amp { re: B_ZERO, im: B_ZERO },
        m11: Amp { re: B_HALF, im: B_NEG_HALF },
        m12: Amp { re: B_HALF, im: B_HALF },
        m13: Amp { re: B_ZERO, im: B_ZERO },
        m20: Amp { re: B_ZERO, im: B_ZERO },
        m21: Amp { re: B_HALF, im: B_HALF },
        m22: Amp { re: B_HALF, im: B_NEG_HALF },
        m23: Amp { re: B_ZERO, im: B_ZERO },
        m30: Amp { re: B_ZERO, im: B_ZERO },
        m31: Amp { re: B_ZERO, im: B_ZERO },
        m32: Amp { re: B_ZERO, im: B_ZERO },
        m33: Amp { re: B_ONE, im: B_ZERO },
    }
}

/// Builds the matrix of the adjoint of the square root of the swap gate.
pub fn sqrt_swap_dagger() -> (r: Op2)
    ensures
        r == spec_sqrt_swap_dagger(),
{
    Op2 {
        m00: Amp { re: B_ONE, im: B_ZERO },
        m01: Amp { re: B_ZERO, im: B_ZERO },
        m02: Amp { re: B_ZERO, im: B_ZERO },
        m03: Amp { re: B_ZERO, im: B_ZERO },
        m10: Amp { re: B_ZERO, im: B_ZERO },
        m11: Amp { re: B_HALF, im: B_NEG_HALF },
        m12: Amp { re: B_HALF, im: B_HALF },
        m13: Amp { re: B_ZERO, im: B_ZERO },
        m20: Amp { re: B_ZERO, im: B_ZERO },
        m21: Amp { re: B_HALF, im: B_HALF },
        m22: Amp { re: B_HALF, im: B_NEG_HALF },
        m23: Amp { re: B_ZERO, im: B_ZERO },
        m30: Amp { re: B_ZERO, im: B_ZERO },
        m31: Amp { re: B_ZERO, im: B_ZERO },
        m32: Amp { re: B_ZERO, im: B_ZERO },
        m33: Amp { re: B_ONE, im: B_ZERO },
    }
}

/// Builds the matrix of a root of the swap gate.  Entries that come out of the
/// platform-dependent trigonometric calls are not pinned; the
/// contract states the matrix's fixed entries and its shape.
pub fn swap_root(root: u32) -> (r: Op2)
    ensures
        r.m01 == (Amp { re: B_ZERO, im: B_ZERO }),
        r.m02 == (Amp { re: B_ZERO, im: B_ZERO }),
        r.m03 == (Amp { re: B_ZERO, im: B_ZERO }),
        r.m10 == (Amp { re: B_ZERO, im: B_ZERO }),
        r.m13 == (Amp { re: B_ZERO, im: B_ZERO }),
        r.m20 == (Amp { re: B_ZERO, im: B_ZERO }),
        r.m21 == r.m12,
        r.m22 == r.m11,
        r.m23 == (Amp { re: B_ZERO, im: B_ZERO }),
        r.m30 == (Amp { re: B_ZERO, im: B_ZERO }),
        r.m31 == (Amp { re: B_ZERO, im: B_ZERO }),
        r.m32 == (Amp { re: B_ZERO, im: B_ZERO }),
        r.m33 == r.m00,
{
    let theta: u32 = fdiv(B_PI,root);
    let phase: Amp = expi(fneg(fdiv(theta,B_FOUR)));
    let ht: u32 = fdiv(theta,B_TWO);
    let corner: Amp = cmul(phase,expi(ht));
    let diag: Amp = amp_scale(phase,fcos(ht));
    let off: Amp = amp_scale(cmul(phase,Amp { re: B_ZERO, im: B_ONE }),fsin(ht));
    Op2 {
        m00: corner,
        m01: Amp { re: B_ZERO, im: B_ZERO },
        m02: Amp { re: B_ZERO, im: B_ZERO },
        m03: Amp { re: B_ZERO, im: B_ZERO },
        m10: Amp { re: B_ZERO, im: B_ZERO },
        m11: diag,
        m12: off,
        m13: Amp { re: B_ZERO, im: B_ZERO },
        m20: Amp { re: B_ZERO, im: B_ZERO },
        m21: off,
        m22: diag,
        m23: Amp { re: B_ZERO, im: B_ZERO },
        m30: Amp { re: B_ZERO, im: B_ZERO },
        m31: Amp { re: B_ZERO, im: B_ZERO },
        m32: Amp { re: B_ZERO, im: B_ZERO },
        m33: corner,
    }
}

/// Builds the matrix of the adjoint of a root of the swap gate.  Entries that come out of the
/// platform-dependent trigonometric calls are not pinned; the
/// contract states the matrix's fixed entries and its shape.
pub fn swap_root_dagger(root: u32) -> (r: Op2)
    ensures
        r.m01 == (Amp { re: B_ZERO, im: B_ZERO }),
        r.m02 == (Amp { re: B_ZERO, im: B_ZERO }),
        r.m03 == (Amp { re: B_ZERO, im: B_ZERO }),
        r.m10 == (Amp { re: B_ZERO, im: B_ZERO }),
        r.m13 == (Amp { re: B_ZERO, im: B_ZERO }),
        r.m20 == (Amp { re: B_ZERO, im: B_ZERO }),
        r.m21 == r.m12,
        r.m22 == r.m11,
        r.m23 == (Amp { re: B_ZERO, im: B_ZERO }),
        r.m30 == (Amp { re: B_ZERO, im: B_ZERO }),
        r.m31 == (Amp { re: B_ZERO, im: B_ZERO }),
        r.m32 == (Amp { re: B_ZERO, im: B_ZERO }),
        r.m33 == r.m00,
{
    let theta: u32 = fneg(fdiv(B_PI,root));
    let phase: Amp = expi(fneg(fdiv(theta,B_FOUR)));
    let ht: u32 = fdiv(theta,B_TWO);
    let corner: Amp = cmul(phase,expi(ht));
    let diag: Amp = amp_scale(phase,fcos(ht));
    let off: Amp = amp_scale(cmul(phase,Amp { re: B_ZERO, im: B_ONE }),fsin(ht));
    Op2 {
        m00: corner,
        m01: Amp { re: B_ZERO, im: B_ZERO },
        m02: Amp { re: B_ZERO, im: B_ZERO },
        m03: Amp { re: B_ZERO, im: B_ZERO },
        m10: Amp { re: B_ZERO, im: B_ZERO },
        m11: diag,
        m12: off,
        m13: Amp { re: B_ZERO, im: B_ZERO },
        m20: Amp { re: B_ZERO, im: B_ZERO },
        m21: off,
        m22: diag,
        m23: Amp { re: B_ZERO, im: B_ZERO },
        m30: Amp { re: B_ZERO, im: B_ZERO },
        m31: Amp { re: B_ZERO, im: B_ZERO },
        m32: Amp { re: B_ZERO, im: B_ZERO },
        m33: corner,
    }
}

/// Builds the matrix of an Ising XX coupling.  Entries that come out of the
/// platform-dependent trigonometric calls are not pinned; the
/// contract states the matrix's fixed entries and its shape.
pub fn xx(theta: u32) -> (r: Op2)
    ensures
        r.m01 == (Amp { re: B_ZERO, im: B_ZERO }),
        r.m02 == (Amp { re: B_ZERO, im: B_ZERO }),
        r.m10 == (Amp { re: B_ZERO, im: B_ZERO }),
        r.m11 == r.m00,
        r.m12 == r.m03,
        r.m13 == (Amp { re: B_ZERO, im: B_ZERO }),
        r.m20 == (Amp { re: B_ZERO, im: B_ZERO }),
        r.m21 == r.m03,
        r.m22 == r.m00,
        r.m23 == (Amp { re: B_ZERO, im: B_ZERO }),
        r.m30 == r.m03,
        r.m31 == (Amp { re: B_ZERO, im: B_ZERO }),
        r.m32 == (Amp { re: B_ZERO, im: B_ZERO }),
        r.m33 == r.m00,
        r.m00.im == B_ZERO,
        r.m11.im == B_ZERO,
        r.m22.im == B_ZERO,
        r.m33.im == B_ZERO,
{
    let ht: u32 = fdiv(theta,B_TWO);
    let a: Amp = Amp { re: fcos(ht), im: B_ZERO };
    let b: Amp = amp_scale(Amp { re: B_ZERO, im: B_MINUS_ONE },fsin(ht));
    Op2 {
        m00: a,
        m01: Amp { re: B_ZERO, im: B_ZERO },
        m02: Amp { re: B_ZERO, im: B_ZERO },
        m03: b,
        m10: Amp { re: B_ZERO, im: B_ZERO },
        m11: a,
        m12: b,
        m13: Amp { re: B_ZERO, im: B_ZERO },
        m20: Amp { re: B_ZERO, im: B_ZERO },
        m21: b,
        m22: a,
        m23: Amp { re: B_ZERO, im: B_ZERO },
        m30: b,
        m31: Amp { re: B_ZERO, im: B_ZERO },
        m32: Amp { re: B_ZERO, im: B_ZERO },
        m33: a,
    }
}

/// Builds the matrix of an Ising YY coupling.  Entries that come out of the
/// platform-dependent trigonometric calls are not pinned; the
/// contract states the matrix's fixed entries and its shape.
pub fn yy(theta: u32) -> (r: Op2)
    ensures
        r.m01 == (Amp { re: B_ZERO, im: B_ZERO }),
        r.m02 == (Amp { re: B_ZERO, im: B_ZERO }),
        r.m10 == (Amp { re: B_ZERO, im: B_ZERO }),
        r.m11 == r.m00,
        r.m13 == (Amp { re: B_ZERO, im: B_ZERO }),
        r.m20 == (Amp { re: B_ZERO, im: B_ZERO }),
        r.m21 == r.m12,
        r.m22 == r.m00,
        r.m23 == (Amp { re: B_ZERO, im: B_ZERO }),
        r.m30 == r.m03,
        r.m31 == (Amp { re: B_ZERO, im: B_ZERO }),
        r.m32 == (Amp { re: B_ZERO, im: B_ZERO }),
        r.m33 == r.m00,
        r.m12 == spec_cneg(r.m03),
        r.m00.im == B_ZERO,
        r.m11.im == B_ZERO,
        r.m22.im == B_ZERO,
        r.m33.im == B_ZERO,
{
    let ht: u32 = fdiv(theta,B_TWO);
    let a: Amp = Amp { re: fcos(ht), im: B_ZERO };
    let b: Amp = amp_scale(Amp { re: B_ZERO, im: B_ONE },fsin(ht));
    Op2 {
        m00: a,
        m01: Amp { re: B_ZERO, im: B_ZERO },
        m02: Amp { re: B_ZERO, im: B_ZERO },
        m03: b,
        m10: Amp { re: B_ZERO, im: B_ZERO },
        m11: a,
        m12: cneg(b),
        m13: Amp { re: B_ZERO, im: B_ZERO },
        m20: Amp { re: B_ZERO, im: B_ZERO },
        m21: cneg(b),
        m22: a,
        m23: Amp { re: B_ZERO, im: B_ZERO },
        m30: b,
        m31: Amp { re: B_ZERO, im: B_ZERO },
        m32: Amp { re: B_ZERO, im: B_ZERO },
        m33: a,
    }
}

/// Builds the matrix of an Ising ZZ coupling.  Entries that come out of the
/// platform-dependent trigonometric calls are not pinned; the
/// contract states the matrix's fixed entries and its shape.
pub fn zz(theta: u32) -> (r: Op2)
    ensures
        r.m01 == (Amp { re: B_ZERO, im: B_ZERO }),
        r.m02 == (Amp { re: B_ZERO, im: B_ZERO }),
        r.m03 == (Amp { re: B_ZERO, im: B_ZERO }),
        r.m10 == (Amp { re: B_ZERO, im: B_ZERO }),
        r.m12 == (Amp { re: B_ZERO, im: B_ZERO }),
        r.m13 == (Amp { re: B_ZERO, im: B_ZERO }),
        r.m20 == (Amp { re: B_ZERO, im: B_ZERO }),
        r.m21 == (Amp { re: B_ZERO, im: B_ZERO }),
        r.m22 == r.m11,
        r.m23 == (Amp { re: B_ZERO, im: B_ZERO }),
        r.m30 == (Amp { re: B_ZERO, im: B_ZERO }),
        r.m31 == (Amp { re: B_ZERO, im: B_ZERO }),
        r.m32 == (Amp { re: B_ZERO, im: B_ZERO }),
        r.m33 == r.m00,
{
    let ht: u32 = fdiv(theta,B_TWO);
    let a: Amp = expi(fneg(ht));
    let b: Amp = expi(ht);
    Op2 {
        m00: a,
        m01: Amp { re: B_ZERO, im: B_ZERO },
        m02: Amp { re: B_ZERO, im: B_ZERO },
        m03: Amp { re: B_ZERO, im: B_ZERO },
        m10: Amp { re: B_ZERO, im: B_ZERO },
        m11: b,
        m12: Amp { re: B_ZERO, im: B_ZERO },
        m13: Amp { re: B_ZERO, im: B_ZERO },
        m20: Amp { re: B_ZERO, im: B_ZERO },
        m21: Amp { re: B_ZERO, im: B_ZERO },
        m22: b,
        m23: Amp { re: B_ZERO, im: B_ZERO },
        m30: Amp { re: B_ZERO, im: B_ZERO },
        m31: Amp { re: B_ZERO, im: B_ZERO },
        m32: Amp { re: B_ZERO, im: B_ZERO },
        m33: a,
    }
}

/// Builds the matrix of an XY coupling.  Entries that come out of the
/// platform-dependent trigonometric calls are not pinned; the
/// contract states the matrix's fixed entries and its shape.
pub fn xy(theta: u32) -> (r: Op2)
    ensures
        r.m00 == (Amp { re: B_ONE, im: B_ZERO }),
        r.m01 == (Amp { re: B_ZERO, im: B_ZERO }),
        r.m02 == (Amp { re: B_ZERO, im: B_ZERO }),
        r.m03 == (Amp { re: B_ZERO, im: B_ZERO }),
        r.m10 == (Amp { re: B_ZERO, im: B_ZERO }),
        r.m13 == (Amp { re: B_ZERO, im: B_ZERO }),
        r.m20 == (Amp { re: B_ZERO, im: B_ZERO }),
        r.m21 == r.m12,
        r.m22 == r.m11,
        r.m23 == (Amp { re: B_ZERO, im: B_ZERO }),
        r.m30 == (Amp { re: B_ZERO, im: B_ZERO }),
        r.m31 == (Amp { re: B_ZERO, im: B_ZERO }),
        r.m32 == (Amp { re: B_ZERO, im: B_ZERO }),
        r.m33 == (Amp { re: B_ONE, im: B_ZERO }),
        r.m11.im == B_ZERO,
        r.m22.im == B_ZERO,
{
    let c: Amp = Amp { re: fcos(theta), im: B_ZERO };
    let s: Amp = Amp { re: B_ZERO, im: fneg(fsin(theta)) };
    Op2 {
        m00: Amp { re: B_ONE, im: B_ZERO },
        m01: Amp { re: B_ZERO, im: B_ZERO },
        m02: Amp { re: B_ZERO, im: B_ZERO },
        m03: Amp { re: B_ZERO, im: B_ZERO },
        m10: Amp { re: B_ZERO, im: B_ZERO },
        m11: c,
        m12: s,
        m13: Amp { re: B_ZERO, im: B_ZERO },
        m20: Amp { re: B_ZERO, im: B_ZERO },
        m21: s,
        m22: c,
        m23: Amp { re: B_ZERO, im: B_ZERO },
        m30: Amp { re: B_ZERO, im: B_ZERO },
        m31: Amp { re: B_ZERO, im: B_ZERO },
        m32: Amp { re: B_ZERO, im: B_ZERO },
        m33: Amp { re: B_ONE, im: B_ZERO },
    }
}

/// Builds the matrix of the Berkeley gate.  Entries that come out of the
/// platform-dependent trigonometric calls are not pinned; the
/// contract states the matrix's fixed entries and its shape.
pub fn berkeley() -> (r: Op2)
    ensures
        r.m01 == (Amp { re: B_ZERO, im: B_ZERO }),
        r.m02 == (Amp { re: B_ZERO, im: B_ZERO }),
        r.m10 == (Amp { re: B_ZERO, im: B_ZERO }),
        r.m13 == (Amp { re: B_ZERO, im: B_ZERO }),
        r.m20 == (Amp { re: B_ZERO, im: B_ZERO }),
        r.m21 == r.m12,
        r.m22 == r.m11,
        r.m23 == (Amp { re: B_ZERO, im: B_ZERO }),
        r.m30 == r.m03,
        r.m31 == (Amp { re: B_ZERO, im: B_ZERO }),
        r.m32 == (Amp { re: B_ZERO, im: B_ZERO }),
        r.m33 == r.m00,
        r.m00.im == B_ZERO,
        r.m11.im == B_ZERO,
        r.m22.im == B_ZERO,
        r.m33.im == B_ZERO,
{
    let t1: u32 = fdiv(B_PI,B_EIGHT);
    let t3: u32 = fdiv(fmul(B_THREE,B_PI),B_EIGHT);
    let c1: Amp = Amp { re: fcos(t1), im: B_ZERO };
    let s1: Amp = Amp { re: B_ZERO, im: fsin(t1) };
    let c3: Amp = Amp { re: fcos(t3), im: B_ZERO };
    let s3: Amp = Amp { re: B_ZERO, im: fsin(t3) };
    Op2 {
        m00: c1,
        m01: Amp { re: B_ZERO, im: B_ZERO },
        m02: Amp { re: B_ZERO, im: B_ZERO },
        m03: s1,
        m10: Amp { re: B_ZERO, im: B_ZERO },
        m11: c3,
        m12: s3,
        m13: Amp { re: B_ZERO, im: B_ZERO },
        m20: Amp { re: B_ZERO, im: B_ZERO },
        m21: s3,
        m22: c3,
        m23: Amp { re: B_ZERO, im: B_ZERO },
        m30: s1,
        m31: Amp { re: B_ZERO, im: B_ZERO },
        m32: Amp { re: B_ZERO, im: B_ZERO },
        m33: c1,
    }
}

/// Builds the matrix of the adjoint of the Berkeley gate.  Entries that come out of the
/// platform-dependent trigonometric calls are not pinned; the
/// contract states the matrix's fixed entries and its shape.
pub fn berkeley_dagger() -> (r: Op2)
    ensures
        r.m01 == (Amp { re: B_ZERO, im: B_ZERO }),
        r.m02 == (Amp { re: B_ZERO, im: B_ZERO }),
        r.m10 == (Amp { re: B_ZERO, im: B_ZERO }),
        r.m13 == (Amp { re: B_ZERO, im: B_ZERO }),
        r.m20 == (Amp { re: B_ZERO, im: B_ZERO }),
        r.m21 == r.m12,
        r.m22 == r.m11,
        r.m23 == (Amp { re: B_ZERO, im: B_ZERO }),
        r.m30 == r.m03,
        r.m31 == (Amp { re: B_ZERO, im: B_ZERO }),
        r.m32 == (Amp { re: B_ZERO, im: B_ZERO }),
        r.m33 == r.m00,
        r.m00.im == B_ZERO,
        r.m11.im == B_ZERO,
        r.m22.im == B_ZERO,
        r.m33.im == B_ZERO,
{
    let t1: u32 = fdiv(B_PI,B_EIGHT);
    let t3: u32 = fdiv(fmul(B_THREE,B_PI),B_EIGHT);
    let c1: Amp = Amp { re: fcos(t1), im: B_ZERO };
    let s1: Amp = Amp { re: B_ZERO, im: fneg(fsin(t1)) };
    let c3: Amp = Amp { re: fcos(t3), im: B_ZERO };
    let s3: Amp = Amp { re: B_ZERO, im: fneg(fsin(t3)) };
    Op2 {
        m00: c1,
        m01: Amp { re: B_ZERO, im: B_ZERO },
        m02: Amp { re: B_ZERO, im: B_ZERO },
        m03: s1,
        m10: Amp { re: B_ZERO, im: B_ZERO },
        m11: c3,
        m12: s3,
        m13: Amp { re: B_ZERO, im: B_ZERO },
        m20: Amp { re: B_ZERO, im: B_ZERO },
        m21: s3,
        m22: c3,
        m23: Amp { re: B_ZERO, im: B_ZERO },
        m30: s1,
        m31: Amp { re: B_ZERO, im: B_ZERO },
        m32: Amp { re: B_ZERO, im: B_ZERO },
        m33: c1,
    }
}

/// Builds the matrix of the ECP gate.  Entries that come out of the
/// platform-dependent trigonometric calls are not pinned; the
/// contract states the matrix's fixed entries and its shape.
pub fn ecp() -> (r: Op2)
    ensures
        r.m01 == (Amp { re: B_ZERO, im: B_ZERO }),
        r.m02 == (Amp { re: B_ZERO, im: B_ZERO }),
        r.m10 == (Amp { re: B_ZERO, im: B_ZERO }),
        r.m13 == (Amp { re: B_ZERO, im: B_ZERO }),
        r.m20 == (Amp { re: B_ZERO, im: B_ZERO }),
        r.m21 == r.m12,
        r.m22 == r.m11,
        r.m23 == (Amp { re: B_ZERO, im: B_ZERO }),
        r.m30 == r.m03,
        r.m31 == (Amp { re: B_ZERO, im: B_ZERO }),
        r.m32 == (Amp { re: B_ZERO, im: B_ZERO }),
        r.m33 == r.m00,
        r.m00.im == B_ZERO,
        r.m33.im == B_ZERO,
{
    let t1: u32 = fdiv(B_PI,B_EIGHT);
    let c: u32 = fcos(t1);
    let s: u32 = fsin(t1);
    let d: Amp = Amp { re: c, im: B_ZERO };
    let o: Amp = Amp { re: B_ZERO, im: fneg(s) };
    let pp: Amp = amp_scale(Amp { re: B_HALF, im: B_HALF },fsub(c,s));
    let pm: Amp = amp_scale(Amp { re: B_HALF, im: B_NEG_HALF },fadd(c,s));
    Op2 {
        m00: d,
        m01: Amp { re: B_ZERO, im: B_ZERO },
        m02: Amp { re: B_ZERO, im: B_ZERO },
        m03: o,
        m10: Amp { re: B_ZERO, im: B_ZERO },
        m11: pp,
        m12: pm,
        m13: Amp { re: B_ZERO, im: B_ZERO },
        m20: Amp { re: B_ZERO, im: B_ZERO },
        m21: pm,
        m22: pp,
        m23: Amp { re: B_ZERO, im: B_ZERO },
        m30: o,
        m31: Amp { re: B_ZERO, im: B_ZERO },
        m32: Amp { re: B_ZERO, im: B_ZERO },
        m33: d,
    }
}

/// Builds the matrix of the adjoint of the ECP gate.  Entries that come out of the
/// platform-dependent trigonometric calls are not pinned; the
/// contract states the matrix's fixed entries and its shape.
pub fn ecp_dagger() -> (r: Op2)
    ensures
        r.m01 == (Amp { re: B_ZERO, im: B_ZERO }),
        r.m02 == (Amp { re: B_ZERO, im: B_ZERO }),
        r.m10 == (Amp { re: B_ZERO, im: B_ZERO }),
        r.m13 == (Amp { re: B_ZERO, im: B_ZERO }),
        r.m20 == (Amp { re: B_ZERO, im: B_ZERO }),
        r.m21 == r.m12,
        r.m22 == r.m11,
        r.m23 == (Amp { re: B_ZERO, im: B_ZERO }),
        r.m30 == r.m03,
        r.m31 == (Amp { re: B_ZERO, im: B_ZERO }),
        r.m32 == (Amp { re: B_ZERO, im: B_ZERO }),
        r.m33 == r.m00,
        r.m00.im == B_ZERO,
        r.m03.re == B_ZERO,
        r.m30.re == B_ZERO,
        r.m33.im == B_ZERO,
{
    let t1: u32 = fdiv(B_PI,B_EIGHT);
    let c: u32 = fcos(t1);
    let s: u32 = fsin(t1);
    let d: Amp = Amp { re: c, im: B_ZERO };
    let o: Amp = Amp { re: B_ZERO, im: s };
    let pm: Amp = amp_scale(Amp { re: B_HALF, im: B_NEG_HALF },fsub(c,s));
    let pp: Amp = amp_scale(Amp { re: B_HALF, im: B_HALF },fadd(c,s));
    Op2 {
        m00: d,
        m01: Amp { re: B_ZERO, im: B_ZERO },
        m02: Amp { re: B_ZERO, im: B_ZERO },
        m03: o,
        m10: Amp { re: B_ZERO, im: B_ZERO },
        m11: pm,
        m12: pp,
        m13: Amp { re: B_ZERO, im: B_ZERO },
        m20: Amp { re: B_ZERO, im: B_ZERO },
        m21: pp,
        m22: pm,
        m23: Amp { re: B_ZERO, im: B_ZERO },
        m30: o,
        m31: Amp { re: B_ZERO, im: B_ZERO },
        m32: Amp { re: B_ZERO, im: B_ZERO },
        m33: d,
    }
}

/// The matrix of the W gate, as `w_gate` builds it.
pub open spec fn spec_w_gate() -> Op2 {
    Op2 {
        m00: Amp { re: B_ONE, im: B_ZERO },
        m01: Amp { re: B_ZERO, im: B_ZERO },
        m02: Amp { re: B_ZERO, im: B_ZERO },
        m03: Amp { re: B_ZERO, im: B_ZERO },
        m10: Amp { re: B_ZERO, im: B_ZERO },
        m11: Amp { re: B_FRAC_1_SQRT_2, im: B_ZERO },
        m12: Amp { re: B_FRAC_1_SQRT_2, im: B_ZERO },
        m13: Amp { re: B_ZERO, im: B_ZERO },
        m20: Amp { re: B_ZERO, im: B_ZERO },
        m21: Amp { re: B_FRAC_1_SQRT_2, im: B_ZERO },
        m22: Amp { re: B_NEG_FRAC_1_SQRT_2, im: B_ZERO },
        m23: Amp { re: B_ZERO, im: B_ZERO },
        m30: Amp { re: B_ZERO, im: B_ZERO },
        m31: Amp { re: B_ZERO, im: B_ZERO },
        m32: Amp { re: B_ZERO, im: B_ZERO },
        m33: Amp { re: B_ONE, im: B_ZERO },
    }
}

/// Builds the matrix of the W gate.
pub fn w_gate() -> (r: Op2)
    ensures
        r == spec_w_gate(),
{
    Op2 {
        m00: Amp { re: B_ONE, im: B_ZERO },
        m01: Amp { re: B_ZERO, im: B_ZERO },
        m02: Amp { re: B_ZERO, im: B_ZERO },
        m03: Amp { re: B_ZERO, im: B_ZERO },
        m10: Amp { re: B_ZERO, im: B_ZERO },
        m11: Amp { re: B_FRAC_1_SQRT_2, im: B_ZERO },
        m12: Amp { re: B_FRAC_1_SQRT_2, im: B_ZERO },
        m13: Amp { re: B_ZERO, im: B_ZERO },
        m20: Amp { re: B_ZERO, im: B_ZERO },
        m21: Amp { re: B_FRAC_1_SQRT_2, im: B_ZERO },
        m22: Amp { re: B_NEG_FRAC_1_SQRT_2, im: B_ZERO },
        m23: Amp { re: B_ZERO, im: B_ZERO },
        m30: Amp { re: B_ZERO, im: B_ZERO },
        m31: Amp { re: B_ZERO, im: B_ZERO },
        m32: Amp { re: B_ZERO, im: B_ZERO },
        m33: Amp { re: B_ONE, im: B_ZERO },
    }
}

/// The matrix of the magic-basis change, as `magic` builds it.
pub open spec fn spec_magic() -> Op2 {
    Op2 {
        m00: Amp { re: B_FRAC_1_SQRT_2, im: B_ZERO },
        m01: Amp { re: B_ZERO, im: B_FRAC_1_SQRT_2 },
        m02: Amp { re: B_ZERO, im: B_ZERO },
        m03: Amp { re: B_ZERO, im: B_ZERO },
        m10: Amp { re: B_ZERO, im: B_ZERO },
        m11: Amp { re: B_ZERO, im: B_ZERO },
        m12: Amp { re: B_ZERO, im: B_FRAC_1_SQRT_2 },
        m13: Amp { re: B_FRAC_1_SQRT_2, im: B_ZERO },
        m20: Amp { re: B_ZERO, im: B_ZERO },
        m21: Amp { re: B_ZERO, im: B_ZERO },
        m22: Amp { re: B_ZERO, im: B_FRAC_1_SQRT_2 },
        m23: Amp { re: B_NEG_FRAC_1_SQRT_2, im: B_ZERO },
        m30: Amp { re: B_FRAC_1_SQRT_2, im: B_ZERO },
        m31: Amp { re: B_ZERO, im: B_NEG_FRAC_1_SQRT_2 },
        m32: Amp { re: B_ZERO, im: B_ZERO },
        m33: Amp { re: B_ZERO, im: B_ZERO },
    }
}

/// Builds the matrix of the magic-basis change.
pub fn magic() -> (r: Op2)
    ensures
        r == spec_magic(),
{
    Op2 {
        m00: Amp { re: B_FRAC_1_SQRT_2, im: B_ZERO },
        m01: Amp { re: B_ZERO, im: B_FRAC_1_SQRT_2 },
        m02: Amp { re: B_ZERO, im: B_ZERO },
        m03: Amp { re: B_ZERO, im: B_ZERO },
        m10: Amp { re: B_ZERO, im: B_ZERO },
        m11: Amp { re: B_ZERO, im: B_ZERO },
        m12: Amp { re: B_ZERO, im: B_FRAC_1_SQRT_2 },
        m13: Amp { re: B_FRAC_1_SQRT_2, im: B_ZERO },
        m20: Amp { re: B_ZERO, im: B_ZERO },
        m21: Amp { re: B_ZERO, im: B_ZERO },
        m22: Amp { re: B_ZERO, im: B_FRAC_1_SQRT_2 },
        m23: Amp { re: B_NEG_FRAC_1_SQRT_2, im: B_ZERO },
        m30: Amp { re: B_FRAC_1_SQRT_2, im: B_ZERO },
        m31: Amp { re: B_ZERO, im: B_NEG_FRAC_1_SQRT_2 },
        m32: Amp { re: B_ZERO, im: B_ZERO },
        m33: Amp { re: B_ZERO, im: B_ZERO },
    }
}

/// The matrix of the adjoint of the magic-basis change, as `magic_dagger` builds it.
pub open spec fn spec_magic_dagger() -> Op2 {
    Op2 {
        m00: Amp { re: B_FRAC_1_SQRT_2, im: B_ZERO },
        m01: Amp { re: B_ZERO, im: B_ZERO },
        m02: Amp { re: B_ZERO, im: B_ZERO },
        m03: Amp { re: B_FRAC_1_SQRT_2, im: B_ZERO },
        m10: Amp { re: B_ZERO, im: B_NEG_FRAC_1_SQRT_2 },
        m11: Amp { re: B_ZERO, im: B_ZERO },
        m12: Amp { re: B_ZERO, im: B_ZERO },
        m13: Amp { re: B_ZERO, im: B_FRAC_1_SQRT_2 },
        m20: Amp { re: B_ZERO, im: B_ZERO },
        m21: Amp { re: B_ZERO, im: B_NEG_FRAC_1_SQRT_2 },
        m22: Amp { re: B_ZERO, im: B_NEG_FRAC_1_SQRT_2 },
        m23: Amp { re: B_ZERO, im: B_ZERO },
        m30: Amp { re: B_ZERO, im: B_ZERO },
        m31: Amp { re: B_FRAC_1_SQRT_2, im: B_ZERO },
        m32: Amp { re: B_NEG_FRAC_1_SQRT_2, im: B_ZERO },
        m33: Amp { re: B_ZERO, im: B_ZERO },
    }
}

/// Builds the matrix of the adjoint of the magic-basis change.
pub fn magic_dagger() -> (r: Op2)
    ensures
        r == spec_magic_dagger(),
{
    Op2 {
        m00: Amp { re: B_FRAC_1_SQRT_2, im: B_ZERO },
        m01: Amp { re: B_ZERO, im: B_ZERO },
        m02: Amp { re: B_ZERO, im: B_ZERO },
        m03: Amp { re: B_FRAC_1_SQRT_2, im: B_ZERO },
        m10: Amp { re: B_ZERO, im: B_NEG_FRAC_1_SQRT_2 },
        m11: Amp { re: B_ZERO, im: B_ZERO },
        m12: Amp { re: B_ZERO, im: B_ZERO },
        m13: Amp { re: B_ZERO, im: B_FRAC_1_SQRT_2 },
        m20: Amp { re: B_ZERO, im: B_ZERO },
        m21: Amp { re: B_ZERO, im: B_NEG_FRAC_1_SQRT_2 },
        m22: Amp { re: B_ZERO, im: B_NEG_FRAC_1_SQRT_2 },
        m23: Amp { re: B_ZERO, im: B_ZERO },
        m30: Amp { re: B_ZERO, im: B_ZERO },
        m31: Amp { re: B_FRAC_1_SQRT_2, im: B_ZERO },
        m32: Amp { re: B_NEG_FRAC_1_SQRT_2, im: B_ZERO },
        m33: Amp { re: B_ZERO, im: B_ZERO },
    }
}

/// Builds the matrix of the cross-resonance interaction.  Entries that come out of the
/// platform-dependent trigonometric calls are not pinned; the
/// contract states the matrix's fixed entries and its shape.
pub fn cross_resonance(theta: u32) -> (r: Op2)
    ensures
        r.m02 == (Amp { re: B_ZERO, im: B_ZERO }),
        r.m03 == (Amp { re: B_ZERO, im: B_ZERO }),
        r.m10 == r.m01,
        r.m11 == r.m00,
        r.m12 == (Amp { re: B_ZERO, im: B_ZERO }),
        r.m13 == (Amp { re: B_ZERO, im: B_ZERO }),
        r.m20 == (Amp { re: B_ZERO, im: B_ZERO }),
        r.m21 == (Amp { re: B_ZERO, im: B_ZERO }),
        r.m22 == r.m00,
        r.m30 == (Amp { re: B_ZERO, im: B_ZERO }),
        r.m31 == (Amp { re: B_ZERO, im: B_ZERO }),
        r.m32 == r.m23,
        r.m33 == r.m00,
        r.m00.im == B_ZERO,
        r.m11.im == B_ZERO,
        r.m22.im == B_ZERO,
        r.m33.im == B_ZERO,
{
    let ht: u32 = fdiv(theta,B_TWO);
    let a: Amp = Amp { re: fcos(ht), im: B_ZERO };
    let bm: Amp = Amp { re: B_ZERO, im: fneg(fsin(ht)) };
    let bp: Amp = Amp { re: B_ZERO, im: fsin(ht) };
    Op2 {
        m00: a,
        m01: bm,
        m02: Amp { re: B_ZERO, im: B_ZERO },
        m03: Amp { re: B_ZERO, im: B_ZERO },
        m10: bm,
        m11: a,
        m12: Amp { re: B_ZERO, im: B_ZERO },
        m13: Amp { re: B_ZERO, im: B_ZERO },
        m20: Amp { re: B_ZERO, im: B_ZERO },
        m21: Amp { re: B_ZERO, im: B_ZERO },
        m22: a,
        m23: bp,
        m30: Amp { re: B_ZERO, im: B_ZERO },
        m31: Amp { re: B_ZERO, im: B_ZERO },
        m32: bp,
        m33: a,
    }
}

/// Builds the matrix of the adjoint of the cross-resonance interaction.  Entries that come out of the
/// platform-dependent trigonometric calls are not pinned; the
/// contract states the matrix's fixed entries and its shape.
pub fn cross_resonance_dagger(theta: u32) -> (r: Op2)
    ensures
        r.m02 == (Amp { re: B_ZERO, im: B_ZERO }),
        r.m03 == (Amp { re: B_ZERO, im: B_ZERO }),
        r.m10 == r.m01,
        r.m11 == r.m00,
        r.m12 == (Amp { re: B_ZERO, im: B_ZERO }),
        r.m13 == (Amp { re: B_ZERO, im: B_ZERO }),
        r.m20 == (Amp { re: B_ZERO, im: B_ZERO }),
        r.m21 == (Amp { re: B_ZERO, im: B_ZERO }),
        r.m22 == r.m00,
        r.m30 == (Amp { re: B_ZERO, im: B_ZERO }),
        r.m31 == (Amp { re: B_ZERO, im: B_ZERO }),
        r.m32 == r.m23,
        r.m33 == r.m00,
        r.m00.im == B_ZERO,
        r.m11.im == B_ZERO,
        r.m22.im == B_ZERO,
        r.m33.im == B_ZERO,
{
    let ht: u32 = fdiv(theta,B_TWO);
    let a: Amp = Amp { re: fcos(ht), im: B_ZERO };
    let bm: Amp = Amp { re: B_ZERO, im: fneg(fsin(ht)) };
    let bp: Amp = Amp { re: B_ZERO, im: fsin(ht) };
    Op2 {
        m00: a,
        m01: bp,
        m02: Amp { re: B_ZERO, im: B_ZERO },
        m03: Amp { re: B_ZERO, im: B_ZERO },
        m10: bp,
        m11: a,
        m12: Amp { re: B_ZERO, im: B_ZERO },
        m13: Amp { re: B_ZERO, im: B_ZERO },
        m20: Amp { re: B_ZERO, im: B_ZERO },
        m21: Amp { re: B_ZERO, im: B_ZERO },
        m22: a,
        m23: bm,
        m30: Amp { re: B_ZERO, im: B_ZERO },
        m31: Amp { re: B_ZERO, im: B_ZERO },
        m32: bm,
        m33: a,
    }
}

/// Builds the matrix of a Givens rotation.  Entries that come out of the
/// platform-dependent trigonometric calls are not pinned; the
/// contract states the matrix's fixed entries and its shape.
pub fn givens(theta: u32) -> (r: Op2)
    ensures
        r.m00 == (Amp { re: B_ONE, im: B_ZERO }),
        r.m01 == (Amp { re: B_ZERO, im: B_ZERO }),
        r.m02 == (Amp { re: B_ZERO, im: B_ZERO }),
        r.m03 == (Amp { re: B_ZERO, im: B_ZERO }),
        r.m10 == (Amp { re: B_ZERO, im: B_ZERO }),
        r.m13 == (Amp { re: B_ZERO, im: B_ZERO }),
        r.m20 == (Amp { re: B_ZERO, im: B_ZERO }),
        r.m22 == r.m11,
        r.m23 == (Amp { re: B_ZERO, im: B_ZERO }),
        r.m30 == (Amp { re: B_ZERO, im: B_ZERO }),
        r.m31 == (Amp { re: B_ZERO, im: B_ZERO }),
        r.m32 == (Amp { re: B_ZERO, im: B_ZERO }),
        r.m33 == (Amp { re: B_ONE, im: B_ZERO }),
        r.m11.im == B_ZERO,
        r.m12.im == B_ZERO,
        r.m21.im == B_ZERO,
        r.m22.im == B_ZERO,
{
    let c: Amp = Amp { re: fcos(theta), im: B_ZERO };
    let s: Amp = Amp { re: fsin(theta), im: B_ZERO };
    let ms: Amp = Amp { re: fneg(fsin(theta)), im: B_ZERO };
    Op2 {
        m00: Amp { re: B_ONE, im: B_ZERO },
        m01: Amp { re: B_ZERO, im: B_ZERO },
        m02: Amp { re: B_ZERO, im: B_ZERO },
        m03: Amp { re: B_ZERO, im: B_ZERO },
        m10: Amp { re: B_ZERO, im: B_ZERO },
        m11: c,
        m12: ms,
        m13: Amp { re: B_ZERO, im: B_ZERO },
        m20: Amp { re: B_ZERO, im: B_ZERO },
        m21: s,
        m22: c,
        m23: Amp { re: B_ZERO, im: B_ZERO },
        m30: Amp { re: B_ZERO, im: B_ZERO },
        m31: Amp { re: B_ZERO, im: B_ZERO },
        m32: Amp { re: B_ZERO, im: B_ZERO },
        m33: Amp { re: B_ONE, im: B_ZERO },
    }
}

/// Builds the matrix of the A gate.  Entries that come out of the
/// platform-dependent trigonometric calls are not pinned; the
/// contract states the matrix's fixed entries and its shape.
pub fn a_gate(theta: u32, phi: u32) -> (r: Op2)
    ensures
        r.m00 == (Amp { re: B_ONE, im: B_ZERO }),
        r.m01 == (Amp { re: B_ZERO, im: B_ZERO }),
        r.m02 == (Amp { re: B_ZERO, im: B_ZERO }),
        r.m03 == (Amp { re: B_ZERO, im: B_ZERO }),
        r.m10 == (Amp { re: B_ZERO, im: B_ZERO }),
        r.m13 == (Amp { re: B_ZERO, im: B_ZERO }),
        r.m20 == (Amp { re: B_ZERO, im: B_ZERO }),
        r.m23 == (Amp { re: B_ZERO, im: B_ZERO }),
        r.m30 == (Amp { re: B_ZERO, im: B_ZERO }),
        r.m31 == (Amp { re: B_ZERO, im: B_ZERO }),
        r.m32 == (Amp { re: B_ZERO, im: B_ZERO }),
        r.m33 == (Amp { re: B_ONE, im: B_ZERO }),
        r.m11.im == B_ZERO,
        r.m22.im == B_ZERO,
{
    let c: Amp = Amp { re: fcos(theta), im: B_ZERO };
    let st: u32 = fsin(theta);
    let e: Amp = amp_scale(expi(phi),st);
    let em: Amp = amp_scale(expi(fneg(phi)),st);
    let mc: Amp = Amp { re: fneg(fcos(theta)), im: B_ZERO };
    Op2 {
        m00: Amp { re: B_ONE, im: B_ZERO },
        m01: Amp { re: B_ZERO, im: B_ZERO },
        m02: Amp { re: B_ZERO, im: B_ZERO },
        m03: Amp { re: B_ZERO, im: B_ZERO },
        m10: Amp { re: B_ZERO, im: B_ZERO },
        m11: c,
        m12: e,
        m13: Amp { re: B_ZERO, im: B_ZERO },
        m20: Amp { re: B_ZERO, im: B_ZERO },
        m21: em,
        m22: mc,
        m23: Amp { re: B_ZERO, im: B_ZERO },
        m30: Amp { re: B_ZERO, im: B_ZERO },
        m31: Amp { re: B_ZERO, im: B_ZERO },
        m32: Amp { re: B_ZERO, im: B_ZERO },
        m33: Amp { re: B_ONE, im: B_ZERO },
    }
}

/// The matrix of the Molmer-Sorensen gate, as `molmer_sorensen` builds it.
pub open spec fn spec_molmer_sorensen() -> Op2 {
    Op2 {
        m00: Amp { re: B_FRAC_1_SQRT_2, im: B_ZERO },
        m01: Amp { re: B_ZERO, im: B_ZERO },
        m02: Amp { re: B_ZERO, im: B_ZERO },
        m03: Amp { re: B_ZERO, im: B_FRAC_1_SQRT_2 },
        m10: Amp { re: B_ZERO, im: B_ZERO },
        m11: Amp { re: B_FRAC_1_SQRT_2, im: B_ZERO },
        m12: Amp { re: B_ZERO, im: B_FRAC_1_SQRT_2 },
        m13: Amp { re: B_ZERO, im: B_ZERO },
        m20: Amp { re: B_ZERO, im: B_ZERO },
        m21: Amp { re: B_ZERO, im: B_FRAC_1_SQRT_2 },
        m22: Amp { re: B_FRAC_1_SQRT_2, im: B_ZERO },
        m23: Amp { re: B_ZERO, im: B_ZERO },
        m30: Amp { re: B_ZERO, im: B_FRAC_1_SQRT_2 },
        m31: Amp { re: B_ZERO, im: B_ZERO },
        m32: Amp { re: B_ZERO, im: B_ZERO },
        m33: Amp { re: B_FRAC_1_SQRT_2, im: B_ZERO },
    }
}

/// Builds the matrix of the Molmer-Sorensen gate.
pub fn molmer_sorensen() -> (r: Op2)
    ensures
        r == spec_molmer_sorensen(),
{
    Op2 {
        m00: Amp { re: B_FRAC_1_SQRT_2, im: B_ZERO },
        m01: Amp { re: B_ZERO, im: B_ZERO },
        m02: Amp { re: B_ZERO, im: B_ZERO },
        m03: Amp { re: B_ZERO, im: B_FRAC_1_SQRT_2 },
        m10: Amp { re: B_ZERO, im: B_ZERO },
        m11: Amp { re: B_FRAC_1_SQRT_2, im: B_ZERO },
        m12: Amp { re: B_ZERO, im: B_FRAC_1_SQRT_2 },
        m13: Amp { re: B_ZERO, im: B_ZERO },
        m20: Amp { re: B_ZERO, im: B_ZERO },
        m21: Amp { re: B_ZERO, im: B_FRAC_1_SQRT_2 },
        m22: Amp { re: B_FRAC_1_SQRT_2, im: B_ZERO },
        m23: Amp { re: B_ZERO, im: B_ZERO },
        m30: Amp { re: B_ZERO, im: B_FRAC_1_SQRT_2 },
        m31: Amp { re: B_ZERO, im: B_ZERO },
        m32: Amp { re: B_ZERO, im: B_ZERO },
        m33: Amp { re: B_FRAC_1_SQRT_2, im: B_ZERO },
    }
}

/// The matrix of the adjoint of the Molmer-Sorensen gate, as `molmer_sorensen_dagger` builds it.
pub open spec fn spec_molmer_sorensen_dagger() -> Op2 {
    Op2 {
        m00: Amp { re: B_FRAC_1_SQRT_2, im: B_ZERO },
        m01: Amp { re: B_ZERO, im: B_ZERO },
        m02: Amp { re: B_ZERO, im: B_ZERO },
        m03: Amp { re: B_ZERO, im: B_NEG_FRAC_1_SQRT_2 },
        m10: Amp { re: B_ZERO, im: B_ZERO },
        m11: Amp { re: B_FRAC_1_SQRT_2, im: B_ZERO },
        m12: Amp { re: B_ZERO, im: B_NEG_FRAC_1_SQRT_2 },
        m13: Amp { re: B_ZERO, im: B_ZERO },
        m20: Amp { re: B_ZERO, im: B_ZERO },
        m21: Amp { re: B_ZERO, im: B_NEG_FRAC_1_SQRT_2 },
        m22: Amp { re: B_FRAC_1_SQRT_2, im: B_ZERO },
        m23: Amp { re: B_ZERO, im: B_ZERO },
        m30: Amp { re: B_ZERO, im: B_NEG_FRAC_1_SQRT_2 },
        m31: Amp { re: B_ZERO, im: B_ZERO },
        m32: Amp { re: B_ZERO, im: B_ZERO },
        m33: Amp { re: B_FRAC_1_SQRT_2, im: B_ZERO },
    }
}

/// Builds the matrix of the adjoint of the Molmer-Sorensen gate.
pub fn molmer_sorensen_dagger() -> (r: Op2)
    ensures
        r == spec_molmer_sorensen_dagger(),
{
    Op2 {
        m00: Amp { re: B_FRAC_1_SQRT_2, im: B_ZERO },
        m01: Amp { re: B_ZERO, im: B_ZERO },
        m02: Amp { re: B_ZERO, im: B_ZERO },
        m03: Amp { re: B_ZERO, im: B_NEG_FRAC_1_SQRT_2 },
        m10: Amp { re: B_ZERO, im: B_ZERO },
        m11: Amp { re: B_FRAC_1_SQRT_2, im: B_ZERO },
        m12: Amp { re: B_ZERO, im: B_NEG_FRAC_1_SQRT_2 },
        m13: Amp { re: B_ZERO, im: B_ZERO },
        m20: Amp { re: B_ZERO, im: B_ZERO },
        m21: Amp { re: B_ZERO, im: B_NEG_FRAC_1_SQRT_2 },
        m22: Amp { re: B_FRAC_1_SQRT_2, im: B_ZERO },
        m23: Amp { re: B_ZERO, im: B_ZERO },
        m30: Amp { re: B_ZERO, im: B_NEG_FRAC_1_SQRT_2 },
        m31: Amp { re: B_ZERO, im: B_ZERO },
        m32: Amp { re: B_ZERO, im: B_ZERO },
        m33: Amp { re: B_FRAC_1_SQRT_2, im: B_ZERO },
    }
}

} // verus!
