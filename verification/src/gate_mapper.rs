//! Resolution of gate names to operator matrices.
//!
//! The driver hands each gate's name and parameters to this module, which
//! returns the 2x2 or 4x4 matrix to apply.  Taking the hermitian conjugate
//! swaps a gate with its adjoint: constant gates map to their dagger
//! partner, rotation-family gates negate their angle, and the `u3` family
//! swaps `phi` with `lambda`.  Every error case is pinned exactly by a
//! spec twin, and so is the returned matrix of every constant gate; a
//! matrix that depends on a platform-dependent trigonometric result is
//! pinned only at the builder's level (its fixed entries and shape).

use vstd::prelude::*;

verus! {

use crate::SimError;
use crate::circuit::Gate;
use crate::complex::{str_eq, parse_f32, spec_parse_f32, fneg, fpowf, B_TWO};
use crate::gates::{
    Op1,
    Op2,
    identity,
    spec_identity,
    pauli_x,
    spec_pauli_x,
    pauli_y,
    spec_pauli_y,
    pauli_z,
    spec_pauli_z,
    c_gate,
    spec_c_gate,
    c_dagger,
    spec_c_dagger,
    hadamard,
    spec_hadamard,
    hadamard_xy,
    spec_hadamard_xy,
    hadamard_yz,
    spec_hadamard_yz,
    hadamard_zx,
    spec_hadamard_zx,
    t_gate,
    t_dagger,
    s_gate,
    spec_s_gate,
    s_dagger,
    spec_s_dagger,
    v_gate,
    spec_v_gate,
    v_dagger,
    spec_v_dagger,
    h_gate,
    spec_h_gate,
    h_dagger,
    spec_h_dagger,
    u3,
    u2,
    u1,
    p_gate,
    rx_theta,
    pauli_x_root,
    pauli_x_root_dagger,
    ry_theta,
    pauli_y_root,
    pauli_y_root_dagger,
    rz_theta,
    pauli_z_root,
    pauli_z_root_dagger,
    hadamard_times_s_dagger,
    spec_hadamard_times_s_dagger,
    swap,
    spec_swap,
    iswap,
    spec_iswap,
    iswap_dagger,
    spec_iswap_dagger,
    fswap,
    spec_fswap,
    sqrt_swap,
    spec_sqrt_swap,
    sqrt_swap_dagger,
    spec_sqrt_swap_dagger,
    berkeley,
    berkeley_dagger,
    ecp,
    ecp_dagger,
    magic,
    spec_magic,
    magic_dagger,
    spec_magic_dagger,
    molmer_sorensen,
    spec_molmer_sorensen,
    molmer_sorensen_dagger,
    spec_molmer_sorensen_dagger,
    w_gate,
    spec_w_gate,
    a_gate,
    cross_resonance,
    cross_resonance_dagger,
    givens,
    swap_with_add_phase,
    swap_root,
    swap_root_dagger,
    xx,
    yy,
    zz,
    xy,
    x_basis_to_standard_basis_rotation,
    spec_x_basis_to_standard_basis_rotation,
    y_basis_to_standard_basis_rotation,
    spec_y_basis_to_standard_basis_rotation,
    standard_basis_to_x_basis_rotation,
    spec_standard_basis_to_x_basis_rotation,
    standard_basis_to_y_basis_rotation,
    spec_standard_basis_to_y_basis_rotation,
};

/// The view of an optional string.
pub open spec fn opt_string_view(o: Option<String>) -> Option<Seq<char>> {
    match o {
        Some(s) => Some(s@),
        None => None,
    }
}

/// The numeric part of a root string: the whole string with a leading
/// "1/" dropped.
pub open spec fn spec_root_body(s: Seq<char>) -> Seq<char> {
    if s.len() >= 2 && s[0] == '1' && s[1] == '/' {
        s.subrange(2, s.len() as int)
    } else {
        s
    }
}

/// Why a root fraction string is rejected: its numeric part (after "2^",
/// when present) does not parse as a number.
pub open spec fn spec_value_from_root_err(s: Seq<char>, step: u16) -> Option<SimError> {
    let t = spec_root_body(s);
    if t.len() >= 2 && t[0] == '2' && t[1] == '^' {
        if spec_parse_f32(t.subrange(2, t.len() as int)) is None {
            Some(SimError::MalformedRoot { step })
        } else {
            None
        }
    } else {
        if spec_parse_f32(t) is None {
            Some(SimError::MalformedRoot { step })
        } else {
            None
        }
    }
}

/// The value a plain root string (no "2^") denotes; a "2^" root's value
/// goes through the platform-dependent `powf` and is not pinned.
pub open spec fn spec_value_from_root_plain(s: Seq<char>) -> Option<u32> {
    let t = spec_root_body(s);
    if t.len() >= 2 && t[0] == '2' && t[1] == '^' {
        None
    } else {
        spec_parse_f32(t)
    }
}

/// Reads a root fraction string "t", "1/t", "2^t" or "1/2^t" into the f32
/// bit pattern of its value, two raised to the power t for the "2^" forms.
pub fn get_value_from_root(root_value: &str, step: u16) -> (r: Result<u32, SimError>)
    ensures
        (r is Err <==> spec_value_from_root_err(root_value@, step) is Some),
        (r matches Err(e) ==> spec_value_from_root_err(root_value@, step) == Some(e)),
        (spec_value_from_root_plain(root_value@) matches Some(v) ==> r == Ok::<u32, SimError>(v)),
{
    let n: usize = root_value.unicode_len();
    let stripped = if n >= 2 && root_value.get_char(0) == '1' && root_value.get_char(1) == '/' {
        root_value.substring_char(2, n)
    } else {
        root_value.substring_char(0, n)
    };
    proof {
        assert(root_value@.subrange(0, root_value@.len() as int) =~= root_value@);
    }
    let m: usize = stripped.unicode_len();
    if m >= 2 && stripped.get_char(0) == '2' && stripped.get_char(1) == '^' {
        match parse_f32(stripped.substring_char(2, m)) {
            Some(e) => Ok(fpowf(B_TWO, e)),
            None => Err(SimError::MalformedRoot { step }),
        }
    } else {
        proof {
            assert(stripped@.subrange(0, stripped@.len() as int) =~= stripped@);
        }
        match parse_f32(stripped.substring_char(0, m)) {
            Some(v) => Ok(v),
            None => Err(SimError::MalformedRoot { step }),
        }
    }
}

/// Why a named single-qubit operator resolution fails, or nothing on success: the
/// error does not depend on the conjugation flag.
pub open spec fn spec_single_operator_err(name: Seq<char>, theta: Option<u32>, phi: Option<u32>, lambda_p: Option<u32>, root: Option<Seq<char>>, step: u16) -> Option<SimError> {
    if name == "identity"@ {
        None
    } else if name == "pauli-x"@ {
        None
    } else if name == "pauli-y"@ {
        None
    } else if name == "pauli-z"@ {
        None
    } else if name == "c"@ {
        None
    } else if name == "c-dagger"@ {
        None
    } else if name == "hadamard"@ {
        None
    } else if name == "hadamard-xy"@ {
        None
    } else if name == "hadamard-yz"@ {
        None
    } else if name == "hadamard-zx"@ {
        None
    } else if name == "t"@ {
        None
    } else if name == "t-dagger"@ {
        None
    } else if name == "s"@ {
        None
    } else if name == "s-dagger"@ {
        None
    } else if name == "v"@ {
        None
    } else if name == "v-dagger"@ {
        None
    } else if name == "h"@ {
        None
    } else if name == "h-dagger"@ {
        None
    } else if name == "u3"@ {
        if theta is None || phi is None || lambda_p is None { Some(SimError::MissingParameter { step }) } else { None }
    } else if name == "u2"@ {
        if phi is None || lambda_p is None { Some(SimError::MissingParameter { step }) } else { None }
    } else if name == "u1"@ {
        if lambda_p is None { Some(SimError::MissingParameter { step }) } else { None }
    } else if name == "p"@ {
        if theta is None { Some(SimError::MissingParameter { step }) } else { None }
    } else if name == "rx-theta"@ {
        if theta is None { Some(SimError::MissingParameter { step }) } else { None }
    } else if name == "pauli-x-root"@ {
        match root {
                    Some(rv) => spec_value_from_root_err(rv, step),
                    None => Some(SimError::MissingParameter { step }),
                }
    } else if name == "pauli-x-root-dagger"@ {
        match root {
                    Some(rv) => spec_value_from_root_err(rv, step),
                    None => Some(SimError::MissingParameter { step }),
                }
    } else if name == "ry-theta"@ {
        if theta is None { Some(SimError::MissingParameter { step }) } else { None }
    } else if name == "pauli-y-root"@ {
        match root {
                    Some(rv) => spec_value_from_root_err(rv, step),
                    None => Some(SimError::MissingParameter { step }),
                }
    } else if name == "pauli-y-root-dagger"@ {
        match root {
                    Some(rv) => spec_value_from_root_err(rv, step),
                    None => Some(SimError::MissingParameter { step }),
                }
    } else if name == "rz-theta"@ {
        if theta is None { Some(SimError::MissingParameter { step }) } else { None }
    } else if name == "pauli-z-root"@ {
        match root {
                    Some(rv) => spec_value_from_root_err(rv, step),
                    None => Some(SimError::MissingParameter { step }),
                }
    } else if name == "pauli-z-root-dagger"@ {
        match root {
                    Some(rv) => spec_value_from_root_err(rv, step),
                    None => Some(SimError::MissingParameter { step }),
                }
    } else if name == "measure-x"@ {
        None
    } else if name == "measure-y"@ {
        None
    } else {
        Some(SimError::UnknownGate { step })
    }
}

/// The exact matrix a constant single-qubit operator name resolves to, if its family
/// carries no platform-dependent entries.
pub open spec fn spec_single_operator_fixed(name: Seq<char>, conjugate: bool) -> Option<Op1> {
    if name == "identity"@ {
        Some(spec_identity())
    } else if name == "pauli-x"@ {
        Some(spec_pauli_x())
    } else if name == "pauli-y"@ {
        Some(spec_pauli_y())
    } else if name == "pauli-z"@ {
        Some(spec_pauli_z())
    } else if name == "c"@ {
        if !conjugate { Some(spec_c_gate()) } else { Some(spec_c_dagger()) }
    } else if name == "c-dagger"@ {
        if !conjugate { Some(spec_c_dagger()) } else { Some(spec_c_gate()) }
    } else if name == "hadamard"@ {
        Some(spec_hadamard())
    } else if name == "hadamard-xy"@ {
        Some(spec_hadamard_xy())
    } else if name == "hadamard-yz"@ {
        Some(spec_hadamard_yz())
    } else if name == "hadamard-zx"@ {
        Some(spec_hadamard_zx())
    } else if name == "t"@ {
        None
    } else if name == "t-dagger"@ {
        None
    } else if name == "s"@ {
        if !conjugate { Some(spec_s_gate()) } else { Some(spec_s_dagger()) }
    } else if name == "s-dagger"@ {
        if !conjugate { Some(spec_s_dagger()) } else { Some(spec_s_gate()) }
    } else if name == "v"@ {
        if !conjugate { Some(spec_v_gate()) } else { Some(spec_v_dagger()) }
    } else if name == "v-dagger"@ {
        if !conjugate { Some(spec_v_dagger()) } else { Some(spec_v_gate()) }
    } else if name == "h"@ {
        if !conjugate { Some(spec_h_gate()) } else { Some(spec_h_dagger()) }
    } else if name == "h-dagger"@ {
        if !conjugate { Some(spec_h_dagger()) } else { Some(spec_h_gate()) }
    } else if name == "u3"@ {
        None
    } else if name == "u2"@ {
        None
    } else if name == "u1"@ {
        None
    } else if name == "p"@ {
        None
    } else if name == "rx-theta"@ {
        None
    } else if name == "pauli-x-root"@ {
        None
    } else if name == "pauli-x-root-dagger"@ {
        None
    } else if name == "ry-theta"@ {
        None
    } else if name == "pauli-y-root"@ {
        None
    } else if name == "pauli-y-root-dagger"@ {
        None
    } else if name == "rz-theta"@ {
        None
    } else if name == "pauli-z-root"@ {
        None
    } else if name == "pauli-z-root-dagger"@ {
        None
    } else if name == "measure-x"@ {
        Some(spec_hadamard())
    } else if name == "measure-y"@ {
        Some(spec_hadamard_times_s_dagger())
    } else {
        None
    }
}

/// Resolves a single-qubit operator: the error cases are pinned exactly, and so is
/// the matrix whenever the family is free of platform-dependent
/// trigonometric entries.
pub fn resolve_single_operator(name: &str, theta: Option<u32>, phi: Option<u32>, lambda_p: Option<u32>, root: Option<&String>, conjugate: bool, step: u16) -> (r: Result<Op1, SimError>)
    ensures
        (r is Err <==> spec_single_operator_err(name@, theta, phi, lambda_p, match root { Some(s) => Some(s@), None => None }, step) is Some),
        (r matches Err(e) ==> spec_single_operator_err(name@, theta, phi, lambda_p, match root { Some(s) => Some(s@), None => None }, step) == Some(e)),
        (r matches Ok(op) ==> (spec_single_operator_fixed(name@, conjugate) matches Some(f) ==> op == f)),
{
    if str_eq(name, "identity") {
        Ok(identity())
    } else if str_eq(name, "pauli-x") {
        Ok(pauli_x())
    } else if str_eq(name, "pauli-y") {
        Ok(pauli_y())
    } else if str_eq(name, "pauli-z") {
        Ok(pauli_z())
    } else if str_eq(name, "c") {
        if !conjugate { Ok(c_gate()) } else { Ok(c_dagger()) }
    } else if str_eq(name, "c-dagger") {
        if !conjugate { Ok(c_dagger()) } else { Ok(c_gate()) }
    } else if str_eq(name, "hadamard") {
        Ok(hadamard())
    } else if str_eq(name, "hadamard-xy") {
        Ok(hadamard_xy())
    } else if str_eq(name, "hadamard-yz") {
        Ok(hadamard_yz())
    } else if str_eq(name, "hadamard-zx") {
        Ok(hadamard_zx())
    } else if str_eq(name, "t") {
        if !conjugate { Ok(t_gate()) } else { Ok(t_dagger()) }
    } else if str_eq(name, "t-dagger") {
        if !conjugate { Ok(t_dagger()) } else { Ok(t_gate()) }
    } else if str_eq(name, "s") {
        if !conjugate { Ok(s_gate()) } else { Ok(s_dagger()) }
    } else if str_eq(name, "s-dagger") {
        if !conjugate { Ok(s_dagger()) } else { Ok(s_gate()) }
    } else if str_eq(name, "v") {
        if !conjugate { Ok(v_gate()) } else { Ok(v_dagger()) }
    } else if str_eq(name, "v-dagger") {
        if !conjugate { Ok(v_dagger()) } else { Ok(v_gate()) }
    } else if str_eq(name, "h") {
        if !conjugate { Ok(h_gate()) } else { Ok(h_dagger()) }
    } else if str_eq(name, "h-dagger") {
        if !conjugate { Ok(h_dagger()) } else { Ok(h_gate()) }
    } else if str_eq(name, "u3") {
        match (theta, phi, lambda_p) {
                    (Some(t), Some(ph), Some(l)) => {
                        if conjugate { Ok(u3(t, l, ph)) } else { Ok(u3(t, ph, l)) }
                    },
                    _ => Err(SimError::MissingParameter { step }),
                }
    } else if str_eq(name, "u2") {
        match (phi, lambda_p) {
                    (Some(ph), Some(l)) => {
                        if conjugate { Ok(u2(l, ph)) } else { Ok(u2(ph, l)) }
                    },
                    _ => Err(SimError::MissingParameter { step }),
                }
    } else if str_eq(name, "u1") {
        match lambda_p {
                    Some(v) => {
                        if conjugate { Ok(u1(fneg(v))) } else { Ok(u1(v)) }
                    },
                    None => Err(SimError::MissingParameter { step }),
                }
    } else if str_eq(name, "p") {
        match theta {
                    Some(v) => {
                        if conjugate { Ok(p_gate(fneg(v))) } else { Ok(p_gate(v)) }
                    },
                    None => Err(SimError::MissingParameter { step }),
                }
    } else if str_eq(name, "rx-theta") {
        match theta {
                    Some(v) => {
                        if conjugate { Ok(rx_theta(fneg(v))) } else { Ok(rx_theta(v)) }
                    },
                    None => Err(SimError::MissingParameter { step }),
                }
    } else if str_eq(name, "pauli-x-root") {
        match root {
                    Some(rv) => match get_value_from_root(rv.as_str(), step) {
                        Ok(v) => {
                            if !conjugate { Ok(pauli_x_root(v)) } else { Ok(pauli_x_root_dagger(v)) }
                        },
                        Err(e) => Err(e),
                    },
                    None => Err(SimError::MissingParameter { step }),
                }
    } else if str_eq(name, "pauli-x-root-dagger") {
        match root {
                    Some(rv) => match get_value_from_root(rv.as_str(), step) {
                        Ok(v) => {
                            if !conjugate { Ok(pauli_x_root_dagger(v)) } else { Ok(pauli_x_root(v)) }
                        },
                        Err(e) => Err(e),
                    },
                    None => Err(SimError::MissingParameter { step }),
                }
    } else if str_eq(name, "ry-theta") {
        match theta {
                    Some(v) => {
                        if conjugate { Ok(ry_theta(fneg(v))) } else { Ok(ry_theta(v)) }
                    },
                    None => Err(SimError::MissingParameter { step }),
                }
    } else if str_eq(name, "pauli-y-root") {
        match root {
                    Some(rv) => match get_value_from_root(rv.as_str(), step) {
                        Ok(v) => {
                            if !conjugate { Ok(pauli_y_root(v)) } else { Ok(pauli_y_root_dagger(v)) }
                        },
                        Err(e) => Err(e),
                    },
                    None => Err(SimError::MissingParameter { step }),
                }
    } else if str_eq(name, "pauli-y-root-dagger") {
        match root {
                    Some(rv) => match get_value_from_root(rv.as_str(), step) {
                        Ok(v) => {
                            if !conjugate { Ok(pauli_y_root_dagger(v)) } else { Ok(pauli_y_root(v)) }
                        },
                        Err(e) => Err(e),
                    },
                    None => Err(SimError::MissingParameter { step }),
                }
    } else if str_eq(name, "rz-theta") {
        match theta {
                    Some(v) => {
                        if conjugate { Ok(rz_theta(fneg(v))) } else { Ok(rz_theta(v)) }
                    },
                    None => Err(SimError::MissingParameter { step }),
                }
    } else if str_eq(name, "pauli-z-root") {
        match root {
                    Some(rv) => match get_value_from_root(rv.as_str(), step) {
                        Ok(v) => {
                            if !conjugate { Ok(pauli_z_root(v)) } else { Ok(pauli_z_root_dagger(v)) }
                        },
                        Err(e) => Err(e),
                    },
                    None => Err(SimError::MissingParameter { step }),
                }
    } else if str_eq(name, "pauli-z-root-dagger") {
        match root {
                    Some(rv) => match get_value_from_root(rv.as_str(), step) {
                        Ok(v) => {
                            if !conjugate { Ok(pauli_z_root_dagger(v)) } else { Ok(pauli_z_root(v)) }
                        },
                        Err(e) => Err(e),
                    },
                    None => Err(SimError::MissingParameter { step }),
                }
    } else if str_eq(name, "measure-x") {
        Ok(hadamard())
    } else if str_eq(name, "measure-y") {
        Ok(hadamard_times_s_dagger())
    } else {
        Err(SimError::UnknownGate { step })
    }
}

/// Why a named two-qubit operator resolution fails, or nothing on success: the
/// error does not depend on the conjugation flag.
pub open spec fn spec_double_operator_err(name: Seq<char>, theta: Option<u32>, phi: Option<u32>, lambda_p: Option<u32>, root: Option<Seq<char>>, step: u16) -> Option<SimError> {
    if name == "swap"@ {
        None
    } else if name == "iswap"@ {
        None
    } else if name == "fswap"@ {
        None
    } else if name == "sqrt-swap"@ {
        None
    } else if name == "sqrt-swap-dagger"@ {
        None
    } else if name == "berkeley"@ {
        None
    } else if name == "berkeley-dagger"@ {
        None
    } else if name == "ecp"@ {
        None
    } else if name == "ecp-dagger"@ {
        None
    } else if name == "magic"@ {
        None
    } else if name == "magic-dagger"@ {
        None
    } else if name == "molmer-sorensen"@ {
        None
    } else if name == "molmer-sorensen-dagger"@ {
        None
    } else if name == "w"@ {
        None
    } else if name == "a"@ {
        if theta is None || phi is None { Some(SimError::MissingParameter { step }) } else { None }
    } else if name == "cross-resonance"@ {
        if theta is None { Some(SimError::MissingParameter { step }) } else { None }
    } else if name == "cross-resonance-dagger"@ {
        if theta is None { Some(SimError::MissingParameter { step }) } else { None }
    } else if name == "givens"@ {
        if theta is None { Some(SimError::MissingParameter { step }) } else { None }
    } else if name == "swap-theta"@ {
        if theta is None { Some(SimError::MissingParameter { step }) } else { None }
    } else if name == "swap-root"@ {
        match root {
                    Some(rv) => spec_value_from_root_err(rv, step),
                    None => Some(SimError::MissingParameter { step }),
                }
    } else if name == "swap-root-dagger"@ {
        match root {
                    Some(rv) => spec_value_from_root_err(rv, step),
                    None => Some(SimError::MissingParameter { step }),
                }
    } else if name == "xx"@ {
        if theta is None { Some(SimError::MissingParameter { step }) } else { None }
    } else if name == "yy"@ {
        if theta is None { Some(SimError::MissingParameter { step }) } else { None }
    } else if name == "zz"@ {
        if theta is None { Some(SimError::MissingParameter { step }) } else { None }
    } else if name == "xy"@ {
        if theta is None { Some(SimError::MissingParameter { step }) } else { None }
    } else {
        Some(SimError::UnknownGate { step })
    }
}

/// The exact matrix a constant two-qubit operator name resolves to, if its family
/// carries no platform-dependent entries.
pub open spec fn spec_double_operator_fixed(name: Seq<char>, conjugate: bool) -> Option<Op2> {
    if name == "swap"@ {
        Some(spec_swap())
    } else if name == "iswap"@ {
        if !conjugate { Some(spec_iswap()) } else { Some(spec_iswap_dagger()) }
    } else if name == "fswap"@ {
        Some(spec_fswap())
    } else if name == "sqrt-swap"@ {
        if !conjugate { Some(spec_sqrt_swap()) } else { Some(spec_sqrt_swap_dagger()) }
    } else if name == "sqrt-swap-dagger"@ {
        if !conjugate { Some(spec_sqrt_swap_dagger()) } else { Some(spec_sqrt_swap()) }
    } else if name == "berkeley"@ {
        None
    } else if name == "berkeley-dagger"@ {
        None
    } else if name == "ecp"@ {
        None
    } else if name == "ecp-dagger"@ {
        None
    } else if name == "magic"@ {
        if !conjugate { Some(spec_magic()) } else { Some(spec_magic_dagger()) }
    } else if name == "magic-dagger"@ {
        if !conjugate { Some(spec_magic_dagger()) } else { Some(spec_magic()) }
    } else if name == "molmer-sorensen"@ {
        if !conjugate { Some(spec_molmer_sorensen()) } else { Some(spec_molmer_sorensen_dagger()) }
    } else if name == "molmer-sorensen-dagger"@ {
        if !conjugate { Some(spec_molmer_sorensen_dagger()) } else { Some(spec_molmer_sorensen()) }
    } else if name == "w"@ {
        Some(spec_w_gate())
    } else if name == "a"@ {
        None
    } else if name == "cross-resonance"@ {
        None
    } else if name == "cross-resonance-dagger"@ {
        None
    } else if name == "givens"@ {
        None
    } else if name == "swap-theta"@ {
        None
    } else if name == "swap-root"@ {
        None
    } else if name == "swap-root-dagger"@ {
        None
    } else if name == "xx"@ {
        None
    } else if name == "yy"@ {
        None
    } else if name == "zz"@ {
        None
    } else if name == "xy"@ {
        None
    } else {
        None
    }
}

/// Resolves a two-qubit operator: the error cases are pinned exactly, and so is
/// the matrix whenever the family is free of platform-dependent
/// trigonometric entries.
pub fn resolve_double_operator(name: &str, theta: Option<u32>, phi: Option<u32>, lambda_p: Option<u32>, root: Option<&String>, conjugate: bool, step: u16) -> (r: Result<Op2, SimError>)
    ensures
        (r is Err <==> spec_double_operator_err(name@, theta, phi, lambda_p, match root { Some(s) => Some(s@), None => None }, step) is Some),
        (r matches Err(e) ==> spec_double_operator_err(name@, theta, phi, lambda_p, match root { Some(s) => Some(s@), None => None }, step) == Some(e)),
        (r matches Ok(op) ==> (spec_double_operator_fixed(name@, conjugate) matches Some(f) ==> op == f)),
{
    if str_eq(name, "swap") {
        Ok(swap())
    } else if str_eq(name, "iswap") {
        if !conjugate { Ok(iswap()) } else { Ok(iswap_dagger()) }
    } else if str_eq(name, "fswap") {
        Ok(fswap())
    } else if str_eq(name, "sqrt-swap") {
        if !conjugate { Ok(sqrt_swap()) } else { Ok(sqrt_swap_dagger()) }
    } else if str_eq(name, "sqrt-swap-dagger") {
        if !conjugate { Ok(sqrt_swap_dagger()) } else { Ok(sqrt_swap()) }
    } else if str_eq(name, "berkeley") {
        if !conjugate { Ok(berkeley()) } else { Ok(berkeley_dagger()) }
    } else if str_eq(name, "berkeley-dagger") {
        if !conjugate { Ok(berkeley_dagger()) } else { Ok(berkeley()) }
    } else if str_eq(name, "ecp") {
        if !conjugate { Ok(ecp()) } else { Ok(ecp_dagger()) }
    } else if str_eq(name, "ecp-dagger") {
        if !conjugate { Ok(ecp_dagger()) } else { Ok(ecp()) }
    } else if str_eq(name, "magic") {
        if !conjugate { Ok(magic()) } else { Ok(magic_dagger()) }
    } else if str_eq(name, "magic-dagger") {
        if !conjugate { Ok(magic_dagger()) } else { Ok(magic()) }
    } else if str_eq(name, "molmer-sorensen") {
        if !conjugate { Ok(molmer_sorensen()) } else { Ok(molmer_sorensen_dagger()) }
    } else if str_eq(name, "molmer-sorensen-dagger") {
        if !conjugate { Ok(molmer_sorensen_dagger()) } else { Ok(molmer_sorensen()) }
    } else if str_eq(name, "w") {
        Ok(w_gate())
    } else if str_eq(name, "a") {
        match (theta, phi) {
                    (Some(t), Some(ph)) => Ok(a_gate(t, ph)),
                    _ => Err(SimError::MissingParameter { step }),
                }
    } else if str_eq(name, "cross-resonance") {
        match theta {
                    Some(v) => {
                        if !conjugate { Ok(cross_resonance(v)) } else { Ok(cross_resonance_dagger(v)) }
                    },
                    None => Err(SimError::MissingParameter { step }),
                }
    } else if str_eq(name, "cross-resonance-dagger") {
        match theta {
                    Some(v) => {
                        if !conjugate { Ok(cross_resonance_dagger(v)) } else { Ok(cross_resonance(v)) }
                    },
                    None => Err(SimError::MissingParameter { step }),
                }
    } else if str_eq(name, "givens") {
        match theta {
                    Some(v) => Ok(givens(v)),
                    None => Err(SimError::MissingParameter { step }),
                }
    } else if str_eq(name, "swap-theta") {
        match theta {
                    Some(v) => {
                        if conjugate { Ok(swap_with_add_phase(fneg(v))) } else { Ok(swap_with_add_phase(v)) }
                    },
                    None => Err(SimError::MissingParameter { step }),
                }
    } else if str_eq(name, "swap-root") {
        match root {
                    Some(rv) => match get_value_from_root(rv.as_str(), step) {
                        Ok(v) => {
                            if !conjugate { Ok(swap_root_dagger(v)) } else { Ok(swap_root(v)) }
                        },
                        Err(e) => Err(e),
                    },
                    None => Err(SimError::MissingParameter { step }),
                }
    } else if str_eq(name, "swap-root-dagger") {
        match root {
                    Some(rv) => match get_value_from_root(rv.as_str(), step) {
                        Ok(v) => {
                            if !conjugate { Ok(swap_root(v)) } else { Ok(swap_root_dagger(v)) }
                        },
                        Err(e) => Err(e),
                    },
                    None => Err(SimError::MissingParameter { step }),
                }
    } else if str_eq(name, "xx") {
        match theta {
                    Some(v) => {
                        if conjugate { Ok(xx(fneg(v))) } else { Ok(xx(v)) }
                    },
                    None => Err(SimError::MissingParameter { step }),
                }
    } else if str_eq(name, "yy") {
        match theta {
                    Some(v) => {
                        if conjugate { Ok(yy(fneg(v))) } else { Ok(yy(v)) }
                    },
                    None => Err(SimError::MissingParameter { step }),
                }
    } else if str_eq(name, "zz") {
        match theta {
                    Some(v) => {
                        if conjugate { Ok(zz(fneg(v))) } else { Ok(zz(v)) }
                    },
                    None => Err(SimError::MissingParameter { step }),
                }
    } else if str_eq(name, "xy") {
        match theta {
                    Some(v) => {
                        if conjugate { Ok(xy(fneg(v))) } else { Ok(xy(v)) }
                    },
                    None => Err(SimError::MissingParameter { step }),
                }
    } else {
        Err(SimError::UnknownGate { step })
    }
}

/// The single-qubit operator of a gate value.
pub fn get_single_qubit_operator(gate: &Gate, conjugate: bool, step: u16) -> (r: Result<Op1, SimError>)
    ensures
        (r is Err <==> spec_single_operator_err(gate.name@, gate.theta, gate.phi, gate.lambda, opt_string_view(gate.root), step) is Some),
        (r matches Err(e) ==> spec_single_operator_err(gate.name@, gate.theta, gate.phi, gate.lambda, opt_string_view(gate.root), step) == Some(e)),
        (r matches Ok(op) ==> (spec_single_operator_fixed(gate.name@, conjugate) matches Some(f) ==> op == f)),
{
    resolve_single_operator(gate.name.as_str(), gate.theta, gate.phi, gate.lambda, gate.root.as_ref(), conjugate, step)
}

/// The two-qubit operator of a gate value.
pub fn get_double_target_operator(gate: &Gate, conjugate: bool, step: u16) -> (r: Result<Op2, SimError>)
    ensures
        (r is Err <==> spec_double_operator_err(gate.name@, gate.theta, gate.phi, gate.lambda, opt_string_view(gate.root), step) is Some),
        (r matches Err(e) ==> spec_double_operator_err(gate.name@, gate.theta, gate.phi, gate.lambda, opt_string_view(gate.root), step) == Some(e)),
        (r matches Ok(op) ==> (spec_double_operator_fixed(gate.name@, conjugate) matches Some(f) ==> op == f)),
{
    resolve_double_operator(gate.name.as_str(), gate.theta, gate.phi, gate.lambda, gate.root.as_ref(), conjugate, step)
}

/// The rotation that carries the X or Y control basis onto the
/// computational basis, applied before a controlled operation whose
/// control sits in a superposition basis.
pub fn get_qubit_rotation_operator(x_basis: bool) -> (r: Op1)
    ensures
        r == if x_basis { spec_x_basis_to_standard_basis_rotation() } else { spec_y_basis_to_standard_basis_rotation() },
{
    if x_basis {
        x_basis_to_standard_basis_rotation()
    } else {
        y_basis_to_standard_basis_rotation()
    }
}

/// The rotation that carries the computational basis back onto the X or Y
/// control basis, undoing `get_qubit_rotation_operator`.
pub fn get_qubit_undo_rotation_operator(x_basis: bool) -> (r: Op1)
    ensures
        r == if x_basis { spec_standard_basis_to_x_basis_rotation() } else { spec_standard_basis_to_y_basis_rotation() },
{
    if x_basis {
        standard_basis_to_x_basis_rotation()
    } else {
        standard_basis_to_y_basis_rotation()
    }
}

} // verus!
