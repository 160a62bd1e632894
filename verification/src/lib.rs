//! A quantum-circuit statevector simulator.
//!
//! A circuit is an ordered collection of steps, each holding gates that act
//! simultaneously on distinct qubits.  The simulator evolves a dense vector of
//! `2^n` complex amplitudes in place, then samples measurement outcomes or
//! reports exact probabilities.  Amplitudes are carried as IEEE-754 bit
//! patterns so that every piece of index arithmetic, validation, and control
//! flow is verified; the numeric kernels themselves are small trusted
//! wrappers around the `num_complex` and `rand` crates.

use vstd::prelude::*;

pub mod addressing;
pub mod circuit;
pub mod complex;
pub mod engine;
pub mod gate_mapper;
pub mod gates;
pub mod measurement;
pub mod simulator;

verus! {

use vstd::arithmetic::power2::pow2;
use crate::circuit::CircuitState;
use crate::complex::{Amp, B_ZERO};
use crate::measurement::{
    seq_sum,
    map_wf,
    spec_map_is_empty,
    spec_pairs,
    spec_results_len,
    spec_max_bit,
    spec_probabilities_loop,
};
use crate::engine::{
    spec_find_circuit,
    spec_no_measure_gates,
    spec_subcircuit_rel,
    spec_initial_statevector,
    spec_empty_map,
    RControl,
};
use crate::simulator::{spec_parse_endianess, spec_reorder};

/// The largest supported qubit count: a statevector of `2^30` amplitudes
/// (eight bytes each) already needs 8 GiB of memory.
pub const MAX_QUBIT_COUNT: u8 = 30;

/// The errors a simulation run can report.  All of them abort the run: a
/// circuit has no partial meaning.
#[derive(Clone, Copy, PartialEq, Eq, Structural, Debug)]
pub enum SimError {
    /// The requested or inferred qubit count is above `MAX_QUBIT_COUNT`.
    QubitCountTooLarge { qubit_count: u16 },
    /// The endianness string is neither "bigendian" nor "littleendian".
    UnknownEndianness,
    /// A gate references a qubit at or above the qubit count.
    QubitOutOfRange { qubit: u16, step: u16 },
    /// A gate references a qubit that an earlier measurement consumed.
    QubitMeasured { qubit: u8, step: u16 },
    /// A qubit is referenced twice within one step.
    QubitReused { qubit: u8, step: u16 },
    /// A control carries a state other than "0", "1", "+", "-", "+i", "-i".
    UnknownControlState { step: u16 },
    /// A gate has no targets and no aggregated gates.
    NoTargets { step: u16 },
    /// A gate has more targets than its kind permits.
    TooManyTargets { step: u16 },
    /// A measurement writes to a classical bit at or above the qubit count.
    MeasurementBitOutOfRange { bit: u8, qubit: u8 },
    /// A gate's name is not in the catalogue.
    UnknownGate { step: u16 },
    /// A parametrized gate misses a required numeric parameter.
    MissingParameter { step: u16 },
    /// A root fraction string does not parse.
    MalformedRoot { step: u16 },
    /// A "circuit" gate names a circuit id that was not provided.
    UnknownCircuit { circuit_id: i32 },
    /// Sub-circuits are nested deeper than the number of circuits, which
    /// only a circular reference can cause.
    NestingTooDeep,
}

/// Samples the named circuit over `shots` runs and histograms the
/// classical outcomes.
pub fn simulate(
    circuits: &Vec<CircuitState>,
    current_circuit_id: i32,
    shots: u32,
    endianess: Option<String>,
    qubit_count: Option<u8>,
) -> (r: Result<Vec<u32>, SimError>)
    ensures
        (spec_parse_endianess(endianess) matches Err(e) ==> r == Err::<Vec<u32>, SimError>(e)),
        (r matches Ok(counts) ==> counts@.len() == 0 || seq_sum(counts@, counts@.len() as int)
            == shots),
        (r matches Ok(counts) ==> (shots == 0 ==> forall|j: int|
            0 <= j < counts@.len() ==> (#[trigger] counts@[j]) == 0u32)),
        qubit_count == Some(0u8) && (spec_parse_endianess(endianess) is Ok) ==> (r
            matches Ok(counts) && counts@.len() == 0),
        (qubit_count matches Some(c) ==> (c > MAX_QUBIT_COUNT && (spec_parse_endianess(endianess)
            is Ok) ==> r == Err::<Vec<u32>, SimError>(
            SimError::QubitCountTooLarge { qubit_count: c as u16 },
        ))),
        (qubit_count matches Some(c) ==> (0 < c <= MAX_QUBIT_COUNT && (spec_parse_endianess(
            endianess,
        ) is Ok) && shots == 0 ==> (r matches Ok(counts) && counts@.len() == pow2(c as nat)))),
        (qubit_count matches Some(c) ==> (0 < c ==> (r matches Ok(counts) ==> counts@.len()
            > 0))),
        (qubit_count matches Some(c) ==> (0 < c && spec_no_measure_gates(circuits@) ==> (r
            matches Ok(counts) ==> counts@.len() == pow2(c as nat)))),
        (r matches Ok(counts) ==> (shots > 0 && counts@.len() > 0 ==> (exists|c: u8,
            sv: Seq<Amp>,
            m: Seq<Option<u8>>,
        |
            {
                &&& 0 < c <= MAX_QUBIT_COUNT
                &&& (qubit_count matches Some(c0) ==> c0 == c)
                &&& map_wf(m, c)
                &&& #[trigger] spec_subcircuit_rel(
                    spec_initial_statevector(c),
                    sv,
                    spec_empty_map(c),
                    m,
                    current_circuit_id,
                    0,
                    c,
                    circuits@,
                    Seq::<RControl>::empty(),
                    circuits@.len() as nat,
                    false,
                )
                &&& counts@.len() == spec_results_len(m, c)
            }))),
{
    simulator::simulate(circuits, current_circuit_id, shots, endianess, qubit_count)
}

/// Returns the final statevector of the named circuit.
pub fn get_statevector(
    circuits: &Vec<CircuitState>,
    current_circuit_id: i32,
    endianess: Option<String>,
    qubit_count: Option<u8>,
) -> (r: Result<Vec<Amp>, SimError>)
    ensures
        (spec_parse_endianess(endianess) matches Err(e) ==> r == Err::<Vec<Amp>, SimError>(e)),
        (r matches Ok(amplitudes) ==> (qubit_count matches Some(c) ==> (c == 0
            && amplitudes@.len() == 0) || amplitudes@.len() == pow2(c as nat))),
        (qubit_count matches Some(c) ==> (0 < c <= MAX_QUBIT_COUNT && (spec_parse_endianess(
            endianess,
        ) is Ok) && (spec_find_circuit(circuits@, current_circuit_id, circuits@.len() as int)
            matches Some(j) && circuits@[j].circuit.steps@.len() == 0) ==> (r
            matches Ok(amplitudes) && amplitudes@.len() == pow2(c as nat) && amplitudes@[0] == (Amp {
            re: crate::complex::B_ONE,
            im: crate::complex::B_ZERO,
        }) && (forall|k: int|
            0 < k < amplitudes@.len() ==> (#[trigger] amplitudes@[k]) == (Amp {
                re: crate::complex::B_ZERO,
                im: crate::complex::B_ZERO,
            }))))),
        qubit_count == Some(0u8) && (spec_parse_endianess(endianess) is Ok) ==> (r
            matches Ok(amplitudes) && amplitudes@.len() == 0),
        (qubit_count matches Some(c) ==> (c > MAX_QUBIT_COUNT && (spec_parse_endianess(endianess)
            is Ok) ==> r == Err::<Vec<Amp>, SimError>(
            SimError::QubitCountTooLarge { qubit_count: c as u16 },
        ))),
        (spec_parse_endianess(endianess) matches Ok(little) ==> (r matches Ok(amplitudes)
            ==> amplitudes@.len() == 0 || (exists|c: u8, sv: Seq<Amp>, m: Seq<Option<u8>>|
            {
                &&& 0 < c <= MAX_QUBIT_COUNT
                &&& (qubit_count matches Some(c0) ==> c0 == c)
                &&& map_wf(m, c)
                &&& #[trigger] spec_subcircuit_rel(
                    spec_initial_statevector(c),
                    sv,
                    spec_empty_map(c),
                    m,
                    current_circuit_id,
                    0,
                    c,
                    circuits@,
                    Seq::<RControl>::empty(),
                    circuits@.len() as nat,
                    false,
                )
                &&& amplitudes@ == (if little {
                    spec_reorder(sv, c)
                } else {
                    sv
                })
            }))),
{
    simulator::get_statevector(circuits, current_circuit_id, endianess, qubit_count)
}

/// Returns the exact outcome probabilities of the named circuit, as f32
/// bit patterns.
pub fn get_probabilities(
    circuits: &Vec<CircuitState>,
    current_circuit_id: i32,
    endianess: Option<String>,
    qubit_count: Option<u8>,
) -> (r: Result<Vec<u32>, SimError>)
    ensures
        (spec_parse_endianess(endianess) matches Err(e) ==> r == Err::<Vec<u32>, SimError>(e)),
        (qubit_count matches Some(c) ==> (0 < c && spec_no_measure_gates(circuits@) ==> (r
            matches Ok(probabilities) ==> probabilities@.len() == pow2(c as nat)))),
        qubit_count == Some(0u8) && (spec_parse_endianess(endianess) is Ok) ==> (r
            matches Ok(probabilities) && probabilities@.len() == 0),
        (qubit_count matches Some(c) ==> (c > MAX_QUBIT_COUNT && (spec_parse_endianess(endianess)
            is Ok) ==> r == Err::<Vec<u32>, SimError>(
            SimError::QubitCountTooLarge { qubit_count: c as u16 },
        ))),
        (qubit_count matches Some(c) ==> (0 < c ==> (r matches Ok(probabilities)
            ==> probabilities@.len() > 0))),
        (spec_parse_endianess(endianess) matches Ok(little) ==> (r matches Ok(probabilities)
            ==> probabilities@.len() == 0 || (exists|c: u8, sv: Seq<Amp>, m: Seq<Option<u8>>|
            {
                &&& 0 < c <= MAX_QUBIT_COUNT
                &&& (qubit_count matches Some(c0) ==> c0 == c)
                &&& map_wf(m, c)
                &&& #[trigger] spec_subcircuit_rel(
                    spec_initial_statevector(c),
                    sv,
                    spec_empty_map(c),
                    m,
                    current_circuit_id,
                    0,
                    c,
                    circuits@,
                    Seq::<RControl>::empty(),
                    circuits@.len() as nat,
                    false,
                )
                &&& (probabilities@ == ({
                    let hist = spec_probabilities_loop(
                        sv,
                        spec_pairs(m, m.len() as int),
                        Seq::new(spec_results_len(m, c), |j: int| B_ZERO),
                        c as i8,
                        (spec_max_bit(m, m.len() as int) + 1) as i8,
                        pow2(c as nat) as int,
                    );
                    let exponent: u8 = if spec_map_is_empty(m) {
                        c
                    } else {
                        ((spec_max_bit(m, m.len() as int) + 1) as u8)
                    };
                    if little {
                        spec_reorder(hist, exponent)
                    } else {
                        hist
                    }
                }))
            }))),
{
    simulator::get_probabilities(circuits, current_circuit_id, endianess, qubit_count)
}

} // verus!
