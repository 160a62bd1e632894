use moara::SimError;
use moara::circuit::{Circuit, CircuitState, Control, Gate, Step};
use moara::simulator;

fn plain_gate(name: &str, targets: Vec<u8>) -> Gate {
    Gate {
        name: name.to_string(),
        targets,
        controls: Vec::new(),
        gates: Vec::new(),
        bit: None,
        phi: None,
        theta: None,
        lambda: None,
        root: None,
        circuit_id: None,
        circuit_power: None,
    }
}

fn controlled_gate(name: &str, targets: Vec<u8>, control: u8, state: &str) -> Gate {
    let mut gate = plain_gate(name, targets);
    gate.controls = vec![Control { target: control, state: state.to_string() }];
    gate
}

fn one_circuit(steps: Vec<Step>) -> Vec<CircuitState> {
    vec![CircuitState { circuit_id: 0, circuit: Circuit { steps } }]
}

pub fn aprox_equals(a: u32, b: u32, fraction: f32) -> bool {
    let diff = (b as i32 - a as i32).abs();
    let sum = b + a;

    (diff as f32) <= (sum as f32) * fraction
}

#[test]
fn simulator_tests_simple_circuit_works() {
    let circuits = one_circuit(vec![Step { index: 0, gates: vec![plain_gate("hadamard", vec![0])] }]);

    let results =
        simulator::simulate(&circuits, 0, 1000u32, Some("bigendian".to_string()), Some(1u8))
            .unwrap();
    assert_eq!(2, results.len());
    assert!(aprox_equals(500, results[0], 0.1));
    assert!(aprox_equals(500, results[1], 0.1));
}

#[test]
fn bell_pair_counts_concentrate_on_00_and_11() {
    let circuits = one_circuit(vec![
        Step { index: 0, gates: vec![plain_gate("hadamard", vec![0])] },
        Step { index: 1, gates: vec![controlled_gate("pauli-x", vec![1], 0, "1")] },
    ]);

    let counts =
        simulator::simulate(&circuits, 0, 1000u32, Some("bigendian".to_string()), Some(2u8))
            .unwrap();
    assert_eq!(4, counts.len());
    assert!(aprox_equals(500, counts[0], 0.1));
    assert!(aprox_equals(500, counts[3], 0.1));
    assert_eq!(0, counts[1]);
    assert_eq!(0, counts[2]);
}

#[test]
fn zero_qubits_give_empty_results() {
    let circuits = one_circuit(vec![]);
    let counts = simulator::simulate(&circuits, 0, 1000u32, None, Some(0u8)).unwrap();
    assert_eq!(0, counts.len());
}

#[test]
fn zero_shots_give_all_zero_histogram() {
    let circuits = one_circuit(vec![Step { index: 0, gates: vec![plain_gate("hadamard", vec![0])] }]);
    let counts = simulator::simulate(&circuits, 0, 0u32, None, Some(2u8)).unwrap();
    assert_eq!(4, counts.len());
    assert!(counts.iter().all(|c| *c == 0));
}

#[test]
fn unknown_endianness_is_rejected() {
    let circuits = one_circuit(vec![Step { index: 0, gates: vec![plain_gate("hadamard", vec![0])] }]);
    let result =
        simulator::simulate(&circuits, 0, 100u32, Some("middleendian".to_string()), Some(1u8));
    assert_eq!(result, Err(SimError::UnknownEndianness));
}

#[test]
fn qubit_reused_in_step_is_rejected() {
    let circuits = one_circuit(vec![Step {
        index: 0,
        gates: vec![plain_gate("hadamard", vec![2]), plain_gate("pauli-x", vec![2])],
    }]);
    let result = simulator::simulate(&circuits, 0, 100u32, None, Some(3u8));
    assert_eq!(result, Err(SimError::QubitReused { qubit: 2, step: 0 }));
}

#[test]
fn gate_after_measurement_is_rejected() {
    let circuits = one_circuit(vec![
        Step { index: 0, gates: vec![plain_gate("measure-z", vec![1])] },
        Step { index: 1, gates: vec![plain_gate("pauli-x", vec![1])] },
    ]);
    let result = simulator::simulate(&circuits, 0, 100u32, None, Some(2u8));
    assert_eq!(result, Err(SimError::QubitMeasured { qubit: 1, step: 1 }));
}

#[test]
fn unknown_gate_is_rejected() {
    let circuits = one_circuit(vec![Step { index: 0, gates: vec![plain_gate("warp", vec![0])] }]);
    let result = simulator::simulate(&circuits, 0, 100u32, None, Some(1u8));
    assert_eq!(result, Err(SimError::UnknownGate { step: 0 }));
}

#[test]
fn unknown_control_state_is_rejected() {
    let circuits = one_circuit(vec![Step {
        index: 0,
        gates: vec![controlled_gate("pauli-x", vec![1], 0, "q")],
    }]);
    let result = simulator::simulate(&circuits, 0, 100u32, None, Some(2u8));
    assert_eq!(result, Err(SimError::UnknownControlState { step: 0 }));
}

#[test]
fn gate_without_targets_is_rejected() {
    let circuits = one_circuit(vec![Step { index: 0, gates: vec![plain_gate("pauli-x", vec![])] }]);
    let result = simulator::simulate(&circuits, 0, 100u32, None, Some(1u8));
    assert_eq!(result, Err(SimError::NoTargets { step: 0 }));
}

#[test]
fn too_many_targets_are_rejected() {
    let circuits =
        one_circuit(vec![Step { index: 0, gates: vec![plain_gate("pauli-x", vec![0, 1, 2])] }]);
    let result = simulator::simulate(&circuits, 0, 100u32, None, Some(3u8));
    assert_eq!(result, Err(SimError::TooManyTargets { step: 0 }));
}

#[test]
fn measurement_bit_out_of_range_is_rejected() {
    let mut gate = plain_gate("measure-z", vec![0]);
    gate.bit = Some(5);
    let circuits = one_circuit(vec![Step { index: 0, gates: vec![gate] }]);
    let result = simulator::simulate(&circuits, 0, 100u32, None, Some(2u8));
    assert_eq!(result, Err(SimError::MeasurementBitOutOfRange { bit: 5, qubit: 0 }));
}

#[test]
fn target_out_of_range_is_rejected() {
    let circuits = one_circuit(vec![Step { index: 0, gates: vec![plain_gate("pauli-x", vec![4])] }]);
    let result = simulator::simulate(&circuits, 0, 100u32, None, Some(2u8));
    assert_eq!(result, Err(SimError::QubitOutOfRange { qubit: 4, step: 0 }));
}

#[test]
fn unknown_circuit_id_is_rejected() {
    let circuits = one_circuit(vec![Step { index: 0, gates: vec![plain_gate("hadamard", vec![0])] }]);
    let result = simulator::simulate(&circuits, 7, 100u32, None, Some(1u8));
    assert_eq!(result, Err(SimError::UnknownCircuit { circuit_id: 7 }));
}

#[test]
fn qubit_count_above_limit_is_rejected() {
    let circuits = one_circuit(vec![]);
    let result = simulator::simulate(&circuits, 0, 100u32, None, Some(31u8));
    assert_eq!(result, Err(SimError::QubitCountTooLarge { qubit_count: 31 }));
}

#[test]
fn self_referencing_circuit_is_rejected() {
    let mut gate = plain_gate("circuit", vec![0]);
    gate.circuit_id = Some(0);
    gate.circuit_power = Some(1);
    let circuits = one_circuit(vec![Step { index: 0, gates: vec![gate] }]);
    let result = simulator::simulate(&circuits, 0, 100u32, None, Some(1u8));
    assert_eq!(result, Err(SimError::NestingTooDeep));
}

#[test]
fn missing_parameter_is_rejected() {
    let circuits = one_circuit(vec![Step { index: 0, gates: vec![plain_gate("rx-theta", vec![0])] }]);
    let result = simulator::simulate(&circuits, 0, 100u32, None, Some(1u8));
    assert_eq!(result, Err(SimError::MissingParameter { step: 0 }));
}

#[test]
fn malformed_root_is_rejected() {
    let mut gate = plain_gate("pauli-x-root", vec![0]);
    gate.root = Some("1/2^oops".to_string());
    let circuits = one_circuit(vec![Step { index: 0, gates: vec![gate] }]);
    let result = simulator::simulate(&circuits, 0, 100u32, None, Some(1u8));
    assert_eq!(result, Err(SimError::MalformedRoot { step: 0 }));
}

#[test]
fn qubit_count_is_inferred_from_the_circuit() {
    let circuits = one_circuit(vec![Step { index: 0, gates: vec![plain_gate("pauli-x", vec![2])] }]);
    let counts = simulator::simulate(&circuits, 0, 100u32, None, None).unwrap();
    // three qubits are inferred, and the X on qubit 2 selects index 0b001
    assert_eq!(8, counts.len());
    assert_eq!(100, counts[1]);
}

#[test]
fn little_endian_reorders_the_histogram() {
    // X on qubit 0 of two qubits: big endian index 0b10, little endian 0b01
    let circuits = one_circuit(vec![Step { index: 0, gates: vec![plain_gate("pauli-x", vec![0])] }]);
    let big = simulator::simulate(&circuits, 0, 100u32, Some("bigendian".to_string()), Some(2u8))
        .unwrap();
    let little =
        simulator::simulate(&circuits, 0, 100u32, Some("littleendian".to_string()), Some(2u8))
            .unwrap();
    assert_eq!(100, big[2]);
    assert_eq!(100, little[1]);
}

#[test]
fn steps_run_in_index_order() {
    // the controlled X must run after the X on its control, regardless of
    // the order the steps are listed in
    let circuits = one_circuit(vec![
        Step { index: 1, gates: vec![controlled_gate("pauli-x", vec![1], 0, "1")] },
        Step { index: 0, gates: vec![plain_gate("pauli-x", vec![0])] },
    ]);
    let counts = simulator::simulate(&circuits, 0, 100u32, None, Some(2u8)).unwrap();
    assert_eq!(100, counts[3]);
}
