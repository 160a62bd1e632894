use moara::addressing;
use moara::circuit::{Circuit, CircuitState, Control, Gate, Step, AggregatedGate};
use moara::complex::Amp;
use moara::gates;
use moara::simulator;

fn plain_gate(name: &str, targets: Vec<u8>) -> Gate {
    Gate {
        name: name.to_string(),
        targets,
        controls: Vec::new(),
        gates: Vec::new(),
        bit: None,
        phi: None,
        theta: None,
        lambda: None,
        root: None,
        circuit_id: None,
        circuit_power: None,
    }
}

fn one_circuit(steps: Vec<Step>) -> Vec<CircuitState> {
    vec![CircuitState { circuit_id: 0, circuit: Circuit { steps } }]
}

fn amplitude(a: Amp) -> (f32, f32) {
    (f32::from_bits(a.re), f32::from_bits(a.im))
}

fn norm_sum(statevector: &Vec<Amp>) -> f64 {
    statevector
        .iter()
        .map(|a| {
            let (re, im) = amplitude(*a);
            (re as f64) * (re as f64) + (im as f64) * (im as f64)
        })
        .sum()
}

#[test]
fn get_indexes_splits_at_the_target_bit() {
    // qubit 0 of 3 is the most significant bit of the index
    assert_eq!((0, 4), addressing::get_indexes(0, 0, 3));
    assert_eq!((1, 5), addressing::get_indexes(1, 0, 3));
    assert_eq!((3, 7), addressing::get_indexes(3, 0, 3));
    // qubit 2 of 3 is the least significant bit
    assert_eq!((0, 1), addressing::get_indexes(0, 2, 3));
    assert_eq!((2, 3), addressing::get_indexes(1, 2, 3));
    assert_eq!((6, 7), addressing::get_indexes(3, 2, 3));
    // qubit 1 of 3 sits in the middle
    assert_eq!((0, 2), addressing::get_indexes(0, 1, 3));
    assert_eq!((1, 3), addressing::get_indexes(1, 1, 3));
    assert_eq!((4, 6), addressing::get_indexes(2, 1, 3));
    assert_eq!((5, 7), addressing::get_indexes(3, 1, 3));
}

#[test]
fn reorder_vector_reverses_index_bits() {
    let v: Vec<u32> = vec![0, 1, 2, 3, 4, 5, 6, 7];
    let r = simulator::reorder_vector(v.clone(), 3);
    assert_eq!(vec![0, 4, 2, 6, 1, 5, 3, 7], r);
    let back = simulator::reorder_vector(r, 3);
    assert_eq!(v, back);
}

#[test]
fn hadamard_matrix_has_exact_entries() {
    let h = gates::hadamard();
    let f = std::f32::consts::FRAC_1_SQRT_2;
    assert_eq!((f, 0.0), amplitude(h.m00));
    assert_eq!((f, 0.0), amplitude(h.m01));
    assert_eq!((f, 0.0), amplitude(h.m10));
    assert_eq!((-f, 0.0), amplitude(h.m11));
}

#[test]
fn t_gate_carries_the_pi_over_4_phase() {
    let t = gates::t_gate();
    let (re, im) = amplitude(t.m11);
    let expected = std::f32::consts::PI / 4.0;
    assert!((re - expected.cos()).abs() < 1e-6);
    assert!((im - expected.sin()).abs() < 1e-6);
    assert_eq!((1.0, 0.0), amplitude(t.m00));
}

#[test]
fn statevector_of_x_gate_selects_index_one() {
    let circuits = one_circuit(vec![Step { index: 0, gates: vec![plain_gate("pauli-x", vec![0])] }]);
    let sv = simulator::get_statevector(&circuits, 0, None, Some(1u8)).unwrap();
    assert_eq!((0.0, 0.0), amplitude(sv[0]));
    assert_eq!((1.0, 0.0), amplitude(sv[1]));
}

#[test]
fn swap_exchanges_the_two_qubits() {
    // prepare |01> then swap: the excitation moves from qubit 1 to qubit 0
    let circuits = one_circuit(vec![
        Step { index: 0, gates: vec![plain_gate("pauli-x", vec![1])] },
        Step { index: 1, gates: vec![plain_gate("swap", vec![0, 1])] },
    ]);
    let sv = simulator::get_statevector(&circuits, 0, None, Some(2u8)).unwrap();
    assert_eq!((0.0, 0.0), amplitude(sv[1]));
    assert_eq!((1.0, 0.0), amplitude(sv[2]));
}

#[test]
fn rotation_gate_reaches_the_expected_state() {
    // rx(pi) maps |0> to -i|1>
    let mut gate = plain_gate("rx-theta", vec![0]);
    gate.theta = Some(std::f32::consts::PI.to_bits());
    let circuits = one_circuit(vec![Step { index: 0, gates: vec![gate] }]);
    let sv = simulator::get_statevector(&circuits, 0, None, Some(1u8)).unwrap();
    let (re0, im0) = amplitude(sv[0]);
    let (re1, im1) = amplitude(sv[1]);
    assert!(re0.abs() < 1e-6 && im0.abs() < 1e-6);
    assert!(re1.abs() < 1e-6 && (im1 + 1.0).abs() < 1e-6);
}

#[test]
fn pauli_x_root_of_root_one_acts_like_x() {
    let mut gate = plain_gate("pauli-x-root", vec![0]);
    gate.root = Some("1".to_string());
    let circuits = one_circuit(vec![Step { index: 0, gates: vec![gate] }]);
    let probabilities = simulator::get_probabilities(&circuits, 0, None, Some(1u8)).unwrap();
    assert!(f32::from_bits(probabilities[0]).abs() < 1e-6);
    assert!((f32::from_bits(probabilities[1]) - 1.0).abs() < 1e-6);
}

#[test]
fn qft_of_zero_state_is_uniform() {
    let circuits = one_circuit(vec![Step { index: 0, gates: vec![plain_gate("qft", vec![0, 1])] }]);
    let probabilities = simulator::get_probabilities(&circuits, 0, None, Some(2u8)).unwrap();
    assert_eq!(4, probabilities.len());
    for p in probabilities {
        assert!((f32::from_bits(p) - 0.25).abs() < 1e-6);
    }
}

#[test]
fn aggregate_applies_each_member_gate() {
    let mut gate = plain_gate("aggregate", vec![]);
    gate.gates = vec![
        AggregatedGate {
            name: "pauli-x".to_string(),
            targets: vec![0],
            phi: None,
            theta: None,
            lambda: None,
            root: None,
        },
        AggregatedGate {
            name: "pauli-x".to_string(),
            targets: vec![1],
            phi: None,
            theta: None,
            lambda: None,
            root: None,
        },
    ];
    let circuits = one_circuit(vec![Step { index: 0, gates: vec![gate] }]);
    let sv = simulator::get_statevector(&circuits, 0, None, Some(2u8)).unwrap();
    assert_eq!((1.0, 0.0), amplitude(sv[3]));
}

#[test]
fn superposition_control_fires_on_plus_state() {
    // after a Hadamard the control is |+>, so a "+" control applies the X
    let mut x_gate = plain_gate("pauli-x", vec![1]);
    x_gate.controls = vec![Control { target: 0, state: "+".to_string() }];
    let circuits = one_circuit(vec![
        Step { index: 0, gates: vec![plain_gate("hadamard", vec![0])] },
        Step { index: 1, gates: vec![x_gate] },
    ]);
    let probabilities = simulator::get_probabilities(&circuits, 0, None, Some(2u8)).unwrap();
    // the control is fully in the + basis state: the target flips with
    // probability 1, and the control returns to its superposition
    assert!((f32::from_bits(probabilities[1]) - 0.5).abs() < 1e-5);
    assert!((f32::from_bits(probabilities[3]) - 0.5).abs() < 1e-5);
}

#[test]
fn unitarity_is_preserved_without_measurements() {
    for qubit_count in 1u8..=10u8 {
        let mut u3_gate = plain_gate("u3", vec![1 % qubit_count]);
        u3_gate.theta = Some(0.7f32.to_bits());
        u3_gate.phi = Some(0.3f32.to_bits());
        u3_gate.lambda = Some(1.1f32.to_bits());
        let mut steps = vec![
            Step { index: 0, gates: vec![plain_gate("hadamard", vec![0])] },
            Step { index: 2, gates: vec![u3_gate] },
        ];
        if qubit_count >= 2 {
            let mut cx = plain_gate("pauli-x", vec![qubit_count - 1]);
            cx.controls = vec![Control { target: 0, state: "1".to_string() }];
            steps.push(Step { index: 3, gates: vec![cx] });
            steps.push(Step { index: 4, gates: vec![plain_gate("qft", vec![0, qubit_count - 1])] });
        }
        let circuits = one_circuit(steps);
        let sv = simulator::get_statevector(&circuits, 0, None, Some(qubit_count)).unwrap();
        let total = norm_sum(&sv);
        assert!((total - 1.0).abs() < 1e-5, "norm {} at {} qubits", total, qubit_count);
    }
}

#[test]
fn circuit_gate_power_pair_restores_the_state() {
    // a sub-circuit with several parametrized gates, applied and then
    // undone through its hermitian conjugate
    let mut ry = plain_gate("ry-theta", vec![0]);
    ry.theta = Some(0.9f32.to_bits());
    let mut rz = plain_gate("rz-theta", vec![1]);
    rz.theta = Some(0.8f32.to_bits());
    let mut s_gate = plain_gate("s", vec![0]);
    s_gate.controls = vec![Control { target: 1, state: "1".to_string() }];
    let sub = Circuit {
        steps: vec![
            Step { index: 0, gates: vec![plain_gate("hadamard", vec![0]), rz] },
            Step { index: 1, gates: vec![ry] },
            Step { index: 2, gates: vec![s_gate] },
        ],
    };
    let mut forward = plain_gate("circuit", vec![0]);
    forward.circuit_id = Some(1);
    forward.circuit_power = Some(1);
    let mut backward = plain_gate("circuit", vec![0]);
    backward.circuit_id = Some(1);
    backward.circuit_power = Some(-1);
    let main = Circuit {
        steps: vec![
            Step { index: 0, gates: vec![forward] },
            Step { index: 1, gates: vec![backward] },
        ],
    };
    let circuits = vec![
        CircuitState { circuit_id: 0, circuit: main },
        CircuitState { circuit_id: 1, circuit: sub },
    ];
    let sv = simulator::get_statevector(&circuits, 0, None, Some(2u8)).unwrap();
    let (re0, im0) = amplitude(sv[0]);
    assert!((re0 - 1.0).abs() < 1e-6 && im0.abs() < 1e-6);
    for k in 1..4 {
        let (re, im) = amplitude(sv[k]);
        assert!(re.abs() < 1e-6 && im.abs() < 1e-6);
    }
}

#[test]
fn measured_qubits_collapse_onto_their_classical_bits() {
    // qubit 1 of three is measured into bit 0: the histogram has two slots
    let mut measure = plain_gate("measure-z", vec![1]);
    measure.bit = Some(0);
    let circuits = one_circuit(vec![
        Step { index: 0, gates: vec![plain_gate("pauli-x", vec![1])] },
        Step { index: 1, gates: vec![measure] },
    ]);
    let counts = simulator::simulate(&circuits, 0, 50u32, None, Some(3u8)).unwrap();
    assert_eq!(2, counts.len());
    assert_eq!(0, counts[0]);
    assert_eq!(50, counts[1]);
}

#[test]
fn probabilities_of_bell_pair_are_exact_halves() {
    let mut cx = plain_gate("pauli-x", vec![1]);
    cx.controls = vec![Control { target: 0, state: "1".to_string() }];
    let circuits = one_circuit(vec![
        Step { index: 0, gates: vec![plain_gate("hadamard", vec![0])] },
        Step { index: 1, gates: vec![cx] },
    ]);
    let probabilities = simulator::get_probabilities(&circuits, 0, None, Some(2u8)).unwrap();
    assert_eq!(4, probabilities.len());
    assert!((f32::from_bits(probabilities[0]) - 0.5).abs() < 1e-6);
    assert!(f32::from_bits(probabilities[1]).abs() < 1e-6);
    assert!(f32::from_bits(probabilities[2]).abs() < 1e-6);
    assert!((f32::from_bits(probabilities[3]) - 0.5).abs() < 1e-6);
}

#[test]
fn control_above_target_works() {
    // X on qubit 0 controlled by qubit 1, with qubit 1 excited
    let mut cx = plain_gate("pauli-x", vec![0]);
    cx.controls = vec![Control { target: 1, state: "1".to_string() }];
    let circuits = one_circuit(vec![
        Step { index: 0, gates: vec![plain_gate("pauli-x", vec![1])] },
        Step { index: 1, gates: vec![cx] },
    ]);
    let sv = simulator::get_statevector(&circuits, 0, None, Some(2u8)).unwrap();
    assert_eq!((1.0, 0.0), amplitude(sv[3]));
}

#[test]
fn two_controls_fire_together() {
    // a Toffoli built from a doubly controlled X
    let mut ccx = plain_gate("pauli-x", vec![2]);
    ccx.controls = vec![
        Control { target: 0, state: "1".to_string() },
        Control { target: 1, state: "1".to_string() },
    ];
    let circuits = one_circuit(vec![
        Step { index: 0, gates: vec![plain_gate("pauli-x", vec![0]), plain_gate("pauli-x", vec![1])] },
        Step { index: 1, gates: vec![ccx] },
    ]);
    let sv = simulator::get_statevector(&circuits, 0, None, Some(3u8)).unwrap();
    assert_eq!((1.0, 0.0), amplitude(sv[7]));
}

#[test]
fn zero_state_control_fires_on_ground_state() {
    let mut cx = plain_gate("pauli-x", vec![1]);
    cx.controls = vec![Control { target: 0, state: "0".to_string() }];
    let circuits = one_circuit(vec![Step { index: 0, gates: vec![cx] }]);
    let sv = simulator::get_statevector(&circuits, 0, None, Some(2u8)).unwrap();
    assert_eq!((1.0, 0.0), amplitude(sv[1]));
}

#[test]
fn aliased_classical_bits_fold_with_xor() {
    // both qubits write to bit 0: with the state |11> the two writes
    // cancel and the histogram lands on outcome 0
    let mut m0 = plain_gate("measure-z", vec![0]);
    m0.bit = Some(0);
    let mut m1 = plain_gate("measure-z", vec![1]);
    m1.bit = Some(0);
    let circuits = one_circuit(vec![
        Step { index: 0, gates: vec![plain_gate("pauli-x", vec![0]), plain_gate("pauli-x", vec![1])] },
        Step { index: 1, gates: vec![m0] },
        Step { index: 2, gates: vec![m1] },
    ]);
    let counts = simulator::simulate(&circuits, 0, 40u32, None, Some(2u8)).unwrap();
    assert_eq!(vec![40, 0], counts);
}

#[test]
fn qft_followed_by_its_adjoint_restores_the_state() {
    let circuits = one_circuit(vec![
        Step { index: 0, gates: vec![plain_gate("pauli-x", vec![1])] },
        Step { index: 1, gates: vec![plain_gate("qft", vec![0, 1, 2])] },
        Step { index: 2, gates: vec![plain_gate("qft-dagger", vec![0, 1, 2])] },
    ]);
    let sv = simulator::get_statevector(&circuits, 0, None, Some(3u8)).unwrap();
    for k in 0..8 {
        let (re, im) = amplitude(sv[k]);
        if k == 2 {
            assert!((re - 1.0).abs() < 1e-5 && im.abs() < 1e-5);
        } else {
            assert!(re.abs() < 1e-5 && im.abs() < 1e-5);
        }
    }
}

#[test]
fn circuit_gate_power_two_repeats_the_sub_circuit() {
    let sub = Circuit { steps: vec![Step { index: 0, gates: vec![plain_gate("pauli-x", vec![0])] }] };
    let mut twice = plain_gate("circuit", vec![0]);
    twice.circuit_id = Some(1);
    twice.circuit_power = Some(2);
    let main = Circuit { steps: vec![Step { index: 0, gates: vec![twice] }] };
    let circuits = vec![
        CircuitState { circuit_id: 0, circuit: main },
        CircuitState { circuit_id: 1, circuit: sub },
    ];
    let sv = simulator::get_statevector(&circuits, 0, None, Some(1u8)).unwrap();
    // two X gates cancel
    assert_eq!((1.0, 0.0), amplitude(sv[0]));
}

#[test]
fn barrier_gates_change_nothing() {
    let circuits = one_circuit(vec![
        Step { index: 0, gates: vec![plain_gate("barrier", vec![0])] },
        Step { index: 1, gates: vec![plain_gate("pauli-x", vec![0])] },
    ]);
    let sv = simulator::get_statevector(&circuits, 0, None, Some(1u8)).unwrap();
    assert_eq!((1.0, 0.0), amplitude(sv[1]));
}

#[test]
fn y_basis_control_splits_the_target_evenly() {
    // a ground-state control watched in the Y basis reads one on half of
    // the superposition, so the target flips with probability one half
    let mut x_gate = plain_gate("pauli-x", vec![1]);
    x_gate.controls = vec![Control { target: 0, state: "+i".to_string() }];
    let circuits = one_circuit(vec![Step { index: 0, gates: vec![x_gate] }]);
    let probabilities = simulator::get_probabilities(&circuits, 0, None, Some(2u8)).unwrap();
    let p_flipped = f32::from_bits(probabilities[1]) + f32::from_bits(probabilities[3]);
    assert!((p_flipped - 0.5).abs() < 1e-5);
}

#[test]
fn catalogue_gates_preserve_unitarity() {
    let with_theta = |name: &str, targets: Vec<u8>, theta: f32| {
        let mut g = plain_gate(name, targets);
        g.theta = Some(theta.to_bits());
        g
    };
    let with_root = |name: &str, targets: Vec<u8>, root: &str| {
        let mut g = plain_gate(name, targets);
        g.root = Some(root.to_string());
        g
    };
    let mut u2 = plain_gate("u2", vec![2]);
    u2.phi = Some(0.3f32.to_bits());
    u2.lambda = Some(0.9f32.to_bits());
    let circuits = one_circuit(vec![
        Step { index: 0, gates: vec![plain_gate("hadamard", vec![0]), plain_gate("v", vec![1])] },
        Step { index: 1, gates: vec![with_theta("xx", vec![0, 1], 0.7), plain_gate("t", vec![2])] },
        Step { index: 2, gates: vec![plain_gate("sqrt-swap", vec![1, 2])] },
        Step { index: 3, gates: vec![with_root("pauli-y-root", vec![0], "1/2^2")] },
        Step { index: 4, gates: vec![plain_gate("berkeley", vec![0, 2]), plain_gate("s-dagger", vec![1])] },
        Step { index: 5, gates: vec![with_theta("swap-theta", vec![1, 0], 1.1)] },
        Step { index: 6, gates: vec![plain_gate("molmer-sorensen", vec![2, 0])] },
        Step { index: 7, gates: vec![u2] },
        Step { index: 8, gates: vec![with_theta("givens", vec![0, 1], 0.4)] },
        Step { index: 9, gates: vec![plain_gate("hadamard-yz", vec![2])] },
        Step { index: 10, gates: vec![plain_gate("ecp", vec![1, 2])] },
        Step { index: 11, gates: vec![plain_gate("magic", vec![0, 1])] },
        Step { index: 12, gates: vec![plain_gate("magic-dagger", vec![2, 0])] },
        Step { index: 13, gates: vec![plain_gate("ecp-dagger", vec![0, 1])] },
    ]);
    let sv = simulator::get_statevector(&circuits, 0, None, Some(3u8)).unwrap();
    let total = norm_sum(&sv);
    assert!((total - 1.0).abs() < 1e-5, "norm {}", total);
}
