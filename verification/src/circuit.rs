//! The circuit data model.
//!
//! A circuit is a list of steps; each step carries an index giving its place
//! in time and a list of gates that act simultaneously.  Gates name their
//! operation, their target qubits, their controls, and optional numeric
//! parameters.  Angle-like parameters are IEEE-754 f32 bit patterns (see
//! `complex`); string-encoded parameters such as `root` stay strings.

use vstd::prelude::*;

verus! {

/// A control: a qubit index and the state that activates the operation.
/// The accepted states are "0", "1", "+", "-", "+i" and "-i".
#[derive(Clone, Debug)]
pub struct Control {
    pub target: u8,
    pub state: String,
}

/// A gate of an aggregate: a named single-target operation with its own
/// parameters, sharing the aggregate's control set.
#[derive(Clone, Debug)]
pub struct AggregatedGate {
    pub name: String,
    pub targets: Vec<u8>,
    pub phi: Option<u32>,
    pub theta: Option<u32>,
    pub lambda: Option<u32>,
    pub root: Option<String>,
}

/// One gate of a step.  `phi`, `theta` and `lambda` are f32 bit patterns.
/// `circuit_id` and `circuit_power` select and repeat a named sub-circuit
/// when a gate is named "circuit"; `gates` holds the members of an
/// "aggregate" gate; `bit` overrides the classical bit of a measurement.
#[derive(Clone, Debug)]
pub struct Gate {
    pub name: String,
    pub targets: Vec<u8>,
    pub controls: Vec<Control>,
    pub gates: Vec<AggregatedGate>,
    pub bit: Option<u8>,
    pub phi: Option<u32>,
    pub theta: Option<u32>,
    pub lambda: Option<u32>,
    pub root: Option<String>,
    pub circuit_id: Option<i32>,
    pub circuit_power: Option<i32>,
}

/// One step: gates that act simultaneously, ordered among steps by `index`.
#[derive(Clone, Debug)]
pub struct Step {
    pub index: u16,
    pub gates: Vec<Gate>,
}

/// A circuit: steps in arbitrary order, sorted by index before execution.
#[derive(Clone, Debug)]
pub struct Circuit {
    pub steps: Vec<Step>,
}

/// A named circuit, as the simulation entry points receive them: the
/// current circuit and any sub-circuits that "circuit" gates invoke.
#[derive(Clone, Debug)]
pub struct CircuitState {
    pub circuit_id: i32,
    pub circuit: Circuit,
}

/// Whether a gate references qubit `q` as a target, a control, or a
/// target of one of its aggregated gates.
pub open spec fn gate_mentions(g: Gate, q: u8) -> bool {
    ||| g.targets@.contains(q)
    ||| exists|k: int| 0 <= k < g.controls@.len() && g.controls@[k].target == q
    ||| exists|k: int, l: int|
        0 <= k < g.gates@.len() && 0 <= l < g.gates@[k].targets@.len()
            && g.gates@[k].targets@[l] == q
}

impl Gate {
    /// The smallest qubit index this gate references, or `u8::MAX` when it
    /// references none.
    pub fn get_min_qubit_index(&self) -> (r: u8)
        ensures
            forall|q: u8| gate_mentions(*self, q) ==> r <= q,
            gate_mentions(*self, r) || (r == u8::MAX && forall|q: u8| !gate_mentions(*self, q)),
    {
        let mut min_index: u8 = u8::MAX;
        let mut i: usize = 0;
        while i < self.targets.len()
            invariant
                0 <= i <= self.targets@.len(),
                forall|k: int| 0 <= k < i ==> min_index <= self.targets@[k],
                min_index == u8::MAX || gate_mentions(*self, min_index),
            decreases self.targets@.len() - i,
        {
            if self.targets[i] < min_index {
                min_index = self.targets[i];
                assert(gate_mentions(*self, min_index));
            }
            i += 1;
        }
        let mut i: usize = 0;
        while i < self.controls.len()
            invariant
                0 <= i <= self.controls@.len(),
                forall|q: u8| self.targets@.contains(q) ==> min_index <= q,
                forall|k: int| 0 <= k < i ==> min_index <= self.controls@[k].target,
                min_index == u8::MAX || gate_mentions(*self, min_index),
            decreases self.controls@.len() - i,
        {
            if self.controls[i].target < min_index {
                min_index = self.controls[i].target;
                assert(gate_mentions(*self, min_index));
            }
            i += 1;
        }
        let mut i: usize = 0;
        while i < self.gates.len()
            invariant
                0 <= i <= self.gates@.len(),
                forall|q: u8| self.targets@.contains(q) ==> min_index <= q,
                forall|k: int| 0 <= k < self.controls@.len() ==> min_index <= self.controls@[k].target,
                forall|k: int, l: int|
                    0 <= k < i && 0 <= l < self.gates@[k].targets@.len()
                        ==> min_index <= self.gates@[k].targets@[l],
                min_index == u8::MAX || gate_mentions(*self, min_index),
            decreases self.gates@.len() - i,
        {
            let inner = &self.gates[i];
            let mut j: usize = 0;
            while j < inner.targets.len()
                invariant
                    0 <= j <= inner.targets@.len(),
                    inner == self.gates@[i as int],
                    0 <= i < self.gates@.len(),
                    forall|q: u8| self.targets@.contains(q) ==> min_index <= q,
                    forall|k: int| 0 <= k < self.controls@.len() ==> min_index <= self.controls@[k].target,
                    forall|k: int, l: int|
                        0 <= k < i && 0 <= l < self.gates@[k].targets@.len()
                            ==> min_index <= self.gates@[k].targets@[l],
                    forall|l: int| 0 <= l < j ==> min_index <= inner.targets@[l],
                    min_index == u8::MAX || gate_mentions(*self, min_index),
                decreases inner.targets@.len() - j,
            {
                if inner.targets[j] < min_index {
                    min_index = inner.targets[j];
                    assert(gate_mentions(*self, min_index));
                }
                j += 1;
            }
            i += 1;
        }
        min_index
    }

    /// The largest qubit index this gate references, or 0 when it
    /// references none.
    pub fn get_max_qubit_index(&self) -> (r: u8)
        ensures
            forall|q: u8| gate_mentions(*self, q) ==> q <= r,
            gate_mentions(*self, r) || (r == 0 && forall|q: u8| !gate_mentions(*self, q)),
    {
        let mut max_index: u8 = 0;
        let mut i: usize = 0;
        while i < self.targets.len()
            invariant
                0 <= i <= self.targets@.len(),
                forall|k: int| 0 <= k < i ==> self.targets@[k] <= max_index,
                max_index == 0 || gate_mentions(*self, max_index),
            decreases self.targets@.len() - i,
        {
            if self.targets[i] > max_index {
                max_index = self.targets[i];
                assert(gate_mentions(*self, max_index));
            }
            i += 1;
        }
        let mut i: usize = 0;
        while i < self.controls.len()
            invariant
                0 <= i <= self.controls@.len(),
                forall|q: u8| self.targets@.contains(q) ==> q <= max_index,
                forall|k: int| 0 <= k < i ==> self.controls@[k].target <= max_index,
                max_index == 0 || gate_mentions(*self, max_index),
            decreases self.controls@.len() - i,
        {
            if self.controls[i].target > max_index {
                max_index = self.controls[i].target;
                assert(gate_mentions(*self, max_index));
            }
            i += 1;
        }
        let mut i: usize = 0;
        while i < self.gates.len()
            invariant
                0 <= i <= self.gates@.len(),
                forall|q: u8| self.targets@.contains(q) ==> q <= max_index,
                forall|k: int| 0 <= k < self.controls@.len() ==> self.controls@[k].target <= max_index,
                forall|k: int, l: int|
                    0 <= k < i && 0 <= l < self.gates@[k].targets@.len()
                        ==> self.gates@[k].targets@[l] <= max_index,
                max_index == 0 || gate_mentions(*self, max_index),
            decreases self.gates@.len() - i,
        {
            let inner = &self.gates[i];
            let mut j: usize = 0;
            while j < inner.targets.len()
                invariant
                    0 <= j <= inner.targets@.len(),
                    inner == self.gates@[i as int],
                    0 <= i < self.gates@.len(),
                    forall|q: u8| self.targets@.contains(q) ==> q <= max_index,
                    forall|k: int| 0 <= k < self.controls@.len() ==> self.controls@[k].target <= max_index,
                    forall|k: int, l: int|
                        0 <= k < i && 0 <= l < self.gates@[k].targets@.len()
                            ==> self.gates@[k].targets@[l] <= max_index,
                    forall|l: int| 0 <= l < j ==> inner.targets@[l] <= max_index,
                    max_index == 0 || gate_mentions(*self, max_index),
                decreases inner.targets@.len() - j,
            {
                if inner.targets[j] > max_index {
                    max_index = inner.targets[j];
                    assert(gate_mentions(*self, max_index));
                }
                j += 1;
            }
            i += 1;
        }
        max_index
    }
}

/// A step order is sorted when the step indices it visits never
/// decrease, and positions that share a step index stay in their original
/// relative order: the order of a stable sort.
pub open spec fn step_order_sorted(order: Seq<usize>, steps: Seq<Step>) -> bool {
    forall|a: int, b: int|
        0 <= a < b < order.len() ==> {
            let x = #[trigger] order[a];
            let y = #[trigger] order[b];
            0 <= x < steps.len() && 0 <= y < steps.len() && (steps[x as int].index
                < steps[y as int].index || (steps[x as int].index == steps[y as int].index && x
                < y))
        }
}

/// The positions of the steps in execution order: ascending step index,
/// stable for equal indices.  Every position of the step list appears in
/// the order.
pub fn sorted_step_order(steps: &Vec<Step>) -> (r: Vec<usize>)
    ensures
        r@.len() == steps@.len(),
        step_order_sorted(r@, steps@),
        forall|j: int| 0 <= j < r@.len() ==> (#[trigger] r@[j]) < steps@.len(),
        forall|i: int| 0 <= i < steps@.len() ==> r@.contains(#[trigger] (i as usize)),
{
    let mut order: Vec<usize> = Vec::new();
    let mut i: usize = 0;
    while i < steps.len()
        invariant
            0 <= i <= steps@.len(),
            order@.len() == i,
            step_order_sorted(order@, steps@),
            forall|j: int| 0 <= j < order@.len() ==> (#[trigger] order@[j]) < i,
            forall|x: int| 0 <= x < i ==> order@.contains(#[trigger] (x as usize)),
        decreases steps@.len() - i,
    {
        let key: u16 = steps[i].index;
        let mut j: usize = order.len();
        while j > 0 && steps[order[j - 1]].index > key
            invariant
                0 <= j <= order@.len(),
                order@.len() == i,
                i < steps@.len(),
                forall|k: int| 0 <= k < order@.len() ==> (#[trigger] order@[k]) < i,
                key == steps@[i as int].index,
                forall|k: int| j <= k < order@.len()
                    ==> steps@[(#[trigger] order@[k]) as int].index > key,
            decreases j,
        {
            j -= 1;
        }
        let ghost before = order@;
        order.insert(j, i);
        proof {
            assert(order@ == before.take(j as int).push(i) + before.skip(j as int));
            assert forall|a: int, b: int| 0 <= a < b < order@.len() implies {
                let x = #[trigger] order@[a];
                let y = #[trigger] order@[b];
                0 <= x < steps@.len() && 0 <= y < steps@.len() && (steps@[x as int].index
                    < steps@[y as int].index || (steps@[x as int].index == steps@[y as int].index
                    && x < y))
            } by {
                if a < j {
                    assert(order@[a] == before[a]);
                }
                if b < j {
                    assert(order@[b] == before[b]);
                }
                if a > j {
                    assert(order@[a] == before[a - 1]);
                }
                if b > j {
                    assert(order@[b] == before[b - 1]);
                }
            }
            assert forall|x: int| 0 <= x < i + 1 implies order@.contains(#[trigger] (x as usize)) by {
                if x < i {
                    let k = choose|k: int| 0 <= k < before.len() && before[k] == x as usize;
                    if k < j {
                        assert(order@[k] == x as usize);
                    } else {
                        assert(order@[k + 1] == x as usize);
                    }
                } else {
                    assert(order@[j as int] == x as usize);
                }
            }
        }
        i += 1;
    }
    order
}

} // verus!
