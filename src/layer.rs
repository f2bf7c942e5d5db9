use vstd::prelude::*;
use crate::configuration::Configuration;
use crate::failure::{faulted_value, lemma_after_firing_keeps_target, lemma_stuck_at_idempotent, Components, Conf, Failure, TransientBitFlip, TransientMode};
pub use crate::failure::modify_bits;
use crate::lif_neuron::{LifNeuron, LifState};
use crate::spike_event::SpikeEvent;

verus! {

/// What the fault engine and the synaptic sums see of a layer.
pub struct LayerState {
    pub neurons: Seq<LifState>,
    pub weights: Seq<Seq<u64>>,
    pub intra_weights: Seq<Seq<u64>>,
    pub prev_spikes: Seq<u8>,
}

pub open spec fn matrix_view(m: Seq<Vec<u64>>) -> Seq<Seq<u64>> {
    m.map_values(|r: Vec<u64>| r@)
}

/// Row of the matrix cell addressed by a fault position: the position's 64-bit word
/// index, divided by the matrix's row count.
pub open spec fn cell_row(rows: nat, position: usize) -> int {
    (position / 64) as int / rows as int
}

/// Column of the matrix cell addressed by a fault position: the word index modulo the
/// matrix's row count.
pub open spec fn cell_col(rows: nat, position: usize) -> int {
    (position / 64) as int % rows as int
}

/// Whether a fault position addresses an existing cell of `m`.
pub open spec fn cell_exists(m: Seq<Seq<u64>>, position: usize) -> bool {
    &&& m.len() > 0
    &&& cell_row(m.len(), position) < m.len()
    &&& cell_col(m.len(), position) < m[cell_row(m.len(), position)].len()
}

/// `m` with the cell addressed by the failure's position run through the failure.
pub open spec fn fault_cell(m: Seq<Seq<u64>>, f: Failure) -> Seq<Seq<u64>> {
    match f.spec_position() {
        Some(p) => {
            let i = cell_row(m.len(), p);
            let j = cell_col(m.len(), p);
            m.update(i, m[i].update(j, f.faulted_bits(m[i][j])))
        },
        None => m,
    }
}

/// A neuron attribute run through the failure; other components leave the neuron as it is.
pub open spec fn fault_neuron(n: LifState, c: Components, f: Failure) -> LifState {
    match c {
        Components::VTh => LifState { v_th: f.faulted_bits(n.v_th), ..n },
        Components::VRest => LifState { v_rest: f.faulted_bits(n.v_rest), ..n },
        Components::VReset => LifState { v_reset: f.faulted_bits(n.v_reset), ..n },
        Components::Tau => LifState { tau: f.faulted_bits(n.tau), ..n },
        Components::VMem => LifState { v_mem: f.faulted_bits(n.v_mem), ..n },
        Components::Ts => LifState { ts: f.faulted_bits(n.ts), ..n },
        Components::Dt => LifState { dt: f.faulted_bits(n.dt), ..n },
        _ => n,
    }
}

/// The previous-instant spikes with the entry at `position % len` forced to 0
/// (stuck-at-0), forced to 1 (stuck-at-1) or toggled (a transient flip not yet fired).
pub open spec fn fault_spikes(v: Seq<u8>, f: Failure) -> Seq<u8> {
    if v.len() == 0 {
        v
    } else {
        match f {
            Failure::StuckAt0(s) => {
                let i = s.spec_position() as int % v.len() as int;
                v.update(i, if v[i] == 1 { 0u8 } else { v[i] })
            },
            Failure::StuckAt1(s) => {
                let i = s.spec_position() as int % v.len() as int;
                v.update(i, if v[i] == 0 { 1u8 } else { v[i] })
            },
            Failure::TransientBitFlip(t) => {
                let i = t.spec_position() as int % v.len() as int;
                if t.spec_bit_changed() {
                    v
                } else {
                    v.update(i, if v[i] == 0 { 1u8 } else { 0u8 })
                }
            },
            Failure::NoFault => v,
        }
    }
}

/// The layer state after the failure acts on one targeted component.
pub open spec fn fault_component(s: LayerState, c: Components, f: Failure, index: usize) -> LayerState {
    if f is NoFault {
        s
    } else {
        match c {
            Components::Weights => LayerState { weights: fault_cell(s.weights, f), ..s },
            Components::IntraWeights => LayerState { intra_weights: fault_cell(s.intra_weights, f), ..s },
            Components::PrevSpikes => LayerState { prev_spikes: fault_spikes(s.prev_spikes, f), ..s },
            Components::NoTarget => s,
            _ => LayerState {
                neurons: s.neurons.update(index as int, fault_neuron(s.neurons[index as int], c, f)),
                ..s
            },
        }
    }
}

/// The layer state after the failure acts on each targeted component in turn.
pub open spec fn fault_all(s: LayerState, cs: Seq<Components>, f: Failure, index: usize) -> LayerState
    decreases cs.len(),
{
    if cs.len() == 0 {
        s
    } else {
        fault_component(fault_all(s, cs.drop_last(), f, index), cs.last(), f, index)
    }
}

/// Whether the failure can act on component `c` of a layer shaped like `s`: the
/// targeted neuron exists, and a targeted matrix cell exists.
pub open spec fn target_exists(s: LayerState, c: Components, f: Failure, index: usize) -> bool {
    f is NoFault || match c {
        Components::Weights => cell_exists(s.weights, f.spec_position().unwrap()),
        Components::IntraWeights => cell_exists(s.intra_weights, f.spec_position().unwrap()),
        Components::PrevSpikes | Components::NoTarget => true,
        _ => index < s.neurons.len(),
    }
}

pub open spec fn targets_exist(s: LayerState, cs: Seq<Components>, f: Failure, index: usize) -> bool {
    forall|k: int| 0 <= k < cs.len() ==> target_exists(s, #[trigger] cs[k], f, index)
}

/// The layer's shape: one excitatory row per neuron, and a square inhibitory matrix.
pub open spec fn shape_ok(s: LayerState) -> bool {
    &&& s.weights.len() == s.neurons.len()
    &&& s.intra_weights.len() == s.neurons.len()
    &&& forall|i: int| 0 <= i < s.intra_weights.len() ==> #[trigger] s.intra_weights[i].len() == s.neurons.len()
}

/// Two states of the same shape: same neuron count and the same length for every row.
pub open spec fn same_shape(a: LayerState, b: LayerState) -> bool {
    &&& a.neurons.len() == b.neurons.len()
    &&& a.weights.len() == b.weights.len()
    &&& a.intra_weights.len() == b.intra_weights.len()
    &&& forall|i: int| 0 <= i < a.weights.len() ==> #[trigger] a.weights[i].len() == b.weights[i].len()
    &&& forall|i: int| 0 <= i < a.intra_weights.len() ==> #[trigger] a.intra_weights[i].len() == b.intra_weights[i].len()
}

/// The weights of `row`, in order, at the indices below `k` whose entry in `active` is
/// non-zero, leaving out index `skip`.
pub open spec fn active_weights(row: Seq<u64>, active: Seq<u8>, skip: int, k: nat) -> Seq<u64>
    decreases k,
{
    if k == 0 {
        Seq::empty()
    } else {
        let prefix = active_weights(row, active, skip, (k - 1) as nat);
        if active[k - 1] != 0 && k - 1 != skip {
            prefix.push(row[k - 1])
        } else {
            prefix
        }
    }
}

pub open spec fn min_len(a: nat, b: nat) -> nat {
    if a < b { a } else { b }
}

proof fn lemma_fault_component_shape(s: LayerState, c: Components, f: Failure, index: usize)
    requires
        target_exists(s, c, f, index),
    ensures
        same_shape(s, fault_component(s, c, f, index)),
{
    let t = fault_component(s, c, f, index);
    if !(f is NoFault) {
        match c {
            Components::Weights => {
                let p = f.spec_position().unwrap();
                let i = cell_row(s.weights.len(), p);
                assert forall|k: int| 0 <= k < s.weights.len() implies #[trigger] s.weights[k].len()
                    == t.weights[k].len() by {
                    if k == i {
                    }
                }
            },
            Components::IntraWeights => {
                let p = f.spec_position().unwrap();
                let i = cell_row(s.intra_weights.len(), p);
                assert forall|k: int| 0 <= k < s.intra_weights.len() implies
                    #[trigger] s.intra_weights[k].len() == t.intra_weights[k].len() by {
                    if k == i {
                    }
                }
            },
            _ => {},
        }
    }
}

/// Once a transient flip has fired, the fault engine leaves every targeted component as
/// it is: with `generate_faults` in `Once` mode, a transient flip acts at one instant only.
pub proof fn lemma_fired_transient_is_inert(s: LayerState, cs: Seq<Components>, t: TransientBitFlip, index: usize)
    requires
        t.spec_bit_changed(),
        targets_exist(s, cs, Failure::TransientBitFlip(t), index),
    ensures
        fault_all(s, cs, Failure::TransientBitFlip(t), index) == s,
    decreases cs.len(),
{
    let f = Failure::TransientBitFlip(t);
    if cs.len() > 0 {
        let rest = cs.drop_last();
        assert forall|k: int| 0 <= k < rest.len() implies target_exists(s, #[trigger] rest[k], f, index) by {
            assert(rest[k] == cs[k]);
        }
        lemma_fired_transient_is_inert(s, rest, t, index);
        let c = cs.last();
        assert(target_exists(s, cs[cs.len() - 1], f, index));
        lemma_inert_component(s, c, f, index);
    }
}

proof fn lemma_inert_component(s: LayerState, c: Components, f: Failure, index: usize)
    requires
        target_exists(s, c, f, index),
        forall|b: u64| #[trigger] f.faulted_bits(b) == b,
        fault_spikes(s.prev_spikes, f) == s.prev_spikes,
    ensures
        fault_component(s, c, f, index) == s,
{
    if !(f is NoFault) {
        match c {
            Components::Weights => {
                let m = s.weights;
                let p = f.spec_position().unwrap();
                let i = cell_row(m.len(), p);
                let j = cell_col(m.len(), p);
                assert(f.faulted_bits(m[i][j]) == m[i][j]);
                assert(m[i].update(j, m[i][j]) =~= m[i]);
                assert(m.update(i, m[i]) =~= m);
            },
            Components::IntraWeights => {
                let m = s.intra_weights;
                let p = f.spec_position().unwrap();
                let i = cell_row(m.len(), p);
                let j = cell_col(m.len(), p);
                assert(f.faulted_bits(m[i][j]) == m[i][j]);
                assert(m[i].update(j, m[i][j]) =~= m[i]);
                assert(m.update(i, m[i]) =~= m);
            },
            Components::PrevSpikes => {},
            Components::NoTarget => {},
            _ => {
                let n = s.neurons[index as int];
                assert(f.faulted_bits(n.v_th) == n.v_th);
                assert(f.faulted_bits(n.v_rest) == n.v_rest);
                assert(f.faulted_bits(n.v_reset) == n.v_reset);
                assert(f.faulted_bits(n.tau) == n.tau);
                assert(f.faulted_bits(n.v_mem) == n.v_mem);
                assert(f.faulted_bits(n.ts) == n.ts);
                assert(f.faulted_bits(n.dt) == n.dt);
                assert(fault_neuron(n, c, f) == n);
                assert(s.neurons.update(index as int, n) =~= s.neurons);
            },
        }
    }
}

/// Whether the failure would leave the value that it targets through `c` as it is.
pub open spec fn target_fixed(s: LayerState, c: Components, f: Failure, index: usize) -> bool {
    match c {
        Components::Weights => fault_cell(s.weights, f) == s.weights,
        Components::IntraWeights => fault_cell(s.intra_weights, f) == s.intra_weights,
        Components::PrevSpikes => fault_spikes(s.prev_spikes, f) == s.prev_spikes,
        Components::NoTarget => true,
        _ => fault_neuron(s.neurons[index as int], c, f) == s.neurons[index as int],
    }
}

proof fn lemma_fixed_component(s: LayerState, c: Components, f: Failure, index: usize)
    requires
        target_exists(s, c, f, index),
        target_fixed(s, c, f, index),
    ensures
        fault_component(s, c, f, index) == s,
{
    if !(f is NoFault) {
        match c {
            Components::Weights => {},
            Components::IntraWeights => {},
            Components::PrevSpikes => {},
            Components::NoTarget => {},
            _ => {
                assert(s.neurons.update(index as int, s.neurons[index as int]) =~= s.neurons);
            },
        }
    }
}

proof fn lemma_stuck_cell_settles(m: Seq<Seq<u64>>, f: Failure)
    requires
        f is StuckAt0 || f is StuckAt1,
        cell_exists(m, f.spec_position().unwrap()),
    ensures
        fault_cell(fault_cell(m, f), f) == fault_cell(m, f),
{
    let p = f.spec_position().unwrap();
    let i = cell_row(m.len(), p);
    let j = cell_col(m.len(), p);
    let m1 = fault_cell(m, f);
    lemma_stuck_at_idempotent(f, m[i][j]);
    assert(m1[i][j] == f.faulted_bits(m[i][j]));
    assert(m1[i].update(j, f.faulted_bits(m1[i][j])) =~= m1[i]);
    assert(m1.update(i, m1[i]) =~= m1);
}

proof fn lemma_stuck_spikes_settle(v: Seq<u8>, f: Failure)
    requires
        f is StuckAt0 || f is StuckAt1,
    ensures
        fault_spikes(fault_spikes(v, f), f) == fault_spikes(v, f),
{
    let v1 = fault_spikes(v, f);
    if v.len() > 0 {
        match f {
            Failure::StuckAt0(st) => {
                let i = st.spec_position() as int % v.len() as int;
                assert(v1.update(i, if v1[i] == 1 { 0u8 } else { v1[i] }) =~= v1);
            },
            Failure::StuckAt1(st) => {
                let i = st.spec_position() as int % v.len() as int;
                assert(v1.update(i, if v1[i] == 0 { 1u8 } else { v1[i] }) =~= v1);
            },
            _ => {},
        }
    }
}

proof fn lemma_stuck_neuron_fields(f: Failure, n: LifState)
    requires
        f is StuckAt0 || f is StuckAt1,
    ensures
        f.faulted_bits(f.faulted_bits(n.v_th)) == f.faulted_bits(n.v_th),
        f.faulted_bits(f.faulted_bits(n.v_rest)) == f.faulted_bits(n.v_rest),
        f.faulted_bits(f.faulted_bits(n.v_reset)) == f.faulted_bits(n.v_reset),
        f.faulted_bits(f.faulted_bits(n.tau)) == f.faulted_bits(n.tau),
        f.faulted_bits(f.faulted_bits(n.v_mem)) == f.faulted_bits(n.v_mem),
        f.faulted_bits(f.faulted_bits(n.ts)) == f.faulted_bits(n.ts),
        f.faulted_bits(f.faulted_bits(n.dt)) == f.faulted_bits(n.dt),
{
    lemma_stuck_at_idempotent(f, n.v_th);
    lemma_stuck_at_idempotent(f, n.v_rest);
    lemma_stuck_at_idempotent(f, n.v_reset);
    lemma_stuck_at_idempotent(f, n.tau);
    lemma_stuck_at_idempotent(f, n.v_mem);
    lemma_stuck_at_idempotent(f, n.ts);
    lemma_stuck_at_idempotent(f, n.dt);
}

/// After a stuck-at fault acts on `c2`, the value it targets through `c` is a fixed
/// point, whether `c` was just faulted (`c == c2`) or already fixed before.
#[verifier::rlimit(50)]
proof fn lemma_stuck_keeps_fixed(s: LayerState, c: Components, c2: Components, f: Failure, index: usize)
    requires
        f is StuckAt0 || f is StuckAt1,
        target_exists(s, c, f, index),
        target_exists(s, c2, f, index),
        c == c2 || target_fixed(s, c, f, index),
    ensures
        target_fixed(fault_component(s, c2, f, index), c, f, index),
{
    let t = fault_component(s, c2, f, index);
    match c2 {
        Components::Weights => {
            lemma_stuck_cell_settles(s.weights, f);
        },
        Components::IntraWeights => {
            lemma_stuck_cell_settles(s.intra_weights, f);
        },
        Components::PrevSpikes => {
            lemma_stuck_spikes_settle(s.prev_spikes, f);
        },
        Components::NoTarget => {},
        _ => {
            let n = s.neurons[index as int];
            lemma_stuck_neuron_fields(f, n);
            assert(t.neurons[index as int] == fault_neuron(n, c2, f));
        },
    }
}

/// A stuck-at fault is permanent and idempotent at the layer level: running the fault
/// engine again (at the next instant) leaves the faulted layer state as it is.
pub proof fn lemma_stuck_fault_settles(s: LayerState, cs: Seq<Components>, f: Failure, index: usize)
    requires
        f is StuckAt0 || f is StuckAt1,
        targets_exist(s, cs, f, index),
    ensures
        fault_all(fault_all(s, cs, f, index), cs, f, index) == fault_all(s, cs, f, index),
{
    let t = fault_all(s, cs, f, index);
    lemma_stuck_fixes_all(s, cs, f, index);
    lemma_fixed_all(t, cs, f, index);
}

proof fn lemma_stuck_fixes_all(s: LayerState, cs: Seq<Components>, f: Failure, index: usize)
    requires
        f is StuckAt0 || f is StuckAt1,
        targets_exist(s, cs, f, index),
    ensures
        same_shape(s, fault_all(s, cs, f, index)),
        targets_exist(fault_all(s, cs, f, index), cs, f, index),
        forall|k: int| 0 <= k < cs.len() ==> target_fixed(fault_all(s, cs, f, index), #[trigger] cs[k], f, index),
    decreases cs.len(),
{
    if cs.len() == 0 {
        assert(same_shape(s, s));
    } else {
        let rest = cs.drop_last();
        assert forall|k: int| 0 <= k < rest.len() implies target_exists(s, #[trigger] rest[k], f, index) by {
            assert(rest[k] == cs[k]);
        }
        lemma_stuck_fixes_all(s, rest, f, index);
        let u = fault_all(s, rest, f, index);
        let c2 = cs.last();
        lemma_same_shape_targets(s, u, cs, f, index);
        assert(target_exists(u, cs[cs.len() - 1], f, index));
        lemma_fault_component_shape(u, c2, f, index);
        let t = fault_component(u, c2, f, index);
        lemma_same_shape_trans(s, u, t);
        lemma_same_shape_targets(s, t, cs, f, index);
        assert forall|k: int| 0 <= k < cs.len() implies target_fixed(t, #[trigger] cs[k], f, index) by {
            assert(target_exists(u, cs[k], f, index));
            if k < cs.len() - 1 {
                assert(rest[k] == cs[k]);
                assert(target_fixed(u, rest[k], f, index));
                lemma_stuck_keeps_fixed(u, cs[k], c2, f, index);
            } else {
                lemma_stuck_keeps_fixed(u, cs[k], c2, f, index);
            }
        }
    }
}

proof fn lemma_fixed_all(t: LayerState, cs: Seq<Components>, f: Failure, index: usize)
    requires
        targets_exist(t, cs, f, index),
        forall|k: int| 0 <= k < cs.len() ==> target_fixed(t, #[trigger] cs[k], f, index),
    ensures
        fault_all(t, cs, f, index) == t,
    decreases cs.len(),
{
    if cs.len() > 0 {
        let rest = cs.drop_last();
        assert forall|k: int| 0 <= k < rest.len() implies target_exists(t, #[trigger] rest[k], f, index)
            && target_fixed(t, rest[k], f, index) by {
            assert(rest[k] == cs[k]);
        }
        lemma_fixed_all(t, rest, f, index);
        assert(target_exists(t, cs[cs.len() - 1], f, index));
        assert(target_fixed(t, cs[cs.len() - 1], f, index));
        lemma_fixed_component(t, cs.last(), f, index);
    }
}

proof fn lemma_same_shape_targets(a: LayerState, b: LayerState, cs: Seq<Components>, f: Failure, index: usize)
    requires
        same_shape(a, b),
        targets_exist(a, cs, f, index),
    ensures
        targets_exist(b, cs, f, index),
{
    assert forall|k: int| 0 <= k < cs.len() implies target_exists(b, #[trigger] cs[k], f, index) by {
        assert(target_exists(a, cs[k], f, index));
        if !(f is NoFault) {
            let p = f.spec_position().unwrap();
            match cs[k] {
                Components::Weights => {
                    assert(a.weights[cell_row(a.weights.len(), p)].len()
                        == b.weights[cell_row(a.weights.len(), p)].len());
                },
                Components::IntraWeights => {
                    assert(a.intra_weights[cell_row(a.intra_weights.len(), p)].len()
                        == b.intra_weights[cell_row(a.intra_weights.len(), p)].len());
                },
                _ => {},
            }
        }
    }
}

proof fn lemma_same_shape_trans(a: LayerState, b: LayerState, c: LayerState)
    requires
        same_shape(a, b),
        same_shape(b, c),
    ensures
        same_shape(a, c),
{
    assert forall|i: int| 0 <= i < a.weights.len() implies #[trigger] a.weights[i].len() == c.weights[i].len() by {
        assert(b.weights[i].len() == c.weights[i].len());
    }
    assert forall|i: int| 0 <= i < a.intra_weights.len() implies #[trigger] a.intra_weights[i].len()
        == c.intra_weights[i].len() by {
        assert(b.intra_weights[i].len() == c.intra_weights[i].len());
    }
}

proof fn lemma_same_shape_ok(a: LayerState, b: LayerState)
    requires
        same_shape(a, b),
        shape_ok(a),
    ensures
        shape_ok(b),
{
    assert forall|i: int| 0 <= i < b.intra_weights.len() implies #[trigger] b.intra_weights[i].len()
        == b.neurons.len() by {
        assert(a.intra_weights[i].len() == b.intra_weights[i].len());
    }
}

/// One layer of the network: its neurons, the excitatory weights from the previous layer
/// (one row per neuron), the inhibitory weights inside the layer, the spikes it produced
/// at the previous instant, and its fault configuration. Weights are IEEE-754 bit patterns.
#[derive(Debug, Clone)]
pub struct Layer {
    neurons: Vec<LifNeuron>,
    weights: Vec<Vec<u64>>,
    intra_weights: Vec<Vec<u64>>,
    prev_spikes: Vec<u8>,
    configuration: Conf,
}

impl Layer {
    pub closed spec fn state(&self) -> LayerState {
        LayerState {
            neurons: self.neurons@.map_values(|n: LifNeuron| n@),
            weights: matrix_view(self.weights@),
            intra_weights: matrix_view(self.intra_weights@),
            prev_spikes: self.prev_spikes@,
        }
    }

    pub closed spec fn conf(&self) -> Conf {
        self.configuration
    }

    pub open spec fn wf(&self) -> bool {
        &&& shape_ok(self.state())
        &&& targets_exist(
            self.state(),
            self.conf().spec_components(),
            self.conf().spec_failure(),
            self.conf().spec_index_neuron(),
        )
    }

    pub fn new(
        neurons: Vec<LifNeuron>,
        weights: Vec<Vec<u64>>,
        intra_weights: Vec<Vec<u64>>,
        configuration: Conf,
    ) -> (r: Self)
        requires
            shape_ok(LayerState {
                neurons: neurons@.map_values(|n: LifNeuron| n@),
                weights: matrix_view(weights@),
                intra_weights: matrix_view(intra_weights@),
                prev_spikes: Seq::empty(),
            }),
            targets_exist(
                LayerState {
                    neurons: neurons@.map_values(|n: LifNeuron| n@),
                    weights: matrix_view(weights@),
                    intra_weights: matrix_view(intra_weights@),
                    prev_spikes: Seq::empty(),
                },
                configuration.spec_components(),
                configuration.spec_failure(),
                configuration.spec_index_neuron(),
            ),
        ensures
            r.wf(),
            r.state().neurons == neurons@.map_values(|n: LifNeuron| n@),
            r.state().weights == matrix_view(weights@),
            r.state().intra_weights == matrix_view(intra_weights@),
            r.state().prev_spikes == Seq::new(neurons@.len(), |i: int| 0u8),
            r.conf() == configuration,
    {
        let num_neurons = neurons.len();
        let r = Self {
            neurons,
            weights,
            intra_weights,
            prev_spikes: vec![0u8; num_neurons],
            configuration,
        };
        assert(r.state().prev_spikes =~= Seq::new(num_neurons as nat, |i: int| 0u8));
        r
    }

    /// The previous-instant spikes as the failure would leave them (see `fault_spikes`);
    /// the layer itself is not changed.
    pub fn fault_prev_spikes(&self, failure: &Failure) -> (r: Vec<u8>)
        ensures
            r@ == fault_spikes(self.state().prev_spikes, *failure),
    {
        let mut v = self.prev_spikes.clone();
        assert(v@ =~= self.prev_spikes@);
        let len = v.len();
        if len > 0 {
            match failure {
                Failure::StuckAt0(s) => {
                    let i = s.get_position() % len;
                    if v[i] == 1 {
                        v.set(i, 0);
                    }
                },
                Failure::StuckAt1(s) => {
                    let i = s.get_position() % len;
                    if v[i] == 0 {
                        v.set(i, 1);
                    }
                },
                Failure::TransientBitFlip(t) => {
                    let i = t.get_position() % len;
                    if !t.get_bit_changed() {
                        let flipped: u8 = if v[i] == 0 { 1 } else { 0 };
                        v.set(i, flipped);
                    }
                },
                Failure::NoFault => {},
            }
        }
        v
    }

    /// Runs `failure` over one matrix cell, addressed by the failure's position.
    fn fault_matrix(m: &mut Vec<Vec<u64>>, failure: Failure)
        requires
            !(failure is NoFault),
            cell_exists(matrix_view(old(m)@), failure.spec_position().unwrap()),
        ensures
            matrix_view(final(m)@) == fault_cell(matrix_view(old(m)@), failure),
    {
        let ghost mv = matrix_view(m@);
        let p = failure.get_position().unwrap();
        let rows = m.len();
        let i = p / 64 / rows;
        let j = p / 64 % rows;
        let mut row = m[i].clone();
        assert(row@ =~= mv[i as int]);
        let v = faulted_value(failure, row[j]);
        row.set(j, v);
        m.set(i, row);
        assert(matrix_view(m@) =~= fault_cell(mv, failure));
    }

    /// Runs `failure` over the targeted component `c`.
    fn apply_fault(&mut self, c: Components, failure: Failure, index: usize)
        requires
            target_exists(old(self).state(), c, failure, index),
        ensures
            final(self).state() == fault_component(old(self).state(), c, failure, index),
            final(self).conf() == old(self).conf(),
    {
        if let Failure::NoFault = failure {
            return;
        }
        match c {
            Components::Weights => {
                Self::fault_matrix(&mut self.weights, failure);
            },
            Components::IntraWeights => {
                Self::fault_matrix(&mut self.intra_weights, failure);
            },
            Components::PrevSpikes => {
                let v = self.fault_prev_spikes(&failure);
                self.prev_spikes = v;
            },
            Components::NoTarget => {},
            _ => {
                let ghost s0 = self.state();
                let mut n = self.neurons[index];
                match c {
                    Components::VTh => n.set_v_th(faulted_value(failure, n.get_v_th())),
                    Components::VRest => n.set_v_rest(faulted_value(failure, n.get_v_rest())),
                    Components::VReset => n.set_v_reset(faulted_value(failure, n.get_v_reset())),
                    Components::Tau => n.set_tau(faulted_value(failure, n.get_tau())),
                    Components::VMem => n.set_v_mem(faulted_value(failure, n.get_v_mem())),
                    Components::Ts => n.set_ts(faulted_value(failure, n.get_ts())),
                    _ => n.set_dt(faulted_value(failure, n.get_dt())),
                }
                self.neurons.set(index, n);
                assert(self.state().neurons =~= s0.neurons.update(
                    index as int,
                    fault_neuron(s0.neurons[index as int], c, failure),
                ));
            },
        }
    }

    /// Injects the configured fault: the configured failure acts on every targeted
    /// component in the order they are listed. In `Once` mode it is then recorded
    /// as fired, so that a transient flip acts at one instant only; in `EveryInstant`
    /// mode it stays as it was.
    pub fn generate_faults(&mut self)
        requires
            old(self).wf(),
        ensures
            final(self).wf(),
            final(self).state() == fault_all(
                old(self).state(),
                old(self).conf().spec_components(),
                old(self).conf().spec_failure(),
                old(self).conf().spec_index_neuron(),
            ),
            final(self).conf().spec_components() == old(self).conf().spec_components(),
            final(self).conf().spec_index_neuron() == old(self).conf().spec_index_neuron(),
            final(self).conf().spec_transient_mode() == old(self).conf().spec_transient_mode(),
            final(self).conf().spec_failure() == if old(self).conf().spec_transient_mode() is Once {
                old(self).conf().spec_failure().after_firing()
            } else {
                old(self).conf().spec_failure()
            },
    {
        let components = self.configuration.get_vec_components();
        let index = self.configuration.get_index_neuron();
        let failure = self.configuration.get_failure();
        let ghost s0 = self.state();
        let mut k: usize = 0;
        while k < components.len()
            invariant
                0 <= k <= components.len(),
                components@ == old(self).conf().spec_components(),
                self.conf() == old(self).conf(),
                index == self.conf().spec_index_neuron(),
                failure == self.conf().spec_failure(),
                s0 == old(self).state(),
                shape_ok(s0),
                targets_exist(s0, components@, failure, index),
                same_shape(s0, self.state()),
                self.state() == fault_all(s0, components@.take(k as int), failure, index),
            decreases components.len() - k,
        {
            let ghost before = self.state();
            proof {
                lemma_same_shape_targets(s0, before, components@, failure, index);
                assert(target_exists(before, components@[k as int], failure, index));
            }
            self.apply_fault(components[k], failure, index);
            proof {
                lemma_fault_component_shape(before, components@[k as int], failure, index);
                lemma_same_shape_trans(s0, before, self.state());
                assert(components@.take(k + 1).drop_last() =~= components@.take(k as int));
            }
            k = k + 1;
        }
        assert(components@.take(k as int) =~= components@);
        if let TransientMode::Once = self.configuration.get_transient_mode() {
            self.configuration.mark_fired();
        }
        proof {
            lemma_same_shape_ok(s0, self.state());
            lemma_same_shape_targets(s0, self.state(), components@, failure, index);
            lemma_after_firing_keeps_target(failure);
            assert forall|k: int| 0 <= k < components@.len() implies target_exists(
                self.state(),
                #[trigger] components@[k],
                failure.after_firing(),
                index,
            ) by {
                assert(target_exists(self.state(), components@[k], failure, index));
            }
        }
    }
}

impl Layer {
    /// The weights of `row` at the indices below `len` whose entry in `active` is
    /// non-zero, in index order, leaving out index `skip` (none when `skip` is `len` or more).
    fn select_active(row: &Vec<u64>, active: &Vec<u8>, skip: usize) -> (r: Vec<u64>)
        ensures
            r@ == active_weights(
                row@,
                active@,
                skip as int,
                min_len(row@.len(), active@.len()),
            ),
    {
        let len = if row.len() < active.len() { row.len() } else { active.len() };
        let mut r: Vec<u64> = Vec::new();
        let mut k: usize = 0;
        while k < len
            invariant
                0 <= k <= len,
                len == min_len(row@.len(), active@.len()),
                r@ == active_weights(row@, active@, skip as int, k as nat),
            decreases len - k,
        {
            if active[k] != 0 && k != skip {
                r.push(row[k]);
            }
            k = k + 1;
        }
        r
    }

    /// The excitatory weights that reach neuron `i` at an instant whose input spikes are
    /// `spikes`: `weights[i][k]` for every input `k` that spiked, in input order (inputs
    /// beyond the shorter of the row and the spike vector are ignored).
    pub fn excitatory_inputs(&self, i: usize, spikes: &Vec<u8>) -> (r: Vec<u64>)
        requires
            self.wf(),
            i < self.state().neurons.len(),
        ensures
            r@ == active_weights(
                self.state().weights[i as int],
                spikes@,
                -1,
                min_len(self.state().weights[i as int].len(), spikes@.len()),
            ),
    {
        let row = &self.weights[i];
        let r = Self::select_active(row, spikes, row.len());
        proof {
            lemma_skip_beyond(row@, spikes@, row@.len() as int,
                min_len(self.weights@[i as int]@.len(), spikes@.len()));
        }
        r
    }

    /// The inhibitory weights that reach neuron `i`: `intra_weights[i][k]` for every other
    /// neuron `k` that spiked at the previous instant, in index order.
    pub fn inhibitory_inputs(&self, i: usize) -> (r: Vec<u64>)
        requires
            self.wf(),
            i < self.state().neurons.len(),
        ensures
            r@ == active_weights(
                self.state().intra_weights[i as int],
                self.state().prev_spikes,
                i as int,
                min_len(self.state().intra_weights[i as int].len(), self.state().prev_spikes.len()),
            ),
    {
        Self::select_active(&self.intra_weights[i], &self.prev_spikes, i)
    }

    /// Replaces neuron `i` by its updated state.
    pub fn set_neuron(&mut self, i: usize, neuron: LifNeuron)
        requires
            old(self).wf(),
            i < old(self).state().neurons.len(),
        ensures
            final(self).wf(),
            final(self).state() == (LayerState {
                neurons: old(self).state().neurons.update(i as int, neuron@),
                ..old(self).state()
            }),
            final(self).conf() == old(self).conf(),
    {
        let ghost s0 = self.state();
        self.neurons.set(i, neuron);
        assert(self.state().neurons =~= s0.neurons.update(i as int, neuron@));
        proof {
            lemma_same_shape_targets(s0, self.state(), self.conf().spec_components(),
                self.conf().spec_failure(), self.conf().spec_index_neuron());
        }
    }

    /// Ends instant `t`, given the output of each neuron (0 or 1): `out` becomes the
    /// previous-instant spikes, and an event carrying `out` is returned exactly when at
    /// least one neuron fired.
    pub fn complete_instant(&mut self, t: u64, out: Vec<u8>) -> (r: Option<SpikeEvent>)
        requires
            old(self).wf(),
            out@.len() == old(self).state().neurons.len(),
            forall|k: int| 0 <= k < out@.len() ==> #[trigger] out@[k] <= 1,
        ensures
            final(self).wf(),
            final(self).state() == (LayerState { prev_spikes: out@, ..old(self).state() }),
            final(self).conf() == old(self).conf(),
            r is Some <==> out@.contains(1u8),
            r matches Some(e) ==> {
                &&& e.spec_ts() == t
                &&& e.spec_spikes() == out@
                &&& e.spec_spikes().len() == final(self).state().neurons.len()
                &&& forall|k: int| 0 <= k < e.spec_spikes().len() ==> #[trigger] e.spec_spikes()[k] <= 1
            },
    {
        let ghost s0 = self.state();
        let fired = contains_spike(&out);
        self.prev_spikes = out.clone();
        assert(self.prev_spikes@ =~= out@);
        proof {
            lemma_same_shape_targets(s0, self.state(), self.conf().spec_components(),
                self.conf().spec_failure(), self.conf().spec_index_neuron());
        }
        if fired {
            Some(SpikeEvent::new(t, out))
        } else {
            None
        }
    }

    /// Prepares the layer for a new run: no previous spikes and every neuron at rest.
    /// The weights and the fault configuration are left as they are.
    pub fn init(&mut self)
        requires
            old(self).wf(),
        ensures
            final(self).conf() == old(self).conf(),
            final(self).wf(),
            final(self).state().prev_spikes == Seq::<u8>::empty(),
            final(self).state().neurons.len() == old(self).state().neurons.len(),
            forall|i: int| 0 <= i < final(self).state().neurons.len() ==> #[trigger] final(self).state().neurons[i]
                == (LifState { v_mem: old(self).state().neurons[i].v_rest, ts: 0, ..old(self).state().neurons[i] }),
            final(self).state().weights == old(self).state().weights,
            final(self).state().intra_weights == old(self).state().intra_weights,
    {
        let ghost s0 = self.state();
        let ghost c0 = self.conf();
        self.prev_spikes.clear();
        let n = self.neurons.len();
        let mut i: usize = 0;
        while i < n
            invariant
                0 <= i <= n,
                n == s0.neurons.len(),
                self.neurons@.len() == n,
                self.conf() == c0,
                c0 == old(self).conf(),
                self.weights@ == old(self).weights@,
                self.intra_weights@ == old(self).intra_weights@,
                self.prev_spikes@ == Seq::<u8>::empty(),
                s0 == old(self).state(),
                forall|j: int| 0 <= j < i ==> #[trigger] self.neurons@[j]@
                    == (LifState { v_mem: s0.neurons[j].v_rest, ts: 0, ..s0.neurons[j] }),
                forall|j: int| i <= j < n ==> #[trigger] self.neurons@[j] == old(self).neurons@[j],
            decreases n - i,
        {
            let mut neuron = self.neurons[i];
            neuron.init();
            self.neurons.set(i, neuron);
            i = i + 1;
        }
        proof {
            assert(same_shape(s0, self.state()));
            lemma_same_shape_ok(s0, self.state());
            lemma_same_shape_targets(s0, self.state(), c0.spec_components(),
                c0.spec_failure(), c0.spec_index_neuron());
        }
    }

    pub fn get_number_neurons(&self) -> (r: usize)
        ensures
            r == self.state().neurons.len(),
    {
        self.neurons.len()
    }

    pub fn get_neurons(&self) -> (r: Vec<LifNeuron>)
        ensures
            r@.map_values(|n: LifNeuron| n@) == self.state().neurons,
    {
        let r = self.neurons.clone();
        assert(r@ =~= self.neurons@);
        r
    }

    pub fn get_weights(&self) -> (r: Vec<Vec<u64>>)
        ensures
            matrix_view(r@) == self.state().weights,
    {
        copy_matrix(&self.weights)
    }

    pub fn get_intra_weights(&self) -> (r: Vec<Vec<u64>>)
        ensures
            matrix_view(r@) == self.state().intra_weights,
    {
        copy_matrix(&self.intra_weights)
    }

    pub fn get_prev_spikes(&self) -> (r: Vec<u8>)
        ensures
            r@ == self.state().prev_spikes,
    {
        let r = self.prev_spikes.clone();
        assert(r@ =~= self.prev_spikes@);
        r
    }

    pub fn get_configuration(&self) -> (r: Conf)
        ensures
            r.spec_components() == self.conf().spec_components(),
            r.spec_failure() == self.conf().spec_failure(),
            r.spec_index_neuron() == self.conf().spec_index_neuron(),
            r.spec_transient_mode() == self.conf().spec_transient_mode(),
    {
        self.configuration.copy()
    }

    pub fn set_intra_weights(&mut self, val: Vec<Vec<u64>>)
        requires
            old(self).wf(),
            same_shape(old(self).state(), LayerState { intra_weights: matrix_view(val@), ..old(self).state() }),
        ensures
            final(self).wf(),
            final(self).state() == (LayerState { intra_weights: matrix_view(val@), ..old(self).state() }),
            final(self).conf() == old(self).conf(),
    {
        let ghost s0 = self.state();
        self.intra_weights = val;
        proof {
            lemma_same_shape_ok(s0, self.state());
            lemma_same_shape_targets(s0, self.state(), self.conf().spec_components(),
                self.conf().spec_failure(), self.conf().spec_index_neuron());
        }
    }

    pub fn set_weights(&mut self, val: Vec<Vec<u64>>)
        requires
            old(self).wf(),
            same_shape(old(self).state(), LayerState { weights: matrix_view(val@), ..old(self).state() }),
        ensures
            final(self).wf(),
            final(self).state() == (LayerState { weights: matrix_view(val@), ..old(self).state() }),
            final(self).conf() == old(self).conf(),
    {
        let ghost s0 = self.state();
        self.weights = val;
        proof {
            lemma_same_shape_ok(s0, self.state());
            lemma_same_shape_targets(s0, self.state(), self.conf().spec_components(),
                self.conf().spec_failure(), self.conf().spec_index_neuron());
        }
    }

    pub fn set_prev_spikes(&mut self, val: Vec<u8>)
        requires
            old(self).wf(),
        ensures
            final(self).wf(),
            final(self).state() == (LayerState { prev_spikes: val@, ..old(self).state() }),
            final(self).conf() == old(self).conf(),
    {
        let ghost s0 = self.state();
        self.prev_spikes = val;
        proof {
            lemma_same_shape_targets(s0, self.state(), self.conf().spec_components(),
                self.conf().spec_failure(), self.conf().spec_index_neuron());
        }
    }
}

impl Layer {
    /// A copy of the layer, with the same state and configuration.
    pub fn copy(&self) -> (r: Layer)
        requires
            self.wf(),
        ensures
            r.wf(),
            r.state() == self.state(),
            r.conf().spec_components() == self.conf().spec_components(),
            r.conf().spec_failure() == self.conf().spec_failure(),
            r.conf().spec_index_neuron() == self.conf().spec_index_neuron(),
            r.conf().spec_transient_mode() == self.conf().spec_transient_mode(),
    {
        let r = Layer {
            neurons: self.get_neurons(),
            weights: self.get_weights(),
            intra_weights: self.get_intra_weights(),
            prev_spikes: self.get_prev_spikes(),
            configuration: self.get_configuration(),
        };
        assert(r.state().neurons =~= self.state().neurons);
        r
    }

    /// The length of the first excitatory row: the width of the layer's input.
    pub fn first_row_len(&self) -> (r: usize)
        requires
            self.wf(),
            self.state().weights.len() > 0,
        ensures
            r == self.state().weights[0].len(),
    {
        self.weights[0].len()
    }
}

/// Whether at least one entry of `v` is a spike (1).
pub fn contains_spike(v: &Vec<u8>) -> (r: bool)
    ensures
        r == v@.contains(1u8),
{
    let mut k: usize = 0;
    while k < v.len()
        invariant
            0 <= k <= v.len(),
            forall|j: int| 0 <= j < k ==> v@[j] != 1u8,
        decreases v.len() - k,
    {
        if v[k] == 1 {
            assert(v@[k as int] == 1u8);
            return true;
        }
        k = k + 1;
    }
    false
}

/// A copy of `m`, row by row.
pub fn copy_matrix(m: &Vec<Vec<u64>>) -> (r: Vec<Vec<u64>>)
    ensures
        matrix_view(r@) == matrix_view(m@),
{
    let mut r: Vec<Vec<u64>> = Vec::new();
    let mut k: usize = 0;
    while k < m.len()
        invariant
            0 <= k <= m.len(),
            r@.len() == k,
            matrix_view(r@) == matrix_view(m@.take(k as int)),
        decreases m.len() - k,
    {
        let row = m[k].clone();
        assert(row@ =~= m@[k as int]@);
        let ghost r0 = r@;
        r.push(row);
        assert forall|j: int| 0 <= j < k + 1 implies #[trigger] matrix_view(r@)[j] == matrix_view(
            m@.take(k + 1),
        )[j] by {
            if j < k {
                assert(r@[j] == r0[j]);
                assert(matrix_view(r0)[j] == matrix_view(m@.take(k as int))[j]);
            }
        }
        assert(matrix_view(r@) =~= matrix_view(m@.take(k + 1)));
        k = k + 1;
    }
    assert(m@.take(k as int) =~= m@);
    r
}

proof fn lemma_skip_beyond(row: Seq<u64>, active: Seq<u8>, skip: int, k: nat)
    requires
        skip >= k,
    ensures
        active_weights(row, active, skip, k) == active_weights(row, active, -1, k),
    decreases k,
{
    if k > 0 {
        lemma_skip_beyond(row, active, skip, (k - 1) as nat);
    }
}

} // verus!
