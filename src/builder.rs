use vstd::prelude::*;
use crate::configuration::Configuration;
use crate::failure::{Components, Conf, Failure};
use crate::layer::{cell_exists, copy_matrix, matrix_view, shape_ok, target_exists,
    targets_exist, Layer, LayerState};
use crate::lif_neuron::LifNeuron;
use crate::network::SNN;

verus! {

/// Whether the IEEE-754 double with bit pattern `b` is greater than 0.0: positive
/// subnormals, normals and infinity (not +0.0, not NaN).
pub open spec fn is_positive_bits(b: u64) -> bool {
    0 < b <= 0x7FF0_0000_0000_0000u64
}

/// Whether the IEEE-754 double with bit pattern `b` is less than 0.0: negative
/// subnormals, normals and infinity (not -0.0, not NaN).
pub open spec fn is_negative_bits(b: u64) -> bool {
    0x8000_0000_0000_0000u64 < b <= 0xFFF0_0000_0000_0000u64
}

/// Why a layer, or a network, cannot be built.
#[derive(Debug, Clone, Copy, PartialEq, Eq, Structural)]
pub enum BuildError {
    /// The excitatory matrix does not have one row per neuron.
    WeightRows,
    /// An excitatory row does not have one column per input of the layer.
    WeightColumns,
    /// An excitatory weight is negative.
    NegativeWeight,
    /// The inhibitory matrix does not have one row per neuron.
    IntraWeightRows,
    /// An inhibitory row does not have one column per neuron.
    IntraWeightColumns,
    /// An inhibitory weight is positive.
    PositiveIntraWeight,
    /// The fault configuration targets a neuron or a matrix cell that does not exist.
    FaultTarget,
    /// No layer was added.
    NoLayers,
    /// The layer count has reached the largest `usize`.
    TooManyLayers,
}

/// The first problem with an inhibitory matrix for `n` neurons: row count, then row
/// lengths, then signs.
pub open spec fn intra_error(n: nat, m: Seq<Seq<u64>>) -> Option<BuildError> {
    if m.len() != n {
        Some(BuildError::IntraWeightRows)
    } else if exists|i: int| 0 <= i < m.len() && #[trigger] m[i].len() != n {
        Some(BuildError::IntraWeightColumns)
    } else if exists|i: int, j: int| 0 <= i < m.len() && 0 <= j < m[i].len() && is_positive_bits(#[trigger] m[i][j]) {
        Some(BuildError::PositiveIntraWeight)
    } else {
        None
    }
}

/// The first problem with an excitatory matrix for `n` neurons fed by `cols` inputs:
/// row count, then row lengths, then signs.
pub open spec fn extra_error(n: nat, cols: nat, m: Seq<Seq<u64>>) -> Option<BuildError> {
    if m.len() != n {
        Some(BuildError::WeightRows)
    } else if exists|i: int| 0 <= i < m.len() && #[trigger] m[i].len() != cols {
        Some(BuildError::WeightColumns)
    } else if exists|i: int, j: int| 0 <= i < m.len() && 0 <= j < m[i].len() && is_negative_bits(#[trigger] m[i][j]) {
        Some(BuildError::NegativeWeight)
    } else {
        None
    }
}

/// The outcome of a check that found the problem `e`, if any.
pub open spec fn check_result(e: Option<BuildError>) -> Result<(), BuildError> {
    match e {
        Some(e) => Err(e),
        None => Ok(()),
    }
}

/// The state of a layer made of these parts, before its first instant.
pub open spec fn parts_state(neurons: Seq<LifNeuron>, extra: Seq<Vec<u64>>, intra: Seq<Vec<u64>>) -> LayerState {
    LayerState {
        neurons: neurons.map_values(|n: LifNeuron| n@),
        weights: matrix_view(extra),
        intra_weights: matrix_view(intra),
        prev_spikes: Seq::empty(),
    }
}

/// The first problem with a layer fed by `cols` inputs: the inhibitory matrix, then the
/// excitatory matrix, then the fault targets.
pub open spec fn layer_error(
    cols: nat,
    neurons: Seq<LifNeuron>,
    extra: Seq<Vec<u64>>,
    intra: Seq<Vec<u64>>,
    conf: Conf,
) -> Option<BuildError> {
    let n = neurons.len();
    if intra_error(n, matrix_view(intra)) is Some {
        intra_error(n, matrix_view(intra))
    } else if extra_error(n, cols, matrix_view(extra)) is Some {
        extra_error(n, cols, matrix_view(extra))
    } else if !targets_exist(
        parts_state(neurons, extra, intra),
        conf.spec_components(),
        conf.spec_failure(),
        conf.spec_index_neuron(),
    ) {
        Some(BuildError::FaultTarget)
    } else {
        None
    }
}

/// A layer whose excitatory matrix does not have one row per neuron is refused, whatever
/// the network built so far: `add_layer` reports a problem with the layer itself and adds
/// nothing; with a valid inhibitory matrix the problem is `WeightRows`.
pub proof fn lemma_row_mismatch_refused(
    p: SnnParams,
    neurons: Seq<LifNeuron>,
    extra: Seq<Vec<u64>>,
    intra: Seq<Vec<u64>>,
    conf: Conf,
)
    requires
        extra.len() != neurons.len(),
    ensures
        add_error(p, neurons, extra, intra, conf) is Some,
        add_error(p, neurons, extra, intra, conf) != Some(BuildError::TooManyLayers),
        intra_error(neurons.len(), matrix_view(intra)) is None ==> add_error(p, neurons, extra, intra, conf)
            == Some(BuildError::WeightRows),
{
    assert(matrix_view(extra).len() == extra.len());
}

/// Why a layer cannot be added to `p`: the first problem with the layer itself (see
/// `layer_error`), or else a layer count that cannot grow.
pub open spec fn add_error(
    p: SnnParams,
    neurons: Seq<LifNeuron>,
    extra: Seq<Vec<u64>>,
    intra: Seq<Vec<u64>>,
    conf: Conf,
) -> Option<BuildError> {
    let e = layer_error(p.layer_inputs(p.num_layers as int), neurons, extra, intra, conf);
    if e is Some {
        e
    } else if p.num_layers == usize::MAX {
        Some(BuildError::TooManyLayers)
    } else {
        None
    }
}

/// The parameters of a network under construction, one entry per layer.
pub struct SnnParams {
    pub input_dimensions: usize,
    pub neurons: Vec<Vec<LifNeuron>>,
    pub extra_weights: Vec<Vec<Vec<u64>>>,
    pub intra_weights: Vec<Vec<Vec<u64>>>,
    pub num_layers: usize,
    pub configuration: Vec<Conf>,
}

impl SnnParams {
    /// The number of inputs of layer `i`: the network's input width for the first layer,
    /// the previous layer's neuron count for the others.
    pub open spec fn layer_inputs(&self, i: int) -> nat {
        if i == 0 {
            self.input_dimensions as nat
        } else {
            self.neurons@[i - 1]@.len()
        }
    }

    /// Whether `other` holds the same parameters as `self`, layer by layer.
    pub open spec fn same_as(&self, other: SnnParams) -> bool {
        &&& self.input_dimensions == other.input_dimensions
        &&& self.num_layers == other.num_layers
        &&& self.neurons@.len() == other.neurons@.len()
        &&& self.extra_weights@.len() == other.extra_weights@.len()
        &&& self.intra_weights@.len() == other.intra_weights@.len()
        &&& self.configuration@.len() == other.configuration@.len()
        &&& forall|i: int| 0 <= i < self.neurons@.len() ==> (#[trigger] self.neurons@[i])@ == other.neurons@[i]@
        &&& forall|i: int| 0 <= i < self.extra_weights@.len() ==> matrix_view((#[trigger] self.extra_weights@[i])@)
            == matrix_view(other.extra_weights@[i]@)
        &&& forall|i: int| 0 <= i < self.intra_weights@.len() ==> matrix_view((#[trigger] self.intra_weights@[i])@)
            == matrix_view(other.intra_weights@[i]@)
        &&& forall|i: int| 0 <= i < self.configuration@.len() ==> {
            &&& (#[trigger] self.configuration@[i]).spec_components() == other.configuration@[i].spec_components()
            &&& self.configuration@[i].spec_failure() == other.configuration@[i].spec_failure()
            &&& self.configuration@[i].spec_index_neuron() == other.configuration@[i].spec_index_neuron()
            &&& self.configuration@[i].spec_transient_mode() == other.configuration@[i].spec_transient_mode()
        }
    }

    /// Every layer was accepted: one entry per layer in each list, and no layer has a
    /// problem.
    pub open spec fn wf(&self) -> bool {
        &&& self.neurons@.len() == self.num_layers
        &&& self.extra_weights@.len() == self.num_layers
        &&& self.intra_weights@.len() == self.num_layers
        &&& self.configuration@.len() == self.num_layers
        &&& forall|i: int| 0 <= i < self.num_layers ==> layer_error(
            self.layer_inputs(i),
            (#[trigger] self.neurons@[i])@,
            self.extra_weights@[i]@,
            self.intra_weights@[i]@,
            self.configuration@[i],
        ) is None
    }
}

/// Builds a network layer by layer, checking each layer as it is added.
pub struct SnnBuilder {
    params: SnnParams,
}

proof fn lemma_accepted_layer(
    cols: nat,
    neurons: Seq<LifNeuron>,
    extra: Seq<Vec<u64>>,
    intra: Seq<Vec<u64>>,
    conf: Conf,
)
    requires
        layer_error(cols, neurons, extra, intra, conf) is None,
    ensures
        shape_ok(parts_state(neurons, extra, intra)),
        targets_exist(
            parts_state(neurons, extra, intra),
            conf.spec_components(),
            conf.spec_failure(),
            conf.spec_index_neuron(),
        ),
{
    let s = parts_state(neurons, extra, intra);
    assert(intra_error(neurons.len(), matrix_view(intra)) is None);
    assert(extra_error(neurons.len(), cols, matrix_view(extra)) is None);
    assert forall|i: int| 0 <= i < s.intra_weights.len() implies #[trigger] s.intra_weights[i].len()
        == s.neurons.len() by {
        assert(matrix_view(intra)[i].len() == neurons.len());
    }
}

impl SnnBuilder {
    pub closed spec fn spec_params(&self) -> SnnParams {
        self.params
    }

    pub fn new(input_dimension: usize) -> (r: Self)
        ensures
            r.spec_params().wf(),
            r.spec_params().input_dimensions == input_dimension,
            r.spec_params().num_layers == 0,
    {
        Self {
            params: SnnParams {
                input_dimensions: input_dimension,
                neurons: Vec::new(),
                extra_weights: Vec::new(),
                intra_weights: Vec::new(),
                num_layers: 0,
                configuration: Vec::new(),
            },
        }
    }

    /// A copy of the parameters collected so far.
    pub fn get_params(&self) -> (r: SnnParams)
        requires
            self.spec_params().wf(),
        ensures
            r.same_as(self.spec_params()),
    {
        let p = &self.params;
        let mut neurons: Vec<Vec<LifNeuron>> = Vec::new();
        let mut extra_weights: Vec<Vec<Vec<u64>>> = Vec::new();
        let mut intra_weights: Vec<Vec<Vec<u64>>> = Vec::new();
        let mut configuration: Vec<Conf> = Vec::new();
        let mut i: usize = 0;
        while i < p.num_layers
            invariant
                p.wf(),
                0 <= i <= p.num_layers,
                neurons@.len() == i,
                extra_weights@.len() == i,
                intra_weights@.len() == i,
                configuration@.len() == i,
                forall|k: int| 0 <= k < i ==> (#[trigger] neurons@[k])@ == p.neurons@[k]@,
                forall|k: int| 0 <= k < i ==> matrix_view((#[trigger] extra_weights@[k])@)
                    == matrix_view(p.extra_weights@[k]@),
                forall|k: int| 0 <= k < i ==> matrix_view((#[trigger] intra_weights@[k])@)
                    == matrix_view(p.intra_weights@[k]@),
                forall|k: int| 0 <= k < i ==> {
                    &&& (#[trigger] configuration@[k]).spec_components() == p.configuration@[k].spec_components()
                    &&& configuration@[k].spec_failure() == p.configuration@[k].spec_failure()
                    &&& configuration@[k].spec_index_neuron() == p.configuration@[k].spec_index_neuron()
                    &&& configuration@[k].spec_transient_mode() == p.configuration@[k].spec_transient_mode()
                },
            decreases p.num_layers - i,
        {
            let layer_neurons = p.neurons[i].clone();
            assert(layer_neurons@ =~= p.neurons@[i as int]@);
            neurons.push(layer_neurons);
            extra_weights.push(copy_matrix(&p.extra_weights[i]));
            intra_weights.push(copy_matrix(&p.intra_weights[i]));
            configuration.push(p.configuration[i].copy());
            i = i + 1;
        }
        SnnParams {
            input_dimensions: p.input_dimensions,
            neurons,
            extra_weights,
            intra_weights,
            num_layers: p.num_layers,
            configuration,
        }
    }

    /// Checks an inhibitory matrix for `num_neurons` neurons.
    pub fn check_intra_weights(num_neurons: usize, weights: &Vec<Vec<u64>>) -> (r: Result<(), BuildError>)
        ensures
            r == check_result(intra_error(num_neurons as nat, matrix_view(weights@))),
    {
        let ghost m = matrix_view(weights@);
        if weights.len() != num_neurons {
            return Err(BuildError::IntraWeightRows);
        }
        let mut i: usize = 0;
        while i < weights.len()
            invariant
                0 <= i <= weights@.len(),
                m == matrix_view(weights@),
                m.len() == weights@.len(),
                weights@.len() == num_neurons,
                forall|k: int| 0 <= k < i ==> #[trigger] m[k].len() == num_neurons,
            decreases weights@.len() - i,
        {
            if weights[i].len() != num_neurons {
                assert(m[i as int].len() != num_neurons);
                return Err(BuildError::IntraWeightColumns);
            }
            i = i + 1;
        }
        let mut i: usize = 0;
        while i < weights.len()
            invariant
                0 <= i <= weights@.len(),
                m == matrix_view(weights@),
                m.len() == weights@.len(),
                weights@.len() == num_neurons,
                forall|k: int| 0 <= k < m.len() ==> #[trigger] m[k].len() == num_neurons,
                forall|k: int, j: int| 0 <= k < i && 0 <= j < m[k].len() ==> !is_positive_bits(#[trigger] m[k][j]),
            decreases weights@.len() - i,
        {
            let row = &weights[i];
            let mut j: usize = 0;
            while j < row.len()
                invariant
                    0 <= j <= row@.len(),
                    row@ == m[i as int],
                    m == matrix_view(weights@),
                    i < weights@.len(),
                    m.len() == weights@.len(),
                    weights@.len() == num_neurons,
                    forall|k: int| 0 <= k < m.len() ==> #[trigger] m[k].len() == num_neurons,
                    forall|k: int, l: int| 0 <= k < i && 0 <= l < m[k].len() ==> !is_positive_bits(#[trigger] m[k][l]),
                    forall|l: int| 0 <= l < j ==> !is_positive_bits(#[trigger] m[i as int][l]),
                decreases row@.len() - j,
            {
                let w = row[j];
                if 0 < w && w <= 0x7FF0_0000_0000_0000u64 {
                    assert(is_positive_bits(m[i as int][j as int]));
                    return Err(BuildError::PositiveIntraWeight);
                }
                j = j + 1;
            }
            i = i + 1;
        }
        Ok(())
    }

    /// Checks an excitatory matrix for `num_neurons` neurons fed by `num_inputs` inputs.
    pub fn check_weights(num_neurons: usize, num_inputs: usize, weights: &Vec<Vec<u64>>) -> (r: Result<(), BuildError>)
        ensures
            r == check_result(extra_error(num_neurons as nat, num_inputs as nat, matrix_view(weights@))),
    {
        let ghost m = matrix_view(weights@);
        if weights.len() != num_neurons {
            return Err(BuildError::WeightRows);
        }
        let mut i: usize = 0;
        while i < weights.len()
            invariant
                0 <= i <= weights@.len(),
                m == matrix_view(weights@),
                m.len() == weights@.len(),
                weights@.len() == num_neurons,
                forall|k: int| 0 <= k < i ==> #[trigger] m[k].len() == num_inputs,
            decreases weights@.len() - i,
        {
            if weights[i].len() != num_inputs {
                assert(m[i as int].len() != num_inputs);
                return Err(BuildError::WeightColumns);
            }
            i = i + 1;
        }
        let mut i: usize = 0;
        while i < weights.len()
            invariant
                0 <= i <= weights@.len(),
                m == matrix_view(weights@),
                m.len() == weights@.len(),
                weights@.len() == num_neurons,
                forall|k: int| 0 <= k < m.len() ==> #[trigger] m[k].len() == num_inputs,
                forall|k: int, j: int| 0 <= k < i && 0 <= j < m[k].len() ==> !is_negative_bits(#[trigger] m[k][j]),
            decreases weights@.len() - i,
        {
            let row = &weights[i];
            let mut j: usize = 0;
            while j < row.len()
                invariant
                    0 <= j <= row@.len(),
                    row@ == m[i as int],
                    m == matrix_view(weights@),
                    i < weights@.len(),
                    m.len() == weights@.len(),
                    weights@.len() == num_neurons,
                    forall|k: int| 0 <= k < m.len() ==> #[trigger] m[k].len() == num_inputs,
                    forall|k: int, l: int| 0 <= k < i && 0 <= l < m[k].len() ==> !is_negative_bits(#[trigger] m[k][l]),
                    forall|l: int| 0 <= l < j ==> !is_negative_bits(#[trigger] m[i as int][l]),
                decreases row@.len() - j,
            {
                let w = row[j];
                if 0x8000_0000_0000_0000u64 < w && w <= 0xFFF0_0000_0000_0000u64 {
                    assert(is_negative_bits(m[i as int][j as int]));
                    return Err(BuildError::NegativeWeight);
                }
                j = j + 1;
            }
            i = i + 1;
        }
        Ok(())
    }
}

/// Whether `position` addresses an existing cell of `m`.
fn cell_exists_in(m: &Vec<Vec<u64>>, position: usize) -> (r: bool)
    ensures
        r == cell_exists(matrix_view(m@), position),
{
    let rows = m.len();
    if rows == 0 {
        return false;
    }
    let i = position / 64 / rows;
    let j = position / 64 % rows;
    i < rows && j < m[i].len()
}

/// Whether the configured failure can act on every targeted component of a layer made
/// of these parts.
pub fn fault_targets_exist(neurons: &Vec<LifNeuron>, extra: &Vec<Vec<u64>>, intra: &Vec<Vec<u64>>, conf: &Conf) -> (r: bool)
    ensures
        r == targets_exist(
            parts_state(neurons@, extra@, intra@),
            conf.spec_components(),
            conf.spec_failure(),
            conf.spec_index_neuron(),
        ),
{
    let ghost s = parts_state(neurons@, extra@, intra@);
    let components = conf.get_vec_components();
    let failure = conf.get_failure();
    let index = conf.get_index_neuron();
    let position = match failure {
        Failure::NoFault => {
            return true;
        },
        Failure::StuckAt0(f) => f.get_position(),
        Failure::StuckAt1(f) => f.get_position(),
        Failure::TransientBitFlip(f) => f.get_position(),
    };
    assert(failure.spec_position() == Some(position));
    let mut k: usize = 0;
    while k < components.len()
        invariant
            0 <= k <= components@.len(),
            components@ == conf.spec_components(),
            failure == conf.spec_failure(),
            index == conf.spec_index_neuron(),
            !(failure is NoFault),
            failure.spec_position() == Some(position),
            s == parts_state(neurons@, extra@, intra@),
            forall|j: int| 0 <= j < k ==> target_exists(s, #[trigger] components@[j], failure, index),
        decreases components@.len() - k,
    {
        let ok = match components[k] {
            Components::Weights => cell_exists_in(extra, position),
            Components::IntraWeights => cell_exists_in(intra, position),
            Components::PrevSpikes | Components::NoTarget => true,
            _ => index < neurons.len(),
        };
        if !ok {
            assert(!target_exists(s, components@[k as int], failure, index));
            return false;
        }
        k = k + 1;
    }
    true
}

impl SnnBuilder {
    /// The number of inputs of the next layer: the network's input width for the first
    /// layer, the neuron count of the last layer added for the others.
    fn next_layer_inputs(&self) -> (r: usize)
        requires
            self.spec_params().wf(),
        ensures
            r == self.spec_params().layer_inputs(self.spec_params().num_layers as int),
    {
        if self.params.num_layers == 0 {
            self.params.input_dimensions
        } else {
            self.params.neurons[self.params.num_layers - 1].len()
        }
    }

    /// Checks a layer fed by `num_inputs` inputs: the inhibitory matrix, then the
    /// excitatory matrix, then the fault targets.
    pub fn check_layer(num_inputs: usize, neurons: &Vec<LifNeuron>, extra_weights: &Vec<Vec<u64>>,
        intra_weights: &Vec<Vec<u64>>, configuration: &Conf) -> (r: Result<(), BuildError>)
        ensures
            r == check_result(layer_error(num_inputs as nat, neurons@, extra_weights@, intra_weights@, *configuration)),
    {
        Self::check_intra_weights(neurons.len(), intra_weights)?;
        Self::check_weights(neurons.len(), num_inputs, extra_weights)?;
        if !fault_targets_exist(neurons, extra_weights, intra_weights, configuration) {
            return Err(BuildError::FaultTarget);
        }
        Ok(())
    }

    /// Adds a layer after checking it (see `layer_error`); a layer with a problem is
    /// refused with the first problem found.
    pub fn add_layer(self, neurons: Vec<LifNeuron>, extra_weights: Vec<Vec<u64>>, intra_weights: Vec<Vec<u64>>,
        configuration: Conf) -> (r: Result<Self, BuildError>)
        requires
            self.spec_params().wf(),
        ensures
            ({
                let p = self.spec_params();
                let e = add_error(p, neurons@, extra_weights@, intra_weights@, configuration);
                &&& (r is Ok <==> e is None)
                &&& (r matches Err(err) ==> e == Some(err))
                &&& (r matches Ok(b) ==> {
                    &&& b.spec_params().wf()
                    &&& b.spec_params().input_dimensions == p.input_dimensions
                    &&& b.spec_params().num_layers == p.num_layers + 1
                    &&& b.spec_params().neurons@ == p.neurons@.push(neurons)
                    &&& b.spec_params().extra_weights@ == p.extra_weights@.push(extra_weights)
                    &&& b.spec_params().intra_weights@ == p.intra_weights@.push(intra_weights)
                    &&& b.spec_params().configuration@ == p.configuration@.push(configuration)
                })
            }),
    {
        let num_inputs = self.next_layer_inputs();
        match Self::check_layer(num_inputs, &neurons, &extra_weights, &intra_weights, &configuration) {
            Err(e) => {
                return Err(e);
            },
            Ok(()) => {},
        }
        if self.params.num_layers == usize::MAX {
            return Err(BuildError::TooManyLayers);
        }
        let ghost prior = self.params;
        let mut params = self.params;
        params.neurons.push(neurons);
        params.extra_weights.push(extra_weights);
        params.intra_weights.push(intra_weights);
        params.configuration.push(configuration);
        params.num_layers = params.num_layers + 1;
        proof {
            assert forall|i: int| 0 <= i < params.num_layers implies layer_error(
                params.layer_inputs(i),
                (#[trigger] params.neurons@[i])@,
                params.extra_weights@[i]@,
                params.intra_weights@[i]@,
                params.configuration@[i],
            ) is None by {
                if i < prior.num_layers {
                    assert(params.neurons@[i] == prior.neurons@[i]);
                    assert(layer_error(
                        prior.layer_inputs(i),
                        prior.neurons@[i]@,
                        prior.extra_weights@[i]@,
                        prior.intra_weights@[i]@,
                        prior.configuration@[i],
                    ) is None);
                    if i > 0 {
                        assert(params.neurons@[i - 1] == prior.neurons@[i - 1]);
                    }
                } else if i > 0 {
                    assert(params.neurons@[i - 1] == prior.neurons@[i - 1]);
                }
            }
        }
        Ok(Self { params })
    }

    /// Adds a layer of `num_neurons` copies of `neuron`, checked as `add_layer` checks.
    pub fn add_layer_with_same_neurons(self, neuron: LifNeuron, num_neurons: usize, extra_weights: Vec<Vec<u64>>,
        intra_weights: Vec<Vec<u64>>, configuration: Conf) -> (r: Result<Self, BuildError>)
        requires
            self.spec_params().wf(),
        ensures
            ({
                let p = self.spec_params();
                let neurons = Seq::new(num_neurons as nat, |i: int| neuron);
                let e = add_error(p, neurons, extra_weights@, intra_weights@, configuration);
                &&& (r is Ok <==> e is None)
                &&& (r matches Err(err) ==> e == Some(err))
                &&& (r matches Ok(b) ==> {
                    &&& b.spec_params().wf()
                    &&& b.spec_params().input_dimensions == p.input_dimensions
                    &&& b.spec_params().num_layers == p.num_layers + 1
                    &&& b.spec_params().neurons@.len() == p.neurons@.len() + 1
                    &&& b.spec_params().neurons@.last()@ == neurons
                    &&& b.spec_params().neurons@.drop_last() == p.neurons@
                    &&& b.spec_params().extra_weights@ == p.extra_weights@.push(extra_weights)
                    &&& b.spec_params().intra_weights@ == p.intra_weights@.push(intra_weights)
                    &&& b.spec_params().configuration@ == p.configuration@.push(configuration)
                })
            }),
    {
        let mut neurons: Vec<LifNeuron> = Vec::new();
        let mut i: usize = 0;
        while i < num_neurons
            invariant
                0 <= i <= num_neurons,
                neurons@ == Seq::new(i as nat, |k: int| neuron),
            decreases num_neurons - i,
        {
            neurons.push(neuron);
            assert(neurons@ =~= Seq::new((i + 1) as nat, |k: int| neuron));
            i = i + 1;
        }
        let ghost prior = self.spec_params();
        let r = self.add_layer(neurons, extra_weights, intra_weights, configuration);
        proof {
            if r is Ok {
                let b = r->Ok_0;
                assert(b.spec_params().neurons@.drop_last() =~= prior.neurons@);
            }
        }
        r
    }

    /// The network made of the layers added so far, each at the start of a run (no
    /// previous spikes recorded as fired). Fails when no layer was added.
    pub fn build(self) -> (r: Result<SNN, BuildError>)
        requires
            self.spec_params().wf(),
        ensures
            ({
                let p = self.spec_params();
                &&& (r is Err <==> p.num_layers == 0)
                &&& (r matches Err(e) ==> e == BuildError::NoLayers)
                &&& (r matches Ok(snn) ==> {
                    &&& snn.wf()
                    &&& snn.spec_layers().len() == p.num_layers
                    &&& forall|i: int| 0 <= i < p.num_layers ==> {
                        &&& (#[trigger] snn.spec_layers()[i]).state() == (LayerState {
                            prev_spikes: Seq::new(p.neurons@[i]@.len(), |k: int| 0u8),
                            ..parts_state(p.neurons@[i]@, p.extra_weights@[i]@, p.intra_weights@[i]@)
                        })
                        &&& snn.spec_layers()[i].conf().spec_components() == p.configuration@[i].spec_components()
                        &&& snn.spec_layers()[i].conf().spec_failure() == p.configuration@[i].spec_failure()
                        &&& snn.spec_layers()[i].conf().spec_index_neuron() == p.configuration@[i].spec_index_neuron()
                        &&& snn.spec_layers()[i].conf().spec_transient_mode() == p.configuration@[i].spec_transient_mode()
                    }
                })
            }),
    {
        if self.params.num_layers == 0 {
            return Err(BuildError::NoLayers);
        }
        let ghost p = self.params;
        let mut layers: Vec<Layer> = Vec::new();
        let mut i: usize = 0;
        while i < self.params.num_layers
            invariant
                p == self.params,
                p.wf(),
                0 <= i <= p.num_layers,
                layers@.len() == i,
                forall|k: int| 0 <= k < i ==> {
                    &&& (#[trigger] layers@[k]).wf()
                    &&& layers@[k].state() == (LayerState {
                        prev_spikes: Seq::new(p.neurons@[k]@.len(), |j: int| 0u8),
                        ..parts_state(p.neurons@[k]@, p.extra_weights@[k]@, p.intra_weights@[k]@)
                    })
                    &&& layers@[k].conf().spec_components() == p.configuration@[k].spec_components()
                    &&& layers@[k].conf().spec_failure() == p.configuration@[k].spec_failure()
                    &&& layers@[k].conf().spec_index_neuron() == p.configuration@[k].spec_index_neuron()
                    &&& layers@[k].conf().spec_transient_mode() == p.configuration@[k].spec_transient_mode()
                },
            decreases p.num_layers - i,
        {
            let neurons = self.params.neurons[i].clone();
            assert(neurons@ =~= p.neurons@[i as int]@);
            let extra = copy_matrix(&self.params.extra_weights[i]);
            let intra = copy_matrix(&self.params.intra_weights[i]);
            let conf = self.params.configuration[i].copy();
            proof {
                assert(layer_error(
                    p.layer_inputs(i as int),
                    p.neurons@[i as int]@,
                    p.extra_weights@[i as int]@,
                    p.intra_weights@[i as int]@,
                    p.configuration@[i as int],
                ) is None);
                lemma_accepted_layer(
                    p.layer_inputs(i as int),
                    p.neurons@[i as int]@,
                    p.extra_weights@[i as int]@,
                    p.intra_weights@[i as int]@,
                    p.configuration@[i as int],
                );
                assert(parts_state(neurons@, extra@, intra@) == parts_state(
                    p.neurons@[i as int]@,
                    p.extra_weights@[i as int]@,
                    p.intra_weights@[i as int]@,
                ));
            }
            let layer = Layer::new(neurons, extra, intra, conf);
            layers.push(layer);
            i = i + 1;
        }
        Ok(SNN::new(layers))
    }
}

} // verus!
