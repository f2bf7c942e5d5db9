use std::f64::consts::E;
use spiking_neural_network::failure::{Components, Conf, Failure, StuckAt0};
use spiking_neural_network::layer::Layer;
use spiking_neural_network::lif_neuron::LifNeuron;
use spiking_neural_network::network::SNN;
use spiking_neural_network::spike_event::SpikeEvent;

fn to_bits(m: Vec<Vec<f64>>) -> Vec<Vec<u64>> {
    m.into_iter().map(|row| row.into_iter().map(f64::to_bits).collect()).collect()
}

fn lif(v_th: f64, v_rest: f64, v_reset: f64, tau: f64, dt: f64) -> LifNeuron {
    LifNeuron::new(v_th.to_bits(), v_rest.to_bits(), v_reset.to_bits(), tau.to_bits(), dt.to_bits())
}

fn create_layer() -> Layer {
    let n = lif(0.76, 0.33, 0.14, 0.4, 0.05);
    let n2 = lif(0.88, 0.3, 0.1, 0.2, 0.05);
    let n3 = lif(0.9, 0.2, 0.05, 0.1, 0.05);
    let failure = Failure::StuckAt0(StuckAt0::new(0));
    let configuration = Conf::new(vec![Components::VMem, Components::VTh], failure, 1);
    let neurons = vec![n, n2, n3];

    let weights = vec![
        vec![0.1, 0.2],
        vec![0.3, 0.4],
        vec![0.5, 0.6],
    ];

    let intra_weights = vec![
        vec![0.0, -0.5, -0.15],
        vec![-0.05, 0.0, -0.2],
        vec![-0.35, -0.1, 0.0],
    ];

    Layer::new(neurons, to_bits(weights), to_bits(intra_weights), configuration)
}

fn create_snn() -> SNN {
    let layer = create_layer();
    SNN::new(vec![layer.clone(), layer.clone(), layer.clone()])
}

fn create_snn_1_layer() -> SNN {
    SNN::new(vec![create_layer()])
}

/// Leaky integrate-and-fire update of one neuron, in floating point. The library holds
/// no floating point, so these tests drive its per-instant API with an update of their own.
fn calculate_v_mem(n: &mut LifNeuron, t: u64, sum: f64) -> u8 {
    let ts = n.get_ts();
    let diff = if t > ts { (t - ts) as f64 } else { (ts - t) as f64 };
    let tau = f64::from_bits(n.get_tau());
    let dt = f64::from_bits(n.get_dt());
    let v_rest = f64::from_bits(n.get_v_rest());
    let mut exponent = 0.0;
    if diff != 0.0 && tau != 0.0 {
        exponent = -(diff * dt / tau);
    }
    let mut v_mem = f64::from_bits(n.get_v_mem());
    if v_mem < v_rest {
        v_mem = v_rest;
    }
    v_mem = v_rest + (v_mem - v_rest) * E.powf(exponent) + sum;
    n.set_ts(t);
    if v_mem > f64::from_bits(n.get_v_th()) {
        n.set_v_mem(n.get_v_reset());
        1
    } else {
        n.set_v_mem(v_mem.to_bits());
        0
    }
}

fn sum_bits(weights: &[u64]) -> f64 {
    let mut s = 0f64;
    for w in weights {
        s += f64::from_bits(*w);
    }
    s
}

fn step(layer: &mut Layer, event: &SpikeEvent) -> Option<SpikeEvent> {
    let t = event.get_ts();
    let spikes = event.get_spikes();
    layer.generate_faults();
    let mut neurons = layer.get_neurons();
    let mut out = Vec::new();
    for i in 0..neurons.len() {
        let extra = sum_bits(&layer.excitatory_inputs(i, &spikes));
        let intra = sum_bits(&layer.inhibitory_inputs(i));
        let spike = calculate_v_mem(&mut neurons[i], t, extra + intra);
        layer.set_neuron(i, neurons[i]);
        out.push(spike);
    }
    layer.complete_instant(t, out)
}

/// Runs the layers one after the other on the whole input, in a single thread.
fn process(snn: &mut SNN, spikes: &Vec<Vec<u8>>) -> Vec<Vec<u8>> {
    let duration = SNN::spikes_duration(spikes).expect("rows of equal length");
    let input_dim = snn.get_input_layer_one_dim();
    let output_dim = snn.get_output_last_layer_dim();
    let encoded = SNN::encode_spikes(input_dim, spikes, duration).expect("binary input of the right width");
    let mut events = SNN::effective_events(&encoded);
    let mut layers = snn.get_layers();
    for layer in layers.iter_mut() {
        layer.init();
        events = events.iter().filter_map(|e| step(layer, e)).collect();
    }
    *snn = SNN::new(layers);
    SNN::decode_spikes(output_dim, events, duration)
}

#[test]
fn verify_get_number_layers() {
    let n = create_snn();
    assert_eq!(n.get_number_layers(), 3);
}

#[test]
fn verify_get_input_layer_dim() {
    let n = create_snn();
    assert_eq!(n.get_input_layer_one_dim(), 2);
}

#[test]
fn verify_get_output_layer_dim() {
    let n = create_snn();
    assert_eq!(n.get_output_last_layer_dim(), 3);
}

#[test]
fn verify_output_last_layer_dim() {
    let mut n = create_snn_1_layer();
    let input_spikes: Vec<Vec<u8>> = vec![
        vec![0, 1, 1], /* 1st neuron input train of spikes */
        vec![1, 0, 1], /* 2nd neuron input train of spikes */
    ];
    assert_eq!(process(&mut n, &input_spikes), vec![
        vec![0, 0, 0], /* 1st neuron input train of spikes */
        vec![0, 1, 0], /* 2nd neuron input train of spikes */
        vec![0, 1, 1], /* 3rd neuron input train of spikes */
    ]);
}

#[test]
fn verify_output_first_layer_dim() {
    let n = create_snn();
    assert_eq!(n.get_output_last_layer_dim(), 3);
}

#[test]
fn repeated_runs_give_the_same_output() {
    let mut n = create_snn_1_layer();
    let input_spikes: Vec<Vec<u8>> = vec![vec![0, 1, 1], vec![1, 0, 1]];
    let first = process(&mut n, &input_spikes);
    let second = process(&mut n, &input_spikes);
    assert_eq!(first, second);
}

#[test]
fn layer_with_no_spike_forwards_nothing() {
    let mut layer = create_layer();
    layer.init();
    let quiet = SpikeEvent::new(0, vec![0, 0]);
    assert!(step(&mut layer, &quiet).is_none());
    assert_eq!(layer.get_prev_spikes(), vec![0, 0, 0]);
}

#[test]
fn multi_layer_equals_layers_run_one_by_one() {
    let input_spikes: Vec<Vec<u8>> = vec![vec![1, 1, 0, 1], vec![1, 0, 1, 1]];
    let first = SNN::new(vec![create_layer()]);
    let mut whole = SNN::new(vec![create_layer(), second_layer()]);
    let mut only_first = first;
    let middle = process(&mut only_first, &input_spikes);
    let mut only_second = SNN::new(vec![second_layer()]);
    let staged = process(&mut only_second, &middle);
    assert_eq!(process(&mut whole, &input_spikes), staged);
}

fn second_layer() -> Layer {
    let n = lif(0.5, 0.0, 0.0, 0.4, 0.05);
    let configuration = Conf::new(vec![], Failure::NoFault, 0);
    let weights = vec![vec![0.3, 0.3, 0.3], vec![0.6, 0.0, 0.0]];
    let intra_weights = vec![vec![0.0, -0.1], vec![-0.1, 0.0]];
    Layer::new(vec![n, n], to_bits(weights), to_bits(intra_weights), configuration)
}
