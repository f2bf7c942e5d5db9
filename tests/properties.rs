use spiking_neural_network::builder::{BuildError, SnnBuilder};
use spiking_neural_network::configuration::Configuration;
use spiking_neural_network::failure::{
    is_redundant_fault, modify_bits, Components, Conf, Failure, StuckAt0, StuckAt1, TransientBitFlip, TransientMode,
};
use spiking_neural_network::layer::{contains_spike, Layer};
use spiking_neural_network::lif_neuron::LifNeuron;
use spiking_neural_network::network::SNN;
use spiking_neural_network::campaign::{build_intra_weights, convert_line_into_u8, get_file_name, get_val};
use spiking_neural_network::spike_event::SpikeEvent;

fn to_bits(m: Vec<Vec<f64>>) -> Vec<Vec<u64>> {
    m.into_iter().map(|row| row.into_iter().map(f64::to_bits).collect()).collect()
}

fn lif(v_th: f64) -> LifNeuron {
    LifNeuron::new(v_th.to_bits(), 0.2f64.to_bits(), 0.3f64.to_bits(), 0.4f64.to_bits(), 0.05f64.to_bits())
}

fn no_fault() -> Conf {
    Conf::new(vec![], Failure::NoFault, 0)
}

fn small_layer(configuration: Conf) -> Layer {
    let weights = vec![vec![0.1, 0.2], vec![0.3, 0.4], vec![0.5, 0.6]];
    let intra = vec![vec![0.0, -0.1, -0.15], vec![-0.05, 0.0, -0.1], vec![-0.15, -0.1, 0.0]];
    Layer::new(vec![lif(0.9); 3], to_bits(weights), to_bits(intra), configuration)
}

#[test]
fn stuck_at_1_bit_14_of_point_nine() {
    let mut f = Failure::StuckAt1(StuckAt1::new(14));
    assert_eq!(f64::from_bits(modify_bits(&mut f, 0.9f64.to_bits())), 0.9625);
}

#[test]
fn stuck_at_0_bit_12_of_point_nine() {
    let mut f = Failure::StuckAt0(StuckAt0::new(12));
    assert_eq!(f64::from_bits(modify_bits(&mut f, 0.9f64.to_bits())), 0.65);
}

#[test]
fn positions_wrap_every_64_bits() {
    let mut f = Failure::StuckAt1(StuckAt1::new(14 + 64 * 3));
    assert_eq!(f64::from_bits(modify_bits(&mut f, 0.9f64.to_bits())), 0.9625);
    assert_eq!(modify_bits(&mut Failure::StuckAt1(StuckAt1::new(63)), 0), 1);
    assert_eq!(modify_bits(&mut Failure::StuckAt1(StuckAt1::new(0)), 0), 1u64 << 63);
    assert_eq!(modify_bits(&mut Failure::StuckAt0(StuckAt0::new(0)), u64::MAX), u64::MAX >> 1);
}

#[test]
fn no_fault_is_identity() {
    assert_eq!(modify_bits(&mut Failure::NoFault, 0x1234), 0x1234);
    assert_eq!(Failure::NoFault.get_position(), None);
    assert_eq!(Failure::TransientBitFlip(TransientBitFlip::new(9)).get_position(), Some(9));
}

#[test]
fn transient_fault_fires_once() {
    let mut f = Failure::TransientBitFlip(TransientBitFlip::new(63));
    assert_eq!(f.apply_bit_fault(0b100), 0b101);
    assert_eq!(f.apply_bit_fault(0b100), 0b100);
    assert_eq!(f.apply_bit_fault(0b101), 0b101);
    match f {
        Failure::TransientBitFlip(t) => assert!(t.get_bit_changed()),
        _ => panic!("the failure changed kind"),
    }
}

#[test]
fn transient_flip_clears_a_set_bit() {
    let mut f = Failure::TransientBitFlip(TransientBitFlip::new(63));
    assert_eq!(modify_bits(&mut f, 0b111), 0b110);
}

#[test]
fn stuck_at_is_idempotent() {
    let mut f = Failure::StuckAt1(StuckAt1::new(14));
    let once = f.apply_bit_fault(0.9f64.to_bits());
    let twice = f.apply_bit_fault(once);
    assert_eq!(once, twice);
    assert_eq!(StuckAt1::new(3).get_value(), 1);
    assert_eq!(StuckAt0::new(3).get_value(), 0);
}

#[test]
fn layer_transient_fault_fires_on_first_instant_only() {
    let conf = Conf::new(vec![Components::VTh], Failure::TransientBitFlip(TransientBitFlip::new(14)), 2);
    let mut l = small_layer(conf);
    l.generate_faults();
    assert_eq!(f64::from_bits(l.get_neurons()[2].get_v_th()), 0.9625);
    l.generate_faults();
    assert_eq!(f64::from_bits(l.get_neurons()[2].get_v_th()), 0.9625);
    assert_eq!(f64::from_bits(l.get_neurons()[0].get_v_th()), 0.9);
}

#[test]
fn layer_stuck_fault_on_weights_cell() {
    let conf = Conf::new(vec![Components::Weights], Failure::StuckAt0(StuckAt0::new(64 * 4 + 12)), 0);
    let mut l = small_layer(conf);
    l.generate_faults();
    // word 4 of a 3-row matrix: row 4 / 3 = 1, column 4 % 3 = 1
    let w = l.get_weights();
    assert_eq!(f64::from_bits(w[1][1]), f64::from_bits(modify_bits(&mut Failure::StuckAt0(StuckAt0::new(12)), 0.4f64.to_bits())));
    assert_eq!(f64::from_bits(w[0][0]), 0.1);
}

#[test]
fn layer_prev_spikes_fault() {
    let conf = Conf::new(vec![Components::PrevSpikes], Failure::StuckAt1(StuckAt1::new(4)), 0);
    let mut l = small_layer(conf);
    l.set_prev_spikes(vec![0, 0, 0]);
    l.generate_faults();
    assert_eq!(l.get_prev_spikes(), vec![0, 1, 0]);
    l.init();
    assert_eq!(l.get_prev_spikes(), Vec::<u8>::new());
    l.generate_faults();
    assert_eq!(l.get_prev_spikes(), Vec::<u8>::new());
}

#[test]
fn synaptic_inputs_follow_spikes() {
    let mut l = small_layer(no_fault());
    assert_eq!(l.excitatory_inputs(1, &vec![1, 0]), vec![0.3f64.to_bits()]);
    assert_eq!(l.excitatory_inputs(2, &vec![1, 1]), vec![0.5f64.to_bits(), 0.6f64.to_bits()]);
    assert_eq!(l.excitatory_inputs(0, &vec![0, 0]), Vec::<u64>::new());
    assert_eq!(l.excitatory_inputs(0, &vec![1]), vec![0.1f64.to_bits()]);
    l.set_prev_spikes(vec![1, 1, 1]);
    assert_eq!(l.inhibitory_inputs(0), vec![(-0.1f64).to_bits(), (-0.15f64).to_bits()]);
    assert_eq!(l.inhibitory_inputs(1), vec![(-0.05f64).to_bits(), (-0.1f64).to_bits()]);
    l.set_prev_spikes(vec![]);
    assert_eq!(l.inhibitory_inputs(2), Vec::<u64>::new());
}

#[test]
fn complete_instant_emits_only_on_a_spike() {
    let mut l = small_layer(no_fault());
    assert!(l.complete_instant(4, vec![0, 0, 0]).is_none());
    assert_eq!(l.get_prev_spikes(), vec![0, 0, 0]);
    let e = l.complete_instant(5, vec![0, 1, 0]).expect("a neuron fired");
    assert_eq!(e.get_ts(), 5);
    assert_eq!(e.get_spikes(), vec![0, 1, 0]);
    assert_eq!(l.get_prev_spikes(), vec![0, 1, 0]);
    assert!(contains_spike(&vec![0, 0, 1]));
    assert!(!contains_spike(&vec![]));
}

#[test]
fn layer_init_resets_neurons_and_spikes() {
    let mut l = small_layer(no_fault());
    let mut n = l.get_neurons()[1];
    n.set_v_mem(5.0f64.to_bits());
    n.set_ts(9);
    l.set_neuron(1, n);
    l.init();
    let n = l.get_neurons()[1];
    assert_eq!(f64::from_bits(n.get_v_mem()), 0.2);
    assert_eq!(n.get_ts(), 0);
    assert_eq!(l.get_prev_spikes(), Vec::<u8>::new());
    assert_eq!(l.get_number_neurons(), 3);
}

#[test]
fn configuration_accessors() {
    let mut c = Conf::new(vec![Components::Tau, Components::Dt], Failure::StuckAt0(StuckAt0::new(3)), 7);
    assert_eq!(c.get_vec_components(), vec![Components::Tau, Components::Dt]);
    assert_eq!(c.get_len_vec_components(), 2);
    assert_eq!(c.get_failure(), Failure::StuckAt0(StuckAt0::new(3)));
    assert_eq!(c.get_index_neuron(), 7);
    c.init();
    assert_eq!(c.get_len_vec_components(), 0);
    assert_eq!(c.get_failure(), Failure::NoFault);
    assert_eq!(c.get_index_neuron(), 7);
    let l = small_layer(Conf::new(vec![Components::VMem], Failure::NoFault, 1));
    assert_eq!(l.get_configuration(), Conf::new(vec![Components::VMem], Failure::NoFault, 1));
}

#[test]
fn wrong_excitatory_row_count_is_refused() {
    let r = SnnBuilder::new(2).add_layer(
        vec![lif(0.9); 3],
        to_bits(vec![vec![0.1, 0.2], vec![0.3, 0.4]]),
        to_bits(vec![vec![0.0; 3]; 3]),
        no_fault(),
    );
    assert_eq!(r.err(), Some(BuildError::WeightRows));
}

#[test]
fn builder_reports_each_problem() {
    let good_extra = || to_bits(vec![vec![0.1, 0.2]; 2]);
    let good_intra = || to_bits(vec![vec![0.0, -0.5], vec![-0.5, 0.0]]);
    let add = |extra: Vec<Vec<u64>>, intra: Vec<Vec<u64>>, conf: Conf| {
        SnnBuilder::new(2).add_layer(vec![lif(0.9); 2], extra, intra, conf).err()
    };
    assert_eq!(add(good_extra(), good_intra(), no_fault()), None);
    assert_eq!(add(to_bits(vec![vec![0.1, 0.2, 0.3]; 2]), good_intra(), no_fault()), Some(BuildError::WeightColumns));
    assert_eq!(add(to_bits(vec![vec![0.1, -0.2]; 2]), good_intra(), no_fault()), Some(BuildError::NegativeWeight));
    assert_eq!(add(to_bits(vec![vec![0.1, -0.0]; 2]), good_intra(), no_fault()), None);
    assert_eq!(add(good_extra(), to_bits(vec![vec![0.0, 0.0]]), no_fault()), Some(BuildError::IntraWeightRows));
    assert_eq!(add(good_extra(), to_bits(vec![vec![0.0], vec![0.0, 0.0]]), no_fault()), Some(BuildError::IntraWeightColumns));
    assert_eq!(add(good_extra(), to_bits(vec![vec![0.0, 0.5], vec![-0.5, 0.0]]), no_fault()), Some(BuildError::PositiveIntraWeight));
    let far_neuron = Conf::new(vec![Components::VTh], Failure::StuckAt0(StuckAt0::new(1)), 2);
    assert_eq!(add(good_extra(), good_intra(), far_neuron), Some(BuildError::FaultTarget));
    let far_cell = Conf::new(vec![Components::Weights], Failure::StuckAt0(StuckAt0::new(64 * 4)), 0);
    assert_eq!(add(good_extra(), good_intra(), far_cell), Some(BuildError::FaultTarget));
    let unused_index = Conf::new(vec![Components::VTh], Failure::NoFault, 99);
    assert_eq!(add(good_extra(), good_intra(), unused_index), None);
}

#[test]
fn build_needs_a_layer() {
    assert_eq!(SnnBuilder::new(3).build().err(), Some(BuildError::NoLayers));
}

#[test]
fn builder_chains_layer_widths() {
    let b = SnnBuilder::new(2)
        .add_layer(vec![lif(0.9); 3], to_bits(vec![vec![0.1, 0.2]; 3]), to_bits(vec![vec![0.0; 3]; 3]), no_fault())
        .unwrap();
    let wrong = SnnBuilder::new(2)
        .add_layer(vec![lif(0.9); 3], to_bits(vec![vec![0.1, 0.2]; 3]), to_bits(vec![vec![0.0; 3]; 3]), no_fault())
        .unwrap()
        .add_layer(vec![lif(0.9); 1], to_bits(vec![vec![0.1, 0.2]]), to_bits(vec![vec![0.0]]), no_fault());
    assert_eq!(wrong.err(), Some(BuildError::WeightColumns));
    let b = b
        .add_layer_with_same_neurons(lif(0.5), 2, to_bits(vec![vec![0.1, 0.2, 0.3]; 2]), to_bits(vec![vec![0.0; 2]; 2]), no_fault())
        .unwrap();
    let params = b.get_params();
    assert_eq!(params.num_layers, 2);
    assert_eq!(params.input_dimensions, 2);
    assert_eq!(params.neurons[1], vec![lif(0.5); 2]);
    let snn = b.build().unwrap();
    assert_eq!(snn.get_number_layers(), 2);
    assert_eq!(snn.get_input_layer_one_dim(), 2);
    assert_eq!(snn.get_output_last_layer_dim(), 2);
    assert_eq!(snn.get_layers()[0].get_prev_spikes(), vec![0, 0, 0]);
}

#[test]
fn spikes_duration_checks_rows() {
    assert_eq!(SNN::spikes_duration(&vec![vec![0, 1, 1], vec![1, 0, 1]]), Some(3));
    assert_eq!(SNN::spikes_duration(&vec![]), Some(0));
    assert_eq!(SNN::spikes_duration(&vec![vec![0, 1], vec![1, 0, 1]]), None);
}

#[test]
fn encode_takes_columns() {
    let events = SNN::encode_spikes(2, &vec![vec![0, 1, 1], vec![1, 0, 1]], 3).unwrap();
    assert_eq!(events.len(), 3);
    assert_eq!(events[0].get_ts(), 0);
    assert_eq!(events[0].get_spikes(), vec![0, 1]);
    assert_eq!(events[1].get_spikes(), vec![1, 0]);
    assert_eq!(events[2].get_ts(), 2);
    assert_eq!(events[2].get_spikes(), vec![1, 1]);
    assert!(SNN::encode_spikes(3, &vec![vec![0, 1, 1], vec![1, 0, 1]], 3).is_none());
    assert!(SNN::encode_spikes(2, &vec![vec![0, 2, 1], vec![1, 0, 1]], 3).is_none());
}

#[test]
fn decode_scatters_events() {
    let events = vec![SpikeEvent::new(1, vec![1, 0, 1]), SpikeEvent::new(3, vec![0, 1])];
    assert_eq!(SNN::decode_spikes(3, events, 4), vec![vec![0, 1, 0, 0], vec![0, 0, 0, 1], vec![0, 1, 0, 0]]);
    assert_eq!(SNN::decode_spikes(2, vec![], 2), vec![vec![0, 0], vec![0, 0]]);
}

#[test]
fn file_names_of_configurations() {
    let c = Conf::new(vec![Components::VRest], Failure::TransientBitFlip(TransientBitFlip::new(0)), 10);
    assert_eq!(get_file_name(&c), "VRest_Transient_0_10.txt");
    let c = Conf::new(vec![], Failure::NoFault, 0);
    assert_eq!(get_file_name(&c), "NoFault_None_0.txt");
    let c = Conf::new(vec![Components::IntraWeights, Components::Tau], Failure::StuckAt1(StuckAt1::new(1234)), 399);
    assert_eq!(get_file_name(&c), "IntraWeights_StuckAt1_1234_399.txt");
    let c = Conf::new(vec![Components::Ts], Failure::StuckAt0(StuckAt0::new(7)), 18446744073709551615);
    assert_eq!(get_file_name(&c), "Ts_StuckAt0_7_18446744073709551615.txt");
}

#[test]
fn digits_of_a_line() {
    assert_eq!(convert_line_into_u8("0110".to_string()), vec![0, 1, 1, 0]);
    assert_eq!(convert_line_into_u8("907".to_string()), vec![9, 0, 7]);
    assert_eq!(convert_line_into_u8(String::new()), Vec::<u8>::new());
}

#[test]
fn values_of_fault_targets() {
    let neurons = vec![lif(0.9), lif(0.7)];
    let extra = to_bits(vec![vec![0.1, 0.2], vec![0.3, 0.4]]);
    let intra = to_bits(vec![vec![0.0, -0.5], vec![-0.25, 0.0]]);
    assert_eq!(get_val(Components::VTh, &neurons, 1, &intra, &extra, 5), 0.7f64.to_bits());
    assert_eq!(get_val(Components::Dt, &neurons, 0, &intra, &extra, 5), 0.05f64.to_bits());
    assert_eq!(get_val(Components::Weights, &neurons, 0, &intra, &extra, 64 * 3), 0.4f64.to_bits());
    assert_eq!(get_val(Components::IntraWeights, &neurons, 0, &intra, &extra, 64 * 2 + 7), (-0.25f64).to_bits());
    assert_eq!(get_val(Components::VMem, &neurons, 0, &intra, &extra, 5), 0);
    assert!(is_redundant_fault(&Failure::StuckAt0(StuckAt0::new(61)), 0b011));
    assert!(!is_redundant_fault(&Failure::StuckAt0(StuckAt0::new(62)), 0b011));
    assert!(is_redundant_fault(&Failure::StuckAt1(StuckAt1::new(62)), 0b010));
    assert!(!is_redundant_fault(&Failure::StuckAt1(StuckAt1::new(63)), 0b010));
    assert!(!is_redundant_fault(&Failure::TransientBitFlip(TransientBitFlip::new(62)), 0b010));
    assert!(!is_redundant_fault(&Failure::NoFault, 0b010));
    assert!(is_redundant_fault(&Failure::StuckAt0(StuckAt0::new(12)), 0.65f64.to_bits()));
    assert!(!is_redundant_fault(&Failure::StuckAt0(StuckAt0::new(12)), 0.9f64.to_bits()));
    let m = build_intra_weights(3, (-15.0f64).to_bits());
    assert_eq!(m.len(), 3);
    assert_eq!(m[1], vec![(-15.0f64).to_bits(), 0, (-15.0f64).to_bits()]);
    assert_eq!(build_intra_weights(0, 7), Vec::<Vec<u64>>::new());
}

#[test]
fn silent_instants_are_dropped_without_loss() {
    let m = vec![vec![0, 1, 0, 0, 1], vec![0, 0, 0, 1, 1]];
    let encoded = SNN::encode_spikes(2, &m, 5).unwrap();
    let kept = SNN::effective_events(&encoded);
    let instants: Vec<u64> = kept.iter().map(|e| e.get_ts()).collect();
    assert_eq!(instants, vec![1, 3, 4]);
    assert_eq!(SNN::decode_spikes(2, kept, 5), m);
    assert!(SNN::effective_events(&vec![SpikeEvent::new(0, vec![0, 0])]).is_empty());
}

#[test]
fn modify_bits_marks_transient_fired() {
    let mut f = Failure::TransientBitFlip(TransientBitFlip::new(14));
    let first = modify_bits(&mut f, 0.9f64.to_bits());
    assert_eq!(f64::from_bits(first), 0.9625);
    assert_eq!(f, Failure::TransientBitFlip({
        let mut t = TransientBitFlip::new(14);
        t.set_bit_changed(true);
        t
    }));
    assert_eq!(modify_bits(&mut f, first), first);
    let mut s = Failure::StuckAt0(StuckAt0::new(12));
    modify_bits(&mut s, 0);
    assert_eq!(s, Failure::StuckAt0(StuckAt0::new(12)));
}

#[test]
fn transient_stays_spent_across_runs_until_rearmed() {
    let mut conf = Conf::new(vec![Components::VTh], Failure::TransientBitFlip(TransientBitFlip::new(14)), 0);
    assert_eq!(conf.get_transient_mode(), TransientMode::Once);
    let mut l = small_layer(conf.clone());
    l.init();
    l.generate_faults();
    l.generate_faults();
    assert_eq!(f64::from_bits(l.get_neurons()[0].get_v_th()), 0.9625);
    let fired = l.get_configuration();
    l.init();
    assert_eq!(l.get_configuration(), fired);
    l.generate_faults();
    assert_eq!(f64::from_bits(l.get_neurons()[0].get_v_th()), 0.9625);
    conf.rearm();
    assert_eq!(conf, Conf::new(vec![Components::VTh], Failure::TransientBitFlip(TransientBitFlip::new(14)), 0));
}

#[test]
fn transient_fires_every_instant_when_configured() {
    let mut conf = Conf::new(vec![Components::VTh], Failure::TransientBitFlip(TransientBitFlip::new(14)), 0);
    conf.set_transient_mode(TransientMode::EveryInstant);
    let mut l = small_layer(conf);
    l.generate_faults();
    assert_eq!(f64::from_bits(l.get_neurons()[0].get_v_th()), 0.9625);
    l.generate_faults();
    assert_eq!(f64::from_bits(l.get_neurons()[0].get_v_th()), 0.9);
    assert_eq!(l.get_configuration().get_transient_mode(), TransientMode::EveryInstant);
}

#[test]
fn stuck_fault_settles_after_first_instant() {
    let conf = Conf::new(
        vec![Components::VTh, Components::Weights, Components::PrevSpikes, Components::VTh],
        Failure::StuckAt1(StuckAt1::new(14)),
        1,
    );
    let mut l = small_layer(conf);
    l.set_prev_spikes(vec![0, 0, 0]);
    l.generate_faults();
    let neurons = l.get_neurons();
    let weights = l.get_weights();
    let spikes = l.get_prev_spikes();
    assert_eq!(f64::from_bits(neurons[1].get_v_th()), 0.9625);
    assert_eq!(spikes, vec![0, 0, 1]);
    l.generate_faults();
    assert_eq!(l.get_neurons(), neurons);
    assert_eq!(l.get_weights(), weights);
    assert_eq!(l.get_prev_spikes(), spikes);
}
