use spiking_neural_network::lif_neuron::LifNeuron;

fn lif(v_th: f64, v_rest: f64, v_reset: f64, tau: f64, dt: f64) -> LifNeuron {
    LifNeuron::new(v_th.to_bits(), v_rest.to_bits(), v_reset.to_bits(), tau.to_bits(), dt.to_bits())
}

#[test]
fn verify_init() {
    let rest = 0.2;
    let mut n = lif(0.1, rest, 0.3, 0.4, 0.05);

    n.init();

    assert_eq!(f64::from_bits(n.get_v_mem()), rest);
    assert_eq!(n.get_ts(), 0u64);
}

#[test]
fn verify_value_neuron() {
    let v_reset = 0.3;
    let mut n = lif(20.2, 0.2, v_reset, 0.4, 0.05);
    let campo = n.get_v_th();
    n.set_v_th(campo);
    assert_eq!(n.get_v_th(), campo);
}

#[test]
fn init_after_updates_restores_rest() {
    let mut n = lif(0.1, 0.2, 0.3, 0.4, 0.05);
    n.set_v_mem(7.5f64.to_bits());
    n.set_ts(42);
    n.set_v_th(1.0f64.to_bits());
    n.init();
    assert_eq!(f64::from_bits(n.get_v_mem()), 0.2);
    assert_eq!(n.get_ts(), 0);
    assert_eq!(f64::from_bits(n.get_v_th()), 1.0);
    n.init();
    assert_eq!(f64::from_bits(n.get_v_mem()), 0.2);
    assert_eq!(n.get_ts(), 0);
}

#[test]
fn new_neuron_starts_at_rest() {
    let n = lif(0.76, 0.33, 0.14, 0.4, 0.05);
    assert_eq!(f64::from_bits(n.get_v_mem()), 0.33);
    assert_eq!(f64::from_bits(n.get_v_rest()), 0.33);
    assert_eq!(f64::from_bits(n.get_v_reset()), 0.14);
    assert_eq!(f64::from_bits(n.get_tau()), 0.4);
    assert_eq!(f64::from_bits(n.get_dt()), 0.05);
    assert_eq!(n.get_ts(), 0);
}
