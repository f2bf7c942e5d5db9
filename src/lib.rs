pub mod builder;
pub mod configuration;
pub mod failure;
pub mod layer;
pub mod lif_neuron;
pub mod network;
pub mod campaign;
pub mod spike_event;
