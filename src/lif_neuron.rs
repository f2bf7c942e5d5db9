use vstd::prelude::*;

verus! {

/// The state of a leaky integrate-and-fire neuron as seen by the fault engine: every
/// potential and constant is the IEEE-754 bit pattern of its value, and `ts` is the
/// last instant at which the neuron was updated.
pub struct LifState {
    pub v_th: u64,
    pub v_rest: u64,
    pub v_reset: u64,
    pub tau: u64,
    pub v_mem: u64,
    pub ts: u64,
    pub dt: u64,
}

/// A leaky integrate-and-fire neuron: threshold, resting and reset potentials, decay
/// constant and timestep, membrane potential and time of the last update. Real-valued
/// attributes are stored as their IEEE-754 bit patterns.
#[derive(Debug, Clone, Copy, PartialEq, Eq, Structural)]
pub struct LifNeuron {
    v_th: u64,
    v_rest: u64,
    v_reset: u64,
    tau: u64,
    v_mem: u64,
    ts: u64,
    dt: u64,
}

impl View for LifNeuron {
    type V = LifState;

    closed spec fn view(&self) -> LifState {
        LifState {
            v_th: self.v_th,
            v_rest: self.v_rest,
            v_reset: self.v_reset,
            tau: self.tau,
            v_mem: self.v_mem,
            ts: self.ts,
            dt: self.dt,
        }
    }
}

impl LifNeuron {
    /// A neuron at rest: its membrane potential is the resting potential and its clock is 0.
    pub fn new(v_th: u64, v_rest: u64, v_reset: u64, tau: u64, dt: u64) -> (r: Self)
        ensures
            r@ == (LifState { v_th, v_rest, v_reset, tau, v_mem: v_rest, ts: 0, dt }),
    {
        Self { v_th, v_rest, v_reset, tau, v_mem: v_rest, ts: 0, dt }
    }

    /// Brings the neuron back to rest: the membrane potential becomes the resting
    /// potential and the clock returns to 0; every other attribute is kept.
    pub fn init(&mut self)
        ensures
            final(self)@ == (LifState { v_mem: old(self)@.v_rest, ts: 0, ..old(self)@ }),
    {
        self.v_mem = self.v_rest;
        self.ts = 0;
    }

    pub fn get_v_mem(&self) -> (r: u64)
        ensures
            r == self@.v_mem,
    {
        self.v_mem
    }

    pub fn get_ts(&self) -> (r: u64)
        ensures
            r == self@.ts,
    {
        self.ts
    }

    pub fn get_v_th(&self) -> (r: u64)
        ensures
            r == self@.v_th,
    {
        self.v_th
    }

    pub fn get_v_rest(&self) -> (r: u64)
        ensures
            r == self@.v_rest,
    {
        self.v_rest
    }

    pub fn get_v_reset(&self) -> (r: u64)
        ensures
            r == self@.v_reset,
    {
        self.v_reset
    }

    pub fn get_tau(&self) -> (r: u64)
        ensures
            r == self@.tau,
    {
        self.tau
    }

    pub fn get_dt(&self) -> (r: u64)
        ensures
            r == self@.dt,
    {
        self.dt
    }

    pub fn set_v_th(&mut self, val: u64)
        ensures
            final(self)@ == (LifState { v_th: val, ..old(self)@ }),
    {
        self.v_th = val;
    }

    pub fn set_v_rest(&mut self, val: u64)
        ensures
            final(self)@ == (LifState { v_rest: val, ..old(self)@ }),
    {
        self.v_rest = val;
    }

    pub fn set_v_reset(&mut self, val: u64)
        ensures
            final(self)@ == (LifState { v_reset: val, ..old(self)@ }),
    {
        self.v_reset = val;
    }

    pub fn set_tau(&mut self, val: u64)
        ensures
            final(self)@ == (LifState { tau: val, ..old(self)@ }),
    {
        self.tau = val;
    }

    pub fn set_v_mem(&mut self, val: u64)
        ensures
            final(self)@ == (LifState { v_mem: val, ..old(self)@ }),
    {
        self.v_mem = val;
    }

    pub fn set_ts(&mut self, val: u64)
        ensures
            final(self)@ == (LifState { ts: val, ..old(self)@ }),
    {
        self.ts = val;
    }

    pub fn set_dt(&mut self, val: u64)
        ensures
            final(self)@ == (LifState { dt: val, ..old(self)@ }),
    {
        self.dt = val;
    }
}

} // verus!
