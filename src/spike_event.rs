use vstd::prelude::*;

verus! {

/// The firing vector of one time instant: one entry per neuron of the producing layer
/// (or per input line, for the network's input).
#[derive(Debug)]
pub struct SpikeEvent {
    ts: u64,
    spikes: Vec<u8>,
}

impl View for SpikeEvent {
    type V = (u64, Seq<u8>);

    open spec fn view(&self) -> (u64, Seq<u8>) {
        (self.spec_ts(), self.spec_spikes())
    }
}

impl SpikeEvent {
    pub closed spec fn spec_ts(&self) -> u64 {
        self.ts
    }

    pub closed spec fn spec_spikes(&self) -> Seq<u8> {
        self.spikes@
    }

    pub fn new(ts: u64, spikes: Vec<u8>) -> (r: Self)
        ensures
            r.spec_ts() == ts,
            r.spec_spikes() == spikes@,
    {
        Self { ts, spikes }
    }

    pub fn get_ts(&self) -> (r: u64)
        ensures
            r == self.spec_ts(),
    {
        self.ts
    }

    pub fn get_spikes(&self) -> (r: Vec<u8>)
        ensures
            r@ == self.spec_spikes(),
    {
        let r = self.spikes.clone();
        assert(r@ =~= self.spikes@);
        r
    }
}

} // verus!
