use vstd::prelude::*;
use crate::configuration::Configuration;
use crate::layer::{contains_spike, Layer};
use crate::spike_event::SpikeEvent;

verus! {

/// Whether every row of `m` has length `d`.
pub open spec fn rows_have_len(m: Seq<Vec<u8>>, d: nat) -> bool {
    forall|i: int| 0 <= i < m.len() ==> (#[trigger] m[i])@.len() == d
}

/// Whether every entry of every row of `m` is 0 or 1.
pub open spec fn is_binary(m: Seq<Vec<u8>>) -> bool {
    forall|i: int, t: int| 0 <= i < m.len() && 0 <= t < m[i]@.len() ==> #[trigger] m[i]@[t] <= 1
}

/// Column `t` of `m`: entry `t` of each row, in row order.
pub open spec fn column(m: Seq<Vec<u8>>, t: int) -> Seq<u8> {
    Seq::new(m.len(), |i: int| m[i]@[t])
}

/// The instants and spike vectors of a sequence of events.
pub open spec fn events_view(events: Seq<SpikeEvent>) -> Seq<(u64, Seq<u8>)> {
    events.map_values(|e: SpikeEvent| e@)
}

/// What decoding writes at row `r`, column `c`: the entry `r` of the last event at
/// instant `c` whose vector has such an entry, or 0 when there is none.
pub open spec fn decoded_cell(events: Seq<(u64, Seq<u8>)>, r: int, c: int) -> u8
    decreases events.len(),
{
    if events.len() == 0 {
        0
    } else {
        let e = events.last();
        if e.0 == c && r < e.1.len() {
            e.1[r]
        } else {
            decoded_cell(events.drop_last(), r, c)
        }
    }
}

/// Whether every entry of every event's vector is 0 or 1.
pub open spec fn events_binary(events: Seq<(u64, Seq<u8>)>) -> bool {
    forall|k: int, j: int| 0 <= k < events.len() && 0 <= j < events[k].1.len() ==> #[trigger] events[k].1[j] <= 1
}

proof fn lemma_decoded_cell_binary(events: Seq<(u64, Seq<u8>)>, r: int, c: int)
    requires
        events_binary(events),
        0 <= r,
    ensures
        decoded_cell(events, r, c) <= 1,
    decreases events.len(),
{
    if events.len() > 0 {
        let e = events.last();
        if e.0 == c && r < e.1.len() {
            assert(events[events.len() - 1].1[r] <= 1);
        } else {
            assert forall|k: int, j: int| 0 <= k < events.drop_last().len() && 0 <= j < events.drop_last()[k].1.len()
                implies #[trigger] events.drop_last()[k].1[j] <= 1 by {
                assert(events.drop_last()[k] == events[k]);
            }
            lemma_decoded_cell_binary(events.drop_last(), r, c);
        }
    }
}

/// The events in which at least one neuron fired, in their order.
pub open spec fn sparse(events: Seq<(u64, Seq<u8>)>) -> Seq<(u64, Seq<u8>)>
    decreases events.len(),
{
    if events.len() == 0 {
        Seq::empty()
    } else {
        let rest = sparse(events.drop_last());
        if events.last().1.contains(1u8) {
            rest.push(events.last())
        } else {
            rest
        }
    }
}

/// Whether `events` is the encoding of `m` over `d` instants: one event per instant, in
/// order, carrying the matrix column of that instant.
pub open spec fn encodes(events: Seq<(u64, Seq<u8>)>, m: Seq<Vec<u8>>, d: nat) -> bool {
    &&& events.len() == d
    &&& forall|t: int| 0 <= t < d ==> (#[trigger] events[t]).0 == t && events[t].1 == column(m, t)
}

/// Leaving out the instants at which nothing fired loses nothing: decoding the
/// remaining events of an encoded binary matrix gives the matrix back.
pub proof fn lemma_sparse_decode_round_trip(events: Seq<(u64, Seq<u8>)>, m: Seq<Vec<u8>>, d: nat)
    requires
        rows_have_len(m, d),
        is_binary(m),
        encodes(events, m, d),
    ensures
        forall|i: int, t: int| 0 <= i < m.len() && 0 <= t < d ==> #[trigger] decoded_cell(sparse(events), i, t)
            == m[i]@[t],
{
    assert forall|i: int, t: int| 0 <= i < m.len() && 0 <= t < d implies #[trigger] decoded_cell(
        sparse(events),
        i,
        t,
    ) == m[i]@[t] by {
        lemma_sparse_prefix(events, m, d, d, i, t);
        assert(events.take(d as int) =~= events);
    }
}

proof fn lemma_sparse_prefix(events: Seq<(u64, Seq<u8>)>, m: Seq<Vec<u8>>, d: nat, k: nat, i: int, t: int)
    requires
        rows_have_len(m, d),
        is_binary(m),
        encodes(events, m, d),
        k <= d,
        0 <= i < m.len(),
        0 <= t,
    ensures
        decoded_cell(sparse(events.take(k as int)), i, t) == if t < k { m[i]@[t] } else { 0 },
    decreases k,
{
    if k > 0 {
        let pre = events.take(k as int);
        assert(pre.drop_last() =~= events.take(k - 1));
        lemma_sparse_prefix(events, m, d, (k - 1) as nat, i, t);
        let e = pre.last();
        assert(e == events[k - 1]);
        if e.1.contains(1u8) {
            assert(sparse(pre) == sparse(events.take(k - 1)).push(e));
            assert(sparse(pre).drop_last() =~= sparse(events.take(k - 1)));
            assert(e.1.len() == m.len());
        } else if t == k - 1 {
            assert(e.1[i] == m[i]@[t]);
            assert(m[i]@[t] <= 1);
            assert(m[i]@[t] != 1u8);
        }
    }
}

/// A spiking neural network: its layers in order, from the input to the output.
pub struct SNN {
    layers: Vec<Layer>,
}

impl SNN {
    pub closed spec fn spec_layers(&self) -> Seq<Layer> {
        self.layers@
    }

    pub open spec fn wf(&self) -> bool {
        forall|i: int| 0 <= i < self.spec_layers().len() ==> (#[trigger] self.spec_layers()[i]).wf()
    }

    pub fn new(layers: Vec<Layer>) -> (r: Self)
        requires
            forall|i: int| 0 <= i < layers@.len() ==> (#[trigger] layers@[i]).wf(),
        ensures
            r.wf(),
            r.spec_layers() == layers@,
    {
        Self { layers }
    }

    pub fn get_number_layers(&self) -> (r: usize)
        ensures
            r == self.spec_layers().len(),
    {
        self.layers.len()
    }

    /// The width of the network's input: the column count of the first layer's
    /// excitatory weights.
    pub fn get_input_layer_one_dim(&self) -> (r: usize)
        requires
            self.wf(),
            self.spec_layers().len() > 0,
            self.spec_layers()[0].state().weights.len() > 0,
        ensures
            r == self.spec_layers()[0].state().weights[0].len(),
    {
        let first = &self.layers[0];
        first.first_row_len()
    }

    /// The width of the network's output: the neuron count of the last layer.
    pub fn get_output_last_layer_dim(&self) -> (r: usize)
        requires
            self.spec_layers().len() > 0,
        ensures
            r == self.spec_layers().last().state().neurons.len(),
    {
        self.layers[self.layers.len() - 1].get_number_neurons()
    }

    /// Copies of the layers, in order.
    pub fn get_layers(&self) -> (r: Vec<Layer>)
        requires
            self.wf(),
        ensures
            r@.len() == self.spec_layers().len(),
            forall|i: int| 0 <= i < r@.len() ==> {
                &&& (#[trigger] r@[i]).wf()
                &&& r@[i].state() == self.spec_layers()[i].state()
                &&& r@[i].conf().spec_components() == self.spec_layers()[i].conf().spec_components()
                &&& r@[i].conf().spec_failure() == self.spec_layers()[i].conf().spec_failure()
                &&& r@[i].conf().spec_index_neuron() == self.spec_layers()[i].conf().spec_index_neuron()
                &&& r@[i].conf().spec_transient_mode() == self.spec_layers()[i].conf().spec_transient_mode()
            },
    {
        let mut r: Vec<Layer> = Vec::new();
        let mut k: usize = 0;
        while k < self.layers.len()
            invariant
                self.wf(),
                0 <= k <= self.layers@.len(),
                r@.len() == k,
                forall|i: int| 0 <= i < k ==> {
                    &&& (#[trigger] r@[i]).wf()
                    &&& r@[i].state() == self.spec_layers()[i].state()
                    &&& r@[i].conf().spec_components() == self.spec_layers()[i].conf().spec_components()
                    &&& r@[i].conf().spec_failure() == self.spec_layers()[i].conf().spec_failure()
                    &&& r@[i].conf().spec_index_neuron() == self.spec_layers()[i].conf().spec_index_neuron()
                    &&& r@[i].conf().spec_transient_mode() == self.spec_layers()[i].conf().spec_transient_mode()
                },
            decreases self.layers@.len() - k,
        {
            assert(self.spec_layers()[k as int].wf());
            let layer = self.layers[k].copy();
            r.push(layer);
            k = k + 1;
        }
        r
    }

    /// The duration of an input spike matrix: the common length of its rows (0 when it
    /// has no rows), or `None` when two rows differ in length.
    pub fn spikes_duration(spikes: &Vec<Vec<u8>>) -> (r: Option<usize>)
        ensures
            spikes@.len() == 0 ==> r == Some(0usize),
            spikes@.len() > 0 ==> (r is Some <==> rows_have_len(spikes@, spikes@[0]@.len())),
            r matches Some(d) ==> rows_have_len(spikes@, d as nat),
    {
        if spikes.len() == 0 {
            return Some(0);
        }
        let d = spikes[0].len();
        let mut k: usize = 0;
        while k < spikes.len()
            invariant
                0 <= k <= spikes@.len(),
                d == spikes@[0]@.len(),
                forall|i: int| 0 <= i < k ==> (#[trigger] spikes@[i])@.len() == d,
            decreases spikes@.len() - k,
        {
            if spikes[k].len() != d {
                return None;
            }
            k = k + 1;
        }
        Some(d)
    }

    /// Encodes an input spike matrix (one row per input line, one column per instant) as
    /// one event per instant `t < duration`, carrying column `t`. Returns `None` when the
    /// matrix does not have one row per input line or holds an entry other than 0 or 1.
    pub fn encode_spikes(input_layer_dimension: usize, spikes: &Vec<Vec<u8>>, spikes_duration: usize) -> (r: Option<Vec<SpikeEvent>>)
        requires
            rows_have_len(spikes@, spikes_duration as nat),
        ensures
            r is Some <==> (spikes@.len() == input_layer_dimension && is_binary(spikes@)),
            r matches Some(events) ==> {
                &&& events@.len() == spikes_duration
                &&& forall|t: int| 0 <= t < spikes_duration ==> {
                    &&& (#[trigger] events@[t]).spec_ts() == t
                    &&& events@[t].spec_spikes() == column(spikes@, t)
                }
            },
    {
        if spikes.len() != input_layer_dimension {
            return None;
        }
        let mut events: Vec<SpikeEvent> = Vec::new();
        let mut t: usize = 0;
        while t < spikes_duration
            invariant
                0 <= t <= spikes_duration,
                rows_have_len(spikes@, spikes_duration as nat),
                spikes@.len() == input_layer_dimension,
                events@.len() == t,
                forall|i: int, u: int| 0 <= i < spikes@.len() && 0 <= u < t ==> #[trigger] spikes@[i]@[u] <= 1,
                forall|u: int| 0 <= u < t ==> {
                    &&& (#[trigger] events@[u]).spec_ts() == u
                    &&& events@[u].spec_spikes() == column(spikes@, u)
                },
            decreases spikes_duration - t,
        {
            let mut t_spikes: Vec<u8> = Vec::new();
            let mut i: usize = 0;
            while i < spikes.len()
                invariant
                    0 <= i <= spikes@.len(),
                    t < spikes_duration,
                    rows_have_len(spikes@, spikes_duration as nat),
                    t_spikes@ == column(spikes@, t as int).take(i as int),
                    forall|j: int, u: int| 0 <= j < spikes@.len() && 0 <= u < t ==> #[trigger] spikes@[j]@[u] <= 1,
                    forall|j: int| 0 <= j < i ==> #[trigger] spikes@[j]@[t as int] <= 1,
                decreases spikes@.len() - i,
            {
                let spike = spikes[i][t];
                if spike != 0 && spike != 1 {
                    proof {
                        assert(!is_binary(spikes@)) by {
                            assert(spikes@[i as int]@[t as int] > 1);
                        }
                    }
                    return None;
                }
                t_spikes.push(spike);
                assert(t_spikes@ =~= column(spikes@, t as int).take(i + 1));
                i = i + 1;
            }
            assert(t_spikes@ =~= column(spikes@, t as int));
            events.push(SpikeEvent::new(t as u64, t_spikes));
            t = t + 1;
        }
        proof {
            assert forall|i: int, u: int| 0 <= i < spikes@.len() && 0 <= u < spikes@[i]@.len() implies
                #[trigger] spikes@[i]@[u] <= 1 by {
                assert(spikes@[i]@.len() == spikes_duration);
            }
        }
        Some(events)
    }

    /// Decodes output events into a matrix of `output_layer_dimension` rows and
    /// `spikes_duration` columns: each event's vector is written into the column of its
    /// instant, later events over earlier ones, and every other cell is 0.
    pub fn decode_spikes(output_layer_dimension: usize, spikes: Vec<SpikeEvent>, spikes_duration: usize) -> (r: Vec<Vec<u8>>)
        requires
            forall|k: int| 0 <= k < spikes@.len() ==> {
                &&& (#[trigger] spikes@[k]).spec_ts() < spikes_duration
                &&& spikes@[k].spec_spikes().len() <= output_layer_dimension
            },
        ensures
            r@.len() == output_layer_dimension,
            rows_have_len(r@, spikes_duration as nat),
            forall|i: int, t: int| 0 <= i < output_layer_dimension && 0 <= t < spikes_duration ==>
                #[trigger] r@[i]@[t] == decoded_cell(events_view(spikes@), i, t),
            events_binary(events_view(spikes@)) ==> is_binary(r@),
    {
        let mut raw: Vec<Vec<u8>> = Vec::new();
        let mut i: usize = 0;
        while i < output_layer_dimension
            invariant
                0 <= i <= output_layer_dimension,
                raw@.len() == i,
                forall|j: int| 0 <= j < i ==> (#[trigger] raw@[j])@ == Seq::new(spikes_duration as nat, |t: int| 0u8),
            decreases output_layer_dimension - i,
        {
            let mut row: Vec<u8> = Vec::new();
            let mut t: usize = 0;
            while t < spikes_duration
                invariant
                    0 <= t <= spikes_duration,
                    row@ == Seq::new(t as nat, |u: int| 0u8),
                decreases spikes_duration - t,
            {
                row.push(0);
                assert(row@ =~= Seq::new((t + 1) as nat, |u: int| 0u8));
                t = t + 1;
            }
            raw.push(row);
            i = i + 1;
        }
        let mut k: usize = 0;
        while k < spikes.len()
            invariant
                0 <= k <= spikes@.len(),
                forall|e: int| 0 <= e < spikes@.len() ==> {
                    &&& (#[trigger] spikes@[e]).spec_ts() < spikes_duration
                    &&& spikes@[e].spec_spikes().len() <= output_layer_dimension
                },
                raw@.len() == output_layer_dimension,
                rows_have_len(raw@, spikes_duration as nat),
                forall|a: int, b: int| 0 <= a < output_layer_dimension && 0 <= b < spikes_duration ==>
                    #[trigger] raw@[a]@[b] == decoded_cell(events_view(spikes@.take(k as int)), a, b),
            decreases spikes@.len() - k,
        {
            let ts = spikes[k].get_ts() as usize;
            let values = spikes[k].get_spikes();
            let ghost before = raw@;
            let mut j: usize = 0;
            while j < values.len()
                invariant
                    0 <= j <= values@.len(),
                    values@ == spikes@[k as int].spec_spikes(),
                    values@.len() <= output_layer_dimension,
                    ts < spikes_duration,
                    raw@.len() == output_layer_dimension,
                    rows_have_len(raw@, spikes_duration as nat),
                    before.len() == output_layer_dimension,
                    rows_have_len(before, spikes_duration as nat),
                    forall|a: int, b: int| 0 <= a < output_layer_dimension && 0 <= b < spikes_duration ==>
                        #[trigger] raw@[a]@[b] == if b == ts && a < j { values@[a] } else { before[a]@[b] },
                decreases values@.len() - j,
            {
                let mut row = raw[j].clone();
                assert(row@ =~= raw@[j as int]@);
                row.set(ts, values[j]);
                raw.set(j, row);
                j = j + 1;
            }
            proof {
                let taken = spikes@.take(k + 1);
                assert(taken.drop_last() =~= spikes@.take(k as int));
                assert(taken.last() == spikes@[k as int]);
                assert(events_view(taken).drop_last() =~= events_view(spikes@.take(k as int)));
            }
            k = k + 1;
        }
        assert(spikes@.take(k as int) =~= spikes@);
        proof {
            if events_binary(events_view(spikes@)) {
                assert forall|i: int, t: int| 0 <= i < raw@.len() && 0 <= t < raw@[i]@.len() implies
                    #[trigger] raw@[i]@[t] <= 1 by {
                    lemma_decoded_cell_binary(events_view(spikes@), i, t);
                }
            }
        }
        raw
    }

    /// The events in which at least one neuron fired, in their order: the only ones a
    /// stage forwards.
    pub fn effective_events(events: &Vec<SpikeEvent>) -> (r: Vec<SpikeEvent>)
        ensures
            events_view(r@) == sparse(events_view(events@)),
    {
        let mut r: Vec<SpikeEvent> = Vec::new();
        let mut k: usize = 0;
        while k < events.len()
            invariant
                0 <= k <= events@.len(),
                events_view(r@) == sparse(events_view(events@.take(k as int))),
            decreases events@.len() - k,
        {
            let e = &events[k];
            let spikes = e.get_spikes();
            proof {
                let pre = events_view(events@.take(k + 1));
                assert(pre.drop_last() =~= events_view(events@.take(k as int)));
                assert(pre.last() == events@[k as int]@);
            }
            if contains_spike(&spikes) {
                let ghost r0 = r@;
                r.push(SpikeEvent::new(e.get_ts(), spikes));
                assert(events_view(r@) =~= events_view(r0).push(events@[k as int]@));
            }
            k = k + 1;
        }
        assert(events@.take(k as int) =~= events@);
        r
    }
}

} // verus!
