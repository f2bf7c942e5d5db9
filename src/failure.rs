use vstd::prelude::*;
use crate::configuration::Configuration;

verus! {

/// A state variable of a neuron, or a piece of layer state, that a fault can target.
#[derive(Debug, Clone, Copy, PartialEq, Eq, Structural)]
pub enum Components {
    VTh,
    VRest,
    VReset,
    Tau,
    VMem,
    Ts,
    Dt,
    Weights,
    IntraWeights,
    PrevSpikes,
    NoTarget,
}

/// A permanent fault that pins one bit to 0.
#[derive(Debug, Clone, Copy, PartialEq, Eq, Structural)]
pub struct StuckAt0 {
    position: usize,
}

/// A permanent fault that pins one bit to 1.
#[derive(Debug, Clone, Copy, PartialEq, Eq, Structural)]
pub struct StuckAt1 {
    position: usize,
}

/// A one-time inversion of one bit; `bit_changed` records that it already happened.
#[derive(Debug, Clone, Copy, PartialEq, Eq, Structural)]
pub struct TransientBitFlip {
    position: usize,
    bit_changed: bool,
}

#[derive(Debug, Clone, Copy, PartialEq, Eq, Structural)]
pub enum Failure {
    StuckAt0(StuckAt0),
    StuckAt1(StuckAt1),
    TransientBitFlip(TransientBitFlip),
    NoFault,
}

impl StuckAt0 {
    pub closed spec fn spec_position(&self) -> usize {
        self.position
    }

    pub fn new(position: usize) -> (r: Self)
        ensures
            r.spec_position() == position,
    {
        Self { position }
    }

    pub fn get_position(&self) -> (r: usize)
        ensures
            r == self.spec_position(),
    {
        self.position
    }

    /// The value the fault pins its bit to.
    pub fn get_value(&self) -> (r: u8)
        ensures
            r == 0,
    {
        0
    }
}

impl StuckAt1 {
    pub closed spec fn spec_position(&self) -> usize {
        self.position
    }

    pub fn new(position: usize) -> (r: Self)
        ensures
            r.spec_position() == position,
    {
        Self { position }
    }

    pub fn get_position(&self) -> (r: usize)
        ensures
            r == self.spec_position(),
    {
        self.position
    }

    /// The value the fault pins its bit to.
    pub fn get_value(&self) -> (r: u8)
        ensures
            r == 1,
    {
        1
    }
}

impl TransientBitFlip {
    pub closed spec fn spec_position(&self) -> usize {
        self.position
    }

    pub closed spec fn spec_bit_changed(&self) -> bool {
        self.bit_changed
    }

    pub fn new(position: usize) -> (r: Self)
        ensures
            r.spec_position() == position,
            !r.spec_bit_changed(),
    {
        Self { position, bit_changed: false }
    }

    pub fn get_position(&self) -> (r: usize)
        ensures
            r == self.spec_position(),
    {
        self.position
    }

    pub fn get_bit_changed(&self) -> (r: bool)
        ensures
            r == self.spec_bit_changed(),
    {
        self.bit_changed
    }

    pub fn set_bit_changed(&mut self, val: bool)
        ensures
            final(self).spec_position() == old(self).spec_position(),
            final(self).spec_bit_changed() == val,
    {
        self.bit_changed = val;
    }
}

/// The single-bit mask addressed by a fault position: positions count from the most
/// significant bit (position 0) and wrap around every 64 positions.
pub open spec fn fault_mask(position: usize) -> u64 {
    1u64 << ((63 - position % 64) as u64)
}

impl Failure {
    pub open spec fn spec_position(&self) -> Option<usize> {
        match self {
            Failure::StuckAt0(s) => Some(s.spec_position()),
            Failure::StuckAt1(s) => Some(s.spec_position()),
            Failure::TransientBitFlip(t) => Some(t.spec_position()),
            Failure::NoFault => None,
        }
    }

    /// What the fault does to a 64-bit pattern.
    pub open spec fn faulted_bits(&self, bits: u64) -> u64 {
        match self {
            Failure::StuckAt0(s) => bits & !fault_mask(s.spec_position()),
            Failure::StuckAt1(s) => bits | fault_mask(s.spec_position()),
            Failure::TransientBitFlip(t) => if t.spec_bit_changed() {
                bits
            } else {
                bits ^ fault_mask(t.spec_position())
            },
            Failure::NoFault => bits,
        }
    }

    /// The fault once it has acted: a transient flip is marked as done, others stay as they are.
    pub closed spec fn after_firing(&self) -> Failure {
        match self {
            Failure::TransientBitFlip(t) => Failure::TransientBitFlip(
                TransientBitFlip { position: t.position, bit_changed: true },
            ),
            _ => *self,
        }
    }

    /// The fault armed again: a transient flip is marked as not yet fired.
    pub closed spec fn rearmed(&self) -> Failure {
        match self {
            Failure::TransientBitFlip(t) => Failure::TransientBitFlip(
                TransientBitFlip { position: t.position, bit_changed: false },
            ),
            _ => *self,
        }
    }

    pub fn get_position(&self) -> (r: Option<usize>)
        ensures
            r == self.spec_position(),
    {
        match self {
            Failure::StuckAt0(s) => Some(s.get_position()),
            Failure::StuckAt1(s) => Some(s.get_position()),
            Failure::TransientBitFlip(t) => Some(t.get_position()),
            Failure::NoFault => None,
        }
    }

    /// Applies the fault to `bits` and records that it fired, so that a transient flip
    /// acts at most once over the lifetime of this value.
    pub fn apply_bit_fault(&mut self, bits: u64) -> (r: u64)
        ensures
            r == old(self).faulted_bits(bits),
            *final(self) == old(self).after_firing(),
    {
        modify_bits(self, bits)
    }
}

/// Whether running a stuck-at fault on `val` would be pointless: the bit it addresses
/// already holds the stuck value, so the fault leaves `val` unchanged. Other failures
/// are never redundant.
pub fn is_redundant_fault(failure: &Failure, val: u64) -> (r: bool)
    ensures
        r == ((failure is StuckAt0 || failure is StuckAt1) && failure.faulted_bits(val) == val),
{
    match failure {
        Failure::StuckAt0(s) => {
            let pos = 63 - s.get_position() % 64;
            let bit = read_bit(val, pos);
            proof {
                lemma_mask_at(s.spec_position(), pos);
                let m = 1u64 << (pos as u64);
                assert((val & !m == val) == (val & m == 0)) by (bit_vector)
                    requires m == 1u64 << (pos as u64), pos < 64;
            }
            !bit
        },
        Failure::StuckAt1(s) => {
            let pos = 63 - s.get_position() % 64;
            let bit = read_bit(val, pos);
            proof {
                lemma_mask_at(s.spec_position(), pos);
                let m = 1u64 << (pos as u64);
                assert((val | m == val) == (val & m != 0)) by (bit_vector)
                    requires m == 1u64 << (pos as u64), pos < 64;
            }
            bit
        },
        _ => false,
    }
}

/// Relies on bit::BitIndex::bit for u64: whether bit `pos` (0 = least significant) is set.
#[verifier::external_body]
fn read_bit(v: u64, pos: usize) -> (r: bool)
    requires
        pos < 64,
    ensures
        r == (v & (1u64 << (pos as u64)) != 0),
{
    bit::BitIndex::bit(&v, pos)
}

/// Relies on bit::BitIndex::set_bit for u64: bit `pos` (0 = least significant) takes
/// the value `val` and every other bit is kept.
#[verifier::external_body]
fn write_bit(v: &mut u64, pos: usize, val: bool)
    requires
        pos < 64,
    ensures
        *final(v) == (if val {
            *old(v) | (1u64 << (pos as u64))
        } else {
            *old(v) & !(1u64 << (pos as u64))
        }),
{
    bit::BitIndex::set_bit(v, pos, val);
}

/// Applies `failure` to the 64-bit pattern `val` and records that it fired: a transient
/// flip that has not fired yet inverts its bit and is marked as fired, so that applying
/// the same fault again leaves patterns unchanged.
pub fn modify_bits(failure: &mut Failure, val: u64) -> (r: u64)
    ensures
        r == old(failure).faulted_bits(val),
        *final(failure) == old(failure).after_firing(),
{
    let r = faulted_value(*failure, val);
    if let Failure::TransientBitFlip(t) = failure {
        t.set_bit_changed(true);
    }
    r
}

/// What `failure`, as it stands, does to the 64-bit pattern `val`; the failure itself
/// is not changed.
pub(crate) fn faulted_value(failure: Failure, val: u64) -> (r: u64)
    ensures
        r == failure.faulted_bits(val),
{
    let mut val = val;
    match failure {
        Failure::StuckAt0(s) => {
            let pos = 63 - s.get_position() % 64;
            write_bit(&mut val, pos, false);
            proof { lemma_mask_at(s.spec_position(), pos); }
            val
        },
        Failure::StuckAt1(s) => {
            let pos = 63 - s.get_position() % 64;
            write_bit(&mut val, pos, true);
            proof { lemma_mask_at(s.spec_position(), pos); }
            val
        },
        Failure::TransientBitFlip(t) => {
            if !t.get_bit_changed() {
                let pos = 63 - t.get_position() % 64;
                let old_bit = read_bit(val, pos);
                let ghost v0 = val;
                write_bit(&mut val, pos, !old_bit);
                proof {
                    lemma_mask_at(t.spec_position(), pos);
                    lemma_flip_by_write(v0, pos as u64, old_bit);
                }
            }
            val
        },
        Failure::NoFault => val,
    }
}

/// A transient flip that has not fired inverts exactly the addressed bit; once it has
/// fired, every later application leaves the pattern unchanged and the fault stays fired.
pub proof fn lemma_transient_fires_once(t: TransientBitFlip, first: u64, second: u64)
    requires
        !t.spec_bit_changed(),
    ensures
        Failure::TransientBitFlip(t).faulted_bits(first) == first ^ fault_mask(t.spec_position()),
        Failure::TransientBitFlip(t).after_firing().faulted_bits(second) == second,
        Failure::TransientBitFlip(t).after_firing().after_firing()
            == Failure::TransientBitFlip(t).after_firing(),
{
}

/// A stuck-at fault is permanent and idempotent: applying it again to its own result
/// changes nothing, and applying it never changes the fault itself.
pub proof fn lemma_stuck_at_idempotent(f: Failure, bits: u64)
    requires
        f is StuckAt0 || f is StuckAt1,
    ensures
        f.faulted_bits(f.faulted_bits(bits)) == f.faulted_bits(bits),
        f.after_firing() == f,
{
    let m = match f {
        Failure::StuckAt0(s) => fault_mask(s.spec_position()),
        Failure::StuckAt1(s) => fault_mask(s.spec_position()),
        _ => 0,
    };
    assert((bits & !m) & !m == bits & !m) by (bit_vector);
    assert((bits | m) | m == bits | m) by (bit_vector);
}

/// Firing marks a transient flip as fired and re-arming marks it as not fired, both
/// keeping its position; every other failure is left as it is by both.
pub proof fn lemma_firing_and_rearming(f: Failure)
    ensures
        f matches Failure::TransientBitFlip(t) ==> {
            &&& f.after_firing() is TransientBitFlip
            &&& f.after_firing()->TransientBitFlip_0.spec_position() == t.spec_position()
            &&& f.after_firing()->TransientBitFlip_0.spec_bit_changed()
            &&& f.rearmed() is TransientBitFlip
            &&& f.rearmed()->TransientBitFlip_0.spec_position() == t.spec_position()
            &&& !f.rearmed()->TransientBitFlip_0.spec_bit_changed()
        },
        !(f is TransientBitFlip) ==> f.after_firing() == f && f.rearmed() == f,
{
}

/// Firing and re-arming change neither whether there is a fault nor the position it
/// addresses.
pub proof fn lemma_after_firing_keeps_target(f: Failure)
    ensures
        f.after_firing().spec_position() == f.spec_position(),
        (f.after_firing() is NoFault) == (f is NoFault),
        f.rearmed().spec_position() == f.spec_position(),
        (f.rearmed() is NoFault) == (f is NoFault),
{
}

/// A re-armed transient flip acts again: it inverts the addressed bit once more.
pub proof fn lemma_rearmed_transient_fires(t: TransientBitFlip, bits: u64)
    ensures
        Failure::TransientBitFlip(t).after_firing().rearmed().faulted_bits(bits)
            == bits ^ fault_mask(t.spec_position()),
{
}

proof fn lemma_mask_at(position: usize, pos: usize)
    requires
        pos == 63 - position % 64,
    ensures
        fault_mask(position) == 1u64 << (pos as u64),
{
}

proof fn lemma_flip_by_write(v: u64, p: u64, old_bit: bool)
    requires
        p < 64,
        old_bit == (v & (1u64 << p) != 0),
    ensures
        (if !old_bit { v | (1u64 << p) } else { v & !(1u64 << p) }) == v ^ (1u64 << p),
{
    assert((v & (1u64 << p) != 0) ==> v & !(1u64 << p) == v ^ (1u64 << p)) by (bit_vector)
        requires p < 64;
    assert((v & (1u64 << p) == 0) ==> v | (1u64 << p) == v ^ (1u64 << p)) by (bit_vector)
        requires p < 64;
}

} // verus!

verus! {

/// How often a layer's transient flip fires: once over the lifetime of the fault (until
/// it is explicitly re-armed), or again at every instant.
#[derive(Debug, Clone, Copy, PartialEq, Eq, Structural)]
pub enum TransientMode {
    Once,
    EveryInstant,
}

/// A fault configuration: the targeted components, the failure applied to each, the
/// index of the targeted neuron, and how often a transient flip fires.
#[derive(Debug, Clone, PartialEq, Eq)]
pub struct Conf {
    components: Vec<Components>,
    failure: Failure,
    index_neuron: usize,
    transient_mode: TransientMode,
}

impl Conf {
    pub closed spec fn spec_transient_mode(&self) -> TransientMode {
        self.transient_mode
    }

    /// A configuration whose transient flip fires once.
    pub fn new(components: Vec<Components>, failure: Failure, index_neuron: usize) -> (r: Self)
        ensures
            r.spec_components() == components@,
            r.spec_failure() == failure,
            r.spec_index_neuron() == index_neuron,
            r.spec_transient_mode() == TransientMode::Once,
    {
        Self { components, failure, index_neuron, transient_mode: TransientMode::Once }
    }

    pub fn get_transient_mode(&self) -> (r: TransientMode)
        ensures
            r == self.spec_transient_mode(),
    {
        self.transient_mode
    }

    pub fn set_transient_mode(&mut self, mode: TransientMode)
        ensures
            final(self).spec_components() == old(self).spec_components(),
            final(self).spec_failure() == old(self).spec_failure(),
            final(self).spec_index_neuron() == old(self).spec_index_neuron(),
            final(self).spec_transient_mode() == mode,
    {
        self.transient_mode = mode;
    }

    /// A copy of the configuration.
    pub fn copy(&self) -> (r: Self)
        ensures
            r.spec_components() == self.spec_components(),
            r.spec_failure() == self.spec_failure(),
            r.spec_index_neuron() == self.spec_index_neuron(),
            r.spec_transient_mode() == self.spec_transient_mode(),
    {
        let mut r = Conf::new(self.get_vec_components(), self.failure, self.index_neuron);
        r.set_transient_mode(self.transient_mode);
        r
    }

    /// Arms a transient flip again, so that it fires once more.
    pub fn rearm(&mut self)
        ensures
            final(self).spec_components() == old(self).spec_components(),
            final(self).spec_failure() == old(self).spec_failure().rearmed(),
            final(self).spec_index_neuron() == old(self).spec_index_neuron(),
            final(self).spec_transient_mode() == old(self).spec_transient_mode(),
    {
        if let Failure::TransientBitFlip(t) = &mut self.failure {
            t.set_bit_changed(false);
        }
    }

    /// Records that the failure acted during the current instant.
    pub fn mark_fired(&mut self)
        ensures
            final(self).spec_components() == old(self).spec_components(),
            final(self).spec_failure() == old(self).spec_failure().after_firing(),
            final(self).spec_index_neuron() == old(self).spec_index_neuron(),
            final(self).spec_transient_mode() == old(self).spec_transient_mode(),
    {
        if let Failure::TransientBitFlip(t) = &mut self.failure {
            t.set_bit_changed(true);
        }
    }
}

impl Configuration for Conf {
    closed spec fn spec_components(&self) -> Seq<Components> {
        self.components@
    }

    closed spec fn spec_failure(&self) -> Failure {
        self.failure
    }

    closed spec fn spec_index_neuron(&self) -> usize {
        self.index_neuron
    }

    fn init(&mut self) {
        self.components = Vec::new();
        self.failure = Failure::NoFault;
    }

    fn get_vec_components(&self) -> (r: Vec<Components>) {
        let r = self.components.clone();
        assert(r@ =~= self.components@);
        r
    }

    fn get_len_vec_components(&self) -> (r: usize) {
        self.components.len()
    }

    fn get_failure(&self) -> (r: Failure) {
        self.failure
    }

    fn get_index_neuron(&self) -> (r: usize) {
        self.index_neuron
    }
}

} // verus!
