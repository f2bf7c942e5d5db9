use vstd::prelude::*;
use crate::failure::{Components, Failure};

verus! {

/// Access to a layer's fault configuration: which components are targeted, by which
/// failure, at which neuron.
pub trait Configuration: Sized {
    spec fn spec_components(&self) -> Seq<Components>;

    spec fn spec_failure(&self) -> Failure;

    spec fn spec_index_neuron(&self) -> usize;

    /// Removes every target and the failure, leaving the neuron index as it is.
    fn init(&mut self)
        ensures
            final(self).spec_components() == Seq::<Components>::empty(),
            final(self).spec_failure() == Failure::NoFault,
            final(self).spec_index_neuron() == old(self).spec_index_neuron(),
    ;

    fn get_vec_components(&self) -> (r: Vec<Components>)
        ensures
            r@ == self.spec_components(),
    ;

    fn get_len_vec_components(&self) -> (r: usize)
        ensures
            r == self.spec_components().len(),
    ;

    fn get_failure(&self) -> (r: Failure)
        ensures
            r == self.spec_failure(),
    ;

    fn get_index_neuron(&self) -> (r: usize)
        ensures
            r == self.spec_index_neuron(),
    ;
}

} // verus!
