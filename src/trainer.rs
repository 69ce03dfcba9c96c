use vstd::prelude::*;

use crate::matrix::Matrix;
use crate::sample::{
    lays_out, prepare_dataset, reported_error, valid_dataset, DatasetError, Sample,
};

verus! {

/// When a training run stops.
#[derive(Clone, Copy, Debug, PartialEq, Eq, Structural)]
pub enum TrainerHaltCondition {
    /// After the given number of epochs.
    Epochs(u32),
}

impl TrainerHaltCondition {
    pub open spec fn spec_reached(self, epochs_done: u32) -> bool {
        match self {
            TrainerHaltCondition::Epochs(n) => epochs_done >= n,
        }
    }

    /// Whether a run that has completed `epochs_done` epochs stops now.
    pub fn reached(&self, epochs_done: u32) -> (r: bool)
        ensures
            r == self.spec_reached(epochs_done),
    {
        match self {
            TrainerHaltCondition::Epochs(n) => epochs_done >= *n,
        }
    }
}

/// A network of type `N` together with the training matrices of its dataset
/// and the condition that ends a run.
pub struct Trainer<T, N> {
    inputs: Matrix<T>,
    outputs: Matrix<T>,
    network: N,
    halt_condition: TrainerHaltCondition,
}

impl<T: Copy, N> Trainer<T, N> {
    pub closed spec fn inputs(self) -> Matrix<T> {
        self.inputs
    }

    pub closed spec fn outputs(self) -> Matrix<T> {
        self.outputs
    }

    pub closed spec fn network(self) -> N {
        self.network
    }

    pub closed spec fn halt(self) -> TrainerHaltCondition {
        self.halt_condition
    }

    /// A trainer for `network` on `dataset`, laid out by `prepare_dataset`,
    /// that stops after one epoch; fails with the dataset's error.
    pub fn with_dataset(network: N, dataset: &Vec<Sample<T>>) -> (r: Result<Self, DatasetError>)
        ensures
            r is Ok <==> valid_dataset(dataset@),
            r matches Err(e) ==> reported_error(dataset@, e),
            r matches Ok(t) ==> {
                &&& lays_out(dataset@, t.inputs(), t.outputs())
                &&& t.network() == network
                &&& t.halt() == TrainerHaltCondition::Epochs(1)
            },
    {
        match prepare_dataset(dataset) {
            Ok((inputs, outputs)) => Ok(
                Trainer {
                    inputs,
                    outputs,
                    network,
                    halt_condition: TrainerHaltCondition::Epochs(1),
                },
            ),
            Err(why) => Err(why),
        }
    }

    /// The trainer with its halt condition replaced, or `None` for a
    /// condition that would stop before the first epoch.
    pub fn halt_condition(self, halt_condition: TrainerHaltCondition) -> (r: Option<Self>)
        ensures
            halt_condition == TrainerHaltCondition::Epochs(0) ==> r is None,
            halt_condition != TrainerHaltCondition::Epochs(0) ==> r is Some,
            r matches Some(t) ==> {
                &&& t.halt() == halt_condition
                &&& t.inputs() == self.inputs()
                &&& t.outputs() == self.outputs()
                &&& t.network() == self.network()
            },
    {
        match halt_condition {
            TrainerHaltCondition::Epochs(epochs) => if epochs == 0 {
                None
            } else {
                Some(Trainer { halt_condition, ..self })
            },
        }
    }

    /// Whether a run that has completed `epochs_done` epochs stops now.
    pub fn should_halt(&self, epochs_done: u32) -> (r: bool)
        ensures
            r == self.halt().spec_reached(epochs_done),
    {
        self.halt_condition.reached(epochs_done)
    }

    /// The input matrix, the expected output matrix, the network and the
    /// halt condition.
    pub fn into_parts(self) -> (r: (Matrix<T>, Matrix<T>, N, TrainerHaltCondition))
        ensures
            r.0 == self.inputs(),
            r.1 == self.outputs(),
            r.2 == self.network(),
            r.3 == self.halt(),
    {
        (self.inputs, self.outputs, self.network, self.halt_condition)
    }
}

} // verus!
