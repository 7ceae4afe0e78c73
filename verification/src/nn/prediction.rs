//! What a network makes of inputs, and how far that is from what was wanted.

use vstd::prelude::*;
use crate::scalar::{
    Scalar, is_count, is_difference, is_product, is_quotient, is_total, total, copy_of,
};
use crate::nn::layer::Layer;
use crate::nn::neuron::paired;
use crate::nn::NeuralNetwork;
use crate::nn::normalization::{is_normalized_row, normalized};

verus! {

/// `outputs` can be what `layers` make of `inputs`, each layer fed the outputs of
/// the one before; `stages` holds the inputs and then the outputs of each layer.
pub open spec fn is_chain_via<T: Scalar>(
    layers: Seq<Layer<T>>,
    inputs: Seq<T>,
    stages: Seq<Seq<T>>,
    outputs: Seq<T>,
) -> bool {
    &&& stages.len() == layers.len() + 1
    &&& stages[0] == inputs
    &&& forall|l: int|
        0 <= l < layers.len() ==> (#[trigger] layers[l]).predicts(stages[l], stages[l + 1])
    &&& stages.last() == outputs
}

/// `outputs` can be what `layers` make of `inputs`.
pub open spec fn is_chain<T: Scalar>(layers: Seq<Layer<T>>, inputs: Seq<T>, outputs: Seq<T>) -> bool {
    exists|stages: Seq<Seq<T>>| #[trigger] is_chain_via(layers, inputs, stages, outputs)
}

/// `square` can be `(wanted - got) * (wanted - got)`.
pub open spec fn is_squared_gap<T: Scalar>(wanted: T, got: T, square: T) -> bool {
    exists|gap: T| #[trigger] is_difference(wanted, got, gap) && is_product(gap, gap, square)
}

/// `error` can be the sum of the squared gaps between each output and what was
/// wanted of it, over the pairs that the two form; `squares` holds the squared gaps.
pub open spec fn is_squared_error_via<T: Scalar>(
    outputs: Seq<T>,
    y_desired: Seq<T>,
    squares: Seq<T>,
    error: T,
) -> bool {
    &&& squares.len() == paired(outputs, y_desired)
    &&& forall|i: int|
        0 <= i < squares.len() ==> is_squared_gap(y_desired[i], outputs[i], #[trigger] squares[i])
    &&& is_total(squares, error)
}

/// `error` can be the sum of the squared gaps between each output and what was
/// wanted of it.
pub open spec fn is_squared_error<T: Scalar>(outputs: Seq<T>, y_desired: Seq<T>, error: T) -> bool {
    exists|squares: Seq<T>| #[trigger] is_squared_error_via(outputs, y_desired, squares, error)
}

/// `error` can be the squared error of `layers` on one example.
pub open spec fn is_row_error<T: Scalar>(
    layers: Seq<Layer<T>>,
    inputs: Seq<T>,
    y_desired: Seq<T>,
    error: T,
) -> bool {
    exists|outputs: Seq<T>| #[trigger]
        is_chain(layers, inputs, outputs) && is_squared_error(outputs, y_desired, error)
}

/// `mean` can be the total of `terms` over their number `n`; `steps` holds the total
/// and the scalar for `n`.
pub open spec fn is_mean_via<T: Scalar>(terms: Seq<T>, n: usize, steps: Seq<T>, mean: T) -> bool {
    &&& steps.len() == 2
    &&& terms.len() == n
    &&& is_total(terms, steps[0])
    &&& is_count(n, steps[1])
    &&& is_quotient(steps[0], steps[1], mean)
}

/// `mean` can be the total of the `n` `terms` over `n`.
pub open spec fn is_mean<T: Scalar>(terms: Seq<T>, n: usize, mean: T) -> bool {
    exists|steps: Seq<T>| #[trigger] is_mean_via(terms, n, steps, mean)
}

/// `mse` can be the mean, over the examples of `data`, of the squared error of
/// `layers` on each; `errors` holds the squared errors.
pub open spec fn is_mean_squared_error_via<T: Scalar>(
    layers: Seq<Layer<T>>,
    data: Seq<(Vec<T>, Vec<T>)>,
    errors: Seq<T>,
    mse: T,
) -> bool {
    &&& errors.len() == data.len()
    &&& data.len() <= usize::MAX
    &&& forall|e: int|
        0 <= e < data.len() ==> is_row_error(layers, data[e].0@, data[e].1@, #[trigger] errors[e])
    &&& is_mean(errors, data.len() as usize, mse)
}

/// `mse` can be the mean squared error of `layers` on `data`.
pub open spec fn is_mean_squared_error<T: Scalar>(
    layers: Seq<Layer<T>>,
    data: Seq<(Vec<T>, Vec<T>)>,
    mse: T,
) -> bool {
    exists|errors: Seq<T>| #[trigger] is_mean_squared_error_via(layers, data, errors, mse)
}

/// The sum of the squared gaps between each output and what was wanted of it.
pub fn squared_error<T: Scalar>(outputs: &Vec<T>, y_desired: &Vec<T>) -> (error: T)
    ensures
        is_squared_error(outputs@, y_desired@, error),
{
    let n = if outputs.len() <= y_desired.len() {
        outputs.len()
    } else {
        y_desired.len()
    };
    let mut squares: Vec<T> = Vec::new();
    let mut i: usize = 0;
    while i < n
        invariant
            i <= n,
            n == paired(outputs@, y_desired@),
            squares.len() == i,
            forall|j: int|
                0 <= j < i ==> is_squared_gap(y_desired@[j], outputs@[j], #[trigger] squares@[j]),
        decreases n - i,
    {
        let gap = y_desired[i].minus(outputs[i]);
        let square = gap.times(gap);
        assert(is_difference(y_desired@[i as int], outputs@[i as int], gap) && is_product(
            gap,
            gap,
            square,
        ));
        squares.push(square);
        i = i + 1;
    }
    let error = total(&squares);
    assert(is_squared_error_via(outputs@, y_desired@, squares@, error));
    error
}

/// The total of `terms` over their number.
pub fn mean<T: Scalar>(terms: &Vec<T>) -> (mean: T)
    ensures
        is_mean(terms@, terms.len(), mean),
{
    let sum = total(terms);
    let n = T::from_count(terms.len());
    let mean = sum.over(n);
    assert(is_mean_via(terms@, terms.len(), seq![sum, n], mean));
    mean
}

impl<T: Scalar> NeuralNetwork<T> {
    /// `outputs` can be what the network makes of `inputs`, which are first brought
    /// into the range of each feature.
    pub open spec fn predicts(self, inputs: Seq<T>, outputs: Seq<T>) -> bool {
        exists|normalized: Seq<T>| #[trigger]
            is_normalized_row(self.normalization_factors@, inputs, normalized) && is_chain(
                self.layers@,
                normalized,
                outputs,
            )
    }

    /// The outputs of the network for `inputs`, which are first brought into the
    /// range of each feature. Nothing in the network changes.
    pub fn predict(&self, inputs: &Vec<T>) -> (outputs: Vec<T>)
        ensures
            self.predicts(inputs@, outputs@),
            self.layers@.len() > 0 ==> outputs@.len() == self.outputs_count(),
    {
        let normalized = self.normalize_input(inputs);
        let outputs = self.predict_normalized(&normalized);
        assert(is_normalized_row(self.normalization_factors@, inputs@, normalized@) && is_chain(
            self.layers@,
            normalized@,
            outputs@,
        ));
        outputs
    }

    /// The outputs of the network for inputs that are in range already: each layer
    /// is fed the outputs of the one before. Nothing in the network changes.
    pub fn predict_normalized(&self, inputs: &Vec<T>) -> (outputs: Vec<T>)
        ensures
            is_chain(self.layers@, inputs@, outputs@),
            self.layers@.len() > 0 ==> outputs@.len() == self.outputs_count(),
    {
        let mut signal = copy_of(inputs);
        let ghost mut stages: Seq<Seq<T>> = seq![signal@];
        let mut l: usize = 0;
        while l < self.layers.len()
            invariant
                l <= self.layers@.len(),
                stages.len() == l + 1,
                stages[0] == inputs@,
                stages.last() == signal@,
                forall|k: int|
                    0 <= k < l ==> (#[trigger] self.layers@[k]).predicts(stages[k], stages[k + 1]),
                l > 0 ==> signal@.len() == self.layers@[l - 1].neurons@.len(),
            decreases self.layers@.len() - l,
        {
            let next = self.layers[l].predict(&signal);
            proof {
                let grown = stages.push(next@);
                assert forall|k: int| 0 <= k < l + 1 implies (#[trigger] self.layers@[k]).predicts(
                    grown[k],
                    grown[k + 1],
                ) by {
                    if k < l {
                        assert(self.layers@[k].predicts(stages[k], stages[k + 1]));
                    }
                }
                let raw = choose|raw: Seq<T>| self.layers@[l as int].predicts_via(signal@, raw, next@);
                assert(self.layers@[l as int].predicts_via(signal@, raw, next@));
                stages = grown;
            }
            signal = next;
            l = l + 1;
        }
        assert(is_chain_via(self.layers@, inputs@, stages, signal@));
        signal
    }

    /// The mean, over the examples of `data`, of the squared error of the network on
    /// each.
    pub fn calculate_mse(&self, data: &Vec<(Vec<T>, Vec<T>)>) -> (mse: T)
        ensures
            is_mean_squared_error(self.layers@, data@, mse),
    {
        let mut row_errors: Vec<T> = Vec::new();
        let mut e: usize = 0;
        while e < data.len()
            invariant
                e <= data.len(),
                row_errors.len() == e,
                forall|j: int|
                    0 <= j < e ==> is_row_error(
                        self.layers@,
                        data@[j].0@,
                        data@[j].1@,
                        #[trigger] row_errors@[j],
                    ),
            decreases data.len() - e,
        {
            row_errors.push(self.calculate_mse_for_one_row(&data[e].0, &data[e].1));
            e = e + 1;
        }
        let mse = mean(&row_errors);
        assert(is_mean_squared_error_via(self.layers@, data@, row_errors@, mse));
        mse
    }

    /// The squared error of the network on one example.
    pub fn calculate_mse_for_one_row(&self, inputs: &Vec<T>, y_desired: &Vec<T>) -> (error: T)
        ensures
            is_row_error(self.layers@, inputs@, y_desired@, error),
    {
        let outputs = self.predict_normalized(inputs);
        let error = squared_error(&outputs, y_desired);
        assert(is_chain(self.layers@, inputs@, outputs@) && is_squared_error(
            outputs@,
            y_desired@,
            error,
        ));
        error
    }
}

} // verus!
