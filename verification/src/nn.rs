//! The network: a chain of layers, the three partitions of its data, and the range of
//! each input feature.

pub mod activation_functions;
pub mod construction;
pub mod determinism;
pub mod layer;
pub mod metrics;
pub mod neuron;
pub mod normalization;
pub mod parallel;
pub mod prediction;
pub mod training;

use vstd::prelude::*;
use crate::scalar::Scalar;
use crate::nn::activation_functions::wrapped;
use crate::nn::layer::{Layer, LayerType};

verus! {

/// A feed-forward network with its data.
#[derive(Clone)]
pub struct NeuralNetwork<T: Scalar> {
    /// The layers, from the one that reads the inputs to the output layer.
    pub layers: Vec<Layer<T>>,
    /// The mean squared error of the last epoch on the training data.
    pub mse: T,
    /// The mean squared error after the last epoch on the validation data.
    pub mse_validation: T,
    /// Pairs of inputs and wanted outputs to train on.
    pub training_data: Vec<(Vec<T>, Vec<T>)>,
    pub validation_data: Vec<(Vec<T>, Vec<T>)>,
    pub testing_data: Vec<(Vec<T>, Vec<T>)>,
    /// The least and the greatest value of each input feature, over all the data.
    pub normalization_factors: Vec<(T, T)>,
}

/// Why a network cannot be built from what was given.
#[derive(Debug, Copy, Clone, PartialEq, Eq, Structural)]
pub enum ConfigurationError {
    /// The network would have no input, no output, or an empty hidden layer.
    ZeroWidthLayer,
    /// An example does not hold one wanted output for each output of the network.
    LabelWidthMismatch,
    /// An example does not hold one value for each input of the network.
    FeatureWidthMismatch,
}

/// Every neuron of `layer` has the role and the activation function of the layer,
/// and a weight for each of `inputs_count` inputs; and the layer is not empty.
pub open spec fn layer_fits<T: Scalar>(layer: Layer<T>, inputs_count: int) -> bool {
    &&& layer.neurons@.len() > 0
    &&& forall|k: int|
        0 <= k < layer.neurons@.len() ==> {
            &&& (#[trigger] layer.neurons@[k]).layer_type == layer.layer_type
            &&& layer.neurons@[k].activation_function == wrapped(layer.activation_function)
            &&& layer.neurons@[k].weights@.len() == inputs_count
        }
}

/// The number of inputs that the layer `l` of `layers` is fed, in a network of
/// `inputs_count` inputs: the width of the layer before it.
pub open spec fn fan_in<T: Scalar>(layers: Seq<Layer<T>>, inputs_count: int, l: int) -> int {
    if l == 0 {
        inputs_count
    } else {
        layers[l - 1].neurons@.len() as int
    }
}

/// `layers` form a network of `inputs_count` inputs: there is a layer, each fits the
/// one before it, the last is the output layer and the others are hidden.
pub open spec fn chained<T: Scalar>(layers: Seq<Layer<T>>, inputs_count: int) -> bool {
    &&& layers.len() > 0
    &&& inputs_count > 0
    &&& forall|l: int|
        0 <= l < layers.len() ==> {
            &&& layer_fits(#[trigger] layers[l], fan_in(layers, inputs_count, l))
            &&& layers[l].layer_type == if l == layers.len() - 1 {
                LayerType::Output
            } else {
                LayerType::Hidden
            }
        }
}

/// Every example of `data` has `inputs_count` inputs and `outputs_count` wanted
/// outputs.
pub open spec fn fits_data<T>(data: Seq<(Vec<T>, Vec<T>)>, inputs_count: int, outputs_count: int) -> bool {
    forall|e: int|
        0 <= e < data.len() ==> (#[trigger] data[e]).0@.len() == inputs_count && data[e].1@.len()
            == outputs_count
}

/// Every layer of `layers` holds the inputs and outputs of a forward pass: an output
/// for each neuron, and an input for each weight.
pub open spec fn passed<T: Scalar>(layers: Seq<Layer<T>>) -> bool {
    forall|l: int|
        0 <= l < layers.len() ==> {
            &&& (#[trigger] layers[l]).current_outputs@.len() == layers[l].neurons@.len()
            &&& forall|k: int|
                0 <= k < layers[l].neurons@.len() ==> (#[trigger] layers[l].neurons@[k]).weights@.len()
                    == layers[l].current_inputs@.len()
        }
}

/// Whether every neuron of `layer` has the role and the activation function of the
/// layer and `inputs_count` weights, and the layer is not empty.
fn layer_is_fit<T: Scalar>(layer: &Layer<T>, inputs_count: usize) -> (fit: bool)
    ensures
        fit == layer_fits(*layer, inputs_count as int),
{
    if layer.neurons.len() == 0 {
        return false;
    }
    let mut k: usize = 0;
    while k < layer.neurons.len()
        invariant
            k <= layer.neurons@.len(),
            layer.neurons@.len() > 0,
            forall|j: int|
                0 <= j < k ==> {
                    &&& (#[trigger] layer.neurons@[j]).layer_type == layer.layer_type
                    &&& layer.neurons@[j].activation_function == wrapped(layer.activation_function)
                    &&& layer.neurons@[j].weights@.len() == inputs_count
                },
        decreases layer.neurons@.len() - k,
    {
        let neuron = &layer.neurons[k];
        if neuron.layer_type != layer.layer_type || neuron.activation_function.name()
            != layer.activation_function || neuron.weights.len() != inputs_count {
            return false;
        }
        k = k + 1;
    }
    true
}

/// Whether every example of `data` has `inputs_count` inputs and `outputs_count`
/// wanted outputs.
fn check_data<T>(data: &Vec<(Vec<T>, Vec<T>)>, inputs_count: usize, outputs_count: usize) -> (fit:
    bool)
    ensures
        fit == fits_data(data@, inputs_count as int, outputs_count as int),
{
    let mut e: usize = 0;
    while e < data.len()
        invariant
            e <= data@.len(),
            forall|k: int|
                0 <= k < e ==> (#[trigger] data@[k]).0@.len() == inputs_count && data@[k].1@.len()
                    == outputs_count,
        decreases data@.len() - e,
    {
        if data[e].0.len() != inputs_count || data[e].1.len() != outputs_count {
            return false;
        }
        e = e + 1;
    }
    true
}

impl<T: Scalar> NeuralNetwork<T> {
    /// The number of inputs of the network.
    pub open spec fn inputs_count(self) -> int {
        self.normalization_factors@.len() as int
    }

    /// The number of outputs of the network.
    pub open spec fn outputs_count(self) -> int {
        self.layers@.last().neurons@.len() as int
    }

    /// The layers form a chain from as many inputs as there are feature ranges, and
    /// every example has that many inputs and a wanted output for each neuron of the
    /// output layer.
    pub open spec fn wf(self) -> bool {
        &&& chained(self.layers@, self.inputs_count())
        &&& fits_data(self.training_data@, self.inputs_count(), self.outputs_count())
        &&& fits_data(self.validation_data@, self.inputs_count(), self.outputs_count())
        &&& fits_data(self.testing_data@, self.inputs_count(), self.outputs_count())
    }

    /// `other` holds the data and the feature ranges of `self`.
    pub open spec fn same_data(self, other: Self) -> bool {
        &&& other.training_data == self.training_data
        &&& other.validation_data == self.validation_data
        &&& other.testing_data == self.testing_data
        &&& other.normalization_factors == self.normalization_factors
    }

    /// `other` holds the errors of `self`.
    pub open spec fn same_errors(self, other: Self) -> bool {
        &&& other.mse == self.mse
        &&& other.mse_validation == self.mse_validation
    }

    /// Whether the network is well-formed.
    pub fn is_well_formed(&self) -> (ok: bool)
        ensures
            ok == self.wf(),
    {
        let inputs_count = self.normalization_factors.len();
        if self.layers.len() == 0 || inputs_count == 0 {
            return false;
        }
        let mut width = inputs_count;
        let mut l: usize = 0;
        while l < self.layers.len()
            invariant
                l <= self.layers@.len(),
                inputs_count == self.inputs_count(),
                inputs_count > 0,
                width == fan_in(self.layers@, inputs_count as int, l as int),
                forall|k: int|
                    0 <= k < l ==> {
                        &&& layer_fits(
                            #[trigger] self.layers@[k],
                            fan_in(self.layers@, inputs_count as int, k),
                        )
                        &&& self.layers@[k].layer_type == if k == self.layers@.len() - 1 {
                            LayerType::Output
                        } else {
                            LayerType::Hidden
                        }
                    },
            decreases self.layers@.len() - l,
        {
            let wanted = if l + 1 == self.layers.len() {
                LayerType::Output
            } else {
                LayerType::Hidden
            };
            if self.layers[l].layer_type != wanted || !layer_is_fit(&self.layers[l], width) {
                assert(!(layer_fits(self.layers@[l as int], fan_in(self.layers@, inputs_count as int, l as int))
                    && self.layers@[l as int].layer_type == wanted));
                return false;
            }
            width = self.layers[l].neurons.len();
            l = l + 1;
        }
        assert(chained(self.layers@, inputs_count as int));
        check_data(&self.training_data, inputs_count, width) && check_data(
            &self.validation_data,
            inputs_count,
            width,
        ) && check_data(&self.testing_data, inputs_count, width)
    }
}

} // verus!
