//! Building a network: what is refused, what the layers are, and what becomes of the
//! data.

use vstd::prelude::*;
use crate::scalar::{Scalar, is_int};
use crate::shuffle::{fresh_generator, lemma_same_items, seeded_generator, shuffle};
use rand::rngs::StdRng;
use crate::nn::activation_functions::{ActivationFunction, wrapped};
use crate::nn::layer::{Layer, LayerType};
use crate::nn::{NeuralNetwork, ConfigurationError, layer_fits, fan_in, fits_data};
use crate::nn::normalization::{is_normalized_row, is_normalized_data};

verus! {

/// The number of hidden layers that `topology` and `activation_functions` describe:
/// one for each width that has an activation function.
pub open spec fn hidden_count(
    topology: Seq<usize>,
    activation_functions: Seq<ActivationFunction>,
) -> int {
    if topology.len() <= activation_functions.len() {
        topology.len() as int
    } else {
        activation_functions.len() as int
    }
}

/// The number of inputs of the layer `l`, where the hidden layers have the widths of
/// `topology`.
pub open spec fn width_before(inputs_count: usize, topology: Seq<usize>, l: int) -> usize {
    if l == 0 {
        inputs_count
    } else {
        topology[l - 1]
    }
}

/// The network would have no input, no output, or an empty hidden layer.
pub open spec fn has_zero_width(
    inputs_count: usize,
    topology: Seq<usize>,
    activation_functions: Seq<ActivationFunction>,
    outputs_count: usize,
) -> bool {
    ||| inputs_count == 0
    ||| outputs_count == 0
    ||| exists|l: int| 0 <= l < hidden_count(topology, activation_functions) && #[trigger] topology[l] == 0
}

/// Every example of `data` has `outputs_count` wanted outputs.
pub open spec fn labels_fit<T>(data: Seq<(Vec<T>, Vec<T>)>, outputs_count: usize) -> bool {
    forall|e: int| 0 <= e < data.len() ==> (#[trigger] data[e]).1@.len() == outputs_count
}

/// Every example of `data` has `inputs_count` inputs.
pub open spec fn features_fit<T>(data: Seq<(Vec<T>, Vec<T>)>, inputs_count: usize) -> bool {
    forall|e: int| 0 <= e < data.len() ==> (#[trigger] data[e]).0@.len() == inputs_count
}

/// Why no network can be built from what was given, if there is a reason: an empty
/// layer comes before an example with the wrong number of wanted outputs, and that
/// before an example with the wrong number of inputs.
pub open spec fn configuration_error<T>(
    inputs_count: usize,
    topology: Seq<usize>,
    activation_functions: Seq<ActivationFunction>,
    outputs_count: usize,
    training: Seq<(Vec<T>, Vec<T>)>,
    validation: Seq<(Vec<T>, Vec<T>)>,
    testing: Seq<(Vec<T>, Vec<T>)>,
) -> Option<ConfigurationError> {
    if has_zero_width(inputs_count, topology, activation_functions, outputs_count) {
        Some(ConfigurationError::ZeroWidthLayer)
    } else if !(labels_fit(training, outputs_count) && labels_fit(validation, outputs_count)
        && labels_fit(testing, outputs_count)) {
        Some(ConfigurationError::LabelWidthMismatch)
    } else if !(features_fit(training, inputs_count) && features_fit(validation, inputs_count)
        && features_fit(testing, inputs_count)) {
        Some(ConfigurationError::FeatureWidthMismatch)
    } else {
        None
    }
}

/// `layers` can be the new layers of a network: a hidden layer for each width of
/// `topology` that has an activation function, numbered from one, and the output
/// layer after them.
pub open spec fn is_fresh_chain<T: Scalar>(
    layers: Seq<Layer<T>>,
    inputs_count: usize,
    topology: Seq<usize>,
    activation_functions: Seq<ActivationFunction>,
    outputs_count: usize,
    output_activation_function: ActivationFunction,
    alpha: T,
) -> bool {
    let h = hidden_count(topology, activation_functions);
    &&& layers.len() == h + 1
    &&& forall|l: int|
        0 <= l < h ==> (#[trigger] layers[l]).is_fresh(
            (l + 1) as usize,
            LayerType::Hidden,
            width_before(inputs_count, topology, l),
            topology[l],
            activation_functions[l],
            alpha,
        )
    &&& layers[h].is_fresh(
        (h + 1) as usize,
        LayerType::Output,
        width_before(inputs_count, topology, h),
        outputs_count,
        output_activation_function,
        alpha,
    )
}

/// Whether every example of `data` has `outputs_count` wanted outputs.
fn check_labels<T>(data: &Vec<(Vec<T>, Vec<T>)>, outputs_count: usize) -> (fit: bool)
    ensures
        fit == labels_fit(data@, outputs_count),
{
    let mut e: usize = 0;
    while e < data.len()
        invariant
            e <= data.len(),
            forall|k: int| 0 <= k < e ==> (#[trigger] data@[k]).1@.len() == outputs_count,
        decreases data.len() - e,
    {
        if data[e].1.len() != outputs_count {
            return false;
        }
        e = e + 1;
    }
    true
}

/// Whether every example of `data` has `inputs_count` inputs.
fn check_features<T>(data: &Vec<(Vec<T>, Vec<T>)>, inputs_count: usize) -> (fit: bool)
    ensures
        fit == features_fit(data@, inputs_count),
{
    let mut e: usize = 0;
    while e < data.len()
        invariant
            e <= data.len(),
            forall|k: int| 0 <= k < e ==> (#[trigger] data@[k]).0@.len() == inputs_count,
        decreases data.len() - e,
    {
        if data[e].0.len() != inputs_count {
            return false;
        }
        e = e + 1;
    }
    true
}

impl<T: Scalar> NeuralNetwork<T> {
    /// `self` can be the network built from what was given; `shuffled` is the
    /// network before its data was brought into range: new layers, no error yet, and
    /// each partition in some order.
    pub open spec fn is_built_via(
        self,
        inputs_count: usize,
        topology: Seq<usize>,
        activation_functions: Seq<ActivationFunction>,
        outputs_count: usize,
        output_activation_function: ActivationFunction,
        alpha: T,
        training: Seq<(Vec<T>, Vec<T>)>,
        validation: Seq<(Vec<T>, Vec<T>)>,
        testing: Seq<(Vec<T>, Vec<T>)>,
        shuffled: Self,
    ) -> bool {
        &&& shuffled.training_data@.to_multiset() == training.to_multiset()
        &&& shuffled.validation_data@.to_multiset() == validation.to_multiset()
        &&& shuffled.testing_data@.to_multiset() == testing.to_multiset()
        &&& is_fresh_chain(
            shuffled.layers@,
            inputs_count,
            topology,
            activation_functions,
            outputs_count,
            output_activation_function,
            alpha,
        )
        &&& is_int(0, shuffled.mse)
        &&& is_int(0, shuffled.mse_validation)
        &&& shuffled.normalizes(inputs_count, self)
    }

    /// `self` can be the network built from what was given: each partition holds the
    /// examples it was given, in some order, with their inputs brought into range.
    pub open spec fn is_built(
        self,
        inputs_count: usize,
        topology: Seq<usize>,
        activation_functions: Seq<ActivationFunction>,
        outputs_count: usize,
        output_activation_function: ActivationFunction,
        alpha: T,
        training: Seq<(Vec<T>, Vec<T>)>,
        validation: Seq<(Vec<T>, Vec<T>)>,
        testing: Seq<(Vec<T>, Vec<T>)>,
    ) -> bool {
        exists|shuffled: Self| #[trigger]
            self.is_built_via(
                inputs_count,
                topology,
                activation_functions,
                outputs_count,
                output_activation_function,
                alpha,
                training,
                validation,
                testing,
                shuffled,
            )
    }

    /// A network of `inputs_count` inputs, a hidden layer for each width of
    /// `hidden_layers_topology` that has an activation function, and an output layer
    /// of `outputs_count` neurons. The examples of each partition are put in a random
    /// order, once, and their inputs brought into the range of each feature.
    ///
    /// Nothing is built where a layer would be empty or an example does not fit the
    /// network.
    pub fn new(
        inputs_count: usize,
        hidden_layers_topology: Vec<usize>,
        hidden_layers_activation_functions: &[ActivationFunction],
        outputs_count: usize,
        output_layer_activation_function: ActivationFunction,
        alpha: T,
        training_data: Vec<(Vec<T>, Vec<T>)>,
        validation_data: Vec<(Vec<T>, Vec<T>)>,
        testing_data: Vec<(Vec<T>, Vec<T>)>,
    ) -> (result: Result<Self, ConfigurationError>)
        requires
            hidden_layers_topology@.len() < usize::MAX,
        ensures
            match configuration_error(
                inputs_count,
                hidden_layers_topology@,
                hidden_layers_activation_functions@,
                outputs_count,
                training_data@,
                validation_data@,
                testing_data@,
            ) {
                Some(error) => result == Err::<Self, ConfigurationError>(error),
                None => {
                    &&& result matches Ok(network)
                    &&& network.wf()
                    &&& network.is_built(
                        inputs_count,
                        hidden_layers_topology@,
                        hidden_layers_activation_functions@,
                        outputs_count,
                        output_layer_activation_function,
                        alpha,
                        training_data@,
                        validation_data@,
                        testing_data@,
                    )
                },
            },
    {
        let mut generator = fresh_generator();
        Self::build(
            inputs_count,
            hidden_layers_topology,
            hidden_layers_activation_functions,
            outputs_count,
            output_layer_activation_function,
            alpha,
            training_data,
            validation_data,
            testing_data,
            &mut generator,
        )
    }

    /// The network that `new` builds, with all chance settled by `seed`: the order of
    /// the examples and the first weights are drawn from one generator that starts
    /// from `seed`.
    pub fn new_seeded(
        inputs_count: usize,
        hidden_layers_topology: Vec<usize>,
        hidden_layers_activation_functions: &[ActivationFunction],
        outputs_count: usize,
        output_layer_activation_function: ActivationFunction,
        alpha: T,
        training_data: Vec<(Vec<T>, Vec<T>)>,
        validation_data: Vec<(Vec<T>, Vec<T>)>,
        testing_data: Vec<(Vec<T>, Vec<T>)>,
        seed: u64,
    ) -> (result: Result<Self, ConfigurationError>)
        requires
            hidden_layers_topology@.len() < usize::MAX,
        ensures
            match configuration_error(
                inputs_count,
                hidden_layers_topology@,
                hidden_layers_activation_functions@,
                outputs_count,
                training_data@,
                validation_data@,
                testing_data@,
            ) {
                Some(error) => result == Err::<Self, ConfigurationError>(error),
                None => {
                    &&& result matches Ok(network)
                    &&& network.wf()
                    &&& network.is_built(
                        inputs_count,
                        hidden_layers_topology@,
                        hidden_layers_activation_functions@,
                        outputs_count,
                        output_layer_activation_function,
                        alpha,
                        training_data@,
                        validation_data@,
                        testing_data@,
                    )
                },
            },
    {
        let mut generator = seeded_generator(seed);
        Self::build(
            inputs_count,
            hidden_layers_topology,
            hidden_layers_activation_functions,
            outputs_count,
            output_layer_activation_function,
            alpha,
            training_data,
            validation_data,
            testing_data,
            &mut generator,
        )
    }

    /// Builds the network, with the order of the examples and then the first weights
    /// drawn from `generator`.
    fn build(
        inputs_count: usize,
        hidden_layers_topology: Vec<usize>,
        hidden_layers_activation_functions: &[ActivationFunction],
        outputs_count: usize,
        output_layer_activation_function: ActivationFunction,
        alpha: T,
        training_data: Vec<(Vec<T>, Vec<T>)>,
        validation_data: Vec<(Vec<T>, Vec<T>)>,
        testing_data: Vec<(Vec<T>, Vec<T>)>,
        generator: &mut StdRng,
    ) -> (result: Result<Self, ConfigurationError>)
        requires
            hidden_layers_topology@.len() < usize::MAX,
        ensures
            match configuration_error(
                inputs_count,
                hidden_layers_topology@,
                hidden_layers_activation_functions@,
                outputs_count,
                training_data@,
                validation_data@,
                testing_data@,
            ) {
                Some(error) => result == Err::<Self, ConfigurationError>(error),
                None => {
                    &&& result matches Ok(network)
                    &&& network.wf()
                    &&& network.is_built(
                        inputs_count,
                        hidden_layers_topology@,
                        hidden_layers_activation_functions@,
                        outputs_count,
                        output_layer_activation_function,
                        alpha,
                        training_data@,
                        validation_data@,
                        testing_data@,
                    )
                },
            },
    {
        let hidden = if hidden_layers_topology.len() <= hidden_layers_activation_functions.len() {
            hidden_layers_topology.len()
        } else {
            hidden_layers_activation_functions.len()
        };
        if inputs_count == 0 || outputs_count == 0 {
            return Err(ConfigurationError::ZeroWidthLayer);
        }
        let mut l: usize = 0;
        while l < hidden
            invariant
                l <= hidden,
                hidden == hidden_count(
                    hidden_layers_topology@,
                    hidden_layers_activation_functions@,
                ),
                forall|k: int| 0 <= k < l ==> #[trigger] hidden_layers_topology@[k] != 0,
            decreases hidden - l,
        {
            if hidden_layers_topology[l] == 0 {
                return Err(ConfigurationError::ZeroWidthLayer);
            }
            l = l + 1;
        }
        if !(check_labels(&training_data, outputs_count) && check_labels(
            &validation_data,
            outputs_count,
        ) && check_labels(&testing_data, outputs_count)) {
            return Err(ConfigurationError::LabelWidthMismatch);
        }
        if !(check_features(&training_data, inputs_count) && check_features(
            &validation_data,
            inputs_count,
        ) && check_features(&testing_data, inputs_count)) {
            return Err(ConfigurationError::FeatureWidthMismatch);
        }
        let mut training_data = training_data;
        let mut validation_data = validation_data;
        let mut testing_data = testing_data;
        let ghost given_training = training_data@;
        let ghost given_validation = validation_data@;
        let ghost given_testing = testing_data@;
        shuffle(&mut training_data, generator);
        shuffle(&mut validation_data, generator);
        shuffle(&mut testing_data, generator);

        let mut layers: Vec<Layer<T>> = Vec::new();
        let mut l: usize = 0;
        while l < hidden
            invariant
                l <= hidden,
                hidden == hidden_count(
                    hidden_layers_topology@,
                    hidden_layers_activation_functions@,
                ),
                hidden < usize::MAX,
                inputs_count > 0,
                forall|k: int| 0 <= k < hidden ==> #[trigger] hidden_layers_topology@[k] != 0,
                layers.len() == l,
                forall|k: int|
                    0 <= k < l ==> (#[trigger] layers@[k]).is_fresh(
                        (k + 1) as usize,
                        LayerType::Hidden,
                        width_before(inputs_count, hidden_layers_topology@, k),
                        hidden_layers_topology@[k],
                        hidden_layers_activation_functions@[k],
                        alpha,
                    ),
            decreases hidden - l,
        {
            let fan_in = if l == 0 {
                inputs_count
            } else {
                hidden_layers_topology[l - 1]
            };
            assert(hidden_layers_topology@[l - 1] != 0 || l == 0);
            layers.push(
                Layer::new(
                    l + 1,
                    LayerType::Hidden,
                    fan_in,
                    hidden_layers_topology[l],
                    hidden_layers_activation_functions[l],
                    alpha,
                    generator,
                ),
            );
            l = l + 1;
        }
        let fan_in = if hidden == 0 {
            inputs_count
        } else {
            hidden_layers_topology[hidden - 1]
        };
        assert(hidden_layers_topology@[hidden - 1] != 0 || hidden == 0);
        layers.push(
            Layer::new(
                hidden + 1,
                LayerType::Output,
                fan_in,
                outputs_count,
                output_layer_activation_function,
                alpha,
                generator,
            ),
        );
        let mut network = NeuralNetwork {
            layers,
            mse: T::from_int(0),
            mse_validation: T::from_int(0),
            training_data,
            validation_data,
            testing_data,
            normalization_factors: Vec::new(),
        };
        let ghost shuffled = network;
        network.normalize(inputs_count);
        proof {
            assert(network.is_built_via(
                inputs_count,
                hidden_layers_topology@,
                hidden_layers_activation_functions@,
                outputs_count,
                output_layer_activation_function,
                alpha,
                given_training,
                given_validation,
                given_testing,
                shuffled,
            ));
            Self::lemma_built_is_well_formed(
                network,
                inputs_count,
                hidden_layers_topology@,
                hidden_layers_activation_functions@,
                outputs_count,
                output_layer_activation_function,
                alpha,
                given_training,
                given_validation,
                given_testing,
                shuffled,
            );
        }
        Ok(network)
    }

    /// A network built from layers that are not empty and examples that fit is
    /// well-formed.
    proof fn lemma_built_is_well_formed(
        network: Self,
        inputs_count: usize,
        topology: Seq<usize>,
        activation_functions: Seq<ActivationFunction>,
        outputs_count: usize,
        output_activation_function: ActivationFunction,
        alpha: T,
        training: Seq<(Vec<T>, Vec<T>)>,
        validation: Seq<(Vec<T>, Vec<T>)>,
        testing: Seq<(Vec<T>, Vec<T>)>,
        shuffled: Self,
    )
        requires
            !has_zero_width(inputs_count, topology, activation_functions, outputs_count),
            labels_fit(training, outputs_count),
            labels_fit(validation, outputs_count),
            labels_fit(testing, outputs_count),
            features_fit(training, inputs_count),
            features_fit(validation, inputs_count),
            features_fit(testing, inputs_count),
            network.is_built_via(
                inputs_count,
                topology,
                activation_functions,
                outputs_count,
                output_activation_function,
                alpha,
                training,
                validation,
                testing,
                shuffled,
            ),
        ensures
            network.wf(),
    {
        let layers = network.layers@;
        let h = hidden_count(topology, activation_functions);
        assert forall|l: int| 0 <= l < layers.len() implies {
            &&& layer_fits(#[trigger] layers[l], fan_in(layers, inputs_count as int, l))
            &&& layers[l].layer_type == if l == layers.len() - 1 {
                LayerType::Output
            } else {
                LayerType::Hidden
            }
            &&& layers[l].neurons@.len() == if l == h {
                outputs_count
            } else {
                topology[l]
            }
        } by {
            if l > 0 {
                assert(layers[l - 1].neurons@.len() == topology[l - 1]);
            }
            assert(topology[l] != 0 || l == h);
            let width = width_before(inputs_count, topology, l);
            assert(width == fan_in(layers, inputs_count as int, l));
            assert forall|k: int| 0 <= k < layers[l].neurons@.len() implies {
                &&& (#[trigger] layers[l].neurons@[k]).layer_type == layers[l].layer_type
                &&& layers[l].neurons@[k].activation_function == wrapped(
                    layers[l].activation_function,
                )
                &&& layers[l].neurons@[k].weights@.len() == width
            } by {
                let neuron = layers[l].neurons@[k];
                if l == h {
                    let (low, high) = choose|low: T, high: T|
                        neuron.is_fresh_via(
                            LayerType::Output,
                            width,
                            wrapped(output_activation_function),
                            alpha,
                            low,
                            high,
                        );
                } else {
                    let (low, high) = choose|low: T, high: T|
                        neuron.is_fresh_via(
                            LayerType::Hidden,
                            width,
                            wrapped(activation_functions[l]),
                            alpha,
                            low,
                            high,
                        );
                }
            }
        }
        assert(network.outputs_count() == outputs_count);
        Self::lemma_normalized_data_fits(
            training,
            shuffled.training_data@,
            network.normalization_factors@,
            network.training_data@,
            inputs_count,
            outputs_count,
        );
        Self::lemma_normalized_data_fits(
            validation,
            shuffled.validation_data@,
            network.normalization_factors@,
            network.validation_data@,
            inputs_count,
            outputs_count,
        );
        Self::lemma_normalized_data_fits(
            testing,
            shuffled.testing_data@,
            network.normalization_factors@,
            network.testing_data@,
            inputs_count,
            outputs_count,
        );
    }

    /// Examples that fit the network still fit it in another order and with their
    /// inputs brought into range.
    proof fn lemma_normalized_data_fits(
        given: Seq<(Vec<T>, Vec<T>)>,
        shuffled: Seq<(Vec<T>, Vec<T>)>,
        factors: Seq<(T, T)>,
        data: Seq<(Vec<T>, Vec<T>)>,
        inputs_count: usize,
        outputs_count: usize,
    )
        requires
            labels_fit(given, outputs_count),
            features_fit(given, inputs_count),
            shuffled.to_multiset() == given.to_multiset(),
            is_normalized_data(factors, shuffled, data),
        ensures
            fits_data(data, inputs_count as int, outputs_count as int),
    {
        assert forall|e: int| 0 <= e < data.len() implies (#[trigger] data[e]).0@.len()
            == inputs_count && data[e].1@.len() == outputs_count by {
            let j = lemma_same_items(given, shuffled, e);
            assert(is_normalized_row(factors, shuffled[e].0@, data[e].0@));
        }
    }
}

} // verus!
