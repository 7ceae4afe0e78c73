use neural_network::nn::activation_functions::{get_activation_function, ActivationFunction};
use neural_network::nn::layer::{Layer, LayerType};
use neural_network::nn::neuron::Neuron;
use neural_network::nn::NeuralNetwork;
use neural_network::scalar::Scalar;

#[derive(Clone, Copy, Debug, PartialEq)]
struct Real(f64);

impl Scalar for Real {
    fn from_int(value: i32) -> Self {
        Real(value as f64)
    }

    fn from_count(n: usize) -> Self {
        Real(n as f64)
    }

    fn greatest() -> Self {
        Real(f64::MAX)
    }

    fn least() -> Self {
        Real(f64::MIN)
    }

    fn plus(self, rhs: Self) -> Self {
        Real(self.0 + rhs.0)
    }

    fn minus(self, rhs: Self) -> Self {
        Real(self.0 - rhs.0)
    }

    fn times(self, rhs: Self) -> Self {
        Real(self.0 * rhs.0)
    }

    fn over(self, rhs: Self) -> Self {
        Real(self.0 / rhs.0)
    }

    fn exp(self) -> Self {
        Real(self.0.exp())
    }

    fn ln(self) -> Self {
        Real(self.0.ln())
    }

    fn tanh(self) -> Self {
        Real(self.0.tanh())
    }

    fn larger(self, rhs: Self) -> Self {
        Real(f64::max(self.0, rhs.0))
    }

    fn below(self, rhs: Self) -> bool {
        self.0 < rhs.0
    }

    fn same(self, rhs: Self) -> bool {
        self.0 == rhs.0
    }

    fn uniform(low: Self, _high: Self, _draw: u64) -> Self {
        low
    }
}

fn one_neuron_layer(
    layer_id: usize,
    layer_type: LayerType,
    weight: f64,
    threshold: f64,
    alpha: f64,
) -> Layer<Real> {
    Layer {
        layer_id,
        layer_type,
        neurons: vec![Neuron::from_parameters(
            layer_type,
            vec![Real(weight)],
            Real(threshold),
            get_activation_function(ActivationFunction::Linear),
            Real(alpha),
        )],
        activation_function: ActivationFunction::Linear,
        current_inputs: vec![],
        current_outputs: vec![],
    }
}

fn two_linear_neurons() -> NeuralNetwork<Real> {
    NeuralNetwork {
        layers: vec![
            one_neuron_layer(1, LayerType::Hidden, 0.5, 0.0, 0.1),
            one_neuron_layer(2, LayerType::Output, 2.0, 0.0, 0.1),
        ],
        mse: Real(0.0),
        mse_validation: Real(0.0),
        training_data: vec![(vec![Real(1.0)], vec![Real(2.0)])],
        validation_data: vec![],
        testing_data: vec![],
        normalization_factors: vec![(Real(0.0), Real(1.0))],
    }
}

#[test]
fn forward_yields_the_outputs_of_both_layers() {
    let mut network = two_linear_neurons();
    let outputs = network.forward(0);
    assert_eq!(outputs, vec![Real(1.0)]);
    assert_eq!(network.layers[0].neurons[0].y, Real(0.5));
    assert_eq!(network.layers[1].neurons[0].y, Real(1.0));
}

#[test]
fn backward_yields_the_gradient_errors() {
    let mut network = two_linear_neurons();
    network.forward(0);
    network.backward(0);
    assert_eq!(network.layers[1].neurons[0].gradiant_error, Real(1.0));
    assert_eq!(network.layers[0].neurons[0].gradiant_error, Real(2.0));
}

#[test]
fn commit_moves_the_weights_along_the_gradient() {
    let mut network = two_linear_neurons();
    network.forward(0);
    network.backward(0);
    network.commit();
    assert_eq!(network.layers[1].neurons[0].weights, vec![Real(2.0 + 0.1 * 0.5 * 1.0)]);
    assert!((network.layers[1].neurons[0].weights[0].0 - 2.05).abs() < 1e-12);
    assert_eq!(network.layers[1].neurons[0].threshold, Real(0.0 + 0.1 * -1.0 * 1.0));
    assert_eq!(network.layers[0].neurons[0].weights, vec![Real(0.5 + 0.1 * 1.0 * 2.0)]);
}
