use neural_network::nn::activation_functions::{get_activation_function, ActivationFunction};
use neural_network::nn::layer::{Layer, LayerType};
use neural_network::nn::metrics::{arg_max, count_classes, sample_loss};
use neural_network::nn::neuron::Neuron;
use neural_network::nn::NeuralNetwork;
use neural_network::scalar::Scalar;
use rand::distributions::{Distribution, Uniform};
use rand::rngs::StdRng;
use rand::SeedableRng;

#[derive(Clone, Copy, Debug, PartialEq)]
struct Real(f64);

impl Scalar for Real {
    fn from_int(value: i32) -> Self {
        Real(value as f64)
    }

    fn from_count(n: usize) -> Self {
        Real(n as f64)
    }

    fn greatest() -> Self {
        Real(f64::MAX)
    }

    fn least() -> Self {
        Real(f64::MIN)
    }

    fn plus(self, rhs: Self) -> Self {
        Real(self.0 + rhs.0)
    }

    fn minus(self, rhs: Self) -> Self {
        Real(self.0 - rhs.0)
    }

    fn times(self, rhs: Self) -> Self {
        Real(self.0 * rhs.0)
    }

    fn over(self, rhs: Self) -> Self {
        Real(self.0 / rhs.0)
    }

    fn exp(self) -> Self {
        Real(self.0.exp())
    }

    fn ln(self) -> Self {
        Real(self.0.ln())
    }

    fn tanh(self) -> Self {
        Real(self.0.tanh())
    }

    fn larger(self, rhs: Self) -> Self {
        Real(f64::max(self.0, rhs.0))
    }

    fn below(self, rhs: Self) -> bool {
        self.0 < rhs.0
    }

    fn same(self, rhs: Self) -> bool {
        self.0 == rhs.0
    }

    fn uniform(low: Self, high: Self, draw: u64) -> Self {
        if low.0 < high.0 && (high.0 - low.0).is_finite() {
            Real(Uniform::new(low.0, high.0).sample(&mut StdRng::seed_from_u64(draw)))
        } else {
            low
        }
    }
}

fn reals(values: &[f64]) -> Vec<Real> {
    values.iter().map(|v| Real(*v)).collect()
}

fn floats(values: &[Real]) -> Vec<f64> {
    values.iter().map(|v| v.0).collect()
}

fn close(a: f64, b: f64) -> bool {
    (a - b).abs() < 1e-12
}

type Examples = Vec<(Vec<Real>, Vec<Real>)>;

fn examples(rows: &[(&[f64], &[f64])]) -> Examples {
    rows.iter().map(|(x, y)| (reals(x), reals(y))).collect()
}

/// A network whose outputs are its inputs, or their shares.
fn identity(width: usize, function: ActivationFunction) -> NeuralNetwork<Real> {
    let neurons = (0..width)
        .map(|i| {
            let mut weights = vec![Real(0.0); width];
            weights[i] = Real(1.0);
            Neuron::from_parameters(
                LayerType::Output,
                weights,
                Real(0.0),
                get_activation_function(function),
                Real(0.1),
            )
        })
        .collect();
    NeuralNetwork {
        layers: vec![Layer {
            layer_id: 1,
            layer_type: LayerType::Output,
            neurons,
            activation_function: function,
            current_inputs: vec![],
            current_outputs: vec![],
        }],
        mse: Real(0.0),
        mse_validation: Real(0.0),
        training_data: vec![],
        validation_data: vec![],
        testing_data: vec![],
        normalization_factors: vec![(Real(0.0), Real(1.0)); width],
    }
}

#[test]
fn arg_max_finds_the_largest() {
    assert_eq!(arg_max(&reals(&[1.0, 3.0, 2.0])), 1);
    assert_eq!(arg_max(&reals(&[5.0])), 0);
    assert_eq!(arg_max(&reals(&[-1.0, -3.0, -2.0])), 0);
    assert_eq!(arg_max(&reals(&[0.0, 0.0, 1.0])), 2);
    assert_eq!(arg_max(&reals(&[1.0, 0.0, 0.0])), 0);
}

#[test]
fn arg_max_takes_the_last_of_equals() {
    assert_eq!(arg_max(&reals(&[2.0, 2.0])), 1);
    assert_eq!(arg_max(&reals(&[3.0, 1.0, 3.0, 0.0])), 2);
    assert_eq!(arg_max(&reals(&[0.0, 0.0, 0.0])), 2);
}

#[test]
fn count_classes_counts_each_pair_in_its_cell() {
    let pairs = vec![(0, 0), (0, 1), (1, 1), (0, 1), (2, 0)];
    assert_eq!(count_classes(&pairs, 3), vec![vec![1, 2, 0], vec![0, 1, 0], vec![1, 0, 0]]);
    assert_eq!(count_classes(&vec![], 2), vec![vec![0, 0], vec![0, 0]]);
    assert_eq!(count_classes(&vec![], 0), Vec::<Vec<usize>>::new());
    assert_eq!(count_classes(&vec![(0, 0); 7], 1), vec![vec![7]]);
}

#[test]
fn the_counts_of_a_confusion_matrix_add_up_to_the_examples() {
    let mut network = identity(3, ActivationFunction::Linear);
    network.testing_data = examples(&[
        (&[0.9, 0.1, 0.0], &[1.0, 0.0, 0.0]),
        (&[0.2, 0.7, 0.1], &[1.0, 0.0, 0.0]),
        (&[0.1, 0.8, 0.1], &[0.0, 1.0, 0.0]),
        (&[0.1, 0.2, 0.7], &[0.0, 0.0, 1.0]),
        (&[0.6, 0.2, 0.2], &[0.0, 0.0, 1.0]),
        (&[0.3, 0.3, 0.4], &[0.0, 0.0, 1.0]),
    ]);
    let matrix = network.confusion_matrix();
    assert_eq!(matrix, vec![vec![1, 1, 0], vec![0, 1, 0], vec![1, 0, 2]]);
    let total: usize = matrix.iter().map(|row| row.iter().sum::<usize>()).sum();
    assert_eq!(total, network.testing_data.len());
}

#[test]
fn a_confusion_matrix_without_examples_is_all_zero() {
    let network = identity(2, ActivationFunction::Softmax);
    assert_eq!(network.confusion_matrix(), vec![vec![0, 0], vec![0, 0]]);
}

#[test]
fn a_certain_right_output_costs_nothing() {
    assert_eq!(sample_loss(&reals(&[0.0, 1.0, 0.0]), &reals(&[0.0, 1.0, 0.0])), Real(0.0));
    assert_eq!(sample_loss(&reals(&[1.0]), &reals(&[1.0])), Real(0.0));
}

#[test]
fn an_impossible_right_output_costs_without_bound() {
    assert_eq!(sample_loss(&reals(&[0.0, 1.0]), &reals(&[1.0, 0.0])), Real(f64::INFINITY));
    let small = sample_loss(&reals(&[1.0]), &reals(&[1e-300])).0;
    let smaller = sample_loss(&reals(&[1.0]), &reals(&[1e-308])).0;
    assert!(small > 690.0 && smaller > small);
}

#[test]
fn the_loss_of_an_example_is_the_negated_logarithm() {
    assert_eq!(sample_loss(&reals(&[0.0, 1.0, 0.0]), &reals(&[0.2, 0.5, 0.3])), Real(0.0 - 0.5_f64.ln()));
    assert_eq!(sample_loss(&reals(&[0.0, 0.0]), &reals(&[0.2, 0.8])), Real(0.0));
    assert_eq!(sample_loss(&reals(&[]), &reals(&[0.2, 0.8])), Real(0.0));
    assert_eq!(
        sample_loss(&reals(&[1.0, 1.0]), &reals(&[0.2, 0.8])),
        Real((0.0 - 0.2_f64.ln()) - 0.8_f64.ln())
    );
    assert_eq!(sample_loss(&reals(&[0.5, 0.9]), &reals(&[0.2, 0.8])), Real(0.0));
}

#[test]
fn cross_entropy_is_the_mean_loss_on_the_training_data() {
    let mut network = identity(2, ActivationFunction::Linear);
    network.training_data = examples(&[(&[0.5, 0.5], &[1.0, 0.0]), (&[0.25, 0.75], &[0.0, 1.0])]);
    let expected = ((0.0 + (0.0 - 0.5_f64.ln())) + (0.0 - 0.75_f64.ln())) / 2.0;
    assert_eq!(network.cross_entropy_loss(), Real(expected));
    network.training_data = examples(&[(&[1.0, 0.0], &[1.0, 0.0])]);
    assert_eq!(network.cross_entropy_loss(), Real(0.0));
    network.training_data = examples(&[(&[1.0, 0.0], &[0.0, 1.0])]);
    assert_eq!(network.cross_entropy_loss(), Real(f64::INFINITY));
    network.training_data = vec![];
    assert!(network.cross_entropy_loss().0.is_nan());
}

#[test]
fn cross_entropy_of_shares_is_finite() {
    let mut network = identity(2, ActivationFunction::Softmax);
    network.training_data = examples(&[(&[0.5, 0.5], &[1.0, 0.0])]);
    assert!(close(network.cross_entropy_loss().0, 0.0 - 0.5_f64.ln()));
    assert_eq!(floats(&network.predict(&reals(&[0.5, 0.5]))), vec![0.5, 0.5]);
}
