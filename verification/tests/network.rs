use neural_network::nn::activation_functions::{get_activation_function, ActivationFunction};
use neural_network::nn::layer::{Layer, LayerType};
use neural_network::nn::neuron::Neuron;
use neural_network::nn::normalization::normalized;
use neural_network::nn::prediction::{mean, squared_error};
use neural_network::nn::{ConfigurationError, NeuralNetwork};
use neural_network::scalar::Scalar;
use rand::distributions::{Distribution, Uniform};
use rand::rngs::StdRng;
use rand::SeedableRng;

#[derive(Clone, Copy, Debug, PartialEq)]
struct Real(f64);

impl Scalar for Real {
    fn from_int(value: i32) -> Self {
        Real(value as f64)
    }

    fn from_count(n: usize) -> Self {
        Real(n as f64)
    }

    fn greatest() -> Self {
        Real(f64::MAX)
    }

    fn least() -> Self {
        Real(f64::MIN)
    }

    fn plus(self, rhs: Self) -> Self {
        Real(self.0 + rhs.0)
    }

    fn minus(self, rhs: Self) -> Self {
        Real(self.0 - rhs.0)
    }

    fn times(self, rhs: Self) -> Self {
        Real(self.0 * rhs.0)
    }

    fn over(self, rhs: Self) -> Self {
        Real(self.0 / rhs.0)
    }

    fn exp(self) -> Self {
        Real(self.0.exp())
    }

    fn ln(self) -> Self {
        Real(self.0.ln())
    }

    fn tanh(self) -> Self {
        Real(self.0.tanh())
    }

    fn larger(self, rhs: Self) -> Self {
        Real(f64::max(self.0, rhs.0))
    }

    fn below(self, rhs: Self) -> bool {
        self.0 < rhs.0
    }

    fn same(self, rhs: Self) -> bool {
        self.0 == rhs.0
    }

    fn uniform(low: Self, high: Self, draw: u64) -> Self {
        if low.0 < high.0 && (high.0 - low.0).is_finite() {
            Real(Uniform::new(low.0, high.0).sample(&mut StdRng::seed_from_u64(draw)))
        } else {
            low
        }
    }
}

fn reals(values: &[f64]) -> Vec<Real> {
    values.iter().map(|v| Real(*v)).collect()
}

fn floats(values: &[Real]) -> Vec<f64> {
    values.iter().map(|v| v.0).collect()
}

fn close(a: f64, b: f64) -> bool {
    (a - b).abs() < 1e-12
}

type Examples = Vec<(Vec<Real>, Vec<Real>)>;

fn examples(rows: &[(&[f64], &[f64])]) -> Examples {
    rows.iter().map(|(x, y)| (reals(x), reals(y))).collect()
}

fn layer_of(
    layer_id: usize,
    layer_type: LayerType,
    function: ActivationFunction,
    alpha: f64,
    parameters: &[(&[f64], f64)],
) -> Layer<Real> {
    Layer {
        layer_id,
        layer_type,
        neurons: parameters
            .iter()
            .map(|(weights, threshold)| {
                Neuron::from_parameters(
                    layer_type,
                    reals(weights),
                    Real(*threshold),
                    get_activation_function(function),
                    Real(alpha),
                )
            })
            .collect(),
        activation_function: function,
        current_inputs: vec![],
        current_outputs: vec![],
    }
}

fn network_of(layers: Vec<Layer<Real>>, factors: &[(f64, f64)], training: Examples) -> NeuralNetwork<Real> {
    NeuralNetwork {
        layers,
        mse: Real(0.0),
        mse_validation: Real(0.0),
        training_data: training,
        validation_data: vec![],
        testing_data: vec![],
        normalization_factors: factors.iter().map(|(a, b)| (Real(*a), Real(*b))).collect(),
    }
}

fn build(
    inputs: usize,
    hidden: &[usize],
    functions: &[ActivationFunction],
    outputs: usize,
    training: Examples,
    validation: Examples,
    testing: Examples,
) -> Result<NeuralNetwork<Real>, ConfigurationError> {
    NeuralNetwork::new(
        inputs,
        hidden.to_vec(),
        functions,
        outputs,
        ActivationFunction::Sigmoid,
        Real(0.1),
        training,
        validation,
        testing,
    )
}

fn error_of(result: Result<NeuralNetwork<Real>, ConfigurationError>) -> Option<ConfigurationError> {
    match result {
        Ok(_) => None,
        Err(error) => Some(error),
    }
}

#[test]
fn a_network_without_inputs_is_refused() {
    let r = build(0, &[3], &[ActivationFunction::Relu], 1, vec![], vec![], vec![]);
    assert_eq!(error_of(r), Some(ConfigurationError::ZeroWidthLayer));
}

#[test]
fn a_network_without_outputs_is_refused() {
    let r = build(2, &[3], &[ActivationFunction::Relu], 0, vec![], vec![], vec![]);
    assert_eq!(error_of(r), Some(ConfigurationError::ZeroWidthLayer));
}

#[test]
fn an_empty_hidden_layer_is_refused() {
    let relu = ActivationFunction::Relu;
    let r = build(2, &[3, 0, 4], &[relu, relu, relu], 1, vec![], vec![], vec![]);
    assert_eq!(error_of(r), Some(ConfigurationError::ZeroWidthLayer));
    let r = build(2, &[0], &[relu], 1, vec![], vec![], vec![]);
    assert_eq!(error_of(r), Some(ConfigurationError::ZeroWidthLayer));
}

#[test]
fn a_width_without_an_activation_function_is_no_layer() {
    let relu = ActivationFunction::Relu;
    let network = build(2, &[3, 0], &[relu], 1, vec![], vec![], vec![]).unwrap();
    assert_eq!(network.layers.len(), 2);
    assert_eq!(network.layers[0].neurons.len(), 3);
    assert_eq!(network.layers[1].neurons[0].weights.len(), 3);
    let network = build(2, &[3], &[relu, relu, relu], 1, vec![], vec![], vec![]).unwrap();
    assert_eq!(network.layers.len(), 2);
}

#[test]
fn an_example_with_the_wrong_number_of_wanted_outputs_is_refused() {
    let good = examples(&[(&[0.0, 1.0], &[1.0])]);
    let bad = examples(&[(&[0.0, 1.0], &[1.0]), (&[0.0, 1.0], &[1.0, 0.0])]);
    let relu = ActivationFunction::Relu;
    let r = build(2, &[3], &[relu], 1, bad.clone(), vec![], vec![]);
    assert_eq!(error_of(r), Some(ConfigurationError::LabelWidthMismatch));
    let r = build(2, &[3], &[relu], 1, good.clone(), bad.clone(), vec![]);
    assert_eq!(error_of(r), Some(ConfigurationError::LabelWidthMismatch));
    let r = build(2, &[3], &[relu], 1, good.clone(), vec![], bad.clone());
    assert_eq!(error_of(r), Some(ConfigurationError::LabelWidthMismatch));
    let r = build(2, &[3], &[relu], 1, good.clone(), good.clone(), good);
    assert!(r.is_ok());
}

#[test]
fn an_example_with_the_wrong_number_of_inputs_is_refused() {
    let good = examples(&[(&[0.0, 1.0], &[1.0])]);
    let short = examples(&[(&[0.0], &[1.0])]);
    let long = examples(&[(&[0.0, 1.0, 2.0], &[1.0])]);
    let relu = ActivationFunction::Relu;
    let r = build(2, &[3], &[relu], 1, short.clone(), vec![], vec![]);
    assert_eq!(error_of(r), Some(ConfigurationError::FeatureWidthMismatch));
    let r = build(2, &[3], &[relu], 1, good.clone(), long.clone(), vec![]);
    assert_eq!(error_of(r), Some(ConfigurationError::FeatureWidthMismatch));
    let r = build(2, &[3], &[relu], 1, good, vec![], short);
    assert_eq!(error_of(r), Some(ConfigurationError::FeatureWidthMismatch));
}

#[test]
fn an_empty_layer_is_reported_before_an_example_that_does_not_fit() {
    let bad = examples(&[(&[0.0], &[1.0, 0.0])]);
    let relu = ActivationFunction::Relu;
    let r = build(2, &[0], &[relu], 1, bad.clone(), vec![], vec![]);
    assert_eq!(error_of(r), Some(ConfigurationError::ZeroWidthLayer));
    let r = build(2, &[3], &[relu], 1, bad, vec![], vec![]);
    assert_eq!(error_of(r), Some(ConfigurationError::LabelWidthMismatch));
}

#[test]
fn the_layers_form_a_chain() {
    let functions = [ActivationFunction::Relu, ActivationFunction::Tanh];
    let network: NeuralNetwork<Real> = NeuralNetwork::new(
        3,
        vec![5, 4],
        &functions,
        2,
        ActivationFunction::Softmax,
        Real(0.25),
        vec![],
        vec![],
        vec![],
    )
    .unwrap();
    assert_eq!(network.layers.len(), 3);
    let widths = [5, 4, 2];
    let fan_in = [3, 5, 4];
    let roles = [LayerType::Hidden, LayerType::Hidden, LayerType::Output];
    let names = [ActivationFunction::Relu, ActivationFunction::Tanh, ActivationFunction::Softmax];
    for (l, layer) in network.layers.iter().enumerate() {
        assert_eq!(layer.layer_id, l + 1);
        assert_eq!(layer.layer_type, roles[l]);
        assert_eq!(layer.activation_function, names[l]);
        assert_eq!(layer.neurons.len(), widths[l]);
        for n in &layer.neurons {
            assert_eq!(n.layer_type, roles[l]);
            assert_eq!(n.alpha, Real(0.25));
            assert_eq!(n.weights.len(), fan_in[l]);
            let limit = 2.4 / fan_in[l] as f64;
            for w in &n.weights {
                assert!(-limit <= w.0 && w.0 < limit);
            }
            assert!(-limit <= n.threshold.0 && n.threshold.0 < limit);
        }
    }
    assert_eq!(network.normalization_factors.len(), 3);
    assert_eq!(network.mse, Real(0.0));
    assert_eq!(network.mse_validation, Real(0.0));
}

#[test]
fn a_network_without_hidden_layers_is_one_output_layer() {
    let network = build(2, &[], &[], 3, vec![], vec![], vec![]).unwrap();
    assert_eq!(network.layers.len(), 1);
    assert_eq!(network.layers[0].layer_type, LayerType::Output);
    assert_eq!(network.layers[0].layer_id, 1);
    assert_eq!(network.layers[0].neurons.len(), 3);
    assert_eq!(network.layers[0].neurons[0].weights.len(), 2);
}

#[test]
fn every_partition_keeps_its_examples() {
    let training: Examples = (0..40).map(|i| (reals(&[i as f64, 1.0]), reals(&[i as f64]))).collect();
    let validation: Examples = (40..50).map(|i| (reals(&[i as f64, 1.0]), reals(&[i as f64]))).collect();
    let testing: Examples = (50..55).map(|i| (reals(&[i as f64, 1.0]), reals(&[i as f64]))).collect();
    let network = build(2, &[3], &[ActivationFunction::Relu], 1, training, validation, testing).unwrap();
    let labels = |data: &Examples| {
        let mut v: Vec<i64> = data.iter().map(|(_, y)| y[0].0 as i64).collect();
        v.sort();
        v
    };
    assert_eq!(labels(&network.training_data), (0..40).collect::<Vec<i64>>());
    assert_eq!(labels(&network.validation_data), (40..50).collect::<Vec<i64>>());
    assert_eq!(labels(&network.testing_data), (50..55).collect::<Vec<i64>>());
    for (x, y) in network.training_data.iter().chain(&network.validation_data).chain(&network.testing_data) {
        assert_eq!(x[0], Real((y[0].0 - 0.0) / (54.0 - 0.0)));
    }
}

#[test]
fn the_examples_are_put_in_another_order() {
    let training: Examples = (0..100).map(|i| (reals(&[i as f64]), reals(&[i as f64]))).collect();
    let network = build(1, &[], &[], 1, training, vec![], vec![]).unwrap();
    let order: Vec<i64> = network.training_data.iter().map(|(_, y)| y[0].0 as i64).collect();
    assert_ne!(order, (0..100).collect::<Vec<i64>>());
}

#[test]
fn the_least_value_goes_to_zero_and_the_greatest_to_one() {
    let training = examples(&[(&[3.0, -10.0], &[0.0]), (&[5.0, 20.0], &[1.0])]);
    let validation = examples(&[(&[1.0, 0.0], &[0.0])]);
    let testing = examples(&[(&[9.0, 5.0], &[1.0])]);
    let network = build(2, &[2], &[ActivationFunction::Relu], 1, training, validation, testing).unwrap();
    assert_eq!(
        network.normalization_factors,
        vec![(Real(1.0), Real(9.0)), (Real(-10.0), Real(20.0))]
    );
    assert_eq!(network.validation_data[0].0[0], Real(0.0));
    assert_eq!(network.testing_data[0].0[0], Real(1.0));
    assert_eq!(network.validation_data[0].0[1], Real((0.0 - -10.0) / (20.0 - -10.0)));
    let by_label = |label: f64| {
        network.training_data.iter().find(|(_, y)| y[0].0 == label).unwrap().0.clone()
    };
    assert_eq!(by_label(0.0), reals(&[(3.0 - 1.0) / (9.0 - 1.0), 0.0]));
    assert_eq!(by_label(1.0), reals(&[(5.0 - 1.0) / (9.0 - 1.0), 1.0]));
    for (x, _) in network.training_data.iter().chain(&network.validation_data).chain(&network.testing_data) {
        for v in x {
            assert!(0.0 <= v.0 && v.0 <= 1.0);
        }
    }
}

#[test]
fn a_feature_that_never_changes_goes_to_zero() {
    let training = examples(&[(&[7.0, 1.0], &[0.0]), (&[7.0, 2.0], &[1.0])]);
    let network = build(2, &[2], &[ActivationFunction::Relu], 1, training, vec![], vec![]).unwrap();
    assert_eq!(network.normalization_factors[0], (Real(7.0), Real(7.0)));
    for (x, _) in &network.training_data {
        assert_eq!(x[0], Real(0.0));
    }
    assert_eq!(network.normalize_input(&reals(&[7.0, 1.5])), reals(&[0.0, 0.5]));
    assert_eq!(network.normalize_input(&reals(&[100.0, 1.5])), reals(&[0.0, 0.5]));
}

#[test]
fn normalized_follows_its_formula() {
    assert_eq!(normalized(Real(3.0), Real(1.0), Real(9.0)), Real((3.0 - 1.0) / (9.0 - 1.0)));
    assert_eq!(normalized(Real(1.0), Real(1.0), Real(9.0)), Real(0.0));
    assert_eq!(normalized(Real(9.0), Real(1.0), Real(9.0)), Real(1.0));
    assert_eq!(normalized(Real(11.0), Real(1.0), Real(9.0)), Real(1.25));
    assert_eq!(normalized(Real(4.0), Real(4.0), Real(4.0)), Real(0.0));
}

#[test]
fn a_network_without_data_still_predicts() {
    let network = build(2, &[3], &[ActivationFunction::Relu], 2, vec![], vec![], vec![]).unwrap();
    assert_eq!(
        network.normalization_factors,
        vec![(Real(f64::MAX), Real(f64::MIN)), (Real(f64::MAX), Real(f64::MIN))]
    );
    let outputs = network.predict(&reals(&[0.3, 0.7]));
    assert_eq!(outputs.len(), 2);
    for o in &outputs {
        assert!(o.0.is_finite());
    }
}

#[test]
fn normalize_input_keeps_what_has_no_range() {
    let network = network_of(vec![], &[(0.0, 10.0)], vec![]);
    assert_eq!(network.normalize_input(&reals(&[5.0, 42.0, -1.0])), reals(&[0.5, 42.0, -1.0]));
    assert_eq!(network.normalize_input(&reals(&[])), reals(&[]));
}

#[test]
fn normalize_finds_ranges_and_rescales() {
    let mut network = network_of(vec![], &[], examples(&[(&[2.0, 8.0], &[1.0]), (&[4.0, 6.0], &[0.0])]));
    network.validation_data = examples(&[(&[3.0, 10.0], &[1.0])]);
    network.testing_data = examples(&[(&[0.0, 7.0], &[1.0])]);
    network.normalize(2);
    assert_eq!(network.normalization_factors, vec![(Real(0.0), Real(4.0)), (Real(6.0), Real(10.0))]);
    assert_eq!(network.training_data, examples(&[(&[0.5, 0.5], &[1.0]), (&[1.0, 0.0], &[0.0])]));
    assert_eq!(network.validation_data, examples(&[(&[0.75, 1.0], &[1.0])]));
    assert_eq!(network.testing_data, examples(&[(&[0.0, 0.25], &[1.0])]));
}

#[test]
fn predict_brings_the_inputs_into_range_first() {
    let layers = vec![layer_of(1, LayerType::Output, ActivationFunction::Linear, 0.1, &[(&[2.0, 1.0], 0.5)])];
    let network = network_of(layers, &[(0.0, 10.0), (-1.0, 1.0)], vec![]);
    assert_eq!(network.predict(&reals(&[5.0, 0.0])), reals(&[2.0 * 0.5 + 1.0 * 0.5 - 0.5]));
    assert_eq!(network.predict(&reals(&[5.0, 0.0])), network.predict_normalized(&reals(&[0.5, 0.5])));
}

#[test]
fn predict_twice_gives_the_same_outputs() {
    let functions = [ActivationFunction::Tanh, ActivationFunction::LeakyRelu];
    let network: NeuralNetwork<Real> = NeuralNetwork::new(
        2,
        vec![8, 4],
        &functions,
        3,
        ActivationFunction::Softmax,
        Real(0.1),
        examples(&[(&[0.0, 1.0], &[1.0, 0.0, 0.0]), (&[2.0, 3.0], &[0.0, 0.0, 1.0])]),
        vec![],
        vec![],
    )
    .unwrap();
    let inputs = reals(&[1.25, 2.5]);
    let first = network.predict(&inputs);
    let second = network.predict(&inputs);
    assert_eq!(first, second);
    assert_eq!(first.len(), 3);
    assert!(close(first.iter().map(|o| o.0).sum::<f64>(), 1.0));
}

#[test]
fn predict_normalized_feeds_each_layer_the_outputs_of_the_one_before() {
    let layers = vec![
        layer_of(1, LayerType::Hidden, ActivationFunction::Relu, 0.1, &[(&[1.0, -1.0], 0.0), (&[-1.0, 1.0], 0.0)]),
        layer_of(2, LayerType::Output, ActivationFunction::Linear, 0.1, &[(&[2.0, 3.0], 1.0)]),
    ];
    let network = network_of(layers, &[(0.0, 1.0), (0.0, 1.0)], vec![]);
    assert_eq!(network.predict_normalized(&reals(&[0.75, 0.25])), reals(&[2.0 * 0.5 + 3.0 * 0.0 - 1.0]));
    assert_eq!(network.predict_normalized(&reals(&[0.25, 0.75])), reals(&[2.0 * 0.0 + 3.0 * 0.5 - 1.0]));
    let none = network_of(vec![], &[], vec![]);
    assert_eq!(none.predict_normalized(&reals(&[0.75, 0.25])), reals(&[0.75, 0.25]));
}

#[test]
fn squared_error_adds_the_squared_gaps() {
    assert_eq!(squared_error(&reals(&[1.0, 2.0]), &reals(&[3.0, 1.5])), Real(4.0 + 0.25));
    assert_eq!(squared_error(&reals(&[]), &reals(&[])), Real(0.0));
    assert_eq!(squared_error(&reals(&[1.0, 2.0]), &reals(&[3.0])), Real(4.0));
}

#[test]
fn mean_divides_the_total_by_the_number() {
    assert_eq!(mean(&reals(&[1.0, 2.0, 6.0])), Real(3.0));
    assert!(mean(&reals(&[])).0.is_nan());
}

#[test]
fn the_error_on_one_row_is_the_squared_error_of_the_prediction() {
    let layers = vec![layer_of(1, LayerType::Output, ActivationFunction::Linear, 0.1, &[(&[1.0], 0.0), (&[2.0], 0.0)])];
    let network = network_of(layers, &[(0.0, 1.0)], vec![]);
    assert_eq!(
        network.calculate_mse_for_one_row(&reals(&[3.0]), &reals(&[1.0, 7.0])),
        Real((1.0 - 3.0) * (1.0 - 3.0) + (7.0 - 6.0) * (7.0 - 6.0))
    );
    let data = examples(&[(&[3.0], &[1.0, 7.0]), (&[0.0], &[1.0, 0.0])]);
    assert_eq!(network.calculate_mse(&data), Real((5.0 + 1.0) / 2.0));
}

#[test]
fn one_training_step_returns_its_squared_error() {
    let layers = vec![
        layer_of(1, LayerType::Hidden, ActivationFunction::Linear, 0.1, &[(&[0.5], 0.0)]),
        layer_of(2, LayerType::Output, ActivationFunction::Linear, 0.1, &[(&[2.0], 0.0)]),
    ];
    let mut network = network_of(layers, &[(0.0, 1.0)], examples(&[(&[1.0], &[2.0])]));
    let error = network.iteration(0);
    assert_eq!(error, Real(1.0));
    assert_eq!(network.layers[1].neurons[0].weights, reals(&[2.0 + 0.1 * 0.5 * 1.0]));
    assert_eq!(network.layers[0].neurons[0].weights, reals(&[0.5 + 0.1 * 1.0 * 2.0]));
    assert_eq!(network.layers[1].neurons[0].threshold, Real(0.0 + 0.1 * -1.0 * 1.0));
    assert_eq!(network.layers[0].neurons[0].threshold, Real(0.0 + 0.1 * -1.0 * 2.0));
}

#[test]
fn an_epoch_takes_one_step_on_every_example_in_order() {
    let layers = || {
        vec![
            layer_of(1, LayerType::Hidden, ActivationFunction::Tanh, 0.2, &[(&[0.5, -0.5], 0.1), (&[0.3, 0.8], -0.2)]),
            layer_of(2, LayerType::Output, ActivationFunction::Sigmoid, 0.2, &[(&[1.0, -1.0], 0.0)]),
        ]
    };
    let data = examples(&[(&[0.0, 1.0], &[1.0]), (&[1.0, 0.0], &[0.0]), (&[1.0, 1.0], &[1.0])]);
    let mut stepped = network_of(layers(), &[(0.0, 1.0), (0.0, 1.0)], data.clone());
    let mut sum = 0.0;
    for i in 0..3 {
        sum += stepped.iteration(i).0;
    }
    let mut network = network_of(layers(), &[(0.0, 1.0), (0.0, 1.0)], data.clone());
    network.validation_data = examples(&[(&[0.5, 0.5], &[1.0]), (&[0.2, 0.9], &[0.0])]);
    let (mse, mse_validation) = network.epoch();
    assert_eq!(mse, Real(sum / 3.0));
    assert_eq!(network.mse, mse);
    assert_eq!(network.mse_validation, mse_validation);
    assert_eq!(network.get_parameters(), stepped.get_parameters());
    assert_eq!(mse_validation, stepped.calculate_mse(&network.validation_data));
    assert_eq!(network.training_data, data);
}

#[test]
fn an_epoch_without_examples_moves_nothing() {
    let layers = vec![layer_of(1, LayerType::Output, ActivationFunction::Linear, 0.1, &[(&[0.5], 0.0)])];
    let mut network = network_of(layers, &[(0.0, 1.0)], vec![]);
    let (mse, mse_validation) = network.epoch();
    assert!(mse.0.is_nan());
    assert!(mse_validation.0.is_nan());
    assert_eq!(network.layers[0].neurons[0].weights, reals(&[0.5]));
}

#[test]
fn training_on_separable_data_converges() {
    let layers = vec![
        layer_of(
            1,
            LayerType::Hidden,
            ActivationFunction::Relu,
            0.5,
            &[(&[0.8, -0.3], 0.1), (&[-0.5, 0.6], -0.2), (&[0.4, 0.9], 0.3), (&[-0.7, -0.2], -0.4)],
        ),
        layer_of(2, LayerType::Output, ActivationFunction::Sigmoid, 0.5, &[(&[0.5, -0.6, 0.3, -0.4], 0.1)]),
    ];
    let data = examples(&[
        (&[0.0, 0.0], &[0.0]),
        (&[0.0, 1.0], &[0.0]),
        (&[1.0, 0.0], &[1.0]),
        (&[1.0, 1.0], &[1.0]),
    ]);
    let mut network = network_of(layers, &[(0.0, 1.0), (0.0, 1.0)], data.clone());
    network.validation_data = data;
    let mut mse = f64::MAX;
    for _ in 0..500 {
        mse = network.epoch().0 .0;
    }
    assert!(mse < 0.05);
    assert!(network.mse_validation.0 < 0.05);
    assert!(network.predict(&reals(&[1.0, 0.0]))[0].0 > 0.5);
    assert!(network.predict(&reals(&[0.0, 1.0]))[0].0 < 0.5);
}

#[test]
fn training_two_classes_with_shares_converges() {
    let layers = vec![
        layer_of(
            1,
            LayerType::Hidden,
            ActivationFunction::Tanh,
            0.2,
            &[(&[0.8, -0.3], 0.1), (&[-0.5, 0.6], -0.2), (&[0.4, 0.9], 0.3)],
        ),
        layer_of(
            2,
            LayerType::Output,
            ActivationFunction::Softmax,
            0.2,
            &[(&[0.5, -0.6, 0.3], 0.1), (&[-0.4, 0.2, 0.7], -0.1)],
        ),
    ];
    let data = examples(&[
        (&[0.0, 0.0], &[1.0, 0.0]),
        (&[0.0, 1.0], &[1.0, 0.0]),
        (&[1.0, 0.0], &[0.0, 1.0]),
        (&[1.0, 1.0], &[0.0, 1.0]),
    ]);
    let mut network = network_of(layers, &[(0.0, 1.0), (0.0, 1.0)], data.clone());
    network.testing_data = data;
    let first = network.epoch().0 .0;
    let mut mse = first;
    for _ in 0..500 {
        mse = network.epoch().0 .0;
    }
    assert!(mse < first);
    assert!(mse < 0.05);
    assert_eq!(network.confusion_matrix(), vec![vec![2, 0], vec![0, 2]]);
    assert!(network.cross_entropy_loss().0 < 0.3);
}

#[test]
fn a_built_network_trains_without_failing() {
    let functions = [ActivationFunction::Relu];
    let data = examples(&[
        (&[0.0, 0.0], &[1.0, 0.0]),
        (&[0.0, 3.0], &[1.0, 0.0]),
        (&[5.0, 0.0], &[0.0, 1.0]),
        (&[5.0, 3.0], &[0.0, 1.0]),
    ]);
    let mut network: NeuralNetwork<Real> = NeuralNetwork::new(
        2,
        vec![4],
        &functions,
        2,
        ActivationFunction::Softmax,
        Real(0.1),
        data.clone(),
        data.clone(),
        data,
    )
    .unwrap();
    for _ in 0..20 {
        let (mse, mse_validation) = network.epoch();
        assert!(mse.0.is_finite() && mse_validation.0.is_finite());
    }
    for layer in &network.layers {
        for n in &layer.neurons {
            assert_eq!(n.weights.len(), if layer.layer_id == 1 { 2 } else { 4 });
        }
    }
    let total: usize = network.confusion_matrix().iter().map(|row| row.iter().sum::<usize>()).sum();
    assert_eq!(total, 4);
    assert!(!network.cross_entropy_loss().0.is_nan());
    assert_eq!(floats(&network.training_data[0].1).len(), 2);
}

#[test]
fn the_parameters_of_every_layer_are_exported() {
    let layers = vec![
        layer_of(1, LayerType::Hidden, ActivationFunction::Linear, 0.1, &[(&[0.5], 0.25)]),
        layer_of(2, LayerType::Output, ActivationFunction::Linear, 0.1, &[(&[2.0], 0.0), (&[3.0], 1.0)]),
    ];
    let network = network_of(layers, &[(0.0, 1.0)], vec![]);
    assert_eq!(
        network.get_parameters(),
        vec![
            vec![(reals(&[0.5]), Real(0.25), LayerType::Hidden)],
            vec![
                (reals(&[2.0]), Real(0.0), LayerType::Output),
                (reals(&[3.0]), Real(1.0), LayerType::Output),
            ],
        ]
    );
}

#[test]
fn a_built_network_is_well_formed_and_stays_so() {
    let data = examples(&[(&[0.0, 1.0], &[1.0]), (&[2.0, 3.0], &[0.0])]);
    let mut network =
        build(2, &[3, 2], &[ActivationFunction::Relu, ActivationFunction::Tanh], 1, data.clone(), data.clone(), data)
            .unwrap();
    assert!(network.is_well_formed());
    network.epoch();
    assert!(network.is_well_formed());
    network.forward(1);
    network.backward(1);
    network.commit();
    assert!(network.is_well_formed());
}

#[test]
fn a_broken_network_is_not_well_formed() {
    let good = || {
        network_of(
            vec![
                layer_of(1, LayerType::Hidden, ActivationFunction::Relu, 0.1, &[(&[1.0, 2.0], 0.0), (&[1.0, 2.0], 0.0)]),
                layer_of(2, LayerType::Output, ActivationFunction::Linear, 0.1, &[(&[2.0, 3.0], 1.0)]),
            ],
            &[(0.0, 1.0), (0.0, 1.0)],
            examples(&[(&[0.5, 0.5], &[1.0])]),
        )
    };
    assert!(good().is_well_formed());

    let mut network = good();
    network.layers.clear();
    assert!(!network.is_well_formed());

    let mut network = good();
    network.normalization_factors.clear();
    assert!(!network.is_well_formed());

    let mut network = good();
    network.normalization_factors.pop();
    assert!(!network.is_well_formed());

    let mut network = good();
    network.layers[1].neurons[0].weights.push(Real(0.0));
    assert!(!network.is_well_formed());

    let mut network = good();
    network.layers[0].neurons.clear();
    assert!(!network.is_well_formed());

    let mut network = good();
    network.layers[0].layer_type = LayerType::Output;
    assert!(!network.is_well_formed());

    let mut network = good();
    network.layers[1].layer_type = LayerType::Hidden;
    assert!(!network.is_well_formed());

    let mut network = good();
    network.layers[0].neurons[1].layer_type = LayerType::Error;
    assert!(!network.is_well_formed());

    let mut network = good();
    network.layers[1].activation_function = ActivationFunction::Softmax;
    assert!(!network.is_well_formed());

    let mut network = good();
    network.training_data.push((reals(&[0.5]), reals(&[1.0])));
    assert!(!network.is_well_formed());

    let mut network = good();
    network.validation_data.push((reals(&[0.5, 0.5]), reals(&[1.0, 0.0])));
    assert!(!network.is_well_formed());

    let mut network = good();
    network.testing_data.push((reals(&[0.5, 0.5]), reals(&[])));
    assert!(!network.is_well_formed());
}

fn build_seeded(seed: u64) -> NeuralNetwork<Real> {
    let training: Examples = (0..100).map(|i| (reals(&[i as f64]), reals(&[i as f64]))).collect();
    let validation: Examples = (0..100).map(|i| (reals(&[i as f64]), reals(&[i as f64]))).collect();
    NeuralNetwork::new_seeded(
        1,
        vec![2],
        &[ActivationFunction::Relu],
        1,
        ActivationFunction::Sigmoid,
        Real(0.1),
        training,
        validation,
        vec![],
        seed,
    )
    .unwrap()
}

fn order_of(data: &Examples) -> Vec<i64> {
    data.iter().map(|(_, y)| y[0].0 as i64).collect()
}

#[test]
fn the_same_seed_gives_the_same_network() {
    let first = build_seeded(7);
    let second = build_seeded(7);
    assert_eq!(first.get_parameters(), second.get_parameters());
    assert_ne!(first.get_parameters(), build_seeded(8).get_parameters());
    let inputs = reals(&[12.0]);
    assert_eq!(first.predict(&inputs), second.predict(&inputs));
}

#[test]
fn forward_returns_what_predict_returns() {
    let layers = vec![
        layer_of(
            1,
            LayerType::Hidden,
            ActivationFunction::Softmax,
            0.2,
            &[(&[0.8, -0.3], 0.1), (&[-0.5, 0.6], -0.2), (&[0.4, 0.9], 0.3)],
        ),
        layer_of(2, LayerType::Hidden, ActivationFunction::Tanh, 0.2, &[(&[0.5, -0.6, 0.3], 0.1), (&[1.0, 2.0, -1.0], 0.0)]),
        layer_of(3, LayerType::Output, ActivationFunction::Softmax, 0.2, &[(&[0.5, -0.6], 0.1), (&[-0.4, 0.2], -0.1)]),
    ];
    let data = examples(&[(&[0.25, 0.75], &[1.0, 0.0]), (&[1.0, 0.0], &[0.0, 1.0])]);
    let mut network = network_of(layers, &[(0.0, 1.0), (0.0, 1.0)], data);
    for index in 0..2 {
        let inputs = network.training_data[index].0.clone();
        let predicted = network.predict_normalized(&inputs);
        let before = network.get_parameters();
        let forwarded = network.forward(index);
        assert_eq!(forwarded, predicted);
        assert_eq!(forwarded.len(), 2);
        assert!(close(forwarded[0].0 + forwarded[1].0, 1.0));
        assert_eq!(network.layers[2].current_outputs, forwarded);
        assert_eq!(network.get_parameters(), before);
        assert_eq!(network.predict_normalized(&inputs), predicted);
        let hidden = network.layers[0].current_outputs.clone();
        assert!(close(hidden.iter().map(|o| o.0).sum::<f64>(), 1.0));
        assert_eq!(network.layers[1].current_inputs, hidden);
    }
}

#[test]
fn the_same_seed_gives_the_same_order() {
    let first = build_seeded(7);
    let second = build_seeded(7);
    assert_eq!(first.training_data, second.training_data);
    assert_eq!(first.validation_data, second.validation_data);
    assert_ne!(order_of(&first.training_data), (0..100).collect::<Vec<i64>>());
    assert_ne!(order_of(&first.training_data), order_of(&first.validation_data));
    let mut sorted = order_of(&first.training_data);
    sorted.sort();
    assert_eq!(sorted, (0..100).collect::<Vec<i64>>());
    assert!(first.is_well_formed());
}

#[test]
fn another_seed_gives_another_order() {
    let first = build_seeded(7);
    let second = build_seeded(8);
    assert_ne!(order_of(&first.training_data), order_of(&second.training_data));
}

#[test]
fn a_seeded_network_is_refused_as_any_other() {
    let r: Result<NeuralNetwork<Real>, ConfigurationError> = NeuralNetwork::new_seeded(
        2,
        vec![0],
        &[ActivationFunction::Relu],
        1,
        ActivationFunction::Sigmoid,
        Real(0.1),
        vec![],
        vec![],
        vec![],
        1,
    );
    assert_eq!(error_of(r), Some(ConfigurationError::ZeroWidthLayer));
}
