use neural_network::heatmap::{get_dummy_heatmap_data, get_heatmap_data, heatmap_inputs, GRID_POINTS};
use neural_network::nn::activation_functions::ActivationFunction;
use neural_network::nn::layer::LayerType;
use neural_network::nn::ConfigurationError;
use neural_network::scalar::Scalar;
use neural_network::session::{
    begin_learning, default_network, default_stats, finish_learning, initial_state, learn_epoch,
    predict, publish_results, reset, stop, AppState, ClientState, Progress, Settings,
    SettingsLayer, INPUTS_COUNT,
};
use rand::distributions::{Distribution, Uniform};
use rand::rngs::StdRng;
use rand::SeedableRng;

#[derive(Clone, Copy, Debug, PartialEq)]
struct Real(f64);

impl Scalar for Real {
    fn from_int(value: i32) -> Self {
        Real(value as f64)
    }

    fn from_count(n: usize) -> Self {
        Real(n as f64)
    }

    fn greatest() -> Self {
        Real(f64::MAX)
    }

    fn least() -> Self {
        Real(f64::MIN)
    }

    fn plus(self, rhs: Self) -> Self {
        Real(self.0 + rhs.0)
    }

    fn minus(self, rhs: Self) -> Self {
        Real(self.0 - rhs.0)
    }

    fn times(self, rhs: Self) -> Self {
        Real(self.0 * rhs.0)
    }

    fn over(self, rhs: Self) -> Self {
        Real(self.0 / rhs.0)
    }

    fn exp(self) -> Self {
        Real(self.0.exp())
    }

    fn ln(self) -> Self {
        Real(self.0.ln())
    }

    fn tanh(self) -> Self {
        Real(self.0.tanh())
    }

    fn larger(self, rhs: Self) -> Self {
        Real(f64::max(self.0, rhs.0))
    }

    fn below(self, rhs: Self) -> bool {
        self.0 < rhs.0
    }

    fn same(self, rhs: Self) -> bool {
        self.0 == rhs.0
    }

    fn uniform(low: Self, high: Self, draw: u64) -> Self {
        if low.0 < high.0 && (high.0 - low.0).is_finite() {
            Real(Uniform::new(low.0, high.0).sample(&mut StdRng::seed_from_u64(draw)))
        } else {
            low
        }
    }
}

fn reals(values: &[f64]) -> Vec<Real> {
    values.iter().map(|v| Real(*v)).collect()
}

fn floats(values: &[Real]) -> Vec<f64> {
    values.iter().map(|v| v.0).collect()
}

fn close(a: f64, b: f64) -> bool {
    (a - b).abs() < 1e-12
}

fn rows(rows: &[&[f64]]) -> Vec<Vec<Real>> {
    rows.iter().map(|r| reals(r)).collect()
}

fn settings(hidden: &[usize], outputs: usize, training: Vec<Vec<Real>>) -> Settings<Real> {
    Settings {
        layers_count: hidden.len(),
        hidden_layers: hidden
            .iter()
            .map(|n| SettingsLayer { neurons_count: *n, activation_function: ActivationFunction::Relu })
            .collect(),
        output_layer: SettingsLayer { neurons_count: outputs, activation_function: ActivationFunction::Softmax },
        alpha: Real(0.1),
        max_epochs: 10,
        desired_mse: Real(0.01),
        training_data: training.clone(),
        validation_data: training.clone(),
        testing_data: training,
        noise: Real(0.0),
        density: Real(0.0),
        scale: (Real(0.0), Real(1.0)),
    }
}

fn two_classes() -> Vec<Vec<Real>> {
    rows(&[
        &[0.0, 0.0, 1.0, 0.0],
        &[0.0, 4.0, 1.0, 0.0],
        &[1.0, 2.0, 1.0, 0.0],
        &[8.0, 0.0, 0.0, 1.0],
        &[9.0, 4.0, 0.0, 1.0],
        &[10.0, 2.0, 0.0, 1.0],
    ])
}

fn is_blank(stats: &ClientState<Real>) -> bool {
    stats.mse.is_none()
        && stats.mse_validation.is_none()
        && stats.mse_history.is_none()
        && stats.mse_validation_history.is_none()
        && stats.epoch.is_none()
        && stats.confusion_matrix.is_none()
        && stats.cross_entropy_loss.is_none()
        && stats.predicted.is_none()
        && stats.parameters.is_none()
        && stats.heatmap == Some(vec![reals(&[0.0, 0.0]); 2500])
}

fn ready() -> AppState<Real> {
    let mut state = initial_state();
    assert_eq!(reset(&mut state, settings(&[4], 2, two_classes())), Ok(()));
    state
}

#[test]
fn the_grid_has_fifty_rows_of_fifty_points() {
    let grid: Vec<Vec<Real>> = heatmap_inputs();
    assert_eq!(GRID_POINTS, 2500);
    assert_eq!(grid.len(), 2500);
    assert_eq!(grid[0], reals(&[0.0, 0.0]));
    assert_eq!(grid[1], reals(&[2.0, 0.0]));
    assert_eq!(grid[24], reals(&[48.0, 0.0]));
    assert_eq!(grid[25], reals(&[50.0, 1.0]));
    assert_eq!(grid[49], reals(&[98.0, 1.0]));
    assert_eq!(grid[50], reals(&[0.0, 2.0]));
    assert_eq!(grid[51], reals(&[2.0, 2.0]));
    assert_eq!(grid[2499], reals(&[98.0, 99.0]));
    for (i, point) in grid.iter().enumerate() {
        let across = (i as f64) % 50.0 * 2.0;
        let along = ((i as f64) / 50.0 * 2.0).floor();
        assert_eq!(floats(point), vec![across, along]);
    }
}

#[test]
fn the_dummy_heatmap_is_all_zero() {
    let heatmap: Vec<Vec<Real>> = get_dummy_heatmap_data();
    assert_eq!(heatmap, vec![reals(&[0.0, 0.0]); 2500]);
}

#[test]
fn the_heatmap_holds_the_prediction_for_every_point() {
    let state = ready();
    let heatmap = get_heatmap_data(&state.nn);
    let grid: Vec<Vec<Real>> = heatmap_inputs();
    assert_eq!(heatmap.len(), 2500);
    for (point, outputs) in grid.iter().zip(&heatmap) {
        assert_eq!(outputs, &state.nn.predict(point));
        assert_eq!(outputs.len(), 2);
    }
    assert_ne!(heatmap, grid);
}

#[test]
fn a_session_starts_with_the_default_network_and_nothing_to_show() {
    let state: AppState<Real> = initial_state();
    assert_eq!(INPUTS_COUNT, 2);
    assert!(!state.client_state.is_learning);
    assert!(is_blank(&state.client_state));
    assert!(is_blank(&default_stats()));
    let widths: Vec<usize> = state.nn.layers.iter().map(|l| l.neurons.len()).collect();
    assert_eq!(widths, vec![8, 4, 2]);
    assert_eq!(state.nn.layers[0].neurons[0].weights.len(), 2);
    assert_eq!(state.nn.layers[0].activation_function, ActivationFunction::Relu);
    assert_eq!(state.nn.layers[1].activation_function, ActivationFunction::Relu);
    assert_eq!(state.nn.layers[2].activation_function, ActivationFunction::Softmax);
    assert_eq!(state.nn.layers[2].layer_type, LayerType::Output);
    assert_eq!(state.nn.layers[0].neurons[0].alpha, Real(0.1));
    assert!(state.nn.training_data.is_empty());
    let network: neural_network::nn::NeuralNetwork<Real> = default_network();
    assert_eq!(network.layers.len(), 3);
}

#[test]
fn predict_works_before_any_reset() {
    let mut state: AppState<Real> = initial_state();
    predict(&mut state, &reals(&[10.0, 20.0]));
    let shown = state.client_state.predicted.clone().unwrap();
    assert_eq!(shown.len(), 2);
    assert!(close(shown[0].0 + shown[1].0, 1.0));
    assert_eq!(shown, state.nn.predict(&reals(&[10.0, 20.0])));
}

#[test]
fn reset_builds_the_network_that_was_asked_for() {
    let mut state: AppState<Real> = initial_state();
    state.client_state.is_learning = true;
    state.client_state.epoch = Some(4);
    assert_eq!(reset(&mut state, settings(&[5, 3], 2, two_classes())), Ok(()));
    let widths: Vec<usize> = state.nn.layers.iter().map(|l| l.neurons.len()).collect();
    assert_eq!(widths, vec![5, 3, 2]);
    assert_eq!(state.nn.training_data.len(), 6);
    assert_eq!(state.nn.validation_data.len(), 6);
    assert_eq!(state.nn.testing_data.len(), 6);
    for (x, y) in &state.nn.training_data {
        assert_eq!(x.len(), 2);
        assert_eq!(y.len(), 2);
        assert_eq!(y[0].0 + y[1].0, 1.0);
        assert_eq!(y[1].0 == 1.0, x[0].0 >= 0.8);
    }
    assert_eq!(state.nn.normalization_factors, vec![(Real(0.0), Real(10.0)), (Real(0.0), Real(4.0))]);
    assert!(!state.client_state.is_learning);
    assert!(is_blank(&state.client_state));
}

#[test]
fn a_reset_that_cannot_be_met_leaves_the_session() {
    let mut state = ready();
    state.client_state.epoch = Some(3);
    let before = state.nn.get_parameters();
    assert_eq!(
        reset(&mut state, settings(&[4], 3, two_classes())),
        Err(ConfigurationError::LabelWidthMismatch)
    );
    assert_eq!(
        reset(&mut state, settings(&[0], 2, two_classes())),
        Err(ConfigurationError::ZeroWidthLayer)
    );
    assert_eq!(
        reset(&mut state, settings(&[4], 0, two_classes())),
        Err(ConfigurationError::ZeroWidthLayer)
    );
    assert_eq!(
        reset(&mut state, settings(&[4], 2, rows(&[&[1.0]]))),
        Err(ConfigurationError::LabelWidthMismatch)
    );
    assert_eq!(
        reset(&mut state, settings(&[4], 1, rows(&[&[1.0, 2.0, 0.0], &[1.0]]))),
        Err(ConfigurationError::LabelWidthMismatch)
    );
    assert_eq!(state.nn.get_parameters(), before);
    assert_eq!(state.client_state.epoch, Some(3));
    assert_eq!(state.nn.training_data.len(), 6);
}

#[test]
fn learning_begins_with_nothing_to_show() {
    let mut state = ready();
    state.client_state.epoch = Some(3);
    let before = state.nn.get_parameters();
    begin_learning(&mut state);
    assert!(state.client_state.is_learning);
    assert!(is_blank(&state.client_state));
    assert_eq!(state.nn.get_parameters(), before);
}

#[test]
fn a_step_of_learning_runs_one_epoch_and_shows_it() {
    let mut state = ready();
    begin_learning(&mut state);
    let mut twin = state.nn.clone();
    let progress = learn_epoch(&mut state, 0, 1000, Real(-1.0));
    let (mse, mse_validation) = twin.epoch();
    assert_eq!(progress, Progress::Continue);
    assert_eq!(state.nn.get_parameters(), twin.get_parameters());
    assert_eq!(state.client_state.epoch, Some(0));
    assert_eq!(state.client_state.mse, Some(mse));
    assert_eq!(state.client_state.mse_validation, Some(mse_validation));
    assert_eq!(state.client_state.mse_history, Some(vec![mse]));
    assert_eq!(state.client_state.mse_validation_history, Some(vec![mse_validation]));
    assert_eq!(state.client_state.heatmap, Some(get_heatmap_data(&state.nn)));
    assert!(state.client_state.is_learning);
    assert!(state.client_state.confusion_matrix.is_none());

    let progress = learn_epoch(&mut state, 1, 1000, Real(-1.0));
    let (second, second_validation) = twin.epoch();
    assert_eq!(progress, Progress::Continue);
    assert_eq!(state.client_state.epoch, Some(1));
    assert_eq!(state.client_state.mse_history, Some(vec![mse, second]));
    assert_eq!(state.client_state.mse_validation_history, Some(vec![mse_validation, second_validation]));
}

#[test]
fn learning_ends_once_the_error_is_small_enough() {
    let mut state = ready();
    begin_learning(&mut state);
    assert_eq!(learn_epoch(&mut state, 0, 1000, Real(1e9)), Progress::Reached);
    let mse = state.client_state.mse.unwrap();
    let mut state = ready();
    begin_learning(&mut state);
    let mut twin = state.nn.clone();
    let exact = twin.epoch().0;
    assert_eq!(learn_epoch(&mut state, 0, 1000, exact), Progress::Reached);
    assert!(mse.0.is_finite());
}

#[test]
fn a_step_without_learning_does_nothing() {
    let mut state = ready();
    let before = state.nn.get_parameters();
    assert_eq!(learn_epoch(&mut state, 0, 1000, Real(0.0)), Progress::Stopped);
    assert_eq!(state.nn.get_parameters(), before);
    assert!(is_blank(&state.client_state));
}

#[test]
fn a_stop_is_seen_by_the_next_step() {
    let mut state = ready();
    begin_learning(&mut state);
    assert_eq!(learn_epoch(&mut state, 0, 1000, Real(-1.0)), Progress::Continue);
    stop(&mut state);
    assert!(!state.client_state.is_learning);
    let weights = state.nn.get_parameters();
    let shown = state.client_state.mse_history.clone();
    assert_eq!(learn_epoch(&mut state, 1, 1000, Real(-1.0)), Progress::Stopped);
    assert_eq!(state.nn.get_parameters(), weights);
    assert_eq!(state.client_state.mse_history, shown);
    assert_eq!(state.client_state.epoch, Some(0));
    stop(&mut state);
    assert!(!state.client_state.is_learning);
    assert_eq!(learn_epoch(&mut state, 2, 1000, Real(-1.0)), Progress::Stopped);
    assert_eq!(state.nn.get_parameters(), weights);
}

#[test]
fn every_example_of_a_finished_epoch_is_committed() {
    let mut state = ready();
    begin_learning(&mut state);
    let mut twin = state.nn.clone();
    learn_epoch(&mut state, 0, 1000, Real(-1.0));
    stop(&mut state);
    for i in 0..twin.training_data.len() {
        twin.forward(i);
        twin.backward(i);
        twin.commit();
    }
    assert_eq!(state.nn.get_parameters(), twin.get_parameters());
}

#[test]
fn the_results_are_published_when_learning_ends() {
    let mut state = ready();
    begin_learning(&mut state);
    learn_epoch(&mut state, 0, 1000, Real(-1.0));
    finish_learning(&mut state);
    assert!(!state.client_state.is_learning);
    assert_eq!(state.client_state.confusion_matrix, Some(state.nn.confusion_matrix()));
    assert_eq!(state.client_state.cross_entropy_loss, Some(state.nn.cross_entropy_loss()));
    assert_eq!(state.client_state.parameters, Some(state.nn.get_parameters()));
    assert_eq!(state.client_state.epoch, Some(0));
    let matrix = state.client_state.confusion_matrix.clone().unwrap();
    assert_eq!(matrix.len(), 2);
    assert_eq!(matrix.iter().map(|r| r.iter().sum::<usize>()).sum::<usize>(), 6);
}

#[test]
fn publishing_keeps_learning_as_it_is() {
    let mut state = ready();
    begin_learning(&mut state);
    publish_results(&mut state);
    assert!(state.client_state.is_learning);
    assert!(state.client_state.confusion_matrix.is_some());
    assert!(state.client_state.cross_entropy_loss.is_some());
    assert_eq!(state.client_state.parameters, Some(state.nn.get_parameters()));
}

#[test]
fn no_more_epochs_are_run_than_were_asked_for() {
    let mut state = ready();
    begin_learning(&mut state);
    assert_eq!(learn_epoch(&mut state, 0, 2, Real(-1.0)), Progress::Continue);
    assert_eq!(learn_epoch(&mut state, 1, 2, Real(-1.0)), Progress::Continue);
    let weights = state.nn.get_parameters();
    assert_eq!(learn_epoch(&mut state, 2, 2, Real(-1.0)), Progress::Exhausted);
    assert_eq!(learn_epoch(&mut state, 3, 2, Real(1e9)), Progress::Exhausted);
    assert_eq!(state.nn.get_parameters(), weights);
    assert_eq!(state.client_state.epoch, Some(1));
    assert_eq!(state.client_state.mse_history.as_ref().unwrap().len(), 2);
    assert!(state.client_state.is_learning);

    let mut state = ready();
    begin_learning(&mut state);
    let weights = state.nn.get_parameters();
    assert_eq!(learn_epoch(&mut state, 0, 0, Real(1e9)), Progress::Exhausted);
    assert_eq!(state.nn.get_parameters(), weights);
    stop(&mut state);
    assert_eq!(learn_epoch(&mut state, 0, 0, Real(1e9)), Progress::Stopped);
}

#[test]
fn predict_shows_the_outputs() {
    let mut state = ready();
    predict(&mut state, &reals(&[5.0, 2.0]));
    assert_eq!(state.client_state.predicted, Some(state.nn.predict(&reals(&[5.0, 2.0]))));
    assert_eq!(state.client_state.predicted, Some(state.nn.predict_normalized(&reals(&[0.5, 0.5]))));
}

#[test]
fn a_loop_of_steps_learns_two_classes() {
    let mut state = ready();
    begin_learning(&mut state);
    let mut epochs = 0;
    for epoch in 0..300 {
        match learn_epoch(&mut state, epoch, 1000, Real(0.02)) {
            Progress::Continue => epochs += 1,
            Progress::Reached => {
                epochs += 1;
                break;
            }
            Progress::Stopped | Progress::Exhausted => unreachable!(),
        }
    }
    finish_learning(&mut state);
    assert_eq!(state.client_state.mse_history.as_ref().unwrap().len(), epochs);
    assert_eq!(state.client_state.epoch, Some(epochs - 1));
    let first = state.client_state.mse_history.as_ref().unwrap()[0].0;
    let last = state.client_state.mse.unwrap().0;
    assert!(last.is_finite() && first.is_finite());
}
