//! One session of the trainer: the network, what the client is shown of it, and the
//! steps that reset, learning, stopping and predicting take.
//!
//! Every step takes the session whole. Whoever runs the steps holds the session for
//! the length of one step and lets go of it between two: a stop that is asked for
//! while an epoch runs is seen when the next step starts.

use vstd::prelude::*;
use crate::scalar::{Scalar, is_below, is_same, is_ratio, ratio};
use crate::dataset::{cut, split_examples};
use crate::heatmap::{get_dummy_heatmap_data, get_heatmap_data, is_dummy_heatmap, is_heatmap};
use crate::nn::{ConfigurationError, NeuralNetwork};
use crate::nn::construction::configuration_error;
use crate::nn::activation_functions::ActivationFunction;
use crate::nn::layer::LayerType;
use crate::nn::metrics::is_cross_entropy;

verus! {

/// The number of inputs of the networks of a session.
pub const INPUTS_COUNT: usize = 2;

/// What the client is shown.
#[derive(Clone)]
pub struct ClientState<T: Scalar> {
    pub is_learning: bool,
    pub mse: Option<T>,
    pub mse_validation: Option<T>,
    pub mse_history: Option<Vec<T>>,
    pub mse_validation_history: Option<Vec<T>>,
    pub epoch: Option<usize>,
    pub confusion_matrix: Option<Vec<Vec<usize>>>,
    pub cross_entropy_loss: Option<T>,
    pub predicted: Option<Vec<T>>,
    pub parameters: Option<Vec<Vec<(Vec<T>, T, LayerType)>>>,
    pub heatmap: Option<Vec<Vec<T>>>,
}

/// The width and the activation function of one layer.
#[derive(Debug, Clone, Copy)]
pub struct SettingsLayer {
    pub neurons_count: usize,
    pub activation_function: ActivationFunction,
}

/// What the client asks a new network to be.
pub struct Settings<T: Scalar> {
    pub layers_count: usize,
    pub hidden_layers: Vec<SettingsLayer>,
    pub output_layer: SettingsLayer,
    pub alpha: T,
    pub max_epochs: usize,
    pub desired_mse: T,
    /// Rows of values: the inputs first, then the wanted outputs.
    pub training_data: Vec<Vec<T>>,
    pub validation_data: Vec<Vec<T>>,
    pub testing_data: Vec<Vec<T>>,
    pub noise: T,
    pub density: T,
    pub scale: (T, T),
}

/// The network and what the client is shown of it.
#[derive(Clone)]
pub struct AppState<T: Scalar> {
    pub nn: NeuralNetwork<T>,
    pub client_state: ClientState<T>,
}

/// What a step of learning tells the loop that runs it.
#[derive(Debug, Clone, Copy, PartialEq, Eq, Structural)]
pub enum Progress {
    /// A stop was asked for: no epoch was run, and none is to follow.
    Stopped,
    /// The epochs that were asked for have all been run: none was run now, and none
    /// is to follow.
    Exhausted,
    /// An epoch was run and the error is as small as was wanted: none is to follow.
    Reached,
    /// An epoch was run: the next may follow.
    Continue,
}

/// The values recorded so far.
pub open spec fn past<T>(history: Option<Vec<T>>) -> Seq<T> {
    match history {
        Some(values) => values@,
        None => Seq::empty(),
    }
}

/// The width of each layer of `layers`.
pub open spec fn widths_of(layers: Seq<SettingsLayer>) -> Seq<usize> {
    Seq::new(layers.len(), |l: int| layers[l].neurons_count)
}

/// The activation function of each layer of `layers`.
pub open spec fn functions_of(layers: Seq<SettingsLayer>) -> Seq<ActivationFunction> {
    Seq::new(layers.len(), |l: int| layers[l].activation_function)
}

/// `examples` holds each row of `rows` cut after `inputs_count` values.
pub open spec fn is_split<T>(
    rows: Seq<Vec<T>>,
    inputs_count: usize,
    examples: Seq<(Vec<T>, Vec<T>)>,
) -> bool {
    &&& examples.len() == rows.len()
    &&& forall|e: int|
        0 <= e < rows.len() ==> {
            &&& (#[trigger] examples[e]).0@ == rows[e]@.take(cut(rows[e]@, inputs_count))
            &&& examples[e].1@ == rows[e]@.skip(cut(rows[e]@, inputs_count))
        }
}

/// `reached` can answer whether `mse <= desired`: `lower` can answer whether it is
/// below, and where it is not, `reached` can answer whether the two are the same.
pub open spec fn is_at_most_via<T: Scalar>(mse: T, desired: T, lower: bool, reached: bool) -> bool {
    &&& is_below(mse, desired, lower)
    &&& if lower {
        reached
    } else {
        is_same(mse, desired, reached)
    }
}

/// `reached` can answer whether `mse <= desired`.
pub open spec fn is_at_most<T: Scalar>(mse: T, desired: T, reached: bool) -> bool {
    exists|lower: bool| #[trigger] is_at_most_via(mse, desired, lower, reached)
}

impl<T: Scalar> ClientState<T> {
    /// Nothing is shown but the picture of a network that has learnt nothing, and
    /// learning is on or off as `learning` says.
    pub open spec fn is_blank(self, learning: bool) -> bool {
        &&& self.is_learning == learning
        &&& self.mse is None
        &&& self.mse_validation is None
        &&& self.mse_history is None
        &&& self.mse_validation_history is None
        &&& self.epoch is None
        &&& self.confusion_matrix is None
        &&& self.cross_entropy_loss is None
        &&& self.predicted is None
        &&& self.parameters is None
        &&& self.heatmap matches Some(heatmap)
        &&& is_dummy_heatmap(heatmap@)
    }

    /// `other` shows the progress of learning that `self` shows.
    pub open spec fn same_progress(self, other: Self) -> bool {
        &&& other.mse == self.mse
        &&& other.mse_validation == self.mse_validation
        &&& other.mse_history == self.mse_history
        &&& other.mse_validation_history == self.mse_validation_history
        &&& other.epoch == self.epoch
        &&& other.heatmap == self.heatmap
    }

    /// `other` shows the results that `self` shows.
    pub open spec fn same_results(self, other: Self) -> bool {
        &&& other.confusion_matrix == self.confusion_matrix
        &&& other.cross_entropy_loss == self.cross_entropy_loss
        &&& other.parameters == self.parameters
    }
}

impl<T: Scalar> AppState<T> {
    /// `after` can be this session after a reset with `settings`, answered by
    /// `result`; the three sequences hold the rows of `settings` cut into examples.
    /// Where no network can be built, the session stays as it is.
    pub open spec fn resets_via(
        self,
        settings: Settings<T>,
        training: Seq<(Vec<T>, Vec<T>)>,
        validation: Seq<(Vec<T>, Vec<T>)>,
        testing: Seq<(Vec<T>, Vec<T>)>,
        after: Self,
        result: Result<(), ConfigurationError>,
    ) -> bool {
        &&& is_split(settings.training_data@, INPUTS_COUNT, training)
        &&& is_split(settings.validation_data@, INPUTS_COUNT, validation)
        &&& is_split(settings.testing_data@, INPUTS_COUNT, testing)
        &&& match configuration_error(
            INPUTS_COUNT,
            widths_of(settings.hidden_layers@),
            functions_of(settings.hidden_layers@),
            settings.output_layer.neurons_count,
            training,
            validation,
            testing,
        ) {
            Some(error) => result == Err::<(), ConfigurationError>(error) && after == self,
            None => {
                &&& result == Ok::<(), ConfigurationError>(())
                &&& after.nn.wf()
                &&& after.nn.is_built(
                    INPUTS_COUNT,
                    widths_of(settings.hidden_layers@),
                    functions_of(settings.hidden_layers@),
                    settings.output_layer.neurons_count,
                    settings.output_layer.activation_function,
                    settings.alpha,
                    training,
                    validation,
                    testing,
                )
                &&& after.client_state.is_blank(false)
            },
        }
    }

    /// `after` can be this session after a reset with `settings`, answered by
    /// `result`.
    pub open spec fn resets(
        self,
        settings: Settings<T>,
        after: Self,
        result: Result<(), ConfigurationError>,
    ) -> bool {
        exists|
            training: Seq<(Vec<T>, Vec<T>)>,
            validation: Seq<(Vec<T>, Vec<T>)>,
            testing: Seq<(Vec<T>, Vec<T>)>,
        | #[trigger] self.resets_via(settings, training, validation, testing, after, result)
    }

    /// `after` can be this session after a stop was asked for: learning is off, and
    /// nothing else has changed.
    pub open spec fn stops(self, after: Self) -> bool {
        &&& after.nn == self.nn
        &&& !after.client_state.is_learning
        &&& self.client_state.same_progress(after.client_state)
        &&& self.client_state.same_results(after.client_state)
        &&& after.client_state.predicted == self.client_state.predicted
    }

    /// `after` can be this session after one step of learning, the epoch `epoch` of at
    /// most `max_epoch_count`, and `progress` what the step tells. Where learning is
    /// off, or `max_epoch_count` epochs have been run, nothing changes. Elsewhere the
    /// network goes through one whole epoch; the client is shown the number of the
    /// epoch, its two errors, each added to its history, and the picture of the
    /// network after the epoch; and learning has reached its aim where `reached`
    /// says so, which can answer whether the error of the epoch is at most
    /// `desired_mse`.
    pub open spec fn learns_via(
        self,
        epoch: usize,
        max_epoch_count: usize,
        desired_mse: T,
        reached: bool,
        after: Self,
        progress: Progress,
    ) -> bool {
        if !self.client_state.is_learning {
            after == self && progress == Progress::Stopped
        } else if epoch >= max_epoch_count {
            after == self && progress == Progress::Exhausted
        } else {
            &&& self.nn.epochs(after.nn)
            &&& after.client_state.is_learning
            &&& after.client_state.epoch == Some(epoch)
            &&& after.client_state.mse == Some(after.nn.mse)
            &&& after.client_state.mse_validation == Some(after.nn.mse_validation)
            &&& after.client_state.mse_history is Some
            &&& past(after.client_state.mse_history) == past(self.client_state.mse_history).push(
                after.nn.mse,
            )
            &&& after.client_state.mse_validation_history is Some
            &&& past(after.client_state.mse_validation_history) == past(
                self.client_state.mse_validation_history,
            ).push(after.nn.mse_validation)
            &&& after.client_state.heatmap matches Some(heatmap)
            &&& is_heatmap(after.nn, heatmap@)
            &&& self.client_state.same_results(after.client_state)
            &&& after.client_state.predicted == self.client_state.predicted
            &&& is_at_most(after.nn.mse, desired_mse, reached)
            &&& progress == if reached {
                Progress::Reached
            } else {
                Progress::Continue
            }
        }
    }

    /// `after` can be this session after one step of learning, and `progress` what
    /// the step tells.
    pub open spec fn learns(
        self,
        epoch: usize,
        max_epoch_count: usize,
        desired_mse: T,
        after: Self,
        progress: Progress,
    ) -> bool {
        exists|reached: bool| #[trigger]
            self.learns_via(epoch, max_epoch_count, desired_mse, reached, after, progress)
    }

    /// `after` can be this session once the results of its network were published:
    /// the confusion matrix on the testing data, the cross-entropy loss on the
    /// training data, and the weights and thresholds. Nothing else has changed.
    pub open spec fn publishes(self, after: Self) -> bool {
        &&& after.nn == self.nn
        &&& after.client_state.is_learning == self.client_state.is_learning
        &&& self.client_state.same_progress(after.client_state)
        &&& after.client_state.predicted == self.client_state.predicted
        &&& after.client_state.confusion_matrix matches Some(matrix)
        &&& self.nn.is_confusion_matrix(matrix@)
        &&& after.client_state.cross_entropy_loss matches Some(loss)
        &&& is_cross_entropy(self.nn.layers@, self.nn.training_data@, loss)
        &&& after.client_state.parameters matches Some(parameters)
        &&& self.nn.has_parameters(parameters@)
    }

    /// `after` can be this session after the outputs for `inputs` were asked for:
    /// they are shown, and nothing else has changed.
    pub open spec fn shows_prediction(self, inputs: Seq<T>, after: Self) -> bool {
        &&& after.nn == self.nn
        &&& after.client_state.is_learning == self.client_state.is_learning
        &&& self.client_state.same_progress(after.client_state)
        &&& self.client_state.same_results(after.client_state)
        &&& after.client_state.predicted matches Some(outputs)
        &&& self.nn.predicts(inputs, outputs@)
    }
}

/// What the client is shown before anything has happened.
pub fn default_stats<T: Scalar>() -> (stats: ClientState<T>)
    ensures
        stats.is_blank(false),
{
    ClientState {
        is_learning: false,
        epoch: None,
        mse: None,
        mse_validation: None,
        mse_history: None,
        mse_validation_history: None,
        cross_entropy_loss: None,
        confusion_matrix: None,
        predicted: None,
        parameters: None,
        heatmap: Some(get_dummy_heatmap_data()),
    }
}

/// `network` can be the network of a session that was never reset: two inputs,
/// hidden layers of eight and of four rectifiers, two outputs that share one, a
/// learning rate of a tenth, and no data.
pub open spec fn is_default_network<T: Scalar>(network: NeuralNetwork<T>) -> bool {
    exists|alpha: T| #[trigger]
        is_ratio(1, 10, alpha) && network.is_built(
            INPUTS_COUNT,
            seq![8usize, 4usize],
            seq![ActivationFunction::Relu, ActivationFunction::Relu],
            2,
            ActivationFunction::Softmax,
            alpha,
            Seq::empty(),
            Seq::empty(),
            Seq::empty(),
        )
}

/// The network of a session that was never reset: two inputs, hidden layers of eight
/// and of four rectifiers, two outputs that share one, a learning rate of a tenth,
/// and no data.
pub fn default_network<T: Scalar>() -> (network: NeuralNetwork<T>)
    ensures
        network.wf(),
        is_default_network(network),
{
    let mut topology: Vec<usize> = Vec::new();
    topology.push(8);
    topology.push(4);
    let mut functions: Vec<ActivationFunction> = Vec::new();
    functions.push(ActivationFunction::Relu);
    functions.push(ActivationFunction::Relu);
    let alpha = ratio::<T>(1, 10);
    assert(topology@ == seq![8usize, 4usize]);
    assert(functions@ == seq![ActivationFunction::Relu, ActivationFunction::Relu]);
    let result = NeuralNetwork::new(
        INPUTS_COUNT,
        topology,
        functions.as_slice(),
        2,
        ActivationFunction::Softmax,
        alpha,
        Vec::new(),
        Vec::new(),
        Vec::new(),
    );
    match result {
        Ok(network) => {
            assert(is_ratio(1, 10, alpha) && network.is_built(
                INPUTS_COUNT,
                seq![8usize, 4usize],
                seq![ActivationFunction::Relu, ActivationFunction::Relu],
                2,
                ActivationFunction::Softmax,
                alpha,
                Seq::empty(),
                Seq::empty(),
                Seq::empty(),
            ));
            network
        },
        Err(_) => vstd::pervasive::unreached(),
    }
}

/// The session before anything has happened: the network of a session that was
/// never reset, and nothing to show.
pub fn initial_state<T: Scalar>() -> (state: AppState<T>)
    ensures
        state.nn.wf(),
        is_default_network(state.nn),
        state.client_state.is_blank(false),
{
    AppState { nn: default_network(), client_state: default_stats() }
}

/// Replaces the network by one built from `settings`, and shows the client nothing
/// but the picture of a network that has learnt nothing. Where no network can be
/// built from `settings`, the session stays as it is and the reason is returned.
pub fn reset<T: Scalar>(state: &mut AppState<T>, settings: Settings<T>) -> (result: Result<
    (),
    ConfigurationError,
>)
    requires
        settings.hidden_layers@.len() < usize::MAX,
    ensures
        old(state).resets(settings, *final(state), result),
        old(state).nn.wf() ==> final(state).nn.wf(),
{
    let mut topology: Vec<usize> = Vec::new();
    let mut functions: Vec<ActivationFunction> = Vec::new();
    let mut l: usize = 0;
    while l < settings.hidden_layers.len()
        invariant
            l <= settings.hidden_layers@.len(),
            topology@ == widths_of(settings.hidden_layers@.take(l as int)),
            functions@ == functions_of(settings.hidden_layers@.take(l as int)),
        decreases settings.hidden_layers@.len() - l,
    {
        topology.push(settings.hidden_layers[l].neurons_count);
        functions.push(settings.hidden_layers[l].activation_function);
        assert(settings.hidden_layers@.take(l + 1) == settings.hidden_layers@.take(l as int).push(
            settings.hidden_layers@[l as int],
        ));
        assert(topology@ == widths_of(settings.hidden_layers@.take(l + 1)));
        assert(functions@ == functions_of(settings.hidden_layers@.take(l + 1)));
        l = l + 1;
    }
    assert(settings.hidden_layers@.take(l as int) == settings.hidden_layers@);
    let training = split_examples(&settings.training_data, INPUTS_COUNT);
    let validation = split_examples(&settings.validation_data, INPUTS_COUNT);
    let testing = split_examples(&settings.testing_data, INPUTS_COUNT);
    let ghost given_training = training@;
    let ghost given_validation = validation@;
    let ghost given_testing = testing@;
    let built = NeuralNetwork::new(
        INPUTS_COUNT,
        topology,
        functions.as_slice(),
        settings.output_layer.neurons_count,
        settings.output_layer.activation_function,
        settings.alpha,
        training,
        validation,
        testing,
    );
    match built {
        Ok(network) => {
            state.nn = network;
            state.client_state = default_stats();
            assert(old(state).resets_via(
                settings,
                given_training,
                given_validation,
                given_testing,
                *state,
                Ok(()),
            ));
            Ok(())
        },
        Err(error) => {
            assert(old(state).resets_via(
                settings,
                given_training,
                given_validation,
                given_testing,
                *state,
                Err(error),
            ));
            Err(error)
        },
    }
}

/// Turns learning on and shows the client nothing but the picture of a network that
/// has learnt nothing. The network stays as it is.
pub fn begin_learning<T: Scalar>(state: &mut AppState<T>)
    ensures
        final(state).nn == old(state).nn,
        final(state).client_state.is_blank(true),
{
    let mut stats = default_stats();
    stats.is_learning = true;
    state.client_state = stats;
}

/// Adds `value` to `history`.
fn record<T>(history: &mut Option<Vec<T>>, value: T)
    ensures
        *final(history) is Some,
        past(*final(history)) == past(*old(history)).push(value),
{
    match history.take() {
        Some(values) => {
            let mut values = values;
            values.push(value);
            *history = Some(values);
        },
        None => {
            let mut values: Vec<T> = Vec::new();
            values.push(value);
            *history = Some(values);
        },
    }
}

/// Whether `mse <= desired`.
fn at_most<T: Scalar>(mse: T, desired: T) -> (reached: bool)
    ensures
        is_at_most(mse, desired, reached),
{
    let lower = mse.below(desired);
    let reached = if lower {
        true
    } else {
        mse.same(desired)
    };
    assert(is_at_most_via(mse, desired, lower, reached));
    reached
}

/// One step of learning, the epoch `epoch` of at most `max_epoch_count`. Where a stop
/// was asked for, or `max_epoch_count` epochs have been run, nothing happens.
/// Elsewhere the network goes through one whole epoch, and the client is shown its
/// errors and the picture of the network.
pub fn learn_epoch<T: Scalar>(
    state: &mut AppState<T>,
    epoch: usize,
    max_epoch_count: usize,
    desired_mse: T,
) -> (progress: Progress)
    requires
        old(state).nn.wf(),
    ensures
        old(state).learns(epoch, max_epoch_count, desired_mse, *final(state), progress),
        final(state).nn.wf(),
{
    if !state.client_state.is_learning {
        assert(old(state).learns_via(
            epoch,
            max_epoch_count,
            desired_mse,
            false,
            *state,
            Progress::Stopped,
        ));
        return Progress::Stopped;
    }
    if epoch >= max_epoch_count {
        assert(old(state).learns_via(
            epoch,
            max_epoch_count,
            desired_mse,
            false,
            *state,
            Progress::Exhausted,
        ));
        return Progress::Exhausted;
    }
    let (mse, mse_validation) = state.nn.epoch();
    state.client_state.epoch = Some(epoch);
    state.client_state.mse = Some(mse);
    state.client_state.mse_validation = Some(mse_validation);
    record(&mut state.client_state.mse_history, mse);
    record(&mut state.client_state.mse_validation_history, mse_validation);
    state.client_state.heatmap = Some(get_heatmap_data(&state.nn));
    let reached = at_most(mse, desired_mse);
    let progress = if reached {
        Progress::Reached
    } else {
        Progress::Continue
    };
    assert(old(state).learns_via(epoch, max_epoch_count, desired_mse, reached, *state, progress));
    progress
}

/// Publishes the results of the network: the confusion matrix on the testing data,
/// the cross-entropy loss on the training data, and the weights and thresholds.
pub fn publish_results<T: Scalar>(state: &mut AppState<T>)
    requires
        old(state).nn.wf(),
    ensures
        old(state).publishes(*final(state)),
{
    state.client_state.confusion_matrix = Some(state.nn.confusion_matrix());
    state.client_state.cross_entropy_loss = Some(state.nn.cross_entropy_loss());
    state.client_state.parameters = Some(state.nn.get_parameters());
}

/// Ends learning: turns it off and publishes the results of the network.
pub fn finish_learning<T: Scalar>(state: &mut AppState<T>)
    requires
        old(state).nn.wf(),
    ensures
        exists|stopped: AppState<T>| #[trigger]
            old(state).stops(stopped) && stopped.publishes(*final(state)),
{
    stop(state);
    let ghost stopped = *state;
    publish_results(state);
    assert(old(state).stops(stopped) && stopped.publishes(*state));
}

/// Asks learning to stop. Asking again changes nothing.
pub fn stop<T: Scalar>(state: &mut AppState<T>)
    ensures
        old(state).stops(*final(state)),
{
    state.client_state.is_learning = false;
}

/// Shows the client the outputs of the network for `inputs`.
pub fn predict<T: Scalar>(state: &mut AppState<T>, inputs: &Vec<T>)
    ensures
        old(state).shows_prediction(inputs@, *final(state)),
{
    state.client_state.predicted = Some(state.nn.predict(inputs));
}

/// A stop that was asked for is seen by the next step of learning: that step runs no
/// epoch, leaves the session as the stop left it, and tells that learning stopped.
pub proof fn lemma_stop_halts_the_next_step<T: Scalar>(
    before: AppState<T>,
    stopped: AppState<T>,
    epoch: usize,
    max_epoch_count: usize,
    desired_mse: T,
    after: AppState<T>,
    progress: Progress,
)
    requires
        before.stops(stopped),
        stopped.learns(epoch, max_epoch_count, desired_mse, after, progress),
    ensures
        progress == Progress::Stopped,
        after == stopped,
        after.nn == before.nn,
{
}

/// A step of learning never leaves an example half done: it either leaves the
/// session as it was, or takes the network through one whole epoch, in which every
/// training example went forward, backward, and had its weights moved. It runs an
/// epoch only while learning is on and fewer epochs than were asked for have been
/// run.
pub proof fn lemma_step_is_nothing_or_an_epoch<T: Scalar>(
    before: AppState<T>,
    epoch: usize,
    max_epoch_count: usize,
    desired_mse: T,
    after: AppState<T>,
    progress: Progress,
)
    requires
        before.learns(epoch, max_epoch_count, desired_mse, after, progress),
    ensures
        progress == Progress::Stopped || progress == Progress::Exhausted ==> after == before,
        progress == Progress::Reached || progress == Progress::Continue ==> before.nn.epochs(
            after.nn,
        ) && before.client_state.is_learning && epoch < max_epoch_count,
        !before.client_state.is_learning ==> progress == Progress::Stopped,
        before.client_state.is_learning && epoch >= max_epoch_count ==> progress
            == Progress::Exhausted,
{
}

/// Asking twice for a stop is asking once.
pub proof fn lemma_stop_is_idempotent<T: Scalar>(
    before: AppState<T>,
    once: AppState<T>,
    twice: AppState<T>,
)
    requires
        before.stops(once),
        once.stops(twice),
    ensures
        before.stops(twice),
{
}

} // verus!
