//! The steps of a layer that are handed to rayon, one neuron each.

use vstd::prelude::*;
use rayon::iter::{
    IndexedParallelIterator, IntoParallelRefIterator, IntoParallelRefMutIterator,
    ParallelIterator,
};
use crate::scalar::Scalar;
use crate::nn::layer::{Layer, LayerType, backward_input};
use crate::nn::neuron::Neuron;
use crate::nn::NeuralNetwork;

verus! {

/// Runs `Neuron::forward` on every neuron, through rayon's `par_iter_mut`, `map` and
/// `collect`.
///
/// Believed of rayon: the closure runs once on each element, no element is moved,
/// and `collect` hands the results back in the order of the elements. The rest is
/// the contract of `Neuron::forward`.
#[verifier::external_body]
pub(crate) fn forward_each<T: Scalar>(neurons: &mut Vec<Neuron<T>>, inputs: &Vec<T>) -> (outputs:
    Vec<T>)
    ensures
        final(neurons)@.len() == old(neurons)@.len(),
        outputs@.len() == old(neurons)@.len(),
        forall|i: int|
            0 <= i < old(neurons)@.len() ==> (#[trigger] old(neurons)@[i]).forwards(
                inputs@,
                final(neurons)@[i],
            ) && outputs@[i] == final(neurons)@[i].y,
{
    neurons.par_iter_mut().map(|n| n.forward(inputs)).collect::<Vec<_>>()
}

/// Runs `Neuron::commit_activation_function` on every neuron, through rayon's
/// `par_iter_mut` and `for_each`.
///
/// Believed of rayon: the closure runs once on each element and no element is
/// moved. The rest is the contract of `Neuron::commit_activation_function`.
#[verifier::external_body]
pub(crate) fn commit_activation_each<T: Scalar>(neurons: &mut Vec<Neuron<T>>, layer_outputs: &Vec<T>)
    requires
        forall|i: int|
            0 <= i < old(neurons)@.len() && (#[trigger] old(
                neurons,
            )@[i]).activation_function.reads_layer() ==> layer_outputs@.len() > 0,
    ensures
        final(neurons)@.len() == old(neurons)@.len(),
        forall|i: int|
            0 <= i < old(neurons)@.len() ==> (#[trigger] old(neurons)@[i]).commits_activation(
                layer_outputs@,
                final(neurons)@[i],
            ),
{
    neurons.par_iter_mut().for_each(|n| n.commit_activation_function(layer_outputs));
}

/// Runs `Layer::backward_neuron` on every neuron, each with its own index, through
/// rayon's `par_iter_mut`, `enumerate` and `for_each`.
///
/// Believed of rayon: `enumerate` pairs each element with its index, the closure
/// runs once on each pair and no element is moved. The rest is the contract of
/// `Layer::backward_neuron`.
#[verifier::external_body]
pub(crate) fn backward_each<T: Scalar>(
    neurons: &mut Vec<Neuron<T>>,
    layer_type: LayerType,
    y_desired: &Vec<T>,
    next_layer: Option<&Layer<T>>,
    net_inputs: &Vec<T>,
)
    requires
        layer_type == LayerType::Output ==> old(neurons)@.len() <= y_desired@.len(),
        forall|i: int|
            0 <= i < old(neurons)@.len() ==> (#[trigger] old(neurons)@[i]).can_go_backward(
                backward_input(layer_type, y_desired@, next_layer, i),
                i,
                net_inputs@,
            ),
    ensures
        final(neurons)@.len() == old(neurons)@.len(),
        forall|i: int|
            0 <= i < old(neurons)@.len() ==> (#[trigger] old(neurons)@[i]).backwards(
                backward_input(layer_type, y_desired@, next_layer, i),
                i,
                net_inputs@,
                final(neurons)@[i],
            ),
{
    neurons.par_iter_mut().enumerate().for_each(
        |(i, n)| Layer::backward_neuron(n, i, layer_type, y_desired, next_layer, net_inputs),
    );
}

/// Runs `Neuron::commit` on every neuron, through rayon's `par_iter_mut` and
/// `for_each`.
///
/// Believed of rayon: the closure runs once on each element and no element is
/// moved. The rest is the contract of `Neuron::commit`.
#[verifier::external_body]
pub(crate) fn commit_each<T: Scalar>(neurons: &mut Vec<Neuron<T>>, inputs: &Vec<T>)
    ensures
        final(neurons)@.len() == old(neurons)@.len(),
        forall|i: int|
            0 <= i < old(neurons)@.len() ==> (#[trigger] old(neurons)@[i]).commits(
                inputs@,
                final(neurons)@[i],
            ),
{
    neurons.par_iter_mut().for_each(|n| n.commit(inputs));
}

/// Runs `NeuralNetwork::predict` on every one of `points`, through rayon's
/// `par_iter`, `map` and `collect`.
///
/// Believed of rayon: the closure runs once on each element, and `collect` hands the
/// results back in the order of the elements. The rest is the contract of
/// `NeuralNetwork::predict`.
#[verifier::external_body]
pub(crate) fn predict_each<T: Scalar>(network: &NeuralNetwork<T>, points: &Vec<Vec<T>>) -> (outputs:
    Vec<Vec<T>>)
    ensures
        outputs@.len() == points@.len(),
        forall|i: int|
            0 <= i < points@.len() ==> network.predicts(points@[i]@, (#[trigger] outputs@[i])@),
{
    points.par_iter().map(|inputs| network.predict(inputs)).collect::<Vec<_>>()
}

} // verus!
