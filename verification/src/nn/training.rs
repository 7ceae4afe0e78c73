//! Training: the forward pass, the backward pass, the move of the weights, and the
//! epoch that takes every training example through the three.

use vstd::prelude::*;
use crate::scalar::{Scalar, is_int, is_count, is_sum, is_quotient, copy_of};
use crate::nn::activation_functions::{ActivationFunction, wrapped};
use crate::nn::layer::{Layer, net_inputs_of, outputs_of};
use crate::nn::{NeuralNetwork, layer_fits, fan_in, chained, passed};
use crate::nn::prediction::{
    is_chain_via, is_chain, is_squared_error, is_mean_squared_error, squared_error,
};
use crate::nn::neuron::Neuron;
use crate::nn::layer::backward_input;

verus! {

/// What the layer `l` is fed in a forward pass that starts from `first` and leaves
/// the layers as `after`.
pub open spec fn stage_input<T: Scalar>(first: Seq<T>, after: Seq<Layer<T>>, l: int) -> Seq<T> {
    if l == 0 {
        first
    } else {
        after[l - 1].current_outputs@
    }
}

/// `before` can become the layer `l` of `after` in a backward pass towards
/// `y_desired`, in which it follows the layer after it, if there is one.
pub open spec fn layer_backwards<T: Scalar>(
    before: Layer<T>,
    y_desired: Seq<T>,
    after: Seq<Layer<T>>,
    l: int,
) -> bool {
    if l + 1 < after.len() {
        before.backwards(y_desired, Some(&after[l + 1]), after[l])
    } else {
        before.backwards(y_desired, None, after[l])
    }
}

/// What a forward pass returns is what a prediction can return: in a well-formed
/// network, the outputs that the last layer keeps after a forward pass on a training
/// example, which are the outputs that the pass returns, are outputs that the
/// network predicts for the inputs of that example, as they stand in the training
/// data.
pub proof fn lemma_forward_agrees_with_predict<T: Scalar>(
    network: NeuralNetwork<T>,
    index: int,
    after: NeuralNetwork<T>,
)
    requires
        network.wf(),
        0 <= index < network.training_data@.len(),
        network.forwards(index, after),
    ensures
        is_chain(
            network.layers@,
            network.training_data@[index].0@,
            after.layers@.last().current_outputs@,
        ),
{
    let first = network.training_data@[index].0@;
    let count = network.layers@.len() as int;
    let stages = Seq::new((count + 1) as nat, |l: int| stage_input(first, after.layers@, l));
    assert forall|l: int| 0 <= l < count implies (#[trigger] network.layers@[l]).predicts(
        stages[l],
        stages[l + 1],
    ) by {
        assert(layer_fits(network.layers@[l], fan_in(network.layers@, network.inputs_count(), l)));
        crate::nn::layer::lemma_forward_agrees_with_predict(
            network.layers@[l],
            stage_input(first, after.layers@, l),
            after.layers@[l],
        );
    }
    assert(is_chain_via(network.layers@, first, stages, after.layers@.last().current_outputs@));
}

impl<T: Scalar> NeuralNetwork<T> {
    /// `after` can be this network after a forward pass on the training example
    /// `index`: each layer went forward on the outputs of the one before it.
    pub open spec fn forwards(self, index: int, after: Self) -> bool {
        &&& self.same_data(after)
        &&& after.layers@.len() == self.layers@.len()
        &&& forall|l: int|
            0 <= l < self.layers@.len() ==> (#[trigger] self.layers@[l]).forwards(
                stage_input(self.training_data@[index].0@, after.layers@, l),
                after.layers@[l],
            )
    }

    /// `after` can be this network after a backward pass for the training example
    /// `index`: each layer went backward after the one that follows it.
    pub open spec fn backwards(self, index: int, after: Self) -> bool {
        &&& self.same_data(after)
        &&& after.layers@.len() == self.layers@.len()
        &&& forall|l: int|
            0 <= l < self.layers@.len() ==> layer_backwards(
                #[trigger] self.layers@[l],
                self.training_data@[index].1@,
                after.layers@,
                l,
            )
    }

    /// `after` can be this network after every layer moved its weights.
    pub open spec fn commits(self, after: Self) -> bool {
        &&& self.same_data(after)
        &&& after.layers@.len() == self.layers@.len()
        &&& forall|l: int|
            0 <= l < self.layers@.len() ==> (#[trigger] self.layers@[l]).commits(after.layers@[l])
    }

    /// `after` can be this network after one training step on the example `index`,
    /// and `error` the squared error of that step; `forwarded` and `backwarded` are
    /// the network after the forward and after the backward pass.
    pub open spec fn iterates_via(
        self,
        index: int,
        forwarded: Self,
        backwarded: Self,
        after: Self,
        error: T,
    ) -> bool {
        &&& self.forwards(index, forwarded)
        &&& forwarded.backwards(index, backwarded)
        &&& backwarded.commits(after)
        &&& is_squared_error(
            outputs_of(after.layers@.last().neurons@),
            self.training_data@[index].1@,
            error,
        )
    }

    /// `after` can be this network after one training step on the example `index`:
    /// a forward pass, a backward pass, and the move of the weights, in that order,
    /// each on what the one before left. `error` can be the squared error of the
    /// outputs of that forward pass.
    pub open spec fn iterates(self, index: int, after: Self, error: T) -> bool {
        exists|forwarded: Self, backwarded: Self| #[trigger]
            self.iterates_via(index, forwarded, backwarded, after, error)
    }

    /// `after` can be this network after an epoch; `states` holds the network before
    /// each training step and after the last, `errors` the squared error of each
    /// step, and `n` the scalar for the number of steps.
    pub open spec fn epochs_via(self, states: Seq<Self>, errors: Seq<T>, n: T, after: Self) -> bool {
        let count = self.training_data@.len();
        &&& count <= usize::MAX
        &&& states.len() == count + 1
        &&& errors.len() == count
        &&& states[0].layers == self.layers
        &&& self.same_data(states[0])
        &&& is_int(0, states[0].mse)
        &&& is_int(0, states[0].mse_validation)
        &&& forall|i: int|
            0 <= i < count ==> {
                &&& (#[trigger] states[i]).iterates(i, states[i + 1], errors[i])
                &&& is_sum(states[i].mse, errors[i], states[i + 1].mse)
                &&& states[i + 1].mse_validation == states[i].mse_validation
            }
        &&& after.layers == states[count as int].layers
        &&& self.same_data(after)
        &&& is_count(count as usize, n)
        &&& is_quotient(states[count as int].mse, n, after.mse)
        &&& is_mean_squared_error(after.layers@, after.validation_data@, after.mse_validation)
    }

    /// `after` can be this network after an epoch: one training step on each
    /// training example, in the order of the data, each on the network as the step
    /// before left it; then `mse` becomes the sum of the squared errors of the steps
    /// over their number, and `mse_validation` the mean squared error on the
    /// validation data, which moves no weight.
    pub open spec fn epochs(self, after: Self) -> bool {
        exists|states: Seq<Self>, errors: Seq<T>, n: T| #[trigger]
            self.epochs_via(states, errors, n, after)
    }

    /// Runs the layers forward, in their order, on the inputs of the training
    /// example `index`, and returns the outputs of the last: they are what the
    /// network predicts for those inputs.
    pub fn forward(&mut self, index: usize) -> (outputs: Vec<T>)
        requires
            index < old(self).training_data@.len(),
        ensures
            old(self).forwards(index as int, *final(self)),
            old(self).same_errors(*final(self)),
            outputs@ == stage_input(
                old(self).training_data@[index as int].0@,
                final(self).layers@,
                final(self).layers@.len() as int,
            ),
            old(self).wf() ==> final(self).wf() && passed(final(self).layers@),
            old(self).wf() ==> is_chain(
                old(self).layers@,
                old(self).training_data@[index as int].0@,
                outputs@,
            ),
    {
        let mut signal = copy_of(&self.training_data[index].0);
        let ghost first = signal@;
        let mut l: usize = 0;
        while l < self.layers.len()
            invariant
                l <= self.layers@.len(),
                self.layers@.len() == old(self).layers@.len(),
                old(self).same_data(*self),
                old(self).same_errors(*self),
                signal@ == stage_input(first, self.layers@, l as int),
                forall|k: int|
                    0 <= k < l ==> (#[trigger] old(self).layers@[k]).forwards(
                        stage_input(first, self.layers@, k),
                        self.layers@[k],
                    ),
                forall|k: int| l <= k < self.layers@.len() ==> self.layers@[k] == old(self).layers@[k],
            decreases self.layers@.len() - l,
        {
            let ghost before = self.layers@;
            signal = self.layers[l].forward(&signal);
            proof {
                assert forall|k: int| 0 <= k < l + 1 implies (#[trigger] old(self).layers@[k]).forwards(
                    stage_input(first, self.layers@, k),
                    self.layers@[k],
                ) by {
                    assert(stage_input(first, self.layers@, k) == stage_input(first, before, k));
                }
            }
            l = l + 1;
        }
        proof {
            if old(self).wf() {
                Self::lemma_forward_keeps_shape(*old(self), index as int, *self);
                lemma_forward_agrees_with_predict(*old(self), index as int, *self);
            }
        }
        signal
    }

    /// A forward pass leaves a well-formed network well-formed, and its layers hold
    /// the pass.
    proof fn lemma_forward_keeps_shape(before: Self, index: int, after: Self)
        requires
            before.wf(),
            0 <= index < before.training_data@.len(),
            before.forwards(index, after),
        ensures
            after.wf(),
            passed(after.layers@),
    {
        let n = before.inputs_count();
        let first = before.training_data@[index].0@;
        assert forall|l: int| 0 <= l < after.layers@.len() implies {
            &&& layer_fits(#[trigger] after.layers@[l], fan_in(after.layers@, n, l))
            &&& after.layers@[l].layer_type == before.layers@[l].layer_type
            &&& after.layers@[l].neurons@.len() == before.layers@[l].neurons@.len()
            &&& after.layers@[l].current_outputs@.len() == after.layers@[l].neurons@.len()
            &&& after.layers@[l].current_inputs@ == stage_input(first, after.layers@, l)
        } by {
            let old_layer = before.layers@[l];
            let new_layer = after.layers@[l];
            assert(layer_fits(old_layer, fan_in(before.layers@, n, l)));
            assert(old_layer.forwards(stage_input(first, after.layers@, l), new_layer));
            let raw = choose|raw: Seq<Neuron<T>>|
                old_layer.forwards_via(stage_input(first, after.layers@, l), raw, new_layer);
            assert forall|k: int| 0 <= k < new_layer.neurons@.len() implies {
                &&& (#[trigger] new_layer.neurons@[k]).layer_type == new_layer.layer_type
                &&& new_layer.neurons@[k].activation_function == wrapped(
                    new_layer.activation_function,
                )
                &&& new_layer.neurons@[k].weights@.len() == old_layer.neurons@[k].weights@.len()
            } by {
                assert(old_layer.neurons@[k].forwards(stage_input(first, after.layers@, l), raw[k]));
                if old_layer.activation_function
                    == ActivationFunction::Softmax {
                    assert(raw[k].commits_activation(
                        outputs_of(raw),
                        new_layer.neurons@[k],
                    ));
                }
            }
            if l > 0 {
                assert(before.layers@[l - 1].forwards(
                    stage_input(first, after.layers@, l - 1),
                    after.layers@[l - 1],
                ));
            }
        }
        assert(after.outputs_count() == before.outputs_count());
        assert forall|l: int| 0 <= l < after.layers@.len() implies {
            &&& (#[trigger] after.layers@[l]).current_outputs@.len() == after.layers@[l].neurons@.len()
            &&& forall|k: int|
                0 <= k < after.layers@[l].neurons@.len() ==> (#[trigger] after.layers@[l].neurons@[k]).weights@.len()
                    == after.layers@[l].current_inputs@.len()
        } by {
            assert(layer_fits(after.layers@[l], fan_in(after.layers@, n, l)));
            if l > 0 {
                assert(layer_fits(after.layers@[l - 1], fan_in(after.layers@, n, l - 1)));
            }
        }
    }

    /// Runs the layers backward, from the output layer to the first, towards the
    /// wanted outputs of the training example `index`. Each layer reads the one
    /// after it as its own backward pass left it.
    pub fn backward(&mut self, index: usize)
        requires
            index < old(self).training_data@.len(),
            old(self).wf(),
            passed(old(self).layers@),
        ensures
            old(self).backwards(index as int, *final(self)),
            old(self).same_errors(*final(self)),
            final(self).wf(),
            passed(final(self).layers@),
    {
        let n = self.layers.len();
        let ghost y = self.training_data@[index as int].1@;
        let mut l: usize = n;
        while l > 0
            invariant
                l <= n,
                n == self.layers@.len(),
                n == old(self).layers@.len(),
                index < self.training_data@.len(),
                y == self.training_data@[index as int].1@,
                old(self).same_data(*self),
                old(self).same_errors(*self),
                self.wf(),
                passed(self.layers@),
                forall|k: int|
                    l <= k < n ==> layer_backwards(#[trigger] old(self).layers@[k], y, self.layers@, k),
                forall|k: int| 0 <= k < l ==> self.layers@[k] == old(self).layers@[k],
            decreases l,
        {
            l = l - 1;
            let ghost before = self.layers@;
            proof {
                Self::lemma_can_go_backward(*self, index as int, l as int);
            }
            if l + 1 < n {
                let (head, tail) = self.layers.as_mut_slice().split_at_mut(l + 1);
                head[l].backward(&self.training_data[index].1, Some(&tail[0]));
            } else {
                self.layers[l].backward(&self.training_data[index].1, None);
            }
            proof {
                assert(self.layers@.len() == n);
                assert(layer_backwards(before[l as int], y, self.layers@, l as int));
                assert forall|k: int| 0 <= k < n && k != l implies self.layers@[k] == before[k] by {}
                assert forall|k: int| l <= k < n implies layer_backwards(
                    #[trigger] old(self).layers@[k],
                    y,
                    self.layers@,
                    k,
                ) by {
                    if k > l {
                        assert(layer_backwards(old(self).layers@[k], y, before, k));
                    }
                }
                Self::lemma_backward_keeps_shape(before, self.layers@, l as int, self.inputs_count(), y);
            }
        }
    }

    /// In a well-formed network that holds a forward pass, the layer `l` can go
    /// backward once the layers after it have.
    proof fn lemma_can_go_backward(net: Self, index: int, l: int)
        requires
            net.wf(),
            passed(net.layers@),
            0 <= index < net.training_data@.len(),
            0 <= l < net.layers@.len(),
        ensures
            l + 1 < net.layers@.len() ==> net.layers@[l].can_go_backward(
                net.training_data@[index].1@,
                Some(&net.layers@[l + 1]),
            ),
            l + 1 == net.layers@.len() ==> net.layers@[l].can_go_backward(
                net.training_data@[index].1@,
                None,
            ),
    {
        let layer = net.layers@[l];
        let n = net.inputs_count();
        assert(layer_fits(layer, fan_in(net.layers@, n, l)));
        assert(layer.current_outputs@.len() == layer.neurons@.len());
        if l + 1 < net.layers@.len() {
            let next = net.layers@[l + 1];
            assert(layer_fits(next, fan_in(net.layers@, n, l + 1)));
            assert forall|i: int| 0 <= i < layer.neurons@.len() implies (#[trigger] layer.neurons@[i]).can_go_backward(
                backward_input(
                    layer.layer_type,
                    net.training_data@[index].1@,
                    Some(&next),
                    i,
                ),
                i,
                net_inputs_of(layer.neurons@),
            ) by {
                assert forall|k: int| 0 <= k < next.neurons@.len() implies 0 <= i < (
                #[trigger] next.neurons@[k]).weights@.len() by {}
            }
        } else {
            assert(net.training_data@[index].1@.len() == net.outputs_count());
        }
    }

    /// A backward pass of the layer `l` leaves the layers a chain that holds a
    /// forward pass.
    proof fn lemma_backward_keeps_shape(
        before: Seq<Layer<T>>,
        after: Seq<Layer<T>>,
        l: int,
        inputs_count: int,
        y: Seq<T>,
    )
        requires
            chained(before, inputs_count),
            passed(before),
            0 <= l < before.len(),
            after.len() == before.len(),
            forall|k: int| 0 <= k < before.len() && k != l ==> after[k] == before[k],
            layer_backwards(before[l], y, after, l),
        ensures
            chained(after, inputs_count),
            passed(after),
            after.last().neurons@.len() == before.last().neurons@.len(),
    {
        assert forall|k: int| 0 <= k < after.len() implies {
            &&& layer_fits(#[trigger] after[k], fan_in(after, inputs_count, k))
            &&& after[k].layer_type == before[k].layer_type
            &&& after[k].neurons@.len() == before[k].neurons@.len()
            &&& after[k].current_outputs@ == before[k].current_outputs@
            &&& after[k].current_inputs@ == before[k].current_inputs@
            &&& forall|i: int|
                0 <= i < after[k].neurons@.len() ==> (#[trigger] after[k].neurons@[i]).weights@
                    == before[k].neurons@[i].weights@
        } by {
            assert(layer_fits(before[k], fan_in(before, inputs_count, k)));
            if k == l {
                assert forall|i: int| 0 <= i < after[k].neurons@.len() implies before[k].neurons@[i].same_parameters(
                #[trigger] after[k].neurons@[i]) by {
                    if l + 1 < after.len() {
                        assert(before[k].neurons@[i].backwards(
                            backward_input(
                                before[k].layer_type,
                                y,
                                Some(&after[l + 1]),
                                i,
                            ),
                            i,
                            net_inputs_of(before[k].neurons@),
                            after[k].neurons@[i],
                        ));
                    } else {
                        assert(before[k].neurons@[i].backwards(
                            backward_input(
                                before[k].layer_type,
                                y,
                                None,
                                i,
                            ),
                            i,
                            net_inputs_of(before[k].neurons@),
                            after[k].neurons@[i],
                        ));
                    }
                }
            }
            if k > 0 {
                assert(layer_fits(before[k - 1], fan_in(before, inputs_count, k - 1)));
            }
        }
        assert forall|k: int| 0 <= k < after.len() implies {
            &&& (#[trigger] after[k]).current_outputs@.len() == after[k].neurons@.len()
            &&& forall|i: int|
                0 <= i < after[k].neurons@.len() ==> (#[trigger] after[k].neurons@[i]).weights@.len()
                    == after[k].current_inputs@.len()
        } by {
            assert(layer_fits(after[k], fan_in(after, inputs_count, k)));
            assert(before[k].current_outputs@.len() == before[k].neurons@.len());
            assert forall|i: int| 0 <= i < after[k].neurons@.len() implies (
            #[trigger] after[k].neurons@[i]).weights@.len() == after[k].current_inputs@.len() by {
                assert(before[k].neurons@[i].weights@.len() == before[k].current_inputs@.len());
            }
        }
    }

    /// Moves the weights and thresholds of every layer.
    pub fn commit(&mut self)
        ensures
            old(self).commits(*final(self)),
            old(self).same_errors(*final(self)),
            old(self).wf() && passed(old(self).layers@) ==> final(self).wf() && passed(
                final(self).layers@,
            ),
    {
        let mut l: usize = 0;
        while l < self.layers.len()
            invariant
                l <= self.layers@.len(),
                self.layers@.len() == old(self).layers@.len(),
                old(self).same_data(*self),
                old(self).same_errors(*self),
                forall|k: int|
                    0 <= k < l ==> (#[trigger] old(self).layers@[k]).commits(self.layers@[k]),
                forall|k: int| l <= k < self.layers@.len() ==> self.layers@[k] == old(self).layers@[k],
            decreases self.layers@.len() - l,
        {
            self.layers[l].commit();
            l = l + 1;
        }
        proof {
            if old(self).wf() && passed(old(self).layers@) {
                Self::lemma_commit_keeps_shape(*old(self), *self);
            }
        }
    }

    /// Moving the weights leaves a well-formed network that holds a forward pass as
    /// it was in both respects.
    proof fn lemma_commit_keeps_shape(before: Self, after: Self)
        requires
            before.wf(),
            passed(before.layers@),
            before.commits(after),
        ensures
            after.wf(),
            passed(after.layers@),
    {
        let n = before.inputs_count();
        assert forall|k: int| 0 <= k < after.layers@.len() implies {
            &&& layer_fits(#[trigger] after.layers@[k], fan_in(after.layers@, n, k))
            &&& after.layers@[k].layer_type == before.layers@[k].layer_type
            &&& after.layers@[k].neurons@.len() == before.layers@[k].neurons@.len()
            &&& after.layers@[k].current_outputs@ == before.layers@[k].current_outputs@
            &&& after.layers@[k].current_inputs@ == before.layers@[k].current_inputs@
        } by {
            let old_layer = before.layers@[k];
            let new_layer = after.layers@[k];
            assert(layer_fits(old_layer, fan_in(before.layers@, n, k)));
            assert(old_layer.commits(new_layer));
            assert(old_layer.current_outputs@.len() == old_layer.neurons@.len());
            assert forall|i: int| 0 <= i < new_layer.neurons@.len() implies {
                &&& (#[trigger] new_layer.neurons@[i]).layer_type == new_layer.layer_type
                &&& new_layer.neurons@[i].activation_function == wrapped(
                    new_layer.activation_function,
                )
                &&& new_layer.neurons@[i].weights@.len() == old_layer.neurons@[i].weights@.len()
            } by {
                assert(old_layer.neurons@[i].commits(old_layer.current_inputs@, new_layer.neurons@[i]));
                assert(old_layer.neurons@[i].weights@.len() == old_layer.current_inputs@.len());
            }
            if k > 0 {
                assert(before.layers@[k - 1].commits(after.layers@[k - 1]));
            }
        }
        assert(after.outputs_count() == before.outputs_count());
        assert forall|k: int| 0 <= k < after.layers@.len() implies {
            &&& (#[trigger] after.layers@[k]).current_outputs@.len() == after.layers@[k].neurons@.len()
            &&& forall|i: int|
                0 <= i < after.layers@[k].neurons@.len() ==> (#[trigger] after.layers@[k].neurons@[i]).weights@.len()
                    == after.layers@[k].current_inputs@.len()
        } by {
            assert(layer_fits(after.layers@[k], fan_in(after.layers@, n, k)));
            assert(layer_fits(before.layers@[k], fan_in(before.layers@, n, k)));
            assert(before.layers@[k].current_outputs@.len() == before.layers@[k].neurons@.len());
            assert forall|i: int| 0 <= i < after.layers@[k].neurons@.len() implies (
            #[trigger] after.layers@[k].neurons@[i]).weights@.len()
                == after.layers@[k].current_inputs@.len() by {
                assert(before.layers@[k].neurons@[i].weights@.len()
                    == before.layers@[k].current_inputs@.len());
            }
        }
    }

    /// One training step on the training example `index`: a forward pass, a backward
    /// pass, and the move of the weights. Returns the squared error of the outputs
    /// of the forward pass.
    pub fn iteration(&mut self, index: usize) -> (error: T)
        requires
            old(self).wf(),
            index < old(self).training_data@.len(),
        ensures
            old(self).iterates(index as int, *final(self), error),
            old(self).same_errors(*final(self)),
            final(self).wf(),
            passed(final(self).layers@),
    {
        self.forward(index);
        let ghost forwarded = *self;
        self.backward(index);
        let ghost backwarded = *self;
        self.commit();
        let outputs = Layer::collect_outputs(&self.layers[self.layers.len() - 1].neurons);
        let error = squared_error(&outputs, &self.training_data[index].1);
        assert(old(self).iterates_via(index as int, forwarded, backwarded, *self, error));
        error
    }

    /// One epoch: a training step on every training example, in the order of the
    /// data. Returns the mean squared error of the steps and the mean squared error
    /// on the validation data.
    pub fn epoch(&mut self) -> (errors: (T, T))
        requires
            old(self).wf(),
        ensures
            old(self).epochs(*final(self)),
            final(self).wf(),
            errors.0 == final(self).mse,
            errors.1 == final(self).mse_validation,
    {
        self.mse = T::from_int(0);
        self.mse_validation = T::from_int(0);
        let n = T::from_count(self.training_data.len());
        let len = self.training_data.len();
        let ghost mut states: Seq<Self> = seq![*self];
        let ghost mut step_errors: Seq<T> = Seq::empty();
        let mut i: usize = 0;
        while i < len
            invariant
                i <= len,
                len == self.training_data@.len(),
                self.wf(),
                old(self).same_data(*self),
                states.len() == i + 1,
                step_errors.len() == i,
                states[0].layers == old(self).layers,
                old(self).same_data(states[0]),
                is_int(0, states[0].mse),
                is_int(0, states[0].mse_validation),
                states[i as int] == *self,
                forall|k: int|
                    0 <= k < i ==> {
                        &&& (#[trigger] states[k]).iterates(k, states[k + 1], step_errors[k])
                        &&& is_sum(states[k].mse, step_errors[k], states[k + 1].mse)
                        &&& states[k + 1].mse_validation == states[k].mse_validation
                    },
            decreases len - i,
        {
            let error = self.iteration(i);
            let ghost stepped = *self;
            self.mse = self.mse.plus(error);
            proof {
                let before = states[i as int];
                let grown = states.push(*self);
                let grown_errors = step_errors.push(error);
                assert(before.iterates(i as int, *self, error)) by {
                    let (forwarded, backwarded) = choose|forwarded: Self, backwarded: Self|
                        before.iterates_via(i as int, forwarded, backwarded, stepped, error);
                    assert(before.iterates_via(i as int, forwarded, backwarded, *self, error));
                }
                assert forall|k: int| 0 <= k < i + 1 implies {
                    &&& (#[trigger] grown[k]).iterates(k, grown[k + 1], grown_errors[k])
                    &&& is_sum(grown[k].mse, grown_errors[k], grown[k + 1].mse)
                    &&& grown[k + 1].mse_validation == grown[k].mse_validation
                } by {
                    if k < i {
                        assert(states[k].iterates(k, states[k + 1], step_errors[k]));
                    }
                }
                states = grown;
                step_errors = grown_errors;
            }
            i = i + 1;
        }
        self.mse = self.mse.over(n);
        self.mse_validation = self.calculate_mse(&self.validation_data);
        assert(old(self).epochs_via(states, step_errors, n, *self));
        (self.mse, self.mse_validation)
    }
}

} // verus!
