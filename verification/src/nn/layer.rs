//! A layer: neurons that share their inputs, their role and their activation
//! function.

use vstd::prelude::*;
use crate::scalar::{Scalar, copy_of};
use crate::nn::activation_functions::{
    ActivationFunction, ActivationFunctionTrait, Softmax, get_activation_function, is_softmax,
    wrapped,
};
use crate::nn::neuron::{GradiantErrorInput, Neuron, is_net_input};
use crate::nn::parallel::{backward_each, commit_activation_each, commit_each, forward_each};
use rand::rngs::StdRng;

verus! {

/// The role of a layer in the network.
#[derive(Copy, Clone, Debug, PartialEq, Eq, Structural)]
pub enum LayerType {
    Hidden,
    Output,
    Error,
}

/// Neurons that are fed the same inputs. The order of `neurons` is the order of the
/// layer's outputs, and of the weights that each neuron of the next layer holds.
#[derive(Clone)]
pub struct Layer<T: Scalar> {
    pub layer_id: usize,
    pub layer_type: LayerType,
    pub neurons: Vec<Neuron<T>>,
    pub activation_function: ActivationFunction,
    /// The inputs of the last forward pass.
    pub current_inputs: Vec<T>,
    /// The outputs of the last forward pass.
    pub current_outputs: Vec<T>,
}

/// The output of each of `neurons`, in their order.
pub open spec fn outputs_of<T: Scalar>(neurons: Seq<Neuron<T>>) -> Seq<T> {
    Seq::new(neurons.len(), |i: int| neurons[i].y)
}

/// The net input of each of `neurons`, in their order.
pub open spec fn net_inputs_of<T: Scalar>(neurons: Seq<Neuron<T>>) -> Seq<T> {
    Seq::new(neurons.len(), |i: int| neurons[i].x)
}

/// Where the neuron `i` of a layer of role `layer_type` gets its error from: a
/// hidden neuron from the next layer, where there is one; an output neuron from
/// what was wanted of it; any other from nowhere.
pub open spec fn backward_input<'a, T: Scalar>(
    layer_type: LayerType,
    y_desired: Seq<T>,
    next_layer: Option<&'a Layer<T>>,
    i: int,
) -> GradiantErrorInput<'a, T> {
    match (layer_type, next_layer) {
        (LayerType::Hidden, Some(next_layer)) => GradiantErrorInput::NextLayer(next_layer),
        (LayerType::Output, _) => GradiantErrorInput::YDesired(y_desired[i]),
        _ => GradiantErrorInput::Error,
    }
}

impl<T: Scalar> Layer<T> {
    /// `other` has the number, the role and the activation function of `self`.
    pub open spec fn same_shape(self, other: Self) -> bool {
        &&& other.layer_id == self.layer_id
        &&& other.layer_type == self.layer_type
        &&& other.activation_function == self.activation_function
        &&& other.neurons@.len() == self.neurons@.len()
    }

    /// `self` can be a new layer of `neurons_count` neurons for `inputs_count`
    /// inputs.
    pub open spec fn is_fresh(
        self,
        layer_id: usize,
        layer_type: LayerType,
        inputs_count: usize,
        neurons_count: usize,
        activation_function: ActivationFunction,
        alpha: T,
    ) -> bool {
        &&& self.layer_id == layer_id
        &&& self.layer_type == layer_type
        &&& self.activation_function == activation_function
        &&& self.neurons@.len() == neurons_count
        &&& forall|i: int|
            0 <= i < neurons_count ==> (#[trigger] self.neurons@[i]).is_fresh(
                layer_type,
                inputs_count,
                wrapped(activation_function),
                alpha,
            )
        &&& self.current_inputs@.len() == 0
        &&& self.current_outputs@.len() == 0
    }

    /// `after` can be this layer after a forward pass on `inputs`; `raw` holds the
    /// neurons as each was after its own forward pass, before the outputs of the
    /// layer were normalised together. The layer keeps the outputs of its neurons as
    /// they are in the end.
    pub open spec fn forwards_via(self, inputs: Seq<T>, raw: Seq<Neuron<T>>, after: Self) -> bool {
        &&& self.same_shape(after)
        &&& after.current_inputs@ == inputs
        &&& raw.len() == self.neurons@.len()
        &&& forall|i: int|
            0 <= i < raw.len() ==> (#[trigger] self.neurons@[i]).forwards(inputs, raw[i])
        &&& if self.activation_function == ActivationFunction::Softmax {
            forall|i: int|
                0 <= i < raw.len() ==> (#[trigger] raw[i]).commits_activation(
                    outputs_of(raw),
                    after.neurons@[i],
                )
        } else {
            after.neurons@ == raw
        }
        &&& after.current_outputs@ == outputs_of(after.neurons@)
    }

    /// `after` can be this layer after a forward pass on `inputs`.
    pub open spec fn forwards(self, inputs: Seq<T>, after: Self) -> bool {
        exists|raw: Seq<Neuron<T>>| #[trigger] self.forwards_via(inputs, raw, after)
    }

    /// A backward pass cannot fail: an output layer has a wanted output for each
    /// neuron, and each neuron can take its own step.
    pub open spec fn can_go_backward(self, y_desired: Seq<T>, next_layer: Option<&Layer<T>>) -> bool {
        &&& self.layer_type == LayerType::Output ==> self.neurons@.len() <= y_desired.len()
        &&& forall|i: int|
            0 <= i < self.neurons@.len() ==> (#[trigger] self.neurons@[i]).can_go_backward(
                backward_input(self.layer_type, y_desired, next_layer, i),
                i,
                net_inputs_of(self.neurons@),
            )
    }

    /// `after` can be this layer after a backward pass. The slope of every neuron is
    /// taken at its net input, among the net inputs of the whole layer: they are
    /// what the neurons gave before their outputs were normalised together.
    pub open spec fn backwards(
        self,
        y_desired: Seq<T>,
        next_layer: Option<&Layer<T>>,
        after: Self,
    ) -> bool {
        &&& self.same_shape(after)
        &&& after.current_inputs@ == self.current_inputs@
        &&& after.current_outputs@ == self.current_outputs@
        &&& forall|i: int|
            0 <= i < self.neurons@.len() ==> (#[trigger] self.neurons@[i]).backwards(
                backward_input(self.layer_type, y_desired, next_layer, i),
                i,
                net_inputs_of(self.neurons@),
                after.neurons@[i],
            )
    }

    /// `after` can be this layer after every neuron moved its weights and its
    /// threshold, for the inputs of the last forward pass.
    pub open spec fn commits(self, after: Self) -> bool {
        &&& self.same_shape(after)
        &&& after.current_inputs@ == self.current_inputs@
        &&& after.current_outputs@ == self.current_outputs@
        &&& forall|i: int|
            0 <= i < self.neurons@.len() ==> (#[trigger] self.neurons@[i]).commits(
                self.current_inputs@,
                after.neurons@[i],
            )
    }

    /// `outputs` can be the outputs of this layer on `inputs`; `raw` holds the output
    /// of each neuron before the outputs were normalised together.
    pub open spec fn predicts_via(self, inputs: Seq<T>, raw: Seq<T>, outputs: Seq<T>) -> bool {
        &&& raw.len() == self.neurons@.len()
        &&& outputs.len() == self.neurons@.len()
        &&& forall|i: int|
            0 <= i < raw.len() ==> self.neurons@[i].predicts(inputs, #[trigger] raw[i])
        &&& if self.activation_function == ActivationFunction::Softmax {
            forall|i: int| 0 <= i < raw.len() ==> is_softmax(raw[i], raw, #[trigger] outputs[i])
        } else {
            outputs == raw
        }
    }

    /// `outputs` can be the outputs of this layer on `inputs`.
    pub open spec fn predicts(self, inputs: Seq<T>, outputs: Seq<T>) -> bool {
        exists|raw: Seq<T>| #[trigger] self.predicts_via(inputs, raw, outputs)
    }

    /// A layer of `neurons_count` new neurons for `inputs_count` inputs, made one
    /// after the other with what is drawn from `generator`.
    pub fn new(
        layer_id: usize,
        layer_type: LayerType,
        inputs_count: usize,
        neurons_count: usize,
        activation_function: ActivationFunction,
        alpha: T,
        generator: &mut StdRng,
    ) -> (layer: Self)
        requires
            inputs_count > 0,
        ensures
            layer.is_fresh(
                layer_id,
                layer_type,
                inputs_count,
                neurons_count,
                activation_function,
                alpha,
            ),
    {
        let mut neurons: Vec<Neuron<T>> = Vec::new();
        let mut i: usize = 0;
        while i < neurons_count
            invariant
                i <= neurons_count,
                inputs_count > 0,
                neurons.len() == i,
                forall|j: int|
                    0 <= j < i ==> (#[trigger] neurons@[j]).is_fresh(
                        layer_type,
                        inputs_count,
                        wrapped(activation_function),
                        alpha,
                    ),
            decreases neurons_count - i,
        {
            neurons.push(
                Neuron::new(
                    layer_type,
                    inputs_count,
                    get_activation_function(activation_function),
                    alpha,
                    generator,
                ),
            );
            i = i + 1;
        }
        Layer {
            layer_id,
            layer_type,
            neurons,
            activation_function,
            current_inputs: Vec::new(),
            current_outputs: Vec::new(),
        }
    }

    /// Runs every neuron forward on `inputs` and, where the activation function is
    /// layer-aware, normalises the outputs of the neurons together. Keeps the inputs
    /// and the outputs of the neurons as they then are, and returns those outputs:
    /// they are what the layer predicts for `inputs`.
    pub fn forward(&mut self, inputs: &Vec<T>) -> (outputs: Vec<T>)
        ensures
            old(self).forwards(inputs@, *final(self)),
            outputs@ == outputs_of(final(self).neurons@),
            final(self).current_outputs@ == outputs@,
            shares_function(*old(self)) ==> old(self).predicts(inputs@, outputs@),
    {
        self.current_inputs = copy_of(inputs);
        let raw_outputs = forward_each(&mut self.neurons, inputs);
        let ghost raw = self.neurons@;
        assert forall|i: int| 0 <= i < raw.len() implies raw_outputs@[i] == raw[i].y && old(
            self,
        ).neurons@[i].forwards(inputs@, raw[i]) by {
            assert(old(self).neurons@[i].forwards(inputs@, raw[i]));
        }
        assert(raw_outputs@ == outputs_of(raw));
        match self.activation_function {
            ActivationFunction::Softmax => {
                commit_activation_each(&mut self.neurons, &raw_outputs);
                self.current_outputs = Self::collect_outputs(&self.neurons);
            },
            _ => {
                self.current_outputs = raw_outputs;
            },
        }
        assert(old(self).forwards_via(inputs@, raw, *self));
        proof {
            if shares_function(*old(self)) {
                lemma_forward_agrees_with_predict(*old(self), inputs@, *self);
            }
        }
        copy_of(&self.current_outputs)
    }

    /// The output of each of `neurons`, in their order.
    pub fn collect_outputs(neurons: &Vec<Neuron<T>>) -> (outputs: Vec<T>)
        ensures
            outputs@ == outputs_of(neurons@),
    {
        let mut outputs: Vec<T> = Vec::new();
        let mut i: usize = 0;
        while i < neurons.len()
            invariant
                i <= neurons.len(),
                outputs.len() == i,
                forall|j: int| 0 <= j < i ==> outputs@[j] == neurons@[j].y,
            decreases neurons.len() - i,
        {
            outputs.push(neurons[i].y);
            i = i + 1;
        }
        outputs
    }

    /// The net input of each of `neurons`, in their order.
    pub fn collect_net_inputs(neurons: &Vec<Neuron<T>>) -> (net_inputs: Vec<T>)
        ensures
            net_inputs@ == net_inputs_of(neurons@),
    {
        let mut net_inputs: Vec<T> = Vec::new();
        let mut i: usize = 0;
        while i < neurons.len()
            invariant
                i <= neurons.len(),
                net_inputs.len() == i,
                forall|j: int| 0 <= j < i ==> net_inputs@[j] == neurons@[j].x,
            decreases neurons.len() - i,
        {
            net_inputs.push(neurons[i].x);
            i = i + 1;
        }
        net_inputs
    }

    /// Where the neuron `i` of a layer of role `layer_type` gets its error from.
    pub fn input_for<'a>(
        layer_type: LayerType,
        y_desired: &Vec<T>,
        next_layer: Option<&'a Layer<T>>,
        i: usize,
    ) -> (input: GradiantErrorInput<'a, T>)
        requires
            layer_type == LayerType::Output ==> i < y_desired@.len(),
        ensures
            input == backward_input(layer_type, y_desired@, next_layer, i as int),
    {
        match (layer_type, next_layer) {
            (LayerType::Hidden, Some(next_layer)) => GradiantErrorInput::NextLayer(next_layer),
            (LayerType::Output, _) => GradiantErrorInput::YDesired(y_desired[i]),
            _ => GradiantErrorInput::Error,
        }
    }

    /// The backward pass of the neuron `i` of a layer of role `layer_type`, from
    /// the source that `input_for` gives it.
    pub fn backward_neuron(
        neuron: &mut Neuron<T>,
        i: usize,
        layer_type: LayerType,
        y_desired: &Vec<T>,
        next_layer: Option<&Layer<T>>,
        net_inputs: &Vec<T>,
    )
        requires
            layer_type == LayerType::Output ==> i < y_desired@.len(),
            old(neuron).can_go_backward(
                backward_input(layer_type, y_desired@, next_layer, i as int),
                i as int,
                net_inputs@,
            ),
        ensures
            old(neuron).backwards(
                backward_input(layer_type, y_desired@, next_layer, i as int),
                i as int,
                net_inputs@,
                *final(neuron),
            ),
    {
        neuron.backward(Self::input_for(layer_type, y_desired, next_layer, i), i, net_inputs);
    }

    /// Sets the gradient error of every neuron: in an output layer from `y_desired`,
    /// in a hidden layer from `next_layer`, which went through its own backward pass
    /// already. The slope of every neuron is taken at its net input, among the net
    /// inputs of the whole layer. No weight moves.
    pub fn backward(&mut self, y_desired: &Vec<T>, next_layer: Option<&Layer<T>>)
        requires
            old(self).can_go_backward(y_desired@, next_layer),
        ensures
            old(self).backwards(y_desired@, next_layer, *final(self)),
    {
        let net_inputs = Self::collect_net_inputs(&self.neurons);
        backward_each(&mut self.neurons, self.layer_type, y_desired, next_layer, &net_inputs);
    }

    /// Moves the weights and the threshold of every neuron, for the inputs of the
    /// last forward pass.
    pub fn commit(&mut self)
        ensures
            old(self).commits(*final(self)),
    {
        commit_each(&mut self.neurons, &self.current_inputs);
    }

    /// The outputs of this layer on `inputs`. Nothing in the layer changes.
    pub fn predict(&self, inputs: &Vec<T>) -> (outputs: Vec<T>)
        ensures
            self.predicts(inputs@, outputs@),
    {
        let mut raw: Vec<T> = Vec::new();
        let mut i: usize = 0;
        while i < self.neurons.len()
            invariant
                i <= self.neurons.len(),
                raw.len() == i,
                forall|j: int| 0 <= j < i ==> self.neurons@[j].predicts(inputs@, #[trigger] raw@[j]),
            decreases self.neurons.len() - i,
        {
            raw.push(self.neurons[i].predict(inputs));
            i = i + 1;
        }
        match self.activation_function {
            ActivationFunction::Softmax => {
                let softmax = Softmax {  };
                let mut outputs: Vec<T> = Vec::new();
                let mut k: usize = 0;
                while k < raw.len()
                    invariant
                        k <= raw.len(),
                        outputs.len() == k,
                        forall|j: int| 0 <= j < k ==> is_softmax(raw@[j], raw@, #[trigger] outputs@[j]),
                    decreases raw.len() - k,
                {
                    outputs.push(softmax.commit(raw[k], &raw));
                    k = k + 1;
                }
                assert(self.predicts_via(inputs@, raw@, outputs@));
                outputs
            },
            _ => {
                assert(self.predicts_via(inputs@, raw@, raw@));
                raw
            },
        }
    }

    /// `parameters` holds the weights and the threshold of every neuron, each with
    /// the role of the layer.
    pub open spec fn has_parameters(self, parameters: Seq<(Vec<T>, T, LayerType)>) -> bool {
        &&& parameters.len() == self.neurons@.len()
        &&& forall|i: int|
            0 <= i < parameters.len() ==> {
                &&& (#[trigger] parameters[i]).0@ == self.neurons@[i].weights@
                &&& parameters[i].1 == self.neurons@[i].threshold
                &&& parameters[i].2 == self.layer_type
            }
    }

    /// The weights and the threshold of every neuron, each with the role of the
    /// layer.
    pub fn get_parameters(&self) -> (parameters: Vec<(Vec<T>, T, LayerType)>)
        ensures
            self.has_parameters(parameters@),
    {
        let mut parameters: Vec<(Vec<T>, T, LayerType)> = Vec::new();
        let mut i: usize = 0;
        while i < self.neurons.len()
            invariant
                i <= self.neurons.len(),
                parameters.len() == i,
                forall|j: int|
                    0 <= j < i ==> {
                        &&& (#[trigger] parameters@[j]).0@ == self.neurons@[j].weights@
                        &&& parameters@[j].1 == self.neurons@[j].threshold
                        &&& parameters@[j].2 == self.layer_type
                    },
            decreases self.neurons.len() - i,
        {
            let (weights, threshold) = self.neurons[i].get_parameters();
            parameters.push((weights, threshold, self.layer_type));
            i = i + 1;
        }
        parameters
    }
}

/// Every neuron of `layer` has the activation function of the layer.
pub open spec fn shares_function<T: Scalar>(layer: Layer<T>) -> bool {
    forall|k: int|
        0 <= k < layer.neurons@.len() ==> (#[trigger] layer.neurons@[k]).activation_function
            == wrapped(layer.activation_function)
}

/// What a forward pass returns is what a prediction can return: in a layer whose
/// neurons have the activation function of the layer, the outputs that a forward
/// pass on `inputs` keeps and returns are outputs that the layer predicts for
/// `inputs`.
pub proof fn lemma_forward_agrees_with_predict<T: Scalar>(
    layer: Layer<T>,
    inputs: Seq<T>,
    after: Layer<T>,
)
    requires
        shares_function(layer),
        layer.forwards(inputs, after),
    ensures
        layer.predicts(inputs, after.current_outputs@),
{
    let raw = choose|raw: Seq<Neuron<T>>| #[trigger] layer.forwards_via(inputs, raw, after);
    let raw_outputs = outputs_of(raw);
    let outputs = after.current_outputs@;
    assert forall|i: int| 0 <= i < raw.len() implies layer.neurons@[i].predicts(
        inputs,
        #[trigger] raw_outputs[i],
    ) by {
        assert(layer.neurons@[i].forwards(inputs, raw[i]));
        assert(is_net_input(layer.neurons@[i].weights@, layer.neurons@[i].threshold, inputs, raw[i].x)
            && layer.neurons@[i].activation_function.applies(raw[i].x, raw[i].y));
    }
    if layer.activation_function == ActivationFunction::Softmax {
        assert forall|i: int| 0 <= i < raw.len() implies is_softmax(
            raw_outputs[i],
            raw_outputs,
            #[trigger] outputs[i],
        ) by {
            assert(raw[i].commits_activation(raw_outputs, after.neurons@[i]));
            assert(layer.neurons@[i].forwards(inputs, raw[i]));
        }
    } else {
        assert(outputs =~= raw_outputs);
    }
    assert(layer.predicts_via(inputs, raw_outputs, outputs));
}

} // verus!
