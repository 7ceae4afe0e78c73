//! A neuron: a weight for each input and a threshold, with what one training step
//! leaves behind in it.

use vstd::prelude::*;
use crate::scalar::{
    Scalar, is_int, is_count, is_greatest, is_sum, is_difference, is_product, is_quotient,
    is_uniform, is_drawn, is_total, is_ratio, total, ratio, copy_of,
};
use crate::nn::activation_functions::{ActivationFunctionTrait, ActivationFunctionWrapper};
use crate::nn::layer::{Layer, LayerType};
use crate::shuffle::draw;
use rand::rngs::StdRng;

verus! {

/// One neuron of a layer.
#[derive(Clone)]
pub struct Neuron<T: Scalar> {
    pub layer_type: LayerType,
    /// One weight for each input of the layer.
    pub weights: Vec<T>,
    /// The bias, which is subtracted from the weighted sum of the inputs.
    pub threshold: T,
    pub activation_function: ActivationFunctionWrapper,
    /// The learning rate.
    pub alpha: T,
    /// The inputs of the last forward pass.
    pub inputs: Vec<T>,
    /// What the last backward pass found for this neuron.
    pub gradiant_error: T,
    /// The net input of the last forward pass.
    pub x: T,
    /// The output of the last forward pass.
    pub y: T,
}

/// Where a neuron's error comes from in a backward pass.
#[derive(Clone, Copy)]
pub enum GradiantErrorInput<'a, T: Scalar> {
    /// The output that was wanted of a neuron of the output layer.
    YDesired(T),
    /// The layer after a hidden neuron's own, which went through its backward pass
    /// already.
    NextLayer(&'a Layer<T>),
    Error,
}

/// The number of pairs that `weights` and `inputs` form, one of each, from the left.
pub open spec fn paired<T>(weights: Seq<T>, inputs: Seq<T>) -> int {
    if weights.len() <= inputs.len() {
        weights.len() as int
    } else {
        inputs.len() as int
    }
}

/// `r` can be the sum of the products of each weight with its input; `products`
/// holds the products.
pub open spec fn is_weighted_sum_via<T: Scalar>(
    weights: Seq<T>,
    inputs: Seq<T>,
    products: Seq<T>,
    r: T,
) -> bool {
    &&& products.len() == paired(weights, inputs)
    &&& forall|i: int|
        0 <= i < products.len() ==> is_product(weights[i], inputs[i], #[trigger] products[i])
    &&& is_total(products, r)
}

/// `r` can be the sum of the products of each weight with its input.
pub open spec fn is_weighted_sum<T: Scalar>(weights: Seq<T>, inputs: Seq<T>, r: T) -> bool {
    exists|products: Seq<T>| #[trigger] is_weighted_sum_via(weights, inputs, products, r)
}

/// `x` can be the weighted sum of `inputs` less `threshold`.
pub open spec fn is_net_input<T: Scalar>(weights: Seq<T>, threshold: T, inputs: Seq<T>, x: T) -> bool {
    exists|s: T| #[trigger] is_weighted_sum(weights, inputs, s) && is_difference(s, threshold, x)
}

/// `w2` can be `w + alpha * input * g`; `steps` holds `alpha * input` and
/// `alpha * input * g`.
pub open spec fn is_weight_update_via<T: Scalar>(
    alpha: T,
    input: T,
    g: T,
    w: T,
    steps: Seq<T>,
    w2: T,
) -> bool {
    &&& steps.len() == 2
    &&& is_product(alpha, input, steps[0])
    &&& is_product(steps[0], g, steps[1])
    &&& is_sum(w, steps[1], w2)
}

/// `w2` can be `w + alpha * input * g`.
pub open spec fn is_weight_update<T: Scalar>(alpha: T, input: T, g: T, w: T, w2: T) -> bool {
    exists|steps: Seq<T>| #[trigger] is_weight_update_via(alpha, input, g, w, steps, w2)
}

/// `t2` can be `t + alpha * -1 * g`; `steps` holds the scalar for minus one,
/// `alpha * -1` and `alpha * -1 * g`.
pub open spec fn is_threshold_update_via<T: Scalar>(alpha: T, g: T, t: T, steps: Seq<T>, t2: T) -> bool {
    &&& steps.len() == 3
    &&& is_int((-1) as i32, steps[0])
    &&& is_product(alpha, steps[0], steps[1])
    &&& is_product(steps[1], g, steps[2])
    &&& is_sum(t, steps[2], t2)
}

/// `t2` can be `t + alpha * -1 * g`.
pub open spec fn is_threshold_update<T: Scalar>(alpha: T, g: T, t: T, t2: T) -> bool {
    exists|steps: Seq<T>| #[trigger] is_threshold_update_via(alpha, g, t, steps, t2)
}

/// `limit` can be `tenths / 10 / inputs_count`; `steps` holds `tenths / 10` and the
/// scalar for `inputs_count`.
pub open spec fn is_weight_limit_via<T: Scalar>(
    inputs_count: usize,
    tenths: i32,
    steps: Seq<T>,
    limit: T,
) -> bool {
    &&& steps.len() == 2
    &&& is_ratio(tenths, 10, steps[0])
    &&& is_count(inputs_count, steps[1])
    &&& is_quotient(steps[0], steps[1], limit)
}

/// `limit` can be `tenths / 10 / inputs_count`.
pub open spec fn is_weight_limit<T: Scalar>(inputs_count: usize, tenths: i32, limit: T) -> bool {
    exists|steps: Seq<T>| #[trigger] is_weight_limit_via(inputs_count, tenths, steps, limit)
}

/// The sum of the products of each weight with its input.
pub fn weighted_sum<T: Scalar>(weights: &Vec<T>, inputs: &Vec<T>) -> (r: T)
    ensures
        is_weighted_sum(weights@, inputs@, r),
{
    let n = if weights.len() <= inputs.len() {
        weights.len()
    } else {
        inputs.len()
    };
    let mut products: Vec<T> = Vec::new();
    let mut i: usize = 0;
    while i < n
        invariant
            i <= n,
            n == paired(weights@, inputs@),
            products.len() == i,
            forall|j: int|
                0 <= j < i ==> is_product(weights@[j], inputs@[j], #[trigger] products@[j]),
        decreases n - i,
    {
        products.push(weights[i].times(inputs[i]));
        i = i + 1;
    }
    let r = total(&products);
    assert(is_weighted_sum_via(weights@, inputs@, products@, r));
    r
}

/// The weighted sum of `inputs` less `threshold`.
pub fn net_input<T: Scalar>(weights: &Vec<T>, threshold: T, inputs: &Vec<T>) -> (x: T)
    ensures
        is_net_input(weights@, threshold, inputs@, x),
{
    let s = weighted_sum(weights, inputs);
    let x = s.minus(threshold);
    assert(is_weighted_sum(weights@, inputs@, s) && is_difference(s, threshold, x));
    x
}

/// `tenths / 10 / inputs_count`.
fn weight_limit<T: Scalar>(inputs_count: usize, tenths: i32) -> (limit: T)
    ensures
        is_weight_limit(inputs_count, tenths, limit),
{
    let span = ratio::<T>(tenths, 10);
    let n = T::from_count(inputs_count);
    let limit = span.over(n);
    assert(is_weight_limit_via(inputs_count, tenths, seq![span, n], limit));
    limit
}

impl<T: Scalar> Neuron<T> {
    /// `other` has the role, the weights, the threshold, the activation function and
    /// the learning rate of `self`.
    pub open spec fn same_parameters(self, other: Self) -> bool {
        &&& other.layer_type == self.layer_type
        &&& other.weights@ == self.weights@
        &&& other.threshold == self.threshold
        &&& other.activation_function == self.activation_function
        &&& other.alpha == self.alpha
    }

    /// `other` holds what the last forward pass left in `self`.
    pub open spec fn same_pass(self, other: Self) -> bool {
        &&& other.inputs@ == self.inputs@
        &&& other.x == self.x
        &&& other.y == self.y
    }

    /// `self` can be a new neuron for `inputs_count` inputs: each weight and the
    /// threshold drawn between `low` and `high`, which can be `-2.4 / inputs_count`
    /// and `2.4 / inputs_count`, and no pass made yet.
    pub open spec fn is_fresh_via(
        self,
        layer_type: LayerType,
        inputs_count: usize,
        activation_function: ActivationFunctionWrapper,
        alpha: T,
        low: T,
        high: T,
    ) -> bool {
        &&& self.layer_type == layer_type
        &&& self.activation_function == activation_function
        &&& self.alpha == alpha
        &&& is_weight_limit(inputs_count, (-24) as i32, low)
        &&& is_weight_limit(inputs_count, 24, high)
        &&& self.weights@.len() == inputs_count
        &&& forall|i: int| 0 <= i < inputs_count ==> is_drawn(low, high, #[trigger] self.weights@[i])
        &&& is_drawn(low, high, self.threshold)
        &&& self.inputs@.len() == 0
        &&& is_greatest(self.gradiant_error)
        &&& is_greatest(self.x)
        &&& is_greatest(self.y)
    }

    /// `self` can be a new neuron for `inputs_count` inputs.
    pub open spec fn is_fresh(
        self,
        layer_type: LayerType,
        inputs_count: usize,
        activation_function: ActivationFunctionWrapper,
        alpha: T,
    ) -> bool {
        exists|low: T, high: T| #[trigger]
            self.is_fresh_via(layer_type, inputs_count, activation_function, alpha, low, high)
    }

    /// `y` can be the output of this neuron on `inputs`.
    pub open spec fn predicts(self, inputs: Seq<T>, y: T) -> bool {
        exists|x: T| #[trigger]
            is_net_input(self.weights@, self.threshold, inputs, x)
                && self.activation_function.applies(x, y)
    }

    /// `after` can be this neuron after a forward pass on `inputs`.
    pub open spec fn forwards(self, inputs: Seq<T>, after: Self) -> bool {
        &&& self.same_parameters(after)
        &&& after.gradiant_error == self.gradiant_error
        &&& after.inputs@ == inputs
        &&& is_net_input(self.weights@, self.threshold, inputs, after.x)
        &&& self.activation_function.applies(after.x, after.y)
    }

    /// `after` can be this neuron once its output was normalised with the outputs of
    /// its layer.
    pub open spec fn commits_activation(self, layer_outputs: Seq<T>, after: Self) -> bool {
        &&& self.same_parameters(after)
        &&& after.gradiant_error == self.gradiant_error
        &&& after.inputs@ == self.inputs@
        &&& after.x == self.x
        &&& self.activation_function.commits(self.y, layer_outputs, after.y)
    }

    /// `g` can be `slope * err`, for a `slope` that can be the activation function's
    /// at the net input of the last forward pass.
    pub open spec fn is_gradient_via(self, layer_outputs: Seq<T>, err: T, slope: T, g: T) -> bool {
        self.activation_function.derives(self.x, layer_outputs, slope) && is_product(slope, err, g)
    }

    /// `g` can be the slope at the net input of the last forward pass times `err`.
    pub open spec fn is_gradient(self, layer_outputs: Seq<T>, err: T, g: T) -> bool {
        exists|slope: T| #[trigger] self.is_gradient_via(layer_outputs, err, slope, g)
    }

    /// `g` can be the gradient error of this neuron of the output layer: the slope
    /// times `y_desired - y`.
    pub open spec fn is_output_gradient(self, y_desired: T, layer_outputs: Seq<T>, g: T) -> bool {
        exists|err: T| #[trigger]
            is_difference(y_desired, self.y, err) && self.is_gradient(layer_outputs, err, g)
    }

    /// `r` can be what this neuron sends back to the neuron `w_index` of the layer
    /// before: its gradient error times the weight it gives that neuron's output.
    pub open spec fn is_effect(self, w_index: int, r: T) -> bool {
        is_product(self.gradiant_error, self.weights@[w_index], r)
    }

    /// `g` can be the gradient error of this hidden neuron, the neuron `index` of its
    /// layer: the slope times the sum of what the neurons of `next_layer` send back.
    pub open spec fn is_hidden_gradient(
        self,
        next_layer: Layer<T>,
        index: int,
        layer_outputs: Seq<T>,
        g: T,
    ) -> bool {
        exists|err: T| #[trigger]
            is_hidden_error(next_layer, index, err) && self.is_gradient(layer_outputs, err, g)
    }

    /// A backward pass from `input` cannot fail.
    pub open spec fn can_go_backward(
        self,
        input: GradiantErrorInput<T>,
        index: int,
        layer_outputs: Seq<T>,
    ) -> bool {
        match (self.layer_type, input) {
            (LayerType::Output, GradiantErrorInput::YDesired(_)) => {
                self.activation_function.reads_layer() ==> layer_outputs.len() > 0
            },
            (LayerType::Hidden, GradiantErrorInput::NextLayer(next_layer)) => {
                &&& self.activation_function.reads_layer() ==> layer_outputs.len() > 0
                &&& forall|k: int|
                    0 <= k < next_layer.neurons@.len() ==> 0 <= index
                        < (#[trigger] next_layer.neurons@[k]).weights@.len()
            },
            _ => true,
        }
    }

    /// `after` can be this neuron after a backward pass from `input`.
    pub open spec fn backwards(
        self,
        input: GradiantErrorInput<T>,
        index: int,
        layer_outputs: Seq<T>,
        after: Self,
    ) -> bool {
        &&& self.same_parameters(after)
        &&& self.same_pass(after)
        &&& match (self.layer_type, input) {
            (LayerType::Output, GradiantErrorInput::YDesired(y_desired)) => {
                self.is_output_gradient(y_desired, layer_outputs, after.gradiant_error)
            },
            (LayerType::Hidden, GradiantErrorInput::NextLayer(next_layer)) => {
                self.is_hidden_gradient(*next_layer, index, layer_outputs, after.gradiant_error)
            },
            _ => after.gradiant_error == self.gradiant_error,
        }
    }

    /// `after` can be this neuron after its weights and threshold were moved along
    /// its gradient error, for the `inputs` of the forward pass.
    pub open spec fn commits(self, inputs: Seq<T>, after: Self) -> bool {
        &&& after.layer_type == self.layer_type
        &&& after.activation_function == self.activation_function
        &&& after.alpha == self.alpha
        &&& after.gradiant_error == self.gradiant_error
        &&& self.same_pass(after)
        &&& after.weights@.len() == paired(self.weights@, inputs)
        &&& forall|i: int|
            0 <= i < after.weights@.len() ==> is_weight_update(
                self.alpha,
                inputs[i],
                self.gradiant_error,
                self.weights@[i],
                #[trigger] after.weights@[i],
            )
        &&& is_threshold_update(self.alpha, self.gradiant_error, self.threshold, after.threshold)
    }

    /// A neuron for `inputs_count` inputs, with weights and a threshold drawn between
    /// `-2.4 / inputs_count` and `2.4 / inputs_count`. All chance comes from
    /// `generator`: one number is drawn from it for each weight, in their order, and
    /// then one for the threshold.
    pub fn new(
        layer_type: LayerType,
        inputs_count: usize,
        activation_function: ActivationFunctionWrapper,
        alpha: T,
        generator: &mut StdRng,
    ) -> (neuron: Self)
        requires
            inputs_count > 0,
        ensures
            neuron.is_fresh(layer_type, inputs_count, activation_function, alpha),
    {
        let low = weight_limit::<T>(inputs_count, -24);
        let high = weight_limit::<T>(inputs_count, 24);
        let mut weights: Vec<T> = Vec::new();
        let mut i: usize = 0;
        while i < inputs_count
            invariant
                i <= inputs_count,
                weights.len() == i,
                forall|j: int| 0 <= j < i ==> is_drawn(low, high, #[trigger] weights@[j]),
            decreases inputs_count - i,
        {
            let number = draw(generator);
            let weight = T::uniform(low, high, number);
            assert(is_uniform(low, high, number, weight));
            weights.push(weight);
            i = i + 1;
        }
        let number = draw(generator);
        let threshold = T::uniform(low, high, number);
        assert(is_uniform(low, high, number, threshold));
        let neuron = Neuron {
            layer_type,
            weights,
            threshold,
            activation_function,
            alpha,
            inputs: Vec::new(),
            gradiant_error: T::greatest(),
            x: T::greatest(),
            y: T::greatest(),
        };
        assert(neuron.is_fresh_via(layer_type, inputs_count, activation_function, alpha, low, high));
        neuron
    }

    /// A neuron with the given weights and threshold, and no pass made yet.
    pub fn from_parameters(
        layer_type: LayerType,
        weights: Vec<T>,
        threshold: T,
        activation_function: ActivationFunctionWrapper,
        alpha: T,
    ) -> (neuron: Self)
        ensures
            neuron.layer_type == layer_type,
            neuron.weights@ == weights@,
            neuron.threshold == threshold,
            neuron.activation_function == activation_function,
            neuron.alpha == alpha,
            neuron.inputs@.len() == 0,
            is_greatest(neuron.gradiant_error),
            is_greatest(neuron.x),
            is_greatest(neuron.y),
    {
        Neuron {
            layer_type,
            weights,
            threshold,
            activation_function,
            alpha,
            inputs: Vec::new(),
            gradiant_error: T::greatest(),
            x: T::greatest(),
            y: T::greatest(),
        }
    }

    /// Keeps `inputs`, computes the net input and the output for them, and returns
    /// the output.
    pub fn forward(&mut self, inputs: &Vec<T>) -> (y: T)
        ensures
            old(self).forwards(inputs@, *final(self)),
            old(self).predicts(inputs@, y),
            y == final(self).y,
    {
        self.inputs = copy_of(inputs);
        self.x = net_input(&self.weights, self.threshold, inputs);
        self.y = self.activation_function.apply(self.x);
        assert(is_net_input(old(self).weights@, old(self).threshold, inputs@, self.x)
            && old(self).activation_function.applies(self.x, self.y));
        self.y
    }

    /// Sets the gradient error from what was wanted of this neuron, or from the
    /// layer after its own; any other pairing of role and `input` changes nothing.
    pub fn backward(&mut self, input: GradiantErrorInput<T>, index: usize, layer_outputs: &Vec<T>)
        requires
            old(self).can_go_backward(input, index as int, layer_outputs@),
        ensures
            old(self).backwards(input, index as int, layer_outputs@, *final(self)),
    {
        match (self.layer_type, input) {
            (LayerType::Output, GradiantErrorInput::YDesired(y_desired)) => {
                self.compute_output_layer_gradiant_error(y_desired, layer_outputs)
            },
            (LayerType::Hidden, GradiantErrorInput::NextLayer(next_layer)) => {
                self.compute_hidden_layer_gradiant_error(next_layer, index, layer_outputs)
            },
            _ => (),
        }
    }

    /// Replaces the output by what it becomes among the outputs of the whole layer.
    pub fn commit_activation_function(&mut self, layer_outputs: &Vec<T>)
        requires
            old(self).activation_function.reads_layer() ==> layer_outputs.len() > 0,
        ensures
            old(self).commits_activation(layer_outputs@, *final(self)),
    {
        self.y = self.activation_function.commit(self.y, layer_outputs);
    }

    /// Moves each weight by `alpha * input * gradient error` and the threshold by
    /// `alpha * -1 * gradient error`.
    pub fn commit(&mut self, inputs: &Vec<T>)
        ensures
            old(self).commits(inputs@, *final(self)),
    {
        let n = if self.weights.len() <= inputs.len() {
            self.weights.len()
        } else {
            inputs.len()
        };
        let mut weights: Vec<T> = Vec::new();
        let mut i: usize = 0;
        while i < n
            invariant
                i <= n,
                n == paired(self.weights@, inputs@),
                weights.len() == i,
                forall|j: int|
                    0 <= j < i ==> is_weight_update(
                        self.alpha,
                        inputs@[j],
                        self.gradiant_error,
                        self.weights@[j],
                        #[trigger] weights@[j],
                    ),
            decreases n - i,
        {
            let step = self.alpha.times(inputs[i]);
            let delta = step.times(self.gradiant_error);
            let w = self.weights[i].plus(delta);
            assert(is_weight_update_via(
                self.alpha,
                inputs@[i as int],
                self.gradiant_error,
                self.weights@[i as int],
                seq![step, delta],
                w,
            ));
            weights.push(w);
            i = i + 1;
        }
        let minus_one = T::from_int(-1);
        let step = self.alpha.times(minus_one);
        let delta = step.times(self.gradiant_error);
        let threshold = self.threshold.plus(delta);
        assert(is_threshold_update_via(
            self.alpha,
            self.gradiant_error,
            self.threshold,
            seq![minus_one, step, delta],
            threshold,
        ));
        self.weights = weights;
        self.threshold = threshold;
    }

    /// The gradient error of a neuron of the output layer: the slope times what was
    /// wanted less the output.
    fn compute_output_layer_gradiant_error(&mut self, y_desired: T, layer_outputs: &Vec<T>)
        requires
            old(self).activation_function.reads_layer() ==> layer_outputs.len() > 0,
        ensures
            old(self).same_parameters(*final(self)),
            old(self).same_pass(*final(self)),
            old(self).is_output_gradient(y_desired, layer_outputs@, final(self).gradiant_error),
    {
        let err = y_desired.minus(self.y);
        self.gradiant_error = self.gradient(layer_outputs, err);
        assert(is_difference(y_desired, old(self).y, err) && old(self).is_gradient(
            layer_outputs@,
            err,
            self.gradiant_error,
        ));
    }

    /// The gradient error of a hidden neuron, the neuron `index` of its layer: the
    /// slope times the sum of what the neurons of `next_layer` send back to it.
    fn compute_hidden_layer_gradiant_error(
        &mut self,
        next_layer: &Layer<T>,
        index: usize,
        layer_outputs: &Vec<T>,
    )
        requires
            old(self).activation_function.reads_layer() ==> layer_outputs.len() > 0,
            forall|k: int|
                0 <= k < next_layer.neurons@.len() ==> index
                    < (#[trigger] next_layer.neurons@[k]).weights@.len(),
        ensures
            old(self).same_parameters(*final(self)),
            old(self).same_pass(*final(self)),
            old(self).is_hidden_gradient(
                *next_layer,
                index as int,
                layer_outputs@,
                final(self).gradiant_error,
            ),
    {
        let mut effects: Vec<T> = Vec::new();
        let mut k: usize = 0;
        while k < next_layer.neurons.len()
            invariant
                k <= next_layer.neurons@.len(),
                effects.len() == k,
                forall|j: int|
                    0 <= j < next_layer.neurons@.len() ==> index
                        < (#[trigger] next_layer.neurons@[j]).weights@.len(),
                forall|j: int|
                    0 <= j < k ==> next_layer.neurons@[j].is_effect(
                        index as int,
                        #[trigger] effects@[j],
                    ),
            decreases next_layer.neurons@.len() - k,
        {
            effects.push(next_layer.neurons[k].get_prev_neuron_effect(index));
            k = k + 1;
        }
        let err = total(&effects);
        assert(is_hidden_error_via(*next_layer, index as int, effects@, err));
        self.gradiant_error = self.gradient(layer_outputs, err);
        assert(is_hidden_error(*next_layer, index as int, err) && old(self).is_gradient(
            layer_outputs@,
            err,
            self.gradiant_error,
        ));
    }

    /// The slope at the net input of the last forward pass times `err`.
    fn gradient(&self, layer_outputs: &Vec<T>, err: T) -> (g: T)
        requires
            self.activation_function.reads_layer() ==> layer_outputs.len() > 0,
        ensures
            self.is_gradient(layer_outputs@, err, g),
    {
        let slope = self.activation_function.derivative(self.x, layer_outputs);
        let g = slope.times(err);
        assert(self.is_gradient_via(layer_outputs@, err, slope, g));
        g
    }

    /// The output of this neuron on `inputs`. Nothing in the neuron changes.
    pub fn predict(&self, inputs: &Vec<T>) -> (y: T)
        ensures
            self.predicts(inputs@, y),
    {
        let x = net_input(&self.weights, self.threshold, inputs);
        let y = self.activation_function.apply(x);
        assert(is_net_input(self.weights@, self.threshold, inputs@, x)
            && self.activation_function.applies(x, y));
        y
    }

    /// What this neuron sends back to the neuron `w_index` of the layer before: its
    /// gradient error times the weight it gives that neuron's output.
    pub fn get_prev_neuron_effect(&self, w_index: usize) -> (r: T)
        requires
            w_index < self.weights@.len(),
        ensures
            self.is_effect(w_index as int, r),
    {
        self.gradiant_error.times(self.weights[w_index])
    }

    /// The weights and the threshold.
    pub fn get_parameters(&self) -> (parameters: (Vec<T>, T))
        ensures
            parameters.0@ == self.weights@,
            parameters.1 == self.threshold,
    {
        (copy_of(&self.weights), self.threshold)
    }
}

/// `err` can be the sum of what the neurons of `next_layer` send back to the neuron
/// `index` of the layer before; `effects` holds what each sends.
pub open spec fn is_hidden_error_via<T: Scalar>(
    next_layer: Layer<T>,
    index: int,
    effects: Seq<T>,
    err: T,
) -> bool {
    &&& effects.len() == next_layer.neurons@.len()
    &&& forall|k: int|
        0 <= k < effects.len() ==> next_layer.neurons@[k].is_effect(index, #[trigger] effects[k])
    &&& is_total(effects, err)
}

/// `err` can be the sum of what the neurons of `next_layer` send back to the neuron
/// `index` of the layer before.
pub open spec fn is_hidden_error<T: Scalar>(next_layer: Layer<T>, index: int, err: T) -> bool {
    exists|effects: Seq<T>| #[trigger] is_hidden_error_via(next_layer, index, effects, err)
}

} // verus!
