//! What a network predicts is settled by its weights and its inputs, as far as the
//! arithmetic is: where every operation of the scalar has one result for given
//! operands, so has every prediction, whatever the order in which the neurons of a
//! layer were evaluated.

use vstd::prelude::*;
use crate::scalar::{
    Scalar, is_int, is_sum, is_difference, is_product, is_quotient, is_exp, is_tanh, is_larger,
    is_below, is_same, is_running_total, is_total, is_ratio, is_ratio_via,
};
use crate::nn::NeuralNetwork;
use crate::nn::normalization::{
    is_normalized, is_normalized_row, is_normalized_via, is_scaled_via,
};
use crate::nn::prediction::{is_chain, is_chain_via};
use crate::nn::activation_functions::{
    ActivationFunction, ActivationFunctionTrait, ActivationFunctionWrapper, is_sigmoid,
    is_sigmoid_via, is_relu, is_negative, is_negative_via, is_leaky_relu, is_leaky_relu_via,
    is_peak, is_running_peak, is_shifted_exp, is_softmax, is_softmax_via,
};
use crate::nn::layer::Layer;
use crate::nn::neuron::{
    Neuron, is_net_input, is_weighted_sum, is_weighted_sum_via, paired,
};

verus! {

/// Every operation that a prediction uses has one result for given operands.
pub open spec fn is_deterministic<T: Scalar>() -> bool {
    &&& forall|v: i32, r1: T, r2: T|
        #![trigger is_int(v, r1), is_int(v, r2)]
        is_int(v, r1) && is_int(v, r2) ==> r1 == r2
    &&& forall|a: T, b: T, r1: T, r2: T|
        #![trigger is_sum(a, b, r1), is_sum(a, b, r2)]
        is_sum(a, b, r1) && is_sum(a, b, r2) ==> r1 == r2
    &&& forall|a: T, b: T, r1: T, r2: T|
        #![trigger is_difference(a, b, r1), is_difference(a, b, r2)]
        is_difference(a, b, r1) && is_difference(a, b, r2) ==> r1 == r2
    &&& forall|a: T, b: T, r1: T, r2: T|
        #![trigger is_product(a, b, r1), is_product(a, b, r2)]
        is_product(a, b, r1) && is_product(a, b, r2) ==> r1 == r2
    &&& forall|a: T, b: T, r1: T, r2: T|
        #![trigger is_quotient(a, b, r1), is_quotient(a, b, r2)]
        is_quotient(a, b, r1) && is_quotient(a, b, r2) ==> r1 == r2
    &&& forall|a: T, r1: T, r2: T|
        #![trigger is_exp(a, r1), is_exp(a, r2)]
        is_exp(a, r1) && is_exp(a, r2) ==> r1 == r2
    &&& forall|a: T, r1: T, r2: T|
        #![trigger is_tanh(a, r1), is_tanh(a, r2)]
        is_tanh(a, r1) && is_tanh(a, r2) ==> r1 == r2
    &&& forall|a: T, b: T, r1: T, r2: T|
        #![trigger is_larger(a, b, r1), is_larger(a, b, r2)]
        is_larger(a, b, r1) && is_larger(a, b, r2) ==> r1 == r2
    &&& forall|a: T, b: T, r1: bool, r2: bool|
        #![trigger is_below(a, b, r1), is_below(a, b, r2)]
        is_below(a, b, r1) && is_below(a, b, r2) ==> r1 == r2
    &&& forall|a: T, b: T, r1: bool, r2: bool|
        #![trigger is_same(a, b, r1), is_same(a, b, r2)]
        is_same(a, b, r1) && is_same(a, b, r2) ==> r1 == r2
}

/// Two running totals of the same terms agree at every place.
proof fn lemma_running_totals_agree<T: Scalar>(terms: Seq<T>, left: Seq<T>, right: Seq<T>, i: int)
    requires
        is_deterministic::<T>(),
        is_running_total(terms, left),
        is_running_total(terms, right),
        0 <= i <= terms.len(),
    ensures
        left[i] == right[i],
    decreases i,
{
    if i > 0 {
        lemma_running_totals_agree(terms, left, right, i - 1);
        assert(is_sum(left[i - 1], terms[i - 1], left[i - 1 + 1]));
        assert(is_sum(right[i - 1], terms[i - 1], right[i - 1 + 1]));
    }
}

/// Terms have one total.
proof fn lemma_total_unique<T: Scalar>(terms: Seq<T>, r1: T, r2: T)
    requires
        is_deterministic::<T>(),
        is_total(terms, r1),
        is_total(terms, r2),
    ensures
        r1 == r2,
{
    let left = choose|p: Seq<T>| #[trigger] is_running_total(terms, p) && p.last() == r1;
    let right = choose|p: Seq<T>| #[trigger] is_running_total(terms, p) && p.last() == r2;
    lemma_running_totals_agree(terms, left, right, terms.len() as int);
}

/// Two integers have one ratio.
proof fn lemma_ratio_unique<T: Scalar>(n: i32, d: i32, r1: T, r2: T)
    requires
        is_deterministic::<T>(),
        is_ratio(n, d, r1),
        is_ratio(n, d, r2),
    ensures
        r1 == r2,
{
    let left = choose|p: Seq<T>| #[trigger] is_ratio_via(n, d, p, r1);
    let right = choose|p: Seq<T>| #[trigger] is_ratio_via(n, d, p, r2);
    assert(left[0] == right[0]);
    assert(left[1] == right[1]);
}

/// Weights and inputs have one weighted sum.
proof fn lemma_weighted_sum_unique<T: Scalar>(weights: Seq<T>, inputs: Seq<T>, r1: T, r2: T)
    requires
        is_deterministic::<T>(),
        is_weighted_sum(weights, inputs, r1),
        is_weighted_sum(weights, inputs, r2),
    ensures
        r1 == r2,
{
    let left = choose|p: Seq<T>| #[trigger] is_weighted_sum_via(weights, inputs, p, r1);
    let right = choose|p: Seq<T>| #[trigger] is_weighted_sum_via(weights, inputs, p, r2);
    assert forall|i: int| 0 <= i < paired(weights, inputs) implies left[i] == right[i] by {
        assert(is_product(weights[i], inputs[i], left[i]));
        assert(is_product(weights[i], inputs[i], right[i]));
    }
    assert(left =~= right);
    lemma_total_unique(left, r1, r2);
}

/// Weights, a threshold and inputs give one net input.
proof fn lemma_net_input_unique<T: Scalar>(weights: Seq<T>, threshold: T, inputs: Seq<T>, x1: T, x2: T)
    requires
        is_deterministic::<T>(),
        is_net_input(weights, threshold, inputs, x1),
        is_net_input(weights, threshold, inputs, x2),
    ensures
        x1 == x2,
{
    let s1 = choose|s: T| #[trigger] is_weighted_sum(weights, inputs, s) && is_difference(s, threshold, x1);
    let s2 = choose|s: T| #[trigger] is_weighted_sum(weights, inputs, s) && is_difference(s, threshold, x2);
    lemma_weighted_sum_unique(weights, inputs, s1, s2);
}

/// The logistic function has one value at `x`.
proof fn lemma_sigmoid_unique<T: Scalar>(x: T, y1: T, y2: T)
    requires
        is_deterministic::<T>(),
        is_sigmoid(x, y1),
        is_sigmoid(x, y2),
    ensures
        y1 == y2,
{
    let s1 = choose|s: Seq<T>| #[trigger] is_sigmoid_via(x, s, y1);
    let s2 = choose|s: Seq<T>| #[trigger] is_sigmoid_via(x, s, y2);
    assert(s1[0] == s2[0]);
    assert(s1[1] == s2[1]);
    assert(s1[2] == s2[2]);
    assert(s1[3] == s2[3]);
    assert(s1[4] == s2[4]);
}

/// The rectifier has one value at `x`.
proof fn lemma_relu_unique<T: Scalar>(x: T, y1: T, y2: T)
    requires
        is_deterministic::<T>(),
        is_relu(x, y1),
        is_relu(x, y2),
    ensures
        y1 == y2,
{
    let z1 = choose|z: T| #[trigger] is_int(0, z) && is_larger(z, x, y1);
    let z2 = choose|z: T| #[trigger] is_int(0, z) && is_larger(z, x, y2);
    assert(z1 == z2);
}

/// Whether `x` is negative has one answer.
proof fn lemma_negative_unique<T: Scalar>(x: T, n1: bool, n2: bool)
    requires
        is_deterministic::<T>(),
        is_negative(x, n1),
        is_negative(x, n2),
    ensures
        n1 == n2,
{
    let z1 = choose|z: T| #[trigger] is_negative_via(x, z, n1);
    let z2 = choose|z: T| #[trigger] is_negative_via(x, z, n2);
    assert(z1 == z2);
}

/// The leaky rectifier has one value at `x`.
proof fn lemma_leaky_relu_unique<T: Scalar>(x: T, y1: T, y2: T)
    requires
        is_deterministic::<T>(),
        is_leaky_relu(x, y1),
        is_leaky_relu(x, y2),
    ensures
        y1 == y2,
{
    let (n1, l1) = choose|n: bool, l: T| #[trigger] is_leaky_relu_via(x, n, l, y1);
    let (n2, l2) = choose|n: bool, l: T| #[trigger] is_leaky_relu_via(x, n, l, y2);
    lemma_negative_unique(x, n1, n2);
    if n1 {
        lemma_ratio_unique(1, 100, l1, l2);
    }
}

/// Two running peaks of the same values agree at every place.
proof fn lemma_running_peaks_agree<T: Scalar>(values: Seq<T>, left: Seq<T>, right: Seq<T>, i: int)
    requires
        is_deterministic::<T>(),
        is_running_peak(values, left),
        is_running_peak(values, right),
        0 <= i < values.len(),
    ensures
        left[i] == right[i],
    decreases i,
{
    if i > 0 {
        lemma_running_peaks_agree(values, left, right, i - 1);
        assert(is_larger(left[i - 1], values[i], left[i]));
        assert(is_larger(right[i - 1], values[i], right[i]));
    }
}

/// Values have one peak.
proof fn lemma_peak_unique<T: Scalar>(values: Seq<T>, m1: T, m2: T)
    requires
        is_deterministic::<T>(),
        is_peak(values, m1),
        is_peak(values, m2),
    ensures
        m1 == m2,
{
    let left = choose|p: Seq<T>| #[trigger] is_running_peak(values, p) && p.last() == m1;
    let right = choose|p: Seq<T>| #[trigger] is_running_peak(values, p) && p.last() == m2;
    lemma_running_peaks_agree(values, left, right, values.len() - 1);
}

/// `exp(v - peak)` has one value.
proof fn lemma_shifted_exp_unique<T: Scalar>(v: T, peak: T, e1: T, e2: T)
    requires
        is_deterministic::<T>(),
        is_shifted_exp(v, peak, e1),
        is_shifted_exp(v, peak, e2),
    ensures
        e1 == e2,
{
    let s1 = choose|s: T| #[trigger] is_difference(v, peak, s) && is_exp(s, e1);
    let s2 = choose|s: T| #[trigger] is_difference(v, peak, s) && is_exp(s, e2);
    assert(s1 == s2);
}

/// An output has one share among the outputs of its layer.
proof fn lemma_softmax_unique<T: Scalar>(x: T, all_outputs: Seq<T>, y1: T, y2: T)
    requires
        is_deterministic::<T>(),
        is_softmax(x, all_outputs, y1),
        is_softmax(x, all_outputs, y2),
    ensures
        y1 == y2,
{
    let (s1, t1) = choose|s: Seq<T>, t: Seq<T>| #[trigger] is_softmax_via(x, all_outputs, s, t, y1);
    let (s2, t2) = choose|s: Seq<T>, t: Seq<T>| #[trigger] is_softmax_via(x, all_outputs, s, t, y2);
    lemma_peak_unique(all_outputs, s1[0], s2[0]);
    lemma_shifted_exp_unique(x, s1[0], s1[1], s2[1]);
    assert forall|i: int| 0 <= i < all_outputs.len() implies t1[i] == t2[i] by {
        assert(is_shifted_exp(all_outputs[i], s1[0], t1[i]));
        assert(is_shifted_exp(all_outputs[i], s2[0], t2[i]));
        lemma_shifted_exp_unique(all_outputs[i], s1[0], t1[i], t2[i]);
    }
    assert(t1 =~= t2);
    lemma_total_unique(t1, s1[2], s2[2]);
}

/// An activation function has one value at `x`.
proof fn lemma_applies_unique<T: Scalar>(function: ActivationFunctionWrapper, x: T, y1: T, y2: T)
    requires
        is_deterministic::<T>(),
        function.applies(x, y1),
        function.applies(x, y2),
    ensures
        y1 == y2,
{
    match function {
        ActivationFunctionWrapper::Linear(_) => {},
        ActivationFunctionWrapper::Sigmoid(_) => {
            lemma_sigmoid_unique(x, y1, y2);
        },
        ActivationFunctionWrapper::Relu(_) => {
            lemma_relu_unique(x, y1, y2);
        },
        ActivationFunctionWrapper::LeakyRelu(_) => {
            lemma_leaky_relu_unique(x, y1, y2);
        },
        ActivationFunctionWrapper::Tanh(_) => {},
        ActivationFunctionWrapper::Softmax(_) => {},
    }
}

/// A neuron has one output for given inputs.
pub proof fn lemma_neuron_predicts_one_output<T: Scalar>(
    neuron: Neuron<T>,
    inputs: Seq<T>,
    y1: T,
    y2: T,
)
    requires
        is_deterministic::<T>(),
        neuron.predicts(inputs, y1),
        neuron.predicts(inputs, y2),
    ensures
        y1 == y2,
{
    let x1 = choose|x: T| #[trigger]
        is_net_input(neuron.weights@, neuron.threshold, inputs, x)
            && neuron.activation_function.applies(x, y1);
    let x2 = choose|x: T| #[trigger]
        is_net_input(neuron.weights@, neuron.threshold, inputs, x)
            && neuron.activation_function.applies(x, y2);
    lemma_net_input_unique(neuron.weights@, neuron.threshold, inputs, x1, x2);
    lemma_applies_unique(neuron.activation_function, x1, y1, y2);
}

/// A layer has one vector of outputs for given inputs.
pub proof fn lemma_layer_predicts_one_output<T: Scalar>(
    layer: Layer<T>,
    inputs: Seq<T>,
    outputs1: Seq<T>,
    outputs2: Seq<T>,
)
    requires
        is_deterministic::<T>(),
        layer.predicts(inputs, outputs1),
        layer.predicts(inputs, outputs2),
    ensures
        outputs1 == outputs2,
{
    let raw1 = choose|raw: Seq<T>| #[trigger] layer.predicts_via(inputs, raw, outputs1);
    let raw2 = choose|raw: Seq<T>| #[trigger] layer.predicts_via(inputs, raw, outputs2);
    assert forall|i: int| 0 <= i < raw1.len() implies raw1[i] == raw2[i] by {
        assert(layer.neurons@[i].predicts(inputs, raw1[i]));
        assert(layer.neurons@[i].predicts(inputs, raw2[i]));
        lemma_neuron_predicts_one_output(layer.neurons@[i], inputs, raw1[i], raw2[i]);
    }
    assert(raw1 =~= raw2);
    if layer.activation_function == ActivationFunction::Softmax {
        assert forall|i: int| 0 <= i < outputs1.len() implies outputs1[i] == outputs2[i] by {
            assert(is_softmax(raw1[i], raw1, outputs1[i]));
            assert(is_softmax(raw2[i], raw2, outputs2[i]));
            lemma_softmax_unique(raw1[i], raw1, outputs1[i], outputs2[i]);
        }
        assert(outputs1 =~= outputs2);
    }
}

/// Two runs of the same layers on the same inputs agree after every layer.
proof fn lemma_stages_agree<T: Scalar>(
    layers: Seq<Layer<T>>,
    inputs: Seq<T>,
    stages1: Seq<Seq<T>>,
    outputs1: Seq<T>,
    stages2: Seq<Seq<T>>,
    outputs2: Seq<T>,
    l: int,
)
    requires
        is_deterministic::<T>(),
        is_chain_via(layers, inputs, stages1, outputs1),
        is_chain_via(layers, inputs, stages2, outputs2),
        0 <= l <= layers.len(),
    ensures
        stages1[l] == stages2[l],
    decreases l,
{
    if l > 0 {
        lemma_stages_agree(layers, inputs, stages1, outputs1, stages2, outputs2, l - 1);
        assert(layers[l - 1].predicts(stages1[l - 1], stages1[l - 1 + 1]));
        assert(layers[l - 1].predicts(stages2[l - 1], stages2[l - 1 + 1]));
        lemma_layer_predicts_one_output(layers[l - 1], stages1[l - 1], stages1[l], stages2[l]);
    }
}

/// A chain of layers has one vector of outputs for given inputs.
pub proof fn lemma_chain_has_one_output<T: Scalar>(
    layers: Seq<Layer<T>>,
    inputs: Seq<T>,
    outputs1: Seq<T>,
    outputs2: Seq<T>,
)
    requires
        is_deterministic::<T>(),
        is_chain(layers, inputs, outputs1),
        is_chain(layers, inputs, outputs2),
    ensures
        outputs1 == outputs2,
{
    let stages1 = choose|s: Seq<Seq<T>>| #[trigger] is_chain_via(layers, inputs, s, outputs1);
    let stages2 = choose|s: Seq<Seq<T>>| #[trigger] is_chain_via(layers, inputs, s, outputs2);
    lemma_stages_agree(layers, inputs, stages1, outputs1, stages2, outputs2, layers.len() as int);
}

/// A value is brought into a range in one way.
proof fn lemma_normalized_unique<T: Scalar>(x: T, low: T, high: T, y1: T, y2: T)
    requires
        is_deterministic::<T>(),
        is_normalized(x, low, high, y1),
        is_normalized(x, low, high, y2),
    ensures
        y1 == y2,
{
    let f1 = choose|f: bool| #[trigger] is_normalized_via(x, low, high, f, y1);
    let f2 = choose|f: bool| #[trigger] is_normalized_via(x, low, high, f, y2);
    assert(f1 == f2);
    if !f1 {
        let s1 = choose|s: Seq<T>| #[trigger] is_scaled_via(x, low, high, s, y1);
        let s2 = choose|s: Seq<T>| #[trigger] is_scaled_via(x, low, high, s, y2);
        assert(s1[0] == s2[0]);
        assert(s1[1] == s2[1]);
    }
}

/// For fixed weights and feature ranges, and an arithmetic in which every operation
/// has one result for given operands, two predictions for the same inputs are the
/// same vector.
pub proof fn lemma_predict_is_deterministic<T: Scalar>(
    network: NeuralNetwork<T>,
    inputs: Seq<T>,
    outputs1: Seq<T>,
    outputs2: Seq<T>,
)
    requires
        is_deterministic::<T>(),
        network.predicts(inputs, outputs1),
        network.predicts(inputs, outputs2),
    ensures
        outputs1 == outputs2,
{
    let n1 = choose|n: Seq<T>| #[trigger]
        is_normalized_row(network.normalization_factors@, inputs, n) && is_chain(
            network.layers@,
            n,
            outputs1,
        );
    let n2 = choose|n: Seq<T>| #[trigger]
        is_normalized_row(network.normalization_factors@, inputs, n) && is_chain(
            network.layers@,
            n,
            outputs2,
        );
    assert forall|i: int| 0 <= i < inputs.len() implies n1[i] == n2[i] by {
        if i < network.normalization_factors@.len() {
            let range = network.normalization_factors@[i];
            assert(is_normalized(inputs[i], range.0, range.1, n1[i]));
            assert(is_normalized(inputs[i], range.0, range.1, n2[i]));
            lemma_normalized_unique(inputs[i], range.0, range.1, n1[i], n2[i]);
        }
    }
    assert(n1 =~= n2);
    lemma_chain_has_one_output(network.layers@, n1, outputs1, outputs2);
}

/// The neuron `i` has a turn in `order`.
pub open spec fn has_turn(order: Seq<int>, i: int) -> bool {
    exists|k: int| 0 <= k < order.len() && #[trigger] order[k] == i
}

/// `order` gives every neuron of a layer of `n` neurons a turn, and has `n` turns.
pub open spec fn is_order(order: Seq<int>, n: int) -> bool {
    &&& order.len() == n
    &&& forall|k: int| 0 <= k < n ==> 0 <= #[trigger] order[k] < n
    &&& forall|i: int| 0 <= i < n ==> #[trigger] has_turn(order, i)
}

/// `results[k]` can be the output, on `inputs`, of the neuron that was evaluated as
/// the `k`th: the neuron `order[k]`.
pub open spec fn is_evaluation<T: Scalar>(
    layer: Layer<T>,
    inputs: Seq<T>,
    order: Seq<int>,
    results: Seq<T>,
) -> bool {
    &&& is_order(order, layer.neurons@.len() as int)
    &&& results.len() == order.len()
    &&& forall|k: int|
        0 <= k < order.len() ==> layer.neurons@[order[k]].predicts(inputs, #[trigger] results[k])
}

/// Where the neuron `i` was evaluated in `order`.
pub open spec fn turn_of(order: Seq<int>, i: int) -> int {
    choose|k: int| 0 <= k < order.len() && #[trigger] order[k] == i
}

/// The results of an evaluation, each put at the place of its neuron.
pub open spec fn in_place<T>(order: Seq<int>, results: Seq<T>) -> Seq<T> {
    Seq::new(order.len(), |i: int| results[turn_of(order, i)])
}

/// The order in which the neurons of a layer are evaluated does not show in the
/// outputs of the layer: two evaluations of the same layer on the same inputs, each
/// in an order of its own, put the same output at the place of each neuron. This is
/// stated of an arithmetic in which every operation has one result for given
/// operands, and of the outputs before a layer normalises them together.
pub proof fn lemma_order_of_evaluation_does_not_show<T: Scalar>(
    layer: Layer<T>,
    inputs: Seq<T>,
    order1: Seq<int>,
    results1: Seq<T>,
    order2: Seq<int>,
    results2: Seq<T>,
)
    requires
        is_deterministic::<T>(),
        is_evaluation(layer, inputs, order1, results1),
        is_evaluation(layer, inputs, order2, results2),
    ensures
        in_place(order1, results1) == in_place(order2, results2),
        layer.activation_function != ActivationFunction::Softmax ==> layer.predicts(
            inputs,
            in_place(order1, results1),
        ),
{
    let n = layer.neurons@.len() as int;
    let placed1 = in_place(order1, results1);
    let placed2 = in_place(order2, results2);
    assert forall|i: int| 0 <= i < n implies placed1[i] == placed2[i] && layer.neurons@[i].predicts(
        inputs,
        #[trigger] placed1[i],
    ) by {
        assert(has_turn(order1, i));
        assert(has_turn(order2, i));
        let k1 = turn_of(order1, i);
        let k2 = turn_of(order2, i);
        assert(layer.neurons@[order1[k1]].predicts(inputs, results1[k1]));
        assert(layer.neurons@[order2[k2]].predicts(inputs, results2[k2]));
        lemma_neuron_predicts_one_output(layer.neurons@[i], inputs, results1[k1], results2[k2]);
    }
    assert(placed1 =~= placed2);
    if layer.activation_function != ActivationFunction::Softmax {
        assert(layer.predicts_via(inputs, placed1, placed1));
    }
}

/// The neuron at every place `k` of `reordered` has the weights, the threshold and
/// the activation function of the neuron at the place `order[k]` of `layer`, and the
/// two layers have the same activation function.
pub open spec fn is_reordered<T: Scalar>(layer: Layer<T>, order: Seq<int>, reordered: Layer<T>) -> bool {
    &&& is_order(order, layer.neurons@.len() as int)
    &&& reordered.neurons@.len() == layer.neurons@.len()
    &&& reordered.activation_function == layer.activation_function
    &&& forall|k: int|
        0 <= k < order.len() ==> {
            &&& (#[trigger] reordered.neurons@[k]).weights@ == layer.neurons@[order[k]].weights@
            &&& reordered.neurons@[k].threshold == layer.neurons@[order[k]].threshold
            &&& reordered.neurons@[k].activation_function
                == layer.neurons@[order[k]].activation_function
        }
}

/// A layer with its neurons in another order gives the same outputs in that other
/// order: each output belongs to its neuron, wherever the neuron stands and
/// whenever it was evaluated. This is stated of an arithmetic in which every
/// operation has one result for given operands, and of a layer that does not
/// normalise its outputs together.
pub proof fn lemma_reordered_layer_gives_reordered_outputs<T: Scalar>(
    layer: Layer<T>,
    order: Seq<int>,
    reordered: Layer<T>,
    inputs: Seq<T>,
    outputs: Seq<T>,
    reordered_outputs: Seq<T>,
)
    requires
        is_deterministic::<T>(),
        is_reordered(layer, order, reordered),
        layer.activation_function != ActivationFunction::Softmax,
        layer.predicts(inputs, outputs),
        reordered.predicts(inputs, reordered_outputs),
    ensures
        reordered_outputs.len() == outputs.len(),
        forall|k: int| 0 <= k < order.len() ==> #[trigger] reordered_outputs[k] == outputs[order[k]],
{
    let raw = choose|raw: Seq<T>| #[trigger] layer.predicts_via(inputs, raw, outputs);
    let reordered_raw = choose|raw: Seq<T>| #[trigger]
        reordered.predicts_via(inputs, raw, reordered_outputs);
    assert forall|k: int| 0 <= k < order.len() implies #[trigger] reordered_outputs[k]
        == outputs[order[k]] by {
        let there = layer.neurons@[order[k]];
        let here = reordered.neurons@[k];
        assert(here.weights@ == there.weights@);
        assert(there.predicts(inputs, raw[order[k]]));
        assert(here.predicts(inputs, reordered_raw[k]));
        let x = choose|x: T| #[trigger]
            is_net_input(here.weights@, here.threshold, inputs, x)
                && here.activation_function.applies(x, reordered_raw[k]);
        assert(is_net_input(there.weights@, there.threshold, inputs, x)
            && there.activation_function.applies(x, reordered_raw[k]));
        assert(there.predicts(inputs, reordered_raw[k]));
        lemma_neuron_predicts_one_output(there, inputs, raw[order[k]], reordered_raw[k]);
    }
}

} // verus!
