//! Activation functions: what each does to a neuron's net input, how a layer's
//! outputs are normalised together, and the slope used by backpropagation.

use vstd::prelude::*;
use crate::scalar::{
    Scalar, is_int, is_sum, is_difference, is_product, is_quotient, is_exp, is_tanh, is_larger,
    is_below, is_total, is_ratio, total, ratio,
};

verus! {

/// The activation functions a layer can be given.
#[derive(Debug, Copy, Clone, PartialEq, Eq, Structural)]
pub enum ActivationFunction {
    Linear,
    Sigmoid,
    Relu,
    LeakyRelu,
    Tanh,
    Softmax,
}

/// `d` can be `v * (1 - v)`; `steps` holds the scalar for one and `1 - v`.
pub open spec fn is_bell_via<T: Scalar>(v: T, steps: Seq<T>, d: T) -> bool {
    &&& steps.len() == 2
    &&& is_int(1, steps[0])
    &&& is_difference(steps[0], v, steps[1])
    &&& is_product(v, steps[1], d)
}

/// `d` can be `v * (1 - v)`.
pub open spec fn is_bell<T: Scalar>(v: T, d: T) -> bool {
    exists|steps: Seq<T>| #[trigger] is_bell_via(v, steps, d)
}

/// `y` can be `1 / (1 + exp(-1 * x))`; `steps` holds, in order, the scalar for minus
/// one, `-1 * x`, its exponential, the scalar for one, and `1 + exp(-1 * x)`.
pub open spec fn is_sigmoid_via<T: Scalar>(x: T, steps: Seq<T>, y: T) -> bool {
    &&& steps.len() == 5
    &&& is_int((-1) as i32, steps[0])
    &&& is_product(steps[0], x, steps[1])
    &&& is_exp(steps[1], steps[2])
    &&& is_int(1, steps[3])
    &&& is_sum(steps[3], steps[2], steps[4])
    &&& is_quotient(steps[3], steps[4], y)
}

/// `y` can be `1 / (1 + exp(-1 * x))`.
pub open spec fn is_sigmoid<T: Scalar>(x: T, y: T) -> bool {
    exists|steps: Seq<T>| #[trigger] is_sigmoid_via(x, steps, y)
}

/// `d` can be `v * (1 - v)` for a `v` that can be the sigmoid of `x`.
pub open spec fn is_sigmoid_slope<T: Scalar>(x: T, d: T) -> bool {
    exists|v: T| #[trigger] is_sigmoid(x, v) && is_bell(v, d)
}

/// `y` can be the larger of zero and `x`.
pub open spec fn is_relu<T: Scalar>(x: T, y: T) -> bool {
    exists|zero: T| #[trigger] is_int(0, zero) && is_larger(zero, x, y)
}

/// `negative` can be the answer to `x < 0`, for the scalar `zero` for zero.
pub open spec fn is_negative_via<T: Scalar>(x: T, zero: T, negative: bool) -> bool {
    is_int(0, zero) && is_below(x, zero, negative)
}

/// `negative` can be the answer to `x < 0`.
pub open spec fn is_negative<T: Scalar>(x: T, negative: bool) -> bool {
    exists|zero: T| #[trigger] is_negative_via(x, zero, negative)
}

/// `d` can be the slope of the rectifier at `x`: zero where `x < 0`, else one.
pub open spec fn is_relu_slope<T: Scalar>(x: T, d: T) -> bool {
    exists|negative: bool| #[trigger]
        is_negative(x, negative) && is_int(
            if negative {
                0
            } else {
                1
            },
            d,
        )
}

/// `y` can be `0.01 * x` where `x < 0`, and is `x` itself elsewhere; `leak` is the
/// hundredth that was used, if one was.
pub open spec fn is_leaky_relu_via<T: Scalar>(x: T, negative: bool, leak: T, y: T) -> bool {
    &&& is_negative(x, negative)
    &&& if negative {
        is_ratio(1, 100, leak) && is_product(leak, x, y)
    } else {
        y == x
    }
}

/// `y` can be `0.01 * x` where `x < 0`, and is `x` itself elsewhere.
pub open spec fn is_leaky_relu<T: Scalar>(x: T, y: T) -> bool {
    exists|negative: bool, leak: T| #[trigger] is_leaky_relu_via(x, negative, leak, y)
}

/// `d` can be the slope of the leaky rectifier at `x`, decided by `negative`: a
/// hundredth where `x < 0`, else one.
pub open spec fn is_leaky_relu_slope_via<T: Scalar>(x: T, negative: bool, d: T) -> bool {
    &&& is_negative(x, negative)
    &&& if negative {
        is_ratio(1, 100, d)
    } else {
        is_int(1, d)
    }
}

/// `d` can be the slope of the leaky rectifier at `x`.
pub open spec fn is_leaky_relu_slope<T: Scalar>(x: T, d: T) -> bool {
    exists|negative: bool| #[trigger] is_leaky_relu_slope_via(x, negative, d)
}

/// `d` can be `1 - tanh(x) * tanh(x)`; `steps` holds `tanh(x)`, its square and the
/// scalar for one.
pub open spec fn is_tanh_slope_via<T: Scalar>(x: T, steps: Seq<T>, d: T) -> bool {
    &&& steps.len() == 3
    &&& is_tanh(x, steps[0])
    &&& is_product(steps[0], steps[0], steps[1])
    &&& is_int(1, steps[2])
    &&& is_difference(steps[2], steps[1], d)
}

/// `d` can be `1 - tanh(x) * tanh(x)`.
pub open spec fn is_tanh_slope<T: Scalar>(x: T, d: T) -> bool {
    exists|steps: Seq<T>| #[trigger] is_tanh_slope_via(x, steps, d)
}

/// `running[i]` can be the largest of the first `i + 1` of `values`, found from the
/// left.
pub open spec fn is_running_peak<T: Scalar>(values: Seq<T>, running: Seq<T>) -> bool {
    &&& values.len() > 0
    &&& running.len() == values.len()
    &&& running[0] == values[0]
    &&& forall|i: int|
        1 <= i < values.len() ==> is_larger(running[i - 1], values[i], #[trigger] running[i])
}

/// `peak` can be the largest of `values`, found from the left.
pub open spec fn is_peak<T: Scalar>(values: Seq<T>, peak: T) -> bool {
    exists|running: Seq<T>| #[trigger] is_running_peak(values, running) && running.last() == peak
}

/// `e` can be `exp(v - peak)`.
pub open spec fn is_shifted_exp<T: Scalar>(v: T, peak: T, e: T) -> bool {
    exists|shifted: T| #[trigger] is_difference(v, peak, shifted) && is_exp(shifted, e)
}

/// `y` can be `exp(x - peak) / (exp(o_0 - peak) + exp(o_1 - peak) + ..)`, over the
/// outputs `o` of the whole layer, for their peak `steps[0]`; `steps[1]` is the
/// numerator, `steps[2]` the denominator and `terms` its summands.
pub open spec fn is_softmax_via<T: Scalar>(
    x: T,
    all_outputs: Seq<T>,
    steps: Seq<T>,
    terms: Seq<T>,
    y: T,
) -> bool {
    &&& steps.len() == 3
    &&& is_peak(all_outputs, steps[0])
    &&& is_shifted_exp(x, steps[0], steps[1])
    &&& terms.len() == all_outputs.len()
    &&& forall|i: int|
        0 <= i < all_outputs.len() ==> is_shifted_exp(all_outputs[i], steps[0], #[trigger] terms[i])
    &&& is_total(terms, steps[2])
    &&& is_quotient(steps[1], steps[2], y)
}

/// `y` can be the share of `x` among `all_outputs`: the exponential of `x` over the
/// sum of the exponentials of all of them, each taken after the peak of
/// `all_outputs` was subtracted.
pub open spec fn is_softmax<T: Scalar>(x: T, all_outputs: Seq<T>, y: T) -> bool {
    exists|steps: Seq<T>, terms: Seq<T>| #[trigger] is_softmax_via(x, all_outputs, steps, terms, y)
}

/// `d` can be `y * (1 - y)` for a `y` that can be the share of `x` among
/// `all_outputs`. This is the diagonal of the softmax Jacobian only: the terms that
/// couple one output to another are left out.
pub open spec fn is_softmax_slope<T: Scalar>(x: T, all_outputs: Seq<T>, d: T) -> bool {
    exists|y: T| #[trigger] is_softmax(x, all_outputs, y) && is_bell(y, d)
}

/// `v * (1 - v)`.
fn bell<T: Scalar>(v: T) -> (d: T)
    ensures
        is_bell(v, d),
{
    let one = T::from_int(1);
    let rest = one.minus(v);
    let d = v.times(rest);
    assert(is_bell_via(v, seq![one, rest], d));
    d
}

/// Whether `x < 0`.
fn negative<T: Scalar>(x: T) -> (r: bool)
    ensures
        is_negative(x, r),
{
    let zero = T::from_int(0);
    let r = x.below(zero);
    assert(is_negative_via(x, zero, r));
    r
}

/// The largest of `values`, found from the left.
fn peak<T: Scalar>(values: &Vec<T>) -> (m: T)
    requires
        values.len() > 0,
    ensures
        is_peak(values@, m),
{
    let mut m = values[0];
    let ghost mut running: Seq<T> = seq![m];
    let mut i: usize = 1;
    while i < values.len()
        invariant
            1 <= i <= values.len(),
            running.len() == i,
            running.last() == m,
            is_running_peak(values@.take(i as int), running),
        decreases values.len() - i,
    {
        let next = m.larger(values[i]);
        proof {
            let grown = running.push(next);
            assert forall|j: int| 1 <= j < i + 1 implies is_larger(
                grown[j - 1],
                values@.take(i + 1)[j],
                #[trigger] grown[j],
            ) by {
                if j < i {
                    assert(is_larger(running[j - 1], values@.take(i as int)[j], running[j]));
                }
            }
            running = grown;
        }
        m = next;
        i = i + 1;
    }
    assert(values@.take(i as int) == values@);
    m
}

/// `exp(v - peak)`.
fn shifted_exp<T: Scalar>(v: T, peak: T) -> (e: T)
    ensures
        is_shifted_exp(v, peak, e),
{
    let shifted = v.minus(peak);
    let e = shifted.exp();
    assert(is_difference(v, peak, shifted) && is_exp(shifted, e));
    e
}

/// What an activation function offers a neuron.
pub trait ActivationFunctionTrait<T: Scalar> {
    /// Whether `commit` and `derivative` read the outputs of the whole layer.
    spec fn layer_aware(&self) -> bool;

    /// `y` can be the function's value at `x`.
    spec fn applies(&self, x: T, y: T) -> bool;

    /// `y` can be the output that `x` becomes once the outputs of the whole layer
    /// are known.
    spec fn commits(&self, x: T, all_outputs: Seq<T>, y: T) -> bool;

    /// `d` can be the slope that backpropagation uses at `x`.
    spec fn derives(&self, x: T, all_outputs: Seq<T>, d: T) -> bool;

    /// The function's value at `big_x`.
    fn apply(&self, big_x: T) -> (y: T)
        ensures
            self.applies(big_x, y),
    ;

    /// The output that `big_x` becomes once the outputs of the whole layer are known.
    fn commit(&self, big_x: T, all_outputs: &Vec<T>) -> (y: T)
        requires
            self.layer_aware() ==> all_outputs.len() > 0,
        ensures
            self.commits(big_x, all_outputs@, y),
    ;

    /// The slope that backpropagation uses at `big_x`.
    fn derivative(&self, big_x: T, all_outputs: &Vec<T>) -> (d: T)
        requires
            self.layer_aware() ==> all_outputs.len() > 0,
        ensures
            self.derives(big_x, all_outputs@, d),
    ;
}

/// The identity.
#[derive(Debug, Clone, Copy)]
pub struct Linear;

impl<T: Scalar> ActivationFunctionTrait<T> for Linear {
    open spec fn layer_aware(&self) -> bool {
        false
    }

    open spec fn applies(&self, x: T, y: T) -> bool {
        y == x
    }

    open spec fn commits(&self, x: T, all_outputs: Seq<T>, y: T) -> bool {
        y == x
    }

    open spec fn derives(&self, x: T, all_outputs: Seq<T>, d: T) -> bool {
        is_int(1, d)
    }

    fn apply(&self, x: T) -> (y: T) {
        x
    }

    fn commit(&self, x: T, _all_outputs: &Vec<T>) -> (y: T) {
        self.apply(x)
    }

    fn derivative(&self, _x: T, _all_outputs: &Vec<T>) -> (d: T) {
        T::from_int(1)
    }
}

/// The logistic function.
#[derive(Debug, Clone, Copy)]
pub struct Sigmoid;

impl<T: Scalar> ActivationFunctionTrait<T> for Sigmoid {
    open spec fn layer_aware(&self) -> bool {
        false
    }

    open spec fn applies(&self, x: T, y: T) -> bool {
        is_sigmoid(x, y)
    }

    open spec fn commits(&self, x: T, all_outputs: Seq<T>, y: T) -> bool {
        is_sigmoid(x, y)
    }

    open spec fn derives(&self, x: T, all_outputs: Seq<T>, d: T) -> bool {
        is_sigmoid_slope(x, d)
    }

    fn apply(&self, x: T) -> (y: T) {
        let minus_one = T::from_int(-1);
        let negated = minus_one.times(x);
        let e = negated.exp();
        let one = T::from_int(1);
        let below = one.plus(e);
        let y = one.over(below);
        assert(is_sigmoid_via(x, seq![minus_one, negated, e, one, below], y));
        y
    }

    fn commit(&self, x: T, _all_outputs: &Vec<T>) -> (y: T) {
        self.apply(x)
    }

    fn derivative(&self, x: T, _all_outputs: &Vec<T>) -> (d: T) {
        let v = self.apply(x);
        let d = bell(v);
        assert(is_sigmoid(x, v) && is_bell(v, d));
        d
    }
}

/// The rectifier.
#[derive(Debug, Clone, Copy)]
pub struct Relu;

impl<T: Scalar> ActivationFunctionTrait<T> for Relu {
    open spec fn layer_aware(&self) -> bool {
        false
    }

    open spec fn applies(&self, x: T, y: T) -> bool {
        is_relu(x, y)
    }

    open spec fn commits(&self, x: T, all_outputs: Seq<T>, y: T) -> bool {
        is_relu(x, y)
    }

    open spec fn derives(&self, x: T, all_outputs: Seq<T>, d: T) -> bool {
        is_relu_slope(x, d)
    }

    fn apply(&self, x: T) -> (y: T) {
        let zero = T::from_int(0);
        let y = zero.larger(x);
        assert(is_int(0, zero) && is_larger(zero, x, y));
        y
    }

    fn commit(&self, x: T, _all_outputs: &Vec<T>) -> (y: T) {
        self.apply(x)
    }

    fn derivative(&self, x: T, _all_outputs: &Vec<T>) -> (d: T) {
        let below_zero = negative(x);
        let d = if below_zero {
            T::from_int(0)
        } else {
            T::from_int(1)
        };
        assert(is_negative(x, below_zero) && is_int(
            if below_zero {
                0
            } else {
                1
            },
            d,
        ));
        d
    }
}

/// The rectifier that lets a hundredth of a negative input through.
#[derive(Debug, Clone, Copy)]
pub struct LeakyRelu;

impl<T: Scalar> ActivationFunctionTrait<T> for LeakyRelu {
    open spec fn layer_aware(&self) -> bool {
        false
    }

    open spec fn applies(&self, x: T, y: T) -> bool {
        is_leaky_relu(x, y)
    }

    open spec fn commits(&self, x: T, all_outputs: Seq<T>, y: T) -> bool {
        is_leaky_relu(x, y)
    }

    open spec fn derives(&self, x: T, all_outputs: Seq<T>, d: T) -> bool {
        is_leaky_relu_slope(x, d)
    }

    fn apply(&self, x: T) -> (y: T) {
        if negative(x) {
            let leak = ratio::<T>(1, 100);
            let y = leak.times(x);
            assert(is_leaky_relu_via(x, true, leak, y));
            y
        } else {
            assert(is_leaky_relu_via(x, false, x, x));
            x
        }
    }

    fn commit(&self, x: T, _all_outputs: &Vec<T>) -> (y: T) {
        self.apply(x)
    }

    fn derivative(&self, x: T, _all_outputs: &Vec<T>) -> (d: T) {
        if negative(x) {
            let d = ratio::<T>(1, 100);
            assert(is_leaky_relu_slope_via(x, true, d));
            d
        } else {
            let d = T::from_int(1);
            assert(is_leaky_relu_slope_via(x, false, d));
            d
        }
    }
}

/// The hyperbolic tangent.
#[derive(Debug, Clone, Copy)]
pub struct Tanh;

impl<T: Scalar> ActivationFunctionTrait<T> for Tanh {
    open spec fn layer_aware(&self) -> bool {
        false
    }

    open spec fn applies(&self, x: T, y: T) -> bool {
        is_tanh(x, y)
    }

    open spec fn commits(&self, x: T, all_outputs: Seq<T>, y: T) -> bool {
        is_tanh(x, y)
    }

    open spec fn derives(&self, x: T, all_outputs: Seq<T>, d: T) -> bool {
        is_tanh_slope(x, d)
    }

    fn apply(&self, x: T) -> (y: T) {
        x.tanh()
    }

    fn commit(&self, x: T, _all_outputs: &Vec<T>) -> (y: T) {
        self.apply(x)
    }

    fn derivative(&self, x: T, _all_outputs: &Vec<T>) -> (d: T) {
        let t = x.tanh();
        let square = t.times(t);
        let one = T::from_int(1);
        let d = one.minus(square);
        assert(is_tanh_slope_via(x, seq![t, square, one], d));
        d
    }
}

/// The share of one output among the outputs of its layer.
#[derive(Debug, Clone, Copy)]
pub struct Softmax;

impl<T: Scalar> ActivationFunctionTrait<T> for Softmax {
    open spec fn layer_aware(&self) -> bool {
        true
    }

    open spec fn applies(&self, x: T, y: T) -> bool {
        y == x
    }

    open spec fn commits(&self, x: T, all_outputs: Seq<T>, y: T) -> bool {
        is_softmax(x, all_outputs, y)
    }

    open spec fn derives(&self, x: T, all_outputs: Seq<T>, d: T) -> bool {
        is_softmax_slope(x, all_outputs, d)
    }

    fn apply(&self, x: T) -> (y: T) {
        x
    }

    fn commit(&self, x: T, all_outputs: &Vec<T>) -> (y: T) {
        let max_val = peak(all_outputs);
        let numerator = shifted_exp(x, max_val);
        let mut terms: Vec<T> = Vec::new();
        let mut i: usize = 0;
        while i < all_outputs.len()
            invariant
                i <= all_outputs.len(),
                terms.len() == i,
                forall|j: int|
                    0 <= j < i ==> is_shifted_exp(all_outputs@[j], max_val, #[trigger] terms@[j]),
            decreases all_outputs.len() - i,
        {
            terms.push(shifted_exp(all_outputs[i], max_val));
            i = i + 1;
        }
        let denominator = total(&terms);
        let y = numerator.over(denominator);
        assert(is_softmax_via(x, all_outputs@, seq![max_val, numerator, denominator], terms@, y));
        y
    }

    fn derivative(&self, x: T, all_outputs: &Vec<T>) -> (d: T) {
        let y = self.commit(x, all_outputs);
        let d = bell(y);
        assert(is_softmax(x, all_outputs@, y) && is_bell(y, d));
        d
    }
}

/// One of the six activation functions, ready to be applied.
#[derive(Debug, Clone, Copy)]
pub enum ActivationFunctionWrapper {
    Linear(Linear),
    Sigmoid(Sigmoid),
    Relu(Relu),
    LeakyRelu(LeakyRelu),
    Tanh(Tanh),
    Softmax(Softmax),
}

impl ActivationFunctionWrapper {
    /// Which activation function this is.
    pub open spec fn kind(self) -> ActivationFunction {
        match self {
            ActivationFunctionWrapper::Linear(_) => ActivationFunction::Linear,
            ActivationFunctionWrapper::Sigmoid(_) => ActivationFunction::Sigmoid,
            ActivationFunctionWrapper::Relu(_) => ActivationFunction::Relu,
            ActivationFunctionWrapper::LeakyRelu(_) => ActivationFunction::LeakyRelu,
            ActivationFunctionWrapper::Tanh(_) => ActivationFunction::Tanh,
            ActivationFunctionWrapper::Softmax(_) => ActivationFunction::Softmax,
        }
    }

    /// Whether this function reads the outputs of the whole layer.
    pub open spec fn reads_layer(self) -> bool {
        self.kind() == ActivationFunction::Softmax
    }

    /// Which activation function this is.
    pub fn name(&self) -> (name: ActivationFunction)
        ensures
            name == self.kind(),
            *self == wrapped(name),
    {
        match self {
            ActivationFunctionWrapper::Linear(_) => ActivationFunction::Linear,
            ActivationFunctionWrapper::Sigmoid(_) => ActivationFunction::Sigmoid,
            ActivationFunctionWrapper::Relu(_) => ActivationFunction::Relu,
            ActivationFunctionWrapper::LeakyRelu(_) => ActivationFunction::LeakyRelu,
            ActivationFunctionWrapper::Tanh(_) => ActivationFunction::Tanh,
            ActivationFunctionWrapper::Softmax(_) => ActivationFunction::Softmax,
        }
    }
}

impl<T: Scalar> ActivationFunctionTrait<T> for ActivationFunctionWrapper {
    open spec fn layer_aware(&self) -> bool {
        self.reads_layer()
    }

    open spec fn applies(&self, x: T, y: T) -> bool {
        match self {
            ActivationFunctionWrapper::Linear(f) => f.applies(x, y),
            ActivationFunctionWrapper::Sigmoid(f) => f.applies(x, y),
            ActivationFunctionWrapper::Relu(f) => f.applies(x, y),
            ActivationFunctionWrapper::LeakyRelu(f) => f.applies(x, y),
            ActivationFunctionWrapper::Tanh(f) => f.applies(x, y),
            ActivationFunctionWrapper::Softmax(f) => f.applies(x, y),
        }
    }

    open spec fn commits(&self, x: T, all_outputs: Seq<T>, y: T) -> bool {
        match self {
            ActivationFunctionWrapper::Linear(f) => f.commits(x, all_outputs, y),
            ActivationFunctionWrapper::Sigmoid(f) => f.commits(x, all_outputs, y),
            ActivationFunctionWrapper::Relu(f) => f.commits(x, all_outputs, y),
            ActivationFunctionWrapper::LeakyRelu(f) => f.commits(x, all_outputs, y),
            ActivationFunctionWrapper::Tanh(f) => f.commits(x, all_outputs, y),
            ActivationFunctionWrapper::Softmax(f) => f.commits(x, all_outputs, y),
        }
    }

    open spec fn derives(&self, x: T, all_outputs: Seq<T>, d: T) -> bool {
        match self {
            ActivationFunctionWrapper::Linear(f) => f.derives(x, all_outputs, d),
            ActivationFunctionWrapper::Sigmoid(f) => f.derives(x, all_outputs, d),
            ActivationFunctionWrapper::Relu(f) => f.derives(x, all_outputs, d),
            ActivationFunctionWrapper::LeakyRelu(f) => f.derives(x, all_outputs, d),
            ActivationFunctionWrapper::Tanh(f) => f.derives(x, all_outputs, d),
            ActivationFunctionWrapper::Softmax(f) => f.derives(x, all_outputs, d),
        }
    }

    fn apply(&self, x: T) -> (y: T) {
        match self {
            ActivationFunctionWrapper::Linear(f) => f.apply(x),
            ActivationFunctionWrapper::Sigmoid(f) => f.apply(x),
            ActivationFunctionWrapper::Relu(f) => f.apply(x),
            ActivationFunctionWrapper::LeakyRelu(f) => f.apply(x),
            ActivationFunctionWrapper::Tanh(f) => f.apply(x),
            ActivationFunctionWrapper::Softmax(f) => f.apply(x),
        }
    }

    fn commit(&self, x: T, all_outputs: &Vec<T>) -> (y: T) {
        match self {
            ActivationFunctionWrapper::Linear(f) => f.commit(x, all_outputs),
            ActivationFunctionWrapper::Sigmoid(f) => f.commit(x, all_outputs),
            ActivationFunctionWrapper::Relu(f) => f.commit(x, all_outputs),
            ActivationFunctionWrapper::LeakyRelu(f) => f.commit(x, all_outputs),
            ActivationFunctionWrapper::Tanh(f) => f.commit(x, all_outputs),
            ActivationFunctionWrapper::Softmax(f) => f.commit(x, all_outputs),
        }
    }

    fn derivative(&self, x: T, all_outputs: &Vec<T>) -> (d: T) {
        match self {
            ActivationFunctionWrapper::Linear(f) => f.derivative(x, all_outputs),
            ActivationFunctionWrapper::Sigmoid(f) => f.derivative(x, all_outputs),
            ActivationFunctionWrapper::Relu(f) => f.derivative(x, all_outputs),
            ActivationFunctionWrapper::LeakyRelu(f) => f.derivative(x, all_outputs),
            ActivationFunctionWrapper::Tanh(f) => f.derivative(x, all_outputs),
            ActivationFunctionWrapper::Softmax(f) => f.derivative(x, all_outputs),
        }
    }
}

/// The activation function that `activation_function` names.
pub open spec fn wrapped(activation_function: ActivationFunction) -> ActivationFunctionWrapper {
    match activation_function {
        ActivationFunction::Linear => ActivationFunctionWrapper::Linear(Linear {  }),
        ActivationFunction::Sigmoid => ActivationFunctionWrapper::Sigmoid(Sigmoid {  }),
        ActivationFunction::Relu => ActivationFunctionWrapper::Relu(Relu {  }),
        ActivationFunction::LeakyRelu => ActivationFunctionWrapper::LeakyRelu(LeakyRelu {  }),
        ActivationFunction::Tanh => ActivationFunctionWrapper::Tanh(Tanh {  }),
        ActivationFunction::Softmax => ActivationFunctionWrapper::Softmax(Softmax {  }),
    }
}

/// The activation function that `activation_function` names.
pub fn get_activation_function(activation_function: ActivationFunction) -> (wrapper:
    ActivationFunctionWrapper)
    ensures
        wrapper == wrapped(activation_function),
        wrapper.kind() == activation_function,
{
    match activation_function {
        ActivationFunction::Linear => ActivationFunctionWrapper::Linear(Linear {  }),
        ActivationFunction::Sigmoid => ActivationFunctionWrapper::Sigmoid(Sigmoid {  }),
        ActivationFunction::Relu => ActivationFunctionWrapper::Relu(Relu {  }),
        ActivationFunction::LeakyRelu => ActivationFunctionWrapper::LeakyRelu(LeakyRelu {  }),
        ActivationFunction::Tanh => ActivationFunctionWrapper::Tanh(Tanh {  }),
        ActivationFunction::Softmax => ActivationFunctionWrapper::Softmax(Softmax {  }),
    }
}

} // verus!
