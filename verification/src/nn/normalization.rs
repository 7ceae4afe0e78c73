//! The range of each input feature, and how inputs are brought into it.

use vstd::prelude::*;
use crate::scalar::{
    Scalar, is_int, is_greatest, is_least, is_difference, is_quotient, is_below, is_same,
    copy_of,
};
use crate::nn::NeuralNetwork;

verus! {

/// `y` can be `(x - low) / (high - low)`; `steps` holds the two differences.
pub open spec fn is_scaled_via<T: Scalar>(x: T, low: T, high: T, steps: Seq<T>, y: T) -> bool {
    &&& steps.len() == 2
    &&& is_difference(x, low, steps[0])
    &&& is_difference(high, low, steps[1])
    &&& is_quotient(steps[0], steps[1], y)
}

/// `y` can be `(x - low) / (high - low)`.
pub open spec fn is_scaled<T: Scalar>(x: T, low: T, high: T, y: T) -> bool {
    exists|steps: Seq<T>| #[trigger] is_scaled_via(x, low, high, steps, y)
}

/// `y` can be `x` brought into the range from `low` to `high`: the scalar for zero
/// where the range is `flat`, which can answer `high == low`, and
/// `(x - low) / (high - low)` elsewhere.
pub open spec fn is_normalized_via<T: Scalar>(x: T, low: T, high: T, flat: bool, y: T) -> bool {
    &&& is_same(high, low, flat)
    &&& if flat {
        is_int(0, y)
    } else {
        is_scaled(x, low, high, y)
    }
}

/// `y` can be `x` brought into the range from `low` to `high`.
pub open spec fn is_normalized<T: Scalar>(x: T, low: T, high: T, y: T) -> bool {
    exists|flat: bool| #[trigger] is_normalized_via(x, low, high, flat, y)
}

/// `outputs` can be `inputs` with each feature that has a range brought into it; a
/// feature without a range is kept.
pub open spec fn is_normalized_row<T: Scalar>(
    factors: Seq<(T, T)>,
    inputs: Seq<T>,
    outputs: Seq<T>,
) -> bool {
    &&& outputs.len() == inputs.len()
    &&& forall|i: int|
        0 <= i < inputs.len() ==> if i < factors.len() {
            is_normalized(inputs[i], factors[i].0, factors[i].1, #[trigger] outputs[i])
        } else {
            outputs[i] == inputs[i]
        }
}

/// `data` can be `raw` with the inputs of every example brought into the ranges of
/// `factors`; the wanted outputs are those of `raw`.
pub open spec fn is_normalized_data<T: Scalar>(
    factors: Seq<(T, T)>,
    raw: Seq<(Vec<T>, Vec<T>)>,
    data: Seq<(Vec<T>, Vec<T>)>,
) -> bool {
    &&& data.len() == raw.len()
    &&& forall|e: int|
        0 <= e < raw.len() ==> is_normalized_row(factors, raw[e].0@, (#[trigger] data[e]).0@)
            && data[e].1@ == raw[e].1@
}

/// `next` is `value` where `taken`, else `bound`; and `taken` can answer whether
/// `value` lies beyond `bound`: above it for an upper bound, below it for a lower.
pub open spec fn is_bound_step<T: Scalar>(upper: bool, value: T, bound: T, taken: bool, next: T) -> bool {
    &&& if upper {
        is_below(bound, value, taken)
    } else {
        is_below(value, bound, taken)
    }
    &&& next == if taken {
        value
    } else {
        bound
    }
}

/// `next` can be `bound` after it met the feature `feature` of `inputs`; it is
/// `bound` itself where `inputs` has no such feature.
pub open spec fn is_bound_move<T: Scalar>(
    inputs: Seq<T>,
    feature: int,
    upper: bool,
    bound: T,
    next: T,
) -> bool {
    if 0 <= feature < inputs.len() {
        exists|taken: bool| #[trigger] is_bound_step(upper, inputs[feature], bound, taken, next)
    } else {
        next == bound
    }
}

/// `running[e]` can be the bound of the feature `feature` before it met the example
/// `e` of `rows`.
pub open spec fn is_running_bound<T: Scalar>(
    rows: Seq<(Vec<T>, Vec<T>)>,
    feature: int,
    upper: bool,
    running: Seq<T>,
) -> bool {
    &&& running.len() == rows.len() + 1
    &&& forall|e: int|
        0 <= e < rows.len() ==> is_bound_move(
            rows[e].0@,
            feature,
            upper,
            #[trigger] running[e],
            running[e + 1],
        )
}

/// `end` can be the bound `start` of the feature `feature` after it met every
/// example of `rows`, in their order.
pub open spec fn is_bound_over<T: Scalar>(
    rows: Seq<(Vec<T>, Vec<T>)>,
    feature: int,
    upper: bool,
    start: T,
    end: T,
) -> bool {
    exists|running: Seq<T>| #[trigger]
        is_running_bound(rows, feature, upper, running) && running[0] == start && running.last()
            == end
}

/// `range` can hold the least and the greatest value of the feature `feature` over
/// the three partitions; `lows` holds the lower bound at the start and after each
/// partition, `highs` the upper bound. The lower bound starts from the largest
/// finite scalar, the upper bound from the smallest.
pub open spec fn is_feature_range_via<T: Scalar>(
    training: Seq<(Vec<T>, Vec<T>)>,
    validation: Seq<(Vec<T>, Vec<T>)>,
    testing: Seq<(Vec<T>, Vec<T>)>,
    feature: int,
    lows: Seq<T>,
    highs: Seq<T>,
    range: (T, T),
) -> bool {
    &&& lows.len() == 4
    &&& highs.len() == 4
    &&& is_greatest(lows[0])
    &&& is_bound_over(training, feature, false, lows[0], lows[1])
    &&& is_bound_over(validation, feature, false, lows[1], lows[2])
    &&& is_bound_over(testing, feature, false, lows[2], lows[3])
    &&& range.0 == lows[3]
    &&& is_least(highs[0])
    &&& is_bound_over(training, feature, true, highs[0], highs[1])
    &&& is_bound_over(validation, feature, true, highs[1], highs[2])
    &&& is_bound_over(testing, feature, true, highs[2], highs[3])
    &&& range.1 == highs[3]
}

/// `range` can hold the least and the greatest value of the feature `feature` over
/// the three partitions.
pub open spec fn is_feature_range<T: Scalar>(
    training: Seq<(Vec<T>, Vec<T>)>,
    validation: Seq<(Vec<T>, Vec<T>)>,
    testing: Seq<(Vec<T>, Vec<T>)>,
    feature: int,
    range: (T, T),
) -> bool {
    exists|lows: Seq<T>, highs: Seq<T>| #[trigger]
        is_feature_range_via(training, validation, testing, feature, lows, highs, range)
}

/// `x` brought into the range from `low` to `high`.
pub fn normalized<T: Scalar>(x: T, low: T, high: T) -> (y: T)
    ensures
        is_normalized(x, low, high, y),
{
    if high.same(low) {
        let y = T::from_int(0);
        assert(is_normalized_via(x, low, high, true, y));
        y
    } else {
        let above = x.minus(low);
        let span = high.minus(low);
        let y = above.over(span);
        assert(is_scaled_via(x, low, high, seq![above, span], y));
        assert(is_normalized_via(x, low, high, false, y));
        y
    }
}

/// `inputs` with each feature that has a range in `factors` brought into it.
fn normalized_row<T: Scalar>(factors: &Vec<(T, T)>, inputs: &Vec<T>) -> (outputs: Vec<T>)
    ensures
        is_normalized_row(factors@, inputs@, outputs@),
{
    let mut outputs: Vec<T> = Vec::new();
    let mut i: usize = 0;
    while i < inputs.len()
        invariant
            i <= inputs.len(),
            outputs.len() == i,
            forall|j: int|
                0 <= j < i ==> if j < factors@.len() {
                    is_normalized(inputs@[j], factors@[j].0, factors@[j].1, #[trigger] outputs@[j])
                } else {
                    outputs@[j] == inputs@[j]
                },
        decreases inputs.len() - i,
    {
        if i < factors.len() {
            let range = factors[i];
            outputs.push(normalized(inputs[i], range.0, range.1));
        } else {
            outputs.push(inputs[i]);
        }
        i = i + 1;
    }
    outputs
}

/// `data` with the inputs of every example brought into the ranges of `factors`.
fn normalized_data<T: Scalar>(factors: &Vec<(T, T)>, data: &Vec<(Vec<T>, Vec<T>)>) -> (out: Vec<
    (Vec<T>, Vec<T>),
>)
    ensures
        is_normalized_data(factors@, data@, out@),
{
    let mut out: Vec<(Vec<T>, Vec<T>)> = Vec::new();
    let mut e: usize = 0;
    while e < data.len()
        invariant
            e <= data.len(),
            out.len() == e,
            forall|k: int|
                0 <= k < e ==> is_normalized_row(factors@, data@[k].0@, (#[trigger] out@[k]).0@)
                    && out@[k].1@ == data@[k].1@,
        decreases data.len() - e,
    {
        let inputs = normalized_row(factors, &data[e].0);
        let y_desired = copy_of(&data[e].1);
        out.push((inputs, y_desired));
        e = e + 1;
    }
    out
}

/// The bound `start` of the feature `feature` after it met every example of `data`.
fn bound_over<T: Scalar>(data: &Vec<(Vec<T>, Vec<T>)>, feature: usize, upper: bool, start: T) -> (end:
    T)
    ensures
        is_bound_over(data@, feature as int, upper, start, end),
{
    let mut bound = start;
    let ghost mut running: Seq<T> = seq![start];
    let mut e: usize = 0;
    while e < data.len()
        invariant
            e <= data.len(),
            running.len() == e + 1,
            running[0] == start,
            running.last() == bound,
            forall|k: int|
                0 <= k < e ==> is_bound_move(
                    data@[k].0@,
                    feature as int,
                    upper,
                    #[trigger] running[k],
                    running[k + 1],
                ),
        decreases data.len() - e,
    {
        let mut next = bound;
        if feature < data[e].0.len() {
            let value = data[e].0[feature];
            let taken = if upper {
                bound.below(value)
            } else {
                value.below(bound)
            };
            if taken {
                next = value;
            }
            assert(is_bound_step(upper, value, bound, taken, next));
        }
        proof {
            let grown = running.push(next);
            assert forall|k: int| 0 <= k < e + 1 implies is_bound_move(
                data@[k].0@,
                feature as int,
                upper,
                #[trigger] grown[k],
                grown[k + 1],
            ) by {
                if k < e {
                    assert(is_bound_move(
                        data@[k].0@,
                        feature as int,
                        upper,
                        running[k],
                        running[k + 1],
                    ));
                }
            }
            running = grown;
        }
        bound = next;
        e = e + 1;
    }
    assert(is_running_bound(data@, feature as int, upper, running));
    bound
}

/// The range from `low` to `high` is not flat, and the arithmetic is plain on it:
/// `low` less itself is zero, zero over the span of the range is zero, and the span
/// over itself is one.
pub open spec fn is_plain_range<T: Scalar>(low: T, high: T) -> bool {
    &&& forall|flat: bool| #[trigger] is_same(high, low, flat) ==> !flat
    &&& forall|rest: T| #[trigger] is_difference(low, low, rest) ==> is_int(0, rest)
    &&& forall|zero: T, span: T, r: T|
        is_int(0, zero) && is_difference(high, low, span) && #[trigger] is_quotient(zero, span, r)
            ==> is_int(0, r)
    &&& forall|above: T, span: T, r: T|
        is_difference(high, low, above) && is_difference(high, low, span) && #[trigger] is_quotient(
            above,
            span,
            r,
        ) ==> is_int(1, r)
}

/// In a plain range the least value is brought to zero.
proof fn lemma_least_goes_to_zero<T: Scalar>(low: T, high: T, at_low: T)
    requires
        is_normalized(low, low, high, at_low),
        is_plain_range(low, high),
    ensures
        is_int(0, at_low),
{
    let flat = choose|flat: bool| #[trigger] is_normalized_via(low, low, high, flat, at_low);
    let steps = choose|steps: Seq<T>| #[trigger] is_scaled_via(low, low, high, steps, at_low);
    assert(is_quotient(steps[0], steps[1], at_low));
}

/// In a plain range the greatest value is brought to one.
proof fn lemma_greatest_goes_to_one<T: Scalar>(low: T, high: T, at_high: T)
    requires
        is_normalized(high, low, high, at_high),
        is_plain_range(low, high),
    ensures
        is_int(1, at_high),
{
    let flat = choose|flat: bool| #[trigger] is_normalized_via(high, low, high, flat, at_high);
    let steps = choose|steps: Seq<T>| #[trigger] is_scaled_via(high, low, high, steps, at_high);
    assert(is_quotient(steps[0], steps[1], at_high));
}

/// In a range that is not flat, its least value is brought to zero and its greatest
/// to one. This is stated of an arithmetic where the least value less itself is
/// zero, zero over the span of the range is zero, and the span over itself is one.
pub proof fn lemma_ends_of_a_range<T: Scalar>(low: T, high: T, at_low: T, at_high: T)
    requires
        is_normalized(low, low, high, at_low),
        is_normalized(high, low, high, at_high),
        is_plain_range(low, high),
    ensures
        is_int(0, at_low),
        is_int(1, at_high),
{
    lemma_least_goes_to_zero(low, high, at_low);
    lemma_greatest_goes_to_one(low, high, at_high);
}

/// Once the data was brought into range, an input that was at the lower end of the
/// range of its feature is zero, and one that was at the upper end is one, in
/// whichever partition and example it stands. This is stated of a feature whose
/// range is plain.
pub proof fn lemma_ends_of_normalized_data<T: Scalar>(
    factors: Seq<(T, T)>,
    raw: Seq<(Vec<T>, Vec<T>)>,
    data: Seq<(Vec<T>, Vec<T>)>,
    feature: int,
    e: int,
)
    requires
        is_normalized_data(factors, raw, data),
        0 <= feature < factors.len(),
        is_plain_range(factors[feature].0, factors[feature].1),
        0 <= e < raw.len(),
        feature < raw[e].0@.len(),
    ensures
        raw[e].0@[feature] == factors[feature].0 ==> is_int(0, data[e].0@[feature]),
        raw[e].0@[feature] == factors[feature].1 ==> is_int(1, data[e].0@[feature]),
{
    assert(is_normalized_row(factors, raw[e].0@, data[e].0@));
    assert(is_normalized(
        raw[e].0@[feature],
        factors[feature].0,
        factors[feature].1,
        data[e].0@[feature],
    ));
    if raw[e].0@[feature] == factors[feature].0 {
        lemma_least_goes_to_zero(factors[feature].0, factors[feature].1, data[e].0@[feature]);
    }
    if raw[e].0@[feature] == factors[feature].1 {
        lemma_greatest_goes_to_one(factors[feature].0, factors[feature].1, data[e].0@[feature]);
    }
}

/// `a` is not below `b`: no answer to `a < b` is yes.
pub open spec fn never_below<T: Scalar>(a: T, b: T) -> bool {
    forall|r: bool| #[trigger] is_below(a, b, r) ==> !r
}

/// `bound` has not passed `value`: as an upper bound it is not below `value`, as a
/// lower bound `value` is not below it.
pub open spec fn holds<T: Scalar>(upper: bool, bound: T, value: T) -> bool {
    if upper {
        never_below(bound, value)
    } else {
        never_below(value, bound)
    }
}

/// Being below is a plain order: whether one scalar is below another has one answer,
/// no scalar is below itself, and what is not below a scalar is not below a lesser
/// one, nor is a greater scalar below what that scalar is not below.
pub open spec fn is_plain_order<T: Scalar>() -> bool {
    &&& forall|a: T, b: T, r1: bool, r2: bool|
        #![trigger is_below(a, b, r1), is_below(a, b, r2)]
        is_below(a, b, r1) && is_below(a, b, r2) ==> r1 == r2
    &&& forall|a: T| #[trigger] never_below(a, a)
    &&& forall|a: T, b: T, c: T|
        #![trigger is_below(a, b, true), never_below(c, b)]
        is_below(a, b, true) && never_below(c, b) ==> never_below(c, a)
    &&& forall|a: T, b: T, c: T|
        #![trigger is_below(b, a, true), never_below(b, c)]
        is_below(b, a, true) && never_below(b, c) ==> never_below(a, c)
}

/// A bound that has not passed a value does not pass it when it meets another, and
/// does not pass the value it meets.
proof fn lemma_bound_moves_outwards<T: Scalar>(
    inputs: Seq<T>,
    feature: int,
    upper: bool,
    bound: T,
    next: T,
    value: T,
)
    requires
        is_plain_order::<T>(),
        is_bound_move(inputs, feature, upper, bound, next),
        holds(upper, bound, value),
    ensures
        holds(upper, next, value),
        0 <= feature < inputs.len() ==> holds(upper, next, inputs[feature]),
{
    if 0 <= feature < inputs.len() {
        let met = inputs[feature];
        let taken = choose|taken: bool| #[trigger] is_bound_step(upper, met, bound, taken, next);
        if upper {
            assert(is_below(bound, met, taken));
            if taken {
                assert(never_below(met, met));
            } else {
                assert(never_below(bound, met));
            }
        } else {
            assert(is_below(met, bound, taken));
            if taken {
                assert(never_below(met, met));
            } else {
                assert(never_below(met, bound));
            }
        }
    }
}

/// A bound that has not passed a value before it meets rows has not passed it after
/// any of them.
proof fn lemma_bound_keeps_holding<T: Scalar>(
    rows: Seq<(Vec<T>, Vec<T>)>,
    feature: int,
    upper: bool,
    running: Seq<T>,
    value: T,
    from: int,
    e: int,
)
    requires
        is_plain_order::<T>(),
        is_running_bound(rows, feature, upper, running),
        0 <= from <= e <= rows.len(),
        holds(upper, running[from], value),
    ensures
        holds(upper, running[e], value),
    decreases e - from,
{
    if from < e {
        lemma_bound_keeps_holding(rows, feature, upper, running, value, from, e - 1);
        assert(is_bound_move(rows[e - 1].0@, feature, upper, running[e - 1], running[e - 1 + 1]));
        lemma_bound_moves_outwards(
            rows[e - 1].0@,
            feature,
            upper,
            running[e - 1],
            running[e],
            value,
        );
    }
}

/// After a bound met rows, it has passed none of their values, nor a value that it
/// had not passed before.
proof fn lemma_bound_holds_rows<T: Scalar>(
    rows: Seq<(Vec<T>, Vec<T>)>,
    feature: int,
    upper: bool,
    start: T,
    end: T,
)
    requires
        is_plain_order::<T>(),
        is_bound_over(rows, feature, upper, start, end),
        0 <= feature,
    ensures
        forall|value: T| #[trigger] holds(upper, start, value) ==> holds(upper, end, value),
        forall|k: int|
            0 <= k < rows.len() && feature < rows[k].0@.len() ==> holds(
                upper,
                end,
                #[trigger] rows[k].0@[feature],
            ),
{
    let running = choose|running: Seq<T>| #[trigger]
        is_running_bound(rows, feature, upper, running) && running[0] == start && running.last()
            == end;
    let n = rows.len() as int;
    assert forall|value: T| #[trigger] holds(upper, start, value) implies holds(
        upper,
        end,
        value,
    ) by {
        lemma_bound_keeps_holding(rows, feature, upper, running, value, 0, n);
    }
    assert forall|k: int| 0 <= k < rows.len() && feature < rows[k].0@.len() implies holds(
        upper,
        end,
        #[trigger] rows[k].0@[feature],
    ) by {
        let value = rows[k].0@[feature];
        assert(is_bound_move(rows[k].0@, feature, upper, running[k], running[k + 1]));
        lemma_first_meeting(rows[k].0@, feature, upper, running[k], running[k + 1]);
        lemma_bound_keeps_holding(rows, feature, upper, running, value, k + 1, n);
    }
}

/// A bound that meets a value has not passed it afterwards.
proof fn lemma_first_meeting<T: Scalar>(inputs: Seq<T>, feature: int, upper: bool, bound: T, next: T)
    requires
        is_plain_order::<T>(),
        is_bound_move(inputs, feature, upper, bound, next),
        0 <= feature < inputs.len(),
    ensures
        holds(upper, next, inputs[feature]),
{
    let met = inputs[feature];
    let taken = choose|taken: bool| #[trigger] is_bound_step(upper, met, bound, taken, next);
    assert(never_below(met, met));
    if upper {
        assert(is_below(bound, met, taken));
    } else {
        assert(is_below(met, bound, taken));
    }
}

/// The range of a feature holds every value of the feature: no value of any example,
/// in whichever partition, is below the lower end, and the upper end is below none.
/// This is stated of an arithmetic in which being below is a plain order.
pub proof fn lemma_range_holds_every_value<T: Scalar>(
    training: Seq<(Vec<T>, Vec<T>)>,
    validation: Seq<(Vec<T>, Vec<T>)>,
    testing: Seq<(Vec<T>, Vec<T>)>,
    feature: int,
    range: (T, T),
    rows: Seq<(Vec<T>, Vec<T>)>,
    k: int,
)
    requires
        is_plain_order::<T>(),
        is_feature_range(training, validation, testing, feature, range),
        rows == training || rows == validation || rows == testing,
        0 <= k < rows.len(),
        0 <= feature < rows[k].0@.len(),
    ensures
        never_below(rows[k].0@[feature], range.0),
        never_below(range.1, rows[k].0@[feature]),
{
    let (lows, highs) = choose|lows: Seq<T>, highs: Seq<T>| #[trigger]
        is_feature_range_via(training, validation, testing, feature, lows, highs, range);
    let value = rows[k].0@[feature];
    lemma_bound_holds_rows(training, feature, false, lows[0], lows[1]);
    lemma_bound_holds_rows(validation, feature, false, lows[1], lows[2]);
    lemma_bound_holds_rows(testing, feature, false, lows[2], lows[3]);
    lemma_bound_holds_rows(training, feature, true, highs[0], highs[1]);
    lemma_bound_holds_rows(validation, feature, true, highs[1], highs[2]);
    lemma_bound_holds_rows(testing, feature, true, highs[2], highs[3]);
    if rows == training {
        assert(holds(false, lows[1], value));
        assert(holds(false, lows[2], value));
        assert(holds(true, highs[1], value));
        assert(holds(true, highs[2], value));
    } else if rows == validation {
        assert(holds(false, lows[2], value));
        assert(holds(true, highs[2], value));
    }
    assert(holds(false, lows[3], value));
    assert(holds(true, highs[3], value));
}

impl<T: Scalar> NeuralNetwork<T> {
    /// `after` can be this network once the range of each of `inputs_count` features
    /// was found over the three partitions and every input brought into its range.
    pub open spec fn normalizes(self, inputs_count: usize, after: Self) -> bool {
        &&& after.layers == self.layers
        &&& self.same_errors(after)
        &&& after.normalization_factors@.len() == inputs_count
        &&& forall|i: int|
            0 <= i < inputs_count ==> is_feature_range(
                self.training_data@,
                self.validation_data@,
                self.testing_data@,
                i,
                #[trigger] after.normalization_factors@[i],
            )
        &&& is_normalized_data(after.normalization_factors@, self.training_data@, after.training_data@)
        &&& is_normalized_data(
            after.normalization_factors@,
            self.validation_data@,
            after.validation_data@,
        )
        &&& is_normalized_data(after.normalization_factors@, self.testing_data@, after.testing_data@)
    }

    /// Finds the range of each of `inputs_count` features over the three partitions,
    /// and brings every input of every example into the range of its feature.
    pub fn normalize(&mut self, inputs_count: usize)
        ensures
            old(self).normalizes(inputs_count, *final(self)),
    {
        let mut factors: Vec<(T, T)> = Vec::new();
        let mut i: usize = 0;
        while i < inputs_count
            invariant
                i <= inputs_count,
                *self == *old(self),
                factors.len() == i,
                forall|j: int|
                    0 <= j < i ==> is_feature_range(
                        self.training_data@,
                        self.validation_data@,
                        self.testing_data@,
                        j,
                        #[trigger] factors@[j],
                    ),
            decreases inputs_count - i,
        {
            let low0 = T::greatest();
            let low1 = bound_over(&self.training_data, i, false, low0);
            let low2 = bound_over(&self.validation_data, i, false, low1);
            let low3 = bound_over(&self.testing_data, i, false, low2);
            let high0 = T::least();
            let high1 = bound_over(&self.training_data, i, true, high0);
            let high2 = bound_over(&self.validation_data, i, true, high1);
            let high3 = bound_over(&self.testing_data, i, true, high2);
            assert(is_feature_range_via(
                self.training_data@,
                self.validation_data@,
                self.testing_data@,
                i as int,
                seq![low0, low1, low2, low3],
                seq![high0, high1, high2, high3],
                (low3, high3),
            ));
            factors.push((low3, high3));
            i = i + 1;
        }
        let training = normalized_data(&factors, &self.training_data);
        let validation = normalized_data(&factors, &self.validation_data);
        let testing = normalized_data(&factors, &self.testing_data);
        self.normalization_factors = factors;
        self.training_data = training;
        self.validation_data = validation;
        self.testing_data = testing;
    }

    /// `inputs` with each feature that has a range brought into it.
    pub fn normalize_input(&self, inputs: &Vec<T>) -> (outputs: Vec<T>)
        ensures
            is_normalized_row(self.normalization_factors@, inputs@, outputs@),
    {
        normalized_row(&self.normalization_factors, inputs)
    }
}

} // verus!
