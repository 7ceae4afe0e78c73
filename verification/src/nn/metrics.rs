//! What a trained network is judged by: the confusion matrix on the testing data and
//! the cross-entropy loss on the training data.

use vstd::prelude::*;
use crate::scalar::{
    Scalar, is_int, is_count, is_below, is_same, is_ln, is_sum, is_difference, is_quotient,
    is_running_total,
};
use crate::nn::{NeuralNetwork, fan_in, layer_fits};
use crate::nn::prediction::{is_chain, is_mean, is_mean_via, mean};
use crate::nn::layer::{Layer, LayerType};

verus! {

/// `next` is the place of the largest value seen once the value at `j` was held
/// against the value at `best`: `best` where `kept`, which can answer whether the
/// value at `j` is below the value at `best`, and `j` elsewhere. Of equal values the
/// later one wins.
pub open spec fn is_arg_max_step<T: Scalar>(
    values: Seq<T>,
    best: int,
    j: int,
    kept: bool,
    next: int,
) -> bool {
    &&& 0 <= best < j
    &&& is_below(values[j], values[best], kept)
    &&& next == if kept {
        best
    } else {
        j
    }
}

/// `running[j]` can follow `running[j - 1]` as the place of the largest of the first
/// `j + 1` values.
pub open spec fn is_arg_max_move<T: Scalar>(values: Seq<T>, running: Seq<int>, j: int) -> bool {
    exists|kept: bool| #[trigger] is_arg_max_step(values, running[j - 1], j, kept, running[j])
}

/// `running[j]` can be the place of the largest of the first `j + 1` values, found
/// from the left.
pub open spec fn is_running_arg_max<T: Scalar>(values: Seq<T>, running: Seq<int>) -> bool {
    &&& values.len() > 0
    &&& running.len() == values.len()
    &&& running[0] == 0
    &&& forall|j: int| 1 <= j < values.len() ==> #[trigger] is_arg_max_move(values, running, j)
}

/// `index` can be the place of the largest of `values`, found from the left.
pub open spec fn is_arg_max<T: Scalar>(values: Seq<T>, index: int) -> bool {
    exists|running: Seq<int>| #[trigger] is_running_arg_max(values, running) && running.last() == index
}

/// How many of `pairs` are the pair of `actual` and `predicted`.
pub open spec fn tally(pairs: Seq<(usize, usize)>, actual: int, predicted: int) -> nat
    decreases pairs.len(),
{
    if pairs.len() == 0 {
        0
    } else {
        tally(pairs.drop_last(), actual, predicted) + if pairs.last().0 == actual
            && pairs.last().1 == predicted {
            1nat
        } else {
            0nat
        }
    }
}

/// The sum of the first `n` counts of `row`.
pub open spec fn row_total(row: Seq<usize>, n: int) -> int
    decreases n,
{
    if n <= 0 {
        0
    } else {
        row_total(row, n - 1) + row[n - 1]
    }
}

/// The sum of the counts of the first `n` rows of `matrix`.
pub open spec fn grid_total(matrix: Seq<Vec<usize>>, n: int) -> int
    decreases n,
{
    if n <= 0 {
        0
    } else {
        grid_total(matrix, n - 1) + row_total(matrix[n - 1]@, matrix[n - 1]@.len() as int)
    }
}

/// `matrix` is square, `width` wide, and counts at row `actual` and column
/// `predicted` how many of `pairs` are that pair.
pub open spec fn is_tally_of(matrix: Seq<Vec<usize>>, pairs: Seq<(usize, usize)>, width: int) -> bool {
    &&& matrix.len() == width
    &&& forall|a: int| 0 <= a < width ==> (#[trigger] matrix[a])@.len() == width
    &&& forall|a: int, p: int|
        0 <= a < width && 0 <= p < width ==> #[trigger] matrix[a]@[p] == tally(pairs, a, p)
}

/// `pair` can hold the class of an example and the class the network gives it: the
/// place of the largest wanted output, and the place of the largest output of
/// `layers` on the inputs.
pub open spec fn is_class_pair<T: Scalar>(
    layers: Seq<Layer<T>>,
    inputs: Seq<T>,
    y_desired: Seq<T>,
    pair: (usize, usize),
) -> bool {
    &&& is_arg_max(y_desired, pair.0 as int)
    &&& exists|outputs: Seq<T>| #[trigger]
        is_chain(layers, inputs, outputs) && is_arg_max(outputs, pair.1 as int)
}

/// `pairs` can hold, for each example of `data`, its class and the class that
/// `layers` give it.
pub open spec fn is_class_pairs<T: Scalar>(
    layers: Seq<Layer<T>>,
    data: Seq<(Vec<T>, Vec<T>)>,
    pairs: Seq<(usize, usize)>,
) -> bool {
    &&& pairs.len() == data.len()
    &&& forall|e: int|
        0 <= e < data.len() ==> is_class_pair(layers, data[e].0@, data[e].1@, #[trigger] pairs[e])
}

/// `hot` can answer whether `target` is one; `one` is the scalar for one.
pub open spec fn is_hot_via<T: Scalar>(target: T, one: T, hot: bool) -> bool {
    is_int(1, one) && is_same(target, one, hot)
}

/// `hot` can answer whether `target` is one.
pub open spec fn is_hot<T: Scalar>(target: T, hot: bool) -> bool {
    exists|one: T| #[trigger] is_hot_via(target, one, hot)
}

/// `next` can be `loss - ln(actual)`.
pub open spec fn is_log_loss<T: Scalar>(actual: T, loss: T, next: T) -> bool {
    exists|log: T| #[trigger] is_ln(actual, log) && is_difference(loss, log, next)
}

/// `next` can be `loss` after one output: `loss - ln(actual)` where the output was
/// wanted to be one, as `hot` says, and `loss` itself elsewhere.
pub open spec fn is_loss_step<T: Scalar>(target: T, actual: T, hot: bool, loss: T, next: T) -> bool {
    &&& is_hot(target, hot)
    &&& if hot {
        is_log_loss(actual, loss, next)
    } else {
        next == loss
    }
}

/// `next` can be `loss` after one output.
pub open spec fn is_loss_move<T: Scalar>(target: T, actual: T, loss: T, next: T) -> bool {
    exists|hot: bool| #[trigger] is_loss_step(target, actual, hot, loss, next)
}

/// `running[j]` can be the loss of one example after its first `j` outputs.
pub open spec fn is_running_loss<T: Scalar>(
    y_desired: Seq<T>,
    y_actual: Seq<T>,
    running: Seq<T>,
) -> bool {
    &&& running.len() == y_desired.len() + 1
    &&& is_int(0, running[0])
    &&& forall|j: int|
        0 <= j < y_desired.len() ==> is_loss_move(
            y_desired[j],
            y_actual[j],
            #[trigger] running[j],
            running[j + 1],
        )
}

/// `loss` can be the loss of one example: zero less the logarithm of each output
/// that was wanted to be one.
pub open spec fn is_sample_loss<T: Scalar>(y_desired: Seq<T>, y_actual: Seq<T>, loss: T) -> bool {
    exists|running: Seq<T>| #[trigger]
        is_running_loss(y_desired, y_actual, running) && running.last() == loss
}

/// `loss` can be the loss of `layers` on one example.
pub open spec fn is_example_loss<T: Scalar>(
    layers: Seq<Layer<T>>,
    inputs: Seq<T>,
    y_desired: Seq<T>,
    loss: T,
) -> bool {
    exists|outputs: Seq<T>| #[trigger]
        is_chain(layers, inputs, outputs) && is_sample_loss(y_desired, outputs, loss)
}

/// `loss` can be the mean, over the examples of `data`, of the loss of `layers` on
/// each; `losses` holds the loss on each.
pub open spec fn is_cross_entropy_via<T: Scalar>(
    layers: Seq<Layer<T>>,
    data: Seq<(Vec<T>, Vec<T>)>,
    losses: Seq<T>,
    loss: T,
) -> bool {
    &&& losses.len() == data.len()
    &&& data.len() <= usize::MAX
    &&& forall|e: int|
        0 <= e < data.len() ==> is_example_loss(
            layers,
            data[e].0@,
            data[e].1@,
            #[trigger] losses[e],
        )
    &&& is_mean(losses, data.len() as usize, loss)
}

/// `loss` can be the cross-entropy loss of `layers` on `data`.
pub open spec fn is_cross_entropy<T: Scalar>(
    layers: Seq<Layer<T>>,
    data: Seq<(Vec<T>, Vec<T>)>,
    loss: T,
) -> bool {
    exists|losses: Seq<T>| #[trigger] is_cross_entropy_via(layers, data, losses, loss)
}

/// The place of the largest of `values`, found from the left; of equal values the
/// last.
pub fn arg_max<T: Scalar>(values: &Vec<T>) -> (index: usize)
    requires
        values@.len() > 0,
    ensures
        is_arg_max(values@, index as int),
        index < values@.len(),
{
    let mut best: usize = 0;
    let ghost mut running: Seq<int> = seq![0int];
    let mut j: usize = 1;
    while j < values.len()
        invariant
            1 <= j <= values@.len(),
            best < j,
            running.len() == j,
            running[0] == 0,
            running.last() == best,
            forall|k: int| 1 <= k < j ==> #[trigger] is_arg_max_move(values@, running, k),
        decreases values@.len() - j,
    {
        let kept = values[j].below(values[best]);
        let next = if kept {
            best
        } else {
            j
        };
        proof {
            let grown = running.push(next as int);
            assert(is_arg_max_step(values@, grown[j - 1], j as int, kept, grown[j as int]));
            assert forall|k: int| 1 <= k < j + 1 implies #[trigger] is_arg_max_move(
                values@,
                grown,
                k,
            ) by {
                if k < j {
                    assert(is_arg_max_move(values@, running, k));
                    let kept_k = choose|kept_k: bool| #[trigger]
                        is_arg_max_step(values@, running[k - 1], k, kept_k, running[k]);
                    assert(is_arg_max_step(values@, grown[k - 1], k, kept_k, grown[k]));
                }
            }
            running = grown;
        }
        best = next;
        j = j + 1;
    }
    assert(is_running_arg_max(values@, running));
    best
}

/// Adding a pair adds one to its own count and leaves the others.
proof fn lemma_tally_push(pairs: Seq<(usize, usize)>, pair: (usize, usize), actual: int, predicted: int)
    ensures
        tally(pairs.push(pair), actual, predicted) == tally(pairs, actual, predicted) + if pair.0
            == actual && pair.1 == predicted {
            1nat
        } else {
            0nat
        },
{
    assert(pairs.push(pair).drop_last() == pairs);
}

/// A row's total grows by what one of its counts grows.
proof fn lemma_row_total_update(row: Seq<usize>, p: int, value: usize, n: int)
    requires
        0 <= p < row.len(),
        0 <= n <= row.len(),
    ensures
        row_total(row.update(p, value), n) == row_total(row, n) + if p < n {
            value - row[p]
        } else {
            0
        },
    decreases n,
{
    if n > 0 {
        lemma_row_total_update(row, p, value, n - 1);
    }
}

/// A matrix's total grows by what one of its rows' totals grows.
proof fn lemma_grid_total_update(before: Seq<Vec<usize>>, after: Seq<Vec<usize>>, a: int, n: int)
    requires
        0 <= a < before.len(),
        after.len() == before.len(),
        0 <= n <= before.len(),
        forall|r: int| 0 <= r < before.len() && r != a ==> after[r]@ == before[r]@,
    ensures
        grid_total(after, n) == grid_total(before, n) + if a < n {
            row_total(after[a]@, after[a]@.len() as int) - row_total(
                before[a]@,
                before[a]@.len() as int,
            )
        } else {
            0
        },
    decreases n,
{
    if n > 0 {
        lemma_grid_total_update(before, after, a, n - 1);
    }
}

/// A row of zeros totals zero.
proof fn lemma_zero_row(row: Seq<usize>, n: int)
    requires
        0 <= n <= row.len(),
        forall|p: int| 0 <= p < row.len() ==> row[p] == 0,
    ensures
        row_total(row, n) == 0,
    decreases n,
{
    if n > 0 {
        lemma_zero_row(row, n - 1);
    }
}

/// A matrix of zeros totals zero.
proof fn lemma_zero_grid(matrix: Seq<Vec<usize>>, n: int)
    requires
        0 <= n <= matrix.len(),
        forall|a: int, p: int| 0 <= a < matrix.len() && 0 <= p < matrix[a]@.len() ==> matrix[a]@[p] == 0,
    ensures
        grid_total(matrix, n) == 0,
    decreases n,
{
    if n > 0 {
        lemma_zero_grid(matrix, n - 1);
        lemma_zero_row(matrix[n - 1]@, matrix[n - 1]@.len() as int);
    }
}

/// No pair is counted before any was added.
proof fn lemma_tally_empty(actual: int, predicted: int)
    ensures
        tally(Seq::<(usize, usize)>::empty(), actual, predicted) == 0,
{
}

/// A square matrix of zeros, `width` wide.
fn zero_matrix(width: usize) -> (matrix: Vec<Vec<usize>>)
    ensures
        is_tally_of(matrix@, Seq::<(usize, usize)>::empty(), width as int),
        grid_total(matrix@, width as int) == 0,
{
    let mut matrix: Vec<Vec<usize>> = Vec::new();
    let mut a: usize = 0;
    while a < width
        invariant
            a <= width,
            matrix@.len() == a,
            forall|r: int| 0 <= r < a ==> (#[trigger] matrix@[r])@.len() == width,
            forall|r: int, p: int| 0 <= r < a && 0 <= p < width ==> #[trigger] matrix@[r]@[p] == 0,
        decreases width - a,
    {
        let mut row: Vec<usize> = Vec::new();
        let mut p: usize = 0;
        while p < width
            invariant
                p <= width,
                row@.len() == p,
                forall|q: int| 0 <= q < p ==> row@[q] == 0,
            decreases width - p,
        {
            row.push(0);
            p = p + 1;
        }
        matrix.push(row);
        a = a + 1;
    }
    proof {
        lemma_zero_grid(matrix@, width as int);
        assert forall|r: int, p: int| 0 <= r < width && 0 <= p < width implies #[trigger] matrix@[r]@[p]
            == tally(Seq::<(usize, usize)>::empty(), r, p) by {
            lemma_tally_empty(r, p);
        }
    }
    matrix
}

/// Counts, in a square matrix `width` wide, how often each pair of an actual and a
/// predicted class occurs in `pairs`: the count of a pair stands at the row of its
/// actual class and the column of its predicted class.
pub fn count_classes(pairs: &Vec<(usize, usize)>, width: usize) -> (matrix: Vec<Vec<usize>>)
    requires
        forall|e: int|
            0 <= e < pairs@.len() ==> (#[trigger] pairs@[e]).0 < width && pairs@[e].1 < width,
    ensures
        is_tally_of(matrix@, pairs@, width as int),
        grid_total(matrix@, width as int) == pairs@.len(),
{
    let mut matrix = zero_matrix(width);
    let mut e: usize = 0;
    while e < pairs.len()
        invariant
            e <= pairs@.len(),
            forall|k: int|
                0 <= k < pairs@.len() ==> (#[trigger] pairs@[k]).0 < width && pairs@[k].1 < width,
            is_tally_of(matrix@, pairs@.take(e as int), width as int),
            grid_total(matrix@, width as int) == e,
        decreases pairs@.len() - e,
    {
        let (actual, predicted) = pairs[e];
        let ghost before = matrix@;
        let ghost seen = pairs@.take(e as int);
        proof {
            lemma_cell_bounded(before, width as int, actual as int, predicted as int);
        }
        let count = matrix[actual][predicted];
        let mut row = Vec::new();
        let mut p: usize = 0;
        while p < width
            invariant
                p <= width,
                row@.len() == p,
                actual < width,
                predicted < width,
                matrix@ == before,
                before.len() == width,
                before[actual as int]@.len() == width,
                count == before[actual as int]@[predicted as int],
                count < usize::MAX,
                forall|q: int|
                    0 <= q < p ==> row@[q] == if q == predicted {
                        (count + 1) as usize
                    } else {
                        before[actual as int]@[q]
                    },
            decreases width - p,
        {
            if p == predicted {
                row.push(count + 1);
            } else {
                row.push(matrix[actual][p]);
            }
            p = p + 1;
        }
        matrix[actual] = row;
        proof {
            let after = matrix@;
            assert(after[actual as int]@ == before[actual as int]@.update(
                predicted as int,
                (count + 1) as usize,
            ));
            lemma_row_total_update(
                before[actual as int]@,
                predicted as int,
                (count + 1) as usize,
                width as int,
            );
            lemma_grid_total_update(before, after, actual as int, width as int);
            assert(pairs@.take(e + 1) == seen.push(pairs@[e as int]));
            assert forall|a: int, q: int| 0 <= a < width && 0 <= q < width implies #[trigger] after[a]@[q]
                == tally(pairs@.take(e + 1), a, q) by {
                lemma_tally_push(seen, pairs@[e as int], a, q);
                assert(before[a]@[q] == tally(seen, a, q));
            }
        }
        e = e + 1;
    }
    assert(pairs@.take(e as int) == pairs@);
    matrix
}

/// No count of a matrix exceeds its total.
proof fn lemma_cell_bounded(matrix: Seq<Vec<usize>>, width: int, a: int, p: int)
    requires
        matrix.len() == width,
        0 <= a < width,
        0 <= p < matrix[a]@.len(),
    ensures
        matrix[a]@[p] <= grid_total(matrix, width),
{
    lemma_cell_in_row(matrix[a]@, p, matrix[a]@.len() as int);
    lemma_row_in_grid(matrix, a, width);
}

/// No count of a row exceeds the row's total.
proof fn lemma_cell_in_row(row: Seq<usize>, p: int, n: int)
    requires
        0 <= p < n <= row.len(),
    ensures
        row[p] <= row_total(row, n),
        0 <= row_total(row, n),
    decreases n,
{
    lemma_row_nonnegative(row, n - 1);
    if p < n - 1 {
        lemma_cell_in_row(row, p, n - 1);
    }
}

/// A row's total is not negative.
proof fn lemma_row_nonnegative(row: Seq<usize>, n: int)
    requires
        n <= row.len(),
    ensures
        0 <= row_total(row, n),
    decreases n,
{
    if n > 0 {
        lemma_row_nonnegative(row, n - 1);
    }
}

/// A matrix's total is not negative.
proof fn lemma_grid_nonnegative(matrix: Seq<Vec<usize>>, n: int)
    requires
        n <= matrix.len(),
    ensures
        0 <= grid_total(matrix, n),
    decreases n,
{
    if n > 0 {
        lemma_grid_nonnegative(matrix, n - 1);
        lemma_row_nonnegative(matrix[n - 1]@, matrix[n - 1]@.len() as int);
    }
}

/// No row's total exceeds the matrix's total.
proof fn lemma_row_in_grid(matrix: Seq<Vec<usize>>, a: int, n: int)
    requires
        0 <= a < n <= matrix.len(),
    ensures
        row_total(matrix[a]@, matrix[a]@.len() as int) <= grid_total(matrix, n),
    decreases n,
{
    lemma_grid_nonnegative(matrix, n - 1);
    lemma_row_nonnegative(matrix[n - 1]@, matrix[n - 1]@.len() as int);
    if a < n - 1 {
        lemma_row_in_grid(matrix, a, n - 1);
    }
}

/// The loss of one example: zero less the logarithm of each output that was wanted
/// to be one.
pub fn sample_loss<T: Scalar>(y_desired: &Vec<T>, y_actual: &Vec<T>) -> (loss: T)
    requires
        y_desired@.len() <= y_actual@.len(),
    ensures
        is_sample_loss(y_desired@, y_actual@, loss),
{
    let mut loss = T::from_int(0);
    let ghost mut running: Seq<T> = seq![loss];
    let mut j: usize = 0;
    while j < y_desired.len()
        invariant
            j <= y_desired@.len(),
            y_desired@.len() <= y_actual@.len(),
            running.len() == j + 1,
            is_int(0, running[0]),
            running.last() == loss,
            forall|k: int|
                0 <= k < j ==> is_loss_move(
                    y_desired@[k],
                    y_actual@[k],
                    #[trigger] running[k],
                    running[k + 1],
                ),
        decreases y_desired@.len() - j,
    {
        let one = T::from_int(1);
        let hot = y_desired[j].same(one);
        assert(is_hot_via(y_desired@[j as int], one, hot));
        let mut next = loss;
        if hot {
            let log = y_actual[j].ln();
            next = loss.minus(log);
            assert(is_ln(y_actual@[j as int], log) && is_difference(loss, log, next));
        }
        assert(is_loss_step(y_desired@[j as int], y_actual@[j as int], hot, loss, next));
        proof {
            let grown = running.push(next);
            assert forall|k: int| 0 <= k < j + 1 implies is_loss_move(
                y_desired@[k],
                y_actual@[k],
                #[trigger] grown[k],
                grown[k + 1],
            ) by {
                if k < j {
                    assert(is_loss_move(y_desired@[k], y_actual@[k], running[k], running[k + 1]));
                }
            }
            running = grown;
        }
        loss = next;
        j = j + 1;
    }
    assert(is_running_loss(y_desired@, y_actual@, running));
    loss
}

impl<T: Scalar> NeuralNetwork<T> {
    /// `matrix` can be the confusion matrix of the network on its testing data: it
    /// counts the pairs of the class of an example and the class the network gives
    /// it, and its counts add up to the number of examples.
    pub open spec fn is_confusion_matrix(self, matrix: Seq<Vec<usize>>) -> bool {
        &&& exists|pairs: Seq<(usize, usize)>| #[trigger]
            is_class_pairs(self.layers@, self.testing_data@, pairs) && is_tally_of(
                matrix,
                pairs,
                self.outputs_count(),
            )
        &&& grid_total(matrix, self.outputs_count()) == self.testing_data@.len()
    }

    /// `parameters` holds the weights and the threshold of every neuron of every
    /// layer, each with the role of its layer.
    pub open spec fn has_parameters(self, parameters: Seq<Vec<(Vec<T>, T, LayerType)>>) -> bool {
        &&& parameters.len() == self.layers@.len()
        &&& forall|l: int|
            0 <= l < parameters.len() ==> (#[trigger] self.layers@[l]).has_parameters(
                parameters[l]@,
            )
    }

    /// Counts, for the testing data, how often an example of each class was given
    /// each class by the network. The class of an example is the place of its
    /// largest wanted output; the class the network gives it is the place of the
    /// largest output. The counts add up to the number of examples.
    pub fn confusion_matrix(&self) -> (matrix: Vec<Vec<usize>>)
        requires
            self.wf(),
        ensures
            self.is_confusion_matrix(matrix@),
            grid_total(matrix@, self.outputs_count()) == self.testing_data@.len(),
    {
        let output_len = self.layers[self.layers.len() - 1].neurons.len();
        let mut pairs: Vec<(usize, usize)> = Vec::new();
        let mut e: usize = 0;
        while e < self.testing_data.len()
            invariant
                e <= self.testing_data@.len(),
                self.wf(),
                output_len == self.outputs_count(),
                pairs@.len() == e,
                forall|k: int|
                    0 <= k < e ==> is_class_pair(
                        self.layers@,
                        self.testing_data@[k].0@,
                        self.testing_data@[k].1@,
                        #[trigger] pairs@[k],
                    ),
                forall|k: int|
                    0 <= k < e ==> (#[trigger] pairs@[k]).0 < output_len && pairs@[k].1
                        < output_len,
            decreases self.testing_data@.len() - e,
        {
            assert(self.testing_data@[e as int].1@.len() == self.outputs_count());
            assert(self.layers@.last().neurons@.len() > 0) by {
                assert(layer_fits(
                    self.layers@[self.layers@.len() - 1],
                    fan_in(self.layers@, self.inputs_count(), self.layers@.len() - 1),
                ));
            }
            let outputs = self.predict_normalized(&self.testing_data[e].0);
            let max_index = arg_max(&outputs);
            let y_desired_index = arg_max(&self.testing_data[e].1);
            assert(is_chain(self.layers@, self.testing_data@[e as int].0@, outputs@) && is_arg_max(
                outputs@,
                max_index as int,
            ));
            pairs.push((y_desired_index, max_index));
            e = e + 1;
        }
        let matrix = count_classes(&pairs, output_len);
        assert(is_class_pairs(self.layers@, self.testing_data@, pairs@) && is_tally_of(
            matrix@,
            pairs@,
            self.outputs_count(),
        ));
        matrix
    }

    /// The mean, over the training data, of the loss of each example: the negated
    /// logarithm of each output that was wanted to be one.
    pub fn cross_entropy_loss(&self) -> (loss: T)
        requires
            self.wf(),
        ensures
            is_cross_entropy(self.layers@, self.training_data@, loss),
    {
        let mut losses: Vec<T> = Vec::new();
        let mut e: usize = 0;
        while e < self.training_data.len()
            invariant
                e <= self.training_data@.len(),
                self.wf(),
                losses@.len() == e,
                forall|k: int|
                    0 <= k < e ==> is_example_loss(
                        self.layers@,
                        self.training_data@[k].0@,
                        self.training_data@[k].1@,
                        #[trigger] losses@[k],
                    ),
            decreases self.training_data@.len() - e,
        {
            assert(self.training_data@[e as int].1@.len() == self.outputs_count());
            let y_actual = self.predict_normalized(&self.training_data[e].0);
            let loss = sample_loss(&self.training_data[e].1, &y_actual);
            assert(is_chain(self.layers@, self.training_data@[e as int].0@, y_actual@)
                && is_sample_loss(self.training_data@[e as int].1@, y_actual@, loss));
            losses.push(loss);
            e = e + 1;
        }
        let loss = mean(&losses);
        assert(is_cross_entropy_via(self.layers@, self.training_data@, losses@, loss));
        loss
    }

    /// The weights and the threshold of every neuron of every layer, each with the
    /// role of its layer.
    pub fn get_parameters(&self) -> (parameters: Vec<Vec<(Vec<T>, T, LayerType)>>)
        ensures
            self.has_parameters(parameters@),
    {
        let mut parameters: Vec<Vec<(Vec<T>, T, LayerType)>> = Vec::new();
        let mut l: usize = 0;
        while l < self.layers.len()
            invariant
                l <= self.layers@.len(),
                parameters@.len() == l,
                forall|k: int|
                    0 <= k < l ==> (#[trigger] self.layers@[k]).has_parameters(parameters@[k]@),
            decreases self.layers@.len() - l,
        {
            parameters.push(self.layers[l].get_parameters());
            l = l + 1;
        }
        parameters
    }
}

/// An output that was wanted to be one and is one costs nothing: the loss after it is
/// the loss before it, in an arithmetic where the logarithm of that output is zero
/// and the loss less zero is the loss itself.
pub proof fn lemma_certain_output_costs_nothing<T: Scalar>(
    target: T,
    actual: T,
    loss: T,
    next: T,
)
    requires
        is_loss_move(target, actual, loss, next),
        forall|log: T| #[trigger] is_ln(actual, log) ==> is_int(0, log),
        forall|zero: T, rest: T|
            is_int(0, zero) && #[trigger] is_difference(loss, zero, rest) ==> rest == loss,
    ensures
        next == loss,
{
    let hot = choose|hot: bool| #[trigger] is_loss_step(target, actual, hot, loss, next);
    if hot {
        let log = choose|log: T| #[trigger] is_ln(actual, log) && is_difference(loss, log, next);
        assert(is_int(0, log));
    }
}

/// Every output of `y_actual` that is wanted to be one has the logarithm zero, as an
/// output that is one has.
pub open spec fn is_certain<T: Scalar>(y_desired: Seq<T>, y_actual: Seq<T>) -> bool {
    forall|j: int, log: T|
        0 <= j < y_desired.len() && is_hot(y_desired[j], true) && #[trigger] is_ln(
            y_actual[j],
            log,
        ) ==> is_int(0, log)
}

/// Zero less zero is zero, and zero and zero add up to zero.
pub open spec fn zero_stays_zero<T: Scalar>() -> bool {
    &&& forall|a: T, b: T, r: T|
        is_int(0, a) && is_int(0, b) && #[trigger] is_difference(a, b, r) ==> is_int(0, r)
    &&& forall|a: T, b: T, r: T|
        is_int(0, a) && is_int(0, b) && #[trigger] is_sum(a, b, r) ==> is_int(0, r)
}

/// The loss of an example stays zero as long as every output that is wanted to be one
/// has the logarithm zero.
proof fn lemma_running_loss_stays_zero<T: Scalar>(
    y_desired: Seq<T>,
    y_actual: Seq<T>,
    running: Seq<T>,
    j: int,
)
    requires
        is_running_loss(y_desired, y_actual, running),
        is_certain(y_desired, y_actual),
        zero_stays_zero::<T>(),
        0 <= j <= y_desired.len(),
    ensures
        is_int(0, running[j]),
    decreases j,
{
    if j > 0 {
        lemma_running_loss_stays_zero(y_desired, y_actual, running, j - 1);
        assert(is_loss_move(y_desired[j - 1], y_actual[j - 1], running[j - 1], running[j - 1 + 1]));
        let hot = choose|hot: bool| #[trigger]
            is_loss_step(y_desired[j - 1], y_actual[j - 1], hot, running[j - 1], running[j]);
        if hot {
            let log = choose|log: T| #[trigger]
                is_ln(y_actual[j - 1], log) && is_difference(running[j - 1], log, running[j]);
            assert(is_int(0, log));
        }
    }
}

/// An example costs nothing where every output that is wanted to be one has the
/// logarithm zero, in an arithmetic where zero less zero is zero.
pub proof fn lemma_certain_example_costs_nothing<T: Scalar>(
    y_desired: Seq<T>,
    y_actual: Seq<T>,
    loss: T,
)
    requires
        is_sample_loss(y_desired, y_actual, loss),
        is_certain(y_desired, y_actual),
        zero_stays_zero::<T>(),
    ensures
        is_int(0, loss),
{
    let running = choose|running: Seq<T>| #[trigger]
        is_running_loss(y_desired, y_actual, running) && running.last() == loss;
    lemma_running_loss_stays_zero(y_desired, y_actual, running, y_desired.len() as int);
}

/// The running total of zeros stays zero.
proof fn lemma_running_total_stays_zero<T: Scalar>(terms: Seq<T>, partial: Seq<T>, i: int)
    requires
        is_running_total(terms, partial),
        forall|k: int| 0 <= k < terms.len() ==> is_int(0, #[trigger] terms[k]),
        zero_stays_zero::<T>(),
        0 <= i <= terms.len(),
    ensures
        is_int(0, partial[i]),
    decreases i,
{
    if i > 0 {
        lemma_running_total_stays_zero(terms, partial, i - 1);
        assert(is_sum(partial[i - 1], terms[i - 1], partial[i - 1 + 1]));
    }
}

/// The whole loss is zero where, on every training example, every output that is
/// wanted to be one has the logarithm zero, as an output that is one has. This is
/// stated of an arithmetic where zero less zero and zero plus zero are zero, and
/// zero over the number of examples is zero.
pub proof fn lemma_certain_network_costs_nothing<T: Scalar>(
    layers: Seq<Layer<T>>,
    data: Seq<(Vec<T>, Vec<T>)>,
    loss: T,
)
    requires
        is_cross_entropy(layers, data, loss),
        forall|e: int, outputs: Seq<T>|
            0 <= e < data.len() && #[trigger] is_chain(layers, data[e].0@, outputs) ==> is_certain(
                data[e].1@,
                outputs,
            ),
        zero_stays_zero::<T>(),
        forall|zero: T, n: T, r: T|
            is_int(0, zero) && is_count(data.len() as usize, n) && #[trigger] is_quotient(
                zero,
                n,
                r,
            ) ==> is_int(0, r),
    ensures
        is_int(0, loss),
{
    let losses = choose|losses: Seq<T>| #[trigger] is_cross_entropy_via(layers, data, losses, loss);
    assert forall|e: int| 0 <= e < losses.len() implies is_int(0, #[trigger] losses[e]) by {
        assert(is_example_loss(layers, data[e].0@, data[e].1@, losses[e]));
        let outputs = choose|outputs: Seq<T>| #[trigger]
            is_chain(layers, data[e].0@, outputs) && is_sample_loss(data[e].1@, outputs, losses[e]);
        lemma_certain_example_costs_nothing(data[e].1@, outputs, losses[e]);
    }
    let steps = choose|steps: Seq<T>| #[trigger]
        is_mean_via(losses, data.len() as usize, steps, loss);
    let partial = choose|partial: Seq<T>| #[trigger]
        is_running_total(losses, partial) && partial.last() == steps[0];
    lemma_running_total_stays_zero(losses, partial, losses.len() as int);
}

} // verus!
