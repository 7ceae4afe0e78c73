//! The picture of what a network of two inputs has learnt: its outputs on a fixed
//! grid of points.

use vstd::prelude::*;
use crate::scalar::{Scalar, is_int, is_count};
use crate::nn::NeuralNetwork;
use crate::nn::parallel::predict_each;

verus! {

/// The number of points of the grid: fifty rows of fifty.
pub const GRID_POINTS: usize = 2500;

/// `point` can be the point `i` of the grid: `2 * (i mod 50)` across and `i / 25`,
/// rounded down, along.
pub open spec fn is_grid_point<T: Scalar>(i: int, point: Seq<T>) -> bool {
    &&& point.len() == 2
    &&& is_count(((i % 50) * 2) as usize, point[0])
    &&& is_count((i / 25) as usize, point[1])
}

/// `grid` can be the grid.
pub open spec fn is_grid<T: Scalar>(grid: Seq<Vec<T>>) -> bool {
    &&& grid.len() == GRID_POINTS
    &&& forall|i: int| 0 <= i < GRID_POINTS ==> is_grid_point(i, (#[trigger] grid[i])@)
}

/// `heatmap` can be the picture shown before anything was learnt: two zeros for each
/// point of the grid.
pub open spec fn is_dummy_heatmap<T: Scalar>(heatmap: Seq<Vec<T>>) -> bool {
    &&& heatmap.len() == GRID_POINTS
    &&& forall|i: int|
        0 <= i < GRID_POINTS ==> {
            &&& (#[trigger] heatmap[i])@.len() == 2
            &&& is_int(0, heatmap[i]@[0])
            &&& is_int(0, heatmap[i]@[1])
        }
}

/// `heatmap` can hold the outputs of `network` on the points of `grid`, which can be
/// the grid.
pub open spec fn is_heatmap_via<T: Scalar>(
    network: NeuralNetwork<T>,
    grid: Seq<Vec<T>>,
    heatmap: Seq<Vec<T>>,
) -> bool {
    &&& is_grid(grid)
    &&& heatmap.len() == GRID_POINTS
    &&& forall|i: int|
        0 <= i < GRID_POINTS ==> network.predicts(grid[i]@, (#[trigger] heatmap[i])@)
}

/// `heatmap` can hold the outputs of `network` on the points of the grid.
pub open spec fn is_heatmap<T: Scalar>(network: NeuralNetwork<T>, heatmap: Seq<Vec<T>>) -> bool {
    exists|grid: Seq<Vec<T>>| #[trigger] is_heatmap_via(network, grid, heatmap)
}

/// The points of the grid, row by row.
pub fn heatmap_inputs<T: Scalar>() -> (grid: Vec<Vec<T>>)
    ensures
        is_grid(grid@),
{
    let mut grid: Vec<Vec<T>> = Vec::new();
    let mut i: usize = 0;
    while i < GRID_POINTS
        invariant
            i <= GRID_POINTS,
            grid@.len() == i,
            forall|k: int| 0 <= k < i ==> is_grid_point(k, (#[trigger] grid@[k])@),
        decreases GRID_POINTS - i,
    {
        let across = T::from_count((i % 50) * 2);
        let along = T::from_count(i / 25);
        let mut point: Vec<T> = Vec::new();
        point.push(across);
        point.push(along);
        grid.push(point);
        i = i + 1;
    }
    grid
}

/// The outputs of `nn` on the points of the grid.
pub fn get_heatmap_data<T: Scalar>(nn: &NeuralNetwork<T>) -> (heatmap: Vec<Vec<T>>)
    ensures
        is_heatmap(*nn, heatmap@),
{
    let grid = heatmap_inputs::<T>();
    let heatmap = predict_each(nn, &grid);
    assert(is_heatmap_via(*nn, grid@, heatmap@));
    heatmap
}

/// The picture shown before anything was learnt: two zeros for each point of the
/// grid.
pub fn get_dummy_heatmap_data<T: Scalar>() -> (heatmap: Vec<Vec<T>>)
    ensures
        is_dummy_heatmap(heatmap@),
{
    let mut heatmap: Vec<Vec<T>> = Vec::new();
    let mut i: usize = 0;
    while i < GRID_POINTS
        invariant
            i <= GRID_POINTS,
            heatmap@.len() == i,
            forall|k: int|
                0 <= k < i ==> {
                    &&& (#[trigger] heatmap@[k])@.len() == 2
                    &&& is_int(0, heatmap@[k]@[0])
                    &&& is_int(0, heatmap@[k]@[1])
                },
        decreases GRID_POINTS - i,
    {
        let mut point: Vec<T> = Vec::new();
        point.push(T::from_int(0));
        point.push(T::from_int(0));
        heatmap.push(point);
        i = i + 1;
    }
    heatmap
}

} // verus!
