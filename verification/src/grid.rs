//! The cells of the grid: where each body stands and which hue it has.

use crate::settings::{CommonCalc, COLS_NUM, ROWS_NUM};
use vstd::prelude::*;

verus! {

/// A hue in degrees, as the fraction `numerator / denominator`.
#[derive(Clone, Copy, Debug, PartialEq, Eq)]
pub struct Hue {
    pub numerator: u128,
    pub denominator: usize,
}

/// One body of the grid. Columns and rows are counted from 1.
#[derive(Clone, Copy, Debug, PartialEq, Eq)]
pub struct BodyPlacement {
    pub column: usize,
    pub row: usize,
    /// Horizontal position of the body's centre.
    pub x: u128,
    /// Vertical position of the body's centre.
    pub y: u128,
    /// Hue of the body's colour.
    pub hue: Hue,
}

/// The hue of the cell in `column` and `row`: 360 degrees times `column / row`.
pub open spec fn spec_cell_hue(column: usize, row: usize) -> Hue {
    Hue { numerator: (360 * column) as u128, denominator: row }
}

/// The body that stands in `column` and `row`.
pub open spec fn spec_body_placement(column: usize, row: usize) -> BodyPlacement {
    BodyPlacement {
        column,
        row,
        x: (CommonCalc::column_pitch() * column) as u128,
        y: (CommonCalc::row_pitch() * row) as u128,
        hue: spec_cell_hue(column, row),
    }
}

/// All bodies of the grid, column by column and, within a column, row by row.
pub open spec fn spec_body_placements() -> Seq<BodyPlacement> {
    Seq::new(
        (COLS_NUM * ROWS_NUM) as nat,
        |k: int|
            spec_body_placement(
                (k / ROWS_NUM as int + 1) as usize,
                (k % ROWS_NUM as int + 1) as usize,
            ),
    )
}

/// Computes the hue of the cell in `column` and `row`.
pub fn cell_hue(column: usize, row: usize) -> (hue: Hue)
    ensures
        hue == spec_cell_hue(column, row),
{
    Hue { numerator: 360 * (column as u128), denominator: row }
}

/// Lists the bodies of the grid in the order in which they are created.
pub fn body_placements() -> (bodies: Vec<BodyPlacement>)
    ensures
        bodies@ == spec_body_placements(),
{
    let mut bodies: Vec<BodyPlacement> = Vec::new();
    let mut column: usize = 1;
    while column <= COLS_NUM
        invariant
            1 <= column <= COLS_NUM + 1,
            bodies@.len() == (column - 1) * ROWS_NUM,
            forall|k: int| 0 <= k < bodies@.len() ==> bodies@[k] == spec_body_placements()[k],
        decreases COLS_NUM + 1 - column,
    {
        let x = CommonCalc::label_x_pos(column);
        let mut row: usize = 1;
        while row <= ROWS_NUM
            invariant
                1 <= column <= COLS_NUM,
                1 <= row <= ROWS_NUM + 1,
                x == CommonCalc::column_pitch() * column,
                bodies@.len() == (column - 1) * ROWS_NUM + (row - 1),
                forall|k: int| 0 <= k < bodies@.len() ==> bodies@[k] == spec_body_placements()[k],
            decreases ROWS_NUM + 1 - row,
        {
            let y = CommonCalc::label_y_pos(row);
            let hue = cell_hue(column, row);
            bodies.push(BodyPlacement { column, row, x, y, hue });
            row += 1;
        }
        column += 1;
    }
    bodies
}

/// Every cell of the grid has its body in the list, and the cell's column and row say
/// where: the columns come one after the other, each with its rows in order.
pub proof fn lemma_body_of_cell(column: usize, row: usize)
    requires
        1 <= column <= COLS_NUM,
        1 <= row <= ROWS_NUM,
    ensures
        spec_body_placements().len() == COLS_NUM * ROWS_NUM,
        0 <= (column - 1) * ROWS_NUM + (row - 1) < spec_body_placements().len(),
        spec_body_placements()[(column - 1) * ROWS_NUM + (row - 1)] == spec_body_placement(
            column,
            row,
        ),
{
}

/// Within the grid, every position and every numerator of a hue stays below 2^24, so
/// a renderer that keeps 24 bits of a number shows each body exactly where it stands.
pub proof fn lemma_grid_fits_24_bits(column: usize, row: usize)
    requires
        1 <= column <= COLS_NUM,
        1 <= row <= ROWS_NUM,
    ensures
        spec_body_placement(column, row).x == CommonCalc::column_pitch() * column,
        spec_body_placement(column, row).y == CommonCalc::row_pitch() * row,
        spec_body_placement(column, row).hue.numerator == 360 * column,
        spec_body_placement(column, row).x < 0x100_0000,
        spec_body_placement(column, row).y < 0x100_0000,
        spec_body_placement(column, row).hue.numerator < 0x100_0000,
{
    assert(CommonCalc::column_pitch() == 210);
    assert(CommonCalc::row_pitch() == 110);
}

} // verus!
