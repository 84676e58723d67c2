//! Dimensions of the grid and of its bodies, and the positions that follow from them.
//!
//! All lengths are whole numbers of world units.

use vstd::prelude::*;

verus! {

/// Number of columns of the grid.
pub const COLS_NUM: usize = 70;

/// Number of rows of the grid.
pub const ROWS_NUM: usize = 50;

/// Scale of the camera's projection when the scene starts.
pub const INIT_CAMERA_ZOOM: u32 = 8;

/// Length of the straight part of a capsule body.
pub const LABEL_BODY_A: u32 = 100;

/// Radius of the round ends of a capsule body.
pub const LABEL_BODY_R: u32 = 50;

/// Free space between neighbouring bodies.
pub const MARGIN: u32 = 10;

/// Font size of the label text.
pub const FONT_SIZE: u32 = 24;

/// The label text, cut into the sections of a spanned label.
pub const MULTI_SECTION_TEXT: [&'static str; 3] = ["Lorem ipsum", "\ndolor sit", "\namet"];

/// The label text in one piece.
pub const ONE_SECTION_TEXT: &'static str = "Lorem ipsum\ndolor sit\namet";

/// Positions of the camera and of the bodies.
pub struct CommonCalc;

impl CommonCalc {
    /// Distance between the centres of two neighbouring columns: the full length of a
    /// body, which is its straight part and both round ends, and the margin.
    pub open spec fn column_pitch() -> int {
        LABEL_BODY_A + LABEL_BODY_R * 2 + MARGIN
    }

    /// Distance between the centres of two neighbouring rows: the width of a body,
    /// which is twice its radius, and the margin.
    pub open spec fn row_pitch() -> int {
        LABEL_BODY_R * 2 + MARGIN
    }

    /// Horizontal position of the camera: half way between column 0 and the column
    /// after the last one, which is the middle of the grid.
    pub fn camera_center_x() -> (x: u128)
        ensures
            2 * x == Self::column_pitch() * (COLS_NUM + 1),
    {
        (LABEL_BODY_A as u128 + LABEL_BODY_R as u128 * 2 + MARGIN as u128) * (COLS_NUM as u128 + 1)
            / 2
    }

    /// Vertical position of the camera: half the height of all rows.
    pub fn camera_center_y() -> (y: u128)
        ensures
            2 * y == Self::row_pitch() * ROWS_NUM,
    {
        (LABEL_BODY_R as u128 * 2 + MARGIN as u128) * (ROWS_NUM as u128) / 2
    }

    /// Horizontal position of the bodies of column `index`.
    pub fn label_x_pos(index: usize) -> (x: u128)
        ensures
            x == Self::column_pitch() * index,
    {
        let pitch: u128 = LABEL_BODY_A as u128 + LABEL_BODY_R as u128 * 2 + MARGIN as u128;
        assert(pitch * index <= 210 * u64::MAX) by (nonlinear_arith)
            requires
                pitch == 210,
                index <= u64::MAX,
        ;
        pitch * (index as u128)
    }

    /// Vertical position of the bodies of row `index`.
    pub fn label_y_pos(index: usize) -> (y: u128)
        ensures
            y == Self::row_pitch() * index,
    {
        let pitch: u128 = LABEL_BODY_R as u128 * 2 + MARGIN as u128;
        assert(pitch * index <= 110 * u64::MAX) by (nonlinear_arith)
            requires
                pitch == 110,
                index <= u64::MAX,
        ;
        pitch * (index as u128)
    }
}

} // verus!
