use label_grid::grid::{body_placements, cell_hue, BodyPlacement, Hue};
use label_grid::settings::{
    CommonCalc, COLS_NUM, FONT_SIZE, INIT_CAMERA_ZOOM, LABEL_BODY_A, LABEL_BODY_R, MARGIN,
    ROWS_NUM,
};

#[test]
fn settings_have_the_expected_values() {
    assert_eq!(COLS_NUM, 70);
    assert_eq!(ROWS_NUM, 50);
    assert_eq!(INIT_CAMERA_ZOOM, 8);
    assert_eq!(LABEL_BODY_A, 100);
    assert_eq!(LABEL_BODY_R, 50);
    assert_eq!(MARGIN, 10);
    assert_eq!(FONT_SIZE, 24);
}

#[test]
fn camera_center_x_is_the_middle_of_the_columns() {
    assert_eq!(CommonCalc::camera_center_x(), 7455);
    assert_eq!(
        2 * CommonCalc::camera_center_x(),
        CommonCalc::label_x_pos(0) + CommonCalc::label_x_pos(COLS_NUM + 1)
    );
}

#[test]
fn camera_center_y_is_half_the_height_of_the_rows() {
    assert_eq!(CommonCalc::camera_center_y(), 2750);
    assert_eq!(2 * CommonCalc::camera_center_y(), CommonCalc::label_y_pos(ROWS_NUM));
}

#[test]
fn label_x_pos_steps_by_the_column_pitch() {
    assert_eq!(CommonCalc::label_x_pos(0), 0);
    assert_eq!(CommonCalc::label_x_pos(1), 210);
    assert_eq!(CommonCalc::label_x_pos(2), 420);
    assert_eq!(CommonCalc::label_x_pos(70), 14700);
}

#[test]
fn label_y_pos_steps_by_the_row_pitch() {
    assert_eq!(CommonCalc::label_y_pos(0), 0);
    assert_eq!(CommonCalc::label_y_pos(1), 110);
    assert_eq!(CommonCalc::label_y_pos(2), 220);
    assert_eq!(CommonCalc::label_y_pos(50), 5500);
}

#[test]
fn positions_of_the_largest_index_do_not_wrap() {
    assert_eq!(CommonCalc::label_x_pos(usize::MAX), 210 * (usize::MAX as u128));
    assert_eq!(CommonCalc::label_y_pos(usize::MAX), 110 * (usize::MAX as u128));
}

#[test]
fn cell_hue_is_360_times_column_over_row() {
    assert_eq!(cell_hue(1, 1), Hue { numerator: 360, denominator: 1 });
    assert_eq!(cell_hue(3, 7), Hue { numerator: 1080, denominator: 7 });
    assert_eq!(cell_hue(70, 50), Hue { numerator: 25200, denominator: 50 });
    assert_eq!(cell_hue(0, 0), Hue { numerator: 0, denominator: 0 });
}

#[test]
fn body_placements_has_one_body_for_each_cell() {
    let bodies = body_placements();
    assert_eq!(bodies.len(), 3500);
    assert_eq!(bodies.len(), COLS_NUM * ROWS_NUM);
    for column in 1..=COLS_NUM {
        for row in 1..=ROWS_NUM {
            let body = bodies[(column - 1) * ROWS_NUM + (row - 1)];
            assert_eq!(
                body,
                BodyPlacement {
                    column,
                    row,
                    x: CommonCalc::label_x_pos(column),
                    y: CommonCalc::label_y_pos(row),
                    hue: cell_hue(column, row),
                }
            );
        }
    }
}

#[test]
fn body_placements_goes_column_by_column() {
    let bodies = body_placements();
    assert_eq!(
        bodies[0],
        BodyPlacement {
            column: 1,
            row: 1,
            x: 210,
            y: 110,
            hue: Hue { numerator: 360, denominator: 1 },
        }
    );
    assert_eq!(
        bodies[1],
        BodyPlacement {
            column: 1,
            row: 2,
            x: 210,
            y: 220,
            hue: Hue { numerator: 360, denominator: 2 },
        }
    );
    assert_eq!(
        bodies[50],
        BodyPlacement {
            column: 2,
            row: 1,
            x: 420,
            y: 110,
            hue: Hue { numerator: 720, denominator: 1 },
        }
    );
    assert_eq!(
        bodies[3499],
        BodyPlacement {
            column: 70,
            row: 50,
            x: 14700,
            y: 5500,
            hue: Hue { numerator: 25200, denominator: 50 },
        }
    );
}

#[test]
fn bodies_keep_the_margin_between_them() {
    let full_length = (LABEL_BODY_A + 2 * LABEL_BODY_R) as u128;
    let full_width = (2 * LABEL_BODY_R) as u128;
    for index in 1..=COLS_NUM {
        assert_eq!(
            CommonCalc::label_x_pos(index + 1) - CommonCalc::label_x_pos(index),
            full_length + MARGIN as u128
        );
        assert_eq!(
            CommonCalc::label_y_pos(index + 1) - CommonCalc::label_y_pos(index),
            full_width + MARGIN as u128
        );
    }
}
