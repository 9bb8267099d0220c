use led_matrix::device::util::{convert_model_to_array, create_initial_matrix};
use led_matrix::device::{LED_MATRIX_HEIGHT, LED_MATRIX_WIDTH};

#[test]
fn initial_picture_has_one_unlit_cell_per_panel_cell() {
    let matrix = create_initial_matrix();
    assert_eq!(matrix.len(), 34);
    assert_eq!(matrix.len(), LED_MATRIX_HEIGHT);
    for row in &matrix {
        assert_eq!(row.len(), 9);
        assert_eq!(row.len(), LED_MATRIX_WIDTH);
        assert!(row.iter().all(|&cell| !cell));
    }
}

#[test]
fn initial_picture_converts_to_a_dark_matrix() {
    assert_eq!(
        convert_model_to_array(&create_initial_matrix()),
        [[0u8; LED_MATRIX_HEIGHT]; LED_MATRIX_WIDTH]
    );
}

#[test]
fn rows_of_the_picture_become_columns_of_the_matrix() {
    let mut model = create_initial_matrix();
    model[0][0] = true;
    model[5][2] = true;
    model[33][8] = true;
    let array = convert_model_to_array(&model);
    let mut expected = [[0u8; LED_MATRIX_HEIGHT]; LED_MATRIX_WIDTH];
    expected[0][0] = 0xFF;
    expected[2][5] = 0xFF;
    expected[8][33] = 0xFF;
    assert_eq!(array, expected);
}

#[test]
fn every_cell_of_the_picture_lands_in_its_place() {
    for row in 0..LED_MATRIX_HEIGHT {
        for column in 0..LED_MATRIX_WIDTH {
            let mut model = create_initial_matrix();
            model[row][column] = true;
            let array = convert_model_to_array(&model);
            for x in 0..LED_MATRIX_WIDTH {
                for y in 0..LED_MATRIX_HEIGHT {
                    let lit = x == column && y == row;
                    assert_eq!(array[x][y], if lit { 0xFF } else { 0x00 });
                }
            }
        }
    }
}

#[test]
fn a_smaller_picture_leaves_the_rest_dark() {
    let model = vec![vec![true, false, true], vec![false, true]];
    let array = convert_model_to_array(&model);
    let mut expected = [[0u8; LED_MATRIX_HEIGHT]; LED_MATRIX_WIDTH];
    expected[0][0] = 0xFF;
    expected[2][0] = 0xFF;
    expected[1][1] = 0xFF;
    assert_eq!(array, expected);
    assert_eq!(
        convert_model_to_array(&Vec::new()),
        [[0u8; LED_MATRIX_HEIGHT]; LED_MATRIX_WIDTH]
    );
}
