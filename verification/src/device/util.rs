//! Conversions between the host's picture of the panel and the matrix that
//! the device layer renders.
use vstd::prelude::*;
use crate::device::bitmap::grid_of;
use crate::device::{LED_MATRIX_HEIGHT, LED_MATRIX_WIDTH};

verus! {

/// Whether a host model fits the panel: at most one row per panel row, and in
/// each row at most one cell per panel column.
pub open spec fn model_fits(model: Seq<Vec<bool>>) -> bool {
    &&& model.len() <= LED_MATRIX_HEIGHT
    &&& forall|row: int| 0 <= row < model.len() ==> (#[trigger] model[row]).len() <= LED_MATRIX_WIDTH
}

/// Whether the host model has a lit cell in the given column and row.
pub open spec fn model_lit(model: Seq<Vec<bool>>, column: int, row: int) -> bool {
    0 <= row < model.len() && 0 <= column < model[row].len() && model[row][column]
}

/// The panel image that a host model stands for: the cell `(x, y)` is lit where
/// the model has a lit cell in column `x` of row `y`.
pub open spec fn model_grid(model: Seq<Vec<bool>>) -> Seq<Seq<bool>> {
    Seq::new(
        LED_MATRIX_WIDTH as nat,
        |x: int| Seq::new(LED_MATRIX_HEIGHT as nat, |y: int| model_lit(model, x, y)),
    )
}

/// The picture that the host starts with: one row per panel row, one cell per
/// panel column, nothing lit.
pub fn create_initial_matrix() -> (matrix: Vec<Vec<bool>>)
    ensures
        matrix@.len() == LED_MATRIX_HEIGHT,
        forall|row: int|
            0 <= row < LED_MATRIX_HEIGHT ==> (#[trigger] matrix@[row]).len() == LED_MATRIX_WIDTH,
        forall|row: int, column: int|
            0 <= row < LED_MATRIX_HEIGHT && 0 <= column < LED_MATRIX_WIDTH
                ==> !#[trigger] matrix@[row][column],
{
    let mut matrix: Vec<Vec<bool>> = Vec::new();
    for row in 0..LED_MATRIX_HEIGHT
        invariant
            matrix@.len() == row,
            forall|r: int| 0 <= r < row ==> (#[trigger] matrix@[r]).len() == LED_MATRIX_WIDTH,
            forall|r: int, c: int|
                0 <= r < row && 0 <= c < LED_MATRIX_WIDTH ==> !#[trigger] matrix@[r][c],
    {
        let mut cells: Vec<bool> = Vec::new();
        for column in 0..LED_MATRIX_WIDTH
            invariant
                cells@.len() == column,
                forall|c: int| 0 <= c < column ==> !#[trigger] cells@[c],
        {
            cells.push(false);
        }
        matrix.push(cells);
    }
    matrix
}

/// Turns the host's picture, held row by row, into the matrix that is
/// rendered, held column by column: `0xFF` for a lit cell, `0x00` for every
/// other cell, those that the model leaves out included.
pub fn convert_model_to_array(matrix_model: &Vec<Vec<bool>>) -> (matrix_array: [[u8;
    LED_MATRIX_HEIGHT]; LED_MATRIX_WIDTH])
    requires
        model_fits(matrix_model@),
    ensures
        grid_of(matrix_array) == model_grid(matrix_model@),
        forall|column: int, row: int|
            0 <= column < LED_MATRIX_WIDTH && 0 <= row < LED_MATRIX_HEIGHT
                ==> #[trigger] matrix_array[column][row] == (if model_lit(
                matrix_model@,
                column,
                row,
            ) {
                0xFFu8
            } else {
                0x00u8
            }),
{
    let mut matrix_array = [[0u8; LED_MATRIX_HEIGHT]; LED_MATRIX_WIDTH];
    for x in 0..matrix_model.len()
        invariant
            model_fits(matrix_model@),
            forall|column: int, row: int|
                0 <= column < LED_MATRIX_WIDTH && 0 <= row < LED_MATRIX_HEIGHT
                    ==> #[trigger] matrix_array[column][row] == (if row < x && model_lit(
                    matrix_model@,
                    column,
                    row,
                ) {
                    0xFFu8
                } else {
                    0x00u8
                }),
    {
        let cells = &matrix_model[x];
        for y in 0..cells.len()
            invariant
                x < matrix_model.len(),
                model_fits(matrix_model@),
                *cells == matrix_model@[x as int],
                forall|column: int, row: int|
                    0 <= column < LED_MATRIX_WIDTH && 0 <= row < LED_MATRIX_HEIGHT
                        ==> #[trigger] matrix_array[column][row] == (if (row < x || (row == x
                        && column < y)) && model_lit(matrix_model@, column, row) {
                        0xFFu8
                    } else {
                        0x00u8
                    }),
        {
            let value: u8 = if cells[y] {
                0xFF
            } else {
                0x00
            };
            matrix_array[y][x] = value;
        }
    }
    proof {
        assert forall|x: int| 0 <= x < LED_MATRIX_WIDTH implies #[trigger] grid_of(
            matrix_array,
        )[x] == model_grid(matrix_model@)[x] by {
            assert forall|y: int| 0 <= y < LED_MATRIX_HEIGHT implies grid_of(matrix_array)[x][y]
                == model_grid(matrix_model@)[x][y] by {
                assert(matrix_array[x][y] == (if model_lit(matrix_model@, x, y) {
                    0xFFu8
                } else {
                    0x00u8
                }));
            }
            assert(grid_of(matrix_array)[x] =~= model_grid(matrix_model@)[x]);
        }
        assert(grid_of(matrix_array) =~= model_grid(matrix_model@));
    }
    matrix_array
}

} // verus!
