//! Bitmap encoder: packs the cells of a panel image into the bit buffer that
//! the device displays.
//!
//! The cell in column `x` and row `y` is carried by bit `x + WIDTH * y` of the
//! buffer, counted from the least significant bit of the first byte. This is the
//! scan order of the panel and not a free choice.
use vstd::prelude::*;
use crate::device::{LED_MATRIX_HEIGHT, LED_MATRIX_WIDTH, MATRIX_BUFFER_SIZE};

verus! {

/// Number of cells of the panel.
pub open spec fn cell_count() -> int {
    LED_MATRIX_WIDTH * LED_MATRIX_HEIGHT
}

/// Number of bits of a packed buffer.
pub open spec fn bit_count() -> int {
    8 * MATRIX_BUFFER_SIZE
}

/// A panel image has one column per `x`, and each column one cell per `y`.
pub open spec fn grid_wf(grid: Seq<Seq<bool>>) -> bool {
    &&& grid.len() == LED_MATRIX_WIDTH
    &&& forall|x: int| 0 <= x < LED_MATRIX_WIDTH ==> (#[trigger] grid[x]).len() == LED_MATRIX_HEIGHT
}

/// The image that a raw matrix stands for: the cell `(x, y)` is lit exactly
/// where `matrix[x][y]` is `0xFF`. Every other value, `0x00` and partial
/// intensities alike, is an unlit cell.
pub open spec fn grid_of(matrix: [[u8; LED_MATRIX_HEIGHT]; LED_MATRIX_WIDTH]) -> Seq<Seq<bool>> {
    Seq::new(
        LED_MATRIX_WIDTH as nat,
        |x: int| Seq::new(LED_MATRIX_HEIGHT as nat, |y: int| matrix[x][y] == 0xFF),
    )
}

/// Position in the packed buffer of the bit that carries the cell `(x, y)`.
pub open spec fn bit_index(x: int, y: int) -> int {
    x + LED_MATRIX_WIDTH * y
}

/// Whether the cell carried by bit `index` is lit. The bits past the last cell
/// carry nothing.
pub open spec fn cell_at(grid: Seq<Seq<bool>>, index: int) -> bool {
    0 <= index < cell_count() && grid[index % (LED_MATRIX_WIDTH as int)][index / (
    LED_MATRIX_WIDTH as int)]
}

/// Bit `index` of a buffer: bit `index mod 8` of byte `index div 8`.
pub open spec fn packed_bit(bytes: Seq<u8>, index: int) -> bool {
    (bytes[index / 8] >> ((index % 8) as u8)) & 1 == 1
}

/// Value that a bit contributes to its byte.
pub open spec fn bit_value(on: bool, weight: int) -> int {
    if on {
        weight
    } else {
        0
    }
}

/// Byte `i` of the packed image: the sum of the weights of its lit cells.
pub open spec fn packed_byte(grid: Seq<Seq<bool>>, i: int) -> int {
    bit_value(cell_at(grid, 8 * i), 1) + bit_value(cell_at(grid, 8 * i + 1), 2) + bit_value(
        cell_at(grid, 8 * i + 2),
        4,
    ) + bit_value(cell_at(grid, 8 * i + 3), 8) + bit_value(cell_at(grid, 8 * i + 4), 16)
        + bit_value(cell_at(grid, 8 * i + 5), 32) + bit_value(cell_at(grid, 8 * i + 6), 64)
        + bit_value(cell_at(grid, 8 * i + 7), 128)
}

/// The packed image of a grid.
pub open spec fn packed(grid: Seq<Seq<bool>>) -> Seq<u8> {
    Seq::new(MATRIX_BUFFER_SIZE as nat, |i: int| packed_byte(grid, i) as u8)
}

/// The grid that a packed buffer shows: the inverse of `packed`.
pub open spec fn unpacked(bytes: Seq<u8>) -> Seq<Seq<bool>> {
    Seq::new(
        LED_MATRIX_WIDTH as nat,
        |x: int| Seq::new(LED_MATRIX_HEIGHT as nat, |y: int| packed_bit(bytes, bit_index(x, y))),
    )
}

/// Whether the walk over the columns, each from its first row down, has passed
/// the cell carried by bit `index` when it stands before the cell `(x, y)`.
spec fn visited(index: int, x: int, y: int) -> bool {
    let column = index % (LED_MATRIX_WIDTH as int);
    let row = index / (LED_MATRIX_WIDTH as int);
    column < x || (column == x && row < y)
}

proof fn lemma_byte_is_sum_of_bits(b: u8)
    by (bit_vector)
    ensures
        b == (if (b >> 0u8) & 1 == 1 { 1int } else { 0 }) + (if (b >> 1u8) & 1 == 1 { 2int } else { 0 })
            + (if (b >> 2u8) & 1 == 1 { 4int } else { 0 }) + (if (b >> 3u8) & 1 == 1 { 8int } else { 0 })
            + (if (b >> 4u8) & 1 == 1 { 16int } else { 0 }) + (if (b >> 5u8) & 1 == 1 { 32int } else { 0 })
            + (if (b >> 6u8) & 1 == 1 { 64int } else { 0 }) + (if (b >> 7u8) & 1 == 1 { 128int } else { 0 }),
{
}

proof fn lemma_bits_of_sum(
    b: u8,
    c0: bool,
    c1: bool,
    c2: bool,
    c3: bool,
    c4: bool,
    c5: bool,
    c6: bool,
    c7: bool,
)
    by (bit_vector)
    requires
        b == (if c0 { 1int } else { 0 }) + (if c1 { 2int } else { 0 }) + (if c2 { 4int } else { 0 })
            + (if c3 { 8int } else { 0 }) + (if c4 { 16int } else { 0 }) + (if c5 { 32int } else { 0 })
            + (if c6 { 64int } else { 0 }) + (if c7 { 128int } else { 0 }),
    ensures
        ((b >> 0u8) & 1 == 1) == c0,
        ((b >> 1u8) & 1 == 1) == c1,
        ((b >> 2u8) & 1 == 1) == c2,
        ((b >> 3u8) & 1 == 1) == c3,
        ((b >> 4u8) & 1 == 1) == c4,
        ((b >> 5u8) & 1 == 1) == c5,
        ((b >> 6u8) & 1 == 1) == c6,
        ((b >> 7u8) & 1 == 1) == c7,
{
}

proof fn lemma_or_sets_one_bit(b: u8, j: u8, i: u8)
    by (bit_vector)
    requires
        j < 8,
        i < 8,
    ensures
        (((b | (1u8 << j)) >> i) & 1 == 1) == (((b >> i) & 1 == 1) || i == j),
{
}

proof fn lemma_no_bit_in_zero(i: u8)
    by (bit_vector)
    requires
        i < 8,
    ensures
        (0u8 >> i) & 1 == 0,
{
}

/// A buffer whose bits are the cells of `grid` is the packed image of `grid`.
proof fn lemma_bits_determine_bytes(bytes: Seq<u8>, grid: Seq<Seq<bool>>)
    requires
        bytes.len() == MATRIX_BUFFER_SIZE,
        forall|k: int|
            0 <= k < bit_count() ==> #[trigger] packed_bit(bytes, k) == cell_at(grid, k),
    ensures
        bytes == packed(grid),
{
    assert forall|i: int| 0 <= i < MATRIX_BUFFER_SIZE implies bytes[i] == packed_byte(
        grid,
        i,
    ) as u8 by {
        lemma_byte_is_sum_of_bits(bytes[i]);
        assert(packed_bit(bytes, 8 * i) == cell_at(grid, 8 * i));
        assert(packed_bit(bytes, 8 * i + 1) == cell_at(grid, 8 * i + 1));
        assert(packed_bit(bytes, 8 * i + 2) == cell_at(grid, 8 * i + 2));
        assert(packed_bit(bytes, 8 * i + 3) == cell_at(grid, 8 * i + 3));
        assert(packed_bit(bytes, 8 * i + 4) == cell_at(grid, 8 * i + 4));
        assert(packed_bit(bytes, 8 * i + 5) == cell_at(grid, 8 * i + 5));
        assert(packed_bit(bytes, 8 * i + 6) == cell_at(grid, 8 * i + 6));
        assert(packed_bit(bytes, 8 * i + 7) == cell_at(grid, 8 * i + 7));
        assert(bytes[i] == packed_byte(grid, i));
    }
    assert(bytes =~= packed(grid));
}

/// Packs a panel image into the buffer that the device displays.
///
/// The cell `(x, y)` is lit where `matrix[x][y]` is `0xFF`. Its bit is bit
/// `(x + WIDTH * y) mod 8` of byte `(x + WIDTH * y) div 8`; every bit that
/// carries no lit cell is zero.
pub fn encode(matrix: &[[u8; LED_MATRIX_HEIGHT]; LED_MATRIX_WIDTH]) -> (bits: [u8;
    MATRIX_BUFFER_SIZE])
    ensures
        bits@ == packed(grid_of(*matrix)),
{
    let ghost grid = grid_of(*matrix);
    let mut vals = [0u8; MATRIX_BUFFER_SIZE];
    proof {
        assert forall|k: int| 0 <= k < bit_count() implies #[trigger] packed_bit(vals@, k)
            == (visited(k, 0, 0) && cell_at(grid, k)) by {
            assert(vals@[k / 8] == 0u8);
            lemma_no_bit_in_zero((k % 8) as u8);
        }
    }
    let mut x: usize = 0;
    while x < LED_MATRIX_WIDTH
        invariant
            x <= LED_MATRIX_WIDTH,
            grid == grid_of(*matrix),
            forall|k: int|
                0 <= k < bit_count() ==> #[trigger] packed_bit(vals@, k) == (visited(
                    k,
                    x as int,
                    0,
                ) && cell_at(grid, k)),
        decreases LED_MATRIX_WIDTH - x,
    {
        let mut y: usize = 0;
        while y < LED_MATRIX_HEIGHT
            invariant
                x < LED_MATRIX_WIDTH,
                y <= LED_MATRIX_HEIGHT,
                grid == grid_of(*matrix),
                forall|k: int|
                    0 <= k < bit_count() ==> #[trigger] packed_bit(vals@, k) == (visited(
                        k,
                        x as int,
                        y as int,
                    ) && cell_at(grid, k)),
            decreases LED_MATRIX_HEIGHT - y,
        {
            let index: usize = x + LED_MATRIX_WIDTH * y;
            let value: u8 = matrix[x][y];
            assert(cell_at(grid, index as int) == (value == 0xFF));
            let ghost before = vals@;
            if value == 0xFF {
                let shift: u8 = (index % 8) as u8;
                vals[index / 8] = vals[index / 8] | (1u8 << shift);
                proof {
                    assert forall|k: int| 0 <= k < bit_count() implies #[trigger] packed_bit(
                        vals@,
                        k,
                    ) == (packed_bit(before, k) || k == index) by {
                        if k / 8 == index / 8 {
                            lemma_or_sets_one_bit(before[k / 8], shift, (k % 8) as u8);
                        }
                    }
                }
            }
            proof {
                assert forall|k: int| 0 <= k < bit_count() implies #[trigger] packed_bit(
                    vals@,
                    k,
                ) == (visited(k, x as int, y + 1) && cell_at(grid, k)) by {
                    assert(packed_bit(before, k) == (visited(k, x as int, y as int) && cell_at(
                        grid,
                        k,
                    )));
                    assert(packed_bit(vals@, k) == (packed_bit(before, k) || (k == index
                        && value == 0xFF)));
                }
            }
            y += 1;
        }
        x += 1;
    }
    proof {
        lemma_bits_determine_bytes(vals@, grid);
    }
    vals
}

/// Reads a packed buffer back into a panel image: the cell `(x, y)` is `0xFF`
/// where its bit is set and `0x00` where it is not.
pub fn decode(bits: &[u8; MATRIX_BUFFER_SIZE]) -> (matrix: [[u8; LED_MATRIX_HEIGHT];
    LED_MATRIX_WIDTH])
    ensures
        grid_of(matrix) == unpacked(bits@),
        forall|x: int, y: int|
            0 <= x < LED_MATRIX_WIDTH && 0 <= y < LED_MATRIX_HEIGHT ==> #[trigger] matrix[x][y]
                == 0xFF || matrix[x][y] == 0x00,
{
    let mut matrix = [[0u8; LED_MATRIX_HEIGHT]; LED_MATRIX_WIDTH];
    for x in 0..LED_MATRIX_WIDTH
        invariant
            forall|c: int, r: int|
                0 <= c < x && 0 <= r < LED_MATRIX_HEIGHT ==> #[trigger] matrix[c][r] == (
                if packed_bit(bits@, bit_index(c, r)) {
                    0xFFu8
                } else {
                    0x00u8
                }),
    {
        let mut column = [0u8; LED_MATRIX_HEIGHT];
        for y in 0..LED_MATRIX_HEIGHT
            invariant
                x < LED_MATRIX_WIDTH,
                forall|r: int|
                    0 <= r < y ==> #[trigger] column[r] == (if packed_bit(
                        bits@,
                        bit_index(x as int, r),
                    ) {
                        0xFFu8
                    } else {
                        0x00u8
                    }),
        {
            let index: usize = x + LED_MATRIX_WIDTH * y;
            let shift: u8 = (index % 8) as u8;
            if (bits[index / 8] >> shift) & 1 == 1 {
                column[y] = 0xFF;
            } else {
                column[y] = 0x00;
            }
        }
        matrix[x] = column;
    }
    proof {
        assert forall|x: int| 0 <= x < LED_MATRIX_WIDTH implies #[trigger] grid_of(matrix)[x]
            == unpacked(bits@)[x] by {
            assert forall|y: int| 0 <= y < LED_MATRIX_HEIGHT implies grid_of(matrix)[x][y]
                == unpacked(bits@)[x][y] by {
                assert(matrix[x][y] == (if packed_bit(bits@, bit_index(x, y)) {
                    0xFFu8
                } else {
                    0x00u8
                }));
            }
            assert(grid_of(matrix)[x] =~= unpacked(bits@)[x]);
        }
        assert(grid_of(matrix) =~= unpacked(bits@));
    }
    matrix
}

/// The buffer holds one bit per cell, rounded up to whole bytes: its length is
/// the least number of bytes that has a bit for every cell.
pub proof fn lemma_buffer_length(grid: Seq<Seq<bool>>)
    ensures
        packed(grid).len() == MATRIX_BUFFER_SIZE,
        8 * MATRIX_BUFFER_SIZE >= cell_count(),
        8 * (MATRIX_BUFFER_SIZE - 1) < cell_count(),
{
}

/// Every bit of the packed image is the cell it carries: bit `index` is set
/// exactly where `index` is the position of a lit cell, and the bits past the
/// last cell are zero.
pub proof fn lemma_packed_bits(grid: Seq<Seq<bool>>, index: int)
    requires
        0 <= index < bit_count(),
    ensures
        packed_bit(packed(grid), index) == cell_at(grid, index),
{
    let i = index / 8;
    let b = packed(grid)[i];
    assert(b == packed_byte(grid, i));
    lemma_bits_of_sum(
        b,
        cell_at(grid, 8 * i),
        cell_at(grid, 8 * i + 1),
        cell_at(grid, 8 * i + 2),
        cell_at(grid, 8 * i + 3),
        cell_at(grid, 8 * i + 4),
        cell_at(grid, 8 * i + 5),
        cell_at(grid, 8 * i + 6),
        cell_at(grid, 8 * i + 7),
    );
}

/// The cell `(x, y)` is carried by bit `(x + WIDTH * y) mod 8` of byte
/// `(x + WIDTH * y) div 8`, which is set exactly where the cell is lit.
pub proof fn lemma_cell_bit(grid: Seq<Seq<bool>>, x: int, y: int)
    requires
        0 <= x < LED_MATRIX_WIDTH,
        0 <= y < LED_MATRIX_HEIGHT,
    ensures
        0 <= bit_index(x, y) < cell_count(),
        packed_bit(packed(grid), bit_index(x, y)) == grid[x][y],
        ((packed(grid)[bit_index(x, y) / 8] >> ((bit_index(x, y) % 8) as u8)) & 1 == 1)
            == grid[x][y],
{
    lemma_packed_bits(grid, bit_index(x, y));
}

/// Unpacking the packed image of a grid gives the grid back.
pub proof fn lemma_round_trip(grid: Seq<Seq<bool>>)
    requires
        grid_wf(grid),
    ensures
        unpacked(packed(grid)) == grid,
{
    assert forall|x: int| 0 <= x < LED_MATRIX_WIDTH implies #[trigger] unpacked(packed(grid))[x]
        == grid[x] by {
        assert forall|y: int| 0 <= y < LED_MATRIX_HEIGHT implies unpacked(packed(grid))[x][y]
            == grid[x][y] by {
            lemma_cell_bit(grid, x, y);
        }
        assert(unpacked(packed(grid))[x] =~= grid[x]);
    }
    assert(unpacked(packed(grid)) =~= grid);
}

/// A grid with no lit cell packs to a buffer of zero bytes.
pub proof fn lemma_all_off(grid: Seq<Seq<bool>>)
    requires
        forall|x: int, y: int|
            0 <= x < LED_MATRIX_WIDTH && 0 <= y < LED_MATRIX_HEIGHT ==> !#[trigger] grid[x][y],
    ensures
        packed(grid) == Seq::new(MATRIX_BUFFER_SIZE as nat, |i: int| 0u8),
{
    assert forall|k: int| !cell_at(grid, k) by {
        if 0 <= k < cell_count() {
            assert(!grid[k % (LED_MATRIX_WIDTH as int)][k / (LED_MATRIX_WIDTH as int)]);
        }
    }
    assert(packed(grid) =~= Seq::new(MATRIX_BUFFER_SIZE as nat, |i: int| 0u8));
}

/// A grid with every cell lit packs to a buffer whose first `WIDTH * HEIGHT`
/// bits are set and whose remaining bits are zero.
pub proof fn lemma_all_on(grid: Seq<Seq<bool>>)
    requires
        forall|x: int, y: int|
            0 <= x < LED_MATRIX_WIDTH && 0 <= y < LED_MATRIX_HEIGHT ==> #[trigger] grid[x][y],
    ensures
        forall|index: int|
            0 <= index < bit_count() ==> #[trigger] packed_bit(packed(grid), index) == (index
                < cell_count()),
{
    assert forall|index: int| 0 <= index < bit_count() implies #[trigger] packed_bit(
        packed(grid),
        index,
    ) == (index < cell_count()) by {
        lemma_packed_bits(grid, index);
        if index < cell_count() {
            assert(grid[index % (LED_MATRIX_WIDTH as int)][index / (LED_MATRIX_WIDTH as int)]);
        }
    }
}

} // verus!
