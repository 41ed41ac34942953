use vstd::prelude::*;

use crate::color::{channels, Color};

verus! {

/// Number of 8-bit rows in the controller's display RAM.
pub const ROWS: u16 = 16;

/// Linear address of the red LED of cell `(x, y)`: each column takes two
/// consecutive rows, the red one first.
pub open spec fn red_coord(x: int, y: int) -> int {
    x * 16 + y
}

/// Linear address of the green LED of cell `(x, y)`, one row past the red one.
pub open spec fn green_coord(x: int, y: int) -> int {
    x * 16 + y + 8
}

/// Display RAM row that holds linear address `coord`.
pub open spec fn row_of(coord: int) -> int {
    coord / 8
}

/// Bit within its row that holds linear address `coord`.
pub open spec fn bit_of(coord: int) -> int {
    coord % 8
}

/// Whether linear address `coord` lies inside the display RAM.
pub open spec fn coord_fits(coord: int) -> bool {
    row_of(coord) < ROWS
}

/// Whether both LEDs of cell `(x, y)` lie inside the display RAM.
pub open spec fn update_fits(x: int, y: int) -> bool {
    coord_fits(red_coord(x, y)) && coord_fits(green_coord(x, y))
}

/// Whether bit `i` of `b` is set.
pub open spec fn bit_set(b: u8, i: u8) -> bool {
    b & (1u8 << i) != 0
}

/// `b` with bit `i` set to `on`.
pub open spec fn with_bit(b: u8, i: u8, on: bool) -> u8 {
    if on {
        b | (1u8 << i)
    } else {
        b & !(1u8 << i)
    }
}

/// Whether the LED at linear address `coord` is lit in `rows`.
pub open spec fn led_on(rows: Seq<u8>, coord: int) -> bool {
    bit_set(rows[row_of(coord)], bit_of(coord) as u8)
}

/// `rows` with the LED at linear address `coord` set to `on`; an address
/// outside the display RAM leaves `rows` as it is.
pub open spec fn with_led(rows: Seq<u8>, coord: int, on: bool) -> Seq<u8> {
    if 0 <= coord && coord_fits(coord) {
        rows.update(row_of(coord), with_bit(rows[row_of(coord)], bit_of(coord) as u8, on))
    } else {
        rows
    }
}

/// The display RAM after cell `(x, y)` is given `color`: first the red LED is
/// written, then the green one. Where the red address falls outside the RAM
/// the green one does too, so nothing is written; where only the green one
/// does, the red write stays.
pub open spec fn with_cell(rows: Seq<u8>, x: int, y: int, color: Color) -> Seq<u8> {
    with_led(with_led(rows, red_coord(x, y), channels(color).1), green_coord(x, y), channels(color).0)
}

proof fn lemma_with_bit(b: u8, i: u8, j: u8, on: bool)
    requires
        i < 8,
        j < 8,
    ensures
        bit_set(with_bit(b, i, on), j) == if i == j {
            on
        } else {
            bit_set(b, j)
        },
{
    if on {
        assert((b | (1u8 << i)) & (1u8 << j) != 0 <==> (if i == j {
            true
        } else {
            b & (1u8 << j) != 0
        })) by (bit_vector)
            requires
                i < 8,
                j < 8,
        ;
    } else {
        assert((b & !(1u8 << i)) & (1u8 << j) != 0 <==> (if i == j {
            false
        } else {
            b & (1u8 << j) != 0
        })) by (bit_vector)
            requires
                i < 8,
                j < 8,
        ;
    }
}

proof fn lemma_with_bit_twice(b: u8, i: u8, on: bool)
    requires
        i < 8,
    ensures
        with_bit(with_bit(b, i, on), i, on) == with_bit(b, i, on),
{
    if on {
        assert((b | (1u8 << i)) | (1u8 << i) == b | (1u8 << i)) by (bit_vector);
    } else {
        assert((b & !(1u8 << i)) & !(1u8 << i) == b & !(1u8 << i)) by (bit_vector);
    }
}

/// Updating a cell lights its red LED exactly when the color has red and its
/// green LED exactly when the color has green, and leaves every other LED of
/// the display RAM as it was.
pub proof fn lemma_cell_pattern(rows: Seq<u8>, x: int, y: int, color: Color, coord: int)
    requires
        rows.len() == ROWS,
        0 <= x < 8,
        0 <= y < 8,
        0 <= coord < 8 * ROWS,
    ensures
        update_fits(x, y),
        with_cell(rows, x, y, color).len() == ROWS,
        led_on(with_cell(rows, x, y, color), coord) == if coord == red_coord(x, y) {
            channels(color).1
        } else if coord == green_coord(x, y) {
            channels(color).0
        } else {
            led_on(rows, coord)
        },
{
    let (g, r) = channels(color);
    let rc = red_coord(x, y);
    let gc = green_coord(x, y);
    let mid = with_led(rows, rc, r);
    let out = with_led(mid, gc, g);
    lemma_with_bit(rows[row_of(rc)], bit_of(rc) as u8, bit_of(coord) as u8, r);
    lemma_with_bit(mid[row_of(gc)], bit_of(gc) as u8, bit_of(coord) as u8, g);
    assert(out == with_cell(rows, x, y, color));
}

/// The 64 cells use 128 distinct LEDs: every red and green address of a cell
/// lies in the display RAM, no cell's red LED shares a row and bit with any
/// green LED, and two cells that share a red (or a green) row and bit are the
/// same cell.
pub proof fn lemma_locations_distinct(x1: int, y1: int, x2: int, y2: int)
    requires
        0 <= x1 < 8,
        0 <= y1 < 8,
        0 <= x2 < 8,
        0 <= y2 < 8,
    ensures
        0 <= red_coord(x1, y1) && coord_fits(red_coord(x1, y1)),
        0 <= green_coord(x1, y1) && coord_fits(green_coord(x1, y1)),
        (row_of(red_coord(x1, y1)), bit_of(red_coord(x1, y1))) != (row_of(green_coord(x2, y2)), bit_of(green_coord(x2, y2))),
        (row_of(red_coord(x1, y1)), bit_of(red_coord(x1, y1))) == (row_of(red_coord(x2, y2)), bit_of(red_coord(x2, y2))) ==> x1 == x2 && y1 == y2,
        (row_of(green_coord(x1, y1)), bit_of(green_coord(x1, y1))) == (row_of(green_coord(x2, y2)), bit_of(green_coord(x2, y2))) ==> x1 == x2 && y1 == y2,
{
}

/// Giving a cell the same color twice leaves the display RAM as giving it
/// once does, whatever the coordinate.
pub proof fn lemma_update_idempotent(rows: Seq<u8>, x: int, y: int, color: Color)
    requires
        rows.len() == ROWS,
    ensures
        with_cell(with_cell(rows, x, y, color), x, y, color) == with_cell(rows, x, y, color),
{
    let (g, r) = channels(color);
    let rc = red_coord(x, y);
    let gc = green_coord(x, y);
    let once = with_cell(rows, x, y, color);
    let mid = with_led(once, rc, r);
    if 0 <= rc && coord_fits(rc) {
        lemma_with_bit_twice(rows[row_of(rc)], bit_of(rc) as u8, r);
        assert(mid =~= once);
    } else {
        assert(mid =~= once);
    }
    if 0 <= gc && coord_fits(gc) {
        lemma_with_bit_twice(with_led(rows, rc, r)[row_of(gc)], bit_of(gc) as u8, g);
    }
    assert(with_led(mid, gc, g) =~= once);
}

/// An x coordinate of 8 or more never fits; a y coordinate of 8 does fit in
/// every column but the last, as it moves into the next column's rows.
pub proof fn lemma_fit_asymmetry(x: int, y: int)
    requires
        0 <= y,
    ensures
        x >= 8 ==> !update_fits(x, y),
        0 <= x < 7 && y == 8 ==> update_fits(x, y),
{
}

} // verus!
