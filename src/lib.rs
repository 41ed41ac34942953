//! Drives an 8x8 bicolor LED backpack built on the HT16K33 controller by
//! Cartesian coordinate and color, with `(0, 0)` at the bottom-left corner.

mod color;
mod layout;
mod matrix;

pub use color::{channels, Color};
pub use layout::{
    bit_of, bit_set, coord_fits, green_coord, lemma_cell_pattern, lemma_fit_asymmetry,
    lemma_locations_distinct, lemma_update_idempotent, led_on, red_coord, row_of, update_fits,
    with_bit, with_cell, with_led, ROWS,
};
pub use matrix::{
    cell_writes, led_location, location_mask, location_row, writes_led, BicolorMatrix8x8, LedError,
    LedWrite,
};
