use vstd::prelude::*;

use ht16k33::{LedLocation, ValidationError};

use crate::color::{channels, Color};
use crate::layout::{
    bit_of, coord_fits, green_coord, red_coord, row_of, update_fits, with_bit, with_cell,
    with_led,
};

verus! {

#[verifier::external_type_specification]
#[verifier::external_body]
pub struct ExLedLocation(LedLocation);

#[verifier::external_type_specification]
#[verifier::external_body]
pub struct ExValidationError(ValidationError);

/// The display RAM row of a location: the bits of its `row` field, which
/// `LedLocation::row_as_index` hands out.
pub uninterp spec fn location_row(loc: LedLocation) -> u8;

/// The bit mask of a location: the bits of its `common` field.
pub uninterp spec fn location_mask(loc: LedLocation) -> u8;

/// Relies on `ht16k33::LedLocation::new`: it accepts exactly a row below 16
/// and a common below 8, and keeps the row as is and the common as the mask
/// `1 << common`.
pub assume_specification[ LedLocation::new ](row: u8, common: u8) -> (r: Result<LedLocation, ValidationError>)
    ensures
        r is Ok <==> (row < 16 && common < 8),
        r is Ok ==> location_row(r->Ok_0) == row && location_mask(r->Ok_0) == (1u8 << common),
;

/// Why a cell could not be updated.
#[derive(Clone, Copy, Debug, PartialEq, Eq, Structural)]
pub enum LedError {
    /// A computed row or bit lies outside the display RAM.
    AddressingFailure,
}

/// Operate a Bicolor 8x8 Matrix LED backpack
pub trait BicolorMatrix8x8<E> {
    /// Updates a single LED in the 8x8 grid, where (0,0) is at the bottom-left corner
    fn update_bicolor_led(&mut self, x: u8, y: u8, color: Color) -> (r: Result<(), E>)
        ensures
            r is Ok <==> update_fits(x as int, y as int),
    ;
}

/// The driver's location of linear address `coord`, or the addressing failure
/// where the address lies outside the display RAM.
pub fn led_location(coord: u16) -> (r: Result<LedLocation, LedError>)
    ensures
        r is Ok <==> coord_fits(coord as int),
        r matches Ok(loc) ==> location_row(loc) == row_of(coord as int) && location_mask(loc) == (
        1u8 << (bit_of(coord as int) as u8)),
        r matches Err(e) ==> e == LedError::AddressingFailure,
{
    let row: u16 = coord / 8;
    let bit: u16 = coord % 8;
    if row > 255 {
        return Err(LedError::AddressingFailure);
    }
    match LedLocation::new(row as u8, bit as u8) {
        Ok(loc) => Ok(loc),
        Err(_) => Err(LedError::AddressingFailure),
    }
}

/// One write into the driver's display buffer: the LED at `location` is
/// switched on or off.
#[derive(Clone, Copy, Debug)]
pub struct LedWrite {
    /// The LED to write.
    pub location: LedLocation,
    /// Whether it is switched on.
    pub on: bool,
}

/// Whether `w` switches the LED at linear address `coord` to `on`.
pub open spec fn writes_led(w: LedWrite, coord: int, on: bool) -> bool {
    &&& location_row(w.location) == row_of(coord)
    &&& location_mask(w.location) == (1u8 << (bit_of(coord) as u8))
    &&& w.on == on
}

/// The writes into the driver's display buffer that give cell `(x, y)`,
/// where `(0, 0)` is at the bottom-left corner, the color `color`, in the
/// order they are to be made, and the outcome of the update. The red LED
/// comes first and the green one second; where an address falls outside the
/// display RAM the writes stop there, a red write already planned stays, and
/// the outcome is the addressing failure.
pub fn cell_writes(x: u8, y: u8, color: Color) -> (r: (Vec<LedWrite>, Result<(), LedError>))
    ensures
        r.1 is Ok <==> update_fits(x as int, y as int),
        r.1 matches Err(e) ==> e == LedError::AddressingFailure,
        r.0@.len() == if !coord_fits(red_coord(x as int, y as int)) {
            0nat
        } else if !coord_fits(green_coord(x as int, y as int)) {
            1nat
        } else {
            2nat
        },
        r.0@.len() >= 1 ==> writes_led(r.0@[0], red_coord(x as int, y as int), channels(color).1),
        r.0@.len() == 2 ==> writes_led(r.0@[1], green_coord(x as int, y as int), channels(color).0),
{
    let (green, red): (bool, bool) = color.into();
    let mut writes: Vec<LedWrite> = Vec::new();
    // red LED
    let coord: u16 = x as u16 * 16 + y as u16;
    match led_location(coord) {
        Ok(location) => writes.push(LedWrite { location, on: red }),
        Err(e) => return (writes, Err(e)),
    }
    // green LED
    let coord: u16 = coord + 8;
    match led_location(coord) {
        Ok(location) => writes.push(LedWrite { location, on: green }),
        Err(e) => return (writes, Err(e)),
    }
    (writes, Ok(()))
}

/// A bare image of the controller's display RAM: row `r`, bit `b` holds the
/// LED at linear address `8 * r + b`.
impl BicolorMatrix8x8<LedError> for [u8; 16] {
    fn update_bicolor_led(&mut self, x: u8, y: u8, color: Color) -> (r: Result<(), LedError>)
        ensures
            final(self)@ == with_cell(old(self)@, x as int, y as int, color),
            r matches Err(e) ==> e == LedError::AddressingFailure,
    {
        let (green, red): (bool, bool) = color.into();
        // red LED
        let coord: u16 = x as u16 * 16 + y as u16;
        if let Err(e) = led_location(coord) {
            return Err(e);
        }
        set_led(self, coord, red);
        // green LED
        let coord: u16 = coord + 8;
        if let Err(e) = led_location(coord) {
            return Err(e);
        }
        set_led(self, coord, green);
        Ok(())
    }
}

/// Sets the LED at linear address `coord` of a display RAM image to `on`.
fn set_led(rows: &mut [u8; 16], coord: u16, on: bool)
    requires
        coord_fits(coord as int),
    ensures
        final(rows)@ == with_led(old(rows)@, coord as int, on),
{
    let row: usize = (coord / 8) as usize;
    let mask: u8 = 1u8 << ((coord % 8) as u8);
    let b: u8 = rows[row];
    let nb: u8 = if on { b | mask } else { b & !mask };
    assert(nb == with_bit(b, (coord % 8) as u8, on));
    rows[row] = nb;
}

} // verus!
