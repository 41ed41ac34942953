use vstd::prelude::*;

verus! {

/// LEDs can be 3 possible colors (and off).
#[derive(Clone, Copy, Debug, PartialEq, Eq, Structural)]
pub enum Color {
    /// Off state
    Off,
    /// Only the green LED is on
    Green,
    /// Only the red LED is on
    Red,
    /// Both green and red LEDs are on, which makes it yellow
    Yellow,
}

/// The two LEDs of a bicolor cell that a color lights, as `(green, red)`.
pub open spec fn channels(c: Color) -> (bool, bool) {
    match c {
        Color::Off => (false, false),
        Color::Green => (true, false),
        Color::Red => (false, true),
        Color::Yellow => (true, true),
    }
}

impl From<Color> for (bool, bool) {
    /// Splits a color into its `(green, red)` channels.
    fn from(color: Color) -> (r: (bool, bool))
        ensures
            r == channels(color),
    {
        match color {
            Color::Green => (true, false),
            Color::Red => (false, true),
            Color::Yellow => (true, true),
            Color::Off => (false, false),
        }
    }
}

impl vstd::std_specs::convert::FromSpecImpl<Color> for (bool, bool) {
    open spec fn obeys_from_spec() -> bool {
        true
    }

    open spec fn from_spec(color: Color) -> (bool, bool) {
        channels(color)
    }
}

} // verus!
