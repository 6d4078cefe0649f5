//! Represents available colors.
use vstd::prelude::*;
use vstd::string::{StrSliceExecFns, StringExecFns};

verus! {

/// A single color that the bridge can understand: one byte on a fixed hue
/// wheel.
#[derive(Debug, Clone, Copy, PartialEq, Eq, Structural)]
pub struct Color(pub u8);

impl From<Color> for u8 {
    fn from(color: Color) -> (r: u8)
        ensures
            r == color.0,
    {
        let Color(value) = color;
        value
    }
}

impl vstd::std_specs::convert::FromSpecImpl<Color> for u8 {
    open spec fn obeys_from_spec() -> bool {
        true
    }

    open spec fn from_spec(v: Color) -> u8 {
        v.0
    }
}

/// The digits of base sixteen, upper or lower case.
pub open spec fn hex_digit(d: int, upper: bool) -> char {
    if upper {
        seq!['0', '1', '2', '3', '4', '5', '6', '7', '8', '9', 'A', 'B', 'C', 'D', 'E', 'F'][d]
    } else {
        seq!['0', '1', '2', '3', '4', '5', '6', '7', '8', '9', 'a', 'b', 'c', 'd', 'e', 'f'][d]
    }
}

/// A byte in decimal, without leading zeros.
pub open spec fn decimal_text(b: u8) -> Seq<char> {
    let v = b as int;
    if v < 10 {
        seq![hex_digit(v, true)]
    } else if v < 100 {
        seq![hex_digit(v / 10, true), hex_digit(v % 10, true)]
    } else {
        seq![hex_digit(v / 100, true), hex_digit((v / 10) % 10, true), hex_digit(v % 10, true)]
    }
}

/// A byte in hexadecimal behind `0x`, without leading zeros.
pub open spec fn hex_text(b: u8, upper: bool) -> Seq<char> {
    let v = b as int;
    if v < 16 {
        seq!['0', 'x', hex_digit(v, upper)]
    } else {
        seq!['0', 'x', hex_digit(v / 16, upper), hex_digit(v % 16, upper)]
    }
}

fn digit_text(d: u8, upper: bool) -> (r: &'static str)
    requires
        d < 16,
    ensures
        r@ == seq![hex_digit(d as int, upper)],
{
    proof {
        reveal_strlit("0123456789ABCDEF");
        reveal_strlit("0123456789abcdef");
    }
    let digits: &'static str = if upper {
        "0123456789ABCDEF"
    } else {
        "0123456789abcdef"
    };
    let r = digits.substring_char(d as usize, d as usize + 1);
    assert(r@ =~= seq![hex_digit(d as int, upper)]);
    r
}

impl Color {
    /// The color byte in decimal (`122`).
    pub fn to_decimal_string(&self) -> (r: String)
        ensures
            r@ == decimal_text(self.0),
    {
        let v = self.0;
        let mut r = String::new();
        if v >= 100 {
            r.append(digit_text(v / 100, true));
        }
        if v >= 10 {
            r.append(digit_text((v / 10) % 10, true));
        }
        r.append(digit_text(v % 10, true));
        assert(r@ =~= decimal_text(v));
        r
    }

    fn hex_string(&self, upper: bool) -> (r: String)
        ensures
            r@ == hex_text(self.0, upper),
    {
        let v = self.0;
        proof {
            reveal_strlit("0x");
        }
        let mut r = String::from_str("0x");
        if v >= 16 {
            r.append(digit_text(v / 16, upper));
        }
        r.append(digit_text(v % 16, upper));
        assert(r@ =~= hex_text(v, upper));
        r
    }

    /// The color byte in upper-case hexadecimal behind `0x` (`0x7A`).
    pub fn to_upper_hex_string(&self) -> (r: String)
        ensures
            r@ == hex_text(self.0, true),
    {
        self.hex_string(true)
    }

    /// The color byte in lower-case hexadecimal behind `0x` (`0x7a`).
    pub fn to_lower_hex_string(&self) -> (r: String)
        ensures
            r@ == hex_text(self.0, false),
    {
        self.hex_string(false)
    }
}

// The sixteen named points of the hue wheel, as the byte of a `Color`
// (`Color(GREEN)`).

/// Violet (`0x00`)
pub const VIOLET: u8 = 0x00;
/// Royal Blue (`0x10`)
pub const ROYAL_BLUE: u8 = 0x10;
/// Baby Blue (`0x20`)
pub const BABY_BLUE: u8 = 0x20;
/// Aqua (`0x30`)
pub const AQUA: u8 = 0x30;
/// Mint (`0x40`)
pub const MINT: u8 = 0x40;
/// Seafoam Green (`0x50`)
pub const SEAFOAM_GREEN: u8 = 0x50;
/// Green (`0x60`)
pub const GREEN: u8 = 0x60;
/// Lime Green (`0x70`)
pub const LIME_GREEN: u8 = 0x70;
/// Yellow (`0x80`)
pub const YELLOW: u8 = 0x80;
/// Yellow-Orange (`0x90`)
pub const YELLOW_ORANGE: u8 = 0x90;
/// Orange (`0xA0`)
pub const ORANGE: u8 = 0xA0;
/// Red (`0xB0`)
pub const RED: u8 = 0xB0;
/// Pink (`0xC0`)
pub const PINK: u8 = 0xC0;
/// Fuchsia (`0xD0`)
pub const FUCHSIA: u8 = 0xD0;
/// Lilac (`0xE0`)
pub const LILAC: u8 = 0xE0;
/// Lavender (`0xF0`)
pub const LAVENDER: u8 = 0xF0;

} // verus!
