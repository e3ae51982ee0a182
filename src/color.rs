//! RGB colours, their channel ranking, hex rendering and the colours that a
//! theme derives from its primary colour.

use vstd::prelude::*;

verus! {

/// One of the three channels of an RGB colour.
#[derive(Clone, Copy, Debug, PartialEq, Eq, Structural)]
pub enum Rgb {
    Red,
    Green,
    Blue,
}

/// A colour given by three 8-bit channels.
#[derive(Clone, Copy, Debug, PartialEq, Eq, Structural)]
pub struct RgbValues {
    pub red: u8,
    pub green: u8,
    pub blue: u8,
}

/// The value of channel `rgb` of `c`.
pub open spec fn channel_value(c: RgbValues, rgb: Rgb) -> u8 {
    match rgb {
        Rgb::Red => c.red,
        Rgb::Green => c.green,
        Rgb::Blue => c.blue,
    }
}

/// The first of red, green, blue whose value is largest.
pub open spec fn largest_channel(c: RgbValues) -> Rgb {
    if c.red >= c.green && c.red >= c.blue {
        Rgb::Red
    } else if c.green >= c.red && c.green >= c.blue {
        Rgb::Green
    } else {
        Rgb::Blue
    }
}

/// The first of red, green, blue whose value is smallest.
pub open spec fn smallest_channel(c: RgbValues) -> Rgb {
    if c.red <= c.green && c.red <= c.blue {
        Rgb::Red
    } else if c.green <= c.red && c.green <= c.blue {
        Rgb::Green
    } else {
        Rgb::Blue
    }
}

/// The largest channel value of `c`.
pub open spec fn max_value(c: RgbValues) -> u8 {
    channel_value(c, largest_channel(c))
}

/// The smallest channel value of `c`.
pub open spec fn min_value(c: RgbValues) -> u8 {
    channel_value(c, smallest_channel(c))
}

/// The complement of `c`: each channel mirrored around the midpoint of the
/// largest and the smallest channel value of `c`.
pub open spec fn complement(c: RgbValues) -> RgbValues {
    let m = max_value(c) + min_value(c);
    RgbValues { red: (m - c.red) as u8, green: (m - c.green) as u8, blue: (m - c.blue) as u8 }
}

/// A colour whose three channels all hold `v`.
pub open spec fn gray(v: u8) -> RgbValues {
    RgbValues { red: v, green: v, blue: v }
}

/// Black text on a primary colour whose channels all exceed 128, white text
/// on any other.
pub open spec fn active_text(primary: RgbValues) -> RgbValues {
    if primary.red > 128 && primary.green > 128 && primary.blue > 128 {
        gray(0)
    } else {
        gray(255)
    }
}

/// Dark gray beside black active text, light gray beside any other.
pub open spec fn normal_text(active: RgbValues) -> RgbValues {
    if active == gray(0) {
        gray(60)
    } else {
        gray(195)
    }
}

/// The sixteen lowercase hexadecimal digits, in order of value.
pub const HEX_DIGITS: &'static str = "0123456789abcdef";

/// The two lowercase hexadecimal digits of `b`, most significant first.
pub open spec fn hex_byte(b: u8) -> Seq<char> {
    seq![HEX_DIGITS@[b as int / 16], HEX_DIGITS@[b as int % 16]]
}

/// The six-digit lowercase hexadecimal form of `c`, with no prefix.
pub open spec fn hex_of(c: RgbValues) -> Seq<char> {
    hex_byte(c.red) + hex_byte(c.green) + hex_byte(c.blue)
}

impl RgbValues {
    /// The value of one channel.
    pub fn get(&self, rgb: Rgb) -> (r: u8)
        ensures
            r == channel_value(*self, rgb),
    {
        match rgb {
            Rgb::Red => self.red,
            Rgb::Green => self.green,
            Rgb::Blue => self.blue,
        }
    }

    /// The channel with the largest value; on a tie, red before green before blue.
    pub fn max(&self) -> (r: Rgb)
        ensures
            r == largest_channel(*self),
            channel_value(*self, r) >= self.red,
            channel_value(*self, r) >= self.green,
            channel_value(*self, r) >= self.blue,
    {
        if self.red >= self.green && self.red >= self.blue {
            Rgb::Red
        } else if self.green >= self.red && self.green >= self.blue {
            Rgb::Green
        } else {
            Rgb::Blue
        }
    }

    /// The channel with the smallest value; on a tie, red before green before blue.
    pub fn min(&self) -> (r: Rgb)
        ensures
            r == smallest_channel(*self),
            channel_value(*self, r) <= self.red,
            channel_value(*self, r) <= self.green,
            channel_value(*self, r) <= self.blue,
    {
        if self.red <= self.green && self.red <= self.blue {
            Rgb::Red
        } else if self.green <= self.red && self.green <= self.blue {
            Rgb::Green
        } else {
            Rgb::Blue
        }
    }

    /// The colour as six lowercase hexadecimal digits, with no prefix.
    pub fn hex(&self) -> (r: String)
        ensures
            r@ == hex_of(*self),
    {
        let mut s = String::new();
        push_hex_byte(&mut s, self.red);
        push_hex_byte(&mut s, self.green);
        push_hex_byte(&mut s, self.blue);
        s
    }
}

/// Appends the two hexadecimal digits of `b` to `s`.
fn push_hex_byte(s: &mut String, b: u8)
    ensures
        final(s)@ == old(s)@ + hex_byte(b),
{
    proof {
        reveal_strlit("0123456789abcdef");
    }
    let hi: usize = (b / 16) as usize;
    let lo: usize = (b % 16) as usize;
    s.append(HEX_DIGITS.substring_char(hi, hi + 1));
    s.append(HEX_DIGITS.substring_char(lo, lo + 1));
    assert(final(s)@ =~= old(s)@ + hex_byte(b));
}

/// The complement of `rgb`: with `m` the sum of its largest and smallest
/// channel values, each channel `v` becomes `m - v`.
pub fn complementary_color(rgb: &RgbValues) -> (r: RgbValues)
    ensures
        r == complement(*rgb),
{
    let magnitude: u16 = (rgb.get(rgb.max()) as u16) + (rgb.get(rgb.min()) as u16);
    let red = (magnitude - (rgb.red as u16)) as u8;
    let green = (magnitude - (rgb.green as u16)) as u8;
    let blue = (magnitude - (rgb.blue as u16)) as u8;
    RgbValues { red, green, blue }
}

/// The colour of active text on `primary`.
pub fn active_text_color(primary: &RgbValues) -> (r: RgbValues)
    ensures
        r == active_text(*primary),
{
    if primary.red > 128 && primary.green > 128 && primary.blue > 128 {
        RgbValues { red: 0, green: 0, blue: 0 }
    } else {
        RgbValues { red: 255, green: 255, blue: 255 }
    }
}

/// The colour of normal text beside active text of colour `active`.
pub fn normal_text_color(active: &RgbValues) -> (r: RgbValues)
    ensures
        r == normal_text(*active),
{
    if active.red == 0 && active.green == 0 && active.blue == 0 {
        RgbValues { red: 60, green: 60, blue: 60 }
    } else {
        RgbValues { red: 195, green: 195, blue: 195 }
    }
}

/// A complement has the same largest and the same smallest channel value as
/// the original colour.
pub proof fn lemma_complement_keeps_extremes(c: RgbValues)
    ensures
        max_value(complement(c)) == max_value(c),
        min_value(complement(c)) == min_value(c),
{
}

/// Taking the complement twice gives back the original colour.
pub proof fn lemma_complement_involution(c: RgbValues)
    ensures
        complement(complement(c)) == c,
{
    lemma_complement_keeps_extremes(c);
}

} // verus!
