use vstd::prelude::*;

verus! {

/// An RGB colour with eight bits per channel.
#[derive(Clone, Copy, Debug, PartialEq, Eq, Structural)]
pub struct Color {
    pub red: u8,
    pub green: u8,
    pub blue: u8,
}

/// The sum of two channel values, held at 255.
pub open spec fn clamp_channel(sum: int) -> int {
    if sum > 255 {
        255
    } else {
        sum
    }
}

/// The packed value `0xRRGGBB` of three channels.
pub open spec fn pack_rgb(red: int, green: int, blue: int) -> int {
    red * 65536 + green * 256 + blue
}

fn add_channel(a: u8, b: u8) -> (r: u8)
    ensures
        r as int == clamp_channel(a as int + b as int),
{
    let sum: u16 = a as u16 + b as u16;
    if sum > 255 {
        255
    } else {
        sum as u8
    }
}

impl Color {
    /// The packed value `0xRRGGBB` of this colour.
    pub open spec fn packed(self) -> int {
        pack_rgb(self.red as int, self.green as int, self.blue as int)
    }

    /// The channel-wise sum of two colours, each channel held at 255.
    pub open spec fn sum(self, other: Color) -> Color {
        Color {
            red: clamp_channel(self.red as int + other.red as int) as u8,
            green: clamp_channel(self.green as int + other.green as int) as u8,
            blue: clamp_channel(self.blue as int + other.blue as int) as u8,
        }
    }

    pub fn new(red: u8, green: u8, blue: u8) -> (c: Color)
        ensures
            c.red == red,
            c.green == green,
            c.blue == blue,
    {
        Color { red, green, blue }
    }

    pub fn black() -> (c: Color)
        ensures
            c.red == 0,
            c.green == 0,
            c.blue == 0,
    {
        Color { red: 0, green: 0, blue: 0 }
    }

    /// Reads a colour from the low 24 bits of `hex`; the high byte is ignored.
    pub fn from_hex(hex: u32) -> (c: Color)
        ensures
            c.red as int == (hex as int / 65536) % 256,
            c.green as int == (hex as int / 256) % 256,
            c.blue as int == hex as int % 256,
            c.packed() == hex as int % 16777216,
    {
        let red: u8 = ((hex >> 16) & 0xFF) as u8;
        let green: u8 = ((hex >> 8) & 0xFF) as u8;
        let blue: u8 = (hex & 0xFF) as u8;
        assert((hex >> 16) & 0xFF == (hex / 65536) % 256) by (bit_vector);
        assert((hex >> 8) & 0xFF == (hex / 256) % 256) by (bit_vector);
        assert(hex & 0xFF == hex % 256) by (bit_vector);
        Color { red, green, blue }
    }

    /// Packs the colour as `0xRRGGBB`.
    pub fn to_hex(&self) -> (hex: u32)
        ensures
            hex as int == self.packed(),
            hex < 16777216,
    {
        let r: u32 = self.red as u32;
        let g: u32 = self.green as u32;
        let b: u32 = self.blue as u32;
        assert(r < 256 && g < 256 && b < 256 ==> ((r << 16) | (g << 8) | b) == r * 65536 + g * 256
            + b) by (bit_vector);
        (r << 16) | (g << 8) | b
    }

    /// Adds two colours channel by channel; a channel never wraps, it stops at 255.
    pub fn saturating_add(self, other: Color) -> (c: Color)
        ensures
            c == self.sum(other),
    {
        Color {
            red: add_channel(self.red, other.red),
            green: add_channel(self.green, other.green),
            blue: add_channel(self.blue, other.blue),
        }
    }
}

/// Packing a colour and reading it back gives the colour again.
pub proof fn lemma_hex_round_trip(c: Color)
    ensures
        (c.packed() / 65536) % 256 == c.red as int,
        (c.packed() / 256) % 256 == c.green as int,
        c.packed() % 256 == c.blue as int,
        0 <= c.packed() < 16777216,
{
}

/// Adding black changes nothing, the order of the two colours does not
/// matter, and no channel of a sum is below that channel of either part.
pub proof fn lemma_sum_laws(a: Color, b: Color)
    ensures
        a.sum(Color { red: 0, green: 0, blue: 0 }) == a,
        a.sum(b) == b.sum(a),
        a.sum(b).red >= a.red && a.sum(b).red >= b.red,
        a.sum(b).green >= a.green && a.sum(b).green >= b.green,
        a.sum(b).blue >= a.blue && a.sum(b).blue >= b.blue,
{
}

} // verus!
