use vstd::prelude::*;

verus! {

/// Channels of colors handed to the engines are byte-valued: 0 through 255.
pub const CHANNEL_MAX: u32 = 255;

/// Fixed-point scale. Centroid channels carry `SCALE` steps per raw channel
/// unit, so a centroid channel value `v` stands for the fraction `v / SCALE`.
pub const SCALE: u32 = 256;

/// Largest channel value the distance computations accept; a byte-valued
/// channel scaled by `SCALE` stays below this bound.
pub const COORD_MAX: u32 = 65535;

/// Cap on the number of points a single run accepts. Together with
/// `CHANNEL_MAX` it keeps every per-cluster channel sum inside `u64`.
pub const MAX_POINTS: usize = 0x100_0000;

/// A color with three byte-valued channels (red, green, blue).
#[derive(Clone, Copy, Debug, PartialEq, Eq, Structural)]
pub struct Color3 {
    pub r: u32,
    pub g: u32,
    pub b: u32,
}

/// A color vector with four channels; `a` carries the fourth channel
/// (alpha for image data, or zero where only three channels exist).
///
/// The same shape serves two roles: raw colors (channels in whole units)
/// and centroids (channels in `1 / SCALE` fixed-point units).
#[derive(Clone, Copy, Debug, PartialEq, Eq, Structural)]
pub struct Color4 {
    pub r: u32,
    pub g: u32,
    pub b: u32,
    pub a: u32,
}

impl Color3 {
    /// Every channel is at most `m`.
    pub open spec fn in_range(self, m: int) -> bool {
        self.r <= m && self.g <= m && self.b <= m
    }

    /// The same color as a four-channel vector with a zero fourth channel.
    pub open spec fn spec_to4(self) -> Color4 {
        Color4 { r: self.r, g: self.g, b: self.b, a: 0 }
    }

    pub fn new(r: u32, g: u32, b: u32) -> (c: Color3)
        ensures
            c == (Color3 { r, g, b }),
    {
        Color3 { r, g, b }
    }

    pub fn to4(self) -> (c: Color4)
        ensures
            c == self.spec_to4(),
    {
        Color4 { r: self.r, g: self.g, b: self.b, a: 0 }
    }
}

impl Color4 {
    /// Every channel is at most `m`.
    pub open spec fn in_range(self, m: int) -> bool {
        self.r <= m && self.g <= m && self.b <= m && self.a <= m
    }

    /// The color lifted into fixed-point units: every channel times `SCALE`.
    pub open spec fn spec_scaled(self) -> Color4 {
        Color4 {
            r: (self.r * SCALE) as u32,
            g: (self.g * SCALE) as u32,
            b: (self.b * SCALE) as u32,
            a: (self.a * SCALE) as u32,
        }
    }

    /// The first three channels, with each fixed-point channel rounded
    /// down to a whole raw unit.
    pub open spec fn spec_floor3(self) -> Color3 {
        Color3 { r: (self.r / SCALE) as u32, g: (self.g / SCALE) as u32, b: (self.b / SCALE) as u32 }
    }

    pub fn new(r: u32, g: u32, b: u32, a: u32) -> (c: Color4)
        ensures
            c == (Color4 { r, g, b, a }),
    {
        Color4 { r, g, b, a }
    }

    pub fn scaled(self) -> (c: Color4)
        requires
            self.in_range(CHANNEL_MAX as int),
        ensures
            c == self.spec_scaled(),
            c.in_range(COORD_MAX as int),
    {
        Color4 { r: self.r * SCALE, g: self.g * SCALE, b: self.b * SCALE, a: self.a * SCALE }
    }

    pub fn floor3(self) -> (c: Color3)
        ensures
            c == self.spec_floor3(),
    {
        Color3 { r: self.r / SCALE, g: self.g / SCALE, b: self.b / SCALE }
    }

    pub fn to3(self) -> (c: Color3)
        ensures
            c == (Color3 { r: self.r, g: self.g, b: self.b }),
    {
        Color3 { r: self.r, g: self.g, b: self.b }
    }
}

/// Every color of the sequence has all channels at most `m`.
pub open spec fn all_in_range(data: Seq<Color4>, m: int) -> bool {
    forall|i: int| 0 <= i < data.len() ==> #[trigger] data[i].in_range(m)
}

/// The sequence scaled pointwise into fixed-point units.
pub open spec fn spec_scaled_seq(data: Seq<Color4>) -> Seq<Color4> {
    Seq::new(data.len(), |i: int| data[i].spec_scaled())
}

/// A three-channel sequence lifted pointwise into four channels.
pub open spec fn spec_to4_seq(data: Seq<Color3>) -> Seq<Color4> {
    Seq::new(data.len(), |i: int| data[i].spec_to4())
}

} // verus!
