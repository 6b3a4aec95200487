//! Colors, palettes and the theme used to resolve indexed colors.

use vstd::prelude::*;

verus! {

/// A 24-bit color.
#[derive(Clone, Copy, Debug, PartialEq, Eq)]
pub struct Rgb {
    pub r: u8,
    pub g: u8,
    pub b: u8,
}

/// A cell color as reported by the terminal emulator: either a direct
/// 24-bit value or an index into the palette.
#[derive(Clone, Copy, Debug, PartialEq, Eq)]
pub enum CellColor {
    Rgb(Rgb),
    Indexed(u8),
}

/// The color theme: default foreground and background, plus the 16 base
/// palette entries. Indices 16..=231 form the 6x6x6 color cube and
/// 232..=255 the grayscale ramp, both computed from the index alone.
#[derive(Clone, Debug)]
pub struct Theme {
    pub foreground: Rgb,
    pub background: Rgb,
    pub palette: Vec<Rgb>,
}

/// Intensity of one channel of a color-cube entry: level 0 is off, the
/// remaining five levels start at 55 and step by 40.
pub open spec fn spec_cube_channel(n: u8) -> u8
    recommends
        n < 6,
{
    if n == 0 {
        0u8
    } else {
        (55 + 40 * n) as u8
    }
}

impl Theme {
    /// A theme is well formed when it carries exactly the 16 base entries.
    pub open spec fn wf(&self) -> bool {
        self.palette@.len() == 16
    }

    /// The color a palette index denotes under this theme.
    pub open spec fn spec_color(&self, idx: u8) -> Rgb {
        if idx < 16 {
            self.palette@[idx as int]
        } else if idx < 232 {
            let n = (idx - 16) as u8;
            Rgb {
                r: spec_cube_channel(n / 36),
                g: spec_cube_channel((n / 6) % 6),
                b: spec_cube_channel(n % 6),
            }
        } else {
            let v = (8 + 10 * (idx - 232)) as u8;
            Rgb { r: v, g: v, b: v }
        }
    }

    /// Looks a palette index up: base table, color cube or grayscale ramp.
    pub fn color(&self, idx: u8) -> (c: Rgb)
        requires
            self.wf(),
        ensures
            c == self.spec_color(idx),
    {
        if idx < 16 {
            self.palette[idx as usize]
        } else if idx < 232 {
            let n: u8 = idx - 16;
            Rgb {
                r: cube_channel(n / 36),
                g: cube_channel((n / 6) % 6),
                b: cube_channel(n % 6),
            }
        } else {
            let v: u8 = 8 + 10 * (idx - 232);
            Rgb { r: v, g: v, b: v }
        }
    }
}

/// One channel of a color-cube entry.
fn cube_channel(n: u8) -> (c: u8)
    requires
        n < 6,
    ensures
        c == spec_cube_channel(n),
{
    if n == 0 {
        0
    } else {
        55 + 40 * n
    }
}

/// What a cell color resolves to at paint time: indexed colors go through
/// the theme, direct values pass unchanged.
pub open spec fn spec_color_to_rgb(c: CellColor, theme: Theme) -> Rgb {
    match c {
        CellColor::Rgb(rgb) => rgb,
        CellColor::Indexed(idx) => theme.spec_color(idx),
    }
}

/// Resolves a cell color to a paintable 24-bit value.
pub fn color_to_rgb(c: &CellColor, theme: &Theme) -> (r: Rgb)
    requires
        theme.wf(),
    ensures
        r == spec_color_to_rgb(*c, *theme),
{
    match c {
        CellColor::Rgb(rgb) => *rgb,
        CellColor::Indexed(idx) => theme.color(*idx),
    }
}

} // verus!
