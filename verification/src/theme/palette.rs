//! Pure palette selection.

use vstd::prelude::*;

verus! {

/// A deterministic light or dark rendering palette.
#[derive(Clone, Copy, Debug, PartialEq, Eq)]
pub enum Palette {
    /// Light foregrounds intended for a dark terminal background.
    Dark,
    /// Dark foregrounds intended for a light terminal background.
    Light,
}

/// Perceived luminance of a colour, scaled by 1000:
/// `299 * red + 587 * green + 114 * blue`.
pub open spec fn scaled_luminance(red: u8, green: u8, blue: u8) -> int {
    299 * red + 587 * green + 114 * blue
}

/// A background is light when its luminance `0.299 r + 0.587 g + 0.114 b`
/// exceeds 128, i.e. when the scaled luminance exceeds 128000.
pub open spec fn spec_palette_for(red: u8, green: u8, blue: u8) -> Palette {
    if scaled_luminance(red, green, blue) > 128000 {
        Palette::Light
    } else {
        Palette::Dark
    }
}

impl Palette {
    /// Select a palette from an observed RGB background: light backgrounds
    /// get the light palette, dark ones the dark palette.
    pub fn from_rgb(red: u8, green: u8, blue: u8) -> (p: Self)
        ensures
            p == spec_palette_for(red, green, blue),
            (p == Palette::Light) <==> (299 * red + 587 * green + 114 * blue > 128000),
    {
        let luminance: u32 = 299 * (red as u32) + 587 * (green as u32) + 114 * (blue as u32);
        if luminance > 128000 {
            Palette::Light
        } else {
            Palette::Dark
        }
    }

    /// Whether this palette targets a light background.
    pub fn is_light(self) -> (b: bool)
        ensures
            b == (self == Palette::Light),
    {
        match self {
            Palette::Light => true,
            Palette::Dark => false,
        }
    }
}

impl Default for Palette {
    /// The dark palette, used when nothing was detected or chosen.
    fn default() -> (p: Self)
        ensures
            p == Palette::Dark,
    {
        Palette::Dark
    }
}

/// Law: the palette is light exactly when `299 * red + 587 * green + 114 * blue`
/// exceeds 128000, with each channel weighted by its own coefficient. Hence a
/// background of pure blue or pure red is never light, the brightest pure green
/// is, and raising any one channel never turns a light background dark.
pub proof fn law_palette_channel_weights(red: u8, green: u8, blue: u8, more: u8)
    ensures
        (spec_palette_for(red, green, blue) == Palette::Light) <==> (299 * red + 587 * green
            + 114 * blue > 128000),
        spec_palette_for(0, 0, blue) == Palette::Dark,
        spec_palette_for(red, 0, 0) == Palette::Dark,
        spec_palette_for(0, 255, 0) == Palette::Light,
        red <= more && spec_palette_for(red, green, blue) == Palette::Light ==> spec_palette_for(
            more,
            green,
            blue,
        ) == Palette::Light,
        green <= more && spec_palette_for(red, green, blue) == Palette::Light ==> spec_palette_for(
            red,
            more,
            blue,
        ) == Palette::Light,
        blue <= more && spec_palette_for(red, green, blue) == Palette::Light ==> spec_palette_for(
            red,
            green,
            more,
        ) == Palette::Light,
{
}

} // verus!
