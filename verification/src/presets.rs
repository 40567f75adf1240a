//! Colour presets for the control panel's palette menu.

use vstd::prelude::*;
use vstd::string::StringExecFns;

verus! {

/// The six starting palette presets, by name; each value is a triple of
/// per-channel multipliers.
pub fn default_color_presets() -> (presets: Vec<(String, (u8, u8, u8))>)
    ensures
        presets@.len() == 6,
        presets@[0].0@ == "pink"@ && presets@[0].1 == (8u8, 2u8, 6u8),
        presets@[1].0@ == "blue"@ && presets@[1].1 == (2u8, 4u8, 8u8),
        presets@[2].0@ == "green"@ && presets@[2].1 == (2u8, 8u8, 4u8),
        presets@[3].0@ == "salmon"@ && presets@[3].1 == (8u8, 4u8, 4u8),
        presets@[4].0@ == "purple"@ && presets@[4].1 == (5u8, 2u8, 11u8),
        presets@[5].0@ == "yellow"@ && presets@[5].1 == (9u8, 6u8, 1u8),
{
    let mut presets: Vec<(String, (u8, u8, u8))> = Vec::new();
    presets.push((String::from_str("pink"), (8, 2, 6)));
    presets.push((String::from_str("blue"), (2, 4, 8)));
    presets.push((String::from_str("green"), (2, 8, 4)));
    presets.push((String::from_str("salmon"), (8, 4, 4)));
    presets.push((String::from_str("purple"), (5, 2, 11)));
    presets.push((String::from_str("yellow"), (9, 6, 1)));
    presets
}

/// The palette colour drawn from three random bytes: each channel keeps
/// its low four bits, so it stays within the palette slider's range.
pub fn random_palette_color(r: u8, g: u8, b: u8) -> (c: (u8, u8, u8))
    ensures
        c.0 == r & 15 && c.1 == g & 15 && c.2 == b & 15,
        c.0 <= 15 && c.1 <= 15 && c.2 <= 15,
{
    proof {
        assert(r & 15 <= 15 && g & 15 <= 15 && b & 15 <= 15) by (bit_vector);
    }
    (r & 15, g & 15, b & 15)
}

} // verus!
