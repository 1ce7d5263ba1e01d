//! Blend modes and the four-byte keys that store them.

use vstd::prelude::*;
use crate::info::tag_at;
use crate::model::BlendMode;

verus! {

/// The four-byte key that names each blend mode.
pub open spec fn blend_key(m: BlendMode) -> Seq<u8> {
    match m {
        BlendMode::Normal => seq![0x6eu8, 0x6fu8, 0x72u8, 0x6du8],
        BlendMode::Multiply => seq![0x6du8, 0x75u8, 0x6cu8, 0x20u8],
        BlendMode::Screen => seq![0x73u8, 0x63u8, 0x72u8, 0x6eu8],
        BlendMode::Overlay => seq![0x6fu8, 0x76u8, 0x65u8, 0x72u8],
        BlendMode::Darken => seq![0x64u8, 0x61u8, 0x72u8, 0x6bu8],
        BlendMode::Lighten => seq![0x6cu8, 0x69u8, 0x74u8, 0x65u8],
        BlendMode::ColorDodge => seq![0x69u8, 0x64u8, 0x69u8, 0x76u8],
        BlendMode::ColorBurn => seq![0x69u8, 0x62u8, 0x72u8, 0x6eu8],
        BlendMode::HardLight => seq![0x68u8, 0x4cu8, 0x69u8, 0x74u8],
        BlendMode::SoftLight => seq![0x73u8, 0x4cu8, 0x69u8, 0x74u8],
        BlendMode::Difference => seq![0x64u8, 0x69u8, 0x66u8, 0x66u8],
        BlendMode::Exclusion => seq![0x73u8, 0x6du8, 0x75u8, 0x64u8],
        BlendMode::Hue => seq![0x68u8, 0x75u8, 0x65u8, 0x20u8],
        BlendMode::Saturation => seq![0x73u8, 0x61u8, 0x74u8, 0x20u8],
        BlendMode::Color => seq![0x63u8, 0x6fu8, 0x6cu8, 0x72u8],
        BlendMode::Luminosity => seq![0x6cu8, 0x75u8, 0x6du8, 0x20u8],
    }
}

/// The blend mode whose key stands at `p`; unknown keys mean `Normal`.
pub open spec fn blend_at(s: Seq<u8>, p: int) -> BlendMode {
    if tag_at(s, p, 0x6d, 0x75, 0x6c, 0x20) {
        BlendMode::Multiply
    } else if tag_at(s, p, 0x73, 0x63, 0x72, 0x6e) {
        BlendMode::Screen
    } else if tag_at(s, p, 0x6f, 0x76, 0x65, 0x72) {
        BlendMode::Overlay
    } else if tag_at(s, p, 0x64, 0x61, 0x72, 0x6b) {
        BlendMode::Darken
    } else if tag_at(s, p, 0x6c, 0x69, 0x74, 0x65) {
        BlendMode::Lighten
    } else if tag_at(s, p, 0x69, 0x64, 0x69, 0x76) {
        BlendMode::ColorDodge
    } else if tag_at(s, p, 0x69, 0x62, 0x72, 0x6e) {
        BlendMode::ColorBurn
    } else if tag_at(s, p, 0x68, 0x4c, 0x69, 0x74) {
        BlendMode::HardLight
    } else if tag_at(s, p, 0x73, 0x4c, 0x69, 0x74) {
        BlendMode::SoftLight
    } else if tag_at(s, p, 0x64, 0x69, 0x66, 0x66) {
        BlendMode::Difference
    } else if tag_at(s, p, 0x73, 0x6d, 0x75, 0x64) {
        BlendMode::Exclusion
    } else if tag_at(s, p, 0x68, 0x75, 0x65, 0x20) {
        BlendMode::Hue
    } else if tag_at(s, p, 0x73, 0x61, 0x74, 0x20) {
        BlendMode::Saturation
    } else if tag_at(s, p, 0x63, 0x6f, 0x6c, 0x72) {
        BlendMode::Color
    } else if tag_at(s, p, 0x6c, 0x75, 0x6d, 0x20) {
        BlendMode::Luminosity
    } else {
        BlendMode::Normal
    }
}

pub(crate) fn blend_of(k: &[u8]) -> (r: BlendMode)
    requires
        k@.len() == 4,
    ensures
        r == blend_at(k@, 0),
{
    if k[0] == 0x6d && k[1] == 0x75 && k[2] == 0x6c && k[3] == 0x20 {
        BlendMode::Multiply
    } else if k[0] == 0x73 && k[1] == 0x63 && k[2] == 0x72 && k[3] == 0x6e {
        BlendMode::Screen
    } else if k[0] == 0x6f && k[1] == 0x76 && k[2] == 0x65 && k[3] == 0x72 {
        BlendMode::Overlay
    } else if k[0] == 0x64 && k[1] == 0x61 && k[2] == 0x72 && k[3] == 0x6b {
        BlendMode::Darken
    } else if k[0] == 0x6c && k[1] == 0x69 && k[2] == 0x74 && k[3] == 0x65 {
        BlendMode::Lighten
    } else if k[0] == 0x69 && k[1] == 0x64 && k[2] == 0x69 && k[3] == 0x76 {
        BlendMode::ColorDodge
    } else if k[0] == 0x69 && k[1] == 0x62 && k[2] == 0x72 && k[3] == 0x6e {
        BlendMode::ColorBurn
    } else if k[0] == 0x68 && k[1] == 0x4c && k[2] == 0x69 && k[3] == 0x74 {
        BlendMode::HardLight
    } else if k[0] == 0x73 && k[1] == 0x4c && k[2] == 0x69 && k[3] == 0x74 {
        BlendMode::SoftLight
    } else if k[0] == 0x64 && k[1] == 0x69 && k[2] == 0x66 && k[3] == 0x66 {
        BlendMode::Difference
    } else if k[0] == 0x73 && k[1] == 0x6d && k[2] == 0x75 && k[3] == 0x64 {
        BlendMode::Exclusion
    } else if k[0] == 0x68 && k[1] == 0x75 && k[2] == 0x65 && k[3] == 0x20 {
        BlendMode::Hue
    } else if k[0] == 0x73 && k[1] == 0x61 && k[2] == 0x74 && k[3] == 0x20 {
        BlendMode::Saturation
    } else if k[0] == 0x63 && k[1] == 0x6f && k[2] == 0x6c && k[3] == 0x72 {
        BlendMode::Color
    } else if k[0] == 0x6c && k[1] == 0x75 && k[2] == 0x6d && k[3] == 0x20 {
        BlendMode::Luminosity
    } else {
        BlendMode::Normal
    }
}

/// The key of a blend mode.
pub fn blend_key_bytes(m: BlendMode) -> (r: [u8; 4])
    ensures
        r@ == blend_key(m),
{
    let r = match m {
        BlendMode::Normal => [0x6e, 0x6f, 0x72, 0x6d],
        BlendMode::Multiply => [0x6d, 0x75, 0x6c, 0x20],
        BlendMode::Screen => [0x73, 0x63, 0x72, 0x6e],
        BlendMode::Overlay => [0x6f, 0x76, 0x65, 0x72],
        BlendMode::Darken => [0x64, 0x61, 0x72, 0x6b],
        BlendMode::Lighten => [0x6c, 0x69, 0x74, 0x65],
        BlendMode::ColorDodge => [0x69, 0x64, 0x69, 0x76],
        BlendMode::ColorBurn => [0x69, 0x62, 0x72, 0x6e],
        BlendMode::HardLight => [0x68, 0x4c, 0x69, 0x74],
        BlendMode::SoftLight => [0x73, 0x4c, 0x69, 0x74],
        BlendMode::Difference => [0x64, 0x69, 0x66, 0x66],
        BlendMode::Exclusion => [0x73, 0x6d, 0x75, 0x64],
        BlendMode::Hue => [0x68, 0x75, 0x65, 0x20],
        BlendMode::Saturation => [0x73, 0x61, 0x74, 0x20],
        BlendMode::Color => [0x63, 0x6f, 0x6c, 0x72],
        BlendMode::Luminosity => [0x6c, 0x75, 0x6d, 0x20],
    };
    assert(r@ =~= blend_key(m));
    r
}
/// The name of each blend mode.
pub open spec fn blend_name(m: BlendMode) -> Seq<char> {
    match m {
        BlendMode::Normal => "Normal"@,
        BlendMode::Multiply => "Multiply"@,
        BlendMode::Screen => "Screen"@,
        BlendMode::Overlay => "Overlay"@,
        BlendMode::Darken => "Darken"@,
        BlendMode::Lighten => "Lighten"@,
        BlendMode::ColorDodge => "ColorDodge"@,
        BlendMode::ColorBurn => "ColorBurn"@,
        BlendMode::HardLight => "HardLight"@,
        BlendMode::SoftLight => "SoftLight"@,
        BlendMode::Difference => "Difference"@,
        BlendMode::Exclusion => "Exclusion"@,
        BlendMode::Hue => "Hue"@,
        BlendMode::Saturation => "Saturation"@,
        BlendMode::Color => "Color"@,
        BlendMode::Luminosity => "Luminosity"@,
    }
}

impl BlendMode {
    /// The mode's name.
    pub fn name(&self) -> (r: &'static str)
        ensures
            r@ == blend_name(*self),
    {
        match self {
            BlendMode::Normal => "Normal",
            BlendMode::Multiply => "Multiply",
            BlendMode::Screen => "Screen",
            BlendMode::Overlay => "Overlay",
            BlendMode::Darken => "Darken",
            BlendMode::Lighten => "Lighten",
            BlendMode::ColorDodge => "ColorDodge",
            BlendMode::ColorBurn => "ColorBurn",
            BlendMode::HardLight => "HardLight",
            BlendMode::SoftLight => "SoftLight",
            BlendMode::Difference => "Difference",
            BlendMode::Exclusion => "Exclusion",
            BlendMode::Hue => "Hue",
            BlendMode::Saturation => "Saturation",
            BlendMode::Color => "Color",
            BlendMode::Luminosity => "Luminosity",
        }
    }
}

} // verus!
