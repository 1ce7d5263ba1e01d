//! The decoded document and its parts.

use vstd::prelude::*;

verus! {

/// Why a document could not be decoded.
#[derive(Debug, Clone, Copy, PartialEq, Eq, Structural)]
pub enum PsdError {
    InvalidSignature,
    UnsupportedVersion,
    UnsupportedColorMode,
    UnsupportedDepth,
    UnexpectedEndOfFile,
    InvalidLayerData,
    DecompressionError,
    IoError,
    ZipError,
}

/// The colour model of the whole document.
#[derive(Debug, Clone, Copy, PartialEq, Eq, Structural)]
pub enum ColorMode {
    Bitmap,
    Grayscale,
    Indexed,
    Rgb,
    Cmyk,
    Multichannel,
    Duotone,
    Lab,
}

/// The numeric code of each colour model, and which codes name one.
pub open spec fn color_mode_of(code: int) -> Option<ColorMode> {
    if code == 0 {
        Some(ColorMode::Bitmap)
    } else if code == 1 {
        Some(ColorMode::Grayscale)
    } else if code == 2 {
        Some(ColorMode::Indexed)
    } else if code == 3 {
        Some(ColorMode::Rgb)
    } else if code == 4 {
        Some(ColorMode::Cmyk)
    } else if code == 7 {
        Some(ColorMode::Multichannel)
    } else if code == 8 {
        Some(ColorMode::Duotone)
    } else if code == 9 {
        Some(ColorMode::Lab)
    } else {
        None
    }
}

impl ColorMode {
    /// Maps a stored colour-mode code to its model; unknown codes give `None`.
    pub fn from_u16(value: u16) -> (r: Option<ColorMode>)
        ensures
            r == color_mode_of(value as int),
    {
        match value {
            0 => Some(ColorMode::Bitmap),
            1 => Some(ColorMode::Grayscale),
            2 => Some(ColorMode::Indexed),
            3 => Some(ColorMode::Rgb),
            4 => Some(ColorMode::Cmyk),
            7 => Some(ColorMode::Multichannel),
            8 => Some(ColorMode::Duotone),
            9 => Some(ColorMode::Lab),
            _ => None,
        }
    }
}

/// What a layer record stands for in the flat, sentinel-delimited layer list.
#[derive(Debug, Clone, Copy, PartialEq, Eq, Structural)]
pub enum PsdLayerType {
    Normal,
    FolderOpen,
    FolderClosed,
    SectionDivider,
}

/// The pixel-compositing function of a layer.
#[derive(Debug, Clone, Copy, PartialEq, Eq, Structural)]
pub enum BlendMode {
    Normal,
    Multiply,
    Screen,
    Overlay,
    Darken,
    Lighten,
    ColorDodge,
    ColorBurn,
    HardLight,
    SoftLight,
    Difference,
    Exclusion,
    Hue,
    Saturation,
    Color,
    Luminosity,
}

/// Placement and fill of a layer's user mask, in canvas coordinates.
#[derive(Debug, Clone, Copy, PartialEq, Eq, Structural)]
pub struct PsdMaskInfo {
    pub top: i32,
    pub left: i32,
    pub bottom: i32,
    pub right: i32,
    pub default_color: u8,
    pub flags: u8,
}

/// One vertex of a vector mask outline. Each coordinate is the canvas position
/// multiplied by 2^24: the stored 8.24 fixed-point fraction times the canvas
/// width (for `x`) or height (for `y`).
#[derive(Debug, Clone, Copy, PartialEq, Eq, Structural)]
pub struct PathPoint {
    pub x: i64,
    pub y: i64,
}

/// One decoded layer. `rgba` holds `width * height` straight-alpha pixels.
pub struct PsdLayer {
    pub name: String,
    pub top: i32,
    pub left: i32,
    pub bottom: i32,
    pub right: i32,
    pub width: u32,
    pub height: u32,
    pub opacity: u8,
    pub visible: bool,
    pub blend_mode: BlendMode,
    pub rgba: Vec<u8>,
    pub layer_type: PsdLayerType,
    pub clipping: bool,
    pub mask_info: Option<PsdMaskInfo>,
    pub text_data: Option<String>,
    pub vector_mask: Option<Vec<PathPoint>>,
}

/// A decoded document: layers in storage order (bottom of the stack first)
/// and the flattened composite preview.
pub struct Psd {
    pub width: u32,
    pub height: u32,
    pub layers: Vec<PsdLayer>,
    pub composite_rgba: Vec<u8>,
    pub color_mode: ColorMode,
    pub palette: Vec<u8>,
}

/// The fixed-size file header.
#[derive(Debug, Clone, Copy, PartialEq, Eq, Structural)]
pub struct PsdHeader {
    pub version: u16,
    pub channels: u16,
    pub height: u32,
    pub width: u32,
    pub depth: u16,
    pub color_mode: ColorMode,
}

} // verus!
