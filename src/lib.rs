//! A decoder and a reduced encoder for the layered PSD image container.
//!
//! `Psd::from_bytes` decodes a fully buffered file into its header fields, an
//! ordered list of layers (bottom of the stack first, each with straight-alpha
//! RGBA pixels) and the flattened composite. Its contract is `document_spec`
//! in `decode`, built from one spec function per stage: `header`, the layer
//! records (`layers`, `info`), the channel planes (`channel`, `rle`), colour
//! conversion (`color`, `lab`), mask alignment (`mask`, `pixels`), the layer
//! section (`section`) and the composite (`composite`). `Psd::to_bytes`
//! writes a minimal raw RGB document (`writer`); `roundtrip` proves that the
//! decoder reads such a document back.

use vstd::prelude::*;

pub mod blend;
pub mod bytes;
pub mod channel;
pub mod color;
pub mod composite;
pub mod cursor;
pub mod decode;
pub mod header;
pub mod info;
pub mod lab;
pub mod layers;
pub mod mask;
pub mod model;
pub mod pixels;
pub mod rle;
pub mod roundtrip;
pub mod section;
pub mod text;
pub mod writer;

pub use channel::{delta_encode_row, undo_delta};
pub use color::{cmyk_to_rgb, indexed_to_rgb};
pub use lab::lab_to_rgb;
pub use cursor::PsdParser;
pub use model::{BlendMode, ColorMode, PathPoint, Psd, PsdError, PsdHeader, PsdLayer, PsdLayerType, PsdMaskInfo};
pub use rle::decode_rle;
pub use writer::PsdWriter;
