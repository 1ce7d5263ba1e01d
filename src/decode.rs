//! The whole document: header, global sections, layers and composite.

use vstd::prelude::*;
use crate::bytes::be_u32;
use crate::composite::composite_spec;
use crate::cursor::{fits, PsdParser};
use crate::header::{header_spec, header_wf};
use crate::layers::RecordView;
use crate::model::{ColorMode, Psd, PsdError, PsdHeader, PsdLayer};
use crate::section::{layer_section, layers_match};

verus! {

/// What a document decodes to, before it is laid out in a `Psd`.
pub struct DocView {
    pub header: PsdHeader,
    pub palette: Seq<u8>,
    pub records: Seq<RecordView>,
    pub images: Seq<Seq<u8>>,
    pub composite: Seq<u8>,
}

/// The colour-mode data section at `p`: its bytes become the palette in
/// indexed mode and are skipped otherwise. Also gives the position after it.
pub open spec fn palette_spec(s: Seq<u8>, p: int, h: PsdHeader) -> Result<(Seq<u8>, int), PsdError> {
    if !fits(s, p, 4) || !fits(s, p + 4, be_u32(s, p)) {
        Err(PsdError::UnexpectedEndOfFile)
    } else if h.color_mode == ColorMode::Indexed {
        Ok((s.subrange(p + 4, p + 4 + be_u32(s, p)), p + 4 + be_u32(s, p)))
    } else {
        Ok((Seq::empty(), p + 4 + be_u32(s, p)))
    }
}

/// The position after the image-resources section at `p`, which is skipped whole.
pub open spec fn resources_end(s: Seq<u8>, p: int) -> Result<int, PsdError> {
    if !fits(s, p, 4) || !fits(s, p + 4, be_u32(s, p)) {
        Err(PsdError::UnexpectedEndOfFile)
    } else {
        Ok(p + 4 + be_u32(s, p))
    }
}

/// The document stored at `p`, or the error that decoding it meets first.
pub open spec fn document_spec(s: Seq<u8>, p: int) -> Result<DocView, PsdError> {
    match header_spec(s, p) {
        Err(e) => Err(e),
        Ok(h) => match palette_spec(s, p + 26, h) {
            Err(e) => Err(e),
            Ok((pal, q)) => match resources_end(s, q) {
                Err(e) => Err(e),
                Ok(q2) => match layer_section(s, q2, h, pal) {
                    Err(e) => Err(e),
                    Ok((recs, imgs, q3)) => match composite_spec(s, q3, h, pal) {
                        Err(e) => Err(e),
                        Ok(c) => Ok(
                            DocView { header: h, palette: pal, records: recs, images: imgs, composite: c },
                        ),
                    },
                },
            },
        },
    }
}

/// Whether a decoded document holds what `d` describes.
pub open spec fn psd_matches(psd: Psd, d: DocView) -> bool {
    &&& psd.width == d.header.width
    &&& psd.height == d.header.height
    &&& psd.color_mode == d.header.color_mode
    &&& psd.palette@ == d.palette
    &&& layers_match(psd.layers@, d.records, d.images)
    &&& psd.composite_rgba@ == d.composite
}

/// What decoding `s` from `p` gives: a document matching `document_spec`, or
/// the same error.
pub open spec fn decodes_as(s: Seq<u8>, p: int, r: Result<Psd, PsdError>) -> bool {
    match r {
        Ok(psd) => document_spec(s, p) is Ok && psd_matches(psd, document_spec(s, p)->Ok_0),
        Err(e) => document_spec(s, p) == Err::<DocView, PsdError>(e),
    }
}

/// Input of at least four bytes that does not start with the signature fails
/// with `InvalidSignature`, whatever the other bytes hold.
pub proof fn lemma_bad_signature(s: Seq<u8>)
    requires
        s.len() >= 4,
        s.subrange(0, 4) != crate::header::magic(),
    ensures
        document_spec(s, 0) == Err::<DocView, PsdError>(PsdError::InvalidSignature),
{
}

impl<'a> PsdParser<'a> {
    /// Decodes the whole document from the current position.
    #[verifier::rlimit(30)]
    pub fn parse(&mut self) -> (r: Result<Psd, PsdError>)
        ensures
            decodes_as(old(self).input(), old(self).position(), r),
    {
        let ghost s = self.input();
        let ghost p = self.position();
        let _start = self.pos();
        let header = self.parse_header()?;
        let cm_len = self.read_u32()?;
        if !self.has(cm_len as usize) {
            return Err(PsdError::UnexpectedEndOfFile);
        }
        let palette: Vec<u8> = if header.color_mode == ColorMode::Indexed {
            vstd::slice::slice_to_vec(self.read_bytes(cm_len as usize)?)
        } else {
            self.skip(cm_len as usize)?;
            Vec::new()
        };
        let res_len = self.read_u32()?;
        self.skip(res_len as usize)?;
        let layers = self.parse_layers(&header, palette.as_slice())?;
        let composite_rgba = self.parse_composite(&header, palette.as_slice())?;
        Ok(
            Psd {
                width: header.width,
                height: header.height,
                layers,
                composite_rgba,
                color_mode: header.color_mode,
                palette,
            },
        )
    }
}

impl Psd {
    /// Decodes a document from its bytes.
    pub fn from_bytes(data: &[u8]) -> (r: Result<Psd, PsdError>)
        ensures
            decodes_as(data@, 0, r),
    {
        let mut parser = PsdParser::new(data);
        parser.parse()
    }

    /// The document's colour model.
    pub fn color_mode(&self) -> (r: ColorMode)
        ensures
            r == self.color_mode,
    {
        self.color_mode
    }

    /// Canvas width in pixels.
    pub fn width(&self) -> (r: u32)
        ensures
            r == self.width,
    {
        self.width
    }

    /// Canvas height in pixels.
    pub fn height(&self) -> (r: u32)
        ensures
            r == self.height,
    {
        self.height
    }

    /// The layers, bottom of the stack first.
    pub fn layers(&self) -> (r: &[PsdLayer])
        ensures
            r@ == self.layers@,
    {
        self.layers.as_slice()
    }

    /// A copy of the composite image's RGBA bytes.
    pub fn rgba(&self) -> (r: Vec<u8>)
        ensures
            r@ == self.composite_rgba@,
    {
        let r = self.composite_rgba.clone();
        assert(r@ =~= self.composite_rgba@);
        r
    }
}

impl PsdLayer {
    /// Layer width in pixels.
    pub fn width(&self) -> (r: u32)
        ensures
            r == self.width,
    {
        self.width
    }

    /// Layer height in pixels.
    pub fn height(&self) -> (r: u32)
        ensures
            r == self.height,
    {
        self.height
    }

    /// The layer's name.
    pub fn name(&self) -> (r: &str)
        ensures
            r@ == self.name@,
    {
        self.name.as_str()
    }

    /// Top edge in canvas coordinates.
    pub fn layer_top(&self) -> (r: i32)
        ensures
            r == self.top,
    {
        self.top
    }

    /// Left edge in canvas coordinates.
    pub fn layer_left(&self) -> (r: i32)
        ensures
            r == self.left,
    {
        self.left
    }

    /// Whether the layer is shown.
    pub fn visible(&self) -> (r: bool)
        ensures
            r == self.visible,
    {
        self.visible
    }

    /// Layer opacity, 0 to 255.
    pub fn opacity(&self) -> (r: u8)
        ensures
            r == self.opacity,
    {
        self.opacity
    }

    /// The name of the layer's blend mode.
    pub fn blend_mode(&self) -> (r: &'static str)
        ensures
            r@ == crate::blend::blend_name(self.blend_mode),
    {
        self.blend_mode.name()
    }

    /// A copy of the layer's RGBA bytes.
    pub fn rgba(&self) -> (r: Vec<u8>)
        ensures
            r@ == self.rgba@,
    {
        let r = self.rgba.clone();
        assert(r@ =~= self.rgba@);
        r
    }

    /// What the layer stands for in the flat layer list.
    pub fn layer_type(&self) -> (r: crate::model::PsdLayerType)
        ensures
            r == self.layer_type,
    {
        self.layer_type
    }
}

} // verus!
