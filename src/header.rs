//! The fixed 26-byte file header.

use vstd::prelude::*;
use crate::bytes::{be_u16, be_u32};
use crate::cursor::{fits, PsdParser};
use crate::model::{color_mode_of, ColorMode, PsdError, PsdHeader};

verus! {

/// The four signature bytes, "8BPS".
pub open spec fn magic() -> Seq<u8> {
    seq![0x38u8, 0x42u8, 0x50u8, 0x53u8]
}

/// Whether `s` holds the signature at `p`.
pub open spec fn has_magic(s: Seq<u8>, p: int) -> bool {
    fits(s, p, 4) && s.subrange(p, p + 4) == magic()
}

/// The header stored at `p`, or the error that reading it meets first.
pub open spec fn header_spec(s: Seq<u8>, p: int) -> Result<PsdHeader, PsdError> {
    if !fits(s, p, 4) {
        Err(PsdError::UnexpectedEndOfFile)
    } else if !has_magic(s, p) {
        Err(PsdError::InvalidSignature)
    } else if !fits(s, p, 6) {
        Err(PsdError::UnexpectedEndOfFile)
    } else if be_u16(s, p + 4) != 1 && be_u16(s, p + 4) != 2 {
        Err(PsdError::UnsupportedVersion)
    } else if !fits(s, p, 26) {
        Err(PsdError::UnexpectedEndOfFile)
    } else if color_mode_of(be_u16(s, p + 24)) is None {
        Err(PsdError::UnsupportedColorMode)
    } else if be_u16(s, p + 22) != 8 && be_u16(s, p + 22) != 16 {
        Err(PsdError::UnsupportedDepth)
    } else {
        Ok(
            PsdHeader {
                version: be_u16(s, p + 4) as u16,
                channels: be_u16(s, p + 12) as u16,
                height: be_u32(s, p + 14) as u32,
                width: be_u32(s, p + 18) as u32,
                depth: be_u16(s, p + 22) as u16,
                color_mode: color_mode_of(be_u16(s, p + 24))->Some_0,
            },
        )
    }
}

/// What every decoded header satisfies.
pub open spec fn header_wf(h: PsdHeader) -> bool {
    &&& (h.version == 1 || h.version == 2)
    &&& (h.depth == 8 || h.depth == 16)
}

impl<'a> PsdParser<'a> {
    /// Reads and validates the header at the current position.
    pub(crate) fn parse_header(&mut self) -> (r: Result<PsdHeader, PsdError>)
        ensures
            final(self).input() == old(self).input(),
            r == header_spec(old(self).input(), old(self).position()),
            r is Ok ==> final(self).position() == old(self).position() + 26,
            r is Ok ==> header_wf(r->Ok_0),
    {
        let ghost s = self.input();
        let ghost p = self.position();
        let _start = self.pos();
        let sig = self.read_bytes(4)?;
        if !(sig[0] == 0x38 && sig[1] == 0x42 && sig[2] == 0x50 && sig[3] == 0x53) {
            assert(!has_magic(s, p)) by {
                if has_magic(s, p) {
                    assert(s.subrange(p, p + 4)[0] == magic()[0]);
                    assert(s.subrange(p, p + 4)[1] == magic()[1]);
                    assert(s.subrange(p, p + 4)[2] == magic()[2]);
                    assert(s.subrange(p, p + 4)[3] == magic()[3]);
                }
            }
            return Err(PsdError::InvalidSignature);
        }
        assert(sig@ =~= magic());
        let version = self.read_u16()?;
        if version != 1 && version != 2 {
            return Err(PsdError::UnsupportedVersion);
        }
        if !self.has(20) {
            return Err(PsdError::UnexpectedEndOfFile);
        }
        self.skip(6)?;
        let channels = self.read_u16()?;
        let height = self.read_u32()?;
        let width = self.read_u32()?;
        let depth = self.read_u16()?;
        let color_mode_raw = self.read_u16()?;
        let color_mode = match ColorMode::from_u16(color_mode_raw) {
            Some(m) => m,
            None => {
                return Err(PsdError::UnsupportedColorMode);
            },
        };
        if depth != 8 && depth != 16 {
            return Err(PsdError::UnsupportedDepth);
        }
        Ok(PsdHeader { version, channels, height, width, depth, color_mode })
    }
}

} // verus!
