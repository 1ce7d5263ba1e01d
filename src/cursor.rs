//! A sequential big-endian reader over a fully buffered input.
//!
//! The position only moves forward through reads and skips; `seek` jumps to an
//! end offset that an enclosing section recorded. The position may pass the end
//! of the input, after which every read fails.

use vstd::prelude::*;
use vstd::slice::slice_subrange;
use crate::bytes::{be_u16, be_u32, be_u64, be_i16, be_i32};
use crate::model::PsdError;

verus! {

/// Whether `n` bytes can be read at position `p` of `s`.
pub open spec fn fits(s: Seq<u8>, p: int, n: int) -> bool {
    p + n <= s.len()
}

/// Byte reader that carries the decoder's position.
pub struct PsdParser<'a> {
    data: &'a [u8],
    cursor: usize,
}

impl<'a> PsdParser<'a> {
    /// The input that the reader walks.
    pub closed spec fn input(&self) -> Seq<u8> {
        self.data@
    }

    /// The reader's position in its input.
    pub closed spec fn position(&self) -> int {
        self.cursor as int
    }

    /// A reader at the start of `data`.
    pub fn new(data: &'a [u8]) -> (r: Self)
        ensures
            r.input() == data@,
            r.position() == 0,
    {
        PsdParser { data, cursor: 0 }
    }

    pub(crate) fn pos(&self) -> (r: usize)
        ensures
            r as int == self.position(),
    {
        self.cursor
    }

    pub(crate) fn len(&self) -> (r: usize)
        ensures
            r as int == self.input().len(),
    {
        self.data.len()
    }

    /// Moves to `p`, which an enclosing section recorded as its end.
    pub(crate) fn seek(&mut self, p: usize)
        ensures
            final(self).input() == old(self).input(),
            final(self).position() == p,
    {
        self.cursor = p;
    }

    /// Whether `n` more bytes are available.
    pub(crate) fn has(&self, n: usize) -> (r: bool)
        ensures
            r == fits(self.input(), self.position(), n as int),
    {
        self.cursor <= self.data.len() && n <= self.data.len() - self.cursor
    }

    /// The 16-bit value at `at`, without moving.
    pub(crate) fn u16_at(&self, at: usize) -> (r: u16)
        requires
            fits(self.input(), at as int, 2),
        ensures
            r as int == be_u16(self.input(), at as int),
    {
        self.data[at] as u16 * 256 + self.data[at + 1] as u16
    }

    /// Whether `n` more bytes are available, for a count that may not fit in `usize`.
    pub(crate) fn has_wide(&self, n: u128) -> (r: bool)
        ensures
            r == fits(self.input(), self.position(), n as int),
    {
        self.cursor <= self.data.len() && n <= (self.data.len() - self.cursor) as u128
    }

    pub(crate) fn read_u8(&mut self) -> (r: Result<u8, PsdError>)
        ensures
            final(self).input() == old(self).input(),
            match r {
                Ok(v) => fits(old(self).input(), old(self).position(), 1)
                    && v == old(self).input()[old(self).position()]
                    && final(self).position() == old(self).position() + 1,
                Err(e) => !fits(old(self).input(), old(self).position(), 1)
                    && e == PsdError::UnexpectedEndOfFile
                    && final(self).position() == old(self).position(),
            },
    {
        if !self.has(1) {
            return Err(PsdError::UnexpectedEndOfFile);
        }
        let v = self.data[self.cursor];
        self.cursor = self.cursor + 1;
        Ok(v)
    }

    pub(crate) fn read_u16(&mut self) -> (r: Result<u16, PsdError>)
        ensures
            final(self).input() == old(self).input(),
            match r {
                Ok(v) => fits(old(self).input(), old(self).position(), 2)
                    && v as int == be_u16(old(self).input(), old(self).position())
                    && final(self).position() == old(self).position() + 2,
                Err(e) => !fits(old(self).input(), old(self).position(), 2)
                    && e == PsdError::UnexpectedEndOfFile
                    && final(self).position() == old(self).position(),
            },
    {
        if !self.has(2) {
            return Err(PsdError::UnexpectedEndOfFile);
        }
        let c = self.cursor;
        let v = self.data[c] as u16 * 256 + self.data[c + 1] as u16;
        self.cursor = c + 2;
        Ok(v)
    }

    pub(crate) fn read_i16(&mut self) -> (r: Result<i16, PsdError>)
        ensures
            final(self).input() == old(self).input(),
            match r {
                Ok(v) => fits(old(self).input(), old(self).position(), 2)
                    && v as int == be_i16(old(self).input(), old(self).position())
                    && final(self).position() == old(self).position() + 2,
                Err(e) => !fits(old(self).input(), old(self).position(), 2)
                    && e == PsdError::UnexpectedEndOfFile
                    && final(self).position() == old(self).position(),
            },
    {
        let u = self.read_u16()?;
        if u >= 32768 {
            Ok((u as i32 - 65536) as i16)
        } else {
            Ok(u as i16)
        }
    }

    pub(crate) fn read_u32(&mut self) -> (r: Result<u32, PsdError>)
        ensures
            final(self).input() == old(self).input(),
            match r {
                Ok(v) => fits(old(self).input(), old(self).position(), 4)
                    && v as int == be_u32(old(self).input(), old(self).position())
                    && final(self).position() == old(self).position() + 4,
                Err(e) => !fits(old(self).input(), old(self).position(), 4)
                    && e == PsdError::UnexpectedEndOfFile
                    && final(self).position() == old(self).position(),
            },
    {
        if !self.has(4) {
            return Err(PsdError::UnexpectedEndOfFile);
        }
        let c = self.cursor;
        let hi = self.data[c] as u32 * 256 + self.data[c + 1] as u32;
        let lo = self.data[c + 2] as u32 * 256 + self.data[c + 3] as u32;
        self.cursor = c + 4;
        Ok(hi * 65536 + lo)
    }

    pub(crate) fn read_i32(&mut self) -> (r: Result<i32, PsdError>)
        ensures
            final(self).input() == old(self).input(),
            match r {
                Ok(v) => fits(old(self).input(), old(self).position(), 4)
                    && v as int == be_i32(old(self).input(), old(self).position())
                    && final(self).position() == old(self).position() + 4,
                Err(e) => !fits(old(self).input(), old(self).position(), 4)
                    && e == PsdError::UnexpectedEndOfFile
                    && final(self).position() == old(self).position(),
            },
    {
        let u = self.read_u32()?;
        if u >= 2147483648 {
            Ok((u as i64 - 4294967296) as i32)
        } else {
            Ok(u as i32)
        }
    }

    pub(crate) fn read_u64(&mut self) -> (r: Result<u64, PsdError>)
        ensures
            final(self).input() == old(self).input(),
            match r {
                Ok(v) => fits(old(self).input(), old(self).position(), 8)
                    && v as int == be_u64(old(self).input(), old(self).position())
                    && final(self).position() == old(self).position() + 8,
                Err(e) => !fits(old(self).input(), old(self).position(), 8)
                    && e == PsdError::UnexpectedEndOfFile
                    && final(self).position() == old(self).position(),
            },
    {
        if !self.has(8) {
            return Err(PsdError::UnexpectedEndOfFile);
        }
        let hi = self.read_u32()?;
        let lo = self.read_u32()?;
        Ok(hi as u64 * 4294967296 + lo as u64)
    }

    pub(crate) fn read_bytes(&mut self, len: usize) -> (r: Result<&'a [u8], PsdError>)
        ensures
            final(self).input() == old(self).input(),
            match r {
                Ok(v) => fits(old(self).input(), old(self).position(), len as int)
                    && v@ == old(self).input().subrange(
                        old(self).position(),
                        old(self).position() + len,
                    )
                    && final(self).position() == old(self).position() + len,
                Err(e) => !fits(old(self).input(), old(self).position(), len as int)
                    && e == PsdError::UnexpectedEndOfFile
                    && final(self).position() == old(self).position(),
            },
    {
        if !self.has(len) {
            return Err(PsdError::UnexpectedEndOfFile);
        }
        let c = self.cursor;
        let _l = self.data.len();
        let v = slice_subrange(self.data, c, c + len);
        self.cursor = c + len;
        Ok(v)
    }

    pub(crate) fn skip(&mut self, len: usize) -> (r: Result<(), PsdError>)
        ensures
            final(self).input() == old(self).input(),
            match r {
                Ok(_) => fits(old(self).input(), old(self).position(), len as int)
                    && final(self).position() == old(self).position() + len,
                Err(e) => !fits(old(self).input(), old(self).position(), len as int)
                    && e == PsdError::UnexpectedEndOfFile
                    && final(self).position() == old(self).position(),
            },
    {
        if !self.has(len) {
            return Err(PsdError::UnexpectedEndOfFile);
        }
        let _l = self.data.len();
        self.cursor = self.cursor + len;
        Ok(())
    }
}

} // verus!
