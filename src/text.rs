//! Text decoding and encoding used for layer names and text layers.

use vstd::prelude::*;

verus! {

/// The characters of `b` read as UTF-8, each invalid sequence replaced by U+FFFD.
pub uninterp spec fn utf8_lossy(b: Seq<u8>) -> Seq<char>;

/// Relies on `String::from_utf8_lossy`: the text of `b` with invalid UTF-8
/// replaced; the result depends on the bytes alone.
#[verifier::external_body]
pub(crate) fn string_from_utf8_lossy(b: &[u8]) -> (r: String)
    ensures
        r@ == utf8_lossy(b@),
{
    String::from_utf8_lossy(b).into_owned()
}

/// The characters that the UTF-16 code units `u` encode, or `None` where they
/// hold an unpaired surrogate.
pub uninterp spec fn utf16_decoded(u: Seq<u16>) -> Option<Seq<char>>;

/// Relies on `String::from_utf16`: the decoded text, or an error for invalid
/// UTF-16; the outcome depends on the units alone.
#[verifier::external_body]
pub(crate) fn string_from_utf16(u: &[u16]) -> (r: Option<String>)
    ensures
        match r {
            Some(t) => utf16_decoded(u@) == Some(t@),
            None => utf16_decoded(u@) is None,
        },
{
    match String::from_utf16(u) {
        Ok(t) => Some(t),
        Err(_) => None,
    }
}

/// The UTF-16 code units of one character.
pub open spec fn char_units(c: char) -> Seq<u16> {
    let v = c as u32 as int;
    if v < 0x10000 {
        seq![v as u16]
    } else {
        seq![(0xD800 + (v - 0x10000) / 1024) as u16, (0xDC00 + (v - 0x10000) % 1024) as u16]
    }
}

/// The UTF-16 code units of a text.
pub open spec fn utf16_units(s: Seq<char>) -> Seq<u16>
    decreases s.len(),
{
    if s.len() == 0 {
        Seq::empty()
    } else {
        char_units(s[0]) + utf16_units(s.drop_first())
    }
}

/// Relies on `str::encode_utf16`: the UTF-16 code units of `s`, one for each
/// character below U+10000 and a surrogate pair for each other one.
#[verifier::external_body]
pub(crate) fn encode_utf16(s: &str) -> (r: Vec<u16>)
    ensures
        r@ == utf16_units(s@),
{
    s.encode_utf16().collect()
}

/// Number of leading zero units.
pub open spec fn lead_zeros(u: Seq<u16>) -> nat
    decreases u.len(),
{
    if u.len() == 0 || u[0] != 0 { 0 } else { 1 + lead_zeros(u.drop_first()) }
}

/// Number of trailing zero units.
pub open spec fn trail_zeros(u: Seq<u16>) -> nat
    decreases u.len(),
{
    if u.len() == 0 || u.last() != 0 { 0 } else { 1 + trail_zeros(u.drop_last()) }
}

/// `u` without its leading and trailing zero units (NUL characters).
pub open spec fn trim_nul(u: Seq<u16>) -> Seq<u16> {
    let a = lead_zeros(u) as int;
    let rest = u.subrange(a, u.len() as int);
    rest.subrange(0, rest.len() - trail_zeros(rest))
}

proof fn lemma_lead_zeros(u: Seq<u16>, i: int)
    requires
        0 <= i <= u.len(),
        forall|k: int| 0 <= k < i ==> u[k] == 0,
        i == u.len() || u[i] != 0,
    ensures
        lead_zeros(u) == i,
    decreases i,
{
    if i > 0 {
        lemma_lead_zeros(u.drop_first(), i - 1);
    }
}

proof fn lemma_trail_zeros(u: Seq<u16>, i: int)
    requires
        0 <= i <= u.len(),
        forall|k: int| u.len() - i <= k < u.len() ==> u[k] == 0,
        i == u.len() || u[u.len() - i - 1] != 0,
    ensures
        trail_zeros(u) == i,
    decreases i,
{
    if i > 0 {
        lemma_trail_zeros(u.drop_last(), i - 1);
    }
}

/// Drops the NUL units at both ends.
pub fn trim_nul_units(u: &Vec<u16>) -> (r: Vec<u16>)
    ensures
        r@ == trim_nul(u@),
{
    let n = u.len();
    let mut a: usize = 0;
    while a < n && u[a] == 0
        invariant
            n == u@.len(),
            a <= n,
            forall|k: int| 0 <= k < a ==> u@[k] == 0,
        decreases n - a,
    {
        a = a + 1;
    }
    proof {
        lemma_lead_zeros(u@, a as int);
    }
    let mut b: usize = n;
    while b > a && u[b - 1] == 0
        invariant
            n == u@.len(),
            a <= b <= n,
            forall|k: int| b <= k < n ==> u@[k] == 0,
        decreases b,
    {
        b = b - 1;
    }
    proof {
        let rest = u@.subrange(a as int, n as int);
        lemma_trail_zeros(rest, (n - b) as int);
    }
    let mut out: Vec<u16> = Vec::new();
    let mut i: usize = a;
    while i < b
        invariant
            a <= i <= b <= n,
            n == u@.len(),
            out@ == u@.subrange(a as int, i as int),
        decreases b - i,
    {
        out.push(u[i]);
        i = i + 1;
        assert(out@ =~= u@.subrange(a as int, i as int));
    }
    assert(out@ =~= trim_nul(u@));
    out
}

} // verus!
