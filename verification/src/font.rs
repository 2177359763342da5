//! What the library asks of the font bytes themselves. The bytes are read by
//! skrifa; what it finds in them is given a name here and not defined.

use vstd::prelude::*;
use skrifa::raw::TableProvider;
use skrifa::MetadataProvider;
use crate::error::VectorDrawableError;

verus! {

/// Whether skrifa's `FontRef::new` accepts the bytes as a font.
pub uninterp spec fn font_readable(data: Seq<u8>) -> bool;

/// The units per em that skrifa reads from the `head` table of the font in
/// the bytes, or `None` where it reads no font or no such table.
pub uninterp spec fn font_units_per_em(data: Seq<u8>) -> Option<u16>;

/// The glyph to which the character map of the font in the bytes takes the
/// codepoint, as skrifa reads it, or `None` where it reads no font or the
/// map has no entry.
pub uninterp spec fn font_glyph(data: Seq<u8>, codepoint: u32) -> Option<u32>;

/// Calls skrifa's `FontRef::new` on the bytes and tells whether it returned
/// a font. The contract only names that answer.
#[verifier::external_body]
fn read_font(data: &[u8]) -> (ok: bool)
    ensures
        ok == font_readable(data@),
{
    skrifa::FontRef::new(data).is_ok()
}

/// Calls skrifa's `FontRef::new`, then `head` and `Head::units_per_em` on
/// the font. Returns `None` where either of the first two fails. The
/// contract only names the result.
#[verifier::external_body]
pub(crate) fn read_units_per_em(data: &[u8]) -> (units: Option<u16>)
    ensures
        units == font_units_per_em(data@),
{
    match skrifa::FontRef::new(data) {
        Ok(font) => match font.head() {
            Ok(head) => Some(head.units_per_em()),
            Err(_) => None,
        },
        Err(_) => None,
    }
}

/// Calls skrifa's `FontRef::new`, then `charmap` and `Charmap::map` with the
/// codepoint, and returns the glyph identifier as a number. Returns `None`
/// where no font is read or the map has no entry. The contract only names
/// the result.
#[verifier::external_body]
pub(crate) fn read_glyph(data: &[u8], codepoint: u32) -> (glyph: Option<u32>)
    ensures
        glyph == font_glyph(data@, codepoint),
{
    match skrifa::FontRef::new(data) {
        Ok(font) => match font.charmap().map(codepoint) {
            Some(glyph) => Some(glyph.to_u32()),
            None => None,
        },
        Err(_) => None,
    }
}

/// The index of a glyph in a font.
#[derive(Clone, Copy, Debug, PartialEq, Eq, Structural)]
pub struct GlyphId {
    pub value: u32,
}

/// What a reading of the units per em is worth: it must be there and not
/// zero.
pub open spec fn metrics_of(reading: Option<u16>) -> Result<u16, VectorDrawableError> {
    match reading {
        Some(units) => if units > 0 {
            Ok(units)
        } else {
            Err(VectorDrawableError::InvalidMetrics)
        },
        None => Err(VectorDrawableError::InvalidMetrics),
    }
}

/// What a character map lookup is worth: a missing entry is an error.
pub open spec fn glyph_of(found: Option<u32>) -> Result<GlyphId, VectorDrawableError> {
    match found {
        Some(value) => Ok(GlyphId { value }),
        None => Err(VectorDrawableError::UnmappedCodepoint),
    }
}

/// Judges the units per em read from a font.
pub fn check_units_per_em(reading: Option<u16>) -> (r: Result<u16, VectorDrawableError>)
    ensures
        r == metrics_of(reading),
{
    match reading {
        Some(units) => {
            if units > 0 {
                Ok(units)
            } else {
                Err(VectorDrawableError::InvalidMetrics)
            }
        },
        None => Err(VectorDrawableError::InvalidMetrics),
    }
}

/// Judges the result of a character map lookup.
pub fn check_glyph(found: Option<u32>) -> (r: Result<GlyphId, VectorDrawableError>)
    ensures
        r == glyph_of(found),
{
    match found {
        Some(value) => Ok(GlyphId { value }),
        None => Err(VectorDrawableError::UnmappedCodepoint),
    }
}

/// Tells whether the bytes are a font.
pub fn check_font(data: &[u8]) -> (r: Result<(), VectorDrawableError>)
    ensures
        r == if font_readable(data@) {
            Ok::<(), VectorDrawableError>(())
        } else {
            Err(VectorDrawableError::InvalidFontData)
        },
{
    if read_font(data) {
        Ok(())
    } else {
        Err(VectorDrawableError::InvalidFontData)
    }
}

/// The units per em of the font in the bytes.
pub fn units_per_em(data: &[u8]) -> (r: Result<u16, VectorDrawableError>)
    ensures
        r == if font_readable(data@) {
            metrics_of(font_units_per_em(data@))
        } else {
            Err(VectorDrawableError::InvalidFontData)
        },
{
    if !read_font(data) {
        return Err(VectorDrawableError::InvalidFontData);
    }
    check_units_per_em(read_units_per_em(data))
}

/// The glyph that the font in the bytes has for a codepoint.
pub fn glyph_for(data: &[u8], codepoint: u32) -> (r: Result<GlyphId, VectorDrawableError>)
    ensures
        r == if font_readable(data@) {
            glyph_of(font_glyph(data@, codepoint))
        } else {
            Err(VectorDrawableError::InvalidFontData)
        },
{
    if !read_font(data) {
        return Err(VectorDrawableError::InvalidFontData);
    }
    check_glyph(read_glyph(data, codepoint))
}

} // verus!
