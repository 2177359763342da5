//! The stages in their order: what is settled before the font reader draws,
//! and what is made of the drawing.
//!
//! Every stage stops at its first failure, and nothing is written unless
//! all of them succeed.

use vstd::prelude::*;
use crate::codepoint::{codepoint_of, parse_codepoint};
use crate::error::VectorDrawableError;
use crate::font::{
    check_font, check_glyph, check_units_per_em, font_glyph, font_readable, font_units_per_em,
    glyph_of, metrics_of, read_glyph, read_units_per_em, GlyphId,
};
use crate::location::{
    location_fields, parse_location, reading_refused, values_read, AxisValue,
};
use crate::path::{outline_of, path_within, BezPen, DrawOutcome, PathCommand, COORD_LIMIT};
use crate::svg::{document_text, path_data, path_text, svg_document};
use crate::transform::{flipped, normalize_path};

verus! {

/// What is settled before drawing: the glyph, the height of the em square,
/// and the axis values asked for.
#[derive(Debug)]
pub struct Selection {
    pub glyph: GlyphId,
    pub units_per_em: u16,
    pub values: Vec<AxisValue>,
}

/// The glyph and the units per em that the font has for a codepoint token,
/// or the first failure on the way: bytes that are no font, then a token
/// that is no codepoint, then a codepoint without a glyph, then unusable
/// metrics.
pub open spec fn font_stage(data: Seq<u8>, icon: Seq<char>) -> Result<
    (GlyphId, u16),
    VectorDrawableError,
> {
    if !font_readable(data) {
        Err(VectorDrawableError::InvalidFontData)
    } else {
        match codepoint_of(icon) {
            Err(e) => Err(e),
            Ok(codepoint) => match glyph_of(font_glyph(data, codepoint)) {
                Err(e) => Err(e),
                Ok(glyph) => match metrics_of(font_units_per_em(data)) {
                    Err(e) => Err(e),
                    Ok(units) => Ok((glyph, units)),
                },
            },
        }
    }
}

/// The SVG document for what a pen has drawn, or the failure that keeps it
/// from being written. An outline with a coordinate beyond the limit counts
/// as a failed drawing.
pub open spec fn svg_of(drawn: Seq<PathCommand>, outcome: DrawOutcome, units_per_em: u16) -> Result<
    Seq<char>,
    VectorDrawableError,
> {
    match outline_of(drawn, outcome) {
        Err(e) => Err(e),
        Ok(path) => if path_within(path, COORD_LIMIT as int) {
            Ok(document_text(path_text(flipped(path, units_per_em)), units_per_em))
        } else {
            Err(VectorDrawableError::OutlineDrawFailed)
        },
    }
}

/// Settles everything that comes before drawing, in this order: the font,
/// the codepoint token, the glyph, the units per em, the location string.
///
/// `read` is the number reader of [`parse_location`]. It is not asked
/// unless the font stage succeeded.
pub fn select<F: Fn(&str) -> Option<u32>>(data: &[u8], position: &str, icon: &str, read: F) -> (r:
    Result<Selection, VectorDrawableError>)
    requires
        forall|t: &str| read.requires((t,)),
    ensures
        match font_stage(data@, icon@) {
            Err(e) => r == Err::<Selection, _>(e),
            Ok((glyph, units)) => match location_fields(position@) {
                None => r == Err::<Selection, _>(VectorDrawableError::MalformedLocation),
                Some(fields) => match r {
                    Ok(selection) => {
                        &&& selection.glyph == glyph
                        &&& selection.units_per_em == units
                        &&& values_read(read, fields, selection.values@)
                    },
                    Err(e) => e == VectorDrawableError::MalformedLocation && reading_refused(
                        read,
                        fields,
                    ),
                },
            },
        },
{
    match check_font(data) {
        Ok(()) => {},
        Err(e) => {
            return Err(e);
        },
    }
    let codepoint = match parse_codepoint(icon) {
        Ok(codepoint) => codepoint,
        Err(e) => {
            return Err(e);
        },
    };
    let glyph = match check_glyph(read_glyph(data, codepoint)) {
        Ok(glyph) => glyph,
        Err(e) => {
            return Err(e);
        },
    };
    let units = match check_units_per_em(read_units_per_em(data)) {
        Ok(units) => units,
        Err(e) => {
            return Err(e);
        },
    };
    match parse_location(position, read) {
        Ok(values) => Ok(Selection { glyph, units_per_em: units, values }),
        Err(e) => Err(e),
    }
}

/// Makes the SVG document of what the font reader drew into `pen`.
///
/// The outline is taken from the pen, flipped into SVG's coordinate system,
/// written as path data and wrapped in a document whose view box is the em
/// square.
pub fn outline_svg(pen: BezPen, outcome: DrawOutcome, units_per_em: u16) -> (r: Result<
    String,
    VectorDrawableError,
>)
    ensures
        match r {
            Ok(text) => svg_of(pen@, outcome, units_per_em) == Ok::<_, VectorDrawableError>(text@),
            Err(e) => svg_of(pen@, outcome, units_per_em) == Err::<Seq<char>, _>(e),
        },
{
    let path = match pen.finish(outcome) {
        Ok(path) => path,
        Err(e) => {
            return Err(e);
        },
    };
    if !path.fits() {
        return Err(VectorDrawableError::OutlineDrawFailed);
    }
    let turned = normalize_path(&path, units_per_em);
    let data = path_data(&turned);
    Ok(svg_document(data.as_str(), units_per_em))
}

} // verus!
