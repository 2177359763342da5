//! The one error type shared by every stage.

use vstd::prelude::*;
use vstd::string::*;

verus! {

/// Why an invocation stopped. Every failure is final for that invocation.
#[derive(Clone, Copy, Debug, PartialEq, Eq, Structural)]
pub enum VectorDrawableError {
    /// The font bytes are not a font container.
    InvalidFontData,
    /// The global metrics are missing, unreadable, or give zero units per em.
    InvalidMetrics,
    /// The location string breaks the `tag:value` grammar or holds a value
    /// that is not a finite number.
    MalformedLocation,
    /// The text after `0x` is not a hexadecimal number of at most 32 bits.
    MalformedCodepoint,
    /// The codepoint token does not start with `0x`.
    UnsupportedCodepointForm,
    /// The font's character map has no glyph for the codepoint.
    UnmappedCodepoint,
    /// The glyph exists but has nothing to draw.
    NoOutline,
    /// The font reader failed while producing the outline.
    OutlineDrawFailed,
}

impl VectorDrawableError {
    /// The text of [`VectorDrawableError::message`].
    pub open spec fn message_text(self) -> Seq<char> {
        match self {
            VectorDrawableError::InvalidFontData => "Unable to create a font ref"@,
            VectorDrawableError::InvalidMetrics => "Unable to read 'head'"@,
            VectorDrawableError::MalformedLocation => "Unintelligible position"@,
            VectorDrawableError::MalformedCodepoint => "Unable to parse codepoint"@,
            VectorDrawableError::UnsupportedCodepointForm => "Unsupported codepoint form"@,
            VectorDrawableError::UnmappedCodepoint => "No mapping for codepoint"@,
            VectorDrawableError::NoOutline => "No outline for glyph id"@,
            VectorDrawableError::OutlineDrawFailed => "Unable to draw glyph"@,
        }
    }

    /// A one-line description for the person who ran the tool.
    pub fn message(&self) -> (text: String)
        ensures
            text@ == self.message_text(),
    {
        match self {
            VectorDrawableError::InvalidFontData => String::from_str("Unable to create a font ref"),
            VectorDrawableError::InvalidMetrics => String::from_str("Unable to read 'head'"),
            VectorDrawableError::MalformedLocation => String::from_str("Unintelligible position"),
            VectorDrawableError::MalformedCodepoint => String::from_str(
                "Unable to parse codepoint",
            ),
            VectorDrawableError::UnsupportedCodepointForm => String::from_str(
                "Unsupported codepoint form",
            ),
            VectorDrawableError::UnmappedCodepoint => String::from_str("No mapping for codepoint"),
            VectorDrawableError::NoOutline => String::from_str("No outline for glyph id"),
            VectorDrawableError::OutlineDrawFailed => String::from_str("Unable to draw glyph"),
        }
    }
}

} // verus!
