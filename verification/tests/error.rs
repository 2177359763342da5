use glyphsvg::error::VectorDrawableError;

#[test]
fn every_error_has_its_message() {
    assert_eq!(VectorDrawableError::InvalidFontData.message(), "Unable to create a font ref");
    assert_eq!(VectorDrawableError::InvalidMetrics.message(), "Unable to read 'head'");
    assert_eq!(VectorDrawableError::MalformedLocation.message(), "Unintelligible position");
    assert_eq!(VectorDrawableError::MalformedCodepoint.message(), "Unable to parse codepoint");
    assert_eq!(VectorDrawableError::UnsupportedCodepointForm.message(), "Unsupported codepoint form");
    assert_eq!(VectorDrawableError::UnmappedCodepoint.message(), "No mapping for codepoint");
    assert_eq!(VectorDrawableError::NoOutline.message(), "No outline for glyph id");
    assert_eq!(VectorDrawableError::OutlineDrawFailed.message(), "Unable to draw glyph");
}

#[test]
fn errors_are_told_apart() {
    assert_ne!(VectorDrawableError::MalformedCodepoint, VectorDrawableError::UnsupportedCodepointForm);
    assert_ne!(VectorDrawableError::MalformedCodepoint, VectorDrawableError::UnmappedCodepoint);
    assert_ne!(VectorDrawableError::NoOutline, VectorDrawableError::OutlineDrawFailed);
    assert_ne!(VectorDrawableError::InvalidFontData, VectorDrawableError::InvalidMetrics);
}
