//! Resolves one glyph of a variable font at a design-space position and
//! writes its outline as an SVG document.
//!
//! The stages, in the order in which a glyph passes them:
//!
//! - [`location`] reads the position, a string of `tag:value` pairs;
//! - [`codepoint`] reads the codepoint token, and [`font`] finds its glyph
//!   and the height of the em square;
//! - [`instance`] settles a value for every axis of the font;
//! - [`path`] collects what the font reader draws;
//! - [`transform`] flips the outline into SVG's coordinate system;
//! - [`svg`] writes it as path data inside a document.
//!
//! [`pipeline`] strings them together around the drawing itself, which is
//! the caller's to do.
//!
//! Numbers never appear here as floating point. An axis value is carried as
//! the bit pattern of an IEEE 754 single ([`single`]), and an outline
//! coordinate as a signed count of 1/65536 font units, so every rule is a
//! statement about integers.

pub mod codepoint;
pub mod error;
pub mod font;
pub mod instance;
pub mod location;
pub mod path;
pub mod pipeline;
pub mod single;
pub mod svg;
pub mod tag;
pub mod text;
pub mod transform;
