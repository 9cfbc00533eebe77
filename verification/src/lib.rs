//! Verified building blocks of an mdBook to Typst backend.

pub mod text;
pub mod event;
pub mod css;
pub mod html;
pub mod stream;
pub mod code_blocks;
pub mod images;
pub mod headings;
pub mod callouts;
pub mod anchors;
pub mod pattern;
pub mod converters;
pub mod footnotes;
pub mod json;
pub mod render;
pub mod preamble;
pub mod laws;
pub mod markup_laws;
pub mod footnote_laws;
