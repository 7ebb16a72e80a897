//! Parser and markdown renderer for e-reader highlight export files.
//!
//! The library understands two incompatible plain-text export layouts
//! ("v1" and "v2"), classifies raw input by marker presence, parses it
//! into an immutable document model, and renders that model as markdown.

pub mod display_markdown;
pub mod model;
pub mod parse_boox;
pub mod parse_boox_v1;
pub mod parse_boox_v2;
pub mod text;
