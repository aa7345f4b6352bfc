//! Font discovery without an operating-system font service.
//!
//! The crate resolves a font configuration into directories, derives style
//! and naming metadata from the binary tables of each font file, and keeps
//! an ordered index from [`FcPattern`] to [`FcFontPath`] that answers
//! partial-match queries.  Everything that touches the file system lives
//! with the caller: the library works on paths, bytes and listings handed
//! to it.  What the library decides is proved against the contracts of
//! its functions; what it has from other crates and from the standard
//! library stands behind small wrappers whose contracts are trusted.
#![allow(non_snake_case)]

pub mod cache;
pub mod config;
pub mod font;
pub mod memory;
pub mod order;
pub mod paths;
pub mod pattern;
pub mod text;
pub mod walk;

pub use cache::FcFontCache;
pub use font::get_font_name;
pub use pattern::{FcFont, FcFontPath, FcPattern, PatternMatch};
