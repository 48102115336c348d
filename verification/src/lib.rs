//! A directory-tree visualizer's rendering engine.
//!
//! Given an in-memory picture of a directory hierarchy, the library renders
//! the indented tree that the classic `tree` utility prints: connector glyphs
//! chosen by position among siblings, vertical continuation bars for ancestor
//! branches that still have siblings to come, and a color cycling with depth.
//! Reading the filesystem, parsing flags and writing to the terminal are left
//! to the surrounding program; the library works on plain values throughout.

pub mod ascii;
pub mod colors;
pub mod glyphs;
pub mod render;
pub mod row;
pub mod tree;

pub use colors::ColorTag;
