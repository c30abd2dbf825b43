//! Verified core of a directory-listing tool.
//!
//! The library models a filesystem tree as plain data, walks it either one
//! level deep or to arbitrary depth, filters dot-prefixed names, resolves
//! ownership ids to names, and renders fixed-width, colour-tagged text lines.
//! All I/O (reading the real filesystem, parsing arguments, writing coloured
//! output) stays outside the library; callers hand in a [`tree::FsTree`]
//! snapshot and receive the finished lines back.

pub mod entry;
pub mod listing;
pub mod names;
pub mod perms;
pub mod render;
pub mod tree;
