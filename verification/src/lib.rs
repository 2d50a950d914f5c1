//! Grapheme-cluster indexing for terminal text: maps between byte offsets,
//! logical (grapheme) indices, and display columns of a Unicode string.

pub mod ansi;
pub mod measure;
pub mod props;
pub mod segment;
pub mod text;
pub mod unicode_string;
