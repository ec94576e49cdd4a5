//! Text extraction and search support for a single PDF page, built around
//! the PDFium text API.

pub mod bindings;
pub mod chars;
pub mod error;
pub mod mem;
pub mod search;
pub mod segments;
pub mod utf16le;
pub mod text;
