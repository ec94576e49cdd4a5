//! Errors reported by the page text API.
use vstd::prelude::*;

verus! {

/// Failures reported by PDFium itself, without further detail.
#[derive(Debug, Clone, Copy, PartialEq, Eq, Structural)]
pub enum PdfiumInternalError {
    /// PDFium reported a failure but gave no reason for it.
    Unknown,
}

/// The errors that the page text API can return.
#[derive(Debug, Clone, Copy, PartialEq, Eq, Structural)]
pub enum PdfiumError {
    /// No characters lie inside the bounds of the given page object.
    NoCharsInPageObject,
    /// No characters lie inside the bounds of the given annotation.
    NoCharsInAnnotation,
    /// No characters lie inside the given rectangle.
    NoCharsInRect,
    /// A text search was started for an empty string.
    TextSearchTargetIsEmpty,
    /// PDFium reported a failure.
    PdfiumLibraryInternalError(PdfiumInternalError),
}

} // verus!
