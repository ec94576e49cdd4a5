//! The PDFium text functions that page text is built on.
//!
//! PDFium handles are opaque pointers; here each is carried as the address it
//! holds, which is all that is ever compared.
#![allow(non_camel_case_types)]
use vstd::prelude::*;

verus! {

/// A handle to a loaded PDF document.
pub type FPDF_DOCUMENT = usize;

/// A handle to a loaded page.
pub type FPDF_PAGE = usize;

/// A handle to the text of a loaded page.
pub type FPDF_TEXTPAGE = usize;

/// A handle to a page object.
pub type FPDF_PAGEOBJECT = usize;

/// A handle to a running text search.
pub type FPDF_SCHHANDLE = usize;

/// The PDFium text API that page text calls into. An implementation forwards
/// each method to the PDFium function of the same name.
///
/// Nothing is promised of what these methods return: PDFium's answers
/// depend on the document it has loaded.
#[allow(non_snake_case)]
pub trait PdfiumLibraryBindings {
    /// A rectangle on a page, in page coordinates.
    type Rect: Copy;

    /// The number of characters on a text page, or `-1` on error.
    fn FPDFText_CountChars(&self, text_page: FPDF_TEXTPAGE) -> i32;

    /// Copies the text inside `rect` into `buffer` as UTF-16LE code units and
    /// returns the number of code units written, together with the buffer;
    /// with an empty `buffer` (standing for a null pointer) and `buflen` 0 it
    /// returns the number of code units that the text needs. PDFium is handed
    /// the rectangle's left, top, right and bottom edges, in that order.
    fn FPDFText_GetBoundedText(
        &self,
        text_page: FPDF_TEXTPAGE,
        rect: &Self::Rect,
        buffer: Vec<u16>,
        buflen: i32,
    ) -> (i32, Vec<u16>);

    /// The page object that owns the character at `index`.
    fn FPDFText_GetTextObject(&self, text_page: FPDF_TEXTPAGE, index: i32) -> FPDF_PAGEOBJECT;

    /// Copies the text of a text object into `buffer` as NUL-terminated
    /// UTF-16LE bytes and returns the number of bytes that the text needs,
    /// together with the buffer; with an empty `buffer` (standing for a null
    /// pointer) and `length` 0 it only returns that number.
    fn FPDFTextObj_GetText(
        &self,
        text_object: FPDF_PAGEOBJECT,
        text_page: FPDF_TEXTPAGE,
        buffer: Vec<u8>,
        length: u64,
    ) -> (u64, Vec<u8>);

    /// Starts a search for the NUL-terminated UTF-16LE string `findwhat`.
    fn FPDFText_FindStart(
        &self,
        text_page: FPDF_TEXTPAGE,
        findwhat: &Vec<u8>,
        flags: u64,
        start_index: i32,
    ) -> FPDF_SCHHANDLE;

    /// Releases a text page.
    fn FPDFText_ClosePage(&self, text_page: FPDF_TEXTPAGE);
}

} // verus!
