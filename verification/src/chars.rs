//! Collections of characters on a page, identified by their indices.
use crate::bindings::{FPDF_DOCUMENT, FPDF_PAGE, FPDF_TEXTPAGE};
use vstd::prelude::*;

verus! {

/// The index of a character on a page.
pub type PdfPageTextCharIndex = usize;

/// A collection of characters of one text page, held as their indices in
/// the order in which they are listed.
pub struct PdfPageTextChars {
    document_handle: FPDF_DOCUMENT,
    page_handle: FPDF_PAGE,
    text_page_handle: FPDF_TEXTPAGE,
    char_indices: Vec<i32>,
}

impl View for PdfPageTextChars {
    type V = Seq<i32>;

    closed spec fn view(&self) -> Seq<i32> {
        self.char_indices@
    }
}

impl PdfPageTextChars {
    /// The handle of the text page the characters belong to.
    pub closed spec fn spec_text_page_handle(&self) -> FPDF_TEXTPAGE {
        self.text_page_handle
    }

    /// The handle of the page the characters belong to.
    pub closed spec fn spec_page_handle(&self) -> FPDF_PAGE {
        self.page_handle
    }

    /// The handle of the document the characters belong to.
    pub closed spec fn spec_document_handle(&self) -> FPDF_DOCUMENT {
        self.document_handle
    }

    /// Creates a collection of the characters with the given indices.
    pub fn new(
        document_handle: FPDF_DOCUMENT,
        page_handle: FPDF_PAGE,
        text_page_handle: FPDF_TEXTPAGE,
        char_indices: Vec<i32>,
    ) -> (chars: Self)
        ensures
            chars@ == char_indices@,
            chars.spec_document_handle() == document_handle,
            chars.spec_page_handle() == page_handle,
            chars.spec_text_page_handle() == text_page_handle,
    {
        PdfPageTextChars { document_handle, page_handle, text_page_handle, char_indices }
    }

    /// The indices of the characters, in order.
    pub fn indices(&self) -> (r: &Vec<i32>)
        ensures
            r@ == self@,
    {
        &self.char_indices
    }

    /// The number of characters in the collection.
    pub fn len(&self) -> (r: usize)
        ensures
            r == self@.len(),
    {
        self.char_indices.len()
    }

    /// Returns `true` if the collection holds no characters.
    pub fn is_empty(&self) -> (r: bool)
        ensures
            r == (self@.len() == 0),
    {
        self.char_indices.len() == 0
    }

    /// The handle of the text page the characters belong to.
    pub fn text_page_handle(&self) -> (r: FPDF_TEXTPAGE)
        ensures
            r == self.spec_text_page_handle(),
    {
        self.text_page_handle
    }
}

} // verus!
