//! Runs of text segments on a page.
use crate::bindings::FPDF_TEXTPAGE;
use vstd::prelude::*;

verus! {

/// The text segments of a text page that contain characters in the index
/// range starting at `start` and spanning `count` characters.
pub struct PdfPageTextSegments {
    text_page_handle: FPDF_TEXTPAGE,
    start: i32,
    count: i32,
}

impl PdfPageTextSegments {
    /// The first character index of the range.
    pub closed spec fn spec_start(&self) -> i32 {
        self.start
    }

    /// The number of characters in the range.
    pub closed spec fn spec_count(&self) -> i32 {
        self.count
    }

    /// The handle of the text page the segments belong to.
    pub closed spec fn spec_text_page_handle(&self) -> FPDF_TEXTPAGE {
        self.text_page_handle
    }

    /// Creates the segments of `text_page_handle` for the given range.
    pub fn new(text_page_handle: FPDF_TEXTPAGE, start: i32, count: i32) -> (r: Self)
        ensures
            r.spec_start() == start,
            r.spec_count() == count,
            r.spec_text_page_handle() == text_page_handle,
    {
        PdfPageTextSegments { text_page_handle, start, count }
    }

    /// The first character index of the range.
    pub fn start(&self) -> (r: i32)
        ensures
            r == self.spec_start(),
    {
        self.start
    }

    /// The number of characters in the range.
    pub fn count(&self) -> (r: i32)
        ensures
            r == self.spec_count(),
    {
        self.count
    }
}

} // verus!
