//! Text searches on a page.
use crate::bindings::{FPDF_SCHHANDLE, FPDF_TEXTPAGE};
use vstd::prelude::*;

verus! {

/// PDFium's flag for a case-sensitive search.
pub const FPDF_MATCHCASE: u64 = 0x1;

/// PDFium's flag for a search that matches whole words only.
pub const FPDF_MATCHWHOLEWORD: u64 = 0x2;

/// PDFium's flag for a search that steps to the next match one character on.
pub const FPDF_CONSECUTIVE: u64 = 0x4;

/// The options of a text search.
pub struct PdfSearchOptions {
    match_case: bool,
    match_whole_word: bool,
    consecutive: bool,
}

impl PdfSearchOptions {
    /// Whether the search is case-sensitive.
    pub closed spec fn spec_match_case(&self) -> bool {
        self.match_case
    }

    /// Whether the search matches whole words only.
    pub closed spec fn spec_match_whole_word(&self) -> bool {
        self.match_whole_word
    }

    /// Whether matches may overlap.
    pub closed spec fn spec_consecutive(&self) -> bool {
        self.consecutive
    }

    /// The PDFium flags that these options stand for.
    pub open spec fn spec_flags(&self) -> u64 {
        ((if self.spec_match_case() { FPDF_MATCHCASE } else { 0 }) + (if self.spec_match_whole_word() {
            FPDF_MATCHWHOLEWORD
        } else {
            0
        }) + (if self.spec_consecutive() { FPDF_CONSECUTIVE } else { 0 })) as u64
    }

    /// Options with every flag off.
    pub fn new() -> (r: Self)
        ensures
            !r.spec_match_case(),
            !r.spec_match_whole_word(),
            !r.spec_consecutive(),
    {
        PdfSearchOptions { match_case: false, match_whole_word: false, consecutive: false }
    }

    /// Sets whether the search is case-sensitive.
    pub fn match_case(self, do_match_case: bool) -> (r: Self)
        ensures
            r.spec_match_case() == do_match_case,
            r.spec_match_whole_word() == self.spec_match_whole_word(),
            r.spec_consecutive() == self.spec_consecutive(),
    {
        PdfSearchOptions { match_case: do_match_case, ..self }
    }

    /// Sets whether the search matches whole words only.
    pub fn match_whole_word(self, do_match_whole_word: bool) -> (r: Self)
        ensures
            r.spec_match_case() == self.spec_match_case(),
            r.spec_match_whole_word() == do_match_whole_word,
            r.spec_consecutive() == self.spec_consecutive(),
    {
        PdfSearchOptions { match_whole_word: do_match_whole_word, ..self }
    }

    /// Sets whether matches may overlap.
    pub fn consecutive(self, do_search_consecutively: bool) -> (r: Self)
        ensures
            r.spec_match_case() == self.spec_match_case(),
            r.spec_match_whole_word() == self.spec_match_whole_word(),
            r.spec_consecutive() == do_search_consecutively,
    {
        PdfSearchOptions { consecutive: do_search_consecutively, ..self }
    }

    /// The PDFium flags that these options stand for.
    pub fn as_pdfium(&self) -> (flags: u64)
        ensures
            flags == self.spec_flags(),
    {
        let mut flags: u64 = 0;
        if self.match_case {
            flags = flags + FPDF_MATCHCASE;
        }
        if self.match_whole_word {
            flags = flags + FPDF_MATCHWHOLEWORD;
        }
        if self.consecutive {
            flags = flags + FPDF_CONSECUTIVE;
        }
        flags
    }
}

/// A running text search on a text page.
pub struct PdfPageTextSearch {
    search_handle: FPDF_SCHHANDLE,
    text_page_handle: FPDF_TEXTPAGE,
}

impl PdfPageTextSearch {
    /// The PDFium handle of the search.
    pub closed spec fn spec_search_handle(&self) -> FPDF_SCHHANDLE {
        self.search_handle
    }

    /// The handle of the text page being searched.
    pub closed spec fn spec_text_page_handle(&self) -> FPDF_TEXTPAGE {
        self.text_page_handle
    }

    /// Wraps a search that PDFium has started on a text page.
    pub fn from_pdfium(search_handle: FPDF_SCHHANDLE, text_page_handle: FPDF_TEXTPAGE) -> (r: Self)
        ensures
            r.spec_search_handle() == search_handle,
            r.spec_text_page_handle() == text_page_handle,
    {
        PdfPageTextSearch { search_handle, text_page_handle }
    }

    /// The PDFium handle of the search.
    pub fn search_handle(&self) -> (r: FPDF_SCHHANDLE)
        ensures
            r == self.spec_search_handle(),
    {
        self.search_handle
    }

    /// The handle of the text page being searched.
    pub fn text_page_handle(&self) -> (r: FPDF_TEXTPAGE)
        ensures
            r == self.spec_text_page_handle(),
    {
        self.text_page_handle
    }
}

} // verus!
