//! The Unicode characters visible on a single page.
//!
//! The characters are listed in the order in which the document defines
//! them; in complex layouts this may differ from the order in which they are
//! read.
use crate::bindings::{
    PdfiumLibraryBindings, FPDF_DOCUMENT, FPDF_PAGE, FPDF_PAGEOBJECT, FPDF_TEXTPAGE,
};
use crate::chars::{PdfPageTextCharIndex, PdfPageTextChars};
use crate::error::PdfiumError;
use crate::mem::{cast_words_to_bytes, create_byte_buffer, create_sized_buffer};
use crate::search::{PdfPageTextSearch, PdfSearchOptions};
use crate::segments::PdfPageTextSegments;
use crate::utf16le::{
    get_pdfium_utf16le_bytes_from_str, get_string_from_pdfium_utf16le_bytes, pdfium_bytes,
    pdfium_string_or_empty, words_text, no_trailing_nul, lemma_pdfium_string_no_trailing_nul,
    target_is_little_endian, encode_utf16, lemma_words_text_utf16,
};
use vstd::prelude::*;

verus! {

/// The indices `start, start + 1, ..` below `end`; none when `end <= start`.
pub open spec fn index_range(start: int, end: int) -> Seq<i32> {
    Seq::new(if end > start { (end - start) as nat } else { 0 }, |i: int| (start + i) as i32)
}

/// The characters from `start`, found at a rectangle's left edge, to
/// `end`, found at its right edge, both included, in the order in which the
/// page defines them; none when `end` comes before `start`. Each index is
/// handed to PDFium as an `i32`.
pub open spec fn edge_range(start: usize, end: usize) -> Seq<i32> {
    if start <= end {
        Seq::new((end - start + 1) as nat, |i: int| (start + i) as i32)
    } else {
        seq![]
    }
}

/// The indices among `indices` whose owner, listed at the same position in
/// `owners`, is `object`; in their order.
pub open spec fn chars_of_object(
    indices: Seq<i32>,
    owners: Seq<FPDF_PAGEOBJECT>,
    object: FPDF_PAGEOBJECT,
) -> Seq<i32>
    decreases indices.len(),
{
    if indices.len() == 0 {
        seq![]
    } else {
        let prev = chars_of_object(indices.drop_last(), owners.drop_last(), object);
        if owners.last() == object {
            prev.push(indices.last())
        } else {
            prev
        }
    }
}

/// The two edge characters, when both were found and both are characters
/// of a page that has `count` characters.
pub open spec fn page_edges(edges: RectEdgeChars, count: i32) -> Option<(usize, usize)> {
    match (edges.left, edges.right) {
        (Some(start), Some(end)) => if start < count && end < count {
            Some((start, end))
        } else {
            None
        },
        _ => None,
    }
}

/// The characters that PDFium finds nearest to the left and to the right
/// edge of a rectangle, at its mid-height, within half its width and height.
#[derive(Clone, Copy, Debug, PartialEq, Eq, Structural)]
pub struct RectEdgeChars {
    pub left: Option<PdfPageTextCharIndex>,
    pub right: Option<PdfPageTextCharIndex>,
}

/// The indices from `start` up to, but not including, `end`.
pub fn collect_index_range(start: i32, end: i32) -> (r: Vec<i32>)
    ensures
        r@ == index_range(start as int, end as int),
        r@.len() == if start < end { end - start } else { 0 },
        forall|k: int| 0 <= k < r@.len() ==> #[trigger] r@[k] == start + k,
{
    let mut r: Vec<i32> = Vec::new();
    let mut i = start;
    while i < end
        invariant
            start <= i,
            i <= end || i == start,
            r@ == index_range(start as int, i as int),
        decreases end - i,
    {
        r.push(i);
        i = i + 1;
        assert(r@ =~= index_range(start as int, i as int));
    }
    assert(r@ =~= index_range(start as int, end as int));
    proof {
        lemma_index_range(start as int, end as int);
    }
    r
}

/// The indices of the characters from `start` to `end`, both included.
pub fn collect_edge_range(start: usize, end: usize) -> (r: Vec<i32>)
    ensures
        r@ == edge_range(start, end),
        r@.len() == if start <= end { end - start + 1 } else { 0 },
        forall|k: int| 0 <= k < r@.len() ==> #[trigger] r@[k] == (start + k) as i32,
{
    let mut r: Vec<i32> = Vec::new();
    if start > end {
        assert(r@ =~= edge_range(start, end));
        return r;
    }
    let mut i = start;
    loop
        invariant_except_break
            start <= i <= end,
            r@ =~= Seq::new((i - start) as nat, |k: int| (start + k) as i32),
        ensures
            r@ =~= Seq::new((end - start + 1) as nat, |k: int| (start + k) as i32),
        decreases end - i,
    {
        r.push(i as i32);
        if i == end {
            break ;
        }
        i = i + 1;
    }
    assert(r@ =~= edge_range(start, end));
    proof {
        lemma_edge_range(start, end);
    }
    r
}

/// The index of the character that PDFium reports for a position, given the
/// code PDFium returned: `-1` (no character within the tolerances) and `-3`
/// (an error) give `None`, any other code is the index.
pub fn char_index_from_pdfium(code: i32) -> (r: Option<PdfPageTextCharIndex>)
    ensures
        r == (if code == -1 || code == -3 {
            None
        } else {
            Some(code as usize)
        }),
{
    if code == -1 || code == -3 {
        None
    } else {
        Some(code as usize)
    }
}

/// The indices among `indices` whose owner, listed at the same position in
/// `owners`, is `object`.
pub fn select_chars_of_object(
    indices: &Vec<i32>,
    owners: &Vec<FPDF_PAGEOBJECT>,
    object: FPDF_PAGEOBJECT,
) -> (r: Vec<i32>)
    requires
        owners@.len() == indices@.len(),
    ensures
        r@ == chars_of_object(indices@, owners@, object),
{
    let mut r: Vec<i32> = Vec::new();
    let mut i: usize = 0;
    while i < indices.len()
        invariant
            owners@.len() == indices@.len(),
            i <= indices@.len(),
            r@ == chars_of_object(indices@.take(i as int), owners@.take(i as int), object),
        decreases indices@.len() - i,
    {
        proof {
            assert(indices@.take(i + 1).drop_last() =~= indices@.take(i as int));
            assert(owners@.take(i + 1).drop_last() =~= owners@.take(i as int));
        }
        if owners[i] == object {
            r.push(indices[i]);
        }
        i = i + 1;
    }
    assert(indices@.take(indices@.len() as int) =~= indices@);
    assert(owners@.take(owners@.len() as int) =~= owners@);
    r
}

/// The text in a buffer of UTF-16LE code units that PDFium filled for a
/// bounded-text request: empty when PDFium wrote a different number of code
/// units than were asked for, or when the buffer does not hold valid UTF-16;
/// otherwise the decoded text, with trailing NULs dropped. The words are
/// read as bytes in the machine's byte order.
pub fn bounded_text_from_pdfium(requested: i32, written: i32, buffer: &Vec<u16>) -> (r: String)
    ensures
        written != requested ==> r@ == Seq::<char>::empty(),
        written == requested ==> r@ == words_text(buffer@, target_is_little_endian()),
        written == requested ==> (r@ == words_text(buffer@, true) || r@ == words_text(
            buffer@,
            false,
        )),
        no_trailing_nul(r@),
{
    if written != requested {
        return String::new();
    }
    let bytes = cast_words_to_bytes(buffer.as_slice());
    proof {
        lemma_pdfium_string_no_trailing_nul(bytes@);
    }
    match get_string_from_pdfium_utf16le_bytes(bytes) {
        Some(s) => s,
        None => String::new(),
    }
}

/// The text in a byte buffer that PDFium filled for a text object: empty
/// when PDFium reported a different length than was asked for, or when the
/// buffer does not hold valid UTF-16LE; otherwise the decoded text, with
/// trailing NULs dropped.
pub fn object_text_from_pdfium(requested: u64, written: u64, buffer: Vec<u8>) -> (r: String)
    ensures
        written != requested ==> r@ == Seq::<char>::empty(),
        written == requested ==> r@ == pdfium_string_or_empty(buffer@),
        no_trailing_nul(r@),
{
    if written != requested {
        return String::new();
    }
    proof {
        lemma_pdfium_string_no_trailing_nul(buffer@);
    }
    match get_string_from_pdfium_utf16le_bytes(buffer) {
        Some(s) => s,
        None => String::new(),
    }
}

/// The number of words to ask PDFium for, given the count it reported for
/// the text inside a rectangle; `None` (no text) when the count is not
/// positive.
pub open spec fn bounded_text_buffer_len_spec(chars_count: i32) -> Option<usize> {
    if chars_count <= 0 {
        None
    } else {
        Some(chars_count as usize)
    }
}

/// The number of words to ask PDFium for, given the count it reported for
/// the text inside a rectangle; `None` (no text) when the count is not
/// positive.
pub fn bounded_text_buffer_len(chars_count: i32) -> (r: Option<usize>)
    ensures
        r == bounded_text_buffer_len_spec(chars_count),
        chars_count <= 0 ==> r is None,
        chars_count > 0 ==> r == Some(chars_count as usize),
{
    if chars_count <= 0 {
        None
    } else {
        Some(chars_count as usize)
    }
}

/// The number of bytes to ask PDFium for, given the length it reported for
/// a text object's text; `None` (no text) when the length is 0, or when it
/// does not fit in memory.
pub open spec fn object_text_buffer_len_spec(buffer_length: u64) -> Option<usize> {
    if buffer_length == 0 || buffer_length > usize::MAX {
        None
    } else {
        Some(buffer_length as usize)
    }
}

/// The number of bytes to ask PDFium for, given the length it reported for
/// a text object's text; `None` (no text) when the length is 0, or when it
/// does not fit in memory.
pub fn object_text_buffer_len(buffer_length: u64) -> (r: Option<usize>)
    ensures
        r == object_text_buffer_len_spec(buffer_length),
        buffer_length == 0 ==> r is None,
        0 < buffer_length <= usize::MAX ==> r == Some(buffer_length as usize),
{
    if buffer_length == 0 || buffer_length > usize::MAX as u64 {
        None
    } else {
        Some(buffer_length as usize)
    }
}

/// What `bounded_text_from_pdfium` gives for PDFium's answer.
pub open spec fn bounded_text_result(
    requested: i32,
    written: i32,
    buffer: Seq<u16>,
    r: Seq<char>,
) -> bool {
    if written != requested {
        r == Seq::<char>::empty()
    } else {
        r == words_text(buffer, target_is_little_endian())
    }
}

/// What `object_text_from_pdfium` gives for PDFium's answer.
pub open spec fn object_text_result(requested: u64, written: u64, buffer: Seq<u8>, r: Seq<char>) -> bool {
    if written != requested {
        r == Seq::<char>::empty()
    } else {
        r == pdfium_string_or_empty(buffer)
    }
}

/// What `FPDFText_FindStart` is handed for a search.
pub struct PdfSearchRequest {
    /// The search string, NUL-terminated UTF-16LE.
    pub findwhat: Vec<u8>,
    /// The PDFium search flags.
    pub flags: u64,
    /// The index of the character the search starts from.
    pub start_index: i32,
}

/// The request for a search for `text` from character `index`, or
/// `TextSearchTargetIsEmpty` when `text` is empty.
pub fn search_request(text: &str, options: &PdfSearchOptions, index: PdfPageTextCharIndex) -> (r:
    Result<PdfSearchRequest, PdfiumError>)
    ensures
        text@.len() == 0 <==> r is Err,
        r matches Err(e) ==> e == PdfiumError::TextSearchTargetIsEmpty,
        r matches Ok(req) ==> {
            &&& req.findwhat@ == pdfium_bytes(text@)
            &&& req.flags == options.spec_flags()
            &&& req.start_index == index as i32
        },
{
    if text.is_empty() {
        Err(PdfiumError::TextSearchTargetIsEmpty)
    } else {
        let findwhat = get_pdfium_utf16le_bytes_from_str(text);
        Ok(PdfSearchRequest { findwhat, flags: options.as_pdfium(), start_index: index as i32 })
    }
}

/// The indices from `start` below `end` are exactly `end - start` of them
/// (none when `end <= start`), the one at position `k` being `start + k`:
/// every index of the range is listed, once, in order.
pub proof fn lemma_index_range(start: int, end: int)
    requires
        i32::MIN <= start,
        end <= i32::MAX,
    ensures
        index_range(start, end).len() == if start < end { end - start } else { 0 },
        forall|k: int|
            0 <= k < index_range(start, end).len() ==> #[trigger] index_range(start, end)[k]
                == start + k,
        forall|i: int| start <= i < end ==> #[trigger] index_range(start, end).contains(i as i32),
{
    assert forall|i: int| start <= i < end implies #[trigger] index_range(start, end).contains(
        i as i32,
    ) by {
        assert(index_range(start, end)[i - start] == i);
    }
}

/// The characters from `start` to `end` are exactly `end - start + 1` of
/// them (none when `end < start`), the one at position `k` being
/// `start + k`; every character between the two edges is listed.
pub proof fn lemma_edge_range(start: usize, end: usize)
    ensures
        edge_range(start, end).len() == if start <= end { end - start + 1 } else { 0 },
        forall|k: int|
            0 <= k < edge_range(start, end).len() ==> #[trigger] edge_range(start, end)[k] == (
            start + k) as i32,
        end <= i32::MAX ==> forall|i: int|
            start <= i <= end ==> #[trigger] edge_range(start, end).contains(i as i32),
{
    if end <= i32::MAX {
        assert forall|i: int| start <= i <= end implies #[trigger] edge_range(start, end).contains(
            i as i32,
        ) by {
            assert(edge_range(start, end)[i - start] == i as i32);
        }
    }
}

/// PDFium's first answer decides the buffer: a count of at least one code
/// unit asks for a buffer of exactly that many words, and only a count of
/// zero or less means there is no text.
pub proof fn lemma_bounded_text_buffer_len(chars_count: i32)
    ensures
        chars_count <= 0 ==> bounded_text_buffer_len_spec(chars_count) is None,
        chars_count > 0 ==> bounded_text_buffer_len_spec(chars_count) == Some(
            chars_count as usize,
        ),
{
}

/// PDFium's first answer decides the buffer: a length of at least one byte
/// asks for a buffer of exactly that many bytes, and only a length of zero
/// (or one too large for memory) means there is no text.
pub proof fn lemma_object_text_buffer_len(buffer_length: u64)
    ensures
        buffer_length == 0 ==> object_text_buffer_len_spec(buffer_length) is None,
        0 < buffer_length <= usize::MAX ==> object_text_buffer_len_spec(buffer_length) == Some(
            buffer_length as usize,
        ),
{
}

/// When PDFium writes as many code units as it reported, the text read
/// back from a buffer holding the UTF-16 encoding of a string is that
/// string, on a little-endian machine, whatever the buffer's length; when
/// it writes a different number, the text is empty.
pub proof fn lemma_bounded_text_reads_units(s: Seq<char>, n: i32, m: i32, buffer: Seq<u16>)
    requires
        no_trailing_nul(s),
    ensures
        target_is_little_endian() ==> bounded_text_result(n, n, encode_utf16(s), s),
        target_is_little_endian() ==> forall|r: Seq<char>|
            #[trigger] bounded_text_result(n, n, encode_utf16(s), r) ==> r == s,
        n != m ==> forall|r: Seq<char>|
            #[trigger] bounded_text_result(n, m, buffer, r) <==> r == Seq::<char>::empty(),
{
    lemma_words_text_utf16(s);
}

/// A text object's buffer whose length PDFium confirms reads back as the
/// string it holds: the UTF-16LE bytes of a string with its terminator give
/// the string (when it does not end in a NUL character).
pub proof fn lemma_object_text_reads_string(s: Seq<char>, n: u64)
    requires
        no_trailing_nul(s),
    ensures
        object_text_result(n, n, crate::utf16le::pdfium_bytes(s), s),
        forall|r: Seq<char>| #[trigger] object_text_result(n, n, crate::utf16le::pdfium_bytes(s), r) ==> r == s,
{
    crate::utf16le::lemma_pdfium_string_roundtrip(s);
}

/// Of the characters inside an object's bounds, those that belong to the
/// object are kept: no more are kept than were given, every kept index is a
/// given index whose owner is the object, and every given index whose owner
/// is the object is kept.
#[verifier::spinoff_prover]
pub proof fn lemma_chars_of_object(
    indices: Seq<i32>,
    owners: Seq<FPDF_PAGEOBJECT>,
    object: FPDF_PAGEOBJECT,
)
    requires
        owners.len() == indices.len(),
    ensures
        chars_of_object(indices, owners, object).len() <= indices.len(),
        forall|k: int|
            0 <= k < chars_of_object(indices, owners, object).len() ==> exists|j: int|
                0 <= j < indices.len() && owners[j] == object && #[trigger] chars_of_object(
                    indices,
                    owners,
                    object,
                )[k] == indices[j],
        forall|j: int|
            0 <= j < indices.len() && owners[j] == object ==> chars_of_object(
                indices,
                owners,
                object,
            ).contains(#[trigger] indices[j]),
    decreases indices.len(),
{
    if indices.len() > 0 {
        let di = indices.drop_last();
        let dow = owners.drop_last();
        lemma_chars_of_object(di, dow, object);
        let prev = chars_of_object(di, dow, object);
        let cur = chars_of_object(indices, owners, object);
        assert forall|k: int| 0 <= k < cur.len() implies exists|j: int|
            0 <= j < indices.len() && owners[j] == object && #[trigger] cur[k] == indices[j] by {
            if k < prev.len() {
                let j = choose|j: int|
                    0 <= j < di.len() && dow[j] == object && #[trigger] prev[k] == di[j];
                assert(cur[k] == prev[k]);
                assert(owners[j] == dow[j] && indices[j] == di[j]);
                assert(0 <= j < indices.len() && owners[j] == object && cur[k] == indices[j]);
            } else {
                let j = indices.len() - 1;
                assert(cur[k] == indices[j]);
                assert(0 <= j < indices.len() && owners[j] == object && cur[k] == indices[j]);
            }
        }
        assert forall|j: int| 0 <= j < indices.len() && owners[j] == object implies cur.contains(
            #[trigger] indices[j],
        ) by {
            if j < indices.len() - 1 {
                assert(di[j] == indices[j] && dow[j] == owners[j]);
                assert(prev.contains(di[j]));
                let k = choose|k: int| 0 <= k < prev.len() && prev[k] == di[j];
                assert(cur[k] == prev[k]);
            } else {
                assert(cur[cur.len() - 1] == indices[j]);
            }
        }
    }
}

/// The collection of Unicode characters visible on a single page.
pub struct PdfPageText<'a, B: PdfiumLibraryBindings> {
    text_page_handle: FPDF_TEXTPAGE,
    document_handle: FPDF_DOCUMENT,
    page_handle: FPDF_PAGE,
    page_size: B::Rect,
    bindings: &'a B,
}

impl<'a, B: PdfiumLibraryBindings> PdfPageText<'a, B> {
    /// The handle of the text page.
    pub closed spec fn spec_text_page_handle(&self) -> FPDF_TEXTPAGE {
        self.text_page_handle
    }

    /// The handle of the page.
    pub closed spec fn spec_page_handle(&self) -> FPDF_PAGE {
        self.page_handle
    }

    /// The handle of the document.
    pub closed spec fn spec_document_handle(&self) -> FPDF_DOCUMENT {
        self.document_handle
    }

    /// The bounds of the whole page.
    pub closed spec fn spec_page_size(&self) -> B::Rect {
        self.page_size
    }

    /// The PDFium bindings in use.
    pub closed spec fn spec_bindings(&self) -> &'a B {
        self.bindings
    }

    /// True when `count` is a character count that PDFium's
    /// `FPDFText_CountChars` can answer for this text page.
    pub open spec fn spec_count_chars(&self, count: i32) -> bool {
        call_ensures(
            B::FPDFText_CountChars,
            (self.spec_bindings(), self.spec_text_page_handle()),
            count,
        )
    }

    /// True when `owner` is an owner that PDFium's `FPDFText_GetTextObject`
    /// can answer for the character at `index` of this text page.
    pub open spec fn spec_text_object(&self, index: i32, owner: FPDF_PAGEOBJECT) -> bool {
        call_ensures(
            B::FPDFText_GetTextObject,
            (self.spec_bindings(), self.spec_text_page_handle(), index),
            owner,
        )
    }

    /// True when `r` is what reading the text inside `rect` can give: PDFium
    /// is asked, with no buffer, how many code units the text needs; when
    /// none (or a negative count) the text is empty; otherwise a zeroed
    /// buffer of that many words is handed to PDFium with that count, and
    /// the text is what `bounded_text_from_pdfium` makes of PDFium's answer.
    pub open spec fn spec_inside_rect(&self, rect: B::Rect, r: Seq<char>) -> bool {
        exists|no_buffer: Vec<u16>, first: (i32, Vec<u16>)|
            no_buffer@.len() == 0 && #[trigger] call_ensures(
                B::FPDFText_GetBoundedText,
                (self.spec_bindings(), self.spec_text_page_handle(), &rect, no_buffer, 0i32),
                first,
            ) && match bounded_text_buffer_len_spec(first.0) {
                None => r == Seq::<char>::empty(),
                Some(n) => exists|buffer: Vec<u16>, second: (i32, Vec<u16>)|
                    buffer@ == Seq::new(n as nat, |i: int| 0u16) && #[trigger] call_ensures(
                        B::FPDFText_GetBoundedText,
                        (self.spec_bindings(), self.spec_text_page_handle(), &rect, buffer, first.0),
                        second,
                    ) && bounded_text_result(first.0, second.0, second.1@, r),
            }
    }

    /// True when `r` is what reading the text of `object` can give: PDFium
    /// is asked, with no buffer, how many bytes the text needs; when none
    /// the text is empty; otherwise a zeroed buffer of that many bytes is
    /// handed to PDFium with that length, and the text is what
    /// `object_text_from_pdfium` makes of PDFium's answer.
    pub open spec fn spec_for_object(&self, object: FPDF_PAGEOBJECT, r: Seq<char>) -> bool {
        exists|no_buffer: Vec<u8>, first: (u64, Vec<u8>)|
            no_buffer@.len() == 0 && #[trigger] call_ensures(
                B::FPDFTextObj_GetText,
                (self.spec_bindings(), object, self.spec_text_page_handle(), no_buffer, 0u64),
                first,
            ) && match object_text_buffer_len_spec(first.0) {
                None => r == Seq::<char>::empty(),
                Some(n) => exists|buffer: Vec<u8>, second: (u64, Vec<u8>)|
                    buffer@ == Seq::new(n as nat, |i: int| 0u8) && #[trigger] call_ensures(
                        B::FPDFTextObj_GetText,
                        (self.spec_bindings(), object, self.spec_text_page_handle(), buffer, first.0),
                        second,
                    ) && object_text_result(first.0, second.0, second.1@, r),
            }
    }

    /// True when `r` is what a search for `text` from character `index` can
    /// give: `TextSearchTargetIsEmpty` for an empty `text`; otherwise a
    /// search over the handle that PDFium's `FPDFText_FindStart` answers
    /// when handed the NUL-terminated UTF-16LE encoding of `text`, the
    /// options' flags and `index` as an `i32`.
    pub open spec fn spec_search(
        &self,
        text: Seq<char>,
        options: PdfSearchOptions,
        index: PdfPageTextCharIndex,
        r: Result<PdfPageTextSearch, PdfiumError>,
    ) -> bool {
        if text.len() == 0 {
            r == Err::<PdfPageTextSearch, PdfiumError>(PdfiumError::TextSearchTargetIsEmpty)
        } else {
            r matches Ok(s) && s.spec_text_page_handle() == self.spec_text_page_handle() && exists|
                findwhat: Vec<u8>,
            |
                findwhat@ == pdfium_bytes(text) && #[trigger] call_ensures(
                    B::FPDFText_FindStart,
                    (
                        self.spec_bindings(),
                        self.spec_text_page_handle(),
                        &findwhat,
                        options.spec_flags(),
                        index as i32,
                    ),
                    s.spec_search_handle(),
                )
        }
    }

    /// A search for a non-empty text starts where it is asked to: the
    /// handle in the result is what `FPDFText_FindStart` answered when
    /// handed the text, the options' flags and the start index as an `i32`.
    pub proof fn lemma_search_start_index(
        &self,
        text: Seq<char>,
        options: PdfSearchOptions,
        index: PdfPageTextCharIndex,
        r: Result<PdfPageTextSearch, PdfiumError>,
    )
        requires
            self.spec_search(text, options, index, r),
            text.len() > 0,
        ensures
            r matches Ok(s) && exists|findwhat: Vec<u8>|
                findwhat@ == pdfium_bytes(text) && #[trigger] call_ensures(
                    B::FPDFText_FindStart,
                    (
                        self.spec_bindings(),
                        self.spec_text_page_handle(),
                        &findwhat,
                        options.spec_flags(),
                        index as i32,
                    ),
                    s.spec_search_handle(),
                ),
    {
    }

    /// When both edge characters are characters of the page and the right
    /// one does not come before the left one, every character between them
    /// is listed, once each and in order, and no other.
    pub proof fn lemma_chars_inside_lists_every_char(
        &self,
        edges: RectEdgeChars,
        count: i32,
        r: Result<PdfPageTextChars, PdfiumError>,
        start: usize,
        end: usize,
    )
        requires
            self.spec_chars_inside(edges, count, r),
            page_edges(edges, count) == Some((start, end)),
            start <= end,
        ensures
            r matches Ok(chars) && chars@.len() == end - start + 1 && (forall|i: int|
                start <= i <= end ==> #[trigger] chars@.contains(i as i32)) && (forall|k: int|
                0 <= k < chars@.len() ==> 0 <= #[trigger] chars@[k] < count),
    {
        lemma_edge_range(start, end);
    }

    /// The characters of the page are the indices from 0 below the count
    /// PDFium reported, each once and in order.
    pub proof fn lemma_chars_of_page(&self, count: i32, indices: Seq<i32>)
        requires
            indices == index_range(0, count as int),
        ensures
            indices.len() == if count > 0 { count as int } else { 0 },
            forall|k: int| 0 <= k < indices.len() ==> #[trigger] indices[k] == k,
            forall|i: int| 0 <= i < count ==> #[trigger] indices.contains(i as i32),
    {
        lemma_index_range(0, count as int);
    }

    /// Wraps a text page that PDFium has loaded for the given page of the
    /// given document, whose bounds are `page_size`.
    pub fn from_pdfium(
        text_page_handle: FPDF_TEXTPAGE,
        document_handle: FPDF_DOCUMENT,
        page_handle: FPDF_PAGE,
        page_size: B::Rect,
        bindings: &'a B,
    ) -> (r: Self)
        ensures
            r.spec_text_page_handle() == text_page_handle,
            r.spec_document_handle() == document_handle,
            r.spec_page_handle() == page_handle,
            r.spec_page_size() == page_size,
            r.spec_bindings() == bindings,
    {
        PdfPageText { text_page_handle, document_handle, page_handle, page_size, bindings }
    }

    /// The PDFium handle of this text page.
    pub fn text_page_handle(&self) -> (r: FPDF_TEXTPAGE)
        ensures
            r == self.spec_text_page_handle(),
    {
        self.text_page_handle
    }

    /// The PDFium bindings used by this text page.
    pub fn bindings(&self) -> (r: &'a B)
        ensures
            r == self.spec_bindings(),
    {
        self.bindings
    }

    /// The total number of characters in all text segments of the page,
    /// whitespace and line breaks included, as PDFium counts them.
    pub fn len(&self) -> (r: i32)
        ensures
            self.spec_count_chars(r),
    {
        self.bindings.FPDFText_CountChars(self.text_page_handle)
    }

    /// Returns `true` if PDFium counts no characters on the page.
    pub fn is_empty(&self) -> (r: bool)
        ensures
            exists|count: i32| #[trigger] self.spec_count_chars(count) && r == (count == 0),
    {
        let count = self.len();
        count == 0
    }

    /// All the text segments of the page: those with characters in the
    /// range from index 0 spanning as many characters as PDFium counts.
    pub fn segments(&self) -> (r: PdfPageTextSegments)
        ensures
            r.spec_start() == 0,
            self.spec_count_chars(r.spec_count()),
            r.spec_text_page_handle() == self.spec_text_page_handle(),
    {
        PdfPageTextSegments::new(self.text_page_handle, 0, self.len())
    }

    /// The text segments with characters in the index range starting at
    /// `start` and spanning `count` characters.
    pub fn segments_subset(
        &self,
        start: PdfPageTextCharIndex,
        count: PdfPageTextCharIndex,
    ) -> (r: PdfPageTextSegments)
        ensures
            r.spec_start() == start as i32,
            r.spec_count() == count as i32,
            r.spec_text_page_handle() == self.spec_text_page_handle(),
    {
        PdfPageTextSegments::new(self.text_page_handle, start as i32, count as i32)
    }

    /// All the characters of the page: the indices from 0 up to the number
    /// of characters PDFium counts.
    pub fn chars(&self) -> (r: PdfPageTextChars)
        ensures
            exists|count: i32| #[trigger] self.spec_count_chars(count) && r@ == index_range(
                0,
                count as int,
            ),
            exists|count: i32| #[trigger]
                self.spec_count_chars(count) && r@.len() == (if count > 0 { count as int } else { 0 })
                    && forall|k: int| 0 <= k < r@.len() ==> #[trigger] r@[k] == k,
            r.spec_document_handle() == self.spec_document_handle(),
            r.spec_page_handle() == self.spec_page_handle(),
            r.spec_text_page_handle() == self.spec_text_page_handle(),
    {
        let count = self.len();
        let indices = collect_index_range(0, count);
        proof {
            lemma_index_range(0, count as int);
        }
        PdfPageTextChars::new(self.document_handle, self.page_handle, self.text_page_handle, indices)
    }

    /// True when `r` is what `chars_inside_rect` gives for `edges` on a page
    /// of `count` characters: when both edge characters were found and are
    /// characters of the page, every character from the left-edge one to the
    /// right-edge one, in order; otherwise `NoCharsInRect`.
    pub open spec fn spec_chars_inside(
        &self,
        edges: RectEdgeChars,
        count: i32,
        r: Result<PdfPageTextChars, PdfiumError>,
    ) -> bool {
        match page_edges(edges, count) {
            Some((start, end)) => r matches Ok(chars) && chars@ == edge_range(start, end)
                && chars@.len() == (if start <= end { end - start + 1 } else { 0 }) && (forall|
                k: int,
            |
                0 <= k < chars@.len() ==> #[trigger] chars@[k] == start + k && start + k < count)
                && chars.spec_document_handle() == self.spec_document_handle()
                && chars.spec_page_handle() == self.spec_page_handle()
                && chars.spec_text_page_handle() == self.spec_text_page_handle(),
            None => r == Err::<PdfPageTextChars, PdfiumError>(PdfiumError::NoCharsInRect),
        }
    }

    /// The characters between those found at the left and the right edge
    /// of a rectangle. PDFium is asked how many characters the page has;
    /// an edge character that was not found, or that is not one of them,
    /// gives `NoCharsInRect`.
    pub fn chars_inside_rect(&self, edges: RectEdgeChars) -> (r: Result<
        PdfPageTextChars,
        PdfiumError,
    >)
        ensures
            exists|count: i32| #[trigger]
                self.spec_count_chars(count) && self.spec_chars_inside(edges, count, r),
    {
        let count = self.len();
        match (edges.left, edges.right) {
            (Some(start), Some(end)) => {
                if count <= 0 || start >= count as usize || end >= count as usize {
                    return Err(PdfiumError::NoCharsInRect);
                }
                let indices = collect_edge_range(start, end);
                proof {
                    lemma_edge_range(start, end);
                }
                let chars = PdfPageTextChars::new(
                    self.document_handle,
                    self.page_handle,
                    self.text_page_handle,
                    indices,
                );
                assert forall|k: int| 0 <= k < chars@.len() implies #[trigger] chars@[k] == start
                    + k && start + k < count by {
                    assert(start + k <= end);
                }
                Ok(chars)
            },
            _ => Err(PdfiumError::NoCharsInRect),
        }
    }

    /// The characters of the page object `object`. When the object is not
    /// attached to this page (`object_page` is not this page's handle) the
    /// collection is empty. Otherwise `edges` is what was found at the edges
    /// of the object's bounds, or the error that reading the bounds gave,
    /// which is returned as it is; when no characters lie inside the bounds
    /// the result is `NoCharsInPageObject`. The characters inside the bounds
    /// include those of overlapping objects; PDFium is asked for the owner
    /// of each, and only those it assigns to `object` are kept.
    pub fn chars_for_object(
        &self,
        object: FPDF_PAGEOBJECT,
        object_page: Option<FPDF_PAGE>,
        edges: Result<RectEdgeChars, PdfiumError>,
    ) -> (r: Result<PdfPageTextChars, PdfiumError>)
        ensures
            r matches Ok(chars) ==> chars.spec_document_handle() == self.spec_document_handle()
                && chars.spec_page_handle() == self.spec_page_handle()
                && chars.spec_text_page_handle() == self.spec_text_page_handle(),
            object_page != Some(self.spec_page_handle()) ==> (r matches Ok(chars) && chars@.len()
                == 0),
            object_page == Some(self.spec_page_handle()) ==> match edges {
                Err(e) => r == Err::<PdfPageTextChars, PdfiumError>(e),
                Ok(e) => exists|count: i32| #[trigger]
                    self.spec_count_chars(count) && match page_edges(e, count) {
                    Some((start, end)) => r matches Ok(chars) && (exists|
                        owners: Seq<FPDF_PAGEOBJECT>,
                    |
                        owners.len() == edge_range(start, end).len() && (forall|j: int|
                            0 <= j < owners.len() ==> #[trigger] self.spec_text_object(
                                edge_range(start, end)[j],
                                owners[j],
                            )) && chars@ == #[trigger] chars_of_object(
                            edge_range(start, end),
                            owners,
                            object,
                        )),
                    None => r == Err::<PdfPageTextChars, PdfiumError>(
                        PdfiumError::NoCharsInPageObject,
                    ),
                },
            },
    {
        if !matches!(object_page, Some(page) if page == self.page_handle) {
            return Ok(
                PdfPageTextChars::new(
                    self.document_handle,
                    self.page_handle,
                    self.text_page_handle,
                    Vec::new(),
                ),
            );
        }
        let edges = match edges {
            Err(e) => {
                return Err(e);
            },
            Ok(e) => e,
        };
        let inside_result = self.chars_inside_rect(edges);
        let ghost count = choose|c: i32|
            #[trigger] self.spec_count_chars(c) && self.spec_chars_inside(edges, c, inside_result);
        let inside = match inside_result {
            Err(_) => {
                return Err(PdfiumError::NoCharsInPageObject);
            },
            Ok(chars) => chars,
        };
        let indices = inside.indices();
        let mut owners: Vec<FPDF_PAGEOBJECT> = Vec::new();
        let mut i: usize = 0;
        while i < indices.len()
            invariant
                i <= indices@.len(),
                owners@.len() == i,
                forall|j: int|
                    0 <= j < i ==> #[trigger] self.spec_text_object(indices@[j], owners@[j]),
            decreases indices@.len() - i,
        {
            let owner = self.bindings.FPDFText_GetTextObject(self.text_page_handle, indices[i]);
            owners.push(owner);
            i = i + 1;
        }
        let kept = select_chars_of_object(indices, &owners, object);
        Ok(
            PdfPageTextChars::new(
                self.document_handle,
                self.page_handle,
                self.text_page_handle,
                kept,
            ),
        )
    }

    /// The characters inside the bounds of an annotation. When the
    /// annotation is not attached to this page (`annotation_page` is not
    /// this page's handle) the collection is empty. Otherwise `edges` is
    /// what was found at the edges of its bounds, or the error that reading
    /// the bounds gave, which is returned as it is; when no characters lie
    /// inside the bounds the result is `NoCharsInAnnotation`.
    pub fn chars_for_annotation(
        &self,
        annotation_page: Option<FPDF_PAGE>,
        edges: Result<RectEdgeChars, PdfiumError>,
    ) -> (r: Result<PdfPageTextChars, PdfiumError>)
        ensures
            r matches Ok(chars) ==> chars.spec_document_handle() == self.spec_document_handle()
                && chars.spec_page_handle() == self.spec_page_handle()
                && chars.spec_text_page_handle() == self.spec_text_page_handle(),
            annotation_page != Some(self.spec_page_handle()) ==> (r matches Ok(chars)
                && chars@.len() == 0),
            annotation_page == Some(self.spec_page_handle()) ==> match edges {
                Err(e) => r == Err::<PdfPageTextChars, PdfiumError>(e),
                Ok(e) => exists|count: i32| #[trigger]
                    self.spec_count_chars(count) && match page_edges(e, count) {
                    Some((start, end)) => r matches Ok(chars) && chars@ == edge_range(start, end),
                    None => r == Err::<PdfPageTextChars, PdfiumError>(
                        PdfiumError::NoCharsInAnnotation,
                    ),
                },
            },
    {
        if !matches!(annotation_page, Some(page) if page == self.page_handle) {
            return Ok(
                PdfPageTextChars::new(
                    self.document_handle,
                    self.page_handle,
                    self.text_page_handle,
                    Vec::new(),
                ),
            );
        }
        match edges {
            Err(e) => Err(e),
            Ok(e) => {
                let inside_result = self.chars_inside_rect(e);
                let ghost count = choose|c: i32|
                    #[trigger] self.spec_count_chars(c) && self.spec_chars_inside(e, c, inside_result);
                match inside_result {
                    Ok(chars) => Ok(chars),
                    Err(_) => Err(PdfiumError::NoCharsInAnnotation),
                }
            },
        }
    }

    /// All the characters of the page, in the order in which the document
    /// defines them, as one string: the text inside the page's bounds.
    pub fn all(&self) -> (r: String)
        ensures
            self.spec_inside_rect(self.spec_page_size(), r@),
            no_trailing_nul(r@),
    {
        self.inside_rect(self.page_size)
    }

    /// All the characters inside `rect`, in the order in which the document
    /// defines them, as one string. PDFium is first asked how many code
    /// units the text needs; when none, the result is empty. Otherwise a
    /// buffer of that many words is filled and decoded. When PDFium then
    /// reports writing a different number of code units than it first gave,
    /// the result is empty: this function does not panic.
    pub fn inside_rect(&self, rect: B::Rect) -> (r: String)
        ensures
            self.spec_inside_rect(rect, r@),
            no_trailing_nul(r@),
    {
        let no_buffer: Vec<u16> = Vec::new();
        let ghost no_buffer_sent = no_buffer;
        let first = self.bindings.FPDFText_GetBoundedText(
            self.text_page_handle,
            &rect,
            no_buffer,
            0,
        );
        let chars_count = first.0;
        assert(call_ensures(
            B::FPDFText_GetBoundedText,
            (self.spec_bindings(), self.spec_text_page_handle(), &rect, no_buffer_sent, 0i32),
            first,
        ));
        let size = match bounded_text_buffer_len(chars_count) {
            None => {
                let r = String::new();
                assert(self.spec_inside_rect(rect, r@));
                return r;
            },
            Some(size) => size,
        };
        let buffer = create_sized_buffer(size);
        let ghost buffer_sent = buffer;
        let second = self.bindings.FPDFText_GetBoundedText(
            self.text_page_handle,
            &rect,
            buffer,
            chars_count,
        );
        assert(call_ensures(
            B::FPDFText_GetBoundedText,
            (self.spec_bindings(), self.spec_text_page_handle(), &rect, buffer_sent, first.0),
            second,
        ));
        let (result, filled) = second;
        let r = bounded_text_from_pdfium(chars_count, result, &filled);
        assert(bounded_text_result(first.0, second.0, second.1@, r@));
        assert(self.spec_inside_rect(rect, r@));
        r
    }

    /// All the characters of the text object `object`, as one string.
    /// PDFium is first asked how many bytes the text needs; when none, the
    /// result is empty. Otherwise a buffer of that many bytes is filled and
    /// decoded. When PDFium then reports a different length than it first
    /// gave, the result is empty: this function does not panic.
    pub fn for_object(&self, object: FPDF_PAGEOBJECT) -> (r: String)
        ensures
            self.spec_for_object(object, r@),
            no_trailing_nul(r@),
    {
        let no_buffer: Vec<u8> = Vec::new();
        let ghost no_buffer_sent = no_buffer;
        let first = self.bindings.FPDFTextObj_GetText(object, self.text_page_handle, no_buffer, 0);
        let buffer_length = first.0;
        assert(call_ensures(
            B::FPDFTextObj_GetText,
            (self.spec_bindings(), object, self.spec_text_page_handle(), no_buffer_sent, 0u64),
            first,
        ));
        let size = match object_text_buffer_len(buffer_length) {
            None => {
                let r = String::new();
                assert(self.spec_for_object(object, r@));
                return r;
            },
            Some(size) => size,
        };
        let buffer = create_byte_buffer(size);
        let ghost buffer_sent = buffer;
        let second = self.bindings.FPDFTextObj_GetText(
            object,
            self.text_page_handle,
            buffer,
            buffer_length,
        );
        assert(call_ensures(
            B::FPDFTextObj_GetText,
            (self.spec_bindings(), object, self.spec_text_page_handle(), buffer_sent, first.0),
            second,
        ));
        let (result, filled) = second;
        let r = object_text_from_pdfium(buffer_length, result, filled);
        assert(object_text_result(first.0, second.0, second.1@, r@));
        assert(self.spec_for_object(object, r@));
        r
    }

    /// All the characters inside the bounds of an annotation, as one
    /// string: the text inside those bounds. `bounds` is what reading the
    /// annotation's bounds gave; an error is returned as it is.
    pub fn for_annotation(&self, bounds: Result<B::Rect, PdfiumError>) -> (r: Result<
        String,
        PdfiumError,
    >)
        ensures
            bounds is Ok <==> r is Ok,
            bounds matches Err(e) ==> r == Err::<String, PdfiumError>(e),
            bounds matches Ok(rect) ==> (r matches Ok(text) && self.spec_inside_rect(rect, text@)
                && no_trailing_nul(text@)),
    {
        match bounds {
            Err(e) => Err(e),
            Ok(rect) => Ok(self.inside_rect(rect)),
        }
    }

    /// Starts a search for `text` from the first character.
    pub fn search(&self, text: &str, options: &PdfSearchOptions) -> (r: Result<
        PdfPageTextSearch,
        PdfiumError,
    >)
        ensures
            self.spec_search(text@, *options, 0, r),
            text@.len() == 0 ==> r == Err::<PdfPageTextSearch, PdfiumError>(
                PdfiumError::TextSearchTargetIsEmpty,
            ),
            text@.len() > 0 ==> (r matches Ok(s) && s.spec_text_page_handle()
                == self.spec_text_page_handle() && exists|findwhat: Vec<u8>|
                findwhat@ == pdfium_bytes(text@) && #[trigger] call_ensures(
                    B::FPDFText_FindStart,
                    (
                        self.spec_bindings(),
                        self.spec_text_page_handle(),
                        &findwhat,
                        options.spec_flags(),
                        0i32,
                    ),
                    s.spec_search_handle(),
                )),
    {
        self.search_from(text, options, 0)
    }

    /// Starts a search for `text` from the character at `index`; an empty
    /// `text` gives `TextSearchTargetIsEmpty`.
    pub fn search_from(
        &self,
        text: &str,
        options: &PdfSearchOptions,
        index: PdfPageTextCharIndex,
    ) -> (r: Result<PdfPageTextSearch, PdfiumError>)
        ensures
            self.spec_search(text@, *options, index, r),
            text@.len() == 0 ==> r == Err::<PdfPageTextSearch, PdfiumError>(
                PdfiumError::TextSearchTargetIsEmpty,
            ),
            text@.len() > 0 ==> (r matches Ok(s) && s.spec_text_page_handle()
                == self.spec_text_page_handle() && exists|findwhat: Vec<u8>|
                findwhat@ == pdfium_bytes(text@) && #[trigger] call_ensures(
                    B::FPDFText_FindStart,
                    (
                        self.spec_bindings(),
                        self.spec_text_page_handle(),
                        &findwhat,
                        options.spec_flags(),
                        index as i32,
                    ),
                    s.spec_search_handle(),
                )),
    {
        match search_request(text, options, index) {
            Err(e) => Err(e),
            Ok(request) => {
                let handle = self.bindings.FPDFText_FindStart(
                    self.text_page_handle,
                    &request.findwhat,
                    request.flags,
                    request.start_index,
                );
                assert(call_ensures(
                    B::FPDFText_FindStart,
                    (
                        self.spec_bindings(),
                        self.spec_text_page_handle(),
                        &request.findwhat,
                        options.spec_flags(),
                        index as i32,
                    ),
                    handle,
                ));
                Ok(PdfPageTextSearch::from_pdfium(handle, self.text_page_handle))
            },
        }
    }

    /// Releases the text page. Dropping a `PdfPageText` does not release it,
    /// so this is to be called once the text is no longer needed.
    pub fn close(self)
        ensures
            call_ensures(
                B::FPDFText_ClosePage,
                (self.spec_bindings(), self.spec_text_page_handle()),
                (),
            ),
    {
        self.bindings.FPDFText_ClosePage(self.text_page_handle)
    }
}

} // verus!
