use pdfium_text::bindings::{
    PdfiumLibraryBindings, FPDF_PAGEOBJECT, FPDF_SCHHANDLE, FPDF_TEXTPAGE,
};
use pdfium_text::error::{PdfiumError, PdfiumInternalError};
use pdfium_text::search::PdfSearchOptions;
use pdfium_text::text::{char_index_from_pdfium, PdfPageText, RectEdgeChars};

#[derive(Clone, Copy, Debug)]
struct Rect {
    left: f64,
    bottom: f64,
    right: f64,
    top: f64,
}

impl Rect {
    fn width(&self) -> f64 {
        self.right - self.left
    }

    fn height(&self) -> f64 {
        self.top - self.bottom
    }
}

struct PlacedChar {
    ch: char,
    object: FPDF_PAGEOBJECT,
    bounds: Rect,
}

/// A page laid out the way PDFium lays out text objects set in a monospaced
/// font: each character is a box of the font's advance width.
struct FakePdfium {
    chars: Vec<PlacedChar>,
    objects: Vec<(FPDF_PAGEOBJECT, String)>,
}

impl FakePdfium {
    fn new() -> Self {
        FakePdfium { chars: Vec::new(), objects: Vec::new() }
    }

    fn create_text_object(&mut self, x: f64, y: f64, text: &str, font_size: f64) -> FPDF_PAGEOBJECT {
        let handle = 0x1000 + self.objects.len();
        let advance = font_size * 0.6;
        for (i, ch) in text.chars().enumerate() {
            let left = x + advance * i as f64;
            self.chars.push(PlacedChar {
                ch,
                object: handle,
                bounds: Rect { left, bottom: y, right: left + advance, top: y + font_size },
            });
        }
        self.objects.push((handle, text.to_string()));
        handle
    }

    fn object_bounds(&self, object: FPDF_PAGEOBJECT) -> Result<Rect, PdfiumError> {
        let boxes: Vec<&Rect> =
            self.chars.iter().filter(|c| c.object == object).map(|c| &c.bounds).collect();
        if boxes.is_empty() {
            return Err(PdfiumError::PdfiumLibraryInternalError(PdfiumInternalError::Unknown));
        }
        Ok(Rect {
            left: boxes.iter().map(|b| b.left).fold(f64::MAX, f64::min),
            bottom: boxes.iter().map(|b| b.bottom).fold(f64::MAX, f64::min),
            right: boxes.iter().map(|b| b.right).fold(f64::MIN, f64::max),
            top: boxes.iter().map(|b| b.top).fold(f64::MIN, f64::max),
        })
    }

    fn char_index_at_pos(&self, x: f64, y: f64, tolerance_x: f64, tolerance_y: f64) -> i32 {
        for (i, c) in self.chars.iter().enumerate() {
            let b = &c.bounds;
            let _ = tolerance_x;
            if x >= b.left && x <= b.right && y >= b.bottom - tolerance_y && y <= b.top + tolerance_y
            {
                return i as i32;
            }
        }
        -1
    }

    /// The characters nearest the left and right edges of `rect`, found as
    /// the page text API finds them.
    fn edges(&self, rect: Rect) -> RectEdgeChars {
        let tolerance_x = rect.width() / 2.0;
        let tolerance_y = rect.height() / 2.0;
        let center_height = rect.bottom + tolerance_y;
        RectEdgeChars {
            left: char_index_from_pdfium(
                self.char_index_at_pos(rect.left, center_height, tolerance_x, tolerance_y),
            ),
            right: char_index_from_pdfium(
                self.char_index_at_pos(rect.right, center_height, tolerance_x, tolerance_y),
            ),
        }
    }

    /// The page an object is attached to, if any.
    fn object_page(&self, object: FPDF_PAGEOBJECT) -> Option<usize> {
        self.objects.iter().find(|(h, _)| *h == object).map(|_| PAGE)
    }

    /// The object's own text, as the text object reports it.
    fn object_text(&self, object: FPDF_PAGEOBJECT) -> String {
        self.objects.iter().find(|(h, _)| *h == object).map(|(_, t)| t.clone()).unwrap_or_default()
    }

    fn unicode(&self, index: i32) -> Option<char> {
        self.chars.get(index as usize).map(|c| c.ch)
    }
}

fn utf16le(text: &str) -> Vec<u8> {
    text.encode_utf16().flat_map(|u| u.to_le_bytes()).collect()
}

impl PdfiumLibraryBindings for FakePdfium {
    type Rect = Rect;

    fn FPDFText_CountChars(&self, _text_page: FPDF_TEXTPAGE) -> i32 {
        self.chars.len() as i32
    }

    fn FPDFText_GetBoundedText(
        &self,
        _text_page: FPDF_TEXTPAGE,
        rect: &Rect,
        mut buffer: Vec<u16>,
        buflen: i32,
    ) -> (i32, Vec<u16>) {
        let text: String = self
            .chars
            .iter()
            .filter(|c| {
                c.bounds.left >= rect.left
                    && c.bounds.right <= rect.right
                    && c.bounds.bottom >= rect.bottom
                    && c.bounds.top <= rect.top
            })
            .map(|c| c.ch)
            .collect();
        let units: Vec<u16> = text.encode_utf16().collect();
        if buflen == 0 {
            return (units.len() as i32, buffer);
        }
        let n = units.len().min(buflen as usize).min(buffer.len());
        buffer[..n].copy_from_slice(&units[..n]);
        (n as i32, buffer)
    }

    fn FPDFText_GetTextObject(&self, _text_page: FPDF_TEXTPAGE, index: i32) -> FPDF_PAGEOBJECT {
        self.chars.get(index as usize).map(|c| c.object).unwrap_or(0)
    }

    fn FPDFTextObj_GetText(
        &self,
        text_object: FPDF_PAGEOBJECT,
        _text_page: FPDF_TEXTPAGE,
        mut buffer: Vec<u8>,
        length: u64,
    ) -> (u64, Vec<u8>) {
        let text = match self.objects.iter().find(|(h, _)| *h == text_object) {
            Some((_, t)) => t.clone(),
            None => return (0, buffer),
        };
        let mut bytes = utf16le(&text);
        bytes.push(0);
        bytes.push(0);
        if length as usize >= bytes.len() && buffer.len() >= bytes.len() {
            buffer[..bytes.len()].copy_from_slice(&bytes);
        }
        (bytes.len() as u64, buffer)
    }

    fn FPDFText_FindStart(
        &self,
        _text_page: FPDF_TEXTPAGE,
        _findwhat: &Vec<u8>,
        _flags: u64,
        _start_index: i32,
    ) -> FPDF_SCHHANDLE {
        0x5000
    }

    fn FPDFText_ClosePage(&self, _text_page: FPDF_TEXTPAGE) {}
}

const TEXT_PAGE: FPDF_TEXTPAGE = 0x10;
const PAGE: usize = 0x30;
const A4: Rect = Rect { left: 0.0, bottom: 0.0, right: 595.0, top: 842.0 };

fn page_text(pdfium: &FakePdfium) -> PdfPageText<'_, FakePdfium> {
    PdfPageText::from_pdfium(TEXT_PAGE, 0x20, PAGE, A4, pdfium)
}

fn test_one_overlapping_text_object_results(
    pdfium: &FakePdfium,
    object: FPDF_PAGEOBJECT,
    page_text: &PdfPageText<'_, FakePdfium>,
    expected: &str,
) -> Result<bool, PdfiumError> {
    assert_eq!(pdfium.object_text(object).trim(), expected);
    assert_eq!(page_text.for_object(object).trim(), expected);

    let chars = page_text.chars_for_object(
        object,
        pdfium.object_page(object),
        pdfium.object_bounds(object).map(|b| pdfium.edges(b)),
    )?;
    for (index, char) in chars.indices().iter().enumerate() {
        assert_eq!(pdfium.object_text(object).chars().nth(index), pdfium.unicode(*char));
        assert_eq!(expected.chars().nth(index), pdfium.unicode(*char));
    }

    Ok(true)
}

#[test]
fn test_overlapping_chars_results() -> Result<(), PdfiumError> {
    // Three overlapping text objects, all placed at the origin.
    let mut pdfium = FakePdfium::new();
    let txt1 = pdfium.create_text_object(0.0, 0.0, "AAAAAA", 10.0);
    let txt2 = pdfium.create_text_object(0.0, 0.0, "BBBBBB", 10.0);
    let txt3 = pdfium.create_text_object(0.0, 0.0, "CDCDCDE", 10.0);

    let page_text = page_text(&pdfium);

    assert!(test_one_overlapping_text_object_results(&pdfium, txt1, &page_text, "AAAAAA")?);
    assert!(test_one_overlapping_text_object_results(&pdfium, txt2, &page_text, "BBBBBB")?);
    assert!(test_one_overlapping_text_object_results(&pdfium, txt3, &page_text, "CDCDCDE")?);

    Ok(())
}

#[test]
fn chars_lists_every_index_of_the_page() {
    let mut pdfium = FakePdfium::new();
    pdfium.create_text_object(0.0, 0.0, "Hello", 10.0);
    let text = page_text(&pdfium);
    assert_eq!(text.len(), 5);
    assert!(!text.is_empty());
    assert_eq!(text.chars().indices(), &vec![0, 1, 2, 3, 4]);
}

#[test]
fn empty_page_has_no_chars() {
    let pdfium = FakePdfium::new();
    let text = page_text(&pdfium);
    assert_eq!(text.len(), 0);
    assert!(text.is_empty());
    assert!(text.chars().is_empty());
    assert_eq!(text.all(), "");
}

#[test]
fn all_reads_the_whole_page() {
    let mut pdfium = FakePdfium::new();
    pdfium.create_text_object(10.0, 10.0, "Grüße 𝄞!", 12.0);
    let text = page_text(&pdfium);
    assert_eq!(text.all(), "Grüße 𝄞!");
    assert_eq!(text.to_owned_string_of_rect(A4), "Grüße 𝄞!");
}

trait OwnedRectText {
    fn to_owned_string_of_rect(&self, rect: Rect) -> String;
}

impl OwnedRectText for PdfPageText<'_, FakePdfium> {
    fn to_owned_string_of_rect(&self, rect: Rect) -> String {
        self.inside_rect(rect)
    }
}

#[test]
fn inside_rect_reads_only_the_chars_inside() {
    let mut pdfium = FakePdfium::new();
    pdfium.create_text_object(0.0, 0.0, "abcdef", 10.0);
    let text = page_text(&pdfium);
    let rect = Rect { left: 0.0, bottom: 0.0, right: 18.0, top: 10.0 };
    assert_eq!(text.inside_rect(rect), "abc");
    let nowhere = Rect { left: 300.0, bottom: 300.0, right: 310.0, top: 310.0 };
    assert_eq!(text.inside_rect(nowhere), "");
}

#[test]
fn segments_cover_the_page_and_subsets_keep_their_range() {
    let mut pdfium = FakePdfium::new();
    pdfium.create_text_object(0.0, 0.0, "abc", 10.0);
    let text = page_text(&pdfium);
    let all = text.segments();
    assert_eq!((all.start(), all.count()), (0, 3));
    let some = text.segments_subset(1, 2);
    assert_eq!((some.start(), some.count()), (1, 2));
}

#[test]
fn chars_inside_rect_takes_every_char_between_the_edges() {
    let mut pdfium = FakePdfium::new();
    pdfium.create_text_object(0.0, 0.0, "abcdefghijkl", 10.0);
    let text = page_text(&pdfium);
    let chars = text
        .chars_inside_rect(RectEdgeChars { left: Some(6), right: Some(11) })
        .unwrap();
    assert_eq!(chars.indices(), &vec![6, 7, 8, 9, 10, 11]);
    let one = text.chars_inside_rect(RectEdgeChars { left: Some(3), right: Some(3) }).unwrap();
    assert_eq!(one.indices(), &vec![3]);
    let reversed = text.chars_inside_rect(RectEdgeChars { left: Some(5), right: Some(2) }).unwrap();
    assert!(reversed.is_empty());
}

#[test]
fn chars_inside_rect_without_an_edge_char_is_an_error() {
    let pdfium = FakePdfium::new();
    let text = page_text(&pdfium);
    assert_eq!(
        text.chars_inside_rect(RectEdgeChars { left: None, right: Some(2) }).err(),
        Some(PdfiumError::NoCharsInRect)
    );
    assert_eq!(
        text.chars_inside_rect(RectEdgeChars { left: Some(2), right: None }).err(),
        Some(PdfiumError::NoCharsInRect)
    );
}

#[test]
fn chars_for_annotation_maps_and_passes_errors() {
    let mut pdfium = FakePdfium::new();
    pdfium.create_text_object(0.0, 0.0, "abcd", 10.0);
    let text = page_text(&pdfium);
    let bounds_error = PdfiumError::PdfiumLibraryInternalError(PdfiumInternalError::Unknown);
    assert_eq!(text.chars_for_annotation(Some(PAGE), Err(bounds_error)).err(), Some(bounds_error));
    assert_eq!(
        text.chars_for_annotation(Some(PAGE), Ok(RectEdgeChars { left: None, right: None })).err(),
        Some(PdfiumError::NoCharsInAnnotation)
    );
    let chars =
        text.chars_for_annotation(Some(PAGE), Ok(RectEdgeChars { left: Some(1), right: Some(2) })).unwrap();
    assert_eq!(chars.indices(), &vec![1, 2]);
}

#[test]
fn chars_for_object_keeps_only_the_objects_chars() {
    let mut pdfium = FakePdfium::new();
    let a = pdfium.create_text_object(0.0, 0.0, "xy", 10.0);
    let b = pdfium.create_text_object(0.0, 0.0, "zw", 10.0);
    let text = page_text(&pdfium);
    let edges = RectEdgeChars { left: Some(0), right: Some(3) };
    assert_eq!(text.chars_for_object(a, Some(PAGE), Ok(edges)).unwrap().indices(), &vec![0, 1]);
    assert_eq!(text.chars_for_object(b, Some(PAGE), Ok(edges)).unwrap().indices(), &vec![2, 3]);
    assert_eq!(
        text.chars_for_object(a, Some(PAGE), Ok(RectEdgeChars { left: Some(0), right: None })).err(),
        Some(PdfiumError::NoCharsInPageObject)
    );
    let bounds_error = PdfiumError::PdfiumLibraryInternalError(PdfiumInternalError::Unknown);
    assert_eq!(text.chars_for_object(a, Some(PAGE), Err(bounds_error)).err(), Some(bounds_error));
}

#[test]
fn for_object_reads_the_objects_text() {
    let mut pdfium = FakePdfium::new();
    let a = pdfium.create_text_object(0.0, 0.0, "first", 10.0);
    let b = pdfium.create_text_object(0.0, 20.0, "zweite Ü", 10.0);
    let text = page_text(&pdfium);
    assert_eq!(text.for_object(a), "first");
    assert_eq!(text.for_object(b), "zweite Ü");
    assert_eq!(text.for_object(0xdead), "");
}

#[test]
fn for_annotation_reads_inside_the_bounds_or_passes_the_error() {
    let mut pdfium = FakePdfium::new();
    pdfium.create_text_object(0.0, 0.0, "abcdef", 10.0);
    let text = page_text(&pdfium);
    let bounds = Rect { left: 0.0, bottom: 0.0, right: 12.0, top: 10.0 };
    assert_eq!(text.for_annotation(Ok(bounds)), Ok("ab".to_string()));
    let bounds_error = PdfiumError::PdfiumLibraryInternalError(PdfiumInternalError::Unknown);
    assert_eq!(text.for_annotation(Err(bounds_error)), Err(bounds_error));
}

#[test]
fn searching_for_empty_text_is_an_error() {
    let pdfium = FakePdfium::new();
    let text = page_text(&pdfium);
    let options = PdfSearchOptions::new();
    assert_eq!(text.search("", &options).err(), Some(PdfiumError::TextSearchTargetIsEmpty));
    assert_eq!(
        text.search_from("", &options, 3).err(),
        Some(PdfiumError::TextSearchTargetIsEmpty)
    );
    let search = text.search("abc", &options).ok().unwrap();
    assert_eq!(search.search_handle(), 0x5000);
    assert_eq!(search.text_page_handle(), TEXT_PAGE);
}

#[test]
fn char_index_codes_from_pdfium() {
    assert_eq!(char_index_from_pdfium(-1), None);
    assert_eq!(char_index_from_pdfium(-3), None);
    assert_eq!(char_index_from_pdfium(0), Some(0));
    assert_eq!(char_index_from_pdfium(42), Some(42));
}

#[test]
fn bindings_and_handle_are_kept() {
    let pdfium = FakePdfium::new();
    let text = page_text(&pdfium);
    assert!(std::ptr::eq(text.bindings(), &pdfium));
    assert_eq!(text.text_page_handle(), TEXT_PAGE);
    text.close();
}

#[test]
fn text_never_ends_in_a_nul() {
    let mut pdfium = FakePdfium::new();
    let a = pdfium.create_text_object(0.0, 0.0, "ab\u{0}\u{0}", 10.0);
    let text = page_text(&pdfium);
    assert_eq!(text.all(), "ab");
    assert_eq!(text.for_object(a), "ab");
}

#[test]
fn detached_objects_and_annotations_have_no_chars() {
    let mut pdfium = FakePdfium::new();
    let a = pdfium.create_text_object(0.0, 0.0, "abc", 10.0);
    let text = page_text(&pdfium);
    let edges = RectEdgeChars { left: Some(0), right: Some(2) };
    assert!(text.chars_for_object(a, None, Ok(edges)).unwrap().is_empty());
    assert!(text.chars_for_object(a, Some(PAGE + 1), Ok(edges)).unwrap().is_empty());
    let bounds_error = PdfiumError::PdfiumLibraryInternalError(PdfiumInternalError::Unknown);
    assert!(text.chars_for_object(a, None, Err(bounds_error)).unwrap().is_empty());
    assert!(text.chars_for_annotation(None, Ok(edges)).unwrap().is_empty());
    assert!(text.chars_for_annotation(Some(PAGE + 1), Err(bounds_error)).unwrap().is_empty());
    assert_eq!(text.chars_for_annotation(Some(PAGE), Ok(edges)).unwrap().indices(), &vec![0, 1, 2]);
}

#[test]
fn chars_of_side_by_side_objects_match_their_text() {
    let mut pdfium = FakePdfium::new();
    let a = pdfium.create_text_object(0.0, 0.0, "left", 10.0);
    let b = pdfium.create_text_object(100.0, 0.0, "right", 10.0);
    let text = page_text(&pdfium);
    for (object, expected) in [(a, "left"), (b, "right")] {
        let edges = pdfium.object_bounds(object).map(|r| pdfium.edges(r));
        let chars = text.chars_for_object(object, pdfium.object_page(object), edges).unwrap();
        assert_eq!(chars.len(), expected.chars().count());
        let read: String = chars.indices().iter().map(|i| pdfium.unicode(*i).unwrap()).collect();
        assert_eq!(read, expected);
    }
}

#[test]
fn edge_chars_outside_the_page_are_an_error() {
    let mut pdfium = FakePdfium::new();
    pdfium.create_text_object(0.0, 0.0, "abc", 10.0);
    let text = page_text(&pdfium);
    assert_eq!(
        text.chars_inside_rect(RectEdgeChars { left: Some(0), right: Some(3) }).err(),
        Some(PdfiumError::NoCharsInRect)
    );
    // A code other than -1 and -3, such as -2, reads as an index far past the page.
    let far = char_index_from_pdfium(-2);
    assert_eq!(
        text.chars_inside_rect(RectEdgeChars { left: far, right: Some(2) }).err(),
        Some(PdfiumError::NoCharsInRect)
    );
    assert_eq!(
        text.chars_for_annotation(Some(PAGE), Ok(RectEdgeChars { left: Some(1), right: Some(7) })).err(),
        Some(PdfiumError::NoCharsInAnnotation)
    );
    assert_eq!(
        text.chars_inside_rect(RectEdgeChars { left: Some(0), right: Some(2) }).unwrap().indices(),
        &vec![0, 1, 2]
    );
}
