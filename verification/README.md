# pdfium_text

Page text for PDF documents, on top of the PDFium text API, with its logic
proved by Verus.

- `src/text.rs`: `PdfPageText`, the characters of one page, and the verified
  functions that turn PDFium's answers into results.
- `src/utf16le.rs`: the NUL-terminated UTF-16LE strings exchanged with PDFium,
  with proofs that what is encoded decodes back, for every string that does
  not end in a NUL character (a trailing NUL is taken for the terminator).
- `src/bindings.rs`: the PDFium functions that page text calls, as a trait.
- `src/chars.rs`, `src/segments.rs`, `src/search.rs`, `src/error.rs`,
  `src/mem.rs`: character collections, segments, searches, errors, buffers.
- `app/`: the parts that work on floating-point page coordinates, and
  `Display`.
