//! UTF-16LE encoding and decoding of the strings exchanged with PDFium.
//!
//! PDFium expects strings as NUL-terminated UTF-16LE byte sequences and hands
//! text back in the same form, often with one or more trailing NUL bytes.
use vstd::prelude::*;

verus! {

broadcast use {vstd::utf8::char_is_scalar, vstd::utf8::char_u32_cast};

/// True for a UTF-16 code unit that starts a surrogate pair.
pub open spec fn is_high_surrogate(u: u16) -> bool {
    0xD800 <= u <= 0xDBFF
}

/// True for a UTF-16 code unit that ends a surrogate pair.
pub open spec fn is_low_surrogate(u: u16) -> bool {
    0xDC00 <= u <= 0xDFFF
}

/// The UTF-16 code units of one Unicode scalar value.
pub open spec fn char_units(c: char) -> Seq<u16> {
    let v = c as u32;
    if v < 0x10000 {
        seq![v as u16]
    } else {
        let w = v - 0x10000;
        seq![(0xD800 + w / 0x400) as u16, (0xDC00 + w % 0x400) as u16]
    }
}

/// The UTF-16 encoding of a sequence of characters.
pub open spec fn encode_utf16(s: Seq<char>) -> Seq<u16>
    decreases s.len(),
{
    if s.len() == 0 {
        seq![]
    } else {
        char_units(s[0]) + encode_utf16(s.drop_first())
    }
}

/// The scalar value that a surrogate pair stands for.
pub open spec fn pair_value(hi: u16, lo: u16) -> int {
    0x10000 + (hi - 0xD800) * 0x400 + (lo - 0xDC00)
}

/// The character whose scalar value is `v`.
pub open spec fn scalar_char(v: int) -> char {
    (v as u32) as char
}

/// Strict UTF-16 decoding: `None` when a surrogate is unpaired.
pub open spec fn decode_utf16(units: Seq<u16>) -> Option<Seq<char>>
    decreases units.len(),
{
    if units.len() == 0 {
        Some(seq![])
    } else if !is_high_surrogate(units[0]) && !is_low_surrogate(units[0]) {
        match decode_utf16(units.drop_first()) {
            Some(rest) => Some(seq![scalar_char(units[0] as int)] + rest),
            None => None,
        }
    } else if is_high_surrogate(units[0]) && units.len() >= 2 && is_low_surrogate(units[1]) {
        match decode_utf16(units.subrange(2, units.len() as int)) {
            Some(rest) => Some(seq![scalar_char(pair_value(units[0], units[1]))] + rest),
            None => None,
        }
    } else {
        None
    }
}

/// The bytes of a sequence of 16-bit words, each word low byte first when
/// `little` holds and high byte first otherwise.
pub open spec fn word_bytes(words: Seq<u16>, little: bool) -> Seq<u8>
    decreases words.len(),
{
    if words.len() == 0 {
        seq![]
    } else {
        let w = words.last();
        let pair = if little {
            seq![(w % 256) as u8, (w / 256) as u8]
        } else {
            seq![(w / 256) as u8, (w % 256) as u8]
        };
        word_bytes(words.drop_last(), little) + pair
    }
}

/// The UTF-16LE bytes of a sequence of code units.
pub open spec fn le_bytes(units: Seq<u16>) -> Seq<u8> {
    word_bytes(units, true)
}

/// What PDFium is handed for a string: its UTF-16LE bytes and a NUL
/// terminator of two zero bytes.
pub open spec fn pdfium_bytes(s: Seq<char>) -> Seq<u8> {
    le_bytes(encode_utf16(s)) + seq![0u8, 0u8]
}

/// The bytes with every trailing zero byte removed.
pub open spec fn trim_trailing_nuls(b: Seq<u8>) -> Seq<u8>
    decreases b.len(),
{
    if b.len() > 0 && b.last() == 0 {
        trim_trailing_nuls(b.drop_last())
    } else {
        b
    }
}

/// The bytes with one zero byte appended when their count is odd.
pub open spec fn pad_to_even(b: Seq<u8>) -> Seq<u8> {
    if b.len() % 2 == 1 {
        b.push(0)
    } else {
        b
    }
}

/// The code units that little-endian byte pairs stand for; a last odd byte
/// is ignored.
pub open spec fn le_units(b: Seq<u8>) -> Seq<u16> {
    Seq::new(b.len() / 2, |i: int| (b[2 * i] + 256 * b[2 * i + 1]) as u16)
}

/// The string that a PDFium UTF-16LE byte buffer holds: trailing NUL bytes
/// are dropped, an odd count is padded with one zero byte, and the rest is
/// decoded strictly (`None` when it is not valid UTF-16).
pub open spec fn pdfium_string(b: Seq<u8>) -> Option<Seq<char>> {
    decode_utf16(le_units(pad_to_even(trim_trailing_nuls(b))))
}

/// The string a buffer holds, or the empty string when it holds none.
pub open spec fn pdfium_string_or_empty(b: Seq<u8>) -> Seq<char> {
    match pdfium_string(b) {
        Some(s) => s,
        None => seq![],
    }
}


proof fn lemma_encode_push(s: Seq<char>, c: char)
    ensures
        encode_utf16(s.push(c)) == encode_utf16(s) + char_units(c),
    decreases s.len(),
{
    if s.len() == 0 {
        assert(s.push(c).drop_first() =~= Seq::<char>::empty());
        assert(encode_utf16(s.push(c).drop_first()) =~= Seq::<u16>::empty());
        assert(encode_utf16(s) =~= Seq::<u16>::empty());
        assert(encode_utf16(s.push(c)) =~= char_units(c));
    } else {
        lemma_encode_push(s.drop_first(), c);
        assert(s.push(c).drop_first() =~= s.drop_first().push(c));
        assert(encode_utf16(s.push(c)) =~= encode_utf16(s) + char_units(c));
    }
}

/// Appends the UTF-16LE bytes of one character to `bytes`.
fn push_char_le(bytes: &mut Vec<u8>, c: char)
    ensures
        final(bytes)@ == old(bytes)@ + le_bytes(char_units(c)),
{
    let v = c as u32;
    if v < 0x10000 {
        let u = v as u16;
        bytes.push((u % 256) as u8);
        bytes.push((u / 256) as u8);
        proof {
            let us = char_units(c);
            assert(us.drop_last() =~= Seq::<u16>::empty());
            assert(word_bytes(us.drop_last(), true) =~= Seq::<u8>::empty());
            assert(le_bytes(us) =~= seq![(u % 256) as u8, (u / 256) as u8]);
        }
    } else {
        let w = v - 0x10000;
        let hi = (0xD800 + w / 0x400) as u16;
        let lo = (0xDC00 + w % 0x400) as u16;
        bytes.push((hi % 256) as u8);
        bytes.push((hi / 256) as u8);
        bytes.push((lo % 256) as u8);
        bytes.push((lo / 256) as u8);
        proof {
            let us = char_units(c);
            assert(us.drop_last() =~= seq![hi]);
            assert(us.drop_last().drop_last() =~= Seq::<u16>::empty());
            assert(word_bytes(us.drop_last().drop_last(), true) =~= Seq::<u8>::empty());
            assert(le_bytes(us.drop_last()) =~= seq![(hi % 256) as u8, (hi / 256) as u8]);
            assert(le_bytes(us) =~= seq![
                (hi % 256) as u8,
                (hi / 256) as u8,
                (lo % 256) as u8,
                (lo / 256) as u8,
            ]);
        }
    }
}

proof fn lemma_word_bytes_append(a: Seq<u16>, b: Seq<u16>, little: bool)
    ensures
        word_bytes(a + b, little) == word_bytes(a, little) + word_bytes(b, little),
    decreases b.len(),
{
    if b.len() == 0 {
        assert(a + b =~= a);
        assert(word_bytes(a, little) + word_bytes(b, little) =~= word_bytes(a, little));
    } else {
        lemma_word_bytes_append(a, b.drop_last(), little);
        assert((a + b).drop_last() =~= a + b.drop_last());
        assert((a + b).last() == b.last());
        let w = b.last();
        let pair = if little {
            seq![(w % 256) as u8, (w / 256) as u8]
        } else {
            seq![(w / 256) as u8, (w % 256) as u8]
        };
        assert(word_bytes(a + b, little) =~= word_bytes(a, little) + word_bytes(
            b.drop_last(),
            little,
        ) + pair);
        assert(word_bytes(a, little) + word_bytes(b, little) =~= word_bytes(a, little)
            + word_bytes(b.drop_last(), little) + pair);
    }
}

/// Encodes a string as PDFium expects it: UTF-16LE, followed by a two-byte
/// NUL terminator.
pub fn get_pdfium_utf16le_bytes_from_str(text: &str) -> (bytes: Vec<u8>)
    ensures
        bytes@ == pdfium_bytes(text@),
        bytes@.len() % 2 == 0,
        bytes@.len() >= 2,
{
    let mut bytes: Vec<u8> = Vec::new();
    let ghost chars = text@;
    for c in it: text.chars()
        invariant
            it.seq() == chars,
            bytes@ == le_bytes(encode_utf16(chars.take(it.index()))),
    {
        proof {
            assert(chars.take(it.index() + 1) =~= chars.take(it.index()).push(c));
            lemma_encode_push(chars.take(it.index()), c);
            lemma_word_bytes_append(encode_utf16(chars.take(it.index())), char_units(c), true);
        }
        push_char_le(&mut bytes, c);
    }
    assert(chars.take(chars.len() as int) =~= chars);
    bytes.push(0);
    bytes.push(0);
    proof {
        lemma_word_bytes_even(encode_utf16(chars));
    }
    bytes
}

proof fn lemma_word_bytes_even(words: Seq<u16>)
    ensures
        word_bytes(words, true).len() == 2 * words.len(),
        word_bytes(words, false).len() == 2 * words.len(),
    decreases words.len(),
{
    if words.len() > 0 {
        lemma_word_bytes_even(words.drop_last());
    }
}


/// True for a value that `char` can hold: a Unicode scalar value.
pub open spec fn is_scalar_value(v: u32) -> bool {
    v <= 0x10FFFF && !(0xD800 <= v <= 0xDFFF)
}

/// Calls `char::from_u32`, which std documents to return `None` exactly when
/// the value is not a Unicode scalar value, and otherwise the `char` of that
/// value.
#[verifier::external_body]
fn char_from_u32(v: u32) -> (r: Option<char>)
    ensures
        r is Some <==> is_scalar_value(v),
        r matches Some(c) ==> c as u32 == v,
{
    char::from_u32(v)
}

/// Calls `String::push`, which std documents to append the character at
/// the end of the string.
#[verifier::external_body]
fn string_push(s: &mut String, c: char)
    ensures
        final(s)@ == old(s)@.push(c),
{
    s.push(c)
}

/// The code unit at position `i` of the padded prefix `bytes[..end]`.
fn unit_at(bytes: &Vec<u8>, end: usize, i: usize) -> (u: u16)
    requires
        end <= bytes@.len(),
        i < (end + 1) / 2,
    ensures
        u == le_units(pad_to_even(bytes@.take(end as int)))[i as int],
        (end + 1) / 2 == le_units(pad_to_even(bytes@.take(end as int))).len(),
{
    let ghost t = bytes@.take(end as int);
    let ghost p = pad_to_even(t);
    assert(p.len() == 2 * ((end + 1) / 2));
    let lo = bytes[2 * i];
    if 2 * i + 1 < end {
        let hi = bytes[2 * i + 1];
        assert(p[2 * i + 1] == hi);
        lo as u16 + 256 * hi as u16
    } else {
        assert(p[2 * i + 1] == 0);
        lo as u16
    }
}

/// `acc` followed by the decoded rest, when the rest decodes.
pub open spec fn prepend(acc: Seq<char>, rest: Option<Seq<char>>) -> Option<Seq<char>> {
    match rest {
        Some(r) => Some(acc + r),
        None => None,
    }
}

proof fn lemma_trim_step(b: Seq<u8>, end: int)
    requires
        0 < end <= b.len(),
        b[end - 1] == 0,
    ensures
        trim_trailing_nuls(b.take(end)) == trim_trailing_nuls(b.take(end - 1)),
{
    assert(b.take(end).drop_last() =~= b.take(end - 1));
}

/// Decodes a UTF-16LE byte buffer returned by PDFium into a string. Trailing
/// NUL bytes are dropped, an odd byte count is padded with a zero byte, and
/// the result is `None` when the code units are not valid UTF-16.
pub fn get_string_from_pdfium_utf16le_bytes(bytes: Vec<u8>) -> (r: Option<String>)
    ensures
        match r {
            Some(s) => pdfium_string(bytes@) == Some(s@),
            None => pdfium_string(bytes@) is None,
        },
{
    let mut end = bytes.len();
    assert(bytes@.take(bytes@.len() as int) =~= bytes@);
    while end > 0 && bytes[end - 1] == 0
        invariant
            end <= bytes@.len(),
            trim_trailing_nuls(bytes@) == trim_trailing_nuls(bytes@.take(end as int)),
        decreases end,
    {
        proof {
            lemma_trim_step(bytes@, end as int);
        }
        end = end - 1;
    }
    assert(bytes@.take(bytes@.len() as int) =~= bytes@);
    assert(trim_trailing_nuls(bytes@) == bytes@.take(end as int));
    let ghost units = le_units(pad_to_even(bytes@.take(end as int)));
    let n = (end - end / 2);
    assert(n == (end + 1) / 2);
    let mut out = String::new();
    let mut i: usize = 0;
    assert(units.skip(0) =~= units);
    while i < n
        invariant
            end <= bytes@.len(),
            n == (end + 1) / 2,
            units == le_units(pad_to_even(bytes@.take(end as int))),
            units.len() == n,
            i <= n,
            pdfium_string(bytes@) == decode_utf16(units),
            decode_utf16(units) == prepend(out@, decode_utf16(units.skip(i as int))),
        decreases n - i,
    {
        let u = unit_at(&bytes, end, i);
        assert(units.skip(i as int)[0] == u);
        if u < 0xD800 || u > 0xDFFF {
            match char_from_u32(u as u32) {
                Some(c) => {
                    proof {
                        assert(units.skip(i as int).drop_first() =~= units.skip(i + 1));
                        vstd::utf8::char_u32_cast(c, c as u32);
                        assert((u as int) as u32 == c as u32);
                        assert(c == scalar_char(u as int));
                        assert(out@.push(c) =~= out@ + seq![c]);
                        match decode_utf16(units.skip(i + 1)) {
                            Some(rest) => {
                                assert(out@ + (seq![c] + rest) =~= out@.push(c) + rest);
                            },
                            None => {},
                        }
                    }
                    string_push(&mut out, c);
                    i = i + 1;
                },
                None => {
                    return None;
                },
            }
        } else if u <= 0xDBFF && i + 1 < n {
            let v = unit_at(&bytes, end, i + 1);
            assert(units.skip(i as int)[1] == v);
            if 0xDC00 <= v && v <= 0xDFFF {
                let value: u32 = 0x10000 + ((u - 0xD800) as u32) * 0x400 + ((v - 0xDC00) as u32);
                match char_from_u32(value) {
                    Some(c) => {
                        proof {
                            assert(units.skip(i as int).subrange(2, units.skip(i as int).len() as int)
                                =~= units.skip(i + 2));
                            vstd::utf8::char_u32_cast(c, c as u32);
                            assert(pair_value(u, v) as u32 == c as u32);
                            assert(c == scalar_char(pair_value(u, v)));
                            assert(out@.push(c) =~= out@ + seq![c]);
                            match decode_utf16(units.skip(i + 2)) {
                                Some(rest) => {
                                    assert(out@ + (seq![c] + rest) =~= out@.push(c) + rest);
                                },
                                None => {},
                            }
                        }
                        string_push(&mut out, c);
                        i = i + 2;
                    },
                    None => {
                        return None;
                    },
                }
            } else {
                return None;
            }
        } else {
            return None;
        }
    }
    assert(units.skip(n as int) =~= Seq::<u16>::empty());
    assert(out@ + Seq::<char>::empty() =~= out@);
    Some(out)
}


/// Decoding the UTF-16 encoding of any string gives that string back.
pub proof fn lemma_decode_encode_utf16(s: Seq<char>)
    ensures
        decode_utf16(encode_utf16(s)) == Some(s),
    decreases s.len(),
{
    if s.len() > 0 {
        let c = s[0];
        let v = c as u32;
        let rest = s.drop_first();
        let e = encode_utf16(s);
        lemma_decode_encode_utf16(rest);
        vstd::utf8::char_u32_cast(c, v);
        assert(s =~= seq![c] + rest);
        if v < 0x10000 {
            assert(e.drop_first() =~= encode_utf16(rest));
            assert(e[0] == v as u16);
            assert((e[0] as int) as u32 == v);
        } else {
            let w = v - 0x10000;
            let hi = (0xD800 + w / 0x400) as u16;
            let lo = (0xDC00 + w % 0x400) as u16;
            assert(e[0] == hi && e[1] == lo);
            assert(e.subrange(2, e.len() as int) =~= encode_utf16(rest));
            assert(pair_value(hi, lo) == v);
        }
    } else {
        assert(encode_utf16(s) =~= Seq::<u16>::empty());
        assert(s =~= Seq::<char>::empty());
    }
}

proof fn lemma_word_bytes_index(words: Seq<u16>, i: int)
    requires
        0 <= i < words.len(),
    ensures
        word_bytes(words, true).len() == 2 * words.len(),
        word_bytes(words, true)[2 * i] == words[i] % 256,
        word_bytes(words, true)[2 * i + 1] == words[i] / 256,
    decreases words.len(),
{
    lemma_word_bytes_even(words);
    lemma_word_bytes_even(words.drop_last());
    if i < words.len() - 1 {
        lemma_word_bytes_index(words.drop_last(), i);
    }
}

/// Reading back the little-endian bytes of code units gives the code units.
pub proof fn lemma_le_units_le_bytes(units: Seq<u16>)
    ensures
        le_units(le_bytes(units)) == units,
{
    lemma_word_bytes_even(units);
    let b = le_bytes(units);
    assert forall|i: int| 0 <= i < units.len() implies #[trigger] le_units(b)[i] == units[i] by {
        lemma_word_bytes_index(units, i);
    }
    assert(le_units(b) =~= units);
}

proof fn lemma_trim_push_zero(b: Seq<u8>)
    ensures
        trim_trailing_nuls(b.push(0)) == trim_trailing_nuls(b),
{
    assert(b.push(0).drop_last() =~= b);
}

/// Trailing NUL bytes do not change the string a buffer holds.
pub proof fn lemma_pdfium_string_ignores_trailing_nul(b: Seq<u8>)
    ensures
        pdfium_string(b.push(0)) == pdfium_string(b),
{
    lemma_trim_push_zero(b);
}

/// The string that PDFium is handed for `s` reads back as `s`, provided
/// that `s` does not itself end in a NUL character (which is taken for
/// the terminator).
pub proof fn lemma_pdfium_string_roundtrip(s: Seq<char>)
    requires
        s.len() == 0 || s.last() != '\0',
    ensures
        pdfium_string(pdfium_bytes(s)) == Some(s),
{
    let units = encode_utf16(s);
    let b = le_bytes(units);
    lemma_word_bytes_even(units);
    assert(pdfium_bytes(s) =~= b.push(0).push(0));
    lemma_trim_push_zero(b.push(0));
    lemma_trim_push_zero(b);
    lemma_decode_encode_utf16(s);
    lemma_le_units_le_bytes(units);
    if s.len() == 0 {
        assert(units =~= Seq::<u16>::empty());
        assert(b =~= Seq::<u8>::empty());
    } else {
        lemma_encode_last(s);
        let u = units.last();
        assert(u != 0);
        assert(b.last() == u / 256);
        assert(b[b.len() - 2] == u % 256);
        if u / 256 == 0 {
            assert(u % 256 != 0);
            assert(b.drop_last().last() == u % 256);
            assert(trim_trailing_nuls(b) == trim_trailing_nuls(b.drop_last()));
            assert(trim_trailing_nuls(b.drop_last()) == b.drop_last());
            assert(b.drop_last().push(0) =~= b);
        } else {
            assert(trim_trailing_nuls(b) == b);
        }
    }
}

proof fn lemma_encode_last(s: Seq<char>)
    requires
        s.len() > 0,
        s.last() != '\0',
    ensures
        encode_utf16(s).len() > 0,
        encode_utf16(s).last() != 0,
        le_bytes(encode_utf16(s)).len() == 2 * encode_utf16(s).len(),
        le_bytes(encode_utf16(s)).last() == encode_utf16(s).last() / 256,
        le_bytes(encode_utf16(s))[le_bytes(encode_utf16(s)).len() - 2] == encode_utf16(s).last()
            % 256,
{
    let c = s.last();
    let v = c as u32;
    lemma_encode_push(s.drop_last(), c);
    assert(s.drop_last().push(c) =~= s);
    let units = encode_utf16(s);
    lemma_word_bytes_even(units);
    lemma_word_bytes_index(units, units.len() - 1);
    if v == 0 {
        vstd::utf8::char_u32_cast(c, v);
        vstd::utf8::char_u32_cast('\0', 0);
    }
}



/// True when the executing machine stores a 16-bit word low byte first,
/// as vstd's `endianness()` names the machine's byte order.
pub open spec fn target_is_little_endian() -> bool {
    vstd::endian::endianness() == vstd::endian::Endian::Little
}

/// The text that a buffer of 16-bit words holds, each word read in the
/// given byte order, or the empty string when it holds none.
pub open spec fn words_text(words: Seq<u16>, little: bool) -> Seq<char> {
    pdfium_string_or_empty(word_bytes(words, little))
}

/// True of a string that does not end in a NUL character.
pub open spec fn no_trailing_nul(s: Seq<char>) -> bool {
    s.len() == 0 || s.last() != '\0'
}

proof fn lemma_trim_shape(b: Seq<u8>)
    ensures
        trim_trailing_nuls(b).len() == 0 || trim_trailing_nuls(b).last() != 0,
    decreases b.len(),
{
    if b.len() > 0 && b.last() == 0 {
        lemma_trim_shape(b.drop_last());
    }
}

proof fn lemma_decode_length(units: Seq<u16>)
    ensures
        decode_utf16(units) matches Some(s) ==> (s.len() == 0 <==> units.len() == 0),
    decreases units.len(),
{
    if units.len() > 0 {
        lemma_decode_length(units.drop_first());
        if units.len() >= 2 {
            lemma_decode_length(units.subrange(2, units.len() as int));
        }
    }
}

proof fn lemma_decode_last(units: Seq<u16>)
    requires
        units.len() > 0,
        units.last() != 0,
    ensures
        decode_utf16(units) matches Some(s) ==> s.len() > 0 && s.last() != '\0',
    decreases units.len(),
{
    if let Some(s) = decode_utf16(units) {
        let u = units[0];
        if !is_high_surrogate(u) && !is_low_surrogate(u) {
            let rest = units.drop_first();
            let rs = decode_utf16(rest).unwrap();
            assert(s == seq![scalar_char(u as int)] + rs);
            if rest.len() == 0 {
                assert(u == units.last());
                assert(((u as int) as u32) as char != '\0');
            } else {
                assert(rest.last() == units.last());
                lemma_decode_last(rest);
                assert(s.last() == rs.last());
            }
        } else {
            let rest = units.subrange(2, units.len() as int);
            let rs = decode_utf16(rest).unwrap();
            assert(s == seq![scalar_char(pair_value(u, units[1]))] + rs);
            if rest.len() == 0 {
                assert(pair_value(u, units[1]) as u32 as char != '\0');
            } else {
                assert(rest.last() == units.last());
                lemma_decode_last(rest);
                assert(s.last() == rs.last());
            }
        }
    }
}

/// A string read from a PDFium buffer never ends in a NUL character: the
/// terminator, and any NULs before it, are dropped.
pub proof fn lemma_pdfium_string_no_trailing_nul(b: Seq<u8>)
    ensures
        pdfium_string(b) matches Some(s) ==> no_trailing_nul(s),
        no_trailing_nul(pdfium_string_or_empty(b)),
{
    let t = trim_trailing_nuls(b);
    lemma_trim_shape(b);
    let p = pad_to_even(t);
    let units = le_units(p);
    if t.len() > 0 {
        let n = units.len();
        assert(n > 0);
        if t.len() % 2 == 1 {
            assert(p[2 * (n - 1)] == t.last());
            assert(p[2 * (n - 1) + 1] == 0);
        } else {
            assert(p[2 * (n - 1) + 1] == t.last());
        }
        assert(units.last() != 0);
        lemma_decode_last(units);
    } else {
        assert(units.len() == 0);
        lemma_decode_length(units);
    }
}



/// A buffer of UTF-16 code units read as little-endian bytes holds the
/// string that the code units encode, when that string does not end in a
/// NUL character; and the bytes of a string with its terminator hold the
/// same text as the bytes without it.
pub proof fn lemma_words_text_utf16(s: Seq<char>)
    requires
        no_trailing_nul(s),
    ensures
        words_text(encode_utf16(s), true) == s,
        pdfium_string(le_bytes(encode_utf16(s))) == Some(s),
{
    let b = le_bytes(encode_utf16(s));
    lemma_pdfium_string_roundtrip(s);
    assert(pdfium_bytes(s) =~= b.push(0).push(0));
    lemma_pdfium_string_ignores_trailing_nul(b.push(0));
    lemma_pdfium_string_ignores_trailing_nul(b);
}

} // verus!
