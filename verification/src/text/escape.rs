//! Escaping of file names for the two places a listing puts them: inside an
//! HTML document and inside a URL.

use vstd::prelude::*;
use vstd::utf8::encode_utf8;

verus! {

/// A character that can open or close a tag or an attribute value.
pub open spec fn is_markup_char(c: char) -> bool {
    c == '<' || c == '>' || c == '"' || c == '\''
}

/// What stands for one character in HTML text: a character reference for the
/// four markup characters and for `&`, the character itself otherwise.
pub open spec fn html_escape_char(c: char) -> Seq<char> {
    if c == '&' {
        "&amp;"@
    } else if c == '<' {
        "&lt;"@
    } else if c == '>' {
        "&gt;"@
    } else if c == '"' {
        "&quot;"@
    } else if c == '\'' {
        "&#39;"@
    } else {
        seq![c]
    }
}

/// A text with every character replaced by what stands for it in HTML.
pub open spec fn html_escape(text: Seq<char>) -> Seq<char>
    decreases text.len(),
{
    if text.len() == 0 {
        Seq::empty()
    } else {
        html_escape(text.drop_last()) + html_escape_char(text.last())
    }
}

/// Escapes a text for use as HTML text or as a quoted attribute value.
pub fn escape_html(text: &str) -> (escaped: String)
    ensures
        escaped@ == html_escape(text@),
{
    let mut escaped = String::new();
    for c in it: text.chars()
        invariant
            it.seq() == text@,
            escaped@ == html_escape(text@.take(it.index() as int)),
    {
        assert(text@.take(it.index() + 1).drop_last() == text@.take(it.index() as int));
        if c == '&' {
            escaped.append("&amp;");
        } else if c == '<' {
            escaped.append("&lt;");
        } else if c == '>' {
            escaped.append("&gt;");
        } else if c == '"' {
            escaped.append("&quot;");
        } else if c == '\'' {
            escaped.append("&#39;");
        } else {
            escaped.push(c);
        }
    }
    assert(text@.take(text@.len() as int) == text@);
    escaped
}

/// No markup character is left in an escaped text.
pub proof fn lemma_html_escape_has_no_markup(text: Seq<char>)
    ensures
        forall|i: int|
            0 <= i < html_escape(text).len() ==> !is_markup_char(#[trigger] html_escape(text)[i]),
    decreases text.len(),
{
    if text.len() > 0 {
        lemma_html_escape_has_no_markup(text.drop_last());
        reveal_strlit("&amp;");
        reveal_strlit("&lt;");
        reveal_strlit("&gt;");
        reveal_strlit("&quot;");
        reveal_strlit("&#39;");
        let before = html_escape(text.drop_last());
        let last = html_escape_char(text.last());
        assert forall|i: int| 0 <= i < html_escape(text).len() implies !is_markup_char(
            #[trigger] html_escape(text)[i],
        ) by {
            if i < before.len() {
                assert(html_escape(text)[i] == before[i]);
            } else {
                assert(html_escape(text)[i] == last[i - before.len()]);
            }
        }
    }
}

/// A text without markup characters and without `&` is its own escaped form.
pub proof fn lemma_html_escape_of_plain(text: Seq<char>)
    requires
        forall|i: int|
            0 <= i < text.len() ==> !is_markup_char(#[trigger] text[i]) && text[i] != '&',
    ensures
        html_escape(text) == text,
    decreases text.len(),
{
    if text.len() > 0 {
        lemma_html_escape_of_plain(text.drop_last());
        assert(text.drop_last().push(text.last()) == text);
    }
}

/// A byte that a URL path may hold as it is: an ASCII letter or digit, or one
/// of `-`, `.`, `_` and `~`.
pub open spec fn is_unreserved(b: u8) -> bool {
    ||| 0x41 <= b <= 0x5a
    ||| 0x61 <= b <= 0x7a
    ||| 0x30 <= b <= 0x39
    ||| b == 0x2d
    ||| b == 0x2e
    ||| b == 0x5f
    ||| b == 0x7e
}

/// A byte that stays as it is in an encoded path: an unreserved byte, or the
/// separator `/`.
pub open spec fn stays_in_path(b: u8) -> bool {
    is_unreserved(b) || b == 0x2f
}

/// The upper-case hexadecimal digit for a value below sixteen.
pub open spec fn hex_digit(value: u8) -> char {
    if value < 10 {
        (0x30 + value) as char
    } else {
        (0x37 + value) as char
    }
}

/// What stands for one byte in an encoded path: the byte as a character, or
/// `%` and its two hexadecimal digits.
pub open spec fn percent_encode_byte(b: u8) -> Seq<char> {
    if stays_in_path(b) {
        seq![b as char]
    } else {
        seq!['%', hex_digit(b / 16), hex_digit(b % 16)]
    }
}

/// A sequence of bytes with each byte replaced by what stands for it in an
/// encoded path.
pub open spec fn percent_encode(bytes: Seq<u8>) -> Seq<char>
    decreases bytes.len(),
{
    if bytes.len() == 0 {
        Seq::empty()
    } else {
        percent_encode(bytes.drop_last()) + percent_encode_byte(bytes.last())
    }
}

/// The hexadecimal digit of a value below sixteen.
fn hex_digit_of(value: u8) -> (digit: char)
    requires
        value < 16,
    ensures
        digit == hex_digit(value),
{
    if value < 10 {
        (0x30 + value) as char
    } else {
        (0x37 + value) as char
    }
}

/// Whether a byte stays as it is in an encoded path.
fn keeps_byte(b: u8) -> (stays: bool)
    ensures
        stays == stays_in_path(b),
{
    (0x41 <= b && b <= 0x5a) || (0x61 <= b && b <= 0x7a) || (0x30 <= b && b <= 0x39) || b == 0x2d
        || b == 0x2e || b == 0x5f || b == 0x7e || b == 0x2f
}

/// Encodes the UTF-8 bytes of a path for use in a URL. The separator `/` and
/// the unreserved characters stay; every other byte becomes `%` and two
/// hexadecimal digits.
pub fn encode_path(path: &str) -> (encoded: String)
    ensures
        encoded@ == percent_encode(encode_utf8(path@)),
{
    let bytes = path.as_bytes();
    let mut encoded = String::new();
    let mut i: usize = 0;
    while i < bytes.len()
        invariant
            i <= bytes.len(),
            bytes@ == encode_utf8(path@),
            encoded@ == percent_encode(bytes@.take(i as int)),
        decreases bytes.len() - i,
    {
        let b = bytes[i];
        assert(bytes@.take(i + 1).drop_last() == bytes@.take(i as int));
        if keeps_byte(b) {
            encoded.push(b as char);
        } else {
            encoded.push('%');
            encoded.push(hex_digit_of(b / 16));
            encoded.push(hex_digit_of(b % 16));
        }
        i += 1;
    }
    assert(bytes@.take(bytes@.len() as int) == bytes@);
    encoded
}

/// An unreserved character: an ASCII letter or digit, or one of `-`, `.`, `_`
/// and `~`.
pub open spec fn is_unreserved_char(c: char) -> bool {
    ||| 'A' <= c && c <= 'Z'
    ||| 'a' <= c && c <= 'z'
    ||| '0' <= c && c <= '9'
    ||| c == '-'
    ||| c == '.'
    ||| c == '_'
    ||| c == '~'
}

/// A character that an encoded path is made of: `%`, the separator `/`, or an
/// unreserved character.
pub open spec fn is_path_char(c: char) -> bool {
    c == '%' || c == '/' || is_unreserved_char(c)
}

/// A hexadecimal digit in upper case.
pub open spec fn is_hex_digit(c: char) -> bool {
    ('0' <= c && c <= '9') || ('A' <= c && c <= 'F')
}

/// Every `%` in the text is followed by two hexadecimal digits.
pub open spec fn escapes_are_complete(text: Seq<char>) -> bool {
    forall|i: int|
        0 <= i < text.len() && #[trigger] text[i] == '%' ==> {
            &&& i + 2 < text.len()
            &&& is_hex_digit(text[i + 1])
            &&& is_hex_digit(text[i + 2])
        }
}

/// What stands for one byte is made of path characters, and where it begins
/// with `%` it is a complete escape.
proof fn lemma_percent_encode_byte_shape(b: u8)
    ensures
        forall|i: int|
            0 <= i < percent_encode_byte(b).len() ==> is_path_char(
                #[trigger] percent_encode_byte(b)[i],
            ),
        percent_encode_byte(b).len() == 1 || percent_encode_byte(b).len() == 3,
        percent_encode_byte(b).len() == 1 ==> percent_encode_byte(b)[0] != '%',
        percent_encode_byte(b).len() == 3 ==> {
            &&& percent_encode_byte(b)[0] == '%'
            &&& is_hex_digit(percent_encode_byte(b)[1])
            &&& is_hex_digit(percent_encode_byte(b)[2])
        },
{
    let hi = (b / 16) as u8;
    let lo = (b % 16) as u8;
    assert(hi < 16 && lo < 16);
    assert(is_hex_digit(hex_digit(hi)) && is_hex_digit(hex_digit(lo)));
    assert(is_path_char(hex_digit(hi)) && is_path_char(hex_digit(lo)));
    if stays_in_path(b) {
        assert((b as char) as u8 == b);
    }
}

/// An encoded path holds path characters only, and each `%` in it begins a
/// complete escape.
pub proof fn lemma_percent_encode_is_url_safe(bytes: Seq<u8>)
    ensures
        forall|i: int|
            0 <= i < percent_encode(bytes).len() ==> is_path_char(
                #[trigger] percent_encode(bytes)[i],
            ),
        escapes_are_complete(percent_encode(bytes)),
    decreases bytes.len(),
{
    if bytes.len() > 0 {
        lemma_percent_encode_is_url_safe(bytes.drop_last());
        lemma_percent_encode_byte_shape(bytes.last());
        let before = percent_encode(bytes.drop_last());
        let last = percent_encode_byte(bytes.last());
        let whole = percent_encode(bytes);
        assert forall|i: int| 0 <= i < whole.len() implies is_path_char(#[trigger] whole[i]) by {
            if i < before.len() {
                assert(whole[i] == before[i]);
            } else {
                assert(whole[i] == last[i - before.len()]);
            }
        }
        assert forall|i: int| 0 <= i < whole.len() && #[trigger] whole[i] == '%' implies {
            &&& i + 2 < whole.len()
            &&& is_hex_digit(whole[i + 1])
            &&& is_hex_digit(whole[i + 2])
        } by {
            if i < before.len() {
                assert(whole[i] == before[i]);
                assert(whole[i + 1] == before[i + 1]);
                assert(whole[i + 2] == before[i + 2]);
            } else {
                assert(whole[i] == last[i - before.len()]);
                assert(i == before.len());
                assert(whole[i + 1] == last[1]);
                assert(whole[i + 2] == last[2]);
            }
        }
    }
}

/// A text of unreserved characters and separators is its own encoded form.
pub proof fn lemma_percent_encode_of_plain(text: Seq<char>)
    requires
        forall|i: int| 0 <= i < text.len() ==> is_path_char(#[trigger] text[i]) && text[i] != '%',
    ensures
        percent_encode(encode_utf8(text)) == text,
{
    assert(vstd::utf8::is_ascii_chars(text)) by {
        assert forall|i: int| 0 <= i < text.len() implies '\0' <= #[trigger] text[i] && text[i]
            <= '\u{7f}' by {
            assert(is_path_char(text[i]));
        }
    }
    vstd::utf8::is_ascii_chars_encode_utf8(text);
    lemma_percent_encode_of_plain_bytes(text, text.len() as int);
    assert(text.take(text.len() as int) == text);
    assert(encode_utf8(text).take(text.len() as int) == encode_utf8(text));
}

/// The step of `lemma_percent_encode_of_plain`, for the first `n` bytes.
proof fn lemma_percent_encode_of_plain_bytes(text: Seq<char>, n: int)
    requires
        0 <= n <= text.len(),
        forall|i: int| 0 <= i < text.len() ==> is_path_char(#[trigger] text[i]) && text[i] != '%',
        encode_utf8(text).len() == text.len(),
        forall|i: int| 0 <= i < text.len() ==> text[i] as u8 == #[trigger] encode_utf8(text)[i],
    ensures
        percent_encode(encode_utf8(text).take(n)) == text.take(n),
    decreases n,
{
    let bytes = encode_utf8(text);
    if n > 0 {
        lemma_percent_encode_of_plain_bytes(text, n - 1);
        let c = text[n - 1];
        assert(is_path_char(c) && c != '%');
        assert(bytes.take(n).drop_last() == bytes.take(n - 1));
        assert(bytes.take(n).last() == bytes[n - 1]);
        assert(bytes[n - 1] == c as u8);
        assert(stays_in_path(c as u8));
        assert((c as u8) as char == c);
        assert(text.take(n - 1).push(c) == text.take(n));
    } else {
        assert(bytes.take(0) == Seq::<u8>::empty());
    }
}

/// The value of a hexadecimal digit in upper case.
pub open spec fn hex_value(c: char) -> int {
    if '0' <= c && c <= '9' {
        c as int - 0x30
    } else {
        c as int - 0x37
    }
}

/// The bytes that an encoded path stands for: each escape is the byte whose
/// two hexadecimal digits it holds, and every other character is itself.
pub open spec fn percent_decode(text: Seq<char>) -> Seq<u8>
    decreases text.len(),
{
    if text.len() == 0 {
        Seq::empty()
    } else if text[0] == '%' && text.len() >= 3 {
        seq![(hex_value(text[1]) * 16 + hex_value(text[2])) as u8] + percent_decode(text.skip(3))
    } else {
        seq![text[0] as u8] + percent_decode(text.skip(1))
    }
}

/// What stands for one byte decodes to that byte, before whatever follows.
proof fn lemma_percent_decode_byte(b: u8, rest: Seq<char>)
    ensures
        percent_decode(percent_encode_byte(b) + rest) == seq![b] + percent_decode(rest),
{
    let text = percent_encode_byte(b) + rest;
    if stays_in_path(b) {
        assert(text[0] == b as char);
        assert(text[0] != '%');
        assert(text.skip(1) == rest);
        assert((b as char) as u8 == b);
    } else {
        let hi = (b / 16) as u8;
        let lo = (b % 16) as u8;
        assert(text[0] == '%');
        assert(text[1] == hex_digit(hi));
        assert(text[2] == hex_digit(lo));
        assert(hex_value(hex_digit(hi)) == hi);
        assert(hex_value(hex_digit(lo)) == lo);
        assert(hi * 16 + lo == b);
        assert(text.skip(3) == rest);
    }
}

/// An encoded path decodes to the bytes it was made from, before whatever
/// follows.
proof fn lemma_percent_decode_before(bytes: Seq<u8>, rest: Seq<char>)
    ensures
        percent_decode(percent_encode(bytes) + rest) == bytes + percent_decode(rest),
    decreases bytes.len(),
{
    if bytes.len() == 0 {
        assert(percent_encode(bytes) + rest == rest);
        assert(bytes + percent_decode(rest) == percent_decode(rest));
    } else {
        let last = percent_encode_byte(bytes.last());
        lemma_percent_decode_before(bytes.drop_last(), last + rest);
        lemma_percent_decode_byte(bytes.last(), rest);
        assert(percent_encode(bytes) + rest == percent_encode(bytes.drop_last()) + (last + rest));
        assert(bytes.drop_last() + (seq![bytes.last()] + percent_decode(rest)) == bytes
            + percent_decode(rest));
    }
}

/// Encoding loses nothing: an encoded path decodes to the bytes it was made
/// from, so two paths that differ have links that differ.
pub proof fn lemma_percent_encode_round_trip(bytes: Seq<u8>)
    ensures
        percent_decode(percent_encode(bytes)) == bytes,
{
    lemma_percent_decode_before(bytes, Seq::empty());
    assert(percent_encode(bytes) + Seq::<char>::empty() == percent_encode(bytes));
    assert(percent_decode(Seq::<char>::empty()) == Seq::<u8>::empty());
    assert(bytes + Seq::<u8>::empty() == bytes);
}

} // verus!
