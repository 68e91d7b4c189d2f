//! Encodings of bytes as text: Base64, percent-encoding, UTF-8 and letter case.

use base64::engine::general_purpose::{STANDARD, URL_SAFE_NO_PAD};
use base64::Engine;
use crate::text::{replace_char, replaced};
use vstd::prelude::*;
use vstd::utf8::{decode_utf8, encode_utf8, is_ascii_chars, valid_utf8};

verus! {

// ---------------------------------------------------------------------------
// Base64
// ---------------------------------------------------------------------------

/// The character for a six-bit number, in the standard alphabet or in the one for URLs.
pub open spec fn sextet(n: int, url: bool) -> char {
    if n < 26 {
        (65 + n) as char
    } else if n < 52 {
        (71 + n) as char
    } else if n < 62 {
        (n - 4) as char
    } else if n == 62 {
        if url {
            '-'
        } else {
            '+'
        }
    } else {
        if url {
            '_'
        } else {
            '/'
        }
    }
}

/// Bytes in Base64: in the standard alphabet with padding, or in the one for URLs without.
pub open spec fn base64_text(b: Seq<u8>, url: bool) -> Seq<char>
    decreases b.len(),
{
    if b.len() == 0 {
        Seq::empty()
    } else if b.len() == 1 {
        seq![sextet(b[0] as int / 4, url), sextet(b[0] as int % 4 * 16, url)] + padding(2, url)
    } else if b.len() == 2 {
        seq![
            sextet(b[0] as int / 4, url),
            sextet(b[0] as int % 4 * 16 + b[1] as int / 16, url),
            sextet(b[1] as int % 16 * 4, url),
        ] + padding(1, url)
    } else {
        seq![
            sextet(b[0] as int / 4, url),
            sextet(b[0] as int % 4 * 16 + b[1] as int / 16, url),
            sextet(b[1] as int % 16 * 4 + b[2] as int / 64, url),
            sextet(b[2] as int % 64, url),
        ] + base64_text(b.skip(3), url)
    }
}

/// The padding that fills up a last group of `n` missing characters.
pub open spec fn padding(n: nat, url: bool) -> Seq<char> {
    if url {
        Seq::empty()
    } else {
        Seq::new(n, |i: int| '=')
    }
}

/// What the error of `STANDARD.decode` of the crate base64 says of a text that it refuses.
pub uninterp spec fn standard_decode_error(text: Seq<char>) -> Seq<char>;

/// `Engine::decode` of the crate base64, on the engine `STANDARD`. That engine requires canonical
/// padding and refuses bits left over behind the last byte, so a text is accepted exactly where it
/// is the padded standard Base64 of some bytes, and those are the result. Of a refusal the text of
/// the error is handed on; it is a function of the input.
#[verifier::external_body]
pub(crate) fn standard_decode(text: &str) -> (r: Result<Vec<u8>, String>)
    ensures
        match r {
            Ok(b) => text@ == base64_text(b@, false),
            Err(m) => {
                &&& forall|b: Seq<u8>| text@ != #[trigger] base64_text(b, false)
                &&& m@ == standard_decode_error(text@)
            },
        },
{
    match STANDARD.decode(text) {
        Ok(bytes) => Ok(bytes),
        Err(e) => Err(e.to_string()),
    }
}

/// `Engine::decode` of the crate base64, on the engine `URL_SAFE_NO_PAD`. That engine refuses
/// padding and bits left over behind the last byte, so a text is accepted exactly where it is the
/// unpadded URL-safe Base64 of some bytes, and those are the result.
#[verifier::external_body]
pub(crate) fn url_safe_decode(text: &str) -> (r: Option<Vec<u8>>)
    ensures
        match r {
            Some(b) => text@ == base64_text(b@, true),
            None => forall|b: Seq<u8>| text@ != #[trigger] base64_text(b, true),
        },
{
    match URL_SAFE_NO_PAD.decode(text) {
        Ok(bytes) => Some(bytes),
        Err(_) => None,
    }
}

proof fn lemma_sextet(m: int, n: int, url: bool)
    requires
        0 <= m < 64,
        0 <= n < 64,
    ensures
        sextet(m, url) == sextet(n, url) ==> m == n,
        sextet(m, url) != '=',
{
}

/// The characters for the first bytes.
proof fn lemma_first_group(a: Seq<u8>, url: bool)
    requires
        a.len() > 0,
    ensures
        base64_text(a, url)[0] == sextet(a[0] as int / 4, url),
        a.len() == 1 ==> base64_text(a, url)[1] == sextet(a[0] as int % 4 * 16, url),
        a.len() >= 2 ==> base64_text(a, url)[1] == sextet(
            a[0] as int % 4 * 16 + a[1] as int / 16,
            url,
        ),
        a.len() == 2 ==> base64_text(a, url)[2] == sextet(a[1] as int % 16 * 4, url),
        a.len() >= 3 ==> base64_text(a, url)[2] == sextet(
            a[1] as int % 16 * 4 + a[2] as int / 64,
            url,
        ),
        a.len() >= 3 ==> base64_text(a, url)[3] == sextet(a[2] as int % 64, url),
        a.len() >= 3 ==> base64_text(a, url).skip(4) == base64_text(a.skip(3), url),
{
    if a.len() >= 3 {
        assert(base64_text(a, url).skip(4) =~= base64_text(a.skip(3), url));
    }
}

proof fn lemma_cut_4(x: int, y: int, p: int, q: int)
    requires
        x / 4 == y / 4,
        0 <= p < 16,
        0 <= q < 16,
        x % 4 * 16 + p == y % 4 * 16 + q,
    ensures
        x == y,
        p == q,
{
}

proof fn lemma_cut_16(x: int, y: int, p: int, q: int)
    requires
        x / 16 == y / 16,
        0 <= p < 4,
        0 <= q < 4,
        x % 16 * 4 + p == y % 16 * 4 + q,
    ensures
        x == y,
        p == q,
{
}

/// Different bytes have different Base64 texts.
pub proof fn law_base64_text_is_unique(a: Seq<u8>, b: Seq<u8>, url: bool)
    requires
        base64_text(a, url) == base64_text(b, url),
    ensures
        a == b,
    decreases a.len(),
{
    let s = base64_text(a, url);
    let t = base64_text(b, url);
    if a.len() == 0 || b.len() == 0 {
        assert(a.len() > 0 ==> s.len() > 0);
        assert(b.len() > 0 ==> t.len() > 0);
        assert(a =~= b);
    } else if a.len() != b.len() && (a.len() < 3 || b.len() < 3) {
        lemma_group_ends(a, b, url);
    } else {
        let (a0, b0) = (a[0] as int, b[0] as int);
        lemma_first_group(a, url);
        lemma_first_group(b, url);
        lemma_sextet(a0 / 4, b0 / 4, url);
        if a.len() == 1 {
            lemma_sextet(a0 % 4 * 16, b0 % 4 * 16, url);
            lemma_cut_4(a0, b0, 0, 0);
            assert(a =~= b);
        } else {
            let (a1, b1) = (a[1] as int, b[1] as int);
            lemma_sextet(a0 % 4 * 16 + a1 / 16, b0 % 4 * 16 + b1 / 16, url);
            lemma_cut_4(a0, b0, a1 / 16, b1 / 16);
            if a.len() == 2 {
                lemma_sextet(a1 % 16 * 4, b1 % 16 * 4, url);
                lemma_cut_16(a1, b1, 0, 0);
                assert(a =~= b);
            } else {
                let (a2, b2) = (a[2] as int, b[2] as int);
                lemma_sextet(a1 % 16 * 4 + a2 / 64, b1 % 16 * 4 + b2 / 64, url);
                lemma_cut_16(a1, b1, a2 / 64, b2 / 64);
                lemma_sextet(a2 % 64, b2 % 64, url);
                law_base64_text_is_unique(a.skip(3), b.skip(3), url);
                assert(a =~= seq![a[0], a[1], a[2]] + a.skip(3));
                assert(b =~= seq![b[0], b[1], b[2]] + b.skip(3));
            }
        }
    }
}

/// Texts of bytes that differ in how far their first group is filled differ.
proof fn lemma_group_ends(a: Seq<u8>, b: Seq<u8>, url: bool)
    requires
        a.len() > 0,
        b.len() > 0,
        a.len() < 3 || b.len() < 3,
        a.len() != b.len(),
    ensures
        base64_text(a, url) != base64_text(b, url),
{
    let s = base64_text(a, url);
    let t = base64_text(b, url);
    if !url {
        lemma_filled(a);
        lemma_filled(b);
        if s == t {
            assert(s[2] == t[2]);
            assert(s[3] == t[3]);
        }
    }
}

proof fn lemma_filled(a: Seq<u8>)
    requires
        a.len() > 0,
    ensures
        base64_text(a, false).len() >= 4,
        base64_text(a, false)[2] == '=' <==> a.len() == 1,
        base64_text(a, false)[3] == '=' <==> a.len() <= 2,
{
    if a.len() == 2 {
        lemma_sextet(a[1] as int % 16 * 4, 0, false);
    } else if a.len() > 2 {
        lemma_sextet(a[1] as int % 16 * 4 + a[2] as int / 64, 0, false);
        lemma_sextet(a[2] as int % 64, 0, false);
    }
}

/// Base64 text in the standard alphabet holds neither `-` nor `_`.
pub proof fn lemma_standard_lacks(b: Seq<u8>)
    ensures
        forall|i: int|
            0 <= i < base64_text(b, false).len() ==> #[trigger] base64_text(b, false)[i] != '-'
                && base64_text(b, false)[i] != '_',
    decreases b.len(),
{
    if b.len() >= 3 {
        lemma_standard_lacks(b.skip(3));
        let rest = base64_text(b.skip(3), false);
        assert forall|i: int| 0 <= i < base64_text(b, false).len() implies #[trigger] base64_text(
            b,
            false,
        )[i] != '-' && base64_text(b, false)[i] != '_' by {
            if i >= 4 {
                assert(base64_text(b, false)[i] == rest[i - 4]);
            }
        }
    }
}

/// Base64 text in the alphabet for URLs holds neither `+` nor `/`.
pub proof fn lemma_url_safe_lacks(b: Seq<u8>)
    ensures
        forall|i: int|
            0 <= i < base64_text(b, true).len() ==> #[trigger] base64_text(b, true)[i] != '+'
                && base64_text(b, true)[i] != '/',
    decreases b.len(),
{
    if b.len() >= 3 {
        lemma_url_safe_lacks(b.skip(3));
        let rest = base64_text(b.skip(3), true);
        assert forall|i: int| 0 <= i < base64_text(b, true).len() implies #[trigger] base64_text(
            b,
            true,
        )[i] != '+' && base64_text(b, true)[i] != '/' by {
            if i >= 4 {
                assert(base64_text(b, true)[i] == rest[i - 4]);
            }
        }
    }
}

/// A protocol header in the standard Base64 alphabet: `-` and `_` stand for `+` and `/`.
pub open spec fn sanitized(protocol: Seq<char>) -> Seq<char> {
    replaced(replaced(protocol, '-', '+'), '_', '/')
}

/// Turns a protocol header into the standard Base64 alphabet.
pub fn sanitize(protocol: &str) -> (out: String)
    ensures
        out@ == sanitized(protocol@),
{
    replace_char(replace_char(protocol, '-', '+').as_str(), '_', '/')
}

/// Only `-` and `_` are turned into other characters, and nothing is added or left out.
pub proof fn law_sanitizing_turns_two_signs(protocol: Seq<char>, i: int)
    requires
        0 <= i < protocol.len(),
    ensures
        sanitized(protocol).len() == protocol.len(),
        protocol[i] == '-' ==> sanitized(protocol)[i] == '+',
        protocol[i] == '_' ==> sanitized(protocol)[i] == '/',
        protocol[i] != '-' && protocol[i] != '_' ==> sanitized(protocol)[i] == protocol[i],
{
}

/// A text in which some `+` of Base64 text are written `-`, and some `/` are written `_`.
pub open spec fn is_spelling(text: Seq<char>, standard: Seq<char>) -> bool {
    &&& text.len() == standard.len()
    &&& forall|i: int|
        0 <= i < text.len() ==> {
            ||| #[trigger] text[i] == standard[i]
            ||| standard[i] == '+' && text[i] == '-'
            ||| standard[i] == '/' && text[i] == '_'
        }
}

/// The protocol header carries every byte sequence: whichever of `+` and `-`, and of `/` and `_`,
/// its padded Base64 is spelled with, it is decoded to that sequence and no other.
pub proof fn law_protocol_header_is_read_as_written(text: Seq<char>, bytes: Seq<u8>)
    requires
        is_spelling(text, base64_text(bytes, false)),
    ensures
        sanitized(text) == base64_text(bytes, false),
        forall|b: Seq<u8>| sanitized(text) == #[trigger] base64_text(b, false) ==> b == bytes,
{
    let standard = base64_text(bytes, false);
    lemma_standard_lacks(bytes);
    assert(sanitized(text) =~= standard);
    assert forall|b: Seq<u8>| sanitized(text) == #[trigger] base64_text(b, false) implies b
        == bytes by {
        law_base64_text_is_unique(b, bytes, false);
    }
}

// ---------------------------------------------------------------------------
// Percent-encoding
// ---------------------------------------------------------------------------

/// The bytes that percent-encoding leaves as they are: letters, digits and `-`, `.`, `_`, `~`.
pub open spec fn unreserved(b: u8) -> bool {
    ||| 48 <= b <= 57
    ||| 65 <= b <= 90
    ||| 97 <= b <= 122
    ||| b == 45
    ||| b == 46
    ||| b == 95
    ||| b == 126
}

/// The digit for a number below sixteen, in upper case.
pub open spec fn upper_digit(n: int) -> char {
    if n < 10 {
        (48 + n) as char
    } else {
        (55 + n) as char
    }
}

/// One byte, percent-encoded where it is reserved.
pub open spec fn percent_byte(b: u8) -> Seq<char> {
    if unreserved(b) {
        seq![b as char]
    } else {
        seq!['%', upper_digit(b as int / 16), upper_digit(b as int % 16)]
    }
}

/// Bytes, percent-encoded where they are reserved.
pub open spec fn percent_encoded(bytes: Seq<u8>) -> Seq<char>
    decreases bytes.len(),
{
    if bytes.len() == 0 {
        Seq::empty()
    } else {
        percent_byte(bytes[0]) + percent_encoded(bytes.skip(1))
    }
}

/// A text, percent-encoded by way of UTF-8.
pub open spec fn url_encoded(s: Seq<char>) -> Seq<char> {
    percent_encoded(encode_utf8(s))
}

/// The number that a digit in base sixteen stands for, in either case.
pub open spec fn digit_value(b: u8) -> Option<int> {
    if 48 <= b <= 57 {
        Some(b - 48)
    } else if 65 <= b <= 70 {
        Some(b - 55)
    } else if 97 <= b <= 102 {
        Some(b - 87)
    } else {
        None
    }
}

/// Bytes with each `%` and the two digits behind it turned into the byte they stand for. A `%`
/// without two digits behind it stays.
pub open spec fn percent_decoded(b: Seq<u8>) -> Seq<u8>
    decreases b.len(),
{
    if b.len() == 0 {
        Seq::empty()
    } else if b[0] == 37 && b.len() >= 3 && digit_value(b[1]) is Some && digit_value(b[2]) is Some {
        seq![(digit_value(b[1])->0 * 16 + digit_value(b[2])->0) as u8] + percent_decoded(b.skip(3))
    } else {
        seq![b[0]] + percent_decoded(b.skip(1))
    }
}

/// A text with its percent-encoding undone, where what comes out is UTF-8.
pub open spec fn url_decoded(s: Seq<char>) -> Option<Seq<char>> {
    let bytes = percent_decoded(encode_utf8(s));
    if valid_utf8(bytes) {
        Some(decode_utf8(bytes))
    } else {
        None
    }
}

/// `encode` of the crate urlencoding: every byte of the text in UTF-8 is percent-encoded, with
/// digits in upper case, except letters, digits and `-`, `.`, `_`, `~`.
#[verifier::external_body]
pub(crate) fn url_encode(s: &str) -> (out: String)
    ensures
        out@ == url_encoded(s@),
{
    urlencoding::encode(s).into_owned()
}

/// `decode` of the crate urlencoding: each `%` with two digits in base sixteen behind it becomes
/// the byte they stand for, all other bytes stay, and the result is refused where it is not UTF-8.
#[verifier::external_body]
pub(crate) fn url_decode(s: &str) -> (out: Option<String>)
    ensures
        match out {
            Some(t) => url_decoded(s@) == Some(t@),
            None => url_decoded(s@) is None,
        },
{
    match urlencoding::decode(s) {
        Ok(t) => Some(t.into_owned()),
        Err(_) => None,
    }
}

/// Percent-encoded text holds unreserved characters and `%` only.
pub proof fn law_url_encoded_is_plain(bytes: Seq<u8>)
    ensures
        forall|i: int|
            0 <= i < percent_encoded(bytes).len() ==> {
                let c = #[trigger] percent_encoded(bytes)[i];
                c == '%' || ('-' <= c <= '~' && unreserved(c as u8))
            },
    decreases bytes.len(),
{
    if bytes.len() > 0 {
        law_url_encoded_is_plain(bytes.skip(1));
        let head = percent_byte(bytes[0]);
        let rest = percent_encoded(bytes.skip(1));
        assert forall|i: int| 0 <= i < percent_encoded(bytes).len() implies ({
            let c = #[trigger] percent_encoded(bytes)[i];
            c == '%' || ('-' <= c <= '~' && unreserved(c as u8))
        }) by {
            if i >= head.len() {
                assert(percent_encoded(bytes)[i] == rest[i - head.len()]);
            } else {
                assert(percent_encoded(bytes)[i] == head[i]);
            }
        }
    }
}

/// Percent-encoded text holds no control character and no sign before `-` but `%`.
pub proof fn lemma_url_encoded_lacks(s: Seq<char>, c: char)
    requires
        c < '-' && c != '%',
    ensures
        !url_encoded(s).contains(c),
{
    let bytes = encode_utf8(s);
    law_url_encoded_is_plain(bytes);
    let t = url_encoded(s);
    assert forall|i: int| 0 <= i < t.len() implies t[i] != c by {
        assert(percent_encoded(bytes)[i] == t[i]);
    }
}

/// The bytes of characters that fit into one.
spec fn narrow(s: Seq<char>) -> Seq<u8> {
    Seq::new(s.len(), |i: int| s[i] as u8)
}

proof fn lemma_percent_round_trip(bytes: Seq<u8>)
    ensures
        percent_decoded(narrow(percent_encoded(bytes))) == bytes,
    decreases bytes.len(),
{
    if bytes.len() > 0 {
        let b = bytes[0];
        let rest = percent_encoded(bytes.skip(1));
        lemma_percent_round_trip(bytes.skip(1));
        let whole = narrow(percent_encoded(bytes));
        if unreserved(b) {
            assert(whole[0] == b);
            assert(whole.skip(1) =~= narrow(rest));
        } else {
            assert(whole[0] == 37);
            assert(whole[1] == upper_digit(b as int / 16) as u8);
            assert(whole[2] == upper_digit(b as int % 16) as u8);
            assert(digit_value(whole[1]) == Some(b as int / 16));
            assert(digit_value(whole[2]) == Some(b as int % 16));
            assert(whole.skip(3) =~= narrow(rest));
        }
        assert(seq![b] + bytes.skip(1) =~= bytes);
    } else {
        assert(percent_decoded(narrow(percent_encoded(bytes))) =~= bytes);
    }
}

/// Decoding a percent-encoded text gives the text back.
pub proof fn law_url_decoding_undoes_encoding(s: Seq<char>)
    ensures
        url_decoded(url_encoded(s)) == Some(s),
{
    let bytes = encode_utf8(s);
    let t = percent_encoded(bytes);
    law_url_encoded_is_plain(bytes);
    assert forall|i: int| 0 <= i < t.len() implies '\0' <= #[trigger] t[i] <= '\u{7f}' by {
        assert(percent_encoded(bytes)[i] == t[i]);
    }
    vstd::utf8::is_ascii_chars_encode_utf8(t);
    assert(encode_utf8(t) =~= narrow(t));
    lemma_percent_round_trip(bytes);
    vstd::utf8::encode_utf8_valid_utf8(s);
    vstd::utf8::encode_utf8_decode_utf8(s);
}

// ---------------------------------------------------------------------------
// UTF-8 and letter case
// ---------------------------------------------------------------------------

/// What the error of `String::from_utf8` of std says of bytes that it refuses.
pub uninterp spec fn utf8_error(bytes: Seq<u8>) -> Seq<char>;

/// `String::from_utf8` of std: bytes are accepted exactly where they are UTF-8, and the result is
/// the text that they encode. Of a refusal the text of the error is handed on; it is a function of
/// the bytes.
#[verifier::external_body]
pub(crate) fn utf8_text(bytes: Vec<u8>) -> (r: Result<String, String>)
    ensures
        match r {
            Ok(t) => valid_utf8(bytes@) && t@ == decode_utf8(bytes@),
            Err(m) => !valid_utf8(bytes@) && m@ == utf8_error(bytes@),
        },
{
    match String::from_utf8(bytes) {
        Ok(t) => Ok(t),
        Err(e) => Err(e.to_string()),
    }
}

/// What `String::from_utf8_lossy` of std makes of bytes.
pub uninterp spec fn lossy_text(bytes: Seq<u8>) -> Seq<char>;

/// `String::from_utf8_lossy` of std: UTF-8 is decoded; of other bytes the text is a function of
/// the bytes, with replacement characters at places that are not stated here.
#[verifier::external_body]
pub(crate) fn utf8_lossy(bytes: &[u8]) -> (out: String)
    ensures
        out@ == lossy_text(bytes@),
        valid_utf8(bytes@) ==> out@ == decode_utf8(bytes@),
{
    String::from_utf8_lossy(bytes).into_owned()
}

/// What `str::to_lowercase` of std makes of a text.
pub uninterp spec fn lowercase(s: Seq<char>) -> Seq<char>;

/// ASCII text in lower case: `A` to `Z` become `a` to `z`, and the rest stays.
pub open spec fn ascii_lowered(s: Seq<char>) -> Seq<char> {
    Seq::new(
        s.len(),
        |i: int|
            if 'A' <= s[i] <= 'Z' {
                (s[i] as u32 + 32) as char
            } else {
                s[i]
            },
    )
}

/// `str::to_lowercase` of std: the text in lower case as Unicode has it, a function of the text.
/// Of ASCII text it lowers the letters `A` to `Z`; of other text no more is stated here.
#[verifier::external_body]
pub(crate) fn to_lowercase(s: &str) -> (out: String)
    ensures
        out@ == lowercase(s@),
        is_ascii_chars(s@) ==> out@ == ascii_lowered(s@),
{
    s.to_lowercase()
}

} // verus!
