//! Texts that carry other texts or bytes safely: Base64, percent-encoding and JSON strings.

use base64::Engine;
use vstd::prelude::*;
use vstd::utf8::encode_utf8;

use crate::text::{hex_digit, is_ascii_alphanumeric};

verus! {

/// An error of `serde_json`.
#[verifier::external_type_specification]
#[verifier::external_body]
pub struct ExJsonError(serde_json::Error);

/// The byte at a place, or zero behind the end.
pub open spec fn byte_at(bytes: Seq<u8>, i: int) -> int {
    if 0 <= i < bytes.len() {
        bytes[i] as int
    } else {
        0
    }
}

/// The `k`-th group of six bits when the bits of the bytes are laid end to end, with zero bits
/// behind the end.
pub open spec fn sextet(bytes: Seq<u8>, k: int) -> int {
    let first = k / 4 * 3;
    if k % 4 == 0 {
        byte_at(bytes, first) / 4
    } else if k % 4 == 1 {
        byte_at(bytes, first) % 4 * 16 + byte_at(bytes, first + 1) / 16
    } else if k % 4 == 2 {
        byte_at(bytes, first + 1) % 16 * 4 + byte_at(bytes, first + 2) / 64
    } else {
        byte_at(bytes, first + 2) % 64
    }
}

/// The symbol for six bits: letters, digits, and two characters that alphabets differ in.
pub open spec fn base64_symbol(n: int, c62: char, c63: char) -> char {
    if n < 26 {
        ('A' as int + n) as char
    } else if n < 52 {
        ('a' as int + n - 26) as char
    } else if n < 62 {
        ('0' as int + n - 52) as char
    } else if n == 62 {
        c62
    } else {
        c63
    }
}

/// One symbol for every six bits begun.
pub open spec fn base64_symbols(bytes: Seq<u8>, c62: char, c63: char) -> Seq<char> {
    Seq::new((8 * bytes.len() + 5) / 6, |k: int| base64_symbol(sextet(bytes, k), c62, c63))
}

/// Standard Base64, padded with `=` to a multiple of four characters.
pub open spec fn base64_text(bytes: Seq<u8>) -> Seq<char> {
    base64_symbols(bytes, '+', '/') + Seq::new(
        ((3 - bytes.len() % 3) % 3) as nat,
        |i: int| '=',
    )
}

/// URL-safe Base64 without padding.
pub open spec fn base64_url_text(bytes: Seq<u8>) -> Seq<char> {
    base64_symbols(bytes, '-', '_')
}

/// `base64::engine::general_purpose::STANDARD.encode`: Base64 with the standard alphabet and
/// with padding.
#[verifier::external_body]
pub(crate) fn base64_encode(bytes: &[u8]) -> (text: String)
    ensures
        text@ == base64_text(bytes@),
{
    base64::engine::general_purpose::STANDARD.encode(bytes)
}

/// `base64::engine::general_purpose::URL_SAFE_NO_PAD.encode`: Base64 with the URL-safe alphabet
/// and without padding.
#[verifier::external_body]
pub(crate) fn base64_url_encode(bytes: &[u8]) -> (text: String)
    ensures
        text@ == base64_url_text(bytes@),
{
    base64::engine::general_purpose::URL_SAFE_NO_PAD.encode(bytes)
}

/// The digit of a value below sixteen, with upper-case letters above nine.
pub open spec fn upper_hex_digit(n: int) -> char {
    if n < 10 {
        ('0' as int + n) as char
    } else {
        ('A' as int + n - 10) as char
    }
}

/// An ASCII letter or digit as it is, any other byte as `%` and two digits.
pub open spec fn percent_byte(b: u8) -> Seq<char> {
    if is_ascii_alphanumeric(b as char) {
        seq![b as char]
    } else {
        seq!['%', upper_hex_digit(b as int / 16), upper_hex_digit(b as int % 16)]
    }
}

/// Bytes, percent-encoded one by one.
pub open spec fn percent_text(bytes: Seq<u8>) -> Seq<char>
    decreases bytes.len(),
{
    if bytes.len() == 0 {
        Seq::empty()
    } else {
        percent_byte(bytes[0]) + percent_text(bytes.drop_first())
    }
}

/// `percent_encoding::utf8_percent_encode` with `NON_ALPHANUMERIC`, as a string: every byte of
/// the UTF-8 form that is no ASCII letter or digit is escaped.
#[verifier::external_body]
pub(crate) fn percent_encode(text: &str) -> (encoded: String)
    ensures
        encoded@ == percent_text(encode_utf8(text@)),
{
    percent_encoding::utf8_percent_encode(text, percent_encoding::NON_ALPHANUMERIC).to_string()
}

/// A character inside a JSON string.
pub open spec fn json_char(c: char) -> Seq<char> {
    if c == '"' {
        seq!['\\', '"']
    } else if c == '\\' {
        seq!['\\', '\\']
    } else if c == '\u{8}' {
        seq!['\\', 'b']
    } else if c == '\t' {
        seq!['\\', 't']
    } else if c == '\n' {
        seq!['\\', 'n']
    } else if c == '\u{c}' {
        seq!['\\', 'f']
    } else if c == '\r' {
        seq!['\\', 'r']
    } else if (c as int) < 32 {
        seq!['\\', 'u', '0', '0', hex_digit(c as int / 16), hex_digit(c as int % 16)]
    } else {
        seq![c]
    }
}

/// A text inside a JSON string.
pub open spec fn json_inside(text: Seq<char>) -> Seq<char>
    decreases text.len(),
{
    if text.len() == 0 {
        Seq::empty()
    } else {
        json_char(text[0]) + json_inside(text.drop_first())
    }
}

/// A text as a JSON string.
pub open spec fn json_text(text: Seq<char>) -> Seq<char> {
    seq!['"'] + json_inside(text) + seq!['"']
}

/// A member of a JSON object whose value is a string.
pub open spec fn json_member(key: Seq<char>, value: Seq<char>) -> Seq<char> {
    json_text(key) + seq![':'] + json_text(value)
}

/// `serde_json::to_string` of a string: the string in quotes, with quotes, backslashes and
/// control characters escaped. Nothing about a string can make it fail.
#[verifier::external_body]
pub(crate) fn json_string(text: &str) -> (json: Result<String, serde_json::Error>)
    ensures
        json is Ok,
        json->Ok_0@ == json_text(text@),
{
    serde_json::to_string(text)
}

/// `serde_json::Map::insert` twice and the display of the object, which is compact and, with the
/// crate's `preserve_order` feature, keeps its members in the order of insertion.
#[verifier::external_body]
pub(crate) fn json_object_of_two(key1: &str, value1: &str, key2: &str, value2: &str) -> (json:
    String)
    requires
        key1@ != key2@,
    ensures
        json@ == seq!['{'] + json_member(key1@, value1@) + seq![','] + json_member(
            key2@,
            value2@,
        ) + seq!['}'],
{
    let mut map = serde_json::Map::new();
    map.insert(key1.to_string(), serde_json::Value::String(value1.to_string()));
    map.insert(key2.to_string(), serde_json::Value::String(value2.to_string()));
    serde_json::Value::Object(map).to_string()
}

/// A symbol tells its six bits, whichever of the two alphabets it is taken from.
proof fn lemma_symbol_is_injective(m: int, n: int, c62: char, c63: char)
    requires
        0 <= m < 64,
        0 <= n < 64,
        (c62, c63) == ('+', '/') || (c62, c63) == ('-', '_'),
        base64_symbol(m, c62, c63) == base64_symbol(n, c62, c63),
    ensures
        m == n,
{
}

proof fn lemma_sextet_range(bytes: Seq<u8>, k: int)
    requires
        0 <= k,
    ensures
        0 <= sextet(bytes, k) < 64,
{
}

/// Bytes can be told from their symbols, given how many bytes there are.
proof fn lemma_symbols_are_injective(a: Seq<u8>, b: Seq<u8>, c62: char, c63: char)
    requires
        a.len() == b.len(),
        (c62, c63) == ('+', '/') || (c62, c63) == ('-', '_'),
        base64_symbols(a, c62, c63) == base64_symbols(b, c62, c63),
    ensures
        a == b,
{
    let symbols = base64_symbols(a, c62, c63);
    let others = base64_symbols(b, c62, c63);
    assert forall|k: int| 0 <= k < symbols.len() implies #[trigger] sextet(a, k) == sextet(b, k) by {
        assert(symbols[k] == others[k]);
        lemma_sextet_range(a, k);
        lemma_sextet_range(b, k);
        lemma_symbol_is_injective(sextet(a, k), sextet(b, k), c62, c63);
    }
    assert forall|i: int| 0 <= i < a.len() implies a[i] == b[i] by {
        let group = i / 3;
        let k = 4 * group + i % 3;
        assert(k + 1 < symbols.len());
        assert(sextet(a, k) == sextet(b, k));
        assert(sextet(a, k + 1) == sextet(b, k + 1));
        assert(k / 4 == group && (k + 1) / 4 == group);
    }
    assert(a == b);
}

/// What URL-safe Base64 is made of: letters, digits, `-` and `_`, and never a padding character.
pub proof fn law_base64_url_is_url_safe(bytes: Seq<u8>)
    ensures
        forall|i: int|
            0 <= i < base64_url_text(bytes).len() ==> {
                let c = #[trigger] base64_url_text(bytes)[i];
                is_ascii_alphanumeric(c) || c == '-' || c == '_'
            },
{
    assert forall|i: int| 0 <= i < base64_url_text(bytes).len() implies {
        let c = #[trigger] base64_url_text(bytes)[i];
        is_ascii_alphanumeric(c) || c == '-' || c == '_'
    } by {
        lemma_sextet_range(bytes, i);
    }
}

/// URL-safe Base64 can be read back: different bytes never look the same.
pub proof fn law_base64_url_can_be_read_back(a: Seq<u8>, b: Seq<u8>)
    requires
        base64_url_text(a) == base64_url_text(b),
    ensures
        a == b,
{
    assert((8 * a.len() + 5) / 6 == base64_url_text(a).len());
    assert((8 * b.len() + 5) / 6 == base64_url_text(b).len());
    lemma_symbols_are_injective(a, b, '-', '_');
}

/// Standard Base64 comes in groups of four characters, one group for every three bytes begun.
pub proof fn law_base64_comes_in_groups(bytes: Seq<u8>)
    ensures
        base64_text(bytes).len() == (bytes.len() + 2) / 3 * 4,
{
}

/// Standard Base64 can be read back: different bytes never look the same.
pub proof fn law_base64_can_be_read_back(a: Seq<u8>, b: Seq<u8>)
    requires
        base64_text(a) == base64_text(b),
    ensures
        a == b,
{
    law_base64_comes_in_groups(a);
    law_base64_comes_in_groups(b);
    lemma_same_text_same_length(a, b);
    lemma_same_text_same_length(b, a);
    let sa = base64_symbols(a, '+', '/');
    let sb = base64_symbols(b, '+', '/');
    assert(sa == base64_text(a).take(sa.len() as int));
    assert(sb == base64_text(b).take(sb.len() as int));
    lemma_symbols_are_injective(a, b, '+', '/');
}

proof fn lemma_same_text_same_length(a: Seq<u8>, b: Seq<u8>)
    requires
        base64_text(a) == base64_text(b),
        (a.len() + 2) / 3 == (b.len() + 2) / 3,
    ensures
        a.len() >= b.len(),
{
    if a.len() < b.len() {
        let last = base64_symbols(b, '+', '/').len() - 1;
        lemma_sextet_range(b, last);
        assert(base64_text(b)[last] == base64_symbol(sextet(b, last), '+', '/'));
        assert(base64_text(a)[last] == '=');
    }
}

/// What percent-encoding yields: ASCII letters, digits and `%`.
pub proof fn law_percent_encoding_is_plain(bytes: Seq<u8>)
    ensures
        forall|i: int|
            0 <= i < percent_text(bytes).len() ==> {
                let c = #[trigger] percent_text(bytes)[i];
                is_ascii_alphanumeric(c) || c == '%'
            },
    decreases bytes.len(),
{
    if bytes.len() > 0 {
        law_percent_encoding_is_plain(bytes.drop_first());
        let head = percent_byte(bytes[0]);
        let tail = percent_text(bytes.drop_first());
        assert forall|i: int| 0 <= i < percent_text(bytes).len() implies {
            let c = #[trigger] percent_text(bytes)[i];
            is_ascii_alphanumeric(c) || c == '%'
        } by {
            if i >= head.len() {
                assert(percent_text(bytes)[i] == tail[i - head.len()]);
            } else {
                assert(percent_text(bytes)[i] == head[i]);
            }
        }
    }
}

/// Percent-encoding leaves ASCII letters and digits as they are.
pub proof fn law_percent_encoding_keeps_alphanumerics(bytes: Seq<u8>)
    requires
        forall|i: int| 0 <= i < bytes.len() ==> is_ascii_alphanumeric(#[trigger] bytes[i] as char),
    ensures
        percent_text(bytes) == bytes.map_values(|b: u8| b as char),
    decreases bytes.len(),
{
    if bytes.len() > 0 {
        let rest = bytes.drop_first();
        assert forall|i: int| 0 <= i < rest.len() implies is_ascii_alphanumeric(
            #[trigger] rest[i] as char,
        ) by {
            assert(rest[i] == bytes[i + 1]);
        }
        law_percent_encoding_keeps_alphanumerics(rest);
        assert(is_ascii_alphanumeric(bytes[0] as char));
    }
    assert(percent_text(bytes) == bytes.map_values(|b: u8| b as char));
}

/// Percent-encoding can be read back: different bytes never look the same.
pub proof fn law_percent_encoding_can_be_read_back(a: Seq<u8>, b: Seq<u8>)
    requires
        percent_text(a) == percent_text(b),
    ensures
        a == b,
    decreases a.len(),
{
    if a.len() == 0 || b.len() == 0 {
        if a.len() > 0 {
            assert(percent_text(a).len() > 0);
        }
        if b.len() > 0 {
            assert(percent_text(b).len() > 0);
        }
        assert(a == b);
    } else {
        let ha = percent_byte(a[0]);
        let hb = percent_byte(b[0]);
        let ta = percent_text(a.drop_first());
        let tb = percent_text(b.drop_first());
        assert((ha + ta)[0] == ha[0]);
        assert((hb + tb)[0] == hb[0]);
        assert(ha.len() == hb.len());
        assert forall|i: int| 0 <= i < ha.len() implies ha[i] == hb[i] by {
            assert((ha + ta)[i] == ha[i]);
            assert((hb + tb)[i] == hb[i]);
        }
        assert(a[0] == b[0]) by {
            if !is_ascii_alphanumeric(a[0] as char) {
                assert(ha[1] == hb[1] && ha[2] == hb[2]);
            }
        }
        assert(ta == (ha + ta).skip(ha.len() as int));
        assert(tb == (hb + tb).skip(hb.len() as int));
        law_percent_encoding_can_be_read_back(a.drop_first(), b.drop_first());
        assert(a == seq![a[0]] + a.drop_first());
        assert(b == seq![b[0]] + b.drop_first());
    }
}

/// A JSON string stays on its line: no control character stands in it.
pub proof fn law_json_text_has_no_control_characters(text: Seq<char>)
    ensures
        forall|i: int| 0 <= i < json_text(text).len() ==> #[trigger] json_text(text)[i] >= ' ',
{
    lemma_json_inside_has_no_control_characters(text);
    let inside = json_inside(text);
    assert forall|i: int| 0 <= i < json_text(text).len() implies #[trigger] json_text(text)[i] >= ' ' by {
        if 0 < i < inside.len() + 1 {
            assert(json_text(text)[i] == inside[i - 1]);
        }
    }
}

proof fn lemma_json_char_has_no_control_characters(c: char)
    ensures
        forall|i: int| 0 <= i < json_char(c).len() ==> #[trigger] json_char(c)[i] >= ' ',
{
}

/// The character that an escape stands for, by its number.
spec fn json_char_value(s: Seq<char>) -> int {
    if s.len() == 1 {
        s[0] as int
    } else if s.len() == 2 {
        if s[1] == 'b' {
            8
        } else if s[1] == 't' {
            9
        } else if s[1] == 'n' {
            10
        } else if s[1] == 'f' {
            12
        } else if s[1] == 'r' {
            13
        } else {
            s[1] as int
        }
    } else {
        16 * (s[4] as int - '0' as int) + if s[5] <= '9' {
            s[5] as int - '0' as int
        } else {
            s[5] as int - 'a' as int + 10
        }
    }
}

proof fn lemma_json_char_can_be_read_back(c: char)
    ensures
        json_char_value(json_char(c)) == c as int,
{
}

proof fn lemma_json_char_is_injective(c: char, d: char)
    requires
        json_char(c) == json_char(d),
    ensures
        c == d,
{
    lemma_json_char_can_be_read_back(c);
    lemma_json_char_can_be_read_back(d);
}

proof fn lemma_json_inside_has_no_control_characters(text: Seq<char>)
    ensures
        forall|i: int| 0 <= i < json_inside(text).len() ==> #[trigger] json_inside(text)[i] >= ' ',
    decreases text.len(),
{
    if text.len() > 0 {
        lemma_json_inside_has_no_control_characters(text.drop_first());
        let head = json_char(text[0]);
        let tail = json_inside(text.drop_first());
        lemma_json_char_has_no_control_characters(text[0]);
        assert forall|i: int| 0 <= i < json_inside(text).len() implies #[trigger] json_inside(
            text,
        )[i] >= ' ' by {
            if i >= head.len() {
                assert(json_inside(text)[i] == tail[i - head.len()]);
            } else {
                assert(json_inside(text)[i] == head[i]);
            }
        }
    }
}

/// A JSON string can be read back: different texts never look the same.
pub proof fn law_json_text_can_be_read_back(a: Seq<char>, b: Seq<char>)
    requires
        json_text(a) == json_text(b),
    ensures
        a == b,
{
    let ja = json_text(a);
    let jb = json_text(b);
    assert(json_inside(a) == ja.subrange(1, ja.len() - 1));
    assert(json_inside(b) == jb.subrange(1, jb.len() - 1));
    lemma_json_inside_is_injective(a, b);
}

proof fn lemma_json_inside_is_injective(a: Seq<char>, b: Seq<char>)
    requires
        json_inside(a) == json_inside(b),
    ensures
        a == b,
    decreases a.len(),
{
    if a.len() == 0 || b.len() == 0 {
        if a.len() > 0 {
            assert(json_inside(a).len() > 0);
        }
        if b.len() > 0 {
            assert(json_inside(b).len() > 0);
        }
        assert(a == b);
    } else {
        let ha = json_char(a[0]);
        let hb = json_char(b[0]);
        let ta = json_inside(a.drop_first());
        let tb = json_inside(b.drop_first());
        assert((ha + ta)[0] == ha[0]);
        assert((hb + tb)[0] == hb[0]);
        if ha.len() > 1 {
            assert((ha + ta)[1] == ha[1]);
            assert((hb + tb)[1] == hb[1]);
        }
        assert(ha.len() == hb.len());
        assert forall|i: int| 0 <= i < ha.len() implies ha[i] == hb[i] by {
            assert((ha + ta)[i] == ha[i]);
            assert((hb + tb)[i] == hb[i]);
        }
        assert(ha == hb);
        lemma_json_char_is_injective(a[0], b[0]);
        assert(ta == (ha + ta).skip(ha.len() as int));
        assert(tb == (hb + tb).skip(hb.len() as int));
        lemma_json_inside_is_injective(a.drop_first(), b.drop_first());
        assert(a == seq![a[0]] + a.drop_first());
        assert(b == seq![b[0]] + b.drop_first());
    }
}

/// Every three bytes begun are four groups of six bits, which make the same number as the bytes do,
/// with zero bytes behind the end.
pub proof fn law_base64_groups_hold_their_bytes(bytes: Seq<u8>, group: int)
    requires
        0 <= group,
        3 * group < bytes.len(),
    ensures
        sextet(bytes, 4 * group) * 262144 + sextet(bytes, 4 * group + 1) * 4096 + sextet(
            bytes,
            4 * group + 2,
        ) * 64 + sextet(bytes, 4 * group + 3) == bytes[3 * group] * 65536 + (if 3 * group + 1
            < bytes.len() {
            bytes[3 * group + 1] as int
        } else {
            0
        }) * 256 + (if 3 * group + 2 < bytes.len() {
            bytes[3 * group + 2] as int
        } else {
            0
        }),
{
    let k = 4 * group;
    assert(k / 4 == group && (k + 1) / 4 == group && (k + 2) / 4 == group && (k + 3) / 4 == group);
    assert(k % 4 == 0 && (k + 1) % 4 == 1 && (k + 2) % 4 == 2 && (k + 3) % 4 == 3);
}

/// In Base64 each group of six bits is one character: the capital letters, the small letters and the
/// digits in their order, and then two more, which are `+` and `/` or, where URLs are to hold it, `-`
/// and `_`.
pub proof fn law_base64_characters_tell_their_bits(bytes: Seq<u8>, k: int)
    requires
        0 <= k < (8 * bytes.len() + 5) / 6,
    ensures
        ({
            let n = sextet(bytes, k);
            let c = base64_text(bytes)[k];
            let u = base64_url_text(bytes)[k];
            &&& 0 <= n < 64
            &&& n < 26 ==> c as int == 65 + n && u == c
            &&& 26 <= n < 52 ==> c as int == 71 + n && u == c
            &&& 52 <= n < 62 ==> c as int == n - 4 && u == c
            &&& n == 62 ==> c == '+' && u == '-'
            &&& n == 63 ==> c == '/' && u == '_'
        }),
        base64_url_text(bytes).len() == (8 * bytes.len() + 5) / 6,
        forall|i: int|
            base64_url_text(bytes).len() <= i < base64_text(bytes).len() ==> #[trigger] base64_text(
                bytes,
            )[i] == '=',
{
    lemma_sextet_range(bytes, k);
}

/// Percent-encoding goes byte by byte: an ASCII letter or digit stays, and any other byte becomes `%`
/// and the digits of its sixteens and of what is left, with capital letters above nine.
pub proof fn law_percent_encoding_goes_byte_by_byte(a: Seq<u8>, b: Seq<u8>, byte: u8)
    ensures
        percent_text(a + b) == percent_text(a) + percent_text(b),
        is_ascii_alphanumeric(byte as char) ==> percent_text(seq![byte]) == seq![byte as char],
        !is_ascii_alphanumeric(byte as char) ==> ({
            let text = percent_text(seq![byte]);
            let (high, low) = (byte as int / 16, byte as int % 16);
            &&& text.len() == 3
            &&& text[0] == '%'
            &&& text[1] as int == if high < 10 {
                48 + high
            } else {
                55 + high
            }
            &&& text[2] as int == if low < 10 {
                48 + low
            } else {
                55 + low
            }
        }),
    decreases a.len(),
{
    let one = seq![byte];
    assert(one.drop_first() == Seq::<u8>::empty());
    assert(percent_text(one.drop_first()) == Seq::<char>::empty());
    assert(percent_text(one) == percent_byte(byte));
    if a.len() == 0 {
        assert(a + b == b);
        assert(percent_text(a) + percent_text(b) == percent_text(b));
    } else {
        law_percent_encoding_goes_byte_by_byte(a.drop_first(), b, byte);
        assert((a + b).drop_first() == a.drop_first() + b);
        assert(percent_text(a + b) == percent_text(a) + percent_text(b));
    }
}

/// A JSON string is its text between quotation marks, character by character, and a character that is
/// no control character, quotation mark or backslash stays as it is.
pub proof fn law_json_text_goes_character_by_character(a: Seq<char>, b: Seq<char>, c: char)
    ensures
        json_inside(a + b) == json_inside(a) + json_inside(b),
        json_text(a) == seq!['"'] + json_inside(a) + seq!['"'],
        c as int >= 32 && c != '"' && c != '\\' ==> json_inside(seq![c]) == seq![c],
        json_inside(seq!['"']) == seq!['\\', '"'],
        json_inside(seq!['\\']) == seq!['\\', '\\'],
        json_inside(seq!['\n']) == seq!['\\', 'n'],
        json_inside(seq!['\r']) == seq!['\\', 'r'],
        json_inside(seq!['\t']) == seq!['\\', 't'],
    decreases a.len(),
{
    lemma_json_inside_of_one(c);
    lemma_json_inside_of_one('"');
    lemma_json_inside_of_one('\\');
    lemma_json_inside_of_one('\n');
    lemma_json_inside_of_one('\r');
    lemma_json_inside_of_one('\t');
    if a.len() == 0 {
        assert(a + b == b);
        assert(json_inside(a) + json_inside(b) == json_inside(b));
    } else {
        law_json_text_goes_character_by_character(a.drop_first(), b, c);
        assert((a + b).drop_first() == a.drop_first() + b);
        assert(json_inside(a + b) == json_inside(a) + json_inside(b));
    }
}

proof fn lemma_json_inside_of_one(c: char)
    ensures
        json_inside(seq![c]) == json_char(c),
{
    let one = seq![c];
    assert(one.drop_first() == Seq::<char>::empty());
    assert(json_inside(one.drop_first()) == Seq::<char>::empty());
    assert(json_inside(one) == json_char(c));
}

} // verus!
