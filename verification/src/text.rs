//! Text building blocks: digits, decimal numbers, substrings and concatenation.

use vstd::prelude::*;

verus! {

/// `String::push` appends one character to the end of the string.
pub assume_specification[ String::push ](s: &mut String, c: char)
    ensures
        final(s)@ == old(s)@.push(c),
;

/// The digit of a value below sixteen, with lower-case letters above nine.
pub open spec fn hex_digit(n: int) -> char {
    if n < 10 {
        ('0' as int + n) as char
    } else {
        ('a' as int + n - 10) as char
    }
}

/// Two lower-case hexadecimal digits for each byte, the high half first.
pub open spec fn hex_text(bytes: Seq<u8>) -> Seq<char> {
    Seq::new(
        2 * bytes.len(),
        |i: int| hex_digit(if i % 2 == 0 { bytes[i / 2] as int / 16 } else { bytes[i / 2] as int % 16 }),
    )
}

/// Whether a character is a digit or one of the letters `a` to `f`.
pub open spec fn is_lower_hex(c: char) -> bool {
    '0' <= c <= '9' || 'a' <= c <= 'f'
}

/// Whether a character is an ASCII letter or digit.
pub open spec fn is_ascii_alphanumeric(c: char) -> bool {
    '0' <= c <= '9' || 'a' <= c <= 'z' || 'A' <= c <= 'Z'
}

/// The decimal digits of a natural number, without leading zeros.
pub open spec fn digits_text(n: nat) -> Seq<char>
    decreases n,
{
    if n < 10 {
        seq![hex_digit(n as int)]
    } else {
        digits_text(n / 10).push(hex_digit(n as int % 10))
    }
}

/// A number in decimal, with a minus sign in front where it is negative.
pub open spec fn decimal_text(n: int) -> Seq<char> {
    if n < 0 {
        seq!['-'] + digits_text((-n) as nat)
    } else {
        digits_text(n as nat)
    }
}

/// Whether a text is made of ASCII digits alone and holds at least one.
pub open spec fn all_digits(s: Seq<char>) -> bool {
    s.len() > 0 && forall|i: int| 0 <= i < s.len() ==> '0' <= #[trigger] s[i] <= '9'
}

/// The number that a run of digits stands for.
pub open spec fn digits_value(s: Seq<char>) -> nat
    decreases s.len(),
{
    if s.len() == 0 {
        0
    } else {
        digits_value(s.drop_last()) * 10 + (s.last() as nat - '0' as nat) as nat
    }
}

/// A text without the plus sign that it may begin with.
pub open spec fn without_plus(s: Seq<char>) -> Seq<char> {
    if s.len() > 0 && s[0] == '+' {
        s.drop_first()
    } else {
        s
    }
}

/// The size that a text spells: an optional plus sign and digits whose value fits the machine.
pub open spec fn size_in_text(s: Seq<char>) -> Option<usize> {
    let digits = without_plus(s);
    if all_digits(digits) && digits_value(digits) <= usize::MAX {
        Some(digits_value(digits) as usize)
    } else {
        None
    }
}

/// Whether `needle` occurs in `haystack` as a run of neighbouring characters.
pub open spec fn occurs_in(needle: Seq<char>, haystack: Seq<char>) -> bool {
    exists|i: int|
        0 <= i <= haystack.len() - needle.len() && #[trigger] haystack.subrange(
            i,
            i + needle.len(),
        ) == needle
}

/// What each of a run of strings holds.
pub open spec fn texts(strings: Seq<String>) -> Seq<Seq<char>> {
    strings.map_values(|s: String| s@)
}

fn digit_char(n: u8) -> (c: char)
    requires
        n < 16,
    ensures
        c == hex_digit(n as int),
{
    if n < 10 {
        (48 + n) as char
    } else {
        (87 + n) as char
    }
}

/// Renders bytes in lower-case hexadecimal.
pub fn to_hex(bytes: &[u8]) -> (text: String)
    ensures
        text@ == hex_text(bytes@),
{
    let mut text: String = String::new();
    let mut i: usize = 0;
    while i < bytes.len()
        invariant
            i <= bytes@.len(),
            text@ == hex_text(bytes@.take(i as int)),
        decreases bytes@.len() - i,
    {
        let b: u8 = bytes[i];
        text.push(digit_char(b / 16));
        text.push(digit_char(b % 16));
        i += 1;
    }
    assert(bytes@.take(i as int) == bytes@);
    text
}

/// Renders a number in decimal.
pub fn u64_to_text(n: u64) -> (text: String)
    ensures
        text@ == digits_text(n as nat),
    decreases n,
{
    if n < 10 {
        let mut text: String = String::new();
        text.push(digit_char(n as u8));
        text
    } else {
        let mut text: String = u64_to_text(n / 10);
        text.push(digit_char((n % 10) as u8));
        text
    }
}

/// Renders a signed number in decimal.
pub fn i64_to_text(n: i64) -> (text: String)
    ensures
        text@ == decimal_text(n as int),
{
    if n >= 0 {
        u64_to_text(n as u64)
    } else {
        let magnitude: u64 = (-(n + 1)) as u64 + 1;
        let mut text: String = String::new();
        text.push('-');
        text.append(u64_to_text(magnitude).as_str());
        text
    }
}

/// The characters of a text, one after the other.
pub fn chars_of(s: &str) -> (chars: Vec<char>)
    ensures
        chars@ == s@,
{
    let mut chars: Vec<char> = Vec::new();
    for c in iter: s.chars()
        invariant
            chars@ == iter.seq().take(iter.index() as int),
            iter.seq() == s@,
    {
        chars.push(c);
    }
    chars
}

/// Reads a size: an optional plus sign, then digits whose value the machine can hold.
pub fn parse_size(s: &str) -> (size: Option<usize>)
    ensures
        size == size_in_text(s@),
{
    let chars: Vec<char> = chars_of(s);
    let start: usize = if chars.len() > 0 && chars[0] == '+' {
        1
    } else {
        0
    };
    if start == chars.len() {
        return None;
    }
    let ghost digits = without_plus(s@);
    assert(digits == s@.skip(start as int));
    let mut value: usize = 0;
    let mut too_big: bool = false;
    let mut i: usize = start;
    while i < chars.len()
        invariant
            start <= i <= chars@.len(),
            start <= 1,
            chars@ == s@,
            digits == s@.skip(start as int),
            digits == without_plus(s@),
            forall|k: int| 0 <= k < i - start ==> '0' <= #[trigger] digits[k] <= '9',
            !too_big ==> value == digits_value(digits.take(i - start)),
            too_big ==> digits_value(digits.take(i - start)) > usize::MAX,
        decreases chars@.len() - i,
    {
        let c: char = chars[i];
        proof {
            assert(digits[i - start] == c);
        }
        if c < '0' || c > '9' {
            assert(!all_digits(digits));
            return None;
        }
        let d: usize = (c as u32 - 48) as usize;
        proof {
            let longer = digits.take(i + 1 - start);
            assert(longer.drop_last() == digits.take(i - start));
            assert(longer.last() == c);
        }
        if !too_big {
            match value.checked_mul(10) {
                Some(tens) => {
                    match tens.checked_add(d) {
                        Some(sum) => {
                            value = sum;
                        },
                        None => {
                            too_big = true;
                        },
                    }
                },
                None => {
                    too_big = true;
                },
            }
        }
        i += 1;
    }
    assert(digits.take(i - start) == digits);
    if too_big {
        None
    } else {
        Some(value)
    }
}

/// Tells whether `needle` occurs in `haystack`.
pub fn contains(haystack: &str, needle: &str) -> (found: bool)
    ensures
        found == occurs_in(needle@, haystack@),
{
    let h: Vec<char> = chars_of(haystack);
    let n: Vec<char> = chars_of(needle);
    let room: usize = h.len();
    let width: usize = n.len();
    if width > room {
        return false;
    }
    let last: usize = room - width;
    let mut i: usize = 0;
    loop
        invariant
            i <= last,
            room == h@.len(),
            width == n@.len(),
            last == room - width,
            h@ == haystack@,
            n@ == needle@,
            forall|k: int| 0 <= k < i ==> #[trigger] h@.subrange(k, k + n@.len()) != n@,
        decreases last - i,
    {
        let mut j: usize = 0;
        while j < width && h[i + j] == n[j]
            invariant
                j <= width,
                i <= last,
                room == h@.len(),
                width == n@.len(),
                last == room - width,
                forall|k: int| 0 <= k < j ==> h@[i + k] == n@[k],
            decreases width - j,
        {
            j += 1;
        }
        if j == width {
            assert(h@.subrange(i as int, i + n@.len()) == n@);
            return true;
        }
        assert(h@.subrange(i as int, i + n@.len())[j as int] != n@[j as int]);
        if i == last {
            return false;
        }
        i += 1;
    }
}

/// Copies a run of strings.
pub fn copy_texts(strings: &[String]) -> (copied: Vec<String>)
    ensures
        texts(copied@) == texts(strings@),
{
    let mut copied: Vec<String> = Vec::new();
    let mut i: usize = 0;
    while i < strings.len()
        invariant
            i <= strings@.len(),
            texts(copied@) == texts(strings@).take(i as int),
        decreases strings@.len() - i,
    {
        let ghost before = copied@;
        copied.push(strings[i].clone());
        assert(texts(copied@) =~= texts(before).push(strings@[i as int]@));
        i += 1;
    }
    copied
}

/// A hexadecimal text has two characters for each byte, all of them lower-case digits.
pub proof fn law_hex_text_is_plain(bytes: Seq<u8>)
    ensures
        hex_text(bytes).len() == 2 * bytes.len(),
        forall|i: int|
            0 <= i < hex_text(bytes).len() ==> is_lower_hex(#[trigger] hex_text(bytes)[i]),
{
}

/// A hexadecimal text can be read back: different bytes never look the same.
pub proof fn law_hex_text_can_be_read_back(a: Seq<u8>, b: Seq<u8>)
    requires
        hex_text(a) == hex_text(b),
    ensures
        a == b,
{
    assert(hex_text(a).len() == 2 * a.len() && hex_text(b).len() == 2 * b.len());
    assert forall|i: int| 0 <= i < a.len() implies a[i] == b[i] by {
        assert(hex_text(a)[2 * i] == hex_text(b)[2 * i]);
        assert(hex_text(a)[2 * i + 1] == hex_text(b)[2 * i + 1]);
        assert((2 * i) % 2 == 0 && (2 * i) / 2 == i);
        assert((2 * i + 1) % 2 == 1 && (2 * i + 1) / 2 == i);
        assert(hex_text(a)[2 * i] == hex_digit(a[i] as int / 16));
        assert(hex_text(b)[2 * i] == hex_digit(b[i] as int / 16));
        assert(hex_text(a)[2 * i + 1] == hex_digit(a[i] as int % 16));
        assert(hex_text(b)[2 * i + 1] == hex_digit(b[i] as int % 16));
        lemma_hex_pair(a[i], b[i]);
    }
    assert(a == b);
}

proof fn lemma_hex_pair(x: u8, y: u8)
    ensures
        hex_digit(x as int / 16) == hex_digit(y as int / 16) && hex_digit(x as int % 16)
            == hex_digit(y as int % 16) ==> x == y,
{
    if hex_digit(x as int / 16) == hex_digit(y as int / 16) {
        assert(x as int / 16 == y as int / 16);
    }
    if hex_digit(x as int % 16) == hex_digit(y as int % 16) {
        assert(x as int % 16 == y as int % 16);
    }
}

/// A size that is written down in decimal is read as that size, with or without a plus sign.
pub proof fn law_size_can_be_read_back(n: usize)
    ensures
        size_in_text(digits_text(n as nat)) == Some(n),
        size_in_text(seq!['+'] + digits_text(n as nat)) == Some(n),
{
    lemma_digits_text(n as nat);
    let digits = digits_text(n as nat);
    let signed = seq!['+'] + digits;
    assert(without_plus(signed) == digits);
    assert(digits[0] != '+');
    assert(without_plus(digits) == digits);
}

proof fn lemma_digits_text(n: nat)
    ensures
        all_digits(digits_text(n)),
        digits_value(digits_text(n)) == n,
    decreases n,
{
    let digits = digits_text(n);
    if n < 10 {
        assert(digits.drop_last() == Seq::<char>::empty());
        assert(digits_value(digits.drop_last()) == 0);
    } else {
        lemma_digits_text(n / 10);
        assert(digits.drop_last() == digits_text(n / 10));
        assert forall|i: int| 0 <= i < digits.len() implies '0' <= #[trigger] digits[i] <= '9' by {
            if i < digits.len() - 1 {
                assert(digits[i] == digits_text(n / 10)[i]);
            }
        }
    }
}

/// Each byte is written as two hexadecimal digits: first that of its sixteens, then that of what is
/// left, as the characters `0` to `9` and `a` to `f`.
pub proof fn law_hex_digits_tell_each_byte(bytes: Seq<u8>, i: int)
    requires
        0 <= i < bytes.len(),
    ensures
        hex_text(bytes).len() == 2 * bytes.len(),
        ({
            let (high, low) = (bytes[i] as int / 16, bytes[i] as int % 16);
            &&& hex_text(bytes)[2 * i] as int == if high < 10 {
                48 + high
            } else {
                87 + high
            }
            &&& hex_text(bytes)[2 * i + 1] as int == if low < 10 {
                48 + low
            } else {
                87 + low
            }
        }),
{
    assert((2 * i) / 2 == i && (2 * i + 1) / 2 == i);
    assert((2 * i) % 2 == 0 && (2 * i + 1) % 2 == 1);
}

/// A number below ten is written as its digit, and a greater one as its tenth, followed by the
/// digit that is left. A negative number is written as its opposite behind a minus sign.
pub proof fn law_numbers_are_written_digit_by_digit(n: nat)
    ensures
        n < 10 ==> digits_text(n).len() == 1 && digits_text(n)[0] as int == 48 + n,
        n >= 10 ==> digits_text(n) == digits_text(n / 10) + digits_text(n % 10),
        decimal_text(n as int) == digits_text(n),
        n > 0 ==> decimal_text(-n) == seq!['-'] + digits_text(n),
{
    if n >= 10 {
        assert(digits_text(n % 10) == seq![hex_digit(n as int % 10)]);
        assert(digits_text(n) == digits_text(n / 10) + digits_text(n % 10));
    }
}

/// Different numbers are never written the same.
pub proof fn law_numbers_can_be_told_apart(m: int, n: int)
    requires
        decimal_text(m) == decimal_text(n),
    ensures
        m == n,
{
    let (a, b) = (if m < 0 { -m } else { m }, if n < 0 { -n } else { n });
    lemma_digits_text(a as nat);
    lemma_digits_text(b as nat);
    let (x, y) = (digits_text(a as nat), digits_text(b as nat));
    assert(x[0] != '-' && y[0] != '-');
    let (s, t) = (decimal_text(m), decimal_text(n));
    assert(s[0] == t[0]);
    if m < 0 {
        assert(s.skip(1) == x);
        assert(t.skip(1) == y);
    }
}

/// No character of a written number but a minus sign is anything else than a digit.
pub proof fn law_numbers_are_plain(n: int)
    ensures
        decimal_text(n).len() > 0,
        forall|i: int|
            0 <= i < decimal_text(n).len() ==> '0' <= #[trigger] decimal_text(n)[i] <= '9'
                || decimal_text(n)[i] == '-',
{
    lemma_digits_text((if n < 0 { -n } else { n }) as nat);
    if n < 0 {
        let digits = digits_text((-n) as nat);
        assert forall|i: int| 0 <= i < decimal_text(n).len() implies '0' <= #[trigger] decimal_text(
            n,
        )[i] <= '9' || decimal_text(n)[i] == '-' by {
            if i > 0 {
                assert(decimal_text(n)[i] == digits[i - 1]);
            }
        }
    }
}

/// A digit is read as its value; a size with a further digit behind it is read as ten times the
/// size and the digit, as long as the machine can hold that, and as nothing from there on.
pub proof fn law_sizes_are_read_digit_by_digit(s: Seq<char>, digit: char)
    requires
        '0' <= digit <= '9',
    ensures
        size_in_text(seq![digit]) == Some((digit as int - 48) as usize),
        size_in_text(s) matches Some(n) ==> size_in_text(s.push(digit)) == (if 10 * n + digit as int
            - 48 <= usize::MAX {
            Some((10 * n + digit as int - 48) as usize)
        } else {
            None
        }),
        all_digits(without_plus(s)) && size_in_text(s) is None ==> size_in_text(s.push(digit)) is None,
{
    let one = seq![digit];
    assert(without_plus(one) == one);
    assert(one.drop_last() == Seq::<char>::empty());
    assert(digits_value(one.drop_last()) == 0);
    let digits = without_plus(s);
    if all_digits(digits) {
        let longer = s.push(digit);
        assert(without_plus(longer) == digits.push(digit));
        assert(digits.push(digit).drop_last() == digits);
        assert forall|i: int| 0 <= i < digits.push(digit).len() implies '0'
            <= #[trigger] digits.push(digit)[i] <= '9' by {
            if i < digits.len() {
                assert(digits.push(digit)[i] == digits[i]);
            }
        }
    }
}

/// A plus sign in front changes nothing, and a text with any other character than a digit in it, or
/// with no digit at all, is no size.
pub proof fn law_only_digits_make_a_size(s: Seq<char>, i: int)
    ensures
        s.len() > 0 && s[0] != '+' ==> size_in_text(seq!['+'] + s) == size_in_text(s),
        0 <= i < s.len() && !('0' <= s[i] <= '9') && !(i == 0 && s[i] == '+') ==> size_in_text(s)
            is None,
        size_in_text(Seq::empty()) is None,
        size_in_text(seq!['+']) is None,
{
    if s.len() > 0 && s[0] != '+' {
        assert(without_plus(seq!['+'] + s) == s);
        assert(without_plus(s) == s);
    }
    if 0 <= i < s.len() && !('0' <= s[i] <= '9') && !(i == 0 && s[i] == '+') {
        let digits = without_plus(s);
        if s[0] == '+' {
            assert(digits[i - 1] == s[i]);
        } else {
            assert(digits[i] == s[i]);
        }
    }
    assert(without_plus(seq!['+']) == Seq::<char>::empty());
}

/// A text occurs in another just when the other is that text with something, or nothing, before and
/// behind it.
pub proof fn law_occurrence_leaves_what_is_around(needle: Seq<char>, haystack: Seq<char>)
    ensures
        occurs_in(needle, haystack) <==> exists|before: Seq<char>, behind: Seq<char>|
            haystack == #[trigger] (before + needle + behind),
{
    if occurs_in(needle, haystack) {
        let i = choose|i: int|
            0 <= i <= haystack.len() - needle.len() && #[trigger] haystack.subrange(
                i,
                i + needle.len(),
            ) == needle;
        let before = haystack.take(i);
        let behind = haystack.skip(i + needle.len());
        assert(haystack == before + needle + behind);
    }
    if exists|before: Seq<char>, behind: Seq<char>| haystack == #[trigger] (before + needle + behind) {
        let (before, behind) = choose|before: Seq<char>, behind: Seq<char>|
            haystack == #[trigger] (before + needle + behind);
        let i = before.len() as int;
        assert(haystack.subrange(i, i + needle.len()) == needle);
    }
}

/// The texts of a run of strings are what the strings hold, one by one.
pub proof fn law_texts_stand_one_by_one(strings: Seq<String>)
    ensures
        texts(strings).len() == strings.len(),
        forall|i: int| 0 <= i < strings.len() ==> #[trigger] texts(strings)[i] == strings[i]@,
{
}

} // verus!
