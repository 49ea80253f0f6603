//! Text that goes into a URL: percent-encoding and decimal numbers.
use vstd::prelude::*;
use vstd::utf8::{decode_utf8, encode_utf8, is_ascii_chars};

verus! {

// ---------------------------------------------------------------------------
// Percent-encoding
// ---------------------------------------------------------------------------
/// The bytes that stand for themselves in a path segment: the unreserved
/// characters of RFC 3986.
pub open spec fn is_unreserved(b: u8) -> bool {
    ||| 0x41 <= b <= 0x5a  // A to Z
    ||| 0x61 <= b <= 0x7a  // a to z
    ||| 0x30 <= b <= 0x39  // 0 to 9
    ||| b == 0x2d  // -
    ||| b == 0x2e  // .
    ||| b == 0x5f  // _
    ||| b == 0x7e  // ~

}

/// The character for a number below sixteen, in upper case.
pub open spec fn hex_digit(n: u8) -> char {
    if n < 10 {
        (0x30 + n) as char
    } else {
        (0x37 + n) as char
    }
}

/// `%` and the two hex digits of a byte.
pub open spec fn escaped(b: u8) -> Seq<char> {
    seq!['%', hex_digit(b / 16), hex_digit(b % 16)]
}

/// What one byte becomes in a path segment.
pub open spec fn segment_byte(b: u8) -> Seq<char> {
    if is_unreserved(b) {
        seq![b as char]
    } else {
        escaped(b)
    }
}

/// What a run of bytes becomes in a path segment.
pub open spec fn segment_bytes(bytes: Seq<u8>) -> Seq<char>
    decreases bytes.len(),
{
    if bytes.len() == 0 {
        seq![]
    } else {
        segment_byte(bytes[0]) + segment_bytes(bytes.drop_first())
    }
}

/// A text as a path segment: its UTF-8 bytes, each one that is not unreserved
/// written as `%HH`.
pub open spec fn percent_encoded(text: Seq<char>) -> Seq<char> {
    segment_bytes(encode_utf8(text))
}

/// The number that a hex digit stands for.
pub open spec fn hex_value(c: char) -> int {
    if c <= '9' {
        c as int - 0x30
    } else {
        c as int - 0x37
    }
}

/// The bytes that a percent-encoded text stands for: `%HH` is one byte, every
/// other character is itself.
pub open spec fn percent_decoded(text: Seq<char>) -> Seq<u8>
    decreases text.len(),
{
    if text.len() == 0 {
        seq![]
    } else if text[0] == '%' && text.len() >= 3 {
        seq![(16 * hex_value(text[1]) + hex_value(text[2])) as u8] + percent_decoded(text.skip(3))
    } else {
        seq![text[0] as u8] + percent_decoded(text.skip(1))
    }
}

fn hex_char(n: u8) -> (c: char)
    requires
        n < 16,
    ensures
        c == hex_digit(n),
{
    if n < 10 {
        (0x30 + n) as char
    } else {
        (0x37 + n) as char
    }
}

/// Percent-encode one path segment: `/`, `?`, `#`, space, `%` and every other
/// byte that is not unreserved is written as `%HH`, so that no value can change
/// the structure of the URL it is put into, but for the values `.` and `..`: a dot
/// is unreserved, and a segment of one or two dots is resolved away.
pub fn percent_encode(s: &str) -> (out: String)
    ensures
        out@ == percent_encoded(s@),
{
    let bytes = s.as_bytes();
    let mut out = String::new();
    let mut i: usize = 0;
    assert(bytes@.skip(0) == bytes@);
    while i < bytes.len()
        invariant
            0 <= i <= bytes@.len(),
            bytes@ == encode_utf8(s@),
            segment_bytes(bytes@) == out@ + segment_bytes(bytes@.skip(i as int)),
        decreases bytes@.len() - i,
    {
        let b = bytes[i];
        assert(bytes@.skip(i as int).drop_first() == bytes@.skip(i + 1));
        let ghost before = out@;
        if (0x41 <= b && b <= 0x5a) || (0x61 <= b && b <= 0x7a) || (0x30 <= b && b <= 0x39)
            || b == 0x2d || b == 0x2e || b == 0x5f || b == 0x7e {
            out.push(b as char);
        } else {
            out.push('%');
            out.push(hex_char(b / 16));
            out.push(hex_char(b % 16));
        }
        assert(out@ == before + segment_byte(b));
        i += 1;
    }
    assert(bytes@.skip(i as int) == Seq::<u8>::empty());
    out
}

/// A percent-encoded segment holds only unreserved characters and `%`: none of
/// the characters that separate the parts of a URL (`/`, `?`, `#`, `&`, `=`, `:`)
/// and no space survives in it.
pub proof fn law_segment_alphabet(text: Seq<char>)
    ensures
        forall|i: int|
            0 <= i < percent_encoded(text).len() ==> is_segment_char(
                #[trigger] percent_encoded(text)[i],
            ),
{
    lemma_segment_bytes_alphabet(encode_utf8(text));
}

/// An unreserved character, or `%`.
pub open spec fn is_segment_char(c: char) -> bool {
    c == '%' || (c as int <= 0x7f && is_unreserved(c as u8))
}

proof fn lemma_segment_bytes_alphabet(bytes: Seq<u8>)
    ensures
        forall|i: int|
            0 <= i < segment_bytes(bytes).len() ==> is_segment_char(
                #[trigger] segment_bytes(bytes)[i],
            ),
    decreases bytes.len(),
{
    if bytes.len() > 0 {
        lemma_segment_bytes_alphabet(bytes.drop_first());
        let head = segment_byte(bytes[0]);
        let tail = segment_bytes(bytes.drop_first());
        assert forall|i: int| 0 <= i < segment_bytes(bytes).len() implies is_segment_char(
            #[trigger] segment_bytes(bytes)[i],
        ) by {
            if i < head.len() {
                assert(segment_bytes(bytes)[i] == head[i]);
            } else {
                assert(segment_bytes(bytes)[i] == tail[i - head.len()]);
            }
        }
    }
}

/// Percent-encoding goes byte by byte: `A` to `Z`, `a` to `z`, `0` to `9`, `-`, `.`, `_` and
/// `~` are kept, and every other byte is `%` and two digits of `0123456789ABCDEF`, the
/// sixteens first.
pub proof fn law_percent_encoding(text: Seq<char>)
    ensures
        percent_encoded(text) == encode_utf8(text).map_values(
            |b: u8|
                if ('A' as int <= b <= 'Z' as int) || ('a' as int <= b <= 'z' as int) || ('0' as int
                    <= b <= '9' as int) || b == '-' as int || b == '.' as int || b == '_' as int
                    || b == '~' as int {
                    seq![b as char]
                } else {
                    seq![
                        '%',
                        "0123456789ABCDEF"@[b as int / 16],
                        "0123456789ABCDEF"@[b as int % 16],
                    ]
                },
        ).flatten(),
{
    let f = |b: u8|
        if ('A' as int <= b <= 'Z' as int) || ('a' as int <= b <= 'z' as int) || ('0' as int <= b
            <= '9' as int) || b == '-' as int || b == '.' as int || b == '_' as int || b
            == '~' as int {
            seq![b as char]
        } else {
            seq!['%', "0123456789ABCDEF"@[b as int / 16], "0123456789ABCDEF"@[b as int % 16]]
        };
    assert forall|b: u8| #[trigger] f(b) == segment_byte(b) by {
        lemma_hex_digits(b / 16);
        lemma_hex_digits(b % 16);
        assert(f(b) =~= segment_byte(b));
    }
    lemma_bytewise(encode_utf8(text), f);
}

proof fn lemma_hex_digits(n: u8)
    requires
        n < 16,
    ensures
        hex_digit(n) == "0123456789ABCDEF"@[n as int],
{
    reveal_strlit("0123456789ABCDEF");
}

proof fn lemma_bytewise(bytes: Seq<u8>, f: spec_fn(u8) -> Seq<char>)
    requires
        forall|b: u8| #[trigger] f(b) == segment_byte(b),
    ensures
        segment_bytes(bytes) == bytes.map_values(f).flatten(),
    decreases bytes.len(),
{
    let pieces = bytes.map_values(f);
    if bytes.len() > 0 {
        lemma_bytewise(bytes.drop_first(), f);
        assert(pieces.drop_first() == bytes.drop_first().map_values(f));
        assert(pieces.first() == segment_byte(bytes[0]));
    }
}

/// Nothing is lost: percent-decoding a segment and reading the bytes as UTF-8
/// gives the text back.
pub proof fn law_segment_round_trip(text: Seq<char>)
    ensures
        percent_decoded(percent_encoded(text)) == encode_utf8(text),
        decode_utf8(percent_decoded(percent_encoded(text))) == text,
{
    lemma_segment_bytes_decode(encode_utf8(text));
    vstd::utf8::encode_utf8_decode_utf8(text);
}

proof fn lemma_segment_bytes_decode(bytes: Seq<u8>)
    ensures
        percent_decoded(segment_bytes(bytes)) == bytes,
    decreases bytes.len(),
{
    if bytes.len() > 0 {
        let b = bytes[0];
        let rest = segment_bytes(bytes.drop_first());
        let whole = segment_bytes(bytes);
        lemma_segment_bytes_decode(bytes.drop_first());
        assert(seq![b] + bytes.drop_first() == bytes);
        if is_unreserved(b) {
            assert(whole[0] == b as char);
            assert(whole.skip(1) == rest);
        } else {
            assert(whole[0] == '%' && whole[1] == hex_digit(b / 16) && whole[2] == hex_digit(
                b % 16,
            ));
            assert(whole.skip(3) == rest);
            assert(16 * (b / 16) + b % 16 == b);
        }
    }
}

/// Two texts become the same segment only when they are the same text.
pub proof fn law_segment_injective(a: Seq<char>, b: Seq<char>)
    requires
        percent_encoded(a) == percent_encoded(b),
    ensures
        a == b,
{
    law_segment_round_trip(a);
    law_segment_round_trip(b);
}

/// A text of unreserved characters is left as it is.
pub proof fn law_segment_keeps_unreserved(text: Seq<char>)
    requires
        forall|i: int|
            0 <= i < text.len() ==> is_segment_char(#[trigger] text[i]) && text[i] != '%',
    ensures
        percent_encoded(text) == text,
{
    assert forall|i: int| 0 <= i < text.len() implies '\0' <= #[trigger] text[i] <= '\u{7f}' by {
        assert(is_segment_char(text[i]));
        lemma_char_is_not_negative(text[i]);
    }
    assert(is_ascii_chars(text));
    vstd::utf8::is_ascii_chars_encode_utf8(text);
    lemma_segment_bytes_keep(encode_utf8(text));
    assert(percent_encoded(text) =~= text);
}

proof fn lemma_char_is_not_negative(c: char)
    ensures
        0 <= c as int,
{
}

proof fn lemma_segment_bytes_keep(bytes: Seq<u8>)
    requires
        forall|i: int| 0 <= i < bytes.len() ==> is_unreserved(#[trigger] bytes[i]),
    ensures
        segment_bytes(bytes) == Seq::new(bytes.len(), |i: int| bytes[i] as char),
    decreases bytes.len(),
{
    if bytes.len() > 0 {
        lemma_segment_bytes_keep(bytes.drop_first());
        assert(segment_bytes(bytes) =~= Seq::new(bytes.len(), |i: int| bytes[i] as char));
    }
}

// ---------------------------------------------------------------------------
// Form encoding
// ---------------------------------------------------------------------------
/// What one byte becomes in a query pair (`application/x-www-form-urlencoded`).
pub open spec fn form_byte(b: u8) -> Seq<char> {
    if b == 0x2a || (is_unreserved(b) && b != 0x7e) {
        seq![b as char]
    } else if b == 0x20 {
        seq!['+']
    } else {
        escaped(b)
    }
}

/// What a run of bytes becomes in a query pair.
pub open spec fn form_bytes(bytes: Seq<u8>) -> Seq<char>
    decreases bytes.len(),
{
    if bytes.len() == 0 {
        seq![]
    } else {
        form_byte(bytes[0]) + form_bytes(bytes.drop_first())
    }
}

/// A name and a value as one query pair.
pub open spec fn form_pair(name: Seq<char>, value: Seq<char>) -> Seq<char> {
    form_bytes(encode_utf8(name)) + seq!['='] + form_bytes(encode_utf8(value))
}

/// A character of a form-encoded name or value.
pub open spec fn is_form_char(c: char) -> bool {
    c == '%' || c == '+' || c == '*' || (c as int <= 0x7f && is_unreserved(c as u8) && c != '~')
}

/// A form-encoded name or value holds none of the characters that separate the parts of
/// a query (`&`, `=`) or of a URL (`/`, `?`, `#`).
pub proof fn law_form_alphabet(text: Seq<char>)
    ensures
        forall|i: int|
            0 <= i < form_bytes(encode_utf8(text)).len() ==> is_form_char(
                #[trigger] form_bytes(encode_utf8(text))[i],
            ),
        !form_bytes(encode_utf8(text)).contains('&'),
        !form_bytes(encode_utf8(text)).contains('='),
        !form_bytes(encode_utf8(text)).contains('/'),
        !form_bytes(encode_utf8(text)).contains('?'),
        !form_bytes(encode_utf8(text)).contains('#'),
{
    lemma_form_bytes_alphabet(encode_utf8(text));
}

proof fn lemma_form_bytes_alphabet(bytes: Seq<u8>)
    ensures
        forall|i: int|
            0 <= i < form_bytes(bytes).len() ==> is_form_char(#[trigger] form_bytes(bytes)[i]),
    decreases bytes.len(),
{
    if bytes.len() > 0 {
        lemma_form_bytes_alphabet(bytes.drop_first());
        let head = form_byte(bytes[0]);
        let tail = form_bytes(bytes.drop_first());
        assert forall|i: int| 0 <= i < form_bytes(bytes).len() implies is_form_char(
            #[trigger] form_bytes(bytes)[i],
        ) by {
            if i < head.len() {
                assert(form_bytes(bytes)[i] == head[i]);
            } else {
                assert(form_bytes(bytes)[i] == tail[i - head.len()]);
            }
        }
    }
}

/// The bytes that form-encoded text stands for: `+` is a space, `%HH` is one byte,
/// every other character is itself.
pub open spec fn form_decoded(text: Seq<char>) -> Seq<u8>
    decreases text.len(),
{
    if text.len() == 0 {
        seq![]
    } else if text[0] == '%' && text.len() >= 3 {
        seq![(16 * hex_value(text[1]) + hex_value(text[2])) as u8] + form_decoded(text.skip(3))
    } else if text[0] == '+' {
        seq![0x20u8] + form_decoded(text.skip(1))
    } else {
        seq![text[0] as u8] + form_decoded(text.skip(1))
    }
}

/// Nothing is lost: decoding the name or the value of a query pair and reading the
/// bytes as UTF-8 gives the text back.
pub proof fn law_form_round_trip(text: Seq<char>)
    ensures
        form_decoded(form_bytes(encode_utf8(text))) == encode_utf8(text),
        decode_utf8(form_decoded(form_bytes(encode_utf8(text)))) == text,
{
    lemma_form_bytes_decode(encode_utf8(text));
    vstd::utf8::encode_utf8_decode_utf8(text);
}

/// Two query pairs are written alike only when they have the same name and the same
/// value.
pub proof fn law_form_pair_injective(
    a_name: Seq<char>,
    a: Seq<char>,
    b_name: Seq<char>,
    b: Seq<char>,
)
    requires
        form_pair(a_name, a) == form_pair(b_name, b),
    ensures
        a_name == b_name,
        a == b,
{
    law_form_alphabet(a_name);
    law_form_alphabet(b_name);
    lemma_split(
        form_bytes(encode_utf8(a_name)),
        form_bytes(encode_utf8(a)),
        form_bytes(encode_utf8(b_name)),
        form_bytes(encode_utf8(b)),
        '=',
    );
    law_form_round_trip(a_name);
    law_form_round_trip(b_name);
    law_form_round_trip(a);
    law_form_round_trip(b);
}

/// A query pair holds no character that separates it from the next.
pub proof fn lemma_pair_alphabet(name: Seq<char>, value: Seq<char>)
    ensures
        !form_pair(name, value).contains('&'),
        !form_pair(name, value).contains('#'),
{
    let pair = form_pair(name, value);
    let left = form_bytes(encode_utf8(name));
    let right = form_bytes(encode_utf8(value));
    law_form_alphabet(name);
    law_form_alphabet(value);
    assert forall|i: int| 0 <= i < pair.len() implies pair[i] != '&' && pair[i] != '#' by {
        if i < left.len() {
            assert(is_form_char(left[i]));
        } else if i > left.len() {
            assert(is_form_char(right[i - left.len() - 1]));
        }
    }
}

proof fn lemma_form_bytes_decode(bytes: Seq<u8>)
    ensures
        form_decoded(form_bytes(bytes)) == bytes,
    decreases bytes.len(),
{
    if bytes.len() > 0 {
        let b = bytes[0];
        let head = form_byte(b);
        let rest = form_bytes(bytes.drop_first());
        let whole = form_bytes(bytes);
        lemma_form_bytes_decode(bytes.drop_first());
        assert(seq![b] + bytes.drop_first() == bytes);
        if head.len() == 1 {
            assert(whole[0] == head[0]);
            assert(whole.skip(1) == rest);
        } else {
            assert(whole[0] == '%' && whole[1] == hex_digit(b / 16) && whole[2] == hex_digit(
                b % 16,
            ));
            assert(whole.skip(3) == rest);
            assert(16 * (b / 16) + b % 16 == b);
        }
    }
}

// ---------------------------------------------------------------------------
// Decimal numbers
// ---------------------------------------------------------------------------
/// A number in decimal, without leading zeros.
pub open spec fn decimal(n: nat) -> Seq<char>
    decreases n,
{
    if n < 10 {
        seq![(0x30 + n) as char]
    } else {
        decimal(n / 10).push((0x30 + n % 10) as char)
    }
}

/// A signed number in decimal.
pub open spec fn signed_decimal(v: int) -> Seq<char> {
    if v < 0 {
        seq!['-'] + decimal((-v) as nat)
    } else {
        decimal(v as nat)
    }
}

/// One of the ten digits.
pub open spec fn is_digit(c: char) -> bool {
    '0' <= c <= '9'
}

/// A decimal number is made of digits, and of at least one.
pub proof fn lemma_decimal_alphabet(n: nat)
    ensures
        decimal(n).len() > 0,
        forall|i: int| 0 <= i < decimal(n).len() ==> is_digit(#[trigger] decimal(n)[i]),
    decreases n,
{
    if n >= 10 {
        let head = decimal(n / 10);
        lemma_decimal_alphabet(n / 10);
        assert forall|i: int| 0 <= i < decimal(n).len() implies is_digit(
            #[trigger] decimal(n)[i],
        ) by {
            if i < head.len() {
                assert(decimal(n)[i] == head[i]);
            }
        }
    }
}

/// The number that a text of digits stands for.
pub open spec fn decimal_value(text: Seq<char>) -> int
    decreases text.len(),
{
    if text.len() == 0 {
        0
    } else {
        10 * decimal_value(text.drop_last()) + (text.last() as int - 0x30)
    }
}

/// The number that is written in a URL is read back from it.
pub proof fn law_decimal_round_trip(n: nat)
    ensures
        decimal_value(decimal(n)) == n,
    decreases n,
{
    reveal_with_fuel(decimal_value, 2);
    if n < 10 {
        assert(decimal(n).drop_last() == Seq::<char>::empty());
    } else {
        law_decimal_round_trip(n / 10);
        assert(decimal(n).drop_last() == decimal(n / 10));
    }
}

/// A number is written with digits, and with no zero in front but for the number 0.
pub proof fn law_decimal_has_no_leading_zero(n: nat)
    ensures
        decimal(n).len() > 0,
        forall|i: int| 0 <= i < decimal(n).len() ==> '0' <= #[trigger] decimal(n)[i] <= '9',
        decimal(n)[0] == '0' ==> n == 0,
        n == 0 ==> decimal(n) == seq!['0'],
    decreases n,
{
    lemma_decimal_alphabet(n);
    assert forall|i: int| 0 <= i < decimal(n).len() implies '0' <= #[trigger] decimal(n)[i]
        <= '9' by {
        assert(is_digit(decimal(n)[i]));
    }
    if n >= 10 {
        law_decimal_has_no_leading_zero(n / 10);
        assert(decimal(n)[0] == decimal(n / 10)[0]);
    } else {
        assert(decimal(n)[0] == (0x30 + n) as char);
    }
}

/// Every further digit of a number counts for itself, and makes what stands before it count
/// ten times.
pub proof fn law_digits_count(text: Seq<char>, digit: char)
    ensures
        decimal_value(Seq::<char>::empty()) == 0,
        decimal_value(text.push(digit)) == 10 * decimal_value(text) + (digit as int - '0' as int),
{
    assert(text.push(digit).drop_last() == text);
}

/// Two numbers are written alike only when they are the same number.
pub proof fn law_signed_decimal_injective(a: int, b: int)
    requires
        signed_decimal(a) == signed_decimal(b),
    ensures
        a == b,
{
    let m = if a < 0 {
        (-a) as nat
    } else {
        a as nat
    };
    let n = if b < 0 {
        (-b) as nat
    } else {
        b as nat
    };
    law_decimal_round_trip(m);
    law_decimal_round_trip(n);
    lemma_decimal_alphabet(m);
    lemma_decimal_alphabet(n);
    assert(a >= 0 ==> is_digit(signed_decimal(a)[0]));
    assert(b >= 0 ==> is_digit(signed_decimal(b)[0]));
    assert(a < 0 ==> signed_decimal(a)[0] == '-');
    assert(b < 0 ==> signed_decimal(b)[0] == '-');
    if a < 0 {
        assert(signed_decimal(a).skip(1) == decimal(m));
        assert(signed_decimal(b).skip(1) == decimal(n));
    }
}

/// Where two texts are the same and their parts before a separator do not hold it,
/// both parts are the same.
pub proof fn lemma_split(a: Seq<char>, b: Seq<char>, c: Seq<char>, d: Seq<char>, separator: char)
    requires
        a + seq![separator] + b == c + seq![separator] + d,
        !a.contains(separator),
        !c.contains(separator),
    ensures
        a == c,
        b == d,
{
    let left = a + seq![separator] + b;
    let right = c + seq![separator] + d;
    assert(left[a.len() as int] == separator);
    assert(right[c.len() as int] == separator);
    if a.len() < c.len() {
        assert(right[a.len() as int] == c[a.len() as int]);
    }
    if c.len() < a.len() {
        assert(left[c.len() as int] == a[c.len() as int]);
    }
    assert(left.take(a.len() as int) == a);
    assert(right.take(c.len() as int) == c);
    assert(left.skip(a.len() as int + 1) == b);
    assert(right.skip(c.len() as int + 1) == d);
}

/// Where two texts begin alike, what is behind the beginning is the same too.
pub proof fn lemma_same_rest(start: Seq<char>, a: Seq<char>, b: Seq<char>)
    requires
        start + a == start + b,
    ensures
        a == b,
{
    assert((start + a).skip(start.len() as int) == a);
    assert((start + b).skip(start.len() as int) == b);
}

/// A percent-encoded value does not hold a character that separates the parts of a URL.
pub proof fn lemma_no_separator(text: Seq<char>, separator: char)
    requires
        !is_segment_char(separator),
    ensures
        !percent_encoded(text).contains(separator),
{
    law_segment_alphabet(text);
}

/// A decimal number does not hold a character that is no digit.
pub proof fn lemma_no_separator_in_decimal(n: nat, separator: char)
    requires
        !is_digit(separator),
    ensures
        !decimal(n).contains(separator),
{
    lemma_decimal_alphabet(n);
}

pub(crate) fn decimal_text(n: u64) -> (out: String)
    ensures
        out@ == decimal(n as nat),
    decreases n,
{
    let mut out = if n < 10 {
        String::new()
    } else {
        decimal_text(n / 10)
    };
    out.push((0x30 + (n % 10) as u8) as char);
    assert(out@ =~= decimal(n as nat));
    out
}

pub(crate) fn signed_decimal_text(v: i64) -> (out: String)
    ensures
        out@ == signed_decimal(v as int),
{
    if v < 0 {
        let magnitude: u64 = (-(v + 1)) as u64 + 1;
        let mut out = String::new();
        out.push('-');
        out.append(decimal_text(magnitude).as_str());
        assert(out@ =~= signed_decimal(v as int));
        out
    } else {
        decimal_text(v as u64)
    }
}

/// Whether two texts are the same.
pub(crate) fn same_text(a: &str, b: &str) -> (r: bool)
    ensures
        r == (a@ == b@),
{
    a.to_owned() == b.to_owned()
}

} // verus!
