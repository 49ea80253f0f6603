//! How a service takes a request apart: the segments of its path, and the pairs of its
//! query. The laws of the clients say what is found there.
use crate::text::{
    decimal, form_bytes, form_decoded, form_pair, hex_digit, is_digit, is_segment_char,
    is_unreserved, law_form_alphabet, law_form_round_trip, law_segment_keeps_unreserved,
    law_segment_round_trip, lemma_decimal_alphabet, lemma_no_separator, lemma_pair_alphabet,
    percent_decoded, percent_encoded, segment_bytes, signed_decimal,
};
use vstd::prelude::*;
use vstd::utf8::{decode_utf8, encode_utf8};

verus! {

// ---------------------------------------------------------------------------
// Taking a text apart
// ---------------------------------------------------------------------------
/// A text up to the first separator, or the whole text.
pub open spec fn before(text: Seq<char>, separator: char) -> Seq<char>
    decreases text.len(),
{
    if text.len() == 0 || text[0] == separator {
        seq![]
    } else {
        seq![text[0]] + before(text.drop_first(), separator)
    }
}

/// Whether a text holds a separator.
pub open spec fn splits_at(text: Seq<char>, separator: char) -> bool {
    before(text, separator).len() < text.len()
}

/// A text behind the first separator.
pub open spec fn after(text: Seq<char>, separator: char) -> Seq<char> {
    text.skip(before(text, separator).len() as int + 1)
}

/// The parts of a text between the separators.
pub open spec fn parts(text: Seq<char>, separator: char) -> Seq<Seq<char>>
    decreases text.len(),
{
    if splits_at(text, separator) {
        seq![before(text, separator)] + parts(after(text, separator), separator)
    } else {
        seq![text]
    }
}

/// The value that a path segment stands for.
pub open spec fn segment_value(segment: Seq<char>) -> Seq<char> {
    decode_utf8(percent_decoded(segment))
}

/// What a name or a value in a query stands for.
pub open spec fn form_value(text: Seq<char>) -> Seq<char> {
    decode_utf8(form_decoded(text))
}

/// The name and the value of one pair of a query.
pub open spec fn pair_value(pair: Seq<char>) -> (Seq<char>, Seq<char>) {
    (form_value(before(pair, '=')), form_value(after(pair, '=')))
}

/// The values of the segments of a path, up to the query where there is one.
pub open spec fn read_path(reference: Seq<char>) -> Seq<Seq<char>> {
    parts(before(reference, '?'), '/').map_values(|segment: Seq<char>| segment_value(segment))
}

/// The pairs of the query behind a path, none where there is no query.
pub open spec fn read_query(reference: Seq<char>) -> Seq<(Seq<char>, Seq<char>)> {
    if splits_at(reference, '?') {
        parts(after(reference, '?'), '&').map_values(|pair: Seq<char>| pair_value(pair))
    } else {
        seq![]
    }
}

/// The number that a text of digits, or of a sign and digits, stands for.
pub open spec fn number_value(text: Seq<char>) -> int {
    if text.len() > 0 && text[0] == '-' {
        -crate::text::decimal_value(text.skip(1))
    } else {
        crate::text::decimal_value(text)
    }
}

proof fn lemma_before(a: Seq<char>, b: Seq<char>, separator: char)
    requires
        !a.contains(separator),
    ensures
        before(a, separator) == a,
        !splits_at(a, separator),
        before(a + seq![separator] + b, separator) == a,
        splits_at(a + seq![separator] + b, separator),
        after(a + seq![separator] + b, separator) == b,
    decreases a.len(),
{
    let whole = a + seq![separator] + b;
    if a.len() == 0 {
        assert(whole[0] == separator);
        assert(before(whole, separator) == a);
    } else {
        let rest = a.drop_first();
        assert(a.contains(a[0]));
        assert forall|i: int| 0 <= i < rest.len() implies rest[i] != separator by {
            assert(a.contains(a[i + 1]));
        }
        lemma_before(rest, b, separator);
        assert(whole[0] == a[0]);
        assert(whole.drop_first() == rest + seq![separator] + b);
        assert(seq![a[0]] + rest == a);
    }
    assert(whole.skip(a.len() as int + 1) == b);
}

/// Parts with a separator between each two.
pub open spec fn joined(pieces: Seq<Seq<char>>, separator: char) -> Seq<char>
    decreases pieces.len(),
{
    if pieces.len() == 0 {
        seq![]
    } else if pieces.len() == 1 {
        pieces[0]
    } else {
        pieces[0] + seq![separator] + joined(pieces.drop_first(), separator)
    }
}

/// The parts of a text make up the text again, in their order and with the separator
/// between each two, and no part holds the separator.
pub proof fn law_parts(text: Seq<char>, separator: char)
    ensures
        parts(text, separator).len() > 0,
        forall|i: int|
            0 <= i < parts(text, separator).len() ==> !(
            #[trigger] parts(text, separator)[i]).contains(separator),
        joined(parts(text, separator), separator) == text,
    decreases text.len(),
{
    let found = parts(text, separator);
    lemma_taken_apart(text, separator);
    if splits_at(text, separator) {
        let rest = parts(after(text, separator), separator);
        law_parts(after(text, separator), separator);
        assert(found.drop_first() == rest);
        assert forall|i: int| 0 <= i < found.len() implies !(#[trigger] found[i]).contains(
            separator,
        ) by {
            if i > 0 {
                assert(found[i] == rest[i - 1]);
            }
        }
    }
}

proof fn lemma_taken_apart(text: Seq<char>, separator: char)
    ensures
        !before(text, separator).contains(separator),
        before(text, separator).len() <= text.len(),
        splits_at(text, separator) ==> text == before(text, separator) + seq![separator] + after(
            text,
            separator,
        ),
        !splits_at(text, separator) ==> text == before(text, separator),
    decreases text.len(),
{
    if text.len() > 0 && text[0] != separator {
        let rest = text.drop_first();
        let start = before(rest, separator);
        lemma_taken_apart(rest, separator);
        assert(before(text, separator) == seq![text[0]] + start);
        assert forall|i: int| 0 <= i < before(text, separator).len() implies before(
            text,
            separator,
        )[i] != separator by {
            if i > 0 {
                assert(before(text, separator)[i] == start[i - 1]);
                assert(start.contains(start[i - 1]));
            }
        }
        assert(seq![text[0]] + rest == text);
        if splits_at(text, separator) {
            assert(after(text, separator) == after(rest, separator));
        }
    } else if text.len() > 0 {
        assert(text == seq![separator] + text.skip(1));
    }
}

/// A reference is its path, or its path and a `?` and its query. Each value of the path is
/// that of one of the parts between the slashes. Each pair of the query is that of one of
/// the parts between the ampersands, its name before the `=` and its value behind it.
pub proof fn law_reading(reference: Seq<char>)
    ensures
        read_path(reference).len() == parts(before(reference, '?'), '/').len(),
        forall|i: int|
            0 <= i < read_path(reference).len() ==> #[trigger] read_path(reference)[i]
                == decode_utf8(percent_decoded(parts(before(reference, '?'), '/')[i])),
        !splits_at(reference, '?') ==> before(reference, '?') == reference && read_query(
            reference,
        ).len() == 0,
        splits_at(reference, '?') ==> {
            let pairs = parts(after(reference, '?'), '&');
            &&& reference == before(reference, '?') + seq!['?'] + after(reference, '?')
            &&& read_query(reference).len() == pairs.len()
            &&& forall|i: int|
                0 <= i < pairs.len() ==> #[trigger] read_query(reference)[i] == (
                    decode_utf8(form_decoded(before(pairs[i], '='))),
                    decode_utf8(form_decoded(after(pairs[i], '='))),
                )
        },
{
    lemma_taken_apart(reference, '?');
}

/// A text without the separator is its only part.
proof fn lemma_one_part(a: Seq<char>, separator: char)
    requires
        !a.contains(separator),
    ensures
        parts(a, separator) == seq![a],
{
    lemma_before(a, seq![], separator);
}

/// What stands before the first separator is the first part.
proof fn lemma_first_part(a: Seq<char>, b: Seq<char>, separator: char)
    requires
        !a.contains(separator),
    ensures
        parts(a + seq![separator] + b, separator) == seq![a] + parts(b, separator),
{
    lemma_before(a, b, separator);
}

// ---------------------------------------------------------------------------
// Paths
// ---------------------------------------------------------------------------
/// The values of the segments of a path that has no query.
pub open spec fn segment_values(path: Seq<char>) -> Seq<Seq<char>> {
    parts(path, '/').map_values(|segment: Seq<char>| segment_value(segment))
}

/// A path of one value.
pub proof fn lemma_last_value(value: Seq<char>)
    ensures
        segment_values(percent_encoded(value)) == seq![value],
{
    lemma_no_separator(value, '/');
    lemma_one_part(percent_encoded(value), '/');
    law_segment_round_trip(value);
    assert(segment_values(percent_encoded(value)) =~= seq![value]);
}

/// A path with one more value in front.
pub proof fn lemma_first_value(value: Seq<char>, path: Seq<char>)
    ensures
        segment_values(percent_encoded(value) + seq!['/'] + path) == seq![value]
            + segment_values(path),
{
    lemma_no_separator(value, '/');
    lemma_first_part(percent_encoded(value), path, '/');
    law_segment_round_trip(value);
    assert(segment_values(percent_encoded(value) + seq!['/'] + path) =~= seq![value]
        + segment_values(path));
}

/// A fixed word stands for itself.
pub proof fn lemma_word_is_kept(word: Seq<char>)
    requires
        forall|i: int|
            0 <= i < word.len() ==> is_segment_char(#[trigger] word[i]) && word[i] != '%',
    ensures
        percent_encoded(word) == word,
{
    law_segment_keeps_unreserved(word);
}

/// A path without a query is read as its segments.
pub proof fn lemma_bare_path(path: Seq<char>)
    requires
        !path.contains('?'),
    ensures
        read_path(path) == segment_values(path),
        read_query(path) == Seq::<(Seq<char>, Seq<char>)>::empty(),
{
    lemma_before(path, seq![], '?');
}

/// A path with a query behind it is read as its segments and the pairs of the query.
pub proof fn lemma_path_and_query(path: Seq<char>, query: Seq<char>)
    requires
        !path.contains('?'),
    ensures
        read_path(path + (seq!['?'] + query)) == segment_values(path),
        read_query(path + (seq!['?'] + query)) == pair_values(query),
{
    lemma_before(path, query, '?');
    assert(path + (seq!['?'] + query) == path + seq!['?'] + query);
}

// ---------------------------------------------------------------------------
// Queries
// ---------------------------------------------------------------------------
/// The pairs of a query, without the `?` in front.
pub open spec fn pair_values(query: Seq<char>) -> Seq<(Seq<char>, Seq<char>)> {
    parts(query, '&').map_values(|pair: Seq<char>| pair_value(pair))
}

/// A name and a value that are percent-encoded, as one query pair.
pub open spec fn raw_pair(name: Seq<char>, value: Seq<char>) -> Seq<char> {
    percent_encoded(name) + seq!['='] + percent_encoded(value)
}

proof fn lemma_form_reads_segment_bytes(bytes: Seq<u8>)
    ensures
        form_decoded(segment_bytes(bytes)) == bytes,
    decreases bytes.len(),
{
    if bytes.len() > 0 {
        let b = bytes[0];
        let rest = segment_bytes(bytes.drop_first());
        let whole = segment_bytes(bytes);
        lemma_form_reads_segment_bytes(bytes.drop_first());
        assert(seq![b] + bytes.drop_first() == bytes);
        if is_unreserved(b) {
            assert(whole[0] == b as char);
            assert(whole.skip(1) == rest);
        } else {
            assert(whole[0] == '%' && whole[1] == hex_digit(b / 16) && whole[2] == hex_digit(
                b % 16,
            ));
            assert(whole.skip(3) == rest);
            assert(16 * (b / 16) + b % 16 == b);
        }
    }
}

/// A percent-encoded value stands for itself in a query too.
pub proof fn lemma_form_reads_encoded(value: Seq<char>)
    ensures
        form_value(percent_encoded(value)) == value,
{
    lemma_form_reads_segment_bytes(encode_utf8(value));
    vstd::utf8::encode_utf8_decode_utf8(value);
}

proof fn lemma_raw_pair(name: Seq<char>, value: Seq<char>)
    ensures
        !raw_pair(name, value).contains('&'),
        pair_value(raw_pair(name, value)) == (name, value),
{
    let left = percent_encoded(name);
    let right = percent_encoded(value);
    let pair = raw_pair(name, value);
    lemma_no_separator(name, '=');
    lemma_no_separator(name, '&');
    lemma_no_separator(value, '&');
    assert forall|i: int| 0 <= i < pair.len() implies pair[i] != '&' by {
        if i < left.len() {
            assert(left.contains(left[i]));
        } else if i > left.len() {
            assert(right.contains(right[i - left.len() - 1]));
        }
    }
    lemma_before(left, right, '=');
    lemma_form_reads_encoded(name);
    lemma_form_reads_encoded(value);
}

proof fn lemma_form_pair(name: Seq<char>, value: Seq<char>)
    ensures
        !form_pair(name, value).contains('&'),
        pair_value(form_pair(name, value)) == (name, value),
{
    let left = form_bytes(encode_utf8(name));
    let right = form_bytes(encode_utf8(value));
    lemma_pair_alphabet(name, value);
    law_form_alphabet(name);
    lemma_before(left, right, '=');
    law_form_round_trip(name);
    law_form_round_trip(value);
}

/// A query of one form-encoded pair.
pub proof fn lemma_last_pair(name: Seq<char>, value: Seq<char>)
    ensures
        pair_values(form_pair(name, value)) == seq![(name, value)],
{
    lemma_form_pair(name, value);
    lemma_one_part(form_pair(name, value), '&');
    assert(pair_values(form_pair(name, value)) =~= seq![(name, value)]);
}

/// A query with one more form-encoded pair in front.
pub proof fn lemma_front_pair(name: Seq<char>, value: Seq<char>, query: Seq<char>)
    ensures
        pair_values(form_pair(name, value) + seq!['&'] + query) == seq![(name, value)]
            + pair_values(query),
{
    lemma_form_pair(name, value);
    lemma_first_part(form_pair(name, value), query, '&');
    assert(pair_values(form_pair(name, value) + seq!['&'] + query) =~= seq![(name, value)]
        + pair_values(query));
}

/// A query of one percent-encoded pair.
pub proof fn lemma_last_raw_pair(name: Seq<char>, value: Seq<char>)
    ensures
        pair_values(raw_pair(name, value)) == seq![(name, value)],
{
    lemma_raw_pair(name, value);
    lemma_one_part(raw_pair(name, value), '&');
    assert(pair_values(raw_pair(name, value)) =~= seq![(name, value)]);
}

/// A query with one more percent-encoded pair in front.
pub proof fn lemma_front_raw_pair(name: Seq<char>, value: Seq<char>, query: Seq<char>)
    ensures
        pair_values(raw_pair(name, value) + seq!['&'] + query) == seq![(name, value)]
            + pair_values(query),
{
    lemma_raw_pair(name, value);
    lemma_first_part(raw_pair(name, value), query, '&');
    assert(pair_values(raw_pair(name, value) + seq!['&'] + query) =~= seq![(name, value)]
        + pair_values(query));
}

// ---------------------------------------------------------------------------
// Numbers
// ---------------------------------------------------------------------------
/// A signed number is read back as it was, and has a sign only where it is negative.
pub proof fn law_number_round_trip(v: int)
    ensures
        number_value(signed_decimal(v)) == v,
        signed_decimal(v).len() > 0,
        v < 0 <==> signed_decimal(v)[0] == '-',
        percent_encoded(signed_decimal(v)) == signed_decimal(v),
{
    let m = if v < 0 {
        (-v) as nat
    } else {
        v as nat
    };
    crate::text::law_decimal_round_trip(m);
    lemma_decimal_alphabet(m);
    assert(is_digit(decimal(m)[0]));
    if v < 0 {
        assert(signed_decimal(v).skip(1) == decimal(m));
        assert forall|i: int| 0 < i < signed_decimal(v).len() implies signed_decimal(v)[i]
            == decimal(m)[i - 1] by {}
    }
    lemma_word_is_kept(signed_decimal(v));
}

/// A number is read back as it was, and keeps its spelling when it is encoded.
pub proof fn law_plain_number_round_trip(n: nat)
    ensures
        number_value(decimal(n)) == n,
        percent_encoded(decimal(n)) == decimal(n),
{
    law_number_round_trip(n as int);
}

} // verus!
