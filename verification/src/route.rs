//! Why the paths that the clients build arrive where they should: a path made of
//! fixed words and percent-encoded values is a plain path, unless one of the values is
//! `.` or `..`.
use crate::outside::{
    directory, escaped_dot_at, is_dot_segment, is_plain_path, is_plain_query, is_plain_reference,
    is_segment, stem, through_last_slash,
};
use crate::text::{
    hex_digit, is_segment_char, law_segment_alphabet, law_segment_injective,
    law_segment_keeps_unreserved, percent_encoded, segment_byte, segment_bytes,
};
use vstd::prelude::*;
use vstd::utf8::encode_utf8;

verus! {

/// A segment that keeps its place and its spelling when a URL is resolved.
pub open spec fn is_plain_segment(segment: Seq<char>) -> bool {
    &&& forall|i: int| 0 <= i < segment.len() ==> is_segment_char(#[trigger] segment[i])
    &&& !is_dot_segment(segment)
    &&& forall|i: int| !#[trigger] escaped_dot_at(segment, i)
}

/// A path with one more segment.
pub open spec fn slash(path: Seq<char>, segment: Seq<char>) -> Seq<char> {
    path + seq!['/'] + segment
}

/// A percent-encoded value is a plain segment, but for the values `.` and `..`,
/// which percent-encoding leaves as they are.
pub proof fn law_encoded_value_is_plain(value: Seq<char>)
    requires
        !is_dot_segment(value),
    ensures
        is_plain_segment(percent_encoded(value)),
{
    law_segment_alphabet(value);
    lemma_no_escaped_dot(encode_utf8(value));
    if is_dot_segment(percent_encoded(value)) {
        let dots = percent_encoded(value);
        law_segment_keeps_unreserved(dots);
        law_segment_injective(value, dots);
    }
}

proof fn lemma_no_escaped_dot(bytes: Seq<u8>)
    ensures
        forall|i: int| !#[trigger] escaped_dot_at(segment_bytes(bytes), i),
    decreases bytes.len(),
{
    if bytes.len() > 0 {
        let b = bytes[0];
        let head = segment_byte(b);
        let tail = segment_bytes(bytes.drop_first());
        let whole = segment_bytes(bytes);
        lemma_no_escaped_dot(bytes.drop_first());
        assert forall|i: int| !#[trigger] escaped_dot_at(whole, i) by {
            if escaped_dot_at(whole, i) {
                if i >= head.len() {
                    assert(whole[i] == tail[i - head.len()]);
                    assert(whole[i + 1] == tail[i + 1 - head.len()]);
                    assert(whole[i + 2] == tail[i + 2 - head.len()]);
                    assert(escaped_dot_at(tail, i - head.len()));
                } else {
                    assert(whole[i] == head[i]);
                    assert(i == 0);
                    assert(whole[1] == hex_digit(b / 16) && whole[2] == hex_digit(b % 16));
                }
            }
        }
    }
}

/// A fixed word without a dot or an escape is a plain segment.
pub proof fn lemma_word(word: Seq<char>)
    requires
        forall|i: int|
            0 <= i < word.len() ==> is_segment_char(#[trigger] word[i]) && word[i] != '.'
                && word[i] != '%',
    ensures
        is_plain_segment(word),
{
    if is_dot_segment(word) {
        assert(word[0] == '.');
    }
}

/// A plain segment that is not empty is a plain path.
pub proof fn lemma_first_segment(segment: Seq<char>)
    requires
        segment.len() > 0,
        is_plain_segment(segment),
    ensures
        is_plain_path(segment),
{
    assert(is_segment_char(segment[0]));
    assert forall|i: int, j: int| #[trigger] is_segment(segment, i, j) implies !is_dot_segment(
        segment.subrange(i, j),
    ) by {
        if i > 0 {
            assert(is_segment_char(segment[i - 1]));
        }
        if j < segment.len() {
            assert(is_segment_char(segment[j]));
        }
        assert(segment.subrange(0, segment.len() as int) == segment);
    }
}

/// A plain path with one more plain segment is a plain path.
pub proof fn lemma_next_segment(path: Seq<char>, segment: Seq<char>)
    requires
        is_plain_path(path),
        is_plain_segment(segment),
    ensures
        is_plain_path(slash(path, segment)),
{
    let n = path.len() as int;
    let whole = slash(path, segment);
    assert(whole[0] == path[0]);
    assert forall|i: int| 0 <= i < whole.len() implies is_segment_char(#[trigger] whole[i])
        || whole[i] == '/' by {
        if i < n {
            assert(whole[i] == path[i]);
        } else if i > n {
            assert(whole[i] == segment[i - n - 1]);
        }
    }
    assert forall|i: int, j: int| #[trigger] is_segment(whole, i, j) implies !is_dot_segment(
        whole.subrange(i, j),
    ) by {
        let part = whole.subrange(i, j);
        if j <= n {
            assert(i > 0 ==> whole[i - 1] == path[i - 1]);
            assert(j < n ==> whole[j] == path[j]);
            assert(is_segment(path, i, j));
            assert(part == path.subrange(i, j));
        } else if i <= n {
            assert(part[n - i] == '/');
            assert(part.len() == 1 ==> part[0] == '/');
            assert(part.len() == 2 ==> part[0] == '/' || part[1] == '/');
        } else {
            if i > n + 1 {
                assert(whole[i - 1] == segment[i - n - 2]);
                assert(is_segment_char(segment[i - n - 2]));
            }
            if j < whole.len() {
                assert(whole[j] == segment[j - n - 1]);
                assert(is_segment_char(segment[j - n - 1]));
            }
            assert(part == segment);
        }
    }
    assert forall|i: int| !#[trigger] escaped_dot_at(whole, i) by {
        if escaped_dot_at(whole, i) {
            if i > n {
                assert(whole[i] == segment[i - n - 1]);
                assert(whole[i + 1] == segment[i - n]);
                assert(whole[i + 2] == segment[i - n + 1]);
                assert(escaped_dot_at(segment, i - n - 1));
            } else if i + 2 < n {
                assert(whole[i] == path[i]);
                assert(whole[i + 1] == path[i + 1]);
                assert(whole[i + 2] == path[i + 2]);
                assert(escaped_dot_at(path, i));
            } else {
                assert(whole[n] == '/');
            }
        }
    }
}

/// A plain path with a plain query behind it is a plain reference.
pub proof fn lemma_plain_reference(path: Seq<char>, query: Seq<char>)
    requires
        is_plain_path(path),
        is_plain_query(query),
    ensures
        is_plain_reference(path + query),
{
    lemma_stem(path, query);
}

/// A plain path is a plain reference.
pub proof fn lemma_plain_path(path: Seq<char>)
    requires
        is_plain_path(path),
    ensures
        is_plain_reference(path),
        !path.contains('?'),
        !path.contains('#'),
{
    lemma_plain_reference(path, seq![]);
    assert(path + seq![] == path);
    assert forall|i: int| 0 <= i < path.len() implies path[i] != '?' && path[i] != '#' by {
        assert(is_segment_char(path[i]) || path[i] == '/');
    }
}

/// A character of a plain path.
pub open spec fn is_path_char(c: char) -> bool {
    is_segment_char(c) || c == '/'
}

/// A path of such characters has no query and no fragment behind it.
pub proof fn lemma_no_fragment(path: Seq<char>)
    requires
        forall|i: int| 0 <= i < path.len() ==> is_path_char(#[trigger] path[i]),
    ensures
        !path.contains('#'),
        !path.contains('?'),
{
}

/// Nothing of a base's query is left in its directory.
pub proof fn lemma_directory_has_no_query(base: Seq<char>)
    ensures
        !directory(base).contains('?'),
{
    lemma_stem_has_no_query(base);
    lemma_through_last_slash_is_prefix(stem(base));
    let dir = directory(base);
    assert forall|i: int| 0 <= i < dir.len() implies dir[i] != '?' by {
        assert(dir[i] == stem(base)[i]);
        assert(stem(base).contains(stem(base)[i]));
    }
}

proof fn lemma_stem_has_no_query(text: Seq<char>)
    ensures
        !stem(text).contains('?'),
    decreases text.len(),
{
    if !(text.len() == 0 || text[0] == '?' || text[0] == '#') {
        let rest = stem(text.drop_first());
        lemma_stem_has_no_query(text.drop_first());
        assert forall|i: int| 0 <= i < stem(text).len() implies stem(text)[i] != '?' by {
            if i > 0 {
                assert(stem(text)[i] == rest[i - 1]);
                assert(rest.contains(rest[i - 1]));
            }
        }
    }
}

proof fn lemma_through_last_slash_is_prefix(text: Seq<char>)
    ensures
        through_last_slash(text).is_prefix_of(text),
    decreases text.len(),
{
    if !(text.len() == 0 || text.last() == '/') {
        lemma_through_last_slash_is_prefix(text.drop_last());
    }
}

/// A character of a plain query.
pub open spec fn is_query_char(c: char) -> bool {
    is_segment_char(c) || c == '=' || c == '&'
}

/// A plain query with more plain text behind it is a plain query.
pub proof fn lemma_longer_query(query: Seq<char>, more: Seq<char>)
    requires
        query.len() > 0,
        is_plain_query(query),
        forall|i: int| 0 <= i < more.len() ==> is_query_char(#[trigger] more[i]),
    ensures
        is_plain_query(query + more),
{
    let whole = query + more;
    assert forall|i: int| 1 <= i < whole.len() implies is_segment_char(#[trigger] whole[i])
        || whole[i] == '=' || whole[i] == '&' by {
        if i < query.len() {
            assert(whole[i] == query[i]);
        } else {
            assert(whole[i] == more[i - query.len()]);
        }
    }
}

proof fn lemma_stem(path: Seq<char>, query: Seq<char>)
    requires
        forall|i: int|
            0 <= i < path.len() ==> is_segment_char(#[trigger] path[i]) || path[i] == '/',
        query.len() > 0 ==> query[0] == '?',
    ensures
        stem(path + query) == path,
        (path + query).skip(path.len() as int) == query,
    decreases path.len(),
{
    assert((path + query).skip(path.len() as int) == query);
    if path.len() == 0 {
        assert(path + query == query);
    } else {
        assert((path + query)[0] == path[0]);
        assert(is_segment_char(path[0]) || path[0] == '/');
        lemma_stem(path.drop_first(), query);
        assert((path + query).drop_first() == path.drop_first() + query);
        assert(seq![path[0]] + path.drop_first() == path);
    }
}

} // verus!
