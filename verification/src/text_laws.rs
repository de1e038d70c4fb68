//! What holds of texts, numbers, lists and headers, by which the rest is
//! stated.
use axum::http::HeaderMap;
use vstd::prelude::*;
use vstd::utf8;

use crate::api_error;
use crate::api_error::ApiError;
use crate::assets;
use crate::cookies;
use crate::gateway;
use crate::headers;
use crate::numbers;
use crate::order;
use crate::ranges;
use crate::session;
use crate::shares::SharedDirectory;
use crate::text;

verus! {

/// A text opens with what was put before it and closes with what was put behind
/// it; what opens or closes a text can be taken off and put back.
pub proof fn law_beginnings_and_ends(a: Seq<char>, b: Seq<char>)
    ensures
        text::has_prefix(a + b, a),
        text::has_suffix(a + b, b),
        text::has_prefix(a, b) ==> a == b + a.skip(b.len() as int),
        text::has_suffix(a, b) ==> a == a.take(a.len() - b.len()) + b,
{
    assert((a + b).take(a.len() as int) =~= a);
    assert((a + b).skip(a.len() as int) =~= b);
    if text::has_prefix(a, b) {
        assert(a =~= b + a.skip(b.len() as int));
    }
    if text::has_suffix(a, b) {
        assert(a =~= a.take(a.len() - b.len()) + b);
    }
}

/// Trimming leaves no white space at either end, and takes away nothing else.
pub proof fn law_trimming(s: Seq<char>)
    ensures
        text::trimmed(s).len() > 0 ==> !text::white_space(text::trimmed(s)[0])
            && !text::white_space(text::trimmed(s).last()),
        s.len() > 0 && !text::white_space(s[0]) && !text::white_space(s.last()) ==> text::trimmed(s)
            == s,
        exists|from: int, to: int|
            0 <= from <= to <= s.len() && text::trimmed(s) == #[trigger] s.subrange(from, to),
        forall|w: char| #[trigger]
            text::white_space(w) ==> text::trimmed(seq![w] + s) == text::trimmed(s)
                && text::trimmed(s.push(w)) == text::trimmed(s),
{
    lemma_trimmed_ends(s);
    assert forall|w: char| #[trigger] text::white_space(w) implies text::trimmed(seq![w] + s)
        == text::trimmed(s) && text::trimmed(s.push(w)) == text::trimmed(s) by {
        lemma_trim_added(s, w);
    }
}

proof fn lemma_trimmed_ends(s: Seq<char>)
    ensures
        text::trimmed(s).len() > 0 ==> !text::white_space(text::trimmed(s)[0])
            && !text::white_space(text::trimmed(s).last()),
        s.len() > 0 && !text::white_space(s[0]) && !text::white_space(s.last()) ==> text::trimmed(s)
            == s,
        exists|from: int, to: int|
            0 <= from <= to <= s.len() && text::trimmed(s) == #[trigger] s.subrange(from, to),
{
    let from = lemma_trim_start(s);
    let t = text::trim_start(s);
    let to = lemma_trim_end(t);
    assert(text::trimmed(s) =~= s.subrange(from, from + to));
}

proof fn lemma_trim_added(s: Seq<char>, w: char)
    requires
        text::white_space(w),
    ensures
        text::trimmed(seq![w] + s) == text::trimmed(s),
        text::trimmed(s.push(w)) == text::trimmed(s),
{
    let u = seq![w] + s;
    assert(u.skip(1) =~= s);
    assert(u[0] == w);
    crate::guard_laws::lemma_trim_push(s, w);
}

proof fn lemma_trim_start(s: Seq<char>) -> (from: int)
    ensures
        0 <= from <= s.len(),
        text::trim_start(s) == s.skip(from),
        from < s.len() ==> !text::white_space(s[from]),
    decreases s.len(),
{
    if s.len() > 0 && text::white_space(s[0]) {
        let from = lemma_trim_start(s.skip(1));
        assert(s.skip(1).skip(from) =~= s.skip(from + 1));
        from + 1
    } else {
        assert(s.skip(0) =~= s);
        0
    }
}

proof fn lemma_trim_end(s: Seq<char>) -> (to: int)
    ensures
        0 <= to <= s.len(),
        text::trim_end(s) == s.take(to),
        to > 0 ==> !text::white_space(s[to - 1]),
    decreases s.len(),
{
    if s.len() > 0 && text::white_space(s.last()) {
        let to = lemma_trim_end(s.drop_last());
        assert(s.drop_last().take(to) =~= s.take(to));
        to
    } else {
        assert(s.take(s.len() as int) =~= s);
        s.len() as int
    }
}

/// What is stripped from an end is all of the character there, and nothing else.
pub proof fn law_stripping(s: Seq<char>, c: char)
    ensures
        text::strip_leading(seq![c] + s, c) == text::strip_leading(s, c),
        text::strip_trailing(s.push(c), c) == text::strip_trailing(s, c),
        s.len() > 0 && s[0] != c ==> text::strip_leading(s, c) == s,
        s.len() > 0 && s.last() != c ==> text::strip_trailing(s, c) == s,
        text::strip_leading(Seq::empty(), c).len() == 0,
        text::strip_trailing(Seq::empty(), c).len() == 0,
{
    assert((seq![c] + s).skip(1) =~= s);
    assert(s.push(c).drop_last() =~= s);
}

/// The pieces of a text are those of its parts on both sides of a separator, and
/// a text without separators is its own piece.
pub proof fn law_pieces(a: Seq<char>, b: Seq<char>, sep: char)
    ensures
        text::pieces(a + seq![sep] + b, sep) == text::pieces(a, sep) + text::pieces(b, sep),
        !a.contains(sep) ==> text::pieces(a, sep) == seq![a],
{
    cookies::lemma_pieces_join(a, b, sep);
    if !a.contains(sep) {
        assert forall|i: int| 0 <= i < a.len() implies #[trigger] a[i] != sep by {
            assert(a.contains(a[i]));
        }
        cookies::lemma_single_piece(a, sep);
    }
}

/// Lower case changes the letters of ASCII, one by one, and nothing else.
pub proof fn law_lower_case(s: Seq<char>)
    ensures
        text::lowered(s).len() == s.len(),
        forall|i: int|
            0 <= i < s.len() ==> (#[trigger] text::lowered(s)[i]) == if 'A' <= s[i] <= 'Z' {
                ((s[i] as u32) + 32) as char
            } else {
                s[i]
            },
{
}

/// Texts are ordered by the first character in which they differ, and a text
/// stands before those that it opens.
pub proof fn law_the_order_of_texts(p: Seq<char>, x: char, a: Seq<char>, y: char, b: Seq<char>)
    ensures
        x != y ==> (order::before(p + seq![x] + a, p + seq![y] + b) <==> x < y),
        order::before(p, p + seq![x] + a),
        !order::before(p, p),
        !order::before(p + seq![x] + a, p),
    decreases p.len(),
{
    let s = p + seq![x] + a;
    let t = p + seq![y] + b;
    if p.len() > 0 {
        let q = p.skip(1);
        assert(s[0] == p[0] && t[0] == p[0]);
        assert(s.skip(1) =~= q + seq![x] + a);
        assert(t.skip(1) =~= q + seq![y] + b);
        law_the_order_of_texts(q, x, a, y, b);
    } else {
        assert(s[0] == x && t[0] == y);
    }
}

/// A number in decimal is that of its tens, followed by its units; one digit is
/// itself. Reading it gives it back.
pub proof fn law_decimal_numbers(n: nat, units: nat, whole: u64)
    requires
        n > 0,
        units < 10,
    ensures
        numbers::decimal(10 * n + units) == numbers::decimal(n).push(
            (('0' as u32) + units) as char,
        ),
        numbers::decimal(units) == seq![(('0' as u32) + units) as char],
        numbers::number(numbers::decimal(whole as nat)) == Some(whole),
{
    assert((10 * n + units) / 10 == n);
    assert((10 * n + units) % 10 == units);
    numbers::lemma_number_of_decimal(whole);
}

/// A number in hexadecimal is that of its sixteens, followed by its units, in
/// lower case. Different numbers are written differently.
pub proof fn law_hexadecimal_numbers(n: nat, units: nat, m: nat)
    requires
        n > 0,
        units < 16,
    ensures
        numbers::hex(16 * n + units) == numbers::hex(n).push(
            if units < 10 {
                (('0' as u32) + units) as char
            } else {
                (('a' as u32) + units - 10) as char
            },
        ),
        numbers::hex(m) == numbers::hex(n) ==> m == n,
{
    assert((16 * n + units) / 16 == n);
    assert((16 * n + units) % 16 == units);
    if numbers::hex(m) == numbers::hex(n) {
        numbers::lemma_hex_is_injective(m, n);
    }
}

/// Only digits are read as a number, behind one plus sign at most, and what is
/// read fits into 64 bits.
pub proof fn law_what_is_read_as_a_number(s: Seq<char>)
    requires
        numbers::number(s) is Some,
    ensures
        s.len() > 0,
        forall|i: int| 1 <= i < s.len() ==> '0' <= #[trigger] s[i] <= '9',
        '0' <= s[0] <= '9' || (s[0] == '+' && s.len() > 1),
        numbers::number(s)->0 == numbers::digits_value(
            if s[0] == '+' {
                s.skip(1)
            } else {
                s
            },
        ),
{
    let part = numbers::unsigned_part(s);
    if s.len() > 0 && s[0] == '+' {
        assert forall|i: int| 1 <= i < s.len() implies '0' <= #[trigger] s[i] <= '9' by {
            assert(part[i - 1] == s[i]);
            assert(numbers::decimal_digit(part[i - 1]));
        }
    } else {
        assert forall|i: int| 0 <= i < s.len() implies '0' <= #[trigger] s[i] <= '9' by {
            assert(numbers::decimal_digit(part[i]));
        }
        if s.len() > 0 {
            assert('0' <= s[0] <= '9');
        }
    }
}

/// Digits are read as the number that they spell, with a plus sign before them
/// or without, where it fits into 64 bits.
pub proof fn law_digits_are_read(digits: Seq<char>)
    requires
        digits.len() > 0,
        forall|i: int| 0 <= i < digits.len() ==> '0' <= #[trigger] digits[i] <= '9',
        numbers::digits_value(digits) <= u64::MAX,
    ensures
        numbers::number(digits) == Some(numbers::digits_value(digits) as u64),
        numbers::number(seq!['+'] + digits) == numbers::number(digits),
{
    assert((seq!['+'] + digits).skip(1) =~= digits);
    assert('0' <= digits[0] <= '9');
}

/// A header that is set has that one value; every other header stays.
pub proof fn law_setting_a_header(
    values: Map<Seq<char>, Seq<Seq<u8>>>,
    name: Seq<char>,
    value: Seq<char>,
    other: Seq<char>,
)
    ensures
        headers::with_header(values, name, value).contains_key(name),
        headers::with_header(values, name, value)[name] == seq![utf8::encode_utf8(value)],
        other != name ==> headers::with_header(values, name, value).contains_key(other)
            == values.contains_key(other) && headers::with_header(values, name, value)[other]
            == values[other],
        headers::header_safe(value) ==> headers::sent_media_type(value) == value,
        !headers::header_safe(value) ==> headers::sent_media_type(value)
            == "application/octet-stream"@,
{
}

/// The first value of a header is read, letter by letter, where all of it is
/// visible ASCII, blanks or tabs. Any other value counts as missing.
pub proof fn law_which_header_values_are_read(headers: HeaderMap, name: Seq<char>, value: Seq<u8>)
    requires
        headers::header_values(headers).contains_key(name),
        headers::header_values(headers)[name].len() > 0,
        value == headers::header_values(headers)[name][0],
    ensures
        (forall|i: int| 0 <= i < value.len() ==> 32 <= #[trigger] value[i] <= 126 || value[i] == 9)
            ==> headers::header_str(headers, name) is Some,
        headers::header_str(headers, name) is Some ==> headers::header_str(headers, name)->0.len()
            == value.len() && forall|i: int|
            0 <= i < value.len() ==> (32 <= #[trigger] value[i] <= 126 || value[i] == 9)
                && headers::header_str(headers, name)->0[i] as int == value[i],
{
}

/// A text cannot be sent in a header exactly where it holds a control character
/// of ASCII other than a tab.
pub proof fn law_which_texts_can_be_sent(value: Seq<char>)
    ensures
        !headers::header_safe(value) <==> exists|i: int|
            0 <= i < utf8::encode_utf8(value).len() && (#[trigger] utf8::encode_utf8(value)[i] <= 8
                || 10 <= utf8::encode_utf8(value)[i] <= 31 || utf8::encode_utf8(value)[i] == 127),
        headers::plain(value) <==> forall|i: int|
            0 <= i < value.len() ==> 32 <= #[trigger] value[i] as int <= 126,
{
}

/// A header that is not there is not read.
pub proof fn law_a_missing_header_is_not_read(headers: HeaderMap, name: Seq<char>)
    requires
        headers::header_values(headers).contains_key(name) ==> headers::header_values(
            headers,
        )[name].len() == 0,
    ensures
        headers::header_str(headers, name) is None,
{
}

/// The texts of a list are those of its members.
pub proof fn law_the_texts_of_a_list(list: Seq<String>)
    ensures
        text::texts(list).len() == list.len(),
        forall|i: int| 0 <= i < list.len() ==> #[trigger] text::texts(list)[i] == list[i]@,
{
}

/// What is there is seen as it is, and what is not there as nothing.
pub proof fn law_optional_values_are_seen_as_they_are(
    text: &'static str,
    string: String,
    share: &SharedDirectory,
    revision: u64,
    error: ApiError,
)
    ensures
        session::text_of(Some(text)) == Some(text@),
        session::text_of(None) is None,
        ranges::value_of(Some(text)) == Some(text@),
        ranges::value_of(None) is None,
        assets::guess_of(Some(text)) == Some(text@),
        assets::guess_of(None) is None,
        api_error::string_of(Some(string)) == Some(string@),
        api_error::string_of(None) is None,
        gateway::share_of(Some(share)) == Some(*share),
        gateway::share_of(None) is None,
        gateway::verified_of(Some((string, revision))) == Some((string@, revision)),
        gateway::verified_of(None) is None,
        error@.status == error.status,
        error@.code == error.code@,
        error@.message == error.message@,
        error@.error_id == api_error::string_of(error.error_id),
        error@.content_range == api_error::string_of(error.content_range),
{
}

} // verus!
