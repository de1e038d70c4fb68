//! Which part of a file a request asks for.
use axum::http::HeaderMap;
use vstd::prelude::*;

use crate::api_error;
use crate::api_error::ApiError;
use crate::dates;
use crate::dates::{is_unchanged_since, parse_date};
use crate::headers;
use crate::headers::header_text;
use crate::numbers;
use crate::numbers::{lemma_decimal, lemma_number_of_decimal, number_between};
use crate::text;
use crate::text::{chars_of, find_first, lemma_first_at, matches_at, same_text};

verus! {

/// The bytes from `start` to `end`, both included.
#[derive(Debug, Clone, Copy, PartialEq, Eq, Structural)]
pub struct ByteRange {
    pub start: u64,
    pub end: u64,
}

/// The range between the texts on both sides of the hyphen, in a file that is
/// not empty. An empty first text counts from the end of the file.
pub open spec fn bounds(first: Seq<char>, last: Seq<char>, total: u64) -> Option<ByteRange> {
    let most = (total - 1) as u64;
    if first.len() == 0 {
        match numbers::number(last) {
            Some(length) if length > 0 => Some(
                ByteRange {
                    start: if length < total {
                        (total - length) as u64
                    } else {
                        0
                    },
                    end: most,
                },
            ),
            _ => None,
        }
    } else {
        let end = if last.len() == 0 {
            Some(most)
        } else {
            match numbers::number(last) {
                Some(n) => Some(
                    if n < most {
                        n
                    } else {
                        most
                    },
                ),
                None => None,
            }
        };
        match (numbers::number(first), end) {
            (Some(start), Some(end)) if start <= end => Some(ByteRange { start, end }),
            _ => None,
        }
    }
}

/// The one range that the value of a `Range` header names, where it names one
/// that the file has.
pub open spec fn named_range(value: Seq<char>, total: u64) -> Option<ByteRange> {
    let rest = value.skip(6);
    let hyphen = text::first_at(rest, '-');
    if text::has_prefix(value, "bytes="@) && !rest.contains(',') && total > 0 && hyphen
        < rest.len() {
        bounds(rest.take(hyphen), rest.skip(hyphen + 1), total)
    } else {
        None
    }
}

/// What a request with this `Range` header gets: the whole file without the
/// header, and else the range, or a refusal.
pub open spec fn answered_range(value: Option<Seq<char>>, total: u64) -> Result<
    Option<ByteRange>,
    (),
> {
    match value {
        None => Ok(None),
        Some(value) => match named_range(value, total) {
            Some(range) => Ok(Some(range)),
            None => Err(()),
        },
    }
}

/// `result` is that answer.
pub open spec fn answers_range(
    result: Result<Option<ByteRange>, ApiError>,
    value: Option<Seq<char>>,
    total: u64,
) -> bool {
    match result {
        Ok(range) => answered_range(value, total) == Ok::<Option<ByteRange>, ()>(range),
        Err(error) => answered_range(value, total) is Err && error@ == api_error::range_failure(
            total,
        ),
    }
}

/// The view of an optional text.
pub open spec fn value_of(value: Option<&str>) -> Option<Seq<char>> {
    match value {
        Some(value) => Some(value@),
        None => None,
    }
}

fn range_between(
    chars: &Vec<char>,
    from: usize,
    hyphen: usize,
    total: u64,
) -> (result: Option<ByteRange>)
    requires
        from <= hyphen < chars@.len(),
        total > 0,
    ensures
        result == bounds(
            chars@.subrange(from as int, hyphen as int),
            chars@.subrange(hyphen + 1, chars@.len() as int),
            total,
        ),
{
    let count: usize = chars.len();
    let most: u64 = total - 1;
    if from == hyphen {
        let length: u64 = match number_between(chars, hyphen + 1, count) {
            Some(length) => length,
            None => return None,
        };
        if length == 0 {
            return None;
        }
        let start: u64 = if length < total {
            total - length
        } else {
            0
        };
        return Some(ByteRange { start, end: most });
    }
    let start: u64 = match number_between(chars, from, hyphen) {
        Some(start) => start,
        None => return None,
    };
    let end: u64 = if hyphen + 1 == count {
        most
    } else {
        match number_between(chars, hyphen + 1, count) {
            Some(n) => if n < most {
                n
            } else {
                most
            },
            None => return None,
        }
    };
    if start <= end {
        Some(ByteRange { start, end })
    } else {
        None
    }
}

fn range_named(value: &str, total: u64) -> (result: Option<ByteRange>)
    ensures
        result == named_range(value@, total),
{
    let chars = chars_of(value);
    let count: usize = chars.len();
    proof {
        reveal_strlit("bytes=");
        assert(chars@.skip(0) =~= chars@);
    }
    if !matches_at(&chars, 0, "bytes=") {
        return None;
    }
    let ghost rest = chars@.skip(6);
    proof {
        assert(chars@.subrange(6, count as int) =~= rest);
        lemma_first_at(rest, ',');
    }
    if find_first(&chars, 6, count, ',').is_some() || total == 0 {
        return None;
    }
    match find_first(&chars, 6, count, '-') {
        Some(hyphen) => {
            assert(chars@.subrange(6, hyphen as int) =~= rest.take(hyphen - 6));
            assert(chars@.subrange(hyphen + 1, count as int) =~= rest.skip(hyphen - 6 + 1));
            range_between(&chars, 6, hyphen, total)
        },
        None => None,
    }
}

/// The range that the value of a `Range` header asks for in a file of `total`
/// bytes; no value asks for no range.
pub fn parse_range(value: Option<&str>, total: u64) -> (result: Result<
    Option<ByteRange>,
    ApiError,
>)
    ensures
        answers_range(result, value_of(value), total),
{
    match value {
        None => Ok(None),
        Some(value) => match range_named(value, total) {
            Some(range) => Ok(Some(range)),
            None => Err(ApiError::range(total)),
        },
    }
}

/// The `If-Range` header, where there is one, allows a range of the file.
pub open spec fn range_allowed(value: Option<Seq<char>>, etag: Seq<char>, modified: i128) -> bool {
    match value {
        None => true,
        Some(value) => if value.len() > 0 && value[0] == '"' {
            value == etag
        } else {
            dates::unchanged_since(modified, dates::http_date(value))
        },
    }
}

/// Whether the request still wants a range, given the state of the file.
pub fn if_range_matches(headers: &HeaderMap, etag: &str, modified: i128) -> (result: bool)
    ensures
        result == range_allowed(headers::header_str(*headers, "if-range"@), etag@, modified),
{
    let value = match header_text(headers, "if-range") {
        Some(value) => value,
        None => return true,
    };
    let chars = chars_of(value.as_str());
    if chars.len() > 0 && chars[0] == '"' {
        same_text(value.as_str(), etag)
    } else {
        is_unchanged_since(modified, parse_date(value.as_str()))
    }
}

/// The part of the file that the request gets.
pub open spec fn effective_range(
    headers: HeaderMap,
    etag: Seq<char>,
    modified: i128,
) -> Option<Seq<char>> {
    if range_allowed(headers::header_str(headers, "if-range"@), etag, modified) {
        headers::header_str(headers, "range"@)
    } else {
        None
    }
}

/// The range that a request asks for in a file of `total` bytes. A range of a
/// file that has changed is not sent: the request gets the whole file.
pub fn requested_range(headers: &HeaderMap, etag: &str, modified: i128, total: u64) -> (result:
    Result<Option<ByteRange>, ApiError>)
    ensures
        answers_range(result, effective_range(*headers, etag@, modified), total),
{
    if !if_range_matches(headers, etag, modified) {
        return Ok(None);
    }
    match header_text(headers, "range") {
        Some(value) => parse_range(Some(value.as_str()), total),
        None => Ok(None),
    }
}

/// A range that is sent has bytes, and lies in the file.
pub proof fn law_ranges_lie_in_the_file(value: Option<Seq<char>>, total: u64)
    ensures
        match answered_range(value, total) {
            Ok(Some(range)) => range.start <= range.end < total,
            _ => true,
        },
{
}

/// An empty file has no ranges: one asked for is refused.
pub proof fn law_an_empty_file_has_no_ranges(value: Seq<char>)
    ensures
        answered_range(Some(value), 0) is Err,
{
}

/// More than one range is refused.
pub proof fn law_several_ranges_are_refused(value: Seq<char>, total: u64)
    requires
        value.skip(6).contains(','),
    ensures
        answered_range(Some(value), total) is Err,
{
}

/// Asking for the bytes from `start` to `end` gets them, as far as the file
/// has them; it is refused where the file ends before `start`, and where
/// `start` is after `end`.
pub proof fn law_a_range_in_decimal_is_answered(start: u64, end: u64, total: u64)
    ensures
        answered_range(
            Some(
                "bytes="@ + numbers::decimal(start as nat) + "-"@ + numbers::decimal(end as nat),
            ),
            total,
        ) == if start <= end && start < total {
            Ok::<Option<ByteRange>, ()>(
                Some(
                    ByteRange {
                        start,
                        end: if end < total {
                            end
                        } else {
                            (total - 1) as u64
                        },
                    },
                ),
            )
        } else {
            Err(())
        },
{
    let first = numbers::decimal(start as nat);
    let last = numbers::decimal(end as nat);
    lemma_number_of_decimal(start);
    lemma_number_of_decimal(end);
    lemma_decimal(start as nat);
    lemma_decimal(end as nat);
    lemma_split(first, last);
}

/// Asking for everything from `start` on gets it, where the file has it.
pub proof fn law_an_open_range_reaches_the_end(start: u64, total: u64)
    ensures
        answered_range(Some("bytes="@ + numbers::decimal(start as nat) + "-"@), total) == if start
            < total {
            Ok::<Option<ByteRange>, ()>(Some(ByteRange { start, end: (total - 1) as u64 }))
        } else {
            Err(())
        },
{
    let first = numbers::decimal(start as nat);
    lemma_number_of_decimal(start);
    lemma_decimal(start as nat);
    lemma_split(first, Seq::empty());
    assert("bytes="@ + first + "-"@ + Seq::<char>::empty() =~= "bytes="@ + first + "-"@);
}

/// Asking for the last `length` bytes gets them, or the whole file where it
/// has no more; no bytes cannot be asked for.
pub proof fn law_a_suffix_range_counts_from_the_end(length: u64, total: u64)
    ensures
        answered_range(Some("bytes=-"@ + numbers::decimal(length as nat)), total) == if length > 0
            && total > 0 {
            Ok::<Option<ByteRange>, ()>(
                Some(
                    ByteRange {
                        start: if length < total {
                            (total - length) as u64
                        } else {
                            0
                        },
                        end: (total - 1) as u64,
                    },
                ),
            )
        } else {
            Err(())
        },
{
    let last = numbers::decimal(length as nat);
    lemma_number_of_decimal(length);
    lemma_decimal(length as nat);
    lemma_split(Seq::empty(), last);
    reveal_strlit("bytes=-");
    reveal_strlit("bytes=");
    reveal_strlit("-");
    assert("bytes="@ + Seq::<char>::empty() + "-"@ + last =~= "bytes=-"@ + last);
}

/// Where the digits on both sides of the hyphen stand.
proof fn lemma_split(first: Seq<char>, last: Seq<char>)
    requires
        forall|i: int| 0 <= i < first.len() ==> numbers::decimal_digit(#[trigger] first[i]),
        forall|i: int| 0 <= i < last.len() ==> numbers::decimal_digit(#[trigger] last[i]),
    ensures
        ({
            let value = "bytes="@ + first + "-"@ + last;
            let rest = value.skip(6);
            &&& text::has_prefix(value, "bytes="@)
            &&& !rest.contains(',')
            &&& text::first_at(rest, '-') == first.len()
            &&& first.len() < rest.len()
            &&& rest.take(first.len() as int) == first
            &&& rest.skip(first.len() as int + 1) == last
        }),
{
    reveal_strlit("bytes=");
    reveal_strlit("-");
    let value = "bytes="@ + first + "-"@ + last;
    let rest = value.skip(6);
    assert(value.take(6) =~= "bytes="@);
    assert(rest =~= first + "-"@ + last);
    assert forall|i: int| 0 <= i < rest.len() implies #[trigger] rest[i] != ',' by {
        if i < first.len() {
            assert(rest[i] == first[i]);
        } else if i > first.len() {
            assert(rest[i] == last[i - first.len() - 1]);
        }
    }
    lemma_first_hyphen(first, last);
    assert(rest.take(first.len() as int) =~= first);
    assert(rest.skip(first.len() as int + 1) =~= last);
}

proof fn lemma_first_hyphen(first: Seq<char>, last: Seq<char>)
    requires
        forall|i: int| 0 <= i < first.len() ==> numbers::decimal_digit(#[trigger] first[i]),
    ensures
        text::first_at(first + "-"@ + last, '-') == first.len(),
    decreases first.len(),
{
    reveal_strlit("-");
    let s = first + "-"@ + last;
    if first.len() > 0 {
        assert(s[0] == first[0]);
        assert(numbers::decimal_digit(first[0]));
        assert(s.skip(1) =~= first.skip(1) + "-"@ + last);
        lemma_first_hyphen(first.skip(1), last);
    }
}

/// A file that has not changed is the one that its own entity tag names: a
/// range that goes with the tag is sent.
pub proof fn law_the_tag_of_the_file_allows_ranges(etag: Seq<char>, modified: i128)
    requires
        etag.len() > 0,
        etag[0] == '"',
    ensures
        range_allowed(Some(etag), etag, modified),
{
}

/// A range that goes with another tag is not sent.
pub proof fn law_another_tag_allows_no_ranges(
    other: Seq<char>,
    etag: Seq<char>,
    modified: i128,
)
    requires
        other.len() > 0,
        other[0] == '"',
        other != etag,
    ensures
        !range_allowed(Some(other), etag, modified),
{
}

} // verus!
