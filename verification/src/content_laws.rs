//! What a request for a file gets, from its headers to the bytes and headers
//! of the reply.
use axum::http::HeaderMap;
use vstd::prelude::*;
use vstd::utf8;

use crate::api_error;
use crate::api_error::{ApiError, FileError};
use crate::content;
use crate::content::{ContentFile, ContentPart, ContentReply};
use crate::dates;
use crate::headers;
use crate::numbers;
use crate::ranges;
use crate::ranges::ByteRange;
use crate::shares::{FileEntry, PreviewKind, SharedDirectory};
use crate::text;

verus! {

/// The part that is sent for a range is that range: it starts and ends where
/// the range does, and has as many bytes.
pub proof fn law_the_sent_part_is_the_range(range: ByteRange, total: u64)
    requires
        range.start <= range.end < total,
    ensures
        content::part_of(Some(range), total).status == 206,
        content::part_of(Some(range), total).start == range.start,
        content::part_of(Some(range), total).end == range.end,
        content::part_of(Some(range), total).content_length == range.end - range.start + 1,
{
}

/// Without a range the whole file is sent.
pub proof fn law_without_a_range_the_whole_file_is_sent(total: u64)
    ensures
        content::part_of(None, total).status == 200,
        content::part_of(None, total).start == 0,
        content::part_of(None, total).content_length == total,
        total > 0 ==> content::part_of(None, total).end == total - 1,
{
}

/// A request without a `Range` header gets the whole file, whatever its other
/// headers say.
pub proof fn law_a_plain_request_gets_the_whole_file(
    file: ContentFile,
    request: HeaderMap,
    method: Seq<char>,
    total: u64,
    modified: i128,
)
    requires
        headers::header_str(request, "range"@) is None,
    ensures
        ({
            let answer = content::reply_answer(file, request, method, Some((total, modified)));
            &&& answer is Ok
            &&& answer->Ok_0.part.status == 200
            &&& answer->Ok_0.part.start == 0
            &&& answer->Ok_0.part.content_length == total
            &&& answer->Ok_0.file == file
            &&& answer->Ok_0.total == total
            &&& answer->Ok_0.modified == modified
        }),
{
}

/// A resumed download gets the rest of the file: everything from the byte that
/// was asked for on, and nothing before it. Where the file has no such byte,
/// the request is refused with the length of the file.
pub proof fn law_a_resumed_download_gets_the_rest(
    file: ContentFile,
    request: HeaderMap,
    method: Seq<char>,
    total: u64,
    modified: i128,
    start: u64,
)
    requires
        headers::header_str(request, "if-range"@) is None,
        headers::header_str(request, "range"@) == Some(
            "bytes="@ + numbers::decimal(start as nat) + "-"@,
        ),
    ensures
        ({
            let answer = content::reply_answer(file, request, method, Some((total, modified)));
            if start < total {
                &&& answer is Ok
                &&& answer->Ok_0.part.status == 206
                &&& answer->Ok_0.part.start == start
                &&& answer->Ok_0.part.end == total - 1
                &&& answer->Ok_0.part.content_length == total - start
                &&& answer->Ok_0.file == file
                &&& answer->Ok_0.total == total
                &&& answer->Ok_0.modified == modified
            } else {
                &&& answer is Err
                &&& answer->Err_0.status == 416
                &&& answer->Err_0.content_range == Some(
                    "bytes */"@ + numbers::decimal(total as nat),
                )
            }
        }),
{
    ranges::law_an_open_range_reaches_the_end(start, total);
}

/// A request for the bytes from `start` to `end` gets those that the file has
/// of them.
pub proof fn law_a_request_for_bytes_gets_them(
    file: ContentFile,
    request: HeaderMap,
    method: Seq<char>,
    total: u64,
    modified: i128,
    start: u64,
    end: u64,
)
    requires
        headers::header_str(request, "if-range"@) is None,
        headers::header_str(request, "range"@) == Some(
            "bytes="@ + numbers::decimal(start as nat) + "-"@ + numbers::decimal(end as nat),
        ),
    ensures
        ({
            let answer = content::reply_answer(file, request, method, Some((total, modified)));
            if start <= end && start < total {
                &&& answer is Ok
                &&& answer->Ok_0.part.status == 206
                &&& answer->Ok_0.part.start == start
                &&& end < total ==> answer->Ok_0.part.end == end && answer->Ok_0.part.content_length
                    == end - start + 1
                &&& end >= total ==> answer->Ok_0.part.end == total - 1
                    && answer->Ok_0.part.content_length == total - start
                &&& answer->Ok_0.file == file
                &&& answer->Ok_0.total == total
                &&& answer->Ok_0.modified == modified
            } else {
                &&& answer is Err
                &&& answer->Err_0.status == 416
                &&& answer->Err_0.content_range == Some(
                    "bytes */"@ + numbers::decimal(total as nat),
                )
            }
        }),
{
    ranges::law_a_range_in_decimal_is_answered(start, end, total);
}

/// A request for the last bytes of a file gets them, or the whole of a file
/// that has no more.
pub proof fn law_a_request_for_the_last_bytes_gets_them(
    file: ContentFile,
    request: HeaderMap,
    method: Seq<char>,
    total: u64,
    modified: i128,
    length: u64,
)
    requires
        headers::header_str(request, "if-range"@) is None,
        headers::header_str(request, "range"@) == Some(
            "bytes=-"@ + numbers::decimal(length as nat),
        ),
    ensures
        ({
            let answer = content::reply_answer(file, request, method, Some((total, modified)));
            if length > 0 && total > 0 {
                &&& answer is Ok
                &&& answer->Ok_0.part.status == 206
                &&& answer->Ok_0.part.end == total - 1
                &&& length <= total ==> answer->Ok_0.part.start == total - length
                    && answer->Ok_0.part.content_length == length
                &&& length > total ==> answer->Ok_0.part.start == 0
                    && answer->Ok_0.part.content_length == total
            } else {
                &&& answer is Err
                &&& answer->Err_0.status == 416
            }
        }),
{
    ranges::law_a_suffix_range_counts_from_the_end(length, total);
}

/// A file that is gone is reported as missing, whatever was asked for.
pub proof fn law_a_file_that_is_gone_is_missing(
    file: ContentFile,
    request: HeaderMap,
    method: Seq<char>,
)
    ensures
        content::reply_answer(file, request, method, None) is Err,
        content::reply_answer(file, request, method, None)->Err_0.status == 404,
        content::reply_answer(file, request, method, None)->Err_0.message
            == "share or file not found"@,
{
}

/// A range goes with the tag of the file that it is a range of: it is answered
/// as if there were no condition where the tag is the file's, and the whole file
/// is sent where it is another.
pub proof fn law_a_range_of_another_file_gets_the_whole_file(
    file: ContentFile,
    request: HeaderMap,
    method: Seq<char>,
    total: u64,
    modified: i128,
    tag: Seq<char>,
)
    requires
        headers::header_str(request, "if-range"@) == Some(tag),
        tag.len() > 0,
        tag[0] == '"',
    ensures
        ({
            let own = content::etag_text(total, file.entry.modified_at_ms);
            let answer = content::reply_answer(file, request, method, Some((total, modified)));
            let asked = headers::header_str(request, "range"@);
            if tag == own {
                &&& (answer is Ok <==> asked is None || ranges::named_range(
                    asked->0,
                    total,
                ) is Some)
                &&& asked is Some && answer is Ok ==> answer->Ok_0.part.status == 206
                    && answer->Ok_0.part.start == ranges::named_range(asked->0, total)->0.start
                    && answer->Ok_0.part.end == ranges::named_range(asked->0, total)->0.end
            } else {
                &&& answer is Ok
                &&& answer->Ok_0.part.status == 200
                &&& answer->Ok_0.part.start == 0
                &&& answer->Ok_0.part.content_length == total
            }
        }),
{
}

/// A range that goes with a date is sent where the file was not changed after
/// that second, and with a text that is no date it is not: then the whole file
/// is.
pub proof fn law_a_range_goes_with_the_date_of_the_file(
    value: Seq<char>,
    etag: Seq<char>,
    modified: i128,
)
    requires
        value.len() == 0 || value[0] != '"',
    ensures
        match dates::http_date(value) {
            Some(second) => ranges::range_allowed(Some(value), etag, modified) <==> modified <= (
            second + 1) * 1_000_000_000,
            None => !ranges::range_allowed(Some(value), etag, modified),
        },
        ranges::range_allowed(None, etag, modified),
{
}

/// The `Range` header counts where its condition holds, and does not count
/// where it does not.
pub proof fn law_the_condition_decides_whether_a_range_counts(
    request: HeaderMap,
    etag: Seq<char>,
    modified: i128,
)
    ensures
        ranges::range_allowed(headers::header_str(request, "if-range"@), etag, modified)
            ==> ranges::effective_range(request, etag, modified) == headers::header_str(
            request,
            "range"@,
        ),
        !ranges::range_allowed(headers::header_str(request, "if-range"@), etag, modified)
            ==> ranges::effective_range(request, etag, modified) is None,
{
}

/// What a range header is answered with is what the caller is told: the range,
/// no range, or the refusal with the length of the file.
pub proof fn law_ranges_are_told_as_they_are(
    result: Result<Option<ByteRange>, ApiError>,
    value: Option<Seq<char>>,
    total: u64,
)
    requires
        ranges::answers_range(result, value, total),
    ensures
        value is None ==> result == Ok::<Option<ByteRange>, ApiError>(None),
        value is Some && ranges::named_range(value->0, total) is Some ==> result == Ok::<
            Option<ByteRange>,
            ApiError,
        >(ranges::named_range(value->0, total)),
        value is Some && ranges::named_range(value->0, total) is None ==> {
            &&& result is Err
            &&& result->Err_0.status == 416
            &&& result->Err_0.content_range is Some
            &&& result->Err_0.content_range->0@ == "bytes */"@ + numbers::decimal(total as nat)
        },
{
}

/// A value that is not one range of bytes is refused: one in another unit, one
/// without a hyphen, and one whose ends are not numbers.
pub proof fn law_other_values_are_refused(value: Seq<char>, total: u64)
    ensures
        !text::has_prefix(value, "bytes="@) ==> ranges::named_range(value, total) is None,
        !value.skip(6).contains('-') ==> ranges::named_range(value, total) is None,
        text::has_prefix(value, "bytes="@) && value.skip(6).contains('-') && numbers::number(
            value.skip(6).take(text::first_at(value.skip(6), '-')),
        ) is None && text::first_at(value.skip(6), '-') > 0 ==> ranges::named_range(value, total)
            is None,
        text::has_prefix(value, "bytes="@) && value.skip(6).contains('-') && numbers::number(
            value.skip(6).skip(text::first_at(value.skip(6), '-') + 1),
        ) is None && value.skip(6).last() != '-' ==> ranges::named_range(value, total) is None,
{
    let rest = value.skip(6);
    text::lemma_first_at(rest, '-');
    let at = text::first_at(rest, '-');
    if at < rest.len() && rest.skip(at + 1).len() == 0 {
        assert(rest.last() == rest[at]);
    }
}

/// A range lies in what was asked for: it starts no earlier than the number
/// before the hyphen, and ends no later than the number behind it.
pub proof fn law_a_range_stays_within_what_was_asked_for(
    first: Seq<char>,
    last: Seq<char>,
    total: u64,
)
    requires
        total > 0,
        ranges::bounds(first, last, total) is Some,
        first.len() > 0,
    ensures
        numbers::number(first) == Some(ranges::bounds(first, last, total)->0.start),
        last.len() > 0 ==> numbers::number(last) is Some && ranges::bounds(
            first,
            last,
            total,
        )->0.end <= numbers::number(last)->0,
        ranges::bounds(first, last, total)->0.end < total - 1 ==> last.len() > 0
            && numbers::number(last) == Some(ranges::bounds(first, last, total)->0.end),
{
}

/// A share that allows downloads lets every file be sent, as a download or not.
/// One that allows only previews lets pictures, sound and films be shown, and
/// nothing be downloaded. Everything else is not permitted.
pub proof fn law_what_a_share_permits(
    share: SharedDirectory,
    entry: FileEntry,
    download: bool,
    error_id: Seq<char>,
)
    ensures
        ({
            let answer = content::file_answer(share, download, Ok(entry), error_id);
            let media = entry.preview_kind == PreviewKind::Image || entry.preview_kind
                == PreviewKind::Audio || entry.preview_kind == PreviewKind::Video;
            &&& share.web.allow_download ==> answer is Ok
            &&& !share.web.allow_download && download ==> answer is Err
            &&& !share.web.allow_download && !download ==> (answer is Ok <==> media
                && share.web.allow_preview)
            &&& answer is Ok ==> {
                &&& answer->Ok_0.entry == entry
                &&& answer->Ok_0.download == download
                &&& answer->Ok_0.inline == (media && share.web.allow_preview)
            }
            &&& answer is Err ==> {
                &&& answer->Err_0.status == 403
                &&& answer->Err_0.code == "web_gateway.permission_denied"@
            }
        }),
{
}

/// A file that the file service did not find or give is not sent, whatever the
/// share permits, and the failure is reported as one of the service.
pub proof fn law_a_failure_of_the_service_is_reported(
    share: SharedDirectory,
    download: bool,
    error: FileError,
    error_id: Seq<char>,
)
    ensures
        ({
            let answer = content::file_answer(share, download, Err(error), error_id);
            &&& answer is Err
            &&& answer->Err_0 == api_error::file_failure(
                error.kind,
                error.code@,
                error.message@,
                error_id,
            )
        }),
{
}

/// The permission of a request is that of the file it is for.
pub proof fn law_permission_is_complete(
    share: SharedDirectory,
    kind: PreviewKind,
    download: bool,
)
    ensures
        share.web.allow_download ==> content::sending_permitted(share, kind, download),
        download ==> content::sending_permitted(share, kind, download) == share.web.allow_download,
        !download && kind != PreviewKind::Other && share.web.allow_preview
            ==> content::sending_permitted(share, kind, download),
        kind == PreviewKind::Other ==> content::sending_permitted(share, kind, download)
            == share.web.allow_download,
        !share.web.allow_preview ==> content::sending_permitted(share, kind, download)
            == share.web.allow_download,
        content::shown_inline(share, kind) <==> share.web.allow_preview && kind
            != PreviewKind::Other,
{
}

/// The bytes of a text, as the one value of a header.
pub open spec fn one_value(text: Seq<char>) -> Seq<Seq<u8>> {
    seq![utf8::encode_utf8(text)]
}

/// The reply says of itself what it is: its length, the tag and the date of the
/// file, the media type, whether it is shown or kept, the name of the file, and,
/// where it is a part, which part of how much. It says nothing else.
pub proof fn law_the_headers_describe_the_reply(
    values: Map<Seq<char>, Seq<Seq<u8>>>,
    reply: ContentReply,
)
    ensures
        ({
            let sent = content::with_reply_headers(values, reply);
            let entry = reply.file.entry;
            &&& sent["accept-ranges"@] == one_value("bytes"@)
            &&& headers::header_safe(entry.media_type@) ==> sent["content-type"@] == one_value(
                entry.media_type@,
            )
            &&& !headers::header_safe(entry.media_type@) ==> sent["content-type"@] == one_value(
                "application/octet-stream"@,
            )
            &&& sent["content-length"@] == one_value(
                numbers::decimal(reply.part.content_length as nat),
            )
            &&& sent["etag"@] == one_value(
                "\""@ + numbers::hex(reply.total as nat) + "-"@ + numbers::hex(
                    entry.modified_at_ms as nat,
                ) + "\""@,
            )
            &&& sent["last-modified"@] == one_value(
                dates::http_date_text((reply.modified / 1_000_000_000) as u64),
            )
            &&& reply.file.download || !reply.file.inline ==> sent["content-disposition"@]
                == one_value(
                "attachment"@ + "; filename*=UTF-8''"@ + content::percent_encoded(
                    utf8::encode_utf8(entry.name@),
                ),
            )
            &&& !reply.file.download && reply.file.inline ==> sent["content-disposition"@]
                == one_value(
                "inline"@ + "; filename*=UTF-8''"@ + content::percent_encoded(
                    utf8::encode_utf8(entry.name@),
                ),
            )
            &&& reply.part.status == 206 ==> sent["content-range"@] == one_value(
                "bytes "@ + numbers::decimal(reply.part.start as nat) + "-"@ + numbers::decimal(
                    reply.part.end as nat,
                ) + "/"@ + numbers::decimal(reply.total as nat),
            )
            &&& reply.part.status != 206 ==> sent.contains_key("content-range"@)
                == values.contains_key("content-range"@)
        }),
{
    reveal_strlit("accept-ranges");
    reveal_strlit("content-type");
    reveal_strlit("content-length");
    reveal_strlit("etag");
    reveal_strlit("last-modified");
    reveal_strlit("content-disposition");
    reveal_strlit("content-range");
    assert("accept-ranges"@.len() == 13 && "content-type"@.len() == 12 && "content-length"@.len()
        == 14 && "etag"@.len() == 4 && "last-modified"@.len() == 13
        && "content-disposition"@.len() == 19 && "content-range"@.len() == 13);
    assert("accept-ranges"@[0] == 'a' && "last-modified"@[0] == 'l' && "content-range"@[0] == 'c');
}

/// No header besides these is touched.
pub proof fn law_a_reply_touches_no_other_header(
    values: Map<Seq<char>, Seq<Seq<u8>>>,
    reply: ContentReply,
    name: Seq<char>,
)
    requires
        name != "accept-ranges"@,
        name != "content-type"@,
        name != "content-length"@,
        name != "etag"@,
        name != "last-modified"@,
        name != "content-disposition"@,
        name != "content-range"@,
    ensures
        content::with_reply_headers(values, reply).contains_key(name) == values.contains_key(name),
        content::with_reply_headers(values, reply)[name] == values[name],
{
}

/// The name of a file can be read back from what is sent: names that differ are
/// sent differently.
pub proof fn law_different_names_are_sent_differently(a: Seq<u8>, b: Seq<u8>)
    requires
        content::percent_encoded(a) == content::percent_encoded(b),
    ensures
        a == b,
    decreases a.len(),
{
    if a.len() == 0 || b.len() == 0 {
        lemma_encoded_length(a);
        lemma_encoded_length(b);
        assert(a =~= b);
    } else {
        let x = content::percent_encoded(a);
        let x0 = content::percent_encoded(a.drop_last());
        let y0 = content::percent_encoded(b.drop_last());
        let ea = content::escaped(a.last());
        let eb = content::escaped(b.last());
        assert(x == x0 + ea);
        assert(x == y0 + eb);
        lemma_no_percent_inside(a.last());
        lemma_no_percent_inside(b.last());
        if ea.len() == eb.len() {
            assert(ea =~= x.skip(x.len() - ea.len()));
            assert(eb =~= x.skip(x.len() - eb.len()));
            lemma_escaped_is_injective(a.last(), b.last());
            assert(x0 =~= x.take(x.len() - ea.len()));
            assert(y0 =~= x.take(x.len() - eb.len()));
            law_different_names_are_sent_differently(a.drop_last(), b.drop_last());
            assert(a =~= a.drop_last().push(a.last()));
            assert(b =~= b.drop_last().push(b.last()));
        } else if ea.len() == 3 {
            lemma_percent_is_followed(b, x.len() - 3);
            assert(x[x.len() - 3] == ea[0]);
        } else {
            lemma_percent_is_followed(a, x.len() - 3);
            assert(x[x.len() - 3] == eb[0]);
        }
    }
}

proof fn lemma_encoded_length(bytes: Seq<u8>)
    ensures
        content::percent_encoded(bytes).len() >= bytes.len(),
    decreases bytes.len(),
{
    if bytes.len() > 0 {
        lemma_encoded_length(bytes.drop_last());
    }
}

proof fn lemma_no_percent_inside(b: u8)
    ensures
        content::escaped(b).len() == 1 || content::escaped(b).len() == 3,
        content::escaped(b).len() == 1 ==> content::escaped(b)[0] != '%',
        content::escaped(b).len() == 3 ==> content::escaped(b)[0] == '%'
            && content::escaped(b)[1] != '%' && content::escaped(b)[2] != '%',
{
    if !content::alphanumeric(b) {
        assert(0 <= b as int / 16 < 16 && 0 <= b as int % 16 < 16);
    }
}

proof fn lemma_escaped_is_injective(a: u8, b: u8)
    requires
        content::escaped(a) == content::escaped(b),
    ensures
        a == b,
{
    if content::alphanumeric(a) {
        assert(content::escaped(a).len() == 1);
        assert(content::alphanumeric(b));
        assert(content::escaped(a)[0] == content::escaped(b)[0]);
        assert(content::escaped(a) == seq![a as char] && content::escaped(b) == seq![b as char]);
        assert(seq![a as char][0] == a as char && seq![b as char][0] == b as char);
        assert((a as char) as int == a as int && (b as char) as int == b as int);
    } else {
        assert(content::escaped(a).len() == 3);
        assert(!content::alphanumeric(b));
        assert(content::escaped(a)[1] == content::escaped(b)[1]);
        assert(content::escaped(a)[2] == content::escaped(b)[2]);
        assert(0 <= a as int / 16 < 16 && 0 <= a as int % 16 < 16);
        assert(0 <= b as int / 16 < 16 && 0 <= b as int % 16 < 16);
        assert(a as int / 16 == b as int / 16);
        assert(a as int % 16 == b as int % 16);
        assert(a as int == 16 * (a as int / 16) + a as int % 16);
        assert(b as int == 16 * (b as int / 16) + b as int % 16);
    }
}

/// Two characters follow every percent sign.
proof fn lemma_percent_is_followed(bytes: Seq<u8>, at: int)
    requires
        0 <= at < content::percent_encoded(bytes).len(),
        bytes.len() > 0,
        content::escaped(bytes.last()).len() == 1,
        at == content::percent_encoded(bytes).len() - 3,
    ensures
        content::percent_encoded(bytes)[at] != '%',
{
    let rest = bytes.drop_last();
    let x0 = content::percent_encoded(rest);
    assert(x0[at] == content::percent_encoded(bytes)[at]);
    if rest.len() > 0 {
        lemma_percent_not_second_last(rest);
    }
}

/// The last character but one is no percent sign.
proof fn lemma_percent_not_second_last(bytes: Seq<u8>)
    requires
        bytes.len() > 0,
        content::percent_encoded(bytes).len() >= 2,
    ensures
        content::percent_encoded(bytes)[content::percent_encoded(bytes).len() - 2] != '%',
{
    let x = content::percent_encoded(bytes);
    let e = content::escaped(bytes.last());
    lemma_no_percent_inside(bytes.last());
    if e.len() == 3 {
        assert(x[x.len() - 2] == e[1]);
    } else {
        let rest = bytes.drop_last();
        let x0 = content::percent_encoded(rest);
        assert(x[x.len() - 2] == x0[x0.len() - 1]);
        assert(rest.len() > 0);
        let e0 = content::escaped(rest.last());
        lemma_no_percent_inside(rest.last());
        assert(x0[x0.len() - 1] == e0[e0.len() - 1]);
    }
}

/// The time of a file has a date from 1970 to 9999.
pub proof fn law_files_have_dates_until_the_year_ten_thousand(modified: i128)
    ensures
        dates::datable(modified) <==> 0 <= modified < 253_402_300_800_000_000_000,
        dates::datable(modified) ==> dates::second_of(modified) == modified / 1_000_000_000,
        forall|second: u64| #[trigger]
            dates::unchanged_since(modified, Some(second)) <==> modified <= (second + 1)
                * 1_000_000_000,
        !dates::unchanged_since(modified, None),
{
}

/// Bytes follow the headers unless the headers alone were asked for.
pub proof fn law_every_method_but_head_has_a_body(
    file: ContentFile,
    request: HeaderMap,
    method: Seq<char>,
    total: u64,
    modified: i128,
)
    requires
        content::reply_answer(file, request, method, Some((total, modified))) is Ok,
    ensures
        content::reply_answer(file, request, method, Some((total, modified)))->Ok_0.has_body <==> (
        method != "HEAD"@),
{
}

/// A part keeps the length that its ends give it.
pub proof fn law_parts_are_as_long_as_they_say(range: Option<ByteRange>, total: u64)
    requires
        range is Some ==> range->0.start <= range->0.end < total,
    ensures
        ({
            let part: ContentPart = content::part_of(range, total);
            &&& part.content_length > 0 ==> part.end - part.start + 1 == part.content_length
            &&& part.start + part.content_length <= total
        }),
{
}

/// Every pair of numbers that the file has bytes between is a range, however the
/// numbers are written; so is every number of bytes at the end.
pub proof fn law_numbers_make_a_range(first: Seq<char>, last: Seq<char>, total: u64)
    requires
        total > 0,
    ensures
        first.len() > 0 && last.len() > 0 && numbers::number(first) is Some && numbers::number(last)
            is Some && numbers::number(first)->0 <= numbers::number(last)->0 && numbers::number(
            first,
        )->0 < total ==> {
            let range = ranges::bounds(first, last, total);
            &&& range is Some
            &&& range->0.start == numbers::number(first)->0
            &&& numbers::number(last)->0 < total ==> range->0.end == numbers::number(last)->0
            &&& numbers::number(last)->0 >= total ==> range->0.end == total - 1
        },
        first.len() > 0 && last.len() == 0 && numbers::number(first) is Some && numbers::number(
            first,
        )->0 < total ==> ranges::bounds(first, last, total) == Some(
            ByteRange { start: numbers::number(first)->0, end: (total - 1) as u64 },
        ),
        first.len() == 0 && numbers::number(last) is Some && numbers::number(last)->0 > 0 ==> {
            let range = ranges::bounds(first, last, total);
            &&& range is Some
            &&& range->0.end == total - 1
            &&& numbers::number(last)->0 <= total ==> range->0.start == total - numbers::number(
                last,
            )->0
            &&& numbers::number(last)->0 > total ==> range->0.start == 0
        },
        first.len() == 0 && (numbers::number(last) is None || numbers::number(last)->0 == 0)
            ==> ranges::bounds(first, last, total) is None,
{
}

/// What stands on both sides of the first hyphen decides on the range.
pub proof fn law_the_first_hyphen_divides(first: Seq<char>, last: Seq<char>, total: u64)
    requires
        total > 0,
        !first.contains('-'),
        !first.contains(','),
        !last.contains(','),
    ensures
        ranges::named_range("bytes="@ + first + seq!['-'] + last, total) == ranges::bounds(
            first,
            last,
            total,
        ),
{
    reveal_strlit("bytes=");
    let value = "bytes="@ + first + seq!['-'] + last;
    let rest = value.skip(6);
    assert(value.take(6) =~= "bytes="@);
    assert(rest =~= first + seq!['-'] + last);
    text::lemma_first_at(rest, '-');
    let at = text::first_at(rest, '-');
    assert(rest[first.len() as int] == '-');
    if at < first.len() {
        assert(rest[at] == first[at]);
        assert(first.contains(first[at]));
    }
    assert(rest.contains('-'));
    assert forall|i: int| 0 <= i < rest.len() implies #[trigger] rest[i] != ',' by {
        if i < first.len() {
            assert(rest[i] == first[i]);
            assert(first.contains(first[i]));
        } else if i > first.len() {
            assert(rest[i] == last[i - first.len() - 1]);
            assert(last.contains(last[i - first.len() - 1]));
        }
    }
    assert(rest.take(at) =~= first);
    assert(rest.skip(at + 1) =~= last);
}

/// Of a name, the letters and digits of ASCII are sent as they are. Every other
/// byte is a percent sign and its two hexadecimal digits, in upper case.
pub proof fn law_how_names_are_encoded(bytes: Seq<u8>, b: u8)
    ensures
        content::percent_encoded(Seq::<u8>::empty()).len() == 0,
        content::percent_encoded(bytes.push(b)) == content::percent_encoded(bytes) + (if 'a' as u8
            <= b <= 'z' as u8 || 'A' as u8 <= b <= 'Z' as u8 || '0' as u8 <= b <= '9' as u8 {
            seq![b as char]
        } else {
            seq!['%', "0123456789ABCDEF"@[b as int / 16], "0123456789ABCDEF"@[b as int % 16]]
        }),
{
    reveal_strlit("0123456789ABCDEF");
    assert(bytes.push(b).drop_last() =~= bytes);
    let high: int = b as int / 16;
    let low: int = b as int % 16;
    assert(0 <= high < 16 && 0 <= low < 16);
    assert(content::upper_digit(high) == "0123456789ABCDEF"@[high]);
    assert(content::upper_digit(low) == "0123456789ABCDEF"@[low]);
}

} // verus!
