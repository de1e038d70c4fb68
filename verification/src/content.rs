//! Sending a file: what is permitted, which part is sent, and under which
//! headers.
use axum::http::HeaderMap;
use vstd::prelude::*;
use vstd::utf8;

use crate::api_error;
use crate::api_error::{ApiError, FileError};
use crate::dates;
use crate::dates::date_of;
use crate::headers;
use crate::headers::{lemma_plain_is_safe, lemma_plain_join, set_media_type, set_plain};
use crate::numbers;
use crate::numbers::{lemma_decimal, lemma_hex, push_decimal, push_hex};
use crate::random;
use crate::random::random_id;
use crate::ranges;
use crate::ranges::{requested_range, ByteRange};
use crate::shares::{FileEntry, PreviewKind, SharedDirectory};
use crate::status::{OK, PARTIAL_CONTENT};
use crate::text::{owned, same_text};

verus! {

/// A browser can show the file in place, and the share lets it.
pub open spec fn shown_inline(share: SharedDirectory, kind: PreviewKind) -> bool {
    share.web.allow_preview && kind != PreviewKind::Other
}

/// The file may be sent: as a download, where downloads are allowed; else to
/// be shown, where it can be shown or downloads are allowed.
pub open spec fn sending_permitted(
    share: SharedDirectory,
    kind: PreviewKind,
    download: bool,
) -> bool {
    share.web.allow_download || (!download && shown_inline(share, kind))
}

/// Whether the file of a permitted request is shown in place.
pub fn content_permission(share: &SharedDirectory, kind: PreviewKind, download: bool) -> (result:
    Result<bool, ApiError>)
    ensures
        match result {
            Ok(inline) => sending_permitted(*share, kind, download) && inline == shown_inline(
                *share,
                kind,
            ),
            Err(error) => !sending_permitted(*share, kind, download) && error@
                == api_error::not_permitted(),
        },
{
    let showable = match kind {
        PreviewKind::Image | PreviewKind::Audio | PreviewKind::Video => true,
        PreviewKind::Other => false,
    };
    let inline = share.web.allow_preview && showable;
    if download && !share.web.allow_download {
        return Err(ApiError::forbidden());
    }
    if !inline && !share.web.allow_download {
        return Err(ApiError::forbidden());
    }
    Ok(inline)
}

/// The part of a file that is sent, with the status of the response.
#[derive(Debug, Clone, Copy, PartialEq, Eq, Structural)]
pub struct ContentPart {
    pub status: u16,
    pub start: u64,
    pub end: u64,
    pub content_length: u64,
}

/// The part that a range gives of a file of `total` bytes; no range gives the
/// whole file.
pub open spec fn part_of(range: Option<ByteRange>, total: u64) -> ContentPart {
    match range {
        Some(range) => ContentPart {
            status: PARTIAL_CONTENT,
            start: range.start,
            end: range.end,
            content_length: (range.end - range.start + 1) as u64,
        },
        None => ContentPart {
            status: OK,
            start: 0,
            end: if total == 0 {
                0
            } else {
                (total - 1) as u64
            },
            content_length: total,
        },
    }
}

/// The entity tag of a file: its length and its time, in hexadecimal.
pub open spec fn etag_text(total: u64, modified_at_ms: u64) -> Seq<char> {
    "\""@ + numbers::hex(total as nat) + "-"@ + numbers::hex(modified_at_ms as nat) + "\""@
}

/// The entity tag of a file of `total` bytes.
pub fn etag_of(total: u64, modified_at_ms: u64) -> (result: String)
    ensures
        result@ == etag_text(total, modified_at_ms),
        headers::plain(result@),
        result@.len() > 0,
        result@[0] == '"',
{
    let mut out = owned("\"");
    push_hex(&mut out, total);
    out.append("-");
    push_hex(&mut out, modified_at_ms);
    out.append("\"");
    proof {
        lemma_etag(total, modified_at_ms);
    }
    out
}

proof fn lemma_etag(total: u64, modified_at_ms: u64)
    ensures
        headers::plain(etag_text(total, modified_at_ms)),
        etag_text(total, modified_at_ms).len() > 0,
        etag_text(total, modified_at_ms)[0] == '"',
{
    reveal_strlit("\"");
    reveal_strlit("-");
    let a = numbers::hex(total as nat);
    let b = numbers::hex(modified_at_ms as nat);
    lemma_hex(total as nat);
    lemma_hex(modified_at_ms as nat);
    assert(headers::plain("\""@));
    assert(headers::plain("-"@));
    lemma_plain_join("\""@, a);
    lemma_plain_join("\""@ + a, "-"@);
    lemma_plain_join("\""@ + a + "-"@, b);
    lemma_plain_join("\""@ + a + "-"@ + b, "\""@);
}

/// The part of a file that a request gets.
pub fn content_plan(
    headers: &HeaderMap,
    total: u64,
    modified_at_ms: u64,
    modified: i128,
) -> (result: Result<ContentPart, ApiError>)
    ensures
        ({
            let answer = ranges::answered_range(
                ranges::effective_range(*headers, etag_text(total, modified_at_ms), modified),
                total,
            );
            match result {
                Ok(part) => answer is Ok && part == part_of(answer->Ok_0, total),
                Err(error) => answer is Err && error@ == api_error::range_failure(total),
            }
        }),
{
    let etag = etag_of(total, modified_at_ms);
    proof {
        ranges::law_ranges_lie_in_the_file(
            ranges::effective_range(*headers, etag@, modified),
            total,
        );
    }
    match requested_range(headers, etag.as_str(), modified, total) {
        Ok(Some(range)) => Ok(
            ContentPart {
                status: PARTIAL_CONTENT,
                start: range.start,
                end: range.end,
                content_length: range.end - range.start + 1,
            },
        ),
        Ok(None) => Ok(
            ContentPart {
                status: OK,
                start: 0,
                end: if total == 0 {
                    0
                } else {
                    total - 1
                },
                content_length: total,
            },
        ),
        Err(error) => Err(error),
    }
}

/// An upper-case hexadecimal digit.
pub open spec fn upper_digit(n: int) -> char {
    if n < 10 {
        ('0' as u32 + n) as char
    } else {
        ('A' as u32 + n - 10) as char
    }
}

/// An ASCII letter or digit.
pub open spec fn alphanumeric(b: u8) -> bool {
    48 <= b <= 57 || 65 <= b <= 90 || 97 <= b <= 122
}

/// A byte as it stands in an encoded name.
pub open spec fn escaped(b: u8) -> Seq<char> {
    if alphanumeric(b) {
        seq![b as char]
    } else {
        seq!['%', upper_digit(b as int / 16), upper_digit(b as int % 16)]
    }
}

/// The bytes, each as it stands in an encoded name.
pub open spec fn percent_encoded(bytes: Seq<u8>) -> Seq<char>
    decreases bytes.len(),
{
    if bytes.len() == 0 {
        Seq::empty()
    } else {
        percent_encoded(bytes.drop_last()) + escaped(bytes.last())
    }
}

/// `percent_encoding::utf8_percent_encode` with `NON_ALPHANUMERIC`: each byte of
/// the text's UTF-8 form that is no ASCII letter or digit becomes a percent
/// sign and its two digits in upper-case hexadecimal; the others stay.
#[verifier::external_body]
fn encoded_name(name: &str) -> (result: String)
    ensures
        result@ == percent_encoded(utf8::encode_utf8(name@)),
{
    percent_encoding::utf8_percent_encode(name, percent_encoding::NON_ALPHANUMERIC).to_string()
}

proof fn lemma_encoded_is_plain(bytes: Seq<u8>)
    ensures
        headers::plain(percent_encoded(bytes)),
    decreases bytes.len(),
{
    if bytes.len() > 0 {
        lemma_encoded_is_plain(bytes.drop_last());
        let b = bytes.last();
        assert(headers::plain(escaped(b))) by {
            if !alphanumeric(b) {
                assert(0 <= b as int / 16 < 16 && 0 <= b as int % 16 < 16);
                assert(headers::plain_char(upper_digit(b as int / 16)));
                assert(headers::plain_char(upper_digit(b as int % 16)));
            }
        }
        lemma_plain_join(percent_encoded(bytes.drop_last()), escaped(b));
    }
}

/// The value of the `Content-Disposition` header.
pub open spec fn disposition_text(inline: bool, download: bool, name: Seq<char>) -> Seq<char> {
    (if download || !inline {
        "attachment"@
    } else {
        "inline"@
    }) + "; filename*=UTF-8''"@ + percent_encoded(utf8::encode_utf8(name))
}

/// How the browser is to treat the file, and what the file is called.
pub fn disposition_of(inline: bool, download: bool, name: &str) -> (result: String)
    ensures
        result@ == disposition_text(inline, download, name@),
        headers::plain(result@),
{
    let mut out = if download || !inline {
        owned("attachment")
    } else {
        owned("inline")
    };
    out.append("; filename*=UTF-8''");
    let encoded = encoded_name(name);
    out.append(encoded.as_str());
    proof {
        law_any_file_name_can_be_sent(inline, download, name@);
    }
    out
}

/// Whatever a file is called, its name can be sent: the header holds nothing
/// but visible ASCII and spaces.
pub proof fn law_any_file_name_can_be_sent(inline: bool, download: bool, name: Seq<char>)
    ensures
        headers::plain(disposition_text(inline, download, name)),
        headers::header_safe(disposition_text(inline, download, name)),
{
    reveal_strlit("attachment");
    reveal_strlit("inline");
    reveal_strlit("; filename*=UTF-8''");
    lemma_encoded_is_plain(utf8::encode_utf8(name));
    let kind = if download || !inline {
        "attachment"@
    } else {
        "inline"@
    };
    lemma_plain_join(kind, "; filename*=UTF-8''"@);
    lemma_plain_join(
        kind + "; filename*=UTF-8''"@,
        percent_encoded(utf8::encode_utf8(name)),
    );
    lemma_plain_is_safe(disposition_text(inline, download, name));
}

/// The value of the `Content-Range` header.
pub open spec fn content_range_text(start: u64, end: u64, total: u64) -> Seq<char> {
    "bytes "@ + numbers::decimal(start as nat) + "-"@ + numbers::decimal(end as nat) + "/"@
        + numbers::decimal(total as nat)
}

fn content_range_of(start: u64, end: u64, total: u64) -> (result: String)
    ensures
        result@ == content_range_text(start, end, total),
        headers::plain(result@),
{
    let mut out = owned("bytes ");
    push_decimal(&mut out, start);
    out.append("-");
    push_decimal(&mut out, end);
    out.append("/");
    push_decimal(&mut out, total);
    proof {
        reveal_strlit("bytes ");
        reveal_strlit("-");
        reveal_strlit("/");
        lemma_decimal(start as nat);
        lemma_decimal(end as nat);
        lemma_decimal(total as nat);
        let a = numbers::decimal(start as nat);
        let b = numbers::decimal(end as nat);
        let c = numbers::decimal(total as nat);
        assert(headers::plain(a) && headers::plain(b) && headers::plain(c));
        lemma_plain_join("bytes "@, a);
        lemma_plain_join("bytes "@ + a, "-"@);
        lemma_plain_join("bytes "@ + a + "-"@, b);
        lemma_plain_join("bytes "@ + a + "-"@ + b, "/"@);
        lemma_plain_join("bytes "@ + a + "-"@ + b + "/"@, c);
    }
    out
}

/// The headers of a response with a file or a part of it.
pub open spec fn with_content_headers(
    values: Map<Seq<char>, Seq<Seq<u8>>>,
    part: ContentPart,
    entry: FileEntry,
    inline: bool,
    download: bool,
    total: u64,
    modified: i128,
) -> Map<Seq<char>, Seq<Seq<u8>>> {
    let typed = headers::with_header(
        headers::with_header(values, "accept-ranges"@, "bytes"@),
        "content-type"@,
        headers::sent_media_type(entry.media_type@),
    );
    let sized = headers::with_header(
        typed,
        "content-length"@,
        numbers::decimal(part.content_length as nat),
    );
    let tagged = headers::with_header(
        sized,
        "etag"@,
        etag_text(total, entry.modified_at_ms),
    );
    let dated = headers::with_header(
        tagged,
        "last-modified"@,
        dates::http_date_text(dates::second_of(modified)),
    );
    let named = headers::with_header(
        dated,
        "content-disposition"@,
        disposition_text(inline, download, entry.name@),
    );
    if part.status == PARTIAL_CONTENT {
        headers::with_header(
            named,
            "content-range"@,
            content_range_text(part.start, part.end, total),
        )
    } else {
        named
    }
}

/// Puts the headers of a file, or of a part of it, on its response. The file
/// lies in no time before 1970, nor after 9999. A later request that gives back
/// the date as its `If-Range` gets its range, as long as the file is the same.
pub fn content_headers(
    response: &mut HeaderMap,
    part: ContentPart,
    entry: &FileEntry,
    inline: bool,
    download: bool,
    total: u64,
    modified: i128,
)
    requires
        dates::datable(modified),
        headers::room_for(*old(response), 7),
    ensures
        headers::header_values(*final(response)) == with_content_headers(
            headers::header_values(*old(response)),
            part,
            *entry,
            inline,
            download,
            total,
            modified,
        ),
        ranges::range_allowed(
            Some(dates::http_date_text(dates::second_of(modified))),
            etag_text(total, entry.modified_at_ms),
            modified,
        ),
{
    proof {
        reveal_strlit("bytes");
        lemma_decimal(part.content_length as nat);
    }
    set_plain(response, "accept-ranges", "bytes", Ghost(6));
    set_media_type(response, entry.media_type.as_str(), Ghost(5));
    let mut length = String::new();
    push_decimal(&mut length, part.content_length);
    assert(length@ =~= numbers::decimal(part.content_length as nat));
    set_plain(response, "content-length", length.as_str(), Ghost(4));
    let etag = etag_of(total, entry.modified_at_ms);
    set_plain(response, "etag", etag.as_str(), Ghost(3));
    let date = date_of(modified);
    set_plain(response, "last-modified", date.as_str(), Ghost(2));
    let disposition = disposition_of(inline, download, entry.name.as_str());
    set_plain(response, "content-disposition", disposition.as_str(), Ghost(1));
    if part.status == PARTIAL_CONTENT {
        let range = content_range_of(part.start, part.end, total);
        set_plain(response, "content-range", range.as_str(), Ghost(0));
    }
}

/// A file that may be sent, and how.
#[derive(Debug, Clone, PartialEq, Eq)]
pub struct ContentFile {
    pub entry: FileEntry,
    pub inline: bool,
    pub download: bool,
}

/// What comes of looking for the file in a share that the request may open.
/// `error_id` identifies a failure of the gateway's own.
pub open spec fn file_answer(
    share: SharedDirectory,
    download: bool,
    prepared: Result<FileEntry, FileError>,
    error_id: Seq<char>,
) -> Result<ContentFile, api_error::ApiErrorView> {
    match prepared {
        Err(error) => Err(
            api_error::file_failure(error.kind, error.code@, error.message@, error_id),
        ),
        Ok(entry) => if sending_permitted(share, entry.preview_kind, download) {
            Ok(
                ContentFile {
                    entry,
                    inline: shown_inline(share, entry.preview_kind),
                    download,
                },
            )
        } else {
            Err(api_error::not_permitted())
        },
    }
}

/// The file, where it was found and may be sent; under a given identifier
/// where the file service failed.
pub fn content_file_with(
    share: &SharedDirectory,
    download: bool,
    prepared: Result<FileEntry, FileError>,
    error_id: String,
) -> (result: Result<ContentFile, ApiError>)
    ensures
        api_error::answers(result, file_answer(*share, download, prepared, error_id@)),
{
    match prepared {
        Err(error) => Err(ApiError::bad_request_with(error, error_id)),
        Ok(entry) => match content_permission(share, entry.preview_kind, download) {
            Ok(inline) => Ok(ContentFile { entry, inline, download }),
            Err(error) => Err(error),
        },
    }
}

/// The file, where it was found in the share and may be sent.
pub fn content_file(
    share: &SharedDirectory,
    download: bool,
    prepared: Result<FileEntry, FileError>,
) -> (result: Result<ContentFile, ApiError>)
    ensures
        exists|id: Seq<char>| #[trigger]
            random::id_of_number(id) && api_error::answers(
                result,
                file_answer(*share, download, prepared, id),
            ),
{
    let id = random_id();
    assert(random::id_of_number(id@));
    content_file_with(share, download, prepared, id)
}

/// A file that is sent: the part, what its headers say, and whether the bytes
/// follow them. A reply without a body takes no stream slots.
#[derive(Debug, Clone, PartialEq, Eq)]
pub struct ContentReply {
    pub file: ContentFile,
    pub part: ContentPart,
    pub total: u64,
    pub modified: i128,
    pub has_body: bool,
}

/// The bytes follow the headers: not where only the headers were asked for.
pub open spec fn sends_body(method: Seq<char>) -> bool {
    method != "HEAD"@
}

/// What comes of reading the length and the time of the file, where it is
/// still there.
pub open spec fn reply_answer(
    file: ContentFile,
    request: HeaderMap,
    method: Seq<char>,
    found: Option<(u64, i128)>,
) -> Result<ContentReply, api_error::ApiErrorView> {
    match found {
        None => Err(api_error::missing()),
        Some((total, modified)) => {
            let etag = etag_text(total, file.entry.modified_at_ms);
            match ranges::answered_range(
                ranges::effective_range(request, etag, modified),
                total,
            ) {
                Ok(range) => Ok(
                    ContentReply {
                        file,
                        part: part_of(range, total),
                        total,
                        modified,
                        has_body: sends_body(method),
                    },
                ),
                Err(()) => Err(api_error::range_failure(total)),
            }
        },
    }
}

/// The reply to a request for the file; `found` are the length and the time of
/// the file, where it is still there.
pub fn content_reply(
    file: ContentFile,
    headers: &HeaderMap,
    method: &str,
    found: Option<(u64, i128)>,
) -> (result: Result<ContentReply, ApiError>)
    ensures
        api_error::answers(result, reply_answer(file, *headers, method@, found)),
{
    let (total, modified) = match found {
        Some(found) => found,
        None => return Err(ApiError::not_found()),
    };
    match content_plan(headers, total, file.entry.modified_at_ms, modified) {
        Ok(part) => Ok(
            ContentReply { file, part, total, modified, has_body: !same_text(method, "HEAD") },
        ),
        Err(error) => Err(error),
    }
}

/// The headers of a reply.
pub open spec fn with_reply_headers(
    values: Map<Seq<char>, Seq<Seq<u8>>>,
    reply: ContentReply,
) -> Map<Seq<char>, Seq<Seq<u8>>> {
    with_content_headers(
        values,
        reply.part,
        reply.file.entry,
        reply.file.inline,
        reply.file.download,
        reply.total,
        reply.modified,
    )
}

impl ContentReply {
    /// Puts the headers of the reply on its response.
    pub fn apply_headers(&self, response: &mut HeaderMap)
        requires
            dates::datable(self.modified),
            headers::room_for(*old(response), 7),
        ensures
            headers::header_values(*final(response)) == with_reply_headers(
                headers::header_values(*old(response)),
                *self,
            ),
    {
        content_headers(
            response,
            self.part,
            &self.file.entry,
            self.file.inline,
            self.file.download,
            self.total,
            self.modified,
        )
    }
}

/// Asking for the headers alone is answered as asking for the file is, with the
/// same refusals, and else with the same status and headers, the length
/// included; only the bytes do not follow.
pub proof fn law_headers_alone_are_those_of_the_file(
    file: ContentFile,
    request: HeaderMap,
    found: Option<(u64, i128)>,
    values: Map<Seq<char>, Seq<Seq<u8>>>,
)
    ensures
        match (
            reply_answer(file, request, "GET"@, found),
            reply_answer(file, request, "HEAD"@, found),
        ) {
            (Ok(whole), Ok(alone)) => {
                &&& alone.part == whole.part
                &&& with_reply_headers(values, alone) == with_reply_headers(values, whole)
                &&& whole.has_body
                &&& !alone.has_body
            },
            (Err(whole), Err(alone)) => alone == whole,
            _ => false,
        },
{
    reveal_strlit("GET");
    reveal_strlit("HEAD");
    assert("GET"@.len() != "HEAD"@.len());
}

/// A file that is sent was permitted: as a download only where the share
/// allows downloads, and shown in place only where it allows previews.
pub proof fn law_files_are_sent_as_the_share_permits(
    share: SharedDirectory,
    download: bool,
    entry: FileEntry,
    error_id: Seq<char>,
)
    ensures
        match file_answer(share, download, Ok(entry), error_id) {
            Ok(file) => {
                &&& file.entry == entry
                &&& file.download ==> share.web.allow_download
                &&& file.inline ==> share.web.allow_preview
                &&& file.inline || share.web.allow_download
            },
            Err(error) => !share.web.allow_download && error == api_error::not_permitted(),
        },
{
}

/// What is sent lies in the file, and is as long as the response says: for a
/// range it is some bytes, and without one it is the whole file.
pub proof fn law_the_sent_part_lies_in_the_file(value: Option<Seq<char>>, total: u64)
    requires
        ranges::answered_range(value, total) is Ok,
    ensures
        ({
            let range = ranges::answered_range(value, total)->Ok_0;
            let part = part_of(range, total);
            &&& part.start + part.content_length <= total
            &&& part.status == PARTIAL_CONTENT <==> range is Some
            &&& range is Some ==> part.content_length > 0 && part.end == part.start
                + part.content_length - 1
            &&& range is None ==> part.status == OK && part.start == 0 && part.content_length
                == total
        }),
{
    ranges::law_ranges_lie_in_the_file(value, total);
}

/// Files of another length, or of another time, have another tag.
pub proof fn law_a_changed_file_has_another_tag(
    total: u64,
    modified_at_ms: u64,
    other_total: u64,
    other_ms: u64,
)
    requires
        total != other_total || modified_at_ms != other_ms,
    ensures
        etag_text(total, modified_at_ms) != etag_text(other_total, other_ms),
{
    reveal_strlit("\"");
    reveal_strlit("-");
    let a = numbers::hex(total as nat);
    let b = numbers::hex(modified_at_ms as nat);
    let c = numbers::hex(other_total as nat);
    let d = numbers::hex(other_ms as nat);
    let left = etag_text(total, modified_at_ms);
    let right = etag_text(other_total, other_ms);
    lemma_hex(total as nat);
    lemma_hex(modified_at_ms as nat);
    lemma_hex(other_total as nat);
    lemma_hex(other_ms as nat);
    if left == right {
        assert(left[a.len() as int + 1] == '-');
        assert(right[c.len() as int + 1] == '-');
        if a.len() < c.len() {
            assert(right[a.len() as int + 1] == c[a.len() as int]);
            assert(numbers::hex_digit(c[a.len() as int]));
        }
        if c.len() < a.len() {
            assert(left[c.len() as int + 1] == a[c.len() as int]);
            assert(numbers::hex_digit(a[c.len() as int]));
        }
        assert(a =~= left.subrange(1, a.len() as int + 1));
        assert(c =~= right.subrange(1, c.len() as int + 1));
        assert(b =~= left.subrange(a.len() as int + 2, left.len() - 1));
        assert(d =~= right.subrange(c.len() as int + 2, right.len() - 1));
        numbers::lemma_hex_is_injective(total as nat, other_total as nat);
        numbers::lemma_hex_is_injective(modified_at_ms as nat, other_ms as nat);
    }
}

} // verus!
