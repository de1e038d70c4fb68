//! Header maps: what the gateway reads from requests and puts on responses.
use axum::http::HeaderMap;
use vstd::prelude::*;
use vstd::utf8;

verus! {

/// `http::HeaderMap`, which holds the headers of a request or a response.
#[verifier::external_type_specification]
#[verifier::external_body]
#[verifier::reject_recursive_types(T)]
pub struct ExHeaderMap<T>(axum::http::HeaderMap<T>);

/// `http::HeaderValue`, the element of a header map.
#[verifier::external_type_specification]
#[verifier::external_body]
pub struct ExHeaderValue(axum::http::HeaderValue);

/// What a header map holds: under each name, in lower case, its values in the
/// order in which they were added, each as its bytes.
pub uninterp spec fn header_values(
    headers: axum::http::HeaderMap<axum::http::HeaderValue>,
) -> Map<Seq<char>, Seq<Seq<u8>>>;

/// The names that the gateway uses. Each is a header name in lower case.
pub open spec fn header_name(name: Seq<char>) -> bool {
    ||| name == "accept-ranges"@
    ||| name == "cache-control"@
    ||| name == "content-disposition"@
    ||| name == "content-length"@
    ||| name == "content-range"@
    ||| name == "content-security-policy"@
    ||| name == "content-type"@
    ||| name == "cookie"@
    ||| name == "cross-origin-resource-policy"@
    ||| name == "etag"@
    ||| name == "host"@
    ||| name == "if-range"@
    ||| name == "last-modified"@
    ||| name == "origin"@
    ||| name == "permissions-policy"@
    ||| name == "range"@
    ||| name == "referrer-policy"@
    ||| name == "set-cookie"@
    ||| name == "x-content-type-options"@
    ||| name == "x-frame-options"@
}

/// A byte of plain header text: visible ASCII, the space or the tab.
pub open spec fn plain_byte(b: u8) -> bool {
    32 <= b < 127 || b == 9
}

/// A byte that a header value can hold.
pub open spec fn value_byte(b: u8) -> bool {
    (32 <= b && b != 127) || b == 9
}

/// `text` can be a header value.
pub open spec fn header_safe(text: Seq<char>) -> bool {
    forall|i: int|
        0 <= i < utf8::encode_utf8(text).len() ==> value_byte(#[trigger] utf8::encode_utf8(text)[i])
}

/// A character of plain header text.
pub open spec fn plain_char(c: char) -> bool {
    ' ' <= c <= '~'
}

/// Every character is plain.
pub open spec fn plain(text: Seq<char>) -> bool {
    forall|i: int| 0 <= i < text.len() ==> plain_char(#[trigger] text[i])
}

/// The text of a header: its first value, where all of that is plain.
pub open spec fn header_str(headers: HeaderMap, name: Seq<char>) -> Option<Seq<char>> {
    let values = header_values(headers);
    if values.contains_key(name) && values[name].len() > 0 && (forall|i: int|
        0 <= i < values[name][0].len() ==> plain_byte(#[trigger] values[name][0][i])) {
        Some(Seq::new(values[name][0].len(), |i: int| values[name][0][i] as char))
    } else {
        None
    }
}

/// The number of names below which a header map takes one more, however it
/// grew: its index of at most 32768 slots has to grow only once a fifth of
/// them is in use.
pub const HEADER_NAMES: usize = 6554;

/// There are `count` names.
pub open spec fn counts_names(values: Map<Seq<char>, Seq<Seq<u8>>>, count: nat) -> bool {
    values.dom().finite() && values.len() == count
}

/// There is room for `more` names.
pub open spec fn room_for(headers: HeaderMap, more: nat) -> bool {
    &&& header_values(headers).dom().finite()
    &&& header_values(headers).len() + more <= HEADER_NAMES
}

/// `headers` with one value under `name`: the text's UTF-8 bytes.
pub open spec fn with_header(
    values: Map<Seq<char>, Seq<Seq<u8>>>,
    name: Seq<char>,
    text: Seq<char>,
) -> Map<Seq<char>, Seq<Seq<u8>>> {
    values.insert(name, seq![utf8::encode_utf8(text)])
}

/// The media type that is sent: that of the file, where it can be sent.
pub open spec fn sent_media_type(media_type: Seq<char>) -> Seq<char> {
    if header_safe(media_type) {
        media_type
    } else {
        "application/octet-stream"@
    }
}

/// `HeaderMap::get`, then `HeaderValue::to_str`: the first value under the
/// name, as text, where every byte of it is visible ASCII, a space or a tab.
#[verifier::external_body]
pub(crate) fn header_text(headers: &HeaderMap, name: &str) -> (result: Option<String>)
    requires
        header_name(name@),
    ensures
        match result {
            Some(text) => header_str(*headers, name@) == Some(text@),
            None => header_str(*headers, name@) is None,
        },
{
    headers.get(name).and_then(|value| value.to_str().ok()).map(|text| text.to_string())
}

/// `HeaderMap::insert` of what `HeaderValue::from_str` makes of the text: the
/// text becomes the one value under the name, unless a byte of its UTF-8 form
/// cannot stand in a header value; then nothing changes.
#[verifier::external_body]
pub(crate) fn set_header(headers: &mut HeaderMap, name: &'static str, text: &str) -> (done: bool)
    requires
        header_name(name@),
        room_for(*old(headers), 1),
    ensures
        done == header_safe(text@),
        done ==> header_values(*final(headers)) == with_header(
            header_values(*old(headers)),
            name@,
            text@,
        ),
        !done ==> header_values(*final(headers)) == header_values(*old(headers)),
{
    match axum::http::HeaderValue::from_str(text) {
        Ok(value) => {
            headers.insert(name, value);
            true
        },
        Err(_) => false,
    }
}

/// `HeaderMap::keys_len`: the number of different names.
#[verifier::external_body]
fn header_count(headers: &HeaderMap) -> (result: usize)
    ensures
        counts_names(header_values(*headers), result as nat),
{
    headers.keys_len()
}

/// Whether `more` names can be added.
pub fn has_room(headers: &HeaderMap, more: usize) -> (result: bool)
    ensures
        result == room_for(*headers, more as nat),
{
    let count: usize = header_count(headers);
    count <= HEADER_NAMES && more <= HEADER_NAMES - count
}

/// A header that was set takes the room of one name at most.
pub proof fn lemma_room_after(before: HeaderMap, after: HeaderMap, name: Seq<char>, text: Seq<char>, more: nat)
    requires
        room_for(before, more + 1),
        header_values(after) == with_header(header_values(before), name, text),
    ensures
        room_for(after, more),
{
    assert(header_values(after).dom() =~= header_values(before).dom().insert(name));
}

/// Plain text can be a header value, and its bytes are its characters.
pub proof fn lemma_plain_is_safe(text: Seq<char>)
    requires
        plain(text),
    ensures
        header_safe(text),
        utf8::encode_utf8(text) == Seq::new(text.len(), |i: int| text[i] as u8),
{
    assert forall|i| 0 <= i < text.len() implies '\0' <= #[trigger] text[i] <= '\u{7f}' by {
        assert(plain_char(text[i]));
    }
    utf8::is_ascii_chars_encode_utf8(text);
    let bytes = utf8::encode_utf8(text);
    assert forall|i: int| 0 <= i < bytes.len() implies value_byte(#[trigger] bytes[i]) by {
        assert(plain_char(text[i]));
    }
}

/// Sets one header to plain text.
pub(crate) fn set_plain(response: &mut HeaderMap, name: &'static str, value: &str, more: Ghost<nat>)
    requires
        header_name(name@),
        plain(value@),
        room_for(*old(response), more@ + 1),
    ensures
        header_values(*final(response)) == with_header(
            header_values(*old(response)),
            name@,
            value@,
        ),
        room_for(*final(response), more@),
{
    let ghost before = *response;
    let done = set_header(response, name, value);
    proof {
        lemma_plain_is_safe(value@);
        lemma_room_after(before, *response, name@, value@, more@);
    }
}

/// Sets the `Content-Type` header to the media type, or to that of unknown
/// bytes where the media type cannot be sent.
pub(crate) fn set_media_type(response: &mut HeaderMap, media_type: &str, more: Ghost<nat>)
    requires
        room_for(*old(response), more@ + 1),
    ensures
        header_values(*final(response)) == with_header(
            header_values(*old(response)),
            "content-type"@,
            sent_media_type(media_type@),
        ),
        room_for(*final(response), more@),
{
    let ghost before = *response;
    if set_header(response, "content-type", media_type) {
        proof {
            lemma_room_after(before, *response, "content-type"@, media_type@, more@);
        }
    } else {
        proof {
            reveal_strlit("application/octet-stream");
        }
        set_plain(response, "content-type", "application/octet-stream", more);
    }
}

/// A header just set to plain text reads back as that text.
pub proof fn lemma_set_header_reads_back(
    before: Map<Seq<char>, Seq<Seq<u8>>>,
    after: HeaderMap,
    name: Seq<char>,
    text: Seq<char>,
)
    requires
        plain(text),
        header_values(after) == with_header(before, name, text),
    ensures
        header_str(after, name) == Some(text),
{
    lemma_plain_is_safe(text);
    let bytes = utf8::encode_utf8(text);
    assert(header_values(after)[name][0] == bytes);
    assert forall|i: int| 0 <= i < bytes.len() implies plain_byte(#[trigger] bytes[i]) by {
        assert(plain_char(text[i]));
    }
    assert(Seq::new(bytes.len(), |i: int| bytes[i] as char) =~= text) by {
        assert forall|i: int| 0 <= i < text.len() implies bytes[i] as char == text[i] by {
            assert(plain_char(text[i]));
        }
    }
}

/// A text put together from plain parts is plain.
pub proof fn lemma_plain_join(a: Seq<char>, b: Seq<char>)
    requires
        plain(a),
        plain(b),
    ensures
        plain(a + b),
{
    assert forall|i: int| 0 <= i < (a + b).len() implies plain_char(#[trigger] (a + b)[i]) by {
        if i < a.len() {
            assert((a + b)[i] == a[i]);
        } else {
            assert((a + b)[i] == b[i - a.len()]);
        }
    }
}

} // verus!
