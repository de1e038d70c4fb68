//! The files of the browser application itself.
use axum::http::HeaderMap;
use vstd::prelude::*;

use crate::headers;
use crate::headers::{set_media_type, set_plain};
use crate::text;
use crate::text::{chars_of, matches_at, owned, same_text, strip_leading_bound, text_between};

verus! {

/// The page that the application starts from.
pub open spec fn start_page() -> Seq<char> {
    "web-files.html"@
}

/// The asset that a path asks for. The paths that the application shows in the
/// address bar all ask for its start page.
pub open spec fn asset_key_of(path: Seq<char>) -> Seq<char> {
    let requested = text::strip_leading(path, '/');
    if requested.len() == 0 || requested == "files"@ || text::has_prefix(requested, "s/"@) {
        start_page()
    } else {
        requested
    }
}

/// The asset that a path asks for.
pub fn asset_key(path: &str) -> (result: String)
    ensures
        result@ == asset_key_of(path@),
{
    let chars = chars_of(path);
    let start: usize = strip_leading_bound(&chars, '/');
    let requested = text_between(&chars, start, chars.len());
    assert(requested@ =~= chars@.skip(start as int));
    if start == chars.len() || same_text(requested.as_str(), "files") || matches_at(
        &chars,
        start,
        "s/",
    ) {
        owned("web-files.html")
    } else {
        requested
    }
}

/// The media type that goes with the extension of a file name.
pub uninterp spec fn guessed_type(key: Seq<char>) -> Option<Seq<char>>;

/// Every system finds the same extension in the name: there is no backslash
/// and no colon, which separate the parts of a path on some of them, and the
/// name does not start with two slashes, after which some of them look for the
/// name of a server and of its share.
pub open spec fn portable(key: Seq<char>) -> bool {
    &&& !key.contains('\\')
    &&& !key.contains(':')
    &&& !(key.len() >= 2 && key[0] == '/' && key[1] == '/')
}

/// `mime_guess::from_path`, `first_raw`: the media type that goes with the
/// extension of the name, where there is one. It depends on the name alone
/// where the extension does; nothing is said of other names.
#[verifier::external_body]
fn guess_type(key: &str) -> (result: Option<&'static str>)
    ensures
        portable(key@) ==> guess_of(result) == guessed_type(key@),
{
    mime_guess::from_path(key).first_raw()
}

/// The view of an optional text.
pub open spec fn guess_of(guess: Option<&'static str>) -> Option<Seq<char>> {
    match guess {
        Some(guess) => Some(guess@),
        None => None,
    }
}

/// The media type of an asset; one without a guess is unknown bytes.
pub open spec fn asset_type(guess: Option<Seq<char>>) -> Seq<char> {
    match guess {
        Some(media_type) => headers::sent_media_type(media_type),
        None => "application/octet-stream"@,
    }
}

/// How long a browser may keep an asset. The start page changes with the
/// application; the other assets have names that change with them.
pub open spec fn asset_caching(key: Seq<char>) -> Seq<char> {
    if key == start_page() {
        "no-store"@
    } else {
        "public, max-age=31536000, immutable"@
    }
}

/// The headers of an asset.
pub open spec fn with_asset_headers(
    values: Map<Seq<char>, Seq<Seq<u8>>>,
    key: Seq<char>,
    guess: Option<Seq<char>>,
) -> Map<Seq<char>, Seq<Seq<u8>>> {
    headers::with_header(
        headers::with_header(values, "content-type"@, asset_type(guess)),
        "cache-control"@,
        asset_caching(key),
    )
}

/// Puts the headers of an asset on its response; `guess` is the media type
/// that its name suggests.
pub fn asset_headers_with(response: &mut HeaderMap, key: &str, guess: Option<&'static str>)
    requires
        headers::room_for(*old(response), 2),
    ensures
        headers::header_values(*final(response)) == with_asset_headers(
            headers::header_values(*old(response)),
            key@,
            guess_of(guess),
        ),
{
    proof {
        reveal_strlit("application/octet-stream");
        reveal_strlit("no-store");
        reveal_strlit("public, max-age=31536000, immutable");
    }
    match guess {
        Some(media_type) => set_media_type(response, media_type, Ghost(1)),
        None => set_plain(response, "content-type", "application/octet-stream", Ghost(1)),
    }
    if same_text(key, "web-files.html") {
        set_plain(response, "cache-control", "no-store", Ghost(0));
    } else {
        set_plain(response, "cache-control", "public, max-age=31536000, immutable", Ghost(0));
    }
}

/// Puts the headers of an asset on its response.
pub fn asset_headers(response: &mut HeaderMap, key: &str)
    requires
        headers::room_for(*old(response), 2),
    ensures
        exists|guess: Option<Seq<char>>|
            headers::header_values(*final(response)) == #[trigger] with_asset_headers(
                headers::header_values(*old(response)),
                key@,
                guess,
            ),
        portable(key@) ==> headers::header_values(*final(response)) == with_asset_headers(
            headers::header_values(*old(response)),
            key@,
            guessed_type(key@),
        ),
{
    asset_headers_with(response, key, guess_type(key))
}

/// Every path below a share's page asks for the start page, and so do the root
/// and the list of files.
pub proof fn law_pages_ask_for_the_start_page(rest: Seq<char>)
    ensures
        asset_key_of(Seq::empty()) == start_page(),
        asset_key_of("/"@) == start_page(),
        asset_key_of("/files"@) == start_page(),
        asset_key_of("/s/"@ + rest) == start_page(),
{
    reveal_strlit("/");
    reveal_strlit("/files");
    reveal_strlit("files");
    reveal_strlit("/s/");
    reveal_strlit("s/");
    assert("/"@.skip(1) =~= Seq::<char>::empty());
    assert("/files"@.skip(1) =~= "files"@);
    let path = "/s/"@ + rest;
    assert(path.skip(1) =~= "s/"@ + rest);
    assert(("s/"@ + rest).take(2) =~= "s/"@);
    assert(text::strip_leading(Seq::<char>::empty(), '/') =~= Seq::<char>::empty());
    assert(text::strip_leading("files"@, '/') == "files"@);
    assert(text::strip_leading("s/"@ + rest, '/') == "s/"@ + rest);
    assert(text::strip_leading("/"@, '/') == text::strip_leading("/"@.skip(1), '/'));
    assert(text::strip_leading("/files"@, '/') == text::strip_leading("/files"@.skip(1), '/'));
    assert(text::strip_leading(path, '/') == text::strip_leading(path.skip(1), '/'));
}

} // verus!
