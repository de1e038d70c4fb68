//! The headers that every response carries.
use axum::http::HeaderMap;
use vstd::prelude::*;
use vstd::utf8;

use crate::headers;
use crate::headers::set_plain;

verus! {

/// The headers of a response before it is sent.
pub open spec fn with_security_headers(values: Map<Seq<char>, Seq<Seq<u8>>>) -> Map<
    Seq<char>,
    Seq<Seq<u8>>,
> {
    let policed = headers::with_header(
        values,
        "content-security-policy"@,
        "default-src 'self'; img-src 'self' data:; media-src 'self'; style-src 'self'; script-src 'self'; object-src 'none'; base-uri 'none'; frame-ancestors 'none'; form-action 'self'"@,
    );
    let typed = headers::with_header(policed, "x-content-type-options"@, "nosniff"@);
    let private = headers::with_header(typed, "referrer-policy"@, "no-referrer"@);
    let unframed = headers::with_header(private, "x-frame-options"@, "DENY"@);
    let owned = headers::with_header(
        unframed,
        "cross-origin-resource-policy"@,
        "same-origin"@,
    );
    let bounded = headers::with_header(
        owned,
        "permissions-policy"@,
        "camera=(), microphone=(), geolocation=()"@,
    );
    headers::with_header(bounded, "cache-control"@, "no-store"@)
}

/// Puts the headers on a response that every response carries.
pub fn security_headers(response: &mut HeaderMap)
    requires
        headers::room_for(*old(response), 7),
    ensures
        headers::header_values(*final(response)) == with_security_headers(
            headers::header_values(*old(response)),
        ),
{
    proof {
        reveal_strlit(
            "default-src 'self'; img-src 'self' data:; media-src 'self'; style-src 'self'; script-src 'self'; object-src 'none'; base-uri 'none'; frame-ancestors 'none'; form-action 'self'",
        );
        reveal_strlit("nosniff");
        reveal_strlit("no-referrer");
        reveal_strlit("DENY");
        reveal_strlit("same-origin");
        reveal_strlit("camera=(), microphone=(), geolocation=()");
        reveal_strlit("no-store");
    }
    set_plain(
        response,
        "content-security-policy",
        "default-src 'self'; img-src 'self' data:; media-src 'self'; style-src 'self'; script-src 'self'; object-src 'none'; base-uri 'none'; frame-ancestors 'none'; form-action 'self'",
        Ghost(6),
    );
    set_plain(response, "x-content-type-options", "nosniff", Ghost(5));
    set_plain(response, "referrer-policy", "no-referrer", Ghost(4));
    set_plain(response, "x-frame-options", "DENY", Ghost(3));
    set_plain(response, "cross-origin-resource-policy", "same-origin", Ghost(2));
    set_plain(
        response,
        "permissions-policy",
        "camera=(), microphone=(), geolocation=()",
        Ghost(1),
    );
    set_plain(response, "cache-control", "no-store", Ghost(0));
}

/// Whatever a route put on its response, the response carries each of these
/// headers with its one value.
pub proof fn law_every_response_is_protected(values: Map<Seq<char>, Seq<Seq<u8>>>)
    ensures
        ({
            let sent = with_security_headers(values);
            &&& sent["content-security-policy"@] == seq![
                utf8::encode_utf8(
                    "default-src 'self'; img-src 'self' data:; media-src 'self'; style-src 'self'; script-src 'self'; object-src 'none'; base-uri 'none'; frame-ancestors 'none'; form-action 'self'"@,
                ),
            ]
            &&& sent["x-content-type-options"@] == seq![utf8::encode_utf8("nosniff"@)]
            &&& sent["referrer-policy"@] == seq![utf8::encode_utf8("no-referrer"@)]
            &&& sent["x-frame-options"@] == seq![utf8::encode_utf8("DENY"@)]
            &&& sent["cross-origin-resource-policy"@] == seq![utf8::encode_utf8("same-origin"@)]
            &&& sent["permissions-policy"@] == seq![
                utf8::encode_utf8("camera=(), microphone=(), geolocation=()"@),
            ]
            &&& sent["cache-control"@] == seq![utf8::encode_utf8("no-store"@)]
        }),
{
    lemma_names_differ();
}

/// What a route put under any other name is sent as it is.
pub proof fn law_other_headers_are_sent(values: Map<Seq<char>, Seq<Seq<u8>>>, name: Seq<char>)
    requires
        name != "content-security-policy"@,
        name != "x-content-type-options"@,
        name != "referrer-policy"@,
        name != "x-frame-options"@,
        name != "cross-origin-resource-policy"@,
        name != "permissions-policy"@,
        name != "cache-control"@,
    ensures
        with_security_headers(values).contains_key(name) == values.contains_key(name),
        with_security_headers(values)[name] == values[name],
{
}

proof fn lemma_names_differ()
    ensures
        "content-security-policy"@.len() == 23,
        "x-content-type-options"@.len() == 22,
        "referrer-policy"@.len() == 15,
        "x-frame-options"@.len() == 15,
        "referrer-policy"@[0] == 'r',
        "x-frame-options"@[0] == 'x',
        "cross-origin-resource-policy"@.len() == 28,
        "permissions-policy"@.len() == 18,
        "cache-control"@.len() == 13,
{
    reveal_strlit("content-security-policy");
    reveal_strlit("x-content-type-options");
    reveal_strlit("referrer-policy");
    reveal_strlit("x-frame-options");
    reveal_strlit("cross-origin-resource-policy");
    reveal_strlit("permissions-policy");
    reveal_strlit("cache-control");
}

} // verus!
