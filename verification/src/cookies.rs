//! The cookie that carries a session's token.
use axum::http::HeaderMap;
use vstd::prelude::*;

use crate::headers;
use crate::headers::{header_text, lemma_plain_join};
use crate::numbers;
use crate::text;
use crate::text::{chars_of, matches_at, owned, split_on, text_between, trim_bounds};

verus! {

/// The text has the form of a session token: sixty-four hexadecimal digits.
pub open spec fn token_form(token: Seq<char>) -> bool {
    token.len() == 64 && forall|i: int|
        0 <= i < token.len() ==> numbers::hex_digit(#[trigger] token[i])
}

/// What the first of the cookies that is the session cookie holds.
pub open spec fn first_session(cookies: Seq<Seq<char>>) -> Option<Seq<char>>
    decreases cookies.len(),
{
    if cookies.len() == 0 {
        None
    } else if text::has_prefix(text::trimmed(cookies[0]), "arcrelay_web_session="@) {
        Some(text::trimmed(cookies[0]).skip(21))
    } else {
        first_session(cookies.skip(1))
    }
}

/// The token that the value of a `Cookie` header holds: the first session
/// cookie decides.
pub open spec fn token_in(value: Seq<char>) -> Option<Seq<char>> {
    match first_session(text::pieces(value, ';')) {
        Some(token) if token_form(token) => Some(token),
        _ => None,
    }
}

/// The token that a request carries.
pub open spec fn session_token(headers: HeaderMap) -> Option<Seq<char>> {
    match headers::header_str(headers, "cookie"@) {
        Some(value) => token_in(value),
        None => None,
    }
}

fn has_token_form(chars: &Vec<char>, from: usize) -> (result: bool)
    requires
        from <= chars@.len(),
    ensures
        result == token_form(chars@.skip(from as int)),
{
    if chars.len() - from != 64 {
        return false;
    }
    let ghost token = chars@.skip(from as int);
    let mut i: usize = from;
    while i < chars.len()
        invariant
            from <= i <= chars@.len(),
            token == chars@.skip(from as int),
            forall|j: int| 0 <= j < i - from ==> numbers::hex_digit(#[trigger] token[j]),
        decreases chars@.len() - i,
    {
        let c = chars[i];
        if !(('0' <= c && c <= '9') || ('a' <= c && c <= 'f') || ('A' <= c && c <= 'F')) {
            assert(!numbers::hex_digit(token[i - from]));
            return false;
        }
        assert(token[i - from] == c);
        i += 1;
    }
    true
}

/// The token in the value of a `Cookie` header.
pub fn cookie_token(value: &str) -> (result: Option<String>)
    ensures
        match result {
            Some(token) => token_in(value@) == Some(token@),
            None => token_in(value@) is None,
        },
{
    let cookies = split_on(value, ';');
    let ghost parts = text::texts(cookies@);
    assert(parts.skip(0) =~= parts);
    let mut i: usize = 0;
    while i < cookies.len()
        invariant
            i <= cookies@.len(),
            parts == text::texts(cookies@),
            parts == text::pieces(value@, ';'),
            first_session(parts) == first_session(parts.skip(i as int)),
        decreases cookies@.len() - i,
    {
        let chars = chars_of(cookies[i].as_str());
        assert(chars@.subrange(0, chars@.len() as int) =~= chars@);
        let bounds = trim_bounds(&chars, 0, chars.len());
        let cookie = chars_of(text_between(&chars, bounds.0, bounds.1).as_str());
        assert(parts[i as int] == chars@);
        assert(parts.skip(i as int)[0] == parts[i as int]);
        assert(cookie@ == text::trimmed(parts[i as int]));
        assert(cookie@.skip(0) =~= cookie@);
        if matches_at(&cookie, 0, "arcrelay_web_session=") {
            proof {
                reveal_strlit("arcrelay_web_session=");
            }
            if !has_token_form(&cookie, 21) {
                return None;
            }
            assert(cookie@.subrange(21, cookie@.len() as int) =~= cookie@.skip(21));
            return Some(text_between(&cookie, 21, cookie.len()));
        }
        assert(parts.skip(i as int).skip(1) =~= parts.skip(i + 1));
        i += 1;
    }
    assert(parts.skip(i as int).len() == 0);
    None
}

/// The token that a request carries.
pub fn session_cookie(headers: &HeaderMap) -> (result: Option<String>)
    ensures
        match result {
            Some(token) => session_token(*headers) == Some(token@),
            None => session_token(*headers) is None,
        },
{
    match header_text(headers, "cookie") {
        Some(value) => cookie_token(value.as_str()),
        None => None,
    }
}

/// The value of the `Set-Cookie` header that hands a token to the browser: no
/// script reads it, no other site sends it, and it lasts a day.
pub open spec fn handed_cookie(token: Seq<char>) -> Seq<char> {
    "arcrelay_web_session="@ + token + "; Path=/; HttpOnly; SameSite=Strict; Max-Age=86400"@
}

/// The value of the `Set-Cookie` header that takes the token back.
pub open spec fn cleared_cookie() -> Seq<char> {
    "arcrelay_web_session=; Path=/; HttpOnly; SameSite=Strict; Max-Age=0"@
}

/// The `Set-Cookie` value for a token.
pub fn cookie_for(token: &str) -> (result: String)
    ensures
        result@ == handed_cookie(token@),
{
    let mut out = owned("arcrelay_web_session=");
    out.append(token);
    out.append("; Path=/; HttpOnly; SameSite=Strict; Max-Age=86400");
    out
}

/// A token that has the form of one can be handed over.
pub proof fn lemma_cookie_is_plain(token: Seq<char>)
    requires
        token_form(token),
    ensures
        headers::plain(handed_cookie(token)),
{
    reveal_strlit("arcrelay_web_session=");
    reveal_strlit("; Path=/; HttpOnly; SameSite=Strict; Max-Age=86400");
    assert(headers::plain(token)) by {
        assert forall|i: int| 0 <= i < token.len() implies headers::plain_char(
            #[trigger] token[i],
        ) by {
            assert(numbers::hex_digit(token[i]));
        }
    }
    lemma_plain_join("arcrelay_web_session="@, token);
    lemma_plain_join(
        "arcrelay_web_session="@ + token,
        "; Path=/; HttpOnly; SameSite=Strict; Max-Age=86400"@,
    );
}

/// What a request is read to carry has the form of a token.
pub proof fn law_only_tokens_are_read(value: Seq<char>)
    ensures
        match token_in(value) {
            Some(token) => token_form(token),
            None => true,
        },
{
}

/// A token that was handed over reads back: the part of the cookie that the
/// browser keeps is the text before the first semicolon, and the token is what
/// that text is read to carry.
pub proof fn law_a_handed_token_reads_back(token: Seq<char>)
    requires
        token_form(token),
    ensures
        text::pieces(handed_cookie(token), ';')[0] == "arcrelay_web_session="@ + token,
        token_in("arcrelay_web_session="@ + token) == Some(token),
{
    reveal_strlit("arcrelay_web_session=");
    reveal_strlit("; Path=/; HttpOnly; SameSite=Strict; Max-Age=86400");
    let kept = "arcrelay_web_session="@ + token;
    let rest = "; Path=/; HttpOnly; SameSite=Strict; Max-Age=86400"@;
    assert forall|i: int| 0 <= i < kept.len() implies #[trigger] kept[i] != ';' by {
        if i >= 21 {
            assert(kept[i] == token[i - 21]);
            assert(numbers::hex_digit(token[i - 21]));
        }
    }
    lemma_one_piece(kept);
    lemma_first_piece(kept, rest);
    assert(kept.len() == 85);
    assert(kept[84] == token[63]);
    assert(numbers::hex_digit(token[63]));
    assert(text::trim_start(kept) == kept);
    assert(text::trimmed(kept) == kept);
    assert(kept.take(21) =~= "arcrelay_web_session="@);
    assert(kept.skip(21) =~= token);
    let parts = text::pieces(kept, ';');
    assert(parts =~= seq![kept]);
    assert(parts[0] == kept);
}

/// A text without separators is one piece.
proof fn lemma_one_piece(s: Seq<char>)
    requires
        forall|i: int| 0 <= i < s.len() ==> #[trigger] s[i] != ';',
    ensures
        text::pieces(s, ';') == seq![s],
{
    lemma_single_piece(s, ';');
}

/// What stands before the first separator is the first piece.
proof fn lemma_first_piece(s: Seq<char>, rest: Seq<char>)
    requires
        forall|i: int| 0 <= i < s.len() ==> #[trigger] s[i] != ';',
        rest.len() > 0,
        rest[0] == ';',
    ensures
        text::pieces(s + rest, ';').len() >= 2,
        text::pieces(s + rest, ';')[0] == s,
    decreases rest.len(),
{
    let all = s + rest;
    assert(all.drop_last() =~= s + rest.drop_last());
    if rest.len() == 1 {
        assert(s + rest.drop_last() =~= s);
        lemma_one_piece(s);
    } else {
        lemma_first_piece(s, rest.drop_last());
    }
}

/// A text without separators is one piece.
pub proof fn lemma_single_piece(s: Seq<char>, sep: char)
    requires
        forall|i: int| 0 <= i < s.len() ==> #[trigger] s[i] != sep,
    ensures
        text::pieces(s, sep) == seq![s],
    decreases s.len(),
{
    if s.len() == 0 {
        assert(s =~= Seq::<char>::empty());
    } else {
        lemma_single_piece(s.drop_last(), sep);
        assert(s.drop_last().push(s.last()) =~= s);
        assert(text::pieces(s, sep) =~= seq![s]);
    }
}

/// The pieces on both sides of a separator are those of both sides.
pub proof fn lemma_pieces_join(a: Seq<char>, b: Seq<char>, sep: char)
    ensures
        text::pieces(a + seq![sep] + b, sep) == text::pieces(a, sep) + text::pieces(b, sep),
        text::pieces(b, sep).len() > 0,
    decreases b.len(),
{
    let all = a + seq![sep] + b;
    if b.len() == 0 {
        assert(all.drop_last() =~= a);
        assert(all.last() == sep);
        assert(text::pieces(b, sep) =~= seq![Seq::<char>::empty()]);
        assert(text::pieces(all, sep) =~= text::pieces(a, sep) + text::pieces(b, sep));
    } else {
        lemma_pieces_join(a, b.drop_last(), sep);
        assert(all.drop_last() =~= a + seq![sep] + b.drop_last());
        assert(all.last() == b.last());
        let before = text::pieces(b.drop_last(), sep);
        assert(text::pieces(all.drop_last(), sep).last() == before.last());
        assert(text::pieces(all, sep) =~= text::pieces(a, sep) + text::pieces(b, sep));
    }
}

/// A session cookie is one piece.
pub proof fn lemma_session_piece(token: Seq<char>)
    requires
        token_form(token),
    ensures
        text::pieces("arcrelay_web_session="@ + token, ';') == seq![
            "arcrelay_web_session="@ + token,
        ],
{
    reveal_strlit("arcrelay_web_session=");
    let kept = "arcrelay_web_session="@ + token;
    assert forall|i: int| 0 <= i < kept.len() implies #[trigger] kept[i] != ';' by {
        if i >= 21 {
            assert(kept[i] == token[i - 21]);
            assert(numbers::hex_digit(token[i - 21]));
        }
    }
    lemma_single_piece(kept, ';');
}

} // verus!
