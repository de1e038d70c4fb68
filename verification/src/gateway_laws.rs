//! Who may open a share and what a browser is told, from the state of the
//! sessions to the answer.
use axum::http::HeaderMap;
use vstd::prelude::*;

use crate::addr::IpAddr;
use crate::api_error;
use crate::api_error::{ApiError, ApiErrorView, FileErrorKind};
use crate::auth_attempts;
use crate::content;
use crate::cookies;
use crate::gateway;
use crate::gateway::ShareView;
use crate::headers;
use crate::numbers;
use crate::session;
use crate::session::SessionView;
use crate::settings::WebGatewaySettings;
use crate::shares::{FileEntry, SharedDirectory, WebAccessMode};
use crate::text;

verus! {

/// A public share is open to everyone. Any other is open to those whose session
/// grants it, and to nobody else.
pub proof fn law_who_a_share_is_open_to(
    sessions: Map<Seq<char>, SessionView>,
    share: SharedDirectory,
    token: Option<Seq<char>>,
    ip: IpAddr,
    idle: u128,
    now: u128,
)
    ensures
        share.web.mode == WebAccessMode::Public ==> gateway::opens(
            sessions,
            share,
            token,
            ip,
            idle,
            now,
        ),
        share.web.mode != WebAccessMode::Public ==> gateway::opens(
            sessions,
            share,
            token,
            ip,
            idle,
            now,
        ) == session::grants(
            sessions,
            token,
            ip,
            share.id@,
            share.web.credential_revision,
            idle,
            now,
        ),
{
}

/// A share that is open is given; one that is not is answered that it has to be
/// unlocked, and one that is not there that it is missing.
pub proof fn law_open_shares_are_given(
    sessions: Map<Seq<char>, SessionView>,
    share: SharedDirectory,
    token: Option<Seq<char>>,
    ip: IpAddr,
    idle: u128,
    now: u128,
)
    ensures
        ({
            let access = gateway::share_access(sessions, Some(share), token, ip, idle, now);
            let granted = session::grants(
                sessions,
                token,
                ip,
                share.id@,
                share.web.credential_revision,
                idle,
                now,
            );
            &&& share.web.mode == WebAccessMode::Public || granted ==> access == Ok::<
                SharedDirectory,
                ApiErrorView,
            >(share)
            &&& share.web.mode != WebAccessMode::Public && !granted ==> {
                &&& access is Err
                &&& access->Err_0.status == 401
                &&& access->Err_0.code == "web_gateway.unauthenticated"@
                &&& access->Err_0.message == "this shared directory must be unlocked"@
            }
        }),
        gateway::share_access(sessions, None, token, ip, idle, now) is Err,
        gateway::share_access(sessions, None, token, ip, idle, now)->Err_0.status == 404,
        gateway::share_access(sessions, None, token, ip, idle, now)->Err_0.message
            == "share or file not found"@,
{
}

/// A share that may be opened and allows previews may be previewed, however it
/// was opened; one that allows none is refused, and one that may not be opened
/// is answered as it is when it is opened.
pub proof fn law_open_shares_are_previewed_where_they_allow_it(
    access: Result<SharedDirectory, ApiErrorView>,
)
    ensures
        access is Ok && access->Ok_0.web.allow_preview ==> gateway::preview_access(access)
            == access,
        access is Ok && !access->Ok_0.web.allow_preview ==> gateway::preview_access(access) is Err
            && gateway::preview_access(access)->Err_0.status == 403
            && gateway::preview_access(access)->Err_0.code == "web_gateway.permission_denied"@,
        access is Err ==> gateway::preview_access(access) == access,
{
}

/// The metadata of the share itself is told to everyone, and that of a file in
/// it to those who may open the share.
pub proof fn law_metadata_of_files_needs_an_open_share(
    access: Result<SharedDirectory, ApiErrorView>,
    share: SharedDirectory,
    path: Seq<char>,
)
    ensures
        path.len() > 0 ==> gateway::metadata_access(access, Some(share), path) == access,
        path.len() == 0 ==> gateway::metadata_access(access, Some(share), path) == Ok::<
            SharedDirectory,
            ApiErrorView,
        >(share),
        path.len() == 0 ==> gateway::metadata_access(access, None, path) is Err
            && gateway::metadata_access(access, None, path)->Err_0.status == 404,
{
}

/// The cookie that unlocking a share hands over opens its previews and the
/// metadata of its files too.
pub proof fn law_the_handed_cookie_opens_previews(
    token: Seq<char>,
    before: Map<Seq<char>, SessionView>,
    after: Map<Seq<char>, SessionView>,
    response: HeaderMap,
    answered: HeaderMap,
    existing: Option<Seq<char>>,
    ip: IpAddr,
    share: SharedDirectory,
    idle: u128,
    now: u128,
    fresh: Seq<char>,
    request: HeaderMap,
    later: u128,
    path: Seq<char>,
)
    requires
        gateway::hands_token(
            token,
            before,
            after,
            response,
            answered,
            existing,
            ip,
            (share.id@, share.web.credential_revision),
            idle,
            now,
            fresh,
        ),
        headers::header_str(request, "cookie"@) == Some(
            text::pieces(headers::header_str(answered, "set-cookie"@)->0, ';')[0],
        ),
        !session::expired(after[token], later, idle),
    ensures
        ({
            let access = gateway::share_access(
                after,
                Some(share),
                cookies::session_token(request),
                ip,
                idle,
                later,
            );
            &&& access == Ok::<SharedDirectory, ApiErrorView>(share)
            &&& share.web.allow_preview ==> gateway::preview_access(access) == access
            &&& gateway::metadata_access(access, Some(share), path) == access
        }),
{
    gateway::law_the_handed_cookie_opens_the_share(
        token,
        before,
        after,
        response,
        answered,
        existing,
        ip,
        share,
        idle,
        now,
        fresh,
        request,
        later,
    );
}

/// What a browser is told of a share is what the share is.
pub proof fn law_a_view_tells_its_share(
    view: ShareView,
    share: SharedDirectory,
    unlocked: bool,
)
    requires
        gateway::shows(view, share, unlocked),
    ensures
        view.name@ == share.name@,
        view.slug@ == share.web.slug@,
        view.mode == share.web.mode,
        view.unlocked == unlocked,
        view.allow_preview == share.web.allow_preview,
        view.allow_download == share.web.allow_download,
{
}

/// Shares that differ in their name, address, mode or permissions are shown
/// differently.
pub proof fn law_different_shares_are_shown_differently(
    view: ShareView,
    share: SharedDirectory,
    other: SharedDirectory,
    unlocked: bool,
    elsewhere: bool,
)
    requires
        gateway::shows(view, share, unlocked),
        share.name@ != other.name@ || share.web.slug@ != other.web.slug@ || share.web.mode
            != other.web.mode || share.web.allow_preview != other.web.allow_preview
            || share.web.allow_download != other.web.allow_download || unlocked != elsewhere,
    ensures
        !gateway::shows(view, other, elsewhere),
{
}

/// A browser is told what it can do. A share is shown as unlocked exactly to
/// those to whom it is given, as previewed where its previews are given to
/// them, and as downloaded where its files are sent to be saved.
pub proof fn law_a_view_tells_what_can_be_done(
    sessions: Map<Seq<char>, SessionView>,
    view: ShareView,
    share: SharedDirectory,
    token: Option<Seq<char>>,
    ip: IpAddr,
    idle: u128,
    now: u128,
    entry: FileEntry,
    error_id: Seq<char>,
)
    requires
        gateway::shows(
            view,
            share,
            gateway::opens(sessions, share, token, ip, idle, now),
        ),
    ensures
        ({
            let access = gateway::share_access(sessions, Some(share), token, ip, idle, now);
            &&& view.unlocked <==> access is Ok
            &&& view.unlocked && view.allow_preview <==> gateway::preview_access(access) is Ok
            &&& view.allow_download <==> content::file_answer(
                share,
                true,
                Ok(entry),
                error_id,
            ) is Ok
            &&& !view.allow_download && !view.allow_preview ==> content::file_answer(
                share,
                false,
                Ok(entry),
                error_id,
            ) is Err
        }),
{
}

/// Looking at a public share changes no session. Opening another share is a use
/// of the session that grants it; it changes no session of another token.
pub proof fn law_opening_a_share_is_a_use_of_the_session(
    sessions: Map<Seq<char>, SessionView>,
    share: SharedDirectory,
    token: Seq<char>,
    ip: IpAddr,
    idle: u128,
    now: u128,
    other: Seq<char>,
)
    requires
        other != token,
    ensures
        ({
            let after = gateway::after_access(sessions, Some(share), Some(token), ip, idle, now);
            let granted = session::grants(
                sessions,
                Some(token),
                ip,
                share.id@,
                share.web.credential_revision,
                idle,
                now,
            );
            &&& share.web.mode == WebAccessMode::Public ==> after == sessions
            &&& share.web.mode != WebAccessMode::Public && granted ==> after.contains_key(token)
                && after[token].last_access_at == now && after[token].shares
                == sessions[token].shares && after[token].created_at == sessions[token].created_at
                && after[token].source_ip == sessions[token].source_ip
            &&& after.contains_key(other) == sessions.contains_key(other)
            &&& sessions.contains_key(other) ==> after[other] == sessions[other]
        }),
        gateway::after_access(sessions, None, Some(token), ip, idle, now) == sessions,
        gateway::after_access(sessions, Some(share), None, ip, idle, now) == sessions,
{
}

/// Looking through a list of shares changes no session of another token, and
/// gives and takes no shares.
pub proof fn law_looking_through_shares_changes_no_other_session(
    sessions: Map<Seq<char>, SessionView>,
    shares: Seq<SharedDirectory>,
    token: Option<Seq<char>>,
    ip: IpAddr,
    idle: u128,
    now: u128,
    other: Seq<char>,
)
    requires
        token != Some(other),
    ensures
        ({
            let after = gateway::after_opening_all(sessions, shares, token, ip, idle, now);
            &&& after.contains_key(other) == sessions.contains_key(other)
            &&& sessions.contains_key(other) ==> after[other] == sessions[other]
            &&& token is Some && after.contains_key(token->0) ==> sessions.contains_key(token->0)
                && after[token->0].shares == sessions[token->0].shares && after[token->0].source_ip
                == sessions[token->0].source_ip && after[token->0].created_at
                == sessions[token->0].created_at
        }),
    decreases shares.len(),
{
    if shares.len() > 0 {
        law_looking_through_shares_changes_no_other_session(
            sessions,
            shares.drop_last(),
            token,
            ip,
            idle,
            now,
            other,
        );
    }
}

/// The session that is shown when shares are looked through: it stays as it was,
/// or counts as used, or has ended.
proof fn lemma_looking_through_shares(
    sessions: Map<Seq<char>, SessionView>,
    shares: Seq<SharedDirectory>,
    token: Seq<char>,
    ip: IpAddr,
    idle: u128,
    now: u128,
)
    requires
        sessions.contains_key(token),
    ensures
        ({
            let after = gateway::after_opening_all(sessions, shares, Some(token), ip, idle, now);
            if session::expired(sessions[token], now, idle) {
                after.contains_key(token) ==> after[token] == sessions[token]
            } else {
                &&& after.contains_key(token)
                &&& after[token] == sessions[token] || after[token] == (SessionView {
                    last_access_at: now,
                    ..sessions[token]
                })
            }
        }),
    decreases shares.len(),
{
    if shares.len() > 0 {
        lemma_looking_through_shares(sessions, shares.drop_last(), token, ip, idle, now);
    }
}

/// To look through shares is a use of the session that is shown where it has one
/// of them, ends it where its time is over, and does nothing else.
pub proof fn law_looking_through_shares_is_a_use_of_the_session(
    sessions: Map<Seq<char>, SessionView>,
    shares: Seq<SharedDirectory>,
    token: Seq<char>,
    ip: IpAddr,
    idle: u128,
    now: u128,
    i: int,
)
    requires
        0 <= i < shares.len(),
        sessions.contains_key(token),
        shares[i].web.mode != WebAccessMode::Public,
    ensures
        ({
            let after = gateway::after_opening_all(sessions, shares, Some(token), ip, idle, now);
            &&& session::grants(
                sessions,
                Some(token),
                ip,
                shares[i].id@,
                shares[i].web.credential_revision,
                idle,
                now,
            ) ==> after.contains_key(token) && after[token].last_access_at == now
            &&& session::expired(sessions[token], now, idle) ==> !after.contains_key(token)
        }),
    decreases shares.len(),
{
    let rest = shares.drop_last();
    lemma_looking_through_shares(sessions, rest, token, ip, idle, now);
    if i < rest.len() {
        law_looking_through_shares_is_a_use_of_the_session(
            sessions,
            rest,
            token,
            ip,
            idle,
            now,
            i,
        );
    }
}

/// To look through shares of which the session has none, while its time lasts,
/// changes nothing.
pub proof fn law_looking_through_closed_shares_changes_nothing(
    sessions: Map<Seq<char>, SessionView>,
    shares: Seq<SharedDirectory>,
    token: Option<Seq<char>>,
    ip: IpAddr,
    idle: u128,
    now: u128,
)
    requires
        token is Some && sessions.contains_key(token->0) ==> !session::expired(
            sessions[token->0],
            now,
            idle,
        ),
        forall|i: int|
            0 <= i < shares.len() ==> (#[trigger] shares[i]).web.mode == WebAccessMode::Public
                || !session::grants(
                sessions,
                token,
                ip,
                shares[i].id@,
                shares[i].web.credential_revision,
                idle,
                now,
            ),
    ensures
        gateway::after_opening_all(sessions, shares, token, ip, idle, now) == sessions,
    decreases shares.len(),
{
    if shares.len() > 0 {
        let rest = shares.drop_last();
        assert forall|i: int| 0 <= i < rest.len() implies (#[trigger] rest[i]).web.mode
            == WebAccessMode::Public || !session::grants(
            sessions,
            token,
            ip,
            rest[i].id@,
            rest[i].web.credential_revision,
            idle,
            now,
        ) by {
            assert(rest[i] == shares[i]);
        }
        law_looking_through_closed_shares_changes_nothing(sessions, rest, token, ip, idle, now);
        assert(shares.last() == shares[shares.len() - 1]);
    }
}

/// A password is looked at exactly where the share takes one and the limit on
/// wrong ones is not reached.
pub proof fn law_when_a_password_is_looked_at(
    failures: Map<(IpAddr, Seq<char>), Seq<u128>>,
    share: SharedDirectory,
    ip: IpAddr,
    now: u128,
)
    ensures
        ({
            let answer = gateway::unlock_admission(failures, Some(share), ip, now);
            let limited = auth_attempts::rate_limited(failures, ip, share.id@, now);
            &&& answer is Ok <==> share.web.mode == WebAccessMode::Password && !limited
            &&& share.web.mode == WebAccessMode::Password && limited ==> answer->Err_0.status
                == 429 && answer->Err_0.code == "web_gateway.rate_limited"@
            &&& share.web.mode != WebAccessMode::Password ==> answer->Err_0.status == 401
                && answer->Err_0.message == "password is incorrect or the share is unavailable"@
        }),
        gateway::unlock_admission(failures, None, ip, now) is Err,
        gateway::unlock_admission(failures, None, ip, now)->Err_0.status == 401,
        gateway::wrong_password().status == 401,
        gateway::wrong_password().code == "web_gateway.unauthenticated"@,
        gateway::wrong_password().message == "password is incorrect or the share is unavailable"@,
        gateway::takes_password(Some(share)) <==> share.web.mode == WebAccessMode::Password,
{
}

/// An unused session lives for the minutes that are configured.
pub proof fn law_idle_time_is_the_configured_minutes(settings: WebGatewaySettings)
    ensures
        gateway::idle_lifetime_of(settings) == settings.session_idle_minutes * 60_000_000_000,
{
}

/// An answer is told as it is: the value, or an error that says the same.
pub proof fn law_answers_are_told_as_they_are<T>(
    result: Result<T, ApiError>,
    answer: Result<T, ApiErrorView>,
)
    requires
        api_error::answers(result, answer),
    ensures
        answer is Ok ==> result is Ok && result->Ok_0 == answer->Ok_0,
        answer is Err ==> {
            &&& result is Err
            &&& result->Err_0.status == answer->Err_0.status
            &&& result->Err_0.code@ == answer->Err_0.code
            &&& result->Err_0.message@ == answer->Err_0.message
            &&& result->Err_0.error_id is Some <==> answer->Err_0.error_id is Some
            &&& answer->Err_0.error_id is Some ==> result->Err_0.error_id->0@
                == answer->Err_0.error_id->0
            &&& result->Err_0.content_range is Some <==> answer->Err_0.content_range is Some
            &&& answer->Err_0.content_range is Some ==> result->Err_0.content_range->0@
                == answer->Err_0.content_range->0
        },
{
}

/// What the file service says of a request is passed on, under its own code;
/// what it says of its own failures is not.
pub proof fn law_what_is_passed_on_of_a_failure(
    kind: FileErrorKind,
    code: Seq<char>,
    message: Seq<char>,
    id: Seq<char>,
)
    ensures
        ({
            let answer = api_error::file_failure(kind, code, message, id);
            &&& answer.code == code
            &&& answer.content_range is None
            &&& kind == FileErrorKind::Invalid ==> answer.status == 400
            &&& kind == FileErrorKind::NotFound ==> answer.status == 404
            &&& kind == FileErrorKind::DirectorySnapshotExpired ==> answer.status == 410
            &&& kind == FileErrorKind::Conflict ==> answer.status == 409
            &&& kind == FileErrorKind::PermissionDenied ==> answer.status == 403
            &&& kind == FileErrorKind::DirectoryQueryTooBroad ==> answer.status == 422
            &&& kind == FileErrorKind::FileTooLarge ==> answer.status == 413
            &&& kind == FileErrorKind::InsufficientStorage ==> answer.status == 507
            &&& kind == FileErrorKind::Unavailable || kind == FileErrorKind::Io || kind
                == FileErrorKind::Serialization || kind == FileErrorKind::PasswordHash || kind
                == FileErrorKind::Task || kind == FileErrorKind::Image ==> answer.status == 500
            &&& answer.status != 500 ==> answer.message == message && answer.error_id is None
            &&& answer.status == 500 ==> answer.message
                == "web service is temporarily unavailable"@ && answer.error_id == Some(id)
        }),
{
}

/// Refusals say what they were made to say, under the code of their status; a
/// failure of the gateway's own says only that, and by which identifier it can
/// be found.
pub proof fn law_refusals_say_what_they_are(
    status: u16,
    message: Seq<char>,
    id: Seq<char>,
    total: u64,
)
    ensures
        ({
            let refusal = api_error::refusal(status, message);
            &&& refusal.status == status
            &&& refusal.message == message
            &&& refusal.error_id is None
            &&& refusal.content_range is None
            &&& status == 400 ==> refusal.code == "web_gateway.invalid_request"@
            &&& status == 401 ==> refusal.code == "web_gateway.unauthenticated"@
            &&& status == 403 ==> refusal.code == "web_gateway.permission_denied"@
            &&& status == 404 ==> refusal.code == "web_gateway.not_found"@
            &&& status == 409 ==> refusal.code == "web_gateway.conflict"@
            &&& status == 410 ==> refusal.code == "web_gateway.expired"@
            &&& status == 429 ==> refusal.code == "web_gateway.rate_limited"@
            &&& status != 400 && status != 401 && status != 403 && status != 404 && status != 409
                && status != 410 && status != 429 ==> refusal.code == "web_gateway.internal"@
        }),
        api_error::internal_failure(id).status == 500,
        api_error::internal_failure(id).code == "web_gateway.internal"@,
        api_error::internal_failure(id).message == "web service is temporarily unavailable"@,
        api_error::internal_failure(id).error_id == Some(id),
        api_error::internal_failure(id).content_range is None,
        api_error::range_failure(total).status == 416,
        api_error::range_failure(total).code == "web_gateway.invalid_range"@,
        api_error::range_failure(total).message == "requested file range is invalid"@,
        api_error::range_failure(total).error_id is None,
        api_error::range_failure(total).content_range == Some(
            "bytes */"@ + numbers::decimal(total as nat),
        ),
        api_error::missing().status == 404,
        api_error::missing().message == "share or file not found"@,
        api_error::not_permitted().status == 403,
        api_error::not_permitted().message == "this operation is not permitted for the share"@,
{
}

/// The limit is on the failures of the last minute: where they came in order,
/// five of them within it stop further attempts, and fewer do not.
pub proof fn law_the_limit_is_five_in_a_minute(
    all: Map<(IpAddr, Seq<char>), Seq<u128>>,
    ip: IpAddr,
    share_id: Seq<char>,
    now: u128,
)
    requires
        all.contains_key((ip, share_id)) ==> auth_attempts::in_order(all[(ip, share_id)], now),
    ensures
        auth_attempts::rate_limited(all, ip, share_id, now) <==> all.contains_key((ip, share_id))
            && all[(ip, share_id)].filter(|t: u128| now - t < 60_000_000_000).len() >= 5,
{
    let failures = auth_attempts::failures_of(all, ip, share_id);
    if all.contains_key((ip, share_id)) {
        auth_attempts::law_attempts_count_for_a_minute(failures, now);
        assert((|t: u128| now - t < auth_attempts::ATTEMPT_WINDOW) =~= (|t: u128|
            now - t < 60_000_000_000));
    }
}

/// Fewer than five failures never stop an attempt, whenever they came.
pub proof fn law_fewer_than_five_failures_stop_nobody(
    all: Map<(IpAddr, Seq<char>), Seq<u128>>,
    ip: IpAddr,
    share_id: Seq<char>,
    now: u128,
)
    requires
        all.contains_key((ip, share_id)) ==> all[(ip, share_id)].len() < 5,
    ensures
        !auth_attempts::rate_limited(all, ip, share_id, now),
{
    lemma_recent_is_no_longer(auth_attempts::failures_of(all, ip, share_id), now);
}

proof fn lemma_recent_is_no_longer(attempts: Seq<u128>, now: u128)
    ensures
        auth_attempts::recent(attempts, now).len() <= attempts.len(),
    decreases attempts.len(),
{
    if attempts.len() > 0 {
        lemma_recent_is_no_longer(attempts.skip(1), now);
    }
}

/// A failure is noted for its address and share, at its time and behind the
/// earlier ones; a success forgets them; asking forgets none that still counts.
/// None of these touches what is noted of another address or share.
pub proof fn law_what_is_noted_of_attempts(
    all: Map<(IpAddr, Seq<char>), Seq<u128>>,
    ip: IpAddr,
    share_id: Seq<char>,
    now: u128,
    other: (IpAddr, Seq<char>),
)
    requires
        other != (ip, share_id),
    ensures
        ({
            let key = (ip, share_id);
            let failed = auth_attempts::after_failure(all, ip, share_id, now);
            let cleared = auth_attempts::after_success(all, ip, share_id);
            let asked = auth_attempts::after_check(all, ip, share_id, now);
            &&& failed.contains_key(key)
            &&& all.contains_key(key) ==> failed[key] == all[key].push(now)
            &&& !all.contains_key(key) ==> failed[key] == seq![now]
            &&& !cleared.contains_key(key)
            &&& asked.contains_key(key)
            &&& failed.contains_key(other) == all.contains_key(other) && failed[other] == all[other]
            &&& cleared.contains_key(other) == all.contains_key(other) && cleared[other]
                == all[other]
            &&& asked.contains_key(other) == all.contains_key(other) && asked[other] == all[other]
        }),
{
    assert(Seq::<u128>::empty().push(now) =~= seq![now]);
}

/// The names of a path add up: a path of two parts has the names of both, a
/// single name counts as one, and nothing counts as none.
pub proof fn law_the_names_of_a_path_add_up(a: Seq<char>, b: Seq<char>)
    ensures
        gateway::path_depth(a + seq!['/'] + b) == gateway::path_depth(a) + gateway::path_depth(b),
        gateway::path_depth(Seq::empty()) == 0,
        a.len() > 0 && !a.contains('/') ==> gateway::path_depth(a) == 1,
{
    let named = |name: Seq<char>| name.len() > 0;
    cookies::lemma_pieces_join(a, b, '/');
    Seq::filter_distributes_over_add(text::pieces(a, '/'), text::pieces(b, '/'), named);
    let none = Seq::<char>::empty();
    reveal_with_fuel(Seq::filter, 2);
    assert(text::pieces(none, '/') =~= seq![none]);
    assert(seq![none].drop_last() =~= Seq::<Seq<char>>::empty());
    assert(seq![none].filter(named).len() == 0);
    if a.len() > 0 && !a.contains('/') {
        assert forall|i: int| 0 <= i < a.len() implies #[trigger] a[i] != '/' by {
            assert(a.contains(a[i]));
        }
        cookies::lemma_single_piece(a, '/');
        assert(seq![a].drop_last() =~= Seq::<Seq<char>>::empty());
        assert(seq![a].last() == a);
        assert(seq![a].filter(named) =~= seq![a]);
    }
}

/// A session cookie is found among others: those before it that are no session
/// cookies, and whatever comes behind it, do not matter.
pub proof fn law_the_session_cookie_is_found_among_others(
    before: Seq<char>,
    token: Seq<char>,
    behind: Seq<char>,
)
    requires
        token.len() == 64,
        forall|i: int|
            0 <= i < token.len() ==> '0' <= #[trigger] token[i] <= '9' || 'a' <= token[i] <= 'f'
                || 'A' <= token[i] <= 'F',
        forall|i: int|
            0 <= i < text::pieces(before, ';').len() ==> !text::has_prefix(
                text::trimmed(#[trigger] text::pieces(before, ';')[i]),
                "arcrelay_web_session="@,
            ),
    ensures
        cookies::token_in(
            before + seq![';'] + ("arcrelay_web_session="@ + token) + seq![';'] + behind,
        ) == Some(token),
        cookies::token_in(("arcrelay_web_session="@ + token) + seq![';'] + behind) == Some(token),
        cookies::token_in(before + seq![';'] + ("arcrelay_web_session="@ + token)) == Some(token),
        cookies::token_in("arcrelay_web_session="@ + token) == Some(token),
{
    let cookie = "arcrelay_web_session="@ + token;
    let p = text::pieces(before, ';');
    let q = text::pieces(behind, ';');
    assert(cookies::token_form(token));
    cookies::law_a_handed_token_reads_back(token);
    cookies::lemma_session_piece(token);
    cookies::lemma_pieces_join(cookie, behind, ';');
    cookies::lemma_pieces_join(before, cookie, ';');
    cookies::lemma_pieces_join(before, cookie + seq![';'] + behind, ';');
    assert(before + seq![';'] + cookie + seq![';'] + behind =~= before + seq![';'] + (cookie
        + seq![';'] + behind));
    assert(text::pieces(cookie, ';') == seq![cookie]);
    lemma_first_session_skips(p, seq![cookie] + q);
    lemma_first_session_skips(p, seq![cookie]);
    let one = seq![cookie];
    let none = Seq::<Seq<char>>::empty();
    assert(one[0] == cookie);
    assert(one.skip(1) =~= none);
    assert(cookies::first_session(none) is None);
    assert(cookies::first_session(one) == Some(token));
    assert(text::has_prefix(text::trimmed(cookie), "arcrelay_web_session="@));
    assert((one + q)[0] == cookie);
    assert(cookies::first_session(one + q) == cookies::first_session(one));
}

proof fn lemma_first_session_skips(p: Seq<Seq<char>>, rest: Seq<Seq<char>>)
    requires
        forall|i: int|
            0 <= i < p.len() ==> !text::has_prefix(
                text::trimmed(#[trigger] p[i]),
                "arcrelay_web_session="@,
            ),
    ensures
        cookies::first_session(p + rest) == cookies::first_session(rest),
    decreases p.len(),
{
    if p.len() == 0 {
        assert(p + rest =~= rest);
    } else {
        assert((p + rest)[0] == p[0]);
        assert((p + rest).skip(1) =~= p.skip(1) + rest);
        lemma_first_session_skips(p.skip(1), rest);
    }
}

/// The token of a request is that of its `Cookie` header; what has not the form
/// of one, sixty-four hexadecimal digits, is none.
pub proof fn law_the_token_of_a_request(request: HeaderMap)
    ensures
        headers::header_str(request, "cookie"@) is None ==> cookies::session_token(request) is None,
        headers::header_str(request, "cookie"@) is Some ==> cookies::session_token(request)
            == cookies::token_in(headers::header_str(request, "cookie"@)->0),
        cookies::session_token(request) is Some ==> cookies::session_token(request)->0.len() == 64
            && forall|i: int|
            0 <= i < 64 ==> {
                let c = #[trigger] cookies::session_token(request)->0[i];
                '0' <= c <= '9' || 'a' <= c <= 'f' || 'A' <= c <= 'F'
            },
{
    if cookies::session_token(request) is Some {
        let token = cookies::session_token(request)->0;
        assert forall|i: int| 0 <= i < 64 implies {
            let c = #[trigger] token[i];
            '0' <= c <= '9' || 'a' <= c <= 'f' || 'A' <= c <= 'F'
        } by {
            assert(numbers::hex_digit(token[i]));
        }
    }
}

/// The cookie that is handed over carries the token, is kept from scripts and
/// other sites, and lasts a day; the one that takes it back carries none and
/// lasts no time.
pub proof fn law_what_cookies_carry(token: Seq<char>)
    ensures
        cookies::handed_cookie(token) == "arcrelay_web_session="@ + token
            + "; Path=/; HttpOnly; SameSite=Strict; Max-Age=86400"@,
        cookies::cleared_cookie()
            == "arcrelay_web_session=; Path=/; HttpOnly; SameSite=Strict; Max-Age=0"@,
{
}

/// What unlocking hands over is the token of the session that it opened or
/// added to, in the cookie of the response.
pub proof fn law_the_handed_token_is_that_of_the_session(
    token: Seq<char>,
    before: Map<Seq<char>, SessionView>,
    after: Map<Seq<char>, SessionView>,
    response: HeaderMap,
    answered: HeaderMap,
    existing: Option<Seq<char>>,
    ip: IpAddr,
    verified: (Seq<char>, u64),
    idle: u128,
    now: u128,
    fresh: Seq<char>,
    name: Seq<char>,
)
    requires
        gateway::hands_token(
            token,
            before,
            after,
            response,
            answered,
            existing,
            ip,
            verified,
            idle,
            now,
            fresh,
        ),
        name != "set-cookie"@,
    ensures
        headers::header_str(answered, "set-cookie"@) == Some(
            "arcrelay_web_session="@ + token
                + "; Path=/; HttpOnly; SameSite=Strict; Max-Age=86400"@,
        ),
        headers::header_values(answered).contains_key(name) == headers::header_values(
            response,
        ).contains_key(name),
        headers::header_values(answered)[name] == headers::header_values(response)[name],
        after.contains_key(token),
        after[token].shares.contains_key(verified.0),
        after[token].shares[verified.0] == verified.1,
        after[token].source_ip == ip,
        after[token].last_access_at == now,
{
    cookies::lemma_cookie_is_plain(token);
    headers::lemma_set_header_reads_back(
        headers::header_values(response),
        answered,
        "set-cookie"@,
        cookies::handed_cookie(token),
    );
}

/// The first session cookie decides: where it holds no token, no later one is
/// looked at.
pub proof fn law_the_first_session_cookie_decides(held: Seq<char>, behind: Seq<char>)
    requires
        !held.contains(';'),
        held.len() > 0 ==> !text::white_space(held.last()),
        held.len() != 64 || exists|i: int|
            0 <= i < held.len() && !numbers::hex_digit(#[trigger] held[i]),
    ensures
        cookies::token_in(("arcrelay_web_session="@ + held) + seq![';'] + behind) is None,
        cookies::token_in("arcrelay_web_session="@ + held) is None,
{
    reveal_strlit("arcrelay_web_session=");
    let cookie = "arcrelay_web_session="@ + held;
    assert forall|i: int| 0 <= i < cookie.len() implies #[trigger] cookie[i] != ';' by {
        if i >= 21 {
            assert(cookie[i] == held[i - 21]);
            assert(held.contains(held[i - 21]));
        }
    }
    cookies::lemma_single_piece(cookie, ';');
    cookies::lemma_pieces_join(cookie, behind, ';');
    if held.len() > 0 {
        assert(cookie.last() == held.last());
    } else {
        assert(cookie =~= "arcrelay_web_session="@);
    }
    assert(text::trimmed(cookie) == cookie);
    assert(cookie.take(21) =~= "arcrelay_web_session="@);
    assert(cookie.skip(21) =~= held);
    assert(!cookies::token_form(held));
    let one = seq![cookie];
    let q = text::pieces(behind, ';');
    assert(one[0] == cookie);
    assert((one + q)[0] == cookie);
}

} // verus!
