//! What the routes of the gateway decide: what a site and its shares look
//! like to a browser, who may open a share, and how it is unlocked and locked.
//!
//! Times are nanoseconds on one monotonic clock.
use axum::http::HeaderMap;
use vstd::prelude::*;

use crate::addr::IpAddr;
use crate::api_error;
use crate::api_error::ApiError;
use crate::auth_attempts;
use crate::auth_attempts::AuthAttempts;
use crate::cookies;
use crate::cookies::{cookie_for, lemma_cookie_is_plain, session_cookie};
use crate::headers;
use crate::headers::{set_header, set_plain};
use crate::random;
use crate::session;
use crate::session::{SessionStore, SessionView};
use crate::session_laws;
use crate::settings::WebGatewaySettings;
use crate::shares::{SharedDirectory, WebAccessMode};
use crate::status::{TOO_MANY_REQUESTS, UNAUTHORIZED};
use crate::stream_limits::StreamLimits;
use crate::text;
use crate::text::{owned, split_on};

verus! {

/// What the routes share.
pub struct GatewayState {
    pub settings: WebGatewaySettings,
    pub app_version: String,
    pub failed_auth: AuthAttempts,
    pub streams: StreamLimits,
}

/// How long an unused session lives under these settings, in nanoseconds.
pub open spec fn idle_lifetime_of(settings: WebGatewaySettings) -> u128 {
    (settings.session_idle_minutes * 60 * 1_000_000_000) as u128
}

impl GatewayState {
    pub open spec fn wf(&self) -> bool {
        self.failed_auth.wf() && self.streams.wf()
    }

    pub fn new(settings: WebGatewaySettings, app_version: &str) -> (result: Self)
        ensures
            result.wf(),
            result.settings == settings,
            result.app_version@ == app_version@,
            result.failed_auth@ == Map::<(IpAddr, Seq<char>), Seq<u128>>::empty(),
            result.streams@ == Map::<IpAddr, std::sync::Arc<tokio::sync::Semaphore>>::empty(),
    {
        GatewayState {
            settings,
            app_version: owned(app_version),
            failed_auth: AuthAttempts::default(),
            streams: StreamLimits::new(),
        }
    }

    /// How long an unused session lives, in nanoseconds.
    pub fn idle_lifetime(&self) -> (result: u128)
        ensures
            result == idle_lifetime_of(self.settings),
            result == self.settings.session_idle_minutes * 60_000_000_000,
    {
        (self.settings.session_idle_minutes as u128) * 60 * 1_000_000_000
    }
}

/// What a browser is told of the site.
#[derive(Debug, Clone, PartialEq, Eq)]
pub struct SiteView {
    pub site_name: String,
    pub version: String,
    pub files_enabled: bool,
}

/// What a browser is told of the site.
pub fn site(state: &GatewayState) -> (result: SiteView)
    ensures
        result.site_name@ == state.settings.site_name@,
        result.version@ == state.app_version@,
        result.files_enabled,
{
    SiteView {
        site_name: owned(state.settings.site_name.as_str()),
        version: owned(state.app_version.as_str()),
        files_enabled: true,
    }
}

/// What a browser is told of a share.
#[derive(Debug, Clone, PartialEq, Eq)]
pub struct ShareView {
    pub name: String,
    pub slug: String,
    pub mode: WebAccessMode,
    pub unlocked: bool,
    pub allow_preview: bool,
    pub allow_download: bool,
}

/// The share is open to the bearer of `token`: it is public, or the token
/// grants it.
pub open spec fn opens(
    sessions: Map<Seq<char>, SessionView>,
    share: SharedDirectory,
    token: Option<Seq<char>>,
    source_ip: IpAddr,
    idle_lifetime: u128,
    now: u128,
) -> bool {
    share.web.mode == WebAccessMode::Public || session::grants(
        sessions,
        token,
        source_ip,
        share.id@,
        share.web.credential_revision,
        idle_lifetime,
        now,
    )
}

/// The sessions once that was asked.
pub open spec fn after_opening(
    sessions: Map<Seq<char>, SessionView>,
    share: SharedDirectory,
    token: Option<Seq<char>>,
    source_ip: IpAddr,
    idle_lifetime: u128,
    now: u128,
) -> Map<Seq<char>, SessionView> {
    if share.web.mode == WebAccessMode::Public {
        sessions
    } else {
        session::after_asking(
            sessions,
            token,
            source_ip,
            share.id@,
            share.web.credential_revision,
            idle_lifetime,
            now,
        )
    }
}

/// The sessions once that was asked of each share.
pub open spec fn after_opening_all(
    sessions: Map<Seq<char>, SessionView>,
    shares: Seq<SharedDirectory>,
    token: Option<Seq<char>>,
    source_ip: IpAddr,
    idle_lifetime: u128,
    now: u128,
) -> Map<Seq<char>, SessionView>
    decreases shares.len(),
{
    if shares.len() == 0 {
        sessions
    } else {
        after_opening(
            after_opening_all(
                sessions,
                shares.drop_last(),
                token,
                source_ip,
                idle_lifetime,
                now,
            ),
            shares.last(),
            token,
            source_ip,
            idle_lifetime,
            now,
        )
    }
}

/// The view is that of the share.
pub open spec fn shows(view: ShareView, share: SharedDirectory, unlocked: bool) -> bool {
    &&& view.name@ == share.name@
    &&& view.slug@ == share.web.slug@
    &&& view.mode == share.web.mode
    &&& view.unlocked == unlocked
    &&& view.allow_preview == share.web.allow_preview
    &&& view.allow_download == share.web.allow_download
}

fn open_to(
    state: &GatewayState,
    sessions: &mut SessionStore,
    share: &SharedDirectory,
    token: Option<&str>,
    source_ip: IpAddr,
    now: u128,
) -> (result: bool)
    requires
        old(sessions).wf(),
    ensures
        final(sessions).wf(),
        result == opens(
            old(sessions)@,
            *share,
            session::text_of(token),
            source_ip,
            idle_lifetime_of(state.settings),
            now,
        ),
        final(sessions)@ == after_opening(
            old(sessions)@,
            *share,
            session::text_of(token),
            source_ip,
            idle_lifetime_of(state.settings),
            now,
        ),
{
    if share.web.mode == WebAccessMode::Public {
        return true;
    }
    sessions.authorized(
        token,
        source_ip,
        share.id.as_str(),
        share.web.credential_revision,
        state.idle_lifetime(),
        now,
    )
}

/// What the bearer of a token is told of a share.
pub fn share_view(
    state: &GatewayState,
    sessions: &mut SessionStore,
    share: &SharedDirectory,
    token: Option<&str>,
    source_ip: IpAddr,
    now: u128,
) -> (result: ShareView)
    requires
        old(sessions).wf(),
    ensures
        final(sessions).wf(),
        result.name@ == share.name@,
        result.slug@ == share.web.slug@,
        result.mode == share.web.mode,
        result.allow_preview == share.web.allow_preview,
        result.allow_download == share.web.allow_download,
        share.web.mode == WebAccessMode::Public ==> result.unlocked,
        share.web.mode != WebAccessMode::Public ==> result.unlocked == session::grants(
            old(sessions)@,
            session::text_of(token),
            source_ip,
            share.id@,
            share.web.credential_revision,
            idle_lifetime_of(state.settings),
            now,
        ),
        shows(
            result,
            *share,
            opens(
                old(sessions)@,
                *share,
                session::text_of(token),
                source_ip,
                idle_lifetime_of(state.settings),
                now,
            ),
        ),
        final(sessions)@ == after_opening(
            old(sessions)@,
            *share,
            session::text_of(token),
            source_ip,
            idle_lifetime_of(state.settings),
            now,
        ),
{
    let unlocked = open_to(state, sessions, share, token, source_ip, now);
    ShareView {
        name: owned(share.name.as_str()),
        slug: owned(share.web.slug.as_str()),
        mode: share.web.mode,
        unlocked,
        allow_preview: share.web.allow_preview,
        allow_download: share.web.allow_download,
    }
}

/// Asking about one share changes nothing about another.
pub proof fn law_looking_at_shares_opens_and_closes_none(
    sessions: Map<Seq<char>, SessionView>,
    share: SharedDirectory,
    other: SharedDirectory,
    token: Option<Seq<char>>,
    source_ip: IpAddr,
    idle_lifetime: u128,
    now: u128,
)
    ensures
        opens(
            after_opening(sessions, share, token, source_ip, idle_lifetime, now),
            other,
            token,
            source_ip,
            idle_lifetime,
            now,
        ) == opens(sessions, other, token, source_ip, idle_lifetime, now),
{
}

/// What a browser is told of the listed shares, in their order.
pub fn shares(
    state: &GatewayState,
    sessions: &mut SessionStore,
    listed: &Vec<SharedDirectory>,
    headers: &HeaderMap,
    source_ip: IpAddr,
    now: u128,
) -> (result: Vec<ShareView>)
    requires
        old(sessions).wf(),
    ensures
        final(sessions).wf(),
        result@.len() == listed@.len(),
        forall|i: int|
            0 <= i < listed@.len() ==> {
                &&& (#[trigger] result@[i]).name@ == listed@[i].name@
                &&& result@[i].slug@ == listed@[i].web.slug@
                &&& result@[i].mode == listed@[i].web.mode
                &&& result@[i].allow_preview == listed@[i].web.allow_preview
                &&& result@[i].allow_download == listed@[i].web.allow_download
                &&& listed@[i].web.mode == WebAccessMode::Public ==> result@[i].unlocked
            },
        forall|i: int|
            0 <= i < listed@.len() ==> shows(
                #[trigger] result@[i],
                listed@[i],
                opens(
                    old(sessions)@,
                    listed@[i],
                    cookies::session_token(*headers),
                    source_ip,
                    idle_lifetime_of(state.settings),
                    now,
                ),
            ),
        final(sessions)@ == after_opening_all(
            old(sessions)@,
            listed@,
            cookies::session_token(*headers),
            source_ip,
            idle_lifetime_of(state.settings),
            now,
        ),
{
    let cookie = session_cookie(headers);
    let token = as_text(&cookie);
    let ghost bearer = cookies::session_token(*headers);
    let ghost idle = idle_lifetime_of(state.settings);
    let ghost before = sessions@;
    let mut views: Vec<ShareView> = Vec::new();
    let mut i: usize = 0;
    while i < listed.len()
        invariant
            i <= listed@.len(),
            views@.len() == i,
            sessions.wf(),
            session::text_of(token) == bearer,
            idle == idle_lifetime_of(state.settings),
            sessions@ == after_opening_all(
                before,
                listed@.take(i as int),
                bearer,
                source_ip,
                idle,
                now,
            ),
            forall|share: SharedDirectory|
                opens(sessions@, share, bearer, source_ip, idle, now) == #[trigger] opens(
                    before,
                    share,
                    bearer,
                    source_ip,
                    idle,
                    now,
                ),
            forall|j: int|
                0 <= j < i ==> shows(
                    #[trigger] views@[j],
                    listed@[j],
                    opens(before, listed@[j], bearer, source_ip, idle, now),
                ),
        decreases listed@.len() - i,
    {
        let ghost had = sessions@;
        let view = share_view(state, sessions, &listed[i], token, source_ip, now);
        proof {
            assert(listed@.take(i + 1).drop_last() =~= listed@.take(i as int));
            assert(listed@.take(i + 1).last() == listed@[i as int]);
            assert forall|share: SharedDirectory|
                opens(sessions@, share, bearer, source_ip, idle, now) == #[trigger] opens(
                    before,
                    share,
                    bearer,
                    source_ip,
                    idle,
                    now,
                ) by {
                law_looking_at_shares_opens_and_closes_none(
                    had,
                    listed@[i as int],
                    share,
                    bearer,
                    source_ip,
                    idle,
                    now,
                );
            }
            assert(opens(had, listed@[i as int], bearer, source_ip, idle, now) == opens(
                before,
                listed@[i as int],
                bearer,
                source_ip,
                idle,
                now,
            ));
        }
        views.push(view);
        i += 1;
    }
    assert(listed@.take(i as int) =~= listed@);
    views
}

fn as_text(text: &Option<String>) -> (result: Option<&str>)
    ensures
        session::text_of(result) == api_error::string_of(*text),
{
    match text {
        Some(text) => Some(text.as_str()),
        None => None,
    }
}

/// What asking for a share by its name gives; `share` is the share of that
/// name, where there is one.
pub open spec fn share_access(
    sessions: Map<Seq<char>, SessionView>,
    share: Option<SharedDirectory>,
    token: Option<Seq<char>>,
    source_ip: IpAddr,
    idle_lifetime: u128,
    now: u128,
) -> Result<SharedDirectory, api_error::ApiErrorView> {
    match share {
        None => Err(api_error::missing()),
        Some(share) => if opens(sessions, share, token, source_ip, idle_lifetime, now) {
            Ok(share)
        } else {
            Err(
                api_error::refusal(
                    UNAUTHORIZED,
                    "this shared directory must be unlocked"@,
                ),
            )
        },
    }
}

/// The sessions once that was asked.
pub open spec fn after_access(
    sessions: Map<Seq<char>, SessionView>,
    share: Option<SharedDirectory>,
    token: Option<Seq<char>>,
    source_ip: IpAddr,
    idle_lifetime: u128,
    now: u128,
) -> Map<Seq<char>, SessionView> {
    match share {
        None => sessions,
        Some(share) => after_opening(sessions, share, token, source_ip, idle_lifetime, now),
    }
}

/// The share, where it is there and the request may open it.
pub fn authorized_share(
    state: &GatewayState,
    sessions: &mut SessionStore,
    headers: &HeaderMap,
    source_ip: IpAddr,
    share: Option<SharedDirectory>,
    now: u128,
) -> (result: Result<SharedDirectory, ApiError>)
    requires
        old(sessions).wf(),
    ensures
        final(sessions).wf(),
        api_error::answers(
            result,
            share_access(
                old(sessions)@,
                share,
                cookies::session_token(*headers),
                source_ip,
                idle_lifetime_of(state.settings),
                now,
            ),
        ),
        final(sessions)@ == after_access(
            old(sessions)@,
            share,
            cookies::session_token(*headers),
            source_ip,
            idle_lifetime_of(state.settings),
            now,
        ),
{
    let share = match share {
        Some(share) => share,
        None => return Err(ApiError::not_found()),
    };
    if share.web.mode == WebAccessMode::Public {
        return Ok(share);
    }
    let cookie = session_cookie(headers);
    if open_to(state, sessions, &share, as_text(&cookie), source_ip, now) {
        Ok(share)
    } else {
        Err(ApiError::new(UNAUTHORIZED, "this shared directory must be unlocked"))
    }
}

/// What asking for a preview gives.
pub open spec fn preview_access(
    access: Result<SharedDirectory, api_error::ApiErrorView>,
) -> Result<SharedDirectory, api_error::ApiErrorView> {
    match access {
        Ok(share) => if share.web.allow_preview {
            Ok(share)
        } else {
            Err(api_error::not_permitted())
        },
        Err(error) => Err(error),
    }
}

/// The share, where the request may open it and the share allows previews.
pub fn preview_share(
    state: &GatewayState,
    sessions: &mut SessionStore,
    headers: &HeaderMap,
    source_ip: IpAddr,
    share: Option<SharedDirectory>,
    now: u128,
) -> (result: Result<SharedDirectory, ApiError>)
    requires
        old(sessions).wf(),
    ensures
        final(sessions).wf(),
        api_error::answers(
            result,
            preview_access(
                share_access(
                    old(sessions)@,
                    share,
                    cookies::session_token(*headers),
                    source_ip,
                    idle_lifetime_of(state.settings),
                    now,
                ),
            ),
        ),
        final(sessions)@ == after_access(
            old(sessions)@,
            share,
            cookies::session_token(*headers),
            source_ip,
            idle_lifetime_of(state.settings),
            now,
        ),
{
    match authorized_share(state, sessions, headers, source_ip, share, now) {
        Ok(share) => if share.web.allow_preview {
            Ok(share)
        } else {
            Err(ApiError::forbidden())
        },
        Err(error) => Err(error),
    }
}

/// What asking for the metadata of a path gives: the share itself is told to
/// everyone, and what is in it to those who may open it.
pub open spec fn metadata_access(
    access: Result<SharedDirectory, api_error::ApiErrorView>,
    share: Option<SharedDirectory>,
    path: Seq<char>,
) -> Result<SharedDirectory, api_error::ApiErrorView> {
    if path.len() > 0 {
        access
    } else {
        match share {
            Some(share) => Ok(share),
            None => Err(api_error::missing()),
        }
    }
}

/// The share of which metadata is asked, where the request may have it.
pub fn metadata_share(
    state: &GatewayState,
    sessions: &mut SessionStore,
    headers: &HeaderMap,
    source_ip: IpAddr,
    share: Option<SharedDirectory>,
    path: &str,
    now: u128,
) -> (result: Result<SharedDirectory, ApiError>)
    requires
        old(sessions).wf(),
    ensures
        final(sessions).wf(),
        api_error::answers(
            result,
            metadata_access(
                share_access(
                    old(sessions)@,
                    share,
                    cookies::session_token(*headers),
                    source_ip,
                    idle_lifetime_of(state.settings),
                    now,
                ),
                share,
                path@,
            ),
        ),
        final(sessions)@ == if path@.len() > 0 {
            after_access(
                old(sessions)@,
                share,
                cookies::session_token(*headers),
                source_ip,
                idle_lifetime_of(state.settings),
                now,
            )
        } else {
            old(sessions)@
        },
{
    if path.is_empty() {
        match share {
            Some(share) => Ok(share),
            None => Err(ApiError::not_found()),
        }
    } else {
        authorized_share(state, sessions, headers, source_ip, share, now)
    }
}

/// What a refused password, and a share that takes none, are answered.
pub open spec fn wrong_password() -> api_error::ApiErrorView {
    api_error::refusal(UNAUTHORIZED, "password is incorrect or the share is unavailable"@)
}

/// What an attempt over the limit is answered.
pub open spec fn too_many_attempts() -> api_error::ApiErrorView {
    api_error::refusal(TOO_MANY_REQUESTS, "too many attempts; try again later"@)
}

/// The share takes a password.
pub open spec fn takes_password(share: Option<SharedDirectory>) -> bool {
    share is Some && share->0.web.mode == WebAccessMode::Password
}

/// What an attempt to unlock is answered before its password is looked at.
pub open spec fn unlock_admission(
    failures: Map<(IpAddr, Seq<char>), Seq<u128>>,
    share: Option<SharedDirectory>,
    ip: IpAddr,
    now: u128,
) -> Result<(), api_error::ApiErrorView> {
    if !takes_password(share) {
        Err(wrong_password())
    } else if auth_attempts::rate_limited(failures, ip, share->0.id@, now) {
        Err(too_many_attempts())
    } else {
        Ok(())
    }
}

/// An optional share, without the reference to it.
pub open spec fn share_of(share: Option<&SharedDirectory>) -> Option<SharedDirectory> {
    match share {
        Some(share) => Some(*share),
        None => None,
    }
}

/// Decides whether the password of an attempt is looked at, which costs the
/// gateway time: `Ok` where it is.
pub fn begin_unlock(
    failed_auth: &mut AuthAttempts,
    share: Option<&SharedDirectory>,
    ip: IpAddr,
    now: u128,
) -> (result: Result<(), ApiError>)
    requires
        old(failed_auth).wf(),
    ensures
        final(failed_auth).wf(),
        api_error::answers(result, unlock_admission(old(failed_auth)@, share_of(share), ip, now)),
        final(failed_auth)@ == if takes_password(share_of(share)) {
            auth_attempts::after_check(old(failed_auth)@, ip, share_of(share)->0.id@, now)
        } else {
            old(failed_auth)@
        },
{
    let share = match share {
        Some(share) => share,
        None => return Err(
            ApiError::new(UNAUTHORIZED, "password is incorrect or the share is unavailable"),
        ),
    };
    if share.web.mode != WebAccessMode::Password {
        return Err(
            ApiError::new(UNAUTHORIZED, "password is incorrect or the share is unavailable"),
        );
    }
    if failed_auth.auth_rate_limited(ip, share.id.as_str(), now) {
        return Err(ApiError::new(TOO_MANY_REQUESTS, "too many attempts; try again later"));
    }
    Ok(())
}

/// The view of a verified share: its identifier and the revision of its
/// credentials.
pub open spec fn verified_of(verified: Option<(String, u64)>) -> Option<(Seq<char>, u64)> {
    match verified {
        Some(verified) => Some((verified.0@, verified.1)),
        None => None,
    }
}

/// The token that unlocking hands to the browser, with what it does to the
/// sessions and to the headers of its response.
pub open spec fn hands_token(
    token: Seq<char>,
    before: Map<Seq<char>, SessionView>,
    after: Map<Seq<char>, SessionView>,
    response: HeaderMap,
    answered: HeaderMap,
    existing: Option<Seq<char>>,
    ip: IpAddr,
    verified: (Seq<char>, u64),
    idle_lifetime: u128,
    now: u128,
    fresh: Seq<char>,
) -> bool {
    &&& random::token_of_bytes(fresh)
    &&& cookies::token_form(token)
    &&& session::unlocked(
        before,
        after,
        token,
        existing,
        ip,
        verified.0,
        verified.1,
        idle_lifetime,
        now,
        fresh,
    )
    &&& headers::header_values(answered) == headers::with_header(
        headers::header_values(response),
        "set-cookie"@,
        cookies::handed_cookie(token),
    )
}

/// Ends an attempt to unlock the share of `share_id`: `verified` names the
/// share whose password it was, where the password was right. A right one is
/// answered with a token in a cookie; a wrong one is counted.
pub fn finish_unlock(
    state: &mut GatewayState,
    sessions: &mut SessionStore,
    headers: &HeaderMap,
    response: &mut HeaderMap,
    share_id: &str,
    verified: Option<(String, u64)>,
    ip: IpAddr,
    now: u128,
) -> (result: Result<(), ApiError>)
    requires
        old(state).wf(),
        old(sessions).wf(),
        headers::room_for(*old(response), 1),
    ensures
        final(state).wf(),
        final(sessions).wf(),
        final(state).settings == old(state).settings,
        final(state).app_version == old(state).app_version,
        final(state).streams == old(state).streams,
        match verified_of(verified) {
            None => {
                &&& result is Err
                &&& result->Err_0@ == wrong_password()
                &&& final(state).failed_auth@ == auth_attempts::after_failure(
                    old(state).failed_auth@,
                    ip,
                    share_id@,
                    now,
                )
                &&& final(sessions)@ == old(sessions)@
                &&& headers::header_values(*final(response)) == headers::header_values(
                    *old(response),
                )
            },
            Some(right) => {
                &&& result is Ok
                &&& final(state).failed_auth@ == auth_attempts::after_success(
                    old(state).failed_auth@,
                    ip,
                    share_id@,
                )
                &&& exists|token: Seq<char>, fresh: Seq<char>| #[trigger]
                    hands_token(
                        token,
                        old(sessions)@,
                        final(sessions)@,
                        *old(response),
                        *final(response),
                        cookies::session_token(*headers),
                        ip,
                        right,
                        idle_lifetime_of(old(state).settings),
                        now,
                        fresh,
                    )
            },
        },
{
    let right = match verified {
        Some(right) => right,
        None => {
            state.failed_auth.record_auth_failure(ip, share_id, now);
            return Err(
                ApiError::new(UNAUTHORIZED, "password is incorrect or the share is unavailable"),
            );
        },
    };
    state.failed_auth.clear_auth_failures(ip, share_id);
    let existing = session_cookie(headers);
    let ghost before = sessions@;
    let idle: u128 = state.idle_lifetime();
    let token = sessions.create_or_authorize(
        as_text(&existing),
        ip,
        right.0.as_str(),
        right.1,
        idle,
        now,
    );
    let ghost bearer = cookies::session_token(*headers);
    let ghost fresh = choose|fresh: Seq<char>| #[trigger]
        random::token_of_bytes(fresh) && session::unlocked(
            before,
            sessions@,
            token@,
            bearer,
            ip,
            right.0@,
            right.1,
            idle,
            now,
            fresh,
        );
    proof {
        random::lemma_token_form(fresh);
        lemma_cookie_is_plain(token@);
    }
    let cookie = cookie_for(token.as_str());
    set_plain(response, "set-cookie", cookie.as_str(), Ghost(0));
    assert(hands_token(
        token@,
        old(sessions)@,
        sessions@,
        *old(response),
        *response,
        cookies::session_token(*headers),
        ip,
        verified_of(verified)->0,
        idle_lifetime_of(old(state).settings),
        now,
        fresh,
    ));
    Ok(())
}

/// Locks the share again in the session of the request.
pub fn lock(
    sessions: &mut SessionStore,
    headers: &HeaderMap,
    share: Option<&SharedDirectory>,
) -> (result: Result<(), ApiError>)
    requires
        old(sessions).wf(),
    ensures
        final(sessions).wf(),
        match share_of(share) {
            None => {
                &&& result is Err
                &&& result->Err_0@ == api_error::missing()
                &&& final(sessions)@ == old(sessions)@
            },
            Some(share) => {
                &&& result is Ok
                &&& final(sessions)@ == session::after_lock(
                    old(sessions)@,
                    cookies::session_token(*headers),
                    share.id@,
                )
            },
        },
{
    let share = match share {
        Some(share) => share,
        None => return Err(ApiError::not_found()),
    };
    let cookie = session_cookie(headers);
    sessions.lock_share(as_text(&cookie), share.id.as_str());
    Ok(())
}

/// Ends the session of the request, and takes the cookie back.
pub fn logout(sessions: &mut SessionStore, headers: &HeaderMap, response: &mut HeaderMap)
    requires
        old(sessions).wf(),
        headers::room_for(*old(response), 1),
    ensures
        final(sessions).wf(),
        final(sessions)@ == session::after_logout(
            old(sessions)@,
            cookies::session_token(*headers),
        ),
        headers::header_values(*final(response)) == headers::with_header(
            headers::header_values(*old(response)),
            "set-cookie"@,
            cookies::cleared_cookie(),
        ),
{
    let cookie = session_cookie(headers);
    sessions.logout(as_text(&cookie));
    proof {
        reveal_strlit("arcrelay_web_session=; Path=/; HttpOnly; SameSite=Strict; Max-Age=0");
    }
    set_plain(
        response,
        "set-cookie",
        "arcrelay_web_session=; Path=/; HttpOnly; SameSite=Strict; Max-Age=0",
        Ghost(0),
    );
}

/// The side of a thumbnail that is asked for without one.
pub const DEFAULT_THUMBNAIL_DIMENSION: u32 = 512;

/// The side of the thumbnail, in pixels.
pub fn thumbnail_dimension(asked: Option<u32>) -> (result: u32)
    ensures
        result == match asked {
            Some(dimension) => dimension,
            None => DEFAULT_THUMBNAIL_DIMENSION,
        },
        asked is None ==> result == 512,
{
    match asked {
        Some(dimension) => dimension,
        None => DEFAULT_THUMBNAIL_DIMENSION,
    }
}

/// The most bytes of a text that a preview holds.
pub const TEXT_PREVIEW_BYTES: usize = 524_288;

/// The bytes of a text that a preview holds, where the file service gives at
/// most `most`.
pub fn text_preview_bytes(most: usize) -> (result: usize)
    ensures
        result == if most < TEXT_PREVIEW_BYTES {
            most
        } else {
            TEXT_PREVIEW_BYTES
        },
        result <= most,
        result <= 512 * 1024,
        result == most || result == 512 * 1024,
{
    if most < TEXT_PREVIEW_BYTES {
        most
    } else {
        TEXT_PREVIEW_BYTES
    }
}

/// Puts the headers of a thumbnail on its response, under a given identifier
/// where its media type cannot be sent.
pub fn thumbnail_headers_with(
    response: &mut HeaderMap,
    media_type: &str,
    error_id: String,
) -> (result: Result<(), ApiError>)
    requires
        headers::room_for(*old(response), 2),
    ensures
        if headers::header_safe(media_type@) {
            &&& result is Ok
            &&& headers::header_values(*final(response)) == headers::with_header(
                headers::with_header(
                    headers::header_values(*old(response)),
                    "content-type"@,
                    media_type@,
                ),
                "cache-control"@,
                "private, max-age=300"@,
            )
        } else {
            &&& result is Err
            &&& result->Err_0@ == api_error::internal_failure(error_id@)
            &&& headers::header_values(*final(response)) == headers::header_values(*old(response))
        },
{
    let ghost before = *response;
    if !set_header(response, "content-type", media_type) {
        return Err(ApiError::internal_with(error_id));
    }
    proof {
        headers::lemma_room_after(before, *response, "content-type"@, media_type@, 1);
        reveal_strlit("private, max-age=300");
    }
    set_plain(response, "cache-control", "private, max-age=300", Ghost(0));
    Ok(())
}

/// Puts the headers of a thumbnail on its response. A media type that cannot
/// be sent is a failure of the gateway's own.
pub fn thumbnail_headers(response: &mut HeaderMap, media_type: &str) -> (result: Result<
    (),
    ApiError,
>)
    requires
        headers::room_for(*old(response), 2),
    ensures
        if headers::header_safe(media_type@) {
            &&& result is Ok
            &&& headers::header_values(*final(response)) == headers::with_header(
                headers::with_header(
                    headers::header_values(*old(response)),
                    "content-type"@,
                    media_type@,
                ),
                "cache-control"@,
                "private, max-age=300"@,
            )
        } else {
            &&& result is Err
            &&& exists|id: Seq<char>| #[trigger]
                random::id_of_number(id) && result->Err_0@ == api_error::internal_failure(id)
            &&& headers::header_values(*final(response)) == headers::header_values(*old(response))
        },
{
    let id = random::random_id();
    assert(random::id_of_number(id@));
    thumbnail_headers_with(response, media_type, id)
}

/// The family of an address, for the log.
pub fn address_family(address: IpAddr) -> (result: &'static str)
    ensures
        result@ == if address is V4 {
            "ipv4"@
        } else {
            "ipv6"@
        },
{
    match address {
        IpAddr::V4(_) => "ipv4",
        IpAddr::V6(_) => "ipv6",
    }
}

/// The number of names in a path: of the pieces between its slashes that are
/// not empty.
pub open spec fn path_depth(path: Seq<char>) -> nat {
    text::pieces(path, '/').filter(|name: Seq<char>| name.len() > 0).len()
}

/// The number of names in a path.
pub fn relative_path_depth(path: &str) -> (result: usize)
    ensures
        result == path_depth(path@),
{
    let names = split_on(path, '/');
    let ghost all = text::texts(names@);
    let ghost named = |name: Seq<char>| name.len() > 0;
    let mut depth: usize = 0;
    let mut i: usize = 0;
    proof {
        reveal(Seq::filter);
        assert(all.take(0) =~= Seq::<Seq<char>>::empty());
    }
    while i < names.len()
        invariant
            i <= names@.len(),
            all == text::texts(names@),
            named == (|name: Seq<char>| name.len() > 0),
            depth <= i,
            depth == all.take(i as int).filter(named).len(),
        decreases names@.len() - i,
    {
        proof {
            reveal(Seq::filter);
            assert(all.take(i + 1).drop_last() =~= all.take(i as int));
            assert(all.take(i + 1).last() == names@[i as int]@);
        }
        if !names[i].as_str().is_empty() {
            depth += 1;
        }
        i += 1;
    }
    assert(all.take(i as int) =~= all);
    depth
}

/// Under valid settings an unused session lives for five minutes at least, and
/// never beyond the day that ends every session.
pub proof fn law_idle_time_fits_the_day(settings: WebGatewaySettings)
    requires
        settings.problem() is None,
    ensures
        300_000_000_000 <= idle_lifetime_of(settings) <= session::ABSOLUTE_SESSION_LIFETIME,
        idle_lifetime_of(settings) == settings.session_idle_minutes * 60_000_000_000,
{
}

/// No share that is neither public nor unlocked can be opened: every route
/// that goes through it is refused, and previews and metadata with it.
pub proof fn law_locked_shares_stay_closed(
    sessions: Map<Seq<char>, SessionView>,
    share: SharedDirectory,
    token: Option<Seq<char>>,
    source_ip: IpAddr,
    idle_lifetime: u128,
    now: u128,
    path: Seq<char>,
)
    requires
        share.web.mode != WebAccessMode::Public,
        !session::grants(
            sessions,
            token,
            source_ip,
            share.id@,
            share.web.credential_revision,
            idle_lifetime,
            now,
        ),
        path.len() > 0,
    ensures
        ({
            let access = share_access(
                sessions,
                Some(share),
                token,
                source_ip,
                idle_lifetime,
                now,
            );
            &&& access is Err
            &&& access->Err_0.status == UNAUTHORIZED
            &&& preview_access(access) == access
            &&& metadata_access(access, Some(share), path) == access
        }),
{
}

/// A request without a session opens public shares, and no others.
pub proof fn law_without_a_token_only_public_shares_open(
    sessions: Map<Seq<char>, SessionView>,
    share: SharedDirectory,
    source_ip: IpAddr,
    idle_lifetime: u128,
    now: u128,
)
    ensures
        opens(sessions, share, None, source_ip, idle_lifetime, now) <==> share.web.mode
            == WebAccessMode::Public,
{
}

/// The limit on wrong passwords comes before the password: an attempt over the
/// limit is answered without looking at it.
pub proof fn law_attempts_over_the_limit_are_not_looked_at(
    failures: Map<(IpAddr, Seq<char>), Seq<u128>>,
    share: SharedDirectory,
    ip: IpAddr,
    now: u128,
)
    requires
        share.web.mode == WebAccessMode::Password,
        auth_attempts::rate_limited(failures, ip, share.id@, now),
    ensures
        unlock_admission(failures, Some(share), ip, now) == Err::<(), api_error::ApiErrorView>(
            too_many_attempts(),
        ),
{
}

/// An attempt does not show which shares exist: one at a share that is not
/// there, and one at a share without a password, are answered as a wrong
/// password is.
pub proof fn law_refusals_do_not_tell_shares_apart(
    failures: Map<(IpAddr, Seq<char>), Seq<u128>>,
    share: SharedDirectory,
    ip: IpAddr,
    now: u128,
)
    requires
        share.web.mode != WebAccessMode::Password,
    ensures
        unlock_admission(failures, None, ip, now) == Err::<(), api_error::ApiErrorView>(
            wrong_password(),
        ),
        unlock_admission(failures, Some(share), ip, now) == Err::<(), api_error::ApiErrorView>(
            wrong_password(),
        ),
{
}

/// The cookie that unlocking a share hands over opens it: a request that gives
/// back the part of the cookie before its first semicolon, from the same
/// address, opens the share at the revision at which it was unlocked, while the
/// session lives.
pub proof fn law_the_handed_cookie_opens_the_share(
    token: Seq<char>,
    before: Map<Seq<char>, SessionView>,
    after: Map<Seq<char>, SessionView>,
    response: HeaderMap,
    answered: HeaderMap,
    existing: Option<Seq<char>>,
    ip: IpAddr,
    share: SharedDirectory,
    idle_lifetime: u128,
    now: u128,
    fresh: Seq<char>,
    request: HeaderMap,
    later: u128,
)
    requires
        hands_token(
            token,
            before,
            after,
            response,
            answered,
            existing,
            ip,
            (share.id@, share.web.credential_revision),
            idle_lifetime,
            now,
            fresh,
        ),
        headers::header_str(request, "cookie"@) == Some(
            text::pieces(headers::header_str(answered, "set-cookie"@)->0, ';')[0],
        ),
        !session::expired(after[token], later, idle_lifetime),
    ensures
        share_access(
            after,
            Some(share),
            cookies::session_token(request),
            ip,
            idle_lifetime,
            later,
        ) == Ok::<SharedDirectory, api_error::ApiErrorView>(share),
{
    lemma_cookie_is_plain(token);
    headers::lemma_set_header_reads_back(
        headers::header_values(response),
        answered,
        "set-cookie"@,
        cookies::handed_cookie(token),
    );
    cookies::law_a_handed_token_reads_back(token);
    session_laws::law_unlocking_grants(
        before,
        after,
        token,
        existing,
        ip,
        share.id@,
        share.web.credential_revision,
        idle_lifetime,
        now,
        fresh,
        idle_lifetime,
        later,
    );
}

} // verus!
