//! What holds of sessions across calls, stated over what each operation of
//! the store does to them.
use vstd::prelude::*;

use crate::addr::IpAddr;
use crate::session;
use crate::session::{SessionView, MAX_SESSIONS};

verus! {

/// The token that unlocking returns grants the share, from the same address
/// and at the same revision, for as long as the session lives; and it lives at
/// first, where there is an idle time at all.
pub proof fn law_unlocking_grants(
    before: Map<Seq<char>, SessionView>,
    after: Map<Seq<char>, SessionView>,
    token: Seq<char>,
    existing: Option<Seq<char>>,
    source_ip: IpAddr,
    share_id: Seq<char>,
    revision: u64,
    idle: u128,
    now: u128,
    fresh: Seq<char>,
    later_idle: u128,
    later: u128,
)
    requires
        session::unlocked(
            before,
            after,
            token,
            existing,
            source_ip,
            share_id,
            revision,
            idle,
            now,
            fresh,
        ),
    ensures
        after.contains_key(token),
        !session::expired(after[token], later, later_idle) ==> session::grants(
            after,
            Some(token),
            source_ip,
            share_id,
            revision,
            later_idle,
            later,
        ),
        idle > 0 ==> session::grants(
            after,
            Some(token),
            source_ip,
            share_id,
            revision,
            idle,
            now,
        ),
{
    let live = session::pruned(before, now, idle);
    if session::renewable(live, existing, source_ip) {
        assert(!session::expired(live[token], now, idle));
    }
}

/// No other revision of the credentials and no other address is granted the
/// share by that token.
pub proof fn law_revision_and_address_bind_the_grant(
    before: Map<Seq<char>, SessionView>,
    after: Map<Seq<char>, SessionView>,
    token: Seq<char>,
    existing: Option<Seq<char>>,
    source_ip: IpAddr,
    share_id: Seq<char>,
    revision: u64,
    idle: u128,
    now: u128,
    fresh: Seq<char>,
    other_ip: IpAddr,
    other_revision: u64,
    later_idle: u128,
    later: u128,
)
    requires
        session::unlocked(
            before,
            after,
            token,
            existing,
            source_ip,
            share_id,
            revision,
            idle,
            now,
            fresh,
        ),
        other_ip != source_ip || other_revision != revision,
    ensures
        !session::grants(
            after,
            Some(token),
            other_ip,
            share_id,
            other_revision,
            later_idle,
            later,
        ),
{
}

/// Unlocking leaves every other session that stays as it was, and no expired
/// session stays.
pub proof fn law_unlocking_leaves_other_sessions(
    before: Map<Seq<char>, SessionView>,
    after: Map<Seq<char>, SessionView>,
    token: Seq<char>,
    existing: Option<Seq<char>>,
    source_ip: IpAddr,
    share_id: Seq<char>,
    revision: u64,
    idle: u128,
    now: u128,
    fresh: Seq<char>,
    other: Seq<char>,
)
    requires
        session::unlocked(
            before,
            after,
            token,
            existing,
            source_ip,
            share_id,
            revision,
            idle,
            now,
            fresh,
        ),
        other != token,
        after.contains_key(other),
    ensures
        before.contains_key(other),
        after[other] == before[other],
        !session::expired(after[other], now, idle),
{
}

/// A full store gives up the one session that was used longest ago.
pub proof fn law_a_full_store_evicts_the_oldest(
    before: Map<Seq<char>, SessionView>,
    after: Map<Seq<char>, SessionView>,
    token: Seq<char>,
    added: SessionView,
    oldest: Seq<char>,
)
    requires
        session::opened(before, after, token, added),
        before.len() >= MAX_SESSIONS,
        before.contains_key(oldest),
        forall|t: Seq<char>| #[trigger]
            before.contains_key(t) && t != oldest ==> before[oldest].last_access_at
                < before[t].last_access_at,
        token != oldest,
    ensures
        !after.contains_key(oldest),
        forall|t: Seq<char>|
            t != oldest && #[trigger] before.contains_key(t) ==> after.contains_key(t),
{
    let gone = choose|old: Seq<char>| #[trigger]
        session::least_recent(before, old) && after == before.remove(old).insert(token, added);
    assert(before.contains_key(gone));
    assert(gone == oldest);
}

/// A store that is not full loses no session when one is opened.
pub proof fn law_a_store_with_room_keeps_its_sessions(
    before: Map<Seq<char>, SessionView>,
    after: Map<Seq<char>, SessionView>,
    token: Seq<char>,
    added: SessionView,
    t: Seq<char>,
)
    requires
        session::opened(before, after, token, added),
        before.len() < MAX_SESSIONS,
        before.contains_key(t),
    ensures
        after.contains_key(t),
{
}

/// An expired token grants nothing, and its session ends when it is shown.
pub proof fn law_expired_tokens_do_not_grant(
    sessions: Map<Seq<char>, SessionView>,
    token: Seq<char>,
    source_ip: IpAddr,
    share_id: Seq<char>,
    revision: u64,
    idle: u128,
    now: u128,
)
    requires
        sessions.contains_key(token),
        session::expired(sessions[token], now, idle),
    ensures
        !session::grants(sessions, Some(token), source_ip, share_id, revision, idle, now),
        !session::after_asking(
            sessions,
            Some(token),
            source_ip,
            share_id,
            revision,
            idle,
            now,
        ).contains_key(token),
{
}

/// Asking about one token neither ends nor changes any other session.
pub proof fn law_asking_leaves_other_sessions(
    sessions: Map<Seq<char>, SessionView>,
    token: Option<Seq<char>>,
    source_ip: IpAddr,
    share_id: Seq<char>,
    revision: u64,
    idle: u128,
    now: u128,
    other: Seq<char>,
)
    requires
        token != Some(other),
    ensures
        ({
            let after = session::after_asking(
                sessions,
                token,
                source_ip,
                share_id,
                revision,
                idle,
                now,
            );
            &&& after.contains_key(other) == sessions.contains_key(other)
            &&& sessions.contains_key(other) ==> after[other] == sessions[other]
        }),
{
}

/// Asking gives no session a share that it did not have, and takes none away.
pub proof fn law_asking_changes_no_grant(
    sessions: Map<Seq<char>, SessionView>,
    token: Option<Seq<char>>,
    source_ip: IpAddr,
    share_id: Seq<char>,
    revision: u64,
    idle: u128,
    now: u128,
    t: Seq<char>,
)
    ensures
        ({
            let after = session::after_asking(
                sessions,
                token,
                source_ip,
                share_id,
                revision,
                idle,
                now,
            );
            after.contains_key(t) ==> sessions.contains_key(t) && after[t].shares
                == sessions[t].shares && after[t].source_ip == sessions[t].source_ip
                && after[t].created_at == sessions[t].created_at
        }),
{
}

/// No use prolongs a session beyond its day.
pub proof fn law_use_does_not_prolong_the_day(
    sessions: Map<Seq<char>, SessionView>,
    token: Seq<char>,
    source_ip: IpAddr,
    share_id: Seq<char>,
    revision: u64,
    idle: u128,
    now: u128,
    later_idle: u128,
    later: u128,
)
    requires
        sessions.contains_key(token),
        session::elapsed(later, sessions[token].created_at) >= session::ABSOLUTE_SESSION_LIFETIME,
    ensures
        !session::grants(
            session::after_asking(
                sessions,
                Some(token),
                source_ip,
                share_id,
                revision,
                idle,
                now,
            ),
            Some(token),
            source_ip,
            share_id,
            revision,
            later_idle,
            later,
        ),
{
}

/// A share that was locked in a session is no longer granted by its token;
/// the session's other shares are.
pub proof fn law_locking_ends_the_grant(
    sessions: Map<Seq<char>, SessionView>,
    token: Seq<char>,
    share_id: Seq<char>,
    other_share: Seq<char>,
    source_ip: IpAddr,
    revision: u64,
    idle: u128,
    now: u128,
)
    ensures
        ({
            let after = session::after_lock(sessions, Some(token), share_id);
            &&& !session::grants(after, Some(token), source_ip, share_id, revision, idle, now)
            &&& other_share != share_id ==> session::grants(
                after,
                Some(token),
                source_ip,
                other_share,
                revision,
                idle,
                now,
            ) == session::grants(
                sessions,
                Some(token),
                source_ip,
                other_share,
                revision,
                idle,
                now,
            )
        }),
{
}

/// After a logout the token grants nothing, and every other token grants what
/// it did.
pub proof fn law_logout_ends_the_session(
    sessions: Map<Seq<char>, SessionView>,
    token: Seq<char>,
    other: Seq<char>,
    share_id: Seq<char>,
    source_ip: IpAddr,
    revision: u64,
    idle: u128,
    now: u128,
)
    ensures
        ({
            let after = session::after_logout(sessions, Some(token));
            &&& !session::grants(after, Some(token), source_ip, share_id, revision, idle, now)
            &&& other != token ==> session::grants(
                after,
                Some(other),
                source_ip,
                share_id,
                revision,
                idle,
                now,
            ) == session::grants(
                sessions,
                Some(other),
                source_ip,
                share_id,
                revision,
                idle,
                now,
            )
        }),
{
}

/// After a share is revoked no token grants it; the other shares are granted
/// as before.
pub proof fn law_revoking_ends_every_grant_of_the_share(
    sessions: Map<Seq<char>, SessionView>,
    share_id: Seq<char>,
    token: Option<Seq<char>>,
    other_share: Seq<char>,
    source_ip: IpAddr,
    revision: u64,
    idle: u128,
    now: u128,
)
    ensures
        ({
            let after = session::after_revoke(sessions, share_id);
            &&& !session::grants(after, token, source_ip, share_id, revision, idle, now)
            &&& other_share != share_id ==> session::grants(
                after,
                token,
                source_ip,
                other_share,
                revision,
                idle,
                now,
            ) == session::grants(
                sessions,
                token,
                source_ip,
                other_share,
                revision,
                idle,
                now,
            )
        }),
{
}

/// Once every session is revoked no token grants anything.
pub proof fn law_revoking_all_ends_every_grant(
    token: Option<Seq<char>>,
    share_id: Seq<char>,
    source_ip: IpAddr,
    revision: u64,
    idle: u128,
    now: u128,
)
    ensures
        !session::grants(
            Map::<Seq<char>, SessionView>::empty(),
            token,
            source_ip,
            share_id,
            revision,
            idle,
            now,
        ),
{
}

/// A session is over exactly when its day is, or when nobody has used it for
/// the idle time; one that may not be idle at all is always over.
pub proof fn law_sessions_live_until_their_day_or_idle_time_ends(
    s: SessionView,
    now: u128,
    idle: u128,
)
    ensures
        session::expired(s, now, idle) <==> now >= s.created_at + 86_400_000_000_000 || now
            >= s.last_access_at + idle || idle == 0,
{
}

/// A clock that has not reached the times of a session does not end it.
pub proof fn law_sessions_of_the_future_live(s: SessionView, now: u128, idle: u128)
    requires
        now <= s.created_at,
        now <= s.last_access_at,
        idle > 0,
    ensures
        !session::expired(s, now, idle),
{
}

/// A live session grants each of its shares, at the revision at which it was
/// unlocked and to the address that it belongs to.
pub proof fn law_live_sessions_grant_their_shares(
    sessions: Map<Seq<char>, SessionView>,
    token: Seq<char>,
    share_id: Seq<char>,
    now: u128,
    idle: u128,
)
    requires
        sessions.contains_key(token),
        sessions[token].created_at <= sessions[token].last_access_at <= now,
        now < sessions[token].created_at + 86_400_000_000_000,
        now < sessions[token].last_access_at + idle,
        sessions[token].shares.contains_key(share_id),
    ensures
        session::grants(
            sessions,
            Some(token),
            sessions[token].source_ip,
            share_id,
            sessions[token].shares[share_id],
            idle,
            now,
        ),
{
}

/// What is granted was unlocked: in the session of that token, for that
/// address, at that revision. Without a token nothing is.
pub proof fn law_grants_were_unlocked(
    sessions: Map<Seq<char>, SessionView>,
    token: Option<Seq<char>>,
    source_ip: IpAddr,
    share_id: Seq<char>,
    revision: u64,
    idle: u128,
    now: u128,
)
    requires
        session::grants(sessions, token, source_ip, share_id, revision, idle, now),
    ensures
        token is Some,
        sessions.contains_key(token->0),
        sessions[token->0].source_ip == source_ip,
        sessions[token->0].shares.contains_key(share_id),
        sessions[token->0].shares[share_id] == revision,
        now < sessions[token->0].created_at + 86_400_000_000_000,
        now < sessions[token->0].last_access_at + idle,
{
}

/// Use keeps a session alive: a share that was granted is granted again, as
/// long as no idle time passes in between and the day has not ended.
pub proof fn law_use_keeps_a_session_alive(
    sessions: Map<Seq<char>, SessionView>,
    token: Seq<char>,
    source_ip: IpAddr,
    share_id: Seq<char>,
    revision: u64,
    idle: u128,
    now: u128,
    later: u128,
)
    requires
        session::grants(sessions, Some(token), source_ip, share_id, revision, idle, now),
        sessions[token].created_at <= now <= later,
        later < now + idle,
        later < sessions[token].created_at + 86_400_000_000_000,
    ensures
        ({
            let after = session::after_asking(
                sessions,
                Some(token),
                source_ip,
                share_id,
                revision,
                idle,
                now,
            );
            &&& after.contains_key(token)
            &&& after[token].last_access_at == now
            &&& session::grants(after, Some(token), source_ip, share_id, revision, idle, later)
        }),
{
}

/// A question that is answered no leaves a live session as it is; so does one
/// without a token.
pub proof fn law_a_refusal_is_no_use(
    sessions: Map<Seq<char>, SessionView>,
    token: Option<Seq<char>>,
    source_ip: IpAddr,
    share_id: Seq<char>,
    revision: u64,
    idle: u128,
    now: u128,
)
    requires
        !session::grants(sessions, token, source_ip, share_id, revision, idle, now),
        token is Some && sessions.contains_key(token->0) ==> now
            < sessions[token->0].last_access_at + idle && now < sessions[token->0].created_at
            + 86_400_000_000_000 && sessions[token->0].created_at
            <= sessions[token->0].last_access_at <= now,
    ensures
        session::after_asking(
            sessions,
            token,
            source_ip,
            share_id,
            revision,
            idle,
            now,
        ) == sessions,
{
}

/// The session of a token that is live and belongs to the address is added to:
/// the token stays, the shares that it had stay with it, and so does the time
/// of its day.
pub proof fn law_unlocking_adds_to_the_session_shown(
    before: Map<Seq<char>, SessionView>,
    after: Map<Seq<char>, SessionView>,
    token: Seq<char>,
    existing: Seq<char>,
    source_ip: IpAddr,
    share_id: Seq<char>,
    revision: u64,
    idle: u128,
    now: u128,
    fresh: Seq<char>,
)
    requires
        session::unlocked(
            before,
            after,
            token,
            Some(existing),
            source_ip,
            share_id,
            revision,
            idle,
            now,
            fresh,
        ),
        before.contains_key(existing),
        before[existing].source_ip == source_ip,
        before[existing].created_at <= before[existing].last_access_at <= now,
        now < before[existing].created_at + 86_400_000_000_000,
        now < before[existing].last_access_at + idle,
    ensures
        token == existing,
        after.contains_key(token),
        after[token].shares == before[existing].shares.insert(share_id, revision),
        after[token].source_ip == source_ip,
        after[token].created_at == before[existing].created_at,
        after[token].last_access_at == now,
{
}

/// Any other token is not added to: where none is shown, none of that name is
/// known, it belongs to another address, or it has expired, a new session is
/// opened, with the new token, from now on, for this address and this share.
pub proof fn law_unlocking_opens_a_new_session_otherwise(
    before: Map<Seq<char>, SessionView>,
    after: Map<Seq<char>, SessionView>,
    token: Seq<char>,
    existing: Option<Seq<char>>,
    source_ip: IpAddr,
    share_id: Seq<char>,
    revision: u64,
    idle: u128,
    now: u128,
    fresh: Seq<char>,
)
    requires
        session::unlocked(
            before,
            after,
            token,
            existing,
            source_ip,
            share_id,
            revision,
            idle,
            now,
            fresh,
        ),
        existing is None || !before.contains_key(existing->0) || before[existing->0].source_ip
            != source_ip || now >= before[existing->0].created_at + 86_400_000_000_000 || now
            >= before[existing->0].last_access_at + idle,
    ensures
        token == fresh,
        after.contains_key(token),
        after[token].shares.dom() == set![share_id],
        after[token].shares[share_id] == revision,
        after[token].source_ip == source_ip,
        after[token].created_at == now,
        after[token].last_access_at == now,
{
    assert(after[token].shares.dom() =~= set![share_id]);
}

/// Unlocking ends no live session of another token, but for one where the store
/// is full; that one was used no later than any other that stays.
pub proof fn law_unlocking_ends_at_most_one_live_session(
    before: Map<Seq<char>, SessionView>,
    after: Map<Seq<char>, SessionView>,
    token: Seq<char>,
    existing: Option<Seq<char>>,
    source_ip: IpAddr,
    share_id: Seq<char>,
    revision: u64,
    idle: u128,
    now: u128,
    fresh: Seq<char>,
    gone: Seq<char>,
    other: Seq<char>,
)
    requires
        session::unlocked(
            before,
            after,
            token,
            existing,
            source_ip,
            share_id,
            revision,
            idle,
            now,
            fresh,
        ),
        before.dom().finite(),
        gone != token,
        before.contains_key(gone),
        before[gone].created_at <= before[gone].last_access_at <= now,
        now < before[gone].created_at + 86_400_000_000_000,
        now < before[gone].last_access_at + idle,
        !after.contains_key(gone),
        other != token,
        other != gone,
        before.contains_key(other),
        before[other].created_at <= before[other].last_access_at <= now,
        now < before[other].created_at + 86_400_000_000_000,
        now < before[other].last_access_at + idle,
    ensures
        before.len() >= 1024,
        token == fresh,
        after.contains_key(other),
        before[gone].last_access_at <= before[other].last_access_at,
{
    let live = session::pruned(before, now, idle);
    assert(live.dom().subset_of(before.dom()));
    vstd::set_lib::lemma_len_subset(live.dom(), before.dom());
    assert(live.contains_key(gone));
    assert(live.contains_key(other));
    assert(live.len() >= MAX_SESSIONS);
    let old = choose|old: Seq<char>| #[trigger]
        session::least_recent(live, old) && after == live.remove(old).insert(
            fresh,
            session::fresh_session(source_ip, share_id, revision, now),
        );
    assert(old == gone);
}

/// Unlocking ends no live session while the store has room.
pub proof fn law_unlocking_ends_no_live_session_while_there_is_room(
    before: Map<Seq<char>, SessionView>,
    after: Map<Seq<char>, SessionView>,
    token: Seq<char>,
    existing: Option<Seq<char>>,
    source_ip: IpAddr,
    share_id: Seq<char>,
    revision: u64,
    idle: u128,
    now: u128,
    fresh: Seq<char>,
    other: Seq<char>,
)
    requires
        session::unlocked(
            before,
            after,
            token,
            existing,
            source_ip,
            share_id,
            revision,
            idle,
            now,
            fresh,
        ),
        before.dom().finite(),
        before.len() < 1024,
        other != token,
        before.contains_key(other),
        before[other].created_at <= before[other].last_access_at <= now,
        now < before[other].created_at + 86_400_000_000_000,
        now < before[other].last_access_at + idle,
    ensures
        after.contains_key(other),
        after[other] == before[other],
{
    let live = session::pruned(before, now, idle);
    assert(live.dom().subset_of(before.dom()));
    vstd::set_lib::lemma_len_subset(live.dom(), before.dom());
    assert(live.contains_key(other));
}

/// Unlocking ends every session that has expired.
pub proof fn law_unlocking_ends_expired_sessions(
    before: Map<Seq<char>, SessionView>,
    after: Map<Seq<char>, SessionView>,
    token: Seq<char>,
    existing: Option<Seq<char>>,
    source_ip: IpAddr,
    share_id: Seq<char>,
    revision: u64,
    idle: u128,
    now: u128,
    fresh: Seq<char>,
    other: Seq<char>,
)
    requires
        session::unlocked(
            before,
            after,
            token,
            existing,
            source_ip,
            share_id,
            revision,
            idle,
            now,
            fresh,
        ),
        other != token,
        before.contains_key(other),
        idle > 0,
        now >= before[other].created_at + 86_400_000_000_000 || now >= before[other].last_access_at
            + idle,
    ensures
        !after.contains_key(other),
{
}

/// Locking a share with one token leaves the sessions of all other tokens as
/// they were, so every other token grants what it did; and without a token, or
/// with an unknown one, it changes nothing.
pub proof fn law_locking_leaves_other_sessions(
    sessions: Map<Seq<char>, SessionView>,
    token: Option<Seq<char>>,
    share_id: Seq<char>,
    other: Seq<char>,
    source_ip: IpAddr,
    asked_share: Seq<char>,
    revision: u64,
    idle: u128,
    now: u128,
)
    requires
        token != Some(other),
    ensures
        ({
            let after = session::after_lock(sessions, token, share_id);
            &&& after.contains_key(other) == sessions.contains_key(other)
            &&& sessions.contains_key(other) ==> after[other] == sessions[other]
            &&& session::grants(
                after,
                Some(other),
                source_ip,
                asked_share,
                revision,
                idle,
                now,
            ) == session::grants(
                sessions,
                Some(other),
                source_ip,
                asked_share,
                revision,
                idle,
                now,
            )
            &&& token is None || !sessions.contains_key(token->0) ==> after == sessions
        }),
{
}

/// Locking takes one share out of the session of the token, and nothing else:
/// the session stays, with its other shares, its address and its times.
pub proof fn law_locking_takes_one_share(
    sessions: Map<Seq<char>, SessionView>,
    token: Seq<char>,
    share_id: Seq<char>,
    other_share: Seq<char>,
)
    requires
        sessions.contains_key(token),
        other_share != share_id,
    ensures
        ({
            let after = session::after_lock(sessions, Some(token), share_id);
            &&& after.contains_key(token)
            &&& !after[token].shares.contains_key(share_id)
            &&& after[token].shares.contains_key(other_share)
                == sessions[token].shares.contains_key(other_share)
            &&& sessions[token].shares.contains_key(other_share) ==> after[token].shares[other_share]
                == sessions[token].shares[other_share]
            &&& after[token].source_ip == sessions[token].source_ip
            &&& after[token].created_at == sessions[token].created_at
            &&& after[token].last_access_at == sessions[token].last_access_at
        }),
{
}

/// A logout ends the session of its token and leaves all others as they were;
/// without a token it changes nothing.
pub proof fn law_logout_ends_one_session(
    sessions: Map<Seq<char>, SessionView>,
    token: Option<Seq<char>>,
    t: Seq<char>,
)
    ensures
        ({
            let after = session::after_logout(sessions, token);
            &&& after.contains_key(t) <==> sessions.contains_key(t) && token != Some(t)
            &&& after.contains_key(t) ==> after[t] == sessions[t]
        }),
{
}

/// Revoking a share ends no session: each keeps its other shares, its address
/// and its times. The sessions that are counted are those that had the share.
pub proof fn law_revoking_a_share_takes_nothing_else(
    sessions: Map<Seq<char>, SessionView>,
    share_id: Seq<char>,
    t: Seq<char>,
    other_share: Seq<char>,
)
    requires
        other_share != share_id,
    ensures
        ({
            let after = session::after_revoke(sessions, share_id);
            &&& after.contains_key(t) == sessions.contains_key(t)
            &&& sessions.contains_key(t) ==> {
                &&& !after[t].shares.contains_key(share_id)
                &&& after[t].shares.contains_key(other_share)
                    == sessions[t].shares.contains_key(other_share)
                &&& sessions[t].shares.contains_key(other_share) ==> after[t].shares[other_share]
                    == sessions[t].shares[other_share]
                &&& after[t].source_ip == sessions[t].source_ip
                &&& after[t].created_at == sessions[t].created_at
                &&& after[t].last_access_at == sessions[t].last_access_at
            }
            &&& session::holders_of(sessions, share_id).contains(t) <==> sessions.contains_key(t)
                && sessions[t].shares.contains_key(share_id)
        }),
{
}

/// A live session has to make room only where the store is full of live ones.
pub proof fn law_expired_sessions_make_room_first(
    before: Map<Seq<char>, SessionView>,
    after: Map<Seq<char>, SessionView>,
    token: Seq<char>,
    existing: Option<Seq<char>>,
    source_ip: IpAddr,
    share_id: Seq<char>,
    revision: u64,
    idle: u128,
    now: u128,
    fresh: Seq<char>,
    gone: Seq<char>,
    other: Seq<char>,
)
    requires
        session::unlocked(
            before,
            after,
            token,
            existing,
            source_ip,
            share_id,
            revision,
            idle,
            now,
            fresh,
        ),
        before.dom().finite(),
        before.len() <= 1024,
        idle > 0,
        gone != token,
        before.contains_key(gone),
        now < before[gone].created_at + 86_400_000_000_000,
        now < before[gone].last_access_at + idle,
        !after.contains_key(gone),
        before.contains_key(other),
    ensures
        now < before[other].created_at + 86_400_000_000_000,
        now < before[other].last_access_at + idle,
{
    let live = session::pruned(before, now, idle);
    assert(live.dom().subset_of(before.dom()));
    vstd::set_lib::lemma_len_subset(live.dom(), before.dom());
    assert(live.contains_key(gone));
    assert(live.len() >= MAX_SESSIONS);
    vstd::set_lib::lemma_subset_equality(live.dom(), before.dom());
    assert(live.contains_key(other));
}

/// Nothing but the session of the returned token is new.
pub proof fn law_unlocking_adds_one_session_at_most(
    before: Map<Seq<char>, SessionView>,
    after: Map<Seq<char>, SessionView>,
    token: Seq<char>,
    existing: Option<Seq<char>>,
    source_ip: IpAddr,
    share_id: Seq<char>,
    revision: u64,
    idle: u128,
    now: u128,
    fresh: Seq<char>,
    t: Seq<char>,
)
    requires
        session::unlocked(
            before,
            after,
            token,
            existing,
            source_ip,
            share_id,
            revision,
            idle,
            now,
            fresh,
        ),
        after.contains_key(t),
        t != token,
    ensures
        before.contains_key(t),
        after[t].shares == before[t].shares,
        after[t].source_ip == before[t].source_ip,
        after[t].created_at == before[t].created_at,
        after[t].last_access_at == before[t].last_access_at,
{
}

} // verus!
