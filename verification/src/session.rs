//! Browser sessions: which shares a token has unlocked, from which address,
//! and for how long.
//!
//! Times are nanoseconds on one monotonic clock; durations are nanoseconds.
use vstd::prelude::*;

use crate::addr::IpAddr;
use crate::random;
use crate::random::random_token;
use crate::text::owned;
use crate::vec_map::VecMap;

verus! {

/// The most sessions that are kept.
pub const MAX_SESSIONS: usize = 1024;

/// How long a session lives, used or not: a day.
pub const ABSOLUTE_SESSION_LIFETIME: u128 = 86_400_000_000_000;

/// What a session is.
pub struct SessionView {
    /// The unlocked shares, each with the revision of its credentials.
    pub shares: Map<Seq<char>, u64>,
    pub source_ip: IpAddr,
    pub created_at: u128,
    pub last_access_at: u128,
}

struct Session {
    authorized_shares: VecMap<String, u64>,
    source_ip: IpAddr,
    created_at: u128,
    last_access_at: u128,
}

impl View for Session {
    type V = SessionView;

    closed spec fn view(&self) -> SessionView {
        SessionView {
            shares: self.authorized_shares@,
            source_ip: self.source_ip,
            created_at: self.created_at,
            last_access_at: self.last_access_at,
        }
    }
}

/// The sessions, by token.
pub struct SessionStore {
    sessions: VecMap<String, Session>,
}

/// The time from `since` to `now`; none where the clock has not reached `since`.
pub open spec fn elapsed(now: u128, since: u128) -> int {
    if now >= since {
        now - since
    } else {
        0
    }
}

/// The session has outlived its day, or its idle time.
pub open spec fn expired(session: SessionView, now: u128, idle_lifetime: u128) -> bool {
    elapsed(now, session.created_at) >= ABSOLUTE_SESSION_LIFETIME || elapsed(
        now,
        session.last_access_at,
    ) >= idle_lifetime
}

/// The sessions that have not expired.
pub open spec fn pruned(
    sessions: Map<Seq<char>, SessionView>,
    now: u128,
    idle_lifetime: u128,
) -> Map<Seq<char>, SessionView> {
    Map::new(
        |t: Seq<char>| sessions.contains_key(t) && !expired(sessions[t], now, idle_lifetime),
        |t: Seq<char>| sessions[t],
    )
}

/// The session of `token` can be added to from `source_ip`.
pub open spec fn renewable(
    sessions: Map<Seq<char>, SessionView>,
    token: Option<Seq<char>>,
    source_ip: IpAddr,
) -> bool {
    token is Some && sessions.contains_key(token->0) && sessions[token->0].source_ip == source_ip
}

/// The session once `share_id` is unlocked in it.
pub open spec fn granted(
    session: SessionView,
    share_id: Seq<char>,
    credential_revision: u64,
    now: u128,
) -> SessionView {
    SessionView {
        shares: session.shares.insert(share_id, credential_revision),
        last_access_at: now,
        ..session
    }
}

/// A new session, with one share.
pub open spec fn fresh_session(
    source_ip: IpAddr,
    share_id: Seq<char>,
    credential_revision: u64,
    now: u128,
) -> SessionView {
    SessionView {
        shares: Map::<Seq<char>, u64>::empty().insert(share_id, credential_revision),
        source_ip,
        created_at: now,
        last_access_at: now,
    }
}

/// No session was used longer ago than that of `token`.
pub open spec fn least_recent(sessions: Map<Seq<char>, SessionView>, token: Seq<char>) -> bool {
    sessions.contains_key(token) && forall|t: Seq<char>| #[trigger]
        sessions.contains_key(t) ==> sessions[token].last_access_at <= sessions[t].last_access_at
}

/// `after` is `before` with the session added under `token`, in place of a
/// least recently used one where the store was full.
pub open spec fn opened(
    before: Map<Seq<char>, SessionView>,
    after: Map<Seq<char>, SessionView>,
    token: Seq<char>,
    session: SessionView,
) -> bool {
    if before.len() >= MAX_SESSIONS {
        exists|old: Seq<char>| #[trigger]
            least_recent(before, old) && after == before.remove(old).insert(token, session)
    } else {
        after == before.insert(token, session)
    }
}

/// What unlocking a share does to the sessions, and the token that it
/// returns; `fresh` is the token of a session that has to be opened.
pub open spec fn unlocked(
    before: Map<Seq<char>, SessionView>,
    after: Map<Seq<char>, SessionView>,
    result: Seq<char>,
    existing: Option<Seq<char>>,
    source_ip: IpAddr,
    share_id: Seq<char>,
    credential_revision: u64,
    idle_lifetime: u128,
    now: u128,
    fresh: Seq<char>,
) -> bool {
    let live = pruned(before, now, idle_lifetime);
    if renewable(live, existing, source_ip) {
        &&& result == existing->0
        &&& after == live.insert(
            result,
            granted(live[result], share_id, credential_revision, now),
        )
    } else {
        &&& result == fresh
        &&& opened(
            live,
            after,
            fresh,
            fresh_session(source_ip, share_id, credential_revision, now),
        )
    }
}

/// The sessions without that of `token`, where it has expired.
pub open spec fn without_expired(
    sessions: Map<Seq<char>, SessionView>,
    token: Seq<char>,
    now: u128,
    idle_lifetime: u128,
) -> Map<Seq<char>, SessionView> {
    if sessions.contains_key(token) && expired(sessions[token], now, idle_lifetime) {
        sessions.remove(token)
    } else {
        sessions
    }
}

/// The session of `token` lives, belongs to `source_ip`, and has the share at
/// this revision of its credentials.
pub open spec fn grants(
    sessions: Map<Seq<char>, SessionView>,
    token: Option<Seq<char>>,
    source_ip: IpAddr,
    share_id: Seq<char>,
    credential_revision: u64,
    idle_lifetime: u128,
    now: u128,
) -> bool {
    &&& token is Some
    &&& sessions.contains_key(token->0)
    &&& !expired(sessions[token->0], now, idle_lifetime)
    &&& sessions[token->0].source_ip == source_ip
    &&& sessions[token->0].shares.contains_key(share_id)
    &&& sessions[token->0].shares[share_id] == credential_revision
}

/// The sessions after it was asked whether `token` grants a share.
pub open spec fn after_asking(
    sessions: Map<Seq<char>, SessionView>,
    token: Option<Seq<char>>,
    source_ip: IpAddr,
    share_id: Seq<char>,
    credential_revision: u64,
    idle_lifetime: u128,
    now: u128,
) -> Map<Seq<char>, SessionView> {
    if token is None {
        sessions
    } else if grants(
        sessions,
        token,
        source_ip,
        share_id,
        credential_revision,
        idle_lifetime,
        now,
    ) {
        sessions.insert(token->0, SessionView { last_access_at: now, ..sessions[token->0] })
    } else {
        without_expired(sessions, token->0, now, idle_lifetime)
    }
}

/// The session without `share_id`.
pub open spec fn locked(session: SessionView, share_id: Seq<char>) -> SessionView {
    SessionView { shares: session.shares.remove(share_id), ..session }
}

/// The sessions after the share is locked in that of `token`.
pub open spec fn after_lock(
    sessions: Map<Seq<char>, SessionView>,
    token: Option<Seq<char>>,
    share_id: Seq<char>,
) -> Map<Seq<char>, SessionView> {
    if token is Some && sessions.contains_key(token->0) {
        sessions.insert(token->0, locked(sessions[token->0], share_id))
    } else {
        sessions
    }
}

/// The sessions after that of `token` ended.
pub open spec fn after_logout(
    sessions: Map<Seq<char>, SessionView>,
    token: Option<Seq<char>>,
) -> Map<Seq<char>, SessionView> {
    match token {
        Some(token) => sessions.remove(token),
        None => sessions,
    }
}

/// The sessions after the share is locked in all of them.
pub open spec fn after_revoke(
    sessions: Map<Seq<char>, SessionView>,
    share_id: Seq<char>,
) -> Map<Seq<char>, SessionView> {
    Map::new(
        |t: Seq<char>| sessions.contains_key(t),
        |t: Seq<char>| locked(sessions[t], share_id),
    )
}

/// The tokens of the sessions that have the share.
pub open spec fn holders_of(
    sessions: Map<Seq<char>, SessionView>,
    share_id: Seq<char>,
) -> Set<Seq<char>> {
    sessions.dom().filter(|t: Seq<char>| sessions[t].shares.contains_key(share_id))
}

/// The view of an optional text.
pub open spec fn text_of(token: Option<&str>) -> Option<Seq<char>> {
    match token {
        Some(token) => Some(token@),
        None => None,
    }
}

fn elapsed_since(now: u128, since: u128) -> (result: u128)
    ensures
        result == elapsed(now, since),
{
    if now >= since {
        now - since
    } else {
        0
    }
}

impl Session {
    fn has_expired(&self, now: u128, idle_lifetime: u128) -> (result: bool)
        ensures
            result == expired(self@, now, idle_lifetime),
    {
        elapsed_since(now, self.created_at) >= ABSOLUTE_SESSION_LIFETIME || elapsed_since(
            now,
            self.last_access_at,
        ) >= idle_lifetime
    }
}

impl Default for SessionStore {
    fn default() -> (result: Self)
        ensures
            result.wf(),
            result@ == Map::<Seq<char>, SessionView>::empty(),
    {
        let result = SessionStore { sessions: VecMap::new() };
        assert(result@ =~= Map::<Seq<char>, SessionView>::empty());
        result
    }
}

impl View for SessionStore {
    type V = Map<Seq<char>, SessionView>;

    closed spec fn view(&self) -> Map<Seq<char>, SessionView> {
        Map::new(
            |t: Seq<char>| self.sessions@.contains_key(t),
            |t: Seq<char>| self.sessions@[t]@,
        )
    }
}

impl SessionStore {
    /// There are at most `MAX_SESSIONS` sessions, and each is sound.
    pub closed spec fn wf(&self) -> bool {
        &&& self.sound()
        &&& self.sessions@.len() <= MAX_SESSIONS
    }

    spec fn sound(&self) -> bool {
        &&& self.sessions.wf()
        &&& forall|t: Seq<char>| #[trigger]
            self.sessions@.contains_key(t) ==> self.sessions@[t].authorized_shares.wf()
    }

    /// The store never holds more than `MAX_SESSIONS` sessions.
    pub proof fn law_sessions_are_bounded(&self)
        requires
            self.wf(),
        ensures
            self@.dom().finite(),
            self@.len() <= MAX_SESSIONS,
    {
        self.sessions.lemma_view();
        assert(self@.dom() =~= self.sessions@.dom());
    }

    proof fn lemma_len(&self)
        requires
            self.sessions.wf(),
        ensures
            self@.dom().finite(),
            self@.len() == self.sessions@.len(),
    {
        self.sessions.lemma_view();
        assert(self@.dom() =~= self.sessions@.dom());
    }

    fn prune(&mut self, idle_lifetime: u128, now: u128)
        requires
            old(self).wf(),
        ensures
            final(self).wf(),
            final(self)@ == pruned(old(self)@, now, idle_lifetime),
    {
        let mut flags: Vec<bool> = Vec::new();
        let count: usize = self.sessions.len();
        let ghost names = self.sessions.keys();
        let mut i: usize = 0;
        while i < count
            invariant
                *self == *old(self),
                self.wf(),
                names == self.sessions.keys(),
                count == names.len(),
                i <= count,
                flags@.len() == i,
                forall|j: int|
                    0 <= j < i ==> #[trigger] flags@[j] == !expired(
                        self@[names[j]],
                        now,
                        idle_lifetime,
                    ),
            decreases count - i,
        {
            let session = self.sessions.value_at(i);
            flags.push(!session.has_expired(now, idle_lifetime));
            i += 1;
        }
        let ghost before = *self;
        self.sessions.keep(&flags);
        proof {
            before.sessions.lemma_view();
            assert forall|t: Seq<char>| #[trigger] self@.contains_key(t) <==> pruned(
                before@,
                now,
                idle_lifetime,
            ).contains_key(t) by {
                if before@.contains_key(t) && !expired(before@[t], now, idle_lifetime) {
                    assert(names.contains(t));
                    let p = choose|p: int| 0 <= p < names.len() && names[p] == t;
                    assert(flags@[p]);
                    assert(self.sessions@.contains_key(t));
                }
                if self.sessions@.contains_key(t) {
                    let p = choose|p: int| 0 <= p < names.len() && #[trigger] names[p] == t && flags@[p];
                    assert(flags@[p] == !expired(before@[names[p]], now, idle_lifetime));
                }
            }
            assert(self@ =~= pruned(before@, now, idle_lifetime));
            self.sessions.lemma_view();
            assert(self.sessions@.dom().subset_of(before.sessions@.dom()));
            vstd::set_lib::lemma_len_subset(self.sessions@.dom(), before.sessions@.dom());
        }
    }

    /// Leaves out the expired sessions; then, where `existing` is the token of
    /// a session from this address, unlocks the share in it.
    fn renew(
        &mut self,
        existing: Option<&str>,
        source_ip: IpAddr,
        share_id: &str,
        credential_revision: u64,
        idle_lifetime: u128,
        now: u128,
    ) -> (result: Option<String>)
        requires
            old(self).wf(),
        ensures
            final(self).wf(),
            ({
                let live = pruned(old(self)@, now, idle_lifetime);
                if renewable(live, text_of(existing), source_ip) {
                    &&& result is Some
                    &&& result->0@ == existing->0@
                    &&& final(self)@ == live.insert(
                        existing->0@,
                        granted(live[existing->0@], share_id@, credential_revision, now),
                    )
                } else {
                    result is None && final(self)@ == live
                }
            }),
    {
        self.prune(idle_lifetime, now);
        let token = match existing {
            Some(token) => owned(token),
            None => {
                return None;
            },
        };
        let at: usize = match self.sessions.find(&token) {
            Some(at) => at,
            None => {
                return None;
            },
        };
        let session = self.sessions.value_at(at);
        if session.source_ip != source_ip {
            return None;
        }
        let ghost before = *self;
        let session = self.sessions.value_at_mut(at);
        session.authorized_shares.insert(owned(share_id), credential_revision);
        session.last_access_at = now;
        proof {
            before.lemma_len();
            self.lemma_len();
            assert(self.sessions@.dom() =~= before.sessions@.dom());
            assert(self@ =~= before@.insert(
                token@,
                granted(before@[token@], share_id@, credential_revision, now),
            ));
        }
        Some(token)
    }

    /// The token of a session that was not used more recently than any other.
    fn oldest(&self) -> (result: Option<String>)
        requires
            self.wf(),
        ensures
            match result {
                Some(token) => least_recent(self@, token@),
                None => self@.len() == 0,
            },
    {
        let count: usize = self.sessions.len();
        proof {
            self.lemma_len();
            self.sessions.lemma_view();
        }
        if count == 0 {
            return None;
        }
        let ghost names = self.sessions.keys();
        let mut best: usize = 0;
        let mut best_time: u128 = self.sessions.value_at(0).last_access_at;
        let mut i: usize = 1;
        while i < count
            invariant
                self.wf(),
                names == self.sessions.keys(),
                count == names.len(),
                best < i <= count,
                best_time == self@[names[best as int]].last_access_at,
                forall|j: int|
                    0 <= j < i ==> best_time <= (#[trigger] self@[names[j]]).last_access_at,
            decreases count - i,
        {
            let time: u128 = self.sessions.value_at(i).last_access_at;
            if time < best_time {
                best = i;
                best_time = time;
            }
            i += 1;
        }
        let token = self.sessions.key_at(best).clone();
        proof {
            assert forall|t: Seq<char>| #[trigger] self@.contains_key(t) implies self@[token@].last_access_at
                <= self@[t].last_access_at by {
                assert(names.contains(t));
                let p = choose|p: int| 0 <= p < names.len() && names[p] == t;
                assert(best_time <= self@[names[p]].last_access_at);
            }
        }
        Some(token)
    }

    /// Opens a session under `token`, in place of the least recently used one
    /// where the store is full.
    fn open(
        &mut self,
        token: &String,
        source_ip: IpAddr,
        share_id: &str,
        credential_revision: u64,
        now: u128,
    )
        requires
            old(self).wf(),
        ensures
            final(self).wf(),
            opened(
                old(self)@,
                final(self)@,
                token@,
                fresh_session(source_ip, share_id@, credential_revision, now),
            ),
    {
        let ghost before = *self;
        proof {
            self.lemma_len();
        }
        if self.sessions.len() >= MAX_SESSIONS {
            if let Some(oldest) = self.oldest() {
                let _ = self.sessions.remove(&oldest);
                assert(self@ =~= before@.remove(oldest@));
                assert(least_recent(before@, oldest@));
            }
        }
        let ghost mid = *self;
        proof {
            mid.lemma_len();
            assert(mid@.dom().finite());
        }
        let mut shares: VecMap<String, u64> = VecMap::new();
        shares.insert(owned(share_id), credential_revision);
        let session = Session {
            authorized_shares: shares,
            source_ip,
            created_at: now,
            last_access_at: now,
        };
        self.sessions.insert(token.clone(), session);
        proof {
            self.lemma_len();
            assert(self.sessions@.dom() =~= mid.sessions@.dom().insert(token@));
            assert(self@ =~= mid@.insert(
                token@,
                fresh_session(source_ip, share_id@, credential_revision, now),
            ));
        }
    }

    /// Unlocks a share, in the session of `existing` where that can be added
    /// to, else in a new one under `fresh`. Returns the session's token.
    pub fn create_or_authorize_with(
        &mut self,
        existing: Option<&str>,
        source_ip: IpAddr,
        share_id: &str,
        credential_revision: u64,
        idle_lifetime: u128,
        now: u128,
        fresh: String,
    ) -> (result: String)
        requires
            old(self).wf(),
        ensures
            final(self).wf(),
            unlocked(
                old(self)@,
                final(self)@,
                result@,
                text_of(existing),
                source_ip,
                share_id@,
                credential_revision,
                idle_lifetime,
                now,
                fresh@,
            ),
    {
        match self.renew(existing, source_ip, share_id, credential_revision, idle_lifetime, now) {
            Some(token) => token,
            None => {
                self.open(&fresh, source_ip, share_id, credential_revision, now);
                fresh
            },
        }
    }

    /// Unlocks a share, in the session of `existing_token` where that can be
    /// added to, else in a new one under a random token. Returns the session's
    /// token.
    pub fn create_or_authorize(
        &mut self,
        existing_token: Option<&str>,
        source_ip: IpAddr,
        share_id: &str,
        credential_revision: u64,
        idle_lifetime: u128,
        now: u128,
    ) -> (result: String)
        requires
            old(self).wf(),
        ensures
            final(self).wf(),
            exists|fresh: Seq<char>| #[trigger]
                random::token_of_bytes(fresh) && unlocked(
                    old(self)@,
                    final(self)@,
                    result@,
                    text_of(existing_token),
                    source_ip,
                    share_id@,
                    credential_revision,
                    idle_lifetime,
                    now,
                    fresh,
                ),
    {
        match self.renew(
            existing_token,
            source_ip,
            share_id,
            credential_revision,
            idle_lifetime,
            now,
        ) {
            Some(token) => {
                proof {
                    let bytes = Seq::new(32, |i: int| 0u8);
                    assert(random::token_of_bytes(crate::numbers::hex_bytes(bytes)));
                }
                token
            },
            None => {
                let token = random_token();
                self.open(&token, source_ip, share_id, credential_revision, now);
                token
            },
        }
    }

    /// Whether a token grants a share to an address. A grant counts as use of
    /// the session; an expired session ends.
    pub fn authorized(
        &mut self,
        token: Option<&str>,
        source_ip: IpAddr,
        share_id: &str,
        credential_revision: u64,
        idle_lifetime: u128,
        now: u128,
    ) -> (result: bool)
        requires
            old(self).wf(),
        ensures
            final(self).wf(),
            result == grants(
                old(self)@,
                text_of(token),
                source_ip,
                share_id@,
                credential_revision,
                idle_lifetime,
                now,
            ),
            final(self)@ == after_asking(
                old(self)@,
                text_of(token),
                source_ip,
                share_id@,
                credential_revision,
                idle_lifetime,
                now,
            ),
    {
        let token = match token {
            Some(token) => owned(token),
            None => {
                return false;
            },
        };
        let at: usize = match self.sessions.find(&token) {
            Some(at) => at,
            None => {
                return false;
            },
        };
        let ghost before = *self;
        proof {
            before.lemma_len();
        }
        let session = self.sessions.value_at(at);
        if session.has_expired(now, idle_lifetime) {
            let _ = self.sessions.remove(&token);
            proof {
                self.lemma_len();
                assert(self.sessions@.dom() =~= before.sessions@.dom().remove(token@));
                assert(self@ =~= before@.remove(token@));
            }
            return false;
        }
        if session.source_ip != source_ip {
            return false;
        }
        match session.authorized_shares.get(&owned(share_id)) {
            Some(revision) => {
                if *revision != credential_revision {
                    return false;
                }
            },
            None => {
                return false;
            },
        }
        let session = self.sessions.value_at_mut(at);
        session.last_access_at = now;
        proof {
            self.lemma_len();
            assert(self.sessions@.dom() =~= before.sessions@.dom());
            assert(self@ =~= before@.insert(
                token@,
                SessionView { last_access_at: now, ..before@[token@] },
            ));
        }
        true
    }

    /// Locks a share in the session of a token.
    pub fn lock_share(&mut self, token: Option<&str>, share_id: &str)
        requires
            old(self).wf(),
        ensures
            final(self).wf(),
            final(self)@ == after_lock(old(self)@, text_of(token), share_id@),
    {
        let token = match token {
            Some(token) => owned(token),
            None => {
                return;
            },
        };
        let ghost before = *self;
        if let Some(at) = self.sessions.find(&token) {
            let session = self.sessions.value_at_mut(at);
            let _ = session.authorized_shares.remove(&owned(share_id));
            proof {
                before.lemma_len();
                self.lemma_len();
                assert(self.sessions@.dom() =~= before.sessions@.dom());
                assert(self@ =~= before@.insert(token@, locked(before@[token@], share_id@)));
            }
        }
    }

    /// Ends the session of a token.
    pub fn logout(&mut self, token: Option<&str>)
        requires
            old(self).wf(),
        ensures
            final(self).wf(),
            final(self)@ == after_logout(old(self)@, text_of(token)),
    {
        if let Some(token) = token {
            let ghost before = *self;
            let _ = self.sessions.remove(&owned(token));
            proof {
                before.lemma_len();
                self.lemma_len();
                assert(self.sessions@.dom() =~= before.sessions@.dom().remove(token@));
                assert(self@ =~= before@.remove(token@));
            }
        }
    }

    /// Locks a share in every session, and counts those that had it.
    pub fn revoke_share(&mut self, share_id: &str) -> (result: usize)
        requires
            old(self).wf(),
        ensures
            final(self).wf(),
            final(self)@ == after_revoke(old(self)@, share_id@),
            result == holders_of(old(self)@, share_id@).len(),
    {
        let share = owned(share_id);
        let ghost before = *self;
        let ghost names = self.sessions.keys();
        let count: usize = self.sessions.len();
        let mut revoked: usize = 0;
        let ghost mut hit: Set<Seq<char>> = Set::empty();
        proof {
            before.sessions.lemma_view();
        }
        let mut i: usize = 0;
        while i < count
            invariant
                before.wf(),
                self.wf(),
                share@ == share_id@,
                names == before.sessions.keys(),
                names == self.sessions.keys(),
                names.no_duplicates(),
                count == names.len(),
                i <= count,
                revoked <= i,
                hit.finite(),
                hit.len() == revoked,
                self.sessions@.dom() == before.sessions@.dom(),
                forall|j: int| 0 <= j < names.len() ==> before@.contains_key(#[trigger] names[j]),
                forall|j: int|
                    0 <= j < i ==> (#[trigger] self@[names[j]]) == locked(
                        before@[names[j]],
                        share_id@,
                    ),
                forall|j: int| i <= j < count ==> (#[trigger] self@[names[j]]) == before@[names[j]],
                forall|t: Seq<char>| #[trigger]
                    hit.contains(t) <==> exists|j: int|
                        0 <= j < i && #[trigger] names[j] == t && before@[t].shares.contains_key(
                            share_id@,
                        ),
            decreases count - i,
        {
            let ghost mid = *self;
            let ghost t = names[i as int];
            let session = self.sessions.value_at_mut(i);
            let had = session.authorized_shares.remove(&share);
            proof {
                assert(self.sessions@ == mid.sessions@.insert(t, self.sessions@[t]));
                assert(self.sessions@.dom() =~= mid.sessions@.dom());
                assert(mid@[names[i as int]] == before@[names[i as int]]);
                assert forall|j: int| 0 <= j < count && j != i implies (#[trigger] self@[names[j]])
                    == mid@[names[j]] by {
                    assert(names[j] != names[i as int]);
                }
            }
            if had {
                proof {
                    if hit.contains(t) {
                        let j = choose|j: int|
                            0 <= j < i && #[trigger] names[j] == t
                                && before@[t].shares.contains_key(share_id@);
                        assert(names[j] != names[i as int]);
                    }
                    hit = hit.insert(t);
                }
                revoked += 1;
            }
            proof {
                assert forall|u: Seq<char>| #[trigger] hit.contains(u) <==> exists|j: int|
                    0 <= j < i + 1 && #[trigger] names[j] == u && before@[u].shares.contains_key(
                        share_id@,
                    ) by {
                    if u == t && had {
                        assert(names[i as int] == u);
                    }
                }
            }
            i += 1;
        }
        proof {
            let wanted = holders_of(before@, share_id@);
            assert forall|t: Seq<char>| hit.contains(t) <==> wanted.contains(t) by {
                if wanted.contains(t) {
                    assert(names.contains(t));
                    let j = choose|j: int| 0 <= j < names.len() && names[j] == t;
                    assert(names[j] == t);
                }
            }
            assert(hit =~= wanted);
            assert forall|t: Seq<char>| #[trigger] self@.contains_key(t) implies self@[t]
                == after_revoke(before@, share_id@)[t] by {
                assert(names.contains(t));
                let j = choose|j: int| 0 <= j < names.len() && names[j] == t;
                assert(self@[names[j]] == locked(before@[names[j]], share_id@));
            }
            assert(self@ =~= after_revoke(before@, share_id@));
        }
        revoked
    }

    /// Ends every session, and counts them.
    pub fn revoke_all(&mut self) -> (result: usize)
        requires
            old(self).wf(),
        ensures
            final(self).wf(),
            final(self)@ == Map::<Seq<char>, SessionView>::empty(),
            result == old(self)@.len(),
    {
        proof {
            self.lemma_len();
        }
        let count: usize = self.sessions.len();
        self.sessions.clear();
        assert(self@ =~= Map::<Seq<char>, SessionView>::empty());
        count
    }

    /// The number of sessions.
    pub fn len(&self) -> (result: usize)
        requires
            self.wf(),
        ensures
            result == self@.len(),
    {
        proof {
            self.lemma_len();
        }
        self.sessions.len()
    }

    /// Whether a session has this token.
    pub fn contains(&self, token: &str) -> (result: bool)
        requires
            self.wf(),
        ensures
            result == self@.contains_key(token@),
    {
        self.sessions.contains(&owned(token))
    }
}

} // verus!
