//! The limit on wrong passwords, for each address and share.
//!
//! Times are nanoseconds on one monotonic clock.
use vstd::prelude::*;

use crate::addr::IpAddr;
use crate::session;
use crate::text::{owned, same_text};
use crate::vec_map::{MapKey, VecMap};

verus! {

/// The wrong passwords within a minute after which no more are looked at.
pub const MAX_FAILED_ATTEMPTS_PER_MINUTE: usize = 5;

/// How long a wrong password counts: a minute.
pub const ATTEMPT_WINDOW: u128 = 60_000_000_000;

struct AttemptKey {
    ip: IpAddr,
    share_id: String,
}

impl MapKey for AttemptKey {
    type Model = (IpAddr, Seq<char>);

    closed spec fn model(&self) -> (IpAddr, Seq<char>) {
        (self.ip, self.share_id@)
    }

    fn same(&self, other: &Self) -> (result: bool) {
        self.ip == other.ip && same_text(self.share_id.as_str(), other.share_id.as_str())
    }
}

/// The attempts without the leading ones that no longer count.
pub open spec fn recent(attempts: Seq<u128>, now: u128) -> Seq<u128>
    decreases attempts.len(),
{
    if attempts.len() > 0 && session::elapsed(now, attempts[0]) >= ATTEMPT_WINDOW {
        recent(attempts.skip(1), now)
    } else {
        attempts
    }
}

/// The failures of an address at a share, in the order in which they came.
pub open spec fn failures_of(
    all: Map<(IpAddr, Seq<char>), Seq<u128>>,
    ip: IpAddr,
    share_id: Seq<char>,
) -> Seq<u128> {
    if all.contains_key((ip, share_id)) {
        all[(ip, share_id)]
    } else {
        Seq::empty()
    }
}

/// No further password is looked at.
pub open spec fn rate_limited(
    all: Map<(IpAddr, Seq<char>), Seq<u128>>,
    ip: IpAddr,
    share_id: Seq<char>,
    now: u128,
) -> bool {
    recent(failures_of(all, ip, share_id), now).len() >= MAX_FAILED_ATTEMPTS_PER_MINUTE
}

/// The failures once it was asked whether the limit is reached.
pub open spec fn after_check(
    all: Map<(IpAddr, Seq<char>), Seq<u128>>,
    ip: IpAddr,
    share_id: Seq<char>,
    now: u128,
) -> Map<(IpAddr, Seq<char>), Seq<u128>> {
    all.insert((ip, share_id), recent(failures_of(all, ip, share_id), now))
}

/// The failures with one more.
pub open spec fn after_failure(
    all: Map<(IpAddr, Seq<char>), Seq<u128>>,
    ip: IpAddr,
    share_id: Seq<char>,
    now: u128,
) -> Map<(IpAddr, Seq<char>), Seq<u128>> {
    all.insert((ip, share_id), failures_of(all, ip, share_id).push(now))
}

/// The failures once the password was right.
pub open spec fn after_success(
    all: Map<(IpAddr, Seq<char>), Seq<u128>>,
    ip: IpAddr,
    share_id: Seq<char>,
) -> Map<(IpAddr, Seq<char>), Seq<u128>> {
    all.remove((ip, share_id))
}

/// The wrong passwords, by address and share.
pub struct AuthAttempts {
    failures: VecMap<AttemptKey, Vec<u128>>,
}

impl View for AuthAttempts {
    type V = Map<(IpAddr, Seq<char>), Seq<u128>>;

    closed spec fn view(&self) -> Map<(IpAddr, Seq<char>), Seq<u128>> {
        Map::new(
            |k: (IpAddr, Seq<char>)| self.failures@.contains_key(k),
            |k: (IpAddr, Seq<char>)| self.failures@[k]@,
        )
    }
}

impl Default for AuthAttempts {
    fn default() -> (result: Self)
        ensures
            result.wf(),
            result@ == Map::<(IpAddr, Seq<char>), Seq<u128>>::empty(),
    {
        let result = AuthAttempts { failures: VecMap::new() };
        assert(result@ =~= Map::<(IpAddr, Seq<char>), Seq<u128>>::empty());
        result
    }
}

fn counts(attempt: u128, now: u128) -> (result: bool)
    ensures
        result == (session::elapsed(now, attempt) < ATTEMPT_WINDOW),
{
    now < attempt || now - attempt < ATTEMPT_WINDOW
}

/// The attempts that still count.
fn recent_from(attempts: &Vec<u128>, now: u128) -> (result: Vec<u128>)
    ensures
        result@ == recent(attempts@, now),
{
    let mut start: usize = 0;
    assert(attempts@.skip(0) =~= attempts@);
    while start < attempts.len() && !counts(attempts[start], now)
        invariant
            start <= attempts@.len(),
            recent(attempts@, now) == recent(attempts@.skip(start as int), now),
        decreases attempts@.len() - start,
    {
        assert(attempts@.skip(start as int).skip(1) =~= attempts@.skip(start + 1));
        start += 1;
    }
    let ghost rest = attempts@.skip(start as int);
    assert(recent(rest, now) == rest);
    let mut out: Vec<u128> = Vec::new();
    let mut i: usize = start;
    while i < attempts.len()
        invariant
            start <= i <= attempts@.len(),
            out@ == attempts@.subrange(start as int, i as int),
        decreases attempts@.len() - i,
    {
        out.push(attempts[i]);
        assert(out@ =~= attempts@.subrange(start as int, i + 1));
        i += 1;
    }
    assert(out@ =~= rest);
    out
}

impl AuthAttempts {
    pub closed spec fn wf(&self) -> bool {
        self.failures.wf()
    }

    fn replace(&mut self, key: AttemptKey, failures: Vec<u128>)
        requires
            old(self).wf(),
        ensures
            final(self).wf(),
            final(self)@ == old(self)@.insert(key.model(), failures@),
    {
        let ghost before = *self;
        let ghost k = key.model();
        let ghost v = failures@;
        self.failures.insert(key, failures);
        assert(self@ =~= before@.insert(k, v));
    }

    /// Whether the address has used up its attempts at the share. Attempts
    /// that no longer count are forgotten.
    pub fn auth_rate_limited(&mut self, ip: IpAddr, share_id: &str, now: u128) -> (result: bool)
        requires
            old(self).wf(),
        ensures
            final(self).wf(),
            result == rate_limited(old(self)@, ip, share_id@, now),
            final(self)@ == after_check(old(self)@, ip, share_id@, now),
    {
        let key = AttemptKey { ip, share_id: owned(share_id) };
        let values = match self.failures.get(&key) {
            Some(attempts) => recent_from(attempts, now),
            None => Vec::new(),
        };
        let limited = values.len() >= MAX_FAILED_ATTEMPTS_PER_MINUTE;
        self.replace(key, values);
        limited
    }

    /// Notes a wrong password.
    pub fn record_auth_failure(&mut self, ip: IpAddr, share_id: &str, now: u128)
        requires
            old(self).wf(),
        ensures
            final(self).wf(),
            final(self)@ == after_failure(old(self)@, ip, share_id@, now),
    {
        let key = AttemptKey { ip, share_id: owned(share_id) };
        let mut values: Vec<u128> = Vec::new();
        if let Some(attempts) = self.failures.get(&key) {
            let mut i: usize = 0;
            while i < attempts.len()
                invariant
                    i <= attempts@.len(),
                    values@ == attempts@.take(i as int),
                decreases attempts@.len() - i,
            {
                values.push(attempts[i]);
                assert(values@ =~= attempts@.take(i + 1));
                i += 1;
            }
            assert(values@ =~= attempts@);
        }
        assert(values@ =~= failures_of(self@, ip, share_id@));
        values.push(now);
        self.replace(key, values);
    }

    /// Forgets the wrong passwords of the address at the share.
    pub fn clear_auth_failures(&mut self, ip: IpAddr, share_id: &str)
        requires
            old(self).wf(),
        ensures
            final(self).wf(),
            final(self)@ == after_success(old(self)@, ip, share_id@),
    {
        let key = AttemptKey { ip, share_id: owned(share_id) };
        let ghost before = *self;
        let _ = self.failures.remove(&key);
        assert(self@ =~= before@.remove((ip, share_id@)));
    }
}

/// `attempts` came in order, and none of them after `now`.
pub open spec fn in_order(attempts: Seq<u128>, now: u128) -> bool {
    &&& forall|i: int, j: int|
        0 <= i <= j < attempts.len() ==> #[trigger] attempts[i] <= #[trigger] attempts[j]
    &&& forall|i: int| 0 <= i < attempts.len() ==> #[trigger] attempts[i] <= now
}

/// The attempts of the last minute count, and the others do not: where they
/// came in order, what is left are those that came within the window.
pub proof fn law_attempts_count_for_a_minute(attempts: Seq<u128>, now: u128)
    requires
        in_order(attempts, now),
    ensures
        recent(attempts, now) == attempts.filter(|t: u128| now - t < ATTEMPT_WINDOW),
    decreases attempts.len(),
{
    let young = |t: u128| now - t < ATTEMPT_WINDOW;
    if attempts.len() > 0 {
        if session::elapsed(now, attempts[0]) >= ATTEMPT_WINDOW {
            law_attempts_count_for_a_minute(attempts.skip(1), now);
            assert(attempts =~= seq![attempts[0]] + attempts.skip(1));
            Seq::filter_distributes_over_add(seq![attempts[0]], attempts.skip(1), young);
            reveal_with_fuel(Seq::filter, 2);
            assert(seq![attempts[0]].drop_last() =~= Seq::<u128>::empty());
            assert(seq![attempts[0]].filter(young) =~= Seq::<u128>::empty());
            assert(attempts.filter(young) =~= attempts.skip(1).filter(young));
        } else {
            assert forall|i: int| 0 <= i < attempts.len() implies young(#[trigger] attempts[i]) by {
                assert(attempts[0] <= attempts[i]);
            }
            lemma_filter_keeps_all(attempts, young);
        }
    } else {
        reveal(Seq::filter);
    }
}

proof fn lemma_filter_keeps_all(attempts: Seq<u128>, keep: spec_fn(u128) -> bool)
    requires
        forall|i: int| 0 <= i < attempts.len() ==> keep(#[trigger] attempts[i]),
    ensures
        attempts.filter(keep) == attempts,
    decreases attempts.len(),
{
    reveal(Seq::filter);
    if attempts.len() > 0 {
        lemma_filter_keeps_all(attempts.drop_last(), keep);
        assert(keep(attempts[attempts.len() - 1]));
        assert(attempts.drop_last().push(attempts.last()) =~= attempts);
    }
}

/// The failures after a run of wrong passwords. For each it was first asked
/// whether the limit is reached, at one time, and then the failure was noted,
/// at another.
pub open spec fn after_attempts(
    all: Map<(IpAddr, Seq<char>), Seq<u128>>,
    ip: IpAddr,
    share_id: Seq<char>,
    attempts: Seq<(u128, u128)>,
) -> Map<(IpAddr, Seq<char>), Seq<u128>>
    decreases attempts.len(),
{
    if attempts.len() == 0 {
        all
    } else {
        let (asked, noted) = attempts.last();
        after_failure(
            after_check(
                after_attempts(all, ip, share_id, attempts.drop_last()),
                ip,
                share_id,
                asked,
            ),
            ip,
            share_id,
            noted,
        )
    }
}

/// Five wrong passwords within a minute of now stop every further attempt,
/// whatever went before them.
pub proof fn law_five_failures_stop_further_attempts(
    all: Map<(IpAddr, Seq<char>), Seq<u128>>,
    ip: IpAddr,
    share_id: Seq<char>,
    attempts: Seq<(u128, u128)>,
    now: u128,
)
    requires
        attempts.len() == MAX_FAILED_ATTEMPTS_PER_MINUTE,
        forall|i: int|
            0 <= i < attempts.len() ==> (#[trigger] attempts[i]).0 <= now && session::elapsed(
                now,
                attempts[i].1,
            ) < ATTEMPT_WINDOW,
    ensures
        rate_limited(after_attempts(all, ip, share_id, attempts), ip, share_id, now),
{
    let earlier = lemma_attempts_stay(all, ip, share_id, attempts, now);
    let tail = noted_times(attempts);
    let _ = lemma_young_tail_stays(earlier, tail, now);
}

/// When the failures were noted.
spec fn noted_times(attempts: Seq<(u128, u128)>) -> Seq<u128> {
    Seq::new(attempts.len(), |i: int| attempts[i].1)
}

/// Failures that still count now were not dropped by any check up to now: they
/// stand behind what is left of the earlier ones, which is returned.
proof fn lemma_attempts_stay(
    all: Map<(IpAddr, Seq<char>), Seq<u128>>,
    ip: IpAddr,
    share_id: Seq<char>,
    attempts: Seq<(u128, u128)>,
    now: u128,
) -> (earlier: Seq<u128>)
    requires
        forall|i: int|
            0 <= i < attempts.len() ==> (#[trigger] attempts[i]).0 <= now && session::elapsed(
                now,
                attempts[i].1,
            ) < ATTEMPT_WINDOW,
    ensures
        failures_of(after_attempts(all, ip, share_id, attempts), ip, share_id) == earlier
            + noted_times(attempts),
    decreases attempts.len(),
{
    if attempts.len() == 0 {
        let earlier = failures_of(all, ip, share_id);
        assert(earlier + noted_times(attempts) =~= earlier);
        earlier
    } else {
        let rest = attempts.drop_last();
        let (asked, noted) = attempts.last();
        assert forall|i: int| 0 <= i < rest.len() implies (#[trigger] rest[i]).0 <= now
            && session::elapsed(now, rest[i].1) < ATTEMPT_WINDOW by {
            assert(attempts[i] == rest[i]);
        }
        let before = lemma_attempts_stay(all, ip, share_id, rest, now);
        let tail = noted_times(rest);
        assert(attempts[attempts.len() - 1].0 <= now);
        assert forall|i: int| 0 <= i < tail.len() implies session::elapsed(asked, #[trigger] tail[i])
            < ATTEMPT_WINDOW by {
            assert(session::elapsed(now, rest[i].1) < ATTEMPT_WINDOW);
        }
        let earlier = lemma_young_tail_stays(before, tail, asked);
        assert(noted_times(attempts) =~= tail.push(noted));
        assert((earlier + tail).push(noted) =~= earlier + noted_times(attempts));
        earlier
    }
}

/// Failures that count are never dropped on account of those before them: they
/// stand behind what is left of those, which is returned.
proof fn lemma_young_tail_stays(before: Seq<u128>, tail: Seq<u128>, now: u128) -> (left: Seq<u128>)
    requires
        forall|i: int|
            0 <= i < tail.len() ==> session::elapsed(now, #[trigger] tail[i]) < ATTEMPT_WINDOW,
    ensures
        recent(before + tail, now) == left + tail,
    decreases before.len(),
{
    let s = before + tail;
    if before.len() == 0 {
        assert(s =~= tail);
        if tail.len() > 0 {
            assert(session::elapsed(now, tail[0]) < ATTEMPT_WINDOW);
        }
        assert(Seq::<u128>::empty() + tail =~= tail);
        Seq::empty()
    } else if session::elapsed(now, s[0]) >= ATTEMPT_WINDOW {
        assert(s.skip(1) =~= before.skip(1) + tail);
        lemma_young_tail_stays(before.skip(1), tail, now)
    } else {
        before
    }
}

/// Once the password was right, nothing is held against the address at the
/// share any more.
pub proof fn law_a_right_password_clears_the_failures(
    all: Map<(IpAddr, Seq<char>), Seq<u128>>,
    ip: IpAddr,
    share_id: Seq<char>,
    now: u128,
)
    ensures
        !rate_limited(after_success(all, ip, share_id), ip, share_id, now),
{
}

/// The failures of one address at one share say nothing about another
/// address, nor about another share.
pub proof fn law_limits_are_separate(
    all: Map<(IpAddr, Seq<char>), Seq<u128>>,
    ip: IpAddr,
    share_id: Seq<char>,
    other_ip: IpAddr,
    other_share: Seq<char>,
    now: u128,
    at: u128,
)
    requires
        (ip, share_id) != (other_ip, other_share),
    ensures
        rate_limited(after_failure(all, ip, share_id, now), other_ip, other_share, at)
            == rate_limited(all, other_ip, other_share, at),
        rate_limited(after_check(all, ip, share_id, now), other_ip, other_share, at)
            == rate_limited(all, other_ip, other_share, at),
        rate_limited(after_success(all, ip, share_id), other_ip, other_share, at)
            == rate_limited(all, other_ip, other_share, at),
{
}

/// Asking changes no later answer: at the time of asking, or after it, the
/// limit stands as if it had not been asked.
pub proof fn law_asking_does_not_lift_the_limit(
    all: Map<(IpAddr, Seq<char>), Seq<u128>>,
    ip: IpAddr,
    share_id: Seq<char>,
    now: u128,
    later: u128,
)
    requires
        now <= later,
    ensures
        rate_limited(after_check(all, ip, share_id, now), ip, share_id, later) == rate_limited(
            all,
            ip,
            share_id,
            later,
        ),
{
    lemma_recent_twice(failures_of(all, ip, share_id), now, later);
}

proof fn lemma_recent_twice(attempts: Seq<u128>, now: u128, later: u128)
    requires
        now <= later,
    ensures
        recent(recent(attempts, now), later) == recent(attempts, later),
    decreases attempts.len(),
{
    if attempts.len() > 0 && session::elapsed(now, attempts[0]) >= ATTEMPT_WINDOW {
        lemma_recent_twice(attempts.skip(1), now, later);
    }
}

} // verus!
