//! Bounded, per-client admission of streams. Waiting for one client never
//! reserves a slot that other clients could use.
//!
//! Times are nanoseconds on one monotonic clock.
use std::sync::Arc;
use tokio::sync::Semaphore;
use vstd::prelude::*;

use crate::addr::IpAddr;
use crate::holders::{count_holders, HolderCount};
use crate::session;
use crate::vec_map::VecMap;

verus! {

/// The most clients that are remembered.
pub const CLIENT_CAPACITY: usize = 1024;

/// How long an unused client is remembered: five minutes.
pub const CLIENT_IDLE: u128 = 300_000_000_000;

/// How long a stream waits for its slots: five seconds.
pub const WAIT_TIMEOUT: u128 = 5_000_000_000;

/// The streams that all clients together can have.
pub const GLOBAL_STREAMS: usize = 16;

/// The streams that one client can have.
pub const CLIENT_STREAMS: usize = 4;

/// The requests that one client can have, the waiting ones included.
pub const CLIENT_REQUESTS: usize = 16;

/// `tokio::sync::Semaphore`, which hands out the slots.
#[verifier::external_type_specification]
#[verifier::external_body]
pub struct ExSemaphore(tokio::sync::Semaphore);

/// The number of slots that a semaphore was made with.
pub uninterp spec fn semaphore_limit(semaphore: tokio::sync::Semaphore) -> nat;

/// `Semaphore::new`: a semaphore with this many slots.
#[verifier::external_body]
pub(crate) fn new_semaphore(permits: usize) -> (result: Semaphore)
    requires
        permits <= usize::MAX / 8,
    ensures
        semaphore_limit(result) == permits,
{
    Semaphore::new(permits)
}

/// The slots of one client.
pub struct ClientLimit {
    pub streams: Arc<Semaphore>,
    pub requests: Arc<Semaphore>,
}

impl ClientLimit {
    /// The client has its number of slots.
    pub open spec fn sized(self) -> bool {
        &&& semaphore_limit(*self.streams) == CLIENT_STREAMS
        &&& semaphore_limit(*self.requests) == CLIENT_REQUESTS
    }
}

/// A remembered client.
pub struct Entry {
    pub limit: Arc<ClientLimit>,
    pub accessed: u128,
}

/// The clients and their slots.
pub struct StreamAdmission {
    global: Arc<Semaphore>,
    clients: VecMap<IpAddr, Entry>,
}

/// The addresses whose slots are held by something besides the registry, which
/// is one holder itself. `counts` gives the number of holders at an address.
pub open spec fn held(counts: Seq<(IpAddr, usize)>) -> Set<IpAddr> {
    Set::new(
        |a: IpAddr|
            exists|i: int|
                0 <= i < counts.len() && (#[trigger] counts[i]).0 == a && counts[i].1 > 1,
    )
}

/// The holders of each client's own slots are counted, once, and nothing else
/// is.
pub open spec fn counts_each(
    counts: Seq<(IpAddr, HolderCount)>,
    clients: Map<IpAddr, Entry>,
) -> bool {
    &&& forall|i: int, j: int|
        0 <= i < j < counts.len() ==> (#[trigger] counts[i]).0 != (#[trigger] counts[j]).0
    &&& forall|i: int|
        0 <= i < counts.len() ==> clients.contains_key((#[trigger] counts[i]).0)
            && counts[i].1.limit() == clients[counts[i].0].limit
    &&& forall|a: IpAddr| #[trigger]
        clients.contains_key(a) ==> exists|i: int|
            0 <= i < counts.len() && (#[trigger] counts[i]).0 == a
}

/// The numbers that were counted.
pub open spec fn numbers_of(counts: Seq<(IpAddr, HolderCount)>) -> Seq<(IpAddr, usize)> {
    Seq::new(counts.len(), |i: int| (counts[i].0, counts[i].1.holders()))
}

/// The clients that stay when room is made: those in use, and those seen
/// within the idle time.
pub open spec fn reclaimed(
    clients: Map<IpAddr, Entry>,
    busy: Set<IpAddr>,
    now: u128,
) -> Map<IpAddr, Entry> {
    Map::new(
        |a: IpAddr|
            clients.contains_key(a) && (busy.contains(a) || session::elapsed(
                now,
                clients[a].accessed,
            ) < CLIENT_IDLE),
        |a: IpAddr| clients[a],
    )
}

/// The client is not in use, and none that is not in use was seen before it.
pub open spec fn evictable(
    clients: Map<IpAddr, Entry>,
    busy: Set<IpAddr>,
    address: IpAddr,
) -> bool {
    &&& clients.contains_key(address)
    &&& !busy.contains(address)
    &&& forall|a: IpAddr| #[trigger]
        clients.contains_key(a) && !busy.contains(a) ==> clients[address].accessed
            <= clients[a].accessed
}

/// What asking for a client's slots does, and what it returns; `busy` are the
/// clients whose slots something holds.
pub open spec fn admitted(
    before: Map<IpAddr, Entry>,
    after: Map<IpAddr, Entry>,
    result: Result<Arc<ClientLimit>, &'static str>,
    ip: IpAddr,
    now: u128,
    busy: Set<IpAddr>,
) -> bool {
    let kept = reclaimed(before, busy, now);
    if before.contains_key(ip) {
        &&& result == Ok::<Arc<ClientLimit>, &'static str>(before[ip].limit)
        &&& after == before.insert(ip, Entry { limit: before[ip].limit, accessed: now })
    } else if kept.len() < CLIENT_CAPACITY {
        &&& result is Ok
        &&& result->Ok_0.sized()
        &&& after == kept.insert(ip, Entry { limit: result->Ok_0, accessed: now })
    } else if exists|a: IpAddr| #[trigger] kept.contains_key(a) && !busy.contains(a) {
        &&& result is Ok
        &&& result->Ok_0.sized()
        &&& exists|old: IpAddr| #[trigger]
            evictable(kept, busy, old) && after == kept.remove(old).insert(
                ip,
                Entry { limit: result->Ok_0, accessed: now },
            )
    } else {
        &&& result is Err
        &&& result->Err_0@ == "too many active clients; try again later"@
        &&& after == kept
    }
}

impl View for StreamAdmission {
    type V = Map<IpAddr, Entry>;

    closed spec fn view(&self) -> Map<IpAddr, Entry> {
        self.clients@
    }
}

impl Default for StreamAdmission {
    fn default() -> (result: Self)
        ensures
            result.wf(),
            result@ == Map::<IpAddr, Entry>::empty(),
    {
        StreamAdmission {
            global: Arc::new(new_semaphore(GLOBAL_STREAMS)),
            clients: VecMap::new(),
        }
    }
}

fn holds(addresses: &Vec<IpAddr>, address: IpAddr) -> (result: bool)
    ensures
        result == addresses@.to_set().contains(address),
{
    let mut i: usize = 0;
    while i < addresses.len()
        invariant
            i <= addresses@.len(),
            forall|j: int| 0 <= j < i ==> addresses@[j] != address,
        decreases addresses@.len() - i,
    {
        if addresses[i] == address {
            assert(addresses@.contains(address));
            return true;
        }
        i += 1;
    }
    assert(!addresses@.contains(address));
    false
}

impl StreamAdmission {
    /// There are at most `CLIENT_CAPACITY` clients, and everyone has their
    /// number of slots.
    pub closed spec fn wf(&self) -> bool {
        &&& self.sound()
        &&& self.clients@.len() <= CLIENT_CAPACITY
    }

    /// The slots that all clients share.
    pub closed spec fn shared_slots(&self) -> Semaphore {
        *self.global
    }

    spec fn sound(&self) -> bool {
        &&& self.clients.wf()
        &&& semaphore_limit(*self.global) == GLOBAL_STREAMS
        &&& forall|a: IpAddr| #[trigger]
            self.clients@.contains_key(a) ==> self.clients@[a].limit.sized()
    }

    /// The registry is bounded, and no remembered client has more or fewer
    /// slots than its due.
    pub proof fn law_clients_are_bounded(&self)
        requires
            self.wf(),
        ensures
            self@.dom().finite(),
            self@.len() <= CLIENT_CAPACITY,
            forall|a: IpAddr| #[trigger] self@.contains_key(a) ==> self@[a].limit.sized(),
    {
        self.clients.lemma_view();
    }

    /// All clients share sixteen slots. Each has four for files and sixteen for
    /// requests. A request waits for five seconds.
    pub proof fn law_how_many_slots_there_are(&self, ip: IpAddr)
        requires
            self.wf(),
        ensures
            semaphore_limit(self.shared_slots()) == 16,
            self@.contains_key(ip) ==> semaphore_limit(*self@[ip].limit.streams) == 4
                && semaphore_limit(*self@[ip].limit.requests) == 16,
            self@.len() <= 1024,
            WAIT_TIMEOUT == 5 * 1_000_000_000,
    {
        self.clients.lemma_view();
    }

    /// The slots that all clients share.
    pub fn global(&self) -> (result: Arc<Semaphore>)
        requires
            self.wf(),
        ensures
            *result == self.shared_slots(),
            semaphore_limit(*result) == GLOBAL_STREAMS,
            semaphore_limit(*result) == 16,
    {
        self.global.clone()
    }

    /// The number of remembered clients.
    pub fn client_count(&self) -> (result: usize)
        requires
            self.wf(),
        ensures
            result == self@.len(),
    {
        self.clients.len()
    }

    /// Whether the client is remembered.
    pub fn remembers(&self, ip: IpAddr) -> (result: bool)
        requires
            self.wf(),
        ensures
            result == self@.contains_key(ip),
    {
        self.clients.contains(&ip)
    }

    fn reclaim(&mut self, now: u128, busy: &Vec<IpAddr>)
        requires
            old(self).wf(),
        ensures
            final(self).wf(),
            final(self).shared_slots() == old(self).shared_slots(),
            final(self)@ == reclaimed(old(self)@, busy@.to_set(), now),
    {
        let mut flags: Vec<bool> = Vec::new();
        let count: usize = self.clients.len();
        let ghost names = self.clients.keys();
        let mut i: usize = 0;
        while i < count
            invariant
                *self == *old(self),
                self.wf(),
                names == self.clients.keys(),
                count == names.len(),
                i <= count,
                flags@.len() == i,
                forall|j: int|
                    0 <= j < i ==> #[trigger] flags@[j] == (busy@.to_set().contains(names[j])
                        || session::elapsed(now, self@[names[j]].accessed) < CLIENT_IDLE),
            decreases count - i,
        {
            let accessed: u128 = self.clients.value_at(i).accessed;
            let idle: u128 = if now >= accessed {
                now - accessed
            } else {
                0
            };
            let address = *self.clients.key_at(i);
            flags.push(holds(busy, address) || idle < CLIENT_IDLE);
            i += 1;
        }
        let ghost before = *self;
        self.clients.keep(&flags);
        proof {
            before.clients.lemma_view();
            let wanted = reclaimed(before@, busy@.to_set(), now);
            assert forall|a: IpAddr| #[trigger] self@.contains_key(a) <==> wanted.contains_key(a) by {
                if wanted.contains_key(a) {
                    assert(names.contains(a));
                    let p = choose|p: int| 0 <= p < names.len() && names[p] == a;
                    assert(flags@[p]);
                }
                if self.clients@.contains_key(a) {
                    let p = choose|p: int| 0 <= p < names.len() && #[trigger] names[p] == a && flags@[p];
                    assert(flags@[p]);
                }
            }
            assert(self@ =~= wanted);
            self.clients.lemma_view();
            assert(self.clients@.dom().subset_of(before.clients@.dom()));
            vstd::set_lib::lemma_len_subset(self.clients@.dom(), before.clients@.dom());
        }
    }

    /// The client that can be forgotten.
    fn oldest_idle(&self, busy: &Vec<IpAddr>) -> (result: Option<IpAddr>)
        requires
            self.wf(),
        ensures
            match result {
                Some(address) => evictable(self@, busy@.to_set(), address),
                None => forall|a: IpAddr| #[trigger]
                    self@.contains_key(a) ==> busy@.to_set().contains(a),
            },
    {
        let count: usize = self.clients.len();
        let ghost names = self.clients.keys();
        proof {
            self.clients.lemma_view();
        }
        let mut best: Option<IpAddr> = None;
        let mut best_time: u128 = 0;
        let mut i: usize = 0;
        while i < count
            invariant
                self.wf(),
                names == self.clients.keys(),
                count == names.len(),
                i <= count,
                match best {
                    Some(address) => {
                        &&& self@.contains_key(address)
                        &&& !busy@.to_set().contains(address)
                        &&& best_time == self@[address].accessed
                        &&& forall|j: int|
                            0 <= j < i && !busy@.to_set().contains(#[trigger] names[j])
                                ==> best_time <= self@[names[j]].accessed
                    },
                    None => forall|j: int|
                        0 <= j < i ==> busy@.to_set().contains(#[trigger] names[j]),
                },
            decreases count - i,
        {
            let address = *self.clients.key_at(i);
            let accessed: u128 = self.clients.value_at(i).accessed;
            if !holds(busy, address) {
                let better = match best {
                    Some(_) => accessed < best_time,
                    None => true,
                };
                if better {
                    best = Some(address);
                    best_time = accessed;
                }
            }
            i += 1;
        }
        proof {
            assert forall|a: IpAddr| #[trigger] self@.contains_key(a) implies exists|p: int|
                0 <= p < names.len() && #[trigger] names[p] == a by {
                assert(names.contains(a));
            }
        }
        best
    }

    /// The slots of a client, made where it is not remembered. `busy` are the
    /// clients whose slots something holds.
    fn client_among(
        &mut self,
        ip: IpAddr,
        now: u128,
        busy: &Vec<IpAddr>,
    ) -> (result: Result<Arc<ClientLimit>, &'static str>)
        requires
            old(self).wf(),
        ensures
            final(self).wf(),
            final(self).shared_slots() == old(self).shared_slots(),
            admitted(old(self)@, final(self)@, result, ip, now, busy@.to_set()),
    {
        if let Some(at) = self.clients.find(&ip) {
            let ghost before = *self;
            let entry = self.clients.value_at_mut(at);
            entry.accessed = now;
            let limit = entry.limit.clone();
            proof {
                before.clients.lemma_view();
                assert(self.clients@.dom() =~= before.clients@.dom());
            }
            return Ok(limit);
        }
        self.reclaim(now, busy);
        let ghost kept = *self;
        proof {
            kept.clients.lemma_view();
        }
        if self.clients.len() >= CLIENT_CAPACITY {
            match self.oldest_idle(busy) {
                Some(old) => {
                    let _ = self.clients.remove(&old);
                    assert(evictable(kept@, busy@.to_set(), old));
                    assert(self@ == kept@.remove(old));
                },
                None => {
                    return Err("too many active clients; try again later");
                },
            }
        }
        let ghost mid = *self;
        proof {
            mid.clients.lemma_view();
        }
        let limit = Arc::new(
            ClientLimit {
                streams: Arc::new(new_semaphore(CLIENT_STREAMS)),
                requests: Arc::new(new_semaphore(CLIENT_REQUESTS)),
            },
        );
        self.clients.insert(ip, Entry { limit: limit.clone(), accessed: now });
        proof {
            self.clients.lemma_view();
            assert(self.clients@.dom() =~= mid.clients@.dom().insert(ip));
        }
        Ok(limit)
    }

    /// The slots of a client, made where it is not remembered. `counts` gives,
    /// for each client, how many hold its slots, the registry included: a client
    /// is in use where there is another holder.
    pub fn client_counted(
        &mut self,
        ip: IpAddr,
        now: u128,
        counts: &Vec<(IpAddr, usize)>,
    ) -> (result: Result<Arc<ClientLimit>, &'static str>)
        requires
            old(self).wf(),
        ensures
            final(self).wf(),
            final(self).shared_slots() == old(self).shared_slots(),
            admitted(old(self)@, final(self)@, result, ip, now, held(counts@)),
    {
        let mut busy: Vec<IpAddr> = Vec::new();
        let mut i: usize = 0;
        while i < counts.len()
            invariant
                i <= counts@.len(),
                forall|a: IpAddr| #[trigger]
                    busy@.contains(a) <==> held(counts@.take(i as int)).contains(a),
            decreases counts@.len() - i,
        {
            let (address, count) = counts[i];
            let ghost had = busy@;
            let ghost less = counts@.take(i as int);
            let ghost more = counts@.take(i + 1);
            if count > 1 {
                busy.push(address);
            }
            proof {
                assert(more =~= less.push(counts@[i as int]));
                assert forall|a: IpAddr| #[trigger] busy@.contains(a) <==> held(more).contains(a) by {
                    assert(had.contains(a) <==> held(less).contains(a));
                    if held(less).contains(a) {
                        let k = choose|k: int|
                            0 <= k < less.len() && (#[trigger] less[k]).0 == a && less[k].1 > 1;
                        assert(more[k] == less[k]);
                        let p = choose|p: int| 0 <= p < had.len() && had[p] == a;
                        assert(busy@[p] == a);
                    }
                    if held(more).contains(a) {
                        let k = choose|k: int|
                            0 <= k < more.len() && (#[trigger] more[k]).0 == a && more[k].1 > 1;
                        if k < i {
                            assert(less[k] == more[k]);
                        } else {
                            assert(busy@.last() == a);
                        }
                    }
                    if busy@.contains(a) && !had.contains(a) {
                        assert(more[i as int] == (address, count));
                        assert(a == address);
                    }
                }
            }
            i += 1;
        }
        assert(counts@.take(i as int) =~= counts@);
        assert(busy@.to_set() =~= held(counts@));
        self.client_among(ip, now, &busy)
    }

    /// How many hold the slots of each client.
    fn holder_counts(&self) -> (result: Vec<(IpAddr, HolderCount)>)
        requires
            self.wf(),
        ensures
            counts_each(result@, self@),
    {
        let mut counts: Vec<(IpAddr, HolderCount)> = Vec::new();
        let count: usize = self.clients.len();
        let ghost names = self.clients.keys();
        let mut i: usize = 0;
        while i < count
            invariant
                self.wf(),
                names == self.clients.keys(),
                count == names.len(),
                i <= count,
                counts@.len() == i,
                forall|j: int|
                    0 <= j < i ==> (#[trigger] counts@[j]).0 == names[j]
                        && counts@[j].1.limit() == self@[names[j]].limit,
            decreases count - i,
        {
            let counted = count_holders(&self.clients.value_at(i).limit);
            counts.push((*self.clients.key_at(i), counted));
            i += 1;
        }
        proof {
            self.clients.lemma_view();
            assert forall|a: IpAddr| #[trigger] self@.contains_key(a) implies exists|k: int|
                0 <= k < counts@.len() && (#[trigger] counts@[k]).0 == a by {
                assert(names.contains(a));
                let k = choose|k: int| 0 <= k < names.len() && names[k] == a;
                assert(counts@[k].0 == a);
            }
            assert forall|k: int| 0 <= k < counts@.len() implies self@.contains_key(
                (#[trigger] counts@[k]).0,
            ) && counts@[k].1.limit() == self@[counts@[k].0].limit by {
                assert(names.contains(names[k]));
            }
        }
        counts
    }

    /// The slots of a client, made where it is not remembered. How many hold the
    /// slots of each client is counted as the call is made, where that decides
    /// anything.
    pub fn client(&mut self, ip: IpAddr, now: u128) -> (result: Result<
        Arc<ClientLimit>,
        &'static str,
    >)
        requires
            old(self).wf(),
        ensures
            final(self).wf(),
            final(self).shared_slots() == old(self).shared_slots(),
            exists|counts: Seq<(IpAddr, HolderCount)>|
                (old(self)@.contains_key(ip) || counts_each(counts, old(self)@))
                    && #[trigger] admitted(
                    old(self)@,
                    final(self)@,
                    result,
                    ip,
                    now,
                    held(numbers_of(counts)),
                ),
    {
        let counts = if self.clients.contains(&ip) {
            Vec::new()
        } else {
            self.holder_counts()
        };
        let mut numbers: Vec<(IpAddr, usize)> = Vec::new();
        let mut i: usize = 0;
        while i < counts.len()
            invariant
                i <= counts@.len(),
                numbers@ == numbers_of(counts@.take(i as int)),
            decreases counts@.len() - i,
        {
            numbers.push((counts[i].0, counts[i].1.number()));
            assert(numbers@ =~= numbers_of(counts@.take(i + 1)));
            i += 1;
        }
        assert(counts@.take(i as int) =~= counts@);
        self.client_counted(ip, now, &numbers)
    }
}

/// How far a stream has come towards its slots.
#[derive(Debug, Clone, Copy, PartialEq, Eq, Structural)]
pub enum AdmissionStage {
    /// It asks for one of the client's request slots, without waiting.
    Request,
    /// It waits for one of the client's stream slots.
    Stream,
    /// It waits for one of the slots that all clients share.
    Global,
    /// It has all three.
    Admitted,
}

/// What became of the slot that a stream asked or waited for.
#[derive(Debug, Clone, Copy, PartialEq, Eq, Structural)]
pub enum AdmissionEvent {
    Granted,
    Refused,
    TimedOut,
}

/// The stage after an event; an error is what the client is told.
pub open spec fn stage_after(
    stage: AdmissionStage,
    event: AdmissionEvent,
) -> Result<AdmissionStage, Seq<char>> {
    match (stage, event) {
        (AdmissionStage::Admitted, _) => Ok(AdmissionStage::Admitted),
        (_, AdmissionEvent::TimedOut) => Err("download queue timed out; try again later"@),
        (AdmissionStage::Request, AdmissionEvent::Refused) => Err(
            "too many pending requests from this client"@,
        ),
        (_, AdmissionEvent::Refused) => Err("gateway stopped"@),
        (AdmissionStage::Request, AdmissionEvent::Granted) => Ok(AdmissionStage::Stream),
        (AdmissionStage::Stream, AdmissionEvent::Granted) => Ok(AdmissionStage::Global),
        (AdmissionStage::Global, AdmissionEvent::Granted) => Ok(AdmissionStage::Admitted),
    }
}

/// The stage after an event.
pub fn advance(stage: AdmissionStage, event: AdmissionEvent) -> (result: Result<
    AdmissionStage,
    &'static str,
>)
    ensures
        match result {
            Ok(next) => stage_after(stage, event) == Ok::<AdmissionStage, Seq<char>>(next),
            Err(message) => stage_after(stage, event) == Err::<AdmissionStage, Seq<char>>(
                message@,
            ),
        },
{
    match stage {
        AdmissionStage::Admitted => Ok(AdmissionStage::Admitted),
        AdmissionStage::Request => match event {
            AdmissionEvent::Granted => Ok(AdmissionStage::Stream),
            AdmissionEvent::Refused => Err("too many pending requests from this client"),
            AdmissionEvent::TimedOut => Err("download queue timed out; try again later"),
        },
        AdmissionStage::Stream => match event {
            AdmissionEvent::Granted => Ok(AdmissionStage::Global),
            AdmissionEvent::Refused => Err("gateway stopped"),
            AdmissionEvent::TimedOut => Err("download queue timed out; try again later"),
        },
        AdmissionStage::Global => match event {
            AdmissionEvent::Granted => Ok(AdmissionStage::Admitted),
            AdmissionEvent::Refused => Err("gateway stopped"),
            AdmissionEvent::TimedOut => Err("download queue timed out; try again later"),
        },
    }
}

/// What a stream does next.
pub enum SlotAction {
    /// It takes one of these slots, or is refused where none is free.
    Take(Arc<Semaphore>),
    /// It waits for one of these slots.
    Await(Arc<Semaphore>),
    /// It has its slots and begins.
    Begin,
}

/// What a stream does at a stage: it takes one of its client's request slots,
/// waits for one of its client's stream slots, and then for one of those that
/// all clients share.
pub open spec fn action_at(
    stage: AdmissionStage,
    client: ClientLimit,
    shared: Arc<Semaphore>,
) -> SlotAction {
    match stage {
        AdmissionStage::Request => SlotAction::Take(client.requests),
        AdmissionStage::Stream => SlotAction::Await(client.streams),
        AdmissionStage::Global => SlotAction::Await(shared),
        AdmissionStage::Admitted => SlotAction::Begin,
    }
}

/// What a stream does next.
pub fn slot_action(
    stage: AdmissionStage,
    client: &ClientLimit,
    shared: &Arc<Semaphore>,
) -> (result: SlotAction)
    ensures
        result == action_at(stage, *client, *shared),
{
    match stage {
        AdmissionStage::Request => SlotAction::Take(client.requests.clone()),
        AdmissionStage::Stream => SlotAction::Await(client.streams.clone()),
        AdmissionStage::Global => SlotAction::Await(shared.clone()),
        AdmissionStage::Admitted => SlotAction::Begin,
    }
}

/// The stage after a run of events; nothing follows an error.
pub open spec fn stage_after_all(
    stage: AdmissionStage,
    events: Seq<AdmissionEvent>,
) -> Result<AdmissionStage, Seq<char>>
    decreases events.len(),
{
    if events.len() == 0 {
        Ok(stage)
    } else {
        match stage_after_all(stage, events.drop_last()) {
            Ok(reached) => stage_after(reached, events.last()),
            Err(message) => Err(message),
        }
    }
}

/// A stream waits for a shared slot only once it holds its client's own slots:
/// after the request slot and the stream slot were granted, and nothing else
/// happened.
pub proof fn law_waiting_reserves_no_shared_slot(events: Seq<AdmissionEvent>)
    requires
        stage_after_all(AdmissionStage::Request, events)
            == Ok::<AdmissionStage, Seq<char>>(AdmissionStage::Global),
    ensures
        events == seq![AdmissionEvent::Granted, AdmissionEvent::Granted],
{
    lemma_stages(events);
}

/// A stream is admitted by three grants in a row, its client's own slots
/// first, and by nothing else.
pub proof fn law_admission_takes_three_grants(events: Seq<AdmissionEvent>)
    ensures
        stage_after_all(AdmissionStage::Request, events)
            == Ok::<AdmissionStage, Seq<char>>(AdmissionStage::Admitted) <==> events.len() >= 3
            && events[0] == AdmissionEvent::Granted && events[1] == AdmissionEvent::Granted
            && events[2] == AdmissionEvent::Granted,
{
    lemma_stages(events);
}

proof fn lemma_stages(events: Seq<AdmissionEvent>)
    ensures
        ({
            let reached = stage_after_all(AdmissionStage::Request, events);
            let g = AdmissionEvent::Granted;
            let n = events.len();
            &&& reached == Ok::<AdmissionStage, Seq<char>>(AdmissionStage::Request) <==> n == 0
            &&& reached == Ok::<AdmissionStage, Seq<char>>(AdmissionStage::Stream) <==> n == 1
                && events[0] == g
            &&& reached == Ok::<AdmissionStage, Seq<char>>(AdmissionStage::Global) <==> n == 2
                && events[0] == g && events[1] == g
            &&& reached == Ok::<AdmissionStage, Seq<char>>(AdmissionStage::Admitted) <==> n >= 3
                && events[0] == g && events[1] == g && events[2] == g
        }),
    decreases events.len(),
{
    if events.len() > 0 {
        lemma_stages(events.drop_last());
    }
}

/// A client whose slots something holds is never forgotten, and keeps them:
/// no second set of slots is made for it.
pub proof fn law_live_clients_keep_their_slots(
    before: Map<IpAddr, Entry>,
    after: Map<IpAddr, Entry>,
    result: Result<Arc<ClientLimit>, &'static str>,
    ip: IpAddr,
    now: u128,
    counts: Seq<(IpAddr, usize)>,
    live: IpAddr,
)
    requires
        admitted(before, after, result, ip, now, held(counts)),
        before.contains_key(live),
        held(counts).contains(live),
    ensures
        after.contains_key(live),
        after[live].limit == before[live].limit,
        ip == live ==> result == Ok::<Arc<ClientLimit>, &'static str>(before[live].limit),
{
    let kept = reclaimed(before, held(counts), now);
    assert(kept.contains_key(live) || before.contains_key(ip));
}

/// While something holds the slots of a client it has no others: whatever is
/// asked for in between, by whomever and whenever, the client is given the same
/// slots again.
pub proof fn law_an_address_has_one_set_of_slots(
    states: Seq<Map<IpAddr, Entry>>,
    results: Seq<Result<Arc<ClientLimit>, &'static str>>,
    ips: Seq<IpAddr>,
    times: Seq<u128>,
    counts: Seq<Seq<(IpAddr, usize)>>,
    live: IpAddr,
)
    requires
        states.len() == results.len() + 1,
        forall|k: int|
            0 <= k < results.len() ==> #[trigger] admitted(
                states[k],
                states[k + 1],
                results[k],
                ips[k],
                times[k],
                held(counts[k]),
            ) && (held(counts[k]).contains(live) || ips[k] == live),
        states[0].contains_key(live),
    ensures
        forall|k: int|
            0 <= k < states.len() ==> (#[trigger] states[k]).contains_key(live)
                && states[k][live].limit == states[0][live].limit,
        forall|k: int|
            0 <= k < results.len() && ips[k] == live ==> #[trigger] results[k] == Ok::<
                Arc<ClientLimit>,
                &'static str,
            >(states[0][live].limit),
    decreases results.len(),
{
    if results.len() > 0 {
        let n = results.len() - 1;
        assert forall|k: int| 0 <= k < n implies #[trigger] admitted(
            states.drop_last()[k],
            states.drop_last()[k + 1],
            results.drop_last()[k],
            ips[k],
            times[k],
            held(counts[k]),
        ) && (held(counts[k]).contains(live) || ips[k] == live) by {
            assert(admitted(
                states[k],
                states[k + 1],
                results[k],
                ips[k],
                times[k],
                held(counts[k]),
            ));
        }
        law_an_address_has_one_set_of_slots(
            states.drop_last(),
            results.drop_last(),
            ips,
            times,
            counts,
            live,
        );
        assert(states.drop_last()[n] == states[n]);
        assert(admitted(
            states[n],
            states[n + 1],
            results[n],
            ips[n],
            times[n],
            held(counts[n]),
        ));
        if held(counts[n]).contains(live) {
            law_live_clients_keep_their_slots(
                states[n],
                states[n + 1],
                results[n],
                ips[n],
                times[n],
                counts[n],
                live,
            );
        }
        assert forall|k: int| 0 <= k < states.len() implies (#[trigger] states[k]).contains_key(live)
            && states[k][live].limit == states[0][live].limit by {
            if k < states.len() - 1 {
                assert(states.drop_last()[k] == states[k]);
            }
        }
        assert forall|k: int| 0 <= k < results.len() && ips[k] == live implies #[trigger] results[k]
            == Ok::<Arc<ClientLimit>, &'static str>(states[0][live].limit) by {
            if k < n {
                assert(results.drop_last()[k] == results[k]);
            }
        }
    }
}

/// A client is refused only where the registry is full of others and the slots
/// of all of them are held, and then always; a refusal changes nothing.
pub proof fn law_refusals_mean_that_all_clients_are_held(
    before: Map<IpAddr, Entry>,
    after: Map<IpAddr, Entry>,
    result: Result<Arc<ClientLimit>, &'static str>,
    ip: IpAddr,
    now: u128,
    counts: Seq<(IpAddr, usize)>,
)
    requires
        admitted(before, after, result, ip, now, held(counts)),
        before.dom().finite(),
        before.len() <= CLIENT_CAPACITY,
    ensures
        result is Err <==> !before.contains_key(ip) && before.len() == CLIENT_CAPACITY && (forall|
            a: IpAddr,
        | #[trigger]
            before.contains_key(a) ==> held(counts).contains(a)),
        result is Err ==> after == before && result->Err_0@
            == "too many active clients; try again later"@,
{
    let kept = reclaimed(before, held(counts), now);
    assert(kept.dom().subset_of(before.dom()));
    vstd::set_lib::lemma_len_subset(kept.dom(), before.dom());
    if kept.len() >= CLIENT_CAPACITY {
        vstd::set_lib::lemma_subset_equality(kept.dom(), before.dom());
        assert(kept =~= before);
    }
    if !before.contains_key(ip) && before.len() == CLIENT_CAPACITY && (forall|a: IpAddr| #[trigger]
        before.contains_key(a) ==> held(counts).contains(a)) {
        assert(kept =~= before);
    }
}

/// A client that was idle for its time is forgotten when a new one comes,
/// unless its slots are held.
pub proof fn law_idle_clients_are_reclaimed(
    before: Map<IpAddr, Entry>,
    after: Map<IpAddr, Entry>,
    result: Result<Arc<ClientLimit>, &'static str>,
    ip: IpAddr,
    now: u128,
    counts: Seq<(IpAddr, usize)>,
    idle: IpAddr,
)
    requires
        admitted(before, after, result, ip, now, held(counts)),
        !before.contains_key(ip),
        before.contains_key(idle),
        !held(counts).contains(idle),
        session::elapsed(now, before[idle].accessed) >= CLIENT_IDLE,
    ensures
        !after.contains_key(idle),
{
}

/// A client that asks twice gets the same slots.
pub proof fn law_asking_again_gives_the_same_slots(
    before: Map<IpAddr, Entry>,
    between: Map<IpAddr, Entry>,
    after: Map<IpAddr, Entry>,
    first: Result<Arc<ClientLimit>, &'static str>,
    second: Result<Arc<ClientLimit>, &'static str>,
    ip: IpAddr,
    now: u128,
    later: u128,
    busy: Set<IpAddr>,
    busy_later: Set<IpAddr>,
)
    requires
        admitted(before, between, first, ip, now, busy),
        first is Ok,
        admitted(between, after, second, ip, later, busy_later),
    ensures
        second == first,
{
}

/// A client that is remembered is given the slots that it has, and is seen now;
/// nothing else changes.
pub proof fn law_a_known_client_is_given_its_slots(
    before: Map<IpAddr, Entry>,
    after: Map<IpAddr, Entry>,
    result: Result<Arc<ClientLimit>, &'static str>,
    ip: IpAddr,
    now: u128,
    busy: Set<IpAddr>,
    other: IpAddr,
)
    requires
        admitted(before, after, result, ip, now, busy),
        before.contains_key(ip),
        other != ip,
    ensures
        result == Ok::<Arc<ClientLimit>, &'static str>(before[ip].limit),
        after.contains_key(ip),
        after[ip].limit == before[ip].limit,
        after[ip].accessed == now,
        after.contains_key(other) == before.contains_key(other),
        before.contains_key(other) ==> after[other] == before[other],
{
}

/// A new client is given four stream slots and sixteen request slots of its own,
/// and is remembered with them from now on.
pub proof fn law_a_new_client_is_given_slots(
    before: Map<IpAddr, Entry>,
    after: Map<IpAddr, Entry>,
    result: Result<Arc<ClientLimit>, &'static str>,
    ip: IpAddr,
    now: u128,
    busy: Set<IpAddr>,
)
    requires
        admitted(before, after, result, ip, now, busy),
        !before.contains_key(ip),
        before.dom().finite(),
        before.len() < 1024 || result is Ok,
    ensures
        result is Ok,
        semaphore_limit(*result->Ok_0.streams) == 4,
        semaphore_limit(*result->Ok_0.requests) == 16,
        after.contains_key(ip),
        after[ip].limit == result->Ok_0,
        after[ip].accessed == now,
{
    let kept = reclaimed(before, busy, now);
    assert(kept.dom().subset_of(before.dom()));
    vstd::set_lib::lemma_len_subset(kept.dom(), before.dom());
}

/// While there is room, a new client drives out nobody who is in use or was seen
/// in the last five minutes; those who stay, stay as they were.
pub proof fn law_a_new_client_drives_out_nobody_while_there_is_room(
    before: Map<IpAddr, Entry>,
    after: Map<IpAddr, Entry>,
    result: Result<Arc<ClientLimit>, &'static str>,
    ip: IpAddr,
    now: u128,
    busy: Set<IpAddr>,
    other: IpAddr,
)
    requires
        admitted(before, after, result, ip, now, busy),
        !before.contains_key(ip),
        before.dom().finite(),
        before.len() < 1024,
        before.contains_key(other),
    ensures
        busy.contains(other) || now < before[other].accessed + 300_000_000_000 <==> after.contains_key(
            other,
        ),
        after.contains_key(other) ==> after[other] == before[other],
{
    let kept = reclaimed(before, busy, now);
    assert(kept.dom().subset_of(before.dom()));
    vstd::set_lib::lemma_len_subset(kept.dom(), before.dom());
}

/// A client that has to make room for another was in use by nobody, and was
/// seen no later than any other such client that stays; it is the only one.
pub proof fn law_the_client_that_makes_room(
    before: Map<IpAddr, Entry>,
    after: Map<IpAddr, Entry>,
    result: Result<Arc<ClientLimit>, &'static str>,
    ip: IpAddr,
    now: u128,
    busy: Set<IpAddr>,
    gone: IpAddr,
    other: IpAddr,
)
    requires
        admitted(before, after, result, ip, now, busy),
        !before.contains_key(ip),
        before.dom().finite(),
        before.contains_key(gone),
        now < before[gone].accessed + 300_000_000_000,
        !after.contains_key(gone),
        before.contains_key(other),
        other != gone,
        busy.contains(other) || now < before[other].accessed + 300_000_000_000,
    ensures
        before.len() >= 1024,
        !busy.contains(gone),
        after.contains_key(other),
        after[other] == before[other],
        !busy.contains(other) ==> before[gone].accessed <= before[other].accessed,
{
    let kept = reclaimed(before, busy, now);
    assert(kept.dom().subset_of(before.dom()));
    vstd::set_lib::lemma_len_subset(kept.dom(), before.dom());
    assert(kept.contains_key(gone));
    assert(kept.contains_key(other));
    if kept.len() >= CLIENT_CAPACITY {
        if exists|a: IpAddr| #[trigger] kept.contains_key(a) && !busy.contains(a) {
            let old = choose|old: IpAddr| #[trigger]
                evictable(kept, busy, old) && after == kept.remove(old).insert(
                    ip,
                    Entry { limit: result->Ok_0, accessed: now },
                );
            assert(old == gone);
        }
    }
}

/// One more count makes an address held where it is above one, and changes
/// nothing where it is not.
pub proof fn law_a_second_holder_makes_a_client_held(
    counts: Seq<(IpAddr, usize)>,
    ip: IpAddr,
    count: usize,
    a: IpAddr,
)
    ensures
        held(counts.push((ip, count))).contains(a) <==> held(counts).contains(a) || (a == ip
            && count >= 2),
        !held(Seq::empty()).contains(a),
{
    let more = counts.push((ip, count));
    if held(counts).contains(a) {
        let i = choose|i: int|
            0 <= i < counts.len() && (#[trigger] counts[i]).0 == a && counts[i].1 > 1;
        assert(more[i] == counts[i]);
    }
    if a == ip && count >= 2 {
        assert(more[counts.len() as int] == (ip, count));
    }
    if held(more).contains(a) {
        let i = choose|i: int| 0 <= i < more.len() && (#[trigger] more[i]).0 == a && more[i].1 > 1;
        if i < counts.len() {
            assert(counts[i] == more[i]);
        }
    }
}

/// What a stream is told that gets no slot: that its client asks for too much,
/// that the gateway stopped, or that it waited too long.
pub proof fn law_what_a_stream_is_told(stage: AdmissionStage)
    ensures
        stage_after(AdmissionStage::Request, AdmissionEvent::Refused) == Err::<
            AdmissionStage,
            Seq<char>,
        >("too many pending requests from this client"@),
        stage == AdmissionStage::Stream || stage == AdmissionStage::Global ==> stage_after(
            stage,
            AdmissionEvent::Refused,
        ) == Err::<AdmissionStage, Seq<char>>("gateway stopped"@),
        stage == AdmissionStage::Stream || stage == AdmissionStage::Global ==> stage_after(
            stage,
            AdmissionEvent::TimedOut,
        ) == Err::<AdmissionStage, Seq<char>>("download queue timed out; try again later"@),
        stage_after(AdmissionStage::Request, AdmissionEvent::Granted) == Ok::<
            AdmissionStage,
            Seq<char>,
        >(AdmissionStage::Stream),
        stage_after(AdmissionStage::Stream, AdmissionEvent::Granted) == Ok::<
            AdmissionStage,
            Seq<char>,
        >(AdmissionStage::Global),
        stage_after(AdmissionStage::Global, AdmissionEvent::Granted) == Ok::<
            AdmissionStage,
            Seq<char>,
        >(AdmissionStage::Admitted),
{
}

/// A stream asks for the slots of its own client first, without waiting for the
/// first of them, and for a shared one last.
pub proof fn law_which_slots_a_stream_asks_for(client: ClientLimit, shared: Arc<Semaphore>)
    ensures
        action_at(AdmissionStage::Request, client, shared) == SlotAction::Take(client.requests),
        action_at(AdmissionStage::Stream, client, shared) == SlotAction::Await(client.streams),
        action_at(AdmissionStage::Global, client, shared) == SlotAction::Await(shared),
        action_at(AdmissionStage::Admitted, client, shared) == SlotAction::Begin,
{
}

/// Whoever is still remembered, besides the client that asked, was remembered
/// before, with the same slots and the same time.
pub proof fn law_other_clients_stay_as_they_were(
    before: Map<IpAddr, Entry>,
    after: Map<IpAddr, Entry>,
    result: Result<Arc<ClientLimit>, &'static str>,
    ip: IpAddr,
    now: u128,
    busy: Set<IpAddr>,
    other: IpAddr,
)
    requires
        admitted(before, after, result, ip, now, busy),
        after.contains_key(other),
        other != ip,
    ensures
        before.contains_key(other),
        after[other].limit == before[other].limit,
        after[other].accessed == before[other].accessed,
{
}

/// A client that was seen in the last five minutes has to make room only where
/// every client is in use or was.
pub proof fn law_idle_clients_make_room_first(
    before: Map<IpAddr, Entry>,
    after: Map<IpAddr, Entry>,
    result: Result<Arc<ClientLimit>, &'static str>,
    ip: IpAddr,
    now: u128,
    busy: Set<IpAddr>,
    gone: IpAddr,
    other: IpAddr,
)
    requires
        admitted(before, after, result, ip, now, busy),
        before.dom().finite(),
        before.len() <= 1024,
        before.contains_key(gone),
        now < before[gone].accessed + 300_000_000_000,
        !after.contains_key(gone),
        before.contains_key(other),
    ensures
        busy.contains(other) || now < before[other].accessed + 300_000_000_000,
{
    let kept = reclaimed(before, busy, now);
    assert(kept.dom().subset_of(before.dom()));
    vstd::set_lib::lemma_len_subset(kept.dom(), before.dom());
    assert(kept.contains_key(gone));
    assert(kept.len() >= CLIENT_CAPACITY);
    vstd::set_lib::lemma_subset_equality(kept.dom(), before.dom());
    assert(kept.contains_key(other));
}

} // verus!
