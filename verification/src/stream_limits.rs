//! How many files are sent at one time.
use std::sync::Arc;
use tokio::sync::Semaphore;
use vstd::prelude::*;

use crate::addr::IpAddr;
use crate::admission;
use crate::admission::new_semaphore;
use crate::vec_map::VecMap;

verus! {

/// The files that are sent at one time.
pub const MAX_CONCURRENT_STREAMS: usize = 16;

/// The files that are sent to one address at one time.
pub const MAX_CONCURRENT_STREAMS_PER_IP: usize = 4;

/// The slots that a file being sent holds: one of all, and one of its address.
pub struct StreamLimits {
    all: Arc<Semaphore>,
    clients: VecMap<IpAddr, Arc<Semaphore>>,
}

impl View for StreamLimits {
    type V = Map<IpAddr, Arc<Semaphore>>;

    closed spec fn view(&self) -> Map<IpAddr, Arc<Semaphore>> {
        self.clients@
    }
}

impl StreamLimits {
    /// Everyone has their number of slots.
    pub closed spec fn wf(&self) -> bool {
        &&& self.clients.wf()
        &&& admission::semaphore_limit(*self.all) == MAX_CONCURRENT_STREAMS
        &&& forall|a: IpAddr| #[trigger]
            self.clients@.contains_key(a) ==> admission::semaphore_limit(*self.clients@[a])
                == MAX_CONCURRENT_STREAMS_PER_IP
    }

    /// The slots of all addresses together.
    pub closed spec fn shared_slots(&self) -> Semaphore {
        *self.all
    }

    pub fn new() -> (result: Self)
        ensures
            result.wf(),
            result@ == Map::<IpAddr, Arc<Semaphore>>::empty(),
    {
        StreamLimits {
            all: Arc::new(new_semaphore(MAX_CONCURRENT_STREAMS)),
            clients: VecMap::new(),
        }
    }

    /// The slots of all addresses together.
    pub fn shared(&self) -> (result: Arc<Semaphore>)
        requires
            self.wf(),
        ensures
            *result == self.shared_slots(),
            admission::semaphore_limit(*result) == MAX_CONCURRENT_STREAMS,
            admission::semaphore_limit(*result) == 16,
    {
        self.all.clone()
    }

    /// The slots of an address: the same ones whenever it asks.
    pub fn for_client(&mut self, ip: IpAddr) -> (result: Arc<Semaphore>)
        requires
            old(self).wf(),
        ensures
            final(self).wf(),
            final(self).shared_slots() == old(self).shared_slots(),
            final(self)@ == if old(self)@.contains_key(ip) {
                old(self)@
            } else {
                old(self)@.insert(ip, result)
            },
            final(self)@.contains_key(ip),
            result == final(self)@[ip],
            admission::semaphore_limit(*result) == MAX_CONCURRENT_STREAMS_PER_IP,
            admission::semaphore_limit(*result) == 4,
    {
        if let Some(limit) = self.clients.get(&ip) {
            return limit.clone();
        }
        let limit = Arc::new(new_semaphore(MAX_CONCURRENT_STREAMS_PER_IP));
        self.clients.insert(ip, limit.clone());
        limit
    }
}

/// Every address has its due number of slots, and no other.
pub proof fn law_addresses_have_their_slots(limits: StreamLimits, ip: IpAddr)
    requires
        limits.wf(),
        limits@.contains_key(ip),
    ensures
        admission::semaphore_limit(*limits@[ip]) == MAX_CONCURRENT_STREAMS_PER_IP,
{
}

/// Sixteen files are sent at one time, and four of them to one address.
pub proof fn law_how_many_files_are_sent(limits: StreamLimits, ip: IpAddr)
    requires
        limits.wf(),
    ensures
        admission::semaphore_limit(limits.shared_slots()) == 16,
        limits@.contains_key(ip) ==> admission::semaphore_limit(*limits@[ip]) == 4,
{
}

} // verus!
