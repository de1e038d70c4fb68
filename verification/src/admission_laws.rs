//! What holds of all streams together, in whatever order they ask, are given
//! slots, are refused, give up and end.
//!
//! A semaphore gives out no more slots than it was made with. That is what the
//! steps below take from it; the rest follows from the order in which a stream
//! asks for its slots.
use vstd::prelude::*;

use crate::addr::IpAddr;
use crate::admission;
use crate::admission::{
    AdmissionEvent, AdmissionStage, CLIENT_REQUESTS, CLIENT_STREAMS, GLOBAL_STREAMS,
};

verus! {

/// A stream that waits for its slots or has them.
pub struct Call {
    pub ip: IpAddr,
    pub stage: AdmissionStage,
}

/// The stream holds one of its client's request slots.
pub open spec fn holds_request(call: Call) -> bool {
    call.stage != AdmissionStage::Request
}

/// The stream holds one of its client's stream slots.
pub open spec fn holds_stream(call: Call) -> bool {
    call.stage == AdmissionStage::Global || call.stage == AdmissionStage::Admitted
}

/// The stream holds one of the slots that all clients share.
pub open spec fn holds_shared(call: Call) -> bool {
    call.stage == AdmissionStage::Admitted
}

/// The streams of an address that hold a request slot.
pub open spec fn request_holders(calls: Map<int, Call>, ip: IpAddr) -> Set<int> {
    calls.dom().filter(|id: int| calls[id].ip == ip && holds_request(calls[id]))
}

/// The streams of an address that hold a stream slot.
pub open spec fn stream_holders(calls: Map<int, Call>, ip: IpAddr) -> Set<int> {
    calls.dom().filter(|id: int| calls[id].ip == ip && holds_stream(calls[id]))
}

/// The streams that hold a shared slot.
pub open spec fn shared_holders(calls: Map<int, Call>) -> Set<int> {
    calls.dom().filter(|id: int| holds_shared(calls[id]))
}

/// The slot that the stream asks for next is free.
pub open spec fn slot_free(calls: Map<int, Call>, id: int) -> bool {
    match calls[id].stage {
        AdmissionStage::Request => request_holders(calls, calls[id].ip).len() < CLIENT_REQUESTS,
        AdmissionStage::Stream => stream_holders(calls, calls[id].ip).len() < CLIENT_STREAMS,
        AdmissionStage::Global => shared_holders(calls).len() < GLOBAL_STREAMS,
        AdmissionStage::Admitted => false,
    }
}

/// The event can happen to the stream. A slot is granted only where one is
/// free. A request slot is not waited for: it is refused where none is free.
pub open spec fn can_happen(calls: Map<int, Call>, id: int, event: AdmissionEvent) -> bool {
    &&& calls.contains_key(id)
    &&& calls[id].stage != AdmissionStage::Admitted
    &&& event == AdmissionEvent::Granted ==> slot_free(calls, id)
    &&& calls[id].stage == AdmissionStage::Request ==> event == (if slot_free(calls, id) {
        AdmissionEvent::Granted
    } else {
        AdmissionEvent::Refused
    })
}

/// The streams once the event has happened: a stream that is told an error is
/// gone, and its slots with it.
pub open spec fn after_event(calls: Map<int, Call>, id: int, event: AdmissionEvent) -> Map<
    int,
    Call,
> {
    match admission::stage_after(calls[id].stage, event) {
        Ok(stage) => calls.insert(id, Call { ip: calls[id].ip, stage }),
        Err(_) => calls.remove(id),
    }
}

/// One thing that can happen.
pub enum Step {
    /// A stream of an address begins to ask for slots.
    Arrive { id: int, ip: IpAddr },
    /// What a stream asked or waited for is answered.
    Answer { id: int, event: AdmissionEvent },
    /// A stream ends, or gives up waiting.
    Leave { id: int },
}

/// The step leads from one state to the other.
pub open spec fn steps_to(before: Map<int, Call>, step: Step, after: Map<int, Call>) -> bool {
    match step {
        Step::Arrive { id, ip } => !before.contains_key(id) && after == before.insert(
            id,
            Call { ip, stage: AdmissionStage::Request },
        ),
        Step::Answer { id, event } => can_happen(before, id, event) && after == after_event(
            before,
            id,
            event,
        ),
        Step::Leave { id } => after == before.remove(id),
    }
}

/// Nobody has more slots than their due.
pub open spec fn within_limits(calls: Map<int, Call>) -> bool {
    &&& calls.dom().finite()
    &&& shared_holders(calls).len() <= GLOBAL_STREAMS
    &&& forall|ip: IpAddr| #[trigger] request_holders(calls, ip).len() <= CLIENT_REQUESTS
    &&& forall|ip: IpAddr| #[trigger] stream_holders(calls, ip).len() <= CLIENT_STREAMS
}

/// `after` has the members of `before`, and `id` besides at most.
proof fn lemma_one_more(before: Set<int>, after: Set<int>, id: int)
    requires
        before.finite(),
        after.subset_of(before.insert(id)),
    ensures
        after.len() <= before.len() + 1,
        after.subset_of(before) ==> after.len() <= before.len(),
{
    vstd::set_lib::lemma_len_subset(after, before.insert(id));
    if after.subset_of(before) {
        vstd::set_lib::lemma_len_subset(after, before);
    }
}

proof fn lemma_step_stays_within(before: Map<int, Call>, step: Step, after: Map<int, Call>)
    requires
        within_limits(before),
        steps_to(before, step, after),
    ensures
        within_limits(after),
{
    let id = match step {
        Step::Arrive { id, .. } => id,
        Step::Answer { id, .. } => id,
        Step::Leave { id } => id,
    };
    assert(after.dom().subset_of(before.dom().insert(id)));
    vstd::set_lib::lemma_len_subset(after.dom(), before.dom().insert(id));
    assert(forall|other: int| other != id && #[trigger] after.contains_key(other)
        ==> before.contains_key(other) && after[other] == before[other]);
    lemma_one_more(shared_holders(before), shared_holders(after), id);
    if !shared_holders(after).subset_of(shared_holders(before)) {
        assert(after.contains_key(id) && holds_shared(after[id]));
        assert(!(before.contains_key(id) && holds_shared(before[id])));
    }
    assert forall|ip: IpAddr| #[trigger] request_holders(after, ip).len() <= CLIENT_REQUESTS by {
        assert(request_holders(before, ip).len() <= CLIENT_REQUESTS);
        lemma_one_more(request_holders(before, ip), request_holders(after, ip), id);
        if !request_holders(after, ip).subset_of(request_holders(before, ip)) {
            assert(after.contains_key(id) && after[id].ip == ip && holds_request(after[id]));
        }
    }
    assert forall|ip: IpAddr| #[trigger] stream_holders(after, ip).len() <= CLIENT_STREAMS by {
        assert(stream_holders(before, ip).len() <= CLIENT_STREAMS);
        lemma_one_more(stream_holders(before, ip), stream_holders(after, ip), id);
        if !stream_holders(after, ip).subset_of(stream_holders(before, ip)) {
            assert(after.contains_key(id) && after[id].ip == ip && holds_stream(after[id]));
        }
    }
}

/// At every moment an address has at most four streams and sixteen requests,
/// and all addresses together have at most sixteen streams, in whatever order
/// streams arrive, are answered and leave.
pub proof fn law_slots_are_never_exceeded(states: Seq<Map<int, Call>>, steps: Seq<Step>)
    requires
        states.len() == steps.len() + 1,
        states[0] == Map::<int, Call>::empty(),
        forall|k: int|
            0 <= k < steps.len() ==> steps_to(states[k], #[trigger] steps[k], states[k + 1]),
    ensures
        forall|k: int| 0 <= k < states.len() ==> within_limits(#[trigger] states[k]),
    decreases steps.len(),
{
    if steps.len() == 0 {
        let none = Map::<int, Call>::empty();
        assert(shared_holders(none) =~= Set::<int>::empty());
        assert forall|ip: IpAddr| #[trigger] request_holders(none, ip).len() <= CLIENT_REQUESTS by {
            assert(request_holders(none, ip) =~= Set::<int>::empty());
        }
        assert forall|ip: IpAddr| #[trigger] stream_holders(none, ip).len() <= CLIENT_STREAMS by {
            assert(stream_holders(none, ip) =~= Set::<int>::empty());
        }
    } else {
        let n = steps.len() - 1;
        assert forall|k: int| 0 <= k < n implies steps_to(
            states.drop_last()[k],
            #[trigger] steps.drop_last()[k],
            states.drop_last()[k + 1],
        ) by {
            assert(steps.drop_last()[k] == steps[k]);
        }
        law_slots_are_never_exceeded(states.drop_last(), steps.drop_last());
        assert(within_limits(states.drop_last()[n]));
        assert(steps_to(states[n], steps[n], states[n + 1]));
        lemma_step_stays_within(states[n], steps[n], states[n + 1]);
        assert forall|k: int| 0 <= k < states.len() implies within_limits(#[trigger] states[k]) by {
            if k <= n {
                assert(states.drop_last()[k] == states[k]);
            }
        }
    }
}

/// Where sixteen streams of an address have its slots or wait for them, a
/// further one is refused, and at once: nothing else can happen to it.
pub proof fn law_a_full_client_is_refused_at_once(
    calls: Map<int, Call>,
    id: int,
    event: AdmissionEvent,
)
    requires
        can_happen(calls, id, event),
        calls[id].stage == AdmissionStage::Request,
        request_holders(calls, calls[id].ip).len() >= CLIENT_REQUESTS,
    ensures
        admission::stage_after(calls[id].stage, event) == Err::<AdmissionStage, Seq<char>>(
            "too many pending requests from this client"@,
        ),
        after_event(calls, id, event) == calls.remove(id),
{
}

/// A stream that is told an error leaves no slot taken: those that are held
/// then are the slots of the other streams, as before.
pub proof fn law_an_error_gives_the_slots_back(
    calls: Map<int, Call>,
    id: int,
    event: AdmissionEvent,
    ip: IpAddr,
)
    requires
        can_happen(calls, id, event),
        admission::stage_after(calls[id].stage, event) is Err,
    ensures
        ({
            let after = after_event(calls, id, event);
            &&& request_holders(after, ip) == request_holders(calls, ip).remove(id)
            &&& stream_holders(after, ip) == stream_holders(calls, ip).remove(id)
            &&& shared_holders(after) == shared_holders(calls).remove(id)
        }),
{
    let after = after_event(calls, id, event);
    assert(request_holders(after, ip) =~= request_holders(calls, ip).remove(id));
    assert(stream_holders(after, ip) =~= stream_holders(calls, ip).remove(id));
    assert(shared_holders(after) =~= shared_holders(calls).remove(id));
}

/// A stream that waits for a slot of its own client holds no shared slot.
pub proof fn law_a_waiting_client_holds_no_shared_slot(calls: Map<int, Call>, id: int)
    requires
        calls.contains_key(id),
        calls[id].stage == AdmissionStage::Request || calls[id].stage == AdmissionStage::Stream,
    ensures
        !shared_holders(calls).contains(id),
{
}

} // verus!
