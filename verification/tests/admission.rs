use std::sync::{Arc, Mutex};
use std::time::Duration;

use arcrelay_web_gateway::addr::{IpAddr, Ipv4Addr};
use arcrelay_web_gateway::admission::{
    advance, slot_action, AdmissionEvent, AdmissionStage, ClientLimit, SlotAction,
    StreamAdmission, CLIENT_CAPACITY, CLIENT_IDLE, WAIT_TIMEOUT,
};
use arcrelay_web_gateway::stream_limits::StreamLimits;
use tokio::sync::OwnedSemaphorePermit;

fn v4(a: u8, b: u8, c: u8, d: u8) -> IpAddr {
    IpAddr::V4(Ipv4Addr::new(a, b, c, d))
}

struct Permit {
    _client: Arc<ClientLimit>,
    _slots: Vec<OwnedSemaphorePermit>,
}

/// Takes the slots of a stream, one stage after the other.
async fn acquire(
    admission: &Mutex<StreamAdmission>,
    ip: IpAddr,
    timeout: Duration,
) -> Result<Permit, &'static str> {
    let client = admission.lock().unwrap().client(ip, 0)?;
    let global = admission.lock().unwrap().global();
    let mut slots = Vec::new();
    let mut stage = AdmissionStage::Request;
    loop {
        let event = match slot_action(stage, &client, &global) {
            SlotAction::Take(semaphore) => match semaphore.try_acquire_owned() {
                Ok(slot) => {
                    slots.push(slot);
                    AdmissionEvent::Granted
                }
                Err(_) => AdmissionEvent::Refused,
            },
            SlotAction::Await(semaphore) => {
                match tokio::time::timeout(timeout, semaphore.acquire_owned()).await {
                    Ok(Ok(slot)) => {
                        slots.push(slot);
                        AdmissionEvent::Granted
                    }
                    Ok(Err(_)) => AdmissionEvent::Refused,
                    Err(_) => AdmissionEvent::TimedOut,
                }
            }
            SlotAction::Begin => break,
        };
        stage = advance(stage, event)?;
    }
    Ok(Permit {
        _client: client,
        _slots: slots,
    })
}

fn block_on<F: std::future::Future>(future: F) -> F::Output {
    tokio::runtime::Builder::new_current_thread()
        .enable_time()
        .build()
        .unwrap()
        .block_on(future)
}

#[test]
fn admission_construction_requires_no_runtime() {
    let admission = StreamAdmission::default();
    assert_eq!(admission.global().available_permits(), 16);
}

#[test]
fn a_slow_client_cannot_reserve_other_clients_global_slots() {
    block_on(async {
        let admission = Arc::new(Mutex::new(StreamAdmission::default()));
        let first = v4(192, 168, 1, 2);
        let second = v4(192, 168, 1, 3);
        let patience = Duration::from_nanos(WAIT_TIMEOUT as u64);
        let mut active = Vec::new();
        for _ in 0..4 {
            active.push(acquire(&admission, first, patience).await.unwrap());
        }
        let mut waiting = Vec::new();
        for _ in 0..12 {
            let admission = admission.clone();
            waiting.push(tokio::spawn(async move {
                acquire(&admission, first, patience).await.map(|_| ())
            }));
        }
        tokio::task::yield_now().await;
        let other = acquire(&admission, second, Duration::from_millis(100))
            .await
            .unwrap();
        assert_eq!(admission.lock().unwrap().global().available_permits(), 11);
        for task in waiting {
            task.abort();
        }
        drop((active, other));
    });
}

#[test]
fn timed_out_waiters_release_their_request_slots() {
    block_on(async {
        let admission = Mutex::new(StreamAdmission::default());
        let ip = v4(192, 168, 1, 2);
        let patience = Duration::from_nanos(WAIT_TIMEOUT as u64);
        let mut permits = Vec::new();
        for _ in 0..4 {
            permits.push(acquire(&admission, ip, patience).await.unwrap());
        }
        assert!(acquire(&admission, ip, Duration::from_millis(1))
            .await
            .is_err());
        assert_eq!(
            admission
                .lock()
                .unwrap()
                .client(ip, 0)
                .unwrap()
                .requests
                .available_permits(),
            12
        );
        drop(permits);
        assert!(acquire(&admission, ip, patience).await.is_ok());
    });
}

#[test]
fn a_client_with_sixteen_requests_is_refused_at_once() {
    block_on(async {
        let admission = Arc::new(Mutex::new(StreamAdmission::default()));
        let ip = v4(192, 168, 1, 2);
        let patience = Duration::from_nanos(WAIT_TIMEOUT as u64);
        let mut active = Vec::new();
        for _ in 0..4 {
            active.push(acquire(&admission, ip, patience).await.unwrap());
        }
        let mut waiting = Vec::new();
        for _ in 0..12 {
            let admission = admission.clone();
            waiting.push(tokio::spawn(async move {
                acquire(&admission, ip, patience).await.map(|_| ())
            }));
        }
        tokio::task::yield_now().await;
        assert_eq!(
            acquire(&admission, ip, patience).await.err(),
            Some("too many pending requests from this client")
        );
        for task in waiting {
            task.abort();
        }
        drop(active);
    });
}

#[test]
fn client_registry_is_bounded_and_retains_live_clients() {
    let now = CLIENT_IDLE;
    let mut admission = StreamAdmission::default();
    let live_ip = v4(10, 0, 0, 1);
    let live = admission.client(live_ip, now).unwrap();
    for index in 2..CLIENT_CAPACITY + 20 {
        admission
            .client(v4(10, 0, (index / 256) as u8, (index % 256) as u8), now)
            .unwrap();
    }
    assert_eq!(admission.client_count(), CLIENT_CAPACITY);
    assert!(Arc::ptr_eq(&live, &admission.client(live_ip, now).unwrap()));
    let old_ip = v4(10, 0, 0, 2);
    admission.client(old_ip, now - CLIENT_IDLE).unwrap();
    admission.client(v4(192, 168, 1, 1), now).unwrap();
    assert!(!admission.remembers(old_ip));
    assert!(admission.remembers(live_ip));
}

#[test]
fn a_registry_of_busy_clients_takes_no_more() {
    let mut admission = StreamAdmission::default();
    let mut held = Vec::new();
    for index in 0..CLIENT_CAPACITY {
        held.push(
            admission
                .client(v4(10, 0, (index / 256) as u8, (index % 256) as u8), 7)
                .unwrap(),
        );
    }
    assert_eq!(
        admission.client(v4(192, 168, 1, 1), 8).err(),
        Some("too many active clients; try again later")
    );
    assert_eq!(admission.client_count(), CLIENT_CAPACITY);
    held.pop();
    assert!(admission.client(v4(192, 168, 1, 1), 8).is_ok());
    assert_eq!(admission.client_count(), CLIENT_CAPACITY);
    assert!(!admission.remembers(v4(10, 0, 3, 255)));
}

#[test]
fn a_client_is_in_use_where_there_is_another_holder() {
    let mut admission = StreamAdmission::default();
    let old = v4(10, 0, 0, 1);
    let busy = v4(10, 0, 0, 2);
    admission.client_counted(old, 0, &vec![]).unwrap();
    admission.client_counted(busy, 0, &vec![(old, 1)]).unwrap();
    let limit = admission
        .client_counted(v4(10, 0, 0, 3), CLIENT_IDLE, &vec![(old, 1), (busy, 2)])
        .unwrap();
    assert!(!admission.remembers(old));
    assert!(admission.remembers(busy));
    assert_eq!(limit.streams.available_permits(), 4);
    assert_eq!(limit.requests.available_permits(), 16);
}

#[test]
fn a_held_client_outlives_its_idle_time() {
    let mut admission = StreamAdmission::default();
    let held = admission.client(v4(10, 0, 0, 1), 0).unwrap();
    admission.client(v4(10, 0, 0, 2), 0).unwrap();
    for step in 1..4u128 {
        admission
            .client(v4(10, 0, 1, step as u8), step * CLIENT_IDLE)
            .unwrap();
    }
    assert!(!admission.remembers(v4(10, 0, 0, 2)));
    let again = admission.client(v4(10, 0, 0, 1), 9 * CLIENT_IDLE).unwrap();
    assert!(Arc::ptr_eq(&held, &again));
}

#[test]
fn slots_are_taken_in_their_order() {
    let granted = AdmissionEvent::Granted;
    assert_eq!(
        advance(AdmissionStage::Request, granted),
        Ok(AdmissionStage::Stream)
    );
    assert_eq!(
        advance(AdmissionStage::Stream, granted),
        Ok(AdmissionStage::Global)
    );
    assert_eq!(
        advance(AdmissionStage::Global, granted),
        Ok(AdmissionStage::Admitted)
    );
    assert_eq!(
        advance(AdmissionStage::Request, AdmissionEvent::Refused),
        Err("too many pending requests from this client")
    );
    assert_eq!(
        advance(AdmissionStage::Stream, AdmissionEvent::Refused),
        Err("gateway stopped")
    );
    assert_eq!(
        advance(AdmissionStage::Global, AdmissionEvent::TimedOut),
        Err("download queue timed out; try again later")
    );
    assert_eq!(
        advance(AdmissionStage::Admitted, granted),
        Ok(AdmissionStage::Admitted)
    );
}

#[test]
fn a_client_has_four_streams_of_sixteen() {
    let mut limits = StreamLimits::new();
    assert_eq!(limits.shared().available_permits(), 16);
    let first = limits.for_client(v4(10, 0, 0, 1));
    assert_eq!(first.available_permits(), 4);
    let slot = first.clone().try_acquire_owned().unwrap();
    assert!(Arc::ptr_eq(&first, &limits.for_client(v4(10, 0, 0, 1))));
    assert_eq!(limits.for_client(v4(10, 0, 0, 1)).available_permits(), 3);
    assert_eq!(limits.for_client(v4(10, 0, 0, 2)).available_permits(), 4);
    drop(slot);
}

#[test]
fn each_stage_asks_for_its_own_slots() {
    let mut admission = StreamAdmission::default();
    let client = admission.client(v4(10, 0, 0, 1), 0).unwrap();
    let shared = admission.global();
    assert!(matches!(
        slot_action(AdmissionStage::Request, &client, &shared),
        SlotAction::Take(slots) if Arc::ptr_eq(&slots, &client.requests)
    ));
    assert!(matches!(
        slot_action(AdmissionStage::Stream, &client, &shared),
        SlotAction::Await(slots) if Arc::ptr_eq(&slots, &client.streams)
    ));
    assert!(matches!(
        slot_action(AdmissionStage::Global, &client, &shared),
        SlotAction::Await(slots) if Arc::ptr_eq(&slots, &shared)
    ));
    assert!(matches!(
        slot_action(AdmissionStage::Admitted, &client, &shared),
        SlotAction::Begin
    ));
}
