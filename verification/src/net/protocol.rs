//! The messages of the sync protocol and the routing of each message.
//!
//! The transport delivers a request or a response; the functions here
//! decide what the application is told and what is answered at once.

use vstd::prelude::*;
use crate::crypto::cipher::{cipher_of_byte, Cipher};
use crate::profile::entities::contains_text;
use crate::table::{Plain, StringMap};

verus! {

/// The name of the sync protocol.
pub const PROTOCOL_NAME: &'static str = "/wolfpack/sync/1.0.0";

/// How long a request may wait for its response, in seconds.
pub const REQUEST_TIMEOUT_SECS: u64 = 30;

/// How often every connected peer is asked for its clock, in seconds.
pub const SYNC_INTERVAL_SECS: u64 = 30;

/// A sealed event as it travels between devices.
#[derive(Debug)]
pub struct EncryptedEvent {
    /// Identifier of the event.
    pub id: String,
    /// The device that made it.
    pub device_id: String,
    /// The clock counter of that device, from which the nonce derives.
    pub counter: u64,
    pub ciphertext: Vec<u8>,
    /// The sender's public key.
    pub public_key: Vec<u8>,
    /// The cipher selector byte.
    pub cipher: u8,
    pub nonce: Vec<u8>,
}

/// A sealed event as plain data.
pub struct EncryptedEventView {
    pub id: Seq<char>,
    pub device_id: Seq<char>,
    pub counter: u64,
    pub ciphertext: Seq<u8>,
    pub public_key: Seq<u8>,
    pub cipher: u8,
    pub nonce: Seq<u8>,
}

impl View for EncryptedEvent {
    type V = EncryptedEventView;

    open spec fn view(&self) -> EncryptedEventView {
        EncryptedEventView {
            id: self.id@,
            device_id: self.device_id@,
            counter: self.counter,
            ciphertext: self.ciphertext@,
            public_key: self.public_key@,
            cipher: self.cipher,
            nonce: self.nonce@,
        }
    }
}

impl DeepView for EncryptedEvent {
    type V = EncryptedEventView;

    open spec fn deep_view(&self) -> EncryptedEventView {
        self.view()
    }
}

impl Clone for EncryptedEvent {
    fn clone(&self) -> (r: Self)
        ensures
            r@ == self@,
    {
        EncryptedEvent {
            id: self.id.clone(),
            device_id: self.device_id.clone(),
            counter: self.counter,
            ciphertext: self.ciphertext.clone(),
            public_key: self.public_key.clone(),
            cipher: self.cipher,
            nonce: self.nonce.clone(),
        }
    }
}

/// Copies a list of sealed events.
pub fn clone_events(list: &Vec<EncryptedEvent>) -> (r: Vec<EncryptedEvent>)
    ensures
        r.deep_view() == list.deep_view(),
{
    let mut out: Vec<EncryptedEvent> = Vec::new();
    let mut i: usize = 0;
    while i < list.len()
        invariant
            i <= list.len(),
            out.len() == i,
            forall|j: int| 0 <= j < i ==> out[j]@ == list[j]@,
        decreases list.len() - i,
    {
        out.push(list[i].clone());
        i += 1;
    }
    proof {
        assert(out.deep_view() =~= list.deep_view());
    }
    out
}

/// A request of the sync protocol.
#[derive(Debug)]
pub enum SyncRequest {
    /// Ask the peer for its clock and identity.
    GetClock,
    /// Ask the peer for the envelopes that the given clock has not seen.
    GetEvents { clock: StringMap<u64> },
    /// Deliver sealed events.
    PushEvents { events: Vec<EncryptedEvent> },
    /// Hand a tab over.
    SendTab { url: String, title: Option<String>, from_device: String },
}

/// A request as plain data.
pub enum SyncRequestView {
    GetClock,
    GetEvents { clock: Map<Seq<char>, u64> },
    PushEvents { events: Seq<EncryptedEventView> },
    SendTab { url: Seq<char>, title: Option<Seq<char>>, from_device: Seq<char> },
}

impl View for SyncRequest {
    type V = SyncRequestView;

    open spec fn view(&self) -> SyncRequestView {
        match self {
            SyncRequest::GetClock => SyncRequestView::GetClock,
            SyncRequest::GetEvents { clock } => SyncRequestView::GetEvents { clock: clock@ },
            SyncRequest::PushEvents { events } => SyncRequestView::PushEvents {
                events: events.deep_view(),
            },
            SyncRequest::SendTab { url, title, from_device } => SyncRequestView::SendTab {
                url: url@,
                title: title.deep_view(),
                from_device: from_device@,
            },
        }
    }
}

/// A response of the sync protocol.
#[derive(Debug)]
pub enum SyncResponse {
    /// The clock and identity of the responder.
    Clock { clock: StringMap<u64>, device_id: String, device_name: String },
    /// The envelopes that the requester lacks.
    Events { events: Vec<EncryptedEvent> },
    /// So many events were received.
    Ack { count: usize },
    /// The tab was received.
    TabReceived,
    /// The request could not be served.
    Error { message: String },
}

/// A response as plain data.
pub enum SyncResponseView {
    Clock { clock: Map<Seq<char>, u64>, device_id: Seq<char>, device_name: Seq<char> },
    Events { events: Seq<EncryptedEventView> },
    Ack { count: usize },
    TabReceived,
    Error { message: Seq<char> },
}

impl View for SyncResponse {
    type V = SyncResponseView;

    open spec fn view(&self) -> SyncResponseView {
        match self {
            SyncResponse::Clock { clock, device_id, device_name } => SyncResponseView::Clock {
                clock: clock@,
                device_id: device_id@,
                device_name: device_name@,
            },
            SyncResponse::Events { events } => SyncResponseView::Events {
                events: events.deep_view(),
            },
            SyncResponse::Ack { count } => SyncResponseView::Ack { count: *count },
            SyncResponse::TabReceived => SyncResponseView::TabReceived,
            SyncResponse::Error { message } => SyncResponseView::Error { message: message@ },
        }
    }
}

/// The codec of the sync protocol: each direction carries one message,
/// ended by the close of the stream.
#[derive(Debug, Clone, Copy, Default)]
pub struct SyncCodec;

/// What the application is told when a message arrives.
#[derive(Debug)]
pub enum Notice {
    /// The peer sent sealed events.
    EventsReceived { events: Vec<EncryptedEvent> },
    /// The peer asks for the envelopes that `clock` has not seen.
    EventsRequested { clock: StringMap<u64> },
    /// The peer handed a tab over.
    TabReceived { url: String, title: Option<String>, from_device: String },
    /// The peer asks for the clock.
    ClockRequested,
}

/// A notice as plain data.
pub enum NoticeView {
    EventsReceived { events: Seq<EncryptedEventView> },
    EventsRequested { clock: Map<Seq<char>, u64> },
    TabReceived { url: Seq<char>, title: Option<Seq<char>>, from_device: Seq<char> },
    ClockRequested,
}

impl View for Notice {
    type V = NoticeView;

    open spec fn view(&self) -> NoticeView {
        match self {
            Notice::EventsReceived { events } => NoticeView::EventsReceived {
                events: events.deep_view(),
            },
            Notice::EventsRequested { clock } => NoticeView::EventsRequested { clock: clock@ },
            Notice::TabReceived { url, title, from_device } => NoticeView::TabReceived {
                url: url@,
                title: title.deep_view(),
                from_device: from_device@,
            },
            Notice::ClockRequested => NoticeView::ClockRequested,
        }
    }
}

/// The notice that a request gives rise to.
pub open spec fn notice_of_request(request: SyncRequestView) -> NoticeView {
    match request {
        SyncRequestView::GetClock => NoticeView::ClockRequested,
        SyncRequestView::GetEvents { clock } => NoticeView::EventsRequested { clock },
        SyncRequestView::PushEvents { events } => NoticeView::EventsReceived { events },
        SyncRequestView::SendTab { url, title, from_device } => NoticeView::TabReceived {
            url,
            title,
            from_device,
        },
    }
}

/// The response that the transport gives to a request at once: an
/// acknowledgement with the number of events for a push, the receipt for
/// a tab. Requests for the clock and for events are answered by the
/// application.
pub open spec fn immediate_response(request: SyncRequestView) -> Option<SyncResponseView> {
    match request {
        SyncRequestView::GetClock => None,
        SyncRequestView::GetEvents { .. } => None,
        SyncRequestView::PushEvents { events } => Some(
            SyncResponseView::Ack { count: events.len() as usize },
        ),
        SyncRequestView::SendTab { .. } => Some(SyncResponseView::TabReceived),
    }
}

/// The notice that a response gives rise to: the events of an `Events`
/// response, nothing otherwise.
pub open spec fn notice_of_response(response: SyncResponseView) -> Option<NoticeView> {
    match response {
        SyncResponseView::Events { events } => Some(NoticeView::EventsReceived { events }),
        _ => None,
    }
}

/// Routes an inbound request: what the application is told and what is
/// answered at once.
pub fn handle_sync_request(request: SyncRequest) -> (r: (Notice, Option<SyncResponse>))
    ensures
        r.0@ == notice_of_request(request@),
        match immediate_response(request@) {
            Some(v) => r.1 matches Some(resp) && resp@ == v,
            None => r.1 is None,
        },
{
    match request {
        SyncRequest::GetClock => (Notice::ClockRequested, None),
        SyncRequest::GetEvents { clock } => (Notice::EventsRequested { clock }, None),
        SyncRequest::PushEvents { events } => {
            let count = events.len();
            (Notice::EventsReceived { events }, Some(SyncResponse::Ack { count }))
        },
        SyncRequest::SendTab { url, title, from_device } => (
            Notice::TabReceived { url, title, from_device },
            Some(SyncResponse::TabReceived),
        ),
    }
}

/// Routes an inbound response: the events of an `Events` response are
/// passed on, every other response ends its request without a notice.
pub fn handle_sync_response(response: SyncResponse) -> (r: Option<Notice>)
    ensures
        match notice_of_response(response@) {
            Some(v) => r matches Some(n) && n@ == v,
            None => r is None,
        },
{
    match response {
        SyncResponse::Events { events } => Some(Notice::EventsReceived { events }),
        _ => None,
    }
}

/// The response to a request that could not be served. Every inbound
/// request gets a response; this is the one of last resort.
pub fn error_response(message: &str) -> (r: SyncResponse)
    ensures
        r@ == (SyncResponseView::Error { message: message@ }),
{
    SyncResponse::Error { message: message.to_owned() }
}

/// True when a sealed event may be opened: its origin is a paired device
/// and its cipher selector is known.
pub open spec fn is_acceptable(event: EncryptedEventView, paired: Seq<Seq<char>>) -> bool {
    paired.contains(event.device_id) && cipher_of_byte(event.cipher) is Some
}

/// The sealed events of known origin, in order.
pub open spec fn acceptable_events(
    events: Seq<EncryptedEventView>,
    paired: Seq<Seq<char>>,
) -> Seq<EncryptedEventView>
    decreases events.len(),
{
    if events.len() == 0 {
        Seq::empty()
    } else {
        let rest = acceptable_events(events.drop_last(), paired);
        if is_acceptable(events.last(), paired) {
            rest.push(events.last())
        } else {
            rest
        }
    }
}

/// Keeps the sealed events whose origin is a paired device and whose
/// cipher is known; the others are discarded unopened.
pub fn filter_known_origin(events: &[EncryptedEvent], paired_devices: &[String]) -> (kept: Vec<
    EncryptedEvent,
>)
    ensures
        kept.deep_view() == acceptable_events(events.deep_view(), paired_devices.deep_view()),
{
    let ghost all = events.deep_view();
    let mut kept: Vec<EncryptedEvent> = Vec::new();
    let mut i: usize = 0;
    proof {
        assert(all.subrange(0, 0) =~= Seq::<EncryptedEventView>::empty());
        assert(kept.deep_view() =~= Seq::<EncryptedEventView>::empty());
    }
    while i < events.len()
        invariant
            i <= events.len(),
            all == events.deep_view(),
            kept.deep_view() == acceptable_events(
                all.subrange(0, i as int),
                paired_devices.deep_view(),
            ),
        decreases events.len() - i,
    {
        let event = &events[i];
        proof {
            assert(all.subrange(0, i + 1).drop_last() =~= all.subrange(0, i as int));
            assert(all.subrange(0, i + 1).last() == event@);
        }
        let ghost before = kept.deep_view();
        if contains_text(paired_devices, event.device_id.as_str()) && Cipher::from_byte(
            event.cipher,
        ).is_some() {
            kept.push(event.clone());
            proof {
                assert(kept.deep_view() =~= before.push(event@));
            }
        }
        i += 1;
    }
    proof {
        assert(all.subrange(0, events.len() as int) =~= all);
    }
    kept
}

} // verus!
