//! The transport as a state machine: what the node does on each event of
//! the overlay and on each command of the application.
//!
//! The node knows the peers that multicast discovery announced and the
//! names of the peers that identified themselves. Peers, addresses and
//! requests are named by text and number; whoever drives the overlay maps
//! them to its own handles and carries out the actions.

use vstd::prelude::*;
use crate::net::protocol::{
    clone_events, handle_sync_request, handle_sync_response, immediate_response, notice_of_request,
    notice_of_response, EncryptedEvent, EncryptedEventView, Notice, NoticeView, SyncRequest,
    SyncRequestView, SyncResponse, SyncResponseView,
};
use crate::profile::entities::contains_text;
use crate::table::{Plain, StringMap};
use crate::text::str_eq;

verus! {

/// What the transport tells the application.
#[derive(Debug)]
pub enum NetworkEvent {
    /// A peer was discovered, or identified itself under a name.
    PeerDiscovered { peer_id: String, device_name: Option<String> },
    /// The connection to a peer closed.
    PeerDisconnected { peer_id: String },
    /// A peer sent sealed events.
    EventsReceived { from: String, events: Vec<EncryptedEvent> },
    /// A peer asks for the events that its clock has not seen.
    EventsRequested { from: String, request_id: u64, clock: StringMap<u64> },
    /// A peer handed a tab over.
    TabReceived { from: String, url: String, title: Option<String>, from_device: String },
    /// A peer asks for the clock.
    ClockRequested { from: String, request_id: u64 },
}

/// A network event as plain data.
pub enum NetworkEventView {
    PeerDiscovered { peer_id: Seq<char>, device_name: Option<Seq<char>> },
    PeerDisconnected { peer_id: Seq<char> },
    EventsReceived { from: Seq<char>, events: Seq<EncryptedEventView> },
    EventsRequested { from: Seq<char>, request_id: u64, clock: Map<Seq<char>, u64> },
    TabReceived {
        from: Seq<char>,
        url: Seq<char>,
        title: Option<Seq<char>>,
        from_device: Seq<char>,
    },
    ClockRequested { from: Seq<char>, request_id: u64 },
}

impl View for NetworkEvent {
    type V = NetworkEventView;

    open spec fn view(&self) -> NetworkEventView {
        match self {
            NetworkEvent::PeerDiscovered {
                peer_id,
                device_name,
            } => NetworkEventView::PeerDiscovered {
                peer_id: peer_id@,
                device_name: device_name.deep_view(),
            },
            NetworkEvent::PeerDisconnected { peer_id } => NetworkEventView::PeerDisconnected {
                peer_id: peer_id@,
            },
            NetworkEvent::EventsReceived { from, events } => NetworkEventView::EventsReceived {
                from: from@,
                events: events.deep_view(),
            },
            NetworkEvent::EventsRequested {
                from,
                request_id,
                clock,
            } => NetworkEventView::EventsRequested {
                from: from@,
                request_id: *request_id,
                clock: clock@,
            },
            NetworkEvent::TabReceived {
                from,
                url,
                title,
                from_device,
            } => NetworkEventView::TabReceived {
                from: from@,
                url: url@,
                title: title.deep_view(),
                from_device: from_device@,
            },
            NetworkEvent::ClockRequested { from, request_id } => NetworkEventView::ClockRequested {
                from: from@,
                request_id: *request_id,
            },
        }
    }
}

impl DeepView for NetworkEvent {
    type V = NetworkEventView;

    open spec fn deep_view(&self) -> NetworkEventView {
        self.view()
    }
}

/// What the application asks of the transport.
#[derive(Debug)]
pub enum NetworkCommand {
    /// Ask a peer for its clock.
    GetClock { peer_id: String },
    /// Ask a peer for the events that the given clock has not seen.
    GetEvents { peer_id: String, clock: StringMap<u64> },
    /// Push sealed events to a peer.
    PushEvents { peer_id: String, events: Vec<EncryptedEvent> },
    /// Hand a tab to a peer.
    SendTab { peer_id: String, url: String, title: Option<String>, from_device: String },
    /// Answer a request for the clock.
    RespondClock { request_id: u64, clock: StringMap<u64>, device_id: String, device_name: String },
    /// Answer a request for events.
    RespondEvents { request_id: u64, events: Vec<EncryptedEvent> },
    /// Connect to an address.
    Dial { addr: String },
    /// Add a bootstrap peer of the distributed hash table.
    AddBootstrapPeer { peer_id: String, addr: String },
}

/// A network command as plain data.
pub enum NetworkCommandView {
    GetClock { peer_id: Seq<char> },
    GetEvents { peer_id: Seq<char>, clock: Map<Seq<char>, u64> },
    PushEvents { peer_id: Seq<char>, events: Seq<EncryptedEventView> },
    SendTab {
        peer_id: Seq<char>,
        url: Seq<char>,
        title: Option<Seq<char>>,
        from_device: Seq<char>,
    },
    RespondClock {
        request_id: u64,
        clock: Map<Seq<char>, u64>,
        device_id: Seq<char>,
        device_name: Seq<char>,
    },
    RespondEvents { request_id: u64, events: Seq<EncryptedEventView> },
    Dial { addr: Seq<char> },
    AddBootstrapPeer { peer_id: Seq<char>, addr: Seq<char> },
}

impl View for NetworkCommand {
    type V = NetworkCommandView;

    open spec fn view(&self) -> NetworkCommandView {
        match self {
            NetworkCommand::GetClock { peer_id } => NetworkCommandView::GetClock {
                peer_id: peer_id@,
            },
            NetworkCommand::GetEvents { peer_id, clock } => NetworkCommandView::GetEvents {
                peer_id: peer_id@,
                clock: clock@,
            },
            NetworkCommand::PushEvents { peer_id, events } => NetworkCommandView::PushEvents {
                peer_id: peer_id@,
                events: events.deep_view(),
            },
            NetworkCommand::SendTab {
                peer_id,
                url,
                title,
                from_device,
            } => NetworkCommandView::SendTab {
                peer_id: peer_id@,
                url: url@,
                title: title.deep_view(),
                from_device: from_device@,
            },
            NetworkCommand::RespondClock {
                request_id,
                clock,
                device_id,
                device_name,
            } => NetworkCommandView::RespondClock {
                request_id: *request_id,
                clock: clock@,
                device_id: device_id@,
                device_name: device_name@,
            },
            NetworkCommand::RespondEvents {
                request_id,
                events,
            } => NetworkCommandView::RespondEvents {
                request_id: *request_id,
                events: events.deep_view(),
            },
            NetworkCommand::Dial { addr } => NetworkCommandView::Dial { addr: addr@ },
            NetworkCommand::AddBootstrapPeer {
                peer_id,
                addr,
            } => NetworkCommandView::AddBootstrapPeer { peer_id: peer_id@, addr: addr@ },
        }
    }
}

impl DeepView for NetworkCommand {
    type V = NetworkCommandView;

    open spec fn deep_view(&self) -> NetworkCommandView {
        self.view()
    }
}

/// What the overlay reports to the node.
#[derive(Debug)]
pub enum SwarmEvent {
    /// The connection to a peer closed.
    ConnectionClosed { peer: String },
    /// Multicast discovery announced peers with their addresses.
    Discovered { peers: Vec<(String, String)> },
    /// Announcements of peers ran out.
    Expired { peers: Vec<String> },
    /// A peer identified itself.
    Identified { peer: String, agent_version: String, listen_addrs: Vec<String> },
    /// A request arrived.
    Request { peer: String, request_id: u64, request: SyncRequest },
    /// A response arrived.
    Response { peer: String, response: SyncResponse },
}

/// What the node asks of the overlay.
#[derive(Debug)]
pub enum SwarmAction {
    /// Send a request to a peer.
    SendRequest { peer: String, request: SyncRequest },
    /// Answer the inbound request with this number.
    SendResponse { request_id: u64, response: SyncResponse },
    /// Connect to an address.
    Dial { addr: String },
    /// Remember the address of a peer in the distributed hash table.
    AddAddress { peer: String, addr: String },
    /// Start the bootstrap of the distributed hash table.
    Bootstrap,
    /// Tell the application.
    Emit(NetworkEvent),
}

/// A swarm action as plain data.
pub enum SwarmActionView {
    SendRequest { peer: Seq<char>, request: SyncRequestView },
    SendResponse { request_id: u64, response: SyncResponseView },
    Dial { addr: Seq<char> },
    AddAddress { peer: Seq<char>, addr: Seq<char> },
    Bootstrap,
    Emit(NetworkEventView),
}

impl View for SwarmAction {
    type V = SwarmActionView;

    open spec fn view(&self) -> SwarmActionView {
        match self {
            SwarmAction::SendRequest { peer, request } => SwarmActionView::SendRequest {
                peer: peer@,
                request: request@,
            },
            SwarmAction::SendResponse { request_id, response } => SwarmActionView::SendResponse {
                request_id: *request_id,
                response: response@,
            },
            SwarmAction::Dial { addr } => SwarmActionView::Dial { addr: addr@ },
            SwarmAction::AddAddress { peer, addr } => SwarmActionView::AddAddress {
                peer: peer@,
                addr: addr@,
            },
            SwarmAction::Bootstrap => SwarmActionView::Bootstrap,
            SwarmAction::Emit(e) => SwarmActionView::Emit(e@),
        }
    }
}

impl DeepView for SwarmAction {
    type V = SwarmActionView;

    open spec fn deep_view(&self) -> SwarmActionView {
        self.view()
    }
}

/// What a command of the application makes the node do: a request to a
/// peer, the answer to an inbound request, a dial, or the addition of a
/// bootstrap peer followed by the bootstrap.
pub open spec fn actions_of_command(cmd: NetworkCommandView) -> Seq<SwarmActionView> {
    match cmd {
        NetworkCommandView::GetClock { peer_id } => seq![
            SwarmActionView::SendRequest { peer: peer_id, request: SyncRequestView::GetClock },
        ],
        NetworkCommandView::GetEvents { peer_id, clock } => seq![
            SwarmActionView::SendRequest {
                peer: peer_id,
                request: SyncRequestView::GetEvents { clock },
            },
        ],
        NetworkCommandView::PushEvents { peer_id, events } => seq![
            SwarmActionView::SendRequest {
                peer: peer_id,
                request: SyncRequestView::PushEvents { events },
            },
        ],
        NetworkCommandView::SendTab { peer_id, url, title, from_device } => seq![
            SwarmActionView::SendRequest {
                peer: peer_id,
                request: SyncRequestView::SendTab { url, title, from_device },
            },
        ],
        NetworkCommandView::RespondClock { request_id, clock, device_id, device_name } => seq![
            SwarmActionView::SendResponse {
                request_id,
                response: SyncResponseView::Clock { clock, device_id, device_name },
            },
        ],
        NetworkCommandView::RespondEvents { request_id, events } => seq![
            SwarmActionView::SendResponse {
                request_id,
                response: SyncResponseView::Events { events },
            },
        ],
        NetworkCommandView::Dial { addr } => seq![SwarmActionView::Dial { addr }],
        NetworkCommandView::AddBootstrapPeer { peer_id, addr } => seq![
            SwarmActionView::AddAddress { peer: peer_id, addr },
            SwarmActionView::Bootstrap,
        ],
    }
}

/// The network event that a notice from `peer` with request number
/// `request_id` becomes.
pub open spec fn event_of_notice(peer: Seq<char>, request_id: u64, notice: NoticeView) -> NetworkEventView {
    match notice {
        NoticeView::EventsReceived { events } => NetworkEventView::EventsReceived {
            from: peer,
            events,
        },
        NoticeView::EventsRequested { clock } => NetworkEventView::EventsRequested {
            from: peer,
            request_id,
            clock,
        },
        NoticeView::TabReceived { url, title, from_device } => NetworkEventView::TabReceived {
            from: peer,
            url,
            title,
            from_device,
        },
        NoticeView::ClockRequested => NetworkEventView::ClockRequested { from: peer, request_id },
    }
}

/// What an inbound request makes the node do: tell the application, and
/// answer at once where the transport has the answer.
pub open spec fn actions_of_request(
    peer: Seq<char>,
    request_id: u64,
    request: SyncRequestView,
) -> Seq<SwarmActionView> {
    let told = seq![
        SwarmActionView::Emit(event_of_notice(peer, request_id, notice_of_request(request))),
    ];
    match immediate_response(request) {
        Some(response) => told.push(SwarmActionView::SendResponse { request_id, response }),
        None => told,
    }
}

/// What an inbound response makes the node do.
pub open spec fn actions_of_response(peer: Seq<char>, response: SyncResponseView) -> Seq<
    SwarmActionView,
> {
    match notice_of_response(response) {
        Some(notice) => seq![SwarmActionView::Emit(event_of_notice(peer, 0, notice))],
        None => Seq::empty(),
    }
}

/// The peers that were announced, after more announcements: each peer
/// that was not known is added.
pub open spec fn discovered_after(
    known: Seq<Seq<char>>,
    announced: Seq<(Seq<char>, Seq<char>)>,
) -> Seq<Seq<char>>
    decreases announced.len(),
{
    if announced.len() == 0 {
        known
    } else {
        let before = discovered_after(known, announced.drop_last());
        if before.contains(announced.last().0) {
            before
        } else {
            before.push(announced.last().0)
        }
    }
}

/// What announcements make the node do: for each peer that was not known,
/// remember its address, dial it, and tell the application.
pub open spec fn actions_of_discovery(
    known: Seq<Seq<char>>,
    announced: Seq<(Seq<char>, Seq<char>)>,
) -> Seq<SwarmActionView>
    decreases announced.len(),
{
    if announced.len() == 0 {
        Seq::empty()
    } else {
        let before = actions_of_discovery(known, announced.drop_last());
        let peer = announced.last().0;
        let addr = announced.last().1;
        if discovered_after(known, announced.drop_last()).contains(peer) {
            before
        } else {
            before.push(SwarmActionView::AddAddress { peer, addr }).push(
                SwarmActionView::Dial { addr },
            ).push(
                SwarmActionView::Emit(
                    NetworkEventView::PeerDiscovered { peer_id: peer, device_name: None },
                ),
            )
        }
    }
}

/// A list without the items that occur in another.
pub open spec fn without_all(list: Seq<Seq<char>>, gone: Seq<Seq<char>>) -> Seq<Seq<char>>
    decreases list.len(),
{
    if list.len() == 0 {
        Seq::empty()
    } else {
        let rest = without_all(list.drop_last(), gone);
        if gone.contains(list.last()) {
            rest
        } else {
            rest.push(list.last())
        }
    }
}

/// One `AddAddress` of `peer` for every address.
pub open spec fn address_actions(peer: Seq<char>, addrs: Seq<Seq<char>>) -> Seq<SwarmActionView> {
    Seq::new(addrs.len(), |i: int| SwarmActionView::AddAddress { peer, addr: addrs[i] })
}

/// One request for the clock to every peer, in order.
pub open spec fn clock_requests(peers: Seq<(Seq<char>, Seq<char>)>) -> Seq<NetworkCommandView> {
    Seq::new(peers.len(), |i: int| NetworkCommandView::GetClock { peer_id: peers[i].0 })
}

/// The node of one device.
pub struct Node {
    peers: StringMap<String>,
    discovered: Vec<String>,
    enable_dht: bool,
}

impl Node {
    /// The names of the peers that identified themselves.
    pub closed spec fn peer_names(&self) -> Map<Seq<char>, Seq<char>> {
        self.peers@
    }

    /// The peers that identified themselves with their names, in order.
    pub closed spec fn peer_list(&self) -> Seq<(Seq<char>, Seq<char>)> {
        self.peers.entries()
    }

    /// The peers that multicast discovery announced.
    pub closed spec fn announced(&self) -> Seq<Seq<char>> {
        self.discovered.deep_view()
    }

    /// True when the distributed hash table is in use.
    pub closed spec fn uses_dht(&self) -> bool {
        self.enable_dht
    }

    /// A node that knows no peer.
    pub fn new(enable_dht: bool) -> (n: Self)
        ensures
            n.peer_names() == Map::<Seq<char>, Seq<char>>::empty(),
            n.announced() == Seq::<Seq<char>>::empty(),
            n.uses_dht() == enable_dht,
    {
        let n = Node { peers: StringMap::new(), discovered: Vec::new(), enable_dht };
        proof {
            assert(n.discovered.deep_view() =~= Seq::<Seq<char>>::empty());
        }
        n
    }

    /// The peers that identified themselves, with their names.
    pub fn peers(&self) -> (p: &StringMap<String>)
        ensures
            p@ == self.peer_names(),
            p.entries() == self.peer_list(),
    {
        &self.peers
    }

    /// What a command of the application makes the node do.
    pub fn handle_command(&self, cmd: NetworkCommand) -> (actions: Vec<SwarmAction>)
        ensures
            actions.deep_view() == actions_of_command(cmd@),
    {
        let mut actions: Vec<SwarmAction> = Vec::new();
        match cmd {
            NetworkCommand::GetClock { peer_id } => {
                actions.push(
                    SwarmAction::SendRequest { peer: peer_id, request: SyncRequest::GetClock },
                );
            },
            NetworkCommand::GetEvents { peer_id, clock } => {
                actions.push(
                    SwarmAction::SendRequest {
                        peer: peer_id,
                        request: SyncRequest::GetEvents { clock },
                    },
                );
            },
            NetworkCommand::PushEvents { peer_id, events } => {
                actions.push(
                    SwarmAction::SendRequest {
                        peer: peer_id,
                        request: SyncRequest::PushEvents { events },
                    },
                );
            },
            NetworkCommand::SendTab { peer_id, url, title, from_device } => {
                actions.push(
                    SwarmAction::SendRequest {
                        peer: peer_id,
                        request: SyncRequest::SendTab { url, title, from_device },
                    },
                );
            },
            NetworkCommand::RespondClock { request_id, clock, device_id, device_name } => {
                actions.push(
                    SwarmAction::SendResponse {
                        request_id,
                        response: SyncResponse::Clock { clock, device_id, device_name },
                    },
                );
            },
            NetworkCommand::RespondEvents { request_id, events } => {
                actions.push(
                    SwarmAction::SendResponse {
                        request_id,
                        response: SyncResponse::Events { events },
                    },
                );
            },
            NetworkCommand::Dial { addr } => {
                actions.push(SwarmAction::Dial { addr });
            },
            NetworkCommand::AddBootstrapPeer { peer_id, addr } => {
                actions.push(SwarmAction::AddAddress { peer: peer_id, addr });
                actions.push(SwarmAction::Bootstrap);
            },
        }
        proof {
            assert(actions.deep_view() =~= actions_of_command(cmd@));
        }
        actions
    }

    /// One request for the clock to every peer that identified itself: the
    /// periodic poll that serves as heartbeat and as trigger of a sync.
    pub fn periodic_sync(&self) -> (commands: Vec<NetworkCommand>)
        ensures
            commands.deep_view() == clock_requests(self.peer_list()),
    {
        let n = self.peers.len();
        let mut commands: Vec<NetworkCommand> = Vec::new();
        let mut i: usize = 0;
        while i < n
            invariant
                i <= n,
                n == self.peers.entries().len(),
                commands.len() == i,
                forall|j: int|
                    0 <= j < i ==> (#[trigger] commands[j])@ == (NetworkCommandView::GetClock {
                        peer_id: self.peers.entries()[j].0,
                    }),
            decreases n - i,
        {
            commands.push(NetworkCommand::GetClock { peer_id: self.peers.key_at(i).clone() });
            i += 1;
        }
        proof {
            assert(commands.deep_view() =~= clock_requests(self.peer_list()));
        }
        commands
    }
}

/// Turns a notice into the event for the application.
fn event_from_notice(peer: &str, request_id: u64, notice: Notice) -> (e: NetworkEvent)
    ensures
        e@ == event_of_notice(peer@, request_id, notice@),
{
    match notice {
        Notice::EventsReceived { events } => NetworkEvent::EventsReceived {
            from: peer.to_owned(),
            events,
        },
        Notice::EventsRequested { clock } => NetworkEvent::EventsRequested {
            from: peer.to_owned(),
            request_id,
            clock,
        },
        Notice::TabReceived { url, title, from_device } => NetworkEvent::TabReceived {
            from: peer.to_owned(),
            url,
            title,
            from_device,
        },
        Notice::ClockRequested => NetworkEvent::ClockRequested { from: peer.to_owned(), request_id },
    }
}

/// What an inbound request makes the node do.
pub fn on_request(peer: &str, request_id: u64, request: SyncRequest) -> (actions: Vec<SwarmAction>)
    ensures
        actions.deep_view() == actions_of_request(peer@, request_id, request@),
{
    let routed = handle_sync_request(request);
    let mut actions: Vec<SwarmAction> = Vec::new();
    actions.push(SwarmAction::Emit(event_from_notice(peer, request_id, routed.0)));
    match routed.1 {
        Some(response) => {
            actions.push(SwarmAction::SendResponse { request_id, response });
        },
        None => {},
    }
    proof {
        assert(actions.deep_view() =~= actions_of_request(peer@, request_id, request@));
    }
    actions
}

/// What an inbound response makes the node do.
pub fn on_response(peer: &str, response: SyncResponse) -> (actions: Vec<SwarmAction>)
    ensures
        actions.deep_view() == actions_of_response(peer@, response@),
{
    let mut actions: Vec<SwarmAction> = Vec::new();
    match handle_sync_response(response) {
        Some(notice) => {
            actions.push(SwarmAction::Emit(event_from_notice(peer, 0, notice)));
        },
        None => {},
    }
    proof {
        assert(actions.deep_view() =~= actions_of_response(peer@, response@));
    }
    actions
}

impl Node {
    /// Takes note that the connection to a peer closed: the peer's name is
    /// forgotten and the application is told.
    pub fn on_connection_closed(&mut self, peer: &str) -> (actions: Vec<SwarmAction>)
        ensures
            final(self).peer_names() == old(self).peer_names().remove(peer@),
            final(self).announced() == old(self).announced(),
            final(self).uses_dht() == old(self).uses_dht(),
            actions.deep_view() == seq![
                SwarmActionView::Emit(NetworkEventView::PeerDisconnected { peer_id: peer@ }),
            ],
    {
        let _ = self.peers.remove(peer);
        let mut actions: Vec<SwarmAction> = Vec::new();
        actions.push(SwarmAction::Emit(NetworkEvent::PeerDisconnected { peer_id: peer.to_owned() }));
        proof {
            assert(actions.deep_view() =~= seq![
                SwarmActionView::Emit(NetworkEventView::PeerDisconnected { peer_id: peer@ }),
            ]);
        }
        actions
    }

    /// Takes note of announced peers: each peer that was not known is
    /// remembered, its address is added and dialled, and the application
    /// is told.
    pub fn on_discovered(&mut self, peers: &[(String, String)]) -> (actions: Vec<SwarmAction>)
        ensures
            final(self).announced() == discovered_after(old(self).announced(), peers.deep_view()),
            actions.deep_view() == actions_of_discovery(old(self).announced(), peers.deep_view()),
            final(self).peer_names() == old(self).peer_names(),
            final(self).uses_dht() == old(self).uses_dht(),
    {
        let ghost start = self.discovered.deep_view();
        let ghost all = peers.deep_view();
        let mut actions: Vec<SwarmAction> = Vec::new();
        let mut i: usize = 0;
        proof {
            assert(all.subrange(0, 0) =~= Seq::<(Seq<char>, Seq<char>)>::empty());
            assert(actions.deep_view() =~= Seq::<SwarmActionView>::empty());
        }
        while i < peers.len()
            invariant
                i <= peers.len(),
                all == peers.deep_view(),
                start == old(self).discovered.deep_view(),
                self.discovered.deep_view() == discovered_after(start, all.subrange(0, i as int)),
                actions.deep_view() == actions_of_discovery(start, all.subrange(0, i as int)),
                self.peers == old(self).peers,
                self.enable_dht == old(self).enable_dht,
            decreases peers.len() - i,
        {
            let peer = &peers[i].0;
            let addr = &peers[i].1;
            proof {
                assert(all.subrange(0, i + 1).drop_last() =~= all.subrange(0, i as int));
                assert(all.subrange(0, i + 1).last() == (peer@, addr@));
            }
            let ghost known = self.discovered.deep_view();
            let ghost before = actions.deep_view();
            if !contains_text(self.discovered.as_slice(), peer.as_str()) {
                self.discovered.push(peer.clone());
                actions.push(SwarmAction::AddAddress { peer: peer.clone(), addr: addr.clone() });
                actions.push(SwarmAction::Dial { addr: addr.clone() });
                actions.push(
                    SwarmAction::Emit(
                        NetworkEvent::PeerDiscovered { peer_id: peer.clone(), device_name: None },
                    ),
                );
                proof {
                    assert(self.discovered.deep_view() =~= known.push(peer@));
                    assert(actions.deep_view() =~= before.push(
                        SwarmActionView::AddAddress { peer: peer@, addr: addr@ },
                    ).push(SwarmActionView::Dial { addr: addr@ }).push(
                        SwarmActionView::Emit(
                            NetworkEventView::PeerDiscovered { peer_id: peer@, device_name: None },
                        ),
                    ));
                }
            }
            i += 1;
        }
        proof {
            assert(all.subrange(0, peers.len() as int) =~= all);
        }
        actions
    }

    /// Forgets announced peers whose announcements ran out.
    pub fn on_expired(&mut self, peers: &[String])
        ensures
            final(self).announced() == without_all(old(self).announced(), peers.deep_view()),
            final(self).peer_names() == old(self).peer_names(),
            final(self).uses_dht() == old(self).uses_dht(),
    {
        let ghost start = self.discovered.deep_view();
        let mut kept: Vec<String> = Vec::new();
        let mut i: usize = 0;
        proof {
            assert(start.subrange(0, 0) =~= Seq::<Seq<char>>::empty());
            assert(kept.deep_view() =~= Seq::<Seq<char>>::empty());
        }
        while i < self.discovered.len()
            invariant
                i <= self.discovered.len(),
                start == self.discovered.deep_view(),
                kept.deep_view() == without_all(start.subrange(0, i as int), peers.deep_view()),
            decreases self.discovered.len() - i,
        {
            proof {
                assert(start.subrange(0, i + 1).drop_last() =~= start.subrange(0, i as int));
                assert(start.subrange(0, i + 1).last() == self.discovered[i as int]@);
            }
            let ghost before = kept.deep_view();
            if !contains_text(peers, self.discovered[i].as_str()) {
                kept.push(self.discovered[i].clone());
                proof {
                    assert(kept.deep_view() =~= before.push(self.discovered[i as int]@));
                }
            }
            i += 1;
        }
        proof {
            assert(start.subrange(0, self.discovered.len() as int) =~= start);
        }
        self.discovered = kept;
    }

    /// Takes note that a peer identified itself: its addresses are added
    /// when the distributed hash table is in use, its name is recorded,
    /// and the application is told.
    pub fn on_identified(&mut self, peer: &str, agent_version: &str, listen_addrs: &[String]) -> (actions:
        Vec<SwarmAction>)
        ensures
            final(self).peer_names() == old(self).peer_names().insert(peer@, agent_version@),
            final(self).announced() == old(self).announced(),
            final(self).uses_dht() == old(self).uses_dht(),
            actions.deep_view() == (if old(self).uses_dht() {
                address_actions(peer@, listen_addrs.deep_view())
            } else {
                Seq::empty()
            }).push(
                SwarmActionView::Emit(
                    NetworkEventView::PeerDiscovered {
                        peer_id: peer@,
                        device_name: Some(agent_version@),
                    },
                ),
            ),
    {
        let mut actions: Vec<SwarmAction> = Vec::new();
        if self.enable_dht {
            let mut i: usize = 0;
            while i < listen_addrs.len()
                invariant
                    i <= listen_addrs.len(),
                    actions.len() == i,
                    forall|j: int|
                        0 <= j < i ==> (#[trigger] actions[j])@ == (SwarmActionView::AddAddress {
                            peer: peer@,
                            addr: listen_addrs[j]@,
                        }),
                decreases listen_addrs.len() - i,
            {
                actions.push(
                    SwarmAction::AddAddress { peer: peer.to_owned(), addr: listen_addrs[i].clone() },
                );
                i += 1;
            }
            proof {
                assert(actions.deep_view() =~= address_actions(peer@, listen_addrs.deep_view()));
            }
        } else {
            proof {
                assert(actions.deep_view() =~= Seq::<SwarmActionView>::empty());
            }
        }
        let ghost before = actions.deep_view();
        self.peers.insert(peer.to_owned(), agent_version.to_owned());
        actions.push(
            SwarmAction::Emit(
                NetworkEvent::PeerDiscovered {
                    peer_id: peer.to_owned(),
                    device_name: Some(agent_version.to_owned()),
                },
            ),
        );
        proof {
            assert(actions.deep_view() =~= before.push(
                SwarmActionView::Emit(
                    NetworkEventView::PeerDiscovered {
                        peer_id: peer@,
                        device_name: Some(agent_version@),
                    },
                ),
            ));
        }
        actions
    }

    /// What `handle_event` does, event by event.
    pub open spec fn event_handled(
        &self,
        after: &Node,
        event: SwarmEvent,
        actions: Seq<SwarmActionView>,
    ) -> bool {
        let unchanged = after.peer_names() == self.peer_names() && after.announced()
            == self.announced();
        &&& after.uses_dht() == self.uses_dht()
        &&& match event {
            SwarmEvent::ConnectionClosed { peer } => after.peer_names() == self.peer_names().remove(
                peer@,
            ) && after.announced() == self.announced() && actions == seq![
                SwarmActionView::Emit(NetworkEventView::PeerDisconnected { peer_id: peer@ }),
            ],
            SwarmEvent::Discovered { peers } => after.peer_names() == self.peer_names()
                && after.announced() == discovered_after(self.announced(), peers.deep_view())
                && actions == actions_of_discovery(self.announced(), peers.deep_view()),
            SwarmEvent::Expired { peers } => after.peer_names() == self.peer_names()
                && after.announced() == without_all(self.announced(), peers.deep_view())
                && actions.len() == 0,
            SwarmEvent::Identified { peer, agent_version, listen_addrs } => after.peer_names()
                == self.peer_names().insert(peer@, agent_version@) && after.announced()
                == self.announced() && actions == (if self.uses_dht() {
                address_actions(peer@, listen_addrs.deep_view())
            } else {
                Seq::empty()
            }).push(
                SwarmActionView::Emit(
                    NetworkEventView::PeerDiscovered {
                        peer_id: peer@,
                        device_name: Some(agent_version@),
                    },
                ),
            ),
            SwarmEvent::Request { peer, request_id, request } => unchanged && actions
                == actions_of_request(peer@, request_id, request@),
            SwarmEvent::Response { peer, response } => unchanged && actions == actions_of_response(
                peer@,
                response@,
            ),
        }
    }

    /// What an event of the overlay makes the node do: a closed connection
    /// forgets the peer's name; announced peers that are new are dialled;
    /// expired announcements are forgotten; a peer that identifies itself
    /// is recorded under its name; requests and responses are routed.
    pub fn handle_event(&mut self, event: SwarmEvent) -> (actions: Vec<SwarmAction>)
        ensures
            old(self).event_handled(final(self), event, actions.deep_view()),
    {
        match event {
            SwarmEvent::ConnectionClosed { peer } => self.on_connection_closed(peer.as_str()),
            SwarmEvent::Discovered { peers } => self.on_discovered(peers.as_slice()),
            SwarmEvent::Expired { peers } => {
                self.on_expired(peers.as_slice());
                let none: Vec<SwarmAction> = Vec::new();
                proof {
                    assert(none.deep_view().len() == 0);
                }
                none
            },
            SwarmEvent::Identified { peer, agent_version, listen_addrs } => self.on_identified(
                peer.as_str(),
                agent_version.as_str(),
                listen_addrs.as_slice(),
            ),
            SwarmEvent::Request { peer, request_id, request } => on_request(
                peer.as_str(),
                request_id,
                request,
            ),
            SwarmEvent::Response { peer, response } => on_response(peer.as_str(), response),
        }
    }
}

} // verus!
