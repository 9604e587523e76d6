//! The websocket clients: the messages exchanged, what the server does on
//! each event of a connection, and the registry of open connections.
use vstd::prelude::*;

use crate::search::{SearchProviderList, SearchResultEntry};
use crate::text::{string_of, to_chars};
use crate::types::RoamID;

verus! {

/// A message between the server and a websocket client.
#[derive(Clone, Debug, PartialEq)]
pub enum WebSocketMessage {
    SearchRequest { query: String, request_id: String },
    SearchResponse { request_id: String, results: SearchResultEntry },
    SearchConfigurationRequest,
    SearchConfigurationResponse { config: Vec<(usize, String)> },
    SearchStop,
    StatusUpdate { files_changed: usize },
    NodeVisited { node_id: RoamID },
    BufferModified,
    Ping,
    Pong,
}

/// What the server does with a message from a client.
#[derive(Clone, Debug, PartialEq)]
pub enum MessageAction {
    /// Send this answer.
    Reply(WebSocketMessage),
    /// Stop the running search and start this one.
    StartSearch { query: String, request_id: String },
    /// Nothing (a pong).
    Nothing,
    /// The message is not one a client sends; it is logged.
    Unsupported,
}

impl WebSocketMessage {
    /// A ping is answered with a pong, a request for the search
    /// configuration with each provider's id and name, and a search request
    /// starts a search; a pong needs nothing and other messages are not
    /// supported.
    pub fn handle(&self) -> (r: MessageAction)
        ensures
            match self {
                WebSocketMessage::Ping => r == MessageAction::Reply(WebSocketMessage::Pong),
                WebSocketMessage::Pong => r == MessageAction::Nothing,
                WebSocketMessage::SearchConfigurationRequest => r matches MessageAction::Reply(
                    WebSocketMessage::SearchConfigurationResponse { config },
                ) && config@.len() == 2 && config@[0].0 == 0 && config@[0].1@ == "Default search"@
                    && config@[1].0 == 1 && config@[1].1@ == "Full text search"@,
                WebSocketMessage::SearchRequest { query, request_id } => r matches MessageAction::StartSearch {
                    query: q,
                    request_id: id,
                } && q@ == query@ && id@ == request_id@,
                _ => r == MessageAction::Unsupported,
            },
    {
        match self {
            WebSocketMessage::Ping => MessageAction::Reply(WebSocketMessage::Pong),
            WebSocketMessage::Pong => MessageAction::Nothing,
            WebSocketMessage::SearchConfigurationRequest => {
                let providers = SearchProviderList::new();
                let config = providers.config();
                MessageAction::Reply(WebSocketMessage::SearchConfigurationResponse { config })
            },
            WebSocketMessage::SearchRequest { query, request_id } => MessageAction::StartSearch {
                query: string_of(to_chars(query.as_str()).as_slice()),
                request_id: string_of(to_chars(request_id.as_str()).as_slice()),
            },
            _ => MessageAction::Unsupported,
        }
    }
}

/// Something that happened on a connection.
#[derive(Clone, Debug, PartialEq)]
pub enum ConnectionEvent {
    /// The client sent text; it held this message, or none that could be read.
    Text(Option<WebSocketMessage>),
    /// The client sent a frame that is not text nor a close.
    OtherFrame,
    /// The client closed the connection.
    Close,
    /// The socket failed.
    SocketError,
    /// The client's stream ended.
    StreamEnded,
    /// Another part of the server has a message for the client.
    ServerMessage(WebSocketMessage),
    /// The server's channel to the client closed.
    ServerChannelClosed,
    /// It is time for a keep-alive ping.
    PingTick,
    /// Sending to the client failed.
    SendFailed,
}

/// What the connection does next.
#[derive(Clone, Debug, PartialEq)]
pub enum ConnectionAction {
    /// Act on a message of the client (see `WebSocketMessage::handle`).
    Handle(WebSocketMessage),
    /// Send a message to the client.
    Send(WebSocketMessage),
    /// Wait for the next event.
    Continue,
    /// Unregister and end the connection.
    Disconnect,
}

/// The connection's answer to an event: a message of the client is acted
/// on, unreadable text and other frames are skipped, the server's messages
/// and the keep-alive pings are sent, and everything else ends it.
pub open spec fn step_spec(ev: ConnectionEvent) -> ConnectionAction {
    match ev {
        ConnectionEvent::Text(Some(m)) => ConnectionAction::Handle(m),
        ConnectionEvent::Text(None) => ConnectionAction::Continue,
        ConnectionEvent::OtherFrame => ConnectionAction::Continue,
        ConnectionEvent::ServerMessage(m) => ConnectionAction::Send(m),
        ConnectionEvent::PingTick => ConnectionAction::Send(WebSocketMessage::Ping),
        _ => ConnectionAction::Disconnect,
    }
}

/// The first thing a connection does: send a ping.
pub fn connection_start() -> (r: ConnectionAction)
    ensures
        r == ConnectionAction::Send(WebSocketMessage::Ping),
{
    ConnectionAction::Send(WebSocketMessage::Ping)
}

/// What a connection does on an event (see `step_spec`).
pub fn connection_step(ev: ConnectionEvent) -> (r: ConnectionAction)
    ensures
        r == step_spec(ev),
{
    match ev {
        ConnectionEvent::Text(Some(m)) => ConnectionAction::Handle(m),
        ConnectionEvent::Text(None) => ConnectionAction::Continue,
        ConnectionEvent::OtherFrame => ConnectionAction::Continue,
        ConnectionEvent::ServerMessage(m) => ConnectionAction::Send(m),
        ConnectionEvent::PingTick => ConnectionAction::Send(WebSocketMessage::Ping),
        _ => ConnectionAction::Disconnect,
    }
}

/// The ids of the open connections, and the id the next one gets.
pub struct ConnectionRegistry {
    ids: Vec<u64>,
    next: u64,
}

impl ConnectionRegistry {
    /// The open connections.
    pub closed spec fn open(&self) -> Set<u64> {
        self.ids@.to_set()
    }

    /// The id of the next connection.
    pub closed spec fn next_id(&self) -> u64 {
        self.next
    }

    /// Every open id is below the next one, and each is held once.
    pub closed spec fn wf(&self) -> bool {
        &&& forall|i: int| 0 <= i < self.ids@.len() ==> #[trigger] self.ids@[i] < self.next
        &&& self.ids@.no_duplicates()
    }

    /// No connection yet; the first gets id 1.
    pub fn new() -> (r: ConnectionRegistry)
        ensures
            r.wf(),
            r.open() == Set::<u64>::empty(),
            r.next_id() == 1,
    {
        let r = ConnectionRegistry { ids: Vec::new(), next: 1 };
        assert(r.open() =~= Set::<u64>::empty());
        r
    }

    /// Registers a connection under a fresh id.
    pub fn register_websocket_connection(&mut self) -> (id: u64)
        requires
            old(self).wf(),
            old(self).next_id() < u64::MAX,
        ensures
            final(self).wf(),
            id == old(self).next_id(),
            !old(self).open().contains(id),
            final(self).open() == old(self).open().insert(id),
            final(self).next_id() == id + 1,
    {
        let id = self.next;
        let ghost before = self.ids@;
        self.ids.push(id);
        self.next = id + 1;
        proof {
            assert(self.ids@ == before.push(id));
            assert(!before.contains(id)) by {
                if before.contains(id) {
                    let k = choose|k: int| 0 <= k < before.len() && before[k] == id;
                    assert(before[k] < id);
                }
            }
            before.lemma_push_to_set_commute(id);
            assert(self.ids@.to_set() =~= before.to_set().insert(id));
        }
        id
    }

    /// Forgets a connection.
    pub fn unregister_websocket_connection(&mut self, connection_id: u64)
        requires
            old(self).wf(),
        ensures
            final(self).wf(),
            final(self).open() == old(self).open().remove(connection_id),
            final(self).next_id() == old(self).next_id(),
    {
        let mut kept: Vec<u64> = Vec::new();
        let mut i: usize = 0;
        while i < self.ids.len()
            invariant
                0 <= i <= self.ids@.len(),
                self.wf(),
                kept@.no_duplicates(),
                forall|k: int| 0 <= k < kept@.len() ==> #[trigger] kept@[k] < self.next && kept@[k] != connection_id,
                kept@.to_set() == self.ids@.take(i as int).to_set().remove(connection_id),
                forall|k: int| 0 <= k < kept@.len() ==> self.ids@.take(i as int).contains(#[trigger] kept@[k]),
            decreases self.ids@.len() - i,
        {
            let x = self.ids[i];
            let ghost t0 = self.ids@.take(i as int);
            let ghost t1 = self.ids@.take(i + 1);
            assert(t1 =~= t0.push(x));
            if x != connection_id {
                let ghost kb = kept@;
                kept.push(x);
                proof {
                    assert(!kb.contains(x)) by {
                        if kb.contains(x) {
                            let k = choose|k: int| 0 <= k < kb.len() && kb[k] == x;
                            assert(t0.contains(x));
                            let w = choose|w: int| 0 <= w < t0.len() && t0[w] == x;
                            assert(self.ids@[w] == self.ids@[i as int]);
                        }
                    }
                    kb.lemma_push_to_set_commute(x);
                    t0.lemma_push_to_set_commute(x);
                    assert(kept@.to_set() =~= kb.to_set().insert(x));
                    assert(t1.to_set() =~= t0.to_set().insert(x));
                    assert(kept@.to_set() =~= t1.to_set().remove(connection_id));
                    assert forall|k: int| 0 <= k < kept@.len() implies t1.contains(#[trigger] kept@[k]) by {
                        if k < kb.len() {
                            assert(t0.contains(kb[k]));
                            let w = choose|w: int| 0 <= w < t0.len() && t0[w] == kb[k];
                            assert(t1[w] == kb[k]);
                        } else {
                            assert(t1[i as int] == x);
                        }
                    }
                }
            } else {
                proof {
                    t0.lemma_push_to_set_commute(x);
                    assert(t1.to_set() =~= t0.to_set().insert(x));
                    assert(kept@.to_set() =~= t1.to_set().remove(connection_id));
                    assert forall|k: int| 0 <= k < kept@.len() implies t1.contains(#[trigger] kept@[k]) by {
                        assert(t0.contains(kept@[k]));
                        let w = choose|w: int| 0 <= w < t0.len() && t0[w] == kept@[k];
                        assert(t1[w] == kept@[k]);
                    }
                }
            }
            i = i + 1;
        }
        assert(self.ids@.take(i as int) =~= self.ids@);
        self.ids = kept;
    }

    /// After a broadcast, forgets the connections whose channel failed.
    pub fn remove_failed(&mut self, failed: &Vec<u64>)
        requires
            old(self).wf(),
        ensures
            final(self).wf(),
            final(self).open() == old(self).open().difference(failed@.to_set()),
            final(self).next_id() == old(self).next_id(),
    {
        let ghost start = self.open();
        let mut i: usize = 0;
        while i < failed.len()
            invariant
                0 <= i <= failed@.len(),
                self.wf(),
                self.next_id() == old(self).next_id(),
                self.open() == start.difference(failed@.take(i as int).to_set()),
            decreases failed@.len() - i,
        {
            let ghost t0 = failed@.take(i as int);
            let ghost t1 = failed@.take(i + 1);
            assert(t1 =~= t0.push(failed@[i as int]));
            proof {
                t0.lemma_push_to_set_commute(failed@[i as int]);
            }
            assert(t1.to_set() =~= t0.to_set().insert(failed@[i as int]));
            self.unregister_websocket_connection(failed[i]);
            assert(self.open() =~= start.difference(t1.to_set()));
            i = i + 1;
        }
        assert(failed@.take(i as int) =~= failed@);
    }

    /// The open connections, to send a broadcast to.
    pub fn connections(&self) -> (r: Vec<u64>)
        ensures
            r@.to_set() == self.open(),
    {
        let mut r: Vec<u64> = Vec::new();
        let mut i: usize = 0;
        while i < self.ids.len()
            invariant
                0 <= i <= self.ids@.len(),
                r@ == self.ids@.take(i as int),
            decreases self.ids@.len() - i,
        {
            r.push(self.ids[i]);
            i = i + 1;
            assert(r@ =~= self.ids@.take(i as int));
        }
        assert(self.ids@.take(i as int) =~= self.ids@);
        r
    }
}

} // verus!
