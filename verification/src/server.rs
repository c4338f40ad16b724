//! The registry of connections and the dispatch of readiness events to them.

use crate::client::{
    ClientState, ClientView, EventSet, SocketRead, SocketWrite, Step, WebSocketClient,
};
use std::collections::HashMap;
use vstd::prelude::*;

verus! {

broadcast use vstd::std_specs::hash::group_hash_axioms;

/// The token of the listening socket. No connection has it.
pub const SERVER_TOKEN: usize = 0;

/// What one attempt to accept a connection gave.
#[derive(Clone, Copy, PartialEq, Eq, Structural, Debug)]
pub enum SocketAccept {
    /// The attempt failed.
    Error,
    /// No connection was waiting.
    NoConnection,
    /// A connection was accepted.
    Connection,
}

/// The work that a readiness event calls for, in the order in which it is
/// done: accept on the listening socket, read from the connection, write to
/// the connection.
#[derive(Clone, Copy, PartialEq, Eq, Structural, Debug)]
pub struct Dispatch {
    /// A connection is to be accepted.
    pub accept: bool,
    /// The connection with the token is to be read.
    pub read: bool,
    /// The connection with the token is to be written.
    pub write: bool,
}

/// The registry as the contracts see it.
pub struct ServerView {
    /// The connections by their tokens.
    pub clients: Map<usize, ClientView>,
    /// The token that the next connection gets.
    pub token_counter: usize,
}

impl ServerView {
    /// Every connection has a token of its own below the counter, none has
    /// the token of the listening socket, and none has been given up.
    pub open spec fn wf(self) -> bool {
        &&& self.token_counter > SERVER_TOKEN
        &&& self.clients.dom().finite()
        &&& forall|token: usize| #[trigger]
            self.clients.contains_key(token) ==> {
                &&& SERVER_TOKEN < token < self.token_counter
                &&& self.clients[token].wf()
                &&& self.clients[token].state != ClientState::Failed
            }
    }

    /// The work that an event on `token` calls for. An event reaches the
    /// listening socket or a connection that is registered, and nothing else.
    pub open spec fn dispatch(self, token: usize, events: EventSet) -> Dispatch {
        Dispatch {
            accept: events.read && token == SERVER_TOKEN,
            read: events.read && token != SERVER_TOKEN && self.clients.contains_key(token),
            write: events.write && token != SERVER_TOKEN && self.clients.contains_key(token),
        }
    }

    /// The registry after the connection `token` has become `after` and asks
    /// for `step`: a connection that asks to be closed leaves the registry.
    pub open spec fn put(self, token: usize, after: ClientView, step: Step) -> ServerView {
        ServerView {
            clients: if step == Step::Close {
                self.clients.remove(token)
            } else {
                self.clients.insert(token, after)
            },
            ..self
        }
    }

    /// Whether an attempt to accept leads to a new connection: a connection
    /// was accepted and a token is left for it.
    pub open spec fn admits(self, outcome: SocketAccept) -> bool {
        outcome == SocketAccept::Connection && self.token_counter < usize::MAX
    }
}

/// The connections of a server and the counter that numbers them.
pub struct WebSocketServer {
    clients: HashMap<usize, WebSocketClient>,
    token_counter: usize,
}

impl View for WebSocketServer {
    type V = ServerView;

    closed spec fn view(&self) -> ServerView {
        ServerView {
            clients: Map::new(
                |token: usize| self.clients@.contains_key(token),
                |token: usize| self.clients@[token]@,
            ),
            token_counter: self.token_counter,
        }
    }
}

impl WebSocketServer {
    /// The registry for a listening socket, without connections yet. The
    /// socket itself stays with whoever listens on it; the first connection
    /// gets token 1.
    pub fn from_socket() -> (server: WebSocketServer)
        ensures
            server@.clients == Map::<usize, ClientView>::empty(),
            server@.token_counter == 1,
            server@.wf(),
    {
        let server = WebSocketServer { clients: HashMap::new(), token_counter: 1 };
        server
    }

    /// Decides what a readiness event calls for.
    pub fn ready(&self, token: usize, events: EventSet) -> (dispatch: Dispatch)
        ensures
            dispatch == self@.dispatch(token, events),
    {
        let known = token != SERVER_TOKEN && self.clients.contains_key(&token);
        Dispatch {
            accept: events.is_readable() && token == SERVER_TOKEN,
            read: events.is_readable() && known,
            write: events.is_writable() && known,
        }
    }

    /// Takes what an attempt to accept gave. An accepted connection is
    /// registered under the next token, which is returned; it awaits its
    /// request, and its socket is to be watched for reading. A failed
    /// attempt, or no connection waiting, changes nothing, and neither does a
    /// connection for which no token is left: that one is not registered.
    pub fn accept(&mut self, outcome: SocketAccept) -> (token: Option<usize>)
        ensures
            token is Some <==> old(self)@.admits(outcome),
            token is None ==> final(self)@ == old(self)@,
            token matches Some(new_token) ==> {
                &&& new_token == old(self)@.token_counter
                &&& final(self)@.token_counter == new_token + 1
                &&& final(self)@.clients.contains_key(new_token)
                &&& final(self)@.clients[new_token].fresh()
                &&& final(self)@.clients == old(self)@.clients.insert(
                    new_token,
                    final(self)@.clients[new_token],
                )
            },
            old(self)@.wf() ==> final(self)@.wf(),
            old(self)@.wf() ==> (token matches Some(new_token) ==> !old(self)@.clients.contains_key(
                new_token,
            )),
    {
        if outcome != SocketAccept::Connection || self.token_counter == usize::MAX {
            return None;
        }
        let new_token = self.token_counter;
        let client = WebSocketClient::new();
        self.clients.insert(new_token, client);
        self.token_counter += 1;
        assert(final(self)@.clients =~= old(self)@.clients.insert(
            new_token,
            final(self)@.clients[new_token],
        ));
        Some(new_token)
    }

    /// Hands what a read gave to the connection `token`. A connection that
    /// then asks to be closed leaves the registry at once. No other
    /// connection is touched, and a token without a connection changes
    /// nothing.
    pub fn read(&mut self, token: usize, input: SocketRead) -> (step: Step)
        ensures
            !old(self)@.clients.contains_key(token) ==> final(self)@ == old(self)@ && step
                == Step::Close,
            old(self)@.clients.contains_key(token) ==> exists|after: ClientView|
                #![trigger old(self)@.clients[token].read_gives(input, after, step)]
                old(self)@.clients[token].read_gives(input, after, step) && final(self)@ == old(
                    self,
                )@.put(token, after, step),
            old(self)@.wf() ==> final(self)@.wf(),
    {
        match self.clients.remove(&token) {
            Some(mut client) => {
                let step = client.read(input);
                let ghost after = client@;
                if step != Step::Close {
                    self.clients.insert(token, client);
                }
                assert(final(self)@.clients =~= old(self)@.put(token, after, step).clients);
                assert(old(self)@.clients[token].read_gives(input, after, step));
                step
            },
            None => {
                assert(final(self)@.clients =~= old(self)@.clients);
                Step::Close
            },
        }
    }

    /// Lets the connection `token` act on a socket that can be written. A
    /// connection that then asks to be closed leaves the registry at once. No
    /// other connection is touched, and a token without a connection changes
    /// nothing.
    pub fn write(&mut self, token: usize) -> (step: Step)
        ensures
            !old(self)@.clients.contains_key(token) ==> final(self)@ == old(self)@ && step
                == Step::Close,
            old(self)@.clients.contains_key(token) ==> step == old(self)@.clients[token].write().1
                && final(self)@ == old(self)@.put(
                token,
                old(self)@.clients[token].write().0,
                step,
            ),
            old(self)@.wf() ==> final(self)@.wf(),
    {
        match self.clients.remove(&token) {
            Some(mut client) => {
                let step = client.write();
                let ghost after = client@;
                if step != Step::Close {
                    self.clients.insert(token, client);
                }
                assert(final(self)@.clients =~= old(self)@.put(token, after, step).clients);
                step
            },
            None => {
                assert(final(self)@.clients =~= old(self)@.clients);
                Step::Close
            },
        }
    }

    /// Hands what a write gave to the connection `token`. A connection that
    /// then asks to be closed leaves the registry at once. No other
    /// connection is touched, and a token without a connection changes
    /// nothing.
    pub fn wrote(&mut self, token: usize, outcome: SocketWrite) -> (step: Step)
        ensures
            !old(self)@.clients.contains_key(token) ==> final(self)@ == old(self)@ && step
                == Step::Close,
            old(self)@.clients.contains_key(token) ==> step == old(self)@.clients[token].wrote(
                outcome,
            ).1 && final(self)@ == old(self)@.put(
                token,
                old(self)@.clients[token].wrote(outcome).0,
                step,
            ),
            old(self)@.wf() ==> final(self)@.wf(),
    {
        match self.clients.remove(&token) {
            Some(mut client) => {
                let step = client.wrote(outcome);
                let ghost after = client@;
                if step != Step::Close {
                    self.clients.insert(token, client);
                }
                assert(final(self)@.clients =~= old(self)@.put(token, after, step).clients);
                step
            },
            None => {
                assert(final(self)@.clients =~= old(self)@.clients);
                Step::Close
            },
        }
    }

    /// Takes the connection `token` out of the registry, as when its socket
    /// could not be watched. Tells whether there was one.
    pub fn remove(&mut self, token: usize) -> (removed: bool)
        ensures
            removed == old(self)@.clients.contains_key(token),
            final(self)@.clients == old(self)@.clients.remove(token),
            final(self)@.token_counter == old(self)@.token_counter,
            old(self)@.wf() ==> final(self)@.wf(),
    {
        self.clients.remove(&token).is_some()
    }

    /// The readiness that the connection `token` waits for, with which its
    /// socket is watched again after each event.
    pub fn interest(&self, token: usize) -> (interest: Option<EventSet>)
        ensures
            interest == if self@.clients.contains_key(token) {
                Some(self@.clients[token].interest)
            } else {
                None
            },
    {
        match self.clients.get(&token) {
            Some(client) => Some(client.interest()),
            None => None,
        }
    }

    /// Where the handshake of the connection `token` stands.
    pub fn state(&self, token: usize) -> (state: Option<ClientState>)
        ensures
            state == if self@.clients.contains_key(token) {
                Some(self@.clients[token].state)
            } else {
                None
            },
    {
        match self.clients.get(&token) {
            Some(client) => Some(client.state()),
            None => None,
        }
    }

    /// The bytes that the connection `token` has still to write.
    pub fn outgoing(&self, token: usize) -> (bytes: Option<&[u8]>)
        ensures
            match bytes {
                Some(bytes) => self@.clients.contains_key(token) && bytes@
                    == self@.clients[token].outgoing,
                None => !self@.clients.contains_key(token),
            },
    {
        match self.clients.get(&token) {
            Some(client) => Some(client.outgoing()),
            None => None,
        }
    }

    /// The number of connections.
    pub fn len(&self) -> (count: usize)
        ensures
            count == self@.clients.dom().len(),
    {
        assert(self@.clients.dom() =~= self.clients@.dom());
        self.clients.len()
    }
}

/// Independence: what one connection makes of an event leaves every other
/// connection in the registry as it was.
pub proof fn lemma_others_untouched(
    server: ServerView,
    token: usize,
    after: ClientView,
    step: Step,
    other: usize,
)
    requires
        other != token,
    ensures
        server.put(token, after, step).clients.contains_key(other) == server.clients.contains_key(
            other,
        ),
        server.put(token, after, step).clients[other] == server.clients[other],
        server.put(token, after, step).token_counter == server.token_counter,
{
}

/// No stale dispatch: once a connection has left the registry, no event on
/// its token calls for any work, and no later connection gets that token.
pub proof fn lemma_no_dispatch_after_teardown(
    server: ServerView,
    token: usize,
    after: ClientView,
    events: EventSet,
)
    requires
        server.wf(),
        server.clients.contains_key(token),
    ensures
        server.put(token, after, Step::Close).dispatch(token, events) == (Dispatch {
            accept: false,
            read: false,
            write: false,
        }),
        server.put(token, after, Step::Close).wf(),
        token < server.put(token, after, Step::Close).token_counter,
{
}

} // verus!
