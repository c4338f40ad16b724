//! One connection: the state of its handshake, the readiness it waits for,
//! and what it does when its socket can be read or written.

use crate::handshake::{
    accept_token, build_response, gen_key, lemma_response_len, response_bytes, MAX_KEY_LEN,
};
use crate::headers::Headers;
use crate::parser::{
    parse_reports, parser_error, parser_get, parser_has_error, parser_is_upgrade, parser_parse,
    parser_progress, parser_request, parser_upgrade, HttpParser, Progress,
};
use http_muncher::Parser;
use vstd::prelude::*;
use vstd::string::StringSliceAdditionalSpecFns;

verus! {

/// The kinds of readiness that a socket is watched for, or has shown.
#[derive(Clone, Copy, PartialEq, Eq, Structural, Debug)]
pub struct EventSet {
    /// Ready, or watched, for reading.
    pub read: bool,
    /// Ready, or watched, for writing.
    pub write: bool,
}

impl EventSet {
    /// Both sets together.
    pub open spec fn union(self, other: EventSet) -> EventSet {
        EventSet { read: self.read || other.read, write: self.write || other.write }
    }

    /// This set without what is in the other.
    pub open spec fn minus(self, other: EventSet) -> EventSet {
        EventSet { read: self.read && !other.read, write: self.write && !other.write }
    }

    /// The empty set.
    pub fn none() -> (set: EventSet)
        ensures
            set == (EventSet { read: false, write: false }),
    {
        EventSet { read: false, write: false }
    }

    /// Reading alone.
    pub fn readable() -> (set: EventSet)
        ensures
            set == (EventSet { read: true, write: false }),
    {
        EventSet { read: true, write: false }
    }

    /// Writing alone.
    pub fn writable() -> (set: EventSet)
        ensures
            set == (EventSet { read: false, write: true }),
    {
        EventSet { read: false, write: true }
    }

    /// Whether reading is in the set.
    pub fn is_readable(&self) -> (yes: bool)
        ensures
            yes == self.read,
    {
        self.read
    }

    /// Whether writing is in the set.
    pub fn is_writable(&self) -> (yes: bool)
        ensures
            yes == self.write,
    {
        self.write
    }

    /// Adds what is in `other`.
    pub fn insert(&mut self, other: EventSet)
        ensures
            *final(self) == old(self).union(other),
    {
        self.read = self.read || other.read;
        self.write = self.write || other.write;
    }

    /// Takes out what is in `other`.
    pub fn remove(&mut self, other: EventSet)
        ensures
            *final(self) == old(self).minus(other),
    {
        self.read = self.read && !other.read;
        self.write = self.write && !other.write;
    }
}

/// Where a connection stands in its handshake.
#[derive(Clone, Copy, PartialEq, Eq, Structural, Debug)]
pub enum ClientState {
    /// The request has not arrived in full.
    AwaitingHandshake,
    /// The request asked for the upgrade; the response is to be sent.
    HandshakeResponse,
    /// The response has been sent. The handshake has nothing more to do.
    Connected,
    /// The connection is to be torn down.
    Failed,
}

/// What one attempt to read from the socket gave.
#[derive(Debug)]
pub enum SocketRead {
    /// The read failed.
    Error,
    /// Nothing can be read for now.
    WouldBlock,
    /// The bytes that were read. None at all is the end of the stream.
    Bytes(Vec<u8>),
}

/// What one attempt to write to the socket gave.
#[derive(Clone, Copy, PartialEq, Eq, Structural, Debug)]
pub enum SocketWrite {
    /// The write failed.
    Error,
    /// Nothing can be written for now.
    WouldBlock,
    /// The number of bytes that the socket took.
    Bytes(usize),
}

/// What is to be done next for a connection.
#[derive(Clone, Copy, PartialEq, Eq, Structural, Debug)]
pub enum Step {
    /// Read from the socket again and hand over what comes.
    Read,
    /// Write the outgoing bytes to the socket and hand over what comes.
    Write,
    /// Watch the socket again for the connection's interest.
    Wait,
    /// Tear the connection down: stop watching the socket and close it.
    Close,
}

/// The name of the header that carries the client key.
pub open spec fn key_header() -> Seq<u8> {
    "Sec-WebSocket-Key".spec_bytes()
}

/// The readiness that a connection waits for in each state.
pub open spec fn interest_in(state: ClientState) -> EventSet {
    match state {
        ClientState::AwaitingHandshake => EventSet { read: true, write: false },
        ClientState::HandshakeResponse => EventSet { read: false, write: true },
        ClientState::Connected => EventSet { read: true, write: false },
        ClientState::Failed => EventSet { read: false, write: false },
    }
}

/// Whether `rest` is what is left of `whole` after some of its bytes, but
/// not all, have been taken from its front.
pub open spec fn is_rest_of(rest: Seq<u8>, whole: Seq<u8>) -> bool {
    exists|taken: int| 0 <= taken < whole.len() && rest == #[trigger] whole.skip(taken)
}

/// A connection as the contracts see it.
pub struct ClientView {
    /// The tokenizer with the handler that collects the headers.
    pub tokenizer: Parser<HttpParser>,
    /// Where the handshake stands.
    pub state: ClientState,
    /// The readiness that the connection waits for.
    pub interest: EventSet,
    /// The part of the response that the socket has not taken yet.
    pub outgoing: Seq<u8>,
}

impl ClientView {
    /// The headers collected from the request so far.
    pub open spec fn headers(self) -> Map<Seq<u8>, Seq<u8>> {
        parser_progress(self.tokenizer).headers
    }

    /// A connection as it is when it has just been accepted.
    pub open spec fn fresh(self) -> bool {
        &&& self.state == ClientState::AwaitingHandshake
        &&& self.interest == (EventSet { read: true, write: false })
        &&& self.outgoing == Seq::<u8>::empty()
        &&& parser_progress(self.tokenizer) == Progress::start()
        &&& !parser_upgrade(self.tokenizer)
        &&& !parser_error(self.tokenizer)
    }

    /// The response that is owed to the request, given that it carries a
    /// client key.
    pub open spec fn response(self) -> Seq<u8> {
        response_bytes(accept_token(self.headers()[key_header()]))
    }

    /// The connection waits for exactly what its state asks for, and what it
    /// has to write, if anything, is the rest of the response that is owed
    /// to its request: only a connection that is due to respond, to a
    /// request with a client key, has anything to write.
    pub open spec fn wf(self) -> bool {
        &&& self.interest == interest_in(self.state)
        &&& self.outgoing.len() > 0 ==> {
            &&& self.state == ClientState::HandshakeResponse
            &&& self.has_key()
            &&& is_rest_of(self.outgoing, self.response())
        }
    }

    /// The connection given up: it waits for nothing more and has nothing to
    /// write.
    pub open spec fn failed(self) -> ClientView {
        ClientView {
            state: ClientState::Failed,
            interest: EventSet { read: false, write: false },
            outgoing: Seq::empty(),
            ..self
        }
    }

    /// What becomes of a connection that awaits its request once the
    /// tokenizer has seen a chunk: an error, or a complete request that asks
    /// for no upgrade, ends it; a complete request that asks for the upgrade
    /// turns it to writing; otherwise it reads on.
    pub open spec fn settle(self, error: bool, complete: bool, upgrade: bool) -> (
        ClientView,
        Step,
    ) {
        if self.state != ClientState::AwaitingHandshake {
            (self, if self.state == ClientState::Failed { Step::Close } else { Step::Wait })
        } else if error || (complete && !upgrade) {
            (self.failed(), Step::Close)
        } else if complete {
            (
                ClientView {
                    state: ClientState::HandshakeResponse,
                    interest: self.interest.minus(EventSet { read: true, write: false }).union(
                        EventSet { read: false, write: true },
                    ),
                    ..self
                },
                Step::Wait,
            )
        } else {
            (self, Step::Read)
        }
    }

    /// Whether `after` and `step` are what a read that gave `input` makes of
    /// this connection.
    pub open spec fn read_gives(self, input: SocketRead, after: ClientView, step: Step) -> bool {
        if self.state == ClientState::Failed {
            after == self && step == Step::Close
        } else {
            match input {
                SocketRead::Error => after == self.failed() && step == Step::Close,
                SocketRead::WouldBlock => after == self && step == Step::Wait,
                SocketRead::Bytes(data) => {
                    if data@.len() == 0 {
                        after == self.failed() && step == Step::Close
                    } else if self.state != ClientState::AwaitingHandshake {
                        after == self && step == Step::Wait
                    } else {
                        &&& parser_progress(after.tokenizer) == parser_progress(self.tokenizer).run(
                            parse_reports(self.tokenizer, data@),
                        )
                        &&& (after, step) == (ClientView {
                            tokenizer: after.tokenizer,
                            ..self
                        }).settle(
                            parser_error(after.tokenizer),
                            parser_progress(after.tokenizer).complete,
                            parser_upgrade(after.tokenizer),
                        )
                    }
                },
            }
        }
    }

    /// Whether the request carries a client key that a response can be made
    /// for.
    pub open spec fn has_key(self) -> bool {
        self.headers().contains_key(key_header()) && self.headers()[key_header()].len()
            <= MAX_KEY_LEN
    }

    /// What a connection does when its socket can be written. Only one that
    /// is due to respond does anything: it makes the response ready if none
    /// is, or gives up if the request carries no client key.
    pub open spec fn write(self) -> (ClientView, Step) {
        match self.state {
            ClientState::Failed => (self, Step::Close),
            ClientState::HandshakeResponse => {
                if self.outgoing.len() > 0 {
                    (self, Step::Write)
                } else if self.has_key() {
                    (
                        ClientView { outgoing: self.response(), ..self },
                        Step::Write,
                    )
                } else {
                    (self.failed(), Step::Close)
                }
            },
            _ => (self, Step::Wait),
        }
    }

    /// What becomes of a connection once a write has been tried. Bytes that
    /// the socket took leave the outgoing bytes; when none is left the
    /// connection is connected and turns to reading.
    pub open spec fn wrote(self, outcome: SocketWrite) -> (ClientView, Step) {
        if self.state == ClientState::Failed {
            (self, Step::Close)
        } else if outcome == SocketWrite::Error {
            (self.failed(), Step::Close)
        } else if self.state != ClientState::HandshakeResponse || self.outgoing.len() == 0 {
            (self, Step::Wait)
        } else {
            match outcome {
                SocketWrite::Bytes(taken) if taken >= self.outgoing.len() => (
                    ClientView {
                        state: ClientState::Connected,
                        interest: self.interest.minus(EventSet { read: false, write: true }).union(
                            EventSet { read: true, write: false },
                        ),
                        outgoing: Seq::empty(),
                        ..self
                    },
                    Step::Wait,
                ),
                SocketWrite::Bytes(taken) if taken > 0 => (
                    ClientView { outgoing: self.outgoing.skip(taken as int), ..self },
                    Step::Write,
                ),
                _ => (self, Step::Wait),
            }
        }
    }
}

/// One connection of the server.
pub struct WebSocketClient {
    http_parser: Parser<HttpParser>,
    interest: EventSet,
    state: ClientState,
    outgoing: Vec<u8>,
}

impl View for WebSocketClient {
    type V = ClientView;

    closed spec fn view(&self) -> ClientView {
        ClientView {
            tokenizer: self.http_parser,
            state: self.state,
            interest: self.interest,
            outgoing: self.outgoing@,
        }
    }
}

impl WebSocketClient {
    /// A connection that has just been accepted: it awaits its request. Its
    /// socket stays with whoever accepted it.
    pub fn new() -> (client: WebSocketClient)
        ensures
            client@.fresh(),
            client@.wf(),
    {
        WebSocketClient {
            http_parser: parser_request(HttpParser::new()),
            interest: EventSet::readable(),
            state: ClientState::AwaitingHandshake,
            outgoing: Vec::new(),
        }
    }

    /// Where the handshake stands.
    pub fn state(&self) -> (state: ClientState)
        ensures
            state == self@.state,
    {
        self.state
    }

    /// The readiness that the connection waits for.
    pub fn interest(&self) -> (interest: EventSet)
        ensures
            interest == self@.interest,
    {
        self.interest
    }

    /// The part of the response that is still to be written.
    pub fn outgoing(&self) -> (bytes: &[u8])
        ensures
            bytes@ == self@.outgoing,
    {
        self.outgoing.as_slice()
    }

    /// The headers collected from the request so far. The tokenizer lends its
    /// handler only to one who could change it; nothing is changed.
    pub fn headers(&mut self) -> (headers: &Headers)
        ensures
            headers@ == old(self)@.headers(),
            *final(self) == *old(self),
    {
        parser_get(&mut self.http_parser).headers()
    }

    fn fail(&mut self)
        ensures
            final(self)@ == old(self)@.failed(),
    {
        self.state = ClientState::Failed;
        self.interest = EventSet::none();
        self.outgoing = Vec::new();
    }

    /// Decides what becomes of the connection after the tokenizer has seen a
    /// chunk, from what the tokenizer then shows: whether it stopped on an
    /// error, whether the header block has ended, and whether the request
    /// asks for the upgrade.
    pub fn settle(&mut self, error: bool, complete: bool, upgrade: bool) -> (step: Step)
        ensures
            (final(self)@, step) == old(self)@.settle(error, complete, upgrade),
            old(self)@.wf() ==> final(self)@.wf(),
    {
        proof {
            if self@.wf() {
                lemma_settle_keeps_wf(self@, error, complete, upgrade);
            }
        }
        if self.state != ClientState::AwaitingHandshake {
            if self.state == ClientState::Failed {
                Step::Close
            } else {
                Step::Wait
            }
        } else if error || (complete && !upgrade) {
            self.fail();
            Step::Close
        } else if complete {
            self.state = ClientState::HandshakeResponse;
            self.interest.remove(EventSet::readable());
            self.interest.insert(EventSet::writable());
            Step::Wait
        } else {
            Step::Read
        }
    }

    /// Takes what one read from the socket gave. A failed read and the end of
    /// the stream end the connection. Bytes go to the tokenizer while the
    /// request is awaited, and what the tokenizer then shows decides, as
    /// `settle` says. In the later states the bytes are not the handshake's.
    pub fn read(&mut self, input: SocketRead) -> (step: Step)
        ensures
            old(self)@.read_gives(input, final(self)@, step),
            old(self)@.wf() ==> final(self)@.wf(),
    {
        if self.state == ClientState::Failed {
            return Step::Close;
        }
        match input {
            SocketRead::Error => {
                self.fail();
                Step::Close
            },
            SocketRead::WouldBlock => Step::Wait,
            SocketRead::Bytes(data) => {
                if data.len() == 0 {
                    self.fail();
                    Step::Close
                } else if self.state != ClientState::AwaitingHandshake {
                    Step::Wait
                } else {
                    parser_parse(&mut self.http_parser, data.as_slice());
                    let error = parser_has_error(&self.http_parser);
                    let upgrade = parser_is_upgrade(&self.http_parser);
                    let complete = parser_get(&mut self.http_parser).is_complete();
                    self.settle(error, complete, upgrade)
                }
            },
        }
    }

    /// Acts on a socket that can be written. A connection that is due to
    /// respond looks up the client key, makes the response ready and asks for
    /// it to be written; without a key it gives up and nothing is to be
    /// written. In any other state nothing happens.
    pub fn write(&mut self) -> (step: Step)
        ensures
            (final(self)@, step) == old(self)@.write(),
            old(self)@.wf() ==> final(self)@.wf(),
            step == Step::Write ==> final(self)@.outgoing.len() > 0,
    {
        proof {
            if self@.wf() {
                lemma_write_keeps_wf(self@);
            }
        }
        match self.state {
            ClientState::Failed => Step::Close,
            ClientState::HandshakeResponse => {
                if self.outgoing.len() > 0 {
                    return Step::Write;
                }
                let response = match parser_get(&mut self.http_parser).headers().get(
                    "Sec-WebSocket-Key".as_bytes(),
                ) {
                    Some(key) if key.len() as u64 <= MAX_KEY_LEN => {
                        let token = gen_key(key.as_slice());
                        proof {
                            lemma_response_len(token@);
                        }
                        Some(build_response(token.as_slice()))
                    },
                    _ => None,
                };
                match response {
                    Some(bytes) => {
                        self.outgoing = bytes;
                        Step::Write
                    },
                    None => {
                        self.fail();
                        Step::Close
                    },
                }
            },
            _ => Step::Wait,
        }
    }

    /// Takes what one write to the socket gave. A failed write ends the
    /// connection. Bytes that the socket took are not written again; once the
    /// whole response is out the connection is connected and waits to be
    /// read.
    pub fn wrote(&mut self, outcome: SocketWrite) -> (step: Step)
        ensures
            (final(self)@, step) == old(self)@.wrote(outcome),
            old(self)@.wf() ==> final(self)@.wf(),
            step == Step::Write ==> final(self)@.outgoing.len() > 0,
    {
        proof {
            if self@.wf() {
                lemma_wrote_keeps_wf(self@, outcome);
            }
        }
        if self.state == ClientState::Failed {
            return Step::Close;
        }
        match outcome {
            SocketWrite::Error => {
                self.fail();
                Step::Close
            },
            SocketWrite::WouldBlock => Step::Wait,
            SocketWrite::Bytes(taken) => {
                if self.state != ClientState::HandshakeResponse || self.outgoing.len() == 0 {
                    Step::Wait
                } else if taken >= self.outgoing.len() {
                    self.outgoing = Vec::new();
                    self.state = ClientState::Connected;
                    self.interest.remove(EventSet::writable());
                    self.interest.insert(EventSet::readable());
                    Step::Wait
                } else if taken > 0 {
                    let rest = self.outgoing.split_off(taken);
                    self.outgoing = rest;
                    Step::Write
                } else {
                    Step::Wait
                }
            },
        }
    }
}

/// Settling keeps a connection well-formed.
pub proof fn lemma_settle_keeps_wf(client: ClientView, error: bool, complete: bool, upgrade: bool)
    requires
        client.wf(),
    ensures
        client.settle(error, complete, upgrade).0.wf(),
{
}

/// A read keeps a connection well-formed.
pub proof fn lemma_read_keeps_wf(
    client: ClientView,
    input: SocketRead,
    after: ClientView,
    step: Step,
)
    requires
        client.wf(),
        client.read_gives(input, after, step),
    ensures
        after.wf(),
{
}

/// Acting on a writable socket keeps a connection well-formed: what it
/// makes ready to be written is the whole response that is owed.
pub proof fn lemma_write_keeps_wf(client: ClientView)
    requires
        client.wf(),
    ensures
        client.write().0.wf(),
{
    if client.state == ClientState::HandshakeResponse && client.outgoing.len() == 0
        && client.has_key() {
        let response = client.response();
        lemma_response_len(accept_token(client.headers()[key_header()]));
        assert(response.skip(0) =~= response);
    }
}

/// A write keeps a connection well-formed: what is left to be written is
/// still the rest of the response that is owed.
pub proof fn lemma_wrote_keeps_wf(client: ClientView, outcome: SocketWrite)
    requires
        client.wf(),
    ensures
        client.wrote(outcome).0.wf(),
{
    if client.state == ClientState::HandshakeResponse && client.outgoing.len() > 0 {
        if let SocketWrite::Bytes(taken) = outcome {
            if 0 < taken < client.outgoing.len() {
                let response = client.response();
                let before = choose|before: int|
                    0 <= before < response.len() && client.outgoing == #[trigger] response.skip(
                        before,
                    );
                assert(client.outgoing.skip(taken as int) =~= response.skip(before + taken));
            }
        }
    }
}

/// A request without a client key is never answered: the connection that
/// is due to respond asks to be closed instead, nothing is made ready to be
/// written, and it stays so.
pub proof fn lemma_no_key_no_response(client: ClientView)
    requires
        client.state == ClientState::HandshakeResponse,
        client.outgoing.len() == 0,
        !client.headers().contains_key(key_header()),
    ensures
        client.write() == (client.failed(), Step::Close),
        client.write().0.outgoing.len() == 0,
        client.failed().write() == (client.failed(), Step::Close),
        forall|outcome: SocketWrite| #[trigger]
            client.failed().wrote(outcome) == (client.failed(), Step::Close),
{
}

/// A request that asks for no upgrade is never answered: when its header
/// block has ended the connection asks to be closed, and neither before nor
/// after that does a writable socket make anything ready to be written.
pub proof fn lemma_no_upgrade_no_response(client: ClientView, error: bool)
    requires
        client.state == ClientState::AwaitingHandshake,
    ensures
        client.settle(error, true, false) == (client.failed(), Step::Close),
        client.write() == (client, Step::Wait),
        client.failed().write() == (client.failed(), Step::Close),
{
}

/// A parse error ends the connection whatever else the tokenizer shows.
pub proof fn lemma_error_closes(client: ClientView, complete: bool, upgrade: bool)
    requires
        client.state == ClientState::AwaitingHandshake,
    ensures
        client.settle(true, complete, upgrade) == (client.failed(), Step::Close),
{
}

/// After the handshake the connection waits to be read and does nothing by
/// itself: a writable socket and bytes that arrive leave it as it is.
pub proof fn lemma_connected_is_final(client: ClientView, data: Vec<u8>)
    requires
        client.state == ClientState::Connected,
        data@.len() > 0,
    ensures
        client.write() == (client, Step::Wait),
        client.read_gives(SocketRead::Bytes(data), client, Step::Wait),
        client.read_gives(SocketRead::WouldBlock, client, Step::Wait),
        forall|taken: usize| #[trigger]
            client.wrote(SocketWrite::Bytes(taken)) == (client, Step::Wait),
{
}

/// The whole response written at once completes the handshake: the
/// connection is connected and waits to be read.
pub proof fn lemma_response_written(client: ClientView, taken: usize)
    requires
        client.wf(),
        client.state == ClientState::HandshakeResponse,
        0 < client.outgoing.len() <= taken,
    ensures
        client.wrote(SocketWrite::Bytes(taken)).1 == Step::Wait,
        client.wrote(SocketWrite::Bytes(taken)).0.state == ClientState::Connected,
        client.wrote(SocketWrite::Bytes(taken)).0.interest == (EventSet {
            read: true,
            write: false,
        }),
        client.wrote(SocketWrite::Bytes(taken)).0.outgoing.len() == 0,
{
}

} // verus!
