use websocket_handshake::client::{ClientState, EventSet, SocketRead, SocketWrite, Step};
use websocket_handshake::server::{Dispatch, SocketAccept, WebSocketServer, SERVER_TOKEN};

const REQUEST: &[u8] = b"GET /chat HTTP/1.1\r\n\
Host: server.example.com\r\n\
Upgrade: websocket\r\n\
Connection: Upgrade\r\n\
Sec-WebSocket-Key: dGhlIHNhbXBsZSBub25jZQ==\r\n\
Sec-WebSocket-Version: 13\r\n\
\r\n";

const RESPONSE: &[u8] = b"HTTP/1.1 101 Switching Protocols\r\n\
Connection: Upgrade\r\n\
Upgrade: websocket\r\n\
Sec-WebSocket-Accept: s3pPLMBiTxaQ9kYGzzhZRbK+xOo=\r\n\
\r\n";

const NOTHING: Dispatch = Dispatch { accept: false, read: false, write: false };

fn both() -> EventSet {
    EventSet { read: true, write: true }
}

#[test]
fn server_token_is_zero() {
    assert_eq!(SERVER_TOKEN, 0);
}

#[test]
fn new_server_has_no_connections() {
    let server = WebSocketServer::from_socket();
    assert_eq!(server.len(), 0);
    assert_eq!(server.state(1), None);
    assert_eq!(server.interest(1), None);
    assert!(server.outgoing(1).is_none());
}

#[test]
fn tokens_count_up_from_one() {
    let mut server = WebSocketServer::from_socket();
    assert_eq!(server.accept(SocketAccept::Connection), Some(1));
    assert_eq!(server.accept(SocketAccept::Connection), Some(2));
    assert_eq!(server.accept(SocketAccept::Connection), Some(3));
    assert_eq!(server.len(), 3);
    assert_eq!(server.state(2), Some(ClientState::AwaitingHandshake));
    assert_eq!(server.interest(2), Some(EventSet::readable()));
    // A token is not given again, whether or not its connection is still there.
    assert!(server.remove(2));
    assert_eq!(server.accept(SocketAccept::Connection), Some(4));
    assert_eq!(server.state(2), None);
    assert_eq!(server.len(), 3);
}

#[test]
fn failed_accept_changes_nothing() {
    let mut server = WebSocketServer::from_socket();
    assert_eq!(server.accept(SocketAccept::Error), None);
    assert_eq!(server.accept(SocketAccept::NoConnection), None);
    assert_eq!(server.len(), 0);
    assert_eq!(server.accept(SocketAccept::Connection), Some(1));
    assert_eq!(server.accept(SocketAccept::Error), None);
    assert_eq!(server.len(), 1);
    assert_eq!(server.accept(SocketAccept::Connection), Some(2));
}

#[test]
fn dispatch_of_events() {
    let mut server = WebSocketServer::from_socket();
    assert_eq!(
        server.ready(SERVER_TOKEN, EventSet::readable()),
        Dispatch { accept: true, read: false, write: false }
    );
    assert_eq!(server.ready(SERVER_TOKEN, EventSet::writable()), NOTHING);
    assert_eq!(
        server.ready(SERVER_TOKEN, both()),
        Dispatch { accept: true, read: false, write: false }
    );
    assert_eq!(server.ready(SERVER_TOKEN, EventSet::none()), NOTHING);
    assert_eq!(server.ready(1, both()), NOTHING);
    assert_eq!(server.accept(SocketAccept::Connection), Some(1));
    assert_eq!(
        server.ready(1, EventSet::readable()),
        Dispatch { accept: false, read: true, write: false }
    );
    assert_eq!(
        server.ready(1, EventSet::writable()),
        Dispatch { accept: false, read: false, write: true }
    );
    assert_eq!(server.ready(1, both()), Dispatch { accept: false, read: true, write: true });
    assert_eq!(server.ready(1, EventSet::none()), NOTHING);
    assert_eq!(server.ready(2, both()), NOTHING);
}

#[test]
fn handshake_through_the_server() {
    let mut server = WebSocketServer::from_socket();
    let token = server.accept(SocketAccept::Connection).unwrap();
    assert_eq!(server.read(token, SocketRead::Bytes(REQUEST.to_vec())), Step::Wait);
    assert_eq!(server.state(token), Some(ClientState::HandshakeResponse));
    assert_eq!(server.interest(token), Some(EventSet::writable()));
    assert_eq!(server.write(token), Step::Write);
    assert_eq!(server.outgoing(token), Some(RESPONSE));
    assert_eq!(server.wrote(token, SocketWrite::Bytes(RESPONSE.len())), Step::Wait);
    assert_eq!(server.state(token), Some(ClientState::Connected));
    assert_eq!(server.interest(token), Some(EventSet::readable()));
    assert_eq!(server.outgoing(token), Some(&b""[..]));
    assert_eq!(server.len(), 1);
}

#[test]
fn clients_are_independent() {
    let mut server = WebSocketServer::from_socket();
    let a = server.accept(SocketAccept::Connection).unwrap();
    let b = server.accept(SocketAccept::Connection).unwrap();
    let cut = 60;
    assert_eq!(server.read(b, SocketRead::Bytes(REQUEST[..cut].to_vec())), Step::Read);
    assert_eq!(server.read(a, SocketRead::Bytes(b"GET / HT".to_vec())), Step::Read);
    // A parse error on one connection tears down that connection alone.
    assert_eq!(server.read(a, SocketRead::Bytes(b"\x00\x00\r\n\r\n".to_vec())), Step::Close);
    assert_eq!(server.state(a), None);
    assert_eq!(server.state(b), Some(ClientState::AwaitingHandshake));
    assert_eq!(server.interest(b), Some(EventSet::readable()));
    assert_eq!(server.read(b, SocketRead::Bytes(REQUEST[cut..].to_vec())), Step::Wait);
    assert_eq!(server.state(b), Some(ClientState::HandshakeResponse));
    assert_eq!(server.write(b), Step::Write);
    assert_eq!(server.outgoing(b), Some(RESPONSE));
    assert_eq!(server.wrote(b, SocketWrite::Bytes(RESPONSE.len())), Step::Wait);
    assert_eq!(server.state(b), Some(ClientState::Connected));
    assert_eq!(server.len(), 1);
}

#[test]
fn two_handshakes_interleaved() {
    let mut server = WebSocketServer::from_socket();
    let a = server.accept(SocketAccept::Connection).unwrap();
    let b = server.accept(SocketAccept::Connection).unwrap();
    for i in 0..REQUEST.len() {
        let expected = if i + 1 < REQUEST.len() { Step::Read } else { Step::Wait };
        assert_eq!(server.read(a, SocketRead::Bytes(vec![REQUEST[i]])), expected);
        assert_eq!(server.read(b, SocketRead::Bytes(vec![REQUEST[i]])), expected);
    }
    assert_eq!(server.write(a), Step::Write);
    assert_eq!(server.wrote(a, SocketWrite::Bytes(7)), Step::Write);
    assert_eq!(server.write(b), Step::Write);
    assert_eq!(server.outgoing(b), Some(RESPONSE));
    assert_eq!(server.outgoing(a), Some(&RESPONSE[7..]));
    assert_eq!(server.wrote(b, SocketWrite::Error), Step::Close);
    assert_eq!(server.state(b), None);
    assert_eq!(server.wrote(a, SocketWrite::Bytes(RESPONSE.len() - 7)), Step::Wait);
    assert_eq!(server.state(a), Some(ClientState::Connected));
}

#[test]
fn no_dispatch_after_teardown() {
    let mut server = WebSocketServer::from_socket();
    let token = server.accept(SocketAccept::Connection).unwrap();
    assert_eq!(server.read(token, SocketRead::Error), Step::Close);
    assert_eq!(server.len(), 0);
    assert_eq!(server.ready(token, both()), NOTHING);
    assert_eq!(server.read(token, SocketRead::Bytes(REQUEST.to_vec())), Step::Close);
    assert_eq!(server.write(token), Step::Close);
    assert_eq!(server.wrote(token, SocketWrite::Bytes(1)), Step::Close);
    assert_eq!(server.state(token), None);
    assert_eq!(server.interest(token), None);
    assert!(server.outgoing(token).is_none());
    assert!(!server.remove(token));
    assert_eq!(server.len(), 0);
}

#[test]
fn missing_key_closes_without_a_response() {
    let mut server = WebSocketServer::from_socket();
    let token = server.accept(SocketAccept::Connection).unwrap();
    let request = b"GET /chat HTTP/1.1\r\nUpgrade: websocket\r\nConnection: Upgrade\r\n\r\n";
    assert_eq!(server.read(token, SocketRead::Bytes(request.to_vec())), Step::Wait);
    assert_eq!(server.outgoing(token), Some(&b""[..]));
    assert_eq!(server.write(token), Step::Close);
    assert!(server.outgoing(token).is_none());
    assert_eq!(server.state(token), None);
    assert_eq!(server.ready(token, both()), NOTHING);
}

#[test]
fn plain_request_closes_the_connection() {
    let mut server = WebSocketServer::from_socket();
    let token = server.accept(SocketAccept::Connection).unwrap();
    let request = b"GET / HTTP/1.1\r\nHost: example.com\r\n\r\n";
    assert_eq!(server.read(token, SocketRead::Bytes(request.to_vec())), Step::Close);
    assert_eq!(server.state(token), None);
    assert_eq!(server.write(token), Step::Close);
    assert!(server.outgoing(token).is_none());
}

#[test]
fn events_on_the_server_token_reach_no_connection() {
    let mut server = WebSocketServer::from_socket();
    assert_eq!(server.accept(SocketAccept::Connection), Some(1));
    assert_eq!(server.read(SERVER_TOKEN, SocketRead::Bytes(REQUEST.to_vec())), Step::Close);
    assert_eq!(server.write(SERVER_TOKEN), Step::Close);
    assert_eq!(server.state(1), Some(ClientState::AwaitingHandshake));
    assert_eq!(server.len(), 1);
}
