use h11::state::{Client, Server, State, StateEvent, SwitchEvent};

use StateEvent::{ConnectionClosed, Data, EndOfMessage, InfoResponse, Request, Response};
use SwitchEvent::{Connect, Upgrade};

#[test]
fn basic_transitions() {
    let mut cs = State::new();

    assert_eq!((Client::Idle, Server::Idle), cs.states());

    cs = cs.client_event(Request).expect("client sends request");
    assert_eq!((Client::SendBody, Server::SendResponse), cs.states());

    assert!(cs.client_event(Request).is_err());

    cs = cs
        .server_event(InfoResponse, None)
        .expect("server sends info response");
    assert_eq!((Client::SendBody, Server::SendResponse), cs.states());

    cs = cs
        .server_event(Response, None)
        .expect("server sends response");
    assert_eq!((Client::SendBody, Server::SendBody), cs.states());

    cs = cs
        .client_event(EndOfMessage)
        .expect("client ends message")
        .server_event(EndOfMessage, None)
        .expect("server ends message");
    assert_eq!((Client::Done, Server::Done), cs.states());

    cs = cs
        .server_event(ConnectionClosed, None)
        .expect("server closes connection");
    assert_eq!((Client::MustClose, Server::Closed), cs.states());
}

#[test]
fn disable_keep_alive() {
    let mut cs = State::new()
        .client_event(Request)
        .expect("client sends request")
        .disable_keep_alive()
        .client_event(EndOfMessage)
        .expect("client ends message");
    assert_eq!((Client::MustClose, Server::SendResponse), cs.states());

    cs = cs
        .server_event(Response, None)
        .expect("server sends response")
        .server_event(EndOfMessage, None)
        .expect("server ends message");
    assert_eq!((Client::MustClose, Server::MustClose), cs.states());
}

#[test]
fn disable_keep_alive_in_done() {
    let mut cs = State::new()
        .client_event(Request)
        .expect("client sends request")
        .client_event(EndOfMessage)
        .expect("client ends message");
    assert_eq!(Client::Done, cs.client);
    cs = cs.disable_keep_alive();
    assert_eq!(Client::MustClose, cs.client);
}

#[test]
fn connect_switch_denied_early() {
    let mut cs = State::new()
        .connect_proposal()
        .client_event(Request)
        .expect("client sends request")
        .client_event(Data)
        .expect("client sends data");
    assert_eq!((Client::SendBody, Server::SendResponse), cs.states());

    cs = cs
        .server_event(Response, None)
        .expect("server sends response");
    assert!(!cs.pending_connect);

    cs = cs.client_event(EndOfMessage).expect("client ends message");
    assert_eq!((Client::Done, Server::SendBody), cs.states());
}

#[test]
fn connect_switch_denied_late() {
    let mut cs = State::new()
        .connect_proposal()
        .client_event(Request)
        .expect("client sends request")
        .client_event(Data)
        .expect("client sends data");
    assert_eq!((Client::SendBody, Server::SendResponse), cs.states());

    cs = cs.client_event(EndOfMessage).expect("client ends message");
    assert_eq!((Client::MightSwitchProtocol, Server::SendResponse), cs.states());
    cs = cs
        .server_event(InfoResponse, None)
        .expect("server sends info response");
    assert_eq!((Client::MightSwitchProtocol, Server::SendResponse), cs.states());

    cs = cs
        .server_event(Response, None)
        .expect("server sends response");
    assert_eq!((Client::Done, Server::SendBody), cs.states());
    assert!(!cs.pending_connect);
}

#[test]
fn upgrade_switch_denied_early() {
    let mut cs = State::new()
        .upgrade_proposal()
        .client_event(Request)
        .expect("client sends request")
        .client_event(Data)
        .expect("client sends data");
    assert_eq!((Client::SendBody, Server::SendResponse), cs.states());

    cs = cs
        .server_event(Response, None)
        .expect("server sends response");
    assert!(!cs.pending_upgrade);

    cs = cs.client_event(EndOfMessage).expect("client ends message");
    assert_eq!((Client::Done, Server::SendBody), cs.states());
}

#[test]
fn upgrade_switch_denied_late() {
    let mut cs = State::new()
        .upgrade_proposal()
        .client_event(Request)
        .expect("client sends request")
        .client_event(Data)
        .expect("client sends data");
    assert_eq!((Client::SendBody, Server::SendResponse), cs.states());

    cs = cs.client_event(EndOfMessage).expect("client ends message");
    assert_eq!((Client::MightSwitchProtocol, Server::SendResponse), cs.states());
    cs = cs
        .server_event(InfoResponse, None)
        .expect("server sends info response");
    assert_eq!((Client::MightSwitchProtocol, Server::SendResponse), cs.states());

    cs = cs
        .server_event(Response, None)
        .expect("server sends response");
    assert_eq!((Client::Done, Server::SendBody), cs.states());
    assert!(!cs.pending_upgrade);
}

#[test]
fn connect_switch_accepted() {
    let mut cs = State::new()
        .connect_proposal()
        .client_event(Request)
        .expect("client sends request")
        .client_event(Data)
        .expect("client sends data");
    assert_eq!((Client::SendBody, Server::SendResponse), cs.states());

    cs = cs.client_event(EndOfMessage).expect("client ends message");
    assert_eq!((Client::MightSwitchProtocol, Server::SendResponse), cs.states());

    cs = cs
        .server_event(InfoResponse, None)
        .expect("server sends info response");
    assert_eq!((Client::MightSwitchProtocol, Server::SendResponse), cs.states());

    cs = cs
        .server_event(Response, Some(Connect))
        .expect("server sends response accepting connect");
    assert_eq!((Client::SwitchedProtocol, Server::SwitchedProtocol), cs.states());
}

#[test]
fn upgarde_switch_accepted() {
    let mut cs = State::new()
        .upgrade_proposal()
        .client_event(Request)
        .expect("client sends request")
        .client_event(Data)
        .expect("client sends data");
    assert_eq!((Client::SendBody, Server::SendResponse), cs.states());

    cs = cs.client_event(EndOfMessage).expect("client ends message");
    assert_eq!((Client::MightSwitchProtocol, Server::SendResponse), cs.states());

    cs = cs
        .server_event(InfoResponse, None)
        .expect("server sends info response");
    assert_eq!((Client::MightSwitchProtocol, Server::SendResponse), cs.states());

    cs = cs
        .server_event(InfoResponse, Some(Upgrade))
        .expect("server sends info response accepting upgrade");
    assert_eq!((Client::SwitchedProtocol, Server::SwitchedProtocol), cs.states());
}

#[test]
fn double_protocol_switch_deny() {
    let mut cs = State::new()
        .upgrade_proposal()
        .connect_proposal()
        .client_event(Request)
        .expect("client sends request")
        .client_event(Data)
        .expect("client sends data")
        .client_event(EndOfMessage)
        .expect("client ends message");
    assert_eq!((Client::MightSwitchProtocol, Server::SendResponse), cs.states());
    cs = cs
        .server_event(Response, None)
        .expect("server sends response");
    assert_eq!((Client::Done, Server::SendBody), cs.states());
}

#[test]
fn double_protocol_switch_connect() {
    let mut cs = State::new()
        .upgrade_proposal()
        .connect_proposal()
        .client_event(Request)
        .expect("client sends request")
        .client_event(Data)
        .expect("client sends data")
        .client_event(EndOfMessage)
        .expect("client ends message");
    assert_eq!((Client::MightSwitchProtocol, Server::SendResponse), cs.states());
    cs = cs
        .server_event(Response, Some(Connect))
        .expect("server sends response accepting connect");
    assert_eq!((Client::SwitchedProtocol, Server::SwitchedProtocol), cs.states());
}

#[test]
fn double_protocol_switch_upgrade() {
    let mut cs = State::new()
        .upgrade_proposal()
        .connect_proposal()
        .client_event(Request)
        .expect("client sends request")
        .client_event(Data)
        .expect("client sends data")
        .client_event(EndOfMessage)
        .expect("client ends message");
    assert_eq!((Client::MightSwitchProtocol, Server::SendResponse), cs.states());
    cs = cs
        .server_event(InfoResponse, Some(Upgrade))
        .expect("server sends info response accepting upgrade");
    assert_eq!((Client::SwitchedProtocol, Server::SwitchedProtocol), cs.states());
}

#[test]
fn bad_protocol_switch_server_connect() {
    let cs = State::new()
        .client_event(Request)
        .expect("client sends request");
    assert!(cs.server_event(Response, Some(Connect)).is_err());
}

#[test]
fn bad_protocol_switch_server_upgrade() {
    let cs = State::new()
        .client_event(Request)
        .expect("client sends request");
    assert!(cs.server_event(Response, Some(Upgrade)).is_err());
}

#[test]
fn bad_protocol_switch_client_upgrade_server_connect() {
    let cs = State::new()
        .client_event(Request)
        .expect("client sends request")
        .upgrade_proposal();
    assert!(cs.server_event(Response, Some(Connect)).is_err());
}

#[test]
fn bad_protocol_switch_client_connect_server_upgrade() {
    let cs = State::new()
        .client_event(Request)
        .expect("client sends request")
        .connect_proposal();
    assert!(cs.server_event(Response, Some(Upgrade)).is_err());
}

#[test]
fn keep_alive_protocol_switch() {
    let mut cs = State::new()
        .upgrade_proposal()
        .client_event(Request)
        .expect("client sends request")
        .disable_keep_alive()
        .client_event(Data)
        .expect("client sends data");
    assert_eq!((Client::SendBody, Server::SendResponse), cs.states());

    cs = cs.client_event(EndOfMessage).expect("client ends message");
    assert_eq!((Client::MightSwitchProtocol, Server::SendResponse), cs.states());

    cs = cs
        .server_event(Response, None)
        .expect("server sends response");
    assert_eq!((Client::MustClose, Server::SendBody), cs.states());
}

#[test]
fn connection_reuse() {
    let mut cs = State::new();

    assert!(cs.start_next_cycle().is_err());

    cs = cs
        .client_event(Request)
        .expect("client sends request")
        .client_event(EndOfMessage)
        .expect("client ends message");

    assert!(cs.start_next_cycle().is_err());

    cs = cs
        .server_event(Response, None)
        .expect("server sends response")
        .server_event(EndOfMessage, None)
        .expect("server ends message");

    cs = cs.start_next_cycle().expect("start next cycle");
    assert_eq!((Client::Idle, Server::Idle), cs.states());

    cs = cs
        .client_event(Request)
        .expect("client sends request")
        .disable_keep_alive()
        .client_event(EndOfMessage)
        .expect("client ends message")
        .server_event(Response, None)
        .expect("server sends response")
        .server_event(EndOfMessage, None)
        .expect("server ends message");

    assert!(cs.start_next_cycle().is_err());

    let cs = State::new()
        .client_event(Request)
        .expect("client sends request")
        .disable_keep_alive()
        .client_event(EndOfMessage)
        .expect("client ends message")
        .client_event(ConnectionClosed)
        .expect("client closes connection")
        .server_event(Response, None)
        .expect("server sends response")
        .server_event(EndOfMessage, None)
        .expect("server ends message");

    assert!(cs.start_next_cycle().is_err());
}

#[test]
fn transitions_converge_within_four_passes() {
    // one more pass after the closure changes nothing
    let cs = State::new()
        .disable_keep_alive()
        .client_event(Request)
        .expect("client sends request")
        .client_event(EndOfMessage)
        .expect("client ends message");
    assert_eq!(cs, cs.state_transitions());

    let cs2 = State::new().connect_proposal();
    assert_eq!(cs2, cs2.state_transitions());
}
