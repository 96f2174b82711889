use vstd::prelude::*;

use crate::error::HttpError;

verus! {

/// The shape of an event as the state machine sees it: payloads are stripped,
/// only the kind of the event matters for validation.
#[derive(Clone, Copy, Debug, PartialEq, Eq, Structural)]
pub enum StateEvent {
    Request,
    InfoResponse,
    Response,
    Data,
    EndOfMessage,
    ConnectionClosed,
}

/// A protocol switch the server may perform while responding.
#[derive(Clone, Copy, Debug, PartialEq, Eq, Structural)]
pub enum SwitchEvent {
    Connect,
    Upgrade,
}

/// Progress of the client side through a request/response cycle.
#[derive(Clone, Copy, Debug, PartialEq, Eq, Structural)]
pub enum Client {
    Idle,
    SendBody,
    Done,
    MustClose,
    Closed,
    MightSwitchProtocol,
    SwitchedProtocol,
    Error,
}

/// Progress of the server side through a request/response cycle.
#[derive(Clone, Copy, Debug, PartialEq, Eq, Structural)]
pub enum Server {
    Idle,
    SendResponse,
    SendBody,
    Done,
    MustClose,
    Closed,
    SwitchedProtocol,
    Error,
}

/// The transition table for the client side alone.
pub open spec fn client_send_spec(c: Client, event: StateEvent) -> Result<Client, HttpError> {
    match (c, event) {
        (Client::Idle, StateEvent::Request) => Ok(Client::SendBody),
        (Client::SendBody, StateEvent::Data) => Ok(Client::SendBody),
        (Client::SendBody, StateEvent::EndOfMessage) => Ok(Client::Done),
        (Client::Idle, StateEvent::ConnectionClosed) => Ok(Client::Closed),
        (Client::Done, StateEvent::ConnectionClosed) => Ok(Client::Closed),
        (Client::MustClose, StateEvent::ConnectionClosed) => Ok(Client::Closed),
        (Client::Closed, StateEvent::ConnectionClosed) => Ok(Client::Closed),
        _ => Err(HttpError::InvalidTransition),
    }
}

/// The transition table for the server side alone, including switches.
pub open spec fn server_send_spec(
    s: Server,
    event: StateEvent,
    switch: Option<SwitchEvent>,
) -> Result<Server, HttpError> {
    match (s, event, switch) {
        (Server::Idle, StateEvent::Request, Option::None) => Ok(Server::SendResponse),
        (Server::SendResponse, StateEvent::InfoResponse, Option::None) => Ok(Server::SendResponse),
        (Server::SendResponse, StateEvent::InfoResponse, Option::Some(SwitchEvent::Upgrade)) => Ok(
            Server::SwitchedProtocol,
        ),
        (Server::SendResponse, StateEvent::Response, Option::Some(SwitchEvent::Connect)) => Ok(
            Server::SwitchedProtocol,
        ),
        (Server::Idle, StateEvent::Response, Option::None) => Ok(Server::SendBody),
        (Server::SendResponse, StateEvent::Response, Option::None) => Ok(Server::SendBody),
        (Server::SendBody, StateEvent::Data, Option::None) => Ok(Server::SendBody),
        (Server::SendBody, StateEvent::EndOfMessage, Option::None) => Ok(Server::Done),
        (Server::Idle, StateEvent::ConnectionClosed, Option::None) => Ok(Server::Closed),
        (Server::Done, StateEvent::ConnectionClosed, Option::None) => Ok(Server::Closed),
        (Server::MustClose, StateEvent::ConnectionClosed, Option::None) => Ok(Server::Closed),
        (Server::Closed, StateEvent::ConnectionClosed, Option::None) => Ok(Server::Closed),
        _ => Err(HttpError::InvalidTransition),
    }
}

impl Client {
    /// One client-side transition, exactly the table in `client_send_spec`.
    pub(crate) fn send(self, event: StateEvent) -> (r: Result<Client, HttpError>)
        ensures
            r == client_send_spec(self, event),
    {
        match (self, event) {
            (Client::Idle, StateEvent::Request) => Ok(Client::SendBody),
            (Client::SendBody, StateEvent::Data) => Ok(Client::SendBody),
            (Client::SendBody, StateEvent::EndOfMessage) => Ok(Client::Done),
            (Client::Idle, StateEvent::ConnectionClosed) => Ok(Client::Closed),
            (Client::Done, StateEvent::ConnectionClosed) => Ok(Client::Closed),
            (Client::MustClose, StateEvent::ConnectionClosed) => Ok(Client::Closed),
            (Client::Closed, StateEvent::ConnectionClosed) => Ok(Client::Closed),
            _ => Err(HttpError::InvalidTransition),
        }
    }
}

impl Server {
    /// One server-side transition, exactly the table in `server_send_spec`.
    pub(crate) fn send(self, event: StateEvent, switch: Option<SwitchEvent>) -> (r: Result<
        Server,
        HttpError,
    >)
        ensures
            r == server_send_spec(self, event, switch),
    {
        match (self, event, switch) {
            (Server::Idle, StateEvent::Request, Option::None) => Ok(Server::SendResponse),
            (Server::SendResponse, StateEvent::InfoResponse, Option::None) => Ok(
                Server::SendResponse,
            ),
            (Server::SendResponse, StateEvent::InfoResponse, Option::Some(SwitchEvent::Upgrade)) => Ok(
                Server::SwitchedProtocol,
            ),
            (Server::SendResponse, StateEvent::Response, Option::Some(SwitchEvent::Connect)) => Ok(
                Server::SwitchedProtocol,
            ),
            (Server::Idle, StateEvent::Response, Option::None) => Ok(Server::SendBody),
            (Server::SendResponse, StateEvent::Response, Option::None) => Ok(Server::SendBody),
            (Server::SendBody, StateEvent::Data, Option::None) => Ok(Server::SendBody),
            (Server::SendBody, StateEvent::EndOfMessage, Option::None) => Ok(Server::Done),
            (Server::Idle, StateEvent::ConnectionClosed, Option::None) => Ok(Server::Closed),
            (Server::Done, StateEvent::ConnectionClosed, Option::None) => Ok(Server::Closed),
            (Server::MustClose, StateEvent::ConnectionClosed, Option::None) => Ok(Server::Closed),
            (Server::Closed, StateEvent::ConnectionClosed, Option::None) => Ok(Server::Closed),
            _ => Err(HttpError::InvalidTransition),
        }
    }
}

/// The connection-level record: both sides' progress plus the keep-alive and
/// pending-switch flags.
#[derive(Clone, Copy, Debug, PartialEq, Eq, Structural)]
pub struct State {
    pub client: Client,
    pub server: Server,
    pub keep_alive: bool,
    pub pending_connect: bool,
    pub pending_upgrade: bool,
}

/// Whether either protocol switch is still proposed.
pub open spec fn spec_any_pending(s: State) -> bool {
    s.pending_connect || s.pending_upgrade
}

/// One pass of the closure rules, applied in order:
/// switch pendency moves the client between `Done` and `MightSwitchProtocol`,
/// a dropped keep-alive turns `Done` into `MustClose` on both sides, and the
/// paired promotions propagate closes, errors and accepted switches.
pub open spec fn step_spec(s: State) -> State {
    let s1 = if spec_any_pending(s) && s.client == Client::Done {
        State { client: Client::MightSwitchProtocol, ..s }
    } else {
        s
    };
    let s2 = if !spec_any_pending(s1) && s1.client == Client::MightSwitchProtocol {
        State { client: Client::Done, ..s1 }
    } else {
        s1
    };
    let s3 = if !s2.keep_alive {
        State {
            client: if s2.client == Client::Done {
                Client::MustClose
            } else {
                s2.client
            },
            server: if s2.server == Server::Done {
                Server::MustClose
            } else {
                s2.server
            },
            ..s2
        }
    } else {
        s2
    };
    match (s3.client, s3.server) {
        (Client::MightSwitchProtocol, Server::SwitchedProtocol) => State {
            client: Client::SwitchedProtocol,
            ..s3
        },
        (Client::Closed, Server::Done) => State { server: Server::MustClose, ..s3 },
        (Client::Closed, Server::Idle) => State { server: Server::MustClose, ..s3 },
        (Client::Error, Server::Done) => State { server: Server::MustClose, ..s3 },
        (Client::Done, Server::Closed) => State { client: Client::MustClose, ..s3 },
        (Client::Idle, Server::Closed) => State { client: Client::MustClose, ..s3 },
        (Client::Done, Server::Error) => State { client: Client::MustClose, ..s3 },
        _ => s3,
    }
}

/// The closure of the rules in `step_spec`: four passes always reach the
/// fixpoint (`lemma_state_transitions_converge`).
pub open spec fn converge_spec(s: State) -> State {
    step_spec(step_spec(step_spec(step_spec(s))))
}

/// The state after a client-side event: both tables consulted, then the
/// closure rules applied.
pub open spec fn client_event_spec(s: State, event: StateEvent) -> Result<State, HttpError> {
    match client_send_spec(s.client, event) {
        Err(e) => Err(e),
        Ok(c) => {
            if event == StateEvent::Request {
                match server_send_spec(s.server, StateEvent::Request, Option::None) {
                    Err(e) => Err(e),
                    Ok(v) => Ok(converge_spec(State { client: c, server: v, ..s })),
                }
            } else {
                Ok(converge_spec(State { client: c, ..s }))
            }
        },
    }
}

/// The state after a server-side event: a switch demands its proposal, a
/// final response without a switch clears both proposals, then the closure
/// rules are applied.
pub open spec fn server_event_spec(
    s: State,
    event: StateEvent,
    switch: Option<SwitchEvent>,
) -> Result<State, HttpError> {
    if switch == Option::Some(SwitchEvent::Connect) && !s.pending_connect {
        Err(HttpError::InvalidSwitch)
    } else if switch == Option::Some(SwitchEvent::Upgrade) && !s.pending_upgrade {
        Err(HttpError::InvalidSwitch)
    } else {
        match server_send_spec(s.server, event, switch) {
            Err(e) => Err(e),
            Ok(v) => {
                let clear = switch is None && event == StateEvent::Response;
                Ok(
                    converge_spec(
                        State {
                            server: v,
                            pending_connect: if clear {
                                false
                            } else {
                                s.pending_connect
                            },
                            pending_upgrade: if clear {
                                false
                            } else {
                                s.pending_upgrade
                            },
                            ..s
                        },
                    ),
                )
            },
        }
    }
}

/// The state of a connection at birth.
pub open spec fn new_state_spec() -> State {
    State {
        client: Client::Idle,
        server: Server::Idle,
        keep_alive: true,
        pending_connect: false,
        pending_upgrade: false,
    }
}

impl State {
    /// A fresh connection: both sides idle, keep-alive on, no switch proposed.
    pub fn new() -> (r: Self)
        ensures
            r == new_state_spec(),
    {
        Self {
            client: Client::Idle,
            server: Server::Idle,
            keep_alive: true,
            pending_connect: false,
            pending_upgrade: false,
        }
    }

    /// Both sides' progress, as a pair.
    pub fn states(self) -> (r: (Client, Server))
        ensures
            r == (self.client, self.server),
    {
        (self.client, self.server)
    }

    /// Validates and applies an event sent by the client. A `Request` also
    /// drives the server from `Idle` to `SendResponse`.
    pub fn client_event(self, event: StateEvent) -> (r: Result<Self, HttpError>)
        ensures
            r == client_event_spec(self, event),
    {
        let client = match self.client.send(event) {
            Ok(c) => c,
            Err(e) => {
                return Err(e);
            },
        };
        let server = if event == StateEvent::Request {
            match self.server.send(StateEvent::Request, Option::None) {
                Ok(v) => v,
                Err(e) => {
                    return Err(e);
                },
            }
        } else {
            self.server
        };
        Ok(State { client, server, ..self }.state_transitions())
    }

    /// Validates and applies an event sent by the server, with an optional
    /// protocol switch that demands the matching proposal.
    pub fn server_event(self, event: StateEvent, switch: Option<SwitchEvent>) -> (r: Result<
        Self,
        HttpError,
    >)
        ensures
            r == server_event_spec(self, event, switch),
    {
        match switch {
            Option::Some(SwitchEvent::Connect) => {
                if !self.pending_connect {
                    return Err(HttpError::InvalidSwitch);
                }
            },
            Option::Some(SwitchEvent::Upgrade) => {
                if !self.pending_upgrade {
                    return Err(HttpError::InvalidSwitch);
                }
            },
            Option::None => {},
        }
        let server = match self.server.send(event, switch) {
            Ok(v) => v,
            Err(e) => {
                return Err(e);
            },
        };
        let clear = switch.is_none() && event == StateEvent::Response;
        Ok(
            State {
                server,
                pending_connect: if clear {
                    false
                } else {
                    self.pending_connect
                },
                pending_upgrade: if clear {
                    false
                } else {
                    self.pending_upgrade
                },
                ..self
            }.state_transitions(),
        )
    }

    /// Marks the client side as broken (inbound parse failure) and lets the
    /// closure rules converge the peer towards `MustClose`.
    pub fn client_error(self) -> (r: Self)
        ensures
            r == converge_spec(State { client: Client::Error, ..self }),
    {
        State { client: Client::Error, ..self }.state_transitions()
    }

    /// Marks the server side as broken and converges the peer.
    pub fn server_error(self) -> (r: Self)
        ensures
            r == converge_spec(State { server: Server::Error, ..self }),
    {
        State { server: Server::Error, ..self }.state_transitions()
    }

    /// Records that the request proposed a `CONNECT` tunnel.
    pub fn connect_proposal(self) -> (r: Self)
        ensures
            r == converge_spec(State { pending_connect: true, ..self }),
    {
        State { pending_connect: true, ..self }.state_transitions()
    }

    /// Records that the request proposed an `Upgrade`.
    pub fn upgrade_proposal(self) -> (r: Self)
        ensures
            r == converge_spec(State { pending_upgrade: true, ..self }),
    {
        State { pending_upgrade: true, ..self }.state_transitions()
    }

    /// Drops keep-alive: once off, `Done` converges to `MustClose` on both
    /// sides.
    pub fn disable_keep_alive(self) -> (r: Self)
        ensures
            r == converge_spec(State { keep_alive: false, ..self }),
    {
        State { keep_alive: false, ..self }.state_transitions()
    }

    /// Begins the next request/response cycle. This succeeds exactly when
    /// both sides are `Done`; any other pair of states is refused and left
    /// unchanged.
    pub fn start_next_cycle(self) -> (r: Result<Self, HttpError>)
        ensures
            self.client == Client::Done && self.server == Server::Done ==> r == Ok::<
                State,
                HttpError,
            >(State { client: Client::Idle, server: Server::Idle, ..self }),
            !(self.client == Client::Done && self.server == Server::Done) ==> r == Err::<
                State,
                HttpError,
            >(HttpError::InvalidTransition),
    {
        if !(self.client == Client::Done && self.server == Server::Done) {
            return Err(HttpError::InvalidTransition);
        }
        Ok(State { client: Client::Idle, server: Server::Idle, ..self })
    }

    /// One pass of the closure rules.
    fn step(self) -> (r: Self)
        ensures
            r == step_spec(self),
    {
        let mut s = self;
        if s.any_pending() && s.client == Client::Done {
            s.client = Client::MightSwitchProtocol;
        }
        if !s.any_pending() && s.client == Client::MightSwitchProtocol {
            s.client = Client::Done;
        }
        if !s.keep_alive {
            if s.client == Client::Done {
                s.client = Client::MustClose;
            }
            if s.server == Server::Done {
                s.server = Server::MustClose;
            }
        }
        match (s.client, s.server) {
            (Client::MightSwitchProtocol, Server::SwitchedProtocol) => {
                s.client = Client::SwitchedProtocol;
            },
            (Client::Closed, Server::Done)
            | (Client::Closed, Server::Idle)
            | (Client::Error, Server::Done) => {
                s.server = Server::MustClose;
            },
            (Client::Done, Server::Closed)
            | (Client::Idle, Server::Closed)
            | (Client::Done, Server::Error) => {
                s.client = Client::MustClose;
            },
            _ => {},
        }
        s
    }

    /// Applies the closure rules until the states stabilise. Four passes
    /// always suffice (`lemma_state_transitions_converge`), so that is what
    /// runs.
    pub fn state_transitions(self) -> (r: Self)
        ensures
            r == converge_spec(self),
    {
        self.step().step().step().step()
    }

    /// Whether either protocol switch is still proposed.
    pub fn any_pending(self) -> (r: bool)
        ensures
            r == spec_any_pending(self),
    {
        self.pending_connect || self.pending_upgrade
    }
}

impl Default for State {
    /// Same as `State::new`.
    fn default() -> (r: Self)
        ensures
            r == new_state_spec(),
    {
        Self::new()
    }
}

/// The closure of the transition rules converges within a bounded number of
/// passes: after the four passes of `converge_spec`, one more pass changes
/// nothing, for every state.
pub proof fn lemma_state_transitions_converge(s: State)
    ensures
        step_spec(converge_spec(s)) == converge_spec(s),
{
}

/// A full request/response cycle on a connection whose keep-alive is off
/// (as it is after any head carrying `Connection: close`) leaves both sides
/// in `MustClose`, never in `Done`, and the connection cannot be reused.
pub proof fn lemma_close_cycle_ends_must_close(s0: State)
    requires
        s0.client == Client::Idle,
        s0.server == Server::Idle,
        !s0.keep_alive,
        !s0.pending_connect,
        !s0.pending_upgrade,
    ensures
        ({
            let r1 = client_event_spec(s0, StateEvent::Request);
            &&& r1 is Ok
            &&& {
                let r2 = client_event_spec(r1->Ok_0, StateEvent::EndOfMessage);
                &&& r2 is Ok
                &&& r2->Ok_0.client == Client::MustClose
                &&& {
                    let r3 = server_event_spec(r2->Ok_0, StateEvent::Response, Option::None);
                    &&& r3 is Ok
                    &&& {
                        let r4 = server_event_spec(r3->Ok_0, StateEvent::EndOfMessage, Option::None);
                        &&& r4 is Ok
                        &&& r4->Ok_0.client == Client::MustClose
                        &&& r4->Ok_0.server == Server::MustClose
                    }
                }
            }
        }),
{
}

} // verus!
