//! A client connection: the decisions of its poll loop. The loop itself,
//! which reads the socket, runs the services and hands responses to the
//! writer task, drives these decisions from outside.
use vstd::prelude::*;

pub mod connack_response;
pub mod request;
pub mod response;
pub mod retain_store;
pub mod session_manager;

verus! {

/// Where a connection stands.
#[derive(Debug, PartialEq, Eq, Structural, Clone, Copy)]
pub enum ConnectionState {
    /// Waiting for the CONNECT packet.
    PreConnection,
    /// The CONNECT service works on the CONNECT.
    ProcessingConnect,
    /// The CONNACK is to be sent.
    ResponseConnect,
    /// Waiting for the next packet.
    ReadingPacket,
    /// The service works on a packet.
    ProcessingService,
    /// The service's response is to be sent.
    WritingPacket,
}

/// What a connection cares about of a packet it reads or answers with.
#[derive(Debug, PartialEq, Eq, Structural, Clone, Copy)]
pub enum PacketKind {
    Connect,
    Disconnect,
    /// A response that sends nothing.
    NoOperation,
    Other,
}

/// Something that happened to the connection in its current state.
#[derive(Debug, PartialEq, Eq, Structural, Clone, Copy)]
pub enum ConnectionEvent {
    /// A whole packet was read.
    PacketRead(PacketKind),
    /// Reading failed, or the peer closed the connection.
    ReadFailed,
    /// A read or a service is not done yet.
    NotReady,
    /// The service answered.
    ServiceDone,
    /// The service failed.
    ServiceFailed,
    /// The writer task took the packet.
    Sent,
    /// The writer task's queue was full: the packet was dropped.
    QueueFull,
    /// The writer task is gone.
    ChannelClosed,
    /// The response to write is a DISCONNECT.
    DisconnectRequested,
    /// The response to write sends nothing.
    NothingToSend,
}

/// Why a connection ends with an error.
#[derive(Debug, PartialEq, Eq, Structural, Clone, Copy)]
pub enum ConnectionError {
    /// The first packet was not a CONNECT.
    Unexpected,
    /// Reading failed or the peer closed the connection.
    Read,
    /// A service failed.
    Service,
    /// The writer task is gone.
    ChannelClosed,
}

/// What the poll loop does next.
#[derive(Debug, PartialEq, Eq, Structural, Clone, Copy)]
pub enum ConnectionStep {
    /// Stay in the state and wait to be woken (`Pending`).
    Wait,
    /// Go to the state and ask to be polled again (`Pending` after a wake).
    Next(ConnectionState),
    /// The connection is over (`Ready(Ok)`).
    Finish,
    /// The connection ends with an error (`Ready(Err)`).
    Fail(ConnectionError),
}

/// What the connection does on an event in a state: a CONNECT must come
/// first and goes to the CONNECT service, whose answer is sent as the
/// CONNACK; then each packet goes to the service and its response is sent,
/// until a DISCONNECT response ends the connection. A full writer queue
/// drops the packet and goes on; a gone writer, a failed read or a failed
/// service ends the connection with an error. An event that does not belong
/// to the state leaves the connection waiting in it.
pub open spec fn spec_connection_step(state: ConnectionState, event: ConnectionEvent) -> ConnectionStep {
    match state {
        ConnectionState::PreConnection => match event {
            ConnectionEvent::PacketRead(PacketKind::Connect) => ConnectionStep::Next(ConnectionState::ProcessingConnect),
            ConnectionEvent::PacketRead(_) => ConnectionStep::Fail(ConnectionError::Unexpected),
            ConnectionEvent::ReadFailed => ConnectionStep::Fail(ConnectionError::Read),
            _ => ConnectionStep::Wait,
        },
        ConnectionState::ProcessingConnect => match event {
            ConnectionEvent::ServiceDone => ConnectionStep::Next(ConnectionState::ResponseConnect),
            ConnectionEvent::ServiceFailed => ConnectionStep::Fail(ConnectionError::Service),
            _ => ConnectionStep::Wait,
        },
        ConnectionState::ResponseConnect => match event {
            ConnectionEvent::Sent | ConnectionEvent::QueueFull => ConnectionStep::Next(ConnectionState::ReadingPacket),
            ConnectionEvent::ChannelClosed => ConnectionStep::Fail(ConnectionError::ChannelClosed),
            _ => ConnectionStep::Wait,
        },
        ConnectionState::ReadingPacket => match event {
            ConnectionEvent::PacketRead(_) => ConnectionStep::Next(ConnectionState::ProcessingService),
            ConnectionEvent::ReadFailed => ConnectionStep::Fail(ConnectionError::Read),
            _ => ConnectionStep::Wait,
        },
        ConnectionState::ProcessingService => match event {
            ConnectionEvent::ServiceDone => ConnectionStep::Next(ConnectionState::WritingPacket),
            ConnectionEvent::ServiceFailed => ConnectionStep::Fail(ConnectionError::Service),
            _ => ConnectionStep::Wait,
        },
        ConnectionState::WritingPacket => match event {
            ConnectionEvent::DisconnectRequested => ConnectionStep::Finish,
            ConnectionEvent::NothingToSend | ConnectionEvent::Sent | ConnectionEvent::QueueFull => ConnectionStep::Next(
                ConnectionState::ReadingPacket,
            ),
            ConnectionEvent::ChannelClosed => ConnectionStep::Fail(ConnectionError::ChannelClosed),
            _ => ConnectionStep::Wait,
        },
    }
}

/// The next step of the connection on an event.
pub fn connection_step(state: ConnectionState, event: ConnectionEvent) -> (r: ConnectionStep)
    ensures
        r == spec_connection_step(state, event),
{
    match state {
        ConnectionState::PreConnection => match event {
            ConnectionEvent::PacketRead(PacketKind::Connect) => ConnectionStep::Next(ConnectionState::ProcessingConnect),
            ConnectionEvent::PacketRead(_) => ConnectionStep::Fail(ConnectionError::Unexpected),
            ConnectionEvent::ReadFailed => ConnectionStep::Fail(ConnectionError::Read),
            _ => ConnectionStep::Wait,
        },
        ConnectionState::ProcessingConnect => match event {
            ConnectionEvent::ServiceDone => ConnectionStep::Next(ConnectionState::ResponseConnect),
            ConnectionEvent::ServiceFailed => ConnectionStep::Fail(ConnectionError::Service),
            _ => ConnectionStep::Wait,
        },
        ConnectionState::ResponseConnect => match event {
            ConnectionEvent::Sent | ConnectionEvent::QueueFull => ConnectionStep::Next(ConnectionState::ReadingPacket),
            ConnectionEvent::ChannelClosed => ConnectionStep::Fail(ConnectionError::ChannelClosed),
            _ => ConnectionStep::Wait,
        },
        ConnectionState::ReadingPacket => match event {
            ConnectionEvent::PacketRead(_) => ConnectionStep::Next(ConnectionState::ProcessingService),
            ConnectionEvent::ReadFailed => ConnectionStep::Fail(ConnectionError::Read),
            _ => ConnectionStep::Wait,
        },
        ConnectionState::ProcessingService => match event {
            ConnectionEvent::ServiceDone => ConnectionStep::Next(ConnectionState::WritingPacket),
            ConnectionEvent::ServiceFailed => ConnectionStep::Fail(ConnectionError::Service),
            _ => ConnectionStep::Wait,
        },
        ConnectionState::WritingPacket => match event {
            ConnectionEvent::DisconnectRequested => ConnectionStep::Finish,
            ConnectionEvent::NothingToSend | ConnectionEvent::Sent | ConnectionEvent::QueueFull => ConnectionStep::Next(
                ConnectionState::ReadingPacket,
            ),
            ConnectionEvent::ChannelClosed => ConnectionStep::Fail(ConnectionError::ChannelClosed),
            _ => ConnectionStep::Wait,
        },
    }
}

/// What to do with the packet of a response: a DISCONNECT ends the
/// connection, a no-operation sends nothing, any other packet is sent.
pub fn write_event_for(kind: PacketKind) -> (r: Option<ConnectionEvent>)
    ensures
        kind == PacketKind::Disconnect ==> r == Some(ConnectionEvent::DisconnectRequested),
        kind == PacketKind::NoOperation ==> r == Some(ConnectionEvent::NothingToSend),
        kind != PacketKind::Disconnect && kind != PacketKind::NoOperation ==> r is None,
{
    match kind {
        PacketKind::Disconnect => Some(ConnectionEvent::DisconnectRequested),
        PacketKind::NoOperation => Some(ConnectionEvent::NothingToSend),
        _ => None,
    }
}

/// Law: a connection leaves the state that waits for the CONNECT only
/// through a CONNECT or by ending: no other packet reaches a service first.
pub proof fn law_connect_comes_first(event: ConnectionEvent, next: ConnectionState)
    requires
        spec_connection_step(ConnectionState::PreConnection, event) == ConnectionStep::Next(next),
    ensures
        event == ConnectionEvent::PacketRead(PacketKind::Connect),
        next == ConnectionState::ProcessingConnect,
{
}

/// Law: the connection ends without an error only on a DISCONNECT response.
pub proof fn law_only_disconnect_finishes(state: ConnectionState, event: ConnectionEvent)
    requires
        spec_connection_step(state, event) == ConnectionStep::Finish,
    ensures
        state == ConnectionState::WritingPacket,
        event == ConnectionEvent::DisconnectRequested,
{
}

/// Law: once past the CONNECT, a connection never waits for a CONNECT
/// again: no step leads back to the first state.
pub proof fn law_no_return_to_preconnection(state: ConnectionState, event: ConnectionEvent)
    ensures
        spec_connection_step(state, event) != ConnectionStep::Next(ConnectionState::PreConnection),
{
}

/// Law: a full writer queue never ends a connection: the packet is dropped
/// and the connection reads on.
pub proof fn law_full_queue_reads_on(state: ConnectionState)
    requires
        state == ConnectionState::ResponseConnect || state == ConnectionState::WritingPacket,
    ensures
        spec_connection_step(state, ConnectionEvent::QueueFull) == ConnectionStep::Next(ConnectionState::ReadingPacket),
{
}

/// The state of a connection after the events, from `state`, while it
/// goes on; none once a step has ended it.
pub open spec fn spec_run(state: ConnectionState, events: Seq<ConnectionEvent>) -> Option<ConnectionState>
    decreases events.len(),
{
    if events.len() == 0 {
        Some(state)
    } else {
        match spec_connection_step(state, events[0]) {
            ConnectionStep::Wait => spec_run(state, events.drop_first()),
            ConnectionStep::Next(next) => spec_run(next, events.drop_first()),
            _ => None,
        }
    }
}

/// The moves of a connection over the events, from `state`: each state it
/// leaves for another, with the event that moved it, in order.
pub open spec fn spec_transitions(state: ConnectionState, events: Seq<ConnectionEvent>) -> Seq<
    (ConnectionState, ConnectionEvent),
>
    decreases events.len(),
{
    if events.len() == 0 {
        Seq::empty()
    } else {
        match spec_connection_step(state, events[0]) {
            ConnectionStep::Wait => spec_transitions(state, events.drop_first()),
            ConnectionStep::Next(next) => seq![(state, events[0])] + spec_transitions(next, events.drop_first()),
            _ => Seq::empty(),
        }
    }
}

/// How far a connection is through its opening: waiting for the CONNECT,
/// at the CONNECT service, sending the CONNACK, or past it.
pub open spec fn spec_opening_stage(state: ConnectionState) -> int {
    match state {
        ConnectionState::PreConnection => 0,
        ConnectionState::ProcessingConnect => 1,
        ConnectionState::ResponseConnect => 2,
        _ => 3,
    }
}

/// The move that leaves each stage of the opening: the CONNECT read, the
/// CONNECT service's answer, the CONNACK handed to the writer (or dropped
/// on a full queue).
pub open spec fn spec_opening_move(stage: int, mv: (ConnectionState, ConnectionEvent)) -> bool {
    if stage == 0 {
        mv == (ConnectionState::PreConnection, ConnectionEvent::PacketRead(PacketKind::Connect))
    } else if stage == 1 {
        mv == (ConnectionState::ProcessingConnect, ConnectionEvent::ServiceDone)
    } else {
        mv == (ConnectionState::ResponseConnect, ConnectionEvent::Sent) || mv == (
            ConnectionState::ResponseConnect,
            ConnectionEvent::QueueFull,
        )
    }
}

/// Over a run that goes on, each move leaves the stage after the one before
/// (up to the last), the moves out of the opening are the opening moves in
/// order, and the run ends in the stage that its moves reach.
proof fn lemma_run_moves(state: ConnectionState, events: Seq<ConnectionEvent>)
    requires
        spec_run(state, events) is Some,
    ensures
        ({
            let t = spec_transitions(state, events);
            let s0 = spec_opening_stage(state);
            &&& forall|i: int| 0 <= i < t.len() ==> #[trigger] spec_opening_stage(t[i].0) == (if s0 + i < 3 {
                s0 + i
            } else {
                3
            })
            &&& forall|i: int| 0 <= i < t.len() && s0 + i < 3 ==> spec_opening_move(s0 + i, #[trigger] t[i])
            &&& spec_opening_stage(spec_run(state, events)->Some_0) == (if s0 + t.len() < 3 {
                s0 + t.len()
            } else {
                3
            })
        }),
    decreases events.len(),
{
    if events.len() > 0 {
        let rest = events.drop_first();
        match spec_connection_step(state, events[0]) {
            ConnectionStep::Wait => {
                lemma_run_moves(state, rest);
            },
            ConnectionStep::Next(next) => {
                lemma_run_moves(next, rest);
                let t = spec_transitions(state, events);
                let t2 = spec_transitions(next, rest);
                assert(t == seq![(state, events[0])] + t2);
                let s0 = spec_opening_stage(state);
                assert(spec_opening_stage(next) == (if s0 + 1 < 3 { s0 + 1 } else { 3 }));
                assert(s0 < 3 ==> spec_opening_move(s0, (state, events[0])));
                assert forall|i: int| 0 <= i < t.len() implies #[trigger] spec_opening_stage(t[i].0) == (if s0 + i < 3 {
                    s0 + i
                } else {
                    3
                }) by {
                    if i > 0 {
                        assert(t[i] == t2[i - 1]);
                    }
                }
                assert forall|i: int| 0 <= i < t.len() && s0 + i < 3 implies spec_opening_move(s0 + i, #[trigger] t[i]) by {
                    if i > 0 {
                        assert(t[i] == t2[i - 1]);
                    }
                }
            },
            _ => {},
        }
    }
}

/// Running over two stretches of events is running over the first, then
/// over the second from where the first left the connection.
proof fn lemma_run_concat(state: ConnectionState, a: Seq<ConnectionEvent>, b: Seq<ConnectionEvent>)
    ensures
        spec_run(state, a + b) == (match spec_run(state, a) {
            Some(t) => spec_run(t, b),
            None => None,
        }),
    decreases a.len(),
{
    if a.len() > 0 {
        assert((a + b).drop_first() =~= a.drop_first() + b);
        assert((a + b)[0] == a[0]);
        match spec_connection_step(state, a[0]) {
            ConnectionStep::Wait => lemma_run_concat(state, a.drop_first(), b),
            ConnectionStep::Next(next) => lemma_run_concat(next, a.drop_first(), b),
            _ => {},
        }
    } else {
        assert(a + b =~= b);
    }
}

/// Law: a connection polled from its first state reaches its service only
/// after its first three moves were, in this order, the CONNECT read, the
/// CONNECT service's answer and the CONNACK handed to the writer (or
/// dropped on a full queue); every later move is past the opening, so the
/// CONNECT service is called once.
pub proof fn law_service_only_after_connack(events: Seq<ConnectionEvent>)
    requires
        spec_run(ConnectionState::PreConnection, events) == Some(ConnectionState::ProcessingService),
    ensures
        ({
            let t = spec_transitions(ConnectionState::PreConnection, events);
            &&& t.len() >= 3
            &&& t[0] == (ConnectionState::PreConnection, ConnectionEvent::PacketRead(PacketKind::Connect))
            &&& t[1] == (ConnectionState::ProcessingConnect, ConnectionEvent::ServiceDone)
            &&& t[2] == (ConnectionState::ResponseConnect, ConnectionEvent::Sent) || t[2] == (
                ConnectionState::ResponseConnect,
                ConnectionEvent::QueueFull,
            )
            &&& forall|i: int| 3 <= i < t.len() ==> spec_opening_stage(#[trigger] t[i].0) == 3
        }),
{
    lemma_run_moves(ConnectionState::PreConnection, events);
    let t = spec_transitions(ConnectionState::PreConnection, events);
    assert(spec_opening_move(0, t[0]));
    assert(spec_opening_move(1, t[1]));
    assert(spec_opening_move(2, t[2]));
}

/// Law: when the CONNECT service fails, the connection ends with that
/// error, and no later event brings it to its service.
pub proof fn law_connect_failure_ends(events: Seq<ConnectionEvent>, rest: Seq<ConnectionEvent>)
    requires
        spec_run(ConnectionState::PreConnection, events) == Some(ConnectionState::ProcessingConnect),
    ensures
        spec_connection_step(ConnectionState::ProcessingConnect, ConnectionEvent::ServiceFailed) == ConnectionStep::Fail(
            ConnectionError::Service,
        ),
        spec_run(ConnectionState::PreConnection, events.push(ConnectionEvent::ServiceFailed) + rest) is None,
{
    let failed = seq![ConnectionEvent::ServiceFailed];
    assert(events.push(ConnectionEvent::ServiceFailed) + rest =~= events + (failed + rest));
    lemma_run_concat(ConnectionState::PreConnection, events, failed + rest);
    assert((failed + rest)[0] == ConnectionEvent::ServiceFailed);
}

} // verus!
