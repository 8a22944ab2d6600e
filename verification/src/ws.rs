//! What a WebSocket connection does with each thing that happens on it.
use vstd::prelude::*;

verus! {

/// Something that happened on a client's WebSocket connection.
#[derive(Clone, Copy, Debug, PartialEq, Eq, Structural)]
pub enum SocketEvent {
    /// The client sent a close frame.
    ClientClosed,
    /// The client's stream ended.
    ClientGone,
    /// The client sent any other frame, or a frame could not be read.
    ClientOther,
    /// An update was broadcast to all clients.
    Broadcast,
    /// This client fell behind the broadcast channel and missed updates.
    Lagged(u64),
    /// The broadcast channel was closed.
    ChannelClosed,
    /// Sending a message to the client failed.
    SendFailed,
}

/// What the connection does next.
#[derive(Clone, Copy, Debug, PartialEq, Eq, Structural)]
pub enum SocketAction {
    /// Keep waiting for the next event.
    Continue,
    /// Send the broadcast update to the client as JSON text, then keep waiting.
    Forward,
    /// Log how many updates were missed, then keep waiting.
    WarnLagged(u64),
    /// End the connection.
    Stop,
}

pub open spec fn socket_action_for(event: SocketEvent) -> SocketAction {
    match event {
        SocketEvent::ClientClosed => SocketAction::Stop,
        SocketEvent::ClientGone => SocketAction::Stop,
        SocketEvent::ClientOther => SocketAction::Continue,
        SocketEvent::Broadcast => SocketAction::Forward,
        SocketEvent::Lagged(n) => SocketAction::WarnLagged(n),
        SocketEvent::ChannelClosed => SocketAction::Stop,
        SocketEvent::SendFailed => SocketAction::Stop,
    }
}

/// Decides what the connection does after an event.
pub fn next_socket_action(event: SocketEvent) -> (action: SocketAction)
    ensures
        action == socket_action_for(event),
{
    match event {
        SocketEvent::ClientClosed => SocketAction::Stop,
        SocketEvent::ClientGone => SocketAction::Stop,
        SocketEvent::ClientOther => SocketAction::Continue,
        SocketEvent::Broadcast => SocketAction::Forward,
        SocketEvent::Lagged(n) => SocketAction::WarnLagged(n),
        SocketEvent::ChannelClosed => SocketAction::Stop,
        SocketEvent::SendFailed => SocketAction::Stop,
    }
}

/// Law: a connection ends exactly when the client closes or goes away, the
/// broadcast channel closes, or a send fails; a lagging client stays connected.
pub proof fn lemma_socket_stops_only_on_end(event: SocketEvent)
    ensures
        (socket_action_for(event) == SocketAction::Stop) <==> (event == SocketEvent::ClientClosed
            || event == SocketEvent::ClientGone || event == SocketEvent::ChannelClosed || event
            == SocketEvent::SendFailed),
{
}

} // verus!
