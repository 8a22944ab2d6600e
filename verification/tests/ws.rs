use sunrisewinds::ws::{next_socket_action, SocketAction, SocketEvent};

#[test]
fn socket_actions() {
    assert_eq!(next_socket_action(SocketEvent::ClientClosed), SocketAction::Stop);
    assert_eq!(next_socket_action(SocketEvent::ClientGone), SocketAction::Stop);
    assert_eq!(next_socket_action(SocketEvent::ClientOther), SocketAction::Continue);
    assert_eq!(next_socket_action(SocketEvent::Broadcast), SocketAction::Forward);
    assert_eq!(next_socket_action(SocketEvent::Lagged(7)), SocketAction::WarnLagged(7));
    assert_eq!(next_socket_action(SocketEvent::ChannelClosed), SocketAction::Stop);
    assert_eq!(next_socket_action(SocketEvent::SendFailed), SocketAction::Stop);
}
