use org_roamers::client::{
    connection_start, connection_step, ConnectionAction, ConnectionEvent, ConnectionRegistry,
    MessageAction, WebSocketMessage,
};

#[test]
fn message_answers() {
    assert_eq!(WebSocketMessage::Ping.handle(), MessageAction::Reply(WebSocketMessage::Pong));
    assert_eq!(WebSocketMessage::Pong.handle(), MessageAction::Nothing);
    assert_eq!(
        WebSocketMessage::SearchConfigurationRequest.handle(),
        MessageAction::Reply(WebSocketMessage::SearchConfigurationResponse {
            config: vec![(0, "Default search".into()), (1, "Full text search".into())]
        })
    );
    assert_eq!(
        WebSocketMessage::SearchRequest { query: "q".into(), request_id: "r".into() }.handle(),
        MessageAction::StartSearch { query: "q".into(), request_id: "r".into() }
    );
    assert_eq!(WebSocketMessage::BufferModified.handle(), MessageAction::Unsupported);
}

#[test]
fn connection_events() {
    assert_eq!(connection_start(), ConnectionAction::Send(WebSocketMessage::Ping));
    assert_eq!(
        connection_step(ConnectionEvent::Text(Some(WebSocketMessage::Ping))),
        ConnectionAction::Handle(WebSocketMessage::Ping)
    );
    assert_eq!(connection_step(ConnectionEvent::Text(None)), ConnectionAction::Continue);
    assert_eq!(connection_step(ConnectionEvent::OtherFrame), ConnectionAction::Continue);
    assert_eq!(connection_step(ConnectionEvent::PingTick), ConnectionAction::Send(WebSocketMessage::Ping));
    assert_eq!(
        connection_step(ConnectionEvent::ServerMessage(WebSocketMessage::BufferModified)),
        ConnectionAction::Send(WebSocketMessage::BufferModified)
    );
    for ev in [
        ConnectionEvent::Close,
        ConnectionEvent::SocketError,
        ConnectionEvent::StreamEnded,
        ConnectionEvent::ServerChannelClosed,
        ConnectionEvent::SendFailed,
    ] {
        assert_eq!(connection_step(ev), ConnectionAction::Disconnect);
    }
}

#[test]
fn registry_of_connections() {
    let mut reg = ConnectionRegistry::new();
    let a = reg.register_websocket_connection();
    let b = reg.register_websocket_connection();
    let c = reg.register_websocket_connection();
    assert_eq!((a, b, c), (1, 2, 3));
    reg.unregister_websocket_connection(b);
    let mut open = reg.connections();
    open.sort();
    assert_eq!(open, vec![1, 3]);
    reg.remove_failed(&vec![3, 9]);
    assert_eq!(reg.connections(), vec![1]);
    assert_eq!(reg.register_websocket_connection(), 4);
}
