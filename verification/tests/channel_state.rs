use virga::client::ClientConfig;
use virga::error::{surface, ChannelError, StreamError};
use virga::transport::{finish_recv, finish_send, ChannelState, Endpoint, Role, StreamKind};

#[test]
fn a_new_channel_is_disconnected() {
    let client = ChannelState::new_client();
    assert_eq!(client.role(), Role::Client);
    assert!(!client.is_connected());
    let server = ChannelState::new_server();
    assert_eq!(server.role(), Role::Server);
    assert!(!server.is_connected());
}

#[test]
fn send_and_recv_need_a_connection() {
    let mut state = ChannelState::new_client();
    assert_eq!(state.begin_send(), Err(ChannelError::NotConnected));
    assert_eq!(state.begin_recv(), Err(ChannelError::NotConnected));
    assert_eq!(state.on_connect(Ok(())), Ok(()));
    assert!(state.is_connected());
    assert_eq!(state.begin_send(), Ok(StreamKind::Outbound));
    assert_eq!(state.begin_recv(), Ok(StreamKind::Inbound));
    state.on_disconnect();
    assert!(!state.is_connected());
    assert_eq!(state.begin_send(), Err(ChannelError::NotConnected));
    assert_eq!(state.begin_recv(), Err(ChannelError::NotConnected));
    assert_eq!(state.role(), Role::Client);
}

#[test]
fn every_send_asks_for_a_new_outbound_stream() {
    let mut state = ChannelState::new_server();
    state.on_connect(Ok(())).unwrap();
    assert_eq!(state.begin_send(), Ok(StreamKind::Outbound));
    assert_eq!(state.begin_send(), Ok(StreamKind::Outbound));
    assert_eq!(state.begin_recv(), Ok(StreamKind::Inbound));
    assert_eq!(state.begin_send(), Ok(StreamKind::Outbound));
}

#[test]
fn a_failed_connect_keeps_the_state() {
    let mut state = ChannelState::new_client();
    assert_eq!(
        state.on_connect(Err(String::from("refused"))),
        Err(ChannelError::TransportFailure(String::from("refused")))
    );
    assert!(!state.is_connected());
    state.on_connect(Ok(())).unwrap();
    assert_eq!(
        state.on_connect(Err(String::from("busy"))),
        Err(ChannelError::TransportFailure(String::from("busy")))
    );
    assert!(state.is_connected());
}

#[test]
fn finish_send_reports_the_whole_length_or_the_cause() {
    assert_eq!(finish_send(512, Ok(())), Ok(512));
    assert_eq!(finish_send(0, Ok(())), Ok(0));
    assert_eq!(
        finish_send(512, Err(String::from("closed"))),
        Err(ChannelError::TransportFailure(String::from("closed")))
    );
}

#[test]
fn finish_recv_reports_the_message_or_the_cause() {
    assert_eq!(finish_recv(Ok(vec![1, 2, 3])), Ok(vec![1, 2, 3]));
    assert_eq!(finish_recv(Ok(Vec::new())), Ok(Vec::new()));
    assert_eq!(
        finish_recv(Err(String::from("reset"))),
        Err(ChannelError::TransportFailure(String::from("reset")))
    );
}

#[test]
fn surface_wraps_the_cause() {
    assert_eq!(surface(Ok::<usize, ChannelError>(3)), Ok(3));
    assert_eq!(
        surface(Err::<usize, ChannelError>(ChannelError::NotConnected)),
        Err(StreamError::TransportFailure(ChannelError::NotConnected))
    );
    let cause = ChannelError::TransportFailure(String::from("reset"));
    assert_eq!(
        surface(Err::<Vec<u8>, ChannelError>(cause.clone())),
        Err(StreamError::TransportFailure(cause))
    );
}

#[test]
fn only_a_transport_failure_costs_the_channel() {
    assert!(StreamError::NotConnected.is_recoverable());
    assert!(StreamError::PendingDataOnDisconnect(10).is_recoverable());
    assert!(!StreamError::TransportFailure(ChannelError::NotConnected).is_recoverable());
    assert!(
        !StreamError::TransportFailure(ChannelError::TransportFailure(String::from("x")))
            .is_recoverable()
    );
}

#[test]
fn config_names_the_endpoint() {
    let config = ClientConfig::new(2, 1234, 1024, false);
    assert_eq!(config.server_cid, 2);
    assert_eq!(config.server_port, 1234);
    assert_eq!(config.chunk_size, 1024);
    assert!(!config.is_ack);
    assert_eq!(config.endpoint(), Endpoint::new(2, 1234));
    assert_eq!(config.endpoint(), Endpoint { cid: 2, port: 1234 });
}

#[test]
fn reserved_options_change_nothing() {
    let plain = ClientConfig::new(3, 99, 0, false);
    let tuned = ClientConfig::new(3, 99, 65536, true);
    assert_eq!(plain.endpoint(), tuned.endpoint());
}
