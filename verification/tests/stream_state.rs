use virga::error::{ChannelError, StreamError};
use virga::stream::StreamState;

fn failure(text: &str) -> ChannelError {
    ChannelError::TransportFailure(String::from(text))
}

#[test]
fn connected_means_both_say_so() {
    let up = StreamState::new(true);
    assert!(up.connected());
    assert!(up.is_connected(true));
    assert!(!up.is_connected(false));
    let down = StreamState::new(false);
    assert!(!down.connected());
    assert!(!down.is_connected(true));
    assert!(!down.is_connected(false));
}

#[test]
fn operations_need_a_connection_on_record() {
    assert_eq!(StreamState::new(false).check_connected(), Err(StreamError::NotConnected));
    assert_eq!(StreamState::new(true).check_connected(), Ok(()));
}

#[test]
fn connect_done_records_success_only() {
    let mut state = StreamState::new(false);
    assert_eq!(
        state.connect_done(Err(failure("no route"))),
        Err(StreamError::TransportFailure(failure("no route")))
    );
    assert!(!state.connected());
    assert_eq!(state.connect_done(Ok(())), Ok(()));
    assert!(state.connected());
    assert_eq!(
        state.connect_done(Err(ChannelError::NotConnected)),
        Err(StreamError::TransportFailure(ChannelError::NotConnected))
    );
    assert!(state.connected());
}

#[test]
fn disconnect_done_clears_the_record_on_success_only() {
    let mut state = StreamState::new(true);
    assert_eq!(
        state.disconnect_done(Err(failure("close failed"))),
        Err(StreamError::TransportFailure(failure("close failed")))
    );
    assert!(state.connected());
    assert_eq!(state.disconnect_done(Ok(())), Ok(()));
    assert!(!state.connected());
    assert!(!state.is_connected(true));
}

#[test]
fn disconnect_is_checked_against_unread_bytes() {
    let mut state = StreamState::new(true);
    assert_eq!(state.check_disconnect(), Ok(()));
    let mut buf = [0u8; 2];
    assert_eq!(state.read_buffered(&mut buf), Ok(None));
    assert_eq!(state.deliver(Ok((0..12).collect()), &mut buf), Ok(2));
    assert_eq!(state.pending_len(), 10);
    assert_eq!(state.check_disconnect(), Err(StreamError::PendingDataOnDisconnect(10)));
    let mut rest = [0u8; 9];
    assert_eq!(state.read_buffered(&mut rest), Ok(Some(9)));
    assert_eq!(state.check_disconnect(), Err(StreamError::PendingDataOnDisconnect(1)));
    assert_eq!(state.read_buffered(&mut rest), Ok(Some(1)));
    assert_eq!(rest[0], 11);
    // The boundary is still owed, but nothing would be lost.
    assert_eq!(state.check_disconnect(), Ok(()));
    assert_eq!(state.read_buffered(&mut rest), Ok(Some(0)));
    assert_eq!(state.read_buffered(&mut rest), Ok(None));
}

#[test]
fn a_read_without_a_connection_is_refused() {
    let mut state = StreamState::new(false);
    let mut buf = [8u8; 3];
    assert_eq!(state.read_buffered(&mut buf), Err(StreamError::NotConnected));
    assert_eq!(buf, [8u8; 3]);
    assert_eq!(state.pending_len(), 0);
}

#[test]
fn unread_bytes_outlive_a_lost_connection() {
    let mut state = StreamState::new(true);
    let mut buf = [0u8; 1];
    assert_eq!(state.deliver(Ok(vec![1, 2, 3]), &mut buf), Ok(1));
    assert_eq!(state.disconnect_done(Ok(())), Ok(()));
    assert_eq!(state.read_buffered(&mut buf), Err(StreamError::NotConnected));
    assert_eq!(state.pending_len(), 2);
    assert_eq!(state.connect_done(Ok(())), Ok(()));
    let mut two = [0u8; 2];
    assert_eq!(state.read_buffered(&mut two), Ok(Some(2)));
    assert_eq!(two, [2, 3]);
}

#[test]
fn deliver_passes_a_failure_on() {
    let mut state = StreamState::new(true);
    let mut buf = [6u8; 2];
    assert_eq!(
        state.deliver(Err(failure("reset")), &mut buf),
        Err(StreamError::TransportFailure(failure("reset")))
    );
    assert_eq!(buf, [6u8; 2]);
    assert!(state.connected());
    assert_eq!(state.read_buffered(&mut buf), Ok(None));
}
