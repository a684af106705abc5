use arp::Error;

#[test]
fn test_connection_closed_is_retriable() {
    assert!(Error::ConnectionClosed.is_retriable());
    assert!(Error::Io(std::io::Error::new(std::io::ErrorKind::BrokenPipe, "")).is_retriable());
    assert!(Error::Transport("test".to_string()).is_retriable());
    assert!(Error::Timeout("test".to_string()).is_retriable());
    assert!(!Error::Auth("bad token".to_string()).is_retriable());
    assert!(!Error::Config("bad config".to_string()).is_retriable());
    assert!(!Error::Proxy("rejected".to_string()).is_retriable());
}

#[test]
fn channel_errors_are_retriable_and_data_errors_are_not() {
    assert!(Error::ChannelSend.is_retriable());
    assert!(Error::ChannelRecv.is_retriable());
    assert!(!Error::Protocol("x".to_string()).is_retriable());
    assert!(!Error::Codec("x".to_string()).is_retriable());
    assert!(!Error::InvalidMessage("x".to_string()).is_retriable());
    assert!(!Error::Json("x".to_string()).is_retriable());
    assert!(!Error::Toml("x".to_string()).is_retriable());
    assert!(!Error::Other("x".to_string()).is_retriable());
}
