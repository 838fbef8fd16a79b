use gpg_bridge::classify_endpoint;
use gpg_bridge::other_error;
use gpg_bridge::report_data_err;
use gpg_bridge::zero_buffer;
use gpg_bridge::Args;
use gpg_bridge::BridgeError;
use gpg_bridge::EndpointKind;
use gpg_bridge::SocketType;

#[test]
fn socket_type_names_match_gpgconf_entries() {
    assert_eq!(SocketType::Ssh.name(), "agent-ssh-socket");
    assert_eq!(SocketType::Extra.name(), "agent-extra-socket");
}

#[test]
fn pipe_addresses_are_recognized_by_prefix() {
    let addr = b"\\\\.\\pipe\\gpg-bridge-test".to_vec();
    assert_eq!(classify_endpoint(&addr), EndpointKind::Pipe);
    assert_eq!(classify_endpoint(&b"127.0.0.1:4170".to_vec()), EndpointKind::Tcp);
    assert_eq!(classify_endpoint(&b"localhost:4170".to_vec()), EndpointKind::Tcp);
    // Almost, but not quite, the pipe prefix.
    assert_eq!(classify_endpoint(&b"\\\\.\\pip\\x".to_vec()), EndpointKind::Tcp);
    assert_eq!(classify_endpoint(&b"".to_vec()), EndpointKind::Tcp);
    // The bare prefix alone is still a pipe address.
    assert_eq!(classify_endpoint(&b"\\\\.\\pipe\\".to_vec()), EndpointKind::Pipe);
}

#[test]
fn args_need_at_least_one_listen_address() {
    let neither = Args { ssh: None, extra: None, extra_socket: None, detach: false };
    assert!(!neither.is_valid());
    let ssh_only = Args {
        ssh: Some("127.0.0.1:4170".to_string()),
        extra: None,
        extra_socket: None,
        detach: false,
    };
    assert!(ssh_only.is_valid());
    let extra_only = Args {
        ssh: None,
        extra: Some("\\\\.\\pipe\\gpg-extra".to_string()),
        extra_socket: Some("C:\\gnupg\\S.gpg-agent.extra".to_string()),
        detach: true,
    };
    assert!(extra_only.is_valid());
}

#[test]
fn error_constructors_keep_kind_and_message() {
    let e = report_data_err("wrong data format".to_string());
    assert!(matches!(&e, BridgeError::InvalidData(m) if m == "wrong data format"));
    let e = other_error("message too large".to_string());
    assert!(matches!(&e, BridgeError::Other(m) if m == "message too large"));
    assert_eq!(e.message().as_str(), "message too large");
}

#[test]
fn zero_buffer_wipes_every_byte() {
    let mut buf: Vec<u8> = (1u8..=100).collect();
    zero_buffer(&mut buf);
    assert_eq!(buf.len(), 100);
    assert!(buf.iter().all(|&b| b == 0));
    let mut empty: Vec<u8> = Vec::new();
    zero_buffer(&mut empty);
    assert!(empty.is_empty());
}
