use providence::net::{
    choose_publisher_addrs, client_writer_step, instance_name, is_private_ipv4,
    ClientWriterAction, ConnectionTally, Ipv4Octets, SubscriberGate,
};
use providence::slot::Disconnected;

fn ip(a: u8, b: u8, c: u8, d: u8) -> Ipv4Octets {
    Ipv4Octets { a, b, c, d }
}

#[test]
fn private_blocks() {
    assert!(is_private_ipv4(ip(10, 0, 0, 1)));
    assert!(is_private_ipv4(ip(172, 16, 0, 1)));
    assert!(is_private_ipv4(ip(172, 31, 255, 255)));
    assert!(is_private_ipv4(ip(192, 168, 1, 20)));
    assert!(!is_private_ipv4(ip(172, 15, 0, 1)));
    assert!(!is_private_ipv4(ip(172, 32, 0, 1)));
    assert!(!is_private_ipv4(ip(192, 167, 1, 20)));
    assert!(!is_private_ipv4(ip(8, 8, 8, 8)));
    assert!(!is_private_ipv4(ip(127, 0, 0, 1)));
}

#[test]
fn publisher_addr_choice() {
    let addrs = vec![ip(8, 8, 8, 8), ip(192, 168, 0, 2), ip(127, 0, 0, 1), ip(10, 1, 2, 3)];
    let (first, rest) = choose_publisher_addrs(&addrs).unwrap();
    assert_eq!(first, ip(192, 168, 0, 2));
    assert_eq!(rest, vec![ip(10, 1, 2, 3)]);

    let none = vec![ip(8, 8, 8, 8), ip(127, 0, 0, 1)];
    assert!(choose_publisher_addrs(&none).is_err());
}

#[test]
fn instance_name_format() {
    assert_eq!(instance_name(ip(192, 168, 0, 42)), "providence-192-168-0-42");
    assert_eq!(instance_name(ip(10, 0, 7, 255)), "providence-10-0-7-255");
    assert_eq!(instance_name(ip(172, 16, 100, 9)), "providence-172-16-100-9");
}

#[test]
fn connection_tally() {
    let mut tally = ConnectionTally::new();
    assert!(!tally.has_connection());
    tally.client_enter();
    assert!(tally.has_connection());
    tally.client_enter();
    assert!(tally.has_connection());
    tally.client_exit();
    assert!(tally.has_connection());
    tally.client_exit();
    assert!(!tally.has_connection());
}

#[test]
fn writer_step() {
    assert_eq!(client_writer_step(&Ok(Some(5u32))), ClientWriterAction::Send);
    assert_eq!(client_writer_step::<u32>(&Ok(None)), ClientWriterAction::Skip);
    assert_eq!(client_writer_step::<u32>(&Err(Disconnected)), ClientWriterAction::Exit);
}

#[test]
fn subscriber_gate_joins_once() {
    let mut gate = SubscriberGate::new();
    assert!(!gate.should_join(false));
    assert!(gate.should_join(true));
    assert!(!gate.should_join(true));
    assert!(!gate.should_join(false));
}
