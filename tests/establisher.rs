use massa_bootstrap::address::{normalize_remote_address, IpAddress, SocketAddress};
use massa_bootstrap::establisher::{
    settle_connect, ConnectError, DefaultEstablisher, ListenerSetup, SocketDomain, LISTEN_BACKLOG,
};

const MAPPED_192_168_1_2: u128 = 0xffff_c0a8_0102;

#[test]
fn mapped_ipv6_becomes_ipv4() {
    let ip = IpAddress::V6(MAPPED_192_168_1_2);
    assert_eq!(ip.to_canonical(), IpAddress::V4(0xc0a8_0102));
}

#[test]
fn plain_ipv6_stays_ipv6() {
    let loopback = IpAddress::V6(1);
    assert_eq!(loopback.to_canonical(), loopback);
    // an IPv4-compatible address (::192.168.1.2) is not a mapped one
    let compatible = IpAddress::V6(0xc0a8_0102);
    assert_eq!(compatible.to_canonical(), compatible);
    // the marker alone in a higher position does not make a mapped address
    let other = IpAddress::V6(0x1_0000_ffff_c0a8_0102);
    assert_eq!(other.to_canonical(), other);
}

#[test]
fn ipv4_stays_ipv4() {
    let ip = IpAddress::V4(0x7f00_0001);
    assert_eq!(ip.to_canonical(), ip);
    assert!(ip.is_ipv4());
    assert!(!ip.is_ipv6());
}

#[test]
fn remote_address_is_normalised_with_its_port() {
    let remote = SocketAddress::V6 { ip: MAPPED_192_168_1_2, port: 31245, flowinfo: 7, scope_id: 3 };
    let r = normalize_remote_address(remote);
    assert_eq!(r, SocketAddress::V4 { ip: 0xc0a8_0102, port: 31245 });
    assert_eq!(r.port(), 31245);
    assert!(r.is_ipv4());
}

#[test]
fn remote_ipv6_address_is_kept_whole() {
    let remote = SocketAddress::V6 { ip: 1, port: 80, flowinfo: 7, scope_id: 3 };
    assert_eq!(normalize_remote_address(remote), remote);
    let remote4 = SocketAddress::V4 { ip: 0x0a00_0001, port: 8080 };
    assert_eq!(normalize_remote_address(remote4), remote4);
}

#[test]
fn normalising_twice_is_normalising_once() {
    let remote = SocketAddress::V6 { ip: MAPPED_192_168_1_2, port: 1, flowinfo: 0, scope_id: 0 };
    let once = normalize_remote_address(remote);
    assert_eq!(normalize_remote_address(once), once);
}

#[test]
fn set_ip_within_and_across_families() {
    let mut a = SocketAddress::V6 { ip: 1, port: 9, flowinfo: 5, scope_id: 6 };
    a.set_ip(IpAddress::V6(2));
    assert_eq!(a, SocketAddress::V6 { ip: 2, port: 9, flowinfo: 5, scope_id: 6 });
    a.set_ip(IpAddress::V4(3));
    assert_eq!(a, SocketAddress::V4 { ip: 3, port: 9 });
    a.set_ip(IpAddress::V6(4));
    assert_eq!(a, SocketAddress::V6 { ip: 4, port: 9, flowinfo: 0, scope_id: 0 });
    assert_eq!(a.ip(), IpAddress::V6(4));
}

#[test]
fn new_socket_address() {
    let a = SocketAddress::new(IpAddress::V6(8), 443);
    assert_eq!(a, SocketAddress::V6 { ip: 8, port: 443, flowinfo: 0, scope_id: 0 });
    assert!(a.is_ipv6());
}

#[test]
fn ipv4_listener_setup() {
    let e = DefaultEstablisher::new();
    let setup = e.listener_setup(SocketAddress::V4 { ip: 0, port: 31245 });
    assert_eq!(
        setup,
        ListenerSetup { domain: SocketDomain::Ipv4, only_v6: None, nonblocking: true, backlog: 1024 }
    );
}

#[test]
fn ipv6_listener_is_dual_stack() {
    let e = DefaultEstablisher::default();
    let setup = e.listener_setup(SocketAddress::V6 { ip: 0, port: 31245, flowinfo: 0, scope_id: 0 });
    assert_eq!(setup.domain, SocketDomain::Ipv6);
    assert_eq!(setup.only_v6, Some(false));
    assert!(setup.nonblocking);
    assert_eq!(setup.backlog, LISTEN_BACKLOG);
}

#[test]
fn connector_keeps_its_timeout() {
    let mut e = DefaultEstablisher::new();
    let c = e.get_connector(1500);
    assert_eq!(c.timeout_millis(), 1500);
    assert_eq!(e.get_connector(0).timeout_ms, 0);
}

#[test]
fn connection_attempt_outcomes() {
    let ok: Result<u8, ConnectError<&str>> = settle_connect(Some(Ok(5u8)));
    assert_eq!(ok, Ok(5));
    let refused: Result<u8, ConnectError<&str>> = settle_connect(Some(Err("refused")));
    assert_eq!(refused, Err(ConnectError::Io("refused")));
    let late: Result<u8, ConnectError<&str>> = settle_connect(None);
    assert_eq!(late, Err(ConnectError::TimedOut));
}
