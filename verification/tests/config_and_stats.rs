//! Tests of the binding policy, the statistics stores and the CLI
//! decisions.

use node_tcp::cli::{check_parent_permissions, is_version_request, PermissionError};
use node_tcp::config::{BindPlan, Config};
use node_tcp::decimal::u64_to_decimal;
use node_tcp::known_peers::KnownPeers;
use node_tcp::stats::Stats;
use node_tcp::{IpAddress, SocketAddr};

fn base_config() -> Config {
    Config {
        name: None,
        listener_ip: Some(IpAddress::V4(0x7f00_0001)),
        desired_listening_port: None,
        allow_random_port: false,
        max_connections: 8,
    }
}

#[test]
fn bind_plan_desired_port_no_fallback() {
    let config = Config {
        desired_listening_port: Some(4130),
        ..base_config()
    };
    // the desired port is unavailable and random ports are disallowed:
    // the plan carries no fallback, so the bind error is propagated and
    // construction fails
    assert_eq!(
        config.bind_plan(),
        BindPlan::BindDesired {
            ip: IpAddress::V4(0x7f00_0001),
            port: 4130,
            fall_back_to_random: false,
        }
    );
}

#[test]
fn bind_plan_desired_port_with_fallback() {
    let config = Config {
        desired_listening_port: Some(4130),
        allow_random_port: true,
        ..base_config()
    };
    assert_eq!(
        config.bind_plan(),
        BindPlan::BindDesired {
            ip: IpAddress::V4(0x7f00_0001),
            port: 4130,
            fall_back_to_random: true,
        }
    );
}

#[test]
fn bind_plan_random_port() {
    let config = Config {
        allow_random_port: true,
        ..base_config()
    };
    assert_eq!(
        config.bind_plan(),
        BindPlan::BindRandom { ip: IpAddress::V4(0x7f00_0001) }
    );
}

#[test]
fn bind_plan_outbound_only() {
    let config = Config {
        listener_ip: None,
        allow_random_port: true,
        ..base_config()
    };
    assert_eq!(config.bind_plan(), BindPlan::NoListener);
}

#[test]
fn decimal_rendering() {
    assert_eq!(u64_to_decimal(0), "0");
    assert_eq!(u64_to_decimal(7), "7");
    assert_eq!(u64_to_decimal(42), "42");
    assert_eq!(u64_to_decimal(1000), "1000");
    assert_eq!(u64_to_decimal(u64::MAX), "18446744073709551615");
}

#[test]
fn loopback_ranges() {
    assert!(IpAddress::V4(0x7f00_0001).is_loopback());
    assert!(IpAddress::V4(0x7f12_3456).is_loopback());
    assert!(!IpAddress::V4(0x0a00_0001).is_loopback());
    assert!(IpAddress::V6(1).is_loopback());
    assert!(!IpAddress::V6(2).is_loopback());
}

#[test]
fn stats_counters_saturate() {
    let mut stats = Stats::new();
    stats.register_sent_message(100);
    stats.register_sent_message(u64::MAX);
    assert_eq!(stats.msgs_sent, 2);
    assert_eq!(stats.bytes_sent, u64::MAX);
    stats.register_received_message(7);
    assert_eq!(stats.msgs_received, 1);
    assert_eq!(stats.bytes_received, 7);
    stats.register_failure();
    assert_eq!(stats.failures, 1);
}

#[test]
fn known_peers_first_sight_and_failures() {
    let mut peers = KnownPeers::new();
    let addr = SocketAddr::new(IpAddress::V4(0x0a00_0001), 9000);
    assert!(!peers.contains(addr));
    peers.add(addr, 50);
    let entry = peers.get(addr).expect("created on first sight");
    assert_eq!(entry.first_seen, 50);
    assert_eq!(entry.last_seen, 50);
    assert_eq!(entry.failures, 0);
    // a later sighting only refreshes last_seen
    peers.add(addr, 60);
    let entry = peers.get(addr).unwrap();
    assert_eq!(entry.first_seen, 50);
    assert_eq!(entry.last_seen, 60);
    peers.register_failure(addr);
    peers.register_failure(addr);
    assert_eq!(peers.get(addr).unwrap().failures, 2);
    assert_eq!(peers.num_known(), 1);
    assert!(peers.remove(addr));
    assert!(!peers.remove(addr));
    assert_eq!(peers.num_known(), 0);
}

#[test]
fn known_peers_failure_without_sighting() {
    let mut peers = KnownPeers::new();
    let addr = SocketAddr::new(IpAddress::V4(0x0a00_0002), 9000);
    peers.register_failure(addr);
    let entry = peers.get(addr).expect("created by the failure");
    assert_eq!(entry.failures, 1);
    assert_eq!(entry.first_seen, 0);
}

#[test]
fn parent_permission_check() {
    assert_eq!(check_parent_permissions(Some(0o700)), Ok(()));
    assert_eq!(check_parent_permissions(Some(0o040700)), Ok(()));
    assert_eq!(
        check_parent_permissions(Some(0o755)),
        Err(PermissionError::NotOwnerOnly)
    );
    assert_eq!(
        check_parent_permissions(Some(0o600)),
        Err(PermissionError::NotOwnerOnly)
    );
    assert_eq!(
        check_parent_permissions(None),
        Err(PermissionError::MissingParent)
    );
}

#[test]
fn version_request_detection() {
    assert!(is_version_request(&"--version".to_string()));
    assert!(is_version_request(&"-V".to_string()));
    assert!(!is_version_request(&"-v".to_string()));
    assert!(!is_version_request(&"--help".to_string()));
}
