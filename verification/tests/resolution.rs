use rddns::addresses::AddressMap;
use rddns::config::{IpAddress, IpVersion};
use rddns::resolver::{
    resolve, resolve_one, resolve_with_interfaces, InterfaceAddress, NetworkInterfaceInfo,
    ResolutionError,
};
use rddns::config::AddressSourceEntry;

fn v4(octets: [u8; 4], text: &str) -> InterfaceAddress {
    InterfaceAddress { is_v4: true, octets: octets.to_vec(), text: text.to_string() }
}

fn sample_interfaces() -> Vec<NetworkInterfaceInfo> {
    vec![
        NetworkInterfaceInfo {
            name: "lo".to_string(),
            addresses: vec![v4([127, 0, 0, 1], "127.0.0.1")],
        },
        NetworkInterfaceInfo {
            name: "eth0".to_string(),
            addresses: vec![v4([169, 254, 1, 5], "169.254.1.5"), v4([192, 0, 2, 5], "192.0.2.5")],
        },
    ]
}

#[test]
fn from_parameter_returns_exactly_the_supplied_value() {
    let mut supplied = AddressMap::new();
    supplied.insert("pub".to_string(), "203.0.113.7".to_string());
    let source = IpAddress::FromParameter { parameter: "pub".to_string() };
    let r = resolve_one(&source, &supplied, &vec![]);
    assert_eq!(r.unwrap(), "203.0.113.7".to_string());
}

#[test]
fn from_parameter_missing_is_an_identifiable_error() {
    let supplied = AddressMap::new();
    let source = IpAddress::FromParameter { parameter: "pub".to_string() };
    let r = resolve_one(&source, &supplied, &vec![]);
    match r {
        Err(ResolutionError::MissingParameter { parameter }) => {
            assert_eq!(parameter, "pub".to_string());
        },
        other => panic!("expected MissingParameter, got {:?}", other),
    }
}

#[test]
fn static_resolution_is_deterministic() {
    let source = IpAddress::Static { address: "2001:db8::1".to_string() };
    let first = resolve_one(&source, &AddressMap::new(), &vec![]).unwrap();
    let mut supplied = AddressMap::new();
    supplied.insert("unrelated".to_string(), "10.0.0.1".to_string());
    let second = resolve_one(&source, &supplied, &sample_interfaces()).unwrap();
    assert_eq!(first, "2001:db8::1".to_string());
    assert_eq!(first, second);
}

#[test]
fn interface_resolution_skips_loopback_and_link_local() {
    let source = IpAddress::FromInterface {
        interface: "^eth".to_string(),
        version: IpVersion::V4,
    };
    let r = resolve_one(&source, &AddressMap::new(), &sample_interfaces());
    assert_eq!(r.unwrap(), "192.0.2.5".to_string());
}

#[test]
fn interface_resolution_respects_version_preference() {
    let source = IpAddress::FromInterface {
        interface: "^eth".to_string(),
        version: IpVersion::V6,
    };
    let r = resolve_one(&source, &AddressMap::new(), &sample_interfaces());
    match r {
        Err(ResolutionError::NoMatchingAddress { interface }) => {
            assert_eq!(interface, "^eth".to_string());
        },
        other => panic!("expected NoMatchingAddress, got {:?}", other),
    }
}

#[test]
fn interface_resolution_reports_unknown_interfaces() {
    let source = IpAddress::FromInterface {
        interface: "^wlan".to_string(),
        version: IpVersion::Any,
    };
    let r = resolve_one(&source, &AddressMap::new(), &sample_interfaces());
    match r {
        Err(ResolutionError::InterfaceNotFound { interface }) => {
            assert_eq!(interface, "^wlan".to_string());
        },
        other => panic!("expected InterfaceNotFound, got {:?}", other),
    }
}

#[test]
fn invalid_interface_pattern_matches_nothing() {
    let source = IpAddress::FromInterface { interface: "(".to_string(), version: IpVersion::Any };
    let r = resolve_one(&source, &AddressMap::new(), &sample_interfaces());
    assert!(matches!(r, Err(ResolutionError::InterfaceNotFound { .. })));
}

#[test]
fn resolution_fails_as_a_whole_when_one_identifier_fails() {
    let sources = vec![
        AddressSourceEntry {
            name: "good".to_string(),
            source: IpAddress::Static { address: "192.0.2.1".to_string() },
        },
        AddressSourceEntry {
            name: "bad".to_string(),
            source: IpAddress::FromParameter { parameter: "absent".to_string() },
        },
    ];
    let r = resolve_with_interfaces(&sources, &AddressMap::new(), &vec![]);
    assert!(matches!(r, Err(ResolutionError::MissingParameter { .. })));
}

#[test]
fn resolution_binds_every_identifier() {
    let mut supplied = AddressMap::new();
    supplied.insert("remote".to_string(), "198.51.100.4".to_string());
    let sources = vec![
        AddressSourceEntry {
            name: "one".to_string(),
            source: IpAddress::Static { address: "192.0.2.1".to_string() },
        },
        AddressSourceEntry {
            name: "two".to_string(),
            source: IpAddress::FromParameter { parameter: "remote".to_string() },
        },
    ];
    let m = resolve_with_interfaces(&sources, &supplied, &vec![]).unwrap();
    assert_eq!(m.get(&"one".to_string()).unwrap(), &"192.0.2.1".to_string());
    assert_eq!(m.get(&"two".to_string()).unwrap(), &"198.51.100.4".to_string());
}

#[test]
fn resolution_against_the_host_snapshot_handles_static_sources() {
    let sources = vec![AddressSourceEntry {
        name: "addr".to_string(),
        source: IpAddress::Static { address: "203.0.113.9".to_string() },
    }];
    let m = resolve(&sources, &AddressMap::new()).unwrap();
    assert_eq!(m.get(&"addr".to_string()).unwrap(), &"203.0.113.9".to_string());
}
