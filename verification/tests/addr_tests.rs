use crisola::addr::{validate_bind_addr, PeerAddr, PeerError};

#[test]
fn v4_multicast_accepted() {
    let low = PeerAddr::V4 { octets: [224, 0, 0, 1], port: 2626 };
    let high = PeerAddr::V4 { octets: [239, 255, 255, 255], port: 2626 };
    assert!(low.is_multicast());
    assert!(high.is_multicast());
    assert!(validate_bind_addr(&low).is_ok());
    assert!(validate_bind_addr(&high).is_ok());
}

#[test]
fn v4_non_multicast_rejected() {
    let private = PeerAddr::V4 { octets: [192, 168, 1, 1], port: 2626 };
    let below = PeerAddr::V4 { octets: [223, 255, 255, 255], port: 2626 };
    let above = PeerAddr::V4 { octets: [240, 0, 0, 0], port: 2626 };
    for addr in [private, below, above] {
        assert!(!addr.is_multicast());
        assert_eq!(validate_bind_addr(&addr), Err(PeerError::NotMulticast));
    }
}

#[test]
fn v6_multicast_accepted() {
    let all_nodes = PeerAddr::V6 { segments: [0xff02, 0, 0, 0, 0, 0, 0, 1], port: 2626 };
    assert!(all_nodes.is_multicast());
    assert!(validate_bind_addr(&all_nodes).is_ok());
}

#[test]
fn v6_non_multicast_rejected() {
    let global = PeerAddr::V6 { segments: [0x2001, 0xdb8, 0, 0, 0, 0, 0, 1], port: 2626 };
    let link_local = PeerAddr::V6 { segments: [0xfe80, 0, 0, 0, 0, 0, 0, 1], port: 2626 };
    let loopback = PeerAddr::V6 { segments: [0, 0, 0, 0, 0, 0, 0, 1], port: 2626 };
    for addr in [global, link_local, loopback] {
        assert!(!addr.is_multicast());
        assert_eq!(validate_bind_addr(&addr), Err(PeerError::NotMulticast));
    }
}
