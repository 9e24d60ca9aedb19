use aurora_kvm::discovery::{consider_announcement, is_local_network, ServerAnnouncement, SourceIp};

fn ann(name: &str) -> ServerAnnouncement {
    ServerAnnouncement { name: name.to_string(), port: 8080, version: 1 }
}

#[test]
fn private_ranges_are_local() {
    assert!(is_local_network(&SourceIp::V4(10, 0, 0, 1)));
    assert!(is_local_network(&SourceIp::V4(10, 255, 255, 255)));
    assert!(is_local_network(&SourceIp::V4(172, 16, 0, 1)));
    assert!(is_local_network(&SourceIp::V4(172, 31, 200, 9)));
    assert!(is_local_network(&SourceIp::V4(192, 168, 0, 1)));
    assert!(is_local_network(&SourceIp::V4(127, 0, 0, 1)));
}

#[test]
fn public_sources_are_not_local() {
    assert!(!is_local_network(&SourceIp::V4(8, 8, 8, 8)));
    assert!(!is_local_network(&SourceIp::V4(172, 15, 0, 1)));
    assert!(!is_local_network(&SourceIp::V4(172, 32, 0, 1)));
    assert!(!is_local_network(&SourceIp::V4(192, 169, 0, 1)));
    assert!(!is_local_network(&SourceIp::V4(11, 0, 0, 1)));
    assert!(!is_local_network(&SourceIp::V6));
}

#[test]
fn loopback_kept_public_dropped() {
    let mut found = Vec::new();
    // The loopback announcement is collected, the public one is not.
    assert!(consider_announcement(&mut found, ann("home"), SourceIp::V4(127, 0, 0, 1)));
    assert!(!consider_announcement(&mut found, ann("imposter"), SourceIp::V4(8, 8, 8, 8)));
    assert_eq!(found.len(), 1);
    assert_eq!(found[0].0.name, "home");
    assert_eq!(found[0].1, SourceIp::V4(127, 0, 0, 1));
}

#[test]
fn duplicate_sources_are_collapsed() {
    let mut found = Vec::new();
    let ip = SourceIp::V4(192, 168, 1, 20);
    assert!(consider_announcement(&mut found, ann("first"), ip));
    // The same server announces every two seconds; later datagrams from
    // the same source are not collected again.
    assert!(!consider_announcement(&mut found, ann("first"), ip));
    assert!(!consider_announcement(&mut found, ann("renamed"), ip));
    assert!(consider_announcement(&mut found, ann("second"), SourceIp::V4(192, 168, 1, 21)));
    assert_eq!(found.len(), 2);
    assert_eq!(found[0].0.name, "first");
    assert_eq!(found[1].0.name, "second");
}

#[test]
fn ipv6_sources_are_never_collected() {
    let mut found = Vec::new();
    assert!(!consider_announcement(&mut found, ann("six"), SourceIp::V6));
    assert!(found.is_empty());
}
