use netstack::protocols::ipv4::{Ipv4Address, Ipv4Interface, Ipv4Router};

#[test]
fn test_match_lookup() {
    let mut router = Ipv4Router::new();
    let interface = Ipv4Interface::new(
        Ipv4Address::try_from_str("192.0.0.1").unwrap(),
        Ipv4Address::try_from_str("255.0.0.0").unwrap(),
        0,
    );
    let network = Ipv4Address::try_from_str("192.0.0.0").unwrap();
    router.register(network, interface);
    let dst = Ipv4Address::try_from_str("192.0.0.2").unwrap();
    assert_eq!(
        router.lookup(dst).unwrap().interface.unicast,
        interface.unicast
    );
}

#[test]
fn test_match_lookup_longest() {
    let mut router = Ipv4Router::new();
    let eth0 = Ipv4Interface::new(
        Ipv4Address::try_from_str("192.0.0.1").unwrap(),
        Ipv4Address::try_from_str("255.0.0.0").unwrap(),
        0,
    );
    router.register(Ipv4Address::try_from_str("192.0.0.0").unwrap(), eth0);
    let eth1 = Ipv4Interface::new(
        Ipv4Address::try_from_str("192.0.1.1").unwrap(),
        Ipv4Address::try_from_str("255.255.0.0").unwrap(),
        1,
    );
    router.register(Ipv4Address::try_from_str("192.0.0.0").unwrap(), eth1);
    let dst = Ipv4Address::try_from_str("192.0.1.2").unwrap();
    assert_eq!(router.lookup(dst).unwrap().interface.unicast, eth1.unicast);
}

#[test]
fn test_match_lookup_default() {
    let mut router = Ipv4Router::new();
    let eth0 = Ipv4Interface::new(
        Ipv4Address::try_from_str("192.0.0.1").unwrap(),
        Ipv4Address::try_from_str("255.255.0.0").unwrap(),
        0,
    );
    let gateway = Ipv4Address::new(&[192, 0, 0, 1]);
    router.register(Ipv4Address::new(&[192, 0, 0, 0]), eth0);
    router.register_default(eth0, gateway);
    let dst = Ipv4Address::new(&[8, 8, 8, 8]);
    assert_eq!(router.lookup(dst).unwrap().interface.unicast, gateway);
}

#[test]
fn test_longest_match_pair() {
    // Routes 192.0.0.0/8 -> A and 192.0.1.0/16 -> B: the /16 wins where it
    // matches, the /8 everywhere else in 192/8.
    let mut router = Ipv4Router::new();
    let a = Ipv4Interface::new(
        Ipv4Address::try_from_str("192.10.0.1").unwrap(),
        Ipv4Address::try_from_str("255.0.0.0").unwrap(),
        0,
    );
    router.register(Ipv4Address::try_from_str("192.0.0.0").unwrap(), a);
    let b = Ipv4Interface::new(
        Ipv4Address::try_from_str("192.0.1.1").unwrap(),
        Ipv4Address::try_from_str("255.255.0.0").unwrap(),
        1,
    );
    router.register(Ipv4Address::try_from_str("192.0.0.0").unwrap(), b);
    let in_16 = Ipv4Address::try_from_str("192.0.1.2").unwrap();
    assert_eq!(router.lookup(in_16).unwrap().interface.unicast, b.unicast);
    let in_8_only = Ipv4Address::try_from_str("192.1.0.2").unwrap();
    assert_eq!(
        router.lookup(in_8_only).unwrap().interface.unicast,
        a.unicast
    );
}

#[test]
fn test_default_route_only_without_match() {
    let mut router = Ipv4Router::new();
    let eth0 = Ipv4Interface::new(
        Ipv4Address::try_from_str("192.0.2.2").unwrap(),
        Ipv4Address::try_from_str("255.255.255.0").unwrap(),
        0,
    );
    router.register(Ipv4Address::try_from_str("192.0.2.0").unwrap(), eth0);
    router.register_default(eth0, Ipv4Address::try_from_str("192.0.2.1").unwrap());
    // A destination inside the connected network takes the specific route.
    let on_link = Ipv4Address::try_from_str("192.0.2.77").unwrap();
    let route = router.lookup(on_link).unwrap();
    assert_eq!(route.netmask, Ipv4Address(0xffffff00));
    assert!(route.next_hop.is_none());
    // Anything else falls back to the default route and its gateway.
    let off_link = Ipv4Address::try_from_str("8.8.8.8").unwrap();
    let route = router.lookup(off_link).unwrap();
    assert_eq!(route.netmask, Ipv4Address(0));
    assert_eq!(
        route.next_hop,
        Some(Ipv4Address::try_from_str("192.0.2.1").unwrap())
    );
}

#[test]
fn test_lookup_no_route() {
    let router = Ipv4Router::new();
    assert!(router
        .lookup(Ipv4Address::try_from_str("10.0.0.1").unwrap())
        .is_none());
}

#[test]
fn test_first_route_wins_on_tie() {
    let mut router = Ipv4Router::new();
    let first = Ipv4Interface::new(
        Ipv4Address::try_from_str("10.0.0.1").unwrap(),
        Ipv4Address::try_from_str("255.0.0.0").unwrap(),
        0,
    );
    let second = Ipv4Interface::new(
        Ipv4Address::try_from_str("10.0.0.2").unwrap(),
        Ipv4Address::try_from_str("255.0.0.0").unwrap(),
        1,
    );
    router.register(Ipv4Address::try_from_str("10.0.0.0").unwrap(), first);
    router.register(Ipv4Address::try_from_str("10.0.0.0").unwrap(), second);
    let dst = Ipv4Address::try_from_str("10.1.2.3").unwrap();
    assert_eq!(router.lookup(dst).unwrap().interface.unicast, first.unicast);
}
