use netstack::devices::ethernet::MacAddress;
use netstack::devices::NetDevice;
use netstack::errors::NetError;
use netstack::protocols::arp::{
    recv, resolve_arp, ArpCache, ArpCacheState, ArpHeader, ArpMessage, ARP_CACHE_TIMEOUT,
};
use netstack::protocols::ipv4::{Ipv4Address, Ipv4Interface};
use netstack::protocols::ProtocolStackContext;

fn request_bytes(sha: MacAddress, spa: Ipv4Address, tha: MacAddress, tpa: Ipv4Address) -> Vec<u8> {
    let message = ArpMessage {
        header: ArpHeader { htype: 1, ptype: 0x0800, hlen: 6, plen: 4, oper: 1 },
        sha,
        spa,
        tha,
        tpa,
    };
    message.to_bytes()
}

#[test]
fn test_arp_request_reply() {
    // Device tap0 with MAC m and interface 192.0.2.2; a request for our
    // address from 192.0.2.1 yields exactly one reply frame and a resolved
    // cache line.
    let mut context = ProtocolStackContext::new();
    let mut eth = NetDevice::ethernet_tap();
    let m = MacAddress([0x02, 0x00, 0x00, 0x00, 0x00, 0x01]);
    let n = MacAddress([0x02, 0x00, 0x00, 0x00, 0x00, 0x02]);
    eth.hw_addr[..6].copy_from_slice(&m.0);
    let unicast = Ipv4Address::try_from_str("192.0.2.2").unwrap();
    let netmask = Ipv4Address::try_from_str("255.255.255.0").unwrap();
    let interface = Ipv4Interface::new(unicast, netmask, 0);
    eth.register_interface(interface);
    eth.open().unwrap();
    let mut devices = vec![eth];

    let spa = Ipv4Address::try_from_str("192.0.2.1").unwrap();
    let data = request_bytes(n, spa, MacAddress([0; 6]), unicast);
    recv(&mut context, &mut devices, &interface, &data, 0).unwrap();

    assert_eq!(devices[0].tx_queue.len(), 1);
    let frame = &devices[0].tx_queue[0];
    assert_eq!(frame.len(), 60);
    assert_eq!(&frame[0..6], &n.0);
    assert_eq!(&frame[6..12], &m.0);
    assert_eq!(&frame[12..14], &[0x08, 0x06]);
    let reply = ArpMessage::from_bytes(&frame[14..42]);
    assert_eq!(reply.header.oper, 2);
    assert_eq!(reply.sha, m);
    assert_eq!(reply.spa, unicast);
    assert_eq!(reply.tha, n);
    assert_eq!(reply.tpa, spa);

    assert_eq!(
        context.arp_cache.get(spa, 0),
        Some(ArpCacheState::Resolved(n))
    );
}

#[test]
fn test_arp_ignores_other_targets() {
    let mut context = ProtocolStackContext::new();
    let mut eth = NetDevice::ethernet_tap();
    let unicast = Ipv4Address::try_from_str("192.0.2.2").unwrap();
    let interface = Ipv4Interface::new(
        unicast,
        Ipv4Address::try_from_str("255.255.255.0").unwrap(),
        0,
    );
    eth.register_interface(interface);
    eth.open().unwrap();
    let mut devices = vec![eth];
    let other = Ipv4Address::try_from_str("192.0.2.9").unwrap();
    let data = request_bytes(
        MacAddress([1; 6]),
        Ipv4Address::try_from_str("192.0.2.1").unwrap(),
        MacAddress([0; 6]),
        other,
    );
    recv(&mut context, &mut devices, &interface, &data, 0).unwrap();
    assert_eq!(devices[0].tx_queue.len(), 0);
    assert_eq!(context.arp_cache.entries.len(), 0);
}

#[test]
fn test_arp_unsupported() {
    let mut context = ProtocolStackContext::new();
    let mut devices = vec![NetDevice::ethernet_tap()];
    let interface = Ipv4Interface::new(
        Ipv4Address::try_from_str("192.0.2.2").unwrap(),
        Ipv4Address::try_from_str("255.255.255.0").unwrap(),
        0,
    );
    let mut data = request_bytes(
        MacAddress([1; 6]),
        Ipv4Address(1),
        MacAddress([0; 6]),
        Ipv4Address(2),
    );
    data[0] = 0;
    data[1] = 9;
    assert_eq!(
        recv(&mut context, &mut devices, &interface, &data, 0),
        Err(NetError::UnsupportedArp)
    );
    assert_eq!(
        recv(&mut context, &mut devices, &interface, &[0u8; 8], 0),
        Err(NetError::FrameTooShort)
    );
}

#[test]
fn test_arp_cache_timeout() {
    let mut cache = ArpCache::new();
    let ip = Ipv4Address(0x0a000001);
    let mac = MacAddress([9; 6]);
    cache.insert(ip, ArpCacheState::Resolved(mac), 100);
    assert_eq!(cache.get(ip, 100), Some(ArpCacheState::Resolved(mac)));
    assert_eq!(
        cache.get(ip, 100 + ARP_CACHE_TIMEOUT - 1),
        Some(ArpCacheState::Resolved(mac))
    );
    // At the timeout the entry has expired.
    assert_eq!(cache.get(ip, 100 + ARP_CACHE_TIMEOUT), None);
    // An in-flight entry is always a miss for get.
    cache.insert(ip, ArpCacheState::Incomplete, 200);
    assert_eq!(cache.get(ip, 200), None);
}

#[test]
fn test_resolve_arp() {
    let mut cache = ArpCache::new();
    let mut eth = NetDevice::ethernet_tap();
    let unicast = Ipv4Address::try_from_str("192.0.2.2").unwrap();
    let interface = Ipv4Interface::new(
        unicast,
        Ipv4Address::try_from_str("255.255.255.0").unwrap(),
        0,
    );
    eth.register_interface(interface);
    eth.open().unwrap();
    let target = Ipv4Address::try_from_str("192.0.2.1").unwrap();

    // First resolution: a request goes out and the entry is in flight.
    let state = resolve_arp(&mut eth, &interface, &mut cache, target, 0).unwrap();
    assert_eq!(state, ArpCacheState::Incomplete);
    assert_eq!(eth.tx_queue.len(), 1);
    let frame = &eth.tx_queue[0];
    assert_eq!(&frame[0..6], &[0xff; 6]);
    let request = ArpMessage::from_bytes(&frame[14..42]);
    assert_eq!(request.header.oper, 1);
    assert_eq!(request.tpa, target);

    // A resolved entry answers without touching the device.
    let mac = MacAddress([7; 6]);
    cache.insert(target, ArpCacheState::Resolved(mac), 1);
    let state = resolve_arp(&mut eth, &interface, &mut cache, target, 1).unwrap();
    assert_eq!(state, ArpCacheState::Resolved(mac));
    assert_eq!(eth.tx_queue.len(), 1);
}

#[test]
fn test_resolve_unsupported_device() {
    let mut cache = ArpCache::new();
    let mut lo = NetDevice::loopback();
    let interface = Ipv4Interface::new(
        Ipv4Address::try_from_str("127.0.0.1").unwrap(),
        Ipv4Address::try_from_str("255.0.0.0").unwrap(),
        0,
    );
    assert_eq!(
        resolve_arp(&mut lo, &interface, &mut cache, Ipv4Address(1), 0),
        Err(NetError::UnsupportedDevice)
    );
}
