use netstack::devices::{run_net, NetDevice, NetDeviceQueueEntry, NetDevices};
use netstack::errors::NetError;
use netstack::protocols::ipv4::{Ipv4Address, Ipv4Interface};
use netstack::protocols::ProtocolStackContext;
use netstack::transport::udp::{bind, recv, send};
use netstack::transport::{ContextBlocks, Endpoint};

#[test]
fn test_udp_bind_collision() {
    // bind((A, P)) after bind((ANY, P)) fails; two distinct non-wildcard
    // addresses on one port coexist.
    let mut pcbs = ContextBlocks::new();
    let any = Endpoint { address: Ipv4Address(0), port: 7777 };
    assert_eq!(bind(&mut pcbs, &any), Some(0));
    let a = Endpoint { address: Ipv4Address::try_from_str("10.0.0.1").unwrap(), port: 7777 };
    assert_eq!(bind(&mut pcbs, &a), None);

    let mut pcbs = ContextBlocks::new();
    let a1 = Endpoint { address: Ipv4Address::try_from_str("10.0.0.1").unwrap(), port: 7777 };
    let a2 = Endpoint { address: Ipv4Address::try_from_str("10.0.0.2").unwrap(), port: 7777 };
    assert_eq!(bind(&mut pcbs, &a1), Some(0));
    assert_eq!(bind(&mut pcbs, &a2), Some(1));
    // And the wildcard is blocked once a concrete address holds the port.
    let any = Endpoint { address: Ipv4Address(0), port: 7777 };
    assert_eq!(bind(&mut pcbs, &any), None);
}

#[test]
fn test_udp_bind_table_full() {
    let mut pcbs = ContextBlocks::new();
    for port in 0..16u16 {
        assert!(bind(&mut pcbs, &Endpoint { address: Ipv4Address(0), port: 1000 + port }).is_some());
    }
    assert_eq!(
        bind(&mut pcbs, &Endpoint { address: Ipv4Address(0), port: 2000 }),
        None
    );
}

fn loopback_stack() -> (ProtocolStackContext, NetDevices, Ipv4Address) {
    let mut context = ProtocolStackContext::new();
    let mut lo = NetDevice::loopback();
    let unicast = Ipv4Address::try_from_str("127.0.0.1").unwrap();
    let netmask = Ipv4Address::try_from_str("255.0.0.0").unwrap();
    let interface = Ipv4Interface::new(unicast, netmask, 0);
    lo.register_interface(interface);
    context
        .router
        .register(Ipv4Address(unicast.0 & netmask.0), interface);
    let mut devices = vec![lo];
    run_net(&mut devices).unwrap();
    (context, devices, unicast)
}

#[test]
fn test_udp_checksum_roundtrip() {
    // S5: src (127.0.0.1, 8000), dst (127.0.0.1, 8001), payload "hi": the
    // transmitted datagram validates on receive against the pseudo-header
    // (127.0.0.1, 127.0.0.1, 0, 17, 10).
    let (mut context, mut devices, unicast) = loopback_stack();
    let src = Endpoint { address: unicast, port: 8000 };
    let dst = Endpoint { address: unicast, port: 8001 };
    send(&mut context, &mut devices, b"hi", src, dst, 0).unwrap();

    let packet = match &mut devices[0].queue {
        NetDeviceQueueEntry::Loopback(q) => q.pop_front().unwrap().data,
        NetDeviceQueueEntry::Null => panic!("loopback queue expected"),
    };
    assert_eq!(packet.len(), 30);
    let datagram = &packet[20..];
    assert_eq!(datagram.len(), 10);
    // length field covers header + payload
    assert_eq!(&datagram[4..6], &[0, 10]);

    let mut pcbs = ContextBlocks::new();
    bind(&mut pcbs, &Endpoint { address: Ipv4Address(0), port: 8001 }).unwrap();
    recv(&mut pcbs, datagram, unicast, unicast).unwrap();
    let pcb = pcbs.udp_pcb.pcbs[0].as_ref().unwrap();
    assert_eq!(pcb.queue.len(), 1);
    assert_eq!(pcb.queue[0].foreign.address, unicast);
    assert_eq!(pcb.queue[0].foreign.port, 8000);
    assert_eq!(&pcb.queue[0].data[..], b"hi");
}

#[test]
fn test_udp_recv_errors() {
    let unicast = Ipv4Address::try_from_str("127.0.0.1").unwrap();
    let mut pcbs = ContextBlocks::new();
    assert_eq!(
        recv(&mut pcbs, &[0u8; 4], unicast, unicast),
        Err(NetError::FrameTooShort)
    );
    // Length field disagreeing with the buffer.
    let datagram = [0x1f, 0x40, 0x1f, 0x41, 0x00, 0x20, 0x00, 0x00];
    assert_eq!(
        recv(&mut pcbs, &datagram, unicast, unicast),
        Err(NetError::InvalidLength)
    );
    // Correct length, broken checksum.
    let datagram = [0x1f, 0x40, 0x1f, 0x41, 0x00, 0x08, 0xde, 0xad];
    assert_eq!(
        recv(&mut pcbs, &datagram, unicast, unicast),
        Err(NetError::InvalidChecksum)
    );
    // A validating datagram with no bound socket.
    let (mut context, mut devices, unicast) = loopback_stack();
    let src = Endpoint { address: unicast, port: 8000 };
    let dst = Endpoint { address: unicast, port: 8001 };
    send(&mut context, &mut devices, b"hi", src, dst, 0).unwrap();
    let packet = match &mut devices[0].queue {
        NetDeviceQueueEntry::Loopback(q) => q.pop_front().unwrap().data,
        NetDeviceQueueEntry::Null => panic!("loopback queue expected"),
    };
    assert_eq!(
        recv(&mut pcbs, &packet[20..], unicast, unicast),
        Err(NetError::NoPcb)
    );
}

#[test]
fn test_udp_send_too_long() {
    let (mut context, mut devices, unicast) = loopback_stack();
    let data = vec![0u8; 65508];
    let src = Endpoint { address: unicast, port: 1 };
    let dst = Endpoint { address: unicast, port: 2 };
    assert_eq!(
        send(&mut context, &mut devices, &data, src, dst, 0),
        Err(NetError::PacketTooLong)
    );
}
