use netstack::app::App;
use netstack::devices::ethernet::MacAddress;
use netstack::devices::{
    run_net, stop_net, NetDevice, NetDeviceQueueEntry, NetDevices, NET_DEVICE_FLAG_UP,
};
use netstack::errors::NetError;
use netstack::interrupt::{INTR_IRQ_LOOPBACK, INTR_IRQ_NULL};
use netstack::protocols::arp::{ArpHeader, ArpMessage};
use netstack::protocols::ipv4::{self, Ipv4Address, Ipv4Header, Ipv4Interface};
use netstack::transport::icmp::{self, IcmpType};
use netstack::transport::{ContextBlocks, TransportProtocolNumber};

#[test]
fn open_device() {
    let mut devices = NetDevices::new();
    devices.push(NetDevice::null());
    devices.push(NetDevice::null());
    devices.push(NetDevice::null());

    run_net(&mut devices).unwrap();
    let mut iter = devices.iter();
    assert_eq!(iter.next().unwrap().flags, NET_DEVICE_FLAG_UP);
    assert_eq!(iter.next().unwrap().flags, NET_DEVICE_FLAG_UP);
    assert_eq!(iter.next().unwrap().flags, NET_DEVICE_FLAG_UP);
}

#[test]
fn close_device() {
    let mut devices = NetDevices::new();
    devices.push(NetDevice::null());
    devices.push(NetDevice::null());
    devices.push(NetDevice::null());

    run_net(&mut devices).unwrap();
    stop_net(&mut devices).unwrap();
    let mut iter = devices.iter();
    assert_eq!(iter.next().unwrap().flags, 0x0000);
    assert_eq!(iter.next().unwrap().flags, 0x0000);
    assert_eq!(iter.next().unwrap().flags, 0x0000);
}

#[test]
fn test_device_lifecycle_errors() {
    let mut dev = NetDevice::null();
    dev.open().unwrap();
    assert_eq!(dev.open(), Err(NetError::DeviceAlreadyUp));
    dev.close().unwrap();
    assert_eq!(dev.close(), Err(NetError::DeviceAlreadyDown));
}

#[test]
fn test_device_send_errors() {
    let mut dev = NetDevice::loopback();
    assert_eq!(
        dev.send(&[1, 2, 3], netstack::protocols::NetProtocolType::Ipv4, MacAddress([0; 6])),
        Err(NetError::DeviceDown)
    );
    let mut dev = NetDevice::null();
    dev.open().unwrap();
    let oversized = vec![0u8; 1501];
    assert_eq!(
        dev.send(&oversized, netstack::protocols::NetProtocolType::Ipv4, MacAddress([0; 6])),
        Err(NetError::PacketTooLong)
    );
}

fn loopback_queue_len(dev: &NetDevice) -> usize {
    match &dev.queue {
        NetDeviceQueueEntry::Loopback(q) => q.len(),
        NetDeviceQueueEntry::Null => 0,
    }
}

#[test]
fn test_loopback_icmp_echo() {
    // S1: one echo request over lo is looped back, answered, and the answer
    // consumed; the identification counter advances by exactly two.
    let mut app = App::new();
    let payload = [
        0x31, 0x32, 0x33, 0x34, 0x35, 0x36, 0x37, 0x38, 0x39, 0x30, 0x21, 0x40, 0x23, 0x24, 0x25,
        0x5e, 0x26, 0x2a, 0x28, 0x29,
    ];
    let addr = Ipv4Address::try_from_str("127.0.0.1").unwrap();
    icmp::send(
        &mut app.context,
        &mut app.devices,
        IcmpType::Echo,
        0,
        0x00800001,
        &payload,
        addr,
        addr,
        0,
    )
    .unwrap();
    assert_eq!(app.context.id_manager.id, 1);
    assert_eq!(loopback_queue_len(&app.devices[0]), 1);

    // Link IRQ: the request moves to the IPv4 protocol queue; L3 drains it
    // and the echo reply enters the loopback FIFO.
    app.handle_irq_l2(INTR_IRQ_LOOPBACK, None).unwrap();
    assert_eq!(loopback_queue_len(&app.devices[0]), 0);
    app.handle_irq_l3(0);
    assert_eq!(app.context.id_manager.id, 2);
    assert_eq!(loopback_queue_len(&app.devices[0]), 1);

    // The reply makes one more round and is discarded.
    app.handle_irq_l2(INTR_IRQ_LOOPBACK, None).unwrap();
    app.handle_irq_l3(0);
    assert_eq!(app.context.id_manager.id, 2);
    assert_eq!(loopback_queue_len(&app.devices[0]), 0);
}

#[test]
fn test_send_via_default_gateway() {
    // S4: with 192.0.2.0/24 -> tap0 and a default route via 192.0.2.1, the
    // first send to 8.8.8.8 emits only an ARP request for the gateway; after
    // the gateway answers, the second send emits the IPv4 frame to its MAC.
    let mut app = App::new();
    let m = MacAddress([0x02, 0, 0, 0, 0, 0x10]);
    app.devices[1].hw_addr[..6].copy_from_slice(&m.0);
    let dst = Ipv4Address::new(&[8, 8, 8, 8]);
    let gateway = Ipv4Address::try_from_str("192.0.2.1").unwrap();

    ipv4::send(
        &mut app.context,
        &mut app.devices,
        TransportProtocolNumber::Udp,
        &[1, 2, 3],
        Ipv4Address(0),
        dst,
        0,
    )
    .unwrap();
    assert_eq!(app.context.id_manager.id, 1);
    assert_eq!(app.devices[1].tx_queue.len(), 1);
    let frame = app.devices[1].tx_queue[0].clone();
    assert_eq!(&frame[0..6], &[0xff; 6]);
    assert_eq!(&frame[12..14], &[0x08, 0x06]);
    let request = ArpMessage::from_bytes(&frame[14..42]);
    assert_eq!(request.header.oper, 1);
    // The request asks for the gateway, not the final destination.
    assert_eq!(request.tpa, gateway);

    // The gateway answers with MAC g.
    let g = MacAddress([0x02, 0, 0, 0, 0, 0x99]);
    let reply = ArpMessage {
        header: ArpHeader { htype: 1, ptype: 0x0800, hlen: 6, plen: 4, oper: 2 },
        sha: g,
        spa: gateway,
        tha: m,
        tpa: Ipv4Address::try_from_str("192.0.2.2").unwrap(),
    };
    let interface = app.devices[1].interfaces[0];
    let reply_bytes = reply.to_bytes();
    netstack::protocols::arp::recv(
        &mut app.context,
        &mut app.devices,
        &interface,
        &reply_bytes,
        0,
    )
    .unwrap();

    ipv4::send(
        &mut app.context,
        &mut app.devices,
        TransportProtocolNumber::Udp,
        &[1, 2, 3],
        Ipv4Address(0),
        dst,
        0,
    )
    .unwrap();
    assert_eq!(app.context.id_manager.id, 2);
    let frame = app.devices[1].tx_queue.back().unwrap().clone();
    assert_eq!(&frame[0..6], &g.0);
    assert_eq!(&frame[6..12], &m.0);
    assert_eq!(&frame[12..14], &[0x08, 0x00]);
    let header = Ipv4Header::from_bytes(&frame[14..34]).unwrap();
    assert!(header.validate().is_ok());
    assert_eq!(header.dst, dst);
}

#[test]
fn test_interface_filter() {
    // P5: a packet whose destination is neither the interface's unicast nor
    // a broadcast is dropped without reaching any transport.
    let mut context = netstack::protocols::ProtocolStackContext::new();
    let mut lo = NetDevice::loopback();
    let unicast = Ipv4Address::try_from_str("127.0.0.1").unwrap();
    let netmask = Ipv4Address::try_from_str("255.0.0.0").unwrap();
    let interface = Ipv4Interface::new(unicast, netmask, 0);
    lo.register_interface(interface);
    context
        .router
        .register(Ipv4Address(unicast.0 & netmask.0), interface);
    let mut devices = vec![lo];
    run_net(&mut devices).unwrap();
    let mut pcbs = ContextBlocks::new();

    // A well-formed ICMP echo request addressed to someone else.
    let elsewhere = Ipv4Address::try_from_str("10.0.0.1").unwrap();
    let mut message = vec![0x08, 0x00, 0x00, 0x00, 0x00, 0x80, 0x00, 0x01, 0x61, 0x62];
    let cks = netstack::utils::calculate_checksum(&message, 0);
    message[2] = (cks >> 8) as u8;
    message[3] = cks as u8;
    let mut packet = ipv4::create_ip_header(
        9,
        TransportProtocolNumber::Icmp,
        unicast,
        elsewhere,
        &message,
    );
    packet.extend_from_slice(&message);

    ipv4::recv(&mut context, &mut pcbs, &mut devices, interface, &packet, 0).unwrap();
    // No echo reply was produced and the id generator never ran.
    assert_eq!(loopback_queue_len(&devices[0]), 0);
    assert_eq!(context.id_manager.id, 0);

    // The same packet addressed to the interface is answered.
    let mut packet = ipv4::create_ip_header(
        9,
        TransportProtocolNumber::Icmp,
        unicast,
        unicast,
        &message,
    );
    packet.extend_from_slice(&message);
    ipv4::recv(&mut context, &mut pcbs, &mut devices, interface, &packet, 0).unwrap();
    assert_eq!(loopback_queue_len(&devices[0]), 1);
    assert_eq!(context.id_manager.id, 1);
}

#[test]
fn test_ipv4_send_errors() {
    let mut context = netstack::protocols::ProtocolStackContext::new();
    let mut devices: NetDevices = Vec::new();
    // No route at all.
    assert_eq!(
        ipv4::send(
            &mut context,
            &mut devices,
            TransportProtocolNumber::Udp,
            &[1],
            Ipv4Address(0),
            Ipv4Address(0x0a000001),
            0,
        ),
        Err(NetError::NoRoute)
    );

    let mut lo = NetDevice::loopback();
    let unicast = Ipv4Address::try_from_str("127.0.0.1").unwrap();
    let netmask = Ipv4Address::try_from_str("255.0.0.0").unwrap();
    let interface = Ipv4Interface::new(unicast, netmask, 0);
    lo.register_interface(interface);
    context
        .router
        .register(Ipv4Address(unicast.0 & netmask.0), interface);
    devices.push(lo);

    // A source that is neither unspecified nor the interface address.
    assert_eq!(
        ipv4::send(
            &mut context,
            &mut devices,
            TransportProtocolNumber::Udp,
            &[1],
            Ipv4Address(0x0a000001),
            Ipv4Address::try_from_str("127.0.0.2").unwrap(),
            0,
        ),
        Err(NetError::InvalidSource)
    );
    // The device is still down.
    assert_eq!(
        ipv4::send(
            &mut context,
            &mut devices,
            TransportProtocolNumber::Udp,
            &[1],
            unicast,
            Ipv4Address::try_from_str("127.0.0.2").unwrap(),
            0,
        ),
        Err(NetError::DeviceDown)
    );
    // A route whose interface no longer leads to a device.
    let mut dangling = interface;
    dangling.device_index = Some(9);
    let mut router = netstack::protocols::ipv4::Ipv4Router::new();
    router.register(Ipv4Address(unicast.0 & netmask.0), dangling);
    context.router = router;
    assert_eq!(
        ipv4::send(
            &mut context,
            &mut devices,
            TransportProtocolNumber::Udp,
            &[1],
            unicast,
            Ipv4Address::try_from_str("127.0.0.2").unwrap(),
            0,
        ),
        Err(NetError::DeadDevice)
    );
}

#[test]
fn test_handle_isr_errors() {
    let mut app = App::new();
    // An empty loopback FIFO has nothing to receive.
    assert_eq!(
        app.handle_irq_l2(INTR_IRQ_LOOPBACK, None),
        Err(NetError::QueueEmpty)
    );
    // An IRQ bound to no device is ignored.
    assert_eq!(app.handle_irq_l2(INTR_IRQ_NULL, None), Ok(()));
}

#[test]
fn test_ethernet_ingress_filter() {
    let mut app = App::new();
    let m = MacAddress([0x02, 0, 0, 0, 0, 1]);
    app.devices[1].hw_addr[..6].copy_from_slice(&m.0);
    let tap_irq = app.devices[1].irq_entry.irq;

    // A frame for another station is refused.
    let mut frame = vec![0u8; 60];
    frame[0..6].copy_from_slice(&[0x02, 0, 0, 0, 0, 0x7f]);
    frame[12] = 0x08;
    frame[13] = 0x00;
    assert_eq!(
        app.handle_irq_l2(tap_irq, Some(frame)),
        Err(NetError::WrongDestination)
    );

    // A frame for us with an unknown EtherType is refused.
    let mut frame = vec![0u8; 60];
    frame[0..6].copy_from_slice(&m.0);
    frame[12] = 0x86;
    frame[13] = 0xdd;
    assert_eq!(
        app.handle_irq_l2(tap_irq, Some(frame)),
        Err(NetError::UnknownEtherType)
    );

    // A short read is refused.
    assert_eq!(
        app.handle_irq_l2(tap_irq, Some(vec![0u8; 5])),
        Err(NetError::FrameTooShort)
    );
}

#[test]
fn test_ethernet_icmp_echo() {
    // An echo request arriving in an Ethernet frame is answered with an
    // echo-reply frame to the requestor's MAC.
    let mut app = App::new();
    let m = MacAddress([0x02, 0, 0, 0, 0, 0x01]);
    let g = MacAddress([0x02, 0, 0, 0, 0, 0x02]);
    app.devices[1].hw_addr[..6].copy_from_slice(&m.0);
    let tap_irq = app.devices[1].irq_entry.irq;
    let our_addr = Ipv4Address::try_from_str("192.0.2.2").unwrap();
    let peer = Ipv4Address::try_from_str("192.0.2.1").unwrap();
    // The peer is already resolved, so the reply can leave immediately.
    app.context
        .arp_cache
        .insert(peer, netstack::protocols::arp::ArpCacheState::Resolved(g), 0);

    let mut message = vec![0x08, 0x00, 0x00, 0x00, 0x00, 0x80, 0x00, 0x01, 0x68, 0x69];
    let cks = netstack::utils::calculate_checksum(&message, 0);
    message[2] = (cks >> 8) as u8;
    message[3] = cks as u8;
    let mut packet = ipv4::create_ip_header(7, TransportProtocolNumber::Icmp, peer, our_addr, &message);
    packet.extend_from_slice(&message);
    let frame = netstack::devices::ethernet::build_frame(
        m,
        g,
        netstack::protocols::NetProtocolType::Ipv4,
        &packet,
    );

    app.handle_irq_l2(tap_irq, Some(frame)).unwrap();
    app.handle_irq_l3(0);

    assert_eq!(app.devices[1].tx_queue.len(), 1);
    let out = app.devices[1].tx_queue[0].clone();
    assert_eq!(&out[0..6], &g.0);
    assert_eq!(&out[6..12], &m.0);
    assert_eq!(&out[12..14], &[0x08, 0x00]);
    let header = Ipv4Header::from_bytes(&out[14..34]).unwrap();
    assert!(header.validate().is_ok());
    assert_eq!(header.src, our_addr);
    assert_eq!(header.dst, peer);
    // Echo reply with the request's code, values and payload.
    assert_eq!(out[34], 0x00);
    assert_eq!(&out[38..42], &[0x00, 0x80, 0x00, 0x01]);
    assert_eq!(&out[42..44], b"hi");
}

#[test]
fn test_stop() {
    let mut app = App::new();
    app.stop().unwrap();
    assert_eq!(app.devices[0].flags & NET_DEVICE_FLAG_UP, 0);
    assert_eq!(app.devices[1].flags & NET_DEVICE_FLAG_UP, 0);
}
