use netstack::errors::NetError;
use netstack::protocols::ipv4::{Ipv4Address, Ipv4Header};
use netstack::transport::TransportProtocolNumber;

fn sample_packet() -> [u8; 48] {
    [
        0x45, 0x00, 0x00, 0x30, 0x00, 0x80, 0x00, 0x00, 0xff, 0x01, 0xbd, 0x4a, 0x7f, 0x00, 0x00,
        0x01, 0x7f, 0x00, 0x00, 0x01, 0x08, 0x00, 0x35, 0x64, 0x00, 0x80, 0x00, 0x01, 0x31, 0x32,
        0x33, 0x34, 0x35, 0x36, 0x37, 0x38, 0x39, 0x30, 0x21, 0x40, 0x23, 0x24, 0x25, 0x5e, 0x26,
        0x2a, 0x28, 0x29,
    ]
}

#[test]
fn test_ipv4_header() {
    let data = sample_packet();
    let header = Ipv4Header::from_bytes(data.as_ref()).unwrap();
    assert!(header.validate().is_ok());
}

#[test]
fn test_header_parse_fields() {
    let data = sample_packet();
    let header = Ipv4Header::from_bytes(data.as_ref()).unwrap();
    assert!(header.validate().is_ok());
    assert_eq!(header.version(), 4);
    assert_eq!(header.header_length(), 20);
    assert_eq!(header.ttl, 255);
    assert_eq!(header.protocol, TransportProtocolNumber::Icmp);
    assert_eq!(header.src, Ipv4Address(0x7f000001));
    assert_eq!(header.dst, Ipv4Address(0x7f000001));
}

#[test]
fn test_header_roundtrip() {
    let data = sample_packet();
    let header = Ipv4Header::from_bytes(data.as_ref()).unwrap();
    let bytes = header.to_bytes();
    assert_eq!(&bytes[..], &data[..20]);
    let reparsed = Ipv4Header::from_bytes(&bytes).unwrap();
    assert_eq!(reparsed, header);
    assert!(reparsed.validate().is_ok());
}

#[test]
fn test_fragment_rejection() {
    let data = sample_packet();
    let mut header = Ipv4Header::from_bytes(data.as_ref()).unwrap();
    // More-fragments bit set.
    header.flags_fragment_offset = 0x2000;
    assert_eq!(header.validate(), Err(NetError::Fragmented));
    // Non-zero fragment offset.
    header.flags_fragment_offset = 0x0010;
    assert_eq!(header.validate(), Err(NetError::Fragmented));
}

#[test]
fn test_header_errors() {
    assert_eq!(
        Ipv4Header::from_bytes(&[0u8; 10]),
        Err(NetError::FrameTooShort)
    );
    let mut data = sample_packet();
    data[9] = 99;
    assert_eq!(
        Ipv4Header::from_bytes(data.as_ref()),
        Err(NetError::UnknownProtocol)
    );
    let data = sample_packet();
    let mut header = Ipv4Header::from_bytes(data.as_ref()).unwrap();
    header.version_header_length = 0x55;
    assert_eq!(header.validate(), Err(NetError::InvalidVersion));
    header.version_header_length = 0x44;
    assert_eq!(header.validate(), Err(NetError::HeaderTooShort));
    header.version_header_length = 0x4f;
    assert_eq!(header.validate(), Err(NetError::HeaderTooLong));
    // Flipping a header byte breaks the checksum.
    let mut header = Ipv4Header::from_bytes(data.as_ref()).unwrap();
    header.ttl = 254;
    assert_eq!(header.validate(), Err(NetError::InvalidChecksum));
}

#[test]
fn test_addr_parse() {
    assert_eq!(
        Ipv4Address::try_from_str("192.0.0.1"),
        Some(Ipv4Address(0xc0000001))
    );
    assert_eq!(
        Ipv4Address::try_from_str("255.255.255.255"),
        Some(Ipv4Address(0xffffffff))
    );
    assert_eq!(
        Ipv4Address::try_from_str("0.0.0.0"),
        Some(Ipv4Address(0))
    );
    // Leading zeros are digits too.
    assert_eq!(
        Ipv4Address::try_from_str("010.2.3.4"),
        Some(Ipv4Address(0x0a020304))
    );
    assert_eq!(Ipv4Address::try_from_str("256.0.0.1"), None);
    assert_eq!(Ipv4Address::try_from_str("1.2.3"), None);
    assert_eq!(Ipv4Address::try_from_str("1.2.3.4.5"), None);
    assert_eq!(Ipv4Address::try_from_str("a.b.c.d"), None);
    assert_eq!(Ipv4Address::try_from_str("1..2.3"), None);
    assert_eq!(Ipv4Address::try_from_str(""), None);
}
