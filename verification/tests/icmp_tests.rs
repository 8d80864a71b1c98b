use netstack::errors::NetError;
use netstack::transport::icmp::{IcmpHeader, IcmpType};

#[test]
fn test_parse_icmp_header() {
    let data = [
        0x08, 0x00, 0x35, 0x64, 0x00, 0x80, 0x00, 0x01, 0x31, 0x32, 0x33, 0x34, 0x35, 0x36, 0x37,
        0x38, 0x39, 0x30, 0x21, 0x40, 0x23, 0x24, 0x25, 0x5e, 0x26, 0x2a, 0x28, 0x29,
    ];
    let header = IcmpHeader::from_bytes(data.as_ref()).unwrap();
    assert_eq!(header.ty, IcmpType::Echo);
    assert_eq!(header.code, 0x00);
    assert_eq!(header.checksum, 0x3564);
    assert_eq!(header.values, 0x00800001);
}

#[test]
fn test_icmp_header_roundtrip() {
    let header = IcmpHeader { ty: IcmpType::EchoReply, code: 3, checksum: 0xabcd, values: 7 };
    let bytes = header.to_bytes();
    assert_eq!(IcmpHeader::from_bytes(&bytes).unwrap(), header);
}

#[test]
fn test_icmp_header_errors() {
    assert_eq!(
        IcmpHeader::from_bytes(&[8, 0, 0]),
        Err(NetError::FrameTooShort)
    );
    let data = [0x03, 0x00, 0x00, 0x00, 0x00, 0x00, 0x00, 0x00];
    assert_eq!(
        IcmpHeader::from_bytes(data.as_ref()),
        Err(NetError::UnknownProtocol)
    );
}
