//! IPv4: addresses, the 20-byte header codec and its validation, interfaces,
//! longest-prefix-match routing, the packet-identification generator, and
//! (further down) the send and receive pipelines.

use vstd::prelude::*;
use crate::devices::ethernet::{spec_mac_broadcast, MacAddress};
use crate::devices::{NetDevice, NetDeviceType, NetDevices, NET_DEVICE_FLAG_NEED_ARP};
use crate::errors::NetError;
use crate::protocols::arp::ArpCacheState;
use crate::protocols::{NetInterfaceFamily, NetProtocolType, ProtocolStackContext};
use crate::transport::TransportProtocolNumber;
use vstd::string::StringSliceAdditionalSpecFns;
use crate::utils::{
    calculate_checksum, checksum_spec, spec_be16, spec_be32, spec_hi16, spec_lo16, spec_oct,
};

verus! {

pub const IPV4_HEADER_MIN_LENGTH: u8 = 20;

pub const IPV4_HEADER_MAX_LENGTH: u8 = 60;

pub const IPV4_VERSION: u8 = 4;

/// The most payload one IPv4 packet can carry: a 65535-byte total length
/// minus the 20-byte header.
pub const IPV4_PAYLOAD_MAX_LENGTH: usize = 65515;

/// The unspecified address 0.0.0.0.
pub const IPV4_ADDR_ANY: u32 = 0x00000000;

/// The limited broadcast address 255.255.255.255.
pub const IPV4_ADDR_BROADCAST: u32 = 0xffffffff;

/// An IPv4 address, kept in host order; big-endian on the wire.
#[derive(Clone, Copy, Debug, PartialEq, Eq, Hash, Structural)]
pub struct Ipv4Address(pub u32);

pub open spec fn spec_is_digit(b: u8) -> bool {
    0x30 <= b <= 0x39
}

/// The decimal value of a run of digit characters.
pub open spec fn spec_digits_value(s: Seq<u8>) -> int
    decreases s.len(),
{
    if s.len() == 0 {
        0
    } else {
        spec_digits_value(s.drop_last()) * 10 + (s.last() - 0x30)
    }
}

/// A non-empty run of decimal digits whose value fits an address octet.
pub open spec fn spec_is_octet_text(s: Seq<u8>) -> bool {
    &&& s.len() >= 1
    &&& forall|i: int| 0 <= i < s.len() ==> spec_is_digit(#[trigger] s[i])
    &&& spec_digits_value(s) <= 255
}

/// The first position of `b` in `s` at or after `from`.
pub open spec fn spec_find_byte(s: Seq<u8>, from: int, b: u8) -> Option<int>
    decreases s.len() - from,
{
    if from < 0 || from >= s.len() {
        None
    } else if s[from] == b {
        Some(from)
    } else {
        spec_find_byte(s, from + 1, b)
    }
}

/// What `try_from_str` accepts: exactly three dots, and the four runs
/// between them each a decimal octet. The address combines the octets in
/// big-endian order.
pub open spec fn spec_parse_dotted_quad(s: Seq<u8>) -> Option<Ipv4Address> {
    match spec_find_byte(s, 0, 0x2e) {
        None => None,
        Some(d1) => match spec_find_byte(s, d1 + 1, 0x2e) {
            None => None,
            Some(d2) => match spec_find_byte(s, d2 + 1, 0x2e) {
                None => None,
                Some(d3) => if spec_find_byte(s, d3 + 1, 0x2e) is Some {
                    None
                } else {
                    let o0 = s.subrange(0, d1);
                    let o1 = s.subrange(d1 + 1, d2);
                    let o2 = s.subrange(d2 + 1, d3);
                    let o3 = s.subrange(d3 + 1, s.len() as int);
                    if spec_is_octet_text(o0) && spec_is_octet_text(o1) && spec_is_octet_text(o2)
                        && spec_is_octet_text(o3) {
                        Some(
                            Ipv4Address(
                                spec_be32(
                                    spec_digits_value(o0) as u8,
                                    spec_digits_value(o1) as u8,
                                    spec_digits_value(o2) as u8,
                                    spec_digits_value(o3) as u8,
                                ),
                            ),
                        )
                    } else {
                        None
                    }
                },
            },
        },
    }
}

proof fn lemma_digits_value_nonneg(s: Seq<u8>)
    requires
        forall|i: int| 0 <= i < s.len() ==> spec_is_digit(#[trigger] s[i]),
    ensures
        spec_digits_value(s) >= 0,
    decreases s.len(),
{
    if s.len() > 0 {
        assert forall|i: int| 0 <= i < s.drop_last().len() implies spec_is_digit(
            #[trigger] s.drop_last()[i],
        ) by {
            assert(s.drop_last()[i] == s[i]);
        }
        lemma_digits_value_nonneg(s.drop_last());
    }
}

/// Appending digits never shrinks the value of a digit run.
proof fn lemma_digits_value_monotone(s: Seq<u8>, k: int)
    requires
        0 <= k <= s.len(),
        forall|i: int| 0 <= i < s.len() ==> spec_is_digit(#[trigger] s[i]),
    ensures
        spec_digits_value(s) >= spec_digits_value(s.take(k)),
    decreases s.len() - k,
{
    if k == s.len() {
        assert(s.take(k) =~= s);
    } else {
        assert(s.take(k + 1).drop_last() =~= s.take(k));
        assert(s.take(k + 1).last() == s[k]);
        assert forall|i: int| 0 <= i < s.take(k).len() implies spec_is_digit(
            #[trigger] s.take(k)[i],
        ) by {
            assert(s.take(k)[i] == s[i]);
        }
        lemma_digits_value_nonneg(s.take(k));
        lemma_digits_value_monotone(s, k + 1);
    }
}

/// Find the first `b` in `s` at or after `from`.
fn find_byte(s: &[u8], from: usize, b: u8) -> (r: Option<usize>)
    ensures
        match r {
            Some(i) => from <= i < s@.len() && spec_find_byte(s@, from as int, b) == Some(i as int),
            None => spec_find_byte(s@, from as int, b) is None,
        },
{
    let mut i: usize = from;
    while i < s.len()
        invariant
            from <= i,
            spec_find_byte(s@, from as int, b) == spec_find_byte(s@, i as int, b),
        decreases s@.len() - i,
    {
        if s[i] == b {
            return Some(i);
        }
        i = i + 1;
    }
    None
}

/// Parse the decimal octet in `s[start..end]`.
fn parse_octet(s: &[u8], start: usize, end: usize) -> (r: Option<u8>)
    requires
        start <= end <= s@.len(),
    ensures
        ({
            let seg = s@.subrange(start as int, end as int);
            match r {
                Some(v) => spec_is_octet_text(seg) && v == spec_digits_value(seg),
                None => !spec_is_octet_text(seg),
            }
        }),
{
    let ghost seg = s@.subrange(start as int, end as int);
    if start == end {
        return None;
    }
    let mut acc: u32 = 0;
    let mut i: usize = start;
    while i < end
        invariant
            start <= i <= end <= s@.len(),
            seg == s@.subrange(start as int, end as int),
            forall|j: int| start <= j < i ==> spec_is_digit(#[trigger] s@[j]),
            acc == spec_digits_value(s@.subrange(start as int, i as int)),
            acc <= 255,
        decreases end - i,
    {
        let ch = s[i];
        if ch < 0x30 || ch > 0x39 {
            proof {
                assert(seg[i - start] == s@[i as int]);
            }
            return None;
        }
        proof {
            assert(s@.subrange(start as int, i + 1 as int).drop_last() =~= s@.subrange(
                start as int,
                i as int,
            ));
            assert(s@.subrange(start as int, i + 1 as int).last() == s@[i as int]);
        }
        acc = acc * 10 + (ch - 0x30) as u32;
        i = i + 1;
        if acc > 255 {
            proof {
                if spec_is_octet_text(seg) {
                    assert(seg.take(i - start) =~= s@.subrange(start as int, i as int));
                    lemma_digits_value_monotone(seg, i - start);
                }
            }
            return None;
        }
    }
    proof {
        assert(seg =~= s@.subrange(start as int, end as int));
        assert forall|j: int| 0 <= j < seg.len() implies spec_is_digit(#[trigger] seg[j]) by {
            assert(seg[j] == s@[start + j]);
        }
    }
    Some(acc as u8)
}

impl Ipv4Address {
    pub open spec fn spec_from_octets(b0: u8, b1: u8, b2: u8, b3: u8) -> Ipv4Address {
        Ipv4Address(spec_be32(b0, b1, b2, b3))
    }

    /// The address `o[0].o[1].o[2].o[3]` from the first four octet bytes.
    pub fn new(octets: &[u8]) -> (r: Ipv4Address)
        requires
            octets@.len() >= 4,
        ensures
            r == Self::spec_from_octets(octets@[0], octets@[1], octets@[2], octets@[3]),
    {
        Ipv4Address(
            octets[0] as u32 * 0x1000000 + octets[1] as u32 * 0x10000 + octets[2] as u32 * 0x100
                + octets[3] as u32,
        )
    }

    /// Parse a dotted-quad string: four runs of decimal digits, each no
    /// more than 255, separated by single dots.
    pub fn try_from_str(value: &str) -> (r: Option<Ipv4Address>)
        ensures
            r == spec_parse_dotted_quad(value.spec_bytes()),
    {
        let bytes = value.as_bytes();
        let n = bytes.len();
        let d1 = match find_byte(bytes, 0, 0x2e) {
            Some(d) => d,
            None => {
                return None;
            },
        };
        let d2 = match find_byte(bytes, d1 + 1, 0x2e) {
            Some(d) => d,
            None => {
                return None;
            },
        };
        let d3 = match find_byte(bytes, d2 + 1, 0x2e) {
            Some(d) => d,
            None => {
                return None;
            },
        };
        if find_byte(bytes, d3 + 1, 0x2e).is_some() {
            return None;
        }
        let b0 = match parse_octet(bytes, 0, d1) {
            Some(b) => b,
            None => {
                return None;
            },
        };
        let b1 = match parse_octet(bytes, d1 + 1, d2) {
            Some(b) => b,
            None => {
                return None;
            },
        };
        let b2 = match parse_octet(bytes, d2 + 1, d3) {
            Some(b) => b,
            None => {
                return None;
            },
        };
        let b3 = match parse_octet(bytes, d3 + 1, n) {
            Some(b) => b,
            None => {
                return None;
            },
        };
        Some(
            Ipv4Address(
                b0 as u32 * 0x1000000 + b1 as u32 * 0x10000 + b2 as u32 * 0x100 + b3 as u32,
            ),
        )
    }

    /// The four octets, most significant first, as they travel on the wire.
    pub open spec fn spec_to_bytes(self) -> Seq<u8> {
        seq![spec_oct(self.0, 0), spec_oct(self.0, 1), spec_oct(self.0, 2), spec_oct(self.0, 3)]
    }

    pub fn to_bytes(&self) -> (r: Vec<u8>)
        ensures
            r@ == self.spec_to_bytes(),
    {
        let mut bytes: Vec<u8> = Vec::new();
        bytes.push((self.0 / 0x1000000) as u8);
        bytes.push((self.0 / 0x10000 % 0x100) as u8);
        bytes.push((self.0 / 0x100 % 0x100) as u8);
        bytes.push((self.0 % 0x100) as u8);
        proof {
            assert(bytes@ =~= self.spec_to_bytes());
        }
        bytes
    }
}

/// The fixed 20-byte IPv4 header; options are not supported.
#[derive(Clone, Copy, Debug, PartialEq, Eq, Structural)]
pub struct Ipv4Header {
    pub version_header_length: u8,
    pub tos: u8,
    pub total_length: u16,
    pub identification: u16,
    pub flags_fragment_offset: u16,
    pub ttl: u8,
    pub protocol: TransportProtocolNumber,
    pub header_checksum: u16,
    pub src: Ipv4Address,
    pub dst: Ipv4Address,
}

impl Ipv4Header {
    pub open spec fn spec_version(self) -> u8 {
        (self.version_header_length / 0x10) as u8
    }

    /// The header length in bytes: the low nibble counts 32-bit words.
    pub open spec fn spec_header_length(self) -> u8 {
        ((self.version_header_length % 0x10) * 4) as u8
    }

    /// The three flag bits; bit 0 is "more fragments".
    pub open spec fn spec_flags(self) -> u8 {
        (self.flags_fragment_offset / 0x2000) as u8
    }

    pub open spec fn spec_fragment_offset(self) -> u16 {
        (self.flags_fragment_offset % 0x2000) as u16
    }

    pub fn version(&self) -> (r: u8)
        ensures
            r == self.spec_version(),
    {
        self.version_header_length / 0x10
    }

    pub fn header_length(&self) -> (r: u8)
        ensures
            r == self.spec_header_length(),
    {
        (self.version_header_length % 0x10) * 4
    }

    pub fn flags(&self) -> (r: u8)
        ensures
            r == self.spec_flags(),
    {
        (self.flags_fragment_offset / 0x2000) as u8
    }

    pub fn fragment_offset(&self) -> (r: u16)
        ensures
            r == self.spec_fragment_offset(),
    {
        self.flags_fragment_offset % 0x2000
    }

    /// The 20 bytes of the header in wire order.
    pub open spec fn spec_to_bytes(self) -> Seq<u8> {
        seq![
            self.version_header_length,
            self.tos,
            spec_hi16(self.total_length),
            spec_lo16(self.total_length),
            spec_hi16(self.identification),
            spec_lo16(self.identification),
            spec_hi16(self.flags_fragment_offset),
            spec_lo16(self.flags_fragment_offset),
            self.ttl,
            self.protocol.spec_u8(),
            spec_hi16(self.header_checksum),
            spec_lo16(self.header_checksum),
            spec_oct(self.src.0, 0),
            spec_oct(self.src.0, 1),
            spec_oct(self.src.0, 2),
            spec_oct(self.src.0, 3),
            spec_oct(self.dst.0, 0),
            spec_oct(self.dst.0, 1),
            spec_oct(self.dst.0, 2),
            spec_oct(self.dst.0, 3),
        ]
    }

    pub fn to_bytes(&self) -> (r: Vec<u8>)
        ensures
            r@ == self.spec_to_bytes(),
            r@.len() == 20,
    {
        let mut bytes: Vec<u8> = Vec::new();
        bytes.push(self.version_header_length);
        bytes.push(self.tos);
        bytes.push((self.total_length / 0x100) as u8);
        bytes.push((self.total_length % 0x100) as u8);
        bytes.push((self.identification / 0x100) as u8);
        bytes.push((self.identification % 0x100) as u8);
        bytes.push((self.flags_fragment_offset / 0x100) as u8);
        bytes.push((self.flags_fragment_offset % 0x100) as u8);
        bytes.push(self.ttl);
        bytes.push(self.protocol.to_u8());
        bytes.push((self.header_checksum / 0x100) as u8);
        bytes.push((self.header_checksum % 0x100) as u8);
        bytes.push((self.src.0 / 0x1000000) as u8);
        bytes.push((self.src.0 / 0x10000 % 0x100) as u8);
        bytes.push((self.src.0 / 0x100 % 0x100) as u8);
        bytes.push((self.src.0 % 0x100) as u8);
        bytes.push((self.dst.0 / 0x1000000) as u8);
        bytes.push((self.dst.0 / 0x10000 % 0x100) as u8);
        bytes.push((self.dst.0 / 0x100 % 0x100) as u8);
        bytes.push((self.dst.0 % 0x100) as u8);
        proof {
            assert(bytes@ =~= self.spec_to_bytes());
        }
        bytes
    }

    /// The header read back from the first 20 bytes of `data`; meaningful
    /// when `data` is at least 20 bytes and byte 9 is a known protocol.
    pub open spec fn spec_parse(data: Seq<u8>) -> Ipv4Header {
        Ipv4Header {
            version_header_length: data[0],
            tos: data[1],
            total_length: spec_be16(data[2], data[3]),
            identification: spec_be16(data[4], data[5]),
            flags_fragment_offset: spec_be16(data[6], data[7]),
            ttl: data[8],
            protocol: TransportProtocolNumber::spec_from_u8(data[9]),
            header_checksum: spec_be16(data[10], data[11]),
            src: Ipv4Address(spec_be32(data[12], data[13], data[14], data[15])),
            dst: Ipv4Address(spec_be32(data[16], data[17], data[18], data[19])),
        }
    }

    pub fn from_bytes(data: &[u8]) -> (r: Result<Ipv4Header, NetError>)
        ensures
            match r {
                Ok(h) => {
                    &&& data@.len() >= 20
                    &&& TransportProtocolNumber::spec_known(data@[9])
                    &&& h == Self::spec_parse(data@)
                },
                Err(NetError::FrameTooShort) => data@.len() < 20,
                Err(NetError::UnknownProtocol) => data@.len() >= 20
                    && !TransportProtocolNumber::spec_known(data@[9]),
                Err(_) => false,
            },
    {
        if data.len() < 20 {
            return Err(NetError::FrameTooShort);
        }
        let Some(protocol) = TransportProtocolNumber::from_u8(data[9]) else {
            return Err(NetError::UnknownProtocol);
        };
        Ok(
            Ipv4Header {
                version_header_length: data[0],
                tos: data[1],
                total_length: data[2] as u16 * 0x100 + data[3] as u16,
                identification: data[4] as u16 * 0x100 + data[5] as u16,
                flags_fragment_offset: data[6] as u16 * 0x100 + data[7] as u16,
                ttl: data[8],
                protocol,
                header_checksum: data[10] as u16 * 0x100 + data[11] as u16,
                src: Ipv4Address(
                    data[12] as u32 * 0x1000000 + data[13] as u32 * 0x10000 + data[14] as u32
                        * 0x100 + data[15] as u32,
                ),
                dst: Ipv4Address(
                    data[16] as u32 * 0x1000000 + data[17] as u32 * 0x10000 + data[18] as u32
                        * 0x100 + data[19] as u32,
                ),
            },
        )
    }

    /// A header this stack accepts: version 4, a header length in the
    /// 20-byte-no-options window, no fragmentation, and a header that
    /// checksums to zero.
    pub open spec fn spec_valid(self) -> bool {
        &&& self.spec_version() == IPV4_VERSION
        &&& self.spec_header_length() >= IPV4_HEADER_MIN_LENGTH
        &&& self.spec_header_length() < IPV4_HEADER_MAX_LENGTH
        &&& self.spec_flags() % 2 == 0
        &&& self.spec_fragment_offset() == 0
        &&& checksum_spec(self.spec_to_bytes(), 0) == 0
    }

    /// The exact verdict `validate` reaches, with the first failing check
    /// naming the error.
    pub open spec fn spec_validate(self) -> Result<(), NetError> {
        if self.spec_version() != IPV4_VERSION {
            Err(NetError::InvalidVersion)
        } else if self.spec_header_length() < IPV4_HEADER_MIN_LENGTH {
            Err(NetError::HeaderTooShort)
        } else if self.spec_header_length() >= IPV4_HEADER_MAX_LENGTH {
            Err(NetError::HeaderTooLong)
        } else if self.spec_flags() % 2 != 0 || self.spec_fragment_offset() != 0 {
            Err(NetError::Fragmented)
        } else if checksum_spec(self.spec_to_bytes(), 0) != 0 {
            Err(NetError::InvalidChecksum)
        } else {
            Ok(())
        }
    }

    pub fn validate(&self) -> (r: Result<(), NetError>)
        ensures
            r == self.spec_validate(),
            r is Ok <==> self.spec_valid(),
    {
        if self.version() != IPV4_VERSION {
            return Err(NetError::InvalidVersion);
        }
        if self.header_length() < IPV4_HEADER_MIN_LENGTH {
            return Err(NetError::HeaderTooShort);
        }
        if self.header_length() >= IPV4_HEADER_MAX_LENGTH {
            return Err(NetError::HeaderTooLong);
        }
        let flags = self.flags();
        proof {
            let fl: u8 = flags;
            assert(fl & 0x1u8 == fl % 2u8) by (bit_vector);
        }
        if flags & 0x1 > 0 || self.fragment_offset() > 0 {
            return Err(NetError::Fragmented);
        }
        if self.validate_checksum().is_err() {
            return Err(NetError::InvalidChecksum);
        }
        Ok(())
    }

    /// The header bytes, checksummed with a zero seed, must fold to zero.
    pub fn validate_checksum(&self) -> (r: Result<(), NetError>)
        ensures
            match r {
                Ok(()) => checksum_spec(self.spec_to_bytes(), 0) == 0,
                Err(e) => e == NetError::InvalidChecksum && checksum_spec(self.spec_to_bytes(), 0)
                    != 0,
            },
    {
        let data = self.to_bytes();
        let checksum = calculate_checksum(data.as_slice(), 0);
        if checksum != 0 {
            return Err(NetError::InvalidChecksum);
        }
        Ok(())
    }
}

/// Parsing the serialized bytes of any header gives the header back, and a
/// valid header stays valid through the round trip. Together with
/// `to_bytes` and `from_bytes` this is the header round trip.
pub proof fn lemma_header_roundtrip(h: Ipv4Header)
    ensures
        Ipv4Header::spec_parse(h.spec_to_bytes()) == h,
        h.spec_to_bytes().len() == 20,
        h.spec_to_bytes()[9] == h.protocol.spec_u8(),
        TransportProtocolNumber::spec_known(h.spec_to_bytes()[9]),
        h.spec_valid() ==> Ipv4Header::spec_parse(h.spec_to_bytes()).spec_valid(),
        Ipv4Header::spec_parse(h.spec_to_bytes()).spec_validate() == h.spec_validate(),
{
    crate::utils::lemma_be16_roundtrip(h.total_length);
    crate::utils::lemma_be16_roundtrip(h.identification);
    crate::utils::lemma_be16_roundtrip(h.flags_fragment_offset);
    crate::utils::lemma_be16_roundtrip(h.header_checksum);
    crate::utils::lemma_be32_roundtrip(h.src.0);
    crate::utils::lemma_be32_roundtrip(h.dst.0);
    assert(TransportProtocolNumber::spec_from_u8(h.protocol.spec_u8()) == h.protocol);
}

/// An IPv4 address binding attached to a device. The broadcast address is
/// derived from the unicast address and netmask at construction and never
/// mutated. The device reference is an index into the device registry.
#[derive(Clone, Copy, Debug, PartialEq, Eq)]
pub struct Ipv4Interface {
    pub family: NetInterfaceFamily,
    pub unicast: Ipv4Address,
    pub netmask: Ipv4Address,
    pub broadcast: Ipv4Address,
    pub device_index: Option<usize>,
}

impl Ipv4Interface {
    /// The directed broadcast of the interface's network: the unicast
    /// address with every host bit set.
    pub fn new(unicast: Ipv4Address, netmask: Ipv4Address, device_index: usize) -> (r:
        Ipv4Interface)
        ensures
            r.family == NetInterfaceFamily::Ipv4,
            r.unicast == unicast,
            r.netmask == netmask,
            r.broadcast.0 == unicast.0 | !netmask.0,
            r.device_index == Some(device_index),
    {
        let broadcast = Ipv4Address(unicast.0 | !netmask.0);
        Ipv4Interface {
            family: NetInterfaceFamily::Ipv4,
            unicast,
            netmask,
            broadcast,
            device_index: Some(device_index),
        }
    }
}

/// A routing table entry. `next_hop` of `None` means on-link delivery.
#[derive(Clone, Copy, Debug)]
pub struct IpRoute {
    pub network: Ipv4Address,
    pub netmask: Ipv4Address,
    pub interface: Ipv4Interface,
    pub next_hop: Option<Ipv4Address>,
}

/// A destination falls into a route's network when masking it with the
/// route's netmask gives the route's network address.
pub open spec fn route_matches(r: IpRoute, dst: Ipv4Address) -> bool {
    dst.0 & r.netmask.0 == r.network.0
}

/// The index of the best route among the first `n`: the longest matching
/// netmask, earliest registered on ties.
pub open spec fn spec_best_upto(routes: Seq<IpRoute>, dst: Ipv4Address, n: int) -> Option<int>
    decreases n,
{
    if n <= 0 {
        None
    } else {
        let prev = spec_best_upto(routes, dst, n - 1);
        if route_matches(routes[n - 1], dst) && (prev is None || routes[n - 1].netmask.0
            > routes[prev->0].netmask.0) {
            Some(n - 1)
        } else {
            prev
        }
    }
}

/// What `Ipv4Router::lookup` answers over the whole table.
pub open spec fn spec_lookup(routes: Seq<IpRoute>, dst: Ipv4Address) -> Option<IpRoute> {
    match spec_best_upto(routes, dst, routes.len() as int) {
        Some(i) => Some(routes[i]),
        None => None,
    }
}

/// Route `i` matches and no other matching route is better: none has a
/// longer netmask, and among equal netmasks none stands earlier.
pub open spec fn is_best_route(routes: Seq<IpRoute>, dst: Ipv4Address, i: int) -> bool {
    &&& 0 <= i < routes.len()
    &&& route_matches(routes[i], dst)
    &&& forall|j: int|
        0 <= j < routes.len() && #[trigger] route_matches(routes[j], dst) ==> (routes[j].netmask.0
            < routes[i].netmask.0 || (routes[j].netmask.0 == routes[i].netmask.0 && i <= j))
}

/// The ordered routing table with longest-prefix-match lookup.
pub struct Ipv4Router {
    pub routes: Vec<IpRoute>,
}

impl Ipv4Router {
    pub fn new() -> (r: Ipv4Router)
        ensures
            r.routes@.len() == 0,
    {
        Ipv4Router { routes: Vec::new() }
    }

    /// Append an on-link route for `network` through `interface`, with the
    /// interface's own netmask.
    pub fn register(&mut self, network: Ipv4Address, interface: Ipv4Interface)
        ensures
            final(self).routes@ == old(self).routes@.push(
                (IpRoute { network, netmask: interface.netmask, interface, next_hop: None }),
            ),
    {
        self.routes.push(
            IpRoute { network, netmask: interface.netmask, interface, next_hop: None },
        );
    }

    /// Prepend the default route: network and netmask 0.0.0.0, delivered
    /// through `gateway`. Its empty netmask makes it lose to any matching
    /// specific route.
    pub fn register_default(&mut self, interface: Ipv4Interface, gateway: Ipv4Address)
        ensures
            final(self).routes@ == old(self).routes@.insert(
                0,
                (IpRoute {
                    network: Ipv4Address(IPV4_ADDR_ANY),
                    netmask: Ipv4Address(IPV4_ADDR_ANY),
                    interface,
                    next_hop: Some(gateway),
                }),
            ),
    {
        self.routes.insert(
            0,
            IpRoute {
                network: Ipv4Address(IPV4_ADDR_ANY),
                netmask: Ipv4Address(IPV4_ADDR_ANY),
                interface,
                next_hop: Some(gateway),
            },
        );
    }

    /// The route with the longest matching netmask; on ties the first
    /// registered wins. `None` when no route matches.
    pub fn lookup(&self, dst: Ipv4Address) -> (r: Option<IpRoute>)
        ensures
            r == spec_lookup(self.routes@, dst),
            match r {
                Some(route) => exists|i: int|
                    #[trigger] is_best_route(self.routes@, dst, i) && self.routes@[i] == route,
                None => forall|i: int|
                    0 <= i < self.routes@.len() ==> !(#[trigger] route_matches(
                        self.routes@[i],
                        dst,
                    )),
            },
    {
        let mut candidate: Option<usize> = None;
        let mut i: usize = 0;
        while i < self.routes.len()
            invariant
                i <= self.routes@.len(),
                match candidate {
                    None => spec_best_upto(self.routes@, dst, i as int) is None,
                    Some(ci) => spec_best_upto(self.routes@, dst, i as int) == Some(ci as int),
                },
                match candidate {
                    None => forall|j: int|
                        0 <= j < i ==> !(#[trigger] route_matches(self.routes@[j], dst)),
                    Some(ci) => {
                        &&& ci < i
                        &&& route_matches(self.routes@[ci as int], dst)
                        &&& forall|j: int|
                            0 <= j < i && #[trigger] route_matches(self.routes@[j], dst) ==> (
                            self.routes@[j].netmask.0 < self.routes@[ci as int].netmask.0 || (
                            self.routes@[j].netmask.0 == self.routes@[ci as int].netmask.0 && ci
                                <= j))
                    },
                },
            decreases self.routes@.len() - i,
        {
            let route = &self.routes[i];
            let matches = route.netmask.0 & dst.0 == route.network.0;
            proof {
                let a: u32 = dst.0;
                let m: u32 = route.netmask.0;
                assert(a & m == m & a) by (bit_vector);
            }
            if matches {
                match candidate {
                    None => {
                        candidate = Some(i);
                    },
                    Some(ci) => {
                        if route.netmask.0 > self.routes[ci].netmask.0 {
                            candidate = Some(i);
                        }
                    },
                }
            }
            i = i + 1;
        }
        match candidate {
            None => None,
            Some(ci) => {
                proof {
                    assert(is_best_route(self.routes@, dst, ci as int));
                }
                Some(self.routes[ci])
            },
        }
    }
}

/// The default route is a last resort: when lookup settles on a route with
/// an empty netmask, no route with a longer netmask matched the destination.
pub proof fn lemma_default_route_last_resort(
    routes: Seq<IpRoute>,
    dst: Ipv4Address,
    i: int,
    j: int,
)
    requires
        is_best_route(routes, dst, i),
        routes[i].netmask.0 == 0,
        0 <= j < routes.len(),
        routes[j].netmask.0 > 0,
    ensures
        !route_matches(routes[j], dst),
{
}

/// The 20 bytes of an egress header: version 4, no options, zero TOS, no
/// fragmentation, TTL 64, and the checksum computed over the header bytes.
pub open spec fn spec_ip_header_bytes(
    id: u16,
    protocol: TransportProtocolNumber,
    src: Ipv4Address,
    dst: Ipv4Address,
    data_len: int,
) -> Seq<u8> {
    let h0 = Ipv4Header {
        version_header_length: 0x45,
        tos: 0,
        total_length: (20 + data_len) as u16,
        identification: id,
        flags_fragment_offset: 0,
        ttl: 64,
        protocol,
        header_checksum: 0,
        src,
        dst,
    };
    let c = checksum_spec(h0.spec_to_bytes(), 0);
    (Ipv4Header { header_checksum: c, ..h0 }).spec_to_bytes()
}

/// A complete egress packet: header, then payload.
pub open spec fn spec_packet_bytes(
    id: u16,
    protocol: TransportProtocolNumber,
    src: Ipv4Address,
    dst: Ipv4Address,
    payload: Seq<u8>,
) -> Seq<u8> {
    spec_ip_header_bytes(id, protocol, src, dst, payload.len() as int) + payload
}

/// Build the egress header for `data`, identification `id`, with its
/// checksum filled in.
pub fn create_ip_header(
    id: u16,
    protocol: TransportProtocolNumber,
    src: Ipv4Address,
    dst: Ipv4Address,
    data: &[u8],
) -> (r: Vec<u8>)
    requires
        data@.len() <= IPV4_PAYLOAD_MAX_LENGTH,
    ensures
        r@ == spec_ip_header_bytes(id, protocol, src, dst, data@.len() as int),
        r@.len() == 20,
{
    let total_length: u16 = IPV4_HEADER_MIN_LENGTH as u16 + data.len() as u16;
    let header0 = Ipv4Header {
        version_header_length: 0x45,
        tos: 0,
        total_length,
        identification: id,
        flags_fragment_offset: 0,
        ttl: 64,
        protocol,
        header_checksum: 0,
        src,
        dst,
    };
    let bytes0 = header0.to_bytes();
    let checksum = calculate_checksum(bytes0.as_slice(), 0);
    let header = Ipv4Header { header_checksum: checksum, ..header0 };
    header.to_bytes()
}

/// Every egress header the send path builds is a valid header: version 4,
/// 20 bytes, unfragmented, and checksummed so that a receiver's validation
/// folds it to zero.
pub proof fn lemma_egress_header_valid(
    id: u16,
    protocol: TransportProtocolNumber,
    src: Ipv4Address,
    dst: Ipv4Address,
    data_len: int,
)
    requires
        0 <= data_len <= IPV4_PAYLOAD_MAX_LENGTH,
    ensures
        Ipv4Header::spec_parse(spec_ip_header_bytes(id, protocol, src, dst, data_len)).spec_valid(),
        spec_ip_header_bytes(id, protocol, src, dst, data_len).len() == 20,
{
    let m = 0xffffint;
    let h0 = Ipv4Header {
        version_header_length: 0x45,
        tos: 0,
        total_length: (20 + data_len) as u16,
        identification: id,
        flags_fragment_offset: 0,
        ttl: 64,
        protocol,
        header_checksum: 0,
        src,
        dst,
    };
    let s0 = crate::utils::words_sum(h0.spec_to_bytes());
    crate::utils::lemma_words_sum_bounds(h0.spec_to_bytes());
    crate::utils::lemma_fold_carries_props(s0);
    let c = checksum_spec(h0.spec_to_bytes(), 0);
    assert(c == 0xffff - crate::utils::fold_carries(s0));
    let hc = Ipv4Header { header_checksum: c as u16, ..h0 };
    assert(spec_ip_header_bytes(id, protocol, src, dst, data_len) == hc.spec_to_bytes());

    // The two layouts differ by c in the checksum word alone.
    let pre10 = seq![
        0x45u8,
        0u8,
        spec_hi16(h0.total_length),
        spec_lo16(h0.total_length),
        spec_hi16(id),
        spec_lo16(id),
        spec_hi16(0u16),
        spec_lo16(0u16),
        64u8,
        protocol.spec_u8(),
    ];
    let post8 = seq![
        spec_oct(src.0, 0),
        spec_oct(src.0, 1),
        spec_oct(src.0, 2),
        spec_oct(src.0, 3),
        spec_oct(dst.0, 0),
        spec_oct(dst.0, 1),
        spec_oct(dst.0, 2),
        spec_oct(dst.0, 3),
    ];
    let zero2 = seq![spec_hi16(0u16), spec_lo16(0u16)];
    let c2 = seq![spec_hi16(c as u16), spec_lo16(c as u16)];
    assert(h0.spec_to_bytes() =~= (pre10 + zero2) + post8);
    assert(hc.spec_to_bytes() =~= (pre10 + c2) + post8);
    assert(zero2.skip(2) =~= Seq::<u8>::empty());
    assert(c2.skip(2) =~= Seq::<u8>::empty());
    assert(crate::utils::words_sum(Seq::<u8>::empty()) == 0);
    assert(crate::utils::words_sum(c2) == spec_hi16(c as u16) * 0x100 + spec_lo16(c as u16));
    crate::utils::lemma_be16_roundtrip(c as u16);
    assert(spec_be16(spec_hi16(c as u16), spec_lo16(c as u16)) == c as u16);
    assert(spec_hi16(c as u16) * 0x100 + spec_lo16(c as u16) <= 0xffff);
    assert(crate::utils::words_sum(c2) == c);
    assert(crate::utils::words_sum(zero2) == 0);
    crate::utils::lemma_words_sum_append_even(pre10, zero2);
    crate::utils::lemma_words_sum_append_even(pre10, c2);
    crate::utils::lemma_words_sum_append_even(pre10 + zero2, post8);
    crate::utils::lemma_words_sum_append_even(pre10 + c2, post8);
    let s = crate::utils::words_sum(hc.spec_to_bytes());
    assert(s == s0 + c);

    // The checksummed header folds to 0xffff, whose complement is zero.
    crate::utils::lemma_fold_carries_props(s);
    vstd::arithmetic::div_mod::lemma_sub_mod_noop(s0, crate::utils::fold_carries(s0), m);
    assert((s0 - crate::utils::fold_carries(s0)) % m == 0) by {
        assert((s0 % m - crate::utils::fold_carries(s0) % m) % m == (s0
            - crate::utils::fold_carries(s0)) % m);
        assert(s0 % m - crate::utils::fold_carries(s0) % m == 0);
        assert(0int % m == 0);
    }
    assert(s == m * 1 + (s0 - crate::utils::fold_carries(s0)));
    vstd::arithmetic::div_mod::lemma_mod_multiples_vanish(
        1,
        s0 - crate::utils::fold_carries(s0),
        m,
    );
    assert(s % m == 0);
    assert(s > 0);
    assert(crate::utils::fold_carries(s) == 0xffff);
    assert(checksum_spec(hc.spec_to_bytes(), 0) == 0);

    lemma_header_roundtrip(hc);
    assert(hc.spec_valid());
}

/// Everything the IPv4 send path does, from the routing decision to the
/// last frame handed to the link. `ctx0`/`devs0` are the states before,
/// `ctx1`/`devs1` after, and `r` the verdict returned to the caller.
pub open spec fn spec_send_effect(
    ctx0: ProtocolStackContext,
    ctx1: ProtocolStackContext,
    devs0: Seq<NetDevice>,
    devs1: Seq<NetDevice>,
    protocol: TransportProtocolNumber,
    data: Seq<u8>,
    src: Ipv4Address,
    dst: Ipv4Address,
    now: u64,
    r: Result<(), NetError>,
) -> bool {
    match spec_lookup(ctx0.router.routes@, dst) {
        None => r == Err::<(), NetError>(NetError::NoRoute) && ctx1 == ctx0 && devs1 == devs0,
        Some(route) => {
            let di = route.interface.device_index;
            if di is None || di->0 >= devs0.len() {
                r == Err::<(), NetError>(NetError::DeadDevice) && ctx1 == ctx0 && devs1 == devs0
            } else if (src.0 == IPV4_ADDR_ANY && dst.0 == IPV4_ADDR_BROADCAST) || (src.0
                != IPV4_ADDR_ANY && src != route.interface.unicast) {
                r == Err::<(), NetError>(NetError::InvalidSource) && ctx1 == ctx0 && devs1 == devs0
            } else if data.len() >= devs0[di->0 as int].mtu {
                r == Err::<(), NetError>(NetError::PacketTooLong) && ctx1 == ctx0 && devs1 == devs0
            } else {
                let i = di->0 as int;
                let dev0 = devs0[i];
                let dev1 = devs1[i];
                let pkt = spec_packet_bytes(
                    ctx0.id_manager.id,
                    protocol,
                    route.interface.unicast,
                    dst,
                    data,
                );
                &&& ctx1.router == ctx0.router
                &&& ctx1.id_manager.id == (ctx0.id_manager.id + 1) % 0x10000
                &&& devs1.len() == devs0.len()
                &&& forall|j: int|
                    0 <= j < devs0.len() && j != i ==> #[trigger] devs1[j] == devs0[j]
                &&& dev1.same_identity(dev0)
                &&& dev1.flags == dev0.flags
                &&& if dev0.flags & crate::devices::NET_DEVICE_FLAG_NEED_ARP == 0 || dst
                    == route.interface.broadcast || dst.0 == IPV4_ADDR_BROADCAST {
                    &&& ctx1.arp_cache == ctx0.arp_cache
                    &&& match r {
                        Ok(()) => {
                            &&& dev0.is_up_spec()
                            &&& pkt.len() <= dev0.mtu
                            &&& crate::devices::spec_device_sent(
                                dev0,
                                dev1,
                                spec_mac_broadcast(),
                                NetProtocolType::Ipv4,
                                pkt,
                            )
                        },
                        Err(e) => dev1 == dev0 && crate::devices::spec_send_errored(
                            dev0,
                            e,
                            pkt.len() as int,
                        ),
                    }
                } else {
                    let next_hop = if route.next_hop is Some {
                        route.next_hop->0
                    } else {
                        dst
                    };
                    if dev0.ty != NetDeviceType::Ethernet {
                        &&& r == Err::<(), NetError>(NetError::UnsupportedDevice)
                        &&& ctx1.arp_cache == ctx0.arp_cache
                        &&& dev1 == dev0
                    } else {
                        match crate::protocols::arp::spec_get(
                            ctx0.arp_cache.entries@,
                            next_hop,
                            now,
                        ) {
                            Some(state) => {
                                &&& ctx1.arp_cache == ctx0.arp_cache
                                &&& match state {
                                    ArpCacheState::Resolved(mac) => match r {
                                        Ok(()) => {
                                            &&& dev0.is_up_spec()
                                            &&& pkt.len() <= dev0.mtu
                                            &&& crate::devices::spec_device_sent(
                                                dev0,
                                                dev1,
                                                mac@,
                                                NetProtocolType::Ipv4,
                                                pkt,
                                            )
                                        },
                                        Err(e) => dev1 == dev0
                                            && crate::devices::spec_send_errored(
                                            dev0,
                                            e,
                                            pkt.len() as int,
                                        ),
                                    },
                                    ArpCacheState::Incomplete => false,
                                }
                            },
                            None => {
                                &&& ctx1.arp_cache.entries@
                                    == crate::protocols::arp::spec_insert(
                                    ctx0.arp_cache.entries@,
                                    next_hop,
                                    ArpCacheState::Incomplete,
                                    now,
                                )
                                &&& match r {
                                    Ok(()) => {
                                        &&& dev0.is_up_spec()
                                        &&& 28 <= dev0.mtu
                                        &&& crate::devices::spec_device_sent(
                                            dev0,
                                            dev1,
                                            crate::devices::ethernet::spec_mac_broadcast(),
                                            NetProtocolType::Arp,
                                            crate::protocols::arp::spec_arp_message_bytes(
                                                crate::protocols::arp::ARP_OPERATION_REQUEST,
                                                dev0.hw_addr@.subrange(0, 6),
                                                route.interface.unicast,
                                                crate::devices::ethernet::spec_mac_broadcast(),
                                                next_hop,
                                            ),
                                        )
                                    },
                                    Err(e) => dev1 == dev0 && crate::devices::spec_send_errored(
                                        dev0,
                                        e,
                                        28,
                                    ),
                                }
                            },
                        }
                    }
                }
            }
        },
    }
}

/// The IPv4 egress pipeline: route, pick the interface's device, police the
/// source address and size, build the packet, resolve the link destination
/// (through ARP where the link needs it), and hand the frame to the device.
/// A packet whose next hop is still resolving is dropped and counts as sent.
pub fn send(
    context: &mut ProtocolStackContext,
    devices: &mut NetDevices,
    protocol: TransportProtocolNumber,
    data: &[u8],
    src: Ipv4Address,
    dst: Ipv4Address,
    now: u64,
) -> (r: Result<(), NetError>)
    requires
        old(context).arp_cache.wf(),
        data@.len() <= IPV4_PAYLOAD_MAX_LENGTH,
        forall|i: int| 0 <= i < old(devices)@.len() ==> (#[trigger] old(devices)@[i]).wf(),
    ensures
        final(context).arp_cache.wf(),
        final(devices)@.len() == old(devices)@.len(),
        forall|i: int| 0 <= i < final(devices)@.len() ==> (#[trigger] final(devices)@[i]).wf(),
        spec_send_effect(
            *old(context),
            *final(context),
            old(devices)@,
            final(devices)@,
            protocol,
            data@,
            src,
            dst,
            now,
            r,
        ),
{
    let route = match context.router.lookup(dst) {
        Some(route) => route,
        None => {
            return Err(NetError::NoRoute);
        },
    };
    let interface = route.interface;
    let di = match interface.device_index {
        Some(di) => di,
        None => {
            return Err(NetError::DeadDevice);
        },
    };
    if di >= devices.len() {
        return Err(NetError::DeadDevice);
    }
    if src.0 == IPV4_ADDR_ANY && dst.0 == IPV4_ADDR_BROADCAST {
        return Err(NetError::InvalidSource);
    }
    if src.0 != IPV4_ADDR_ANY && src != interface.unicast {
        return Err(NetError::InvalidSource);
    }
    if data.len() >= devices[di].mtu {
        return Err(NetError::PacketTooLong);
    }
    let id = context.id_manager.next();
    let mut packet = create_ip_header(id, protocol, interface.unicast, dst, data);
    packet.extend_from_slice(data);
    proof {
        assert(packet@ =~= spec_packet_bytes(id, protocol, interface.unicast, dst, data@));
    }
    let need_arp = devices[di].flags & NET_DEVICE_FLAG_NEED_ARP != 0;
    let dst_hw_address: MacAddress;
    if !need_arp || dst == interface.broadcast || dst.0 == IPV4_ADDR_BROADCAST {
        dst_hw_address = MacAddress::broadcast();
    } else {
        let next_hop = match route.next_hop {
            Some(next_hop) => next_hop,
            None => dst,
        };
        let device = &mut devices[di];
        match crate::protocols::arp::resolve_arp(
            device,
            &interface,
            &mut context.arp_cache,
            next_hop,
            now,
        ) {
            Ok(state) => {
                match state {
                    ArpCacheState::Resolved(mac) => {
                        dst_hw_address = mac;
                    },
                    ArpCacheState::Incomplete => {
                        // No resolution yet: drop the packet silently; the
                        // caller retries on its next send.
                        return Ok(());
                    },
                }
            },
            Err(e) => {
                return Err(e);
            },
        }
    }
    let device = &mut devices[di];
    device.send(packet.as_slice(), NetProtocolType::Ipv4, dst_hw_address)
}

/// Everything the IPv4 ingress path does with one capture, from parsing and
/// validation through the interface filter to the transport hand-off.
/// `ctx0`/`pcbs0`/`devs0` are the states before, `ctx1`/`pcbs1`/`devs1`
/// after, and `r` the verdict returned to the caller.
#[verifier::opaque]
pub open spec fn spec_ipv4_recv_effect(
    ctx0: ProtocolStackContext,
    ctx1: ProtocolStackContext,
    pcbs0: Seq<Option<crate::transport::udp::UdpPcb>>,
    pcbs1: Seq<Option<crate::transport::udp::UdpPcb>>,
    devs0: Seq<NetDevice>,
    devs1: Seq<NetDevice>,
    interface: Ipv4Interface,
    data: Seq<u8>,
    now: u64,
    r: Result<(), NetError>,
) -> bool {
    let unchanged = ctx1 == ctx0 && devs1 == devs0 && pcbs1 == pcbs0;
    if data.len() < 20 {
        r == Err::<(), NetError>(NetError::FrameTooShort) && unchanged
    } else if !TransportProtocolNumber::spec_known(data[9]) {
        r == Err::<(), NetError>(NetError::UnknownProtocol) && unchanged
    } else {
        let header = Ipv4Header::spec_parse(data);
        if header.spec_validate() is Err {
            r == header.spec_validate() && unchanged
        } else if header.total_length > data.len() || header.total_length
            < header.spec_header_length() {
            r == Err::<(), NetError>(NetError::TruncatedPacket) && unchanged
        } else if header.dst != interface.unicast && header.dst != interface.broadcast
            && header.dst.0 != IPV4_ADDR_BROADCAST {
            r == Ok::<(), NetError>(()) && unchanged
        } else {
            let payload = data.subrange(
                header.spec_header_length() as int,
                header.total_length as int,
            );
            match header.protocol {
                TransportProtocolNumber::Icmp => pcbs1 == pcbs0
                    && crate::transport::icmp::spec_icmp_recv_effect(
                    ctx0,
                    ctx1,
                    devs0,
                    devs1,
                    payload,
                    header.src,
                    header.dst,
                    now,
                    r,
                ),
                TransportProtocolNumber::Udp => ctx1 == ctx0 && devs1 == devs0
                    && crate::transport::udp::spec_udp_recv_effect(
                    pcbs0,
                    pcbs1,
                    payload,
                    header.src,
                    header.dst,
                    r,
                ),
            }
        }
    }
}

/// The IPv4 ingress pipeline: parse and validate the header, reject
/// truncated captures, accept the packet only when it is addressed to the
/// receiving interface (unicast, directed broadcast, or limited broadcast),
/// and demultiplex the payload to the transport protocol. A packet for
/// someone else is discarded silently, without touching any transport
/// state.
pub fn recv(
    context: &mut ProtocolStackContext,
    pcbs: &mut crate::transport::ContextBlocks,
    devices: &mut NetDevices,
    interface: Ipv4Interface,
    data: &[u8],
    now: u64,
) -> (r: Result<(), NetError>)
    requires
        old(context).arp_cache.wf(),
        forall|i: int| 0 <= i < old(devices)@.len() ==> (#[trigger] old(devices)@[i]).wf(),
    ensures
        final(context).arp_cache.wf(),
        final(context).router == old(context).router,
        final(devices)@.len() == old(devices)@.len(),
        forall|i: int| 0 <= i < final(devices)@.len() ==> (#[trigger] final(devices)@[i]).wf(),
        final(pcbs).udp_pcb.pcbs@.len() == old(pcbs).udp_pcb.pcbs@.len(),
        spec_ipv4_recv_effect(
            *old(context),
            *final(context),
            old(pcbs).udp_pcb.pcbs@,
            final(pcbs).udp_pcb.pcbs@,
            old(devices)@,
            final(devices)@,
            interface,
            data@,
            now,
            r,
        ),
{
    proof {
        reveal(spec_ipv4_recv_effect);
    }
    let header = match Ipv4Header::from_bytes(data) {
        Ok(header) => header,
        Err(e) => {
            return Err(e);
        },
    };
    match header.validate() {
        Ok(()) => {},
        Err(e) => {
            return Err(e);
        },
    }
    let header_len = header.header_length() as usize;
    let total_len = header.total_length as usize;
    if total_len > data.len() || total_len < header_len {
        return Err(NetError::TruncatedPacket);
    }
    if header.dst != interface.unicast && header.dst != interface.broadcast && header.dst.0
        != IPV4_ADDR_BROADCAST {
        // Not for this interface: discard silently.
        return Ok(());
    }
    let payload_slice = &data[header_len..total_len];
    let mut payload: Vec<u8> = Vec::new();
    payload.extend_from_slice(payload_slice);
    proof {
        assert(payload@ =~= data@.subrange(
            header.spec_header_length() as int,
            header.total_length as int,
        ));
    }
    match header.protocol {
        TransportProtocolNumber::Icmp => crate::transport::icmp::recv(
            context,
            devices,
            payload.as_slice(),
            header.src,
            header.dst,
            now,
        ),
        TransportProtocolNumber::Udp => crate::transport::udp::recv(
            pcbs,
            payload.as_slice(),
            header.src,
            header.dst,
        ),
    }
}

/// Monotonic 16-bit packet-identification counter with modular wrap.
#[derive(Clone, Copy, Debug, PartialEq, Eq, Structural)]
pub struct Ipv4IdGenerator {
    pub id: u16,
}

impl Ipv4IdGenerator {
    pub fn new() -> (r: Ipv4IdGenerator)
        ensures
            r.id == 0,
    {
        Ipv4IdGenerator { id: 0 }
    }

    /// Hand out the current value and advance by one, wrapping at 2^16.
    pub fn next(&mut self) -> (r: u16)
        ensures
            r == old(self).id,
            final(self).id == (old(self).id + 1) % 0x10000,
    {
        let id = self.id;
        self.id = self.id.wrapping_add(1);
        id
    }
}

} // verus!
