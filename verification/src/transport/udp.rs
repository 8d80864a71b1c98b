//! UDP: the header codec, the pseudo-header checksum, and the fixed-size
//! bind table of protocol control blocks with their receive queues.

use vstd::prelude::*;
use std::collections::VecDeque;
use crate::errors::NetError;
use crate::protocols::ipv4::{
    spec_send_effect, Ipv4Address, IPV4_ADDR_ANY, IPV4_PAYLOAD_MAX_LENGTH,
};
use crate::transport::{Endpoint, TransportProtocolNumber};
use crate::utils::{
    calculate_checksum, checksum_spec, fold_carries, spec_be16, spec_hi16, spec_lo16, words_sum,
};
use vstd::arithmetic::div_mod::{lemma_add_mod_noop, lemma_mod_multiples_vanish, lemma_sub_mod_noop};

verus! {

broadcast use vstd::std_specs::vecdeque::group_vec_dequeue_axioms;

/// Number of bind slots in the table.
pub const UDP_PCB_LENGTH: usize = 16;

pub const UDP_HEADER_SIZE: usize = 8;

/// The 12-byte IPv4 pseudo-header mixed into the UDP checksum.
#[derive(Clone, Copy, Debug)]
pub struct PseudoHeader {
    pub src: Ipv4Address,
    pub dst: Ipv4Address,
    pub zero: u8,
    pub protocol: TransportProtocolNumber,
    pub length: u16,
}

impl PseudoHeader {
    pub open spec fn spec_to_bytes(self) -> Seq<u8> {
        self.src.spec_to_bytes() + self.dst.spec_to_bytes() + seq![
            self.zero,
            self.protocol.spec_u8(),
            spec_hi16(self.length),
            spec_lo16(self.length),
        ]
    }

    pub fn to_bytes(&self) -> (r: Vec<u8>)
        ensures
            r@ == self.spec_to_bytes(),
            r@.len() == 12,
    {
        let mut bytes = self.src.to_bytes();
        let mut dst = self.dst.to_bytes();
        bytes.append(&mut dst);
        bytes.push(self.zero);
        bytes.push(self.protocol.to_u8());
        bytes.push((self.length / 0x100) as u8);
        bytes.push((self.length % 0x100) as u8);
        proof {
            assert(bytes@ =~= self.spec_to_bytes());
        }
        bytes
    }
}

/// The 8-byte UDP header. `length` covers header and payload.
#[derive(Clone, Copy, Debug, PartialEq, Eq, Structural)]
pub struct UdpHeader {
    pub src_port: u16,
    pub dst_port: u16,
    pub length: u16,
    pub checksum: u16,
}

impl UdpHeader {
    pub open spec fn spec_to_bytes(self) -> Seq<u8> {
        seq![
            spec_hi16(self.src_port),
            spec_lo16(self.src_port),
            spec_hi16(self.dst_port),
            spec_lo16(self.dst_port),
            spec_hi16(self.length),
            spec_lo16(self.length),
            spec_hi16(self.checksum),
            spec_lo16(self.checksum),
        ]
    }

    pub fn to_bytes(&self) -> (r: Vec<u8>)
        ensures
            r@ == self.spec_to_bytes(),
            r@.len() == 8,
    {
        let mut bytes: Vec<u8> = Vec::new();
        bytes.push((self.src_port / 0x100) as u8);
        bytes.push((self.src_port % 0x100) as u8);
        bytes.push((self.dst_port / 0x100) as u8);
        bytes.push((self.dst_port % 0x100) as u8);
        bytes.push((self.length / 0x100) as u8);
        bytes.push((self.length % 0x100) as u8);
        bytes.push((self.checksum / 0x100) as u8);
        bytes.push((self.checksum % 0x100) as u8);
        proof {
            assert(bytes@ =~= self.spec_to_bytes());
        }
        bytes
    }

    /// The header read back from the first 8 bytes; meaningful when the
    /// buffer holds at least 8.
    pub open spec fn spec_parse(data: Seq<u8>) -> UdpHeader {
        UdpHeader {
            src_port: spec_be16(data[0], data[1]),
            dst_port: spec_be16(data[2], data[3]),
            length: spec_be16(data[4], data[5]),
            checksum: spec_be16(data[6], data[7]),
        }
    }

    pub fn from_bytes(data: &[u8]) -> (r: UdpHeader)
        requires
            data@.len() >= 8,
        ensures
            r == Self::spec_parse(data@),
    {
        UdpHeader {
            src_port: data[0] as u16 * 0x100 + data[1] as u16,
            dst_port: data[2] as u16 * 0x100 + data[3] as u16,
            length: data[4] as u16 * 0x100 + data[5] as u16,
            checksum: data[6] as u16 * 0x100 + data[7] as u16,
        }
    }
}

#[derive(Clone, Copy, Debug, PartialEq, Eq, Structural)]
pub enum PcbState {
    Open,
    Closing,
}

/// One received datagram waiting in a socket's queue.
pub struct UdpPcbQueueEntry {
    pub foreign: Endpoint,
    pub data: Vec<u8>,
}

/// A bind slot: its state, the local endpoint, and the receive queue.
pub struct UdpPcb {
    pub state: PcbState,
    pub local: Endpoint,
    pub queue: VecDeque<UdpPcbQueueEntry>,
}

impl UdpPcb {
    /// The binding rule: an open slot bound to `(A, P)` matches `(A', P')`
    /// iff the ports agree and either address is the wildcard or they agree.
    pub open spec fn spec_can_be_bound(self, address: Ipv4Address, port: u16) -> bool {
        &&& self.state == PcbState::Open
        &&& (self.local.address.0 == IPV4_ADDR_ANY || address.0 == IPV4_ADDR_ANY
            || self.local.address == address)
        &&& self.local.port == port
    }

    pub fn can_be_bound(&self, address: Ipv4Address, port: u16) -> (r: bool)
        ensures
            r == self.spec_can_be_bound(address, port),
    {
        self.state == PcbState::Open && (self.local.address.0 == IPV4_ADDR_ANY || address.0
            == IPV4_ADDR_ANY || self.local.address == address) && self.local.port == port
    }

    /// The received datagrams, oldest first.
    pub open spec fn queue_contents(self) -> Seq<(Endpoint, Seq<u8>)> {
        self.queue@.map_values(|e: UdpPcbQueueEntry| (e.foreign, e.data@))
    }
}

/// Whether a slot holds a PCB that matches `(address, port)`.
pub open spec fn spec_pcb_matches(slot: &Option<UdpPcb>, address: Ipv4Address, port: u16) -> bool {
    match slot {
        Some(p) => p.spec_can_be_bound(address, port),
        None => false,
    }
}

/// The bind table.
pub struct UdpContext {
    pub pcbs: Vec<Option<UdpPcb>>,
}

impl UdpContext {
    /// The table always holds exactly `UDP_PCB_LENGTH` slots.
    pub open spec fn wf(self) -> bool {
        self.pcbs@.len() == UDP_PCB_LENGTH
    }

    pub open spec fn spec_all_free(self) -> bool {
        forall|i: int| 0 <= i < self.pcbs@.len() ==> (#[trigger] self.pcbs@[i]) is None
    }

    pub fn new() -> (r: UdpContext)
        ensures
            r.wf(),
            r.spec_all_free(),
    {
        let mut pcbs: Vec<Option<UdpPcb>> = Vec::new();
        let mut i: usize = 0;
        while i < UDP_PCB_LENGTH
            invariant
                i == pcbs@.len(),
                i <= UDP_PCB_LENGTH,
                forall|j: int| 0 <= j < i ==> (#[trigger] pcbs@[j]) is None,
            decreases UDP_PCB_LENGTH - i,
        {
            pcbs.push(None);
            i = i + 1;
        }
        UdpContext { pcbs }
    }

    /// The first slot matching `(address, port)` under the binding rule.
    pub fn select_pcb(&self, address: Ipv4Address, port: u16) -> (r: Option<&UdpPcb>)
        ensures
            match r {
                Some(p) => exists|i: int|
                    {
                        &&& 0 <= i < self.pcbs@.len()
                        &&& #[trigger] spec_pcb_matches(&self.pcbs@[i], address, port)
                        &&& self.pcbs@[i] matches Some(q) && q == *p
                        &&& forall|j: int|
                            0 <= j < i ==> !(#[trigger] spec_pcb_matches(
                                &self.pcbs@[j],
                                address,
                                port,
                            ))
                    },
                None => forall|i: int|
                    0 <= i < self.pcbs@.len() ==> !(#[trigger] spec_pcb_matches(
                        &self.pcbs@[i],
                        address,
                        port,
                    )),
            },
    {
        let mut i: usize = 0;
        while i < self.pcbs.len()
            invariant
                i <= self.pcbs@.len(),
                forall|j: int|
                    0 <= j < i ==> !(#[trigger] spec_pcb_matches(&self.pcbs@[j], address, port)),
            decreases self.pcbs@.len() - i,
        {
            match &self.pcbs[i] {
                Some(pcb) => {
                    if pcb.can_be_bound(address, port) {
                        proof {
                            assert(spec_pcb_matches(&self.pcbs@[i as int], address, port));
                        }
                        return Some(pcb);
                    }
                },
                None => {},
            }
            i = i + 1;
        }
        None
    }

    /// The index of the first slot matching `(address, port)`, for callers
    /// that need to mutate the slot they select.
    pub fn select_pcb_index(&self, address: Ipv4Address, port: u16) -> (r: Option<usize>)
        ensures
            match r {
                Some(i) => {
                    &&& 0 <= i < self.pcbs@.len()
                    &&& spec_pcb_matches(&self.pcbs@[i as int], address, port)
                    &&& forall|j: int|
                        0 <= j < i ==> !(#[trigger] spec_pcb_matches(
                            &self.pcbs@[j],
                            address,
                            port,
                        ))
                },
                None => forall|i: int|
                    0 <= i < self.pcbs@.len() ==> !(#[trigger] spec_pcb_matches(
                        &self.pcbs@[i],
                        address,
                        port,
                    )),
            },
    {
        let mut i: usize = 0;
        while i < self.pcbs.len()
            invariant
                i <= self.pcbs@.len(),
                forall|j: int|
                    0 <= j < i ==> !(#[trigger] spec_pcb_matches(&self.pcbs@[j], address, port)),
            decreases self.pcbs@.len() - i,
        {
            match &self.pcbs[i] {
                Some(pcb) => {
                    if pcb.can_be_bound(address, port) {
                        return Some(i);
                    }
                },
                None => {},
            }
            i = i + 1;
        }
        None
    }
}

/// Occupy the first free slot for `endpoint`, unless an existing binding
/// already covers it under the binding rule. Returns the slot index.
pub fn bind(pcbs: &mut crate::transport::ContextBlocks, endpoint: &Endpoint) -> (r: Option<usize>)
    ensures
        final(pcbs).udp_pcb.pcbs@.len() == old(pcbs).udp_pcb.pcbs@.len(),
        match r {
            Some(i) => {
                &&& forall|j: int|
                    0 <= j < old(pcbs).udp_pcb.pcbs@.len() ==> !(#[trigger] spec_pcb_matches(
                        &old(pcbs).udp_pcb.pcbs@[j],
                        endpoint.address,
                        endpoint.port,
                    ))
                &&& 0 <= i < old(pcbs).udp_pcb.pcbs@.len()
                &&& old(pcbs).udp_pcb.pcbs@[i as int] is None
                &&& forall|j: int| 0 <= j < i ==> (#[trigger] old(pcbs).udp_pcb.pcbs@[j]) is Some
                &&& final(pcbs).udp_pcb.pcbs@[i as int] matches Some(p) && p.state
                    == PcbState::Open && p.local == *endpoint && p.queue_contents() == Seq::<
                    (Endpoint, Seq<u8>),
                >::empty()
                &&& forall|j: int|
                    0 <= j < final(pcbs).udp_pcb.pcbs@.len() && j != i
                        ==> #[trigger] final(pcbs).udp_pcb.pcbs@[j] == old(pcbs).udp_pcb.pcbs@[j]
            },
            None => {
                &&& *final(pcbs) == *old(pcbs)
                &&& ((exists|j: int|
                    0 <= j < old(pcbs).udp_pcb.pcbs@.len() && #[trigger] spec_pcb_matches(
                        &old(pcbs).udp_pcb.pcbs@[j],
                        endpoint.address,
                        endpoint.port,
                    )) || (forall|j: int|
                    0 <= j < old(pcbs).udp_pcb.pcbs@.len() ==> (#[trigger] old(
                        pcbs,
                    ).udp_pcb.pcbs@[j]) is Some))
            },
        },
{
    if pcbs.udp_pcb.select_pcb(endpoint.address, endpoint.port).is_some() {
        return None;
    }
    let mut i: usize = 0;
    while i < pcbs.udp_pcb.pcbs.len()
        invariant
            i <= pcbs.udp_pcb.pcbs@.len(),
            *pcbs == *old(pcbs),
            forall|j: int|
                0 <= j < pcbs.udp_pcb.pcbs@.len() ==> !(#[trigger] spec_pcb_matches(
                    &pcbs.udp_pcb.pcbs@[j],
                    endpoint.address,
                    endpoint.port,
                )),
            forall|j: int| 0 <= j < i ==> (#[trigger] pcbs.udp_pcb.pcbs@[j]) is Some,
        decreases pcbs.udp_pcb.pcbs@.len() - i,
    {
        let free = pcbs.udp_pcb.pcbs[i].is_none();
        if free {
            let pcb = UdpPcb { state: PcbState::Open, local: *endpoint, queue: VecDeque::new() };
            proof {
                assert(pcb.queue_contents() =~= Seq::<(Endpoint, Seq<u8>)>::empty());
            }
            pcbs.udp_pcb.pcbs[i] = Some(pcb);
            return Some(i);
        }
        i = i + 1;
    }
    None
}

/// The bytes of a UDP datagram: ports, length over header and payload, and
/// the checksum seeded with the one's complement of the pseudo-header sum.
pub open spec fn spec_udp_datagram_bytes(src: Endpoint, dst: Endpoint, payload: Seq<u8>) -> Seq<
    u8,
> {
    let length = (8 + payload.len()) as u16;
    let pseudo = PseudoHeader {
        src: src.address,
        dst: dst.address,
        zero: 0,
        protocol: TransportProtocolNumber::Udp,
        length,
    };
    let h0 = UdpHeader { src_port: src.port, dst_port: dst.port, length, checksum: 0 };
    let seed = checksum_spec(pseudo.spec_to_bytes(), 0);
    let c = checksum_spec(h0.spec_to_bytes() + payload, !seed);
    (UdpHeader { checksum: c, ..h0 }).spec_to_bytes() + payload
}

/// Compose a UDP datagram, checksummed over the IPv4 pseudo-header, and
/// hand it to the IPv4 send path.
pub fn send(
    context: &mut crate::protocols::ProtocolStackContext,
    devices: &mut crate::devices::NetDevices,
    data: &[u8],
    src: Endpoint,
    dst: Endpoint,
    now: u64,
) -> (r: Result<(), NetError>)
    requires
        old(context).arp_cache.wf(),
        forall|i: int| 0 <= i < old(devices)@.len() ==> (#[trigger] old(devices)@[i]).wf(),
    ensures
        final(context).arp_cache.wf(),
        final(devices)@.len() == old(devices)@.len(),
        forall|i: int| 0 <= i < final(devices)@.len() ==> (#[trigger] final(devices)@[i]).wf(),
        data@.len() > IPV4_PAYLOAD_MAX_LENGTH - UDP_HEADER_SIZE ==> (r == Err::<(), NetError>(
            NetError::PacketTooLong,
        ) && *final(context) == *old(context) && final(devices)@ == old(devices)@),
        data@.len() <= IPV4_PAYLOAD_MAX_LENGTH - UDP_HEADER_SIZE ==> spec_send_effect(
            *old(context),
            *final(context),
            old(devices)@,
            final(devices)@,
            TransportProtocolNumber::Udp,
            spec_udp_datagram_bytes(src, dst, data@),
            src.address,
            dst.address,
            now,
            r,
        ),
{
    if data.len() > IPV4_PAYLOAD_MAX_LENGTH - UDP_HEADER_SIZE {
        return Err(NetError::PacketTooLong);
    }
    let length: u16 = (UDP_HEADER_SIZE + data.len()) as u16;
    let pseudo_header = PseudoHeader {
        src: src.address,
        dst: dst.address,
        zero: 0,
        protocol: TransportProtocolNumber::Udp,
        length,
    };
    let header0 = UdpHeader { src_port: src.port, dst_port: dst.port, length, checksum: 0 };
    let pseudo_bytes = pseudo_header.to_bytes();
    let seed = calculate_checksum(pseudo_bytes.as_slice(), 0);
    let mut datagram0 = header0.to_bytes();
    datagram0.extend_from_slice(data);
    let checksum = calculate_checksum(datagram0.as_slice(), !seed);
    let header = UdpHeader { checksum, ..header0 };
    let mut datagram = header.to_bytes();
    datagram.extend_from_slice(data);
    proof {
        assert(datagram0@ == header0.spec_to_bytes() + data@);
        assert(checksum == checksum_spec(header0.spec_to_bytes() + data@, !seed));
        assert(datagram@ == header.spec_to_bytes() + data@);
        assert(datagram@ =~= spec_udp_datagram_bytes(src, dst, data@));
    }
    crate::protocols::ipv4::send(
        context,
        devices,
        TransportProtocolNumber::Udp,
        datagram.as_slice(),
        src.address,
        dst.address,
        now,
    )
}

/// A received datagram passes when its length field covers the bytes
/// exactly and the checksum, folded together with the pseudo-header,
/// verifies to zero.
pub open spec fn spec_udp_checksum_ok(data: Seq<u8>, src: Ipv4Address, dst: Ipv4Address) -> bool {
    let pseudo = PseudoHeader {
        src,
        dst,
        zero: 0,
        protocol: TransportProtocolNumber::Udp,
        length: UdpHeader::spec_parse(data).length,
    };
    checksum_spec(pseudo.spec_to_bytes(), !checksum_spec(data, 0)) == 0
}

/// What the UDP ingress path does with one datagram: verify length and
/// checksum, pick the first bind slot matching the destination endpoint,
/// and append the payload with the sender's endpoint to its receive queue.
pub open spec fn spec_udp_recv_effect(
    pcbs0: Seq<Option<UdpPcb>>,
    pcbs1: Seq<Option<UdpPcb>>,
    data: Seq<u8>,
    src: Ipv4Address,
    dst: Ipv4Address,
    r: Result<(), NetError>,
) -> bool {
    if data.len() < 8 {
        r == Err::<(), NetError>(NetError::FrameTooShort) && pcbs1 == pcbs0
    } else if data.len() != UdpHeader::spec_parse(data).length {
        r == Err::<(), NetError>(NetError::InvalidLength) && pcbs1 == pcbs0
    } else if !spec_udp_checksum_ok(data, src, dst) {
        r == Err::<(), NetError>(NetError::InvalidChecksum) && pcbs1 == pcbs0
    } else {
        let port = UdpHeader::spec_parse(data).dst_port;
        if forall|i: int| 0 <= i < pcbs0.len() ==> !(#[trigger] spec_pcb_matches(&pcbs0[i], dst, port)) {
            r == Err::<(), NetError>(NetError::NoPcb) && pcbs1 == pcbs0
        } else {
            exists|i: int|
                {
                    &&& 0 <= i < pcbs0.len()
                    &&& #[trigger] spec_pcb_matches(&pcbs0[i], dst, port)
                    &&& (forall|j: int|
                        0 <= j < i ==> !(#[trigger] spec_pcb_matches(&pcbs0[j], dst, port)))
                    &&& pcbs1.len() == pcbs0.len()
                    &&& (forall|j: int| 0 <= j < pcbs0.len() && j != i ==> pcbs1[j] == pcbs0[j])
                    &&& pcbs1[i] matches Some(p1) && pcbs0[i] matches Some(p0) && p1.state
                        == p0.state && p1.local == p0.local && p1.queue_contents()
                        == p0.queue_contents().push(
                        (
                            Endpoint {
                                address: src,
                                port: UdpHeader::spec_parse(data).src_port,
                            },
                            data.skip(8),
                        ),
                    )
                    &&& r == Ok::<(), NetError>(())
                }
        }
    }
}

/// The UDP ingress path: validate the datagram against the pseudo-header
/// and queue its payload on the matching socket.
pub fn recv(
    pcbs: &mut crate::transport::ContextBlocks,
    data: &[u8],
    src: Ipv4Address,
    dst: Ipv4Address,
) -> (r: Result<(), NetError>)
    ensures
        final(pcbs).udp_pcb.pcbs@.len() == old(pcbs).udp_pcb.pcbs@.len(),
        spec_udp_recv_effect(
            old(pcbs).udp_pcb.pcbs@,
            final(pcbs).udp_pcb.pcbs@,
            data@,
            src,
            dst,
            r,
        ),
{
    if data.len() < UDP_HEADER_SIZE {
        return Err(NetError::FrameTooShort);
    }
    let header = UdpHeader::from_bytes(data);
    if data.len() != header.length as usize {
        return Err(NetError::InvalidLength);
    }
    let sum = calculate_checksum(data, 0);
    let pseudo_header = PseudoHeader {
        src,
        dst,
        zero: 0,
        protocol: TransportProtocolNumber::Udp,
        length: header.length,
    };
    let pseudo_bytes = pseudo_header.to_bytes();
    let sum = calculate_checksum(pseudo_bytes.as_slice(), !sum);
    if sum != 0 {
        return Err(NetError::InvalidChecksum);
    }
    let i = match pcbs.udp_pcb.select_pcb_index(dst, header.dst_port) {
        Some(i) => i,
        None => {
            return Err(NetError::NoPcb);
        },
    };
    let payload = &data[UDP_HEADER_SIZE..data.len()];
    let mut payload_copy: Vec<u8> = Vec::new();
    payload_copy.extend_from_slice(payload);
    proof {
        assert(payload_copy@ =~= data@.skip(8));
    }
    let entry = UdpPcbQueueEntry {
        foreign: Endpoint { address: src, port: header.src_port },
        data: payload_copy,
    };
    match &mut pcbs.udp_pcb.pcbs[i] {
        Some(pcb) => {
            pcb.queue.push_back(entry);
        },
        None => {},
    }
    proof {
        let pcbs0 = old(pcbs).udp_pcb.pcbs@;
        let pcbs1 = pcbs.udp_pcb.pcbs@;
        let port = UdpHeader::spec_parse(data@).dst_port;
        assert(pcbs1[i as int] matches Some(p1) && pcbs0[i as int] matches Some(p0)
            && p1.queue_contents() =~= p0.queue_contents().push(
            (
                Endpoint { address: src, port: UdpHeader::spec_parse(data@).src_port },
                data@.skip(8),
            ),
        ));
    }
    Ok(())
}

/// Every datagram the send path composes verifies on receive: its length
/// field covers the bytes exactly, and folding the pseudo-header into the
/// datagram's checksum yields zero. This is the seed composition the
/// checksum utility promises, applied to UDP.
pub proof fn lemma_udp_datagram_verifies(src: Endpoint, dst: Endpoint, payload: Seq<u8>)
    requires
        payload.len() + 8 <= 0xffff,
    ensures
        spec_udp_datagram_bytes(src, dst, payload).len() == 8 + payload.len(),
        UdpHeader::spec_parse(spec_udp_datagram_bytes(src, dst, payload)).length == 8
            + payload.len(),
        spec_udp_checksum_ok(
            spec_udp_datagram_bytes(src, dst, payload),
            src.address,
            dst.address,
        ),
{
    let m = 0xffffint;
    let length = (8 + payload.len()) as u16;
    let pseudo = PseudoHeader {
        src: src.address,
        dst: dst.address,
        zero: 0,
        protocol: TransportProtocolNumber::Udp,
        length,
    };
    let p = pseudo.spec_to_bytes();
    let h0 = UdpHeader { src_port: src.port, dst_port: dst.port, length, checksum: 0 };
    let sp = words_sum(p);
    let sd0 = words_sum(h0.spec_to_bytes() + payload);
    crate::utils::lemma_words_sum_bounds(p);
    crate::utils::lemma_words_sum_bounds(h0.spec_to_bytes() + payload);
    crate::utils::lemma_words_sum_bounds(payload);

    // The pseudo-header sum is positive: its protocol word alone is 17.
    let ab = src.address.spec_to_bytes() + dst.address.spec_to_bytes();
    let tail4 = seq![
        0u8,
        TransportProtocolNumber::Udp.spec_u8(),
        spec_hi16(length),
        spec_lo16(length),
    ];
    assert(p =~= ab + tail4);
    crate::utils::lemma_words_sum_append_even(ab, tail4);
    crate::utils::lemma_words_sum_bounds(ab);
    assert(tail4.skip(2) =~= seq![spec_hi16(length), spec_lo16(length)]);
    assert(tail4.skip(2).skip(2) =~= Seq::<u8>::empty());
    assert(words_sum(Seq::<u8>::empty()) == 0);
    assert(words_sum(tail4.skip(2)) == spec_hi16(length) * 0x100 + spec_lo16(length));
    assert(words_sum(tail4) == 17 + spec_hi16(length) * 0x100 + spec_lo16(length));
    assert(words_sum(tail4) >= 17);
    assert(sp >= 17);

    // The seed fed into the datagram checksum is the folded pseudo sum.
    let seed = checksum_spec(p, 0);
    crate::utils::lemma_fold_carries_props(sp);
    crate::utils::lemma_not_u16(seed);
    assert(!seed == fold_carries(sp));

    let c = checksum_spec(h0.spec_to_bytes() + payload, !seed);
    let f1 = fold_carries(fold_carries(sp) + sd0);
    crate::utils::lemma_fold_carries_props(fold_carries(sp) + sd0);
    assert(c == 0xffff - f1);

    // The datagram differs from the zero-checksum layout by c in one word.
    let hc = UdpHeader { checksum: c as u16, ..h0 };
    let d = spec_udp_datagram_bytes(src, dst, payload);
    assert(d == hc.spec_to_bytes() + payload);
    let front6 = seq![
        spec_hi16(src.port),
        spec_lo16(src.port),
        spec_hi16(dst.port),
        spec_lo16(dst.port),
        spec_hi16(length),
        spec_lo16(length),
    ];
    let zero2 = seq![spec_hi16(0u16), spec_lo16(0u16)];
    let c2 = seq![spec_hi16(c as u16), spec_lo16(c as u16)];
    assert(h0.spec_to_bytes() =~= front6 + zero2);
    assert(hc.spec_to_bytes() =~= front6 + c2);
    assert(zero2.skip(2) =~= Seq::<u8>::empty());
    assert(c2.skip(2) =~= Seq::<u8>::empty());
    assert(words_sum(Seq::<u8>::empty()) == 0);
    assert(words_sum(c2) == spec_hi16(c as u16) * 0x100 + spec_lo16(c as u16));
    crate::utils::lemma_be16_roundtrip(c as u16);
    assert(spec_be16(spec_hi16(c as u16), spec_lo16(c as u16)) == c as u16);
    assert(spec_hi16(c as u16) * 0x100 + spec_lo16(c as u16) <= 0xffff);
    assert(words_sum(c2) == c);
    assert(words_sum(zero2) == 0);
    crate::utils::lemma_words_sum_append_even(front6, zero2);
    crate::utils::lemma_words_sum_append_even(front6, c2);
    crate::utils::lemma_words_sum_append_even(h0.spec_to_bytes(), payload);
    crate::utils::lemma_words_sum_append_even(hc.spec_to_bytes(), payload);
    let sd = words_sum(d);
    assert(sd == sd0 + c);

    // The parsed length field covers the whole datagram.
    crate::utils::lemma_be16_roundtrip(length);
    assert(d[4] == spec_hi16(length));
    assert(d[5] == spec_lo16(length));
    assert(UdpHeader::spec_parse(d).length == length);

    // Residues modulo 0xffff: f1 carries sp + sd0, so sd + sp vanishes.
    crate::utils::lemma_fold_carries_props(sd);
    lemma_add_mod_noop(fold_carries(sp), sd0, m);
    lemma_add_mod_noop(sp, sd0, m);
    assert(f1 % m == (sp + sd0) % m);
    let x = fold_carries(sd) + sp;
    lemma_add_mod_noop(fold_carries(sd), sp, m);
    lemma_add_mod_noop(sd, sp, m);
    assert(x % m == (sd + sp) % m);
    lemma_sub_mod_noop(sd0 + sp, f1, m);
    assert((sd0 + sp - f1) % m == 0) by {
        assert(((sd0 + sp) % m - f1 % m) % m == (sd0 + sp - f1) % m);
        assert((sd0 + sp) % m - f1 % m == 0);
        assert(0int % m == 0);
    }
    assert(sd + sp == m * 1 + (sd0 + sp - f1));
    lemma_mod_multiples_vanish(1, sd0 + sp - f1, m);
    assert((sd + sp) % m == 0);
    assert(x % m == 0);
    assert(x >= 17);
    assert(fold_carries(x) == 0xffff);

    // The receiver's computation is exactly a fold of x.
    let sum1 = checksum_spec(d, 0);
    crate::utils::lemma_not_u16(sum1);
    assert(!sum1 == fold_carries(sd));
    assert(checksum_spec(p, !sum1) == 0);
}

/// A slot bound to the wildcard address at a port blocks every later bind
/// at that port, whatever its address.
pub proof fn lemma_bind_wildcard_collides(
    pcbs: Seq<Option<UdpPcb>>,
    i: int,
    address: Ipv4Address,
    port: u16,
)
    requires
        0 <= i < pcbs.len(),
        pcbs[i] matches Some(p) && p.state == PcbState::Open && p.local.port == port && (
        p.local.address.0 == IPV4_ADDR_ANY || address.0 == IPV4_ADDR_ANY || p.local.address
            == address),
    ensures
        exists|j: int| 0 <= j < pcbs.len() && #[trigger] spec_pcb_matches(&pcbs[j], address, port),
{
    assert(spec_pcb_matches(&pcbs[i], address, port));
}

/// Two different non-wildcard addresses never collide: a table whose open
/// slots at `port` all hold other, non-wildcard addresses matches nothing
/// for `(address, port)`.
pub proof fn lemma_bind_distinct_addresses_free(
    pcbs: Seq<Option<UdpPcb>>,
    address: Ipv4Address,
    port: u16,
)
    requires
        address.0 != IPV4_ADDR_ANY,
        forall|j: int|
            0 <= j < pcbs.len() ==> ((#[trigger] pcbs[j]) matches Some(p) ==> (p.local.port != port
                || (p.local.address.0 != IPV4_ADDR_ANY && p.local.address != address))),
    ensures
        forall|j: int| 0 <= j < pcbs.len() ==> !(#[trigger] spec_pcb_matches(&pcbs[j], address, port)),
{
}

} // verus!
