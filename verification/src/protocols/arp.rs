//! ARP for Ethernet/IPv4: the wire codec, the tri-state cache (absent,
//! in-flight, resolved), the request/reply protocol, and the resolve-or-fail
//! API the IPv4 send path uses.

use vstd::prelude::*;
use crate::devices::ethernet::{spec_mac_broadcast, MacAddress};
use crate::devices::{NetDevice, NetDeviceType, NetDevices};
use crate::errors::NetError;
use crate::protocols::ipv4::{Ipv4Address, Ipv4Interface};
use crate::protocols::{NetProtocolType, ProtocolStackContext};
use crate::utils::{spec_be16, spec_hi16, spec_lo16};

verus! {

broadcast use vstd::array::group_array_axioms;

pub const ARP_HARDWARE_TYPE_ETHERNET: u16 = 1;

pub const ARP_OPERATION_REQUEST: u16 = 1;

pub const ARP_OPERATION_REPLY: u16 = 2;

/// Seconds a resolved cache entry stays valid.
pub const ARP_CACHE_TIMEOUT: u64 = 600;

/// The fixed part of an ARP datagram.
#[derive(Clone, Copy, Debug, PartialEq, Eq, Structural)]
pub struct ArpHeader {
    pub htype: u16,
    pub ptype: u16,
    pub hlen: u8,
    pub plen: u8,
    pub oper: u16,
}

impl ArpHeader {
    /// htype(2) | ptype(2) | hlen | plen | oper(2), big-endian.
    pub open spec fn spec_to_bytes(self) -> Seq<u8> {
        seq![
            spec_hi16(self.htype),
            spec_lo16(self.htype),
            spec_hi16(self.ptype),
            spec_lo16(self.ptype),
            self.hlen,
            self.plen,
            spec_hi16(self.oper),
            spec_lo16(self.oper),
        ]
    }

    pub fn to_bytes(&self) -> (r: Vec<u8>)
        ensures
            r@ == self.spec_to_bytes(),
    {
        let mut bytes: Vec<u8> = Vec::new();
        bytes.push((self.htype / 0x100) as u8);
        bytes.push((self.htype % 0x100) as u8);
        bytes.push((self.ptype / 0x100) as u8);
        bytes.push((self.ptype % 0x100) as u8);
        bytes.push(self.hlen);
        bytes.push(self.plen);
        bytes.push((self.oper / 0x100) as u8);
        bytes.push((self.oper % 0x100) as u8);
        proof {
            assert(bytes@ =~= self.spec_to_bytes());
        }
        bytes
    }

    /// The header read back from the first 8 bytes; meaningful when the
    /// buffer holds at least 8.
    pub open spec fn spec_parse(data: Seq<u8>) -> ArpHeader {
        ArpHeader {
            htype: spec_be16(data[0], data[1]),
            ptype: spec_be16(data[2], data[3]),
            hlen: data[4],
            plen: data[5],
            oper: spec_be16(data[6], data[7]),
        }
    }

    pub fn from_bytes(data: &[u8]) -> (r: ArpHeader)
        requires
            data@.len() >= 8,
        ensures
            r == Self::spec_parse(data@),
    {
        ArpHeader {
            htype: data[0] as u16 * 0x100 + data[1] as u16,
            ptype: data[2] as u16 * 0x100 + data[3] as u16,
            hlen: data[4],
            plen: data[5],
            oper: data[6] as u16 * 0x100 + data[7] as u16,
        }
    }

    /// Only Ethernet hardware and IPv4 protocol addresses are supported.
    pub open spec fn spec_supported(self) -> bool {
        &&& self.htype == ARP_HARDWARE_TYPE_ETHERNET
        &&& self.ptype == 0x0800
        &&& self.hlen == 6
        &&& self.plen == 4
    }
}

/// A complete ARP datagram: header, then SHA | SPA | THA | TPA.
#[derive(Clone, Copy, Debug)]
pub struct ArpMessage {
    pub header: ArpHeader,
    pub sha: MacAddress,
    pub spa: Ipv4Address,
    pub tha: MacAddress,
    pub tpa: Ipv4Address,
}

impl ArpMessage {
    pub open spec fn spec_to_bytes(self) -> Seq<u8> {
        self.header.spec_to_bytes() + self.sha@ + self.spa.spec_to_bytes() + self.tha@
            + self.tpa.spec_to_bytes()
    }

    pub fn to_bytes(&self) -> (r: Vec<u8>)
        ensures
            r@ == self.spec_to_bytes(),
            r@.len() == 28,
    {
        let mut bytes = self.header.to_bytes();
        let mut sha = Vec::new();
        sha.extend_from_slice(self.sha.0.as_slice());
        bytes.append(&mut sha);
        let mut spa = self.spa.to_bytes();
        bytes.append(&mut spa);
        let mut tha = Vec::new();
        tha.extend_from_slice(self.tha.0.as_slice());
        bytes.append(&mut tha);
        let mut tpa = self.tpa.to_bytes();
        bytes.append(&mut tpa);
        proof {
            assert(bytes@ =~= self.spec_to_bytes());
        }
        bytes
    }

    /// Read the datagram back from the first 28 bytes of a buffer.
    pub fn from_bytes(data: &[u8]) -> (r: ArpMessage)
        requires
            data@.len() >= 28,
        ensures
            r.header == ArpHeader::spec_parse(data@),
            r.sha@ == data@.subrange(8, 14),
            r.spa.0 == crate::utils::spec_be32(data@[14], data@[15], data@[16], data@[17]),
            r.tha@ == data@.subrange(18, 24),
            r.tpa.0 == crate::utils::spec_be32(data@[24], data@[25], data@[26], data@[27]),
    {
        let header = ArpHeader::from_bytes(data);
        let sha = MacAddress([data[8], data[9], data[10], data[11], data[12], data[13]]);
        let spa = Ipv4Address(
            data[14] as u32 * 0x1000000 + data[15] as u32 * 0x10000 + data[16] as u32 * 0x100
                + data[17] as u32,
        );
        let tha = MacAddress([data[18], data[19], data[20], data[21], data[22], data[23]]);
        let tpa = Ipv4Address(
            data[24] as u32 * 0x1000000 + data[25] as u32 * 0x10000 + data[26] as u32 * 0x100
                + data[27] as u32,
        );
        proof {
            assert(sha.0@ =~= data@.subrange(8, 14));
            assert(tha.0@ =~= data@.subrange(18, 24));
        }
        ArpMessage { header, sha, spa, tha, tpa }
    }
}

/// A cache entry's resolution state.
#[derive(Clone, Copy, Debug, PartialEq, Eq)]
pub enum ArpCacheState {
    /// A request is in flight; egress packets for this target are dropped.
    Incomplete,
    /// The target answers to this hardware address.
    Resolved(MacAddress),
}

/// One cache line: target protocol address, state, and the time of the last
/// refresh.
#[derive(Clone, Copy, Debug)]
pub struct ArpCacheEntry {
    pub ip: Ipv4Address,
    pub state: ArpCacheState,
    pub timestamp: u64,
}

/// The first entry for `ip`, if any.
pub open spec fn spec_find(s: Seq<ArpCacheEntry>, ip: Ipv4Address) -> Option<int>
    decreases s.len(),
{
    if s.len() == 0 {
        None
    } else if s[0].ip == ip {
        Some(0)
    } else {
        match spec_find(s.skip(1), ip) {
            Some(i) => Some(i + 1),
            None => None,
        }
    }
}

pub proof fn lemma_find_properties(s: Seq<ArpCacheEntry>, ip: Ipv4Address)
    ensures
        match spec_find(s, ip) {
            Some(i) => {
                &&& 0 <= i < s.len()
                &&& s[i].ip == ip
                &&& forall|j: int| 0 <= j < i ==> (#[trigger] s[j].ip) != ip
            },
            None => forall|j: int| 0 <= j < s.len() ==> (#[trigger] s[j].ip) != ip,
        },
    decreases s.len(),
{
    if s.len() > 0 && s[0].ip != ip {
        lemma_find_properties(s.skip(1), ip);
        assert forall|j: int| 1 <= j < s.len() implies s.skip(1)[j - 1] == s[j] by {}
    }
}

/// What the cache holds after a refresh of `ip`: the existing line is
/// overwritten, or a new line is appended.
pub open spec fn spec_insert(
    s: Seq<ArpCacheEntry>,
    ip: Ipv4Address,
    state: ArpCacheState,
    now: u64,
) -> Seq<ArpCacheEntry> {
    match spec_find(s, ip) {
        Some(i) => s.update(i, (ArpCacheEntry { ip, state, timestamp: now })),
        None => s.push((ArpCacheEntry { ip, state, timestamp: now })),
    }
}

/// A resolved entry is valid only within the timeout; anything else is a
/// miss for `get`.
pub open spec fn spec_fresh(e: ArpCacheEntry, now: u64) -> bool {
    e.timestamp <= now && now - e.timestamp < ARP_CACHE_TIMEOUT
}

/// What `get` answers: the state of a fresh resolved line, and a miss for
/// absent, in-flight or expired lines.
pub open spec fn spec_get(s: Seq<ArpCacheEntry>, ip: Ipv4Address, now: u64) -> Option<
    ArpCacheState,
> {
    match spec_find(s, ip) {
        Some(i) => if s[i].state matches ArpCacheState::Resolved(_) && spec_fresh(s[i], now) {
            Some(s[i].state)
        } else {
            None
        },
        None => None,
    }
}

/// The ARP cache: a small table of lines keyed by protocol address.
pub struct ArpCache {
    pub entries: Vec<ArpCacheEntry>,
}

impl ArpCache {
    /// Each address owns at most one line.
    pub open spec fn wf(self) -> bool {
        forall|i: int, j: int|
            0 <= i < j < self.entries@.len() ==> (#[trigger] self.entries@[i].ip) != (
            #[trigger] self.entries@[j].ip)
    }

    pub fn new() -> (r: ArpCache)
        ensures
            r.wf(),
            r.entries@.len() == 0,
    {
        ArpCache { entries: Vec::new() }
    }

    /// Refresh the line for `ip` with `state`, stamping it `now`.
    pub fn insert(&mut self, ip: Ipv4Address, state: ArpCacheState, now: u64)
        requires
            old(self).wf(),
        ensures
            final(self).wf(),
            final(self).entries@ == spec_insert(old(self).entries@, ip, state, now),
    {
        proof {
            lemma_find_properties(self.entries@, ip);
        }
        let entry = ArpCacheEntry { ip, state, timestamp: now };
        let mut i: usize = 0;
        while i < self.entries.len()
            invariant
                i <= self.entries@.len(),
                old(self).wf(),
                entry == (ArpCacheEntry { ip, state, timestamp: now }),
                self.entries@ == old(self).entries@,
                forall|j: int| 0 <= j < i ==> (#[trigger] self.entries@[j].ip) != ip,
            decreases self.entries@.len() - i,
        {
            if self.entries[i].ip == ip {
                proof {
                    lemma_find_spec_at(self.entries@, ip, i as int);
                }
                self.entries[i] = entry;
                proof {
                    assert(self.entries@ =~= spec_insert(old(self).entries@, ip, state, now));
                    assert forall|a: int, b: int|
                        0 <= a < b < self.entries@.len() implies self.entries@[a].ip
                        != self.entries@[b].ip by {
                        assert(old(self).entries@[a].ip != old(self).entries@[b].ip);
                    }
                }
                return ;
            }
            i = i + 1;
        }
        self.entries.push(entry);
        proof {
            lemma_find_properties(old(self).entries@, ip);
            match spec_find(old(self).entries@, ip) {
                Some(k) => {
                    assert(old(self).entries@[k].ip == ip);
                    assert(false);
                },
                None => {},
            }
        }
    }

    /// The state of a fresh resolved line for `ip`; a miss otherwise.
    pub fn get(&self, ip: Ipv4Address, now: u64) -> (r: Option<ArpCacheState>)
        ensures
            r == spec_get(self.entries@, ip, now),
    {
        proof {
            lemma_find_properties(self.entries@, ip);
        }
        let mut i: usize = 0;
        while i < self.entries.len()
            invariant
                i <= self.entries@.len(),
                forall|j: int| 0 <= j < i ==> (#[trigger] self.entries@[j].ip) != ip,
            decreases self.entries@.len() - i,
        {
            if self.entries[i].ip == ip {
                proof {
                    lemma_find_spec_at(self.entries@, ip, i as int);
                }
                let entry = &self.entries[i];
                match entry.state {
                    ArpCacheState::Resolved(_) => {
                        if entry.timestamp <= now && now - entry.timestamp < ARP_CACHE_TIMEOUT {
                            return Some(entry.state);
                        }
                        return None;
                    },
                    ArpCacheState::Incomplete => {
                        return None;
                    },
                }
            }
            i = i + 1;
        }
        None
    }
}

/// The bytes of an ARP datagram for Ethernet/IPv4 with the given operation
/// and addresses.
pub open spec fn spec_arp_message_bytes(
    oper: u16,
    sha: Seq<u8>,
    spa: Ipv4Address,
    tha: Seq<u8>,
    tpa: Ipv4Address,
) -> Seq<u8> {
    seq![0u8, 1u8, 0x08u8, 0x00u8, 6u8, 4u8, spec_hi16(oper), spec_lo16(oper)] + sha
        + spa.spec_to_bytes() + tha + tpa.spec_to_bytes()
}

/// The sender hardware address bytes of a received ARP datagram.
pub open spec fn spec_arp_sha(data: Seq<u8>) -> Seq<u8> {
    data.subrange(8, 14)
}

/// The sender protocol address of a received ARP datagram.
pub open spec fn spec_arp_spa(data: Seq<u8>) -> Ipv4Address {
    Ipv4Address(crate::utils::spec_be32(data[14], data[15], data[16], data[17]))
}

/// The target protocol address of a received ARP datagram.
pub open spec fn spec_arp_tpa(data: Seq<u8>) -> Ipv4Address {
    Ipv4Address(crate::utils::spec_be32(data[24], data[25], data[26], data[27]))
}

/// Every ARP datagram this stack composes parses back as a supported
/// Ethernet/IPv4 datagram carrying the same operation and addresses.
pub proof fn lemma_arp_message_roundtrip(
    oper: u16,
    sha: Seq<u8>,
    spa: Ipv4Address,
    tha: Seq<u8>,
    tpa: Ipv4Address,
)
    requires
        sha.len() == 6,
        tha.len() == 6,
    ensures
        ({
            let d = spec_arp_message_bytes(oper, sha, spa, tha, tpa);
            &&& d.len() == 28
            &&& ArpHeader::spec_parse(d).spec_supported()
            &&& ArpHeader::spec_parse(d).oper == oper
            &&& spec_arp_sha(d) == sha
            &&& spec_arp_spa(d) == spa
            &&& d.subrange(18, 24) == tha
            &&& spec_arp_tpa(d) == tpa
        }),
{
    let d = spec_arp_message_bytes(oper, sha, spa, tha, tpa);
    crate::utils::lemma_be16_roundtrip(oper);
    crate::utils::lemma_be32_roundtrip(spa.0);
    crate::utils::lemma_be32_roundtrip(tpa.0);
    assert(spec_be16(0, 1) == 1);
    assert(spec_be16(0x08, 0x00) == 0x0800);
    assert(spec_arp_sha(d) =~= sha);
    assert(d.subrange(18, 24) =~= tha);
    assert(d[14] == crate::utils::spec_oct(spa.0, 0));
    assert(d[24] == crate::utils::spec_oct(tpa.0, 0));
}

/// The cache was refreshed with `spa` resolved to the hardware address
/// `sha`, stamped `now`, and nothing else changed.
pub open spec fn spec_cache_refreshed(
    entries0: Seq<ArpCacheEntry>,
    entries1: Seq<ArpCacheEntry>,
    spa: Ipv4Address,
    sha: Seq<u8>,
    now: u64,
) -> bool {
    exists|m: MacAddress|
        (#[trigger] m@) == sha && entries1 == spec_insert(
            entries0,
            spa,
            ArpCacheState::Resolved(m),
            now,
        )
}

/// How one ARP datagram send changes a device: swallowed by null, looped
/// back whole on loopback, framed and staged for transmit on Ethernet.
pub open spec fn spec_device_sent_arp(
    dev0: NetDevice,
    dev1: NetDevice,
    dst: Seq<u8>,
    payload: Seq<u8>,
) -> bool {
    match dev0.ty {
        NetDeviceType::Null => {
            &&& dev1.loopback_contents() == dev0.loopback_contents()
            &&& dev1.tx_contents() == dev0.tx_contents()
        },
        NetDeviceType::Loopback => {
            &&& dev1.loopback_contents() == dev0.loopback_contents().push(payload)
            &&& dev1.tx_contents() == dev0.tx_contents()
        },
        NetDeviceType::Ethernet => {
            &&& dev1.loopback_contents() == dev0.loopback_contents()
            &&& dev1.tx_contents() == dev0.tx_contents().push(
                crate::devices::ethernet::spec_frame_bytes(
                    dst,
                    dev0.hw_addr@.subrange(0, 6),
                    NetProtocolType::Arp,
                    payload,
                ),
            )
        },
    }
}

/// Compose and hand one ARP datagram to the device, with this device's MAC
/// and the interface's address as the sender pair.
fn send(
    device: &mut NetDevice,
    interface: &Ipv4Interface,
    oper: u16,
    target_hw_addr: MacAddress,
    target: Ipv4Address,
) -> (r: Result<(), NetError>)
    requires
        old(device).wf(),
    ensures
        final(device).same_identity(*old(device)),
        final(device).flags == old(device).flags,
        final(device).wf(),
        match r {
            Ok(()) => {
                &&& old(device).is_up_spec()
                &&& 28 <= old(device).mtu
                &&& spec_device_sent_arp(
                    *old(device),
                    *final(device),
                    target_hw_addr@,
                    spec_arp_message_bytes(
                        oper,
                        old(device).hw_addr@.subrange(0, 6),
                        interface.unicast,
                        target_hw_addr@,
                        target,
                    ),
                )
            },
            Err(e) => {
                &&& *final(device) == *old(device)
                &&& (e == NetError::DeviceDown || e == NetError::PacketTooLong)
                &&& (e == NetError::DeviceDown <==> !old(device).is_up_spec())
                &&& (e == NetError::PacketTooLong <==> (old(device).is_up_spec() && 28 > old(
                    device,
                ).mtu))
            },
        },
{
    let header = ArpHeader {
        htype: ARP_HARDWARE_TYPE_ETHERNET,
        ptype: NetProtocolType::Ipv4.to_u16(),
        hlen: 6,
        plen: 4,
        oper,
    };
    let sha = MacAddress::from_slice(device.hw_addr.as_slice());
    let message = ArpMessage { header, sha, spa: interface.unicast, tha: target_hw_addr, tpa: target };
    let data = message.to_bytes();
    proof {
        assert(data@ =~= spec_arp_message_bytes(
            oper,
            device.hw_addr@.subrange(0, 6),
            interface.unicast,
            target_hw_addr@,
            target,
        ));
    }
    device.send(data.as_slice(), NetProtocolType::Arp, target_hw_addr)
}

/// Broadcast a request for the hardware address of `target`.
fn request(device: &mut NetDevice, interface: &Ipv4Interface, target: Ipv4Address) -> (r: Result<
    (),
    NetError,
>)
    requires
        old(device).wf(),
    ensures
        final(device).same_identity(*old(device)),
        final(device).flags == old(device).flags,
        final(device).wf(),
        match r {
            Ok(()) => {
                &&& old(device).is_up_spec()
                &&& 28 <= old(device).mtu
                &&& spec_device_sent_arp(
                    *old(device),
                    *final(device),
                    spec_mac_broadcast(),
                    spec_arp_message_bytes(
                        ARP_OPERATION_REQUEST,
                        old(device).hw_addr@.subrange(0, 6),
                        interface.unicast,
                        spec_mac_broadcast(),
                        target,
                    ),
                )
            },
            Err(e) => {
                &&& *final(device) == *old(device)
                &&& (e == NetError::DeviceDown || e == NetError::PacketTooLong)
                &&& (e == NetError::DeviceDown <==> !old(device).is_up_spec())
                &&& (e == NetError::PacketTooLong <==> (old(device).is_up_spec() && 28 > old(
                    device,
                ).mtu))
            },
        },
{
    send(device, interface, ARP_OPERATION_REQUEST, MacAddress::broadcast(), target)
}

/// Answer a request: the reply goes straight to the requestor's hardware
/// address.
fn reply(
    device: &mut NetDevice,
    interface: &Ipv4Interface,
    target_hw_addr: MacAddress,
    target: Ipv4Address,
) -> (r: Result<(), NetError>)
    requires
        old(device).wf(),
    ensures
        final(device).same_identity(*old(device)),
        final(device).flags == old(device).flags,
        final(device).wf(),
        match r {
            Ok(()) => {
                &&& old(device).is_up_spec()
                &&& 28 <= old(device).mtu
                &&& spec_device_sent_arp(
                    *old(device),
                    *final(device),
                    target_hw_addr@,
                    spec_arp_message_bytes(
                        ARP_OPERATION_REPLY,
                        old(device).hw_addr@.subrange(0, 6),
                        interface.unicast,
                        target_hw_addr@,
                        target,
                    ),
                )
            },
            Err(e) => {
                &&& *final(device) == *old(device)
                &&& (e == NetError::DeviceDown || e == NetError::PacketTooLong)
                &&& (e == NetError::DeviceDown <==> !old(device).is_up_spec())
                &&& (e == NetError::PacketTooLong <==> (old(device).is_up_spec() && 28 > old(
                    device,
                ).mtu))
            },
        },
{
    send(device, interface, ARP_OPERATION_REPLY, target_hw_addr, target)
}

/// Everything the ARP ingress path does with one datagram. `ctx0`/`devs0`
/// are the states before, `ctx1`/`devs1` after, and `r` the verdict. Only a
/// supported datagram whose target protocol address is the receiving
/// interface's own address changes anything: it refreshes the cache with
/// the sender's pair and hands exactly one reply to the device.
#[verifier::opaque]
pub open spec fn spec_arp_recv_effect(
    ctx0: ProtocolStackContext,
    ctx1: ProtocolStackContext,
    devs0: Seq<NetDevice>,
    devs1: Seq<NetDevice>,
    interface: Ipv4Interface,
    data: Seq<u8>,
    now: u64,
    r: Result<(), NetError>,
) -> bool {
    let unchanged = ctx1 == ctx0 && devs1 == devs0;
    if data.len() < 28 {
        r == Err::<(), NetError>(NetError::FrameTooShort) && unchanged
    } else if !ArpHeader::spec_parse(data).spec_supported() {
        r == Err::<(), NetError>(NetError::UnsupportedArp) && unchanged
    } else {
        let di = interface.device_index;
        if di is None || di->0 >= devs0.len() {
            r == Err::<(), NetError>(NetError::DeadDevice) && unchanged
        } else if spec_arp_tpa(data) != interface.unicast {
            r == Ok::<(), NetError>(()) && unchanged
        } else {
            let i = di->0 as int;
            let dev0 = devs0[i];
            &&& ctx1.router == ctx0.router
            &&& ctx1.id_manager == ctx0.id_manager
            &&& spec_cache_refreshed(
                ctx0.arp_cache.entries@,
                ctx1.arp_cache.entries@,
                spec_arp_spa(data),
                spec_arp_sha(data),
                now,
            )
            &&& devs1.len() == devs0.len()
            &&& forall|j: int| 0 <= j < devs0.len() && j != i ==> #[trigger] devs1[j] == devs0[j]
            &&& devs1[i].same_identity(dev0)
            &&& devs1[i].flags == dev0.flags
            &&& (r is Ok ==> (dev0.is_up_spec() && 28 <= dev0.mtu && spec_device_sent_arp(
                dev0,
                devs1[i],
                spec_arp_sha(data),
                spec_arp_message_bytes(
                    ARP_OPERATION_REPLY,
                    dev0.hw_addr@.subrange(0, 6),
                    interface.unicast,
                    spec_arp_sha(data),
                    spec_arp_spa(data),
                ),
            )))
            &&& (r is Err ==> (devs1[i] == dev0 && (r == Err::<(), NetError>(
                NetError::DeviceDown,
            ) <==> !dev0.is_up_spec()) && (r == Err::<(), NetError>(NetError::PacketTooLong)
                <==> (dev0.is_up_spec() && 28 > dev0.mtu)) && (r == Err::<(), NetError>(
                NetError::DeviceDown,
            ) || r == Err::<(), NetError>(NetError::PacketTooLong))))
        }
    }
}

/// The ARP ingress path. A datagram whose target protocol address is the
/// receiving interface's own address refreshes the cache with the sender's
/// pair and triggers exactly one reply carrying this device's MAC; anything
/// else changes nothing.
pub fn recv(
    context: &mut ProtocolStackContext,
    devices: &mut NetDevices,
    interface: &Ipv4Interface,
    data: &[u8],
    now: u64,
) -> (r: Result<(), NetError>)
    requires
        old(context).arp_cache.wf(),
        forall|i: int| 0 <= i < old(devices)@.len() ==> (#[trigger] old(devices)@[i]).wf(),
    ensures
        final(context).arp_cache.wf(),
        final(context).router == old(context).router,
        final(context).id_manager == old(context).id_manager,
        final(devices)@.len() == old(devices)@.len(),
        forall|i: int| 0 <= i < final(devices)@.len() ==> (#[trigger] final(devices)@[i]).wf(),
        spec_arp_recv_effect(
            *old(context),
            *final(context),
            old(devices)@,
            final(devices)@,
            *interface,
            data@,
            now,
            r,
        ),
{
    proof {
        reveal(spec_arp_recv_effect);
    }
    if data.len() < 28 {
        return Err(NetError::FrameTooShort);
    }
    let header = ArpHeader::from_bytes(data);
    if !(header.htype == ARP_HARDWARE_TYPE_ETHERNET && header.ptype == 0x0800 && header.hlen == 6
        && header.plen == 4) {
        return Err(NetError::UnsupportedArp);
    }
    let message = ArpMessage::from_bytes(data);
    let di = match interface.device_index {
        Some(di) => di,
        None => {
            return Err(NetError::DeadDevice);
        },
    };
    if di >= devices.len() {
        return Err(NetError::DeadDevice);
    }
    if interface.unicast == message.tpa {
        context.arp_cache.insert(message.spa, ArpCacheState::Resolved(message.sha), now);
        proof {
            assert(spec_cache_refreshed(
                old(context).arp_cache.entries@,
                context.arp_cache.entries@,
                spec_arp_spa(data@),
                spec_arp_sha(data@),
                now,
            )) by {
                assert(message.sha@ == spec_arp_sha(data@));
                assert(context.arp_cache.entries@ == spec_insert(
                    old(context).arp_cache.entries@,
                    spec_arp_spa(data@),
                    ArpCacheState::Resolved(message.sha),
                    now,
                ));
            }
        }
        let device = &mut devices[di];
        reply(device, interface, message.sha, message.spa)
    } else {
        Ok(())
    }
}

/// Resolve the hardware address for `target` on an Ethernet device: answer
/// from a fresh cache line, or record the target as in-flight and broadcast
/// a request. The caller drops its packet while resolution is in flight.
pub fn resolve_arp(
    device: &mut NetDevice,
    interface: &Ipv4Interface,
    arp_cache: &mut ArpCache,
    target: Ipv4Address,
    now: u64,
) -> (r: Result<ArpCacheState, NetError>)
    requires
        old(device).wf(),
        old(arp_cache).wf(),
    ensures
        final(device).same_identity(*old(device)),
        final(device).flags == old(device).flags,
        final(device).wf(),
        final(arp_cache).wf(),
        old(device).ty != NetDeviceType::Ethernet ==> (r == Err::<ArpCacheState, NetError>(
            NetError::UnsupportedDevice,
        ) && *final(device) == *old(device) && *final(arp_cache) == *old(arp_cache)),
        old(device).ty == NetDeviceType::Ethernet ==> match spec_get(
            old(arp_cache).entries@,
            target,
            now,
        ) {
            Some(state) => r == Ok::<ArpCacheState, NetError>(state) && *final(device) == *old(
                device,
            ) && *final(arp_cache) == *old(arp_cache),
            None => {
                &&& final(arp_cache).entries@ == spec_insert(
                    old(arp_cache).entries@,
                    target,
                    ArpCacheState::Incomplete,
                    now,
                )
                &&& (r matches Ok(state) ==> (state == ArpCacheState::Incomplete && old(
                    device,
                ).is_up_spec() && 28 <= old(device).mtu && spec_device_sent_arp(
                    *old(device),
                    *final(device),
                    spec_mac_broadcast(),
                    spec_arp_message_bytes(
                        ARP_OPERATION_REQUEST,
                        old(device).hw_addr@.subrange(0, 6),
                        interface.unicast,
                        spec_mac_broadcast(),
                        target,
                    ),
                )))
                &&& (r is Err ==> (*final(device) == *old(device) && (r == Err::<
                    ArpCacheState,
                    NetError,
                >(NetError::DeviceDown) <==> !old(device).is_up_spec()) && (r == Err::<
                    ArpCacheState,
                    NetError,
                >(NetError::PacketTooLong) <==> (old(device).is_up_spec() && 28 > old(
                    device,
                ).mtu)) && (r == Err::<ArpCacheState, NetError>(NetError::DeviceDown) || r
                    == Err::<ArpCacheState, NetError>(NetError::PacketTooLong))))
            },
        },
{
    if !matches!(device.ty, NetDeviceType::Ethernet) {
        return Err(NetError::UnsupportedDevice);
    }
    match arp_cache.get(target, now) {
        Some(state) => Ok(state),
        None => {
            arp_cache.insert(target, ArpCacheState::Incomplete, now);
            match request(device, interface, target) {
                Ok(()) => Ok(ArpCacheState::Incomplete),
                Err(e) => Err(e),
            }
        },
    }
}

/// When `ip` first occurs at index `i`, that is what `spec_find` names.
proof fn lemma_find_spec_at(s: Seq<ArpCacheEntry>, ip: Ipv4Address, i: int)
    requires
        0 <= i < s.len(),
        s[i].ip == ip,
        forall|j: int| 0 <= j < i ==> (#[trigger] s[j].ip) != ip,
    ensures
        spec_find(s, ip) == Some(i),
{
    lemma_find_properties(s, ip);
    match spec_find(s, ip) {
        Some(k) => {
            if k < i {
                assert(s[k].ip != ip);
            }
            if i < k {
                assert(s[i].ip != ip);
            }
        },
        None => {
            assert(s[i].ip != ip);
        },
    }
}

} // verus!
