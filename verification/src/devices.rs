//! Link devices: an ordered registry of heterogeneous devices (null,
//! loopback, Ethernet-over-TAP), their open/close lifecycle, and transmit.
//!
//! A device owns the receive queue appropriate to its link type and a
//! transmit queue of fully framed bytes; whoever drives the actual link
//! drains `tx_queue` and writes each frame out.

pub mod ethernet;
pub mod loopback;
pub mod null;

use vstd::prelude::*;
use std::collections::VecDeque;
use crate::devices::ethernet::{MacAddress, ETHERNET_PAYLOAD_MAX_SIZE};
use crate::devices::loopback::LoopbackQueueEntry;
use crate::errors::NetError;
use crate::interrupt::IrqEntry;
use crate::protocols::ipv4::Ipv4Interface;
use crate::protocols::{
    lemma_find_protocol_at, lemma_find_protocol_properties, spec_enqueue_effect,
    spec_find_protocol, Ipv4QueueEntry, NetInterfaceFamily, NetProtocol, NetProtocolType,
    NetProtocols,
};

verus! {

broadcast use vstd::std_specs::vecdeque::group_vec_dequeue_axioms,
    vstd::array::group_array_axioms;

pub const NET_DEVICE_FLAG_UP: u16 = 0x0001;

pub const NET_DEVICE_FLAG_LOOPBACK: u16 = 0x0010;

pub const NET_DEVICE_FLAG_BROADCAST: u16 = 0x0020;

pub const NET_DEVICE_FLAG_P2P: u16 = 0x0040;

pub const NET_DEVICE_FLAG_NEED_ARP: u16 = 0x0100;

pub const NET_DEVICE_ADDR_LEN: usize = 14;

/// The devices of the stack, in registration order.
pub type NetDevices = Vec<NetDevice>;

/// The receive queue a device owns: none, or the loopback FIFO.
pub enum NetDeviceQueueEntry {
    Null,
    Loopback(VecDeque<LoopbackQueueEntry>),
}

#[derive(Clone, Copy, Debug)]
pub enum CastType {
    Peer([u8; 14]),
    Broadcast([u8; 14]),
}

#[derive(Clone, Copy, Debug, PartialEq, Eq, Structural)]
pub enum NetDeviceType {
    Null,
    Loopback,
    Ethernet,
}

pub struct NetDevice {
    pub index: usize,
    pub name: String,
    pub ty: NetDeviceType,
    pub mtu: usize,
    pub flags: u16,
    pub header_len: u16,
    pub addr_len: u16,
    pub hw_addr: [u8; 14],
    pub cast_type: CastType,
    pub irq_entry: IrqEntry,
    pub queue: NetDeviceQueueEntry,
    pub tx_queue: VecDeque<Vec<u8>>,
    pub interfaces: Vec<Ipv4Interface>,
}

impl NetDevice {
    /// The link type and the owned receive queue agree, and an Ethernet
    /// device's MTU stays within the Ethernet payload maximum.
    pub open spec fn wf(self) -> bool {
        &&& match self.ty {
            NetDeviceType::Loopback => self.queue matches NetDeviceQueueEntry::Loopback(_),
            _ => self.queue matches NetDeviceQueueEntry::Null,
        }
        &&& (self.ty == NetDeviceType::Ethernet ==> self.mtu <= ETHERNET_PAYLOAD_MAX_SIZE)
    }

    pub open spec fn is_up_spec(self) -> bool {
        self.flags & NET_DEVICE_FLAG_UP != 0
    }

    /// What the loopback FIFO holds, as a sequence of packets.
    pub open spec fn loopback_contents(self) -> Seq<Seq<u8>> {
        match self.queue {
            NetDeviceQueueEntry::Loopback(q) => q@.map_values(|e: LoopbackQueueEntry| e.data@),
            NetDeviceQueueEntry::Null => Seq::empty(),
        }
    }

    /// The frames staged for the link, oldest first.
    pub open spec fn tx_contents(self) -> Seq<Seq<u8>> {
        self.tx_queue@.map_values(|f: Vec<u8>| f@)
    }

    /// Everything but the mutable queues and flags.
    pub open spec fn same_identity(self, other: NetDevice) -> bool {
        &&& self.index == other.index
        &&& self.name@ == other.name@
        &&& self.ty == other.ty
        &&& self.mtu == other.mtu
        &&& self.header_len == other.header_len
        &&& self.addr_len == other.addr_len
        &&& self.hw_addr == other.hw_addr
        &&& self.irq_entry == other.irq_entry
        &&& self.interfaces@ == other.interfaces@
    }

    pub fn is_up(&self) -> (r: bool)
        ensures
            r == self.is_up_spec(),
    {
        self.flags & NET_DEVICE_FLAG_UP != 0
    }

    pub fn state(&self) -> (r: String)
        ensures
            self.is_up_spec() ==> r@ == "UP"@,
            !self.is_up_spec() ==> r@ == "DOWN"@,
    {
        if self.is_up() {
            "UP".to_owned()
        } else {
            "DOWN".to_owned()
        }
    }

    /// Bring the device up. The underlying driver's own open work (for TAP,
    /// the ioctl dance) happens outside the stack, before this call.
    pub fn open(&mut self) -> (r: Result<(), NetError>)
        ensures
            match r {
                Ok(()) => {
                    &&& !old(self).is_up_spec()
                    &&& final(self).flags == old(self).flags | NET_DEVICE_FLAG_UP
                    &&& final(self).is_up_spec()
                    &&& final(self).same_identity(*old(self))
                    &&& final(self).loopback_contents() == old(self).loopback_contents()
                    &&& final(self).tx_contents() == old(self).tx_contents()
                    &&& final(self).wf() == old(self).wf()
                },
                Err(e) => {
                    &&& e == NetError::DeviceAlreadyUp
                    &&& old(self).is_up_spec()
                    &&& *final(self) == *old(self)
                },
            },
    {
        if self.is_up() {
            return Err(NetError::DeviceAlreadyUp);
        }
        self.flags = self.flags | NET_DEVICE_FLAG_UP;
        proof {
            let f: u16 = old(self).flags;
            assert((f | 0x0001u16) & 0x0001u16 != 0u16) by (bit_vector);
        }
        Ok(())
    }

    /// Take the device down.
    pub fn close(&mut self) -> (r: Result<(), NetError>)
        ensures
            match r {
                Ok(()) => {
                    &&& old(self).is_up_spec()
                    &&& final(self).flags == old(self).flags & !NET_DEVICE_FLAG_UP
                    &&& !final(self).is_up_spec()
                    &&& final(self).same_identity(*old(self))
                    &&& final(self).loopback_contents() == old(self).loopback_contents()
                    &&& final(self).tx_contents() == old(self).tx_contents()
                    &&& final(self).wf() == old(self).wf()
                },
                Err(e) => {
                    &&& e == NetError::DeviceAlreadyDown
                    &&& !old(self).is_up_spec()
                    &&& *final(self) == *old(self)
                },
            },
    {
        if !self.is_up() {
            return Err(NetError::DeviceAlreadyDown);
        }
        self.flags = self.flags & !NET_DEVICE_FLAG_UP;
        proof {
            let f: u16 = old(self).flags;
            assert((f & !0x0001u16) & 0x0001u16 == 0u16) by (bit_vector);
        }
        Ok(())
    }

    pub fn register_interface(&mut self, interface: Ipv4Interface)
        ensures
            final(self).interfaces@ == old(self).interfaces@.push(interface),
            final(self).flags == old(self).flags,
            final(self).index == old(self).index,
            final(self).name@ == old(self).name@,
            final(self).ty == old(self).ty,
            final(self).mtu == old(self).mtu,
            final(self).hw_addr == old(self).hw_addr,
            final(self).irq_entry == old(self).irq_entry,
            final(self).loopback_contents() == old(self).loopback_contents(),
            final(self).tx_contents() == old(self).tx_contents(),
            final(self).wf() == old(self).wf(),
    {
        self.interfaces.push(interface);
    }

    /// The first interface of the given address family, if any.
    pub fn get_interface(&self, family: NetInterfaceFamily) -> (r: Option<Ipv4Interface>)
        ensures
            r == spec_get_interface(self.interfaces@, family),
    {
        proof {
            lemma_find_interface_properties(self.interfaces@, family);
        }
        let mut i: usize = 0;
        while i < self.interfaces.len()
            invariant
                i <= self.interfaces@.len(),
                forall|k: int| 0 <= k < i ==> (#[trigger] self.interfaces@[k].family) != family,
            decreases self.interfaces@.len() - i,
        {
            if self.interfaces[i].family == family {
                proof {
                    lemma_find_interface_at(self.interfaces@, family, i as int);
                }
                return Some(self.interfaces[i]);
            }
            i = i + 1;
        }
        None
    }

    /// Hand a payload to the link: discard on null, loop it back into the
    /// device's own FIFO on loopback, and stage a fully built Ethernet frame
    /// on the transmit queue otherwise.
    pub fn send(&mut self, data: &[u8], ty: NetProtocolType, dst: MacAddress) -> (r: Result<
        (),
        NetError,
    >)
        requires
            old(self).wf(),
        ensures
            final(self).same_identity(*old(self)),
            final(self).flags == old(self).flags,
            final(self).wf(),
            match r {
                Ok(()) => {
                    &&& old(self).is_up_spec()
                    &&& data@.len() <= old(self).mtu
                    &&& match old(self).ty {
                        NetDeviceType::Null => {
                            &&& final(self).loopback_contents() == old(self).loopback_contents()
                            &&& final(self).tx_contents() == old(self).tx_contents()
                        },
                        NetDeviceType::Loopback => {
                            &&& final(self).loopback_contents() == old(
                                self,
                            ).loopback_contents().push(data@)
                            &&& final(self).tx_contents() == old(self).tx_contents()
                        },
                        NetDeviceType::Ethernet => {
                            &&& final(self).loopback_contents() == old(self).loopback_contents()
                            &&& final(self).tx_contents() == old(self).tx_contents().push(
                                ethernet::spec_frame_bytes(
                                    dst@,
                                    old(self).hw_addr@.subrange(0, 6),
                                    ty,
                                    data@,
                                ),
                            )
                        },
                    }
                },
                Err(e) => {
                    &&& *final(self) == *old(self)
                    &&& (e == NetError::DeviceDown || e == NetError::PacketTooLong)
                    &&& (e == NetError::DeviceDown <==> !old(self).is_up_spec())
                    &&& (e == NetError::PacketTooLong <==> (old(self).is_up_spec() && data@.len()
                        > old(self).mtu))
                },
            },
    {
        if !self.is_up() {
            return Err(NetError::DeviceDown);
        }
        if data.len() > self.mtu {
            return Err(NetError::PacketTooLong);
        }
        match self.ty {
            NetDeviceType::Null => Ok(()),
            NetDeviceType::Loopback => {
                let mut data_copy: Vec<u8> = Vec::new();
                data_copy.extend_from_slice(data);
                proof {
                    assert(data_copy@ =~= data@);
                }
                let entry = LoopbackQueueEntry { data: data_copy };
                match &mut self.queue {
                    NetDeviceQueueEntry::Loopback(q) => {
                        q.push_back(entry);
                    },
                    NetDeviceQueueEntry::Null => {
                        // Unreachable: wf ties a loopback device to its FIFO.
                    },
                }
                proof {
                    assert(self.loopback_contents() =~= old(self).loopback_contents().push(
                        data@,
                    ));
                }
                Ok(())
            },
            NetDeviceType::Ethernet => {
                let src = MacAddress::from_slice(self.hw_addr.as_slice());
                let frame = ethernet::build_frame(dst, src, ty, data);
                self.tx_queue.push_back(frame);
                proof {
                    assert(final(self).tx_contents() =~= old(self).tx_contents().push(
                        ethernet::spec_frame_bytes(dst@, src@, ty, data@),
                    ));
                }
                Ok(())
            },
        }
    }

    /// Hand one received payload to the first protocol registered for its
    /// EtherType, together with this device's interface of the protocol's
    /// family. A frame with no registered protocol is dropped silently; a
    /// device without a matching interface is an error.
    fn deliver(&self, protocols: &mut NetProtocols, ty: NetProtocolType, payload: Vec<u8>) -> (r:
        Result<(), NetError>)
        ensures
            spec_deliver_effect(old(protocols)@, final(protocols)@, self.interfaces@, ty, payload@, r),
    {
        let ghost ps0 = protocols@;
        let mut i: usize = 0;
        while i < protocols.len()
            invariant
                i <= protocols@.len(),
                protocols@ == ps0,
                ps0 == old(protocols)@,
                forall|j: int| 0 <= j < i ==> (#[trigger] protocols@[j].protocol_type) != ty,
            decreases protocols@.len() - i,
        {
            if protocols[i].protocol_type == ty {
                proof {
                    lemma_find_protocol_at(ps0, ty, i as int);
                }
                let interface = match self.get_interface(ty.to_family()) {
                    Some(interface) => interface,
                    None => {
                        return Err(NetError::InterfaceNotFound);
                    },
                };
                let ghost qc0 = protocols@[i as int].queue_contents();
                let p = &mut protocols[i];
                p.queue.push_back(Ipv4QueueEntry { data: payload, interface });
                proof {
                    assert(protocols@[i as int].queue_contents() =~= qc0.push(
                        (payload@, interface),
                    ));
                }
                return Ok(());
            }
            i = i + 1;
        }
        proof {
            lemma_find_protocol_properties(ps0, ty);
            match spec_find_protocol(ps0, ty) {
                Some(k) => {
                    assert(ps0[k].protocol_type != ty);
                    assert(false);
                },
                None => {},
            }
        }
        Ok(())
    }

    /// The device-level interrupt path: read one frame from the link (for
    /// Ethernet, the caller read it from the TAP descriptor and passes it in
    /// as `raw`; loopback owns its FIFO; null never receives) and hand it up
    /// to the matching protocol queue. After an `Ok` with a queued frame the
    /// caller raises the layer-3 soft-IRQ.
    pub fn handle_isr(&mut self, protocols: &mut NetProtocols, raw: Option<Vec<u8>>) -> (r: Result<
        (),
        NetError,
    >)
        requires
            old(self).wf(),
        ensures
            final(self).wf(),
            final(self).same_identity(*old(self)),
            final(self).flags == old(self).flags,
            final(self).tx_contents() == old(self).tx_contents(),
            spec_handle_isr_effect(
                *old(self),
                *final(self),
                old(protocols)@,
                final(protocols)@,
                match raw {
                    Some(frame) => Some(frame@),
                    None => None,
                },
                r,
            ),
    {
        match self.ty {
            NetDeviceType::Null => Ok(()),
            NetDeviceType::Loopback => {
                let (ty, payload) = match loopback::recv(self) {
                    Ok(entry) => entry,
                    Err(e) => {
                        return Err(e);
                    },
                };
                self.deliver(protocols, ty, payload)
            },
            NetDeviceType::Ethernet => {
                match raw {
                    None => Ok(()),
                    Some(frame) => {
                        let (ty, payload) = match ethernet::recv(self, frame.as_slice()) {
                            Ok(entry) => entry,
                            Err(e) => {
                                return Err(e);
                            },
                        };
                        self.deliver(protocols, ty, payload)
                    },
                }
            },
        }
    }
}

/// What one protocol-delivery step does: the first protocol registered for
/// `t` gains the payload and receiving interface on its queue; without one
/// the payload is dropped; without a matching interface nothing is queued
/// and the caller learns why.
pub open spec fn spec_deliver_effect(
    ps0: Seq<NetProtocol>,
    ps1: Seq<NetProtocol>,
    interfaces: Seq<Ipv4Interface>,
    t: NetProtocolType,
    payload: Seq<u8>,
    r: Result<(), NetError>,
) -> bool {
    match spec_find_protocol(ps0, t) {
        None => r == Ok::<(), NetError>(()) && ps1 == ps0,
        Some(_) => match spec_get_interface(interfaces, NetInterfaceFamily::Ipv4) {
            None => r == Err::<(), NetError>(NetError::InterfaceNotFound) && ps1 == ps0,
            Some(interface) => r == Ok::<(), NetError>(()) && spec_enqueue_effect(
                ps0,
                ps1,
                t,
                payload,
                interface,
            ),
        },
    }
}

/// What the device interrupt path does, by link type: nothing on null, one
/// popped packet delivered as IPv4 on loopback, and the passed-in frame
/// filtered and delivered by EtherType on Ethernet.
pub open spec fn spec_handle_isr_effect(
    dev0: NetDevice,
    dev1: NetDevice,
    ps0: Seq<NetProtocol>,
    ps1: Seq<NetProtocol>,
    raw: Option<Seq<u8>>,
    r: Result<(), NetError>,
) -> bool {
    match dev0.ty {
        NetDeviceType::Null => r == Ok::<(), NetError>(()) && dev1 == dev0 && ps1 == ps0,
        NetDeviceType::Loopback => {
            if dev0.loopback_contents().len() == 0 {
                &&& r == Err::<(), NetError>(NetError::QueueEmpty)
                &&& dev1.loopback_contents() == dev0.loopback_contents()
                &&& ps1 == ps0
            } else {
                &&& dev1.loopback_contents() == dev0.loopback_contents().skip(1)
                &&& spec_deliver_effect(
                    ps0,
                    ps1,
                    dev0.interfaces@,
                    NetProtocolType::Ipv4,
                    dev0.loopback_contents()[0],
                    r,
                )
            }
        },
        NetDeviceType::Ethernet => {
            &&& dev1.loopback_contents() == dev0.loopback_contents()
            &&& match raw {
                None => r == Ok::<(), NetError>(()) && dev1 == dev0 && ps1 == ps0,
                Some(frame) => {
                    if frame.len() < 14 {
                        r == Err::<(), NetError>(NetError::FrameTooShort) && ps1 == ps0
                    } else if frame.subrange(0, 6) != dev0.hw_addr@.subrange(0, 6)
                        && frame.subrange(0, 6) != ethernet::spec_mac_broadcast() {
                        r == Err::<(), NetError>(NetError::WrongDestination) && ps1 == ps0
                    } else if !NetProtocolType::spec_known(ethernet::spec_frame_ethertype(frame)) {
                        r == Err::<(), NetError>(NetError::UnknownEtherType) && ps1 == ps0
                    } else {
                        spec_deliver_effect(
                            ps0,
                            ps1,
                            dev0.interfaces@,
                            NetProtocolType::spec_from_u16(ethernet::spec_frame_ethertype(frame)),
                            frame.skip(14),
                            r,
                        )
                    }
                },
            }
        },
    }
}

/// The index of the first interface of `family`.
pub open spec fn spec_find_interface(s: Seq<Ipv4Interface>, family: NetInterfaceFamily) -> Option<
    int,
>
    decreases s.len(),
{
    if s.len() == 0 {
        None
    } else if s[0].family == family {
        Some(0)
    } else {
        match spec_find_interface(s.skip(1), family) {
            Some(i) => Some(i + 1),
            None => None,
        }
    }
}

/// What `get_interface` answers: the first interface of `family`.
pub open spec fn spec_get_interface(s: Seq<Ipv4Interface>, family: NetInterfaceFamily) -> Option<
    Ipv4Interface,
> {
    match spec_find_interface(s, family) {
        Some(i) => Some(s[i]),
        None => None,
    }
}

pub proof fn lemma_find_interface_properties(s: Seq<Ipv4Interface>, family: NetInterfaceFamily)
    ensures
        match spec_find_interface(s, family) {
            Some(i) => {
                &&& 0 <= i < s.len()
                &&& s[i].family == family
                &&& forall|j: int| 0 <= j < i ==> (#[trigger] s[j].family) != family
            },
            None => forall|j: int| 0 <= j < s.len() ==> (#[trigger] s[j].family) != family,
        },
    decreases s.len(),
{
    if s.len() > 0 && s[0].family != family {
        lemma_find_interface_properties(s.skip(1), family);
        assert forall|j: int| 1 <= j < s.len() implies s.skip(1)[j - 1] == s[j] by {}
    }
}

/// When the first interface of `family` stands at `i`, `spec_find_interface`
/// names it.
proof fn lemma_find_interface_at(s: Seq<Ipv4Interface>, family: NetInterfaceFamily, i: int)
    requires
        0 <= i < s.len(),
        s[i].family == family,
        forall|j: int| 0 <= j < i ==> (#[trigger] s[j].family) != family,
    ensures
        spec_find_interface(s, family) == Some(i),
{
    lemma_find_interface_properties(s, family);
    match spec_find_interface(s, family) {
        Some(k) => {
            if k < i {
                assert(s[k].family != family);
            }
            if i < k {
                assert(s[i].family != family);
            }
        },
        None => {
            assert(s[i].family != family);
        },
    }
}

/// The index of the first device bound to `irq`. Registration keeps one
/// device per IRQ, so the first is the only one.
pub open spec fn spec_find_device_irq(s: Seq<NetDevice>, irq: i32) -> Option<int>
    decreases s.len(),
{
    if s.len() == 0 {
        None
    } else if s[0].irq_entry.irq == irq {
        Some(0)
    } else {
        match spec_find_device_irq(s.skip(1), irq) {
            Some(i) => Some(i + 1),
            None => None,
        }
    }
}

pub proof fn lemma_find_device_irq_properties(s: Seq<NetDevice>, irq: i32)
    ensures
        match spec_find_device_irq(s, irq) {
            Some(i) => {
                &&& 0 <= i < s.len()
                &&& s[i].irq_entry.irq == irq
                &&& forall|j: int| 0 <= j < i ==> (#[trigger] s[j].irq_entry.irq) != irq
            },
            None => forall|j: int| 0 <= j < s.len() ==> (#[trigger] s[j].irq_entry.irq) != irq,
        },
    decreases s.len(),
{
    if s.len() > 0 && s[0].irq_entry.irq != irq {
        lemma_find_device_irq_properties(s.skip(1), irq);
        assert forall|j: int| 1 <= j < s.len() implies s.skip(1)[j - 1] == s[j] by {}
    }
}

/// When the first device for `irq` stands at `i`, `spec_find_device_irq`
/// names it.
pub proof fn lemma_find_device_irq_at(s: Seq<NetDevice>, irq: i32, i: int)
    requires
        0 <= i < s.len(),
        s[i].irq_entry.irq == irq,
        forall|j: int| 0 <= j < i ==> (#[trigger] s[j].irq_entry.irq) != irq,
    ensures
        spec_find_device_irq(s, irq) == Some(i),
{
    lemma_find_device_irq_properties(s, irq);
    match spec_find_device_irq(s, irq) {
        Some(k) => {
            if k < i {
                assert(s[k].irq_entry.irq != irq);
            }
            if i < k {
                assert(s[i].irq_entry.irq != irq);
            }
        },
        None => {
            assert(s[i].irq_entry.irq != irq);
        },
    }
}

/// How one send changes a device: swallowed by null, looped back whole on
/// loopback, framed for `ty` and staged on the transmit queue on Ethernet.
pub open spec fn spec_device_sent(
    dev0: NetDevice,
    dev1: NetDevice,
    dst: Seq<u8>,
    ty: NetProtocolType,
    payload: Seq<u8>,
) -> bool {
    match dev0.ty {
        NetDeviceType::Null => {
            &&& dev1.loopback_contents() == dev0.loopback_contents()
            &&& dev1.tx_contents() == dev0.tx_contents()
        },
        NetDeviceType::Loopback => {
            &&& dev1.loopback_contents() == dev0.loopback_contents().push(payload)
            &&& dev1.tx_contents() == dev0.tx_contents()
        },
        NetDeviceType::Ethernet => {
            &&& dev1.loopback_contents() == dev0.loopback_contents()
            &&& dev1.tx_contents() == dev0.tx_contents().push(
                ethernet::spec_frame_bytes(dst, dev0.hw_addr@.subrange(0, 6), ty, payload),
            )
        },
    }
}

/// Which error a refused send carries: `DeviceDown` on a device that is not
/// up, `PacketTooLong` when the payload exceeds the MTU.
pub open spec fn spec_send_errored(dev: NetDevice, e: NetError, len: int) -> bool {
    &&& (e == NetError::DeviceDown || e == NetError::PacketTooLong)
    &&& (e == NetError::DeviceDown <==> !dev.is_up_spec())
    &&& (e == NetError::PacketTooLong <==> (dev.is_up_spec() && len > dev.mtu))
}

/// Open every device, in registration order. Stops at the first failure,
/// which can only be a device that is already up.
pub fn run_net(devices: &mut NetDevices) -> (r: Result<(), NetError>)
    ensures
        final(devices)@.len() == old(devices)@.len(),
        forall|i: int|
            0 <= i < final(devices)@.len() ==> (#[trigger] final(devices)@[i]).wf() == old(
                devices,
            )@[i].wf(),
        forall|i: int|
            0 <= i < final(devices)@.len() ==> (#[trigger] final(devices)@[i]).same_identity(
                old(devices)@[i],
            ) && final(devices)@[i].loopback_contents() == old(devices)@[i].loopback_contents()
                && final(devices)@[i].tx_contents() == old(devices)@[i].tx_contents(),
        r is Ok ==> forall|i: int|
            0 <= i < final(devices)@.len() ==> (#[trigger] final(devices)@[i]).is_up_spec(),
        r is Ok ==> forall|i: int|
            0 <= i < final(devices)@.len() ==> (#[trigger] final(devices)@[i]).flags == old(
                devices,
            )@[i].flags | NET_DEVICE_FLAG_UP,
        r is Err ==> (r == Err::<(), NetError>(NetError::DeviceAlreadyUp) && exists|i: int|
            0 <= i < old(devices)@.len() && (#[trigger] old(devices)@[i]).is_up_spec()),
{
    let mut i: usize = 0;
    while i < devices.len()
        invariant
            i <= devices@.len(),
            devices@.len() == old(devices)@.len(),
            forall|j: int| 0 <= j < i ==> (#[trigger] devices@[j]).is_up_spec(),
            forall|j: int|
                0 <= j < i ==> (#[trigger] devices@[j]).flags == old(devices)@[j].flags
                    | NET_DEVICE_FLAG_UP,
            forall|j: int| i <= j < devices@.len() ==> (#[trigger] devices@[j]) == old(devices)@[j],
            forall|j: int|
                0 <= j < devices@.len() ==> (#[trigger] devices@[j]).wf() == old(devices)@[j].wf(),
            forall|j: int|
                0 <= j < devices@.len() ==> (#[trigger] devices@[j]).same_identity(
                    old(devices)@[j],
                ) && devices@[j].loopback_contents() == old(devices)@[j].loopback_contents()
                    && devices@[j].tx_contents() == old(devices)@[j].tx_contents(),
        decreases devices@.len() - i,
    {
        let dev = &mut devices[i];
        match dev.open() {
            Ok(()) => {},
            Err(e) => {
                return Err(e);
            },
        }
        i = i + 1;
    }
    Ok(())
}

/// Close every device, in registration order. Stops at the first failure,
/// which can only be a device that is already down.
pub fn stop_net(devices: &mut NetDevices) -> (r: Result<(), NetError>)
    ensures
        final(devices)@.len() == old(devices)@.len(),
        forall|i: int|
            0 <= i < final(devices)@.len() ==> (#[trigger] final(devices)@[i]).wf() == old(
                devices,
            )@[i].wf(),
        forall|i: int|
            0 <= i < final(devices)@.len() ==> (#[trigger] final(devices)@[i]).same_identity(
                old(devices)@[i],
            ) && final(devices)@[i].loopback_contents() == old(devices)@[i].loopback_contents()
                && final(devices)@[i].tx_contents() == old(devices)@[i].tx_contents(),
        r is Ok ==> forall|i: int|
            0 <= i < final(devices)@.len() ==> !(#[trigger] final(devices)@[i]).is_up_spec(),
        r is Ok ==> forall|i: int|
            0 <= i < final(devices)@.len() ==> (#[trigger] final(devices)@[i]).flags == old(
                devices,
            )@[i].flags & !NET_DEVICE_FLAG_UP,
        r is Err ==> (r == Err::<(), NetError>(NetError::DeviceAlreadyDown) && exists|i: int|
            0 <= i < old(devices)@.len() && !(#[trigger] old(devices)@[i]).is_up_spec()),
{
    let mut i: usize = 0;
    while i < devices.len()
        invariant
            i <= devices@.len(),
            devices@.len() == old(devices)@.len(),
            forall|j: int| 0 <= j < i ==> !(#[trigger] devices@[j]).is_up_spec(),
            forall|j: int|
                0 <= j < i ==> (#[trigger] devices@[j]).flags == old(devices)@[j].flags
                    & !NET_DEVICE_FLAG_UP,
            forall|j: int| i <= j < devices@.len() ==> (#[trigger] devices@[j]) == old(devices)@[j],
            forall|j: int|
                0 <= j < devices@.len() ==> (#[trigger] devices@[j]).wf() == old(devices)@[j].wf(),
            forall|j: int|
                0 <= j < devices@.len() ==> (#[trigger] devices@[j]).same_identity(
                    old(devices)@[j],
                ) && devices@[j].loopback_contents() == old(devices)@[j].loopback_contents()
                    && devices@[j].tx_contents() == old(devices)@[j].tx_contents(),
        decreases devices@.len() - i,
    {
        let dev = &mut devices[i];
        match dev.close() {
            Ok(()) => {},
            Err(e) => {
                return Err(e);
            },
        }
        i = i + 1;
    }
    Ok(())
}

/// One-time stack initialization. Nothing to do for this set of devices.
pub fn init_net() -> (r: Result<(), NetError>)
    ensures
        r is Ok,
{
    Ok(())
}

} // verus!
