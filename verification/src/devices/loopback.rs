//! The loopback device: `send` pushes the packet onto the device's own FIFO,
//! and `recv` pops it back off as IPv4.

use vstd::prelude::*;
use std::collections::VecDeque;
use crate::devices::{
    CastType, NetDevice, NetDeviceQueueEntry, NetDeviceType, NET_DEVICE_FLAG_LOOPBACK,
};
use crate::errors::NetError;
use crate::interrupt::{IrqEntry, INTR_IRQ_LOOPBACK};
use crate::protocols::NetProtocolType;

verus! {

broadcast use vstd::std_specs::vecdeque::group_vec_dequeue_axioms;

/// The loopback link carries whole IPv4 packets, so its MTU is the IPv4
/// total-length maximum.
pub const LOOPBACK_MTU: usize = 65535;

/// One looped-back packet.
pub struct LoopbackQueueEntry {
    pub data: Vec<u8>,
}

/// Pop the oldest looped-back packet. Everything on the loopback FIFO is an
/// IPv4 packet.
pub fn recv(dev: &mut NetDevice) -> (r: Result<(NetProtocolType, Vec<u8>), NetError>)
    ensures
        final(dev).same_identity(*old(dev)),
        final(dev).flags == old(dev).flags,
        final(dev).wf() == old(dev).wf(),
        final(dev).tx_contents() == old(dev).tx_contents(),
        match r {
            Ok((ty, data)) => {
                &&& old(dev).loopback_contents().len() > 0
                &&& ty == NetProtocolType::Ipv4
                &&& data@ == old(dev).loopback_contents()[0]
                &&& final(dev).loopback_contents() == old(dev).loopback_contents().skip(1)
            },
            Err(e) => {
                &&& e == NetError::QueueEmpty
                &&& old(dev).loopback_contents().len() == 0
                &&& final(dev).loopback_contents() == old(dev).loopback_contents()
            },
        },
{
    let popped: Option<LoopbackQueueEntry> = match &mut dev.queue {
        NetDeviceQueueEntry::Loopback(q) => q.pop_front(),
        NetDeviceQueueEntry::Null => None,
    };
    match popped {
        Some(entry) => {
            proof {
                assert(dev.loopback_contents() =~= old(dev).loopback_contents().skip(1));
            }
            Ok((NetProtocolType::Ipv4, entry.data))
        },
        None => Err(NetError::QueueEmpty),
    }
}

impl NetDevice {
    /// The loopback device `lo`: no ARP, zero hardware address, an own FIFO.
    pub fn loopback() -> (r: NetDevice)
        ensures
            r.wf(),
            r.ty == NetDeviceType::Loopback,
            r.mtu == LOOPBACK_MTU,
            r.flags == NET_DEVICE_FLAG_LOOPBACK,
            !r.is_up_spec(),
            r.irq_entry.irq == INTR_IRQ_LOOPBACK,
            r.loopback_contents() == Seq::<Seq<u8>>::empty(),
            r.tx_contents() == Seq::<Seq<u8>>::empty(),
            r.interfaces@.len() == 0,
            r.index == 0,
            r.name@ == "lo"@,
    {
        let irq_entry = IrqEntry { irq: INTR_IRQ_LOOPBACK, flags: 0x00 };
        let queue: VecDeque<LoopbackQueueEntry> = VecDeque::new();
        let r = NetDevice {
            index: 0,
            name: "lo".to_owned(),
            ty: NetDeviceType::Loopback,
            mtu: LOOPBACK_MTU,
            flags: NET_DEVICE_FLAG_LOOPBACK,
            header_len: 0,
            addr_len: 0,
            hw_addr: [0u8; 14],
            cast_type: CastType::Peer([0u8; 14]),
            irq_entry,
            queue: NetDeviceQueueEntry::Loopback(queue),
            tx_queue: VecDeque::new(),
            interfaces: Vec::new(),
        };
        proof {
            assert(0x0010u16 & 0x0001u16 == 0u16) by (bit_vector);
            assert(r.loopback_contents() =~= Seq::<Seq<u8>>::empty());
            assert(r.tx_contents() =~= Seq::<Seq<u8>>::empty());
        }
        r
    }
}

} // verus!
