//! The null device: open and close are no-ops and every send is discarded.

use vstd::prelude::*;
use std::collections::VecDeque;
use crate::devices::{CastType, NetDevice, NetDeviceQueueEntry, NetDeviceType};
use crate::interrupt::{IrqEntry, INTR_IRQ_NULL, INTR_IRQ_SHARED};

verus! {

broadcast use vstd::std_specs::vecdeque::group_vec_dequeue_axioms;

impl NetDevice {
    /// A device that swallows everything; useful as a stand-in.
    pub fn null() -> (r: NetDevice)
        ensures
            r.wf(),
            r.ty == NetDeviceType::Null,
            r.mtu == 1500,
            r.flags == 0,
            !r.is_up_spec(),
            r.irq_entry.irq == INTR_IRQ_NULL,
            r.loopback_contents() == Seq::<Seq<u8>>::empty(),
            r.tx_contents() == Seq::<Seq<u8>>::empty(),
            r.interfaces@.len() == 0,
            r.index == 0,
            r.name@ == "null"@,
    {
        let irq_entry = IrqEntry { irq: INTR_IRQ_NULL, flags: INTR_IRQ_SHARED };
        let r = NetDevice {
            index: 0,
            name: "null".to_owned(),
            ty: NetDeviceType::Null,
            mtu: 1500,
            flags: 0,
            header_len: 0,
            addr_len: 0,
            hw_addr: [0u8; 14],
            cast_type: CastType::Peer([0u8; 14]),
            irq_entry,
            queue: NetDeviceQueueEntry::Null,
            tx_queue: VecDeque::new(),
            interfaces: Vec::new(),
        };
        proof {
            assert(0u16 & 0x0001u16 == 0u16) by (bit_vector);
            assert(r.tx_contents() =~= Seq::<Seq<u8>>::empty());
        }
        r
    }
}

} // verus!
