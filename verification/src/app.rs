//! The assembled stack: a loopback device and an Ethernet-over-TAP device,
//! their interfaces and routes, the two protocol queues, and the two
//! interrupt entry points the host's signal loop drives.

use vstd::prelude::*;
use crate::devices::{
    lemma_find_device_irq_at, lemma_find_device_irq_properties, run_net, spec_find_device_irq,
    spec_handle_isr_effect, stop_net, NetDevice, NetDeviceType, NetDevices,
};
use crate::errors::NetError;
use crate::protocols::ipv4::{Ipv4Address, Ipv4Interface};
use crate::protocols::{NetProtocol, NetProtocols, ProtocolStackContext};
use crate::transport::ContextBlocks;

verus! {

/// The whole stack: devices, protocol queues, the shared network-layer
/// context and the transport control blocks.
pub struct App {
    pub devices: NetDevices,
    pub protocols: NetProtocols,
    pub context: ProtocolStackContext,
    pub pcbs: ContextBlocks,
}

impl App {
    /// The stack's standing invariant: every device is well formed and the
    /// ARP cache keys are unique.
    pub open spec fn wf(self) -> bool {
        &&& forall|i: int| 0 <= i < self.devices@.len() ==> (#[trigger] self.devices@[i]).wf()
        &&& self.context.arp_cache.wf()
    }

    /// Assemble and open the stack: `lo` at 127.0.0.1/8, `tap0` at
    /// 192.0.2.2/24 with a default route via 192.0.2.1, and the IPv4 and
    /// ARP ingress queues.
    pub fn new() -> (r: App)
        ensures
            r.wf(),
            r.devices@.len() == 2,
            r.devices@[0].ty == NetDeviceType::Loopback,
            r.devices@[0].is_up_spec(),
            r.devices@[0].loopback_contents() == Seq::<Seq<u8>>::empty(),
            r.devices@[0].interfaces@.len() == 1,
            (r.devices@[0].interfaces@[0].unicast.0 == 0x7f000001u32),
            (r.devices@[0].interfaces@[0].netmask.0 == 0xff000000u32),
            (r.devices@[0].interfaces@[0].broadcast.0 == 0x7fffffffu32),
            (r.devices@[0].interfaces@[0].device_index == Some(0usize)),
            r.devices@[1].ty == NetDeviceType::Ethernet,
            r.devices@[1].is_up_spec(),
            r.devices@[1].interfaces@.len() == 1,
            (r.devices@[1].interfaces@[0].unicast.0 == 0xc0000202u32),
            (r.devices@[1].interfaces@[0].netmask.0 == 0xffffff00u32),
            (r.devices@[1].interfaces@[0].broadcast.0 == 0xc00002ffu32),
            (r.devices@[1].interfaces@[0].device_index == Some(1usize)),
            r.protocols@.len() == 2,
            r.protocols@[0].protocol_type == crate::protocols::NetProtocolType::Ipv4,
            r.protocols@[0].queue_contents().len() == 0,
            r.protocols@[1].protocol_type == crate::protocols::NetProtocolType::Arp,
            r.protocols@[1].queue_contents().len() == 0,
            r.context.router.routes@.len() == 3,
            (r.context.router.routes@[0].network.0 == 0u32),
            (r.context.router.routes@[0].netmask.0 == 0u32),
            (r.context.router.routes@[0].next_hop == Some(Ipv4Address(0xc0000201u32))),
            (r.context.router.routes@[0].interface == r.devices@[1].interfaces@[0]),
            (r.context.router.routes@[1].network.0 == 0x7f000000u32),
            (r.context.router.routes@[1].netmask.0 == 0xff000000u32),
            (r.context.router.routes@[1].next_hop == Option::<Ipv4Address>::None),
            (r.context.router.routes@[1].interface == r.devices@[0].interfaces@[0]),
            (r.context.router.routes@[2].network.0 == 0xc0000200u32),
            (r.context.router.routes@[2].netmask.0 == 0xffffff00u32),
            (r.context.router.routes@[2].next_hop == Option::<Ipv4Address>::None),
            (r.context.router.routes@[2].interface == r.devices@[1].interfaces@[0]),
            r.context.arp_cache.entries@.len() == 0,
            r.context.id_manager.id == 0,
            r.pcbs.udp_pcb.wf(),
            r.pcbs.udp_pcb.spec_all_free(),
    {
        let mut context = ProtocolStackContext::new();

        let mut lo = NetDevice::loopback();
        let lo_unicast = Ipv4Address::new(&[127u8, 0u8, 0u8, 1u8]);
        let lo_netmask = Ipv4Address::new(&[255u8, 0u8, 0u8, 0u8]);
        proof {
            assert(0x7f000001u32 & 0xff000000u32 == 0x7f000000u32) by (bit_vector);
            assert(0x7f000001u32 | !0xff000000u32 == 0x7fffffffu32) by (bit_vector);
        }
        let lo_interface = Ipv4Interface::new(lo_unicast, lo_netmask, 0);
        lo.register_interface(lo_interface);
        context.router.register(
            Ipv4Address(lo_unicast.0 & lo_netmask.0),
            lo_interface,
        );

        let mut eth = NetDevice::ethernet_tap();
        eth.index = 1;
        let eth_unicast = Ipv4Address::new(&[192u8, 0u8, 2u8, 2u8]);
        let eth_netmask = Ipv4Address::new(&[255u8, 255u8, 255u8, 0u8]);
        proof {
            assert(0xc0000202u32 & 0xffffff00u32 == 0xc0000200u32) by (bit_vector);
            assert(0xc0000202u32 | !0xffffff00u32 == 0xc00002ffu32) by (bit_vector);
        }
        let eth_interface = Ipv4Interface::new(eth_unicast, eth_netmask, 1);
        eth.register_interface(eth_interface);
        context.router.register(
            Ipv4Address(eth_unicast.0 & eth_netmask.0),
            eth_interface,
        );
        context.router.register_default(eth_interface, Ipv4Address::new(&[192u8, 0u8, 2u8, 1u8]));

        let mut devices: NetDevices = Vec::new();
        devices.push(lo);
        devices.push(eth);
        match run_net(&mut devices) {
            Ok(()) => {},
            Err(_) => {
                // Both devices start down, so opening them cannot fail.
                proof {
                    assert(false);
                }
            },
        }

        let mut protocols: NetProtocols = Vec::new();
        protocols.push(NetProtocol::ipv4());
        protocols.push(NetProtocol::arp());

        App { devices, protocols, context, pcbs: ContextBlocks::new() }
    }

    /// Close every device, in registration order. Success is owed whenever
    /// every device is up; a failure names a device that was already down.
    pub fn stop(&mut self) -> (r: Result<(), NetError>)
        requires
            old(self).wf(),
        ensures
            final(self).wf(),
            final(self).devices@.len() == old(self).devices@.len(),
            final(self).protocols@ == old(self).protocols@,
            final(self).context == old(self).context,
            r is Ok ==> forall|i: int|
                0 <= i < final(self).devices@.len() ==> !(#[trigger] final(self).devices@[i]).is_up_spec(),
            r is Ok ==> forall|i: int|
                0 <= i < final(self).devices@.len() ==> (#[trigger] final(self).devices@[i]).flags
                    == old(self).devices@[i].flags & !crate::devices::NET_DEVICE_FLAG_UP,
            r is Err ==> (r == Err::<(), NetError>(NetError::DeviceAlreadyDown) && exists|i: int|
                0 <= i < old(self).devices@.len() && !(#[trigger] old(
                    self,
                ).devices@[i]).is_up_spec()),
    {
        stop_net(&mut self.devices)
    }

    /// The layer-2 interrupt entry: dispatch a link IRQ to its device's
    /// receive path. For the TAP device the host read the raw frame first
    /// and passes it in; the other links own their data. On `Ok` the host
    /// raises the layer-3 soft-IRQ next.
    pub fn handle_irq_l2(&mut self, irq: i32, raw: Option<Vec<u8>>) -> (r: Result<(), NetError>)
        requires
            old(self).wf(),
        ensures
            final(self).wf(),
            final(self).context == old(self).context,
            final(self).devices@.len() == old(self).devices@.len(),
            match spec_find_device_irq(old(self).devices@, irq) {
                None => r == Ok::<(), NetError>(()) && final(self).devices@ == old(self).devices@
                    && final(self).protocols@ == old(self).protocols@,
                Some(i) => {
                    &&& forall|j: int|
                        0 <= j < old(self).devices@.len() && j != i ==> #[trigger] final(self).devices@[j] == old(self).devices@[j]
                    &&& final(self).devices@[i].same_identity(old(self).devices@[i])
                    &&& final(self).devices@[i].tx_contents() == old(self).devices@[i].tx_contents()
                    &&& spec_handle_isr_effect(
                        old(self).devices@[i],
                        final(self).devices@[i],
                        old(self).protocols@,
                        final(self).protocols@,
                        match raw {
                            Some(frame) => Some(frame@),
                            None => None,
                        },
                        r,
                    )
                },
            },
    {
        proof {
            lemma_find_device_irq_properties(self.devices@, irq);
        }
        let mut i: usize = 0;
        while i < self.devices.len()
            invariant
                i <= self.devices@.len(),
                *self == *old(self),
                old(self).wf(),
                forall|j: int| 0 <= j < i ==> (#[trigger] self.devices@[j].irq_entry.irq) != irq,
            decreases self.devices@.len() - i,
        {
            if self.devices[i].irq_entry.irq == irq {
                proof {
                    lemma_find_device_irq_at(self.devices@, irq, i as int);
                }
                let device = &mut self.devices[i];
                return device.handle_isr(&mut self.protocols, raw);
            }
            i = i + 1;
        }
        Ok(())
    }

    /// The layer-3 interrupt entry: drain every protocol's ingress queue.
    /// A frame whose processing errors is dropped; draining continues with
    /// the next protocol, as ingress errors never bring down the stack.
    /// `spec_dispatch_effect` ties the whole pass together: every consumed
    /// frame of every protocol went through that protocol's ingress path,
    /// in order, threading the stack state from one protocol to the next.
    pub fn handle_irq_l3(&mut self, now: u64)
        requires
            old(self).wf(),
        ensures
            final(self).wf(),
            final(self).devices@.len() == old(self).devices@.len(),
            final(self).protocols@.len() == old(self).protocols@.len(),
            final(self).context.router == old(self).context.router,
            crate::protocols::spec_dispatch_effect(
                old(self).protocols@,
                final(self).protocols@,
                old(self).protocols@.len() as int,
                old(self).context,
                final(self).context,
                old(self).pcbs.udp_pcb.pcbs@,
                final(self).pcbs.udp_pcb.pcbs@,
                old(self).devices@,
                final(self).devices@,
                now,
            ),
            forall|i: int|
                0 <= i < final(self).protocols@.len() ==> (#[trigger] final(self).protocols@[i]).protocol_type == old(self).protocols@[i].protocol_type,
            forall|i: int|
                0 <= i < final(self).protocols@.len()
                    ==> crate::protocols::spec_queue_suffix(
                    (#[trigger] final(self).protocols@[i]).queue_contents(),
                    old(self).protocols@[i].queue_contents(),
                ),
            forall|i: int|
                0 <= i < final(self).protocols@.len()
                    && old(self).protocols@[i].queue_contents().len() > 0 ==> (#[trigger] final(self).protocols@[i]).queue_contents().len() < old(self).protocols@[i].queue_contents().len(),
    {
        let mut i: usize = 0;
        proof {
            assert forall|j: int|
                0 <= j < self.protocols@.len() implies crate::protocols::spec_queue_suffix(
                (#[trigger] self.protocols@[j]).queue_contents(),
                old(self).protocols@[j].queue_contents(),
            ) by {
                crate::protocols::lemma_queue_suffix_refl(self.protocols@[j].queue_contents());
            }
            reveal(crate::protocols::spec_dispatch_effect);
            assert(crate::protocols::spec_dispatch_effect(
                old(self).protocols@,
                self.protocols@,
                0,
                old(self).context,
                self.context,
                old(self).pcbs.udp_pcb.pcbs@,
                self.pcbs.udp_pcb.pcbs@,
                old(self).devices@,
                self.devices@,
                now,
            ));
        }
        while i < self.protocols.len()
            invariant
                i <= self.protocols@.len(),
                old(self).wf(),
                self.context.arp_cache.wf(),
                self.context.router == old(self).context.router,
                self.devices@.len() == old(self).devices@.len(),
                forall|j: int|
                    0 <= j < self.devices@.len() ==> (#[trigger] self.devices@[j]).wf(),
                self.protocols@.len() == old(self).protocols@.len(),
                forall|j: int|
                    0 <= j < self.protocols@.len() ==> (#[trigger] self.protocols@[j]).protocol_type
                        == old(self).protocols@[j].protocol_type,
                forall|j: int|
                    0 <= j < self.protocols@.len() ==> crate::protocols::spec_queue_suffix(
                        (#[trigger] self.protocols@[j]).queue_contents(),
                        old(self).protocols@[j].queue_contents(),
                    ),
                forall|j: int|
                    0 <= j < i && old(self).protocols@[j].queue_contents().len() > 0 ==> (
                    #[trigger] self.protocols@[j]).queue_contents().len() < old(self).protocols@[j].queue_contents().len(),
                forall|j: int|
                    i <= j < self.protocols@.len() ==> (#[trigger] self.protocols@[j]).queue_contents()
                        == old(self).protocols@[j].queue_contents(),
                crate::protocols::spec_dispatch_effect(
                    old(self).protocols@,
                    self.protocols@,
                    i as int,
                    old(self).context,
                    self.context,
                    old(self).pcbs.udp_pcb.pcbs@,
                    self.pcbs.udp_pcb.pcbs@,
                    old(self).devices@,
                    self.devices@,
                    now,
                ),
            decreases self.protocols@.len() - i,
        {
            let ghost mid = self.protocols@[i as int].queue_contents();
            let ghost ps_pre = self.protocols@;
            let ghost ctx_pre = self.context;
            let ghost pcbs_pre = self.pcbs.udp_pcb.pcbs@;
            let ghost devs_pre = self.devices@;
            let protocol = &mut self.protocols[i];
            // An ingress error means one bad frame; the rest of the queues
            // still get processed.
            let res = protocol.recv(&mut self.context, &mut self.pcbs, &mut self.devices, now);
            proof {
                crate::protocols::lemma_queue_suffix_trans(
                    self.protocols@[i as int].queue_contents(),
                    mid,
                    old(self).protocols@[i as int].queue_contents(),
                );
                assert(ps_pre[i as int].protocol_type == old(self).protocols@[i as int].protocol_type);
                assert(ps_pre[i as int].queue_contents() == old(
                    self,
                ).protocols@[i as int].queue_contents());
                assert(crate::protocols::spec_drain_effect(
                    old(self).protocols@[i as int].protocol_type,
                    old(self).protocols@[i as int].queue_contents().take(
                        old(self).protocols@[i as int].queue_contents().len() - self.protocols@[
                            i as int
                        ].queue_contents().len(),
                    ),
                    ctx_pre,
                    self.context,
                    pcbs_pre,
                    self.pcbs.udp_pcb.pcbs@,
                    devs_pre,
                    self.devices@,
                    now,
                    res,
                ));
                crate::protocols::lemma_dispatch_effect_frame(
                    old(self).protocols@,
                    ps_pre,
                    self.protocols@,
                    i as int,
                    old(self).context,
                    ctx_pre,
                    old(self).pcbs.udp_pcb.pcbs@,
                    pcbs_pre,
                    old(self).devices@,
                    devs_pre,
                    now,
                );
                crate::protocols::lemma_dispatch_effect_push(
                    old(self).protocols@,
                    self.protocols@,
                    i as int,
                    old(self).context,
                    ctx_pre,
                    self.context,
                    old(self).pcbs.udp_pcb.pcbs@,
                    pcbs_pre,
                    self.pcbs.udp_pcb.pcbs@,
                    old(self).devices@,
                    devs_pre,
                    self.devices@,
                    now,
                    res,
                );
            }
            i = i + 1;
        }
    }
}

} // verus!
