//! Network-layer protocols: the EtherType registry, the per-protocol ingress
//! FIFOs that layer 2 feeds, and the shared protocol-stack context.

pub mod arp;
pub mod ipv4;

use vstd::prelude::*;
use std::collections::VecDeque;
use crate::errors::NetError;
use crate::protocols::arp::ArpCache;
use crate::protocols::ipv4::{Ipv4IdGenerator, Ipv4Interface, Ipv4Router};

verus! {

broadcast use vstd::std_specs::vecdeque::group_vec_dequeue_axioms;

/// The network protocols this stack demultiplexes by EtherType.
#[derive(Clone, Copy, Debug, PartialEq, Eq, Structural)]
pub enum NetProtocolType {
    Ipv4,
    Arp,
}

impl NetProtocolType {
    /// The EtherType value carried on the wire.
    pub open spec fn spec_u16(self) -> u16 {
        match self {
            NetProtocolType::Ipv4 => 0x0800,
            NetProtocolType::Arp => 0x0806,
        }
    }

    pub fn to_u16(self) -> (r: u16)
        ensures
            r == self.spec_u16(),
    {
        match self {
            NetProtocolType::Ipv4 => 0x0800,
            NetProtocolType::Arp => 0x0806,
        }
    }

    /// The EtherTypes that `from_u16` accepts.
    pub open spec fn spec_known(value: u16) -> bool {
        value == 0x0800 || value == 0x0806
    }

    /// The protocol a known EtherType names; meaningful under `spec_known`.
    pub open spec fn spec_from_u16(value: u16) -> NetProtocolType {
        if value == 0x0800 {
            NetProtocolType::Ipv4
        } else {
            NetProtocolType::Arp
        }
    }

    pub fn from_u16(value: u16) -> (r: Option<NetProtocolType>)
        ensures
            match r {
                Some(p) => Self::spec_known(value) && p == Self::spec_from_u16(value)
                    && p.spec_u16() == value,
                None => !Self::spec_known(value),
            },
    {
        if value == 0x0800 {
            Some(NetProtocolType::Ipv4)
        } else if value == 0x0806 {
            Some(NetProtocolType::Arp)
        } else {
            None
        }
    }

    /// The address family whose interfaces this protocol runs over. Both
    /// IPv4 and ARP attach to IPv4 interfaces.
    pub fn to_family(self) -> (r: NetInterfaceFamily)
        ensures
            r == NetInterfaceFamily::Ipv4,
    {
        match self {
            NetProtocolType::Ipv4 => NetInterfaceFamily::Ipv4,
            NetProtocolType::Arp => NetInterfaceFamily::Ipv4,
        }
    }
}

#[derive(Clone, Copy, Debug, PartialEq, Eq, Structural)]
pub enum NetInterfaceFamily {
    Ipv4,
}

/// One frame handed up by layer 2, together with the interface of the device
/// it arrived on.
pub struct Ipv4QueueEntry {
    pub data: Vec<u8>,
    pub interface: Ipv4Interface,
}

/// A protocol and its ingress FIFO.
pub struct NetProtocol {
    pub protocol_type: NetProtocolType,
    pub queue: VecDeque<Ipv4QueueEntry>,
}

impl NetProtocol {
    /// What the ingress FIFO holds: payload bytes and receiving interface.
    pub open spec fn queue_contents(self) -> Seq<(Seq<u8>, Ipv4Interface)> {
        self.queue@.map_values(|e: Ipv4QueueEntry| (e.data@, e.interface))
    }

    pub fn ipv4() -> (r: NetProtocol)
        ensures
            r.protocol_type == NetProtocolType::Ipv4,
            r.queue_contents() == Seq::<(Seq<u8>, Ipv4Interface)>::empty(),
    {
        let r = NetProtocol { protocol_type: NetProtocolType::Ipv4, queue: VecDeque::new() };
        proof {
            assert(r.queue_contents() =~= Seq::<(Seq<u8>, Ipv4Interface)>::empty());
        }
        r
    }

    pub fn arp() -> (r: NetProtocol)
        ensures
            r.protocol_type == NetProtocolType::Arp,
            r.queue_contents() == Seq::<(Seq<u8>, Ipv4Interface)>::empty(),
    {
        let r = NetProtocol { protocol_type: NetProtocolType::Arp, queue: VecDeque::new() };
        proof {
            assert(r.queue_contents() =~= Seq::<(Seq<u8>, Ipv4Interface)>::empty());
        }
        r
    }

    /// Drain this protocol's ingress FIFO, oldest first, feeding each frame
    /// to the protocol's receive path. Stops at the first frame whose
    /// processing errors; an error never rolls back the frames already
    /// processed, and what remains queued is a suffix of what was queued.
    /// The consumed prefix and the state change are tied together by
    /// `spec_drain_effect`: every dequeued frame went through its
    /// protocol's ingress path, in order.
    #[verifier::rlimit(60)]
    pub fn recv(
        &mut self,
        context: &mut ProtocolStackContext,
        pcbs: &mut crate::transport::ContextBlocks,
        devices: &mut crate::devices::NetDevices,
        now: u64,
    ) -> (r: Result<(), NetError>)
        requires
            old(context).arp_cache.wf(),
            forall|i: int| 0 <= i < old(devices)@.len() ==> (#[trigger] old(devices)@[i]).wf(),
        ensures
            final(context).arp_cache.wf(),
            final(context).router == old(context).router,
            final(devices)@.len() == old(devices)@.len(),
            forall|i: int| 0 <= i < final(devices)@.len() ==> (#[trigger] final(devices)@[i]).wf(),
            final(pcbs).udp_pcb.pcbs@.len() == old(pcbs).udp_pcb.pcbs@.len(),
            final(self).protocol_type == old(self).protocol_type,
            r is Ok ==> final(self).queue_contents().len() == 0,
            r is Err ==> final(self).queue_contents().len() < old(self).queue_contents().len(),
            spec_queue_suffix(final(self).queue_contents(), old(self).queue_contents()),
            spec_drain_effect(
                old(self).protocol_type,
                old(self).queue_contents().take(
                    old(self).queue_contents().len() - final(self).queue_contents().len(),
                ),
                *old(context),
                *final(context),
                old(pcbs).udp_pcb.pcbs@,
                final(pcbs).udp_pcb.pcbs@,
                old(devices)@,
                final(devices)@,
                now,
                r,
            ),
    {
        let ghost mut k: int = 0;
        proof {
            assert(old(self).queue_contents().skip(0) =~= old(self).queue_contents());
            assert(old(self).queue_contents().take(0) =~= Seq::<(Seq<u8>, Ipv4Interface)>::empty());
            reveal(spec_drain_effect);
            assert(spec_drain_effect(
                old(self).protocol_type,
                old(self).queue_contents().take(0),
                *old(context),
                *context,
                old(pcbs).udp_pcb.pcbs@,
                pcbs.udp_pcb.pcbs@,
                old(devices)@,
                devices@,
                now,
                Ok::<(), NetError>(()),
            ));
        }
        while self.queue.len() != 0
            invariant
                old(context).arp_cache.wf(),
                context.arp_cache.wf(),
                context.router == old(context).router,
                devices@.len() == old(devices)@.len(),
                forall|i: int| 0 <= i < devices@.len() ==> (#[trigger] devices@[i]).wf(),
                pcbs.udp_pcb.pcbs@.len() == old(pcbs).udp_pcb.pcbs@.len(),
                self.protocol_type == old(self).protocol_type,
                0 <= k <= old(self).queue_contents().len(),
                self.queue_contents() == old(self).queue_contents().skip(k),
                spec_drain_effect(
                    old(self).protocol_type,
                    old(self).queue_contents().take(k),
                    *old(context),
                    *context,
                    old(pcbs).udp_pcb.pcbs@,
                    pcbs.udp_pcb.pcbs@,
                    old(devices)@,
                    devices@,
                    now,
                    Ok::<(), NetError>(()),
                ),
            decreases self.queue@.len(),
        {
            let ghost before = self.queue_contents();
            let ghost ctx_pre = *context;
            let ghost pcbs_pre = pcbs.udp_pcb.pcbs@;
            let ghost devs_pre = devices@;
            let entry = match self.queue.pop_front() {
                Some(entry) => entry,
                None => {
                    // Unreachable: the loop condition saw a non-empty queue.
                    proof {
                        assert(false);
                    }
                    return Ok(());
                },
            };
            proof {
                assert(self.queue_contents() =~= before.skip(1));
                assert(before.skip(1) =~= old(self).queue_contents().skip(k + 1));
                assert(before[0] == (entry.data@, entry.interface));
                assert(before[0] == old(self).queue_contents().skip(k)[0]);
                assert((entry.data@, entry.interface) == old(self).queue_contents()[k]);
                k = k + 1;
            }
            let res = match self.protocol_type {
                NetProtocolType::Ipv4 => ipv4::recv(
                    context,
                    pcbs,
                    devices,
                    entry.interface,
                    entry.data.as_slice(),
                    now,
                ),
                NetProtocolType::Arp => arp::recv(
                    context,
                    devices,
                    &entry.interface,
                    entry.data.as_slice(),
                    now,
                ),
            };
            proof {
                reveal(spec_frame_recv_effect);
                assert(spec_frame_recv_effect(
                    old(self).protocol_type,
                    old(self).queue_contents()[k - 1],
                    ctx_pre,
                    *context,
                    pcbs_pre,
                    pcbs.udp_pcb.pcbs@,
                    devs_pre,
                    devices@,
                    now,
                    res,
                ));
                lemma_drain_push(
                    old(self).protocol_type,
                    old(self).queue_contents().take(k - 1),
                    old(self).queue_contents()[k - 1],
                    *old(context),
                    ctx_pre,
                    *context,
                    old(pcbs).udp_pcb.pcbs@,
                    pcbs_pre,
                    pcbs.udp_pcb.pcbs@,
                    old(devices)@,
                    devs_pre,
                    devices@,
                    now,
                    res,
                );
                assert(old(self).queue_contents().take(k - 1).push(
                    old(self).queue_contents()[k - 1],
                ) =~= old(self).queue_contents().take(k));
            }
            match res {
                Ok(()) => {
                    proof {
                        match res {
                            Ok(u) => {
                                assert(res == Ok::<(), NetError>(u));
                                assert(u == ());
                            },
                            Err(_) => {},
                        }
                        assert(res == Ok::<(), NetError>(()));
                    }
                },
                Err(e) => {
                    return Err(e);
                },
            }
        }
        Ok(())
    }
}

/// The protocols of the stack, in dispatch order.
pub type NetProtocols = Vec<NetProtocol>;

/// The index of the first protocol registered for `t`.
pub open spec fn spec_find_protocol(s: Seq<NetProtocol>, t: NetProtocolType) -> Option<int>
    decreases s.len(),
{
    if s.len() == 0 {
        None
    } else if s[0].protocol_type == t {
        Some(0)
    } else {
        match spec_find_protocol(s.skip(1), t) {
            Some(i) => Some(i + 1),
            None => None,
        }
    }
}

pub proof fn lemma_find_protocol_properties(s: Seq<NetProtocol>, t: NetProtocolType)
    ensures
        match spec_find_protocol(s, t) {
            Some(i) => {
                &&& 0 <= i < s.len()
                &&& s[i].protocol_type == t
                &&& forall|j: int| 0 <= j < i ==> (#[trigger] s[j].protocol_type) != t
            },
            None => forall|j: int| 0 <= j < s.len() ==> (#[trigger] s[j].protocol_type) != t,
        },
    decreases s.len(),
{
    if s.len() > 0 && s[0].protocol_type != t {
        lemma_find_protocol_properties(s.skip(1), t);
        assert forall|j: int| 1 <= j < s.len() implies s.skip(1)[j - 1] == s[j] by {}
    }
}

/// When the first protocol for `t` stands at `i`, `spec_find_protocol`
/// names it.
pub proof fn lemma_find_protocol_at(s: Seq<NetProtocol>, t: NetProtocolType, i: int)
    requires
        0 <= i < s.len(),
        s[i].protocol_type == t,
        forall|j: int| 0 <= j < i ==> (#[trigger] s[j].protocol_type) != t,
    ensures
        spec_find_protocol(s, t) == Some(i),
{
    lemma_find_protocol_properties(s, t);
    match spec_find_protocol(s, t) {
        Some(k) => {
            if k < i {
                assert(s[k].protocol_type != t);
            }
            if i < k {
                assert(s[i].protocol_type != t);
            }
        },
        None => {
            assert(s[i].protocol_type != t);
        },
    }
}

/// What processing one dequeued frame does: an IPv4 queue feeds the IPv4
/// ingress path, an ARP queue the ARP ingress path (which never touches the
/// transport control blocks).
#[verifier::opaque]
pub open spec fn spec_frame_recv_effect(
    t: NetProtocolType,
    entry: (Seq<u8>, Ipv4Interface),
    ctx0: ProtocolStackContext,
    ctx1: ProtocolStackContext,
    pcbs0: Seq<Option<crate::transport::udp::UdpPcb>>,
    pcbs1: Seq<Option<crate::transport::udp::UdpPcb>>,
    devs0: Seq<crate::devices::NetDevice>,
    devs1: Seq<crate::devices::NetDevice>,
    now: u64,
    r: Result<(), NetError>,
) -> bool {
    match t {
        NetProtocolType::Ipv4 => ipv4::spec_ipv4_recv_effect(
            ctx0,
            ctx1,
            pcbs0,
            pcbs1,
            devs0,
            devs1,
            entry.1,
            entry.0,
            now,
            r,
        ),
        NetProtocolType::Arp => pcbs1 == pcbs0 && arp::spec_arp_recv_effect(
            ctx0,
            ctx1,
            devs0,
            devs1,
            entry.1,
            entry.0,
            now,
            r,
        ),
    }
}

/// What draining a queue does, frame by frame: each consumed entry is
/// processed by the protocol's ingress path from the state its predecessor
/// left, every entry but possibly the last succeeds, and `r` is the result
/// of the last one (`Ok` when nothing was consumed).
#[verifier::opaque]
pub open spec fn spec_drain_effect(
    t: NetProtocolType,
    entries: Seq<(Seq<u8>, Ipv4Interface)>,
    ctx0: ProtocolStackContext,
    ctx1: ProtocolStackContext,
    pcbs0: Seq<Option<crate::transport::udp::UdpPcb>>,
    pcbs1: Seq<Option<crate::transport::udp::UdpPcb>>,
    devs0: Seq<crate::devices::NetDevice>,
    devs1: Seq<crate::devices::NetDevice>,
    now: u64,
    r: Result<(), NetError>,
) -> bool
    decreases entries.len(),
{
    if entries.len() == 0 {
        &&& r == Ok::<(), NetError>(())
        &&& ctx1 == ctx0
        &&& pcbs1 == pcbs0
        &&& devs1 == devs0
    } else {
        exists|
            cm: ProtocolStackContext,
            pm: Seq<Option<crate::transport::udp::UdpPcb>>,
            dm: Seq<crate::devices::NetDevice>,
            r0: Result<(), NetError>,
        |
            {
                &&& #[trigger] spec_frame_recv_effect(
                    t,
                    entries[0],
                    ctx0,
                    cm,
                    pcbs0,
                    pm,
                    devs0,
                    dm,
                    now,
                    r0,
                )
                &&& if r0 is Ok {
                    spec_drain_effect(t, entries.skip(1), cm, ctx1, pm, pcbs1, dm, devs1, now, r)
                } else {
                    &&& entries.len() == 1
                    &&& r == r0
                    &&& ctx1 == cm
                    &&& pcbs1 == pm
                    &&& devs1 == dm
                }
            }
    }
}

/// A successful drain extended by one more processed frame drains the
/// extended prefix, whatever that frame's own verdict.
#[verifier::rlimit(60)]
proof fn lemma_drain_push(
    t: NetProtocolType,
    entries: Seq<(Seq<u8>, Ipv4Interface)>,
    e: (Seq<u8>, Ipv4Interface),
    ctx0: ProtocolStackContext,
    ctx1: ProtocolStackContext,
    ctx2: ProtocolStackContext,
    pcbs0: Seq<Option<crate::transport::udp::UdpPcb>>,
    pcbs1: Seq<Option<crate::transport::udp::UdpPcb>>,
    pcbs2: Seq<Option<crate::transport::udp::UdpPcb>>,
    devs0: Seq<crate::devices::NetDevice>,
    devs1: Seq<crate::devices::NetDevice>,
    devs2: Seq<crate::devices::NetDevice>,
    now: u64,
    r2: Result<(), NetError>,
)
    requires
        spec_drain_effect(
            t,
            entries,
            ctx0,
            ctx1,
            pcbs0,
            pcbs1,
            devs0,
            devs1,
            now,
            Ok::<(), NetError>(()),
        ),
        spec_frame_recv_effect(t, e, ctx1, ctx2, pcbs1, pcbs2, devs1, devs2, now, r2),
    ensures
        spec_drain_effect(t, entries.push(e), ctx0, ctx2, pcbs0, pcbs2, devs0, devs2, now, r2),
    decreases entries.len(),
{
    reveal(spec_drain_effect);
    if entries.len() == 0 {
        assert(entries.push(e)[0] == e);
        assert(entries.push(e).skip(1) =~= Seq::<(Seq<u8>, Ipv4Interface)>::empty());
        assert(spec_frame_recv_effect(
            t,
            entries.push(e)[0],
            ctx0,
            ctx2,
            pcbs0,
            pcbs2,
            devs0,
            devs2,
            now,
            r2,
        ));
        if r2 is Ok {
            match r2 {
                Ok(u) => {
                    assert(r2 == Ok::<(), NetError>(u));
                    assert(u == ());
                },
                Err(_) => {},
            }
            assert(r2 == Ok::<(), NetError>(()));
            assert(spec_drain_effect(
                t,
                entries.push(e).skip(1),
                ctx2,
                ctx2,
                pcbs2,
                pcbs2,
                devs2,
                devs2,
                now,
                r2,
            ));
        }
        assert(spec_drain_effect(t, entries.push(e), ctx0, ctx2, pcbs0, pcbs2, devs0, devs2, now, r2));
    } else {
        let (cm, pm, dm, r0) = choose|
            cm: ProtocolStackContext,
            pm: Seq<Option<crate::transport::udp::UdpPcb>>,
            dm: Seq<crate::devices::NetDevice>,
            r0: Result<(), NetError>,
        |
            {
                &&& #[trigger] spec_frame_recv_effect(
                    t,
                    entries[0],
                    ctx0,
                    cm,
                    pcbs0,
                    pm,
                    devs0,
                    dm,
                    now,
                    r0,
                )
                &&& if r0 is Ok {
                    spec_drain_effect(
                        t,
                        entries.skip(1),
                        cm,
                        ctx1,
                        pm,
                        pcbs1,
                        dm,
                        devs1,
                        now,
                        Ok::<(), NetError>(()),
                    )
                } else {
                    &&& entries.len() == 1
                    &&& Ok::<(), NetError>(()) == r0
                    &&& ctx1 == cm
                    &&& pcbs1 == pm
                    &&& devs1 == dm
                }
            };
        assert(r0 is Ok);
        lemma_drain_push(
            t,
            entries.skip(1),
            e,
            cm,
            ctx1,
            ctx2,
            pm,
            pcbs1,
            pcbs2,
            dm,
            devs1,
            devs2,
            now,
            r2,
        );
        assert(entries.push(e).skip(1) =~= entries.skip(1).push(e));
        assert(entries.push(e)[0] == entries[0]);
        assert(spec_frame_recv_effect(
            t,
            entries.push(e)[0],
            ctx0,
            cm,
            pcbs0,
            pm,
            devs0,
            dm,
            now,
            r0,
        ));
        assert(spec_drain_effect(t, entries.push(e), ctx0, ctx2, pcbs0, pcbs2, devs0, devs2, now, r2));
    }
}

/// What one full layer-3 dispatch pass over the first `n` protocols does:
/// protocol after protocol, in registration order, each drains the consumed
/// prefix of its queue through its ingress path, threading context,
/// transport and device state from one protocol to the next. A protocol
/// whose drain succeeded ends with an empty queue.
#[verifier::opaque]
pub open spec fn spec_dispatch_effect(
    ps0: Seq<NetProtocol>,
    ps1: Seq<NetProtocol>,
    n: int,
    ctx0: ProtocolStackContext,
    ctx1: ProtocolStackContext,
    pcbs0: Seq<Option<crate::transport::udp::UdpPcb>>,
    pcbs1: Seq<Option<crate::transport::udp::UdpPcb>>,
    devs0: Seq<crate::devices::NetDevice>,
    devs1: Seq<crate::devices::NetDevice>,
    now: u64,
) -> bool
    decreases n,
{
    if n <= 0 {
        &&& ctx1 == ctx0
        &&& pcbs1 == pcbs0
        &&& devs1 == devs0
    } else {
        exists|
            cm: ProtocolStackContext,
            pm: Seq<Option<crate::transport::udp::UdpPcb>>,
            dm: Seq<crate::devices::NetDevice>,
            r: Result<(), NetError>,
        |
            {
                &&& spec_dispatch_effect(ps0, ps1, n - 1, ctx0, cm, pcbs0, pm, devs0, dm, now)
                &&& #[trigger] spec_drain_effect(
                    ps0[n - 1].protocol_type,
                    ps0[n - 1].queue_contents().take(
                        ps0[n - 1].queue_contents().len() - ps1[n - 1].queue_contents().len(),
                    ),
                    cm,
                    ctx1,
                    pm,
                    pcbs1,
                    dm,
                    devs1,
                    now,
                    r,
                )
                &&& (r is Ok ==> ps1[n - 1].queue_contents().len() == 0)
            }
    }
}

/// The dispatch effect over the first `n` protocols does not care how the
/// later protocols' queues end up.
pub proof fn lemma_dispatch_effect_frame(
    ps0: Seq<NetProtocol>,
    ps1a: Seq<NetProtocol>,
    ps1b: Seq<NetProtocol>,
    n: int,
    ctx0: ProtocolStackContext,
    ctx1: ProtocolStackContext,
    pcbs0: Seq<Option<crate::transport::udp::UdpPcb>>,
    pcbs1: Seq<Option<crate::transport::udp::UdpPcb>>,
    devs0: Seq<crate::devices::NetDevice>,
    devs1: Seq<crate::devices::NetDevice>,
    now: u64,
)
    requires
        spec_dispatch_effect(ps0, ps1a, n, ctx0, ctx1, pcbs0, pcbs1, devs0, devs1, now),
        forall|j: int| 0 <= j < n ==> ps1b[j] == ps1a[j],
    ensures
        spec_dispatch_effect(ps0, ps1b, n, ctx0, ctx1, pcbs0, pcbs1, devs0, devs1, now),
    decreases n,
{
    reveal(spec_dispatch_effect);
    if n > 0 {
        let (cm, pm, dm, r) = choose|
            cm: ProtocolStackContext,
            pm: Seq<Option<crate::transport::udp::UdpPcb>>,
            dm: Seq<crate::devices::NetDevice>,
            r: Result<(), NetError>,
        |
            {
                &&& spec_dispatch_effect(ps0, ps1a, n - 1, ctx0, cm, pcbs0, pm, devs0, dm, now)
                &&& #[trigger] spec_drain_effect(
                    ps0[n - 1].protocol_type,
                    ps0[n - 1].queue_contents().take(
                        ps0[n - 1].queue_contents().len() - ps1a[n - 1].queue_contents().len(),
                    ),
                    cm,
                    ctx1,
                    pm,
                    pcbs1,
                    dm,
                    devs1,
                    now,
                    r,
                )
                &&& (r is Ok ==> ps1a[n - 1].queue_contents().len() == 0)
            };
        lemma_dispatch_effect_frame(ps0, ps1a, ps1b, n - 1, ctx0, cm, pcbs0, pm, devs0, dm, now);
        assert(ps1b[n - 1] == ps1a[n - 1]);
        assert(spec_drain_effect(
            ps0[n - 1].protocol_type,
            ps0[n - 1].queue_contents().take(
                ps0[n - 1].queue_contents().len() - ps1b[n - 1].queue_contents().len(),
            ),
            cm,
            ctx1,
            pm,
            pcbs1,
            dm,
            devs1,
            now,
            r,
        ));
        assert(spec_dispatch_effect(ps0, ps1b, n, ctx0, ctx1, pcbs0, pcbs1, devs0, devs1, now));
    }
}

/// A dispatch pass over `n` protocols extended by protocol `n`'s own drain
/// covers `n + 1` protocols.
pub proof fn lemma_dispatch_effect_push(
    ps0: Seq<NetProtocol>,
    ps1: Seq<NetProtocol>,
    n: int,
    ctx0: ProtocolStackContext,
    ctx1: ProtocolStackContext,
    ctx2: ProtocolStackContext,
    pcbs0: Seq<Option<crate::transport::udp::UdpPcb>>,
    pcbs1: Seq<Option<crate::transport::udp::UdpPcb>>,
    pcbs2: Seq<Option<crate::transport::udp::UdpPcb>>,
    devs0: Seq<crate::devices::NetDevice>,
    devs1: Seq<crate::devices::NetDevice>,
    devs2: Seq<crate::devices::NetDevice>,
    now: u64,
    r: Result<(), NetError>,
)
    requires
        0 <= n,
        spec_dispatch_effect(ps0, ps1, n, ctx0, ctx1, pcbs0, pcbs1, devs0, devs1, now),
        spec_drain_effect(
            ps0[n].protocol_type,
            ps0[n].queue_contents().take(
                ps0[n].queue_contents().len() - ps1[n].queue_contents().len(),
            ),
            ctx1,
            ctx2,
            pcbs1,
            pcbs2,
            devs1,
            devs2,
            now,
            r,
        ),
        r is Ok ==> ps1[n].queue_contents().len() == 0,
    ensures
        spec_dispatch_effect(ps0, ps1, n + 1, ctx0, ctx2, pcbs0, pcbs2, devs0, devs2, now),
{
    reveal(spec_dispatch_effect);
}

/// `q1` is what remains of `q0` after consuming some prefix.
pub open spec fn spec_queue_suffix(
    q1: Seq<(Seq<u8>, Ipv4Interface)>,
    q0: Seq<(Seq<u8>, Ipv4Interface)>,
) -> bool {
    q1.len() <= q0.len() && q1 == q0.skip(q0.len() - q1.len())
}

pub proof fn lemma_queue_suffix_refl(q: Seq<(Seq<u8>, Ipv4Interface)>)
    ensures
        spec_queue_suffix(q, q),
{
    assert(q =~= q.skip(0));
}

pub proof fn lemma_queue_suffix_trans(
    q2: Seq<(Seq<u8>, Ipv4Interface)>,
    q1: Seq<(Seq<u8>, Ipv4Interface)>,
    q0: Seq<(Seq<u8>, Ipv4Interface)>,
)
    requires
        spec_queue_suffix(q2, q1),
        spec_queue_suffix(q1, q0),
    ensures
        spec_queue_suffix(q2, q0),
{
    assert(q0.skip(q0.len() - q1.len()).skip(q1.len() - q2.len()) =~= q0.skip(
        q0.len() - q2.len(),
    ));
}

/// How layer 2 hands a frame up: the first protocol registered for `t`
/// queues the payload with the receiving interface; without one, the frame
/// is dropped and nothing changes.
pub open spec fn spec_enqueue_effect(
    ps0: Seq<NetProtocol>,
    ps1: Seq<NetProtocol>,
    t: NetProtocolType,
    payload: Seq<u8>,
    interface: Ipv4Interface,
) -> bool {
    match spec_find_protocol(ps0, t) {
        None => ps1 == ps0,
        Some(i) => {
            &&& ps1.len() == ps0.len()
            &&& forall|j: int| 0 <= j < ps0.len() && j != i ==> #[trigger] ps1[j] == ps0[j]
            &&& ps1[i].protocol_type == ps0[i].protocol_type
            &&& ps1[i].queue_contents() == ps0[i].queue_contents().push((payload, interface))
        },
    }
}

/// The process-wide state of the network layer: ARP cache, routing table and
/// the packet-identification generator.
pub struct ProtocolStackContext {
    pub arp_cache: ArpCache,
    pub router: Ipv4Router,
    pub id_manager: Ipv4IdGenerator,
}

impl ProtocolStackContext {
    pub fn new() -> (r: ProtocolStackContext)
        ensures
            r.arp_cache.wf(),
            r.arp_cache.entries@.len() == 0,
            r.router.routes@.len() == 0,
            r.id_manager.id == 0,
    {
        ProtocolStackContext {
            arp_cache: ArpCache::new(),
            router: Ipv4Router::new(),
            id_manager: Ipv4IdGenerator::new(),
        }
    }
}

} // verus!
