//! Ethernet framing: hardware addresses, the 14-byte header, frame
//! construction with minimum-size padding, and the ingress address filter.

use vstd::prelude::*;
use crate::devices::NetDevice;
use crate::errors::NetError;
use crate::protocols::NetProtocolType;

verus! {

broadcast use vstd::array::group_array_axioms;

pub const MAC_ADDRESS_LEN: usize = 6;

/// Minimum Ethernet frame size on the wire (without FCS).
pub const ETHERNET_FRAME_MIN_SIZE: usize = 60;

/// Maximum Ethernet frame size on the wire (without FCS).
pub const ETHERNET_FRAME_MAX_SIZE: usize = 1514;

pub const ETHERNET_HEADER_SIZE: usize = 14;

pub const ETHERNET_PAYLOAD_MAX_SIZE: usize = 1500;

/// A 6-byte hardware address, big-endian on the wire.
#[derive(Clone, Copy, Debug, PartialEq, Eq, Hash)]
pub struct MacAddress(pub [u8; 6]);

/// The all-zero sentinel address.
pub open spec fn spec_mac_any() -> Seq<u8> {
    seq![0u8, 0u8, 0u8, 0u8, 0u8, 0u8]
}

/// The link broadcast address ff:ff:ff:ff:ff:ff.
pub open spec fn spec_mac_broadcast() -> Seq<u8> {
    seq![0xffu8, 0xffu8, 0xffu8, 0xffu8, 0xffu8, 0xffu8]
}

impl MacAddress {
    pub open spec fn view(self) -> Seq<u8> {
        self.0@
    }

    pub fn any() -> (r: MacAddress)
        ensures
            r@ == spec_mac_any(),
    {
        let r = MacAddress([0u8; 6]);
        proof {
            assert(r.0@ =~= spec_mac_any());
        }
        r
    }

    pub fn broadcast() -> (r: MacAddress)
        ensures
            r@ == spec_mac_broadcast(),
    {
        let r = MacAddress([0xffu8; 6]);
        proof {
            assert(r.0@ =~= spec_mac_broadcast());
        }
        r
    }

    /// The first `MAC_ADDRESS_LEN` bytes of a hardware-address buffer.
    pub fn from_slice(data: &[u8]) -> (r: MacAddress)
        requires
            data@.len() >= 6,
        ensures
            r@ == data@.subrange(0, 6),
    {
        let r = MacAddress([data[0], data[1], data[2], data[3], data[4], data[5]]);
        proof {
            assert(r.0@ =~= data@.subrange(0, 6));
        }
        r
    }

    pub fn eq_mac(&self, other: &MacAddress) -> (r: bool)
        ensures
            r == (self@ == other@),
    {
        let r = self.0[0] == other.0[0] && self.0[1] == other.0[1] && self.0[2] == other.0[2]
            && self.0[3] == other.0[3] && self.0[4] == other.0[4] && self.0[5] == other.0[5];
        proof {
            if r {
                assert(self.0@ =~= other.0@);
            }
        }
        r
    }
}

/// The Ethernet header: destination, source, EtherType.
#[derive(Clone, Copy, Debug)]
pub struct EthernetHeader {
    pub dst: MacAddress,
    pub src: MacAddress,
    pub ty: NetProtocolType,
}

impl EthernetHeader {
    /// DST(6) | SRC(6) | TYPE(2, big-endian).
    pub open spec fn spec_to_bytes(self) -> Seq<u8> {
        self.dst@ + self.src@ + seq![
            (self.ty.spec_u16() / 0x100) as u8,
            (self.ty.spec_u16() % 0x100) as u8,
        ]
    }

    pub fn to_bytes(&self) -> (r: Vec<u8>)
        ensures
            r@ == self.spec_to_bytes(),
    {
        let mut bytes: Vec<u8> = Vec::new();
        bytes.push(self.dst.0[0]);
        bytes.push(self.dst.0[1]);
        bytes.push(self.dst.0[2]);
        bytes.push(self.dst.0[3]);
        bytes.push(self.dst.0[4]);
        bytes.push(self.dst.0[5]);
        bytes.push(self.src.0[0]);
        bytes.push(self.src.0[1]);
        bytes.push(self.src.0[2]);
        bytes.push(self.src.0[3]);
        bytes.push(self.src.0[4]);
        bytes.push(self.src.0[5]);
        let ty = self.ty.to_u16();
        bytes.push((ty / 0x100) as u8);
        bytes.push((ty % 0x100) as u8);
        proof {
            assert(bytes@ =~= self.spec_to_bytes());
        }
        bytes
    }

    /// Parse the first 14 bytes of a frame. The EtherType must be one this
    /// stack knows.
    pub fn from_bytes(data: &[u8]) -> (r: Result<EthernetHeader, NetError>)
        ensures
            match r {
                Ok(h) => {
                    &&& data@.len() >= 14
                    &&& NetProtocolType::spec_known(spec_frame_ethertype(data@))
                    &&& h.dst@ == data@.subrange(0, 6)
                    &&& h.src@ == data@.subrange(6, 12)
                    &&& h.ty.spec_u16() == spec_frame_ethertype(data@)
                },
                Err(NetError::FrameTooShort) => data@.len() < 14,
                Err(NetError::UnknownEtherType) => {
                    &&& data@.len() >= 14
                    &&& !NetProtocolType::spec_known(spec_frame_ethertype(data@))
                },
                Err(_) => false,
            },
    {
        if data.len() < 14 {
            return Err(NetError::FrameTooShort);
        }
        let dst = MacAddress::from_slice(data);
        let src = MacAddress([data[6], data[7], data[8], data[9], data[10], data[11]]);
        let raw_ty: u16 = data[12] as u16 * 0x100 + data[13] as u16;
        let Some(ty) = NetProtocolType::from_u16(raw_ty) else {
            return Err(NetError::UnknownEtherType);
        };
        proof {
            assert(src.0@ =~= data@.subrange(6, 12));
        }
        Ok(EthernetHeader { dst, src, ty })
    }
}

/// The 16-bit EtherType carried at bytes 12 and 13 of a frame.
pub open spec fn spec_frame_ethertype(frame: Seq<u8>) -> u16 {
    (frame[12] * 0x100 + frame[13]) as u16
}

/// The bytes of a frame as the link sends it: header, payload, and zero
/// padding until the frame reaches the 60-byte minimum.
pub open spec fn spec_frame_bytes(
    dst: Seq<u8>,
    src: Seq<u8>,
    ty: NetProtocolType,
    payload: Seq<u8>,
) -> Seq<u8> {
    let base = dst + src + seq![
        (ty.spec_u16() / 0x100) as u8,
        (ty.spec_u16() % 0x100) as u8,
    ] + payload;
    if base.len() < 60 {
        base + Seq::new((60 - base.len()) as nat, |i: int| 0u8)
    } else {
        base
    }
}

/// Build the on-wire frame for a payload: prepend the header and pad with
/// zeros up to the minimum frame size.
pub fn build_frame(
    dst: MacAddress,
    src: MacAddress,
    ty: NetProtocolType,
    payload: &[u8],
) -> (r: Vec<u8>)
    requires
        payload@.len() <= usize::MAX - 60,
    ensures
        r@ == spec_frame_bytes(dst@, src@, ty, payload@),
{
    let header = EthernetHeader { dst, src, ty };
    let mut frame = header.to_bytes();
    frame.extend_from_slice(payload);
    proof {
        assert(frame@ =~= dst@ + src@ + seq![
            (ty.spec_u16() / 0x100) as u8,
            (ty.spec_u16() % 0x100) as u8,
        ] + payload@);
    }
    while frame.len() < 60
        invariant
            spec_frame_bytes(dst@, src@, ty, payload@) == if frame@.len() < 60 {
                frame@ + Seq::new((60 - frame@.len()) as nat, |i: int| 0u8)
            } else {
                frame@
            },
        decreases 60 - frame.len(),
    {
        let ghost before = frame@;
        frame.push(0u8);
        proof {
            if frame@.len() < 60 {
                assert(before + Seq::new((60 - before.len()) as nat, |i: int| 0u8) =~= frame@
                    + Seq::new((60 - frame@.len()) as nat, |i: int| 0u8));
            } else {
                assert(before + Seq::new((60 - before.len()) as nat, |i: int| 0u8) =~= frame@);
            }
        }
    }
    frame
}

impl NetDevice {
    /// The Ethernet device `tap0`, served by a host TAP descriptor. The
    /// descriptor's open/close dance and the MAC query are host work done
    /// outside the stack; the hardware address starts as the all-zero
    /// sentinel until the host fills it in.
    pub fn ethernet_tap() -> (r: NetDevice)
        ensures
            r.wf(),
            r.ty == crate::devices::NetDeviceType::Ethernet,
            r.mtu == ETHERNET_PAYLOAD_MAX_SIZE,
            r.flags == crate::devices::NET_DEVICE_FLAG_LOOPBACK
                | crate::devices::NET_DEVICE_FLAG_NEED_ARP,
            !r.is_up_spec(),
            r.flags & crate::devices::NET_DEVICE_FLAG_NEED_ARP != 0,
            r.irq_entry.irq == crate::interrupt::INTR_IRQ_ETHERNET_TAP,
            r.hw_addr@ == Seq::new(14, |i: int| 0u8),
            r.loopback_contents() == Seq::<Seq<u8>>::empty(),
            r.tx_contents() == Seq::<Seq<u8>>::empty(),
            r.interfaces@.len() == 0,
            r.index == 0,
            r.name@ == "tap0"@,
    {
        let irq_entry = crate::interrupt::IrqEntry {
            irq: crate::interrupt::INTR_IRQ_ETHERNET_TAP,
            flags: 0x00,
        };
        let r = NetDevice {
            index: 0,
            name: "tap0".to_owned(),
            ty: crate::devices::NetDeviceType::Ethernet,
            mtu: ETHERNET_PAYLOAD_MAX_SIZE,
            flags: crate::devices::NET_DEVICE_FLAG_LOOPBACK
                | crate::devices::NET_DEVICE_FLAG_NEED_ARP,
            header_len: 14,
            addr_len: 6,
            hw_addr: [0u8; 14],
            cast_type: crate::devices::CastType::Peer([0u8; 14]),
            irq_entry,
            queue: crate::devices::NetDeviceQueueEntry::Null,
            tx_queue: std::collections::VecDeque::new(),
            interfaces: Vec::new(),
        };
        proof {
            assert(0x0010u16 | 0x0100u16 == 0x0110u16) by (bit_vector);
            assert(0x0110u16 & 0x0001u16 == 0u16) by (bit_vector);
            assert(0x0110u16 & 0x0100u16 != 0u16) by (bit_vector);
            assert(r.hw_addr@ =~= Seq::new(14, |i: int| 0u8));
            assert(r.tx_contents() =~= Seq::<Seq<u8>>::empty());
        }
        r
    }
}

/// The ingress path of an Ethernet device: parse the header of a received
/// frame, drop it unless it is addressed to this device or to broadcast, and
/// hand the EtherType and payload up.
pub fn recv(device: &NetDevice, frame: &[u8]) -> (r: Result<(NetProtocolType, Vec<u8>), NetError>)
    ensures
        match r {
            Ok((ty, payload)) => {
                &&& frame@.len() >= 14
                &&& NetProtocolType::spec_known(spec_frame_ethertype(frame@))
                &&& ty.spec_u16() == spec_frame_ethertype(frame@)
                &&& (frame@.subrange(0, 6) == device.hw_addr@.subrange(0, 6) || frame@.subrange(
                    0,
                    6,
                ) == spec_mac_broadcast())
                &&& payload@ == frame@.skip(14)
            },
            Err(NetError::FrameTooShort) => frame@.len() < 14,
            Err(NetError::WrongDestination) => {
                &&& frame@.len() >= 14
                &&& frame@.subrange(0, 6) != device.hw_addr@.subrange(0, 6)
                &&& frame@.subrange(0, 6) != spec_mac_broadcast()
            },
            Err(NetError::UnknownEtherType) => {
                &&& frame@.len() >= 14
                &&& (frame@.subrange(0, 6) == device.hw_addr@.subrange(0, 6) || frame@.subrange(
                    0,
                    6,
                ) == spec_mac_broadcast())
                &&& !NetProtocolType::spec_known(spec_frame_ethertype(frame@))
            },
            Err(_) => false,
        },
{
    if frame.len() < 14 {
        return Err(NetError::FrameTooShort);
    }
    let dst = MacAddress::from_slice(frame);
    let own = MacAddress::from_slice(device.hw_addr.as_slice());
    if !dst.eq_mac(&own) && !dst.eq_mac(&MacAddress::broadcast()) {
        return Err(NetError::WrongDestination);
    }
    let raw_ty: u16 = frame[12] as u16 * 0x100 + frame[13] as u16;
    let Some(ty) = NetProtocolType::from_u16(raw_ty) else {
        return Err(NetError::UnknownEtherType);
    };
    let mut payload: Vec<u8> = Vec::new();
    let mut i: usize = 14;
    while i < frame.len()
        invariant
            14 <= i <= frame@.len(),
            payload@ == frame@.subrange(14, i as int),
        decreases frame@.len() - i,
    {
        payload.push(frame[i]);
        proof {
            assert(payload@ =~= frame@.subrange(14, i + 1 as int));
        }
        i = i + 1;
    }
    proof {
        assert(payload@ =~= frame@.skip(14));
    }
    Ok((ty, payload))
}

} // verus!
