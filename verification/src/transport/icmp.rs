//! ICMP echo and echo-reply: the header codec and, further down, the
//! receive-and-answer path.

use vstd::prelude::*;
use crate::devices::{NetDevice, NetDevices};
use crate::errors::NetError;
use crate::protocols::ipv4::{spec_send_effect, Ipv4Address, IPV4_PAYLOAD_MAX_LENGTH};
use crate::protocols::ProtocolStackContext;
use crate::transport::TransportProtocolNumber;
use crate::utils::{calculate_checksum, checksum_spec, spec_be16, spec_hi16, spec_lo16};

verus! {

/// The ICMP types this stack handles. Everything else is ignored.
#[derive(Clone, Copy, Debug, PartialEq, Eq, Structural)]
pub enum IcmpType {
    EchoReply,
    Echo,
}

impl IcmpType {
    pub open spec fn spec_u8(self) -> u8 {
        match self {
            IcmpType::EchoReply => 0,
            IcmpType::Echo => 8,
        }
    }

    pub fn to_u8(self) -> (r: u8)
        ensures
            r == self.spec_u8(),
    {
        match self {
            IcmpType::EchoReply => 0,
            IcmpType::Echo => 8,
        }
    }

    pub open spec fn spec_known(value: u8) -> bool {
        value == 0 || value == 8
    }

    /// The type a known value names; meaningful under `spec_known`.
    pub open spec fn spec_from_u8(value: u8) -> IcmpType {
        if value == 0 {
            IcmpType::EchoReply
        } else {
            IcmpType::Echo
        }
    }

    pub fn from_u8(value: u8) -> (r: Option<IcmpType>)
        ensures
            match r {
                Some(t) => Self::spec_known(value) && t == Self::spec_from_u8(value)
                    && t.spec_u8() == value,
                None => !Self::spec_known(value),
            },
    {
        if value == 0 {
            Some(IcmpType::EchoReply)
        } else if value == 8 {
            Some(IcmpType::Echo)
        } else {
            None
        }
    }
}

/// The 8-byte ICMP header: type | code | checksum(2) | values(4).
#[derive(Clone, Copy, Debug, PartialEq, Eq, Structural)]
pub struct IcmpHeader {
    pub ty: IcmpType,
    pub code: u8,
    pub checksum: u16,
    pub values: u32,
}

impl IcmpHeader {
    pub open spec fn spec_to_bytes(self) -> Seq<u8> {
        seq![
            self.ty.spec_u8(),
            self.code,
            spec_hi16(self.checksum),
            spec_lo16(self.checksum),
            crate::utils::spec_oct(self.values, 0),
            crate::utils::spec_oct(self.values, 1),
            crate::utils::spec_oct(self.values, 2),
            crate::utils::spec_oct(self.values, 3),
        ]
    }

    pub fn to_bytes(&self) -> (r: Vec<u8>)
        ensures
            r@ == self.spec_to_bytes(),
            r@.len() == 8,
    {
        let mut bytes: Vec<u8> = Vec::new();
        bytes.push(self.ty.to_u8());
        bytes.push(self.code);
        bytes.push((self.checksum / 0x100) as u8);
        bytes.push((self.checksum % 0x100) as u8);
        bytes.push((self.values / 0x1000000) as u8);
        bytes.push((self.values / 0x10000 % 0x100) as u8);
        bytes.push((self.values / 0x100 % 0x100) as u8);
        bytes.push((self.values % 0x100) as u8);
        proof {
            assert(bytes@ =~= self.spec_to_bytes());
        }
        bytes
    }

    /// The header read back from the first 8 bytes of a buffer; the type
    /// byte must be one this stack knows.
    pub fn from_bytes(data: &[u8]) -> (r: Result<IcmpHeader, NetError>)
        ensures
            match r {
                Ok(h) => {
                    &&& data@.len() >= 8
                    &&& IcmpType::spec_known(data@[0])
                    &&& h.ty == IcmpType::spec_from_u8(data@[0])
                    &&& h.code == data@[1]
                    &&& h.checksum == spec_be16(data@[2], data@[3])
                    &&& h.values == crate::utils::spec_be32(
                        data@[4],
                        data@[5],
                        data@[6],
                        data@[7],
                    )
                },
                Err(NetError::FrameTooShort) => data@.len() < 8,
                Err(NetError::UnknownProtocol) => data@.len() >= 8 && !IcmpType::spec_known(
                    data@[0],
                ),
                Err(_) => false,
            },
    {
        if data.len() < 8 {
            return Err(NetError::FrameTooShort);
        }
        let Some(ty) = IcmpType::from_u8(data[0]) else {
            return Err(NetError::UnknownProtocol);
        };
        Ok(
            IcmpHeader {
                ty,
                code: data[1],
                checksum: data[2] as u16 * 0x100 + data[3] as u16,
                values: data[4] as u32 * 0x1000000 + data[5] as u32 * 0x10000 + data[6] as u32
                    * 0x100 + data[7] as u32,
            },
        )
    }
}

/// The bytes of an ICMP message: the header with its checksum computed over
/// header and payload (checksum field zero at compute time), then the
/// payload.
pub open spec fn spec_icmp_message_bytes(
    ty: IcmpType,
    code: u8,
    values: u32,
    payload: Seq<u8>,
) -> Seq<u8> {
    let h0 = IcmpHeader { ty, code, checksum: 0, values };
    let c = checksum_spec(h0.spec_to_bytes() + payload, 0);
    (IcmpHeader { checksum: c, ..h0 }).spec_to_bytes() + payload
}

/// Every ICMP message the send path composes checksums to zero: the
/// checksum field covers header and payload, so a receiver folding the
/// whole message verifies it.
pub proof fn lemma_icmp_message_verifies(ty: IcmpType, code: u8, values: u32, payload: Seq<u8>)
    ensures
        checksum_spec(spec_icmp_message_bytes(ty, code, values, payload), 0) == 0,
{
    let m = 0xffffint;
    let h0 = IcmpHeader { ty, code, checksum: 0, values };
    let s0 = crate::utils::words_sum(h0.spec_to_bytes() + payload);
    crate::utils::lemma_words_sum_bounds(h0.spec_to_bytes() + payload);
    crate::utils::lemma_fold_carries_props(s0);
    let c = checksum_spec(h0.spec_to_bytes() + payload, 0);
    assert(c == 0xffff - crate::utils::fold_carries(s0));
    let hc = IcmpHeader { checksum: c as u16, ..h0 };

    // The two layouts differ by c in the checksum word alone.
    let pre = seq![ty.spec_u8(), code];
    let post = seq![
        crate::utils::spec_oct(values, 0),
        crate::utils::spec_oct(values, 1),
        crate::utils::spec_oct(values, 2),
        crate::utils::spec_oct(values, 3),
    ];
    let zero2 = seq![spec_hi16(0u16), spec_lo16(0u16)];
    let c2 = seq![spec_hi16(c as u16), spec_lo16(c as u16)];
    assert(h0.spec_to_bytes() =~= (pre + zero2) + post);
    assert(hc.spec_to_bytes() =~= (pre + c2) + post);
    assert(zero2.skip(2) =~= Seq::<u8>::empty());
    assert(c2.skip(2) =~= Seq::<u8>::empty());
    assert(crate::utils::words_sum(Seq::<u8>::empty()) == 0);
    assert(crate::utils::words_sum(c2) == spec_hi16(c as u16) * 0x100 + spec_lo16(c as u16));
    crate::utils::lemma_be16_roundtrip(c as u16);
    assert(crate::utils::spec_be16(spec_hi16(c as u16), spec_lo16(c as u16)) == c as u16);
    assert(spec_hi16(c as u16) * 0x100 + spec_lo16(c as u16) <= 0xffff);
    assert(crate::utils::words_sum(c2) == c);
    assert(crate::utils::words_sum(zero2) == 0);
    crate::utils::lemma_words_sum_append_even(pre, zero2);
    crate::utils::lemma_words_sum_append_even(pre, c2);
    crate::utils::lemma_words_sum_append_even(pre + zero2, post);
    crate::utils::lemma_words_sum_append_even(pre + c2, post);
    crate::utils::lemma_words_sum_append_even(h0.spec_to_bytes(), payload);
    crate::utils::lemma_words_sum_append_even(hc.spec_to_bytes(), payload);
    let s = crate::utils::words_sum(hc.spec_to_bytes() + payload);
    assert(s == s0 + c);

    // The full sum vanishes modulo 0xffff and stays positive, so it folds
    // to 0xffff, whose complement is zero.
    crate::utils::lemma_fold_carries_props(s);
    vstd::arithmetic::div_mod::lemma_sub_mod_noop(s0, crate::utils::fold_carries(s0), m);
    assert((s0 - crate::utils::fold_carries(s0)) % m == 0) by {
        assert((s0 % m - crate::utils::fold_carries(s0) % m) % m == (s0
            - crate::utils::fold_carries(s0)) % m);
        assert(s0 % m - crate::utils::fold_carries(s0) % m == 0);
        assert(0int % m == 0);
    }
    assert(s == m * 1 + (s0 - crate::utils::fold_carries(s0)));
    vstd::arithmetic::div_mod::lemma_mod_multiples_vanish(
        1,
        s0 - crate::utils::fold_carries(s0),
        m,
    );
    assert(s % m == 0);
    assert(s > 0);
    assert(crate::utils::fold_carries(s) == 0xffff);
    assert(spec_icmp_message_bytes(ty, code, values, payload) == hc.spec_to_bytes() + payload);
}

/// Compose an ICMP message and hand it to the IPv4 send path.
pub fn send(
    context: &mut ProtocolStackContext,
    devices: &mut NetDevices,
    ty: IcmpType,
    code: u8,
    values: u32,
    data: &[u8],
    src: Ipv4Address,
    dst: Ipv4Address,
    now: u64,
) -> (r: Result<(), NetError>)
    requires
        old(context).arp_cache.wf(),
        data@.len() + 8 <= IPV4_PAYLOAD_MAX_LENGTH,
        forall|i: int| 0 <= i < old(devices)@.len() ==> (#[trigger] old(devices)@[i]).wf(),
    ensures
        final(context).arp_cache.wf(),
        final(devices)@.len() == old(devices)@.len(),
        forall|i: int| 0 <= i < final(devices)@.len() ==> (#[trigger] final(devices)@[i]).wf(),
        spec_send_effect(
            *old(context),
            *final(context),
            old(devices)@,
            final(devices)@,
            TransportProtocolNumber::Icmp,
            spec_icmp_message_bytes(ty, code, values, data@),
            src,
            dst,
            now,
            r,
        ),
{
    let header0 = IcmpHeader { ty, code, checksum: 0, values };
    let mut buffer = header0.to_bytes();
    buffer.extend_from_slice(data);
    let checksum = calculate_checksum(buffer.as_slice(), 0);
    let header = IcmpHeader { checksum, ..header0 };
    let mut message = header.to_bytes();
    message.extend_from_slice(data);
    proof {
        assert(buffer@ == header0.spec_to_bytes() + data@);
        assert(checksum == checksum_spec(header0.spec_to_bytes() + data@, 0));
        assert(message@ == header.spec_to_bytes() + data@);
        assert(message@ =~= spec_icmp_message_bytes(ty, code, values, data@));
    }
    crate::protocols::ipv4::send(
        context,
        devices,
        TransportProtocolNumber::Icmp,
        message.as_slice(),
        src,
        dst,
        now,
    )
}

/// What the ICMP ingress path does with one message: an echo request is
/// answered with an echo reply carrying the request's code, values and
/// payload, source and destination swapped; everything else is dropped.
pub open spec fn spec_icmp_recv_effect(
    ctx0: ProtocolStackContext,
    ctx1: ProtocolStackContext,
    devs0: Seq<NetDevice>,
    devs1: Seq<NetDevice>,
    data: Seq<u8>,
    src: Ipv4Address,
    dst: Ipv4Address,
    now: u64,
    r: Result<(), NetError>,
) -> bool {
    if data.len() < 8 {
        r == Err::<(), NetError>(NetError::FrameTooShort) && ctx1 == ctx0 && devs1 == devs0
    } else if !IcmpType::spec_known(data[0]) {
        r == Err::<(), NetError>(NetError::UnknownProtocol) && ctx1 == ctx0 && devs1 == devs0
    } else if IcmpType::spec_from_u8(data[0]) == IcmpType::Echo {
        spec_send_effect(
            ctx0,
            ctx1,
            devs0,
            devs1,
            TransportProtocolNumber::Icmp,
            spec_icmp_message_bytes(
                IcmpType::EchoReply,
                data[1],
                crate::utils::spec_be32(data[4], data[5], data[6], data[7]),
                data.skip(8),
            ),
            dst,
            src,
            now,
            r,
        )
    } else {
        r == Ok::<(), NetError>(()) && ctx1 == ctx0 && devs1 == devs0
    }
}

/// The ICMP ingress path: parse the header and answer an echo request.
pub fn recv(
    context: &mut ProtocolStackContext,
    devices: &mut NetDevices,
    data: &[u8],
    src: Ipv4Address,
    dst: Ipv4Address,
    now: u64,
) -> (r: Result<(), NetError>)
    requires
        old(context).arp_cache.wf(),
        data@.len() <= IPV4_PAYLOAD_MAX_LENGTH,
        forall|i: int| 0 <= i < old(devices)@.len() ==> (#[trigger] old(devices)@[i]).wf(),
    ensures
        final(context).arp_cache.wf(),
        final(devices)@.len() == old(devices)@.len(),
        forall|i: int| 0 <= i < final(devices)@.len() ==> (#[trigger] final(devices)@[i]).wf(),
        spec_icmp_recv_effect(
            *old(context),
            *final(context),
            old(devices)@,
            final(devices)@,
            data@,
            src,
            dst,
            now,
            r,
        ),
{
    let header = match IcmpHeader::from_bytes(data) {
        Ok(header) => header,
        Err(e) => {
            return Err(e);
        },
    };
    if header.ty == IcmpType::Echo {
        let payload = &data[8..data.len()];
        proof {
            assert(payload@ =~= data@.skip(8));
        }
        send(
            context,
            devices,
            IcmpType::EchoReply,
            header.code,
            header.values,
            payload,
            dst,
            src,
            now,
        )
    } else {
        Ok(())
    }
}

} // verus!
