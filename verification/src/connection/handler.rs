use vstd::prelude::*;
use crate::addr::{IpAddress, SocketAddress};
use crate::connection::state::TcpState;
use crate::error::TcpError;
use crate::packet::ip_header::{
    ip_checksum, ip_header_bytes, ip_with_checksum, parse_ip_header, IpHeader,
};
use crate::packet::segment::{segment_header, TcpSegment};
use crate::packet::tcp_header::{
    parse_tcp_header, tcp_header_bytes, TcpHeader, TCP_ACK, TCP_PSH, TCP_SYN,
};

verus! {

/// One raw TCP connection: the state machine that sequences the
/// SYN/SYN-ACK/ACK handshake and gates data transmission on having
/// reached the established state. It owns no socket: it turns events
/// into wire bytes for a transmission capability to carry.
pub struct TcpConnection {
    pub state: TcpState,
    pub local_addr: SocketAddress,
    pub remote_addr: SocketAddress,
    pub seq_num: u32,
    pub ack_num: u32,
    pub window_size: u32,
}

/// Both endpoints are IPv4, the only family whose checksum this scope
/// computes.
pub open spec fn is_v4_pair(c: TcpConnection) -> bool {
    c.local_addr.ip.is_v4() && c.remote_addr.ip.is_v4()
}

/// The IPv4 header an outbound packet carries for `tcp_len` TCP bytes,
/// checksum computed and stored.
pub open spec fn outbound_ip_header(
    local: SocketAddress,
    remote: SocketAddress,
    tcp_len: int,
) -> IpHeader {
    let h = IpHeader {
        version: 4,
        ihl: 5,
        tos: 0,
        length: (20 + tcp_len) as u16,
        id: 0,
        flags_fragment: 0,
        ttl: 64,
        protocol: 6,
        checksum: 0,
        src: local.ip.v4(),
        dest: remote.ip.v4(),
    };
    ip_with_checksum(h, ip_checksum(h) as u16)
}

/// The full wire bytes of an outbound packet of this connection: IPv4
/// header, TCP header with its checksum attached, then the payload.
pub open spec fn outbound_packet(c: TcpConnection, flags: u8, payload: Seq<u8>) -> Seq<u8> {
    ip_header_bytes(outbound_ip_header(c.local_addr, c.remote_addr, 20 + payload.len() as int))
        + tcp_header_bytes(
        segment_header(c.local_addr, c.remote_addr, c.seq_num, c.ack_num, flags, payload),
    ) + payload
}

/// The acknowledgment number after a peer segment: its sequence number
/// plus one, in 32-bit sequence arithmetic.
pub open spec fn ack_after(h: TcpHeader) -> u32 {
    ((h.seq_num + 1) % 0x100000000) as u32
}

/// The inbound header that completes the handshake: the connection is
/// awaiting one, the flags are exactly SYN|ACK, and the ports match the
/// connection's tuple.
pub open spec fn expected_syn_ack(c: TcpConnection, h: TcpHeader) -> bool {
    &&& c.state == TcpState::SynSent
    &&& h.flags == (TCP_SYN | TCP_ACK)
    &&& h.source_port == c.remote_addr.port
    &&& h.dest_port == c.local_addr.port
}

/// An inbound raw packet that qualifies during handshake polling: long
/// enough for both headers, sent from the expected peer address, and its
/// TCP header is the expected SYN|ACK for this tuple.
pub open spec fn inbound_matches(c: TcpConnection, pkt: Seq<u8>) -> bool {
    &&& pkt.len() >= 40
    &&& parse_ip_header(pkt)->0.src == c.remote_addr.ip.v4()
    &&& {
        let h = parse_tcp_header(pkt.skip(20))->0;
        &&& h.flags == (TCP_SYN | TCP_ACK)
        &&& h.source_port == c.remote_addr.port
        &&& h.dest_port == c.local_addr.port
    }
}

/// Relies on rand::random for a fresh 32-bit value; nothing is promised
/// of the value itself.
#[verifier::external_body]
fn random_seq_num() -> u32 {
    rand::random::<u32>()
}

/// Copy the bytes of a packet from `start` onward, so an inner header can
/// be decoded.
fn packet_tail(pkt: &Vec<u8>, start: usize) -> (r: Vec<u8>)
    requires
        start <= pkt@.len(),
    ensures
        r@ == pkt@.skip(start as int),
{
    let mut r: Vec<u8> = Vec::new();
    let mut i: usize = start;
    while i < pkt.len()
        invariant
            start <= i <= pkt@.len(),
            r@ == pkt@.subrange(start as int, i as int),
        decreases pkt@.len() - i,
    {
        r.push(pkt[i]);
        i = i + 1;
    }
    proof {
        assert(pkt@.subrange(start as int, pkt@.len() as int) =~= pkt@.skip(start as int));
    }
    r
}

impl TcpConnection {
    /// A connection between two endpoints in the Closed state, with the
    /// given initial sequence number and a zero acknowledgment number.
    pub fn new(local_addr: SocketAddress, remote_addr: SocketAddress, initial_seq: u32) -> (c:
        TcpConnection)
        ensures
            c == (TcpConnection {
                state: TcpState::Closed,
                local_addr,
                remote_addr,
                seq_num: initial_seq,
                ack_num: 0,
                window_size: 65535,
            }),
    {
        TcpConnection {
            state: TcpState::Closed,
            local_addr,
            remote_addr,
            seq_num: initial_seq,
            ack_num: 0,
            window_size: 65535,
        }
    }

    /// The connect operation's creation step: a Closed connection whose
    /// initial sequence number is a cryptographically-insignificant
    /// random 32-bit value.
    pub fn connect(local_addr: SocketAddress, remote_addr: SocketAddress) -> (c: TcpConnection)
        ensures
            c.state == TcpState::Closed,
            c.local_addr == local_addr,
            c.remote_addr == remote_addr,
            c.ack_num == 0,
            c.window_size == 65535,
    {
        TcpConnection::new(local_addr, remote_addr, random_seq_num())
    }

    /// Build the wire bytes of one outbound packet carrying the given
    /// flags and payload at the connection's current counters. Differing
    /// address families are a reported error; an IPv6 pair is a known
    /// unimplemented variant.
    fn build_packet(&self, flags: u8, payload: Vec<u8>) -> (r: Result<Vec<u8>, TcpError>)
        requires
            payload@.len() <= 65495,
        ensures
            is_v4_pair(*self) ==> r is Ok && r->Ok_0@ == outbound_packet(*self, flags, payload@),
            self.local_addr.ip.is_v4() != self.remote_addr.ip.is_v4() ==> r == Err::<
                Vec<u8>,
                TcpError,
            >(TcpError::AddressFamilyMismatch),
            !self.local_addr.ip.is_v4() && !self.remote_addr.ip.is_v4() ==> r == Err::<
                Vec<u8>,
                TcpError,
            >(TcpError::Unsupported),
    {
        match (self.local_addr.ip, self.remote_addr.ip) {
            (IpAddress::V4(src), IpAddress::V4(dst)) => {
                let payload_len = payload.len();
                let seg = match TcpSegment::new(
                    self.local_addr,
                    self.remote_addr,
                    self.seq_num,
                    self.ack_num,
                    flags,
                    payload,
                ) {
                    Ok(s) => s,
                    Err(e) => { return Err(e) },
                };
                let mut ip_header = IpHeader::new(src, dst, 20 + payload_len as u16);
                ip_header.calculate_checksum();
                let mut packet = ip_header.to_bytes();
                let mut tcp_part = seg.to_bytes();
                packet.append(&mut tcp_part);
                proof {
                    assert(packet@ =~= outbound_packet(*self, flags, payload@));
                }
                Ok(packet)
            },
            (IpAddress::V4(_), IpAddress::V6(_)) => Err(TcpError::AddressFamilyMismatch),
            (IpAddress::V6(_), IpAddress::V4(_)) => Err(TcpError::AddressFamilyMismatch),
            (IpAddress::V6(_), IpAddress::V6(_)) => Err(TcpError::Unsupported),
        }
    }

    /// Start the handshake from Closed: build the SYN packet with the
    /// connection's initial sequence number and move to SynSent. On a
    /// reported address-family error the connection is left untouched.
    pub fn send_sync(&mut self) -> (r: Result<Vec<u8>, TcpError>)
        requires
            old(self).state == TcpState::Closed,
        ensures
            is_v4_pair(*old(self)) ==> r is Ok && r->Ok_0@ == outbound_packet(
                *old(self),
                TCP_SYN,
                Seq::empty(),
            ) && *final(self) == (TcpConnection { state: TcpState::SynSent, ..*old(self) }),
            !is_v4_pair(*old(self)) ==> r is Err && *final(self) == *old(self),
            old(self).local_addr.ip.is_v4() != old(self).remote_addr.ip.is_v4() ==> r == Err::<
                Vec<u8>,
                TcpError,
            >(TcpError::AddressFamilyMismatch),
            !old(self).local_addr.ip.is_v4() && !old(self).remote_addr.ip.is_v4() ==> r == Err::<
                Vec<u8>,
                TcpError,
            >(TcpError::Unsupported),
    {
        let packet = match self.build_packet(TCP_SYN, Vec::new()) {
            Ok(p) => p,
            Err(e) => { return Err(e) },
        };
        self.state = TcpState::SynSent;
        Ok(packet)
    }

    /// Build the bare ACK packet acknowledging the peer at the current
    /// counters.
    pub fn send_ack(&self) -> (r: Result<Vec<u8>, TcpError>)
        ensures
            is_v4_pair(*self) ==> r is Ok && r->Ok_0@ == outbound_packet(
                *self,
                TCP_ACK,
                Seq::empty(),
            ),
            self.local_addr.ip.is_v4() != self.remote_addr.ip.is_v4() ==> r == Err::<
                Vec<u8>,
                TcpError,
            >(TcpError::AddressFamilyMismatch),
            !self.local_addr.ip.is_v4() && !self.remote_addr.ip.is_v4() ==> r == Err::<
                Vec<u8>,
                TcpError,
            >(TcpError::Unsupported),
    {
        self.build_packet(TCP_ACK, Vec::new())
    }

    /// One handshake decision. A header that is not the awaited SYN|ACK
    /// for this tuple is discarded with no change. The awaited header
    /// sets the acknowledgment counter to the peer's sequence number plus
    /// one, moves to Established, and yields the ACK packet to transmit.
    pub fn handle_handshake_packet(&mut self, header: &TcpHeader) -> (r: Result<
        Option<Vec<u8>>,
        TcpError,
    >)
        ensures
            !expected_syn_ack(*old(self), *header) ==> r == Ok::<Option<Vec<u8>>, TcpError>(None)
                && *final(self) == *old(self),
            expected_syn_ack(*old(self), *header) && is_v4_pair(*old(self)) ==> r is Ok
                && r->Ok_0 is Some && r->Ok_0->0@ == outbound_packet(
                TcpConnection { ack_num: ack_after(*header), ..*old(self) },
                TCP_ACK,
                Seq::empty(),
            ) && *final(self) == (TcpConnection {
                state: TcpState::Established,
                ack_num: ack_after(*header),
                ..*old(self)
            }),
            expected_syn_ack(*old(self), *header) && !is_v4_pair(*old(self)) ==> r is Err
                && *final(self) == (TcpConnection { ack_num: ack_after(*header), ..*old(self) }),
            expected_syn_ack(*old(self), *header) && old(self).local_addr.ip.is_v4()
                != old(self).remote_addr.ip.is_v4() ==> r == Err::<Option<Vec<u8>>, TcpError>(
                TcpError::AddressFamilyMismatch,
            ),
            expected_syn_ack(*old(self), *header) && !old(self).local_addr.ip.is_v4()
                && !old(self).remote_addr.ip.is_v4() ==> r == Err::<Option<Vec<u8>>, TcpError>(
                TcpError::Unsupported,
            ),
    {
        match self.state {
            TcpState::SynSent => {
                if header.flags == (TCP_SYN | TCP_ACK) && header.source_port
                    == self.remote_addr.port && header.dest_port == self.local_addr.port {
                    if header.seq_num == u32::MAX {
                        self.ack_num = 0;
                    } else {
                        self.ack_num = header.seq_num + 1;
                    }
                    match self.send_ack() {
                        Ok(packet) => {
                            self.state = TcpState::Established;
                            Ok(Some(packet))
                        },
                        Err(e) => Err(e),
                    }
                } else {
                    Ok(None)
                }
            },
            _ => Ok(None),
        }
    }

    /// The handshake polling decisions over the inbound packets the
    /// capability handed over before the deadline, in arrival order. Too
    /// short, mis-addressed or unexpected packets are discarded. The
    /// first qualifying SYN|ACK completes the handshake and yields the
    /// ACK packet to transmit; if none qualifies the attempt times out
    /// with a connection error and the connection stays in SynSent.
    pub fn perform_handshake(&mut self, inbound: &Vec<Vec<u8>>) -> (r: Result<Vec<u8>, TcpError>)
        requires
            old(self).state == TcpState::SynSent,
            is_v4_pair(*old(self)),
        ensures
            r is Err ==> r == Err::<Vec<u8>, TcpError>(TcpError::ConnectionError) && *final(self)
                == *old(self) && forall|j: int|
                0 <= j < inbound@.len() ==> !inbound_matches(*old(self), #[trigger] inbound@[j]@),
            r is Ok ==> exists|j: int|
                {
                    &&& 0 <= j < inbound@.len()
                    &&& #[trigger] inbound_matches(*old(self), inbound@[j]@)
                    &&& forall|k: int|
                        0 <= k < j ==> !inbound_matches(*old(self), #[trigger] inbound@[k]@)
                    &&& *final(self) == (TcpConnection {
                        state: TcpState::Established,
                        ack_num: ack_after(parse_tcp_header(inbound@[j]@.skip(20))->0),
                        ..*old(self)
                    })
                    &&& r->Ok_0@ == outbound_packet(
                        TcpConnection {
                            ack_num: ack_after(parse_tcp_header(inbound@[j]@.skip(20))->0),
                            ..*old(self)
                        },
                        TCP_ACK,
                        Seq::empty(),
                    )
                },
    {
        let n = inbound.len();
        let mut idx: usize = 0;
        while idx < n
            invariant
                idx <= n,
                n == inbound@.len(),
                *self == *old(self),
                self.state == TcpState::SynSent,
                is_v4_pair(*self),
                forall|k: int| 0 <= k < idx ==> !inbound_matches(*old(self), #[trigger] inbound@[k]@),
            decreases n - idx,
        {
            let pkt = &inbound[idx];
            if pkt.len() >= 40 {
                let ip = match IpHeader::from_bytes(pkt.as_slice()) {
                    Some(h) => h,
                    // unreachable: the packet holds at least 40 bytes
                    None => { return Err(TcpError::InvalidPacket) },
                };
                let remote4 = match self.remote_addr.ip {
                    IpAddress::V4(a) => a,
                    // unreachable: both endpoints are IPv4 here
                    IpAddress::V6(_) => { return Err(TcpError::AddressFamilyMismatch) },
                };
                if ip.src == remote4 {
                    let tail = packet_tail(pkt, 20);
                    match TcpHeader::from_bytes(tail.as_slice()) {
                        Some(hdr) => {
                            match self.handle_handshake_packet(&hdr) {
                                Ok(Some(ack)) => {
                                    proof {
                                        assert(inbound_matches(*old(self), inbound@[idx as int]@));
                                    }
                                    return Ok(ack);
                                },
                                Ok(None) => {},
                                // unreachable: an IPv4 pair always builds its ACK
                                Err(e) => { return Err(e) },
                            }
                        },
                        // unreachable: at least 20 bytes follow the IP header
                        None => { return Err(TcpError::InvalidPacket) },
                    }
                }
            }
            proof {
                assert(!inbound_matches(*old(self), inbound@[idx as int]@));
            }
            idx = idx + 1;
        }
        Err(TcpError::ConnectionError)
    }

    /// Build one data segment at the current counters, flags PSH|ACK,
    /// carrying the payload. Only an established connection may send:
    /// in Closed or SynSent this is a connection-state violation and no
    /// bytes are produced.
    pub fn send(&mut self, data: &[u8]) -> (r: Result<Vec<u8>, TcpError>)
        requires
            data@.len() <= 65495,
        ensures
            old(self).state != TcpState::Established ==> r == Err::<Vec<u8>, TcpError>(
                TcpError::ConnectionError,
            ) && *final(self) == *old(self),
            old(self).state == TcpState::Established && is_v4_pair(*old(self)) ==> r is Ok
                && r->Ok_0@ == outbound_packet(*old(self), TCP_PSH | TCP_ACK, data@)
                && *final(self) == *old(self),
            old(self).state == TcpState::Established && !is_v4_pair(*old(self)) ==> r is Err
                && *final(self) == *old(self),
    {
        if !(self.state == TcpState::Established) {
            return Err(TcpError::ConnectionError);
        }
        self.send_data(data)
    }

    /// Build the PSH|ACK data packet; the state gate lives in `send`.
    fn send_data(&mut self, data: &[u8]) -> (r: Result<Vec<u8>, TcpError>)
        requires
            data@.len() <= 65495,
        ensures
            is_v4_pair(*old(self)) ==> r is Ok && r->Ok_0@ == outbound_packet(
                *old(self),
                TCP_PSH | TCP_ACK,
                data@,
            ),
            !is_v4_pair(*old(self)) ==> r is Err,
            *final(self) == *old(self),
    {
        let mut payload: Vec<u8> = Vec::new();
        let mut i: usize = 0;
        while i < data.len()
            invariant
                i <= data@.len(),
                payload@ == data@.take(i as int),
            decreases data@.len() - i,
        {
            payload.push(data[i]);
            i = i + 1;
        }
        proof {
            assert(data@.take(data@.len() as int) =~= data@);
        }
        self.build_packet(TCP_PSH | TCP_ACK, payload)
    }

    /// Record that the transmission capability accepted `accepted`
    /// payload bytes: the local sequence counter advances by exactly that
    /// count, in 32-bit sequence arithmetic.
    pub fn advance_seq(&mut self, accepted: u32)
        ensures
            *final(self) == (TcpConnection {
                seq_num: ((old(self).seq_num + accepted) % 0x100000000) as u32,
                ..*old(self)
            }),
    {
        if accepted <= u32::MAX - self.seq_num {
            self.seq_num = self.seq_num + accepted;
        } else {
            self.seq_num = accepted - (u32::MAX - self.seq_num) - 1;
        }
    }
}

} // verus!
