use vstd::prelude::*;
use crate::addr::SocketAddress;
use crate::error::TcpError;
use crate::packet::tcp_header::{
    new_tcp_header, tcp_checksum_v4, tcp_header_bytes, tcp_header_wf, tcp_with_checksum, TcpHeader,
};

verus! {

/// One TCP segment: a header with its checksum filled in, and the payload
/// bytes that follow it on the wire.
pub struct TcpSegment {
    pub header: TcpHeader,
    pub payload: Vec<u8>,
}

/// The header a finished segment carries: the fresh header for these
/// endpoints with the IPv4 checksum stored.
pub open spec fn segment_header(
    source_addr: SocketAddress,
    dest_addr: SocketAddress,
    seq_num: u32,
    ack_num: u32,
    flags: u8,
    payload: Seq<u8>,
) -> TcpHeader {
    let h = new_tcp_header(source_addr.port, dest_addr.port, seq_num, ack_num, flags);
    tcp_with_checksum(
        h,
        tcp_checksum_v4(h, source_addr.ip.v4(), dest_addr.ip.v4(), payload) as u16,
    )
}

impl TcpSegment {
    /// Build a segment between two endpoints, computing and attaching the
    /// TCP checksum. Differing address families are a reported error, and
    /// an IPv6 pair is a known unimplemented variant.
    pub fn new(
        source_addr: SocketAddress,
        dest_addr: SocketAddress,
        seq_num: u32,
        ack_num: u32,
        flags: u8,
        payload: Vec<u8>,
    ) -> (r: Result<TcpSegment, TcpError>)
        requires
            payload@.len() <= 65515,
        ensures
            source_addr.ip.is_v4() && dest_addr.ip.is_v4() ==> r is Ok && r->Ok_0.header
                == segment_header(source_addr, dest_addr, seq_num, ack_num, flags, payload@)
                && r->Ok_0.payload@ == payload@ && tcp_header_wf(r->Ok_0.header),
            source_addr.ip.is_v4() != dest_addr.ip.is_v4() ==> r == Err::<TcpSegment, TcpError>(
                TcpError::AddressFamilyMismatch,
            ),
            !source_addr.ip.is_v4() && !dest_addr.ip.is_v4() ==> r == Err::<TcpSegment, TcpError>(
                TcpError::Unsupported,
            ),
    {
        let mut header = TcpHeader::new(source_addr.port, dest_addr.port, seq_num, ack_num, flags);
        match header.calculate_checksum(&source_addr.ip, &dest_addr.ip, payload.as_slice()) {
            Ok(()) => Ok(TcpSegment { header, payload }),
            Err(e) => Err(e),
        }
    }

    /// The wire bytes of the segment: the 20 header bytes, then the
    /// payload.
    pub fn to_bytes(&self) -> (r: Vec<u8>)
        requires
            tcp_header_wf(self.header),
        ensures
            r@ == tcp_header_bytes(self.header) + self.payload@,
    {
        let mut packet = self.header.to_bytes();
        let mut i: usize = 0;
        while i < self.payload.len()
            invariant
                i <= self.payload@.len(),
                tcp_header_wf(self.header),
                packet@ == tcp_header_bytes(self.header) + self.payload@.take(i as int),
            decreases self.payload@.len() - i,
        {
            packet.push(self.payload[i]);
            proof {
                assert(tcp_header_bytes(self.header) + self.payload@.take(i + 1) =~= (
                tcp_header_bytes(self.header) + self.payload@.take(i as int)).push(
                    self.payload@[i as int],
                ));
            }
            i = i + 1;
        }
        proof {
            assert(self.payload@.take(self.payload@.len() as int) =~= self.payload@);
        }
        packet
    }
}

} // verus!
