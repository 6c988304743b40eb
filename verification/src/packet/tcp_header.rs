use vstd::prelude::*;
use crate::addr::{IpAddress, Ipv4Address};
use crate::error::TcpError;
use crate::utils::{
    be16_hi, be16_lo, be32_b0, be32_b1, be32_b2, be32_b3, checksum_finalize, fold16,
    fold_checksum, lemma_be32_roundtrip, lemma_fold16_bounds, lemma_fold_complement,
    lemma_word_sum_bound, lemma_word_sum_differs_at_word, lemma_word_sum_even_concat,
    lemma_word_sum_nonneg, sum_bytes_as_u32, word_sum,
};
use vstd::arithmetic::div_mod::lemma_fundamental_div_mod;

verus! {

pub const TCP_FIN: u8 = 0x01;

pub const TCP_SYN: u8 = 0x02;

pub const TCP_RST: u8 = 0x04;

pub const TCP_PSH: u8 = 0x08;

pub const TCP_ACK: u8 = 0x10;

/// A fixed 20-byte TCP segment header, no options. The data-offset,
/// reserved and flag fields share one 16-bit word, split 4/4/8.
#[derive(Clone, Copy, Debug, PartialEq, Eq, Structural)]
pub struct TcpHeader {
    pub source_port: u16,
    pub dest_port: u16,
    pub seq_num: u32,
    pub ack_num: u32,
    pub data_offset: u8,
    pub flags: u8,
    pub reserved: u8,
    pub window_size: u16,
    pub checksum: u16,
    pub urgent_ptr: u16,
}

/// The fields that share a word stay inside their bit widths.
pub open spec fn tcp_header_wf(h: TcpHeader) -> bool {
    h.data_offset < 16 && h.reserved < 16
}

/// The 20 wire bytes of a header, big-endian fields in order.
pub open spec fn tcp_header_bytes(h: TcpHeader) -> Seq<u8> {
    seq![
        be16_hi(h.source_port),
        be16_lo(h.source_port),
        be16_hi(h.dest_port),
        be16_lo(h.dest_port),
        be32_b0(h.seq_num),
        be32_b1(h.seq_num),
        be32_b2(h.seq_num),
        be32_b3(h.seq_num),
        be32_b0(h.ack_num),
        be32_b1(h.ack_num),
        be32_b2(h.ack_num),
        be32_b3(h.ack_num),
        (h.data_offset * 16 + h.reserved) as u8,
        h.flags,
        be16_hi(h.window_size),
        be16_lo(h.window_size),
        be16_hi(h.checksum),
        be16_lo(h.checksum),
        be16_hi(h.urgent_ptr),
        be16_lo(h.urgent_ptr),
    ]
}

pub open spec fn parse_u16(s: Seq<u8>, i: int) -> u16 {
    (s[i] * 256 + s[i + 1]) as u16
}

pub open spec fn parse_u32(s: Seq<u8>, i: int) -> u32 {
    (s[i] * 0x1000000 + s[i + 1] * 0x10000 + s[i + 2] * 256 + s[i + 3]) as u32
}

/// The inverse of the wire layout: what decoding a byte sequence yields.
/// Fewer than 20 bytes decode to nothing.
pub open spec fn parse_tcp_header(s: Seq<u8>) -> Option<TcpHeader> {
    if s.len() < 20 {
        None
    } else {
        Some(
            TcpHeader {
                source_port: parse_u16(s, 0),
                dest_port: parse_u16(s, 2),
                seq_num: parse_u32(s, 4),
                ack_num: parse_u32(s, 8),
                data_offset: s[12] / 16,
                reserved: s[12] % 16,
                flags: s[13],
                window_size: parse_u16(s, 14),
                checksum: parse_u16(s, 16),
                urgent_ptr: parse_u16(s, 18),
            },
        )
    }
}

/// The pseudo-header words of the TCP checksum: the two halves of each
/// address, the protocol number zero-extended, and the segment length.
pub open spec fn pseudo_header_sum(src: Ipv4Address, dst: Ipv4Address, tcp_len: int) -> int {
    src.o0 * 256 + src.o1 + src.o2 * 256 + src.o3 + dst.o0 * 256 + dst.o1 + dst.o2 * 256 + dst.o3
        + 6 + tcp_len
}

pub open spec fn tcp_with_checksum(h: TcpHeader, c: u16) -> TcpHeader {
    TcpHeader { checksum: c, ..h }
}

/// The full accumulator input of the IPv4 TCP checksum: pseudo-header,
/// header with its checksum field zeroed, and payload.
pub open spec fn tcp_checksum_input(
    h: TcpHeader,
    src: Ipv4Address,
    dst: Ipv4Address,
    payload: Seq<u8>,
) -> int {
    pseudo_header_sum(src, dst, 20 + payload.len() as int) + word_sum(
        tcp_header_bytes(tcp_with_checksum(h, 0)),
    ) + word_sum(payload)
}

/// The finished IPv4 TCP checksum of a header (its own checksum ignored).
pub open spec fn tcp_checksum_v4(
    h: TcpHeader,
    src: Ipv4Address,
    dst: Ipv4Address,
    payload: Seq<u8>,
) -> int {
    checksum_finalize(tcp_checksum_input(h, src, dst, payload))
}

/// The header a fresh segment starts from: data-offset fixed at 5 (no
/// options), reserved bits clear, the full 16-bit window advertised,
/// checksum not yet computed.
pub open spec fn new_tcp_header(
    source_port: u16,
    dest_port: u16,
    seq_num: u32,
    ack_num: u32,
    flags: u8,
) -> TcpHeader {
    TcpHeader {
        source_port,
        dest_port,
        seq_num,
        ack_num,
        data_offset: 5,
        flags,
        reserved: 0,
        window_size: 65535,
        checksum: 0,
        urgent_ptr: 0,
    }
}

impl TcpHeader {
    /// A fresh header: data-offset fixed at 5 (no options), reserved bits
    /// clear, the full 16-bit window advertised, checksum not yet computed.
    pub fn new(source_port: u16, dest_port: u16, seq_num: u32, ack_num: u32, flags: u8) -> (r:
        TcpHeader)
        ensures
            r == new_tcp_header(source_port, dest_port, seq_num, ack_num, flags),
            tcp_header_wf(r),
    {
        TcpHeader {
            source_port,
            dest_port,
            seq_num,
            ack_num,
            data_offset: 5,
            flags,
            reserved: 0,
            window_size: 65535,
            checksum: 0,
            urgent_ptr: 0,
        }
    }

    /// Encode into exactly 20 big-endian wire bytes.
    pub fn to_bytes(&self) -> (r: Vec<u8>)
        requires
            tcp_header_wf(*self),
        ensures
            r@ == tcp_header_bytes(*self),
            r@.len() == 20,
    {
        let mut bytes: Vec<u8> = Vec::new();
        bytes.push((self.source_port / 256) as u8);
        bytes.push((self.source_port % 256) as u8);
        bytes.push((self.dest_port / 256) as u8);
        bytes.push((self.dest_port % 256) as u8);
        bytes.push((self.seq_num / 0x1000000) as u8);
        bytes.push(((self.seq_num / 0x10000) % 256) as u8);
        bytes.push(((self.seq_num / 256) % 256) as u8);
        bytes.push((self.seq_num % 256) as u8);
        bytes.push((self.ack_num / 0x1000000) as u8);
        bytes.push(((self.ack_num / 0x10000) % 256) as u8);
        bytes.push(((self.ack_num / 256) % 256) as u8);
        bytes.push((self.ack_num % 256) as u8);
        bytes.push(self.data_offset * 16 + self.reserved);
        bytes.push(self.flags);
        bytes.push((self.window_size / 256) as u8);
        bytes.push((self.window_size % 256) as u8);
        bytes.push((self.checksum / 256) as u8);
        bytes.push((self.checksum % 256) as u8);
        bytes.push((self.urgent_ptr / 256) as u8);
        bytes.push((self.urgent_ptr % 256) as u8);
        proof {
            assert(bytes@ =~= tcp_header_bytes(*self));
        }
        bytes
    }

    /// Decode the first 20 bytes as the exact inverse of `to_bytes`;
    /// fewer than 20 bytes yield nothing.
    pub fn from_bytes(bytes: &[u8]) -> (r: Option<TcpHeader>)
        ensures
            r == parse_tcp_header(bytes@),
            bytes@.len() < 20 <==> r is None,
            r is Some ==> tcp_header_wf(r->0),
    {
        if bytes.len() < 20 {
            return None;
        }
        let header = TcpHeader {
            source_port: (bytes[0] as u16) * 256 + (bytes[1] as u16),
            dest_port: (bytes[2] as u16) * 256 + (bytes[3] as u16),
            seq_num: (bytes[4] as u32) * 0x1000000 + (bytes[5] as u32) * 0x10000 + (
            bytes[6] as u32) * 256 + (bytes[7] as u32),
            ack_num: (bytes[8] as u32) * 0x1000000 + (bytes[9] as u32) * 0x10000 + (
            bytes[10] as u32) * 256 + (bytes[11] as u32),
            data_offset: bytes[12] / 16,
            reserved: bytes[12] % 16,
            flags: bytes[13],
            window_size: (bytes[14] as u16) * 256 + (bytes[15] as u16),
            checksum: (bytes[16] as u16) * 256 + (bytes[17] as u16),
            urgent_ptr: (bytes[18] as u16) * 256 + (bytes[19] as u16),
        };
        Some(header)
    }

    /// Compute the checksum over pseudo-header, header and payload, and
    /// store it. Differing address families are a reported error, and the
    /// IPv6 checksum is a known unimplemented variant; either way the
    /// header is left untouched.
    pub fn calculate_checksum(&mut self, source_ip: &IpAddress, dest_ip: &IpAddress, payload: &[
        u8]) -> (r: Result<(), TcpError>)
        requires
            tcp_header_wf(*old(self)),
            payload@.len() <= 65515,
        ensures
            source_ip.is_v4() && dest_ip.is_v4() ==> r == Ok::<(), TcpError>(()) && *final(self)
                == tcp_with_checksum(
                *old(self),
                tcp_checksum_v4(*old(self), source_ip.v4(), dest_ip.v4(), payload@) as u16,
            ),
            source_ip.is_v4() != dest_ip.is_v4() ==> r == Err::<(), TcpError>(
                TcpError::AddressFamilyMismatch,
            ) && *final(self) == *old(self),
            !source_ip.is_v4() && !dest_ip.is_v4() ==> r == Err::<(), TcpError>(
                TcpError::Unsupported,
            ) && *final(self) == *old(self),
    {
        match (source_ip, dest_ip) {
            (IpAddress::V4(src), IpAddress::V4(dst)) => {
                self.checksum = 0;
                let header_bytes = self.to_bytes();
                proof {
                    lemma_word_sum_bound(header_bytes@);
                    lemma_word_sum_nonneg(header_bytes@);
                    lemma_word_sum_bound(payload@);
                    lemma_word_sum_nonneg(payload@);
                }
                let mut sum: u32 = 0;
                sum = sum + (src.o0 as u32) * 256 + (src.o1 as u32);
                sum = sum + (src.o2 as u32) * 256 + (src.o3 as u32);
                sum = sum + (dst.o0 as u32) * 256 + (dst.o1 as u32);
                sum = sum + (dst.o2 as u32) * 256 + (dst.o3 as u32);
                sum = sum + 6;
                sum = sum + 20 + payload.len() as u32;
                sum = sum + sum_bytes_as_u32(header_bytes.as_slice());
                sum = sum + sum_bytes_as_u32(payload);
                proof {
                    lemma_fold16_bounds(sum as int);
                }
                self.checksum = fold_checksum(sum);
                Ok(())
            },
            (IpAddress::V4(_), IpAddress::V6(_)) => Err(TcpError::AddressFamilyMismatch),
            (IpAddress::V6(_), IpAddress::V4(_)) => Err(TcpError::AddressFamilyMismatch),
            (IpAddress::V6(_), IpAddress::V6(_)) => Err(TcpError::Unsupported),
        }
    }
}

/// Decoding an encoded header gives the header back, for every header
/// whose packed fields lie within their bit widths.
pub proof fn lemma_tcp_header_roundtrip(h: TcpHeader)
    requires
        tcp_header_wf(h),
    ensures
        parse_tcp_header(tcp_header_bytes(h)) == Some(h),
{
    let s = tcp_header_bytes(h);
    assert(s.len() == 20);
    lemma_be32_roundtrip(h.seq_num);
    lemma_be32_roundtrip(h.ack_num);
    vstd::arithmetic::div_mod::lemma_fundamental_div_mod_converse(
        h.data_offset * 16 + h.reserved,
        16,
        h.data_offset as int,
        h.reserved as int,
    );
    lemma_fundamental_div_mod(h.source_port as int, 256);
    lemma_fundamental_div_mod(h.dest_port as int, 256);
    lemma_fundamental_div_mod(h.window_size as int, 256);
    lemma_fundamental_div_mod(h.checksum as int, 256);
    lemma_fundamental_div_mod(h.urgent_ptr as int, 256);
    assert(parse_tcp_header(s) == Some(h));
}

/// Summing every 16-bit word of the final segment bytes, the computed
/// checksum now included, together with the pseudo-header words, folds to
/// exactly 0xFFFF.
pub proof fn lemma_tcp_checksum_verifies(
    h: TcpHeader,
    src: Ipv4Address,
    dst: Ipv4Address,
    payload: Seq<u8>,
)
    requires
        tcp_header_wf(h),
        h.checksum == tcp_checksum_v4(h, src, dst, payload) as u16,
    ensures
        fold16(
            pseudo_header_sum(src, dst, 20 + payload.len() as int) + word_sum(
                tcp_header_bytes(h) + payload,
            ),
        ) == 0xFFFF,
{
    let h0 = tcp_with_checksum(h, 0);
    let a = tcp_header_bytes(h);
    let b = tcp_header_bytes(h0);
    let input = tcp_checksum_input(h, src, dst, payload);
    lemma_word_sum_nonneg(b);
    lemma_word_sum_nonneg(payload);
    lemma_fold16_bounds(input);
    assert(h.checksum == checksum_finalize(input));
    lemma_word_sum_differs_at_word(a, b, 8);
    lemma_fundamental_div_mod(h.checksum as int, 256);
    assert(word_sum(a) == word_sum(b) + h.checksum);
    lemma_word_sum_even_concat(a, payload);
    lemma_fold_complement(input);
}

} // verus!
