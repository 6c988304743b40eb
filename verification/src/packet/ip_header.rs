use vstd::prelude::*;
use crate::addr::Ipv4Address;
use crate::utils::{
    be16_hi, be16_lo, checksum_finalize, fold16, fold_checksum, lemma_fold16_bounds,
    lemma_fold_complement, lemma_word_sum_bound, lemma_word_sum_differs_at_word,
    lemma_word_sum_nonneg, sum_bytes_as_u32, word_sum,
};
use vstd::arithmetic::div_mod::lemma_fundamental_div_mod;
use crate::packet::tcp_header::parse_u16;

verus! {

/// A fixed 20-byte IPv4 header, no options: version is always 4 and the
/// header length always 5 words in this scope.
#[derive(Clone, Copy, Debug, PartialEq, Eq, Structural)]
pub struct IpHeader {
    pub version: u8,
    pub ihl: u8,
    pub tos: u8,
    pub length: u16,
    pub id: u16,
    pub flags_fragment: u16,
    pub ttl: u8,
    pub protocol: u8,
    pub checksum: u16,
    pub src: Ipv4Address,
    pub dest: Ipv4Address,
}

/// The fields that share a byte stay inside their bit widths.
pub open spec fn ip_header_wf(h: IpHeader) -> bool {
    h.version < 16 && h.ihl < 16
}

/// The 20 wire bytes of a header: version and header length packed into
/// byte 0, big-endian 16-bit fields, then the raw address octets.
pub open spec fn ip_header_bytes(h: IpHeader) -> Seq<u8> {
    seq![
        (h.version * 16 + h.ihl) as u8,
        h.tos,
        be16_hi(h.length),
        be16_lo(h.length),
        be16_hi(h.id),
        be16_lo(h.id),
        be16_hi(h.flags_fragment),
        be16_lo(h.flags_fragment),
        h.ttl,
        h.protocol,
        be16_hi(h.checksum),
        be16_lo(h.checksum),
        h.src.o0,
        h.src.o1,
        h.src.o2,
        h.src.o3,
        h.dest.o0,
        h.dest.o1,
        h.dest.o2,
        h.dest.o3,
    ]
}

/// The exact inverse of the wire layout; fewer than 20 bytes decode to
/// nothing.
pub open spec fn parse_ip_header(s: Seq<u8>) -> Option<IpHeader> {
    if s.len() < 20 {
        None
    } else {
        Some(
            IpHeader {
                version: s[0] / 16,
                ihl: s[0] % 16,
                tos: s[1],
                length: parse_u16(s, 2),
                id: parse_u16(s, 4),
                flags_fragment: parse_u16(s, 6),
                ttl: s[8],
                protocol: s[9],
                checksum: parse_u16(s, 10),
                src: Ipv4Address { o0: s[12], o1: s[13], o2: s[14], o3: s[15] },
                dest: Ipv4Address { o0: s[16], o1: s[17], o2: s[18], o3: s[19] },
            },
        )
    }
}

pub open spec fn ip_with_checksum(h: IpHeader, c: u16) -> IpHeader {
    IpHeader { checksum: c, ..h }
}

/// The finished header checksum: computed over the 20 header bytes with
/// the checksum field itself treated as zero.
pub open spec fn ip_checksum(h: IpHeader) -> int {
    checksum_finalize(word_sum(ip_header_bytes(ip_with_checksum(h, 0))))
}

impl IpHeader {
    /// A fresh header for a TCP payload of `add_length` bytes beyond the
    /// IP header itself: version 4, five words, TTL 64, protocol 6.
    pub fn new(source_addr: Ipv4Address, dest_addr: Ipv4Address, add_length: u16) -> (r: IpHeader)
        requires
            add_length <= 65515,
        ensures
            r == (IpHeader {
                version: 4,
                ihl: 5,
                tos: 0,
                length: (20 + add_length) as u16,
                id: 0,
                flags_fragment: 0,
                ttl: 64,
                protocol: 6,
                checksum: 0,
                src: source_addr,
                dest: dest_addr,
            }),
            ip_header_wf(r),
    {
        IpHeader {
            version: 4,
            ihl: 5,
            tos: 0,
            length: 20 + add_length,
            id: 0,
            flags_fragment: 0,
            ttl: 64,
            protocol: 6,
            checksum: 0,
            src: source_addr,
            dest: dest_addr,
        }
    }

    /// Encode into exactly 20 big-endian wire bytes.
    pub fn to_bytes(&self) -> (r: Vec<u8>)
        requires
            ip_header_wf(*self),
        ensures
            r@ == ip_header_bytes(*self),
            r@.len() == 20,
    {
        let mut bytes: Vec<u8> = Vec::new();
        bytes.push(self.version * 16 + self.ihl);
        bytes.push(self.tos);
        bytes.push((self.length / 256) as u8);
        bytes.push((self.length % 256) as u8);
        bytes.push((self.id / 256) as u8);
        bytes.push((self.id % 256) as u8);
        bytes.push((self.flags_fragment / 256) as u8);
        bytes.push((self.flags_fragment % 256) as u8);
        bytes.push(self.ttl);
        bytes.push(self.protocol);
        bytes.push((self.checksum / 256) as u8);
        bytes.push((self.checksum % 256) as u8);
        bytes.push(self.src.o0);
        bytes.push(self.src.o1);
        bytes.push(self.src.o2);
        bytes.push(self.src.o3);
        bytes.push(self.dest.o0);
        bytes.push(self.dest.o1);
        bytes.push(self.dest.o2);
        bytes.push(self.dest.o3);
        proof {
            assert(bytes@ =~= ip_header_bytes(*self));
        }
        bytes
    }

    /// Decode the first 20 bytes as the exact inverse of `to_bytes`;
    /// fewer than 20 bytes are a malformed input and yield nothing.
    pub fn from_bytes(bytes: &[u8]) -> (r: Option<IpHeader>)
        ensures
            r == parse_ip_header(bytes@),
            bytes@.len() < 20 <==> r is None,
            r is Some ==> ip_header_wf(r->0),
    {
        if bytes.len() < 20 {
            return None;
        }
        Some(
            IpHeader {
                version: bytes[0] / 16,
                ihl: bytes[0] % 16,
                tos: bytes[1],
                length: (bytes[2] as u16) * 256 + (bytes[3] as u16),
                id: (bytes[4] as u16) * 256 + (bytes[5] as u16),
                flags_fragment: (bytes[6] as u16) * 256 + (bytes[7] as u16),
                ttl: bytes[8],
                protocol: bytes[9],
                checksum: (bytes[10] as u16) * 256 + (bytes[11] as u16),
                src: Ipv4Address { o0: bytes[12], o1: bytes[13], o2: bytes[14], o3: bytes[15] },
                dest: Ipv4Address { o0: bytes[16], o1: bytes[17], o2: bytes[18], o3: bytes[19] },
            },
        )
    }

    /// Compute the header checksum over the 20 bytes with the checksum
    /// field zeroed, and store it back into the header.
    pub fn calculate_checksum(&mut self)
        requires
            ip_header_wf(*old(self)),
        ensures
            *final(self) == ip_with_checksum(*old(self), ip_checksum(*old(self)) as u16),
    {
        self.checksum = 0;
        let header = self.to_bytes();
        proof {
            lemma_word_sum_bound(header@);
            lemma_word_sum_nonneg(header@);
        }
        let sum: u32 = sum_bytes_as_u32(header.as_slice());
        proof {
            lemma_fold16_bounds(sum as int);
        }
        self.checksum = fold_checksum(sum);
    }
}

/// Decoding an encoded header gives the header back, for every header
/// whose packed fields lie within their bit widths.
pub proof fn lemma_ip_header_roundtrip(h: IpHeader)
    requires
        ip_header_wf(h),
    ensures
        parse_ip_header(ip_header_bytes(h)) == Some(h),
{
    let s = ip_header_bytes(h);
    assert(s.len() == 20);
    vstd::arithmetic::div_mod::lemma_fundamental_div_mod_converse(
        h.version * 16 + h.ihl,
        16,
        h.version as int,
        h.ihl as int,
    );
    lemma_fundamental_div_mod(h.length as int, 256);
    lemma_fundamental_div_mod(h.id as int, 256);
    lemma_fundamental_div_mod(h.flags_fragment as int, 256);
    lemma_fundamental_div_mod(h.checksum as int, 256);
    assert(parse_ip_header(s) == Some(h));
}

/// Summing every 16-bit word of the final wire bytes, the computed
/// checksum now included, folds to exactly 0xFFFF.
pub proof fn lemma_ip_checksum_verifies(h: IpHeader)
    requires
        ip_header_wf(h),
        h.checksum == ip_checksum(h) as u16,
    ensures
        fold16(word_sum(ip_header_bytes(h))) == 0xFFFF,
{
    let h0 = ip_with_checksum(h, 0);
    let a = ip_header_bytes(h);
    let b = ip_header_bytes(h0);
    let input = word_sum(b);
    lemma_word_sum_nonneg(b);
    lemma_fold16_bounds(input);
    assert(h.checksum == checksum_finalize(input));
    lemma_word_sum_differs_at_word(a, b, 5);
    lemma_fundamental_div_mod(h.checksum as int, 256);
    assert(word_sum(a) == input + h.checksum);
    lemma_fold_complement(input);
}

} // verus!
