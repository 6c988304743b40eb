use tcp::addr::{IpAddress, Ipv4Address};
use tcp::error::TcpError;
use tcp::packet::ip_header::IpHeader;
use tcp::packet::tcp_header::{TcpHeader, TCP_SYN};
use tcp::utils::{fold_checksum, sum_bytes_as_u32};

fn fold(mut sum: u32) -> u16 {
    while sum >> 16 != 0 {
        sum = (sum & 0xFFFF) + (sum >> 16);
    }
    sum as u16
}

#[test]
fn sum_of_empty_is_zero() {
    assert_eq!(sum_bytes_as_u32(&[]), 0);
}

#[test]
fn sum_pairs_bytes_big_endian() {
    assert_eq!(sum_bytes_as_u32(&[0x00, 0x01]), 0x0001);
    assert_eq!(sum_bytes_as_u32(&[0x12, 0x34, 0x56, 0x78]), 0x1234 + 0x5678);
}

#[test]
fn sum_zero_pads_trailing_byte() {
    assert_eq!(sum_bytes_as_u32(&[0xAB]), 0xAB00);
    assert_eq!(sum_bytes_as_u32(&[0x01, 0x02, 0x03]), 0x0102 + 0x0300);
}

#[test]
fn fold_checksum_exact_values() {
    assert_eq!(fold_checksum(0), 0xFFFF);
    assert_eq!(fold_checksum(0x0001), 0xFFFE);
    // 0x1FFFF folds to 0x10000, folds again to 0x0001, then complements.
    assert_eq!(fold_checksum(0x1FFFF), 0xFFFE);
    assert_eq!(fold_checksum(0xFFFF), 0x0000);
}

#[test]
fn ip_checksum_exact_value() {
    // All-zero addresses, no payload: words 0x4500, 0x0014, 0x4006; the
    // complement of their sum is 0x7AE5.
    let mut header = IpHeader::new(
        Ipv4Address::new(0, 0, 0, 0),
        Ipv4Address::new(0, 0, 0, 0),
        0,
    );
    header.calculate_checksum();
    assert_eq!(header.checksum, 0x7AE5);
}

#[test]
fn ip_wire_bytes_fold_to_all_ones() {
    let mut header = IpHeader::new(
        Ipv4Address::new(192, 168, 1, 7),
        Ipv4Address::new(10, 0, 0, 1),
        31,
    );
    header.calculate_checksum();
    let bytes = header.to_bytes();
    assert_eq!(fold(sum_bytes_as_u32(&bytes)), 0xFFFF);
}

#[test]
fn tcp_wire_bytes_fold_to_all_ones() {
    let src = Ipv4Address::new(192, 168, 1, 7);
    let dst = Ipv4Address::new(10, 0, 0, 1);
    let payload = [0xDEu8, 0xAD, 0xBE];
    let mut header = TcpHeader::new(40000, 80, 0x01020304, 0x0A0B0C0D, TCP_SYN);
    header
        .calculate_checksum(&IpAddress::V4(src), &IpAddress::V4(dst), &payload)
        .unwrap();
    let mut wire = header.to_bytes();
    wire.extend_from_slice(&payload);

    let mut sum: u32 = 0;
    for half in [
        u16::from_be_bytes([src.o0, src.o1]),
        u16::from_be_bytes([src.o2, src.o3]),
        u16::from_be_bytes([dst.o0, dst.o1]),
        u16::from_be_bytes([dst.o2, dst.o3]),
        6u16,
        (20 + payload.len()) as u16,
    ] {
        sum += half as u32;
    }
    sum += sum_bytes_as_u32(&wire);
    assert_eq!(fold(sum), 0xFFFF);
}

#[test]
fn tcp_checksum_family_mismatch_is_reported() {
    let v4 = IpAddress::V4(Ipv4Address::new(127, 0, 0, 1));
    let v6 = IpAddress::V6(tcp::addr::Ipv6Address { octets: [0; 16] });
    let mut header = TcpHeader::new(1, 2, 3, 4, TCP_SYN);
    let before = header;
    let r = header.calculate_checksum(&v4, &v6, &[]);
    assert_eq!(r, Err(TcpError::AddressFamilyMismatch));
    assert_eq!(header, before);
    let r = header.calculate_checksum(&v6, &v4, &[]);
    assert_eq!(r, Err(TcpError::AddressFamilyMismatch));
    assert_eq!(header, before);
}

#[test]
fn tcp_checksum_v6_pair_is_unsupported() {
    let v6 = IpAddress::V6(tcp::addr::Ipv6Address { octets: [1; 16] });
    let mut header = TcpHeader::new(1, 2, 3, 4, TCP_SYN);
    let before = header;
    let r = header.calculate_checksum(&v6, &v6, &[]);
    assert_eq!(r, Err(TcpError::Unsupported));
    assert_eq!(header, before);
}
