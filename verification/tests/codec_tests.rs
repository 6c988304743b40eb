use tcp::addr::Ipv4Address;
use tcp::packet::ip_header::IpHeader;
use tcp::packet::tcp_header::{TcpHeader, TCP_ACK, TCP_PSH, TCP_SYN};

#[test]
fn tcp_header_round_trip() {
    let header = TcpHeader::new(12345, 80, 0x0102_0304, 0x0A0B_0C0D, TCP_PSH | TCP_ACK);
    let bytes = header.to_bytes();
    assert_eq!(bytes.len(), 20);
    let decoded = TcpHeader::from_bytes(&bytes).unwrap();
    assert_eq!(decoded, header);
}

#[test]
fn tcp_offset_reserved_flags_round_trip() {
    // Data-offset 5, reserved 0, flags SYN share one 16-bit word with no
    // bit overlap: 0x50 then 0x02 on the wire.
    let header = TcpHeader::new(1, 2, 3, 4, TCP_SYN);
    assert_eq!(header.data_offset, 5);
    assert_eq!(header.reserved, 0);
    let bytes = header.to_bytes();
    assert_eq!(bytes[12], 0x50);
    assert_eq!(bytes[13], 0x02);
    let decoded = TcpHeader::from_bytes(&bytes).unwrap();
    assert_eq!(decoded.data_offset, 5);
    assert_eq!(decoded.reserved, 0);
    assert_eq!(decoded.flags, TCP_SYN);
}

#[test]
fn tcp_decode_rejects_short_buffers() {
    for len in 0..20usize {
        let buf = vec![0xA5u8; len];
        assert!(TcpHeader::from_bytes(&buf).is_none());
    }
    assert!(TcpHeader::from_bytes(&[0u8; 20]).is_some());
}

#[test]
fn tcp_decode_exact_fields() {
    let bytes: [u8; 20] = [
        0x30, 0x39, // source port 12345
        0x00, 0x50, // dest port 80
        0x01, 0x02, 0x03, 0x04, // sequence number
        0x0A, 0x0B, 0x0C, 0x0D, // acknowledgment number
        0x5C, 0x12, // offset 5, reserved 12, flags SYN|ACK
        0xFF, 0xFF, // window
        0xBE, 0xEF, // checksum
        0x12, 0x34, // urgent pointer
    ];
    let h = TcpHeader::from_bytes(&bytes).unwrap();
    assert_eq!(h.source_port, 12345);
    assert_eq!(h.dest_port, 80);
    assert_eq!(h.seq_num, 0x0102_0304);
    assert_eq!(h.ack_num, 0x0A0B_0C0D);
    assert_eq!(h.data_offset, 5);
    assert_eq!(h.reserved, 0xC);
    assert_eq!(h.flags, TCP_SYN | TCP_ACK);
    assert_eq!(h.window_size, 0xFFFF);
    assert_eq!(h.checksum, 0xBEEF);
    assert_eq!(h.urgent_ptr, 0x1234);
}

#[test]
fn ip_header_round_trip() {
    let mut header = IpHeader::new(
        Ipv4Address::new(192, 168, 1, 7),
        Ipv4Address::new(10, 0, 0, 1),
        100,
    );
    header.calculate_checksum();
    let bytes = header.to_bytes();
    assert_eq!(bytes.len(), 20);
    let decoded = IpHeader::from_bytes(&bytes).unwrap();
    assert_eq!(decoded, header);
}

#[test]
fn ip_header_fixed_fields() {
    let header = IpHeader::new(
        Ipv4Address::new(127, 0, 0, 1),
        Ipv4Address::new(127, 0, 0, 2),
        20,
    );
    assert_eq!(header.version, 4);
    assert_eq!(header.ihl, 5);
    assert_eq!(header.length, 40);
    assert_eq!(header.ttl, 64);
    assert_eq!(header.protocol, 6);
    let bytes = header.to_bytes();
    assert_eq!(bytes[0], 0x45);
    assert_eq!(&bytes[12..16], &[127, 0, 0, 1]);
    assert_eq!(&bytes[16..20], &[127, 0, 0, 2]);
}

#[test]
fn ip_decode_rejects_short_buffers() {
    for len in 0..20usize {
        let buf = vec![0x45u8; len];
        assert!(IpHeader::from_bytes(&buf).is_none());
    }
}
