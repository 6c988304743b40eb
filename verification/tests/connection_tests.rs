use tcp::addr::{IpAddress, Ipv4Address, SocketAddress};
use tcp::connection::handler::TcpConnection;
use tcp::connection::state::TcpState;
use tcp::error::TcpError;
use tcp::packet::ip_header::IpHeader;
use tcp::packet::segment::TcpSegment;
use tcp::packet::tcp_header::{TcpHeader, TCP_ACK, TCP_PSH, TCP_SYN};

fn local() -> SocketAddress {
    SocketAddress::new(IpAddress::V4(Ipv4Address::new(127, 0, 0, 1)), 12345)
}

fn remote() -> SocketAddress {
    SocketAddress::new(IpAddress::V4(Ipv4Address::new(10, 0, 0, 1)), 80)
}

/// A raw packet as the peer would send it: its IP header, then its TCP
/// header with the given numbers and flags.
fn peer_packet(seq: u32, ack: u32, flags: u8) -> Vec<u8> {
    let mut ip = IpHeader::new(Ipv4Address::new(10, 0, 0, 1), Ipv4Address::new(127, 0, 0, 1), 20);
    ip.calculate_checksum();
    let tcp = TcpHeader::new(80, 12345, seq, ack, flags);
    let mut packet = ip.to_bytes();
    packet.extend_from_slice(&tcp.to_bytes());
    packet
}

#[test]
fn send_in_closed_fails_without_transmission() {
    let mut conn = TcpConnection::new(local(), remote(), 1000);
    assert_eq!(conn.state, TcpState::Closed);
    let r = conn.send(b"hello");
    assert_eq!(r, Err(TcpError::ConnectionError));
    assert_eq!(conn.state, TcpState::Closed);
    assert_eq!(conn.seq_num, 1000);
    assert_eq!(conn.ack_num, 0);
}

#[test]
fn send_in_syn_sent_fails_without_transmission() {
    let mut conn = TcpConnection::new(local(), remote(), 1000);
    conn.send_sync().unwrap();
    assert_eq!(conn.state, TcpState::SynSent);
    let r = conn.send(b"hello");
    assert_eq!(r, Err(TcpError::ConnectionError));
    assert_eq!(conn.state, TcpState::SynSent);
}

#[test]
fn successful_handshake() {
    let seq = 1000u32;
    let peer_seq = 5000u32;
    let mut conn = TcpConnection::new(local(), remote(), seq);

    // The SYN goes out with our initial sequence number.
    let syn = conn.send_sync().unwrap();
    assert_eq!(conn.state, TcpState::SynSent);
    assert_eq!(syn.len(), 40);
    let syn_tcp = TcpHeader::from_bytes(&syn[20..]).unwrap();
    assert_eq!(syn_tcp.flags, TCP_SYN);
    assert_eq!(syn_tcp.seq_num, seq);
    assert_eq!(syn_tcp.ack_num, 0);
    assert_eq!(syn_tcp.source_port, 12345);
    assert_eq!(syn_tcp.dest_port, 80);

    // The peer answers SYN|ACK; exactly one ACK comes back.
    let reply = peer_packet(peer_seq, seq + 1, TCP_SYN | TCP_ACK);
    let ack = conn.perform_handshake(&vec![reply]).unwrap();
    assert_eq!(conn.state, TcpState::Established);
    assert_eq!(conn.ack_num, peer_seq + 1);
    let ack_tcp = TcpHeader::from_bytes(&ack[20..]).unwrap();
    assert_eq!(ack_tcp.flags, TCP_ACK);
    assert_eq!(ack_tcp.ack_num, peer_seq + 1);
    assert_eq!(ack_tcp.seq_num, seq);
}

#[test]
fn handshake_timeout_leaves_syn_sent() {
    let mut conn = TcpConnection::new(local(), remote(), 42);
    conn.send_sync().unwrap();
    let r = conn.perform_handshake(&vec![]);
    assert_eq!(r, Err(TcpError::ConnectionError));
    assert_eq!(conn.state, TcpState::SynSent);
}

#[test]
fn handshake_discards_unexpected_segments() {
    let mut conn = TcpConnection::new(local(), remote(), 42);
    conn.send_sync().unwrap();
    let wrong_flags = peer_packet(5000, 43, TCP_ACK);
    let short = vec![0u8; 39];
    let r = conn.perform_handshake(&vec![short, wrong_flags]);
    assert_eq!(r, Err(TcpError::ConnectionError));
    assert_eq!(conn.state, TcpState::SynSent);
    assert_eq!(conn.ack_num, 0);
}

#[test]
fn handshake_filters_on_connection_tuple() {
    let mut conn = TcpConnection::new(local(), remote(), 42);
    conn.send_sync().unwrap();

    // Right flags, wrong source port: discarded by the tuple guard.
    let mut ip = IpHeader::new(Ipv4Address::new(10, 0, 0, 1), Ipv4Address::new(127, 0, 0, 1), 20);
    ip.calculate_checksum();
    let tcp = TcpHeader::new(81, 12345, 5000, 43, TCP_SYN | TCP_ACK);
    let mut wrong_port = ip.to_bytes();
    wrong_port.extend_from_slice(&tcp.to_bytes());

    // Right flags, wrong source address: discarded by the address guard.
    let mut ip2 = IpHeader::new(Ipv4Address::new(10, 9, 9, 9), Ipv4Address::new(127, 0, 0, 1), 20);
    ip2.calculate_checksum();
    let tcp2 = TcpHeader::new(80, 12345, 5000, 43, TCP_SYN | TCP_ACK);
    let mut wrong_addr = ip2.to_bytes();
    wrong_addr.extend_from_slice(&tcp2.to_bytes());

    let r = conn.perform_handshake(&vec![wrong_port, wrong_addr]);
    assert_eq!(r, Err(TcpError::ConnectionError));
    assert_eq!(conn.state, TcpState::SynSent);
}

#[test]
fn handle_handshake_packet_ignores_when_not_syn_sent() {
    let mut conn = TcpConnection::new(local(), remote(), 42);
    let header = TcpHeader::new(80, 12345, 5000, 43, TCP_SYN | TCP_ACK);
    let r = conn.handle_handshake_packet(&header).unwrap();
    assert!(r.is_none());
    assert_eq!(conn.state, TcpState::Closed);
}

#[test]
fn established_send_carries_payload() {
    let mut conn = TcpConnection::new(local(), remote(), 1000);
    conn.send_sync().unwrap();
    conn.perform_handshake(&vec![peer_packet(5000, 1001, TCP_SYN | TCP_ACK)]).unwrap();

    let packet = conn.send(b"abc").unwrap();
    assert_eq!(packet.len(), 43);
    let ip = IpHeader::from_bytes(&packet[..20]).unwrap();
    assert_eq!(ip.length, 43);
    let tcp = TcpHeader::from_bytes(&packet[20..40]).unwrap();
    assert_eq!(tcp.flags, TCP_PSH | TCP_ACK);
    assert_eq!(tcp.seq_num, 1000);
    assert_eq!(tcp.ack_num, 5001);
    assert_eq!(&packet[40..], b"abc");

    // The sequence counter advances by exactly the accepted payload bytes.
    conn.advance_seq(3);
    assert_eq!(conn.seq_num, 1003);
}

#[test]
fn advance_seq_wraps_in_sequence_arithmetic() {
    let mut conn = TcpConnection::new(local(), remote(), u32::MAX - 1);
    conn.advance_seq(3);
    assert_eq!(conn.seq_num, 1);
}

#[test]
fn connect_starts_closed_with_zero_ack() {
    let conn = TcpConnection::connect(local(), remote());
    assert_eq!(conn.state, TcpState::Closed);
    assert_eq!(conn.ack_num, 0);
    assert_eq!(conn.window_size, 65535);
}

#[test]
fn segment_to_bytes_appends_payload() {
    let seg = TcpSegment::new(local(), remote(), 7, 9, TCP_PSH | TCP_ACK, vec![1, 2, 3]).unwrap();
    let bytes = seg.to_bytes();
    assert_eq!(bytes.len(), 23);
    let header = TcpHeader::from_bytes(&bytes[..20]).unwrap();
    assert_eq!(header.seq_num, 7);
    assert_eq!(header.ack_num, 9);
    assert_ne!(header.checksum, 0);
    assert_eq!(&bytes[20..], &[1, 2, 3]);
}

#[test]
fn segment_family_mismatch_is_reported() {
    let v6 = SocketAddress::new(
        IpAddress::V6(tcp::addr::Ipv6Address { octets: [0; 16] }),
        80,
    );
    let r = TcpSegment::new(local(), v6, 1, 2, TCP_SYN, vec![]);
    assert!(matches!(r, Err(TcpError::AddressFamilyMismatch)));
    let r = TcpSegment::new(v6, v6, 1, 2, TCP_SYN, vec![]);
    assert!(matches!(r, Err(TcpError::Unsupported)));
}
