use etherparse::{IpNumber, Ipv4Header, Ipv4HeaderSlice, TcpHeader, TcpHeaderSlice};
use tcp_engine::engine::handle_frame;
use tcp_engine::table::{ConnectionTable, Quad};
use tcp_engine::tcp::State;

const CLIENT: [u8; 4] = [10, 0, 0, 2];
const SERVER: [u8; 4] = [10, 0, 0, 1];

/// A full virtual-interface frame: 4-byte header announcing IPv4, then
/// the IPv4 header, then the TCP header and payload.
fn tcp_frame(src: [u8; 4], dst: [u8; 4], tcp: &TcpHeader, payload: &[u8]) -> Vec<u8> {
    let mut out = vec![0u8, 0, 8, 0];
    let ip = Ipv4Header::new(
        (tcp.header_len() + payload.len()) as u16,
        64,
        IpNumber::TCP,
        src,
        dst,
    )
    .unwrap();
    ip.write(&mut out).unwrap();
    tcp.write(&mut out).unwrap();
    out.extend_from_slice(payload);
    out
}

fn syn_header() -> TcpHeader {
    let mut t = TcpHeader::new(5000, 80, 1000, 64240);
    t.syn = true;
    t
}

#[test]
fn short_frame_is_dropped() {
    let mut table = ConnectionTable::new();
    assert!(handle_frame(&mut table, &[0, 0, 8]).is_none());
    assert_eq!(table.len(), 0);
}

#[test]
fn non_ipv4_link_protocol_is_dropped() {
    let mut table = ConnectionTable::new();
    // 0x86DD announces IPv6 on the link
    let frame = [0u8, 0, 0x86, 0xDD, 6, 0, 0, 0];
    assert!(handle_frame(&mut table, &frame).is_none());
    assert_eq!(table.len(), 0);
}

#[test]
fn malformed_ip_packet_is_dropped() {
    let mut table = ConnectionTable::new();
    let frame = [0u8, 0, 8, 0, 0xFF, 0xFF, 0xFF];
    assert!(handle_frame(&mut table, &frame).is_none());
    assert_eq!(table.len(), 0);
}

#[test]
fn non_tcp_packet_is_dropped() {
    let mut table = ConnectionTable::new();
    let mut frame = vec![0u8, 0, 8, 0];
    let ip = Ipv4Header::new(4, 64, IpNumber::UDP, CLIENT, SERVER).unwrap();
    ip.write(&mut frame).unwrap();
    frame.extend_from_slice(&[1, 2, 3, 4]);
    assert!(handle_frame(&mut table, &frame).is_none());
    assert_eq!(table.len(), 0);
}

#[test]
fn syn_frame_yields_syn_ack_frame() {
    let mut table = ConnectionTable::new();
    let frame = tcp_frame(CLIENT, SERVER, &syn_header(), &[]);
    let out = handle_frame(&mut table, &frame).expect("a SYN must be answered");
    assert_eq!(table.len(), 1);
    assert_eq!(&out[..4], &[0, 0, 8, 0]);
    let iph = Ipv4HeaderSlice::from_slice(&out[4..]).expect("reply IP header parses");
    assert_eq!(iph.source(), SERVER);
    assert_eq!(iph.destination(), CLIENT);
    assert_eq!(iph.protocol(), IpNumber::TCP);
    let ihl = iph.slice().len();
    let tcph = TcpHeaderSlice::from_slice(&out[4 + ihl..]).expect("reply TCP header parses");
    assert!(tcph.syn());
    assert!(tcph.ack());
    assert_eq!(tcph.source_port(), 80);
    assert_eq!(tcph.destination_port(), 5000);
    assert_eq!(tcph.sequence_number(), 0);
    assert_eq!(tcph.acknowledgment_number(), 1001);
    assert_eq!(tcph.window_size(), 10);
}

#[test]
fn handshake_over_frames_establishes() {
    let mut table = ConnectionTable::new();
    let syn = tcp_frame(CLIENT, SERVER, &syn_header(), &[]);
    assert!(handle_frame(&mut table, &syn).is_some());
    let mut ack = TcpHeader::new(5000, 80, 1001, 64240);
    ack.ack = true;
    ack.acknowledgment_number = 1;
    let ack_frame = tcp_frame(CLIENT, SERVER, &ack, &[]);
    assert!(handle_frame(&mut table, &ack_frame).is_none());
    assert_eq!(table.len(), 1);
    let quad = Quad {
        src_ip: u32::from_be_bytes(CLIENT),
        src_port: 5000,
        dst_ip: u32::from_be_bytes(SERVER),
        dst_port: 80,
    };
    let conn = table.get(&quad).expect("the connection is in the table");
    assert_eq!(conn.state, State::Estab);
    assert_eq!(conn.send.una, 1);
    assert_eq!(conn.recv.nxt, 1001);
}

#[test]
fn retransmitted_syn_frame_gets_same_reply() {
    let mut table = ConnectionTable::new();
    let frame = tcp_frame(CLIENT, SERVER, &syn_header(), &[]);
    let first = handle_frame(&mut table, &frame).expect("first SYN answered");
    let second = handle_frame(&mut table, &frame).expect("retransmitted SYN answered");
    assert_eq!(first, second);
    assert_eq!(table.len(), 1);
}

#[test]
fn separate_quads_get_separate_connections() {
    let mut table = ConnectionTable::new();
    let a = tcp_frame(CLIENT, SERVER, &syn_header(), &[]);
    let mut other = syn_header();
    other.source_port = 6000;
    let b = tcp_frame(CLIENT, SERVER, &other, &[]);
    assert!(handle_frame(&mut table, &a).is_some());
    assert!(handle_frame(&mut table, &b).is_some());
    assert_eq!(table.len(), 2);
}
