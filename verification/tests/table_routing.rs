use tcp_engine::table::{ConnectionTable, Quad};
use tcp_engine::tcp::{State, TcpFields};

fn quad(src_port: u16) -> Quad {
    Quad { src_ip: 0x0A000002, src_port, dst_ip: 0x0A000001, dst_port: 80 }
}

fn syn(seq: u32) -> TcpFields {
    TcpFields {
        src_port: 5000,
        dst_port: 80,
        seq,
        ackn: 0,
        wnd: 64240,
        syn: true,
        ack: false,
        fin: false,
        rst: false,
        urg: false,
        psh: false,
    }
}

fn pure_ack(seq: u32, ackn: u32) -> TcpFields {
    TcpFields { syn: false, ack: true, seq, ackn, ..syn(0) }
}

#[test]
fn route_creates_listener_and_replies() {
    let mut table = ConnectionTable::new();
    let q = quad(5000);
    let reply = table.route(&q, &syn(1000), 0).expect("SYN gets a reply");
    assert!(reply.syn && reply.ack);
    assert_eq!(reply.ackn, 1001);
    assert_eq!(table.len(), 1);
    assert!(table.has(&q));
    assert_eq!(table.get(&q).unwrap().state, State::SynRcvd);
}

#[test]
fn route_unknown_quad_non_syn_keeps_listener() {
    let mut table = ConnectionTable::new();
    let q = quad(5000);
    let reply = table.route(&q, &pure_ack(1000, 1), 0);
    assert!(reply.is_none());
    assert_eq!(table.len(), 1);
    assert_eq!(table.get(&q).unwrap().state, State::Listen);
}

#[test]
fn route_keeps_quads_independent() {
    let mut table = ConnectionTable::new();
    let qa = quad(5000);
    let qb = quad(6000);
    table.route(&qa, &syn(1000), 0);
    table.route(&qa, &pure_ack(1001, 1), 0);
    table.route(&qb, &syn(3000), 0);
    assert_eq!(table.len(), 2);
    assert_eq!(table.get(&qa).unwrap().state, State::Estab);
    assert_eq!(table.get(&qb).unwrap().state, State::SynRcvd);
    assert_eq!(table.get(&qb).unwrap().recv.nxt, 3001);
}

#[test]
fn empty_table_has_nothing() {
    let table = ConnectionTable::new();
    assert_eq!(table.len(), 0);
    assert!(!table.has(&quad(5000)));
    assert!(table.get(&quad(5000)).is_none());
}
