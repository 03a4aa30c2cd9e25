//! The frame path: link-layer filtering, IPv4 and TCP parsing,
//! demultiplexing into the connection table, and assembly of the reply
//! frame.
//!
//! One inbound frame yields zero or one outbound frames; the caller only
//! moves bytes between the device and [`handle_frame`].

use vstd::prelude::*;
use crate::tcp::{TcpFields, TcpOut, Disposition, spec_step, spec_listen_connection,
    MAX_SEGMENT_PAYLOAD};
use crate::table::{Quad, ConnectionTable};
use crate::wire::{Ipv4Info, ipv4_parse_of, tcp_parse_of, ipv4_header_bytes_of,
    tcp_header_bytes_of, parse_ipv4, parse_tcp, ipv4_header_bytes, tcp_header_bytes};

verus! {

/// The protocol field of the 4-byte virtual-interface header, read
/// big-endian from its last two bytes.
pub open spec fn spec_link_proto(frame: Seq<u8>) -> int {
    (frame[2] as int) * 256 + (frame[3] as int)
}

/// What the link filter and the two header parses make of a frame: the
/// IPv4 fields, the TCP fields, and the payload length.  `None` is a
/// dropped frame: too short, not IPv4, not TCP, malformed, or with an
/// impossible payload length.
pub open spec fn spec_parse_frame(frame: Seq<u8>) -> Option<(Ipv4Info, TcpFields, nat)> {
    if frame.len() < 4 {
        None
    } else if spec_link_proto(frame) != 0x0800 {
        None
    } else {
        match ipv4_parse_of(frame.subrange(4, frame.len() as int)) {
            None => None,
            Some(ip) => {
                if ip.protocol != 6 || 4 + ip.header_len > frame.len() {
                    None
                } else {
                    match tcp_parse_of(
                        frame.subrange(4 + ip.header_len as int, frame.len() as int),
                    ) {
                        None => None,
                        Some(t) => {
                            if 4 + ip.header_len + t.header_len > frame.len() || frame.len() - 4
                                - ip.header_len - t.header_len > MAX_SEGMENT_PAYLOAD {
                                None
                            } else {
                                Some(
                                    (
                                        ip,
                                        t.fields,
                                        (frame.len() - 4 - ip.header_len
                                            - t.header_len) as nat,
                                    ),
                                )
                            }
                        },
                    }
                }
            },
        }
    }
}

/// The four-tuple of an inbound segment.
pub open spec fn spec_quad_of(ip: Ipv4Info, seg: TcpFields) -> Quad {
    Quad { src_ip: ip.src, src_port: seg.src_port, dst_ip: ip.dst, dst_port: seg.dst_port }
}

/// The outbound frame for a reply segment: the virtual-interface header
/// announcing IPv4, then the IPv4 header with the addresses swapped from
/// the inbound packet, then the TCP header.
pub open spec fn spec_reply_frame(ip: Ipv4Info, rep: TcpOut) -> Seq<u8> {
    seq![0u8, 0u8, 0x08u8, 0x00u8] + ipv4_header_bytes_of(ip.dst, ip.src, 20)
        + tcp_header_bytes_of(rep)
}

/// Assemble the outbound frame for one reply segment.
fn build_reply(ip: &Ipv4Info, rep: &TcpOut) -> (out: Vec<u8>)
    ensures
        out@ == spec_reply_frame(*ip, *rep),
{
    let mut out: Vec<u8> = Vec::new();
    out.push(0);
    out.push(0);
    out.push(0x08);
    out.push(0x00);
    let mut ipb = ipv4_header_bytes(ip.dst, ip.src, 20);
    out.append(&mut ipb);
    let mut tcb = tcp_header_bytes(rep);
    out.append(&mut tcb);
    proof {
        assert(out@ =~= spec_reply_frame(*ip, *rep));
    }
    out
}

/// Process one inbound frame to completion: filter, parse, route to the
/// owning connection (creating a listening one for an unseen four-tuple),
/// and return the serialized reply frame, if the state machine owes one.
pub fn handle_frame(table: &mut ConnectionTable, frame: &[u8]) -> (out: Option<Vec<u8>>)
    requires
        old(table).wf(),
    ensures
        final(table).wf(),
        spec_parse_frame(frame@) is None ==> final(table).entries_seq()
            == old(table).entries_seq() && out is None,
        (spec_parse_frame(frame@) matches Some(p) ==> {
            let q = spec_quad_of(p.0, p.1);
            let c0 = if old(table).spec_has(q) {
                old(table).spec_conn(q)
            } else {
                spec_listen_connection()
            };
            let s = spec_step(c0, p.1, p.2);
            &&& (s.disposition == Disposition::Retain ==> final(table).spec_has(q)
                && final(table).spec_conn(q) == s.conn)
            &&& (s.disposition == Disposition::Close ==> !final(table).spec_has(q))
            &&& (forall|q2: Quad| q2 != q ==> #[trigger] final(table).spec_has(q2) == old(
                table,
            ).spec_has(q2))
            &&& (forall|q2: Quad| q2 != q && old(table).spec_has(q2)
                ==> #[trigger] final(table).spec_conn(q2) == old(table).spec_conn(q2))
            &&& (match s.reply {
                None => out is None,
                Some(rep) => out matches Some(o) && o@ == spec_reply_frame(p.0, rep),
            })
        }),
{
    let n = frame.len();
    if n < 4 {
        return None;
    }
    let proto: u32 = (frame[2] as u32) * 256 + (frame[3] as u32);
    if proto != 0x0800 {
        return None;
    }
    let ip = match parse_ipv4(&frame[4..n]) {
        Some(ip) => ip,
        None => {
            return None;
        },
    };
    if ip.protocol != 6 {
        return None;
    }
    if 4 + ip.header_len > n {
        return None;
    }
    let datai = 4 + ip.header_len;
    let t = match parse_tcp(&frame[datai..n]) {
        Some(t) => t,
        None => {
            return None;
        },
    };
    if datai + t.header_len > n {
        return None;
    }
    let payload_len = n - datai - t.header_len;
    if payload_len > MAX_SEGMENT_PAYLOAD {
        return None;
    }
    let seg = t.fields;
    let q = Quad { src_ip: ip.src, src_port: seg.src_port, dst_ip: ip.dst, dst_port: seg.dst_port };
    match table.route(&q, &seg, payload_len) {
        None => None,
        Some(rep) => Some(build_reply(&ip, &rep)),
    }
}

} // verus!
