//! The codec boundary: parsing raw IPv4 and TCP headers into logical
//! fields, and serializing outbound headers back to bytes.
//!
//! The byte-level work is done by the `etherparse` crate behind trusted
//! wrappers; each wrapper's contract names its result, since the exact
//! byte layout (checksums included) is the codec's business, and states
//! the few length facts the callers rely on.

use vstd::prelude::*;
use crate::tcp::{TcpFields, TcpOut};

verus! {

/// Logical fields of a parsed IPv4 header: addresses in their big-endian
/// numeric reading, the protocol number, and the header's byte length
/// (which locates the payload).
#[derive(Clone, Copy, PartialEq, Eq, Structural, Debug)]
pub struct Ipv4Info {
    pub src: u32,
    pub dst: u32,
    pub protocol: u8,
    pub header_len: usize,
}

/// A parsed TCP header: its logical fields and its byte length.
#[derive(Clone, Copy, PartialEq, Eq, Structural, Debug)]
pub struct TcpInfo {
    pub fields: TcpFields,
    pub header_len: usize,
}

/// What parsing an IPv4 header out of the given bytes yields.
pub uninterp spec fn ipv4_parse_of(b: Seq<u8>) -> Option<Ipv4Info>;

/// What parsing a TCP header out of the given bytes yields.
pub uninterp spec fn tcp_parse_of(b: Seq<u8>) -> Option<TcpInfo>;

/// The serialized IPv4 header for a TCP packet with the given addresses
/// and payload length.
pub uninterp spec fn ipv4_header_bytes_of(src: u32, dst: u32, payload_len: u16) -> Seq<u8>;

/// The serialized TCP header for the given logical fields.
pub uninterp spec fn tcp_header_bytes_of(t: TcpOut) -> Seq<u8>;

/// Relies on etherparse::Ipv4HeaderSlice::from_slice: the outcome depends
/// on the bytes alone, and on success the returned slice holds the whole
/// header, so its length is at least 20 and at most the input's.
#[verifier::external_body]
pub(crate) fn parse_ipv4(b: &[u8]) -> (r: Option<Ipv4Info>)
    ensures
        r == ipv4_parse_of(b@),
        r is Some ==> 20 <= r->Some_0.header_len <= b@.len(),
{
    match etherparse::Ipv4HeaderSlice::from_slice(b) {
        Ok(h) => Some(Ipv4Info {
            src: u32::from_be_bytes(h.source()),
            dst: u32::from_be_bytes(h.destination()),
            protocol: h.protocol().0,
            header_len: h.slice().len(),
        }),
        Err(_) => None,
    }
}

/// Relies on etherparse::TcpHeaderSlice::from_slice: the outcome depends
/// on the bytes alone, and on success the returned slice holds the whole
/// header, so its length is at least 20 and at most the input's.
#[verifier::external_body]
pub(crate) fn parse_tcp(b: &[u8]) -> (r: Option<TcpInfo>)
    ensures
        r == tcp_parse_of(b@),
        r is Some ==> 20 <= r->Some_0.header_len <= b@.len(),
{
    match etherparse::TcpHeaderSlice::from_slice(b) {
        Ok(h) => Some(TcpInfo {
            fields: TcpFields {
                src_port: h.source_port(), dst_port: h.destination_port(),
                seq: h.sequence_number(), ackn: h.acknowledgment_number(),
                wnd: h.window_size(), syn: h.syn(), ack: h.ack(),
                fin: h.fin(), rst: h.rst(), urg: h.urg(), psh: h.psh(),
            },
            header_len: h.slice().len(),
        }),
        Err(_) => None,
    }
}

/// Relies on etherparse::Ipv4Header::new and Ipv4Header::write: an
/// option-free IPv4 header (TTL 64, protocol TCP, checksum computed from
/// the fields alone) serializes to exactly 20 bytes.
#[verifier::external_body]
pub(crate) fn ipv4_header_bytes(src: u32, dst: u32, payload_len: u16) -> (r: Vec<u8>)
    requires
        payload_len <= 65515,
    ensures
        r@ == ipv4_header_bytes_of(src, dst, payload_len),
        r@.len() == 20,
{
    let mut out: Vec<u8> = Vec::new();
    let header = etherparse::Ipv4Header::new(
        payload_len, 64, etherparse::IpNumber::TCP, src.to_be_bytes(), dst.to_be_bytes(),
    );
    if let Ok(h) = header {
        let _ = h.write(&mut out);
    }
    out
}

/// Relies on etherparse::TcpHeader::new and TcpHeader::write: an
/// option-free TCP header serializes to exactly 20 bytes determined by
/// the fields alone.
#[verifier::external_body]
pub(crate) fn tcp_header_bytes(t: &TcpOut) -> (r: Vec<u8>)
    ensures
        r@ == tcp_header_bytes_of(*t),
        r@.len() == 20,
{
    let mut h = etherparse::TcpHeader::new(t.src_port, t.dst_port, t.seq, t.wnd);
    h.acknowledgment_number = t.ackn;
    h.syn = t.syn;
    h.ack = t.ack;
    h.fin = t.fin;
    h.rst = t.rst;
    let mut out: Vec<u8> = Vec::new();
    let _ = h.write(&mut out);
    out
}

} // verus!
