//! The per-connection TCP state machine (RFC 793 section 3.2) and its
//! send/receive sequence-space bookkeeping.
//!
//! One inbound segment at a time is handed to [`Connection::on_segment`],
//! which mutates the connection in place and decides zero or one reply
//! segments plus a disposition (keep the connection, or drop it from the
//! table).  The whole transition relation is pinned down by the spec
//! function [`spec_step`].

use vstd::prelude::*;
use crate::seqnum::{seq_lt, seq_le, seq_in_range, wrap_add, lt, le, in_range};

verus! {

/// Initial send sequence number chosen on a passive open.
pub const INITIAL_SEND_SEQUENCE: u32 = 0;

/// Window advertised in replies emitted during the handshake.
pub const ADVERTISED_WINDOW: u16 = 10;

/// Largest payload an IPv4 packet can carry; segments are no longer.
pub const MAX_SEGMENT_PAYLOAD: usize = 0xFFFF;

/// Connection state, RFC 793 section 3.2.
#[derive(Clone, Copy, PartialEq, Eq, Structural, Debug)]
pub enum State {
    Closed,
    Listen,
    SynSent,
    SynRcvd,
    Estab,
    FinWait1,
    FinWait2,
    CloseWait,
    Closing,
    LastAck,
    TimeWait,
}

impl Default for State {
    /// A newly created connection is ready for a passive open.
    fn default() -> (s: Self)
        ensures
            s == State::Listen,
    {
        State::Listen
    }
}

/// Send sequence space, RFC 793 section 3.2 figure 4.
#[derive(Clone, Copy, PartialEq, Eq, Structural, Debug)]
pub struct SendSequenceSpace {
    /// oldest unacknowledged sequence number
    pub una: u32,
    /// next sequence number to send
    pub nxt: u32,
    /// peer-advertised window applied to our sends
    pub wnd: u16,
    /// urgent pointer in effect
    pub up: bool,
    /// segment sequence number used for the last window update
    pub wl1: u32,
    /// segment acknowledgment number used for the last window update
    pub wl2: u32,
    /// initial send sequence number
    pub iss: u32,
}

/// Receive sequence space, RFC 793 section 3.2 figure 5.
#[derive(Clone, Copy, PartialEq, Eq, Structural, Debug)]
pub struct RecvSequenceSpace {
    /// next sequence number expected from the peer
    pub nxt: u32,
    /// window we advertise to the peer
    pub wnd: u16,
    /// urgent pointer in effect
    pub up: bool,
    /// peer's initial sequence number
    pub irs: u32,
}

/// Logical fields of one inbound TCP segment, as the codec exposes them.
#[derive(Clone, Copy, PartialEq, Eq, Structural, Debug)]
pub struct TcpFields {
    pub src_port: u16,
    pub dst_port: u16,
    pub seq: u32,
    pub ackn: u32,
    pub wnd: u16,
    pub syn: bool,
    pub ack: bool,
    pub fin: bool,
    pub rst: bool,
    pub urg: bool,
    pub psh: bool,
}

/// Logical fields of one outbound reply segment.
#[derive(Clone, Copy, PartialEq, Eq, Structural, Debug)]
pub struct TcpOut {
    pub src_port: u16,
    pub dst_port: u16,
    pub seq: u32,
    pub ackn: u32,
    pub wnd: u16,
    pub syn: bool,
    pub ack: bool,
    pub fin: bool,
    pub rst: bool,
}

/// Whether the connection stays in the table after a processing step.
#[derive(Clone, Copy, PartialEq, Eq, Structural, Debug)]
pub enum Disposition {
    Retain,
    Close,
}

/// Outcome of processing one inbound segment.
#[derive(Clone, Copy, PartialEq, Eq, Structural, Debug)]
pub struct SegmentAction {
    pub reply: Option<TcpOut>,
    pub disposition: Disposition,
}

/// One TCP connection: state plus both sequence spaces.
#[derive(Clone, Copy, PartialEq, Eq, Structural, Debug)]
pub struct Connection {
    pub state: State,
    pub send: SendSequenceSpace,
    pub recv: RecvSequenceSpace,
}

/// Result of one step of the transition relation.
#[derive(Clone, Copy, PartialEq, Eq, Structural, Debug)]
pub struct Step {
    pub conn: Connection,
    pub reply: Option<TcpOut>,
    pub disposition: Disposition,
}

/// The states of a connection whose sequence spaces are synchronized with
/// the peer, all governed by the same acceptance rules.
pub open spec fn spec_is_synchronized(s: State) -> bool {
    s == State::Estab || s == State::FinWait1 || s == State::FinWait2 || s == State::CloseWait
        || s == State::Closing || s == State::LastAck || s == State::TimeWait
}

/// Sequence-space length of a segment: its payload octets plus one octet
/// each for SYN and FIN.
pub open spec fn spec_seg_len(seg: TcpFields, payload_len: nat) -> nat {
    payload_len + (if seg.syn { 1nat } else { 0nat }) + (if seg.fin { 1nat } else { 0nat })
}

/// RFC 793 receive-window acceptability: at least one octet of the segment
/// lies in `[recv.nxt, recv.nxt + recv.wnd)`, or the segment is empty and
/// sits exactly at `recv.nxt` when the window is closed.
pub open spec fn spec_seq_acceptable(recv: RecvSequenceSpace, seq: u32, slen: nat) -> bool {
    let wend = wrap_add(recv.nxt, recv.wnd as u32);
    if slen == 0 {
        if recv.wnd == 0 {
            seq == recv.nxt
        } else {
            seq_in_range(seq, recv.nxt, wend)
        }
    } else {
        if recv.wnd == 0 {
            false
        } else {
            seq_in_range(seq, recv.nxt, wend)
                || seq_in_range(wrap_add(seq, (slen - 1) as u32), recv.nxt, wend)
        }
    }
}

/// An acknowledgment confirming new data: `ackn` in `(una, nxt]`.
pub open spec fn spec_ack_confirms_new(una: u32, nxt: u32, ackn: u32) -> bool {
    seq_lt(una, ackn) && seq_le(ackn, nxt)
}

/// An acceptable acknowledgment for a synchronized state: `ackn` in
/// `[una, nxt]`.
pub open spec fn spec_ack_in_window(una: u32, nxt: u32, ackn: u32) -> bool {
    seq_le(una, ackn) && seq_le(ackn, nxt)
}

/// The SYN/ACK reply announcing our initial sequence number, with ports
/// swapped from the inbound segment.
pub open spec fn spec_syn_ack(c: Connection, seg: TcpFields) -> TcpOut {
    TcpOut {
        src_port: seg.dst_port,
        dst_port: seg.src_port,
        seq: c.send.iss,
        ackn: c.recv.nxt,
        wnd: c.send.wnd,
        syn: true,
        ack: true,
        fin: false,
        rst: false,
    }
}

/// A pure ACK carrying the current `recv.nxt` and `recv.wnd`.
pub open spec fn spec_pure_ack(c: Connection, seg: TcpFields) -> TcpOut {
    TcpOut {
        src_port: seg.dst_port,
        dst_port: seg.src_port,
        seq: c.send.nxt,
        ackn: c.recv.nxt,
        wnd: c.recv.wnd,
        syn: false,
        ack: true,
        fin: false,
        rst: false,
    }
}

/// A fresh passive-open connection as the table creates it.
pub open spec fn spec_listen_connection() -> Connection {
    Connection {
        state: State::Listen,
        send: SendSequenceSpace { una: 0, nxt: 0, wnd: 0, up: false, wl1: 0, wl2: 0, iss: 0 },
        recv: RecvSequenceSpace { nxt: 0, wnd: 0, up: false, irs: 0 },
    }
}

/// `Listen`: only a plain SYN is accepted; it initializes both sequence
/// spaces and is answered with a SYN/ACK.
pub open spec fn spec_listen_step(c: Connection, seg: TcpFields) -> Step {
    if seg.syn && !seg.ack && !seg.rst && !seg.fin {
        let c2 = Connection {
            state: State::SynRcvd,
            send: SendSequenceSpace {
                una: INITIAL_SEND_SEQUENCE,
                nxt: wrap_add(INITIAL_SEND_SEQUENCE, 1),
                wnd: ADVERTISED_WINDOW,
                up: false,
                wl1: 0,
                wl2: 0,
                iss: INITIAL_SEND_SEQUENCE,
            },
            recv: RecvSequenceSpace {
                nxt: wrap_add(seg.seq, 1),
                wnd: seg.wnd,
                up: false,
                irs: seg.seq,
            },
        };
        Step { conn: c2, reply: Some(spec_syn_ack(c2, seg)), disposition: Disposition::Retain }
    } else {
        Step { conn: c, reply: None, disposition: Disposition::Retain }
    }
}

/// `SynRcvd`: a retransmitted SYN re-emits the SYN/ACK unchanged; an
/// acknowledgment of our SYN with an acceptable sequence number completes
/// the handshake; everything else is dropped.
pub open spec fn spec_syn_rcvd_step(c: Connection, seg: TcpFields, plen: nat) -> Step {
    if seg.syn {
        if seg.seq == c.recv.irs {
            Step { conn: c, reply: Some(spec_syn_ack(c, seg)), disposition: Disposition::Retain }
        } else {
            Step { conn: c, reply: None, disposition: Disposition::Retain }
        }
    } else if seg.ack && spec_ack_confirms_new(c.send.una, c.send.nxt, seg.ackn)
        && spec_seq_acceptable(c.recv, seg.seq, spec_seg_len(seg, plen)) {
        let c2 = Connection {
            state: State::Estab,
            send: SendSequenceSpace { una: seg.ackn, ..c.send },
            recv: c.recv,
        };
        Step { conn: c2, reply: None, disposition: Disposition::Retain }
    } else {
        Step { conn: c, reply: None, disposition: Disposition::Retain }
    }
}

/// RFC 793 window-update guard: take the advertised window only from a
/// segment at least as new as the one used for the last update.
pub open spec fn spec_window_update_due(send: SendSequenceSpace, seg: TcpFields) -> bool {
    seq_lt(send.wl1, seg.seq) || (send.wl1 == seg.seq && seq_le(send.wl2, seg.ackn))
}

/// Retire acknowledged data and, when due, take the peer's new window.
pub open spec fn spec_apply_ack(send: SendSequenceSpace, seg: TcpFields) -> SendSequenceSpace {
    if spec_window_update_due(send, seg) {
        SendSequenceSpace { una: seg.ackn, wnd: seg.wnd, wl1: seg.seq, wl2: seg.ackn, ..send }
    } else {
        SendSequenceSpace { una: seg.ackn, ..send }
    }
}

/// State after an in-order FIN from the peer; `fin_acked` says whether the
/// same segment also acknowledged everything we sent.
pub open spec fn spec_fin_transition(s: State, fin_acked: bool) -> State {
    match s {
        State::Estab => State::CloseWait,
        State::FinWait1 => if fin_acked { State::TimeWait } else { State::Closing },
        State::FinWait2 => State::TimeWait,
        _ => s,
    }
}

/// State after an acknowledgment that covers everything we sent,
/// including a FIN of ours if one is outstanding.
pub open spec fn spec_ack_transition(s: State, all_acked: bool) -> State {
    if all_acked {
        match s {
            State::FinWait1 => State::FinWait2,
            State::Closing => State::TimeWait,
            State::LastAck => State::Closed,
            _ => s,
        }
    } else {
        s
    }
}

/// The shared processing rule of every synchronized state: first the
/// sequence acceptability test (failures elicit a corrective ACK), then
/// the acknowledgment test (stale or future acknowledgments elicit a
/// corrective ACK), then retirement of acknowledged data and, for an
/// in-order FIN, the advance of `recv.nxt` past it and the close-side
/// transition, acknowledged with a pure ACK.
pub open spec fn spec_sync_step(c: Connection, seg: TcpFields, plen: nat) -> Step {
    let slen = spec_seg_len(seg, plen);
    if !spec_seq_acceptable(c.recv, seg.seq, slen) {
        Step { conn: c, reply: Some(spec_pure_ack(c, seg)), disposition: Disposition::Retain }
    } else if !seg.ack {
        Step { conn: c, reply: None, disposition: Disposition::Retain }
    } else if !spec_ack_in_window(c.send.una, c.send.nxt, seg.ackn) {
        Step { conn: c, reply: Some(spec_pure_ack(c, seg)), disposition: Disposition::Retain }
    } else {
        let all_acked = seg.ackn == c.send.nxt;
        let send2 = spec_apply_ack(c.send, seg);
        if seg.fin && plen == 0 && seg.seq == c.recv.nxt {
            let c2 = Connection {
                state: spec_fin_transition(c.state, all_acked),
                send: send2,
                recv: RecvSequenceSpace { nxt: wrap_add(c.recv.nxt, 1), ..c.recv },
            };
            Step { conn: c2, reply: Some(spec_pure_ack(c2, seg)), disposition: Disposition::Retain }
        } else {
            let st2 = spec_ack_transition(c.state, all_acked);
            let c2 = Connection { state: st2, send: send2, recv: c.recv };
            let disp = if st2 == State::Closed { Disposition::Close } else { Disposition::Retain };
            Step { conn: c2, reply: None, disposition: disp }
        }
    }
}

/// The whole transition relation: one connection, one inbound segment,
/// the next connection value, the reply, and the disposition.
pub open spec fn spec_step(c: Connection, seg: TcpFields, plen: nat) -> Step {
    match c.state {
        State::Closed => Step { conn: c, reply: None, disposition: Disposition::Close },
        State::Listen => spec_listen_step(c, seg),
        State::SynSent => Step { conn: c, reply: None, disposition: Disposition::Retain },
        State::SynRcvd => spec_syn_rcvd_step(c, seg, plen),
        _ => spec_sync_step(c, seg, plen),
    }
}

impl Connection {
    /// Factory for a passive open: a fresh connection in `Listen`,
    /// ready for the first SYN of an unseen four-tuple.
    pub fn accept() -> (c: Connection)
        ensures
            c == spec_listen_connection(),
    {
        Connection {
            state: State::Listen,
            send: SendSequenceSpace { una: 0, nxt: 0, wnd: 0, up: false, wl1: 0, wl2: 0, iss: 0 },
            recv: RecvSequenceSpace { nxt: 0, wnd: 0, up: false, irs: 0 },
        }
    }

    /// Build the SYN/ACK reply for the current state.
    fn syn_ack_reply(&self, seg: &TcpFields) -> (r: TcpOut)
        ensures
            r == spec_syn_ack(*self, *seg),
    {
        TcpOut {
            src_port: seg.dst_port,
            dst_port: seg.src_port,
            seq: self.send.iss,
            ackn: self.recv.nxt,
            wnd: self.send.wnd,
            syn: true,
            ack: true,
            fin: false,
            rst: false,
        }
    }

    /// Build a pure ACK carrying the current receive state.
    fn pure_ack_reply(&self, seg: &TcpFields) -> (r: TcpOut)
        ensures
            r == spec_pure_ack(*self, *seg),
    {
        TcpOut {
            src_port: seg.dst_port,
            dst_port: seg.src_port,
            seq: self.send.nxt,
            ackn: self.recv.nxt,
            wnd: self.recv.wnd,
            syn: false,
            ack: true,
            fin: false,
            rst: false,
        }
    }

    fn listen_step(&mut self, seg: &TcpFields) -> (act: SegmentAction)
        requires
            old(self).state == State::Listen,
        ensures
            *final(self) == spec_listen_step(*old(self), *seg).conn,
            act.reply == spec_listen_step(*old(self), *seg).reply,
            act.disposition == spec_listen_step(*old(self), *seg).disposition,
    {
        if seg.syn && !seg.ack && !seg.rst && !seg.fin {
            self.recv.irs = seg.seq;
            self.recv.nxt = seg.seq.wrapping_add(1);
            self.recv.wnd = seg.wnd;
            self.recv.up = false;
            self.send.iss = INITIAL_SEND_SEQUENCE;
            self.send.una = INITIAL_SEND_SEQUENCE;
            self.send.nxt = INITIAL_SEND_SEQUENCE.wrapping_add(1);
            self.send.wnd = ADVERTISED_WINDOW;
            self.send.up = false;
            self.send.wl1 = 0;
            self.send.wl2 = 0;
            self.state = State::SynRcvd;
            let reply = self.syn_ack_reply(seg);
            SegmentAction { reply: Some(reply), disposition: Disposition::Retain }
        } else {
            SegmentAction { reply: None, disposition: Disposition::Retain }
        }
    }

    /// The receive-window acceptability test over the executable state.
    fn seq_acceptable(&self, seq: u32, slen: u32) -> (r: bool)
        requires
            slen <= 0x2_0000,
        ensures
            r == spec_seq_acceptable(self.recv, seq, slen as nat),
    {
        let wend = self.recv.nxt.wrapping_add(self.recv.wnd as u32);
        if slen == 0 {
            if self.recv.wnd == 0 {
                seq == self.recv.nxt
            } else {
                in_range(seq, self.recv.nxt, wend)
            }
        } else {
            if self.recv.wnd == 0 {
                false
            } else {
                in_range(seq, self.recv.nxt, wend)
                    || in_range(seq.wrapping_add(slen - 1), self.recv.nxt, wend)
            }
        }
    }

    fn syn_rcvd_step(&mut self, seg: &TcpFields, payload_len: usize) -> (act: SegmentAction)
        requires
            old(self).state == State::SynRcvd,
            payload_len <= MAX_SEGMENT_PAYLOAD,
        ensures
            *final(self) == spec_syn_rcvd_step(*old(self), *seg, payload_len as nat).conn,
            act.reply == spec_syn_rcvd_step(*old(self), *seg, payload_len as nat).reply,
            act.disposition == spec_syn_rcvd_step(*old(self), *seg, payload_len as nat).disposition,
    {
        let slen: u32 = payload_len as u32 + (if seg.syn { 1 } else { 0 })
            + (if seg.fin { 1 } else { 0 });
        if seg.syn {
            if seg.seq == self.recv.irs {
                let reply = self.syn_ack_reply(seg);
                SegmentAction { reply: Some(reply), disposition: Disposition::Retain }
            } else {
                SegmentAction { reply: None, disposition: Disposition::Retain }
            }
        } else if seg.ack && lt(self.send.una, seg.ackn) && le(seg.ackn, self.send.nxt)
            && self.seq_acceptable(seg.seq, slen) {
            self.send.una = seg.ackn;
            self.state = State::Estab;
            SegmentAction { reply: None, disposition: Disposition::Retain }
        } else {
            SegmentAction { reply: None, disposition: Disposition::Retain }
        }
    }

    fn sync_step(&mut self, seg: &TcpFields, payload_len: usize) -> (act: SegmentAction)
        requires
            spec_is_synchronized(old(self).state),
            payload_len <= MAX_SEGMENT_PAYLOAD,
        ensures
            *final(self) == spec_sync_step(*old(self), *seg, payload_len as nat).conn,
            act.reply == spec_sync_step(*old(self), *seg, payload_len as nat).reply,
            act.disposition == spec_sync_step(*old(self), *seg, payload_len as nat).disposition,
    {
        let slen: u32 = payload_len as u32 + (if seg.syn { 1 } else { 0 })
            + (if seg.fin { 1 } else { 0 });
        if !self.seq_acceptable(seg.seq, slen) {
            let reply = self.pure_ack_reply(seg);
            SegmentAction { reply: Some(reply), disposition: Disposition::Retain }
        } else if !seg.ack {
            SegmentAction { reply: None, disposition: Disposition::Retain }
        } else if !(le(self.send.una, seg.ackn) && le(seg.ackn, self.send.nxt)) {
            let reply = self.pure_ack_reply(seg);
            SegmentAction { reply: Some(reply), disposition: Disposition::Retain }
        } else {
            let all_acked: bool = seg.ackn == self.send.nxt;
            if lt(self.send.wl1, seg.seq)
                || (self.send.wl1 == seg.seq && le(self.send.wl2, seg.ackn)) {
                self.send.wnd = seg.wnd;
                self.send.wl1 = seg.seq;
                self.send.wl2 = seg.ackn;
            }
            self.send.una = seg.ackn;
            if seg.fin && payload_len == 0 && seg.seq == self.recv.nxt {
                self.recv.nxt = self.recv.nxt.wrapping_add(1);
                self.state = match self.state {
                    State::Estab => State::CloseWait,
                    State::FinWait1 => if all_acked { State::TimeWait } else { State::Closing },
                    State::FinWait2 => State::TimeWait,
                    s => s,
                };
                let reply = self.pure_ack_reply(seg);
                SegmentAction { reply: Some(reply), disposition: Disposition::Retain }
            } else {
                if all_acked {
                    self.state = match self.state {
                        State::FinWait1 => State::FinWait2,
                        State::Closing => State::TimeWait,
                        State::LastAck => State::Closed,
                        s => s,
                    };
                }
                let disp = if self.state == State::Closed {
                    Disposition::Close
                } else {
                    Disposition::Retain
                };
                SegmentAction { reply: None, disposition: disp }
            }
        }
    }

    /// Process one inbound segment: mutate the connection per the RFC 793
    /// transition rules and return the reply, if any, and the disposition.
    pub fn on_segment(&mut self, seg: &TcpFields, payload_len: usize) -> (act: SegmentAction)
        requires
            payload_len <= MAX_SEGMENT_PAYLOAD,
        ensures
            *final(self) == spec_step(*old(self), *seg, payload_len as nat).conn,
            act.reply == spec_step(*old(self), *seg, payload_len as nat).reply,
            act.disposition == spec_step(*old(self), *seg, payload_len as nat).disposition,
    {
        match self.state {
            State::Closed => SegmentAction { reply: None, disposition: Disposition::Close },
            State::Listen => self.listen_step(seg),
            State::SynSent => SegmentAction { reply: None, disposition: Disposition::Retain },
            State::SynRcvd => self.syn_rcvd_step(seg, payload_len),
            _ => self.sync_step(seg, payload_len),
        }
    }
}

/// The send-space invariant of RFC 793 figure 4: the oldest
/// unacknowledged sequence number never lies beyond the next one to send.
pub open spec fn spec_send_space_wf(s: SendSequenceSpace) -> bool {
    seq_le(s.una, s.nxt)
}

/// A fresh passive-open connection satisfies the send-space invariant.
pub proof fn lemma_listen_connection_wf()
    ensures
        spec_send_space_wf(spec_listen_connection().send),
{
}

/// Invariant preservation (law): every processing step keeps `send.una`
/// at or before `send.nxt`; `una` only ever advances to an acknowledgment
/// number inside `[una, nxt]`.
pub proof fn lemma_step_preserves_send_wf(c: Connection, seg: TcpFields, plen: nat)
    requires
        spec_send_space_wf(c.send),
    ensures
        spec_send_space_wf(spec_step(c, seg, plen).conn.send),
{
    crate::seqnum::lemma_lt_succ(INITIAL_SEND_SEQUENCE);
}

/// Handshake liveness (law): a listening connection that receives a plain
/// SYN moves to `SynRcvd` and emits exactly one SYN/ACK whose
/// acknowledgment number is the SYN's sequence number plus one and whose
/// sequence number is the chosen initial send sequence number.
pub proof fn lemma_handshake_liveness(c: Connection, seg: TcpFields, plen: nat)
    requires
        c.state == State::Listen,
        seg.syn,
        !seg.ack,
        !seg.rst,
        !seg.fin,
    ensures
        spec_step(c, seg, plen).conn.state == State::SynRcvd,
        spec_step(c, seg, plen).reply is Some,
        spec_step(c, seg, plen).reply->Some_0.syn,
        spec_step(c, seg, plen).reply->Some_0.ack,
        spec_step(c, seg, plen).reply->Some_0.ackn == wrap_add(seg.seq, 1),
        spec_step(c, seg, plen).reply->Some_0.seq == spec_step(c, seg, plen).conn.send.iss,
{
}

/// Handshake completion (law): a `SynRcvd` connection that receives an
/// acknowledgment of its SYN (acknowledgment number `iss + 1`, no SYN,
/// sequence number at `recv.nxt`) becomes `Estab` with
/// `send.una == iss + 1`.
pub proof fn lemma_handshake_completion(c: Connection, seg: TcpFields)
    requires
        c.state == State::SynRcvd,
        c.send.una == c.send.iss,
        c.send.nxt == wrap_add(c.send.iss, 1),
        seg.ack,
        !seg.syn,
        !seg.fin,
        seg.ackn == wrap_add(c.send.iss, 1),
        seg.seq == c.recv.nxt,
    ensures
        spec_step(c, seg, 0).conn.state == State::Estab,
        spec_step(c, seg, 0).conn.send.una == wrap_add(c.send.iss, 1),
{
    crate::seqnum::lemma_lt_succ(c.send.iss);
}

/// Window acceptance boundary (law): in a synchronized state with a
/// nonzero window, an empty segment one past the window is answered with
/// a corrective ACK and changes nothing, while one at exactly `recv.nxt`
/// passes the acceptability test.
pub proof fn lemma_window_boundary(c: Connection, seg: TcpFields)
    requires
        spec_is_synchronized(c.state),
        c.recv.wnd > 0,
        !seg.syn,
        !seg.fin,
    ensures
        seg.seq == wrap_add(c.recv.nxt, c.recv.wnd as u32) ==> spec_step(c, seg, 0).conn == c
            && spec_step(c, seg, 0).reply == Some(spec_pure_ack(c, seg)),
        seg.seq == c.recv.nxt ==> spec_seq_acceptable(c.recv, seg.seq, spec_seg_len(seg, 0)),
{
}

/// Retransmitted SYN idempotence (law): re-delivering the original SYN to
/// a connection already in `SynRcvd` re-emits the same SYN/ACK, changes no
/// state, and a further redelivery produces the very same step again.
pub proof fn lemma_syn_retransmit_idempotent(c: Connection, seg: TcpFields, plen: nat)
    requires
        c.state == State::SynRcvd,
        seg.syn,
        seg.seq == c.recv.irs,
    ensures
        spec_step(c, seg, plen).conn == c,
        spec_step(c, seg, plen).reply == Some(spec_syn_ack(c, seg)),
        spec_step(spec_step(c, seg, plen).conn, seg, plen) == spec_step(c, seg, plen),
{
}

/// Progress monotonicity (law): once a connection has left `Listen` (so
/// both spaces are initialized), a processing step never moves `send.una`
/// or `recv.nxt` backwards in the wraparound "before" ordering.
pub proof fn lemma_progress_monotonic(c: Connection, seg: TcpFields, plen: nat)
    requires
        c.state != State::Listen,
    ensures
        seq_le(c.send.una, spec_step(c, seg, plen).conn.send.una),
        seq_le(c.recv.nxt, spec_step(c, seg, plen).conn.recv.nxt),
{
    crate::seqnum::lemma_lt_succ(c.recv.nxt);
}

} // verus!
