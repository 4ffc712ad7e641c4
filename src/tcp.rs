//! The transmission control block and the connection state machine of RFC 793.
use vstd::prelude::*;

pub use crate::seq_space::is_between_values_wrapped;
use crate::seq_space::{
    in_open_interval,
    in_window,
    lemma_window_as_interval,
    seq_add,
    seq_add_exec,
    seq_diff,
};
use crate::wire::{datagram, frame, Ipv4Fields, TcpFields, MAX_PAYLOAD, TTL};

verus! {

/// Initial send sequence number of every connection.
pub const ISS: u32 = 0;

/// Send window advertised to the peer.
pub const SEND_WINDOW: u16 = 1024;

/// Protocol number of TCP in the IPv4 header.
pub const PROTOCOL_TCP: u8 = 6;

/// The largest payload a segment can carry inside one IPv4 datagram.
pub const MAX_SEGMENT_PAYLOAD: usize = 0xFFFF;

/// Send sequence space (RFC 793, section 3.2):
/// ```text
///      1         2          3          4
/// ----------|----------|----------|----------
///        SND.UNA    SND.NXT    SND.UNA
///                             +SND.WND
/// ```
/// 1: acknowledged; 2: sent, not yet acknowledged; 3: may be sent; 4: not yet allowed.
#[derive(Clone, Copy, Debug)]
pub struct SendSequenceVariables {
    /// Oldest unacknowledged sequence number.
    pub una: u32,
    /// Next sequence number to send.
    pub nxt: u32,
    /// Send window.
    pub wnd: u16,
    /// Urgent pointer.
    pub up: bool,
    /// Segment sequence number of the last window update.
    pub wl1: u32,
    /// Segment acknowledgement number of the last window update.
    pub wl2: u32,
    /// Initial send sequence number.
    pub iss: u32,
}

/// Receive sequence space (RFC 793, section 3.2):
/// ```text
///      1          2          3
/// ----------|----------|----------
///        RCV.NXT    RCV.NXT
///                  +RCV.WND
/// ```
/// 1: acknowledged; 2: may be received; 3: not yet allowed.
#[derive(Clone, Copy, Debug)]
pub struct RecvSequenceVariables {
    /// Next sequence number expected.
    pub nxt: u32,
    /// Receive window.
    pub wnd: u16,
    /// Urgent pointer.
    pub up: bool,
    /// Initial receive sequence number.
    pub irs: u32,
}

/// The states a connection passes through once a SYN has arrived. LISTEN is the
/// absence of a block for the flow, and CLOSED its removal.
#[derive(Clone, Copy, Debug, PartialEq, Eq, Structural)]
pub enum State {
    SynRcvd,
    Estab,
    FinWait1,
    FinWait2,
    Closing,
    TimeWait,
    CloseWait,
}

impl State {
    /// The three-way handshake has completed.
    pub open spec fn synchronised(self) -> bool {
        !(self is SynRcvd)
    }

    pub fn is_synchronised(&self) -> (r: bool)
        ensures
            r == self.synchronised(),
    {
        match self {
            State::SynRcvd => false,
            State::Estab | State::FinWait1 | State::FinWait2 | State::Closing | State::TimeWait
            | State::CloseWait => true,
        }
    }
}

/// The four values that identify a flow.
#[derive(Clone, Copy, Debug, PartialEq, Eq, Hash)]
pub struct ConnectInfo {
    pub src_addr: [u8; 4],
    pub src_port: u16,
    pub dst_addr: [u8; 4],
    pub dst_port: u16,
}

/// A request the state machine does not implement in the connection's state.
#[derive(Clone, Copy, Debug, PartialEq, Eq, Structural)]
pub enum TcpError {
    UnexpectedTransition,
}

/// Transmission control block: what a connection needs to remember.
/// `send_ip_header` and `send_tcp_header` fix the addresses and ports of the
/// reverse direction; each transmission fills in the rest.
#[derive(Clone, Copy, Debug)]
pub struct Tcb {
    pub state: State,
    pub recv: RecvSequenceVariables,
    pub send: SendSequenceVariables,
    pub send_ip_header: Ipv4Fields,
    pub send_tcp_header: TcpFields,
}

/// The sequence space a segment occupies: its payload, plus one for SYN and one for FIN.
pub open spec fn segment_len(tcp: TcpFields, payload_len: nat) -> nat {
    payload_len + (if tcp.syn { 1nat } else { 0 }) + (if tcp.fin { 1nat } else { 0 })
}

/// How many octets of a payload of `len` one datagram carries: at most
/// `MAX_PAYLOAD`, what fits in one MTU beside the two headers.
pub open spec fn written_len(len: nat) -> nat {
    if len < MAX_PAYLOAD {
        len
    } else {
        MAX_PAYLOAD as nat
    }
}

/// Segment acceptability (RFC 793, section 3.3).
pub open spec fn segment_acceptable(rcv_nxt: u32, rcv_wnd: u16, seq: u32, len: nat) -> bool {
    if len == 0 {
        if rcv_wnd == 0 {
            seq == rcv_nxt
        } else {
            in_window(seq, rcv_nxt, rcv_wnd)
        }
    } else {
        rcv_wnd != 0 && (in_window(seq, rcv_nxt, rcv_wnd) || in_window(
            seq_add(seq, len - 1),
            rcv_nxt,
            rcv_wnd,
        ))
    }
}

/// How far `RCV.NXT` moves for a segment of `len` starting at `seq`: to the end of
/// the part of the segment that lies in the receive window.
#[verifier::opaque]
pub open spec fn consumed(rcv_nxt: u32, rcv_wnd: u16, seq: u32, len: nat) -> nat {
    if len == 0 {
        0
    } else if in_window(seq, rcv_nxt, rcv_wnd) {
        let end = seq_diff(seq, rcv_nxt) + len;
        if end < rcv_wnd {
            end as nat
        } else {
            rcv_wnd as nat
        }
    } else if in_window(seq_add(seq, len - 1), rcv_nxt, rcv_wnd) {
        (seq_diff(seq_add(seq, len - 1), rcv_nxt) + 1) as nat
    } else {
        0
    }
}

/// The whole of an acceptable segment, up to its last octet, lies inside the window.
pub open spec fn reaches_end(rcv_nxt: u32, rcv_wnd: u16, seq: u32, len: nat) -> bool {
    in_window(seq, rcv_nxt, rcv_wnd) ==> seq_diff(seq, rcv_nxt) + len <= rcv_wnd
}

/// The segment `t` sends next, carrying SYN and FIN as given.
pub open spec fn header_for(t: Tcb, syn: bool, fin: bool) -> TcpFields {
    TcpFields {
        source_port: t.send_tcp_header.source_port,
        destination_port: t.send_tcp_header.destination_port,
        sequence_number: t.send.nxt,
        acknowledgment_number: t.recv.nxt,
        syn,
        ack: true,
        fin,
        rst: false,
        window_size: t.send.wnd,
        checksum: 0,
    }
}

/// A reset with sequence number `seq`.
pub open spec fn rst_header(t: Tcb, seq: u32) -> TcpFields {
    TcpFields {
        source_port: t.send_tcp_header.source_port,
        destination_port: t.send_tcp_header.destination_port,
        sequence_number: seq,
        acknowledgment_number: 0,
        syn: false,
        ack: false,
        fin: false,
        rst: true,
        window_size: t.send.wnd,
        checksum: 0,
    }
}

/// The block before its SYN|ACK is sent, for a SYN from the peer.
pub open spec fn initial_tcb(ip: Ipv4Fields, tcp: TcpFields) -> Tcb {
    Tcb {
        state: State::SynRcvd,
        recv: RecvSequenceVariables {
            nxt: seq_add(tcp.sequence_number, 1),
            wnd: tcp.window_size,
            up: false,
            irs: tcp.sequence_number,
        },
        send: SendSequenceVariables {
            una: ISS,
            nxt: ISS,
            wnd: SEND_WINDOW,
            up: false,
            wl1: 0,
            wl2: 0,
            iss: ISS,
        },
        send_ip_header: Ipv4Fields {
            source: ip.destination,
            destination: ip.source,
            total_len: 40,
            time_to_live: TTL,
            protocol: PROTOCOL_TCP,
            header_checksum: 0,
        },
        send_tcp_header: TcpFields {
            source_port: tcp.destination_port,
            destination_port: tcp.source_port,
            sequence_number: ISS,
            acknowledgment_number: seq_add(tcp.sequence_number, 1),
            syn: false,
            ack: true,
            fin: false,
            rst: false,
            window_size: SEND_WINDOW,
            checksum: 0,
        },
    }
}

/// The block once its SYN|ACK has been sent.
pub open spec fn accepted(ip: Ipv4Fields, tcp: TcpFields) -> Tcb {
    let t = initial_tcb(ip, tcp);
    Tcb { send: SendSequenceVariables { nxt: seq_add(ISS, 1), ..t.send }, ..t }
}

/// In SYN-RECEIVED, an acknowledgement of anything but our SYN.
pub open spec fn unacceptable_ack_in_syn_rcvd(t: Tcb, tcp: TcpFields) -> bool {
    t.state is SynRcvd && tcp.ack && !in_open_interval(
        tcp.acknowledgment_number,
        t.send.una,
        seq_add(t.send.nxt, 1),
    )
}

/// In a synchronised state, an acknowledgement outside `[SND.UNA, SND.NXT]`.
pub open spec fn ack_out_of_range(t: Tcb, tcp: TcpFields) -> bool {
    t.state.synchronised() && !in_open_interval(
        tcp.acknowledgment_number,
        seq_add(t.send.una, -1),
        seq_add(t.send.nxt, 1),
    )
}

/// The state after our own FIN was acknowledged, `una` being the new `SND.UNA`.
pub open spec fn after_ack(state: State, una: u32, iss: u32) -> State {
    if state is SynRcvd {
        State::Estab
    } else if state is FinWait1 && una == seq_add(iss, 2) {
        State::FinWait2
    } else if state is Closing && una == seq_add(iss, 2) {
        State::TimeWait
    } else {
        state
    }
}

/// The state after the peer's FIN was taken in.
pub open spec fn after_fin(state: State) -> State {
    match state {
        State::Estab => State::CloseWait,
        State::FinWait1 => State::Closing,
        State::FinWait2 => State::TimeWait,
        _ => state,
    }
}

/// What a segment that is taken in does to the block.
#[verifier::opaque]
pub open spec fn taken_in(t: Tcb, tcp: TcpFields, payload_len: nat) -> Tcb {
    let len = segment_len(tcp, payload_len);
    let una = if in_open_interval(tcp.acknowledgment_number, t.send.una, seq_add(t.send.nxt, 1)) {
        tcp.acknowledgment_number
    } else {
        t.send.una
    };
    let acked_state = after_ack(t.state, una, t.send.iss);
    let adv = consumed(t.recv.nxt, t.recv.wnd, tcp.sequence_number, len);
    let fin_in = tcp.fin && reaches_end(t.recv.nxt, t.recv.wnd, tcp.sequence_number, len);
    Tcb {
        state: if fin_in {
            after_fin(acked_state)
        } else {
            acked_state
        },
        send: SendSequenceVariables { una, ..t.send },
        recv: RecvSequenceVariables { nxt: seq_add(t.recv.nxt, adv as int), ..t.recv },
        ..t
    }
}

/// The next block, and the segment sent in answer if any, when `t` receives the
/// segment `tcp` with `payload_len` bytes of payload.
pub open spec fn on_segment(t: Tcb, tcp: TcpFields, payload_len: nat) -> (Tcb, Option<TcpFields>) {
    let len = segment_len(tcp, payload_len);
    if unacceptable_ack_in_syn_rcvd(t, tcp) {
        (t, Some(rst_header(t, tcp.acknowledgment_number)))
    } else if !segment_acceptable(t.recv.nxt, t.recv.wnd, tcp.sequence_number, len) {
        if tcp.rst {
            (t, None)
        } else {
            (t, Some(header_for(t, false, false)))
        }
    } else if tcp.rst || !tcp.ack || ack_out_of_range(t, tcp) {
        (t, None)
    } else {
        let n = taken_in(t, tcp, payload_len);
        if consumed(t.recv.nxt, t.recv.wnd, tcp.sequence_number, len) > 0 {
            (n, Some(header_for(n, false, false)))
        } else {
            (n, None)
        }
    }
}

/// `r` is the datagram that carries `h` from the block's addresses, or nothing if `h` is.
pub open spec fn sends(r: Option<Vec<u8>>, ip: Ipv4Fields, h: Option<TcpFields>) -> bool {
    match h {
        Some(h) => r matches Some(d) && d@ == datagram(ip, h, seq![]),
        None => r is None,
    }
}

/// The three-way handshake: once the SYN|ACK answering a SYN has been acknowledged
/// by the peer's next segment, the connection is established, our SYN is the only
/// thing acknowledged, the peer's SYN has been taken in, and nothing is sent.
pub proof fn lemma_handshake(ip: Ipv4Fields, syn: TcpFields, ack: TcpFields)
    requires
        syn.syn,
        ack.ack,
        !ack.syn,
        !ack.fin,
        !ack.rst,
        ack.sequence_number == seq_add(syn.sequence_number, 1),
        ack.acknowledgment_number == seq_add(ISS, 1),
    ensures
        on_segment(accepted(ip, syn), ack, 0).0.state == State::Estab,
        on_segment(accepted(ip, syn), ack, 0).0.send.una == seq_add(ISS, 1),
        on_segment(accepted(ip, syn), ack, 0).0.send.nxt == seq_add(ISS, 1),
        on_segment(accepted(ip, syn), ack, 0).0.recv.nxt == seq_add(syn.sequence_number, 1),
        on_segment(accepted(ip, syn), ack, 0).1 is None,
{
    reveal(taken_in);
    reveal(consumed);
    let t = accepted(ip, syn);
    assert(seq_diff(ack.sequence_number, t.recv.nxt) == 0);
}

/// In SYN-RECEIVED, a segment whose acknowledgement is not of our SYN is answered by
/// exactly one reset, whose sequence number is the offending acknowledgement, and the
/// block is left as it was; in particular `SND.NXT` does not move.
pub proof fn lemma_reset_on_unacceptable_ack(t: Tcb, tcp: TcpFields, payload_len: nat)
    requires
        t.state is SynRcvd,
        tcp.ack,
        !in_open_interval(tcp.acknowledgment_number, t.send.una, seq_add(t.send.nxt, 1)),
    ensures
        on_segment(t, tcp, payload_len).0 == t,
        on_segment(t, tcp, payload_len).1 matches Some(h) && h.rst && !h.syn && !h.fin
            && h.sequence_number == tcp.acknowledgment_number,
{
}

/// In a synchronised state, a segment that fails the acceptability test and is not a
/// reset is answered by exactly one acknowledgement, `SEQ = SND.NXT` and
/// `ACK = RCV.NXT`, with no SYN, FIN or RST; the block is left as it was.
pub proof fn lemma_ack_on_unacceptable_segment(t: Tcb, tcp: TcpFields, payload_len: nat)
    requires
        t.state.synchronised(),
        !segment_acceptable(
            t.recv.nxt,
            t.recv.wnd,
            tcp.sequence_number,
            segment_len(tcp, payload_len),
        ),
        !tcp.rst,
    ensures
        on_segment(t, tcp, payload_len).0 == t,
        on_segment(t, tcp, payload_len).1 matches Some(h) && h.ack && !h.syn && !h.fin && !h.rst
            && h.sequence_number == t.send.nxt && h.acknowledgment_number == t.recv.nxt,
{
}

/// `RCV.NXT` moves only for a segment that is taken in, and then by exactly the
/// length of its part that lies in the receive window, which is at most the window;
/// a segment that starts at `RCV.NXT` and fits the window moves it by its whole length.
pub proof fn lemma_rcv_nxt_advance(t: Tcb, tcp: TcpFields, payload_len: nat)
    ensures
        ({
            let len = segment_len(tcp, payload_len);
            let n = on_segment(t, tcp, payload_len).0;
            let taken = !unacceptable_ack_in_syn_rcvd(t, tcp) && segment_acceptable(
                t.recv.nxt,
                t.recv.wnd,
                tcp.sequence_number,
                len,
            ) && !tcp.rst && tcp.ack && !ack_out_of_range(t, tcp);
            &&& taken ==> n.recv.nxt == seq_add(
                t.recv.nxt,
                consumed(t.recv.nxt, t.recv.wnd, tcp.sequence_number, len) as int,
            )
            &&& !taken ==> n.recv.nxt == t.recv.nxt
            &&& consumed(t.recv.nxt, t.recv.wnd, tcp.sequence_number, len) <= t.recv.wnd
            &&& tcp.sequence_number == t.recv.nxt && len <= t.recv.wnd ==> consumed(
                t.recv.nxt,
                t.recv.wnd,
                tcp.sequence_number,
                len,
            ) == len
        }),
{
    reveal(taken_in);
    reveal(consumed);
}

/// Every transition of the state machine keeps a well-formed block well-formed.
pub proof fn lemma_on_segment_keeps_wf(t: Tcb, tcp: TcpFields, payload_len: nat)
    requires
        t.wf(),
    ensures
        on_segment(t, tcp, payload_len).0.wf(),
{
    reveal(taken_in);
    let ack = tcp.acknowledgment_number;
    let d = seq_diff(t.send.nxt, t.send.una);
    assert(seq_diff(seq_add(t.send.nxt, 1), t.send.una) == d + 1);
    if in_open_interval(ack, t.send.una, seq_add(t.send.nxt, 1)) {
        assert(seq_diff(t.send.nxt, ack) == d - seq_diff(ack, t.send.una));
    }
}

/// `x` lies in the window `[base, base + wnd)`.
fn in_window_exec(x: u32, base: u32, wnd: u16) -> (r: bool)
    ensures
        r == in_window(x, base, wnd),
{
    proof {
        lemma_window_as_interval(x, base, wnd);
    }
    is_between_values_wrapped(x, base.wrapping_sub(1), base.wrapping_add(wnd as u32))
}

/// Exec form of `consumed`.
fn consumed_len(rcv_nxt: u32, rcv_wnd: u16, seq: u32, len: u32) -> (r: u32)
    ensures
        r == consumed(rcv_nxt, rcv_wnd, seq, len as nat),
{
    proof {
        reveal(consumed);
    }
    if len == 0 {
        0
    } else if in_window_exec(seq, rcv_nxt, rcv_wnd) {
        let end: u64 = seq.wrapping_sub(rcv_nxt) as u64 + len as u64;
        if end < rcv_wnd as u64 {
            end as u32
        } else {
            rcv_wnd as u32
        }
    } else {
        let last = seq_add_exec(seq, len - 1);
        if in_window_exec(last, rcv_nxt, rcv_wnd) {
            last.wrapping_sub(rcv_nxt) + 1
        } else {
            0
        }
    }
}

/// Exec form of `after_ack`.
fn next_after_ack(state: State, una: u32, iss: u32) -> (r: State)
    ensures
        r == after_ack(state, una, iss),
{
    let fin_acked = una == seq_add_exec(iss, 2);
    match state {
        State::SynRcvd => State::Estab,
        State::FinWait1 if fin_acked => State::FinWait2,
        State::Closing if fin_acked => State::TimeWait,
        s => s,
    }
}

/// Exec form of `after_fin`.
fn next_after_fin(state: State) -> (r: State)
    ensures
        r == after_fin(state),
{
    match state {
        State::Estab => State::CloseWait,
        State::FinWait1 => State::Closing,
        State::FinWait2 => State::TimeWait,
        s => s,
    }
}

impl Tcb {
    /// The send variables keep the order `SND.UNA <= SND.NXT <= SND.UNA + SND.WND` of
    /// sequence space, with a window of at least one octet. In SYN-RECEIVED only our
    /// SYN is outstanding; in ESTABLISHED and CLOSE-WAIT, from which a FIN may still be
    /// sent, all that was sent has been acknowledged.
    pub open spec fn wf(self) -> bool {
        &&& 0 < self.send.wnd
        &&& seq_diff(self.send.nxt, self.send.una) <= self.send.wnd
        &&& self.state is SynRcvd ==> seq_diff(self.send.nxt, self.send.una) == 1
        &&& (self.state is Estab || self.state is CloseWait) ==> self.send.una == self.send.nxt
    }

    /// Opens a connection for a SYN that arrived on a flow with no block: the answer
    /// is a SYN|ACK, and the new block is in SYN-RECEIVED. Any other segment opens
    /// nothing.
    pub fn accept_connection(ip_header: &Ipv4Fields, tcp_header: &TcpFields, data: &[u8]) -> (r:
        Option<(Tcb, Vec<u8>)>)
        ensures
            !tcp_header.syn ==> r is None,
            tcp_header.syn ==> (r matches Some((t, d)) && t == accepted(*ip_header, *tcp_header)
                && t.wf() && d@ == datagram(
                t.send_ip_header,
                header_for(initial_tcb(*ip_header, *tcp_header), true, false),
                seq![],
            )),
    {
        if !tcp_header.syn {
            return None;
        }
        let irs = tcp_header.sequence_number;
        let nxt = seq_add_exec(irs, 1);
        let mut tcb = Tcb {
            state: State::SynRcvd,
            recv: RecvSequenceVariables { nxt, wnd: tcp_header.window_size, up: false, irs },
            send: SendSequenceVariables {
                una: ISS,
                nxt: ISS,
                wnd: SEND_WINDOW,
                up: false,
                wl1: 0,
                wl2: 0,
                iss: ISS,
            },
            send_ip_header: Ipv4Fields {
                source: ip_header.destination,
                destination: ip_header.source,
                total_len: 40,
                time_to_live: TTL,
                protocol: PROTOCOL_TCP,
                header_checksum: 0,
            },
            send_tcp_header: TcpFields {
                source_port: tcp_header.destination_port,
                destination_port: tcp_header.source_port,
                sequence_number: ISS,
                acknowledgment_number: nxt,
                syn: false,
                ack: true,
                fin: false,
                rst: false,
                window_size: SEND_WINDOW,
                checksum: 0,
            },
        };
        let empty: Vec<u8> = Vec::new();
        assert(empty@.take(0) =~= Seq::<u8>::empty());
        let (syn_ack, _) = tcb.write(true, false, empty.as_slice());
        Some((tcb, syn_ack))
    }

    /// Advances the state machine for a segment on an open connection and returns
    /// the datagram to send in answer, if any.
    pub fn on_packet(&mut self, ip_header: &Ipv4Fields, tcp_header: &TcpFields, data: &[u8]) -> (r:
        Option<Vec<u8>>)
        requires
            data@.len() <= MAX_SEGMENT_PAYLOAD,
        ensures
            *final(self) == on_segment(*old(self), *tcp_header, data@.len()).0,
            sends(r, old(self).send_ip_header, on_segment(*old(self), *tcp_header, data@.len()).1),
            old(self).wf() ==> final(self).wf(),
    {
        proof {
            if self.wf() {
                lemma_on_segment_keeps_wf(*self, *tcp_header, data@.len());
            }
        }
        let ghost t = *self;
        let ghost plen = data@.len();
        let ghost next = on_segment(t, *tcp_header, plen);
        let seq = tcp_header.sequence_number;
        let ackn = tcp_header.acknowledgment_number;
        let seg_len: u32 = data.len() as u32 + if tcp_header.syn { 1 } else { 0 } + if tcp_header.fin {
            1
        } else {
            0
        };
        assert(seg_len == segment_len(*tcp_header, plen));
        let empty: Vec<u8> = Vec::new();
        assert(empty@.take(0) =~= Seq::<u8>::empty());
        if matches!(self.state, State::SynRcvd) && tcp_header.ack && !is_between_values_wrapped(
            ackn,
            self.send.una,
            seq_add_exec(self.send.nxt, 1),
        ) {
            assert(unacceptable_ack_in_syn_rcvd(t, *tcp_header));
            return Some(self.send_rst(ackn));
        }
        assert(!unacceptable_ack_in_syn_rcvd(t, *tcp_header));
        if !self.is_segment_valid(seq, seg_len) {
            if tcp_header.rst {
                return None;
            }
            return Some(self.write(false, false, empty.as_slice()).0);
        }
        if tcp_header.rst || !tcp_header.ack {
            return None;
        }
        if self.state.is_synchronised() && !is_between_values_wrapped(
            ackn,
            self.send.una.wrapping_sub(1),
            seq_add_exec(self.send.nxt, 1),
        ) {
            assert(ack_out_of_range(t, *tcp_header));
            return None;
        }
        assert(!ack_out_of_range(t, *tcp_header));
        assert(next == (if consumed(t.recv.nxt, t.recv.wnd, seq, seg_len as nat) > 0 {
            (taken_in(t, *tcp_header, plen), Some(header_for(taken_in(t, *tcp_header, plen), false, false)))
        } else {
            (taken_in(t, *tcp_header, plen), None)
        }));
        let adv = self.take_in(tcp_header, data.len());
        if adv > 0 {
            Some(self.write(false, false, empty.as_slice()).0)
        } else {
            None
        }
    }

    /// Takes in a segment that passed the acceptability tests: records its
    /// acknowledgement, moves the state, and advances `RCV.NXT`; returns how far.
    fn take_in(&mut self, tcp_header: &TcpFields, payload_len: usize) -> (r: u32)
        requires
            payload_len <= MAX_SEGMENT_PAYLOAD,
        ensures
            *final(self) == taken_in(*old(self), *tcp_header, payload_len as nat),
            final(self).send_ip_header == old(self).send_ip_header,
            r == consumed(
                old(self).recv.nxt,
                old(self).recv.wnd,
                tcp_header.sequence_number,
                segment_len(*tcp_header, payload_len as nat),
            ),
    {
        let seg_len: u32 = payload_len as u32 + if tcp_header.syn { 1 } else { 0 } + if tcp_header.fin {
            1
        } else {
            0
        };
        proof {
            reveal(taken_in);
        }
        let seq = tcp_header.sequence_number;
        let ackn = tcp_header.acknowledgment_number;
        if is_between_values_wrapped(ackn, self.send.una, seq_add_exec(self.send.nxt, 1)) {
            self.send.una = ackn;
        }
        let acked_state = next_after_ack(self.state, self.send.una, self.send.iss);
        let adv = consumed_len(self.recv.nxt, self.recv.wnd, seq, seg_len);
        let fin_in = tcp_header.fin && (!in_window_exec(seq, self.recv.nxt, self.recv.wnd)
            || seq.wrapping_sub(self.recv.nxt) as u64 + seg_len as u64 <= self.recv.wnd as u64);
        self.recv.nxt = seq_add_exec(self.recv.nxt, adv);
        self.state = if fin_in {
            next_after_fin(acked_state)
        } else {
            acked_state
        };
        adv
    }

    /// Closes the sending side of an established connection: sends FIN and moves to
    /// FIN-WAIT-1. In any other state nothing is sent and the block is unchanged.
    pub fn close(&mut self) -> (r: Result<Vec<u8>, TcpError>)
        ensures
            old(self).state is Estab ==> (r matches Ok(d) && d@ == datagram(
                old(self).send_ip_header,
                header_for(*old(self), false, true),
                seq![],
            ) && *final(self) == (Tcb {
                state: State::FinWait1,
                send: SendSequenceVariables { nxt: seq_add(old(self).send.nxt, 1), ..old(self).send },
                ..*old(self)
            })),
            !(old(self).state is Estab) ==> r == Err::<Vec<u8>, TcpError>(
                TcpError::UnexpectedTransition,
            ) && *final(self) == *old(self),
            old(self).wf() ==> final(self).wf(),
    {
        if !matches!(self.state, State::Estab) {
            return Err(TcpError::UnexpectedTransition);
        }
        let empty: Vec<u8> = Vec::new();
        assert(empty@.take(0) =~= Seq::<u8>::empty());
        let (fin, _) = self.write(false, true, empty.as_slice());
        self.state = State::FinWait1;
        Ok(fin)
    }

    /// Frames the next segment, carrying SYN and FIN as given and the first
    /// `written_len(payload.len())` octets of `payload`, and advances `SND.NXT` over the
    /// sequence space it occupies. Returns the datagram and the number of payload
    /// octets it carries.
    fn write(&mut self, syn: bool, fin: bool, payload: &[u8]) -> (r: (Vec<u8>, usize))
        ensures
            r.1 == written_len(payload@.len()),
            r.0@ == datagram(
                old(self).send_ip_header,
                header_for(*old(self), syn, fin),
                payload@.take(r.1 as int),
            ),
            *final(self) == (Tcb {
                send: SendSequenceVariables {
                    nxt: seq_add(
                        old(self).send.nxt,
                        r.1 + (if syn { 1int } else { 0 }) + (if fin { 1int } else { 0 }),
                    ),
                    ..old(self).send
                },
                ..*old(self)
            }),
    {
        let n: usize = if payload.len() < MAX_PAYLOAD {
            payload.len()
        } else {
            MAX_PAYLOAD
        };
        let mut body: Vec<u8> = Vec::new();
        let mut i: usize = 0;
        while i < n
            invariant
                n <= payload@.len(),
                i <= n,
                body@ == payload@.subrange(0, i as int),
            decreases n - i,
        {
            body.push(payload[i]);
            i = i + 1;
            assert(body@ =~= payload@.subrange(0, i as int));
        }
        assert(body@ =~= payload@.take(n as int));
        let h = TcpFields {
            source_port: self.send_tcp_header.source_port,
            destination_port: self.send_tcp_header.destination_port,
            sequence_number: self.send.nxt,
            acknowledgment_number: self.recv.nxt,
            syn,
            ack: true,
            fin,
            rst: false,
            window_size: self.send.wnd,
            checksum: 0,
        };
        let out = frame(&self.send_ip_header, &h, body.as_slice());
        let used: u32 = n as u32 + if syn { 1 } else { 0 } + if fin { 1 } else { 0 };
        self.send.nxt = seq_add_exec(self.send.nxt, used);
        (out, n)
    }

    /// Frames a reset in answer to a segment whose acknowledgement `seg_ack` was not
    /// acceptable. Before the connection is synchronised its sequence number is
    /// `seg_ack`, after that `SND.NXT`. It occupies no sequence space.
    fn send_rst(&self, seg_ack: u32) -> (r: Vec<u8>)
        ensures
            !self.state.synchronised() ==> r@ == datagram(
                self.send_ip_header,
                rst_header(*self, seg_ack),
                seq![],
            ),
            self.state.synchronised() ==> r@ == datagram(
                self.send_ip_header,
                rst_header(*self, self.send.nxt),
                seq![],
            ),
    {
        let seq = if self.state.is_synchronised() {
            self.send.nxt
        } else {
            seg_ack
        };
        let h = TcpFields {
            source_port: self.send_tcp_header.source_port,
            destination_port: self.send_tcp_header.destination_port,
            sequence_number: seq,
            acknowledgment_number: 0,
            syn: false,
            ack: false,
            fin: false,
            rst: true,
            window_size: self.send.wnd,
            checksum: 0,
        };
        let empty: Vec<u8> = Vec::new();
        frame(&self.send_ip_header, &h, empty.as_slice())
    }

    /// Segment acceptability (RFC 793, section 3.3) of a segment of `seg_len` starting
    /// at `seq`. It reads the receive variables and changes nothing.
    fn is_segment_valid(&self, seq: u32, seg_len: u32) -> (r: bool)
        ensures
            r == segment_acceptable(self.recv.nxt, self.recv.wnd, seq, seg_len as nat),
    {
        if seg_len == 0 {
            if self.recv.wnd == 0 {
                seq == self.recv.nxt
            } else {
                in_window_exec(seq, self.recv.nxt, self.recv.wnd)
            }
        } else if self.recv.wnd == 0 {
            false
        } else {
            in_window_exec(seq, self.recv.nxt, self.recv.wnd) || in_window_exec(
                seq_add_exec(seq, seg_len - 1),
                self.recv.nxt,
                self.recv.wnd,
            )
        }
    }
}

} // verus!
