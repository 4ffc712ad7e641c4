use etherparse::{Ipv4HeaderSlice, TcpHeaderSlice};
use tcp_rs::seq_space::is_between_values_wrapped;
use tcp_rs::tcp::{
    ConnectInfo, RecvSequenceVariables, SendSequenceVariables, State, Tcb, TcpError,
};
use tcp_rs::wire::{frame, Ipv4Fields, TcpFields};
use tcp_rs::{EtherType, IpNumber, ETH_MTU, PACKET_BUF_SIZE};

const PEER: [u8; 4] = [192, 168, 0, 2];
const US: [u8; 4] = [192, 168, 0, 1];

fn ip_in() -> Ipv4Fields {
    Ipv4Fields {
        source: PEER,
        destination: US,
        total_len: 40,
        time_to_live: 64,
        protocol: 6,
        header_checksum: 0,
    }
}

fn segment(seq: u32, ack_no: u32, window: u16) -> TcpFields {
    TcpFields {
        source_port: 40000,
        destination_port: 80,
        sequence_number: seq,
        acknowledgment_number: ack_no,
        syn: false,
        ack: true,
        fin: false,
        rst: false,
        window_size: window,
        checksum: 0,
    }
}

fn syn(seq: u32, window: u16) -> TcpFields {
    TcpFields { syn: true, ack: false, acknowledgment_number: 0, ..segment(seq, 0, window) }
}

struct Sent {
    seq: u32,
    ack_no: u32,
    syn: bool,
    ack: bool,
    fin: bool,
    rst: bool,
    window: u16,
    payload_len: usize,
}

/// Parses an emitted datagram and checks both of its checksums.
fn parse(d: &[u8]) -> Sent {
    let ip = Ipv4HeaderSlice::from_slice(d).expect("ipv4 header");
    assert_eq!(ip.source(), US);
    assert_eq!(ip.destination(), PEER);
    assert_eq!(ip.ttl(), 64);
    assert_eq!(ip.protocol(), etherparse::IpNumber::TCP);
    assert_eq!(ip.total_len() as usize, d.len());
    assert_eq!(ip.header_checksum(), ip.to_header().calc_header_checksum());
    let tcp = TcpHeaderSlice::from_slice(&d[20..]).expect("tcp header");
    assert_eq!(tcp.source_port(), 80);
    assert_eq!(tcp.destination_port(), 40000);
    let payload = &d[40..];
    let sum = tcp.calc_checksum_ipv4_raw(US, PEER, payload).expect("checksum");
    assert_eq!(tcp.checksum(), sum);
    Sent {
        seq: tcp.sequence_number(),
        ack_no: tcp.acknowledgment_number(),
        syn: tcp.syn(),
        ack: tcp.ack(),
        fin: tcp.fin(),
        rst: tcp.rst(),
        window: tcp.window_size(),
        payload_len: payload.len(),
    }
}

/// Runs the three-way handshake with a peer whose initial sequence number is `iss`.
fn handshake(iss: u32, window: u16) -> Tcb {
    let (mut tcb, _) = Tcb::accept_connection(&ip_in(), &syn(iss, window), &[]).expect("tcb");
    let r = tcb.on_packet(&ip_in(), &segment(iss.wrapping_add(1), 1, window), &[]);
    assert!(r.is_none());
    tcb
}

#[test]
fn three_way_handshake_completes() {
    let (mut tcb, syn_ack) = Tcb::accept_connection(&ip_in(), &syn(1000, 64240), &[]).expect("tcb");
    let s = parse(&syn_ack);
    assert!(s.syn && s.ack && !s.fin && !s.rst);
    assert_eq!(s.seq, 0);
    assert_eq!(s.ack_no, 1001);
    assert_eq!(s.window, 1024);
    assert_eq!(s.payload_len, 0);
    assert_eq!(tcb.state, State::SynRcvd);
    assert_eq!(tcb.send.nxt, 1);

    let r = tcb.on_packet(&ip_in(), &segment(1001, 1, 64240), &[]);
    assert!(r.is_none());
    assert_eq!(tcb.state, State::Estab);
    assert_eq!(tcb.send.una, 1);
    assert_eq!(tcb.send.nxt, 1);
    assert_eq!(tcb.recv.nxt, 1001);
}

#[test]
fn bad_ack_in_syn_rcvd_elicits_rst() {
    let (mut tcb, syn_ack) = Tcb::accept_connection(&ip_in(), &syn(500, 64240), &[]).expect("tcb");
    let s = parse(&syn_ack);
    assert_eq!((s.seq, s.ack_no), (0, 501));

    let r = tcb.on_packet(&ip_in(), &segment(501, 9999, 64240), &[]).expect("rst");
    let s = parse(&r);
    assert!(s.rst && !s.syn && !s.fin);
    assert_eq!(s.seq, 9999);
    assert_eq!(s.payload_len, 0);
    assert_eq!(tcb.state, State::SynRcvd);
    assert_eq!(tcb.send.nxt, 1);
}

#[test]
fn out_of_window_segment_elicits_ack() {
    let mut tcb = handshake(1000, 64240);
    let beyond = 1001u32 + 64240;
    let r = tcb.on_packet(&ip_in(), &segment(beyond, 1, 64240), &[1, 2, 3, 4]).expect("ack");
    let s = parse(&r);
    assert!(s.ack && !s.syn && !s.fin && !s.rst);
    assert_eq!((s.seq, s.ack_no), (1, 1001));
    assert_eq!(s.payload_len, 0);
    assert_eq!(tcb.state, State::Estab);
    assert_eq!(tcb.recv.nxt, 1001);
    assert_eq!(tcb.send.nxt, 1);
}

#[test]
fn segment_past_small_window_elicits_ack() {
    let mut tcb = handshake(1000, 500);
    let r = tcb.on_packet(&ip_in(), &segment(2000, 1, 500), &[1, 2, 3, 4]).expect("ack");
    let s = parse(&r);
    assert_eq!((s.seq, s.ack_no), (1, 1001));
    assert_eq!(tcb.state, State::Estab);
    assert_eq!(tcb.recv.nxt, 1001);
}

#[test]
fn active_close_after_handshake() {
    let mut tcb = handshake(1000, 64240);
    let fin = tcb.close().expect("fin");
    let s = parse(&fin);
    assert!(s.fin && s.ack && !s.syn);
    assert_eq!((s.seq, s.ack_no), (1, 1001));
    assert_eq!(tcb.state, State::FinWait1);
    assert_eq!(tcb.send.nxt, 2);

    let r = tcb.on_packet(&ip_in(), &segment(1001, 2, 64240), &[]);
    assert!(r.is_none());
    assert_eq!(tcb.state, State::FinWait2);

    let peer_fin = TcpFields { fin: true, ..segment(1001, 2, 64240) };
    let r = tcb.on_packet(&ip_in(), &peer_fin, &[]).expect("ack of fin");
    let s = parse(&r);
    assert!(s.ack && !s.fin);
    assert_eq!((s.seq, s.ack_no), (2, 1002));
    assert_eq!(tcb.state, State::TimeWait);
}

#[test]
fn close_outside_estab_is_refused() {
    let (mut tcb, _) = Tcb::accept_connection(&ip_in(), &syn(7, 100), &[]).expect("tcb");
    assert_eq!(tcb.close(), Err(TcpError::UnexpectedTransition));
    assert_eq!(tcb.state, State::SynRcvd);
    assert_eq!(tcb.send.nxt, 1);
}

#[test]
fn peer_fin_in_estab_moves_to_close_wait() {
    let mut tcb = handshake(1000, 64240);
    let peer_fin = TcpFields { fin: true, ..segment(1001, 1, 64240) };
    let r = tcb.on_packet(&ip_in(), &peer_fin, &[]).expect("ack of fin");
    let s = parse(&r);
    assert_eq!((s.seq, s.ack_no), (1, 1002));
    assert_eq!(tcb.state, State::CloseWait);
}

#[test]
fn data_in_estab_is_acknowledged() {
    let mut tcb = handshake(1000, 64240);
    let r = tcb.on_packet(&ip_in(), &segment(1001, 1, 64240), &[9; 10]).expect("ack");
    let s = parse(&r);
    assert_eq!((s.seq, s.ack_no), (1, 1011));
    assert_eq!(tcb.recv.nxt, 1011);
    assert_eq!(tcb.state, State::Estab);
}

fn estab_at(rcv_nxt: u32, rcv_wnd: u16) -> Tcb {
    let mut tcb = handshake(1000, 64240);
    tcb.recv = RecvSequenceVariables { nxt: rcv_nxt, wnd: rcv_wnd, ..tcb.recv };
    tcb
}

#[test]
fn sequence_wrap() {
    let mut tcb = estab_at(0xFFFF_FFF0, 32);
    let r = tcb.on_packet(&ip_in(), &segment(0x0000_0005, 1, 64240), &[1, 2, 3, 4]);
    assert!(r.is_some());
    assert_eq!(tcb.recv.nxt, 0x0000_0009);
}

#[test]
fn segment_reaching_past_window_is_clipped() {
    let mut tcb = estab_at(100, 10);
    let r = tcb.on_packet(&ip_in(), &segment(105, 1, 64240), &[0; 20]).expect("ack");
    assert_eq!(parse(&r).ack_no, 110);
    assert_eq!(tcb.recv.nxt, 110);
}

#[test]
fn zero_window_takes_only_empty_segment_at_rcv_nxt() {
    let mut tcb = estab_at(100, 0);
    assert!(tcb.on_packet(&ip_in(), &segment(100, 1, 64240), &[]).is_none());
    assert_eq!(tcb.recv.nxt, 100);
    let r = tcb.on_packet(&ip_in(), &segment(101, 1, 64240), &[]).expect("ack");
    assert_eq!(parse(&r).ack_no, 100);
    let r = tcb.on_packet(&ip_in(), &segment(100, 1, 64240), &[1]).expect("ack");
    assert_eq!(parse(&r).ack_no, 100);
    assert_eq!(tcb.recv.nxt, 100);
}

#[test]
fn unacceptable_rst_is_dropped_silently() {
    let mut tcb = handshake(1000, 100);
    let rst = TcpFields { rst: true, ..segment(5000, 1, 100) };
    assert!(tcb.on_packet(&ip_in(), &rst, &[]).is_none());
    assert_eq!(tcb.state, State::Estab);
}

#[test]
fn ack_beyond_snd_nxt_is_dropped_silently() {
    let mut tcb = handshake(1000, 64240);
    let r = tcb.on_packet(&ip_in(), &segment(1001, 50, 64240), &[1, 2]);
    assert!(r.is_none());
    assert_eq!(tcb.recv.nxt, 1001);
    assert_eq!(tcb.send.una, 1);
}

#[test]
fn non_syn_to_unknown_key_is_ignored() {
    assert!(Tcb::accept_connection(&ip_in(), &segment(10, 20, 100), &[]).is_none());
    let rst = TcpFields { rst: true, ack: false, ..segment(10, 0, 100) };
    assert!(Tcb::accept_connection(&ip_in(), &rst, &[]).is_none());
}

#[test]
fn syn_at_top_of_sequence_space_wraps() {
    let (tcb, syn_ack) = Tcb::accept_connection(&ip_in(), &syn(u32::MAX, 10), &[]).expect("tcb");
    assert_eq!(tcb.recv.irs, u32::MAX);
    assert_eq!(tcb.recv.nxt, 0);
    assert_eq!(parse(&syn_ack).ack_no, 0);
}

#[test]
fn open_interval_wraps() {
    assert!(is_between_values_wrapped(0, 0xFFFF_FFFF, 1));
    assert!(is_between_values_wrapped(5, 1, 10));
    assert!(!is_between_values_wrapped(1, 1, 10));
    assert!(!is_between_values_wrapped(10, 1, 10));
    assert!(!is_between_values_wrapped(11, 1, 10));
    assert!(!is_between_values_wrapped(7, 3, 3));
    assert!(!is_between_values_wrapped(3, 3, 3));
    assert!(is_between_values_wrapped(2, 0xFFFF_FFF0, 5));
    assert!(!is_between_values_wrapped(0xFFFF_FFEF, 0xFFFF_FFF0, 5));
}

#[test]
fn open_interval_by_offsets() {
    let a: u32 = 0xFFFF_FF00;
    for k in 0u32..8 {
        for n in 0u32..8 {
            let r = is_between_values_wrapped(a.wrapping_add(k), a, a.wrapping_add(n));
            assert_eq!(r, 0 < k && k < n);
        }
    }
}

#[test]
fn synchronised_states() {
    assert!(!State::SynRcvd.is_synchronised());
    for s in [
        State::Estab,
        State::FinWait1,
        State::FinWait2,
        State::Closing,
        State::TimeWait,
        State::CloseWait,
    ] {
        assert!(s.is_synchronised());
    }
}

#[test]
fn snd_nxt_counts_syn_and_fin() {
    let (mut tcb, _) = Tcb::accept_connection(&ip_in(), &syn(0, 100), &[]).expect("tcb");
    assert_eq!(tcb.send.iss, 0);
    assert_eq!(tcb.send.una, 0);
    assert_eq!(tcb.send.nxt, 1);
    tcb.on_packet(&ip_in(), &segment(1, 1, 100), &[]);
    tcb.close().expect("fin");
    assert_eq!(tcb.send.nxt, 2);
    tcb.on_packet(&ip_in(), &segment(1, 1, 100), &[1, 2, 3]);
    assert_eq!(tcb.send.nxt, 2);
}

#[test]
fn frame_carries_payload_and_checksums() {
    let ip = Ipv4Fields { source: US, destination: PEER, ..ip_in() };
    let h = TcpFields {
        source_port: 80,
        destination_port: 40000,
        ..segment(77, 88, 1024)
    };
    let d = frame(&ip, &h, &[1, 2, 3]);
    assert_eq!(d.len(), 43);
    assert_eq!(&d[40..], &[1, 2, 3]);
    let s = parse(&d);
    assert_eq!((s.seq, s.ack_no, s.window), (77, 88, 1024));
    assert_ne!(&d[20..40], &[0u8; 20][..]);
    let tcp = TcpHeaderSlice::from_slice(&d[20..]).expect("tcp");
    assert_ne!(tcp.checksum(), 0);
}

#[test]
fn connect_info_is_a_key() {
    let a = ConnectInfo { src_addr: PEER, src_port: 1, dst_addr: US, dst_port: 2 };
    let mut map = std::collections::HashMap::new();
    map.insert(a, 1);
    assert_eq!(map.get(&ConnectInfo { ..a }), Some(&1));
    assert_eq!(map.get(&ConnectInfo { src_port: 3, ..a }), None);
}

#[test]
fn protocol_constants() {
    assert_eq!(EtherType::Ipv4.value(), 0x0800);
    assert_eq!(EtherType::Ipv6.value(), 0x86DD);
    assert_eq!(IpNumber::Tcp.value(), 6);
    assert_eq!(ETH_MTU, 1500);
    assert_eq!(PACKET_BUF_SIZE, 1504);
    let _ = SendSequenceVariables { una: 0, nxt: 0, wnd: 0, up: false, wl1: 0, wl2: 0, iss: 0 };
}
