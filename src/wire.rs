//! The IPv4 and TCP headers that this stack emits, their byte layout, and the
//! framing of a complete datagram.
use vstd::prelude::*;

verus! {

/// Size in bytes of an IPv4 header without options.
pub const IPV4_HEADER_LEN: usize = 20;

/// Size in bytes of a TCP header without options.
pub const TCP_HEADER_LEN: usize = 20;

/// The most payload bytes that fit in one datagram of `ETH_MTU` bytes.
pub const MAX_PAYLOAD: usize = 1460;

/// Time to live of every emitted datagram.
pub const TTL: u8 = 64;

/// The fields of an IPv4 header without options that this stack reads or sets.
/// The ones left out are sent as zero, with "don't fragment" set.
#[derive(Clone, Copy, Debug)]
pub struct Ipv4Fields {
    pub source: [u8; 4],
    pub destination: [u8; 4],
    pub total_len: u16,
    pub time_to_live: u8,
    pub protocol: u8,
    pub header_checksum: u16,
}

/// The fields of a TCP header without options that this stack reads or sets.
/// The flags left out (NS, PSH, URG, ECE, CWR) and the urgent pointer are zero.
#[derive(Clone, Copy, Debug)]
pub struct TcpFields {
    pub source_port: u16,
    pub destination_port: u16,
    pub sequence_number: u32,
    pub acknowledgment_number: u32,
    pub syn: bool,
    pub ack: bool,
    pub fin: bool,
    pub rst: bool,
    pub window_size: u16,
    pub checksum: u16,
}

/// Big-endian bytes of a 16-bit value.
pub open spec fn be16(x: u16) -> Seq<u8> {
    seq![(x / 0x100) as u8, (x % 0x100) as u8]
}

/// Big-endian bytes of a 32-bit value.
pub open spec fn be32(x: u32) -> Seq<u8> {
    seq![
        (x / 0x100_0000) as u8,
        ((x / 0x1_0000) % 0x100) as u8,
        ((x / 0x100) % 0x100) as u8,
        (x % 0x100) as u8,
    ]
}

/// The flags byte of a TCP header.
pub open spec fn tcp_flags(h: TcpFields) -> u8 {
    ((if h.fin { 1int } else { 0 }) + (if h.syn { 2int } else { 0 }) + (if h.rst { 4int } else { 0 })
        + (if h.ack { 16int } else { 0 })) as u8
}

/// A TCP header as sent: 20 bytes, data offset 5.
pub open spec fn tcp_layout(h: TcpFields) -> Seq<u8> {
    be16(h.source_port) + be16(h.destination_port) + be32(h.sequence_number) + be32(
        h.acknowledgment_number,
    ) + seq![0x50u8, tcp_flags(h)] + be16(h.window_size) + be16(h.checksum) + seq![0u8, 0u8]
}

/// An IPv4 header as sent: 20 bytes, version 4, IHL 5, "don't fragment" set.
pub open spec fn ipv4_layout(h: Ipv4Fields) -> Seq<u8> {
    seq![0x45u8, 0u8] + be16(h.total_len) + seq![0u8, 0u8, 0x40u8, 0u8, h.time_to_live, h.protocol]
        + be16(h.header_checksum) + h.source@ + h.destination@
}

/// The IPv4 header checksum of a serialised header.
pub uninterp spec fn ipv4_checksum_of(header: Seq<u8>) -> u16;

/// The TCP checksum over the IPv4 pseudo-header of `source` and `destination`,
/// the serialised TCP header and the payload.
pub uninterp spec fn tcp_checksum_of(
    source: Seq<u8>,
    destination: Seq<u8>,
    header: Seq<u8>,
    payload: Seq<u8>,
) -> u16;

/// The IPv4 header of a datagram that carries `tcp_len` bytes of TCP, checksum filled in.
pub open spec fn ipv4_header_for(ip: Ipv4Fields, tcp_len: int) -> Ipv4Fields {
    let bare = Ipv4Fields { total_len: (IPV4_HEADER_LEN + tcp_len) as u16, header_checksum: 0, ..ip };
    Ipv4Fields { header_checksum: ipv4_checksum_of(ipv4_layout(bare)), ..bare }
}

/// The TCP header `h` with its checksum filled in, for a segment from `source`
/// to `destination` carrying `payload`.
pub open spec fn tcp_header_for(
    h: TcpFields,
    source: [u8; 4],
    destination: [u8; 4],
    payload: Seq<u8>,
) -> TcpFields {
    let bare = TcpFields { checksum: 0, ..h };
    TcpFields {
        checksum: tcp_checksum_of(source@, destination@, tcp_layout(bare), payload),
        ..bare
    }
}

/// The datagram that carries the segment `h` with `payload` under the addresses,
/// time to live and protocol of `ip`.
#[verifier::opaque]
pub open spec fn datagram(ip: Ipv4Fields, h: TcpFields, payload: Seq<u8>) -> Seq<u8> {
    ipv4_layout(ipv4_header_for(ip, TCP_HEADER_LEN + payload.len())) + tcp_layout(
        tcp_header_for(h, ip.source, ip.destination, payload),
    ) + payload
}

/// Relies on `etherparse::Ipv4Header::calc_header_checksum`, which sums the header's
/// fields and leaves out the checksum field itself.
#[verifier::external_body]
fn ipv4_header_checksum(h: &Ipv4Fields) -> (r: u16)
    ensures
        r == ipv4_checksum_of(ipv4_layout(Ipv4Fields { header_checksum: 0, ..*h })),
{
    etherparse::Ipv4Header {
        total_len: h.total_len,
        time_to_live: h.time_to_live,
        protocol: etherparse::IpNumber(h.protocol),
        header_checksum: h.header_checksum,
        source: h.source,
        destination: h.destination,
        ..Default::default()
    }.calc_header_checksum()
}

/// Relies on `etherparse::Ipv4Header::to_bytes`: the header in network byte order.
#[verifier::external_body]
fn ipv4_header_bytes(h: &Ipv4Fields) -> (r: Vec<u8>)
    ensures
        r@ == ipv4_layout(*h),
{
    etherparse::Ipv4Header {
        total_len: h.total_len,
        time_to_live: h.time_to_live,
        protocol: etherparse::IpNumber(h.protocol),
        header_checksum: h.header_checksum,
        source: h.source,
        destination: h.destination,
        ..Default::default()
    }.to_bytes().to_vec()
}

#[verifier::external_type_specification]
#[verifier::external_body]
#[verifier::reject_recursive_types(T)]
pub struct ExValueTooBigError<T: Sized + Clone + std::fmt::Display + std::fmt::Debug + Eq + PartialEq + std::hash::Hash>(etherparse::err::ValueTooBigError<T>);

/// Relies on `etherparse::TcpHeader::calc_checksum_ipv4_raw`: it fails only when the
/// segment is too long for the pseudo-header's length field, and it leaves out the
/// checksum field of the header.
#[verifier::external_body]
fn tcp_checksum(h: &TcpFields, source: [u8; 4], destination: [u8; 4], payload: &[u8]) -> (r: Result<
    u16,
    etherparse::err::ValueTooBigError<usize>,
>)
    ensures
        r is Ok <==> payload@.len() <= 0xFFFF - TCP_HEADER_LEN,
        r matches Ok(c) ==> c == tcp_checksum_of(
            source@,
            destination@,
            tcp_layout(TcpFields { checksum: 0, ..*h }),
            payload@,
        ),
{
    etherparse::TcpHeader {
        source_port: h.source_port,
        destination_port: h.destination_port,
        sequence_number: h.sequence_number,
        acknowledgment_number: h.acknowledgment_number,
        syn: h.syn,
        ack: h.ack,
        fin: h.fin,
        rst: h.rst,
        window_size: h.window_size,
        checksum: h.checksum,
        ..Default::default()
    }.calc_checksum_ipv4_raw(source, destination, payload)
}

/// Relies on `etherparse::TcpHeader::to_bytes`: the header in network byte order.
#[verifier::external_body]
fn tcp_header_bytes(h: &TcpFields) -> (r: Vec<u8>)
    ensures
        r@ == tcp_layout(*h),
{
    etherparse::TcpHeader {
        source_port: h.source_port,
        destination_port: h.destination_port,
        sequence_number: h.sequence_number,
        acknowledgment_number: h.acknowledgment_number,
        syn: h.syn,
        ack: h.ack,
        fin: h.fin,
        rst: h.rst,
        window_size: h.window_size,
        checksum: h.checksum,
        ..Default::default()
    }.to_bytes().to_vec()
}

/// Composes the datagram that carries the segment `h` with `payload` under the
/// addresses, time to live and protocol of `ip`: the IPv4 header, the TCP header,
/// then the payload, with both checksums computed.
pub fn frame(ip: &Ipv4Fields, h: &TcpFields, payload: &[u8]) -> (r: Vec<u8>)
    requires
        payload@.len() <= MAX_PAYLOAD,
    ensures
        r@ == datagram(*ip, *h, payload@),
        r@.len() == IPV4_HEADER_LEN + TCP_HEADER_LEN + payload@.len(),
{
    let tcp_len: u16 = (TCP_HEADER_LEN + payload.len()) as u16;
    let bare_ip = Ipv4Fields { total_len: (IPV4_HEADER_LEN as u16) + tcp_len, header_checksum: 0, ..*ip };
    let ip_checksum = ipv4_header_checksum(&bare_ip);
    let full_ip = Ipv4Fields { header_checksum: ip_checksum, ..bare_ip };
    let bare_tcp = TcpFields { checksum: 0, ..*h };
    let tcp_sum: u16 = match tcp_checksum(&bare_tcp, ip.source, ip.destination, payload) {
        Ok(c) => c,
        Err(_) => {
            proof {
                assert(false);
            }
            0
        },
    };
    let full_tcp = TcpFields { checksum: tcp_sum, ..bare_tcp };
    let mut out = ipv4_header_bytes(&full_ip);
    let mut tcp_bytes = tcp_header_bytes(&full_tcp);
    out.append(&mut tcp_bytes);
    let ghost prefix = out@;
    assert(prefix == ipv4_layout(full_ip) + tcp_layout(full_tcp));
    let mut i: usize = 0;
    while i < payload.len()
        invariant
            i <= payload@.len(),
            prefix.len() == IPV4_HEADER_LEN + TCP_HEADER_LEN,
            out@ == prefix + payload@.subrange(0, i as int),
        decreases payload@.len() - i,
    {
        out.push(payload[i]);
        i = i + 1;
        assert(out@ =~= prefix + payload@.subrange(0, i as int));
    }
    assert(payload@.subrange(0, i as int) =~= payload@);
    reveal(datagram);
    out
}

} // verus!
