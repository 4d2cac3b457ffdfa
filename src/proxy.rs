//! The proxy's side of the client-proxy protocol.
//!
//! A client asks for a probe with `| seq(4) | packet length(2) | host length(1) | host |`;
//! the proxy answers with `| seq(4) | elapsed microseconds(4) | ttl(1) |`.
use vstd::prelude::*;

use crate::wire::{
    be_u16, be_u32, ip_of_octets, lemma_be_u16_round_trip, lemma_be_u32_round_trip, push_u32,
    read_ip, read_u16, read_u32, u16_at, u32_at, IpAddress, SockAddr,
};

verus! {

/// What the proxy recovers from an Echo Reply it authored.
pub struct ProxyInfo {
    /// The client's UDP address, where the answer goes.
    pub target: SockAddr,
    /// The client's sequence number.
    pub seq: u32,
    /// Microseconds between sending the request and reading the reply.
    pub elapse: u32,
    /// The hop limit of the reply as it arrived.
    pub ttl: u8,
}

/// A client's request for one probe.
pub struct ProbeRequest {
    pub seq: u32,
    /// The size the ICMP message should have.
    pub packet_length: u16,
    /// The host to probe.
    pub host: IpAddress,
}

/// The client's request frame.
pub open spec fn request_frame(seq: u32, packet_length: u16, host: IpAddress) -> Seq<u8> {
    be_u32(seq) + be_u16(packet_length) + seq![host.octets_spec().len() as u8]
        + host.octets_spec()
}

/// The request a frame carries, if it is well formed: its host length is 4 or
/// 16 and the frame holds exactly the 7 header bytes and the host.
pub open spec fn decode_request_spec(f: Seq<u8>) -> Option<ProbeRequest> {
    if f.len() < 7 {
        None
    } else {
        let host_len = f[6] as int;
        if (host_len != 4 && host_len != 16) || f.len() != 7 + host_len {
            None
        } else {
            Some(
                ProbeRequest {
                    seq: u32_at(f, 0),
                    packet_length: u16_at(f, 4),
                    host: ip_of_octets(f.subrange(7, 7 + host_len)),
                },
            )
        }
    }
}

/// The proxy's answer frame.
pub open spec fn response_frame(seq: u32, elapse: u32, ttl: u8) -> Seq<u8> {
    be_u32(seq) + be_u32(elapse) + seq![ttl]
}

/// Decodes a client's request; malformed frames give `None`.
pub fn decode_request(frame: &[u8]) -> (r: Option<ProbeRequest>)
    ensures
        r == decode_request_spec(frame@),
{
    let len = frame.len();
    if len < 7 {
        return None;
    }
    let host_len = frame[6] as usize;
    if (host_len != 4 && host_len != 16) || host_len + 7 != len {
        return None;
    }
    let seq = read_u32(frame, 0);
    let packet_length = read_u16(frame, 4);
    let host = read_ip(frame, 7, host_len);
    Some(ProbeRequest { seq, packet_length, host })
}

/// Encodes the answer to a client.
pub fn build_proxy_response(info: &ProxyInfo) -> (r: Vec<u8>)
    ensures
        r@ == response_frame(info.seq, info.elapse, info.ttl),
{
    let mut buf: Vec<u8> = Vec::new();
    push_u32(&mut buf, info.seq);
    push_u32(&mut buf, info.elapse);
    buf.push(info.ttl);
    assert(buf@ =~= response_frame(info.seq, info.elapse, info.ttl));
    buf
}

/// The address whose octets are those of `ip` is `ip`.
pub proof fn lemma_ip_of_octets(ip: IpAddress)
    ensures
        ip_of_octets(ip.octets_spec()) == ip,
{
    match ip {
        IpAddress::V4(a) => {
            let b = [a@[0], a@[1], a@[2], a@[3]];
            assert(b =~= a);
        },
        IpAddress::V6(a) => {
            let b = [
                a@[0],
                a@[1],
                a@[2],
                a@[3],
                a@[4],
                a@[5],
                a@[6],
                a@[7],
                a@[8],
                a@[9],
                a@[10],
                a@[11],
                a@[12],
                a@[13],
                a@[14],
                a@[15],
            ];
            assert(b =~= a);
        },
    }
}

/// A request frame that a client builds decodes to the request it was built from.
pub proof fn lemma_request_round_trip(seq: u32, packet_length: u16, host: IpAddress)
    ensures
        decode_request_spec(request_frame(seq, packet_length, host)) == Some(
            ProbeRequest { seq, packet_length, host },
        ),
{
    let f = request_frame(seq, packet_length, host);
    let o = host.octets_spec();
    assert(f.subrange(0, 4) =~= be_u32(seq));
    assert(f.subrange(4, 6) =~= be_u16(packet_length));
    assert(f.subrange(7, 7 + o.len() as int) =~= o);
    assert(f[6] == o.len() as u8);
    lemma_be_u32_round_trip(f, 0, seq);
    lemma_be_u16_round_trip(f, 4, packet_length);
    lemma_ip_of_octets(host);
}

} // verus!
