//! The proxy's ICMP engine: builds Echo Requests that carry the whole
//! correlation context in their payload, and recovers that context from the
//! Echo Replies that come back.
//!
//! The private payload, right after the 8-byte ICMP header:
//! `| magic(4) | checksum(2) | pid(4) | client seq(4) | micros(8) | port(2) | host length(1) | host |`
use vstd::prelude::*;

use crate::checksum::{
    internet_checksum, ip_checksum, lemma_checksum_detects_bit_flip,
    lemma_checksum_installed_verifies,
};
use crate::proxy::lemma_ip_of_octets;
use crate::proxy::ProxyInfo;
use crate::wire::{
    be_u16, be_u32, be_u64, ip_of_octets, lemma_be_u16_round_trip, lemma_be_u32_round_trip,
    lemma_be_u64_round_trip, lemma_put_u16_read, push_all, push_u16, push_u32, push_u64, put_u16,
    read_ip, read_u16, read_u32, read_u64, set_u16, u16_at, u32_at, u64_at, SockAddr,
};
use crate::MAX_DATAGRAM;

verus! {

/// Marks the payloads this proxy writes.
pub const PING_MAGIC: u32 = 0x19170923;

/// The ICMP identifier of every request.
pub const ICMP_IDENTIFIER: u16 = 0x1917;

/// The first ICMP sequence number.
pub const FIRST_ICMP_SEQ: u16 = 0x0923;

/// Bytes of the private payload before the host octets.
pub const PAYLOAD_HEAD_LEN: usize = 25;

/// Why an inbound datagram is not a reply to this proxy.
pub enum IcmpError {
    /// The private payload does not start with the magic.
    Magic,
    /// The IP header is of an unknown version or cut short.
    IpHeader,
    /// The ICMP message is not an Echo Reply.
    Type,
    /// The private payload does not match its checksum.
    Checksum,
    /// Another process wrote the payload.
    ID,
    /// The private payload is cut short or names a host length other than 4 or 16.
    Length,
}

impl IcmpError {
    pub open spec fn message_spec(&self) -> Seq<char> {
        match self {
            IcmpError::Magic => "Invalid MAGIC"@,
            IcmpError::IpHeader => "Invalid IP header"@,
            IcmpError::Type => "Invalid ICMP type"@,
            IcmpError::Checksum => "Invalid checksum"@,
            IcmpError::ID => "Invalid ID"@,
            IcmpError::Length => "Invalid payload length"@,
        }
    }

    /// A line of text for the error.
    pub fn message(&self) -> (r: &'static str)
        ensures
            r@ == self.message_spec(),
    {
        match self {
            IcmpError::Magic => "Invalid MAGIC",
            IcmpError::IpHeader => "Invalid IP header",
            IcmpError::Type => "Invalid ICMP type",
            IcmpError::Checksum => "Invalid checksum",
            IcmpError::ID => "Invalid ID",
            IcmpError::Length => "Invalid payload length",
        }
    }
}

/// The ICMP Echo Request type for the target's family.
pub open spec fn echo_request_type(target_v4: bool) -> u8 {
    if target_v4 {
        8
    } else {
        128
    }
}

/// The private payload with its checksum field still zero.
pub open spec fn payload_unsealed(pid: u32, client_seq: u32, tx_time: u64, client: SockAddr) -> Seq<
    u8,
> {
    be_u32(PING_MAGIC) + be_u16(0) + be_u32(pid) + be_u32(client_seq) + be_u64(tx_time) + be_u16(
        client.port,
    ) + seq![client.ip.octets_spec().len() as u8] + client.ip.octets_spec()
}

/// `s` with the Internet checksum of `s` written at `p`.
pub open spec fn seal(s: Seq<u8>, p: int) -> Seq<u8> {
    put_u16(s, p, internet_checksum(s))
}

/// The private payload.
pub open spec fn private_payload(pid: u32, client_seq: u32, tx_time: u64, client: SockAddr) -> Seq<
    u8,
> {
    seal(payload_unsealed(pid, client_seq, tx_time, client), 4)
}

/// Padding: the byte at filler offset `i` is `i & 0xFF`.
pub open spec fn filler(n: nat) -> Seq<u8> {
    Seq::new(n, |i: int| (i % 256) as u8)
}

/// The ICMP header and private payload, before padding and the ICMP checksum.
pub open spec fn request_body(
    icmp_type: u8,
    identifier: u16,
    icmp_seq: u16,
    pid: u32,
    client_seq: u32,
    tx_time: u64,
    client: SockAddr,
) -> Seq<u8> {
    seq![icmp_type, 0u8] + be_u16(0) + be_u16(identifier) + be_u16(icmp_seq) + private_payload(
        pid,
        client_seq,
        tx_time,
        client,
    )
}

/// The Echo Request message: padded up to `len` bytes, with the checksum of
/// the whole message in the ICMP header.
pub open spec fn echo_request(
    icmp_type: u8,
    identifier: u16,
    icmp_seq: u16,
    pid: u32,
    client_seq: u32,
    tx_time: u64,
    client: SockAddr,
    len: nat,
) -> Seq<u8> {
    let body = request_body(icmp_type, identifier, icmp_seq, pid, client_seq, tx_time, client);
    let pad: nat = if len > body.len() {
        (len - body.len()) as nat
    } else {
        0
    };
    seal(body + filler(pad), 2)
}

/// Microseconds from `tx_time` to `now`, modulo 2^32.
pub open spec fn elapsed_micros(now: u64, tx_time: u64) -> u32 {
    ((now as int - tx_time as int) % 0x1_0000_0000) as u32
}

/// Where the private payload of an Echo Reply starts, and the reply's ttl.
pub open spec fn echo_reply_header(buf: Seq<u8>) -> Result<(int, u8), IcmpError> {
    if buf.len() == 0 {
        Err(IcmpError::IpHeader)
    } else if buf[0] >> 4u8 == 4u8 {
        let off = (buf[0] & 0xFu8) as int * 4;
        if buf.len() <= 8 || buf.len() <= off {
            Err(IcmpError::IpHeader)
        } else if buf[off] != 0 {
            Err(IcmpError::Type)
        } else {
            Ok((off + 8, buf[8]))
        }
    } else if buf[0] >> 4u8 == 6u8 {
        if buf.len() <= 40 {
            Err(IcmpError::IpHeader)
        } else if buf[40] != 129 {
            Err(IcmpError::Type)
        } else {
            Ok((48, buf[7]))
        }
    } else {
        Err(IcmpError::IpHeader)
    }
}

/// The host length byte of the private payload at `p`.
pub open spec fn host_len_at(buf: Seq<u8>, p: int) -> int {
    buf[p + 24] as int
}

/// What the private payload at `p` yields for a proxy of process `pid`.
pub open spec fn parse_payload(buf: Seq<u8>, p: int, ttl: u8, pid: u32, now: u64) -> Result<
    ProxyInfo,
    IcmpError,
> {
    if buf.len() < p + 4 || u32_at(buf, p) != PING_MAGIC {
        Err(IcmpError::Magic)
    } else if buf.len() < p + 10 {
        Err(IcmpError::Length)
    } else if u32_at(buf, p + 6) != pid {
        Err(IcmpError::ID)
    } else if buf.len() < p + 25 {
        Err(IcmpError::Length)
    } else {
        let host_len = host_len_at(buf, p);
        if (host_len != 4 && host_len != 16) || buf.len() < p + 25 + host_len {
            Err(IcmpError::Length)
        } else if u16_at(buf, p + 4) != internet_checksum(
            put_u16(buf.subrange(p, p + 25 + host_len), 4, 0),
        ) {
            Err(IcmpError::Checksum)
        } else {
            Ok(
                ProxyInfo {
                    target: SockAddr {
                        ip: ip_of_octets(buf.subrange(p + 25, p + 25 + host_len)),
                        port: u16_at(buf, p + 22),
                    },
                    seq: u32_at(buf, p + 10),
                    elapse: elapsed_micros(now, u64_at(buf, p + 14)),
                    ttl,
                },
            )
        }
    }
}

/// What an inbound datagram, IP header included, yields for a proxy of process `pid`.
pub open spec fn parse_spec(buf: Seq<u8>, pid: u32, now: u64) -> Result<ProxyInfo, IcmpError> {
    match echo_reply_header(buf) {
        Err(e) => Err(e),
        Ok((p, ttl)) => parse_payload(buf, p, ttl, pid, now),
    }
}

/// Microseconds from `tx_time` to `now`, modulo 2^32.
pub fn elapsed_since(now: u64, tx_time: u64) -> (r: u32)
    ensures
        r == elapsed_micros(now, tx_time),
{
    let diff: u64 = if now >= tx_time {
        now - tx_time
    } else {
        now + (u64::MAX - tx_time) + 1
    };
    let r = (diff & 0xFFFF_FFFF) as u32;
    assert(r == diff % 0x1_0000_0000) by (bit_vector)
        requires
            r == (diff & 0xFFFF_FFFFu64) as u32,
    ;
    assert(diff as int % 0x1_0000_0000 == (now as int - tx_time as int) % 0x1_0000_0000) by {
        if now < tx_time {
            let x = now as int - tx_time as int;
            assert(diff == x + 0x1_0000_0000 * 0x1_0000_0000);
            vstd::arithmetic::div_mod::lemma_mod_multiples_vanish(0x1_0000_0000, x, 0x1_0000_0000);
        }
    }
    r
}

/// The ICMP engine of one proxy process.
pub struct Ping {
    identifier: u16,
    seq: u16,
    pid: u32,
}

impl Ping {
    pub closed spec fn identifier_spec(&self) -> u16 {
        self.identifier
    }

    /// The sequence number the next request carries.
    pub closed spec fn seq_spec(&self) -> u16 {
        self.seq
    }

    pub closed spec fn pid_spec(&self) -> u32 {
        self.pid
    }

    /// An engine for the process `pid`.
    pub fn new(pid: u32) -> (r: Ping)
        ensures
            r.identifier_spec() == ICMP_IDENTIFIER,
            r.seq_spec() == FIRST_ICMP_SEQ,
            r.pid_spec() == pid,
    {
        Ping { identifier: ICMP_IDENTIFIER, seq: FIRST_ICMP_SEQ, pid }
    }

    pub fn pid(&self) -> (r: u32)
        ensures
            r == self.pid_spec(),
    {
        self.pid
    }

    pub fn icmp_seq(&self) -> (r: u16)
        ensures
            r == self.seq_spec(),
    {
        self.seq
    }

    /// Hands out the current sequence number and advances it, 0xFFFF wrapping to 0.
    fn next_seq(&mut self) -> (r: u16)
        ensures
            r == old(self).seq_spec(),
            final(self).seq_spec() as int == (old(self).seq_spec() as int + 1) % 0x10000,
            final(self).identifier_spec() == old(self).identifier_spec(),
            final(self).pid_spec() == old(self).pid_spec(),
    {
        let seq = self.seq;
        self.seq = if seq == 0xFFFF {
            0
        } else {
            seq + 1
        };
        seq
    }

    /// Builds the Echo Request that probes `target` for the client at
    /// `client`, padded up to `len` bytes; `tx_time` is the engine's uptime in
    /// microseconds.
    pub fn icmp_request_build(
        &mut self,
        client_seq: u32,
        client: &SockAddr,
        target: &SockAddr,
        len: usize,
        tx_time: u64,
    ) -> (r: Vec<u8>)
        requires
            len < MAX_DATAGRAM,
        ensures
            r@ == echo_request(
                echo_request_type(target.ip.is_v4_spec()),
                old(self).identifier_spec(),
                old(self).seq_spec(),
                old(self).pid_spec(),
                client_seq,
                tx_time,
                *client,
                len as nat,
            ),
            r@.len() == if len >= 33 + client.ip.octets_spec().len() {
                len as int
            } else {
                33 + client.ip.octets_spec().len() as int
            },
            final(self).seq_spec() as int == (old(self).seq_spec() as int + 1) % 0x10000,
            final(self).identifier_spec() == old(self).identifier_spec(),
            final(self).pid_spec() == old(self).pid_spec(),
    {
        let icmp_type: u8 = if target.ip.is_ipv4() {
            8
        } else {
            128
        };
        let icmp_seq = self.next_seq();

        let mut payload: Vec<u8> = Vec::new();
        push_u32(&mut payload, PING_MAGIC);
        push_u16(&mut payload, 0);
        push_u32(&mut payload, self.pid);
        push_u32(&mut payload, client_seq);
        push_u64(&mut payload, tx_time);
        push_u16(&mut payload, client.port);
        let host = client.ip.octets();
        payload.push(host.len() as u8);
        push_all(&mut payload, host.as_slice());
        assert(payload@ =~= payload_unsealed(self.pid, client_seq, tx_time, *client));
        let checksum = ip_checksum(payload.as_slice());
        set_u16(&mut payload, 4, checksum);

        let mut msg: Vec<u8> = Vec::new();
        msg.push(icmp_type);
        msg.push(0);
        push_u16(&mut msg, 0);
        push_u16(&mut msg, self.identifier);
        push_u16(&mut msg, icmp_seq);
        push_all(&mut msg, payload.as_slice());
        let ghost body = msg@;
        assert(body =~= request_body(
            icmp_type,
            self.identifier,
            icmp_seq,
            self.pid,
            client_seq,
            tx_time,
            *client,
        ));

        let body_len = msg.len();
        let mut i: usize = 0;
        while body_len + i < len
            invariant
                body_len == body.len(),
                body_len <= 49,
                len < MAX_DATAGRAM,
                i == 0 || body_len + i <= len,
                msg@ == body + filler(i as nat),
            decreases len - body_len - i,
        {
            let b = (i & 0xFF) as u8;
            assert(b == i % 256) by (bit_vector)
                requires
                    b == (i & 0xFF) as u8,
            ;
            msg.push(b);
            i = i + 1;
            assert(msg@ =~= body + filler(i as nat));
        }
        let ghost pad: nat = if len > body.len() {
            (len - body.len()) as nat
        } else {
            0
        };
        assert(i == pad);
        let checksum = ip_checksum(msg.as_slice());
        set_u16(&mut msg, 2, checksum);
        msg
    }

    /// Reads an inbound datagram, IP header included. `now` is the engine's
    /// uptime in microseconds, taken when the datagram arrived.
    pub fn parse(&self, buf: &[u8], now: u64) -> (r: Result<ProxyInfo, IcmpError>)
        ensures
            r == parse_spec(buf@, self.pid_spec(), now),
    {
        let len = buf.len();
        if len == 0 {
            return Err(IcmpError::IpHeader);
        }
        let first = buf[0];
        let ver = first >> 4;
        let ttl: u8;
        let offset: usize;
        if ver == 4 {
            let ihl = first & 0xF;
            assert(ihl <= 15) by (bit_vector)
                requires
                    ihl == first & 0xFu8,
            ;
            offset = ihl as usize * 4;
            if len <= 8 || len <= offset {
                return Err(IcmpError::IpHeader);
            }
            ttl = buf[8];
            if buf[offset] != 0 {
                return Err(IcmpError::Type);
            }
        } else if ver == 6 {
            offset = 40;
            if len <= 40 {
                return Err(IcmpError::IpHeader);
            }
            ttl = buf[7];
            if buf[40] != 129 {
                return Err(IcmpError::Type);
            }
        } else {
            return Err(IcmpError::IpHeader);
        }

        let p = offset + 8;
        if len < p + 4 || read_u32(buf, p) != PING_MAGIC {
            return Err(IcmpError::Magic);
        }
        if len < p + 10 {
            return Err(IcmpError::Length);
        }
        let checksum = read_u16(buf, p + 4);
        if read_u32(buf, p + 6) != self.pid {
            return Err(IcmpError::ID);
        }
        if len < p + PAYLOAD_HEAD_LEN {
            return Err(IcmpError::Length);
        }
        let host_len = buf[p + 24] as usize;
        if (host_len != 4 && host_len != 16) || len < p + PAYLOAD_HEAD_LEN + host_len {
            return Err(IcmpError::Length);
        }
        let end = p + PAYLOAD_HEAD_LEN + host_len;
        let mut payload: Vec<u8> = Vec::new();
        push_all(&mut payload, vstd::slice::slice_subrange(buf, p, end));
        set_u16(&mut payload, 4, 0);
        if checksum != ip_checksum(payload.as_slice()) {
            return Err(IcmpError::Checksum);
        }

        let seq = read_u32(buf, p + 10);
        let tx_time = read_u64(buf, p + 14);
        let port = read_u16(buf, p + 22);
        let host = read_ip(buf, p + PAYLOAD_HEAD_LEN, host_len);
        Ok(
            ProxyInfo {
                target: SockAddr { ip: host, port },
                seq,
                elapse: elapsed_since(now, tx_time),
                ttl,
            },
        )
    }
}

/// How a target answers: an IP header of its family carrying `ttl`, in front
/// of the echoed message, whose first byte is the Echo Reply type.
pub open spec fn reply_framing(hdr: Seq<u8>, reply_type: u8, ttl: u8) -> bool {
    ||| (hdr.len() > 8 && hdr[0] >> 4u8 == 4u8 && (hdr[0] & 0xFu8) as int * 4 == hdr.len()
        && hdr[8] == ttl && reply_type == 0)
    ||| (hdr.len() == 40 && hdr[0] >> 4u8 == 6u8 && hdr[7] == ttl && reply_type == 129)
}

/// Reads back the fields of a private payload found at `p`.
proof fn lemma_payload_fields(
    s: Seq<u8>,
    p: int,
    pid: u32,
    client_seq: u32,
    tx_time: u64,
    client: SockAddr,
)
    requires
        0 <= p,
        p + private_payload(pid, client_seq, tx_time, client).len() <= s.len(),
        s.subrange(p, p + private_payload(pid, client_seq, tx_time, client).len())
            == private_payload(pid, client_seq, tx_time, client),
    ensures
        ({
            let unsealed = payload_unsealed(pid, client_seq, tx_time, client);
            let octets = client.ip.octets_spec();
            let n = 25 + octets.len();
            &&& private_payload(pid, client_seq, tx_time, client).len() == n
            &&& u32_at(s, p) == PING_MAGIC
            &&& u32_at(s, p + 6) == pid
            &&& host_len_at(s, p) == octets.len()
            &&& u32_at(s, p + 10) == client_seq
            &&& u64_at(s, p + 14) == tx_time
            &&& u16_at(s, p + 22) == client.port
            &&& s.subrange(p + 25, p + n) == octets
            &&& u16_at(s, p + 4) == internet_checksum(unsealed)
            &&& put_u16(s.subrange(p, p + n), 4, 0) == unsealed
        }),
{
    let unsealed = payload_unsealed(pid, client_seq, tx_time, client);
    let pay = private_payload(pid, client_seq, tx_time, client);
    let octets = client.ip.octets_spec();
    let n = 25 + octets.len();
    let c = internet_checksum(unsealed);
    assert(unsealed.len() == n);
    assert(forall|i: int| 0 <= i < n && i != 4 && i != 5 ==> #[trigger] s[p + i] == unsealed[i]) by {
        assert forall|i: int| 0 <= i < n && i != 4 && i != 5 implies #[trigger] s[p + i]
            == unsealed[i] by {
            assert(s.subrange(p, p + n)[i] == pay[i]);
        }
    }
    assert(s.subrange(p, p + 4) =~= be_u32(PING_MAGIC)) by {
        assert forall|i: int| 0 <= i < 4 implies s.subrange(p, p + 4)[i] == be_u32(PING_MAGIC)[i] by {
            assert(s[p + i] == unsealed[i]);
        }
    }
    assert(s.subrange(p + 6, p + 10) =~= be_u32(pid)) by {
        assert forall|i: int| 0 <= i < 4 implies s.subrange(p + 6, p + 10)[i] == be_u32(pid)[i] by {
            let k = 6 + i;
            assert(s[p + k] == unsealed[k]);
        }
    }
    assert(s.subrange(p + 10, p + 14) =~= be_u32(client_seq)) by {
        assert forall|i: int| 0 <= i < 4 implies s.subrange(p + 10, p + 14)[i] == be_u32(
            client_seq,
        )[i] by {
            let k = 10 + i;
            assert(s[p + k] == unsealed[k]);
        }
    }
    assert(s.subrange(p + 14, p + 22) =~= be_u64(tx_time)) by {
        assert forall|i: int| 0 <= i < 8 implies s.subrange(p + 14, p + 22)[i] == be_u64(
            tx_time,
        )[i] by {
            let k = 14 + i;
            assert(s[p + k] == unsealed[k]);
        }
    }
    assert(s.subrange(p + 22, p + 24) =~= be_u16(client.port)) by {
        assert forall|i: int| 0 <= i < 2 implies s.subrange(p + 22, p + 24)[i] == be_u16(
            client.port,
        )[i] by {
            let k = 22 + i;
            assert(s[p + k] == unsealed[k]);
        }
    }
    assert(s[p + 24] == unsealed[24]);
    assert(s.subrange(p + 25, p + n) =~= octets) by {
        assert forall|i: int| 0 <= i < octets.len() implies s.subrange(p + 25, p + n)[i]
            == octets[i] by {
            let k = 25 + i;
            assert(s[p + k] == unsealed[k]);
        }
    }
    lemma_be_u32_round_trip(s, p, PING_MAGIC);
    lemma_be_u32_round_trip(s, p + 6, pid);
    lemma_be_u32_round_trip(s, p + 10, client_seq);
    lemma_be_u64_round_trip(s, p + 14, tx_time);
    lemma_be_u16_round_trip(s, p + 22, client.port);
    lemma_put_u16_read(unsealed, 4, c);
    assert(s.subrange(p, p + n)[4] == pay[4] && s.subrange(p, p + n)[5] == pay[5]);
    assert((0u16 >> 8u16) as u8 == 0u8 && (0u16 & 0xFFu16) as u8 == 0u8 && 0u16 as u8 == 0u8)
        by (bit_vector);
    assert(put_u16(s.subrange(p, p + n), 4, 0) =~= unsealed);
}

/// Every request the engine builds comes back, through a target's Echo Reply,
/// as the client's address and sequence number, with the reply's ttl.
pub proof fn lemma_request_reply_round_trip(
    icmp_type: u8,
    identifier: u16,
    icmp_seq: u16,
    pid: u32,
    client_seq: u32,
    tx_time: u64,
    client: SockAddr,
    len: nat,
    hdr: Seq<u8>,
    echo: Seq<u8>,
    ttl: u8,
    now: u64,
)
    requires
        ({
            let msg = echo_request(
                icmp_type,
                identifier,
                icmp_seq,
                pid,
                client_seq,
                tx_time,
                client,
                len,
            );
            &&& echo.len() == msg.len()
            &&& echo.subrange(8, echo.len() as int) == msg.subrange(8, msg.len() as int)
        }),
        echo.len() > 0,
        reply_framing(hdr, echo[0], ttl),
    ensures
        parse_spec(hdr + echo, pid, now) == Ok::<ProxyInfo, IcmpError>(
            ProxyInfo { target: client, seq: client_seq, elapse: elapsed_micros(now, tx_time), ttl },
        ),
{
    let msg = echo_request(icmp_type, identifier, icmp_seq, pid, client_seq, tx_time, client, len);
    let body = request_body(icmp_type, identifier, icmp_seq, pid, client_seq, tx_time, client);
    let pay = private_payload(pid, client_seq, tx_time, client);
    let n = pay.len() as int;
    let buf = hdr + echo;
    let off = hdr.len() as int;
    let p = off + 8;
    assert(n == 25 + client.ip.octets_spec().len());
    assert(body.len() == 8 + n);
    assert(msg.len() >= 8 + n);
    assert(buf.subrange(p, p + n) =~= pay) by {
        assert forall|i: int| 0 <= i < n implies buf.subrange(p, p + n)[i] == pay[i] by {
            assert(buf[p + i] == echo[8 + i]);
            assert(echo.subrange(8, echo.len() as int)[i] == msg.subrange(8, msg.len() as int)[i]);
            assert(msg[8 + i] == body[8 + i]);
        }
    }
    assert(buf[off] == echo[0]);
    assert(buf[0] == hdr[0]);
    if hdr.len() == 40 && hdr[0] >> 4u8 == 6u8 {
        assert(buf[7] == hdr[7]);
        assert(echo_reply_header(buf) == Ok::<(int, u8), IcmpError>((p, ttl)));
    } else {
        assert(buf[8] == hdr[8]);
        assert(echo_reply_header(buf) == Ok::<(int, u8), IcmpError>((p, ttl)));
    }
    lemma_payload_fields(buf, p, pid, client_seq, tx_time, client);
    lemma_ip_of_octets(client.ip);
}

/// An Echo Reply that lacks the magic where the private payload starts is
/// rejected with `Magic`.
pub proof fn lemma_parse_rejects_missing_magic(buf: Seq<u8>, pid: u32, now: u64)
    requires
        echo_reply_header(buf) is Ok,
        ({
            let p = echo_reply_header(buf)->Ok_0.0;
            buf.len() < p + 4 || u32_at(buf, p) != PING_MAGIC
        }),
    ensures
        parse_spec(buf, pid, now) == Err::<ProxyInfo, IcmpError>(IcmpError::Magic),
{
}

/// An Echo Reply that carries the magic and another process's pid is
/// rejected with `ID`.
pub proof fn lemma_parse_rejects_foreign_pid(buf: Seq<u8>, pid: u32, now: u64)
    requires
        echo_reply_header(buf) is Ok,
        ({
            let p = echo_reply_header(buf)->Ok_0.0;
            &&& buf.len() >= p + 10
            &&& u32_at(buf, p) == PING_MAGIC
            &&& u32_at(buf, p + 6) != pid
        }),
    ensures
        parse_spec(buf, pid, now) == Err::<ProxyInfo, IcmpError>(IcmpError::ID),
{
}

/// Flipping one bit of an accepted reply's client sequence, timestamp, port
/// or host octets makes it fail with `Checksum`.
pub proof fn lemma_bit_flip_fails_checksum(buf: Seq<u8>, pid: u32, now: u64, j: int, bit: u8)
    requires
        parse_spec(buf, pid, now) is Ok,
        ({
            let p = echo_reply_header(buf)->Ok_0.0;
            &&& p + 10 <= j < p + 25 + host_len_at(buf, p)
            &&& j != p + 24
        }),
        bit < 8,
    ensures
        parse_spec(buf.update(j, buf[j] ^ (1u8 << bit)), pid, now) == Err::<ProxyInfo, IcmpError>(
            IcmpError::Checksum,
        ),
{
    let p = echo_reply_header(buf)->Ok_0.0;
    let flipped = buf[j] ^ (1u8 << bit);
    let b2 = buf.update(j, flipped);
    assert(echo_reply_header(b2) == echo_reply_header(buf)) by {
        assert(b2[0] == buf[0]);
        if buf[0] >> 4u8 == 4u8 {
            let off = (buf[0] & 0xFu8) as int * 4;
            assert(b2[8] == buf[8] && b2[off] == buf[off]);
        } else {
            assert(b2[7] == buf[7] && b2[40] == buf[40]);
        }
    }
    let n = 25 + host_len_at(buf, p);
    assert(b2[p + 24] == buf[p + 24]);
    let zeroed = put_u16(buf.subrange(p, p + n), 4, 0);
    let zeroed2 = put_u16(b2.subrange(p, p + n), 4, 0);
    assert(zeroed2 =~= zeroed.update(j - p, zeroed[j - p] ^ (1u8 << bit)));
    lemma_checksum_detects_bit_flip(zeroed, j - p, bit);
}

/// The big-endian 32-bit value at `i` changes when one bit of its four bytes flips.
proof fn lemma_u32_at_bit_flip(s: Seq<u8>, i: int, j: int, bit: u8)
    requires
        0 <= i,
        i + 4 <= s.len(),
        i <= j < i + 4,
        bit < 8,
    ensures
        u32_at(s.update(j, s[j] ^ (1u8 << bit)), i) != u32_at(s, i),
{
    let t = s.update(j, s[j] ^ (1u8 << bit));
    let (b0, b1, b2, b3) = (s[i], s[i + 1], s[i + 2], s[i + 3]);
    let (c0, c1, c2, c3) = (t[i], t[i + 1], t[i + 2], t[i + 3]);
    let v = s[j];
    let w = s[j] ^ (1u8 << bit);
    assert(w != v) by (bit_vector)
        requires
            w == v ^ (1u8 << bit),
            bit < 8,
    ;
    assert(b0 != c0 || b1 != c1 || b2 != c2 || b3 != c3);
    assert(((b0 as u32) << 24u32) | ((b1 as u32) << 16u32) | ((b2 as u32) << 8u32) | (b3 as u32)
        != ((c0 as u32) << 24u32) | ((c1 as u32) << 16u32) | ((c2 as u32) << 8u32) | (c3 as u32))
        by (bit_vector)
        requires
            b0 != c0 || b1 != c1 || b2 != c2 || b3 != c3,
    ;
}

/// Flipping one bit of an accepted reply's magic gives `Magic`, of its pid
/// gives `ID`, and of its host length gives `Length`.
pub proof fn lemma_bit_flip_in_identity_fields(buf: Seq<u8>, pid: u32, now: u64, j: int, bit: u8)
    requires
        parse_spec(buf, pid, now) is Ok,
        ({
            let p = echo_reply_header(buf)->Ok_0.0;
            (p <= j < p + 4) || (p + 6 <= j < p + 10) || j == p + 24
        }),
        bit < 8,
    ensures
        ({
            let p = echo_reply_header(buf)->Ok_0.0;
            let r = parse_spec(buf.update(j, buf[j] ^ (1u8 << bit)), pid, now);
            &&& p <= j < p + 4 ==> r == Err::<ProxyInfo, IcmpError>(IcmpError::Magic)
            &&& p + 6 <= j < p + 10 ==> r == Err::<ProxyInfo, IcmpError>(IcmpError::ID)
            &&& j == p + 24 ==> r == Err::<ProxyInfo, IcmpError>(IcmpError::Length)
        }),
{
    let p = echo_reply_header(buf)->Ok_0.0;
    let b2 = buf.update(j, buf[j] ^ (1u8 << bit));
    assert(echo_reply_header(b2) == echo_reply_header(buf)) by {
        assert(b2[0] == buf[0]);
        if buf[0] >> 4u8 == 4u8 {
            let off = (buf[0] & 0xFu8) as int * 4;
            let first = buf[0];
            assert(first != 0u8) by (bit_vector)
                requires
                    first >> 4u8 == 4u8,
            ;
            assert(off != 0);
            assert(b2[8] == buf[8] && b2[off] == buf[off]);
        } else {
            assert(b2[7] == buf[7] && b2[40] == buf[40]);
        }
    }
    if p <= j < p + 4 {
        lemma_u32_at_bit_flip(buf, p, j, bit);
    } else if p + 6 <= j < p + 10 {
        lemma_u32_at_bit_flip(buf, p + 6, j, bit);
        assert(u32_at(b2, p) == u32_at(buf, p));
    } else {
        let h = buf[j];
        let g = h ^ (1u8 << bit);
        assert((h == 4u8 || h == 16u8) ==> (g != 4u8 && g != 16u8)) by (bit_vector)
            requires
                g == h ^ (1u8 << bit),
                bit < 8,
        ;
        assert(u32_at(b2, p) == u32_at(buf, p));
        assert(u32_at(b2, p + 6) == u32_at(buf, p + 6));
    }
}

/// Both checksums of every request verify: the Internet checksum of the
/// private payload, and of the whole ICMP message, is zero.
pub proof fn lemma_echo_request_checksums_verify(
    icmp_type: u8,
    identifier: u16,
    icmp_seq: u16,
    pid: u32,
    client_seq: u32,
    tx_time: u64,
    client: SockAddr,
    len: nat,
)
    requires
        len < MAX_DATAGRAM,
    ensures
        internet_checksum(private_payload(pid, client_seq, tx_time, client)) == 0,
        internet_checksum(
            echo_request(icmp_type, identifier, icmp_seq, pid, client_seq, tx_time, client, len),
        ) == 0,
{
    assert((0u16 >> 8u16) as u8 == 0u8 && (0u16 & 0xFFu16) as u8 == 0u8 && 0u16 as u8 == 0u8)
        by (bit_vector);
    let unsealed = payload_unsealed(pid, client_seq, tx_time, client);
    assert(put_u16(unsealed, 4, 0) =~= unsealed);
    lemma_checksum_installed_verifies(unsealed, 4);
    let body = request_body(icmp_type, identifier, icmp_seq, pid, client_seq, tx_time, client);
    let pad: nat = if len > body.len() {
        (len - body.len()) as nat
    } else {
        0
    };
    let m = body + filler(pad);
    assert(m[2] == 0 && m[3] == 0);
    assert(put_u16(m, 2, 0) =~= m);
    lemma_checksum_installed_verifies(m, 2);
}

} // verus!
