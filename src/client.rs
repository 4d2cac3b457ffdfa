//! The client's probe loop, as a state machine driven by the caller, and its
//! statistics.
//!
//! The caller asks `next_probe` for a request frame, sends it, and reports
//! how the probe ended: `send_failed`, `timed_out`, `recv_failed`, or
//! `process_reply` with the frame that came back. One probe is in flight at
//! a time.
use vstd::prelude::*;

use crate::cli::CliArgs;
use crate::proxy::{request_frame, response_frame};
use crate::wire::{
    be_u32, lemma_be_u32_round_trip, push_all, push_u16, push_u32, read_u32, u32_at, IpAddress,
};

verus! {

/// The elapsed time a proxy reports for a target that never answered.
pub const NO_ANSWER: u32 = u32::MAX;

/// Counters and round-trip aggregates, in microseconds.
pub struct Stats {
    pub rtt_min: u32,
    pub rtt_max: u32,
    pub rtt_total: u64,
    pub rx_count: u32,
    pub tx_count: u32,
    pub lost_count: u32,
    pub timeout_count: u32,
}

/// The proxy's answer to one probe.
pub struct ProbeReply {
    pub seq: u32,
    /// Microseconds, or `NO_ANSWER`.
    pub elapse: u32,
    pub ttl: u8,
}

/// The answer a frame carries: its first 9 bytes.
pub open spec fn decode_reply_spec(f: Seq<u8>) -> Option<ProbeReply> {
    if f.len() < 9 {
        None
    } else {
        Some(ProbeReply { seq: u32_at(f, 0), elapse: u32_at(f, 4), ttl: f[8] })
    }
}

/// No probe sent yet: all counters zero, the minimum at its largest value.
pub open spec fn initial_stats() -> Stats {
    Stats {
        rtt_min: u32::MAX,
        rtt_max: 0,
        rtt_total: 0,
        rx_count: 0,
        tx_count: 0,
        lost_count: 0,
        timeout_count: 0,
    }
}

/// `s` after one answer that took `elapse` microseconds.
pub open spec fn stats_after_reply(s: Stats, elapse: u32) -> Stats {
    if elapse == NO_ANSWER {
        Stats { rx_count: (s.rx_count + 1) as u32, ..s }
    } else {
        Stats {
            rtt_min: if elapse < s.rtt_min {
                elapse
            } else {
                s.rtt_min
            },
            rtt_max: if elapse > s.rtt_max {
                elapse
            } else {
                s.rtt_max
            },
            rtt_total: (s.rtt_total + elapse) as u64,
            rx_count: (s.rx_count + 1) as u32,
            ..s
        }
    }
}

impl Stats {
    /// No probe sent yet.
    pub fn new() -> (r: Stats)
        ensures
            r == initial_stats(),
    {
        Stats {
            rtt_min: u32::MAX,
            rtt_max: 0,
            rtt_total: 0,
            rx_count: 0,
            tx_count: 0,
            lost_count: 0,
            timeout_count: 0,
        }
    }

    /// The round-trip aggregates fit the answers counted: the total is at
    /// most one `u32` per answer, and the minimum is at most the maximum
    /// once a time was measured.
    pub open spec fn rtt_ok(&self) -> bool {
        &&& self.rtt_total <= self.rx_count as int * 0xFFFF_FFFF
        &&& (self.rtt_min <= self.rtt_max || (self.rtt_min == u32::MAX && self.rtt_max == 0
            && self.rtt_total == 0))
    }

    /// Every probe sent is answered, lost or timed out, but for `in_flight`.
    pub open spec fn balanced(&self, in_flight: int) -> bool {
        self.tx_count == self.rx_count + self.lost_count + self.timeout_count + in_flight
    }

    /// Percentage of the probes sent that got no answer, rounded down.
    pub fn loss_percent(&self) -> (r: u32)
        requires
            self.rx_count <= self.tx_count,
        ensures
            self.tx_count == 0 ==> r == 0,
            self.tx_count > 0 ==> r == (self.tx_count - self.rx_count) * 100 / self.tx_count as int,
    {
        if self.tx_count > 0 {
            let missing = (self.tx_count - self.rx_count) as u64;
            let r = missing * 100 / self.tx_count as u64;
            assert(r <= 100) by (nonlinear_arith)
                requires
                    r == missing * 100 / self.tx_count as int,
                    missing <= self.tx_count,
                    self.tx_count > 0,
            ;
            r as u32
        } else {
            0
        }
    }
}

/// Builds the request frame for one probe.
pub fn build_request(seq: u32, length: u16, addr: &IpAddress) -> (r: Vec<u8>)
    ensures
        r@ == request_frame(seq, length, *addr),
{
    let mut buf: Vec<u8> = Vec::new();
    push_u32(&mut buf, seq);
    push_u16(&mut buf, length);
    let host = addr.octets();
    buf.push(host.len() as u8);
    push_all(&mut buf, host.as_slice());
    assert(buf@ =~= request_frame(seq, length, *addr));
    buf
}

/// Decodes the proxy's answer; a frame shorter than 9 bytes gives `None`.
pub fn decode_reply(frame: &[u8]) -> (r: Option<ProbeReply>)
    ensures
        r == decode_reply_spec(frame@),
{
    if frame.len() < 9 {
        return None;
    }
    Some(ProbeReply { seq: read_u32(frame, 0), elapse: read_u32(frame, 4), ttl: frame[8] })
}

/// An answer frame that the proxy builds decodes to what it was built from.
pub proof fn lemma_reply_round_trip(seq: u32, elapse: u32, ttl: u8)
    ensures
        decode_reply_spec(response_frame(seq, elapse, ttl)) == Some(
            ProbeReply { seq, elapse, ttl },
        ),
{
    let f = response_frame(seq, elapse, ttl);
    assert(f.subrange(0, 4) =~= be_u32(seq));
    assert(f.subrange(4, 8) =~= be_u32(elapse));
    lemma_be_u32_round_trip(f, 0, seq);
    lemma_be_u32_round_trip(f, 4, elapse);
}

/// The client: its settings, its statistics and where its loop stands.
pub struct Ping {
    args: CliArgs,
    stats: Stats,
    /// Probes still to send when `args.count` bounds them.
    remaining: u32,
    /// Sequence number of the last probe sent; 0 before the first.
    seq: u32,
    /// A probe was sent and has not ended yet.
    in_flight: bool,
}

impl Ping {
    pub closed spec fn args_spec(&self) -> CliArgs {
        self.args
    }

    pub closed spec fn stats_spec(&self) -> Stats {
        self.stats
    }

    pub closed spec fn remaining_spec(&self) -> u32 {
        self.remaining
    }

    pub closed spec fn seq_spec(&self) -> u32 {
        self.seq
    }

    pub closed spec fn in_flight_spec(&self) -> bool {
        self.in_flight
    }

    /// The loop's invariant: the sequence number counts the probes sent, and
    /// each of them has ended in exactly one way, but for the one in flight.
    pub closed spec fn wf(&self) -> bool {
        &&& self.stats.tx_count == self.seq
        &&& self.stats.balanced(if self.in_flight {
            1int
        } else {
            0int
        })
        &&& self.stats.rtt_ok()
    }

    pub fn new(args: CliArgs) -> (r: Ping)
        ensures
            r.wf(),
            r.args_spec() == args,
            r.stats_spec() == initial_stats(),
            r.remaining_spec() == args.count,
            r.seq_spec() == 0,
            !r.in_flight_spec(),
    {
        let remaining = args.count;
        Ping { args, stats: Stats::new(), remaining, seq: 0, in_flight: false }
    }

    pub fn args(&self) -> (r: &CliArgs)
        ensures
            *r == self.args_spec(),
    {
        &self.args
    }

    pub fn stats(&self) -> (r: &Stats)
        ensures
            *r == self.stats_spec(),
    {
        &self.stats
    }

    pub fn in_flight(&self) -> (r: bool)
        ensures
            r == self.in_flight_spec(),
    {
        self.in_flight
    }

    /// Milliseconds to wait before the next probe, `since_last_ms` after the
    /// last one was sent: probes start `interval` seconds apart, the first at once.
    pub fn pacing_delay(&self, since_last_ms: u64) -> (r: u64)
        ensures
            self.seq_spec() == 0 ==> r == 0,
            self.seq_spec() != 0 ==> r == if since_last_ms < self.args_spec().interval * 1000 {
                self.args_spec().interval * 1000 - since_last_ms
            } else {
                0
            },
    {
        if self.seq == 0 {
            return 0;
        }
        let interval = self.args.interval as u64 * 1000;
        if since_last_ms < interval {
            interval - since_last_ms
        } else {
            0
        }
    }

    /// Starts the next probe and returns its request frame, or `None` when
    /// the probes asked for are all sent, or the sequence numbers are spent.
    pub fn next_probe(&mut self) -> (r: Option<Vec<u8>>)
        requires
            old(self).wf(),
            !old(self).in_flight_spec(),
        ensures
            final(self).wf(),
            final(self).args_spec() == old(self).args_spec(),
            r is None <==> ((old(self).args_spec().count != 0 && old(self).remaining_spec() == 0)
                || old(self).seq_spec() == u32::MAX),
            r is None ==> *final(self) == *old(self),
            r is None ==> final(self).stats_spec().balanced(0),
            r is Some ==> {
                &&& final(self).seq_spec() == old(self).seq_spec() + 1
                &&& final(self).in_flight_spec()
                &&& final(self).stats_spec() == (Stats {
                    tx_count: final(self).seq_spec(),
                    ..old(self).stats_spec()
                })
                &&& final(self).remaining_spec() == if old(self).args_spec().count != 0 {
                    old(self).remaining_spec() - 1
                } else {
                    old(self).remaining_spec() as int
                }
                &&& r->Some_0@ == request_frame(
                    final(self).seq_spec(),
                    old(self).args_spec().length,
                    old(self).args_spec().host_addr,
                )
            },
    {
        if self.args.count != 0 && self.remaining == 0 {
            return None;
        }
        if self.seq == u32::MAX {
            return None;
        }
        if self.args.count != 0 {
            self.remaining = self.remaining - 1;
        }
        self.seq = self.seq + 1;
        self.stats.tx_count = self.seq;
        self.in_flight = true;
        Some(build_request(self.seq, self.args.length, &self.args.host_addr))
    }

    /// The probe in flight could not be sent.
    pub fn send_failed(&mut self)
        requires
            old(self).wf(),
            old(self).in_flight_spec(),
        ensures
            final(self).wf(),
            !final(self).in_flight_spec(),
            final(self).stats_spec() == (Stats {
                lost_count: (old(self).stats_spec().lost_count + 1) as u32,
                ..old(self).stats_spec()
            }),
            final(self).args_spec() == old(self).args_spec(),
            final(self).seq_spec() == old(self).seq_spec(),
            final(self).remaining_spec() == old(self).remaining_spec(),
    {
        self.stats.lost_count = self.stats.lost_count + 1;
        self.in_flight = false;
    }

    /// No answer came for the probe in flight before its deadline.
    pub fn timed_out(&mut self)
        requires
            old(self).wf(),
            old(self).in_flight_spec(),
        ensures
            final(self).wf(),
            !final(self).in_flight_spec(),
            final(self).stats_spec() == (Stats {
                timeout_count: (old(self).stats_spec().timeout_count + 1) as u32,
                ..old(self).stats_spec()
            }),
            final(self).args_spec() == old(self).args_spec(),
            final(self).seq_spec() == old(self).seq_spec(),
            final(self).remaining_spec() == old(self).remaining_spec(),
    {
        self.stats.timeout_count = self.stats.timeout_count + 1;
        self.in_flight = false;
    }

    /// Receiving the answer to the probe in flight failed.
    pub fn recv_failed(&mut self)
        requires
            old(self).wf(),
            old(self).in_flight_spec(),
        ensures
            final(self).wf(),
            !final(self).in_flight_spec(),
            final(self).stats_spec() == (Stats {
                lost_count: (old(self).stats_spec().lost_count + 1) as u32,
                ..old(self).stats_spec()
            }),
            final(self).args_spec() == old(self).args_spec(),
            final(self).seq_spec() == old(self).seq_spec(),
            final(self).remaining_spec() == old(self).remaining_spec(),
    {
        self.stats.lost_count = self.stats.lost_count + 1;
        self.in_flight = false;
    }

    /// Ends the probe in flight with the frame the proxy sent. A frame too
    /// short to hold an answer counts as a failed receive.
    pub fn process_reply(&mut self, frame: &[u8]) -> (r: Option<ProbeReply>)
        requires
            old(self).wf(),
            old(self).in_flight_spec(),
        ensures
            final(self).wf(),
            !final(self).in_flight_spec(),
            r == decode_reply_spec(frame@),
            r is Some ==> final(self).stats_spec() == stats_after_reply(
                old(self).stats_spec(),
                r->Some_0.elapse,
            ),
            r is None ==> final(self).stats_spec() == (Stats {
                lost_count: (old(self).stats_spec().lost_count + 1) as u32,
                ..old(self).stats_spec()
            }),
            final(self).args_spec() == old(self).args_spec(),
            final(self).seq_spec() == old(self).seq_spec(),
            final(self).remaining_spec() == old(self).remaining_spec(),
    {
        let reply = decode_reply(frame);
        match reply {
            Some(ref answer) => self.update_stats(answer.elapse),
            None => self.recv_failed(),
        }
        reply
    }

    /// Counts an answer that took `elapse` microseconds.
    fn update_stats(&mut self, elapse: u32)
        requires
            old(self).wf(),
            old(self).in_flight_spec(),
        ensures
            final(self).wf(),
            !final(self).in_flight_spec(),
            final(self).stats_spec() == stats_after_reply(old(self).stats_spec(), elapse),
            final(self).args_spec() == old(self).args_spec(),
            final(self).seq_spec() == old(self).seq_spec(),
            final(self).remaining_spec() == old(self).remaining_spec(),
    {
        if elapse != NO_ANSWER {
            if self.stats.rtt_min > elapse {
                self.stats.rtt_min = elapse;
            }
            if self.stats.rtt_max < elapse {
                self.stats.rtt_max = elapse;
            }
            let rx = self.stats.rx_count;
            let total = self.stats.rtt_total;
            assert(total + elapse <= (rx + 1) * 0xFFFF_FFFF <= 0xFFFF_FFFF * 0xFFFF_FFFF)
                by (nonlinear_arith)
                requires
                    total <= rx * 0xFFFF_FFFF,
                    elapse <= 0xFFFF_FFFF,
                    rx + 1 <= 0xFFFF_FFFF,
            ;
            self.stats.rtt_total = total + elapse as u64;
        }
        let ghost total0 = old(self).stats.rtt_total;
        let ghost total1 = self.stats.rtt_total;
        let rx0 = self.stats.rx_count;
        self.stats.rx_count = rx0 + 1;
        assert(total1 <= (rx0 + 1) * 0xFFFF_FFFF) by (nonlinear_arith)
            requires
                total1 <= total0 + 0xFFFF_FFFF,
                total0 <= rx0 * 0xFFFF_FFFF,
        ;
        self.in_flight = false;
    }
}

/// When the loop ends, with no probe in flight, every probe sent was
/// answered, lost or timed out.
pub proof fn lemma_counts_balance_at_exit(p: Ping)
    requires
        p.wf(),
        !p.in_flight_spec(),
    ensures
        p.stats_spec().tx_count == p.stats_spec().rx_count + p.stats_spec().lost_count
            + p.stats_spec().timeout_count,
{
}

} // verus!
