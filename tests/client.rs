use ping_proxy::cli::{value_check, CliArgs, CliArgumentError};
use ping_proxy::client::{build_request, decode_reply, Ping, Stats, NO_ANSWER};
use ping_proxy::proxy::{build_proxy_response, decode_request, ProxyInfo};
use ping_proxy::wire::{IpAddress, SockAddr};

fn args(count: u32, host: IpAddress) -> CliArgs {
    let mut a = CliArgs::new();
    a.count = count;
    a.host_addr = host;
    a
}

fn answer(seq: u32, elapse: u32, ttl: u8) -> Vec<u8> {
    let info = ProxyInfo {
        target: SockAddr { ip: IpAddress::V4([127, 0, 0, 1]), port: 1 },
        seq,
        elapse,
        ttl,
    };
    build_proxy_response(&info)
}

#[test]
fn request_frame_v4() {
    let f = build_request(0x01020304, 64, &IpAddress::V4([8, 8, 8, 8]));
    assert_eq!(f, vec![1, 2, 3, 4, 0, 64, 4, 8, 8, 8, 8]);
    let r = decode_request(&f).unwrap();
    assert_eq!(r.seq, 0x01020304);
    assert_eq!(r.packet_length, 64);
    assert!(matches!(r.host, IpAddress::V4([8, 8, 8, 8])));
}

#[test]
fn request_frame_v6() {
    let host = IpAddress::V6([0, 0, 0, 0, 0, 0, 0, 0, 0, 0, 0, 0, 0, 0, 0, 1]);
    let f = build_request(9, 1500, &host);
    assert_eq!(f.len(), 23);
    assert_eq!(f[6], 16);
    let r = decode_request(&f).unwrap();
    assert_eq!(r.seq, 9);
    assert_eq!(r.packet_length, 1500);
    assert!(matches!(r.host, IpAddress::V6(a) if a[15] == 1));
}

#[test]
fn request_with_host_length_zero_or_one_is_rejected() {
    assert!(decode_request(&[0, 0, 0, 1, 0, 64, 0]).is_none());
    assert!(decode_request(&[0, 0, 0, 1, 0, 64, 1, 7]).is_none());
}

#[test]
fn five_byte_request_is_rejected() {
    assert!(decode_request(&[0, 0, 0, 1, 0]).is_none());
}

#[test]
fn request_with_length_mismatch_is_rejected() {
    assert!(decode_request(&[0, 0, 0, 1, 0, 64, 4, 8, 8, 8]).is_none());
    assert!(decode_request(&[0, 0, 0, 1, 0, 64, 4, 8, 8, 8, 8, 8]).is_none());
}

#[test]
fn response_frame_layout() {
    let f = answer(7, 0x00010203, 55);
    assert_eq!(f, vec![0, 0, 0, 7, 0, 1, 2, 3, 55]);
    let r = decode_reply(&f).unwrap();
    assert_eq!(r.seq, 7);
    assert_eq!(r.elapse, 0x00010203);
    assert_eq!(r.ttl, 55);
    assert!(decode_reply(&f[..8]).is_none());
}

#[test]
fn three_answered_probes() {
    let mut ping = Ping::new(args(3, IpAddress::V4([8, 8, 8, 8])));
    let mut seqs = Vec::new();
    while let Some(frame) = ping.next_probe() {
        let req = decode_request(&frame).unwrap();
        seqs.push(req.seq);
        assert_eq!(req.packet_length, 64);
        let reply = ping.process_reply(&answer(req.seq, 800 + req.seq, 55)).unwrap();
        assert_eq!(reply.seq, req.seq);
    }
    assert_eq!(seqs, vec![1, 2, 3]);
    let s = ping.stats();
    assert_eq!((s.tx_count, s.rx_count, s.lost_count, s.timeout_count), (3, 3, 0, 0));
    assert_eq!(s.loss_percent(), 0);
    assert_eq!((s.rtt_min, s.rtt_max, s.rtt_total), (801, 803, 2406));
}

#[test]
fn two_timeouts_against_black_hole() {
    let mut a = args(2, IpAddress::V4([192, 0, 2, 1]));
    a.timeout = 100;
    let mut ping = Ping::new(a);
    while ping.next_probe().is_some() {
        ping.timed_out();
    }
    let s = ping.stats();
    assert_eq!((s.tx_count, s.rx_count, s.lost_count, s.timeout_count), (2, 0, 0, 2));
    assert_eq!(s.loss_percent(), 100);
}

#[test]
fn every_outcome_is_counted_once() {
    let mut ping = Ping::new(args(5, IpAddress::V4([8, 8, 8, 8])));
    let mut i = 0;
    while ping.next_probe().is_some() {
        match i {
            0 => ping.send_failed(),
            1 => ping.timed_out(),
            2 => ping.recv_failed(),
            3 => {
                assert!(ping.process_reply(&[1, 2, 3]).is_none());
            }
            _ => {
                ping.process_reply(&answer(5, NO_ANSWER, 1)).unwrap();
            }
        }
        i += 1;
    }
    let s = ping.stats();
    assert_eq!(s.tx_count, s.rx_count + s.lost_count + s.timeout_count);
    assert_eq!((s.tx_count, s.rx_count, s.lost_count, s.timeout_count), (5, 1, 3, 1));
    assert_eq!(s.loss_percent(), 80);
    // The sentinel is counted but not measured.
    assert_eq!((s.rtt_min, s.rtt_max, s.rtt_total), (u32::MAX, 0, 0));
}

#[test]
fn pacing_waits_for_the_rest_of_the_interval() {
    let mut ping = Ping::new(args(2, IpAddress::V4([8, 8, 8, 8])));
    assert_eq!(ping.pacing_delay(0), 0);
    ping.next_probe().unwrap();
    ping.timed_out();
    assert_eq!(ping.pacing_delay(300), 700);
    assert_eq!(ping.pacing_delay(1000), 0);
    assert_eq!(ping.pacing_delay(4000), 0);
}

#[test]
fn count_zero_is_unbounded() {
    let mut ping = Ping::new(args(0, IpAddress::V4([8, 8, 8, 8])));
    for _ in 0..10 {
        assert!(ping.next_probe().is_some());
        ping.timed_out();
    }
    assert_eq!(ping.stats().tx_count, 10);
}

#[test]
fn fresh_stats() {
    let s = Stats::new();
    assert_eq!(s.rtt_min, u32::MAX);
    assert_eq!((s.rtt_max, s.rtt_total, s.rx_count, s.tx_count), (0, 0, 0, 0));
    assert_eq!(s.loss_percent(), 0);
}

#[test]
fn default_settings() {
    let a = CliArgs::new();
    assert_eq!((a.interval, a.length, a.port, a.timeout, a.count), (1, 64, 2000, 4000, u32::MAX));
    assert!(matches!(a.proxy, IpAddress::V4([127, 0, 0, 1])));
    assert!(matches!(a.host_addr, IpAddress::V4([0, 0, 0, 0])));
    assert!(!a.quiet && !a.show_error && a.host_name.is_empty());
}

#[test]
fn missing_option_value() {
    let v = String::from("5");
    assert_eq!(value_check(Some(&v)).ok().unwrap(), "5");
    let e = value_check(None).err().unwrap();
    assert_eq!(e.kind(), "Miss arguments");
    assert_eq!(CliArgumentError::new("invalid port").kind(), "invalid port");
}
